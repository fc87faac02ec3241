//! How the backend starts and ends.
use crate::actor::{
    Action, ActionModel, Actor, ActorModel, ListenEndReason, Status, StatusModel,
};
use crate::actor_devices::{device_label, normalize_device_name};
use crate::actor_library::no_debug;
use crate::api::{
    BackendModel, BackendSnapshot, BuildInfoModel, BuildInfoSnapshot, ConnectedDevicesModel,
    ConnectedDevicesSnapshot, DevicePlaybackRole, FederationActivityModel,
    FederationActivitySnapshot, FederationDebugSnapshot, FederationOperation, LibraryModel,
    LibrarySnapshot, PlaybackRepeat, PlaybackSnapshot, PlaybackStatus, RemoteData,
    RemoteDataModel, SearchModel, SearchResults, SearchResultsModel, SearchSnapshot,
    SettingsModel, SettingsSnapshot, SimilaritySearchModel, SimilaritySearchSnapshot,
    SimilarityStatusModel, SimilarityStatusSnapshot,
};
use crate::queue::{Queue, QueueModel};
use crate::text::{labelled, trim, trimmed};
use crate::views::{opt_view, views};
use vstd::prelude::*;

verus! {

broadcast use crate::views::group_views;

/// The name this device goes by: the one in the settings, or else the one it
/// already has.
pub open spec fn configured_name(setting: Seq<char>, stored: Seq<char>) -> Seq<char> {
    if trimmed(setting).len() == 0 {
        stored
    } else {
        device_label(setting)
    }
}

pub fn configured_device_name(setting: &String, stored: &String) -> (r: String)
    ensures
        r@ == configured_name(setting@, stored@),
{
    if trim(setting.as_str()).as_str().is_empty() {
        stored.clone()
    } else {
        normalize_device_name(setting.as_str())
    }
}

pub open spec fn no_devices() -> ConnectedDevicesModel {
    ConnectedDevicesModel {
        this_device_id: Seq::empty(),
        this_device_name: Seq::empty(),
        group_id: Seq::empty(),
        role: DevicePlaybackRole::Active,
        active_device_id: Seq::empty(),
        active_device_name: Seq::empty(),
        devices: Seq::empty(),
        pending_pairings: Seq::empty(),
        invite: None,
        busy: false,
        last_sync: None,
        error: None,
    }
}

/// Nothing loaded, nothing playing, nothing asked.
pub open spec fn idle(
    settings: SettingsModel,
    build_info: BuildInfoModel,
    similarity_status: SimilarityStatusModel,
    settings_error: Option<Seq<char>>,
) -> BackendModel {
    BackendModel {
        revision: 0,
        library: RemoteDataModel::NotRequested,
        playback: PlaybackSnapshot {
            status: PlaybackStatus::Stopped,
            position_nanos: 0,
            duration_nanos: 0,
            volume_ppb: 720_000_000,
            shuffle: false,
            repeat: PlaybackRepeat::Off,
        },
        queue: QueueModel::empty(),
        search: SearchModel {
            request_id: None,
            results: SearchResultsModel {
                artists: Seq::empty(),
                releases: Seq::empty(),
                tracks: Seq::empty(),
            },
            federation_pending: false,
            stats: None,
            error: None,
        },
        federation_activity: FederationActivityModel {
            operation: FederationOperation::Idle,
            pending: false,
            stats: None,
            error: None,
        },
        federation_debug: no_debug(),
        build_info,
        connected_devices: no_devices(),
        settings,
        similarity_status,
        similarity_search: SimilaritySearchModel {
            source_title: Seq::empty(),
            results: Seq::empty(),
            pending: false,
            error: None,
        },
        playback_error: None,
        settings_error,
    }
}

fn idle_snapshot(
    settings: SettingsSnapshot,
    build_info: BuildInfoSnapshot,
    similarity_status: SimilarityStatusSnapshot,
    settings_error: Option<String>,
) -> (r: BackendSnapshot)
    ensures
        r@ == idle(settings@, build_info@, similarity_status@, opt_view(settings_error)),
{
    BackendSnapshot {
        revision: 0,
        library: RemoteData::NotRequested,
        playback: PlaybackSnapshot {
            status: PlaybackStatus::Stopped,
            position_nanos: 0,
            duration_nanos: 0,
            volume_ppb: 720_000_000,
            shuffle: false,
            repeat: PlaybackRepeat::Off,
        },
        queue: Queue::default(),
        search: SearchSnapshot {
            request_id: None,
            results: SearchResults {
                artists: Vec::new(),
                releases: Vec::new(),
                tracks: Vec::new(),
            },
            federation_pending: false,
            stats: None,
            error: None,
        },
        federation_activity: FederationActivitySnapshot {
            operation: FederationOperation::Idle,
            pending: false,
            stats: None,
            error: None,
        },
        federation_debug: FederationDebugSnapshot {
            running: false,
            endpoint_id: String::new(),
            dht_node_id: String::new(),
            connected_peers: 0,
            known_contacts: 0,
            stored_dht_records: None,
            published_items: 0,
            error: None,
        },
        build_info,
        connected_devices: ConnectedDevicesSnapshot {
            this_device_id: String::new(),
            this_device_name: String::new(),
            group_id: String::new(),
            role: DevicePlaybackRole::Active,
            active_device_id: String::new(),
            active_device_name: String::new(),
            devices: Vec::new(),
            pending_pairings: Vec::new(),
            invite: None,
            busy: false,
            last_sync: None,
            error: None,
        },
        settings,
        similarity_status,
        similarity_search: SimilaritySearchSnapshot {
            source_title: String::new(),
            results: Vec::new(),
            pending: false,
            error: None,
        },
        playback_error: None,
        settings_error,
    }
}

/// The machine as it starts. `stored` is the name the device store holds, and
/// `name_error` what went wrong if the configured name could not be stored
/// there.
pub open spec fn started(
    settings: SettingsModel,
    library: LibraryModel,
    build_info: BuildInfoModel,
    similarity_status: SimilarityStatusModel,
    device_id: Seq<char>,
    stored: Seq<char>,
    name_error: Option<Seq<char>>,
    status: StatusModel,
) -> ActorModel {
    let name = configured_name(settings.device_name, stored);
    let failed = name != stored && name_error is Some;
    let fresh = ActorModel::fresh(
        idle(
            SettingsModel { device_name: name, ..settings },
            build_info,
            similarity_status,
            if failed {
                Some("device name: "@ + name_error->0)
            } else {
                None
            },
        ),
        library,
        device_id,
        if !failed && name.len() > 0 {
            name
        } else {
            stored
        },
    );
    let saved = if settings.device_name != name {
        fresh.act(ActionModel::SaveSettings { settings: fresh.state.settings })
    } else {
        fresh
    };
    let running = if settings.similarity.enabled {
        saved.act(ActionModel::StartSimilarity)
    } else {
        saved
    };
    running.refresh_devices(status)
}

pub fn initialize_actor(
    settings: SettingsSnapshot,
    library: LibrarySnapshot,
    build_info: BuildInfoSnapshot,
    similarity_status: SimilarityStatusSnapshot,
    device_id: String,
    stored: String,
    name_error: Option<String>,
    status: &Status,
) -> (r: Actor)
    ensures
        r@ == started(
            settings@,
            library@,
            build_info@,
            similarity_status@,
            device_id@,
            stored@,
            opt_view(name_error),
            status@,
        ),
        r@.wf(),
{
    let name = configured_device_name(&settings.device_name, &stored);
    let failed = name != stored && name_error.is_some();
    let renamed = settings.device_name != name;
    let similarity_enabled = settings.similarity.enabled;
    let settings_error: Option<String> = match name_error {
        Some(message) => if failed {
            Some(labelled("device name: ", message.as_str()))
        } else {
            None
        },
        None => None,
    };
    let active_name = if !failed && !name.as_str().is_empty() {
        name.clone()
    } else {
        stored
    };
    let mut settings = settings;
    settings.device_name = name;
    let saved = settings.clone();
    let state = idle_snapshot(settings, build_info, similarity_status, settings_error);
    let mut actor = Actor::fresh(state, library, device_id, active_name);
    if renamed {
        actor.act(Action::SaveSettings { settings: saved });
    }
    if similarity_enabled {
        actor.act(Action::StartSimilarity);
    }
    actor.refresh_connected_devices(status);
    actor
}

impl ActorModel {
    /// Nothing is searched, listened to or heard any more.
    pub open spec fn shut_down(self) -> Self {
        self.cancel_active_search().finish_listen(ListenEndReason::Stopped).act(
            ActionModel::AudioStop,
        )
    }
}

impl Actor {
    pub fn shut_down(&mut self)
        requires
            old(self)@.wf(),
        ensures
            final(self)@ == old(self)@.shut_down(),
    {
        self.cancel_active_search();
        self.finish_listen(ListenEndReason::Stopped);
        self.act(Action::AudioStop);
    }
}

} // verus!

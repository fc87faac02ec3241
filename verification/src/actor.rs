//! The backend as a state machine. Commands and events change its state and
//! leave actions in its outbox; whoever drives it performs them, in order, and
//! hands back what came of those that answer before anything else.
use crate::api::{
    BackendModel, BackendSnapshot, ConnectedDevicesModel, ConnectedDevicesSnapshot,
    DevicePlaybackRole, FederationActivityModel, FederationActivitySnapshot,
    FederationDebugModel, FederationDebugSnapshot, LibraryModel, LibrarySnapshot,
    PlaybackSnapshot, PlaybackStatus, RemoteData, RequestId, SearchModel, SearchResults, SearchSnapshot,
    SettingsModel, SettingsSnapshot, SimilaritySearchModel, SimilaritySearchSnapshot,
    SimilaritySettingsModel, SimilaritySettingsSnapshot, SimilarityStatusModel,
    SimilarityStatusSnapshot,
};
use crate::catalog::{
    ArtistKey, ArtistKeyModel, ReleaseKey, ReleaseKeyModel, Track, TrackKey, TrackKeyModel,
    TrackModel,
};
use crate::queue::{Queue, QueueItemModel, QueueModel};
use crate::views::{opt_view, views};
use crate::wire::{
    percent, playback_track, track_to_playback_track, volume_percent, DevicePlayback,
    DevicePlaybackModel, PlaybackStateWire, PlaybackStateWireModel, PlaybackTrack,
    PlaybackTrackModel, SyncedFedTrack, SyncedFedTrackModel,
};
use vstd::prelude::*;

verus! {

broadcast use crate::views::group_views;

/// An instant, in nanoseconds of a clock that never goes back and in
/// milliseconds since the Unix epoch.
#[derive(Debug, Clone, Copy, PartialEq, Eq, Structural)]
pub struct Moment {
    pub nanos: u64,
    pub unix_ms: i64,
}

/// Why a track was no longer listened to.
#[derive(Debug, Clone, Copy, PartialEq, Eq, Structural)]
pub enum ListenEndReason {
    Finished,
    Skipped,
    Stopped,
    Replaced,
    Unknown,
}

/// A device of the listener's group.
#[derive(Debug, Default, PartialEq, Eq)]
pub struct DeviceRow {
    pub id: String,
    pub name: String,
    pub client_version: String,
    pub is_self: bool,
    pub online: bool,
    pub revoked: bool,
}

pub struct DeviceRowModel {
    pub id: Seq<char>,
    pub name: Seq<char>,
    pub client_version: Seq<char>,
    pub is_self: bool,
    pub online: bool,
    pub revoked: bool,
}

impl View for DeviceRow {
    type V = DeviceRowModel;

    open spec fn view(&self) -> DeviceRowModel {
        DeviceRowModel {
            id: self.id@,
            name: self.name@,
            client_version: self.client_version@,
            is_self: self.is_self,
            online: self.online,
            revoked: self.revoked,
        }
    }
}

impl Clone for DeviceRow {
    fn clone(&self) -> (r: Self)
        ensures
            r@ == self@,
    {
        DeviceRow {
            id: self.id.clone(),
            name: self.name.clone(),
            client_version: self.client_version.clone(),
            is_self: self.is_self,
            online: self.online,
            revoked: self.revoked,
        }
    }
}

/// A device that asks to join.
#[derive(Debug, Default, PartialEq, Eq)]
pub struct PendingPairing {
    pub request_id: String,
    pub device_id: String,
    pub name: String,
    pub client_version: String,
    pub requester_group_id: Option<String>,
    pub requester_group_active_devices: usize,
}

pub struct PendingPairingModel {
    pub request_id: Seq<char>,
    pub device_id: Seq<char>,
    pub name: Seq<char>,
    pub client_version: Seq<char>,
    pub requester_group_id: Option<Seq<char>>,
    pub requester_group_active_devices: usize,
}

impl View for PendingPairing {
    type V = PendingPairingModel;

    open spec fn view(&self) -> PendingPairingModel {
        PendingPairingModel {
            request_id: self.request_id@,
            device_id: self.device_id@,
            name: self.name@,
            client_version: self.client_version@,
            requester_group_id: opt_view(self.requester_group_id),
            requester_group_active_devices: self.requester_group_active_devices,
        }
    }
}

impl Clone for PendingPairing {
    fn clone(&self) -> (r: Self)
        ensures
            r@ == self@,
    {
        PendingPairing {
            request_id: self.request_id.clone(),
            device_id: self.device_id.clone(),
            name: self.name.clone(),
            client_version: self.client_version.clone(),
            requester_group_id: self.requester_group_id.clone(),
            requester_group_active_devices: self.requester_group_active_devices,
        }
    }
}

/// What the device store says of the listener's group.
#[derive(Debug, Default, PartialEq, Eq)]
pub struct Status {
    pub this_device_id: String,
    pub this_device_name: String,
    pub group_id: String,
    pub devices: Vec<DeviceRow>,
    pub pending: Vec<PendingPairing>,
    pub last_sync: Option<String>,
    pub error: Option<String>,
}

pub struct StatusModel {
    pub this_device_id: Seq<char>,
    pub this_device_name: Seq<char>,
    pub group_id: Seq<char>,
    pub devices: Seq<DeviceRowModel>,
    pub pending: Seq<PendingPairingModel>,
    pub last_sync: Option<Seq<char>>,
    pub error: Option<Seq<char>>,
}

impl View for Status {
    type V = StatusModel;

    open spec fn view(&self) -> StatusModel {
        StatusModel {
            this_device_id: self.this_device_id@,
            this_device_name: self.this_device_name@,
            group_id: self.group_id@,
            devices: views(self.devices@),
            pending: views(self.pending@),
            last_sync: opt_view(self.last_sync),
            error: opt_view(self.error),
        }
    }
}

impl Clone for Status {
    fn clone(&self) -> (r: Self)
        ensures
            r@ == self@,
    {
        let r = Status {
            this_device_id: self.this_device_id.clone(),
            this_device_name: self.this_device_name.clone(),
            group_id: self.group_id.clone(),
            devices: self.devices.clone(),
            pending: self.pending.clone(),
            last_sync: self.last_sync.clone(),
            error: self.error.clone(),
        };
        proof {
            assert(r@.devices =~= self@.devices);
            assert(r@.pending =~= self@.pending);
        }
        r
    }
}

/// What a step of the machine can see besides its own state: the time, an
/// identifier not used before, a seed, and the device store.
#[derive(Debug, PartialEq)]
pub struct Surroundings {
    pub now: Moment,
    pub listen_id: String,
    pub seed: u64,
    pub devices: Status,
}

pub struct SurroundingsModel {
    pub now: Moment,
    pub listen_id: Seq<char>,
    pub seed: u64,
    pub devices: StatusModel,
}

impl View for Surroundings {
    type V = SurroundingsModel;

    open spec fn view(&self) -> SurroundingsModel {
        SurroundingsModel {
            now: self.now,
            listen_id: self.listen_id@,
            seed: self.seed,
            devices: self.devices@,
        }
    }
}

/// A track that is being listened to.
#[derive(Debug, PartialEq)]
pub struct ListenSession {
    pub id: String,
    pub track: Track,
    pub started_at_ms: i64,
}

pub struct ListenSessionModel {
    pub id: Seq<char>,
    pub track: TrackModel,
    pub started_at_ms: i64,
}

impl View for ListenSession {
    type V = ListenSessionModel;

    open spec fn view(&self) -> ListenSessionModel {
        ListenSessionModel {
            id: self.id@,
            track: self.track@,
            started_at_ms: self.started_at_ms,
        }
    }
}

impl Clone for ListenSession {
    fn clone(&self) -> (r: Self)
        ensures
            r@ == self@,
    {
        ListenSession {
            id: self.id.clone(),
            track: self.track.clone(),
            started_at_ms: self.started_at_ms,
        }
    }
}

/// What the controlled device last said, and when.
#[derive(Debug, PartialEq)]
pub struct ControlPlaybackAnchor {
    pub device_id: String,
    pub state: PlaybackStateWire,
    pub observed_at: u64,
}

pub struct ControlPlaybackAnchorModel {
    pub device_id: Seq<char>,
    pub state: PlaybackStateWireModel,
    pub observed_at: u64,
}

impl View for ControlPlaybackAnchor {
    type V = ControlPlaybackAnchorModel;

    open spec fn view(&self) -> ControlPlaybackAnchorModel {
        ControlPlaybackAnchorModel {
            device_id: self.device_id@,
            state: self.state@,
            observed_at: self.observed_at,
        }
    }
}

impl Clone for ControlPlaybackAnchor {
    fn clone(&self) -> (r: Self)
        ensures
            r@ == self@,
    {
        ControlPlaybackAnchor {
            device_id: self.device_id.clone(),
            state: self.state.clone(),
            observed_at: self.observed_at,
        }
    }
}

/// What the controlled device was last told, and when.
#[derive(Debug, PartialEq)]
pub struct PendingControlState {
    pub device_id: String,
    pub state: PlaybackStateWire,
    pub seek: bool,
    pub sent_at: u64,
}

pub struct PendingControlStateModel {
    pub device_id: Seq<char>,
    pub state: PlaybackStateWireModel,
    pub seek: bool,
    pub sent_at: u64,
}

impl View for PendingControlState {
    type V = PendingControlStateModel;

    open spec fn view(&self) -> PendingControlStateModel {
        PendingControlStateModel {
            device_id: self.device_id@,
            state: self.state@,
            seek: self.seek,
            sent_at: self.sent_at,
        }
    }
}

impl Clone for PendingControlState {
    fn clone(&self) -> (r: Self)
        ensures
            r@ == self@,
    {
        PendingControlState {
            device_id: self.device_id.clone(),
            state: self.state.clone(),
            seek: self.seek,
            sent_at: self.sent_at,
        }
    }
}

/// What a freshly read library is for.
#[derive(Debug, PartialEq)]
pub enum LibraryPurpose {
    /// The first one shown.
    Initialize,
    /// Something in it changed here.
    Refresh,
    /// A downloaded track was imported from this file.
    Imported { key: TrackKey, path: String },
    /// Something in it changed on another device.
    Synced,
}

pub enum LibraryPurposeModel {
    Initialize,
    Refresh,
    Imported { key: TrackKeyModel, path: Seq<char> },
    Synced,
}

impl View for LibraryPurpose {
    type V = LibraryPurposeModel;

    open spec fn view(&self) -> LibraryPurposeModel {
        match *self {
            LibraryPurpose::Initialize => LibraryPurposeModel::Initialize,
            LibraryPurpose::Refresh => LibraryPurposeModel::Refresh,
            LibraryPurpose::Imported { key, path } => LibraryPurposeModel::Imported {
                key: key@,
                path: path@,
            },
            LibraryPurpose::Synced => LibraryPurposeModel::Synced,
        }
    }
}

/// Playback changing hands: who takes over, who is to be told first, and who
/// else.
#[derive(Debug, PartialEq)]
pub struct Handoff {
    pub target_id: String,
    pub target_name: String,
    pub target_is_self: bool,
    pub first: String,
    pub second: Option<String>,
    pub state: PlaybackStateWire,
}

pub struct HandoffModel {
    pub target_id: Seq<char>,
    pub target_name: Seq<char>,
    pub target_is_self: bool,
    pub first: Seq<char>,
    pub second: Option<Seq<char>>,
    pub state: PlaybackStateWireModel,
}

impl View for Handoff {
    type V = HandoffModel;

    open spec fn view(&self) -> HandoffModel {
        HandoffModel {
            target_id: self.target_id@,
            target_name: self.target_name@,
            target_is_self: self.target_is_self,
            first: self.first@,
            second: opt_view(self.second),
            state: self.state@,
        }
    }
}

impl Clone for Handoff {
    fn clone(&self) -> (r: Self)
        ensures
            r@ == self@,
    {
        Handoff {
            target_id: self.target_id.clone(),
            target_name: self.target_name.clone(),
            target_is_self: self.target_is_self,
            first: self.first.clone(),
            second: self.second.clone(),
            state: self.state.clone(),
        }
    }
}

/// What the machine asks of the world around it.
#[allow(inconsistent_fields)]
#[derive(Debug, PartialEq)]
pub enum Action {
    /// Play a local file.
    AudioPlay { path: String, volume_ppb: u32 },
    /// Play the stream that arrives for a track.
    AudioPlayStream { key: TrackKey, volume_ppb: u32 },
    AudioPause,
    AudioResume,
    AudioStop,
    AudioSeek { position_nanos: u64 },
    AudioVolume { volume_ppb: u32 },
    /// Delete a file that is no longer played.
    RemoveFile { path: String },
    /// Show a snapshot to the frontend and the playback to the other devices.
    Publish { snapshot: Box<BackendSnapshot>, playback: DevicePlayback },
    /// Show the playback to the other devices.
    PublishPlayback { playback: DevicePlayback },
    SaveSettings { settings: SettingsSnapshot },
    /// Note what was listened to; answered by `ListenRecorded`.
    RecordListen { id: String, track: Track, started_at_ms: i64, listened_ms: i64, reason: ListenEndReason },
    /// Tell the controlled device its state; answered by `ControlSent`.
    SendControl { target: String, state: PlaybackStateWire, seek: bool },
    /// Tell other devices who is active now; answered by `HandedOff`.
    HandOff { handoff: Handoff },
    /// Ask the devices to synchronize, these ones at once.
    RequestSync { targets: Vec<String> },
    /// Read the library; answered by `LibraryRead`.
    ReadLibrary { purpose: LibraryPurpose },
    /// Search the library; answered by `LocalSearchFinished`.
    SearchLocal { request_id: RequestId, query: String },
    /// Search the network; `SearchFinished` tells the outcome.
    SearchFederation { request_id: RequestId, query: String },
    CancelSearch { request_id: RequestId },
    /// Ask the network for an artist; `DetailFinished` tells the outcome.
    LoadCard { request_id: RequestId, key: ArtistKey, name: String, release: Option<ReleaseKey> },
    /// Join the network; `FederationStarted` tells the outcome.
    StartFederation { network: String },
    StopFederation,
    ReadFederationDebug,
    /// Fetch artwork; `QueueArtworkResolved` tells the outcome.
    ResolveArtwork { request_id: String, track: Track, keys: Vec<TrackKey> },
    /// Look a track of the history up; `HistoryTrackResolved` tells the outcome.
    ResolveHistory { content_id: String },
    /// Stream a track from a peer.
    StreamTrack { key: TrackKey, peer_id: String, item_id: String, keep: bool, stem: String },
    /// Look content up; `FederatedContentResolved` tells the outcome.
    LookupContent { key: TrackKey, content_id: String },
    /// Take a downloaded file into the library; answered by `LibraryRead` or `ImportFailed`.
    ImportTrack { key: TrackKey, path: String },
    /// Publish the library to the network.
    PublishLibrary,
    /// Answered by `LikeToggled`.
    ToggleLike { content_id: String, fed: Option<SyncedFedTrack> },
    /// Answered by `PlaylistCreated`.
    CreatePlaylist { title: String },
    /// Answered by `PlaylistEdited`.
    RenamePlaylist { playlist_id: i64, title: String },
    /// Answered by `PlaylistEdited`.
    DeletePlaylist { playlist_id: i64 },
    /// Answered by `PlaylistEdited`.
    AddToPlaylist { playlist_id: i64, local_ids: Vec<i64>, remote: Vec<SyncedFedTrack> },
    /// Answered by `PlaylistEdited`.
    RemoveFromPlaylist { playlist_id: i64, local_ids: Vec<i64>, content_ids: Vec<String> },
    /// `DeviceOperationFinished` tells the outcome.
    CreateDeviceInvite,
    /// `DeviceOperationFinished` tells the outcome.
    ConnectDevice { invite: String },
    /// Answered by `PairingAnswered`.
    AnswerPairing { request_id: String, accept: bool, use_requester_group: bool },
    /// Answered by `DeviceNameStored`.
    StoreDeviceName { name: String, publish: bool },
    /// Hand the name back as `DeviceNamePublishDue` after a while.
    ScheduleDeviceName { candidate: String },
    /// `DeviceNamePublished` tells the outcome.
    PublishDeviceName { name: String },
    /// Listen to the other devices and keep in step with them.
    ServeDevices,
    ApplySimilarity { settings: SimilaritySettingsSnapshot },
    StartSimilarity,
    ClearSimilarity,
    /// Look for similar tracks; `SimilaritySearchFinished` tells the outcome.
    SearchSimilar {
        track_id: i64,
        source_title: String,
        settings: SimilaritySettingsSnapshot,
        ask_network: bool,
    },
}

#[allow(inconsistent_fields)]
pub enum ActionModel {
    AudioPlay { path: Seq<char>, volume_ppb: u32 },
    AudioPlayStream { key: TrackKeyModel, volume_ppb: u32 },
    AudioPause,
    AudioResume,
    AudioStop,
    AudioSeek { position_nanos: u64 },
    AudioVolume { volume_ppb: u32 },
    RemoveFile { path: Seq<char> },
    Publish { snapshot: BackendModel, playback: DevicePlaybackModel },
    PublishPlayback { playback: DevicePlaybackModel },
    SaveSettings { settings: SettingsModel },
    RecordListen { id: Seq<char>, track: TrackModel, started_at_ms: i64, listened_ms: i64, reason: ListenEndReason },
    SendControl { target: Seq<char>, state: PlaybackStateWireModel, seek: bool },
    HandOff { handoff: HandoffModel },
    RequestSync { targets: Seq<Seq<char>> },
    ReadLibrary { purpose: LibraryPurposeModel },
    SearchLocal { request_id: RequestId, query: Seq<char> },
    SearchFederation { request_id: RequestId, query: Seq<char> },
    CancelSearch { request_id: RequestId },
    LoadCard { request_id: RequestId, key: ArtistKeyModel, name: Seq<char>, release: Option<ReleaseKeyModel> },
    StartFederation { network: Seq<char> },
    StopFederation,
    ReadFederationDebug,
    ResolveArtwork { request_id: Seq<char>, track: TrackModel, keys: Seq<TrackKeyModel> },
    ResolveHistory { content_id: Seq<char> },
    StreamTrack { key: TrackKeyModel, peer_id: Seq<char>, item_id: Seq<char>, keep: bool, stem: Seq<char> },
    LookupContent { key: TrackKeyModel, content_id: Seq<char> },
    ImportTrack { key: TrackKeyModel, path: Seq<char> },
    PublishLibrary,
    ToggleLike { content_id: Seq<char>, fed: Option<SyncedFedTrackModel> },
    CreatePlaylist { title: Seq<char> },
    RenamePlaylist { playlist_id: i64, title: Seq<char> },
    DeletePlaylist { playlist_id: i64 },
    AddToPlaylist { playlist_id: i64, local_ids: Seq<i64>, remote: Seq<SyncedFedTrackModel> },
    RemoveFromPlaylist { playlist_id: i64, local_ids: Seq<i64>, content_ids: Seq<Seq<char>> },
    CreateDeviceInvite,
    ConnectDevice { invite: Seq<char> },
    AnswerPairing { request_id: Seq<char>, accept: bool, use_requester_group: bool },
    StoreDeviceName { name: Seq<char>, publish: bool },
    ScheduleDeviceName { candidate: Seq<char> },
    PublishDeviceName { name: Seq<char> },
    ServeDevices,
    ApplySimilarity { settings: SimilaritySettingsModel },
    StartSimilarity,
    ClearSimilarity,
    SearchSimilar {
        track_id: i64,
        source_title: Seq<char>,
        settings: SimilaritySettingsModel,
        ask_network: bool,
    },
}

impl View for Action {
    type V = ActionModel;

    open spec fn view(&self) -> ActionModel {
        match *self {
            Action::AudioPlay { path, volume_ppb } => ActionModel::AudioPlay {
                path: path@,
                volume_ppb,
            },
            Action::AudioPlayStream { key, volume_ppb } => ActionModel::AudioPlayStream {
                key: key@,
                volume_ppb,
            },
            Action::AudioPause => ActionModel::AudioPause,
            Action::AudioResume => ActionModel::AudioResume,
            Action::AudioStop => ActionModel::AudioStop,
            Action::AudioSeek { position_nanos } => ActionModel::AudioSeek {
                position_nanos,
            },
            Action::AudioVolume { volume_ppb } => ActionModel::AudioVolume {
                volume_ppb,
            },
            Action::RemoveFile { path } => ActionModel::RemoveFile {
                path: path@,
            },
            Action::Publish { snapshot, playback } => ActionModel::Publish {
                snapshot: snapshot@,
                playback: playback@,
            },
            Action::PublishPlayback { playback } => ActionModel::PublishPlayback {
                playback: playback@,
            },
            Action::SaveSettings { settings } => ActionModel::SaveSettings {
                settings: settings@,
            },
            Action::RecordListen { id, track, started_at_ms, listened_ms, reason } => ActionModel::RecordListen {
                id: id@,
                track: track@,
                started_at_ms,
                listened_ms,
                reason,
            },
            Action::SendControl { target, state, seek } => ActionModel::SendControl {
                target: target@,
                state: state@,
                seek,
            },
            Action::HandOff { handoff } => ActionModel::HandOff {
                handoff: handoff@,
            },
            Action::RequestSync { targets } => ActionModel::RequestSync {
                targets: views(targets@),
            },
            Action::ReadLibrary { purpose } => ActionModel::ReadLibrary {
                purpose: purpose@,
            },
            Action::SearchLocal { request_id, query } => ActionModel::SearchLocal {
                request_id,
                query: query@,
            },
            Action::SearchFederation { request_id, query } => ActionModel::SearchFederation {
                request_id,
                query: query@,
            },
            Action::CancelSearch { request_id } => ActionModel::CancelSearch {
                request_id,
            },
            Action::LoadCard { request_id, key, name, release } => ActionModel::LoadCard {
                request_id,
                key: key@,
                name: name@,
                release: opt_view(release),
            },
            Action::StartFederation { network } => ActionModel::StartFederation {
                network: network@,
            },
            Action::StopFederation => ActionModel::StopFederation,
            Action::ReadFederationDebug => ActionModel::ReadFederationDebug,
            Action::ResolveArtwork { request_id, track, keys } => ActionModel::ResolveArtwork {
                request_id: request_id@,
                track: track@,
                keys: views(keys@),
            },
            Action::ResolveHistory { content_id } => ActionModel::ResolveHistory {
                content_id: content_id@,
            },
            Action::StreamTrack { key, peer_id, item_id, keep, stem } => ActionModel::StreamTrack {
                key: key@,
                peer_id: peer_id@,
                item_id: item_id@,
                keep,
                stem: stem@,
            },
            Action::LookupContent { key, content_id } => ActionModel::LookupContent {
                key: key@,
                content_id: content_id@,
            },
            Action::ImportTrack { key, path } => ActionModel::ImportTrack {
                key: key@,
                path: path@,
            },
            Action::PublishLibrary => ActionModel::PublishLibrary,
            Action::ToggleLike { content_id, fed } => ActionModel::ToggleLike {
                content_id: content_id@,
                fed: opt_view(fed),
            },
            Action::CreatePlaylist { title } => ActionModel::CreatePlaylist {
                title: title@,
            },
            Action::RenamePlaylist { playlist_id, title } => ActionModel::RenamePlaylist {
                playlist_id,
                title: title@,
            },
            Action::DeletePlaylist { playlist_id } => ActionModel::DeletePlaylist {
                playlist_id,
            },
            Action::AddToPlaylist { playlist_id, local_ids, remote } => ActionModel::AddToPlaylist {
                playlist_id,
                local_ids: local_ids@,
                remote: views(remote@),
            },
            Action::RemoveFromPlaylist { playlist_id, local_ids, content_ids } => ActionModel::RemoveFromPlaylist {
                playlist_id,
                local_ids: local_ids@,
                content_ids: views(content_ids@),
            },
            Action::CreateDeviceInvite => ActionModel::CreateDeviceInvite,
            Action::ConnectDevice { invite } => ActionModel::ConnectDevice {
                invite: invite@,
            },
            Action::AnswerPairing { request_id, accept, use_requester_group } => ActionModel::AnswerPairing {
                request_id: request_id@,
                accept,
                use_requester_group,
            },
            Action::StoreDeviceName { name, publish } => ActionModel::StoreDeviceName {
                name: name@,
                publish,
            },
            Action::ScheduleDeviceName { candidate } => ActionModel::ScheduleDeviceName {
                candidate: candidate@,
            },
            Action::PublishDeviceName { name } => ActionModel::PublishDeviceName {
                name: name@,
            },
            Action::ServeDevices => ActionModel::ServeDevices,
            Action::ApplySimilarity { settings } => ActionModel::ApplySimilarity {
                settings: settings@,
            },
            Action::StartSimilarity => ActionModel::StartSimilarity,
            Action::ClearSimilarity => ActionModel::ClearSimilarity,
            Action::SearchSimilar { track_id, source_title, settings, ask_network } =>
                ActionModel::SearchSimilar {
                track_id,
                source_title: source_title@,
                settings: settings@,
                ask_network,
            },
        }
    }
}

/// The backend's state, and what it still wants done.
#[derive(Debug, PartialEq)]
pub struct Actor {
    state: BackendSnapshot,
    library: LibrarySnapshot,
    active_search: Option<RequestId>,
    active_detail: Option<RequestId>,
    federation_ready: bool,
    ephemeral_audio: Option<(TrackKey, String)>,
    pending_queue_artwork: Vec<String>,
    pending_history_resolutions: Vec<String>,
    federation_debug_pending: bool,
    device_service_ready: bool,
    device_role: DevicePlaybackRole,
    active_device_id: String,
    active_device_name: String,
    control_anchor: Option<ControlPlaybackAnchor>,
    pending_control: Option<PendingControlState>,
    listen_session: Option<ListenSession>,
    outbox: Vec<Action>,
}

pub struct ActorModel {
    pub state: BackendModel,
    pub library: LibraryModel,
    pub active_search: Option<RequestId>,
    pub active_detail: Option<RequestId>,
    pub federation_ready: bool,
    pub ephemeral_audio: Option<(TrackKeyModel, Seq<char>)>,
    pub pending_queue_artwork: Seq<Seq<char>>,
    pub pending_history_resolutions: Seq<Seq<char>>,
    pub federation_debug_pending: bool,
    pub device_service_ready: bool,
    pub device_role: DevicePlaybackRole,
    pub active_device_id: Seq<char>,
    pub active_device_name: Seq<char>,
    pub control_anchor: Option<ControlPlaybackAnchorModel>,
    pub pending_control: Option<PendingControlStateModel>,
    pub listen_session: Option<ListenSessionModel>,
    pub outbox: Seq<ActionModel>,
}

impl View for Actor {
    type V = ActorModel;

    closed spec fn view(&self) -> ActorModel {
        ActorModel {
            state: self.state@,
            library: self.library@,
            active_search: self.active_search,
            active_detail: self.active_detail,
            federation_ready: self.federation_ready,
            ephemeral_audio: match self.ephemeral_audio {
                Some((key, path)) => Some((key@, path@)),
                None => None,
            },
            pending_queue_artwork: views(self.pending_queue_artwork@),
            pending_history_resolutions: views(self.pending_history_resolutions@),
            federation_debug_pending: self.federation_debug_pending,
            device_service_ready: self.device_service_ready,
            device_role: self.device_role,
            active_device_id: self.active_device_id@,
            active_device_name: self.active_device_name@,
            control_anchor: opt_view(self.control_anchor),
            pending_control: opt_view(self.pending_control),
            listen_session: opt_view(self.listen_session),
            outbox: views(self.outbox@),
        }
    }
}

/// The queue as other devices are told of it.
pub open spec fn queue_wire(items: Seq<QueueItemModel>) -> Seq<PlaybackTrackModel> {
    Seq::new(items.len(), |i: int| playback_track(items[i].track))
}

/// A time as the wire counts it; one too large stays at the largest.
pub open spec fn signed_nanos(nanos: u64) -> i64 {
    if nanos > i64::MAX {
        i64::MAX
    } else {
        nanos as i64
    }
}

impl ActorModel {
    /// A machine that has done nothing yet, on a device that plays.
    pub open spec fn fresh(
        state: BackendModel,
        library: LibraryModel,
        device_id: Seq<char>,
        device_name: Seq<char>,
    ) -> Self {
        ActorModel {
            state,
            library,
            active_search: None,
            active_detail: None,
            federation_ready: false,
            ephemeral_audio: None,
            pending_queue_artwork: Seq::empty(),
            pending_history_resolutions: Seq::empty(),
            federation_debug_pending: false,
            device_service_ready: false,
            device_role: DevicePlaybackRole::Active,
            active_device_id: device_id,
            active_device_name: device_name,
            control_anchor: None,
            pending_control: None,
            listen_session: None,
            outbox: Seq::empty(),
        }
    }

    /// The queue is in order; nothing else can be out of it.
    pub open spec fn wf(self) -> bool {
        self.state.queue.wf()
    }

    pub open spec fn act(self, action: ActionModel) -> Self {
        ActorModel { outbox: self.outbox.push(action), ..self }
    }

    pub open spec fn with_state(self, state: BackendModel) -> Self {
        ActorModel { state, ..self }
    }

    pub open spec fn with_playback(self, value: PlaybackSnapshot) -> Self {
        self.with_state(BackendModel { playback: value, ..self.state })
    }

    pub open spec fn with_playback_error(self, value: Option<Seq<char>>) -> Self {
        self.with_state(BackendModel { playback_error: value, ..self.state })
    }

    pub open spec fn with_settings_error(self, value: Option<Seq<char>>) -> Self {
        self.with_state(BackendModel { settings_error: value, ..self.state })
    }

    pub open spec fn with_settings(self, value: SettingsModel) -> Self {
        self.with_state(BackendModel { settings: value, ..self.state })
    }

    pub open spec fn with_search(self, value: SearchModel) -> Self {
        self.with_state(BackendModel { search: value, ..self.state })
    }

    pub open spec fn with_activity(self, value: FederationActivityModel) -> Self {
        self.with_state(BackendModel { federation_activity: value, ..self.state })
    }

    pub open spec fn with_federation_debug(self, value: FederationDebugModel) -> Self {
        self.with_state(BackendModel { federation_debug: value, ..self.state })
    }

    pub open spec fn with_connected_devices(self, value: ConnectedDevicesModel) -> Self {
        self.with_state(BackendModel { connected_devices: value, ..self.state })
    }

    pub open spec fn with_similarity_status(self, value: SimilarityStatusModel) -> Self {
        self.with_state(BackendModel { similarity_status: value, ..self.state })
    }

    pub open spec fn with_similarity_search(self, value: SimilaritySearchModel) -> Self {
        self.with_state(BackendModel { similarity_search: value, ..self.state })
    }

    pub open spec fn with_library(self, value: LibraryModel) -> Self {
        ActorModel { library: value, ..self }
    }

    pub open spec fn with_active_search(self, value: Option<RequestId>) -> Self {
        ActorModel { active_search: value, ..self }
    }

    pub open spec fn with_active_detail(self, value: Option<RequestId>) -> Self {
        ActorModel { active_detail: value, ..self }
    }

    pub open spec fn with_federation_ready(self, value: bool) -> Self {
        ActorModel { federation_ready: value, ..self }
    }

    pub open spec fn with_federation_debug_pending(self, value: bool) -> Self {
        ActorModel { federation_debug_pending: value, ..self }
    }

    pub open spec fn with_device_service_ready(self, value: bool) -> Self {
        ActorModel { device_service_ready: value, ..self }
    }

    pub open spec fn with_role(self, value: DevicePlaybackRole) -> Self {
        ActorModel { device_role: value, ..self }
    }

    pub open spec fn with_active_device_id(self, value: Seq<char>) -> Self {
        ActorModel { active_device_id: value, ..self }
    }

    pub open spec fn with_active_device_name(self, value: Seq<char>) -> Self {
        ActorModel { active_device_name: value, ..self }
    }

    pub open spec fn with_control_anchor(self, value: Option<ControlPlaybackAnchorModel>) -> Self {
        ActorModel { control_anchor: value, ..self }
    }

    pub open spec fn with_pending_control(self, value: Option<PendingControlStateModel>) -> Self {
        ActorModel { pending_control: value, ..self }
    }

    pub open spec fn with_pending_artwork(self, value: Seq<Seq<char>>) -> Self {
        ActorModel { pending_queue_artwork: value, ..self }
    }

    pub open spec fn with_pending_history(self, value: Seq<Seq<char>>) -> Self {
        ActorModel { pending_history_resolutions: value, ..self }
    }

    pub open spec fn with_ephemeral_audio(self, value: Option<(TrackKeyModel, Seq<char>)>) -> Self {
        ActorModel { ephemeral_audio: value, ..self }
    }

    pub open spec fn with_queue(self, queue: QueueModel) -> Self {
        self.with_state(BackendModel { queue, ..self.state })
    }

    pub open spec fn with_status(self, status: PlaybackStatus) -> Self {
        self.with_playback(PlaybackSnapshot { status, ..self.state.playback })
    }

    pub open spec fn with_device_error(self, error: Seq<char>) -> Self {
        self.with_connected_devices(
            ConnectedDevicesModel { error: Some(error), ..self.state.connected_devices },
        )
    }

    /// The state of this player as other devices are told of it.
    #[verifier::opaque]
    pub open spec fn wire_state(self, now: Moment) -> PlaybackStateWireModel {
        let playback = self.state.playback;
        PlaybackStateWireModel {
            queue: queue_wire(self.state.queue.items),
            queue_pos: match self.state.queue.current {
                Some(index) => index,
                None => 0,
            },
            playing: playback.status != PlaybackStatus::Stopped,
            paused: playback.status == PlaybackStatus::Paused,
            idle_since_ms: if playback.status != PlaybackStatus::Playing {
                Some(now.unix_ms)
            } else {
                None
            },
            position_nanos: signed_nanos(playback.position_nanos),
            volume: percent(playback.volume_ppb) as u8,
            shuffle: playback.shuffle,
            repeat: playback.repeat,
        }
    }

    /// What this device broadcasts of its playback.
    #[verifier::opaque]
    pub open spec fn broadcast(self, now: Moment) -> DevicePlaybackModel {
        DevicePlaybackModel {
            device_id: self.state.connected_devices.this_device_id,
            device_name: self.state.connected_devices.this_device_name,
            active: self.device_role == DevicePlaybackRole::Active,
            updated_at_ms: now.unix_ms,
            state: self.wire_state(now),
        }
    }

    /// The state under the next revision, shown to everyone.
    #[verifier::opaque]
    pub open spec fn publish(self, now: Moment) -> Self {
        let state = BackendModel {
            revision: crate::application::following(self.state.revision),
            ..self.state
        };
        self.with_state(state).act(
            ActionModel::Publish { snapshot: state, playback: self.broadcast(now) },
        )
    }

    #[verifier::opaque]
    pub open spec fn remove_ephemeral_audio(self) -> Self {
        match self.ephemeral_audio {
            Some((_, path)) => ActorModel { ephemeral_audio: None, ..self }.act(
                ActionModel::RemoveFile { path },
            ),
            None => self,
        }
    }

    /// Closes the listening session: a track played to its end counts in full,
    /// another one up to the position.
    #[verifier::opaque]
    pub open spec fn finish_listen(self, reason: ListenEndReason) -> Self {
        match self.listen_session {
            None => self,
            Some(session) => ActorModel { listen_session: None, ..self }.act(
                ActionModel::RecordListen {
                    id: session.id,
                    track: session.track,
                    started_at_ms: session.started_at_ms,
                    listened_ms: if reason == ListenEndReason::Finished {
                        (session.track.duration_nanos / 1_000_000) as i64
                    } else {
                        (self.state.playback.position_nanos / 1_000_000) as i64
                    },
                    reason,
                },
            ),
        }
    }

    /// Opens a listening session for a track that has a content identifier,
    /// unless it is listened to already or another device plays.
    #[verifier::opaque]
    pub open spec fn begin_listen(self, track: TrackModel, around: SurroundingsModel) -> Self {
        if self.device_role != DevicePlaybackRole::Active {
            self
        } else {
            match self.listen_session {
                Some(session) if session.track.key.matches(track.key) => ActorModel {
                    listen_session: Some(ListenSessionModel { track, ..session }),
                    ..self
                },
                _ => {
                    let ended = self.finish_listen(ListenEndReason::Replaced);
                    if track.key.content_id is Some {
                        ActorModel {
                            listen_session: Some(
                                ListenSessionModel {
                                    id: around.listen_id,
                                    track,
                                    started_at_ms: around.now.unix_ms,
                                },
                            ),
                            ..ended
                        }
                    } else {
                        ended
                    }
                },
            }
        }
    }

    /// Publishes, and before that, where another device plays, tells it the new
    /// state; the answer to that is what is then published.
    #[verifier::opaque]
    pub open spec fn control_and_publish(self, seek: bool, now: Moment) -> Self {
        if self.device_role == DevicePlaybackRole::Control {
            self.act(
                ActionModel::SendControl {
                    target: self.active_device_id,
                    state: self.wire_state(now),
                    seek,
                },
            )
        } else {
            self.publish(now)
        }
    }

    /// What came of telling the controlled device its state.
    #[verifier::opaque]
    pub open spec fn control_sent(
        self,
        target: Seq<char>,
        state: PlaybackStateWireModel,
        seek: bool,
        error: Option<Seq<char>>,
        now: Moment,
    ) -> Self {
        match error {
            Some(message) => self.with_device_error("device control: "@ + message),
            None => ActorModel {
                pending_control: Some(
                    PendingControlStateModel {
                        device_id: target,
                        state,
                        seek,
                        sent_at: now.nanos,
                    },
                ),
                ..self
            },
        }.publish(now)
    }
}

impl Actor {
    pub(crate) fn fresh(
        state: BackendSnapshot,
        library: LibrarySnapshot,
        device_id: String,
        device_name: String,
    ) -> (r: Self)
        ensures
            r@ == ActorModel::fresh(state@, library@, device_id@, device_name@),
    {
        Actor {
            state,
            library,
            active_search: None,
            active_detail: None,
            federation_ready: false,
            ephemeral_audio: None,
            pending_queue_artwork: Vec::new(),
            pending_history_resolutions: Vec::new(),
            federation_debug_pending: false,
            device_service_ready: false,
            device_role: DevicePlaybackRole::Active,
            active_device_id: device_id,
            active_device_name: device_name,
            control_anchor: None,
            pending_control: None,
            listen_session: None,
            outbox: Vec::new(),
        }
    }

    pub fn snapshot(&self) -> (r: &BackendSnapshot)
        ensures
            r@ == self@.state,
    {
        &self.state
    }

    pub fn playback(&self) -> (r: PlaybackSnapshot)
        ensures
            r == self@.state.playback,
    {
        self.state.playback
    }

    pub fn queue(&self) -> (r: &Queue)
        ensures
            r@ == self@.state.queue,
    {
        &self.state.queue
    }

    pub fn settings(&self) -> (r: &SettingsSnapshot)
        ensures
            r@ == self@.state.settings,
    {
        &self.state.settings
    }

    pub fn search(&self) -> (r: &SearchSnapshot)
        ensures
            r@ == self@.state.search,
    {
        &self.state.search
    }

    pub fn results(&self) -> (r: &SearchResults)
        ensures
            r@ == self@.state.search.results,
    {
        &self.state.search.results
    }

    pub fn activity(&self) -> (r: &FederationActivitySnapshot)
        ensures
            r@ == self@.state.federation_activity,
    {
        &self.state.federation_activity
    }

    pub fn federation_debug(&self) -> (r: &FederationDebugSnapshot)
        ensures
            r@ == self@.state.federation_debug,
    {
        &self.state.federation_debug
    }

    pub fn connected_devices(&self) -> (r: &ConnectedDevicesSnapshot)
        ensures
            r@ == self@.state.connected_devices,
    {
        &self.state.connected_devices
    }

    pub fn similarity_search(&self) -> (r: &SimilaritySearchSnapshot)
        ensures
            r@ == self@.state.similarity_search,
    {
        &self.state.similarity_search
    }

    pub fn library(&self) -> (r: &LibrarySnapshot)
        ensures
            r@ == self@.library,
    {
        &self.library
    }

    pub fn active_search(&self) -> (r: Option<RequestId>)
        ensures
            r == self@.active_search,
    {
        self.active_search
    }

    pub fn active_detail(&self) -> (r: Option<RequestId>)
        ensures
            r == self@.active_detail,
    {
        self.active_detail
    }

    pub fn federation_ready(&self) -> (r: bool)
        ensures
            r == self@.federation_ready,
    {
        self.federation_ready
    }

    pub fn federation_debug_pending(&self) -> (r: bool)
        ensures
            r == self@.federation_debug_pending,
    {
        self.federation_debug_pending
    }

    pub fn device_service_ready(&self) -> (r: bool)
        ensures
            r == self@.device_service_ready,
    {
        self.device_service_ready
    }

    pub fn role(&self) -> (r: DevicePlaybackRole)
        ensures
            r == self@.device_role,
    {
        self.device_role
    }

    pub fn active_device_id(&self) -> (r: &String)
        ensures
            r@ == self@.active_device_id,
    {
        &self.active_device_id
    }

    pub fn active_device_name(&self) -> (r: &String)
        ensures
            r@ == self@.active_device_name,
    {
        &self.active_device_name
    }

    pub fn control_anchor(&self) -> (r: &Option<ControlPlaybackAnchor>)
        ensures
            opt_view(*r) == self@.control_anchor,
    {
        &self.control_anchor
    }

    pub fn pending_control(&self) -> (r: &Option<PendingControlState>)
        ensures
            opt_view(*r) == self@.pending_control,
    {
        &self.pending_control
    }

    pub fn listen_session(&self) -> (r: &Option<ListenSession>)
        ensures
            opt_view(*r) == self@.listen_session,
    {
        &self.listen_session
    }

    pub fn pending_artwork(&self) -> (r: &Vec<String>)
        ensures
            views(r@) == self@.pending_queue_artwork,
    {
        &self.pending_queue_artwork
    }

    pub fn pending_history(&self) -> (r: &Vec<String>)
        ensures
            views(r@) == self@.pending_history_resolutions,
    {
        &self.pending_history_resolutions
    }

    pub(crate) fn set_playback(&mut self, value: PlaybackSnapshot)
        ensures
            final(self)@ == old(self)@.with_playback(value),
    {
        self.state.playback = value;
    }

    pub(crate) fn set_playback_error(&mut self, value: Option<String>)
        ensures
            final(self)@ == old(self)@.with_playback_error(opt_view(value)),
    {
        self.state.playback_error = value;
    }

    pub(crate) fn set_settings_error(&mut self, value: Option<String>)
        ensures
            final(self)@ == old(self)@.with_settings_error(opt_view(value)),
    {
        self.state.settings_error = value;
    }

    pub(crate) fn set_settings(&mut self, value: SettingsSnapshot)
        ensures
            final(self)@ == old(self)@.with_settings(value@),
    {
        self.state.settings = value;
    }

    pub(crate) fn set_search(&mut self, value: SearchSnapshot)
        ensures
            final(self)@ == old(self)@.with_search(value@),
    {
        self.state.search = value;
    }

    pub(crate) fn set_activity(&mut self, value: FederationActivitySnapshot)
        ensures
            final(self)@ == old(self)@.with_activity(value@),
    {
        self.state.federation_activity = value;
    }

    pub(crate) fn set_federation_debug(&mut self, value: FederationDebugSnapshot)
        ensures
            final(self)@ == old(self)@.with_federation_debug(value@),
    {
        self.state.federation_debug = value;
    }

    pub(crate) fn set_connected_devices(&mut self, value: ConnectedDevicesSnapshot)
        ensures
            final(self)@ == old(self)@.with_connected_devices(value@),
    {
        self.state.connected_devices = value;
    }

    pub(crate) fn set_similarity_status(&mut self, value: SimilarityStatusSnapshot)
        ensures
            final(self)@ == old(self)@.with_similarity_status(value@),
    {
        self.state.similarity_status = value;
    }

    pub(crate) fn set_similarity_search(&mut self, value: SimilaritySearchSnapshot)
        ensures
            final(self)@ == old(self)@.with_similarity_search(value@),
    {
        self.state.similarity_search = value;
    }

    pub(crate) fn set_library(&mut self, value: LibrarySnapshot)
        ensures
            final(self)@ == old(self)@.with_library(value@),
    {
        self.library = value;
    }

    pub(crate) fn set_active_search(&mut self, value: Option<RequestId>)
        ensures
            final(self)@ == old(self)@.with_active_search(value),
    {
        self.active_search = value;
    }

    pub(crate) fn set_active_detail(&mut self, value: Option<RequestId>)
        ensures
            final(self)@ == old(self)@.with_active_detail(value),
    {
        self.active_detail = value;
    }

    pub(crate) fn set_federation_ready(&mut self, value: bool)
        ensures
            final(self)@ == old(self)@.with_federation_ready(value),
    {
        self.federation_ready = value;
    }

    pub(crate) fn set_federation_debug_pending(&mut self, value: bool)
        ensures
            final(self)@ == old(self)@.with_federation_debug_pending(value),
    {
        self.federation_debug_pending = value;
    }

    pub(crate) fn set_device_service_ready(&mut self, value: bool)
        ensures
            final(self)@ == old(self)@.with_device_service_ready(value),
    {
        self.device_service_ready = value;
    }

    pub(crate) fn set_role(&mut self, value: DevicePlaybackRole)
        ensures
            final(self)@ == old(self)@.with_role(value),
    {
        self.device_role = value;
    }

    pub(crate) fn set_active_device_id(&mut self, value: String)
        ensures
            final(self)@ == old(self)@.with_active_device_id(value@),
    {
        self.active_device_id = value;
    }

    pub(crate) fn set_active_device_name(&mut self, value: String)
        ensures
            final(self)@ == old(self)@.with_active_device_name(value@),
    {
        self.active_device_name = value;
    }

    pub(crate) fn set_control_anchor(&mut self, value: Option<ControlPlaybackAnchor>)
        ensures
            final(self)@ == old(self)@.with_control_anchor(opt_view(value)),
    {
        self.control_anchor = value;
    }

    pub(crate) fn set_pending_control(&mut self, value: Option<PendingControlState>)
        ensures
            final(self)@ == old(self)@.with_pending_control(opt_view(value)),
    {
        self.pending_control = value;
    }

    pub(crate) fn set_pending_artwork(&mut self, value: Vec<String>)
        ensures
            final(self)@ == old(self)@.with_pending_artwork(views(value@)),
    {
        self.pending_queue_artwork = value;
    }

    pub(crate) fn set_pending_history(&mut self, value: Vec<String>)
        ensures
            final(self)@ == old(self)@.with_pending_history(views(value@)),
    {
        self.pending_history_resolutions = value;
    }

    pub(crate) fn set_ephemeral_audio(&mut self, key: TrackKey, path: String)
        ensures
            final(self)@ == old(self)@.with_ephemeral_audio(Some((key@, path@))),
    {
        self.ephemeral_audio = Some((key, path));
    }

    pub(crate) fn set_status(&mut self, status: PlaybackStatus)
        ensures
            final(self)@ == old(self)@.with_status(status),
    {
        self.state.playback.status = status;
    }

    pub(crate) fn set_device_error(&mut self, error: String)
        ensures
            final(self)@ == old(self)@.with_device_error(error@),
    {
        self.state.connected_devices.error = Some(error);
    }

    /// Shows the library as it is known now.
    pub(crate) fn show_library(&mut self)
        ensures
            final(self)@ == old(self)@.show_library(),
    {
        self.state.library = RemoteData::Ready(self.library.clone());
    }

    pub(crate) fn queue_mut(&mut self) -> (r: &mut Queue)
        ensures
            r@ == old(self)@.state.queue,
            final(self)@ == old(self)@.with_queue(final(r)@),
    {
        &mut self.state.queue
    }

    pub(crate) fn results_mut(&mut self) -> (r: &mut SearchResults)
        ensures
            r@ == old(self)@.state.search.results,
            final(self)@ == old(self)@.with_search(
                SearchModel { results: final(r)@, ..old(self)@.state.search },
            ),
    {
        &mut self.state.search.results
    }

    pub(crate) fn act(&mut self, action: Action)
        ensures
            final(self)@ == old(self)@.act(action@),
    {
        self.outbox.push(action);
    }

    /// Hands over what is to be done.
    pub fn take_actions(&mut self) -> (r: Vec<Action>)
        ensures
            views(r@) == old(self)@.outbox,
            final(self)@ == (ActorModel { outbox: Seq::empty(), ..old(self)@ }),
    {
        let mut r: Vec<Action> = Vec::new();
        std::mem::swap(&mut r, &mut self.outbox);
        proof {
            assert(self@.outbox =~= Seq::<ActionModel>::empty());
        }
        r
    }

    pub fn playback_wire_state(&self, now: Moment) -> (r: PlaybackStateWire)
        ensures
            r@ == self@.wire_state(now),
    {
        proof {
            reveal(ActorModel::wire_state);
        }
        let items = self.state.queue.items();
        let ghost all = views(items@);
        let mut queue: Vec<PlaybackTrack> = Vec::new();
        let mut i: usize = 0;
        while i < items.len()
            invariant
                i <= items.len() == all.len(),
                all == views(items@),
                views(queue@) == queue_wire(all).take(i as int),
            decreases items.len() - i,
        {
            queue.push(track_to_playback_track(&items[i].track));
            i += 1;
            proof {
                assert(views(queue@) =~= queue_wire(all).take(i as int));
            }
        }
        proof {
            assert(views(queue@) =~= queue_wire(all));
        }
        let playback = self.state.playback;
        PlaybackStateWire {
            queue,
            queue_pos: match self.state.queue.current_index() {
                Some(index) => index,
                None => 0,
            },
            playing: playback.status != PlaybackStatus::Stopped,
            paused: playback.status == PlaybackStatus::Paused,
            idle_since_ms: if playback.status != PlaybackStatus::Playing {
                Some(now.unix_ms)
            } else {
                None
            },
            position_nanos: if playback.position_nanos > 0x7fff_ffff_ffff_ffff {
                i64::MAX
            } else {
                playback.position_nanos as i64
            },
            volume: volume_percent(playback.volume_ppb),
            shuffle: playback.shuffle,
            repeat: playback.repeat,
        }
    }

    pub fn device_playback(&self, now: Moment) -> (r: DevicePlayback)
        ensures
            r@ == self@.broadcast(now),
    {
        proof {
            reveal(ActorModel::broadcast);
        }
        DevicePlayback {
            device_id: self.state.connected_devices.this_device_id.clone(),
            device_name: self.state.connected_devices.this_device_name.clone(),
            active: self.device_role == DevicePlaybackRole::Active,
            updated_at_ms: now.unix_ms,
            state: self.playback_wire_state(now),
        }
    }

    pub fn publish(&mut self, now: Moment)
        requires
            old(self)@.wf(),
        ensures
            final(self)@ == old(self)@.publish(now),
            final(self)@.wf(),
    {
        proof {
            reveal(ActorModel::publish);
        }
        let playback = self.device_playback(now);
        self.state.revision = self.state.revision.saturating_add(1);
        let snapshot = Box::new(self.state.clone());
        self.act(Action::Publish { snapshot, playback });
    }

    pub fn remove_ephemeral_audio(&mut self)
        requires
            old(self)@.wf(),
        ensures
            final(self)@ == old(self)@.remove_ephemeral_audio(),
            final(self)@.wf(),
    {
        proof {
            reveal(ActorModel::remove_ephemeral_audio);
        }
        if let Some((_, path)) = self.ephemeral_audio.take() {
            self.act(Action::RemoveFile { path });
        }
    }

    pub fn finish_listen(&mut self, reason: ListenEndReason)
        requires
            old(self)@.wf(),
        ensures
            final(self)@ == old(self)@.finish_listen(reason),
            final(self)@.wf(),
    {
        proof {
            reveal(ActorModel::finish_listen);
        }
        if let Some(session) = self.listen_session.take() {
            let listened_ms: i64 = if reason == ListenEndReason::Finished {
                (session.track.duration_nanos / 1_000_000) as i64
            } else {
                (self.state.playback.position_nanos / 1_000_000) as i64
            };
            self.act(
                Action::RecordListen {
                    id: session.id,
                    track: session.track,
                    started_at_ms: session.started_at_ms,
                    listened_ms,
                    reason,
                },
            );
        }
    }

    pub fn begin_listen(&mut self, track: &Track, around: &Surroundings)
        requires
            old(self)@.wf(),
        ensures
            final(self)@ == old(self)@.begin_listen(track@, around@),
            final(self)@.wf(),
    {
        proof {
            reveal(ActorModel::begin_listen);
        }
        if self.device_role != DevicePlaybackRole::Active {
            return;
        }
        let continues = match &self.listen_session {
            Some(session) => session.track.key.matches(&track.key),
            None => false,
        };
        if continues {
            if let Some(session) = self.listen_session.take() {
                self.listen_session = Some(
                    ListenSession {
                        id: session.id,
                        track: track.clone(),
                        started_at_ms: session.started_at_ms,
                    },
                );
            }
            return;
        }
        self.finish_listen(ListenEndReason::Replaced);
        if track.key.content_id().is_some() {
            self.listen_session = Some(
                ListenSession {
                    id: around.listen_id.clone(),
                    track: track.clone(),
                    started_at_ms: around.now.unix_ms,
                },
            );
        }
    }

    pub fn control_and_publish(&mut self, seek: bool, now: Moment)
        requires
            old(self)@.wf(),
        ensures
            final(self)@ == old(self)@.control_and_publish(seek, now),
            final(self)@.wf(),
    {
        proof {
            reveal(ActorModel::control_and_publish);
        }
        if self.device_role == DevicePlaybackRole::Control {
            let state = self.playback_wire_state(now);
            let target = self.active_device_id.clone();
            self.act(Action::SendControl { target, state, seek });
        } else {
            self.publish(now);
        }
    }

    pub fn control_sent(
        &mut self,
        target: String,
        state: PlaybackStateWire,
        seek: bool,
        error: Option<String>,
        now: Moment,
    )
        requires
            old(self)@.wf(),
        ensures
            final(self)@ == old(self)@.control_sent(target@, state@, seek, opt_view(error), now),
            final(self)@.wf(),
    {
        proof {
            reveal(ActorModel::control_sent);
        }
        match error {
            Some(message) => {
                let mut text = "device control: ".to_owned();
                text.push_str(message.as_str());
                self.state.connected_devices.error = Some(text);
            },
            None => {
                self.pending_control = Some(
                    PendingControlState { device_id: target, state, seek, sent_at: now.nanos },
                );
            },
        }
        self.publish(now);
    }
}

} // verus!

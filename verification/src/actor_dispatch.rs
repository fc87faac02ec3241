//! What every command and every event does.
use crate::actor::{
    Action, ActionModel, Actor, ActorModel, Handoff, LibraryPurpose, LibraryPurposeModel,
    ListenEndReason, Moment, Surroundings, SurroundingsModel,
};
use crate::actor_devices::device_label;
use crate::actor_library::{no_debug, without};
use crate::actor_playback::{cover_track, with_cover, Event};
use crate::api::{
    BackendCommand, DevicePlaybackRole, FederationActivityModel, FederationDebugModel,
    FederationDebugSnapshot, LibraryModel, LibrarySnapshot, PlaybackSnapshot, PlaybackStatus,
    RequestId, SearchResults, SearchStats, SettingsModel, SettingsSnapshot,
    SimilarityStatusSnapshot, normal_similarity, SimilaritySettingsModel, UNIT,
};
use crate::catalog::{ArtistKey, ReleaseKey, Track, TrackKey, TrackKeyModel, TrackModel};
use crate::find::first_where;
use crate::library::LibraryTrack;
use crate::lookup::{has_key, selected_track_position};
use crate::merge::NameKeys;
use crate::names::{is_name_fn, keys_by};
use crate::queue::{position_of, Queue, QueueItemId, QueueModel};
use crate::text::labelled;
use crate::views::{opt_view, views};
use crate::wire::{DevicePlayback, PlaybackCommand, PlaybackStateWire};
use vstd::prelude::*;

verus! {

broadcast use crate::views::group_views;

/// What an operation on the devices led to.
#[derive(Debug, PartialEq)]
pub enum DeviceOperationOutcome {
    Invite(String),
    Connected(String),
    Failed(String),
}

/// Which edit of a playlist was made.
#[derive(Debug, Clone, Copy, PartialEq, Eq, Structural)]
pub enum PlaylistEdit {
    Rename,
    Delete,
    Add,
    Remove,
}

impl PlaylistEdit {
    pub open spec fn label(self) -> Seq<char> {
        match self {
            PlaylistEdit::Rename => "rename playlist: "@,
            PlaylistEdit::Delete => "delete playlist: "@,
            PlaylistEdit::Add => "add to playlist: "@,
            PlaylistEdit::Remove => "remove from playlist: "@,
        }
    }
}

/// What the world around the machine tells it.
#[allow(inconsistent_fields)]
#[derive(Debug, PartialEq)]
pub enum InternalEvent {
    LocalSearchFinished { request_id: RequestId, query: String, results: SearchResults },
    SearchFinished { request_id: RequestId, results: Result<(SearchResults, SearchStats), String> },
    DetailFinished {
        request_id: RequestId,
        key: ArtistKey,
        name: String,
        results: Result<(SearchResults, SearchStats), String>,
        release: Option<ReleaseKey>,
    },
    FederationStarted(Option<String>),
    DeviceListenerFailed(String),
    SettingsPersisted(Option<String>),
    SettingsUnavailable,
    Audio(Event),
    FederatedStreamReady { key: TrackKey },
    FederatedDownloadComplete { key: TrackKey, path: String, keep: bool },
    FederatedDownloadFailed { key: TrackKey, message: String },
    ImportFailed(String),
    FederatedContentResolved { key: TrackKey, result: Result<Track, String> },
    QueueArtworkResolved { request_id: String, keys: Vec<TrackKey>, cover_uri: Option<String> },
    HistoryTrackResolved { content_id: String, result: Option<Track> },
    FederationDebugUpdated(FederationDebugSnapshot),
    LibraryRead {
        purpose: LibraryPurpose,
        result: Result<(LibrarySnapshot, Vec<String>), String>,
    },
    DevicesChanged,
    DeviceLibraryChanged,
    DeviceNameStored { name: String, publish: bool, error: Option<String> },
    DeviceNamePublishDue(String),
    DeviceNamePublished(Option<String>),
    DeviceOperationFinished(DeviceOperationOutcome),
    PairingAnswered(Option<String>),
    DevicePlaybackSnapshot { snapshot: DevicePlayback, rows: Vec<LibraryTrack> },
    DevicePlaybackCommand { command: PlaybackCommand, rows: Vec<LibraryTrack> },
    ControlSent { target: String, state: PlaybackStateWire, seek: bool, error: Option<String> },
    HandedOff { handoff: Handoff, first_error: Option<String>, second_error: Option<String> },
    ListenRecorded(Option<String>),
    LikeToggled(Result<Option<String>, String>),
    PlaylistCreated(Result<Option<String>, String>),
    PlaylistEdited { edit: PlaylistEdit, error: Option<String> },
    SimilarityStatus(SimilarityStatusSnapshot),
    SimilarityProfileActivated(Option<String>),
    SimilaritySearchFinished {
        source_title: String,
        result: Result<Vec<Track>, String>,
        liked: Vec<String>,
    },
}

/// The queue with the artwork on every track that goes by one of the keys.
pub open spec fn with_cover_on(queue: QueueModel, keys: Seq<TrackKeyModel>, cover: Seq<char>) -> QueueModel
    decreases keys.len(),
{
    if keys.len() == 0 {
        queue
    } else {
        with_cover(with_cover_on(queue, keys.drop_last(), cover), keys.last(), cover)
    }
}

/// How far into a track "previous" still goes to the one before, and not to its
/// start.
pub const PREVIOUS_LIMIT_NANOS: u64 = 5_000_000_000;

impl ActorModel {
    /// Does `action` where this device plays; otherwise the device that does is
    /// told.
    pub open spec fn here_or_there(self, action: ActionModel, seek: bool, now: Moment) -> Self {
        if self.device_role == DevicePlaybackRole::Active {
            self.act(action).publish(now)
        } else {
            self.control_and_publish(seek, now)
        }
    }

    pub open spec fn resume(self, now: Moment) -> Self {
        self.with_status(PlaybackStatus::Playing).here_or_there(
            ActionModel::AudioResume,
            false,
            now,
        )
    }

    pub open spec fn pause(self, now: Moment) -> Self {
        self.with_status(PlaybackStatus::Paused).here_or_there(ActionModel::AudioPause, false, now)
    }

    pub open spec fn at_position(self, position_nanos: u64) -> Self {
        self.with_playback(PlaybackSnapshot { position_nanos, ..self.state.playback })
    }

    #[verifier::opaque]
    pub open spec fn stop(self, now: Moment) -> Self {
        let ended = self.finish_listen(ListenEndReason::Stopped);
        let silent = if ended.device_role == DevicePlaybackRole::Active {
            ended.act(ActionModel::AudioStop)
        } else {
            ended
        };
        silent.remove_ephemeral_audio().with_status(PlaybackStatus::Stopped).at_position(
            0,
        ).control_and_publish(true, now)
    }

    pub open spec fn seek(self, position_nanos: u64, now: Moment) -> Self {
        let reached = if position_nanos < self.state.playback.duration_nanos {
            position_nanos
        } else {
            self.state.playback.duration_nanos
        };
        self.at_position(reached).here_or_there(
            ActionModel::AudioSeek { position_nanos: reached },
            true,
            now,
        )
    }

    pub open spec fn set_volume(self, volume_ppb: u32, now: Moment) -> Self {
        let volume_ppb = if volume_ppb < UNIT {
            volume_ppb
        } else {
            UNIT
        };
        self.with_playback(PlaybackSnapshot { volume_ppb, ..self.state.playback }).here_or_there(
            ActionModel::AudioVolume { volume_ppb },
            false,
            now,
        )
    }

    pub open spec fn toggle_shuffle(self, around: SurroundingsModel) -> Self {
        let shuffle = !self.state.playback.shuffle;
        self.with_playback(PlaybackSnapshot { shuffle, ..self.state.playback }).with_queue(
            if shuffle {
                self.state.queue.shuffle_upcoming(around.seed)
            } else {
                self.state.queue.restore_upcoming_order()
            },
        ).control_and_publish(false, around.now)
    }

    pub open spec fn cycle_repeat(self, now: Moment) -> Self {
        self.with_playback(
            PlaybackSnapshot {
                repeat: self.state.playback.repeat.successor(),
                ..self.state.playback
            },
        ).control_and_publish(false, now)
    }

    /// Plays a new queue from the start position.
    #[verifier::opaque]
    pub open spec fn play_tracks(
        self,
        keys: NameKeys,
        tracks: Seq<TrackModel>,
        start: usize,
        around: SurroundingsModel,
    ) -> Self {
        self.with_queue(self.state.queue.replace_context(tracks, start)).shuffle_new_context(
            around.seed,
        ).resolve_queue_artwork(keys).play_current(around)
    }

    pub open spec fn play_context(
        self,
        keys: NameKeys,
        tracks: Seq<TrackKeyModel>,
        selected: TrackKeyModel,
        around: SurroundingsModel,
    ) -> Self {
        let resolved = self.tracks(tracks);
        let i = first_where(resolved, has_key(selected));
        if resolved.len() == 0 {
            self
        } else {
            self.play_tracks(
                keys,
                resolved,
                (if i < resolved.len() {
                    i
                } else {
                    0
                }) as usize,
                around,
            )
        }
    }

    #[verifier::opaque]
    pub open spec fn queue_extended(self, keys: NameKeys, queue: QueueModel, now: Moment) -> Self {
        self.with_queue(queue).resolve_queue_artwork(keys).control_and_publish(false, now)
    }

    pub open spec fn play_item(self, item_id: QueueItemId, around: SurroundingsModel) -> Self {
        let selected = self.with_queue(self.state.queue.select_item(item_id));
        if selected.state.queue.current is Some {
            selected.play_current(around)
        } else {
            selected
        }
    }

    pub open spec fn move_queue_item(self, item_id: QueueItemId, target: usize, now: Moment) -> Self {
        let moved = self.with_queue(self.state.queue.move_item(item_id, target));
        if self.state.queue.can_move(item_id, target) {
            moved.control_and_publish(false, now)
        } else {
            moved
        }
    }

    /// An item leaves the queue. Where it was the one that plays, the one that
    /// takes its place plays, or else there is silence.
    #[verifier::opaque]
    pub open spec fn remove_queue_item(self, item_id: QueueItemId, around: SurroundingsModel) -> Self {
        let shorter = self.with_queue(self.state.queue.remove_item(item_id));
        match position_of(self.state.queue.items, item_id) {
            None => shorter,
            Some(place) => if self.state.queue.current == Some(place) {
                let ended = shorter.finish_listen(
                    ListenEndReason::Stopped,
                ).remove_ephemeral_audio();
                if ended.state.queue.current is Some {
                    ended.play_current(around)
                } else {
                    let silent = ended.act(ActionModel::AudioStop);
                    silent.with_playback(
                        PlaybackSnapshot {
                            status: PlaybackStatus::Stopped,
                            position_nanos: 0,
                            duration_nanos: 0,
                            ..silent.state.playback
                        },
                    ).control_and_publish(true, around.now)
                }
            } else {
                shorter.control_and_publish(false, around.now)
            },
        }
    }

    pub open spec fn next(self, around: SurroundingsModel) -> Self {
        let advanced = self.advance_queue(false);
        if self.has_next(false) {
            advanced.play_current(around)
        } else {
            advanced
        }
    }

    /// Back to the start of the track, or, near its start, to the one before.
    pub open spec fn previous(self, around: SurroundingsModel) -> Self {
        if self.state.playback.position_nanos > PREVIOUS_LIMIT_NANOS {
            self.at_position(0).here_or_there(
                ActionModel::AudioSeek { position_nanos: 0 },
                true,
                around.now,
            )
        } else if self.state.queue.current is Some {
            self.with_queue(self.state.queue.previous()).play_current(around)
        } else {
            self
        }
    }

    /// Takes over new settings, saves them, and lets what they concern follow.
    #[verifier::opaque]
    pub open spec fn update_settings(self, given: SettingsModel, now: Moment) -> Self {
        let settings = SettingsModel { similarity: normal_similarity(given.similarity), ..given };
        let before = self.state.settings;
        let saved = self.with_settings(settings).with_settings_error(None).publish(now).act(
            ActionModel::SaveSettings { settings },
        );
        let joined = if before.federation_enabled != settings.federation_enabled
            || before.network_id != settings.network_id {
            saved.with_federation_ready(false).start_federation(now)
        } else {
            saved
        };
        let named = if before.device_name != settings.device_name {
            joined.act(
                ActionModel::StoreDeviceName {
                    name: device_label(settings.device_name),
                    publish: false,
                },
            ).act(ActionModel::ScheduleDeviceName { candidate: settings.device_name })
        } else {
            joined
        };
        if before.similarity != settings.similarity {
            named.act(ActionModel::ApplySimilarity { settings: settings.similarity })
        } else {
            named
        }
    }

    /// The state after a command.
    pub open spec fn commanded(
        self,
        keys: NameKeys,
        command: BackendCommand,
        around: SurroundingsModel,
    ) -> Self {
        let now = around.now;
        match command {
            BackendCommand::Initialize => self.act(
                ActionModel::ReadLibrary { purpose: LibraryPurposeModel::Initialize },
            ),
            BackendCommand::TogglePlayback => match self.state.playback.status {
                PlaybackStatus::Stopped => self.play_current(around),
                PlaybackStatus::Paused => self.resume(now),
                PlaybackStatus::Playing => self.pause(now),
            },
            BackendCommand::Play => match self.state.playback.status {
                PlaybackStatus::Stopped => self.play_current(around),
                PlaybackStatus::Paused => self.resume(now),
                PlaybackStatus::Playing => self,
            },
            BackendCommand::Pause => if self.state.playback.status == PlaybackStatus::Playing {
                self.pause(now)
            } else {
                self
            },
            BackendCommand::Stop => self.stop(now),
            BackendCommand::Seek { position_nanos } => self.seek(position_nanos, now),
            BackendCommand::SetVolume { volume_ppb } => self.set_volume(volume_ppb, now),
            BackendCommand::ToggleShuffle => self.toggle_shuffle(around),
            BackendCommand::CycleRepeat => self.cycle_repeat(now),
            BackendCommand::PlayRelease { release_id, start } => match self.release(release_id@) {
                Some(release) => self.play_tracks(keys, release.tracks, start, around),
                None => self,
            },
            BackendCommand::PlayTrack { track } => match self.track(track@) {
                Some(track) => self.play_tracks(keys, seq![track], 0, around),
                None => self,
            },
            BackendCommand::PlayQueueItem { item_id } => self.play_item(item_id, around),
            BackendCommand::SearchSimilar { track } => self.start_similarity_search(track@, now),
            BackendCommand::ClearSimilarity => self.act(ActionModel::ClearSimilarity),
            BackendCommand::MoveQueueItem { item_id, target_index } => self.move_queue_item(
                item_id,
                target_index,
                now,
            ),
            BackendCommand::RemoveQueueItem { item_id } => self.remove_queue_item(item_id, around),
            BackendCommand::PlayContext { tracks, selected } => self.play_context(
                keys,
                views(tracks@),
                selected@,
                around,
            ),
            BackendCommand::AddNext { tracks } => self.queue_extended(
                keys,
                self.state.queue.add_next(self.tracks(views(tracks@))),
                now,
            ),
            BackendCommand::AddToEnd { tracks } => self.queue_extended(
                keys,
                self.state.queue.add_to_end(self.tracks(views(tracks@))),
                now,
            ),
            BackendCommand::ToggleLike { track } => self.toggle_like(track@, now),
            BackendCommand::CreatePlaylist { title } => self.create_playlist(title@),
            BackendCommand::RenamePlaylist { playlist_id, title } => self.rename_playlist(
                playlist_id,
                title@,
            ),
            BackendCommand::DeletePlaylist { playlist_id } => self.act(
                ActionModel::DeletePlaylist { playlist_id },
            ),
            BackendCommand::AddToPlaylist { playlist_id, tracks } => self.add_to_playlist(
                playlist_id,
                views(tracks@),
            ),
            BackendCommand::RemoveFromPlaylist { playlist_id, tracks } =>
                self.remove_from_playlist(playlist_id, views(tracks@)),
            BackendCommand::CreateDeviceInvite => self.device_operation(
                ActionModel::CreateDeviceInvite,
                now,
            ),
            BackendCommand::ConnectDevice { invite } => self.device_operation(
                ActionModel::ConnectDevice { invite: invite@ },
                now,
            ),
            BackendCommand::AnswerDevicePairing { request_id, accept, use_requester_group } =>
                self.act(
                ActionModel::AnswerPairing { request_id: request_id@, accept, use_requester_group },
            ),
            BackendCommand::SelectPlaybackDevice { device_id } => self.select_device(
                device_id@,
                now,
            ),
            BackendCommand::Next => self.next(around),
            BackendCommand::Previous => self.previous(around),
            BackendCommand::Search { request_id, query } => self.start_search(request_id, query@),
            BackendCommand::CancelSearch { request_id } => self.cancel_search(request_id, now),
            BackendCommand::LoadArtist { request_id, key, name } => self.load_detail(
                request_id,
                key@,
                name@,
                None,
                now,
            ),
            BackendCommand::LoadRelease { request_id, key, artist_key, artist_name } =>
                self.load_detail(request_id, artist_key@, artist_name@, Some(key@), now),
            BackendCommand::UpdateSettings(settings) => self.update_settings(settings@, now),
            BackendCommand::Shutdown => self,
        }
    }

    #[verifier::opaque]
    pub open spec fn refresh_federation_debug(self) -> Self {
        if self.federation_debug_pending || !self.federation_ready {
            self
        } else {
            self.with_federation_debug_pending(true).act(ActionModel::ReadFederationDebug)
        }
    }

    pub open spec fn activity_settled(self) -> Self {
        self.with_activity(
            FederationActivityModel { pending: false, ..self.state.federation_activity },
        )
    }

    #[verifier::opaque]
    pub open spec fn federation_joined(self, keys: NameKeys, around: SurroundingsModel) -> Self {
        self.act(ActionModel::ServeDevices).with_device_service_ready(true).act(
            ActionModel::PublishDeviceName { name: self.state.settings.device_name },
        ).act(ActionModel::PublishLibrary).with_federation_ready(
            true,
        ).resolve_history_tracks().activity_settled().resolve_queue_artwork(
            keys,
        ).refresh_federation_debug().refresh_and_publish(around)
    }

    pub open spec fn federation_failed(self, message: Seq<char>, around: SurroundingsModel) -> Self {
        self.with_settings_error(Some(message)).with_activity(
            FederationActivityModel {
                pending: false,
                error: Some(message),
                ..self.state.federation_activity
            },
        ).with_federation_debug(
            FederationDebugModel { error: Some(message), ..no_debug() },
        ).refresh_and_publish(around)
    }

    /// Whether the current track goes by the key.
    pub open spec fn is_current(self, key: TrackKeyModel) -> bool {
        match self.state.queue.current_item() {
            Some(item) => item.track.key.matches(key),
            None => false,
        }
    }

    pub open spec fn download_complete(
        self,
        key: TrackKeyModel,
        path: Seq<char>,
        keep: bool,
        now: Moment,
    ) -> Self {
        if keep {
            self.act(ActionModel::ImportTrack { key, path })
        } else {
            self.remove_ephemeral_audio().with_ephemeral_audio(Some((key, path))).publish(now)
        }
    }

    #[verifier::opaque]
    pub open spec fn content_resolved(
        self,
        keys: NameKeys,
        key: TrackKeyModel,
        track: TrackModel,
        around: SurroundingsModel,
    ) -> Self {
        let replaced = self.with_queue(
            self.state.queue.replace_track(key, track),
        ).resolve_queue_artwork(keys);
        if self.is_current(key) {
            replaced.play_current(around)
        } else {
            replaced.publish(around.now)
        }
    }

    #[verifier::opaque]
    pub open spec fn artwork_resolved(
        self,
        keys: NameKeys,
        request_id: Seq<char>,
        tracks: Seq<TrackKeyModel>,
        cover: Option<Seq<char>>,
        now: Moment,
    ) -> Self {
        let settled = self.with_pending_artwork(
            without(self.pending_queue_artwork, request_id),
        );
        match cover {
            Some(cover) => settled.with_queue(
                with_cover_on(self.state.queue, tracks, cover),
            ).resolve_queue_artwork(keys).publish(now),
            None => settled,
        }
    }

    pub open spec fn debug_updated(self, debug: FederationDebugModel, now: Moment) -> Self {
        let settled = self.with_federation_debug_pending(false);
        if self.state.federation_debug != debug {
            settled.with_federation_debug(debug).publish(now)
        } else {
            settled
        }
    }

    /// The library was read again, for one of the reasons there are to.
    #[verifier::opaque]
    pub open spec fn library_read(
        self,
        purpose: LibraryPurposeModel,
        library: Option<(LibraryModel, Seq<Seq<char>>)>,
        message: Seq<char>,
        around: SurroundingsModel,
    ) -> Self {
        let now = around.now;
        match (purpose, library) {
            (LibraryPurposeModel::Initialize, Some((library, _))) => self.with_library(
                library,
            ).show_library().publish(now).start_federation(now),
            (LibraryPurposeModel::Initialize, None) => self.show_library().publish(
                now,
            ).start_federation(now),
            (LibraryPurposeModel::Refresh, Some((library, liked))) => self.with_library(
                library,
            ).show_library().reconcile_likes(liked).resolve_history_tracks().publish(now),
            (LibraryPurposeModel::Refresh, None) => self.with_settings_error(
                Some("library: "@ + message),
            ).publish(now),
            (LibraryPurposeModel::Imported { key, path }, Some((library, _))) => {
                let known = self.with_library(library).show_library().reconcile_downloaded_tracks(
                    key,
                    path,
                );
                if known.federation_ready {
                    known.act(ActionModel::PublishLibrary).publish(now)
                } else {
                    known.publish(now)
                }
            },
            (LibraryPurposeModel::Imported { .. }, None) => self.publish(now),
            (LibraryPurposeModel::Synced, Some((library, liked))) => self.with_library(
                library,
            ).show_library().reconcile_likes(liked).act(
                ActionModel::StartSimilarity,
            ).resolve_history_tracks().refresh_and_publish(around),
            (LibraryPurposeModel::Synced, None) => self.refresh_and_publish(around),
        }
    }

    /// Shows an error of the settings, or that there is none.
    pub open spec fn settings_persisted(self, error: Option<Seq<char>>, now: Moment) -> Self {
        self.with_settings_error(error).publish(now)
    }

    pub open spec fn profile_activated(self, profile: Option<Seq<char>>, now: Moment) -> Self {
        let settings = SettingsModel {
            similarity: SimilaritySettingsModel {
                active_profile: profile,
                ..self.state.settings.similarity
            },
            ..self.state.settings
        };
        self.with_settings(settings).act(ActionModel::SaveSettings { settings }).publish(now)
    }

    /// The state after an event.
    pub open spec fn told(
        self,
        keys: NameKeys,
        event: InternalEvent,
        around: SurroundingsModel,
    ) -> Self {
        let now = around.now;
        match event {
            InternalEvent::LocalSearchFinished { request_id, query, results } =>
                self.local_search_finished(keys, request_id, query@, results@, now),
            InternalEvent::SearchFinished { request_id, results } => match results {
                Ok((remote, stats)) => self.search_finished(
                    keys,
                    request_id,
                    Some((remote@, stats)),
                    Seq::empty(),
                    now,
                ),
                Err(message) => self.search_finished(keys, request_id, None, message@, now),
            },
            InternalEvent::DetailFinished { request_id, key, name, results, release } =>
                match results {
                Ok((remote, stats)) => self.detail_finished(
                    keys,
                    request_id,
                    key@,
                    name@,
                    opt_view(release),
                    Some((remote@, stats)),
                    Seq::empty(),
                    now,
                ),
                Err(message) => self.detail_finished(
                    keys,
                    request_id,
                    key@,
                    name@,
                    opt_view(release),
                    None,
                    message@,
                    now,
                ),
            },
            InternalEvent::FederationStarted(error) => match error {
                None => self.federation_joined(keys, around),
                Some(message) => self.federation_failed(message@, around),
            },
            InternalEvent::DeviceListenerFailed(message) => self.with_device_error(
                "device listener: "@ + message@,
            ).refresh_and_publish(around),
            InternalEvent::SettingsPersisted(error) => self.settings_persisted(
                opt_view(error),
                now,
            ),
            InternalEvent::SettingsUnavailable => self.settings_persisted(
                Some("settings storage is unavailable"@),
                now,
            ),
            InternalEvent::Audio(event) => match event {
                Event::Started => self.audio_started(now),
                Event::Finished => self.audio_finished(around),
                Event::Failed(message) => self.stopped_with(message@, now),
            },
            InternalEvent::FederatedStreamReady { key } => if self.is_current(key@) {
                self.act(
                    ActionModel::AudioPlayStream {
                        key: key@,
                        volume_ppb: self.state.playback.volume_ppb,
                    },
                )
            } else {
                self
            },
            InternalEvent::FederatedDownloadComplete { key, path, keep } =>
                self.download_complete(key@, path@, keep, now),
            InternalEvent::FederatedDownloadFailed { key, message } => if self.is_current(key@) {
                self.stopped_with(message@, now)
            } else {
                self
            },
            InternalEvent::ImportFailed(message) => self.with_playback_error(
                Some("track played but could not be imported: "@ + message@),
            ).publish(now),
            InternalEvent::FederatedContentResolved { key, result } => match result {
                Ok(track) => self.content_resolved(keys, key@, track@, around),
                Err(message) => if self.is_current(key@) {
                    self.stopped_with(message@, now)
                } else {
                    self
                },
            },
            InternalEvent::QueueArtworkResolved { request_id, keys: tracks, cover_uri } =>
                self.artwork_resolved(
                keys,
                request_id@,
                views(tracks@),
                opt_view(cover_uri),
                now,
            ),
            InternalEvent::HistoryTrackResolved { content_id, result } => self.history_resolved(
                content_id@,
                opt_view(result),
                now,
            ),
            InternalEvent::FederationDebugUpdated(debug) => self.debug_updated(debug@, now),
            InternalEvent::LibraryRead { purpose, result } => match result {
                Ok((library, liked)) => self.library_read(
                    purpose@,
                    Some((library@, views(liked@))),
                    Seq::empty(),
                    around,
                ),
                Err(message) => self.library_read(purpose@, None, message@, around),
            },
            InternalEvent::DevicesChanged => self.refresh_and_publish(around),
            InternalEvent::DeviceLibraryChanged => self.act(
                ActionModel::ReadLibrary { purpose: LibraryPurposeModel::Synced },
            ),
            InternalEvent::DeviceNameStored { name, publish, error } => self.device_name_stored(
                name@,
                publish,
                opt_view(error),
                around,
            ),
            InternalEvent::DeviceNamePublishDue(candidate) => self.device_name_due(candidate@),
            InternalEvent::DeviceNamePublished(error) => self.device_name_published(
                opt_view(error),
                around,
            ),
            InternalEvent::DeviceOperationFinished(outcome) => match outcome {
                DeviceOperationOutcome::Invite(invite) => self.device_invited(invite@, around),
                DeviceOperationOutcome::Connected(message) => self.device_connected(
                    message@,
                    around,
                ),
                DeviceOperationOutcome::Failed(message) => self.device_operation_failed(
                    message@,
                    around,
                ),
            },
            InternalEvent::PairingAnswered(error) => match error {
                Some(message) => self.with_device_error("pairing: "@ + message@),
                None => self,
            }.refresh_and_publish(around),
            InternalEvent::DevicePlaybackSnapshot { snapshot, rows } => self.follow_broadcast(
                keys,
                views(rows@),
                snapshot@,
                around,
            ),
            InternalEvent::DevicePlaybackCommand { command, rows } => self.apply_command(
                keys,
                views(rows@),
                command@,
                around,
            ),
            InternalEvent::ControlSent { target, state, seek, error } => self.control_sent(
                target@,
                state@,
                seek,
                opt_view(error),
                now,
            ),
            InternalEvent::HandedOff { handoff, first_error, second_error } => self.handed_off(
                handoff@,
                opt_view(first_error),
                opt_view(second_error),
                around,
            ),
            InternalEvent::ListenRecorded(error) => match error {
                Some(message) => self.settings_persisted(
                    Some("listening history: "@ + message@),
                    now,
                ),
                None => self,
            },
            InternalEvent::LikeToggled(result) => match result {
                Ok(unsynced) => self.library_edited(
                    None,
                    opt_view(unsynced),
                    "like: "@,
                    "like sync: "@,
                    now,
                ),
                Err(message) => self.library_edited(
                    Some(message@),
                    None,
                    "like: "@,
                    "like sync: "@,
                    now,
                ),
            },
            InternalEvent::PlaylistCreated(result) => match result {
                Ok(unsynced) => self.library_edited(
                    None,
                    opt_view(unsynced),
                    "create playlist: "@,
                    "playlist sync: "@,
                    now,
                ),
                Err(message) => self.library_edited(
                    Some(message@),
                    None,
                    "create playlist: "@,
                    "playlist sync: "@,
                    now,
                ),
            },
            InternalEvent::PlaylistEdited { edit, error } => self.playlist_edited(
                match error {
                    Some(message) => Some(edit.label() + message@),
                    None => None,
                },
            ),
            InternalEvent::SimilarityStatus(status) => self.with_similarity_status(
                status@,
            ).publish(now),
            InternalEvent::SimilarityProfileActivated(profile) => self.profile_activated(
                opt_view(profile),
                now,
            ),
            InternalEvent::SimilaritySearchFinished { source_title, result, liked } =>
                match result {
                Ok(tracks) => self.similarity_finished(
                    source_title@,
                    Some(views(tracks@)),
                    Seq::empty(),
                    views(liked@),
                    now,
                ),
                Err(message) => self.similarity_finished(
                    source_title@,
                    None,
                    message@,
                    views(liked@),
                    now,
                ),
            },
        }
    }
}

fn cover_tracks_of(queue: &mut Queue, keys: &Vec<TrackKey>, cover: &String)
    requires
        old(queue)@.wf(),
    ensures
        final(queue)@ == with_cover_on(old(queue)@, views(keys@), cover@),
        final(queue)@.wf(),
{
    let ghost all = views(keys@);
    let mut i: usize = 0;
    while i < keys.len()
        invariant
            i <= keys.len() == all.len(),
            all == views(keys@),
            queue@ == with_cover_on(old(queue)@, all.take(i as int), cover@),
            queue@.wf(),
        decreases keys.len() - i,
    {
        proof {
            assert(all.take(i + 1).drop_last() =~= all.take(i as int));
        }
        cover_track(queue, &keys[i], cover);
        i += 1;
    }
    proof {
        assert(all.take(i as int) =~= all);
    }
}

impl Actor {
    fn here_or_there(&mut self, action: Action, seek: bool, now: Moment)
        requires
            old(self)@.wf(),
        ensures
            final(self)@ == old(self)@.here_or_there(action@, seek, now),
            final(self)@.wf(),
    {
        if self.role() == DevicePlaybackRole::Active {
            self.act(action);
            self.publish(now);
        } else {
            self.control_and_publish(seek, now);
        }
    }

    fn resume(&mut self, now: Moment)
        requires
            old(self)@.wf(),
        ensures
            final(self)@ == old(self)@.resume(now),
            final(self)@.wf(),
    {
        self.set_status(PlaybackStatus::Playing);
        self.here_or_there(Action::AudioResume, false, now);
    }

    fn pause(&mut self, now: Moment)
        requires
            old(self)@.wf(),
        ensures
            final(self)@ == old(self)@.pause(now),
            final(self)@.wf(),
    {
        self.set_status(PlaybackStatus::Paused);
        self.here_or_there(Action::AudioPause, false, now);
    }

    fn set_position(&mut self, position_nanos: u64)
        requires
            old(self)@.wf(),
        ensures
            final(self)@ == old(self)@.at_position(position_nanos),
            final(self)@.wf(),
    {
        let playback = self.playback();
        self.set_playback(PlaybackSnapshot { position_nanos, ..playback });
    }

    fn stop(&mut self, now: Moment)
        requires
            old(self)@.wf(),
        ensures
            final(self)@ == old(self)@.stop(now),
            final(self)@.wf(),
    {
        proof {
            reveal(ActorModel::stop);
        }
        self.finish_listen(ListenEndReason::Stopped);
        if self.role() == DevicePlaybackRole::Active {
            self.act(Action::AudioStop);
        }
        self.remove_ephemeral_audio();
        self.set_status(PlaybackStatus::Stopped);
        self.set_position(0);
        self.control_and_publish(true, now);
    }

    fn seek(&mut self, position_nanos: u64, now: Moment)
        requires
            old(self)@.wf(),
        ensures
            final(self)@ == old(self)@.seek(position_nanos, now),
            final(self)@.wf(),
    {
        let duration: u64 = self.playback().duration_nanos;
        let reached: u64 = if position_nanos < duration {
            position_nanos
        } else {
            duration
        };
        self.set_position(reached);
        self.here_or_there(Action::AudioSeek { position_nanos: reached }, true, now);
    }

    fn set_volume(&mut self, volume_ppb: u32, now: Moment)
        requires
            old(self)@.wf(),
        ensures
            final(self)@ == old(self)@.set_volume(volume_ppb, now),
            final(self)@.wf(),
    {
        let volume_ppb: u32 = if volume_ppb < UNIT {
            volume_ppb
        } else {
            UNIT
        };
        let playback = self.playback();
        self.set_playback(PlaybackSnapshot { volume_ppb, ..playback });
        self.here_or_there(Action::AudioVolume { volume_ppb }, false, now);
    }

    fn toggle_shuffle(&mut self, around: &Surroundings)
        requires
            old(self)@.wf(),
        ensures
            final(self)@ == old(self)@.toggle_shuffle(around@),
            final(self)@.wf(),
    {
        let playback = self.playback();
        let shuffle = !playback.shuffle;
        self.set_playback(PlaybackSnapshot { shuffle, ..playback });
        if shuffle {
            self.queue_mut().shuffle_upcoming_from(around.seed);
        } else {
            self.queue_mut().restore_upcoming_order();
        }
        self.control_and_publish(false, around.now);
    }

    fn cycle_repeat(&mut self, now: Moment)
        requires
            old(self)@.wf(),
        ensures
            final(self)@ == old(self)@.cycle_repeat(now),
            final(self)@.wf(),
    {
        let playback = self.playback();
        self.set_playback(PlaybackSnapshot { repeat: playback.repeat.next(), ..playback });
        self.control_and_publish(false, now);
    }

    fn play_tracks<F: Fn(&str) -> String>(
        &mut self,
        tracks: Vec<Track>,
        start: usize,
        around: &Surroundings,
        names: &F,
    )
        requires
            is_name_fn(names),
            old(self)@.wf(),
        ensures
            final(self)@ == old(self)@.play_tracks(
                keys_by(names),
                views(tracks@),
                start,
                around@,
            ),
            final(self)@.wf(),
    {
        proof {
            reveal(ActorModel::play_tracks);
        }
        self.queue_mut().replace_context(tracks, start);
        self.shuffle_new_context(around.seed);
        self.resolve_queue_artwork(names);
        self.play_current(around);
    }

    fn play_release<F: Fn(&str) -> String>(
        &mut self,
        release_id: &ReleaseKey,
        start: usize,
        around: &Surroundings,
        names: &F,
    )
        requires
            is_name_fn(names),
            old(self)@.wf(),
        ensures
            final(self)@ == (match old(self)@.release(release_id@) {
                Some(release) => old(self)@.play_tracks(
                    keys_by(names),
                    release.tracks,
                    start,
                    around@,
                ),
                None => old(self)@,
            }),
            final(self)@.wf(),
    {
        let tracks: Vec<Track> = match self.release(release_id) {
            Some(release) => {
                let tracks = release.tracks.clone();
                proof {
                    assert(views(tracks@) =~= release@.tracks);
                }
                tracks
            },
            None => return,
        };
        self.play_tracks(tracks, start, around, names);
    }

    fn play_track<F: Fn(&str) -> String>(
        &mut self,
        key: &TrackKey,
        around: &Surroundings,
        names: &F,
    )
        requires
            is_name_fn(names),
            old(self)@.wf(),
        ensures
            final(self)@ == (match old(self)@.track(key@) {
                Some(track) => old(self)@.play_tracks(keys_by(names), seq![track], 0, around@),
                None => old(self)@,
            }),
            final(self)@.wf(),
    {
        let track: Track = match self.track(key) {
            Some(track) => track.clone(),
            None => return,
        };
        let ghost model = track@;
        let mut tracks: Vec<Track> = Vec::new();
        tracks.push(track);
        proof {
            assert(views(tracks@) =~= seq![model]);
        }
        self.play_tracks(tracks, 0, around, names);
    }

    fn play_context<F: Fn(&str) -> String>(
        &mut self,
        keys: &Vec<TrackKey>,
        selected: &TrackKey,
        around: &Surroundings,
        names: &F,
    )
        requires
            is_name_fn(names),
            old(self)@.wf(),
        ensures
            final(self)@ == old(self)@.play_context(
                keys_by(names),
                views(keys@),
                selected@,
                around@,
            ),
            final(self)@.wf(),
    {
        let tracks = self.resolve_tracks(keys);
        proof {
            assert(views(tracks@).len() == tracks.len());
        }
        if tracks.len() == 0 {
            return;
        }
        let start: usize = selected_track_position(&tracks, selected);
        self.play_tracks(tracks, start, around, names);
    }

    fn add_next<F: Fn(&str) -> String>(&mut self, keys: &Vec<TrackKey>, now: Moment, names: &F)
        requires
            is_name_fn(names),
            old(self)@.wf(),
        ensures
            final(self)@ == old(self)@.queue_extended(
                keys_by(names),
                old(self)@.state.queue.add_next(old(self)@.tracks(views(keys@))),
                now,
            ),
            final(self)@.wf(),
    {
        proof {
            reveal(ActorModel::queue_extended);
        }
        let tracks = self.resolve_tracks(keys);
        self.queue_mut().add_next(tracks);
        self.resolve_queue_artwork(names);
        self.control_and_publish(false, now);
    }

    fn add_to_end<F: Fn(&str) -> String>(&mut self, keys: &Vec<TrackKey>, now: Moment, names: &F)
        requires
            is_name_fn(names),
            old(self)@.wf(),
        ensures
            final(self)@ == old(self)@.queue_extended(
                keys_by(names),
                old(self)@.state.queue.add_to_end(old(self)@.tracks(views(keys@))),
                now,
            ),
            final(self)@.wf(),
    {
        proof {
            reveal(ActorModel::queue_extended);
        }
        let tracks = self.resolve_tracks(keys);
        self.queue_mut().add_to_end(tracks);
        self.resolve_queue_artwork(names);
        self.control_and_publish(false, now);
    }

    fn play_item(&mut self, item_id: QueueItemId, around: &Surroundings)
        requires
            old(self)@.wf(),
        ensures
            final(self)@ == old(self)@.play_item(item_id, around@),
            final(self)@.wf(),
    {
        if self.queue_mut().select_item(item_id).is_some() {
            self.play_current(around);
        }
    }

    fn move_queue_item(&mut self, item_id: QueueItemId, target: usize, now: Moment)
        requires
            old(self)@.wf(),
        ensures
            final(self)@ == old(self)@.move_queue_item(item_id, target, now),
            final(self)@.wf(),
    {
        if self.queue_mut().move_item(item_id, target) {
            self.control_and_publish(false, now);
        }
    }

    fn remove_queue_item(&mut self, item_id: QueueItemId, around: &Surroundings)
        requires
            old(self)@.wf(),
        ensures
            final(self)@ == old(self)@.remove_queue_item(item_id, around@),
            final(self)@.wf(),
    {
        proof {
            reveal(ActorModel::remove_queue_item);
        }
        match self.queue_mut().remove_item(item_id) {
            None => {},
            Some(true) => {
                self.finish_listen(ListenEndReason::Stopped);
                self.remove_ephemeral_audio();
                if self.queue().current_index().is_some() {
                    self.play_current(around);
                } else {
                    self.act(Action::AudioStop);
                    let playback = self.playback();
                    self.set_playback(
                        PlaybackSnapshot {
                            status: PlaybackStatus::Stopped,
                            position_nanos: 0,
                            duration_nanos: 0,
                            ..playback
                        },
                    );
                    self.control_and_publish(true, around.now);
                }
            },
            Some(false) => {
                self.control_and_publish(false, around.now);
            },
        }
    }

    fn next(&mut self, around: &Surroundings)
        requires
            old(self)@.wf(),
        ensures
            final(self)@ == old(self)@.next(around@),
            final(self)@.wf(),
    {
        if self.advance_queue(false) {
            self.play_current(around);
        }
    }

    fn previous(&mut self, around: &Surroundings)
        requires
            old(self)@.wf(),
        ensures
            final(self)@ == old(self)@.previous(around@),
            final(self)@.wf(),
    {
        if self.playback().position_nanos > PREVIOUS_LIMIT_NANOS {
            self.set_position(0);
            self.here_or_there(Action::AudioSeek { position_nanos: 0 }, true, around.now);
        } else if self.queue_mut().previous().is_some() {
            self.play_current(around);
        }
    }

    fn update_settings(&mut self, given: SettingsSnapshot, now: Moment)
        requires
            old(self)@.wf(),
        ensures
            final(self)@ == old(self)@.update_settings(given@, now),
            final(self)@.wf(),
    {
        proof {
            reveal(ActorModel::update_settings);
        }
        let mut settings = given;
        settings.similarity = settings.similarity.normalized();
        let before = self.settings();
        let federation_changed = before.federation_enabled != settings.federation_enabled
            || before.network_id != settings.network_id;
        let device_name_changed = before.device_name != settings.device_name;
        let similarity_changed = !before.similarity.same(&settings.similarity);
        let name = settings.device_name.clone();
        let similarity = settings.similarity.clone();
        self.set_settings(settings.clone());
        self.set_settings_error(None);
        self.publish(now);
        self.act(Action::SaveSettings { settings });
        if federation_changed {
            self.set_federation_ready(false);
            self.start_federation(now);
        }
        if device_name_changed {
            self.apply_local_device_name(&name);
            self.act(Action::ScheduleDeviceName { candidate: name });
        }
        if similarity_changed {
            self.act(Action::ApplySimilarity { settings: similarity });
        }
    }

    /// Carries out a command.
    #[verifier::spinoff_prover]
    #[verifier::rlimit(40)]
    pub fn handle_command<F: Fn(&str) -> String>(
        &mut self,
        command: BackendCommand,
        around: &Surroundings,
        names: &F,
    )
        requires
            is_name_fn(names),
            old(self)@.wf(),
        ensures
            final(self)@ == old(self)@.commanded(keys_by(names), command, around@),
            final(self)@.wf(),
    {
        let now = around.now;
        match command {
            BackendCommand::Initialize => {
                self.act(Action::ReadLibrary { purpose: LibraryPurpose::Initialize });
            },
            BackendCommand::TogglePlayback => match self.playback().status {
                PlaybackStatus::Stopped => self.play_current(around),
                PlaybackStatus::Paused => self.resume(now),
                PlaybackStatus::Playing => self.pause(now),
            },
            BackendCommand::Play => match self.playback().status {
                PlaybackStatus::Stopped => self.play_current(around),
                PlaybackStatus::Paused => self.resume(now),
                PlaybackStatus::Playing => {},
            },
            BackendCommand::Pause => {
                if self.playback().status == PlaybackStatus::Playing {
                    self.pause(now);
                }
            },
            BackendCommand::Stop => self.stop(now),
            BackendCommand::Seek { position_nanos } => self.seek(position_nanos, now),
            BackendCommand::SetVolume { volume_ppb } => self.set_volume(volume_ppb, now),
            BackendCommand::ToggleShuffle => self.toggle_shuffle(around),
            BackendCommand::CycleRepeat => self.cycle_repeat(now),
            BackendCommand::PlayRelease { release_id, start } => self.play_release(
                &release_id,
                start,
                around,
                names,
            ),
            BackendCommand::PlayTrack { track } => self.play_track(&track, around, names),
            BackendCommand::PlayQueueItem { item_id } => self.play_item(item_id, around),
            BackendCommand::SearchSimilar { track } => self.start_similarity_search(&track, now),
            BackendCommand::ClearSimilarity => self.act(Action::ClearSimilarity),
            BackendCommand::MoveQueueItem { item_id, target_index } => self.move_queue_item(
                item_id,
                target_index,
                now,
            ),
            BackendCommand::RemoveQueueItem { item_id } => self.remove_queue_item(item_id, around),
            BackendCommand::PlayContext { tracks, selected } => self.play_context(
                &tracks,
                &selected,
                around,
                names,
            ),
            BackendCommand::AddNext { tracks } => self.add_next(&tracks, now, names),
            BackendCommand::AddToEnd { tracks } => self.add_to_end(&tracks, now, names),
            BackendCommand::ToggleLike { track } => self.toggle_like(&track, now),
            BackendCommand::CreatePlaylist { title } => self.create_playlist(&title),
            BackendCommand::RenamePlaylist { playlist_id, title } => self.rename_playlist(
                playlist_id,
                &title,
            ),
            BackendCommand::DeletePlaylist { playlist_id } => self.act(
                Action::DeletePlaylist { playlist_id },
            ),
            BackendCommand::AddToPlaylist { playlist_id, tracks } => self.add_to_playlist(
                playlist_id,
                &tracks,
            ),
            BackendCommand::RemoveFromPlaylist { playlist_id, tracks } =>
                self.remove_from_playlist(playlist_id, &tracks),
            BackendCommand::CreateDeviceInvite => self.create_device_invite(now),
            BackendCommand::ConnectDevice { invite } => self.connect_device(invite, now),
            BackendCommand::AnswerDevicePairing { request_id, accept, use_requester_group } =>
                self.act(Action::AnswerPairing { request_id, accept, use_requester_group }),
            BackendCommand::SelectPlaybackDevice { device_id } => self.select_playback_device(
                &device_id,
                now,
            ),
            BackendCommand::Next => self.next(around),
            BackendCommand::Previous => self.previous(around),
            BackendCommand::Search { request_id, query } => self.start_search(request_id, query),
            BackendCommand::CancelSearch { request_id } => self.cancel_search(request_id, now),
            BackendCommand::LoadArtist { request_id, key, name } => self.load_detail(
                request_id,
                key,
                name,
                None,
                now,
            ),
            BackendCommand::LoadRelease { request_id, key, artist_key, artist_name } =>
                self.load_detail(request_id, artist_key, artist_name, Some(key), now),
            BackendCommand::UpdateSettings(settings) => self.update_settings(settings, now),
            BackendCommand::Shutdown => {},
        }
    }

    pub fn refresh_federation_debug(&mut self)
        requires
            old(self)@.wf(),
        ensures
            final(self)@ == old(self)@.refresh_federation_debug(),
            final(self)@.wf(),
    {
        proof {
            reveal(ActorModel::refresh_federation_debug);
        }
        if self.federation_debug_pending() || !self.federation_ready() {
            return;
        }
        self.set_federation_debug_pending(true);
        self.act(Action::ReadFederationDebug);
    }

    fn federation_joined<F: Fn(&str) -> String>(&mut self, around: &Surroundings, names: &F)
        requires
            is_name_fn(names),
            old(self)@.wf(),
        ensures
            final(self)@ == old(self)@.federation_joined(keys_by(names), around@),
            final(self)@.wf(),
    {
        proof {
            reveal(ActorModel::federation_joined);
        }
        let name = self.settings().device_name.clone();
        self.act(Action::ServeDevices);
        self.set_device_service_ready(true);
        self.act(Action::PublishDeviceName { name });
        self.act(Action::PublishLibrary);
        self.set_federation_ready(true);
        self.resolve_history_tracks();
        let mut activity = self.activity().clone();
        activity.pending = false;
        self.set_activity(activity);
        self.resolve_queue_artwork(names);
        self.refresh_federation_debug();
        self.refresh_and_publish(around);
    }

    fn federation_failed(&mut self, message: String, around: &Surroundings)
        requires
            old(self)@.wf(),
        ensures
            final(self)@ == old(self)@.federation_failed(message@, around@),
            final(self)@.wf(),
    {
        self.set_settings_error(Some(message.clone()));
        let mut activity = self.activity().clone();
        activity.pending = false;
        activity.error = Some(message.clone());
        self.set_activity(activity);
        self.set_federation_debug(
            FederationDebugSnapshot {
                running: false,
                endpoint_id: String::new(),
                dht_node_id: String::new(),
                connected_peers: 0,
                known_contacts: 0,
                stored_dht_records: None,
                published_items: 0,
                error: Some(message),
            },
        );
        self.refresh_and_publish(around);
    }

    fn is_current(&self, key: &TrackKey) -> (r: bool)
        requires
            self@.wf(),
        ensures
            r == self@.is_current(key@),
    {
        match self.queue().current() {
            Some(item) => item.track.key.matches(key),
            None => false,
        }
    }

    fn download_complete(&mut self, key: TrackKey, path: String, keep: bool, now: Moment)
        requires
            old(self)@.wf(),
        ensures
            final(self)@ == old(self)@.download_complete(key@, path@, keep, now),
            final(self)@.wf(),
    {
        if keep {
            self.act(Action::ImportTrack { key, path });
        } else {
            self.remove_ephemeral_audio();
            self.set_ephemeral_audio(key, path);
            self.publish(now);
        }
    }

    fn content_resolved<F: Fn(&str) -> String>(
        &mut self,
        key: &TrackKey,
        track: &Track,
        around: &Surroundings,
        names: &F,
    )
        requires
            is_name_fn(names),
            old(self)@.wf(),
        ensures
            final(self)@ == old(self)@.content_resolved(keys_by(names), key@, track@, around@),
            final(self)@.wf(),
    {
        proof {
            reveal(ActorModel::content_resolved);
        }
        let current = self.is_current(key);
        self.queue_mut().replace_track(key, track);
        self.resolve_queue_artwork(names);
        if current {
            self.play_current(around);
        } else {
            self.publish(around.now);
        }
    }

    fn artwork_resolved<F: Fn(&str) -> String>(
        &mut self,
        request_id: &String,
        keys: &Vec<TrackKey>,
        cover_uri: &Option<String>,
        now: Moment,
        names: &F,
    )
        requires
            is_name_fn(names),
            old(self)@.wf(),
        ensures
            final(self)@ == old(self)@.artwork_resolved(
                keys_by(names),
                request_id@,
                views(keys@),
                opt_view(*cover_uri),
                now,
            ),
            final(self)@.wf(),
    {
        proof {
            reveal(ActorModel::artwork_resolved);
        }
        let pending = crate::actor_library::remove_text(self.pending_artwork(), request_id);
        self.set_pending_artwork(pending);
        if let Some(cover) = cover_uri {
            cover_tracks_of(self.queue_mut(), keys, cover);
            self.resolve_queue_artwork(names);
            self.publish(now);
        }
    }

    fn debug_updated(&mut self, debug: FederationDebugSnapshot, now: Moment)
        requires
            old(self)@.wf(),
        ensures
            final(self)@ == old(self)@.debug_updated(debug@, now),
            final(self)@.wf(),
    {
        self.set_federation_debug_pending(false);
        if !self.federation_debug().same(&debug) {
            self.set_federation_debug(debug);
            self.publish(now);
        }
    }

    fn library_read(
        &mut self,
        purpose: LibraryPurpose,
        result: Result<(LibrarySnapshot, Vec<String>), String>,
        around: &Surroundings,
    )
        requires
            old(self)@.wf(),
        ensures
            final(self)@ == (match result {
                Ok((library, liked)) => old(self)@.library_read(
                    purpose@,
                    Some((library@, views(liked@))),
                    Seq::empty(),
                    around@,
                ),
                Err(message) => old(self)@.library_read(purpose@, None, message@, around@),
            }),
            final(self)@.wf(),
    {
        proof {
            reveal(ActorModel::library_read);
        }
        let now = around.now;
        match (purpose, result) {
            (LibraryPurpose::Initialize, Ok((library, _))) => {
                self.set_library(library);
                self.show_library();
                self.publish(now);
                self.start_federation(now);
            },
            (LibraryPurpose::Initialize, Err(_)) => {
                self.show_library();
                self.publish(now);
                self.start_federation(now);
            },
            (LibraryPurpose::Refresh, Ok((library, liked))) => {
                self.set_library(library);
                self.show_library();
                self.reconcile_likes(&liked);
                self.resolve_history_tracks();
                self.publish(now);
            },
            (LibraryPurpose::Refresh, Err(message)) => {
                self.set_settings_error(Some(labelled("library: ", message.as_str())));
                self.publish(now);
            },
            (LibraryPurpose::Imported { key, path }, Ok((library, _))) => {
                self.set_library(library);
                self.show_library();
                self.reconcile_downloaded_tracks(&key, &path);
                if self.federation_ready() {
                    self.act(Action::PublishLibrary);
                }
                self.publish(now);
            },
            (LibraryPurpose::Imported { .. }, Err(_)) => {
                self.publish(now);
            },
            (LibraryPurpose::Synced, Ok((library, liked))) => {
                self.set_library(library);
                self.show_library();
                self.reconcile_likes(&liked);
                self.act(Action::StartSimilarity);
                self.resolve_history_tracks();
                self.refresh_and_publish(around);
            },
            (LibraryPurpose::Synced, Err(_)) => {
                self.refresh_and_publish(around);
            },
        }
    }

    fn settings_persisted(&mut self, error: Option<String>, now: Moment)
        requires
            old(self)@.wf(),
        ensures
            final(self)@ == old(self)@.settings_persisted(opt_view(error), now),
            final(self)@.wf(),
    {
        self.set_settings_error(error);
        self.publish(now);
    }

    fn profile_activated(&mut self, profile: Option<String>, now: Moment)
        requires
            old(self)@.wf(),
        ensures
            final(self)@ == old(self)@.profile_activated(opt_view(profile), now),
            final(self)@.wf(),
    {
        let mut settings = self.settings().clone();
        settings.similarity.active_profile = profile;
        self.set_settings(settings.clone());
        self.act(Action::SaveSettings { settings });
        self.publish(now);
    }

    fn playlist_edit_done(&mut self, edit: PlaylistEdit, error: Option<String>)
        requires
            old(self)@.wf(),
        ensures
            final(self)@ == old(self)@.playlist_edited(
                match error {
                    Some(message) => Some(edit.label() + message@),
                    None => None,
                },
            ),
            final(self)@.wf(),
    {
        let error: Option<String> = match error {
            Some(message) => Some(
                match edit {
                    PlaylistEdit::Rename => labelled("rename playlist: ", message.as_str()),
                    PlaylistEdit::Delete => labelled("delete playlist: ", message.as_str()),
                    PlaylistEdit::Add => labelled("add to playlist: ", message.as_str()),
                    PlaylistEdit::Remove => labelled("remove from playlist: ", message.as_str()),
                },
            ),
            None => None,
        };
        self.playlist_edited(error);
    }

    /// Takes in an event.
    #[verifier::spinoff_prover]
    #[verifier::rlimit(40)]
    pub fn handle_internal<F: Fn(&str) -> String>(
        &mut self,
        event: InternalEvent,
        around: &Surroundings,
        names: &F,
    )
        requires
            is_name_fn(names),
            old(self)@.wf(),
        ensures
            final(self)@ == old(self)@.told(keys_by(names), event, around@),
            final(self)@.wf(),
    {
        let now = around.now;
        match event {
            InternalEvent::LocalSearchFinished { request_id, query, results } =>
                self.local_search_finished(request_id, query, results, now, names),
            InternalEvent::SearchFinished { request_id, results } => self.search_finished(
                request_id,
                results,
                now,
                names,
            ),
            InternalEvent::DetailFinished { request_id, key, name, results, release } =>
                self.detail_finished(request_id, key, name, release, results, now, names),
            InternalEvent::FederationStarted(error) => match error {
                None => self.federation_joined(around, names),
                Some(message) => self.federation_failed(message, around),
            },
            InternalEvent::DeviceListenerFailed(message) => {
                self.set_device_error(labelled("device listener: ", message.as_str()));
                self.refresh_and_publish(around);
            },
            InternalEvent::SettingsPersisted(error) => self.settings_persisted(error, now),
            InternalEvent::SettingsUnavailable => self.settings_persisted(
                Some("settings storage is unavailable".to_owned()),
                now,
            ),
            InternalEvent::Audio(event) => self.handle_audio_event(event, around),
            InternalEvent::FederatedStreamReady { key } => {
                if self.is_current(&key) {
                    let volume_ppb: u32 = self.playback().volume_ppb;
                    self.act(Action::AudioPlayStream { key, volume_ppb });
                }
            },
            InternalEvent::FederatedDownloadComplete { key, path, keep } =>
                self.download_complete(key, path, keep, now),
            InternalEvent::FederatedDownloadFailed { key, message } => {
                if self.is_current(&key) {
                    self.stopped_with(message, now);
                }
            },
            InternalEvent::ImportFailed(message) => {
                self.set_playback_error(
                    Some(
                        labelled("track played but could not be imported: ", message.as_str()),
                    ),
                );
                self.publish(now);
            },
            InternalEvent::FederatedContentResolved { key, result } => match result {
                Ok(track) => self.content_resolved(&key, &track, around, names),
                Err(message) => if self.is_current(&key) {
                    self.stopped_with(message, now);
                },
            },
            InternalEvent::QueueArtworkResolved { request_id, keys, cover_uri } =>
                self.artwork_resolved(&request_id, &keys, &cover_uri, now, names),
            InternalEvent::HistoryTrackResolved { content_id, result } => self.history_resolved(
                &content_id,
                result,
                now,
            ),
            InternalEvent::FederationDebugUpdated(debug) => self.debug_updated(debug, now),
            InternalEvent::LibraryRead { purpose, result } => self.library_read(
                purpose,
                result,
                around,
            ),
            InternalEvent::DevicesChanged => self.refresh_and_publish(around),
            InternalEvent::DeviceLibraryChanged => self.act(
                Action::ReadLibrary { purpose: LibraryPurpose::Synced },
            ),
            InternalEvent::DeviceNameStored { name, publish, error } => self.device_name_stored(
                name,
                publish,
                error,
                around,
            ),
            InternalEvent::DeviceNamePublishDue(candidate) => self.device_name_due(&candidate),
            InternalEvent::DeviceNamePublished(error) => self.device_name_published(
                error,
                around,
            ),
            InternalEvent::DeviceOperationFinished(outcome) => match outcome {
                DeviceOperationOutcome::Invite(invite) => self.device_invited(invite, around),
                DeviceOperationOutcome::Connected(message) => self.device_connected(
                    message,
                    around,
                ),
                DeviceOperationOutcome::Failed(message) => self.device_operation_failed(
                    message,
                    around,
                ),
            },
            InternalEvent::PairingAnswered(error) => {
                if let Some(message) = error {
                    self.set_device_error(labelled("pairing: ", message.as_str()));
                }
                self.refresh_and_publish(around);
            },
            InternalEvent::DevicePlaybackSnapshot { snapshot, rows } =>
                self.apply_remote_playback_snapshot(snapshot, &rows, around, names),
            InternalEvent::DevicePlaybackCommand { command, rows } =>
                self.apply_device_playback_command(command, &rows, around, names),
            InternalEvent::ControlSent { target, state, seek, error } => self.control_sent(
                target,
                state,
                seek,
                error,
                now,
            ),
            InternalEvent::HandedOff { handoff, first_error, second_error } => self.handed_off(
                handoff,
                first_error,
                second_error,
                around,
            ),
            InternalEvent::ListenRecorded(error) => {
                if let Some(message) = error {
                    self.settings_persisted(
                        Some(labelled("listening history: ", message.as_str())),
                        now,
                    );
                }
            },
            InternalEvent::LikeToggled(result) => self.library_edited(
                result,
                "like: ",
                "like sync: ",
                now,
            ),
            InternalEvent::PlaylistCreated(result) => self.library_edited(
                result,
                "create playlist: ",
                "playlist sync: ",
                now,
            ),
            InternalEvent::PlaylistEdited { edit, error } => self.playlist_edit_done(edit, error),
            InternalEvent::SimilarityStatus(status) => {
                self.set_similarity_status(status);
                self.publish(now);
            },
            InternalEvent::SimilarityProfileActivated(profile) => self.profile_activated(
                profile,
                now,
            ),
            InternalEvent::SimilaritySearchFinished { source_title, result, liked } =>
                self.similarity_finished(source_title, result, &liked, now),
        }
    }
}

} // verus!

//! The listener's devices: one of them plays, the others control it.
use crate::actor::{
    Action, ActionModel, Actor, ActorModel, ControlPlaybackAnchor, ControlPlaybackAnchorModel,
    DeviceRow, DeviceRowModel, Handoff, HandoffModel, ListenEndReason, Moment, PendingControlState,
    PendingControlStateModel, PendingPairing, PendingPairingModel, Status, StatusModel,
    Surroundings, SurroundingsModel,
};
use crate::actor_playback::elapsed;
use crate::api::{
    ConnectedDeviceModel, ConnectedDeviceSnapshot, ConnectedDevicesModel, ConnectedDevicesSnapshot,
    DevicePlaybackRole, DevicePresence, DeviceTrust, PendingPairingSnapshot, PlaybackSnapshot,
    PlaybackStatus, SettingsModel,
};
use crate::catalog::{ContentId, Track, TrackKey, TrackKeyModel, TrackModel};
use crate::find::{found, lemma_first_where};
use crate::library::{library_track, local_track, noted_content, LibraryTrack, LibraryTrackRow};
use crate::merge::NameKeys;
use crate::names::{is_name_fn, keys_by};
use crate::queue::QueueModel;
use crate::text::{labelled, str_lt, text_lt, trim, trimmed};
use crate::views::{opt_view, views};
use crate::wire::{
    acknowledges, foreign_playback_track, foreign_track, has_authority, percent_volume,
    playback_state_acknowledges_command, remote_snapshot_has_authority, volume_of, DevicePlayback,
    DevicePlaybackModel, PlaybackCommand, PlaybackCommandModel, PlaybackStateWire,
    PlaybackStateWireModel, PlaybackTrack, PlaybackTrackModel,
};
use vstd::prelude::*;

verus! {

broadcast use crate::views::group_views;

/// How long a controlled device may go on reporting its old state.
pub const CONTROL_ACK_TIMEOUT_NANOS: u64 = 12_000_000_000;

/// What a device is called: the name without surrounding white space, and never
/// nothing.
pub open spec fn device_label(name: Seq<char>) -> Seq<char> {
    if trimmed(name).len() == 0 {
        "furumi"@
    } else {
        trimmed(name)
    }
}

pub fn normalize_device_name(value: &str) -> (r: String)
    ensures
        r@ == device_label(value@),
{
    let name = trim(value);
    if name.as_str().is_empty() {
        "furumi".to_owned()
    } else {
        name
    }
}

/// The devices to show: all that are not revoked, with the active one marked.
pub open spec fn shown_devices(devices: Seq<DeviceRowModel>, active: Seq<char>) -> Seq<
    ConnectedDeviceModel,
>
    decreases devices.len(),
{
    if devices.len() == 0 {
        Seq::empty()
    } else {
        let before = shown_devices(devices.drop_last(), active);
        let device = devices.last();
        if device.revoked {
            before
        } else {
            before.push(
                ConnectedDeviceModel {
                    id: device.id,
                    name: device.name,
                    client_version: device.client_version,
                    is_self: device.is_self,
                    presence: if device.online {
                        DevicePresence::Online
                    } else {
                        DevicePresence::Offline
                    },
                    trust: DeviceTrust::Trusted,
                    is_active: device.id == active,
                },
            )
        }
    }
}

pub open spec fn shown_pairings(pending: Seq<PendingPairingModel>) -> Seq<
    crate::api::PendingPairingModel,
> {
    Seq::new(
        pending.len(),
        |i: int|
            crate::api::PendingPairingModel {
                request_id: pending[i].request_id,
                device_id: pending[i].device_id,
                name: pending[i].name,
                client_version: pending[i].client_version,
                requester_group_id: pending[i].requester_group_id,
                requester_group_active_devices: pending[i].requester_group_active_devices,
            },
    )
}

/// A trusted device under this identifier.
pub open spec fn is_trusted_device(id: Seq<char>) -> spec_fn(ConnectedDeviceModel) -> bool {
    |device: ConnectedDeviceModel| device.id == id && device.trust == DeviceTrust::Trusted
}

pub open spec fn has_noted_content(content_id: Seq<char>) -> spec_fn(LibraryTrackRow) -> bool {
    |row: LibraryTrackRow| noted_content(row.content_id) == Some(content_id)
}

/// One or two texts in order.
pub open spec fn in_text_order(first: Seq<char>, second: Option<Seq<char>>) -> Seq<Seq<char>> {
    match second {
        None => seq![first],
        Some(second) => if first == second {
            seq![first]
        } else if text_lt(second, first) {
            seq![second, first]
        } else {
            seq![first, second]
        },
    }
}

/// The status that a state on the wire stands for.
pub open spec fn wire_status(wire: PlaybackStateWireModel) -> PlaybackStatus {
    if !wire.playing {
        PlaybackStatus::Stopped
    } else if wire.paused {
        PlaybackStatus::Paused
    } else {
        PlaybackStatus::Playing
    }
}

/// The position that a state on the wire stands for.
pub open spec fn wire_position(wire: PlaybackStateWireModel) -> u64 {
    if wire.position_nanos < 0 {
        0
    } else {
        wire.position_nanos as u64
    }
}

impl ActorModel {
    pub open spec fn connected(self, status: StatusModel) -> ConnectedDevicesModel {
        let held = self.state.connected_devices;
        ConnectedDevicesModel {
            this_device_id: status.this_device_id,
            this_device_name: status.this_device_name,
            group_id: status.group_id,
            role: self.device_role,
            active_device_id: self.active_device_id,
            active_device_name: self.active_device_name,
            devices: shown_devices(status.devices, self.active_device_id),
            pending_pairings: shown_pairings(status.pending),
            invite: held.invite,
            busy: held.busy,
            last_sync: status.last_sync,
            error: match held.error {
                Some(error) => Some(error),
                None => status.error,
            },
        }
    }

    /// Shows the devices as the store knows them. What went wrong here stays
    /// shown.
    #[verifier::opaque]
    pub open spec fn refresh_devices(self, status: StatusModel) -> Self {
        self.with_connected_devices(self.connected(status))
    }

    pub open spec fn refresh_and_publish(self, around: SurroundingsModel) -> Self {
        self.refresh_devices(around.devices).publish(around.now)
    }

    /// The devices cannot be reached before the network is there.
    pub open spec fn device_operation(self, action: ActionModel, now: Moment) -> Self {
        if self.device_service_ready {
            self.with_connected_devices(
                ConnectedDevicesModel { busy: true, error: None, ..self.state.connected_devices },
            ).publish(now).act(action)
        } else {
            self.with_device_error("Federation network is still starting"@).publish(now)
        }
    }

    pub open spec fn device_invited(self, invite: Seq<char>, around: SurroundingsModel) -> Self {
        self.with_connected_devices(
            ConnectedDevicesModel {
                busy: false,
                invite: Some(invite),
                error: None,
                ..self.state.connected_devices
            },
        ).refresh_and_publish(around)
    }

    pub open spec fn device_connected(self, message: Seq<char>, around: SurroundingsModel) -> Self {
        self.with_connected_devices(
            ConnectedDevicesModel {
                busy: false,
                invite: None,
                last_sync: Some(message),
                error: None,
                ..self.state.connected_devices
            },
        ).refresh_and_publish(around)
    }

    pub open spec fn device_operation_failed(
        self,
        message: Seq<char>,
        around: SurroundingsModel,
    ) -> Self {
        self.with_connected_devices(
            ConnectedDevicesModel {
                busy: false,
                error: Some(message),
                ..self.state.connected_devices
            },
        ).refresh_and_publish(around)
    }

    /// What came of storing this device's name.
    pub open spec fn device_name_stored(
        self,
        name: Seq<char>,
        publish: bool,
        error: Option<Seq<char>>,
        around: SurroundingsModel,
    ) -> Self {
        let stored = match error {
            Some(message) => self.with_device_error("device name: "@ + message),
            None => if self.active_device_id == self.state.connected_devices.this_device_id {
                self.with_active_device_name(name).refresh_devices(around.devices)
            } else {
                self.refresh_devices(around.devices)
            },
        };
        if publish {
            if stored.device_service_ready {
                stored.act(ActionModel::PublishDeviceName { name }).publish(around.now)
            } else {
                stored.publish(around.now)
            }
        } else {
            stored
        }
    }

    /// A name that has not been changed again since is put in form, saved and
    /// published.
    pub open spec fn device_name_due(self, candidate: Seq<char>) -> Self {
        let name = device_label(candidate);
        if self.state.settings.device_name != candidate {
            self
        } else if candidate != name {
            let settings = SettingsModel { device_name: name, ..self.state.settings };
            self.with_settings(settings).act(ActionModel::SaveSettings { settings }).act(
                ActionModel::StoreDeviceName { name, publish: true },
            )
        } else {
            self.act(ActionModel::StoreDeviceName { name, publish: true })
        }
    }

    pub open spec fn device_name_published(
        self,
        error: Option<Seq<char>>,
        around: SurroundingsModel,
    ) -> Self {
        match error {
            Some(message) => self.with_device_error(message),
            None => self,
        }.refresh_and_publish(around)
    }

    /// Asks the devices concerned to let another one play. The active one, and
    /// one that is not trusted, cannot be chosen.
    pub open spec fn select_device(self, device_id: Seq<char>, now: Moment) -> Self {
        if device_id == self.active_device_id {
            self
        } else {
            match found(self.state.connected_devices.devices, is_trusted_device(device_id)) {
                None => self,
                Some(target) => self.act(
                    ActionModel::HandOff {
                        handoff: HandoffModel {
                            target_id: target.id,
                            target_name: target.name,
                            target_is_self: target.is_self,
                            first: if target.is_self {
                                self.active_device_id
                            } else {
                                target.id
                            },
                            second: if !target.is_self && self.active_device_id
                                != self.state.connected_devices.this_device_id {
                                Some(self.active_device_id)
                            } else {
                                None
                            },
                            state: self.wire_state(now),
                        },
                    },
                ),
            }
        }
    }

    pub open spec fn becomes(
        self,
        role: DevicePlaybackRole,
        id: Seq<char>,
        name: Seq<char>,
        anchor: Option<ControlPlaybackAnchorModel>,
        pending: Option<PendingControlStateModel>,
    ) -> Self {
        self.with_role(role).with_active_device_id(id).with_active_device_name(
            name,
        ).with_control_anchor(anchor).with_pending_control(pending)
    }

    /// What came of telling the devices: playback changes hands unless the first
    /// one could not be told.
    pub open spec fn handed_off(
        self,
        handoff: HandoffModel,
        first_error: Option<Seq<char>>,
        second_error: Option<Seq<char>>,
        around: SurroundingsModel,
    ) -> Self {
        match first_error {
            Some(message) => self.with_device_error("device handoff: "@ + message).publish(
                around.now,
            ),
            None => {
                let moved = if handoff.target_is_self {
                    let here = self.becomes(
                        DevicePlaybackRole::Active,
                        handoff.target_id,
                        handoff.target_name,
                        None,
                        None,
                    );
                    if here.state.playback.status == PlaybackStatus::Playing {
                        here.play_current(around)
                    } else {
                        here
                    }
                } else {
                    let told = match second_error {
                        Some(message) => self.with_device_error(
                            "previous device handoff: "@ + message,
                        ),
                        None => self,
                    };
                    told.act(ActionModel::AudioStop).becomes(
                        DevicePlaybackRole::Control,
                        handoff.target_id,
                        handoff.target_name,
                        Some(
                            ControlPlaybackAnchorModel {
                                device_id: handoff.target_id,
                                state: handoff.state,
                                observed_at: around.now.nanos,
                            },
                        ),
                        Some(
                            PendingControlStateModel {
                                device_id: handoff.target_id,
                                state: handoff.state,
                                seek: true,
                                sent_at: around.now.nanos,
                            },
                        ),
                    )
                };
                let shown = moved.act(
                    ActionModel::RequestSync {
                        targets: if moved.device_service_ready {
                            in_text_order(handoff.first, handoff.second)
                        } else {
                            Seq::empty()
                        },
                    },
                ).refresh_devices(around.devices);
                shown.act(
                    ActionModel::PublishPlayback { playback: shown.broadcast(around.now) },
                ).publish(around.now)
            },
        }
    }

    /// The track that a track of another device is here: one that is known, one
    /// that the library holds, or else what the other device tells of it.
    pub open spec fn resolve_wire(
        self,
        keys: NameKeys,
        rows: Seq<LibraryTrackRow>,
        wire: PlaybackTrackModel,
    ) -> Option<TrackModel> {
        let content_id = noted_content(wire.content_id);
        match content_id {
            Some(id) => {
                let key = TrackKeyModel {
                    local_id: None,
                    content_id: Some(id),
                    federation_identity: None,
                };
                match self.track(key) {
                    Some(track) => Some(track),
                    None => match found(rows, has_noted_content(id)) {
                        Some(row) => Some(local_track(row, Seq::empty())),
                        None => foreign_track(keys, wire),
                    },
                }
            },
            None => foreign_track(keys, wire),
        }
    }

    pub open spec fn resolve_wires(
        self,
        keys: NameKeys,
        rows: Seq<LibraryTrackRow>,
        wires: Seq<PlaybackTrackModel>,
    ) -> Seq<TrackModel>
        decreases wires.len(),
    {
        if wires.len() == 0 {
            Seq::empty()
        } else {
            let before = self.resolve_wires(keys, rows, wires.drop_last());
            match self.resolve_wire(keys, rows, wires.last()) {
                Some(track) => before.push(track),
                None => before,
            }
        }
    }

    /// Takes over the queue of another device. One that is shuffled there keeps
    /// the order it had here before.
    #[verifier::opaque]
    pub open spec fn take_queue(
        self,
        keys: NameKeys,
        rows: Seq<LibraryTrackRow>,
        wire: PlaybackStateWireModel,
    ) -> Self {
        let tracks = self.resolve_wires(keys, rows, wire.queue);
        if tracks.len() == 0 {
            self
        } else if wire.shuffle {
            let remembered = if self.state.playback.shuffle {
                self.state.queue
            } else {
                self.state.queue.remember_order()
            };
            self.with_queue(
                remembered.replace_shuffled_context(tracks, wire.queue_pos),
            ).resolve_queue_artwork(keys)
        } else {
            self.with_queue(
                self.state.queue.replace_context(tracks, wire.queue_pos),
            ).resolve_queue_artwork(keys)
        }
    }

    /// Whether the current item of this queue is another one than that of
    /// `before`.
    pub open spec fn current_changed(self, before: QueueModel) -> bool {
        before.current != self.state.queue.current || match (
            before.current_item(),
            self.state.queue.current_item(),
        ) {
            (Some(old), Some(new)) => !old.track.key.matches(new.track.key),
            _ => true,
        }
    }

    /// The playback state taken over, without the audio.
    #[verifier::opaque]
    pub open spec fn take_state(
        self,
        keys: NameKeys,
        rows: Seq<LibraryTrackRow>,
        wire: PlaybackStateWireModel,
    ) -> Self {
        let queued = self.take_queue(keys, rows, wire);
        queued.with_playback(
            PlaybackSnapshot {
                status: wire_status(wire),
                position_nanos: wire_position(wire),
                duration_nanos: match queued.state.queue.current_item() {
                    Some(item) => item.track.duration_nanos,
                    None => 0,
                },
                volume_ppb: volume_of(wire.volume),
                shuffle: wire.shuffle,
                repeat: wire.repeat,
            },
        ).act(ActionModel::AudioVolume { volume_ppb: volume_of(wire.volume) })
    }

    /// Brings the audio in line with a state taken over. `status` and `queue`
    /// are those from before.
    #[verifier::opaque]
    pub open spec fn follow_audio(
        self,
        wire: PlaybackStateWireModel,
        seek: bool,
        status: PlaybackStatus,
        queue: QueueModel,
        around: SurroundingsModel,
    ) -> Self {
        if !wire.playing {
            self.act(ActionModel::AudioStop)
        } else if status == PlaybackStatus::Stopped || self.current_changed(queue) {
            let started = self.play_current(around);
            let sought = if seek {
                let moved = started.act(
                    ActionModel::AudioSeek { position_nanos: wire_position(wire) },
                );
                moved.with_playback(
                    PlaybackSnapshot {
                        position_nanos: wire_position(wire),
                        ..moved.state.playback
                    },
                )
            } else {
                started
            };
            if wire.paused {
                sought.act(ActionModel::AudioPause).with_status(PlaybackStatus::Paused)
            } else {
                sought
            }
        } else if wire.paused {
            self.act(ActionModel::AudioPause)
        } else if status == PlaybackStatus::Paused {
            self.act(ActionModel::AudioResume)
        } else if seek {
            self.act(ActionModel::AudioSeek { position_nanos: wire_position(wire) })
        } else {
            self
        }
    }

    #[verifier::opaque]
    pub open spec fn apply_state(
        self,
        keys: NameKeys,
        rows: Seq<LibraryTrackRow>,
        wire: PlaybackStateWireModel,
        start_audio: bool,
        seek: bool,
        around: SurroundingsModel,
    ) -> Self {
        let taken = self.take_state(keys, rows, wire);
        if start_audio {
            taken.follow_audio(
                wire,
                seek,
                self.state.playback.status,
                self.state.queue,
                around,
            )
        } else {
            taken
        }
    }

    /// Another device told this one what to play, or that playback changed
    /// hands.
    pub open spec fn apply_command(
        self,
        keys: NameKeys,
        rows: Seq<LibraryTrackRow>,
        command: PlaybackCommandModel,
        around: SurroundingsModel,
    ) -> Self {
        match command {
            PlaybackCommandModel::SetState { state, seek } => self.becomes(
                DevicePlaybackRole::Active,
                self.state.connected_devices.this_device_id,
                self.state.connected_devices.this_device_name,
                None,
                None,
            ).apply_state(keys, rows, state, true, seek, around),
            PlaybackCommandModel::ActiveChanged { active_device_id, active_device_name, state } => {
                if active_device_id == self.state.connected_devices.this_device_id {
                    self.becomes(
                        DevicePlaybackRole::Active,
                        active_device_id,
                        active_device_name,
                        None,
                        None,
                    ).apply_state(keys, rows, state, true, true, around)
                } else {
                    self.becomes(
                        DevicePlaybackRole::Control,
                        active_device_id,
                        active_device_name,
                        Some(
                            ControlPlaybackAnchorModel {
                                device_id: active_device_id,
                                state,
                                observed_at: around.now.nanos,
                            },
                        ),
                        None,
                    ).act(ActionModel::AudioStop).apply_state(
                        keys,
                        rows,
                        state,
                        false,
                        true,
                        around,
                    )
                }
            },
        }.refresh_and_publish(around)
    }

    /// Whether a broadcast was made before the device carried out what it was
    /// last told, so that showing it would briefly bring the past back.
    pub open spec fn is_outdated(
        self,
        keys: NameKeys,
        snapshot: DevicePlaybackModel,
        now: u64,
    ) -> bool {
        self.device_role == DevicePlaybackRole::Control && match self.pending_control {
            Some(pending) => pending.device_id == snapshot.device_id && !acknowledges(
                keys,
                pending.state,
                snapshot.state,
                pending.seek,
                elapsed(pending.sent_at, now),
            ) && elapsed(pending.sent_at, now) < CONTROL_ACK_TIMEOUT_NANOS,
            None => false,
        }
    }

    pub open spec fn awaits(self, device_id: Seq<char>) -> bool {
        self.device_role == DevicePlaybackRole::Control && match self.pending_control {
            Some(pending) => pending.device_id == device_id,
            None => false,
        }
    }

    /// Another device broadcast its playback. Where it has authority, this
    /// device follows it.
    pub open spec fn follow_broadcast(
        self,
        keys: NameKeys,
        rows: Seq<LibraryTrackRow>,
        snapshot: DevicePlaybackModel,
        around: SurroundingsModel,
    ) -> Self {
        if !has_authority(
            self.device_role,
            self.active_device_id,
            self.state.playback.status,
            self.state.queue.items.len() == 0,
            snapshot.device_id,
            snapshot.active,
        ) || self.is_outdated(keys, snapshot, around.now.nanos) {
            self
        } else {
            let settled = if self.awaits(snapshot.device_id) {
                self.with_pending_control(None)
            } else {
                self
            };
            let silent = if settled.device_role == DevicePlaybackRole::Active {
                settled.finish_listen(ListenEndReason::Stopped)
            } else {
                settled
            };
            silent.becomes(
                DevicePlaybackRole::Control,
                snapshot.device_id,
                snapshot.device_name,
                Some(
                    ControlPlaybackAnchorModel {
                        device_id: snapshot.device_id,
                        state: snapshot.state,
                        observed_at: around.now.nanos,
                    },
                ),
                silent.pending_control,
            ).act(ActionModel::AudioStop).apply_state(
                keys,
                rows,
                snapshot.state,
                false,
                false,
                around,
            ).refresh_and_publish(around)
        }
    }
}

fn show_devices(devices: &Vec<DeviceRow>, active: &String) -> (r: Vec<ConnectedDeviceSnapshot>)
    ensures
        views(r@) == shown_devices(views(devices@), active@),
{
    let ghost all = views(devices@);
    let mut r: Vec<ConnectedDeviceSnapshot> = Vec::new();
    let mut i: usize = 0;
    while i < devices.len()
        invariant
            i <= devices.len() == all.len(),
            all == views(devices@),
            views(r@) == shown_devices(all.take(i as int), active@),
        decreases devices.len() - i,
    {
        proof {
            assert(all.take(i + 1).drop_last() =~= all.take(i as int));
        }
        let device = &devices[i];
        if !device.revoked {
            r.push(
                ConnectedDeviceSnapshot {
                    id: device.id.clone(),
                    name: device.name.clone(),
                    client_version: device.client_version.clone(),
                    is_self: device.is_self,
                    presence: if device.online {
                        DevicePresence::Online
                    } else {
                        DevicePresence::Offline
                    },
                    trust: DeviceTrust::Trusted,
                    is_active: device.id == *active,
                },
            );
        }
        i += 1;
    }
    proof {
        assert(all.take(i as int) =~= all);
    }
    r
}

fn show_pairings(pending: &Vec<PendingPairing>) -> (r: Vec<PendingPairingSnapshot>)
    ensures
        views(r@) == shown_pairings(views(pending@)),
{
    let ghost target = shown_pairings(views(pending@));
    let mut r: Vec<PendingPairingSnapshot> = Vec::new();
    let mut i: usize = 0;
    while i < pending.len()
        invariant
            i <= pending.len(),
            target == shown_pairings(views(pending@)),
            views(r@) == target.take(i as int),
        decreases pending.len() - i,
    {
        r.push(
            PendingPairingSnapshot {
                request_id: pending[i].request_id.clone(),
                device_id: pending[i].device_id.clone(),
                name: pending[i].name.clone(),
                client_version: pending[i].client_version.clone(),
                requester_group_id: pending[i].requester_group_id.clone(),
                requester_group_active_devices: pending[i].requester_group_active_devices,
            },
        );
        i += 1;
        proof {
            assert(views(r@) =~= target.take(i as int));
        }
    }
    proof {
        assert(views(r@) =~= target);
    }
    r
}

fn find_trusted<'a>(devices: &'a Vec<ConnectedDeviceSnapshot>, id: &String) -> (r: Option<
    &'a ConnectedDeviceSnapshot,
>)
    ensures
        crate::lookup::ref_view(r) == found(views(devices@), is_trusted_device(id@)),
{
    let ghost all = views(devices@);
    let ghost p = is_trusted_device(id@);
    let mut i: usize = 0;
    while i < devices.len()
        invariant
            i <= devices.len() == all.len(),
            all == views(devices@),
            p == is_trusted_device(id@),
            forall|j: int| 0 <= j < i ==> !p(#[trigger] all[j]),
        decreases devices.len() - i,
    {
        if devices[i].id == *id && devices[i].trust == DeviceTrust::Trusted {
            proof {
                lemma_first_where(all, p, i as int);
            }
            return Some(&devices[i]);
        }
        i += 1;
    }
    proof {
        lemma_first_where(all, p, i as int);
    }
    None
}

fn find_row<'a>(rows: &'a Vec<LibraryTrack>, content_id: &ContentId) -> (r: Option<&'a LibraryTrack>)
    ensures
        crate::lookup::ref_view(r) == found(views(rows@), has_noted_content(content_id@)),
{
    let ghost all = views(rows@);
    let ghost p = has_noted_content(content_id@);
    let mut i: usize = 0;
    while i < rows.len()
        invariant
            i <= rows.len() == all.len(),
            all == views(rows@),
            p == has_noted_content(content_id@),
            forall|j: int| 0 <= j < i ==> !p(#[trigger] all[j]),
        decreases rows.len() - i,
    {
        let hit = match &rows[i].content_id {
            Some(id) => match ContentId::parse(id.as_str()) {
                Ok(id) => id == *content_id,
                Err(_) => false,
            },
            None => false,
        };
        if hit {
            proof {
                lemma_first_where(all, p, i as int);
            }
            return Some(&rows[i]);
        }
        i += 1;
    }
    proof {
        lemma_first_where(all, p, i as int);
    }
    None
}

fn text_order(first: &String, second: &Option<String>) -> (r: Vec<String>)
    ensures
        views(r@) == in_text_order(first@, opt_view(*second)),
{
    let mut r: Vec<String> = Vec::new();
    match second {
        None => {
            r.push(first.clone());
        },
        Some(second) => {
            if *first == *second {
                r.push(first.clone());
            } else if str_lt(second.as_str(), first.as_str()) {
                r.push(second.clone());
                r.push(first.clone());
            } else {
                r.push(first.clone());
                r.push(second.clone());
            }
        },
    }
    proof {
        assert(views(r@) =~= in_text_order(first@, opt_view(*second)));
    }
    r
}

fn position_of(wire: &PlaybackStateWire) -> (r: u64)
    ensures
        r == wire_position(wire@),
{
    if wire.position_nanos < 0 {
        0
    } else {
        wire.position_nanos as u64
    }
}

impl Actor {
    pub fn refresh_connected_devices(&mut self, status: &Status)
        requires
            old(self)@.wf(),
        ensures
            final(self)@ == old(self)@.refresh_devices(status@),
            final(self)@.wf(),
    {
        proof {
            reveal(ActorModel::refresh_devices);
        }
        let held = self.connected_devices();
        let shown = ConnectedDevicesSnapshot {
            this_device_id: status.this_device_id.clone(),
            this_device_name: status.this_device_name.clone(),
            group_id: status.group_id.clone(),
            role: self.role(),
            active_device_id: self.active_device_id().clone(),
            active_device_name: self.active_device_name().clone(),
            devices: show_devices(&status.devices, self.active_device_id()),
            pending_pairings: show_pairings(&status.pending),
            invite: held.invite.clone(),
            busy: held.busy,
            last_sync: status.last_sync.clone(),
            error: if held.error.is_some() {
                held.error.clone()
            } else {
                status.error.clone()
            },
        };
        self.set_connected_devices(shown);
    }

    pub fn refresh_and_publish(&mut self, around: &Surroundings)
        requires
            old(self)@.wf(),
        ensures
            final(self)@ == old(self)@.refresh_and_publish(around@),
            final(self)@.wf(),
    {
        self.refresh_connected_devices(&around.devices);
        self.publish(around.now);
    }

    fn device_operation(&mut self, action: Action, now: Moment)
        requires
            old(self)@.wf(),
        ensures
            final(self)@ == old(self)@.device_operation(action@, now),
            final(self)@.wf(),
    {
        if !self.device_service_ready() {
            self.set_device_error("Federation network is still starting".to_owned());
            self.publish(now);
            return;
        }
        let mut devices = self.connected_devices().clone();
        devices.busy = true;
        devices.error = None;
        self.set_connected_devices(devices);
        self.publish(now);
        self.act(action);
    }

    pub fn create_device_invite(&mut self, now: Moment)
        requires
            old(self)@.wf(),
        ensures
            final(self)@ == old(self)@.device_operation(ActionModel::CreateDeviceInvite, now),
            final(self)@.wf(),
    {
        self.device_operation(Action::CreateDeviceInvite, now);
    }

    pub fn connect_device(&mut self, invite: String, now: Moment)
        requires
            old(self)@.wf(),
        ensures
            final(self)@ == old(self)@.device_operation(
                ActionModel::ConnectDevice { invite: invite@ },
                now,
            ),
            final(self)@.wf(),
    {
        self.device_operation(Action::ConnectDevice { invite }, now);
    }

    pub fn device_invited(&mut self, invite: String, around: &Surroundings)
        requires
            old(self)@.wf(),
        ensures
            final(self)@ == old(self)@.device_invited(invite@, around@),
            final(self)@.wf(),
    {
        let mut devices = self.connected_devices().clone();
        devices.busy = false;
        devices.invite = Some(invite);
        devices.error = None;
        self.set_connected_devices(devices);
        self.refresh_and_publish(around);
    }

    pub fn device_connected(&mut self, message: String, around: &Surroundings)
        requires
            old(self)@.wf(),
        ensures
            final(self)@ == old(self)@.device_connected(message@, around@),
            final(self)@.wf(),
    {
        let mut devices = self.connected_devices().clone();
        devices.busy = false;
        devices.invite = None;
        devices.last_sync = Some(message);
        devices.error = None;
        self.set_connected_devices(devices);
        self.refresh_and_publish(around);
    }

    pub fn device_operation_failed(&mut self, message: String, around: &Surroundings)
        requires
            old(self)@.wf(),
        ensures
            final(self)@ == old(self)@.device_operation_failed(message@, around@),
            final(self)@.wf(),
    {
        let mut devices = self.connected_devices().clone();
        devices.busy = false;
        devices.error = Some(message);
        self.set_connected_devices(devices);
        self.refresh_and_publish(around);
    }

    /// Asks for this device's name to be stored.
    pub fn apply_local_device_name(&mut self, name: &String)
        requires
            old(self)@.wf(),
        ensures
            final(self)@ == old(self)@.act(
                ActionModel::StoreDeviceName { name: device_label(name@), publish: false },
            ),
            final(self)@.wf(),
    {
        let name = normalize_device_name(name.as_str());
        self.act(Action::StoreDeviceName { name, publish: false });
    }

    pub fn device_name_stored(
        &mut self,
        name: String,
        publish: bool,
        error: Option<String>,
        around: &Surroundings,
    )
        requires
            old(self)@.wf(),
        ensures
            final(self)@ == old(self)@.device_name_stored(
                name@,
                publish,
                opt_view(error),
                around@,
            ),
            final(self)@.wf(),
    {
        match error {
            Some(message) => {
                self.set_device_error(labelled("device name: ", message.as_str()));
            },
            None => {
                if *self.active_device_id() == self.connected_devices().this_device_id {
                    self.set_active_device_name(name.clone());
                }
                self.refresh_connected_devices(&around.devices);
            },
        }
        if publish {
            if self.device_service_ready() {
                self.act(Action::PublishDeviceName { name });
            }
            self.publish(around.now);
        }
    }

    pub fn device_name_due(&mut self, candidate: &String)
        requires
            old(self)@.wf(),
        ensures
            final(self)@ == old(self)@.device_name_due(candidate@),
            final(self)@.wf(),
    {
        if self.settings().device_name != *candidate {
            return;
        }
        let name = normalize_device_name(candidate.as_str());
        if *candidate != name {
            let mut settings = self.settings().clone();
            settings.device_name = name.clone();
            self.set_settings(settings.clone());
            self.act(Action::SaveSettings { settings });
        }
        self.act(Action::StoreDeviceName { name, publish: true });
    }

    pub fn device_name_published(&mut self, error: Option<String>, around: &Surroundings)
        requires
            old(self)@.wf(),
        ensures
            final(self)@ == old(self)@.device_name_published(opt_view(error), around@),
            final(self)@.wf(),
    {
        if let Some(message) = error {
            self.set_device_error(message);
        }
        self.refresh_and_publish(around);
    }

    pub fn select_playback_device(&mut self, device_id: &String, now: Moment)
        requires
            old(self)@.wf(),
        ensures
            final(self)@ == old(self)@.select_device(device_id@, now),
            final(self)@.wf(),
    {
        if *device_id == *self.active_device_id() {
            return;
        }
        let target: ConnectedDeviceSnapshot = match find_trusted(
            &self.connected_devices().devices,
            device_id,
        ) {
            Some(target) => target.clone(),
            None => return,
        };
        let previous = self.active_device_id().clone();
        let others = previous != self.connected_devices().this_device_id;
        let state = self.playback_wire_state(now);
        let handoff = Handoff {
            first: if target.is_self {
                previous.clone()
            } else {
                target.id.clone()
            },
            second: if !target.is_self && others {
                Some(previous)
            } else {
                None
            },
            target_id: target.id,
            target_name: target.name,
            target_is_self: target.is_self,
            state,
        };
        self.act(Action::HandOff { handoff });
    }

    fn becomes(
        &mut self,
        role: DevicePlaybackRole,
        id: String,
        name: String,
        anchor: Option<ControlPlaybackAnchor>,
        pending: Option<PendingControlState>,
    )
        requires
            old(self)@.wf(),
        ensures
            final(self)@ == old(self)@.becomes(
                role,
                id@,
                name@,
                opt_view(anchor),
                opt_view(pending),
            ),
            final(self)@.wf(),
    {
        self.set_role(role);
        self.set_active_device_id(id);
        self.set_active_device_name(name);
        self.set_control_anchor(anchor);
        self.set_pending_control(pending);
    }

    pub fn handed_off(
        &mut self,
        handoff: Handoff,
        first_error: Option<String>,
        second_error: Option<String>,
        around: &Surroundings,
    )
        requires
            old(self)@.wf(),
        ensures
            final(self)@ == old(self)@.handed_off(
                handoff@,
                opt_view(first_error),
                opt_view(second_error),
                around@,
            ),
            final(self)@.wf(),
    {
        if let Some(message) = first_error {
            self.set_device_error(labelled("device handoff: ", message.as_str()));
            self.publish(around.now);
            return;
        }
        let targets = text_order(&handoff.first, &handoff.second);
        if handoff.target_is_self {
            self.becomes(
                DevicePlaybackRole::Active,
                handoff.target_id,
                handoff.target_name,
                None,
                None,
            );
            if self.playback().status == PlaybackStatus::Playing {
                self.play_current(around);
            }
        } else {
            if let Some(message) = second_error {
                self.set_device_error(labelled("previous device handoff: ", message.as_str()));
            }
            self.act(Action::AudioStop);
            let anchor = ControlPlaybackAnchor {
                device_id: handoff.target_id.clone(),
                state: handoff.state.clone(),
                observed_at: around.now.nanos,
            };
            let pending = PendingControlState {
                device_id: handoff.target_id.clone(),
                state: handoff.state,
                seek: true,
                sent_at: around.now.nanos,
            };
            self.becomes(
                DevicePlaybackRole::Control,
                handoff.target_id,
                handoff.target_name,
                Some(anchor),
                Some(pending),
            );
        }
        let targets = if self.device_service_ready() {
            targets
        } else {
            Vec::new()
        };
        self.act(Action::RequestSync { targets });
        self.refresh_connected_devices(&around.devices);
        let playback = self.device_playback(around.now);
        self.act(Action::PublishPlayback { playback });
        self.publish(around.now);
    }

    pub fn resolve_playback_track<F: Fn(&str) -> String>(
        &self,
        wire: &PlaybackTrack,
        rows: &Vec<LibraryTrack>,
        names: &F,
    ) -> (r: Option<Track>)
        requires
            is_name_fn(names),
        ensures
            opt_view(r) == self@.resolve_wire(keys_by(names), views(rows@), wire@),
    {
        let content_id: Option<ContentId> = match &wire.content_id {
            Some(id) => match ContentId::parse(id.as_str()) {
                Ok(id) => Some(id),
                Err(_) => None,
            },
            None => None,
        };
        if let Some(id) = &content_id {
            let key = TrackKey::remote(id.clone());
            if let Some(track) = self.track(&key) {
                return Some(track.clone());
            }
            if let Some(row) = find_row(rows, id) {
                return Some(library_track(row.clone(), String::new().as_str()));
            }
        }
        foreign_playback_track(wire, names)
    }

    fn resolve_wires<F: Fn(&str) -> String>(
        &self,
        wires: &Vec<PlaybackTrack>,
        rows: &Vec<LibraryTrack>,
        names: &F,
    ) -> (r: Vec<Track>)
        requires
            is_name_fn(names),
        ensures
            views(r@) == self@.resolve_wires(keys_by(names), views(rows@), views(wires@)),
    {
        let ghost all = views(wires@);
        let mut r: Vec<Track> = Vec::new();
        let mut i: usize = 0;
        while i < wires.len()
            invariant
                is_name_fn(names),
                i <= wires.len() == all.len(),
                all == views(wires@),
                views(r@) == self@.resolve_wires(keys_by(names), views(rows@), all.take(i as int)),
            decreases wires.len() - i,
        {
            proof {
                assert(all.take(i + 1).drop_last() =~= all.take(i as int));
            }
            if let Some(track) = self.resolve_playback_track(&wires[i], rows, names) {
                r.push(track);
            }
            i += 1;
        }
        proof {
            assert(all.take(i as int) =~= all);
        }
        r
    }

    fn take_queue<F: Fn(&str) -> String>(
        &mut self,
        wire: &PlaybackStateWire,
        rows: &Vec<LibraryTrack>,
        names: &F,
    )
        requires
            is_name_fn(names),
            old(self)@.wf(),
        ensures
            final(self)@ == old(self)@.take_queue(keys_by(names), views(rows@), wire@),
            final(self)@.wf(),
    {
        proof {
            reveal(ActorModel::take_queue);
        }
        let tracks = self.resolve_wires(&wire.queue, rows, names);
        if tracks.len() == 0 {
            assert(views(tracks@).len() == 0);
            return;
        }
        proof {
            assert(views(tracks@).len() == tracks.len());
        }
        if wire.shuffle {
            if !self.playback().shuffle {
                self.queue_mut().remember_order();
            }
            self.queue_mut().replace_shuffled_context(tracks, wire.queue_pos);
        } else {
            self.queue_mut().replace_context(tracks, wire.queue_pos);
        }
        self.resolve_queue_artwork(names);
    }

    fn take_state<F: Fn(&str) -> String>(
        &mut self,
        wire: &PlaybackStateWire,
        rows: &Vec<LibraryTrack>,
        names: &F,
    )
        requires
            is_name_fn(names),
            old(self)@.wf(),
        ensures
            final(self)@ == old(self)@.take_state(keys_by(names), views(rows@), wire@),
            final(self)@.wf(),
    {
        proof {
            reveal(ActorModel::take_state);
        }
        self.take_queue(wire, rows, names);
        let duration_nanos: u64 = match self.queue().current() {
            Some(item) => item.track.duration_nanos,
            None => 0,
        };
        let volume_ppb: u32 = percent_volume(wire.volume);
        self.set_playback(
            PlaybackSnapshot {
                status: if !wire.playing {
                    PlaybackStatus::Stopped
                } else if wire.paused {
                    PlaybackStatus::Paused
                } else {
                    PlaybackStatus::Playing
                },
                position_nanos: position_of(wire),
                duration_nanos,
                volume_ppb,
                shuffle: wire.shuffle,
                repeat: wire.repeat,
            },
        );
        self.act(Action::AudioVolume { volume_ppb });
    }

    fn current_changed(&self, index: Option<usize>, key: &Option<TrackKey>, Ghost(before): Ghost<
        QueueModel,
    >) -> (r: bool)
        requires
            self@.wf(),
            index == before.current,
            opt_view(*key) == (match before.current_item() {
                Some(item) => Some(item.track.key),
                None => None,
            }),
        ensures
            r == self@.current_changed(before),
    {
        if index != self.queue().current_index() {
            return true;
        }
        match (key, self.queue().current()) {
            (Some(old), Some(new)) => !old.matches(&new.track.key),
            _ => true,
        }
    }

    fn follow_audio(
        &mut self,
        wire: &PlaybackStateWire,
        seek: bool,
        status: PlaybackStatus,
        index: Option<usize>,
        key: &Option<TrackKey>,
        around: &Surroundings,
        Ghost(before): Ghost<QueueModel>,
    )
        requires
            old(self)@.wf(),
            index == before.current,
            opt_view(*key) == (match before.current_item() {
                Some(item) => Some(item.track.key),
                None => None,
            }),
        ensures
            final(self)@ == old(self)@.follow_audio(wire@, seek, status, before, around@),
            final(self)@.wf(),
    {
        proof {
            reveal(ActorModel::follow_audio);
        }
        let position_nanos: u64 = position_of(wire);
        if !wire.playing {
            self.act(Action::AudioStop);
        } else if status == PlaybackStatus::Stopped || self.current_changed(
            index,
            key,
            Ghost(before),
        ) {
            self.play_current(around);
            if seek {
                self.act(Action::AudioSeek { position_nanos });
                let playback = self.playback();
                self.set_playback(PlaybackSnapshot { position_nanos, ..playback });
            }
            if wire.paused {
                self.act(Action::AudioPause);
                self.set_status(PlaybackStatus::Paused);
            }
        } else if wire.paused {
            self.act(Action::AudioPause);
        } else if status == PlaybackStatus::Paused {
            self.act(Action::AudioResume);
        } else if seek {
            self.act(Action::AudioSeek { position_nanos });
        }
    }

    pub fn apply_device_playback_state<F: Fn(&str) -> String>(
        &mut self,
        wire: &PlaybackStateWire,
        start_audio: bool,
        seek: bool,
        rows: &Vec<LibraryTrack>,
        around: &Surroundings,
        names: &F,
    )
        requires
            is_name_fn(names),
            old(self)@.wf(),
        ensures
            final(self)@ == old(self)@.apply_state(
                keys_by(names),
                views(rows@),
                wire@,
                start_audio,
                seek,
                around@,
            ),
            final(self)@.wf(),
    {
        proof {
            reveal(ActorModel::apply_state);
        }
        let status = self.playback().status;
        let index = self.queue().current_index();
        let key: Option<TrackKey> = match self.queue().current() {
            Some(item) => Some(item.track.key.clone()),
            None => None,
        };
        let ghost before = self@.state.queue;
        self.take_state(wire, rows, names);
        if start_audio {
            self.follow_audio(wire, seek, status, index, &key, around, Ghost(before));
        }
    }

    pub fn apply_device_playback_command<F: Fn(&str) -> String>(
        &mut self,
        command: PlaybackCommand,
        rows: &Vec<LibraryTrack>,
        around: &Surroundings,
        names: &F,
    )
        requires
            is_name_fn(names),
            old(self)@.wf(),
        ensures
            final(self)@ == old(self)@.apply_command(
                keys_by(names),
                views(rows@),
                command@,
                around@,
            ),
            final(self)@.wf(),
    {
        match command {
            PlaybackCommand::SetState { state, seek } => {
                let id = self.connected_devices().this_device_id.clone();
                let name = self.connected_devices().this_device_name.clone();
                self.becomes(DevicePlaybackRole::Active, id, name, None, None);
                self.apply_device_playback_state(&state, true, seek, rows, around, names);
            },
            PlaybackCommand::ActiveChanged { active_device_id, active_device_name, state } => {
                let is_self = active_device_id == self.connected_devices().this_device_id;
                if is_self {
                    self.becomes(
                        DevicePlaybackRole::Active,
                        active_device_id,
                        active_device_name,
                        None,
                        None,
                    );
                } else {
                    let anchor = ControlPlaybackAnchor {
                        device_id: active_device_id.clone(),
                        state: state.clone(),
                        observed_at: around.now.nanos,
                    };
                    self.becomes(
                        DevicePlaybackRole::Control,
                        active_device_id,
                        active_device_name,
                        Some(anchor),
                        None,
                    );
                    self.act(Action::AudioStop);
                }
                self.apply_device_playback_state(&state, is_self, true, rows, around, names);
            },
        }
        self.refresh_and_publish(around);
    }

    fn is_outdated<F: Fn(&str) -> String>(&self, snapshot: &DevicePlayback, now: u64, names: &F) -> (r:
        bool)
        requires
            is_name_fn(names),
        ensures
            r == self@.is_outdated(keys_by(names), snapshot@, now),
    {
        if self.role() != DevicePlaybackRole::Control {
            return false;
        }
        match self.pending_control() {
            Some(pending) => {
                if pending.device_id != snapshot.device_id {
                    return false;
                }
                let waited: u64 = now.saturating_sub(pending.sent_at);
                !playback_state_acknowledges_command(
                    &pending.state,
                    &snapshot.state,
                    pending.seek,
                    waited,
                    names,
                ) && waited < CONTROL_ACK_TIMEOUT_NANOS
            },
            None => false,
        }
    }

    fn awaits(&self, device_id: &String) -> (r: bool)
        ensures
            r == self@.awaits(device_id@),
    {
        self.role() == DevicePlaybackRole::Control && match self.pending_control() {
            Some(pending) => pending.device_id == *device_id,
            None => false,
        }
    }

    pub fn apply_remote_playback_snapshot<F: Fn(&str) -> String>(
        &mut self,
        snapshot: DevicePlayback,
        rows: &Vec<LibraryTrack>,
        around: &Surroundings,
        names: &F,
    )
        requires
            is_name_fn(names),
            old(self)@.wf(),
        ensures
            final(self)@ == old(self)@.follow_broadcast(
                keys_by(names),
                views(rows@),
                snapshot@,
                around@,
            ),
            final(self)@.wf(),
    {
        let queue_empty = self.queue().items().len() == 0;
        proof {
            let items = self@.state.queue.items;
            assert(queue_empty == (items.len() == 0));
        }
        if !remote_snapshot_has_authority(
            self.role(),
            self.active_device_id(),
            self.playback().status,
            queue_empty,
            &snapshot,
        ) || self.is_outdated(&snapshot, around.now.nanos, names) {
            return;
        }
        if self.awaits(&snapshot.device_id) {
            self.set_pending_control(None);
        }
        if self.role() == DevicePlaybackRole::Active {
            self.finish_listen(ListenEndReason::Stopped);
        }
        let anchor = ControlPlaybackAnchor {
            device_id: snapshot.device_id.clone(),
            state: snapshot.state.clone(),
            observed_at: around.now.nanos,
        };
        let pending = self.pending_control().clone();
        self.becomes(
            DevicePlaybackRole::Control,
            snapshot.device_id,
            snapshot.device_name,
            Some(anchor),
            pending,
        );
        self.act(Action::AudioStop);
        self.apply_device_playback_state(&snapshot.state, false, false, rows, around, names);
        self.refresh_and_publish(around);
    }
}

} // verus!

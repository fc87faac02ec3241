//! What the devices of one listener tell each other of what plays.
use crate::actor::{
    ActionModel, ActorModel, ControlPlaybackAnchorModel, DeviceRowModel, HandoffModel,
    ListenEndReason, Moment, PendingControlStateModel, SurroundingsModel,
};
use crate::actor_devices::{in_text_order, is_trusted_device, shown_devices};
use crate::actor_laws::{
    lemma_broadcast_hangs_on_playback, lemma_published, shows, starting_plays_the_current_track,
};
use crate::api::{
    DevicePlaybackRole, DevicePresence, DeviceTrust, PlaybackSnapshot, PlaybackStatus, UNIT,
};
use crate::catalog::AudioSourceModel;
use crate::find::lemma_first_where;
use crate::library::LibraryTrackRow;
use crate::merge::NameKeys;
use crate::playback_laws::artwork_alone_is_resolved;
use crate::queue::QueueModel;
use crate::wire::{DevicePlaybackModel, PlaybackCommandModel, PlaybackStateWireModel};
use vstd::prelude::*;

verus! {

/// What is told of a player is what it does: whether it plays and is paused,
/// where it is, how loud, in which mode, and which of the queued tracks is
/// current.
pub proof fn what_is_told_is_what_plays(actor: ActorModel, now: Moment)
    ensures
        ({
            let playback = actor.state.playback;
            let told = actor.wire_state(now);
            &&& told.playing <==> playback.status != PlaybackStatus::Stopped
            &&& told.paused <==> playback.status == PlaybackStatus::Paused
            &&& told.idle_since_ms is Some <==> playback.status != PlaybackStatus::Playing
            &&& told.idle_since_ms matches Some(since) ==> since == now.unix_ms
            &&& playback.position_nanos <= i64::MAX ==> told.position_nanos
                == playback.position_nanos
            &&& playback.volume_ppb <= UNIT ==> -5_000_000 <= told.volume * 10_000_000
                - playback.volume_ppb <= 5_000_000
            &&& told.shuffle == playback.shuffle
            &&& told.repeat == playback.repeat
            &&& actor.state.queue.current matches Some(c) ==> told.queue_pos == c
            &&& told.queue.len() == actor.state.queue.items.len()
            &&& actor.broadcast(now).state == told
            &&& actor.broadcast(now).active <==> actor.device_role == DevicePlaybackRole::Active
            &&& actor.broadcast(now).device_id == actor.state.connected_devices.this_device_id
            &&& actor.broadcast(now).device_name == actor.state.connected_devices.this_device_name
            &&& actor.broadcast(now).updated_at_ms == now.unix_ms
        }),
{
    reveal(ActorModel::wire_state);
    reveal(ActorModel::broadcast);
}

/// Whether the playback is what a state on the wire says.
pub open spec fn is_as_told(playback: PlaybackSnapshot, told: PlaybackStateWireModel) -> bool {
    &&& playback.status == PlaybackStatus::Stopped <==> !told.playing
    &&& told.playing ==> (playback.status == PlaybackStatus::Paused <==> told.paused)
    &&& playback.position_nanos == if told.position_nanos >= 0 {
        told.position_nanos as int
    } else {
        0
    }
    &&& told.volume <= 100 ==> playback.volume_ppb == told.volume * 10_000_000
    &&& told.volume > 100 ==> playback.volume_ppb == UNIT
    &&& playback.shuffle == told.shuffle
    &&& playback.repeat == told.repeat
}

/// A player that takes over a state is in that state, and as loud.
pub proof fn a_state_is_taken_over(
    actor: ActorModel,
    keys: NameKeys,
    rows: Seq<LibraryTrackRow>,
    told: PlaybackStateWireModel,
)
    ensures
        ({
            let r = actor.take_state(keys, rows, told);
            &&& is_as_told(r.state.playback, told)
            &&& r.outbox.last() == (ActionModel::AudioVolume {
                volume_ppb: r.state.playback.volume_ppb,
            })
            &&& r.state.queue.current matches Some(c) ==> r.state.playback.duration_nanos
                == r.state.queue.items[c as int].track.duration_nanos
            &&& r.device_role == actor.device_role
            &&& r.active_device_id == actor.active_device_id
            &&& r.active_device_name == actor.active_device_name
            &&& r.control_anchor == actor.control_anchor
            &&& r.pending_control == actor.pending_control
            &&& r.listen_session == actor.listen_session
            &&& r.outbox.len() > actor.outbox.len()
            &&& forall|i: int|
                0 <= i < actor.outbox.len() ==> #[trigger] r.outbox[i] == actor.outbox[i]
            &&& forall|i: int|
                actor.outbox.len() <= i < r.outbox.len() - 1
                    ==> #[trigger] r.outbox[i] is ResolveArtwork
        }),
{
    reveal(ActorModel::take_state);
    reveal(ActorModel::take_queue);
    let tracks = actor.resolve_wires(keys, rows, told.queue);
    let remembered = if actor.state.playback.shuffle {
        actor.state.queue
    } else {
        actor.state.queue.remember_order()
    };
    artwork_alone_is_resolved(
        actor.with_queue(remembered.replace_shuffled_context(tracks, told.queue_pos)),
        keys,
    );
    artwork_alone_is_resolved(
        actor.with_queue(actor.state.queue.replace_context(tracks, told.queue_pos)),
        keys,
    );
}

/// The queue that is taken over holds the tracks that could be made out, from
/// the place that was told; where none could be, the queue stays.
pub proof fn a_queue_is_taken_over(
    actor: ActorModel,
    keys: NameKeys,
    rows: Seq<LibraryTrackRow>,
    told: PlaybackStateWireModel,
)
    ensures
        ({
            let r = actor.take_state(keys, rows, told);
            let tracks = actor.resolve_wires(keys, rows, told.queue);
            &&& tracks.len() == 0 ==> r.state.queue == actor.state.queue
            &&& tracks.len() > 0 ==> {
                &&& r.state.queue.items.len() == tracks.len()
                &&& told.queue_pos < tracks.len() ==> r.state.queue.current == Some(told.queue_pos)
                &&& !told.shuffle ==> r.state.queue.original_order is None
                &&& told.shuffle && actor.state.playback.shuffle ==> r.state.queue.original_order
                    == actor.state.queue.original_order
            }
        }),
{
    reveal(ActorModel::take_state);
    reveal(ActorModel::take_queue);
    let tracks = actor.resolve_wires(keys, rows, told.queue);
    let remembered = if actor.state.playback.shuffle {
        actor.state.queue
    } else {
        actor.state.queue.remember_order()
    };
    artwork_alone_is_resolved(
        actor.with_queue(remembered.replace_shuffled_context(tracks, told.queue_pos)),
        keys,
    );
    artwork_alone_is_resolved(
        actor.with_queue(actor.state.queue.replace_context(tracks, told.queue_pos)),
        keys,
    );
}

/// The audio follows a state that was taken over: silence where nothing is to
/// play; the file from where the other player was where something new is to
/// play; and otherwise as little as it takes.
pub proof fn the_audio_follows_the_state(
    actor: ActorModel,
    told: PlaybackStateWireModel,
    seek: bool,
    status: PlaybackStatus,
    before: QueueModel,
    around: SurroundingsModel,
)
    requires
        actor.wf(),
        is_as_told(actor.state.playback, told),
        actor.device_role == DevicePlaybackRole::Active,
    ensures
        ({
            let r = actor.follow_audio(told, seek, status, before, around);
            let n = r.outbox.len() as int;
            let position_nanos = actor.state.playback.position_nanos;
            let same = before.current == actor.state.queue.current && before.current is Some
                && before.items[before.current->0 as int].track.key.matches(
                actor.state.queue.items[before.current->0 as int].track.key,
            );
            &&& r.state.queue == actor.state.queue
            &&& !told.playing ==> r.outbox == actor.outbox.push(ActionModel::AudioStop)
                && r.state.playback == actor.state.playback
            &&& told.playing && status != PlaybackStatus::Stopped && same ==> {
                &&& r.state.playback == actor.state.playback
                &&& told.paused ==> r.outbox == actor.outbox.push(ActionModel::AudioPause)
                &&& !told.paused && status == PlaybackStatus::Paused ==> r.outbox
                    == actor.outbox.push(ActionModel::AudioResume)
                &&& !told.paused && status == PlaybackStatus::Playing && seek ==> r.outbox
                    == actor.outbox.push(ActionModel::AudioSeek { position_nanos })
                &&& !told.paused && status == PlaybackStatus::Playing && !seek ==> r.outbox
                    == actor.outbox
            }
            &&& told.playing && (status == PlaybackStatus::Stopped || !same) ==> {
                &&& seek && actor.state.queue.current is Some ==> r.state.playback.position_nanos
                    == position_nanos
                &&& !seek && actor.state.queue.current is Some ==> r.state.playback.position_nanos
                    == 0
                &&& told.paused ==> r.state.playback.status == PlaybackStatus::Paused && r.outbox[n
                    - 1] is AudioPause
                &&& seek ==> r.outbox[if told.paused {
                    n - 2
                } else {
                    n - 1
                }] == (ActionModel::AudioSeek { position_nanos })
                &&& actor.state.queue.current matches Some(c) ==> (
                actor.state.queue.items[c as int].track.audio_source matches
                    AudioSourceModel::LocalFile(path) ==> {
                    &&& !told.paused ==> r.state.playback.status == PlaybackStatus::Playing
                    &&& exists|i: int|
                        actor.outbox.len() <= i < n && #[trigger] r.outbox[i] == (
                        ActionModel::AudioPlay {
                            path,
                            volume_ppb: actor.state.playback.volume_ppb,
                        })
                })
            }
        }),
{
    reveal(ActorModel::follow_audio);
    let started = actor.play_current(around);
    let r = actor.follow_audio(told, seek, status, before, around);
    starting_plays_the_current_track(actor, around);
    if told.playing && (status == PlaybackStatus::Stopped || actor.current_changed(before)) {
        let m = started.outbox.len() as int;
        assert forall|i: int| 0 <= i < m implies #[trigger] r.outbox[i] == started.outbox[i] by {}
        if let Some(c) = actor.state.queue.current {
            if let AudioSourceModel::LocalFile(path) =
                actor.state.queue.items[c as int].track.audio_source {
                assert(r.outbox[m - 2] == (ActionModel::AudioPlay {
                    path,
                    volume_ppb: actor.state.playback.volume_ppb,
                }));
            }
        }
    }
}

/// Whether one device plays and the others are told that it does.
pub open spec fn plays_at(actor: ActorModel, device_id: Seq<char>, name: Seq<char>) -> bool {
    &&& actor.active_device_id == device_id
    &&& actor.active_device_name == name
}

proof fn lemma_refreshed(actor: ActorModel, around: SurroundingsModel)
    ensures
        ({
            let r = actor.refresh_and_publish(around);
            &&& r.state.playback == actor.state.playback
            &&& r.state.queue == actor.state.queue
            &&& r.device_role == actor.device_role
            &&& r.active_device_id == actor.active_device_id
            &&& r.active_device_name == actor.active_device_name
            &&& r.control_anchor == actor.control_anchor
            &&& r.pending_control == actor.pending_control
            &&& r.listen_session == actor.listen_session
            &&& r.outbox == actor.outbox.push(r.outbox.last())
            &&& shows(r, r.outbox.last(), around.now)
        }),
{
    reveal(ActorModel::refresh_devices);
    lemma_published(actor.refresh_devices(around.devices), around.now);
}

/// A device that is told of another active device stops its own audio, and
/// follows that one from where it is.
pub proof fn a_device_follows_the_active_one(
    actor: ActorModel,
    keys: NameKeys,
    rows: Seq<LibraryTrackRow>,
    active_device_id: Seq<char>,
    active_device_name: Seq<char>,
    state: PlaybackStateWireModel,
    around: SurroundingsModel,
)
    requires
        active_device_id != actor.state.connected_devices.this_device_id,
    ensures
        ({
            let r = actor.apply_command(
                keys,
                rows,
                PlaybackCommandModel::ActiveChanged { active_device_id, active_device_name, state },
                around,
            );
            &&& r.device_role == DevicePlaybackRole::Control
            &&& plays_at(r, active_device_id, active_device_name)
            &&& is_as_told(r.state.playback, state)
            &&& r.outbox[actor.outbox.len() as int] is AudioStop
            &&& r.pending_control is None
            &&& r.control_anchor matches Some(anchor) && anchor.device_id == active_device_id
                && anchor.state == state && anchor.observed_at == around.now.nanos
            &&& shows(r, r.outbox.last(), around.now)
        }),
{
    reveal(ActorModel::apply_state);
    let command = PlaybackCommandModel::ActiveChanged {
        active_device_id,
        active_device_name,
        state,
    };
    let stopped = actor.becomes(
        DevicePlaybackRole::Control,
        active_device_id,
        active_device_name,
        Some(
            ControlPlaybackAnchorModel {
                device_id: active_device_id,
                state,
                observed_at: around.now.nanos,
            },
        ),
        None,
    ).act(ActionModel::AudioStop);
    let taken = stopped.take_state(keys, rows, state);
    a_state_is_taken_over(stopped, keys, rows, state);
    lemma_refreshed(taken, around);
    assert(actor.apply_command(keys, rows, command, around) == taken.refresh_and_publish(around));
    assert(taken.outbox[actor.outbox.len() as int] == stopped.outbox[actor.outbox.len() as int]);
}

/// A device that is told what to play, or that it is the active one, plays: it
/// becomes active and follows nobody.
pub proof fn a_device_that_is_told_plays(
    actor: ActorModel,
    keys: NameKeys,
    rows: Seq<LibraryTrackRow>,
    name: Seq<char>,
    state: PlaybackStateWireModel,
    seek: bool,
    around: SurroundingsModel,
)
    ensures
        ({
            let this = actor.state.connected_devices;
            let r = actor.apply_command(
                keys,
                rows,
                PlaybackCommandModel::SetState { state, seek },
                around,
            );
            let s = actor.apply_command(
                keys,
                rows,
                PlaybackCommandModel::ActiveChanged {
                    active_device_id: this.this_device_id,
                    active_device_name: name,
                    state,
                },
                around,
            );
            let here = actor.becomes(
                DevicePlaybackRole::Active,
                this.this_device_id,
                this.this_device_name,
                None,
                None,
            ).take_state(keys, rows, state);
            let there = actor.becomes(
                DevicePlaybackRole::Active,
                this.this_device_id,
                name,
                None,
                None,
            ).take_state(keys, rows, state);
            &&& r == here.follow_audio(
                state,
                seek,
                actor.state.playback.status,
                actor.state.queue,
                around,
            ).refresh_and_publish(around)
            &&& s == there.follow_audio(
                state,
                true,
                actor.state.playback.status,
                actor.state.queue,
                around,
            ).refresh_and_publish(around)
            &&& is_as_told(here.state.playback, state)
            &&& here.device_role == DevicePlaybackRole::Active
            &&& plays_at(here, this.this_device_id, this.this_device_name)
            &&& here.control_anchor is None
            &&& is_as_told(there.state.playback, state)
            &&& there.device_role == DevicePlaybackRole::Active
            &&& plays_at(there, this.this_device_id, name)
            &&& there.control_anchor is None
        }),
{
    reveal(ActorModel::apply_state);
    let this = actor.state.connected_devices;
    a_state_is_taken_over(
        actor.becomes(
            DevicePlaybackRole::Active,
            this.this_device_id,
            this.this_device_name,
            None,
            None,
        ),
        keys,
        rows,
        state,
    );
    a_state_is_taken_over(
        actor.becomes(DevicePlaybackRole::Active, this.this_device_id, name, None, None),
        keys,
        rows,
        state,
    );
}

/// A broadcast that is followed makes this device a controller of the one that
/// sent it, silent and in the same state.
pub proof fn a_broadcast_is_followed(
    actor: ActorModel,
    keys: NameKeys,
    rows: Seq<LibraryTrackRow>,
    snapshot: DevicePlaybackModel,
    around: SurroundingsModel,
)
    requires
        snapshot.active,
        actor.device_role == DevicePlaybackRole::Control ==> snapshot.device_id
            == actor.active_device_id,
        actor.device_role == DevicePlaybackRole::Active ==> actor.state.playback.status
            == PlaybackStatus::Stopped && actor.state.queue.items.len() == 0,
        !actor.is_outdated(keys, snapshot, around.now.nanos),
    ensures
        ({
            let r = actor.follow_broadcast(keys, rows, snapshot, around);
            &&& r.device_role == DevicePlaybackRole::Control
            &&& plays_at(r, snapshot.device_id, snapshot.device_name)
            &&& is_as_told(r.state.playback, snapshot.state)
            &&& r.control_anchor matches Some(anchor) && anchor.device_id == snapshot.device_id
                && anchor.state == snapshot.state && anchor.observed_at == around.now.nanos
            &&& actor.device_role == DevicePlaybackRole::Control ==> (
            actor.pending_control matches Some(pending) ==> (pending.device_id
                == snapshot.device_id ==> r.pending_control is None))
            &&& actor.device_role == DevicePlaybackRole::Active ==> r.listen_session is None
            &&& exists|i: int|
                actor.outbox.len() <= i < r.outbox.len() && #[trigger] r.outbox[i] is AudioStop
            &&& forall|i: int|
                actor.outbox.len() <= i < r.outbox.len() ==> !(
                #[trigger] r.outbox[i] is AudioPlay) && !(r.outbox[i] is AudioResume)
            &&& shows(r, r.outbox.last(), around.now)
        }),
{
    reveal(ActorModel::apply_state);
    reveal(ActorModel::finish_listen);
    let settled = if actor.awaits(snapshot.device_id) {
        actor.with_pending_control(None)
    } else {
        actor
    };
    let silent = if settled.device_role == DevicePlaybackRole::Active {
        settled.finish_listen(ListenEndReason::Stopped)
    } else {
        settled
    };
    let stopped = silent.becomes(
        DevicePlaybackRole::Control,
        snapshot.device_id,
        snapshot.device_name,
        Some(
            ControlPlaybackAnchorModel {
                device_id: snapshot.device_id,
                state: snapshot.state,
                observed_at: around.now.nanos,
            },
        ),
        silent.pending_control,
    ).act(ActionModel::AudioStop);
    let taken = stopped.take_state(keys, rows, snapshot.state);
    let r = actor.follow_broadcast(keys, rows, snapshot, around);
    a_state_is_taken_over(stopped, keys, rows, snapshot.state);
    lemma_refreshed(taken, around);
    assert(r == taken.refresh_and_publish(around));
    assert(r.outbox[silent.outbox.len() as int] is AudioStop) by {
        assert(stopped.outbox[silent.outbox.len() as int] is AudioStop);
        assert(taken.outbox[silent.outbox.len() as int] == stopped.outbox[silent.outbox.len() as int]);
    }
    assert forall|i: int| actor.outbox.len() <= i < r.outbox.len() implies !(
    #[trigger] r.outbox[i] is AudioPlay) && !(r.outbox[i] is AudioResume) by {
        if i < stopped.outbox.len() {
            assert(taken.outbox[i] == stopped.outbox[i]);
        }
        if i < taken.outbox.len() {
            assert(r.outbox[i] == taken.outbox[i]);
        }
    }
}

/// While a controlled device plays, its position is taken to move on with the
/// clock, up to the end of the track; while it is paused, to stay.
pub proof fn the_position_of_a_controlled_device_moves_on(
    actor: ActorModel,
    now: u64,
)
    requires
        actor.pending_control is None,
        actor.control_anchor is Some,
        actor.control_anchor->0.device_id == actor.active_device_id,
        actor.control_anchor->0.observed_at <= now,
        actor.control_anchor->0.state.position_nanos >= 0,
    ensures
        ({
            let anchor = actor.control_anchor->0;
            let duration = actor.state.playback.duration_nanos;
            let moved = anchor.state.position_nanos + if anchor.state.playing
                && !anchor.state.paused {
                now - anchor.observed_at
            } else {
                0
            };
            &&& actor.control_position(now) is Some
            &&& duration > 0 && moved >= duration ==> actor.control_position(now)->0 == duration
            &&& moved <= u64::MAX && (duration == 0 || moved < duration) ==> actor.control_position(
                now,
            )->0 == moved
        }),
{
}

/// The devices that are shown are those that are not revoked, in their order,
/// each as it is known, and the one that plays is marked.
pub proof fn devices_are_shown_as_they_are(
    devices: Seq<DeviceRowModel>,
    active: Seq<char>,
)
    requires
        forall|i: int| 0 <= i < devices.len() ==> !(#[trigger] devices[i]).revoked,
    ensures
        ({
            let shown = shown_devices(devices, active);
            &&& shown.len() == devices.len()
            &&& forall|i: int|
                0 <= i < devices.len() ==> {
                    &&& (#[trigger] shown[i]).id == devices[i].id
                    &&& shown[i].name == devices[i].name
                    &&& shown[i].client_version == devices[i].client_version
                    &&& shown[i].is_self == devices[i].is_self
                    &&& shown[i].is_active <==> devices[i].id == active
                    &&& shown[i].presence == DevicePresence::Online <==> devices[i].online
                    &&& shown[i].trust == DeviceTrust::Trusted
                }
        }),
    decreases devices.len(),
{
    if devices.len() > 0 {
        let front = devices.drop_last();
        assert forall|i: int| 0 <= i < front.len() implies !(#[trigger] front[i]).revoked by {
            assert(!devices[i].revoked);
        }
        devices_are_shown_as_they_are(front, active);
        assert(!devices[devices.len() - 1].revoked);
        let before = shown_devices(front, active);
        let shown = shown_devices(devices, active);
        assert forall|i: int| 0 <= i < devices.len() implies (#[trigger] shown[i]).id
            == devices[i].id && shown[i].name == devices[i].name && shown[i].client_version
            == devices[i].client_version && shown[i].is_self == devices[i].is_self && (
        shown[i].is_active <==> devices[i].id == active) && (shown[i].presence
            == DevicePresence::Online <==> devices[i].online) && shown[i].trust
            == DeviceTrust::Trusted by {
            if i < front.len() {
                assert(shown[i] == before[i]);
                assert(front[i] == devices[i]);
            }
        }
    }
}

/// A revoked device is never shown.
pub proof fn revoked_devices_are_not_shown(
    devices: Seq<DeviceRowModel>,
    active: Seq<char>,
    k: int,
)
    requires
        0 <= k < shown_devices(devices, active).len(),
    ensures
        exists|i: int|
            0 <= i < devices.len() && !(#[trigger] devices[i]).revoked && devices[i].id
                == shown_devices(devices, active)[k].id,
    decreases devices.len(),
{
    let front = devices.drop_last();
    let before = shown_devices(front, active);
    if k < before.len() {
        revoked_devices_are_not_shown(front, active, k);
        let i = choose|i: int|
            0 <= i < front.len() && !(#[trigger] front[i]).revoked && front[i].id == before[k].id;
        assert(devices[i] == front[i]);
    } else {
        assert(!devices[devices.len() - 1].revoked);
    }
}

/// Choosing a trusted device asks for the handoff to it, with the state that
/// plays: the device itself is told, or, where playback comes here, the one
/// that plays so far; and where two others are concerned, both are.
pub proof fn a_chosen_device_is_handed_the_state(
    actor: ActorModel,
    i: int,
    now: Moment,
)
    requires
        0 <= i < actor.state.connected_devices.devices.len(),
        actor.state.connected_devices.devices[i].trust == DeviceTrust::Trusted,
        forall|j: int|
            0 <= j < i ==> (#[trigger] actor.state.connected_devices.devices[j]).id
                != actor.state.connected_devices.devices[i].id,
        actor.state.connected_devices.devices[i].id != actor.active_device_id,
    ensures
        ({
            let target = actor.state.connected_devices.devices[i];
            let here = actor.state.connected_devices.this_device_id;
            let r = actor.select_device(target.id, now);
            &&& r == (ActorModel { outbox: r.outbox, ..actor })
            &&& r.outbox.len() == actor.outbox.len() + 1
            &&& r.outbox.last() matches ActionModel::HandOff { handoff } && {
                &&& handoff.target_id == target.id
                &&& handoff.target_name == target.name
                &&& handoff.target_is_self == target.is_self
                &&& handoff.state == actor.wire_state(now)
                &&& target.is_self ==> handoff.first == actor.active_device_id
                    && handoff.second is None
                &&& !target.is_self ==> handoff.first == target.id
                &&& !target.is_self && actor.active_device_id == here ==> handoff.second is None
                &&& !target.is_self && actor.active_device_id != here ==> handoff.second == Some(
                    actor.active_device_id,
                )
            }
        }),
{
    let devices = actor.state.connected_devices.devices;
    let p = is_trusted_device(devices[i].id);
    assert forall|j: int| 0 <= j < i implies !p(#[trigger] devices[j]) by {}
    lemma_first_where(devices, p, i);
}

/// Playback changes hands once the device that matters could be told: it goes
/// to the device that was chosen, and stops here where that is another one;
/// where the device could not be told, everything stays.
pub proof fn a_handoff_moves_playback(
    actor: ActorModel,
    handoff: HandoffModel,
    first_error: Option<Seq<char>>,
    second_error: Option<Seq<char>>,
    around: SurroundingsModel,
)
    requires
        actor.wf(),
    ensures
        ({
            let r = actor.handed_off(handoff, first_error, second_error, around);
            let m = actor.outbox.len() as int;
            let n = r.outbox.len() as int;
            &&& shows(r, r.outbox.last(), around.now)
            &&& first_error is Some ==> {
                &&& r.device_role == actor.device_role
                &&& plays_at(r, actor.active_device_id, actor.active_device_name)
                &&& r.state.playback == actor.state.playback
                &&& r.state.connected_devices.error is Some
                &&& n == m + 1
            }
            &&& first_error is None ==> {
                &&& plays_at(r, handoff.target_id, handoff.target_name)
                &&& handoff.target_is_self ==> {
                    &&& r.device_role == DevicePlaybackRole::Active
                    &&& r.control_anchor is None
                    &&& r.pending_control is None
                }
                &&& !handoff.target_is_self ==> {
                    &&& r.device_role == DevicePlaybackRole::Control
                    &&& r.outbox[m] is AudioStop
                    &&& r.state.playback == actor.state.playback
                    &&& r.control_anchor matches Some(anchor) && anchor.device_id
                        == handoff.target_id && anchor.state == handoff.state && anchor.observed_at
                        == around.now.nanos
                    &&& r.pending_control matches Some(pending) && pending.device_id
                        == handoff.target_id && pending.state == handoff.state && pending.seek
                        && pending.sent_at == around.now.nanos
                    &&& second_error is Some ==> r.state.connected_devices.error is Some
                }
                &&& n >= m + 3
                &&& r.outbox[n - 2] matches ActionModel::PublishPlayback { playback } && playback
                    == r.broadcast(around.now)
                &&& r.outbox[n - 3] matches ActionModel::RequestSync { targets } && {
                    &&& actor.device_service_ready ==> targets.contains(handoff.first)
                    &&& actor.device_service_ready && handoff.second is Some ==> targets.contains(
                        handoff.second->0,
                    )
                    &&& !actor.device_service_ready ==> targets.len() == 0
                }
            }
        }),
{
    reveal(ActorModel::refresh_devices);
    let r = actor.handed_off(handoff, first_error, second_error, around);
    if let Some(message) = first_error {
        lemma_published(actor.with_device_error("device handoff: "@ + message), around.now);
    } else {
        let here = actor.becomes(
            DevicePlaybackRole::Active,
            handoff.target_id,
            handoff.target_name,
            None,
            None,
        );
        let told = match second_error {
            Some(message) => actor.with_device_error("previous device handoff: "@ + message),
            None => actor,
        };
        let moved = if handoff.target_is_self {
            if here.state.playback.status == PlaybackStatus::Playing {
                here.play_current(around)
            } else {
                here
            }
        } else {
            told.act(ActionModel::AudioStop).becomes(
                DevicePlaybackRole::Control,
                handoff.target_id,
                handoff.target_name,
                Some(
                    ControlPlaybackAnchorModel {
                        device_id: handoff.target_id,
                        state: handoff.state,
                        observed_at: around.now.nanos,
                    },
                ),
                Some(
                    PendingControlStateModel {
                        device_id: handoff.target_id,
                        state: handoff.state,
                        seek: true,
                        sent_at: around.now.nanos,
                    },
                ),
            )
        };
        starting_plays_the_current_track(here, around);
        let targets = if moved.device_service_ready {
            in_text_order(handoff.first, handoff.second)
        } else {
            Seq::empty()
        };
        assert(moved.device_service_ready ==> targets.contains(handoff.first)) by {
            if moved.device_service_ready {
                assert(targets[0] == handoff.first || targets[1] == handoff.first);
            }
        }
        assert(moved.device_service_ready && handoff.second is Some ==> targets.contains(
            handoff.second->0,
        )) by {
            if moved.device_service_ready && handoff.second is Some {
                assert(targets[0] == handoff.second->0 || targets[1] == handoff.second->0);
            }
        }
        let shown = moved.act(ActionModel::RequestSync { targets }).refresh_devices(around.devices);
        let sent = shown.act(ActionModel::PublishPlayback { playback: shown.broadcast(around.now) });
        lemma_published(sent, around.now);
        lemma_broadcast_hangs_on_playback(shown, r, around.now);
        assert(r == sent.publish(around.now));
    }
}

/// What a controlled device was told is remembered until it answers; where it
/// could not be told, that is shown.
pub proof fn a_control_is_awaited(
    actor: ActorModel,
    target: Seq<char>,
    state: PlaybackStateWireModel,
    seek: bool,
    error: Option<Seq<char>>,
    now: Moment,
)
    ensures
        ({
            let r = actor.control_sent(target, state, seek, error, now);
            &&& shows(r, r.outbox.last(), now)
            &&& r.outbox.len() == actor.outbox.len() + 1
            &&& r.state.playback == actor.state.playback
            &&& error is None ==> (r.pending_control matches Some(pending) && pending.device_id
                == target && pending.state == state && pending.seek == seek && pending.sent_at
                == now.nanos)
            &&& error is Some ==> r.pending_control == actor.pending_control
                && r.state.connected_devices.error is Some
        }),
{
    reveal(ActorModel::control_sent);
    if let Some(message) = error {
        lemma_published(actor.with_device_error("device control: "@ + message), now);
    } else {
        lemma_published(
            ActorModel {
                pending_control: Some(
                    PendingControlStateModel {
                        device_id: target,
                        state,
                        seek,
                        sent_at: now.nanos,
                    },
                ),
                ..actor
            },
            now,
        );
    }
}

} // verus!

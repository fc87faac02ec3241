//! What holds of the backend whatever happens.
use crate::actor::{ActionModel, ActorModel, ListenEndReason, Moment, SurroundingsModel};
use crate::actor_dispatch::InternalEvent;
use crate::api::{
    BackendCommand, BackendModel, DevicePlaybackRole, PlaybackRepeat, PlaybackSnapshot,
    PlaybackStatus, RequestId, SearchResultsModel, SearchStats, UNIT,
};
use crate::application::following;
use crate::catalog::{
    ArtistKeyModel, AudioSourceModel, ReleaseKeyModel, TrackKeyModel, TrackModel,
};
use crate::library::LibraryTrackRow;
use crate::merge::NameKeys;
use crate::queue::{restoring_undoes_a_shuffle, shuffling_keeps_the_queue_sound};
use crate::text::file_name;
use crate::wire::DevicePlaybackModel;
use vstd::prelude::*;

verus! {

/// Publishing raises the revision and shows exactly the state that then holds;
/// nothing else changes.
pub proof fn publishing_shows_the_new_revision(actor: ActorModel, now: Moment)
    ensures
        actor.publish(now).state == (BackendModel {
            revision: following(actor.state.revision),
            ..actor.state
        }),
        actor.publish(now).outbox == actor.outbox.push(
            ActionModel::Publish {
                snapshot: actor.publish(now).state,
                playback: actor.broadcast(now),
            },
        ),
{
    reveal(ActorModel::publish);
}

/// An answer to a search that is not the active one changes nothing, be it the
/// network's or the library's.
pub proof fn stale_search_answers_are_ignored(
    actor: ActorModel,
    keys: NameKeys,
    request_id: RequestId,
    query: Seq<char>,
    local: SearchResultsModel,
    answer: Option<(SearchResultsModel, SearchStats)>,
    message: Seq<char>,
    now: Moment,
)
    requires
        actor.active_search != Some(request_id),
    ensures
        actor.search_finished(keys, request_id, answer, message, now) == actor,
        actor.local_search_finished(keys, request_id, query, local, now) == actor,
{
}

/// Starting another search makes answers to the one before stale.
pub proof fn a_new_search_supersedes_the_old(
    actor: ActorModel,
    keys: NameKeys,
    old: RequestId,
    new: RequestId,
    query: Seq<char>,
    local: SearchResultsModel,
    answer: Option<(SearchResultsModel, SearchStats)>,
    message: Seq<char>,
    now: Moment,
)
    requires
        old != new,
    ensures
        actor.start_search(new, query).search_finished(keys, old, answer, message, now)
            == actor.start_search(new, query),
        actor.start_search(new, query).local_search_finished(keys, old, query, local, now)
            == actor.start_search(new, query),
{
}

/// An answer to a request for details that is not the active one changes
/// nothing.
pub proof fn stale_details_are_ignored(
    actor: ActorModel,
    keys: NameKeys,
    request_id: RequestId,
    key: ArtistKeyModel,
    name: Seq<char>,
    release: Option<ReleaseKeyModel>,
    answer: Option<(SearchResultsModel, SearchStats)>,
    message: Seq<char>,
    now: Moment,
)
    requires
        actor.active_detail != Some(request_id),
    ensures
        actor.detail_finished(keys, request_id, key, name, release, answer, message, now) == actor,
{
}

/// A device that controls another one ignores what any but that one broadcasts,
/// and everyone ignores a device that does not call itself active.
pub proof fn broadcasts_without_authority_are_ignored(
    actor: ActorModel,
    keys: NameKeys,
    rows: Seq<LibraryTrackRow>,
    snapshot: DevicePlaybackModel,
    around: SurroundingsModel,
)
    requires
        !snapshot.active || (actor.device_role == DevicePlaybackRole::Control
            && snapshot.device_id != actor.active_device_id),
    ensures
        actor.follow_broadcast(keys, rows, snapshot, around) == actor,
{
}

/// A device that plays, or has anything queued, is not taken over by a
/// broadcast.
pub proof fn a_playing_device_is_not_taken_over(
    actor: ActorModel,
    keys: NameKeys,
    rows: Seq<LibraryTrackRow>,
    snapshot: DevicePlaybackModel,
    around: SurroundingsModel,
)
    requires
        actor.device_role == DevicePlaybackRole::Active,
        actor.state.playback.status != PlaybackStatus::Stopped || actor.state.queue.items.len() > 0,
    ensures
        actor.follow_broadcast(keys, rows, snapshot, around) == actor,
{
}

/// A broadcast made before the controlled device carried out the last command
/// is not followed while an answer can still be expected.
pub proof fn outdated_broadcasts_are_ignored(
    actor: ActorModel,
    keys: NameKeys,
    rows: Seq<LibraryTrackRow>,
    snapshot: DevicePlaybackModel,
    around: SurroundingsModel,
)
    requires
        actor.is_outdated(keys, snapshot, around.now.nanos),
    ensures
        actor.follow_broadcast(keys, rows, snapshot, around) == actor,
{
}

/// Choosing the device that already plays changes nothing, so the stream that
/// plays goes on.
pub proof fn choosing_the_active_device_changes_nothing(actor: ActorModel, now: Moment)
    ensures
        actor.select_device(actor.active_device_id, now) == actor,
{
}

/// A listening session is recorded once: closing it leaves none, and closing
/// none records nothing.
pub proof fn a_listen_is_recorded_once(
    actor: ActorModel,
    first: ListenEndReason,
    second: ListenEndReason,
)
    ensures
        actor.finish_listen(first).listen_session is None,
        actor.finish_listen(first).finish_listen(second) == actor.finish_listen(first),
{
    reveal(ActorModel::finish_listen);
}

/// Starting the track that is listened to already goes on with the same
/// session.
pub proof fn the_same_track_keeps_its_session(
    actor: ActorModel,
    track: TrackModel,
    around: SurroundingsModel,
)
    requires
        actor.device_role == DevicePlaybackRole::Active,
        actor.listen_session matches Some(session) && session.track.key.matches(track.key),
    ensures
        actor.begin_listen(track, around).outbox == actor.outbox,
        actor.begin_listen(track, around).listen_session matches Some(session) && session.id
            == actor.listen_session->0.id && session.started_at_ms
            == actor.listen_session->0.started_at_ms,
{
    reveal(ActorModel::begin_listen);
}

/// What another device plays is not recorded here.
pub proof fn a_controller_opens_no_session(
    actor: ActorModel,
    track: TrackModel,
    around: SurroundingsModel,
)
    requires
        actor.device_role == DevicePlaybackRole::Control,
    ensures
        actor.begin_listen(track, around) == actor,
{
    reveal(ActorModel::begin_listen);
}

/// Seeking stays within the track, and the volume below full volume.
pub proof fn seeking_and_volume_stay_in_range(
    actor: ActorModel,
    position_nanos: u64,
    volume_ppb: u32,
    now: Moment,
)
    ensures
        actor.seek(position_nanos, now).state.playback.position_nanos
            <= actor.state.playback.duration_nanos,
        actor.set_volume(volume_ppb, now).state.playback.volume_ppb <= UNIT,
{
    reveal(ActorModel::publish);
    reveal(ActorModel::control_and_publish);
}

/// At the end of the queue, with nothing to repeat, "next" changes nothing.
pub proof fn next_at_the_end_changes_nothing(actor: ActorModel, around: SurroundingsModel)
    requires
        !actor.state.queue.can_advance(),
        actor.state.playback.repeat != PlaybackRepeat::All,
    ensures
        actor.next(around) == actor,
{
}

/// A track that repeats stays the current one when it ends by itself, and only
/// then.
pub proof fn repeating_one_concerns_only_a_natural_end(actor: ActorModel)
    requires
        actor.state.playback.repeat == PlaybackRepeat::One,
        actor.state.queue.can_advance(),
    ensures
        actor.advance_queue(true) == actor,
        actor.advance_queue(false).state.queue == actor.state.queue.advance(),
{
}

/// Repeating all, the end of the queue is followed by its start.
pub proof fn repeating_all_goes_round(actor: ActorModel, natural_finish: bool)
    requires
        actor.state.playback.repeat == PlaybackRepeat::All,
        actor.state.queue.items.len() > 0,
        !actor.state.queue.can_advance(),
    ensures
        actor.has_next(natural_finish),
        actor.advance_queue(natural_finish).state.queue.current == Some(0usize),
{
}

/// On the device that plays, pausing and playing again come back to playing at
/// the same position.
pub proof fn play_undoes_pause(actor: ActorModel, now: Moment, later: Moment)
    requires
        actor.device_role == DevicePlaybackRole::Active,
        actor.state.playback.status == PlaybackStatus::Playing,
    ensures
        actor.pause(now).state.playback.status == PlaybackStatus::Paused,
        actor.pause(now).resume(later).state.playback == actor.state.playback,
        actor.pause(now).resume(later).state.queue == actor.state.queue,
{
    reveal(ActorModel::publish);
}

/// Shuffling and unshuffling gives the queue its order back, in a queue that
/// remembered no earlier one.
pub proof fn unshuffling_undoes_shuffling(
    actor: ActorModel,
    around: SurroundingsModel,
    later: SurroundingsModel,
)
    requires
        actor.wf(),
        !actor.state.playback.shuffle,
        actor.state.queue.original_order is None,
        actor.state.queue.next_item_id < u64::MAX,
    ensures
        actor.toggle_shuffle(around).toggle_shuffle(later).state.queue.items
            == actor.state.queue.items,
        !actor.toggle_shuffle(around).toggle_shuffle(later).state.playback.shuffle,
{
    reveal(ActorModel::publish);
    reveal(ActorModel::control_and_publish);
    let queue = actor.state.queue;
    assert(queue.shuffle_upcoming(around.seed).wf()) by {
        shuffling_keeps_the_queue_sound(queue, around.seed);
    }
    restoring_undoes_a_shuffle(queue, around.seed, queue.shuffle_upcoming(around.seed));
}

/// Whether an event is about a track that is fetched and is no longer the
/// current one.
pub open spec fn is_stale(actor: ActorModel, event: InternalEvent) -> bool {
    match event {
        InternalEvent::FederatedStreamReady { key } => !actor.is_current(key@),
        InternalEvent::FederatedDownloadFailed { key, .. } => !actor.is_current(key@),
        InternalEvent::FederatedContentResolved { key, result } => result is Err
            && !actor.is_current(key@),
        _ => false,
    }
}

/// What becomes of fetching a track that is no longer the current one changes
/// nothing: the track that plays goes on.
pub proof fn stale_fetches_are_ignored(
    actor: ActorModel,
    keys: NameKeys,
    event: InternalEvent,
    around: SurroundingsModel,
)
    requires
        is_stale(actor, event),
    ensures
        actor.told(keys, event, around) == actor,
{
}

/// Whether an action asks the network for tracks that sound like one.
pub open spec fn asks_for_similar(action: ActionModel) -> bool {
    match action {
        ActionModel::SearchSimilar { ask_network, .. } => ask_network,
        _ => false,
    }
}

/// The network is asked for tracks that sound like one only where looking for
/// such tracks is enabled, the listener consents and the network is joined.
pub proof fn similar_tracks_are_asked_for_with_consent(
    actor: ActorModel,
    key: TrackKeyModel,
    now: Moment,
)
    requires
        !actor.state.settings.similarity.enabled || !actor.state.settings.similarity.federation_consent
            || !actor.federation_ready,
    ensures
        ({
            let asked = actor.start_similarity_search(key, now);
            forall|i: int|
                actor.outbox.len() <= i < asked.outbox.len() ==> !asks_for_similar(
                    #[trigger] asked.outbox[i],
                )
        }),
{
    reveal(ActorModel::publish);
}

/// Whether `after` asks for all that `before` did, and then for what `asked`
/// lists.
pub open spec fn asks_further(
    before: ActorModel,
    after: ActorModel,
    asked: Seq<ActionModel>,
) -> bool {
    &&& after.outbox.len() == before.outbox.len() + asked.len()
    &&& forall|i: int| 0 <= i < before.outbox.len() ==> #[trigger] after.outbox[i]
        == before.outbox[i]
    &&& forall|i: int|
        0 <= i < asked.len() ==> after.outbox[before.outbox.len() + i] == #[trigger] asked[i]
}

/// Whether a step shows its outcome on this device, and to the others.
pub open spec fn shows(after: ActorModel, action: ActionModel, now: Moment) -> bool {
    action == (ActionModel::Publish { snapshot: after.state, playback: after.broadcast(now) })
}

/// Whether a step did nothing but what it asks of the audio on the device that
/// plays, or of the controlled device elsewhere.
pub open spec fn carries_out(
    before: ActorModel,
    after: ActorModel,
    audio: ActionModel,
    seek: bool,
    now: Moment,
) -> bool {
    &&& before.device_role == DevicePlaybackRole::Active ==> {
        &&& asks_further(before, after, seq![audio, after.outbox.last()])
        &&& shows(after, after.outbox.last(), now)
    }
    &&& before.device_role == DevicePlaybackRole::Control ==> asks_further(
        before,
        after,
        seq![
            ActionModel::SendControl {
                target: before.active_device_id,
                state: after.wire_state(now),
                seek,
            },
        ],
    )
    &&& after.state.queue == before.state.queue
    &&& after.device_role == before.device_role
    &&& after.listen_session == before.listen_session
}

pub proof fn lemma_broadcast_hangs_on_playback(a: ActorModel, b: ActorModel, now: Moment)
    requires
        a.state.playback == b.state.playback,
        a.state.queue == b.state.queue,
        a.state.connected_devices == b.state.connected_devices,
        a.device_role == b.device_role,
    ensures
        a.broadcast(now) == b.broadcast(now),
        a.wire_state(now) == b.wire_state(now),
{
    reveal(ActorModel::broadcast);
    reveal(ActorModel::wire_state);
}

pub proof fn lemma_here_or_there(actor: ActorModel, action: ActionModel, seek: bool, now: Moment)
    ensures
        carries_out(actor, actor.here_or_there(action, seek, now), action, seek, now),
        actor.here_or_there(action, seek, now).state.playback == actor.state.playback,
{
    reveal(ActorModel::publish);
    reveal(ActorModel::control_and_publish);
    let r = actor.here_or_there(action, seek, now);
    lemma_broadcast_hangs_on_playback(actor.act(action), r, now);
    lemma_broadcast_hangs_on_playback(actor, r, now);
}

/// Seeking goes to exactly the position asked for, and to the end of the track
/// where that lies beyond it; the audio, or the device that is controlled, is
/// told this position. Nothing else of the playback changes.
pub proof fn seeking_reaches_the_position(
    actor: ActorModel,
    keys: NameKeys,
    position_nanos: u64,
    around: SurroundingsModel,
)
    ensures
        ({
            let r = actor.commanded(keys, BackendCommand::Seek { position_nanos }, around);
            let before = actor.state.playback;
            &&& position_nanos <= before.duration_nanos ==> r.state.playback.position_nanos
                == position_nanos
            &&& position_nanos > before.duration_nanos ==> r.state.playback.position_nanos
                == before.duration_nanos
            &&& r.state.playback == (PlaybackSnapshot {
                position_nanos: r.state.playback.position_nanos,
                ..before
            })
            &&& carries_out(
                actor,
                r,
                ActionModel::AudioSeek { position_nanos: r.state.playback.position_nanos },
                true,
                around.now,
            )
        }),
{
    let reached = if position_nanos < actor.state.playback.duration_nanos {
        position_nanos
    } else {
        actor.state.playback.duration_nanos
    };
    lemma_here_or_there(
        actor.at_position(reached),
        ActionModel::AudioSeek { position_nanos: reached },
        true,
        around.now,
    );
}

/// The volume becomes exactly what is asked for, up to full volume, and the
/// audio is told so.
pub proof fn the_volume_is_the_one_asked_for(
    actor: ActorModel,
    keys: NameKeys,
    volume_ppb: u32,
    around: SurroundingsModel,
)
    ensures
        ({
            let r = actor.commanded(keys, BackendCommand::SetVolume { volume_ppb }, around);
            &&& volume_ppb <= UNIT ==> r.state.playback.volume_ppb == volume_ppb
            &&& volume_ppb > UNIT ==> r.state.playback.volume_ppb == UNIT
            &&& r.state.playback == (PlaybackSnapshot {
                volume_ppb: r.state.playback.volume_ppb,
                ..actor.state.playback
            })
            &&& carries_out(
                actor,
                r,
                ActionModel::AudioVolume { volume_ppb: r.state.playback.volume_ppb },
                false,
                around.now,
            )
        }),
{
    let volume = if volume_ppb < UNIT {
        volume_ppb
    } else {
        UNIT
    };
    lemma_here_or_there(
        actor.with_playback(PlaybackSnapshot { volume_ppb: volume, ..actor.state.playback }),
        ActionModel::AudioVolume { volume_ppb: volume },
        false,
        around.now,
    );
}

/// What plays pauses where it is; pausing what does not play changes nothing.
pub proof fn pausing_changes_the_status_alone(
    actor: ActorModel,
    keys: NameKeys,
    around: SurroundingsModel,
)
    ensures
        ({
            let paused = actor.commanded(keys, BackendCommand::Pause, around);
            &&& actor.state.playback.status == PlaybackStatus::Playing ==> {
                &&& paused.state.playback == (PlaybackSnapshot {
                    status: PlaybackStatus::Paused,
                    ..actor.state.playback
                })
                &&& carries_out(actor, paused, ActionModel::AudioPause, false, around.now)
            }
            &&& actor.state.playback.status != PlaybackStatus::Playing ==> paused == actor
        }),
{
    lemma_here_or_there(
        actor.with_status(PlaybackStatus::Paused),
        ActionModel::AudioPause,
        false,
        around.now,
    );
}

/// What is paused plays on where it is; playing what plays changes nothing.
pub proof fn playing_on_changes_the_status_alone(
    actor: ActorModel,
    keys: NameKeys,
    around: SurroundingsModel,
)
    ensures
        ({
            let played = actor.commanded(keys, BackendCommand::Play, around);
            &&& actor.state.playback.status == PlaybackStatus::Paused ==> {
                &&& played.state.playback == (PlaybackSnapshot {
                    status: PlaybackStatus::Playing,
                    ..actor.state.playback
                })
                &&& carries_out(actor, played, ActionModel::AudioResume, false, around.now)
            }
            &&& actor.state.playback.status == PlaybackStatus::Playing ==> played == actor
        }),
{
    lemma_here_or_there(
        actor.with_status(PlaybackStatus::Playing),
        ActionModel::AudioResume,
        false,
        around.now,
    );
}

/// Toggling pauses what plays, and plays what does not.
pub proof fn toggling_pauses_or_plays(
    actor: ActorModel,
    keys: NameKeys,
    around: SurroundingsModel,
)
    ensures
        actor.commanded(keys, BackendCommand::TogglePlayback, around) == if actor.state.playback.status
            == PlaybackStatus::Playing {
            actor.commanded(keys, BackendCommand::Pause, around)
        } else {
            actor.commanded(keys, BackendCommand::Play, around)
        },
{
}

/// A listen that ends is recorded under the identifier and the time it began
/// with: in full where the track played to its end, and up to the position it
/// reached otherwise.
pub proof fn a_listen_counts_what_was_heard(actor: ActorModel, reason: ListenEndReason)
    ensures
        ({
            let r = actor.finish_listen(reason);
            &&& r.state == actor.state
            &&& actor.listen_session matches Some(session) ==> r.outbox.len() == actor.outbox.len()
                + 1 && (r.outbox.last() matches ActionModel::RecordListen {
                id,
                track,
                started_at_ms,
                listened_ms,
                reason: told,
            } && {
                &&& id == session.id
                &&& track == session.track
                &&& started_at_ms == session.started_at_ms
                &&& told == reason
                &&& reason == ListenEndReason::Finished ==> listened_ms
                    == session.track.duration_nanos / 1_000_000
                &&& reason != ListenEndReason::Finished ==> listened_ms
                    == actor.state.playback.position_nanos / 1_000_000
            })
            &&& actor.listen_session is None ==> r.outbox == actor.outbox
            &&& forall|i: int| 0 <= i < actor.outbox.len() ==> #[trigger] r.outbox[i]
                == actor.outbox[i]
        }),
{
    reveal(ActorModel::finish_listen);
}

/// On the device that plays, a track with a content identifier opens a session
/// under the new identifier, from now on; the session of another track ends as
/// replaced. A track without one opens none.
pub proof fn a_new_track_opens_a_session(
    actor: ActorModel,
    track: TrackModel,
    around: SurroundingsModel,
)
    requires
        actor.device_role == DevicePlaybackRole::Active,
        actor.listen_session matches Some(session) ==> !session.track.key.matches(track.key),
    ensures
        ({
            let r = actor.begin_listen(track, around);
            &&& track.key.content_id is Some ==> (r.listen_session matches Some(session) && {
                &&& session.id == around.listen_id
                &&& session.track == track
                &&& session.started_at_ms == around.now.unix_ms
            })
            &&& track.key.content_id is None ==> r.listen_session is None
            &&& r.outbox == actor.finish_listen(ListenEndReason::Replaced).outbox
            &&& r.state == actor.state
        }),
{
    reveal(ActorModel::begin_listen);
    reveal(ActorModel::finish_listen);
}

/// Whether an action only tidies up what played before.
pub open spec fn tidies_up(action: ActionModel) -> bool {
    action is RemoveFile || action is RecordListen
}

/// Whether a step touched nothing but what is shown, what is asked for and what
/// is listened to.
pub open spec fn keeps_what_is_connected(before: ActorModel, after: ActorModel) -> bool {
    after == (ActorModel {
        state: after.state,
        outbox: after.outbox,
        listen_session: after.listen_session,
        ephemeral_audio: after.ephemeral_audio,
        ..before
    })
}

/// Whether `after` has started a track from its beginning, given `before`, and
/// left the queue alone: a local file plays here; one that a peer holds is
/// streamed, or looked up where nobody is known to hold it; on a device that
/// controls another one, that one is told.
pub open spec fn has_started(
    before: ActorModel,
    after: ActorModel,
    track: TrackModel,
    now: Moment,
) -> bool {
    let n = after.outbox.len() as int;
    let m = before.outbox.len() as int;
    let playback = after.state.playback;
    &&& after.state.queue == before.state.queue
    &&& keeps_what_is_connected(before, after)
    &&& playback.position_nanos == 0
    &&& playback.duration_nanos == track.duration_nanos
    &&& playback.volume_ppb == before.state.playback.volume_ppb
    &&& playback.shuffle == before.state.playback.shuffle
    &&& playback.repeat == before.state.playback.repeat
    &&& forall|i: int| 0 <= i < m ==> #[trigger] after.outbox[i] == before.outbox[i]
    &&& after.ephemeral_audio is None
    &&& before.device_role == DevicePlaybackRole::Control ==> {
        &&& n > m
        &&& playback.status == PlaybackStatus::Playing
        &&& after.state.playback_error is None
        &&& after.outbox[n - 1] == (ActionModel::SendControl {
            target: before.active_device_id,
            state: after.wire_state(now),
            seek: true,
        })
        &&& forall|i: int| m <= i < n - 1 ==> tidies_up(#[trigger] after.outbox[i])
    }
    &&& before.device_role == DevicePlaybackRole::Active ==> {
        &&& n > m
        &&& shows(after, after.outbox[n - 1], now)
        &&& match track.audio_source {
            AudioSourceModel::LocalFile(path) => {
                &&& n > m + 1
                &&& playback.status == PlaybackStatus::Playing
                &&& after.state.playback_error is None
                &&& after.outbox[n - 2] == (ActionModel::AudioPlay {
                    path,
                    volume_ppb: playback.volume_ppb,
                })
                &&& forall|i: int| m <= i < n - 2 ==> tidies_up(#[trigger] after.outbox[i])
            },
            AudioSourceModel::Federation { peer_id, content_id } => {
                &&& playback.status == PlaybackStatus::Stopped
                &&& !before.federation_ready ==> {
                    &&& after.state.playback_error is Some
                    &&& forall|i: int| m <= i < n - 1 ==> tidies_up(#[trigger] after.outbox[i])
                }
                &&& before.federation_ready ==> {
                    &&& n > m + 2
                    &&& after.state.playback_error is None
                    &&& after.outbox[n - 3] is AudioStop
                    &&& forall|i: int| m <= i < n - 3 ==> tidies_up(#[trigger] after.outbox[i])
                    &&& match track.key.federation_identity {
                        Some((_, item)) => after.outbox[n - 2] matches ActionModel::StreamTrack {
                            key,
                            peer_id: peer,
                            item_id,
                            keep,
                            ..
                        } && key == track.key && peer == peer_id && item_id == item && keep
                            == before.state.settings.save_federated_on_listen,
                        None => after.outbox[n - 2] == (ActionModel::LookupContent {
                            key: track.key,
                            content_id,
                        }),
                    }
                }
            },
        }
    }
}

proof fn lemma_listening(actor: ActorModel, track: TrackModel, around: SurroundingsModel)
    ensures
        ({
            let r = actor.remove_ephemeral_audio().begin_listen(track, around);
            let m = actor.outbox.len() as int;
            &&& r.state == actor.state
            &&& keeps_what_is_connected(actor, r)
            &&& r.ephemeral_audio is None
            &&& r.outbox.len() >= m
            &&& forall|i: int| 0 <= i < m ==> #[trigger] r.outbox[i] == actor.outbox[i]
            &&& forall|i: int| m <= i < r.outbox.len() ==> tidies_up(#[trigger] r.outbox[i])
        }),
{
    reveal(ActorModel::remove_ephemeral_audio);
    reveal(ActorModel::begin_listen);
    reveal(ActorModel::finish_listen);
}

pub proof fn lemma_published(actor: ActorModel, now: Moment)
    ensures
        ({
            let r = actor.publish(now);
            &&& r.outbox == actor.outbox.push(r.outbox.last())
            &&& shows(r, r.outbox.last(), now)
            &&& r.state == (BackendModel { revision: r.state.revision, ..actor.state })
            &&& r == (ActorModel { state: r.state, outbox: r.outbox, ..actor })
        }),
{
    reveal(ActorModel::publish);
    lemma_broadcast_hangs_on_playback(actor, actor.publish(now), now);
}

pub proof fn lemma_controlled(actor: ActorModel, seek: bool, now: Moment)
    ensures
        ({
            let r = actor.control_and_publish(seek, now);
            &&& r.outbox == actor.outbox.push(r.outbox.last())
            &&& r.state == (BackendModel { revision: r.state.revision, ..actor.state })
            &&& r == (ActorModel { state: r.state, outbox: r.outbox, ..actor })
            &&& actor.device_role == DevicePlaybackRole::Control ==> r.outbox.last() == (
            ActionModel::SendControl {
                target: actor.active_device_id,
                state: r.wire_state(now),
                seek,
            })
            &&& actor.device_role == DevicePlaybackRole::Active ==> shows(r, r.outbox.last(), now)
        }),
{
    reveal(ActorModel::control_and_publish);
    lemma_published(actor, now);
    lemma_broadcast_hangs_on_playback(actor, actor.control_and_publish(seek, now), now);
}

proof fn lemma_streaming(
    actor: ActorModel,
    track: TrackModel,
    peer_id: Seq<char>,
    content_id: Seq<char>,
    now: Moment,
)
    requires
        actor.state.playback_error is None,
    ensures
        ({
            let r = actor.start_federated_playback(track, peer_id, content_id, now);
            let m = actor.outbox.len() as int;
            let n = r.outbox.len() as int;
            &&& r.state.queue == actor.state.queue
            &&& keeps_what_is_connected(actor, r)
            &&& r.ephemeral_audio == actor.ephemeral_audio
            &&& n > m
            &&& shows(r, r.outbox[n - 1], now)
            &&& r.state.playback == (PlaybackSnapshot {
                status: PlaybackStatus::Stopped,
                ..actor.state.playback
            })
            &&& forall|i: int| 0 <= i < m ==> #[trigger] r.outbox[i] == actor.outbox[i]
            &&& !actor.federation_ready ==> {
                &&& r.state.playback_error is Some
                &&& forall|i: int| m <= i < n - 1 ==> tidies_up(#[trigger] r.outbox[i])
            }
            &&& actor.federation_ready ==> {
                &&& n == m + 3
                &&& r.state.playback_error is None
                &&& r.outbox[m] is AudioStop
                &&& match track.key.federation_identity {
                    Some((_, item)) => r.outbox[m + 1] matches ActionModel::StreamTrack {
                        key,
                        peer_id: peer,
                        item_id,
                        keep,
                        ..
                    } && key == track.key && peer == peer_id && item_id == item && keep
                        == actor.state.settings.save_federated_on_listen,
                    None => r.outbox[m + 1] == (ActionModel::LookupContent {
                        key: track.key,
                        content_id,
                    }),
                }
            }
        }),
{
    reveal(ActorModel::start_federated_playback);
    if !actor.federation_ready {
        reveal(ActorModel::stopped_with);
        reveal(ActorModel::finish_listen);
        let stopped = actor.finish_listen(ListenEndReason::Stopped).with_status(
            PlaybackStatus::Stopped,
        ).with_playback_error(Some("federation is still starting"@));
        lemma_published(stopped, now);
    } else {
        let silent = actor.act(ActionModel::AudioStop).with_status(PlaybackStatus::Stopped);
        let asked = match track.key.federation_identity {
            Some((_, item_id)) => silent.act(
                ActionModel::StreamTrack {
                    key: track.key,
                    peer_id,
                    item_id,
                    keep: actor.state.settings.save_federated_on_listen,
                    stem: "fed-"@ + file_name(track.title),
                },
            ),
            None => silent.act(ActionModel::LookupContent { key: track.key, content_id }),
        };
        lemma_published(asked, now);
    }
}

proof fn lemma_started(actor: ActorModel, track: TrackModel, around: SurroundingsModel)
    requires
        actor.state.queue.current_item() matches Some(item) && item.track == track,
    ensures
        has_started(actor, actor.play_current(around), track, around.now),
{
    reveal(ActorModel::play_current);
    let now = around.now;
    let cleared = actor.remove_ephemeral_audio();
    assert(cleared.state == actor.state) by {
        reveal(ActorModel::remove_ephemeral_audio);
    }
    lemma_listening(actor, track, around);
    let listening = cleared.begin_listen(track, around);
    let ready = listening.with_playback(
        PlaybackSnapshot {
            position_nanos: 0,
            duration_nanos: track.duration_nanos,
            ..listening.state.playback
        },
    ).with_playback_error(None);
    let playing = ready.with_status(PlaybackStatus::Playing);
    if actor.device_role == DevicePlaybackRole::Control {
        lemma_controlled(playing, true, now);
    } else {
        match track.audio_source {
            AudioSourceModel::LocalFile(path) => {
                lemma_published(
                    playing.act(
                        ActionModel::AudioPlay {
                            path,
                            volume_ppb: ready.state.playback.volume_ppb,
                        },
                    ),
                    now,
                );
            },
            AudioSourceModel::Federation { peer_id, content_id } => {
                lemma_streaming(ready, track, peer_id, content_id, now);
            },
        }
    }
}

proof fn lemma_nothing_started(actor: ActorModel, around: SurroundingsModel)
    requires
        actor.state.queue.current is None,
    ensures
        ({
            let r = actor.play_current(around);
            &&& r.state.playback == (PlaybackSnapshot {
                status: PlaybackStatus::Stopped,
                ..actor.state.playback
            })
            &&& r.listen_session is None
            &&& r.state.queue == actor.state.queue
            &&& keeps_what_is_connected(actor, r)
            &&& actor.outbox.len() < r.outbox.len()
            &&& forall|i: int|
                0 <= i < actor.outbox.len() ==> #[trigger] r.outbox[i] == actor.outbox[i]
        }),
{
    reveal(ActorModel::play_current);
    reveal(ActorModel::finish_listen);
    reveal(ActorModel::remove_ephemeral_audio);
    lemma_published(
        actor.remove_ephemeral_audio().finish_listen(ListenEndReason::Stopped).with_status(
            PlaybackStatus::Stopped,
        ),
        around.now,
    );
}

/// Starting plays the current track, from its beginning; with no current track
/// there is silence.
pub proof fn starting_plays_the_current_track(actor: ActorModel, around: SurroundingsModel)
    requires
        actor.wf(),
    ensures
        actor.state.queue.current matches Some(c) ==> has_started(
            actor,
            actor.play_current(around),
            actor.state.queue.items[c as int].track,
            around.now,
        ),
        actor.state.queue.current is None ==> actor.play_current(around).state.playback
            == (PlaybackSnapshot { status: PlaybackStatus::Stopped, ..actor.state.playback })
            && actor.play_current(around).listen_session is None
            && actor.play_current(around).state.queue == actor.state.queue,
        keeps_what_is_connected(actor, actor.play_current(around)),
        actor.outbox.len() < actor.play_current(around).outbox.len(),
        forall|i: int|
            0 <= i < actor.outbox.len() ==> #[trigger] actor.play_current(around).outbox[i]
                == actor.outbox[i],
{
    match actor.state.queue.current {
        Some(c) => {
            lemma_started(actor, actor.state.queue.items[c as int].track, around);
        },
        None => {
            lemma_nothing_started(actor, around);
        },
    }
}

} // verus!

//! What the transport commands do, whatever plays and wherever.
use crate::actor::{ActionModel, ActorModel, ListenEndReason, SurroundingsModel};
use crate::actor_laws::{
    carries_out, has_started, lemma_controlled, lemma_here_or_there, lemma_published, shows,
    starting_plays_the_current_track, tidies_up,
};
use crate::actor_playback::{artwork_groups, known_covers, with_covers, ArtworkGroupModel};
use crate::api::{
    BackendCommand, DevicePlaybackRole, LibraryModel, PlaybackRepeat, PlaybackSnapshot,
    PlaybackStatus, SearchResultsModel,
};
use crate::catalog::{TrackKey, TrackKeyModel, TrackModel};
use crate::find::{first_where, lemma_first_where, lemma_first_where_is};
use crate::lookup::{catalog_tracks, has_key};
use crate::merge::NameKeys;
use crate::queue::{
    a_new_context_replaces_the_queue, an_identifier_selects_its_item, an_unknown_item_is_not_selected, item_tracks, QueueItemId,
    QueueItemModel, QueueModel,
};
use crate::views::views;
use vstd::prelude::*;

verus! {

broadcast use crate::views::group_views;

/// Whether `after` plays the item at a place of the queue of `before`, from its
/// beginning, and the queue is otherwise what it was.
pub open spec fn plays_place(
    before: ActorModel,
    after: ActorModel,
    place: int,
    around: SurroundingsModel,
) -> bool {
    &&& after.state.queue.items == before.state.queue.items
    &&& after.state.queue.current == Some(place as usize)
    &&& has_started(
        before.with_queue(after.state.queue),
        after,
        before.state.queue.items[place].track,
        around.now,
    )
}

/// "Next" plays the item behind the current one; behind the last one it goes
/// round to the first where all is repeated, and does nothing otherwise.
pub proof fn next_plays_the_following_item(
    actor: ActorModel,
    keys: NameKeys,
    around: SurroundingsModel,
)
    requires
        actor.wf(),
    ensures
        ({
            let r = actor.commanded(keys, BackendCommand::Next, around);
            let n = actor.state.queue.items.len();
            let behind = match actor.state.queue.current {
                Some(c) => c + 1,
                None => 0,
            };
            &&& behind < n ==> plays_place(actor, r, behind, around)
            &&& behind >= n > 0 && actor.state.playback.repeat == PlaybackRepeat::All
                ==> plays_place(actor, r, 0, around)
            &&& behind >= n && (n == 0 || actor.state.playback.repeat != PlaybackRepeat::All) ==> r
                == actor
        }),
{
    starting_plays_the_current_track(actor.advance_queue(false), around);
}

/// "Previous" goes back to the start of a track that has played for more than
/// five seconds; before that it plays the item before the current one, and the
/// first one again.
pub proof fn previous_goes_back(actor: ActorModel, keys: NameKeys, around: SurroundingsModel)
    requires
        actor.wf(),
    ensures
        ({
            let r = actor.commanded(keys, BackendCommand::Previous, around);
            if actor.state.playback.position_nanos > 5_000_000_000 {
                &&& r.state.playback == (PlaybackSnapshot {
                    position_nanos: 0,
                    ..actor.state.playback
                })
                &&& carries_out(
                    actor,
                    r,
                    ActionModel::AudioSeek { position_nanos: 0 },
                    true,
                    around.now,
                )
            } else {
                match actor.state.queue.current {
                    None => r == actor,
                    Some(c) => plays_place(
                        actor,
                        r,
                        if c == 0 {
                            0
                        } else {
                            c - 1
                        },
                        around,
                    ),
                }
            }
        }),
{
    if actor.state.playback.position_nanos > 5_000_000_000 {
        lemma_here_or_there(
            actor.at_position(0),
            ActionModel::AudioSeek { position_nanos: 0 },
            true,
            around.now,
        );
    } else {
        starting_plays_the_current_track(actor.with_queue(actor.state.queue.previous()), around);
    }
}

/// An item that is chosen from the queue plays; choosing one that is not there
/// starts nothing.
pub proof fn a_chosen_item_plays(
    actor: ActorModel,
    keys: NameKeys,
    item_id: QueueItemId,
    around: SurroundingsModel,
)
    requires
        actor.wf(),
        actor.state.queue.next_item_id < u64::MAX,
    ensures
        ({
            let r = actor.commanded(keys, BackendCommand::PlayQueueItem { item_id }, around);
            &&& forall|i: int|
                0 <= i < actor.state.queue.items.len() && (
                #[trigger] actor.state.queue.items[i]).id == item_id ==> plays_place(
                    actor,
                    r,
                    i,
                    around,
                )
            &&& (forall|i: int|
                0 <= i < actor.state.queue.items.len() ==> (
                #[trigger] actor.state.queue.items[i]).id != item_id) ==> {
                &&& r.outbox == actor.outbox
                &&& r.state.playback == actor.state.playback
                &&& r.state.queue.items == actor.state.queue.items
                &&& r.state.queue.current is None
            }
        }),
{
    let queue = actor.state.queue;
    let r = actor.commanded(keys, BackendCommand::PlayQueueItem { item_id }, around);
    if forall|i: int| 0 <= i < queue.items.len() ==> (#[trigger] queue.items[i]).id != item_id {
        an_unknown_item_is_not_selected(queue, item_id);
    }
    assert forall|i: int|
        0 <= i < queue.items.len() && (#[trigger] queue.items[i]).id
            == item_id implies plays_place(actor, r, i, around) by {
        an_identifier_selects_its_item(queue, i as usize);
        starting_plays_the_current_track(
            actor.with_queue(queue.select_item(item_id)),
            around,
        );
    }
}

/// Stopping leaves silence at the start of the track; the listen ends, and a
/// file that was only streamed goes away. The queue stays.
pub proof fn stopping_leaves_silence(
    actor: ActorModel,
    keys: NameKeys,
    around: SurroundingsModel,
)
    ensures
        ({
            let r = actor.commanded(keys, BackendCommand::Stop, around);
            let m = actor.outbox.len() as int;
            let n = r.outbox.len() as int;
            &&& r.state.playback == (PlaybackSnapshot {
                status: PlaybackStatus::Stopped,
                position_nanos: 0,
                ..actor.state.playback
            })
            &&& r.state.queue == actor.state.queue
            &&& r.listen_session is None
            &&& r.ephemeral_audio is None
            &&& n > m
            &&& forall|i: int| 0 <= i < m ==> #[trigger] r.outbox[i] == actor.outbox[i]
            &&& actor.listen_session is Some ==> (r.outbox[m] matches ActionModel::RecordListen {
                reason,
                listened_ms,
                ..
            } && reason == ListenEndReason::Stopped && listened_ms
                == actor.state.playback.position_nanos / 1_000_000)
            &&& actor.ephemeral_audio matches Some((_, path)) ==> r.outbox[n - 2] == (
            ActionModel::RemoveFile { path })
            &&& actor.device_role == DevicePlaybackRole::Active ==> {
                &&& shows(r, r.outbox[n - 1], around.now)
                &&& exists|i: int| m <= i < n && #[trigger] r.outbox[i] is AudioStop
                &&& forall|i: int|
                    m <= i < n - 1 ==> tidies_up(#[trigger] r.outbox[i]) || r.outbox[i] is AudioStop
            }
            &&& actor.device_role == DevicePlaybackRole::Control ==> {
                &&& r.outbox[n - 1] == (ActionModel::SendControl {
                    target: actor.active_device_id,
                    state: r.wire_state(around.now),
                    seek: true,
                })
                &&& forall|i: int| m <= i < n - 1 ==> tidies_up(#[trigger] r.outbox[i])
            }
        }),
{
    reveal(ActorModel::stop);
    lemma_silenced(actor);
    let done = silenced(actor).with_status(PlaybackStatus::Stopped).at_position(0);
    let r = actor.commanded(keys, BackendCommand::Stop, around);
    assert(r == done.control_and_publish(true, around.now));
    lemma_controlled(done, true, around.now);
    let m = actor.outbox.len() as int;
    let n = r.outbox.len() as int;
    assert forall|i: int| 0 <= i < n - 1 implies #[trigger] r.outbox[i] == done.outbox[i] by {}
    if actor.device_role == DevicePlaybackRole::Active {
        let i = choose|i: int|
            m <= i < done.outbox.len() && #[trigger] done.outbox[i] is AudioStop;
        assert(r.outbox[i] is AudioStop);
    }
}

/// The actor with its listen ended, the audio stopped where it plays, and no
/// streamed file left.
spec fn silenced(actor: ActorModel) -> ActorModel {
    let ended = actor.finish_listen(ListenEndReason::Stopped);
    (if ended.device_role == DevicePlaybackRole::Active {
        ended.act(ActionModel::AudioStop)
    } else {
        ended
    }).remove_ephemeral_audio()
}

proof fn lemma_silenced(actor: ActorModel)
    ensures
        ({
            let r = silenced(actor);
            let m = actor.outbox.len() as int;
            let n = r.outbox.len() as int;
            &&& r == (ActorModel {
                outbox: r.outbox,
                listen_session: None,
                ephemeral_audio: None,
                ..actor
            })
            &&& n >= m
            &&& forall|i: int| 0 <= i < m ==> #[trigger] r.outbox[i] == actor.outbox[i]
            &&& actor.listen_session is Some ==> n > m && (
            r.outbox[m] matches ActionModel::RecordListen { reason, listened_ms, .. } && reason
                == ListenEndReason::Stopped && listened_ms == actor.state.playback.position_nanos
                / 1_000_000)
            &&& actor.ephemeral_audio matches Some((_, path)) ==> n > m && r.outbox[n - 1] == (
            ActionModel::RemoveFile { path })
            &&& actor.device_role == DevicePlaybackRole::Active ==> exists|i: int|
                m <= i < n && #[trigger] r.outbox[i] is AudioStop
            &&& forall|i: int|
                m <= i < n ==> tidies_up(#[trigger] r.outbox[i]) || (actor.device_role
                    == DevicePlaybackRole::Active && r.outbox[i] is AudioStop)
        }),
{
    reveal(ActorModel::finish_listen);
    reveal(ActorModel::remove_ephemeral_audio);
    let ended = actor.finish_listen(ListenEndReason::Stopped);
    if actor.device_role == DevicePlaybackRole::Active {
        assert(silenced(actor).outbox[ended.outbox.len() as int] is AudioStop);
    }
}

/// Repeating goes from nothing to all, from all to the one track, and from
/// there to nothing; shuffling is switched, and nothing stops.
pub proof fn modes_are_switched(actor: ActorModel, keys: NameKeys, around: SurroundingsModel)
    ensures
        ({
            let r = actor.commanded(keys, BackendCommand::CycleRepeat, around);
            let s = actor.commanded(keys, BackendCommand::ToggleShuffle, around);
            let n = actor.outbox.len() as int;
            &&& r.state.playback == (PlaybackSnapshot {
                repeat: match actor.state.playback.repeat {
                    PlaybackRepeat::Off => PlaybackRepeat::All,
                    PlaybackRepeat::All => PlaybackRepeat::One,
                    PlaybackRepeat::One => PlaybackRepeat::Off,
                },
                ..actor.state.playback
            })
            &&& r.state.queue == actor.state.queue
            &&& s.state.playback == (PlaybackSnapshot {
                shuffle: !actor.state.playback.shuffle,
                ..actor.state.playback
            })
            &&& s.state.queue == if actor.state.playback.shuffle {
                actor.state.queue.restore_upcoming_order()
            } else {
                actor.state.queue.shuffle_upcoming(around.seed)
            }
            &&& r.outbox == actor.outbox.push(r.outbox.last())
            &&& s.outbox == actor.outbox.push(s.outbox.last())
            &&& actor.device_role == DevicePlaybackRole::Active ==> shows(
                r,
                r.outbox[n],
                around.now,
            ) && shows(s, s.outbox[n], around.now)
            &&& actor.device_role == DevicePlaybackRole::Control ==> r.outbox[n] == (
            ActionModel::SendControl {
                target: actor.active_device_id,
                state: r.wire_state(around.now),
                seek: false,
            }) && s.outbox[n] == (ActionModel::SendControl {
                target: actor.active_device_id,
                state: s.wire_state(around.now),
                seek: false,
            })
        }),
{
    lemma_controlled(
        actor.with_playback(
            PlaybackSnapshot {
                repeat: actor.state.playback.repeat.successor(),
                ..actor.state.playback
            },
        ),
        false,
        around.now,
    );
    let shuffle = !actor.state.playback.shuffle;
    lemma_controlled(
        actor.with_playback(PlaybackSnapshot { shuffle, ..actor.state.playback }).with_queue(
            if shuffle {
                actor.state.queue.shuffle_upcoming(around.seed)
            } else {
                actor.state.queue.restore_upcoming_order()
            },
        ),
        false,
        around.now,
    );
}

/// Whether two tracks are the same but for their artwork.
pub open spec fn differ_in_cover_alone(a: TrackModel, b: TrackModel) -> bool {
    a == (TrackModel { cover_uri: a.cover_uri, ..b })
}

/// Whether no two of the tracks go by one key.
pub open spec fn told_apart(tracks: Seq<TrackModel>) -> bool {
    forall|i: int, j: int|
        0 <= i < tracks.len() && 0 <= j < tracks.len() && i != j
            ==> !(#[trigger] tracks[i]).key.matches((#[trigger] tracks[j]).key)
}

/// Whether a queue is another one with artwork added: the same items in the same
/// order, and, as far as the tracks can be told apart, the same tracks.
pub open spec fn is_covered(before: QueueModel, after: QueueModel) -> bool {
    &&& after == (QueueModel { items: after.items, ..before })
    &&& after.items.len() == before.items.len()
    &&& forall|i: int|
        0 <= i < before.items.len() ==> (#[trigger] after.items[i]).id == before.items[i].id
    &&& told_apart(item_tracks(before.items)) ==> forall|i: int|
        0 <= i < before.items.len() ==> differ_in_cover_alone(
            (#[trigger] after.items[i]).track,
            before.items[i].track,
        )
}

proof fn lemma_known_covers(
    keys: NameKeys,
    library: LibraryModel,
    search: SearchResultsModel,
    queue: Seq<QueueItemModel>,
    tracks: Seq<TrackModel>,
)
    ensures
        forall|c: int|
            0 <= c < known_covers(keys, library, search, queue, tracks).len() ==> exists|m: int|
                0 <= m < tracks.len() && (#[trigger] known_covers(
                    keys,
                    library,
                    search,
                    queue,
                    tracks,
                )[c]).0 == (#[trigger] tracks[m]).key,
    decreases tracks.len(),
{
    if tracks.len() > 0 {
        let front = tracks.drop_last();
        lemma_known_covers(keys, library, search, queue, front);
        let so_far = known_covers(keys, library, search, queue, front);
        let all = known_covers(keys, library, search, queue, tracks);
        assert forall|c: int| 0 <= c < all.len() implies exists|m: int|
            0 <= m < tracks.len() && (#[trigger] all[c]).0 == (#[trigger] tracks[m]).key by {
            if c < so_far.len() {
                assert(all[c] == so_far[c]);
                let m = choose|m: int| 0 <= m < front.len() && so_far[c].0 == (#[trigger] front[m]).key;
                assert(tracks[m] == front[m]);
            } else {
                assert(all[c].0 == tracks[tracks.len() - 1].key);
            }
        }
    }
}

proof fn lemma_with_covers(queue: QueueModel, covers: Seq<(TrackKeyModel, Seq<char>)>)
    requires
        forall|c: int|
            0 <= c < covers.len() ==> exists|m: int|
                0 <= m < queue.items.len() && (#[trigger] covers[c]).0 == (
                #[trigger] queue.items[m]).track.key,
    ensures
        is_covered(queue, with_covers(queue, covers)),
    decreases covers.len(),
{
    if covers.len() > 0 {
        let front = covers.drop_last();
        assert forall|c: int| 0 <= c < front.len() implies exists|m: int|
            0 <= m < queue.items.len() && (#[trigger] front[c]).0 == (
            #[trigger] queue.items[m]).track.key by {
            assert(covers[c] == front[c]);
        }
        lemma_with_covers(queue, front);
        let before = with_covers(queue, front);
        let after = with_covers(queue, covers);
        let (key, cover) = covers[covers.len() - 1];
        let m = choose|m: int|
            0 <= m < queue.items.len() && key == (#[trigger] queue.items[m]).track.key;
        let tracks = item_tracks(queue.items);
        let now = item_tracks(before.items);
        lemma_first_where_is(now, has_key(key));
        let f = first_where(now, has_key(key));
        if told_apart(tracks) {
            assert forall|i: int| 0 <= i < queue.items.len() implies differ_in_cover_alone(
                (#[trigger] after.items[i]).track,
                queue.items[i].track,
            ) by {
                assert(differ_in_cover_alone(before.items[i].track, queue.items[i].track));
                assert(tracks[i] == queue.items[i].track);
                assert(tracks[m] == queue.items[m].track);
                if f < now.len() {
                    assert(has_key(key)(now[f]));
                    assert(differ_in_cover_alone(before.items[f].track, queue.items[f].track));
                    assert(tracks[f] == queue.items[f].track);
                    assert(f == m);
                    if before.items[i].track.key.matches(key) {
                        assert(i == m);
                    }
                }
            }
        }
    }
}

proof fn lemma_asked_for_artwork(actor: ActorModel, groups: Seq<ArtworkGroupModel>)
    ensures
        ({
            let r = actor.request_artwork(groups);
            &&& r == (ActorModel {
                outbox: r.outbox,
                pending_queue_artwork: r.pending_queue_artwork,
                ..actor
            })
            &&& r.outbox.len() >= actor.outbox.len()
            &&& forall|i: int|
                0 <= i < actor.outbox.len() ==> #[trigger] r.outbox[i] == actor.outbox[i]
            &&& forall|i: int|
                actor.outbox.len() <= i < r.outbox.len() ==> #[trigger] r.outbox[i] is ResolveArtwork
        }),
    decreases groups.len(),
{
    if groups.len() > 0 {
        lemma_asked_for_artwork(actor, groups.drop_last());
    }
}

/// Looking for artwork changes nothing of what is queued but the artwork, and
/// asks for nothing else.
pub proof fn artwork_alone_is_resolved(actor: ActorModel, keys: NameKeys)
    ensures
        ({
            let r = actor.resolve_queue_artwork(keys);
            &&& is_covered(actor.state.queue, r.state.queue)
            &&& r == (ActorModel {
                outbox: r.outbox,
                pending_queue_artwork: r.pending_queue_artwork,
                ..actor.with_queue(r.state.queue)
            })
            &&& r.outbox.len() >= actor.outbox.len()
            &&& forall|i: int|
                0 <= i < actor.outbox.len() ==> #[trigger] r.outbox[i] == actor.outbox[i]
            &&& forall|i: int|
                actor.outbox.len() <= i < r.outbox.len() ==> #[trigger] r.outbox[i] is ResolveArtwork
        }),
{
    reveal(ActorModel::resolve_queue_artwork);
    let queue = actor.state.queue;
    let tracks = item_tracks(queue.items);
    let covers = known_covers(
        keys,
        actor.library,
        actor.state.search.results,
        queue.items,
        tracks,
    );
    lemma_known_covers(keys, actor.library, actor.state.search.results, queue.items, tracks);
    assert forall|c: int| 0 <= c < covers.len() implies exists|m: int|
        0 <= m < queue.items.len() && (#[trigger] covers[c]).0 == (
        #[trigger] queue.items[m]).track.key by {
        let m = choose|m: int| 0 <= m < tracks.len() && covers[c].0 == (#[trigger] tracks[m]).key;
        assert(tracks[m] == queue.items[m].track);
    }
    lemma_with_covers(queue, covers);
    let covered = actor.covered(keys);
    lemma_asked_for_artwork(
        covered,
        artwork_groups(keys, item_tracks(covered.state.queue.items)),
    );
}

/// Whether `after` plays a new context from the track at `start`, given
/// `before`.
pub open spec fn plays_context(
    before: ActorModel,
    after: ActorModel,
    tracks: Seq<TrackModel>,
    start: int,
    around: SurroundingsModel,
) -> bool {
    let items = after.state.queue.items;
    &&& items.len() == tracks.len()
    &&& after.state.queue.current == Some(start as usize)
    &&& told_apart(tracks) ==> forall|i: int|
        0 <= i < tracks.len() ==> differ_in_cover_alone((#[trigger] items[i]).track, tracks[i])
    &&& after.state.playback.position_nanos == 0
    &&& after.state.playback.duration_nanos == items[start].track.duration_nanos
    &&& after.state.playback.volume_ppb == before.state.playback.volume_ppb
    &&& after.state.playback.shuffle == before.state.playback.shuffle
    &&& after.state.playback.repeat == before.state.playback.repeat
    &&& exists|ready: ActorModel| #[trigger]
        has_started(ready, after, items[start].track, around.now) && ready.outbox.len()
            >= before.outbox.len() && (forall|i: int|
            before.outbox.len() <= i < ready.outbox.len()
                ==> #[trigger] ready.outbox[i] is ResolveArtwork) && ready.device_role
            == before.device_role && ready.federation_ready == before.federation_ready
            && ready.state.settings == before.state.settings
}

/// A context that is played in order takes the place of the queue and starts at
/// the chosen track, at the last one where there are fewer.
pub proof fn a_context_plays_from_its_start(
    actor: ActorModel,
    keys: NameKeys,
    tracks: Seq<TrackModel>,
    start: usize,
    around: SurroundingsModel,
)
    requires
        actor.wf(),
        !actor.state.playback.shuffle,
        0 < tracks.len() <= usize::MAX,
    ensures
        plays_context(
            actor,
            actor.play_tracks(keys, tracks, start, around),
            tracks,
            if start < tracks.len() {
                start as int
            } else {
                tracks.len() - 1
            },
            around,
        ),
{
    reveal(ActorModel::play_tracks);
    let replaced = actor.with_queue(actor.state.queue.replace_context(tracks, start));
    let ready = replaced.resolve_queue_artwork(keys);
    artwork_alone_is_resolved(replaced, keys);
    a_new_context_replaces_the_queue(actor.state.queue, tracks, start);
    assert(item_tracks(replaced.state.queue.items) =~= tracks);
    lemma_covered_is_sound(replaced.state.queue, ready.state.queue);
    starting_plays_the_current_track(ready, around);
    let r = ready.play_current(around);
    let place = if start < tracks.len() {
        start as int
    } else {
        tracks.len() - 1
    };
    assert(has_started(ready, r, r.state.queue.items[place].track, around.now));
}

proof fn lemma_covered_is_sound(before: QueueModel, after: QueueModel)
    requires
        before.wf(),
        is_covered(before, after),
    ensures
        after.wf(),
{
    assert forall|i: int| 0 <= i < after.items.len() implies #[trigger] after.items[i].id
        == before.items[i].id by {}
}

/// Every track of a release, a single track, and the known ones among the
/// tracks of a context play as a context; a context plays from the chosen track
/// where it is among them.
pub proof fn play_commands_play_their_tracks(
    actor: ActorModel,
    keys: NameKeys,
    tracks: Vec<TrackKey>,
    selected: TrackKey,
    around: SurroundingsModel,
)
    requires
        actor.wf(),
        !actor.state.playback.shuffle,
        actor.tracks(views(tracks@)).len() <= usize::MAX,
    ensures
        ({
            let single = actor.commanded(keys, BackendCommand::PlayTrack { track: selected }, around);
            let r = actor.commanded(keys, BackendCommand::PlayContext { tracks, selected }, around);
            let resolved = actor.tracks(views(tracks@));
            &&& actor.track(selected@) matches Some(track) ==> plays_context(
                actor,
                single,
                seq![track],
                0,
                around,
            )
            &&& actor.track(selected@) is None ==> single == actor
            &&& resolved.len() == 0 ==> r == actor
            &&& forall|i: int|
                0 <= i < resolved.len() && (#[trigger] resolved[i]).key.matches(selected@) && (
                forall|j: int|
                    0 <= j < i ==> !(#[trigger] resolved[j]).key.matches(selected@))
                    ==> plays_context(actor, r, resolved, i, around)
            &&& resolved.len() > 0 && (forall|j: int|
                0 <= j < resolved.len() ==> !(#[trigger] resolved[j]).key.matches(selected@))
                ==> plays_context(actor, r, resolved, 0, around)
        }),
{
    let resolved = actor.tracks(views(tracks@));
    if let Some(track) = actor.track(selected@) {
        a_context_plays_from_its_start(actor, keys, seq![track], 0, around);
    }
    let p = has_key(selected@);
    let r = actor.commanded(keys, BackendCommand::PlayContext { tracks, selected }, around);
    assert forall|i: int|
        0 <= i < resolved.len() && (#[trigger] resolved[i]).key.matches(selected@) && (forall|
            j: int,
        |
            0 <= j < i ==> !(#[trigger] resolved[j]).key.matches(selected@)) implies plays_context(
        actor,
        r,
        resolved,
        i,
        around,
    ) by {
        assert forall|j: int| 0 <= j < i implies !p(#[trigger] resolved[j]) by {}
        lemma_first_where(resolved, p, i);
        a_context_plays_from_its_start(actor, keys, resolved, i as usize, around);
    }
    if resolved.len() > 0 && (forall|j: int|
        0 <= j < resolved.len() ==> !(#[trigger] resolved[j]).key.matches(selected@)) {
        assert forall|j: int| 0 <= j < resolved.len() implies !p(#[trigger] resolved[j]) by {}
        lemma_first_where(resolved, p, resolved.len() as int);
        a_context_plays_from_its_start(actor, keys, resolved, 0, around);
    }
}

/// A key stands for a track that goes by it; what is queued comes before all
/// else.
pub proof fn keys_stand_for_tracks(actor: ActorModel, key: TrackKeyModel, i: int)
    ensures
        actor.track(key) matches Some(track) ==> track.key.matches(key),
        0 <= i < actor.state.queue.items.len() && actor.state.queue.items[i].track.key.matches(
            key,
        ) && (forall|j: int|
            0 <= j < i ==> !(#[trigger] actor.state.queue.items[j]).track.key.matches(key))
            ==> actor.track(key) == Some(actor.state.queue.items[i].track),
{
    let all = item_tracks(actor.state.queue.items) + catalog_tracks(
        actor.library,
        actor.state.search.results,
    ) + actor.state.similarity_search.results;
    let p = has_key(key);
    lemma_first_where_is(all, p);
    if 0 <= i < actor.state.queue.items.len() && actor.state.queue.items[i].track.key.matches(key)
        && (forall|j: int|
        0 <= j < i ==> !(#[trigger] actor.state.queue.items[j]).track.key.matches(key)) {
        assert forall|j: int| 0 <= j < i implies !p(#[trigger] all[j]) by {
            assert(all[j] == actor.state.queue.items[j].track);
        }
        assert(all[i] == actor.state.queue.items[i].track);
        lemma_first_where(all, p, i);
    }
}

/// Where every key stands for a track, the tracks are those, one by one.
pub proof fn known_keys_are_resolved_in_order(actor: ActorModel, keys: Seq<TrackKeyModel>)
    requires
        forall|i: int| 0 <= i < keys.len() ==> actor.track(#[trigger] keys[i]) is Some,
    ensures
        actor.tracks(keys).len() == keys.len(),
        forall|i: int|
            0 <= i < keys.len() ==> Some(#[trigger] actor.tracks(keys)[i]) == actor.track(keys[i]),
    decreases keys.len(),
{
    if keys.len() > 0 {
        let front = keys.drop_last();
        assert forall|i: int| 0 <= i < front.len() implies actor.track(
            #[trigger] front[i],
        ) is Some by {
            assert(actor.track(keys[i]) is Some);
        }
        known_keys_are_resolved_in_order(actor, front);
        assert(actor.track(keys[keys.len() - 1]) is Some);
        assert forall|i: int| 0 <= i < keys.len() implies Some(#[trigger] actor.tracks(keys)[i])
            == actor.track(keys[i]) by {
            if i < front.len() {
                assert(front[i] == keys[i]);
                assert(actor.tracks(front)[i] == actor.tracks(keys)[i]);
            }
        }
    }
}

/// Tracks that are added play where they were put; what plays goes on.
pub proof fn added_tracks_are_queued(
    actor: ActorModel,
    keys: NameKeys,
    tracks: Vec<TrackKey>,
    around: SurroundingsModel,
)
    ensures
        ({
            let last = actor.commanded(keys, BackendCommand::AddToEnd { tracks }, around);
            let next = actor.commanded(keys, BackendCommand::AddNext { tracks }, around);
            let resolved = actor.tracks(views(tracks@));
            &&& is_covered(actor.state.queue.add_to_end(resolved), last.state.queue)
            &&& is_covered(actor.state.queue.add_next(resolved), next.state.queue)
            &&& last.state.playback == actor.state.playback
            &&& next.state.playback == actor.state.playback
            &&& last.listen_session == actor.listen_session
            &&& next.listen_session == actor.listen_session
            &&& actor.device_role == DevicePlaybackRole::Active ==> shows(
                last,
                last.outbox.last(),
                around.now,
            ) && shows(next, next.outbox.last(), around.now)
            &&& actor.device_role == DevicePlaybackRole::Control ==> last.outbox.last() == (
            ActionModel::SendControl {
                target: actor.active_device_id,
                state: last.wire_state(around.now),
                seek: false,
            }) && next.outbox.last() == (ActionModel::SendControl {
                target: actor.active_device_id,
                state: next.wire_state(around.now),
                seek: false,
            })
        }),
{
    reveal(ActorModel::queue_extended);
    let resolved = actor.tracks(views(tracks@));
    let a = actor.with_queue(actor.state.queue.add_to_end(resolved));
    let b = actor.with_queue(actor.state.queue.add_next(resolved));
    artwork_alone_is_resolved(a, keys);
    artwork_alone_is_resolved(b, keys);
    lemma_controlled(a.resolve_queue_artwork(keys), false, around.now);
    lemma_controlled(b.resolve_queue_artwork(keys), false, around.now);
}

/// What is shown follows the audio, never beyond the end, and only where the
/// step can be seen; what is stopped stays where it is.
pub proof fn the_position_follows_the_audio(
    actor: ActorModel,
    audio_nanos: u64,
    around: SurroundingsModel,
)
    requires
        actor.device_role == DevicePlaybackRole::Active,
    ensures
        ({
            let r = actor.tick(audio_nanos, around.now);
            let duration = actor.state.playback.duration_nanos;
            let reached = if audio_nanos <= duration {
                audio_nanos
            } else {
                duration
            };
            let step = reached - actor.state.playback.position_nanos;
            if actor.state.playback.status == PlaybackStatus::Stopped || -10_000_000 < step
                < 10_000_000 {
                r == actor
            } else {
                &&& r.state.playback == (PlaybackSnapshot {
                    position_nanos: reached,
                    ..actor.state.playback
                })
                &&& r.state.queue == actor.state.queue
                &&& r.outbox == actor.outbox.push(r.outbox.last())
                &&& shows(r, r.outbox.last(), around.now)
            }
        }),
{
    reveal(ActorModel::tick);
    let reached = if audio_nanos < actor.state.playback.duration_nanos {
        audio_nanos
    } else {
        actor.state.playback.duration_nanos
    };
    lemma_published(
        actor.with_playback(
            PlaybackSnapshot { position_nanos: reached, ..actor.state.playback },
        ),
        around.now,
    );
}

/// A track that played to its end is followed by itself where one is repeated,
/// else by the next item, and at the end of the queue by the first where all is
/// repeated; else playback ends where the track does. Its listen counts in
/// full.
pub proof fn the_end_of_a_track_goes_on(actor: ActorModel, around: SurroundingsModel)
    requires
        actor.wf(),
    ensures
        ({
            let r = actor.audio_finished(around);
            let queue = actor.state.queue;
            let n = queue.items.len();
            let repeat = actor.state.playback.repeat;
            let follower: Option<int> = if repeat == PlaybackRepeat::One {
                match queue.current {
                    Some(c) => Some(c as int),
                    None => None,
                }
            } else if queue.current matches Some(c) && c + 1 < n {
                Some(queue.current->0 + 1)
            } else if queue.current is None && n > 0 {
                Some(0int)
            } else if repeat == PlaybackRepeat::All && n > 0 {
                Some(0int)
            } else {
                None
            };
            let m = actor.outbox.len() as int;
            &&& r.state.queue.items == queue.items
            &&& actor.listen_session matches Some(session) ==> r.outbox.len() > m && (
            r.outbox[m] matches ActionModel::RecordListen { id, reason, listened_ms, .. } && id
                == session.id && reason == ListenEndReason::Finished && listened_ms
                == session.track.duration_nanos / 1_000_000)
            &&& match follower {
                Some(place) => {
                    &&& r.state.queue.current == Some(place as usize)
                    &&& r.state.playback.position_nanos == 0
                    &&& r.state.playback.duration_nanos == queue.items[place].track.duration_nanos
                    &&& queue.items[place].track.audio_source is LocalFile
                        ==> r.state.playback.status == PlaybackStatus::Playing
                },
                None => {
                    &&& r.state.queue == queue
                    &&& r.listen_session is None
                    &&& r.state.playback == (PlaybackSnapshot {
                        status: PlaybackStatus::Stopped,
                        position_nanos: actor.state.playback.duration_nanos,
                        ..actor.state.playback
                    })
                },
            }
        }),
{
    reveal(ActorModel::audio_finished);
    reveal(ActorModel::finish_listen);
    reveal(ActorModel::remove_ephemeral_audio);
    let ended = actor.finish_listen(ListenEndReason::Finished).remove_ephemeral_audio();
    let next = ended.advance_queue(true);
    if ended.has_next(true) {
        starting_plays_the_current_track(next, around);
        let r = next.play_current(around);
        if actor.listen_session is Some {
            assert(next.outbox[actor.outbox.len() as int] is RecordListen);
            assert(r.outbox[actor.outbox.len() as int] == next.outbox[actor.outbox.len() as int]);
        }
    } else {
        lemma_published(
            next.with_playback(
                PlaybackSnapshot {
                    status: PlaybackStatus::Stopped,
                    position_nanos: next.state.playback.duration_nanos,
                    ..next.state.playback
                },
            ),
            around.now,
        );
    }
}

} // verus!

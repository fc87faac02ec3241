//! What the listener's likes, playlists and settings lead to.
use crate::actor::{ActionModel, ActorModel, Moment, SurroundingsModel};
use crate::actor_devices::device_label;
use crate::actor_laws::{asks_further, lemma_published, shows};
use crate::actor_library::{
    content_ids, has_content, local_ids, localized_queue, publications, with_resolved, without,
};
use crate::api::{
    normal_similarity, BackendCommand, FederationActivityModel, FederationOperation, LibraryModel,
    SettingsModel, SettingsSnapshot, SimilaritySearchModel,
};
use crate::catalog::{LocalTrackId, TrackKey, TrackModel};
use crate::library::with_likes;
use crate::merge::NameKeys;
use crate::queue::QueueModel;
use crate::text::trimmed;
use crate::views::views;
use crate::wire::synced_fed;
use vstd::prelude::*;

verus! {

broadcast use crate::views::group_views;

/// Similar tracks are shown as they were found, each marked as liked or not.
pub proof fn similar_tracks_are_shown(
    actor: ActorModel,
    source_title: Seq<char>,
    results: Option<Seq<TrackModel>>,
    message: Seq<char>,
    liked: Seq<Seq<char>>,
    now: Moment,
)
    ensures
        ({
            let r = actor.similarity_finished(source_title, results, message, liked, now);
            let shown = r.state.similarity_search;
            &&& !shown.pending
            &&& shown.source_title == source_title
            &&& results matches Some(tracks) ==> {
                &&& shown.error is None
                &&& shown.results.len() == tracks.len()
                &&& forall|i: int|
                    0 <= i < tracks.len() ==> is_marked(#[trigger] shown.results[i], tracks[i], liked)
            }
            &&& results is None ==> shown.error == Some(message) && shown.results.len() == 0
            &&& shows(r, r.outbox.last(), now)
        }),
{
    lemma_published(
        actor.with_similarity_search(
            SimilaritySearchModel {
                source_title,
                pending: false,
                results: match results {
                    Some(tracks) => with_likes(tracks, liked),
                    None => Seq::empty(),
                },
                error: match results {
                    Some(_) => None,
                    None => Some(message),
                },
            },
        ),
        now,
    );
}

/// Whether a track is another one, marked as liked where its content, or the
/// item a peer publishes it as, is among those that are liked.
pub open spec fn is_marked(track: TrackModel, before: TrackModel, liked: Seq<Seq<char>>) -> bool {
    &&& track == (TrackModel { liked: track.liked, ..before })
    &&& before.key.content_id matches Some(id) ==> (liked.contains(id) ==> track.liked)
    &&& before.key.federation_identity matches Some((_, item)) ==> (liked.contains(item)
        ==> track.liked)
    &&& track.liked ==> (before.key.content_id is Some && liked.contains(
        before.key.content_id->0,
    )) || (before.key.federation_identity is Some && liked.contains(
        (before.key.federation_identity->0).1,
    ))
}

/// After likes were read again, what was searched for shows them.
pub proof fn likes_are_shown_everywhere(actor: ActorModel, liked: Seq<Seq<char>>)
    ensures
        ({
            let r = actor.reconcile_likes(liked);
            let before = actor.state.search.results;
            let after = r.state.search.results;
            &&& after.tracks.len() == before.tracks.len()
            &&& forall|i: int|
                0 <= i < before.tracks.len() ==> is_marked(
                    #[trigger] after.tracks[i],
                    before.tracks[i],
                    liked,
                )
            &&& after.releases.len() == before.releases.len()
            &&& forall|i: int, j: int|
                0 <= i < before.releases.len() && 0 <= j < before.releases[i].tracks.len()
                    ==> is_marked(
                    #[trigger] after.releases[i].tracks[j],
                    before.releases[i].tracks[j],
                    liked,
                )
            &&& after.artists == before.artists
            &&& forall|i: int|
                0 <= i < actor.state.similarity_search.results.len() ==> is_marked(
                    #[trigger] r.state.similarity_search.results[i],
                    actor.state.similarity_search.results[i],
                    liked,
                )
            &&& r.state.playback == actor.state.playback
            &&& r.outbox == actor.outbox
        }),
{
    reveal(ActorModel::reconcile_likes);
}

/// Toggling a like asks for it under the content of the track that the key
/// stands for; a track without content cannot be liked, and an unknown key does
/// nothing.
pub proof fn a_like_is_toggled_by_content(
    actor: ActorModel,
    keys: NameKeys,
    track: TrackKey,
    around: SurroundingsModel,
)
    ensures
        ({
            let r = actor.commanded(keys, BackendCommand::ToggleLike { track }, around);
            match actor.track(track@) {
                None => r == actor,
                Some(known) => match known.key.content_id {
                    Some(content_id) => r.state == actor.state && asks_further(
                        actor,
                        r,
                        seq![ActionModel::ToggleLike { content_id, fed: synced_fed(known) }],
                    ),
                    None => r.state.settings_error is Some && r.outbox.len() == actor.outbox.len()
                        + 1 && shows(r, r.outbox.last(), around.now),
                },
            }
        }),
{
    lemma_published(
        actor.with_settings_error(Some("This track has no stable content ID"@)),
        around.now,
    );
}

/// A playlist is made or renamed under its title without white space around
/// it, and not at all without a title; it is deleted under its identifier.
pub proof fn playlists_are_edited_as_asked(
    actor: ActorModel,
    keys: NameKeys,
    playlist_id: i64,
    title: String,
    around: SurroundingsModel,
)
    ensures
        ({
            let made = actor.commanded(keys, BackendCommand::CreatePlaylist { title }, around);
            let renamed = actor.commanded(
                keys,
                BackendCommand::RenamePlaylist { playlist_id, title },
                around,
            );
            let deleted = actor.commanded(
                keys,
                BackendCommand::DeletePlaylist { playlist_id },
                around,
            );
            &&& trimmed(title@).len() == 0 ==> made == actor && renamed == actor
            &&& trimmed(title@).len() > 0 ==> {
                &&& made.state == actor.state
                &&& asks_further(
                    actor,
                    made,
                    seq![ActionModel::CreatePlaylist { title: trimmed(title@) }],
                )
                &&& renamed.state == actor.state
                &&& asks_further(
                    actor,
                    renamed,
                    seq![ActionModel::RenamePlaylist { playlist_id, title: trimmed(title@) }],
                )
            }
            &&& deleted.state == actor.state
            &&& asks_further(actor, deleted, seq![ActionModel::DeletePlaylist { playlist_id }])
        }),
{
}

proof fn lemma_identifiers(tracks: Seq<TrackModel>, i: int)
    requires
        0 <= i < tracks.len(),
    ensures
        tracks[i].key.local_id matches Some(id) ==> local_ids(tracks).contains(id.0),
        tracks[i].key.content_id matches Some(id) ==> content_ids(tracks).contains(id),
        synced_fed(tracks[i]) matches Some(fed) ==> publications(tracks).contains(fed),
    decreases tracks.len(),
{
    let front = tracks.drop_last();
    if i < front.len() {
        lemma_identifiers(front, i);
        if let Some(id) = tracks[i].key.local_id {
            let k = choose|k: int| 0 <= k < local_ids(front).len() && local_ids(front)[k] == id.0;
            assert(local_ids(tracks)[k] == id.0);
        }
        if let Some(id) = tracks[i].key.content_id {
            let k = choose|k: int| 0 <= k < content_ids(front).len() && content_ids(front)[k] == id;
            assert(content_ids(tracks)[k] == id);
        }
        if let Some(fed) = synced_fed(tracks[i]) {
            let k = choose|k: int|
                0 <= k < publications(front).len() && publications(front)[k] == fed;
            assert(publications(tracks)[k] == fed);
        }
    } else {
        if let Some(id) = tracks[i].key.local_id {
            assert(local_ids(tracks)[local_ids(front).len() as int] == id.0);
        }
        if let Some(id) = tracks[i].key.content_id {
            assert(content_ids(tracks)[content_ids(front).len() as int] == id);
        }
        if let Some(fed) = synced_fed(tracks[i]) {
            assert(publications(tracks)[publications(front).len() as int] == fed);
        }
    }
}

proof fn lemma_identified(tracks: Seq<TrackModel>)
    ensures
        forall|k: int|
            0 <= k < local_ids(tracks).len() ==> exists|i: int|
                0 <= i < tracks.len() && (#[trigger] tracks[i]).key.local_id == Some(
                    LocalTrackId(#[trigger] local_ids(tracks)[k]),
                ),
        forall|k: int|
            0 <= k < content_ids(tracks).len() ==> exists|i: int|
                0 <= i < tracks.len() && (#[trigger] tracks[i]).key.content_id == Some(
                    #[trigger] content_ids(tracks)[k],
                ),
    decreases tracks.len(),
{
    if tracks.len() > 0 {
        let front = tracks.drop_last();
        let last = tracks[tracks.len() - 1];
        lemma_identified(front);
        assert forall|k: int| 0 <= k < local_ids(tracks).len() implies exists|i: int|
            0 <= i < tracks.len() && (#[trigger] tracks[i]).key.local_id == Some(
                LocalTrackId(#[trigger] local_ids(tracks)[k]),
            ) by {
            if k < local_ids(front).len() {
                assert(local_ids(tracks)[k] == local_ids(front)[k]);
                let i = choose|i: int|
                    0 <= i < front.len() && (#[trigger] front[i]).key.local_id == Some(
                        LocalTrackId(local_ids(front)[k]),
                    );
                assert(tracks[i] == front[i]);
            } else {
                assert(last.key.local_id == Some(LocalTrackId(local_ids(tracks)[k])));
            }
        }
        assert forall|k: int| 0 <= k < content_ids(tracks).len() implies exists|i: int|
            0 <= i < tracks.len() && (#[trigger] tracks[i]).key.content_id == Some(
                #[trigger] content_ids(tracks)[k],
            ) by {
            if k < content_ids(front).len() {
                assert(content_ids(tracks)[k] == content_ids(front)[k]);
                let i = choose|i: int|
                    0 <= i < front.len() && (#[trigger] front[i]).key.content_id == Some(
                        content_ids(front)[k],
                    );
                assert(tracks[i] == front[i]);
            } else {
                assert(last.key.content_id == Some(content_ids(tracks)[k]));
            }
        }
    }
}

/// Every track that the keys stand for joins the playlist, by its local
/// identifier and by what a peer publishes of it, or leaves it, by its local
/// identifier and its content; and no other track does.
pub proof fn tracks_join_and_leave_playlists(
    actor: ActorModel,
    keys: NameKeys,
    playlist_id: i64,
    tracks: Vec<TrackKey>,
    around: SurroundingsModel,
)
    ensures
        ({
            let known = actor.tracks(views(tracks@));
            let joined = actor.commanded(
                keys,
                BackendCommand::AddToPlaylist { playlist_id, tracks },
                around,
            );
            let left = actor.commanded(
                keys,
                BackendCommand::RemoveFromPlaylist { playlist_id, tracks },
                around,
            );
            &&& joined.state == actor.state
            &&& left.state == actor.state
            &&& joined.outbox == actor.outbox.push(joined.outbox.last())
            &&& left.outbox == actor.outbox.push(left.outbox.last())
            &&& joined.outbox.last() matches ActionModel::AddToPlaylist {
                playlist_id: id,
                local_ids: locals,
                remote,
            } && {
                &&& id == playlist_id
                &&& forall|i: int|
                    0 <= i < known.len() ==> (#[trigger] known[i]).key.local_id is Some
                        ==> locals.contains((known[i].key.local_id->0).0)
                &&& forall|i: int|
                    0 <= i < known.len() ==> synced_fed(#[trigger] known[i]) is Some
                        ==> remote.contains(synced_fed(known[i])->0)
                &&& forall|k: int|
                    0 <= k < locals.len() ==> exists|i: int|
                        0 <= i < known.len() && (#[trigger] known[i]).key.local_id == Some(
                            LocalTrackId(#[trigger] locals[k]),
                        )
            }
            &&& left.outbox.last() matches ActionModel::RemoveFromPlaylist {
                playlist_id: id,
                local_ids: locals,
                content_ids: contents,
            } && {
                &&& id == playlist_id
                &&& forall|i: int|
                    0 <= i < known.len() ==> (#[trigger] known[i]).key.local_id is Some
                        ==> locals.contains((known[i].key.local_id->0).0)
                &&& forall|i: int|
                    0 <= i < known.len() ==> (#[trigger] known[i]).key.content_id is Some
                        ==> contents.contains(known[i].key.content_id->0)
                &&& forall|k: int|
                    0 <= k < contents.len() ==> exists|i: int|
                        0 <= i < known.len() && (#[trigger] known[i]).key.content_id == Some(
                            #[trigger] contents[k],
                        )
                &&& forall|k: int|
                    0 <= k < locals.len() ==> exists|i: int|
                        0 <= i < known.len() && (#[trigger] known[i]).key.local_id == Some(
                            LocalTrackId(#[trigger] locals[k]),
                        )
            }
        }),
{
    let known = actor.tracks(views(tracks@));
    lemma_identified(known);
    assert forall|i: int| 0 <= i < known.len() implies ((#[trigger] known[i]).key.local_id is Some
        ==> local_ids(known).contains((known[i].key.local_id->0).0)) && (
    known[i].key.content_id is Some ==> content_ids(known).contains(known[i].key.content_id->0))
        && (synced_fed(known[i]) is Some ==> publications(known).contains(
        synced_fed(known[i])->0,
    )) by {
        lemma_identifiers(known, i);
    }
}

/// A queue in which tracks were replaced by local ones has the same items in
/// the same places, each with its own track where no local one stands for it,
/// and with a local one otherwise.
pub proof fn local_tracks_take_their_places(queue: QueueModel, locals: Seq<TrackModel>, i: int)
    requires
        0 <= i < queue.items.len(),
    ensures
        ({
            let r = localized_queue(queue, locals);
            &&& r == (QueueModel { items: r.items, ..queue })
            &&& r.items.len() == queue.items.len()
            &&& r.items[i].id == queue.items[i].id
            &&& locals.contains(r.items[i].track) || (r.items[i].track == queue.items[i].track
                && forall|k: int|
                0 <= k < locals.len() ==> !queue.items[i].track.key.matches(
                    (#[trigger] locals[k]).key,
                ))
        }),
    decreases locals.len(),
{
    if locals.len() > 0 {
        let front = locals.drop_last();
        local_tracks_take_their_places(queue, front, i);
        let before = localized_queue(queue, front).items[i].track;
        let r = localized_queue(queue, locals);
        if before.key.matches(locals.last().key) {
            assert(locals[locals.len() - 1] == r.items[i].track);
        } else if front.contains(before) {
            let k = choose|k: int| 0 <= k < front.len() && front[k] == before;
            assert(locals[k] == before);
        } else {
            assert forall|k: int| 0 <= k < locals.len() implies !queue.items[i].track.key.matches(
                (#[trigger] locals[k]).key,
            ) by {
                if k < front.len() {
                    assert(front[k] == locals[k]);
                }
            }
        }
    }
}

proof fn lemma_without(s: Seq<Seq<char>>, x: Seq<char>, y: Seq<char>)
    ensures
        without(s, x).contains(y) <==> s.contains(y) && y != x,
    decreases s.len(),
{
    if s.len() > 0 {
        let front = s.drop_last();
        lemma_without(front, x, y);
        let r = without(s, x);
        if s.contains(y) && y != x {
            let k = choose|k: int| 0 <= k < s.len() && s[k] == y;
            if k < front.len() {
                assert(front[k] == y);
                let j = choose|j: int| 0 <= j < without(front, x).len() && without(front, x)[j] == y;
                assert(r[j] == y);
            } else {
                assert(r[r.len() - 1] == y);
            }
        }
        if r.contains(y) {
            let j = choose|j: int| 0 <= j < r.len() && r[j] == y;
            if j < without(front, x).len() {
                assert(without(front, x).contains(y));
                let k = choose|k: int| 0 <= k < front.len() && front[k] == y;
                assert(s[k] == y);
            } else {
                assert(s[s.len() - 1] == y);
            }
        }
    }
}

/// A track of the history that could be looked up is shown as it was found,
/// wherever it is; whether it is liked stays, and so does every other track. It
/// is no longer waited for, and what else is waited for still is.
pub proof fn the_history_shows_what_was_found(
    actor: ActorModel,
    content_id: Seq<char>,
    resolved: Option<TrackModel>,
    now: Moment,
    other: Seq<char>,
)
    ensures
        ({
            let r = actor.history_resolved(content_id, resolved, now);
            let before = actor.library.recently_played;
            let after = r.library.recently_played;
            &&& r.pending_history_resolutions.contains(other) <==> (
            actor.pending_history_resolutions.contains(other) && other != content_id)
            &&& after.len() == before.len()
            &&& forall|i: int|
                0 <= i < before.len() ==> #[trigger] after[i] == (if resolved is Some
                    && before[i].key.content_id == Some(content_id) {
                    TrackModel { liked: before[i].liked, ..resolved->0 }
                } else {
                    before[i]
                })
            &&& r.state.queue == actor.state.queue
            &&& r.state.playback == actor.state.playback
        }),
{
    lemma_without(actor.pending_history_resolutions, content_id, other);
    let waiting = actor.with_pending_history(
        without(actor.pending_history_resolutions, content_id),
    );
    let before = actor.library.recently_played;
    if let Some(track) = resolved {
        if has_content(before, content_id) {
            lemma_published(
                waiting.with_library(
                    LibraryModel {
                        recently_played: with_resolved(before, content_id, track),
                        ..actor.library
                    },
                ).show_library(),
                now,
            );
        } else {
            assert forall|i: int| 0 <= i < before.len() implies (
            #[trigger] before[i]).key.content_id != Some(content_id) by {}
        }
    }
}

/// The network is joined where it is wanted and has a name, under that name
/// without white space around it; else it is left.
pub proof fn the_network_is_joined_as_set(actor: ActorModel, now: Moment)
    ensures
        ({
            let r = actor.start_federation(now);
            let settings = actor.state.settings;
            let network = trimmed(settings.network_id);
            &&& r.state.settings == settings
            &&& r.state.queue == actor.state.queue
            &&& r.state.playback == actor.state.playback
            &&& settings.federation_enabled && network.len() > 0 ==> {
                &&& r.outbox.len() == actor.outbox.len() + 2
                &&& r.outbox.last() == (ActionModel::StartFederation { network })
                &&& r.state.federation_activity.pending
                &&& r.state.federation_activity.error is None
                &&& r.federation_ready == actor.federation_ready
            }
            &&& !settings.federation_enabled || network.len() == 0 ==> {
                &&& asks_further(actor, r, seq![ActionModel::StopFederation])
                &&& !r.federation_ready
                &&& !r.state.federation_debug.running
                &&& r.state.federation_activity == actor.state.federation_activity
            }
        }),
{
    reveal(ActorModel::start_federation);
    lemma_published(
        actor.with_activity(
            FederationActivityModel {
                operation: FederationOperation::Idle,
                pending: true,
                stats: None,
                error: None,
            },
        ),
        now,
    );
}

/// How many actions it takes to join the network again, or to leave it.
pub open spec fn joining_steps(settings: SettingsModel) -> int {
    if settings.federation_enabled && trimmed(settings.network_id).len() > 0 {
        2
    } else {
        1
    }
}

proof fn lemma_rejoined(actor: ActorModel, now: Moment)
    ensures
        ({
            let r = actor.start_federation(now);
            let m = actor.outbox.len() as int;
            let n = r.outbox.len() as int;
            &&& n == m + joining_steps(actor.state.settings)
            &&& r.state.settings == actor.state.settings
            &&& r.state.settings_error == actor.state.settings_error
            &&& r.state.queue == actor.state.queue
            &&& r.state.playback == actor.state.playback
            &&& forall|i: int| 0 <= i < m ==> #[trigger] r.outbox[i] == actor.outbox[i]
            &&& r.outbox[n - 1] is StartFederation || r.outbox[n - 1] is StopFederation
        }),
{
    the_network_is_joined_as_set(actor, now);
    reveal(ActorModel::start_federation);
    reveal(ActorModel::publish);
}

/// The actor with new settings shown and saved, and the network joined again
/// where they concern it.
spec fn resettled(actor: ActorModel, settings: SettingsModel, now: Moment) -> ActorModel {
    let before = actor.state.settings;
    let saved = actor.with_settings(settings).with_settings_error(None).publish(now).act(
        ActionModel::SaveSettings { settings },
    );
    if before.federation_enabled != settings.federation_enabled || before.network_id
        != settings.network_id {
        saved.with_federation_ready(false).start_federation(now)
    } else {
        saved
    }
}

proof fn lemma_resettled(actor: ActorModel, settings: SettingsModel, now: Moment)
    ensures
        ({
            let r = resettled(actor, settings, now);
            let before = actor.state.settings;
            let m = actor.outbox.len() as int;
            let n = r.outbox.len() as int;
            let rejoins = before.federation_enabled != settings.federation_enabled
                || before.network_id != settings.network_id;
            &&& r.state.settings == settings
            &&& r.state.settings_error is None
            &&& r.state.queue == actor.state.queue
            &&& r.state.playback == actor.state.playback
            &&& n == m + 2 + if rejoins {
                joining_steps(settings)
            } else {
                0
            }
            &&& r.outbox[m] is Publish
            &&& r.outbox[m + 1] == (ActionModel::SaveSettings { settings })
            &&& rejoins ==> r.outbox[n - 1] is StartFederation || r.outbox[n - 1] is StopFederation
        }),
{
    let set = actor.with_settings(settings).with_settings_error(None);
    lemma_published(set, now);
    let saved = set.publish(now).act(ActionModel::SaveSettings { settings });
    let m = actor.outbox.len() as int;
    assert(saved.outbox[m] is Publish);
    assert(saved.outbox[m + 1] == (ActionModel::SaveSettings { settings }));
    lemma_rejoined(saved.with_federation_ready(false), now);
}

/// New settings hold as they were given, with what concerns similar tracks
/// brought into range, and are shown and saved. What they concern is told, and
/// nothing else: the network where it changed, the name where it changed, and
/// the search for similar tracks where its settings did.
pub proof fn settings_take_effect(
    actor: ActorModel,
    keys: NameKeys,
    given: SettingsSnapshot,
    around: SurroundingsModel,
)
    ensures
        ({
            let r = actor.commanded(keys, BackendCommand::UpdateSettings(given), around);
            let before = actor.state.settings;
            let after = r.state.settings;
            let m = actor.outbox.len() as int;
            let rejoins = before.federation_enabled != given@.federation_enabled
                || before.network_id != given@.network_id;
            let renames = before.device_name != given@.device_name;
            let joined = m + 2 + if rejoins {
                joining_steps(given@)
            } else {
                0
            };
            let named = if renames {
                joined + 2
            } else {
                joined
            };
            &&& after == (SettingsModel {
                similarity: normal_similarity(given@.similarity),
                ..given@
            })
            &&& r.state.settings_error is None
            &&& r.state.queue == actor.state.queue
            &&& r.state.playback == actor.state.playback
            &&& r.outbox[m] is Publish
            &&& r.outbox[m + 1] == (ActionModel::SaveSettings { settings: after })
            &&& rejoins ==> r.outbox[joined - 1] is StartFederation || r.outbox[joined
                - 1] is StopFederation
            &&& renames ==> r.outbox[joined + 1] == (ActionModel::ScheduleDeviceName {
                candidate: given@.device_name,
            }) && (r.outbox[joined] matches ActionModel::StoreDeviceName { name, publish } && name
                == device_label(given@.device_name) && !publish)
            &&& if before.similarity != after.similarity {
                r.outbox.len() == named + 1 && r.outbox[named] == (ActionModel::ApplySimilarity {
                    settings: after.similarity,
                })
            } else {
                r.outbox.len() == named
            }
        }),
{
    reveal(ActorModel::update_settings);
    let settings = SettingsModel { similarity: normal_similarity(given@.similarity), ..given@ };
    lemma_resettled(actor, settings, around.now);
    let joined = resettled(actor, settings, around.now);
    let named = if actor.state.settings.device_name != settings.device_name {
        joined.act(
            ActionModel::StoreDeviceName {
                name: device_label(settings.device_name),
                publish: false,
            },
        ).act(ActionModel::ScheduleDeviceName { candidate: settings.device_name })
    } else {
        joined
    };
    let r = actor.commanded(keys, BackendCommand::UpdateSettings(given), around);
    assert(r == if actor.state.settings.similarity != settings.similarity {
        named.act(ActionModel::ApplySimilarity { settings: settings.similarity })
    } else {
        named
    });
}

} // verus!

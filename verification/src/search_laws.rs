//! What the listener's searches lead to.
use crate::actor::{ActionModel, ActorModel, Moment};
use crate::actor_laws::{asks_further, lemma_published, shows};
use crate::api::{
    FederationActivityModel, RequestId, SearchModel, SearchResultsModel, SearchStats,
};
use crate::catalog::{TrackKeyModel, TrackModel};
use crate::merge::{
    merged_artists, merged_releases, merged_results, merged_tracks, same_catalog, NameKeys,
};
use vstd::prelude::*;

verus! {

broadcast use crate::views::group_views;

/// A new search asks the library for what was typed; a search that was still
/// running is cancelled first. What is shown stays for now.
pub proof fn a_search_asks_the_library(
    actor: ActorModel,
    request_id: RequestId,
    query: Seq<char>,
)
    ensures
        ({
            let r = actor.start_search(request_id, query);
            &&& r.state == actor.state
            &&& r.active_search == Some(request_id)
            &&& r.active_detail is None
            &&& match actor.active_search {
                Some(old) => asks_further(
                    actor,
                    r,
                    seq![
                        ActionModel::CancelSearch { request_id: old },
                        ActionModel::SearchLocal { request_id, query },
                    ],
                ),
                None => asks_further(
                    actor,
                    r,
                    seq![ActionModel::SearchLocal { request_id, query }],
                ),
            }
        }),
{
}

/// Merging nothing changes nothing.
pub proof fn merging_nothing_changes_nothing(keys: NameKeys, results: SearchResultsModel)
    ensures
        merged_results(keys, results, nothing_found()) == results,
{
    assert(merged_artists(results.artists, Seq::empty()) == results.artists);
    assert(merged_releases(keys, results.releases, Seq::empty()) == results.releases);
    assert(merged_tracks(same_catalog(), results.tracks, Seq::empty()) == results.tracks);
}

pub open spec fn nothing_found() -> SearchResultsModel {
    SearchResultsModel { artists: Seq::empty(), releases: Seq::empty(), tracks: Seq::empty() }
}

/// The network's answer to the active search ends it. What was found is merged
/// into what is shown, and counted; where there is no answer, what is shown
/// stays, with the error.
pub proof fn network_answers_are_merged(
    actor: ActorModel,
    keys: NameKeys,
    request_id: RequestId,
    found: Option<(SearchResultsModel, SearchStats)>,
    message: Seq<char>,
    now: Moment,
)
    requires
        actor.active_search == Some(request_id),
    ensures
        ({
            let r = actor.search_finished(keys, request_id, found, message, now);
            let before = actor.state.search;
            let after = r.state.search;
            &&& r.active_search is None
            &&& !after.federation_pending
            &&& !r.state.federation_activity.pending
            &&& r.state.federation_activity.operation == actor.state.federation_activity.operation
            &&& after.request_id == before.request_id
            &&& found matches Some((remote, stats)) ==> {
                &&& after.results == merged_results(keys, before.results, remote)
                &&& after.error == before.error
                &&& after.stats matches Some(counted) && {
                    &&& counted.tracks == after.results.tracks.len() as usize
                    &&& counted.artists == after.results.artists.len() as usize
                    &&& counted.peers_queried == stats.peers_queried
                    &&& counted.duration_ms == stats.duration_ms
                }
                &&& r.state.federation_activity.stats == Some(stats)
            }
            &&& found is None ==> {
                &&& after.results == before.results
                &&& after.stats == before.stats
                &&& after.error == Some(message)
                &&& r.state.federation_activity.error == Some(message)
            }
            &&& r.outbox.len() == actor.outbox.len() + 1
            &&& shows(r, r.outbox.last(), now)
            &&& r.state.queue == actor.state.queue
            &&& r.state.playback == actor.state.playback
            &&& forall|i: int|
                0 <= i < actor.outbox.len() ==> #[trigger] r.outbox[i] == actor.outbox[i]
        }),
{
    let settled = actor.with_active_search(None).with_search(
        SearchModel { federation_pending: false, ..actor.state.search },
    );
    match found {
        Some((remote, stats)) => {
            let results = merged_results(keys, settled.state.search.results, remote);
            lemma_published(
                settled.with_search(
                    SearchModel {
                        results,
                        stats: Some(
                            SearchStats {
                                tracks: results.tracks.len() as usize,
                                artists: results.artists.len() as usize,
                                ..stats
                            },
                        ),
                        ..settled.state.search
                    },
                ).with_activity(
                    FederationActivityModel {
                        pending: false,
                        stats: Some(stats),
                        ..settled.state.federation_activity
                    },
                ),
                now,
            );
        },
        None => {
            lemma_published(settled.lookup_failed(message), now);
        },
    }
}

/// Cancelling the active search clears what is shown; cancelling another one
/// changes nothing.
pub proof fn a_cancelled_search_is_cleared(
    actor: ActorModel,
    request_id: RequestId,
    now: Moment,
)
    ensures
        ({
            let r = actor.cancel_search(request_id, now);
            &&& actor.active_search != Some(request_id) ==> r == actor
            &&& actor.active_search == Some(request_id) ==> {
                &&& r.active_search is None
                &&& r.state.search.results == nothing_found()
                &&& r.state.search.request_id is None
                &&& !r.state.search.federation_pending
                &&& r.state.search.error is None
                &&& asks_further(
                    actor,
                    r,
                    seq![ActionModel::CancelSearch { request_id }, r.outbox.last()],
                )
                &&& shows(r, r.outbox.last(), now)
            }
        }),
{
    if actor.active_search == Some(request_id) {
        lemma_published(
            actor.cancel_active_search().with_search(
                SearchModel {
                    request_id: None,
                    results: nothing_found(),
                    federation_pending: false,
                    stats: None,
                    error: None,
                },
            ),
            now,
        );
    }
}

/// Looking for tracks that sound like one needs the track, the feature and a
/// local file; then the search is shown as pending, under the title of the
/// track, and goes out with the settings that hold.
pub proof fn a_similarity_search_starts_from_a_local_track(
    actor: ActorModel,
    source: TrackModel,
    key: TrackKeyModel,
    now: Moment,
)
    requires
        actor.track(key) == Some(source),
        actor.state.settings.similarity.enabled,
        source.key.local_id is Some,
    ensures
        ({
            let r = actor.start_similarity_search(key, now);
            let n = actor.outbox.len() as int;
            &&& r.state.similarity_search.pending
            &&& r.state.similarity_search.source_title == source.title
            &&& r.state.similarity_search.results.len() == 0
            &&& r.state.similarity_search.error is None
            &&& r.outbox.len() == n + 2
            &&& r.outbox[n] is Publish
            &&& r.outbox[n + 1] matches ActionModel::SearchSimilar {
                track_id,
                source_title,
                settings,
                ask_network,
            } && track_id == (source.key.local_id->0).0 && source_title == source.title && settings
                == actor.state.settings.similarity && (ask_network <==> settings.federation_consent
                && actor.federation_ready)
        }),
{
    reveal(ActorModel::publish);
}

/// Without the track, the feature or a local file nothing is looked for, and
/// that is shown.
pub proof fn a_similarity_search_may_be_refused(
    actor: ActorModel,
    key: TrackKeyModel,
    now: Moment,
)
    requires
        match actor.track(key) {
            None => true,
            Some(source) => !actor.state.settings.similarity.enabled || source.key.local_id is None,
        },
    ensures
        ({
            let r = actor.start_similarity_search(key, now);
            &&& r.state.similarity_search.error is Some
            &&& r.state.similarity_search.pending == actor.state.similarity_search.pending
            &&& actor.track(key) is None ==> r.state.similarity_search.results
                == actor.state.similarity_search.results
            &&& actor.track(key) is Some ==> r.state.similarity_search.results.len() == 0
            &&& r.outbox.len() == actor.outbox.len() + 1
            &&& r.outbox.last() is Publish
        }),
{
    reveal(ActorModel::publish);
}

} // verus!

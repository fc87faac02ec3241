//! The library as the backend follows it: reading it again, likes, playlists,
//! and what replaces what once a track is at hand locally.
use crate::actor::{
    Action, ActionModel, Actor, ActorModel, LibraryPurpose, LibraryPurposeModel, Moment,
};
use crate::api::{
    BackendModel, FederationActivityModel, FederationActivitySnapshot, FederationDebugModel,
    FederationDebugSnapshot, FederationOperation, LibraryModel, LibrarySnapshot, RemoteDataModel,
    SearchModel, SearchResults, SearchResultsModel, SimilaritySearchModel,
};
use crate::catalog::{
    AudioSource, AudioSourceModel, Release, ReleaseModel, Track, TrackKey, TrackKeyModel,
    TrackModel,
};
use crate::find::{found, lemma_first_where, lemma_found_in_both};
use crate::library::{mark_likes, release_tracks, with_likes};
use crate::lookup::{
    catalog_tracks, find_catalog_track, find_queued, find_track, has_key, playlist_tracks,
    ref_view,
};
use crate::queue::{item_tracks, Queue, QueueModel};
use crate::text::{labelled, same_str, trim, trimmed};
use crate::views::{opt_view, views};
use crate::wire::{synced_fed, track_to_synced_fed, SyncedFedTrack, SyncedFedTrackModel};
use vstd::prelude::*;

verus! {

broadcast use crate::views::group_views;

/// Every track that goes by the key replaced.
pub open spec fn substituted(tracks: Seq<TrackModel>, key: TrackKeyModel, by: TrackModel) -> Seq<
    TrackModel,
> {
    Seq::new(
        tracks.len(),
        |i: int|
            if tracks[i].key.matches(key) {
                by
            } else {
                tracks[i]
            },
    )
}

pub open spec fn substituted_releases(
    releases: Seq<ReleaseModel>,
    key: TrackKeyModel,
    by: TrackModel,
) -> Seq<ReleaseModel> {
    Seq::new(
        releases.len(),
        |i: int|
            ReleaseModel { tracks: substituted(releases[i].tracks, key, by), ..releases[i] },
    )
}

pub open spec fn substituted_results(
    results: SearchResultsModel,
    key: TrackKeyModel,
    by: TrackModel,
) -> SearchResultsModel {
    SearchResultsModel {
        tracks: substituted(results.tracks, key, by),
        releases: substituted_releases(results.releases, key, by),
        ..results
    }
}

/// The results with every track replaced that one of `locals` stands for, one
/// after the other.
pub open spec fn localized(results: SearchResultsModel, locals: Seq<TrackModel>) -> SearchResultsModel
    decreases locals.len(),
{
    if locals.len() == 0 {
        results
    } else {
        substituted_results(
            localized(results, locals.drop_last()),
            locals.last().key,
            locals.last(),
        )
    }
}

/// The queue with every track replaced that one of `locals` stands for.
pub open spec fn localized_queue(queue: QueueModel, locals: Seq<TrackModel>) -> QueueModel
    decreases locals.len(),
{
    if locals.len() == 0 {
        queue
    } else {
        localized_queue(queue, locals.drop_last()).replace_track(locals.last().key, locals.last())
    }
}

pub open spec fn plays_file(path: Seq<char>) -> spec_fn(TrackModel) -> bool {
    |track: TrackModel| track.audio_source == AudioSourceModel::LocalFile(path)
}

/// The releases with the likes marked on their tracks.
pub open spec fn releases_with_likes(releases: Seq<ReleaseModel>, liked: Seq<Seq<char>>) -> Seq<
    ReleaseModel,
> {
    Seq::new(
        releases.len(),
        |i: int| ReleaseModel { tracks: with_likes(releases[i].tracks, liked), ..releases[i] },
    )
}

/// The list without any element equal to `x`.
pub open spec fn without(s: Seq<Seq<char>>, x: Seq<char>) -> Seq<Seq<char>>
    decreases s.len(),
{
    if s.len() == 0 {
        s
    } else if s.last() == x {
        without(s.drop_last(), x)
    } else {
        without(s.drop_last(), x).push(s.last())
    }
}

/// The history with the track of this content as it was resolved; whether it is
/// liked stays as it was.
pub open spec fn with_resolved(
    tracks: Seq<TrackModel>,
    content_id: Seq<char>,
    resolved: TrackModel,
) -> Seq<TrackModel> {
    Seq::new(
        tracks.len(),
        |i: int|
            if tracks[i].key.content_id == Some(content_id) {
                TrackModel { liked: tracks[i].liked, ..resolved }
            } else {
                tracks[i]
            },
    )
}

pub open spec fn has_content(tracks: Seq<TrackModel>, content_id: Seq<char>) -> bool {
    exists|i: int| 0 <= i < tracks.len() && (#[trigger] tracks[i]).key.content_id == Some(content_id)
}

pub open spec fn no_debug() -> FederationDebugModel {
    FederationDebugModel {
        running: false,
        endpoint_id: Seq::empty(),
        dht_node_id: Seq::empty(),
        connected_peers: 0,
        known_contacts: 0,
        stored_dht_records: None,
        published_items: 0,
        error: None,
    }
}

/// The content identifiers of the tracks that have one.
pub open spec fn content_ids(tracks: Seq<TrackModel>) -> Seq<Seq<char>>
    decreases tracks.len(),
{
    if tracks.len() == 0 {
        Seq::empty()
    } else {
        match tracks.last().key.content_id {
            Some(id) => content_ids(tracks.drop_last()).push(id),
            None => content_ids(tracks.drop_last()),
        }
    }
}

/// The local identifiers of the tracks that have one.
pub open spec fn local_ids(tracks: Seq<TrackModel>) -> Seq<i64>
    decreases tracks.len(),
{
    if tracks.len() == 0 {
        Seq::empty()
    } else {
        match tracks.last().key.local_id {
            Some(id) => local_ids(tracks.drop_last()).push(id.0),
            None => local_ids(tracks.drop_last()),
        }
    }
}

/// What peers publish of the tracks, of those of which they publish anything.
pub open spec fn publications(tracks: Seq<TrackModel>) -> Seq<SyncedFedTrackModel>
    decreases tracks.len(),
{
    if tracks.len() == 0 {
        Seq::empty()
    } else {
        match synced_fed(tracks.last()) {
            Some(fed) => publications(tracks.drop_last()).push(fed),
            None => publications(tracks.drop_last()),
        }
    }
}

impl ActorModel {
    /// The track a key stands for: from the queue, the catalog, or the similar
    /// tracks found last.
    pub open spec fn track(self, key: TrackKeyModel) -> Option<TrackModel> {
        found(
            item_tracks(self.state.queue.items) + catalog_tracks(
                self.library,
                self.state.search.results,
            ) + self.state.similarity_search.results,
            has_key(key),
        )
    }

    /// The tracks the keys stand for, of those that stand for any.
    pub open spec fn tracks(self, keys: Seq<TrackKeyModel>) -> Seq<TrackModel>
        decreases keys.len(),
    {
        if keys.len() == 0 {
            Seq::empty()
        } else {
            match self.track(keys.last()) {
                Some(track) => self.tracks(keys.drop_last()).push(track),
                None => self.tracks(keys.drop_last()),
            }
        }
    }

    pub open spec fn show_library(self) -> Self {
        self.with_state(
            BackendModel { library: RemoteDataModel::Ready(self.library), ..self.state },
        )
    }

    #[verifier::opaque]
    pub open spec fn start_federation(self, now: Moment) -> Self {
        let network = trimmed(self.state.settings.network_id);
        if !self.state.settings.federation_enabled || network.len() == 0 {
            self.with_federation_ready(false).with_federation_debug_pending(
                false,
            ).with_federation_debug(no_debug()).act(ActionModel::StopFederation)
        } else {
            self.with_activity(
                FederationActivityModel {
                    operation: FederationOperation::Idle,
                    pending: true,
                    stats: None,
                    error: None,
                },
            ).publish(now).act(ActionModel::StartFederation { network })
        }
    }

    /// Looks up what is missing of the tracks in the history, each once.
    pub open spec fn resolve_tracks_of(self, tracks: Seq<TrackModel>) -> Self
        decreases tracks.len(),
    {
        if tracks.len() == 0 {
            self
        } else {
            let before = self.resolve_tracks_of(tracks.drop_last());
            let track = tracks.last();
            match track.key.content_id {
                Some(id) if track.key.local_id is None && track.cover_uri is None
                    && !before.pending_history_resolutions.contains(id) =>
                    before.with_pending_history(
                    before.pending_history_resolutions.push(id),
                ).act(ActionModel::ResolveHistory { content_id: id }),
                _ => before,
            }
        }
    }

    #[verifier::opaque]
    pub open spec fn resolve_history_tracks(self) -> Self {
        if self.federation_ready {
            self.resolve_tracks_of(self.library.recently_played)
        } else {
            self
        }
    }

    #[verifier::opaque]
    pub open spec fn reconcile_likes(self, liked: Seq<Seq<char>>) -> Self {
        let results = self.state.search.results;
        self.with_search(
            SearchModel {
                results: SearchResultsModel {
                    tracks: with_likes(results.tracks, liked),
                    releases: releases_with_likes(results.releases, liked),
                    ..results
                },
                ..self.state.search
            },
        ).with_similarity_search(
            SimilaritySearchModel {
                results: with_likes(self.state.similarity_search.results, liked),
                ..self.state.similarity_search
            },
        ).with_queue(
            localized_queue(
                self.state.queue,
                release_tracks(self.library.featured_releases) + self.library.recently_played
                    + playlist_tracks(self.library.playlists),
            ),
        )
    }

    #[verifier::opaque]
    pub open spec fn reconcile_downloaded_tracks(self, key: TrackKeyModel, path: Seq<char>) -> Self {
        let locals = release_tracks(self.library.featured_releases);
        let results = localized(self.state.search.results, locals);
        let queue = localized_queue(self.state.queue, locals);
        match found(locals, plays_file(path)) {
            Some(local) => self.with_search(
                SearchModel {
                    results: substituted_results(results, key, local),
                    ..self.state.search
                },
            ).with_queue(queue.replace_track(key, local)),
            None => self.with_search(SearchModel { results, ..self.state.search }).with_queue(queue),
        }
    }

    /// A track of the history that could be looked up.
    pub open spec fn history_resolved(
        self,
        content_id: Seq<char>,
        resolved: Option<TrackModel>,
        now: Moment,
    ) -> Self {
        let waiting = self.with_pending_history(
            without(self.pending_history_resolutions, content_id),
        );
        match resolved {
            Some(track) if has_content(self.library.recently_played, content_id) =>
                waiting.with_library(
                LibraryModel {
                    recently_played: with_resolved(
                        self.library.recently_played,
                        content_id,
                        track,
                    ),
                    ..self.library
                },
            ).show_library().publish(now),
            _ => waiting,
        }
    }

    pub open spec fn toggle_like(self, key: TrackKeyModel, now: Moment) -> Self {
        match self.track(key) {
            None => self,
            Some(track) => match track.key.content_id {
                None => self.with_settings_error(
                    Some("This track has no stable content ID"@),
                ).publish(now),
                Some(content_id) => self.act(
                    ActionModel::ToggleLike { content_id, fed: synced_fed(track) },
                ),
            },
        }
    }

    /// What came of an edit of the library: it may have failed, or have been
    /// made and not been told to the other devices.
    pub open spec fn library_edited(
        self,
        failure: Option<Seq<char>>,
        unsynced: Option<Seq<char>>,
        failed: Seq<char>,
        sync_failed: Seq<char>,
        now: Moment,
    ) -> Self {
        match (failure, unsynced) {
            (Some(message), _) => self.with_settings_error(Some(failed + message)).publish(now),
            (None, Some(message)) => self.with_settings_error(Some(sync_failed + message)).act(
                ActionModel::ReadLibrary { purpose: LibraryPurposeModel::Refresh },
            ),
            (None, None) => self.act(
                ActionModel::ReadLibrary { purpose: LibraryPurposeModel::Refresh },
            ),
        }
    }

    /// What came of an edit of a playlist; the library is read again either way.
    pub open spec fn playlist_edited(self, error: Option<Seq<char>>) -> Self {
        match error {
            Some(message) => self.with_settings_error(Some(message)),
            None => self,
        }.act(ActionModel::ReadLibrary { purpose: LibraryPurposeModel::Refresh })
    }

    pub open spec fn create_playlist(self, title: Seq<char>) -> Self {
        if trimmed(title).len() == 0 {
            self
        } else {
            self.act(ActionModel::CreatePlaylist { title: trimmed(title) })
        }
    }

    pub open spec fn rename_playlist(self, playlist_id: i64, title: Seq<char>) -> Self {
        if trimmed(title).len() == 0 {
            self
        } else {
            self.act(ActionModel::RenamePlaylist { playlist_id, title: trimmed(title) })
        }
    }

    pub open spec fn add_to_playlist(self, playlist_id: i64, keys: Seq<TrackKeyModel>) -> Self {
        let tracks = self.tracks(keys);
        self.act(
            ActionModel::AddToPlaylist {
                playlist_id,
                local_ids: local_ids(tracks),
                remote: publications(tracks),
            },
        )
    }

    pub open spec fn remove_from_playlist(self, playlist_id: i64, keys: Seq<TrackKeyModel>) -> Self {
        let tracks = self.tracks(keys);
        self.act(
            ActionModel::RemoveFromPlaylist {
                playlist_id,
                local_ids: local_ids(tracks),
                content_ids: content_ids(tracks),
            },
        )
    }
}

fn substitute(tracks: &mut Vec<Track>, key: &TrackKey, by: &Track)
    ensures
        views(final(tracks)@) == substituted(views(old(tracks)@), key@, by@),
{
    let ghost all = views(tracks@);
    let ghost target = substituted(all, key@, by@);
    let mut i: usize = 0;
    while i < tracks.len()
        invariant
            i <= tracks.len() == all.len(),
            target == substituted(all, key@, by@),
            views(tracks@) == target.take(i as int) + all.skip(i as int),
        decreases tracks.len() - i,
    {
        proof {
            assert(views(tracks@)[i as int] == all[i as int]);
        }
        if tracks[i].key.matches(key) {
            tracks[i] = by.clone();
        }
        proof {
            assert(views(tracks@) =~= target.take(i + 1) + all.skip(i + 1));
        }
        i += 1;
    }
    proof {
        assert(views(tracks@) =~= target);
    }
}

fn substitute_in_releases(releases: &mut Vec<Release>, key: &TrackKey, by: &Track)
    ensures
        views(final(releases)@) == substituted_releases(views(old(releases)@), key@, by@),
{
    let ghost all = views(releases@);
    let ghost target = substituted_releases(all, key@, by@);
    let mut i: usize = 0;
    while i < releases.len()
        invariant
            i <= releases.len() == all.len(),
            target == substituted_releases(all, key@, by@),
            views(releases@) == target.take(i as int) + all.skip(i as int),
        decreases releases.len() - i,
    {
        proof {
            assert(views(releases@)[i as int] == all[i as int]);
        }
        let mut release = releases[i].clone();
        substitute(&mut release.tracks, key, by);
        releases[i] = release;
        proof {
            assert(views(releases@) =~= target.take(i + 1) + all.skip(i + 1));
        }
        i += 1;
    }
    proof {
        assert(views(releases@) =~= target);
    }
}

fn substitute_in_results(results: &mut SearchResults, key: &TrackKey, by: &Track)
    ensures
        final(results)@ == substituted_results(old(results)@, key@, by@),
{
    substitute(&mut results.tracks, key, by);
    substitute_in_releases(&mut results.releases, key, by);
}

fn localize(results: &mut SearchResults, locals: &Vec<Track>)
    ensures
        final(results)@ == localized(old(results)@, views(locals@)),
{
    let ghost all = views(locals@);
    let mut i: usize = 0;
    while i < locals.len()
        invariant
            i <= locals.len() == all.len(),
            all == views(locals@),
            results@ == localized(old(results)@, all.take(i as int)),
        decreases locals.len() - i,
    {
        proof {
            assert(all.take(i + 1).drop_last() =~= all.take(i as int));
        }
        substitute_in_results(results, &locals[i].key, &locals[i]);
        i += 1;
    }
    proof {
        assert(all.take(i as int) =~= all);
    }
}

fn localize_queue(queue: &mut Queue, locals: &Vec<Track>)
    requires
        old(queue)@.wf(),
    ensures
        final(queue)@ == localized_queue(old(queue)@, views(locals@)),
        final(queue)@.wf(),
{
    let ghost all = views(locals@);
    let mut i: usize = 0;
    while i < locals.len()
        invariant
            i <= locals.len() == all.len(),
            all == views(locals@),
            queue@ == localized_queue(old(queue)@, all.take(i as int)),
            queue@.wf(),
        decreases locals.len() - i,
    {
        proof {
            assert(all.take(i + 1).drop_last() =~= all.take(i as int));
        }
        queue.replace_matching_track(&locals[i]);
        i += 1;
    }
    proof {
        assert(all.take(i as int) =~= all);
    }
}

fn tracks_of_releases(releases: &Vec<Release>) -> (r: Vec<Track>)
    ensures
        views(r@) == release_tracks(views(releases@)),
{
    let ghost all = views(releases@);
    let mut r: Vec<Track> = Vec::new();
    let mut i: usize = 0;
    while i < releases.len()
        invariant
            i <= releases.len() == all.len(),
            all == views(releases@),
            views(r@) == release_tracks(all.take(i as int)),
        decreases releases.len() - i,
    {
        let mut more = releases[i].tracks.clone();
        proof {
            assert(views(more@) =~= all[i as int].tracks);
            assert(all.take(i + 1).drop_last() =~= all.take(i as int));
        }
        r.append(&mut more);
        i += 1;
    }
    proof {
        assert(all.take(i as int) =~= all);
    }
    r
}

fn tracks_of_library(library: &LibrarySnapshot) -> (r: Vec<Track>)
    ensures
        views(r@) == release_tracks(library@.featured_releases) + library@.recently_played
            + playlist_tracks(library@.playlists),
{
    let mut r = tracks_of_releases(&library.featured_releases);
    let mut recent = library.recently_played.clone();
    proof {
        assert(views(recent@) =~= library@.recently_played);
    }
    r.append(&mut recent);
    let ghost front = views(r@);
    let ghost all = views(library.playlists@);
    let mut i: usize = 0;
    proof {
        assert(front =~= front + playlist_tracks(all.take(0)));
    }
    while i < library.playlists.len()
        invariant
            i <= library.playlists.len() == all.len(),
            all == views(library.playlists@),
            views(r@) == front + playlist_tracks(all.take(i as int)),
        decreases library.playlists.len() - i,
    {
        let mut more = library.playlists[i].tracks.clone();
        proof {
            assert(views(more@) =~= all[i as int].tracks);
            assert(all.take(i + 1).drop_last() =~= all.take(i as int));
            assert(front + playlist_tracks(all.take(i as int)) + all[i as int].tracks =~= front + (
            playlist_tracks(all.take(i as int)) + all[i as int].tracks));
        }
        r.append(&mut more);
        i += 1;
    }
    proof {
        assert(all.take(i as int) =~= all);
    }
    r
}

fn find_file<'a>(tracks: &'a Vec<Track>, path: &String) -> (r: Option<&'a Track>)
    ensures
        ref_view(r) == found(views(tracks@), plays_file(path@)),
{
    let ghost all = views(tracks@);
    let ghost p = plays_file(path@);
    let mut i: usize = 0;
    while i < tracks.len()
        invariant
            i <= tracks.len() == all.len(),
            all == views(tracks@),
            p == plays_file(path@),
            forall|j: int| 0 <= j < i ==> !p(#[trigger] all[j]),
        decreases tracks.len() - i,
    {
        if let AudioSource::LocalFile(file) = &tracks[i].audio_source {
            if *file == *path {
                proof {
                    lemma_first_where(all, p, i as int);
                }
                return Some(&tracks[i]);
            }
        }
        i += 1;
    }
    proof {
        lemma_first_where(all, p, i as int);
    }
    None
}

fn mark_release_likes(releases: &mut Vec<Release>, liked: &Vec<String>)
    ensures
        views(final(releases)@) == releases_with_likes(views(old(releases)@), views(liked@)),
{
    let ghost all = views(releases@);
    let ghost target = releases_with_likes(all, views(liked@));
    let mut i: usize = 0;
    while i < releases.len()
        invariant
            i <= releases.len() == all.len(),
            target == releases_with_likes(all, views(liked@)),
            views(releases@) == target.take(i as int) + all.skip(i as int),
        decreases releases.len() - i,
    {
        proof {
            assert(views(releases@)[i as int] == all[i as int]);
        }
        let mut release = releases[i].clone();
        mark_likes(&mut release.tracks, liked);
        releases[i] = release;
        proof {
            assert(views(releases@) =~= target.take(i + 1) + all.skip(i + 1));
        }
        i += 1;
    }
    proof {
        assert(views(releases@) =~= target);
    }
}

pub(crate) fn remove_text(list: &Vec<String>, text: &String) -> (r: Vec<String>)
    ensures
        views(r@) == without(views(list@), text@),
{
    let ghost all = views(list@);
    let mut r: Vec<String> = Vec::new();
    let mut i: usize = 0;
    while i < list.len()
        invariant
            i <= list.len() == all.len(),
            all == views(list@),
            views(r@) == without(all.take(i as int), text@),
        decreases list.len() - i,
    {
        proof {
            assert(all.take(i + 1).drop_last() =~= all.take(i as int));
        }
        if list[i] != *text {
            r.push(list[i].clone());
        }
        i += 1;
    }
    proof {
        assert(all.take(i as int) =~= all);
    }
    r
}

fn contains_text(list: &Vec<String>, text: &str) -> (r: bool)
    ensures
        r == views(list@).contains(text@),
{
    let mut i: usize = 0;
    while i < list.len()
        invariant
            i <= list.len(),
            forall|j: int| 0 <= j < i ==> #[trigger] views(list@)[j] != text@,
        decreases list.len() - i,
    {
        if same_str(list[i].as_str(), text) {
            assert(views(list@)[i as int] == text@);
            return true;
        }
        i += 1;
    }
    false
}

/// Puts the resolved track into the history; tells whether it was there.
fn put_resolved(tracks: &mut Vec<Track>, content_id: &String, resolved: &Track) -> (r: bool)
    ensures
        r == has_content(views(old(tracks)@), content_id@),
        views(final(tracks)@) == with_resolved(views(old(tracks)@), content_id@, resolved@),
{
    let ghost all = views(tracks@);
    let ghost target = with_resolved(all, content_id@, resolved@);
    let mut changed = false;
    let mut i: usize = 0;
    while i < tracks.len()
        invariant
            i <= tracks.len() == all.len(),
            target == with_resolved(all, content_id@, resolved@),
            views(tracks@) == target.take(i as int) + all.skip(i as int),
            changed == has_content(all.take(i as int), content_id@),
        decreases tracks.len() - i,
    {
        proof {
            assert(views(tracks@)[i as int] == all[i as int]);
        }
        let hit = match tracks[i].key.content_id() {
            Some(id) => same_str(id.as_str(), content_id.as_str()),
            None => false,
        };
        if hit {
            let mut track = resolved.clone();
            track.liked = tracks[i].liked;
            tracks[i] = track;
            changed = true;
            proof {
                assert(all.take(i + 1)[i as int].key.content_id == Some(content_id@));
            }
        }
        proof {
            assert(views(tracks@) =~= target.take(i + 1) + all.skip(i + 1));
            lemma_has_content(all, content_id@, i as int);
        }
        i += 1;
    }
    proof {
        assert(views(tracks@) =~= target);
        assert(all.take(i as int) =~= all);
    }
    changed
}

proof fn lemma_has_content(all: Seq<TrackModel>, content_id: Seq<char>, i: int)
    requires
        0 <= i < all.len(),
    ensures
        has_content(all.take(i + 1), content_id) == (has_content(all.take(i), content_id)
            || all[i].key.content_id == Some(content_id)),
{
    if has_content(all.take(i), content_id) {
        let j = choose|j: int|
            0 <= j < all.take(i).len() && (#[trigger] all.take(i)[j]).key.content_id == Some(
                content_id,
            );
        assert(all.take(i + 1)[j].key.content_id == Some(content_id));
    }
    if has_content(all.take(i + 1), content_id) {
        let j = choose|j: int|
            0 <= j < all.take(i + 1).len() && (#[trigger] all.take(i + 1)[j]).key.content_id
                == Some(content_id);
        if j < i {
            assert(all.take(i)[j].key.content_id == Some(content_id));
        }
    }
    if all[i].key.content_id == Some(content_id) {
        assert(all.take(i + 1)[i].key.content_id == Some(content_id));
    }
}

fn local_ids_of(tracks: &Vec<Track>) -> (r: Vec<i64>)
    ensures
        r@ == local_ids(views(tracks@)),
{
    let ghost all = views(tracks@);
    let mut r: Vec<i64> = Vec::new();
    let mut i: usize = 0;
    while i < tracks.len()
        invariant
            i <= tracks.len() == all.len(),
            all == views(tracks@),
            r@ == local_ids(all.take(i as int)),
        decreases tracks.len() - i,
    {
        proof {
            assert(all.take(i + 1).drop_last() =~= all.take(i as int));
        }
        if let Some(id) = tracks[i].key.local_id() {
            r.push(id.get());
        }
        i += 1;
    }
    proof {
        assert(all.take(i as int) =~= all);
    }
    r
}

fn content_ids_of(tracks: &Vec<Track>) -> (r: Vec<String>)
    ensures
        views(r@) == content_ids(views(tracks@)),
{
    let ghost all = views(tracks@);
    let mut r: Vec<String> = Vec::new();
    let mut i: usize = 0;
    while i < tracks.len()
        invariant
            i <= tracks.len() == all.len(),
            all == views(tracks@),
            views(r@) == content_ids(all.take(i as int)),
        decreases tracks.len() - i,
    {
        proof {
            assert(all.take(i + 1).drop_last() =~= all.take(i as int));
        }
        if let Some(id) = tracks[i].key.content_id() {
            r.push(id.as_str().to_owned());
        }
        i += 1;
    }
    proof {
        assert(all.take(i as int) =~= all);
    }
    r
}

fn publications_of(tracks: &Vec<Track>) -> (r: Vec<SyncedFedTrack>)
    ensures
        views(r@) == publications(views(tracks@)),
{
    let ghost all = views(tracks@);
    let mut r: Vec<SyncedFedTrack> = Vec::new();
    let mut i: usize = 0;
    while i < tracks.len()
        invariant
            i <= tracks.len() == all.len(),
            all == views(tracks@),
            views(r@) == publications(all.take(i as int)),
        decreases tracks.len() - i,
    {
        proof {
            assert(all.take(i + 1).drop_last() =~= all.take(i as int));
        }
        if let Some(fed) = track_to_synced_fed(&tracks[i]) {
            r.push(fed);
        }
        i += 1;
    }
    proof {
        assert(all.take(i as int) =~= all);
    }
    r
}

impl Actor {
    /// The track a key stands for.
    pub fn track(&self, key: &TrackKey) -> (r: Option<&Track>)
        ensures
            ref_view(r) == self@.track(key@),
    {
        proof {
            let a = item_tracks(self@.state.queue.items);
            let b = catalog_tracks(self@.library, self@.state.search.results);
            lemma_found_in_both(a, b, has_key(key@));
            lemma_found_in_both(a + b, self@.state.similarity_search.results, has_key(key@));
        }
        if let Some(track) = find_queued(self.queue().items(), key) {
            return Some(track);
        }
        if let Some(track) = find_catalog_track(self.library(), self.results(), key) {
            return Some(track);
        }
        find_track(&self.similarity_search().results, key)
    }

    pub fn resolve_tracks(&self, keys: &Vec<TrackKey>) -> (r: Vec<Track>)
        ensures
            views(r@) == self@.tracks(views(keys@)),
    {
        let ghost all = views(keys@);
        let mut r: Vec<Track> = Vec::new();
        let mut i: usize = 0;
        while i < keys.len()
            invariant
                i <= keys.len() == all.len(),
                all == views(keys@),
                views(r@) == self@.tracks(all.take(i as int)),
            decreases keys.len() - i,
        {
            proof {
                assert(all.take(i + 1).drop_last() =~= all.take(i as int));
            }
            if let Some(track) = self.track(&keys[i]) {
                r.push(track.clone());
            }
            i += 1;
        }
        proof {
            assert(all.take(i as int) =~= all);
        }
        r
    }

    pub fn start_federation(&mut self, now: Moment)
        requires
            old(self)@.wf(),
        ensures
            final(self)@ == old(self)@.start_federation(now),
            final(self)@.wf(),
    {
        proof {
            reveal(ActorModel::start_federation);
        }
        let network = trim(self.settings().network_id.as_str());
        if !self.settings().federation_enabled || network.as_str().is_empty() {
            self.set_federation_ready(false);
            self.set_federation_debug_pending(false);
            self.set_federation_debug(
                FederationDebugSnapshot {
                    running: false,
                    endpoint_id: String::new(),
                    dht_node_id: String::new(),
                    connected_peers: 0,
                    known_contacts: 0,
                    stored_dht_records: None,
                    published_items: 0,
                    error: None,
                },
            );
            self.act(Action::StopFederation);
            return;
        }
        self.set_activity(
            FederationActivitySnapshot {
                operation: FederationOperation::Idle,
                pending: true,
                stats: None,
                error: None,
            },
        );
        self.publish(now);
        self.act(Action::StartFederation { network });
    }

    pub fn resolve_history_tracks(&mut self)
        requires
            old(self)@.wf(),
        ensures
            final(self)@ == old(self)@.resolve_history_tracks(),
            final(self)@.wf(),
    {
        proof {
            reveal(ActorModel::resolve_history_tracks);
        }
        if !self.federation_ready() {
            return;
        }
        let tracks = self.library().recently_played.clone();
        let ghost all = views(tracks@);
        proof {
            assert(all =~= self@.library.recently_played);
        }
        let mut i: usize = 0;
        while i < tracks.len()
            invariant
                i <= tracks.len() == all.len(),
                all == views(tracks@),
                self@ == old(self)@.resolve_tracks_of(all.take(i as int)),
                self@.wf(),
            decreases tracks.len() - i,
        {
            proof {
                assert(all.take(i + 1).drop_last() =~= all.take(i as int));
            }
            if let Some(id) = tracks[i].key.content_id() {
                if tracks[i].key.local_id().is_none() && tracks[i].cover_uri.is_none()
                    && !contains_text(self.pending_history(), id.as_str()) {
                    let mut pending = self.pending_history().clone();
                    proof {
                        assert(views(pending@) =~= self@.pending_history_resolutions);
                    }
                    pending.push(id.as_str().to_owned());
                    self.set_pending_history(pending);
                    self.act(Action::ResolveHistory { content_id: id.as_str().to_owned() });
                }
            }
            i += 1;
        }
        proof {
            assert(all.take(i as int) =~= all);
        }
    }

    pub fn reconcile_likes(&mut self, liked: &Vec<String>)
        requires
            old(self)@.wf(),
        ensures
            final(self)@ == old(self)@.reconcile_likes(views(liked@)),
            final(self)@.wf(),
    {
        proof {
            reveal(ActorModel::reconcile_likes);
        }
        let results = self.results_mut();
        mark_likes(&mut results.tracks, liked);
        mark_release_likes(&mut results.releases, liked);
        let mut similar = self.similarity_search().clone();
        mark_likes(&mut similar.results, liked);
        self.set_similarity_search(similar);
        let locals = tracks_of_library(self.library());
        localize_queue(self.queue_mut(), &locals);
    }

    pub fn reconcile_downloaded_tracks(&mut self, key: &TrackKey, path: &String)
        requires
            old(self)@.wf(),
        ensures
            final(self)@ == old(self)@.reconcile_downloaded_tracks(key@, path@),
            final(self)@.wf(),
    {
        proof {
            reveal(ActorModel::reconcile_downloaded_tracks);
        }
        let locals = tracks_of_releases(&self.library().featured_releases);
        localize(self.results_mut(), &locals);
        localize_queue(self.queue_mut(), &locals);
        if let Some(local) = find_file(&locals, path) {
            substitute_in_results(self.results_mut(), key, local);
            self.queue_mut().replace_track(key, local);
        }
    }

    pub fn history_resolved(&mut self, content_id: &String, resolved: Option<Track>, now: Moment)
        requires
            old(self)@.wf(),
        ensures
            final(self)@ == old(self)@.history_resolved(content_id@, opt_view(resolved), now),
            final(self)@.wf(),
    {
        let pending = remove_text(self.pending_history(), content_id);
        self.set_pending_history(pending);
        if let Some(track) = resolved {
            let mut library = self.library().clone();
            if put_resolved(&mut library.recently_played, content_id, &track) {
                self.set_library(library);
                self.show_library();
                self.publish(now);
            }
        }
    }

    pub fn toggle_like(&mut self, key: &TrackKey, now: Moment)
        requires
            old(self)@.wf(),
        ensures
            final(self)@ == old(self)@.toggle_like(key@, now),
            final(self)@.wf(),
    {
        let track: Track = match self.track(key) {
            Some(track) => track.clone(),
            None => return,
        };
        match track.key.content_id() {
            None => {
                self.set_settings_error(Some("This track has no stable content ID".to_owned()));
                self.publish(now);
            },
            Some(id) => {
                self.act(
                    Action::ToggleLike {
                        content_id: id.as_str().to_owned(),
                        fed: track_to_synced_fed(&track),
                    },
                );
            },
        }
    }

    pub fn library_edited(
        &mut self,
        result: Result<Option<String>, String>,
        failed: &str,
        sync_failed: &str,
        now: Moment,
    )
        requires
            old(self)@.wf(),
        ensures
            final(self)@ == (match result {
                Ok(unsynced) => old(self)@.library_edited(
                    None,
                    opt_view(unsynced),
                    failed@,
                    sync_failed@,
                    now,
                ),
                Err(message) => old(self)@.library_edited(
                    Some(message@),
                    None,
                    failed@,
                    sync_failed@,
                    now,
                ),
            }),
            final(self)@.wf(),
    {
        match result {
            Ok(unsynced) => {
                if let Some(message) = unsynced {
                    self.set_settings_error(Some(labelled(sync_failed, message.as_str())));
                }
                self.act(Action::ReadLibrary { purpose: LibraryPurpose::Refresh });
            },
            Err(message) => {
                self.set_settings_error(Some(labelled(failed, message.as_str())));
                self.publish(now);
            },
        }
    }

    pub fn playlist_edited(&mut self, error: Option<String>)
        requires
            old(self)@.wf(),
        ensures
            final(self)@ == old(self)@.playlist_edited(opt_view(error)),
            final(self)@.wf(),
    {
        if error.is_some() {
            self.set_settings_error(error);
        }
        self.act(Action::ReadLibrary { purpose: LibraryPurpose::Refresh });
    }

    pub fn create_playlist(&mut self, title: &String)
        requires
            old(self)@.wf(),
        ensures
            final(self)@ == old(self)@.create_playlist(title@),
            final(self)@.wf(),
    {
        let title = trim(title.as_str());
        if !title.as_str().is_empty() {
            self.act(Action::CreatePlaylist { title });
        }
    }

    pub fn rename_playlist(&mut self, playlist_id: i64, title: &String)
        requires
            old(self)@.wf(),
        ensures
            final(self)@ == old(self)@.rename_playlist(playlist_id, title@),
            final(self)@.wf(),
    {
        let title = trim(title.as_str());
        if !title.as_str().is_empty() {
            self.act(Action::RenamePlaylist { playlist_id, title });
        }
    }

    pub fn add_to_playlist(&mut self, playlist_id: i64, keys: &Vec<TrackKey>)
        requires
            old(self)@.wf(),
        ensures
            final(self)@ == old(self)@.add_to_playlist(playlist_id, views(keys@)),
            final(self)@.wf(),
    {
        let tracks = self.resolve_tracks(keys);
        self.act(
            Action::AddToPlaylist {
                playlist_id,
                local_ids: local_ids_of(&tracks),
                remote: publications_of(&tracks),
            },
        );
    }

    pub fn remove_from_playlist(&mut self, playlist_id: i64, keys: &Vec<TrackKey>)
        requires
            old(self)@.wf(),
        ensures
            final(self)@ == old(self)@.remove_from_playlist(playlist_id, views(keys@)),
            final(self)@.wf(),
    {
        let tracks = self.resolve_tracks(keys);
        self.act(
            Action::RemoveFromPlaylist {
                playlist_id,
                local_ids: local_ids_of(&tracks),
                content_ids: content_ids_of(&tracks),
            },
        );
    }
}

} // verus!

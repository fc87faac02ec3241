//! Searching: the library first, then the network, then what the network tells
//! of one artist, and tracks that sound alike.
use crate::actor::{Action, ActionModel, Actor, ActorModel, Moment};
use crate::api::{
    FederationActivityModel, FederationActivitySnapshot, FederationOperation, RequestId,
    SearchModel, SearchResults, SearchResultsModel, SearchSnapshot, SearchStats,
    SimilaritySearchModel, SimilaritySearchSnapshot,
};
use crate::catalog::{
    Artist, ArtistKey, ArtistKeyModel, ArtistModel, ArtistRef, ArtistRefModel, Release,
    ReleaseKey, ReleaseKeyModel, ReleaseModel, Track, TrackKey, TrackKeyModel, TrackModel,
};
use crate::find::{first_where, found, lemma_first_where};
use crate::library::{mark_likes, with_likes};
use crate::lookup::{find_catalog_release, has_release_key};
use crate::merge::{
    merge_release_preserving_local, merge_search_results, merged_release, merged_results, NameKeys,
};
use crate::names::{is_name_fn, key_of, keys_by};
use crate::text::{trim, trimmed};
use crate::views::{opt_view, views};
use vstd::prelude::*;

verus! {

broadcast use crate::views::group_views;

/// The credits with `key` on every artist whose name counts as `selected`.
pub open spec fn relabelled_refs(
    keys: NameKeys,
    refs: Seq<ArtistRefModel>,
    selected: Seq<char>,
    key: ArtistKeyModel,
) -> Seq<ArtistRefModel> {
    Seq::new(
        refs.len(),
        |i: int|
            if keys(refs[i].name) == selected {
                ArtistRefModel { key, ..refs[i] }
            } else {
                refs[i]
            },
    )
}

pub open spec fn relabelled_track(
    keys: NameKeys,
    track: TrackModel,
    selected: Seq<char>,
    key: ArtistKeyModel,
) -> TrackModel {
    TrackModel {
        artists: relabelled_refs(keys, track.artists, selected, key),
        featured_artists: relabelled_refs(keys, track.featured_artists, selected, key),
        ..track
    }
}

pub open spec fn relabelled_tracks(
    keys: NameKeys,
    tracks: Seq<TrackModel>,
    selected: Seq<char>,
    key: ArtistKeyModel,
) -> Seq<TrackModel> {
    Seq::new(tracks.len(), |i: int| relabelled_track(keys, tracks[i], selected, key))
}

/// The tracks filed under a release.
pub open spec fn refiled(tracks: Seq<TrackModel>, release: ReleaseKeyModel) -> Seq<TrackModel> {
    Seq::new(tracks.len(), |i: int| TrackModel { release_id: release, ..tracks[i] })
}

/// A release of the network as it fits what was asked for: the artist asked for
/// under its key, and the release asked for under its own where its title
/// counts as `wanted.1`.
pub open spec fn relabelled_release(
    keys: NameKeys,
    release: ReleaseModel,
    selected: Seq<char>,
    key: ArtistKeyModel,
    wanted: Option<(ReleaseKeyModel, Seq<char>)>,
) -> ReleaseModel {
    let named = ReleaseModel {
        artists: relabelled_refs(keys, release.artists, selected, key),
        tracks: relabelled_tracks(keys, release.tracks, selected, key),
        ..release
    };
    match wanted {
        Some((wanted_key, wanted_title)) => if keys(release.title) == wanted_title {
            ReleaseModel {
                key: wanted_key,
                tracks: refiled(named.tracks, wanted_key),
                ..named
            }
        } else {
            named
        },
        None => named,
    }
}

pub open spec fn relabelled_releases(
    keys: NameKeys,
    releases: Seq<ReleaseModel>,
    selected: Seq<char>,
    key: ArtistKeyModel,
    wanted: Option<(ReleaseKeyModel, Seq<char>)>,
) -> Seq<ReleaseModel> {
    Seq::new(
        releases.len(),
        |i: int| relabelled_release(keys, releases[i], selected, key, wanted),
    )
}

pub open spec fn relabelled_artists(
    keys: NameKeys,
    artists: Seq<ArtistModel>,
    selected: Seq<char>,
    key: ArtistKeyModel,
) -> Seq<ArtistModel> {
    Seq::new(
        artists.len(),
        |i: int|
            if keys(artists[i].name) == selected {
                ArtistModel { key, ..artists[i] }
            } else {
                artists[i]
            },
    )
}

/// What the network tells of an artist, under the keys it was asked by.
pub open spec fn relabelled(
    keys: NameKeys,
    remote: SearchResultsModel,
    selected: Seq<char>,
    key: ArtistKeyModel,
    wanted: Option<(ReleaseKeyModel, Seq<char>)>,
) -> SearchResultsModel {
    SearchResultsModel {
        artists: relabelled_artists(keys, remote.artists, selected, key),
        releases: relabelled_releases(keys, remote.releases, selected, key, wanted),
        tracks: relabelled_tracks(keys, remote.tracks, selected, key),
    }
}

/// The results with the release at hand in them: in front of what was known
/// under its key, or else as one more.
pub open spec fn with_baseline(
    keys: NameKeys,
    results: SearchResultsModel,
    baseline: Option<ReleaseModel>,
) -> SearchResultsModel {
    match baseline {
        None => results,
        Some(local) => {
            let i = first_where(results.releases, has_release_key(local.key));
            SearchResultsModel {
                releases: if i < results.releases.len() {
                    results.releases.update(
                        i,
                        merged_release(keys, local, results.releases[i]),
                    )
                } else {
                    results.releases.push(local)
                },
                ..results
            }
        },
    }
}

impl ActorModel {
    /// The release a key stands for: the library's, else the search's.
    pub open spec fn release(self, key: ReleaseKeyModel) -> Option<ReleaseModel> {
        found(
            self.library.featured_releases + self.state.search.results.releases,
            has_release_key(key),
        )
    }

    pub open spec fn cancel_active_search(self) -> Self {
        match self.active_search {
            Some(request_id) => self.with_active_search(None).act(
                ActionModel::CancelSearch { request_id },
            ),
            None => self,
        }
    }

    pub open spec fn start_search(self, request_id: RequestId, query: Seq<char>) -> Self {
        self.with_active_detail(None).cancel_active_search().with_active_search(
            Some(request_id),
        ).act(ActionModel::SearchLocal { request_id, query })
    }

    /// What the library knows, shown while the network may tell of more.
    pub open spec fn local_results_shown(
        self,
        request_id: RequestId,
        local: SearchResultsModel,
        now: Moment,
    ) -> Self {
        let pending = self.state.settings.federation_enabled;
        self.with_search(
            SearchModel {
                request_id: Some(request_id),
                results: local,
                federation_pending: pending,
                stats: None,
                error: None,
            },
        ).with_activity(
            FederationActivityModel {
                operation: FederationOperation::Search,
                pending,
                stats: None,
                error: None,
            },
        ).publish(now)
    }

    /// The library answered a search: the network is asked for more, or has
    /// nothing to tell while it is not joined. An answer to any but the active
    /// search is ignored.
    pub open spec fn local_search_finished(
        self,
        keys: NameKeys,
        request_id: RequestId,
        query: Seq<char>,
        local: SearchResultsModel,
        now: Moment,
    ) -> Self {
        if self.active_search != Some(request_id) {
            self
        } else {
            let shown = self.local_results_shown(request_id, local, now);
            if self.federation_ready {
                shown.act(ActionModel::SearchFederation { request_id, query })
            } else {
                shown.search_finished(
                    keys,
                    request_id,
                    Some(
                        (
                            SearchResultsModel {
                                artists: Seq::empty(),
                                releases: Seq::empty(),
                                tracks: Seq::empty(),
                            },
                            SearchStats {
                                tracks: 0,
                                artists: 0,
                                peers_queried: 0,
                                duration_ms: 0,
                            },
                        ),
                    ),
                    Seq::empty(),
                    now,
                )
            }
        }
    }

    pub open spec fn cancel_search(self, request_id: RequestId, now: Moment) -> Self {
        if self.active_search == Some(request_id) {
            self.cancel_active_search().with_search(
                SearchModel {
                    request_id: None,
                    results: SearchResultsModel {
                        artists: Seq::empty(),
                        releases: Seq::empty(),
                        tracks: Seq::empty(),
                    },
                    federation_pending: false,
                    stats: None,
                    error: None,
                },
            ).publish(now)
        } else {
            self
        }
    }

    /// Asks the network of an artist, which fails at once while it is not
    /// joined.
    pub open spec fn load_detail(
        self,
        request_id: RequestId,
        key: ArtistKeyModel,
        name: Seq<char>,
        release: Option<ReleaseKeyModel>,
        now: Moment,
    ) -> Self {
        if !self.state.settings.federation_enabled || trimmed(name).len() == 0 {
            self
        } else {
            let free = if self.active_search is Some {
                let cancelled = self.cancel_active_search();
                cancelled.with_search(
                    SearchModel { federation_pending: false, ..cancelled.state.search },
                )
            } else {
                self
            };
            let asked = free.with_active_detail(Some(request_id)).with_activity(
                FederationActivityModel {
                    operation: if release is Some {
                        FederationOperation::Release
                    } else {
                        FederationOperation::Artist
                    },
                    pending: true,
                    stats: None,
                    error: None,
                },
            ).publish(now);
            if self.federation_ready {
                asked.act(ActionModel::LoadCard { request_id, key, name, release })
            } else {
                asked.with_active_detail(None).lookup_failed(
                    "federation is still starting"@,
                ).publish(now)
            }
        }
    }

    /// The network could not answer.
    pub open spec fn lookup_failed(self, message: Seq<char>) -> Self {
        self.with_search(SearchModel { error: Some(message), ..self.state.search }).with_activity(
            FederationActivityModel {
                pending: false,
                error: Some(message),
                ..self.state.federation_activity
            },
        )
    }

    /// The network answered a search. An answer to any but the active search is
    /// ignored.
    pub open spec fn search_finished(
        self,
        keys: NameKeys,
        request_id: RequestId,
        found: Option<(SearchResultsModel, SearchStats)>,
        message: Seq<char>,
        now: Moment,
    ) -> Self {
        if self.active_search != Some(request_id) {
            self
        } else {
            let settled = self.with_active_search(None).with_search(
                SearchModel { federation_pending: false, ..self.state.search },
            );
            match found {
                Some((remote, stats)) => {
                    let results = merged_results(keys, settled.state.search.results, remote);
                    settled.with_search(
                        SearchModel {
                            results,
                            stats: Some(
                                SearchStats {
                                    tracks: results.tracks.len() as usize,
                                    artists: results.artists.len() as usize,
                                    ..stats
                                },
                            ),
                            ..settled.state.search
                        },
                    ).with_activity(
                        FederationActivityModel {
                            pending: false,
                            stats: Some(stats),
                            ..settled.state.federation_activity
                        },
                    )
                },
                None => settled.lookup_failed(message),
            }.publish(now)
        }
    }

    /// The key and the title under which the release asked for is known.
    pub open spec fn wanted(self, keys: NameKeys, release: Option<ReleaseKeyModel>) -> Option<
        (ReleaseKeyModel, Seq<char>),
    > {
        match release {
            Some(key) => Some(
                (
                    key,
                    match self.release(key) {
                        Some(known) => keys(known.title),
                        None => Seq::empty(),
                    },
                ),
            ),
            None => None,
        }
    }

    pub open spec fn baseline(self, release: Option<ReleaseKeyModel>) -> Option<ReleaseModel> {
        match release {
            Some(key) => self.release(key),
            None => None,
        }
    }

    /// The network told of an artist. An answer to any but the active request
    /// is ignored.
    pub open spec fn detail_finished(
        self,
        keys: NameKeys,
        request_id: RequestId,
        key: ArtistKeyModel,
        name: Seq<char>,
        release: Option<ReleaseKeyModel>,
        found: Option<(SearchResultsModel, SearchStats)>,
        message: Seq<char>,
        now: Moment,
    ) -> Self {
        if self.active_detail != Some(request_id) {
            self
        } else {
            let settled = self.with_active_detail(None);
            match found {
                Some((remote, stats)) => settled.with_search(
                    SearchModel {
                        results: merged_results(
                            keys,
                            with_baseline(
                                keys,
                                self.state.search.results,
                                self.baseline(release),
                            ),
                            relabelled(
                                keys,
                                remote,
                                keys(name),
                                key,
                                self.wanted(keys, release),
                            ),
                        ),
                        ..self.state.search
                    },
                ).with_activity(
                    FederationActivityModel {
                        pending: false,
                        stats: Some(stats),
                        ..self.state.federation_activity
                    },
                ),
                None => settled.lookup_failed(message),
            }.publish(now)
        }
    }

    pub open spec fn similarity_refused(self, message: Seq<char>, keep: bool, now: Moment) -> Self {
        self.with_similarity_search(
            SimilaritySearchModel {
                results: if keep {
                    self.state.similarity_search.results
                } else {
                    Seq::empty()
                },
                error: Some(message),
                ..self.state.similarity_search
            },
        ).publish(now)
    }

    /// Looks for tracks that sound like one, which has to be local. The network
    /// is asked too, where it is joined and the listener consents.
    pub open spec fn start_similarity_search(self, key: TrackKeyModel, now: Moment) -> Self {
        match self.track(key) {
            None => self.similarity_refused("Track is unavailable"@, true, now),
            Some(source) => if !self.state.settings.similarity.enabled {
                self.similarity_refused("Enable Similarity search in Settings first"@, false, now)
            } else {
                match source.key.local_id {
                    None => self.similarity_refused(
                        "Similarity search currently starts from a local track"@,
                        false,
                        now,
                    ),
                    Some(id) => self.with_similarity_search(
                        SimilaritySearchModel {
                            source_title: source.title,
                            results: Seq::empty(),
                            pending: true,
                            error: None,
                        },
                    ).publish(now).act(
                        ActionModel::SearchSimilar {
                            track_id: id.0,
                            source_title: source.title,
                            settings: self.state.settings.similarity,
                            ask_network: self.state.settings.similarity.federation_consent
                                && self.federation_ready,
                        },
                    ),
                }
            },
        }
    }

    pub open spec fn similarity_finished(
        self,
        source_title: Seq<char>,
        results: Option<Seq<TrackModel>>,
        message: Seq<char>,
        liked: Seq<Seq<char>>,
        now: Moment,
    ) -> Self {
        self.with_similarity_search(
            SimilaritySearchModel {
                source_title,
                pending: false,
                results: match results {
                    Some(tracks) => with_likes(tracks, liked),
                    None => Seq::empty(),
                },
                error: match results {
                    Some(_) => None,
                    None => Some(message),
                },
            },
        ).publish(now)
    }
}

fn relabel_refs<F: Fn(&str) -> String>(
    refs: &Vec<ArtistRef>,
    selected: &String,
    key: &ArtistKey,
    names: &F,
) -> (r: Vec<ArtistRef>)
    requires
        is_name_fn(names),
    ensures
        views(r@) == relabelled_refs(keys_by(names), views(refs@), selected@, key@),
{
    let ghost target = relabelled_refs(keys_by(names), views(refs@), selected@, key@);
    let mut r: Vec<ArtistRef> = Vec::new();
    let mut i: usize = 0;
    while i < refs.len()
        invariant
            is_name_fn(names),
            i <= refs.len(),
            target == relabelled_refs(keys_by(names), views(refs@), selected@, key@),
            views(r@) == target.take(i as int),
        decreases refs.len() - i,
    {
        let artist = if key_of(names, refs[i].name.as_str()) == *selected {
            ArtistRef { key: key.clone(), name: refs[i].name.clone() }
        } else {
            refs[i].clone()
        };
        r.push(artist);
        i += 1;
        proof {
            assert(views(r@) =~= target.take(i as int));
        }
    }
    proof {
        assert(views(r@) =~= target);
    }
    r
}

fn relabel_tracks<F: Fn(&str) -> String>(
    tracks: &Vec<Track>,
    selected: &String,
    key: &ArtistKey,
    names: &F,
) -> (r: Vec<Track>)
    requires
        is_name_fn(names),
    ensures
        views(r@) == relabelled_tracks(keys_by(names), views(tracks@), selected@, key@),
{
    let ghost target = relabelled_tracks(keys_by(names), views(tracks@), selected@, key@);
    let mut r: Vec<Track> = Vec::new();
    let mut i: usize = 0;
    while i < tracks.len()
        invariant
            is_name_fn(names),
            i <= tracks.len(),
            target == relabelled_tracks(keys_by(names), views(tracks@), selected@, key@),
            views(r@) == target.take(i as int),
        decreases tracks.len() - i,
    {
        let mut track = tracks[i].clone();
        track.artists = relabel_refs(&tracks[i].artists, selected, key, names);
        track.featured_artists = relabel_refs(&tracks[i].featured_artists, selected, key, names);
        r.push(track);
        i += 1;
        proof {
            assert(views(r@) =~= target.take(i as int));
        }
    }
    proof {
        assert(views(r@) =~= target);
    }
    r
}

fn refile(tracks: &Vec<Track>, release: &ReleaseKey) -> (r: Vec<Track>)
    ensures
        views(r@) == refiled(views(tracks@), release@),
{
    let ghost target = refiled(views(tracks@), release@);
    let mut r: Vec<Track> = Vec::new();
    let mut i: usize = 0;
    while i < tracks.len()
        invariant
            i <= tracks.len(),
            target == refiled(views(tracks@), release@),
            views(r@) == target.take(i as int),
        decreases tracks.len() - i,
    {
        let mut track = tracks[i].clone();
        track.release_id = release.clone();
        r.push(track);
        i += 1;
        proof {
            assert(views(r@) =~= target.take(i as int));
        }
    }
    proof {
        assert(views(r@) =~= target);
    }
    r
}

/// The views of a key and a title that are looked for.
pub open spec fn wanted_view(wanted: Option<(ReleaseKey, String)>) -> Option<
    (ReleaseKeyModel, Seq<char>),
> {
    match wanted {
        Some((key, title)) => Some((key@, title@)),
        None => None,
    }
}

fn relabel_releases<F: Fn(&str) -> String>(
    releases: &Vec<Release>,
    selected: &String,
    key: &ArtistKey,
    wanted: &Option<(ReleaseKey, String)>,
    names: &F,
) -> (r: Vec<Release>)
    requires
        is_name_fn(names),
    ensures
        views(r@) == relabelled_releases(
            keys_by(names),
            views(releases@),
            selected@,
            key@,
            wanted_view(*wanted),
        ),
{
    let ghost target = relabelled_releases(
        keys_by(names),
        views(releases@),
        selected@,
        key@,
        wanted_view(*wanted),
    );
    let mut r: Vec<Release> = Vec::new();
    let mut i: usize = 0;
    while i < releases.len()
        invariant
            is_name_fn(names),
            i <= releases.len(),
            target == relabelled_releases(
                keys_by(names),
                views(releases@),
                selected@,
                key@,
                wanted_view(*wanted),
            ),
            views(r@) == target.take(i as int),
        decreases releases.len() - i,
    {
        let mut release = releases[i].clone();
        release.artists = relabel_refs(&releases[i].artists, selected, key, names);
        release.tracks = relabel_tracks(&releases[i].tracks, selected, key, names);
        if let Some((wanted_key, wanted_title)) = wanted {
            if key_of(names, releases[i].title.as_str()) == *wanted_title {
                release.key = wanted_key.clone();
                release.tracks = refile(&release.tracks, wanted_key);
            }
        }
        proof {
            assert(release@ == target[i as int]);
        }
        r.push(release);
        i += 1;
        proof {
            assert(views(r@) =~= target.take(i as int));
        }
    }
    proof {
        assert(views(r@) =~= target);
    }
    r
}

fn relabel_artists<F: Fn(&str) -> String>(
    artists: &Vec<Artist>,
    selected: &String,
    key: &ArtistKey,
    names: &F,
) -> (r: Vec<Artist>)
    requires
        is_name_fn(names),
    ensures
        views(r@) == relabelled_artists(keys_by(names), views(artists@), selected@, key@),
{
    let ghost target = relabelled_artists(keys_by(names), views(artists@), selected@, key@);
    let mut r: Vec<Artist> = Vec::new();
    let mut i: usize = 0;
    while i < artists.len()
        invariant
            is_name_fn(names),
            i <= artists.len(),
            target == relabelled_artists(keys_by(names), views(artists@), selected@, key@),
            views(r@) == target.take(i as int),
        decreases artists.len() - i,
    {
        let mut artist = artists[i].clone();
        if key_of(names, artists[i].name.as_str()) == *selected {
            artist.key = key.clone();
        }
        r.push(artist);
        i += 1;
        proof {
            assert(views(r@) =~= target.take(i as int));
        }
    }
    proof {
        assert(views(r@) =~= target);
    }
    r
}

/// Puts what the network tells of an artist under the keys it was asked by.
pub fn relabel_results<F: Fn(&str) -> String>(
    remote: &SearchResults,
    name: &String,
    key: &ArtistKey,
    wanted: &Option<(ReleaseKey, String)>,
    names: &F,
) -> (r: SearchResults)
    requires
        is_name_fn(names),
    ensures
        r@ == relabelled(
            keys_by(names),
            remote@,
            keys_by(names)(name@),
            key@,
            wanted_view(*wanted),
        ),
{
    let selected = key_of(names, name.as_str());
    SearchResults {
        artists: relabel_artists(&remote.artists, &selected, key, names),
        releases: relabel_releases(&remote.releases, &selected, key, wanted, names),
        tracks: relabel_tracks(&remote.tracks, &selected, key, names),
    }
}

/// Puts the release at hand into the results.
pub fn put_baseline<F: Fn(&str) -> String>(
    results: &mut SearchResults,
    baseline: Option<Release>,
    names: &F,
)
    requires
        is_name_fn(names),
    ensures
        final(results)@ == with_baseline(keys_by(names), old(results)@, opt_view(baseline)),
{
    let Some(local) = baseline else {
        return;
    };
    let ghost all = views(results.releases@);
    let ghost p = has_release_key(local@.key);
    let mut i: usize = 0;
    while i < results.releases.len() && results.releases[i].key != local.key
        invariant
            i <= results.releases.len() == all.len(),
            all == views(results.releases@),
            p == has_release_key(local@.key),
            forall|j: int| 0 <= j < i ==> !p(#[trigger] all[j]),
        ensures
            i <= results.releases.len() == all.len(),
            i < results.releases.len() ==> p(all[i as int]),
            forall|j: int| 0 <= j < i ==> !p(#[trigger] all[j]),
        decreases results.releases.len() - i,
    {
        i += 1;
    }
    proof {
        lemma_first_where(all, p, i as int);
    }
    if i < results.releases.len() {
        let previous = results.releases[i].clone();
        let mut merged = local;
        merge_release_preserving_local(&mut merged, previous, names);
        results.releases[i] = merged;
    } else {
        results.releases.push(local);
    }
}

impl Actor {
    /// The release a key stands for.
    pub fn release(&self, key: &ReleaseKey) -> (r: Option<&Release>)
        ensures
            crate::lookup::ref_view(r) == self@.release(key@),
    {
        find_catalog_release(self.library(), self.results(), key)
    }

    pub(crate) fn cancel_active_search(&mut self)
        requires
            old(self)@.wf(),
        ensures
            final(self)@ == old(self)@.cancel_active_search(),
            final(self)@.wf(),
    {
        if let Some(request_id) = self.active_search() {
            self.set_active_search(None);
            self.act(Action::CancelSearch { request_id });
        }
    }

    pub fn start_search(&mut self, request_id: RequestId, query: String)
        requires
            old(self)@.wf(),
        ensures
            final(self)@ == old(self)@.start_search(request_id, query@),
            final(self)@.wf(),
    {
        self.set_active_detail(None);
        self.cancel_active_search();
        self.set_active_search(Some(request_id));
        self.act(Action::SearchLocal { request_id, query });
    }

    pub fn local_search_finished<F: Fn(&str) -> String>(
        &mut self,
        request_id: RequestId,
        query: String,
        local: SearchResults,
        now: Moment,
        names: &F,
    )
        requires
            is_name_fn(names),
            old(self)@.wf(),
        ensures
            final(self)@ == old(self)@.local_search_finished(
                keys_by(names),
                request_id,
                query@,
                local@,
                now,
            ),
            final(self)@.wf(),
    {
        let active = match self.active_search() {
            Some(active) => active == request_id,
            None => false,
        };
        if !active {
            return;
        }
        let ready = self.federation_ready();
        let pending = self.settings().federation_enabled;
        self.set_search(
            SearchSnapshot {
                request_id: Some(request_id),
                results: local,
                federation_pending: pending,
                stats: None,
                error: None,
            },
        );
        self.set_activity(
            FederationActivitySnapshot {
                operation: FederationOperation::Search,
                pending,
                stats: None,
                error: None,
            },
        );
        self.publish(now);
        if ready {
            self.act(Action::SearchFederation { request_id, query });
        } else {
            let nothing = SearchResults {
                artists: Vec::new(),
                releases: Vec::new(),
                tracks: Vec::new(),
            };
            let stats = SearchStats { tracks: 0, artists: 0, peers_queried: 0, duration_ms: 0 };
            proof {
                assert(nothing@.artists =~= Seq::empty());
                assert(nothing@.releases =~= Seq::empty());
                assert(nothing@.tracks =~= Seq::empty());
            }
            self.search_finished(request_id, Ok((nothing, stats)), now, names);
        }
    }

    pub fn cancel_search(&mut self, request_id: RequestId, now: Moment)
        requires
            old(self)@.wf(),
        ensures
            final(self)@ == old(self)@.cancel_search(request_id, now),
            final(self)@.wf(),
    {
        let matches = match self.active_search() {
            Some(active) => active == request_id,
            None => false,
        };
        if matches {
            self.cancel_active_search();
            let empty = SearchSnapshot {
                request_id: None,
                results: SearchResults {
                    artists: Vec::new(),
                    releases: Vec::new(),
                    tracks: Vec::new(),
                },
                federation_pending: false,
                stats: None,
                error: None,
            };
            self.set_search(empty);
            self.publish(now);
        }
    }

    pub fn load_detail(
        &mut self,
        request_id: RequestId,
        key: ArtistKey,
        name: String,
        release: Option<ReleaseKey>,
        now: Moment,
    )
        requires
            old(self)@.wf(),
        ensures
            final(self)@ == old(self)@.load_detail(
                request_id,
                key@,
                name@,
                opt_view(release),
                now,
            ),
            final(self)@.wf(),
    {
        if !self.settings().federation_enabled || trim(name.as_str()).as_str().is_empty() {
            return;
        }
        let ready = self.federation_ready();
        if self.active_search().is_some() {
            self.cancel_active_search();
            let mut search = self.search().clone();
            search.federation_pending = false;
            self.set_search(search);
        }
        self.set_active_detail(Some(request_id));
        self.set_activity(
            FederationActivitySnapshot {
                operation: if release.is_some() {
                    FederationOperation::Release
                } else {
                    FederationOperation::Artist
                },
                pending: true,
                stats: None,
                error: None,
            },
        );
        self.publish(now);
        if ready {
            self.act(Action::LoadCard { request_id, key, name, release });
        } else {
            self.set_active_detail(None);
            self.lookup_failed("federation is still starting".to_owned());
            self.publish(now);
        }
    }

    fn lookup_failed(&mut self, message: String)
        requires
            old(self)@.wf(),
        ensures
            final(self)@ == old(self)@.lookup_failed(message@),
            final(self)@.wf(),
    {
        let mut search = self.search().clone();
        search.error = Some(message.clone());
        self.set_search(search);
        let mut activity = self.activity().clone();
        activity.pending = false;
        activity.error = Some(message);
        self.set_activity(activity);
    }

    pub fn search_finished<F: Fn(&str) -> String>(
        &mut self,
        request_id: RequestId,
        outcome: Result<(SearchResults, SearchStats), String>,
        now: Moment,
        names: &F,
    )
        requires
            is_name_fn(names),
            old(self)@.wf(),
        ensures
            final(self)@ == (match outcome {
                Ok((remote, stats)) => old(self)@.search_finished(
                    keys_by(names),
                    request_id,
                    Some((remote@, stats)),
                    Seq::empty(),
                    now,
                ),
                Err(message) => old(self)@.search_finished(
                    keys_by(names),
                    request_id,
                    None,
                    message@,
                    now,
                ),
            }),
            final(self)@.wf(),
    {
        let active = match self.active_search() {
            Some(active) => active == request_id,
            None => false,
        };
        if !active {
            return;
        }
        self.set_active_search(None);
        let mut search = self.search().clone();
        search.federation_pending = false;
        match outcome {
            Ok((remote, stats)) => {
                merge_search_results(&mut search.results, remote, names);
                let tracks: usize = search.results.tracks.len();
                let artists: usize = search.results.artists.len();
                proof {
                    assert(search@.results.tracks.len() == tracks);
                    assert(search@.results.artists.len() == artists);
                }
                search.stats = Some(SearchStats { tracks, artists, ..stats });
                self.set_search(search);
                let mut activity = self.activity().clone();
                activity.pending = false;
                activity.stats = Some(stats);
                self.set_activity(activity);
            },
            Err(message) => {
                self.set_search(search);
                self.lookup_failed(message);
            },
        }
        self.publish(now);
    }

    pub fn detail_finished<F: Fn(&str) -> String>(
        &mut self,
        request_id: RequestId,
        key: ArtistKey,
        name: String,
        release: Option<ReleaseKey>,
        outcome: Result<(SearchResults, SearchStats), String>,
        now: Moment,
        names: &F,
    )
        requires
            is_name_fn(names),
            old(self)@.wf(),
        ensures
            final(self)@ == (match outcome {
                Ok((remote, stats)) => old(self)@.detail_finished(
                    keys_by(names),
                    request_id,
                    key@,
                    name@,
                    opt_view(release),
                    Some((remote@, stats)),
                    Seq::empty(),
                    now,
                ),
                Err(message) => old(self)@.detail_finished(
                    keys_by(names),
                    request_id,
                    key@,
                    name@,
                    opt_view(release),
                    None,
                    message@,
                    now,
                ),
            }),
            final(self)@.wf(),
    {
        let active = match self.active_detail() {
            Some(active) => active == request_id,
            None => false,
        };
        if !active {
            return;
        }
        self.set_active_detail(None);
        match outcome {
            Ok((remote, stats)) => {
                let mut baseline: Option<Release> = None;
                let mut wanted: Option<(ReleaseKey, String)> = None;
                if let Some(selected) = &release {
                    let mut title = String::new();
                    if let Some(known) = self.release(selected) {
                        title = key_of(names, known.title.as_str());
                        baseline = Some(known.clone());
                    }
                    wanted = Some((selected.clone(), title));
                }
                proof {
                    assert(opt_view(baseline) == old(self)@.baseline(opt_view(release)));
                    assert(wanted_view(wanted) == old(self)@.wanted(
                        keys_by(names),
                        opt_view(release),
                    ));
                }
                let remote = relabel_results(&remote, &name, &key, &wanted, names);
                let mut search = self.search().clone();
                put_baseline(&mut search.results, baseline, names);
                merge_search_results(&mut search.results, remote, names);
                self.set_search(search);
                let mut activity = self.activity().clone();
                activity.pending = false;
                activity.stats = Some(stats);
                self.set_activity(activity);
            },
            Err(message) => {
                self.lookup_failed(message);
            },
        }
        self.publish(now);
    }

    fn similarity_refused(&mut self, message: String, keep: bool, now: Moment)
        requires
            old(self)@.wf(),
        ensures
            final(self)@ == old(self)@.similarity_refused(message@, keep, now),
            final(self)@.wf(),
    {
        let mut similar = self.similarity_search().clone();
        similar.error = Some(message);
        if !keep {
            similar.results = Vec::new();
        }
        self.set_similarity_search(similar);
        self.publish(now);
    }

    pub fn start_similarity_search(&mut self, key: &TrackKey, now: Moment)
        requires
            old(self)@.wf(),
        ensures
            final(self)@ == old(self)@.start_similarity_search(key@, now),
            final(self)@.wf(),
    {
        let source: Track = match self.track(key) {
            Some(track) => track.clone(),
            None => {
                self.similarity_refused("Track is unavailable".to_owned(), true, now);
                return;
            },
        };
        if !self.settings().similarity.enabled {
            self.similarity_refused(
                "Enable Similarity search in Settings first".to_owned(),
                false,
                now,
            );
            return;
        }
        match source.key.local_id() {
            None => {
                self.similarity_refused(
                    "Similarity search currently starts from a local track".to_owned(),
                    false,
                    now,
                );
            },
            Some(id) => {
                self.set_similarity_search(
                    SimilaritySearchSnapshot {
                        source_title: source.title.clone(),
                        results: Vec::new(),
                        pending: true,
                        error: None,
                    },
                );
                self.publish(now);
                let settings = self.settings().similarity.clone();
                let ask_network = settings.federation_consent && self.federation_ready();
                proof {
                    reveal(ActorModel::publish);
                }
                self.act(
                    Action::SearchSimilar {
                        track_id: id.get(),
                        source_title: source.title,
                        settings,
                        ask_network,
                    },
                );
            },
        }
    }

    pub fn similarity_finished(
        &mut self,
        source_title: String,
        outcome: Result<Vec<Track>, String>,
        liked: &Vec<String>,
        now: Moment,
    )
        requires
            old(self)@.wf(),
        ensures
            final(self)@ == (match outcome {
                Ok(tracks) => old(self)@.similarity_finished(
                    source_title@,
                    Some(views(tracks@)),
                    Seq::empty(),
                    views(liked@),
                    now,
                ),
                Err(message) => old(self)@.similarity_finished(
                    source_title@,
                    None,
                    message@,
                    views(liked@),
                    now,
                ),
            }),
            final(self)@.wf(),
    {
        match outcome {
            Ok(tracks) => {
                let mut tracks = tracks;
                mark_likes(&mut tracks, liked);
                self.set_similarity_search(
                    SimilaritySearchSnapshot {
                        source_title,
                        results: tracks,
                        pending: false,
                        error: None,
                    },
                );
            },
            Err(message) => {
                self.set_similarity_search(
                    SimilaritySearchSnapshot {
                        source_title,
                        results: Vec::new(),
                        pending: false,
                        error: Some(message),
                    },
                );
            },
        }
        self.publish(now);
    }
}

} // verus!

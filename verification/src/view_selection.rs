//! What is chosen in the window, and where it leads.
use crate::api::{
    BackendModel, BackendSnapshot, LibraryModel, LibrarySnapshot, PlaylistModel, PlaylistSnapshot,
    RemoteData, RemoteDataModel,
};
use crate::application::Screen;
use crate::catalog::{
    Artist, ArtistKey, ArtistKeyModel, ArtistModel, ArtistRefModel, Release, ReleaseKey,
    ReleaseKeyModel, ReleaseModel, Track, TrackKey, TrackKeyModel, TrackModel,
};
use crate::find::{found, lemma_first_where, lemma_found_in_both};
use crate::library::release_tracks;
use crate::lookup::{
    find_in, find_in_playlists, find_in_releases, find_queued, has_key, has_release_key,
    playlist_tracks, ref_view,
};
use crate::merge::{plays_before, sort_release_tracks};
use crate::queue::item_tracks;
use crate::sort::{kept, stable_sorted};
use crate::text::{chars_of, same_str, text_of};
use crate::view_catalog::{
    find_credit, goes_by, merge_artist_releases, merge_release_availability, newer,
    shown_together, sort_releases_newest_first, without_doubles,
};
use crate::view_keys::{
    artist_key_text, format_artist_key, format_release_key, has_prefix, parse_i64, parsed,
    release_key_text, starts_with,
};
use crate::views::{opt_view, views};
use vstd::prelude::*;

verus! {

broadcast use crate::views::group_views;

/// The library, once it is there.
pub open spec fn library_at_hand(backend: BackendModel) -> Option<LibraryModel> {
    match backend.library {
        RemoteDataModel::Ready(library) => Some(library),
        _ => None,
    }
}

pub fn ready_library(backend: &BackendSnapshot) -> (r: Option<&LibrarySnapshot>)
    ensures
        ref_view(r) == library_at_hand(backend@),
{
    match &backend.library {
        RemoteData::Ready(library) => Some(library),
        _ => None,
    }
}

pub open spec fn library_artists(backend: BackendModel) -> Seq<ArtistModel> {
    match library_at_hand(backend) {
        Some(library) => library.artists,
        None => Seq::empty(),
    }
}

pub open spec fn library_releases(backend: BackendModel) -> Seq<ReleaseModel> {
    match library_at_hand(backend) {
        Some(library) => library.featured_releases,
        None => Seq::empty(),
    }
}

pub open spec fn library_playlists(backend: BackendModel) -> Seq<PlaylistModel> {
    match library_at_hand(backend) {
        Some(library) => library.playlists,
        None => Seq::empty(),
    }
}

/// Every track that the window may show, in the order in which they are asked.
pub open spec fn tracks_at_hand(backend: BackendModel) -> Seq<TrackModel> {
    item_tracks(backend.queue.items) + backend.search.results.tracks + release_tracks(
        backend.search.results.releases,
    ) + release_tracks(library_releases(backend)) + playlist_tracks(library_playlists(backend))
}

/// The track that goes by a key.
pub fn find_shown_track<'a>(backend: &'a BackendSnapshot, key: &TrackKey) -> (r: Option<&'a Track>)
    ensures
        ref_view(r) == found(tracks_at_hand(backend@), has_key(key@)),
{
    let ghost model = has_key(key@);
    let p = |t: &Track| -> (y: bool)
        ensures
            y == model(t@),
        { t.key.matches(key) };
    proof {
        let a = item_tracks(backend@.queue.items);
        let b = backend@.search.results.tracks;
        let c = release_tracks(backend@.search.results.releases);
        let d = release_tracks(library_releases(backend@));
        lemma_found_in_both(a, b, model);
        lemma_found_in_both(a + b, c, model);
        lemma_found_in_both(a + b + c, d, model);
        lemma_found_in_both(a + b + c + d, playlist_tracks(library_playlists(backend@)), model);
    }
    if let Some(track) = find_queued(backend.queue.items(), key) {
        return Some(track);
    }
    if let Some(track) = find_in(&backend.search.results.tracks, &p, Ghost(model)) {
        return Some(track);
    }
    if let Some(track) = find_in_releases(&backend.search.results.releases, &p, Ghost(model)) {
        return Some(track);
    }
    match ready_library(backend) {
        Some(library) => {
            if let Some(track) = find_in_releases(&library.featured_releases, &p, Ghost(model)) {
                return Some(track);
            }
            find_in_playlists(&library.playlists, &p, Ghost(model))
        },
        None => {
            proof {
                assert(release_tracks(Seq::empty()) =~= Seq::empty());
                assert(playlist_tracks(Seq::empty()) =~= Seq::empty());
            }
            None
        },
    }
}

pub open spec fn is_artist(key: ArtistKeyModel) -> spec_fn(ArtistModel) -> bool {
    |artist: ArtistModel| artist.key == key
}

/// The artist that the window shows.
pub open spec fn chosen_artist(backend: BackendModel, screen: Screen) -> Option<ArtistModel> {
    match screen {
        Screen::Artist(key) => found(
            backend.search.results.artists + library_artists(backend),
            is_artist(key@),
        ),
        _ => None,
    }
}

fn find_artist_in<'a>(artists: &'a Vec<Artist>, key: &ArtistKey) -> (r: Option<&'a Artist>)
    ensures
        ref_view(r) == found(views(artists@), is_artist(key@)),
{
    let ghost all = views(artists@);
    let ghost p = is_artist(key@);
    let mut i: usize = 0;
    while i < artists.len()
        invariant
            i <= artists.len() == all.len(),
            all == views(artists@),
            p == is_artist(key@),
            forall|j: int| 0 <= j < i ==> !p(#[trigger] all[j]),
        decreases artists.len() - i,
    {
        if artists[i].key == *key {
            proof {
                lemma_first_where(all, p, i as int);
            }
            return Some(&artists[i]);
        }
        i += 1;
    }
    proof {
        lemma_first_where(all, p, i as int);
    }
    None
}

pub fn selected_artist<'a>(backend: &'a BackendSnapshot, screen: &Screen) -> (r: Option<&'a Artist>)
    ensures
        ref_view(r) == chosen_artist(backend@, *screen),
{
    match screen {
        Screen::Artist(key) => {
            proof {
                lemma_found_in_both(
                    backend@.search.results.artists,
                    library_artists(backend@),
                    is_artist(key@),
                );
            }
            if let Some(artist) = find_artist_in(&backend.search.results.artists, key) {
                return Some(artist);
            }
            match ready_library(backend) {
                Some(library) => find_artist_in(&library.artists, key),
                None => None,
            }
        },
        _ => None,
    }
}

/// Every release that the window may show, the library's first.
pub open spec fn releases_at_hand(backend: BackendModel) -> Seq<ReleaseModel> {
    library_releases(backend) + backend.search.results.releases
}

/// All records of a release as one.
pub open spec fn all_together(releases: Seq<ReleaseModel>) -> ReleaseModel
    decreases releases.len(),
{
    if releases.len() <= 1 {
        releases[0]
    } else {
        shown_together(all_together(releases.drop_last()), releases.last())
    }
}

/// The release that the window shows, with its tracks in the order they play.
pub open spec fn chosen_release(backend: BackendModel, screen: Screen) -> Option<ReleaseModel> {
    match screen {
        Screen::Release(key, _) => {
            let records = kept(releases_at_hand(backend), has_release_key(key@));
            if records.len() == 0 {
                None
            } else {
                let release = all_together(records);
                Some(
                    ReleaseModel {
                        tracks: stable_sorted(release.tracks, plays_before()),
                        ..release
                    },
                )
            }
        },
        _ => None,
    }
}

fn add_records(r: &mut Vec<Release>, releases: &Vec<Release>, key: &ReleaseKey)
    ensures
        views(final(r)@) == views(old(r)@) + kept(views(releases@), has_release_key(key@)),
{
    let ghost all = views(releases@);
    let ghost before = views(r@);
    let ghost p = has_release_key(key@);
    let mut i: usize = 0;
    proof {
        assert(before + kept(all.take(0), p) =~= before);
    }
    while i < releases.len()
        invariant
            i <= releases.len() == all.len(),
            all == views(releases@),
            p == has_release_key(key@),
            views(r@) == before + kept(all.take(i as int), p),
        decreases releases.len() - i,
    {
        proof {
            assert(all.take(i + 1).drop_last() =~= all.take(i as int));
        }
        if releases[i].key == *key {
            r.push(releases[i].clone());
            proof {
                assert(views(r@) =~= before + kept(all.take(i + 1), p));
            }
        }
        i += 1;
    }
    proof {
        assert(all.take(i as int) =~= all);
    }
}

proof fn lemma_kept_in_both<T>(a: Seq<T>, b: Seq<T>, p: spec_fn(T) -> bool)
    ensures
        kept(a + b, p) == kept(a, p) + kept(b, p),
    decreases b.len(),
{
    if b.len() == 0 {
        assert(a + b =~= a);
        assert(kept(a, p) + kept(b, p) =~= kept(a, p));
    } else {
        lemma_kept_in_both(a, b.drop_last(), p);
        assert((a + b).drop_last() =~= a + b.drop_last());
        assert(kept(a + b, p) =~= kept(a, p) + kept(b, p));
    }
}

/// The release that the window shows.
pub fn selected_release(backend: &BackendSnapshot, screen: &Screen) -> (r: Option<Release>)
    ensures
        opt_view(r) == chosen_release(backend@, *screen),
{
    let key = match screen {
        Screen::Release(key, _) => key,
        _ => {
            return None;
        },
    };
    let ghost p = has_release_key(key@);
    let mut records: Vec<Release> = Vec::new();
    if let Some(library) = ready_library(backend) {
        add_records(&mut records, &library.featured_releases, key);
    }
    proof {
        assert(kept(Seq::<ReleaseModel>::empty(), p) =~= Seq::empty());
        assert(views(records@) =~= kept(library_releases(backend@), p));
    }
    add_records(&mut records, &backend.search.results.releases, key);
    let ghost all = kept(releases_at_hand(backend@), p);
    proof {
        lemma_kept_in_both(library_releases(backend@), backend@.search.results.releases, p);
        assert(views(records@) == all);
    }
    if records.len() == 0 {
        return None;
    }
    let mut selected = records.remove(0);
    let mut rest = records;
    let ghost mut done: int = 1;
    proof {
        assert(views(rest@) =~= all.skip(1));
        assert(all.take(1)[0] == all[0]);
    }
    while rest.len() > 0
        invariant
            1 <= done,
            done + rest.len() == all.len(),
            views(rest@) == all.skip(done),
            selected@ == all_together(all.take(done)),
        decreases rest.len(),
    {
        let candidate = rest.remove(0);
        proof {
            assert(candidate@ == all[done]);
            assert(all.take(done + 1).drop_last() =~= all.take(done));
            assert(views(rest@) =~= all.skip(done + 1));
        }
        merge_release_availability(&mut selected, candidate);
        proof {
            done = done + 1;
        }
    }
    proof {
        assert(all.take(done) =~= all);
    }
    let mut tracks: Vec<Track> = Vec::new();
    std::mem::swap(&mut tracks, &mut selected.tracks);
    selected.tracks = sort_release_tracks(tracks);
    Some(selected)
}

pub open spec fn is_playlist(id: i64) -> spec_fn(PlaylistModel) -> bool {
    |playlist: PlaylistModel| playlist.id == id
}

/// The playlist that the window shows.
pub open spec fn chosen_playlist(backend: BackendModel, screen: Screen) -> Option<PlaylistModel> {
    match screen {
        Screen::Playlist(id) => found(library_playlists(backend), is_playlist(id)),
        _ => None,
    }
}

pub fn selected_playlist<'a>(backend: &'a BackendSnapshot, screen: &Screen) -> (r: Option<
    &'a PlaylistSnapshot,
>)
    ensures
        ref_view(r) == chosen_playlist(backend@, *screen),
{
    let id: i64 = match screen {
        Screen::Playlist(id) => *id,
        _ => {
            return None;
        },
    };
    let library = match ready_library(backend) {
        Some(library) => library,
        None => {
            return None;
        },
    };
    let ghost all = views(library.playlists@);
    let ghost p = is_playlist(id);
    let mut i: usize = 0;
    while i < library.playlists.len()
        invariant
            i <= library.playlists.len() == all.len(),
            all == views(library.playlists@),
            all == library_playlists(backend@),
            *screen == Screen::Playlist(id),
            p == is_playlist(id),
            forall|j: int| 0 <= j < i ==> !p(#[trigger] all[j]),
        decreases library.playlists.len() - i,
    {
        if library.playlists[i].id == id {
            proof {
                lemma_first_where(all, p, i as int);
            }
            return Some(&library.playlists[i]);
        }
        i += 1;
    }
    proof {
        lemma_first_where(all, p, i as int);
    }
    None
}

/// Whether an artist has part in a track as a guest.
pub open spec fn features(key: ArtistKeyModel) -> spec_fn(TrackModel) -> bool {
    |track: TrackModel| found(track.featured_artists, goes_by(key)) is Some
}

/// The tracks that the chosen artist has part in as a guest.
pub open spec fn guest_tracks(backend: BackendModel, artist: ArtistModel) -> Seq<TrackModel> {
    kept(
        release_tracks(library_releases(backend)) + backend.search.results.tracks,
        features(artist.key),
    )
}

fn add_guest_tracks(r: &mut Vec<Track>, tracks: &Vec<Track>, key: &ArtistKey)
    ensures
        views(final(r)@) == views(old(r)@) + kept(views(tracks@), features(key@)),
{
    let ghost all = views(tracks@);
    let ghost before = views(r@);
    let ghost p = features(key@);
    let mut i: usize = 0;
    proof {
        assert(before + kept(all.take(0), p) =~= before);
    }
    while i < tracks.len()
        invariant
            i <= tracks.len() == all.len(),
            all == views(tracks@),
            p == features(key@),
            views(r@) == before + kept(all.take(i as int), p),
        decreases tracks.len() - i,
    {
        proof {
            assert(all.take(i + 1).drop_last() =~= all.take(i as int));
        }
        if find_credit(&tracks[i].featured_artists, key).is_some() {
            r.push(tracks[i].clone());
            proof {
                assert(views(r@) =~= before + kept(all.take(i + 1), p));
            }
        }
        i += 1;
    }
    proof {
        assert(all.take(i as int) =~= all);
    }
}

/// The tracks that an artist has part in as a guest.
pub fn artist_featured_tracks(backend: &BackendSnapshot, artist: &Artist) -> (r: Vec<Track>)
    ensures
        views(r@) == guest_tracks(backend@, artist@),
{
    let ghost p = features(artist@.key);
    let mut r: Vec<Track> = Vec::new();
    if let Some(library) = ready_library(backend) {
        let ghost all = views(library.featured_releases@);
        let mut i: usize = 0;
        proof {
            assert(kept(release_tracks(all.take(0)), p) =~= Seq::empty());
        }
        while i < library.featured_releases.len()
            invariant
                i <= library.featured_releases.len() == all.len(),
                all == views(library.featured_releases@),
                p == features(artist@.key),
                views(r@) == kept(release_tracks(all.take(i as int)), p),
            decreases library.featured_releases.len() - i,
        {
            proof {
                assert(all.take(i + 1).drop_last() =~= all.take(i as int));
                lemma_kept_in_both(release_tracks(all.take(i as int)), all[i as int].tracks, p);
            }
            add_guest_tracks(&mut r, &library.featured_releases[i].tracks, &artist.key);
            i += 1;
        }
        proof {
            assert(all.take(i as int) =~= all);
        }
    }
    proof {
        lemma_kept_in_both(
            release_tracks(library_releases(backend@)),
            backend@.search.results.tracks,
            p,
        );
        if library_at_hand(backend@) is None {
            assert(kept(release_tracks(library_releases(backend@)), p) =~= Seq::empty());
        }
    }
    add_guest_tracks(&mut r, &backend.search.results.tracks, &artist.key);
    r
}

/// Whether an artist is one of the main artists of a release.
pub open spec fn is_by(key: ArtistKeyModel) -> spec_fn(ReleaseModel) -> bool {
    |release: ReleaseModel| found(release.artists, goes_by(key)) is Some
}

/// The releases of the chosen artist, each once, the newest first.
pub open spec fn releases_by(backend: BackendModel, artist: ArtistModel) -> Seq<ReleaseModel> {
    stable_sorted(
        without_doubles(kept(releases_at_hand(backend), is_by(artist.key))),
        newer(),
    )
}

fn add_releases_by(r: &mut Vec<Release>, releases: &Vec<Release>, key: &ArtistKey)
    ensures
        views(final(r)@) == views(old(r)@) + kept(views(releases@), is_by(key@)),
{
    let ghost all = views(releases@);
    let ghost before = views(r@);
    let ghost p = is_by(key@);
    let mut i: usize = 0;
    proof {
        assert(before + kept(all.take(0), p) =~= before);
    }
    while i < releases.len()
        invariant
            i <= releases.len() == all.len(),
            all == views(releases@),
            p == is_by(key@),
            views(r@) == before + kept(all.take(i as int), p),
        decreases releases.len() - i,
    {
        proof {
            assert(all.take(i + 1).drop_last() =~= all.take(i as int));
        }
        if find_credit(&releases[i].artists, key).is_some() {
            r.push(releases[i].clone());
            proof {
                assert(views(r@) =~= before + kept(all.take(i + 1), p));
            }
        }
        i += 1;
    }
    proof {
        assert(all.take(i as int) =~= all);
    }
}

pub fn artist_releases(backend: &BackendSnapshot, artist: &Artist) -> (r: Vec<Release>)
    ensures
        views(r@) == releases_by(backend@, artist@),
{
    let ghost p = is_by(artist@.key);
    let mut releases: Vec<Release> = Vec::new();
    if let Some(library) = ready_library(backend) {
        add_releases_by(&mut releases, &library.featured_releases, &artist.key);
    }
    proof {
        assert(kept(Seq::<ReleaseModel>::empty(), p) =~= Seq::empty());
        assert(views(releases@) =~= kept(library_releases(backend@), p));
        lemma_kept_in_both(library_releases(backend@), backend@.search.results.releases, p);
    }
    add_releases_by(&mut releases, &backend.search.results.releases, &artist.key);
    sort_releases_newest_first(merge_artist_releases(releases))
}

pub open spec fn keys_of(tracks: Seq<TrackModel>) -> Seq<TrackKeyModel> {
    Seq::new(tracks.len(), |i: int| tracks[i].key)
}

/// The tracks that stand together where one of them was chosen.
pub open spec fn context_tracks(backend: BackendModel, screen: Screen, context: Seq<char>) -> Seq<
    TrackModel,
> {
    if context == "release"@ {
        match chosen_release(backend, screen) {
            Some(release) => release.tracks,
            None => Seq::empty(),
        }
    } else if context == "search"@ {
        backend.search.results.tracks
    } else if context == "recent"@ {
        match library_at_hand(backend) {
            Some(library) => library.recently_played,
            None => Seq::empty(),
        }
    } else if context == "artist-featured"@ {
        match chosen_artist(backend, screen) {
            Some(artist) => guest_tracks(backend, artist),
            None => Seq::empty(),
        }
    } else if context == "playlist"@ {
        match chosen_playlist(backend, screen) {
            Some(playlist) => playlist.tracks,
            None => Seq::empty(),
        }
    } else {
        Seq::empty()
    }
}

fn keys_in(tracks: &Vec<Track>) -> (r: Vec<TrackKey>)
    ensures
        views(r@) == keys_of(views(tracks@)),
{
    let ghost goal = keys_of(views(tracks@));
    let mut r: Vec<TrackKey> = Vec::new();
    let mut i: usize = 0;
    while i < tracks.len()
        invariant
            i <= tracks.len(),
            goal == keys_of(views(tracks@)),
            views(r@) == goal.take(i as int),
        decreases tracks.len() - i,
    {
        r.push(tracks[i].key.clone());
        i += 1;
        assert(views(r@) =~= goal.take(i as int));
    }
    assert(views(r@) =~= goal);
    r
}

/// The keys of the tracks that stand together where one of them was chosen.
pub fn track_context(backend: &BackendSnapshot, screen: &Screen, context: &str) -> (r: Vec<TrackKey>)
    ensures
        views(r@) == keys_of(context_tracks(backend@, *screen, context@)),
{
    let nothing: Vec<TrackKey> = Vec::new();
    proof {
        assert(views(nothing@) =~= keys_of(Seq::empty()));
    }
    if same_str(context, "release") {
        match selected_release(backend, screen) {
            Some(release) => keys_in(&release.tracks),
            None => nothing,
        }
    } else if same_str(context, "search") {
        keys_in(&backend.search.results.tracks)
    } else if same_str(context, "recent") {
        match ready_library(backend) {
            Some(library) => keys_in(&library.recently_played),
            None => nothing,
        }
    } else if same_str(context, "artist-featured") {
        match selected_artist(backend, screen) {
            Some(artist) => keys_in(&artist_featured_tracks(backend, artist)),
            None => nothing,
        }
    } else if same_str(context, "playlist") {
        match selected_playlist(backend, screen) {
            Some(playlist) => keys_in(&playlist.tracks),
            None => nothing,
        }
    } else {
        nothing
    }
}

pub open spec fn artist_shown_as(text: Seq<char>) -> spec_fn(ArtistModel) -> bool {
    |artist: ArtistModel| artist_key_text(artist.key) == text
}

/// The artist that a text names, among those at hand.
pub open spec fn named_artist(backend: BackendModel, text: Seq<char>) -> Option<ArtistKeyModel> {
    match found(library_artists(backend) + backend.search.results.artists, artist_shown_as(text)) {
        Some(artist) => Some(artist.key),
        None => None,
    }
}

fn artist_named_in(artists: &Vec<Artist>, text: &str) -> (r: Option<ArtistKey>)
    ensures
        opt_view(r) == (match found(views(artists@), artist_shown_as(text@)) {
            Some(artist) => Some(artist.key),
            None => None,
        }),
{
    let ghost all = views(artists@);
    let ghost p = artist_shown_as(text@);
    let mut i: usize = 0;
    while i < artists.len()
        invariant
            i <= artists.len() == all.len(),
            all == views(artists@),
            p == artist_shown_as(text@),
            forall|j: int| 0 <= j < i ==> !p(#[trigger] all[j]),
        decreases artists.len() - i,
    {
        if same_str(format_artist_key(&artists[i].key).as_str(), text) {
            proof {
                lemma_first_where(all, p, i as int);
            }
            return Some(artists[i].key.clone());
        }
        i += 1;
    }
    proof {
        lemma_first_where(all, p, i as int);
    }
    None
}

pub fn find_artist_key(backend: &BackendSnapshot, value: &str) -> (r: Option<ArtistKey>)
    ensures
        opt_view(r) == named_artist(backend@, value@),
{
    proof {
        lemma_found_in_both(
            library_artists(backend@),
            backend@.search.results.artists,
            artist_shown_as(value@),
        );
    }
    if let Some(library) = ready_library(backend) {
        if let Some(key) = artist_named_in(&library.artists, value) {
            return Some(key);
        }
    }
    artist_named_in(&backend.search.results.artists, value)
}

pub open spec fn release_shown_as(text: Seq<char>) -> spec_fn(ReleaseModel) -> bool {
    |release: ReleaseModel| release_key_text(release.key) == text
}

/// The release that a text names, among those at hand.
pub open spec fn named_release(backend: BackendModel, text: Seq<char>) -> Option<ReleaseKeyModel> {
    match found(releases_at_hand(backend), release_shown_as(text)) {
        Some(release) => Some(release.key),
        None => None,
    }
}

fn release_named_in(releases: &Vec<Release>, text: &str) -> (r: Option<ReleaseKey>)
    ensures
        opt_view(r) == (match found(views(releases@), release_shown_as(text@)) {
            Some(release) => Some(release.key),
            None => None,
        }),
{
    let ghost all = views(releases@);
    let ghost p = release_shown_as(text@);
    let mut i: usize = 0;
    while i < releases.len()
        invariant
            i <= releases.len() == all.len(),
            all == views(releases@),
            p == release_shown_as(text@),
            forall|j: int| 0 <= j < i ==> !p(#[trigger] all[j]),
        decreases releases.len() - i,
    {
        if same_str(format_release_key(&releases[i].key).as_str(), text) {
            proof {
                lemma_first_where(all, p, i as int);
            }
            return Some(releases[i].key.clone());
        }
        i += 1;
    }
    proof {
        lemma_first_where(all, p, i as int);
    }
    None
}

pub fn find_release_key(backend: &BackendSnapshot, value: &str) -> (r: Option<ReleaseKey>)
    ensures
        opt_view(r) == named_release(backend@, value@),
{
    proof {
        lemma_found_in_both(
            library_releases(backend@),
            backend@.search.results.releases,
            release_shown_as(value@),
        );
    }
    if let Some(library) = ready_library(backend) {
        if let Some(key) = release_named_in(&library.featured_releases, value) {
            return Some(key);
        }
    }
    release_named_in(&backend.search.results.releases, value)
}

/// A step on the way to what the window shows, and where it leads.
#[derive(Debug, PartialEq)]
pub struct BreadcrumbView {
    pub label: String,
    pub target: String,
}

pub struct BreadcrumbViewModel {
    pub label: Seq<char>,
    pub target: Seq<char>,
}

impl View for BreadcrumbView {
    type V = BreadcrumbViewModel;

    open spec fn view(&self) -> BreadcrumbViewModel {
        BreadcrumbViewModel {
            label: self.label@,
            target: self.target@,
        }
    }
}

/// The text without a prefix, however often it stands there.
pub open spec fn without_prefix(s: Seq<char>, prefix: Seq<char>) -> Seq<char>
    decreases s.len(),
{
    if prefix.len() > 0 && starts_with(s, prefix) {
        without_prefix(s.skip(prefix.len() as int), prefix)
    } else {
        s
    }
}

/// The screen that a step leads to.
pub open spec fn crumb_leads_to(backend: BackendModel, target: Seq<char>, screen: Option<Screen>) -> bool {
    if target == "home"@ {
        screen == Some(Screen::Home)
    } else if target == "search"@ {
        screen == Some(Screen::Search)
    } else if target == "library"@ {
        screen == Some(Screen::Library)
    } else if starts_with(target, "playlist:"@) {
        match parsed(
            without_prefix(target, "playlist:"@),
            i64::MIN as int,
            i64::MAX as int,
        ) {
            Some(n) => screen == Some(Screen::Playlist(n as i64)),
            None => screen is None,
        }
    } else {
        match named_artist(backend, target) {
            Some(key) => screen matches Some(Screen::Artist(k)) && k@ == key,
            None => screen is None,
        }
    }
}

pub fn breadcrumb_screen(backend: &BackendSnapshot, target: &str) -> (r: Option<Screen>)
    ensures
        crumb_leads_to(backend@, target@, r),
{
    if same_str(target, "home") {
        return Some(Screen::Home);
    }
    if same_str(target, "search") {
        return Some(Screen::Search);
    }
    if same_str(target, "library") {
        return Some(Screen::Library);
    }
    let prefix = chars_of("playlist:");
    proof {
        reveal_strlit("playlist:");
    }
    let mut chars = chars_of(target);
    if has_prefix(&chars, &prefix) {
        while has_prefix(&chars, &prefix)
            invariant
                prefix@ == "playlist:"@,
                prefix@.len() == 9,
                without_prefix(chars@, prefix@) == without_prefix(target@, prefix@),
            decreases chars.len(),
        {
            let mut rest: Vec<char> = Vec::new();
            let mut i: usize = 9;
            while i < chars.len()
                invariant
                    9 <= i <= chars.len(),
                    rest@ == chars@.subrange(9, i as int),
                decreases chars.len() - i,
            {
                rest.push(chars[i]);
                i += 1;
                assert(rest@ =~= chars@.subrange(9, i as int));
            }
            proof {
                assert(rest@ =~= chars@.skip(9));
            }
            chars = rest;
        }
        let len = chars.len();
        proof {
            assert(chars@.subrange(0, len as int) =~= chars@);
        }
        return match parse_i64(text_of(&chars, 0, len).as_str()) {
            Some(id) => Some(Screen::Playlist(id)),
            None => None,
        };
    }
    match find_artist_key(backend, target) {
        Some(key) => Some(Screen::Artist(key)),
        None => None,
    }
}

pub open spec fn way_on(label: Seq<char>, target: Seq<char>) -> BreadcrumbViewModel {
    BreadcrumbViewModel { label: label + " › "@, target }
}

pub open spec fn way_end(label: Seq<char>) -> BreadcrumbViewModel {
    BreadcrumbViewModel { label, target: ""@ }
}

/// The artist under whom the chosen release was opened, or else its first.
pub open spec fn release_way(release: Option<ReleaseModel>, preferred: Option<ArtistKeyModel>) -> Option<
    ArtistRefModel,
> {
    match release {
        None => None,
        Some(release) => {
            let chosen = match preferred {
                Some(key) => found(release.artists, goes_by(key)),
                None => None,
            };
            if chosen is Some {
                chosen
            } else if release.artists.len() > 0 {
                Some(release.artists[0])
            } else {
                None
            }
        },
    }
}

/// The way to what the window shows.
pub open spec fn way_to(backend: BackendModel, screen: Screen) -> Seq<BreadcrumbViewModel> {
    let home = way_on("Home"@, "home"@);
    match screen {
        Screen::Home => seq![way_end("Home"@)],
        Screen::Search => seq![home, way_end("Search"@)],
        Screen::Library => seq![home, way_end("Library"@)],
        Screen::Artist(_) => seq![
            home,
            way_end(
                match chosen_artist(backend, screen) {
                    Some(artist) => artist.name,
                    None => "Artist"@,
                },
            ),
        ],
        Screen::Release(_, preferred) => {
            let release = chosen_release(backend, screen);
            let end = way_end(
                match release {
                    Some(release) => release.title,
                    None => "Release"@,
                },
            );
            match release_way(release, opt_view(preferred)) {
                Some(artist) => seq![
                    home,
                    way_on(artist.name, artist_key_text(artist.key)),
                    end,
                ],
                None => seq![home, end],
            }
        },
        Screen::Playlist(_) => seq![
            home,
            way_end(
                match chosen_playlist(backend, screen) {
                    Some(playlist) => playlist.title,
                    None => "Playlist"@,
                },
            ),
        ],
    }
}

fn step_on(label: &str, target: String) -> (r: BreadcrumbView)
    ensures
        r@ == way_on(label@, target@),
{
    let mut text = label.to_owned();
    text.push_str(" › ");
    BreadcrumbView { label: text, target }
}

fn last_step(label: &str) -> (r: BreadcrumbView)
    ensures
        r@ == way_end(label@),
{
    BreadcrumbView { label: label.to_owned(), target: "".to_owned() }
}

pub fn breadcrumbs(backend: &BackendSnapshot, screen: &Screen) -> (r: Vec<BreadcrumbView>)
    ensures
        views(r@) == way_to(backend@, *screen),
{
    let mut r: Vec<BreadcrumbView> = Vec::new();
    if let Screen::Home = screen {
        r.push(last_step("Home"));
        assert(views(r@) =~= way_to(backend@, *screen));
        return r;
    }
    r.push(step_on("Home", "home".to_owned()));
    match screen {
        Screen::Home => {},
        Screen::Search => {
            r.push(last_step("Search"));
        },
        Screen::Library => {
            r.push(last_step("Library"));
        },
        Screen::Artist(_) => {
            r.push(
                match selected_artist(backend, screen) {
                    Some(artist) => last_step(artist.name.as_str()),
                    None => last_step("Artist"),
                },
            );
        },
        Screen::Release(_, preferred) => {
            match selected_release(backend, screen) {
                Some(release) => {
                    let chosen = match preferred {
                        Some(key) => find_credit(&release.artists, key),
                        None => None,
                    };
                    match chosen {
                        Some(artist) => {
                            r.push(step_on(artist.name.as_str(), format_artist_key(&artist.key)));
                        },
                        None => {
                            if release.artists.len() > 0 {
                                r.push(
                                    step_on(
                                        release.artists[0].name.as_str(),
                                        format_artist_key(&release.artists[0].key),
                                    ),
                                );
                            }
                        },
                    }
                    r.push(last_step(release.title.as_str()));
                },
                None => {
                    r.push(last_step("Release"));
                },
            }
        },
        Screen::Playlist(_) => {
            r.push(
                match selected_playlist(backend, screen) {
                    Some(playlist) => last_step(playlist.title.as_str()),
                    None => last_step("Playlist"),
                },
            );
        },
    }
    assert(views(r@) =~= way_to(backend@, *screen));
    r
}

} // verus!

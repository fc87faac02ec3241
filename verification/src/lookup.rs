//! Finding tracks, releases and artwork in everything the backend has seen.
use crate::api::{
    LibraryModel, LibrarySnapshot, PlaylistModel, PlaylistSnapshot, SearchResults,
    SearchResultsModel,
};
use crate::catalog::{
    ArtistRef, AudioSource, AudioSourceModel, Release, ReleaseKey, ReleaseKeyModel, ReleaseModel,
    Track, TrackKey, TrackKeyModel, TrackModel,
};
use crate::find::{first_where, found, lemma_first_where, lemma_found_in_both};
use crate::library::release_tracks;
use crate::merge::NameKeys;
use crate::names::{is_name_fn, key_of, keys_by};
use crate::queue::{item_tracks, QueueItem, QueueItemModel};
use crate::text::same_text;
use crate::views::{opt_view, views};
use vstd::prelude::*;

verus! {

broadcast use crate::views::group_views;

/// The view behind a reference that may be absent.
pub open spec fn ref_view<T: View>(o: Option<&T>) -> Option<T::V> {
    match o {
        Some(t) => Some(t@),
        None => None,
    }
}

pub open spec fn has_key(key: TrackKeyModel) -> spec_fn(TrackModel) -> bool {
    |track: TrackModel| track.key.matches(key)
}

pub open spec fn is_same_as(track: TrackModel) -> spec_fn(TrackModel) -> bool {
    |candidate: TrackModel| candidate.same_catalog_track(track)
}

pub open spec fn playlist_tracks(playlists: Seq<PlaylistModel>) -> Seq<TrackModel>
    decreases playlists.len(),
{
    if playlists.len() == 0 {
        Seq::empty()
    } else {
        playlist_tracks(playlists.drop_last()) + playlists.last().tracks
    }
}

/// Every track of the library and of the search results, in the order in which
/// they are asked.
pub open spec fn catalog_tracks(library: LibraryModel, search: SearchResultsModel) -> Seq<
    TrackModel,
> {
    release_tracks(library.featured_releases) + playlist_tracks(library.playlists)
        + release_tracks(search.releases) + search.tracks
}

pub(crate) fn find_in<'a, P: Fn(&Track) -> bool>(
    tracks: &'a Vec<Track>,
    p: &P,
    Ghost(model): Ghost<spec_fn(TrackModel) -> bool>,
) -> (r: Option<&'a Track>)
    requires
        forall|t: &Track| #[trigger] p.requires((t,)),
        forall|t: &Track, y: bool| #[trigger] p.ensures((t,), y) ==> y == model(t@),
    ensures
        ref_view(r) == found(views(tracks@), model),
{
    let mut i: usize = 0;
    while i < tracks.len()
        invariant
            forall|t: &Track| #[trigger] p.requires((t,)),
            forall|t: &Track, y: bool| #[trigger] p.ensures((t,), y) ==> y == model(t@),
            i <= tracks.len(),
            forall|j: int| 0 <= j < i ==> !model(#[trigger] views(tracks@)[j]),
        decreases tracks.len() - i,
    {
        if p(&tracks[i]) {
            proof {
                lemma_first_where(views(tracks@), model, i as int);
            }
            return Some(&tracks[i]);
        }
        i += 1;
    }
    proof {
        assert(views(tracks@).len() == i);
        lemma_first_where(views(tracks@), model, i as int);
    }
    None
}

pub(crate) fn find_in_releases<'a, P: Fn(&Track) -> bool>(
    releases: &'a Vec<Release>,
    p: &P,
    Ghost(model): Ghost<spec_fn(TrackModel) -> bool>,
) -> (r: Option<&'a Track>)
    requires
        forall|t: &Track| #[trigger] p.requires((t,)),
        forall|t: &Track, y: bool| #[trigger] p.ensures((t,), y) ==> y == model(t@),
    ensures
        ref_view(r) == found(release_tracks(views(releases@)), model),
{
    let ghost all = views(releases@);
    let mut i: usize = 0;
    while i < releases.len()
        invariant
            forall|t: &Track| #[trigger] p.requires((t,)),
            forall|t: &Track, y: bool| #[trigger] p.ensures((t,), y) ==> y == model(t@),
            i <= releases.len() == all.len(),
            all == views(releases@),
            found(release_tracks(all.take(i as int)), model) is None,
        decreases releases.len() - i,
    {
        proof {
            assert(all.take(i + 1).drop_last() =~= all.take(i as int));
            lemma_found_in_both(release_tracks(all.take(i as int)), all[i as int].tracks, model);
        }
        if let Some(track) = find_in(&releases[i].tracks, p, Ghost(model)) {
            proof {
                lemma_found_in_releases(all, model, i + 1);
            }
            return Some(track);
        }
        i += 1;
    }
    proof {
        assert(all.take(i as int) =~= all);
    }
    None
}

proof fn lemma_found_in_releases(all: Seq<ReleaseModel>, p: spec_fn(TrackModel) -> bool, n: int)
    requires
        0 <= n <= all.len(),
        found(release_tracks(all.take(n)), p) is Some,
    ensures
        found(release_tracks(all), p) == found(release_tracks(all.take(n)), p),
    decreases all.len() - n,
{
    if n == all.len() {
        assert(all.take(n) =~= all);
    } else {
        assert(all.take(n + 1).drop_last() =~= all.take(n));
        lemma_found_in_both(release_tracks(all.take(n)), all[n].tracks, p);
        lemma_found_in_releases(all, p, n + 1);
    }
}

pub(crate) fn find_in_playlists<'a, P: Fn(&Track) -> bool>(
    playlists: &'a Vec<PlaylistSnapshot>,
    p: &P,
    Ghost(model): Ghost<spec_fn(TrackModel) -> bool>,
) -> (r: Option<&'a Track>)
    requires
        forall|t: &Track| #[trigger] p.requires((t,)),
        forall|t: &Track, y: bool| #[trigger] p.ensures((t,), y) ==> y == model(t@),
    ensures
        ref_view(r) == found(playlist_tracks(views(playlists@)), model),
{
    let ghost all = views(playlists@);
    let mut i: usize = 0;
    while i < playlists.len()
        invariant
            forall|t: &Track| #[trigger] p.requires((t,)),
            forall|t: &Track, y: bool| #[trigger] p.ensures((t,), y) ==> y == model(t@),
            i <= playlists.len() == all.len(),
            all == views(playlists@),
            found(playlist_tracks(all.take(i as int)), model) is None,
        decreases playlists.len() - i,
    {
        proof {
            assert(all.take(i + 1).drop_last() =~= all.take(i as int));
            lemma_found_in_both(
                playlist_tracks(all.take(i as int)),
                all[i as int].tracks,
                model,
            );
        }
        if let Some(track) = find_in(&playlists[i].tracks, p, Ghost(model)) {
            proof {
                lemma_found_in_playlists(all, model, i + 1);
            }
            return Some(track);
        }
        i += 1;
    }
    proof {
        assert(all.take(i as int) =~= all);
    }
    None
}

proof fn lemma_found_in_playlists(all: Seq<PlaylistModel>, p: spec_fn(TrackModel) -> bool, n: int)
    requires
        0 <= n <= all.len(),
        found(playlist_tracks(all.take(n)), p) is Some,
    ensures
        found(playlist_tracks(all), p) == found(playlist_tracks(all.take(n)), p),
    decreases all.len() - n,
{
    if n == all.len() {
        assert(all.take(n) =~= all);
    } else {
        assert(all.take(n + 1).drop_last() =~= all.take(n));
        lemma_found_in_both(playlist_tracks(all.take(n)), all[n].tracks, p);
        lemma_found_in_playlists(all, p, n + 1);
    }
}

/// The first track of the catalog that goes by the key.
pub fn find_catalog_track<'a>(
    library: &'a LibrarySnapshot,
    search: &'a SearchResults,
    key: &TrackKey,
) -> (r: Option<&'a Track>)
    ensures
        ref_view(r) == found(catalog_tracks(library@, search@), has_key(key@)),
{
    let ghost model = has_key(key@);
    let p = |t: &Track| -> (y: bool)
        ensures
            y == model(t@),
        { t.key.matches(key) };
    proof {
        let a = release_tracks(library@.featured_releases);
        let b = playlist_tracks(library@.playlists);
        let c = release_tracks(search@.releases);
        lemma_found_in_both(a, b, model);
        lemma_found_in_both(a + b, c, model);
        lemma_found_in_both(a + b + c, search@.tracks, model);
    }
    if let Some(track) = find_in_releases(&library.featured_releases, &p, Ghost(model)) {
        return Some(track);
    }
    if let Some(track) = find_in_playlists(&library.playlists, &p, Ghost(model)) {
        return Some(track);
    }
    if let Some(track) = find_in_releases(&search.releases, &p, Ghost(model)) {
        return Some(track);
    }
    find_in(&search.tracks, &p, Ghost(model))
}

/// The first track of a list that goes by the key.
pub fn find_track<'a>(tracks: &'a Vec<Track>, key: &TrackKey) -> (r: Option<&'a Track>)
    ensures
        ref_view(r) == found(views(tracks@), has_key(key@)),
{
    let ghost model = has_key(key@);
    let p = |t: &Track| -> (y: bool)
        ensures
            y == model(t@),
        { t.key.matches(key) };
    find_in(tracks, &p, Ghost(model))
}

/// The first track of the queue that goes by the key.
pub fn find_queued<'a>(items: &'a [QueueItem], key: &TrackKey) -> (r: Option<&'a Track>)
    ensures
        ref_view(r) == found(item_tracks(views(items@)), has_key(key@)),
{
    let ghost all = item_tracks(views(items@));
    let mut i: usize = 0;
    while i < items.len()
        invariant
            i <= items.len() == all.len(),
            all == item_tracks(views(items@)),
            forall|j: int| 0 <= j < i ==> !has_key(key@)(#[trigger] all[j]),
        decreases items.len() - i,
    {
        if items[i].track.key.matches(key) {
            proof {
                lemma_first_where(all, has_key(key@), i as int);
            }
            return Some(&items[i].track);
        }
        i += 1;
    }
    proof {
        lemma_first_where(all, has_key(key@), i as int);
    }
    None
}

pub open spec fn has_release_key(key: ReleaseKeyModel) -> spec_fn(ReleaseModel) -> bool {
    |release: ReleaseModel| release.key == key
}

fn find_release_in<'a>(releases: &'a Vec<Release>, key: &ReleaseKey) -> (r: Option<&'a Release>)
    ensures
        ref_view(r) == found(views(releases@), has_release_key(key@)),
{
    let ghost all = views(releases@);
    let mut i: usize = 0;
    while i < releases.len()
        invariant
            i <= releases.len() == all.len(),
            all == views(releases@),
            forall|j: int| 0 <= j < i ==> !has_release_key(key@)(#[trigger] all[j]),
        decreases releases.len() - i,
    {
        if releases[i].key == *key {
            proof {
                lemma_first_where(all, has_release_key(key@), i as int);
            }
            return Some(&releases[i]);
        }
        i += 1;
    }
    proof {
        lemma_first_where(all, has_release_key(key@), i as int);
    }
    None
}

/// The release under the key: the library's, else the search's.
pub fn find_catalog_release<'a>(
    library: &'a LibrarySnapshot,
    search: &'a SearchResults,
    key: &ReleaseKey,
) -> (r: Option<&'a Release>)
    ensures
        ref_view(r) == found(
            library@.featured_releases + search@.releases,
            has_release_key(key@),
        ),
{
    proof {
        lemma_found_in_both(
            library@.featured_releases,
            search@.releases,
            has_release_key(key@),
        );
    }
    if let Some(release) = find_release_in(&library.featured_releases, key) {
        return Some(release);
    }
    find_release_in(&search.releases, key)
}

/// The position of the selected track, or the first where it is not there.
pub fn selected_track_position(tracks: &Vec<Track>, selected: &TrackKey) -> (r: usize)
    ensures
        ({
            let i = first_where(views(tracks@), has_key(selected@));
            r == if i < tracks.len() {
                i
            } else {
                0
            }
        }),
{
    let ghost all = views(tracks@);
    let mut i: usize = 0;
    while i < tracks.len()
        invariant
            i <= tracks.len() == all.len(),
            all == views(tracks@),
            forall|j: int| 0 <= j < i ==> !has_key(selected@)(#[trigger] all[j]),
        decreases tracks.len() - i,
    {
        if tracks[i].key.matches(selected) {
            proof {
                lemma_first_where(all, has_key(selected@), i as int);
            }
            return i;
        }
        i += 1;
    }
    proof {
        lemma_first_where(all, has_key(selected@), i as int);
    }
    0
}

/// The peer that can be asked for a track's artwork.
pub open spec fn artwork_peer(track: TrackModel) -> Option<Seq<char>> {
    match (track.audio_source, track.key.federation_identity) {
        (AudioSourceModel::Federation { peer_id, .. }, Some((owner, _))) => if peer_id.len() > 0 {
            Some(peer_id)
        } else {
            Some(owner)
        },
        (AudioSourceModel::Federation { peer_id, .. }, None) => if peer_id.len() > 0 {
            Some(peer_id)
        } else {
            None
        },
        (_, Some((owner, _))) => Some(owner),
        (_, None) => None,
    }
}

/// The artist a track's artwork is filed under.
pub open spec fn artwork_artist(track: TrackModel) -> Option<Seq<char>> {
    if track.artists.len() > 0 {
        Some(track.artists[0].name)
    } else if track.artist.len() > 0 {
        Some(track.artist)
    } else {
        None
    }
}

/// What groups the tracks that share their artwork: the peer, the artist and
/// the release.
pub open spec fn artwork_request(keys: NameKeys, track: TrackModel) -> Option<Seq<char>> {
    match (artwork_peer(track), artwork_artist(track)) {
        (Some(peer), Some(artist)) => if track.release.len() > 0 {
            Some(peer + "|"@ + keys(artist) + "|"@ + keys(track.release))
        } else {
            None
        },
        _ => None,
    }
}

pub fn queue_artwork_request_id<F: Fn(&str) -> String>(track: &Track, names: &F) -> (r: Option<
    String,
>)
    requires
        is_name_fn(names),
    ensures
        opt_view(r) == artwork_request(keys_by(names), track@),
{
    let mut peer: Option<String> = match track.key.federation_id() {
        Some((owner, _)) => Some(owner.to_owned()),
        None => None,
    };
    if let AudioSource::Federation { peer_id, .. } = &track.audio_source {
        if !peer_id.as_str().is_empty() {
            peer = Some(peer_id.clone());
        }
    }
    let artist: Option<String> = if track.artists.len() > 0 {
        Some(track.artists[0].name.clone())
    } else if !track.artist.as_str().is_empty() {
        Some(track.artist.clone())
    } else {
        None
    };
    match (peer, artist) {
        (Some(peer), Some(artist)) => {
            if track.release.as_str().is_empty() {
                return None;
            }
            let mut r = peer;
            r.push_str("|");
            r.push_str(key_of(names, artist.as_str()).as_str());
            r.push_str("|");
            r.push_str(key_of(names, track.release.as_str()).as_str());
            Some(r)
        },
        _ => None,
    }
}

/// Whether one of the main artists of `a` is credited the same way on `b`.
pub open spec fn shares_artist(a: TrackModel, b: TrackModel) -> bool {
    exists|i: int| 0 <= i < a.artists.len() && b.artists.contains(#[trigger] a.artists[i])
}

/// Whether a release is the one a track belongs to: by key, or by a title that
/// counts as the same and a track that is the same or by one of its artists.
pub open spec fn belongs_to(keys: NameKeys, track: TrackModel, release: ReleaseModel) -> bool {
    release.key == track.release_id || (keys(release.title) == keys(track.release) && exists|i: int|
        0 <= i < release.tracks.len() && ((#[trigger] release.tracks[i]).same_catalog_track(track)
            || shares_artist(release.tracks[i], track)))
}

/// The artwork a release has for a track: its own where the track belongs to
/// it, else that of the same track on it.
pub open spec fn cover_from_release(
    keys: NameKeys,
    release: ReleaseModel,
    track: TrackModel,
) -> Option<Seq<char>> {
    if belongs_to(keys, track, release) && release.artwork is Some {
        release.artwork
    } else {
        match found(release.tracks, is_same_as(track)) {
            Some(candidate) => candidate.cover_uri,
            None => None,
        }
    }
}

/// The artwork of the first release that has any for the track.
pub open spec fn cover_from_releases(
    keys: NameKeys,
    releases: Seq<ReleaseModel>,
    track: TrackModel,
) -> Option<Seq<char>>
    decreases releases.len(),
{
    if releases.len() == 0 {
        None
    } else if cover_from_releases(keys, releases.drop_last(), track) is Some {
        cover_from_releases(keys, releases.drop_last(), track)
    } else {
        cover_from_release(keys, releases.last(), track)
    }
}

/// A queued track that has artwork and shares it with `track`.
pub open spec fn shares_artwork(keys: NameKeys, track: TrackModel) -> spec_fn(TrackModel) -> bool {
    |queued: TrackModel|
        queued.cover_uri is Some && artwork_request(keys, queued) == artwork_request(keys, track)
}

/// The artwork that is already known for a track: from its release, from a
/// queued track that shares it, or from the same track elsewhere.
pub open spec fn known_cover(
    keys: NameKeys,
    library: LibraryModel,
    search: SearchResultsModel,
    queue: Seq<QueueItemModel>,
    track: TrackModel,
) -> Option<Seq<char>> {
    let from_release = cover_from_releases(
        keys,
        library.featured_releases + search.releases,
        track,
    );
    let from_queue = if artwork_request(keys, track) is Some {
        match found(item_tracks(queue), shares_artwork(keys, track)) {
            Some(queued) => queued.cover_uri,
            None => None,
        }
    } else {
        None
    };
    let elsewhere = found(
        playlist_tracks(library.playlists) + library.recently_played + search.tracks,
        is_same_as(track),
    );
    if from_release is Some {
        from_release
    } else if from_queue is Some {
        from_queue
    } else {
        match elsewhere {
            Some(candidate) => candidate.cover_uri,
            None => None,
        }
    }
}

fn has_ref(artists: &Vec<ArtistRef>, artist: &ArtistRef) -> (r: bool)
    ensures
        r == views(artists@).contains(artist@),
{
    let mut i: usize = 0;
    while i < artists.len()
        invariant
            i <= artists.len(),
            forall|j: int| 0 <= j < i ==> #[trigger] views(artists@)[j] != artist@,
        decreases artists.len() - i,
    {
        if artists[i].key == artist.key && artists[i].name == artist.name {
            assert(views(artists@)[i as int] == artist@);
            return true;
        }
        i += 1;
    }
    false
}

fn share_artist(a: &Track, b: &Track) -> (r: bool)
    ensures
        r == shares_artist(a@, b@),
{
    let mut i: usize = 0;
    while i < a.artists.len()
        invariant
            i <= a.artists.len(),
            forall|j: int| 0 <= j < i ==> !b@.artists.contains(#[trigger] a@.artists[j]),
        decreases a.artists.len() - i,
    {
        if has_ref(&b.artists, &a.artists[i]) {
            assert(b@.artists.contains(a@.artists[i as int]));
            return true;
        }
        i += 1;
    }
    false
}

fn is_on_release<F: Fn(&str) -> String>(track: &Track, release: &Release, names: &F) -> (r: bool)
    requires
        is_name_fn(names),
    ensures
        r == belongs_to(keys_by(names), track@, release@),
{
    if release.key == track.release_id {
        return true;
    }
    if key_of(names, release.title.as_str()) != key_of(names, track.release.as_str()) {
        return false;
    }
    let mut i: usize = 0;
    while i < release.tracks.len()
        invariant
            keys_by(names)(release@.title) == keys_by(names)(track@.release),
            i <= release.tracks.len(),
            forall|j: int|
                0 <= j < i ==> !((#[trigger] release@.tracks[j]).same_catalog_track(track@)
                    || shares_artist(release@.tracks[j], track@)),
        decreases release.tracks.len() - i,
    {
        if release.tracks[i].same_catalog_track(track) || share_artist(&release.tracks[i], track) {
            assert(release@.tracks[i as int].same_catalog_track(track@) || shares_artist(
                release@.tracks[i as int],
                track@,
            ));
            return true;
        }
        i += 1;
    }
    false
}

fn release_cover<F: Fn(&str) -> String>(release: &Release, track: &Track, names: &F) -> (r: Option<
    String,
>)
    requires
        is_name_fn(names),
    ensures
        opt_view(r) == cover_from_release(keys_by(names), release@, track@),
{
    if release.artwork.uri.is_some() && is_on_release(track, release, names) {
        return release.artwork.uri.clone();
    }
    let ghost model = is_same_as(track@);
    let p = |t: &Track| -> (y: bool)
        ensures
            y == model(t@),
        { t.same_catalog_track(track) };
    match find_in(&release.tracks, &p, Ghost(model)) {
        Some(candidate) => candidate.cover_uri.clone(),
        None => None,
    }
}

proof fn lemma_cover_found(
    keys: NameKeys,
    all: Seq<ReleaseModel>,
    track: TrackModel,
    n: int,
)
    requires
        0 <= n <= all.len(),
        cover_from_releases(keys, all.take(n), track) is Some,
    ensures
        cover_from_releases(keys, all, track) == cover_from_releases(keys, all.take(n), track),
    decreases all.len() - n,
{
    if n == all.len() {
        assert(all.take(n) =~= all);
    } else {
        assert(all.take(n + 1).drop_last() =~= all.take(n));
        lemma_cover_found(keys, all, track, n + 1);
    }
}

fn releases_cover<F: Fn(&str) -> String>(
    releases: &Vec<Release>,
    track: &Track,
    names: &F,
    Ghost(before): Ghost<Seq<ReleaseModel>>,
    Ghost(after): Ghost<Seq<ReleaseModel>>,
) -> (r: Option<String>)
    requires
        is_name_fn(names),
        cover_from_releases(keys_by(names), before, track@) is None,
    ensures
        opt_view(r) == cover_from_releases(keys_by(names), before + views(releases@), track@),
        r is Some ==> opt_view(r) == cover_from_releases(
            keys_by(names),
            before + views(releases@) + after,
            track@,
        ),
{
    let ghost keys = keys_by(names);
    let ghost all = before + views(releases@);
    let mut i: usize = 0;
    proof {
        assert(all.take(before.len() as int) =~= before);
    }
    while i < releases.len()
        invariant
            is_name_fn(names),
            keys == keys_by(names),
            i <= releases.len(),
            all == before + views(releases@),
            cover_from_releases(keys, all.take(before.len() + i), track@) is None,
        decreases releases.len() - i,
    {
        let ghost n = before.len() + i;
        proof {
            assert(all.take(n + 1).drop_last() =~= all.take(n as int));
            assert(all[n as int] == releases@[i as int]@);
        }
        let cover = release_cover(&releases[i], track, names);
        if cover.is_some() {
            proof {
                lemma_cover_found(keys, all, track@, n + 1);
                assert((all + after).take(n + 1) =~= all.take(n + 1));
                lemma_cover_found(keys, all + after, track@, n + 1);
            }
            return cover;
        }
        i += 1;
    }
    proof {
        assert(all.take((before.len() + i) as int) =~= all);
    }
    None
}

fn queued_cover<F: Fn(&str) -> String>(items: &[QueueItem], track: &Track, names: &F) -> (r: Option<
    String,
>)
    requires
        is_name_fn(names),
    ensures
        opt_view(r) == (if artwork_request(keys_by(names), track@) is Some {
            match found(
                item_tracks(views(items@)),
                shares_artwork(keys_by(names), track@),
            ) {
                Some(queued) => queued.cover_uri,
                None => None,
            }
        } else {
            None
        }),
{
    let request_id = queue_artwork_request_id(track, names);
    if request_id.is_none() {
        return None;
    }
    let ghost all = item_tracks(views(items@));
    let ghost p = shares_artwork(keys_by(names), track@);
    let mut i: usize = 0;
    while i < items.len()
        invariant
            is_name_fn(names),
            p == shares_artwork(keys_by(names), track@),
            request_id is Some,
            opt_view(request_id) == artwork_request(keys_by(names), track@),
            i <= items.len() == all.len(),
            all == item_tracks(views(items@)),
            forall|j: int| 0 <= j < i ==> !p(#[trigger] all[j]),
        decreases items.len() - i,
    {
        if items[i].track.cover_uri.is_some() {
            let other = queue_artwork_request_id(&items[i].track, names);
            if same_text(&other, &request_id) {
                proof {
                    lemma_first_where(all, p, i as int);
                }
                return items[i].track.cover_uri.clone();
            }
        }
        i += 1;
    }
    proof {
        lemma_first_where(all, p, i as int);
    }
    None
}

/// The artwork already known for a track.
pub fn known_cover_uri<F: Fn(&str) -> String>(
    library: &LibrarySnapshot,
    search: &SearchResults,
    queue: &[QueueItem],
    track: &Track,
    names: &F,
) -> (r: Option<String>)
    requires
        is_name_fn(names),
    ensures
        opt_view(r) == known_cover(keys_by(names), library@, search@, views(queue@), track@),
{
    proof {
        assert(Seq::<ReleaseModel>::empty() + library@.featured_releases
            =~= library@.featured_releases);
    }
    let from_library = releases_cover(
        &library.featured_releases,
        track,
        names,
        Ghost(Seq::empty()),
        Ghost(search@.releases),
    );
    if from_library.is_some() {
        return from_library;
    }
    let from_search = releases_cover(
        &search.releases,
        track,
        names,
        Ghost(library@.featured_releases),
        Ghost(Seq::empty()),
    );
    if from_search.is_some() {
        return from_search;
    }
    let from_queue = queued_cover(queue, track, names);
    if from_queue.is_some() {
        return from_queue;
    }
    let ghost model = is_same_as(track@);
    let p = |t: &Track| -> (y: bool)
        ensures
            y == model(t@),
        { t.same_catalog_track(track) };
    proof {
        let a = playlist_tracks(library@.playlists);
        lemma_found_in_both(a, library@.recently_played, model);
        lemma_found_in_both(a + library@.recently_played, search@.tracks, model);
    }
    if let Some(candidate) = find_in_playlists(&library.playlists, &p, Ghost(model)) {
        return candidate.cover_uri.clone();
    }
    if let Some(candidate) = find_in(&library.recently_played, &p, Ghost(model)) {
        return candidate.cover_uri.clone();
    }
    match find_in(&search.tracks, &p, Ghost(model)) {
        Some(candidate) => candidate.cover_uri.clone(),
        None => None,
    }
}

} // verus!

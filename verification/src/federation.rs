//! What peers publish, turned into the catalog the listener sees.
use crate::api::{SearchResults, SearchResultsModel, SearchStats};
use crate::catalog::{
    Artist, ArtistKey, ArtistKeyModel, ArtistModel, ArtistRef, ArtistRefModel, Artwork, AudioSource,
    AudioSourceModel, CatalogSource, CatalogSourceModel, ContentId, Release, ReleaseKey,
    ReleaseKeyModel, ReleaseModel, Track, TrackKey, TrackKeyModel, TrackModel,
};
use crate::find::{first_where, lemma_first_where, lemma_first_where_is};
use crate::library::noted_content;
use crate::merge::{populate_release_contributors, populated, NameKeys};
use crate::names::{is_name_fn, key_of, keys_by};
use crate::sort::{lemma_sorted_views, sorting_is_a_permutation, stable_sort, stable_sorted};
use crate::text::{ascii_lower, join, joined, same_str, str_lt, text_lt};
use crate::views::{opt_view, views};
use crate::wire::{name_id, name_id_of, to_u32, widen_u32};
use vstd::prelude::*;

verus! {

broadcast use crate::views::group_views;

/// A track as a peer lists it in its catalog.
#[derive(Debug, PartialEq)]
pub struct CatalogTrack {
    pub item_id: String,
    pub title: String,
    pub artists: Vec<String>,
    pub featured_artists: Vec<String>,
    pub duration_nanos: Option<u64>,
    pub track_number: Option<i32>,
    pub disc_number: Option<i32>,
    pub content_id: Option<String>,
}

pub struct CatalogTrackModel {
    pub item_id: Seq<char>,
    pub title: Seq<char>,
    pub artists: Seq<Seq<char>>,
    pub featured_artists: Seq<Seq<char>>,
    pub duration_nanos: Option<u64>,
    pub track_number: Option<i32>,
    pub disc_number: Option<i32>,
    pub content_id: Option<Seq<char>>,
}

impl View for CatalogTrack {
    type V = CatalogTrackModel;

    open spec fn view(&self) -> CatalogTrackModel {
        CatalogTrackModel {
            item_id: self.item_id@,
            title: self.title@,
            artists: views(self.artists@),
            featured_artists: views(self.featured_artists@),
            duration_nanos: self.duration_nanos,
            track_number: self.track_number,
            disc_number: self.disc_number,
            content_id: opt_view(self.content_id),
        }
    }
}

/// A release as a peer lists it in its catalog.
#[derive(Debug, PartialEq)]
pub struct CatalogRelease {
    pub title: String,
    pub release_type: String,
    pub year: Option<i32>,
    pub tracks: Vec<CatalogTrack>,
}

pub struct CatalogReleaseModel {
    pub title: Seq<char>,
    pub release_type: Seq<char>,
    pub year: Option<i32>,
    pub tracks: Seq<CatalogTrackModel>,
}

impl View for CatalogRelease {
    type V = CatalogReleaseModel;

    open spec fn view(&self) -> CatalogReleaseModel {
        CatalogReleaseModel {
            title: self.title@,
            release_type: self.release_type@,
            year: self.year,
            tracks: views(self.tracks@),
        }
    }
}

/// A track of another artist's release.
#[derive(Debug, PartialEq)]
pub struct CatalogAppearance {
    pub release_title: String,
    pub track: CatalogTrack,
}

pub struct CatalogAppearanceModel {
    pub release_title: Seq<char>,
    pub track: CatalogTrackModel,
}

impl View for CatalogAppearance {
    type V = CatalogAppearanceModel;

    open spec fn view(&self) -> CatalogAppearanceModel {
        CatalogAppearanceModel {
            release_title: self.release_title@,
            track: self.track@,
        }
    }
}

/// What a peer has of one artist.
#[derive(Debug, PartialEq)]
pub struct CatalogArtist {
    pub releases: Vec<CatalogRelease>,
    pub appears_on: Vec<CatalogAppearance>,
}

pub struct CatalogArtistModel {
    pub releases: Seq<CatalogReleaseModel>,
    pub appears_on: Seq<CatalogAppearanceModel>,
}

impl View for CatalogArtist {
    type V = CatalogArtistModel;

    open spec fn view(&self) -> CatalogArtistModel {
        CatalogArtistModel {
            releases: views(self.releases@),
            appears_on: views(self.appears_on@),
        }
    }
}

#[derive(Debug, Clone, Copy, PartialEq, Eq, Structural)]
pub enum ItemKind {
    Artist,
    Release,
    Track,
}

/// An entry that a peer publishes.
#[derive(Debug, PartialEq)]
pub struct LibraryItem {
    pub owner: String,
    pub id: String,
    pub kind: ItemKind,
    pub name: String,
    pub normalized_name: String,
    pub artist_names: Vec<String>,
    pub featured_artist_names: Vec<String>,
    pub release_type: Option<String>,
    pub release_title: Option<String>,
    pub year: Option<i32>,
    pub duration_nanos: Option<u64>,
    pub track_number: Option<i32>,
    pub disc_number: Option<i32>,
    pub content_id: Option<String>,
}

pub struct LibraryItemModel {
    pub owner: Seq<char>,
    pub id: Seq<char>,
    pub kind: ItemKind,
    pub name: Seq<char>,
    pub normalized_name: Seq<char>,
    pub artist_names: Seq<Seq<char>>,
    pub featured_artist_names: Seq<Seq<char>>,
    pub release_type: Option<Seq<char>>,
    pub release_title: Option<Seq<char>>,
    pub year: Option<i32>,
    pub duration_nanos: Option<u64>,
    pub track_number: Option<i32>,
    pub disc_number: Option<i32>,
    pub content_id: Option<Seq<char>>,
}

impl View for LibraryItem {
    type V = LibraryItemModel;

    open spec fn view(&self) -> LibraryItemModel {
        LibraryItemModel {
            owner: self.owner@,
            id: self.id@,
            kind: self.kind,
            name: self.name@,
            normalized_name: self.normalized_name@,
            artist_names: views(self.artist_names@),
            featured_artist_names: views(self.featured_artist_names@),
            release_type: opt_view(self.release_type),
            release_title: opt_view(self.release_title),
            year: self.year,
            duration_nanos: self.duration_nanos,
            track_number: self.track_number,
            disc_number: self.disc_number,
            content_id: opt_view(self.content_id),
        }
    }
}

/// The content identifier of tracks whose content nobody has told.
pub open spec fn unknown_content() -> Seq<char> {
    "b3:0000000000000000000000000000000000000000000000000000000000000000"@
}

/// Main and featured artists in one line.
pub open spec fn credit_line(main: Seq<Seq<char>>, featured: Seq<Seq<char>>) -> Seq<char> {
    let line = joined(main, ", "@);
    if featured.len() == 0 {
        line
    } else if line.len() == 0 {
        joined(featured, ", "@)
    } else {
        line + " feat. "@ + joined(featured, ", "@)
    }
}

/// One credit per name, under the peer's keys.
pub open spec fn peer_refs(keys: NameKeys, peer: Seq<char>, names: Seq<Seq<char>>) -> Seq<
    ArtistRefModel,
> {
    Seq::new(
        names.len(),
        |i: int|
            ArtistRefModel {
                key: ArtistKeyModel::Federation { peer_id: peer, id: keys(names[i]) },
                name: names[i],
            },
    )
}

pub open spec fn or_zero(n: Option<u64>) -> u64 {
    match n {
        Some(n) => n,
        None => 0,
    }
}

pub open spec fn or_empty(s: Option<Seq<char>>) -> Seq<char> {
    match s {
        Some(s) => s,
        None => Seq::empty(),
    }
}

/// What a listed track looks like in the catalog.
pub open spec fn listed_track(
    keys: NameKeys,
    peer: Seq<char>,
    item: CatalogTrackModel,
    release: Seq<char>,
    release_id: ReleaseKeyModel,
    cover_uri: Option<Seq<char>>,
) -> TrackModel {
    TrackModel {
        key: TrackKeyModel {
            local_id: None,
            content_id: noted_content(item.content_id),
            federation_identity: Some((peer, item.item_id)),
        },
        title: item.title,
        artist: credit_line(item.artists, item.featured_artists),
        artists: peer_refs(keys, peer, item.artists),
        featured_artists: peer_refs(keys, peer, item.featured_artists),
        release,
        release_id,
        duration_nanos: or_zero(item.duration_nanos),
        track_number: widen_u32(item.track_number),
        disc_number: widen_u32(item.disc_number),
        cover_uri,
        audio_format: None,
        audio_bitrate_kbps: None,
        audio_sample_rate_hz: None,
        audio_bit_depth: None,
        file_size_bytes: None,
        liked: false,
        audio_source: AudioSourceModel::Federation {
            peer_id: peer,
            content_id: match noted_content(item.content_id) {
                Some(id) => id,
                None => unknown_content(),
            },
        },
    }
}

/// Whether a release goes by a title that counts as `title`.
pub open spec fn titled(keys: NameKeys, title: Seq<char>) -> spec_fn(ReleaseModel) -> bool {
    |release: ReleaseModel| keys(release.title) == keys(title)
}

pub open spec fn has_title(keys: NameKeys, tracks: Seq<TrackModel>, title: Seq<char>) -> bool {
    exists|i: int| 0 <= i < tracks.len() && keys((#[trigger] tracks[i]).title) == keys(title)
}

/// A release that a peer lists, before its tracks are.
pub open spec fn opened_release(
    keys: NameKeys,
    name: Seq<char>,
    peer: Seq<char>,
    remote: CatalogReleaseModel,
) -> ReleaseModel {
    ReleaseModel {
        key: ReleaseKeyModel::Federation { peer_id: peer, id: name_id(keys, remote.title) },
        source: CatalogSourceModel::Federation { peer_id: peer },
        title: remote.title,
        artists: peer_refs(keys, peer, seq![name]),
        featured_artists: Seq::empty(),
        release_type: remote.release_type,
        year: remote.year,
        artwork: None,
        tracks: Seq::empty(),
    }
}

/// The results with one more track on the release at `slot`, unless the track
/// cannot be asked for or the release has one of that title.
pub open spec fn with_listed_track(
    keys: NameKeys,
    peer: Seq<char>,
    results: SearchResultsModel,
    slot: int,
    item: CatalogTrackModel,
) -> SearchResultsModel {
    let release = results.releases[slot];
    if has_title(keys, release.tracks, item.title) || item.item_id.len() == 0 {
        results
    } else {
        let track = listed_track(keys, peer, item, release.title, release.key, release.artwork);
        SearchResultsModel {
            releases: results.releases.update(
                slot,
                ReleaseModel { tracks: release.tracks.push(track), ..release },
            ),
            tracks: results.tracks.push(track),
            ..results
        }
    }
}

pub open spec fn with_listed_tracks(
    keys: NameKeys,
    peer: Seq<char>,
    results: SearchResultsModel,
    slot: int,
    items: Seq<CatalogTrackModel>,
) -> SearchResultsModel
    decreases items.len(),
{
    if items.len() == 0 {
        results
    } else {
        with_listed_track(
            keys,
            peer,
            with_listed_tracks(keys, peer, results, slot, items.drop_last()),
            slot,
            items.last(),
        )
    }
}

/// The results with what a peer lists of one release: its tracks join the
/// release of that title, which is opened where there is none.
pub open spec fn with_listed_release(
    keys: NameKeys,
    name: Seq<char>,
    peer: Seq<char>,
    results: SearchResultsModel,
    remote: CatalogReleaseModel,
) -> SearchResultsModel {
    let slot = first_where(results.releases, titled(keys, remote.title));
    let opened = if slot < results.releases.len() {
        results
    } else {
        SearchResultsModel {
            releases: results.releases.push(opened_release(keys, name, peer, remote)),
            ..results
        }
    };
    with_listed_tracks(keys, peer, opened, slot, remote.tracks)
}

pub open spec fn with_listed_releases(
    keys: NameKeys,
    name: Seq<char>,
    peer: Seq<char>,
    results: SearchResultsModel,
    releases: Seq<CatalogReleaseModel>,
) -> SearchResultsModel
    decreases releases.len(),
{
    if releases.len() == 0 {
        results
    } else {
        with_listed_release(
            keys,
            name,
            peer,
            with_listed_releases(keys, name, peer, results, releases.drop_last()),
            releases.last(),
        )
    }
}

/// The tracks with those that the artist appears on, except such as cannot be
/// asked for.
pub open spec fn with_appearances(
    keys: NameKeys,
    peer: Seq<char>,
    tracks: Seq<TrackModel>,
    appearances: Seq<CatalogAppearanceModel>,
) -> Seq<TrackModel>
    decreases appearances.len(),
{
    if appearances.len() == 0 {
        tracks
    } else {
        let before = with_appearances(keys, peer, tracks, appearances.drop_last());
        let appearance = appearances.last();
        if appearance.track.item_id.len() == 0 {
            before
        } else {
            before.push(
                listed_track(
                    keys,
                    peer,
                    appearance.track,
                    appearance.release_title,
                    ReleaseKeyModel::Federation {
                        peer_id: peer,
                        id: name_id(keys, appearance.release_title),
                    },
                    None,
                ),
            )
        }
    }
}

/// The results with all that one peer has of the artist.
pub open spec fn with_catalog(
    keys: NameKeys,
    name: Seq<char>,
    results: SearchResultsModel,
    peer: Seq<char>,
    catalog: CatalogArtistModel,
) -> SearchResultsModel {
    let listed = with_listed_releases(keys, name, peer, results, catalog.releases);
    SearchResultsModel {
        tracks: with_appearances(keys, peer, listed.tracks, catalog.appears_on),
        ..listed
    }
}

pub open spec fn with_catalogs(
    keys: NameKeys,
    name: Seq<char>,
    results: SearchResultsModel,
    catalogs: Seq<(Seq<char>, CatalogArtistModel)>,
) -> SearchResultsModel
    decreases catalogs.len(),
{
    if catalogs.len() == 0 {
        results
    } else {
        with_catalog(
            keys,
            name,
            with_catalogs(keys, name, results, catalogs.drop_last()),
            catalogs.last().0,
            catalogs.last().1,
        )
    }
}

pub open spec fn no_results() -> SearchResultsModel {
    SearchResultsModel { artists: Seq::empty(), releases: Seq::empty(), tracks: Seq::empty() }
}

pub open spec fn all_populated(keys: NameKeys, releases: Seq<ReleaseModel>) -> Seq<ReleaseModel> {
    Seq::new(releases.len(), |i: int| populated(keys, releases[i]))
}

/// The card of an artist: the artist under the key of the first peer that
/// answered, with the releases and tracks of all of them.
pub open spec fn card(
    keys: NameKeys,
    name: Seq<char>,
    catalogs: Seq<(Seq<char>, CatalogArtistModel)>,
) -> SearchResultsModel {
    let found = with_catalogs(keys, name, no_results(), catalogs);
    SearchResultsModel {
        artists: if catalogs.len() == 0 {
            Seq::empty()
        } else {
            seq![
                ArtistModel {
                    key: ArtistKeyModel::Federation { peer_id: catalogs[0].0, id: keys(name) },
                    source: CatalogSourceModel::Federation { peer_id: catalogs[0].0 },
                    name,
                    artwork: None,
                    release_count: found.releases.len() as usize,
                    track_count: found.tracks.len() as usize,
                },
            ]
        },
        releases: all_populated(keys, found.releases),
        tracks: found.tracks,
    }
}

/// Main and featured artists in one line.
pub fn artist_line(main: &Vec<String>, featured: &Vec<String>) -> (r: String)
    ensures
        r@ == credit_line(views(main@), views(featured@)),
{
    let mut line = join(main, ", ");
    if featured.len() > 0 {
        if !line.as_str().is_empty() {
            line.push_str(" feat. ");
        }
        line.push_str(join(featured, ", ").as_str());
        proof {
            let featured = joined(views(featured@), ", "@);
            assert(Seq::<char>::empty() + featured =~= featured);
        }
    }
    line
}

/// One credit per name, under the peer's keys.
pub fn artist_refs<F: Fn(&str) -> String>(peer: &str, artists: &Vec<String>, names: &F) -> (r: Vec<
    ArtistRef,
>)
    requires
        is_name_fn(names),
    ensures
        views(r@) == peer_refs(keys_by(names), peer@, views(artists@)),
{
    let ghost keys = keys_by(names);
    let mut r: Vec<ArtistRef> = Vec::new();
    let mut i: usize = 0;
    while i < artists.len()
        invariant
            is_name_fn(names),
            keys == keys_by(names),
            i <= artists.len(),
            views(r@) == peer_refs(keys, peer@, views(artists@)).take(i as int),
        decreases artists.len() - i,
    {
        let reference = ArtistRef {
            key: ArtistKey::Federation {
                peer_id: peer.to_owned(),
                id: key_of(names, artists[i].as_str()),
            },
            name: artists[i].clone(),
        };
        r.push(reference);
        i += 1;
        proof {
            assert(views(r@) =~= peer_refs(keys, peer@, views(artists@)).take(i as int));
        }
    }
    proof {
        assert(views(r@) =~= peer_refs(keys, peer@, views(artists@)));
    }
    r
}

pub(crate) fn content_given(id: &Option<String>) -> (r: Option<ContentId>)
    ensures
        opt_view(r) == noted_content(opt_view(*id)),
{
    match id {
        Some(id) => match ContentId::parse(id.as_str()) {
            Ok(id) => Some(id),
            Err(_) => None,
        },
        None => None,
    }
}

fn content_or_unknown(id: Option<ContentId>) -> (r: ContentId)
    ensures
        r@ == (match id {
            Some(id) => id@,
            None => unknown_content(),
        }),
{
    match id {
        Some(id) => id,
        None => {
            proof {
                reveal_strlit("b3:0000000000000000000000000000000000000000000000000000000000000000");
                assert(ascii_lower(unknown_content()) =~= unknown_content());
            }
            ContentId::parse("b3:0000000000000000000000000000000000000000000000000000000000000000").unwrap()
        },
    }
}

fn track_of_listing<F: Fn(&str) -> String>(
    peer: &str,
    item: CatalogTrack,
    release: String,
    release_id: ReleaseKey,
    cover_uri: Option<String>,
    names: &F,
) -> (r: Track)
    requires
        is_name_fn(names),
    ensures
        r@ == listed_track(
            keys_by(names),
            peer@,
            item@,
            release@,
            release_id@,
            opt_view(cover_uri),
        ),
{
    let content_id = content_given(&item.content_id);
    Track {
        key: TrackKey::federation(peer.to_owned(), item.item_id, content_id.clone()),
        title: item.title,
        artist: artist_line(&item.artists, &item.featured_artists),
        artists: artist_refs(peer, &item.artists, names),
        featured_artists: artist_refs(peer, &item.featured_artists, names),
        release,
        release_id,
        duration_nanos: item.duration_nanos.unwrap_or(0),
        track_number: to_u32(item.track_number),
        disc_number: to_u32(item.disc_number),
        cover_uri,
        audio_format: None,
        audio_bitrate_kbps: None,
        audio_sample_rate_hz: None,
        audio_bit_depth: None,
        file_size_bytes: None,
        liked: false,
        audio_source: AudioSource::Federation {
            peer_id: peer.to_owned(),
            content_id: content_or_unknown(content_id),
        },
    }
}
fn lists_title<F: Fn(&str) -> String>(tracks: &Vec<Track>, title: &str, names: &F) -> (r: bool)
    requires
        is_name_fn(names),
    ensures
        r == has_title(keys_by(names), views(tracks@), title@),
{
    let ghost keys = keys_by(names);
    let ghost all = views(tracks@);
    let wanted = key_of(names, title);
    let mut i: usize = 0;
    while i < tracks.len()
        invariant
            is_name_fn(names),
            keys == keys_by(names),
            wanted@ == keys(title@),
            i <= tracks.len() == all.len(),
            all == views(tracks@),
            forall|j: int| 0 <= j < i ==> keys((#[trigger] all[j]).title) != keys(title@),
        decreases tracks.len() - i,
    {
        if key_of(names, tracks[i].title.as_str()) == wanted {
            assert(keys(all[i as int].title) == keys(title@));
            return true;
        }
        i += 1;
    }
    false
}

fn slot_of<F: Fn(&str) -> String>(releases: &Vec<Release>, title: &str, names: &F) -> (r: usize)
    requires
        is_name_fn(names),
    ensures
        r == first_where(views(releases@), titled(keys_by(names), title@)),
        r <= releases.len(),
{
    let ghost keys = keys_by(names);
    let ghost all = views(releases@);
    let ghost p = titled(keys, title@);
    let wanted = key_of(names, title);
    let mut i: usize = 0;
    while i < releases.len()
        invariant
            is_name_fn(names),
            keys == keys_by(names),
            p == titled(keys, title@),
            wanted@ == keys(title@),
            i <= releases.len() == all.len(),
            all == views(releases@),
            forall|j: int| 0 <= j < i ==> !p(#[trigger] all[j]),
        decreases releases.len() - i,
    {
        if key_of(names, releases[i].title.as_str()) == wanted {
            proof {
                lemma_first_where(all, p, i as int);
            }
            return i;
        }
        i += 1;
    }
    proof {
        lemma_first_where(all, p, i as int);
    }
    i
}

fn list_tracks<F: Fn(&str) -> String>(
    results: &mut SearchResults,
    slot: usize,
    peer: &str,
    items: Vec<CatalogTrack>,
    names: &F,
)
    requires
        is_name_fn(names),
        slot < old(results).releases.len(),
    ensures
        final(results)@ == with_listed_tracks(
            keys_by(names),
            peer@,
            old(results)@,
            slot as int,
            views(items@),
        ),
{
    let ghost keys = keys_by(names);
    let ghost all = views(items@);
    let mut rest = items;
    let ghost mut done: int = 0;
    while rest.len() > 0
        invariant
            is_name_fn(names),
            keys == keys_by(names),
            slot < results.releases.len(),
            0 <= done,
            done + rest.len() == all.len(),
            views(rest@) == all.skip(done),
            results@ == with_listed_tracks(
                keys,
                peer@,
                old(results)@,
                slot as int,
                all.take(done),
            ),
        decreases rest.len(),
    {
        let ghost before = results@;
        let item = rest.remove(0);
        proof {
            assert(item@ == all[done]);
            assert(all.take(done + 1).drop_last() =~= all.take(done));
            assert(views(rest@) =~= all.skip(done + 1));
        }
        if !lists_title(&results.releases[slot].tracks, item.title.as_str(), names)
            && !item.item_id.as_str().is_empty() {
            let track = track_of_listing(
                peer,
                item,
                results.releases[slot].title.clone(),
                results.releases[slot].key.clone(),
                results.releases[slot].artwork.uri.clone(),
                names,
            );
            results.releases[slot].tracks.push(track.clone());
            results.tracks.push(track);
            proof {
                assert(results@.releases =~= with_listed_track(
                    keys,
                    peer@,
                    before,
                    slot as int,
                    all[done],
                ).releases);
            }
        }
        proof {
            done = done + 1;
        }
    }
    proof {
        assert(all.take(done) =~= all);
    }
}

fn list_releases<F: Fn(&str) -> String>(
    results: &mut SearchResults,
    name: &str,
    peer: &str,
    releases: Vec<CatalogRelease>,
    names: &F,
)
    requires
        is_name_fn(names),
    ensures
        final(results)@ == with_listed_releases(
            keys_by(names),
            name@,
            peer@,
            old(results)@,
            views(releases@),
        ),
{
    let ghost keys = keys_by(names);
    let ghost all = views(releases@);
    let mut rest = releases;
    let ghost mut done: int = 0;
    while rest.len() > 0
        invariant
            is_name_fn(names),
            keys == keys_by(names),
            0 <= done,
            done + rest.len() == all.len(),
            views(rest@) == all.skip(done),
            results@ == with_listed_releases(
                keys,
                name@,
                peer@,
                old(results)@,
                all.take(done),
            ),
        decreases rest.len(),
    {
        let remote = rest.remove(0);
        proof {
            assert(remote@ == all[done]);
            assert(all.take(done + 1).drop_last() =~= all.take(done));
            assert(views(rest@) =~= all.skip(done + 1));
        }
        let slot = slot_of(&results.releases, remote.title.as_str(), names);
        if slot == results.releases.len() {
            let mut artist: Vec<String> = Vec::new();
            artist.push(name.to_owned());
            let opened = Release {
                key: ReleaseKey::Federation {
                    peer_id: peer.to_owned(),
                    id: name_id_of(remote.title.as_str(), names),
                },
                source: CatalogSource::Federation { peer_id: peer.to_owned() },
                title: remote.title.clone(),
                artists: artist_refs(peer, &artist, names),
                featured_artists: Vec::new(),
                release_type: remote.release_type,
                year: remote.year,
                artwork: Artwork { uri: None },
                tracks: Vec::new(),
            };
            proof {
                assert(views(artist@) =~= seq![name@]);
                assert(opened@ == opened_release(keys, name@, peer@, remote@));
            }
            results.releases.push(opened);
        }
        list_tracks(results, slot, peer, remote.tracks, names);
        proof {
            done = done + 1;
        }
    }
    proof {
        assert(all.take(done) =~= all);
    }
}

fn list_appearances<F: Fn(&str) -> String>(
    tracks: &mut Vec<Track>,
    peer: &str,
    appearances: Vec<CatalogAppearance>,
    names: &F,
)
    requires
        is_name_fn(names),
    ensures
        views(final(tracks)@) == with_appearances(
            keys_by(names),
            peer@,
            views(old(tracks)@),
            views(appearances@),
        ),
{
    let ghost keys = keys_by(names);
    let ghost all = views(appearances@);
    let mut rest = appearances;
    let ghost mut done: int = 0;
    while rest.len() > 0
        invariant
            is_name_fn(names),
            keys == keys_by(names),
            0 <= done,
            done + rest.len() == all.len(),
            views(rest@) == all.skip(done),
            views(tracks@) == with_appearances(keys, peer@, views(old(tracks)@), all.take(done)),
        decreases rest.len(),
    {
        let appearance = rest.remove(0);
        proof {
            assert(appearance@ == all[done]);
            assert(all.take(done + 1).drop_last() =~= all.take(done));
            assert(views(rest@) =~= all.skip(done + 1));
        }
        if !appearance.track.item_id.as_str().is_empty() {
            let release_id = ReleaseKey::Federation {
                peer_id: peer.to_owned(),
                id: name_id_of(appearance.release_title.as_str(), names),
            };
            tracks.push(
                track_of_listing(
                    peer,
                    appearance.track,
                    appearance.release_title,
                    release_id,
                    None,
                    names,
                ),
            );
        }
        proof {
            done = done + 1;
        }
    }
    proof {
        assert(all.take(done) =~= all);
    }
}

fn populate_all<F: Fn(&str) -> String>(releases: Vec<Release>, names: &F) -> (r: Vec<Release>)
    requires
        is_name_fn(names),
    ensures
        views(r@) == all_populated(keys_by(names), views(releases@)),
{
    let ghost keys = keys_by(names);
    let ghost all = views(releases@);
    let mut rest = releases;
    let mut r: Vec<Release> = Vec::new();
    while rest.len() > 0
        invariant
            is_name_fn(names),
            keys == keys_by(names),
            r.len() + rest.len() == all.len(),
            views(rest@) == all.skip(r.len() as int),
            views(r@) == all_populated(keys, all).take(r.len() as int),
        decreases rest.len(),
    {
        let ghost n = r.len() as int;
        let mut release = rest.remove(0);
        proof {
            assert(release@ == all[n]);
            assert(views(rest@) =~= all.skip(n + 1));
        }
        populate_release_contributors(&mut release, names);
        r.push(release);
        proof {
            assert(views(r@) =~= all_populated(keys, all).take(n + 1));
        }
    }
    proof {
        assert(views(r@) =~= all_populated(keys, all));
    }
    r
}

/// Puts together the card of an artist from what the peers that answered have
/// of them.
pub fn card_results<F: Fn(&str) -> String>(
    name: &str,
    catalogs: Vec<(String, CatalogArtist)>,
    names: &F,
) -> (r: SearchResults)
    requires
        is_name_fn(names),
    ensures
        r@ == card(keys_by(names), name@, views(catalogs@)),
{
    let ghost keys = keys_by(names);
    let ghost all = views(catalogs@);
    let first = if catalogs.len() > 0 {
        Some(catalogs[0].0.clone())
    } else {
        None
    };
    let mut results = SearchResults {
        artists: Vec::new(),
        releases: Vec::new(),
        tracks: Vec::new(),
    };
    proof {
        assert(results@ == no_results());
    }
    let mut rest = catalogs;
    let ghost mut done: int = 0;
    while rest.len() > 0
        invariant
            is_name_fn(names),
            keys == keys_by(names),
            0 <= done,
            done + rest.len() == all.len(),
            views(rest@) == all.skip(done),
            results@ == with_catalogs(keys, name@, no_results(), all.take(done)),
        decreases rest.len(),
    {
        let (peer, catalog) = rest.remove(0);
        proof {
            assert((peer@, catalog@) == all[done]);
            assert(all.take(done + 1).drop_last() =~= all.take(done));
            assert(views(rest@) =~= all.skip(done + 1));
        }
        list_releases(&mut results, name, peer.as_str(), catalog.releases, names);
        list_appearances(&mut results.tracks, peer.as_str(), catalog.appears_on, names);
        proof {
            done = done + 1;
        }
    }
    proof {
        assert(all.take(done) =~= all);
    }
    let ghost found = results@;
    let mut artists: Vec<Artist> = Vec::new();
    if let Some(peer) = first {
        artists.push(
            Artist {
                key: ArtistKey::Federation { peer_id: peer.clone(), id: key_of(names, name) },
                source: CatalogSource::Federation { peer_id: peer },
                name: name.to_owned(),
                artwork: Artwork { uri: None },
                release_count: results.releases.len(),
                track_count: results.tracks.len(),
            },
        );
    }
    let r = SearchResults {
        artists,
        releases: populate_all(results.releases, names),
        tracks: results.tracks,
    };
    proof {
        assert(found.releases.len() == results.releases.len());
        assert(found.tracks.len() == results.tracks.len());
        assert(r@.artists =~= card(keys, name@, all).artists);
    }
    r
}

/// No two releases go by one title, and no two tracks of one release do.
pub open spec fn lists_nothing_twice(keys: NameKeys, releases: Seq<ReleaseModel>) -> bool {
    &&& forall|i: int, j: int|
        #![trigger releases[i], releases[j]]
        0 <= i < j < releases.len() ==> keys(releases[i].title) != keys(releases[j].title)
    &&& forall|i: int|
        0 <= i < releases.len() ==> no_title_twice(keys, (#[trigger] releases[i]).tracks)
}

pub open spec fn no_title_twice(keys: NameKeys, tracks: Seq<TrackModel>) -> bool {
    forall|i: int, j: int|
        #![trigger tracks[i], tracks[j]]
        0 <= i < j < tracks.len() ==> keys(tracks[i].title) != keys(tracks[j].title)
}

proof fn lemma_tracks_listed_once(
    keys: NameKeys,
    peer: Seq<char>,
    results: SearchResultsModel,
    slot: int,
    items: Seq<CatalogTrackModel>,
)
    requires
        0 <= slot < results.releases.len(),
        lists_nothing_twice(keys, results.releases),
    ensures
        with_listed_tracks(keys, peer, results, slot, items).releases.len()
            == results.releases.len(),
        lists_nothing_twice(
            keys,
            with_listed_tracks(keys, peer, results, slot, items).releases,
        ),
    decreases items.len(),
{
    if items.len() > 0 {
        lemma_tracks_listed_once(keys, peer, results, slot, items.drop_last());
        let before = with_listed_tracks(keys, peer, results, slot, items.drop_last());
        let after = with_listed_tracks(keys, peer, results, slot, items);
        let tracks = before.releases[slot].tracks;
        if !has_title(keys, tracks, items.last().title) {
            assert forall|i: int| 0 <= i < tracks.len() implies keys(
                (#[trigger] tracks[i]).title,
            ) != keys(items.last().title) by {}
        }
        assert(forall|i: int|
            0 <= i < before.releases.len() ==> (#[trigger] after.releases[i]).title
                == before.releases[i].title);
        assert(no_title_twice(keys, after.releases[slot].tracks));
        assert forall|i: int| 0 <= i < after.releases.len() implies no_title_twice(
            keys,
            (#[trigger] after.releases[i]).tracks,
        ) by {
            assert(no_title_twice(keys, before.releases[i].tracks));
        }
    }
}

proof fn lemma_releases_listed_once(
    keys: NameKeys,
    name: Seq<char>,
    peer: Seq<char>,
    results: SearchResultsModel,
    releases: Seq<CatalogReleaseModel>,
)
    requires
        lists_nothing_twice(keys, results.releases),
    ensures
        lists_nothing_twice(
            keys,
            with_listed_releases(keys, name, peer, results, releases).releases,
        ),
    decreases releases.len(),
{
    if releases.len() > 0 {
        lemma_releases_listed_once(keys, name, peer, results, releases.drop_last());
        let before = with_listed_releases(keys, name, peer, results, releases.drop_last());
        let remote = releases.last();
        let p = titled(keys, remote.title);
        lemma_first_where_is(before.releases, p);
        let slot = first_where(before.releases, p);
        let opened = if slot < before.releases.len() {
            before
        } else {
            SearchResultsModel {
                releases: before.releases.push(opened_release(keys, name, peer, remote)),
                ..before
            }
        };
        assert(lists_nothing_twice(keys, opened.releases)) by {
            assert forall|i: int, j: int|
                #![trigger opened.releases[i], opened.releases[j]]
                0 <= i < j < opened.releases.len() implies keys(opened.releases[i].title) != keys(
                opened.releases[j].title,
            ) by {
                if j == before.releases.len() {
                    assert(!p(before.releases[i]));
                } else {
                    assert(before.releases[i] == opened.releases[i]);
                    assert(before.releases[j] == opened.releases[j]);
                }
            }
            assert forall|i: int| 0 <= i < opened.releases.len() implies no_title_twice(
                keys,
                (#[trigger] opened.releases[i]).tracks,
            ) by {
                if i < before.releases.len() {
                    assert(no_title_twice(keys, before.releases[i].tracks));
                }
            }
        }
        lemma_tracks_listed_once(keys, peer, opened, slot, remote.tracks);
    }
}

proof fn lemma_catalogs_listed_once(
    keys: NameKeys,
    name: Seq<char>,
    catalogs: Seq<(Seq<char>, CatalogArtistModel)>,
)
    ensures
        lists_nothing_twice(keys, with_catalogs(keys, name, no_results(), catalogs).releases),
    decreases catalogs.len(),
{
    if catalogs.len() > 0 {
        lemma_catalogs_listed_once(keys, name, catalogs.drop_last());
        lemma_releases_listed_once(
            keys,
            name,
            catalogs.last().0,
            with_catalogs(keys, name, no_results(), catalogs.drop_last()),
            catalogs.last().1.releases,
        );
    }
}

/// However many peers list a release, and however they spell it, a card shows
/// it once, with each of its tracks once.
pub proof fn a_card_lists_nothing_twice(
    keys: NameKeys,
    name: Seq<char>,
    catalogs: Seq<(Seq<char>, CatalogArtistModel)>,
)
    ensures
        lists_nothing_twice(keys, card(keys, name, catalogs).releases),
{
    lemma_catalogs_listed_once(keys, name, catalogs);
    let found = with_catalogs(keys, name, no_results(), catalogs).releases;
    let shown = card(keys, name, catalogs).releases;
    assert forall|i: int| 0 <= i < shown.len() implies no_title_twice(
        keys,
        (#[trigger] shown[i]).tracks,
    ) by {
        assert(no_title_twice(keys, found[i].tracks));
    }
    assert forall|i: int, j: int|
        #![trigger shown[i], shown[j]]
        0 <= i < j < shown.len() implies keys(shown[i].title) != keys(shown[j].title) by {
        assert(keys(found[i].title) != keys(found[j].title));
    }
}

/// Whether an entry of the same kind was published before by the same peer
/// under the same identifier.
pub open spec fn is_repeated(before: Seq<LibraryItemModel>, item: LibraryItemModel) -> bool {
    exists|i: int|
        0 <= i < before.len() && (#[trigger] before[i]).kind == item.kind && before[i].owner
            == item.owner && before[i].id == item.id
}

pub open spec fn peer_artist(keys: NameKeys, peer: Seq<char>, name: Seq<char>) -> ArtistModel {
    ArtistModel {
        key: ArtistKeyModel::Federation { peer_id: peer, id: keys(name) },
        source: CatalogSourceModel::Federation { peer_id: peer },
        name,
        artwork: None,
        release_count: 0,
        track_count: 0,
    }
}

pub open spec fn is_noted(artists: Seq<ArtistModel>, key: ArtistKeyModel) -> bool {
    exists|i: int| 0 <= i < artists.len() && (#[trigger] artists[i]).key == key
}

/// The artists with one more, unless the name comes to nothing or the peer's
/// artist of that name is among them.
pub open spec fn noted(
    keys: NameKeys,
    artists: Seq<ArtistModel>,
    peer: Seq<char>,
    name: Seq<char>,
) -> Seq<ArtistModel> {
    let artist = peer_artist(keys, peer, name);
    if keys(name).len() == 0 || is_noted(artists, artist.key) {
        artists
    } else {
        artists.push(artist)
    }
}

pub open spec fn all_noted(
    keys: NameKeys,
    artists: Seq<ArtistModel>,
    peer: Seq<char>,
    names: Seq<Seq<char>>,
) -> Seq<ArtistModel>
    decreases names.len(),
{
    if names.len() == 0 {
        artists
    } else {
        noted(keys, all_noted(keys, artists, peer, names.drop_last()), peer, names.last())
    }
}

/// What a published release looks like in the catalog.
pub open spec fn published_release(keys: NameKeys, item: LibraryItemModel) -> ReleaseModel {
    ReleaseModel {
        key: ReleaseKeyModel::Federation { peer_id: item.owner, id: item.id },
        source: CatalogSourceModel::Federation { peer_id: item.owner },
        title: item.name,
        artists: peer_refs(keys, item.owner, item.artist_names),
        featured_artists: Seq::empty(),
        release_type: match item.release_type {
            Some(release_type) => release_type,
            None => "release"@,
        },
        year: item.year,
        artwork: None,
        tracks: Seq::empty(),
    }
}

/// What a published track looks like in the catalog.
pub open spec fn published_track(
    keys: NameKeys,
    item: LibraryItemModel,
    content_id: Seq<char>,
) -> TrackModel {
    TrackModel {
        key: TrackKeyModel {
            local_id: None,
            content_id: Some(content_id),
            federation_identity: Some((item.owner, item.id)),
        },
        title: item.name,
        artist: credit_line(item.artist_names, item.featured_artist_names),
        artists: peer_refs(keys, item.owner, item.artist_names),
        featured_artists: peer_refs(keys, item.owner, item.featured_artist_names),
        release: or_empty(item.release_title),
        release_id: ReleaseKeyModel::Federation {
            peer_id: item.owner,
            id: name_id(keys, or_empty(item.release_title)),
        },
        duration_nanos: or_zero(item.duration_nanos),
        track_number: widen_u32(item.track_number),
        disc_number: widen_u32(item.disc_number),
        cover_uri: None,
        audio_format: None,
        audio_bitrate_kbps: None,
        audio_sample_rate_hz: None,
        audio_bit_depth: None,
        file_size_bytes: None,
        liked: false,
        audio_source: AudioSourceModel::Federation { peer_id: item.owner, content_id },
    }
}

/// The results with one more entry: everyone it names, and the release or the
/// track that it is, where it is the first of its peer under its identifier.
/// Tracks without content cannot be played and are left out.
pub open spec fn with_item(
    keys: NameKeys,
    before: Seq<LibraryItemModel>,
    results: SearchResultsModel,
    item: LibraryItemModel,
) -> SearchResultsModel {
    let named = SearchResultsModel {
        artists: all_noted(
            keys,
            results.artists,
            item.owner,
            item.artist_names + item.featured_artist_names,
        ),
        ..results
    };
    match item.kind {
        ItemKind::Artist => SearchResultsModel {
            artists: noted(keys, named.artists, item.owner, item.name),
            ..named
        },
        ItemKind::Release => if is_repeated(before, item) {
            named
        } else {
            SearchResultsModel {
                releases: named.releases.push(published_release(keys, item)),
                ..named
            }
        },
        ItemKind::Track => if is_repeated(before, item) {
            named
        } else {
            match noted_content(item.content_id) {
                Some(content_id) => SearchResultsModel {
                    tracks: named.tracks.push(published_track(keys, item, content_id)),
                    ..named
                },
                None => named,
            }
        },
    }
}

/// What the entries come to, without those of the listener's own node.
pub open spec fn with_items(keys: NameKeys, own: Seq<char>, items: Seq<LibraryItemModel>) -> SearchResultsModel
    decreases items.len(),
{
    if items.len() == 0 {
        no_results()
    } else {
        let results = with_items(keys, own, items.drop_last());
        if items.last().owner == own {
            results
        } else {
            with_item(keys, items.drop_last(), results, items.last())
        }
    }
}

pub open spec fn named_before() -> spec_fn(ArtistModel, ArtistModel) -> bool {
    |a: ArtistModel, b: ArtistModel| text_lt(a.name, b.name)
}

/// What the entries come to, the artists by name.
pub open spec fn converted(keys: NameKeys, own: Seq<char>, items: Seq<LibraryItemModel>) -> SearchResultsModel {
    let results = with_items(keys, own, items);
    SearchResultsModel { artists: stable_sorted(results.artists, named_before()), ..results }
}

fn repeated(items: &Vec<LibraryItem>, n: usize) -> (r: bool)
    requires
        n < items.len(),
    ensures
        r == is_repeated(views(items@).take(n as int), items@[n as int]@),
{
    let ghost before = views(items@).take(n as int);
    let ghost item = items@[n as int]@;
    let mut i: usize = 0;
    while i < n
        invariant
            i <= n < items.len(),
            before == views(items@).take(n as int),
            item == items@[n as int]@,
            forall|j: int|
                0 <= j < i ==> !((#[trigger] before[j]).kind == item.kind && before[j].owner
                    == item.owner && before[j].id == item.id),
        decreases n - i,
    {
        if items[i].kind == items[n].kind && items[i].owner == items[n].owner && items[i].id
            == items[n].id {
            assert(before[i as int] == items@[i as int]@);
            return true;
        }
        assert(before[i as int] == items@[i as int]@);
        i += 1;
    }
    false
}

/// Adds the peer's artist of that name, unless it is there or the name comes to
/// nothing.
pub fn note_artist<F: Fn(&str) -> String>(
    artists: &mut Vec<Artist>,
    peer: &str,
    name: &str,
    names: &F,
)
    requires
        is_name_fn(names),
    ensures
        views(final(artists)@) == noted(keys_by(names), views(old(artists)@), peer@, name@),
{
    let ghost keys = keys_by(names);
    let ghost all = views(artists@);
    let normalized = key_of(names, name);
    if normalized.as_str().is_empty() {
        return;
    }
    let key = ArtistKey::Federation { peer_id: peer.to_owned(), id: normalized };
    let ghost artist = peer_artist(keys, peer@, name@);
    let mut i: usize = 0;
    while i < artists.len()
        invariant
            i <= artists.len() == all.len(),
            *artists == *old(artists),
            all == views(artists@),
            key@ == artist.key,
            artist == peer_artist(keys_by(names), peer@, name@),
            forall|j: int| 0 <= j < i ==> (#[trigger] all[j]).key != artist.key,
        decreases artists.len() - i,
    {
        if artists[i].key == key {
            assert(is_noted(all, artist.key)) by {
                assert(all[i as int].key == artist.key);
            }
            return;
        }
        i += 1;
    }
    assert(!is_noted(all, artist.key));
    artists.push(
        Artist {
            key,
            source: CatalogSource::Federation { peer_id: peer.to_owned() },
            name: name.to_owned(),
            artwork: Artwork { uri: None },
            release_count: 0,
            track_count: 0,
        },
    );
}

fn note_artists<F: Fn(&str) -> String>(
    artists: &mut Vec<Artist>,
    peer: &str,
    named: &Vec<String>,
    names: &F,
)
    requires
        is_name_fn(names),
    ensures
        views(final(artists)@) == all_noted(
            keys_by(names),
            views(old(artists)@),
            peer@,
            views(named@),
        ),
{
    let ghost keys = keys_by(names);
    let ghost all = views(named@);
    let mut i: usize = 0;
    while i < named.len()
        invariant
            is_name_fn(names),
            keys == keys_by(names),
            i <= named.len() == all.len(),
            all == views(named@),
            views(artists@) == all_noted(keys, views(old(artists)@), peer@, all.take(i as int)),
        decreases named.len() - i,
    {
        proof {
            assert(all.take(i + 1).drop_last() =~= all.take(i as int));
        }
        note_artist(artists, peer, named[i].as_str(), names);
        i += 1;
    }
    proof {
        assert(all.take(i as int) =~= all);
    }
}

proof fn lemma_all_noted_in_turn(
    keys: NameKeys,
    artists: Seq<ArtistModel>,
    peer: Seq<char>,
    a: Seq<Seq<char>>,
    b: Seq<Seq<char>>,
)
    ensures
        all_noted(keys, artists, peer, a + b) == all_noted(
            keys,
            all_noted(keys, artists, peer, a),
            peer,
            b,
        ),
    decreases b.len(),
{
    if b.len() == 0 {
        assert(a + b =~= a);
    } else {
        lemma_all_noted_in_turn(keys, artists, peer, a, b.drop_last());
        assert((a + b).drop_last() =~= a + b.drop_last());
    }
}

fn release_of_item<F: Fn(&str) -> String>(item: &LibraryItem, names: &F) -> (r: Release)
    requires
        is_name_fn(names),
    ensures
        r@ == published_release(keys_by(names), item@),
{
    Release {
        key: ReleaseKey::Federation { peer_id: item.owner.clone(), id: item.id.clone() },
        source: CatalogSource::Federation { peer_id: item.owner.clone() },
        title: item.name.clone(),
        artists: artist_refs(item.owner.as_str(), &item.artist_names, names),
        featured_artists: Vec::new(),
        release_type: match &item.release_type {
            Some(release_type) => release_type.clone(),
            None => "release".to_owned(),
        },
        year: item.year,
        artwork: Artwork { uri: None },
        tracks: Vec::new(),
    }
}

fn track_of_item<F: Fn(&str) -> String>(
    item: &LibraryItem,
    content_id: ContentId,
    names: &F,
) -> (r: Track)
    requires
        is_name_fn(names),
    ensures
        r@ == published_track(keys_by(names), item@, content_id@),
{
    let release = match &item.release_title {
        Some(title) => title.clone(),
        None => String::new(),
    };
    let peer = item.owner.as_str();
    Track {
        key: TrackKey::federation(peer.to_owned(), item.id.clone(), Some(content_id.clone())),
        title: item.name.clone(),
        artist: artist_line(&item.artist_names, &item.featured_artist_names),
        artists: artist_refs(peer, &item.artist_names, names),
        featured_artists: artist_refs(peer, &item.featured_artist_names, names),
        release_id: ReleaseKey::Federation {
            peer_id: peer.to_owned(),
            id: name_id_of(release.as_str(), names),
        },
        release,
        duration_nanos: item.duration_nanos.unwrap_or(0),
        track_number: to_u32(item.track_number),
        disc_number: to_u32(item.disc_number),
        cover_uri: None,
        audio_format: None,
        audio_bitrate_kbps: None,
        audio_sample_rate_hz: None,
        audio_bit_depth: None,
        file_size_bytes: None,
        liked: false,
        audio_source: AudioSource::Federation { peer_id: peer.to_owned(), content_id },
    }
}

/// Turns what a search found into catalog results, without what the listener's
/// own node publishes.
pub fn convert_items<F: Fn(&str) -> String>(items: &Vec<LibraryItem>, own: &str, names: &F) -> (r:
    SearchResults)
    requires
        is_name_fn(names),
    ensures
        r@ == converted(keys_by(names), own@, views(items@)),
{
    let ghost keys = keys_by(names);
    let ghost all = views(items@);
    let mut artists: Vec<Artist> = Vec::new();
    let mut releases: Vec<Release> = Vec::new();
    let mut tracks: Vec<Track> = Vec::new();
    let mut i: usize = 0;
    while i < items.len()
        invariant
            is_name_fn(names),
            keys == keys_by(names),
            i <= items.len() == all.len(),
            all == views(items@),
            (SearchResultsModel {
                artists: views(artists@),
                releases: views(releases@),
                tracks: views(tracks@),
            }) == with_items(keys, own@, all.take(i as int)),
        decreases items.len() - i,
    {
        proof {
            assert(all.take(i + 1).drop_last() =~= all.take(i as int));
            assert(all[i as int] == items@[i as int]@);
        }
        if !same_str(items[i].owner.as_str(), own) {
            let peer = items[i].owner.as_str();
            proof {
                lemma_all_noted_in_turn(
                    keys,
                    views(artists@),
                    peer@,
                    all[i as int].artist_names,
                    all[i as int].featured_artist_names,
                );
            }
            note_artists(&mut artists, peer, &items[i].artist_names, names);
            note_artists(&mut artists, peer, &items[i].featured_artist_names, names);
            match items[i].kind {
                ItemKind::Artist => {
                    note_artist(&mut artists, peer, items[i].name.as_str(), names);
                },
                ItemKind::Release => {
                    if !repeated(items, i) {
                        releases.push(release_of_item(&items[i], names));
                    }
                },
                ItemKind::Track => {
                    if !repeated(items, i) {
                        if let Some(content_id) = content_given(&items[i].content_id) {
                            tracks.push(track_of_item(&items[i], content_id, names));
                        }
                    }
                },
            }
        }
        i += 1;
    }
    proof {
        assert(all.take(i as int) =~= all);
    }
    let ghost lt = |a: Artist, b: Artist| named_before()(a@, b@);
    let before = |a: &Artist, b: &Artist| -> (y: bool)
        ensures
            y == lt(*a, *b),
        { str_lt(a.name.as_str(), b.name.as_str()) };
    proof {
        lemma_sorted_views(artists@, lt, named_before());
    }
    SearchResults { artists: stable_sort(artists, before, Ghost(lt)), releases, tracks }
}

/// The first track among what was found for a content identifier.
pub fn first_published_track<F: Fn(&str) -> String>(
    items: &Vec<LibraryItem>,
    own: &str,
    names: &F,
) -> (r: Option<Track>)
    requires
        is_name_fn(names),
    ensures
        opt_view(r) == (if converted(keys_by(names), own@, views(items@)).tracks.len() > 0 {
            Some(converted(keys_by(names), own@, views(items@)).tracks[0])
        } else {
            None
        }),
{
    let mut results = convert_items(items, own, names);
    if results.tracks.len() > 0 {
        Some(results.tracks.remove(0))
    } else {
        None
    }
}

/// What a search found and what it took.
pub fn search_stats(results: &SearchResults, peers_queried: usize, duration_millis: u128) -> (r:
    SearchStats)
    ensures
        r == (SearchStats {
            tracks: results@.tracks.len() as usize,
            artists: results@.artists.len() as usize,
            peers_queried,
            duration_ms: if duration_millis <= u64::MAX {
                duration_millis as u64
            } else {
                u64::MAX
            },
        }),
{
    SearchStats {
        tracks: results.tracks.len(),
        artists: results.artists.len(),
        peers_queried,
        duration_ms: if duration_millis <= u64::MAX as u128 {
            duration_millis as u64
        } else {
            u64::MAX
        },
    }
}

pub open spec fn names_artist(keys: NameKeys, named: Seq<Seq<char>>, key: Seq<char>) -> bool {
    exists|i: int| 0 <= i < named.len() && keys(#[trigger] named[i]) == key
}

/// Whether another peer's entry is the artist `name` or credits them.
pub open spec fn concerns(keys: NameKeys, own: Seq<char>, name: Seq<char>, item: LibraryItemModel) -> bool {
    item.owner != own && ((item.kind == ItemKind::Artist && item.normalized_name == keys(name))
        || names_artist(keys, item.artist_names, keys(name)) || names_artist(
        keys,
        item.featured_artist_names,
        keys(name),
    ))
}

/// The peers that have something of the artist, each once.
pub open spec fn owners(keys: NameKeys, own: Seq<char>, name: Seq<char>, items: Seq<LibraryItemModel>) -> Seq<
    Seq<char>,
>
    decreases items.len(),
{
    if items.len() == 0 {
        Seq::empty()
    } else {
        let before = owners(keys, own, name, items.drop_last());
        if concerns(keys, own, name, items.last()) && !before.contains(items.last().owner) {
            before.push(items.last().owner)
        } else {
            before
        }
    }
}

fn one_is_named<F: Fn(&str) -> String>(named: &Vec<String>, key: &String, names: &F) -> (r: bool)
    requires
        is_name_fn(names),
    ensures
        r == names_artist(keys_by(names), views(named@), key@),
{
    let ghost keys = keys_by(names);
    let ghost all = views(named@);
    let mut i: usize = 0;
    while i < named.len()
        invariant
            is_name_fn(names),
            keys == keys_by(names),
            i <= named.len() == all.len(),
            all == views(named@),
            forall|j: int| 0 <= j < i ==> keys(#[trigger] all[j]) != key@,
        decreases named.len() - i,
    {
        if key_of(names, named[i].as_str()) == *key {
            assert(keys(all[i as int]) == key@);
            return true;
        }
        assert(all[i as int] == named@[i as int]@);
        i += 1;
    }
    false
}

fn holds_text(all: &Vec<String>, text: &String) -> (r: bool)
    ensures
        r == views(all@).contains(text@),
{
    let mut i: usize = 0;
    while i < all.len()
        invariant
            i <= all.len(),
            forall|j: int| 0 <= j < i ==> #[trigger] views(all@)[j] != text@,
        decreases all.len() - i,
    {
        if all[i] == *text {
            assert(views(all@)[i as int] == text@);
            return true;
        }
        i += 1;
    }
    false
}

/// The peers whose catalogs are asked for an artist, going by what a search for
/// the name found.
pub fn catalog_owners<F: Fn(&str) -> String>(
    items: &Vec<LibraryItem>,
    own: &str,
    name: &str,
    names: &F,
) -> (r: Vec<String>)
    requires
        is_name_fn(names),
    ensures
        views(r@) == owners(keys_by(names), own@, name@, views(items@)),
{
    let ghost keys = keys_by(names);
    let ghost all = views(items@);
    let normalized = key_of(names, name);
    let mut r: Vec<String> = Vec::new();
    let mut i: usize = 0;
    while i < items.len()
        invariant
            is_name_fn(names),
            keys == keys_by(names),
            normalized@ == keys(name@),
            i <= items.len() == all.len(),
            all == views(items@),
            views(r@) == owners(keys, own@, name@, all.take(i as int)),
        decreases items.len() - i,
    {
        proof {
            assert(all.take(i + 1).drop_last() =~= all.take(i as int));
            assert(all[i as int] == items@[i as int]@);
        }
        let item = &items[i];
        if !same_str(item.owner.as_str(), own) && ((item.kind == ItemKind::Artist
            && item.normalized_name == normalized) || one_is_named(
            &item.artist_names,
            &normalized,
            names,
        ) || one_is_named(&item.featured_artist_names, &normalized, names)) && !holds_text(
            &r,
            &item.owner,
        ) {
            r.push(item.owner.clone());
        }
        i += 1;
    }
    proof {
        assert(all.take(i as int) =~= all);
    }
    r
}

pub open spec fn is_foreign(own: Seq<char>, source: CatalogSourceModel) -> bool {
    source matches CatalogSourceModel::Federation { peer_id } && peer_id != own
}

pub open spec fn is_foreign_track(own: Seq<char>, track: TrackModel) -> bool {
    track.key.federation_identity matches Some((peer, _)) && peer != own
}

/// Everything in the results is published by a node other than `own`.
pub open spec fn all_foreign(own: Seq<char>, results: SearchResultsModel) -> bool {
    &&& forall|i: int|
        0 <= i < results.artists.len() ==> is_foreign(own, (#[trigger] results.artists[i]).source)
    &&& forall|i: int|
        0 <= i < results.releases.len() ==> is_foreign(
            own,
            (#[trigger] results.releases[i]).source,
        )
    &&& forall|i: int|
        0 <= i < results.tracks.len() ==> is_foreign_track(own, #[trigger] results.tracks[i])
}

proof fn lemma_noted_foreign(
    keys: NameKeys,
    own: Seq<char>,
    results: SearchResultsModel,
    peer: Seq<char>,
    names: Seq<Seq<char>>,
)
    requires
        peer != own,
        all_foreign(own, results),
    ensures
        all_foreign(
            own,
            SearchResultsModel {
                artists: all_noted(keys, results.artists, peer, names),
                ..results
            },
        ),
    decreases names.len(),
{
    if names.len() > 0 {
        lemma_noted_foreign(keys, own, results, peer, names.drop_last());
        let before = all_noted(keys, results.artists, peer, names.drop_last());
        let after = all_noted(keys, results.artists, peer, names);
        let inner = SearchResultsModel { artists: before, ..results };
        assert forall|i: int| 0 <= i < after.len() implies is_foreign(
            own,
            (#[trigger] after[i]).source,
        ) by {
            if i < before.len() {
                assert(is_foreign(own, inner.artists[i].source));
            }
        }
    }
}

proof fn lemma_items_foreign(keys: NameKeys, own: Seq<char>, items: Seq<LibraryItemModel>)
    ensures
        all_foreign(own, with_items(keys, own, items)),
    decreases items.len(),
{
    if items.len() > 0 {
        lemma_items_foreign(keys, own, items.drop_last());
        let results = with_items(keys, own, items.drop_last());
        let item = items.last();
        if item.owner != own {
            lemma_noted_foreign(
                keys,
                own,
                results,
                item.owner,
                item.artist_names + item.featured_artist_names,
            );
        }
    }
}

/// A search never shows the listener what their own node publishes.
pub proof fn own_publications_are_left_out(
    keys: NameKeys,
    own: Seq<char>,
    items: Seq<LibraryItemModel>,
)
    ensures
        all_foreign(own, converted(keys, own, items)),
{
    lemma_items_foreign(keys, own, items);
    let results = with_items(keys, own, items);
    let sorted = converted(keys, own, items).artists;
    sorting_is_a_permutation(results.artists, named_before());
    assert forall|i: int| 0 <= i < sorted.len() implies is_foreign(
        own,
        (#[trigger] sorted[i]).source,
    ) by {
        broadcast use vstd::seq_lib::group_to_multiset_ensures;

        assert(sorted.contains(sorted[i]));
        assert(results.artists.to_multiset().contains(sorted[i]));
        assert(results.artists.contains(sorted[i]));
    }
}

} // verus!

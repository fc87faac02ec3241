//! From the rows of the local music library to catalog entities.
use crate::api::{
    LibraryModel, LibrarySnapshot, PlaylistModel, PlaylistSnapshot, SearchResults,
    SearchResultsModel,
};
use crate::catalog::{
    artist_names, is_content_id, names_of, Artist, ArtistId, ArtistKey, ArtistKeyModel,
    ArtistModel, ArtistRef, ArtistRefModel, Artwork, AudioSource, AudioSourceModel,
    CatalogSource, CatalogSourceModel, ContentId, LocalTrackId, Release, ReleaseId, ReleaseKey,
    ReleaseKeyModel, ReleaseModel, Track, TrackKey, TrackKeyModel, TrackModel,
};
use crate::sort::{lemma_sorted_views, stable_sort, stable_sorted};
use crate::text::{ascii_lower, join, joined, same_str};
use crate::views::{opt_view, views};
use crate::wire::{to_u32, to_u64, widen_u32, widen_u64};
use vstd::prelude::*;

verus! {

broadcast use crate::views::group_views;

/// An artist credited on a release or a track.
#[derive(Debug, PartialEq, Eq)]
pub struct LibraryArtist {
    pub id: i64,
    pub name: String,
}

pub struct LibraryArtistRow {
    pub id: i64,
    pub name: Seq<char>,
}

impl View for LibraryArtist {
    type V = LibraryArtistRow;

    open spec fn view(&self) -> LibraryArtistRow {
        LibraryArtistRow {
            id: self.id,
            name: self.name@,
        }
    }
}

impl Clone for LibraryArtist {
    fn clone(&self) -> (r: Self)
        ensures
            r@ == self@,
    {
        LibraryArtist {
            id: self.id,
            name: self.name.clone(),
        }
    }
}

/// A track of the library. `artist_line` is how the library names its artists,
/// durations are in nanoseconds.
#[derive(Debug, PartialEq)]
pub struct LibraryTrack {
    pub id: i64,
    pub content_id: Option<String>,
    pub title: String,
    pub artist_line: String,
    pub artists: Vec<LibraryArtist>,
    pub featured_artists: Vec<LibraryArtist>,
    pub release_id: i64,
    pub release_title: String,
    pub release_year: Option<i32>,
    pub duration_nanos: u64,
    pub track_number: Option<i32>,
    pub disc_number: Option<i32>,
    pub cover_path: Option<String>,
    pub audio_format: Option<String>,
    pub audio_bitrate: Option<i32>,
    pub audio_sample_rate: Option<i32>,
    pub audio_bit_depth: Option<i32>,
    pub file_size_bytes: Option<i64>,
    pub file_path: String,
}

pub struct LibraryTrackRow {
    pub id: i64,
    pub content_id: Option<Seq<char>>,
    pub title: Seq<char>,
    pub artist_line: Seq<char>,
    pub artists: Seq<LibraryArtistRow>,
    pub featured_artists: Seq<LibraryArtistRow>,
    pub release_id: i64,
    pub release_title: Seq<char>,
    pub release_year: Option<i32>,
    pub duration_nanos: u64,
    pub track_number: Option<i32>,
    pub disc_number: Option<i32>,
    pub cover_path: Option<Seq<char>>,
    pub audio_format: Option<Seq<char>>,
    pub audio_bitrate: Option<i32>,
    pub audio_sample_rate: Option<i32>,
    pub audio_bit_depth: Option<i32>,
    pub file_size_bytes: Option<i64>,
    pub file_path: Seq<char>,
}

impl View for LibraryTrack {
    type V = LibraryTrackRow;

    open spec fn view(&self) -> LibraryTrackRow {
        LibraryTrackRow {
            id: self.id,
            content_id: opt_view(self.content_id),
            title: self.title@,
            artist_line: self.artist_line@,
            artists: views(self.artists@),
            featured_artists: views(self.featured_artists@),
            release_id: self.release_id,
            release_title: self.release_title@,
            release_year: self.release_year,
            duration_nanos: self.duration_nanos,
            track_number: self.track_number,
            disc_number: self.disc_number,
            cover_path: opt_view(self.cover_path),
            audio_format: opt_view(self.audio_format),
            audio_bitrate: self.audio_bitrate,
            audio_sample_rate: self.audio_sample_rate,
            audio_bit_depth: self.audio_bit_depth,
            file_size_bytes: self.file_size_bytes,
            file_path: self.file_path@,
        }
    }
}

impl Clone for LibraryTrack {
    fn clone(&self) -> (r: Self)
        ensures
            r@ == self@,
    {
        let r = LibraryTrack {
            id: self.id,
            content_id: self.content_id.clone(),
            title: self.title.clone(),
            artist_line: self.artist_line.clone(),
            artists: self.artists.clone(),
            featured_artists: self.featured_artists.clone(),
            release_id: self.release_id,
            release_title: self.release_title.clone(),
            release_year: self.release_year,
            duration_nanos: self.duration_nanos,
            track_number: self.track_number,
            disc_number: self.disc_number,
            cover_path: self.cover_path.clone(),
            audio_format: self.audio_format.clone(),
            audio_bitrate: self.audio_bitrate,
            audio_sample_rate: self.audio_sample_rate,
            audio_bit_depth: self.audio_bit_depth,
            file_size_bytes: self.file_size_bytes,
            file_path: self.file_path.clone(),
        };
        proof {
            assert(r@.artists =~= self@.artists);
            assert(r@.featured_artists =~= self@.featured_artists);
        }
        r
    }
}

/// A release of the library with its tracks.
#[derive(Debug, PartialEq)]
pub struct LibraryRelease {
    pub id: i64,
    pub title: String,
    pub artists: Vec<LibraryArtist>,
    pub release_type: String,
    pub year: Option<i32>,
    pub cover_path: Option<String>,
    pub tracks: Vec<LibraryTrack>,
}

pub struct LibraryReleaseRow {
    pub id: i64,
    pub title: Seq<char>,
    pub artists: Seq<LibraryArtistRow>,
    pub release_type: Seq<char>,
    pub year: Option<i32>,
    pub cover_path: Option<Seq<char>>,
    pub tracks: Seq<LibraryTrackRow>,
}

impl View for LibraryRelease {
    type V = LibraryReleaseRow;

    open spec fn view(&self) -> LibraryReleaseRow {
        LibraryReleaseRow {
            id: self.id,
            title: self.title@,
            artists: views(self.artists@),
            release_type: self.release_type@,
            year: self.year,
            cover_path: opt_view(self.cover_path),
            tracks: views(self.tracks@),
        }
    }
}

impl Clone for LibraryRelease {
    fn clone(&self) -> (r: Self)
        ensures
            r@ == self@,
    {
        let r = LibraryRelease {
            id: self.id,
            title: self.title.clone(),
            artists: self.artists.clone(),
            release_type: self.release_type.clone(),
            year: self.year,
            cover_path: self.cover_path.clone(),
            tracks: self.tracks.clone(),
        };
        proof {
            assert(r@.artists =~= self@.artists);
            assert(r@.tracks =~= self@.tracks);
        }
        r
    }
}

/// An artist of the library with the numbers shown beside the name.
#[derive(Debug, PartialEq, Eq)]
pub struct LibraryArtistCard {
    pub id: i64,
    pub name: String,
    pub image_path: Option<String>,
    pub release_count: i64,
    pub track_count: i64,
}

pub struct LibraryArtistCardRow {
    pub id: i64,
    pub name: Seq<char>,
    pub image_path: Option<Seq<char>>,
    pub release_count: i64,
    pub track_count: i64,
}

impl View for LibraryArtistCard {
    type V = LibraryArtistCardRow;

    open spec fn view(&self) -> LibraryArtistCardRow {
        LibraryArtistCardRow {
            id: self.id,
            name: self.name@,
            image_path: opt_view(self.image_path),
            release_count: self.release_count,
            track_count: self.track_count,
        }
    }
}

impl Clone for LibraryArtistCard {
    fn clone(&self) -> (r: Self)
        ensures
            r@ == self@,
    {
        LibraryArtistCard {
            id: self.id,
            name: self.name.clone(),
            image_path: self.image_path.clone(),
            release_count: self.release_count,
            track_count: self.track_count,
        }
    }
}

/// A playlist of the library with its tracks.
#[derive(Debug, PartialEq)]
pub struct LibraryPlaylist {
    pub id: i64,
    pub title: String,
    pub kind: String,
    pub tracks: Vec<LibraryTrack>,
}

pub struct LibraryPlaylistRow {
    pub id: i64,
    pub title: Seq<char>,
    pub kind: Seq<char>,
    pub tracks: Seq<LibraryTrackRow>,
}

impl View for LibraryPlaylist {
    type V = LibraryPlaylistRow;

    open spec fn view(&self) -> LibraryPlaylistRow {
        LibraryPlaylistRow {
            id: self.id,
            title: self.title@,
            kind: self.kind@,
            tracks: views(self.tracks@),
        }
    }
}

impl Clone for LibraryPlaylist {
    fn clone(&self) -> (r: Self)
        ensures
            r@ == self@,
    {
        let r = LibraryPlaylist {
            id: self.id,
            title: self.title.clone(),
            kind: self.kind.clone(),
            tracks: self.tracks.clone(),
        };
        proof {
            assert(r@.tracks =~= self@.tracks);
        }
        r
    }
}

/// The number of things counted; what is negative counts as none.
pub open spec fn counted(n: i64) -> usize {
    if n < 0 {
        0
    } else if n > usize::MAX {
        usize::MAX
    } else {
        n as usize
    }
}

pub fn to_count(n: i64) -> (r: usize)
    ensures
        r == counted(n),
{
    if n < 0 {
        0
    } else if n as u64 > usize::MAX as u64 {
        usize::MAX
    } else {
        n as usize
    }
}

pub open spec fn local_ref(artist: LibraryArtistRow) -> ArtistRefModel {
    ArtistRefModel { key: ArtistKeyModel::Local(ArtistId(artist.id)), name: artist.name }
}

pub open spec fn local_refs(artists: Seq<LibraryArtistRow>) -> Seq<ArtistRefModel> {
    Seq::new(artists.len(), |i: int| local_ref(artists[i]))
}

fn refs_of(artists: &Vec<LibraryArtist>) -> (r: Vec<ArtistRef>)
    ensures
        views(r@) == local_refs(views(artists@)),
{
    let mut r: Vec<ArtistRef> = Vec::new();
    let mut i: usize = 0;
    while i < artists.len()
        invariant
            i <= artists.len(),
            views(r@) == local_refs(views(artists@)).take(i as int),
        decreases artists.len() - i,
    {
        let reference = ArtistRef {
            key: ArtistKey::local(ArtistId::new(artists[i].id)),
            name: artists[i].name.clone(),
        };
        r.push(reference);
        i += 1;
        proof {
            assert(views(r@) =~= local_refs(views(artists@)).take(i as int));
        }
    }
    proof {
        assert(views(r@) =~= local_refs(views(artists@)));
    }
    r
}

/// The content identifier that the library noted, where it is one.
pub open spec fn noted_content(content_id: Option<Seq<char>>) -> Option<Seq<char>> {
    match content_id {
        Some(id) => if is_content_id(ascii_lower(id)) {
            Some(ascii_lower(id))
        } else {
            None
        },
        None => None,
    }
}

/// A track of the library as a catalog track. Where the library names no
/// artist, `fallback_artist` stands in.
pub open spec fn local_track(row: LibraryTrackRow, fallback_artist: Seq<char>) -> TrackModel {
    TrackModel {
        key: TrackKeyModel {
            local_id: Some(LocalTrackId(row.id)),
            content_id: noted_content(row.content_id),
            federation_identity: None,
        },
        title: row.title,
        artist: if row.artist_line.len() == 0 {
            fallback_artist
        } else {
            row.artist_line
        },
        artists: local_refs(row.artists),
        featured_artists: local_refs(row.featured_artists),
        release: row.release_title,
        release_id: ReleaseKeyModel::Local(ReleaseId(row.release_id)),
        duration_nanos: row.duration_nanos,
        track_number: widen_u32(row.track_number),
        disc_number: widen_u32(row.disc_number),
        cover_uri: row.cover_path,
        audio_format: row.audio_format,
        audio_bitrate_kbps: widen_u32(row.audio_bitrate),
        audio_sample_rate_hz: widen_u32(row.audio_sample_rate),
        audio_bit_depth: widen_u32(row.audio_bit_depth),
        file_size_bytes: widen_u64(row.file_size_bytes),
        liked: false,
        audio_source: AudioSourceModel::LocalFile(row.file_path),
    }
}

pub fn library_track(track: LibraryTrack, fallback_artist: &str) -> (r: Track)
    ensures
        r@ == local_track(track@, fallback_artist@),
{
    let content_id = match &track.content_id {
        Some(id) => match ContentId::parse(id.as_str()) {
            Ok(id) => Some(id),
            Err(_) => None,
        },
        None => None,
    };
    let local_id = LocalTrackId::new(track.id);
    let key = match content_id {
        Some(id) => TrackKey::new(local_id, id),
        None => TrackKey::local(local_id),
    };
    let artists = refs_of(&track.artists);
    let featured_artists = refs_of(&track.featured_artists);
    let artist = if track.artist_line.as_str().is_empty() {
        fallback_artist.to_owned()
    } else {
        track.artist_line
    };
    Track {
        key,
        title: track.title,
        artist,
        artists,
        featured_artists,
        release: track.release_title,
        release_id: ReleaseKey::local(ReleaseId::new(track.release_id)),
        duration_nanos: track.duration_nanos,
        track_number: to_u32(track.track_number),
        disc_number: to_u32(track.disc_number),
        cover_uri: track.cover_path,
        audio_format: track.audio_format,
        audio_bitrate_kbps: to_u32(track.audio_bitrate),
        audio_sample_rate_hz: to_u32(track.audio_sample_rate),
        audio_bit_depth: to_u32(track.audio_bit_depth),
        file_size_bytes: to_u64(track.file_size_bytes),
        liked: false,
        audio_source: AudioSource::LocalFile(track.file_path),
    }
}

/// The main credits on the tracks, in order.
pub open spec fn main_credits(tracks: Seq<LibraryTrackRow>) -> Seq<LibraryArtistRow>
    decreases tracks.len(),
{
    if tracks.len() == 0 {
        Seq::empty()
    } else {
        main_credits(tracks.drop_last()) + tracks.last().artists
    }
}

/// The credits as a guest on the tracks, in order.
pub open spec fn guest_credits(tracks: Seq<LibraryTrackRow>) -> Seq<LibraryArtistRow>
    decreases tracks.len(),
{
    if tracks.len() == 0 {
        Seq::empty()
    } else {
        guest_credits(tracks.drop_last()) + tracks.last().featured_artists
    }
}

/// How often an artist is credited.
pub open spec fn times_credited(credits: Seq<LibraryArtistRow>, id: i64) -> nat
    decreases credits.len(),
{
    if credits.len() == 0 {
        0
    } else {
        times_credited(credits.drop_last(), id) + if credits.last().id == id {
            1nat
        } else {
            0nat
        }
    }
}

/// Whether an artist of the release counts as a main one: credited as such on a
/// track, or on none as a guest.
pub open spec fn is_main(tracks: Seq<LibraryTrackRow>, id: i64) -> bool {
    times_credited(main_credits(tracks), id) > 0 || times_credited(guest_credits(tracks), id) == 0
}

/// Those of the artists that are main ones (`main`), or that are not, in order.
pub open spec fn by_role(
    artists: Seq<LibraryArtistRow>,
    tracks: Seq<LibraryTrackRow>,
    main: bool,
) -> Seq<LibraryArtistRow>
    decreases artists.len(),
{
    if artists.len() == 0 {
        Seq::empty()
    } else if is_main(tracks, artists.last().id) == main {
        by_role(artists.drop_last(), tracks, main).push(artists.last())
    } else {
        by_role(artists.drop_last(), tracks, main)
    }
}

/// The artists of `credits` that are not among `known`, each once, in the order
/// they first appear.
pub open spec fn newly_credited(
    known: Seq<LibraryArtistRow>,
    credits: Seq<LibraryArtistRow>,
) -> Seq<LibraryArtistRow>
    decreases credits.len(),
{
    if credits.len() == 0 {
        Seq::empty()
    } else {
        let so_far = newly_credited(known, credits.drop_last());
        if times_credited(known, credits.last().id) > 0 || times_credited(
            so_far,
            credits.last().id,
        ) > 0 {
            so_far
        } else {
            so_far.push(credits.last())
        }
    }
}

pub open spec fn credited_more(tracks: Seq<LibraryTrackRow>) -> spec_fn(
    LibraryArtistRow,
    LibraryArtistRow,
) -> bool {
    |a: LibraryArtistRow, b: LibraryArtistRow|
        times_credited(main_credits(tracks), a.id) > times_credited(main_credits(tracks), b.id)
}

/// The main artists of a release: its own, then those credited on its tracks
/// alone, the most credited first.
pub open spec fn main_artists(release: LibraryReleaseRow) -> Seq<LibraryArtistRow> {
    stable_sorted(
        by_role(release.artists, release.tracks, true) + newly_credited(
            release.artists,
            main_credits(release.tracks),
        ),
        credited_more(release.tracks),
    )
}

/// The guests of a release: those of its artists that are nothing else, then
/// those who are guests on its tracks alone.
pub open spec fn guest_artists(release: LibraryReleaseRow) -> Seq<LibraryArtistRow> {
    by_role(release.artists, release.tracks, false) + newly_credited(
        release.artists + newly_credited(release.artists, main_credits(release.tracks)),
        guest_credits(release.tracks),
    )
}

fn main_credits_of(tracks: &Vec<LibraryTrack>) -> (r: Vec<LibraryArtist>)
    ensures
        views(r@) == main_credits(views(tracks@)),
{
    let ghost all = views(tracks@);
    let mut r: Vec<LibraryArtist> = Vec::new();
    let mut i: usize = 0;
    while i < tracks.len()
        invariant
            i <= tracks.len() == all.len(),
            all == views(tracks@),
            views(r@) == main_credits(all.take(i as int)),
        decreases tracks.len() - i,
    {
        let mut more = tracks[i].artists.clone();
        proof {
            assert(views(more@) =~= all[i as int].artists);
            assert(all.take(i + 1).drop_last() =~= all.take(i as int));
        }
        r.append(&mut more);
        i += 1;
    }
    proof {
        assert(all.take(i as int) =~= all);
    }
    r
}

fn guest_credits_of(tracks: &Vec<LibraryTrack>) -> (r: Vec<LibraryArtist>)
    ensures
        views(r@) == guest_credits(views(tracks@)),
{
    let ghost all = views(tracks@);
    let mut r: Vec<LibraryArtist> = Vec::new();
    let mut i: usize = 0;
    while i < tracks.len()
        invariant
            i <= tracks.len() == all.len(),
            all == views(tracks@),
            views(r@) == guest_credits(all.take(i as int)),
        decreases tracks.len() - i,
    {
        let mut more = tracks[i].featured_artists.clone();
        proof {
            assert(views(more@) =~= all[i as int].featured_artists);
            assert(all.take(i + 1).drop_last() =~= all.take(i as int));
        }
        r.append(&mut more);
        i += 1;
    }
    proof {
        assert(all.take(i as int) =~= all);
    }
    r
}

fn count_credits(credits: &Vec<LibraryArtist>, id: i64) -> (r: usize)
    ensures
        r == times_credited(views(credits@), id),
{
    let ghost all = views(credits@);
    let mut r: usize = 0;
    let mut i: usize = 0;
    while i < credits.len()
        invariant
            r <= i <= credits.len() == all.len(),
            all == views(credits@),
            r == times_credited(all.take(i as int), id),
        decreases credits.len() - i,
    {
        proof {
            assert(all.take(i + 1).drop_last() =~= all.take(i as int));
        }
        if credits[i].id == id {
            r += 1;
        }
        i += 1;
    }
    proof {
        assert(all.take(i as int) =~= all);
    }
    r
}

fn with_role(
    artists: &Vec<LibraryArtist>,
    main_credits: &Vec<LibraryArtist>,
    guest_credits: &Vec<LibraryArtist>,
    main: bool,
    Ghost(tracks): Ghost<Seq<LibraryTrackRow>>,
) -> (r: Vec<LibraryArtist>)
    requires
        views(main_credits@) == self::main_credits(tracks),
        views(guest_credits@) == self::guest_credits(tracks),
    ensures
        views(r@) == by_role(views(artists@), tracks, main),
{
    let ghost all = views(artists@);
    let mut r: Vec<LibraryArtist> = Vec::new();
    let mut i: usize = 0;
    while i < artists.len()
        invariant
            views(main_credits@) == self::main_credits(tracks),
            views(guest_credits@) == self::guest_credits(tracks),
            i <= artists.len() == all.len(),
            all == views(artists@),
            views(r@) == by_role(all.take(i as int), tracks, main),
        decreases artists.len() - i,
    {
        proof {
            assert(all.take(i + 1).drop_last() =~= all.take(i as int));
        }
        let counts_as_main = count_credits(main_credits, artists[i].id) > 0 || count_credits(
            guest_credits,
            artists[i].id,
        ) == 0;
        if counts_as_main == main {
            r.push(artists[i].clone());
        }
        i += 1;
    }
    proof {
        assert(all.take(i as int) =~= all);
    }
    r
}

fn fresh_credits(known: &Vec<LibraryArtist>, credits: &Vec<LibraryArtist>) -> (r: Vec<
    LibraryArtist,
>)
    ensures
        views(r@) == newly_credited(views(known@), views(credits@)),
{
    let ghost all = views(credits@);
    let mut r: Vec<LibraryArtist> = Vec::new();
    let mut i: usize = 0;
    while i < credits.len()
        invariant
            i <= credits.len() == all.len(),
            all == views(credits@),
            views(r@) == newly_credited(views(known@), all.take(i as int)),
        decreases credits.len() - i,
    {
        proof {
            assert(all.take(i + 1).drop_last() =~= all.take(i as int));
        }
        if count_credits(known, credits[i].id) == 0 && count_credits(&r, credits[i].id) == 0 {
            r.push(credits[i].clone());
        }
        i += 1;
    }
    proof {
        assert(all.take(i as int) =~= all);
    }
    r
}

/// Who the main artists of a release are, and who its guests.
pub fn release_artist_roles(release: &LibraryRelease) -> (r: (Vec<ArtistRef>, Vec<ArtistRef>))
    ensures
        views(r.0@) == local_refs(main_artists(release@)),
        views(r.1@) == local_refs(guest_artists(release@)),
{
    let ghost tracks = views(release.tracks@);
    let main = main_credits_of(&release.tracks);
    let guest = guest_credits_of(&release.tracks);
    let mut main_list = with_role(&release.artists, &main, &guest, true, Ghost(tracks));
    let mut guest_list = with_role(&release.artists, &main, &guest, false, Ghost(tracks));
    let mut known = release.artists.clone();
    proof {
        assert(views(known@) =~= views(release.artists@));
    }
    let mut new_main = fresh_credits(&known, &main);
    let mut new_main_copy = new_main.clone();
    proof {
        assert(views(new_main_copy@) =~= views(new_main@));
    }
    main_list.append(&mut new_main);
    known.append(&mut new_main_copy);
    let mut new_guests = fresh_credits(&known, &guest);
    guest_list.append(&mut new_guests);
    let ghost unsorted = main_list@;
    let ghost lt = |a: LibraryArtist, b: LibraryArtist| credited_more(tracks)(a@, b@);
    let before = |a: &LibraryArtist, b: &LibraryArtist| -> (y: bool)
        ensures
            y == lt(*a, *b),
        { count_credits(&main, a.id) > count_credits(&main, b.id) };
    proof {
        lemma_sorted_views(unsorted, lt, credited_more(tracks));
    }
    let sorted = stable_sort(main_list, before, Ghost(lt));
    (refs_of(&sorted), refs_of(&guest_list))
}

/// The tracks of the library as catalog tracks.
pub open spec fn local_tracks(rows: Seq<LibraryTrackRow>, fallback: Seq<char>) -> Seq<TrackModel> {
    Seq::new(rows.len(), |i: int| local_track(rows[i], fallback))
}

fn tracks_of(rows: Vec<LibraryTrack>, fallback: &str) -> (r: Vec<Track>)
    ensures
        views(r@) == local_tracks(views(rows@), fallback@),
{
    let ghost all = views(rows@);
    let mut rest = rows;
    let mut r: Vec<Track> = Vec::new();
    while rest.len() > 0
        invariant
            r.len() + rest.len() == all.len(),
            views(rest@) == all.skip(r.len() as int),
            views(r@) == local_tracks(all, fallback@).take(r.len() as int),
        decreases rest.len(),
    {
        let ghost done = r.len() as int;
        let row = rest.remove(0);
        proof {
            assert(row@ == all[done]);
            assert(views(rest@) =~= all.skip(done + 1));
        }
        r.push(library_track(row, fallback));
        proof {
            assert(views(r@) =~= local_tracks(all, fallback@).take(done + 1));
        }
    }
    proof {
        assert(views(r@) =~= local_tracks(all, fallback@));
    }
    r
}

/// A release of the library as a catalog release.
pub open spec fn local_release(row: LibraryReleaseRow) -> ReleaseModel {
    let artists = local_refs(main_artists(row));
    ReleaseModel {
        key: ReleaseKeyModel::Local(ReleaseId(row.id)),
        source: CatalogSourceModel::Local,
        title: row.title,
        artists,
        featured_artists: local_refs(guest_artists(row)),
        release_type: row.release_type,
        year: row.year,
        artwork: row.cover_path,
        tracks: local_tracks(row.tracks, joined(artist_names(artists), ", "@)),
    }
}

pub fn library_release(detail: LibraryRelease) -> (r: Release)
    ensures
        r@ == local_release(detail@),
{
    let (artists, featured_artists) = release_artist_roles(&detail);
    let fallback = join(&names_of(&artists), ", ");
    let tracks = tracks_of(detail.tracks, fallback.as_str());
    Release {
        key: ReleaseKey::local(ReleaseId::new(detail.id)),
        source: CatalogSource::Local,
        title: detail.title,
        artists,
        featured_artists,
        release_type: detail.release_type,
        year: detail.year,
        artwork: Artwork { uri: detail.cover_path },
        tracks,
    }
}

/// An artist of the library as a catalog artist.
pub open spec fn local_artist(card: LibraryArtistCardRow) -> ArtistModel {
    ArtistModel {
        key: ArtistKeyModel::Local(ArtistId(card.id)),
        source: CatalogSourceModel::Local,
        name: card.name,
        artwork: card.image_path,
        release_count: counted(card.release_count),
        track_count: counted(card.track_count),
    }
}

pub fn library_artist(card: LibraryArtistCard) -> (r: Artist)
    ensures
        r@ == local_artist(card@),
{
    Artist {
        key: ArtistKey::local(ArtistId::new(card.id)),
        source: CatalogSource::Local,
        name: card.name,
        artwork: Artwork { uri: card.image_path },
        release_count: to_count(card.release_count),
        track_count: to_count(card.track_count),
    }
}

pub open spec fn local_artists(cards: Seq<LibraryArtistCardRow>) -> Seq<ArtistModel> {
    Seq::new(cards.len(), |i: int| local_artist(cards[i]))
}

pub open spec fn local_releases(rows: Seq<LibraryReleaseRow>) -> Seq<ReleaseModel> {
    Seq::new(rows.len(), |i: int| local_release(rows[i]))
}

fn artists_of(cards: Vec<LibraryArtistCard>) -> (r: Vec<Artist>)
    ensures
        views(r@) == local_artists(views(cards@)),
{
    let ghost all = views(cards@);
    let mut rest = cards;
    let mut r: Vec<Artist> = Vec::new();
    while rest.len() > 0
        invariant
            r.len() + rest.len() == all.len(),
            views(rest@) == all.skip(r.len() as int),
            views(r@) == local_artists(all).take(r.len() as int),
        decreases rest.len(),
    {
        let ghost done = r.len() as int;
        let card = rest.remove(0);
        proof {
            assert(card@ == all[done]);
            assert(views(rest@) =~= all.skip(done + 1));
        }
        r.push(library_artist(card));
        proof {
            assert(views(r@) =~= local_artists(all).take(done + 1));
        }
    }
    proof {
        assert(views(r@) =~= local_artists(all));
    }
    r
}

fn releases_of(rows: Vec<LibraryRelease>) -> (r: Vec<Release>)
    ensures
        views(r@) == local_releases(views(rows@)),
{
    let ghost all = views(rows@);
    let mut rest = rows;
    let mut r: Vec<Release> = Vec::new();
    while rest.len() > 0
        invariant
            r.len() + rest.len() == all.len(),
            views(rest@) == all.skip(r.len() as int),
            views(r@) == local_releases(all).take(r.len() as int),
        decreases rest.len(),
    {
        let ghost done = r.len() as int;
        let row = rest.remove(0);
        proof {
            assert(row@ == all[done]);
            assert(views(rest@) =~= all.skip(done + 1));
        }
        r.push(library_release(row));
        proof {
            assert(views(r@) =~= local_releases(all).take(done + 1));
        }
    }
    proof {
        assert(views(r@) =~= local_releases(all));
    }
    r
}

/// What a search of the library found, as search results.
pub fn local_search_results(
    artists: Vec<LibraryArtistCard>,
    releases: Vec<LibraryRelease>,
    tracks: Vec<LibraryTrack>,
) -> (r: SearchResults)
    ensures
        r@ == (SearchResultsModel {
            artists: local_artists(views(artists@)),
            releases: local_releases(views(releases@)),
            tracks: local_tracks(views(tracks@), Seq::empty()),
        }),
{
    SearchResults {
        artists: artists_of(artists),
        releases: releases_of(releases),
        tracks: tracks_of(tracks, String::new().as_str()),
    }
}

/// Whether the listener likes the track: by its content, or by the item a peer
/// publishes it as.
pub open spec fn is_liked(track: TrackModel, liked_ids: Seq<Seq<char>>) -> bool {
    ||| track.key.content_id matches Some(id) && liked_ids.contains(id)
    ||| track.key.federation_identity matches Some((_, item)) && liked_ids.contains(item)
}

pub open spec fn with_like(track: TrackModel, liked_ids: Seq<Seq<char>>) -> TrackModel {
    TrackModel { liked: is_liked(track, liked_ids), ..track }
}

pub open spec fn with_likes(tracks: Seq<TrackModel>, liked_ids: Seq<Seq<char>>) -> Seq<TrackModel> {
    Seq::new(tracks.len(), |i: int| with_like(tracks[i], liked_ids))
}

fn holds(ids: &Vec<String>, id: &str) -> (r: bool)
    ensures
        r == views(ids@).contains(id@),
{
    let mut i: usize = 0;
    while i < ids.len()
        invariant
            i <= ids.len(),
            forall|j: int| 0 <= j < i ==> #[trigger] views(ids@)[j] != id@,
        decreases ids.len() - i,
    {
        if same_str(ids[i].as_str(), id) {
            assert(views(ids@)[i as int] == id@);
            return true;
        }
        i += 1;
    }
    false
}

pub fn track_is_liked(track: &Track, liked_ids: &Vec<String>) -> (r: bool)
    ensures
        r == is_liked(track@, views(liked_ids@)),
{
    let by_content = match track.key.content_id() {
        Some(id) => holds(liked_ids, id.as_str()),
        None => false,
    };
    let by_item = match track.key.federation_id() {
        Some((_, item)) => holds(liked_ids, item),
        None => false,
    };
    by_content || by_item
}

/// Marks which of the tracks the listener likes.
pub fn mark_likes(tracks: &mut Vec<Track>, liked_ids: &Vec<String>)
    ensures
        views(final(tracks)@) == with_likes(views(old(tracks)@), views(liked_ids@)),
{
    let ghost all = views(tracks@);
    let ghost target = with_likes(all, views(liked_ids@));
    let mut i: usize = 0;
    while i < tracks.len()
        invariant
            i <= tracks.len() == all.len(),
            target == with_likes(all, views(liked_ids@)),
            views(tracks@) == target.take(i as int) + all.skip(i as int),
        decreases tracks.len() - i,
    {
        let mut track = tracks[i].clone();
        track.liked = track_is_liked(&track, liked_ids);
        proof {
            assert(views(tracks@)[i as int] == all[i as int]);
        }
        tracks[i] = track;
        proof {
            assert(views(tracks@) =~= target.take(i + 1) + all.skip(i + 1));
        }
        i += 1;
    }
    proof {
        assert(views(tracks@) =~= target);
    }
}

/// How many tracks the start of the library shows.
pub const RECENT_LIMIT: usize = 12;

/// A release with the likes marked on its tracks.
pub open spec fn liked_release(row: LibraryReleaseRow, liked_ids: Seq<Seq<char>>) -> ReleaseModel {
    ReleaseModel {
        tracks: with_likes(local_release(row).tracks, liked_ids),
        ..local_release(row)
    }
}

pub open spec fn liked_releases(rows: Seq<LibraryReleaseRow>, liked_ids: Seq<Seq<char>>) -> Seq<
    ReleaseModel,
> {
    Seq::new(rows.len(), |i: int| liked_release(rows[i], liked_ids))
}

/// All tracks of the releases, one release behind the other.
pub open spec fn release_tracks(releases: Seq<ReleaseModel>) -> Seq<TrackModel>
    decreases releases.len(),
{
    if releases.len() == 0 {
        Seq::empty()
    } else {
        release_tracks(releases.drop_last()) + releases.last().tracks
    }
}

/// At most the first `n` elements.
pub open spec fn at_most<T>(s: Seq<T>, n: int) -> Seq<T> {
    if s.len() <= n {
        s
    } else {
        s.take(n)
    }
}

pub open spec fn local_playlist(row: LibraryPlaylistRow, liked_ids: Seq<Seq<char>>) -> PlaylistModel {
    PlaylistModel {
        id: row.id,
        title: row.title,
        is_likes: row.kind == "likes"@,
        tracks: with_likes(local_tracks(row.tracks, Seq::empty()), liked_ids),
    }
}

pub open spec fn local_playlists(rows: Seq<LibraryPlaylistRow>, liked_ids: Seq<Seq<char>>) -> Seq<
    PlaylistModel,
> {
    Seq::new(rows.len(), |i: int| local_playlist(rows[i], liked_ids))
}

/// The library as the backend shows it.
pub fn library_snapshot(
    artists: Vec<LibraryArtistCard>,
    releases: Vec<LibraryRelease>,
    playlists: Vec<LibraryPlaylist>,
    liked_ids: &Vec<String>,
) -> (r: LibrarySnapshot)
    ensures
        r@ == (LibraryModel {
            artists: local_artists(views(artists@)),
            featured_releases: liked_releases(views(releases@), views(liked_ids@)),
            recently_played: at_most(
                release_tracks(liked_releases(views(releases@), views(liked_ids@))),
                RECENT_LIMIT as int,
            ),
            playlists: local_playlists(views(playlists@), views(liked_ids@)),
        }),
{
    let ghost liked = views(liked_ids@);
    let ghost rows = views(releases@);
    let mut rest = releases;
    let mut featured_releases: Vec<Release> = Vec::new();
    while rest.len() > 0
        invariant
            liked == views(liked_ids@),
            featured_releases.len() + rest.len() == rows.len(),
            views(rest@) == rows.skip(featured_releases.len() as int),
            views(featured_releases@) == liked_releases(rows, liked).take(
                featured_releases.len() as int,
            ),
        decreases rest.len(),
    {
        let ghost done = featured_releases.len() as int;
        let row = rest.remove(0);
        proof {
            assert(row@ == rows[done]);
            assert(views(rest@) =~= rows.skip(done + 1));
        }
        let mut release = library_release(row);
        mark_likes(&mut release.tracks, liked_ids);
        featured_releases.push(release);
        proof {
            assert(views(featured_releases@) =~= liked_releases(rows, liked).take(done + 1));
        }
    }
    proof {
        assert(views(featured_releases@) =~= liked_releases(rows, liked));
    }
    let recently_played = first_tracks(&featured_releases);
    let ghost lists = views(playlists@);
    let mut rest = playlists;
    let mut shown: Vec<PlaylistSnapshot> = Vec::new();
    while rest.len() > 0
        invariant
            liked == views(liked_ids@),
            shown.len() + rest.len() == lists.len(),
            views(rest@) == lists.skip(shown.len() as int),
            views(shown@) == local_playlists(lists, liked).take(shown.len() as int),
        decreases rest.len(),
    {
        let ghost done = shown.len() as int;
        let row = rest.remove(0);
        proof {
            assert(row@ == lists[done]);
            assert(views(rest@) =~= lists.skip(done + 1));
        }
        let is_likes = same_str(row.kind.as_str(), "likes");
        let mut tracks = tracks_of(row.tracks, String::new().as_str());
        mark_likes(&mut tracks, liked_ids);
        shown.push(PlaylistSnapshot { id: row.id, title: row.title, is_likes, tracks });
        proof {
            assert(views(shown@) =~= local_playlists(lists, liked).take(done + 1));
        }
    }
    proof {
        assert(views(shown@) =~= local_playlists(lists, liked));
    }
    LibrarySnapshot {
        artists: artists_of(artists),
        featured_releases,
        recently_played,
        playlists: shown,
    }
}

fn first_tracks(releases: &Vec<Release>) -> (r: Vec<Track>)
    ensures
        views(r@) == at_most(release_tracks(views(releases@)), RECENT_LIMIT as int),
{
    let ghost all = views(releases@);
    let mut r: Vec<Track> = Vec::new();
    let mut i: usize = 0;
    while i < releases.len()
        invariant
            i <= releases.len() == all.len(),
            all == views(releases@),
            views(r@) == release_tracks(all.take(i as int)),
        decreases releases.len() - i,
    {
        let mut more = releases[i].tracks.clone();
        proof {
            assert(views(more@) =~= all[i as int].tracks);
            assert(all.take(i + 1).drop_last() =~= all.take(i as int));
        }
        r.append(&mut more);
        i += 1;
    }
    proof {
        assert(all.take(i as int) =~= all);
    }
    let ghost full = r@;
    r.truncate(RECENT_LIMIT);
    proof {
        assert(views(full).len() == full.len());
        if full.len() > RECENT_LIMIT {
            assert(views(r@) =~= views(full).take(RECENT_LIMIT as int));
        } else {
            assert(r@ =~= full);
        }
    }
    r
}

} // verus!

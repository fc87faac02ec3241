//! What the library publishes to its peers, and what it takes over from them.
use crate::catalog::{Track, TrackModel};
use crate::federation::ItemKind;
use crate::text::{signed_decimal, signed_decimal_text, trim, trimmed};
use crate::views::{opt_view, views};
use crate::wire::{synced_fed, track_to_synced_fed, SyncedFedTrack, SyncedFedTrackModel};
use vstd::prelude::*;

verus! {

broadcast use crate::views::group_views;

/// An artist of the library, as it is given out.
#[derive(Debug, PartialEq)]
pub struct ExportedArtist {
    pub id: i64,
    pub name: String,
}

pub struct ExportedArtistModel {
    pub id: i64,
    pub name: Seq<char>,
}

impl View for ExportedArtist {
    type V = ExportedArtistModel;

    open spec fn view(&self) -> ExportedArtistModel {
        ExportedArtistModel {
            id: self.id,
            name: self.name@,
        }
    }
}

/// A release of the library, as it is given out.
#[derive(Debug, PartialEq)]
pub struct ExportedRelease {
    pub id: i64,
    pub title: String,
    pub artist_names: Vec<String>,
    pub year: Option<i32>,
    pub release_type: String,
}

pub struct ExportedReleaseModel {
    pub id: i64,
    pub title: Seq<char>,
    pub artist_names: Seq<Seq<char>>,
    pub year: Option<i32>,
    pub release_type: Seq<char>,
}

impl View for ExportedRelease {
    type V = ExportedReleaseModel;

    open spec fn view(&self) -> ExportedReleaseModel {
        ExportedReleaseModel {
            id: self.id,
            title: self.title@,
            artist_names: views(self.artist_names@),
            year: self.year,
            release_type: self.release_type@,
        }
    }
}

/// A track of the library, as it is given out.
#[derive(Debug, PartialEq)]
pub struct ExportedTrack {
    pub id: i64,
    pub title: String,
    pub artist_names: Vec<String>,
    pub featured_artist_names: Vec<String>,
    pub year: Option<i32>,
    pub release_type: String,
    pub release_title: String,
    pub track_number: Option<i32>,
    pub disc_number: Option<i32>,
    pub duration_nanos: u64,
    pub content_id: Option<String>,
}

pub struct ExportedTrackModel {
    pub id: i64,
    pub title: Seq<char>,
    pub artist_names: Seq<Seq<char>>,
    pub featured_artist_names: Seq<Seq<char>>,
    pub year: Option<i32>,
    pub release_type: Seq<char>,
    pub release_title: Seq<char>,
    pub track_number: Option<i32>,
    pub disc_number: Option<i32>,
    pub duration_nanos: u64,
    pub content_id: Option<Seq<char>>,
}

impl View for ExportedTrack {
    type V = ExportedTrackModel;

    open spec fn view(&self) -> ExportedTrackModel {
        ExportedTrackModel {
            id: self.id,
            title: self.title@,
            artist_names: views(self.artist_names@),
            featured_artist_names: views(self.featured_artist_names@),
            year: self.year,
            release_type: self.release_type@,
            release_title: self.release_title@,
            track_number: self.track_number,
            disc_number: self.disc_number,
            duration_nanos: self.duration_nanos,
            content_id: opt_view(self.content_id),
        }
    }
}

/// What the library gives out.
#[derive(Debug, PartialEq)]
pub struct FederationExport {
    pub artists: Vec<ExportedArtist>,
    pub releases: Vec<ExportedRelease>,
    pub tracks: Vec<ExportedTrack>,
}

pub struct FederationExportModel {
    pub artists: Seq<ExportedArtistModel>,
    pub releases: Seq<ExportedReleaseModel>,
    pub tracks: Seq<ExportedTrackModel>,
}

impl View for FederationExport {
    type V = FederationExportModel;

    open spec fn view(&self) -> FederationExportModel {
        FederationExportModel {
            artists: views(self.artists@),
            releases: views(self.releases@),
            tracks: views(self.tracks@),
        }
    }
}

/// An entry to be published.
#[derive(Debug, PartialEq)]
pub struct ItemSpec {
    pub local_key: String,
    pub kind: ItemKind,
    pub name: String,
    pub artist_names: Vec<String>,
    pub featured_artist_names: Vec<String>,
    pub year: Option<i32>,
    pub release_type: Option<String>,
    pub release_title: Option<String>,
    pub track_number: Option<i32>,
    pub disc_number: Option<i32>,
    pub duration_nanos: Option<u64>,
    pub content_id: Option<String>,
}

pub struct ItemSpecModel {
    pub local_key: Seq<char>,
    pub kind: ItemKind,
    pub name: Seq<char>,
    pub artist_names: Seq<Seq<char>>,
    pub featured_artist_names: Seq<Seq<char>>,
    pub year: Option<i32>,
    pub release_type: Option<Seq<char>>,
    pub release_title: Option<Seq<char>>,
    pub track_number: Option<i32>,
    pub disc_number: Option<i32>,
    pub duration_nanos: Option<u64>,
    pub content_id: Option<Seq<char>>,
}

impl View for ItemSpec {
    type V = ItemSpecModel;

    open spec fn view(&self) -> ItemSpecModel {
        ItemSpecModel {
            local_key: self.local_key@,
            kind: self.kind,
            name: self.name@,
            artist_names: views(self.artist_names@),
            featured_artist_names: views(self.featured_artist_names@),
            year: self.year,
            release_type: opt_view(self.release_type),
            release_title: opt_view(self.release_title),
            track_number: self.track_number,
            disc_number: self.disc_number,
            duration_nanos: self.duration_nanos,
            content_id: opt_view(self.content_id),
        }
    }
}

/// What a peer says of a track that it sent.
#[derive(Debug, PartialEq)]
pub struct TrackMetadata {
    pub title: String,
    pub artists: Vec<String>,
    pub featured_artists: Vec<String>,
    pub album_artists: Vec<String>,
    pub release_title: String,
    pub release_type: Option<String>,
    pub year: Option<i32>,
    pub track_number: Option<i32>,
    pub disc_number: Option<i32>,
    pub duration_nanos: Option<u64>,
    pub audio_format: Option<String>,
    pub audio_bitrate: Option<i32>,
    pub audio_sample_rate: Option<i32>,
    pub audio_bit_depth: Option<i32>,
}

pub struct TrackMetadataModel {
    pub title: Seq<char>,
    pub artists: Seq<Seq<char>>,
    pub featured_artists: Seq<Seq<char>>,
    pub album_artists: Seq<Seq<char>>,
    pub release_title: Seq<char>,
    pub release_type: Option<Seq<char>>,
    pub year: Option<i32>,
    pub track_number: Option<i32>,
    pub disc_number: Option<i32>,
    pub duration_nanos: Option<u64>,
    pub audio_format: Option<Seq<char>>,
    pub audio_bitrate: Option<i32>,
    pub audio_sample_rate: Option<i32>,
    pub audio_bit_depth: Option<i32>,
}

impl View for TrackMetadata {
    type V = TrackMetadataModel;

    open spec fn view(&self) -> TrackMetadataModel {
        TrackMetadataModel {
            title: self.title@,
            artists: views(self.artists@),
            featured_artists: views(self.featured_artists@),
            album_artists: views(self.album_artists@),
            release_title: self.release_title@,
            release_type: opt_view(self.release_type),
            year: self.year,
            track_number: self.track_number,
            disc_number: self.disc_number,
            duration_nanos: self.duration_nanos,
            audio_format: opt_view(self.audio_format),
            audio_bitrate: self.audio_bitrate,
            audio_sample_rate: self.audio_sample_rate,
            audio_bit_depth: self.audio_bit_depth,
        }
    }
}

/// A track that is about to be taken into the library.
#[derive(Debug, PartialEq)]
pub struct TrackImport {
    pub title: String,
    pub artists: Vec<String>,
    pub featured_artists: Vec<String>,
    pub album_artists: Vec<String>,
    pub release_title: String,
    pub release_type: Option<String>,
    pub year: Option<i32>,
    pub track_number: Option<i32>,
    pub disc_number: Option<i32>,
    pub duration_nanos: u64,
    pub audio_format: Option<String>,
    pub audio_bitrate: Option<i32>,
    pub audio_sample_rate: Option<i32>,
    pub audio_bit_depth: Option<i32>,
}

pub struct TrackImportModel {
    pub title: Seq<char>,
    pub artists: Seq<Seq<char>>,
    pub featured_artists: Seq<Seq<char>>,
    pub album_artists: Seq<Seq<char>>,
    pub release_title: Seq<char>,
    pub release_type: Option<Seq<char>>,
    pub year: Option<i32>,
    pub track_number: Option<i32>,
    pub disc_number: Option<i32>,
    pub duration_nanos: u64,
    pub audio_format: Option<Seq<char>>,
    pub audio_bitrate: Option<i32>,
    pub audio_sample_rate: Option<i32>,
    pub audio_bit_depth: Option<i32>,
}

impl View for TrackImport {
    type V = TrackImportModel;

    open spec fn view(&self) -> TrackImportModel {
        TrackImportModel {
            title: self.title@,
            artists: views(self.artists@),
            featured_artists: views(self.featured_artists@),
            album_artists: views(self.album_artists@),
            release_title: self.release_title@,
            release_type: opt_view(self.release_type),
            year: self.year,
            track_number: self.track_number,
            disc_number: self.disc_number,
            duration_nanos: self.duration_nanos,
            audio_format: opt_view(self.audio_format),
            audio_bitrate: self.audio_bitrate,
            audio_sample_rate: self.audio_sample_rate,
            audio_bit_depth: self.audio_bit_depth,
        }
    }
}

/// A track of a peer, as the library notes it.
#[derive(Debug, PartialEq)]
pub struct FederatedTrack {
    pub item_id: String,
    pub owner: String,
    pub own: bool,
    pub title: String,
    pub artist_names: Vec<String>,
    pub featured_artist_names: Vec<String>,
    pub year: Option<i32>,
    pub duration_seconds: Option<i64>,
    pub content_id: Option<String>,
    pub release_title: Option<String>,
    pub track_number: Option<i32>,
    pub disc_number: Option<i32>,
}

pub struct FederatedTrackModel {
    pub item_id: Seq<char>,
    pub owner: Seq<char>,
    pub own: bool,
    pub title: Seq<char>,
    pub artist_names: Seq<Seq<char>>,
    pub featured_artist_names: Seq<Seq<char>>,
    pub year: Option<i32>,
    pub duration_seconds: Option<i64>,
    pub content_id: Option<Seq<char>>,
    pub release_title: Option<Seq<char>>,
    pub track_number: Option<i32>,
    pub disc_number: Option<i32>,
}

impl View for FederatedTrack {
    type V = FederatedTrackModel;

    open spec fn view(&self) -> FederatedTrackModel {
        FederatedTrackModel {
            item_id: self.item_id@,
            owner: self.owner@,
            own: self.own,
            title: self.title@,
            artist_names: views(self.artist_names@),
            featured_artist_names: views(self.featured_artist_names@),
            year: self.year,
            duration_seconds: self.duration_seconds,
            content_id: opt_view(self.content_id),
            release_title: opt_view(self.release_title),
            track_number: self.track_number,
            disc_number: self.disc_number,
        }
    }
}


pub open spec fn artist_item(artist: ExportedArtistModel) -> ItemSpecModel {
    ItemSpecModel {
        local_key: "artist:"@ + signed_decimal(artist.id as int),
        kind: ItemKind::Artist,
        name: artist.name,
        artist_names: Seq::empty(),
        featured_artist_names: Seq::empty(),
        year: None,
        release_type: None,
        release_title: None,
        track_number: None,
        disc_number: None,
        duration_nanos: None,
        content_id: None,
    }
}

pub open spec fn release_item(release: ExportedReleaseModel) -> ItemSpecModel {
    ItemSpecModel {
        local_key: "release:"@ + signed_decimal(release.id as int),
        kind: ItemKind::Release,
        name: release.title,
        artist_names: release.artist_names,
        featured_artist_names: Seq::empty(),
        year: release.year,
        release_type: Some(release.release_type),
        release_title: None,
        track_number: None,
        disc_number: None,
        duration_nanos: None,
        content_id: None,
    }
}

/// A duration of zero is not known.
pub open spec fn track_item(track: ExportedTrackModel) -> ItemSpecModel {
    ItemSpecModel {
        local_key: "track:"@ + signed_decimal(track.id as int),
        kind: ItemKind::Track,
        name: track.title,
        artist_names: track.artist_names,
        featured_artist_names: track.featured_artist_names,
        year: track.year,
        release_type: Some(track.release_type),
        release_title: Some(track.release_title),
        track_number: track.track_number,
        disc_number: track.disc_number,
        duration_nanos: if track.duration_nanos > 0 {
            Some(track.duration_nanos)
        } else {
            None
        },
        content_id: track.content_id,
    }
}

/// The artists come first, then the releases, then the tracks.
pub open spec fn published(export: FederationExportModel) -> Seq<ItemSpecModel> {
    export.artists.map_values(|a: ExportedArtistModel| artist_item(a)) + export.releases.map_values(
        |r: ExportedReleaseModel| release_item(r),
    ) + export.tracks.map_values(|t: ExportedTrackModel| track_item(t))
}

fn local_key(prefix: &str, id: i64) -> (r: String)
    ensures
        r@ == prefix@ + signed_decimal(id as int),
{
    let mut r = prefix.to_owned();
    r.push_str(signed_decimal_text(id).as_str());
    r
}

fn no_names() -> (r: Vec<String>)
    ensures
        views(r@) == Seq::<Seq<char>>::empty(),
{
    let r: Vec<String> = Vec::new();
    assert(views(r@) =~= Seq::empty());
    r
}

fn publish_artist(artist: ExportedArtist) -> (r: ItemSpec)
    ensures
        r@ == artist_item(artist@),
{
    ItemSpec {
        local_key: local_key("artist:", artist.id),
        kind: ItemKind::Artist,
        name: artist.name,
        artist_names: no_names(),
        featured_artist_names: no_names(),
        year: None,
        release_type: None,
        release_title: None,
        track_number: None,
        disc_number: None,
        duration_nanos: None,
        content_id: None,
    }
}

fn publish_release(release: ExportedRelease) -> (r: ItemSpec)
    ensures
        r@ == release_item(release@),
{
    ItemSpec {
        local_key: local_key("release:", release.id),
        kind: ItemKind::Release,
        name: release.title,
        artist_names: release.artist_names,
        featured_artist_names: no_names(),
        year: release.year,
        release_type: Some(release.release_type),
        release_title: None,
        track_number: None,
        disc_number: None,
        duration_nanos: None,
        content_id: None,
    }
}

fn publish_track(track: ExportedTrack) -> (r: ItemSpec)
    ensures
        r@ == track_item(track@),
{
    ItemSpec {
        local_key: local_key("track:", track.id),
        kind: ItemKind::Track,
        name: track.title,
        artist_names: track.artist_names,
        featured_artist_names: track.featured_artist_names,
        year: track.year,
        release_type: Some(track.release_type),
        release_title: Some(track.release_title),
        track_number: track.track_number,
        disc_number: track.disc_number,
        duration_nanos: if track.duration_nanos > 0 {
            Some(track.duration_nanos)
        } else {
            None
        },
        content_id: track.content_id,
    }
}

/// What is published of what the library gives out.
pub fn federation_specs(export: FederationExport) -> (r: Vec<ItemSpec>)
    ensures
        views(r@) == published(export@),
{
    let ghost given = export@;
    let mut specs: Vec<ItemSpec> = Vec::new();
    let mut artists = export.artists;
    let ghost before = views(specs@);
    let ghost each = |x: ExportedArtistModel| artist_item(x);
    let ghost mut done: int = 0;
    assert(before + given.artists.take(0).map_values(each) =~= before);
    while artists.len() > 0
        invariant
            0 <= done,
            done + artists.len() == given.artists.len(),
            views(artists@) == given.artists.skip(done),
            each == (|x: ExportedArtistModel| artist_item(x)),
            views(specs@) == before + given.artists.take(done).map_values(each),
        decreases artists.len(),
    {
        assert(views(artists@)[0] == given.artists[done]);
        let item = publish_artist(artists.remove(0));
        assert(item@ == each(given.artists[done]));
        specs.push(item);
        proof {
            assert(views(artists@) =~= given.artists.skip(done + 1));
            assert(views(specs@) =~= before + given.artists.take(done + 1).map_values(each));
            done = done + 1;
        }
    }
    assert(given.artists.take(done) =~= given.artists);
    let mut releases = export.releases;
    let ghost before = views(specs@);
    let ghost each = |x: ExportedReleaseModel| release_item(x);
    let ghost mut done: int = 0;
    assert(before + given.releases.take(0).map_values(each) =~= before);
    while releases.len() > 0
        invariant
            0 <= done,
            done + releases.len() == given.releases.len(),
            views(releases@) == given.releases.skip(done),
            each == (|x: ExportedReleaseModel| release_item(x)),
            views(specs@) == before + given.releases.take(done).map_values(each),
        decreases releases.len(),
    {
        assert(views(releases@)[0] == given.releases[done]);
        let item = publish_release(releases.remove(0));
        assert(item@ == each(given.releases[done]));
        specs.push(item);
        proof {
            assert(views(releases@) =~= given.releases.skip(done + 1));
            assert(views(specs@) =~= before + given.releases.take(done + 1).map_values(each));
            done = done + 1;
        }
    }
    assert(given.releases.take(done) =~= given.releases);
    let mut tracks = export.tracks;
    let ghost before = views(specs@);
    let ghost each = |x: ExportedTrackModel| track_item(x);
    let ghost mut done: int = 0;
    assert(before + given.tracks.take(0).map_values(each) =~= before);
    while tracks.len() > 0
        invariant
            0 <= done,
            done + tracks.len() == given.tracks.len(),
            views(tracks@) == given.tracks.skip(done),
            each == (|x: ExportedTrackModel| track_item(x)),
            views(specs@) == before + given.tracks.take(done).map_values(each),
        decreases tracks.len(),
    {
        assert(views(tracks@)[0] == given.tracks[done]);
        let item = publish_track(tracks.remove(0));
        assert(item@ == each(given.tracks[done]));
        specs.push(item);
        proof {
            assert(views(tracks@) =~= given.tracks.skip(done + 1));
            assert(views(specs@) =~= before + given.tracks.take(done + 1).map_values(each));
            done = done + 1;
        }
    }
    assert(given.tracks.take(done) =~= given.tracks);
    assert(views(specs@) =~= published(given));
    specs
}

proof fn lemma_keys_apart(prefix: Seq<char>, a: i64, b: i64)
    requires
        a != b,
    ensures
        prefix + signed_decimal(a as int) != prefix + signed_decimal(b as int),
{
    let x = signed_decimal(a as int);
    let y = signed_decimal(b as int);
    if prefix + x == prefix + y {
        assert((prefix + x).skip(prefix.len() as int) =~= x);
        assert((prefix + y).skip(prefix.len() as int) =~= y);
        crate::view_keys::numbers_read_back(a);
        crate::view_keys::numbers_read_back(b);
    }
}

/// Nothing is published twice under one key: the keys are apart as soon as the
/// numbers of each kind are.
pub proof fn published_keys_are_apart(export: FederationExportModel, i: int, j: int)
    requires
        forall|a: int, b: int|
            0 <= a < b < export.artists.len() ==> (#[trigger] export.artists[a]).id != (
            #[trigger] export.artists[b]).id,
        forall|a: int, b: int|
            0 <= a < b < export.releases.len() ==> (#[trigger] export.releases[a]).id != (
            #[trigger] export.releases[b]).id,
        forall|a: int, b: int|
            0 <= a < b < export.tracks.len() ==> (#[trigger] export.tracks[a]).id != (
            #[trigger] export.tracks[b]).id,
        0 <= i < j < published(export).len(),
    ensures
        published(export)[i].local_key != published(export)[j].local_key,
{
    reveal_strlit("artist:");
    reveal_strlit("release:");
    reveal_strlit("track:");
    let m = export.artists.len() as int;
    let n = m + export.releases.len() as int;
    let x = published(export)[i];
    let y = published(export)[j];
    if j < m {
        lemma_keys_apart("artist:"@, export.artists[i].id, export.artists[j].id);
    } else if m <= i && j < n {
        lemma_keys_apart("release:"@, export.releases[i - m].id, export.releases[j - m].id);
    } else if n <= i {
        lemma_keys_apart("track:"@, export.tracks[i - n].id, export.tracks[j - n].id);
    } else {
        assert(x.local_key[0] != y.local_key[0]);
    }
}

pub open spec fn over<T>(new: Option<T>, old_value: Option<T>) -> Option<T> {
    match new {
        Some(x) => Some(x),
        None => old_value,
    }
}

pub open spec fn named(new: Seq<char>, old_value: Seq<char>) -> Seq<char> {
    if trimmed(new).len() > 0 {
        new
    } else {
        old_value
    }
}

pub open spec fn listed(new: Seq<Seq<char>>, old_value: Seq<Seq<char>>) -> Seq<Seq<char>> {
    if new.len() > 0 {
        new
    } else {
        old_value
    }
}

/// What a peer says of a track replaces what its file says, where the peer says
/// something.
pub open spec fn amended(import: TrackImportModel, metadata: Option<TrackMetadataModel>) -> TrackImportModel {
    match metadata {
        None => import,
        Some(m) => TrackImportModel {
            title: named(m.title, import.title),
            artists: listed(m.artists, import.artists),
            featured_artists: listed(m.featured_artists, import.featured_artists),
            album_artists: listed(m.album_artists, import.album_artists),
            release_title: named(m.release_title, import.release_title),
            release_type: over(m.release_type, import.release_type),
            year: over(m.year, import.year),
            track_number: over(m.track_number, import.track_number),
            disc_number: over(m.disc_number, import.disc_number),
            duration_nanos: match m.duration_nanos {
                Some(nanos) => nanos,
                None => import.duration_nanos,
            },
            audio_format: over(m.audio_format, import.audio_format),
            audio_bitrate: over(m.audio_bitrate, import.audio_bitrate),
            audio_sample_rate: over(m.audio_sample_rate, import.audio_sample_rate),
            audio_bit_depth: over(m.audio_bit_depth, import.audio_bit_depth),
        },
    }
}

fn or_text(new: Option<String>, old_value: Option<String>) -> (r: Option<String>)
    ensures
        opt_view(r) == over(opt_view(new), opt_view(old_value)),
{
    match new {
        Some(x) => Some(x),
        None => old_value,
    }
}

fn or_number(new: Option<i32>, old_value: Option<i32>) -> (r: Option<i32>)
    ensures
        r == over(new, old_value),
{
    match new {
        Some(x) => Some(x),
        None => old_value,
    }
}

fn or_name(new: String, old_value: String) -> (r: String)
    ensures
        r@ == named(new@, old_value@),
{
    let bare = trim(new.as_str());
    if bare.as_str().is_empty() {
        old_value
    } else {
        new
    }
}

fn or_list(new: Vec<String>, old_value: Vec<String>) -> (r: Vec<String>)
    ensures
        views(r@) == listed(views(new@), views(old_value@)),
{
    if new.len() > 0 {
        new
    } else {
        old_value
    }
}

/// Amends what a file says of a track by what the peer said.
pub fn apply_federated_metadata(import: TrackImport, metadata: Option<TrackMetadata>) -> (r:
    TrackImport)
    ensures
        r@ == amended(import@, opt_view(metadata)),
{
    let Some(m) = metadata else {
        return import;
    };
    TrackImport {
        title: or_name(m.title, import.title),
        artists: or_list(m.artists, import.artists),
        featured_artists: or_list(m.featured_artists, import.featured_artists),
        album_artists: or_list(m.album_artists, import.album_artists),
        release_title: or_name(m.release_title, import.release_title),
        release_type: or_text(m.release_type, import.release_type),
        year: or_number(m.year, import.year),
        track_number: or_number(m.track_number, import.track_number),
        disc_number: or_number(m.disc_number, import.disc_number),
        duration_nanos: match m.duration_nanos {
            Some(nanos) => nanos,
            None => import.duration_nanos,
        },
        audio_format: or_text(m.audio_format, import.audio_format),
        audio_bitrate: or_number(m.audio_bitrate, import.audio_bitrate),
        audio_sample_rate: or_number(m.audio_sample_rate, import.audio_sample_rate),
        audio_bit_depth: or_number(m.audio_bit_depth, import.audio_bit_depth),
    }
}

/// To hear a peer twice is to hear it once.
pub proof fn metadata_counts_once(import: TrackImportModel, metadata: Option<TrackMetadataModel>)
    ensures
        amended(amended(import, metadata), metadata) == amended(import, metadata),
{
}

/// What the library notes of a track that a peer publishes.
pub open spec fn noted_publication(s: SyncedFedTrackModel) -> FederatedTrackModel {
    FederatedTrackModel {
        item_id: s.item_id,
        owner: s.owner,
        own: false,
        title: s.title,
        artist_names: s.artist_names,
        featured_artist_names: s.featured_artist_names,
        year: s.year,
        duration_seconds: s.duration_seconds,
        content_id: Some(s.content_id),
        release_title: s.release_title,
        track_number: s.track_number,
        disc_number: s.disc_number,
    }
}

pub fn to_library_fed(fed: &SyncedFedTrack) -> (r: FederatedTrack)
    ensures
        r@ == noted_publication(fed@),
{
    let s = fed.clone();
    FederatedTrack {
        item_id: s.item_id,
        owner: s.owner,
        own: false,
        title: s.title,
        artist_names: s.artist_names,
        featured_artist_names: s.featured_artist_names,
        year: s.year,
        duration_seconds: s.duration_seconds,
        content_id: Some(s.content_id),
        release_title: s.release_title,
        track_number: s.track_number,
        disc_number: s.disc_number,
    }
}

/// What the library notes of a peer's track; a track without a peer, an entry
/// or contents is not one.
pub open spec fn noted_fed(track: TrackModel) -> Option<FederatedTrackModel> {
    match synced_fed(track) {
        None => None,
        Some(s) => Some(noted_publication(s)),
    }
}

pub fn track_to_library_fed(track: &Track) -> (r: Option<FederatedTrack>)
    ensures
        opt_view(r) == noted_fed(track@),
{
    match track_to_synced_fed(track) {
        Some(s) => Some(to_library_fed(&s)),
        None => None,
    }
}

/// Where a like is kept.
#[derive(Debug, PartialEq)]
pub enum LikeTarget {
    Library,
    Publication { fed: SyncedFedTrack },
}

/// A like is kept with the track of the library, or else with what a peer
/// publishes; a track that is neither cannot be liked.
pub fn like_target(is_in_library: bool, fed: Option<SyncedFedTrack>) -> (r: Result<
    LikeTarget,
    String,
>)
    ensures
        match r {
            Ok(LikeTarget::Library) => is_in_library,
            Ok(LikeTarget::Publication { fed: kept }) => !is_in_library && opt_view(fed) == Some(
                kept@,
            ),
            Err(message) => !is_in_library && fed is None && message@
                == "track cannot be stored as a federated like"@,
        },
{
    if is_in_library {
        Ok(LikeTarget::Library)
    } else {
        match fed {
            Some(fed) => Ok(LikeTarget::Publication { fed }),
            None => Err("track cannot be stored as a federated like".to_owned()),
        }
    }
}

} // verus!

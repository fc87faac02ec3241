//! Pictures of artists and releases that peers hold.
use crate::api::{SearchResults, SearchResultsModel};
use crate::catalog::{
    Artist, ArtistModel, Artwork, AudioSource, AudioSourceModel, CatalogSource, CatalogSourceModel,
    Release, ReleaseModel, Track, TrackModel,
};
use crate::hex::{hex, hex_text};
use crate::text::same_str;
use crate::views::{opt_view, views};
use vstd::prelude::*;

verus! {

broadcast use crate::views::group_views;

/// Pictures larger than this are refused.
pub const MAX_IMAGE_BYTES: u64 = 16_777_216;

/// What a picture can be fetched for, by its place in the results.
#[derive(Debug, Clone, Copy, PartialEq, Eq, Structural)]
pub enum ArtworkTarget {
    Artist(usize),
    Release(usize),
    Track(usize),
}

/// A picture to ask a peer for: the cover of a release, or the image of an
/// artist where no release is named.
#[derive(Debug, PartialEq)]
pub struct ArtworkRequest {
    pub peer_id: String,
    pub artist: String,
    pub release: Option<String>,
    pub cache_key: String,
}

pub struct ArtworkRequestModel {
    pub peer_id: Seq<char>,
    pub artist: Seq<char>,
    pub release: Option<Seq<char>>,
    pub cache_key: Seq<char>,
}

impl View for ArtworkRequest {
    type V = ArtworkRequestModel;

    open spec fn view(&self) -> ArtworkRequestModel {
        ArtworkRequestModel {
            peer_id: self.peer_id@,
            artist: self.artist@,
            release: opt_view(self.release),
            cache_key: self.cache_key@,
        }
    }
}

/// The image of an artist, under the key by which it is remembered.
pub open spec fn artist_image(peer: Seq<char>, artist: Seq<char>) -> ArtworkRequestModel {
    ArtworkRequestModel {
        peer_id: peer,
        artist,
        release: None,
        cache_key: "artist-"@ + peer + "-"@ + artist,
    }
}

/// The cover of a release, under the key by which it is remembered.
pub open spec fn release_cover(
    peer: Seq<char>,
    artist: Seq<char>,
    release: Seq<char>,
) -> ArtworkRequestModel {
    ArtworkRequestModel {
        peer_id: peer,
        artist,
        release: Some(release),
        cache_key: "release-"@ + peer + "-"@ + artist + "-"@ + release,
    }
}

/// What is fetched in turn: a picture for each artist, each release, each
/// track.
pub open spec fn targets(results: SearchResultsModel) -> Seq<ArtworkTarget> {
    Seq::new(results.artists.len(), |i: int| ArtworkTarget::Artist(i as usize)) + Seq::new(
        results.releases.len(),
        |i: int| ArtworkTarget::Release(i as usize),
    ) + Seq::new(results.tracks.len(), |i: int| ArtworkTarget::Track(i as usize))
}

pub open spec fn is_target(results: SearchResultsModel, target: ArtworkTarget) -> bool {
    match target {
        ArtworkTarget::Artist(i) => i < results.artists.len(),
        ArtworkTarget::Release(i) => i < results.releases.len(),
        ArtworkTarget::Track(i) => i < results.tracks.len(),
    }
}

/// The picture to ask for: that of everything a peer publishes under an
/// artist's name; for tracks, only while they have none.
pub open spec fn wanted_picture(results: SearchResultsModel, target: ArtworkTarget) -> Option<
    ArtworkRequestModel,
> {
    match target {
        ArtworkTarget::Artist(i) => match results.artists[i as int].source {
            CatalogSourceModel::Federation { peer_id } => Some(
                artist_image(peer_id, results.artists[i as int].name),
            ),
            CatalogSourceModel::Local => None,
        },
        ArtworkTarget::Release(i) => {
            let release = results.releases[i as int];
            match release.source {
                CatalogSourceModel::Federation { peer_id } => if release.artists.len() > 0 {
                    Some(release_cover(peer_id, release.artists[0].name, release.title))
                } else {
                    None
                },
                CatalogSourceModel::Local => None,
            }
        },
        ArtworkTarget::Track(i) => {
            let track = results.tracks[i as int];
            if track.cover_uri is Some || track.release.len() == 0 || track.artists.len() == 0 {
                None
            } else {
                match track.audio_source {
                    AudioSourceModel::Federation { peer_id, .. } => Some(
                        release_cover(peer_id, track.artists[0].name, track.release),
                    ),
                    AudioSourceModel::LocalFile(_) => None,
                }
            }
        },
    }
}

pub open spec fn covered(track: TrackModel, uri: Seq<char>) -> TrackModel {
    TrackModel { cover_uri: Some(uri), ..track }
}

/// The tracks of a release, those without a cover with `uri`.
pub open spec fn covered_where_bare(tracks: Seq<TrackModel>, uri: Seq<char>) -> Seq<TrackModel> {
    Seq::new(
        tracks.len(),
        |i: int|
            if tracks[i].cover_uri is None {
                covered(tracks[i], uri)
            } else {
                tracks[i]
            },
    )
}

/// Whether a track is of the release with that title and leading artist.
pub open spec fn is_from(track: TrackModel, title: Seq<char>, artist: Seq<char>) -> bool {
    track.release == title && track.artists.len() > 0 && track.artists[0].name == artist
}

/// The tracks, those of the release with `uri` for their cover.
pub open spec fn covered_where_from(
    tracks: Seq<TrackModel>,
    title: Seq<char>,
    artist: Seq<char>,
    uri: Seq<char>,
) -> Seq<TrackModel> {
    Seq::new(
        tracks.len(),
        |i: int|
            if is_from(tracks[i], title, artist) {
                covered(tracks[i], uri)
            } else {
                tracks[i]
            },
    )
}

/// The results with a picture that was fetched. The cover of a release is also
/// that of its tracks.
pub open spec fn with_picture(
    results: SearchResultsModel,
    target: ArtworkTarget,
    uri: Seq<char>,
) -> SearchResultsModel {
    match target {
        ArtworkTarget::Artist(i) => SearchResultsModel {
            artists: results.artists.update(
                i as int,
                ArtistModel { artwork: Some(uri), ..results.artists[i as int] },
            ),
            ..results
        },
        ArtworkTarget::Release(i) => {
            let release = results.releases[i as int];
            SearchResultsModel {
                releases: results.releases.update(
                    i as int,
                    ReleaseModel {
                        artwork: Some(uri),
                        tracks: covered_where_bare(release.tracks, uri),
                        ..release
                    },
                ),
                tracks: covered_where_from(
                    results.tracks,
                    release.title,
                    release.artists[0].name,
                    uri,
                ),
                ..results
            }
        },
        ArtworkTarget::Track(i) => SearchResultsModel {
            tracks: results.tracks.update(i as int, covered(results.tracks[i as int], uri)),
            ..results
        },
    }
}

fn image_of_artist(peer: &str, artist: &str) -> (r: ArtworkRequest)
    ensures
        r@ == artist_image(peer@, artist@),
{
    let mut cache_key = "artist-".to_owned();
    cache_key.push_str(peer);
    cache_key.push_str("-");
    cache_key.push_str(artist);
    ArtworkRequest {
        peer_id: peer.to_owned(),
        artist: artist.to_owned(),
        release: None,
        cache_key,
    }
}

fn cover_of_release(peer: &str, artist: &str, release: &str) -> (r: ArtworkRequest)
    ensures
        r@ == release_cover(peer@, artist@, release@),
{
    let mut cache_key = "release-".to_owned();
    cache_key.push_str(peer);
    cache_key.push_str("-");
    cache_key.push_str(artist);
    cache_key.push_str("-");
    cache_key.push_str(release);
    ArtworkRequest {
        peer_id: peer.to_owned(),
        artist: artist.to_owned(),
        release: Some(release.to_owned()),
        cache_key,
    }
}

/// What pictures are fetched for, in turn.
pub fn artwork_targets(results: &SearchResults) -> (r: Vec<ArtworkTarget>)
    ensures
        r@ == targets(results@),
{
    let ghost all = targets(results@);
    let mut r: Vec<ArtworkTarget> = Vec::new();
    let mut i: usize = 0;
    while i < results.artists.len()
        invariant
            i <= results.artists.len(),
            all == targets(results@),
            r@ == all.take(i as int),
        decreases results.artists.len() - i,
    {
        r.push(ArtworkTarget::Artist(i));
        i += 1;
        assert(r@ =~= all.take(i as int));
    }
    let mut i: usize = 0;
    while i < results.releases.len()
        invariant
            i <= results.releases.len(),
            all == targets(results@),
            r@ == all.take(results.artists.len() + i),
        decreases results.releases.len() - i,
    {
        r.push(ArtworkTarget::Release(i));
        i += 1;
        assert(r@ =~= all.take(results.artists.len() + i));
    }
    let mut i: usize = 0;
    while i < results.tracks.len()
        invariant
            i <= results.tracks.len(),
            all == targets(results@),
            r@ == all.take(results.artists.len() + results.releases.len() + i),
        decreases results.tracks.len() - i,
    {
        r.push(ArtworkTarget::Track(i));
        i += 1;
        assert(r@ =~= all.take(results.artists.len() + results.releases.len() + i));
    }
    assert(r@ =~= all);
    r
}

/// The picture to ask a peer for.
pub fn artwork_request(results: &SearchResults, target: ArtworkTarget) -> (r: Option<
    ArtworkRequest,
>)
    requires
        is_target(results@, target),
    ensures
        opt_view(r) == wanted_picture(results@, target),
{
    match target {
        ArtworkTarget::Artist(i) => {
            let artist = &results.artists[i];
            match &artist.source {
                CatalogSource::Federation { peer_id } => Some(
                    image_of_artist(peer_id.as_str(), artist.name.as_str()),
                ),
                CatalogSource::Local => None,
            }
        },
        ArtworkTarget::Release(i) => {
            let release = &results.releases[i];
            match &release.source {
                CatalogSource::Federation { peer_id } => if release.artists.len() > 0 {
                    Some(
                        cover_of_release(
                            peer_id.as_str(),
                            release.artists[0].name.as_str(),
                            release.title.as_str(),
                        ),
                    )
                } else {
                    None
                },
                CatalogSource::Local => None,
            }
        },
        ArtworkTarget::Track(i) => {
            let track = &results.tracks[i];
            if track.cover_uri.is_some() || track.release.as_str().is_empty()
                || track.artists.len() == 0 {
                return None;
            }
            match &track.audio_source {
                AudioSource::Federation { peer_id, .. } => Some(
                    cover_of_release(
                        peer_id.as_str(),
                        track.artists[0].name.as_str(),
                        track.release.as_str(),
                    ),
                ),
                AudioSource::LocalFile(_) => None,
            }
        },
    }
}

fn cover_bare_tracks(tracks: &mut Vec<Track>, uri: &str)
    ensures
        views(final(tracks)@) == covered_where_bare(views(old(tracks)@), uri@),
{
    let ghost all = views(tracks@);
    let mut i: usize = 0;
    while i < tracks.len()
        invariant
            i <= tracks.len() == all.len(),
            views(tracks@) == covered_where_bare(all, uri@).take(i as int) + all.skip(i as int),
        decreases tracks.len() - i,
    {
        assert(views(tracks@)[i as int] == all[i as int]);
        if tracks[i].cover_uri.is_none() {
            tracks[i].cover_uri = Some(uri.to_owned());
        }
        i += 1;
        assert(views(tracks@) =~= covered_where_bare(all, uri@).take(i as int) + all.skip(
            i as int,
        ));
    }
    assert(views(tracks@) =~= covered_where_bare(all, uri@));
}

fn cover_tracks_from(tracks: &mut Vec<Track>, title: &str, artist: &str, uri: &str)
    ensures
        views(final(tracks)@) == covered_where_from(
            views(old(tracks)@),
            title@,
            artist@,
            uri@,
        ),
{
    let ghost all = views(tracks@);
    let ghost goal = covered_where_from(all, title@, artist@, uri@);
    let mut i: usize = 0;
    while i < tracks.len()
        invariant
            i <= tracks.len() == all.len(),
            goal == covered_where_from(all, title@, artist@, uri@),
            views(tracks@) == goal.take(i as int) + all.skip(i as int),
        decreases tracks.len() - i,
    {
        assert(views(tracks@)[i as int] == all[i as int]);
        if same_str(tracks[i].release.as_str(), title) && tracks[i].artists.len() > 0 && same_str(
            tracks[i].artists[0].name.as_str(),
            artist,
        ) {
            tracks[i].cover_uri = Some(uri.to_owned());
        }
        i += 1;
        assert(views(tracks@) =~= goal.take(i as int) + all.skip(i as int));
    }
    assert(views(tracks@) =~= goal);
}

/// Puts a picture that was fetched into the results.
pub fn apply_artwork(results: &mut SearchResults, target: ArtworkTarget, uri: &str)
    requires
        is_target(old(results)@, target),
        wanted_picture(old(results)@, target) is Some,
    ensures
        final(results)@ == with_picture(old(results)@, target, uri@),
{
    match target {
        ArtworkTarget::Artist(i) => {
            results.artists[i].artwork = Artwork { uri: Some(uri.to_owned()) };
            assert(results@.artists =~= with_picture(old(results)@, target, uri@).artists);
        },
        ArtworkTarget::Release(i) => {
            let title = results.releases[i].title.clone();
            let artist = results.releases[i].artists[0].name.clone();
            results.releases[i].artwork = Artwork { uri: Some(uri.to_owned()) };
            cover_bare_tracks(&mut results.releases[i].tracks, uri);
            cover_tracks_from(&mut results.tracks, title.as_str(), artist.as_str(), uri);
            assert(results@.releases =~= with_picture(old(results)@, target, uri@).releases);
        },
        ArtworkTarget::Track(i) => {
            results.tracks[i].cover_uri = Some(uri.to_owned());
            assert(results@.tracks =~= with_picture(old(results)@, target, uri@).tracks);
        },
    }
}

/// The cover to ask for while a track is queued, whatever screen it was queued
/// from: that of its release, from the peer it is streamed from, or else from
/// the one that published it.
pub open spec fn queued_picture(track: TrackModel) -> Option<ArtworkRequestModel> {
    let peer = match track.audio_source {
        AudioSourceModel::Federation { peer_id, .. } if peer_id.len() > 0 => Some(peer_id),
        _ => match track.key.federation_identity {
            Some((peer_id, _)) => Some(peer_id),
            None => None,
        },
    };
    let artist = if track.artists.len() > 0 {
        Some(track.artists[0].name)
    } else if track.artist.len() > 0 {
        Some(track.artist)
    } else {
        None
    };
    if peer is Some && artist is Some && track.release.len() > 0 {
        Some(release_cover(peer->0, artist->0, track.release))
    } else {
        None
    }
}

pub fn queued_artwork_request(track: &Track) -> (r: Option<ArtworkRequest>)
    ensures
        opt_view(r) == queued_picture(track@),
{
    let streamed_from = match &track.audio_source {
        AudioSource::Federation { peer_id, .. } => if peer_id.as_str().is_empty() {
            None
        } else {
            Some(peer_id.as_str())
        },
        AudioSource::LocalFile(_) => None,
    };
    let peer = match streamed_from {
        Some(peer) => peer,
        None => match track.key.federation_id() {
            Some((peer, _)) => peer,
            None => {
                return None;
            },
        },
    };
    if track.release.as_str().is_empty() {
        return None;
    }
    if track.artists.len() > 0 {
        Some(cover_of_release(peer, track.artists[0].name.as_str(), track.release.as_str()))
    } else if !track.artist.as_str().is_empty() {
        Some(cover_of_release(peer, track.artist.as_str(), track.release.as_str()))
    } else {
        None
    }
}

/// The file endings under which a picture may be remembered, in the order in
/// which they are looked for.
pub open spec fn picture_endings() -> Seq<Seq<char>> {
    seq!["jpg"@, "png"@, "webp"@, "gif"@, "bmp"@]
}

/// The file name of a picture remembered under a hash.
pub open spec fn picture_name(hash: u64, ending: Seq<char>) -> Seq<char> {
    hex(hash as int, 16) + "."@ + ending
}

pub fn image_file_name(hash: u64, ending: &str) -> (r: String)
    ensures
        r@ == picture_name(hash, ending@),
{
    let mut r = hex_text(hash);
    r.push_str(".");
    r.push_str(ending);
    r
}

/// The file names under which a picture may already be there.
pub fn cached_image_names(hash: u64) -> (r: Vec<String>)
    ensures
        views(r@) == Seq::new(
            picture_endings().len(),
            |i: int| picture_name(hash, picture_endings()[i]),
        ),
{
    let mut r: Vec<String> = Vec::new();
    r.push(image_file_name(hash, "jpg"));
    r.push(image_file_name(hash, "png"));
    r.push(image_file_name(hash, "webp"));
    r.push(image_file_name(hash, "gif"));
    r.push(image_file_name(hash, "bmp"));
    assert(views(r@) =~= Seq::new(
        picture_endings().len(),
        |i: int| picture_name(hash, picture_endings()[i]),
    ));
    r
}

/// The file ending for a kind of picture; what is not known counts as JPEG.
pub open spec fn picture_ending(mime: Seq<char>) -> Seq<char> {
    if mime == "image/png"@ {
        "png"@
    } else if mime == "image/webp"@ {
        "webp"@
    } else if mime == "image/gif"@ {
        "gif"@
    } else if mime == "image/bmp"@ {
        "bmp"@
    } else {
        "jpg"@
    }
}

pub fn image_extension(mime: &str) -> (r: &'static str)
    ensures
        r@ == picture_ending(mime@),
{
    if same_str(mime, "image/png") {
        "png"
    } else if same_str(mime, "image/webp") {
        "webp"
    } else if same_str(mime, "image/gif") {
        "gif"
    } else if same_str(mime, "image/bmp") {
        "bmp"
    } else {
        "jpg"
    }
}

/// What a peer answered to a request for a picture.
#[derive(Debug, Clone, Copy, PartialEq, Eq, Structural)]
pub enum ImageAnswer {
    /// It has none.
    Nothing,
    /// It has one that is too large.
    TooLarge,
    /// So many bytes follow.
    Bytes(u64),
}

pub fn image_answer(ok: bool, size: u64) -> (r: ImageAnswer)
    ensures
        r == (if !ok || size == 0 {
            ImageAnswer::Nothing
        } else if size > MAX_IMAGE_BYTES {
            ImageAnswer::TooLarge
        } else {
            ImageAnswer::Bytes(size)
        }),
{
    if !ok || size == 0 {
        ImageAnswer::Nothing
    } else if size > MAX_IMAGE_BYTES {
        ImageAnswer::TooLarge
    } else {
        ImageAnswer::Bytes(size)
    }
}

/// The results as they are without any picture.
pub open spec fn without_pictures(results: SearchResultsModel) -> SearchResultsModel {
    SearchResultsModel {
        artists: Seq::new(
            results.artists.len(),
            |i: int| ArtistModel { artwork: None, ..results.artists[i] },
        ),
        releases: Seq::new(
            results.releases.len(),
            |i: int|
                ReleaseModel {
                    artwork: None,
                    tracks: bare_tracks(results.releases[i].tracks),
                    ..results.releases[i]
                },
        ),
        tracks: bare_tracks(results.tracks),
    }
}

pub open spec fn bare_tracks(tracks: Seq<TrackModel>) -> Seq<TrackModel> {
    Seq::new(tracks.len(), |i: int| TrackModel { cover_uri: None, ..tracks[i] })
}

/// Fetching pictures changes nothing but pictures.
pub proof fn pictures_change_nothing_else(
    results: SearchResultsModel,
    target: ArtworkTarget,
    uri: Seq<char>,
)
    requires
        is_target(results, target),
    ensures
        without_pictures(with_picture(results, target, uri)) == without_pictures(results),
{
    let after = with_picture(results, target, uri);
    assert(bare_tracks(after.tracks) =~= bare_tracks(results.tracks));
    assert(without_pictures(after).artists =~= without_pictures(results).artists);
    if let ArtworkTarget::Release(i) = target {
        assert(bare_tracks(after.releases[i as int].tracks) =~= bare_tracks(
            results.releases[i as int].tracks,
        ));
    }
    assert(without_pictures(after).releases =~= without_pictures(results).releases);
}

} // verus!

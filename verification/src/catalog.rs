//! Catalog entities: artists, releases and tracks, whichever provider
//! supplied them, and the keys by which they are found again.
use crate::text::{ascii_lower, chars_of, join, joined, lowercase, to_ascii_lower, trim, trimmed};
use crate::views::{opt_view, views};
use vstd::prelude::*;

verus! {

#[derive(Debug, Clone, Copy, PartialEq, Eq, PartialOrd, Ord, Hash, Structural)]
pub struct ArtistId(pub i64);

#[derive(Debug, Clone, Copy, PartialEq, Eq, PartialOrd, Ord, Hash, Structural)]
pub struct ReleaseId(pub i64);

#[derive(Debug, Clone, Copy, PartialEq, Eq, PartialOrd, Ord, Hash, Structural)]
pub struct LocalTrackId(pub i64);

impl ArtistId {
    pub fn new(value: i64) -> (r: Self)
        ensures
            r == ArtistId(value),
    {
        ArtistId(value)
    }

    pub fn get(self) -> (r: i64)
        ensures
            r == self.0,
    {
        self.0
    }
}

impl ReleaseId {
    pub fn new(value: i64) -> (r: Self)
        ensures
            r == ReleaseId(value),
    {
        ReleaseId(value)
    }

    pub fn get(self) -> (r: i64)
        ensures
            r == self.0,
    {
        self.0
    }
}

impl LocalTrackId {
    pub fn new(value: i64) -> (r: Self)
        ensures
            r == LocalTrackId(value),
    {
        LocalTrackId(value)
    }

    pub fn get(self) -> (r: i64)
        ensures
            r == self.0,
    {
        self.0
    }
}

/// Origin of catalog metadata. The same entities are shown whichever provider
/// supplied them.
#[derive(Debug, PartialOrd, Ord, Hash)]
pub enum CatalogSource {
    Local,
    Federation { peer_id: String },
}

pub enum CatalogSourceModel {
    Local,
    Federation { peer_id: Seq<char> },
}

impl View for CatalogSource {
    type V = CatalogSourceModel;

    open spec fn view(&self) -> CatalogSourceModel {
        match *self {
            CatalogSource::Local => CatalogSourceModel::Local,
            CatalogSource::Federation { peer_id } => CatalogSourceModel::Federation {
                peer_id: peer_id@,
            },
        }
    }
}

impl Clone for CatalogSource {
    fn clone(&self) -> (r: Self)
        ensures
            r == *self,
    {
        match self {
            CatalogSource::Local => CatalogSource::Local,
            CatalogSource::Federation { peer_id } => CatalogSource::Federation {
                peer_id: peer_id.clone(),
            },
        }
    }
}

impl PartialEq for CatalogSource {
    fn eq(&self, other: &Self) -> (r: bool) {
        match (self, other) {
            (CatalogSource::Local, CatalogSource::Local) => true,
            (
                CatalogSource::Federation { peer_id },
                CatalogSource::Federation { peer_id: other_peer },
            ) => *peer_id == *other_peer,
            _ => false,
        }
    }
}

impl vstd::std_specs::cmp::PartialEqSpecImpl for CatalogSource {
    open spec fn obeys_eq_spec() -> bool {
        true
    }

    open spec fn eq_spec(&self, other: &Self) -> bool {
        self@ == other@
    }
}

impl Eq for CatalogSource {

}

#[derive(Debug, PartialOrd, Ord, Hash)]
pub enum ArtistKey {
    Local(ArtistId),
    Federation { peer_id: String, id: String },
}

pub enum ArtistKeyModel {
    Local(ArtistId),
    Federation { peer_id: Seq<char>, id: Seq<char> },
}

impl View for ArtistKey {
    type V = ArtistKeyModel;

    open spec fn view(&self) -> ArtistKeyModel {
        match *self {
            ArtistKey::Local(id) => ArtistKeyModel::Local(id),
            ArtistKey::Federation { peer_id, id } => ArtistKeyModel::Federation {
                peer_id: peer_id@,
                id: id@,
            },
        }
    }
}

impl Clone for ArtistKey {
    fn clone(&self) -> (r: Self)
        ensures
            r == *self,
    {
        match self {
            ArtistKey::Local(id) => ArtistKey::Local(*id),
            ArtistKey::Federation { peer_id, id } => ArtistKey::Federation {
                peer_id: peer_id.clone(),
                id: id.clone(),
            },
        }
    }
}

impl PartialEq for ArtistKey {
    fn eq(&self, other: &Self) -> (r: bool) {
        match (self, other) {
            (ArtistKey::Local(id), ArtistKey::Local(other_id)) => id.0 == other_id.0,
            (
                ArtistKey::Federation { peer_id, id },
                ArtistKey::Federation { peer_id: other_peer, id: other_id },
            ) => *peer_id == *other_peer && *id == *other_id,
            _ => false,
        }
    }
}

impl vstd::std_specs::cmp::PartialEqSpecImpl for ArtistKey {
    open spec fn obeys_eq_spec() -> bool {
        true
    }

    open spec fn eq_spec(&self, other: &Self) -> bool {
        self@ == other@
    }
}

impl Eq for ArtistKey {

}

impl ArtistKey {
    pub fn local(id: ArtistId) -> (r: Self)
        ensures
            r@ == ArtistKeyModel::Local(id),
    {
        ArtistKey::Local(id)
    }
}

#[derive(Debug, PartialOrd, Ord, Hash)]
pub enum ReleaseKey {
    Local(ReleaseId),
    Federation { peer_id: String, id: String },
}

pub enum ReleaseKeyModel {
    Local(ReleaseId),
    Federation { peer_id: Seq<char>, id: Seq<char> },
}

impl View for ReleaseKey {
    type V = ReleaseKeyModel;

    open spec fn view(&self) -> ReleaseKeyModel {
        match *self {
            ReleaseKey::Local(id) => ReleaseKeyModel::Local(id),
            ReleaseKey::Federation { peer_id, id } => ReleaseKeyModel::Federation {
                peer_id: peer_id@,
                id: id@,
            },
        }
    }
}

impl Clone for ReleaseKey {
    fn clone(&self) -> (r: Self)
        ensures
            r == *self,
    {
        match self {
            ReleaseKey::Local(id) => ReleaseKey::Local(*id),
            ReleaseKey::Federation { peer_id, id } => ReleaseKey::Federation {
                peer_id: peer_id.clone(),
                id: id.clone(),
            },
        }
    }
}

impl PartialEq for ReleaseKey {
    fn eq(&self, other: &Self) -> (r: bool) {
        match (self, other) {
            (ReleaseKey::Local(id), ReleaseKey::Local(other_id)) => id.0 == other_id.0,
            (
                ReleaseKey::Federation { peer_id, id },
                ReleaseKey::Federation { peer_id: other_peer, id: other_id },
            ) => *peer_id == *other_peer && *id == *other_id,
            _ => false,
        }
    }
}

impl vstd::std_specs::cmp::PartialEqSpecImpl for ReleaseKey {
    open spec fn obeys_eq_spec() -> bool {
        true
    }

    open spec fn eq_spec(&self, other: &Self) -> bool {
        self@ == other@
    }
}

impl Eq for ReleaseKey {

}

impl ReleaseKey {
    pub fn local(id: ReleaseId) -> (r: Self)
        ensures
            r@ == ReleaseKeyModel::Local(id),
    {
        ReleaseKey::Local(id)
    }
}

/// Artwork resolved by a catalog provider. Federation can at first publish
/// none, fetch the image into its cache, and then replace the snapshot with
/// the same entity and a local URI.
#[derive(Debug, PartialEq, Eq)]
pub struct Artwork {
    pub uri: Option<String>,
}

impl View for Artwork {
    type V = Option<Seq<char>>;

    open spec fn view(&self) -> Option<Seq<char>> {
        opt_view(self.uri)
    }
}

impl Clone for Artwork {
    fn clone(&self) -> (r: Self)
        ensures
            r == *self,
    {
        Artwork { uri: self.uri.clone() }
    }
}

impl Default for Artwork {
    fn default() -> (r: Self)
        ensures
            r@ == None::<Seq<char>>,
    {
        Artwork { uri: None }
    }
}

#[derive(Debug, PartialEq, Eq)]
pub struct ArtistRef {
    pub key: ArtistKey,
    pub name: String,
}

pub struct ArtistRefModel {
    pub key: ArtistKeyModel,
    pub name: Seq<char>,
}

impl View for ArtistRef {
    type V = ArtistRefModel;

    open spec fn view(&self) -> ArtistRefModel {
        ArtistRefModel { key: self.key@, name: self.name@ }
    }
}

impl Clone for ArtistRef {
    fn clone(&self) -> (r: Self)
        ensures
            r == *self,
    {
        ArtistRef { key: self.key.clone(), name: self.name.clone() }
    }
}

#[derive(Debug, PartialEq, Eq)]
pub struct Artist {
    pub key: ArtistKey,
    pub source: CatalogSource,
    pub name: String,
    pub artwork: Artwork,
    pub release_count: usize,
    pub track_count: usize,
}

pub struct ArtistModel {
    pub key: ArtistKeyModel,
    pub source: CatalogSourceModel,
    pub name: Seq<char>,
    pub artwork: Option<Seq<char>>,
    pub release_count: usize,
    pub track_count: usize,
}

impl View for Artist {
    type V = ArtistModel;

    open spec fn view(&self) -> ArtistModel {
        ArtistModel {
            key: self.key@,
            source: self.source@,
            name: self.name@,
            artwork: self.artwork@,
            release_count: self.release_count,
            track_count: self.track_count,
        }
    }
}

impl Clone for Artist {
    fn clone(&self) -> (r: Self)
        ensures
            r == *self,
    {
        Artist {
            key: self.key.clone(),
            source: self.source.clone(),
            name: self.name.clone(),
            artwork: self.artwork.clone(),
            release_count: self.release_count,
            track_count: self.track_count,
        }
    }
}

pub open spec fn is_lower_hex(c: char) -> bool {
    ('0' <= c && c <= '9') || ('a' <= c && c <= 'f')
}

/// `b3:` followed by 64 lower-case hexadecimal digits.
pub open spec fn is_content_id(s: Seq<char>) -> bool {
    &&& s.len() == 67
    &&& s[0] == 'b' && s[1] == '3' && s[2] == ':'
    &&& forall|i: int| 3 <= i < 67 ==> is_lower_hex(#[trigger] s[i])
}

/// Stable audio identity (`b3:<64 lowercase hex>`).
#[derive(Debug, PartialOrd, Ord, Hash)]
pub struct ContentId(String);

impl View for ContentId {
    type V = Seq<char>;

    closed spec fn view(&self) -> Seq<char> {
        self.0@
    }
}

impl ContentId {
    #[verifier::type_invariant]
    spec fn well_formed(self) -> bool {
        is_content_id(self.0@)
    }

    /// Parses and normalizes an audio content identifier. Fails exactly where
    /// the value is not `b3:` followed by 64 hexadecimal characters, in either
    /// case.
    pub fn parse(value: &str) -> (r: Result<Self, InvalidContentId>)
        ensures
            r is Ok <==> is_content_id(ascii_lower(value@)),
            r matches Ok(id) ==> id@ == ascii_lower(value@),
    {
        let text = to_ascii_lower(value);
        let chars = chars_of(text.as_str());
        if chars.len() != 67 || chars[0] != 'b' || chars[1] != '3' || chars[2] != ':' {
            return Err(InvalidContentId);
        }
        let mut i: usize = 3;
        while i < 67
            invariant
                3 <= i <= 67,
                chars.len() == 67,
                forall|j: int| 3 <= j < i ==> is_lower_hex(#[trigger] chars@[j]),
                text@ == chars@,
                text@ == ascii_lower(value@),
            decreases 67 - i,
        {
            let c = chars[i];
            if !(('0' <= c && c <= '9') || ('a' <= c && c <= 'f')) {
                assert(!is_lower_hex(text@[i as int]));
                return Err(InvalidContentId);
            }
            i += 1;
        }
        Ok(ContentId(text))
    }

    pub fn as_str(&self) -> (r: &str)
        ensures
            r@ == self@,
            is_content_id(r@),
    {
        proof {
            use_type_invariant(self);
        }
        self.0.as_str()
    }
}

impl Clone for ContentId {
    fn clone(&self) -> (r: Self)
        ensures
            r == *self,
    {
        proof {
            use_type_invariant(self);
        }
        ContentId(self.0.clone())
    }
}

impl PartialEq for ContentId {
    fn eq(&self, other: &Self) -> (r: bool) {
        self.0 == other.0
    }
}

impl vstd::std_specs::cmp::PartialEqSpecImpl for ContentId {
    open spec fn obeys_eq_spec() -> bool {
        true
    }

    open spec fn eq_spec(&self, other: &Self) -> bool {
        self@ == other@
    }
}

impl Eq for ContentId {

}

#[derive(Debug, Clone, Copy, PartialEq, Eq, Structural)]
pub struct InvalidContentId;

impl InvalidContentId {
    /// What to tell a person about it.
    pub fn message(&self) -> (r: &'static str)
        ensures
            r@ == "content ID must be b3:<64 hex characters>"@,
    {
        "content ID must be b3:<64 hex characters>"
    }
}

/// Lower-casing leaves a content identifier as it is.
pub proof fn content_ids_are_normalized(s: Seq<char>)
    requires
        is_content_id(s),
    ensures
        ascii_lower(s) == s,
{
    assert forall|i: int| 0 <= i < s.len() implies ascii_lower(s)[i] == #[trigger] s[i] by {
        if i >= 3 {
            assert(is_lower_hex(s[i]));
        }
    }
    assert(ascii_lower(s) =~= s);
}

/// A track can be known by its local database ID, stable content ID, or both,
/// or by the place where a peer publishes it.
#[derive(Debug, Hash)]
pub struct TrackKey {
    local_id: Option<LocalTrackId>,
    content_id: Option<ContentId>,
    federation_identity: Option<(String, String)>,
}

pub struct TrackKeyModel {
    pub local_id: Option<LocalTrackId>,
    pub content_id: Option<Seq<char>>,
    pub federation_identity: Option<(Seq<char>, Seq<char>)>,
}

impl TrackKeyModel {
    /// Two keys name the same track when one of their identities is present in
    /// both and equal.
    pub open spec fn matches(self, other: Self) -> bool {
        ||| self.content_id is Some && self.content_id == other.content_id
        ||| self.local_id is Some && self.local_id == other.local_id
        ||| self.federation_identity is Some && self.federation_identity
            == other.federation_identity
    }
}

impl View for TrackKey {
    type V = TrackKeyModel;

    closed spec fn view(&self) -> TrackKeyModel {
        TrackKeyModel {
            local_id: self.local_id,
            content_id: opt_view(self.content_id),
            federation_identity: match self.federation_identity {
                Some((peer, item)) => Some((peer@, item@)),
                None => None,
            },
        }
    }
}

impl Clone for TrackKey {
    fn clone(&self) -> (r: Self)
        ensures
            r == *self,
    {
        TrackKey {
            local_id: self.local_id,
            content_id: self.content_id.clone(),
            federation_identity: match &self.federation_identity {
                Some((peer, item)) => Some((peer.clone(), item.clone())),
                None => None,
            },
        }
    }
}

impl PartialEq for TrackKey {
    fn eq(&self, other: &Self) -> (r: bool) {
        self.local_id == other.local_id && self.content_id == other.content_id && match (
            &self.federation_identity,
            &other.federation_identity,
        ) {
            (Some((peer, item)), Some((other_peer, other_item))) => *peer == *other_peer && *item
                == *other_item,
            (None, None) => true,
            _ => false,
        }
    }
}

impl vstd::std_specs::cmp::PartialEqSpecImpl for TrackKey {
    open spec fn obeys_eq_spec() -> bool {
        true
    }

    open spec fn eq_spec(&self, other: &Self) -> bool {
        self@ == other@
    }
}

impl Eq for TrackKey {

}

impl TrackKey {
    pub fn local(id: LocalTrackId) -> (r: Self)
        ensures
            r@ == (TrackKeyModel {
                local_id: Some(id),
                content_id: None,
                federation_identity: None,
            }),
    {
        TrackKey { local_id: Some(id), content_id: None, federation_identity: None }
    }

    pub fn new(local_id: LocalTrackId, content_id: ContentId) -> (r: Self)
        ensures
            r@ == (TrackKeyModel {
                local_id: Some(local_id),
                content_id: Some(content_id@),
                federation_identity: None,
            }),
    {
        TrackKey {
            local_id: Some(local_id),
            content_id: Some(content_id),
            federation_identity: None,
        }
    }

    pub fn remote(content_id: ContentId) -> (r: Self)
        ensures
            r@ == (TrackKeyModel {
                local_id: None,
                content_id: Some(content_id@),
                federation_identity: None,
            }),
    {
        TrackKey { local_id: None, content_id: Some(content_id), federation_identity: None }
    }

    pub fn federation(peer_id: String, item_id: String, content_id: Option<ContentId>) -> (r: Self)
        ensures
            r@ == (TrackKeyModel {
                local_id: None,
                content_id: opt_view(content_id),
                federation_identity: Some((peer_id@, item_id@)),
            }),
    {
        TrackKey { local_id: None, content_id, federation_identity: Some((peer_id, item_id)) }
    }

    pub fn local_id(&self) -> (r: Option<LocalTrackId>)
        ensures
            r == self@.local_id,
    {
        self.local_id
    }

    pub fn content_id(&self) -> (r: Option<&ContentId>)
        ensures
            r is Some <==> self@.content_id is Some,
            r matches Some(id) ==> self@.content_id == Some(id@),
    {
        self.content_id.as_ref()
    }

    pub fn federation_id(&self) -> (r: Option<(&str, &str)>)
        ensures
            match r {
                Some((peer, item)) => self@.federation_identity == Some((peer@, item@)),
                None => self@.federation_identity is None,
            },
    {
        match &self.federation_identity {
            Some((peer, item)) => Some((peer.as_str(), item.as_str())),
            None => None,
        }
    }

    pub fn matches(&self, other: &Self) -> (r: bool)
        ensures
            r == self@.matches(other@),
    {
        let same_content = match (&self.content_id, &other.content_id) {
            (Some(left), Some(right)) => *left == *right,
            _ => false,
        };
        let same_local = match (self.local_id, other.local_id) {
            (Some(left), Some(right)) => left == right,
            _ => false,
        };
        let same_place = match (&self.federation_identity, &other.federation_identity) {
            (Some((peer, item)), Some((other_peer, other_item))) => *peer == *other_peer && *item
                == *other_item,
            _ => false,
        };
        same_content || same_local || same_place
    }
}

/// Matching does not depend on which key is asked.
pub proof fn matching_is_symmetric(a: TrackKeyModel, b: TrackKeyModel)
    ensures
        a.matches(b) == b.matches(a),
{
}

/// Keys that hold the same content identifier match wherever they came from.
pub proof fn same_content_matches(a: TrackKeyModel, b: TrackKeyModel)
    requires
        a.content_id is Some,
        a.content_id == b.content_id,
    ensures
        a.matches(b),
{
}

/// Playback location resolved by a catalog provider. Local files go directly
/// to the audio engine; federated sources are streamed or materialized first
/// and then handed to the same engine.
#[derive(Debug)]
pub enum AudioSource {
    LocalFile(String),
    Federation { peer_id: String, content_id: ContentId },
}

pub enum AudioSourceModel {
    LocalFile(Seq<char>),
    Federation { peer_id: Seq<char>, content_id: Seq<char> },
}

impl View for AudioSource {
    type V = AudioSourceModel;

    open spec fn view(&self) -> AudioSourceModel {
        match *self {
            AudioSource::LocalFile(path) => AudioSourceModel::LocalFile(path@),
            AudioSource::Federation { peer_id, content_id } => AudioSourceModel::Federation {
                peer_id: peer_id@,
                content_id: content_id@,
            },
        }
    }
}

impl Clone for AudioSource {
    fn clone(&self) -> (r: Self)
        ensures
            r == *self,
    {
        match self {
            AudioSource::LocalFile(path) => AudioSource::LocalFile(path.clone()),
            AudioSource::Federation { peer_id, content_id } => AudioSource::Federation {
                peer_id: peer_id.clone(),
                content_id: content_id.clone(),
            },
        }
    }
}

impl PartialEq for AudioSource {
    fn eq(&self, other: &Self) -> (r: bool) {
        match (self, other) {
            (AudioSource::LocalFile(path), AudioSource::LocalFile(other_path)) => *path
                == *other_path,
            (
                AudioSource::Federation { peer_id, content_id },
                AudioSource::Federation { peer_id: other_peer, content_id: other_content },
            ) => *peer_id == *other_peer && *content_id == *other_content,
            _ => false,
        }
    }
}

impl vstd::std_specs::cmp::PartialEqSpecImpl for AudioSource {
    open spec fn obeys_eq_spec() -> bool {
        true
    }

    open spec fn eq_spec(&self, other: &Self) -> bool {
        self@ == other@
    }
}

impl Eq for AudioSource {

}

/// One playable recording. Durations are whole nanoseconds; a duration that
/// is not known is zero.
#[derive(Debug, PartialEq)]
pub struct Track {
    pub key: TrackKey,
    pub title: String,
    pub artist: String,
    pub artists: Vec<ArtistRef>,
    pub featured_artists: Vec<ArtistRef>,
    pub release: String,
    pub release_id: ReleaseKey,
    pub duration_nanos: u64,
    pub track_number: Option<u32>,
    pub disc_number: Option<u32>,
    pub cover_uri: Option<String>,
    pub audio_format: Option<String>,
    pub audio_bitrate_kbps: Option<u32>,
    pub audio_sample_rate_hz: Option<u32>,
    pub audio_bit_depth: Option<u32>,
    pub file_size_bytes: Option<u64>,
    /// Whether this content is present in the listener's shared likes.
    pub liked: bool,
    pub audio_source: AudioSource,
}

pub struct TrackModel {
    pub key: TrackKeyModel,
    pub title: Seq<char>,
    pub artist: Seq<char>,
    pub artists: Seq<ArtistRefModel>,
    pub featured_artists: Seq<ArtistRefModel>,
    pub release: Seq<char>,
    pub release_id: ReleaseKeyModel,
    pub duration_nanos: u64,
    pub track_number: Option<u32>,
    pub disc_number: Option<u32>,
    pub cover_uri: Option<Seq<char>>,
    pub audio_format: Option<Seq<char>>,
    pub audio_bitrate_kbps: Option<u32>,
    pub audio_sample_rate_hz: Option<u32>,
    pub audio_bit_depth: Option<u32>,
    pub file_size_bytes: Option<u64>,
    pub liked: bool,
    pub audio_source: AudioSourceModel,
}

/// A number that is absent counts as one.
pub open spec fn or_one(n: Option<u32>) -> u32 {
    match n {
        Some(n) => n,
        None => 1,
    }
}

/// Text as catalogs are compared by: without surrounding white space, in lower
/// case.
pub open spec fn catalog_text(s: Seq<char>) -> Seq<char> {
    lowercase(trimmed(s))
}

pub open spec fn nearby_durations(a: u64, b: u64) -> bool {
    a > 0 && b > 0 && -2_000_000_000 < a - b < 2_000_000_000
}

impl TrackModel {
    /// Two provider records describe the same logical track: their keys match,
    /// or one of them has no content identifier, their titles agree, their
    /// releases do not contradict each other, and their album positions agree,
    /// or, where one of them has none, their durations are both known and less
    /// than two seconds apart.
    pub open spec fn same_catalog_track(self, other: Self) -> bool {
        self.key.matches(other.key) || {
            &&& self.key.content_id is None || other.key.content_id is None
            &&& catalog_text(self.title) == catalog_text(other.title)
            &&& catalog_text(self.release).len() == 0 || catalog_text(other.release).len() == 0
                || catalog_text(self.release) == catalog_text(other.release)
            &&& if self.track_number is Some && other.track_number is Some {
                self.track_number == other.track_number && or_one(self.disc_number) == or_one(
                    other.disc_number,
                )
            } else {
                nearby_durations(self.duration_nanos, other.duration_nanos)
            }
        }
    }
}

impl View for Track {
    type V = TrackModel;

    open spec fn view(&self) -> TrackModel {
        TrackModel {
            key: self.key@,
            title: self.title@,
            artist: self.artist@,
            artists: views(self.artists@),
            featured_artists: views(self.featured_artists@),
            release: self.release@,
            release_id: self.release_id@,
            duration_nanos: self.duration_nanos,
            track_number: self.track_number,
            disc_number: self.disc_number,
            cover_uri: opt_view(self.cover_uri),
            audio_format: opt_view(self.audio_format),
            audio_bitrate_kbps: self.audio_bitrate_kbps,
            audio_sample_rate_hz: self.audio_sample_rate_hz,
            audio_bit_depth: self.audio_bit_depth,
            file_size_bytes: self.file_size_bytes,
            liked: self.liked,
            audio_source: self.audio_source@,
        }
    }
}

impl Clone for Track {
    fn clone(&self) -> (r: Self)
        ensures
            r@ == self@,
    {
        let r = Track {
            key: self.key.clone(),
            title: self.title.clone(),
            artist: self.artist.clone(),
            artists: self.artists.clone(),
            featured_artists: self.featured_artists.clone(),
            release: self.release.clone(),
            release_id: self.release_id.clone(),
            duration_nanos: self.duration_nanos,
            track_number: self.track_number,
            disc_number: self.disc_number,
            cover_uri: self.cover_uri.clone(),
            audio_format: self.audio_format.clone(),
            audio_bitrate_kbps: self.audio_bitrate_kbps,
            audio_sample_rate_hz: self.audio_sample_rate_hz,
            audio_bit_depth: self.audio_bit_depth,
            file_size_bytes: self.file_size_bytes,
            liked: self.liked,
            audio_source: self.audio_source.clone(),
        };
        proof {
            assert(r@.artists =~= self@.artists);
            assert(r@.featured_artists =~= self@.featured_artists);
        }
        r
    }
}

impl Track {
    /// Returns whether two provider records describe the same logical track.
    /// Stable content identity wins, with album metadata as a fallback for
    /// catalogs that did not publish a content ID.
    pub fn same_catalog_track(&self, other: &Self) -> (r: bool)
        ensures
            r == self@.same_catalog_track(other@),
    {
        if self.key.matches(&other.key) {
            return true;
        }
        if self.key.content_id().is_some() && other.key.content_id().is_some() {
            return false;
        }
        if normalized_catalog_text(self.title.as_str()) != normalized_catalog_text(
            other.title.as_str(),
        ) {
            return false;
        }
        let left_release = normalized_catalog_text(self.release.as_str());
        let right_release = normalized_catalog_text(other.release.as_str());
        if !left_release.as_str().is_empty() && !right_release.as_str().is_empty() && left_release != right_release {
            return false;
        }
        if let (Some(left), Some(right)) = (self.track_number, other.track_number) {
            return left == right && self.disc_number.unwrap_or(1) == other.disc_number.unwrap_or(
                1,
            );
        }
        let left: u64 = self.duration_nanos;
        let right: u64 = other.duration_nanos;
        left > 0 && right > 0 && if left > right {
            left - right < 2_000_000_000
        } else {
            right - left < 2_000_000_000
        }
    }
}

/// Whether two records describe the same track does not depend on which of
/// them is asked.
pub proof fn same_catalog_track_is_symmetric(a: TrackModel, b: TrackModel)
    ensures
        a.same_catalog_track(b) == b.same_catalog_track(a),
{
}

pub fn normalized_catalog_text(value: &str) -> (r: String)
    ensures
        r@ == catalog_text(value@),
{
    trim(value).to_lowercase()
}

#[derive(Debug, PartialEq)]
pub struct Release {
    pub key: ReleaseKey,
    pub source: CatalogSource,
    pub title: String,
    pub artists: Vec<ArtistRef>,
    pub featured_artists: Vec<ArtistRef>,
    pub release_type: String,
    pub year: Option<i32>,
    pub artwork: Artwork,
    pub tracks: Vec<Track>,
}

pub struct ReleaseModel {
    pub key: ReleaseKeyModel,
    pub source: CatalogSourceModel,
    pub title: Seq<char>,
    pub artists: Seq<ArtistRefModel>,
    pub featured_artists: Seq<ArtistRefModel>,
    pub release_type: Seq<char>,
    pub year: Option<i32>,
    pub artwork: Option<Seq<char>>,
    pub tracks: Seq<TrackModel>,
}

impl View for Release {
    type V = ReleaseModel;

    open spec fn view(&self) -> ReleaseModel {
        ReleaseModel {
            key: self.key@,
            source: self.source@,
            title: self.title@,
            artists: views(self.artists@),
            featured_artists: views(self.featured_artists@),
            release_type: self.release_type@,
            year: self.year,
            artwork: self.artwork@,
            tracks: views(self.tracks@),
        }
    }
}

impl Clone for Release {
    fn clone(&self) -> (r: Self)
        ensures
            r@ == self@,
    {
        let r = Release {
            key: self.key.clone(),
            source: self.source.clone(),
            title: self.title.clone(),
            artists: self.artists.clone(),
            featured_artists: self.featured_artists.clone(),
            release_type: self.release_type.clone(),
            year: self.year,
            artwork: self.artwork.clone(),
            tracks: self.tracks.clone(),
        };
        proof {
            assert(r@.artists =~= self@.artists);
            assert(r@.featured_artists =~= self@.featured_artists);
            assert(r@.tracks =~= self@.tracks);
        }
        r
    }
}

/// The names of the artists, in order.
pub open spec fn artist_names(artists: Seq<ArtistRefModel>) -> Seq<Seq<char>> {
    Seq::new(artists.len(), |i: int| artists[i].name)
}

/// The names of the artists, copied out in order.
pub fn names_of(artists: &Vec<ArtistRef>) -> (r: Vec<String>)
    ensures
        views(r@) == artist_names(views(artists@)),
{
    let mut names: Vec<String> = Vec::new();
    let mut i: usize = 0;
    while i < artists.len()
        invariant
            i <= artists.len(),
            names.len() == i,
            forall|j: int| 0 <= j < i ==> (#[trigger] names@[j])@ == artists@[j].name@,
        decreases artists.len() - i,
    {
        names.push(artists[i].name.clone());
        i += 1;
    }
    proof {
        assert(views(names@) =~= artist_names(views(artists@)));
    }
    names
}

impl Release {
    pub fn artist_line(&self) -> (r: String)
        ensures
            r@ == joined(artist_names(self@.artists), ", "@),
    {
        let names = names_of(&self.artists);
        join(&names, ", ")
    }

    pub fn is_album(&self) -> (r: bool)
        ensures
            r == (ascii_lower(self@.release_type) == "album"@),
    {
        to_ascii_lower(self.release_type.as_str()) == "album".to_owned()
    }
}

} // verus!

//! The contract between the frontend and the backend: what the backend
//! publishes, and what it can be told.
use crate::catalog::{
    Artist, ArtistKey, ArtistModel, Release, ReleaseKey, ReleaseModel, Track, TrackKey, TrackModel,
};
use crate::queue::{Queue, QueueItemId, QueueModel};
use crate::text::{is_white, same_text, trim, trimmed};
use crate::views::{opt_view, views};
use vstd::prelude::*;

verus! {

#[derive(Debug, Clone, Copy, PartialEq, Eq, Hash, Structural)]
pub struct RequestId(pub u64);

impl RequestId {
    pub fn new(value: u64) -> (r: Self)
        ensures
            r == RequestId(value),
    {
        RequestId(value)
    }

    pub fn get(self) -> (r: u64)
        ensures
            r == self.0,
    {
        self.0
    }
}

#[derive(Debug, Clone, Copy, Default, PartialEq, Eq, Structural)]
pub enum PlaybackStatus {
    #[default]
    Stopped,
    Playing,
    Paused,
}

#[derive(Debug, Clone, Copy, Default, PartialEq, Eq, Structural)]
pub enum PlaybackRepeat {
    #[default]
    Off,
    One,
    All,
}

impl PlaybackRepeat {
    pub open spec fn successor(self) -> Self {
        match self {
            PlaybackRepeat::Off => PlaybackRepeat::All,
            PlaybackRepeat::All => PlaybackRepeat::One,
            PlaybackRepeat::One => PlaybackRepeat::Off,
        }
    }

    pub fn next(self) -> (r: Self)
        ensures
            r == self.successor(),
    {
        match self {
            PlaybackRepeat::Off => PlaybackRepeat::All,
            PlaybackRepeat::All => PlaybackRepeat::One,
            PlaybackRepeat::One => PlaybackRepeat::Off,
        }
    }
}

/// Cycling comes round after three steps, and not before.
pub proof fn repeat_cycles_through_three_modes(repeat: PlaybackRepeat)
    ensures
        repeat.successor().successor().successor() == repeat,
        repeat.successor() != repeat,
        repeat.successor().successor() != repeat,
{
}

/// Full volume, full progress or a perfect score, in parts per billion.
pub const UNIT: u32 = 1_000_000_000;

/// What is playing and how. Times are whole nanoseconds, the volume counts in
/// parts per billion of full volume.
#[derive(Debug, Clone, Copy, PartialEq, Eq, Structural)]
pub struct PlaybackSnapshot {
    pub status: PlaybackStatus,
    pub position_nanos: u64,
    pub duration_nanos: u64,
    pub volume_ppb: u32,
    pub shuffle: bool,
    pub repeat: PlaybackRepeat,
}

impl Default for PlaybackSnapshot {
    fn default() -> (r: Self)
        ensures
            r == (PlaybackSnapshot {
                status: PlaybackStatus::Stopped,
                position_nanos: 0,
                duration_nanos: 0,
                volume_ppb: 720_000_000,
                shuffle: false,
                repeat: PlaybackRepeat::Off,
            }),
    {
        PlaybackSnapshot {
            status: PlaybackStatus::Stopped,
            position_nanos: 0,
            duration_nanos: 0,
            volume_ppb: 720_000_000,
            shuffle: false,
            repeat: PlaybackRepeat::Off,
        }
    }
}

#[derive(Debug, Default, PartialEq)]
pub enum RemoteData<T> {
    #[default]
    NotRequested,
    Loading { request_id: RequestId },
    Ready(T),
    Failed { message: String },
}

pub enum RemoteDataModel<V> {
    NotRequested,
    Loading { request_id: RequestId },
    Ready(V),
    Failed { message: Seq<char> },
}

impl<T: View> View for RemoteData<T> {
    type V = RemoteDataModel<T::V>;

    open spec fn view(&self) -> RemoteDataModel<T::V> {
        match *self {
            RemoteData::NotRequested => RemoteDataModel::NotRequested,
            RemoteData::Loading { request_id } => RemoteDataModel::Loading { request_id },
            RemoteData::Ready(data) => RemoteDataModel::Ready(data@),
            RemoteData::Failed { message } => RemoteDataModel::Failed { message: message@ },
        }
    }
}

impl Clone for RemoteData<LibrarySnapshot> {
    fn clone(&self) -> (r: Self)
        ensures
            r@ == self@,
    {
        match self {
            RemoteData::NotRequested => RemoteData::NotRequested,
            RemoteData::Loading { request_id } => RemoteData::Loading { request_id: *request_id },
            RemoteData::Ready(data) => RemoteData::Ready(data.clone()),
            RemoteData::Failed { message } => RemoteData::Failed { message: message.clone() },
        }
    }
}

#[derive(Debug, Default, PartialEq)]
pub struct LibrarySnapshot {
    pub artists: Vec<Artist>,
    pub featured_releases: Vec<Release>,
    pub recently_played: Vec<Track>,
    pub playlists: Vec<PlaylistSnapshot>,
}

pub struct LibraryModel {
    pub artists: Seq<ArtistModel>,
    pub featured_releases: Seq<ReleaseModel>,
    pub recently_played: Seq<TrackModel>,
    pub playlists: Seq<PlaylistModel>,
}

impl View for LibrarySnapshot {
    type V = LibraryModel;

    open spec fn view(&self) -> LibraryModel {
        LibraryModel {
            artists: views(self.artists@),
            featured_releases: views(self.featured_releases@),
            recently_played: views(self.recently_played@),
            playlists: views(self.playlists@),
        }
    }
}

impl Clone for LibrarySnapshot {
    fn clone(&self) -> (r: Self)
        ensures
            r@ == self@,
    {
        let r = LibrarySnapshot {
            artists: self.artists.clone(),
            featured_releases: self.featured_releases.clone(),
            recently_played: self.recently_played.clone(),
            playlists: self.playlists.clone(),
        };
        proof {
            assert(r@.artists =~= self@.artists);
            assert(r@.featured_releases =~= self@.featured_releases);
            assert(r@.recently_played =~= self@.recently_played);
            assert(r@.playlists =~= self@.playlists);
        }
        r
    }
}

#[derive(Debug, Default, PartialEq)]
pub struct PlaylistSnapshot {
    pub id: i64,
    pub title: String,
    pub is_likes: bool,
    pub tracks: Vec<Track>,
}

pub struct PlaylistModel {
    pub id: i64,
    pub title: Seq<char>,
    pub is_likes: bool,
    pub tracks: Seq<TrackModel>,
}

impl View for PlaylistSnapshot {
    type V = PlaylistModel;

    open spec fn view(&self) -> PlaylistModel {
        PlaylistModel {
            id: self.id,
            title: self.title@,
            is_likes: self.is_likes,
            tracks: views(self.tracks@),
        }
    }
}

impl Clone for PlaylistSnapshot {
    fn clone(&self) -> (r: Self)
        ensures
            r@ == self@,
    {
        let r = PlaylistSnapshot {
            id: self.id,
            title: self.title.clone(),
            is_likes: self.is_likes,
            tracks: self.tracks.clone(),
        };
        proof {
            assert(r@.tracks =~= self@.tracks);
        }
        r
    }
}

#[derive(Debug, Clone, Copy, Default, PartialEq, Eq, Structural)]
pub enum DevicePlaybackRole {
    #[default]
    Active,
    Control,
}

#[derive(Debug, Default, PartialEq, Eq)]
pub struct ConnectedDeviceSnapshot {
    pub id: String,
    pub name: String,
    pub client_version: String,
    pub is_self: bool,
    pub presence: DevicePresence,
    pub trust: DeviceTrust,
    pub is_active: bool,
}

pub struct ConnectedDeviceModel {
    pub id: Seq<char>,
    pub name: Seq<char>,
    pub client_version: Seq<char>,
    pub is_self: bool,
    pub presence: DevicePresence,
    pub trust: DeviceTrust,
    pub is_active: bool,
}

impl View for ConnectedDeviceSnapshot {
    type V = ConnectedDeviceModel;

    open spec fn view(&self) -> ConnectedDeviceModel {
        ConnectedDeviceModel {
            id: self.id@,
            name: self.name@,
            client_version: self.client_version@,
            is_self: self.is_self,
            presence: self.presence,
            trust: self.trust,
            is_active: self.is_active,
        }
    }
}

impl Clone for ConnectedDeviceSnapshot {
    fn clone(&self) -> (r: Self)
        ensures
            r@ == self@,
    {
        ConnectedDeviceSnapshot {
            id: self.id.clone(),
            name: self.name.clone(),
            client_version: self.client_version.clone(),
            is_self: self.is_self,
            presence: self.presence,
            trust: self.trust,
            is_active: self.is_active,
        }
    }
}

#[derive(Debug, Clone, Copy, Default, PartialEq, Eq, Structural)]
pub enum DevicePresence {
    #[default]
    Offline,
    Online,
}

#[derive(Debug, Clone, Copy, Default, PartialEq, Eq, Structural)]
pub enum DeviceTrust {
    #[default]
    Trusted,
    Revoked,
}

#[derive(Debug, Default, PartialEq, Eq)]
pub struct PendingPairingSnapshot {
    pub request_id: String,
    pub device_id: String,
    pub name: String,
    pub client_version: String,
    pub requester_group_id: Option<String>,
    pub requester_group_active_devices: usize,
}

pub struct PendingPairingModel {
    pub request_id: Seq<char>,
    pub device_id: Seq<char>,
    pub name: Seq<char>,
    pub client_version: Seq<char>,
    pub requester_group_id: Option<Seq<char>>,
    pub requester_group_active_devices: usize,
}

impl View for PendingPairingSnapshot {
    type V = PendingPairingModel;

    open spec fn view(&self) -> PendingPairingModel {
        PendingPairingModel {
            request_id: self.request_id@,
            device_id: self.device_id@,
            name: self.name@,
            client_version: self.client_version@,
            requester_group_id: opt_view(self.requester_group_id),
            requester_group_active_devices: self.requester_group_active_devices,
        }
    }
}

impl Clone for PendingPairingSnapshot {
    fn clone(&self) -> (r: Self)
        ensures
            r@ == self@,
    {
        PendingPairingSnapshot {
            request_id: self.request_id.clone(),
            device_id: self.device_id.clone(),
            name: self.name.clone(),
            client_version: self.client_version.clone(),
            requester_group_id: self.requester_group_id.clone(),
            requester_group_active_devices: self.requester_group_active_devices,
        }
    }
}

#[derive(Debug, Default, PartialEq, Eq)]
pub struct ConnectedDevicesSnapshot {
    pub this_device_id: String,
    pub this_device_name: String,
    pub group_id: String,
    pub role: DevicePlaybackRole,
    pub active_device_id: String,
    pub active_device_name: String,
    pub devices: Vec<ConnectedDeviceSnapshot>,
    pub pending_pairings: Vec<PendingPairingSnapshot>,
    pub invite: Option<String>,
    pub busy: bool,
    pub last_sync: Option<String>,
    pub error: Option<String>,
}

pub struct ConnectedDevicesModel {
    pub this_device_id: Seq<char>,
    pub this_device_name: Seq<char>,
    pub group_id: Seq<char>,
    pub role: DevicePlaybackRole,
    pub active_device_id: Seq<char>,
    pub active_device_name: Seq<char>,
    pub devices: Seq<ConnectedDeviceModel>,
    pub pending_pairings: Seq<PendingPairingModel>,
    pub invite: Option<Seq<char>>,
    pub busy: bool,
    pub last_sync: Option<Seq<char>>,
    pub error: Option<Seq<char>>,
}

impl View for ConnectedDevicesSnapshot {
    type V = ConnectedDevicesModel;

    open spec fn view(&self) -> ConnectedDevicesModel {
        ConnectedDevicesModel {
            this_device_id: self.this_device_id@,
            this_device_name: self.this_device_name@,
            group_id: self.group_id@,
            role: self.role,
            active_device_id: self.active_device_id@,
            active_device_name: self.active_device_name@,
            devices: views(self.devices@),
            pending_pairings: views(self.pending_pairings@),
            invite: opt_view(self.invite),
            busy: self.busy,
            last_sync: opt_view(self.last_sync),
            error: opt_view(self.error),
        }
    }
}

impl Clone for ConnectedDevicesSnapshot {
    fn clone(&self) -> (r: Self)
        ensures
            r@ == self@,
    {
        let r = ConnectedDevicesSnapshot {
            this_device_id: self.this_device_id.clone(),
            this_device_name: self.this_device_name.clone(),
            group_id: self.group_id.clone(),
            role: self.role,
            active_device_id: self.active_device_id.clone(),
            active_device_name: self.active_device_name.clone(),
            devices: self.devices.clone(),
            pending_pairings: self.pending_pairings.clone(),
            invite: self.invite.clone(),
            busy: self.busy,
            last_sync: self.last_sync.clone(),
            error: self.error.clone(),
        };
        proof {
            assert(r@.devices =~= self@.devices);
            assert(r@.pending_pairings =~= self@.pending_pairings);
        }
        r
    }
}

#[derive(Debug, Default, PartialEq)]
pub struct SearchResults {
    pub artists: Vec<Artist>,
    pub releases: Vec<Release>,
    pub tracks: Vec<Track>,
}

pub struct SearchResultsModel {
    pub artists: Seq<ArtistModel>,
    pub releases: Seq<ReleaseModel>,
    pub tracks: Seq<TrackModel>,
}

impl View for SearchResults {
    type V = SearchResultsModel;

    open spec fn view(&self) -> SearchResultsModel {
        SearchResultsModel {
            artists: views(self.artists@),
            releases: views(self.releases@),
            tracks: views(self.tracks@),
        }
    }
}

impl Clone for SearchResults {
    fn clone(&self) -> (r: Self)
        ensures
            r@ == self@,
    {
        let r = SearchResults {
            artists: self.artists.clone(),
            releases: self.releases.clone(),
            tracks: self.tracks.clone(),
        };
        proof {
            assert(r@.artists =~= self@.artists);
            assert(r@.releases =~= self@.releases);
            assert(r@.tracks =~= self@.tracks);
        }
        r
    }
}

#[derive(Debug, Clone, Copy, Default, PartialEq, Eq, Structural)]
pub struct SearchStats {
    pub tracks: usize,
    pub artists: usize,
    pub peers_queried: usize,
    pub duration_ms: u64,
}

#[derive(Debug, Default, PartialEq)]
pub struct SearchSnapshot {
    pub request_id: Option<RequestId>,
    pub results: SearchResults,
    pub federation_pending: bool,
    pub stats: Option<SearchStats>,
    pub error: Option<String>,
}

pub struct SearchModel {
    pub request_id: Option<RequestId>,
    pub results: SearchResultsModel,
    pub federation_pending: bool,
    pub stats: Option<SearchStats>,
    pub error: Option<Seq<char>>,
}

impl View for SearchSnapshot {
    type V = SearchModel;

    open spec fn view(&self) -> SearchModel {
        SearchModel {
            request_id: self.request_id,
            results: self.results@,
            federation_pending: self.federation_pending,
            stats: self.stats,
            error: opt_view(self.error),
        }
    }
}

impl Clone for SearchSnapshot {
    fn clone(&self) -> (r: Self)
        ensures
            r@ == self@,
    {
        SearchSnapshot {
            request_id: self.request_id,
            results: self.results.clone(),
            federation_pending: self.federation_pending,
            stats: self.stats,
            error: self.error.clone(),
        }
    }
}

#[derive(Debug, Clone, Copy, Default, PartialEq, Eq, Structural)]
pub enum FederationOperation {
    #[default]
    Idle,
    Search,
    Artist,
    Release,
}

#[derive(Debug, Default, PartialEq, Eq)]
pub struct FederationActivitySnapshot {
    pub operation: FederationOperation,
    pub pending: bool,
    pub stats: Option<SearchStats>,
    pub error: Option<String>,
}

pub struct FederationActivityModel {
    pub operation: FederationOperation,
    pub pending: bool,
    pub stats: Option<SearchStats>,
    pub error: Option<Seq<char>>,
}

impl View for FederationActivitySnapshot {
    type V = FederationActivityModel;

    open spec fn view(&self) -> FederationActivityModel {
        FederationActivityModel {
            operation: self.operation,
            pending: self.pending,
            stats: self.stats,
            error: opt_view(self.error),
        }
    }
}

impl Clone for FederationActivitySnapshot {
    fn clone(&self) -> (r: Self)
        ensures
            r@ == self@,
    {
        FederationActivitySnapshot {
            operation: self.operation,
            pending: self.pending,
            stats: self.stats,
            error: self.error.clone(),
        }
    }
}

/// Lightweight live diagnostics for the federation node.
#[derive(Debug, Default, PartialEq, Eq)]
pub struct FederationDebugSnapshot {
    pub running: bool,
    pub endpoint_id: String,
    pub dht_node_id: String,
    pub connected_peers: usize,
    pub known_contacts: usize,
    pub stored_dht_records: Option<usize>,
    pub published_items: usize,
    pub error: Option<String>,
}

pub struct FederationDebugModel {
    pub running: bool,
    pub endpoint_id: Seq<char>,
    pub dht_node_id: Seq<char>,
    pub connected_peers: usize,
    pub known_contacts: usize,
    pub stored_dht_records: Option<usize>,
    pub published_items: usize,
    pub error: Option<Seq<char>>,
}

impl View for FederationDebugSnapshot {
    type V = FederationDebugModel;

    open spec fn view(&self) -> FederationDebugModel {
        FederationDebugModel {
            running: self.running,
            endpoint_id: self.endpoint_id@,
            dht_node_id: self.dht_node_id@,
            connected_peers: self.connected_peers,
            known_contacts: self.known_contacts,
            stored_dht_records: self.stored_dht_records,
            published_items: self.published_items,
            error: opt_view(self.error),
        }
    }
}

impl Clone for FederationDebugSnapshot {
    fn clone(&self) -> (r: Self)
        ensures
            r@ == self@,
    {
        FederationDebugSnapshot {
            running: self.running,
            endpoint_id: self.endpoint_id.clone(),
            dht_node_id: self.dht_node_id.clone(),
            connected_peers: self.connected_peers,
            known_contacts: self.known_contacts,
            stored_dht_records: self.stored_dht_records,
            published_items: self.published_items,
            error: self.error.clone(),
        }
    }
}

#[derive(Debug, Default, PartialEq, Eq)]
pub struct VersionEntrySnapshot {
    pub name: String,
    pub version: String,
}

pub struct VersionEntryModel {
    pub name: Seq<char>,
    pub version: Seq<char>,
}

impl View for VersionEntrySnapshot {
    type V = VersionEntryModel;

    open spec fn view(&self) -> VersionEntryModel {
        VersionEntryModel {
            name: self.name@,
            version: self.version@,
        }
    }
}

impl Clone for VersionEntrySnapshot {
    fn clone(&self) -> (r: Self)
        ensures
            r@ == self@,
    {
        VersionEntrySnapshot {
            name: self.name.clone(),
            version: self.version.clone(),
        }
    }
}

#[derive(Debug, Default, PartialEq, Eq)]
pub struct BuildInfoSnapshot {
    pub software: Vec<VersionEntrySnapshot>,
    pub protocols: Vec<VersionEntrySnapshot>,
}

pub struct BuildInfoModel {
    pub software: Seq<VersionEntryModel>,
    pub protocols: Seq<VersionEntryModel>,
}

impl View for BuildInfoSnapshot {
    type V = BuildInfoModel;

    open spec fn view(&self) -> BuildInfoModel {
        BuildInfoModel {
            software: views(self.software@),
            protocols: views(self.protocols@),
        }
    }
}

impl Clone for BuildInfoSnapshot {
    fn clone(&self) -> (r: Self)
        ensures
            r@ == self@,
    {
        let r = BuildInfoSnapshot {
            software: self.software.clone(),
            protocols: self.protocols.clone(),
        };
        proof {
            assert(r@.software =~= self@.software);
            assert(r@.protocols =~= self@.protocols);
        }
        r
    }
}

#[derive(Debug, PartialEq)]
pub struct SettingsSnapshot {
    pub network_id: String,
    pub device_name: String,
    pub library_path: String,
    pub federation_enabled: bool,
    pub save_federated_on_listen: bool,
    pub language: String,
    pub similarity: SimilaritySettingsSnapshot,
}

pub struct SettingsModel {
    pub network_id: Seq<char>,
    pub device_name: Seq<char>,
    pub library_path: Seq<char>,
    pub federation_enabled: bool,
    pub save_federated_on_listen: bool,
    pub language: Seq<char>,
    pub similarity: SimilaritySettingsModel,
}

impl View for SettingsSnapshot {
    type V = SettingsModel;

    open spec fn view(&self) -> SettingsModel {
        SettingsModel {
            network_id: self.network_id@,
            device_name: self.device_name@,
            library_path: self.library_path@,
            federation_enabled: self.federation_enabled,
            save_federated_on_listen: self.save_federated_on_listen,
            language: self.language@,
            similarity: self.similarity@,
        }
    }
}

impl Clone for SettingsSnapshot {
    fn clone(&self) -> (r: Self)
        ensures
            r == *self,
    {
        SettingsSnapshot {
            network_id: self.network_id.clone(),
            device_name: self.device_name.clone(),
            library_path: self.library_path.clone(),
            federation_enabled: self.federation_enabled,
            save_federated_on_listen: self.save_federated_on_listen,
            language: self.language.clone(),
            similarity: self.similarity.clone(),
        }
    }
}

/// How similar music is looked for. The least score counts in parts per
/// billion, and is absent where it is not a finite number.
#[derive(Debug, PartialEq)]
pub struct SimilaritySettingsSnapshot {
    pub enabled: bool,
    pub model: String,
    pub profile: String,
    pub workers: usize,
    pub minimum_score_ppb: Option<i64>,
    pub max_tracks_per_artist: usize,
    pub federation_consent: bool,
    pub active_profile: Option<String>,
}

pub struct SimilaritySettingsModel {
    pub enabled: bool,
    pub model: Seq<char>,
    pub profile: Seq<char>,
    pub workers: usize,
    pub minimum_score_ppb: Option<i64>,
    pub max_tracks_per_artist: usize,
    pub federation_consent: bool,
    pub active_profile: Option<Seq<char>>,
}

impl View for SimilaritySettingsSnapshot {
    type V = SimilaritySettingsModel;

    open spec fn view(&self) -> SimilaritySettingsModel {
        SimilaritySettingsModel {
            enabled: self.enabled,
            model: self.model@,
            profile: self.profile@,
            workers: self.workers,
            minimum_score_ppb: self.minimum_score_ppb,
            max_tracks_per_artist: self.max_tracks_per_artist,
            federation_consent: self.federation_consent,
            active_profile: opt_view(self.active_profile),
        }
    }
}

impl Clone for SimilaritySettingsSnapshot {
    fn clone(&self) -> (r: Self)
        ensures
            r == *self,
    {
        SimilaritySettingsSnapshot {
            enabled: self.enabled,
            model: self.model.clone(),
            profile: self.profile.clone(),
            workers: self.workers,
            minimum_score_ppb: self.minimum_score_ppb,
            max_tracks_per_artist: self.max_tracks_per_artist,
            federation_consent: self.federation_consent,
            active_profile: self.active_profile.clone(),
        }
    }
}

impl SimilaritySettingsModel {
    /// Whether every field is in the range that normalizing puts it in.
    pub open spec fn is_normalized(self) -> bool {
        &&& trimmed(self.model).len() > 0
        &&& trimmed(self.profile).len() > 0
        &&& 1 <= self.workers <= 16
        &&& self.minimum_score_ppb matches Some(score) && 0 <= score <= UNIT
        &&& 1 <= self.max_tracks_per_artist <= 50
    }
}

/// The settings with everything missing replaced by its default and everything
/// out of range by the nearest that is not.
pub open spec fn normal_similarity(s: SimilaritySettingsModel) -> SimilaritySettingsModel {
    SimilaritySettingsModel {
        model: if trimmed(s.model).len() == 0 {
            "discogs-effnet-bsdynamic-1"@
        } else {
            s.model
        },
        profile: if trimmed(s.profile).len() == 0 {
            "furumi-full-track-v1"@
        } else {
            s.profile
        },
        workers: clamped(s.workers as int, 1, 16) as usize,
        minimum_score_ppb: match s.minimum_score_ppb {
            Some(score) => Some(clamped(score as int, 0, UNIT as int) as i64),
            None => Some(700_000_000i64),
        },
        max_tracks_per_artist: clamped(s.max_tracks_per_artist as int, 1, 50) as usize,
        ..s
    }
}

/// Normalizing what is normalized changes nothing.
pub proof fn normalizing_twice_is_normalizing_once(s: SimilaritySettingsModel)
    ensures
        normal_similarity(s).is_normalized(),
        normal_similarity(normal_similarity(s)) == normal_similarity(s),
{
    lemma_defaults_are_filled();
}

/// The default model and profile are not blank.
proof fn lemma_defaults_are_filled()
    ensures
        trimmed("discogs-effnet-bsdynamic-1"@).len() > 0,
        trimmed("furumi-full-track-v1"@).len() > 0,
{
    reveal_strlit("discogs-effnet-bsdynamic-1");
    reveal_strlit("furumi-full-track-v1");
    reveal(is_white);
    assert(!is_white('d') && !is_white('f') && !is_white('1'));
}

/// `n`, or the nearer end of the range where it lies outside.
pub open spec fn clamped(n: int, low: int, high: int) -> int {
    if n < low {
        low
    } else if n > high {
        high
    } else {
        n
    }
}

pub fn clamp_usize(n: usize, low: usize, high: usize) -> (r: usize)
    requires
        low <= high,
    ensures
        r == clamped(n as int, low as int, high as int),
{
    if n < low {
        low
    } else if n > high {
        high
    } else {
        n
    }
}

impl SimilaritySettingsSnapshot {
    /// The settings to start with on a machine that runs `parallelism` threads
    /// at once: half as many workers, from one to four, and one where the
    /// number is not known.
    pub fn for_parallelism(parallelism: Option<usize>) -> (r: Self)
        ensures
            !r.enabled,
            r.model@ == "discogs-effnet-bsdynamic-1"@,
            r.profile@ == "furumi-full-track-v1"@,
            r.workers == (match parallelism {
                Some(count) => clamped(count as int / 2, 1, 4),
                None => 1,
            }),
            r.minimum_score_ppb == Some(700_000_000i64),
            r.max_tracks_per_artist == 5,
            !r.federation_consent,
            r.active_profile is None,
    {
        SimilaritySettingsSnapshot {
            enabled: false,
            model: "discogs-effnet-bsdynamic-1".to_owned(),
            profile: "furumi-full-track-v1".to_owned(),
            workers: match parallelism {
                Some(count) => clamp_usize(count / 2, 1, 4),
                None => 1,
            },
            minimum_score_ppb: Some(700_000_000),
            max_tracks_per_artist: 5,
            federation_consent: false,
            active_profile: None,
        }
    }

    /// Replaces what is missing or out of range by the nearest that is not.
    pub fn normalized(self) -> (r: Self)
        ensures
            r@ == normal_similarity(self@),
            r@.is_normalized(),
    {
        let mut r = self;
        proof {
            lemma_defaults_are_filled();
        }
        if trim(r.model.as_str()).as_str().is_empty() {
            r.model = "discogs-effnet-bsdynamic-1".to_owned();
        }
        if trim(r.profile.as_str()).as_str().is_empty() {
            r.profile = "furumi-full-track-v1".to_owned();
        }
        r.workers = clamp_usize(r.workers, 1, 16);
        r.minimum_score_ppb = match r.minimum_score_ppb {
            Some(score) => Some(
                if score < 0 {
                    0
                } else if score > UNIT as i64 {
                    UNIT as i64
                } else {
                    score
                },
            ),
            None => Some(700_000_000),
        };
        r.max_tracks_per_artist = clamp_usize(r.max_tracks_per_artist, 1, 50);
        r
    }
}

impl SimilaritySettingsSnapshot {
    /// Whether two settings say the same.
    pub fn same(&self, other: &Self) -> (r: bool)
        ensures
            r == (self@ == other@),
    {
        self.enabled == other.enabled && self.model == other.model && self.profile
            == other.profile && self.workers == other.workers && self.minimum_score_ppb
            == other.minimum_score_ppb && self.max_tracks_per_artist
            == other.max_tracks_per_artist && self.federation_consent
            == other.federation_consent && same_text(&self.active_profile, &other.active_profile)
    }
}

impl FederationDebugSnapshot {
    /// Whether two diagnoses say the same.
    pub fn same(&self, other: &Self) -> (r: bool)
        ensures
            r == (self@ == other@),
    {
        self.running == other.running && self.endpoint_id == other.endpoint_id && self.dht_node_id
            == other.dht_node_id && self.connected_peers == other.connected_peers
            && self.known_contacts == other.known_contacts && self.stored_dht_records
            == other.stored_dht_records && self.published_items == other.published_items
            && same_text(&self.error, &other.error)
    }
}

impl Default for SimilaritySettingsSnapshot {
    /// The settings for a machine of which nothing is known: one worker. A
    /// program that knows how many threads its machine runs at once starts with
    /// `for_parallelism` instead.
    fn default() -> (r: Self)
        ensures
            call_ensures(SimilaritySettingsSnapshot::for_parallelism, (None::<usize>,), r),
    {
        SimilaritySettingsSnapshot::for_parallelism(None)
    }
}

impl Default for SettingsSnapshot {
    /// The library path stays empty until the platform's shared data directory
    /// is resolved.
    fn default() -> (r: Self)
        ensures
            r.network_id@ == "furumi"@,
            r.device_name@.len() == 0,
            r.library_path@.len() == 0,
            r.federation_enabled,
            r.save_federated_on_listen,
            r.language@ == "English"@,
            call_ensures(
                SimilaritySettingsSnapshot::for_parallelism,
                (None::<usize>,),
                r.similarity,
            ),
    {
        SettingsSnapshot {
            network_id: "furumi".to_owned(),
            device_name: String::new(),
            library_path: String::new(),
            federation_enabled: true,
            save_federated_on_listen: true,
            language: "English".to_owned(),
            similarity: SimilaritySettingsSnapshot::for_parallelism(None),
        }
    }
}

#[derive(Debug, Default, PartialEq, Eq)]
pub struct SimilarityStatusSnapshot {
    pub phase: String,
    pub active_profile: Option<String>,
    pub target_profile: Option<String>,
    pub model: String,
    pub total_tracks: usize,
    pub completed_tracks: usize,
    pub failed_tracks: usize,
    pub stored_vectors: usize,
    pub stored_bytes: u64,
    pub current_track: Option<String>,
    pub error: Option<String>,
}

pub struct SimilarityStatusModel {
    pub phase: Seq<char>,
    pub active_profile: Option<Seq<char>>,
    pub target_profile: Option<Seq<char>>,
    pub model: Seq<char>,
    pub total_tracks: usize,
    pub completed_tracks: usize,
    pub failed_tracks: usize,
    pub stored_vectors: usize,
    pub stored_bytes: u64,
    pub current_track: Option<Seq<char>>,
    pub error: Option<Seq<char>>,
}

impl View for SimilarityStatusSnapshot {
    type V = SimilarityStatusModel;

    open spec fn view(&self) -> SimilarityStatusModel {
        SimilarityStatusModel {
            phase: self.phase@,
            active_profile: opt_view(self.active_profile),
            target_profile: opt_view(self.target_profile),
            model: self.model@,
            total_tracks: self.total_tracks,
            completed_tracks: self.completed_tracks,
            failed_tracks: self.failed_tracks,
            stored_vectors: self.stored_vectors,
            stored_bytes: self.stored_bytes,
            current_track: opt_view(self.current_track),
            error: opt_view(self.error),
        }
    }
}

impl Clone for SimilarityStatusSnapshot {
    fn clone(&self) -> (r: Self)
        ensures
            r@ == self@,
    {
        SimilarityStatusSnapshot {
            phase: self.phase.clone(),
            active_profile: self.active_profile.clone(),
            target_profile: self.target_profile.clone(),
            model: self.model.clone(),
            total_tracks: self.total_tracks,
            completed_tracks: self.completed_tracks,
            failed_tracks: self.failed_tracks,
            stored_vectors: self.stored_vectors,
            stored_bytes: self.stored_bytes,
            current_track: self.current_track.clone(),
            error: self.error.clone(),
        }
    }
}

#[derive(Debug, Default, PartialEq)]
pub struct SimilaritySearchSnapshot {
    pub source_title: String,
    pub results: Vec<Track>,
    pub pending: bool,
    pub error: Option<String>,
}

pub struct SimilaritySearchModel {
    pub source_title: Seq<char>,
    pub results: Seq<TrackModel>,
    pub pending: bool,
    pub error: Option<Seq<char>>,
}

impl View for SimilaritySearchSnapshot {
    type V = SimilaritySearchModel;

    open spec fn view(&self) -> SimilaritySearchModel {
        SimilaritySearchModel {
            source_title: self.source_title@,
            results: views(self.results@),
            pending: self.pending,
            error: opt_view(self.error),
        }
    }
}

impl Clone for SimilaritySearchSnapshot {
    fn clone(&self) -> (r: Self)
        ensures
            r@ == self@,
    {
        let r = SimilaritySearchSnapshot {
            source_title: self.source_title.clone(),
            results: self.results.clone(),
            pending: self.pending,
            error: self.error.clone(),
        };
        proof {
            assert(r@.results =~= self@.results);
        }
        r
    }
}

#[derive(Debug, Default, PartialEq)]
pub struct BackendSnapshot {
    pub revision: u64,
    pub library: RemoteData<LibrarySnapshot>,
    pub playback: PlaybackSnapshot,
    pub queue: Queue,
    pub search: SearchSnapshot,
    pub federation_activity: FederationActivitySnapshot,
    pub federation_debug: FederationDebugSnapshot,
    pub build_info: BuildInfoSnapshot,
    pub connected_devices: ConnectedDevicesSnapshot,
    pub settings: SettingsSnapshot,
    pub similarity_status: SimilarityStatusSnapshot,
    pub similarity_search: SimilaritySearchSnapshot,
    pub playback_error: Option<String>,
    pub settings_error: Option<String>,
}

pub struct BackendModel {
    pub revision: u64,
    pub library: RemoteDataModel<LibraryModel>,
    pub playback: PlaybackSnapshot,
    pub queue: QueueModel,
    pub search: SearchModel,
    pub federation_activity: FederationActivityModel,
    pub federation_debug: FederationDebugModel,
    pub build_info: BuildInfoModel,
    pub connected_devices: ConnectedDevicesModel,
    pub settings: SettingsModel,
    pub similarity_status: SimilarityStatusModel,
    pub similarity_search: SimilaritySearchModel,
    pub playback_error: Option<Seq<char>>,
    pub settings_error: Option<Seq<char>>,
}

impl View for BackendSnapshot {
    type V = BackendModel;

    open spec fn view(&self) -> BackendModel {
        BackendModel {
            revision: self.revision,
            library: self.library@,
            playback: self.playback,
            queue: self.queue@,
            search: self.search@,
            federation_activity: self.federation_activity@,
            federation_debug: self.federation_debug@,
            build_info: self.build_info@,
            connected_devices: self.connected_devices@,
            settings: self.settings@,
            similarity_status: self.similarity_status@,
            similarity_search: self.similarity_search@,
            playback_error: opt_view(self.playback_error),
            settings_error: opt_view(self.settings_error),
        }
    }
}

impl Clone for BackendSnapshot {
    fn clone(&self) -> (r: Self)
        ensures
            r@ == self@,
    {
        BackendSnapshot {
            revision: self.revision,
            library: self.library.clone(),
            playback: self.playback,
            queue: self.queue.clone(),
            search: self.search.clone(),
            federation_activity: self.federation_activity.clone(),
            federation_debug: self.federation_debug.clone(),
            build_info: self.build_info.clone(),
            connected_devices: self.connected_devices.clone(),
            settings: self.settings.clone(),
            similarity_status: self.similarity_status.clone(),
            similarity_search: self.similarity_search.clone(),
            playback_error: self.playback_error.clone(),
            settings_error: self.settings_error.clone(),
        }
    }
}

#[allow(inconsistent_fields)]
#[derive(Debug, Clone, PartialEq)]
pub enum BackendCommand {
    Initialize,
    TogglePlayback,
    Play,
    Pause,
    Stop,
    Seek { position_nanos: u64 },
    SetVolume { volume_ppb: u32 },
    ToggleShuffle,
    CycleRepeat,
    PlayRelease { release_id: ReleaseKey, start: usize },
    PlayTrack { track: TrackKey },
    PlayQueueItem { item_id: QueueItemId },
    SearchSimilar { track: TrackKey },
    ClearSimilarity,
    MoveQueueItem { item_id: QueueItemId, target_index: usize },
    RemoveQueueItem { item_id: QueueItemId },
    PlayContext { tracks: Vec<TrackKey>, selected: TrackKey },
    AddNext { tracks: Vec<TrackKey> },
    AddToEnd { tracks: Vec<TrackKey> },
    ToggleLike { track: TrackKey },
    CreatePlaylist { title: String },
    RenamePlaylist { playlist_id: i64, title: String },
    DeletePlaylist { playlist_id: i64 },
    AddToPlaylist { playlist_id: i64, tracks: Vec<TrackKey> },
    RemoveFromPlaylist { playlist_id: i64, tracks: Vec<TrackKey> },
    CreateDeviceInvite,
    ConnectDevice { invite: String },
    AnswerDevicePairing { request_id: String, accept: bool, use_requester_group: bool },
    SelectPlaybackDevice { device_id: String },
    Next,
    Previous,
    Search { request_id: RequestId, query: String },
    CancelSearch { request_id: RequestId },
    LoadArtist { request_id: RequestId, key: ArtistKey, name: String },
    LoadRelease {
        request_id: RequestId,
        key: ReleaseKey,
        artist_key: ArtistKey,
        artist_name: String,
    },
    UpdateSettings(SettingsSnapshot),
    Shutdown,
}

#[derive(Debug, Clone, Copy, PartialEq, Eq, Structural)]
pub enum SendCommandError {
    Busy,
    Closed,
}

impl SendCommandError {
    /// What to tell a person about it.
    pub fn message(&self) -> (r: &'static str)
        ensures
            r@ == (match *self {
                SendCommandError::Busy => "backend command queue is full"@,
                SendCommandError::Closed => "backend is unavailable"@,
            }),
    {
        match self {
            SendCommandError::Busy => "backend command queue is full",
            SendCommandError::Closed => "backend is unavailable",
        }
    }
}

} // verus!

//! Everything the window shows, as plain values.
use crate::api::{
    ConnectedDeviceModel, ConnectedDeviceSnapshot, DevicePresence, DeviceTrust,
    FederationDebugModel, FederationDebugSnapshot, PendingPairingModel, PendingPairingSnapshot,
    PlaylistModel, PlaylistSnapshot,
};
use crate::application::{clock_text, duration_label};
use crate::catalog::{
    artist_names, Artist, ArtistModel, AudioSource, CatalogSource, Release, ReleaseModel, Track,
    TrackKey, TrackKeyModel, TrackModel,
};
use crate::lookup::ref_view;
use crate::queue::{QueueItem, QueueItemModel};
use crate::sync_ops::{has_other_group, requester_group_conflict};
use crate::text::{decimal, decimal_text, joined, signed_decimal, signed_decimal_text};
use crate::view_catalog::{federation_share, release_federation_state};
use crate::view_keys::{
    artist_key_text, format_artist_key, format_release_key, format_track_key, release_key_text,
    track_key_text,
};
use crate::view_labels::{
    artist_links, artists_label, artwork_path, federation_node_ids, line_break, node_ids,
    number_label, number_text, picture_path, release_type_label, track_artist_label,
    track_artist_line_break, track_artist_links, track_number_label, type_label, ArtistLinkView,
    ArtistLinkViewModel,
};
use crate::views::{opt_view, views};
use vstd::prelude::*;

verus! {

broadcast use crate::views::group_views;

/// A track in a list.
#[derive(Debug, PartialEq)]
pub struct TrackView {
    pub key: String,
    pub number: String,
    pub title: String,
    pub artists: Vec<ArtistLinkView>,
    pub artists_label: String,
    pub artist_line_break: i32,
    pub release: String,
    pub release_key: String,
    pub duration: String,
    pub active: bool,
    pub artwork: Option<String>,
    pub federated: bool,
    pub liked: bool,
}

pub struct TrackViewModel {
    pub key: Seq<char>,
    pub number: Seq<char>,
    pub title: Seq<char>,
    pub artists: Seq<ArtistLinkViewModel>,
    pub artists_label: Seq<char>,
    pub artist_line_break: i32,
    pub release: Seq<char>,
    pub release_key: Seq<char>,
    pub duration: Seq<char>,
    pub active: bool,
    pub artwork: Option<Seq<char>>,
    pub federated: bool,
    pub liked: bool,
}

impl View for TrackView {
    type V = TrackViewModel;

    open spec fn view(&self) -> TrackViewModel {
        TrackViewModel {
            key: self.key@,
            number: self.number@,
            title: self.title@,
            artists: views(self.artists@),
            artists_label: self.artists_label@,
            artist_line_break: self.artist_line_break,
            release: self.release@,
            release_key: self.release_key@,
            duration: self.duration@,
            active: self.active,
            artwork: opt_view(self.artwork),
            federated: self.federated,
            liked: self.liked,
        }
    }
}

/// A release on a shelf.
#[derive(Debug, PartialEq)]
pub struct ReleaseView {
    pub key: String,
    pub title: String,
    pub artist: String,
    pub artist_key: String,
    pub year: String,
    pub release_type: String,
    pub artwork: Option<String>,
    pub federation_state: i32,
}

pub struct ReleaseViewModel {
    pub key: Seq<char>,
    pub title: Seq<char>,
    pub artist: Seq<char>,
    pub artist_key: Seq<char>,
    pub year: Seq<char>,
    pub release_type: Seq<char>,
    pub artwork: Option<Seq<char>>,
    pub federation_state: i32,
}

impl View for ReleaseView {
    type V = ReleaseViewModel;

    open spec fn view(&self) -> ReleaseViewModel {
        ReleaseViewModel {
            key: self.key@,
            title: self.title@,
            artist: self.artist@,
            artist_key: self.artist_key@,
            year: self.year@,
            release_type: self.release_type@,
            artwork: opt_view(self.artwork),
            federation_state: self.federation_state,
        }
    }
}

/// An artist on a shelf.
#[derive(Debug, PartialEq)]
pub struct ArtistView {
    pub key: String,
    pub name: String,
    pub details: String,
    pub artwork: Option<String>,
    pub federated: bool,
}

pub struct ArtistViewModel {
    pub key: Seq<char>,
    pub name: Seq<char>,
    pub details: Seq<char>,
    pub artwork: Option<Seq<char>>,
    pub federated: bool,
}

impl View for ArtistView {
    type V = ArtistViewModel;

    open spec fn view(&self) -> ArtistViewModel {
        ArtistViewModel {
            key: self.key@,
            name: self.name@,
            details: self.details@,
            artwork: opt_view(self.artwork),
            federated: self.federated,
        }
    }
}

/// A track in the queue.
#[derive(Debug, PartialEq)]
pub struct QueueView {
    pub key: String,
    pub title: String,
    pub artist: String,
    pub artist_key: String,
    pub release: String,
    pub release_key: String,
    pub active: bool,
    pub artwork: Option<String>,
}

pub struct QueueViewModel {
    pub key: Seq<char>,
    pub title: Seq<char>,
    pub artist: Seq<char>,
    pub artist_key: Seq<char>,
    pub release: Seq<char>,
    pub release_key: Seq<char>,
    pub active: bool,
    pub artwork: Option<Seq<char>>,
}

impl View for QueueView {
    type V = QueueViewModel;

    open spec fn view(&self) -> QueueViewModel {
        QueueViewModel {
            key: self.key@,
            title: self.title@,
            artist: self.artist@,
            artist_key: self.artist_key@,
            release: self.release@,
            release_key: self.release_key@,
            active: self.active,
            artwork: opt_view(self.artwork),
        }
    }
}

/// A playlist in the side bar.
#[derive(Debug, PartialEq)]
pub struct PlaylistView {
    pub id: String,
    pub title: String,
    pub details: String,
    pub is_likes: bool,
}

pub struct PlaylistViewModel {
    pub id: Seq<char>,
    pub title: Seq<char>,
    pub details: Seq<char>,
    pub is_likes: bool,
}

impl View for PlaylistView {
    type V = PlaylistViewModel;

    open spec fn view(&self) -> PlaylistViewModel {
        PlaylistViewModel {
            id: self.id@,
            title: self.title@,
            details: self.details@,
            is_likes: self.is_likes,
        }
    }
}

/// A device in the list of devices.
#[derive(Debug, PartialEq)]
pub struct DeviceView {
    pub id: String,
    pub name: String,
    pub details: String,
    pub is_self: bool,
    pub online: bool,
    pub active: bool,
    pub revoked: bool,
}

pub struct DeviceViewModel {
    pub id: Seq<char>,
    pub name: Seq<char>,
    pub details: Seq<char>,
    pub is_self: bool,
    pub online: bool,
    pub active: bool,
    pub revoked: bool,
}

impl View for DeviceView {
    type V = DeviceViewModel;

    open spec fn view(&self) -> DeviceViewModel {
        DeviceViewModel {
            id: self.id@,
            name: self.name@,
            details: self.details@,
            is_self: self.is_self,
            online: self.online,
            active: self.active,
            revoked: self.revoked,
        }
    }
}

/// A device that asks to join.
#[derive(Debug, PartialEq)]
pub struct PairingView {
    pub request_id: String,
    pub name: String,
    pub details: String,
    pub group_conflict: bool,
}

pub struct PairingViewModel {
    pub request_id: Seq<char>,
    pub name: Seq<char>,
    pub details: Seq<char>,
    pub group_conflict: bool,
}

impl View for PairingView {
    type V = PairingViewModel;

    open spec fn view(&self) -> PairingViewModel {
        PairingViewModel {
            request_id: self.request_id@,
            name: self.name@,
            details: self.details@,
            group_conflict: self.group_conflict,
        }
    }
}

/// What the network page shows.
#[derive(Debug, PartialEq)]
pub struct DebugView {
    pub node: String,
    pub peers: String,
    pub dht: String,
    pub published: String,
    pub endpoint: String,
}

pub struct DebugViewModel {
    pub node: Seq<char>,
    pub peers: Seq<char>,
    pub dht: Seq<char>,
    pub published: Seq<char>,
    pub endpoint: Seq<char>,
}

impl View for DebugView {
    type V = DebugViewModel;

    open spec fn view(&self) -> DebugViewModel {
        DebugViewModel {
            node: self.node@,
            peers: self.peers@,
            dht: self.dht@,
            published: self.published@,
            endpoint: self.endpoint@,
        }
    }
}

pub open spec fn shown_track(
    track: TrackModel,
    index: usize,
    own_number: bool,
    current: Option<TrackKeyModel>,
) -> TrackViewModel {
    TrackViewModel {
        key: track_key_text(track.key),
        number: number_label(track, index, own_number),
        title: track.title,
        artists: artist_links(track),
        artists_label: artists_label(track),
        artist_line_break: line_break(track) as i32,
        release: track.release,
        release_key: release_key_text(track.release_id),
        duration: clock_text(track.duration_nanos),
        active: current matches Some(key) && key.matches(track.key),
        artwork: picture_path(track.cover_uri),
        federated: track.audio_source is Federation,
        liked: track.liked,
    }
}

/// A list of tracks; `own_number` where they are numbered as on their release.
pub open spec fn shown_tracks(
    tracks: Seq<TrackModel>,
    own_number: bool,
    current: Option<TrackKeyModel>,
) -> Seq<TrackViewModel> {
    Seq::new(tracks.len(), |i: int| shown_track(tracks[i], i as usize, own_number, current))
}

pub fn tracks_to_views(tracks: &Vec<Track>, current: Option<&TrackKey>) -> (r: Vec<TrackView>)
    ensures
        views(r@) == shown_tracks(views(tracks@), false, ref_view(current)),
{
    tracks_to_views_with_numbers(tracks, current, false)
}

pub fn release_tracks_to_views(tracks: &Vec<Track>, current: Option<&TrackKey>) -> (r: Vec<
    TrackView,
>)
    ensures
        views(r@) == shown_tracks(views(tracks@), true, ref_view(current)),
{
    tracks_to_views_with_numbers(tracks, current, true)
}

fn tracks_to_views_with_numbers(
    tracks: &Vec<Track>,
    current: Option<&TrackKey>,
    use_metadata_number: bool,
) -> (r: Vec<TrackView>)
    ensures
        views(r@) == shown_tracks(views(tracks@), use_metadata_number, ref_view(current)),
{
    let ghost goal = shown_tracks(views(tracks@), use_metadata_number, ref_view(current));
    let mut r: Vec<TrackView> = Vec::new();
    let mut i: usize = 0;
    while i < tracks.len()
        invariant
            i <= tracks.len(),
            goal == shown_tracks(views(tracks@), use_metadata_number, ref_view(current)),
            views(r@) == goal.take(i as int),
        decreases tracks.len() - i,
    {
        let track = &tracks[i];
        let active = match current {
            Some(key) => key.matches(&track.key),
            None => false,
        };
        let row = TrackView {
            key: format_track_key(&track.key),
            number: track_number_label(track, i, use_metadata_number),
            title: track.title.clone(),
            artists: track_artist_links(track),
            artists_label: track_artist_label(track),
            artist_line_break: track_artist_line_break(track),
            release: track.release.clone(),
            release_key: format_release_key(&track.release_id),
            duration: duration_label(track.duration_nanos),
            active,
            artwork: artwork_path(&track.cover_uri),
            federated: matches!(track.audio_source, AudioSource::Federation { .. }),
            liked: track.liked,
        };
        assert(row@ == shown_track(
            views(tracks@)[i as int],
            i,
            use_metadata_number,
            ref_view(current),
        ));
        r.push(row);
        i += 1;
        assert(views(r@) =~= goal.take(i as int));
    }
    assert(views(r@) =~= goal);
    r
}

pub open spec fn shown_release(release: ReleaseModel) -> ReleaseViewModel {
    ReleaseViewModel {
        key: release_key_text(release.key),
        title: release.title,
        artist: joined(artist_names(release.artists), ", "@),
        artist_key: if release.artists.len() > 0 {
            artist_key_text(release.artists[0].key)
        } else {
            Seq::empty()
        },
        year: match release.year {
            Some(year) => signed_decimal(year as int),
            None => Seq::empty(),
        },
        release_type: type_label(release.release_type),
        artwork: picture_path(release.artwork),
        federation_state: federation_share(release),
    }
}

pub fn release_to_view(release: &Release) -> (r: ReleaseView)
    ensures
        r@ == shown_release(release@),
{
    ReleaseView {
        key: format_release_key(&release.key),
        title: release.title.clone(),
        artist: release.artist_line(),
        artist_key: if release.artists.len() > 0 {
            format_artist_key(&release.artists[0].key)
        } else {
            String::new()
        },
        year: match release.year {
            Some(year) => signed_decimal_text(year as i64),
            None => String::new(),
        },
        release_type: release_type_label(release.release_type.as_str()),
        artwork: artwork_path(&release.artwork.uri),
        federation_state: release_federation_state(release),
    }
}

pub open spec fn shown_releases(releases: Seq<ReleaseModel>) -> Seq<ReleaseViewModel> {
    Seq::new(releases.len(), |i: int| shown_release(releases[i]))
}

pub fn releases_to_views(releases: &Vec<Release>) -> (r: Vec<ReleaseView>)
    ensures
        views(r@) == shown_releases(views(releases@)),
{
    let ghost goal = shown_releases(views(releases@));
    let mut r: Vec<ReleaseView> = Vec::new();
    let mut i: usize = 0;
    while i < releases.len()
        invariant
            i <= releases.len(),
            goal == shown_releases(views(releases@)),
            views(r@) == goal.take(i as int),
        decreases releases.len() - i,
    {
        r.push(release_to_view(&releases[i]));
        i += 1;
        assert(views(r@) =~= goal.take(i as int));
    }
    assert(views(r@) =~= goal);
    r
}

/// How much there is of an artist.
pub open spec fn extent(artist: ArtistModel) -> Seq<char> {
    decimal(artist.release_count as nat) + " releases · "@ + decimal(artist.track_count as nat)
        + " tracks"@
}

pub fn artist_extent(artist: &Artist) -> (r: String)
    ensures
        r@ == extent(artist@),
{
    let mut r = number_text(artist.release_count);
    r.push_str(" releases · ");
    r.push_str(number_text(artist.track_count).as_str());
    r.push_str(" tracks");
    r
}

pub open spec fn shown_artist(artist: ArtistModel) -> ArtistViewModel {
    ArtistViewModel {
        key: artist_key_text(artist.key),
        name: artist.name,
        details: extent(artist),
        artwork: picture_path(artist.artwork),
        federated: artist.source is Federation,
    }
}

pub fn artist_to_view(artist: &Artist) -> (r: ArtistView)
    ensures
        r@ == shown_artist(artist@),
{
    ArtistView {
        key: format_artist_key(&artist.key),
        name: artist.name.clone(),
        details: artist_extent(artist),
        artwork: artwork_path(&artist.artwork.uri),
        federated: matches!(artist.source, CatalogSource::Federation { .. }),
    }
}

pub open spec fn shown_artists(artists: Seq<ArtistModel>) -> Seq<ArtistViewModel> {
    Seq::new(artists.len(), |i: int| shown_artist(artists[i]))
}

pub fn artists_to_views(artists: &Vec<Artist>) -> (r: Vec<ArtistView>)
    ensures
        views(r@) == shown_artists(views(artists@)),
{
    let ghost goal = shown_artists(views(artists@));
    let mut r: Vec<ArtistView> = Vec::new();
    let mut i: usize = 0;
    while i < artists.len()
        invariant
            i <= artists.len(),
            goal == shown_artists(views(artists@)),
            views(r@) == goal.take(i as int),
        decreases artists.len() - i,
    {
        r.push(artist_to_view(&artists[i]));
        i += 1;
        assert(views(r@) =~= goal.take(i as int));
    }
    assert(views(r@) =~= goal);
    r
}

pub open spec fn shown_queue_item(item: QueueItemModel, active: bool) -> QueueViewModel {
    QueueViewModel {
        key: decimal(item.id.0 as nat),
        title: item.track.title,
        artist: item.track.artist,
        artist_key: if item.track.artists.len() > 0 {
            artist_key_text(item.track.artists[0].key)
        } else {
            Seq::empty()
        },
        release: item.track.release,
        release_key: release_key_text(item.track.release_id),
        active,
        artwork: picture_path(item.track.cover_uri),
    }
}

pub open spec fn shown_queue(items: Seq<QueueItemModel>, current: Option<usize>) -> Seq<
    QueueViewModel,
> {
    Seq::new(
        items.len(),
        |i: int| shown_queue_item(items[i], current matches Some(c) && c == i),
    )
}

pub fn render_queue(items: &[QueueItem], current: Option<usize>) -> (r: Vec<QueueView>)
    ensures
        views(r@) == shown_queue(views(items@), current),
{
    let ghost goal = shown_queue(views(items@), current);
    let mut r: Vec<QueueView> = Vec::new();
    let mut i: usize = 0;
    while i < items.len()
        invariant
            i <= items.len(),
            goal == shown_queue(views(items@), current),
            views(r@) == goal.take(i as int),
        decreases items.len() - i,
    {
        let item = &items[i];
        let active = match current {
            Some(c) => c == i,
            None => false,
        };
        r.push(
            QueueView {
                key: decimal_text(item.id.get()),
                title: item.track.title.clone(),
                artist: item.track.artist.clone(),
                artist_key: if item.track.artists.len() > 0 {
                    format_artist_key(&item.track.artists[0].key)
                } else {
                    String::new()
                },
                release: item.track.release.clone(),
                release_key: format_release_key(&item.track.release_id),
                active,
                artwork: artwork_path(&item.track.cover_uri),
            },
        );
        i += 1;
        assert(views(r@) =~= goal.take(i as int));
    }
    assert(views(r@) =~= goal);
    r
}

pub open spec fn shown_playlist(playlist: PlaylistModel) -> PlaylistViewModel {
    PlaylistViewModel {
        id: signed_decimal(playlist.id as int),
        title: playlist.title,
        details: decimal(playlist.tracks.len()) + if playlist.tracks.len() == 1 {
            " track"@
        } else {
            " tracks"@
        },
        is_likes: playlist.is_likes,
    }
}

pub open spec fn shown_playlists(playlists: Seq<PlaylistModel>) -> Seq<PlaylistViewModel> {
    Seq::new(playlists.len(), |i: int| shown_playlist(playlists[i]))
}

pub fn render_playlist_shell(playlists: &Vec<PlaylistSnapshot>) -> (r: Vec<PlaylistView>)
    ensures
        views(r@) == shown_playlists(views(playlists@)),
{
    let ghost goal = shown_playlists(views(playlists@));
    let mut r: Vec<PlaylistView> = Vec::new();
    let mut i: usize = 0;
    while i < playlists.len()
        invariant
            i <= playlists.len(),
            goal == shown_playlists(views(playlists@)),
            views(r@) == goal.take(i as int),
        decreases playlists.len() - i,
    {
        let playlist = &playlists[i];
        let mut details = number_text(playlist.tracks.len());
        details.push_str(
            if playlist.tracks.len() == 1 {
                " track"
            } else {
                " tracks"
            },
        );
        let row = PlaylistView {
            id: signed_decimal_text(playlist.id),
            title: playlist.title.clone(),
            details,
            is_likes: playlist.is_likes,
        };
        assert(row@ == shown_playlist(views(playlists@)[i as int]));
        r.push(row);
        i += 1;
        assert(views(r@) =~= goal.take(i as int));
    }
    assert(views(r@) =~= goal);
    r
}

pub open spec fn shown_device(device: ConnectedDeviceModel) -> DeviceViewModel {
    DeviceViewModel {
        id: device.id,
        name: device.name,
        details: (if device.presence == DevicePresence::Online {
            "online"@
        } else {
            "offline"@
        }) + " · "@ + if device.client_version.len() == 0 {
            "Furumi"@
        } else {
            "v"@ + device.client_version
        },
        is_self: device.is_self,
        online: device.presence == DevicePresence::Online,
        active: device.is_active,
        revoked: false,
    }
}

/// The devices that are not revoked.
pub open spec fn shown_devices(devices: Seq<ConnectedDeviceModel>) -> Seq<DeviceViewModel>
    decreases devices.len(),
{
    if devices.len() == 0 {
        Seq::empty()
    } else if devices.last().trust == DeviceTrust::Revoked {
        shown_devices(devices.drop_last())
    } else {
        shown_devices(devices.drop_last()).push(shown_device(devices.last()))
    }
}

pub fn devices_to_views(devices: &Vec<ConnectedDeviceSnapshot>) -> (r: Vec<DeviceView>)
    ensures
        views(r@) == shown_devices(views(devices@)),
{
    let ghost all = views(devices@);
    let mut r: Vec<DeviceView> = Vec::new();
    let mut i: usize = 0;
    while i < devices.len()
        invariant
            i <= devices.len() == all.len(),
            all == views(devices@),
            views(r@) == shown_devices(all.take(i as int)),
        decreases devices.len() - i,
    {
        proof {
            assert(all.take(i + 1).drop_last() =~= all.take(i as int));
        }
        let device = &devices[i];
        if device.trust != DeviceTrust::Revoked {
            let online = device.presence == DevicePresence::Online;
            let mut details = (if online {
                "online"
            } else {
                "offline"
            }).to_owned();
            details.push_str(" · ");
            if device.client_version.as_str().is_empty() {
                details.push_str("Furumi");
            } else {
                let mut version = "v".to_owned();
                version.push_str(device.client_version.as_str());
                details.push_str(version.as_str());
            }
            r.push(
                DeviceView {
                    id: device.id.clone(),
                    name: device.name.clone(),
                    details,
                    is_self: device.is_self,
                    online,
                    active: device.is_active,
                    revoked: false,
                },
            );
        }
        i += 1;
    }
    proof {
        assert(all.take(i as int) =~= all);
    }
    r
}

/// A device that asks to join, and whether the listener has to choose between
/// its group and the one of this device.
pub open spec fn shown_pairing(group_id: Seq<char>, pending: PendingPairingModel) -> PairingViewModel {
    PairingViewModel {
        request_id: pending.request_id,
        name: pending.name,
        details: "Furumi "@ + pending.client_version + " · "@ + pending.device_id,
        group_conflict: has_other_group(
            group_id,
            pending.requester_group_id,
            pending.requester_group_active_devices,
        ),
    }
}

pub open spec fn shown_pairings(group_id: Seq<char>, pending: Seq<PendingPairingModel>) -> Seq<
    PairingViewModel,
> {
    Seq::new(pending.len(), |i: int| shown_pairing(group_id, pending[i]))
}

pub fn pairings_to_views(group_id: &str, pending: &Vec<PendingPairingSnapshot>) -> (r: Vec<
    PairingView,
>)
    ensures
        views(r@) == shown_pairings(group_id@, views(pending@)),
{
    let ghost goal = shown_pairings(group_id@, views(pending@));
    let mut r: Vec<PairingView> = Vec::new();
    let mut i: usize = 0;
    while i < pending.len()
        invariant
            i <= pending.len(),
            goal == shown_pairings(group_id@, views(pending@)),
            views(r@) == goal.take(i as int),
        decreases pending.len() - i,
    {
        let request = &pending[i];
        let mut details = "Furumi ".to_owned();
        details.push_str(request.client_version.as_str());
        details.push_str(" · ");
        details.push_str(request.device_id.as_str());
        r.push(
            PairingView {
                request_id: request.request_id.clone(),
                name: request.name.clone(),
                details,
                group_conflict: requester_group_conflict(
                    group_id,
                    match &request.requester_group_id {
                        Some(group) => Some(group.as_str()),
                        None => None,
                    },
                    request.requester_group_active_devices,
                ),
            },
        );
        i += 1;
        assert(views(r@) =~= goal.take(i as int));
    }
    assert(views(r@) =~= goal);
    r
}

pub open spec fn shown_debug(debug: FederationDebugModel) -> DebugViewModel {
    DebugViewModel {
        node: if debug.running {
            "Running"@
        } else if debug.error is Some {
            "Error"@
        } else {
            "Stopped"@
        },
        peers: decimal(debug.connected_peers as nat) + " connected · "@ + decimal(
            debug.known_contacts as nat,
        ) + " known"@,
        dht: match debug.stored_dht_records {
            Some(records) => decimal(records as nat) + " records"@,
            None => "n/a"@,
        },
        published: decimal(debug.published_items as nat) + " items"@,
        endpoint: node_ids(debug.endpoint_id, debug.dht_node_id),
    }
}

/// What the network page shows.
pub fn render_federation_debug(debug: &FederationDebugSnapshot) -> (r: DebugView)
    ensures
        r@ == shown_debug(debug@),
{
    let mut peers = number_text(debug.connected_peers);
    peers.push_str(" connected · ");
    peers.push_str(number_text(debug.known_contacts).as_str());
    peers.push_str(" known");
    let dht = match debug.stored_dht_records {
        Some(records) => {
            let mut dht = number_text(records);
            dht.push_str(" records");
            dht
        },
        None => "n/a".to_owned(),
    };
    let mut published = number_text(debug.published_items);
    published.push_str(" items");
    DebugView {
        node: (if debug.running {
            "Running"
        } else if debug.error.is_some() {
            "Error"
        } else {
            "Stopped"
        }).to_owned(),
        peers,
        dht,
        published,
        endpoint: federation_node_ids(debug.endpoint_id.as_str(), debug.dht_node_id.as_str()),
    }
}

} // verus!

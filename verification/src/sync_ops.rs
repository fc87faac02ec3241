//! The changes that the listener's devices tell each other.
use crate::actor::ListenEndReason;
use crate::catalog::{artist_names, names_of, Track, TrackModel};
use crate::text::{chars_of, same_str, text_of, trim, trimmed, two_digit_text, two_digits};
use crate::views::{opt_view, views};
use crate::wire::{
    content_key, normalize_content_id, PlaybackCommand, PlaybackCommandModel, SyncedFedTrack,
    SyncedFedTrackModel,
};
use vstd::prelude::*;

verus! {

broadcast use crate::views::group_views;

/// The version of the rules that devices talk by.
pub const DEVICE_SYNC_PROTOCOL_VERSION: u16 = 2;

/// What a device says of itself or of another one.
#[derive(Debug, PartialEq)]
pub struct DeviceProfile {
    pub device_id: String,
    pub name: String,
    pub client_version: String,
    pub protocol_version: u16,
    pub endpoint_id: String,
    pub endpoint_ticket: String,
    pub revoked: bool,
    pub revoke_cutoff_seq: Option<i64>,
    pub updated_at_ms: i64,
}

pub struct DeviceProfileModel {
    pub device_id: Seq<char>,
    pub name: Seq<char>,
    pub client_version: Seq<char>,
    pub protocol_version: u16,
    pub endpoint_id: Seq<char>,
    pub endpoint_ticket: Seq<char>,
    pub revoked: bool,
    pub revoke_cutoff_seq: Option<i64>,
    pub updated_at_ms: i64,
}

impl View for DeviceProfile {
    type V = DeviceProfileModel;

    open spec fn view(&self) -> DeviceProfileModel {
        DeviceProfileModel {
            device_id: self.device_id@,
            name: self.name@,
            client_version: self.client_version@,
            protocol_version: self.protocol_version,
            endpoint_id: self.endpoint_id@,
            endpoint_ticket: self.endpoint_ticket@,
            revoked: self.revoked,
            revoke_cutoff_seq: self.revoke_cutoff_seq,
            updated_at_ms: self.updated_at_ms,
        }
    }
}

impl Clone for DeviceProfile {
    fn clone(&self) -> (r: Self)
        ensures
            r@ == self@,
    {
        DeviceProfile {
            device_id: self.device_id.clone(),
            name: self.name.clone(),
            client_version: self.client_version.clone(),
            protocol_version: self.protocol_version,
            endpoint_id: self.endpoint_id.clone(),
            endpoint_ticket: self.endpoint_ticket.clone(),
            revoked: self.revoked,
            revoke_cutoff_seq: self.revoke_cutoff_seq,
            updated_at_ms: self.updated_at_ms,
        }
    }
}

/// What a remembered listen says of its track.
#[derive(Debug, PartialEq)]
pub struct ListenTrackMetadata {
    pub title: String,
    pub artist_names: Vec<String>,
    pub featured_artist_names: Vec<String>,
    pub release_title: Option<String>,
}

pub struct ListenTrackMetadataModel {
    pub title: Seq<char>,
    pub artist_names: Seq<Seq<char>>,
    pub featured_artist_names: Seq<Seq<char>>,
    pub release_title: Option<Seq<char>>,
}

impl View for ListenTrackMetadata {
    type V = ListenTrackMetadataModel;

    open spec fn view(&self) -> ListenTrackMetadataModel {
        ListenTrackMetadataModel {
            title: self.title@,
            artist_names: views(self.artist_names@),
            featured_artist_names: views(self.featured_artist_names@),
            release_title: opt_view(self.release_title),
        }
    }
}

impl Clone for ListenTrackMetadata {
    fn clone(&self) -> (r: Self)
        ensures
            r@ == self@,
    {
        let r = ListenTrackMetadata {
            title: self.title.clone(),
            artist_names: self.artist_names.clone(),
            featured_artist_names: self.featured_artist_names.clone(),
            release_title: self.release_title.clone(),
        };
        proof {
            assert(r@.artist_names =~= self@.artist_names);
            assert(r@.featured_artist_names =~= self@.featured_artist_names);
        }
        r
    }
}

/// A listen to remember.
#[derive(Debug, PartialEq)]
pub struct ListenEvent {
    pub listen_id: String,
    pub content_id: String,
    pub started_at_ms: i64,
    pub listened_ms: i64,
    pub track_duration_ms: Option<i64>,
    pub ended_reason: ListenEndReason,
    pub track: ListenTrackMetadata,
}

pub struct ListenEventModel {
    pub listen_id: Seq<char>,
    pub content_id: Seq<char>,
    pub started_at_ms: i64,
    pub listened_ms: i64,
    pub track_duration_ms: Option<i64>,
    pub ended_reason: ListenEndReason,
    pub track: ListenTrackMetadataModel,
}

impl View for ListenEvent {
    type V = ListenEventModel;

    open spec fn view(&self) -> ListenEventModel {
        ListenEventModel {
            listen_id: self.listen_id@,
            content_id: self.content_id@,
            started_at_ms: self.started_at_ms,
            listened_ms: self.listened_ms,
            track_duration_ms: self.track_duration_ms,
            ended_reason: self.ended_reason,
            track: self.track@,
        }
    }
}

impl Clone for ListenEvent {
    fn clone(&self) -> (r: Self)
        ensures
            r@ == self@,
    {
        ListenEvent {
            listen_id: self.listen_id.clone(),
            content_id: self.content_id.clone(),
            started_at_ms: self.started_at_ms,
            listened_ms: self.listened_ms,
            track_duration_ms: self.track_duration_ms,
            ended_reason: self.ended_reason,
            track: self.track.clone(),
        }
    }
}

/// A change.
#[derive(Debug, PartialEq)]
#[allow(inconsistent_fields)]
pub enum SyncOpPayload {
    TrackLikeSet { content_id: String, liked: bool, fed: Option<SyncedFedTrack> },
    PlaylistCreated { playlist_id: String, title: String },
    PlaylistRenamed { playlist_id: String, title: String },
    PlaylistDeleted { playlist_id: String },
    PlaylistTrackAdded { playlist_id: String, content_id: String, position: i64, fed: Option<SyncedFedTrack> },
    PlaylistTrackRemoved { playlist_id: String, content_id: String },
    DeviceProfileSet { name: String, client_version: String, endpoint_ticket: String, endpoint_id: String },
    DeviceTrusted { target_device_id: String },
    DeviceRevoked { target_device_id: String, target_max_seq_seen: i64 },
    PlaybackCommand { target_device_id: String, command: PlaybackCommand },
    ListenRecorded { event: ListenEvent },
}

#[allow(inconsistent_fields)]
pub enum SyncOpPayloadModel {
    TrackLikeSet { content_id: Seq<char>, liked: bool, fed: Option<SyncedFedTrackModel> },
    PlaylistCreated { playlist_id: Seq<char>, title: Seq<char> },
    PlaylistRenamed { playlist_id: Seq<char>, title: Seq<char> },
    PlaylistDeleted { playlist_id: Seq<char> },
    PlaylistTrackAdded { playlist_id: Seq<char>, content_id: Seq<char>, position: i64, fed: Option<SyncedFedTrackModel> },
    PlaylistTrackRemoved { playlist_id: Seq<char>, content_id: Seq<char> },
    DeviceProfileSet { name: Seq<char>, client_version: Seq<char>, endpoint_ticket: Seq<char>, endpoint_id: Seq<char> },
    DeviceTrusted { target_device_id: Seq<char> },
    DeviceRevoked { target_device_id: Seq<char>, target_max_seq_seen: i64 },
    PlaybackCommand { target_device_id: Seq<char>, command: PlaybackCommandModel },
    ListenRecorded { event: ListenEventModel },
}

impl View for SyncOpPayload {
    type V = SyncOpPayloadModel;

    open spec fn view(&self) -> SyncOpPayloadModel {
        match *self {
            SyncOpPayload::TrackLikeSet { content_id, liked, fed } => SyncOpPayloadModel::TrackLikeSet {
                content_id: content_id@,
                liked,
                fed: opt_view(fed),
            },
            SyncOpPayload::PlaylistCreated { playlist_id, title } => SyncOpPayloadModel::PlaylistCreated {
                playlist_id: playlist_id@,
                title: title@,
            },
            SyncOpPayload::PlaylistRenamed { playlist_id, title } => SyncOpPayloadModel::PlaylistRenamed {
                playlist_id: playlist_id@,
                title: title@,
            },
            SyncOpPayload::PlaylistDeleted { playlist_id } => SyncOpPayloadModel::PlaylistDeleted {
                playlist_id: playlist_id@,
            },
            SyncOpPayload::PlaylistTrackAdded { playlist_id, content_id, position, fed } => SyncOpPayloadModel::PlaylistTrackAdded {
                playlist_id: playlist_id@,
                content_id: content_id@,
                position,
                fed: opt_view(fed),
            },
            SyncOpPayload::PlaylistTrackRemoved { playlist_id, content_id } => SyncOpPayloadModel::PlaylistTrackRemoved {
                playlist_id: playlist_id@,
                content_id: content_id@,
            },
            SyncOpPayload::DeviceProfileSet { name, client_version, endpoint_ticket, endpoint_id } => SyncOpPayloadModel::DeviceProfileSet {
                name: name@,
                client_version: client_version@,
                endpoint_ticket: endpoint_ticket@,
                endpoint_id: endpoint_id@,
            },
            SyncOpPayload::DeviceTrusted { target_device_id } => SyncOpPayloadModel::DeviceTrusted {
                target_device_id: target_device_id@,
            },
            SyncOpPayload::DeviceRevoked { target_device_id, target_max_seq_seen } => SyncOpPayloadModel::DeviceRevoked {
                target_device_id: target_device_id@,
                target_max_seq_seen,
            },
            SyncOpPayload::PlaybackCommand { target_device_id, command } => SyncOpPayloadModel::PlaybackCommand {
                target_device_id: target_device_id@,
                command: command@,
            },
            SyncOpPayload::ListenRecorded { event } => SyncOpPayloadModel::ListenRecorded {
                event: event@,
            },
        }
    }
}

impl Clone for SyncOpPayload {
    fn clone(&self) -> (r: Self)
        ensures
            r@ == self@,
    {
        match self {
            SyncOpPayload::TrackLikeSet { content_id, liked, fed } => SyncOpPayload::TrackLikeSet {
                content_id: content_id.clone(),
                liked: *liked,
                fed: fed.clone(),
            },
            SyncOpPayload::PlaylistCreated { playlist_id, title } => SyncOpPayload::PlaylistCreated {
                playlist_id: playlist_id.clone(),
                title: title.clone(),
            },
            SyncOpPayload::PlaylistRenamed { playlist_id, title } => SyncOpPayload::PlaylistRenamed {
                playlist_id: playlist_id.clone(),
                title: title.clone(),
            },
            SyncOpPayload::PlaylistDeleted { playlist_id } => SyncOpPayload::PlaylistDeleted {
                playlist_id: playlist_id.clone(),
            },
            SyncOpPayload::PlaylistTrackAdded { playlist_id, content_id, position, fed } => SyncOpPayload::PlaylistTrackAdded {
                playlist_id: playlist_id.clone(),
                content_id: content_id.clone(),
                position: *position,
                fed: fed.clone(),
            },
            SyncOpPayload::PlaylistTrackRemoved { playlist_id, content_id } => SyncOpPayload::PlaylistTrackRemoved {
                playlist_id: playlist_id.clone(),
                content_id: content_id.clone(),
            },
            SyncOpPayload::DeviceProfileSet { name, client_version, endpoint_ticket, endpoint_id } => SyncOpPayload::DeviceProfileSet {
                name: name.clone(),
                client_version: client_version.clone(),
                endpoint_ticket: endpoint_ticket.clone(),
                endpoint_id: endpoint_id.clone(),
            },
            SyncOpPayload::DeviceTrusted { target_device_id } => SyncOpPayload::DeviceTrusted {
                target_device_id: target_device_id.clone(),
            },
            SyncOpPayload::DeviceRevoked { target_device_id, target_max_seq_seen } => SyncOpPayload::DeviceRevoked {
                target_device_id: target_device_id.clone(),
                target_max_seq_seen: *target_max_seq_seen,
            },
            SyncOpPayload::PlaybackCommand { target_device_id, command } => SyncOpPayload::PlaybackCommand {
                target_device_id: target_device_id.clone(),
                command: command.clone(),
            },
            SyncOpPayload::ListenRecorded { event } => SyncOpPayload::ListenRecorded {
                event: event.clone(),
            },
        }
    }
}

/// A change with its place in the history: who made it, as the how manieth, and
/// when by the clock that all devices agree on.
#[derive(Debug, PartialEq)]
pub struct SyncOp {
    pub op_id: String,
    pub origin_device_id: String,
    pub seq: i64,
    pub hlc_ms: i64,
    pub payload: SyncOpPayload,
}

pub struct SyncOpModel {
    pub op_id: Seq<char>,
    pub origin_device_id: Seq<char>,
    pub seq: i64,
    pub hlc_ms: i64,
    pub payload: SyncOpPayloadModel,
}

impl View for SyncOp {
    type V = SyncOpModel;

    open spec fn view(&self) -> SyncOpModel {
        SyncOpModel {
            op_id: self.op_id@,
            origin_device_id: self.origin_device_id@,
            seq: self.seq,
            hlc_ms: self.hlc_ms,
            payload: self.payload@,
        }
    }
}

impl Clone for SyncOp {
    fn clone(&self) -> (r: Self)
        ensures
            r@ == self@,
    {
        SyncOp {
            op_id: self.op_id.clone(),
            origin_device_id: self.origin_device_id.clone(),
            seq: self.seq,
            hlc_ms: self.hlc_ms,
            payload: self.payload.clone(),
        }
    }
}

#[derive(Debug, PartialEq)]
pub struct SnapshotLike {
    pub content_id: String,
    pub hlc_ms: i64,
    pub op_id: String,
    pub fed: Option<SyncedFedTrack>,
}

pub struct SnapshotLikeModel {
    pub content_id: Seq<char>,
    pub hlc_ms: i64,
    pub op_id: Seq<char>,
    pub fed: Option<SyncedFedTrackModel>,
}

impl View for SnapshotLike {
    type V = SnapshotLikeModel;

    open spec fn view(&self) -> SnapshotLikeModel {
        SnapshotLikeModel {
            content_id: self.content_id@,
            hlc_ms: self.hlc_ms,
            op_id: self.op_id@,
            fed: opt_view(self.fed),
        }
    }
}

#[derive(Debug, PartialEq)]
pub struct SnapshotLikeTombstone {
    pub content_id: String,
    pub hlc_ms: i64,
    pub op_id: String,
}

pub struct SnapshotLikeTombstoneModel {
    pub content_id: Seq<char>,
    pub hlc_ms: i64,
    pub op_id: Seq<char>,
}

impl View for SnapshotLikeTombstone {
    type V = SnapshotLikeTombstoneModel;

    open spec fn view(&self) -> SnapshotLikeTombstoneModel {
        SnapshotLikeTombstoneModel {
            content_id: self.content_id@,
            hlc_ms: self.hlc_ms,
            op_id: self.op_id@,
        }
    }
}

#[derive(Debug, PartialEq)]
pub struct SnapshotPlaylistItem {
    pub content_id: String,
    pub position: i64,
    pub hlc_ms: i64,
    pub op_id: String,
    pub fed: Option<SyncedFedTrack>,
}

pub struct SnapshotPlaylistItemModel {
    pub content_id: Seq<char>,
    pub position: i64,
    pub hlc_ms: i64,
    pub op_id: Seq<char>,
    pub fed: Option<SyncedFedTrackModel>,
}

impl View for SnapshotPlaylistItem {
    type V = SnapshotPlaylistItemModel;

    open spec fn view(&self) -> SnapshotPlaylistItemModel {
        SnapshotPlaylistItemModel {
            content_id: self.content_id@,
            position: self.position,
            hlc_ms: self.hlc_ms,
            op_id: self.op_id@,
            fed: opt_view(self.fed),
        }
    }
}

#[derive(Debug, PartialEq)]
pub struct SnapshotPlaylist {
    pub playlist_id: String,
    pub title: String,
    pub hlc_ms: i64,
    pub op_id: String,
    pub items: Vec<SnapshotPlaylistItem>,
}

pub struct SnapshotPlaylistModel {
    pub playlist_id: Seq<char>,
    pub title: Seq<char>,
    pub hlc_ms: i64,
    pub op_id: Seq<char>,
    pub items: Seq<SnapshotPlaylistItemModel>,
}

impl View for SnapshotPlaylist {
    type V = SnapshotPlaylistModel;

    open spec fn view(&self) -> SnapshotPlaylistModel {
        SnapshotPlaylistModel {
            playlist_id: self.playlist_id@,
            title: self.title@,
            hlc_ms: self.hlc_ms,
            op_id: self.op_id@,
            items: views(self.items@),
        }
    }
}

#[derive(Debug, PartialEq)]
pub struct SnapshotPlaylistTombstone {
    pub playlist_id: String,
    pub hlc_ms: i64,
    pub op_id: String,
}

pub struct SnapshotPlaylistTombstoneModel {
    pub playlist_id: Seq<char>,
    pub hlc_ms: i64,
    pub op_id: Seq<char>,
}

impl View for SnapshotPlaylistTombstone {
    type V = SnapshotPlaylistTombstoneModel;

    open spec fn view(&self) -> SnapshotPlaylistTombstoneModel {
        SnapshotPlaylistTombstoneModel {
            playlist_id: self.playlist_id@,
            hlc_ms: self.hlc_ms,
            op_id: self.op_id@,
        }
    }
}

#[derive(Debug, PartialEq)]
pub struct SnapshotPlaylistItemTombstone {
    pub playlist_id: String,
    pub content_id: String,
    pub hlc_ms: i64,
    pub op_id: String,
}

pub struct SnapshotPlaylistItemTombstoneModel {
    pub playlist_id: Seq<char>,
    pub content_id: Seq<char>,
    pub hlc_ms: i64,
    pub op_id: Seq<char>,
}

impl View for SnapshotPlaylistItemTombstone {
    type V = SnapshotPlaylistItemTombstoneModel;

    open spec fn view(&self) -> SnapshotPlaylistItemTombstoneModel {
        SnapshotPlaylistItemTombstoneModel {
            playlist_id: self.playlist_id@,
            content_id: self.content_id@,
            hlc_ms: self.hlc_ms,
            op_id: self.op_id@,
        }
    }
}

/// All that a device knows of likes and playlists, with what was taken back.
#[derive(Debug, PartialEq)]
pub struct SyncSnapshot {
    pub likes: Vec<SnapshotLike>,
    pub unlikes: Vec<SnapshotLikeTombstone>,
    pub playlists: Vec<SnapshotPlaylist>,
    pub deleted_playlists: Vec<SnapshotPlaylistTombstone>,
    pub removed_playlist_items: Vec<SnapshotPlaylistItemTombstone>,
}

pub struct SyncSnapshotModel {
    pub likes: Seq<SnapshotLikeModel>,
    pub unlikes: Seq<SnapshotLikeTombstoneModel>,
    pub playlists: Seq<SnapshotPlaylistModel>,
    pub deleted_playlists: Seq<SnapshotPlaylistTombstoneModel>,
    pub removed_playlist_items: Seq<SnapshotPlaylistItemTombstoneModel>,
}

impl View for SyncSnapshot {
    type V = SyncSnapshotModel;

    open spec fn view(&self) -> SyncSnapshotModel {
        SyncSnapshotModel {
            likes: views(self.likes@),
            unlikes: views(self.unlikes@),
            playlists: views(self.playlists@),
            deleted_playlists: views(self.deleted_playlists@),
            removed_playlist_items: views(self.removed_playlist_items@),
        }
    }
}

/// The name of the kind of a change.
pub open spec fn kind(payload: SyncOpPayloadModel) -> Seq<char> {
    match payload {
        SyncOpPayloadModel::TrackLikeSet { .. } => "track_like_set"@,
        SyncOpPayloadModel::PlaylistCreated { .. } => "playlist_created"@,
        SyncOpPayloadModel::PlaylistRenamed { .. } => "playlist_renamed"@,
        SyncOpPayloadModel::PlaylistDeleted { .. } => "playlist_deleted"@,
        SyncOpPayloadModel::PlaylistTrackAdded { .. } => "playlist_track_added"@,
        SyncOpPayloadModel::PlaylistTrackRemoved { .. } => "playlist_track_removed"@,
        SyncOpPayloadModel::DeviceProfileSet { .. } => "device_profile_set"@,
        SyncOpPayloadModel::DeviceTrusted { .. } => "device_trusted"@,
        SyncOpPayloadModel::DeviceRevoked { .. } => "device_revoked"@,
        SyncOpPayloadModel::PlaybackCommand { .. } => "playback_command"@,
        SyncOpPayloadModel::ListenRecorded { .. } => "listen_recorded"@,
    }
}

pub fn payload_kind(payload: &SyncOpPayload) -> (r: &'static str)
    ensures
        r@ == kind(payload@),
{
    match payload {
        SyncOpPayload::TrackLikeSet { .. } => "track_like_set",
        SyncOpPayload::PlaylistCreated { .. } => "playlist_created",
        SyncOpPayload::PlaylistRenamed { .. } => "playlist_renamed",
        SyncOpPayload::PlaylistDeleted { .. } => "playlist_deleted",
        SyncOpPayload::PlaylistTrackAdded { .. } => "playlist_track_added",
        SyncOpPayload::PlaylistTrackRemoved { .. } => "playlist_track_removed",
        SyncOpPayload::DeviceProfileSet { .. } => "device_profile_set",
        SyncOpPayload::DeviceTrusted { .. } => "device_trusted",
        SyncOpPayload::DeviceRevoked { .. } => "device_revoked",
        SyncOpPayload::PlaybackCommand { .. } => "playback_command",
        SyncOpPayload::ListenRecorded { .. } => "listen_recorded",
    }
}

pub open spec fn is_blank(s: Seq<char>) -> bool {
    trimmed(s).len() == 0
}

pub fn blank(s: &str) -> (r: bool)
    ensures
        r == is_blank(s@),
{
    trim(s).as_str().is_empty()
}

/// The texts that are not blank, in order.
pub open spec fn filled(s: Seq<Seq<char>>) -> Seq<Seq<char>>
    decreases s.len(),
{
    if s.len() == 0 {
        Seq::empty()
    } else if is_blank(s.last()) {
        filled(s.drop_last())
    } else {
        filled(s.drop_last()).push(s.last())
    }
}

/// Whom a listen credits: the artists with a name, or else the artist line.
pub open spec fn listen_credits(track: TrackModel) -> Seq<Seq<char>> {
    let named = filled(artist_names(track.artists));
    if named.len() == 0 && !is_blank(track.artist) {
        seq![track.artist]
    } else {
        named
    }
}

/// The listen to remember of a track; none where its content is not known.
pub open spec fn listen_of(
    listen_id: Seq<char>,
    track: TrackModel,
    started_at_ms: i64,
    listened_ms: i64,
    reason: ListenEndReason,
) -> Option<ListenEventModel> {
    match track.key.content_id {
        None => None,
        Some(id) => match content_key(id) {
            None => None,
            Some(content_id) => Some(
                ListenEventModel {
                    listen_id,
                    content_id,
                    started_at_ms,
                    listened_ms: if listened_ms < 0 {
                        0
                    } else {
                        listened_ms
                    },
                    track_duration_ms: if track.duration_nanos > 0 {
                        Some((track.duration_nanos / 1_000_000) as i64)
                    } else {
                        None
                    },
                    ended_reason: reason,
                    track: ListenTrackMetadataModel {
                        title: track.title,
                        artist_names: listen_credits(track),
                        featured_artist_names: artist_names(track.featured_artists),
                        release_title: if is_blank(track.release) {
                            None
                        } else {
                            Some(track.release)
                        },
                    },
                },
            ),
        },
    }
}

fn filled_names(all: Vec<String>) -> (r: Vec<String>)
    ensures
        views(r@) == filled(views(all@)),
{
    let ghost model = views(all@);
    let mut r: Vec<String> = Vec::new();
    let mut i: usize = 0;
    while i < all.len()
        invariant
            i <= all.len() == model.len(),
            model == views(all@),
            views(r@) == filled(model.take(i as int)),
        decreases all.len() - i,
    {
        proof {
            assert(model.take(i + 1).drop_last() =~= model.take(i as int));
        }
        if !blank(all[i].as_str()) {
            r.push(all[i].clone());
        }
        i += 1;
    }
    proof {
        assert(model.take(i as int) =~= model);
    }
    r
}

/// The listen to remember of a track.
pub fn listen_event(
    listen_id: String,
    track: &Track,
    started_at_ms: i64,
    listened_ms: i64,
    reason: ListenEndReason,
) -> (r: Option<ListenEvent>)
    ensures
        opt_view(r) == listen_of(listen_id@, track@, started_at_ms, listened_ms, reason),
{
    let content_id = match track.key.content_id() {
        Some(id) => match normalize_content_id(id.as_str()) {
            Some(id) => id,
            None => {
                return None;
            },
        },
        None => {
            return None;
        },
    };
    let mut named = filled_names(names_of(&track.artists));
    if named.len() == 0 && !blank(track.artist.as_str()) {
        named.push(track.artist.clone());
    }
    proof {
        assert(views(named@) =~= listen_credits(track@));
    }
    Some(
        ListenEvent {
            listen_id,
            content_id: content_id.as_str().to_owned(),
            started_at_ms,
            listened_ms: if listened_ms < 0 {
                0
            } else {
                listened_ms
            },
            track_duration_ms: if track.duration_nanos > 0 {
                Some((track.duration_nanos / 1_000_000) as i64)
            } else {
                None
            },
            ended_reason: reason,
            track: ListenTrackMetadata {
                title: track.title.clone(),
                artist_names: named,
                featured_artist_names: names_of(&track.featured_artists),
                release_title: if blank(track.release.as_str()) {
                    None
                } else {
                    Some(track.release.clone())
                },
            },
        },
    )
}

/// The first characters of a text.
pub open spec fn beginning(s: Seq<char>, n: int) -> Seq<char> {
    if s.len() <= n {
        s
    } else {
        s.take(n)
    }
}

fn first_chars(s: &str, n: usize) -> (r: String)
    ensures
        r@ == beginning(s@, n as int),
{
    let chars = chars_of(s);
    let to: usize = if chars.len() <= n {
        chars.len()
    } else {
        n
    };
    proof {
        assert(chars@.subrange(0, to as int) =~= beginning(s@, n as int));
    }
    text_of(&chars, 0, to)
}

/// A device identifier as people are shown it.
pub fn short_id(value: &str) -> (r: String)
    ensures
        r@ == beginning(value@, 10),
{
    first_chars(value, 10)
}

/// The identifier of a device, from the digest of its secret.
pub fn device_id_from(digest: &str) -> (r: String)
    ensures
        r@ == "dev_"@ + beginning(digest@, 24),
{
    let mut r = "dev_".to_owned();
    r.push_str(first_chars(digest, 24).as_str());
    r
}

/// The identifier of a group, from the digest of the device that founds it.
pub fn group_id_from(digest: &str) -> (r: String)
    ensures
        r@ == "grp_"@ + beginning(digest@, 24),
{
    let mut r = "grp_".to_owned();
    r.push_str(first_chars(digest, 24).as_str());
    r
}

/// What a pairing request is identified by, before it is hashed: the invite and
/// the device that answers it.
pub fn pair_request_seed(invite_id: &str, device_id: &str) -> (r: String)
    ensures
        r@ == invite_id@ + ":"@ + device_id@,
{
    let mut r = invite_id.to_owned();
    r.push_str(":");
    r.push_str(device_id);
    r
}

/// The identifier of a pairing request, from the digest of its seed.
pub fn pair_request_id(digest: &str) -> (r: String)
    ensures
        r@ == "pair_"@ + beginning(digest@, 16),
{
    let mut r = "pair_".to_owned();
    r.push_str(first_chars(digest, 16).as_str());
    r
}

/// The time of day in UTC.
pub open spec fn clock_time(now_ms: i64) -> Seq<char> {
    let seconds = if now_ms < 0 {
        0nat
    } else {
        (now_ms / 1_000) as nat
    };
    two_digits(seconds / 3_600 % 24) + ":"@ + two_digits(seconds / 60 % 60) + ":"@ + two_digits(
        seconds % 60,
    ) + " UTC"@
}

pub fn time_label(now_ms: i64) -> (r: String)
    ensures
        r@ == clock_time(now_ms),
{
    let seconds: u64 = if now_ms < 0 {
        0
    } else {
        now_ms as u64 / 1_000
    };
    let mut r = two_digit_text(seconds / 3_600 % 24);
    r.push_str(":");
    r.push_str(two_digit_text(seconds / 60 % 60).as_str());
    r.push_str(":");
    r.push_str(two_digit_text(seconds % 60).as_str());
    r.push_str(" UTC");
    r
}

/// Whether a device that asks to pair has a group of its own that would be left
/// behind.
pub open spec fn has_other_group(
    local: Seq<char>,
    requester: Option<Seq<char>>,
    active_devices: usize,
) -> bool {
    requester is Some && !is_blank(requester->0) && requester->0 != local && active_devices > 1
}

pub fn requester_group_conflict(
    local_group_id: &str,
    requester_group_id: Option<&str>,
    requester_group_active_devices: usize,
) -> (r: bool)
    ensures
        r == has_other_group(
            local_group_id@,
            opt_view(requester_group_id),
            requester_group_active_devices,
        ),
{
    match requester_group_id {
        Some(group) => !blank(group) && !same_str(group, local_group_id)
            && requester_group_active_devices > 1,
        None => false,
    }
}

} // verus!

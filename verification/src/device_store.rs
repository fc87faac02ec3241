//! What a device remembers of the group it belongs to: the other devices, the
//! changes that were made, and what they come to.
use crate::find::{first_where, found, lemma_first_where};
use crate::registers::{put, wins, written, RegisterKey, Written, WrittenModel};
use crate::sync_ops::{
    blank, is_blank, DeviceProfile, DeviceProfileModel, ListenEvent, ListenEventModel, SyncOp,
    SyncOpModel, SyncOpPayload, SyncOpPayloadModel, DEVICE_SYNC_PROTOCOL_VERSION,
};
use crate::text::{same_str, signed_decimal, signed_decimal_text};
use crate::views::{opt_view, views};
use crate::wire::{
    content_key, normalize_content_id, DevicePlayback, DevicePlaybackModel, PlaybackCommand,
    PlaybackCommandModel, SyncedFedTrack, SyncedFedTrackModel,
};
use vstd::prelude::*;

verus! {

broadcast use crate::views::group_views;

/// A device counts as present for so long after it was last seen.
pub const ONLINE_TTL_MS: i64 = 15_000;

/// How many changes go into one message.
pub const MAX_OPS_PER_BATCH: usize = 1_000;

/// Commands to a player are stale after so long.
pub const PLAYBACK_COMMAND_TTL_MS: i64 = 300_000;

/// How long an invite holds.
pub const DEFAULT_INVITE_TTL_MS: i64 = 600_000;

/// How long a device waits to be let in.
pub const PAIR_WAIT_MS: i64 = 300_000;

/// Who this device is.
#[derive(Debug, PartialEq)]
pub struct Identity {
    pub device_id: String,
    pub group_id: String,
    pub name: String,
    pub client_version: String,
}

pub struct IdentityModel {
    pub device_id: Seq<char>,
    pub group_id: Seq<char>,
    pub name: Seq<char>,
    pub client_version: Seq<char>,
}

impl View for Identity {
    type V = IdentityModel;

    open spec fn view(&self) -> IdentityModel {
        IdentityModel {
            device_id: self.device_id@,
            group_id: self.group_id@,
            name: self.name@,
            client_version: self.client_version@,
        }
    }
}

/// What is known of a device.
#[derive(Debug, PartialEq)]
pub struct DeviceRecord {
    pub device_id: String,
    pub name: String,
    pub client_version: String,
    pub protocol_version: u16,
    pub endpoint_id: String,
    pub endpoint_ticket: String,
    pub trusted_at_ms: Option<i64>,
    pub last_seen_ms: Option<i64>,
    pub revoked_at_ms: Option<i64>,
    pub revoked_by: Option<String>,
    pub revoke_cutoff_seq: Option<i64>,
}

pub struct DeviceRecordModel {
    pub device_id: Seq<char>,
    pub name: Seq<char>,
    pub client_version: Seq<char>,
    pub protocol_version: u16,
    pub endpoint_id: Seq<char>,
    pub endpoint_ticket: Seq<char>,
    pub trusted_at_ms: Option<i64>,
    pub last_seen_ms: Option<i64>,
    pub revoked_at_ms: Option<i64>,
    pub revoked_by: Option<Seq<char>>,
    pub revoke_cutoff_seq: Option<i64>,
}

impl View for DeviceRecord {
    type V = DeviceRecordModel;

    open spec fn view(&self) -> DeviceRecordModel {
        DeviceRecordModel {
            device_id: self.device_id@,
            name: self.name@,
            client_version: self.client_version@,
            protocol_version: self.protocol_version,
            endpoint_id: self.endpoint_id@,
            endpoint_ticket: self.endpoint_ticket@,
            trusted_at_ms: self.trusted_at_ms,
            last_seen_ms: self.last_seen_ms,
            revoked_at_ms: self.revoked_at_ms,
            revoked_by: opt_view(self.revoked_by),
            revoke_cutoff_seq: self.revoke_cutoff_seq,
        }
    }
}

/// An invite that this device has given out.
#[derive(Debug, PartialEq)]
pub struct Invite {
    pub invite_id: String,
    pub secret_hash: String,
    pub expires_at_ms: i64,
    pub created_at_ms: i64,
    pub used_at_ms: Option<i64>,
}

pub struct InviteModel {
    pub invite_id: Seq<char>,
    pub secret_hash: Seq<char>,
    pub expires_at_ms: i64,
    pub created_at_ms: i64,
    pub used_at_ms: Option<i64>,
}

impl View for Invite {
    type V = InviteModel;

    open spec fn view(&self) -> InviteModel {
        InviteModel {
            invite_id: self.invite_id@,
            secret_hash: self.secret_hash@,
            expires_at_ms: self.expires_at_ms,
            created_at_ms: self.created_at_ms,
            used_at_ms: self.used_at_ms,
        }
    }
}

#[derive(Debug, Clone, Copy, PartialEq, Eq, Structural)]
pub enum PairingStatus {
    Pending,
    Accepted,
    Denied,
}

/// A device that asks to join.
#[derive(Debug, PartialEq)]
pub struct Pairing {
    pub request_id: String,
    pub device_id: String,
    pub name: String,
    pub client_version: String,
    pub endpoint_id: String,
    pub endpoint_ticket: String,
    pub invite_id: String,
    pub created_at_ms: i64,
    pub answered_at_ms: Option<i64>,
    pub status: PairingStatus,
    pub requester_group_id: Option<String>,
    pub requester_group_active_devices: i64,
    pub requester_devices: Vec<DeviceProfile>,
    pub use_requester_group: bool,
}

pub struct PairingModel {
    pub request_id: Seq<char>,
    pub device_id: Seq<char>,
    pub name: Seq<char>,
    pub client_version: Seq<char>,
    pub endpoint_id: Seq<char>,
    pub endpoint_ticket: Seq<char>,
    pub invite_id: Seq<char>,
    pub created_at_ms: i64,
    pub answered_at_ms: Option<i64>,
    pub status: PairingStatus,
    pub requester_group_id: Option<Seq<char>>,
    pub requester_group_active_devices: i64,
    pub requester_devices: Seq<DeviceProfileModel>,
    pub use_requester_group: bool,
}

impl View for Pairing {
    type V = PairingModel;

    open spec fn view(&self) -> PairingModel {
        PairingModel {
            request_id: self.request_id@,
            device_id: self.device_id@,
            name: self.name@,
            client_version: self.client_version@,
            endpoint_id: self.endpoint_id@,
            endpoint_ticket: self.endpoint_ticket@,
            invite_id: self.invite_id@,
            created_at_ms: self.created_at_ms,
            answered_at_ms: self.answered_at_ms,
            status: self.status,
            requester_group_id: opt_view(self.requester_group_id),
            requester_group_active_devices: self.requester_group_active_devices,
            requester_devices: views(self.requester_devices@),
            use_requester_group: self.use_requester_group,
        }
    }
}

/// A change, and when it arrived.
#[derive(Debug, PartialEq)]
pub struct StoredOp {
    pub op: SyncOp,
    pub received_at_ms: i64,
}

pub struct StoredOpModel {
    pub op: SyncOpModel,
    pub received_at_ms: i64,
}

impl View for StoredOp {
    type V = StoredOpModel;

    open spec fn view(&self) -> StoredOpModel {
        StoredOpModel {
            op: self.op@,
            received_at_ms: self.received_at_ms,
        }
    }
}

/// The last change of a device that is known.
#[derive(Debug, PartialEq)]
pub struct VectorEntry {
    pub device_id: String,
    pub max_seq: i64,
}

pub struct VectorEntryModel {
    pub device_id: Seq<char>,
    pub max_seq: i64,
}

impl View for VectorEntry {
    type V = VectorEntryModel;

    open spec fn view(&self) -> VectorEntryModel {
        VectorEntryModel {
            device_id: self.device_id@,
            max_seq: self.max_seq,
        }
    }
}

impl Clone for VectorEntry {
    fn clone(&self) -> (r: Self)
        ensures
            r@ == self@,
    {
        VectorEntry {
            device_id: self.device_id.clone(),
            max_seq: self.max_seq,
        }
    }
}

/// The last change of a device that a peer is known to have.
#[derive(Debug, PartialEq)]
pub struct Ack {
    pub peer_device_id: String,
    pub origin_device_id: String,
    pub max_seq: i64,
    pub updated_at_ms: i64,
}

pub struct AckModel {
    pub peer_device_id: Seq<char>,
    pub origin_device_id: Seq<char>,
    pub max_seq: i64,
    pub updated_at_ms: i64,
}

impl View for Ack {
    type V = AckModel;

    open spec fn view(&self) -> AckModel {
        AckModel {
            peer_device_id: self.peer_device_id@,
            origin_device_id: self.origin_device_id@,
            max_seq: self.max_seq,
            updated_at_ms: self.updated_at_ms,
        }
    }
}

#[derive(Debug, PartialEq)]
pub struct PlaylistState {
    pub title: String,
    pub deleted: bool,
}

pub struct PlaylistStateModel {
    pub title: Seq<char>,
    pub deleted: bool,
}

impl View for PlaylistState {
    type V = PlaylistStateModel;

    open spec fn view(&self) -> PlaylistStateModel {
        PlaylistStateModel {
            title: self.title@,
            deleted: self.deleted,
        }
    }
}

#[derive(Debug, PartialEq)]
pub struct ItemKey {
    pub playlist_id: String,
    pub content_id: String,
}

pub struct ItemKeyModel {
    pub playlist_id: Seq<char>,
    pub content_id: Seq<char>,
}

impl View for ItemKey {
    type V = ItemKeyModel;

    open spec fn view(&self) -> ItemKeyModel {
        ItemKeyModel {
            playlist_id: self.playlist_id@,
            content_id: self.content_id@,
        }
    }
}

impl RegisterKey for ItemKey {
    fn same_key(&self, other: &Self) -> (r: bool) {
        self.playlist_id == other.playlist_id && self.content_id == other.content_id
    }
}

#[derive(Debug, Clone, Copy, PartialEq, Eq, Structural)]
pub struct ItemState {
    pub present: bool,
    pub position: i64,
}

impl View for ItemState {
    type V = ItemState;

    open spec fn view(&self) -> ItemState {
        *self
    }
}

/// What is to be done outside the store.
#[derive(Debug, PartialEq)]
#[allow(inconsistent_fields)]
pub enum StoreAction {
    SyncLike { content_id: String, liked: bool, fed: Option<SyncedFedTrack>, hlc_ms: i64 },
    UpsertPlaylist { playlist_id: String, title: String },
    DeletePlaylist { playlist_id: String },
    AddPlaylistItem { playlist_id: String, content_id: String, position: i64, fed: Option<SyncedFedTrack> },
    RemovePlaylistItem { playlist_id: String, content_id: String },
    RememberListen { event: ListenEvent, origin_device_id: String },
    ObeyCommand { command: PlaybackCommand },
    ShowPlayback { playback: DevicePlayback },
    LibraryChanged,
    DevicesChanged,
    RequestSync,
}

#[allow(inconsistent_fields)]
pub enum StoreActionModel {
    SyncLike { content_id: Seq<char>, liked: bool, fed: Option<SyncedFedTrackModel>, hlc_ms: i64 },
    UpsertPlaylist { playlist_id: Seq<char>, title: Seq<char> },
    DeletePlaylist { playlist_id: Seq<char> },
    AddPlaylistItem { playlist_id: Seq<char>, content_id: Seq<char>, position: i64, fed: Option<SyncedFedTrackModel> },
    RemovePlaylistItem { playlist_id: Seq<char>, content_id: Seq<char> },
    RememberListen { event: ListenEventModel, origin_device_id: Seq<char> },
    ObeyCommand { command: PlaybackCommandModel },
    ShowPlayback { playback: DevicePlaybackModel },
    LibraryChanged,
    DevicesChanged,
    RequestSync,
}

impl View for StoreAction {
    type V = StoreActionModel;

    open spec fn view(&self) -> StoreActionModel {
        match *self {
            StoreAction::SyncLike { content_id, liked, fed, hlc_ms } => StoreActionModel::SyncLike {
                content_id: content_id@,
                liked,
                fed: opt_view(fed),
                hlc_ms,
            },
            StoreAction::UpsertPlaylist { playlist_id, title } => StoreActionModel::UpsertPlaylist {
                playlist_id: playlist_id@,
                title: title@,
            },
            StoreAction::DeletePlaylist { playlist_id } => StoreActionModel::DeletePlaylist {
                playlist_id: playlist_id@,
            },
            StoreAction::AddPlaylistItem { playlist_id, content_id, position, fed } => StoreActionModel::AddPlaylistItem {
                playlist_id: playlist_id@,
                content_id: content_id@,
                position,
                fed: opt_view(fed),
            },
            StoreAction::RemovePlaylistItem { playlist_id, content_id } => StoreActionModel::RemovePlaylistItem {
                playlist_id: playlist_id@,
                content_id: content_id@,
            },
            StoreAction::RememberListen { event, origin_device_id } => StoreActionModel::RememberListen {
                event: event@,
                origin_device_id: origin_device_id@,
            },
            StoreAction::ObeyCommand { command } => StoreActionModel::ObeyCommand {
                command: command@,
            },
            StoreAction::ShowPlayback { playback } => StoreActionModel::ShowPlayback {
                playback: playback@,
            },
            StoreAction::LibraryChanged => StoreActionModel::LibraryChanged,
            StoreAction::DevicesChanged => StoreActionModel::DevicesChanged,
            StoreAction::RequestSync => StoreActionModel::RequestSync,
        }
    }
}

/// All that a device remembers, and what is still to be done about it.
#[derive(Debug, PartialEq)]
pub struct DeviceSync {
    pub identity: Identity,
    pub local_seq: i64,
    pub last_hlc_ms: i64,
    pub last_sync: Option<String>,
    pub last_error: Option<String>,
    pub devices: Vec<DeviceRecord>,
    pub invites: Vec<Invite>,
    pub pairings: Vec<Pairing>,
    pub ops: Vec<StoredOp>,
    pub vector: Vec<VectorEntry>,
    pub acks: Vec<Ack>,
    pub likes: Vec<Written<String, bool>>,
    pub playlists: Vec<Written<String, PlaylistState>>,
    pub items: Vec<Written<ItemKey, ItemState>>,
    pub obeyed: Vec<String>,
    pub local_playback: Option<DevicePlayback>,
    pub remote_playback: Vec<DevicePlayback>,
    pub outbox: Vec<StoreAction>,
}

pub struct DeviceSyncModel {
    pub identity: IdentityModel,
    pub local_seq: i64,
    pub last_hlc_ms: i64,
    pub last_sync: Option<Seq<char>>,
    pub last_error: Option<Seq<char>>,
    pub devices: Seq<DeviceRecordModel>,
    pub invites: Seq<InviteModel>,
    pub pairings: Seq<PairingModel>,
    pub ops: Seq<StoredOpModel>,
    pub vector: Seq<VectorEntryModel>,
    pub acks: Seq<AckModel>,
    pub likes: Seq<WrittenModel<Seq<char>, bool>>,
    pub playlists: Seq<WrittenModel<Seq<char>, PlaylistStateModel>>,
    pub items: Seq<WrittenModel<ItemKeyModel, ItemState>>,
    pub obeyed: Seq<Seq<char>>,
    pub local_playback: Option<DevicePlaybackModel>,
    pub remote_playback: Seq<DevicePlaybackModel>,
    pub outbox: Seq<StoreActionModel>,
}

impl View for DeviceSync {
    type V = DeviceSyncModel;

    open spec fn view(&self) -> DeviceSyncModel {
        DeviceSyncModel {
            identity: self.identity@,
            local_seq: self.local_seq,
            last_hlc_ms: self.last_hlc_ms,
            last_sync: opt_view(self.last_sync),
            last_error: opt_view(self.last_error),
            devices: views(self.devices@),
            invites: views(self.invites@),
            pairings: views(self.pairings@),
            ops: views(self.ops@),
            vector: views(self.vector@),
            acks: views(self.acks@),
            likes: views(self.likes@),
            playlists: views(self.playlists@),
            items: views(self.items@),
            obeyed: views(self.obeyed@),
            local_playback: opt_view(self.local_playback),
            remote_playback: views(self.remote_playback@),
            outbox: views(self.outbox@),
        }
    }
}

pub open spec fn is_device(id: Seq<char>) -> spec_fn(DeviceRecordModel) -> bool {
    |device: DeviceRecordModel| device.device_id == id
}

pub open spec fn later_of(a: i64, b: i64) -> i64 {
    if a >= b {
        a
    } else {
        b
    }
}

pub open spec fn or_epoch(t: Option<i64>) -> i64 {
    match t {
        Some(t) => t,
        None => 0,
    }
}

/// A device that is told of for the first time.
pub open spec fn told_device(profile: DeviceProfileModel, trusted: bool, now: i64) -> DeviceRecordModel {
    DeviceRecordModel {
        device_id: profile.device_id,
        name: profile.name,
        client_version: profile.client_version,
        protocol_version: profile.protocol_version,
        endpoint_id: profile.endpoint_id,
        endpoint_ticket: profile.endpoint_ticket,
        trusted_at_ms: if trusted {
            Some(now)
        } else {
            None
        },
        last_seen_ms: Some(later_of(profile.updated_at_ms, now)),
        revoked_at_ms: if profile.revoked {
            Some(later_of(profile.updated_at_ms, now))
        } else {
            None
        },
        revoked_by: None,
        revoke_cutoff_seq: profile.revoke_cutoff_seq,
    }
}

/// A known device of which something new is told. Trust, once given, stays as
/// it was given; what is told empty does not displace what is known.
pub open spec fn retold_device(known: DeviceRecordModel, told: DeviceRecordModel) -> DeviceRecordModel {
    DeviceRecordModel {
        device_id: known.device_id,
        name: if told.last_seen_ms->0 >= or_epoch(known.last_seen_ms) {
            told.name
        } else {
            known.name
        },
        client_version: told.client_version,
        protocol_version: told.protocol_version,
        endpoint_id: if told.endpoint_id.len() > 0 {
            told.endpoint_id
        } else {
            known.endpoint_id
        },
        endpoint_ticket: if told.endpoint_ticket.len() > 0 {
            told.endpoint_ticket
        } else {
            known.endpoint_ticket
        },
        trusted_at_ms: match known.trusted_at_ms {
            Some(t) => Some(t),
            None => told.trusted_at_ms,
        },
        last_seen_ms: Some(later_of(or_epoch(known.last_seen_ms), told.last_seen_ms->0)),
        revoked_at_ms: match told.revoked_at_ms {
            Some(t) => Some(t),
            None => known.revoked_at_ms,
        },
        revoked_by: known.revoked_by,
        revoke_cutoff_seq: match told.revoke_cutoff_seq {
            Some(seq) => Some(seq),
            None => known.revoke_cutoff_seq,
        },
    }
}

/// The devices after something is told of one.
pub open spec fn with_told_device(devices: Seq<DeviceRecordModel>, told: DeviceRecordModel) -> Seq<
    DeviceRecordModel,
> {
    let i = first_where(devices, is_device(told.device_id));
    if i < devices.len() {
        devices.update(i, retold_device(devices[i], told))
    } else {
        devices.push(told)
    }
}

/// The devices after a device was seen at an address.
pub open spec fn with_seen_device(
    devices: Seq<DeviceRecordModel>,
    id: Seq<char>,
    endpoint_id: Seq<char>,
    now: i64,
) -> Seq<DeviceRecordModel> {
    let i = first_where(devices, is_device(id));
    if i < devices.len() {
        devices.update(
            i,
            DeviceRecordModel {
                last_seen_ms: Some(now),
                endpoint_id: if endpoint_id.len() > 0 {
                    endpoint_id
                } else {
                    devices[i].endpoint_id
                },
                ..devices[i]
            },
        )
    } else {
        devices
    }
}

/// The devices after a device was trusted, which undoes an earlier revocation.
pub open spec fn with_trusted_device(
    devices: Seq<DeviceRecordModel>,
    id: Seq<char>,
    hlc_ms: i64,
) -> Seq<DeviceRecordModel> {
    let i = first_where(devices, is_device(id));
    if i < devices.len() {
        devices.update(
            i,
            DeviceRecordModel {
                trusted_at_ms: Some(later_of(or_epoch(devices[i].trusted_at_ms), hlc_ms)),
                revoked_at_ms: if or_epoch(devices[i].revoked_at_ms) <= hlc_ms {
                    None
                } else {
                    devices[i].revoked_at_ms
                },
                ..devices[i]
            },
        )
    } else {
        devices
    }
}

/// The devices after a device was revoked; its changes up to the cutoff still
/// count.
pub open spec fn with_revoked_device(
    devices: Seq<DeviceRecordModel>,
    id: Seq<char>,
    hlc_ms: i64,
    by: Seq<char>,
    cutoff: i64,
) -> Seq<DeviceRecordModel> {
    let i = first_where(devices, is_device(id));
    if i < devices.len() {
        devices.update(
            i,
            DeviceRecordModel {
                revoked_at_ms: Some(hlc_ms),
                revoked_by: Some(by),
                revoke_cutoff_seq: Some(cutoff),
                ..devices[i]
            },
        )
    } else {
        devices
    }
}

/// The devices after one was given a name.
pub open spec fn with_named_device(
    devices: Seq<DeviceRecordModel>,
    id: Seq<char>,
    name: Seq<char>,
    client_version: Seq<char>,
) -> Seq<DeviceRecordModel> {
    let i = first_where(devices, is_device(id));
    if i < devices.len() {
        devices.update(i, DeviceRecordModel { name, client_version, ..devices[i] })
    } else {
        devices
    }
}

/// Whether a device is trusted and not revoked.
pub open spec fn is_active(device: DeviceRecordModel) -> bool {
    device.trusted_at_ms is Some && device.revoked_at_ms is None
}

pub open spec fn counts_for(device_id: Seq<char>) -> spec_fn(VectorEntryModel) -> bool {
    |entry: VectorEntryModel| entry.device_id == device_id
}

/// What is known of each device, after one more change of one of them.
pub open spec fn with_change(vector: Seq<VectorEntryModel>, device_id: Seq<char>, seq: i64) -> Seq<
    VectorEntryModel,
> {
    let i = first_where(vector, counts_for(device_id));
    if i < vector.len() {
        vector.update(i, VectorEntryModel { device_id, max_seq: later_of(vector[i].max_seq, seq) })
    } else {
        vector.push(VectorEntryModel { device_id, max_seq: seq })
    }
}

pub open spec fn acknowledges_for(peer: Seq<char>, origin: Seq<char>) -> spec_fn(AckModel) -> bool {
    |ack: AckModel| ack.peer_device_id == peer && ack.origin_device_id == origin
}

pub open spec fn with_ack(acks: Seq<AckModel>, ack: AckModel) -> Seq<AckModel> {
    let i = first_where(acks, acknowledges_for(ack.peer_device_id, ack.origin_device_id));
    if i < acks.len() {
        acks.update(i, AckModel { max_seq: later_of(acks[i].max_seq, ack.max_seq), ..ack })
    } else {
        acks.push(ack)
    }
}

/// What a peer is known to have, after it said so.
pub open spec fn with_acks(
    acks: Seq<AckModel>,
    peer: Seq<char>,
    vector: Seq<VectorEntryModel>,
    now: i64,
) -> Seq<AckModel>
    decreases vector.len(),
{
    if vector.len() == 0 {
        acks
    } else {
        with_ack(
            with_acks(acks, peer, vector.drop_last(), now),
            AckModel {
                peer_device_id: peer,
                origin_device_id: vector.last().device_id,
                max_seq: vector.last().max_seq,
                updated_at_ms: now,
            },
        )
    }
}

/// The last change of a device that a peer has; none at first.
pub open spec fn acknowledged(acks: Seq<AckModel>, peer: Seq<char>, origin: Seq<char>) -> i64 {
    match found(acks, acknowledges_for(peer, origin)) {
        Some(ack) => ack.max_seq,
        None => 0,
    }
}

pub open spec fn has_op(ops: Seq<StoredOpModel>, op_id: Seq<char>) -> bool {
    exists|i: int| 0 <= i < ops.len() && (#[trigger] ops[i]).op.op_id == op_id
}

pub open spec fn next_up(n: i64) -> i64 {
    if n < i64::MAX {
        (n + 1) as i64
    } else {
        n
    }
}

impl DeviceSyncModel {
    pub open spec fn act(self, action: StoreActionModel) -> Self {
        DeviceSyncModel { outbox: self.outbox.push(action), ..self }
    }

    /// A device tells of one; what it tells of this one is ignored.
    pub open spec fn with_profile(self, profile: DeviceProfileModel, trusted: bool, now: i64) -> Self {
        if profile.device_id == self.identity.device_id {
            self
        } else {
            DeviceSyncModel {
                devices: with_told_device(self.devices, told_device(profile, trusted, now)),
                ..self
            }
        }
    }

    pub open spec fn with_profiles(self, profiles: Seq<DeviceProfileModel>, now: i64) -> Self
        decreases profiles.len(),
    {
        if profiles.len() == 0 {
            self
        } else {
            self.with_profiles(profiles.drop_last(), now).with_profile(profiles.last(), false, now)
        }
    }

    /// Someone likes a track, or no longer does.
    pub open spec fn with_like(
        self,
        content_id: Seq<char>,
        liked: bool,
        fed: Option<SyncedFedTrackModel>,
        hlc_ms: i64,
        op_id: Seq<char>,
    ) -> Self {
        match content_key(content_id) {
            None => self,
            Some(content_id) => {
                let row = WrittenModel { key: content_id, value: liked, hlc_ms, op_id };
                if wins(self.likes, row) {
                    DeviceSyncModel { likes: written(self.likes, row), ..self }.act(
                        StoreActionModel::SyncLike { content_id, liked, fed, hlc_ms },
                    ).act(StoreActionModel::LibraryChanged)
                } else {
                    self
                }
            },
        }
    }

    /// A playlist is made, renamed or deleted.
    pub open spec fn with_playlist(
        self,
        playlist_id: Seq<char>,
        title: Seq<char>,
        deleted: bool,
        hlc_ms: i64,
        op_id: Seq<char>,
    ) -> Self {
        let row = WrittenModel {
            key: playlist_id,
            value: PlaylistStateModel { title, deleted },
            hlc_ms,
            op_id,
        };
        if wins(self.playlists, row) {
            let noted = DeviceSyncModel { playlists: written(self.playlists, row), ..self };
            let told = if deleted {
                noted.act(StoreActionModel::DeletePlaylist { playlist_id })
            } else if !is_blank(title) {
                noted.act(StoreActionModel::UpsertPlaylist { playlist_id, title })
            } else {
                noted
            };
            told.act(StoreActionModel::LibraryChanged)
        } else {
            self
        }
    }

    /// A track joins a playlist or leaves it.
    pub open spec fn with_item(
        self,
        playlist_id: Seq<char>,
        content_id: Seq<char>,
        state: ItemState,
        fed: Option<SyncedFedTrackModel>,
        hlc_ms: i64,
        op_id: Seq<char>,
    ) -> Self {
        match content_key(content_id) {
            None => self,
            Some(content_id) => {
                let row = WrittenModel {
                    key: ItemKeyModel { playlist_id, content_id },
                    value: state,
                    hlc_ms,
                    op_id,
                };
                if wins(self.items, row) {
                    DeviceSyncModel { items: written(self.items, row), ..self }.act(
                        if state.present {
                            StoreActionModel::AddPlaylistItem {
                                playlist_id,
                                content_id,
                                position: state.position,
                                fed,
                            }
                        } else {
                            StoreActionModel::RemovePlaylistItem { playlist_id, content_id }
                        },
                    ).act(StoreActionModel::LibraryChanged)
                } else {
                    self
                }
            },
        }
    }

    /// A player is told to do something; each command is obeyed once, by the
    /// device it is meant for.
    pub open spec fn with_command(
        self,
        target: Seq<char>,
        command: PlaybackCommandModel,
        op_id: Seq<char>,
    ) -> Self {
        if target != self.identity.device_id || self.obeyed.contains(op_id) {
            self
        } else {
            DeviceSyncModel { obeyed: self.obeyed.push(op_id), ..self }.act(
                StoreActionModel::ObeyCommand { command },
            )
        }
    }

    /// What a change does.
    pub open spec fn with_effect(self, op: SyncOpModel, now: i64) -> Self {
        match op.payload {
            SyncOpPayloadModel::TrackLikeSet { content_id, liked, fed } => self.with_like(
                content_id,
                liked,
                fed,
                op.hlc_ms,
                op.op_id,
            ),
            SyncOpPayloadModel::PlaylistCreated { playlist_id, title } => self.with_playlist(
                playlist_id,
                title,
                false,
                op.hlc_ms,
                op.op_id,
            ),
            SyncOpPayloadModel::PlaylistRenamed { playlist_id, title } => self.with_playlist(
                playlist_id,
                title,
                false,
                op.hlc_ms,
                op.op_id,
            ),
            SyncOpPayloadModel::PlaylistDeleted { playlist_id } => self.with_playlist(
                playlist_id,
                Seq::empty(),
                true,
                op.hlc_ms,
                op.op_id,
            ),
            SyncOpPayloadModel::PlaylistTrackAdded { playlist_id, content_id, position, fed } => self.with_item(
                playlist_id,
                content_id,
                ItemState { present: true, position },
                fed,
                op.hlc_ms,
                op.op_id,
            ),
            SyncOpPayloadModel::PlaylistTrackRemoved { playlist_id, content_id } => self.with_item(
                playlist_id,
                content_id,
                ItemState { present: false, position: 0 },
                None,
                op.hlc_ms,
                op.op_id,
            ),
            SyncOpPayloadModel::DeviceProfileSet {
                name,
                client_version,
                endpoint_ticket,
                endpoint_id,
            } => self.with_profile(
                DeviceProfileModel {
                    device_id: op.origin_device_id,
                    name,
                    client_version,
                    protocol_version: DEVICE_SYNC_PROTOCOL_VERSION,
                    endpoint_id,
                    endpoint_ticket,
                    revoked: false,
                    revoke_cutoff_seq: None,
                    updated_at_ms: op.hlc_ms,
                },
                false,
                now,
            ),
            SyncOpPayloadModel::DeviceTrusted { target_device_id } => DeviceSyncModel {
                devices: with_trusted_device(self.devices, target_device_id, op.hlc_ms),
                ..self
            },
            SyncOpPayloadModel::DeviceRevoked { target_device_id, target_max_seq_seen } => DeviceSyncModel {
                devices: with_revoked_device(
                    self.devices,
                    target_device_id,
                    op.hlc_ms,
                    op.origin_device_id,
                    target_max_seq_seen,
                ),
                ..self
            },
            SyncOpPayloadModel::PlaybackCommand { target_device_id, command } => self.with_command(
                target_device_id,
                command,
                op.op_id,
            ),
            SyncOpPayloadModel::ListenRecorded { event } => self.act(
                StoreActionModel::RememberListen { event, origin_device_id: op.origin_device_id },
            ),
        }
    }

    /// A change arrives; one that is known already does nothing.
    #[verifier::opaque]
    pub open spec fn with_op(self, op: SyncOpModel, now: i64) -> Self {
        if has_op(self.ops, op.op_id) {
            self
        } else {
            DeviceSyncModel {
                ops: self.ops.push(StoredOpModel { op, received_at_ms: now }),
                vector: with_change(self.vector, op.origin_device_id, op.seq),
                ..self
            }.with_effect(op, now)
        }
    }

    /// Whether a change is taken: this device's own, and those of devices that
    /// are trusted, of revoked ones only up to the cutoff.
    pub open spec fn accepts(self, op: SyncOpModel) -> bool {
        op.origin_device_id == self.identity.device_id || match found(
            self.devices,
            is_device(op.origin_device_id),
        ) {
            Some(device) => device.trusted_at_ms is Some && (device.revoked_at_ms is None || op.seq
                <= or_epoch(device.revoke_cutoff_seq)),
            None => false,
        }
    }

    pub open spec fn with_accepted(self, ops: Seq<SyncOpModel>, now: i64) -> Self
        decreases ops.len(),
    {
        if ops.len() == 0 {
            self
        } else {
            let before = self.with_accepted(ops.drop_last(), now);
            if before.accepts(ops.last()) {
                before.with_op(ops.last(), now)
            } else {
                before
            }
        }
    }

    pub open spec fn with_ops(self, ops: Seq<SyncOpModel>, now: i64) -> Self {
        self.with_accepted(ops, now).act(StoreActionModel::DevicesChanged)
    }

    /// The next change of this device.
    pub open spec fn next_op(self, payload: SyncOpPayloadModel, now: i64) -> SyncOpModel {
        let seq = next_up(self.local_seq);
        SyncOpModel {
            op_id: self.identity.device_id + ":"@ + signed_decimal(seq as int),
            origin_device_id: self.identity.device_id,
            seq,
            hlc_ms: later_of(now, next_up(self.last_hlc_ms)),
            payload,
        }
    }

    /// This device makes a change.
    #[verifier::opaque]
    pub open spec fn recorded(self, payload: SyncOpPayloadModel, now: i64) -> Self {
        let op = self.next_op(payload, now);
        DeviceSyncModel { local_seq: op.seq, last_hlc_ms: op.hlc_ms, ..self }.with_op(op, now).act(
            StoreActionModel::RequestSync,
        ).act(StoreActionModel::DevicesChanged)
    }
}

fn later(a: i64, b: i64) -> (r: i64)
    ensures
        r == later_of(a, b),
{
    if a >= b {
        a
    } else {
        b
    }
}

pub(crate) fn device_index(devices: &Vec<DeviceRecord>, id: &str) -> (r: usize)
    ensures
        r == first_where(views(devices@), is_device(id@)),
        r <= devices.len(),
{
    let ghost all = views(devices@);
    let ghost p = is_device(id@);
    let mut i: usize = 0;
    while i < devices.len()
        invariant
            i <= devices.len() == all.len(),
            all == views(devices@),
            p == is_device(id@),
            forall|j: int| 0 <= j < i ==> !p(#[trigger] all[j]),
        decreases devices.len() - i,
    {
        if same_str(devices[i].device_id.as_str(), id) {
            proof {
                lemma_first_where(all, p, i as int);
            }
            return i;
        }
        i += 1;
    }
    proof {
        lemma_first_where(all, p, i as int);
    }
    i
}

fn first_told(profile: &DeviceProfile, trusted: bool, now: i64) -> (r: DeviceRecord)
    ensures
        r@ == told_device(profile@, trusted, now),
{
    DeviceRecord {
        device_id: profile.device_id.clone(),
        name: profile.name.clone(),
        client_version: profile.client_version.clone(),
        protocol_version: profile.protocol_version,
        endpoint_id: profile.endpoint_id.clone(),
        endpoint_ticket: profile.endpoint_ticket.clone(),
        trusted_at_ms: if trusted {
            Some(now)
        } else {
            None
        },
        last_seen_ms: Some(later(profile.updated_at_ms, now)),
        revoked_at_ms: if profile.revoked {
            Some(later(profile.updated_at_ms, now))
        } else {
            None
        },
        revoked_by: None,
        revoke_cutoff_seq: profile.revoke_cutoff_seq,
    }
}

fn tell_device(devices: &mut Vec<DeviceRecord>, profile: &DeviceProfile, trusted: bool, now: i64)
    ensures
        views(final(devices)@) == with_told_device(
            views(old(devices)@),
            told_device(profile@, trusted, now),
        ),
{
    let told = first_told(profile, trusted, now);
    let i = device_index(devices, told.device_id.as_str());
    if i == devices.len() {
        devices.push(told);
        return;
    }
    let ghost known = devices@[i as int]@;
    let ghost new = told@;
    let seen = later(profile.updated_at_ms, now);
    let known_seen: i64 = devices[i].last_seen_ms.unwrap_or(0);
    if seen >= known_seen {
        devices[i].name = told.name;
    }
    devices[i].client_version = told.client_version;
    devices[i].protocol_version = told.protocol_version;
    if !told.endpoint_id.as_str().is_empty() {
        devices[i].endpoint_id = told.endpoint_id;
    }
    if !told.endpoint_ticket.as_str().is_empty() {
        devices[i].endpoint_ticket = told.endpoint_ticket;
    }
    if devices[i].trusted_at_ms.is_none() {
        devices[i].trusted_at_ms = told.trusted_at_ms;
    }
    devices[i].last_seen_ms = Some(later(known_seen, seen));
    if told.revoked_at_ms.is_some() {
        devices[i].revoked_at_ms = told.revoked_at_ms;
    }
    if told.revoke_cutoff_seq.is_some() {
        devices[i].revoke_cutoff_seq = told.revoke_cutoff_seq;
    }
    proof {
        assert(devices@[i as int]@ == retold_device(known, new));
        assert(views(devices@) =~= views(old(devices)@).update(
            i as int,
            retold_device(known, new),
        ));
    }
}

fn see_device(devices: &mut Vec<DeviceRecord>, id: &str, endpoint_id: &str, now: i64)
    ensures
        views(final(devices)@) == with_seen_device(
            views(old(devices)@),
            id@,
            endpoint_id@,
            now,
        ),
{
    let i = device_index(devices, id);
    if i < devices.len() {
        devices[i].last_seen_ms = Some(now);
        if !endpoint_id.is_empty() {
            devices[i].endpoint_id = endpoint_id.to_owned();
        }
        proof {
            assert(views(devices@) =~= with_seen_device(
                views(old(devices)@),
                id@,
                endpoint_id@,
                now,
            ));
        }
    }
}

fn trust_device(devices: &mut Vec<DeviceRecord>, id: &str, hlc_ms: i64)
    ensures
        views(final(devices)@) == with_trusted_device(views(old(devices)@), id@, hlc_ms),
{
    let i = device_index(devices, id);
    if i < devices.len() {
        let since: i64 = devices[i].trusted_at_ms.unwrap_or(0);
        devices[i].trusted_at_ms = Some(later(since, hlc_ms));
        let revoked: i64 = devices[i].revoked_at_ms.unwrap_or(0);
        if revoked <= hlc_ms {
            devices[i].revoked_at_ms = None;
        }
        proof {
            assert(views(devices@) =~= with_trusted_device(views(old(devices)@), id@, hlc_ms));
        }
    }
}

fn revoke_device(devices: &mut Vec<DeviceRecord>, id: &str, hlc_ms: i64, by: &str, cutoff: i64)
    ensures
        views(final(devices)@) == with_revoked_device(
            views(old(devices)@),
            id@,
            hlc_ms,
            by@,
            cutoff,
        ),
{
    let i = device_index(devices, id);
    if i < devices.len() {
        devices[i].revoked_at_ms = Some(hlc_ms);
        devices[i].revoked_by = Some(by.to_owned());
        devices[i].revoke_cutoff_seq = Some(cutoff);
        proof {
            assert(views(devices@) =~= with_revoked_device(
                views(old(devices)@),
                id@,
                hlc_ms,
                by@,
                cutoff,
            ));
        }
    }
}

fn count_change(vector: &mut Vec<VectorEntry>, device_id: &str, seq: i64)
    ensures
        views(final(vector)@) == with_change(views(old(vector)@), device_id@, seq),
{
    let ghost all = views(vector@);
    let ghost p = counts_for(device_id@);
    let mut i: usize = 0;
    while i < vector.len()
        invariant
            *vector == *old(vector),
            i <= vector.len() == all.len(),
            all == views(vector@),
            p == counts_for(device_id@),
            forall|j: int| 0 <= j < i ==> !p(#[trigger] all[j]),
        decreases vector.len() - i,
    {
        if same_str(vector[i].device_id.as_str(), device_id) {
            proof {
                lemma_first_where(all, p, i as int);
            }
            vector[i].max_seq = later(vector[i].max_seq, seq);
            proof {
                assert(views(vector@) =~= with_change(all, device_id@, seq));
            }
            return;
        }
        i += 1;
    }
    proof {
        lemma_first_where(all, p, i as int);
    }
    vector.push(VectorEntry { device_id: device_id.to_owned(), max_seq: seq });
}

pub(crate) fn ack_index(acks: &Vec<Ack>, peer: &str, origin: &str) -> (r: usize)
    ensures
        r == first_where(views(acks@), acknowledges_for(peer@, origin@)),
        r <= acks.len(),
{
    let ghost all = views(acks@);
    let ghost p = acknowledges_for(peer@, origin@);
    let mut i: usize = 0;
    while i < acks.len()
        invariant
            i <= acks.len() == all.len(),
            all == views(acks@),
            p == acknowledges_for(peer@, origin@),
            forall|j: int| 0 <= j < i ==> !p(#[trigger] all[j]),
        decreases acks.len() - i,
    {
        if same_str(acks[i].peer_device_id.as_str(), peer) && same_str(
            acks[i].origin_device_id.as_str(),
            origin,
        ) {
            proof {
                lemma_first_where(all, p, i as int);
            }
            return i;
        }
        i += 1;
    }
    proof {
        lemma_first_where(all, p, i as int);
    }
    i
}

fn take_acks(acks: &mut Vec<Ack>, peer: &str, vector: &Vec<VectorEntry>, now: i64)
    ensures
        views(final(acks)@) == with_acks(views(old(acks)@), peer@, views(vector@), now),
{
    let ghost all = views(vector@);
    let mut n: usize = 0;
    while n < vector.len()
        invariant
            n <= vector.len() == all.len(),
            all == views(vector@),
            views(acks@) == with_acks(views(old(acks)@), peer@, all.take(n as int), now),
        decreases vector.len() - n,
    {
        proof {
            assert(all.take(n + 1).drop_last() =~= all.take(n as int));
        }
        let i = ack_index(acks, peer, vector[n].device_id.as_str());
        let ack = Ack {
            peer_device_id: peer.to_owned(),
            origin_device_id: vector[n].device_id.clone(),
            max_seq: if i < acks.len() {
                later(acks[i].max_seq, vector[n].max_seq)
            } else {
                vector[n].max_seq
            },
            updated_at_ms: now,
        };
        if i < acks.len() {
            acks.set(i, ack);
        } else {
            acks.push(ack);
        }
        n += 1;
    }
    proof {
        assert(all.take(n as int) =~= all);
    }
}

fn knows_op(ops: &Vec<StoredOp>, op_id: &str) -> (r: bool)
    ensures
        r == has_op(views(ops@), op_id@),
{
    let ghost all = views(ops@);
    let mut i: usize = 0;
    while i < ops.len()
        invariant
            i <= ops.len() == all.len(),
            all == views(ops@),
            forall|j: int| 0 <= j < i ==> (#[trigger] all[j]).op.op_id != op_id@,
        decreases ops.len() - i,
    {
        if same_str(ops[i].op.op_id.as_str(), op_id) {
            assert(all[i as int].op.op_id == op_id@);
            return true;
        }
        i += 1;
    }
    false
}

fn holds(all: &Vec<String>, text: &str) -> (r: bool)
    ensures
        r == views(all@).contains(text@),
{
    let mut i: usize = 0;
    while i < all.len()
        invariant
            i <= all.len(),
            forall|j: int| 0 <= j < i ==> #[trigger] views(all@)[j] != text@,
        decreases all.len() - i,
    {
        if same_str(all[i].as_str(), text) {
            assert(views(all@)[i as int] == text@);
            return true;
        }
        i += 1;
    }
    false
}

fn up(n: i64) -> (r: i64)
    ensures
        r == next_up(n),
{
    if n < i64::MAX {
        n + 1
    } else {
        n
    }
}

impl DeviceSync {
    pub(crate) fn act(&mut self, action: StoreAction)
        ensures
            final(self)@ == old(self)@.act(action@),
    {
        self.outbox.push(action);
    }

    /// Takes what is to be done outside.
    pub fn take_actions(&mut self) -> (r: Vec<StoreAction>)
        ensures
            views(r@) == old(self)@.outbox,
            final(self)@ == (DeviceSyncModel { outbox: Seq::empty(), ..old(self)@ }),
    {
        let mut r: Vec<StoreAction> = Vec::new();
        r.append(&mut self.outbox);
        proof {
            assert(views(r@) =~= old(self)@.outbox);
            assert(views(self.outbox@) =~= Seq::empty());
        }
        r
    }

    pub fn apply_device_profile(&mut self, profile: &DeviceProfile, trusted: bool, now: i64)
        ensures
            final(self)@ == old(self)@.with_profile(profile@, trusted, now),
    {
        if profile.device_id == self.identity.device_id {
            return;
        }
        tell_device(&mut self.devices, profile, trusted, now);
    }

    pub fn apply_device_profiles(&mut self, profiles: &Vec<DeviceProfile>, now: i64)
        ensures
            final(self)@ == old(self)@.with_profiles(views(profiles@), now),
    {
        let ghost all = views(profiles@);
        let mut i: usize = 0;
        while i < profiles.len()
            invariant
                i <= profiles.len() == all.len(),
                all == views(profiles@),
                self@ == old(self)@.with_profiles(all.take(i as int), now),
            decreases profiles.len() - i,
        {
            proof {
                assert(all.take(i + 1).drop_last() =~= all.take(i as int));
            }
            self.apply_device_profile(&profiles[i], false, now);
            i += 1;
        }
        proof {
            assert(all.take(i as int) =~= all);
        }
    }

    pub fn mark_seen(&mut self, device_id: &str, endpoint_id: &str, now: i64)
        ensures
            final(self)@ == (DeviceSyncModel {
                devices: with_seen_device(old(self)@.devices, device_id@, endpoint_id@, now),
                ..old(self)@
            }),
    {
        see_device(&mut self.devices, device_id, endpoint_id, now);
    }

    pub fn note_peer_vector(&mut self, peer: &str, vector: &Vec<VectorEntry>, now: i64)
        ensures
            final(self)@ == (DeviceSyncModel {
                acks: with_acks(old(self)@.acks, peer@, views(vector@), now),
                ..old(self)@
            }),
    {
        take_acks(&mut self.acks, peer, vector, now);
    }

    pub fn apply_like(
        &mut self,
        content_id: &str,
        liked: bool,
        fed: Option<SyncedFedTrack>,
        hlc_ms: i64,
        op_id: &str,
    )
        ensures
            final(self)@ == old(self)@.with_like(
                content_id@,
                liked,
                opt_view(fed),
                hlc_ms,
                op_id@,
            ),
    {
        let content_id = match normalize_content_id(content_id) {
            Some(id) => id.as_str().to_owned(),
            None => {
                return;
            },
        };
        let row = Written {
            key: content_id.clone(),
            value: liked,
            hlc_ms,
            op_id: op_id.to_owned(),
        };
        if put(&mut self.likes, row) {
            self.act(StoreAction::SyncLike { content_id, liked, fed, hlc_ms });
            self.act(StoreAction::LibraryChanged);
        }
    }

    pub fn apply_playlist(
        &mut self,
        playlist_id: &str,
        title: &str,
        deleted: bool,
        hlc_ms: i64,
        op_id: &str,
    )
        ensures
            final(self)@ == old(self)@.with_playlist(
                playlist_id@,
                title@,
                deleted,
                hlc_ms,
                op_id@,
            ),
    {
        let row = Written {
            key: playlist_id.to_owned(),
            value: PlaylistState { title: title.to_owned(), deleted },
            hlc_ms,
            op_id: op_id.to_owned(),
        };
        if put(&mut self.playlists, row) {
            if deleted {
                self.act(StoreAction::DeletePlaylist { playlist_id: playlist_id.to_owned() });
            } else if !blank(title) {
                self.act(
                    StoreAction::UpsertPlaylist {
                        playlist_id: playlist_id.to_owned(),
                        title: title.to_owned(),
                    },
                );
            }
            self.act(StoreAction::LibraryChanged);
        }
    }

    pub fn apply_playlist_item(
        &mut self,
        playlist_id: &str,
        content_id: &str,
        state: ItemState,
        fed: Option<SyncedFedTrack>,
        hlc_ms: i64,
        op_id: &str,
    )
        ensures
            final(self)@ == old(self)@.with_item(
                playlist_id@,
                content_id@,
                state,
                opt_view(fed),
                hlc_ms,
                op_id@,
            ),
    {
        let content_id = match normalize_content_id(content_id) {
            Some(id) => id.as_str().to_owned(),
            None => {
                return;
            },
        };
        let row = Written {
            key: ItemKey { playlist_id: playlist_id.to_owned(), content_id: content_id.clone() },
            value: state,
            hlc_ms,
            op_id: op_id.to_owned(),
        };
        if put(&mut self.items, row) {
            if state.present {
                self.act(
                    StoreAction::AddPlaylistItem {
                        playlist_id: playlist_id.to_owned(),
                        content_id,
                        position: state.position,
                        fed,
                    },
                );
            } else {
                self.act(
                    StoreAction::RemovePlaylistItem {
                        playlist_id: playlist_id.to_owned(),
                        content_id,
                    },
                );
            }
            self.act(StoreAction::LibraryChanged);
        }
    }

    pub fn apply_playback_command(&mut self, target: &str, command: PlaybackCommand, op_id: &str)
        ensures
            final(self)@ == old(self)@.with_command(target@, command@, op_id@),
    {
        if !same_str(target, self.identity.device_id.as_str()) || holds(&self.obeyed, op_id) {
            return;
        }
        self.obeyed.push(op_id.to_owned());
        self.act(StoreAction::ObeyCommand { command });
    }

    /// Carries out a change.
    pub fn apply_op(&mut self, op: SyncOp, now: i64)
        ensures
            final(self)@ == old(self)@.with_effect(op@, now),
    {
        let SyncOp { op_id, origin_device_id, seq: _, hlc_ms, payload } = op;
        match payload {
            SyncOpPayload::TrackLikeSet { content_id, liked, fed } => {
                self.apply_like(content_id.as_str(), liked, fed, hlc_ms, op_id.as_str());
            },
            SyncOpPayload::PlaylistCreated { playlist_id, title } => {
                self.apply_playlist(
                    playlist_id.as_str(),
                    title.as_str(),
                    false,
                    hlc_ms,
                    op_id.as_str(),
                );
            },
            SyncOpPayload::PlaylistRenamed { playlist_id, title } => {
                self.apply_playlist(
                    playlist_id.as_str(),
                    title.as_str(),
                    false,
                    hlc_ms,
                    op_id.as_str(),
                );
            },
            SyncOpPayload::PlaylistDeleted { playlist_id } => {
                let nothing = String::new();
                self.apply_playlist(
                    playlist_id.as_str(),
                    nothing.as_str(),
                    true,
                    hlc_ms,
                    op_id.as_str(),
                );
            },
            SyncOpPayload::PlaylistTrackAdded { playlist_id, content_id, position, fed } => {
                self.apply_playlist_item(
                    playlist_id.as_str(),
                    content_id.as_str(),
                    ItemState { present: true, position },
                    fed,
                    hlc_ms,
                    op_id.as_str(),
                );
            },
            SyncOpPayload::PlaylistTrackRemoved { playlist_id, content_id } => {
                self.apply_playlist_item(
                    playlist_id.as_str(),
                    content_id.as_str(),
                    ItemState { present: false, position: 0 },
                    None,
                    hlc_ms,
                    op_id.as_str(),
                );
            },
            SyncOpPayload::DeviceProfileSet {
                name,
                client_version,
                endpoint_ticket,
                endpoint_id,
            } => {
                let profile = DeviceProfile {
                    device_id: origin_device_id,
                    name,
                    client_version,
                    protocol_version: DEVICE_SYNC_PROTOCOL_VERSION,
                    endpoint_id,
                    endpoint_ticket,
                    revoked: false,
                    revoke_cutoff_seq: None,
                    updated_at_ms: hlc_ms,
                };
                self.apply_device_profile(&profile, false, now);
            },
            SyncOpPayload::DeviceTrusted { target_device_id } => {
                trust_device(&mut self.devices, target_device_id.as_str(), hlc_ms);
            },
            SyncOpPayload::DeviceRevoked { target_device_id, target_max_seq_seen } => {
                revoke_device(
                    &mut self.devices,
                    target_device_id.as_str(),
                    hlc_ms,
                    origin_device_id.as_str(),
                    target_max_seq_seen,
                );
            },
            SyncOpPayload::PlaybackCommand { target_device_id, command } => {
                self.apply_playback_command(target_device_id.as_str(), command, op_id.as_str());
            },
            SyncOpPayload::ListenRecorded { event } => {
                self.act(StoreAction::RememberListen { event, origin_device_id });
            },
        }
    }

    /// Takes a change, unless it is known.
    pub fn store_and_apply_op(&mut self, op: SyncOp, now: i64)
        ensures
            final(self)@ == old(self)@.with_op(op@, now),
    {
        proof {
            reveal(DeviceSyncModel::with_op);
        }
        if knows_op(&self.ops, op.op_id.as_str()) {
            return;
        }
        count_change(&mut self.vector, op.origin_device_id.as_str(), op.seq);
        self.ops.push(StoredOp { op: op.clone(), received_at_ms: now });
        self.apply_op(op, now);
    }

    pub fn should_accept_op(&self, op: &SyncOp) -> (r: bool)
        ensures
            r == self@.accepts(op@),
    {
        if op.origin_device_id == self.identity.device_id {
            return true;
        }
        let i = device_index(&self.devices, op.origin_device_id.as_str());
        if i == self.devices.len() {
            return false;
        }
        let device = &self.devices[i];
        device.trusted_at_ms.is_some() && (device.revoked_at_ms.is_none() || op.seq
            <= device.revoke_cutoff_seq.unwrap_or(0))
    }

    pub fn apply_ops(&mut self, ops: Vec<SyncOp>, now: i64)
        ensures
            final(self)@ == old(self)@.with_ops(views(ops@), now),
    {
        let ghost all = views(ops@);
        let mut rest = ops;
        let ghost mut done: int = 0;
        while rest.len() > 0
            invariant
                0 <= done,
                done + rest.len() == all.len(),
                views(rest@) == all.skip(done),
                self@ == old(self)@.with_accepted(all.take(done), now),
            decreases rest.len(),
        {
            let op = rest.remove(0);
            proof {
                assert(op@ == all[done]);
                assert(all.take(done + 1).drop_last() =~= all.take(done));
                assert(views(rest@) =~= all.skip(done + 1));
            }
            if self.should_accept_op(&op) {
                self.store_and_apply_op(op, now);
            }
            proof {
                done = done + 1;
            }
        }
        proof {
            assert(all.take(done) =~= all);
        }
        self.act(StoreAction::DevicesChanged);
    }

    /// Makes a change on this device.
    pub fn record_op(&mut self, payload: SyncOpPayload, now: i64)
        ensures
            final(self)@ == old(self)@.recorded(payload@, now),
    {
        proof {
            reveal(DeviceSyncModel::recorded);
        }
        let seq = up(self.local_seq);
        let hlc_ms = later(now, up(self.last_hlc_ms));
        self.local_seq = seq;
        self.last_hlc_ms = hlc_ms;
        let mut op_id = self.identity.device_id.clone();
        op_id.push_str(":");
        op_id.push_str(signed_decimal_text(seq).as_str());
        let op = SyncOp {
            op_id,
            origin_device_id: self.identity.device_id.clone(),
            seq,
            hlc_ms,
            payload,
        };
        self.store_and_apply_op(op, now);
        self.act(StoreAction::RequestSync);
        self.act(StoreAction::DevicesChanged);
    }
}

/// What a like does to the library.
#[derive(Debug, PartialEq)]
#[allow(inconsistent_fields)]
pub enum LikeEffect {
    SetLocal { track_id: i64, liked: bool },
    ForgetFederated,
    RememberFederated { fed: SyncedFedTrack },
}

#[allow(inconsistent_fields)]
pub enum LikeEffectModel {
    SetLocal { track_id: i64, liked: bool },
    ForgetFederated,
    RememberFederated { fed: SyncedFedTrackModel },
}

impl View for LikeEffect {
    type V = LikeEffectModel;

    open spec fn view(&self) -> LikeEffectModel {
        match *self {
            LikeEffect::SetLocal { track_id, liked } => LikeEffectModel::SetLocal {
                track_id,
                liked,
            },
            LikeEffect::ForgetFederated => LikeEffectModel::ForgetFederated,
            LikeEffect::RememberFederated { fed } => LikeEffectModel::RememberFederated {
                fed: fed@,
            },
        }
    }
}

/// What a like does to the library: a track that is there is marked; one that
/// is not is remembered as it is published, where that is known; and what was
/// remembered is forgotten where it is no longer needed.
pub open spec fn effects_of_like(
    track_id: Option<i64>,
    liked: bool,
    fed: Option<SyncedFedTrackModel>,
) -> Seq<LikeEffectModel> {
    match track_id {
        Some(track_id) => if liked {
            seq![
                LikeEffectModel::SetLocal { track_id, liked },
                LikeEffectModel::ForgetFederated,
            ]
        } else {
            seq![LikeEffectModel::SetLocal { track_id, liked }]
        },
        None => if liked {
            match fed {
                Some(fed) => seq![LikeEffectModel::RememberFederated { fed }],
                None => Seq::empty(),
            }
        } else {
            seq![LikeEffectModel::ForgetFederated]
        },
    }
}

pub fn like_effects(track_id: Option<i64>, liked: bool, fed: Option<SyncedFedTrack>) -> (r: Vec<
    LikeEffect,
>)
    ensures
        views(r@) == effects_of_like(track_id, liked, opt_view(fed)),
{
    let mut r: Vec<LikeEffect> = Vec::new();
    match track_id {
        Some(track_id) => {
            r.push(LikeEffect::SetLocal { track_id, liked });
            if liked {
                r.push(LikeEffect::ForgetFederated);
            }
        },
        None => {
            if liked {
                if let Some(fed) = fed {
                    r.push(LikeEffect::RememberFederated { fed });
                }
            } else {
                r.push(LikeEffect::ForgetFederated);
            }
        },
    }
    assert(views(r@) =~= effects_of_like(track_id, liked, opt_view(fed)));
    r
}

/// How a track on a playlist is published: as it was told, or else as it is
/// remembered.
pub fn federated_item(told: Option<SyncedFedTrack>, remembered: Option<SyncedFedTrack>) -> (r:
    Option<SyncedFedTrack>)
    ensures
        opt_view(r) == (if told is Some {
            opt_view(told)
        } else {
            opt_view(remembered)
        }),
{
    match told {
        Some(fed) => Some(fed),
        None => remembered,
    }
}

} // verus!

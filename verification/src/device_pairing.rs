//! How devices come to know each other, and what they say when they meet.
use crate::actor::{
    DeviceRow, DeviceRowModel, ListenEndReason, PendingPairing, PendingPairingModel, Status,
    StatusModel,
};
use crate::actor_devices::{device_label, normalize_device_name};
use crate::catalog::{Track, TrackModel};
use crate::device_store::{
    device_index, is_active, is_device, later_of, or_epoch, with_acks, with_named_device,
    with_seen_device, DeviceRecord, DeviceRecordModel, Identity, IdentityModel, Invite, InviteModel,
    Pairing, PairingModel, PairingStatus, StoreAction, StoreActionModel, DeviceSync, DeviceSyncModel,
    VectorEntry, VectorEntryModel, DEFAULT_INVITE_TTL_MS, ONLINE_TTL_MS, PAIR_WAIT_MS,
};
use crate::find::{first_where, found, lemma_first_where};
use crate::library::{counted, to_count};
use crate::sort::{kept, lemma_sorted_views, stable_sort, stable_sorted};
use crate::sync_ops::{
    beginning, blank, clock_time, is_blank, listen_event, listen_of, short_id,
    time_label, DeviceProfile, DeviceProfileModel, SyncOp, SyncOpModel, SyncOpPayload,
    SyncOpPayloadModel, SyncSnapshot, SyncSnapshotModel, DEVICE_SYNC_PROTOCOL_VERSION,
};
use crate::text::{ascii_lower, same_str, str_lt, text_lt, to_ascii_lower};
use crate::views::{opt_view, views};
use crate::wire::{
    content_key, normalize_content_id, DevicePlayback, DevicePlaybackModel, SyncedFedTrack,
    SyncedFedTrackModel,
};
use vstd::prelude::*;

verus! {

broadcast use crate::views::group_views;

/// What a device sends along when it meets another one.
#[derive(Debug, PartialEq)]
pub struct News {
    pub devices: Vec<DeviceProfile>,
    pub vector: Vec<VectorEntry>,
    pub ops: Vec<SyncOp>,
    pub snapshot: SyncSnapshot,
    pub playback: Option<DevicePlayback>,
}

pub struct NewsModel {
    pub devices: Seq<DeviceProfileModel>,
    pub vector: Seq<VectorEntryModel>,
    pub ops: Seq<SyncOpModel>,
    pub snapshot: SyncSnapshotModel,
    pub playback: Option<DevicePlaybackModel>,
}

impl View for News {
    type V = NewsModel;

    open spec fn view(&self) -> NewsModel {
        NewsModel {
            devices: views(self.devices@),
            vector: views(self.vector@),
            ops: views(self.ops@),
            snapshot: self.snapshot@,
            playback: opt_view(self.playback),
        }
    }
}

/// A device asks to join, with an invite. The secret comes as its hash, and the
/// identifier is that of the invite and the device together.
#[derive(Debug, PartialEq)]
pub struct PairRequest {
    pub request_id: String,
    pub invite_id: String,
    pub secret_hash: String,
    pub profile: DeviceProfile,
    pub group_id: Option<String>,
    pub group_active_devices: usize,
    pub news: News,
}

pub struct PairRequestModel {
    pub request_id: Seq<char>,
    pub invite_id: Seq<char>,
    pub secret_hash: Seq<char>,
    pub profile: DeviceProfileModel,
    pub group_id: Option<Seq<char>>,
    pub group_active_devices: usize,
    pub news: NewsModel,
}

impl View for PairRequest {
    type V = PairRequestModel;

    open spec fn view(&self) -> PairRequestModel {
        PairRequestModel {
            request_id: self.request_id@,
            invite_id: self.invite_id@,
            secret_hash: self.secret_hash@,
            profile: self.profile@,
            group_id: opt_view(self.group_id),
            group_active_devices: self.group_active_devices,
            news: self.news@,
        }
    }
}

/// What a device that asks to join is told.
#[derive(Debug, PartialEq)]
#[allow(inconsistent_fields)]
pub enum PairReply {
    InvalidInvite,
    Pending,
    Denied,
    Accepted { group_id: String },
}

#[allow(inconsistent_fields)]
pub enum PairReplyModel {
    InvalidInvite,
    Pending,
    Denied,
    Accepted { group_id: Seq<char> },
}

impl View for PairReply {
    type V = PairReplyModel;

    open spec fn view(&self) -> PairReplyModel {
        match *self {
            PairReply::InvalidInvite => PairReplyModel::InvalidInvite,
            PairReply::Pending => PairReplyModel::Pending,
            PairReply::Denied => PairReplyModel::Denied,
            PairReply::Accepted { group_id } => PairReplyModel::Accepted {
                group_id: group_id@,
            },
        }
    }
}

/// How an attempt to join went.
#[derive(Debug, PartialEq)]
#[allow(inconsistent_fields)]
pub enum PairAttempt {
    Accepted,
    Pending,
    Denied(String),
    Failed(String),
}

#[allow(inconsistent_fields)]
pub enum PairAttemptModel {
    Accepted,
    Pending,
    Denied(Seq<char>),
    Failed(Seq<char>),
}

impl View for PairAttempt {
    type V = PairAttemptModel;

    open spec fn view(&self) -> PairAttemptModel {
        match *self {
            PairAttempt::Accepted => PairAttemptModel::Accepted,
            PairAttempt::Pending => PairAttemptModel::Pending,
            PairAttempt::Denied(x) => PairAttemptModel::Denied(x@),
            PairAttempt::Failed(x) => PairAttemptModel::Failed(x@),
        }
    }
}

/// What follows from an attempt to join.
#[derive(Debug, PartialEq)]
#[allow(inconsistent_fields)]
pub enum PairStep {
    Joined(String),
    Retry,
    GiveUp(String),
}

#[allow(inconsistent_fields)]
pub enum PairStepModel {
    Joined(Seq<char>),
    Retry,
    GiveUp(Seq<char>),
}

impl View for PairStep {
    type V = PairStepModel;

    open spec fn view(&self) -> PairStepModel {
        match *self {
            PairStep::Joined(x) => PairStepModel::Joined(x@),
            PairStep::Retry => PairStepModel::Retry,
            PairStep::GiveUp(x) => PairStepModel::GiveUp(x@),
        }
    }
}

/// Whether a device was seen so lately that it counts as present.
pub open spec fn is_present(last_seen_ms: Option<i64>, now: i64) -> bool {
    last_seen_ms matches Some(seen) && now - seen <= ONLINE_TTL_MS
}

pub open spec fn device_row(device: DeviceRecordModel, own: Seq<char>, now: i64) -> DeviceRowModel {
    DeviceRowModel {
        id: device.device_id,
        name: device.name,
        client_version: device.client_version,
        is_self: device.device_id == own,
        online: device.device_id == own || is_present(device.last_seen_ms, now),
        revoked: false,
    }
}

pub open spec fn active_rows(devices: Seq<DeviceRecordModel>, own: Seq<char>, now: i64) -> Seq<
    DeviceRowModel,
>
    decreases devices.len(),
{
    if devices.len() == 0 {
        Seq::empty()
    } else {
        let before = active_rows(devices.drop_last(), own, now);
        if is_active(devices.last()) {
            before.push(device_row(devices.last(), own, now))
        } else {
            before
        }
    }
}

/// By name, whatever its case, and then by identifier.
pub open spec fn listed_before() -> spec_fn(DeviceRowModel, DeviceRowModel) -> bool {
    |a: DeviceRowModel, b: DeviceRowModel|
        if ascii_lower(a.name) != ascii_lower(b.name) {
            text_lt(ascii_lower(a.name), ascii_lower(b.name))
        } else {
            text_lt(a.id, b.id)
        }
}

pub open spec fn pending_now() -> spec_fn(PairingModel) -> bool {
    |pairing: PairingModel| pairing.status == PairingStatus::Pending
}

pub open spec fn asked_before() -> spec_fn(PairingModel, PairingModel) -> bool {
    |a: PairingModel, b: PairingModel| a.created_at_ms < b.created_at_ms
}

pub open spec fn pending_row(pairing: PairingModel) -> PendingPairingModel {
    PendingPairingModel {
        request_id: pairing.request_id,
        device_id: pairing.device_id,
        name: pairing.name,
        client_version: pairing.client_version,
        requester_group_id: pairing.requester_group_id,
        requester_group_active_devices: counted(pairing.requester_group_active_devices),
    }
}

pub open spec fn pending_rows(pairings: Seq<PairingModel>) -> Seq<PendingPairingModel> {
    Seq::new(pairings.len(), |i: int| pending_row(pairings[i]))
}

/// What a device says of a device it trusts.
pub open spec fn told_of(device: DeviceRecordModel) -> DeviceProfileModel {
    DeviceProfileModel {
        device_id: device.device_id,
        name: device.name,
        client_version: device.client_version,
        protocol_version: device.protocol_version,
        endpoint_id: device.endpoint_id,
        endpoint_ticket: device.endpoint_ticket,
        revoked: device.revoked_at_ms is Some,
        revoke_cutoff_seq: device.revoke_cutoff_seq,
        updated_at_ms: later_of(
            later_of(or_epoch(device.last_seen_ms), or_epoch(device.trusted_at_ms)),
            or_epoch(device.revoked_at_ms),
        ),
    }
}

pub open spec fn trusted_profiles(devices: Seq<DeviceRecordModel>) -> Seq<DeviceProfileModel>
    decreases devices.len(),
{
    if devices.len() == 0 {
        Seq::empty()
    } else {
        let before = trusted_profiles(devices.drop_last());
        if devices.last().trusted_at_ms is Some {
            before.push(told_of(devices.last()))
        } else {
            before
        }
    }
}

pub open spec fn is_invite(id: Seq<char>) -> spec_fn(InviteModel) -> bool {
    |invite: InviteModel| invite.invite_id == id
}

pub open spec fn is_request(id: Seq<char>) -> spec_fn(PairingModel) -> bool {
    |pairing: PairingModel| pairing.request_id == id
}

pub open spec fn used(invites: Seq<InviteModel>, id: Seq<char>, now: i64) -> Seq<InviteModel> {
    let i = first_where(invites, is_invite(id));
    if i < invites.len() {
        invites.update(i, InviteModel { used_at_ms: Some(now), ..invites[i] })
    } else {
        invites
    }
}

/// A group that is named, where the name is not blank.
pub open spec fn named_group(group: Option<Seq<char>>) -> Option<Seq<char>> {
    match group {
        Some(group) => if is_blank(group) {
            None
        } else {
            Some(group)
        },
        None => None,
    }
}

pub open spec fn at_least_one(n: usize) -> i64 {
    if n < 1 {
        1
    } else if n > i64::MAX {
        i64::MAX
    } else {
        n as i64
    }
}

/// A request to join that is waiting for an answer.
pub open spec fn waiting(request: PairRequestModel, now: i64) -> PairingModel {
    PairingModel {
        request_id: request.request_id,
        device_id: request.profile.device_id,
        name: request.profile.name,
        client_version: request.profile.client_version,
        endpoint_id: request.profile.endpoint_id,
        endpoint_ticket: request.profile.endpoint_ticket,
        invite_id: request.invite_id,
        created_at_ms: now,
        answered_at_ms: None,
        status: PairingStatus::Pending,
        requester_group_id: named_group(request.group_id),
        requester_group_active_devices: at_least_one(request.group_active_devices),
        requester_devices: request.news.devices,
        use_requester_group: false,
    }
}

/// What an accepted device said of itself when it asked.
pub open spec fn requester_profile(pairing: PairingModel, now: i64) -> DeviceProfileModel {
    DeviceProfileModel {
        device_id: pairing.device_id,
        name: pairing.name,
        client_version: pairing.client_version,
        protocol_version: DEVICE_SYNC_PROTOCOL_VERSION,
        endpoint_id: pairing.endpoint_id,
        endpoint_ticket: pairing.endpoint_ticket,
        revoked: false,
        revoke_cutoff_seq: None,
        updated_at_ms: now,
    }
}

impl DeviceSyncModel {
    pub open spec fn in_group(self, group_id: Seq<char>) -> Self {
        DeviceSyncModel { identity: IdentityModel { group_id, ..self.identity }, ..self }
    }

    pub open spec fn noted_sync(self, label: Seq<char>) -> Self {
        DeviceSyncModel {
            last_sync: if label.len() == 0 {
                None
            } else {
                Some(label)
            },
            ..self
        }
    }

    pub open spec fn status(self, now: i64) -> StatusModel {
        StatusModel {
            this_device_id: self.identity.device_id,
            this_device_name: self.identity.name,
            group_id: self.identity.group_id,
            devices: stable_sorted(
                active_rows(self.devices, self.identity.device_id, now),
                listed_before(),
            ),
            pending: pending_rows(stable_sorted(kept(self.pairings, pending_now()), asked_before())),
            last_sync: self.last_sync,
            error: self.last_error,
        }
    }

    /// What this device says of itself.
    pub open spec fn own_profile(self, ticket: Seq<char>, endpoint_id: Seq<char>, now: i64) -> DeviceProfileModel {
        DeviceProfileModel {
            device_id: self.identity.device_id,
            name: self.identity.name,
            client_version: self.identity.client_version,
            protocol_version: DEVICE_SYNC_PROTOCOL_VERSION,
            endpoint_id,
            endpoint_ticket: ticket,
            revoked: false,
            revoke_cutoff_seq: None,
            updated_at_ms: now,
        }
    }

    pub open spec fn trusts(self, device_id: Seq<char>) -> bool {
        device_id == self.identity.device_id || (found(self.devices, is_device(device_id)) matches Some(
            device,
        ) && is_active(device))
    }

    /// Whether a request to join comes with an invite that holds: given out by
    /// this device, not expired, with the right secret, and not used, except by
    /// a request that was accepted.
    pub open spec fn honours(
        self,
        invite_id: Seq<char>,
        secret_hash: Seq<char>,
        request_id: Seq<char>,
        now: i64,
    ) -> bool {
        match found(self.invites, is_invite(invite_id)) {
            None => false,
            Some(invite) => invite.expires_at_ms >= now && invite.secret_hash == secret_hash && (
            invite.used_at_ms is None || (found(self.pairings, is_request(request_id)) matches Some(
                pairing,
            ) && pairing.status == PairingStatus::Accepted)),
        }
    }

    /// What another device sends along arrives.
    #[verifier::opaque]
    pub open spec fn with_news(self, news: NewsModel, now: i64) -> Self {
        let told = self.with_snapshot(news.snapshot).with_ops(news.ops, now);
        match news.playback {
            Some(playback) => told.with_playback(playback),
            None => told,
        }
    }

    pub open spec fn with_peer_vector(self, peer: Seq<char>, vector: Seq<VectorEntryModel>, now: i64) -> Self {
        DeviceSyncModel { acks: with_acks(self.acks, peer, vector, now), ..self }
    }

    /// The listener answers a request to join. Only a request that waits can be
    /// answered; one that is accepted makes its device trusted, in this group or
    /// in its own.
    pub open spec fn answered(self, request_id: Seq<char>, accept: bool, use_group: bool, now: i64) -> Self {
        let i = first_where(self.pairings, is_request(request_id));
        if i < self.pairings.len() && self.pairings[i].status == PairingStatus::Pending {
            let pairing = self.pairings[i];
            let answered = DeviceSyncModel {
                pairings: self.pairings.update(
                    i,
                    PairingModel {
                        status: if accept {
                            PairingStatus::Accepted
                        } else {
                            PairingStatus::Denied
                        },
                        answered_at_ms: Some(now),
                        use_requester_group: use_group,
                        ..pairing
                    },
                ),
                ..self
            };
            if accept {
                let grouped = if use_group {
                    (match named_group(pairing.requester_group_id) {
                        Some(group) => answered.in_group(group),
                        None => answered,
                    }).with_profiles(pairing.requester_devices, now)
                } else {
                    answered
                };
                grouped.with_profile(requester_profile(pairing, now), true, now).recorded(
                    SyncOpPayloadModel::DeviceTrusted { target_device_id: pairing.device_id },
                    now,
                )
            } else {
                answered
            }
        } else {
            self
        }.act(StoreActionModel::DevicesChanged)
    }

    /// A device asks to join, and the request is remembered.
    pub open spec fn with_request(self, request: PairRequestModel, now: i64) -> Self {
        if first_where(self.pairings, is_request(request.request_id)) < self.pairings.len() {
            self
        } else {
            DeviceSyncModel { pairings: self.pairings.push(waiting(request, now)), ..self }
        }.act(StoreActionModel::DevicesChanged)
    }

    /// What a device that asks to join is told.
    pub open spec fn pair_reply(self, request: PairRequestModel, now: i64) -> PairReplyModel {
        if !self.honours(request.invite_id, request.secret_hash, request.request_id, now) {
            PairReplyModel::InvalidInvite
        } else {
            let pairings = self.with_request(request, now).pairings;
            let pairing = pairings[first_where(pairings, is_request(request.request_id))];
            match pairing.status {
                PairingStatus::Pending => PairReplyModel::Pending,
                PairingStatus::Denied => PairReplyModel::Denied,
                PairingStatus::Accepted => PairReplyModel::Accepted {
                    group_id: if pairing.use_requester_group && named_group(
                        request.group_id,
                    ) is Some {
                        named_group(request.group_id)->0
                    } else {
                        self.identity.group_id
                    },
                },
            }
        }
    }

    /// A device asks to join. Once it was accepted, it is trusted, and what it
    /// sends along is taken.
    #[verifier::opaque]
    pub open spec fn with_pair_request(self, request: PairRequestModel, now: i64) -> Self {
        match self.pair_reply(request, now) {
            PairReplyModel::InvalidInvite => self,
            PairReplyModel::Pending => self.with_request(request, now),
            PairReplyModel::Denied => self.with_request(request, now),
            PairReplyModel::Accepted { group_id } => {
                let asked = self.with_request(request, now);
                let pairing = asked.pairings[first_where(
                    asked.pairings,
                    is_request(request.request_id),
                )];
                let grouped = if pairing.use_requester_group && named_group(request.group_id) is Some {
                    asked.in_group(group_id).with_profiles(request.news.devices, now)
                } else {
                    asked
                };
                let met = grouped.with_profile(request.profile, true, now).with_news(
                    request.news,
                    now,
                ).with_peer_vector(request.profile.device_id, request.news.vector, now);
                DeviceSyncModel { invites: used(met.invites, request.invite_id, now), ..met }
            },
        }
    }

    /// Whether a device that says hello is listened to: one of the same group
    /// that is trusted.
    pub open spec fn welcomes(self, group_id: Seq<char>, device_id: Seq<char>) -> bool {
        group_id == self.identity.group_id && self.trusts(device_id)
    }

    /// A trusted device says hello.
    #[verifier::opaque]
    pub open spec fn with_hello(
        self,
        profile: DeviceProfileModel,
        endpoint_id: Seq<char>,
        news: NewsModel,
        now: i64,
    ) -> Self {
        let met = self.with_profile(profile, false, now).with_profiles(
            news.devices,
            now,
        ).with_news(news, now).with_peer_vector(profile.device_id, news.vector, now);
        DeviceSyncModel {
            devices: with_seen_device(met.devices, profile.device_id, endpoint_id, now),
            ..met
        }
    }

    /// The device that invited this one lets it in.
    #[verifier::opaque]
    pub open spec fn joined(
        self,
        inviter: Seq<char>,
        group_id: Seq<char>,
        profile: Option<DeviceProfileModel>,
        news: NewsModel,
        now: i64,
    ) -> Self {
        let grouped = self.in_group(group_id);
        let known = match profile {
            Some(profile) => grouped.with_profile(profile, true, now),
            None => grouped,
        };
        known.with_profiles(news.devices, now).with_news(news, now).recorded(
            SyncOpPayloadModel::DeviceTrusted { target_device_id: inviter },
            now,
        ).with_peer_vector(inviter, news.vector, now).noted_sync(paired_label(now)).act(
            StoreActionModel::DevicesChanged,
        )
    }

    /// A device that was greeted answers.
    #[verifier::opaque]
    pub open spec fn synced(
        self,
        device_id: Seq<char>,
        endpoint_id: Seq<char>,
        news: NewsModel,
        now: i64,
    ) -> Self {
        let met = self.with_profiles(news.devices, now).with_news(news, now).with_peer_vector(
            device_id,
            news.vector,
            now,
        );
        DeviceSyncModel {
            devices: with_seen_device(met.devices, device_id, endpoint_id, now),
            ..met
        }.noted_sync(synced_label(device_id, now))
    }

    /// This device gets a name.
    #[verifier::opaque]
    pub open spec fn named(
        self,
        name: Seq<char>,
        address: Option<(Seq<char>, Seq<char>)>,
        now: i64,
    ) -> Self {
        let name = device_label(name);
        let renamed = DeviceSyncModel {
            identity: IdentityModel { name, ..self.identity },
            devices: with_named_device(
                self.devices,
                self.identity.device_id,
                name,
                self.identity.client_version,
            ),
            ..self
        };
        match address {
            Some((ticket, endpoint_id)) => renamed.recorded(
                SyncOpPayloadModel::DeviceProfileSet {
                    name,
                    client_version: self.identity.client_version,
                    endpoint_ticket: ticket,
                    endpoint_id,
                },
                now,
            ),
            None => renamed.act(StoreActionModel::RequestSync).act(
                StoreActionModel::DevicesChanged,
            ),
        }
    }

    /// A listen is remembered, if it is worth it.
    pub open spec fn listened(
        self,
        listen_id: Seq<char>,
        track: TrackModel,
        started_at_ms: i64,
        listened_ms: i64,
        reason: ListenEndReason,
        counts: bool,
        now: i64,
    ) -> Self {
        match listen_of(listen_id, track, started_at_ms, listened_ms, reason) {
            Some(event) => if counts {
                self.recorded(SyncOpPayloadModel::ListenRecorded { event }, now)
            } else {
                self
            },
            None => self,
        }
    }

    pub open spec fn like_recorded(
        self,
        content_id: Seq<char>,
        liked: bool,
        fed: Option<SyncedFedTrackModel>,
        now: i64,
    ) -> Self {
        match content_key(content_id) {
            Some(content_id) => self.recorded(
                SyncOpPayloadModel::TrackLikeSet { content_id, liked, fed },
                now,
            ),
            None => self,
        }
    }

    pub open spec fn removals_recorded(
        self,
        playlist_id: Seq<char>,
        ids: Seq<Seq<char>>,
        now: i64,
    ) -> Self
        decreases ids.len(),
    {
        if ids.len() == 0 {
            self
        } else {
            let before = self.removals_recorded(playlist_id, ids.drop_last(), now);
            match content_key(ids.last()) {
                Some(content_id) => before.recorded(
                    SyncOpPayloadModel::PlaylistTrackRemoved { playlist_id, content_id },
                    now,
                ),
                None => before,
            }
        }
    }
}

pub open spec fn paired_label(now: i64) -> Seq<char> {
    "paired · "@ + clock_time(now)
}

pub open spec fn synced_label(device_id: Seq<char>, now: i64) -> Seq<char> {
    clock_time(now) + " · "@ + beginning(device_id, 10)
}

/// A store for a device that belongs to no group but its own yet.
pub open spec fn founded(identity: IdentityModel, now: i64) -> DeviceSyncModel {
    DeviceSyncModel {
        identity,
        local_seq: 0,
        last_hlc_ms: 0,
        last_sync: None,
        last_error: None,
        devices: seq![
            DeviceRecordModel {
                device_id: identity.device_id,
                name: identity.name,
                client_version: identity.client_version,
                protocol_version: DEVICE_SYNC_PROTOCOL_VERSION,
                endpoint_id: Seq::empty(),
                endpoint_ticket: Seq::empty(),
                trusted_at_ms: Some(now),
                last_seen_ms: Some(now),
                revoked_at_ms: None,
                revoked_by: None,
                revoke_cutoff_seq: None,
            },
        ],
        invites: Seq::empty(),
        pairings: Seq::empty(),
        ops: Seq::empty(),
        vector: Seq::empty(),
        acks: Seq::empty(),
        likes: Seq::empty(),
        playlists: Seq::empty(),
        items: Seq::empty(),
        obeyed: Seq::empty(),
        local_playback: None,
        remote_playback: Seq::empty(),
        outbox: Seq::empty(),
    }
}

fn present(last_seen_ms: Option<i64>, now: i64) -> (r: bool)
    ensures
        r == is_present(last_seen_ms, now),
{
    match last_seen_ms {
        Some(seen) => if seen >= 0 {
            now <= ONLINE_TTL_MS || now - ONLINE_TTL_MS <= seen
        } else {
            now < 0 && now - seen <= ONLINE_TTL_MS || now >= 0 && now <= ONLINE_TTL_MS && seen >= now
                - ONLINE_TTL_MS
        },
        None => false,
    }
}

fn rows_of_active(devices: &Vec<DeviceRecord>, own: &String, now: i64) -> (r: Vec<DeviceRow>)
    ensures
        views(r@) == active_rows(views(devices@), own@, now),
{
    let ghost all = views(devices@);
    let mut r: Vec<DeviceRow> = Vec::new();
    let mut i: usize = 0;
    while i < devices.len()
        invariant
            i <= devices.len() == all.len(),
            all == views(devices@),
            views(r@) == active_rows(all.take(i as int), own@, now),
        decreases devices.len() - i,
    {
        proof {
            assert(all.take(i + 1).drop_last() =~= all.take(i as int));
        }
        let device = &devices[i];
        if device.trusted_at_ms.is_some() && device.revoked_at_ms.is_none() {
            let is_self = device.device_id == *own;
            r.push(
                DeviceRow {
                    id: device.device_id.clone(),
                    name: device.name.clone(),
                    client_version: device.client_version.clone(),
                    is_self,
                    online: is_self || present(device.last_seen_ms, now),
                    revoked: false,
                },
            );
        }
        i += 1;
    }
    proof {
        assert(all.take(i as int) =~= all);
    }
    r
}

fn latest_of(device: &DeviceRecord) -> (r: i64)
    ensures
        r == told_of(device@).updated_at_ms,
{
    let seen: i64 = device.last_seen_ms.unwrap_or(0);
    let trusted: i64 = device.trusted_at_ms.unwrap_or(0);
    let revoked: i64 = device.revoked_at_ms.unwrap_or(0);
    let r: i64 = if seen >= trusted {
        seen
    } else {
        trusted
    };
    if r >= revoked {
        r
    } else {
        revoked
    }
}

fn request_index(pairings: &Vec<Pairing>, id: &str) -> (r: usize)
    ensures
        r == first_where(views(pairings@), is_request(id@)),
        r <= pairings.len(),
{
    let ghost all = views(pairings@);
    let ghost p = is_request(id@);
    let mut i: usize = 0;
    while i < pairings.len()
        invariant
            i <= pairings.len() == all.len(),
            all == views(pairings@),
            p == is_request(id@),
            forall|j: int| 0 <= j < i ==> !p(#[trigger] all[j]),
        decreases pairings.len() - i,
    {
        if same_str(pairings[i].request_id.as_str(), id) {
            proof {
                lemma_first_where(all, p, i as int);
            }
            return i;
        }
        i += 1;
    }
    proof {
        lemma_first_where(all, p, i as int);
    }
    i
}

fn invite_index(invites: &Vec<Invite>, id: &str) -> (r: usize)
    ensures
        r == first_where(views(invites@), is_invite(id@)),
        r <= invites.len(),
{
    let ghost all = views(invites@);
    let ghost p = is_invite(id@);
    let mut i: usize = 0;
    while i < invites.len()
        invariant
            i <= invites.len() == all.len(),
            all == views(invites@),
            p == is_invite(id@),
            forall|j: int| 0 <= j < i ==> !p(#[trigger] all[j]),
        decreases invites.len() - i,
    {
        if same_str(invites[i].invite_id.as_str(), id) {
            proof {
                lemma_first_where(all, p, i as int);
            }
            return i;
        }
        i += 1;
    }
    proof {
        lemma_first_where(all, p, i as int);
    }
    i
}

fn group_named(group: &Option<String>) -> (r: Option<String>)
    ensures
        opt_view(r) == named_group(opt_view(*group)),
{
    match group {
        Some(group) => if blank(group.as_str()) {
            None
        } else {
            Some(group.clone())
        },
        None => None,
    }
}

fn waiting_request(request: &PairRequest, now: i64) -> (r: Pairing)
    ensures
        r@ == waiting(request@, now),
{
    let n: usize = request.group_active_devices;
    let requester_devices = request.news.devices.clone();
    proof {
        assert(views(requester_devices@) =~= request@.news.devices);
    }
    Pairing {
        request_id: request.request_id.clone(),
        device_id: request.profile.device_id.clone(),
        name: request.profile.name.clone(),
        client_version: request.profile.client_version.clone(),
        endpoint_id: request.profile.endpoint_id.clone(),
        endpoint_ticket: request.profile.endpoint_ticket.clone(),
        invite_id: request.invite_id.clone(),
        created_at_ms: now,
        answered_at_ms: None,
        status: PairingStatus::Pending,
        requester_group_id: group_named(&request.group_id),
        requester_group_active_devices: if n < 1 {
            1
        } else if n as u64 > i64::MAX as u64 {
            i64::MAX
        } else {
            n as i64
        },
        requester_devices,
        use_requester_group: false,
    }
}

/// How long to keep asking to join: a while, but no longer than the invite
/// holds. One that holds no longer is not used at all.
pub fn pair_deadline(now: i64, expires_at_ms: i64) -> (r: Result<i64, String>)
    requires
        now + PAIR_WAIT_MS <= i64::MAX,
    ensures
        match r {
            Ok(deadline) => now <= expires_at_ms && deadline == (if now + PAIR_WAIT_MS
                <= expires_at_ms {
                now + PAIR_WAIT_MS
            } else {
                expires_at_ms as int
            }),
            Err(message) => now > expires_at_ms && message@ == "device invite expired"@,
        },
{
    if now > expires_at_ms {
        Err("device invite expired".to_owned())
    } else if now + PAIR_WAIT_MS <= expires_at_ms {
        Ok(now + PAIR_WAIT_MS)
    } else {
        Ok(expires_at_ms)
    }
}

/// What follows from an attempt to join: waiting and failing are no answers
/// until the time is up.
pub open spec fn pair_step(attempt: PairAttemptModel, inviter: Seq<char>, is_late: bool) -> PairStepModel {
    match attempt {
        PairAttemptModel::Accepted => PairStepModel::Joined(
            "Connected to "@ + beginning(inviter, 10),
        ),
        PairAttemptModel::Denied(message) => PairStepModel::GiveUp(message),
        PairAttemptModel::Pending => if is_late {
            PairStepModel::GiveUp("pairing timed out"@)
        } else {
            PairStepModel::Retry
        },
        PairAttemptModel::Failed(error) => if is_late {
            PairStepModel::GiveUp("pairing timed out: "@ + error)
        } else {
            PairStepModel::Retry
        },
    }
}

pub fn after_pair_attempt(attempt: PairAttempt, inviter: &str, now: i64, deadline: i64) -> (r:
    PairStep)
    ensures
        r@ == pair_step(attempt@, inviter@, now >= deadline),
{
    match attempt {
        PairAttempt::Accepted => {
            let mut message = "Connected to ".to_owned();
            message.push_str(short_id(inviter).as_str());
            PairStep::Joined(message)
        },
        PairAttempt::Denied(message) => PairStep::GiveUp(message),
        PairAttempt::Pending => if now >= deadline {
            PairStep::GiveUp("pairing timed out".to_owned())
        } else {
            PairStep::Retry
        },
        PairAttempt::Failed(error) => if now >= deadline {
            let mut message = "pairing timed out: ".to_owned();
            message.push_str(error.as_str());
            PairStep::GiveUp(message)
        } else {
            PairStep::Retry
        },
    }
}

/// How an answer to a request to join is taken, other than one that lets in.
pub fn refused_attempt(pending: bool, error: Option<String>) -> (r: PairAttempt)
    ensures
        r@ == (if pending {
            PairAttemptModel::Pending
        } else {
            match opt_view(error) {
                Some(error) => PairAttemptModel::Denied(error),
                None => PairAttemptModel::Denied("pairing denied"@),
            }
        }),
{
    if pending {
        PairAttempt::Pending
    } else {
        PairAttempt::Denied(
            match error {
                Some(error) => error,
                None => "pairing denied".to_owned(),
            },
        )
    }
}

impl PairReply {
    /// What a device that is not let in is told, and whether it may ask again.
    pub fn refusal(&self) -> (r: Option<(&'static str, bool)>)
        ensures
            match r {
                None => self is Accepted,
                Some((message, pending)) => match self@ {
                    PairReplyModel::InvalidInvite => message@ == "invalid or expired invite"@
                        && !pending,
                    PairReplyModel::Pending => message@ == "pairing pending"@ && pending,
                    PairReplyModel::Denied => message@ == "pairing denied"@ && !pending,
                    PairReplyModel::Accepted { .. } => false,
                },
            },
    {
        match self {
            PairReply::InvalidInvite => Some(("invalid or expired invite", false)),
            PairReply::Pending => Some(("pairing pending", true)),
            PairReply::Denied => Some(("pairing denied", false)),
            PairReply::Accepted { .. } => None,
        }
    }
}

/// The name a device goes by until it is given one.
pub fn default_device_name(os: &str) -> (r: String)
    ensures
        r@ == "Furumi on "@ + os@,
{
    let mut r = "Furumi on ".to_owned();
    r.push_str(os);
    r
}

/// A device to greet, and how it is reached.
#[derive(Debug, PartialEq)]
pub struct StoredDevice {
    pub id: String,
    pub endpoint_id: String,
    pub ticket: String,
}

pub struct StoredDeviceModel {
    pub id: Seq<char>,
    pub endpoint_id: Seq<char>,
    pub ticket: Seq<char>,
}

impl View for StoredDevice {
    type V = StoredDeviceModel;

    open spec fn view(&self) -> StoredDeviceModel {
        StoredDeviceModel {
            id: self.id@,
            endpoint_id: self.endpoint_id@,
            ticket: self.ticket@,
        }
    }
}

/// The devices to greet: all that are trusted and can be reached, but for this
/// one.
pub open spec fn reachable(devices: Seq<DeviceRecordModel>, own: Seq<char>) -> Seq<StoredDeviceModel>
    decreases devices.len(),
{
    if devices.len() == 0 {
        Seq::empty()
    } else {
        let before = reachable(devices.drop_last(), own);
        let device = devices.last();
        if is_active(device) && device.device_id != own && device.endpoint_ticket.len() > 0 {
            before.push(
                StoredDeviceModel {
                    id: device.device_id,
                    endpoint_id: device.endpoint_id,
                    ticket: device.endpoint_ticket,
                },
            )
        } else {
            before
        }
    }
}

/// Why a chosen device cannot be greeted.
pub fn unavailable_device(device_id: &str) -> (r: String)
    ensures
        r@ == "device "@ + beginning(device_id@, 10) + " is unavailable"@,
{
    let mut r = "device ".to_owned();
    r.push_str(short_id(device_id).as_str());
    r.push_str(" is unavailable");
    r
}

impl DeviceSync {
    pub fn active_remote_devices(&self) -> (r: Vec<StoredDevice>)
        ensures
            views(r@) == reachable(self@.devices, self@.identity.device_id),
    {
        let ghost all = views(self.devices@);
        let mut r: Vec<StoredDevice> = Vec::new();
        let mut i: usize = 0;
        while i < self.devices.len()
            invariant
                i <= self.devices.len() == all.len(),
                all == views(self.devices@),
                views(r@) == reachable(all.take(i as int), self@.identity.device_id),
            decreases self.devices.len() - i,
        {
            proof {
                assert(all.take(i + 1).drop_last() =~= all.take(i as int));
            }
            let device = &self.devices[i];
            if device.trusted_at_ms.is_some() && device.revoked_at_ms.is_none() && device.device_id
                != self.identity.device_id && !device.endpoint_ticket.as_str().is_empty() {
                r.push(
                    StoredDevice {
                        id: device.device_id.clone(),
                        endpoint_id: device.endpoint_id.clone(),
                        ticket: device.endpoint_ticket.clone(),
                    },
                );
            }
            i += 1;
        }
        proof {
            assert(all.take(i as int) =~= all);
        }
        r
    }
}

impl DeviceSync {
    /// A store for a new device.
    pub fn create(identity: Identity, now: i64) -> (r: Self)
        ensures
            r@ == founded(identity@, now),
    {
        let mut devices: Vec<DeviceRecord> = Vec::new();
        devices.push(
            DeviceRecord {
                device_id: identity.device_id.clone(),
                name: identity.name.clone(),
                client_version: identity.client_version.clone(),
                protocol_version: DEVICE_SYNC_PROTOCOL_VERSION,
                endpoint_id: String::new(),
                endpoint_ticket: String::new(),
                trusted_at_ms: Some(now),
                last_seen_ms: Some(now),
                revoked_at_ms: None,
                revoked_by: None,
                revoke_cutoff_seq: None,
            },
        );
        let r = DeviceSync {
            identity,
            local_seq: 0,
            last_hlc_ms: 0,
            last_sync: None,
            last_error: None,
            devices,
            invites: Vec::new(),
            pairings: Vec::new(),
            ops: Vec::new(),
            vector: Vec::new(),
            acks: Vec::new(),
            likes: Vec::new(),
            playlists: Vec::new(),
            items: Vec::new(),
            obeyed: Vec::new(),
            local_playback: None,
            remote_playback: Vec::new(),
            outbox: Vec::new(),
        };
        proof {
            assert(r@.devices =~= founded(identity@, now).devices);
            assert(views(r.likes@) =~= Seq::empty());
            assert(views(r.playlists@) =~= Seq::empty());
            assert(views(r.items@) =~= Seq::empty());
        }
        r
    }

    fn set_group_id(&mut self, group_id: String)
        ensures
            final(self)@ == old(self)@.in_group(group_id@),
    {
        self.identity.group_id = group_id;
    }

    fn note_sync(&mut self, label: String)
        ensures
            final(self)@ == old(self)@.noted_sync(label@),
    {
        if label.as_str().is_empty() {
            self.last_sync = None;
        } else {
            self.last_sync = Some(label);
        }
    }

    /// Takes note of what went wrong, or that nothing did.
    pub fn note_error(&mut self, error: String)
        ensures
            final(self)@ == (DeviceSyncModel {
                last_error: if error@.len() == 0 {
                    None
                } else {
                    Some(error@)
                },
                ..old(self)@
            }),
    {
        if error.as_str().is_empty() {
            self.last_error = None;
        } else {
            self.last_error = Some(error);
        }
    }

    /// The group as it is shown.
    pub fn status(&self, now: i64) -> (r: Status)
        ensures
            r@ == self@.status(now),
    {
        let devices = rows_of_active(&self.devices, &self.identity.device_id, now);
        let ghost lt = |a: DeviceRow, b: DeviceRow| listed_before()(a@, b@);
        let before = |a: &DeviceRow, b: &DeviceRow| -> (y: bool)
            ensures
                y == lt(*a, *b),
            {
                let left = to_ascii_lower(a.name.as_str());
                let right = to_ascii_lower(b.name.as_str());
                if left != right {
                    str_lt(left.as_str(), right.as_str())
                } else {
                    str_lt(a.id.as_str(), b.id.as_str())
                }
            };
        proof {
            lemma_sorted_views(devices@, lt, listed_before());
        }
        let devices = stable_sort(devices, before, Ghost(lt));
        Status {
            this_device_id: self.identity.device_id.clone(),
            this_device_name: self.identity.name.clone(),
            group_id: self.identity.group_id.clone(),
            devices,
            pending: self.pending(),
            last_sync: self.last_sync.clone(),
            error: self.last_error.clone(),
        }
    }

    fn pending(&self) -> (r: Vec<PendingPairing>)
        ensures
            views(r@) == pending_rows(
                stable_sorted(kept(self@.pairings, pending_now()), asked_before()),
            ),
    {
        let ghost all = views(self.pairings@);
        let mut waiting: Vec<&Pairing> = Vec::new();
        let mut i: usize = 0;
        while i < self.pairings.len()
            invariant
                i <= self.pairings.len() == all.len(),
                all == views(self.pairings@),
                views(waiting@) == kept(all.take(i as int), pending_now()),
            decreases self.pairings.len() - i,
        {
            proof {
                assert(all.take(i + 1).drop_last() =~= all.take(i as int));
            }
            if self.pairings[i].status == PairingStatus::Pending {
                waiting.push(&self.pairings[i]);
            }
            i += 1;
        }
        proof {
            assert(all.take(i as int) =~= all);
        }
        let ghost lt = |a: &Pairing, b: &Pairing| asked_before()(a@, b@);
        let before = |a: &&Pairing, b: &&Pairing| -> (y: bool)
            ensures
                y == lt(*a, *b),
            { a.created_at_ms < b.created_at_ms };
        proof {
            lemma_sorted_views(waiting@, lt, asked_before());
        }
        let sorted = stable_sort(waiting, before, Ghost(lt));
        let ghost goal = pending_rows(views(sorted@));
        let mut r: Vec<PendingPairing> = Vec::new();
        let mut i: usize = 0;
        while i < sorted.len()
            invariant
                i <= sorted.len(),
                goal == pending_rows(views(sorted@)),
                views(r@) == goal.take(i as int),
            decreases sorted.len() - i,
        {
            let pairing = sorted[i];
            r.push(
                PendingPairing {
                    request_id: pairing.request_id.clone(),
                    device_id: pairing.device_id.clone(),
                    name: pairing.name.clone(),
                    client_version: pairing.client_version.clone(),
                    requester_group_id: pairing.requester_group_id.clone(),
                    requester_group_active_devices: to_count(
                        pairing.requester_group_active_devices,
                    ),
                },
            );
            i += 1;
            proof {
                assert(views(r@) =~= goal.take(i as int));
            }
        }
        proof {
            assert(views(r@) =~= goal);
        }
        r
    }

    /// What this device says of itself, at an address.
    pub fn own_profile(&self, ticket: &str, endpoint_id: &str, now: i64) -> (r: DeviceProfile)
        ensures
            r@ == self@.own_profile(ticket@, endpoint_id@, now),
    {
        DeviceProfile {
            device_id: self.identity.device_id.clone(),
            name: self.identity.name.clone(),
            client_version: self.identity.client_version.clone(),
            protocol_version: DEVICE_SYNC_PROTOCOL_VERSION,
            endpoint_id: endpoint_id.to_owned(),
            endpoint_ticket: ticket.to_owned(),
            revoked: false,
            revoke_cutoff_seq: None,
            updated_at_ms: now,
        }
    }

    /// What this device says of the devices it trusts.
    pub fn device_profiles(&self) -> (r: Vec<DeviceProfile>)
        ensures
            views(r@) == trusted_profiles(self@.devices),
    {
        let ghost all = views(self.devices@);
        let mut r: Vec<DeviceProfile> = Vec::new();
        let mut i: usize = 0;
        while i < self.devices.len()
            invariant
                i <= self.devices.len() == all.len(),
                all == views(self.devices@),
                views(r@) == trusted_profiles(all.take(i as int)),
            decreases self.devices.len() - i,
        {
            proof {
                assert(all.take(i + 1).drop_last() =~= all.take(i as int));
            }
            let device = &self.devices[i];
            if device.trusted_at_ms.is_some() {
                r.push(
                    DeviceProfile {
                        device_id: device.device_id.clone(),
                        name: device.name.clone(),
                        client_version: device.client_version.clone(),
                        protocol_version: device.protocol_version,
                        endpoint_id: device.endpoint_id.clone(),
                        endpoint_ticket: device.endpoint_ticket.clone(),
                        revoked: device.revoked_at_ms.is_some(),
                        revoke_cutoff_seq: device.revoke_cutoff_seq,
                        updated_at_ms: latest_of(device),
                    },
                );
            }
            i += 1;
        }
        proof {
            assert(all.take(i as int) =~= all);
        }
        r
    }

    pub fn active_device_count(&self) -> (r: usize)
        ensures
            r == active_rows(self@.devices, self@.identity.device_id, 0).len(),
    {
        rows_of_active(&self.devices, &self.identity.device_id, 0).len()
    }

    pub fn is_trusted(&self, device_id: &str) -> (r: bool)
        ensures
            r == self@.trusts(device_id@),
    {
        if same_str(device_id, self.identity.device_id.as_str()) {
            return true;
        }
        let i = device_index(&self.devices, device_id);
        i < self.devices.len() && self.devices[i].trusted_at_ms.is_some()
            && self.devices[i].revoked_at_ms.is_none()
    }

    pub fn publish_playback(&mut self, playback: DevicePlayback, now: i64)
        ensures
            final(self)@ == (DeviceSyncModel {
                local_playback: Some(
                    DevicePlaybackModel {
                        updated_at_ms: if playback.updated_at_ms <= 0 {
                            now
                        } else {
                            playback.updated_at_ms
                        },
                        ..playback@
                    },
                ),
                ..old(self)@
            }),
    {
        let mut playback = playback;
        if playback.updated_at_ms <= 0 {
            playback.updated_at_ms = now;
        }
        self.local_playback = Some(playback);
    }

    /// Gives out an invite, and says until when it holds.
    pub fn create_invite(&mut self, invite_id: String, secret_hash: String, now: i64) -> (r: i64)
        requires
            now + DEFAULT_INVITE_TTL_MS <= i64::MAX,
        ensures
            r == now + DEFAULT_INVITE_TTL_MS,
            final(self)@ == (DeviceSyncModel {
                invites: old(self)@.invites.push(
                    InviteModel {
                        invite_id: invite_id@,
                        secret_hash: secret_hash@,
                        expires_at_ms: r,
                        created_at_ms: now,
                        used_at_ms: None,
                    },
                ),
                ..old(self)@
            }),
    {
        let expires_at_ms: i64 = now + DEFAULT_INVITE_TTL_MS;
        self.invites.push(
            Invite { invite_id, secret_hash, expires_at_ms, created_at_ms: now, used_at_ms: None },
        );
        expires_at_ms
    }

    /// Whether a request to join comes with an invite that holds.
    pub fn valid_pair_request(
        &self,
        invite_id: &str,
        secret_hash: &str,
        request_id: &str,
        now: i64,
    ) -> (r: bool)
        ensures
            r == self@.honours(invite_id@, secret_hash@, request_id@, now),
    {
        let i = invite_index(&self.invites, invite_id);
        if i == self.invites.len() {
            return false;
        }
        if self.invites[i].expires_at_ms < now || !same_str(
            self.invites[i].secret_hash.as_str(),
            secret_hash,
        ) {
            return false;
        }
        if self.invites[i].used_at_ms.is_none() {
            return true;
        }
        let k = request_index(&self.pairings, request_id);
        k < self.pairings.len() && self.pairings[k].status == PairingStatus::Accepted
    }

    fn take_news(
        &mut self,
        ops: Vec<SyncOp>,
        snapshot: SyncSnapshot,
        playback: Option<DevicePlayback>,
        Ghost(news): Ghost<NewsModel>,
        now: i64,
    )
        requires
            news.ops == views(ops@),
            news.snapshot == snapshot@,
            news.playback == opt_view(playback),
        ensures
            final(self)@ == old(self)@.with_news(news, now),
    {
        proof {
            reveal(DeviceSyncModel::with_news);
        }
        self.apply_snapshot(snapshot);
        self.apply_ops(ops, now);
        if let Some(playback) = playback {
            self.apply_playback_snapshot(playback);
        }
    }

    /// Answers a request to join.
    pub fn answer_pairing(&mut self, request_id: &str, accept: bool, use_requester_group: bool, now: i64)
        ensures
            final(self)@ == old(self)@.answered(request_id@, accept, use_requester_group, now),
    {
        let i = request_index(&self.pairings, request_id);
        if i < self.pairings.len() && self.pairings[i].status == PairingStatus::Pending {
            let ghost pairing = self@.pairings[i as int];
            self.pairings[i].status = if accept {
                PairingStatus::Accepted
            } else {
                PairingStatus::Denied
            };
            self.pairings[i].answered_at_ms = Some(now);
            self.pairings[i].use_requester_group = use_requester_group;
            proof {
                assert(views(self.pairings@) =~= old(self)@.pairings.update(
                    i as int,
                    PairingModel {
                        status: if accept {
                            PairingStatus::Accepted
                        } else {
                            PairingStatus::Denied
                        },
                        answered_at_ms: Some(now),
                        use_requester_group,
                        ..pairing
                    },
                ));
            }
            if accept {
                let device_id = self.pairings[i].device_id.clone();
                let profile = DeviceProfile {
                    device_id: self.pairings[i].device_id.clone(),
                    name: self.pairings[i].name.clone(),
                    client_version: self.pairings[i].client_version.clone(),
                    protocol_version: DEVICE_SYNC_PROTOCOL_VERSION,
                    endpoint_id: self.pairings[i].endpoint_id.clone(),
                    endpoint_ticket: self.pairings[i].endpoint_ticket.clone(),
                    revoked: false,
                    revoke_cutoff_seq: None,
                    updated_at_ms: now,
                };
                if use_requester_group {
                    let group = group_named(&self.pairings[i].requester_group_id);
                    let devices = self.pairings[i].requester_devices.clone();
                    proof {
                        assert(views(devices@) =~= pairing.requester_devices);
                    }
                    if let Some(group) = group {
                        self.set_group_id(group);
                    }
                    self.apply_device_profiles(&devices, now);
                }
                self.apply_device_profile(&profile, true, now);
                self.record_op(
                    SyncOpPayload::DeviceTrusted { target_device_id: device_id },
                    now,
                );
            }
        }
        self.act(StoreAction::DevicesChanged);
    }

    /// A device asks to join.
    pub fn handle_pair_request(&mut self, request: PairRequest, now: i64) -> (r: PairReply)
        ensures
            r@ == old(self)@.pair_reply(request@, now),
            final(self)@ == old(self)@.with_pair_request(request@, now),
    {
        proof {
            reveal(DeviceSyncModel::with_pair_request);
        }
        if !self.valid_pair_request(
            request.invite_id.as_str(),
            request.secret_hash.as_str(),
            request.request_id.as_str(),
            now,
        ) {
            return PairReply::InvalidInvite;
        }
        let own_group = self.identity.group_id.clone();
        let known = request_index(&self.pairings, request.request_id.as_str());
        if known == self.pairings.len() {
            self.pairings.push(waiting_request(&request, now));
        }
        self.act(StoreAction::DevicesChanged);
        let i = request_index(&self.pairings, request.request_id.as_str());
        proof {
            let before = old(self)@.pairings;
            let asked = old(self)@.with_request(request@, now).pairings;
            assert(self@ == old(self)@.with_request(request@, now));
            if known == before.len() {
                let p = is_request(request@.request_id);
                crate::find::lemma_first_where_is(before, p);
                assert forall|j: int| 0 <= j < before.len() implies !p(#[trigger] asked[j]) by {
                    assert(!p(before[j]));
                }
                assert(p(asked[before.len() as int]));
                lemma_first_where(asked, p, before.len() as int);
            }
        }
        match self.pairings[i].status {
            PairingStatus::Pending => PairReply::Pending,
            PairingStatus::Denied => PairReply::Denied,
            PairingStatus::Accepted => {
                let group = if self.pairings[i].use_requester_group {
                    group_named(&request.group_id)
                } else {
                    None
                };
                let ghost news = request@.news;
                let News { devices, vector, ops, snapshot, playback } = request.news;
                let reply = match group {
                    Some(group) => {
                        self.set_group_id(group.clone());
                        self.apply_device_profiles(&devices, now);
                        group
                    },
                    None => own_group,
                };
                self.apply_device_profile(&request.profile, true, now);
                self.take_news(ops, snapshot, playback, Ghost(news), now);
                self.note_peer_vector(request.profile.device_id.as_str(), &vector, now);
                let k = invite_index(&self.invites, request.invite_id.as_str());
                if k < self.invites.len() {
                    let ghost before = self@.invites;
                    self.invites[k].used_at_ms = Some(now);
                    proof {
                        assert(self@.invites =~= used(before, request@.invite_id, now));
                    }
                }
                PairReply::Accepted { group_id: reply }
            },
        }
    }

    /// A device says hello. Says why it was not listened to, if it was not.
    pub fn handle_hello(
        &mut self,
        group_id: &str,
        profile: &DeviceProfile,
        endpoint_id: &str,
        news: News,
        now: i64,
    ) -> (r: Option<&'static str>)
        ensures
            match r {
                None => old(self)@.welcomes(group_id@, profile@.device_id) && final(self)@
                    == old(self)@.with_hello(profile@, endpoint_id@, news@, now),
                Some(message) => !old(self)@.welcomes(group_id@, profile@.device_id)
                    && final(self)@ == old(self)@ && message@
                    == "device group mismatch or device is not trusted"@,
            },
    {
        proof {
            reveal(DeviceSyncModel::with_hello);
        }
        if !same_str(group_id, self.identity.group_id.as_str()) || !self.is_trusted(
            profile.device_id.as_str(),
        ) {
            return Some("device group mismatch or device is not trusted");
        }
        let ghost model = news@;
        let News { devices, vector, ops, snapshot, playback } = news;
        self.apply_device_profile(profile, false, now);
        self.apply_device_profiles(&devices, now);
        self.take_news(ops, snapshot, playback, Ghost(model), now);
        self.note_peer_vector(profile.device_id.as_str(), &vector, now);
        self.mark_seen(profile.device_id.as_str(), endpoint_id, now);
        None
    }

    /// This device is let in.
    pub fn join(
        &mut self,
        inviter: &str,
        group_id: String,
        profile: Option<DeviceProfile>,
        news: News,
        now: i64,
    )
        ensures
            final(self)@ == old(self)@.joined(
                inviter@,
                group_id@,
                opt_view(profile),
                news@,
                now,
            ),
    {
        proof {
            reveal(DeviceSyncModel::joined);
        }
        let ghost model = news@;
        let News { devices, vector, ops, snapshot, playback } = news;
        self.set_group_id(group_id);
        if let Some(profile) = profile {
            self.apply_device_profile(&profile, true, now);
        }
        self.apply_device_profiles(&devices, now);
        self.take_news(ops, snapshot, playback, Ghost(model), now);
        self.record_op(
            SyncOpPayload::DeviceTrusted { target_device_id: inviter.to_owned() },
            now,
        );
        self.note_peer_vector(inviter, &vector, now);
        self.note_paired(now);
    }

    /// Takes note that a device has joined.
    pub fn note_paired(&mut self, now: i64)
        ensures
            final(self)@ == old(self)@.noted_sync(paired_label(now)).act(
                StoreActionModel::DevicesChanged,
            ),
    {
        let mut label = "paired · ".to_owned();
        label.push_str(time_label(now).as_str());
        self.note_sync(label);
        self.act(StoreAction::DevicesChanged);
    }

    fn note_synced(&mut self, device_id: &str, now: i64)
        ensures
            final(self)@ == old(self)@.noted_sync(synced_label(device_id@, now)),
    {
        let mut label = time_label(now);
        label.push_str(" · ");
        label.push_str(short_id(device_id).as_str());
        self.note_sync(label);
    }

    /// Takes note that a device that said hello was answered.
    pub fn hello_answered(&mut self, device_id: &str, now: i64)
        ensures
            final(self)@ == old(self)@.noted_sync(synced_label(device_id@, now)).act(
                StoreActionModel::DevicesChanged,
            ),
    {
        self.note_synced(device_id, now);
        self.act(StoreAction::DevicesChanged);
    }

    /// A device that was greeted answers.
    pub fn accept_sync(&mut self, device_id: &str, endpoint_id: &str, news: News, now: i64)
        ensures
            final(self)@ == old(self)@.synced(device_id@, endpoint_id@, news@, now),
    {
        proof {
            reveal(DeviceSyncModel::synced);
        }
        let ghost model = news@;
        let News { devices, vector, ops, snapshot, playback } = news;
        self.apply_device_profiles(&devices, now);
        self.take_news(ops, snapshot, playback, Ghost(model), now);
        self.note_peer_vector(device_id, &vector, now);
        self.mark_seen(device_id, endpoint_id, now);
        self.note_synced(device_id, now);
    }

    /// Names this device; where it can be reached, it tells the others.
    pub fn set_device_name(&mut self, name: &str, address: Option<(String, String)>, now: i64)
        ensures
            final(self)@ == old(self)@.named(
                name@,
                match address {
                    Some((ticket, endpoint_id)) => Some((ticket@, endpoint_id@)),
                    None => None,
                },
                now,
            ),
    {
        proof {
            reveal(DeviceSyncModel::named);
        }
        let name = normalize_device_name(name);
        let client_version = self.identity.client_version.clone();
        let i = device_index(&self.devices, self.identity.device_id.as_str());
        if i < self.devices.len() {
            let ghost before = self@.devices;
            self.devices[i].name = name.clone();
            self.devices[i].client_version = client_version.clone();
            proof {
                assert(self@.devices =~= with_named_device(
                    before,
                    self@.identity.device_id,
                    name@,
                    client_version@,
                ));
            }
        }
        self.identity.name = name.clone();
        match address {
            Some((ticket, endpoint_id)) => {
                self.record_op(
                    SyncOpPayload::DeviceProfileSet {
                        name,
                        client_version,
                        endpoint_ticket: ticket,
                        endpoint_id,
                    },
                    now,
                );
            },
            None => {
                self.act(StoreAction::RequestSync);
                self.act(StoreAction::DevicesChanged);
            },
        }
    }

    /// Remembers a listen, if the network counts it as one.
    pub fn record_listen(
        &mut self,
        listen_id: String,
        track: &Track,
        started_at_ms: i64,
        listened_ms: i64,
        reason: ListenEndReason,
        counts: bool,
        now: i64,
    )
        ensures
            final(self)@ == old(self)@.listened(
                listen_id@,
                track@,
                started_at_ms,
                listened_ms,
                reason,
                counts,
                now,
            ),
    {
        if let Some(event) = listen_event(listen_id, track, started_at_ms, listened_ms, reason) {
            if counts {
                self.record_op(SyncOpPayload::ListenRecorded { event }, now);
            }
        }
    }

    pub fn record_like(&mut self, content_id: &str, liked: bool, fed: Option<SyncedFedTrack>, now: i64)
        ensures
            final(self)@ == old(self)@.like_recorded(content_id@, liked, opt_view(fed), now),
    {
        if let Some(id) = normalize_content_id(content_id) {
            self.record_op(
                SyncOpPayload::TrackLikeSet { content_id: id.as_str().to_owned(), liked, fed },
                now,
            );
        }
    }

    pub fn record_playlist_removed(&mut self, playlist_id: &str, ids: &Vec<String>, now: i64)
        ensures
            final(self)@ == old(self)@.removals_recorded(playlist_id@, views(ids@), now),
    {
        let ghost all = views(ids@);
        let mut i: usize = 0;
        while i < ids.len()
            invariant
                i <= ids.len() == all.len(),
                all == views(ids@),
                self@ == old(self)@.removals_recorded(playlist_id@, all.take(i as int), now),
            decreases ids.len() - i,
        {
            proof {
                assert(all.take(i + 1).drop_last() =~= all.take(i as int));
            }
            if let Some(id) = normalize_content_id(ids[i].as_str()) {
                self.record_op(
                    SyncOpPayload::PlaylistTrackRemoved {
                        playlist_id: playlist_id.to_owned(),
                        content_id: id.as_str().to_owned(),
                    },
                    now,
                );
            }
            i += 1;
        }
        proof {
            assert(all.take(i as int) =~= all);
        }
    }
}

} // verus!

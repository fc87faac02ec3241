//! What devices are told when they ask to join, and what they are sent.
use crate::device_laws::own_changes_are_stored_and_offered;
use crate::device_pairing::{is_invite, is_request, PairReplyModel, PairRequestModel};
use crate::device_snapshot::{arrived_before, plays_on};
use crate::device_store::{
    acknowledged, has_op, DeviceSyncModel, PairingStatus, StoreActionModel, StoredOpModel,
    MAX_OPS_PER_BATCH, PLAYBACK_COMMAND_TTL_MS,
};
use crate::find::{first_where, found, lemma_first_where, lemma_first_where_is};
use crate::sort::{kept, sorting_is_a_permutation, stable_sorted};
use crate::sync_ops::{SyncOpModel, SyncOpPayloadModel};
use crate::wire::{content_key, DevicePlaybackModel, SyncedFedTrackModel};
use vstd::prelude::*;

verus! {

/// An invite that is unknown, expired or comes with the wrong secret lets
/// nobody in, and nothing is remembered of the request.
pub proof fn bad_invites_are_refused(store: DeviceSyncModel, request: PairRequestModel, now: i64)
    requires
        match found(store.invites, is_invite(request.invite_id)) {
            None => true,
            Some(invite) => invite.expires_at_ms < now || invite.secret_hash
                != request.secret_hash,
        },
    ensures
        store.pair_reply(request, now) is InvalidInvite,
        store.with_pair_request(request, now) == store,
{
    reveal(DeviceSyncModel::with_pair_request);
}

/// A good invite that nobody used makes a new request wait for the listener,
/// who is shown who asks.
pub proof fn a_good_invite_waits_for_an_answer(
    store: DeviceSyncModel,
    request: PairRequestModel,
    now: i64,
)
    requires
        found(store.invites, is_invite(request.invite_id)) matches Some(invite)
            && invite.expires_at_ms >= now && invite.secret_hash == request.secret_hash
            && invite.used_at_ms is None,
        forall|i: int|
            0 <= i < store.pairings.len() ==> (#[trigger] store.pairings[i]).request_id
                != request.request_id,
    ensures
        store.pair_reply(request, now) is Pending,
        ({
            let after = store.with_pair_request(request, now);
            let asked = after.pairings.last();
            &&& after.pairings.len() == store.pairings.len() + 1
            &&& asked.request_id == request.request_id
            &&& asked.device_id == request.profile.device_id
            &&& asked.name == request.profile.name
            &&& asked.invite_id == request.invite_id
            &&& asked.status == PairingStatus::Pending
            &&& asked.created_at_ms == now
            &&& !asked.use_requester_group
            &&& after.outbox == store.outbox.push(StoreActionModel::DevicesChanged)
        }),
{
    reveal(DeviceSyncModel::with_pair_request);
    let p = is_request(request.request_id);
    assert forall|i: int| 0 <= i < store.pairings.len() implies !p(
        #[trigger] store.pairings[i],
    ) by {}
    lemma_first_where(store.pairings, p, store.pairings.len() as int);
    let after = store.with_request(request, now).pairings;
    lemma_first_where(after, p, store.pairings.len() as int);
}

/// A request that was answered is told the answer, as long as its invite
/// stands: denied, or accepted into this group, unless the listener chose that
/// of the device that asks.
pub proof fn the_answer_is_told(
    store: DeviceSyncModel,
    request: PairRequestModel,
    now: i64,
    i: int,
)
    requires
        found(store.invites, is_invite(request.invite_id)) matches Some(invite)
            && invite.expires_at_ms >= now && invite.secret_hash == request.secret_hash
            && invite.used_at_ms is None,
        0 <= i < store.pairings.len(),
        store.pairings[i].request_id == request.request_id,
        forall|j: int|
            0 <= j < i ==> (#[trigger] store.pairings[j]).request_id != request.request_id,
    ensures
        match store.pairings[i].status {
            PairingStatus::Pending => store.pair_reply(request, now) is Pending,
            PairingStatus::Denied => store.pair_reply(request, now) is Denied,
            PairingStatus::Accepted => store.pair_reply(request, now) matches
                PairReplyModel::Accepted { group_id } && (!store.pairings[i].use_requester_group
                ==> group_id == store.identity.group_id),
        },
{
    let p = is_request(request.request_id);
    assert forall|j: int| 0 <= j < i implies !p(#[trigger] store.pairings[j]) by {}
    lemma_first_where(store.pairings, p, i);
}

/// A refusal by the listener is remembered, and changes nothing else.
pub proof fn a_refusal_is_remembered(
    store: DeviceSyncModel,
    request_id: Seq<char>,
    use_group: bool,
    now: i64,
    i: int,
)
    requires
        0 <= i < store.pairings.len(),
        store.pairings[i].request_id == request_id,
        store.pairings[i].status == PairingStatus::Pending,
        forall|j: int| 0 <= j < i ==> (#[trigger] store.pairings[j]).request_id != request_id,
    ensures
        ({
            let r = store.answered(request_id, false, use_group, now);
            &&& r.pairings.len() == store.pairings.len()
            &&& r.pairings[i].status == PairingStatus::Denied
            &&& r.pairings[i].answered_at_ms == Some(now)
            &&& r.pairings[i].device_id == store.pairings[i].device_id
            &&& r.devices == store.devices
            &&& r.identity == store.identity
            &&& r.ops == store.ops
        }),
{
    let p = is_request(request_id);
    assert forall|j: int| 0 <= j < i implies !p(#[trigger] store.pairings[j]) by {}
    lemma_first_where(store.pairings, p, i);
}

/// A like that the listener gives on this device becomes a change of this
/// device with just that content and that value, and is offered to the others.
pub proof fn own_likes_are_recorded(
    store: DeviceSyncModel,
    content_id: Seq<char>,
    liked: bool,
    fed: Option<SyncedFedTrackModel>,
    now: i64,
    key: Seq<char>,
)
    requires
        content_key(content_id) == Some(key),
        !has_op(
            store.ops,
            store.next_op(
                SyncOpPayloadModel::TrackLikeSet { content_id: key, liked, fed },
                now,
            ).op_id,
        ),
    ensures
        ({
            let r = store.like_recorded(content_id, liked, fed, now);
            let n = r.outbox.len();
            &&& r.ops.len() == store.ops.len() + 1
            &&& r.ops.last().op.payload == (SyncOpPayloadModel::TrackLikeSet {
                content_id: key,
                liked,
                fed,
            })
            &&& r.ops.last().op.origin_device_id == store.identity.device_id
            &&& n >= store.outbox.len() + 2
            &&& r.outbox[n - 2] is RequestSync
        }),
{
    own_changes_are_stored_and_offered(
        store,
        SyncOpPayloadModel::TrackLikeSet { content_id: key, liked, fed },
        now,
    );
}

/// What another device plays is shown where it is news; nothing is believed of
/// this device itself, and nothing that is older than what is known.
pub proof fn newer_playback_is_shown(store: DeviceSyncModel, playback: DevicePlaybackModel)
    ensures
        ({
            let r = store.with_playback(playback);
            let known = found(store.remote_playback, plays_on(playback.device_id));
            let news = playback.device_id != store.identity.device_id && (known matches Some(
                before,
            ) ==> before.updated_at_ms < playback.updated_at_ms);
            &&& news ==> {
                &&& found(r.remote_playback, plays_on(playback.device_id)) == Some(playback)
                &&& r.outbox == store.outbox.push(StoreActionModel::ShowPlayback { playback })
            }
            &&& !news ==> r == store
        }),
{
    let p = plays_on(playback.device_id);
    let i = first_where(store.remote_playback, p);
    let after = store.with_playback(playback).remote_playback;
    lemma_first_where_is(store.remote_playback, p);
    if after != store.remote_playback {
        assert forall|j: int| 0 <= j < i implies !p(#[trigger] after[j]) by {
            assert(!p(store.remote_playback[j]));
        }
        lemma_first_where(after, p, i);
    }
}

/// Whether a peer is to be sent a change: it is not known to have it, and it is
/// no command to a player that has grown old.
pub open spec fn is_owed(
    store: DeviceSyncModel,
    peer: Seq<char>,
    stored: StoredOpModel,
    now: i64,
) -> bool {
    &&& stored.op.seq > acknowledged(store.acks, peer, stored.op.origin_device_id)
    &&& stored.op.payload is PlaybackCommand ==> stored.op.hlc_ms >= now - PLAYBACK_COMMAND_TTL_MS
}

/// Whether one of the stored changes that a peer is owed is this one.
pub open spec fn is_among_the_owed(
    store: DeviceSyncModel,
    peer: Seq<char>,
    op: SyncOpModel,
    now: i64,
) -> bool {
    exists|j: int|
        0 <= j < store.ops.len() && is_owed(store, peer, #[trigger] store.ops[j], now)
            && store.ops[j].op == op
}

proof fn lemma_kept<T>(s: Seq<T>, p: spec_fn(T) -> bool, x: T)
    ensures
        kept(s, p).contains(x) <==> s.contains(x) && p(x),
    decreases s.len(),
{
    if s.len() > 0 {
        let front = s.drop_last();
        lemma_kept(front, p, x);
        let r = kept(s, p);
        if s.contains(x) && p(x) {
            let k = choose|k: int| 0 <= k < s.len() && s[k] == x;
            if k < front.len() {
                assert(front[k] == x);
                let j = choose|j: int| 0 <= j < kept(front, p).len() && kept(front, p)[j] == x;
                assert(r[j] == x);
            } else {
                assert(r[r.len() - 1] == x);
            }
        }
        if r.contains(x) {
            let j = choose|j: int| 0 <= j < r.len() && r[j] == x;
            if j < kept(front, p).len() {
                assert(kept(front, p).contains(x));
                let k = choose|k: int| 0 <= k < front.len() && front[k] == x;
                assert(s[k] == x);
            } else {
                assert(s[s.len() - 1] == x);
            }
        }
    }
}

/// A peer is sent changes that it is owed, and, as far as one message goes, all
/// of them.
pub proof fn peers_are_sent_what_they_lack(
    store: DeviceSyncModel,
    peer: Seq<char>,
    now: i64,
    stored: StoredOpModel,
)
    ensures
        ({
            let sent = store.ops_for_peer(peer, now);
            &&& sent.len() <= MAX_OPS_PER_BATCH
            &&& sent.len() < MAX_OPS_PER_BATCH && store.ops.contains(stored) && is_owed(
                store,
                peer,
                stored,
                now,
            ) ==> sent.contains(stored.op)
            &&& forall|k: int|
                0 <= k < sent.len() ==> is_among_the_owed(store, peer, #[trigger] sent[k], now)
        }),
{
    let owed = kept(store.ops, store.lacking(peer, now));
    let batch = stable_sorted(owed, arrived_before());
    let sent = store.ops_for_peer(peer, now);
    sorting_is_a_permutation(owed, arrived_before());
    assert forall|x: StoredOpModel| #[trigger] batch.contains(x) == owed.contains(x) by {
        broadcast use vstd::seq_lib::group_to_multiset_ensures;

        assert(batch.to_multiset().count(x) == owed.to_multiset().count(x));
    }
    lemma_kept(store.ops, store.lacking(peer, now), stored);
    if sent.len() < MAX_OPS_PER_BATCH && store.ops.contains(stored) && is_owed(
        store,
        peer,
        stored,
        now,
    ) {
        assert(store.lacking(peer, now)(stored));
        assert(owed.contains(stored));
        assert(batch.contains(stored));
        let k = choose|k: int| 0 <= k < batch.len() && batch[k] == stored;
        assert(sent[k] == stored.op);
    }
    assert forall|k: int| 0 <= k < sent.len() implies is_among_the_owed(
        store,
        peer,
        #[trigger] sent[k],
        now,
    ) by {
        let from = batch[k];
        assert(batch.contains(from));
        lemma_kept(store.ops, store.lacking(peer, now), from);
        let j = choose|j: int| 0 <= j < store.ops.len() && store.ops[j] == from;
        assert(store.lacking(peer, now)(store.ops[j]));
        assert(is_owed(store, peer, store.ops[j], now));
    }
}

} // verus!

//! What holds of the group of the listener's devices, whatever they tell each
//! other.
use crate::device_pairing::{is_request, named_group, requester_profile, PairRequestModel};
use crate::device_snapshot::{liked_now, unliked_now};
use crate::device_store::{
    counts_for, has_op, is_device, told_device, with_change, with_told_device, with_trusted_device,
    DeviceRecordModel, DeviceSyncModel, ItemKeyModel, ItemState, PairingModel, PairingStatus,
    PlaylistStateModel, StoreActionModel, StoredOpModel, VectorEntryModel,
};
use crate::find::{first_where, found, lemma_first_where, lemma_first_where_is};
use crate::registers::{
    a_write_changes_its_key_alone, current, has_key, lemma_later_than_later, lemma_one_is_later,
    supersedes, written, WrittenModel,
};
use crate::sync_ops::{
    is_blank, DeviceProfileModel, SnapshotLikeModel, SnapshotLikeTombstoneModel,
    SnapshotPlaylistItemModel, SnapshotPlaylistItemTombstoneModel, SnapshotPlaylistModel,
    SnapshotPlaylistTombstoneModel, SyncOpModel, SyncOpPayloadModel, SyncSnapshotModel,
};
use crate::text::text_lt;
use crate::wire::{
    content_key, normalized_content_stays, PlaybackCommandModel, SyncedFedTrackModel,
};
use vstd::prelude::*;

verus! {

/// Which changes are known does not depend on what they do.
proof fn lemma_effects_keep_ops(store: DeviceSyncModel, op: SyncOpModel, now: i64)
    ensures
        store.with_effect(op, now).ops == store.ops,
        store.with_effect(op, now).identity == store.identity,
        store.with_effect(op, now).vector == store.vector,
        store.with_effect(op, now).local_seq == store.local_seq,
        store.with_effect(op, now).last_hlc_ms == store.last_hlc_ms,
        store.with_effect(op, now).outbox.len() >= store.outbox.len(),
{
}

/// The store with a change noted, before it does anything.
spec fn with_noted(store: DeviceSyncModel, op: SyncOpModel, now: i64) -> DeviceSyncModel {
    DeviceSyncModel {
        ops: store.ops.push(StoredOpModel { op, received_at_ms: now }),
        vector: with_change(store.vector, op.origin_device_id, op.seq),
        ..store
    }
}

proof fn lemma_new_changes_do_something(store: DeviceSyncModel, op: SyncOpModel, now: i64)
    requires
        !has_op(store.ops, op.op_id),
    ensures
        store.with_op(op, now) == with_noted(store, op, now).with_effect(op, now),
{
    reveal(DeviceSyncModel::with_op);
}

/// A change that arrives again does nothing.
pub proof fn changes_count_once(store: DeviceSyncModel, op: SyncOpModel, now: i64, later: i64)
    ensures
        store.with_op(op, now).with_op(op, later) == store.with_op(op, now),
{
    reveal(DeviceSyncModel::with_op);
    if !has_op(store.ops, op.op_id) {
        let noted = DeviceSyncModel {
            ops: store.ops.push(StoredOpModel { op, received_at_ms: now }),
            vector: with_change(store.vector, op.origin_device_id, op.seq),
            ..store
        };
        lemma_effects_keep_ops(noted, op, now);
        assert(noted.ops[store.ops.len() as int].op.op_id == op.op_id);
        assert(has_op(store.with_op(op, now).ops, op.op_id));
    }
}

/// The changes of a device are numbered in the order they were made, and their
/// times never go back, whatever its clock does.
pub proof fn own_changes_are_in_order(
    store: DeviceSyncModel,
    first: SyncOpPayloadModel,
    second: SyncOpPayloadModel,
    now: i64,
    then: i64,
)
    requires
        store.local_seq < i64::MAX - 1,
        store.last_hlc_ms < i64::MAX - 1,
        now < i64::MAX,
    ensures
        ({
            let a = store.next_op(first, now);
            let b = store.recorded(first, now).next_op(second, then);
            a.seq < b.seq && a.hlc_ms < b.hlc_ms
        }),
{
    reveal(DeviceSyncModel::recorded);
    reveal(DeviceSyncModel::with_op);
}

/// Changes made by a device that is not trusted are not taken.
pub proof fn strangers_change_nothing(store: DeviceSyncModel, op: SyncOpModel, now: i64)
    requires
        !store.accepts(op),
    ensures
        store.with_ops(seq![op], now) == store.act(StoreActionModel::DevicesChanged),
{
    reveal_with_fuel(DeviceSyncModel::with_accepted, 2);
    assert(seq![op].drop_last() =~= Seq::empty());
}

/// A player obeys each command once.
pub proof fn commands_are_obeyed_once(
    store: DeviceSyncModel,
    target: Seq<char>,
    command: PlaybackCommandModel,
    op_id: Seq<char>,
)
    ensures
        store.with_command(target, command, op_id).with_command(target, command, op_id)
            == store.with_command(target, command, op_id),
{
    if target == store.identity.device_id && !store.obeyed.contains(op_id) {
        let after = store.with_command(target, command, op_id);
        assert(after.obeyed[store.obeyed.len() as int] == op_id);
    }
}

/// As long as the listener has not accepted a device, nothing that it sends
/// along is taken: it neither becomes known nor changes anything.
pub proof fn unaccepted_devices_stay_out(store: DeviceSyncModel, request: PairRequestModel, now: i64)
    requires
        store.pair_reply(request, now) !is Accepted,
    ensures
        ({
            let after = store.with_pair_request(request, now);
            &&& after.devices == store.devices
            &&& after.identity == store.identity
            &&& after.ops == store.ops
            &&& after.likes == store.likes
            &&& after.playlists == store.playlists
            &&& after.items == store.items
            &&& after.invites == store.invites
        }),
{
    reveal(DeviceSyncModel::with_pair_request);
}

/// Whether a device is known.
pub open spec fn knows(devices: Seq<DeviceRecordModel>, id: Seq<char>) -> bool {
    exists|i: int| 0 <= i < devices.len() && (#[trigger] devices[i]).device_id == id
}

/// Whether a device is known and was trusted.
pub open spec fn relies_on(devices: Seq<DeviceRecordModel>, id: Seq<char>) -> bool {
    exists|i: int|
        0 <= i < devices.len() && (#[trigger] devices[i]).device_id == id
            && devices[i].trusted_at_ms is Some
}

/// Whether some device is told of.
pub open spec fn tells_of(profiles: Seq<DeviceProfileModel>, id: Seq<char>) -> bool {
    exists|i: int| 0 <= i < profiles.len() && (#[trigger] profiles[i]).device_id == id
}

proof fn lemma_told(devices: Seq<DeviceRecordModel>, told: DeviceRecordModel, id: Seq<char>)
    ensures
        knows(with_told_device(devices, told), id) <==> knows(devices, id) || id
            == told.device_id,
        told.trusted_at_ms is Some ==> relies_on(with_told_device(devices, told), told.device_id),
{
    let after = with_told_device(devices, told);
    let k = first_where(devices, is_device(told.device_id));
    lemma_first_where_is(devices, is_device(told.device_id));
    let at = if k < devices.len() {
        k
    } else {
        devices.len() as int
    };
    assert(after[at].device_id == told.device_id);
    assert(told.trusted_at_ms is Some ==> after[at].trusted_at_ms is Some);
    if knows(devices, id) {
        let i = choose|i: int| 0 <= i < devices.len() && (#[trigger] devices[i]).device_id == id;
        assert(after[i].device_id == id);
    }
    if knows(after, id) {
        let i = choose|i: int| 0 <= i < after.len() && (#[trigger] after[i]).device_id == id;
        if i < devices.len() {
            assert(devices[i].device_id == after[i].device_id);
        }
    }
}

proof fn lemma_trust_keeps(
    devices: Seq<DeviceRecordModel>,
    target: Seq<char>,
    hlc_ms: i64,
    id: Seq<char>,
)
    ensures
        knows(with_trusted_device(devices, target, hlc_ms), id) <==> knows(devices, id),
        relies_on(devices, id) ==> relies_on(with_trusted_device(devices, target, hlc_ms), id),
{
    let after = with_trusted_device(devices, target, hlc_ms);
    lemma_first_where_is(devices, is_device(target));
    if knows(devices, id) {
        let i = choose|i: int| 0 <= i < devices.len() && (#[trigger] devices[i]).device_id == id;
        assert(after[i].device_id == id);
    }
    if knows(after, id) {
        let i = choose|i: int| 0 <= i < after.len() && (#[trigger] after[i]).device_id == id;
        assert(devices[i].device_id == id);
    }
    if relies_on(devices, id) {
        let i = choose|i: int|
            0 <= i < devices.len() && (#[trigger] devices[i]).device_id == id
                && devices[i].trusted_at_ms is Some;
        assert(after[i].device_id == id && after[i].trusted_at_ms is Some);
    }
}

proof fn lemma_profiles_told(
    store: DeviceSyncModel,
    profiles: Seq<DeviceProfileModel>,
    now: i64,
    id: Seq<char>,
)
    requires
        id != store.identity.device_id,
    ensures
        store.with_profiles(profiles, now).identity == store.identity,
        knows(store.with_profiles(profiles, now).devices, id) <==> knows(store.devices, id)
            || tells_of(profiles, id),
    decreases profiles.len(),
{
    if profiles.len() > 0 {
        let front = profiles.drop_last();
        let last = profiles.last();
        lemma_profiles_told(store, front, now, id);
        let before = store.with_profiles(front, now);
        lemma_told(before.devices, told_device(last, false, now), id);
        if tells_of(front, id) {
            let i = choose|i: int| 0 <= i < front.len() && (#[trigger] front[i]).device_id == id;
            assert(profiles[i].device_id == id);
        }
        if last.device_id == id {
            assert(profiles[profiles.len() - 1].device_id == id);
        }
        if tells_of(profiles, id) && last.device_id != id {
            let i = choose|i: int|
                0 <= i < profiles.len() && (#[trigger] profiles[i]).device_id == id;
            assert(front[i].device_id == id);
        }
    }
}

proof fn lemma_trust_recorded(
    store: DeviceSyncModel,
    target: Seq<char>,
    now: i64,
    id: Seq<char>,
)
    ensures
        ({
            let after = store.recorded(
                SyncOpPayloadModel::DeviceTrusted { target_device_id: target },
                now,
            );
            &&& after.identity == store.identity
            &&& knows(after.devices, id) <==> knows(store.devices, id)
            &&& relies_on(store.devices, id) ==> relies_on(after.devices, id)
        }),
{
    reveal(DeviceSyncModel::recorded);
    reveal(DeviceSyncModel::with_op);
    let payload = SyncOpPayloadModel::DeviceTrusted { target_device_id: target };
    lemma_trust_keeps(store.devices, target, store.next_op(payload, now).hlc_ms, id);
}

/// The group that a device is in changes only by the listener's choice. Where a
/// waiting request is accepted, its device is trusted; where the listener keeps
/// the own group, no other device becomes known; where the listener takes the
/// other group, its devices do. A request that is denied changes neither the
/// group nor the devices.
pub proof fn the_group_follows_the_choice(
    store: DeviceSyncModel,
    request_id: Seq<char>,
    id: Seq<char>,
    now: i64,
)
    requires
        found(store.pairings, is_request(request_id)) matches Some(pairing)
            && pairing.status == PairingStatus::Pending && pairing.device_id
            != store.identity.device_id,
        id != store.identity.device_id,
    ensures
        ({
            let pairing = found(store.pairings, is_request(request_id))->0;
            let keep = store.answered(request_id, true, false, now);
            let join = store.answered(request_id, true, true, now);
            let deny = store.answered(request_id, false, false, now);
            &&& keep.identity == store.identity
            &&& relies_on(keep.devices, pairing.device_id)
            &&& knows(keep.devices, id) <==> knows(store.devices, id) || id == pairing.device_id
            &&& join.identity.group_id == (match named_group(pairing.requester_group_id) {
                Some(group) => group,
                None => store.identity.group_id,
            })
            &&& relies_on(join.devices, pairing.device_id)
            &&& knows(join.devices, id) <==> knows(store.devices, id) || id == pairing.device_id
                || tells_of(pairing.requester_devices, id)
            &&& deny.identity == store.identity
            &&& deny.devices == store.devices
        }),
{
    let i = first_where(store.pairings, is_request(request_id));
    let pairing = store.pairings[i];
    let told = told_device(requester_profile(pairing, now), true, now);
    let answered = DeviceSyncModel {
        pairings: store.pairings.update(
            i,
            PairingModel {
                status: PairingStatus::Accepted,
                answered_at_ms: Some(now),
                use_requester_group: false,
                ..pairing
            },
        ),
        ..store
    };
    lemma_told(answered.devices, told, id);
    let kept = answered.with_profile(requester_profile(pairing, now), true, now);
    lemma_trust_recorded(kept, pairing.device_id, now, id);
    lemma_trust_recorded(kept, pairing.device_id, now, pairing.device_id);
    let chosen = DeviceSyncModel {
        pairings: store.pairings.update(
            i,
            PairingModel {
                status: PairingStatus::Accepted,
                answered_at_ms: Some(now),
                use_requester_group: true,
                ..pairing
            },
        ),
        ..store
    };
    let moved = match named_group(pairing.requester_group_id) {
        Some(group) => chosen.in_group(group),
        None => chosen,
    };
    lemma_profiles_told(moved, pairing.requester_devices, now, id);
    let grouped = moved.with_profiles(pairing.requester_devices, now);
    lemma_told(grouped.devices, told, id);
    let joined = grouped.with_profile(requester_profile(pairing, now), true, now);
    lemma_trust_recorded(joined, pairing.device_id, now, id);
    lemma_trust_recorded(joined, pairing.device_id, now, pairing.device_id);
}

/// Whether under each key of the one there stands something in the other that
/// is at least as late.
pub open spec fn is_up_to_date<K, V>(
    rows: Seq<WrittenModel<K, V>>,
    with: Seq<WrittenModel<K, V>>,
) -> bool {
    forall|i: int| 0 <= i < with.len() ==> has_latest(rows, #[trigger] with[i])
}

pub open spec fn has_latest<K, V>(
    rows: Seq<WrittenModel<K, V>>,
    row: WrittenModel<K, V>,
) -> bool {
    current(rows, row.key) matches Some(present) && !supersedes(row, present)
}

pub proof fn lemma_latest_stays<K, V>(
    rows: Seq<WrittenModel<K, V>>,
    other: WrittenModel<K, V>,
    row: WrittenModel<K, V>,
)
    requires
        has_latest(rows, row),
    ensures
        has_latest(written(rows, other), row),
{
    a_write_changes_its_key_alone(rows, other, row.key);
    let present = current(rows, row.key)->0;
    lemma_later_than_later(row, other, present);
    lemma_one_is_later(other, present);
    lemma_one_is_later(row, other);
    if supersedes(other, present) && supersedes(row, other) {
        lemma_later_than_later(row, other, present);
    }
}

pub proof fn lemma_written_is_latest<K, V>(rows: Seq<WrittenModel<K, V>>, row: WrittenModel<K, V>)
    ensures
        has_latest(written(rows, row), row),
{
    a_write_changes_its_key_alone(rows, row, row.key);
    lemma_one_is_later(row, row);
}

/// The keys under which likes are stored are normalized.
pub open spec fn likes_are_keyed(likes: Seq<WrittenModel<Seq<char>, bool>>) -> bool {
    forall|i: int|
        0 <= i < likes.len() ==> content_key((#[trigger] likes[i]).key) == Some(likes[i].key)
}

proof fn lemma_likes_stay_latest(
    store: DeviceSyncModel,
    likes: Seq<SnapshotLikeModel>,
    row: WrittenModel<Seq<char>, bool>,
)
    requires
        has_latest(store.likes, row),
    ensures
        has_latest(store.with_likes(likes).likes, row),
    decreases likes.len(),
{
    if likes.len() > 0 {
        lemma_likes_stay_latest(store, likes.drop_last(), row);
        let before = store.with_likes(likes.drop_last());
        let like = likes.last();
        if let Some(content_id) = content_key(like.content_id) {
            lemma_latest_stays(
                before.likes,
                WrittenModel {
                    key: content_id,
                    value: true,
                    hlc_ms: like.hlc_ms,
                    op_id: like.op_id,
                },
                row,
            );
        }
    }
}

proof fn lemma_unlikes_stay_latest(
    store: DeviceSyncModel,
    unlikes: Seq<SnapshotLikeTombstoneModel>,
    row: WrittenModel<Seq<char>, bool>,
)
    requires
        has_latest(store.likes, row),
    ensures
        has_latest(store.with_unlikes(unlikes).likes, row),
    decreases unlikes.len(),
{
    if unlikes.len() > 0 {
        lemma_unlikes_stay_latest(store, unlikes.drop_last(), row);
        let before = store.with_unlikes(unlikes.drop_last());
        let unlike = unlikes.last();
        if let Some(content_id) = content_key(unlike.content_id) {
            lemma_latest_stays(
                before.likes,
                WrittenModel {
                    key: content_id,
                    value: false,
                    hlc_ms: unlike.hlc_ms,
                    op_id: unlike.op_id,
                },
                row,
            );
        }
    }
}

/// Whatever is liked is among the likes that are sent.
proof fn lemma_likes_arrive(
    store: DeviceSyncModel,
    likes: Seq<WrittenModel<Seq<char>, bool>>,
    i: int,
)
    requires
        likes_are_keyed(likes),
        0 <= i < likes.len(),
        likes[i].value,
    ensures
        has_latest(store.with_likes(liked_now(likes)).likes, likes[i]),
    decreases likes.len(),
{
    let front = likes.drop_last();
    let sent = liked_now(likes);
    assert forall|k: int| 0 <= k < front.len() implies content_key((#[trigger] front[k]).key)
        == Some(front[k].key) by {
        assert(front[k] == likes[k]);
    }
    if i < front.len() {
        assert(front[i] == likes[i]);
        lemma_likes_arrive(store, front, i);
        if likes.last().value {
            assert(sent.drop_last() =~= liked_now(front));
            let before = store.with_likes(liked_now(front));
            let row = likes[likes.len() - 1];
            assert(content_key(row.key) == Some(row.key));
            lemma_latest_stays(before.likes, row, likes[i]);
        }
    } else {
        assert(sent.drop_last() =~= liked_now(front));
        let before = store.with_likes(liked_now(front));
        let row = likes[i];
        assert(content_key(row.key) == Some(row.key));
        lemma_written_is_latest(before.likes, row);
    }
}

proof fn lemma_unlikes_arrive(
    store: DeviceSyncModel,
    likes: Seq<WrittenModel<Seq<char>, bool>>,
    i: int,
)
    requires
        likes_are_keyed(likes),
        0 <= i < likes.len(),
        !likes[i].value,
    ensures
        has_latest(store.with_unlikes(unliked_now(likes)).likes, likes[i]),
    decreases likes.len(),
{
    let front = likes.drop_last();
    let sent = unliked_now(likes);
    assert forall|k: int| 0 <= k < front.len() implies content_key((#[trigger] front[k]).key)
        == Some(front[k].key) by {
        assert(front[k] == likes[k]);
    }
    if i < front.len() {
        assert(front[i] == likes[i]);
        lemma_unlikes_arrive(store, front, i);
        if !likes.last().value {
            assert(sent.drop_last() =~= unliked_now(front));
            let before = store.with_unlikes(unliked_now(front));
            let row = likes[likes.len() - 1];
            assert(content_key(row.key) == Some(row.key));
            lemma_latest_stays(before.likes, row, likes[i]);
        }
    } else {
        assert(sent.drop_last() =~= unliked_now(front));
        let before = store.with_unlikes(unliked_now(front));
        let row = likes[i];
        assert(content_key(row.key) == Some(row.key));
        lemma_written_is_latest(before.likes, row);
    }
}

proof fn lemma_items_leave_likes(store: DeviceSyncModel, snapshot: SyncSnapshotModel)
    ensures
        store.with_playlists(snapshot.playlists).with_deletions(
            snapshot.deleted_playlists,
        ).with_removals(snapshot.removed_playlist_items).likes == store.likes,
{
    lemma_playlists_leave_likes(store, snapshot.playlists);
    let a = store.with_playlists(snapshot.playlists);
    lemma_deletions_leave_likes(a, snapshot.deleted_playlists);
    lemma_removals_leave_likes(
        a.with_deletions(snapshot.deleted_playlists),
        snapshot.removed_playlist_items,
    );
}

proof fn lemma_items_on_leave_likes(
    store: DeviceSyncModel,
    playlist_id: Seq<char>,
    items: Seq<SnapshotPlaylistItemModel>,
)
    ensures
        store.with_items_on(playlist_id, items).likes == store.likes,
    decreases items.len(),
{
    if items.len() > 0 {
        lemma_items_on_leave_likes(store, playlist_id, items.drop_last());
    }
}

proof fn lemma_playlists_leave_likes(
    store: DeviceSyncModel,
    playlists: Seq<SnapshotPlaylistModel>,
)
    ensures
        store.with_playlists(playlists).likes == store.likes,
    decreases playlists.len(),
{
    if playlists.len() > 0 {
        lemma_playlists_leave_likes(store, playlists.drop_last());
        let playlist = playlists.last();
        lemma_items_on_leave_likes(
            store.with_playlists(playlists.drop_last()).with_playlist(
                playlist.playlist_id,
                playlist.title,
                false,
                playlist.hlc_ms,
                playlist.op_id,
            ),
            playlist.playlist_id,
            playlist.items,
        );
    }
}

proof fn lemma_deletions_leave_likes(
    store: DeviceSyncModel,
    deleted: Seq<SnapshotPlaylistTombstoneModel>,
)
    ensures
        store.with_deletions(deleted).likes == store.likes,
    decreases deleted.len(),
{
    if deleted.len() > 0 {
        lemma_deletions_leave_likes(store, deleted.drop_last());
    }
}

proof fn lemma_removals_leave_likes(
    store: DeviceSyncModel,
    removed: Seq<SnapshotPlaylistItemTombstoneModel>,
)
    ensures
        store.with_removals(removed).likes == store.likes,
    decreases removed.len(),
{
    if removed.len() > 0 {
        lemma_removals_leave_likes(store, removed.drop_last());
    }
}

/// A device that takes over what another one knows has no like or taken-back
/// like that is older than the other's.
pub proof fn a_snapshot_brings_likes_up_to_date(here: DeviceSyncModel, there: DeviceSyncModel)
    requires
        likes_are_keyed(there.likes),
    ensures
        is_up_to_date(here.with_snapshot(there.snapshot()).likes, there.likes),
{
    reveal(DeviceSyncModel::with_snapshot);
    let snapshot = there.snapshot();
    let liked = here.with_likes(snapshot.likes);
    let both = liked.with_unlikes(snapshot.unlikes);
    lemma_items_leave_likes(both, snapshot);
    assert forall|i: int| 0 <= i < there.likes.len() implies has_latest(
        both.likes,
        #[trigger] there.likes[i],
    ) by {
        if there.likes[i].value {
            lemma_likes_arrive(here, there.likes, i);
            lemma_unlikes_stay_latest(liked, snapshot.unlikes, there.likes[i]);
        } else {
            lemma_unlikes_arrive(liked, there.likes, i);
        }
    }
}

/// Likes are always stored under normalized identifiers.
pub proof fn likes_stay_keyed(
    store: DeviceSyncModel,
    content_id: Seq<char>,
    liked: bool,
    fed: Option<SyncedFedTrackModel>,
    hlc_ms: i64,
    op_id: Seq<char>,
)
    requires
        likes_are_keyed(store.likes),
    ensures
        likes_are_keyed(store.with_like(content_id, liked, fed, hlc_ms, op_id).likes),
{
    if let Some(id) = content_key(content_id) {
        normalized_content_stays(content_id);
        lemma_first_where_is(store.likes, has_key(id));
        let after = store.with_like(content_id, liked, fed, hlc_ms, op_id).likes;
        assert forall|i: int| 0 <= i < after.len() implies content_key((#[trigger] after[i]).key)
            == Some(after[i].key) by {
            if i < store.likes.len() && after[i] == store.likes[i] {
                assert(content_key(store.likes[i].key) == Some(store.likes[i].key));
            }
        }
    }
}

/// Whether a change made at `hlc_ms` under `op_id` is the last word on what was
/// noted: nothing was, or it was noted for an earlier moment, or for the same
/// one under an identifier that comes earlier.
pub open spec fn is_the_last_word<K, V>(
    noted: Option<WrittenModel<K, V>>,
    hlc_ms: i64,
    op_id: Seq<char>,
) -> bool {
    noted matches Some(row) ==> row.hlc_ms < hlc_ms || (row.hlc_ms == hlc_ms && text_lt(
        row.op_id,
        op_id,
    ))
}

/// Whether a store asks for all that it asked for before, and then for what
/// `told` lists.
pub open spec fn asks_also(
    before: DeviceSyncModel,
    after: DeviceSyncModel,
    told: Seq<StoreActionModel>,
) -> bool {
    &&& after.outbox.len() == before.outbox.len() + told.len()
    &&& forall|i: int| 0 <= i < before.outbox.len() ==> #[trigger] after.outbox[i]
        == before.outbox[i]
    &&& forall|i: int|
        0 <= i < told.len() ==> after.outbox[before.outbox.len() + i] == #[trigger] told[i]
}

/// The last change of a device that is known of, if any is.
pub open spec fn counted(vector: Seq<VectorEntryModel>, device_id: Seq<char>) -> Option<i64> {
    match found(vector, counts_for(device_id)) {
        Some(entry) => Some(entry.max_seq),
        None => None,
    }
}

proof fn lemma_counted(
    vector: Seq<VectorEntryModel>,
    device_id: Seq<char>,
    seq: i64,
    other: Seq<char>,
)
    ensures
        counted(with_change(vector, device_id, seq), other) == (if other != device_id {
            counted(vector, other)
        } else {
            match counted(vector, other) {
                Some(before) if before > seq => Some(before),
                _ => Some(seq),
            }
        }),
{
    let after = with_change(vector, device_id, seq);
    let i = first_where(vector, counts_for(device_id));
    let k = first_where(vector, counts_for(other));
    lemma_first_where_is(vector, counts_for(device_id));
    lemma_first_where_is(vector, counts_for(other));
    assert forall|j: int| 0 <= j < k implies !counts_for(other)(#[trigger] after[j]) by {
        assert(!counts_for(other)(vector[j]));
    }
    if other == device_id || k < vector.len() {
        lemma_first_where(after, counts_for(other), k);
    } else {
        lemma_first_where(after, counts_for(other), after.len() as int);
    }
}

/// A new change is stored as it came, and counts for the device that made it
/// and for no other; what is counted never goes back.
pub proof fn new_changes_are_stored(store: DeviceSyncModel, op: SyncOpModel, now: i64)
    requires
        !has_op(store.ops, op.op_id),
    ensures
        ({
            let after = store.with_op(op, now);
            &&& after.ops == store.ops.push(StoredOpModel { op, received_at_ms: now })
            &&& after.identity == store.identity
            &&& after.local_seq == store.local_seq
            &&& after.last_hlc_ms == store.last_hlc_ms
            &&& counted(after.vector, op.origin_device_id) == (match counted(
                store.vector,
                op.origin_device_id,
            ) {
                Some(before) if before > op.seq => Some(before),
                _ => Some(op.seq),
            })
            &&& forall|other: Seq<char>|
                other != op.origin_device_id ==> #[trigger] counted(after.vector, other)
                    == counted(store.vector, other)
        }),
{
    lemma_new_changes_do_something(store, op, now);
    lemma_effects_keep_ops(with_noted(store, op, now), op, now);
    assert forall|other: Seq<char>| #[trigger]
        counted(with_change(store.vector, op.origin_device_id, op.seq), other) == (
    if other != op.origin_device_id {
        counted(store.vector, other)
    } else {
        match counted(store.vector, other) {
            Some(before) if before > op.seq => Some(before),
            _ => Some(op.seq),
        }
    }) by {
        lemma_counted(store.vector, op.origin_device_id, op.seq, other);
    }
}

/// A like reaches the library as it was given. A change that is the last word
/// on a track hands out exactly one like, for that track, with the value that
/// the change gives and that is noted from then on; a change that comes too
/// late hands out nothing. Either way nothing else is touched.
pub proof fn a_like_reaches_the_library(
    store: DeviceSyncModel,
    op: SyncOpModel,
    now: i64,
    content_id: Seq<char>,
    liked: bool,
    fed: Option<SyncedFedTrackModel>,
    key: Seq<char>,
)
    requires
        !has_op(store.ops, op.op_id),
        op.payload == (SyncOpPayloadModel::TrackLikeSet { content_id, liked, fed }),
        content_key(content_id) == Some(key),
    ensures
        ({
            let after = store.with_op(op, now);
            let told = seq![
                StoreActionModel::SyncLike { content_id: key, liked, fed, hlc_ms: op.hlc_ms },
                StoreActionModel::LibraryChanged,
            ];
            &&& if is_the_last_word(current(store.likes, key), op.hlc_ms, op.op_id) {
                &&& asks_also(store, after, told)
                &&& current(after.likes, key) matches Some(row) && row.value == liked && row.hlc_ms
                    == op.hlc_ms && row.op_id == op.op_id
                &&& forall|i: int|
                    store.outbox.len() <= i < after.outbox.len() ==> ((
                    #[trigger] after.outbox[i]) is SyncLike <==> i == store.outbox.len())
            } else {
                after.outbox == store.outbox && after.likes == store.likes
            }
            &&& forall|other: Seq<char>|
                other != key ==> #[trigger] current(after.likes, other) == current(
                    store.likes,
                    other,
                )
            &&& after.playlists == store.playlists
            &&& after.items == store.items
            &&& after.devices == store.devices
            &&& after.obeyed == store.obeyed
        }),
{
    reveal(DeviceSyncModel::with_op);
    let row = WrittenModel { key, value: liked, hlc_ms: op.hlc_ms, op_id: op.op_id };
    a_write_changes_its_key_alone(store.likes, row, key);
    assert forall|other: Seq<char>| other != key implies #[trigger] current(
        store.with_op(op, now).likes,
        other,
    ) == current(store.likes, other) by {
        a_write_changes_its_key_alone(store.likes, row, other);
    }
}

/// A like of what is no content identifier is stored and does nothing.
pub proof fn a_like_without_a_key_does_nothing(
    store: DeviceSyncModel,
    op: SyncOpModel,
    now: i64,
    content_id: Seq<char>,
    liked: bool,
    fed: Option<SyncedFedTrackModel>,
)
    requires
        op.payload == (SyncOpPayloadModel::TrackLikeSet { content_id, liked, fed }),
        content_key(content_id) is None,
    ensures
        store.with_op(op, now).likes == store.likes,
        store.with_op(op, now).outbox == store.outbox,
{
    reveal(DeviceSyncModel::with_op);
}

/// A change that names a playlist is handed on under its identifier and title,
/// where it is the last word on the playlist and the title is not blank.
pub proof fn a_title_reaches_the_library(
    store: DeviceSyncModel,
    op: SyncOpModel,
    now: i64,
    playlist_id: Seq<char>,
    title: Seq<char>,
)
    requires
        !has_op(store.ops, op.op_id),
        op.payload == (SyncOpPayloadModel::PlaylistCreated { playlist_id, title }) || op.payload
            == (SyncOpPayloadModel::PlaylistRenamed { playlist_id, title }),
    ensures
        ({
            let after = store.with_op(op, now);
            &&& if is_the_last_word(current(store.playlists, playlist_id), op.hlc_ms, op.op_id) {
                &&& !is_blank(title) ==> asks_also(
                    store,
                    after,
                    seq![
                        StoreActionModel::UpsertPlaylist { playlist_id, title },
                        StoreActionModel::LibraryChanged,
                    ],
                )
                &&& is_blank(title) ==> asks_also(
                    store,
                    after,
                    seq![StoreActionModel::LibraryChanged],
                )
                &&& current(after.playlists, playlist_id) matches Some(row) && row.value.title
                    == title && !row.value.deleted && row.hlc_ms == op.hlc_ms && row.op_id
                    == op.op_id
            } else {
                after.outbox == store.outbox && after.playlists == store.playlists
            }
            &&& after.likes == store.likes
            &&& after.items == store.items
            &&& after.devices == store.devices
        }),
{
    reveal(DeviceSyncModel::with_op);
    let row = WrittenModel {
        key: playlist_id,
        value: PlaylistStateModel { title, deleted: false },
        hlc_ms: op.hlc_ms,
        op_id: op.op_id,
    };
    a_write_changes_its_key_alone(store.playlists, row, playlist_id);
}

/// A playlist that is deleted by the last word on it is deleted from the
/// library.
pub proof fn a_deletion_reaches_the_library(
    store: DeviceSyncModel,
    op: SyncOpModel,
    now: i64,
    playlist_id: Seq<char>,
)
    requires
        !has_op(store.ops, op.op_id),
        op.payload == (SyncOpPayloadModel::PlaylistDeleted { playlist_id }),
    ensures
        ({
            let after = store.with_op(op, now);
            &&& if is_the_last_word(current(store.playlists, playlist_id), op.hlc_ms, op.op_id) {
                &&& asks_also(
                    store,
                    after,
                    seq![
                        StoreActionModel::DeletePlaylist { playlist_id },
                        StoreActionModel::LibraryChanged,
                    ],
                )
                &&& current(after.playlists, playlist_id) matches Some(row) && row.value.deleted
            } else {
                after.outbox == store.outbox && after.playlists == store.playlists
            }
            &&& after.likes == store.likes
            &&& after.items == store.items
            &&& after.devices == store.devices
        }),
{
    reveal(DeviceSyncModel::with_op);
    let row = WrittenModel {
        key: playlist_id,
        value: PlaylistStateModel { title: Seq::empty(), deleted: true },
        hlc_ms: op.hlc_ms,
        op_id: op.op_id,
    };
    a_write_changes_its_key_alone(store.playlists, row, playlist_id);
}

/// A track that joins a playlist is added to it, at its position; one that
/// leaves is removed from it: where the change is the last word on that track
/// in that playlist.
pub proof fn an_item_reaches_the_library(
    store: DeviceSyncModel,
    op: SyncOpModel,
    now: i64,
    playlist_id: Seq<char>,
    content_id: Seq<char>,
    position: i64,
    fed: Option<SyncedFedTrackModel>,
    joins: bool,
    key: Seq<char>,
)
    requires
        !has_op(store.ops, op.op_id),
        op.payload == if joins {
            SyncOpPayloadModel::PlaylistTrackAdded { playlist_id, content_id, position, fed }
        } else {
            SyncOpPayloadModel::PlaylistTrackRemoved { playlist_id, content_id }
        },
        content_key(content_id) == Some(key),
    ensures
        ({
            let after = store.with_op(op, now);
            let place = ItemKeyModel { playlist_id, content_id: key };
            &&& if is_the_last_word(current(store.items, place), op.hlc_ms, op.op_id) {
                &&& asks_also(
                    store,
                    after,
                    seq![
                        if joins {
                            StoreActionModel::AddPlaylistItem {
                                playlist_id,
                                content_id: key,
                                position,
                                fed,
                            }
                        } else {
                            StoreActionModel::RemovePlaylistItem { playlist_id, content_id: key }
                        },
                        StoreActionModel::LibraryChanged,
                    ],
                )
                &&& current(after.items, place) matches Some(row) && row.value.present == joins && (
                joins ==> row.value.position == position) && row.hlc_ms == op.hlc_ms && row.op_id
                    == op.op_id
            } else {
                after.outbox == store.outbox && after.items == store.items
            }
            &&& after.likes == store.likes
            &&& after.playlists == store.playlists
            &&& after.devices == store.devices
        }),
{
    reveal(DeviceSyncModel::with_op);
    let row = WrittenModel {
        key: ItemKeyModel { playlist_id, content_id: key },
        value: if joins {
            ItemState { present: true, position }
        } else {
            ItemState { present: false, position: 0 }
        },
        hlc_ms: op.hlc_ms,
        op_id: op.op_id,
    };
    a_write_changes_its_key_alone(store.items, row, row.key);
}

/// A listen made on another device is remembered as that device's, and changes
/// nothing else; a command is handed to the player of the device it names, and
/// of no other.
pub proof fn listens_and_commands_are_handed_on(store: DeviceSyncModel, op: SyncOpModel, now: i64)
    requires
        !has_op(store.ops, op.op_id),
    ensures
        ({
            let after = store.with_op(op, now);
            &&& op.payload matches SyncOpPayloadModel::ListenRecorded { event } ==> {
                &&& asks_also(
                    store,
                    after,
                    seq![
                        StoreActionModel::RememberListen {
                            event,
                            origin_device_id: op.origin_device_id,
                        },
                    ],
                )
                &&& after.devices == store.devices
                &&& after.likes == store.likes
            }
            &&& op.payload matches SyncOpPayloadModel::PlaybackCommand {
                target_device_id,
                command,
            } ==> if target_device_id == store.identity.device_id && !store.obeyed.contains(
                op.op_id,
            ) {
                asks_also(store, after, seq![StoreActionModel::ObeyCommand { command }])
            } else {
                after.outbox == store.outbox
            }
        }),
{
    reveal(DeviceSyncModel::with_op);
}

/// What is known of a device, if anything is.
pub open spec fn device(devices: Seq<DeviceRecordModel>, id: Seq<char>) -> Option<
    DeviceRecordModel,
> {
    found(devices, is_device(id))
}

proof fn lemma_device_updated(
    devices: Seq<DeviceRecordModel>,
    id: Seq<char>,
    new: DeviceRecordModel,
    other: Seq<char>,
)
    requires
        new.device_id == id,
        device(devices, id) is Some,
    ensures
        ({
            let after = devices.update(first_where(devices, is_device(id)), new);
            &&& device(after, id) == Some(new)
            &&& other != id ==> device(after, other) == device(devices, other)
        }),
{
    let i = first_where(devices, is_device(id));
    let after = devices.update(i, new);
    lemma_first_where_is(devices, is_device(id));
    lemma_first_where_is(devices, is_device(other));
    assert forall|j: int| 0 <= j < i implies !is_device(id)(#[trigger] after[j]) by {
        assert(!is_device(id)(devices[j]));
    }
    lemma_first_where(after, is_device(id), i);
    if other != id {
        let k = first_where(devices, is_device(other));
        assert forall|j: int| 0 <= j < k implies !is_device(other)(#[trigger] after[j]) by {
            if j != i {
                assert(!is_device(other)(devices[j]));
            }
        }
        if k < devices.len() {
            assert(is_device(other)(devices[k]));
        }
        lemma_first_where(after, is_device(other), k);
    }
}

/// A device that is trusted is trusted from then on, and no longer revoked
/// unless it was revoked later than that; one that is revoked is revoked from
/// then on, by the device that says so, and its changes count up to the one
/// that this device had seen. Other devices are left alone.
pub proof fn trust_and_revocation_concern_one_device(
    store: DeviceSyncModel,
    op: SyncOpModel,
    now: i64,
    other: Seq<char>,
)
    requires
        !has_op(store.ops, op.op_id),
    ensures
        ({
            let after = store.with_op(op, now);
            &&& op.payload matches SyncOpPayloadModel::DeviceTrusted { target_device_id } ==> {
                &&& device(store.devices, target_device_id) matches Some(known) ==> (device(
                    after.devices,
                    target_device_id,
                ) matches Some(record) && {
                    &&& record.trusted_at_ms matches Some(since) && since >= op.hlc_ms
                    &&& known.revoked_at_ms is None ==> record.revoked_at_ms is None
                    &&& known.revoked_at_ms matches Some(revoked) ==> {
                        record.revoked_at_ms == if revoked <= op.hlc_ms {
                            None
                        } else {
                            Some(revoked)
                        }
                    }
                    &&& record.name == known.name
                    &&& record.endpoint_id == known.endpoint_id
                    &&& record.last_seen_ms == known.last_seen_ms
                })
                &&& device(store.devices, target_device_id) is None ==> after.devices
                    == store.devices
                &&& other != target_device_id ==> device(after.devices, other) == device(
                    store.devices,
                    other,
                )
                &&& after.outbox == store.outbox
            }
            &&& op.payload matches SyncOpPayloadModel::DeviceRevoked {
                target_device_id,
                target_max_seq_seen,
            } ==> {
                &&& device(store.devices, target_device_id) matches Some(known) ==> device(
                    after.devices,
                    target_device_id,
                ) == Some(
                    DeviceRecordModel {
                        revoked_at_ms: Some(op.hlc_ms),
                        revoked_by: Some(op.origin_device_id),
                        revoke_cutoff_seq: Some(target_max_seq_seen),
                        ..known
                    },
                )
                &&& device(store.devices, target_device_id) is None ==> after.devices
                    == store.devices
                &&& other != target_device_id ==> device(after.devices, other) == device(
                    store.devices,
                    other,
                )
                &&& after.outbox == store.outbox
            }
        }),
{
    reveal(DeviceSyncModel::with_op);
    let after = store.with_op(op, now);
    match op.payload {
        SyncOpPayloadModel::DeviceTrusted { target_device_id } => {
            let i = first_where(store.devices, is_device(target_device_id));
            lemma_first_where_is(store.devices, is_device(target_device_id));
            if i < store.devices.len() {
                lemma_device_updated(store.devices, target_device_id, after.devices[i], other);
            }
        },
        SyncOpPayloadModel::DeviceRevoked { target_device_id, target_max_seq_seen } => {
            let i = first_where(store.devices, is_device(target_device_id));
            lemma_first_where_is(store.devices, is_device(target_device_id));
            if i < store.devices.len() {
                lemma_device_updated(store.devices, target_device_id, after.devices[i], other);
            }
        },
        _ => {},
    }
}

/// A change that this device makes is its own, carries what it was asked to,
/// and is offered to the others at once.
pub proof fn own_changes_are_stored_and_offered(
    store: DeviceSyncModel,
    payload: SyncOpPayloadModel,
    now: i64,
)
    requires
        !has_op(store.ops, store.next_op(payload, now).op_id),
    ensures
        ({
            let after = store.recorded(payload, now);
            let n = after.outbox.len();
            &&& after.ops.len() == store.ops.len() + 1
            &&& after.ops.last().op.payload == payload
            &&& after.ops.last().op.origin_device_id == store.identity.device_id
            &&& after.ops.last().op.seq == after.local_seq
            &&& after.ops.last().op.hlc_ms == after.last_hlc_ms
            &&& after.last_hlc_ms >= now
            &&& store.local_seq < i64::MAX ==> after.local_seq == store.local_seq + 1
            &&& n >= store.outbox.len() + 2
            &&& after.outbox[n - 2] is RequestSync
            &&& after.outbox[n - 1] is DevicesChanged
        }),
{
    reveal(DeviceSyncModel::recorded);
    let op = store.next_op(payload, now);
    let numbered = DeviceSyncModel { local_seq: op.seq, last_hlc_ms: op.hlc_ms, ..store };
    lemma_new_changes_do_something(numbered, op, now);
    lemma_effects_keep_ops(with_noted(numbered, op, now), op, now);
}

} // verus!

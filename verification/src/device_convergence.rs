//! Devices that know the same changes agree.
use crate::device_store::{
    has_op, ItemKeyModel, ItemState, PlaylistStateModel, StoredOpModel, DeviceSyncModel,
};
use crate::registers::{
    a_write_changes_its_key_alone, current, lemma_later_than_later, lemma_one_is_later, supersedes,
    written, WrittenModel,
};
use crate::sync_ops::{SyncOpModel, SyncOpPayloadModel};
use crate::wire::content_key;
use vstd::prelude::*;

verus! {

/// What a change writes about likes.
pub open spec fn like_write(op: SyncOpModel) -> Option<WrittenModel<Seq<char>, bool>> {
    match op.payload {
        SyncOpPayloadModel::TrackLikeSet { content_id, liked, .. } => match content_key(content_id) {
            Some(key) => Some(
                WrittenModel { key, value: liked, hlc_ms: op.hlc_ms, op_id: op.op_id },
            ),
            None => None,
        },
        _ => None,
    }
}

/// What a change writes about playlists.
pub open spec fn playlist_write(op: SyncOpModel) -> Option<
    WrittenModel<Seq<char>, PlaylistStateModel>,
> {
    match op.payload {
        SyncOpPayloadModel::PlaylistCreated { playlist_id, title } => Some(
            WrittenModel {
                key: playlist_id,
                value: PlaylistStateModel { title, deleted: false },
                hlc_ms: op.hlc_ms,
                op_id: op.op_id,
            },
        ),
        SyncOpPayloadModel::PlaylistRenamed { playlist_id, title } => Some(
            WrittenModel {
                key: playlist_id,
                value: PlaylistStateModel { title, deleted: false },
                hlc_ms: op.hlc_ms,
                op_id: op.op_id,
            },
        ),
        SyncOpPayloadModel::PlaylistDeleted { playlist_id } => Some(
            WrittenModel {
                key: playlist_id,
                value: PlaylistStateModel { title: Seq::empty(), deleted: true },
                hlc_ms: op.hlc_ms,
                op_id: op.op_id,
            },
        ),
        _ => None,
    }
}

/// What a change writes about the tracks on playlists.
pub open spec fn item_write(op: SyncOpModel) -> Option<WrittenModel<ItemKeyModel, ItemState>> {
    match op.payload {
        SyncOpPayloadModel::PlaylistTrackAdded { playlist_id, content_id, position, .. } => match content_key(
            content_id,
        ) {
            Some(content_id) => Some(
                WrittenModel {
                    key: ItemKeyModel { playlist_id, content_id },
                    value: ItemState { present: true, position },
                    hlc_ms: op.hlc_ms,
                    op_id: op.op_id,
                },
            ),
            None => None,
        },
        SyncOpPayloadModel::PlaylistTrackRemoved { playlist_id, content_id } => match content_key(
            content_id,
        ) {
            Some(content_id) => Some(
                WrittenModel {
                    key: ItemKeyModel { playlist_id, content_id },
                    value: ItemState { present: false, position: 0 },
                    hlc_ms: op.hlc_ms,
                    op_id: op.op_id,
                },
            ),
            None => None,
        },
        _ => None,
    }
}

impl DeviceSyncModel {
    /// Changes arrive one after another, each at its time.
    pub open spec fn received(self, ops: Seq<SyncOpModel>, times: spec_fn(int) -> i64) -> Self
        decreases ops.len(),
    {
        if ops.len() == 0 {
            self
        } else {
            self.received(ops.drop_last(), times).with_op(ops.last(), times(ops.len() - 1))
        }
    }

    /// Nothing is known yet of any change.
    pub open spec fn knows_nothing(self) -> bool {
        self.ops.len() == 0 && self.likes.len() == 0 && self.playlists.len() == 0
            && self.items.len() == 0
    }
}

/// No two changes go by one identifier.
pub open spec fn ids_are_unique(ops: Seq<SyncOpModel>) -> bool {
    forall|i: int, j: int|
        #![trigger ops[i], ops[j]]
        0 <= i < ops.len() && 0 <= j < ops.len() && ops[i].op_id == ops[j].op_id ==> ops[i]
            == ops[j]
}

spec fn concerns<K, V>(write: Option<WrittenModel<K, V>>, key: K) -> bool {
    match write {
        Some(w) => w.key == key,
        None => false,
    }
}

/// A write about the key is not later than `row`.
spec fn is_no_later<K, V>(
    write: Option<WrittenModel<K, V>>,
    row: WrittenModel<K, V>,
    key: K,
) -> bool {
    match write {
        Some(w) => w.key == key ==> !supersedes(w, row),
        None => true,
    }
}

/// Under the key there stands the latest of the writes.
spec fn reads_latest<K, V>(
    rows: Seq<WrittenModel<K, V>>,
    writes: Seq<Option<WrittenModel<K, V>>>,
    key: K,
) -> bool {
    match current(rows, key) {
        None => forall|i: int|
            0 <= i < writes.len() ==> !concerns(#[trigger] writes[i], key),
        Some(row) => row.key == key && writes.contains(Some(row)) && forall|i: int|
            0 <= i < writes.len() ==> is_no_later(#[trigger] writes[i], row, key),
    }
}

proof fn lemma_one_more_write<K, V>(
    rows: Seq<WrittenModel<K, V>>,
    writes: Seq<Option<WrittenModel<K, V>>>,
    write: Option<WrittenModel<K, V>>,
    key: K,
)
    requires
        reads_latest(rows, writes, key),
    ensures
        reads_latest(
            match write {
                Some(row) => written(rows, row),
                None => rows,
            },
            writes.push(write),
            key,
        ),
{
    let all = writes.push(write);
    let n = writes.len() as int;
    assert(all[n] == write);
    assert forall|i: int| 0 <= i < n implies #[trigger] all[i] == writes[i] by {}
    if let Some(row) = current(rows, key) {
        let k = choose|k: int| 0 <= k < n && writes[k] == Some(row);
        assert(all[k] == Some(row));
    }
    if let Some(row) = write {
        a_write_changes_its_key_alone(rows, row, key);
        lemma_one_is_later(row, row);
        if let Some(present) = current(rows, key) {
            lemma_one_is_later(row, present);
            assert forall|i: int| 0 <= i < all.len() implies is_no_later(
                #[trigger] all[i],
                current(written(rows, row), key)->0,
                key,
            ) by {
                if i < n {
                    assert(all[i] == writes[i]);
                    if let Some(w) = writes[i] {
                        lemma_later_than_later(w, row, present);
                    }
                }
            }
        }
    }
}

proof fn lemma_write_again<K, V>(
    rows: Seq<WrittenModel<K, V>>,
    writes: Seq<Option<WrittenModel<K, V>>>,
    write: Option<WrittenModel<K, V>>,
    key: K,
)
    requires
        reads_latest(rows, writes, key),
        writes.contains(write),
    ensures
        reads_latest(rows, writes.push(write), key),
{
    let all = writes.push(write);
    let n = writes.len() as int;
    let m = choose|m: int| 0 <= m < n && writes[m] == write;
    assert(all[n] == writes[m]);
    assert forall|i: int| 0 <= i < n implies #[trigger] all[i] == writes[i] by {}
    if let Some(row) = current(rows, key) {
        let k = choose|k: int| 0 <= k < n && writes[k] == Some(row);
        assert(all[k] == Some(row));
    }
}

proof fn lemma_same_latest<K, V>(
    here: Seq<WrittenModel<K, V>>,
    there: Seq<WrittenModel<K, V>>,
    first: Seq<Option<WrittenModel<K, V>>>,
    second: Seq<Option<WrittenModel<K, V>>>,
    key: K,
)
    requires
        reads_latest(here, first, key),
        reads_latest(there, second, key),
        forall|w: Option<WrittenModel<K, V>>| #[trigger] first.contains(w) <==> second.contains(w),
        forall|a: WrittenModel<K, V>, b: WrittenModel<K, V>|
            #![trigger first.contains(Some(a)), first.contains(Some(b))]
            first.contains(Some(a)) && first.contains(Some(b)) && a.op_id == b.op_id ==> a == b,
    ensures
        current(here, key) == current(there, key),
{
    if let Some(row) = current(here, key) {
        assert(first.contains(Some(row)));
        assert(second.contains(Some(row)));
        let k = choose|k: int| 0 <= k < second.len() && second[k] == Some(row);
        assert(concerns(second[k], key));
    }
    if let Some(row) = current(there, key) {
        assert(second.contains(Some(row)));
        assert(first.contains(Some(row)));
        let k = choose|k: int| 0 <= k < first.len() && first[k] == Some(row);
        assert(concerns(first[k], key));
    }
    if current(here, key) is Some && current(there, key) is Some {
        lemma_one_is_later(current(here, key)->0, current(there, key)->0);
    }
}

/// What the changes of a list write.
spec fn all_writes<W>(ops: Seq<SyncOpModel>, write: spec_fn(SyncOpModel) -> Option<W>) -> Seq<
    Option<W>,
> {
    ops.map_values(write)
}

proof fn lemma_effects_are_writes(store: DeviceSyncModel, op: SyncOpModel, now: i64)
    ensures
        store.with_effect(op, now).ops == store.ops,
        store.with_effect(op, now).likes == (match like_write(op) {
            Some(row) => written(store.likes, row),
            None => store.likes,
        }),
        store.with_effect(op, now).playlists == (match playlist_write(op) {
            Some(row) => written(store.playlists, row),
            None => store.playlists,
        }),
        store.with_effect(op, now).items == (match item_write(op) {
            Some(row) => written(store.items, row),
            None => store.items,
        }),
{
}

proof fn lemma_received(
    store: DeviceSyncModel,
    ops: Seq<SyncOpModel>,
    times: spec_fn(int) -> i64,
    content_id: Seq<char>,
    playlist_id: Seq<char>,
    item: ItemKeyModel,
)
    requires
        store.knows_nothing(),
        ids_are_unique(ops),
    ensures
        ({
            let after = store.received(ops, times);
            &&& forall|op_id: Seq<char>| #[trigger]
                has_op(after.ops, op_id) ==> exists|i: int|
                    0 <= i < ops.len() && (#[trigger] ops[i]).op_id == op_id
            &&& reads_latest(
                after.likes,
                all_writes(ops, |op: SyncOpModel| like_write(op)),
                content_id,
            )
            &&& reads_latest(
                after.playlists,
                all_writes(ops, |op: SyncOpModel| playlist_write(op)),
                playlist_id,
            )
            &&& reads_latest(after.items, all_writes(ops, |op: SyncOpModel| item_write(op)), item)
        }),
    decreases ops.len(),
{
    reveal(DeviceSyncModel::with_op);
    let likes = |op: SyncOpModel| like_write(op);
    let playlists = |op: SyncOpModel| playlist_write(op);
    let items = |op: SyncOpModel| item_write(op);
    if ops.len() > 0 {
        let front = ops.drop_last();
        let op = ops.last();
        let now = times(ops.len() - 1);
        assert forall|i: int, j: int|
            #![trigger front[i], front[j]]
            0 <= i < front.len() && 0 <= j < front.len() && front[i].op_id
                == front[j].op_id implies front[i] == front[j] by {
            assert(ops[i] == front[i] && ops[j] == front[j]);
        }
        lemma_received(store, front, times, content_id, playlist_id, item);
        let before = store.received(front, times);
        let after = store.received(ops, times);
        assert(all_writes(ops, likes) =~= all_writes(front, likes).push(like_write(op)));
        assert(all_writes(ops, playlists) =~= all_writes(front, playlists).push(playlist_write(op)));
        assert(all_writes(ops, items) =~= all_writes(front, items).push(item_write(op)));
        if has_op(before.ops, op.op_id) {
            let i = choose|i: int| 0 <= i < front.len() && (#[trigger] front[i]).op_id == op.op_id;
            assert(ops[i] == front[i] && ops[ops.len() - 1] == op);
            assert(front[i] == op);
            assert(all_writes(front, likes)[i] == like_write(op));
            assert(all_writes(front, playlists)[i] == playlist_write(op));
            assert(all_writes(front, items)[i] == item_write(op));
            lemma_write_again(before.likes, all_writes(front, likes), like_write(op), content_id);
            lemma_write_again(
                before.playlists,
                all_writes(front, playlists),
                playlist_write(op),
                playlist_id,
            );
            lemma_write_again(before.items, all_writes(front, items), item_write(op), item);
        } else {
            let noted = DeviceSyncModel {
                ops: before.ops.push(StoredOpModel { op, received_at_ms: now }),
                vector: crate::device_store::with_change(
                    before.vector,
                    op.origin_device_id,
                    op.seq,
                ),
                ..before
            };
            lemma_effects_are_writes(noted, op, now);
            assert(after == noted.with_effect(op, now));
            lemma_one_more_write(before.likes, all_writes(front, likes), like_write(op), content_id);
            lemma_one_more_write(
                before.playlists,
                all_writes(front, playlists),
                playlist_write(op),
                playlist_id,
            );
            lemma_one_more_write(before.items, all_writes(front, items), item_write(op), item);
        }
        assert forall|op_id: Seq<char>| #[trigger] has_op(after.ops, op_id) implies exists|i: int|
            0 <= i < ops.len() && (#[trigger] ops[i]).op_id == op_id by {
            let k = choose|k: int| 0 <= k < after.ops.len() && (#[trigger] after.ops[k]).op.op_id
                == op_id;
            if k < before.ops.len() {
                assert(before.ops[k].op.op_id == op_id);
                assert(has_op(before.ops, op_id));
                let i = choose|i: int| 0 <= i < front.len() && (#[trigger] front[i]).op_id == op_id;
                assert(ops[i].op_id == op_id);
            } else {
                assert(ops[ops.len() - 1].op_id == op_id);
            }
        }
    }
}

proof fn lemma_same_writes<W>(
    first: Seq<SyncOpModel>,
    second: Seq<SyncOpModel>,
    write: spec_fn(SyncOpModel) -> Option<W>,
)
    requires
        forall|op: SyncOpModel| #[trigger] first.contains(op) <==> second.contains(op),
    ensures
        forall|w: Option<W>| #[trigger]
            all_writes(first, write).contains(w) <==> all_writes(second, write).contains(w),
{
    assert forall|w: Option<W>| #[trigger] all_writes(first, write).contains(w) implies all_writes(
        second,
        write,
    ).contains(w) by {
        let i = choose|i: int| 0 <= i < first.len() && all_writes(first, write)[i] == w;
        assert(first.contains(first[i]));
        let j = choose|j: int| 0 <= j < second.len() && second[j] == first[i];
        assert(all_writes(second, write)[j] == w);
    }
    assert forall|w: Option<W>| all_writes(second, write).contains(w) implies #[trigger] all_writes(
        first,
        write,
    ).contains(w) by {
        let i = choose|i: int| 0 <= i < second.len() && all_writes(second, write)[i] == w;
        assert(second.contains(second[i]));
        assert(first.contains(second[i]));
        let j = choose|j: int| 0 <= j < first.len() && first[j] == second[i];
        assert(all_writes(first, write)[j] == w);
    }
}

/// Two devices that have received the same changes know the same likes, the
/// same playlists and the same tracks on them, whatever order the changes came
/// in, when they came and how often, as long as no two go by one identifier.
pub proof fn devices_agree(
    here: DeviceSyncModel,
    there: DeviceSyncModel,
    first: Seq<SyncOpModel>,
    second: Seq<SyncOpModel>,
    times: spec_fn(int) -> i64,
    others: spec_fn(int) -> i64,
    content_id: Seq<char>,
    playlist_id: Seq<char>,
    item: ItemKeyModel,
)
    requires
        here.knows_nothing(),
        there.knows_nothing(),
        ids_are_unique(first),
        forall|op: SyncOpModel| #[trigger] first.contains(op) <==> second.contains(op),
    ensures
        ({
            let a = here.received(first, times);
            let b = there.received(second, others);
            &&& current(a.likes, content_id) == current(b.likes, content_id)
            &&& current(a.playlists, playlist_id) == current(b.playlists, playlist_id)
            &&& current(a.items, item) == current(b.items, item)
        }),
{
    assert(ids_are_unique(second)) by {
        assert forall|i: int, j: int|
            #![trigger second[i], second[j]]
            0 <= i < second.len() && 0 <= j < second.len() && second[i].op_id
                == second[j].op_id implies second[i] == second[j] by {
            assert(second.contains(second[i]) && second.contains(second[j]));
            assert(first.contains(second[i]) && first.contains(second[j]));
            let k = choose|k: int| 0 <= k < first.len() && first[k] == second[i];
            let l = choose|l: int| 0 <= l < first.len() && first[l] == second[j];
            assert(first[k] == first[l]);
        }
    }
    lemma_received(here, first, times, content_id, playlist_id, item);
    lemma_received(there, second, others, content_id, playlist_id, item);
    let a = here.received(first, times);
    let b = there.received(second, others);
    let likes = |op: SyncOpModel| like_write(op);
    let playlists = |op: SyncOpModel| playlist_write(op);
    let items = |op: SyncOpModel| item_write(op);
    lemma_same_writes(first, second, likes);
    lemma_same_writes(first, second, playlists);
    lemma_same_writes(first, second, items);
    assert(forall|i: int|
        0 <= i < first.len() ==> (#[trigger] all_writes(first, likes)[i]) == like_write(first[i]));
    assert(forall|i: int|
        0 <= i < first.len() ==> (#[trigger] all_writes(first, playlists)[i]) == playlist_write(
            first[i],
        ));
    assert(forall|i: int|
        0 <= i < first.len() ==> (#[trigger] all_writes(first, items)[i]) == item_write(first[i]));
    lemma_same_latest(
        a.likes,
        b.likes,
        all_writes(first, likes),
        all_writes(second, likes),
        content_id,
    );
    lemma_same_latest(
        a.playlists,
        b.playlists,
        all_writes(first, playlists),
        all_writes(second, playlists),
        playlist_id,
    );
    lemma_same_latest(a.items, b.items, all_writes(first, items), all_writes(second, items), item);
}

} // verus!

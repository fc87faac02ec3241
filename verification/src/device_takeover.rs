//! A device that takes over what another one knows is up to date with it.
use crate::device_laws::{
    has_latest, is_up_to_date, lemma_latest_stays, lemma_written_is_latest,
};
use crate::device_snapshot::{
    by_playlist_id, deleted_now, items_on, playlists_now, removed_now,
};
use crate::device_store::{ItemKeyModel, ItemState, PlaylistStateModel, DeviceSyncModel};
use crate::registers::WrittenModel;
use crate::sort::{sorting_is_a_permutation, stable_sorted};
use crate::sync_ops::{
    SnapshotPlaylistItemModel, SnapshotPlaylistItemTombstoneModel, SnapshotPlaylistModel,
    SnapshotPlaylistTombstoneModel,
};
use crate::wire::content_key;
use vstd::prelude::*;

verus! {

/// What is sent of a playlist that stands.
spec fn sent_row(playlist: SnapshotPlaylistModel) -> WrittenModel<Seq<char>, PlaylistStateModel> {
    WrittenModel {
        key: playlist.playlist_id,
        value: PlaylistStateModel { title: playlist.title, deleted: false },
        hlc_ms: playlist.hlc_ms,
        op_id: playlist.op_id,
    }
}

/// What is sent of a track on a playlist.
spec fn sent_item(playlist_id: Seq<char>, item: SnapshotPlaylistItemModel) -> WrittenModel<
    ItemKeyModel,
    ItemState,
> {
    WrittenModel {
        key: ItemKeyModel { playlist_id, content_id: item.content_id },
        value: ItemState { present: true, position: item.position },
        hlc_ms: item.hlc_ms,
        op_id: item.op_id,
    }
}

/// The tracks of a playlist arrive: the playlists stay, no track gets older, and
/// each of the tracks is there.
proof fn lemma_items_on_arrive(
    store: DeviceSyncModel,
    playlist_id: Seq<char>,
    items: Seq<SnapshotPlaylistItemModel>,
    row: WrittenModel<ItemKeyModel, ItemState>,
)
    ensures
        store.with_items_on(playlist_id, items).playlists == store.playlists,
        has_latest(store.items, row) ==> has_latest(
            store.with_items_on(playlist_id, items).items,
            row,
        ),
        forall|k: int|
            0 <= k < items.len() && content_key((#[trigger] items[k]).content_id) == Some(
                items[k].content_id,
            ) ==> has_latest(
                store.with_items_on(playlist_id, items).items,
                sent_item(playlist_id, items[k]),
            ),
    decreases items.len(),
{
    if items.len() > 0 {
        let front = items.drop_last();
        let last = items.last();
        lemma_items_on_arrive(store, playlist_id, front, row);
        let before = store.with_items_on(playlist_id, front);
        let after = store.with_items_on(playlist_id, items);
        if let Some(content_id) = content_key(last.content_id) {
            let write = WrittenModel {
                key: ItemKeyModel { playlist_id, content_id },
                value: ItemState { present: true, position: last.position },
                hlc_ms: last.hlc_ms,
                op_id: last.op_id,
            };
            assert(after.items == crate::registers::written(before.items, write));
            if has_latest(before.items, row) {
                lemma_latest_stays(before.items, write, row);
            }
            lemma_written_is_latest(before.items, write);
            assert forall|k: int|
                0 <= k < items.len() && content_key((#[trigger] items[k]).content_id) == Some(
                    items[k].content_id,
                ) implies has_latest(after.items, sent_item(playlist_id, items[k])) by {
                if k < front.len() {
                    assert(front[k] == items[k]);
                    lemma_latest_stays(before.items, write, sent_item(playlist_id, items[k]));
                } else {
                    assert(sent_item(playlist_id, items[k]) == write);
                }
            }
        } else {
            assert forall|k: int|
                0 <= k < items.len() && content_key((#[trigger] items[k]).content_id) == Some(
                    items[k].content_id,
                ) implies has_latest(after.items, sent_item(playlist_id, items[k])) by {
                assert(front[k] == items[k]);
            }
        }
    }
}

/// Playlists arrive: nothing gets older, and each playlist and each of its
/// tracks is there.
proof fn lemma_playlists_arrive(
    store: DeviceSyncModel,
    playlists: Seq<SnapshotPlaylistModel>,
    row: WrittenModel<Seq<char>, PlaylistStateModel>,
    item: WrittenModel<ItemKeyModel, ItemState>,
)
    ensures
        has_latest(store.playlists, row) ==> has_latest(
            store.with_playlists(playlists).playlists,
            row,
        ),
        has_latest(store.items, item) ==> has_latest(store.with_playlists(playlists).items, item),
        forall|k: int|
            0 <= k < playlists.len() ==> has_latest(
                store.with_playlists(playlists).playlists,
                sent_row(#[trigger] playlists[k]),
            ),
        forall|k: int, m: int|
            0 <= k < playlists.len() && 0 <= m < playlists[k].items.len() && content_key(
                playlists[k].items[m].content_id,
            ) == Some(playlists[k].items[m].content_id) ==> has_latest(
                store.with_playlists(playlists).items,
                #[trigger] sent_item(playlists[k].playlist_id, playlists[k].items[m]),
            ),
    decreases playlists.len(),
{
    if playlists.len() > 0 {
        let front = playlists.drop_last();
        let last = playlists.last();
        lemma_playlists_arrive(store, front, row, item);
        let before = store.with_playlists(front);
        let named = before.with_playlist(
            last.playlist_id,
            last.title,
            false,
            last.hlc_ms,
            last.op_id,
        );
        let after = store.with_playlists(playlists);
        let write = sent_row(last);
        assert(named.playlists == crate::registers::written(before.playlists, write));
        assert(named.items == before.items);
        if has_latest(before.playlists, row) {
            lemma_latest_stays(before.playlists, write, row);
        }
        lemma_written_is_latest(before.playlists, write);
        lemma_items_on_arrive(named, last.playlist_id, last.items, item);
        assert forall|k: int| 0 <= k < playlists.len() implies has_latest(
            after.playlists,
            sent_row(#[trigger] playlists[k]),
        ) by {
            if k < front.len() {
                assert(front[k] == playlists[k]);
                lemma_latest_stays(before.playlists, write, sent_row(playlists[k]));
            }
        }
        assert forall|k: int, m: int|
            0 <= k < playlists.len() && 0 <= m < playlists[k].items.len() && content_key(
                playlists[k].items[m].content_id,
            ) == Some(playlists[k].items[m].content_id) implies has_latest(
            after.items,
            #[trigger] sent_item(playlists[k].playlist_id, playlists[k].items[m]),
        ) by {
            if k < front.len() {
                assert(front[k] == playlists[k]);
                let there = sent_item(front[k].playlist_id, front[k].items[m]);
                assert(has_latest(before.items, there));
                lemma_items_on_arrive(named, last.playlist_id, last.items, there);
            }
        }
    }
}

proof fn lemma_deletions_arrive(
    store: DeviceSyncModel,
    deleted: Seq<SnapshotPlaylistTombstoneModel>,
    row: WrittenModel<Seq<char>, PlaylistStateModel>,
)
    ensures
        store.with_deletions(deleted).items == store.items,
        has_latest(store.playlists, row) ==> has_latest(
            store.with_deletions(deleted).playlists,
            row,
        ),
        (exists|k: int|
            0 <= k < deleted.len() && (#[trigger] deleted[k]).playlist_id == row.key
                && deleted[k].hlc_ms == row.hlc_ms && deleted[k].op_id == row.op_id) ==> has_latest(
            store.with_deletions(deleted).playlists,
            row,
        ),
    decreases deleted.len(),
{
    if deleted.len() > 0 {
        let front = deleted.drop_last();
        let last = deleted.last();
        lemma_deletions_arrive(store, front, row);
        let before = store.with_deletions(front);
        let write = WrittenModel {
            key: last.playlist_id,
            value: PlaylistStateModel { title: Seq::empty(), deleted: true },
            hlc_ms: last.hlc_ms,
            op_id: last.op_id,
        };
        let after = store.with_deletions(deleted);
        assert(after.playlists == crate::registers::written(before.playlists, write));
        if has_latest(before.playlists, row) {
            lemma_latest_stays(before.playlists, write, row);
        }
        lemma_written_is_latest(before.playlists, write);
        if exists|k: int|
            0 <= k < deleted.len() && (#[trigger] deleted[k]).playlist_id == row.key
                && deleted[k].hlc_ms == row.hlc_ms && deleted[k].op_id == row.op_id {
            let k = choose|k: int|
                0 <= k < deleted.len() && (#[trigger] deleted[k]).playlist_id == row.key
                    && deleted[k].hlc_ms == row.hlc_ms && deleted[k].op_id == row.op_id;
            if k < front.len() {
                assert(front[k] == deleted[k]);
            } else {
                assert(has_latest(after.playlists, write));
            }
        }
    }
}

proof fn lemma_removals_arrive(
    store: DeviceSyncModel,
    removed: Seq<SnapshotPlaylistItemTombstoneModel>,
    row: WrittenModel<ItemKeyModel, ItemState>,
)
    requires
        content_key(row.key.content_id) == Some(row.key.content_id),
    ensures
        store.with_removals(removed).playlists == store.playlists,
        has_latest(store.items, row) ==> has_latest(store.with_removals(removed).items, row),
        (exists|k: int|
            0 <= k < removed.len() && (#[trigger] removed[k]).playlist_id == row.key.playlist_id
                && removed[k].content_id == row.key.content_id && removed[k].hlc_ms == row.hlc_ms
                && removed[k].op_id == row.op_id) ==> has_latest(
            store.with_removals(removed).items,
            row,
        ),
    decreases removed.len(),
{
    if removed.len() > 0 {
        let front = removed.drop_last();
        let last = removed.last();
        lemma_removals_arrive(store, front, row);
        let before = store.with_removals(front);
        let after = store.with_removals(removed);
        if let Some(content_id) = content_key(last.content_id) {
            let write = WrittenModel {
                key: ItemKeyModel { playlist_id: last.playlist_id, content_id },
                value: ItemState { present: false, position: 0 },
                hlc_ms: last.hlc_ms,
                op_id: last.op_id,
            };
            assert(after.items == crate::registers::written(before.items, write));
            if has_latest(before.items, row) {
                lemma_latest_stays(before.items, write, row);
            }
            lemma_written_is_latest(before.items, write);
        }
        if exists|k: int|
            0 <= k < removed.len() && (#[trigger] removed[k]).playlist_id == row.key.playlist_id
                && removed[k].content_id == row.key.content_id && removed[k].hlc_ms == row.hlc_ms
                && removed[k].op_id == row.op_id {
            let k = choose|k: int|
                0 <= k < removed.len() && (#[trigger] removed[k]).playlist_id
                    == row.key.playlist_id && removed[k].content_id == row.key.content_id
                    && removed[k].hlc_ms == row.hlc_ms && removed[k].op_id == row.op_id;
            if k < front.len() {
                assert(front[k] == removed[k]);
            }
        }
    }
}

proof fn lemma_standing_are_sent(
    playlists: Seq<WrittenModel<Seq<char>, PlaylistStateModel>>,
    items: Seq<WrittenModel<ItemKeyModel, ItemState>>,
    i: int,
)
    requires
        0 <= i < playlists.len(),
        !playlists[i].value.deleted,
    ensures
        playlists_now(playlists, items).contains(
            SnapshotPlaylistModel {
                playlist_id: playlists[i].key,
                title: playlists[i].value.title,
                hlc_ms: playlists[i].hlc_ms,
                op_id: playlists[i].op_id,
                items: items_on(items, playlists[i].key),
            },
        ),
    decreases playlists.len(),
{
    let front = playlists.drop_last();
    let sent = playlists_now(playlists, items);
    if i < front.len() {
        assert(front[i] == playlists[i]);
        lemma_standing_are_sent(front, items, i);
        let before = playlists_now(front, items);
        let x = SnapshotPlaylistModel {
            playlist_id: playlists[i].key,
            title: playlists[i].value.title,
            hlc_ms: playlists[i].hlc_ms,
            op_id: playlists[i].op_id,
            items: items_on(items, playlists[i].key),
        };
        let k = choose|k: int| 0 <= k < before.len() && before[k] == x;
        assert(sent[k] == x);
    } else {
        assert(sent[sent.len() - 1].playlist_id == playlists[i].key);
    }
}

proof fn lemma_deleted_are_sent(
    playlists: Seq<WrittenModel<Seq<char>, PlaylistStateModel>>,
    i: int,
)
    requires
        0 <= i < playlists.len(),
        playlists[i].value.deleted,
    ensures
        exists|k: int|
            0 <= k < deleted_now(playlists).len() && (#[trigger] deleted_now(
                playlists,
            )[k]).playlist_id == playlists[i].key && deleted_now(playlists)[k].hlc_ms
                == playlists[i].hlc_ms && deleted_now(playlists)[k].op_id == playlists[i].op_id,
    decreases playlists.len(),
{
    let front = playlists.drop_last();
    let sent = deleted_now(playlists);
    if i < front.len() {
        assert(front[i] == playlists[i]);
        lemma_deleted_are_sent(front, i);
        let before = deleted_now(front);
        let k = choose|k: int|
            0 <= k < before.len() && (#[trigger] before[k]).playlist_id == front[i].key
                && before[k].hlc_ms == front[i].hlc_ms && before[k].op_id == front[i].op_id;
        assert(sent[k] == before[k]);
    } else {
        assert(sent[sent.len() - 1].playlist_id == playlists[i].key);
    }
}

proof fn lemma_present_are_sent(items: Seq<WrittenModel<ItemKeyModel, ItemState>>, i: int)
    requires
        0 <= i < items.len(),
        items[i].value.present,
    ensures
        exists|k: int|
            0 <= k < items_on(items, items[i].key.playlist_id).len() && sent_item(
                items[i].key.playlist_id,
                #[trigger] items_on(items, items[i].key.playlist_id)[k],
            ) == items[i],
    decreases items.len(),
{
    let front = items.drop_last();
    let id = items[i].key.playlist_id;
    let sent = items_on(items, id);
    if i < front.len() {
        assert(front[i] == items[i]);
        lemma_present_are_sent(front, i);
        let before = items_on(front, id);
        let k = choose|k: int|
            0 <= k < before.len() && sent_item(id, #[trigger] before[k]) == items[i];
        assert(sent[k] == before[k]);
    } else {
        assert(sent_item(id, sent[sent.len() - 1]) == items[i]);
    }
}

proof fn lemma_removed_are_sent(items: Seq<WrittenModel<ItemKeyModel, ItemState>>, i: int)
    requires
        0 <= i < items.len(),
        !items[i].value.present,
    ensures
        exists|k: int|
            0 <= k < removed_now(items).len() && (#[trigger] removed_now(items)[k]).playlist_id
                == items[i].key.playlist_id && removed_now(items)[k].content_id
                == items[i].key.content_id && removed_now(items)[k].hlc_ms == items[i].hlc_ms
                && removed_now(items)[k].op_id == items[i].op_id,
    decreases items.len(),
{
    let front = items.drop_last();
    let sent = removed_now(items);
    if i < front.len() {
        assert(front[i] == items[i]);
        lemma_removed_are_sent(front, i);
        let before = removed_now(front);
        let k = choose|k: int|
            0 <= k < before.len() && (#[trigger] before[k]).playlist_id
                == front[i].key.playlist_id && before[k].content_id == front[i].key.content_id
                && before[k].hlc_ms == front[i].hlc_ms && before[k].op_id == front[i].op_id;
        assert(sent[k] == before[k]);
    } else {
        assert(sent[sent.len() - 1].content_id == items[i].key.content_id);
    }
}

/// A device that takes over what another one knows has no playlist, title or
/// deletion that is older than the other's.
pub proof fn a_snapshot_brings_playlists_up_to_date(here: DeviceSyncModel, there: DeviceSyncModel)
    ensures
        is_up_to_date(here.with_snapshot(there.snapshot()).playlists, there.playlists),
{
    reveal(DeviceSyncModel::with_snapshot);
    let snapshot = there.snapshot();
    let liked = here.with_likes(snapshot.likes).with_unlikes(snapshot.unlikes);
    let named = liked.with_playlists(snapshot.playlists);
    let deleted = named.with_deletions(snapshot.deleted_playlists);
    let after = here.with_snapshot(snapshot);
    let nothing = WrittenModel {
        key: ItemKeyModel { playlist_id: Seq::empty(), content_id: Seq::empty() },
        value: ItemState { present: false, position: 0 },
        hlc_ms: 0,
        op_id: Seq::empty(),
    };
    assert forall|i: int| 0 <= i < there.playlists.len() implies has_latest(
        after.playlists,
        #[trigger] there.playlists[i],
    ) by {
        let row = there.playlists[i];
        lemma_removals_leave_playlists(deleted, snapshot.removed_playlist_items);
        lemma_deletions_arrive(named, snapshot.deleted_playlists, row);
        if row.value.deleted {
            lemma_deleted_are_sent(there.playlists, i);
        } else {
            lemma_standing_are_sent(there.playlists, there.items, i);
            let x = SnapshotPlaylistModel {
                playlist_id: row.key,
                title: row.value.title,
                hlc_ms: row.hlc_ms,
                op_id: row.op_id,
                items: items_on(there.items, row.key),
            };
            lemma_sorted_contains(playlists_now(there.playlists, there.items), x);
            let k = choose|k: int|
                0 <= k < snapshot.playlists.len() && snapshot.playlists[k] == x;
            lemma_playlists_arrive(liked, snapshot.playlists, row, nothing);
            assert(sent_row(snapshot.playlists[k]) == row);
        }
    }
}

proof fn lemma_removals_leave_playlists(
    store: DeviceSyncModel,
    removed: Seq<SnapshotPlaylistItemTombstoneModel>,
)
    ensures
        store.with_removals(removed).playlists == store.playlists,
    decreases removed.len(),
{
    if removed.len() > 0 {
        lemma_removals_leave_playlists(store, removed.drop_last());
    }
}

proof fn lemma_sorted_contains(playlists: Seq<SnapshotPlaylistModel>, x: SnapshotPlaylistModel)
    requires
        playlists.contains(x),
    ensures
        stable_sorted(playlists, by_playlist_id()).contains(x),
{
    broadcast use vstd::seq_lib::group_to_multiset_ensures;

    sorting_is_a_permutation(playlists, by_playlist_id());
    let sorted = stable_sorted(playlists, by_playlist_id());
    assert(playlists.to_multiset().count(x) > 0);
    assert(sorted.to_multiset().count(x) > 0);
}

/// Whether a playlist stands.
pub open spec fn stands(
    playlists: Seq<WrittenModel<Seq<char>, PlaylistStateModel>>,
    playlist_id: Seq<char>,
) -> bool {
    exists|i: int|
        0 <= i < playlists.len() && (#[trigger] playlists[i]).key == playlist_id
            && !playlists[i].value.deleted
}

/// A device that takes over what another one knows has nothing of a track on a
/// playlist that is older than what the other knows of it: neither that it was
/// removed, nor that it is on the playlist, where the playlist stands. Tracks on
/// playlists that were deleted are not told of.
pub proof fn a_snapshot_brings_items_up_to_date(
    here: DeviceSyncModel,
    there: DeviceSyncModel,
    i: int,
)
    requires
        0 <= i < there.items.len(),
        content_key(there.items[i].key.content_id) == Some(there.items[i].key.content_id),
        there.items[i].value.present ==> stands(there.playlists, there.items[i].key.playlist_id),
    ensures
        has_latest(here.with_snapshot(there.snapshot()).items, there.items[i]),
{
    reveal(DeviceSyncModel::with_snapshot);
    let snapshot = there.snapshot();
    let row = there.items[i];
    let liked = here.with_likes(snapshot.likes).with_unlikes(snapshot.unlikes);
    let named = liked.with_playlists(snapshot.playlists);
    let deleted = named.with_deletions(snapshot.deleted_playlists);
    lemma_removals_arrive(deleted, snapshot.removed_playlist_items, row);
    let any = WrittenModel {
        key: Seq::<char>::empty(),
        value: PlaylistStateModel { title: Seq::empty(), deleted: false },
        hlc_ms: 0,
        op_id: Seq::empty(),
    };
    lemma_deletions_arrive(named, snapshot.deleted_playlists, any);
    if row.value.present {
        let id = row.key.playlist_id;
        let p = choose|p: int|
            0 <= p < there.playlists.len() && (#[trigger] there.playlists[p]).key == id
                && !there.playlists[p].value.deleted;
        lemma_standing_are_sent(there.playlists, there.items, p);
        let list = there.playlists[p];
        let x = SnapshotPlaylistModel {
            playlist_id: list.key,
            title: list.value.title,
            hlc_ms: list.hlc_ms,
            op_id: list.op_id,
            items: items_on(there.items, list.key),
        };
        lemma_sorted_contains(playlists_now(there.playlists, there.items), x);
        let k = choose|k: int| 0 <= k < snapshot.playlists.len() && snapshot.playlists[k] == x;
        lemma_playlists_arrive(liked, snapshot.playlists, any, row);
        lemma_present_are_sent(there.items, i);
        let m = choose|m: int|
            0 <= m < items_on(there.items, id).len() && sent_item(
                id,
                #[trigger] items_on(there.items, id)[m],
            ) == row;
        assert(sent_item(snapshot.playlists[k].playlist_id, snapshot.playlists[k].items[m]) == row);
        assert(snapshot.playlists[k].items[m].content_id == row.key.content_id);
    } else {
        lemma_removed_are_sent(there.items, i);
    }
}

} // verus!

//! What a device sends to another one: its whole state, and the changes that
//! the other one lacks.
use crate::device_store::{
    ack_index, acknowledged, ItemKey, ItemKeyModel, ItemState, PlaylistState, PlaylistStateModel,
    StoreAction, StoreActionModel, StoredOp, StoredOpModel, DeviceSync, DeviceSyncModel,
    MAX_OPS_PER_BATCH, PLAYBACK_COMMAND_TTL_MS,
};
use crate::find::{first_where, lemma_first_where};
use crate::registers::{Written, WrittenModel};
use crate::sort::{kept, lemma_sorted_views, stable_sort, stable_sorted};
use crate::sync_ops::{
    SnapshotLike, SnapshotLikeModel, SnapshotLikeTombstone, SnapshotLikeTombstoneModel,
    SnapshotPlaylist, SnapshotPlaylistItem, SnapshotPlaylistItemModel,
    SnapshotPlaylistItemTombstone, SnapshotPlaylistItemTombstoneModel, SnapshotPlaylistModel,
    SnapshotPlaylistTombstone, SnapshotPlaylistTombstoneModel, SyncOp, SyncOpModel, SyncOpPayload,
    SyncSnapshot, SyncSnapshotModel,
};
use crate::text::{str_lt, text_lt};
use crate::views::views;
use crate::wire::{DevicePlayback, DevicePlaybackModel};
use vstd::prelude::*;

verus! {

broadcast use crate::views::group_views;

pub open spec fn liked_now(likes: Seq<WrittenModel<Seq<char>, bool>>) -> Seq<SnapshotLikeModel>
    decreases likes.len(),
{
    if likes.len() == 0 {
        Seq::empty()
    } else {
        let before = liked_now(likes.drop_last());
        let row = likes.last();
        if row.value {
            before.push(
                SnapshotLikeModel {
                    content_id: row.key,
                    hlc_ms: row.hlc_ms,
                    op_id: row.op_id,
                    fed: None,
                },
            )
        } else {
            before
        }
    }
}

pub open spec fn unliked_now(likes: Seq<WrittenModel<Seq<char>, bool>>) -> Seq<
    SnapshotLikeTombstoneModel,
>
    decreases likes.len(),
{
    if likes.len() == 0 {
        Seq::empty()
    } else {
        let before = unliked_now(likes.drop_last());
        let row = likes.last();
        if row.value {
            before
        } else {
            before.push(
                SnapshotLikeTombstoneModel {
                    content_id: row.key,
                    hlc_ms: row.hlc_ms,
                    op_id: row.op_id,
                },
            )
        }
    }
}

/// The tracks on one playlist.
pub open spec fn items_on(items: Seq<WrittenModel<ItemKeyModel, ItemState>>, playlist_id: Seq<char>) -> Seq<
    SnapshotPlaylistItemModel,
>
    decreases items.len(),
{
    if items.len() == 0 {
        Seq::empty()
    } else {
        let before = items_on(items.drop_last(), playlist_id);
        let row = items.last();
        if row.value.present && row.key.playlist_id == playlist_id {
            before.push(
                SnapshotPlaylistItemModel {
                    content_id: row.key.content_id,
                    position: row.value.position,
                    hlc_ms: row.hlc_ms,
                    op_id: row.op_id,
                    fed: None,
                },
            )
        } else {
            before
        }
    }
}

pub open spec fn removed_now(items: Seq<WrittenModel<ItemKeyModel, ItemState>>) -> Seq<
    SnapshotPlaylistItemTombstoneModel,
>
    decreases items.len(),
{
    if items.len() == 0 {
        Seq::empty()
    } else {
        let before = removed_now(items.drop_last());
        let row = items.last();
        if row.value.present {
            before
        } else {
            before.push(
                SnapshotPlaylistItemTombstoneModel {
                    playlist_id: row.key.playlist_id,
                    content_id: row.key.content_id,
                    hlc_ms: row.hlc_ms,
                    op_id: row.op_id,
                },
            )
        }
    }
}

/// The playlists that stand, each with its tracks.
pub open spec fn playlists_now(
    playlists: Seq<WrittenModel<Seq<char>, PlaylistStateModel>>,
    items: Seq<WrittenModel<ItemKeyModel, ItemState>>,
) -> Seq<SnapshotPlaylistModel>
    decreases playlists.len(),
{
    if playlists.len() == 0 {
        Seq::empty()
    } else {
        let before = playlists_now(playlists.drop_last(), items);
        let row = playlists.last();
        if row.value.deleted {
            before
        } else {
            before.push(
                SnapshotPlaylistModel {
                    playlist_id: row.key,
                    title: row.value.title,
                    hlc_ms: row.hlc_ms,
                    op_id: row.op_id,
                    items: items_on(items, row.key),
                },
            )
        }
    }
}

pub open spec fn deleted_now(playlists: Seq<WrittenModel<Seq<char>, PlaylistStateModel>>) -> Seq<
    SnapshotPlaylistTombstoneModel,
>
    decreases playlists.len(),
{
    if playlists.len() == 0 {
        Seq::empty()
    } else {
        let before = deleted_now(playlists.drop_last());
        let row = playlists.last();
        if row.value.deleted {
            before.push(
                SnapshotPlaylistTombstoneModel {
                    playlist_id: row.key,
                    hlc_ms: row.hlc_ms,
                    op_id: row.op_id,
                },
            )
        } else {
            before
        }
    }
}

pub open spec fn by_playlist_id() -> spec_fn(SnapshotPlaylistModel, SnapshotPlaylistModel) -> bool {
    |a: SnapshotPlaylistModel, b: SnapshotPlaylistModel| text_lt(a.playlist_id, b.playlist_id)
}

impl DeviceSyncModel {
    /// All that is known of likes and playlists, the playlists by their
    /// identifiers.
    pub open spec fn snapshot(self) -> SyncSnapshotModel {
        SyncSnapshotModel {
            likes: liked_now(self.likes),
            unlikes: unliked_now(self.likes),
            playlists: stable_sorted(playlists_now(self.playlists, self.items), by_playlist_id()),
            deleted_playlists: deleted_now(self.playlists),
            removed_playlist_items: removed_now(self.items),
        }
    }

    pub open spec fn with_likes(self, likes: Seq<SnapshotLikeModel>) -> Self
        decreases likes.len(),
    {
        if likes.len() == 0 {
            self
        } else {
            let like = likes.last();
            self.with_likes(likes.drop_last()).with_like(
                like.content_id,
                true,
                like.fed,
                like.hlc_ms,
                like.op_id,
            )
        }
    }

    pub open spec fn with_unlikes(self, unlikes: Seq<SnapshotLikeTombstoneModel>) -> Self
        decreases unlikes.len(),
    {
        if unlikes.len() == 0 {
            self
        } else {
            let unlike = unlikes.last();
            self.with_unlikes(unlikes.drop_last()).with_like(
                unlike.content_id,
                false,
                None,
                unlike.hlc_ms,
                unlike.op_id,
            )
        }
    }

    pub open spec fn with_items_on(
        self,
        playlist_id: Seq<char>,
        items: Seq<SnapshotPlaylistItemModel>,
    ) -> Self
        decreases items.len(),
    {
        if items.len() == 0 {
            self
        } else {
            let item = items.last();
            self.with_items_on(playlist_id, items.drop_last()).with_item(
                playlist_id,
                item.content_id,
                ItemState { present: true, position: item.position },
                item.fed,
                item.hlc_ms,
                item.op_id,
            )
        }
    }

    pub open spec fn with_playlists(self, playlists: Seq<SnapshotPlaylistModel>) -> Self
        decreases playlists.len(),
    {
        if playlists.len() == 0 {
            self
        } else {
            let playlist = playlists.last();
            self.with_playlists(playlists.drop_last()).with_playlist(
                playlist.playlist_id,
                playlist.title,
                false,
                playlist.hlc_ms,
                playlist.op_id,
            ).with_items_on(playlist.playlist_id, playlist.items)
        }
    }

    pub open spec fn with_deletions(self, deleted: Seq<SnapshotPlaylistTombstoneModel>) -> Self
        decreases deleted.len(),
    {
        if deleted.len() == 0 {
            self
        } else {
            let playlist = deleted.last();
            self.with_deletions(deleted.drop_last()).with_playlist(
                playlist.playlist_id,
                Seq::empty(),
                true,
                playlist.hlc_ms,
                playlist.op_id,
            )
        }
    }

    pub open spec fn with_removals(self, removed: Seq<SnapshotPlaylistItemTombstoneModel>) -> Self
        decreases removed.len(),
    {
        if removed.len() == 0 {
            self
        } else {
            let item = removed.last();
            self.with_removals(removed.drop_last()).with_item(
                item.playlist_id,
                item.content_id,
                ItemState { present: false, position: 0 },
                None,
                item.hlc_ms,
                item.op_id,
            )
        }
    }

    /// Another device's whole state arrives.
    #[verifier::opaque]
    pub open spec fn with_snapshot(self, snapshot: SyncSnapshotModel) -> Self {
        self.with_likes(snapshot.likes).with_unlikes(snapshot.unlikes).with_playlists(
            snapshot.playlists,
        ).with_deletions(snapshot.deleted_playlists).with_removals(
            snapshot.removed_playlist_items,
        ).act(StoreActionModel::DevicesChanged)
    }

    /// The changes that a peer lacks, as far as they are not stale.
    pub open spec fn lacking(self, peer: Seq<char>, now: i64) -> spec_fn(StoredOpModel) -> bool {
        |stored: StoredOpModel|
            {
                &&& stored.op.seq > acknowledged(self.acks, peer, stored.op.origin_device_id)
                &&& stored.op.payload is PlaybackCommand ==> stored.op.hlc_ms >= stale_before(now)
            }
    }

    /// The changes to send to a peer, the oldest first, as many as go into one
    /// message.
    pub open spec fn ops_for_peer(self, peer: Seq<char>, now: i64) -> Seq<SyncOpModel> {
        let batch = stable_sorted(kept(self.ops, self.lacking(peer, now)), arrived_before());
        plain_ops(
            if batch.len() > MAX_OPS_PER_BATCH {
                batch.take(MAX_OPS_PER_BATCH as int)
            } else {
                batch
            },
        )
    }

    /// Another device tells what it plays; only what is newer counts, and
    /// nothing that is told of this device.
    pub open spec fn with_playback(self, playback: DevicePlaybackModel) -> Self {
        let i = first_where(self.remote_playback, plays_on(playback.device_id));
        if playback.device_id == self.identity.device_id {
            self
        } else if i == self.remote_playback.len() {
            DeviceSyncModel { remote_playback: self.remote_playback.push(playback), ..self }.act(
                StoreActionModel::ShowPlayback { playback },
            )
        } else if playback.updated_at_ms > self.remote_playback[i].updated_at_ms {
            DeviceSyncModel {
                remote_playback: self.remote_playback.update(i, playback),
                ..self
            }.act(StoreActionModel::ShowPlayback { playback })
        } else {
            self
        }
    }
}

pub open spec fn plays_on(device_id: Seq<char>) -> spec_fn(DevicePlaybackModel) -> bool {
    |playback: DevicePlaybackModel| playback.device_id == device_id
}

pub open spec fn stale_before(now: i64) -> int {
    if now - PLAYBACK_COMMAND_TTL_MS < i64::MIN {
        i64::MIN as int
    } else {
        now - PLAYBACK_COMMAND_TTL_MS
    }
}

pub open spec fn arrived_before() -> spec_fn(StoredOpModel, StoredOpModel) -> bool {
    |a: StoredOpModel, b: StoredOpModel|
        if a.received_at_ms != b.received_at_ms {
            a.received_at_ms < b.received_at_ms
        } else if a.op.origin_device_id != b.op.origin_device_id {
            text_lt(a.op.origin_device_id, b.op.origin_device_id)
        } else {
            a.op.seq < b.op.seq
        }
}

pub open spec fn plain_ops(stored: Seq<StoredOpModel>) -> Seq<SyncOpModel> {
    Seq::new(stored.len(), |i: int| stored[i].op)
}

fn likes_now(rows: &Vec<Written<String, bool>>) -> (r: (Vec<SnapshotLike>, Vec<
    SnapshotLikeTombstone,
>))
    ensures
        views(r.0@) == liked_now(views(rows@)),
        views(r.1@) == unliked_now(views(rows@)),
{
    let ghost all = views(rows@);
    let mut liked: Vec<SnapshotLike> = Vec::new();
    let mut unliked: Vec<SnapshotLikeTombstone> = Vec::new();
    let mut i: usize = 0;
    while i < rows.len()
        invariant
            i <= rows.len() == all.len(),
            all == views(rows@),
            views(liked@) == liked_now(all.take(i as int)),
            views(unliked@) == unliked_now(all.take(i as int)),
        decreases rows.len() - i,
    {
        proof {
            assert(all.take(i + 1).drop_last() =~= all.take(i as int));
        }
        if rows[i].value {
            liked.push(
                SnapshotLike {
                    content_id: rows[i].key.clone(),
                    hlc_ms: rows[i].hlc_ms,
                    op_id: rows[i].op_id.clone(),
                    fed: None,
                },
            );
        } else {
            unliked.push(
                SnapshotLikeTombstone {
                    content_id: rows[i].key.clone(),
                    hlc_ms: rows[i].hlc_ms,
                    op_id: rows[i].op_id.clone(),
                },
            );
        }
        i += 1;
    }
    proof {
        assert(all.take(i as int) =~= all);
    }
    (liked, unliked)
}

fn tracks_on(rows: &Vec<Written<ItemKey, ItemState>>, playlist_id: &String) -> (r: Vec<
    SnapshotPlaylistItem,
>)
    ensures
        views(r@) == items_on(views(rows@), playlist_id@),
{
    let ghost all = views(rows@);
    let mut r: Vec<SnapshotPlaylistItem> = Vec::new();
    let mut i: usize = 0;
    while i < rows.len()
        invariant
            i <= rows.len() == all.len(),
            all == views(rows@),
            views(r@) == items_on(all.take(i as int), playlist_id@),
        decreases rows.len() - i,
    {
        proof {
            assert(all.take(i + 1).drop_last() =~= all.take(i as int));
        }
        if rows[i].value.present && rows[i].key.playlist_id == *playlist_id {
            r.push(
                SnapshotPlaylistItem {
                    content_id: rows[i].key.content_id.clone(),
                    position: rows[i].value.position,
                    hlc_ms: rows[i].hlc_ms,
                    op_id: rows[i].op_id.clone(),
                    fed: None,
                },
            );
        }
        i += 1;
    }
    proof {
        assert(all.take(i as int) =~= all);
    }
    r
}

fn removals_now(rows: &Vec<Written<ItemKey, ItemState>>) -> (r: Vec<SnapshotPlaylistItemTombstone>)
    ensures
        views(r@) == removed_now(views(rows@)),
{
    let ghost all = views(rows@);
    let mut r: Vec<SnapshotPlaylistItemTombstone> = Vec::new();
    let mut i: usize = 0;
    while i < rows.len()
        invariant
            i <= rows.len() == all.len(),
            all == views(rows@),
            views(r@) == removed_now(all.take(i as int)),
        decreases rows.len() - i,
    {
        proof {
            assert(all.take(i + 1).drop_last() =~= all.take(i as int));
        }
        if !rows[i].value.present {
            r.push(
                SnapshotPlaylistItemTombstone {
                    playlist_id: rows[i].key.playlist_id.clone(),
                    content_id: rows[i].key.content_id.clone(),
                    hlc_ms: rows[i].hlc_ms,
                    op_id: rows[i].op_id.clone(),
                },
            );
        }
        i += 1;
    }
    proof {
        assert(all.take(i as int) =~= all);
    }
    r
}

fn standing_playlists(
    rows: &Vec<Written<String, PlaylistState>>,
    items: &Vec<Written<ItemKey, ItemState>>,
) -> (r: (Vec<SnapshotPlaylist>, Vec<SnapshotPlaylistTombstone>))
    ensures
        views(r.0@) == playlists_now(views(rows@), views(items@)),
        views(r.1@) == deleted_now(views(rows@)),
{
    let ghost all = views(rows@);
    let mut standing: Vec<SnapshotPlaylist> = Vec::new();
    let mut deleted: Vec<SnapshotPlaylistTombstone> = Vec::new();
    let mut i: usize = 0;
    while i < rows.len()
        invariant
            i <= rows.len() == all.len(),
            all == views(rows@),
            views(standing@) == playlists_now(all.take(i as int), views(items@)),
            views(deleted@) == deleted_now(all.take(i as int)),
        decreases rows.len() - i,
    {
        proof {
            assert(all.take(i + 1).drop_last() =~= all.take(i as int));
        }
        if rows[i].value.deleted {
            deleted.push(
                SnapshotPlaylistTombstone {
                    playlist_id: rows[i].key.clone(),
                    hlc_ms: rows[i].hlc_ms,
                    op_id: rows[i].op_id.clone(),
                },
            );
        } else {
            standing.push(
                SnapshotPlaylist {
                    playlist_id: rows[i].key.clone(),
                    title: rows[i].value.title.clone(),
                    hlc_ms: rows[i].hlc_ms,
                    op_id: rows[i].op_id.clone(),
                    items: tracks_on(items, &rows[i].key),
                },
            );
        }
        i += 1;
    }
    proof {
        assert(all.take(i as int) =~= all);
    }
    (standing, deleted)
}

impl DeviceSync {
    /// All that is known of likes and playlists.
    pub fn snapshot(&self) -> (r: SyncSnapshot)
        ensures
            r@ == self@.snapshot(),
    {
        let (likes, unlikes) = likes_now(&self.likes);
        let (playlists, deleted_playlists) = standing_playlists(&self.playlists, &self.items);
        let ghost lt = |a: SnapshotPlaylist, b: SnapshotPlaylist| by_playlist_id()(a@, b@);
        let before = |a: &SnapshotPlaylist, b: &SnapshotPlaylist| -> (y: bool)
            ensures
                y == lt(*a, *b),
            { str_lt(a.playlist_id.as_str(), b.playlist_id.as_str()) };
        proof {
            lemma_sorted_views(playlists@, lt, by_playlist_id());
        }
        SyncSnapshot {
            likes,
            unlikes,
            playlists: stable_sort(playlists, before, Ghost(lt)),
            deleted_playlists,
            removed_playlist_items: removals_now(&self.items),
        }
    }

    fn apply_likes(&mut self, likes: Vec<SnapshotLike>)
        ensures
            final(self)@ == old(self)@.with_likes(views(likes@)),
    {
        let ghost all = views(likes@);
        let mut rest = likes;
        let ghost mut done: int = 0;
        while rest.len() > 0
            invariant
                0 <= done,
                done + rest.len() == all.len(),
                views(rest@) == all.skip(done),
                self@ == old(self)@.with_likes(all.take(done)),
            decreases rest.len(),
        {
            let like = rest.remove(0);
            proof {
                assert(like@ == all[done]);
                assert(all.take(done + 1).drop_last() =~= all.take(done));
                assert(views(rest@) =~= all.skip(done + 1));
            }
            self.apply_like(like.content_id.as_str(), true, like.fed, like.hlc_ms, like.op_id.as_str());
            proof {
                done = done + 1;
            }
        }
        proof {
            assert(all.take(done) =~= all);
        }
    }

    fn apply_unlikes(&mut self, unlikes: &Vec<SnapshotLikeTombstone>)
        ensures
            final(self)@ == old(self)@.with_unlikes(views(unlikes@)),
    {
        let ghost all = views(unlikes@);
        let mut i: usize = 0;
        while i < unlikes.len()
            invariant
                i <= unlikes.len() == all.len(),
                all == views(unlikes@),
                self@ == old(self)@.with_unlikes(all.take(i as int)),
            decreases unlikes.len() - i,
        {
            proof {
                assert(all.take(i + 1).drop_last() =~= all.take(i as int));
            }
            let unlike = &unlikes[i];
            self.apply_like(
                unlike.content_id.as_str(),
                false,
                None,
                unlike.hlc_ms,
                unlike.op_id.as_str(),
            );
            i += 1;
        }
        proof {
            assert(all.take(i as int) =~= all);
        }
    }

    fn apply_items(&mut self, playlist_id: &str, items: Vec<SnapshotPlaylistItem>)
        ensures
            final(self)@ == old(self)@.with_items_on(playlist_id@, views(items@)),
    {
        let ghost all = views(items@);
        let mut rest = items;
        let ghost mut done: int = 0;
        while rest.len() > 0
            invariant
                0 <= done,
                done + rest.len() == all.len(),
                views(rest@) == all.skip(done),
                self@ == old(self)@.with_items_on(playlist_id@, all.take(done)),
            decreases rest.len(),
        {
            let item = rest.remove(0);
            proof {
                assert(item@ == all[done]);
                assert(all.take(done + 1).drop_last() =~= all.take(done));
                assert(views(rest@) =~= all.skip(done + 1));
            }
            self.apply_playlist_item(
                playlist_id,
                item.content_id.as_str(),
                ItemState { present: true, position: item.position },
                item.fed,
                item.hlc_ms,
                item.op_id.as_str(),
            );
            proof {
                done = done + 1;
            }
        }
        proof {
            assert(all.take(done) =~= all);
        }
    }

    fn apply_playlists(&mut self, playlists: Vec<SnapshotPlaylist>)
        ensures
            final(self)@ == old(self)@.with_playlists(views(playlists@)),
    {
        let ghost all = views(playlists@);
        let mut rest = playlists;
        let ghost mut done: int = 0;
        while rest.len() > 0
            invariant
                0 <= done,
                done + rest.len() == all.len(),
                views(rest@) == all.skip(done),
                self@ == old(self)@.with_playlists(all.take(done)),
            decreases rest.len(),
        {
            let playlist = rest.remove(0);
            proof {
                assert(playlist@ == all[done]);
                assert(all.take(done + 1).drop_last() =~= all.take(done));
                assert(views(rest@) =~= all.skip(done + 1));
            }
            self.apply_playlist(
                playlist.playlist_id.as_str(),
                playlist.title.as_str(),
                false,
                playlist.hlc_ms,
                playlist.op_id.as_str(),
            );
            self.apply_items(playlist.playlist_id.as_str(), playlist.items);
            proof {
                done = done + 1;
            }
        }
        proof {
            assert(all.take(done) =~= all);
        }
    }

    fn apply_deletions(&mut self, deleted: &Vec<SnapshotPlaylistTombstone>)
        ensures
            final(self)@ == old(self)@.with_deletions(views(deleted@)),
    {
        let ghost all = views(deleted@);
        let nothing = String::new();
        let mut i: usize = 0;
        while i < deleted.len()
            invariant
                nothing@.len() == 0,
                i <= deleted.len() == all.len(),
                all == views(deleted@),
                self@ == old(self)@.with_deletions(all.take(i as int)),
            decreases deleted.len() - i,
        {
            proof {
                assert(all.take(i + 1).drop_last() =~= all.take(i as int));
                assert(nothing@ =~= Seq::empty());
            }
            let playlist = &deleted[i];
            self.apply_playlist(
                playlist.playlist_id.as_str(),
                nothing.as_str(),
                true,
                playlist.hlc_ms,
                playlist.op_id.as_str(),
            );
            i += 1;
        }
        proof {
            assert(all.take(i as int) =~= all);
        }
    }

    fn apply_removals(&mut self, removed: &Vec<SnapshotPlaylistItemTombstone>)
        ensures
            final(self)@ == old(self)@.with_removals(views(removed@)),
    {
        let ghost all = views(removed@);
        let mut i: usize = 0;
        while i < removed.len()
            invariant
                i <= removed.len() == all.len(),
                all == views(removed@),
                self@ == old(self)@.with_removals(all.take(i as int)),
            decreases removed.len() - i,
        {
            proof {
                assert(all.take(i + 1).drop_last() =~= all.take(i as int));
            }
            let item = &removed[i];
            self.apply_playlist_item(
                item.playlist_id.as_str(),
                item.content_id.as_str(),
                ItemState { present: false, position: 0 },
                None,
                item.hlc_ms,
                item.op_id.as_str(),
            );
            i += 1;
        }
        proof {
            assert(all.take(i as int) =~= all);
        }
    }

    /// Takes over what another device knows, as far as it is newer.
    pub fn apply_snapshot(&mut self, snapshot: SyncSnapshot)
        ensures
            final(self)@ == old(self)@.with_snapshot(snapshot@),
    {
        proof {
            reveal(DeviceSyncModel::with_snapshot);
        }
        self.apply_likes(snapshot.likes);
        self.apply_unlikes(&snapshot.unlikes);
        self.apply_playlists(snapshot.playlists);
        self.apply_deletions(&snapshot.deleted_playlists);
        self.apply_removals(&snapshot.removed_playlist_items);
        self.act(StoreAction::DevicesChanged);
    }

    fn is_lacking(&self, peer: &str, now: i64, stored: &StoredOp) -> (r: bool)
        ensures
            r == self@.lacking(peer@, now)(stored@),
    {
        let i = ack_index(&self.acks, peer, stored.op.origin_device_id.as_str());
        let known: i64 = if i < self.acks.len() {
            self.acks[i].max_seq
        } else {
            0
        };
        if stored.op.seq <= known {
            return false;
        }
        match &stored.op.payload {
            SyncOpPayload::PlaybackCommand { .. } => {
                let oldest: i64 = if now < i64::MIN + PLAYBACK_COMMAND_TTL_MS {
                    i64::MIN
                } else {
                    now - PLAYBACK_COMMAND_TTL_MS
                };
                stored.op.hlc_ms >= oldest
            },
            _ => true,
        }
    }

    /// The changes to send to a peer.
    pub fn ops_for_peer(&self, peer: &str, now: i64) -> (r: Vec<SyncOp>)
        ensures
            views(r@) == self@.ops_for_peer(peer@, now),
    {
        let ghost all = views(self.ops@);
        let ghost p = self@.lacking(peer@, now);
        let mut lacking: Vec<StoredOp> = Vec::new();
        let mut i: usize = 0;
        while i < self.ops.len()
            invariant
                i <= self.ops.len() == all.len(),
                all == views(self.ops@),
                p == self@.lacking(peer@, now),
                views(lacking@) == kept(all.take(i as int), p),
            decreases self.ops.len() - i,
        {
            proof {
                assert(all.take(i + 1).drop_last() =~= all.take(i as int));
            }
            if self.is_lacking(peer, now, &self.ops[i]) {
                lacking.push(
                    StoredOp {
                        op: self.ops[i].op.clone(),
                        received_at_ms: self.ops[i].received_at_ms,
                    },
                );
            }
            i += 1;
        }
        proof {
            assert(all.take(i as int) =~= all);
        }
        let ghost lt = |a: StoredOp, b: StoredOp| arrived_before()(a@, b@);
        let before = |a: &StoredOp, b: &StoredOp| -> (y: bool)
            ensures
                y == lt(*a, *b),
            {
                if a.received_at_ms != b.received_at_ms {
                    a.received_at_ms < b.received_at_ms
                } else if a.op.origin_device_id != b.op.origin_device_id {
                    str_lt(a.op.origin_device_id.as_str(), b.op.origin_device_id.as_str())
                } else {
                    a.op.seq < b.op.seq
                }
            };
        proof {
            lemma_sorted_views(lacking@, lt, arrived_before());
        }
        let sorted = stable_sort(lacking, before, Ghost(lt));
        let ghost batch = views(sorted@);
        let count: usize = if sorted.len() > MAX_OPS_PER_BATCH {
            MAX_OPS_PER_BATCH
        } else {
            sorted.len()
        };
        let ghost goal = self@.ops_for_peer(peer@, now);
        proof {
            assert(batch == stable_sorted(kept(self@.ops, p), arrived_before()));
            assert(goal =~= plain_ops(batch.take(count as int)));
        }
        let mut r: Vec<SyncOp> = Vec::new();
        let mut i: usize = 0;
        while i < count
            invariant
                i <= count <= sorted.len(),
                batch == views(sorted@),
                goal == plain_ops(batch.take(count as int)),
                views(r@) == goal.take(i as int),
            decreases count - i,
        {
            r.push(sorted[i].op.clone());
            i += 1;
            proof {
                assert(views(r@) =~= goal.take(i as int));
            }
        }
        proof {
            assert(views(r@) =~= goal);
        }
        r
    }

    /// Takes note of what another device plays.
    pub fn apply_playback_snapshot(&mut self, playback: DevicePlayback)
        ensures
            final(self)@ == old(self)@.with_playback(playback@),
    {
        let ghost all = views(self.remote_playback@);
        let ghost p = plays_on(playback@.device_id);
        let mut i: usize = 0;
        while i < self.remote_playback.len() && self.remote_playback[i].device_id
            != playback.device_id
            invariant
                *self == *old(self),
                i <= self.remote_playback.len() == all.len(),
                all == views(self.remote_playback@),
                p == plays_on(playback@.device_id),
                forall|j: int| 0 <= j < i ==> !p(#[trigger] all[j]),
            decreases self.remote_playback.len() - i,
        {
            assert(!p(all[i as int]));
            i += 1;
        }
        proof {
            if i < all.len() {
                assert(p(all[i as int]));
            }
            lemma_first_where(all, p, i as int);
        }
        if playback.device_id == self.identity.device_id {
            return;
        }
        if i == self.remote_playback.len() {
            self.remote_playback.push(playback.clone());
            self.act(StoreAction::ShowPlayback { playback });
        } else if playback.updated_at_ms > self.remote_playback[i].updated_at_ms {
            self.remote_playback.set(i, playback.clone());
            self.act(StoreAction::ShowPlayback { playback });
        }
    }
}

} // verus!

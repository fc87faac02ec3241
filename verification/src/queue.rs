//! The play queue.
use crate::catalog::{Track, TrackKey, TrackKeyModel, TrackModel};
use crate::clock::since_epoch;
use crate::find::{first_where, lemma_first_where, lemma_first_where_is};
use crate::sort::{
    in_order, lemma_sorted_views, sorting_is_a_permutation, sorting_orders, stable_sort,
    stable_sorted,
};
use crate::views::views;
use vstd::prelude::*;

verus! {

broadcast use crate::views::group_views;

#[derive(Debug, Clone, Copy, PartialEq, Eq, Hash, Structural)]
pub struct QueueItemId(pub u64);

impl QueueItemId {
    pub fn new(value: u64) -> (r: Self)
        ensures
            r == QueueItemId(value),
    {
        QueueItemId(value)
    }

    pub fn get(self) -> (r: u64)
        ensures
            r == self.0,
    {
        self.0
    }
}

#[derive(Debug, PartialEq)]
pub struct QueueItem {
    pub id: QueueItemId,
    pub track: Track,
}

pub struct QueueItemModel {
    pub id: QueueItemId,
    pub track: TrackModel,
}

impl View for QueueItem {
    type V = QueueItemModel;

    open spec fn view(&self) -> QueueItemModel {
        QueueItemModel { id: self.id, track: self.track@ }
    }
}

impl Clone for QueueItem {
    fn clone(&self) -> (r: Self)
        ensures
            r@ == self@,
    {
        QueueItem { id: self.id, track: self.track.clone() }
    }
}

/// A place in a remembered order: the key of the track that stood there, and
/// the item that holds the place, if any does.
#[derive(Debug, PartialEq)]
pub struct Place {
    pub holder: Option<QueueItemId>,
    pub key: TrackKey,
}

pub struct PlaceModel {
    pub holder: Option<QueueItemId>,
    pub key: TrackKeyModel,
}

impl View for Place {
    type V = PlaceModel;

    open spec fn view(&self) -> PlaceModel {
        PlaceModel { holder: self.holder, key: self.key@ }
    }
}

impl Clone for Place {
    fn clone(&self) -> (r: Self)
        ensures
            r@ == self@,
    {
        Place { holder: self.holder, key: self.key.clone() }
    }
}

/// Logical queue shared with the other players of the listener.
///
/// `play_next_end` is the exclusive end of the stable first-in first-out block
/// that successive "play next" commands build up.
#[derive(Debug, PartialEq)]
pub struct Queue {
    items: Vec<QueueItem>,
    current: Option<usize>,
    play_next_end: Option<usize>,
    original_order: Option<Vec<Place>>,
    next_item_id: u64,
}

pub struct QueueModel {
    pub items: Seq<QueueItemModel>,
    pub current: Option<usize>,
    pub play_next_end: Option<usize>,
    pub original_order: Option<Seq<PlaceModel>>,
    pub next_item_id: u64,
}

/// `n`, or the largest identifier where `n` is beyond it.
pub open spec fn saturated(n: int) -> u64 {
    if n > u64::MAX {
        u64::MAX
    } else {
        n as u64
    }
}

/// One new item per track, numbered on from `last`.
pub open spec fn numbered(tracks: Seq<TrackModel>, last: u64) -> Seq<QueueItemModel> {
    Seq::new(
        tracks.len(),
        |i: int|
            QueueItemModel { id: QueueItemId(saturated(last + 1 + i)), track: tracks[i] },
    )
}

/// The places of the items, each held by its item.
pub open spec fn item_places(items: Seq<QueueItemModel>) -> Seq<PlaceModel> {
    Seq::new(
        items.len(),
        |i: int| PlaceModel { holder: Some(items[i].id), key: items[i].track.key },
    )
}

/// The tracks of the items, in order.
pub open spec fn item_tracks(items: Seq<QueueItemModel>) -> Seq<TrackModel> {
    Seq::new(items.len(), |i: int| items[i].track)
}

/// Whether a place is held by an item. The largest identifier may be that of
/// many items: there the track has to match as well.
pub open spec fn held_by(item: QueueItemModel) -> spec_fn(PlaceModel) -> bool {
    |place: PlaceModel|
        place.holder == Some(item.id) && (item.id.0 < u64::MAX || place.key == item.track.key
            || place.key.matches(item.track.key))
}

pub open spec fn free_for(key: TrackKeyModel) -> spec_fn(PlaceModel) -> bool {
    |place: PlaceModel| place.holder is None && place.key.matches(key)
}

pub open spec fn meant_for(key: TrackKeyModel) -> spec_fn(PlaceModel) -> bool {
    |place: PlaceModel| place.key.matches(key)
}

/// The places, those free whose items have left.
pub open spec fn released(order: Seq<PlaceModel>, items: Seq<QueueItemModel>) -> Seq<PlaceModel> {
    Seq::new(
        order.len(),
        |i: int|
            PlaceModel {
                holder: match order[i].holder {
                    Some(id) => if position_of(items, id) is Some {
                        Some(id)
                    } else {
                        None
                    },
                    None => None,
                },
                ..order[i]
            },
    )
}

/// The places after an item without one took the first free one that is meant
/// for its track.
pub open spec fn claimed(order: Seq<PlaceModel>, item: QueueItemModel) -> Seq<PlaceModel> {
    let i = first_where(order, free_for(item.track.key));
    if first_where(order, held_by(item)) < order.len() || i >= order.len() {
        order
    } else {
        order.update(i, PlaceModel { holder: Some(item.id), ..order[i] })
    }
}

pub open spec fn all_claimed(order: Seq<PlaceModel>, items: Seq<QueueItemModel>) -> Seq<PlaceModel>
    decreases items.len(),
{
    if items.len() == 0 {
        order
    } else {
        claimed(all_claimed(order, items.drop_last()), items.last())
    }
}

/// Which item stands where in a remembered order: an item that stood there has
/// its place back; of the others, one after the other takes the first free
/// place that is meant for its track.
pub open spec fn assigned(order: Seq<PlaceModel>, items: Seq<QueueItemModel>) -> Seq<PlaceModel> {
    all_claimed(released(order, items), items)
}

/// The place an item holds; for one without a place the first that is meant for
/// its track, or else the end.
pub open spec fn place_in(order: Seq<PlaceModel>, item: QueueItemModel) -> int {
    let i = first_where(order, held_by(item));
    if i < order.len() {
        i
    } else {
        first_where(order, meant_for(item.track.key))
    }
}

/// The order that the places put items in.
pub open spec fn placed_before(order: Seq<PlaceModel>) -> spec_fn(
    QueueItemModel,
    QueueItemModel,
) -> bool {
    |a: QueueItemModel, b: QueueItemModel| place_in(order, a) < place_in(order, b)
}

/// One step of the xorshift generator.
pub open spec fn xorshift(seed: u64) -> u64 {
    let a = seed ^ (seed << 13u64);
    let b = a ^ (a >> 7u64);
    b ^ (b << 17u64)
}

/// The Fisher-Yates shuffle of the first `index + 1` elements, from the last of
/// them down, each swapped with one that the generator picks.
pub open spec fn shuffled<T>(s: Seq<T>, index: int, seed: u64) -> Seq<T>
    decreases index,
{
    if index <= 0 {
        s
    } else {
        let next = xorshift(seed);
        let pick = next as int % (index + 1);
        shuffled(s.update(index, s[pick]).update(pick, s[index]), index - 1, next)
    }
}

impl QueueModel {
    pub open spec fn empty() -> Self {
        QueueModel {
            items: Seq::empty(),
            current: None,
            play_next_end: None,
            original_order: None,
            next_item_id: 0,
        }
    }

    /// The current position is one of the queue, and no two items share an
    /// identifier (until the identifiers are used up).
    pub open spec fn wf(self) -> bool {
        &&& self.current matches Some(c) ==> c < self.items.len()
        &&& self.items.len() <= usize::MAX
        &&& distinct_bounded(self.items, self.next_item_id)
    }

    pub open spec fn current_item(self) -> Option<QueueItemModel> {
        match self.current {
            Some(c) => Some(self.items[c as int]),
            None => None,
        }
    }

    /// The first position behind the current one.
    pub open spec fn upcoming(self) -> int {
        match self.current {
            Some(c) => c + 1,
            None => 0,
        }
    }

    /// Where "play next" puts its items: behind the block that earlier ones
    /// built up ahead, if there is one, else first of what is ahead.
    pub open spec fn insertion(self) -> int {
        match self.play_next_end {
            Some(end) => if self.upcoming() <= end && end <= self.items.len() {
                end as int
            } else {
                self.upcoming()
            },
            None => self.upcoming(),
        }
    }

    pub open spec fn select_item(self, id: QueueItemId) -> Self {
        QueueModel { current: position_of(self.items, id), play_next_end: None, ..self }
    }

    pub open spec fn replace_context(self, tracks: Seq<TrackModel>, start: usize) -> Self {
        QueueModel {
            items: numbered(tracks, self.next_item_id),
            current: if tracks.len() == 0 {
                None
            } else if start < tracks.len() {
                Some(start)
            } else {
                Some((tracks.len() - 1) as usize)
            },
            play_next_end: None,
            original_order: None,
            next_item_id: saturated(self.next_item_id + tracks.len()),
        }
    }

    pub open spec fn replace_shuffled_context(self, tracks: Seq<TrackModel>, start: usize) -> Self {
        QueueModel {
            original_order: self.original_order,
            ..self.replace_context(tracks, start)
        }
    }

    pub open spec fn add_to_end(self, tracks: Seq<TrackModel>) -> Self {
        QueueModel {
            items: self.items + numbered(tracks, self.next_item_id),
            next_item_id: saturated(self.next_item_id + tracks.len()),
            ..self
        }
    }

    pub open spec fn add_next(self, tracks: Seq<TrackModel>) -> Self {
        if tracks.len() == 0 {
            self
        } else {
            QueueModel {
                items: self.items.take(self.insertion()) + numbered(tracks, self.next_item_id)
                    + self.items.skip(self.insertion()),
                current: self.current,
                play_next_end: Some((self.insertion() + tracks.len()) as usize),
                next_item_id: saturated(self.next_item_id + tracks.len()),
                ..self
            }
        }
    }

    pub open spec fn replace_track(self, key: TrackKeyModel, replacement: TrackModel) -> Self {
        QueueModel {
            items: Seq::new(
                self.items.len(),
                |i: int|
                    if self.items[i].track.key.matches(key) {
                        QueueItemModel { id: self.items[i].id, track: replacement }
                    } else {
                        self.items[i]
                    },
            ),
            ..self
        }
    }

    /// Moved to `index`; the "play next" block ends where it no longer lies
    /// ahead.
    pub open spec fn moved_to(self, index: int) -> Self {
        QueueModel {
            current: Some(index as usize),
            play_next_end: match self.play_next_end {
                Some(end) => if end <= index || end > self.items.len() {
                    None
                } else {
                    Some(end)
                },
                None => None,
            },
            ..self
        }
    }

    pub open spec fn can_advance(self) -> bool {
        self.upcoming() < self.items.len()
    }

    pub open spec fn advance(self) -> Self {
        if self.can_advance() {
            self.moved_to(self.upcoming())
        } else {
            self
        }
    }

    pub open spec fn previous(self) -> Self {
        match self.current {
            Some(c) => self.moved_to(
                if c > 0 {
                    c - 1
                } else {
                    0
                },
            ),
            None => self,
        }
    }

    pub open spec fn select_index(self, index: usize) -> Self {
        if index < self.items.len() {
            QueueModel { current: Some(index), play_next_end: None, ..self }
        } else {
            self
        }
    }

    /// Whether an item moves where it is told to: it is there, and not at that
    /// place already. A place beyond the end is the last one.
    pub open spec fn can_move(self, id: QueueItemId, target: usize) -> bool {
        position_of(self.items, id) matches Some(from) && from != last_place(
            target,
            self.items.len(),
        )
    }

    /// An item moves; the current one stays current wherever it stands then, and
    /// the "play next" block ends.
    pub open spec fn move_item(self, id: QueueItemId, target: usize) -> Self {
        if self.can_move(id, target) {
            let from = position_of(self.items, id)->0;
            let to = last_place(target, self.items.len());
            QueueModel {
                items: self.items.remove(from as int).insert(to as int, self.items[from as int]),
                current: match self.current {
                    Some(c) => Some(place_after_move(c, from, to)),
                    None => None,
                },
                play_next_end: None,
                ..self
            }
        } else {
            self
        }
    }

    /// An item leaves. Where it was the current one, the one behind it becomes
    /// current, or else the one before it; the "play next" block ends.
    pub open spec fn remove_item(self, id: QueueItemId) -> Self {
        match position_of(self.items, id) {
            None => self,
            Some(from) => QueueModel {
                items: self.items.remove(from as int),
                current: match self.current {
                    Some(c) => if self.items.len() == 1 {
                        None
                    } else if from < c || (from == c && c == self.items.len() - 1) {
                        Some((c - 1) as usize)
                    } else {
                        Some(c)
                    },
                    None => None,
                },
                play_next_end: None,
                ..self
            },
        }
    }

    pub open spec fn remember_order(self) -> Self {
        QueueModel {
            original_order: match self.original_order {
                Some(order) => Some(order),
                None => Some(item_places(self.items)),
            },
            ..self
        }
    }

    /// The part that has not played yet, shuffled, the order before the first
    /// shuffle remembered. Fewer than two items cannot be shuffled.
    pub open spec fn shuffle_upcoming(self, seed: u64) -> Self {
        let tail = self.items.skip(self.upcoming());
        if tail.len() < 2 {
            self
        } else {
            QueueModel {
                items: self.items.take(self.upcoming()) + shuffled(tail, tail.len() - 1, seed),
                play_next_end: None,
                ..self.remember_order()
            }
        }
    }

    /// The part that has not played yet, in the order remembered.
    pub open spec fn restore_upcoming_order(self) -> Self {
        match self.original_order {
            None => self,
            Some(order) => QueueModel {
                items: self.items.take(self.upcoming()) + stable_sorted(
                    self.items.skip(self.upcoming()),
                    placed_before(assigned(order, self.items)),
                ),
                play_next_end: None,
                original_order: None,
                ..self
            },
        }
    }
}

/// The place meant by `target` among `len` of them.
pub open spec fn last_place(target: usize, len: nat) -> usize {
    if target < len {
        target
    } else {
        (len - 1) as usize
    }
}

/// Where the item at `c` stands after another, or it itself, moved.
pub open spec fn place_after_move(c: usize, from: usize, to: usize) -> usize {
    if c == from {
        to
    } else if from < c && c <= to {
        (c - 1) as usize
    } else if to <= c && c < from {
        (c + 1) as usize
    } else {
        c
    }
}

/// The first position that holds the identifier.
pub open spec fn position_of(items: Seq<QueueItemModel>, id: QueueItemId) -> Option<usize>
    decreases items.len(),
{
    if items.len() == 0 {
        None
    } else if position_of(items.drop_last(), id) is Some {
        position_of(items.drop_last(), id)
    } else if items.last().id == id {
        Some((items.len() - 1) as usize)
    } else {
        None
    }
}

impl View for Queue {
    type V = QueueModel;

    closed spec fn view(&self) -> QueueModel {
        QueueModel {
            items: views(self.items@),
            current: self.current,
            play_next_end: self.play_next_end,
            original_order: match self.original_order {
                Some(order) => Some(views(order@)),
                None => None,
            },
            next_item_id: self.next_item_id,
        }
    }
}

impl Clone for Queue {
    fn clone(&self) -> (r: Self)
        ensures
            r@ == self@,
    {
        let r = Queue {
            items: self.items.clone(),
            current: self.current,
            play_next_end: self.play_next_end,
            original_order: match &self.original_order {
                Some(order) => {
                    let copy = order.clone();
                    proof {
                        assert(views(copy@) =~= views(order@));
                    }
                    Some(copy)
                },
                None => None,
            },
            next_item_id: self.next_item_id,
        };
        proof {
            assert(r@.items =~= self@.items);
        }
        r
    }
}

impl Default for Queue {
    fn default() -> (r: Self)
        ensures
            r@ == QueueModel::empty(),
            r@.wf(),
    {
        let r = Queue {
            items: Vec::new(),
            current: None,
            play_next_end: None,
            original_order: None,
            next_item_id: 0,
        };
        proof {
            assert(r@.items =~= Seq::<QueueItemModel>::empty());
        }
        r
    }
}

impl Queue {
    pub fn items(&self) -> (r: &[QueueItem])
        ensures
            views(r@) == self@.items,
    {
        self.items.as_slice()
    }

    pub fn current_index(&self) -> (r: Option<usize>)
        ensures
            r == self@.current,
    {
        self.current
    }

    pub fn current(&self) -> (r: Option<&QueueItem>)
        requires
            self@.wf(),
        ensures
            r is Some <==> self@.current is Some,
            r matches Some(item) ==> self@.current_item() == Some(item@),
    {
        match self.current {
            Some(index) => Some(&self.items[index]),
            None => None,
        }
    }

    /// Selects a concrete queue occurrence without rebuilding the queue.
    pub fn select_item(&mut self, id: QueueItemId) -> (r: Option<&QueueItem>)
        requires
            old(self)@.wf(),
        ensures
            final(self)@ == old(self)@.select_item(id),
            final(self)@.wf(),
            r is Some <==> final(self)@.current is Some,
            r matches Some(item) ==> final(self)@.current_item() == Some(item@),
    {
        let found = self.find(id);
        self.current = found;
        self.play_next_end = None;
        self.current()
    }

    fn find(&self, id: QueueItemId) -> (r: Option<usize>)
        requires
            self@.wf(),
        ensures
            r == position_of(self@.items, id),
            r matches Some(i) ==> i < self@.items.len(),
    {
        let mut i: usize = 0;
        proof {
            assert(self@.items.take(0).len() == 0);
        }
        let ghost all = self@.items;
        let mut found: Option<usize> = None;
        while i < self.items.len()
            invariant
                i <= self.items.len() == all.len(),
                all == views(self.items@),
                found == position_of(all.take(i as int), id),
                found matches Some(f) ==> f < i,
            decreases self.items.len() - i,
        {
            proof {
                assert(all.take(i + 1).drop_last() =~= all.take(i as int));
            }
            if found.is_none() && self.items[i].id == id {
                found = Some(i);
            }
            i += 1;
        }
        proof {
            assert(all.take(all.len() as int) =~= all);
        }
        found
    }

    pub fn replace_context(&mut self, tracks: Vec<Track>, start: usize)
        requires
            old(self)@.wf(),
        ensures
            final(self)@ == old(self)@.replace_context(views(tracks@), start),
            final(self)@.wf(),
    {
        let items = self.new_items(tracks);
        proof {
            assert(views(items@).len() == views(tracks@).len());
        }
        self.current = if items.len() == 0 {
            None
        } else if start < items.len() {
            Some(start)
        } else {
            Some(items.len() - 1)
        };
        self.items = items;
        self.play_next_end = None;
        self.original_order = None;
    }

    pub fn add_to_end(&mut self, tracks: Vec<Track>)
        requires
            old(self)@.wf(),
        ensures
            final(self)@ == old(self)@.add_to_end(views(tracks@)),
            final(self)@.wf(),
    {
        let mut items = self.new_items(tracks);
        self.items.append(&mut items);
        proof {
            assert(self@.items =~= old(self)@.add_to_end(views(tracks@)).items);
            assert(self@.items.len() == self.items.len());
        }
    }

    pub fn add_next(&mut self, tracks: Vec<Track>)
        requires
            old(self)@.wf(),
        ensures
            final(self)@ == old(self)@.add_next(views(tracks@)),
            final(self)@.wf(),
    {
        let ghost before = self@;
        let mut items = self.new_items(tracks);
        if items.len() == 0 {
            return;
        }
        let ahead: usize = match self.current {
            None => 0,
            Some(current) => current + 1,
        };
        let insertion: usize = match self.play_next_end {
            Some(end) => if ahead <= end && end <= self.items.len() {
                end
            } else {
                ahead
            },
            None => ahead,
        };
        let ghost model = before.add_next(views(tracks@));
        let count: usize = items.len();
        let mut tail = self.items.split_off(insertion);
        self.items.append(&mut items);
        self.items.append(&mut tail);
        proof {
            assert(views(self.items@) =~= model.items);
            assert(self.items.len() == model.items.len());
        }
        let end: usize = insertion + count;
        self.play_next_end = Some(end);
    }

    pub fn replace_matching_track(&mut self, replacement: &Track)
        requires
            old(self)@.wf(),
        ensures
            final(self)@ == old(self)@.replace_track(replacement@.key, replacement@),
            final(self)@.wf(),
    {
        self.replace_track(&replacement.key, replacement)
    }

    pub fn replace_track(&mut self, key: &TrackKey, replacement: &Track)
        requires
            old(self)@.wf(),
        ensures
            final(self)@ == old(self)@.replace_track(key@, replacement@),
            final(self)@.wf(),
    {
        let ghost all = self@.items;
        let mut i: usize = 0;
        while i < self.items.len()
            invariant
                i <= self.items.len() == all.len(),
                self.current == old(self).current,
                self.play_next_end == old(self).play_next_end,
                self.original_order == old(self).original_order,
                self.next_item_id == old(self).next_item_id,
                all == old(self)@.items,
                views(self.items@) == old(self)@.replace_track(key@, replacement@).items.take(
                    i as int,
                ) + all.skip(i as int),
            decreases self.items.len() - i,
        {
            let ghost target = old(self)@.replace_track(key@, replacement@).items;
            proof {
                assert(views(self.items@)[i as int] == all[i as int]);
            }
            if self.items[i].track.key.matches(key) {
                let item = QueueItem { id: self.items[i].id, track: replacement.clone() };
                self.items[i] = item;
            }
            proof {
                assert(views(self.items@) =~= target.take(i + 1) + all.skip(i + 1));
            }
            i += 1;
        }
        proof {
            assert(self@.items =~= old(self)@.replace_track(key@, replacement@).items);
        }
    }

    pub fn advance(&mut self) -> (r: Option<&QueueItem>)
        requires
            old(self)@.wf(),
        ensures
            final(self)@ == old(self)@.advance(),
            final(self)@.wf(),
            r is Some <==> old(self)@.can_advance(),
            r matches Some(item) ==> final(self)@.current_item() == Some(item@),
    {
        let next: usize = match self.current {
            None => 0,
            Some(current) => current + 1,
        };
        if next >= self.items.len() {
            return None;
        }
        self.current = Some(next);
        self.normalize_play_next_block();
        self.current()
    }

    pub fn previous(&mut self) -> (r: Option<&QueueItem>)
        requires
            old(self)@.wf(),
        ensures
            final(self)@ == old(self)@.previous(),
            final(self)@.wf(),
            r is Some <==> old(self)@.current is Some,
            r matches Some(item) ==> final(self)@.current_item() == Some(item@),
    {
        match self.current {
            None => None,
            Some(current) => {
                self.current = Some(current.saturating_sub(1));
                self.normalize_play_next_block();
                self.current()
            },
        }
    }

    /// Selects a position directly, preserving the existing queue context.
    pub fn select_index(&mut self, index: usize) -> (r: Option<&QueueItem>)
        requires
            old(self)@.wf(),
        ensures
            final(self)@ == old(self)@.select_index(index),
            final(self)@.wf(),
            r is Some <==> index < old(self)@.items.len(),
            r matches Some(item) ==> item@ == old(self)@.items[index as int],
    {
        if index >= self.items.len() {
            return None;
        }
        self.current = Some(index);
        self.play_next_end = None;
        self.current()
    }

    /// Moves an item, and says whether anything changed.
    pub fn move_item(&mut self, id: QueueItemId, target_index: usize) -> (r: bool)
        requires
            old(self)@.wf(),
        ensures
            r == old(self)@.can_move(id, target_index),
            final(self)@ == old(self)@.move_item(id, target_index),
            final(self)@.wf(),
    {
        let Some(from) = self.find(id) else {
            return false;
        };
        let to: usize = if target_index < self.items.len() {
            target_index
        } else {
            self.items.len() - 1
        };
        if from == to {
            return false;
        }
        let item = self.items.remove(from);
        self.items.insert(to, item);
        self.current = match self.current {
            None => None,
            Some(current) => Some(
                if current == from {
                    to
                } else if from < current && current <= to {
                    current - 1
                } else if to <= current && current < from {
                    current + 1
                } else {
                    current
                },
            ),
        };
        self.play_next_end = None;
        proof {
            let before = old(self)@.items;
            assert(self@.items =~= before.remove(from as int).insert(to as int, before[from as int]));
            lemma_moved_is_distinct(before, from as int, to as int, self.next_item_id);
        }
        true
    }

    /// Removes an item, and says whether it was the current one; nothing is said
    /// where there is no such item.
    pub fn remove_item(&mut self, id: QueueItemId) -> (r: Option<bool>)
        requires
            old(self)@.wf(),
        ensures
            match position_of(old(self)@.items, id) {
                None => r is None,
                Some(from) => r == Some(old(self)@.current == Some(from)),
            },
            final(self)@ == old(self)@.remove_item(id),
            final(self)@.wf(),
    {
        let Some(from) = self.find(id) else {
            return None;
        };
        let count: usize = self.items.len();
        self.items.remove(from);
        let was_current = match self.current {
            Some(current) => current == from,
            None => false,
        };
        self.current = match self.current {
            None => None,
            Some(current) => if count == 1 {
                None
            } else if from < current || (from == current && current == count - 1) {
                Some(current - 1)
            } else {
                Some(current)
            },
        };
        self.play_next_end = None;
        proof {
            let before = old(self)@.items;
            assert(self@.items =~= before.remove(from as int));
            assert forall|i: int| 0 <= i < self@.items.len() implies (#[trigger] self@.items[i]).id.0
                <= self.next_item_id by {
                assert(self@.items[i] == before[if i < from {
                    i
                } else {
                    i + 1
                }]);
            }
        }
        Some(was_current)
    }

    /// Randomizes only the part of the queue that has not played yet.
    ///
    /// The original order is retained so disabling shuffle can restore it.
    pub fn shuffle_upcoming(&mut self)
        requires
            old(self)@.wf(),
        ensures
            exists|seed: u64| final(self)@ == #[trigger] old(self)@.shuffle_upcoming(seed),
            final(self)@.wf(),
    {
        self.shuffle_upcoming_from(shuffle_seed());
    }

    /// Shuffles as the generator started from `seed` says.
    pub fn shuffle_upcoming_from(&mut self, seed: u64)
        requires
            old(self)@.wf(),
        ensures
            final(self)@ == old(self)@.shuffle_upcoming(seed),
            final(self)@.wf(),
    {
        let start: usize = match self.current {
            None => 0,
            Some(current) => current + 1,
        };
        if self.items.len() - start < 2 {
            return;
        }
        self.remember_order();
        let ghost before = self@;
        let mut tail = self.items.split_off(start);
        let ghost first = views(tail@);
        let mut state: u64 = seed;
        let mut index: usize = tail.len() - 1;
        proof {
            assert(first =~= before.items.skip(start as int));
            assert(before.items.take(start as int) + first =~= before.items);
        }
        while index > 0
            invariant
                index < tail.len() == first.len(),
                shuffled(views(tail@), index as int, state) == shuffled(
                    first,
                    first.len() - 1,
                    seed,
                ),
                distinct_bounded(views(self.items@) + views(tail@), self.next_item_id),
            decreases index,
        {
            let ghost held = views(tail@);
            state = state ^ (state << 13);
            state = state ^ (state >> 7);
            state = state ^ (state << 17);
            let bound: u64 = index as u64 + 1;
            let pick: usize = (state % bound) as usize;
            swap(&mut tail, index, pick);
            proof {
                assert(views(tail@) =~= held.update(index as int, held[pick as int]).update(
                    pick as int,
                    held[index as int],
                ));
                let joined = views(self.items@) + held;
                let n = self.items.len();
                assert(views(self.items@) + views(tail@) =~= joined.update(
                    n + index,
                    joined[n + pick],
                ).update(n + pick, joined[n + index]));
            }
            index -= 1;
        }
        self.items.append(&mut tail);
        self.play_next_end = None;
        proof {
            assert(self@.items =~= old(self)@.shuffle_upcoming(seed).items);
        }
    }

    /// Remembers the current catalog order before another device sends a
    /// physically shuffled queue.
    pub fn remember_order(&mut self)
        requires
            old(self)@.wf(),
        ensures
            final(self)@ == old(self)@.remember_order(),
            final(self)@.wf(),
    {
        if self.original_order.is_none() {
            let mut order: Vec<Place> = Vec::new();
            let mut i: usize = 0;
            while i < self.items.len()
                invariant
                    i <= self.items.len(),
                    views(order@) == item_places(views(self.items@)).take(i as int),
                decreases self.items.len() - i,
            {
                let item = &self.items[i];
                order.push(Place { holder: Some(item.id), key: item.track.key.clone() });
                i += 1;
                proof {
                    assert(views(order@) =~= item_places(views(self.items@)).take(i as int));
                }
            }
            proof {
                assert(views(order@) =~= item_places(views(self.items@)));
            }
            self.original_order = Some(order);
        }
    }

    /// Replaces a synchronized queue without losing its pre-shuffle order.
    pub fn replace_shuffled_context(&mut self, tracks: Vec<Track>, start: usize)
        requires
            old(self)@.wf(),
        ensures
            final(self)@ == old(self)@.replace_shuffled_context(views(tracks@), start),
            final(self)@.wf(),
    {
        let original_order = self.original_order.take();
        self.replace_context(tracks, start);
        self.original_order = original_order;
    }

    /// Restores the unplayed queue tail to its order before shuffle.
    pub fn restore_upcoming_order(&mut self)
        requires
            old(self)@.wf(),
        ensures
            final(self)@ == old(self)@.restore_upcoming_order(),
            final(self)@.wf(),
    {
        let Some(remembered) = self.original_order.take() else {
            return;
        };
        let order = self.assign(remembered);
        let start: usize = match self.current {
            None => 0,
            Some(current) => current + 1,
        };
        let tail = self.items.split_off(start);
        let ghost lt = |a: QueueItem, b: QueueItem|
            place_in(views(order@), a@) < place_in(views(order@), b@);
        let ghost upcoming = tail@;
        let before = |a: &QueueItem, b: &QueueItem| -> (y: bool)
            ensures
                y == lt(*a, *b),
            { place_of(&order, a) < place_of(&order, b) };
        let mut sorted = stable_sort(tail, before, Ghost(lt));
        proof {
            lemma_sorted_views(upcoming, lt, placed_before(views(order@)));
            assert(views(upcoming) =~= old(self)@.items.skip(start as int));
        }
        self.items.append(&mut sorted);
        self.play_next_end = None;
        proof {
            let target = old(self)@.restore_upcoming_order();
            sorting_is_a_permutation(
                old(self)@.items.skip(start as int),
                placed_before(views(order@)),
            );
            assert(self@.items =~= target.items);
            lemma_reordered_tail_is_distinct(
                old(self)@.items,
                start as int,
                stable_sorted(
                    old(self)@.items.skip(start as int),
                    placed_before(views(order@)),
                ),
                self.next_item_id,
            );
        }
    }

    /// Gives the items their places in a remembered order.
    fn assign(&self, remembered: Vec<Place>) -> (r: Vec<Place>)
        requires
            self@.wf(),
        ensures
            views(r@) == assigned(views(remembered@), self@.items),
    {
        let ghost known = views(remembered@);
        let ghost free = released(known, self@.items);
        let mut order = remembered;
        let mut i: usize = 0;
        while i < order.len()
            invariant
                self@.wf(),
                i <= order.len() == known.len(),
                free == released(known, self@.items),
                views(order@) == free.take(i as int) + known.skip(i as int),
            decreases order.len() - i,
        {
            proof {
                assert(views(order@)[i as int] == known[i as int]);
            }
            let holder: Option<QueueItemId> = match order[i].holder {
                Some(id) => if self.find(id).is_some() {
                    Some(id)
                } else {
                    None
                },
                None => None,
            };
            let place = Place { holder, key: order[i].key.clone() };
            order[i] = place;
            proof {
                assert(views(order@) =~= free.take(i + 1) + known.skip(i + 1));
            }
            i += 1;
        }
        assert(views(order@) =~= free);
        let ghost all = self@.items;
        let mut n: usize = 0;
        proof {
            assert(all.take(0) =~= Seq::empty());
        }
        while n < self.items.len()
            invariant
                n <= self.items.len() == all.len(),
                all == views(self.items@),
                views(order@) == all_claimed(free, all.take(n as int)),
            decreases self.items.len() - n,
        {
            proof {
                assert(all.take(n + 1).drop_last() =~= all.take(n as int));
                assert(all.take(n + 1).last() == self.items@[n as int]@);
            }
            claim(&mut order, &self.items[n]);
            n += 1;
        }
        assert(all.take(n as int) =~= all);
        order
    }

    fn new_items(&mut self, tracks: Vec<Track>) -> (r: Vec<QueueItem>)
        requires
            old(self)@.wf(),
        ensures
            views(r@) == numbered(views(tracks@), old(self)@.next_item_id),
            *final(self) == (Queue {
                next_item_id: saturated(old(self)@.next_item_id + tracks@.len()),
                ..*old(self)
            }),
    {
        let ghost all = views(tracks@);
        let ghost first = self.next_item_id;
        let mut rest = tracks;
        let mut items: Vec<QueueItem> = Vec::new();
        while rest.len() > 0
            invariant
                rest.len() + items.len() == all.len(),
                views(rest@) == all.skip(items.len() as int),
                views(items@) == numbered(all, first).take(items.len() as int),
                *self == (Queue { next_item_id: saturated(first + items.len()), ..*old(self) }),
            decreases rest.len(),
        {
            let ghost done = items.len() as int;
            let track = rest.remove(0);
            self.next_item_id = self.next_item_id.saturating_add(1);
            let item = QueueItem { id: QueueItemId::new(self.next_item_id), track };
            items.push(item);
            proof {
                assert(views(rest@) =~= all.skip(done + 1));
                assert(item@ == numbered(all, first)[done]);
                assert(views(items@) =~= numbered(all, first).take(done + 1));
            }
        }
        proof {
            assert(views(items@) =~= numbered(all, first));
        }
        items
    }

    fn normalize_play_next_block(&mut self)
        ensures
            final(self)@ == (match old(self)@.current {
                Some(c) => old(self)@.moved_to(c as int),
                None => QueueModel { play_next_end: None, ..old(self)@ },
            }),
    {
        let ended = match (self.play_next_end, self.current) {
            (Some(end), Some(current)) => end <= current || end > self.items.len(),
            (Some(_), None) => true,
            _ => false,
        };
        if ended {
            self.play_next_end = None;
        }
    }
}

/// The seed that a moment after the epoch gives: odd, and so never zero.
pub fn seed_of(since: Option<(u64, u32)>) -> (r: u64)
    ensures
        r == (match since {
            Some((seconds, nanos)) => (seconds ^ (nanos as u64)) | 1,
            None => 1u64,
        }),
        r & 1 == 1,
        r != 0,
{
    let seed: u64 = match since {
        Some((seconds, nanos)) => seconds ^ (nanos as u64),
        None => 1,
    };
    proof {
        assert((seed | 1) & 1 == 1 && seed | 1 != 0) by (bit_vector);
        assert(1u64 | 1 == 1u64) by (bit_vector);
    }
    seed | 1
}

/// The seed of the wall clock's moment, which nothing else is said of.
pub fn shuffle_seed() -> (r: u64)
    ensures
        r & 1 == 1,
        r != 0,
{
    seed_of(since_epoch())
}

/// Identifiers up to `last`, all different until they are used up.
pub open spec fn distinct_bounded(items: Seq<QueueItemModel>, last: u64) -> bool {
    &&& forall|i: int| 0 <= i < items.len() ==> (#[trigger] items[i]).id.0 <= last
    &&& last < u64::MAX ==> forall|i: int, j: int|
        0 <= i < j < items.len() ==> (#[trigger] items[i]).id != (#[trigger] items[j]).id
}

proof fn lemma_reordered_tail_is_distinct(
    items: Seq<QueueItemModel>,
    start: int,
    tail: Seq<QueueItemModel>,
    last: u64,
)
    requires
        0 <= start <= items.len(),
        distinct_bounded(items, last),
        tail.to_multiset() == items.skip(start).to_multiset(),
    ensures
        distinct_bounded(items.take(start) + tail, last),
{
    broadcast use vstd::seq_lib::group_to_multiset_ensures;

    let old_tail = items.skip(start);
    let r = items.take(start) + tail;
    assert forall|k: int| 0 <= k < tail.len() implies old_tail.contains(#[trigger] tail[k]) by {
        assert(tail.contains(tail[k]));
        assert(tail.to_multiset().count(tail[k]) > 0);
    }
    assert forall|i: int| 0 <= i < r.len() implies (#[trigger] r[i]).id.0 <= last by {
        if i >= start {
            assert(old_tail.contains(tail[i - start]));
        }
    }
    if last < u64::MAX {
        assert(old_tail.no_duplicates()) by {
            assert forall|i: int, j: int|
                0 <= i < old_tail.len() && 0 <= j < old_tail.len() && i != j implies old_tail[i]
                != old_tail[j] by {
                assert(items[start + i].id != items[start + j].id);
            }
        }
        old_tail.lemma_multiset_has_no_duplicates();
        tail.lemma_multiset_has_no_duplicates_conv();
        assert forall|i: int, j: int| 0 <= i < j < r.len() implies (#[trigger] r[i]).id != (
        #[trigger] r[j]).id by {
            if i >= start {
                let p = choose|p: int| 0 <= p < old_tail.len() && old_tail[p] == tail[i - start];
                let q = choose|q: int| 0 <= q < old_tail.len() && old_tail[q] == tail[j - start];
                assert(tail[i - start] != tail[j - start]);
                assert(items[start + p] == r[i] && items[start + q] == r[j]);
            } else if j >= start {
                let q = choose|q: int| 0 <= q < old_tail.len() && old_tail[q] == tail[j - start];
                assert(items[start + q] == r[j]);
                assert(items[i] == r[i]);
            } else {
                assert(items[i] == r[i] && items[j] == r[j]);
            }
        }
    }
}

proof fn lemma_moved_is_distinct(items: Seq<QueueItemModel>, from: int, to: int, last: u64)
    requires
        0 <= from < items.len(),
        0 <= to < items.len(),
        distinct_bounded(items, last),
    ensures
        distinct_bounded(items.remove(from).insert(to, items[from]), last),
{
    let r = items.remove(from).insert(to, items[from]);
    let origin = |i: int|
        if i == to {
            from
        } else {
            let j = if i < to {
                i
            } else {
                i - 1
            };
            if j < from {
                j
            } else {
                j + 1
            }
        };
    assert forall|i: int| 0 <= i < r.len() implies #[trigger] r[i] == items[origin(i)] by {}
    assert forall|i: int, j: int| 0 <= i < j < r.len() && last < u64::MAX implies (
    #[trigger] r[i]).id != (#[trigger] r[j]).id by {
        assert(r[i] == items[origin(i)] && r[j] == items[origin(j)]);
        assert(origin(i) != origin(j));
        if origin(i) < origin(j) {
            assert(items[origin(i)].id != items[origin(j)].id);
        } else {
            assert(items[origin(j)].id != items[origin(i)].id);
        }
    }
}

fn swap(v: &mut Vec<QueueItem>, high: usize, low: usize)
    requires
        low <= high < old(v).len(),
    ensures
        final(v)@ == old(v)@.update(high as int, old(v)@[low as int]).update(
            low as int,
            old(v)@[high as int],
        ),
{
    if low < high {
        let upper = v.remove(high);
        let lower = v.remove(low);
        v.insert(low, upper);
        v.insert(high, lower);
    }
    proof {
        assert(v@ =~= old(v)@.update(high as int, old(v)@[low as int]).update(
            low as int,
            old(v)@[high as int],
        ));
    }
}

fn find_holder(order: &Vec<Place>, item: &QueueItem) -> (r: usize)
    ensures
        r == first_where(views(order@), held_by(item@)),
        r <= order.len(),
{
    let ghost all = views(order@);
    let mut i: usize = 0;
    while i < order.len()
        invariant
            i <= order.len() == all.len(),
            all == views(order@),
            forall|j: int| 0 <= j < i ==> !held_by(item@)(#[trigger] all[j]),
        decreases order.len() - i,
    {
        let is_held = match order[i].holder {
            Some(holder) => holder == item.id && (item.id.0 < u64::MAX || order[i].key
                == item.track.key || order[i].key.matches(&item.track.key)),
            None => false,
        };
        if is_held {
            proof {
                assert(held_by(item@)(all[i as int]));
                lemma_first_where(all, held_by(item@), i as int);
            }
            return i;
        }
        assert(!held_by(item@)(all[i as int]));
        i += 1;
    }
    proof {
        lemma_first_where(all, held_by(item@), i as int);
    }
    i
}

fn find_place(order: &Vec<Place>, key: &TrackKey, free: bool) -> (r: usize)
    ensures
        free ==> r == first_where(views(order@), free_for(key@)),
        !free ==> r == first_where(views(order@), meant_for(key@)),
        r <= order.len(),
{
    let ghost all = views(order@);
    let ghost p = if free {
        free_for(key@)
    } else {
        meant_for(key@)
    };
    let mut i: usize = 0;
    while i < order.len() && !(order[i].key.matches(key) && (!free || order[i].holder.is_none()))
        invariant
            i <= order.len() == all.len(),
            all == views(order@),
            p == (if free {
                free_for(key@)
            } else {
                meant_for(key@)
            }),
            forall|j: int| 0 <= j < i ==> !p(#[trigger] all[j]),
        decreases order.len() - i,
    {
        assert(!p(all[i as int]));
        i += 1;
    }
    proof {
        lemma_first_where(all, p, i as int);
    }
    i
}

fn claim(order: &mut Vec<Place>, item: &QueueItem)
    ensures
        views(final(order)@) == claimed(views(old(order)@), item@),
{
    if find_holder(order, item) < order.len() {
        return;
    }
    let i = find_place(order, &item.track.key, true);
    if i < order.len() {
        let place = Place { holder: Some(item.id), key: order[i].key.clone() };
        order[i] = place;
    }
    proof {
        assert(views(order@) =~= claimed(views(old(order)@), item@));
    }
}

fn place_of(order: &Vec<Place>, item: &QueueItem) -> (r: usize)
    ensures
        r == place_in(views(order@), item@),
{
    let i = find_holder(order, item);
    if i < order.len() {
        i
    } else {
        find_place(order, &item.track.key, false)
    }
}

/// Successive "play next" additions form one first-in first-out block: adding
/// `a` and then `b` is adding `a` followed by `b`.
pub proof fn play_next_is_first_in_first_out(
    q: QueueModel,
    a: Seq<TrackModel>,
    b: Seq<TrackModel>,
)
    requires
        q.wf(),
        q.items.len() + a.len() + b.len() <= usize::MAX,
    ensures
        q.add_next(a).add_next(b) == q.add_next(a + b),
{
    if a.len() == 0 {
        assert(a + b =~= b);
    } else if b.len() == 0 {
        assert(a + b =~= a);
    } else {
        let once = q.add_next(a);
        let at = q.insertion();
        assert(once.insertion() == at + a.len());
        assert(numbered(a + b, q.next_item_id) =~= numbered(a, q.next_item_id) + numbered(
            b,
            once.next_item_id,
        ));
        assert(once.items.take(at + a.len()) =~= q.items.take(at) + numbered(a, q.next_item_id));
        assert(once.items.skip(at + a.len()) =~= q.items.skip(at));
        assert(q.add_next(a).add_next(b).items =~= q.add_next(a + b).items);
    }
}

/// Adding tracks, next or last, leaves the current item where it is.
pub proof fn additions_keep_the_current_item(q: QueueModel, tracks: Seq<TrackModel>)
    requires
        q.wf(),
        q.items.len() + tracks.len() <= usize::MAX,
    ensures
        q.add_next(tracks).current_item() == q.current_item(),
        q.add_to_end(tracks).current_item() == q.current_item(),
{
}

/// Moving items about keeps the current one.
pub proof fn moving_keeps_the_current_item(q: QueueModel, id: QueueItemId, target: usize)
    requires
        q.wf(),
    ensures
        q.move_item(id, target).current_item() == q.current_item(),
        q.move_item(id, target).items.len() == q.items.len(),
{
    lemma_position_in_range(q.items, id);
}

/// Removing another item keeps the current one.
pub proof fn removing_another_keeps_the_current_item(q: QueueModel, id: QueueItemId)
    requires
        q.wf(),
        q.current matches Some(c) && position_of(q.items, id) != Some(c),
    ensures
        q.remove_item(id).current_item() == q.current_item(),
{
    lemma_position_in_range(q.items, id);
}

proof fn lemma_position_in_range(items: Seq<QueueItemModel>, id: QueueItemId)
    requires
        items.len() <= usize::MAX,
    ensures
        position_of(items, id) matches Some(i) ==> i < items.len() && items[i as int].id == id,
    decreases items.len(),
{
    if items.len() > 0 {
        lemma_position_in_range(items.drop_last(), id);
    }
}

/// Every item can be selected by its identifier, and selecting it selects no
/// other occurrence of its track.
pub proof fn an_identifier_selects_its_item(q: QueueModel, index: usize)
    requires
        q.wf(),
        q.next_item_id < u64::MAX,
        index < q.items.len(),
    ensures
        q.select_item(q.items[index as int].id).current == Some(index),
{
    lemma_position_of(q.items, q.items[index as int].id, index as int);
}

proof fn lemma_position_of(items: Seq<QueueItemModel>, id: QueueItemId, index: int)
    requires
        0 <= index < items.len() <= usize::MAX,
        items[index].id == id,
        forall|i: int| 0 <= i < items.len() && i != index ==> (#[trigger] items[i]).id != id,
    ensures
        position_of(items, id) == Some(index as usize),
    decreases items.len(),
{
    if index < items.len() - 1 {
        lemma_position_of(items.drop_last(), id, index);
    } else {
        lemma_position_of_absent(items.drop_last(), id);
    }
}

proof fn lemma_position_of_absent(items: Seq<QueueItemModel>, id: QueueItemId)
    requires
        forall|i: int| 0 <= i < items.len() ==> (#[trigger] items[i]).id != id,
    ensures
        position_of(items, id) is None,
    decreases items.len(),
{
    if items.len() > 0 {
        lemma_position_of_absent(items.drop_last(), id);
    }
}

/// Going on and then back again ends at the item it started from.
pub proof fn previous_undoes_advance(q: QueueModel)
    requires
        q.wf(),
        q.current is Some,
        q.can_advance(),
    ensures
        q.advance().previous().current_item() == q.current_item(),
        q.advance().previous().items == q.items,
{
}

proof fn lemma_swap_is_a_permutation<T>(s: Seq<T>, i: int, j: int)
    requires
        0 <= i < s.len(),
        0 <= j < s.len(),
    ensures
        s.update(i, s[j]).update(j, s[i]).to_multiset() == s.to_multiset(),
{
    broadcast use vstd::seq_lib::group_to_multiset_ensures;

    vstd::seq_lib::to_multiset_update(s, i, s[j]);
    vstd::seq_lib::to_multiset_update(s.update(i, s[j]), j, s[i]);
    if i == j {
        assert(s.update(i, s[j]).update(j, s[i]) =~= s);
    } else {
        assert(s.contains(s[i]) && s.contains(s[j]));
        assert(s.update(i, s[j]).update(j, s[i]).to_multiset() =~= s.to_multiset());
    }
}

proof fn lemma_shuffled_is_a_permutation<T>(s: Seq<T>, index: int, seed: u64)
    requires
        index < s.len(),
    ensures
        shuffled(s, index, seed).len() == s.len(),
        shuffled(s, index, seed).to_multiset() == s.to_multiset(),
    decreases index,
{
    if index > 0 {
        let next = xorshift(seed);
        let pick = next as int % (index + 1);
        lemma_swap_is_a_permutation(s, index, pick);
        lemma_shuffled_is_a_permutation(
            s.update(index, s[pick]).update(pick, s[index]),
            index - 1,
            next,
        );
    }
}

/// A shuffle, whatever its seed, keeps the current item and everything before
/// it, and only reorders what comes after.
pub proof fn shuffling_reorders_only_what_has_not_played(q: QueueModel, seed: u64)
    requires
        q.wf(),
    ensures
        q.shuffle_upcoming(seed).items.len() == q.items.len(),
        q.shuffle_upcoming(seed).items.take(q.upcoming()) == q.items.take(q.upcoming()),
        q.shuffle_upcoming(seed).items.skip(q.upcoming()).to_multiset() == q.items.skip(
            q.upcoming(),
        ).to_multiset(),
        q.shuffle_upcoming(seed).current == q.current,
        q.shuffle_upcoming(seed).current_item() == q.current_item(),
{
    let tail = q.items.skip(q.upcoming());
    if tail.len() >= 2 {
        lemma_shuffled_is_a_permutation(tail, tail.len() - 1, seed);
        let r = q.shuffle_upcoming(seed);
        assert(r.items.take(q.upcoming()) =~= q.items.take(q.upcoming()));
        assert(r.items.skip(q.upcoming()) =~= shuffled(tail, tail.len() - 1, seed));
    }
}

/// A shuffle keeps the queue sound.
pub proof fn shuffling_keeps_the_queue_sound(q: QueueModel, seed: u64)
    requires
        q.wf(),
    ensures
        q.shuffle_upcoming(seed).wf(),
{
    let tail = q.items.skip(q.upcoming());
    if tail.len() >= 2 {
        lemma_shuffled_is_a_permutation(tail, tail.len() - 1, seed);
        lemma_reordered_tail_is_distinct(
            q.items,
            q.upcoming(),
            shuffled(tail, tail.len() - 1, seed),
            q.next_item_id,
        );
    }
}

/// Two arrangements of the same items, both in an order that tells every two
/// of them apart, are equal.
proof fn lemma_ordered_arrangement_is_unique<T>(
    a: Seq<T>,
    b: Seq<T>,
    lt: spec_fn(T, T) -> bool,
)
    requires
        a.to_multiset() == b.to_multiset(),
        forall|i: int, j: int| 0 <= i < j < a.len() ==> lt(#[trigger] a[i], #[trigger] a[j]),
        in_order(b, lt),
        forall|x: T| !#[trigger] lt(x, x),
    ensures
        a == b,
    decreases a.len(),
{
    broadcast use vstd::seq_lib::group_to_multiset_ensures;

    assert(a.len() == a.to_multiset().len());
    assert(b.len() == b.to_multiset().len());
    if a.len() > 0 {
        let n = a.len() - 1;
        assert(a.contains(a[n]));
        assert(b.to_multiset().count(a[n]) > 0);
        let p = choose|p: int| 0 <= p < b.len() && b[p] == a[n];
        assert(b.contains(b[n]));
        assert(a.to_multiset().count(b[n]) > 0);
        let q = choose|q: int| 0 <= q < a.len() && a[q] == b[n];
        if q != n {
            assert(lt(a[q], a[n]));
            if p < n {
                assert(!lt(b[n], b[p]));
            }
            assert(false);
        }
        assert(a.last() == b.last());
        assert(a =~= a.drop_last().push(a.last()));
        assert(b =~= b.drop_last().push(b.last()));
        assert(a.drop_last().to_multiset() =~= a.to_multiset().remove(a.last()));
        assert(b.drop_last().to_multiset() =~= b.to_multiset().remove(b.last()));
        lemma_ordered_arrangement_is_unique(a.drop_last(), b.drop_last(), lt);
        assert(a =~= b);
    }
}

proof fn lemma_position_exists(items: Seq<QueueItemModel>, index: int)
    requires
        0 <= index < items.len() <= usize::MAX,
    ensures
        position_of(items, items[index].id) is Some,
    decreases items.len(),
{
    if index < items.len() - 1 {
        lemma_position_exists(items.drop_last(), index);
    }
}

/// Where every place is held by an item of the queue, and every item holds one,
/// nothing changes hands.
proof fn lemma_nothing_is_claimed(order: Seq<PlaceModel>, items: Seq<QueueItemModel>)
    requires
        forall|i: int|
            0 <= i < items.len() ==> first_where(order, held_by(#[trigger] items[i]))
                < order.len(),
    ensures
        all_claimed(order, items) == order,
    decreases items.len(),
{
    if items.len() > 0 {
        let fewer = items.drop_last();
        assert forall|i: int| 0 <= i < fewer.len() implies first_where(
            order,
            held_by(#[trigger] fewer[i]),
        ) < order.len() by {
            assert(fewer[i] == items[i]);
        }
        lemma_nothing_is_claimed(order, fewer);
        assert(items.last() == items[items.len() - 1]);
    }
}

/// A queue with the same items in another order puts every item where it stood.
proof fn lemma_places_are_kept(before: Seq<QueueItemModel>, after: Seq<QueueItemModel>, last: u64)
    requires
        before.len() <= usize::MAX,
        last < u64::MAX,
        distinct_bounded(before, last),
        before.to_multiset() == after.to_multiset(),
    ensures
        assigned(item_places(before), after) == item_places(before),
        forall|k: int|
            0 <= k < before.len() ==> place_in(item_places(before), #[trigger] before[k]) == k,
{
    broadcast use vstd::seq_lib::group_to_multiset_ensures;

    let order = item_places(before);
    assert(before.len() == before.to_multiset().len());
    assert(after.len() == after.to_multiset().len());
    assert forall|k: int| 0 <= k < before.len() implies first_where(
        order,
        held_by(#[trigger] before[k]),
    ) == k by {
        assert(order[k] == PlaceModel { holder: Some(before[k].id), key: before[k].track.key });
        assert forall|j: int| 0 <= j < k implies !held_by(before[k])(#[trigger] order[j]) by {
            assert(before[j].id != before[k].id);
        }
        lemma_first_where(order, held_by(before[k]), k);
    }
    assert forall|k: int| 0 <= k < before.len() implies position_of(
        after,
        (#[trigger] before[k]).id,
    ) is Some by {
        assert(before.contains(before[k]));
        assert(after.to_multiset().count(before[k]) > 0);
        let i = choose|i: int| 0 <= i < after.len() && after[i] == before[k];
        lemma_position_exists(after, i);
    }
    assert forall|i: int| 0 <= i < order.len() implies #[trigger] released(order, after)[i]
        == order[i] by {
        assert(position_of(after, before[i].id) is Some);
    }
    assert(released(order, after) =~= order);
    assert forall|i: int| 0 <= i < after.len() implies first_where(
        order,
        held_by(#[trigger] after[i]),
    ) < order.len() by {
        assert(after.contains(after[i]));
        assert(before.to_multiset().count(after[i]) > 0);
        let k = choose|k: int| 0 <= k < before.len() && before[k] == after[i];
        assert(first_where(order, held_by(before[k])) == k);
    }
    lemma_nothing_is_claimed(order, after);
}

/// Going on, going back and choosing an item change neither what is queued nor
/// the order remembered.
pub proof fn moves_keep_what_is_queued(q: QueueModel, id: QueueItemId, index: usize)
    ensures
        q.advance().items == q.items && q.advance().original_order == q.original_order,
        q.previous().items == q.items && q.previous().original_order == q.original_order,
        q.select_item(id).items == q.items && q.select_item(id).original_order
            == q.original_order,
        q.select_index(index).items == q.items && q.select_index(index).original_order
            == q.original_order,
{
}

/// Whether `a` stands among the items, and `b` behind it.
pub open spec fn stands_before(
    items: Seq<QueueItemModel>,
    a: QueueItemModel,
    b: QueueItemModel,
) -> bool {
    exists|i: int, j: int|
        0 <= i < j < items.len() && #[trigger] items[i] == a && #[trigger] items[j] == b
}

proof fn lemma_counted_is_contained<T>(a: Seq<T>, b: Seq<T>, i: int)
    requires
        a.to_multiset() == b.to_multiset(),
        0 <= i < a.len(),
    ensures
        b.contains(a[i]),
{
    broadcast use vstd::seq_lib::group_to_multiset_ensures;

    assert(a.contains(a[i]));
    assert(b.to_multiset().count(a[i]) > 0);
}

proof fn lemma_same_count<T>(a: Seq<T>, b: Seq<T>)
    requires
        a.to_multiset() == b.to_multiset(),
    ensures
        a.len() == b.len(),
{
    broadcast use vstd::seq_lib::group_to_multiset_ensures;

    assert(a.len() == a.to_multiset().len());
    assert(b.len() == b.to_multiset().len());
}

proof fn lemma_reordered_tail_is_a_permutation<T>(s: Seq<T>, n: int, tail: Seq<T>)
    requires
        0 <= n <= s.len(),
        tail.to_multiset() == s.skip(n).to_multiset(),
    ensures
        (s.take(n) + tail).to_multiset() == s.to_multiset(),
{
    assert(s =~= s.take(n) + s.skip(n));
    vstd::seq_lib::lemma_multiset_commutative(s.take(n), s.skip(n));
    vstd::seq_lib::lemma_multiset_commutative(s.take(n), tail);
}

/// A tail that is sorted by the places of `before` stands as it stood there.
proof fn lemma_sorted_tail_stands(
    before: Seq<QueueItemModel>,
    items: Seq<QueueItemModel>,
    n: int,
    last: u64,
)
    requires
        before.len() <= usize::MAX,
        last < u64::MAX,
        distinct_bounded(before, last),
        before.to_multiset() == items.to_multiset(),
        0 <= n <= items.len(),
    ensures
        ({
            let sorted = stable_sorted(
                items.skip(n),
                placed_before(assigned(item_places(before), items)),
            );
            &&& sorted.len() == items.len() - n
            &&& sorted.to_multiset() == items.skip(n).to_multiset()
            &&& forall|i: int, j: int|
                0 <= i < j < sorted.len() ==> stands_before(
                    before,
                    #[trigger] sorted[i],
                    #[trigger] sorted[j],
                )
            &&& before.take(n) == items.take(n) ==> sorted == before.skip(n)
        }),
{
    lemma_places_are_kept(before, items, last);
    lemma_same_count(before, items);
    let order = item_places(before);
    let lt = placed_before(order);
    let tail = items.skip(n);
    let sorted = stable_sorted(tail, lt);
    sorting_is_a_permutation(tail, lt);
    lemma_same_count(tail, sorted);
    assert(crate::sort::is_order(lt));
    sorting_orders(tail, lt);
    let r = items.take(n) + sorted;
    lemma_reordered_tail_is_a_permutation(items, n, sorted);
    assert(before.skip(0) =~= before);
    lemma_reordered_tail_is_distinct(before, 0, r, last);
    assert(before.take(0) + r =~= r);
    assert forall|i: int, j: int| 0 <= i < j < sorted.len() implies stands_before(
        before,
        #[trigger] sorted[i],
        #[trigger] sorted[j],
    ) by {
        assert(r[n + i] == sorted[i] && r[n + j] == sorted[j]);
        assert(r[n + i].id != r[n + j].id);
        lemma_counted_is_contained(r, before, n + i);
        lemma_counted_is_contained(r, before, n + j);
        let a = choose|a: int| 0 <= a < before.len() && before[a] == sorted[i];
        let b = choose|b: int| 0 <= b < before.len() && before[b] == sorted[j];
        assert(!lt(sorted[j], sorted[i]));
        assert(place_in(order, before[a]) == a && place_in(order, before[b]) == b);
        assert(a < b);
    }
    if before.take(n) == items.take(n) {
        let former = before.skip(n);
        assert(former.to_multiset() == tail.to_multiset()) by {
            assert(before =~= before.take(n) + former);
            assert(items =~= before.take(n) + tail);
            vstd::seq_lib::lemma_multiset_commutative(before.take(n), former);
            vstd::seq_lib::lemma_multiset_commutative(before.take(n), tail);
            let played = before.take(n).to_multiset();
            assert(played.add(former.to_multiset()).sub(played) =~= former.to_multiset());
            assert(played.add(tail.to_multiset()).sub(played) =~= tail.to_multiset());
        }
        assert forall|i: int, j: int| 0 <= i < j < former.len() implies lt(
            #[trigger] former[i],
            #[trigger] former[j],
        ) by {
            assert(before[n + i] == former[i] && before[n + j] == former[j]);
        }
        lemma_ordered_arrangement_is_unique(former, sorted, lt);
    }
}

/// Restoring the order after a shuffle, whatever its seed, in a queue that
/// remembered no earlier order, and wherever the queue moved meanwhile: what has
/// played stays, and what has not played stands in the order before the shuffle,
/// also where a track is queued more than once.
pub proof fn restoring_undoes_a_shuffle(q: QueueModel, seed: u64, moved: QueueModel)
    requires
        q.wf(),
        q.next_item_id < u64::MAX,
        q.original_order is None,
        moved.wf(),
        moved.items == q.shuffle_upcoming(seed).items,
        moved.original_order == q.shuffle_upcoming(seed).original_order,
    ensures
        ({
            let r = moved.restore_upcoming_order();
            let n = moved.upcoming();
            &&& r.current == moved.current
            &&& r.original_order is None
            &&& r.items.take(n) == moved.items.take(n)
            &&& r.items.skip(n).to_multiset() == moved.items.skip(n).to_multiset()
            &&& forall|i: int, j: int|
                n <= i < j < r.items.len() ==> stands_before(
                    q.items,
                    #[trigger] r.items[i],
                    #[trigger] r.items[j],
                )
            &&& moved.current == q.current ==> r.items == q.items
        }),
{
    shuffling_reorders_only_what_has_not_played(q, seed);
    let n = moved.upcoming();
    let r = moved.restore_upcoming_order();
    let m = q.upcoming();
    let mixed = q.shuffle_upcoming(seed).items;
    assert(mixed =~= mixed.take(m) + mixed.skip(m));
    assert(q.items.take(m) + mixed.skip(m) == mixed);
    lemma_reordered_tail_is_a_permutation(q.items, m, mixed.skip(m));
    lemma_sorted_tail_stands(q.items, mixed, n, q.next_item_id);
    if moved.original_order is None {
        assert(mixed == q.items);
        assert forall|i: int, j: int| n <= i < j < r.items.len() implies stands_before(
            q.items,
            #[trigger] r.items[i],
            #[trigger] r.items[j],
        ) by {}
    } else {
        assert(moved.original_order == Some(item_places(q.items)));
        let sorted = stable_sorted(
            mixed.skip(n),
            placed_before(assigned(item_places(q.items), mixed)),
        );
        assert(r.items == mixed.take(n) + sorted);
        assert(r.items.take(n) =~= mixed.take(n));
        assert(r.items.skip(n) =~= sorted);
        assert forall|i: int, j: int| n <= i < j < r.items.len() implies stands_before(
            q.items,
            #[trigger] r.items[i],
            #[trigger] r.items[j],
        ) by {
            assert(r.items[i] == sorted[i - n] && r.items[j] == sorted[j - n]);
        }
        if moved.current == q.current {
            assert(q.items.take(n) + q.items.skip(n) =~= q.items);
        }
    }
}

/// Tracks of which each is known by something, and no two are the same.
pub open spec fn tells_apart(tracks: Seq<TrackModel>) -> bool {
    forall|i: int, j: int|
        0 <= i < tracks.len() && 0 <= j < tracks.len() ==> (#[trigger] tracks[i]).key.matches(
            (#[trigger] tracks[j]).key,
        ) == (i == j)
}

/// Whether `a` stands among the tracks, and `b` behind it.
pub open spec fn plays_before(tracks: Seq<TrackModel>, a: TrackModel, b: TrackModel) -> bool {
    exists|i: int, j: int|
        0 <= i < j < tracks.len() && #[trigger] tracks[i] == a && #[trigger] tracks[j] == b
}

/// Whether the places are those of the tracks, and none is held by an item with
/// another one.
spec fn is_fair(
    order: Seq<PlaceModel>,
    items: Seq<QueueItemModel>,
    tracks: Seq<TrackModel>,
) -> bool {
    &&& order.len() == tracks.len()
    &&& forall|i: int| 0 <= i < order.len() ==> (#[trigger] order[i]).key == tracks[i].key
    &&& forall|i: int, k: int|
        0 <= i < order.len() && 0 <= k < items.len() && (#[trigger] order[i]).holder == Some(
            (#[trigger] items[k]).id,
        ) && items[k].id.0 < u64::MAX ==> items[k].track == tracks[i]
}

/// Whether each item is one of the tracks, and no two share an identifier but
/// for the largest.
spec fn is_told_apart(items: Seq<QueueItemModel>, tracks: Seq<TrackModel>) -> bool {
    &&& forall|k: int| 0 <= k < items.len() ==> tracks.contains((#[trigger] items[k]).track)
    &&& forall|k: int, l: int|
        0 <= k < items.len() && 0 <= l < items.len() && (#[trigger] items[k]).id == (
        #[trigger] items[l]).id && items[k].id.0 < u64::MAX ==> items[k].track == items[l].track
}

proof fn lemma_claims_are_fair(
    order: Seq<PlaceModel>,
    items: Seq<QueueItemModel>,
    tracks: Seq<TrackModel>,
    n: int,
)
    requires
        tells_apart(tracks),
        is_told_apart(items, tracks),
        is_fair(order, items, tracks),
        0 <= n <= items.len(),
    ensures
        is_fair(all_claimed(order, items.take(n)), items, tracks),
    decreases n,
{
    if n > 0 {
        lemma_claims_are_fair(order, items, tracks, n - 1);
        let now = all_claimed(order, items.take(n - 1));
        let item = items[n - 1];
        assert(items.take(n).drop_last() =~= items.take(n - 1));
        assert(items.take(n).last() == item);
        let then = claimed(now, item);
        let p = free_for(item.track.key);
        let i = first_where(now, p);
        lemma_first_where_is(now, p);
        if then != now {
            assert(p(now[i]));
            let a = choose|a: int| 0 <= a < tracks.len() && tracks[a] == item.track;
            assert(tracks[i].key.matches(tracks[a].key));
            assert(i == a);
            assert forall|j: int, k: int|
                0 <= j < then.len() && 0 <= k < items.len() && (#[trigger] then[j]).holder
                    == Some((#[trigger] items[k]).id) && items[k].id.0
                    < u64::MAX implies items[k].track == tracks[j] by {
                if j == i {
                    assert(items[k].id == items[n - 1].id);
                } else {
                    assert(then[j] == now[j]);
                }
            }
            assert forall|j: int| 0 <= j < then.len() implies (#[trigger] then[j]).key
                == tracks[j].key by {
                assert(now[j].key == tracks[j].key);
            }
        }
    } else {
        assert(items.take(0) =~= Seq::empty());
    }
}

/// Where no two tracks are the same, an item is placed where its track stood.
proof fn lemma_tracks_have_their_places(
    order: Seq<PlaceModel>,
    items: Seq<QueueItemModel>,
    tracks: Seq<TrackModel>,
)
    requires
        tells_apart(tracks),
        is_told_apart(items, tracks),
        is_fair(order, items, tracks),
    ensures
        forall|k: int, a: int|
            0 <= k < items.len() && 0 <= a < tracks.len() && (#[trigger] items[k]).track == (
            #[trigger] tracks[a]) ==> place_in(assigned(order, items), items[k]) == a,
{
    let free = released(order, items);
    assert forall|i: int, k: int|
        0 <= i < free.len() && 0 <= k < items.len() && (#[trigger] free[i]).holder == Some(
            (#[trigger] items[k]).id,
        ) && items[k].id.0 < u64::MAX implies items[k].track == tracks[i] by {
        assert(order[i].holder == free[i].holder);
    }
    assert forall|i: int| 0 <= i < free.len() implies (#[trigger] free[i]).key
        == tracks[i].key by {
        assert(order[i].key == tracks[i].key);
    }
    lemma_claims_are_fair(free, items, tracks, items.len() as int);
    assert(items.take(items.len() as int) =~= items);
    let places = assigned(order, items);
    assert forall|k: int, a: int|
        0 <= k < items.len() && 0 <= a < tracks.len() && (#[trigger] items[k]).track == (
        #[trigger] tracks[a]) implies place_in(places, items[k]) == a by {
        let held = held_by(items[k]);
        let i = first_where(places, held);
        lemma_first_where_is(places, held);
        if i < places.len() {
            assert(held(places[i]));
            assert(places[i].key == tracks[i].key);
            assert(tracks[a].key.matches(tracks[a].key));
            assert(tracks[i].key.matches(tracks[a].key));
        } else {
            let meant = meant_for(tracks[a].key);
            assert(places[a].key == tracks[a].key);
            assert(tracks[a].key.matches(tracks[a].key));
            assert(meant(places[a]));
            assert forall|j: int| 0 <= j < a implies !meant(#[trigger] places[j]) by {
                assert(places[j].key == tracks[j].key);
                assert(!tracks[j].key.matches(tracks[a].key));
            }
            lemma_first_where(places, meant, a);
        }
    }
}

proof fn lemma_tracks_stay_apart(a: Seq<QueueItemModel>, b: Seq<QueueItemModel>)
    requires
        a.to_multiset() == b.to_multiset(),
        forall|i: int, j: int|
            0 <= i < j < a.len() ==> (#[trigger] a[i]).track != (#[trigger] a[j]).track,
    ensures
        forall|i: int, j: int|
            0 <= i < j < b.len() ==> (#[trigger] b[i]).track != (#[trigger] b[j]).track,
{
    broadcast use vstd::seq_lib::group_to_multiset_ensures;

    assert(a.no_duplicates());
    a.lemma_multiset_has_no_duplicates();
    b.lemma_multiset_has_no_duplicates_conv();
    assert forall|i: int, j: int| 0 <= i < j < b.len() implies (#[trigger] b[i]).track != (
    #[trigger] b[j]).track by {
        lemma_counted_is_contained(b, a, i);
        lemma_counted_is_contained(b, a, j);
        let p = choose|p: int| 0 <= p < a.len() && a[p] == b[i];
        let q = choose|q: int| 0 <= q < a.len() && a[q] == b[j];
        assert(b[i] != b[j]);
        assert(p != q);
    }
}

/// What restoring does with items that are told apart by their tracks.
proof fn lemma_restored_by_tracks(q: QueueModel, order: Seq<PlaceModel>, tracks: Seq<TrackModel>)
    requires
        q.wf(),
        q.original_order == Some(order),
        tells_apart(tracks),
        is_told_apart(q.items, tracks),
        is_fair(order, q.items, tracks),
        forall|i: int, j: int|
            0 <= i < j < q.items.len() ==> (#[trigger] q.items[i]).track != (
            #[trigger] q.items[j]).track,
    ensures
        ({
            let r = q.restore_upcoming_order();
            let n = q.upcoming();
            &&& r.current == q.current
            &&& r.items.len() == q.items.len()
            &&& r.items.take(n) == q.items.take(n)
            &&& r.items.skip(n).to_multiset() == q.items.skip(n).to_multiset()
            &&& forall|i: int, j: int|
                n <= i < j < r.items.len() ==> plays_before(
                    tracks,
                    (#[trigger] r.items[i]).track,
                    (#[trigger] r.items[j]).track,
                )
            &&& r.restore_upcoming_order() == r
        }),
{
    lemma_tracks_have_their_places(order, q.items, tracks);
    let n = q.upcoming();
    let places = assigned(order, q.items);
    let lt = placed_before(places);
    let tail = q.items.skip(n);
    let sorted = stable_sorted(tail, lt);
    sorting_is_a_permutation(tail, lt);
    assert(crate::sort::is_order(lt));
    sorting_orders(tail, lt);
    let r = q.restore_upcoming_order();
    assert(r.items.take(n) =~= q.items.take(n));
    assert(r.items.skip(n) =~= sorted);
    assert forall|i: int, j: int| 0 <= i < j < tail.len() implies (#[trigger] tail[i]).track != (
    #[trigger] tail[j]).track by {
        assert(q.items[n + i].track != q.items[n + j].track);
    }
    lemma_tracks_stay_apart(tail, sorted);
    assert forall|i: int, j: int| n <= i < j < r.items.len() implies plays_before(
        tracks,
        (#[trigger] r.items[i]).track,
        (#[trigger] r.items[j]).track,
    ) by {
        let x = sorted[i - n];
        let y = sorted[j - n];
        assert(r.items[i] == x && r.items[j] == y);
        assert(x.track != y.track);
        lemma_counted_is_contained(sorted, tail, i - n);
        lemma_counted_is_contained(sorted, tail, j - n);
        let k = choose|k: int| 0 <= k < tail.len() && tail[k] == x;
        let l = choose|l: int| 0 <= l < tail.len() && tail[l] == y;
        assert(q.items[n + k] == x && q.items[n + l] == y);
        let a = choose|a: int| 0 <= a < tracks.len() && tracks[a] == x.track;
        let b = choose|b: int| 0 <= b < tracks.len() && tracks[b] == y.track;
        assert(place_in(places, q.items[n + k]) == a);
        assert(place_in(places, q.items[n + l]) == b);
        assert(!lt(y, x));
    }
}

proof fn lemma_numbered_are_told_apart(tracks: Seq<TrackModel>, last: u64)
    requires
        tells_apart(tracks),
    ensures
        is_told_apart(numbered(tracks, last), tracks),
        is_fair(item_places(numbered(tracks, last)), numbered(tracks, last), tracks),
        forall|i: int, j: int|
            0 <= i < j < tracks.len() ==> (#[trigger] numbered(tracks, last)[i]).track != (
            #[trigger] numbered(tracks, last)[j]).track,
{
    let items = numbered(tracks, last);
    assert forall|i: int, j: int| 0 <= i < j < tracks.len() implies (#[trigger] items[i]).track
        != (#[trigger] items[j]).track by {
        assert(!tracks[i].key.matches(tracks[j].key));
        assert(tracks[i].key.matches(tracks[i].key));
    }
    assert forall|k: int| 0 <= k < items.len() implies tracks.contains(
        (#[trigger] items[k]).track,
    ) by {
        assert(tracks[k] == items[k].track);
    }
}

/// A new context of tracks that are told apart, shuffled, whatever the seed, and
/// the queue moved on, back or elsewhere meanwhile: restoring leaves what has
/// played and the current item alone, and puts what has not played into the
/// order that the tracks came in. Restoring again changes nothing. This holds
/// also where the identifiers are used up.
pub proof fn restoring_gives_back_the_order_of_a_context(
    q: QueueModel,
    tracks: Seq<TrackModel>,
    start: usize,
    seed: u64,
    moved: QueueModel,
)
    requires
        tells_apart(tracks),
        moved.wf(),
        moved.items == q.replace_context(tracks, start).shuffle_upcoming(seed).items,
        moved.original_order == q.replace_context(tracks, start).shuffle_upcoming(
            seed,
        ).original_order,
    ensures
        ({
            let r = moved.restore_upcoming_order();
            let n = moved.upcoming();
            &&& r.current == moved.current
            &&& r.items.len() == tracks.len()
            &&& r.items.take(n) == moved.items.take(n)
            &&& r.items.skip(n).to_multiset() == moved.items.skip(n).to_multiset()
            &&& forall|i: int, j: int|
                n <= i < j < r.items.len() ==> plays_before(
                    tracks,
                    (#[trigger] r.items[i]).track,
                    (#[trigger] r.items[j]).track,
                )
            &&& r.restore_upcoming_order() == r
        }),
{
    let context = q.replace_context(tracks, start);
    let items = context.items;
    let m = context.upcoming();
    let n = moved.upcoming();
    lemma_numbered_are_told_apart(tracks, q.next_item_id);
    if items.skip(m).len() < 2 {
        assert(moved.restore_upcoming_order() == moved);
        assert forall|i: int, j: int| n <= i < j < items.len() implies plays_before(
            tracks,
            (#[trigger] items[i]).track,
            (#[trigger] items[j]).track,
        ) by {
            assert(tracks[i] == items[i].track && tracks[j] == items[j].track);
        }
    } else {
        let tail = items.skip(m);
        let mixed = shuffled(tail, tail.len() - 1, seed);
        lemma_shuffled_is_a_permutation(tail, tail.len() - 1, seed);
        lemma_reordered_tail_is_a_permutation(items, m, mixed);
        lemma_same_count(moved.items, items);
        lemma_tracks_stay_apart(items, moved.items);
        assert forall|k: int| 0 <= k < moved.items.len() implies items.contains(
            #[trigger] moved.items[k],
        ) by {
            lemma_counted_is_contained(moved.items, items, k);
        }
        lemma_told_apart_when_reordered(items, moved.items, item_places(items), tracks);
        lemma_restored_by_tracks(moved, item_places(items), tracks);
    }
}

proof fn lemma_told_apart_when_reordered(
    before: Seq<QueueItemModel>,
    after: Seq<QueueItemModel>,
    order: Seq<PlaceModel>,
    tracks: Seq<TrackModel>,
)
    requires
        is_told_apart(before, tracks),
        is_fair(order, before, tracks),
        forall|k: int| 0 <= k < after.len() ==> before.contains(#[trigger] after[k]),
    ensures
        is_told_apart(after, tracks),
        is_fair(order, after, tracks),
{
    assert forall|k: int| 0 <= k < after.len() implies tracks.contains(
        (#[trigger] after[k]).track,
    ) by {
        let i = choose|i: int| 0 <= i < before.len() && before[i] == after[k];
        assert(tracks.contains(before[i].track));
    }
    assert forall|k: int, l: int|
        0 <= k < after.len() && 0 <= l < after.len() && (#[trigger] after[k]).id == (
        #[trigger] after[l]).id && after[k].id.0 < u64::MAX implies after[k].track
        == after[l].track by {
        let i = choose|i: int| 0 <= i < before.len() && before[i] == after[k];
        let j = choose|j: int| 0 <= j < before.len() && before[j] == after[l];
        assert(before[i].id == before[j].id);
    }
    assert forall|i: int, k: int|
        0 <= i < order.len() && 0 <= k < after.len() && (#[trigger] order[i]).holder == Some(
            (#[trigger] after[k]).id,
        ) && after[k].id.0 < u64::MAX implies after[k].track == tracks[i] by {
        let j = choose|j: int| 0 <= j < before.len() && before[j] == after[k];
        assert(order[i].holder == Some(before[j].id));
    }
}

/// A context of tracks that are told apart, its order remembered, and then the
/// same tracks taken over in another order, and the queue moved meanwhile: the
/// tracks stand as they were taken over, and restoring puts what has not played
/// into the order remembered. Restoring again changes nothing.
pub proof fn restoring_undoes_a_shuffled_context(
    q: QueueModel,
    tracks: Seq<TrackModel>,
    start: usize,
    mixed: Seq<TrackModel>,
    chosen: usize,
    moved: QueueModel,
)
    requires
        tracks.len() > 0,
        tells_apart(tracks),
        mixed.to_multiset() == tracks.to_multiset(),
        moved.wf(),
        ({
            let taken = q.replace_context(tracks, start).remember_order().replace_shuffled_context(
                mixed,
                chosen,
            );
            moved.items == taken.items && moved.original_order == taken.original_order
        }),
    ensures
        ({
            let taken = q.replace_context(tracks, start).remember_order().replace_shuffled_context(
                mixed,
                chosen,
            );
            &&& item_tracks(taken.items) == mixed
            &&& taken.current == Some(
                if chosen < mixed.len() {
                    chosen
                } else {
                    (mixed.len() - 1) as usize
                },
            )
            &&& taken.original_order is Some
        }),
        ({
            let r = moved.restore_upcoming_order();
            let n = moved.upcoming();
            &&& r.current == moved.current
            &&& r.items.len() == tracks.len()
            &&& r.items.take(n) == moved.items.take(n)
            &&& r.items.skip(n).to_multiset() == moved.items.skip(n).to_multiset()
            &&& forall|i: int, j: int|
                n <= i < j < r.items.len() ==> plays_before(
                    tracks,
                    (#[trigger] r.items[i]).track,
                    (#[trigger] r.items[j]).track,
                )
            &&& r.restore_upcoming_order() == r
        }),
{
    broadcast use vstd::seq_lib::group_to_multiset_ensures;

    let context = q.replace_context(tracks, start);
    let order = item_places(context.items);
    let items = numbered(mixed, context.next_item_id);
    assert(moved.items == items);
    assert(item_tracks(items) =~= mixed);
    lemma_same_count(mixed, tracks);
    lemma_numbered_are_told_apart(tracks, q.next_item_id);
    assert(tracks.no_duplicates()) by {
        assert forall|i: int, j: int|
            0 <= i < tracks.len() && 0 <= j < tracks.len() && i != j implies tracks[i]
            != tracks[j] by {
            assert(!tracks[i].key.matches(tracks[j].key));
            assert(tracks[i].key.matches(tracks[i].key));
        }
    }
    tracks.lemma_multiset_has_no_duplicates();
    mixed.lemma_multiset_has_no_duplicates_conv();
    assert forall|k: int| 0 <= k < items.len() implies tracks.contains(
        (#[trigger] items[k]).track,
    ) by {
        lemma_counted_is_contained(mixed, tracks, k);
        assert(items[k].track == mixed[k]);
    }
    assert forall|i: int, j: int| 0 <= i < j < items.len() implies (#[trigger] items[i]).track != (
    #[trigger] items[j]).track by {
        assert(mixed[i] != mixed[j]);
    }
    assert forall|i: int, k: int|
        0 <= i < order.len() && 0 <= k < items.len() && (#[trigger] order[i]).holder == Some(
            (#[trigger] items[k]).id,
        ) && items[k].id.0 < u64::MAX implies items[k].track == tracks[i] by {
        assert(context.items[i].id == items[k].id);
    }
    assert(is_fair(order, items, tracks)) by {
        assert forall|i: int| 0 <= i < order.len() implies (#[trigger] order[i]).key
            == tracks[i].key by {
            assert(context.items[i].track == tracks[i]);
        }
    }
    lemma_restored_by_tracks(moved, order, tracks);
}

/// What is added to the end comes behind everything that is queued, in its
/// order, under identifiers of its own; nothing else changes.
pub proof fn additions_to_the_end_come_last(q: QueueModel, tracks: Seq<TrackModel>)
    requires
        q.wf(),
    ensures
        ({
            let r = q.add_to_end(tracks);
            let n = q.items.len() as int;
            &&& r.items.len() == n + tracks.len()
            &&& forall|i: int| 0 <= i < n ==> #[trigger] r.items[i] == q.items[i]
            &&& forall|i: int|
                n <= i < n + tracks.len() ==> (#[trigger] r.items[i]).track == tracks[i - n]
            &&& q.next_item_id + tracks.len() < u64::MAX ==> forall|i: int, j: int|
                0 <= i < n <= j < r.items.len() ==> (#[trigger] r.items[i]).id != (
                #[trigger] r.items[j]).id
            &&& r.current == q.current
            &&& r.play_next_end == q.play_next_end
            &&& r.original_order == q.original_order
        }),
{
}

/// What is to play next comes directly behind the current item, or first where
/// there is none, unless other tracks wait there to play next: it comes behind
/// those. It stands in its order, and what was queued keeps its own.
pub proof fn what_plays_next_follows_the_current_item(q: QueueModel, tracks: Seq<TrackModel>)
    requires
        q.wf(),
        q.items.len() + tracks.len() <= usize::MAX,
    ensures
        ({
            let r = q.add_next(tracks);
            let behind = match q.current {
                Some(c) => c + 1,
                None => 0,
            };
            let at = match q.play_next_end {
                Some(end) if behind <= end && end <= q.items.len() => end as int,
                _ => behind,
            };
            &&& r.items.len() == q.items.len() + tracks.len()
            &&& forall|i: int| 0 <= i < at ==> #[trigger] r.items[i] == q.items[i]
            &&& forall|i: int|
                at <= i < at + tracks.len() ==> (#[trigger] r.items[i]).track == tracks[i - at]
            &&& forall|i: int|
                at + tracks.len() <= i < r.items.len() ==> #[trigger] r.items[i] == q.items[i
                    - tracks.len()]
            &&& r.current == q.current
            &&& tracks.len() > 0 ==> r.play_next_end == Some((at + tracks.len()) as usize)
            &&& tracks.len() == 0 ==> r == q
        }),
{
}

/// A new context replaces everything that was queued. It starts at the chosen
/// track, at the last one where there are fewer, and remembers no other order.
pub proof fn a_new_context_replaces_the_queue(
    q: QueueModel,
    tracks: Seq<TrackModel>,
    start: usize,
)
    requires
        q.wf(),
        tracks.len() <= usize::MAX,
    ensures
        ({
            let r = q.replace_context(tracks, start);
            &&& r.items.len() == tracks.len()
            &&& forall|i: int| 0 <= i < tracks.len() ==> (#[trigger] r.items[i]).track == tracks[i]
            &&& q.next_item_id + tracks.len() < u64::MAX ==> forall|i: int, j: int|
                0 <= i < q.items.len() && 0 <= j < r.items.len() ==> (#[trigger] q.items[i]).id != (
                #[trigger] r.items[j]).id
            &&& tracks.len() == 0 ==> r.current is None
            &&& start < tracks.len() ==> r.current == Some(start)
            &&& tracks.len() > 0 && start >= tracks.len() ==> r.current == Some(
                (tracks.len() - 1) as usize,
            )
            &&& r.play_next_end is None
            &&& r.restore_upcoming_order() == r
        }),
{
}

/// Going on moves to the item behind the current one, from nowhere to the
/// first, and at the end nowhere. Going back moves to the one before, and at the
/// start nowhere. A position selects the item there. Tracks that wait to play
/// next keep waiting as long as they are ahead.
pub proof fn moves_go_one_by_one(q: QueueModel, index: usize)
    requires
        q.wf(),
    ensures
        q.current is None && q.items.len() > 0 ==> q.advance().current == Some(0usize),
        q.items.len() == 0 ==> q.advance() == q,
        q.current matches Some(c) ==> {
            &&& c + 1 < q.items.len() ==> q.advance().current == Some((c + 1) as usize)
            &&& c + 1 == q.items.len() ==> q.advance() == q
            &&& c > 0 ==> q.previous().current == Some((c - 1) as usize)
            &&& c == 0 ==> q.previous().current == Some(0usize)
        },
        q.current is None ==> q.previous() == q,
        index < q.items.len() ==> q.select_index(index).current == Some(index)
            && q.select_index(index).play_next_end is None,
        index >= q.items.len() ==> q.select_index(index) == q,
        q.play_next_end matches Some(end) ==> (q.advance().current matches Some(c) ==> {
            &&& c < end && end <= q.items.len() ==> q.advance().play_next_end == Some(end)
            &&& q.advance() != q && c >= end ==> q.advance().play_next_end is None
        }),
        q.play_next_end is None ==> q.advance().play_next_end is None
            && q.previous().play_next_end is None,
{
}

/// Selecting an item that is not queued leaves nothing current.
pub proof fn an_unknown_item_is_not_selected(q: QueueModel, id: QueueItemId)
    requires
        forall|i: int| 0 <= i < q.items.len() ==> (#[trigger] q.items[i]).id != id,
    ensures
        q.select_item(id).current is None,
        q.select_item(id).items == q.items,
        q.move_item(id, 0) == q,
        q.remove_item(id) == q,
{
    lemma_position_of_absent(q.items, id);
}

/// A moved item stands at the place it was moved to, at the last one where there
/// are fewer, and all others keep their order.
pub proof fn a_moved_item_stands_at_its_place(q: QueueModel, from: usize, target: usize)
    requires
        q.wf(),
        q.next_item_id < u64::MAX,
        from < q.items.len(),
    ensures
        ({
            let r = q.move_item(q.items[from as int].id, target);
            let to = if target < q.items.len() {
                target as int
            } else {
                q.items.len() - 1
            };
            &&& r.items.len() == q.items.len()
            &&& r.items[to] == q.items[from as int]
            &&& forall|i: int|
                0 <= i < q.items.len() && i != from ==> r.items[if i < from && i < to {
                    i
                } else if i > from && i > to {
                    i
                } else if i > from {
                    i - 1
                } else {
                    i + 1
                }] == #[trigger] q.items[i]
            &&& from != to ==> r.play_next_end is None
            &&& from == to ==> r == q
            &&& r.original_order == q.original_order
        }),
{
    lemma_position_of(q.items, q.items[from as int].id, from as int);
}

/// A removed item is gone, and all others keep their order. Where it was the
/// current one, the one behind it becomes current, or the one before where there
/// is none behind.
pub proof fn a_removed_item_is_gone(q: QueueModel, from: usize)
    requires
        q.wf(),
        q.next_item_id < u64::MAX,
        from < q.items.len(),
    ensures
        ({
            let r = q.remove_item(q.items[from as int].id);
            &&& r.items.len() == q.items.len() - 1
            &&& forall|i: int| 0 <= i < from ==> #[trigger] r.items[i] == q.items[i]
            &&& forall|i: int| from <= i < r.items.len() ==> #[trigger] r.items[i] == q.items[i + 1]
            &&& q.current == Some(from) && from + 1 < q.items.len() ==> r.current_item() == Some(
                q.items[from + 1],
            )
            &&& q.current == Some(from) && from + 1 == q.items.len() && from > 0
                ==> r.current_item() == Some(q.items[from - 1])
            &&& q.current is None || q.items.len() == 1 ==> r.current is None
            &&& r.play_next_end is None
        }),
{
    lemma_position_of(q.items, q.items[from as int].id, from as int);
}

/// A replaced track is replaced wherever its key matches, and nowhere else; the
/// items keep their places and their identifiers.
pub proof fn a_track_is_replaced_wherever_it_is_queued(
    q: QueueModel,
    key: TrackKeyModel,
    replacement: TrackModel,
)
    ensures
        ({
            let r = q.replace_track(key, replacement);
            &&& r.items.len() == q.items.len()
            &&& forall|i: int|
                0 <= i < q.items.len() ==> (#[trigger] r.items[i]).id == q.items[i].id
                    && r.items[i].track == (if q.items[i].track.key.matches(key) {
                    replacement
                } else {
                    q.items[i].track
                })
            &&& r.current == q.current
            &&& r.play_next_end == q.play_next_end
            &&& r.original_order == q.original_order
        }),
{
}

/// Which of the upcoming items a shuffle puts last hangs on the seed: each of
/// them is as near as any other. The one that stood there takes its place among
/// those that are drawn after it.
pub proof fn a_shuffle_draws_what_plays_last(q: QueueModel, seed: u64)
    requires
        q.wf(),
        q.items.len() - q.upcoming() >= 2,
    ensures
        q.shuffle_upcoming(seed).items.last() == q.items[q.upcoming() + xorshift(seed) as int % (
        q.items.len() - q.upcoming())],
        q.shuffle_upcoming(seed).original_order is Some,
        q.shuffle_upcoming(seed).play_next_end is None,
{
    let tail = q.items.skip(q.upcoming());
    let next = xorshift(seed);
    let index = tail.len() - 1;
    let pick = next as int % (index + 1);
    let once = tail.update(index, tail[pick]).update(pick, tail[index]);
    lemma_shuffled_keeps_the_rest(once, index - 1, next, index);
    lemma_shuffled_is_a_permutation(tail, index, seed);
}

proof fn lemma_shuffled_keeps_the_rest<T>(s: Seq<T>, index: int, seed: u64, k: int)
    requires
        index < k < s.len(),
    ensures
        shuffled(s, index, seed).len() == s.len(),
        shuffled(s, index, seed)[k] == s[k],
    decreases index,
{
    if index > 0 {
        let next = xorshift(seed);
        let pick = next as int % (index + 1);
        lemma_shuffled_keeps_the_rest(
            s.update(index, s[pick]).update(pick, s[index]),
            index - 1,
            next,
            k,
        );
    }
}

/// The draws of a shuffle never end at zero, where all further ones would be
/// zero, and different seeds give different draws.
pub proof fn draws_go_on(a: u64, b: u64)
    ensures
        a != 0 ==> xorshift(a) != 0,
        a != b ==> xorshift(a) != xorshift(b),
{
    assert(a != b ==> a ^ (a << 13u64) != b ^ (b << 13u64)) by (bit_vector);
    let a1 = a ^ (a << 13u64);
    let b1 = b ^ (b << 13u64);
    assert(a1 != b1 ==> a1 ^ (a1 >> 7u64) != b1 ^ (b1 >> 7u64)) by (bit_vector);
    let a2 = a1 ^ (a1 >> 7u64);
    let b2 = b1 ^ (b1 >> 7u64);
    assert(a2 != b2 ==> a2 ^ (a2 << 17u64) != b2 ^ (b2 << 17u64)) by (bit_vector);
    assert(a != 0 ==> a ^ (a << 13u64) != 0) by (bit_vector);
    assert(a1 != 0 ==> a1 ^ (a1 >> 7u64) != 0) by (bit_vector);
    assert(a2 != 0 ==> a2 ^ (a2 << 17u64) != 0) by (bit_vector);
}

} // verus!

//! Registers that several devices write: of all the writes to one key, the one
//! with the latest stamp stands, in whatever order they arrive.
use crate::find::{first_where, found, lemma_first_where, lemma_first_where_is};
use crate::text::{lemma_text_lt_total, lemma_text_lt_transitive, str_lt, text_lt};
use crate::views::views;
use vstd::prelude::*;

verus! {

broadcast use crate::views::group_views;

/// What a register is written under.
pub trait RegisterKey: View + Sized {
    fn same_key(&self, other: &Self) -> (r: bool)
        ensures
            r == (self@ == other@),
    ;
}

impl RegisterKey for String {
    fn same_key(&self, other: &Self) -> (r: bool) {
        *self == *other
    }
}

/// A value that was written under a key, with its stamp: when, and by which
/// operation.
#[derive(Debug, PartialEq)]
pub struct Written<K, V> {
    pub key: K,
    pub value: V,
    pub hlc_ms: i64,
    pub op_id: String,
}

pub struct WrittenModel<K, V> {
    pub key: K,
    pub value: V,
    pub hlc_ms: i64,
    pub op_id: Seq<char>,
}

impl<K: View, V: View> View for Written<K, V> {
    type V = WrittenModel<K::V, V::V>;

    open spec fn view(&self) -> WrittenModel<K::V, V::V> {
        WrittenModel {
            key: self.key@,
            value: self.value@,
            hlc_ms: self.hlc_ms,
            op_id: self.op_id@,
        }
    }
}

/// Whether a stamp is later than another one: by time, and where the times
/// agree, by the identifier of the operation.
pub open spec fn is_later(
    hlc_ms: i64,
    op_id: Seq<char>,
    than_hlc_ms: i64,
    than_op_id: Seq<char>,
) -> bool {
    hlc_ms > than_hlc_ms || (hlc_ms == than_hlc_ms && text_lt(than_op_id, op_id))
}

pub open spec fn supersedes<K, V>(a: WrittenModel<K, V>, b: WrittenModel<K, V>) -> bool {
    is_later(a.hlc_ms, a.op_id, b.hlc_ms, b.op_id)
}

pub open spec fn has_key<K, V>(key: K) -> spec_fn(WrittenModel<K, V>) -> bool {
    |row: WrittenModel<K, V>| row.key == key
}

/// What is written under a key.
pub open spec fn current<K, V>(rows: Seq<WrittenModel<K, V>>, key: K) -> Option<
    WrittenModel<K, V>,
> {
    found(rows, has_key(key))
}

/// Whether a write stands against what is there.
pub open spec fn wins<K, V>(rows: Seq<WrittenModel<K, V>>, row: WrittenModel<K, V>) -> bool {
    match current(rows, row.key) {
        None => true,
        Some(present) => supersedes(row, present),
    }
}

/// The registers after a write, which replaces what stands under its key only
/// if it is later.
pub open spec fn written<K, V>(rows: Seq<WrittenModel<K, V>>, row: WrittenModel<K, V>) -> Seq<
    WrittenModel<K, V>,
> {
    let i = first_where(rows, has_key(row.key));
    if !wins(rows, row) {
        rows
    } else if i < rows.len() {
        rows.update(i, row)
    } else {
        rows.push(row)
    }
}

pub open spec fn all_written<K, V>(
    rows: Seq<WrittenModel<K, V>>,
    writes: Seq<WrittenModel<K, V>>,
) -> Seq<WrittenModel<K, V>>
    decreases writes.len(),
{
    if writes.len() == 0 {
        rows
    } else {
        written(all_written(rows, writes.drop_last()), writes.last())
    }
}

/// Writes a value under its key, unless a later one is there, and says whether
/// it stands.
pub fn put<K: RegisterKey, V: View>(rows: &mut Vec<Written<K, V>>, row: Written<K, V>) -> (r: bool)
    ensures
        views(final(rows)@) == written(views(old(rows)@), row@),
        r == wins(views(old(rows)@), row@),
{
    let ghost all = views(rows@);
    let ghost p = has_key::<K::V, V::V>(row@.key);
    let mut i: usize = 0;
    while i < rows.len() && !rows[i].key.same_key(&row.key)
        invariant
            *rows == *old(rows),
            i <= rows.len() == all.len(),
            all == views(rows@),
            p == has_key::<K::V, V::V>(row@.key),
            forall|j: int| 0 <= j < i ==> !p(#[trigger] all[j]),
        decreases rows.len() - i,
    {
        assert(!p(all[i as int]));
        i += 1;
    }
    if i == rows.len() {
        proof {
            lemma_first_where(all, p, i as int);
        }
        rows.push(row);
        return true;
    }
    proof {
        assert(p(all[i as int]));
        lemma_first_where(all, p, i as int);
    }
    let stands = row.hlc_ms > rows[i].hlc_ms || (row.hlc_ms == rows[i].hlc_ms && str_lt(
        rows[i].op_id.as_str(),
        row.op_id.as_str(),
    ));
    if stands {
        rows.set(i, row);
    }
    stands
}

/// Of two writes, the one that stands.
pub open spec fn latest<K, V>(a: Option<WrittenModel<K, V>>, b: WrittenModel<K, V>) -> WrittenModel<
    K,
    V,
> {
    match a {
        None => b,
        Some(a) => if supersedes(b, a) {
            b
        } else {
            a
        },
    }
}

/// A write concerns its own key alone, and there the later of it and what was
/// there stands.
pub proof fn a_write_changes_its_key_alone<K, V>(
    rows: Seq<WrittenModel<K, V>>,
    row: WrittenModel<K, V>,
    key: K,
)
    ensures
        current(written(rows, row), key) == (if key == row.key {
            Some(latest(current(rows, key), row))
        } else {
            current(rows, key)
        }),
{
    let i = first_where(rows, has_key(row.key));
    let after = written(rows, row);
    let k = first_where(rows, has_key(key));
    lemma_first_where_is(rows, has_key(row.key));
    lemma_first_where_is(rows, has_key(key));
    if wins(rows, row) {
        if i < rows.len() {
            if key == row.key {
                assert forall|j: int| 0 <= j < i implies !has_key(key)(#[trigger] after[j]) by {
                    assert(!has_key(row.key)(rows[j]));
                }
                lemma_first_where(after, has_key(key), i);
            } else {
                assert(k != i);
                assert forall|j: int| 0 <= j < k implies !has_key(key)(#[trigger] after[j]) by {
                    assert(!has_key(key)(rows[j]));
                }
                lemma_first_where(after, has_key(key), k);
            }
        } else {
            if key == row.key {
                assert forall|j: int| 0 <= j < rows.len() implies !has_key(key)(
                    #[trigger] after[j],
                ) by {
                    assert(!has_key(row.key)(rows[j]));
                }
                lemma_first_where(after, has_key(key), rows.len() as int);
            } else {
                assert forall|j: int| 0 <= j < k implies !has_key(key)(#[trigger] after[j]) by {
                    assert(!has_key(key)(rows[j]));
                }
                if k < rows.len() {
                    lemma_first_where(after, has_key(key), k);
                } else {
                    assert(!has_key(key)(after[k]));
                    assert forall|j: int| 0 <= j < after.len() implies !has_key(key)(
                        #[trigger] after[j],
                    ) by {
                        if j < rows.len() {
                            assert(!has_key(key)(rows[j]));
                        }
                    }
                    lemma_first_where(after, has_key(key), after.len() as int);
                }
            }
        }
    }
}

/// Writing the same again changes nothing.
pub proof fn writing_again_changes_nothing<K, V>(
    rows: Seq<WrittenModel<K, V>>,
    row: WrittenModel<K, V>,
)
    ensures
        written(written(rows, row), row) == written(rows, row),
{
    a_write_changes_its_key_alone(rows, row, row.key);
    lemma_text_lt_total(row.op_id, row.op_id);
    if let Some(present) = current(rows, row.key) {
        lemma_text_lt_total(row.op_id, present.op_id);
    }
}

/// Of two writes by different operations one is later.
pub proof fn lemma_one_is_later<K, V>(a: WrittenModel<K, V>, b: WrittenModel<K, V>)
    ensures
        !(supersedes(a, b) && supersedes(b, a)),
        a.op_id != b.op_id ==> supersedes(a, b) || supersedes(b, a),
{
    lemma_text_lt_total(a.op_id, b.op_id);
}

pub proof fn lemma_later_than_later<K, V>(
    a: WrittenModel<K, V>,
    b: WrittenModel<K, V>,
    c: WrittenModel<K, V>,
)
    ensures
        supersedes(a, b) && supersedes(b, c) ==> supersedes(a, c),
{
    if text_lt(c.op_id, b.op_id) && text_lt(b.op_id, a.op_id) {
        lemma_text_lt_transitive(c.op_id, b.op_id, a.op_id);
    }
}

/// Two writes may arrive in either order, and each key reads the same after
/// them, as long as no two operations go by one identifier.
pub proof fn the_order_of_writes_is_free<K, V>(
    rows: Seq<WrittenModel<K, V>>,
    a: WrittenModel<K, V>,
    b: WrittenModel<K, V>,
    key: K,
)
    requires
        a.op_id == b.op_id ==> a == b,
        forall|i: int|
            0 <= i < rows.len() ==> ((#[trigger] rows[i]).op_id == a.op_id ==> rows[i] == a) && (
            rows[i].op_id == b.op_id ==> rows[i] == b),
    ensures
        current(written(written(rows, a), b), key) == current(written(written(rows, b), a), key),
{
    a_write_changes_its_key_alone(rows, a, key);
    a_write_changes_its_key_alone(rows, b, key);
    a_write_changes_its_key_alone(written(rows, a), b, key);
    a_write_changes_its_key_alone(written(rows, b), a, key);
    lemma_one_is_later(a, b);
    if let Some(present) = current(rows, key) {
        lemma_first_where_is(rows, has_key(key));
        lemma_one_is_later(a, present);
        lemma_one_is_later(b, present);
        lemma_later_than_later(a, b, present);
        lemma_later_than_later(b, a, present);
        lemma_later_than_later(a, present, b);
        lemma_later_than_later(b, present, a);
        lemma_later_than_later(present, a, b);
        lemma_later_than_later(present, b, a);
    }
}

/// Nothing under a key ever gets older.
pub proof fn registers_never_go_back<K, V>(
    rows: Seq<WrittenModel<K, V>>,
    row: WrittenModel<K, V>,
    key: K,
)
    requires
        current(rows, key) is Some,
    ensures
        current(written(rows, row), key) is Some,
        !supersedes(current(rows, key)->0, current(written(rows, row), key)->0),
{
    a_write_changes_its_key_alone(rows, row, key);
    let present = current(rows, key)->0;
    lemma_one_is_later(present, row);
    lemma_text_lt_total(present.op_id, present.op_id);
}

proof fn lemma_reads_the_latest<K, V>(writes: Seq<WrittenModel<K, V>>, key: K)
    ensures
        match current(all_written(Seq::empty(), writes), key) {
            None => forall|i: int| 0 <= i < writes.len() ==> (#[trigger] writes[i]).key != key,
            Some(row) => writes.contains(row) && row.key == key && forall|i: int|
                0 <= i < writes.len() && (#[trigger] writes[i]).key == key ==> !supersedes(
                    writes[i],
                    row,
                ),
        },
    decreases writes.len(),
{
    if writes.len() > 0 {
        let front = writes.drop_last();
        let last = writes.last();
        let before = all_written(Seq::empty(), front);
        lemma_reads_the_latest(front, key);
        a_write_changes_its_key_alone(before, last, key);
        lemma_text_lt_total(last.op_id, last.op_id);
        assert(writes[writes.len() - 1] == last);
        match current(before, key) {
            None => {
                assert forall|i: int| 0 <= i < front.len() implies (#[trigger] writes[i]).key
                    != key by {
                    assert(front[i].key != key);
                }
            },
            Some(row) => {
                let k = choose|k: int| 0 <= k < front.len() && front[k] == row;
                assert(writes[k] == row);
                lemma_one_is_later(last, row);
                assert forall|i: int|
                    0 <= i < writes.len() && (#[trigger] writes[i]).key == key implies !supersedes(
                    writes[i],
                    current(all_written(Seq::empty(), writes), key)->0,
                ) by {
                    if i < front.len() {
                        assert(front[i].key == key);
                        lemma_later_than_later(writes[i], last, row);
                    }
                }
            },
        }
    }
}

/// Devices that have received the same writes read the same, whatever order
/// they came in and however often, as long as no two operations go by one
/// identifier.
pub proof fn devices_converge<K, V>(
    here: Seq<WrittenModel<K, V>>,
    there: Seq<WrittenModel<K, V>>,
    key: K,
)
    requires
        forall|row: WrittenModel<K, V>| #[trigger] here.contains(row) <==> there.contains(row),
        forall|i: int, j: int|
            #![trigger here[i], here[j]]
            0 <= i < here.len() && 0 <= j < here.len() && here[i].op_id == here[j].op_id ==> here[i]
                == here[j],
    ensures
        current(all_written(Seq::empty(), here), key) == current(
            all_written(Seq::empty(), there),
            key,
        ),
{
    lemma_reads_the_latest(here, key);
    lemma_reads_the_latest(there, key);
    let a = current(all_written(Seq::empty(), here), key);
    let b = current(all_written(Seq::empty(), there), key);
    if let Some(row) = a {
        assert(there.contains(row));
        let i = choose|i: int| 0 <= i < there.len() && there[i] == row;
        assert(there[i].key == key);
        assert(b is Some);
    }
    if let Some(row) = b {
        assert(here.contains(row)) by {
            assert(there.contains(row));
        }
        let i = choose|i: int| 0 <= i < here.len() && here[i] == row;
        assert(here[i].key == key);
        assert(a is Some);
    }
    if let (Some(x), Some(y)) = (a, b) {
        let i = choose|i: int| 0 <= i < here.len() && here[i] == x;
        assert(here.contains(y));
        let j = choose|j: int| 0 <= j < here.len() && here[j] == y;
        assert(there.contains(x));
        let k = choose|k: int| 0 <= k < there.len() && there[k] == x;
        assert(here[i] == x && here[j] == y && there[k] == x);
        assert(!supersedes(there[k], y));
        assert(!supersedes(here[j], x));
        lemma_one_is_later(x, y);
    }
}

} // verus!

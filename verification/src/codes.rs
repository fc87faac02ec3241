//! The codes in which a lossless picture is written.
//!
//! Such a picture is a row of bits. Before the points of the picture stand the
//! transformations to undo, each with a small picture of its own, and then the
//! codes of the points. A code is over-full where its short symbols leave no
//! room for the long ones. What is walked through here is all that stands
//! before the points.
use crate::views::views;
use vstd::arithmetic::power2::{
    lemma2_to64, lemma_pow2_strictly_increases, lemma_pow2_unfold, pow2,
};
use vstd::prelude::*;

verus! {

broadcast use crate::views::group_views;

/// Why a walk ends before its aim.
#[derive(Debug, Clone, Copy, PartialEq, Eq, Structural)]
pub enum Stop {
    Unreadable,
    Overfull,
}

/// The bit at `i`; those of a byte begin with the lowest.
pub open spec fn bit_at(s: Seq<u8>, i: int) -> int {
    if (s[i / 8] >> ((i % 8) as u8)) & 1u8 == 1u8 {
        1
    } else {
        0
    }
}

/// The number in the `n` bits from `at`, the lowest one first.
pub open spec fn bits_at(s: Seq<u8>, at: int, n: nat) -> int
    decreases n,
{
    if n == 0 {
        0
    } else {
        bit_at(s, at) + 2 * bits_at(s, at + 1, (n - 1) as nat)
    }
}

/// The number in the next `n` bits, and where it ends.
pub open spec fn taken(s: Seq<u8>, at: int, n: nat) -> Result<(int, int), Stop> {
    if at + n > 8 * s.len() {
        Err(Stop::Unreadable)
    } else {
        Ok((bits_at(s, at, n), at + n))
    }
}

proof fn lemma_bits_bound(s: Seq<u8>, at: int, n: nat)
    ensures
        0 <= bits_at(s, at, n) < pow2(n),
    decreases n,
{
    lemma2_to64();
    if n > 0 {
        lemma_bits_bound(s, at + 1, (n - 1) as nat);
        lemma_pow2_unfold(n);
    }
}

fn bit(data: &[u8], i: u128) -> (r: u32)
    requires
        i < 8 * data.len(),
    ensures
        r == bit_at(data@, i as int),
        r <= 1,
{
    let byte: u8 = data[(i / 8) as usize];
    if (byte >> ((i % 8) as u8)) & 1 == 1 {
        1
    } else {
        0
    }
}

/// What `take` tells, as a plain value.
pub open spec fn told<T>(r: Result<(T, u128), Stop>) -> Result<(T, int), Stop> {
    match r {
        Ok((value, next)) => Ok((value, next as int)),
        Err(stop) => Err(stop),
    }
}

pub open spec fn told_number(r: Result<(u32, u128), Stop>) -> Result<(int, int), Stop> {
    match r {
        Ok((value, next)) => Ok((value as int, next as int)),
        Err(stop) => Err(stop),
    }
}

/// Whether a walk went on from `at`, and not beyond the data.
pub open spec fn went_on<T>(r: Result<(T, u128), Stop>, at: u128, len: nat) -> bool {
    r matches Ok((_, next)) ==> at <= next <= 8 * len
}

fn take(data: &[u8], at: u128, n: u32) -> (r: Result<(u32, u128), Stop>)
    requires
        at <= 8 * data.len(),
        n <= 20,
    ensures
        told_number(r) == taken(data@, at as int, n as nat),
        went_on(r, at, data@.len()),
        r matches Ok((value, _)) ==> value < pow2(n as nat) && value < 1_048_576,
{
    let end: u128 = 8 * data.len() as u128;
    if at + n as u128 > end {
        return Err(Stop::Unreadable);
    }
    let mut value: u32 = 0;
    let mut i: u32 = n;
    proof {
        lemma2_to64();
    }
    while i > 0
        invariant
            i <= n <= 20,
            end == 8 * data.len(),
            at + n <= end,
            value == bits_at(data@, at + i, (n - i) as nat),
            value < pow2((n - i) as nat),
        decreases i,
    {
        i -= 1;
        proof {
            lemma_pow2_unfold((n - i) as nat);
            lemma2_to64();
            if n - i < 20 {
                lemma_pow2_strictly_increases((n - i) as nat, 20);
            }
        }
        value = bit(data, at + i as u128) + 2 * value;
    }
    proof {
        lemma2_to64();
        if n < 20 {
            lemma_pow2_strictly_increases(n as nat, 20);
        }
    }
    Ok((value, at + n as u128))
}

/// Finds the symbol that begins with the `value` in the `len` bits before `at`.
/// A code lists its symbols by the length of what stands for them, those of one
/// length in order; `first` stands for the first of this length.
pub open spec fn symbol_from(
    s: Seq<u8>,
    at: int,
    code: Seq<Seq<u16>>,
    len: int,
    value: int,
    first: int,
) -> Result<(u16, int), Stop>
    decreases 16 - len,
{
    if len >= 16 || first >= 65_536 {
        Err(Stop::Unreadable)
    } else if 0 <= value - first < code[len].len() {
        Ok((code[len][value - first], at))
    } else if at >= 8 * s.len() {
        Err(Stop::Unreadable)
    } else {
        symbol_from(
            s,
            at + 1,
            code,
            len + 1,
            2 * value + bit_at(s, at),
            2 * (first + code[len].len()),
        )
    }
}

/// The next symbol, and where it ends.
pub open spec fn symbol_at(s: Seq<u8>, at: int, code: Seq<Seq<u16>>) -> Result<(u16, int), Stop> {
    symbol_from(s, at, code, 0, 0, 0)
}

fn read_symbol(data: &[u8], at: u128, code: &Vec<Vec<u16>>) -> (r: Result<(u16, u128), Stop>)
    requires
        at <= 8 * data.len(),
        code.len() == 16,
    ensures
        told(r) == symbol_at(data@, at as int, views(code@)),
        went_on(r, at, data@.len()),
{
    let end: u128 = 8 * data.len() as u128;
    let ghost lists = views(code@);
    let mut next: u128 = at;
    let mut len: usize = 0;
    let mut value: u128 = 0;
    let mut first: u128 = 0;
    proof {
        lemma2_to64();
    }
    while len < 16 && first < 65_536
        invariant
            at <= next <= end == 8 * data.len(),
            len <= 16 == code.len(),
            lists == views(code@),
            value < pow2(len as nat),
            symbol_at(data@, at as int, lists) == symbol_from(
                data@,
                next as int,
                lists,
                len as int,
                value as int,
                first as int,
            ),
        decreases 16 - len,
    {
        let list = &code[len];
        assert(list@ == lists[len as int]);
        if value >= first && value - first < list.len() as u128 {
            return Ok((list[(value - first) as usize], next));
        }
        if next >= end {
            return Err(Stop::Unreadable);
        }
        proof {
            lemma2_to64();
            lemma_pow2_unfold((len + 1) as nat);
            if len < 16 {
                lemma_pow2_strictly_increases(len as nat, 16);
            }
        }
        value = 2 * value + bit(data, next) as u128;
        first = 2 * (first + list.len() as u128);
        next += 1;
        len += 1;
    }
    Err(Stop::Unreadable)
}

/// A list for each length, with nothing in it.
pub open spec fn no_lists() -> Seq<Seq<u16>> {
    Seq::new(16, |i: int| Seq::<u16>::empty())
}

/// The symbols whose length is told, by that length.
pub open spec fn listed(lengths: Seq<u16>) -> Seq<Seq<u16>>
    decreases lengths.len(),
{
    if lengths.len() == 0 {
        no_lists()
    } else {
        let before = listed(lengths.drop_last());
        let len = lengths.last() as int;
        if 1 <= len <= 15 {
            before.update(len, before[len].push((lengths.len() - 1) as u16))
        } else {
            before
        }
    }
}

/// The symbols that occur.
pub open spec fn used(lengths: Seq<u16>) -> Seq<u16>
    decreases lengths.len(),
{
    if lengths.len() == 0 {
        Seq::empty()
    } else if lengths.last() == 0 {
        used(lengths.drop_last())
    } else {
        used(lengths.drop_last()).push((lengths.len() - 1) as u16)
    }
}

/// A code of one symbol, for which no bits stand.
pub open spec fn single(symbol: u16) -> Seq<Seq<u16>> {
    no_lists().update(0, seq![symbol])
}

/// A code of two symbols, one bit each.
pub open spec fn pair(zero: u16, one: u16) -> Seq<Seq<u16>> {
    no_lists().update(1, seq![zero, one])
}

/// How much of the room for words of this length the words up to it take.
pub open spec fn room(code: Seq<Seq<u16>>, len: int) -> int
    decreases len,
{
    if len <= 0 {
        0
    } else {
        2 * room(code, len - 1) + code[len].len()
    }
}

proof fn lemma_room_grows(code: Seq<Seq<u16>>, a: int, b: int)
    requires
        0 <= a <= b,
    ensures
        0 <= room(code, a) <= room(code, b),
    decreases b,
{
    if a < b {
        lemma_room_grows(code, a, b - 1);
    } else if a > 0 {
        lemma_room_grows(code, a - 1, a - 1);
    }
}

/// The code that the lengths of its words give. They have to take all the room
/// that there is, and no more, unless there is but one.
pub open spec fn code_of(lengths: Seq<u16>) -> Result<Seq<Seq<u16>>, Stop> {
    let code = listed(lengths);
    if used(lengths).len() == 0 {
        Err(Stop::Unreadable)
    } else if used(lengths).len() == 1 {
        Ok(single(used(lengths)[0]))
    } else if room(code, 15) > 32_768 {
        Err(Stop::Overfull)
    } else if room(code, 15) < 32_768 {
        Err(Stop::Unreadable)
    } else {
        Ok(code)
    }
}

fn empty_lists() -> (r: Vec<Vec<u16>>)
    ensures
        views(r@) == no_lists(),
{
    let mut r: Vec<Vec<u16>> = Vec::new();
    while r.len() < 16
        invariant
            r.len() <= 16,
            views(r@) == no_lists().take(r.len() as int),
        decreases 16 - r.len(),
    {
        r.push(Vec::new());
        assert(views(r@) =~= no_lists().take(r.len() as int));
    }
    assert(views(r@) =~= no_lists());
    r
}

fn single_code(symbol: u16) -> (r: Vec<Vec<u16>>)
    ensures
        views(r@) == single(symbol),
        r.len() == 16,
{
    let mut r = empty_lists();
    let mut list: Vec<u16> = Vec::new();
    list.push(symbol);
    assert(list@ =~= seq![symbol]);
    assert(views(r@).len() == r.len());
    r.set(0, list);
    r
}

fn pair_code(zero: u16, one: u16) -> (r: Vec<Vec<u16>>)
    ensures
        views(r@) == pair(zero, one),
        r.len() == 16,
{
    let mut r = empty_lists();
    let mut list: Vec<u16> = Vec::new();
    list.push(zero);
    list.push(one);
    assert(list@ =~= seq![zero, one]);
    assert(views(r@).len() == r.len());
    r.set(1, list);
    r
}

/// What `build` tells, as a plain value.
pub open spec fn told_code(r: Result<Vec<Vec<u16>>, Stop>) -> Result<Seq<Seq<u16>>, Stop> {
    match r {
        Ok(code) => Ok(views(code@)),
        Err(stop) => Err(stop),
    }
}

fn build(lengths: &Vec<u16>) -> (r: Result<Vec<Vec<u16>>, Stop>)
    requires
        lengths.len() <= 65_536,
        forall|i: int| 0 <= i < lengths.len() ==> lengths@[i] <= 15,
    ensures
        told_code(r) == code_of(lengths@),
        r matches Ok(code) ==> code.len() == 16,
{
    let mut code = empty_lists();
    let mut n: usize = 0;
    let mut only: u16 = 0;
    let mut i: usize = 0;
    assert(views(code@).len() == 16);
    assert(lengths@.take(0) =~= Seq::<u16>::empty());
    while i < lengths.len()
        invariant
            i <= lengths.len() <= 65_536,
            forall|j: int| 0 <= j < lengths.len() ==> lengths@[j] <= 15,
            code.len() == 16,
            n <= i,
            views(code@) == listed(lengths@.take(i as int)),
            n == used(lengths@.take(i as int)).len(),
            n == 1 ==> only == used(lengths@.take(i as int))[0],
        decreases lengths.len() - i,
    {
        let len: u16 = lengths[i];
        let ghost upto = lengths@.take(i + 1);
        proof {
            assert(upto.drop_last() =~= lengths@.take(i as int));
            assert(upto.last() == len);
        }
        if len != 0 {
            let ghost before = views(code@);
            let mut list = code[len as usize].clone();
            list.push(i as u16);
            code.set(len as usize, list);
            assert(views(code@) =~= before.update(len as int, before[len as int].push(i as u16)));
            if n == 0 {
                only = i as u16;
            }
            n += 1;
        }
        i += 1;
    }
    assert(lengths@.take(i as int) =~= lengths@);
    if n == 0 {
        return Err(Stop::Unreadable);
    }
    if n == 1 {
        return Ok(single_code(only));
    }
    let ghost lists = views(code@);
    let mut total: u128 = 0;
    let mut len: usize = 1;
    while len < 16
        invariant
            1 <= len <= 16 == code.len(),
            lists == views(code@),
            lists == listed(lengths@),
            used(lengths@).len() > 1,
            total == room(lists, len - 1),
            total <= 32_768,
        decreases 16 - len,
    {
        assert(lists[len as int] == code@[len as int]@);
        total = 2 * total + code[len].len() as u128;
        if total > 32_768 {
            proof {
                lemma_room_grows(lists, len as int, 15);
            }
            return Err(Stop::Overfull);
        }
        len += 1;
    }
    if total < 32_768 {
        Err(Stop::Unreadable)
    } else {
        Ok(code)
    }
}

/// A symbol that stands for a run of lengths: how many bits tell how much longer
/// than the shortest it is, and how long the shortest is.
pub open spec fn run_of(symbol: u16) -> (nat, int) {
    if symbol == 16 {
        (2, 3)
    } else if symbol == 17 {
        (3, 3)
    } else {
        (7, 11)
    }
}

/// The lengths of the words of a code, after those in `lengths`. `before` is the
/// last one that was not zero, `left` how many symbols there may still be.
pub open spec fn lengths_from(
    s: Seq<u8>,
    at: int,
    code: Seq<Seq<u16>>,
    size: int,
    lengths: Seq<u16>,
    before: u16,
    left: int,
) -> Result<(Seq<u16>, int), Stop>
    decreases left,
{
    if lengths.len() >= size || left <= 0 {
        Ok((lengths, at))
    } else {
        match symbol_at(s, at, code) {
            Err(stop) => Err(stop),
            Ok((symbol, next)) => if symbol < 16 {
                lengths_from(
                    s,
                    next,
                    code,
                    size,
                    lengths.push(symbol),
                    if symbol == 0 {
                        before
                    } else {
                        symbol
                    },
                    left - 1,
                )
            } else if symbol > 18 {
                Err(Stop::Unreadable)
            } else {
                match taken(s, next, run_of(symbol).0) {
                    Err(stop) => Err(stop),
                    Ok((more, after)) => {
                        let run = run_of(symbol).1 + more;
                        if lengths.len() + run > size {
                            Err(Stop::Unreadable)
                        } else {
                            lengths_from(
                                s,
                                after,
                                code,
                                size,
                                lengths + Seq::new(
                                    run as nat,
                                    |i: int|
                                        if symbol == 16 {
                                            before
                                        } else {
                                            0u16
                                        },
                                ),
                                before,
                                left - 1,
                            )
                        }
                    },
                }
            },
        }
    }
}

/// What a walk tells of lengths, as a plain value.
pub open spec fn told_lengths(r: Result<(Vec<u16>, u128), Stop>) -> Result<(Seq<u16>, int), Stop> {
    match r {
        Ok((lengths, next)) => Ok((lengths@, next as int)),
        Err(stop) => Err(stop),
    }
}

fn read_lengths(data: &[u8], at: u128, code: &Vec<Vec<u16>>, size: u32, most: u32) -> (r: Result<
    (Vec<u16>, u128),
    Stop,
>)
    requires
        at <= 8 * data.len(),
        code.len() == 16,
        size <= 65_536,
    ensures
        told_lengths(r) == lengths_from(
            data@,
            at as int,
            views(code@),
            size as int,
            Seq::empty(),
            8,
            most as int,
        ),
        went_on(r, at, data@.len()),
        r matches Ok((lengths, _)) ==> lengths.len() <= size && forall|i: int|
            0 <= i < lengths.len() ==> lengths@[i] <= 15,
{
    let ghost lists = views(code@);
    let mut lengths: Vec<u16> = Vec::new();
    let mut before: u16 = 8;
    let mut left: u32 = most;
    let mut next: u128 = at;
    while lengths.len() < size as usize && left > 0
        invariant
            at <= next <= 8 * data.len(),
            code.len() == 16,
            lists == views(code@),
            size <= 65_536,
            lengths.len() <= size,
            before <= 15,
            forall|i: int| 0 <= i < lengths.len() ==> lengths@[i] <= 15,
            lengths_from(data@, at as int, lists, size as int, Seq::empty(), 8, most as int)
                == lengths_from(
                data@,
                next as int,
                lists,
                size as int,
                lengths@,
                before,
                left as int,
            ),
        decreases left,
    {
        match read_symbol(data, next, code) {
            Err(stop) => {
                return Err(stop);
            },
            Ok((symbol, after)) => {
                next = after;
                if symbol < 16 {
                    lengths.push(symbol);
                    if symbol != 0 {
                        before = symbol;
                    }
                } else if symbol > 18 {
                    return Err(Stop::Unreadable);
                } else {
                    let (n, shortest): (u32, u32) = if symbol == 16 {
                        (2, 3)
                    } else if symbol == 17 {
                        (3, 3)
                    } else {
                        (7, 11)
                    };
                    match take(data, next, n) {
                        Err(stop) => {
                            return Err(stop);
                        },
                        Ok((more, after)) => {
                            let run: u32 = shortest + more;
                            if lengths.len() as u64 + run as u64 > size as u64 {
                                return Err(Stop::Unreadable);
                            }
                            let value: u16 = if symbol == 16 {
                                before
                            } else {
                                0
                            };
                            let ghost start = lengths@;
                            let mut i: u32 = 0;
                            while i < run
                                invariant
                                    i <= run,
                                    value <= 15,
                                    start.len() + run <= size <= 65_536,
                                    lengths@ == start + Seq::new(i as nat, |j: int| value),
                                    forall|j: int|
                                        0 <= j < lengths.len() ==> lengths@[j] <= 15,
                                decreases run - i,
                            {
                                lengths.push(value);
                                i += 1;
                                assert(lengths@ =~= start + Seq::new(i as nat, |j: int| value));
                            }
                            assert(lengths@ =~= start + Seq::new(
                                run as nat,
                                |j: int|
                                    if symbol == 16 {
                                        before
                                    } else {
                                        0u16
                                    },
                            ));
                            next = after;
                        },
                    }
                }
                left -= 1;
            },
        }
    }
    Ok((lengths, next))
}

/// Where among the lengths of the words for lengths that of `symbol` stands.
pub open spec fn place(symbol: int) -> int {
    if symbol == 17 {
        0
    } else if symbol == 18 {
        1
    } else if symbol <= 5 {
        symbol + 2
    } else if symbol == 16 {
        8
    } else {
        symbol + 3
    }
}

/// The lengths of the words for lengths, of which `n` are told.
pub open spec fn word_lengths(s: Seq<u8>, at: int, n: int) -> Seq<u16> {
    Seq::new(
        19,
        |k: int|
            if place(k) < n {
                bits_at(s, at + 3 * place(k), 3) as u16
            } else {
                0u16
            },
    )
}

/// How many symbols a code of `size` symbols tells lengths for.
pub open spec fn told_symbols(s: Seq<u8>, at: int, size: int) -> Result<(int, int), Stop> {
    match taken(s, at, 1) {
        Err(stop) => Err(stop),
        Ok((limited, next)) => if limited == 0 {
            Ok((size, next))
        } else {
            match taken(s, next, 3) {
                Err(stop) => Err(stop),
                Ok((n, next)) => match taken(s, next, (2 + 2 * n) as nat) {
                    Err(stop) => Err(stop),
                    Ok((more, next)) => if more > size - 2 {
                        Err(Stop::Unreadable)
                    } else {
                        Ok((2 + more, next))
                    },
                },
            }
        },
    }
}

/// A code that tells its one or two symbols.
pub open spec fn short_code_at(s: Seq<u8>, at: int, size: int) -> Result<(Seq<Seq<u16>>, int), Stop> {
    match taken(s, at, 2) {
        Err(stop) => Err(stop),
        Ok((flags, next)) => match taken(
            s,
            next,
            if flags >= 2 {
                8
            } else {
                1
            },
        ) {
            Err(stop) => Err(stop),
            Ok((zero, next)) => if zero >= size {
                Err(Stop::Unreadable)
            } else if flags % 2 == 0 {
                Ok((single(zero as u16), next))
            } else {
                match taken(s, next, 8) {
                    Err(stop) => Err(stop),
                    Ok((one, next)) => if one >= size {
                        Err(Stop::Unreadable)
                    } else {
                        Ok((pair(zero as u16, one as u16), next))
                    },
                }
            },
        },
    }
}

/// A code that tells the lengths of its words, themselves in a code.
pub open spec fn long_code_at(s: Seq<u8>, at: int, size: int) -> Result<(Seq<Seq<u16>>, int), Stop> {
    match taken(s, at, 4) {
        Err(stop) => Err(stop),
        Ok((more, next)) => if next + 3 * (4 + more) > 8 * s.len() {
            Err(Stop::Unreadable)
        } else {
            match code_of(word_lengths(s, next, 4 + more)) {
                Err(stop) => Err(stop),
                Ok(words) => match told_symbols(s, next + 3 * (4 + more), size) {
                    Err(stop) => Err(stop),
                    Ok((most, next)) => match lengths_from(
                        s,
                        next,
                        words,
                        size,
                        Seq::empty(),
                        8,
                        most,
                    ) {
                        Err(stop) => Err(stop),
                        Ok((lengths, next)) => match code_of(lengths) {
                            Err(stop) => Err(stop),
                            Ok(code) => Ok((code, next)),
                        },
                    },
                },
            }
        },
    }
}

/// The next code, one of `size` symbols, and where it ends.
pub open spec fn code_at(s: Seq<u8>, at: int, size: int) -> Result<(Seq<Seq<u16>>, int), Stop> {
    match taken(s, at, 1) {
        Err(stop) => Err(stop),
        Ok((short, next)) => if short == 1 {
            short_code_at(s, next, size)
        } else {
            long_code_at(s, next, size)
        },
    }
}

/// What a walk tells of a code, as a plain value.
pub open spec fn told_code_at(r: Result<(Vec<Vec<u16>>, u128), Stop>) -> Result<
    (Seq<Seq<u16>>, int),
    Stop,
> {
    match r {
        Ok((code, next)) => Ok((views(code@), next as int)),
        Err(stop) => Err(stop),
    }
}

fn read_told_symbols(data: &[u8], at: u128, size: u32) -> (r: Result<(u32, u128), Stop>)
    requires
        at <= 8 * data.len(),
        2 <= size <= 65_536,
    ensures
        told_number(r) == told_symbols(data@, at as int, size as int),
        went_on(r, at, data@.len()),
{
    proof {
        lemma2_to64();
    }
    match take(data, at, 1) {
        Err(stop) => Err(stop),
        Ok((limited, next)) => if limited == 0 {
            Ok((size, next))
        } else {
            match take(data, next, 3) {
                Err(stop) => Err(stop),
                Ok((n, next)) => match take(data, next, 2 + 2 * n) {
                    Err(stop) => Err(stop),
                    Ok((more, next)) => if more > size - 2 {
                        Err(Stop::Unreadable)
                    } else {
                        Ok((2 + more, next))
                    },
                },
            }
        },
    }
}

fn read_short_code(data: &[u8], at: u128, size: u32) -> (r: Result<(Vec<Vec<u16>>, u128), Stop>)
    requires
        at <= 8 * data.len(),
    ensures
        told_code_at(r) == short_code_at(data@, at as int, size as int),
        went_on(r, at, data@.len()),
        r matches Ok((code, _)) ==> code.len() == 16,
{
    proof {
        lemma2_to64();
    }
    match take(data, at, 2) {
        Err(stop) => Err(stop),
        Ok((flags, next)) => match take(
            data,
            next,
            if flags >= 2 {
                8
            } else {
                1
            },
        ) {
            Err(stop) => Err(stop),
            Ok((zero, next)) => if zero >= size {
                Err(Stop::Unreadable)
            } else if flags % 2 == 0 {
                Ok((single_code(zero as u16), next))
            } else {
                match take(data, next, 8) {
                    Err(stop) => Err(stop),
                    Ok((one, next)) => if one >= size {
                        Err(Stop::Unreadable)
                    } else {
                        Ok((pair_code(zero as u16, one as u16), next))
                    },
                }
            },
        },
    }
}

fn read_word_lengths(data: &[u8], at: u128, n: u32) -> (r: Vec<u16>)
    requires
        at + 3 * n <= 8 * data.len(),
        n <= 19,
    ensures
        r@ == word_lengths(data@, at as int, n as int),
        forall|i: int| 0 <= i < r.len() ==> r@[i] <= 15,
{
    let mut r: Vec<u16> = Vec::new();
    let mut k: u32 = 0;
    proof {
        lemma2_to64();
    }
    while k < 19
        invariant
            k <= 19,
            n <= 19,
            pow2(3) == 8,
            at + 3 * n <= 8 * data.len(),
            r@ == word_lengths(data@, at as int, n as int).take(k as int),
            forall|i: int| 0 <= i < r.len() ==> r@[i] <= 15,
        decreases 19 - k,
    {
        let place: u32 = if k == 17 {
            0
        } else if k == 18 {
            1
        } else if k <= 5 {
            k + 2
        } else if k == 16 {
            8
        } else {
            k + 3
        };
        let len: u16 = if place < n {
            match take(data, at + 3 * place as u128, 3) {
                Ok((len, _)) => len as u16,
                Err(_) => 0,
            }
        } else {
            0
        };
        r.push(len);
        k += 1;
        assert(r@ =~= word_lengths(data@, at as int, n as int).take(k as int));
    }
    assert(r@ =~= word_lengths(data@, at as int, n as int));
    r
}

fn read_long_code(data: &[u8], at: u128, size: u32) -> (r: Result<(Vec<Vec<u16>>, u128), Stop>)
    requires
        at <= 8 * data.len(),
        2 <= size <= 65_536,
    ensures
        told_code_at(r) == long_code_at(data@, at as int, size as int),
        went_on(r, at, data@.len()),
        r matches Ok((code, _)) ==> code.len() == 16,
{
    proof {
        lemma2_to64();
    }
    match take(data, at, 4) {
        Err(stop) => Err(stop),
        Ok((more, next)) => {
            let n: u32 = 4 + more;
            if next + 3 * n as u128 > 8 * data.len() as u128 {
                return Err(Stop::Unreadable);
            }
            let lengths = read_word_lengths(data, next, n);
            match build(&lengths) {
                Err(stop) => Err(stop),
                Ok(words) => match read_told_symbols(data, next + 3 * n as u128, size) {
                    Err(stop) => Err(stop),
                    Ok((most, next)) => match read_lengths(data, next, &words, size, most) {
                        Err(stop) => Err(stop),
                        Ok((lengths, next)) => match build(&lengths) {
                            Err(stop) => Err(stop),
                            Ok(code) => Ok((code, next)),
                        },
                    },
                },
            }
        },
    }
}

fn read_code(data: &[u8], at: u128, size: u32) -> (r: Result<(Vec<Vec<u16>>, u128), Stop>)
    requires
        at <= 8 * data.len(),
        2 <= size <= 65_536,
    ensures
        told_code_at(r) == code_at(data@, at as int, size as int),
        went_on(r, at, data@.len()),
        r matches Ok((code, _)) ==> code.len() == 16,
{
    match take(data, at, 1) {
        Err(stop) => Err(stop),
        Ok((short, next)) => if short == 1 {
            read_short_code(data, next, size)
        } else {
            read_long_code(data, next, size)
        },
    }
}

/// How many symbols a code of the points has: the first for green, for copies
/// and for the `cache` colors that are kept at hand, then red, blue and the
/// opacity, then how far a copy goes back.
pub open spec fn code_size(i: int, cache: int) -> int {
    if i == 0 {
        280 + cache
    } else if i < 4 {
        256
    } else {
        40
    }
}

/// The codes of the points, after those in `codes`.
pub open spec fn codes_from(s: Seq<u8>, at: int, cache: int, codes: Seq<Seq<Seq<u16>>>) -> Result<
    (Seq<Seq<Seq<u16>>>, int),
    Stop,
>
    decreases 5 - codes.len(),
{
    if codes.len() >= 5 {
        Ok((codes, at))
    } else {
        match code_at(s, at, code_size(codes.len() as int, cache)) {
            Err(stop) => Err(stop),
            Ok((code, next)) => codes_from(s, next, cache, codes.push(code)),
        }
    }
}

/// The views of codes, each with its lists.
pub open spec fn codes_view(codes: Seq<Vec<Vec<u16>>>) -> Seq<Seq<Seq<u16>>> {
    Seq::new(codes.len(), |i: int| views(codes[i]@))
}

pub open spec fn told_codes(r: Result<(Vec<Vec<Vec<u16>>>, u128), Stop>) -> Result<
    (Seq<Seq<Seq<u16>>>, int),
    Stop,
> {
    match r {
        Ok((codes, next)) => Ok((codes_view(codes@), next as int)),
        Err(stop) => Err(stop),
    }
}

/// Whether there is a code for each part of a point.
pub open spec fn has_all_codes(codes: Seq<Vec<Vec<u16>>>) -> bool {
    codes.len() == 5 && forall|i: int| 0 <= i < 5 ==> (#[trigger] codes[i]).len() == 16
}

fn read_codes(data: &[u8], at: u128, cache: u32) -> (r: Result<(Vec<Vec<Vec<u16>>>, u128), Stop>)
    requires
        at <= 8 * data.len(),
        cache <= 2048,
    ensures
        told_codes(r) == codes_from(data@, at as int, cache as int, Seq::empty()),
        went_on(r, at, data@.len()),
        r matches Ok((codes, _)) ==> has_all_codes(codes@),
{
    let mut codes: Vec<Vec<Vec<u16>>> = Vec::new();
    let mut next: u128 = at;
    assert(codes_view(codes@) =~= Seq::empty());
    while codes.len() < 5
        invariant
            at <= next <= 8 * data.len(),
            cache <= 2048,
            codes.len() <= 5,
            forall|i: int| 0 <= i < codes.len() ==> (#[trigger] codes@[i]).len() == 16,
            codes_from(data@, at as int, cache as int, Seq::empty()) == codes_from(
                data@,
                next as int,
                cache as int,
                codes_view(codes@),
            ),
        decreases 5 - codes.len(),
    {
        let size: u32 = if codes.len() == 0 {
            280 + cache
        } else if codes.len() < 4 {
            256
        } else {
            40
        };
        match read_code(data, next, size) {
            Err(stop) => {
                return Err(stop);
            },
            Ok((code, after)) => {
                let ghost before = codes@;
                codes.push(code);
                next = after;
                assert(codes_view(codes@) =~= codes_view(before).push(views(code@)));
            },
        }
    }
    Ok((codes, next))
}

/// How much a symbol for a length or a distance stands for: the bits behind it
/// tell the rest.
pub open spec fn extent_at(s: Seq<u8>, at: int, symbol: int) -> Result<(int, int), Stop> {
    if symbol < 4 {
        Ok((symbol + 1, at))
    } else if symbol >= 40 {
        Err(Stop::Unreadable)
    } else {
        let n = ((symbol - 2) / 2) as nat;
        match taken(s, at, n) {
            Err(stop) => Err(stop),
            Ok((more, next)) => Ok(((2 + symbol % 2) * pow2(n) + more + 1, next)),
        }
    }
}

fn power(n: u32) -> (r: u32)
    requires
        n <= 20,
    ensures
        r == pow2(n as nat),
        1 <= r <= 1_048_576,
{
    let mut r: u32 = 1;
    let mut i: u32 = 0;
    proof {
        lemma2_to64();
    }
    while i < n
        invariant
            i <= n <= 20,
            r == pow2(i as nat),
            1 <= r <= pow2(20),
            pow2(20) == 1_048_576,
        decreases n - i,
    {
        proof {
            lemma_pow2_unfold((i + 1) as nat);
            if i + 1 < 20 {
                lemma_pow2_strictly_increases((i + 1) as nat, 20);
            }
        }
        r = 2 * r;
        i += 1;
    }
    r
}

fn read_extent(data: &[u8], at: u128, symbol: u32) -> (r: Result<(u32, u128), Stop>)
    requires
        at <= 8 * data.len(),
        symbol < 65_536,
    ensures
        told_number(r) == extent_at(data@, at as int, symbol as int),
        went_on(r, at, data@.len()),
        r matches Ok((value, _)) ==> value >= 1,
{
    if symbol < 4 {
        return Ok((symbol + 1, at));
    }
    if symbol >= 40 {
        return Err(Stop::Unreadable);
    }
    let n: u32 = (symbol - 2) / 2;
    match take(data, at, n) {
        Err(stop) => Err(stop),
        Ok((more, next)) => {
            let unit: u32 = power(n);
            let base: u32 = if symbol % 2 == 0 {
                2 * unit
            } else {
                3 * unit
            };
            Ok((base + more + 1, next))
        },
    }
}

/// The next points: how many they are, and, for a point that is told by itself,
/// the number that its red and green make.
pub open spec fn points_at(s: Seq<u8>, at: int, codes: Seq<Seq<Seq<u16>>>) -> Result<
    ((int, int), int),
    Stop,
> {
    match symbol_at(s, at, codes[0]) {
        Err(stop) => Err(stop),
        Ok((green, next)) => if green < 256 {
            match symbol_at(s, next, codes[1]) {
                Err(stop) => Err(stop),
                Ok((red, next)) => match symbol_at(s, next, codes[2]) {
                    Err(stop) => Err(stop),
                    Ok((_, next)) => match symbol_at(s, next, codes[3]) {
                        Err(stop) => Err(stop),
                        Ok((_, next)) => Ok(((1, 256 * red + green), next)),
                    },
                },
            }
        } else if green < 280 {
            match extent_at(s, next, green - 256) {
                Err(stop) => Err(stop),
                Ok((length, next)) => match symbol_at(s, next, codes[4]) {
                    Err(stop) => Err(stop),
                    Ok((back, next)) => match extent_at(s, next, back as int) {
                        Err(stop) => Err(stop),
                        Ok((_, next)) => Ok(((length, 0), next)),
                    },
                },
            }
        } else {
            Ok(((1, 0), next))
        },
    }
}

pub open spec fn told_points(r: Result<((u32, u32), u128), Stop>) -> Result<((int, int), int), Stop> {
    match r {
        Ok(((n, number), next)) => Ok(((n as int, number as int), next as int)),
        Err(stop) => Err(stop),
    }
}

fn read_points(data: &[u8], at: u128, codes: &Vec<Vec<Vec<u16>>>) -> (r: Result<
    ((u32, u32), u128),
    Stop,
>)
    requires
        at <= 8 * data.len(),
        has_all_codes(codes@),
    ensures
        told_points(r) == points_at(data@, at as int, codes_view(codes@)),
        went_on(r, at, data@.len()),
        r matches Ok(((n, _), _)) ==> n >= 1,
{
    match read_symbol(data, at, &codes[0]) {
        Err(stop) => Err(stop),
        Ok((green, next)) => if green < 256 {
            match read_symbol(data, next, &codes[1]) {
                Err(stop) => Err(stop),
                Ok((red, next)) => match read_symbol(data, next, &codes[2]) {
                    Err(stop) => Err(stop),
                    Ok((_, next)) => match read_symbol(data, next, &codes[3]) {
                        Err(stop) => Err(stop),
                        Ok((_, next)) => Ok(((1, 256 * red as u32 + green as u32), next)),
                    },
                },
            }
        } else if green < 280 {
            match read_extent(data, next, green as u32 - 256) {
                Err(stop) => Err(stop),
                Ok((length, next)) => match read_symbol(data, next, &codes[4]) {
                    Err(stop) => Err(stop),
                    Ok((back, next)) => match read_extent(data, next, back as u32) {
                        Err(stop) => Err(stop),
                        Ok((_, next)) => Ok(((length, 0), next)),
                    },
                },
            }
        } else {
            Ok(((1, 0), next))
        },
    }
}

/// Walks over `left` points; tells the greatest number that a point makes, or
/// `most` where that is greater.
pub open spec fn points_from(
    s: Seq<u8>,
    at: int,
    codes: Seq<Seq<Seq<u16>>>,
    left: int,
    most: int,
) -> Result<(int, int), Stop>
    decreases left,
{
    if left <= 0 {
        Ok((most, at))
    } else {
        match points_at(s, at, codes) {
            Err(stop) => Err(stop),
            Ok(((n, number), next)) => if n > left || n < 1 {
                Err(Stop::Unreadable)
            } else {
                points_from(
                    s,
                    next,
                    codes,
                    left - n,
                    if number > most {
                        number
                    } else {
                        most
                    },
                )
            },
        }
    }
}

fn walk_points(data: &[u8], at: u128, codes: &Vec<Vec<Vec<u16>>>, n: u64) -> (r: Result<
    (u32, u128),
    Stop,
>)
    requires
        at <= 8 * data.len(),
        has_all_codes(codes@),
    ensures
        told_number(r) == points_from(data@, at as int, codes_view(codes@), n as int, 0),
        went_on(r, at, data@.len()),
{
    let mut next: u128 = at;
    let mut left: u64 = n;
    let mut most: u32 = 0;
    while left > 0
        invariant
            at <= next <= 8 * data.len(),
            has_all_codes(codes@),
            points_from(data@, at as int, codes_view(codes@), n as int, 0) == points_from(
                data@,
                next as int,
                codes_view(codes@),
                left as int,
                most as int,
            ),
        decreases left,
    {
        match read_points(data, next, codes) {
            Err(stop) => {
                return Err(stop);
            },
            Ok(((n, number), after)) => {
                if n as u64 > left {
                    return Err(Stop::Unreadable);
                }
                left -= n as u64;
                if number > most {
                    most = number;
                }
                next = after;
            },
        }
    }
    Ok((most, next))
}

/// How many colors are kept at hand.
pub open spec fn cache_at(s: Seq<u8>, at: int) -> Result<(int, int), Stop> {
    match taken(s, at, 1) {
        Err(stop) => Err(stop),
        Ok((kept, next)) => if kept == 0 {
            Ok((0, next))
        } else {
            match taken(s, next, 4) {
                Err(stop) => Err(stop),
                Ok((n, next)) => if 1 <= n <= 11 {
                    Ok((pow2(n as nat) as int, next))
                } else {
                    Err(Stop::Unreadable)
                },
            }
        },
    }
}

fn read_cache(data: &[u8], at: u128) -> (r: Result<(u32, u128), Stop>)
    requires
        at <= 8 * data.len(),
    ensures
        told_number(r) == cache_at(data@, at as int),
        went_on(r, at, data@.len()),
        r matches Ok((size, _)) ==> size <= 2048,
{
    match take(data, at, 1) {
        Err(stop) => Err(stop),
        Ok((kept, next)) => if kept == 0 {
            Ok((0, next))
        } else {
            match take(data, next, 4) {
                Err(stop) => Err(stop),
                Ok((n, next)) => if 1 <= n && n <= 11 {
                    proof {
                        lemma2_to64();
                        if n < 11 {
                            lemma_pow2_strictly_increases(n as nat, 11);
                        }
                    }
                    Ok((power(n), next))
                } else {
                    Err(Stop::Unreadable)
                },
            }
        },
    }
}

/// Walks over a small picture of `n` points; tells the greatest number that a
/// point makes.
pub open spec fn part_at(s: Seq<u8>, at: int, n: int) -> Result<(int, int), Stop> {
    match cache_at(s, at) {
        Err(stop) => Err(stop),
        Ok((cache, next)) => match codes_from(s, next, cache, Seq::empty()) {
            Err(stop) => Err(stop),
            Ok((codes, next)) => points_from(s, next, codes, n, 0),
        },
    }
}

fn walk_part(data: &[u8], at: u128, n: u64) -> (r: Result<(u32, u128), Stop>)
    requires
        at <= 8 * data.len(),
    ensures
        told_number(r) == part_at(data@, at as int, n as int),
        went_on(r, at, data@.len()),
{
    match read_cache(data, at) {
        Err(stop) => Err(stop),
        Ok((cache, next)) => match read_codes(data, next, cache) {
            Err(stop) => Err(stop),
            Ok((codes, next)) => walk_points(data, next, &codes, n),
        },
    }
}

/// How many blocks of `size` cover `n`.
pub open spec fn blocks(n: int, size: int) -> int {
    (n + size - 1) / size
}

/// Walks over a small picture with a point for each block of a greater one,
/// after the size of a block.
pub open spec fn blocks_at(s: Seq<u8>, at: int, width: int, height: int) -> Result<
    (int, int),
    Stop,
> {
    match taken(s, at, 3) {
        Err(stop) => Err(stop),
        Ok((n, next)) => {
            let size = pow2((n + 2) as nat) as int;
            part_at(s, next, blocks(width, size) * blocks(height, size))
        },
    }
}

fn block_count(n: u32, size: u32) -> (r: u32)
    requires
        n <= 65_536,
        1 <= size <= 1_048_576,
    ensures
        r == blocks(n as int, size as int),
        r <= 65_536,
{
    proof {
        assert((n + size - 1) / (size as int) <= n) by (nonlinear_arith)
            requires
                size >= 1,
                n >= 0,
        ;
    }
    (n + size - 1) / size
}

fn walk_blocks(data: &[u8], at: u128, width: u32, height: u32) -> (r: Result<(u32, u128), Stop>)
    requires
        at <= 8 * data.len(),
        width <= 65_536,
        height <= 65_536,
    ensures
        told_number(r) == blocks_at(data@, at as int, width as int, height as int),
        went_on(r, at, data@.len()),
{
    proof {
        lemma2_to64();
    }
    match take(data, at, 3) {
        Err(stop) => Err(stop),
        Ok((n, next)) => {
            let size: u32 = power(n + 2);
            let across: u64 = block_count(width, size) as u64;
            let down: u64 = block_count(height, size) as u64;
            proof {
                assert(0 <= across * down <= 65_536 * 65_536) by (nonlinear_arith)
                    requires
                        0 <= across <= 65_536,
                        0 <= down <= 65_536,
                ;
            }
            walk_part(data, next, across * down)
        },
    }
}

/// Walks over `n` groups of codes.
pub open spec fn groups_from(s: Seq<u8>, at: int, cache: int, n: int) -> Result<int, Stop>
    decreases n,
{
    if n <= 0 {
        Ok(at)
    } else {
        match codes_from(s, at, cache, Seq::empty()) {
            Err(stop) => Err(stop),
            Ok((_, next)) => groups_from(s, next, cache, n - 1),
        }
    }
}

pub open spec fn told_end(r: Result<u128, Stop>) -> Result<int, Stop> {
    match r {
        Ok(next) => Ok(next as int),
        Err(stop) => Err(stop),
    }
}

fn walk_groups(data: &[u8], at: u128, cache: u32, n: u64) -> (r: Result<u128, Stop>)
    requires
        at <= 8 * data.len(),
        cache <= 2048,
    ensures
        told_end(r) == groups_from(data@, at as int, cache as int, n as int),
{
    let mut next: u128 = at;
    let mut left: u64 = n;
    while left > 0
        invariant
            at <= next <= 8 * data.len(),
            cache <= 2048,
            groups_from(data@, at as int, cache as int, n as int) == groups_from(
                data@,
                next as int,
                cache as int,
                left as int,
            ),
        decreases left,
    {
        match read_codes(data, next, cache) {
            Err(stop) => {
                return Err(stop);
            },
            Ok((_, after)) => {
                next = after;
                left -= 1;
            },
        }
    }
    Ok(next)
}

/// Walks up to the points of a picture. There is a group of codes for each
/// number in the small picture that tells which block is written in which.
pub open spec fn picture_at(s: Seq<u8>, at: int, width: int, height: int) -> Result<int, Stop> {
    match cache_at(s, at) {
        Err(stop) => Err(stop),
        Ok((cache, next)) => match taken(s, next, 1) {
            Err(stop) => Err(stop),
            Ok((grouped, next)) => if grouped == 0 {
                groups_from(s, next, cache, 1)
            } else {
                match blocks_at(s, next, width, height) {
                    Err(stop) => Err(stop),
                    Ok((most, next)) => groups_from(s, next, cache, most + 1),
                }
            },
        },
    }
}

fn walk_picture(data: &[u8], at: u128, width: u32, height: u32) -> (r: Result<u128, Stop>)
    requires
        at <= 8 * data.len(),
        width <= 65_536,
        height <= 65_536,
    ensures
        told_end(r) == picture_at(data@, at as int, width as int, height as int),
{
    match read_cache(data, at) {
        Err(stop) => Err(stop),
        Ok((cache, next)) => match take(data, next, 1) {
            Err(stop) => Err(stop),
            Ok((grouped, next)) => if grouped == 0 {
                walk_groups(data, next, cache, 1)
            } else {
                match walk_blocks(data, next, width, height) {
                    Err(stop) => Err(stop),
                    Ok((most, next)) => walk_groups(data, next, cache, most as u64 + 1),
                }
            },
        },
    }
}

/// How many points of a picture of `n` colors stand in one.
pub open spec fn bundled(n: int) -> int {
    if n <= 2 {
        8
    } else if n <= 4 {
        4
    } else if n <= 16 {
        2
    } else {
        1
    }
}

/// Walks over the transformations that are left, then up to the points. Each
/// occurs once at most.
pub open spec fn transformed_at(
    s: Seq<u8>,
    at: int,
    width: int,
    height: int,
    seen: Seq<u32>,
) -> Result<int, Stop>
    decreases 5 - seen.len(),
{
    match taken(s, at, 1) {
        Err(stop) => Err(stop),
        Ok((more, next)) => if more == 0 {
            picture_at(s, next, width, height)
        } else {
            match taken(s, next, 2) {
                Err(stop) => Err(stop),
                Ok((kind, next)) => if seen.len() >= 4 || seen.contains(kind as u32) {
                    Err(Stop::Unreadable)
                } else if kind < 2 {
                    match blocks_at(s, next, width, height) {
                        Err(stop) => Err(stop),
                        Ok((_, next)) => transformed_at(
                            s,
                            next,
                            width,
                            height,
                            seen.push(kind as u32),
                        ),
                    }
                } else if kind == 2 {
                    transformed_at(s, next, width, height, seen.push(kind as u32))
                } else {
                    match taken(s, next, 8) {
                        Err(stop) => Err(stop),
                        Ok((more, next)) => match part_at(s, next, more + 1) {
                            Err(stop) => Err(stop),
                            Ok((_, next)) => transformed_at(
                                s,
                                next,
                                blocks(width, bundled(more + 1)),
                                height,
                                seen.push(kind as u32),
                            ),
                        },
                    }
                },
            }
        },
    }
}

fn has_seen(seen: &Vec<u32>, kind: u32) -> (r: bool)
    ensures
        r == seen@.contains(kind),
{
    let mut i: usize = 0;
    while i < seen.len()
        invariant
            i <= seen.len(),
            forall|j: int| 0 <= j < i ==> seen@[j] != kind,
        decreases seen.len() - i,
    {
        if seen[i] == kind {
            return true;
        }
        i += 1;
    }
    false
}

fn walk_transformed(data: &[u8], at: u128, width: u32, height: u32) -> (r: Result<u128, Stop>)
    requires
        at <= 8 * data.len(),
        width <= 65_536,
        height <= 65_536,
    ensures
        told_end(r) == transformed_at(
            data@,
            at as int,
            width as int,
            height as int,
            Seq::empty(),
        ),
{
    let mut next: u128 = at;
    let mut across: u32 = width;
    let mut seen: Vec<u32> = Vec::new();
    let ghost goal = transformed_at(data@, at as int, width as int, height as int, Seq::empty());
    assert(seen@ =~= Seq::<u32>::empty());
    loop
        invariant
            next <= 8 * data.len(),
            across <= 65_536,
            height <= 65_536,
            seen.len() <= 4,
            goal == transformed_at(data@, next as int, across as int, height as int, seen@),
            goal == transformed_at(
                data@,
                at as int,
                width as int,
                height as int,
                Seq::empty(),
            ),
        decreases 5 - seen.len(),
    {
        match take(data, next, 1) {
            Err(stop) => {
                return Err(stop);
            },
            Ok((more, after)) => {
                if more == 0 {
                    return walk_picture(data, after, across, height);
                }
                match take(data, after, 2) {
                    Err(stop) => {
                        return Err(stop);
                    },
                    Ok((kind, after)) => {
                        if seen.len() >= 4 || has_seen(&seen, kind) {
                            return Err(Stop::Unreadable);
                        }
                        if kind < 2 {
                            match walk_blocks(data, after, across, height) {
                                Err(stop) => {
                                    return Err(stop);
                                },
                                Ok((_, after)) => {
                                    next = after;
                                },
                            }
                        } else if kind == 2 {
                            next = after;
                        } else {
                            match take(data, after, 8) {
                                Err(stop) => {
                                    return Err(stop);
                                },
                                Ok((more, after)) => match walk_part(data, after, more as u64 + 1) {
                                    Err(stop) => {
                                        return Err(stop);
                                    },
                                    Ok((_, after)) => {
                                        let n: u32 = more + 1;
                                        let size: u32 = if n <= 2 {
                                            8
                                        } else if n <= 4 {
                                            4
                                        } else if n <= 16 {
                                            2
                                        } else {
                                            1
                                        };
                                        across = block_count(across, size);
                                        next = after;
                                    },
                                },
                            }
                        }
                        seen.push(kind);
                    },
                }
            },
        }
    }
}

/// Whether a lossless picture has an over-full code: one that begins with its
/// mark and its size.
pub open spec fn picture_overfull(s: Seq<u8>) -> bool {
    s.len() >= 5 && s[0] == 0x2f && bits_at(s, 37, 3) == 0 && transformed_at(
        s,
        40,
        bits_at(s, 8, 14) + 1,
        bits_at(s, 22, 14) + 1,
        Seq::empty(),
    ) == Err::<int, Stop>(Stop::Overfull)
}

/// Whether the opacity of a picture has an over-full code, where it is lossless:
/// one that begins with a byte on how it is written.
pub open spec fn opacity_overfull(s: Seq<u8>, width: int, height: int) -> bool {
    s.len() >= 1 && s[0] % 4 == 1 && transformed_at(s, 8, width, height, Seq::empty()) == Err::<
        int,
        Stop,
    >(Stop::Overfull)
}

fn ends_overfull(r: Result<u128, Stop>) -> (yes: bool)
    ensures
        yes == (told_end(r) == Err::<int, Stop>(Stop::Overfull)),
{
    match r {
        Ok(_) => false,
        Err(stop) => stop == Stop::Overfull,
    }
}

pub fn is_picture_overfull(data: &[u8]) -> (r: bool)
    ensures
        r == picture_overfull(data@),
{
    proof {
        lemma2_to64();
    }
    if data.len() < 5 || data[0] != 0x2f {
        return false;
    }
    match (take(data, 8, 14), take(data, 22, 14), take(data, 37, 3)) {
        (Ok((width, _)), Ok((height, _)), Ok((version, _))) => version == 0 && ends_overfull(
            walk_transformed(data, 40, width + 1, height + 1),
        ),
        _ => false,
    }
}

pub fn is_opacity_overfull(data: &[u8], width: u32, height: u32) -> (r: bool)
    requires
        width <= 65_536,
        height <= 65_536,
    ensures
        r == opacity_overfull(data@, width as int, height as int),
{
    data.len() >= 1 && data[0] % 4 == 1 && ends_overfull(walk_transformed(data, 8, width, height))
}

} // verus!

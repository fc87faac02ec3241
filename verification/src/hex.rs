//! Hexadecimal text.
use vstd::prelude::*;

verus! {

/// The digit for a value below sixteen.
pub open spec fn hex_digit(n: int) -> char {
    if n < 10 {
        ('0' as int + n) as char
    } else {
        ('a' as int + n - 10) as char
    }
}

/// The last `width` digits of `n`.
pub open spec fn hex(n: int, width: nat) -> Seq<char>
    decreases width,
{
    if width == 0 {
        Seq::empty()
    } else {
        hex(n / 16, (width - 1) as nat).push(hex_digit(n % 16))
    }
}

/// Two digits for each byte.
pub open spec fn hex_bytes(bytes: Seq<u8>) -> Seq<char>
    decreases bytes.len(),
{
    if bytes.len() == 0 {
        Seq::empty()
    } else {
        hex_bytes(bytes.drop_last()).push(hex_digit(bytes.last() as int / 16)).push(
            hex_digit(bytes.last() as int % 16),
        )
    }
}

fn digit_of(n: u8) -> (r: char)
    requires
        n < 16,
    ensures
        r == hex_digit(n as int),
{
    if n < 10 {
        (48 + n) as char
    } else {
        (97 + (n - 10)) as char
    }
}

/// Two lower-case digits for each byte.
pub fn hex_encode(bytes: &[u8]) -> (r: String)
    ensures
        r@ == hex_bytes(bytes@),
{
    let mut r = String::new();
    let mut i: usize = 0;
    while i < bytes.len()
        invariant
            i <= bytes.len(),
            r@ == hex_bytes(bytes@.take(i as int)),
        decreases bytes.len() - i,
    {
        proof {
            assert(bytes@.take(i + 1).drop_last() =~= bytes@.take(i as int));
        }
        r.push(digit_of(bytes[i] / 16));
        r.push(digit_of(bytes[i] % 16));
        i += 1;
    }
    proof {
        assert(bytes@.take(i as int) =~= bytes@);
    }
    r
}

/// The number with all of its sixteen digits.
pub fn hex_text(n: u64) -> (r: String)
    ensures
        r@ == hex(n as int, 16),
{
    let mut digits: Vec<char> = Vec::new();
    let mut rest: u64 = n;
    let mut i: usize = 0;
    while i < 16
        invariant
            i <= 16,
            hex(n as int, 16) == hex(rest as int, (16 - i) as nat) + digits@,
        decreases 16 - i,
    {
        let ghost before = digits@;
        let ghost was = rest;
        digits.insert(0, digit_of((rest % 16) as u8));
        rest = rest / 16;
        i += 1;
        proof {
            assert(hex(was as int, (17 - i) as nat) + before =~= hex(rest as int, (16 - i) as nat)
                + digits@);
        }
    }
    proof {
        assert(hex(rest as int, 0) + digits@ =~= digits@);
        assert(digits@.subrange(0, digits@.len() as int) =~= digits@);
    }
    let len = digits.len();
    crate::text::text_of(&digits, 0, len)
}

} // verus!

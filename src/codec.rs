//! Numeric encodings used on the wire: the 6-bit packed sample encoding and
//! zero-padded ASCII decimals.
use crate::error::{ErrorView, UrgError};
use vstd::prelude::*;

verus! {

/// The 6-bit value that one encoded byte carries: `(byte - 0x30) & 0x3F`.
pub open spec fn sixbit(b: u8) -> nat {
    ((b as int - 0x30) % 64) as nat
}

/// The big-endian number formed by the 6-bit values of `s`, without bound.
pub open spec fn packed_value(s: Seq<u8>) -> nat
    decreases s.len(),
{
    if s.len() == 0 {
        0
    } else {
        packed_value(s.drop_last()) * 64 + sixbit(s.last())
    }
}

/// What `decode6` returns: the packed value reduced to 32 bits.
pub open spec fn decode6_spec(s: Seq<u8>) -> nat {
    packed_value(s) % 0x1_0000_0000
}

proof fn lemma_shift_in(res: u32, d: u32)
    requires
        d < 64,
    ensures
        (res << 6u32) as int + d as int <= u32::MAX,
        ((res << 6u32) + d) as int == ((res as int) * 64 + d as int) % 0x1_0000_0000,
{
    assert((res << 6u32) <= 0xFFFF_FFC0u32) by (bit_vector);
    assert((res << 6u32) == ((res as int) * 64) % 0x1_0000_0000) by (bit_vector);
    assert(((res as int) * 64 + d as int) % 0x1_0000_0000 == (((res as int) * 64) % 0x1_0000_0000)
        + d as int) by (nonlinear_arith)
        requires
            d < 64,
            res <= u32::MAX,
    {
        vstd::arithmetic::div_mod::lemma_mod_adds((res as int) * 64, d as int, 0x1_0000_0000);
    }
}

/// Decodes a group of 6-bit packed bytes, most significant first.
///
/// Total over any input: bits above the 32nd fall off.
pub fn decode6(raw: &[u8]) -> (r: u32)
    ensures
        r as nat == decode6_spec(raw@),
{
    let mut res: u32 = 0;
    let mut i: usize = 0;
    while i < raw.len()
        invariant
            i <= raw@.len(),
            res as nat == decode6_spec(raw@.subrange(0, i as int)),
        decreases raw@.len() - i,
    {
        let b = raw[i];
        let d: u32 = (b.wrapping_sub(0x30) & 0x3F) as u32;
        assert(d as nat == sixbit(b)) by {
            assert((b.wrapping_sub(0x30u8) & 0x3Fu8) as int == (b as int + 16) % 64) by (bit_vector);
        }
        proof {
            lemma_shift_in(res, d);
            let pre = raw@.subrange(0, i as int);
            let next = raw@.subrange(0, i as int + 1);
            assert(next.drop_last() =~= pre);
            assert(packed_value(next) == packed_value(pre) * 64 + sixbit(b));
            vstd::arithmetic::div_mod::lemma_mul_mod_noop_left(packed_value(pre) as int, 64, 0x1_0000_0000);
            vstd::arithmetic::div_mod::lemma_add_mod_noop(packed_value(pre) as int * 64, d as int, 0x1_0000_0000);
        }
        res = (res << 6u32) + d;
        i = i + 1;
    }
    assert(raw@.subrange(0, raw@.len() as int) =~= raw@);
    res
}

} // verus!

verus! {

/// An ASCII decimal digit.
pub open spec fn is_digit(b: u8) -> bool {
    0x30 <= b <= 0x39
}

/// The value of a string of decimal digits, most significant first.
pub open spec fn decimal_value(s: Seq<u8>) -> nat
    decreases s.len(),
{
    if s.len() == 0 {
        0
    } else {
        decimal_value(s.drop_last()) * 10 + (s.last() - 0x30) as nat
    }
}

/// A non-empty string of decimal digits whose value fits in 32 bits.
pub open spec fn is_decimal_u32(s: Seq<u8>) -> bool {
    &&& s.len() > 0
    &&& forall|i: int| 0 <= i < s.len() ==> is_digit(#[trigger] s[i])
    &&& decimal_value(s) <= u32::MAX
}

proof fn lemma_decimal_value_grows(s: Seq<u8>, k: int)
    requires
        0 <= k <= s.len(),
        forall|i: int| 0 <= i < s.len() ==> is_digit(#[trigger] s[i]),
    ensures
        decimal_value(s.subrange(0, k)) <= decimal_value(s),
    decreases s.len() - k,
{
    if k < s.len() {
        let t = s.subrange(0, k + 1);
        assert(t.drop_last() =~= s.subrange(0, k));
        lemma_decimal_value_grows(s, k + 1);
    } else {
        assert(s.subrange(0, k) =~= s);
    }
}

/// Parses an ASCII decimal numeral of at most 32 bits.
///
/// Fails with `MalformedField` on empty input, on a byte that is no digit,
/// and on a value above `u32::MAX`.
pub fn decode_decimal_field(field: &[u8]) -> (r: Result<u32, UrgError>)
    ensures
        is_decimal_u32(field@) <==> r is Ok,
        r matches Ok(v) ==> v as nat == decimal_value(field@),
        r matches Err(e) ==> e@ == (ErrorView::MalformedField { field: field@ }),
{
    if field.len() == 0 {
        return Err(UrgError::MalformedField { field: vstd::slice::slice_to_vec(field) });
    }
    let mut i: usize = 0;
    while i < field.len()
        invariant
            i <= field@.len(),
            forall|j: int| 0 <= j < i ==> is_digit(#[trigger] field@[j]),
        decreases field@.len() - i,
    {
        if !(0x30 <= field[i] && field[i] <= 0x39) {
            return Err(UrgError::MalformedField { field: vstd::slice::slice_to_vec(field) });
        }
        i = i + 1;
    }
    let mut value: u64 = 0;
    let mut i: usize = 0;
    while i < field.len()
        invariant
            i <= field@.len(),
            forall|j: int| 0 <= j < field@.len() ==> is_digit(#[trigger] field@[j]),
            value as nat == decimal_value(field@.subrange(0, i as int)),
            value <= u32::MAX,
        decreases field@.len() - i,
    {
        let d = (field[i] - 0x30) as u64;
        proof {
            let next = field@.subrange(0, i as int + 1);
            assert(next.drop_last() =~= field@.subrange(0, i as int));
        }
        value = value * 10 + d;
        if value > 0xFFFF_FFFF {
            proof {
                lemma_decimal_value_grows(field@, i as int + 1);
            }
            return Err(UrgError::MalformedField { field: vstd::slice::slice_to_vec(field) });
        }
        i = i + 1;
    }
    assert(field@.subrange(0, field@.len() as int) =~= field@);
    Ok(value as u32)
}

/// The decimal digits of `n`, most significant first, without leading zeros.
pub open spec fn decimal_digits(n: nat) -> Seq<u8>
    decreases n,
{
    if n < 10 {
        seq![(0x30 + n) as u8]
    } else {
        decimal_digits(n / 10).push((0x30 + n % 10) as u8)
    }
}

/// `n` in decimal, with zeros in front up to `width` digits; wider values keep
/// all their digits.
pub open spec fn padded_decimal(n: nat, width: nat) -> Seq<u8> {
    let d = decimal_digits(n);
    if d.len() < width {
        Seq::new((width - d.len()) as nat, |_i: int| 0x30u8) + d
    } else {
        d
    }
}

fn push_digits(out: &mut Vec<u8>, n: u32)
    ensures
        final(out)@ == old(out)@ + decimal_digits(n as nat),
    decreases n,
{
    if n >= 10 {
        push_digits(out, n / 10);
    }
    out.push((0x30 + n % 10) as u8);
    proof {
        if n < 10 {
            assert(n % 10 == n);
        }
    }
}

spec fn pow10(k: nat) -> nat
    decreases k,
{
    if k == 0 {
        1
    } else {
        10 * pow10((k - 1) as nat)
    }
}

proof fn lemma_digits_len(n: nat, k: nat)
    requires
        n < pow10(k),
        k >= 1,
    ensures
        decimal_digits(n).len() <= k,
    decreases n,
{
    if n >= 10 {
        assert(k >= 2) by {
            if k == 1 {
                assert(pow10(1) == 10) by {
                    reveal_with_fuel(pow10, 2);
                }
            }
        }
        assert(n / 10 < pow10((k - 1) as nat));
        lemma_digits_len(n / 10, (k - 1) as nat);
    }
}

fn digit_count(n: u32) -> (r: usize)
    ensures
        r == decimal_digits(n as nat).len(),
        r <= 10,
    decreases n,
{
    proof {
        assert(pow10(10) == 10_000_000_000) by {
            reveal_with_fuel(pow10, 11);
        }
        lemma_digits_len(n as nat, 10);
    }
    if n < 10 {
        1
    } else {
        digit_count(n / 10) + 1
    }
}

/// Appends `n` as a zero-padded decimal of at least `width` digits.
pub fn push_padded_decimal(out: &mut Vec<u8>, n: u32, width: usize)
    ensures
        final(out)@ == old(out)@ + padded_decimal(n as nat, width as nat),
{
    let count = digit_count(n);
    let ghost start = out@;
    if count < width {
        let mut k: usize = 0;
        while k < width - count
            invariant
                count < width,
                k <= width - count,
                out@ == start + Seq::new(k as nat, |_i: int| 0x30u8),
            decreases width - count - k,
        {
            out.push(0x30);
            k = k + 1;
            assert(out@ =~= start + Seq::new(k as nat, |_i: int| 0x30u8));
        }
    }
    push_digits(out, n);
    assert(out@ =~= old(out)@ + padded_decimal(n as nat, width as nat));
}

} // verus!

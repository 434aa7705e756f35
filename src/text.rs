use vstd::prelude::*;
use crate::types::{pow10, lemma_pow10_18, lemma_pow10_positive, AddressKind, kind_byte, ADDRESS_HASH_LEN};

verus! {

/// Largest number of digits accepted before the decimal point.
pub const MAX_INTEGER_DIGITS: usize = 38;

/// Largest number of digits accepted after the decimal point.
pub const MAX_FRACTION_DIGITS: usize = 18;

pub open spec fn is_digit(c: u8) -> bool {
    48 <= c <= 57
}

pub open spec fn all_digits(s: Seq<u8>) -> bool {
    forall|i: int| 0 <= i < s.len() ==> is_digit(#[trigger] s[i])
}

/// The number that a string of decimal digits writes.
pub open spec fn digits_value(s: Seq<u8>) -> int
    decreases s.len(),
{
    if s.len() == 0 {
        0
    } else {
        digits_value(s.drop_last()) * 10 + (s.last() - 48)
    }
}

/// Index of the first `'.'` in `s`, or its length if there is none.
pub open spec fn dot_index(s: Seq<u8>) -> int
    decreases s.len(),
{
    if s.len() == 0 {
        0
    } else if s[0] == 46 {
        0
    } else {
        1 + dot_index(s.drop_first())
    }
}

/// The raw value of the decimal that `b` writes: an optional `-`, one to
/// 38 integer digits, and optionally a `.` followed by one to eighteen
/// fraction digits, whose magnitude fits an `i128`. `None` for anything else.
pub open spec fn decimal_of(b: Seq<u8>) -> Option<int> {
    let neg = b.len() > 0 && b[0] == 45;
    let body = if neg { b.drop_first() } else { b };
    let d = dot_index(body);
    let ip = body.subrange(0, d);
    let has_dot = d < body.len();
    let fp = if has_dot { body.subrange(d + 1, body.len() as int) } else { Seq::<u8>::empty() };
    if ip.len() == 0 || ip.len() > MAX_INTEGER_DIGITS || !all_digits(ip) || !all_digits(fp)
        || fp.len() > MAX_FRACTION_DIGITS || (has_dot && fp.len() == 0) {
        None
    } else {
        let v = digits_value(ip) * pow10(18) + digits_value(fp) * pow10((18 - fp.len()) as nat);
        if v > i128::MAX {
            None
        } else {
            Some(if neg { -v } else { v })
        }
    }
}

pub proof fn lemma_digits_value_bound(s: Seq<u8>)
    requires
        all_digits(s),
    ensures
        0 <= digits_value(s) < pow10(s.len()),
    decreases s.len(),
{
    if s.len() > 0 {
        assert(all_digits(s.drop_last()));
        lemma_digits_value_bound(s.drop_last());
        assert(is_digit(s[s.len() - 1]));
    }
}

proof fn lemma_dot_index(s: Seq<u8>, i: int)
    requires
        0 <= i <= s.len(),
        forall|j: int| 0 <= j < i ==> s[j] != 46,
        i == s.len() || s[i] == 46,
    ensures
        dot_index(s) == i,
    decreases s.len(),
{
    if s.len() > 0 && i > 0 {
        assert forall|j: int| 0 <= j < i - 1 implies s.drop_first()[j] != 46 by {
            assert(s.drop_first()[j] == s[j + 1]);
        }
        lemma_dot_index(s.drop_first(), i - 1);
    }
}

/// Reads the digits `b[start..end]` as a number.
fn read_digits(b: &[u8], start: usize, end: usize) -> (r: Option<u128>)
    requires
        start <= end <= b@.len(),
        end - start <= 38,
    ensures
        match r {
            Some(v) => all_digits(b@.subrange(start as int, end as int)) && v as int == digits_value(
                b@.subrange(start as int, end as int),
            ),
            None => !all_digits(b@.subrange(start as int, end as int)),
        },
{
    let mut v: u128 = 0;
    let mut i: usize = start;
    while i < end
        invariant
            start <= i <= end <= b@.len(),
            end - start <= 38,
            all_digits(b@.subrange(start as int, i as int)),
            v as int == digits_value(b@.subrange(start as int, i as int)),
        decreases end - i,
    {
        let c = b[i];
        if c < 48 || c > 57 {
            assert(b@.subrange(start as int, end as int)[i - start] == c);
            return None;
        }
        proof {
            let s = b@.subrange(start as int, i as int);
            lemma_digits_value_bound(s);
            crate::types::lemma_pow10_monotone(s.len(), 37);
            reveal_with_fuel(pow10, 38);
            assert(b@.subrange(start as int, i + 1).drop_last() =~= s);
        }
        v = v * 10 + (c - 48) as u128;
        i = i + 1;
    }
    Some(v)
}

proof fn lemma_decimal_parts(iv: int, fv: int, scale: int, fl: nat)
    requires
        0 <= iv,
        0 <= fv < pow10(fl),
        fl <= 18,
        scale == pow10((18 - fl) as nat),
    ensures
        pow10(18) == 1_000_000_000_000_000_000,
        0 <= fv * scale <= pow10(18),
        iv > 170_141_183_460_469_231_731 ==> iv * pow10(18) + fv * scale > i128::MAX,
        iv <= 170_141_183_460_469_231_731 ==> iv * pow10(18) + fv * scale <= u128::MAX,
{
    lemma_pow10_18();
    crate::types::lemma_pow10_add(fl, (18 - fl) as nat);
    lemma_pow10_positive((18 - fl) as nat);
    assert(0 <= fv * scale <= pow10(18)) by (nonlinear_arith)
        requires
            0 <= fv < pow10(fl),
            scale >= 1,
            pow10(fl) * scale == pow10(18),
    ;
    if iv > 170_141_183_460_469_231_731 {
        assert(iv * 1_000_000_000_000_000_000 >= 170_141_183_460_469_231_732 * 1_000_000_000_000_000_000) by (nonlinear_arith)
            requires
                iv >= 170_141_183_460_469_231_732,
        ;
    } else {
        assert(iv * 1_000_000_000_000_000_000 <= 170_141_183_460_469_231_731 * 1_000_000_000_000_000_000) by (nonlinear_arith)
            requires
                0 <= iv <= 170_141_183_460_469_231_731,
        ;
    }
}

/// Reads a decimal in text form into its raw value.
pub fn decimal_from_text(b: &[u8]) -> (r: Option<i128>)
    ensures
        match r {
            Some(v) => decimal_of(b@) == Some(v as int),
            None => decimal_of(b@) is None,
        },
{
    let neg = b.len() > 0 && b[0] == 45;
    let start: usize = if neg { 1 } else { 0 };
    let ghost body = if neg { b@.drop_first() } else { b@ };
    let mut d: usize = start;
    while d < b.len() && b[d] != 46
        invariant
            start <= d <= b@.len(),
            body == b@.subrange(start as int, b@.len() as int),
            forall|j: int| start <= j < d ==> b@[j] != 46,
        decreases b@.len() - d,
    {
        d = d + 1;
    }
    proof {
        lemma_dot_index(body, d - start);
    }
    let has_dot = d < b.len();
    let fend: usize = b.len();
    let fstart: usize = if has_dot { d + 1 } else { b.len() };
    let ghost ip = body.subrange(0, d - start);
    let ghost fp = if has_dot { body.subrange(d - start + 1, body.len() as int) } else { Seq::<u8>::empty() };
    assert(ip =~= b@.subrange(start as int, d as int));
    assert(fp =~= b@.subrange(fstart as int, fend as int));
    if d == start || d - start > MAX_INTEGER_DIGITS || fend - fstart > MAX_FRACTION_DIGITS || (has_dot
        && fend == fstart) {
        return None;
    }
    let iv = match read_digits(b, start, d) {
        Some(v) => v,
        None => {
            return None;
        },
    };
    let fv = match read_digits(b, fstart, fend) {
        Some(v) => v,
        None => {
            return None;
        },
    };
    let flen: u8 = (fend - fstart) as u8;
    let mut scale: u128 = 1;
    let mut k: u8 = 0;
    while k < 18 - flen
        invariant
            flen <= 18,
            k <= 18 - flen,
            scale as int == pow10(k as nat),
        decreases 18 - flen - k,
    {
        proof {
            crate::types::lemma_pow10_monotone(k as nat, 18);
            lemma_pow10_18();
            assert(pow10((k + 1) as nat) == 10 * pow10(k as nat));
        }
        scale = scale * 10;
        k = k + 1;
    }
    proof {
        lemma_digits_value_bound(ip);
        lemma_digits_value_bound(fp);
        lemma_decimal_parts(iv as int, fv as int, scale as int, fp.len());
    }
    if iv > 170_141_183_460_469_231_731 {
        return None;
    }
    let total: u128 = iv * 1_000_000_000_000_000_000 + fv * scale;
    if total > 170_141_183_460_469_231_731_687_303_715_884_105_727 {
        return None;
    }
    let v: i128 = total as i128;
    if neg {
        Some(-v)
    } else {
        Some(v)
    }
}

/// Value of a hexadecimal digit, either case.
pub open spec fn hex_value(c: u8) -> Option<u8> {
    if 48 <= c <= 57 {
        Some((c - 48) as u8)
    } else if 97 <= c <= 102 {
        Some((c - 87) as u8)
    } else if 65 <= c <= 70 {
        Some((c - 55) as u8)
    } else {
        None
    }
}

pub open spec fn all_hex(s: Seq<u8>) -> bool {
    forall|i: int| 0 <= i < s.len() ==> (#[trigger] hex_value(s[i])) is Some
}

/// The byte written by the two hex digits at `2 * i` and `2 * i + 1`.
pub open spec fn hex_byte_at(s: Seq<u8>, i: int) -> u8 {
    (hex_value(s[2 * i])->0 * 16 + hex_value(s[2 * i + 1])->0) as u8
}

/// Number of hex digits in the text form of an address.
pub const ADDRESS_TEXT_LEN: usize = 54;

/// The address that `b` writes in hex: its kind byte, then its 26 hash
/// bytes. `None` for anything else.
pub open spec fn address_of(b: Seq<u8>) -> Option<(AddressKind, Seq<u8>)> {
    if b.len() != ADDRESS_TEXT_LEN || !all_hex(b) {
        None
    } else {
        let k = hex_byte_at(b, 0);
        let hash = Seq::new(ADDRESS_HASH_LEN as nat, |i: int| hex_byte_at(b, i + 1));
        if k == 1 {
            Some((AddressKind::Package, hash))
        } else if k == 2 {
            Some((AddressKind::Component, hash))
        } else if k == 3 {
            Some((AddressKind::ResourceDef, hash))
        } else {
            None
        }
    }
}

fn hex_digit(c: u8) -> (r: Option<u8>)
    ensures
        r == hex_value(c),
{
    if c >= 48 && c <= 57 {
        Some(c - 48)
    } else if c >= 97 && c <= 102 {
        Some(c - 87)
    } else if c >= 65 && c <= 70 {
        Some(c - 55)
    } else {
        None
    }
}

/// Reads an address in hex text form into its kind and hash bytes.
pub fn address_from_text(b: &[u8]) -> (r: Option<(AddressKind, Vec<u8>)>)
    ensures
        match r {
            Some((k, h)) => address_of(b@) == Some((k, h@)),
            None => address_of(b@) is None,
        },
{
    if b.len() != ADDRESS_TEXT_LEN {
        return None;
    }
    let mut bytes: Vec<u8> = Vec::new();
    let mut i: usize = 0;
    while i < 27
        invariant
            b@.len() == ADDRESS_TEXT_LEN,
            0 <= i <= 27,
            forall|j: int| 0 <= j < 2 * i ==> (#[trigger] hex_value(b@[j])) is Some,
            bytes@.len() == i,
            forall|j: int| 0 <= j < i ==> #[trigger] bytes@[j] == hex_byte_at(b@, j),
        decreases 27 - i,
    {
        let hi = match hex_digit(b[2 * i]) {
            Some(v) => v,
            None => {
                return None;
            },
        };
        let lo = match hex_digit(b[2 * i + 1]) {
            Some(v) => v,
            None => {
                return None;
            },
        };
        bytes.push(hi * 16 + lo);
        i = i + 1;
    }
    assert(all_hex(b@)) by {
        assert forall|j: int| 0 <= j < b@.len() implies (#[trigger] hex_value(b@[j])) is Some by {
            assert(j < 2 * 27);
        }
    }
    let kind = match AddressKind::from_byte(bytes[0]) {
        Some(k) => k,
        None => {
            return None;
        },
    };
    let hash = bytes.split_off(1);
    assert(hash@ =~= Seq::new(ADDRESS_HASH_LEN as nat, |j: int| hex_byte_at(b@, j + 1)));
    Some((kind, hash))
}

} // verus!

use vstd::prelude::*;
use vstd::bytes::*;
use crate::error::DecodeError;
use vstd::utf8::{decode_utf8, encode_utf8, valid_utf8};

verus! {

pub const TYPE_UNIT: u8 = 0x00;
pub const TYPE_BOOL: u8 = 0x01;
pub const TYPE_I8: u8 = 0x02;
pub const TYPE_I16: u8 = 0x03;
pub const TYPE_I32: u8 = 0x04;
pub const TYPE_I64: u8 = 0x05;
pub const TYPE_I128: u8 = 0x06;
pub const TYPE_U8: u8 = 0x07;
pub const TYPE_U16: u8 = 0x08;
pub const TYPE_U32: u8 = 0x09;
pub const TYPE_U64: u8 = 0x0a;
pub const TYPE_U128: u8 = 0x0b;
pub const TYPE_STRING: u8 = 0x0c;
pub const TYPE_TUPLE: u8 = 0x21;

/// The scalar values of the value grammar: unit, booleans and integers.
#[derive(Debug, Clone, Copy, PartialEq, Eq, Structural)]
pub enum Scalar {
    Unit,
    Bool(bool),
    I8(i8),
    I16(i16),
    I32(i32),
    I64(i64),
    I128(i128),
    U8(u8),
    U16(u16),
    U32(u32),
    U64(u64),
    U128(u128),
}

/// The canonical encoding: a type id, then the value in little-endian
/// bytes (a boolean as `0` or `1`).
pub open spec fn encode_spec(v: Scalar) -> Seq<u8> {
    match v {
        Scalar::Unit => seq![TYPE_UNIT],
        Scalar::Bool(b) => seq![TYPE_BOOL, if b { 1u8 } else { 0u8 }],
        Scalar::I8(x) => seq![TYPE_I8, #[verifier::truncate] (x as u8)],
        Scalar::I16(x) => seq![TYPE_I16] + spec_u16_to_le_bytes(#[verifier::truncate] (x as u16)),
        Scalar::I32(x) => seq![TYPE_I32] + spec_u32_to_le_bytes(#[verifier::truncate] (x as u32)),
        Scalar::I64(x) => seq![TYPE_I64] + spec_u64_to_le_bytes(#[verifier::truncate] (x as u64)),
        Scalar::I128(x) => seq![TYPE_I128] + spec_u128_to_le_bytes(#[verifier::truncate] (x as u128)),
        Scalar::U8(x) => seq![TYPE_U8, x],
        Scalar::U16(x) => seq![TYPE_U16] + spec_u16_to_le_bytes(x),
        Scalar::U32(x) => seq![TYPE_U32] + spec_u32_to_le_bytes(x),
        Scalar::U64(x) => seq![TYPE_U64] + spec_u64_to_le_bytes(x),
        Scalar::U128(x) => seq![TYPE_U128] + spec_u128_to_le_bytes(x),
    }
}

/// Number of payload bytes after a type id, if the id is known.
pub open spec fn payload_len(t: u8) -> Option<nat> {
    if t == TYPE_UNIT {
        Some(0)
    } else if t == TYPE_BOOL || t == TYPE_I8 || t == TYPE_U8 {
        Some(1)
    } else if t == TYPE_I16 || t == TYPE_U16 {
        Some(2)
    } else if t == TYPE_I32 || t == TYPE_U32 {
        Some(4)
    } else if t == TYPE_I64 || t == TYPE_U64 {
        Some(8)
    } else if t == TYPE_I128 || t == TYPE_U128 {
        Some(16)
    } else {
        None
    }
}

/// The value that `b` encodes, or why it encodes none: too short, an
/// unknown type id, bytes left over, or a boolean byte other than 0 or 1.
pub open spec fn decode_spec(b: Seq<u8>) -> Result<Scalar, DecodeError> {
    if b.len() == 0 {
        Err(DecodeError::Underflow { required: 1, remaining: 0 })
    } else {
        let t = b[0];
        let p = b.subrange(1, b.len() as int);
        match payload_len(t) {
            None => Err(DecodeError::InvalidIndex(t)),
            Some(n) => if p.len() < n {
                Err(DecodeError::Underflow { required: n as usize, remaining: p.len() as usize })
            } else if p.len() > n {
                Err(DecodeError::NotAllBytesUsed((p.len() - n) as usize))
            } else if t == TYPE_UNIT {
                Ok(Scalar::Unit)
            } else if t == TYPE_BOOL {
                if p[0] == 0 {
                    Ok(Scalar::Bool(false))
                } else if p[0] == 1 {
                    Ok(Scalar::Bool(true))
                } else {
                    Err(DecodeError::InvalidType { expected: TYPE_BOOL, actual: p[0] })
                }
            } else if t == TYPE_I8 {
                Ok(Scalar::I8(#[verifier::truncate] (p[0] as i8)))
            } else if t == TYPE_U8 {
                Ok(Scalar::U8(p[0]))
            } else if t == TYPE_I16 {
                Ok(Scalar::I16(#[verifier::truncate] (spec_u16_from_le_bytes(p) as i16)))
            } else if t == TYPE_U16 {
                Ok(Scalar::U16(spec_u16_from_le_bytes(p)))
            } else if t == TYPE_I32 {
                Ok(Scalar::I32(#[verifier::truncate] (spec_u32_from_le_bytes(p) as i32)))
            } else if t == TYPE_U32 {
                Ok(Scalar::U32(spec_u32_from_le_bytes(p)))
            } else if t == TYPE_I64 {
                Ok(Scalar::I64(#[verifier::truncate] (spec_u64_from_le_bytes(p) as i64)))
            } else if t == TYPE_U64 {
                Ok(Scalar::U64(spec_u64_from_le_bytes(p)))
            } else if t == TYPE_I128 {
                Ok(Scalar::I128(#[verifier::truncate] (spec_u128_from_le_bytes(p) as i128)))
            } else {
                Ok(Scalar::U128(spec_u128_from_le_bytes(p)))
            },
        }
    }
}

proof fn lemma_signed_casts()
    ensures
        forall|x: i8| #[trigger] ((#[verifier::truncate] (x as u8)) as i8) == x,
        forall|x: i16| #[trigger] ((#[verifier::truncate] (x as u16)) as i16) == x,
        forall|x: i32| #[trigger] ((#[verifier::truncate] (x as u32)) as i32) == x,
        forall|x: i64| #[trigger] ((#[verifier::truncate] (x as u64)) as i64) == x,
        forall|x: i128| #[trigger] ((#[verifier::truncate] (x as u128)) as i128) == x,
        forall|u: u8| #[trigger] ((#[verifier::truncate] (u as i8)) as u8) == u,
        forall|u: u16| #[trigger] ((#[verifier::truncate] (u as i16)) as u16) == u,
        forall|u: u32| #[trigger] ((#[verifier::truncate] (u as i32)) as u32) == u,
        forall|u: u64| #[trigger] ((#[verifier::truncate] (u as i64)) as u64) == u,
        forall|u: u128| #[trigger] ((#[verifier::truncate] (u as i128)) as u128) == u,
{
    assert forall|x: i8| #[trigger] ((#[verifier::truncate] (x as u8)) as i8) == x by {
        assert(((#[verifier::truncate] (x as u8)) as i8) == x) by (bit_vector);
    }
    assert forall|x: i16| #[trigger] ((#[verifier::truncate] (x as u16)) as i16) == x by {
        assert(((#[verifier::truncate] (x as u16)) as i16) == x) by (bit_vector);
    }
    assert forall|x: i32| #[trigger] ((#[verifier::truncate] (x as u32)) as i32) == x by {
        assert(((#[verifier::truncate] (x as u32)) as i32) == x) by (bit_vector);
    }
    assert forall|x: i64| #[trigger] ((#[verifier::truncate] (x as u64)) as i64) == x by {
        assert(((#[verifier::truncate] (x as u64)) as i64) == x) by (bit_vector);
    }
    assert forall|x: i128| #[trigger] ((#[verifier::truncate] (x as u128)) as i128) == x by {
        assert(((#[verifier::truncate] (x as u128)) as i128) == x) by (bit_vector);
    }
    assert forall|u: u8| #[trigger] ((#[verifier::truncate] (u as i8)) as u8) == u by {
        assert(((#[verifier::truncate] (u as i8)) as u8) == u) by (bit_vector);
    }
    assert forall|u: u16| #[trigger] ((#[verifier::truncate] (u as i16)) as u16) == u by {
        assert(((#[verifier::truncate] (u as i16)) as u16) == u) by (bit_vector);
    }
    assert forall|u: u32| #[trigger] ((#[verifier::truncate] (u as i32)) as u32) == u by {
        assert(((#[verifier::truncate] (u as i32)) as u32) == u) by (bit_vector);
    }
    assert forall|u: u64| #[trigger] ((#[verifier::truncate] (u as i64)) as u64) == u by {
        assert(((#[verifier::truncate] (u as i64)) as u64) == u) by (bit_vector);
    }
    assert forall|u: u128| #[trigger] ((#[verifier::truncate] (u as i128)) as u128) == u by {
        assert(((#[verifier::truncate] (u as i128)) as u128) == u) by (bit_vector);
    }
}

/// Decoding an encoded scalar gives it back.
pub proof fn lemma_round_trip(v: Scalar)
    ensures
        decode_spec(encode_spec(v)) == Ok::<Scalar, DecodeError>(v),
{
    lemma_auto_spec_u16_to_from_le_bytes();
    lemma_auto_spec_u32_to_from_le_bytes();
    lemma_auto_spec_u64_to_from_le_bytes();
    lemma_auto_spec_u128_to_from_le_bytes();
    lemma_signed_casts();
    let e = encode_spec(v);
    assert(e.subrange(1, e.len() as int) =~= e.drop_first());
    match v {
        Scalar::I16(x) => assert(e.drop_first() =~= spec_u16_to_le_bytes(#[verifier::truncate] (x as u16))),
        Scalar::U16(x) => assert(e.drop_first() =~= spec_u16_to_le_bytes(x)),
        Scalar::I32(x) => assert(e.drop_first() =~= spec_u32_to_le_bytes(#[verifier::truncate] (x as u32))),
        Scalar::U32(x) => assert(e.drop_first() =~= spec_u32_to_le_bytes(x)),
        Scalar::I64(x) => assert(e.drop_first() =~= spec_u64_to_le_bytes(#[verifier::truncate] (x as u64))),
        Scalar::U64(x) => assert(e.drop_first() =~= spec_u64_to_le_bytes(x)),
        Scalar::I128(x) => assert(e.drop_first() =~= spec_u128_to_le_bytes(#[verifier::truncate] (x as u128))),
        Scalar::U128(x) => assert(e.drop_first() =~= spec_u128_to_le_bytes(x)),
        _ => {},
    }
}

/// The encoding is canonical: bytes that decode are exactly the encoding
/// of what they decode to; every other byte string is rejected.
pub proof fn lemma_canonical(b: Seq<u8>)
    ensures
        decode_spec(b) is Ok ==> encode_spec(decode_spec(b)->Ok_0) == b,
{
    lemma_auto_spec_u16_to_from_le_bytes();
    lemma_auto_spec_u32_to_from_le_bytes();
    lemma_auto_spec_u64_to_from_le_bytes();
    lemma_auto_spec_u128_to_from_le_bytes();
    lemma_signed_casts();
    if decode_spec(b) is Ok {
        let p = b.subrange(1, b.len() as int);
        assert(b =~= seq![b[0]] + p);
        if payload_len(b[0]) == Some(1nat) {
            assert(p =~= seq![p[0]]);
        }
    }
}

/// Encodes a scalar.
pub fn encode(v: &Scalar) -> (r: Vec<u8>)
    ensures
        r@ == encode_spec(*v),
{
    let (t, mut payload): (u8, Vec<u8>) = match *v {
        Scalar::Unit => (TYPE_UNIT, Vec::new()),
        Scalar::Bool(b) => (TYPE_BOOL, vec![if b { 1u8 } else { 0u8 }]),
        Scalar::I8(x) => (TYPE_I8, vec![#[verifier::truncate] (x as u8)]),
        Scalar::I16(x) => (TYPE_I16, u16_to_le_bytes(#[verifier::truncate] (x as u16))),
        Scalar::I32(x) => (TYPE_I32, u32_to_le_bytes(#[verifier::truncate] (x as u32))),
        Scalar::I64(x) => (TYPE_I64, u64_to_le_bytes(#[verifier::truncate] (x as u64))),
        Scalar::I128(x) => (TYPE_I128, u128_to_le_bytes(#[verifier::truncate] (x as u128))),
        Scalar::U8(x) => (TYPE_U8, vec![x]),
        Scalar::U16(x) => (TYPE_U16, u16_to_le_bytes(x)),
        Scalar::U32(x) => (TYPE_U32, u32_to_le_bytes(x)),
        Scalar::U64(x) => (TYPE_U64, u64_to_le_bytes(x)),
        Scalar::U128(x) => (TYPE_U128, u128_to_le_bytes(x)),
    };
    let ghost pl = payload@;
    let mut out: Vec<u8> = vec![t];
    out.append(&mut payload);
    assert(out@ =~= seq![t] + pl);
    out
}

/// Decodes a scalar, rejecting every byte string that is not the
/// canonical encoding of one.
pub fn decode(b: &[u8]) -> (r: Result<Scalar, DecodeError>)
    ensures
        r == decode_spec(b@),
{
    if b.len() == 0 {
        return Err(DecodeError::Underflow { required: 1, remaining: 0 });
    }
    let t = b[0];
    let n: usize = if t == TYPE_UNIT {
        0
    } else if t == TYPE_BOOL || t == TYPE_I8 || t == TYPE_U8 {
        1
    } else if t == TYPE_I16 || t == TYPE_U16 {
        2
    } else if t == TYPE_I32 || t == TYPE_U32 {
        4
    } else if t == TYPE_I64 || t == TYPE_U64 {
        8
    } else if t == TYPE_I128 || t == TYPE_U128 {
        16
    } else {
        return Err(DecodeError::InvalidIndex(t));
    };
    let rest = b.len() - 1;
    if rest < n {
        return Err(DecodeError::Underflow { required: n, remaining: rest });
    }
    if rest > n {
        return Err(DecodeError::NotAllBytesUsed(rest - n));
    }
    let p = vstd::slice::slice_subrange(b, 1, b.len());
    assert(p@ == b@.subrange(1, b@.len() as int));
    if t == TYPE_UNIT {
        Ok(Scalar::Unit)
    } else if t == TYPE_BOOL {
        if p[0] == 0 {
            Ok(Scalar::Bool(false))
        } else if p[0] == 1 {
            Ok(Scalar::Bool(true))
        } else {
            Err(DecodeError::InvalidType { expected: TYPE_BOOL, actual: p[0] })
        }
    } else if t == TYPE_I8 {
        Ok(Scalar::I8(#[verifier::truncate] (p[0] as i8)))
    } else if t == TYPE_U8 {
        Ok(Scalar::U8(p[0]))
    } else if t == TYPE_I16 {
        Ok(Scalar::I16(#[verifier::truncate] (u16_from_le_bytes(p) as i16)))
    } else if t == TYPE_U16 {
        Ok(Scalar::U16(u16_from_le_bytes(p)))
    } else if t == TYPE_I32 {
        Ok(Scalar::I32(#[verifier::truncate] (u32_from_le_bytes(p) as i32)))
    } else if t == TYPE_U32 {
        Ok(Scalar::U32(u32_from_le_bytes(p)))
    } else if t == TYPE_I64 {
        Ok(Scalar::I64(#[verifier::truncate] (u64_from_le_bytes(p) as i64)))
    } else if t == TYPE_U64 {
        Ok(Scalar::U64(u64_from_le_bytes(p)))
    } else if t == TYPE_I128 {
        Ok(Scalar::I128(#[verifier::truncate] (u128_from_le_bytes(p) as i128)))
    } else {
        Ok(Scalar::U128(u128_from_le_bytes(p)))
    }
}

/// The canonical encoding of a string: its type id, its byte length as a
/// little-endian `u32`, then its UTF-8 bytes.
pub open spec fn encode_string_spec(cs: Seq<char>) -> Seq<u8> {
    seq![TYPE_STRING] + spec_u32_to_le_bytes(encode_utf8(cs).len() as u32) + encode_utf8(cs)
}

/// The string that `b` encodes, or why it encodes none.
pub open spec fn decode_string_spec(b: Seq<u8>) -> Result<Seq<char>, DecodeError> {
    if b.len() < 5 {
        Err(DecodeError::Underflow { required: 5, remaining: b.len() as usize })
    } else if b[0] != TYPE_STRING {
        Err(DecodeError::InvalidType { expected: TYPE_STRING, actual: b[0] })
    } else {
        let n = spec_u32_from_le_bytes(b.subrange(1, 5));
        let p = b.subrange(5, b.len() as int);
        if p.len() < n {
            Err(DecodeError::Underflow { required: n as usize, remaining: p.len() as usize })
        } else if p.len() > n {
            Err(DecodeError::NotAllBytesUsed((p.len() - n) as usize))
        } else if !valid_utf8(p) {
            Err(DecodeError::InvalidUtf8)
        } else {
            Ok(decode_utf8(p))
        }
    }
}

/// Decoding an encoded string gives it back.
pub proof fn lemma_string_round_trip(cs: Seq<char>)
    requires
        encode_utf8(cs).len() <= u32::MAX,
    ensures
        decode_string_spec(encode_string_spec(cs)) == Ok::<Seq<char>, DecodeError>(cs),
{
    lemma_auto_spec_u32_to_from_le_bytes();
    vstd::utf8::encode_utf8_valid_utf8(cs);
    vstd::utf8::encode_utf8_decode_utf8(cs);
    let e = encode_string_spec(cs);
    let len = spec_u32_to_le_bytes(encode_utf8(cs).len() as u32);
    assert(e.subrange(1, 5) =~= len);
    assert(e.subrange(5, e.len() as int) =~= encode_utf8(cs));
}

/// The string encoding is canonical: bytes that decode are exactly the
/// encoding of the string they decode to.
pub proof fn lemma_string_canonical(b: Seq<u8>)
    ensures
        decode_string_spec(b) is Ok ==> encode_string_spec(decode_string_spec(b)->Ok_0) == b,
{
    lemma_auto_spec_u32_to_from_le_bytes();
    if decode_string_spec(b) is Ok {
        let p = b.subrange(5, b.len() as int);
        vstd::utf8::decode_utf8_encode_utf8(p);
        assert(b =~= seq![b[0]] + b.subrange(1, 5) + p);
    }
}

/// Relies on `String::from_utf8`: it accepts exactly the byte strings that
/// are valid UTF-8, and the string it returns holds those bytes.
#[verifier::external_body]
fn string_from_utf8(b: Vec<u8>) -> (r: Option<String>)
    ensures
        match r {
            Some(s) => encode_utf8(s@) == b@,
            None => !valid_utf8(b@),
        },
{
    String::from_utf8(b).ok()
}

/// Encodes a string.
pub fn encode_string(s: &str) -> (r: Vec<u8>)
    requires
        encode_utf8(s@).len() <= u32::MAX,
    ensures
        r@ == encode_string_spec(s@),
{
    let bytes = s.as_bytes();
    let mut len = u32_to_le_bytes(bytes.len() as u32);
    let mut payload = vstd::slice::slice_to_vec(bytes);
    let ghost l = len@;
    let ghost pl = payload@;
    let mut out: Vec<u8> = vec![TYPE_STRING];
    out.append(&mut len);
    out.append(&mut payload);
    assert(out@ =~= seq![TYPE_STRING] + l + pl);
    out
}

/// Decodes a string, rejecting every byte string that is not the
/// canonical encoding of one.
pub fn decode_string(b: &[u8]) -> (r: Result<String, DecodeError>)
    ensures
        match decode_string_spec(b@) {
            Ok(cs) => r is Ok && r->Ok_0@ == cs,
            Err(e) => r is Err && r->Err_0 == e,
        },
{
    if b.len() < 5 {
        return Err(DecodeError::Underflow { required: 5, remaining: b.len() });
    }
    if b[0] != TYPE_STRING {
        return Err(DecodeError::InvalidType { expected: TYPE_STRING, actual: b[0] });
    }
    let n = u32_from_le_bytes(vstd::slice::slice_subrange(b, 1, 5)) as usize;
    let rest = b.len() - 5;
    if rest < n {
        return Err(DecodeError::Underflow { required: n, remaining: rest });
    }
    if rest > n {
        return Err(DecodeError::NotAllBytesUsed(rest - n));
    }
    let payload = vstd::slice::slice_to_vec(vstd::slice::slice_subrange(b, 5, b.len()));
    assert(payload@ == b@.subrange(5, b@.len() as int));
    match string_from_utf8(payload) {
        Some(s) => {
            proof {
                vstd::utf8::encode_utf8_decode_utf8(s@);
                vstd::utf8::encode_utf8_valid_utf8(s@);
            }
            Ok(s)
        },
        None => Err(DecodeError::InvalidUtf8),
    }
}

/// The encodings of `ss`, one after another.
pub open spec fn encode_elems(ss: Seq<Scalar>) -> Seq<u8>
    decreases ss.len(),
{
    if ss.len() == 0 {
        Seq::empty()
    } else {
        encode_spec(ss[0]) + encode_elems(ss.drop_first())
    }
}

/// The canonical encoding of a tuple of scalars: its type id, the number
/// of elements as a little-endian `u32`, then each element's encoding.
pub open spec fn encode_tuple_spec(ss: Seq<Scalar>) -> Seq<u8> {
    seq![TYPE_TUPLE] + spec_u32_to_le_bytes(ss.len() as u32) + encode_elems(ss)
}

/// The `n` scalars that `b` encodes one after another, using all of `b`.
pub open spec fn decode_elems(b: Seq<u8>, n: nat) -> Option<Seq<Scalar>>
    decreases n,
{
    if n == 0 {
        if b.len() == 0 {
            Some(Seq::empty())
        } else {
            None
        }
    } else if b.len() == 0 {
        None
    } else {
        match payload_len(b[0]) {
            None => None,
            Some(m) => if b.len() < 1 + m {
                None
            } else {
                match decode_spec(b.subrange(0, 1 + m as int)) {
                    Err(_) => None,
                    Ok(s) => match decode_elems(b.subrange(1 + m as int, b.len() as int), (n - 1) as nat) {
                        None => None,
                        Some(rest) => Some(seq![s] + rest),
                    },
                }
            },
        }
    }
}

/// The tuple of scalars that `b` encodes, if it is the canonical encoding
/// of one.
pub open spec fn decode_tuple_spec(b: Seq<u8>) -> Option<Seq<Scalar>> {
    if b.len() < 5 || b[0] != TYPE_TUPLE {
        None
    } else {
        decode_elems(b.subrange(5, b.len() as int), spec_u32_from_le_bytes(b.subrange(1, 5)) as nat)
    }
}

proof fn lemma_encode_shape(v: Scalar)
    ensures
        encode_spec(v).len() >= 1,
        payload_len(encode_spec(v)[0]) == Some((encode_spec(v).len() - 1) as nat),
{
    lemma_auto_spec_u16_to_from_le_bytes();
    lemma_auto_spec_u32_to_from_le_bytes();
    lemma_auto_spec_u64_to_from_le_bytes();
    lemma_auto_spec_u128_to_from_le_bytes();
}

proof fn lemma_elems_round_trip(ss: Seq<Scalar>)
    ensures
        decode_elems(encode_elems(ss), ss.len()) == Some(ss),
    decreases ss.len(),
{
    if ss.len() > 0 {
        let e = encode_spec(ss[0]);
        let rest = encode_elems(ss.drop_first());
        let b = e + rest;
        lemma_encode_shape(ss[0]);
        lemma_round_trip(ss[0]);
        lemma_elems_round_trip(ss.drop_first());
        assert(b[0] == e[0]);
        assert(b.subrange(0, e.len() as int) =~= e);
        assert(b.subrange(e.len() as int, b.len() as int) =~= rest);
        assert(seq![ss[0]] + ss.drop_first() =~= ss);
    }
}

proof fn lemma_elems_canonical(b: Seq<u8>, n: nat)
    ensures
        decode_elems(b, n) is Some ==> encode_elems(decode_elems(b, n)->0) == b,
    decreases n,
{
    if n > 0 && decode_elems(b, n) is Some {
        let m = payload_len(b[0])->0;
        let head = b.subrange(0, 1 + m as int);
        let tail = b.subrange(1 + m as int, b.len() as int);
        lemma_canonical(head);
        lemma_elems_canonical(tail, (n - 1) as nat);
        let ss = decode_elems(b, n)->0;
        assert(ss[0] == decode_spec(head)->Ok_0);
        assert(ss.drop_first() =~= decode_elems(tail, (n - 1) as nat)->0);
        assert(b =~= head + tail);
    }
}

/// Decoding an encoded tuple of scalars gives it back.
pub proof fn lemma_tuple_round_trip(ss: Seq<Scalar>)
    requires
        ss.len() <= u32::MAX,
    ensures
        decode_tuple_spec(encode_tuple_spec(ss)) == Some(ss),
{
    lemma_auto_spec_u32_to_from_le_bytes();
    lemma_elems_round_trip(ss);
    let e = encode_tuple_spec(ss);
    assert(e.subrange(1, 5) =~= spec_u32_to_le_bytes(ss.len() as u32));
    assert(e.subrange(5, e.len() as int) =~= encode_elems(ss));
}

/// The tuple encoding is canonical: bytes that decode are exactly the
/// encoding of the tuple they decode to.
pub proof fn lemma_tuple_canonical(b: Seq<u8>)
    ensures
        decode_tuple_spec(b) is Some ==> encode_tuple_spec(decode_tuple_spec(b)->0) == b,
{
    lemma_auto_spec_u32_to_from_le_bytes();
    if decode_tuple_spec(b) is Some {
        let n = spec_u32_from_le_bytes(b.subrange(1, 5));
        let body = b.subrange(5, b.len() as int);
        lemma_elems_canonical(body, n as nat);
        lemma_elems_count(body, n as nat);
        assert(b =~= seq![b[0]] + b.subrange(1, 5) + body);
    }
}

proof fn lemma_elems_count(b: Seq<u8>, n: nat)
    ensures
        decode_elems(b, n) is Some ==> decode_elems(b, n)->0.len() == n,
    decreases n,
{
    if n > 0 && b.len() > 0 {
        match payload_len(b[0]) {
            Some(m) => if b.len() >= 1 + m {
                lemma_elems_count(b.subrange(1 + m as int, b.len() as int), (n - 1) as nat);
            },
            None => {},
        }
    }
}

proof fn lemma_encode_elems_push(ss: Seq<Scalar>, x: Scalar)
    ensures
        encode_elems(ss.push(x)) == encode_elems(ss) + encode_spec(x),
    decreases ss.len(),
{
    if ss.len() == 0 {
        assert(ss.push(x).drop_first() =~= Seq::<Scalar>::empty());
        assert(encode_elems(Seq::<Scalar>::empty()) == Seq::<u8>::empty());
        assert(encode_spec(x) + Seq::<u8>::empty() =~= encode_spec(x));
        assert(Seq::<u8>::empty() + encode_spec(x) =~= encode_spec(x));
    } else {
        assert(ss.push(x).drop_first() =~= ss.drop_first().push(x));
        lemma_encode_elems_push(ss.drop_first(), x);
        assert(encode_spec(ss[0]) + (encode_elems(ss.drop_first()) + encode_spec(x)) =~= encode_spec(ss[0])
            + encode_elems(ss.drop_first()) + encode_spec(x));
    }
}

fn payload_len_of(t: u8) -> (r: Option<usize>)
    ensures
        match payload_len(t) {
            Some(n) => r == Some(n as usize),
            None => r is None,
        },
{
    if t == TYPE_UNIT {
        Some(0)
    } else if t == TYPE_BOOL || t == TYPE_I8 || t == TYPE_U8 {
        Some(1)
    } else if t == TYPE_I16 || t == TYPE_U16 {
        Some(2)
    } else if t == TYPE_I32 || t == TYPE_U32 {
        Some(4)
    } else if t == TYPE_I64 || t == TYPE_U64 {
        Some(8)
    } else if t == TYPE_I128 || t == TYPE_U128 {
        Some(16)
    } else {
        None
    }
}

/// Encodes a tuple of scalars.
pub fn encode_tuple(ss: &Vec<Scalar>) -> (r: Vec<u8>)
    requires
        ss@.len() <= u32::MAX,
    ensures
        r@ == encode_tuple_spec(ss@),
{
    let mut out: Vec<u8> = vec![TYPE_TUPLE];
    let mut count = u32_to_le_bytes(ss.len() as u32);
    out.append(&mut count);
    let ghost header = out@;
    assert(encode_elems(ss@.subrange(0, 0)) == Seq::<u8>::empty());
    assert(header + Seq::<u8>::empty() =~= header);
    let mut i: usize = 0;
    while i < ss.len()
        invariant
            0 <= i <= ss@.len(),
            header == seq![TYPE_TUPLE] + spec_u32_to_le_bytes(ss@.len() as u32),
            out@ == header + encode_elems(ss@.subrange(0, i as int)),
        decreases ss@.len() - i,
    {
        let mut e = encode(&ss[i]);
        let ghost ev = e@;
        out.append(&mut e);
        proof {
            assert(ss@.subrange(0, i + 1) =~= ss@.subrange(0, i as int).push(ss@[i as int]));
            lemma_encode_elems_push(ss@.subrange(0, i as int), ss@[i as int]);
            assert(out@ =~= header + encode_elems(ss@.subrange(0, i + 1)));
        }
        i = i + 1;
    }
    assert(ss@.subrange(0, i as int) =~= ss@);
    out
}

/// Decodes a tuple of scalars, rejecting every byte string that is not the
/// canonical encoding of one.
pub fn decode_tuple(b: &[u8]) -> (r: Result<Vec<Scalar>, DecodeError>)
    ensures
        match decode_tuple_spec(b@) {
            Some(ss) => r is Ok && r->Ok_0@ == ss,
            None => r is Err,
        },
{
    if b.len() < 5 {
        return Err(DecodeError::Underflow { required: 5, remaining: b.len() });
    }
    if b[0] != TYPE_TUPLE {
        return Err(DecodeError::InvalidType { expected: TYPE_TUPLE, actual: b[0] });
    }
    let n = u32_from_le_bytes(vstd::slice::slice_subrange(b, 1, 5));
    let ghost body = b@.subrange(5, b@.len() as int);
    assert(decode_tuple_spec(b@) == decode_elems(body, n as nat));
    let mut acc: Vec<Scalar> = Vec::new();
    let mut off: usize = 5;
    let mut i: u32 = 0;
    assert(b@.subrange(off as int, b@.len() as int) =~= body);
    assert(acc@ + Seq::<Scalar>::empty() =~= acc@);
    while i < n
        invariant
            5 <= off <= b@.len(),
            0 <= i <= n,
            body == b@.subrange(5, b@.len() as int),
            decode_tuple_spec(b@) == decode_elems(body, n as nat),
            decode_elems(body, n as nat) == match decode_elems(b@.subrange(off as int, b@.len() as int), (n - i) as nat) {
                Some(rest) => Some(acc@ + rest),
                None => None::<Seq<Scalar>>,
            },
        decreases n - i,
    {
        let ghost sub = b@.subrange(off as int, b@.len() as int);
        if off == b.len() {
            assert(decode_elems(sub, (n - i) as nat) is None);
            return Err(DecodeError::Underflow { required: 1, remaining: 0 });
        }
        let t = b[off];
        assert(sub[0] == t);
        let m = match payload_len_of(t) {
            Some(m) => m,
            None => {
                assert(decode_elems(sub, (n - i) as nat) is None);
                return Err(DecodeError::InvalidIndex(t));
            },
        };
        if b.len() - off < 1 + m {
            assert(decode_elems(sub, (n - i) as nat) is None);
            return Err(DecodeError::Underflow { required: 1 + m, remaining: b.len() - off });
        }
        let piece = vstd::slice::slice_subrange(b, off, off + 1 + m);
        assert(piece@ =~= sub.subrange(0, 1 + m as int));
        let v = match decode(piece) {
            Ok(v) => v,
            Err(e) => {
                assert(decode_elems(sub, (n - i) as nat) is None);
                return Err(e);
            },
        };
        assert(sub.subrange(1 + m as int, sub.len() as int) =~= b@.subrange(off + 1 + m, b@.len() as int));
        let ghost old_acc = acc@;
        acc.push(v);
        proof {
            let next = b@.subrange(off + 1 + m, b@.len() as int);
            match decode_elems(next, (n - i - 1) as nat) {
                Some(rest) => {
                    assert(old_acc + (seq![v] + rest) =~= acc@ + rest);
                },
                None => {},
            }
        }
        off = off + 1 + m;
        i = i + 1;
    }
    if off != b.len() {
        return Err(DecodeError::NotAllBytesUsed(b.len() - off));
    }
    assert(acc@ + Seq::<Scalar>::empty() =~= acc@);
    Ok(acc)
}

} // verus!

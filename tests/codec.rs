use radix_engine::codec::{decode, decode_string, decode_tuple, encode, encode_string, encode_tuple, Scalar};
use radix_engine::error::DecodeError;

#[test]
fn scalar_round_trip() {
    let values = vec![
        Scalar::Unit,
        Scalar::Bool(true),
        Scalar::Bool(false),
        Scalar::I8(-5),
        Scalar::I16(-300),
        Scalar::I32(i32::MIN),
        Scalar::I64(-1),
        Scalar::I128(i128::MAX),
        Scalar::U8(255),
        Scalar::U16(0x1234),
        Scalar::U32(7),
        Scalar::U64(u64::MAX),
        Scalar::U128(1u128 << 100),
    ];
    for v in values {
        let bytes = encode(&v);
        assert_eq!(decode(&bytes), Ok(v));
    }
}

#[test]
fn scalar_encoding_bytes() {
    assert_eq!(encode(&Scalar::Unit), vec![0x00]);
    assert_eq!(encode(&Scalar::Bool(true)), vec![0x01, 1]);
    assert_eq!(encode(&Scalar::U16(0x1234)), vec![0x08, 0x34, 0x12]);
    assert_eq!(encode(&Scalar::I16(-2)), vec![0x03, 0xfe, 0xff]);
    assert_eq!(encode(&Scalar::U32(1)), vec![0x09, 1, 0, 0, 0]);
}

#[test]
fn non_canonical_inputs_rejected() {
    assert_eq!(decode(&[]), Err(DecodeError::Underflow { required: 1, remaining: 0 }));
    assert_eq!(decode(&[0x01, 2]), Err(DecodeError::InvalidType { expected: 0x01, actual: 2 }));
    assert_eq!(decode(&[0x00, 0]), Err(DecodeError::NotAllBytesUsed(1)));
    assert_eq!(decode(&[0x09, 1, 0]), Err(DecodeError::Underflow { required: 4, remaining: 2 }));
    assert_eq!(decode(&[0x7f]), Err(DecodeError::InvalidIndex(0x7f)));
}

#[test]
fn string_round_trip() {
    let bytes = encode_string("héllo");
    assert_eq!(bytes, vec![0x0c, 6, 0, 0, 0, b'h', 0xc3, 0xa9, b'l', b'l', b'o']);
    assert_eq!(decode_string(&bytes).unwrap(), "héllo");
    assert_eq!(decode_string(&encode_string("")).unwrap(), "");
}

#[test]
fn string_decode_rejects_bad_input() {
    assert_eq!(decode_string(&[0x0c, 2, 0, 0, 0, 0xff, 0xfe]), Err(DecodeError::InvalidUtf8));
    assert_eq!(decode_string(&[0x0c, 3, 0, 0, 0, b'a']), Err(DecodeError::Underflow { required: 3, remaining: 1 }));
    assert_eq!(decode_string(&[0x0c, 0, 0, 0, 0, b'a']), Err(DecodeError::NotAllBytesUsed(1)));
    assert_eq!(decode_string(&[0x09, 0, 0, 0, 0]), Err(DecodeError::InvalidType { expected: 0x0c, actual: 0x09 }));
    assert_eq!(decode_string(&[0x0c]), Err(DecodeError::Underflow { required: 5, remaining: 1 }));
}

#[test]
fn tuple_round_trip() {
    let ss = vec![Scalar::U8(1), Scalar::Bool(true), Scalar::I32(-7), Scalar::Unit, Scalar::U128(9)];
    let bytes = encode_tuple(&ss);
    assert_eq!(&bytes[..7], &[0x21, 5, 0, 0, 0, 0x07, 1]);
    assert_eq!(decode_tuple(&bytes).unwrap(), ss);
    let empty: Vec<Scalar> = vec![];
    assert_eq!(encode_tuple(&empty), vec![0x21, 0, 0, 0, 0]);
    assert_eq!(decode_tuple(&encode_tuple(&empty)).unwrap(), empty);
}

#[test]
fn tuple_decode_rejects_bad_input() {
    assert!(decode_tuple(&[0x21, 1, 0, 0, 0]).is_err());
    assert!(decode_tuple(&[0x21, 0, 0, 0, 0, 0x00]).is_err());
    assert!(decode_tuple(&[0x21, 1, 0, 0, 0, 0x01, 7]).is_err());
    assert!(decode_tuple(&[0x21, 1, 0, 0, 0, 0x09, 1]).is_err());
    assert!(decode_tuple(&[0x09, 0, 0, 0, 0]).is_err());
}

use telemetry::parse::common::Duration;
use telemetry::parse::{Parse, ParserError};

#[test]
fn large_data() {
    let test_string = String::from_utf8(vec![b'a'; u16::MAX as usize + 1]).unwrap();
    let test_vec = vec![0i32; u16::MAX as usize + 1];
    let serialised = [
        test_string.serialise(),
        (&test_string[..]).serialise(),
        test_vec.serialise(),
        (&test_vec[..]).serialise(),
    ];

    assert_eq!(serialised.into_iter().filter(|v| v.is_err()).count(), 4)
}

#[test]
fn serialise_data() {
    let test_string = String::from_utf8(vec![b'a'; u16::MAX as usize]).unwrap();
    let test_vec = vec![0i32; u16::MAX as usize];
    let serialised = [
        test_string.serialise(),
        (&test_string[..]).serialise(),
        test_vec.serialise(),
        (&test_vec[..]).serialise(),
    ];

    assert_eq!(serialised.into_iter().filter(|v| v.is_ok()).count(), 4)
}

#[test]
fn fail_deserialise() {
    let test_string = String::from_utf8(vec![b'a'; u16::MAX as usize]).unwrap();
    let test_vec = vec![0i32; u16::MAX as usize];
    let serialised = [
        test_string.serialise().unwrap(),
        test_vec.serialise().unwrap(),
    ];

    let deserialised = (
        <&str>::deserialise(&serialised[0]),
        <String>::deserialise(&serialised[0]),
        <&[i32]>::deserialise(&serialised[1]),
        <Vec<i32>>::deserialise(&serialised[1]),
    );
    assert!(
        deserialised.0.is_err()
            && deserialised.1.unwrap() == (&[], test_string)
            && deserialised.2.is_err()
            && deserialised.3.unwrap() == (&[], test_vec)
    );
}

#[test]
fn too_large_reports_size() {
    let text = String::from_utf8(vec![b'a'; 65536]).unwrap();
    assert_eq!(text.serialise(), Err(ParserError::TooLarge(65536)));
    let items = vec![0u8; 65536];
    assert_eq!(items.serialise(), Err(ParserError::TooLarge(65536)));
    let nested = vec![String::new(), text];
    assert_eq!(nested.serialise(), Err(ParserError::TooLarge(65536)));
}

#[test]
fn integers_are_big_endian() {
    assert_eq!(0x0102_0304u32.serialise().unwrap(), vec![1, 2, 3, 4]);
    assert_eq!(0xabu8.serialise().unwrap(), vec![0xab]);
    assert_eq!(0x0102u16.serialise().unwrap(), vec![1, 2]);
    assert_eq!(1u64.serialise().unwrap(), vec![0, 0, 0, 0, 0, 0, 0, 1]);
    let mut wide = vec![0u8; 15];
    wide.push(7);
    assert_eq!(7u128.serialise().unwrap(), wide);
    assert_eq!((-2i32).serialise().unwrap(), vec![0xff, 0xff, 0xff, 0xfe]);
    assert_eq!(i8::MIN.serialise().unwrap(), vec![0x80]);
    assert_eq!((-1i16).serialise().unwrap(), vec![0xff, 0xff]);
    assert_eq!(i64::MIN.serialise().unwrap(), vec![0x80, 0, 0, 0, 0, 0, 0, 0]);
    assert_eq!((-1i128).serialise().unwrap(), vec![0xff; 16]);
}

#[test]
fn integers_decode_and_leave_the_rest() {
    let input = [1u8, 2, 3, 4, 9];
    assert_eq!(u32::deserialise(&input), Ok((&input[4..], 0x0102_0304u32)));
    assert_eq!(i32::deserialise(&[0xff, 0xff, 0xff, 0xfe]), Ok((&[][..], -2i32)));
    assert_eq!(i128::deserialise(&[0x80; 16]).unwrap().1, i128::from_be_bytes([0x80; 16]));
    assert_eq!(u64::deserialise(&u64::MAX.to_be_bytes()), Ok((&[][..], u64::MAX)));
    assert_eq!(i16::deserialise(&[0x80, 0x00]), Ok((&[][..], i16::MIN)));
    assert_eq!(i8::deserialise(&[0x7f]), Ok((&[][..], i8::MAX)));
}

#[test]
fn integers_report_missing_bytes() {
    assert_eq!(u32::deserialise(&[1, 2, 3]), Err(ParserError::Incomplete(1)));
    assert_eq!(u64::deserialise(&[]), Err(ParserError::Incomplete(8)));
    assert_eq!(u8::deserialise(&[]), Err(ParserError::Incomplete(1)));
}

#[test]
fn text_layout() {
    assert_eq!("ab".to_string().serialise().unwrap(), vec![0, 2, b'a', b'b']);
    assert_eq!("é".serialise().unwrap(), vec![0, 2, 0xc3, 0xa9]);
    assert_eq!(String::new().serialise().unwrap(), vec![0, 0]);
}

#[test]
fn text_decoding() {
    assert_eq!(
        String::deserialise(&[0, 2, 0xc3, 0xa9, 7]),
        Ok((&[7u8][..], "é".to_string()))
    );
    assert_eq!(String::deserialise(&[0, 2, 0xc3, 0x28]), Err(ParserError::InvalidUtf8));
    assert_eq!(String::deserialise(&[0, 3, b'a']), Err(ParserError::Incomplete(2)));
    assert_eq!(String::deserialise(&[0]), Err(ParserError::Incomplete(1)));
}

#[test]
fn borrowed_types_refuse_decoding() {
    assert_eq!(<&str>::deserialise(&[0, 0]), Err(ParserError::DeserialiseOnBorrowedType));
    assert_eq!(<&str>::deserialise(&[]), Err(ParserError::DeserialiseOnBorrowedType));
    assert_eq!(<&[u8]>::deserialise(&[0, 0]), Err(ParserError::DeserialiseOnBorrowedType));
}

#[test]
fn sequence_layout_and_decoding() {
    let items = vec![1u16, 2, 0x0304];
    let bytes = items.serialise().unwrap();
    assert_eq!(bytes, vec![0, 3, 0, 1, 0, 2, 3, 4]);
    assert_eq!((&items[..]).serialise().unwrap(), bytes);
    assert_eq!(Vec::<u16>::deserialise(&bytes), Ok((&[][..], items)));
    assert_eq!(Vec::<u16>::deserialise(&bytes[..7]), Err(ParserError::Incomplete(1)));
    assert_eq!(Vec::<String>::deserialise(&[0, 1, 0, 1, 0xff]), Err(ParserError::InvalidUtf8));
}

#[test]
fn duration_layout() {
    let d = Duration::new(0x0102, 0x0304);
    let bytes = d.serialise().unwrap();
    assert_eq!(bytes, vec![0, 0, 0, 0, 0, 0, 1, 2, 0, 0, 3, 4]);
    assert_eq!(Duration::deserialise(&bytes), Ok((&[][..], d)));
    assert_eq!(d.as_secs(), 0x0102);
    assert_eq!(d.subsec_nanos(), 0x0304);
    assert_eq!(Duration::deserialise(&bytes[..11]), Err(ParserError::Incomplete(1)));
}

#[test]
fn pairs_concatenate() {
    let pair = (7u8, "x".to_string());
    let bytes = pair.serialise().unwrap();
    assert_eq!(bytes, vec![7, 0, 1, b'x']);
    assert_eq!(<(u8, String)>::deserialise(&bytes), Ok((&[][..], pair)));
}

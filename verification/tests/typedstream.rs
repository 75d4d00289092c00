use imessage_database::error::typedstream::TypedStreamError;
use imessage_database::util::typedstream::models::{Archivable, Class, OutputData, StoredFloat, Type};
use imessage_database::util::typedstream::parser::TypedStreamReader;

/// The header macOS and iOS write: version 4, `streamtyped`, system version 1000.
fn header() -> Vec<u8> {
    let mut bytes = vec![0x04, 0x0b];
    bytes.extend_from_slice(b"streamtyped");
    bytes.extend_from_slice(&[0x81, 0xe8, 0x03]);
    bytes
}

/// A stream holding one `NSString` with the given text.
fn nsstring_stream(text: &str) -> Vec<u8> {
    let mut bytes = header();
    bytes.extend_from_slice(&[0x84, 0x01, 0x40, 0x84, 0x84, 0x84, 0x08]);
    bytes.extend_from_slice(b"NSString");
    bytes.extend_from_slice(&[0x01, 0x84, 0x84, 0x08]);
    bytes.extend_from_slice(b"NSObject");
    bytes.extend_from_slice(&[0x00, 0x85, 0x84, 0x01, 0x2b, text.len() as u8]);
    bytes.extend_from_slice(text.as_bytes());
    bytes.push(0x86);
    bytes
}

#[test]
fn can_get_array_good() {
    let items: Vec<u8> = vec![0x5b, 0x39, 0x30, 0x34, 0x63, 0x5d];

    let expected = vec![Type::Array(904)];
    let result = Type::get_array_length(&items).unwrap();

    assert_eq!(result, expected)
}

#[test]
fn cant_get_array_bad() {
    let items: Vec<u8> = vec![0x39, 0x30, 0x34, 0x63, 0x5d];

    let result = Type::get_array_length(&items);

    assert!(result.is_none())
}

#[test]
fn cant_get_array_without_digits() {
    let items: Vec<u8> = vec![0x5b, 0x63, 0x5d];
    assert!(Type::get_array_length(&items).is_none());
}

#[test]
fn array_length_wraps_like_u32() {
    // 4294967297 is 2^32 + 1
    let mut items: Vec<u8> = vec![0x5b];
    items.extend_from_slice(b"4294967297");
    items.push(0x5d);
    assert_eq!(Type::get_array_length(&items).unwrap(), vec![Type::Array(1)]);
}

#[test]
fn can_validate_header() {
    let bytes = header();
    let mut parser = TypedStreamReader::from(&bytes);
    assert!(parser.validate_header().is_ok());
}

#[test]
fn cant_validate_bad_header() {
    let mut bytes = header();
    bytes[0] = 0x03;
    let mut parser = TypedStreamReader::from(&bytes);
    assert!(matches!(parser.validate_header(), Err(TypedStreamError::InvalidHeader)));
}

#[test]
fn cant_parse_empty() {
    let bytes: Vec<u8> = vec![];
    let mut parser = TypedStreamReader::from(&bytes);
    assert!(matches!(parser.parse(), Err(TypedStreamError::OutOfBounds(0, 0))));
}

#[test]
fn can_parse_nsstring() {
    let bytes = nsstring_stream("Hello");
    let mut parser = TypedStreamReader::from(&bytes);
    let result = parser.parse().unwrap();
    assert_eq!(
        result,
        vec![Archivable::Object(
            Class {
                name: "NSString".to_string(),
                version: 1
            },
            vec![OutputData::String("Hello".to_string())]
        )]
    );
    assert_eq!(result[0].deserialize_as_nsstring(), Some("Hello"));
}

#[test]
fn can_parse_integers_and_floats() {
    let mut bytes = header();
    // types "iIfd": signed, unsigned, float, double
    bytes.extend_from_slice(&[0x84, 0x04, 0x69, 0x49, 0x66, 0x64]);
    // signed -2 as i16, unsigned 300 as u16, float stored as raw bits, then a double stored
    // as an integer: one byte is skipped before the integer 7
    bytes.extend_from_slice(&[
        0x81, 0xfe, 0xff, 0x81, 0x2c, 0x01, 0x83, 0x00, 0x00, 0x80, 0x3f, 0x00, 0x07,
    ]);
    let mut parser = TypedStreamReader::from(&bytes);
    let result = parser.parse().unwrap();
    assert_eq!(
        result,
        vec![Archivable::Data(vec![
            OutputData::SignedInteger(-2),
            OutputData::UnsignedInteger(300),
            OutputData::Float(StoredFloat::Bits(0x3f80_0000)),
            OutputData::Double(StoredFloat::Integer(7)),
        ])]
    );
}

#[test]
fn bad_utf8_is_an_error() {
    let mut bytes = header();
    bytes.extend_from_slice(&[0x84, 0x01, 0x2b, 0x01, 0xff]);
    let mut parser = TypedStreamReader::from(&bytes);
    // The failing read is skipped; nothing parses
    assert_eq!(parser.parse().unwrap(), vec![]);
}

#[test]
fn deserialize_as_nsstring_rejects_other_classes() {
    let nsstring = Archivable::Object(
        Class {
            name: "NSString".to_string(),
            version: 1,
        },
        vec![OutputData::String("Hello world".to_string())],
    );
    assert_eq!(nsstring.deserialize_as_nsstring(), Some("Hello world"));

    let not_nsstring = Archivable::Object(
        Class {
            name: "NSNumber".to_string(),
            version: 1,
        },
        vec![OutputData::SignedInteger(100)],
    );
    assert_eq!(not_nsstring.deserialize_as_nsstring(), None);
}

#[test]
fn parse_drops_data_that_runs_past_the_end() {
    let mut bytes = header();
    bytes.extend_from_slice(&[0x84, 0x01, 0x64]);
    // a double stored as an integer needs a byte before the integer: here there is none
    bytes.extend_from_slice(&[0x07]);
    let mut parser = TypedStreamReader::from(&bytes);
    assert_eq!(parser.parse().unwrap(), vec![]);
}

#[test]
fn header_only_stream_parses_to_nothing() {
    let bytes = header();
    let mut parser = TypedStreamReader::from(&bytes);
    assert_eq!(parser.parse().unwrap(), vec![]);
}

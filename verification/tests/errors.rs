use imessage_database::error::handwriting::HandwritingError;
use imessage_database::error::streamtyped::StreamTypedError;
use imessage_database::error::typedstream::TypedStreamError;

#[test]
fn typedstream_error_messages() {
    assert_eq!(
        TypedStreamError::OutOfBounds(255, 16).message(),
        "Index ff is outside of range 10!"
    );
    assert_eq!(TypedStreamError::InvalidHeader.message(), "Invalid typedstream header!");
    assert_eq!(TypedStreamError::InvalidArray.message(), "Failed to parse array data");
    assert_eq!(TypedStreamError::InvalidPointer(7).message(), "Failed to parse pointer: 7");
    let bytes: &[u8] = &[0xff];
    let utf8 = std::str::from_utf8(bytes).unwrap_err();
    assert_eq!(
        TypedStreamError::StringParseError(utf8).message(),
        format!("Failed to parse string: {utf8}")
    );
}

#[test]
fn streamtyped_error_messages() {
    assert_eq!(StreamTypedError::NoStartPattern.message(), "No start pattern found!");
    assert_eq!(StreamTypedError::NoEndPattern.message(), "No end pattern found!");
    assert_eq!(StreamTypedError::InvalidPrefix.message(), "Prefix length is not standard!");
    assert_eq!(StreamTypedError::InvalidTimestamp.message(), "Timestamp integer is not valid!");
}

#[test]
fn handwriting_error_messages() {
    assert_eq!(HandwritingError::InvalidFrameSize(3).message(), "expected size 8, got 3");
    assert_eq!(HandwritingError::CompressionUnknown.message(), "compress method unknown");
    assert_eq!(
        HandwritingError::InvalidStrokesLength(3, 2).message(),
        "can't access index 3 on array length 2"
    );
    assert_eq!(HandwritingError::ConversionError.message(), "failed to convert num");
    assert_eq!(
        HandwritingError::DecompressedNotSet.message(),
        "decompressed length not set on compressed message"
    );
    assert_eq!(
        HandwritingError::InvalidDecompressedLength(10, 12).message(),
        "expected decompressed length of 10, got 12"
    );
    let xz = lzma_rs::error::Error::XzError("bad".to_string());
    assert_eq!(
        HandwritingError::XZError(xz).message(),
        "failed to decompress xz: xz error: bad"
    );
}

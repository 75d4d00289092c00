use imessage_database::util::attributed_string::StreamTypedReader;

fn with_header(body: &[u8]) -> Vec<u8> {
    let mut bytes = vec![0u8; 16];
    bytes.extend_from_slice(body);
    bytes
}

#[test]
fn attributed_string_reads_new_and_referenced_strings() {
    let mut body = vec![0x84, 0x01, 0x2B, 0x05];
    body.extend_from_slice(b"hello");
    body.push(0x86);
    body.extend_from_slice(&[0x92, 0x02]);
    body.extend_from_slice(b"hi");
    body.push(0x86);
    let bytes = with_header(&body);
    let mut reader = StreamTypedReader::new(&bytes);
    assert_eq!(reader.parse(), vec!["hello".to_string(), "hi".to_string()]);
}

#[test]
fn attributed_string_reads_integers() {
    let bytes = with_header(&[0x84, 0x02, 0x49, 0x69, 0x07, 0xFF, 0x86]);
    let mut reader = StreamTypedReader::new(&bytes);
    assert_eq!(reader.parse(), vec!["Signed: 7 Unsigned: 255 ".to_string()]);
}

#[test]
fn attributed_string_reads_null_terminated_string() {
    let bytes = with_header(&[0x84, 0x01, 0x2A, b'o', b'k', 0xE9, 0x00, 0x86]);
    let mut reader = StreamTypedReader::new(&bytes);
    assert_eq!(reader.parse(), vec!["ok\u{e9}".to_string()]);
}

#[test]
fn attributed_string_renders_object_classes() {
    let mut body = vec![0x84, 0x01, 0x40, 0x08];
    body.extend_from_slice(b"NSObject");
    body.extend_from_slice(&[0x00, 0x86, 0x86]);
    let bytes = with_header(&body);
    let mut reader = StreamTypedReader::new(&bytes);
    assert_eq!(
        reader.parse(),
        vec!["[Class { name: \"NSObject\", version: 0 }]".to_string()]
    );
}

#[test]
fn attributed_string_reads_ns_string_data() {
    let mut body = vec![0x84, 0x01, 0x40, 0x08];
    body.extend_from_slice(b"NSString");
    body.extend_from_slice(&[0x01, 0x95, 0x84, 0x01, 0x2B, 0x02]);
    body.extend_from_slice(b"hi");
    body.push(0x86);
    let bytes = with_header(&body);
    let mut reader = StreamTypedReader::new(&bytes);
    assert_eq!(
        reader.parse(),
        vec!["[Class { name: \"NSString\", version: 1 }]: hi".to_string()]
    );
}

#[test]
fn attributed_string_header_only_reads_nothing() {
    let bytes = with_header(&[]);
    let mut reader = StreamTypedReader::new(&bytes);
    assert_eq!(reader.parse(), Vec::<String>::new());
}

use grpc_php_rs::error::ExceptionClass;
use grpc_php_rs::metadata::{
    collect_metadata, group_values, header_key_is_legal, is_reserved_header, metadata_to_php,
    parse_metadata, parse_send_metadata,
};
use grpc_php_rs::status::{checked_status_metadata, status_metadata_fits, status_metadata_for_php};
use grpc_php_rs::value::{array_key_to_string, display_key, get, ArrayKey, PhpValue};
use tonic::metadata::{AsciiMetadataValue, BinaryMetadataValue, MetadataKey, MetadataMap};

fn text(s: &str) -> PhpValue {
    PhpValue::Str(s.as_bytes().to_vec())
}

fn key(s: &str) -> ArrayKey {
    ArrayKey::String(s.to_string())
}

fn list(values: Vec<PhpValue>) -> PhpValue {
    PhpValue::Array(
        values.into_iter().enumerate().map(|(i, v)| (ArrayKey::Long(i as i64), v)).collect(),
    )
}

fn pair(k: &str, v: &str) -> (String, String) {
    (k.to_string(), v.to_string())
}

/// ASCII metadata is surfaced as raw bytes, grouped by key with insertion
/// order preserved per key.
#[test]
fn ascii_metadata_is_collected() {
    let mut map = MetadataMap::new();
    map.insert("foo", AsciiMetadataValue::from_static("bar"));
    map.append("foo", AsciiMetadataValue::from_static("baz"));
    map.insert("other", AsciiMetadataValue::from_static("qux"));

    let collected = collect_metadata(&map);

    let foo = collected.iter().find(|(k, _)| k == "foo");
    assert!(foo.is_some(), "foo key present");
    if let Some((_, values)) = foo {
        assert_eq!(values, &vec![b"bar".to_vec(), b"baz".to_vec()]);
    }

    let other = collected.iter().find(|(k, _)| k == "other");
    assert!(other.is_some(), "other key present");
    if let Some((_, values)) = other {
        assert_eq!(values, &vec![b"qux".to_vec()]);
    }
}

/// Binary metadata is surfaced as the decoded raw payload.
#[test]
fn binary_metadata_is_surfaced_as_decoded_bytes() {
    let payload: &[u8] = b"\x00\x01\x02\xff\xfehello\x00world";

    let mut map = MetadataMap::new();
    let key: Result<MetadataKey<tonic::metadata::Binary>, _> = "x-custom-bin".parse();
    assert!(key.is_ok(), "binary metadata key must parse");
    if let Ok(k) = key {
        map.insert_bin(k, BinaryMetadataValue::from_bytes(payload));
    }

    let collected = collect_metadata(&map);

    let entry = collected.iter().find(|(k, _)| k == "x-custom-bin");
    assert!(entry.is_some(), "binary key present in collected output");
    if let Some((_, values)) = entry {
        assert_eq!(values.len(), 1, "single value expected");
        if let Some(first) = values.first() {
            assert_eq!(
                first.as_slice(),
                payload,
                "binary value must be the decoded raw bytes, not the base64 wire form"
            );
        }
    }
}

/// ASCII and binary entries coexist.
#[test]
fn mixed_ascii_and_binary_are_both_present() {
    let mut map = MetadataMap::new();
    map.insert("content-type", AsciiMetadataValue::from_static("application/grpc"));
    let key: Result<MetadataKey<tonic::metadata::Binary>, _> = "grpc-status-details-bin".parse();
    assert!(key.is_ok());
    let payload: &[u8] = b"\x08\x05\x12\x00";
    if let Ok(k) = key {
        map.insert_bin(k, BinaryMetadataValue::from_bytes(payload));
    }

    let collected = collect_metadata(&map);

    assert_eq!(collected.len(), 2);
    assert!(collected
        .iter()
        .any(|(k, v)| k == "content-type" && v == &vec![b"application/grpc".to_vec()]));
    assert!(collected
        .iter()
        .any(|(k, v)| k == "grpc-status-details-bin" && v == &vec![payload.to_vec()]));
}

/// The details of a status are put back into its metadata.
#[test]
fn status_details_bin_is_reinjected_after_tonic_parses_headers() {
    let payload: &[u8] = b"\x08\x0d\x12\x0brich status";
    let mut header_map = http::HeaderMap::new();
    header_map.insert("grpc-status", http::HeaderValue::from_static("13"));
    header_map.insert("grpc-message", http::HeaderValue::from_static("test%20error"));
    header_map.insert(
        "grpc-status-details-bin",
        http::HeaderValue::from_static("CA0SC3JpY2ggc3RhdHVz"),
    );

    assert!(
        header_map.contains_key("grpc-status-details-bin"),
        "the wire header uses tonic's reserved key"
    );
    let status = tonic::Status::from_header_map(&header_map);
    assert!(status.is_some(), "tonic must parse a status header map");
    let Some(status) = status else {
        return;
    };
    assert_eq!(status.details(), payload);
    assert!(
        status.metadata().get_bin("grpc-status-details-bin").is_none(),
        "tonic removes its reserved header from Status metadata"
    );

    assert!(status_metadata_fits(&status));
    let collected = collect_metadata(&status_metadata_for_php(&status));
    assert!(
        collected.iter().any(|(key, values)| {
            key == "grpc-status-details-bin" && values == &vec![payload.to_vec()]
        }),
        "PHP trailing metadata receives the decoded rich-status payload"
    );
}

#[test]
fn empty_metadata_produces_empty_entries() {
    let map = MetadataMap::new();
    let collected = collect_metadata(&map);
    assert!(collected.is_empty());
}

#[test]
fn keys_come_in_the_order_they_are_first_seen() {
    let mut map = MetadataMap::new();
    map.insert("b", AsciiMetadataValue::from_static("1"));
    map.insert("a", AsciiMetadataValue::from_static("2"));
    map.append("b", AsciiMetadataValue::from_static("3"));
    let collected = collect_metadata(&map);
    assert_eq!(
        collected,
        vec![
            ("b".to_string(), vec![b"1".to_vec(), b"3".to_vec()]),
            ("a".to_string(), vec![b"2".to_vec()]),
        ]
    );
}

#[test]
fn values_that_cannot_be_read_are_left_out() {
    let mut headers = http::HeaderMap::new();
    headers.insert("bad-bin", http::HeaderValue::from_static("%%%"));
    headers.insert("latin", http::HeaderValue::from_bytes(b"caf\xe9").unwrap());
    headers.insert("good", http::HeaderValue::from_static("yes"));
    let collected = collect_metadata(&MetadataMap::from_headers(headers));
    assert_eq!(collected, vec![("good".to_string(), vec![b"yes".to_vec()])]);
}

#[test]
fn readings_are_gathered_by_key() {
    let grouped = group_values(vec![
        ("k".to_string(), Some(b"1".to_vec())),
        ("gone".to_string(), None),
        ("l".to_string(), Some(b"2".to_vec())),
        ("k".to_string(), Some(b"3".to_vec())),
    ]);
    assert_eq!(
        grouped,
        vec![
            ("k".to_string(), vec![b"1".to_vec(), b"3".to_vec()]),
            ("l".to_string(), vec![b"2".to_vec()]),
        ]
    );
}

#[test]
fn reserved_headers_are_not_shown() {
    let mut map = MetadataMap::new();
    for name in ["content-type", "grpc-status", "grpc-message", "grpc-encoding"] {
        map.insert(name, AsciiMetadataValue::from_static("x"));
    }
    map.insert("grpc-accept-encoding", AsciiMetadataValue::from_static("gzip"));
    map.insert("x-mine", AsciiMetadataValue::from_static("y"));
    assert_eq!(metadata_to_php(&map), vec![("x-mine".to_string(), vec![b"y".to_vec()])]);
    assert!(is_reserved_header("grpc-accept-encoding"));
    assert!(!is_reserved_header("grpc-status-details-bin"));
}

#[test]
fn a_status_without_details_keeps_its_metadata() {
    let mut map = MetadataMap::new();
    map.insert("retry", AsciiMetadataValue::from_static("no"));
    let status = tonic::Status::with_metadata(tonic::Code::Internal, "broken", map);
    let metadata = checked_status_metadata(&status);
    assert!(metadata.is_some());
    if let Some(metadata) = metadata {
        assert_eq!(
            collect_metadata(&metadata),
            vec![("retry".to_string(), vec![b"no".to_vec()])]
        );
    }
}

#[test]
fn a_status_with_too_many_keys_does_not_fit() {
    let mut map = MetadataMap::new();
    for i in 0..6554 {
        let name: MetadataKey<tonic::metadata::Ascii> =
            MetadataKey::from_bytes(format!("k{i}").as_bytes()).unwrap();
        map.insert(name, AsciiMetadataValue::from_static("v"));
    }
    let status = tonic::Status::with_metadata(tonic::Code::Internal, "broken", map);
    assert!(!status_metadata_fits(&status));
    assert!(checked_status_metadata(&status).is_none());
}

#[test]
fn legal_keys_are_lower_case_header_names() {
    assert!(header_key_is_legal("x-a_1.z"));
    assert!(!header_key_is_legal(""));
    assert!(!header_key_is_legal("X-Upper"));
    assert!(!header_key_is_legal("sp ace"));
    assert!(!header_key_is_legal("caf\u{e9}"));
}

#[test]
fn send_metadata_is_a_list_of_strings_under_each_key() {
    let entries = vec![
        (key("a"), list(vec![text("1"), text("2")])),
        (ArrayKey::ZendString(b"b".to_vec()), list(vec![PhpValue::Str(b"caf\xe9".to_vec())])),
        (key("empty"), list(vec![])),
    ];
    let parsed = parse_send_metadata(&entries);
    assert!(parsed.is_ok());
    if let Ok(parsed) = parsed {
        assert_eq!(parsed, vec![pair("a", "1"), pair("a", "2"), pair("b", "caf\u{fffd}")]);
    }
}

#[test]
fn send_metadata_of_any_other_shape_is_an_argument_error() {
    let bad = vec![
        vec![(ArrayKey::Long(0), list(vec![text("1")]))],
        vec![(key("Upper"), list(vec![text("1")]))],
        vec![(key("a"), text("1"))],
        vec![(key("a"), list(vec![PhpValue::Long(1)]))],
        vec![(key("ok"), list(vec![text("1")])), (key(""), list(vec![]))],
        vec![(ArrayKey::ZendString(vec![0xff]), list(vec![]))],
    ];
    for entries in bad {
        let parsed = parse_send_metadata(&entries);
        assert!(parsed.is_err());
        if let Err(e) = parsed {
            assert_eq!(e.class, ExceptionClass::InvalidArgumentException);
            assert_eq!(e.message, "Bad metadata value given");
            assert_eq!(e.code, 1);
        }
    }
}

#[test]
fn plugin_metadata_of_another_shape_is_passed_over() {
    let entries = vec![
        (key("authorization"), text("Bearer x")),
        (key("Many"), list(vec![text("1"), PhpValue::Long(2), PhpValue::Str(vec![0xff]), text("3")])),
        (ArrayKey::Long(7), text("lost")),
        (key("number"), PhpValue::Long(9)),
    ];
    assert_eq!(
        parse_metadata(&entries),
        vec![pair("authorization", "Bearer x"), pair("Many", "1"), pair("Many", "3")]
    );
}

#[test]
fn array_keys_as_text() {
    assert_eq!(array_key_to_string(&ArrayKey::Long(1)), None);
    assert_eq!(array_key_to_string(&key("k")), Some("k".to_string()));
    assert_eq!(array_key_to_string(&ArrayKey::ZendString(b"z".to_vec())), Some("z".to_string()));
    assert_eq!(array_key_to_string(&ArrayKey::ZendString(vec![0xff])), None);
    assert_eq!(display_key(&ArrayKey::ZendString(vec![0xff])), Some("\u{fffd}".to_string()));
    assert_eq!(display_key(&ArrayKey::Long(1)), None);
}

#[test]
fn a_key_is_looked_up_by_its_bytes() {
    let entries = vec![
        (ArrayKey::Long(0), PhpValue::Long(1)),
        (ArrayKey::ZendString(b"k".to_vec()), PhpValue::Long(2)),
        (key("k"), PhpValue::Long(3)),
    ];
    assert_eq!(get(&entries, "k").and_then(|v| v.long()), Some(2));
    assert!(get(&entries, "l").is_none());
}

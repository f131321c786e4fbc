use bytes::Bytes;
use grpc_php_rs::error::GrpcError;
use grpc_php_rs::metadata::collect_metadata;
use grpc_php_rs::request::{
    build_request, checked_path, method_path, request_metadata_fits, request_timeout_fits,
};
use grpc_php_rs::status::{
    deadline_already_expired, deadline_already_expired_at, reported_status, status_to_php,
    status_to_php_at,
};

fn pair(k: &str, v: &str) -> (String, String) {
    (k.to_string(), v.to_string())
}

fn timeout_of(deadline: i64, now: i64) -> Option<String> {
    let request = build_request(&vec![], &vec![], Bytes::new(), deadline, now);
    request.metadata().get("grpc-timeout").map(|v| v.to_str().unwrap().to_string())
}

#[test]
fn a_request_has_its_message_and_metadata() {
    let send = vec![pair("a", "1"), pair("B", "2"), pair("a", "3")];
    let request = build_request(&send, &vec![], Bytes::from_static(b"\x00body"), 0, 0);
    assert_eq!(request.get_ref().as_ref(), b"\x00body");
    assert_eq!(request.metadata().len(), 2);
    assert_eq!(request.metadata().get("a").unwrap(), "3");
    assert_eq!(request.metadata().get("b").unwrap(), "2");
    assert!(request.metadata().get("grpc-timeout").is_none());
}

#[test]
fn the_plugin_wins() {
    let send = vec![pair("authorization", "call"), pair("x", "kept")];
    let plugin = vec![pair("authorization", "plugin")];
    let request = build_request(&send, &plugin, Bytes::new(), 0, 0);
    assert_eq!(request.metadata().get("authorization").unwrap(), "plugin");
    assert_eq!(request.metadata().get("x").unwrap(), "kept");
}

#[test]
fn pairs_that_cannot_stand_in_a_header_are_left_out() {
    let send = vec![
        pair("sp ace", "1"),
        pair("data-bin", "1"),
        pair("", "1"),
        pair("line", "a\nb"),
        pair("good", "caf\u{e9}\t"),
    ];
    let request = build_request(&send, &vec![], Bytes::new(), 0, 0);
    assert_eq!(request.metadata().len(), 1);
    assert_eq!(
        request.metadata().get("good").unwrap().as_encoded_bytes(),
        "caf\u{e9}\t".as_bytes()
    );
}

#[test]
fn the_timeout_is_what_is_left() {
    assert_eq!(timeout_of(1_000, 1_000 - 500), Some("500000n".to_string()));
    assert_eq!(timeout_of(2_000_000, 1_000_000), Some("1000000u".to_string()));
    assert_eq!(timeout_of(300_000_000, 0), Some("300000m".to_string()));
    assert_eq!(timeout_of(200_000_000_000, 0), Some("200000S".to_string()));
    assert_eq!(timeout_of(200_000_000_000_000, 0), Some("3333333M".to_string()));
    assert_eq!(timeout_of(7_200_000_000_000_000, 0), Some("2000000H".to_string()));
}

#[test]
fn a_passed_deadline_leaves_a_minimal_timeout() {
    assert_eq!(timeout_of(1_000, 5_000), Some("1000n".to_string()));
}

#[test]
fn no_deadline_sets_no_timeout() {
    assert_eq!(timeout_of(0, 5), None);
    assert_eq!(timeout_of(-7, 5), None);
    assert_eq!(timeout_of(i64::MAX, 5), None);
}

#[test]
fn requests_that_do_not_fit() {
    let few: Vec<(String, String)> = (0..6553).map(|i| pair(&format!("k{i}"), "v")).collect();
    let many: Vec<(String, String)> = (0..6554).map(|i| pair(&format!("k{i}"), "v")).collect();
    let same: Vec<(String, String)> = (0..7000).map(|_| pair("k", "v")).collect();
    assert!(request_metadata_fits(&few, &vec![]));
    assert!(!request_metadata_fits(&many, &vec![]));
    assert!(!request_metadata_fits(&few, &vec![pair("more", "v")]));
    assert!(request_metadata_fits(&same, &vec![]));
    assert!(request_timeout_fits(i64::MAX - 1, i64::MAX - 2));
    assert!(!request_timeout_fits(i64::MAX - 1, 0));
    assert!(request_timeout_fits(i64::MAX, 0));
    assert!(request_timeout_fits(359_999_999_999_999_999, 0));
    assert!(!request_timeout_fits(360_000_000_000_000_000, 0));
}

#[test]
fn the_longest_timeout_can_be_written() {
    assert_eq!(timeout_of(359_999_999_999_999_999, 0), Some("99999999H".to_string()));
}

#[test]
fn method_paths() {
    let path = method_path("/pkg.Service/Method").unwrap();
    assert_eq!(path.as_str(), "/pkg.Service/Method");
    let e = method_path("/bad path").unwrap_err();
    assert!(matches!(&e, GrpcError::InvalidArg(_)));
    assert!(e.to_string().starts_with("invalid argument: invalid method path: "));
    let e = checked_path(Err("why".to_string())).unwrap_err();
    assert_eq!(e.to_string(), "invalid argument: invalid method path: why");
}

#[test]
fn only_real_deadlines_expire() {
    assert!(deadline_already_expired_at(5, 5));
    assert!(deadline_already_expired_at(5, 6));
    assert!(!deadline_already_expired_at(5, 4));
    assert!(!deadline_already_expired_at(0, 4));
    assert!(!deadline_already_expired_at(-1, 4));
    assert!(!deadline_already_expired_at(i64::MAX, i64::MAX));
    assert!(deadline_already_expired(1));
    assert!(!deadline_already_expired(i64::MAX - 1));
}

#[test]
fn a_cancellation_after_the_deadline_is_the_deadline() {
    let status = tonic::Status::cancelled("Timeout expired");
    assert_eq!(status_to_php_at(&status, 10, 10), (4, "Deadline Exceeded".to_string()));
    assert_eq!(status_to_php_at(&status, 10, 9), (1, "Timeout expired".to_string()));
    assert_eq!(status_to_php_at(&status, i64::MAX, i64::MAX), (1, "Timeout expired".to_string()));
    assert_eq!(status_to_php(&status, 1), (4, "Deadline Exceeded".to_string()));
    assert_eq!(reported_status(1, "x", 0, 9), (1, "x".to_string()));
}

#[test]
fn other_statuses_are_reported_as_they_are() {
    let status = tonic::Status::unavailable("down");
    assert_eq!(status_to_php_at(&status, 10, 20), (14, "down".to_string()));
    assert_eq!(status_to_php(&status, 0), (14, "down".to_string()));
}

#[test]
fn sent_metadata_is_read_back() {
    let send = vec![pair("x-mine", "first"), pair("x-mine", "last"), pair("other", "1")];
    let request = build_request(&send, &vec![pair("other", "2")], Bytes::new(), 0, 0);
    assert_eq!(
        collect_metadata(request.metadata()),
        vec![
            ("x-mine".to_string(), vec![b"last".to_vec()]),
            ("other".to_string(), vec![b"2".to_vec()]),
        ]
    );
}

use bytes::Bytes;
use grpc_php_rs::channel::{CHANNEL_READY, CHANNEL_TRANSIENT_FAILURE};
use grpc_php_rs::metadata::collect_metadata;
use grpc_php_rs::stream::{
    drive, drive_not_ready, stream_event_fits, DriverNext, StreamEvent, StreamMessage, StreamOutput,
};
use tonic::metadata::{AsciiMetadataValue, MetadataMap};
use tonic::Status;

fn driven(event: StreamEvent) -> StreamOutput {
    assert!(stream_event_fits(&event));
    drive(event, 100, 100)
}

fn metadata() -> MetadataMap {
    let mut map = MetadataMap::new();
    map.insert("k", AsciiMetadataValue::from_static("v"));
    map
}

fn trailers(output: &StreamOutput) -> Option<(i32, String, usize)> {
    output.trailers.as_ref().map(|t| (t.code, t.message.clone(), collect_metadata(&t.metadata).len()))
}

#[test]
fn a_transport_that_is_not_ready() {
    let output = driven(StreamEvent::NotReady(Status::unavailable("down")));
    assert_eq!(output.channel_state, Some(CHANNEL_TRANSIENT_FAILURE));
    assert!(output.metadata.is_some_and(|m| m.is_empty()));
    assert!(matches!(output.message, Some(StreamMessage::Failed(_))));
    assert!(output.trailers.is_none());
    assert_eq!(output.next, DriverNext::Stop);
}

#[test]
fn a_transport_error_becomes_a_failure() {
    let error = tonic::transport::Endpoint::from_shared("no uri".to_string()).unwrap_err();
    let output = drive_not_ready(error);
    match output.message {
        Some(StreamMessage::Failed(status)) => assert_eq!(status.code(), tonic::Code::Unknown),
        _ => panic!("a failure expected"),
    }
    assert_eq!(output.next, DriverNext::Stop);
}

#[test]
fn a_stream_that_opens() {
    let output = driven(StreamEvent::Opened(metadata()));
    assert_eq!(output.channel_state, Some(CHANNEL_READY));
    assert!(output.metadata.is_some_and(|m| m.get("k").is_some()));
    assert!(output.message.is_none() && output.trailers.is_none());
    assert_eq!(output.next, DriverNext::ReadMessage);
}

#[test]
fn a_stream_that_is_refused() {
    let output = driven(StreamEvent::Refused(Status::unavailable("down")));
    assert_eq!(output.channel_state, Some(CHANNEL_TRANSIENT_FAILURE));
    assert_eq!(trailers(&output), Some((14, "down".to_string(), 0)));
    assert!(matches!(output.message, Some(StreamMessage::End)));
    assert!(output.metadata.is_some_and(|m| m.is_empty()));
    assert_eq!(output.next, DriverNext::Stop);
    let output = driven(StreamEvent::Refused(Status::not_found("gone")));
    assert_eq!(output.channel_state, Some(CHANNEL_READY));
}

#[test]
fn messages_and_their_end() {
    let output = driven(StreamEvent::Message(Bytes::from_static(b"m")));
    assert!(matches!(&output.message, Some(StreamMessage::Item(b)) if b.as_ref() == b"m"));
    assert_eq!(output.next, DriverNext::ReadMessage);
    let output = driven(StreamEvent::Ended);
    assert!(matches!(output.message, Some(StreamMessage::End)));
    assert!(output.trailers.is_none());
    assert_eq!(output.next, DriverNext::ReadTrailers);
}

#[test]
fn trailers_of_an_ended_stream() {
    let output = driven(StreamEvent::Trailers(Some(metadata())));
    assert_eq!(trailers(&output), Some((0, String::new(), 1)));
    assert_eq!(output.next, DriverNext::Stop);
    let output = driven(StreamEvent::Trailers(None));
    assert_eq!(trailers(&output), Some((0, String::new(), 0)));
}

#[test]
fn a_stream_that_fails() {
    let output = driven(StreamEvent::Failed(Status::with_details(
        tonic::Code::Internal,
        "broken",
        Bytes::from_static(b"why"),
    )));
    assert_eq!(trailers(&output), Some((13, "broken".to_string(), 1)));
    let entries = collect_metadata(&output.trailers.unwrap().metadata);
    assert_eq!(entries, vec![("grpc-status-details-bin".to_string(), vec![b"why".to_vec()])]);
}

#[test]
fn a_stream_that_runs_out_of_time() {
    let output = driven(StreamEvent::Failed(Status::cancelled("Timeout expired")));
    assert_eq!(trailers(&output), Some((4, "Deadline Exceeded".to_string(), 0)));
    let output = drive(StreamEvent::Failed(Status::cancelled("Timeout expired")), 100, 99);
    assert_eq!(trailers(&output), Some((1, "Timeout expired".to_string(), 0)));
}

#[test]
fn a_stream_that_is_cancelled() {
    let output = driven(StreamEvent::Cancelled);
    assert_eq!(trailers(&output), Some((1, "Call cancelled".to_string(), 0)));
    assert!(matches!(output.message, Some(StreamMessage::End)));
    assert_eq!(output.next, DriverNext::Stop);
}

#[test]
fn a_stream_that_nobody_reads() {
    let output = driven(StreamEvent::Message(Bytes::new()));
    assert_eq!(output.undelivered, DriverNext::Stop);
    let output = driven(StreamEvent::Ended);
    assert_eq!(output.undelivered, DriverNext::ReadTrailers);
    let output = driven(StreamEvent::Opened(metadata()));
    assert_eq!(output.undelivered, DriverNext::ReadMessage);
}

use bytes::Bytes;
use grpc_php_rs::batch::{
    array_key_to_long, build_unary_result, parse_ops, CallResult, ReadFlags, ResultProperty,
};
use grpc_php_rs::call::{
    BatchStep, CallOutcome, GrpcCall, PeerAddress, PluginPhase, RuntimePhase,
};
use grpc_php_rs::channel::{ChannelInner, GrpcChannel, CHANNEL_READY, CHANNEL_TRANSIENT_FAILURE};
use grpc_php_rs::credentials::GrpcCallCredentials;
use grpc_php_rs::error::{ExceptionClass, PhpException};
use grpc_php_rs::plugin::PluginReply;
use grpc_php_rs::stream::{drive, StreamEvent, StreamMessage, StreamTrailers};
use grpc_php_rs::timeval::GrpcTimeval;
use grpc_php_rs::value::{ArrayKey, PhpValue};
use tonic::metadata::{AsciiMetadataValue, MetadataMap};

type Ops = Vec<(ArrayKey, PhpValue)>;

const SEND_METADATA: i64 = 0;
const SEND_MESSAGE: i64 = 1;
const SEND_CLOSE: i64 = 2;
const RECV_METADATA: i64 = 4;
const RECV_MESSAGE: i64 = 5;
const RECV_STATUS: i64 = 6;

fn text(s: &str) -> PhpValue {
    PhpValue::Str(s.as_bytes().to_vec())
}

fn entry(name: &str, value: PhpValue) -> (ArrayKey, PhpValue) {
    (ArrayKey::String(name.to_string()), value)
}

fn op(code: i64) -> (ArrayKey, PhpValue) {
    let value = match code {
        SEND_METADATA => PhpValue::Array(vec![entry(
            "x-mine",
            PhpValue::Array(vec![(ArrayKey::Long(0), text("1"))]),
        )]),
        SEND_MESSAGE => PhpValue::Array(vec![entry("message", text("hello"))]),
        _ => PhpValue::Bool(true),
    };
    (ArrayKey::Long(code), value)
}

fn ops(codes: &[i64]) -> Ops {
    codes.iter().map(|c| op(*c)).collect()
}

fn channel(plugins: Option<Vec<u64>>) -> GrpcChannel {
    GrpcChannel {
        inner: Some(ChannelInner {
            transport: 3,
            target: "host:1".to_string(),
            call_plugins: plugins,
            max_decoding_message_size: Some(10),
            max_encoding_message_size: None,
        }),
    }
}

fn call_with(deadline: i64, plugins: Option<Vec<u64>>) -> GrpcCall {
    GrpcCall::with_deadline(&channel(plugins), "/s/m".to_string(), deadline, None).ok().unwrap()
}

fn call() -> GrpcCall {
    call_with(i64::MAX, None)
}

fn step(r: Result<BatchStep, PhpException>) -> BatchStep {
    match r {
        Ok(step) => step,
        Err(e) => panic!("{}", e.message),
    }
}

fn thrown(r: Result<BatchStep, PhpException>) -> PhpException {
    match r {
        Ok(_) => panic!("an exception expected"),
        Err(e) => e,
    }
}

/// Runs the part of a batch in the runtime.
fn run(call: &mut GrpcCall, r: Result<BatchStep, PhpException>, now: i64) -> Result<BatchStep, PhpException> {
    match step(r) {
        BatchStep::EnterRuntime(wait) => {
            assert!(wait.fits(call, now));
            wait.resume(call, now)
        }
        _ => panic!("the runtime expected"),
    }
}

/// The properties of a finished batch as text.
fn shown(r: Result<BatchStep, PhpException>) -> Vec<String> {
    match step(r) {
        BatchStep::Done(list) => list.iter().map(show).collect(),
        _ => panic!("a finished batch expected"),
    }
}

fn show(property: &ResultProperty) -> String {
    let value = match property {
        ResultProperty::Metadata(entries) => format!("{entries:?}"),
        ResultProperty::Message(Some(bytes)) => String::from_utf8_lossy(bytes).into_owned(),
        ResultProperty::Message(None) => "null".to_string(),
        ResultProperty::Status { metadata, code, details } => {
            format!("{} {code} {details}", metadata.len())
        }
        _ => "true".to_string(),
    };
    format!("{}: {value}", property.name())
}

fn metadata(key: &'static str, value: &'static str) -> MetadataMap {
    let mut map = MetadataMap::new();
    map.insert(key, AsciiMetadataValue::from_static(value));
    map
}

/// A call with a stream that only receives.
fn streaming_call() -> GrpcCall {
    let mut call = call();
    let r = call.start_batch(false, &ops(&[SEND_METADATA, SEND_MESSAGE, SEND_CLOSE]));
    let r = run(&mut call, r, 0);
    match step(r) {
        BatchStep::OpenStream { start, wait } => {
            assert!(!start.bidi);
            assert_eq!(start.path.as_str(), "/s/m");
            assert_eq!(start.request.get_ref().as_ref(), b"hello");
            assert_eq!(start.request.metadata().get("x-mine").unwrap(), "1");
            let r = wait.resume(&mut call);
            assert_eq!(shown(r), ["send_metadata: true", "send_message: true", "send_close: true"]);
        }
        _ => panic!("a stream expected"),
    }
    call
}

#[test]
fn op_keys_are_numbers() {
    assert_eq!(array_key_to_long(&ArrayKey::Long(5)).unwrap(), 5);
    assert_eq!(array_key_to_long(&ArrayKey::String("6".into())).unwrap(), 6);
    assert_eq!(array_key_to_long(&ArrayKey::ZendString(b"-1".to_vec())).unwrap(), -1);
    let said = |key| array_key_to_long(&key).unwrap_err().to_string();
    assert_eq!(said(ArrayKey::String("x".into())), "invalid argument: invalid op key: x");
    assert_eq!(said(ArrayKey::ZendString(b"x".to_vec())), "invalid argument: invalid op key");
    assert_eq!(said(ArrayKey::ZendString(vec![0xff])), "invalid argument: invalid op key");
}

#[test]
fn a_batch_is_read() {
    let batch = parse_ops(&ops(&[SEND_METADATA, SEND_MESSAGE, RECV_STATUS])).ok().unwrap();
    assert_eq!(batch.send_metadata, vec![("x-mine".to_string(), "1".to_string())]);
    assert!(batch.has_send_initial_metadata && batch.recv_status && !batch.send_close);
    assert!(!batch.recv_message && !batch.recv_initial_metadata);
    assert_eq!(batch.send_message, Some(Bytes::from_static(b"hello")));
    assert!(batch.has_send_ops() && batch.has_recv_ops());
}

#[test]
fn bad_batches() {
    let said = |ops: Ops| match parse_ops(&ops) {
        Ok(_) => panic!("an exception expected"),
        Err(e) => (e.class, e.message),
    };
    let argument = |message: &str| (ExceptionClass::InvalidArgumentException, message.to_string());
    let message = |value| vec![(ArrayKey::Long(SEND_MESSAGE), value)];
    assert_eq!(
        said(vec![(ArrayKey::Long(SEND_METADATA), PhpValue::Null)]),
        argument("Bad metadata value given")
    );
    assert_eq!(
        said(vec![(ArrayKey::Long(SEND_METADATA), PhpValue::Array(vec![entry("A", PhpValue::Null)]))]),
        argument("Bad metadata value given")
    );
    assert_eq!(said(message(text("m"))), argument("Expected an array for send message"));
    assert_eq!(
        said(message(PhpValue::Array(vec![entry("message", text("m")), entry("flags", text("1"))]))),
        argument("Expected an int for message flags")
    );
    assert_eq!(
        said(message(PhpValue::Array(vec![]))),
        argument("Expected a string for send message")
    );
    assert_eq!(
        said(message(PhpValue::Array(vec![entry("message", PhpValue::Long(1))]))),
        argument("Expected a string for send message")
    );
    for code in [3, 7, -1] {
        assert_eq!(said(ops(&[code])), argument("Unrecognized key in batch"));
    }
    assert_eq!(
        said(vec![(ArrayKey::String("x".into()), PhpValue::Null)]),
        (ExceptionClass::Exception, "invalid argument: invalid op key: x".to_string())
    );
}

#[test]
fn message_flags_may_be_given() {
    let value = PhpValue::Array(vec![
        entry("flags", PhpValue::Long(1)),
        entry("message", PhpValue::Str(vec![0, 0xff])),
    ]);
    let batch = parse_ops(&vec![(ArrayKey::Long(SEND_MESSAGE), value)]).ok().unwrap();
    assert_eq!(batch.send_message, Some(Bytes::from_static(&[0, 0xff])));
}

#[test]
fn a_call_is_constructed() {
    let open = channel(Some(vec![9]));
    let deadline = GrpcTimeval::inf_future();
    let call = GrpcCall::construct(&open, "/s/m".into(), &deadline, Some("h".into())).ok().unwrap();
    assert_eq!((call.transport, call.target.as_str(), call.method.as_str()), (3, "host:1", "/s/m"));
    assert_eq!(call.deadline_usec, i64::MAX);
    assert_eq!(call.host_override, Some("h".to_string()));
    assert_eq!(call.call_plugins, Some(vec![9]));
    assert_eq!((call.max_decoding_message_size, call.max_encoding_message_size), (Some(10), None));
    assert!(!call.cancelled && !call.finished && call.stream_state.is_none());
}

#[test]
fn a_closed_channel_makes_no_call() {
    let closed = GrpcChannel { inner: None };
    let e = match GrpcCall::construct(&closed, "/s/m".into(), &GrpcTimeval::zero(), None) {
        Ok(_) => panic!("an exception expected"),
        Err(e) => e,
    };
    assert_eq!(e.class, ExceptionClass::InvalidArgumentException);
    assert_eq!(e.message, "Call cannot be constructed from a closed Channel");
}

#[test]
fn a_unary_call_in_one_batch() {
    let mut call = call();
    let r = call.start_batch(
        false,
        &ops(&[SEND_METADATA, SEND_MESSAGE, SEND_CLOSE, RECV_METADATA, RECV_MESSAGE, RECV_STATUS]),
    );
    let r = run(&mut call, r, 0);
    match step(r) {
        BatchStep::Call { start, wait } => {
            assert_eq!(start.request.get_ref().as_ref(), b"hello");
            assert_eq!(start.request.metadata().get("x-mine").unwrap(), "1");
            assert_eq!(start.path.as_str(), "/s/m");
            let ended = CallOutcome::Response {
                metadata: metadata("k", "v"),
                body: Bytes::from_static(b"answer"),
            };
            let t = wait.resume(&mut call, ended, 0);
            assert_eq!(t.channel_state, Some(CHANNEL_READY));
            assert_eq!(
                shown(t.step),
                [
                    "metadata: [(\"k\", [[118]])]",
                    "message: answer",
                    "status: 0 0 ",
                    "send_metadata: true",
                    "send_message: true",
                    "send_close: true",
                ]
            );
        }
        _ => panic!("a unary call expected"),
    }
    assert!(call.finished);
}

#[test]
fn a_finished_call_is_over() {
    let mut call = call();
    call.finished = true;
    let e = thrown(call.start_batch(false, &ops(&[RECV_STATUS])));
    assert_eq!(e.class, ExceptionClass::LogicException);
    assert_eq!(e.message, "start_batch was called incorrectly");
    assert_eq!(e.code, 8);
    assert!(shown(call.start_batch(false, &vec![])).is_empty());
}

#[test]
fn initial_metadata_is_sent_once() {
    let mut call = call();
    assert_eq!(shown(call.start_batch(false, &ops(&[SEND_METADATA]))), ["send_metadata: true"]);
    let e = thrown(call.start_batch(false, &ops(&[SEND_METADATA])));
    assert_eq!((e.class, e.code), (ExceptionClass::LogicException, 8));
}

#[test]
fn a_closed_channel_refuses_batches() {
    let mut call = call();
    call.cancel();
    let e = thrown(call.start_batch(true, &ops(&[RECV_STATUS])));
    assert_eq!(e.class, ExceptionClass::RuntimeException);
    assert_eq!(e.message, "startBatch Error. Channel is closed");
}

#[test]
fn a_cancelled_call_refuses_batches() {
    let mut call = call();
    call.cancel();
    let e = thrown(call.start_batch(false, &vec![(ArrayKey::Long(99), PhpValue::Null)]));
    assert_eq!(e.class, ExceptionClass::Exception);
    assert_eq!(e.message, "gRPC status 1: Call has been cancelled");
}

#[test]
fn a_bad_batch_changes_nothing() {
    let mut call = call();
    thrown(call.start_batch(false, &ops(&[SEND_METADATA, SEND_CLOSE, 99])));
    assert!(!call.initial_metadata_sent && !call.send_closed);
}

#[test]
fn a_unary_call_that_fails() {
    let outcome = |ended| {
        let mut call = call();
        let r = call.start_batch(false, &ops(&[SEND_MESSAGE, SEND_CLOSE, RECV_MESSAGE, RECV_STATUS]));
        let r = run(&mut call, r, 0);
        match step(r) {
            BatchStep::Call { wait, .. } => (wait.resume(&mut call, ended, 0), call),
            _ => panic!("a unary call expected"),
        }
    };
    let (t, call) = outcome(CallOutcome::Failed(tonic::Status::not_found("gone")));
    assert_eq!(t.channel_state, Some(CHANNEL_READY));
    assert_eq!(
        shown(t.step),
        ["message: null", "status: 0 5 gone", "send_message: true", "send_close: true"]
    );
    assert!(call.finished);
    let (t, _) = outcome(CallOutcome::Failed(tonic::Status::unavailable("down")));
    assert_eq!(t.channel_state, Some(CHANNEL_TRANSIENT_FAILURE));
    let (t, call) = outcome(CallOutcome::Cancelled);
    assert_eq!(t.channel_state, None);
    assert_eq!(thrown(t.step).message, "gRPC status 1: Call cancelled");
    assert!(!call.finished);
    let error = tonic::transport::Endpoint::from_shared("no uri".to_string()).unwrap_err();
    let (t, _) = outcome(CallOutcome::NotReady(error));
    assert_eq!(t.channel_state, Some(CHANNEL_TRANSIENT_FAILURE));
    assert_eq!(thrown(t.step).message, "transport error: invalid URI");
}

#[test]
fn an_expired_unary_call_is_not_made() {
    let mut call = call_with(100, None);
    let r = call.start_batch(false, &ops(&[RECV_METADATA, RECV_MESSAGE, RECV_STATUS]));
    let r = run(&mut call, r, 100);
    assert_eq!(shown(r), ["metadata: []", "message: null", "status: 0 4 Deadline Exceeded"]);
    assert!(call.finished);
}

#[test]
fn a_bad_method_is_refused() {
    let mut call = call();
    call.method = "/bad path".to_string();
    let r = call.start_batch(false, &ops(&[RECV_MESSAGE, RECV_STATUS]));
    let e = thrown(run(&mut call, r, 0));
    assert!(e.message.starts_with("invalid argument: invalid method path: "));
    let r = call.start_batch(false, &ops(&[SEND_CLOSE]));
    let e = thrown(run(&mut call, r, 0));
    assert!(e.message.starts_with("invalid argument: invalid method path: "));
    assert!(call.stream_state.is_none());
}

#[test]
fn a_deadline_sets_the_timeout() {
    let mut call = call_with(1_500, None);
    let r = call.start_batch(false, &ops(&[SEND_CLOSE, RECV_MESSAGE, RECV_STATUS]));
    let r = run(&mut call, r, 1_000);
    match step(r) {
        BatchStep::Call { start, .. } => {
            assert_eq!(start.request.metadata().get("grpc-timeout").unwrap(), "500000n");
            assert_eq!(start.request.get_ref().as_ref(), b"");
        }
        _ => panic!("a unary call expected"),
    }
}

#[test]
fn a_stream_from_the_server() {
    let mut call = streaming_call();
    assert!(call.send_closed);
    let r = call.start_batch(false, &ops(&[RECV_METADATA, RECV_MESSAGE]));
    let r = run(&mut call, r, 0);
    let r = match step(r) {
        BatchStep::AwaitMetadata(wait) => wait.resume(&mut call, Some(metadata("k", "v"))),
        _ => panic!("the metadata expected"),
    };
    let r = match step(r) {
        BatchStep::AwaitMessage(wait) => {
            wait.resume(&mut call, Some(StreamMessage::Item(Bytes::from_static(b"one"))), 0)
        }
        _ => panic!("a message expected"),
    };
    assert_eq!(shown(r), ["metadata: [(\"k\", [[118]])]", "message: one"]);

    let r = call.start_batch(false, &ops(&[RECV_METADATA, RECV_MESSAGE]));
    let r = run(&mut call, r, 0);
    let r = match step(r) {
        BatchStep::AwaitMessage(wait) => wait.resume(&mut call, Some(StreamMessage::End), 0),
        _ => panic!("a message expected"),
    };
    assert_eq!(shown(r), ["metadata: []", "message: null"]);

    let r = call.start_batch(false, &ops(&[RECV_STATUS]));
    let r = run(&mut call, r, 0);
    let r = match step(r) {
        BatchStep::AwaitTrailers(wait) => {
            let trailers =
                StreamTrailers { code: 0, message: String::new(), metadata: metadata("t", "1") };
            wait.resume(&mut call, Some(trailers))
        }
        _ => panic!("the trailers expected"),
    };
    assert_eq!(shown(r), ["status: 1 0 "]);
    assert!(call.finished);
}

/// Runs a batch that receives against what a stream task has handed on.
fn receive(call: &mut GrpcCall, inbox: &mut Inbox, codes: &[i64]) -> Vec<String> {
    let r = call.start_batch(false, &ops(codes));
    let mut r = run(call, r, 0);
    loop {
        r = match step(r) {
            BatchStep::AwaitMetadata(wait) => wait.resume(call, inbox.metadata.take()),
            BatchStep::AwaitMessage(wait) => wait.resume(call, inbox.messages.pop_front(), 0),
            BatchStep::AwaitTrailers(wait) => wait.resume(call, inbox.trailers.take()),
            done => return shown(Ok(done)),
        };
    }
}

#[derive(Default)]
struct Inbox {
    metadata: Option<MetadataMap>,
    messages: std::collections::VecDeque<StreamMessage>,
    trailers: Option<StreamTrailers>,
}

fn inbox(events: Vec<StreamEvent>) -> Inbox {
    let mut inbox = Inbox::default();
    for event in events {
        let output = drive(event, i64::MAX, 0);
        inbox.metadata = inbox.metadata.or(output.metadata);
        inbox.messages.extend(output.message);
        inbox.trailers = inbox.trailers.or(output.trailers);
    }
    inbox
}

fn message(s: &'static str) -> StreamEvent {
    StreamEvent::Message(Bytes::from_static(s.as_bytes()))
}

#[test]
fn a_whole_stream_reaches_php() {
    let mut call = streaming_call();
    let mut inbox = inbox(vec![
        StreamEvent::Opened(metadata("k", "v")),
        message("one"),
        message("two"),
        StreamEvent::Ended,
        StreamEvent::Trailers(Some(metadata("t", "1"))),
    ]);
    let first = receive(&mut call, &mut inbox, &[RECV_METADATA, RECV_MESSAGE]);
    assert_eq!(first, ["metadata: [(\"k\", [[118]])]", "message: one"]);
    assert_eq!(receive(&mut call, &mut inbox, &[RECV_MESSAGE]), ["message: two"]);
    for _ in 0..3 {
        assert_eq!(receive(&mut call, &mut inbox, &[RECV_MESSAGE]), ["message: null"]);
    }
    let again = receive(&mut call, &mut inbox, &[RECV_METADATA, RECV_MESSAGE]);
    assert_eq!(again, ["metadata: []", "message: null"]);
    assert_eq!(receive(&mut call, &mut inbox, &[RECV_STATUS]), ["status: 1 0 "]);
    assert!(call.finished);
}

#[test]
fn a_whole_stream_that_fails_reaches_php() {
    let mut call = streaming_call();
    let mut inbox = inbox(vec![
        StreamEvent::Opened(metadata("k", "v")),
        message("one"),
        StreamEvent::Failed(tonic::Status::data_loss("torn")),
    ]);
    assert_eq!(receive(&mut call, &mut inbox, &[RECV_MESSAGE]), ["message: one"]);
    assert_eq!(receive(&mut call, &mut inbox, &[RECV_MESSAGE]), ["message: null"]);
    let last = receive(&mut call, &mut inbox, &[RECV_METADATA, RECV_STATUS]);
    assert_eq!(last, ["metadata: [(\"k\", [[118]])]", "status: 0 15 torn"]);
}

#[test]
fn a_split_unary_call_is_collected_in_one_batch() {
    let all = [RECV_METADATA, RECV_MESSAGE, RECV_STATUS];
    let mut call = streaming_call();
    let mut answered = inbox(vec![
        StreamEvent::Opened(metadata("k", "v")),
        message("answer"),
        StreamEvent::Ended,
        StreamEvent::Trailers(Some(metadata("t", "1"))),
    ]);
    assert_eq!(
        receive(&mut call, &mut answered, &all),
        ["metadata: [(\"k\", [[118]])]", "message: answer", "status: 1 0 "]
    );
    assert!(call.finished);

    let mut call = streaming_call();
    let mut refused = inbox(vec![StreamEvent::Refused(tonic::Status::not_found("gone"))]);
    assert_eq!(
        receive(&mut call, &mut refused, &all),
        ["metadata: []", "message: null", "status: 0 5 gone"]
    );

    let mut call = streaming_call();
    let mut unready = inbox(vec![StreamEvent::NotReady(tonic::Status::unavailable("down"))]);
    assert_eq!(
        receive(&mut call, &mut unready, &all),
        ["metadata: []", "message: null", "status: 0 14 down"]
    );
}

#[test]
fn a_client_stream_is_collected_after_its_metadata() {
    let mut call = streaming_call();
    let mut inbox = inbox(vec![
        StreamEvent::Opened(metadata("k", "v")),
        message("sum"),
        StreamEvent::Cancelled,
    ]);
    let first = receive(&mut call, &mut inbox, &[RECV_METADATA]);
    assert_eq!(first, ["metadata: [(\"k\", [[118]])]"]);
    let last = receive(&mut call, &mut inbox, &[RECV_METADATA, RECV_MESSAGE, RECV_STATUS]);
    assert_eq!(last, ["metadata: []", "message: sum", "status: 0 1 Call cancelled"]);
}

#[test]
fn receiving_asks_no_plugin_again() {
    let mut call = call_with(i64::MAX, Some(vec![9]));
    let r = match step(call.start_batch(false, &ops(&[SEND_MESSAGE, SEND_CLOSE]))) {
        BatchStep::InvokePlugin(wait) => {
            wait.resume(&mut call, PluginReply::Returned(PhpValue::Null))
        }
        _ => panic!("the plugin expected"),
    };
    let r = run(&mut call, r, 0);
    match step(r) {
        BatchStep::OpenStream { wait, .. } => {
            assert_eq!(shown(wait.resume(&mut call)), ["send_message: true", "send_close: true"])
        }
        _ => panic!("a stream expected"),
    }
    let r = call.start_batch(false, &ops(&[RECV_METADATA, RECV_MESSAGE, RECV_STATUS]));
    let r = run(&mut call, r, 0);
    assert!(matches!(step(r), BatchStep::AwaitMetadata(_)));
}

#[test]
fn a_stream_task_that_dies() {
    let mut call = streaming_call();
    let r = call.start_batch(false, &ops(&[RECV_METADATA, RECV_MESSAGE, RECV_STATUS]));
    let r = run(&mut call, r, 0);
    let r = match step(r) {
        BatchStep::AwaitMetadata(wait) => wait.resume(&mut call, None),
        _ => panic!("the metadata expected"),
    };
    let r = match step(r) {
        BatchStep::AwaitMessage(wait) => wait.resume(&mut call, None, 0),
        _ => panic!("a message expected"),
    };
    let r = match step(r) {
        BatchStep::AwaitTrailers(wait) => wait.resume(&mut call, None),
        _ => panic!("the trailers expected"),
    };
    assert_eq!(
        shown(r),
        ["metadata: []", "message: null", "status: 0 2 stream task terminated unexpectedly"]
    );
}

#[test]
fn a_stream_that_fails_is_reported() {
    let mut call = streaming_call();
    let r = call.start_batch(false, &ops(&[RECV_MESSAGE]));
    let r = run(&mut call, r, 0);
    let r = match step(r) {
        BatchStep::AwaitMessage(wait) => {
            let status = tonic::Status::unavailable("down");
            wait.resume(&mut call, Some(StreamMessage::Failed(status)), 0)
        }
        _ => panic!("a message expected"),
    };
    assert_eq!(shown(r), ["message: null"]);
    let r = call.start_batch(false, &ops(&[RECV_MESSAGE, RECV_STATUS]));
    let r = run(&mut call, r, 0);
    assert_eq!(shown(r), ["message: null", "status: 0 14 down"]);
}

#[test]
fn a_consumed_stream_says_so() {
    let mut call = streaming_call();
    let r = call.start_batch(false, &ops(&[RECV_STATUS]));
    let r = run(&mut call, r, 0);
    // The batch is given up while it waits.
    assert!(matches!(step(r), BatchStep::AwaitTrailers(_)));
    let r = call.start_batch(false, &ops(&[RECV_STATUS]));
    let r = run(&mut call, r, 0);
    assert_eq!(shown(r), ["status: 0 2 stream already consumed"]);
}

#[test]
fn an_expired_stream_is_not_opened() {
    let mut call = call_with(100, None);
    let r = call.start_batch(false, &ops(&[SEND_MESSAGE, SEND_CLOSE]));
    let r = run(&mut call, r, 200);
    assert_eq!(shown(r), ["send_message: true", "send_close: true"]);
    let r = call.start_batch(false, &ops(&[SEND_MESSAGE]));
    assert_eq!(thrown(run(&mut call, r, 200)).message, "stream does not support sending");
    let r = call.start_batch(false, &ops(&[RECV_METADATA, RECV_MESSAGE, RECV_STATUS]));
    let r = run(&mut call, r, 200);
    assert_eq!(shown(r), ["metadata: []", "message: null", "status: 0 4 Deadline Exceeded"]);
}

#[test]
fn a_stream_in_both_directions() {
    let mut call = call();
    assert_eq!(shown(call.start_batch(false, &ops(&[SEND_METADATA]))), ["send_metadata: true"]);
    let r = call.start_batch(false, &ops(&[SEND_MESSAGE]));
    let r = run(&mut call, r, 0);
    let r = match step(r) {
        BatchStep::OpenStream { start, wait } => {
            assert!(start.bidi);
            assert_eq!(start.request.get_ref().as_ref(), b"");
            assert_eq!(start.request.metadata().get("x-mine").unwrap(), "1");
            wait.resume(&mut call)
        }
        _ => panic!("a stream expected"),
    };
    let r = run(&mut call, r, 0);
    let r = match step(r) {
        BatchStep::SendMessage { message, wait } => {
            assert_eq!(message.as_ref(), b"hello");
            wait.resume(&mut call, true)
        }
        _ => panic!("a message to send expected"),
    };
    assert_eq!(shown(r), ["send_message: true"]);
    assert_eq!(shown(call.start_batch(false, &ops(&[SEND_CLOSE]))), ["send_close: true"]);
    let r = call.start_batch(false, &ops(&[SEND_MESSAGE]));
    assert_eq!(thrown(run(&mut call, r, 0)).message, "stream does not support sending");
}

#[test]
fn a_batch_sends_closes_and_reads() {
    let mut call = call();
    let r = call.start_batch(false, &ops(&[SEND_MESSAGE]));
    let r = run(&mut call, r, 0);
    let r = match step(r) {
        BatchStep::OpenStream { wait, .. } => wait.resume(&mut call),
        _ => panic!("a stream expected"),
    };
    let r = run(&mut call, r, 0);
    match step(r) {
        BatchStep::SendMessage { wait, .. } => {
            assert_eq!(shown(wait.resume(&mut call, true)), ["send_message: true"])
        }
        _ => panic!("a message to send expected"),
    }
    let r = call.start_batch(false, &ops(&[SEND_MESSAGE, SEND_CLOSE, RECV_MESSAGE]));
    let r = run(&mut call, r, 0);
    let r = match step(r) {
        BatchStep::SendMessage { wait, .. } => wait.resume(&mut call, true),
        _ => panic!("a message to send expected"),
    };
    let r = run(&mut call, r, 0);
    let r = match step(r) {
        BatchStep::AwaitMessage(wait) => {
            wait.resume(&mut call, Some(StreamMessage::Item(Bytes::new())), 0)
        }
        _ => panic!("a message expected"),
    };
    assert_eq!(shown(r), ["message: ", "send_message: true", "send_close: true"]);
}

#[test]
fn a_message_that_cannot_be_sent() {
    let mut call = call();
    let r = call.start_batch(false, &ops(&[SEND_MESSAGE]));
    let r = run(&mut call, r, 0);
    let r = match step(r) {
        BatchStep::OpenStream { wait, .. } => wait.resume(&mut call),
        _ => panic!("a stream expected"),
    };
    let r = run(&mut call, r, 0);
    match step(r) {
        BatchStep::SendMessage { wait, .. } => {
            let e = thrown(wait.resume(&mut call, false));
            assert_eq!(e.class, ExceptionClass::Exception);
            assert_eq!(e.message, "stream send channel closed");
        }
        _ => panic!("a message to send expected"),
    }
}

#[test]
fn what_is_written_to_an_expired_stream_is_dropped() {
    let mut call = call_with(100, None);
    for _ in 0..2 {
        let r = call.start_batch(false, &ops(&[SEND_MESSAGE]));
        let mut r = r;
        while matches!(r, Ok(BatchStep::EnterRuntime(_))) {
            r = run(&mut call, r, 200);
        }
        assert_eq!(shown(r), ["send_message: true"]);
        assert!(call.stream_state.is_some());
    }
    assert_eq!(shown(call.start_batch(false, &ops(&[SEND_CLOSE]))), ["send_close: true"]);
    let r = call.start_batch(false, &ops(&[SEND_MESSAGE]));
    assert_eq!(thrown(run(&mut call, r, 200)).message, "stream does not support sending");
    let r = call.start_batch(false, &ops(&[RECV_STATUS]));
    let r = run(&mut call, r, 200);
    assert_eq!(shown(r), ["status: 0 4 Deadline Exceeded"]);
    assert!(call.finished);
}

#[test]
fn the_plugin_is_asked_with_its_handle() {
    let mut call = call_with(i64::MAX, Some(vec![9]));
    let r = call.start_batch(false, &ops(&[SEND_METADATA, SEND_MESSAGE, SEND_CLOSE]));
    let r = match step(r) {
        BatchStep::InvokePlugin(wait) => {
            assert_eq!(wait.callable, 9);
            assert!(matches!(wait.phase, PluginPhase::Buffer { send_close: true }));
            let reply = PhpValue::Array(vec![entry("x-mine", text("2")), entry("auth", text("3"))]);
            wait.resume(&mut call, PluginReply::Returned(reply))
        }
        _ => panic!("the plugin expected"),
    };
    assert!(call.pending_metadata.is_empty());
    let r = run(&mut call, r, 0);
    match step(r) {
        BatchStep::OpenStream { start, .. } => {
            assert_eq!(start.request.metadata().get("x-mine").unwrap(), "2");
            assert_eq!(start.request.metadata().get("auth").unwrap(), "3");
        }
        _ => panic!("a stream expected"),
    }
}

#[test]
fn chained_plugins_are_asked_in_turn() {
    let first = GrpcCallCredentials::create_from_plugin(9, true).unwrap();
    let second = GrpcCallCredentials::create_from_plugin(4, true).unwrap();
    let both = GrpcCallCredentials::create_composite(&first, &second).unwrap();
    let mut call = call();
    call.set_credentials(&both);
    let r = call.start_batch(false, &ops(&[SEND_METADATA, SEND_MESSAGE, RECV_MESSAGE, RECV_STATUS]));
    let r = match step(r) {
        BatchStep::InvokePlugin(wait) => {
            assert_eq!((wait.callable, wait.rest.clone()), (9, vec![4]));
            let reply = PhpValue::Array(vec![entry("a", text("1"))]);
            wait.resume(&mut call, PluginReply::Returned(reply))
        }
        _ => panic!("the first plugin expected"),
    };
    let r = match step(r) {
        BatchStep::InvokePlugin(wait) => {
            assert_eq!((wait.callable, wait.rest.clone()), (4, vec![]));
            assert_eq!(wait.gathered, [("a".to_string(), "1".to_string())]);
            let reply = PhpValue::Array(vec![entry("b", text("2"))]);
            wait.resume(&mut call, PluginReply::Returned(reply))
        }
        _ => panic!("the second plugin expected"),
    };
    let r = run(&mut call, r, 0);
    match step(r) {
        BatchStep::Call { start, .. } => {
            assert_eq!(start.request.metadata().get("a").unwrap(), "1");
            assert_eq!(start.request.metadata().get("b").unwrap(), "2");
            assert_eq!(start.request.metadata().get("x-mine").unwrap(), "1");
        }
        _ => panic!("a unary call expected"),
    }
}

#[test]
fn a_chained_plugin_that_fails_ends_the_batch() {
    let mut call = call_with(i64::MAX, Some(vec![9, 4]));
    let r = call.start_batch(false, &ops(&[SEND_CLOSE]));
    let r = match step(r) {
        BatchStep::InvokePlugin(wait) => {
            wait.resume(&mut call, PluginReply::Returned(PhpValue::Null))
        }
        _ => panic!("the first plugin expected"),
    };
    match step(r) {
        BatchStep::InvokePlugin(wait) => {
            let e = thrown(wait.resume(&mut call, PluginReply::Failed("gone".to_string())));
            assert_eq!(e.message, "callback failed: gone");
        }
        _ => panic!("the second plugin expected"),
    }
}

#[test]
fn a_plugin_that_fails_ends_the_batch() {
    let mut call = call_with(i64::MAX, Some(vec![9]));
    let r = call.start_batch(false, &ops(&[SEND_MESSAGE, RECV_MESSAGE, RECV_STATUS]));
    match step(r) {
        BatchStep::InvokePlugin(wait) => {
            let e = thrown(wait.resume(&mut call, PluginReply::NotCallable));
            assert_eq!(e.message, "callback failed: stored value is not callable");
        }
        _ => panic!("the plugin expected"),
    }
    assert!(!call.finished);
}

#[test]
fn a_plugin_that_is_not_set_ends_the_batch() {
    let mut call = call_with(i64::MAX, Some(vec![]));
    let e = thrown(call.start_batch(false, &ops(&[SEND_CLOSE])));
    assert_eq!(e.message, "callback failed: plugin callable is not set");
}

#[test]
fn a_batch_that_only_receives_asks_no_plugin() {
    let mut call = call_with(i64::MAX, Some(vec![9]));
    let r = call.start_batch(false, &ops(&[RECV_MESSAGE, RECV_STATUS]));
    match step(r) {
        BatchStep::EnterRuntime(wait) => assert!(matches!(wait.phase, RuntimePhase::Unary { .. })),
        _ => panic!("the runtime expected"),
    }
}

#[test]
fn a_split_call_without_a_close_is_unary() {
    let mut call = call();
    assert_eq!(shown(call.start_batch(false, &ops(&[SEND_METADATA]))), ["send_metadata: true"]);
    let r = call.start_batch(false, &ops(&[RECV_STATUS]));
    let r = run(&mut call, r, 0);
    match step(r) {
        BatchStep::Call { start, .. } => {
            assert_eq!(start.request.metadata().get("x-mine").unwrap(), "1")
        }
        _ => panic!("a unary call expected"),
    }
    assert!(call.pending_metadata.is_empty());
}

#[test]
fn a_batch_with_close_and_message_reads_a_stream() {
    let mut call = call();
    let r = call.start_batch(false, &ops(&[SEND_MESSAGE, SEND_CLOSE, RECV_MESSAGE]));
    let r = run(&mut call, r, 0);
    let r = match step(r) {
        BatchStep::OpenStream { start, wait } => {
            assert!(!start.bidi);
            assert_eq!(start.request.get_ref().as_ref(), b"hello");
            wait.resume(&mut call)
        }
        _ => panic!("a stream expected"),
    };
    let r = run(&mut call, r, 0);
    assert!(matches!(step(r), BatchStep::AwaitMessage(_)));
}

#[test]
fn a_split_call_sends_the_same_request() {
    let plugins = Some(vec![9]);
    let sent = |codes: &[i64]| {
        let mut call = call_with(2_000, plugins.clone());
        let r = match step(call.start_batch(false, &ops(codes))) {
            BatchStep::InvokePlugin(wait) => {
                let reply = PhpValue::Array(vec![entry("auth", text("3")), entry("X-Mine", text("2"))]);
                wait.resume(&mut call, PluginReply::Returned(reply))
            }
            _ => panic!("the plugin expected"),
        };
        let start = match step(run(&mut call, r, 1_000)) {
            BatchStep::Call { start, .. } => start,
            BatchStep::OpenStream { start, .. } => start,
            _ => panic!("a request expected"),
        };
        assert_eq!((call.transport, call.method.as_str(), call.deadline_usec), (3, "/s/m", 2_000));
        let (metadata, _extensions, message) = start.request.into_parts();
        (metadata.into_headers(), message, start.path.to_string(), start.bidi)
    };
    let whole = sent(&[SEND_METADATA, SEND_MESSAGE, SEND_CLOSE, RECV_MESSAGE, RECV_STATUS]);
    let split = sent(&[SEND_METADATA, SEND_MESSAGE, SEND_CLOSE]);
    assert_eq!(whole, split);
    assert_eq!(whole.0.len(), 3);
    assert_eq!(whole.0.get("x-mine").unwrap(), "2");
}

#[test]
fn credentials_of_a_call() {
    let mut call = call();
    let creds = GrpcCallCredentials::create_from_plugin(4, true).unwrap();
    assert_eq!(call.set_credentials(&creds), 0);
    assert_eq!(call.call_plugins, Some(vec![4]));
}

#[test]
fn the_peer_of_a_call() {
    let call = call();
    assert_eq!(call.get_peer(None), "host:1");
    assert_eq!(call.get_peer(Some(PeerAddress::V4("1.2.3.4:5".into()))), "ipv4:1.2.3.4:5");
    assert_eq!(call.get_peer(Some(PeerAddress::V6("[::1]:5".into()))), "ipv6:[::1]:5");
}

#[test]
fn metadata_that_does_not_fit() {
    let mut call = call();
    let many: Vec<(ArrayKey, PhpValue)> = (0..6554)
        .map(|i| entry(&format!("k{i}"), PhpValue::Array(vec![(ArrayKey::Long(0), text("v"))])))
        .collect();
    let batch = vec![
        (ArrayKey::Long(SEND_METADATA), PhpValue::Array(many)),
        op(RECV_MESSAGE),
        op(RECV_STATUS),
    ];
    match step(call.start_batch(false, &batch)) {
        BatchStep::EnterRuntime(wait) => {
            assert!(!wait.fits(&call, 0));
            // Nothing is built for a method without a path,
            call.method = "/bad path".to_string();
            assert!(wait.fits(&call, 0));
            call.method = "/s/m".to_string();
            // nor once the deadline has passed.
            call.deadline_usec = 100;
            assert!(wait.fits(&call, 100));
            assert_eq!(
                shown(wait.resume(&mut call, 100)),
                ["message: null", "status: 0 4 Deadline Exceeded", "send_metadata: true"]
            );
        }
        _ => panic!("the runtime expected"),
    }
}

#[test]
fn unary_results_come_in_order() {
    let result = CallResult {
        initial_metadata: Some(metadata("content-type", "application/grpc")),
        body: Some(Bytes::from_static(b"b")),
        trailing_metadata: None,
        code: 3,
        message: "m".to_string(),
    };
    let flags = ReadFlags { initial_metadata: true, message: true, status: true };
    let list: Vec<String> = build_unary_result(flags, result).iter().map(show).collect();
    assert_eq!(list, ["metadata: []", "message: b", "status: 0 3 m"]);
}

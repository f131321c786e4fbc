//! Calls: how a batch of operations runs.
//!
//! A batch starts with [`GrpcCall::start_batch`]. Where it needs something
//! from outside (the plugin, the runtime, the network) it says so in a
//! [`BatchStep`], and goes on when the matching `resume` gets the answer.

use crate::batch::{
    ack_properties, add_acks, batch_of, build_unary_result, entries_of, items_of, message_bytes,
    message_view, parse_ops, properties, unary_properties, Acks, BatchOps, BatchView, CallResult,
    CallResultView, PropertyView, ReadFlags, ResultProperty,
};
use crate::channel::{
    closed_exception, plugins_in, ChannelInner, GrpcChannel, CHANNEL_READY,
    CHANNEL_TRANSIENT_FAILURE,
};
use crate::clock::micros_at;
use crate::credentials::{same_plugins, text_in, GrpcCallCredentials};
use crate::error::{
    default_exception, exception, invalid_argument, invalid_argument_view, logic_exception,
    runtime_exception, transport_error_text, ExceptionClass, ExceptionView, GrpcError,
    PhpException,
};
use crate::metadata::{metadata_to_php, pairs, php_entries};
use crate::plugin::{plugin_metadata, reply_pairs, PluginReply};
use crate::request::{
    build_request, finished_items, method_path, request_metadata, request_metadata_fits,
    request_timeout_fits, timeout_fits, Pair,
};
use crate::status::{
    deadline_already_expired_at, details_reach_php, expired, status_metadata_for_php,
    status_to_php_at,
};
use crate::stream::{
    bare_trailers, status_trailers, MessageView, StreamMessage, StreamTrailers, TrailersView,
};
use crate::text::{decimal, joined};
use crate::timeval::{span_start, GrpcTimeval};
use crate::value::{ArrayKey, PhpValue};
use crate::wire::{
    bytes_of, has_room, metadata_items, path_outcome, path_text, request_items, request_message,
    status_code, status_items, Item,
};
use bytes::Bytes;
use http::uri::PathAndQuery;
use tonic::metadata::MetadataMap;
use tonic::{Request, Status};
use vstd::prelude::*;

verus! {

// ---------------------------------------------------------------------------
// Calls
// ---------------------------------------------------------------------------

/// The streaming state of a call.
pub struct ActiveStream {
    /// Whether messages can still be sent.
    pub can_send: bool,
    /// Whether the initial metadata is still to be received.
    pub meta_pending: bool,
    /// The trailers, when the call has learnt them before it was asked.
    pub cached_trailers: Option<StreamTrailers>,
    /// Whether the trailers are still to be received.
    pub trailers_pending: bool,
    /// Whether the deadline had passed when the stream was to be opened: it
    /// never was, and messages that could be sent on it are dropped.
    pub expired: bool,
}

/// What the streaming state holds.
#[verifier::ext_equal]
pub struct StreamView {
    pub can_send: bool,
    pub meta_pending: bool,
    pub cached: Option<TrailersView>,
    pub trailers_pending: bool,
    pub expired: bool,
}

impl View for ActiveStream {
    type V = StreamView;

    open spec fn view(&self) -> StreamView {
        StreamView {
            can_send: self.can_send,
            meta_pending: self.meta_pending,
            cached: match self.cached_trailers {
                Some(trailers) => Some(trailers@),
                None => None,
            },
            trailers_pending: self.trailers_pending,
            expired: self.expired,
        }
    }
}

/// `Grpc\Call`.
pub struct GrpcCall {
    /// The transport of the channel.
    pub transport: u64,
    pub method: String,
    pub target: String,
    pub deadline_usec: i64,
    pub host_override: Option<String>,
    /// The plugins that are asked for metadata, in turn.
    pub call_plugins: Option<Vec<u64>>,
    pub cancelled: bool,
    pub max_decoding_message_size: Option<usize>,
    pub max_encoding_message_size: Option<usize>,
    /// What a batch that only sends has left for the batch that receives.
    pub pending_metadata: Vec<(String, String)>,
    pub pending_message: Option<Bytes>,
    /// Whether the client has said that no message will follow.
    pub send_closed: bool,
    pub initial_metadata_sent: bool,
    /// Whether the status has been delivered: the call is over.
    pub finished: bool,
    pub stream_state: Option<ActiveStream>,
}

/// What a call holds.
#[verifier::ext_equal]
pub struct CallView {
    pub transport: u64,
    pub method: Seq<char>,
    pub target: Seq<char>,
    pub deadline_usec: i64,
    pub host_override: Option<Seq<char>>,
    pub plugins: Option<Seq<u64>>,
    pub cancelled: bool,
    pub max_decoding: Option<usize>,
    pub max_encoding: Option<usize>,
    pub pending_metadata: Seq<Pair>,
    pub pending_message: Option<Seq<u8>>,
    pub send_closed: bool,
    pub initial_metadata_sent: bool,
    pub finished: bool,
    pub stream: Option<StreamView>,
}

impl View for GrpcCall {
    type V = CallView;

    open spec fn view(&self) -> CallView {
        CallView {
            transport: self.transport,
            method: self.method@,
            target: self.target@,
            deadline_usec: self.deadline_usec,
            host_override: text_in(self.host_override),
            plugins: plugins_in(self.call_plugins),
            cancelled: self.cancelled,
            max_decoding: self.max_decoding_message_size,
            max_encoding: self.max_encoding_message_size,
            pending_metadata: pairs(self.pending_metadata@),
            pending_message: message_view(self.pending_message),
            send_closed: self.send_closed,
            initial_metadata_sent: self.initial_metadata_sent,
            finished: self.finished,
            stream: match self.stream_state {
                Some(state) => Some(state@),
                None => None,
            },
        }
    }
}

// ---------------------------------------------------------------------------
// Steps
// ---------------------------------------------------------------------------

/// What is left of a batch once its sends are done.
#[derive(Debug, Clone, Copy)]
pub struct Tail {
    /// The results it waits for.
    pub flags: ReadFlags,
    /// The sends it acknowledges at the end.
    pub acks: Acks,
}

impl Tail {
    /// Whether the batch waits for any result.
    pub open spec fn spec_reads(self) -> bool {
        self.flags.initial_metadata || self.flags.message || self.flags.status
    }

    /// Whether the batch waits for any result.
    pub fn reads(self) -> (r: bool)
        ensures
            r == self.spec_reads(),
    {
        self.flags.initial_metadata || self.flags.message || self.flags.status
    }
}

/// What a batch does with the metadata of the plugins.
pub enum PluginPhase {
    /// Opens a stream in both directions and sends the first message.
    Bidi { send_metadata: Vec<(String, String)>, message: Bytes },
    /// Keeps it for later, or opens a stream at once when nothing else will
    /// be sent.
    Buffer { send_close: bool },
    /// Makes the call.
    Receive { send_metadata: Vec<(String, String)>, message: Option<Bytes> },
}

/// What a plugin phase holds.
#[verifier::ext_equal]
pub enum PluginPhaseView {
    Bidi { send_metadata: Seq<Pair>, message: Seq<u8> },
    Buffer { send_close: bool },
    Receive { send_metadata: Seq<Pair>, message: Option<Seq<u8>> },
}

impl View for PluginPhase {
    type V = PluginPhaseView;

    open spec fn view(&self) -> PluginPhaseView {
        match self {
            PluginPhase::Bidi { send_metadata, message } => PluginPhaseView::Bidi {
                send_metadata: pairs(send_metadata@),
                message: bytes_of(*message),
            },
            PluginPhase::Buffer { send_close } => PluginPhaseView::Buffer {
                send_close: *send_close,
            },
            PluginPhase::Receive { send_metadata, message } => PluginPhaseView::Receive {
                send_metadata: pairs(send_metadata@),
                message: message_view(*message),
            },
        }
    }
}

/// A batch that waits for a plugin.
pub struct PluginWait {
    /// The handle of the callable. It is called with the method of the call.
    pub callable: u64,
    /// The plugins that are asked after it.
    pub rest: Vec<u64>,
    /// The metadata of the plugins that were asked before it.
    pub gathered: Vec<(String, String)>,
    pub phase: PluginPhase,
    pub tail: Tail,
}

/// What a batch does in the runtime.
pub enum RuntimePhase {
    /// Sends a message on the stream, and perhaps ends the sending.
    Send { message: Bytes, close: bool },
    /// Opens a stream in both directions and sends the first message.
    StartBidi {
        send_metadata: Vec<(String, String)>,
        plugin_metadata: Vec<(String, String)>,
        message: Bytes,
    },
    /// Opens a stream from the server.
    StartServer {
        send_metadata: Vec<(String, String)>,
        plugin_metadata: Vec<(String, String)>,
        message: Option<Bytes>,
    },
    /// Makes a unary call.
    Unary {
        send_metadata: Vec<(String, String)>,
        plugin_metadata: Vec<(String, String)>,
        message: Option<Bytes>,
    },
    /// Reads from the stream.
    Read,
}

/// What a runtime phase holds.
#[verifier::ext_equal]
pub enum RuntimePhaseView {
    Send { message: Seq<u8>, close: bool },
    StartBidi { send_metadata: Seq<Pair>, plugin_metadata: Seq<Pair>, message: Seq<u8> },
    StartServer {
        send_metadata: Seq<Pair>,
        plugin_metadata: Seq<Pair>,
        message: Option<Seq<u8>>,
    },
    Unary { send_metadata: Seq<Pair>, plugin_metadata: Seq<Pair>, message: Option<Seq<u8>> },
    Read,
}

impl View for RuntimePhase {
    type V = RuntimePhaseView;

    open spec fn view(&self) -> RuntimePhaseView {
        match self {
            RuntimePhase::Send { message, close } => RuntimePhaseView::Send {
                message: bytes_of(*message),
                close: *close,
            },
            RuntimePhase::StartBidi { send_metadata, plugin_metadata, message } =>
                RuntimePhaseView::StartBidi {
                send_metadata: pairs(send_metadata@),
                plugin_metadata: pairs(plugin_metadata@),
                message: bytes_of(*message),
            },
            RuntimePhase::StartServer { send_metadata, plugin_metadata, message } =>
                RuntimePhaseView::StartServer {
                send_metadata: pairs(send_metadata@),
                plugin_metadata: pairs(plugin_metadata@),
                message: message_view(*message),
            },
            RuntimePhase::Unary { send_metadata, plugin_metadata, message } =>
                RuntimePhaseView::Unary {
                send_metadata: pairs(send_metadata@),
                plugin_metadata: pairs(plugin_metadata@),
                message: message_view(*message),
            },
            RuntimePhase::Read => RuntimePhaseView::Read,
        }
    }
}

/// A batch that waits for the runtime.
pub struct RuntimeWait {
    pub phase: RuntimePhase,
    pub tail: Tail,
}

/// A request about to be sent, over the transport of the call and within its
/// message sizes.
pub struct RpcStart {
    /// Whether messages follow the request: then the message in it is empty,
    /// and the stream of messages takes its place.
    pub bidi: bool,
    pub request: Request<Bytes>,
    pub path: PathAndQuery,
}

/// What a request about to be sent holds.
#[verifier::ext_equal]
pub struct StartView {
    pub bidi: bool,
    pub items: Seq<Item>,
    pub message: Seq<u8>,
    pub path: Seq<char>,
}

impl View for RpcStart {
    type V = StartView;

    open spec fn view(&self) -> StartView {
        StartView {
            bidi: self.bidi,
            items: request_items(self.request),
            message: request_message(self.request),
            path: path_text(self.path),
        }
    }
}

/// A batch that waits for its stream to be opened.
pub struct OpenWait {
    /// The first message.
    pub message: Option<Bytes>,
    pub tail: Tail,
}

/// A batch that waits for a message to be sent.
#[derive(Debug, Clone, Copy)]
pub struct SendWait {
    /// Whether the sending ends with it.
    pub close: bool,
    pub tail: Tail,
}

/// A batch that waits for a unary call.
#[derive(Debug, Clone, Copy)]
pub struct CallWait {
    pub tail: Tail,
}

/// A batch that waits for the initial metadata of its stream.
#[derive(Debug, Clone, Copy)]
pub struct MetadataWait {
    pub tail: Tail,
}

/// A batch that waits for a message of its stream.
pub struct MessageWait {
    /// The results it has.
    pub done: Vec<ResultProperty>,
    pub tail: Tail,
}

/// A batch that waits for the trailers of its stream.
pub struct TrailersWait {
    /// The results it has.
    pub done: Vec<ResultProperty>,
    pub tail: Tail,
}

/// What a batch needs next.
pub enum BatchStep {
    /// A plugin is to be called.
    InvokePlugin(PluginWait),
    /// The runtime is to be had.
    EnterRuntime(RuntimeWait),
    /// A task that drives a stream is to be started.
    OpenStream { start: RpcStart, wait: OpenWait },
    /// A message is to be sent on the stream.
    SendMessage { message: Bytes, wait: SendWait },
    /// A unary call is to be made.
    Call { start: RpcStart, wait: CallWait },
    /// The initial metadata of the stream is to be received.
    AwaitMetadata(MetadataWait),
    /// A message of the stream is to be received.
    AwaitMessage(MessageWait),
    /// The trailers of the stream are to be received.
    AwaitTrailers(TrailersWait),
    /// Nothing: these are the results.
    Done(Vec<ResultProperty>),
}

/// What a step holds.
#[verifier::ext_equal]
pub enum StepView {
    InvokePlugin {
        callable: u64,
        rest: Seq<u64>,
        gathered: Seq<Pair>,
        phase: PluginPhaseView,
        tail: Tail,
    },
    EnterRuntime { phase: RuntimePhaseView, tail: Tail },
    OpenStream { start: StartView, message: Option<Seq<u8>>, tail: Tail },
    SendMessage { message: Seq<u8>, close: bool, tail: Tail },
    Call { start: StartView, tail: Tail },
    AwaitMetadata { tail: Tail },
    AwaitMessage { done: Seq<PropertyView>, tail: Tail },
    AwaitTrailers { done: Seq<PropertyView>, tail: Tail },
    Done(Seq<PropertyView>),
}

impl View for BatchStep {
    type V = StepView;

    open spec fn view(&self) -> StepView {
        match self {
            BatchStep::InvokePlugin(wait) => StepView::InvokePlugin {
                callable: wait.callable,
                rest: wait.rest@,
                gathered: pairs(wait.gathered@),
                phase: wait.phase@,
                tail: wait.tail,
            },
            BatchStep::EnterRuntime(wait) => StepView::EnterRuntime {
                phase: wait.phase@,
                tail: wait.tail,
            },
            BatchStep::OpenStream { start, wait } => StepView::OpenStream {
                start: start@,
                message: message_view(wait.message),
                tail: wait.tail,
            },
            BatchStep::SendMessage { message, wait } => StepView::SendMessage {
                message: bytes_of(*message),
                close: wait.close,
                tail: wait.tail,
            },
            BatchStep::Call { start, wait } => StepView::Call { start: start@, tail: wait.tail },
            BatchStep::AwaitMetadata(wait) => StepView::AwaitMetadata { tail: wait.tail },
            BatchStep::AwaitMessage(wait) => StepView::AwaitMessage {
                done: properties(wait.done@),
                tail: wait.tail,
            },
            BatchStep::AwaitTrailers(wait) => StepView::AwaitTrailers {
                done: properties(wait.done@),
                tail: wait.tail,
            },
            BatchStep::Done(list) => StepView::Done(properties(list@)),
        }
    }
}

/// A call and what its batch needs next, or the exception that ends it.
#[verifier::ext_equal]
pub struct Outcome {
    pub call: CallView,
    pub step: Result<StepView, ExceptionView>,
}

/// The view of the outcome of a step.
pub open spec fn outcome(call: GrpcCall, step: Result<BatchStep, PhpException>) -> Outcome {
    Outcome {
        call: call@,
        step: match step {
            Ok(next) => Ok(next@),
            Err(e) => Err(e@),
        },
    }
}

/// A batch that goes on.
pub open spec fn goes_on(call: CallView, step: StepView) -> Outcome {
    Outcome { call, step: Ok(step) }
}

/// A batch that ends with an exception.
pub open spec fn throws(call: CallView, e: ExceptionView) -> Outcome {
    Outcome { call, step: Err(e) }
}

/// A plain `\Exception`.
pub open spec fn plain(message: Seq<char>) -> ExceptionView {
    exception(ExceptionClass::Exception, message, 0)
}

// ---------------------------------------------------------------------------
// How a batch runs
// ---------------------------------------------------------------------------

/// The end of a batch: the results, then the acknowledgements. A delivered
/// status ends the call.
pub open spec fn finishes(call: CallView, tail: Tail, done: Seq<PropertyView>) -> Outcome {
    goes_on(
        CallView { finished: call.finished || tail.flags.status, ..call },
        StepView::Done(done + ack_properties(tail.acks)),
    )
}

/// A call after its sends are done, with the sending ended where `close` says
/// so.
pub open spec fn sends_done(call: CallView, close: bool, tail: Tail) -> Outcome {
    let after = match call.stream {
        Some(stream) => CallView {
            stream: Some(StreamView { can_send: stream.can_send && !close, ..stream }),
            ..call
        },
        None => call,
    };
    if tail.spec_reads() {
        goes_on(after, StepView::EnterRuntime { phase: RuntimePhaseView::Read, tail })
    } else {
        finishes(after, tail, Seq::empty())
    }
}

/// A batch with receive operations on a call that has no stream: message and
/// status together make a unary call; anything else reads a stream once no
/// message will be sent.
pub open spec fn receives(
    call: CallView,
    send_metadata: Seq<Pair>,
    plugin_metadata: Seq<Pair>,
    message: Option<Seq<u8>>,
    tail: Tail,
) -> Outcome {
    if (tail.flags.message && tail.flags.status) || !call.send_closed {
        goes_on(
            call,
            StepView::EnterRuntime {
                phase: RuntimePhaseView::Unary { send_metadata, plugin_metadata, message },
                tail,
            },
        )
    } else {
        goes_on(
            call,
            StepView::EnterRuntime {
                phase: RuntimePhaseView::StartServer { send_metadata, plugin_metadata, message },
                tail,
            },
        )
    }
}

/// A batch that has the metadata of the plugins.
pub open spec fn has_plugin_metadata(
    call: CallView,
    phase: PluginPhaseView,
    plugin_metadata: Seq<Pair>,
    tail: Tail,
) -> Outcome {
    match phase {
        PluginPhaseView::Bidi { send_metadata, message } => goes_on(
            call,
            StepView::EnterRuntime {
                phase: RuntimePhaseView::StartBidi { send_metadata, plugin_metadata, message },
                tail,
            },
        ),
        PluginPhaseView::Buffer { send_close } => {
            let buffered = call.pending_metadata + plugin_metadata;
            if send_close {
                goes_on(
                    CallView { pending_metadata: Seq::empty(), pending_message: None, ..call },
                    StepView::EnterRuntime {
                        phase: RuntimePhaseView::StartServer {
                            send_metadata: buffered,
                            plugin_metadata: Seq::empty(),
                            message: call.pending_message,
                        },
                        tail,
                    },
                )
            } else {
                finishes(CallView { pending_metadata: buffered, ..call }, tail, Seq::empty())
            }
        },
        PluginPhaseView::Receive { send_metadata, message } => receives(
            call,
            send_metadata,
            plugin_metadata,
            message,
            tail,
        ),
    }
}

/// A batch that has gathered the metadata of some plugins, and asks the others
/// in turn.
pub open spec fn asks_plugins(
    call: CallView,
    plugins: Seq<u64>,
    gathered: Seq<Pair>,
    phase: PluginPhaseView,
    tail: Tail,
) -> Outcome {
    if plugins.len() == 0 {
        has_plugin_metadata(call, phase, gathered, tail)
    } else {
        goes_on(
            call,
            StepView::InvokePlugin {
                callable: plugins[0],
                rest: plugins.skip(1),
                gathered,
                phase,
                tail,
            },
        )
    }
}

/// A batch that needs the metadata of the plugins, if the call has any.
pub open spec fn asks_plugin(call: CallView, phase: PluginPhaseView, tail: Tail) -> Outcome {
    match call.plugins {
        None => has_plugin_metadata(call, phase, Seq::empty(), tail),
        Some(plugins) => if plugins.len() == 0 {
            throws(call, plain("callback failed: "@ + "plugin callable is not set"@))
        } else {
            asks_plugins(call, plugins, Seq::empty(), phase, tail)
        },
    }
}

/// A batch that has the reply of a plugin: its metadata comes behind what was
/// gathered before, and the next plugin is asked. A failure ends the batch.
pub open spec fn plugin_replied(
    call: CallView,
    rest: Seq<u64>,
    gathered: Seq<Pair>,
    phase: PluginPhaseView,
    reply: PluginReply,
    tail: Tail,
) -> Outcome {
    match reply_pairs(reply) {
        Ok(list) => asks_plugins(call, rest, gathered + list, phase, tail),
        Err(why) => throws(call, plain("callback failed: "@ + why)),
    }
}

/// The tail of a batch.
pub open spec fn tail_of(batch: BatchView) -> Tail {
    Tail {
        flags: ReadFlags {
            initial_metadata: batch.recv_initial_metadata,
            message: batch.recv_message,
            status: batch.recv_status,
        },
        acks: Acks {
            metadata: batch.has_send_initial_metadata,
            message: batch.send_message is Some,
            close: batch.send_close,
        },
    }
}

/// How a batch that is in order begins.
pub open spec fn dispatched(call: CallView, batch: BatchView) -> Outcome {
    let tail = tail_of(batch);
    if call.stream is Some {
        // The stream takes what is sent.
        match batch.send_message {
            Some(message) => goes_on(
                call,
                StepView::EnterRuntime {
                    phase: RuntimePhaseView::Send { message, close: batch.send_close },
                    tail,
                },
            ),
            None => sends_done(call, batch.send_close, tail),
        }
    } else if !batch.has_recv_ops() {
        match batch.send_message {
            Some(message) if !batch.send_close => {
                // A first message with more to come.
                asks_plugin(
                    CallView { pending_metadata: Seq::empty(), ..call },
                    PluginPhaseView::Bidi { send_metadata: call.pending_metadata, message },
                    tail,
                )
            },
            _ => asks_plugin(
                CallView {
                    pending_metadata: batch.send_metadata,
                    pending_message: batch.send_message,
                    ..call
                },
                PluginPhaseView::Buffer { send_close: batch.send_close },
                tail,
            ),
        }
    } else if batch.has_send_ops() {
        asks_plugin(
            call,
            PluginPhaseView::Receive {
                send_metadata: batch.send_metadata,
                message: batch.send_message,
            },
            tail,
        )
    } else {
        receives(
            CallView { pending_metadata: Seq::empty(), pending_message: None, ..call },
            call.pending_metadata,
            Seq::empty(),
            call.pending_message,
            tail,
        )
    }
}

/// The exception for a batch that comes out of turn.
pub open spec fn out_of_turn() -> ExceptionView {
    exception(ExceptionClass::LogicException, "start_batch was called incorrectly"@, 8)
}

/// The text of a gRPC status that ends a batch.
pub open spec fn cancelled_text(message: Seq<char>) -> Seq<char> {
    "gRPC status "@ + decimal(1) + ": "@ + message
}

/// How a batch begins.
pub open spec fn started(
    call: CallView,
    channel_closed: bool,
    ops: Seq<(ArrayKey, PhpValue)>,
) -> Outcome {
    if channel_closed {
        throws(call, closed_exception("startBatch Error. Channel is closed"@))
    } else if call.cancelled {
        throws(call, plain(cancelled_text("Call has been cancelled"@)))
    } else {
        match batch_of(ops) {
            Err(e) => throws(call, e),
            Ok(batch) => if !batch.has_send_ops() && !batch.has_recv_ops() {
                goes_on(call, StepView::Done(Seq::empty()))
            } else if call.finished || (batch.has_send_initial_metadata
                && call.initial_metadata_sent) {
                throws(call, out_of_turn())
            } else {
                dispatched(
                    CallView {
                        initial_metadata_sent: call.initial_metadata_sent
                            || batch.has_send_initial_metadata,
                        send_closed: call.send_closed || batch.send_close,
                        ..call
                    },
                    batch,
                )
            },
        }
    }
}

/// The state of a stream that is never opened because the deadline has
/// passed: nothing comes, and the status is there. Messages can be sent where
/// they could be on an open one, and are dropped.
pub open spec fn expired_stream(bidi: bool) -> StreamView {
    StreamView {
        can_send: bidi,
        meta_pending: false,
        cached: Some(bare_trailers(4, "Deadline Exceeded"@)),
        trailers_pending: false,
        expired: true,
    }
}

/// The state of a stream that was just opened.
pub open spec fn opened_stream(bidi: bool) -> StreamView {
    StreamView {
        can_send: bidi,
        meta_pending: true,
        cached: None,
        trailers_pending: true,
        expired: false,
    }
}

/// A batch whose stream is open.
pub open spec fn opened(call: CallView, message: Option<Seq<u8>>, tail: Tail) -> Outcome {
    match message {
        Some(m) => goes_on(
            call,
            StepView::EnterRuntime {
                phase: RuntimePhaseView::Send { message: m, close: false },
                tail,
            },
        ),
        None => sends_done(call, false, tail),
    }
}

/// The request that a call sends.
pub open spec fn start_view(
    call: CallView,
    bidi: bool,
    send_metadata: Seq<Pair>,
    plugin_metadata: Seq<Pair>,
    message: Seq<u8>,
    path: Seq<char>,
    now: i64,
) -> StartView {
    StartView {
        bidi,
        items: finished_items(
            request_metadata(send_metadata, plugin_metadata),
            call.deadline_usec,
            now,
        ),
        message,
        path,
    }
}

/// A message, or an empty one.
pub open spec fn or_empty(message: Option<Seq<u8>>) -> Seq<u8> {
    match message {
        Some(m) => m,
        None => Seq::empty(),
    }
}

/// A batch that opens a stream. One whose deadline has passed opens none.
pub open spec fn opens_stream(
    call: CallView,
    bidi: bool,
    send_metadata: Seq<Pair>,
    plugin_metadata: Seq<Pair>,
    request: Seq<u8>,
    message: Option<Seq<u8>>,
    tail: Tail,
    now: i64,
) -> Outcome {
    if expired(call.deadline_usec, now) {
        opened(CallView { stream: Some(expired_stream(bidi)), ..call }, message, tail)
    } else {
        match path_outcome(call.method) {
            Err(why) => throws(
                call,
                plain("invalid argument: "@ + ("invalid method path: "@ + why)),
            ),
            Ok(path) => goes_on(
                CallView { stream: Some(opened_stream(bidi)), ..call },
                StepView::OpenStream {
                    start: start_view(
                        call,
                        bidi,
                        send_metadata,
                        plugin_metadata,
                        request,
                        path,
                        now,
                    ),
                    message,
                    tail,
                },
            ),
        }
    }
}

/// The outcome of a unary call that is not made because the deadline has
/// passed.
pub open spec fn expired_result() -> CallResultView {
    CallResultView {
        initial_items: Seq::empty(),
        body: None,
        trailing_items: Seq::empty(),
        code: 4,
        message: "Deadline Exceeded"@,
    }
}

/// A batch that makes a unary call. One whose deadline has passed makes none.
pub open spec fn makes_call(
    call: CallView,
    send_metadata: Seq<Pair>,
    plugin_metadata: Seq<Pair>,
    message: Option<Seq<u8>>,
    tail: Tail,
    now: i64,
) -> Outcome {
    if expired(call.deadline_usec, now) {
        finishes(call, tail, unary_properties(tail.flags, expired_result()))
    } else {
        match path_outcome(call.method) {
            Err(why) => throws(
                call,
                plain("invalid argument: "@ + ("invalid method path: "@ + why)),
            ),
            Ok(path) => goes_on(
                call,
                StepView::Call {
                    start: start_view(
                        call,
                        false,
                        send_metadata,
                        plugin_metadata,
                        or_empty(message),
                        path,
                        now,
                    ),
                    tail,
                },
            ),
        }
    }
}

/// The results of a batch with a status.
pub open spec fn with_status(
    call: CallView,
    done: Seq<PropertyView>,
    trailers: TrailersView,
    tail: Tail,
) -> Outcome {
    finishes(
        call,
        tail,
        done.push(
            PropertyView::Status {
                metadata: php_entries(trailers.items),
                code: trailers.code,
                details: trailers.message,
            },
        ),
    )
}

/// A batch that comes to the status: cached trailers are taken, and others
/// are awaited once.
pub open spec fn reads_status(call: CallView, done: Seq<PropertyView>, tail: Tail) -> Outcome {
    if !tail.flags.status {
        finishes(call, tail, done)
    } else {
        match call.stream {
            None => throws(call, plain("no active stream"@)),
            Some(stream) => match stream.cached {
                Some(trailers) => with_status(
                    CallView { stream: Some(StreamView { cached: None, ..stream }), ..call },
                    done,
                    trailers,
                    tail,
                ),
                None => if stream.trailers_pending {
                    goes_on(
                        CallView {
                            stream: Some(StreamView { trailers_pending: false, ..stream }),
                            ..call
                        },
                        StepView::AwaitTrailers { done, tail },
                    )
                } else {
                    with_status(call, done, bare_trailers(2, "stream already consumed"@), tail)
                },
            },
        }
    }
}

/// A batch that comes to the message: a stream whose trailers are known has
/// none.
pub open spec fn reads_message(call: CallView, done: Seq<PropertyView>, tail: Tail) -> Outcome {
    if !tail.flags.message {
        reads_status(call, done, tail)
    } else {
        match call.stream {
            None => throws(call, plain("no active stream"@)),
            Some(stream) => if stream.cached is Some {
                reads_status(call, done.push(PropertyView::Message(None)), tail)
            } else {
                goes_on(call, StepView::AwaitMessage { done, tail })
            },
        }
    }
}

/// A batch that reads its stream: metadata, then message, then status. The
/// metadata is awaited once.
pub open spec fn reads(call: CallView, tail: Tail) -> Outcome {
    match call.stream {
        None => throws(call, plain("no active stream"@)),
        Some(stream) => if !tail.flags.initial_metadata {
            reads_message(call, Seq::empty(), tail)
        } else if stream.meta_pending {
            goes_on(
                CallView { stream: Some(StreamView { meta_pending: false, ..stream }), ..call },
                StepView::AwaitMetadata { tail },
            )
        } else {
            has_metadata(call, Seq::empty(), tail)
        },
    }
}

/// A batch that has the initial metadata of its stream.
pub open spec fn has_metadata(call: CallView, items: Seq<Item>, tail: Tail) -> Outcome {
    reads_message(call, seq![PropertyView::Metadata(php_entries(items))], tail)
}

/// A batch that has what its stream had to read. A failure ends the stream,
/// and is kept as its trailers.
pub open spec fn has_message(
    call: CallView,
    done: Seq<PropertyView>,
    message: Option<MessageView>,
    tail: Tail,
    now: i64,
) -> Outcome {
    match call.stream {
        None => throws(call, plain("no active stream"@)),
        Some(stream) => match message {
            Some(MessageView::Item(bytes)) => reads_status(
                call,
                done.push(PropertyView::Message(Some(bytes))),
                tail,
            ),
            Some(MessageView::Failed(status)) => reads_status(
                CallView {
                    stream: Some(
                        StreamView {
                            cached: Some(status_trailers(status, call.deadline_usec, now)),
                            ..stream
                        },
                    ),
                    ..call
                },
                done.push(PropertyView::Message(None)),
                tail,
            ),
            _ => reads_status(call, done.push(PropertyView::Message(None)), tail),
        },
    }
}

/// A batch that has the trailers of its stream, or knows that they will not
/// come.
pub open spec fn has_trailers(
    call: CallView,
    done: Seq<PropertyView>,
    trailers: Option<TrailersView>,
    tail: Tail,
) -> Outcome {
    with_status(
        call,
        done,
        match trailers {
            Some(t) => t,
            None => bare_trailers(2, "stream task terminated unexpectedly"@),
        },
        tail,
    )
}

/// A batch that is in the runtime.
pub open spec fn entered(call: CallView, phase: RuntimePhaseView, tail: Tail, now: i64) -> Outcome {
    match phase {
        RuntimePhaseView::Send { message, close } => match call.stream {
            None => throws(call, plain("no active stream"@)),
            Some(stream) => if !stream.can_send {
                throws(call, plain("stream does not support sending"@))
            } else if stream.expired {
                sends_done(call, close, tail)
            } else {
                goes_on(call, StepView::SendMessage { message, close, tail })
            },
        },
        RuntimePhaseView::StartBidi { send_metadata, plugin_metadata, message } => opens_stream(
            call,
            true,
            send_metadata,
            plugin_metadata,
            Seq::empty(),
            Some(message),
            tail,
            now,
        ),
        RuntimePhaseView::StartServer { send_metadata, plugin_metadata, message } => opens_stream(
            call,
            false,
            send_metadata,
            plugin_metadata,
            or_empty(message),
            None,
            tail,
            now,
        ),
        RuntimePhaseView::Unary { send_metadata, plugin_metadata, message } => makes_call(
            call,
            send_metadata,
            plugin_metadata,
            message,
            tail,
            now,
        ),
        RuntimePhaseView::Read => reads(call, tail),
    }
}

/// Whether a request can be built: its metadata has room, and its timeout can
/// be written down. None is built once the deadline has passed, or for a method
/// that has no path.
pub open spec fn request_fits(
    call: CallView,
    send_metadata: Seq<Pair>,
    plugin_metadata: Seq<Pair>,
    now: i64,
) -> bool {
    expired(call.deadline_usec, now) || path_outcome(call.method) is Err || (has_room(request_metadata(send_metadata, plugin_metadata))
        && timeout_fits(call.deadline_usec, now))
}

/// Whether a batch in the runtime can build its request, where it builds one.
pub open spec fn phase_fits(call: CallView, phase: RuntimePhaseView, now: i64) -> bool {
    match phase {
        RuntimePhaseView::StartBidi { send_metadata, plugin_metadata, .. } => request_fits(
            call,
            send_metadata,
            plugin_metadata,
            now,
        ),
        RuntimePhaseView::StartServer { send_metadata, plugin_metadata, .. } => request_fits(
            call,
            send_metadata,
            plugin_metadata,
            now,
        ),
        RuntimePhaseView::Unary { send_metadata, plugin_metadata, .. } => request_fits(
            call,
            send_metadata,
            plugin_metadata,
            now,
        ),
        _ => true,
    }
}

/// A batch whose message was sent, or could not be.
pub open spec fn message_sent(call: CallView, sent: bool, close: bool, tail: Tail) -> Outcome {
    if sent {
        sends_done(call, close, tail)
    } else {
        throws(call, plain("stream send channel closed"@))
    }
}

/// The outcome of a unary call.
pub enum CallOutcome {
    /// The server answered.
    Response { metadata: MetadataMap, body: Bytes },
    /// The call failed.
    Failed(Status),
    /// The transport could not be made ready.
    NotReady(tonic::transport::Error),
    /// The call was cancelled.
    Cancelled,
}

/// A batch whose unary call has ended.
pub open spec fn call_ended(call: CallView, ended: CallOutcome, tail: Tail, now: i64) -> Outcome {
    match ended {
        CallOutcome::Response { metadata, body } => finishes(
            call,
            tail,
            unary_properties(
                tail.flags,
                CallResultView {
                    initial_items: metadata_items(metadata),
                    body: Some(bytes_of(body)),
                    trailing_items: Seq::empty(),
                    code: 0,
                    message: Seq::empty(),
                },
            ),
        ),
        CallOutcome::Failed(status) => {
            let trailers = status_trailers(status, call.deadline_usec, now);
            finishes(
                call,
                tail,
                unary_properties(
                    tail.flags,
                    CallResultView {
                        initial_items: Seq::empty(),
                        body: None,
                        trailing_items: trailers.items,
                        code: trailers.code,
                        message: trailers.message,
                    },
                ),
            )
        },
        CallOutcome::NotReady(e) => throws(
            call,
            plain("transport error: "@ + transport_error_text(e)),
        ),
        CallOutcome::Cancelled => throws(call, plain(cancelled_text("Call cancelled"@))),
    }
}

/// The new state of the channel after a unary call: a server that could not be
/// reached tells against it, and any answer for it. A cancelled call says
/// nothing of the channel.
pub open spec fn state_after_call(ended: CallOutcome) -> Option<i64> {
    match ended {
        CallOutcome::Response { .. } => Some(CHANNEL_READY),
        CallOutcome::Failed(status) => if status_code(status) == 14 {
            Some(CHANNEL_TRANSIENT_FAILURE)
        } else {
            Some(CHANNEL_READY)
        },
        CallOutcome::NotReady(_) => Some(CHANNEL_TRANSIENT_FAILURE),
        CallOutcome::Cancelled => None,
    }
}

/// What a step comes to, and the new state of the channel, where it has one.
pub struct Transition {
    pub channel_state: Option<i64>,
    pub step: Result<BatchStep, PhpException>,
}

// ---------------------------------------------------------------------------
// Running a batch
// ---------------------------------------------------------------------------

/// No metadata.
fn no_pairs() -> (r: Vec<(String, String)>)
    ensures
        pairs(r@) == Seq::<Pair>::empty(),
{
    let none: Vec<(String, String)> = Vec::new();
    assert(pairs(none@) =~= Seq::<Pair>::empty());
    none
}

/// No results.
fn no_properties() -> (r: Vec<ResultProperty>)
    ensures
        properties(r@) == Seq::<PropertyView>::empty(),
{
    let none: Vec<ResultProperty> = Vec::new();
    assert(properties(none@) =~= Seq::<PropertyView>::empty());
    none
}

/// A message, or an empty one.
fn message_or_empty(message: Option<Bytes>) -> (r: Bytes)
    ensures
        bytes_of(r) == or_empty(message_view(message)),
{
    match message {
        Some(bytes) => bytes,
        None => Bytes::new(),
    }
}

/// One result more.
fn with_property(list: Vec<ResultProperty>, property: ResultProperty) -> (r: Vec<ResultProperty>)
    ensures
        properties(r@) == properties(list@).push(property@),
{
    let mut list = list;
    let ghost before = list@;
    list.push(property);
    assert(properties(list@) =~= properties(before).push(property@));
    list
}

impl GrpcCall {
    fn finish(&mut self, tail: Tail, done: Vec<ResultProperty>) -> (r: Result<
        BatchStep,
        PhpException,
    >)
        ensures
            outcome(*final(self), r) == finishes(old(self)@, tail, properties(done@)),
    {
        if tail.flags.status {
            self.finished = true;
        }
        Ok(BatchStep::Done(add_acks(done, tail.acks)))
    }

    fn close_stream_send(&mut self)
        ensures
            final(self)@ == (CallView {
                stream: match old(self)@.stream {
                    Some(stream) => Some(StreamView { can_send: false, ..stream }),
                    None => None,
                },
                ..old(self)@
            }),
    {
        match self.stream_state.take() {
            Some(state) => {
                let mut state = state;
                state.can_send = false;
                self.stream_state = Some(state);
            },
            None => {},
        }
    }

    fn finish_sends(&mut self, close: bool, tail: Tail) -> (r: Result<BatchStep, PhpException>)
        ensures
            outcome(*final(self), r) == sends_done(old(self)@, close, tail),
    {
        if close {
            self.close_stream_send();
        }
        if tail.reads() {
            Ok(BatchStep::EnterRuntime(RuntimeWait { phase: RuntimePhase::Read, tail }))
        } else {
            self.finish(tail, no_properties())
        }
    }

    fn receive(
        &mut self,
        send_metadata: Vec<(String, String)>,
        plugin_metadata: Vec<(String, String)>,
        message: Option<Bytes>,
        tail: Tail,
    ) -> (r: Result<BatchStep, PhpException>)
        ensures
            outcome(*final(self), r) == receives(
                old(self)@,
                pairs(send_metadata@),
                pairs(plugin_metadata@),
                message_view(message),
                tail,
            ),
    {
        let phase = if (tail.flags.message && tail.flags.status) || !self.send_closed {
            RuntimePhase::Unary { send_metadata, plugin_metadata, message }
        } else {
            RuntimePhase::StartServer { send_metadata, plugin_metadata, message }
        };
        Ok(BatchStep::EnterRuntime(RuntimeWait { phase, tail }))
    }

    fn use_plugin_metadata(
        &mut self,
        phase: PluginPhase,
        plugin_metadata: Vec<(String, String)>,
        tail: Tail,
    ) -> (r: Result<BatchStep, PhpException>)
        ensures
            outcome(*final(self), r) == has_plugin_metadata(
                old(self)@,
                phase@,
                pairs(plugin_metadata@),
                tail,
            ),
    {
        match phase {
            PluginPhase::Bidi { send_metadata, message } => Ok(
                BatchStep::EnterRuntime(
                    RuntimeWait {
                        phase: RuntimePhase::StartBidi { send_metadata, plugin_metadata, message },
                        tail,
                    },
                ),
            ),
            PluginPhase::Buffer { send_close } => {
                let ghost before = self.pending_metadata@;
                let mut more = plugin_metadata;
                let mut buffered = self.take_pending_metadata();
                buffered.append(&mut more);
                proof {
                    assert(pairs(buffered@) =~= pairs(before) + pairs(plugin_metadata@));
                }
                if send_close {
                    let message = self.pending_message.take();
                    Ok(
                        BatchStep::EnterRuntime(
                            RuntimeWait {
                                phase: RuntimePhase::StartServer {
                                    send_metadata: buffered,
                                    plugin_metadata: no_pairs(),
                                    message,
                                },
                                tail,
                            },
                        ),
                    )
                } else {
                    self.pending_metadata = buffered;
                    self.finish(tail, no_properties())
                }
            },
            PluginPhase::Receive { send_metadata, message } => self.receive(
                send_metadata,
                plugin_metadata,
                message,
                tail,
            ),
        }
    }

    fn take_pending_metadata(&mut self) -> (r: Vec<(String, String)>)
        ensures
            r@ == old(self).pending_metadata@,
            final(self)@ == (CallView { pending_metadata: Seq::empty(), ..old(self)@ }),
            final(self).pending_message == old(self).pending_message,
    {
        let mut taken = no_pairs();
        std::mem::swap(&mut taken, &mut self.pending_metadata);
        taken
    }

    fn ask_plugins(
        &mut self,
        plugins: Vec<u64>,
        gathered: Vec<(String, String)>,
        phase: PluginPhase,
        tail: Tail,
    ) -> (r: Result<BatchStep, PhpException>)
        ensures
            outcome(*final(self), r) == asks_plugins(
                old(self)@,
                plugins@,
                pairs(gathered@),
                phase@,
                tail,
            ),
    {
        if plugins.len() == 0 {
            return self.use_plugin_metadata(phase, gathered, tail);
        }
        let mut rest = plugins;
        let callable = rest.remove(0);
        assert(rest@ =~= plugins@.skip(1));
        Ok(BatchStep::InvokePlugin(PluginWait { callable, rest, gathered, phase, tail }))
    }

    fn ask_plugin(&mut self, phase: PluginPhase, tail: Tail) -> (r: Result<
        BatchStep,
        PhpException,
    >)
        ensures
            outcome(*final(self), r) == asks_plugin(old(self)@, phase@, tail),
    {
        let plugins = match &self.call_plugins {
            None => None,
            Some(plugins) => Some(same_plugins(plugins)),
        };
        match plugins {
            None => self.use_plugin_metadata(phase, no_pairs(), tail),
            Some(plugins) => if plugins.len() == 0 {
                Err(
                    GrpcError::CallbackFailed(
                        "plugin callable is not set".to_owned(),
                    ).into_exception(),
                )
            } else {
                self.ask_plugins(plugins, no_pairs(), phase, tail)
            },
        }
    }

    fn dispatch_batch(&mut self, batch: BatchOps) -> (r: Result<BatchStep, PhpException>)
        ensures
            outcome(*final(self), r) == dispatched(old(self)@, batch@),
    {
        let tail = Tail {
            flags: ReadFlags {
                initial_metadata: batch.recv_initial_metadata,
                message: batch.recv_message,
                status: batch.recv_status,
            },
            acks: Acks {
                metadata: batch.has_send_initial_metadata,
                message: batch.send_message.is_some(),
                close: batch.send_close,
            },
        };
        if self.stream_state.is_some() {
            return match batch.send_message {
                Some(message) => Ok(
                    BatchStep::EnterRuntime(
                        RuntimeWait {
                            phase: RuntimePhase::Send { message, close: batch.send_close },
                            tail,
                        },
                    ),
                ),
                None => self.finish_sends(batch.send_close, tail),
            };
        }
        let sends = batch.has_send_ops();
        if !batch.has_recv_ops() {
            if !batch.send_close {
                match batch.send_message {
                    Some(message) => {
                        let send_metadata = self.take_pending_metadata();
                        return self.ask_plugin(
                            PluginPhase::Bidi { send_metadata, message },
                            tail,
                        );
                    },
                    None => {
                        self.pending_metadata = batch.send_metadata;
                        self.pending_message = None;
                    },
                }
            } else {
                self.pending_metadata = batch.send_metadata;
                self.pending_message = batch.send_message;
            }
            return self.ask_plugin(PluginPhase::Buffer { send_close: batch.send_close }, tail);
        }
        if sends {
            self.ask_plugin(
                PluginPhase::Receive {
                    send_metadata: batch.send_metadata,
                    message: batch.send_message,
                },
                tail,
            )
        } else {
            let send_metadata = self.take_pending_metadata();
            let message = self.pending_message.take();
            self.receive(send_metadata, no_pairs(), message, tail)
        }
    }

    /// `startBatch`: begins a batch of operations.
    ///
    /// Whether the channel that the call was made from is closed by now is
    /// told in `channel_closed`.
    pub fn start_batch(&mut self, channel_closed: bool, ops: &Vec<(ArrayKey, PhpValue)>) -> (r:
        Result<BatchStep, PhpException>)
        ensures
            outcome(*final(self), r) == started(old(self)@, channel_closed, ops@),
    {
        if channel_closed {
            return Err(runtime_exception("startBatch Error. Channel is closed"));
        }
        if self.cancelled {
            return Err(
                GrpcError::Status {
                    code: 1,
                    message: "Call has been cancelled".to_owned(),
                }.into_exception(),
            );
        }
        let batch = match parse_ops(ops) {
            Ok(batch) => batch,
            Err(e) => {
                return Err(e);
            },
        };
        if !batch.has_send_ops() && !batch.has_recv_ops() {
            return Ok(BatchStep::Done(no_properties()));
        }
        if self.finished {
            return Err(logic_exception("start_batch was called incorrectly", 8));
        }
        if batch.has_send_initial_metadata {
            if self.initial_metadata_sent {
                return Err(logic_exception("start_batch was called incorrectly", 8));
            }
            self.initial_metadata_sent = true;
        }
        if batch.send_close {
            self.send_closed = true;
        }
        self.dispatch_batch(batch)
    }
}

impl PluginWait {
    /// Goes on with what the plugin replied.
    pub fn resume(self, call: &mut GrpcCall, reply: PluginReply) -> (r: Result<
        BatchStep,
        PhpException,
    >)
        ensures
            outcome(*final(call), r) == plugin_replied(
                old(call)@,
                self.rest@,
                pairs(self.gathered@),
                self.phase@,
                reply,
                self.tail,
            ),
    {
        match plugin_metadata(reply) {
            Ok(list) => {
                let mut gathered = self.gathered;
                let mut more = list;
                gathered.append(&mut more);
                assert(pairs(gathered@) =~= pairs(self.gathered@) + pairs(list@));
                call.ask_plugins(self.rest, gathered, self.phase, self.tail)
            },
            Err(error) => Err(error.into_exception()),
        }
    }
}

impl GrpcCall {
    fn open(&mut self, message: Option<Bytes>, tail: Tail) -> (r: Result<BatchStep, PhpException>)
        ensures
            outcome(*final(self), r) == opened(old(self)@, message_view(message), tail),
    {
        match message {
            Some(message) => Ok(
                BatchStep::EnterRuntime(
                    RuntimeWait { phase: RuntimePhase::Send { message, close: false }, tail },
                ),
            ),
            None => self.finish_sends(false, tail),
        }
    }

    fn expired_stream_state(bidi: bool) -> (r: ActiveStream)
        ensures
            r@ == expired_stream(bidi),
    {
        ActiveStream {
            can_send: bidi,
            meta_pending: false,
            cached_trailers: Some(StreamTrailers::bare(4, "Deadline Exceeded")),
            trailers_pending: false,
            expired: true,
        }
    }

    fn start_stream(
        &mut self,
        bidi: bool,
        send_metadata: Vec<(String, String)>,
        plugin_metadata: Vec<(String, String)>,
        request: Bytes,
        message: Option<Bytes>,
        tail: Tail,
        now: i64,
    ) -> (r: Result<BatchStep, PhpException>)
        requires
            request_fits(
                old(self)@,
                pairs(send_metadata@),
                pairs(plugin_metadata@),
                now,
            ),
        ensures
            outcome(*final(self), r) == opens_stream(
                old(self)@,
                bidi,
                pairs(send_metadata@),
                pairs(plugin_metadata@),
                bytes_of(request),
                message_view(message),
                tail,
                now,
            ),
    {
        if deadline_already_expired_at(self.deadline_usec, now) {
            self.stream_state = Some(GrpcCall::expired_stream_state(bidi));
            return self.open(message, tail);
        }
        let path = match method_path(self.method.as_str()) {
            Ok(path) => path,
            Err(error) => {
                return Err(error.into_exception());
            },
        };
        let request = build_request(
            &send_metadata,
            &plugin_metadata,
            request,
            self.deadline_usec,
            now,
        );
        self.stream_state = Some(
            ActiveStream {
                can_send: bidi,
                meta_pending: true,
                cached_trailers: None,
                trailers_pending: true,
                expired: false,
            },
        );
        Ok(
            BatchStep::OpenStream {
                start: RpcStart { bidi, request, path },
                wait: OpenWait { message, tail },
            },
        )
    }

    fn execute_call(
        &mut self,
        send_metadata: Vec<(String, String)>,
        plugin_metadata: Vec<(String, String)>,
        message: Option<Bytes>,
        tail: Tail,
        now: i64,
    ) -> (r: Result<BatchStep, PhpException>)
        requires
            request_fits(
                old(self)@,
                pairs(send_metadata@),
                pairs(plugin_metadata@),
                now,
            ),
        ensures
            outcome(*final(self), r) == makes_call(
                old(self)@,
                pairs(send_metadata@),
                pairs(plugin_metadata@),
                message_view(message),
                tail,
                now,
            ),
    {
        if deadline_already_expired_at(self.deadline_usec, now) {
            let result = CallResult {
                initial_metadata: None,
                body: None,
                trailing_metadata: Some(MetadataMap::new()),
                code: 4,
                message: "Deadline Exceeded".to_owned(),
            };
            let done = build_unary_result(tail.flags, result);
            return self.finish(tail, done);
        }
        let path = match method_path(self.method.as_str()) {
            Ok(path) => path,
            Err(error) => {
                return Err(error.into_exception());
            },
        };
        let request = build_request(
            &send_metadata,
            &plugin_metadata,
            message_or_empty(message),
            self.deadline_usec,
            now,
        );
        Ok(
            BatchStep::Call {
                start: RpcStart { bidi: false, request, path },
                wait: CallWait { tail },
            },
        )
    }

    fn send_stream_message(&mut self, message: Bytes, close: bool, tail: Tail) -> (r: Result<
        BatchStep,
        PhpException,
    >)
        ensures
            outcome(*final(self), r) == entered(
                old(self)@,
                RuntimePhaseView::Send { message: bytes_of(message), close },
                tail,
                0,
            ),
    {
        match &self.stream_state {
            None => Err(default_exception("no active stream")),
            Some(state) => if !state.can_send {
                Err(default_exception("stream does not support sending"))
            } else if state.expired {
                self.finish_sends(close, tail)
            } else {
                Ok(BatchStep::SendMessage { message, wait: SendWait { close, tail } })
            },
        }
    }

    fn deliver_status(
        &mut self,
        done: Vec<ResultProperty>,
        trailers: StreamTrailers,
        tail: Tail,
    ) -> (r: Result<BatchStep, PhpException>)
        ensures
            outcome(*final(self), r) == with_status(
                old(self)@,
                properties(done@),
                trailers@,
                tail,
            ),
    {
        let property = ResultProperty::Status {
            metadata: metadata_to_php(&trailers.metadata),
            code: trailers.code as i64,
            details: trailers.message,
        };
        self.finish(tail, with_property(done, property))
    }

    fn read_status(&mut self, done: Vec<ResultProperty>, tail: Tail) -> (r: Result<
        BatchStep,
        PhpException,
    >)
        ensures
            outcome(*final(self), r) == reads_status(old(self)@, properties(done@), tail),
    {
        if !tail.flags.status {
            return self.finish(tail, done);
        }
        match self.stream_state.take() {
            None => Err(default_exception("no active stream")),
            Some(state) => {
                let mut state = state;
                match state.cached_trailers.take() {
                    Some(trailers) => {
                        self.stream_state = Some(state);
                        self.deliver_status(done, trailers, tail)
                    },
                    None => if state.trailers_pending {
                        state.trailers_pending = false;
                        self.stream_state = Some(state);
                        Ok(BatchStep::AwaitTrailers(TrailersWait { done, tail }))
                    } else {
                        self.stream_state = Some(state);
                        self.deliver_status(
                            done,
                            StreamTrailers::bare(2, "stream already consumed"),
                            tail,
                        )
                    },
                }
            },
        }
    }

    fn read_message(&mut self, done: Vec<ResultProperty>, tail: Tail) -> (r: Result<
        BatchStep,
        PhpException,
    >)
        ensures
            outcome(*final(self), r) == reads_message(old(self)@, properties(done@), tail),
    {
        if !tail.flags.message {
            return self.read_status(done, tail);
        }
        let ended = match &self.stream_state {
            None => {
                return Err(default_exception("no active stream"));
            },
            Some(state) => state.cached_trailers.is_some(),
        };
        if ended {
            self.read_status(with_property(done, ResultProperty::Message(None)), tail)
        } else {
            Ok(BatchStep::AwaitMessage(MessageWait { done, tail }))
        }
    }

    fn build_stream_result(&mut self, tail: Tail) -> (r: Result<BatchStep, PhpException>)
        ensures
            outcome(*final(self), r) == reads(old(self)@, tail),
    {
        match self.stream_state.take() {
            None => Err(default_exception("no active stream")),
            Some(state) => {
                let mut state = state;
                let awaits = tail.flags.initial_metadata && state.meta_pending;
                if awaits {
                    state.meta_pending = false;
                }
                self.stream_state = Some(state);
                if awaits {
                    Ok(BatchStep::AwaitMetadata(MetadataWait { tail }))
                } else if tail.flags.initial_metadata {
                    self.deliver_metadata(None, tail)
                } else {
                    self.read_message(no_properties(), tail)
                }
            },
        }
    }

    fn deliver_metadata(&mut self, metadata: Option<MetadataMap>, tail: Tail) -> (r: Result<
        BatchStep,
        PhpException,
    >)
        ensures
            outcome(*final(self), r) == has_metadata(old(self)@, items_of(metadata), tail),
    {
        let entries = entries_of(&metadata);
        let done = with_property(no_properties(), ResultProperty::Metadata(entries));
        proof {
            let property = PropertyView::Metadata(php_entries(items_of(metadata)));
            assert(Seq::<PropertyView>::empty().push(property) =~= seq![property]);
        }
        self.read_message(done, tail)
    }
}

impl RuntimeWait {
    /// Whether the batch can go on at an instant.
    pub fn fits(&self, call: &GrpcCall, now: i64) -> (r: bool)
        ensures
            r == phase_fits(call@, self.phase@, now),
    {
        if deadline_already_expired_at(call.deadline_usec, now) || method_path(
            call.method.as_str(),
        ).is_err() {
            return true;
        }
        match &self.phase {
            RuntimePhase::StartBidi { send_metadata, plugin_metadata, .. } => request_metadata_fits(
                send_metadata,
                plugin_metadata,
            ) && request_timeout_fits(call.deadline_usec, now),
            RuntimePhase::StartServer { send_metadata, plugin_metadata, .. } =>
                request_metadata_fits(send_metadata, plugin_metadata) && request_timeout_fits(
                call.deadline_usec,
                now,
            ),
            RuntimePhase::Unary { send_metadata, plugin_metadata, .. } => request_metadata_fits(
                send_metadata,
                plugin_metadata,
            ) && request_timeout_fits(call.deadline_usec, now),
            _ => true,
        }
    }

    /// Goes on in the runtime. Nothing that happens here says anything of the
    /// channel.
    pub fn resume(self, call: &mut GrpcCall, now: i64) -> (r: Result<BatchStep, PhpException>)
        requires
            phase_fits(old(call)@, self.phase@, now),
        ensures
            outcome(*final(call), r) == entered(old(call)@, self.phase@, self.tail, now),
    {
        let tail = self.tail;
        match self.phase {
            RuntimePhase::Send { message, close } => call.send_stream_message(message, close, tail),
            RuntimePhase::StartBidi { send_metadata, plugin_metadata, message } =>
                call.start_stream(
                true,
                send_metadata,
                plugin_metadata,
                Bytes::new(),
                Some(message),
                tail,
                now,
            ),
            RuntimePhase::StartServer { send_metadata, plugin_metadata, message } =>
                call.start_stream(
                false,
                send_metadata,
                plugin_metadata,
                message_or_empty(message),
                None,
                tail,
                now,
            ),
            RuntimePhase::Unary { send_metadata, plugin_metadata, message } => call.execute_call(
                send_metadata,
                plugin_metadata,
                message,
                tail,
                now,
            ),
            RuntimePhase::Read => call.build_stream_result(tail),
        }
    }
}

impl OpenWait {
    /// Goes on once the task that drives the stream was started.
    pub fn resume(self, call: &mut GrpcCall) -> (r: Result<BatchStep, PhpException>)
        ensures
            outcome(*final(call), r) == opened(old(call)@, message_view(self.message), self.tail),
    {
        call.open(self.message, self.tail)
    }
}

impl SendWait {
    /// Goes on once the message was sent, or could not be.
    pub fn resume(self, call: &mut GrpcCall, sent: bool) -> (r: Result<BatchStep, PhpException>)
        ensures
            outcome(*final(call), r) == message_sent(old(call)@, sent, self.close, self.tail),
    {
        if sent {
            call.finish_sends(self.close, self.tail)
        } else {
            Err(default_exception("stream send channel closed"))
        }
    }
}

impl CallWait {
    /// Goes on once the unary call has ended. The details of a failure are
    /// among what PHP reads of its status.
    pub fn resume(self, call: &mut GrpcCall, ended: CallOutcome, now: i64) -> (r: Transition)
        requires
            ended matches CallOutcome::Failed(status) ==> has_room(status_items(status)),
        ensures
            outcome(*final(call), r.step) == call_ended(old(call)@, ended, self.tail, now),
            r.channel_state == state_after_call(ended),
            ended matches CallOutcome::Failed(status) ==> details_reach_php(status),
    {
        let tail = self.tail;
        match ended {
            CallOutcome::Response { metadata, body } => {
                let result = CallResult {
                    initial_metadata: Some(metadata),
                    body: Some(body),
                    trailing_metadata: None,
                    code: 0,
                    message: String::new(),
                };
                assert(result@.message =~= Seq::<char>::empty());
                let done = build_unary_result(tail.flags, result);
                Transition { channel_state: Some(CHANNEL_READY), step: call.finish(tail, done) }
            },
            CallOutcome::Failed(status) => {
                let (code, message) = status_to_php_at(&status, call.deadline_usec, now);
                let result = CallResult {
                    initial_metadata: None,
                    body: None,
                    trailing_metadata: Some(status_metadata_for_php(&status)),
                    code,
                    message,
                };
                let done = build_unary_result(tail.flags, result);
                let state: i64 = if code == 14 {
                    CHANNEL_TRANSIENT_FAILURE
                } else {
                    CHANNEL_READY
                };
                Transition { channel_state: Some(state), step: call.finish(tail, done) }
            },
            CallOutcome::NotReady(e) => Transition {
                channel_state: Some(CHANNEL_TRANSIENT_FAILURE),
                step: Err(GrpcError::Transport(e).into_exception()),
            },
            CallOutcome::Cancelled => Transition {
                channel_state: None,
                step: Err(
                    GrpcError::Status {
                        code: 1,
                        message: "Call cancelled".to_owned(),
                    }.into_exception(),
                ),
            },
        }
    }
}

impl MetadataWait {
    /// Goes on with the initial metadata of the stream, where it has come.
    pub fn resume(self, call: &mut GrpcCall, metadata: Option<MetadataMap>) -> (r: Result<
        BatchStep,
        PhpException,
    >)
        ensures
            outcome(*final(call), r) == has_metadata(old(call)@, items_of(metadata), self.tail),
    {
        call.deliver_metadata(metadata, self.tail)
    }
}

/// The view of what a stream had to read.
pub open spec fn read_view(message: Option<StreamMessage>) -> Option<MessageView> {
    match message {
        Some(m) => Some(m@),
        None => None,
    }
}

impl MessageWait {
    /// Goes on with what the stream had to read. Nothing at all stands for the
    /// end of the stream.
    pub fn resume(self, call: &mut GrpcCall, message: Option<StreamMessage>, now: i64) -> (r:
        Result<BatchStep, PhpException>)
        requires
            message matches Some(StreamMessage::Failed(status)) ==> has_room(status_items(status)),
        ensures
            outcome(*final(call), r) == has_message(
                old(call)@,
                properties(self.done@),
                read_view(message),
                self.tail,
                now,
            ),
            old(call)@.stream is Some ==> (message matches Some(StreamMessage::Failed(status))
                ==> details_reach_php(status)),
    {
        match call.stream_state.take() {
            None => Err(default_exception("no active stream")),
            Some(state) => {
                let mut state = state;
                let bytes = match message {
                    Some(StreamMessage::Item(bytes)) => message_bytes(Some(bytes)),
                    Some(StreamMessage::End) => None,
                    Some(StreamMessage::Failed(status)) => {
                        state.cached_trailers = Some(
                            StreamTrailers::from_status(&status, call.deadline_usec, now),
                        );
                        None
                    },
                    None => None,
                };
                call.stream_state = Some(state);
                call.read_status(
                    with_property(self.done, ResultProperty::Message(bytes)),
                    self.tail,
                )
            },
        }
    }
}

impl TrailersWait {
    /// Goes on with the trailers of the stream, where they have come.
    pub fn resume(self, call: &mut GrpcCall, trailers: Option<StreamTrailers>) -> (r: Result<
        BatchStep,
        PhpException,
    >)
        ensures
            outcome(*final(call), r) == has_trailers(
                old(call)@,
                properties(self.done@),
                match trailers {
                    Some(t) => Some(t@),
                    None => None,
                },
                self.tail,
            ),
    {
        let trailers = match trailers {
            Some(t) => t,
            None => StreamTrailers::bare(2, "stream task terminated unexpectedly"),
        };
        call.deliver_status(self.done, trailers, self.tail)
    }
}

// ---------------------------------------------------------------------------
// The rest of a call
// ---------------------------------------------------------------------------

/// A new call on an open channel.
pub open spec fn new_call(
    channel: ChannelInner,
    method: Seq<char>,
    deadline_usec: i64,
    host_override: Option<Seq<char>>,
) -> CallView {
    CallView {
        transport: channel.transport,
        method,
        target: channel.target@,
        deadline_usec,
        host_override,
        plugins: plugins_in(channel.call_plugins),
        cancelled: false,
        max_decoding: channel.max_decoding_message_size,
        max_encoding: channel.max_encoding_message_size,
        pending_metadata: Seq::empty(),
        pending_message: None,
        send_closed: false,
        initial_metadata_sent: false,
        finished: false,
        stream: None,
    }
}

/// The address of a peer.
pub enum PeerAddress {
    V4(String),
    V6(String),
}

impl GrpcCall {
    /// A call whose deadline is told in microseconds since the epoch.
    pub fn with_deadline(
        channel: &GrpcChannel,
        method: String,
        deadline_usec: i64,
        host_override: Option<String>,
    ) -> (r: Result<GrpcCall, PhpException>)
        ensures
            match channel.inner {
                Some(inner) => r matches Ok(call) && call@ == new_call(
                    inner,
                    method@,
                    deadline_usec,
                    text_in(host_override),
                ),
                None => r matches Err(e) && e@ == invalid_argument_view(
                    "Call cannot be constructed from a closed Channel"@,
                ),
            },
    {
        let transport = match channel.get_tonic_channel() {
            Some(transport) => transport,
            None => {
                return Err(invalid_argument("Call cannot be constructed from a closed Channel"));
            },
        };
        let target = match channel.get_target_uri() {
            Some(target) => target,
            None => String::new(),
        };
        Ok(
            GrpcCall {
                transport,
                method,
                target,
                deadline_usec,
                host_override,
                call_plugins: channel.get_call_plugin(),
                cancelled: false,
                max_decoding_message_size: channel.get_max_decoding_message_size(),
                max_encoding_message_size: channel.get_max_encoding_message_size(),
                pending_metadata: no_pairs(),
                pending_message: None,
                send_closed: false,
                initial_metadata_sent: false,
                finished: false,
                stream_state: None,
            },
        )
    }

    /// Constructs a call. A deadline that is a span counts from now.
    pub fn construct(
        channel: &GrpcChannel,
        method: String,
        deadline: &GrpcTimeval,
        host_override: Option<String>,
    ) -> (r: Result<GrpcCall, PhpException>)
        ensures
            match channel.inner {
                Some(inner) => r matches Ok(call) && exists|
                    instant: std::time::SystemTime,
                |
                    call@ == new_call(
                        inner,
                        method@,
                        deadline.absolute_at(span_start(#[trigger] micros_at(instant))),
                        text_in(host_override),
                    ),
                None => r matches Err(e) && e@ == invalid_argument_view(
                    "Call cannot be constructed from a closed Channel"@,
                ),
            },
    {
        GrpcCall::with_deadline(channel, method, deadline.to_absolute_usec(), host_override)
    }

    /// `getPeer`: the address that the target resolves to, as
    /// `ipv4:IP:port` or `ipv6:[IP]:port`, or else the target.
    pub fn get_peer(&self, resolved: Option<PeerAddress>) -> (r: String)
        ensures
            r@ == match resolved {
                Some(PeerAddress::V4(address)) => "ipv4:"@ + address@,
                Some(PeerAddress::V6(address)) => "ipv6:"@ + address@,
                None => self.target@,
            },
    {
        match resolved {
            Some(PeerAddress::V4(address)) => joined("ipv4:", address.as_str()),
            Some(PeerAddress::V6(address)) => joined("ipv6:", address.as_str()),
            None => self.target.clone(),
        }
    }

    /// `cancel`: cancels the call.
    pub fn cancel(&mut self)
        ensures
            final(self)@ == (CallView { cancelled: true, ..old(self)@ }),
    {
        self.cancelled = true;
    }

    /// `setCredentials`: uses the plugins of call credentials from now on.
    pub fn set_credentials(&mut self, creds: &GrpcCallCredentials) -> (r: i64)
        ensures
            r == 0,
            final(self)@ == (CallView { plugins: Some(creds.plugins@), ..old(self)@ }),
    {
        self.call_plugins = Some(same_plugins(&creds.plugins));
        0
    }
}

} // verus!

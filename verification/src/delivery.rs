//! What every step of a batch hands on: nothing that PHP, a plugin or the
//! server gave is lost, cut or changed on the way through a call.

use crate::batch::{
    ack_properties, batch_of, items_of, law_unary_properties, message_view, properties,
    unary_properties, BatchView, CallResultView, PropertyView, ReadFlags,
};
use crate::call::{
    call_ended, entered, has_message, has_metadata, has_trailers, message_sent, new_call, opened,
    outcome, phase_fits, plugin_replied, read_view, started, state_after_call, tail_of,
    ActiveStream, BatchStep, CallOutcome, CallView, GrpcCall, Outcome, PluginPhase, PluginPhaseView,
    RpcStart, RuntimePhase, RuntimePhaseView, StepView, StreamView, Tail,
};
use crate::channel::ChannelInner;
use crate::credentials::text_in;
use crate::error::{transport_error_text, ExceptionClass, ExceptionView, PhpException};
use crate::metadata::{law_no_metadata_stays_none, pairs, php_entries};
use crate::plugin::{reply_pairs, PluginReply};
use crate::request::{finished_items, request_metadata, timeout_fits, Pair};
use crate::status::{law_status_is_reported_as_it_is, php_status, status_php_items};
use crate::stream::{MessageView, StreamMessage, TrailersView};
use crate::text::{decimal, decimal_nat, digit_char};
use crate::value::{ArrayKey, PhpValue};
use crate::wire::{
    bytes_of, has_room, metadata_items, path_outcome, path_text, request_items, request_message,
    status_code, status_details, status_items, status_message, Item,
};
use bytes::Bytes;
use tonic::metadata::MetadataMap;
use tonic::Status;
use vstd::prelude::*;

verus! {

// ---------------------------------------------------------------------------
// What is seen of calls and steps
// ---------------------------------------------------------------------------

/// A call is seen as it is held, field by field, and so is its stream.
pub proof fn law_calls_are_seen_whole(call: GrpcCall, stream: ActiveStream)
    ensures
        call@.transport == call.transport,
        call@.method == call.method@,
        call@.target == call.target@,
        call@.deadline_usec == call.deadline_usec,
        call.host_override matches Some(host) ==> call@.host_override == Some(host@),
        call.host_override is None ==> call@.host_override is None,
        call.call_plugins matches Some(list) ==> call@.plugins == Some(list@),
        call.call_plugins is None ==> call@.plugins is None,
        call@.cancelled == call.cancelled,
        call@.max_decoding == call.max_decoding_message_size,
        call@.max_encoding == call.max_encoding_message_size,
        call@.pending_metadata == pairs(call.pending_metadata@),
        call.pending_message matches Some(bytes) ==> call@.pending_message == Some(bytes_of(bytes)),
        call.pending_message is None ==> call@.pending_message is None,
        call@.send_closed == call.send_closed,
        call@.initial_metadata_sent == call.initial_metadata_sent,
        call@.finished == call.finished,
        call.stream_state matches Some(state) ==> call@.stream == Some(state@),
        call.stream_state is None ==> call@.stream is None,
        stream@.can_send == stream.can_send,
        stream@.meta_pending == stream.meta_pending,
        stream.cached_trailers matches Some(trailers) ==> stream@.cached == Some(trailers@),
        stream.cached_trailers is None ==> stream@.cached is None,
        stream@.trailers_pending == stream.trailers_pending,
        stream@.expired == stream.expired,
{
}

/// A request about to be sent is seen with all of its items, all the bytes of
/// its message, and its path.
pub proof fn law_requests_are_seen_whole(start: RpcStart)
    ensures
        start@.bidi == start.bidi,
        start@.items == request_items(start.request),
        start@.message == request_message(start.request),
        start@.path == path_text(start.path),
{
}

/// What a batch waits for is seen as it is held: metadata pair by pair, and
/// messages with all of their bytes.
pub proof fn law_phases_are_seen_whole(plugin: PluginPhase, runtime: RuntimePhase)
    ensures
        plugin matches PluginPhase::Bidi { send_metadata, message } ==> plugin@
            == (PluginPhaseView::Bidi {
            send_metadata: pairs(send_metadata@),
            message: bytes_of(message),
        }),
        plugin matches PluginPhase::Buffer { send_close } ==> plugin@ == (PluginPhaseView::Buffer {
            send_close,
        }),
        plugin matches PluginPhase::Receive { send_metadata, message: Some(bytes) } ==> plugin@
            == (PluginPhaseView::Receive {
            send_metadata: pairs(send_metadata@),
            message: Some(bytes_of(bytes)),
        }),
        plugin matches PluginPhase::Receive { send_metadata, message: None } ==> plugin@
            == (PluginPhaseView::Receive { send_metadata: pairs(send_metadata@), message: None }),
        runtime matches RuntimePhase::Send { message, close } ==> runtime@
            == (RuntimePhaseView::Send { message: bytes_of(message), close }),
        runtime matches RuntimePhase::StartBidi { send_metadata, plugin_metadata, message }
            ==> runtime@ == (RuntimePhaseView::StartBidi {
            send_metadata: pairs(send_metadata@),
            plugin_metadata: pairs(plugin_metadata@),
            message: bytes_of(message),
        }),
        runtime matches RuntimePhase::StartServer {
            send_metadata,
            plugin_metadata,
            message,
        } ==> runtime@ == (RuntimePhaseView::StartServer {
            send_metadata: pairs(send_metadata@),
            plugin_metadata: pairs(plugin_metadata@),
            message: match message {
                Some(bytes) => Some(bytes_of(bytes)),
                None => None,
            },
        }),
        runtime matches RuntimePhase::Unary { send_metadata, plugin_metadata, message } ==> runtime@
            == (RuntimePhaseView::Unary {
            send_metadata: pairs(send_metadata@),
            plugin_metadata: pairs(plugin_metadata@),
            message: match message {
                Some(bytes) => Some(bytes_of(bytes)),
                None => None,
            },
        }),
        runtime is Read ==> runtime@ is Read,
{
}

/// A step is seen as it is held, and so is the exception in place of one.
pub proof fn law_steps_are_seen_whole(call: GrpcCall, step: BatchStep, thrown: PhpException)
    ensures
        outcome(call, Ok(step)).call == call@,
        outcome(call, Ok(step)).step == Ok::<StepView, ExceptionView>(step@),
        outcome(call, Err(thrown)).call == call@,
        outcome(call, Err(thrown)).step == Err::<StepView, ExceptionView>(thrown@),
        step matches BatchStep::InvokePlugin(wait) ==> step@ == (StepView::InvokePlugin {
            callable: wait.callable,
            rest: wait.rest@,
            gathered: pairs(wait.gathered@),
            phase: wait.phase@,
            tail: wait.tail,
        }),
        step matches BatchStep::EnterRuntime(wait) ==> step@ == (StepView::EnterRuntime {
            phase: wait.phase@,
            tail: wait.tail,
        }),
        step matches BatchStep::OpenStream { start, wait } ==> step@ == (StepView::OpenStream {
            start: start@,
            message: match wait.message {
                Some(bytes) => Some(bytes_of(bytes)),
                None => None,
            },
            tail: wait.tail,
        }),
        step matches BatchStep::SendMessage { message, wait } ==> step@ == (StepView::SendMessage {
            message: bytes_of(message),
            close: wait.close,
            tail: wait.tail,
        }),
        step matches BatchStep::Call { start, wait } ==> step@ == (StepView::Call {
            start: start@,
            tail: wait.tail,
        }),
        step matches BatchStep::AwaitMetadata(wait) ==> step@ == (StepView::AwaitMetadata {
            tail: wait.tail,
        }),
        step matches BatchStep::AwaitMessage(wait) ==> step@ == (StepView::AwaitMessage {
            done: properties(wait.done@),
            tail: wait.tail,
        }),
        step matches BatchStep::AwaitTrailers(wait) ==> step@ == (StepView::AwaitTrailers {
            done: properties(wait.done@),
            tail: wait.tail,
        }),
        step matches BatchStep::Done(list) ==> step@ == StepView::Done(properties(list@)),
{
}

/// What a stream had to read, and metadata that may be there, are seen as they
/// are.
pub proof fn law_answers_are_seen_whole(
    message: StreamMessage,
    map: MetadataMap,
    bytes: Bytes,
)
    ensures
        read_view(Some(message)) == Some(message@),
        read_view(None) is None,
        items_of(Some(map)) == metadata_items(map),
        items_of(None).len() == 0,
        message_view(Some(bytes)) == Some(bytes_of(bytes)),
        message_view(None) is None,
{
}

// ---------------------------------------------------------------------------
// The beginning of a batch
// ---------------------------------------------------------------------------

/// A batch that cannot begin is told why, in so many words: that the channel is
/// closed, that the call is cancelled, or that the batch comes out of turn. The
/// call stays as it was.
pub proof fn law_refusals_are_told(
    call: CallView,
    closed: bool,
    ops: Seq<(ArrayKey, PhpValue)>,
)
    ensures
        closed ==> started(call, closed, ops) == (Outcome {
            call,
            step: Err(
                ExceptionView {
                    class: ExceptionClass::RuntimeException,
                    message: "startBatch Error. Channel is closed"@,
                    code: 0,
                },
            ),
        }),
        !closed && call.cancelled ==> started(call, closed, ops) == (Outcome {
            call,
            step: Err(
                ExceptionView {
                    class: ExceptionClass::Exception,
                    message: "gRPC status 1: Call has been cancelled"@,
                    code: 0,
                },
            ),
        }),
        !closed && !call.cancelled ==> (batch_of(ops) matches Err(e) ==> started(
            call,
            closed,
            ops,
        ) == (Outcome { call, step: Err(e) })),
        !closed && !call.cancelled ==> (batch_of(ops) matches Ok(batch) ==> (
        batch.has_send_initial_metadata && call.initial_metadata_sent) || (call.finished && (
        batch.has_send_initial_metadata || batch.send_message is Some || batch.send_close
            || batch.recv_initial_metadata || batch.recv_message || batch.recv_status)) ==> started(
            call,
            closed,
            ops,
        ) == (Outcome {
            call,
            step: Err(
                ExceptionView {
                    class: ExceptionClass::LogicException,
                    message: "start_batch was called incorrectly"@,
                    code: 8,
                },
            ),
        })),
{
    reveal_strlit("gRPC status ");
    reveal_strlit(": ");
    reveal_strlit("Call has been cancelled");
    reveal_strlit("gRPC status 1: Call has been cancelled");
    lemma_decimal_one();
    assert("gRPC status "@ + decimal(1) + ": "@ + "Call has been cancelled"@
        =~= "gRPC status 1: Call has been cancelled"@);
}

proof fn lemma_decimal_one()
    ensures
        decimal(1) == seq!['1'],
{
    assert(decimal_nat(1) =~= seq![digit_char(1)]);
    assert(digit_char(1) == '1');
}

/// Whether the tail of a batch waits for what the batch receives, and
/// acknowledges what it sends.
pub open spec fn is_tail(tail: Tail, batch: BatchView) -> bool {
    &&& tail.flags.initial_metadata == batch.recv_initial_metadata
    &&& tail.flags.message == batch.recv_message
    &&& tail.flags.status == batch.recv_status
    &&& tail.acks.metadata == batch.has_send_initial_metadata
    &&& tail.acks.message == (batch.send_message is Some)
    &&& tail.acks.close == batch.send_close
}

/// Whether a batch is taken by a call: the call is neither cancelled nor over,
/// the batch asks for something, and it does not send the initial metadata
/// again.
pub open spec fn is_taken(
    call: CallView,
    ops: Seq<(ArrayKey, PhpValue)>,
    batch: BatchView,
) -> bool {
    &&& !call.cancelled
    &&& !call.finished
    &&& batch_of(ops) == Ok::<BatchView, ExceptionView>(batch)
    &&& batch.has_send_initial_metadata || batch.send_message is Some || batch.send_close
        || batch.recv_initial_metadata || batch.recv_message || batch.recv_status
    &&& !(batch.has_send_initial_metadata && call.initial_metadata_sent)
}

/// Whether a batch receives anything.
pub open spec fn waits(batch: BatchView) -> bool {
    batch.recv_initial_metadata || batch.recv_message || batch.recv_status
}

/// A call that was given a batch: it remembers that initial metadata was sent
/// and that the sending has ended.
pub open spec fn noted(call: CallView, batch: BatchView) -> CallView {
    CallView {
        initial_metadata_sent: call.initial_metadata_sent || batch.has_send_initial_metadata,
        send_closed: call.send_closed || batch.send_close,
        ..call
    }
}

/// On a call that has a stream, a batch sends its message on that stream, byte
/// for byte; one without a message goes on to read, or is done.
pub proof fn law_batch_on_a_stream(
    call: CallView,
    ops: Seq<(ArrayKey, PhpValue)>,
    batch: BatchView,
    stream: StreamView,
) -> (tail: Tail)
    requires
        is_taken(call, ops, batch),
        call.stream == Some(stream),
    ensures
        is_tail(tail, batch),
        batch.send_message matches Some(message) ==> started(call, false, ops) == (Outcome {
            call: noted(call, batch),
            step: Ok(
                StepView::EnterRuntime {
                    phase: RuntimePhaseView::Send { message, close: batch.send_close },
                    tail,
                },
            ),
        }),
        batch.send_message is None && waits(batch) ==> started(call, false, ops) == (Outcome {
            call: CallView {
                stream: Some(
                    StreamView { can_send: stream.can_send && !batch.send_close, ..stream },
                ),
                ..noted(call, batch)
            },
            step: Ok(StepView::EnterRuntime { phase: RuntimePhaseView::Read, tail }),
        }),
        batch.send_message is None && !waits(batch) ==> started(call, false, ops) == (Outcome {
            call: CallView {
                stream: Some(
                    StreamView { can_send: stream.can_send && !batch.send_close, ..stream },
                ),
                ..noted(call, batch)
            },
            step: Ok(StepView::Done(ack_properties(tail.acks))),
        }),
{
    let acks = tail_of(batch).acks;
    assert(Seq::<PropertyView>::empty() + ack_properties(acks) =~= ack_properties(acks));
    tail_of(batch)
}

/// The metadata and the message of a batch that sends and receives are what its
/// request is made of, all of them: a unary call where message and status are
/// both waited for or messages may follow, and a stream from the server
/// otherwise. The plugins, where the call has any, are asked first, from the
/// first on, and nothing of the batch is lost meanwhile.
pub proof fn law_batch_that_sends_and_receives(
    call: CallView,
    ops: Seq<(ArrayKey, PhpValue)>,
    batch: BatchView,
) -> (tail: Tail)
    requires
        is_taken(call, ops, batch),
        call.stream is None,
        waits(batch),
        batch.has_send_initial_metadata || batch.send_message is Some || batch.send_close,
    ensures
        is_tail(tail, batch),
        call.plugins is None && ((batch.recv_message && batch.recv_status) || !(call.send_closed
            || batch.send_close)) ==> started(call, false, ops) == (Outcome {
            call: noted(call, batch),
            step: Ok(
                StepView::EnterRuntime {
                    phase: RuntimePhaseView::Unary {
                        send_metadata: batch.send_metadata,
                        plugin_metadata: Seq::empty(),
                        message: batch.send_message,
                    },
                    tail,
                },
            ),
        }),
        call.plugins is None && !(batch.recv_message && batch.recv_status) && (call.send_closed
            || batch.send_close) ==> started(call, false, ops) == (Outcome {
            call: noted(call, batch),
            step: Ok(
                StepView::EnterRuntime {
                    phase: RuntimePhaseView::StartServer {
                        send_metadata: batch.send_metadata,
                        plugin_metadata: Seq::empty(),
                        message: batch.send_message,
                    },
                    tail,
                },
            ),
        }),
        call.plugins matches Some(plugins) ==> plugins.len() > 0 ==> started(call, false, ops) == (
        Outcome {
            call: noted(call, batch),
            step: Ok(
                StepView::InvokePlugin {
                    callable: plugins[0],
                    rest: plugins.skip(1),
                    gathered: Seq::empty(),
                    phase: PluginPhaseView::Receive {
                        send_metadata: batch.send_metadata,
                        message: batch.send_message,
                    },
                    tail,
                },
            ),
        }),
{
    tail_of(batch)
}

/// A batch that only receives uses what an earlier one left to be sent, all of
/// it, and leaves nothing behind.
pub proof fn law_batch_that_receives(
    call: CallView,
    ops: Seq<(ArrayKey, PhpValue)>,
    batch: BatchView,
) -> (tail: Tail)
    requires
        is_taken(call, ops, batch),
        call.stream is None,
        waits(batch),
        !batch.has_send_initial_metadata,
        batch.send_message is None,
        !batch.send_close,
    ensures
        is_tail(tail, batch),
        started(call, false, ops).call == (CallView {
            pending_metadata: Seq::empty(),
            pending_message: None,
            ..call
        }),
        (batch.recv_message && batch.recv_status) || !call.send_closed ==> started(
            call,
            false,
            ops,
        ).step == Ok::<StepView, ExceptionView>(
            StepView::EnterRuntime {
                phase: RuntimePhaseView::Unary {
                    send_metadata: call.pending_metadata,
                    plugin_metadata: Seq::empty(),
                    message: call.pending_message,
                },
                tail,
            },
        ),
        !(batch.recv_message && batch.recv_status) && call.send_closed ==> started(
            call,
            false,
            ops,
        ).step == Ok::<StepView, ExceptionView>(
            StepView::EnterRuntime {
                phase: RuntimePhaseView::StartServer {
                    send_metadata: call.pending_metadata,
                    plugin_metadata: Seq::empty(),
                    message: call.pending_message,
                },
                tail,
            },
        ),
{
    tail_of(batch)
}

/// A batch that only sends, on a call without a stream. A message with more to
/// come opens a stream in both directions; the end of the sending opens a stream
/// from the server with the message there is; metadata alone is kept for later.
/// What is sent is what PHP gave, all of it.
pub proof fn law_batch_that_sends(
    call: CallView,
    ops: Seq<(ArrayKey, PhpValue)>,
    batch: BatchView,
) -> (tail: Tail)
    requires
        is_taken(call, ops, batch),
        call.stream is None,
        call.plugins is None,
        !waits(batch),
    ensures
        is_tail(tail, batch),
        batch.send_message matches Some(message) ==> !batch.send_close ==> started(
            call,
            false,
            ops,
        ) == (Outcome {
            call: CallView { pending_metadata: Seq::empty(), ..noted(call, batch) },
            step: Ok(
                StepView::EnterRuntime {
                    phase: RuntimePhaseView::StartBidi {
                        send_metadata: call.pending_metadata,
                        plugin_metadata: Seq::empty(),
                        message,
                    },
                    tail,
                },
            ),
        }),
        batch.send_close ==> started(call, false, ops) == (Outcome {
            call: CallView {
                pending_metadata: Seq::empty(),
                pending_message: None,
                ..noted(call, batch)
            },
            step: Ok(
                StepView::EnterRuntime {
                    phase: RuntimePhaseView::StartServer {
                        send_metadata: batch.send_metadata,
                        plugin_metadata: Seq::empty(),
                        message: batch.send_message,
                    },
                    tail,
                },
            ),
        }),
        batch.send_message is None && !batch.send_close ==> started(call, false, ops) == (Outcome {
            call: CallView {
                pending_metadata: batch.send_metadata,
                pending_message: None,
                ..noted(call, batch)
            },
            step: Ok(StepView::Done(ack_properties(tail.acks))),
        }),
{
    let acks = tail_of(batch).acks;
    assert(Seq::<PropertyView>::empty() + ack_properties(acks) =~= ack_properties(acks));
    assert(batch.send_metadata + Seq::<Pair>::empty() =~= batch.send_metadata);
    tail_of(batch)
}

/// A batch that only sends, on a call with plugins, asks the first of them, and
/// keeps what PHP gave.
pub proof fn law_batch_that_sends_asks_plugins(
    call: CallView,
    ops: Seq<(ArrayKey, PhpValue)>,
    batch: BatchView,
    plugins: Seq<u64>,
) -> (tail: Tail)
    requires
        is_taken(call, ops, batch),
        call.stream is None,
        call.plugins == Some(plugins),
        plugins.len() > 0,
        !waits(batch),
    ensures
        is_tail(tail, batch),
        batch.send_message matches Some(message) ==> !batch.send_close ==> started(
            call,
            false,
            ops,
        ) == (Outcome {
            call: CallView { pending_metadata: Seq::empty(), ..noted(call, batch) },
            step: Ok(
                StepView::InvokePlugin {
                    callable: plugins[0],
                    rest: plugins.skip(1),
                    gathered: Seq::empty(),
                    phase: PluginPhaseView::Bidi {
                        send_metadata: call.pending_metadata,
                        message,
                    },
                    tail,
                },
            ),
        }),
        batch.send_message is None || batch.send_close ==> started(call, false, ops) == (Outcome {
            call: CallView {
                pending_metadata: batch.send_metadata,
                pending_message: batch.send_message,
                ..noted(call, batch)
            },
            step: Ok(
                StepView::InvokePlugin {
                    callable: plugins[0],
                    rest: plugins.skip(1),
                    gathered: Seq::empty(),
                    phase: PluginPhaseView::Buffer { send_close: batch.send_close },
                    tail,
                },
            ),
        }),
{
    tail_of(batch)
}

/// A call whose plugins are none at all fails where they are needed.
pub proof fn law_missing_plugin_is_told(
    call: CallView,
    ops: Seq<(ArrayKey, PhpValue)>,
    batch: BatchView,
)
    requires
        is_taken(call, ops, batch),
        call.stream is None,
        call.plugins matches Some(plugins) && plugins.len() == 0,
        batch.has_send_initial_metadata || batch.send_message is Some || batch.send_close,
    ensures
        started(call, false, ops).step == Err::<StepView, ExceptionView>(
            ExceptionView {
                class: ExceptionClass::Exception,
                message: "callback failed: "@ + "plugin callable is not set"@,
                code: 0,
            },
        ),
{
}

// ---------------------------------------------------------------------------
// Plugins
// ---------------------------------------------------------------------------

/// What a plugin gives comes behind what those before it gave, and the next one
/// is asked; nothing else changes. Why a plugin failed is told whole.
pub proof fn law_plugins_follow_each_other(
    call: CallView,
    rest: Seq<u64>,
    gathered: Seq<Pair>,
    phase: PluginPhaseView,
    reply: PluginReply,
    tail: Tail,
)
    ensures
        reply_pairs(reply) matches Ok(list) ==> rest.len() > 0 ==> plugin_replied(
            call,
            rest,
            gathered,
            phase,
            reply,
            tail,
        ) == (Outcome {
            call,
            step: Ok(
                StepView::InvokePlugin {
                    callable: rest[0],
                    rest: rest.skip(1),
                    gathered: gathered + list,
                    phase,
                    tail,
                },
            ),
        }),
        reply_pairs(reply) matches Err(why) ==> plugin_replied(
            call,
            rest,
            gathered,
            phase,
            reply,
            tail,
        ) == (Outcome {
            call,
            step: Err(
                ExceptionView {
                    class: ExceptionClass::Exception,
                    message: "callback failed: "@ + why,
                    code: 0,
                },
            ),
        }),
{
}

/// Once all plugins have replied, the batch goes on with what PHP gave and with
/// what the plugins gave, all of it and in their order.
pub proof fn law_plugins_are_done(
    call: CallView,
    gathered: Seq<Pair>,
    phase: PluginPhaseView,
    reply: PluginReply,
    list: Seq<Pair>,
    tail: Tail,
)
    requires
        reply_pairs(reply) == Ok::<Seq<Pair>, Seq<char>>(list),
    ensures
        phase matches PluginPhaseView::Bidi { send_metadata, message } ==> plugin_replied(
            call,
            Seq::empty(),
            gathered,
            phase,
            reply,
            tail,
        ) == (Outcome {
            call,
            step: Ok(
                StepView::EnterRuntime {
                    phase: RuntimePhaseView::StartBidi {
                        send_metadata,
                        plugin_metadata: gathered + list,
                        message,
                    },
                    tail,
                },
            ),
        }),
        phase == (PluginPhaseView::Buffer { send_close: true }) ==> plugin_replied(
            call,
            Seq::empty(),
            gathered,
            phase,
            reply,
            tail,
        ) == (Outcome {
            call: CallView { pending_metadata: Seq::empty(), pending_message: None, ..call },
            step: Ok(
                StepView::EnterRuntime {
                    phase: RuntimePhaseView::StartServer {
                        send_metadata: call.pending_metadata + (gathered + list),
                        plugin_metadata: Seq::empty(),
                        message: call.pending_message,
                    },
                    tail,
                },
            ),
        }),
        phase == (PluginPhaseView::Buffer { send_close: false }) ==> plugin_replied(
            call,
            Seq::empty(),
            gathered,
            phase,
            reply,
            tail,
        ) == (Outcome {
            call: CallView {
                pending_metadata: call.pending_metadata + (gathered + list),
                finished: call.finished || tail.flags.status,
                ..call
            },
            step: Ok(StepView::Done(ack_properties(tail.acks))),
        }),
        phase matches PluginPhaseView::Receive { send_metadata, message } ==> plugin_replied(
            call,
            Seq::empty(),
            gathered,
            phase,
            reply,
            tail,
        ) == (Outcome {
            call,
            step: Ok(
                StepView::EnterRuntime {
                    phase: if (tail.flags.message && tail.flags.status) || !call.send_closed {
                        RuntimePhaseView::Unary {
                            send_metadata,
                            plugin_metadata: gathered + list,
                            message,
                        }
                    } else {
                        RuntimePhaseView::StartServer {
                            send_metadata,
                            plugin_metadata: gathered + list,
                            message,
                        }
                    },
                    tail,
                },
            ),
        }),
{
    assert(Seq::<PropertyView>::empty() + ack_properties(tail.acks) =~= ack_properties(tail.acks));
}

// ---------------------------------------------------------------------------
// Requests
// ---------------------------------------------------------------------------

/// Whether a deadline is a real one that has passed.
pub open spec fn is_past(deadline_usec: i64, now: i64) -> bool {
    0 < deadline_usec < i64::MAX && deadline_usec <= now
}

/// A call that is made within its deadline sends one request: to the path of its
/// method, with the message byte for byte, or an empty one where there is none,
/// and with its metadata and that of the plugins.
pub proof fn law_unary_requests_hold_everything(
    call: CallView,
    send_metadata: Seq<Pair>,
    plugin_metadata: Seq<Pair>,
    message: Option<Seq<u8>>,
    tail: Tail,
    now: i64,
    path: Seq<char>,
)
    requires
        !is_past(call.deadline_usec, now),
        path_outcome(call.method) == Ok::<Seq<char>, Seq<char>>(path),
    ensures
        entered(
            call,
            RuntimePhaseView::Unary { send_metadata, plugin_metadata, message },
            tail,
            now,
        ).call == call,
        entered(
            call,
            RuntimePhaseView::Unary { send_metadata, plugin_metadata, message },
            tail,
            now,
        ).step matches Ok(StepView::Call { start, tail: t }) && {
            &&& t == tail
            &&& !start.bidi
            &&& start.path == path
            &&& message matches Some(bytes) ==> start.message == bytes
            &&& message is None ==> start.message.len() == 0
            &&& start.items == finished_items(
                request_metadata(send_metadata, plugin_metadata),
                call.deadline_usec,
                now,
            )
        },
{
}

/// A stream that is opened within its deadline sends one request: to the path of
/// its method, with its metadata and that of the plugins. One from the server
/// takes the message byte for byte; one in both directions takes none, and sends
/// the message next.
pub proof fn law_stream_requests_hold_everything(
    call: CallView,
    send_metadata: Seq<Pair>,
    plugin_metadata: Seq<Pair>,
    message: Option<Seq<u8>>,
    first: Seq<u8>,
    tail: Tail,
    now: i64,
    path: Seq<char>,
)
    requires
        !is_past(call.deadline_usec, now),
        path_outcome(call.method) == Ok::<Seq<char>, Seq<char>>(path),
    ensures
        ({
            let server = entered(
                call,
                RuntimePhaseView::StartServer { send_metadata, plugin_metadata, message },
                tail,
                now,
            );
            &&& server.call == (CallView {
                stream: Some(
                    StreamView {
                        can_send: false,
                        meta_pending: true,
                        cached: None,
                        trailers_pending: true,
                        expired: false,
                    },
                ),
                ..call
            })
            &&& server.step matches Ok(StepView::OpenStream { start, message: next, tail: t }) && {
                &&& t == tail
                &&& next is None
                &&& !start.bidi
                &&& start.path == path
                &&& message matches Some(bytes) ==> start.message == bytes
                &&& message is None ==> start.message.len() == 0
                &&& start.items == finished_items(
                    request_metadata(send_metadata, plugin_metadata),
                    call.deadline_usec,
                    now,
                )
            }
        }),
        ({
            let both = entered(
                call,
                RuntimePhaseView::StartBidi { send_metadata, plugin_metadata, message: first },
                tail,
                now,
            );
            &&& both.call == (CallView {
                stream: Some(
                    StreamView {
                        can_send: true,
                        meta_pending: true,
                        cached: None,
                        trailers_pending: true,
                        expired: false,
                    },
                ),
                ..call
            })
            &&& both.step matches Ok(StepView::OpenStream { start, message: next, tail: t }) && {
                &&& t == tail
                &&& next == Some(first)
                &&& start.bidi
                &&& start.path == path
                &&& start.message.len() == 0
                &&& start.items == finished_items(
                    request_metadata(send_metadata, plugin_metadata),
                    call.deadline_usec,
                    now,
                )
            }
        }),
{
}

/// A method that has no path fails the batch within its deadline, and PHP is
/// told why; the call stays as it was.
pub proof fn law_bad_methods_are_told(
    call: CallView,
    phase: RuntimePhaseView,
    tail: Tail,
    now: i64,
    why: Seq<char>,
)
    requires
        phase is Unary || phase is StartServer || phase is StartBidi,
        !is_past(call.deadline_usec, now),
        path_outcome(call.method) == Err::<Seq<char>, Seq<char>>(why),
    ensures
        entered(call, phase, tail, now) == (Outcome {
            call,
            step: Err(
                ExceptionView {
                    class: ExceptionClass::Exception,
                    message: "invalid argument: "@ + ("invalid method path: "@ + why),
                    code: 0,
                },
            ),
        }),
{
}

/// A message goes out on an open stream byte for byte; a stream that takes none,
/// or a call that has no stream, is told so. A message that the stream did not
/// take fails the batch.
pub proof fn law_messages_go_out_whole(
    call: CallView,
    message: Seq<u8>,
    close: bool,
    tail: Tail,
    now: i64,
)
    ensures
        call.stream matches Some(stream) ==> stream.can_send && !stream.expired ==> entered(
            call,
            RuntimePhaseView::Send { message, close },
            tail,
            now,
        ) == (Outcome { call, step: Ok(StepView::SendMessage { message, close, tail }) }),
        call.stream matches Some(stream) ==> !stream.can_send ==> entered(
            call,
            RuntimePhaseView::Send { message, close },
            tail,
            now,
        ) == (Outcome {
            call,
            step: Err(
                ExceptionView {
                    class: ExceptionClass::Exception,
                    message: "stream does not support sending"@,
                    code: 0,
                },
            ),
        }),
        call.stream is None ==> entered(
            call,
            RuntimePhaseView::Send { message, close },
            tail,
            now,
        ) == (Outcome {
            call,
            step: Err(
                ExceptionView {
                    class: ExceptionClass::Exception,
                    message: "no active stream"@,
                    code: 0,
                },
            ),
        }),
        message_sent(call, false, close, tail) == (Outcome {
            call,
            step: Err(
                ExceptionView {
                    class: ExceptionClass::Exception,
                    message: "stream send channel closed"@,
                    code: 0,
                },
            ),
        }),
{
}

/// Once the message of a batch was sent, the sending ends exactly where the
/// batch says so, and the batch reads what it waits for, or is done.
pub proof fn law_sent_messages_go_on(
    call: CallView,
    stream: StreamView,
    close: bool,
    tail: Tail,
    now: i64,
)
    requires
        call.stream == Some(stream),
    ensures
        message_sent(call, true, close, tail).call == (CallView {
            stream: Some(StreamView { can_send: stream.can_send && !close, ..stream }),
            ..call
        }),
        tail.flags.initial_metadata || tail.flags.message || tail.flags.status ==> message_sent(
            call,
            true,
            close,
            tail,
        ).step == Ok::<StepView, ExceptionView>(
            StepView::EnterRuntime { phase: RuntimePhaseView::Read, tail },
        ),
        !(tail.flags.initial_metadata || tail.flags.message || tail.flags.status) ==> message_sent(
            call,
            true,
            close,
            tail,
        ).step == Ok::<StepView, ExceptionView>(StepView::Done(ack_properties(tail.acks))),
{
    assert(Seq::<PropertyView>::empty() + ack_properties(tail.acks) =~= ack_properties(tail.acks));
}

/// Once a stream is open, its first message is sent on it, byte for byte; where
/// there is none, the batch reads what it waits for, or is done.
pub proof fn law_open_streams_go_on(
    call: CallView,
    stream: StreamView,
    message: Seq<u8>,
    tail: Tail,
)
    requires
        call.stream == Some(stream),
    ensures
        opened(call, Some(message), tail) == (Outcome {
            call,
            step: Ok(
                StepView::EnterRuntime {
                    phase: RuntimePhaseView::Send { message, close: false },
                    tail,
                },
            ),
        }),
        opened(call, None, tail).call == call,
        tail.flags.initial_metadata || tail.flags.message || tail.flags.status ==> opened(
            call,
            None,
            tail,
        ).step == Ok::<StepView, ExceptionView>(
            StepView::EnterRuntime { phase: RuntimePhaseView::Read, tail },
        ),
        !(tail.flags.initial_metadata || tail.flags.message || tail.flags.status) ==> opened(
            call,
            None,
            tail,
        ).step == Ok::<StepView, ExceptionView>(StepView::Done(ack_properties(tail.acks))),
{
    let kept = StreamView { can_send: stream.can_send && !false, ..stream };
    assert(kept == stream);
    assert(CallView { stream: Some(kept), ..call } == call);
    let reads = tail.flags.initial_metadata || tail.flags.message || tail.flags.status;
    if reads {
        assert(opened(call, None, tail).call == call);
    } else {
        assert(CallView { finished: call.finished || tail.flags.status, ..call } == call);
        assert(Seq::<PropertyView>::empty() + ack_properties(tail.acks) =~= ack_properties(
            tail.acks,
        ));
    }
}

/// A call whose deadline has passed is not sent. A unary call has the status of
/// the deadline at once; a stream is never opened, has that status to be read,
/// and takes messages where an open one would, to drop them.
pub proof fn law_expired_calls_are_told(
    call: CallView,
    send_metadata: Seq<Pair>,
    plugin_metadata: Seq<Pair>,
    message: Option<Seq<u8>>,
    first: Seq<u8>,
    tail: Tail,
    now: i64,
)
    requires
        is_past(call.deadline_usec, now),
    ensures
        entered(
            call,
            RuntimePhaseView::Unary { send_metadata, plugin_metadata, message },
            tail,
            now,
        ) == (Outcome {
            call: CallView { finished: call.finished || tail.flags.status, ..call },
            step: Ok(
                StepView::Done(
                    asked(
                        tail.flags,
                        PropertyView::Metadata(Seq::empty()),
                        PropertyView::Message(None),
                        PropertyView::Status {
                            metadata: Seq::empty(),
                            code: 4,
                            details: "Deadline Exceeded"@,
                        },
                    ) + ack_properties(tail.acks),
                ),
            ),
        }),
        entered(
            call,
            RuntimePhaseView::StartServer { send_metadata, plugin_metadata, message },
            tail,
            now,
        ) == opened(
            CallView {
                stream: Some(
                    StreamView {
                        can_send: false,
                        meta_pending: false,
                        cached: Some(
                            TrailersView {
                                code: 4,
                                message: "Deadline Exceeded"@,
                                items: Seq::empty(),
                            },
                        ),
                        trailers_pending: false,
                        expired: true,
                    },
                ),
                ..call
            },
            None,
            tail,
        ),
        entered(
            call,
            RuntimePhaseView::StartBidi { send_metadata, plugin_metadata, message: first },
            tail,
            now,
        ) == opened(
            CallView {
                stream: Some(
                    StreamView {
                        can_send: true,
                        meta_pending: false,
                        cached: Some(
                            TrailersView {
                                code: 4,
                                message: "Deadline Exceeded"@,
                                items: Seq::empty(),
                            },
                        ),
                        trailers_pending: false,
                        expired: true,
                    },
                ),
                ..call
            },
            Some(first),
            tail,
        ),
        call.stream matches Some(stream) ==> stream.can_send && stream.expired ==> entered(
            call,
            RuntimePhaseView::Send { message: first, close: false },
            tail,
            now,
        ) == message_sent(call, true, false, tail) && entered(
            call,
            RuntimePhaseView::Send { message: first, close: true },
            tail,
            now,
        ) == message_sent(call, true, true, tail),
{
    let result = CallResultView {
        initial_items: Seq::empty(),
        body: None,
        trailing_items: Seq::empty(),
        code: 4,
        message: "Deadline Exceeded"@,
    };
    law_no_metadata_stays_none();
    law_unary_properties(tail.flags, result);
    lemma_none(unary_properties(tail.flags, result));
}

/// A request can be built exactly when its metadata has room and what is left
/// until its deadline can be written down; one that is not built always can.
pub proof fn law_requests_that_can_be_built(
    call: CallView,
    send_metadata: Seq<Pair>,
    plugin_metadata: Seq<Pair>,
    message: Option<Seq<u8>>,
    first: Seq<u8>,
    now: i64,
)
    ensures
        ({
            let fits = is_past(call.deadline_usec, now) || path_outcome(call.method) is Err || (
            has_room(request_metadata(send_metadata, plugin_metadata)) && timeout_fits(
                call.deadline_usec,
                now,
            ));
            &&& phase_fits(
                call,
                RuntimePhaseView::Unary { send_metadata, plugin_metadata, message },
                now,
            ) == fits
            &&& phase_fits(
                call,
                RuntimePhaseView::StartServer { send_metadata, plugin_metadata, message },
                now,
            ) == fits
            &&& phase_fits(
                call,
                RuntimePhaseView::StartBidi { send_metadata, plugin_metadata, message: first },
                now,
            ) == fits
        }),
        phase_fits(call, RuntimePhaseView::Read, now),
        phase_fits(call, RuntimePhaseView::Send { message: first, close: false }, now),
        phase_fits(call, RuntimePhaseView::Send { message: first, close: true }, now),
{
}

// ---------------------------------------------------------------------------
// Answers
// ---------------------------------------------------------------------------

/// The properties that a batch has of what it waits for.
pub open spec fn asked(
    flags: ReadFlags,
    metadata: PropertyView,
    message: PropertyView,
    status: PropertyView,
) -> Seq<PropertyView> {
    match (flags.initial_metadata, flags.message, flags.status) {
        (true, true, true) => seq![metadata, message, status],
        (true, true, false) => seq![metadata, message],
        (true, false, true) => seq![metadata, status],
        (true, false, false) => seq![metadata],
        (false, true, true) => seq![message, status],
        (false, true, false) => seq![message],
        (false, false, true) => seq![status],
        (false, false, false) => Seq::empty(),
    }
}

/// The answer to a unary call reaches PHP whole: its metadata, its body byte for
/// byte, and the code 0 with no details. A delivered status ends the call.
pub proof fn law_answers_reach_php_whole(
    call: CallView,
    metadata: MetadataMap,
    body: Bytes,
    tail: Tail,
    now: i64,
)
    ensures
        call_ended(call, CallOutcome::Response { metadata, body }, tail, now) == (Outcome {
            call: CallView { finished: call.finished || tail.flags.status, ..call },
            step: Ok(
                StepView::Done(
                    asked(
                        tail.flags,
                        PropertyView::Metadata(php_entries(metadata_items(metadata))),
                        PropertyView::Message(Some(bytes_of(body))),
                        PropertyView::Status {
                            metadata: php_entries(Seq::empty()),
                            code: 0,
                            details: Seq::empty(),
                        },
                    ) + ack_properties(tail.acks),
                ),
            ),
        }),
        state_after_call(CallOutcome::Response { metadata, body }) == Some(2i64),
{
    let result = CallResultView {
        initial_items: metadata_items(metadata),
        body: Some(bytes_of(body)),
        trailing_items: Seq::empty(),
        code: 0,
        message: Seq::empty(),
    };
    law_unary_properties(tail.flags, result);
    lemma_none(unary_properties(tail.flags, result));
}

proof fn lemma_none(list: Seq<PropertyView>)
    ensures
        list.len() == 0 ==> list == Seq::<PropertyView>::empty(),
{
    if list.len() == 0 {
        assert(list =~= Seq::<PropertyView>::empty());
    }
}

/// The failure of a unary call reaches PHP with its code and its message as they
/// are, for every code, unless it is a cancellation after a real deadline has
/// passed. There is no metadata at the start, and no message.
pub proof fn law_failures_reach_php_whole(call: CallView, status: Status, tail: Tail, now: i64)
    ensures
        call_ended(call, CallOutcome::Failed(status), tail, now).call == (CallView {
            finished: call.finished || tail.flags.status,
            ..call
        }),
        exists|items: Seq<Item>|
            call_ended(call, CallOutcome::Failed(status), tail, now).step == Ok::<
                StepView,
                ExceptionView,
            >(
                StepView::Done(
                    asked(
                        tail.flags,
                        PropertyView::Metadata(php_entries(Seq::empty())),
                        PropertyView::Message(None),
                        PropertyView::Status {
                            metadata: #[trigger] php_entries(items),
                            code: if status_code(status) == 1 && is_past(call.deadline_usec, now) {
                                4
                            } else {
                                status_code(status)
                            },
                            details: if status_code(status) == 1 && is_past(
                                call.deadline_usec,
                                now,
                            ) {
                                "Deadline Exceeded"@
                            } else {
                                status_message(status)
                            },
                        },
                    ) + ack_properties(tail.acks),
                ),
            ) && items == status_php_items(status_items(status), status_details(status)),
        state_after_call(CallOutcome::Failed(status)) == Some(
            if status_code(status) == 14 {
                3i64
            } else {
                2i64
            },
        ),
{
    let items = status_php_items(status_items(status), status_details(status));
    let (code, message) = php_status(
        status_code(status),
        status_message(status),
        call.deadline_usec,
        now,
    );
    law_status_is_reported_as_it_is(
        status_code(status),
        status_message(status),
        call.deadline_usec,
        now,
    );
    let result = CallResultView {
        initial_items: Seq::empty(),
        body: None,
        trailing_items: items,
        code,
        message,
    };
    law_unary_properties(tail.flags, result);
    lemma_none(unary_properties(tail.flags, result));
    assert(php_entries(items) == php_entries(items));
}

/// A unary call that could not reach the server, or was cancelled, is told so,
/// and leaves the call as it was.
pub proof fn law_unmade_calls_are_told(
    call: CallView,
    error: tonic::transport::Error,
    tail: Tail,
    now: i64,
)
    ensures
        call_ended(call, CallOutcome::NotReady(error), tail, now) == (Outcome {
            call,
            step: Err(
                ExceptionView {
                    class: ExceptionClass::Exception,
                    message: "transport error: "@ + transport_error_text(error),
                    code: 0,
                },
            ),
        }),
        call_ended(call, CallOutcome::Cancelled, tail, now) == (Outcome {
            call,
            step: Err(
                ExceptionView {
                    class: ExceptionClass::Exception,
                    message: "gRPC status 1: Call cancelled"@,
                    code: 0,
                },
            ),
        }),
        state_after_call(CallOutcome::NotReady(error)) == Some(3i64),
        state_after_call(CallOutcome::Cancelled) is None,
{
    reveal_strlit("gRPC status ");
    reveal_strlit(": ");
    reveal_strlit("Call cancelled");
    reveal_strlit("gRPC status 1: Call cancelled");
    lemma_decimal_one();
    assert("gRPC status "@ + decimal(1) + ": "@ + "Call cancelled"@
        =~= "gRPC status 1: Call cancelled"@);
}

/// What a batch waits for after its message.
pub open spec fn after_message(
    call: CallView,
    stream: StreamView,
    done: Seq<PropertyView>,
    tail: Tail,
    o: Outcome,
) -> bool {
    if !tail.flags.status {
        o == (Outcome { call, step: Ok(StepView::Done(done + ack_properties(tail.acks))) })
    } else {
        match stream.cached {
            Some(trailers) => o == (Outcome {
                call: CallView {
                    stream: Some(StreamView { cached: None, ..stream }),
                    finished: true,
                    ..call
                },
                step: Ok(
                    StepView::Done(
                        done.push(
                            PropertyView::Status {
                                metadata: php_entries(trailers.items),
                                code: trailers.code,
                                details: trailers.message,
                            },
                        ) + ack_properties(tail.acks),
                    ),
                ),
            }),
            None => if stream.trailers_pending {
                o == (Outcome {
                    call: CallView {
                        stream: Some(StreamView { trailers_pending: false, ..stream }),
                        ..call
                    },
                    step: Ok(StepView::AwaitTrailers { done, tail }),
                })
            } else {
                o == (Outcome {
                    call: CallView { finished: true, ..call },
                    step: Ok(
                        StepView::Done(
                            done.push(
                                PropertyView::Status {
                                    metadata: php_entries(Seq::empty()),
                                    code: 2,
                                    details: "stream already consumed"@,
                                },
                            ) + ack_properties(tail.acks),
                        ),
                    ),
                })
            },
        }
    }
}

/// Every message of a stream reaches PHP byte for byte, behind the results that
/// the batch has; the end of the stream is null.
pub proof fn law_stream_messages_reach_php(
    call: CallView,
    stream: StreamView,
    done: Seq<PropertyView>,
    bytes: Seq<u8>,
    tail: Tail,
    now: i64,
)
    requires
        call.stream == Some(stream),
    ensures
        after_message(
            call,
            stream,
            done.push(PropertyView::Message(Some(bytes))),
            tail,
            has_message(call, done, Some(MessageView::Item(bytes)), tail, now),
        ),
        after_message(
            call,
            stream,
            done.push(PropertyView::Message(None)),
            tail,
            has_message(call, done, Some(MessageView::End), tail, now),
        ),
        after_message(
            call,
            stream,
            done.push(PropertyView::Message(None)),
            tail,
            has_message(call, done, None, tail, now),
        ),
{
    assert(CallView { finished: call.finished || false, ..call } == call);
}

/// A stream that fails in place of a message has no message, and its status is
/// told, or kept to be told later, with its code and its message as they are,
/// for every code, unless it is a cancellation after a real deadline has passed.
pub proof fn law_stream_failures_reach_php(
    call: CallView,
    stream: StreamView,
    done: Seq<PropertyView>,
    status: Status,
    tail: Tail,
    now: i64,
)
    requires
        call.stream == Some(stream),
    ensures
        ({
            let trailers = TrailersView {
                code: if status_code(status) == 1 && is_past(call.deadline_usec, now) {
                    4
                } else {
                    status_code(status)
                },
                message: if status_code(status) == 1 && is_past(call.deadline_usec, now) {
                    "Deadline Exceeded"@
                } else {
                    status_message(status)
                },
                items: status_php_items(status_items(status), status_details(status)),
            };
            let kept = StreamView { cached: Some(trailers), ..stream };
            after_message(
                CallView { stream: Some(kept), ..call },
                kept,
                done.push(PropertyView::Message(None)),
                tail,
                has_message(call, done, Some(MessageView::Failed(status)), tail, now),
            )
        }),
{
    assert(CallView { finished: call.finished || false, ..call } == call);
    law_status_is_reported_as_it_is(
        status_code(status),
        status_message(status),
        call.deadline_usec,
        now,
    );
}

/// The trailers of a stream reach PHP whole, behind the results that the batch
/// has: their metadata, their code and all of their message. Trailers that never
/// come are told as an unknown error. Either way the call is over.
pub proof fn law_trailers_reach_php(
    call: CallView,
    done: Seq<PropertyView>,
    trailers: TrailersView,
    tail: Tail,
)
    requires
        tail.flags.status,
    ensures
        has_trailers(call, done, Some(trailers), tail) == (Outcome {
            call: CallView { finished: true, ..call },
            step: Ok(
                StepView::Done(
                    done.push(
                        PropertyView::Status {
                            metadata: php_entries(trailers.items),
                            code: trailers.code,
                            details: trailers.message,
                        },
                    ) + ack_properties(tail.acks),
                ),
            ),
        }),
        has_trailers(call, done, None, tail) == (Outcome {
            call: CallView { finished: true, ..call },
            step: Ok(
                StepView::Done(
                    done.push(
                        PropertyView::Status {
                            metadata: php_entries(Seq::empty()),
                            code: 2,
                            details: "stream task terminated unexpectedly"@,
                        },
                    ) + ack_properties(tail.acks),
                ),
            ),
        }),
{
}

/// The initial metadata of a stream reaches PHP whole and first; the message is
/// awaited next where the batch waits for one and the stream has not ended.
pub proof fn law_stream_metadata_reaches_php(
    call: CallView,
    stream: StreamView,
    items: Seq<Item>,
    tail: Tail,
)
    requires
        call.stream == Some(stream),
    ensures
        tail.flags.message && stream.cached is None ==> has_metadata(call, items, tail) == (
        Outcome {
            call,
            step: Ok(
                StepView::AwaitMessage {
                    done: seq![PropertyView::Metadata(php_entries(items))],
                    tail,
                },
            ),
        }),
        tail.flags.message && stream.cached is Some ==> after_message(
            call,
            stream,
            seq![PropertyView::Metadata(php_entries(items)), PropertyView::Message(None)],
            tail,
            has_metadata(call, items, tail),
        ),
        !tail.flags.message ==> after_message(
            call,
            stream,
            seq![PropertyView::Metadata(php_entries(items))],
            tail,
            has_metadata(call, items, tail),
        ),
{
    assert(CallView { finished: call.finished || false, ..call } == call);
    assert(seq![PropertyView::Metadata(php_entries(items))].push(PropertyView::Message(None))
        =~= seq![PropertyView::Metadata(php_entries(items)), PropertyView::Message(None)]);
}

/// A batch that reads a stream awaits its metadata where it waits for it and the
/// metadata is still to come, and then, or at once, its message.
pub proof fn law_reading_starts_with_the_metadata(
    call: CallView,
    stream: StreamView,
    tail: Tail,
    now: i64,
)
    requires
        call.stream == Some(stream),
    ensures
        tail.flags.initial_metadata && stream.meta_pending ==> entered(
            call,
            RuntimePhaseView::Read,
            tail,
            now,
        ) == (Outcome {
            call: CallView { stream: Some(StreamView { meta_pending: false, ..stream }), ..call },
            step: Ok(StepView::AwaitMetadata { tail }),
        }),
        tail.flags.initial_metadata && !stream.meta_pending ==> entered(
            call,
            RuntimePhaseView::Read,
            tail,
            now,
        ) == has_metadata(call, Seq::empty(), tail),
        !tail.flags.initial_metadata && tail.flags.message && stream.cached is None ==> entered(
            call,
            RuntimePhaseView::Read,
            tail,
            now,
        ) == (Outcome { call, step: Ok(StepView::AwaitMessage { done: Seq::empty(), tail }) }),
        !tail.flags.initial_metadata && tail.flags.message && stream.cached is Some
            ==> after_message(
            call,
            stream,
            seq![PropertyView::Message(None)],
            tail,
            entered(call, RuntimePhaseView::Read, tail, now),
        ),
        !tail.flags.initial_metadata && !tail.flags.message ==> after_message(
            call,
            stream,
            Seq::empty(),
            tail,
            entered(call, RuntimePhaseView::Read, tail, now),
        ),
{
    assert(CallView { finished: call.finished || false, ..call } == call);
    assert(Seq::<PropertyView>::empty().push(PropertyView::Message(None))
        =~= seq![PropertyView::Message(None)]);
}

// ---------------------------------------------------------------------------
// New calls
// ---------------------------------------------------------------------------

/// A new call has what its channel has and what it was given, and nothing has
/// happened to it yet: the message sizes and the plugins are those of the
/// channel, the method, the deadline and the host those that were given.
pub proof fn law_new_calls_are_as_given(
    channel: ChannelInner,
    method: Seq<char>,
    deadline_usec: i64,
    host: Option<String>,
)
    ensures
        ({
            let call = new_call(channel, method, deadline_usec, text_in(host));
            &&& call.transport == channel.transport
            &&& call.target == channel.target@
            &&& call.method == method
            &&& call.deadline_usec == deadline_usec
            &&& host matches Some(h) ==> call.host_override == Some(h@)
            &&& host is None ==> call.host_override is None
            &&& channel.call_plugins matches Some(list) ==> call.plugins == Some(list@)
            &&& channel.call_plugins is None ==> call.plugins is None
            &&& call.max_decoding == channel.max_decoding_message_size
            &&& call.max_encoding == channel.max_encoding_message_size
            &&& !call.cancelled && !call.send_closed && !call.initial_metadata_sent
            &&& !call.finished && call.stream is None
            &&& call.pending_metadata.len() == 0 && call.pending_message is None
        }),
{
}

} // verus!

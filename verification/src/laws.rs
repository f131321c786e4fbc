//! What holds of calls whatever batches they run.

use crate::batch::{
    ack_properties, batch_of, only_if, unary_properties, BatchView, CallResultView, PropertyView,
};
use crate::call::{
    asks_plugin, asks_plugins, call_ended, dispatched, entered, expired_stream, goes_on,
    has_message, has_metadata, has_plugin_metadata, has_trailers, makes_call, message_sent, opened,
    opened_stream, or_empty, out_of_turn, plain, plugin_replied, reads, reads_message, reads_status, receives,
    start_view, started, tail_of, throws, with_status, CallOutcome, CallView, Outcome, PluginPhaseView, RuntimePhaseView,
    StepView, StreamView, Tail,
};
use crate::error::ExceptionView;
use crate::metadata::php_entries;
use crate::plugin::{reply_pairs, PluginReply};
use crate::request::{applied, finished_items, request_metadata, Pair};
use crate::status::expired;
use crate::stream::{bare_trailers, status_trailers, MessageView, TrailersView};
use crate::value::{ArrayKey, PhpValue};
use crate::wire::{bytes_of, metadata_items, path_outcome, Item};
use bytes::Bytes;
use tonic::metadata::MetadataMap;
use tonic::Status;
use vstd::prelude::*;

verus! {

// ---------------------------------------------------------------------------
// Every step
// ---------------------------------------------------------------------------

/// Whether a batch on the call can come to the outcome in one step.
pub open spec fn step_of(call: CallView, o: Outcome) -> bool {
    ||| exists|closed: bool, ops: Seq<(ArrayKey, PhpValue)>| o == #[trigger] started(
        call,
        closed,
        ops,
    )
    ||| exists|rest: Seq<u64>, gathered: Seq<Pair>, phase: PluginPhaseView, tail: Tail|
        o == #[trigger] asks_plugins(call, rest, gathered, phase, tail)
    ||| exists|e: ExceptionView| o == #[trigger] throws(call, e)
    ||| exists|phase: RuntimePhaseView, tail: Tail, now: i64| o == #[trigger] entered(
        call,
        phase,
        tail,
        now,
    )
    ||| exists|message: Option<Seq<u8>>, tail: Tail| o == #[trigger] opened(call, message, tail)
    ||| exists|sent: bool, close: bool, tail: Tail| o == #[trigger] message_sent(
        call,
        sent,
        close,
        tail,
    )
    ||| exists|ended: CallOutcome, tail: Tail, now: i64| o == #[trigger] call_ended(
        call,
        ended,
        tail,
        now,
    )
    ||| exists|items: Seq<Item>, tail: Tail| o == #[trigger] has_metadata(call, items, tail)
    ||| exists|
        done: Seq<PropertyView>,
        message: Option<MessageView>,
        tail: Tail,
        now: i64,
    | o == #[trigger] has_message(call, done, message, tail, now)
    ||| exists|done: Seq<PropertyView>, trailers: Option<TrailersView>, tail: Tail|
        o == #[trigger] has_trailers(call, done, trailers, tail)
}

/// Whether two states of a call agree in what the call is, who made it, and
/// whether it is cancelled.
pub open spec fn same_call(a: CallView, b: CallView) -> bool {
    &&& a.transport == b.transport
    &&& a.method == b.method
    &&& a.target == b.target
    &&& a.deadline_usec == b.deadline_usec
    &&& a.host_override == b.host_override
    &&& a.plugins == b.plugins
    &&& a.cancelled == b.cancelled
    &&& a.max_decoding == b.max_decoding
    &&& a.max_encoding == b.max_encoding
}

/// Whether a call has taken nothing back: not that initial metadata was sent,
/// that the sending has ended, that the status was delivered, or that there
/// is a stream.
pub open spec fn no_step_back(before: CallView, after: CallView) -> bool {
    &&& before.initial_metadata_sent ==> after.initial_metadata_sent
    &&& before.send_closed ==> after.send_closed
    &&& before.finished ==> after.finished
    &&& before.stream is Some ==> after.stream is Some
}

proof fn lemma_plugin_step(call: CallView, phase: PluginPhaseView, list: Seq<Pair>, tail: Tail)
    ensures
        same_call(call, has_plugin_metadata(call, phase, list, tail).call),
        no_step_back(call, has_plugin_metadata(call, phase, list, tail).call),
{
}

proof fn lemma_asking_step(call: CallView, phase: PluginPhaseView, tail: Tail)
    ensures
        same_call(call, asks_plugin(call, phase, tail).call),
        no_step_back(call, asks_plugin(call, phase, tail).call),
{
    lemma_plugin_step(call, phase, Seq::empty(), tail);
}

proof fn lemma_dispatch_step(call: CallView, batch: BatchView)
    ensures
        same_call(call, dispatched(call, batch).call),
        no_step_back(call, dispatched(call, batch).call),
{
    let tail = tail_of(batch);
    if call.stream is None {
        if !batch.has_recv_ops() {
            match batch.send_message {
                Some(message) if !batch.send_close => lemma_asking_step(
                    CallView { pending_metadata: Seq::empty(), ..call },
                    PluginPhaseView::Bidi { send_metadata: call.pending_metadata, message },
                    tail,
                ),
                _ => lemma_asking_step(
                    CallView {
                        pending_metadata: batch.send_metadata,
                        pending_message: batch.send_message,
                        ..call
                    },
                    PluginPhaseView::Buffer { send_close: batch.send_close },
                    tail,
                ),
            }
        } else if batch.has_send_ops() {
            lemma_asking_step(
                call,
                PluginPhaseView::Receive {
                    send_metadata: batch.send_metadata,
                    message: batch.send_message,
                },
                tail,
            );
        }
    }
}

proof fn lemma_start_step(call: CallView, closed: bool, ops: Seq<(ArrayKey, PhpValue)>)
    ensures
        same_call(call, started(call, closed, ops).call),
        no_step_back(call, started(call, closed, ops).call),
{
    match batch_of(ops) {
        Ok(batch) => lemma_dispatch_step(
            CallView {
                initial_metadata_sent: call.initial_metadata_sent
                    || batch.has_send_initial_metadata,
                send_closed: call.send_closed || batch.send_close,
                ..call
            },
            batch,
        ),
        Err(_) => {},
    }
}

proof fn lemma_status_step(call: CallView, done: Seq<PropertyView>, tail: Tail)
    ensures
        same_call(call, reads_status(call, done, tail).call),
        no_step_back(call, reads_status(call, done, tail).call),
{
}

proof fn lemma_message_step(call: CallView, done: Seq<PropertyView>, tail: Tail)
    ensures
        same_call(call, reads_message(call, done, tail).call),
        no_step_back(call, reads_message(call, done, tail).call),
{
    lemma_status_step(call, done, tail);
    lemma_status_step(call, done.push(PropertyView::Message(None)), tail);
}

proof fn lemma_read_step(call: CallView, items: Seq<Item>, tail: Tail)
    ensures
        same_call(call, reads(call, tail).call),
        no_step_back(call, reads(call, tail).call),
        same_call(call, has_metadata(call, items, tail).call),
        no_step_back(call, has_metadata(call, items, tail).call),
{
    lemma_message_step(call, Seq::empty(), tail);
    lemma_message_step(call, seq![PropertyView::Metadata(php_entries(Seq::empty()))], tail);
    lemma_message_step(call, seq![PropertyView::Metadata(php_entries(items))], tail);
}

proof fn lemma_open_step(call: CallView, message: Option<Seq<u8>>, tail: Tail)
    ensures
        same_call(call, opened(call, message, tail).call),
        no_step_back(call, opened(call, message, tail).call),
{
}

proof fn lemma_enter_step(call: CallView, phase: RuntimePhaseView, tail: Tail, now: i64)
    ensures
        same_call(call, entered(call, phase, tail, now).call),
        no_step_back(call, entered(call, phase, tail, now).call),
{
    lemma_read_step(call, Seq::empty(), tail);
    match phase {
        RuntimePhaseView::StartBidi { message, .. } => lemma_open_step(
            CallView { stream: Some(expired_stream(true)), ..call },
            Some(message),
            tail,
        ),
        RuntimePhaseView::StartServer { .. } => lemma_open_step(
            CallView { stream: Some(expired_stream(false)), ..call },
            None,
            tail,
        ),
        _ => {},
    }
}

proof fn lemma_has_message_step(
    call: CallView,
    done: Seq<PropertyView>,
    message: Option<MessageView>,
    tail: Tail,
    now: i64,
)
    ensures
        same_call(call, has_message(call, done, message, tail, now).call),
        no_step_back(call, has_message(call, done, message, tail, now).call),
{
    match call.stream {
        Some(stream) => match message {
            Some(MessageView::Item(bytes)) => lemma_status_step(
                call,
                done.push(PropertyView::Message(Some(bytes))),
                tail,
            ),
            Some(MessageView::Failed(status)) => lemma_status_step(
                CallView {
                    stream: Some(
                        StreamView {
                            cached: Some(status_trailers(status, call.deadline_usec, now)),
                            ..stream
                        },
                    ),
                    ..call
                },
                done.push(PropertyView::Message(None)),
                tail,
            ),
            _ => lemma_status_step(call, done.push(PropertyView::Message(None)), tail),
        },
        None => {},
    }
}

proof fn lemma_step(call: CallView, o: Outcome)
    requires
        step_of(call, o),
    ensures
        same_call(call, o.call),
        no_step_back(call, o.call),
{
    if exists|closed: bool, ops: Seq<(ArrayKey, PhpValue)>| o == #[trigger] started(
        call,
        closed,
        ops,
    ) {
        let (closed, ops) = choose|closed: bool, ops: Seq<(ArrayKey, PhpValue)>|
            o == #[trigger] started(call, closed, ops);
        lemma_start_step(call, closed, ops);
    } else if exists|rest: Seq<u64>, gathered: Seq<Pair>, phase: PluginPhaseView, tail: Tail|
        o == #[trigger] asks_plugins(call, rest, gathered, phase, tail) {
        let (rest, gathered, phase, tail) = choose|
            rest: Seq<u64>,
            gathered: Seq<Pair>,
            phase: PluginPhaseView,
            tail: Tail,
        | o == #[trigger] asks_plugins(call, rest, gathered, phase, tail);
        lemma_plugin_step(call, phase, gathered, tail);
    } else if exists|phase: RuntimePhaseView, tail: Tail, now: i64| o == #[trigger] entered(
        call,
        phase,
        tail,
        now,
    ) {
        let (phase, tail, now) = choose|phase: RuntimePhaseView, tail: Tail, now: i64|
            o == #[trigger] entered(call, phase, tail, now);
        lemma_enter_step(call, phase, tail, now);
    } else if exists|message: Option<Seq<u8>>, tail: Tail| o == #[trigger] opened(
        call,
        message,
        tail,
    ) {
        let (message, tail) = choose|message: Option<Seq<u8>>, tail: Tail|
            o == #[trigger] opened(call, message, tail);
        lemma_open_step(call, message, tail);
    } else if exists|items: Seq<Item>, tail: Tail| o == #[trigger] has_metadata(call, items, tail) {
        let (items, tail) = choose|items: Seq<Item>, tail: Tail|
            o == #[trigger] has_metadata(call, items, tail);
        lemma_read_step(call, items, tail);
    } else if exists|
        done: Seq<PropertyView>,
        message: Option<MessageView>,
        tail: Tail,
        now: i64,
    | o == #[trigger] has_message(call, done, message, tail, now) {
        let (done, message, tail, now) = choose|
            done: Seq<PropertyView>,
            message: Option<MessageView>,
            tail: Tail,
            now: i64,
        | o == #[trigger] has_message(call, done, message, tail, now);
        lemma_has_message_step(call, done, message, tail, now);
    }
}

/// No step of a batch changes what the call is, who made it, or whether it is
/// cancelled.
pub proof fn law_call_keeps_its_identity(call: CallView, o: Outcome)
    requires
        step_of(call, o),
    ensures
        same_call(call, o.call),
{
    lemma_step(call, o);
}

/// A call only goes forward: no step of a batch takes back that initial
/// metadata was sent, that the sending has ended, that the status was
/// delivered, or that there is a stream.
pub proof fn law_call_only_goes_forward(call: CallView, o: Outcome)
    requires
        step_of(call, o),
    ensures
        no_step_back(call, o.call),
{
    lemma_step(call, o);
}

// ---------------------------------------------------------------------------
// Batches that are refused
// ---------------------------------------------------------------------------

/// A batch on a closed channel, on a cancelled call, or that cannot be read,
/// is refused, in this order, and leaves the call as it was.
pub proof fn law_refused_batch_changes_nothing(
    call: CallView,
    closed: bool,
    ops: Seq<(ArrayKey, PhpValue)>,
)
    ensures
        closed || call.cancelled || batch_of(ops) is Err ==> started(call, closed, ops).step is Err
            && started(call, closed, ops).call == call,
        !closed && !call.cancelled && batch_of(ops) is Err ==> started(call, closed, ops).step
            == Err::<StepView, ExceptionView>(batch_of(ops)->Err_0),
{
}

/// Once the status was delivered the call is over: every batch that asks for
/// anything is out of turn, and none is run again.
pub proof fn law_finished_call_is_over(call: CallView, ops: Seq<(ArrayKey, PhpValue)>)
    requires
        call.finished,
        !call.cancelled,
        batch_of(ops) matches Ok(batch) && (batch.has_send_ops() || batch.has_recv_ops()),
    ensures
        started(call, false, ops) == throws(call, out_of_turn()),
{
}

/// Initial metadata is sent once: a batch that sends it again is out of turn.
pub proof fn law_initial_metadata_is_sent_once(
    call: CallView,
    first: Seq<(ArrayKey, PhpValue)>,
    between: CallView,
    again: Seq<(ArrayKey, PhpValue)>,
)
    requires
        !call.cancelled,
        !call.finished,
        batch_of(first) matches Ok(batch) && batch.has_send_initial_metadata,
        batch_of(again) matches Ok(batch) && batch.has_send_initial_metadata,
        between == started(call, false, first).call,
    ensures
        started(between, false, again) == throws(between, out_of_turn()),
{
}

/// A batch that asks for nothing does nothing, even on a call that is over.
pub proof fn law_empty_batch_does_nothing(call: CallView, ops: Seq<(ArrayKey, PhpValue)>)
    requires
        !call.cancelled,
        batch_of(ops) matches Ok(batch) && !batch.has_send_ops() && !batch.has_recv_ops(),
    ensures
        started(call, false, ops) == goes_on(call, StepView::Done(Seq::empty())),
{
}

// ---------------------------------------------------------------------------
// Deadlines
// ---------------------------------------------------------------------------

/// A call whose deadline has passed never sends anything: no step in the
/// runtime makes a call or opens a stream.
pub proof fn law_expired_call_is_not_sent(
    call: CallView,
    phase: RuntimePhaseView,
    tail: Tail,
    now: i64,
)
    requires
        expired(call.deadline_usec, now),
    ensures
        match entered(call, phase, tail, now).step {
            Ok(StepView::Call { .. }) => false,
            Ok(StepView::OpenStream { .. }) => false,
            _ => true,
        },
{
}

/// The status that a property holds.
pub open spec fn status_property(trailers: TrailersView) -> PropertyView {
    PropertyView::Status {
        metadata: php_entries(trailers.items),
        code: trailers.code,
        details: trailers.message,
    }
}

/// The initial metadata where a batch asks for it.
pub open spec fn metadata_where_asked(tail: Tail, items: Seq<Item>) -> Seq<PropertyView> {
    only_if(tail.flags.initial_metadata, PropertyView::Metadata(php_entries(items)))
}

/// A unary call whose deadline has passed is answered at once with no metadata,
/// no message and the status of a passed deadline.
pub proof fn law_expired_unary_call(
    call: CallView,
    send_metadata: Seq<Pair>,
    plugin_metadata: Seq<Pair>,
    message: Option<Seq<u8>>,
    tail: Tail,
    now: i64,
)
    requires
        expired(call.deadline_usec, now),
        tail.flags.message,
        tail.flags.status,
    ensures
        makes_call(call, send_metadata, plugin_metadata, message, tail, now).step matches Ok(
            StepView::Done(list),
        ) && list == metadata_where_asked(tail, Seq::empty()) + seq![
            PropertyView::Message(None),
            status_property(bare_trailers(4, "Deadline Exceeded"@)),
        ] + ack_properties(tail.acks),
{
    let status = status_property(bare_trailers(4, "Deadline Exceeded"@));
    assert(metadata_where_asked(tail, Seq::empty()) + seq![PropertyView::Message(None)] + seq![
        status,
    ] =~= metadata_where_asked(tail, Seq::empty()) + seq![PropertyView::Message(None), status]);
}

/// A stream whose deadline had passed when it was to be opened is read as an
/// ended one: there is no metadata, the message is null, and the status is that
/// of a passed deadline.
pub proof fn law_expired_stream(
    call: CallView,
    send_metadata: Seq<Pair>,
    plugin_metadata: Seq<Pair>,
    message: Option<Seq<u8>>,
    tail: Tail,
    now: i64,
    later: Tail,
    then: i64,
)
    requires
        expired(call.deadline_usec, now),
        later.flags.message,
        later.flags.status,
    ensures
        ({
            let phase = RuntimePhaseView::StartServer { send_metadata, plugin_metadata, message };
            let after = entered(call, phase, tail, now).call;
            entered(after, RuntimePhaseView::Read, later, then).step matches Ok(
                StepView::Done(list),
            ) && list == metadata_where_asked(later, Seq::empty()) + seq![
                PropertyView::Message(None),
                status_property(bare_trailers(4, "Deadline Exceeded"@)),
            ] + ack_properties(later.acks)
        }),
{
    let phase = RuntimePhaseView::StartServer { send_metadata, plugin_metadata, message };
    let after = entered(call, phase, tail, now).call;
    let read = metadata_where_asked(later, Seq::empty());
    let status = status_property(bare_trailers(4, "Deadline Exceeded"@));
    assert(read.push(PropertyView::Message(None)).push(status) =~= read + seq![
        PropertyView::Message(None),
        status,
    ]);
}

/// Writing to a stream in both directions whose deadline had passed when it was
/// to be opened is acknowledged, and what is written is dropped: the first
/// message and every later one, until the sending ends. The next status is that
/// of a passed deadline.
pub proof fn law_expired_write_is_dropped(
    call: CallView,
    send_metadata: Seq<Pair>,
    plugin_metadata: Seq<Pair>,
    message: Seq<u8>,
    tail: Tail,
    now: i64,
    then: i64,
    more: BatchView,
    later: Tail,
)
    requires
        expired(call.deadline_usec, now),
        !tail.spec_reads(),
        more.send_message is Some,
        !more.has_recv_ops(),
        later.flags.status,
    ensures
        ({
            let start = RuntimePhaseView::StartBidi { send_metadata, plugin_metadata, message };
            let send = RuntimePhaseView::Send { message, close: false };
            let started = entered(call, start, tail, now);
            let first = entered(started.call, send, tail, then);
            let again = dispatched(first.call, more);
            let next = RuntimePhaseView::Send {
                message: more.send_message->0,
                close: more.send_close,
            };
            let second = entered(again.call, next, tail_of(more), then);
            let status = reads(second.call, later);
            &&& started.step == Ok::<StepView, ExceptionView>(
                StepView::EnterRuntime { phase: send, tail },
            )
            &&& first.step == Ok::<StepView, ExceptionView>(
                StepView::Done(ack_properties(tail.acks)),
            )
            &&& again.step == Ok::<StepView, ExceptionView>(
                StepView::EnterRuntime { phase: next, tail: tail_of(more) },
            )
            &&& second.step == Ok::<StepView, ExceptionView>(
                StepView::Done(ack_properties(tail_of(more).acks)),
            )
            &&& status.step == Ok::<StepView, ExceptionView>(
                StepView::Done(
                    metadata_where_asked(later, Seq::empty()) + only_if(
                        later.flags.message,
                        PropertyView::Message(None),
                    ) + seq![status_property(bare_trailers(4, "Deadline Exceeded"@))]
                        + ack_properties(later.acks),
                ),
            )
        }),
{
    let none = Seq::<PropertyView>::empty();
    let null = PropertyView::Message(None);
    let status = status_property(bare_trailers(4, "Deadline Exceeded"@));
    let read = metadata_where_asked(later, Seq::empty());
    let shown = read + only_if(later.flags.message, null);
    assert(shown =~= if later.flags.message {
        read.push(null)
    } else {
        read
    });
    assert(shown.push(status) =~= shown + seq![status]);
    assert(none + ack_properties(tail.acks) =~= ack_properties(tail.acks));
    assert(none + ack_properties(tail_of(more).acks) =~= ack_properties(tail_of(more).acks));
}

/// No message goes to a stream that takes none: one from the server alone, or
/// one on which the sending has ended, refuses it, whether the stream was opened
/// or its deadline had passed.
pub proof fn law_closed_stream_refuses_messages(
    call: CallView,
    send_metadata: Seq<Pair>,
    plugin_metadata: Seq<Pair>,
    first: Option<Seq<u8>>,
    tail: Tail,
    now: i64,
    closing: BatchView,
    message: Seq<u8>,
    close: bool,
    later: Tail,
    then: i64,
)
    requires
        closing.send_close,
        closing.send_message is None,
    ensures
        ({
            let refusal = Err::<StepView, ExceptionView>(
                plain("stream does not support sending"@),
            );
            let phase = RuntimePhaseView::StartServer {
                send_metadata,
                plugin_metadata,
                message: first,
            };
            let send = RuntimePhaseView::Send { message, close };
            let server = entered(call, phase, tail, now);
            let ended = dispatched(call, closing);
            &&& server.step is Ok ==> entered(server.call, send, later, then).step == refusal
            &&& call.stream is Some ==> entered(ended.call, send, later, then).step == refusal
        }),
{
}

// ---------------------------------------------------------------------------
// Plugins
// ---------------------------------------------------------------------------

/// A batch that asks plugins, once some of them have replied.
pub open spec fn after_replies(
    call: CallView,
    plugins: Seq<u64>,
    gathered: Seq<Pair>,
    phase: PluginPhaseView,
    replies: Seq<PluginReply>,
    tail: Tail,
) -> Outcome
    decreases replies.len(),
{
    let asked = asks_plugins(call, plugins, gathered, phase, tail);
    if replies.len() == 0 {
        asked
    } else {
        match (asked.step, reply_pairs(replies[0])) {
            (
                Ok(StepView::InvokePlugin { rest, gathered: before, .. }),
                Ok(list),
            ) => after_replies(call, rest, before + list, phase, replies.skip(1), tail),
            (Ok(StepView::InvokePlugin { rest, gathered: before, .. }), Err(_)) => plugin_replied(
                call,
                rest,
                before,
                phase,
                replies[0],
                tail,
            ),
            _ => asked,
        }
    }
}

proof fn lemma_replies(
    call: CallView,
    plugins: Seq<u64>,
    gathered: Seq<Pair>,
    phase: PluginPhaseView,
    replies: Seq<PluginReply>,
    lists: Seq<Seq<Pair>>,
    tail: Tail,
)
    requires
        replies.len() == lists.len() <= plugins.len(),
        forall|i: int|
            0 <= i < replies.len() ==> reply_pairs(#[trigger] replies[i]) == Ok::<
                Seq<Pair>,
                Seq<char>,
            >(lists[i]),
    ensures
        after_replies(call, plugins, gathered, phase, replies, tail) == asks_plugins(
            call,
            plugins.skip(replies.len() as int),
            gathered + lists.flatten(),
            phase,
            tail,
        ),
    decreases replies.len(),
{
    if replies.len() == 0 {
        assert(plugins.skip(0) =~= plugins);
        assert(gathered + lists.flatten() =~= gathered);
    } else {
        let rest = plugins.skip(1);
        assert(reply_pairs(replies[0]) == Ok::<Seq<Pair>, Seq<char>>(lists[0]));
        assert forall|i: int| 0 <= i < replies.skip(1).len() implies reply_pairs(
            #[trigger] replies.skip(1)[i],
        ) == Ok::<Seq<Pair>, Seq<char>>(lists.drop_first()[i]) by {
            assert(replies.skip(1)[i] == replies[i + 1]);
        }
        lemma_replies(
            call,
            rest,
            gathered + lists[0],
            phase,
            replies.skip(1),
            lists.drop_first(),
            tail,
        );
        assert(rest.skip(replies.len() - 1) =~= plugins.skip(replies.len() as int));
        assert(gathered + lists[0] + lists.drop_first().flatten() =~= gathered + lists.flatten());
    }
}

/// The plugins of a call are asked one after another, in order: once so many
/// have replied with metadata, the next one is asked, and when all have, the
/// batch goes on with the metadata of all of them, in the same order.
pub proof fn law_plugins_are_asked_in_turn(
    call: CallView,
    plugins: Seq<u64>,
    phase: PluginPhaseView,
    replies: Seq<PluginReply>,
    lists: Seq<Seq<Pair>>,
    tail: Tail,
)
    requires
        call.plugins == Some(plugins),
        plugins.len() > 0,
        replies.len() == lists.len() <= plugins.len(),
        forall|i: int|
            0 <= i < replies.len() ==> reply_pairs(#[trigger] replies[i]) == Ok::<
                Seq<Pair>,
                Seq<char>,
            >(lists[i]),
    ensures
        asks_plugin(call, phase, tail) == after_replies(
            call,
            plugins,
            Seq::empty(),
            phase,
            Seq::empty(),
            tail,
        ),
        replies.len() < plugins.len() ==> after_replies(
            call,
            plugins,
            Seq::empty(),
            phase,
            replies,
            tail,
        ) == goes_on(
            call,
            StepView::InvokePlugin {
                callable: plugins[replies.len() as int],
                rest: plugins.skip(replies.len() as int + 1),
                gathered: lists.flatten(),
                phase,
                tail,
            },
        ),
        replies.len() == plugins.len() ==> after_replies(
            call,
            plugins,
            Seq::empty(),
            phase,
            replies,
            tail,
        ) == has_plugin_metadata(call, phase, lists.flatten(), tail),
{
    lemma_replies(call, plugins, Seq::empty(), phase, replies, lists, tail);
    assert(Seq::<Pair>::empty() + lists.flatten() =~= lists.flatten());
    let left = plugins.skip(replies.len() as int);
    if replies.len() < plugins.len() {
        assert(left.skip(1) =~= plugins.skip(replies.len() as int + 1));
    }
}

// ---------------------------------------------------------------------------
// Results
// ---------------------------------------------------------------------------

/// The place of a property among the results.
pub open spec fn rank(property: PropertyView) -> int {
    match property {
        PropertyView::Metadata(_) => 0,
        PropertyView::Message(_) => 1,
        PropertyView::Status { .. } => 2,
        PropertyView::SendMetadata => 3,
        PropertyView::SendMessage => 4,
        PropertyView::SendClose => 5,
    }
}

/// The places of properties.
pub open spec fn ranks(list: Seq<PropertyView>) -> Seq<int> {
    list.map_values(|property: PropertyView| rank(property))
}

/// The places of the results that a batch waits for before the message.
pub open spec fn metadata_ranks(tail: Tail) -> Seq<int> {
    only_if(tail.flags.initial_metadata, 0)
}

/// The places of the results that a batch waits for before the status.
pub open spec fn message_ranks(tail: Tail) -> Seq<int> {
    metadata_ranks(tail) + only_if(tail.flags.message, 1)
}

/// The places of all the results of a batch.
pub open spec fn all_ranks(tail: Tail) -> Seq<int> {
    message_ranks(tail) + only_if(tail.flags.status, 2) + only_if(tail.acks.metadata, 3) + only_if(
        tail.acks.message,
        4,
    ) + only_if(tail.acks.close, 5)
}

/// Whether a batch that waits has exactly the results that come before, and
/// one that is done has all.
pub open spec fn results_are_due(o: Outcome, tail: Tail) -> bool {
    match o.step {
        Ok(StepView::Done(list)) => ranks(list) == all_ranks(tail),
        Ok(StepView::AwaitMessage { done, tail: t }) => t == tail && tail.flags.message && ranks(
            done,
        ) == metadata_ranks(tail),
        Ok(StepView::AwaitTrailers { done, tail: t }) => t == tail && tail.flags.status && ranks(
            done,
        ) == message_ranks(tail),
        _ => true,
    }
}

proof fn lemma_ranks_concat(a: Seq<PropertyView>, b: Seq<PropertyView>)
    ensures
        ranks(a + b) == ranks(a) + ranks(b),
{
    assert(ranks(a + b) =~= ranks(a) + ranks(b));
}

proof fn lemma_ack_ranks(tail: Tail)
    ensures
        ranks(ack_properties(tail.acks)) == only_if(tail.acks.metadata, 3int) + only_if(
            tail.acks.message,
            4int,
        ) + only_if(tail.acks.close, 5int),
{
    assert(ranks(ack_properties(tail.acks)) =~= only_if(tail.acks.metadata, 3int) + only_if(
        tail.acks.message,
        4int,
    ) + only_if(tail.acks.close, 5int));
}

proof fn lemma_finish_ranks(done: Seq<PropertyView>, tail: Tail)
    requires
        ranks(done) == message_ranks(tail) + only_if(tail.flags.status, 2),
    ensures
        ranks(done + ack_properties(tail.acks)) == all_ranks(tail),
{
    lemma_ranks_concat(done, ack_properties(tail.acks));
    lemma_ack_ranks(tail);
    assert(ranks(done + ack_properties(tail.acks)) =~= all_ranks(tail));
}

proof fn lemma_status_results(
    call: CallView,
    done: Seq<PropertyView>,
    trailers: TrailersView,
    tail: Tail,
)
    requires
        tail.flags.status,
        ranks(done) == message_ranks(tail),
    ensures
        results_are_due(with_status(call, done, trailers, tail), tail),
{
    let status = status_property(trailers);
    assert(ranks(done.push(status)) =~= message_ranks(tail) + only_if(true, 2int));
    lemma_finish_ranks(done.push(status), tail);
}

proof fn lemma_reads_status_results(call: CallView, done: Seq<PropertyView>, tail: Tail)
    requires
        ranks(done) == message_ranks(tail),
    ensures
        results_are_due(reads_status(call, done, tail), tail),
{
    if !tail.flags.status {
        assert(message_ranks(tail) + only_if(false, 2int) =~= message_ranks(tail));
        lemma_finish_ranks(done, tail);
    } else {
        match call.stream {
            Some(stream) => {
                match stream.cached {
                    Some(trailers) => lemma_status_results(
                        CallView { stream: Some(StreamView { cached: None, ..stream }), ..call },
                        done,
                        trailers,
                        tail,
                    ),
                    None => lemma_status_results(
                        call,
                        done,
                        bare_trailers(2, "stream already consumed"@),
                        tail,
                    ),
                }
            },
            None => {},
        }
    }
}

proof fn lemma_reads_message_results(call: CallView, done: Seq<PropertyView>, tail: Tail)
    requires
        ranks(done) == metadata_ranks(tail),
    ensures
        results_are_due(reads_message(call, done, tail), tail),
{
    if !tail.flags.message {
        assert(message_ranks(tail) =~= metadata_ranks(tail));
        lemma_reads_status_results(call, done, tail);
    } else {
        let more = done.push(PropertyView::Message(None));
        assert(ranks(more) =~= message_ranks(tail));
        lemma_reads_status_results(call, more, tail);
    }
}

/// A batch on a stream is answered with what it asked for and nothing else,
/// in the order metadata, message, status, then the acknowledgements, whatever
/// comes from the stream.
pub proof fn law_stream_results(call: CallView, tail: Tail, items: Seq<Item>)
    ensures
        results_are_due(reads(call, tail), tail),
        tail.flags.initial_metadata ==> results_are_due(has_metadata(call, items, tail), tail),
{
    let empty = Seq::<PropertyView>::empty();
    assert(ranks(empty) =~= Seq::<int>::empty());
    if !tail.flags.initial_metadata {
        lemma_reads_message_results(call, empty, tail);
    } else {
        let none = seq![PropertyView::Metadata(php_entries(Seq::empty()))];
        let some = seq![PropertyView::Metadata(php_entries(items))];
        assert(ranks(none) =~= metadata_ranks(tail));
        assert(ranks(some) =~= metadata_ranks(tail));
        lemma_reads_message_results(call, none, tail);
        lemma_reads_message_results(call, some, tail);
    }
}

/// The same holds once the message has come.
pub proof fn law_stream_results_after_message(
    call: CallView,
    done: Seq<PropertyView>,
    message: Option<MessageView>,
    tail: Tail,
    now: i64,
)
    requires
        tail.flags.message,
        ranks(done) == metadata_ranks(tail),
    ensures
        results_are_due(has_message(call, done, message, tail, now), tail),
{
    match call.stream {
        Some(stream) => {
            match message {
                Some(MessageView::Item(bytes)) => {
                    let more = done.push(PropertyView::Message(Some(bytes)));
                    assert(ranks(more) =~= message_ranks(tail));
                    lemma_reads_status_results(call, more, tail);
                },
                Some(MessageView::Failed(status)) => {
                    let more = done.push(PropertyView::Message(None));
                    assert(ranks(more) =~= message_ranks(tail));
                    let cached = Some(status_trailers(status, call.deadline_usec, now));
                    lemma_reads_status_results(
                        CallView { stream: Some(StreamView { cached, ..stream }), ..call },
                        more,
                        tail,
                    );
                },
                _ => {
                    let more = done.push(PropertyView::Message(None));
                    assert(ranks(more) =~= message_ranks(tail));
                    lemma_reads_status_results(call, more, tail);
                },
            }
        },
        None => {},
    }
}

/// The same holds once the trailers have come.
pub proof fn law_stream_results_after_trailers(
    call: CallView,
    done: Seq<PropertyView>,
    trailers: Option<TrailersView>,
    tail: Tail,
)
    requires
        tail.flags.status,
        ranks(done) == message_ranks(tail),
    ensures
        results_are_due(has_trailers(call, done, trailers, tail), tail),
{
    let used = match trailers {
        Some(t) => t,
        None => bare_trailers(2, "stream task terminated unexpectedly"@),
    };
    lemma_status_results(call, done, used, tail);
}

proof fn lemma_unary_ranks(tail: Tail, result: CallResultView)
    ensures
        ranks(unary_properties(tail.flags, result)) == message_ranks(tail) + only_if(
            tail.flags.status,
            2int,
        ),
{
    assert(ranks(unary_properties(tail.flags, result)) =~= message_ranks(tail) + only_if(
        tail.flags.status,
        2int,
    ));
}

/// A unary call is answered with what the batch asked for and nothing else, in
/// the order metadata, message, status, then the acknowledgements, whatever
/// the outcome of the call.
pub proof fn law_unary_results(call: CallView, ended: CallOutcome, tail: Tail, now: i64)
    ensures
        results_are_due(call_ended(call, ended, tail, now), tail),
{
    match call_ended(call, ended, tail, now).step {
        Ok(StepView::Done(list)) => {
            assert forall|result: CallResultView|
                #[trigger] ranks(
                    unary_properties(tail.flags, result) + ack_properties(tail.acks),
                ) == all_ranks(tail) by {
                lemma_unary_ranks(tail, result);
                lemma_finish_ranks(unary_properties(tail.flags, result), tail);
            }
        },
        _ => {},
    }
}

/// Whether a batch that waits for results can come to the outcome in one step.
pub open spec fn result_step_of(call: CallView, o: Outcome, tail: Tail, now: i64) -> bool {
    ||| exists|phase: RuntimePhaseView| o == #[trigger] entered(call, phase, tail, now)
    ||| exists|ended: CallOutcome| o == #[trigger] call_ended(call, ended, tail, now)
    ||| exists|items: Seq<Item>| o == #[trigger] has_metadata(call, items, tail)
    ||| exists|done: Seq<PropertyView>, message: Option<MessageView>|
        o == #[trigger] has_message(call, done, message, tail, now)
    ||| exists|done: Seq<PropertyView>, trailers: Option<TrailersView>|
        o == #[trigger] has_trailers(call, done, trailers, tail)
}

/// Whether an outcome ends the call exactly where it delivers the status.
spec fn ends_with_status(o: Outcome, tail: Tail) -> bool {
    o.call.finished <==> (o.step matches Ok(StepView::Done(_)) && tail.flags.status)
}

proof fn lemma_reading_ends_with_status(call: CallView, done: Seq<PropertyView>, tail: Tail)
    requires
        !call.finished,
    ensures
        ends_with_status(reads_status(call, done, tail), tail),
        ends_with_status(reads_message(call, done, tail), tail),
{
    let more = done.push(PropertyView::Message(None));
    assert(ends_with_status(reads_status(call, done, tail), tail));
    assert(ends_with_status(reads_status(call, more, tail), tail));
}

proof fn lemma_entering_ends_with_status(
    call: CallView,
    phase: RuntimePhaseView,
    tail: Tail,
    now: i64,
)
    requires
        !call.finished,
    ensures
        ends_with_status(entered(call, phase, tail, now), tail),
{
    match phase {
        RuntimePhaseView::Read => {
            lemma_reading_ends_with_status(call, Seq::empty(), tail);
            lemma_reading_ends_with_status(
                call,
                seq![PropertyView::Metadata(php_entries(Seq::empty()))],
                tail,
            );
        },
        _ => {},
    }
}

proof fn lemma_message_ends_with_status(
    call: CallView,
    done: Seq<PropertyView>,
    message: Option<MessageView>,
    tail: Tail,
    now: i64,
)
    requires
        !call.finished,
    ensures
        ends_with_status(has_message(call, done, message, tail, now), tail),
{
    match (call.stream, message) {
        (Some(_), Some(MessageView::Item(bytes))) => lemma_reading_ends_with_status(
            call,
            done.push(PropertyView::Message(Some(bytes))),
            tail,
        ),
        (Some(stream), Some(MessageView::Failed(status))) => {
            let cached = Some(status_trailers(status, call.deadline_usec, now));
            lemma_reading_ends_with_status(
                CallView { stream: Some(StreamView { cached, ..stream }), ..call },
                done.push(PropertyView::Message(None)),
                tail,
            );
        },
        _ => lemma_reading_ends_with_status(
            call,
            done.push(PropertyView::Message(None)),
            tail,
        ),
    }
}

/// Delivering the status ends the call, and nothing else does.
pub proof fn law_status_ends_the_call(call: CallView, o: Outcome, tail: Tail, now: i64)
    requires
        !call.finished,
        result_step_of(call, o, tail, now),
    ensures
        o.call.finished <==> (o.step matches Ok(StepView::Done(_)) && tail.flags.status),
{
    if exists|phase: RuntimePhaseView| o == #[trigger] entered(call, phase, tail, now) {
        let phase = choose|phase: RuntimePhaseView|
            o == #[trigger] entered(call, phase, tail, now);
        lemma_entering_ends_with_status(call, phase, tail, now);
    } else if exists|items: Seq<Item>| o == #[trigger] has_metadata(call, items, tail) {
        let items = choose|items: Seq<Item>| o == #[trigger] has_metadata(call, items, tail);
        lemma_reading_ends_with_status(
            call,
            seq![PropertyView::Metadata(php_entries(items))],
            tail,
        );
    } else if exists|done: Seq<PropertyView>, message: Option<MessageView>|
        o == #[trigger] has_message(call, done, message, tail, now) {
        let (done, message) = choose|done: Seq<PropertyView>, message: Option<MessageView>|
            o == #[trigger] has_message(call, done, message, tail, now);
        lemma_message_ends_with_status(call, done, message, tail, now);
    }
}

// ---------------------------------------------------------------------------
// Streams
// ---------------------------------------------------------------------------

/// A stream that fails is not lost: the batch that reads the failure gets a
/// null message, and the next status, in that batch or a later one, is that of
/// the failure.
pub proof fn law_stream_failure_is_reported(
    call: CallView,
    done: Seq<PropertyView>,
    status: Status,
    tail: Tail,
    now: i64,
    later: Tail,
)
    requires
        call.stream matches Some(stream) && !(later.flags.initial_metadata && stream.meta_pending),
        tail.flags.message,
        later.flags.status,
    ensures
        ({
            let after = has_message(call, done, Some(MessageView::Failed(status)), tail, now);
            let failure = status_property(status_trailers(status, call.deadline_usec, now));
            &&& after.step == Ok::<StepView, ExceptionView>(
                StepView::Done(
                    done.push(PropertyView::Message(None)) + only_if(tail.flags.status, failure)
                        + ack_properties(tail.acks),
                ),
            )
            &&& !tail.flags.status ==> reads(after.call, later).step == Ok::<
                StepView,
                ExceptionView,
            >(
                StepView::Done(
                    metadata_where_asked(later, Seq::empty()) + only_if(
                        later.flags.message,
                        PropertyView::Message(None),
                    ) + seq![failure] + ack_properties(later.acks),
                ),
            )
        }),
{
    let failure = status_property(status_trailers(status, call.deadline_usec, now));
    let null = PropertyView::Message(None);
    let read = metadata_where_asked(later, Seq::empty());
    let shown = read + only_if(later.flags.message, null);
    assert(done.push(null) + only_if(false, failure) =~= done.push(null));
    assert(done.push(null).push(failure) =~= done.push(null) + only_if(true, failure));
    assert(shown =~= if later.flags.message {
        read.push(null)
    } else {
        read
    });
    assert(shown.push(failure) =~= shown + seq![failure]);
}

/// The initial metadata of a stream is awaited once: a second batch that asks
/// for it gets none.
pub proof fn law_stream_metadata_is_read_once(call: CallView, tail: Tail, later: Tail)
    requires
        call.stream is Some,
        tail.flags.initial_metadata,
        later.flags.initial_metadata,
        !later.flags.message,
        !later.flags.status,
    ensures
        reads(reads(call, tail).call, later).step == Ok::<StepView, ExceptionView>(
            StepView::Done(
                seq![PropertyView::Metadata(php_entries(Seq::empty()))] + ack_properties(
                    later.acks,
                ),
            ),
        ),
{
}

// ---------------------------------------------------------------------------
// Messages
// ---------------------------------------------------------------------------

/// A message goes out as PHP gave it: a call in one batch, with no plugin and
/// time left, sends exactly the bytes of the batch.
pub proof fn law_message_is_sent_as_it_is(
    call: CallView,
    batch: BatchView,
    message: Seq<u8>,
    path: Seq<char>,
    now: i64,
)
    requires
        call.stream is None,
        call.plugins is None,
        batch.send_message == Some(message),
        batch.recv_message,
        batch.recv_status,
        !expired(call.deadline_usec, now),
        path_outcome(call.method) == Ok::<Seq<char>, Seq<char>>(path),
    ensures
        dispatched(call, batch).call == call,
        dispatched(call, batch).step matches Ok(StepView::EnterRuntime { phase, tail }) && entered(
            call,
            phase,
            tail,
            now,
        ).step matches Ok(StepView::Call { start, .. }) && start.message == message && start.path
            == path,
{
}

/// The answer of the server reaches PHP as it came, its initial metadata and the
/// empty message too, with the status of success.
pub proof fn law_answer_reaches_php(
    call: CallView,
    metadata: MetadataMap,
    body: Bytes,
    tail: Tail,
    now: i64,
)
    requires
        tail.flags.message,
        tail.flags.status,
    ensures
        call_ended(call, CallOutcome::Response { metadata, body }, tail, now).step == Ok::<
            StepView,
            ExceptionView,
        >(
            StepView::Done(
                metadata_where_asked(tail, metadata_items(metadata)) + seq![
                    PropertyView::Message(Some(bytes_of(body))),
                    status_property(bare_trailers(0, Seq::empty())),
                ] + ack_properties(tail.acks),
            ),
        ),
{
    let status = status_property(bare_trailers(0, Seq::empty()));
    let read = metadata_where_asked(tail, metadata_items(metadata));
    assert(read + seq![PropertyView::Message(Some(bytes_of(body)))] + seq![status] =~= read + seq![
        PropertyView::Message(Some(bytes_of(body))),
        status,
    ]);
}

/// The failure of a unary call reaches PHP as no metadata, a null message and
/// the status of the failure, not as an exception.
pub proof fn law_failure_reaches_php(call: CallView, status: Status, tail: Tail, now: i64)
    requires
        tail.flags.message,
        tail.flags.status,
    ensures
        call_ended(call, CallOutcome::Failed(status), tail, now).step == Ok::<
            StepView,
            ExceptionView,
        >(
            StepView::Done(
                metadata_where_asked(tail, Seq::empty()) + seq![
                    PropertyView::Message(None),
                    status_property(status_trailers(status, call.deadline_usec, now)),
                ] + ack_properties(tail.acks),
            ),
        ),
{
    let property = status_property(status_trailers(status, call.deadline_usec, now));
    let read = metadata_where_asked(tail, Seq::empty());
    assert(read + seq![PropertyView::Message(None)] + seq![property] =~= read + seq![
        PropertyView::Message(None),
        property,
    ]);
}

// ---------------------------------------------------------------------------
// Split batches
// ---------------------------------------------------------------------------

proof fn lemma_applied_concat(items: Seq<Item>, a: Seq<Pair>, b: Seq<Pair>)
    ensures
        applied(items, a + b) == applied(applied(items, a), b),
    decreases b.len(),
{
    if b.len() == 0 {
        assert(a + b =~= a);
    } else {
        assert((a + b).drop_last() =~= a + b.drop_last());
        assert((a + b).last() == b.last());
        lemma_applied_concat(items, a, b.drop_last());
    }
}

/// It makes no difference to the request whether the metadata of the plugin
/// is buffered behind that of the call or handed over apart from it.
pub proof fn law_buffered_metadata_is_the_same(send: Seq<Pair>, plugin: Seq<Pair>)
    ensures
        request_metadata(send + plugin, Seq::empty()) == request_metadata(send, plugin),
{
    lemma_applied_concat(Seq::empty(), send, plugin);
}

/// A call in two batches, one that sends everything and one that receives,
/// sends the same request as the call in one batch: the same metadata, the
/// same message, to the same path.
pub proof fn law_split_call_sends_the_same_request(
    call: CallView,
    batch: BatchView,
    plugin_metadata: Seq<Pair>,
    path: Seq<char>,
    now: i64,
    tail: Tail,
)
    requires
        call.stream is None,
        batch.send_close,
    ensures
        ({
            let buffered = CallView {
                pending_metadata: batch.send_metadata,
                pending_message: batch.send_message,
                ..call
            };
            let split = has_plugin_metadata(
                buffered,
                PluginPhaseView::Buffer { send_close: true },
                plugin_metadata,
                tail,
            );
            let whole = PluginPhaseView::Receive {
                send_metadata: batch.send_metadata,
                message: batch.send_message,
            };
            let at_once = has_plugin_metadata(
                CallView { send_closed: true, ..call },
                whole,
                plugin_metadata,
                tail,
            );
            match (split.step, at_once.step) {
                (
                    Ok(StepView::EnterRuntime { phase: RuntimePhaseView::StartServer {
                        send_metadata: a_send,
                        plugin_metadata: a_plugin,
                        message: a_message,
                    }, .. }),
                    Ok(StepView::EnterRuntime { phase: b_phase, .. }),
                ) => {
                    let (b_send, b_plugin, b_message) = match b_phase {
                        RuntimePhaseView::Unary { send_metadata, plugin_metadata, message } => (
                            send_metadata,
                            plugin_metadata,
                            message,
                        ),
                        RuntimePhaseView::StartServer {
                            send_metadata,
                            plugin_metadata,
                            message,
                        } => (send_metadata, plugin_metadata, message),
                        _ => (Seq::empty(), Seq::empty(), None),
                    };
                    &&& b_phase is Unary || b_phase is StartServer
                    &&& a_message == b_message
                    &&& start_view(call, false, a_send, a_plugin, Seq::empty(), path, now)
                        == start_view(call, false, b_send, b_plugin, Seq::empty(), path, now)
                },
                _ => false,
            }
        }),
{
    law_buffered_metadata_is_the_same(batch.send_metadata, plugin_metadata);
}

/// A batch that ends the sending on a call with no stream dispatches the
/// request at once, so that several calls can be under way together; nothing
/// stays behind in the call.
pub proof fn law_half_closed_start_is_dispatched(call: CallView, batch: BatchView)
    requires
        call.stream is None,
        call.plugins is None,
        batch.send_close,
        !batch.has_recv_ops(),
    ensures
        dispatched(call, batch) == goes_on(
            CallView { pending_metadata: Seq::empty(), pending_message: None, ..call },
            StepView::EnterRuntime {
                phase: RuntimePhaseView::StartServer {
                    send_metadata: batch.send_metadata,
                    plugin_metadata: Seq::empty(),
                    message: batch.send_message,
                },
                tail: tail_of(batch),
            },
        ),
{
    assert(batch.send_metadata + Seq::<Pair>::empty() =~= batch.send_metadata);
}

/// A batch that only sends does not wait for the server: once its request is
/// dispatched, or its deadline turns out to have passed, it is done, and every
/// send is acknowledged.
pub proof fn law_sending_does_not_wait(
    call: CallView,
    send_metadata: Seq<Pair>,
    plugin_metadata: Seq<Pair>,
    message: Option<Seq<u8>>,
    tail: Tail,
    now: i64,
)
    requires
        !tail.spec_reads(),
    ensures
        ({
            let phase = RuntimePhaseView::StartServer { send_metadata, plugin_metadata, message };
            let dispatch = entered(call, phase, tail, now);
            let done = Ok::<StepView, ExceptionView>(StepView::Done(ack_properties(tail.acks)));
            match dispatch.step {
                Ok(StepView::OpenStream { message, tail: t, .. }) => opened(
                    dispatch.call,
                    message,
                    t,
                ).step == done,
                Ok(_) => dispatch.step == done,
                Err(_) => true,
            }
        }),
{
    assert(Seq::<PropertyView>::empty() + ack_properties(tail.acks) =~= ack_properties(tail.acks));
}

/// Whether an outcome hands nothing to the outside: it asks no plugin, makes no
/// call, opens no stream and sends no message.
pub open spec fn sends_nothing(o: Outcome) -> bool {
    match o.step {
        Ok(StepView::InvokePlugin { .. }) => false,
        Ok(StepView::OpenStream { .. }) => false,
        Ok(StepView::SendMessage { .. }) => false,
        Ok(StepView::Call { .. }) => false,
        _ => true,
    }
}

/// Once a request was dispatched, receiving sends no second one and asks no
/// plugin again: a batch that ends the sending leaves a stream in the call, and
/// a batch that only receives on a call with a stream goes straight to reading
/// it, and hands nothing to the outside, whatever comes from the stream.
pub proof fn law_receiving_sends_nothing(
    call: CallView,
    send_metadata: Seq<Pair>,
    plugin_metadata: Seq<Pair>,
    message: Option<Seq<u8>>,
    sent: Tail,
    now: i64,
    batch: BatchView,
    items: Seq<Item>,
    done: Seq<PropertyView>,
    came: Option<MessageView>,
    trailers: Option<TrailersView>,
    then: i64,
)
    requires
        !batch.has_send_ops(),
        batch.has_recv_ops(),
    ensures
        ({
            let phase = RuntimePhaseView::StartServer { send_metadata, plugin_metadata, message };
            let dispatch = entered(call, phase, sent, now);
            dispatch.step is Ok ==> dispatch.call.stream is Some
        }),
        call.stream is Some ==> ({
            let tail = tail_of(batch);
            &&& dispatched(call, batch) == goes_on(
                call,
                StepView::EnterRuntime { phase: RuntimePhaseView::Read, tail },
            )
            &&& sends_nothing(entered(call, RuntimePhaseView::Read, tail, then))
            &&& sends_nothing(has_metadata(call, items, tail))
            &&& sends_nothing(has_message(call, done, came, tail, then))
            &&& sends_nothing(has_trailers(call, done, trailers, tail))
        }),
{
}

/// The call once a batch that ends the sending is buffered, before the plugins
/// are asked.
pub open spec fn half_closed(call: CallView, batch: BatchView) -> CallView {
    CallView {
        initial_metadata_sent: call.initial_metadata_sent || batch.has_send_initial_metadata,
        send_closed: true,
        pending_metadata: batch.send_metadata,
        pending_message: batch.send_message,
        ..call
    }
}

/// A batch that ends the sending on a call with no stream, once all its plugins
/// have replied.
pub open spec fn half_closed_with(
    call: CallView,
    batch: BatchView,
    replies: Seq<PluginReply>,
) -> Outcome {
    let phase = PluginPhaseView::Buffer { send_close: true };
    match call.plugins {
        None => asks_plugin(half_closed(call, batch), phase, tail_of(batch)),
        Some(plugins) => after_replies(
            half_closed(call, batch),
            plugins,
            Seq::empty(),
            phase,
            replies,
            tail_of(batch),
        ),
    }
}

/// Whether a batch on a call can put its request in flight, before any answer
/// is asked for: it ends the sending, it is in order, its plugins reply with
/// metadata, there is time left, and the method has a path.
pub open spec fn can_be_in_flight(
    call: CallView,
    ops: Seq<(ArrayKey, PhpValue)>,
    batch: BatchView,
    replies: Seq<PluginReply>,
    lists: Seq<Seq<Pair>>,
    path: Seq<char>,
    now: i64,
) -> bool {
    &&& call.stream is None
    &&& !call.cancelled
    &&& !call.finished
    &&& batch_of(ops) == Ok::<BatchView, ExceptionView>(batch)
    &&& batch.send_close
    &&& !batch.has_recv_ops()
    &&& !(batch.has_send_initial_metadata && call.initial_metadata_sent)
    &&& replies.len() == lists.len()
    &&& match call.plugins {
        None => replies.len() == 0,
        Some(plugins) => 0 < plugins.len() == replies.len(),
    }
    &&& forall|i: int|
        0 <= i < replies.len() ==> reply_pairs(#[trigger] replies[i]) == Ok::<
            Seq<Pair>,
            Seq<char>,
        >(lists[i])
    &&& !expired(call.deadline_usec, now)
    &&& path_outcome(call.method) == Ok::<Seq<char>, Seq<char>>(path)
}

/// A call that sends everything in one batch and receives in another has its
/// request in flight in between: the first batch asks the plugins, sends one
/// request, with its metadata, theirs and the message, and is done without an
/// answer; the second only reads, and hands nothing to the outside.
pub proof fn law_half_closed_call_is_in_flight(
    call: CallView,
    ops: Seq<(ArrayKey, PhpValue)>,
    batch: BatchView,
    replies: Seq<PluginReply>,
    lists: Seq<Seq<Pair>>,
    path: Seq<char>,
    now: i64,
    more: Seq<(ArrayKey, PhpValue)>,
    receiving: BatchView,
    then: i64,
)
    requires
        can_be_in_flight(call, ops, batch, replies, lists, path, now),
        batch_of(more) == Ok::<BatchView, ExceptionView>(receiving),
        !receiving.has_send_ops(),
        receiving.has_recv_ops(),
    ensures
        ({
            let tail = tail_of(batch);
            let all = half_closed_with(call, batch, replies);
            let phase = RuntimePhaseView::StartServer {
                send_metadata: batch.send_metadata + lists.flatten(),
                plugin_metadata: Seq::empty(),
                message: batch.send_message,
            };
            let sent = entered(all.call, phase, tail, now);
            let done = opened(sent.call, None, tail);
            let read = started(done.call, false, more);
            let then_tail = tail_of(receiving);
            &&& started(call, false, ops) == half_closed_with(call, batch, Seq::empty())
            &&& all.step == Ok::<StepView, ExceptionView>(StepView::EnterRuntime { phase, tail })
            &&& sent.step matches Ok(StepView::OpenStream { start, message, tail: t })
            &&& !start.bidi
            &&& start.items == finished_items(
                request_metadata(batch.send_metadata, lists.flatten()),
                call.deadline_usec,
                now,
            )
            &&& start.message == or_empty(batch.send_message)
            &&& start.path == path
            &&& message is None
            &&& t == tail
            &&& done.step == Ok::<StepView, ExceptionView>(
                StepView::Done(ack_properties(tail.acks)),
            )
            &&& done.call.stream == Some(opened_stream(false))
            &&& done.call.deadline_usec == call.deadline_usec
            &&& read == goes_on(
                done.call,
                StepView::EnterRuntime { phase: RuntimePhaseView::Read, tail: then_tail },
            )
            &&& sends_nothing(entered(done.call, RuntimePhaseView::Read, then_tail, then))
        }),
{
    let tail = tail_of(batch);
    let before = half_closed(call, batch);
    let phase = PluginPhaseView::Buffer { send_close: true };
    match call.plugins {
        None => {
            assert(lists.flatten() =~= Seq::<Pair>::empty());
        },
        Some(plugins) => {
            law_plugins_are_asked_in_turn(before, plugins, phase, replies, lists, tail);
            assert(half_closed_with(call, batch, replies) == has_plugin_metadata(
                before,
                phase,
                lists.flatten(),
                tail,
            ));
        },
    }
    law_buffered_metadata_is_the_same(batch.send_metadata, lists.flatten());
    assert(Seq::<PropertyView>::empty() + ack_properties(tail.acks) =~= ack_properties(tail.acks));
}

} // verus!

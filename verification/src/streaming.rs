//! Whole streams: what a call reads of what the task of its stream hands on.

use crate::batch::{ack_properties, batch_of, only_if, BatchView, PropertyView};
use crate::call::{
    dispatched, entered, goes_on, has_message, has_metadata, has_trailers, message_sent, opened,
    opened_stream, plain, reads, reads_message, reads_status, started, tail_of, throws, CallView,
    Outcome, RuntimePhaseView, StepView, StreamView, Tail,
};
use crate::error::ExceptionView;
use crate::laws::{
    can_be_in_flight, half_closed_with, law_half_closed_call_is_in_flight, metadata_where_asked,
    status_property,
};
use crate::plugin::PluginReply;
use crate::request::Pair;
use crate::status::expired;
use crate::stream::{
    bare_trailers, driven, status_trailers, DriverNext, MessageView, OutputView, StreamEvent,
    TrailersView,
};
use crate::value::{ArrayKey, PhpValue};
use crate::wire::{bytes_of, metadata_items, path_outcome, Item};
use bytes::Bytes;
use tonic::metadata::MetadataMap;
use tonic::Status;
use vstd::prelude::*;

verus! {

// ---------------------------------------------------------------------------
// What the task hands on
// ---------------------------------------------------------------------------

/// What the task of a stream has handed on and the call has not taken yet.
#[verifier::ext_equal]
pub struct Inbox {
    pub metadata: Option<Seq<Item>>,
    pub messages: Seq<MessageView>,
    pub trailers: Option<TrailersView>,
}

/// An inbox with nothing in it.
pub open spec fn empty_inbox() -> Inbox {
    Inbox { metadata: None, messages: Seq::empty(), trailers: None }
}

/// The inbox once the task handed on another output. Messages queue up; of
/// metadata and of trailers the first counts.
pub open spec fn handed_on(inbox: Inbox, output: OutputView) -> Inbox {
    Inbox {
        metadata: if inbox.metadata is Some {
            inbox.metadata
        } else {
            output.metadata
        },
        messages: match output.message {
            Some(message) => inbox.messages.push(message),
            None => inbox.messages,
        },
        trailers: if inbox.trailers is Some {
            inbox.trailers
        } else {
            output.trailers
        },
    }
}

/// What is in the inbox after events, each at its instant.
pub open spec fn after_events(events: Seq<(StreamEvent, i64)>, deadline_usec: i64) -> Inbox
    decreases events.len(),
{
    if events.len() == 0 {
        empty_inbox()
    } else {
        handed_on(
            after_events(events.drop_last(), deadline_usec),
            driven(events.last().0, deadline_usec, events.last().1),
        )
    }
}

/// How a stream that was opened ends.
pub enum Ending {
    /// In order, with trailing metadata where there is any.
    Clean(Option<MetadataMap>),
    /// With a failure.
    Failed(Status),
    /// Because the call was cancelled.
    Cancelled,
}

/// The events at the end of a stream.
pub open spec fn end_events(ending: Ending, now: i64) -> Seq<(StreamEvent, i64)> {
    match ending {
        Ending::Clean(metadata) => seq![
            (StreamEvent::Ended, now),
            (StreamEvent::Trailers(metadata), now),
        ],
        Ending::Failed(status) => seq![(StreamEvent::Failed(status), now)],
        Ending::Cancelled => seq![(StreamEvent::Cancelled, now)],
    }
}

/// The trailers of a stream that ends so: those of success, those that the
/// failure stands for, or those of a cancelled call.
pub open spec fn end_trailers(ending: Ending, deadline_usec: i64, now: i64) -> TrailersView {
    match ending {
        Ending::Clean(metadata) => TrailersView {
            items: match metadata {
                Some(map) => metadata_items(map),
                None => Seq::empty(),
            },
            ..bare_trailers(0, Seq::empty())
        },
        Ending::Failed(status) => status_trailers(status, deadline_usec, now),
        Ending::Cancelled => bare_trailers(1, "Call cancelled"@),
    }
}

/// The events of messages, each at its instant.
pub open spec fn message_events(bodies: Seq<Bytes>, nows: Seq<i64>) -> Seq<(StreamEvent, i64)> {
    Seq::new(bodies.len(), |i: int| (StreamEvent::Message(bodies[i]), nows[i]))
}

/// The events of a whole stream: it is opened, its messages come, and it ends.
pub open spec fn stream_events(
    metadata: MetadataMap,
    bodies: Seq<Bytes>,
    nows: Seq<i64>,
    ending: Ending,
    now: i64,
) -> Seq<(StreamEvent, i64)> {
    seq![(StreamEvent::Opened(metadata), now)] + message_events(bodies, nows) + end_events(
        ending,
        now,
    )
}

/// The bytes of messages.
pub open spec fn bodies_of(bodies: Seq<Bytes>) -> Seq<Seq<u8>> {
    Seq::new(bodies.len(), |i: int| bytes_of(bodies[i]))
}

/// Messages on their way to be read, and their end.
pub open spec fn queued(messages: Seq<Seq<u8>>) -> Seq<MessageView> {
    Seq::new(messages.len(), |i: int| MessageView::Item(messages[i])).push(MessageView::End)
}

proof fn lemma_after_messages(
    metadata: MetadataMap,
    bodies: Seq<Bytes>,
    nows: Seq<i64>,
    deadline_usec: i64,
    now: i64,
)
    ensures
        after_events(
            seq![(StreamEvent::Opened(metadata), now)] + message_events(bodies, nows),
            deadline_usec,
        ) == (Inbox {
            metadata: Some(metadata_items(metadata)),
            messages: queued(bodies_of(bodies)).drop_last(),
            trailers: None,
        }),
    decreases bodies.len(),
{
    let open = seq![(StreamEvent::Opened(metadata), now)];
    let events = open + message_events(bodies, nows);
    if bodies.len() == 0 {
        assert(events =~= open);
        assert(open.drop_last() =~= Seq::empty());
        assert(after_events(open.drop_last(), deadline_usec) == empty_inbox());
        assert(queued(bodies_of(bodies)).drop_last() =~= Seq::empty());
    } else {
        let before = bodies.drop_last();
        lemma_after_messages(metadata, before, nows, deadline_usec, now);
        assert(events.drop_last() =~= open + message_events(before, nows));
        assert(events.last().0 == StreamEvent::Message(bodies.last()));
        assert(queued(bodies_of(before)).drop_last().push(
            MessageView::Item(bytes_of(bodies.last())),
        ) =~= queued(bodies_of(bodies)).drop_last());
    }
}

/// The task of a stream hands on the initial metadata once, the messages in
/// order and each of them once, then that there are no more, and the trailers;
/// it stops there and no earlier.
pub proof fn law_task_hands_on_the_whole_stream(
    metadata: MetadataMap,
    bodies: Seq<Bytes>,
    nows: Seq<i64>,
    ending: Ending,
    deadline_usec: i64,
    now: i64,
)
    ensures
        after_events(stream_events(metadata, bodies, nows, ending, now), deadline_usec) == (Inbox {
            metadata: Some(metadata_items(metadata)),
            messages: queued(bodies_of(bodies)),
            trailers: Some(end_trailers(ending, deadline_usec, now)),
        }),
        forall|i: int|
            #![trigger stream_events(metadata, bodies, nows, ending, now)[i]]
            0 <= i < stream_events(metadata, bodies, nows, ending, now).len() ==> {
                let event = stream_events(metadata, bodies, nows, ending, now)[i];
                driven(event.0, deadline_usec, event.1).next == DriverNext::Stop <==> i
                    == stream_events(metadata, bodies, nows, ending, now).len() - 1
            },
{
    let head = seq![(StreamEvent::Opened(metadata), now)] + message_events(bodies, nows);
    let events = stream_events(metadata, bodies, nows, ending, now);
    lemma_after_messages(metadata, bodies, nows, deadline_usec, now);
    assert(queued(bodies_of(bodies)).drop_last().push(MessageView::End) =~= queued(
        bodies_of(bodies),
    ));
    match ending {
        Ending::Clean(trailing) => {
            let ended = events.drop_last();
            assert(ended =~= head.push((StreamEvent::Ended, now)));
            assert(ended.drop_last() =~= head);
            assert(ended.last() == (StreamEvent::Ended, now));
            assert(events.last() == (StreamEvent::Trailers(trailing), now));
            assert(after_events(ended, deadline_usec) == handed_on(
                after_events(head, deadline_usec),
                driven(StreamEvent::Ended, deadline_usec, now),
            ));
            assert(after_events(events, deadline_usec) == handed_on(
                after_events(ended, deadline_usec),
                driven(StreamEvent::Trailers(trailing), deadline_usec, now),
            ));
        },
        Ending::Failed(status) => {
            assert(events.drop_last() =~= head);
            assert(events.last() == (StreamEvent::Failed(status), now));
            assert(after_events(events, deadline_usec) == handed_on(
                after_events(head, deadline_usec),
                driven(StreamEvent::Failed(status), deadline_usec, now),
            ));
        },
        Ending::Cancelled => {
            assert(events.drop_last() =~= head);
            assert(events.last() == (StreamEvent::Cancelled, now));
            assert(after_events(events, deadline_usec) == handed_on(
                after_events(head, deadline_usec),
                driven(StreamEvent::Cancelled, deadline_usec, now),
            ));
        },
    }
    assert forall|i: int| #![trigger events[i]] 0 <= i < events.len() implies (driven(
        events[i].0,
        deadline_usec,
        events[i].1,
    ).next == DriverNext::Stop <==> i == events.len() - 1) by {
        if 0 < i <= bodies.len() {
            assert(events[i] == message_events(bodies, nows)[i - 1]);
        } else if i == 0 {
            assert(events[i].0 == StreamEvent::Opened(metadata));
        } else {
            assert(events[i] == end_events(ending, now)[i - 1 - bodies.len()]);
        }
    }
}

// ---------------------------------------------------------------------------
// What the call reads
// ---------------------------------------------------------------------------

/// A batch that reads a stream, and what it has left in the inbox.
#[verifier::ext_equal]
pub struct Receiving {
    pub outcome: Outcome,
    pub inbox: Inbox,
}

/// A batch that waits for the initial metadata gets it.
pub open spec fn take_metadata(r: Receiving) -> Receiving {
    match r.outcome.step {
        Ok(StepView::AwaitMetadata { tail }) => Receiving {
            outcome: has_metadata(
                r.outcome.call,
                match r.inbox.metadata {
                    Some(items) => items,
                    None => Seq::empty(),
                },
                tail,
            ),
            inbox: Inbox { metadata: None, ..r.inbox },
        },
        _ => r,
    }
}

/// A batch that waits for a message gets the next one, or learns that none will
/// come.
pub open spec fn take_message(r: Receiving, now: i64) -> Receiving {
    match r.outcome.step {
        Ok(StepView::AwaitMessage { done, tail }) => if r.inbox.messages.len() > 0 {
            Receiving {
                outcome: has_message(
                    r.outcome.call,
                    done,
                    Some(r.inbox.messages[0]),
                    tail,
                    now,
                ),
                inbox: Inbox { messages: r.inbox.messages.skip(1), ..r.inbox },
            }
        } else {
            Receiving {
                outcome: has_message(r.outcome.call, done, None, tail, now),
                inbox: r.inbox,
            }
        },
        _ => r,
    }
}

/// A batch that waits for the trailers gets them, or learns that they will not
/// come.
pub open spec fn take_trailers(r: Receiving) -> Receiving {
    match r.outcome.step {
        Ok(StepView::AwaitTrailers { done, tail }) => Receiving {
            outcome: has_trailers(r.outcome.call, done, r.inbox.trailers, tail),
            inbox: Inbox { trailers: None, ..r.inbox },
        },
        _ => r,
    }
}

/// A batch that receives from a stream, run to its end against the inbox.
pub open spec fn received(call: CallView, inbox: Inbox, tail: Tail, now: i64) -> Receiving {
    take_trailers(
        take_message(take_metadata(Receiving { outcome: reads(call, tail), inbox }), now),
    )
}

/// Batches that receive from a stream one after another, each at its instant.
pub open spec fn received_in_turn(
    call: CallView,
    inbox: Inbox,
    batches: Seq<(Tail, i64)>,
) -> Receiving
    decreases batches.len(),
{
    if batches.len() == 0 {
        Receiving {
            outcome: Outcome { call, step: Ok(StepView::Done(Seq::empty())) },
            inbox,
        }
    } else {
        let before = received_in_turn(call, inbox, batches.drop_last());
        received(before.outcome.call, before.inbox, batches.last().0, batches.last().1)
    }
}

/// Whether some batch asks for the initial metadata.
pub open spec fn asks_metadata(batches: Seq<(Tail, i64)>) -> bool {
    exists|i: int| 0 <= i < batches.len() && (#[trigger] batches[i]).0.flags.initial_metadata
}

/// How many batches ask for a message.
pub open spec fn messages_asked(batches: Seq<(Tail, i64)>) -> nat
    decreases batches.len(),
{
    if batches.len() == 0 {
        0
    } else {
        messages_asked(batches.drop_last()) + if batches.last().0.flags.message {
            1nat
        } else {
            0nat
        }
    }
}

/// The message at a place, or null behind the last.
pub open spec fn message_at(messages: Seq<Seq<u8>>, i: int) -> PropertyView {
    PropertyView::Message(
        if 0 <= i < messages.len() {
            Some(messages[i])
        } else {
            None
        },
    )
}

/// What a batch reads of a stream before the status: the initial metadata where
/// it asks for it, which is there for the first that does; and the message at
/// its place, where it asks for one.
pub open spec fn share(
    items: Seq<Item>,
    messages: Seq<Seq<u8>>,
    earlier: Seq<(Tail, i64)>,
    tail: Tail,
) -> Seq<PropertyView> {
    metadata_where_asked(
        tail,
        if asks_metadata(earlier) {
            Seq::empty()
        } else {
            items
        },
    ) + only_if(tail.flags.message, message_at(messages, messages_asked(earlier) as int))
}

/// What the last of some batches without the status is answered.
pub open spec fn answer(
    items: Seq<Item>,
    messages: Seq<Seq<u8>>,
    batches: Seq<(Tail, i64)>,
) -> Seq<PropertyView> {
    share(items, messages, batches.drop_last(), batches.last().0) + ack_properties(
        batches.last().0.acks,
    )
}

/// What the batch that asks for the status is answered after other batches.
pub open spec fn last_answer(
    items: Seq<Item>,
    messages: Seq<Seq<u8>>,
    batches: Seq<(Tail, i64)>,
    trailers: TrailersView,
    last: Tail,
) -> Seq<PropertyView> {
    share(items, messages, batches, last) + seq![status_property(trailers)] + ack_properties(
        last.acks,
    )
}

proof fn lemma_asks_metadata(batches: Seq<(Tail, i64)>)
    requires
        batches.len() > 0,
    ensures
        asks_metadata(batches) <==> (asks_metadata(batches.drop_last())
            || batches.last().0.flags.initial_metadata),
{
    let before = batches.drop_last();
    if asks_metadata(before) {
        let i = choose|i: int|
            0 <= i < before.len() && (#[trigger] before[i]).0.flags.initial_metadata;
        assert(batches[i].0.flags.initial_metadata);
    }
    if batches.last().0.flags.initial_metadata {
        assert(batches[batches.len() - 1].0.flags.initial_metadata);
    }
    if asks_metadata(batches) && !batches.last().0.flags.initial_metadata {
        let i = choose|i: int|
            0 <= i < batches.len() && (#[trigger] batches[i]).0.flags.initial_metadata;
        assert(before[i].0.flags.initial_metadata);
    }
}

/// The message that is the next to be read, if there is one.
spec fn next_message(inbox: Inbox) -> Option<Seq<u8>> {
    if inbox.messages.len() > 0 && inbox.messages[0] is Item {
        Some(inbox.messages[0]->Item_0)
    } else {
        None
    }
}

/// The inbox without the message that is the next to be read.
spec fn without_next(inbox: Inbox) -> Inbox {
    Inbox {
        messages: if inbox.messages.len() > 0 {
            inbox.messages.skip(1)
        } else {
            inbox.messages
        },
        ..inbox
    }
}

/// The call once a batch has asked for the initial metadata, or has not.
spec fn after_metadata(call: CallView, stream: StreamView, tail: Tail) -> CallView {
    CallView {
        stream: Some(
            StreamView {
                meta_pending: stream.meta_pending && !tail.flags.initial_metadata,
                ..stream
            },
        ),
        ..call
    }
}

/// The initial metadata that a batch finds.
spec fn metadata_found(stream: StreamView, inbox: Inbox) -> Seq<Item> {
    if stream.meta_pending && inbox.metadata is Some {
        inbox.metadata->0
    } else {
        Seq::empty()
    }
}

/// The inbox once a batch has asked for the initial metadata, or has not.
spec fn without_metadata(stream: StreamView, inbox: Inbox, tail: Tail) -> Inbox {
    Inbox {
        metadata: if tail.flags.initial_metadata && stream.meta_pending {
            None
        } else {
            inbox.metadata
        },
        ..inbox
    }
}

spec fn same_outcome(a: Outcome, b: Outcome) -> bool {
    a == b
}

proof fn lemma_awaits_no_metadata(call: CallView, done: Seq<PropertyView>, tail: Tail)
    ensures
        !(reads_message(call, done, tail).step is Ok && reads_message(
            call,
            done,
            tail,
        ).step->Ok_0 is AwaitMetadata),
{
}

proof fn lemma_take_metadata(call: CallView, stream: StreamView, inbox: Inbox, tail: Tail)
    requires
        call.stream == Some(stream),
    ensures
        same_outcome(
            take_metadata(Receiving { outcome: reads(call, tail), inbox }).outcome,
            reads_message(
                after_metadata(call, stream, tail),
                metadata_where_asked(tail, metadata_found(stream, inbox)),
                tail,
            ),
        ),
        take_metadata(Receiving { outcome: reads(call, tail), inbox }).inbox == without_metadata(
            stream,
            inbox,
            tail,
        ),
{
    let after = after_metadata(call, stream, tail);
    let begun = Receiving { outcome: reads(call, tail), inbox };
    if tail.flags.initial_metadata && stream.meta_pending {
        assert(same_outcome(
            reads(call, tail),
            Outcome { call: after, step: Ok(StepView::AwaitMetadata { tail }) },
        ));
        assert(same_outcome(
            take_metadata(begun).outcome,
            has_metadata(after, metadata_found(stream, inbox), tail),
        ));
    } else {
        assert(after.stream->0 == stream);
        assert(after == call);
        let done = metadata_where_asked(tail, Seq::empty());
        lemma_awaits_no_metadata(call, done, tail);
        assert(same_outcome(reads(call, tail), reads_message(call, done, tail)));
        assert(without_metadata(stream, inbox, tail) == inbox);
    }
}

proof fn lemma_take_message(
    call: CallView,
    inbox: Inbox,
    done: Seq<PropertyView>,
    tail: Tail,
    now: i64,
)
    requires
        call.stream matches Some(stream) && stream.cached is None,
        inbox.messages.len() > 0 ==> !(inbox.messages[0] is Failed),
    ensures
        take_message(Receiving { outcome: reads_message(call, done, tail), inbox }, now) == (
        Receiving {
            outcome: reads_status(
                call,
                done + only_if(tail.flags.message, PropertyView::Message(next_message(inbox))),
                tail,
            ),
            inbox: if tail.flags.message {
                without_next(inbox)
            } else {
                inbox
            },
        }),
{
    let property = PropertyView::Message(next_message(inbox));
    assert(done + only_if(true, property) =~= done.push(property));
    assert(done + only_if(false, property) =~= done);
}

proof fn lemma_received(
    call: CallView,
    stream: StreamView,
    inbox: Inbox,
    tail: Tail,
    now: i64,
)
    requires
        call.stream == Some(stream),
        stream.cached is None,
        inbox.messages.len() > 0 ==> !(inbox.messages[0] is Failed),
    ensures
        received(call, inbox, tail, now) == take_trailers(
            Receiving {
                outcome: reads_status(
                    after_metadata(call, stream, tail),
                    metadata_where_asked(tail, metadata_found(stream, inbox)) + only_if(
                        tail.flags.message,
                        PropertyView::Message(next_message(inbox)),
                    ),
                    tail,
                ),
                inbox: if tail.flags.message {
                    without_next(without_metadata(stream, inbox, tail))
                } else {
                    without_metadata(stream, inbox, tail)
                },
            },
        ),
{
    lemma_take_metadata(call, stream, inbox, tail);
    lemma_take_message(
        after_metadata(call, stream, tail),
        without_metadata(stream, inbox, tail),
        metadata_where_asked(tail, metadata_found(stream, inbox)),
        tail,
        now,
    );
    assert(next_message(without_metadata(stream, inbox, tail)) == next_message(inbox));
}

/// The inbox once a batch has read what it asks for before the status.
spec fn inbox_after(stream: StreamView, inbox: Inbox, tail: Tail) -> Inbox {
    if tail.flags.message {
        without_next(without_metadata(stream, inbox, tail))
    } else {
        without_metadata(stream, inbox, tail)
    }
}

/// What a batch reads before the status.
spec fn share_found(stream: StreamView, inbox: Inbox, tail: Tail) -> Seq<PropertyView> {
    metadata_where_asked(tail, metadata_found(stream, inbox)) + only_if(
        tail.flags.message,
        PropertyView::Message(next_message(inbox)),
    )
}

proof fn lemma_received_without_status(
    call: CallView,
    stream: StreamView,
    inbox: Inbox,
    tail: Tail,
    now: i64,
)
    requires
        call.stream == Some(stream),
        stream.cached is None,
        inbox.messages.len() > 0 ==> !(inbox.messages[0] is Failed),
        !tail.flags.status,
    ensures
        ({
            let r = received(call, inbox, tail, now);
            &&& r.outcome.call == after_metadata(call, stream, tail)
            &&& r.outcome.step == Ok::<StepView, ExceptionView>(
                StepView::Done(share_found(stream, inbox, tail) + ack_properties(tail.acks)),
            )
            &&& r.inbox == inbox_after(stream, inbox, tail)
        }),
{
    lemma_received(call, stream, inbox, tail, now);
}

proof fn lemma_received_with_status(
    call: CallView,
    stream: StreamView,
    inbox: Inbox,
    trailers: TrailersView,
    tail: Tail,
    now: i64,
)
    requires
        call.stream == Some(stream),
        stream.cached is None,
        stream.trailers_pending,
        inbox.messages.len() > 0 ==> !(inbox.messages[0] is Failed),
        inbox.trailers == Some(trailers),
        tail.flags.status,
    ensures
        ({
            let r = received(call, inbox, tail, now);
            &&& r.outcome.step == Ok::<StepView, ExceptionView>(
                StepView::Done(
                    share_found(stream, inbox, tail) + seq![status_property(trailers)]
                        + ack_properties(tail.acks),
                ),
            )
            &&& r.outcome.call.finished
        }),
{
    lemma_received(call, stream, inbox, tail, now);
    let read = share_found(stream, inbox, tail);
    assert(read.push(status_property(trailers)) =~= read + seq![status_property(trailers)]);
}

/// The inbox of a stream that some batches have read.
spec fn inbox_left(
    inbox: Inbox,
    items: Seq<Item>,
    messages: Seq<Seq<u8>>,
    batches: Seq<(Tail, i64)>,
) -> Inbox {
    Inbox {
        metadata: if asks_metadata(batches) {
            None
        } else {
            Some(items)
        },
        messages: if messages_asked(batches) <= messages.len() {
            queued(messages).skip(messages_asked(batches) as int)
        } else {
            Seq::empty()
        },
        trailers: inbox.trailers,
    }
}

proof fn lemma_share(
    stream: StreamView,
    inbox: Inbox,
    items: Seq<Item>,
    messages: Seq<Seq<u8>>,
    batches: Seq<(Tail, i64)>,
    tail: Tail,
)
    requires
        stream.meta_pending == !asks_metadata(batches),
    ensures
        ({
            let left = inbox_left(inbox, items, messages, batches);
            &&& left.messages.len() > 0 ==> !(left.messages[0] is Failed)
            &&& share_found(stream, left, tail) == share(items, messages, batches, tail)
        }),
{
    let left = inbox_left(inbox, items, messages, batches);
    let n = messages_asked(batches) as int;
    if n <= messages.len() {
        assert(left.messages[0] == queued(messages)[n]);
    }
    assert(PropertyView::Message(next_message(left)) == message_at(messages, n));
    assert(metadata_found(stream, left) == if asks_metadata(batches) {
        Seq::empty()
    } else {
        items
    });
}

proof fn lemma_inbox_left(
    stream: StreamView,
    inbox: Inbox,
    items: Seq<Item>,
    messages: Seq<Seq<u8>>,
    batches: Seq<(Tail, i64)>,
)
    requires
        batches.len() > 0,
        stream.meta_pending == !asks_metadata(batches.drop_last()),
    ensures
        inbox_after(
            stream,
            inbox_left(inbox, items, messages, batches.drop_last()),
            batches.last().0,
        ) == inbox_left(inbox, items, messages, batches),
{
    let left = inbox_left(inbox, items, messages, batches.drop_last());
    let n = messages_asked(batches.drop_last()) as int;
    lemma_asks_metadata(batches);
    if n < messages.len() {
        assert(left.messages.skip(1) =~= queued(messages).skip(n + 1));
    } else if n == messages.len() {
        assert(left.messages.skip(1) =~= Seq::empty());
    }
}

/// The batches that read a stream get its messages in order: the first that
/// asks for one the first, the next the second, and so on, and null ever after
/// the end. The first that asks for the initial metadata gets it, and later ones
/// get none. Nothing else about the call changes, and the trailers wait.
pub proof fn law_messages_are_read_in_order(
    call: CallView,
    stream: StreamView,
    inbox: Inbox,
    items: Seq<Item>,
    messages: Seq<Seq<u8>>,
    batches: Seq<(Tail, i64)>,
)
    requires
        call.stream == Some(stream),
        stream.cached is None,
        stream.meta_pending,
        inbox.metadata == Some(items),
        inbox.messages == queued(messages),
        forall|i: int| 0 <= i < batches.len() ==> !(#[trigger] batches[i]).0.flags.status,
    ensures
        ({
            let r = received_in_turn(call, inbox, batches);
            let n = messages_asked(batches) as int;
            &&& batches.len() > 0 ==> r.outcome.step == Ok::<StepView, ExceptionView>(
                StepView::Done(answer(items, messages, batches)),
            )
            &&& r.outcome.call == (CallView {
                stream: Some(StreamView { meta_pending: !asks_metadata(batches), ..stream }),
                ..call
            })
            &&& r.inbox == (Inbox {
                metadata: if asks_metadata(batches) {
                    None
                } else {
                    Some(items)
                },
                messages: if n <= messages.len() {
                    queued(messages).skip(n)
                } else {
                    Seq::empty()
                },
                trailers: inbox.trailers,
            })
        }),
    decreases batches.len(),
{
    if batches.len() == 0 {
        assert(queued(messages).skip(0) =~= queued(messages));
    } else {
        let before = batches.drop_last();
        assert forall|i: int| 0 <= i < before.len() implies !(
        #[trigger] before[i]).0.flags.status by {
            assert(before[i] == batches[i]);
        }
        law_messages_are_read_in_order(call, stream, inbox, items, messages, before);
        lemma_asks_metadata(batches);
        let b = received_in_turn(call, inbox, before);
        let (tail, now) = batches.last();
        assert(!batches[batches.len() - 1].0.flags.status);
        let state = StreamView { meta_pending: !asks_metadata(before), ..stream };
        assert(b.inbox == inbox_left(inbox, items, messages, before));
        lemma_share(state, inbox, items, messages, before, tail);
        lemma_received_without_status(b.outcome.call, state, b.inbox, tail, now);
        lemma_inbox_left(state, inbox, items, messages, batches);
    }
}

proof fn lemma_status_is_read(
    call: CallView,
    stream: StreamView,
    inbox: Inbox,
    items: Seq<Item>,
    messages: Seq<Seq<u8>>,
    trailers: TrailersView,
    batches: Seq<(Tail, i64)>,
    last: Tail,
    then: i64,
)
    requires
        call.stream == Some(stream),
        stream.cached is None,
        stream.meta_pending,
        stream.trailers_pending,
        inbox.metadata == Some(items),
        inbox.messages == queued(messages),
        inbox.trailers == Some(trailers),
        forall|i: int| 0 <= i < batches.len() ==> !(#[trigger] batches[i]).0.flags.status,
        last.flags.status,
    ensures
        ({
            let r = received_in_turn(call, inbox, batches);
            let end = received(r.outcome.call, r.inbox, last, then);
            &&& batches.len() > 0 ==> r.outcome.step == Ok::<StepView, ExceptionView>(
                StepView::Done(answer(items, messages, batches)),
            )
            &&& end.outcome.step == Ok::<StepView, ExceptionView>(
                StepView::Done(last_answer(items, messages, batches, trailers, last)),
            )
            &&& end.outcome.call.finished
        }),
{
    law_messages_are_read_in_order(call, stream, inbox, items, messages, batches);
    let r = received_in_turn(call, inbox, batches);
    let state = StreamView { meta_pending: !asks_metadata(batches), ..stream };
    assert(r.inbox == inbox_left(inbox, items, messages, batches));
    lemma_share(state, inbox, items, messages, batches, last);
    lemma_received_with_status(r.outcome.call, state, r.inbox, trailers, last, then);
}

/// A whole stream reaches PHP: of a stream that is opened with its initial
/// metadata, brings messages and ends, in order, with a failure or cancelled,
/// the batches that receive get the initial metadata once, the messages in order
/// and each of them once, then null; and the batch that asks for the status gets
/// that of the end, with its trailing metadata, behind whatever else it asks
/// for, and ends the call. It may be the only batch.
pub proof fn law_whole_stream_reaches_php(
    call: CallView,
    bidi: bool,
    metadata: MetadataMap,
    bodies: Seq<Bytes>,
    nows: Seq<i64>,
    ending: Ending,
    now: i64,
    batches: Seq<(Tail, i64)>,
    last: Tail,
    then: i64,
)
    requires
        call.stream == Some(opened_stream(bidi)),
        forall|i: int| 0 <= i < batches.len() ==> !(#[trigger] batches[i]).0.flags.status,
        last.flags.status,
    ensures
        ({
            let events = stream_events(metadata, bodies, nows, ending, now);
            let inbox = after_events(events, call.deadline_usec);
            let r = received_in_turn(call, inbox, batches);
            let end = received(r.outcome.call, r.inbox, last, then);
            &&& batches.len() > 0 ==> r.outcome.step == Ok::<StepView, ExceptionView>(
                StepView::Done(answer(metadata_items(metadata), bodies_of(bodies), batches)),
            )
            &&& end.outcome.step == Ok::<StepView, ExceptionView>(
                StepView::Done(
                    last_answer(
                        metadata_items(metadata),
                        bodies_of(bodies),
                        batches,
                        end_trailers(ending, call.deadline_usec, now),
                        last,
                    ),
                ),
            )
            &&& end.outcome.call.finished
        }),
{
    let events = stream_events(metadata, bodies, nows, ending, now);
    law_task_hands_on_the_whole_stream(metadata, bodies, nows, ending, call.deadline_usec, now);
    lemma_status_is_read(
        call,
        opened_stream(bidi),
        after_events(events, call.deadline_usec),
        metadata_items(metadata),
        bodies_of(bodies),
        end_trailers(ending, call.deadline_usec, now),
        batches,
        last,
        then,
    );
}

/// A stream that the server refuses reaches PHP as one with no metadata and no
/// messages: the batch that asks for the status gets that of the refusal.
pub proof fn law_refused_stream_reaches_php(
    call: CallView,
    bidi: bool,
    status: Status,
    now: i64,
    batches: Seq<(Tail, i64)>,
    last: Tail,
    then: i64,
)
    requires
        call.stream == Some(opened_stream(bidi)),
        forall|i: int| 0 <= i < batches.len() ==> !(#[trigger] batches[i]).0.flags.status,
        last.flags.status,
    ensures
        ({
            let inbox = after_events(seq![(StreamEvent::Refused(status), now)], call.deadline_usec);
            let r = received_in_turn(call, inbox, batches);
            let end = received(r.outcome.call, r.inbox, last, then);
            &&& batches.len() > 0 ==> r.outcome.step == Ok::<StepView, ExceptionView>(
                StepView::Done(answer(Seq::empty(), Seq::empty(), batches)),
            )
            &&& end.outcome.step == Ok::<StepView, ExceptionView>(
                StepView::Done(
                    last_answer(
                        Seq::empty(),
                        Seq::empty(),
                        batches,
                        status_trailers(status, call.deadline_usec, now),
                        last,
                    ),
                ),
            )
            &&& end.outcome.call.finished
        }),
{
    let events = seq![(StreamEvent::Refused(status), now)];
    let inbox = after_events(events, call.deadline_usec);
    assert(events.drop_last() =~= Seq::empty());
    assert(after_events(events.drop_last(), call.deadline_usec) == empty_inbox());
    assert(inbox.messages =~= queued(Seq::empty()));
    lemma_status_is_read(
        call,
        opened_stream(bidi),
        inbox,
        Seq::empty(),
        Seq::empty(),
        status_trailers(status, call.deadline_usec, now),
        batches,
        last,
        then,
    );
}

/// A stream whose transport could not be made ready reaches PHP in the batch
/// that asks for a message and the status: there is no metadata, the message is
/// null, and the status is that of the failure.
pub proof fn law_unready_stream_reaches_php(
    call: CallView,
    bidi: bool,
    status: Status,
    now: i64,
    last: Tail,
    then: i64,
)
    requires
        call.stream == Some(opened_stream(bidi)),
        last.flags.message,
        last.flags.status,
    ensures
        ({
            let inbox = after_events(
                seq![(StreamEvent::NotReady(status), now)],
                call.deadline_usec,
            );
            let end = received(call, inbox, last, then);
            &&& end.outcome.step == Ok::<StepView, ExceptionView>(
                StepView::Done(
                    metadata_where_asked(last, Seq::empty()) + seq![
                        PropertyView::Message(None),
                        status_property(status_trailers(status, call.deadline_usec, then)),
                    ] + ack_properties(last.acks),
                ),
            )
            &&& end.outcome.call.finished
        }),
{
    let events = seq![(StreamEvent::NotReady(status), now)];
    let inbox = after_events(events, call.deadline_usec);
    assert(events.drop_last() =~= Seq::empty());
    assert(after_events(events.drop_last(), call.deadline_usec) == empty_inbox());
    assert(inbox.messages =~= seq![MessageView::Failed(status)]);
    lemma_take_metadata(call, opened_stream(bidi), inbox, last);
    let read = metadata_where_asked(last, Seq::empty());
    let failure = status_property(status_trailers(status, call.deadline_usec, then));
    assert(read.push(PropertyView::Message(None)).push(failure) =~= read + seq![
        PropertyView::Message(None),
        failure,
    ]);
}

/// A stream from the server, from its start to its end: a batch that opens it
/// with time left is done without waiting for the server, and later batches get
/// the whole stream.
pub proof fn law_server_stream_from_start_to_end(
    call: CallView,
    send_metadata: Seq<Pair>,
    plugin_metadata: Seq<Pair>,
    request: Option<Seq<u8>>,
    path: Seq<char>,
    tail: Tail,
    start: i64,
    metadata: MetadataMap,
    bodies: Seq<Bytes>,
    nows: Seq<i64>,
    ending: Ending,
    now: i64,
    batches: Seq<(Tail, i64)>,
    last: Tail,
    then: i64,
)
    requires
        !expired(call.deadline_usec, start),
        path_outcome(call.method) == Ok::<Seq<char>, Seq<char>>(path),
        !tail.spec_reads(),
        forall|i: int| 0 <= i < batches.len() ==> !(#[trigger] batches[i]).0.flags.status,
        last.flags.status,
    ensures
        ({
            let phase = RuntimePhaseView::StartServer {
                send_metadata,
                plugin_metadata,
                message: request,
            };
            let sent = entered(call, phase, tail, start);
            let open = opened(sent.call, None, tail);
            let events = stream_events(metadata, bodies, nows, ending, now);
            let inbox = after_events(events, call.deadline_usec);
            let r = received_in_turn(open.call, inbox, batches);
            let end = received(r.outcome.call, r.inbox, last, then);
            &&& sent.step is Ok && sent.step->Ok_0 is OpenStream
            &&& open.step == Ok::<StepView, ExceptionView>(
                StepView::Done(ack_properties(tail.acks)),
            )
            &&& batches.len() > 0 ==> r.outcome.step == Ok::<StepView, ExceptionView>(
                StepView::Done(answer(metadata_items(metadata), bodies_of(bodies), batches)),
            )
            &&& end.outcome.step == Ok::<StepView, ExceptionView>(
                StepView::Done(
                    last_answer(
                        metadata_items(metadata),
                        bodies_of(bodies),
                        batches,
                        end_trailers(ending, call.deadline_usec, now),
                        last,
                    ),
                ),
            )
            &&& end.outcome.call.finished
        }),
{
    let phase = RuntimePhaseView::StartServer { send_metadata, plugin_metadata, message: request };
    let open = opened(entered(call, phase, tail, start).call, None, tail);
    assert(Seq::<PropertyView>::empty() + ack_properties(tail.acks) =~= ack_properties(tail.acks));
    law_whole_stream_reaches_php(
        open.call,
        false,
        metadata,
        bodies,
        nows,
        ending,
        now,
        batches,
        last,
        then,
    );
}

/// A stream takes the messages of the client as they are, and each batch is done
/// without waiting for the server: the batch that opens the stream hands its
/// message over, and so does every later one, until one ends the sending. The
/// stream is then to be read like any other.
pub proof fn law_messages_are_sent_as_they_are(
    call: CallView,
    send_metadata: Seq<Pair>,
    plugin_metadata: Seq<Pair>,
    first: Seq<u8>,
    path: Seq<char>,
    tail: Tail,
    start: i64,
    batch: BatchView,
    then: i64,
)
    requires
        !expired(call.deadline_usec, start),
        path_outcome(call.method) == Ok::<Seq<char>, Seq<char>>(path),
        !tail.spec_reads(),
        !batch.has_recv_ops(),
    ensures
        ({
            let phase = RuntimePhaseView::StartBidi {
                send_metadata,
                plugin_metadata,
                message: first,
            };
            let open = entered(call, phase, tail, start);
            let send = RuntimePhaseView::Send { message: first, close: false };
            let streaming = CallView { stream: Some(opened_stream(true)), ..call };
            &&& open.call == streaming
            &&& open.step matches Ok(StepView::OpenStream { start: request, message, tail: t })
            &&& request.bidi && request.path == path && message == Some(first) && t == tail
            &&& opened(streaming, message, tail) == goes_on(
                streaming,
                StepView::EnterRuntime { phase: send, tail },
            )
            &&& entered(streaming, send, tail, then) == goes_on(
                streaming,
                StepView::SendMessage { message: first, close: false, tail },
            )
            &&& message_sent(streaming, true, false, tail).step == Ok::<StepView, ExceptionView>(
                StepView::Done(ack_properties(tail.acks)),
            )
        }),
        call.stream == Some(opened_stream(true)) ==> ({
            let acks = tail_of(batch).acks;
            let after = CallView { stream: Some(opened_stream(!batch.send_close)), ..call };
            let done = goes_on(after, StepView::Done(ack_properties(acks)));
            match batch.send_message {
                Some(message) => {
                    let send = RuntimePhaseView::Send { message, close: batch.send_close };
                    &&& dispatched(call, batch) == goes_on(
                        call,
                        StepView::EnterRuntime { phase: send, tail: tail_of(batch) },
                    )
                    &&& entered(call, send, tail_of(batch), then) == goes_on(
                        call,
                        StepView::SendMessage {
                            message,
                            close: batch.send_close,
                            tail: tail_of(batch),
                        },
                    )
                    &&& message_sent(call, true, batch.send_close, tail_of(batch)) == done
                },
                None => dispatched(call, batch) == done,
            }
        }),
{
    let none = Seq::<PropertyView>::empty();
    let acks = tail_of(batch).acks;
    assert(none + ack_properties(tail.acks) =~= ack_properties(tail.acks));
    assert(none + ack_properties(acks) =~= ack_properties(acks));
}

/// The call once a batch that ends the sending has its request in flight.
pub open spec fn in_flight(
    call: CallView,
    batch: BatchView,
    replies: Seq<PluginReply>,
    lists: Seq<Seq<Pair>>,
    now: i64,
) -> CallView {
    let phase = RuntimePhaseView::StartServer {
        send_metadata: batch.send_metadata + lists.flatten(),
        plugin_metadata: Seq::empty(),
        message: batch.send_message,
    };
    let all = half_closed_with(call, batch, replies);
    opened(entered(all.call, phase, tail_of(batch), now).call, None, tail_of(batch)).call
}

/// A unary call in two batches: the first sends everything and is done without
/// an answer, and the second, which asks for the status, collects what the
/// server answered meanwhile: its initial metadata where that is asked for, its
/// message, and the status of the end with its trailing metadata.
pub proof fn law_split_unary_call_reaches_php(
    call: CallView,
    ops: Seq<(ArrayKey, PhpValue)>,
    batch: BatchView,
    replies: Seq<PluginReply>,
    lists: Seq<Seq<Pair>>,
    path: Seq<char>,
    now: i64,
    more: Seq<(ArrayKey, PhpValue)>,
    receiving: BatchView,
    metadata: MetadataMap,
    body: Bytes,
    nows: Seq<i64>,
    ending: Ending,
    at: i64,
    then: i64,
)
    requires
        can_be_in_flight(call, ops, batch, replies, lists, path, now),
        batch_of(more) == Ok::<BatchView, ExceptionView>(receiving),
        !receiving.has_send_ops(),
        receiving.recv_message,
        receiving.recv_status,
    ensures
        ({
            let flying = in_flight(call, batch, replies, lists, now);
            let tail = tail_of(receiving);
            let events = stream_events(metadata, seq![body], nows, ending, at);
            let end = received(
                flying,
                after_events(events, call.deadline_usec),
                tail,
                then,
            );
            &&& started(flying, false, more) == goes_on(
                flying,
                StepView::EnterRuntime { phase: RuntimePhaseView::Read, tail },
            )
            &&& end.outcome.step == Ok::<StepView, ExceptionView>(
                StepView::Done(
                    metadata_where_asked(tail, metadata_items(metadata)) + seq![
                        PropertyView::Message(Some(bytes_of(body))),
                        status_property(end_trailers(ending, call.deadline_usec, at)),
                    ] + ack_properties(tail.acks),
                ),
            )
            &&& end.outcome.call.finished
        }),
{
    let flying = in_flight(call, batch, replies, lists, now);
    let tail = tail_of(receiving);
    law_half_closed_call_is_in_flight(
        call,
        ops,
        batch,
        replies,
        lists,
        path,
        now,
        more,
        receiving,
        then,
    );
    let none = Seq::<(Tail, i64)>::empty();
    law_whole_stream_reaches_php(
        flying,
        false,
        metadata,
        seq![body],
        nows,
        ending,
        at,
        none,
        tail,
        then,
    );
    let items = metadata_items(metadata);
    let bodies = bodies_of(seq![body]);
    assert(!asks_metadata(none));
    assert(message_at(bodies, 0) == PropertyView::Message(Some(bytes_of(body))));
    let status = status_property(end_trailers(ending, call.deadline_usec, at));
    assert(share(items, bodies, none, tail) + seq![status] =~= metadata_where_asked(tail, items)
        + seq![PropertyView::Message(Some(bytes_of(body))), status]);
}

/// A unary call in two batches that the server refuses reaches PHP in the second
/// as no metadata, a null message and the status of the refusal.
pub proof fn law_split_unary_call_that_is_refused(
    call: CallView,
    ops: Seq<(ArrayKey, PhpValue)>,
    batch: BatchView,
    replies: Seq<PluginReply>,
    lists: Seq<Seq<Pair>>,
    path: Seq<char>,
    now: i64,
    more: Seq<(ArrayKey, PhpValue)>,
    receiving: BatchView,
    status: Status,
    at: i64,
    then: i64,
)
    requires
        can_be_in_flight(call, ops, batch, replies, lists, path, now),
        batch_of(more) == Ok::<BatchView, ExceptionView>(receiving),
        !receiving.has_send_ops(),
        receiving.recv_message,
        receiving.recv_status,
    ensures
        ({
            let flying = in_flight(call, batch, replies, lists, now);
            let tail = tail_of(receiving);
            let inbox = after_events(seq![(StreamEvent::Refused(status), at)], call.deadline_usec);
            let end = received(flying, inbox, tail, then);
            &&& end.outcome.step == Ok::<StepView, ExceptionView>(
                StepView::Done(
                    metadata_where_asked(tail, Seq::empty()) + seq![
                        PropertyView::Message(None),
                        status_property(status_trailers(status, call.deadline_usec, at)),
                    ] + ack_properties(tail.acks),
                ),
            )
            &&& end.outcome.call.finished
        }),
{
    let flying = in_flight(call, batch, replies, lists, now);
    let tail = tail_of(receiving);
    law_half_closed_call_is_in_flight(
        call,
        ops,
        batch,
        replies,
        lists,
        path,
        now,
        more,
        receiving,
        then,
    );
    let none = Seq::<(Tail, i64)>::empty();
    law_refused_stream_reaches_php(flying, false, status, at, none, tail, then);
    assert(!asks_metadata(none));
    let property = status_property(status_trailers(status, call.deadline_usec, at));
    assert(share(Seq::empty(), Seq::empty(), none, tail) + seq![property]
        =~= metadata_where_asked(tail, Seq::empty()) + seq![
        PropertyView::Message(None),
        property,
    ]);
}

/// Nothing is read of a stream that is not there.
pub proof fn law_no_stream_is_not_read(call: CallView, tail: Tail)
    requires
        call.stream is None,
    ensures
        reads(call, tail) == throws(call, plain("no active stream"@)),
{
}

} // verus!

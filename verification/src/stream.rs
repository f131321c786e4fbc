//! Streams: what the task that drives one does at each event, and what the
//! call sees of it.

use crate::channel::{CHANNEL_READY, CHANNEL_TRANSIENT_FAILURE};
use crate::status::{
    details_reach_php, law_details_are_added, php_status, status_metadata_fits,
    status_metadata_for_php, status_php_items, status_to_php_at,
};
use crate::wire::{
    bytes_of, code_of, has_room, metadata_items, status_code, status_details, status_items,
    status_message, status_of_error, transport_status_code, Item,
};
use bytes::Bytes;
use tonic::metadata::MetadataMap;
use tonic::Status;
use vstd::prelude::*;

verus! {

// ---------------------------------------------------------------------------
// Trailers
// ---------------------------------------------------------------------------

/// The status and trailing metadata of a stream.
pub struct StreamTrailers {
    pub code: i32,
    pub message: String,
    pub metadata: MetadataMap,
}

/// What trailers hold.
pub struct TrailersView {
    pub code: int,
    pub message: Seq<char>,
    pub items: Seq<Item>,
}

impl View for StreamTrailers {
    type V = TrailersView;

    open spec fn view(&self) -> TrailersView {
        TrailersView {
            code: self.code as int,
            message: self.message@,
            items: metadata_items(self.metadata),
        }
    }
}

/// Trailers with a code and a message and no metadata.
pub open spec fn bare_trailers(code: int, message: Seq<char>) -> TrailersView {
    TrailersView { code, message, items: Seq::empty() }
}

/// The trailers that a status stands for.
pub open spec fn status_trailers(status: Status, deadline_usec: i64, now: i64) -> TrailersView {
    let (code, message) = php_status(
        status_code(status),
        status_message(status),
        deadline_usec,
        now,
    );
    TrailersView {
        code,
        message,
        items: status_php_items(status_items(status), status_details(status)),
    }
}

impl StreamTrailers {
    /// Trailers with a code and a message and no metadata.
    pub fn bare(code: i32, message: &str) -> (r: StreamTrailers)
        ensures
            r@ == bare_trailers(code as int, message@),
    {
        StreamTrailers { code, message: message.to_owned(), metadata: MetadataMap::new() }
    }

    /// The trailers that a status stands for.
    pub fn from_status(status: &Status, deadline_usec: i64, now: i64) -> (r: StreamTrailers)
        requires
            has_room(status_items(*status)),
        ensures
            r@ == status_trailers(*status, deadline_usec, now),
            details_reach_php(*status),
    {
        let (code, message) = status_to_php_at(status, deadline_usec, now);
        StreamTrailers { code, message, metadata: status_metadata_for_php(status) }
    }
}

// ---------------------------------------------------------------------------
// The driver
// ---------------------------------------------------------------------------

/// What happens to the task that drives a stream.
pub enum StreamEvent {
    /// The transport could not be made ready.
    NotReady(Status),
    /// The server accepted the call, with its initial metadata.
    Opened(MetadataMap),
    /// The call failed before a stream was opened.
    Refused(Status),
    /// A message came.
    Message(Bytes),
    /// No message will follow.
    Ended,
    /// The trailing metadata of an ended stream came, where there is any.
    Trailers(Option<MetadataMap>),
    /// The stream failed.
    Failed(Status),
    /// The call was cancelled.
    Cancelled,
}

/// What the call is sent on its way to read.
pub enum StreamMessage {
    Item(Bytes),
    /// No message will follow.
    End,
    /// The stream never was.
    Failed(Status),
}

/// What the task does next.
#[derive(Debug, Clone, Copy, PartialEq, Eq, Structural)]
pub enum DriverNext {
    Stop,
    ReadMessage,
    ReadTrailers,
}

/// What the task hands on at an event, and what it does next.
pub struct StreamOutput {
    /// The new state of the channel.
    pub channel_state: Option<i64>,
    /// The initial metadata.
    pub metadata: Option<MetadataMap>,
    pub message: Option<StreamMessage>,
    pub trailers: Option<StreamTrailers>,
    pub next: DriverNext,
    /// What it does in its place when nobody takes the message.
    pub undelivered: DriverNext,
}

/// What is sent to the call.
pub enum MessageView {
    Item(Seq<u8>),
    End,
    Failed(Status),
}

/// What an output holds.
pub struct OutputView {
    pub channel_state: Option<i64>,
    pub metadata: Option<Seq<Item>>,
    pub message: Option<MessageView>,
    pub trailers: Option<TrailersView>,
    pub next: DriverNext,
    pub undelivered: DriverNext,
}

impl View for StreamMessage {
    type V = MessageView;

    open spec fn view(&self) -> MessageView {
        match self {
            StreamMessage::Item(bytes) => MessageView::Item(bytes_of(*bytes)),
            StreamMessage::End => MessageView::End,
            StreamMessage::Failed(status) => MessageView::Failed(*status),
        }
    }
}

impl View for StreamOutput {
    type V = OutputView;

    open spec fn view(&self) -> OutputView {
        OutputView {
            channel_state: self.channel_state,
            metadata: match self.metadata {
                Some(map) => Some(metadata_items(map)),
                None => None,
            },
            message: match self.message {
                Some(message) => Some(message@),
                None => None,
            },
            trailers: match self.trailers {
                Some(trailers) => Some(trailers@),
                None => None,
            },
            next: self.next,
            undelivered: self.undelivered,
        }
    }
}

/// An output that hands nothing on.
pub open spec fn silent(next: DriverNext) -> OutputView {
    OutputView {
        channel_state: None,
        metadata: None,
        message: None,
        trailers: None,
        next,
        undelivered: next,
    }
}

/// The output at the end of a stream.
pub open spec fn ended(trailers: TrailersView) -> OutputView {
    OutputView {
        message: Some(MessageView::End),
        trailers: Some(trailers),
        ..silent(DriverNext::Stop)
    }
}

/// What the task does at an event.
pub open spec fn driven(event: StreamEvent, deadline_usec: i64, now: i64) -> OutputView {
    match event {
        StreamEvent::NotReady(status) => OutputView {
            channel_state: Some(CHANNEL_TRANSIENT_FAILURE),
            metadata: Some(Seq::empty()),
            message: Some(MessageView::Failed(status)),
            ..silent(DriverNext::Stop)
        },
        StreamEvent::Opened(metadata) => OutputView {
            channel_state: Some(CHANNEL_READY),
            metadata: Some(metadata_items(metadata)),
            ..silent(DriverNext::ReadMessage)
        },
        StreamEvent::Refused(status) => OutputView {
            channel_state: Some(
                if status_code(status) == 14 {
                    CHANNEL_TRANSIENT_FAILURE
                } else {
                    CHANNEL_READY
                },
            ),
            metadata: Some(Seq::empty()),
            ..ended(status_trailers(status, deadline_usec, now))
        },
        StreamEvent::Message(bytes) => OutputView {
            message: Some(MessageView::Item(bytes_of(bytes))),
            undelivered: DriverNext::Stop,
            ..silent(DriverNext::ReadMessage)
        },
        StreamEvent::Ended => OutputView {
            message: Some(MessageView::End),
            ..silent(DriverNext::ReadTrailers)
        },
        StreamEvent::Trailers(metadata) => OutputView {
            trailers: Some(
                TrailersView {
                    items: match metadata {
                        Some(map) => metadata_items(map),
                        None => Seq::empty(),
                    },
                    ..bare_trailers(0, Seq::empty())
                },
            ),
            ..silent(DriverNext::Stop)
        },
        StreamEvent::Failed(status) => ended(status_trailers(status, deadline_usec, now)),
        StreamEvent::Cancelled => ended(bare_trailers(1, "Call cancelled"@)),
    }
}

/// Whether the metadata of the status in an event has room for its details.
pub open spec fn event_fits(event: StreamEvent) -> bool {
    match event {
        StreamEvent::Refused(status) => has_room(status_items(status)),
        StreamEvent::Failed(status) => has_room(status_items(status)),
        _ => true,
    }
}

/// Whether an event can be driven.
pub fn stream_event_fits(event: &StreamEvent) -> (r: bool)
    ensures
        r == event_fits(*event),
{
    match event {
        StreamEvent::Refused(status) => status_metadata_fits(status),
        StreamEvent::Failed(status) => status_metadata_fits(status),
        _ => true,
    }
}

fn nothing(next: DriverNext) -> (r: StreamOutput)
    ensures
        r@ == silent(next),
{
    StreamOutput {
        channel_state: None,
        metadata: None,
        message: None,
        trailers: None,
        next,
        undelivered: next,
    }
}

fn the_end(trailers: StreamTrailers) -> (r: StreamOutput)
    ensures
        r@ == ended(trailers@),
{
    StreamOutput {
        channel_state: None,
        metadata: None,
        message: Some(StreamMessage::End),
        trailers: Some(trailers),
        next: DriverNext::Stop,
        undelivered: DriverNext::Stop,
    }
}

/// What the task that drives a stream does at an event. The details of a
/// failure are among what PHP reads of its trailers.
pub fn drive(event: StreamEvent, deadline_usec: i64, now: i64) -> (r: StreamOutput)
    requires
        event_fits(event),
    ensures
        r@ == driven(event, deadline_usec, now),
        event matches StreamEvent::Refused(status) ==> details_reach_php(status),
        event matches StreamEvent::Failed(status) ==> details_reach_php(status),
{
    match event {
        StreamEvent::NotReady(status) => {
            let mut output = nothing(DriverNext::Stop);
            output.channel_state = Some(CHANNEL_TRANSIENT_FAILURE);
            output.metadata = Some(MetadataMap::new());
            output.message = Some(StreamMessage::Failed(status));
            output
        },
        StreamEvent::Opened(metadata) => {
            let mut output = nothing(DriverNext::ReadMessage);
            output.channel_state = Some(CHANNEL_READY);
            output.metadata = Some(metadata);
            output
        },
        StreamEvent::Refused(status) => {
            let mut output = the_end(StreamTrailers::from_status(&status, deadline_usec, now));
            output.channel_state = Some(
                if code_of(&status) == 14 {
                    CHANNEL_TRANSIENT_FAILURE
                } else {
                    CHANNEL_READY
                },
            );
            output.metadata = Some(MetadataMap::new());
            output
        },
        StreamEvent::Message(bytes) => {
            let mut output = nothing(DriverNext::ReadMessage);
            output.message = Some(StreamMessage::Item(bytes));
            output.undelivered = DriverNext::Stop;
            output
        },
        StreamEvent::Ended => {
            let mut output = nothing(DriverNext::ReadTrailers);
            output.message = Some(StreamMessage::End);
            output
        },
        StreamEvent::Trailers(metadata) => {
            let mut output = nothing(DriverNext::Stop);
            let map = match metadata {
                Some(map) => map,
                None => MetadataMap::new(),
            };
            output.trailers = Some(
                StreamTrailers { code: 0, message: String::new(), metadata: map },
            );
            output
        },
        StreamEvent::Failed(status) => the_end(
            StreamTrailers::from_status(&status, deadline_usec, now),
        ),
        StreamEvent::Cancelled => the_end(StreamTrailers::bare(1, "Call cancelled")),
    }
}

/// What the task that drives a stream does when the transport could not be
/// made ready.
pub fn drive_not_ready(error: tonic::transport::Error) -> (r: StreamOutput)
    ensures
        exists|status: Status| #[trigger]
            status_code(status) == transport_status_code(error) && r@ == driven(
                StreamEvent::NotReady(status),
                0,
                0,
            ),
{
    let status = status_of_error(error);
    drive(StreamEvent::NotReady(status), 0, 0)
}

/// A stream that is read to its end has one status: the task stops by handing
/// on trailers, or a failure in their place, but never both and never neither;
/// and before the stop it hands on no trailers. Only a message that nobody
/// takes stops it early.
pub proof fn law_stream_has_one_status(event: StreamEvent, deadline_usec: i64, now: i64)
    ensures
        ({
            let output = driven(event, deadline_usec, now);
            let failed = output.message matches Some(MessageView::Failed(_));
            &&& !(output.trailers is Some && failed)
            &&& output.next == DriverNext::Stop <==> (output.trailers is Some || failed)
            &&& output.undelivered != output.next ==> output.message matches Some(
                MessageView::Item(_),
            )
        }),
{
}

/// The answer to a call says how the channel is: that the server could not be
/// reached, or else that the channel is ready. Nothing that happens to the
/// stream later says anything of it.
pub proof fn law_channel_state_follows_answers(event: StreamEvent, deadline_usec: i64, now: i64)
    ensures
        driven(event, deadline_usec, now).channel_state == match event {
            StreamEvent::NotReady(_) => Some(CHANNEL_TRANSIENT_FAILURE),
            StreamEvent::Opened(_) => Some(CHANNEL_READY),
            StreamEvent::Refused(status) => if status_code(status) == 14 {
                Some(CHANNEL_TRANSIENT_FAILURE)
            } else {
                Some(CHANNEL_READY)
            },
            _ => None,
        },
{
}

/// What is handed on is seen as it is held: the code and all of the message of
/// trailers, the items of metadata, and all of the bytes of a message.
pub proof fn law_outputs_are_seen_whole(output: StreamOutput, trailers: StreamTrailers)
    ensures
        trailers@.code == trailers.code,
        trailers@.message == trailers.message@,
        trailers@.items == metadata_items(trailers.metadata),
        output@.channel_state == output.channel_state,
        output.metadata matches Some(map) ==> output@.metadata == Some(metadata_items(map)),
        output.metadata is None ==> output@.metadata is None,
        output.message is None ==> output@.message is None,
        output.message matches Some(StreamMessage::Item(bytes)) ==> output@.message == Some(
            MessageView::Item(bytes_of(bytes)),
        ),
        output.message matches Some(StreamMessage::End) ==> output@.message == Some(
            MessageView::End,
        ),
        output.message matches Some(StreamMessage::Failed(status)) ==> output@.message == Some(
            MessageView::Failed(status),
        ),
        output.trailers matches Some(t) ==> output@.trailers == Some(t@),
        output.trailers is None ==> output@.trailers is None,
        output@.next == output.next,
        output@.undelivered == output.undelivered,
{
}

/// Every message of a stream is handed on byte for byte, whatever its length,
/// and the next one is read, unless nobody takes it.
pub proof fn law_messages_are_handed_on(bytes: Bytes, deadline_usec: i64, now: i64)
    ensures
        ({
            let output = driven(StreamEvent::Message(bytes), deadline_usec, now);
            &&& output.message == Some(MessageView::Item(bytes_of(bytes)))
            &&& output.metadata is None
            &&& output.trailers is None
            &&& output.channel_state is None
            &&& output.next == DriverNext::ReadMessage
            &&& output.undelivered == DriverNext::Stop
        }),
{
}

/// The initial metadata of an accepted call is handed on whole, and then
/// messages are read; a call that has none because it failed hands on that it
/// has none.
pub proof fn law_initial_metadata_is_handed_on(
    metadata: MetadataMap,
    status: Status,
    deadline_usec: i64,
    now: i64,
)
    ensures
        ({
            let output = driven(StreamEvent::Opened(metadata), deadline_usec, now);
            &&& output.metadata == Some(metadata_items(metadata))
            &&& output.message is None
            &&& output.trailers is None
            &&& output.next == DriverNext::ReadMessage
            &&& output.undelivered == DriverNext::ReadMessage
        }),
        ({
            let output = driven(StreamEvent::NotReady(status), deadline_usec, now);
            &&& output.metadata == Some(Seq::<Item>::empty())
            &&& output.message == Some(MessageView::Failed(status))
            &&& output.trailers is None
            &&& output.channel_state == Some(3i64)
            &&& output.next == DriverNext::Stop
            &&& output.undelivered == DriverNext::Stop
        }),
        driven(StreamEvent::Opened(metadata), deadline_usec, now).channel_state == Some(2i64),
        driven(StreamEvent::Refused(status), deadline_usec, now).channel_state == Some(
            if status_code(status) == 14 {
                3i64
            } else {
                2i64
            },
        ),
        driven(StreamEvent::Refused(status), deadline_usec, now).metadata == Some(
            Seq::<Item>::empty(),
        ),
{
}

/// The trailers of a stream that fails are those of its status: its code and its
/// message as they are, for every code, unless it is a cancellation after a real
/// deadline has passed, which is reported as the deadline. Its metadata comes
/// whole.
pub proof fn law_failures_are_handed_on(
    event: StreamEvent,
    status: Status,
    deadline_usec: i64,
    now: i64,
)
    requires
        event == StreamEvent::Failed(status) || event == StreamEvent::Refused(status),
    ensures
        ({
            let output = driven(event, deadline_usec, now);
            &&& output.message == Some(MessageView::End)
            &&& output.next == DriverNext::Stop
            &&& output.undelivered == DriverNext::Stop
            &&& output.trailers matches Some(trailers) && {
                &&& !(status_code(status) == 1 && 0 < deadline_usec < i64::MAX && deadline_usec
                    <= now) ==> trailers.code == status_code(status) && trailers.message
                    == status_message(status)
                &&& status_code(status) == 1 && 0 < deadline_usec < i64::MAX && deadline_usec
                    <= now ==> trailers.code == 4 && trailers.message == "Deadline Exceeded"@
                &&& status_details(status).len() == 0 ==> trailers.items == status_items(status)
                &&& trailers.items.filter(|item: Item| item.0 != "grpc-status-details-bin"@)
                    == status_items(status).filter(
                    |item: Item| item.0 != "grpc-status-details-bin"@,
                )
            }
        }),
{
    law_details_are_added(status_items(status), status_details(status));
}

/// A stream that ends well has the code 0, no message, and the metadata that the
/// server sent behind it, whole; one that was cancelled says so.
pub proof fn law_ends_are_handed_on(
    metadata: Option<MetadataMap>,
    deadline_usec: i64,
    now: i64,
)
    ensures
        ({
            let output = driven(StreamEvent::Ended, deadline_usec, now);
            &&& output.message == Some(MessageView::End)
            &&& output.trailers is None
            &&& output.metadata is None
            &&& output.next == DriverNext::ReadTrailers
            &&& output.undelivered == DriverNext::ReadTrailers
        }),
        ({
            let output = driven(StreamEvent::Trailers(metadata), deadline_usec, now);
            &&& output.message is None
            &&& output.metadata is None
            &&& output.next == DriverNext::Stop
            &&& output.trailers matches Some(trailers) && {
                &&& trailers.code == 0
                &&& trailers.message.len() == 0
                &&& metadata matches Some(map) ==> trailers.items == metadata_items(map)
                &&& metadata is None ==> trailers.items.len() == 0
            }
        }),
        ({
            let output = driven(StreamEvent::Cancelled, deadline_usec, now);
            &&& output.message == Some(MessageView::End)
            &&& output.metadata is None
            &&& output.next == DriverNext::Stop
            &&& output.trailers matches Some(trailers) && trailers.code == 1 && trailers.message
                == "Call cancelled"@ && trailers.items.len() == 0
        }),
{
}

/// Only a status with too much metadata keeps an event from being driven.
pub proof fn law_events_that_can_be_driven(event: StreamEvent)
    ensures
        event matches StreamEvent::Refused(status) ==> (event_fits(event) <==> has_room(
            status_items(status),
        )),
        event matches StreamEvent::Failed(status) ==> (event_fits(event) <==> has_room(
            status_items(status),
        )),
        !(event is Refused) && !(event is Failed) ==> event_fits(event),
{
}

} // verus!

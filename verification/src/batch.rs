//! Batches of operations, and the results that PHP gets for them.

use crate::error::{
    exception, invalid_argument, invalid_argument_view, ExceptionClass, ExceptionView, GrpcError,
    PhpException,
};
use crate::metadata::{
    entries_view, metadata_to_php, parse_send_metadata, pairs, php_entries, strict_pairs, Entry,
    MetadataEntries,
};
use crate::request::Pair;
use crate::text::{
    decimal, joined, law_numbers_are_read_back, long_value, parse_long, utf8_text,
};
use crate::value::{
    entry_of, first_under, get, law_a_name_has_a_first_entry, law_lookup_finds_the_entry, spells,
    ArrayKey, PhpValue,
};
use crate::wire::{bytes_into_vec, bytes_of, metadata_items, Item};
use bytes::Bytes;
use tonic::metadata::MetadataMap;
use vstd::prelude::*;
use vstd::utf8::{decode_utf8, encode_utf8, valid_utf8};

verus! {

/// Sends the initial metadata.
pub const OP_SEND_INITIAL_METADATA: i64 = 0;

/// Sends a message.
pub const OP_SEND_MESSAGE: i64 = 1;

/// Tells the server that no message will follow.
pub const OP_SEND_CLOSE_FROM_CLIENT: i64 = 2;

/// Receives the initial metadata.
pub const OP_RECV_INITIAL_METADATA: i64 = 4;

/// Receives a message.
pub const OP_RECV_MESSAGE: i64 = 5;

/// Receives the status of the call.
pub const OP_RECV_STATUS_ON_CLIENT: i64 = 6;

// ---------------------------------------------------------------------------
// Operations
// ---------------------------------------------------------------------------

/// The operation that a key names.
pub open spec fn op_code(key: ArrayKey) -> Option<i64> {
    match key {
        ArrayKey::Long(n) => Some(n),
        ArrayKey::String(s) => long_value(encode_utf8(s@)),
        ArrayKey::ZendString(b) => if valid_utf8(b@) {
            long_value(encode_utf8(decode_utf8(b@)))
        } else {
            None
        },
    }
}

/// What is said of a key that names no operation.
pub open spec fn op_key_complaint(key: ArrayKey) -> Seq<char> {
    match key {
        ArrayKey::String(s) => "invalid op key: "@ + s@,
        _ => "invalid op key"@,
    }
}

/// The operation that a key names.
pub fn array_key_to_long(key: &ArrayKey) -> (r: Result<i64, GrpcError>)
    ensures
        match r {
            Ok(n) => op_code(*key) == Some(n),
            Err(e) => op_code(*key) is None && (e matches GrpcError::InvalidArg(why) && why@
                == op_key_complaint(*key)),
        },
{
    match key {
        ArrayKey::Long(n) => Ok(*n),
        ArrayKey::String(s) => match parse_long(s.as_str()) {
            Some(n) => Ok(n),
            None => Err(GrpcError::InvalidArg(joined("invalid op key: ", s.as_str()))),
        },
        ArrayKey::ZendString(b) => match utf8_text(b.as_slice()) {
            Some(text) => match parse_long(text.as_str()) {
                Some(n) => Ok(n),
                None => Err(GrpcError::InvalidArg("invalid op key".to_owned())),
            },
            None => Err(GrpcError::InvalidArg("invalid op key".to_owned())),
        },
    }
}

/// The operations of a batch.
pub struct BatchOps {
    pub send_metadata: Vec<(String, String)>,
    pub has_send_initial_metadata: bool,
    pub send_message: Option<Bytes>,
    pub send_close: bool,
    pub recv_initial_metadata: bool,
    pub recv_message: bool,
    pub recv_status: bool,
}

/// What a batch asks for.
pub struct BatchView {
    /// The metadata to send; nothing without the operation that sends it.
    pub send_metadata: Seq<Pair>,
    pub has_send_initial_metadata: bool,
    pub send_message: Option<Seq<u8>>,
    pub send_close: bool,
    pub recv_initial_metadata: bool,
    pub recv_message: bool,
    pub recv_status: bool,
}

/// The bytes of a message that may be there.
pub open spec fn message_view(message: Option<Bytes>) -> Option<Seq<u8>> {
    match message {
        Some(bytes) => Some(bytes_of(bytes)),
        None => None,
    }
}

impl View for BatchOps {
    type V = BatchView;

    open spec fn view(&self) -> BatchView {
        BatchView {
            send_metadata: pairs(self.send_metadata@),
            has_send_initial_metadata: self.has_send_initial_metadata,
            send_message: message_view(self.send_message),
            send_close: self.send_close,
            recv_initial_metadata: self.recv_initial_metadata,
            recv_message: self.recv_message,
            recv_status: self.recv_status,
        }
    }
}

impl BatchView {
    /// Whether the batch sends anything.
    pub open spec fn has_send_ops(self) -> bool {
        self.has_send_initial_metadata || self.send_message is Some || self.send_close
    }

    /// Whether the batch receives anything.
    pub open spec fn has_recv_ops(self) -> bool {
        self.recv_initial_metadata || self.recv_message || self.recv_status
    }
}

impl BatchOps {
    /// Whether the batch sends anything.
    pub fn has_send_ops(&self) -> (r: bool)
        ensures
            r == self@.has_send_ops(),
    {
        self.has_send_initial_metadata || self.send_message.is_some() || self.send_close
    }

    /// Whether the batch receives anything.
    pub fn has_recv_ops(&self) -> (r: bool)
        ensures
            r == self@.has_recv_ops(),
    {
        self.recv_initial_metadata || self.recv_message || self.recv_status
    }
}

/// A batch that asks for nothing.
pub open spec fn empty_batch() -> BatchView {
    BatchView {
        send_metadata: Seq::empty(),
        has_send_initial_metadata: false,
        send_message: None,
        send_close: false,
        recv_initial_metadata: false,
        recv_message: false,
        recv_status: false,
    }
}

/// The message of a send operation: `['message' => string, 'flags' => int]`,
/// where the flags may be missing.
pub open spec fn op_message(value: PhpValue) -> Result<Seq<u8>, ExceptionView> {
    match value.spec_array() {
        None => Err(invalid_argument_view("Expected an array for send message"@)),
        Some(entries) => if entry_of(entries, "flags"@) matches Some(flags) && flags.spec_long()
            is None {
            Err(invalid_argument_view("Expected an int for message flags"@))
        } else {
            match entry_of(entries, "message"@) {
                Some(message) => match message.spec_zend_str() {
                    Some(bytes) => Ok(bytes),
                    None => Err(invalid_argument_view("Expected a string for send message"@)),
                },
                None => Err(invalid_argument_view("Expected a string for send message"@)),
            }
        },
    }
}

/// The metadata of a send operation.
pub open spec fn op_metadata(value: PhpValue) -> Result<Seq<Pair>, ExceptionView> {
    match value.spec_array() {
        Some(entries) => match strict_pairs(entries) {
            Some(list) => Ok(list),
            None => Err(invalid_argument_view("Bad metadata value given"@)),
        },
        None => Err(invalid_argument_view("Bad metadata value given"@)),
    }
}

/// A batch with one operation more.
pub open spec fn batch_after(before: BatchView, key: ArrayKey, value: PhpValue) -> Result<
    BatchView,
    ExceptionView,
> {
    match op_code(key) {
        None => Err(
            exception(
                ExceptionClass::Exception,
                "invalid argument: "@ + op_key_complaint(key),
                0,
            ),
        ),
        Some(code) => if code == OP_SEND_INITIAL_METADATA {
            match op_metadata(value) {
                Ok(list) => Ok(
                    BatchView {
                        send_metadata: list,
                        has_send_initial_metadata: true,
                        ..before
                    },
                ),
                Err(e) => Err(e),
            }
        } else if code == OP_SEND_MESSAGE {
            match op_message(value) {
                Ok(bytes) => Ok(BatchView { send_message: Some(bytes), ..before }),
                Err(e) => Err(e),
            }
        } else if code == OP_SEND_CLOSE_FROM_CLIENT {
            Ok(BatchView { send_close: true, ..before })
        } else if code == OP_RECV_INITIAL_METADATA {
            Ok(BatchView { recv_initial_metadata: true, ..before })
        } else if code == OP_RECV_MESSAGE {
            Ok(BatchView { recv_message: true, ..before })
        } else if code == OP_RECV_STATUS_ON_CLIENT {
            Ok(BatchView { recv_status: true, ..before })
        } else {
            Err(invalid_argument_view("Unrecognized key in batch"@))
        },
    }
}

/// The batch that a PHP array asks for, or the first thing wrong with it.
pub open spec fn batch_of(ops: Seq<(ArrayKey, PhpValue)>) -> Result<BatchView, ExceptionView>
    decreases ops.len(),
{
    if ops.len() == 0 {
        Ok(empty_batch())
    } else {
        match batch_of(ops.drop_last()) {
            Ok(before) => batch_after(before, ops.last().0, ops.last().1),
            Err(e) => Err(e),
        }
    }
}

/// Reads the metadata of a send operation.
fn read_metadata(value: &PhpValue) -> (r: Result<Vec<(String, String)>, PhpException>)
    ensures
        match r {
            Ok(list) => op_metadata(*value) == Ok::<Seq<Pair>, ExceptionView>(pairs(list@)),
            Err(e) => op_metadata(*value) == Err::<Seq<Pair>, ExceptionView>(e@),
        },
{
    match value.array() {
        Some(entries) => parse_send_metadata(entries),
        None => Err(invalid_argument("Bad metadata value given")),
    }
}

/// Reads the message of a send operation.
fn read_message(value: &PhpValue) -> (r: Result<Bytes, PhpException>)
    ensures
        match r {
            Ok(bytes) => op_message(*value) == Ok::<Seq<u8>, ExceptionView>(bytes_of(bytes)),
            Err(e) => op_message(*value) == Err::<Seq<u8>, ExceptionView>(e@),
        },
{
    let entries = match value.array() {
        Some(entries) => entries,
        None => {
            return Err(invalid_argument("Expected an array for send message"));
        },
    };
    match get(entries, "flags") {
        Some(flags) => if flags.long().is_none() {
            return Err(invalid_argument("Expected an int for message flags"));
        },
        None => {},
    }
    match get(entries, "message") {
        Some(message) => match message.zend_str() {
            Some(bytes) => Ok(Bytes::copy_from_slice(bytes.as_slice())),
            None => Err(invalid_argument("Expected a string for send message")),
        },
        None => Err(invalid_argument("Expected a string for send message")),
    }
}

/// Adds one operation to a batch.
fn add_op(batch: BatchOps, key: &ArrayKey, value: &PhpValue) -> (r: Result<BatchOps, PhpException>)
    ensures
        match r {
            Ok(after) => batch_after(batch@, *key, *value) == Ok::<BatchView, ExceptionView>(
                after@,
            ),
            Err(e) => batch_after(batch@, *key, *value) == Err::<BatchView, ExceptionView>(e@),
        },
{
    let mut batch = batch;
    let code: i64 = match array_key_to_long(key) {
        Ok(code) => code,
        Err(error) => {
            return Err(error.into_exception());
        },
    };
    if code == OP_SEND_INITIAL_METADATA {
        match read_metadata(value) {
            Ok(list) => {
                batch.has_send_initial_metadata = true;
                batch.send_metadata = list;
            },
            Err(e) => {
                return Err(e);
            },
        }
    } else if code == OP_SEND_MESSAGE {
        match read_message(value) {
            Ok(bytes) => {
                batch.send_message = Some(bytes);
            },
            Err(e) => {
                return Err(e);
            },
        }
    } else if code == OP_SEND_CLOSE_FROM_CLIENT {
        batch.send_close = true;
    } else if code == OP_RECV_INITIAL_METADATA {
        batch.recv_initial_metadata = true;
    } else if code == OP_RECV_MESSAGE {
        batch.recv_message = true;
    } else if code == OP_RECV_STATUS_ON_CLIENT {
        batch.recv_status = true;
    } else {
        return Err(invalid_argument("Unrecognized key in batch"));
    }
    Ok(batch)
}

proof fn lemma_batch_fault(ops: Seq<(ArrayKey, PhpValue)>, n: int)
    requires
        0 <= n <= ops.len(),
        batch_of(ops.take(n)) is Err,
    ensures
        batch_of(ops) == batch_of(ops.take(n)),
    decreases ops.len() - n,
{
    if n == ops.len() {
        assert(ops.take(n) =~= ops);
    } else {
        assert(ops.take(n + 1).drop_last() =~= ops.take(n));
        lemma_batch_fault(ops, n + 1);
    }
}

/// Reads a batch of operations.
pub fn parse_ops(ops: &Vec<(ArrayKey, PhpValue)>) -> (r: Result<BatchOps, PhpException>)
    ensures
        match r {
            Ok(batch) => batch_of(ops@) == Ok::<BatchView, ExceptionView>(batch@),
            Err(e) => batch_of(ops@) == Err::<BatchView, ExceptionView>(e@),
        },
{
    let mut batch = BatchOps {
        send_metadata: Vec::new(),
        has_send_initial_metadata: false,
        send_message: None,
        send_close: false,
        recv_initial_metadata: false,
        recv_message: false,
        recv_status: false,
    };
    let mut i: usize = 0;
    proof {
        assert(ops@.take(0) =~= Seq::empty());
        assert(pairs(batch.send_metadata@) =~= Seq::<Pair>::empty());
    }
    while i < ops.len()
        invariant
            i <= ops.len(),
            batch_of(ops@.take(i as int)) == Ok::<BatchView, ExceptionView>(batch@),
        decreases ops.len() - i,
    {
        proof {
            assert(ops@.take(i + 1).drop_last() =~= ops@.take(i as int));
            assert(ops@.take(i + 1).last() == ops@[i as int]);
        }
        match add_op(batch, &ops[i].0, &ops[i].1) {
            Ok(after) => {
                batch = after;
            },
            Err(e) => {
                proof {
                    lemma_batch_fault(ops@, i + 1);
                }
                return Err(e);
            },
        }
        i = i + 1;
    }
    assert(ops@.take(i as int) =~= ops@);
    Ok(batch)
}

// ---------------------------------------------------------------------------
// Results
// ---------------------------------------------------------------------------

/// A property of the object that PHP gets for a batch.
pub enum ResultProperty {
    /// `metadata`: the initial metadata.
    Metadata(MetadataEntries),
    /// `message`: a message, or null at the end of the stream.
    Message(Option<Vec<u8>>),
    /// `status`: an object with `metadata`, `code` and `details`, in this
    /// order.
    Status { metadata: MetadataEntries, code: i64, details: String },
    /// `send_metadata`: true.
    SendMetadata,
    /// `send_message`: true.
    SendMessage,
    /// `send_close`: true.
    SendClose,
}

/// What a property holds.
pub enum PropertyView {
    Metadata(Seq<Entry>),
    Message(Option<Seq<u8>>),
    Status { metadata: Seq<Entry>, code: int, details: Seq<char> },
    SendMetadata,
    SendMessage,
    SendClose,
}

impl View for ResultProperty {
    type V = PropertyView;

    open spec fn view(&self) -> PropertyView {
        match self {
            ResultProperty::Metadata(entries) => PropertyView::Metadata(entries_view(entries@)),
            ResultProperty::Message(message) => PropertyView::Message(
                match message {
                    Some(bytes) => Some(bytes@),
                    None => None,
                },
            ),
            ResultProperty::Status { metadata, code, details } => PropertyView::Status {
                metadata: entries_view(metadata@),
                code: *code as int,
                details: details@,
            },
            ResultProperty::SendMetadata => PropertyView::SendMetadata,
            ResultProperty::SendMessage => PropertyView::SendMessage,
            ResultProperty::SendClose => PropertyView::SendClose,
        }
    }
}

/// The views of a list of properties.
pub open spec fn properties(list: Seq<ResultProperty>) -> Seq<PropertyView> {
    list.map_values(|property: ResultProperty| property@)
}

/// The name of a property.
pub open spec fn property_name(property: PropertyView) -> Seq<char> {
    match property {
        PropertyView::Metadata(_) => "metadata"@,
        PropertyView::Message(_) => "message"@,
        PropertyView::Status { .. } => "status"@,
        PropertyView::SendMetadata => "send_metadata"@,
        PropertyView::SendMessage => "send_message"@,
        PropertyView::SendClose => "send_close"@,
    }
}

impl ResultProperty {
    /// The name of the property.
    pub fn name(&self) -> (r: &'static str)
        ensures
            r@ == property_name(self@),
    {
        match self {
            ResultProperty::Metadata(_) => "metadata",
            ResultProperty::Message(_) => "message",
            ResultProperty::Status { .. } => "status",
            ResultProperty::SendMetadata => "send_metadata",
            ResultProperty::SendMessage => "send_message",
            ResultProperty::SendClose => "send_close",
        }
    }
}

/// Which results a batch waits for.
#[derive(Debug, Clone, Copy, PartialEq, Eq, Structural)]
pub struct ReadFlags {
    pub initial_metadata: bool,
    pub message: bool,
    pub status: bool,
}

/// Which sends a batch made.
#[derive(Debug, Clone, Copy, PartialEq, Eq, Structural)]
pub struct Acks {
    pub metadata: bool,
    pub message: bool,
    pub close: bool,
}

/// A list of one thing or of none.
pub open spec fn only_if<A>(wanted: bool, a: A) -> Seq<A> {
    if wanted {
        seq![a]
    } else {
        Seq::empty()
    }
}

/// The properties that acknowledge sends.
pub open spec fn ack_properties(acks: Acks) -> Seq<PropertyView> {
    only_if(acks.metadata, PropertyView::SendMetadata) + only_if(
        acks.message,
        PropertyView::SendMessage,
    ) + only_if(acks.close, PropertyView::SendClose)
}

/// Adds a property to a result.
pub(crate) fn add_property(list: &mut Vec<ResultProperty>, wanted: bool, property: ResultProperty)
    ensures
        properties(final(list)@) == properties(old(list)@) + only_if(wanted, property@),
{
    let ghost before = list@;
    if wanted {
        list.push(property);
        assert(properties(list@) =~= properties(before) + seq![property@]);
    } else {
        assert(properties(before) + Seq::<PropertyView>::empty() =~= properties(before));
    }
}

/// Adds the properties that acknowledge sends to a result.
pub(crate) fn add_acks(list: Vec<ResultProperty>, acks: Acks) -> (r: Vec<ResultProperty>)
    ensures
        properties(r@) == properties(list@) + ack_properties(acks),
{
    let mut list = list;
    let ghost before = properties(list@);
    add_property(&mut list, acks.metadata, ResultProperty::SendMetadata);
    add_property(&mut list, acks.message, ResultProperty::SendMessage);
    add_property(&mut list, acks.close, ResultProperty::SendClose);
    assert(properties(list@) =~= before + ack_properties(acks));
    list
}

/// The outcome of a unary call.
pub struct CallResult {
    pub initial_metadata: Option<MetadataMap>,
    pub body: Option<Bytes>,
    pub trailing_metadata: Option<MetadataMap>,
    pub code: i32,
    pub message: String,
}

/// The items of metadata that may be there.
pub open spec fn items_of(map: Option<MetadataMap>) -> Seq<Item> {
    match map {
        Some(m) => metadata_items(m),
        None => Seq::empty(),
    }
}

/// What the outcome of a unary call holds.
pub struct CallResultView {
    pub initial_items: Seq<Item>,
    pub body: Option<Seq<u8>>,
    pub trailing_items: Seq<Item>,
    pub code: int,
    pub message: Seq<char>,
}

impl View for CallResult {
    type V = CallResultView;

    open spec fn view(&self) -> CallResultView {
        CallResultView {
            initial_items: items_of(self.initial_metadata),
            body: message_view(self.body),
            trailing_items: items_of(self.trailing_metadata),
            code: self.code as int,
            message: self.message@,
        }
    }
}

/// The properties that PHP gets for a unary call, in the order metadata,
/// message, status.
pub open spec fn unary_properties(flags: ReadFlags, result: CallResultView) -> Seq<PropertyView> {
    only_if(
        flags.initial_metadata,
        PropertyView::Metadata(php_entries(result.initial_items)),
    ) + only_if(flags.message, PropertyView::Message(result.body)) + only_if(
        flags.status,
        PropertyView::Status {
            metadata: php_entries(result.trailing_items),
            code: result.code,
            details: result.message,
        },
    )
}

/// The entries of metadata that may be there.
pub(crate) fn entries_of(map: &Option<MetadataMap>) -> (r: MetadataEntries)
    ensures
        entries_view(r@) == php_entries(items_of(*map)),
{
    match map {
        Some(m) => metadata_to_php(m),
        None => {
            let m = MetadataMap::new();
            metadata_to_php(&m)
        },
    }
}

/// The bytes of a message that may be there.
pub(crate) fn message_bytes(message: Option<Bytes>) -> (r: Option<Vec<u8>>)
    ensures
        r is Some <==> message is Some,
        r matches Some(bytes) ==> message_view(message) == Some(bytes@),
{
    match message {
        Some(bytes) => Some(bytes_into_vec(bytes)),
        None => None,
    }
}

/// The result of a unary call.
pub fn build_unary_result(flags: ReadFlags, result: CallResult) -> (r: Vec<ResultProperty>)
    ensures
        properties(r@) == unary_properties(flags, result@),
{
    let mut list: Vec<ResultProperty> = Vec::new();
    let ghost view = result@;
    assert(properties(list@) =~= Seq::<PropertyView>::empty());
    let initial = entries_of(&result.initial_metadata);
    add_property(&mut list, flags.initial_metadata, ResultProperty::Metadata(initial));
    let body = message_bytes(result.body);
    add_property(&mut list, flags.message, ResultProperty::Message(body));
    let trailing = entries_of(&result.trailing_metadata);
    add_property(
        &mut list,
        flags.status,
        ResultProperty::Status {
            metadata: trailing,
            code: result.code as i64,
            details: result.message,
        },
    );
    assert(properties(list@) =~= unary_properties(flags, view));
    list
}

// ---------------------------------------------------------------------------
// Laws
// ---------------------------------------------------------------------------

/// A batch is seen as it is held: the metadata pair by pair, the message with
/// all of its bytes, and each of the flags.
pub proof fn law_batches_are_seen_whole(batch: BatchOps, i: int)
    ensures
        batch@.send_metadata.len() == batch.send_metadata@.len(),
        0 <= i < batch.send_metadata@.len() ==> batch@.send_metadata[i] == (
            batch.send_metadata@[i].0@,
            batch.send_metadata@[i].1@,
        ),
        batch@.has_send_initial_metadata == batch.has_send_initial_metadata,
        batch.send_message matches Some(bytes) ==> batch@.send_message == Some(bytes_of(bytes)),
        batch.send_message is None ==> batch@.send_message is None,
        batch@.send_close == batch.send_close,
        batch@.recv_initial_metadata == batch.recv_initial_metadata,
        batch@.recv_message == batch.recv_message,
        batch@.recv_status == batch.recv_status,
        batch@.has_send_ops() <==> batch.has_send_initial_metadata || batch.send_message is Some
            || batch.send_close,
        batch@.has_recv_ops() <==> batch.recv_initial_metadata || batch.recv_message
            || batch.recv_status,
{
}

/// A result is seen as it is held: each property by its name, the message with
/// all of its bytes, the status with its code and all of its details.
pub proof fn law_results_are_seen_whole(list: Seq<ResultProperty>, i: int)
    requires
        0 <= i < list.len(),
    ensures
        properties(list).len() == list.len(),
        list[i] matches ResultProperty::Metadata(entries) ==> properties(list)[i]
            == PropertyView::Metadata(entries_view(entries@)) && property_name(
            properties(list)[i],
        ) == "metadata"@,
        list[i] matches ResultProperty::Message(Some(bytes)) ==> properties(list)[i]
            == PropertyView::Message(Some(bytes@)) && property_name(properties(list)[i])
            == "message"@,
        list[i] matches ResultProperty::Message(None) ==> properties(list)[i]
            == PropertyView::Message(None) && property_name(properties(list)[i]) == "message"@,
        list[i] matches ResultProperty::Status { metadata, code, details } ==> properties(list)[i]
            == (PropertyView::Status {
            metadata: entries_view(metadata@),
            code: code as int,
            details: details@,
        }) && property_name(properties(list)[i]) == "status"@,
        list[i] is SendMetadata ==> properties(list)[i] is SendMetadata && property_name(
            properties(list)[i],
        ) == "send_metadata"@,
        list[i] is SendMessage ==> properties(list)[i] is SendMessage && property_name(
            properties(list)[i],
        ) == "send_message"@,
        list[i] is SendClose ==> properties(list)[i] is SendClose && property_name(
            properties(list)[i],
        ) == "send_close"@,
{
}

/// The outcome of a unary call is seen as it is held: the metadata of both
/// maps, the body with all of its bytes, the code and all of the message.
pub proof fn law_call_results_are_seen_whole(result: CallResult)
    ensures
        result.initial_metadata matches Some(map) ==> result@.initial_items == metadata_items(map),
        result.initial_metadata is None ==> result@.initial_items.len() == 0,
        result.trailing_metadata matches Some(map) ==> result@.trailing_items == metadata_items(
            map,
        ),
        result.trailing_metadata is None ==> result@.trailing_items.len() == 0,
        result.body matches Some(bytes) ==> result@.body == Some(bytes_of(bytes)),
        result.body is None ==> result@.body is None,
        result@.code == result.code,
        result@.message == result.message@,
{
}

/// An integer key names the operation with that number, and so does a string
/// key that spells it.
pub proof fn law_op_keys_name_their_number(key: ArrayKey, n: i64)
    ensures
        op_code(ArrayKey::Long(n)) == Some(n),
        spells(key, decimal(n as int)) ==> op_code(key) == Some(n),
        key matches ArrayKey::String(s) ==> op_code(key) == long_value(encode_utf8(s@)),
        key matches ArrayKey::ZendString(spelt) ==> valid_utf8(spelt@) ==> op_code(key)
            == long_value(spelt@),
        key matches ArrayKey::ZendString(spelt) ==> !valid_utf8(spelt@) ==> op_code(key) is None,
{
    law_numbers_are_read_back(n);
    vstd::utf8::encode_utf8_valid_utf8(decimal(n as int));
    if let ArrayKey::ZendString(bytes) = key {
        if valid_utf8(bytes@) {
            vstd::utf8::decode_utf8_encode_utf8(bytes@);
        }
    }
}

/// Whether the value of a send operation is an array that holds, under
/// `message`, a string of these bytes, with flags that are missing or an
/// integer.
pub open spec fn holds_message(value: PhpValue, bytes: Seq<u8>) -> bool {
    value matches PhpValue::Array(entries) && {
        &&& exists|i: int|
            #[trigger] first_under(entries@, "message"@, i) && (
            entries@[i].1 matches PhpValue::Str(message) && message@ == bytes)
        &&& forall|i: int|
            #[trigger] first_under(entries@, "flags"@, i) ==> entries@[i].1 is Long
    }
}

/// The message of a send operation is the string under `message` byte for byte,
/// whatever its length and whatever else the array holds. What is wrong with a
/// value that has none is told: that it is no array, that its flags are no
/// integer, or that it has no string under `message`.
pub proof fn law_messages_are_read_whole(value: PhpValue, bytes: Seq<u8>, i: int)
    ensures
        holds_message(value, bytes) <==> op_message(value) == Ok::<Seq<u8>, ExceptionView>(bytes),
        !(value is Array) ==> op_message(value) == Err::<Seq<u8>, ExceptionView>(
            ExceptionView {
                class: ExceptionClass::InvalidArgumentException,
                message: "Expected an array for send message"@,
                code: 1,
            },
        ),
        value matches PhpValue::Array(entries) ==> first_under(entries@, "flags"@, i) && !(
        entries@[i].1 is Long) ==> op_message(value) == Err::<Seq<u8>, ExceptionView>(
            ExceptionView {
                class: ExceptionClass::InvalidArgumentException,
                message: "Expected an int for message flags"@,
                code: 1,
            },
        ),
        value matches PhpValue::Array(entries) ==> (forall|k: int|
            #[trigger] first_under(entries@, "flags"@, k) ==> entries@[k].1 is Long) && (forall|
            k: int,
        |
            #[trigger] first_under(entries@, "message"@, k) ==> !(entries@[k].1 is Str))
            ==> op_message(value) == Err::<Seq<u8>, ExceptionView>(
            ExceptionView {
                class: ExceptionClass::InvalidArgumentException,
                message: "Expected a string for send message"@,
                code: 1,
            },
        ),
{
    if let PhpValue::Array(entries) = value {
        let flags = lemma_first_entry(entries@, "flags"@);
        let message = lemma_first_entry(entries@, "message"@);
        assert forall|k: int| #[trigger] first_under(entries@, "flags"@, k) implies k == flags by {
            lemma_one_first(entries@, "flags"@, k, flags);
        }
        assert forall|k: int| #[trigger]
            first_under(entries@, "message"@, k) implies k == message by {
            lemma_one_first(entries@, "message"@, k, message);
        }
    }
}

proof fn lemma_one_first(entries: Seq<(ArrayKey, PhpValue)>, name: Seq<char>, i: int, j: int)
    requires
        first_under(entries, name, i),
        j < 0 ==> forall|k: int| 0 <= k < entries.len() ==> !spells((#[trigger] entries[k]).0, name),
        j >= 0 ==> first_under(entries, name, j),
    ensures
        i == j,
{
    if j < i && j >= 0 {
        assert(spells(entries[j].0, name));
    }
    if i < j {
        assert(spells(entries[i].0, name));
    }
}

proof fn lemma_first_entry(entries: Seq<(ArrayKey, PhpValue)>, name: Seq<char>) -> (first: int)
    ensures
        first >= 0 ==> first_under(entries, name, first) && entry_of(entries, name) == Some(
            entries[first].1,
        ),
        first < 0 ==> entry_of(entries, name) is None && forall|k: int|
            0 <= k < entries.len() ==> !spells((#[trigger] entries[k]).0, name),
{
    if exists|k: int| 0 <= k < entries.len() && spells((#[trigger] entries[k]).0, name) {
        let k = choose|k: int| 0 <= k < entries.len() && spells((#[trigger] entries[k]).0, name);
        let first = law_a_name_has_a_first_entry(entries, name, k);
        law_lookup_finds_the_entry(entries, name, first);
        first
    } else {
        law_lookup_finds_the_entry(entries, name, 0);
        -1
    }
}

/// Whether an entry is an operation that a batch can hold: one of the six, with
/// metadata or a message of the right shape where it sends one.
pub open spec fn is_operation(op: (ArrayKey, PhpValue)) -> bool {
    match op_code(op.0) {
        Some(code) => if code == 0 {
            op.1 matches PhpValue::Array(entries) && strict_pairs(entries@) is Some
        } else if code == 1 {
            exists|bytes: Seq<u8>| holds_message(op.1, bytes)
        } else {
            code == 2 || code == 4 || code == 5 || code == 6
        },
        None => false,
    }
}

/// Whether a batch has the operation with a number.
pub open spec fn has_op(ops: Seq<(ArrayKey, PhpValue)>, code: i64) -> bool {
    exists|i: int| 0 <= i < ops.len() && op_code((#[trigger] ops[i]).0) == Some(code)
}

/// Whether an operation of a batch is the last with its number. In a PHP array
/// it is mostly the only one.
pub open spec fn last_op(ops: Seq<(ArrayKey, PhpValue)>, code: i64, i: int) -> bool {
    &&& 0 <= i < ops.len()
    &&& op_code(ops[i].0) == Some(code)
    &&& forall|j: int| i < j < ops.len() ==> op_code((#[trigger] ops[j]).0) != Some(code)
}

/// Whether a batch asks for exactly what its operations ask for.
pub open spec fn asks_for(ops: Seq<(ArrayKey, PhpValue)>, batch: BatchView) -> bool {
    &&& batch.has_send_initial_metadata == has_op(ops, 0)
    &&& batch.send_message is Some <==> has_op(ops, 1)
    &&& batch.send_close == has_op(ops, 2)
    &&& batch.recv_initial_metadata == has_op(ops, 4)
    &&& batch.recv_message == has_op(ops, 5)
    &&& batch.recv_status == has_op(ops, 6)
    &&& !has_op(ops, 0) ==> batch.send_metadata.len() == 0
    &&& forall|i: int| #[trigger]
        last_op(ops, 0, i) ==> (ops[i].1 matches PhpValue::Array(entries) && strict_pairs(
            entries@,
        ) == Some(batch.send_metadata))
    &&& forall|i: int| #[trigger]
        last_op(ops, 1, i) ==> (batch.send_message matches Some(bytes) && holds_message(
            ops[i].1,
            bytes,
        ))
}

proof fn lemma_has_op(ops: Seq<(ArrayKey, PhpValue)>, code: i64, i: int)
    requires
        ops.len() > 0,
    ensures
        has_op(ops, code) <==> has_op(ops.drop_last(), code) || op_code(ops.last().0) == Some(code),
        op_code(ops.last().0) == Some(code) && last_op(ops, code, i) ==> i == ops.len() - 1,
        op_code(ops.last().0) != Some(code) && last_op(ops, code, i) ==> last_op(
            ops.drop_last(),
            code,
            i,
        ) && ops[i] == ops.drop_last()[i],
{
    let before = ops.drop_last();
    if has_op(before, code) {
        let j = choose|j: int| 0 <= j < before.len() && op_code((#[trigger] before[j]).0) == Some(
            code,
        );
        assert(ops[j] == before[j]);
    }
    if has_op(ops, code) && op_code(ops.last().0) != Some(code) {
        let j = choose|j: int| 0 <= j < ops.len() && op_code((#[trigger] ops[j]).0) == Some(code);
        assert(ops[j] == before[j]);
    }
    if op_code(ops.last().0) == Some(code) {
        assert(op_code(ops[ops.len() - 1].0) == Some(code));
    } else if last_op(ops, code, i) {
        assert(ops[i] == before[i]);
        assert forall|j: int| i < j < before.len() implies op_code((#[trigger] before[j]).0)
            != Some(code) by {
            assert(ops[j] == before[j]);
        }
    }
}

proof fn lemma_op_value(op: (ArrayKey, PhpValue), before: BatchView)
    ensures
        is_operation(op) <==> batch_after(before, op.0, op.1) is Ok,
        op_code(op.0) == Some(1i64) ==> (batch_after(before, op.0, op.1) matches Ok(after)
            ==> after.send_message is Some && holds_message(op.1, after.send_message->0)),
        op_code(op.0) == Some(0i64) ==> (batch_after(before, op.0, op.1) matches Ok(after) ==> (
        op.1 matches PhpValue::Array(entries) && strict_pairs(entries@) == Some(
            after.send_metadata,
        ))),
{
    assert forall|bytes: Seq<u8>| holds_message(op.1, bytes) implies op_message(op.1) is Ok by {
        law_messages_are_read_whole(op.1, bytes, 0);
    }
    match op_message(op.1) {
        Ok(bytes) => law_messages_are_read_whole(op.1, bytes, 0),
        Err(_) => {},
    }
}

/// A batch holds exactly what PHP asked for, whatever the number and the order
/// of the operations: every flag is set when the operation with its number is
/// there and only then, the message is that of the send operation byte for byte,
/// and the metadata is that of its operation. A batch is taken when each of its
/// entries is an operation, and only then.
pub proof fn law_batches_hold_what_was_asked(ops: Seq<(ArrayKey, PhpValue)>)
    ensures
        batch_of(ops) is Ok <==> forall|i: int|
            0 <= i < ops.len() ==> is_operation(#[trigger] ops[i]),
        batch_of(ops) matches Ok(batch) ==> asks_for(ops, batch),
    decreases ops.len(),
{
    if ops.len() > 0 {
        let before = ops.drop_last();
        let last = ops.last();
        law_batches_hold_what_was_asked(before);
        match batch_of(before) {
            Ok(batch) => {
                lemma_op_value(last, batch);
                if batch_of(ops) is Ok {
                    assert forall|i: int| 0 <= i < ops.len() implies is_operation(
                        #[trigger] ops[i],
                    ) by {
                        if i < before.len() {
                            assert(ops[i] == before[i]);
                        }
                    }
                    assert forall|code: i64| #[trigger]
                        has_op(ops, code) == (has_op(before, code) || op_code(last.0) == Some(
                            code,
                        )) by {
                        lemma_has_op(ops, code, 0);
                    }
                    assert forall|i: int| #[trigger] last_op(ops, 0, i) implies (
                    ops[i].1 matches PhpValue::Array(entries) && strict_pairs(entries@) == Some(
                        batch_of(ops)->Ok_0.send_metadata,
                    )) by {
                        lemma_has_op(ops, 0, i);
                    }
                    assert forall|i: int| #[trigger] last_op(ops, 1, i) implies (
                    batch_of(ops)->Ok_0.send_message matches Some(bytes) && holds_message(
                        ops[i].1,
                        bytes,
                    )) by {
                        lemma_has_op(ops, 1, i);
                    }
                } else {
                    assert(ops[ops.len() - 1] == last);
                }
            },
            Err(_) => {
                let i = choose|i: int| 0 <= i < before.len() && !is_operation(#[trigger] before[i]);
                assert(ops[i] == before[i]);
            },
        }
    }
}

/// The message of a batch is the string that PHP put under `message`, byte for
/// byte and whatever its length, in the value of the operation that sends it.
pub proof fn law_sent_message_is_the_given_one(
    ops: Seq<(ArrayKey, PhpValue)>,
    batch: BatchView,
    i: int,
    entries: Vec<(ArrayKey, PhpValue)>,
    j: int,
    message: Vec<u8>,
)
    requires
        batch_of(ops) == Ok::<BatchView, ExceptionView>(batch),
        last_op(ops, 1, i),
        ops[i].1 == PhpValue::Array(entries),
        first_under(entries@, "message"@, j),
        entries@[j].1 == PhpValue::Str(message),
    ensures
        batch.send_message == Some(message@),
{
    law_batches_hold_what_was_asked(ops);
    let bytes = batch.send_message->0;
    let k = choose|k: int| #[trigger]
        first_under(entries@, "message"@, k) && (entries@[k].1 matches PhpValue::Str(found)
            && found@ == bytes);
    lemma_one_first(entries@, "message"@, k, j);
}

/// The first entry that is no operation decides what PHP is told.
pub proof fn law_first_fault_of_a_batch(ops: Seq<(ArrayKey, PhpValue)>, i: int)
    requires
        0 <= i < ops.len(),
        !is_operation(ops[i]),
        forall|j: int| 0 <= j < i ==> is_operation(#[trigger] ops[j]),
    ensures
        op_code(ops[i].0) is None ==> (ops[i].0 matches ArrayKey::String(s) ==> batch_of(ops)
            == Err::<BatchView, ExceptionView>(
            ExceptionView {
                class: ExceptionClass::Exception,
                message: "invalid argument: "@ + ("invalid op key: "@ + s@),
                code: 0,
            },
        )),
        op_code(ops[i].0) is None && !(ops[i].0 is String) ==> batch_of(ops) == Err::<
            BatchView,
            ExceptionView,
        >(
            ExceptionView {
                class: ExceptionClass::Exception,
                message: "invalid argument: "@ + "invalid op key"@,
                code: 0,
            },
        ),
        op_code(ops[i].0) == Some(0i64) ==> batch_of(ops) == Err::<BatchView, ExceptionView>(
            ExceptionView {
                class: ExceptionClass::InvalidArgumentException,
                message: "Bad metadata value given"@,
                code: 1,
            },
        ),
        op_code(ops[i].0) == Some(1i64) ==> (batch_of(ops) matches Err(e) && op_message(ops[i].1)
            == Err::<Seq<u8>, ExceptionView>(e)),
        op_code(ops[i].0) matches Some(code) ==> code != 0 && code != 1 ==> batch_of(ops) == Err::<
            BatchView,
            ExceptionView,
        >(
            ExceptionView {
                class: ExceptionClass::InvalidArgumentException,
                message: "Unrecognized key in batch"@,
                code: 1,
            },
        ),
{
    let before = ops.take(i);
    assert forall|j: int| 0 <= j < before.len() implies is_operation(#[trigger] before[j]) by {
        assert(before[j] == ops[j]);
    }
    law_batches_hold_what_was_asked(before);
    let upto = ops.take(i + 1);
    assert(upto.drop_last() =~= before);
    assert(upto.last() == ops[i]);
    lemma_op_value(ops[i], batch_of(before)->Ok_0);
    lemma_batch_fault(ops, i + 1);
}

/// The result of a unary call holds, in this order, the metadata, the message
/// and the status, each of them exactly when the batch waits for it: the message
/// with all of its bytes, the status with its code and all of its details.
pub proof fn law_unary_properties(flags: ReadFlags, result: CallResultView)
    ensures
        ({
            let list = unary_properties(flags, result);
            let metadata = PropertyView::Metadata(php_entries(result.initial_items));
            let message = PropertyView::Message(result.body);
            let status = PropertyView::Status {
                metadata: php_entries(result.trailing_items),
                code: result.code,
                details: result.message,
            };
            match (flags.initial_metadata, flags.message, flags.status) {
                (true, true, true) => list == seq![metadata, message, status],
                (true, true, false) => list == seq![metadata, message],
                (true, false, true) => list == seq![metadata, status],
                (true, false, false) => list == seq![metadata],
                (false, true, true) => list == seq![message, status],
                (false, true, false) => list == seq![message],
                (false, false, true) => list == seq![status],
                (false, false, false) => list.len() == 0,
            }
        }),
{
    let list = unary_properties(flags, result);
    let metadata = PropertyView::Metadata(php_entries(result.initial_items));
    let message = PropertyView::Message(result.body);
    let status = PropertyView::Status {
        metadata: php_entries(result.trailing_items),
        code: result.code,
        details: result.message,
    };
    match (flags.initial_metadata, flags.message, flags.status) {
        (true, true, true) => assert(list =~= seq![metadata, message, status]),
        (true, true, false) => assert(list =~= seq![metadata, message]),
        (true, false, true) => assert(list =~= seq![metadata, status]),
        (true, false, false) => assert(list =~= seq![metadata]),
        (false, true, true) => assert(list =~= seq![message, status]),
        (false, true, false) => assert(list =~= seq![message]),
        (false, false, true) => assert(list =~= seq![status]),
        (false, false, false) => {},
    }
}

/// The sends of a batch are acknowledged in the order metadata, message, close,
/// each of them exactly when it was made.
pub proof fn law_acknowledgements(acks: Acks)
    ensures
        ({
            let list = ack_properties(acks);
            let metadata = PropertyView::SendMetadata;
            let message = PropertyView::SendMessage;
            let close = PropertyView::SendClose;
            match (acks.metadata, acks.message, acks.close) {
                (true, true, true) => list == seq![metadata, message, close],
                (true, true, false) => list == seq![metadata, message],
                (true, false, true) => list == seq![metadata, close],
                (true, false, false) => list == seq![metadata],
                (false, true, true) => list == seq![message, close],
                (false, true, false) => list == seq![message],
                (false, false, true) => list == seq![close],
                (false, false, false) => list.len() == 0,
            }
        }),
{
    let list = ack_properties(acks);
    let metadata = PropertyView::SendMetadata;
    let message = PropertyView::SendMessage;
    let close = PropertyView::SendClose;
    match (acks.metadata, acks.message, acks.close) {
        (true, true, true) => assert(list =~= seq![metadata, message, close]),
        (true, true, false) => assert(list =~= seq![metadata, message]),
        (true, false, true) => assert(list =~= seq![metadata, close]),
        (true, false, false) => assert(list =~= seq![metadata]),
        (false, true, true) => assert(list =~= seq![message, close]),
        (false, true, false) => assert(list =~= seq![message]),
        (false, false, true) => assert(list =~= seq![close]),
        (false, false, false) => {},
    }
}

} // verus!

//! What the library takes from `bytes`, `http` and `tonic`: message bytes,
//! metadata, statuses and requests.

use crate::text::decimal;
use bytes::Bytes;
use tonic::metadata::MetadataMap;
use tonic::{Request, Status};
use vstd::prelude::*;
use vstd::utf8::encode_utf8;

verus! {

// ---------------------------------------------------------------------------
// Message bytes
// ---------------------------------------------------------------------------

/// `bytes::Bytes`.
#[verifier::external_type_specification]
#[verifier::external_body]
pub struct ExBytes(bytes::Bytes);

/// The bytes that a `Bytes` holds.
pub uninterp spec fn bytes_of(bytes: Bytes) -> Seq<u8>;

/// `Bytes::new` makes an empty buffer.
pub assume_specification[ bytes::Bytes::new ]() -> (r: Bytes)
    ensures
        bytes_of(r) == Seq::<u8>::empty(),
;

/// `Bytes::copy_from_slice` copies the slice it is given.
pub assume_specification[ bytes::Bytes::copy_from_slice ](data: &[u8]) -> (r: Bytes)
    ensures
        bytes_of(r) == data@,
;

/// The bytes of a buffer as a vector.
///
/// Calls `Vec::<u8>::from(Bytes)`. Taken on trust: it hands out the bytes that
/// the buffer holds.
#[verifier::external_body]
pub(crate) fn bytes_into_vec(bytes: Bytes) -> (r: Vec<u8>)
    ensures
        r@ == bytes_of(bytes),
{
    Vec::from(bytes)
}

// ---------------------------------------------------------------------------
// Header names and values
// ---------------------------------------------------------------------------

/// A byte that can stand in a header name.
pub open spec fn header_name_byte(b: u8) -> bool {
    ||| 48 <= b <= 57
    ||| 65 <= b <= 90
    ||| 97 <= b <= 122
    ||| 35 <= b <= 39
    ||| 94 <= b <= 96
    ||| b == 33 || b == 42 || b == 43 || b == 45 || b == 46 || b == 124 || b == 126
}

/// A byte with ASCII capitals made small, as a character.
pub open spec fn lowered(b: u8) -> char {
    if 65 <= b <= 90 {
        (b + 32) as char
    } else {
        b as char
    }
}

/// The header name that a byte string spells, in lower case.
pub open spec fn header_name(s: Seq<u8>) -> Option<Seq<char>> {
    if 0 < s.len() <= 65535 && forall|i: int| 0 <= i < s.len() ==> header_name_byte(#[trigger] s[i]) {
        Some(Seq::new(s.len(), |i: int| lowered(s[i])))
    } else {
        None
    }
}

/// Keys with this ending carry binary values.
pub open spec fn is_binary_key(key: Seq<char>) -> bool {
    key.len() >= 4 && key.skip(key.len() - 4) == "-bin"@
}

/// The key for text values that a byte string spells.
pub open spec fn ascii_key(s: Seq<u8>) -> Option<Seq<char>> {
    match header_name(s) {
        Some(name) => if is_binary_key(name) {
            None
        } else {
            Some(name)
        },
        None => None,
    }
}

/// A byte string that can stand as a header value.
pub open spec fn header_value(s: Seq<u8>) -> bool {
    forall|i: int| 0 <= i < s.len() ==> (#[trigger] s[i] >= 32 && s[i] != 127) || s[i] == 9
}

/// The metadata key that a text spells, for text values.
///
/// Calls `tonic::metadata::MetadataKey::<Ascii>::from_bytes`. Taken on trust:
/// it accepts header names that do not end in `-bin`, and makes them lower
/// case.
#[verifier::external_body]
pub(crate) fn parse_ascii_key(key: &str) -> (r: Option<String>)
    ensures
        r is Some <==> ascii_key(encode_utf8(key@)) is Some,
        r matches Some(name) ==> ascii_key(encode_utf8(key@)) == Some(name@),
{
    tonic::metadata::MetadataKey::<tonic::metadata::Ascii>::from_bytes(key.as_bytes())
        .ok()
        .map(|name| name.as_str().to_owned())
}

/// Whether a text can be a metadata value.
///
/// Calls the `FromStr` impl of `tonic::metadata::AsciiMetadataValue`. Taken on
/// trust: it accepts tabs and every byte from 32 up but 127.
#[verifier::external_body]
pub(crate) fn is_ascii_value(value: &str) -> (r: bool)
    ensures
        r == header_value(encode_utf8(value@)),
{
    value.parse::<tonic::metadata::AsciiMetadataValue>().is_ok()
}

// ---------------------------------------------------------------------------
// Metadata maps
// ---------------------------------------------------------------------------

/// `tonic::metadata::MetadataMap`.
#[verifier::external_type_specification]
#[verifier::external_body]
pub struct ExMetadataMap(tonic::metadata::MetadataMap);

/// A key and the value that stands under it on the wire.
pub type Item = (Seq<char>, Seq<u8>);

/// The items of a metadata map, in the order in which it is walked.
pub uninterp spec fn metadata_items(map: MetadataMap) -> Seq<(Seq<char>, Seq<u8>)>;

/// An item of a metadata map.
pub struct MetadataItem {
    pub key: String,
    /// Whether the map holds the value as a binary one.
    pub binary: bool,
    /// The value as it stands on the wire.
    pub wire: Vec<u8>,
}

/// The items of a metadata map.
///
/// Walks `MetadataMap::iter` and copies each key, and each value with
/// `as_encoded_bytes`. Taken on trust: the walk yields the items of the map in
/// a fixed order, and the items whose key ends in `-bin` as binary ones.
#[verifier::external_body]
pub(crate) fn read_items(map: &MetadataMap) -> (r: Vec<MetadataItem>)
    ensures
        r@.len() == metadata_items(*map).len(),
        forall|i: int|
            0 <= i < r@.len() ==> (#[trigger] r@[i]).key@ == metadata_items(*map)[i].0
                && r@[i].wire@ == metadata_items(*map)[i].1 && r@[i].binary == is_binary_key(
                metadata_items(*map)[i].0,
            ),
{
    map.iter()
        .map(|item| match item {
            tonic::metadata::KeyAndValueRef::Ascii(key, value) => MetadataItem {
                key: key.as_str().to_owned(),
                binary: false,
                wire: value.as_encoded_bytes().to_vec(),
            },
            tonic::metadata::KeyAndValueRef::Binary(key, value) => MetadataItem {
                key: key.as_str().to_owned(),
                binary: true,
                wire: value.as_encoded_bytes().to_vec(),
            },
        })
        .collect()
}

/// `MetadataMap::new` makes an empty map.
pub assume_specification[ tonic::metadata::MetadataMap::new ]() -> (r: MetadataMap)
    ensures
        metadata_items(r) == Seq::<(Seq<char>, Seq<u8>)>::empty(),
;

/// The clone of a `MetadataMap` holds the same items.
pub assume_specification[ <tonic::metadata::MetadataMap as Clone>::clone ](
    map: &MetadataMap,
) -> (r: MetadataMap)
    ensures
        metadata_items(r) == metadata_items(*map),
;

/// The keys of a list of items.
pub open spec fn key_set(items: Seq<Item>) -> Set<Seq<char>> {
    items.map_values(|item: Item| item.0).to_set()
}

/// The most keys that a metadata map is sure to have room beside: its table
/// has a fixed greatest size, and an insertion that outgrows it panics.
pub const MAX_METADATA_KEYS: usize = 6553;

/// Whether a metadata map with these items has room for one key more.
pub open spec fn has_room(items: Seq<Item>) -> bool {
    key_set(items).len() <= MAX_METADATA_KEYS
}

/// The items without those under a key.
pub open spec fn without_key(items: Seq<Item>, key: Seq<char>) -> Seq<Item> {
    items.filter(|item: Item| item.0 != key)
}

/// The items after a value is set under a key: it takes the place of the
/// first value there, the others there go, and a new key comes last.
pub open spec fn with_item(items: Seq<Item>, key: Seq<char>, wire: Seq<u8>) -> Seq<Item>
    decreases items.len(),
{
    if items.len() == 0 {
        seq![(key, wire)]
    } else if items[0].0 == key {
        seq![(key, wire)] + without_key(items.skip(1), key)
    } else {
        seq![items[0]] + with_item(items.skip(1), key, wire)
    }
}

/// Sets a text value under a key.
///
/// Calls `MetadataMap::insert` with the key and the value parsed. Taken on
/// trust: the value replaces whatever stood under the key.
#[verifier::external_body]
pub(crate) fn insert_ascii(map: &mut MetadataMap, key: &str, value: &str)
    requires
        ascii_key(encode_utf8(key@)) is Some,
        header_value(encode_utf8(value@)),
        has_room(metadata_items(*old(map))),
    ensures
        metadata_items(*final(map)) == with_item(
            metadata_items(*old(map)),
            ascii_key(encode_utf8(key@))->0,
            encode_utf8(value@),
        ),
{
    let name = tonic::metadata::MetadataKey::<tonic::metadata::Ascii>::from_bytes(key.as_bytes());
    let value = value.parse::<tonic::metadata::AsciiMetadataValue>();
    map.insert(name.unwrap(), value.unwrap());
}

/// The bytes that the wire form of a binary value stands for.
pub uninterp spec fn wire_decoded(wire: Seq<u8>) -> Option<Seq<u8>>;

/// Reads the wire form of a binary value.
///
/// Calls `tonic::metadata::BinaryMetadataValue::to_bytes` on a value with that
/// wire form. Taken on trust: what it reads, and whether it can, depends on
/// the wire form alone.
#[verifier::external_body]
pub(crate) fn decode_wire(wire: &[u8]) -> (r: Option<Vec<u8>>)
    ensures
        r is Some <==> wire_decoded(wire@) is Some,
        r matches Some(bytes) ==> wire_decoded(wire@) == Some(bytes@),
{
    let mut headers = http::HeaderMap::new();
    headers.insert("value-bin", http::HeaderValue::from_bytes(wire).ok()?);
    let map = MetadataMap::from_headers(headers);
    map.get_bin("value-bin")?.to_bytes().ok().map(|bytes| bytes.to_vec())
}

/// The wire form of a binary value.
pub uninterp spec fn wire_encoded(bytes: Seq<u8>) -> Seq<u8>;

/// Sets a binary value under a key.
///
/// Calls `MetadataMap::insert_bin` with `BinaryMetadataValue::from_bytes`.
/// Taken on trust: the value replaces whatever stood under the key, and
/// reading its wire form gives the bytes back.
#[verifier::external_body]
pub(crate) fn insert_binary(map: &mut MetadataMap, key: &'static str, bytes: &[u8])
    requires
        key@ == "grpc-status-details-bin"@,
        has_room(metadata_items(*old(map))),
    ensures
        metadata_items(*final(map)) == with_item(
            metadata_items(*old(map)),
            key@,
            wire_encoded(bytes@),
        ),
        forall|i: int|
            0 <= i < metadata_items(*final(map)).len() && (#[trigger] metadata_items(
                *final(map),
            )[i]).0 == key@ ==> wire_decoded(metadata_items(*final(map))[i].1) == Some(bytes@),
{
    map.insert_bin(key, tonic::metadata::MetadataValue::from_bytes(bytes));
}

// ---------------------------------------------------------------------------
// Statuses
// ---------------------------------------------------------------------------

/// `tonic::Status`.
#[verifier::external_type_specification]
#[verifier::external_body]
pub struct ExStatus(tonic::Status);

/// The numeric code of a status.
pub uninterp spec fn status_code(status: Status) -> int;

/// The message of a status.
pub uninterp spec fn status_message(status: Status) -> Seq<char>;

/// The binary details of a status.
pub uninterp spec fn status_details(status: Status) -> Seq<u8>;

/// The metadata items of a status.
pub uninterp spec fn status_items(status: Status) -> Seq<(Seq<char>, Seq<u8>)>;

/// The numeric code of a status.
///
/// Calls `tonic::Status::code`. Taken on trust: the code is one of the
/// seventeen of gRPC, and it is fixed by the status.
#[verifier::external_body]
pub(crate) fn code_of(status: &Status) -> (r: i32)
    ensures
        r == status_code(*status),
        0 <= r <= 16,
{
    status.code() as i32
}

/// `tonic::Status::message` hands out the message of the status.
pub assume_specification[ tonic::Status::message ](status: &Status) -> (r: &str)
    ensures
        r@ == status_message(*status),
;

/// `tonic::Status::details` hands out the details of the status.
pub assume_specification[ tonic::Status::details ](status: &Status) -> (r: &[u8])
    ensures
        r@ == status_details(*status),
;

/// `tonic::Status::metadata` hands out the metadata of the status.
pub assume_specification[ tonic::Status::metadata ](status: &Status) -> (r: &MetadataMap)
    ensures
        metadata_items(*r) == status_items(*status),
;

/// The code of the status that a transport error stands for.
pub uninterp spec fn transport_status_code(error: tonic::transport::Error) -> int;

/// The status that a transport error stands for.
///
/// Calls `tonic::Status::from_error`. Taken on trust: the code is fixed by the
/// error. The rest of the status is left unsaid: its message can hold words of
/// the operating system.
#[verifier::external_body]
pub(crate) fn status_of_error(error: tonic::transport::Error) -> (r: Status)
    ensures
        status_code(r) == transport_status_code(error),
{
    Status::from_error(Box::new(error))
}

// ---------------------------------------------------------------------------
// Requests
// ---------------------------------------------------------------------------

/// `tonic::Request`.
#[verifier::external_type_specification]
#[verifier::external_body]
#[verifier::reject_recursive_types(T)]
pub struct ExRequest<T>(tonic::Request<T>);

/// The message of a request.
pub uninterp spec fn request_message(request: Request<Bytes>) -> Seq<u8>;

/// The metadata items of a request.
pub uninterp spec fn request_items(request: Request<Bytes>) -> Seq<(Seq<char>, Seq<u8>)>;

/// A request with a message and nothing else.
///
/// Calls `tonic::Request::new`. Taken on trust: the request has the message
/// and no metadata.
#[verifier::external_body]
pub(crate) fn new_request(message: Bytes) -> (r: Request<Bytes>)
    ensures
        request_message(r) == bytes_of(message),
        request_items(r) == Seq::<(Seq<char>, Seq<u8>)>::empty(),
{
    Request::new(message)
}

/// The metadata of a request, to be changed.
///
/// Calls `tonic::Request::metadata_mut`. Taken on trust: what becomes of the
/// map becomes of the request's metadata, and of nothing else in it.
#[verifier::external_body]
pub(crate) fn request_metadata_mut(request: &mut Request<Bytes>) -> (r: &mut MetadataMap)
    ensures
        metadata_items(*r) == request_items(*old(request)),
        request_items(*final(request)) == metadata_items(*final(r)),
        request_message(*final(request)) == request_message(*old(request)),
{
    request.metadata_mut()
}

/// The longest timeout, in microseconds, that has a `grpc-timeout` text.
pub const MAX_TIMEOUT_USEC: u64 = 359_999_999_999_999_999;

/// The `grpc-timeout` text: the most precise unit that takes at most eight
/// digits.
pub open spec fn timeout_text(usec: nat) -> Seq<char> {
    if usec * 1000 <= 99_999_999 {
        decimal((usec * 1000) as int).push('n')
    } else if usec <= 99_999_999 {
        decimal(usec as int).push('u')
    } else if usec / 1000 <= 99_999_999 {
        decimal((usec / 1000) as int).push('m')
    } else if usec / 1_000_000 <= 99_999_999 {
        decimal((usec / 1_000_000) as int).push('S')
    } else if usec / 60_000_000 <= 99_999_999 {
        decimal((usec / 60_000_000) as int).push('M')
    } else {
        decimal((usec / 3_600_000_000) as int).push('H')
    }
}

/// Gives a request a timeout.
///
/// Calls `tonic::Request::set_timeout`. Taken on trust: it sets the
/// `grpc-timeout` header, and nothing else.
#[verifier::external_body]
pub(crate) fn set_timeout(request: &mut Request<Bytes>, usec: u64)
    requires
        usec <= MAX_TIMEOUT_USEC,
        has_room(request_items(*old(request))),
    ensures
        request_items(*final(request)) == with_item(
            request_items(*old(request)),
            "grpc-timeout"@,
            encode_utf8(timeout_text(usec as nat)),
        ),
        request_message(*final(request)) == request_message(*old(request)),
{
    request.set_timeout(std::time::Duration::from_micros(usec));
}

// ---------------------------------------------------------------------------
// Method paths
// ---------------------------------------------------------------------------

/// `http::uri::PathAndQuery`.
#[verifier::external_type_specification]
#[verifier::external_body]
pub struct ExPathAndQuery(http::uri::PathAndQuery);

/// The text of a request path.
pub uninterp spec fn path_text(path: http::uri::PathAndQuery) -> Seq<char>;

/// The request path that a text stands for, or why it stands for none.
pub uninterp spec fn path_outcome(text: Seq<char>) -> Result<Seq<char>, Seq<char>>;

/// Reads a request path.
///
/// Calls the `TryFrom<&str>` impl of `http::uri::PathAndQuery`, and displays
/// its error. Taken on trust: the path, or the error, depends on the text
/// alone.
#[verifier::external_body]
pub(crate) fn parse_path(text: &str) -> (r: Result<http::uri::PathAndQuery, String>)
    ensures
        match r {
            Ok(path) => path_outcome(text@) == Ok::<Seq<char>, Seq<char>>(path_text(path)),
            Err(why) => path_outcome(text@) == Err::<Seq<char>, Seq<char>>(why@),
        },
{
    http::uri::PathAndQuery::try_from(text).map_err(|e| e.to_string())
}

// ---------------------------------------------------------------------------
// Laws
// ---------------------------------------------------------------------------

/// To set a key in a map leaves the items of every other key as they are and in
/// their order, and leaves the key with exactly the value that was set.
pub proof fn law_set_item(items: Seq<Item>, key: Seq<char>, wire: Seq<u8>)
    ensures
        with_item(items, key, wire).filter(|item: Item| item.0 != key) == items.filter(
            |item: Item| item.0 != key,
        ),
        with_item(items, key, wire).filter(|item: Item| item.0 == key) == seq![(key, wire)],
    decreases items.len(),
{
    let others = |item: Item| item.0 != key;
    let same = |item: Item| item.0 == key;
    let one = seq![(key, wire)];
    assert(one.filter(others) =~= Seq::<Item>::empty() && one.filter(same) =~= one) by {
        reveal(Seq::filter);
        reveal_with_fuel(Seq::filter, 2);
        assert(one.drop_last() =~= Seq::<Item>::empty());
        assert(one.last() == (key, wire));
    }
    if items.len() == 0 {
        assert(items.filter(others) =~= Seq::<Item>::empty()) by {
            reveal(Seq::filter);
        }
    } else {
        let first = seq![items[0]];
        let rest = items.skip(1);
        assert(items =~= first + rest);
        Seq::filter_distributes_over_add(first, rest, others);
        assert(first.filter(others) =~= if items[0].0 != key {
            first
        } else {
            Seq::empty()
        } && first.filter(same) =~= if items[0].0 == key {
            first
        } else {
            Seq::empty()
        }) by {
            reveal(Seq::filter);
            reveal_with_fuel(Seq::filter, 2);
            assert(first.drop_last() =~= Seq::<Item>::empty());
            assert(first.last() == items[0]);
        }
        if items[0].0 == key {
            let kept = rest.filter(others);
            Seq::filter_distributes_over_add(one, kept, others);
            Seq::filter_distributes_over_add(one, kept, same);
            lemma_filtered(rest, others, same);
            lemma_without_key(rest, key);
            assert(with_item(items, key, wire) == one + kept);
            assert(with_item(items, key, wire).filter(others) =~= items.filter(others));
            assert(with_item(items, key, wire).filter(same) =~= one);
        } else {
            law_set_item(rest, key, wire);
            let after = with_item(rest, key, wire);
            Seq::filter_distributes_over_add(first, after, others);
            Seq::filter_distributes_over_add(first, after, same);
            assert(with_item(items, key, wire).filter(others) =~= items.filter(others));
            assert(with_item(items, key, wire).filter(same) =~= one);
        }
    }
}

proof fn lemma_without_key(items: Seq<Item>, key: Seq<char>)
    ensures
        without_key(items, key) == items.filter(|item: Item| item.0 != key),
    decreases items.len(),
{
    reveal(Seq::filter);
    if items.len() > 0 {
        lemma_without_key(items.drop_last(), key);
    }
}

proof fn lemma_filtered(
    items: Seq<Item>,
    keep: spec_fn(Item) -> bool,
    drop: spec_fn(Item) -> bool,
)
    requires
        forall|item: Item| #[trigger] drop(item) <==> !keep(item),
    ensures
        items.filter(keep).filter(keep) == items.filter(keep),
        items.filter(keep).filter(drop) == Seq::<Item>::empty(),
    decreases items.len(),
{
    reveal(Seq::filter);
    if items.len() > 0 {
        let before = items.drop_last();
        let last = items.last();
        lemma_filtered(before, keep, drop);
        let kept = before.filter(keep);
        assert(kept.push(last).drop_last() =~= kept);
        assert(drop(last) == !keep(last));
    }
}

/// A text can be sent as a value unless it holds a control character other than
/// a tab; a text that is refused, or let through, is so for one of its bytes.
pub proof fn law_values_that_can_be_sent(text: Seq<u8>)
    ensures
        header_value(text) <==> forall|i: int|
            0 <= i < text.len() ==> !(#[trigger] text[i] < 32 && text[i] != 9) && text[i] != 127,
{
}

/// The timeout of a call goes out as a number of a unit: nanoseconds,
/// microseconds, milliseconds, seconds, minutes or hours, the finest in which it
/// has at most eight digits. What goes out is never more than the timeout and
/// less than one unit short of it; below a hundred seconds it is exact.
pub proof fn law_timeouts_are_sent(usec: nat) -> (r: (nat, nat))
    ensures
        ({
            let (count, unit) = r;
            &&& count * unit <= usec * 1000 < (count + 1) * unit
            &&& usec <= 99_999_999 ==> count * unit == usec * 1000
            &&& unit == 1 ==> timeout_text(usec) == decimal(count as int).push('n')
            &&& unit == 1_000 ==> timeout_text(usec) == decimal(count as int).push('u')
            &&& unit == 1_000_000 ==> timeout_text(usec) == decimal(count as int).push('m')
            &&& unit == 1_000_000_000 ==> timeout_text(usec) == decimal(count as int).push('S')
            &&& unit == 60_000_000_000 ==> timeout_text(usec) == decimal(count as int).push('M')
            &&& unit == 3_600_000_000_000 ==> timeout_text(usec) == decimal(count as int).push('H')
            &&& unit == 1 || unit == 1_000 || unit == 1_000_000 || unit == 1_000_000_000 || unit
                == 60_000_000_000 || unit == 3_600_000_000_000
            &&& unit < 3_600_000_000_000 ==> count <= 99_999_999
            &&& unit == 1_000 ==> usec * 1000 > 99_999_999
            &&& unit == 1_000_000 ==> usec > 99_999_999
            &&& unit == 1_000_000_000 ==> usec > 99_999_999_999
            &&& unit == 60_000_000_000 ==> usec > 99_999_999_999_999
            &&& unit == 3_600_000_000_000 ==> usec > 5_999_999_999_999_999
        }),
{
    if usec * 1000 <= 99_999_999 {
        ((usec * 1000) as nat, 1)
    } else if usec <= 99_999_999 {
        (usec, 1_000)
    } else if usec / 1000 <= 99_999_999 {
        ((usec / 1000) as nat, 1_000_000)
    } else if usec / 1_000_000 <= 99_999_999 {
        ((usec / 1_000_000) as nat, 1_000_000_000)
    } else if usec / 60_000_000 <= 99_999_999 {
        ((usec / 60_000_000) as nat, 60_000_000_000)
    } else {
        ((usec / 3_600_000_000) as nat, 3_600_000_000_000)
    }
}

/// A key goes out in small letters and otherwise as it is, all of it. It can go
/// out when it has from 1 to 65535 bytes, each of them a letter, a digit or one
/// of the signs that a header name may hold, and when it does not end in `-bin`.
pub proof fn law_keys_that_can_be_sent(key: Seq<u8>)
    ensures
        ascii_key(key) matches Some(name) ==> name.len() == key.len() && forall|i: int|
            #![trigger name[i]]
            0 <= i < key.len() ==> name[i] == if 65 <= key[i] <= 90 {
                (key[i] + 32) as char
            } else {
                key[i] as char
            },
        ascii_key(key) is Some ==> 0 < key.len() <= 65535,
        0 < key.len() <= 65535 && (forall|i: int|
            0 <= i < key.len() ==> 48 <= #[trigger] key[i] <= 57 || 65 <= key[i] <= 90 || 97
                <= key[i] <= 122 || key[i] == 45 || key[i] == 46 || key[i] == 95) ==> (ascii_key(
            key,
        ) is Some <==> !(key.len() >= 4 && lowered(key[key.len() - 4]) == '-' && lowered(
            key[key.len() - 3],
        ) == 'b' && lowered(key[key.len() - 2]) == 'i' && lowered(key[key.len() - 1]) == 'n')),
        (exists|i: int|
            0 <= i < key.len() && (#[trigger] key[i] <= 32 || key[i] >= 127 || key[i] == 58))
            ==> ascii_key(key) is None,
{
    reveal_strlit("-bin");
    let n = key.len() as int;
    if 0 < key.len() <= 65535 {
        let name = Seq::new(key.len(), |i: int| lowered(key[i]));
        if n >= 4 {
            let end = name.skip(n - 4);
            assert(end[0] == lowered(key[n - 4]) && end[1] == lowered(key[n - 3]) && end[2]
                == lowered(key[n - 2]) && end[3] == lowered(key[n - 1]));
            if end[0] == '-' && end[1] == 'b' && end[2] == 'i' && end[3] == 'n' {
                assert(end =~= "-bin"@);
            }
        }
    }
}

/// Whether there is an item under a key.
pub open spec fn has_key(items: Seq<Item>, key: Seq<char>) -> bool {
    exists|i: int| 0 <= i < items.len() && (#[trigger] items[i]).0 == key
}

/// Metadata has room as long as it has no more than 6553 different keys: always
/// where there are no more items than that, and never where more keys than that
/// can be named.
pub proof fn law_room_goes_by_the_keys(items: Seq<Item>, names: Seq<Seq<char>>)
    ensures
        items.len() <= 6553 ==> has_room(items),
        names.len() > 6553 && names.no_duplicates() && (forall|i: int|
            0 <= i < names.len() ==> has_key(items, #[trigger] names[i])) ==> !has_room(items),
        key_set(items).len() <= 6553 <==> has_room(items),
{
    let keys = items.map_values(|item: Item| item.0);
    keys.lemma_cardinality_of_set();
    if names.len() > 6553 && names.no_duplicates() && (forall|i: int|
        0 <= i < names.len() ==> has_key(items, #[trigger] names[i])) {
        names.unique_seq_to_set();
        vstd::seq_lib::seq_to_set_is_finite(keys);
        assert forall|k: Seq<char>| #[trigger] names.to_set().contains(k) implies key_set(
            items,
        ).contains(k) by {
            let i = choose|i: int| 0 <= i < names.len() && names[i] == k;
            assert(has_key(items, names[i]));
            let j = choose|j: int| 0 <= j < items.len() && (#[trigger] items[j]).0 == k;
            assert(keys[j] == k);
        }
        assert(names.to_set().subset_of(key_set(items)));
        vstd::set_lib::lemma_len_subset(names.to_set(), key_set(items));
    }
}

} // verus!

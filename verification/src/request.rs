//! Requests: their path, metadata and timeout.

use crate::error::GrpcError;
use crate::metadata::{
    collected, ends_in_bin, item_values, law_collected_metadata, law_set_value,
    law_what_is_read_of_a_value, legal_key, legal_key_byte, pairs, read_all, readable,
    values_under,
};
use crate::status::deadline_set;
use crate::text::{add_text, joined, lemma_ascii_text, texts};
use crate::timeval::{clamped, saturating_sub};
use crate::wire::{
    ascii_key, bytes_of, has_room, header_name_byte, header_value, insert_ascii, is_ascii_value,
    is_binary_key, key_set, law_set_item, lowered, metadata_items, new_request, parse_ascii_key, parse_path,
    path_outcome, path_text, request_items, request_message, request_metadata_mut, set_timeout,
    timeout_text, with_item, without_key, Item, MAX_METADATA_KEYS, MAX_TIMEOUT_USEC,
};
use bytes::Bytes;
use http::uri::PathAndQuery;
use tonic::metadata::MetadataMap;
use tonic::Request;
use vstd::prelude::*;
use vstd::utf8::encode_utf8;

verus! {

/// A metadata pair as text.
pub type Pair = (Seq<char>, Seq<char>);

/// The metadata item that a pair gives: a pair whose key or value cannot
/// stand in a header gives none.
pub open spec fn pair_item(pair: Pair) -> Option<Item> {
    match ascii_key(encode_utf8(pair.0)) {
        Some(name) => if header_value(encode_utf8(pair.1)) {
            Some((name, encode_utf8(pair.1)))
        } else {
            None
        },
        None => None,
    }
}

/// The metadata items after pairs are applied in order, each replacing what
/// stood under its key.
pub open spec fn applied(items: Seq<Item>, list: Seq<Pair>) -> Seq<Item>
    decreases list.len(),
{
    if list.len() == 0 {
        items
    } else {
        let before = applied(items, list.drop_last());
        match pair_item(list.last()) {
            Some(item) => with_item(before, item.0, item.1),
            None => before,
        }
    }
}

/// The metadata of a request: the pairs of the call, then those of the
/// credentials plugin.
pub open spec fn request_metadata(send: Seq<Pair>, plugin: Seq<Pair>) -> Seq<Item> {
    applied(applied(Seq::empty(), send), plugin)
}

/// The timeout of a request in microseconds: what is left until a real
/// deadline, and at least one.
pub open spec fn request_timeout(deadline_usec: i64, now: i64) -> Option<nat> {
    if deadline_set(deadline_usec) {
        let left = clamped(deadline_usec - now);
        Some(
            if left >= 1 {
                left as nat
            } else {
                1
            },
        )
    } else {
        None
    }
}

/// Whether the timeout of a request can be written down.
pub open spec fn timeout_fits(deadline_usec: i64, now: i64) -> bool {
    request_timeout(deadline_usec, now) matches Some(usec) ==> usec <= MAX_TIMEOUT_USEC
}

/// The metadata items of a finished request.
pub open spec fn finished_items(items: Seq<Item>, deadline_usec: i64, now: i64) -> Seq<Item> {
    match request_timeout(deadline_usec, now) {
        Some(usec) => with_item(items, "grpc-timeout"@, encode_utf8(timeout_text(usec))),
        None => items,
    }
}

proof fn lemma_keys_without(items: Seq<Item>, key: Seq<char>, k: Seq<char>)
    ensures
        key_set(without_key(items, key)).contains(k) <==> key_set(items).contains(k) && k != key,
    decreases items.len(),
{
    reveal(Seq::filter);
    if items.len() > 0 {
        lemma_keys_without(items.drop_last(), key, k);
        lemma_key_set_push(items.drop_last(), items.last(), k);
        assert(items.drop_last().push(items.last()) =~= items);
        lemma_key_set_push(without_key(items.drop_last(), key), items.last(), k);
    } else {
        assert(without_key(items, key) =~= Seq::<Item>::empty());
        assert(items.map_values(|item: Item| item.0) =~= Seq::<Seq<char>>::empty());
    }
}

proof fn lemma_key_set_push(items: Seq<Item>, item: Item, k: Seq<char>)
    ensures
        key_set(items.push(item)).contains(k) <==> key_set(items).contains(k) || k == item.0,
{
    let before = items.map_values(|i: Item| i.0);
    let after = items.push(item).map_values(|i: Item| i.0);
    assert(after =~= before.push(item.0));
    before.lemma_push_to_set_commute(item.0);
}

proof fn lemma_key_set_front(item: Item, items: Seq<Item>, k: Seq<char>)
    ensures
        key_set(seq![item] + items).contains(k) <==> key_set(items).contains(k) || k == item.0,
{
    let before = items.map_values(|i: Item| i.0);
    let after = (seq![item] + items).map_values(|i: Item| i.0);
    assert(after =~= seq![item.0] + before);
    if before.contains(k) {
        let j = choose|j: int| 0 <= j < before.len() && before[j] == k;
        assert(after[j + 1] == k);
    }
    assert(after[0] == item.0);
    if after.contains(k) && k != item.0 {
        let j = choose|j: int| 0 <= j < after.len() && after[j] == k;
        assert(before[j - 1] == k);
    }
}

/// Setting a value adds its key to the keys, and nothing else.
proof fn lemma_keys_with(items: Seq<Item>, key: Seq<char>, wire: Seq<u8>)
    ensures
        key_set(with_item(items, key, wire)) == key_set(items).insert(key),
    decreases items.len(),
{
    let after = with_item(items, key, wire);
    assert forall|k: Seq<char>| #[trigger]
        key_set(after).contains(k) <==> key_set(items).insert(key).contains(k) by {
        if items.len() == 0 {
            lemma_key_set_push(items, (key, wire), k);
            assert(items.push((key, wire)) =~= after);
        } else {
            let rest = items.skip(1);
            assert(seq![items[0]] + rest =~= items);
            lemma_key_set_front(items[0], rest, k);
            if items[0].0 == key {
                lemma_key_set_front((key, wire), without_key(rest, key), k);
                lemma_keys_without(rest, key, k);
            } else {
                lemma_keys_with(rest, key, wire);
                lemma_key_set_front(items[0], with_item(rest, key, wire), k);
            }
        }
    }
    assert(key_set(after) =~= key_set(items).insert(key));
}

/// The keys of items are finitely many.
proof fn lemma_keys_finite(items: Seq<Item>)
    ensures
        key_set(items).finite(),
{
    vstd::seq_lib::seq_to_set_is_finite(items.map_values(|item: Item| item.0));
}

/// Applying more pairs only adds keys.
proof fn lemma_applied_grows(items: Seq<Item>, list: Seq<Pair>, n: int)
    requires
        0 <= n <= list.len(),
    ensures
        key_set(applied(items, list.take(n))).subset_of(key_set(applied(items, list))),
    decreases list.len() - n,
{
    if n == list.len() {
        assert(list.take(n) =~= list);
    } else {
        lemma_applied_grows(items, list, n + 1);
        assert(list.take(n + 1).drop_last() =~= list.take(n));
        let before = applied(items, list.take(n));
        match pair_item(list.take(n + 1).last()) {
            Some(item) => lemma_keys_with(before, item.0, item.1),
            None => {},
        }
    }
}

proof fn lemma_room_on_the_way(items: Seq<Item>, list: Seq<Pair>, n: int)
    requires
        0 <= n <= list.len(),
        has_room(applied(items, list)),
    ensures
        has_room(applied(items, list.take(n))),
{
    lemma_applied_grows(items, list, n);
    lemma_keys_finite(applied(items, list));
    vstd::set_lib::lemma_len_subset(
        key_set(applied(items, list.take(n))),
        key_set(applied(items, list)),
    );
}

/// Applies metadata pairs to a map, in order.
fn apply_metadata(map: &mut MetadataMap, list: &Vec<(String, String)>)
    requires
        has_room(applied(metadata_items(*old(map)), pairs(list@))),
    ensures
        metadata_items(*final(map)) == applied(metadata_items(*old(map)), pairs(list@)),
{
    let ghost start = metadata_items(*map);
    let ghost all = pairs(list@);
    let mut i: usize = 0;
    assert(all.take(0) =~= Seq::empty());
    while i < list.len()
        invariant
            i <= list.len(),
            all == pairs(list@),
            has_room(applied(start, all)),
            metadata_items(*map) == applied(start, all.take(i as int)),
        decreases list.len() - i,
    {
        proof {
            assert(all.take(i + 1).drop_last() =~= all.take(i as int));
            assert(all.take(i + 1).last() == (list@[i as int].0@, list@[i as int].1@));
            lemma_room_on_the_way(start, all, i as int);
        }
        let key = list[i].0.as_str();
        let value = list[i].1.as_str();
        match parse_ascii_key(key) {
            Some(_) => {
                if is_ascii_value(value) {
                    insert_ascii(map, key, value);
                }
            },
            None => {},
        }
        i = i + 1;
    }
    assert(all.take(i as int) =~= all);
}

/// Adds the names that metadata pairs set to a list of names.
fn collect_names(names: &mut Vec<String>, list: &Vec<(String, String)>, Ghost(start): Ghost<Seq<Item>>)
    requires
        texts(old(names)@).no_duplicates(),
        texts(old(names)@).to_set() == key_set(start),
    ensures
        texts(final(names)@).no_duplicates(),
        texts(final(names)@).to_set() == key_set(applied(start, pairs(list@))),
{
    let ghost all = pairs(list@);
    let mut i: usize = 0;
    assert(all.take(0) =~= Seq::empty());
    while i < list.len()
        invariant
            i <= list.len(),
            all == pairs(list@),
            texts(names@).no_duplicates(),
            texts(names@).to_set() == key_set(applied(start, all.take(i as int))),
        decreases list.len() - i,
    {
        proof {
            assert(all.take(i + 1).drop_last() =~= all.take(i as int));
            assert(all.take(i + 1).last() == (list@[i as int].0@, list@[i as int].1@));
        }
        match parse_ascii_key(list[i].0.as_str()) {
            Some(name) => {
                if is_ascii_value(list[i].1.as_str()) {
                    proof {
                        lemma_keys_with(
                            applied(start, all.take(i as int)),
                            name@,
                            encode_utf8(list@[i as int].1@),
                        );
                    }
                    add_text(names, name);
                }
            },
            None => {},
        }
        i = i + 1;
    }
    assert(all.take(i as int) =~= all);
}

/// Whether a request has room for its metadata.
pub fn request_metadata_fits(
    send_metadata: &Vec<(String, String)>,
    plugin_metadata: &Vec<(String, String)>,
) -> (r: bool)
    ensures
        r == has_room(request_metadata(pairs(send_metadata@), pairs(plugin_metadata@))),
{
    let mut names: Vec<String> = Vec::new();
    proof {
        let none = Seq::<Item>::empty();
        assert(texts(names@) =~= Seq::<Seq<char>>::empty());
        assert(none.map_values(|item: Item| item.0) =~= Seq::<Seq<char>>::empty());
    }
    collect_names(&mut names, send_metadata, Ghost(Seq::empty()));
    collect_names(
        &mut names,
        plugin_metadata,
        Ghost(applied(Seq::empty(), pairs(send_metadata@))),
    );
    proof {
        texts(names@).unique_seq_to_set();
    }
    names.len() <= MAX_METADATA_KEYS
}

/// The timeout of a request in microseconds.
fn timeout_usec(deadline_usec: i64, now: i64) -> (r: Option<u64>)
    ensures
        r is Some <==> request_timeout(deadline_usec, now) is Some,
        r matches Some(usec) ==> request_timeout(deadline_usec, now) == Some(usec as nat),
{
    if deadline_usec < i64::MAX && deadline_usec > 0 {
        let left = saturating_sub(deadline_usec, now);
        if left >= 1 {
            Some(left as u64)
        } else {
            Some(1)
        }
    } else {
        None
    }
}

/// Whether the timeout of a request can be written down.
pub fn request_timeout_fits(deadline_usec: i64, now: i64) -> (r: bool)
    ensures
        r == timeout_fits(deadline_usec, now),
{
    match timeout_usec(deadline_usec, now) {
        Some(usec) => usec <= MAX_TIMEOUT_USEC,
        None => true,
    }
}

/// Builds a request: the message, the metadata of the call and of its
/// credentials plugin, and the time left until the deadline.
pub fn build_request(
    send_metadata: &Vec<(String, String)>,
    plugin_metadata: &Vec<(String, String)>,
    message: Bytes,
    deadline_usec: i64,
    now: i64,
) -> (r: Request<Bytes>)
    requires
        has_room(request_metadata(pairs(send_metadata@), pairs(plugin_metadata@))),
        timeout_fits(deadline_usec, now),
    ensures
        request_message(r) == bytes_of(message),
        request_items(r) == finished_items(
            request_metadata(pairs(send_metadata@), pairs(plugin_metadata@)),
            deadline_usec,
            now,
        ),
{
    let mut request = new_request(message);
    proof {
        let send = applied(Seq::empty(), pairs(send_metadata@));
        let plugin = pairs(plugin_metadata@);
        assert(plugin.take(0) =~= Seq::empty());
        lemma_room_on_the_way(send, plugin, 0);
    }
    let metadata = request_metadata_mut(&mut request);
    apply_metadata(metadata, send_metadata);
    apply_metadata(metadata, plugin_metadata);
    match timeout_usec(deadline_usec, now) {
        Some(usec) => set_timeout(&mut request, usec),
        None => {},
    }
    request
}

/// The request path of a call, from what reading its method gave.
pub fn checked_path(parsed: Result<PathAndQuery, String>) -> (r: Result<PathAndQuery, GrpcError>)
    ensures
        match parsed {
            Ok(path) => r matches Ok(p) && p == path,
            Err(why) => r matches Err(GrpcError::InvalidArg(message)) && message@
                == "invalid method path: "@ + why@,
        },
{
    match parsed {
        Ok(path) => Ok(path),
        Err(why) => Err(GrpcError::InvalidArg(joined("invalid method path: ", why.as_str()))),
    }
}

/// The request path of a method.
pub fn method_path(method: &str) -> (r: Result<PathAndQuery, GrpcError>)
    ensures
        match r {
            Ok(path) => path_outcome(method@) == Ok::<Seq<char>, Seq<char>>(path_text(path)),
            Err(e) => path_outcome(method@) matches Err(why) && (e matches GrpcError::InvalidArg(
                message,
            ) && message@ == "invalid method path: "@ + why),
        },
{
    checked_path(parse_path(method))
}

// ---------------------------------------------------------------------------
// Laws
// ---------------------------------------------------------------------------

/// The value that the last applicable pair for a key gives.
pub open spec fn last_value(list: Seq<Pair>, key: Seq<char>) -> Option<Seq<u8>>
    decreases list.len(),
{
    if list.len() == 0 {
        None
    } else {
        match pair_item(list.last()) {
            Some(item) => if item.0 == key {
                Some(item.1)
            } else {
                last_value(list.drop_last(), key)
            },
            None => last_value(list.drop_last(), key),
        }
    }
}

proof fn lemma_applied_value(items: Seq<Item>, list: Seq<Pair>, key: Seq<char>)
    ensures
        item_values(applied(items, list), key) == match last_value(list, key) {
            Some(value) => seq![value],
            None => item_values(items, key),
        },
    decreases list.len(),
{
    if list.len() > 0 {
        lemma_applied_value(items, list.drop_last(), key);
        match pair_item(list.last()) {
            Some(item) => law_set_value(applied(items, list.drop_last()), item.0, item.1, key),
            None => {},
        }
    }
}

/// Under each key a request carries one value: the last that the plugin gives
/// for it, or else the last that the call gives, or none at all.
pub proof fn law_plugin_metadata_wins(send: Seq<Pair>, plugin: Seq<Pair>, key: Seq<char>)
    ensures
        item_values(request_metadata(send, plugin), key) == match last_value(plugin, key) {
            Some(value) => seq![value],
            None => match last_value(send, key) {
                Some(value) => seq![value],
                None => Seq::empty(),
            },
        },
{
    lemma_applied_value(applied(Seq::empty(), send), plugin, key);
    lemma_applied_value(Seq::empty(), send, key);
}

/// A request for a call with a real deadline always carries a timeout, one
/// for a call without never gains one, and no other metadata depends on it.
pub proof fn law_deadline_sets_timeout(
    items: Seq<Item>,
    deadline_usec: i64,
    now: i64,
    key: Seq<char>,
)
    ensures
        item_values(finished_items(items, deadline_usec, now), key) == if key == "grpc-timeout"@
            && deadline_set(deadline_usec) {
            seq![encode_utf8(timeout_text(request_timeout(deadline_usec, now)->0))]
        } else {
            item_values(items, key)
        },
        deadline_set(deadline_usec) ==> request_timeout(deadline_usec, now)->0 >= 1,
{
    match request_timeout(deadline_usec, now) {
        Some(usec) => law_set_value(
            items,
            "grpc-timeout"@,
            encode_utf8(timeout_text(usec)),
            key,
        ),
        None => {},
    }
}

/// A key that is legal in send metadata goes out as it is, unless it is one
/// for binary values or too long for a header.
pub proof fn law_legal_keys_are_kept(key: Seq<char>)
    requires
        legal_key(key),
        !is_binary_key(key),
        encode_utf8(key).len() <= 65535,
    ensures
        ascii_key(encode_utf8(key)) == Some(key),
{
    let bytes = encode_utf8(key);
    assert forall|i: int| 0 <= i < bytes.len() implies #[trigger] bytes[i] < 128 by {
        assert(legal_key_byte(bytes[i]));
    }
    lemma_ascii_text(key);
    assert forall|i: int| 0 <= i < bytes.len() implies header_name_byte(#[trigger] bytes[i])
        && lowered(bytes[i]) == key[i] by {
        assert(legal_key_byte(bytes[i]));
    }
    assert(Seq::new(bytes.len(), |i: int| lowered(bytes[i])) =~= key);
}

/// What a call sends under a key is what a reader of its metadata finds there:
/// the last value, as it was given.
pub proof fn law_sent_metadata_is_read_back(
    send: Seq<Pair>,
    plugin: Seq<Pair>,
    key: Seq<char>,
    value: Seq<u8>,
)
    requires
        last_value(plugin, key) == Some(value) || (last_value(plugin, key) is None && last_value(
            send,
            key,
        ) == Some(value)),
        readable(key, value) == Some(value),
    ensures
        values_under(collected(request_metadata(send, plugin)), key) == seq![value],
{
    law_plugin_metadata_wins(send, plugin, key);
    law_collected_metadata(request_metadata(send, plugin), key);
    let wires = seq![value];
    assert(wires.drop_last() =~= Seq::<Seq<u8>>::empty());
    assert(read_all(key, wires.drop_last()) =~= Seq::<Seq<u8>>::empty());
    assert(read_all(key, wires) =~= seq![value]);
}

/// Whether a pair goes out under a name: its key is that name in a header, and
/// its value can stand in one.
pub open spec fn goes_out_as(pair: Pair, name: Seq<char>) -> bool {
    ascii_key(encode_utf8(pair.0)) == Some(name) && header_value(encode_utf8(pair.1))
}

proof fn lemma_last_value(list: Seq<Pair>, name: Seq<char>, i: int)
    ensures
        0 <= i < list.len() && goes_out_as(list[i], name) && (forall|j: int|
            i < j < list.len() ==> !goes_out_as(#[trigger] list[j], name)) ==> last_value(
            list,
            name,
        ) == Some(encode_utf8(list[i].1)),
        (forall|j: int| 0 <= j < list.len() ==> !goes_out_as(#[trigger] list[j], name))
            ==> last_value(list, name) is None,
    decreases list.len(),
{
    if list.len() > 0 {
        let before = list.drop_last();
        let last = list[list.len() - 1];
        lemma_last_value(before, name, i);
        if !goes_out_as(last, name) {
            if 0 <= i < list.len() && goes_out_as(list[i], name) {
                assert(before[i] == list[i]);
            }
            if 0 <= i && forall|j: int|
                i < j < list.len() ==> !goes_out_as(#[trigger] list[j], name) {
                assert forall|j: int| i < j < before.len() implies !goes_out_as(
                    #[trigger] before[j],
                    name,
                ) by {
                    assert(before[j] == list[j]);
                }
            }
            if forall|j: int| 0 <= j < list.len() ==> !goes_out_as(#[trigger] list[j], name) {
                assert forall|j: int| 0 <= j < before.len() implies !goes_out_as(
                    #[trigger] before[j],
                    name,
                ) by {
                    assert(before[j] == list[j]);
                }
            }
        }
    }
}

proof fn lemma_items_under(items: Seq<Item>, name: Seq<char>)
    ensures
        items.filter(|item: Item| item.0 == name) == item_values(items, name).map_values(
            |wire: Seq<u8>| (name, wire),
        ),
    decreases items.len(),
{
    reveal(Seq::filter);
    let under = |item: Item| item.0 == name;
    let named = |wire: Seq<u8>| (name, wire);
    if items.len() > 0 {
        let before = items.drop_last();
        lemma_items_under(before, name);
        let values = item_values(before, name);
        assert(values.push(items.last().1).map_values(named) =~= values.map_values(named).push(
            (name, items.last().1),
        ));
        assert(items.filter(under) =~= item_values(items, name).map_values(named));
    } else {
        assert(items.filter(under) =~= item_values(items, name).map_values(named));
    }
}

/// What goes out under a name is the last value that the plugin gives for it, or
/// else the last that the call gives: one item, with all the bytes of the value.
/// Where neither gives one, there is none.
pub proof fn law_metadata_goes_out(send: Seq<Pair>, plugin: Seq<Pair>, name: Seq<char>, i: int)
    ensures
        0 <= i < plugin.len() && goes_out_as(plugin[i], name) && (forall|j: int|
            i < j < plugin.len() ==> !goes_out_as(#[trigger] plugin[j], name)) ==> request_metadata(
            send,
            plugin,
        ).filter(|item: Item| item.0 == name) == seq![(name, encode_utf8(plugin[i].1))],
        (forall|j: int| 0 <= j < plugin.len() ==> !goes_out_as(#[trigger] plugin[j], name)) && 0
            <= i < send.len() && goes_out_as(send[i], name) && (forall|j: int|
            i < j < send.len() ==> !goes_out_as(#[trigger] send[j], name)) ==> request_metadata(
            send,
            plugin,
        ).filter(|item: Item| item.0 == name) == seq![(name, encode_utf8(send[i].1))],
        (forall|j: int| 0 <= j < plugin.len() ==> !goes_out_as(#[trigger] plugin[j], name)) && (
        forall|j: int| 0 <= j < send.len() ==> !goes_out_as(#[trigger] send[j], name))
            ==> request_metadata(send, plugin).filter(|item: Item| item.0 == name).len() == 0,
{
    let named = |wire: Seq<u8>| (name, wire);
    lemma_last_value(plugin, name, i);
    lemma_last_value(send, name, i);
    law_plugin_metadata_wins(send, plugin, name);
    let items = request_metadata(send, plugin);
    lemma_items_under(items, name);
    if 0 <= i < plugin.len() {
        let value = encode_utf8(plugin[i].1);
        assert(seq![value].map_values(named) =~= seq![(name, value)]);
    }
    if 0 <= i < send.len() {
        let value = encode_utf8(send[i].1);
        assert(seq![value].map_values(named) =~= seq![(name, value)]);
    }
    assert(Seq::<Seq<u8>>::empty().map_values(named) =~= Seq::<Item>::empty());
}

/// A pair with a legal key of at most 65535 bytes that does not end in `-bin`,
/// and with a value free of control characters, goes out under its key as it is.
pub proof fn law_legal_pairs_go_out(pair: Pair)
    requires
        legal_key(pair.0),
        !ends_in_bin(pair.0),
        encode_utf8(pair.0).len() <= 65535,
        forall|i: int|
            0 <= i < encode_utf8(pair.1).len() ==> 32 <= #[trigger] encode_utf8(pair.1)[i]
                && encode_utf8(pair.1)[i] != 127,
    ensures
        goes_out_as(pair, pair.0),
        pair_item(pair) == Some((pair.0, encode_utf8(pair.1))),
{
    law_what_is_read_of_a_value(pair.0, Seq::empty());
    reveal_strlit("-bin");
    let n = pair.0.len() as int;
    if is_binary_key(pair.0) {
        let end = pair.0.skip(n - 4);
        assert(end[0] == pair.0[n - 4] && end[1] == pair.0[n - 3] && end[2] == pair.0[n - 2]
            && end[3] == pair.0[n - 1]);
    }
    law_legal_keys_are_kept(pair.0);
}

/// The timeout of a request is exactly the time that is left until a real
/// deadline, and one microsecond where none is left; without a real deadline
/// there is none. It goes out beside the metadata, which stays as it is and in
/// its order.
pub proof fn law_timeout_is_the_time_left(items: Seq<Item>, deadline_usec: i64, now: i64)
    ensures
        !(0 < deadline_usec < i64::MAX) ==> request_timeout(deadline_usec, now) is None
            && finished_items(items, deadline_usec, now) == items,
        0 < deadline_usec < i64::MAX ==> (request_timeout(deadline_usec, now) matches Some(usec) && {
            &&& 1 <= deadline_usec - now <= i64::MAX ==> usec == deadline_usec - now
            &&& deadline_usec - now < 1 ==> usec == 1
            &&& deadline_usec - now > i64::MAX ==> usec == i64::MAX
            &&& finished_items(items, deadline_usec, now).filter(
                |item: Item| item.0 == "grpc-timeout"@,
            ) == seq![("grpc-timeout"@, encode_utf8(timeout_text(usec)))]
        }),
        finished_items(items, deadline_usec, now).filter(|item: Item| item.0 != "grpc-timeout"@)
            == items.filter(|item: Item| item.0 != "grpc-timeout"@),
        timeout_fits(deadline_usec, now) <==> !(0 < deadline_usec < i64::MAX) || deadline_usec - now
            <= 359_999_999_999_999_999,
{
    let key = "grpc-timeout"@;
    let others = |item: Item| item.0 != key;
    let same = |item: Item| item.0 == key;
    assert(others =~= |item: Item| item.0 != "grpc-timeout"@);
    assert(same =~= |item: Item| item.0 == "grpc-timeout"@);
    match request_timeout(deadline_usec, now) {
        Some(usec) => law_set_item(items, key, encode_utf8(timeout_text(usec))),
        None => {},
    }
}

} // verus!

//! Metadata between PHP and the wire, and the statuses that carry it.

use crate::error::{invalid_argument, invalid_argument_view, PhpException};
use crate::text::{byte_text, lossy_text, lossy_utf8, text_eq};
use crate::value::{array_key_to_string, key_text, ArrayKey, PhpValue};
use crate::wire::{
    decode_wire, is_binary_key, metadata_items, read_items, wire_decoded, with_item, without_key,
    Item, MetadataItem,
};
use tonic::metadata::MetadataMap;
use vstd::prelude::*;
use vstd::utf8::encode_utf8;

verus! {

/// The views of a list of metadata pairs.
pub open spec fn pairs(v: Seq<(String, String)>) -> Seq<(Seq<char>, Seq<char>)> {
    v.map_values(|pair: (String, String)| (pair.0@, pair.1@))
}

// ---------------------------------------------------------------------------
// Metadata from PHP
// ---------------------------------------------------------------------------

/// A byte that a legal metadata key can hold: lower-case letters, digits,
/// `-`, `_` and `.`.
pub open spec fn legal_key_byte(b: u8) -> bool {
    97 <= b <= 122 || 48 <= b <= 57 || b == 45 || b == 95 || b == 46
}

/// A legal metadata key.
pub open spec fn legal_key(key: Seq<char>) -> bool {
    encode_utf8(key).len() > 0 && forall|i: int|
        0 <= i < encode_utf8(key).len() ==> legal_key_byte(#[trigger] encode_utf8(key)[i])
}

/// Whether a metadata key is legal by the header rules of gRPC.
pub fn header_key_is_legal(key: &str) -> (r: bool)
    ensures
        r == legal_key(key@),
{
    let bytes = key.as_bytes();
    if bytes.len() == 0 {
        return false;
    }
    let mut i: usize = 0;
    while i < bytes.len()
        invariant
            i <= bytes.len(),
            bytes@ == encode_utf8(key@),
            forall|k: int| 0 <= k < i ==> legal_key_byte(#[trigger] encode_utf8(key@)[k]),
        decreases bytes.len() - i,
    {
        let b: u8 = bytes[i];
        let legal: bool = (97 <= b && b <= 122) || (48 <= b && b <= 57) || b == 45 || b == 95 || b
            == 46;
        if !legal {
            assert(!legal_key_byte(encode_utf8(key@)[i as int]));
            return false;
        }
        i = i + 1;
    }
    true
}

/// The pairs that a list of string values gives under a key; nothing when one
/// of them is not a string.
pub open spec fn strict_values(
    key: Seq<char>,
    values: Seq<(ArrayKey, PhpValue)>,
) -> Option<Seq<(Seq<char>, Seq<char>)>>
    decreases values.len(),
{
    if values.len() == 0 {
        Some(Seq::empty())
    } else {
        match (strict_values(key, values.drop_last()), values.last().1.spec_zend_str()) {
            (Some(before), Some(bytes)) => Some(before.push((key, byte_text(bytes)))),
            _ => None,
        }
    }
}

/// The pairs of one entry of send metadata.
pub open spec fn strict_entry(key: ArrayKey, value: PhpValue) -> Option<
    Seq<(Seq<char>, Seq<char>)>,
> {
    match (key_text(key), value.spec_array()) {
        (Some(k), Some(values)) => if legal_key(k) {
            strict_values(k, values)
        } else {
            None
        },
        _ => None,
    }
}

/// The pairs of send metadata: every key a legal header key, every value a
/// list of strings; nothing for any other shape.
pub open spec fn strict_pairs(entries: Seq<(ArrayKey, PhpValue)>) -> Option<
    Seq<(Seq<char>, Seq<char>)>,
>
    decreases entries.len(),
{
    if entries.len() == 0 {
        Some(Seq::empty())
    } else {
        match (
            strict_pairs(entries.drop_last()),
            strict_entry(entries.last().0, entries.last().1),
        ) {
            (Some(before), Some(more)) => Some(before + more),
            _ => None,
        }
    }
}

proof fn lemma_strict_values_prefix(key: Seq<char>, values: Seq<(ArrayKey, PhpValue)>, n: int)
    requires
        0 <= n <= values.len(),
        strict_values(key, values.take(n)) is None,
    ensures
        strict_values(key, values) is None,
    decreases values.len() - n,
{
    if n == values.len() {
        assert(values.take(n) =~= values);
    } else {
        assert(values.take(n + 1).drop_last() =~= values.take(n));
        lemma_strict_values_prefix(key, values, n + 1);
    }
}

proof fn lemma_strict_pairs_prefix(entries: Seq<(ArrayKey, PhpValue)>, n: int)
    requires
        0 <= n <= entries.len(),
        strict_pairs(entries.take(n)) is None,
    ensures
        strict_pairs(entries) is None,
    decreases entries.len() - n,
{
    if n == entries.len() {
        assert(entries.take(n) =~= entries);
    } else {
        assert(entries.take(n + 1).drop_last() =~= entries.take(n));
        lemma_strict_pairs_prefix(entries, n + 1);
    }
}

/// Appends the pairs of one entry of send metadata; `false` for a bad entry.
fn push_strict_entry(
    key: &ArrayKey,
    value: &PhpValue,
    metadata: &mut Vec<(String, String)>,
) -> (ok: bool)
    ensures
        ok <==> strict_entry(*key, *value) is Some,
        ok ==> pairs(final(metadata)@) == pairs(old(metadata)@) + strict_entry(*key, *value)->0,
{
    let ghost before = pairs(metadata@);
    let k = match array_key_to_string(key) {
        Some(k) => k,
        None => {
            return false;
        },
    };
    if !header_key_is_legal(k.as_str()) {
        return false;
    }
    let values = match value.array() {
        Some(values) => values,
        None => {
            return false;
        },
    };
    let mut i: usize = 0;
    proof {
        assert(values@.take(0) =~= Seq::empty());
        assert(before + Seq::<(Seq<char>, Seq<char>)>::empty() =~= before);
    }
    while i < values.len()
        invariant
            i <= values.len(),
            key_text(*key) == Some(k@),
            legal_key(k@),
            value.spec_array() == Some(values@),
            strict_values(k@, values@.take(i as int)) is Some,
            pairs(metadata@) == before + strict_values(k@, values@.take(i as int))->0,
        decreases values.len() - i,
    {
        proof {
            assert(values@.take(i + 1).drop_last() =~= values@.take(i as int));
            assert(values@.take(i + 1).last() == values@[i as int]);
        }
        match values[i].1.zend_str() {
            Some(bytes) => {
                let ghost so_far = metadata@;
                let text = lossy_text(bytes.as_slice());
                metadata.push((k.clone(), text));
                proof {
                    assert(pairs(metadata@) =~= pairs(so_far).push((k@, text@)));
                    assert((before + strict_values(k@, values@.take(i as int))->0).push(
                        (k@, text@),
                    ) =~= before + strict_values(k@, values@.take(i as int))->0.push((k@, text@)));
                }
            },
            None => {
                proof {
                    lemma_strict_values_prefix(k@, values@, i + 1);
                }
                return false;
            },
        }
        i = i + 1;
    }
    assert(values@.take(i as int) =~= values@);
    true
}

/// Reads the metadata of a send-metadata operation.
///
/// The shape must be `array<string, list<string>>` with legal header keys;
/// anything else is an argument error.
pub fn parse_send_metadata(entries: &Vec<(ArrayKey, PhpValue)>) -> (r: Result<
    Vec<(String, String)>,
    PhpException,
>)
    ensures
        r is Ok <==> strict_pairs(entries@) is Some,
        r matches Ok(metadata) ==> strict_pairs(entries@) == Some(pairs(metadata@)),
        r matches Err(e) ==> e@ == invalid_argument_view("Bad metadata value given"@),
{
    let mut metadata: Vec<(String, String)> = Vec::new();
    let mut i: usize = 0;
    proof {
        assert(entries@.take(0) =~= Seq::empty());
        assert(pairs(metadata@) =~= Seq::<(Seq<char>, Seq<char>)>::empty());
    }
    while i < entries.len()
        invariant
            i <= entries.len(),
            strict_pairs(entries@.take(i as int)) == Some(pairs(metadata@)),
        decreases entries.len() - i,
    {
        proof {
            assert(entries@.take(i + 1).drop_last() =~= entries@.take(i as int));
            assert(entries@.take(i + 1).last() == entries@[i as int]);
        }
        if !push_strict_entry(&entries[i].0, &entries[i].1, &mut metadata) {
            proof {
                lemma_strict_pairs_prefix(entries@, i + 1);
            }
            return Err(invalid_argument("Bad metadata value given"));
        }
        i = i + 1;
    }
    assert(entries@.take(i as int) =~= entries@);
    Ok(metadata)
}

/// The pairs that the texts among a list of values give under a key.
pub open spec fn lenient_values(key: Seq<char>, values: Seq<(ArrayKey, PhpValue)>) -> Seq<
    (Seq<char>, Seq<char>),
>
    decreases values.len(),
{
    if values.len() == 0 {
        Seq::empty()
    } else {
        let before = lenient_values(key, values.drop_last());
        match values.last().1.spec_string() {
            Some(text) => before.push((key, text)),
            None => before,
        }
    }
}

/// The pairs of one entry of plugin metadata.
pub open spec fn lenient_entry(key: ArrayKey, value: PhpValue) -> Seq<(Seq<char>, Seq<char>)> {
    match key_text(key) {
        Some(k) => match value.spec_array() {
            Some(values) => lenient_values(k, values),
            None => match value.spec_string() {
                Some(text) => seq![(k, text)],
                None => Seq::empty(),
            },
        },
        None => Seq::empty(),
    }
}

/// The pairs of plugin metadata: a key stands for one text or for a list of
/// them, and what has another shape is passed over.
pub open spec fn lenient_pairs(entries: Seq<(ArrayKey, PhpValue)>) -> Seq<(Seq<char>, Seq<char>)>
    decreases entries.len(),
{
    if entries.len() == 0 {
        Seq::empty()
    } else {
        lenient_pairs(entries.drop_last()) + lenient_entry(entries.last().0, entries.last().1)
    }
}

fn push_lenient_entry(key: &ArrayKey, value: &PhpValue, metadata: &mut Vec<(String, String)>)
    ensures
        pairs(final(metadata)@) == pairs(old(metadata)@) + lenient_entry(*key, *value),
{
    let ghost before = pairs(metadata@);
    proof {
        assert(before + Seq::<(Seq<char>, Seq<char>)>::empty() =~= before);
    }
    let k = match array_key_to_string(key) {
        Some(k) => k,
        None => {
            return;
        },
    };
    match value.array() {
        Some(values) => {
            let mut i: usize = 0;
            proof {
                assert(values@.take(0) =~= Seq::empty());
            }
            while i < values.len()
                invariant
                    i <= values.len(),
                    pairs(metadata@) == before + lenient_values(k@, values@.take(i as int)),
                decreases values.len() - i,
            {
                proof {
                    assert(values@.take(i + 1).drop_last() =~= values@.take(i as int));
                    assert(values@.take(i + 1).last() == values@[i as int]);
                }
                match values[i].1.string() {
                    Some(text) => {
                        let ghost so_far = metadata@;
                        metadata.push((k.clone(), text));
                        proof {
                            assert(pairs(metadata@) =~= pairs(so_far).push((k@, text@)));
                            assert((before + lenient_values(k@, values@.take(i as int))).push(
                                (k@, text@),
                            ) =~= before + lenient_values(k@, values@.take(i as int)).push(
                                (k@, text@),
                            ));
                        }
                    },
                    None => {},
                }
                i = i + 1;
            }
            assert(values@.take(i as int) =~= values@);
        },
        None => match value.string() {
            Some(text) => {
                let ghost so_far = metadata@;
                metadata.push((k, text));
                proof {
                    assert(pairs(metadata@) =~= before + seq![(k@, text@)]);
                }
            },
            None => {},
        },
    }
}

/// Reads the metadata that a credentials plugin returned.
pub fn parse_metadata(entries: &Vec<(ArrayKey, PhpValue)>) -> (r: Vec<(String, String)>)
    ensures
        pairs(r@) == lenient_pairs(entries@),
{
    let mut metadata: Vec<(String, String)> = Vec::new();
    let mut i: usize = 0;
    proof {
        assert(entries@.take(0) =~= Seq::empty());
        assert(pairs(metadata@) =~= Seq::<(Seq<char>, Seq<char>)>::empty());
    }
    while i < entries.len()
        invariant
            i <= entries.len(),
            pairs(metadata@) == lenient_pairs(entries@.take(i as int)),
        decreases entries.len() - i,
    {
        proof {
            assert(entries@.take(i + 1).drop_last() =~= entries@.take(i as int));
            assert(entries@.take(i + 1).last() == entries@[i as int]);
        }
        push_lenient_entry(&entries[i].0, &entries[i].1, &mut metadata);
        i = i + 1;
    }
    assert(entries@.take(i as int) =~= entries@);
    metadata
}

// ---------------------------------------------------------------------------
// Metadata for PHP
// ---------------------------------------------------------------------------

/// Metadata as PHP sees it: each key with its values, in the order in which
/// the keys are first seen.
pub type MetadataEntries = Vec<(String, Vec<Vec<u8>>)>;

/// A key with its values.
pub type Entry = (Seq<char>, Seq<Seq<u8>>);

/// The bytes of a list of values.
pub open spec fn values_view(values: Seq<Vec<u8>>) -> Seq<Seq<u8>> {
    values.map_values(|value: Vec<u8>| value@)
}

/// The view of metadata entries.
pub open spec fn entries_view(entries: Seq<(String, Vec<Vec<u8>>)>) -> Seq<Entry> {
    entries.map_values(|entry: (String, Vec<Vec<u8>>)| (entry.0@, values_view(entry.1@)))
}

/// A byte of visible ASCII text, or a tab.
pub open spec fn visible_byte(b: u8) -> bool {
    32 <= b <= 126 || b == 9
}

/// What PHP reads of a metadata value: the bytes that a binary value stands
/// for, and a text value as it is when it is visible ASCII.
pub open spec fn readable(key: Seq<char>, wire: Seq<u8>) -> Option<Seq<u8>> {
    if is_binary_key(key) {
        wire_decoded(wire)
    } else if forall|i: int| 0 <= i < wire.len() ==> visible_byte(#[trigger] wire[i]) {
        Some(wire)
    } else {
        None
    }
}

/// The place of a key among entries: their number when it is not there.
pub open spec fn entry_position(entries: Seq<Entry>, key: Seq<char>) -> int
    decreases entries.len(),
{
    if entries.len() == 0 || entries[0].0 == key {
        0
    } else {
        1 + entry_position(entries.skip(1), key)
    }
}

/// The entries with one value more under a key.
pub open spec fn with_value(entries: Seq<Entry>, key: Seq<char>, value: Seq<u8>) -> Seq<Entry> {
    let i = entry_position(entries, key);
    if i < entries.len() {
        entries.update(i, (key, entries[i].1.push(value)))
    } else {
        entries.push((key, seq![value]))
    }
}

/// A key with what is read under it.
pub type Reading = (Seq<char>, Option<Seq<u8>>);

/// The entries that readings give.
pub open spec fn grouped(readings: Seq<Reading>) -> Seq<Entry>
    decreases readings.len(),
{
    if readings.len() == 0 {
        Seq::empty()
    } else {
        let before = grouped(readings.drop_last());
        match readings.last().1 {
            Some(value) => with_value(before, readings.last().0, value),
            None => before,
        }
    }
}

/// What is read of metadata items.
pub open spec fn readings_of(items: Seq<Item>) -> Seq<Reading> {
    items.map_values(|item: Item| (item.0, readable(item.0, item.1)))
}

/// The entries that metadata items give.
pub open spec fn collected(items: Seq<Item>) -> Seq<Entry> {
    grouped(readings_of(items))
}

/// The views of a list of readings.
pub open spec fn readings_view(list: Seq<(String, Option<Vec<u8>>)>) -> Seq<Reading> {
    list.map_values(
        |reading: (String, Option<Vec<u8>>)|
            (
                reading.0@,
                match reading.1 {
                    Some(value) => Some(value@),
                    None => None,
                },
            ),
    )
}

proof fn lemma_entry_position(entries: Seq<Entry>, key: Seq<char>)
    ensures
        0 <= entry_position(entries, key) <= entries.len(),
        forall|i: int|
            0 <= i < entry_position(entries, key) ==> (#[trigger] entries[i]).0 != key,
        entry_position(entries, key) < entries.len() ==> entries[entry_position(
            entries,
            key,
        )].0 == key,
    decreases entries.len(),
{
    if entries.len() > 0 && entries[0].0 != key {
        let rest = entries.skip(1);
        lemma_entry_position(rest, key);
        assert forall|i: int| 0 <= i < entry_position(entries, key) implies (
        #[trigger] entries[i]).0 != key by {
            if i > 0 {
                assert(rest[i - 1] == entries[i]);
            }
        }
    }
}

/// Whether a value is visible ASCII.
fn is_visible(wire: &Vec<u8>) -> (r: bool)
    ensures
        r == (forall|i: int| 0 <= i < wire@.len() ==> visible_byte(#[trigger] wire@[i])),
{
    let mut i: usize = 0;
    while i < wire.len()
        invariant
            i <= wire.len(),
            forall|k: int| 0 <= k < i ==> visible_byte(#[trigger] wire@[k]),
        decreases wire.len() - i,
    {
        let b: u8 = wire[i];
        if !((32 <= b && b <= 126) || b == 9) {
            assert(!visible_byte(wire@[i as int]));
            return false;
        }
        i = i + 1;
    }
    true
}

/// What PHP reads of a metadata item.
fn read_value(item: &MetadataItem) -> (r: Option<Vec<u8>>)
    requires
        item.binary == is_binary_key(item.key@),
    ensures
        r is Some <==> readable(item.key@, item.wire@) is Some,
        r matches Some(value) ==> readable(item.key@, item.wire@) == Some(value@),
{
    if item.binary {
        decode_wire(item.wire.as_slice())
    } else if is_visible(&item.wire) {
        Some(item.wire.clone())
    } else {
        None
    }
}

/// Puts a value under a key.
fn push_value(entries: &mut MetadataEntries, key: &String, value: Vec<u8>)
    ensures
        entries_view(final(entries)@) == with_value(entries_view(old(entries)@), key@, value@),
{
    let ghost before = entries@;
    let ghost view = entries_view(before);
    let mut i: usize = 0;
    proof {
        lemma_entry_position(view, key@);
    }
    while i < entries.len()
        invariant
            i <= entries.len(),
            entries@ == before,
            view == entries_view(before),
            0 <= entry_position(view, key@) <= view.len(),
            entry_position(view, key@) < view.len() ==> view[entry_position(view, key@)].0
                == key@,
            forall|k: int| 0 <= k < entry_position(view, key@) ==> (#[trigger] view[k]).0 != key@,
            forall|k: int| 0 <= k < i ==> (#[trigger] view[k]).0 != key@,
        ensures
            entries@ == before,
            i < entries.len() ==> view[i as int].0 == key@,
            i <= entries.len(),
            forall|k: int| 0 <= k < i ==> (#[trigger] view[k]).0 != key@,
        decreases entries.len() - i,
    {
        assert(view[i as int].0 == entries@[i as int].0@);
        if text_eq(entries[i].0.as_str(), key.as_str()) {
            break;
        }
        i = i + 1;
    }
    if i < entries.len() {
        assert(entry_position(view, key@) == i);
        entries[i].1.push(value);
        proof {
            assert(values_view(entries@[i as int].1@) =~= values_view(before[i as int].1@).push(
                value@,
            ));
            assert(entries_view(entries@) =~= with_value(view, key@, value@));
        }
    } else {
        let mut values: Vec<Vec<u8>> = Vec::new();
        values.push(value);
        entries.push((key.clone(), values));
        proof {
            assert(values_view(values@) =~= seq![value@]);
            assert(entries_view(entries@) =~= with_value(view, key@, value@));
        }
    }
}

/// Gathers readings into entries.
pub fn group_values(readings: Vec<(String, Option<Vec<u8>>)>) -> (r: MetadataEntries)
    ensures
        entries_view(r@) == grouped(readings_view(readings@)),
{
    let ghost all = readings_view(readings@);
    let mut entries: MetadataEntries = Vec::new();
    let mut i: usize = 0;
    proof {
        assert(all.take(0) =~= Seq::empty());
        assert(entries_view(entries@) =~= Seq::<Entry>::empty());
    }
    while i < readings.len()
        invariant
            i <= readings.len(),
            all == readings_view(readings@),
            entries_view(entries@) == grouped(all.take(i as int)),
        decreases readings.len() - i,
    {
        proof {
            assert(all.take(i + 1).drop_last() =~= all.take(i as int));
            assert(all.take(i + 1).last() == all[i as int]);
        }
        match &readings[i].1 {
            Some(value) => push_value(&mut entries, &readings[i].0, value.clone()),
            None => {},
        }
        i = i + 1;
    }
    assert(all.take(i as int) =~= all);
    entries
}

/// Collects a metadata map into entries.
///
/// The order of the map is kept, values that share a key are gathered, binary
/// values are decoded, and a value that cannot be read is left out.
pub fn collect_metadata(map: &MetadataMap) -> (r: MetadataEntries)
    ensures
        entries_view(r@) == collected(metadata_items(*map)),
{
    let items = read_items(map);
    let mut readings: Vec<(String, Option<Vec<u8>>)> = Vec::new();
    let mut i: usize = 0;
    let ghost all = metadata_items(*map);
    assert(readings_view(readings@) =~= readings_of(all.take(0)));
    while i < items.len()
        invariant
            i <= items.len(),
            items@.len() == all.len(),
            forall|k: int|
                0 <= k < items@.len() ==> (#[trigger] items@[k]).key@ == all[k].0
                    && items@[k].wire@ == all[k].1 && items@[k].binary == is_binary_key(all[k].0),
            readings_view(readings@) == readings_of(all.take(i as int)),
        decreases items.len() - i,
    {
        let ghost before = readings@;
        let value = read_value(&items[i]);
        readings.push((items[i].key.clone(), value));
        proof {
            let next = (all[i as int].0, readable(all[i as int].0, all[i as int].1));
            assert(readings_view(readings@) =~= readings_view(before).push(next));
            assert(readings_of(all.take(i + 1)) =~= readings_of(all.take(i as int)).push(next));
        }
        i = i + 1;
    }
    assert(all.take(i as int) =~= all);
    group_values(readings)
}

/// The headers of the protocol itself.
pub open spec fn reserved(key: Seq<char>) -> bool {
    ||| key == "content-type"@
    ||| key == "grpc-status"@
    ||| key == "grpc-message"@
    ||| key == "grpc-encoding"@
    ||| key == "grpc-accept-encoding"@
}

/// Whether a header belongs to the protocol and is not shown to PHP.
pub fn is_reserved_header(key: &str) -> (r: bool)
    ensures
        r == reserved(key@),
{
    text_eq(key, "content-type") || text_eq(key, "grpc-status") || text_eq(key, "grpc-message")
        || text_eq(key, "grpc-encoding") || text_eq(key, "grpc-accept-encoding")
}

/// The entries that are shown to PHP: all but the reserved ones.
pub open spec fn shown(entries: Seq<Entry>) -> Seq<Entry> {
    entries.filter(|entry: Entry| !reserved(entry.0))
}

/// The entries that PHP sees of metadata items.
pub open spec fn php_entries(items: Seq<Item>) -> Seq<Entry> {
    shown(collected(items))
}

/// The metadata of a map as PHP sees it.
pub fn metadata_to_php(map: &MetadataMap) -> (r: MetadataEntries)
    ensures
        entries_view(r@) == php_entries(metadata_items(*map)),
{
    let entries = collect_metadata(map);
    let ghost all = entries_view(entries@);
    let ghost keep = |entry: Entry| !reserved(entry.0);
    let mut shown: MetadataEntries = Vec::new();
    let mut i: usize = 0;
    proof {
        assert(all.take(0) =~= Seq::empty());
        assert(entries_view(shown@) =~= Seq::<Entry>::empty());
        reveal(Seq::filter);
    }
    while i < entries.len()
        invariant
            i <= entries.len(),
            all == entries_view(entries@),
            keep == (|entry: Entry| !reserved(entry.0)),
            entries_view(shown@) == all.take(i as int).filter(keep),
        decreases entries.len() - i,
    {
        proof {
            reveal(Seq::filter);
            assert(all.take(i + 1).drop_last() =~= all.take(i as int));
            assert(all.take(i + 1).last() == all[i as int]);
        }
        if !is_reserved_header(entries[i].0.as_str()) {
            let ghost so_far = shown@;
            let values = clone_values(&entries[i].1);
            shown.push((entries[i].0.clone(), values));
            proof {
                assert(entries_view(shown@) =~= entries_view(so_far).push(all[i as int]));
            }
        }
        i = i + 1;
    }
    assert(all.take(i as int) =~= all);
    shown
}

/// A copy of a list of values.
fn clone_values(values: &Vec<Vec<u8>>) -> (r: Vec<Vec<u8>>)
    ensures
        values_view(r@) == values_view(values@),
{
    let mut copy: Vec<Vec<u8>> = Vec::new();
    let mut i: usize = 0;
    while i < values.len()
        invariant
            i <= values.len(),
            values_view(copy@) == values_view(values@).take(i as int),
        decreases values.len() - i,
    {
        let ghost so_far = copy@;
        copy.push(values[i].clone());
        proof {
            assert(values_view(copy@) =~= values_view(so_far).push(values@[i as int]@));
            assert(values_view(values@).take(i + 1) =~= values_view(values@).take(i as int).push(
                values@[i as int]@,
            ));
        }
        i = i + 1;
    }
    assert(values_view(values@).take(i as int) =~= values_view(values@));
    copy
}

// ---------------------------------------------------------------------------
// Laws
// ---------------------------------------------------------------------------

/// The values that stand under a key, as they are on the wire.
pub open spec fn item_values(items: Seq<Item>, key: Seq<char>) -> Seq<Seq<u8>>
    decreases items.len(),
{
    if items.len() == 0 {
        Seq::empty()
    } else {
        let before = item_values(items.drop_last(), key);
        if items.last().0 == key {
            before.push(items.last().1)
        } else {
            before
        }
    }
}

/// What PHP reads of the values under a key.
pub open spec fn read_all(key: Seq<char>, wires: Seq<Seq<u8>>) -> Seq<Seq<u8>>
    decreases wires.len(),
{
    if wires.len() == 0 {
        Seq::empty()
    } else {
        let before = read_all(key, wires.drop_last());
        match readable(key, wires.last()) {
            Some(value) => before.push(value),
            None => before,
        }
    }
}

/// The values that entries hold under a key: none when the key is not there.
pub open spec fn values_under(entries: Seq<Entry>, key: Seq<char>) -> Seq<Seq<u8>> {
    let i = entry_position(entries, key);
    if i < entries.len() {
        entries[i].1
    } else {
        Seq::empty()
    }
}

/// The keys of entries, in their order.
pub open spec fn entry_keys(entries: Seq<Entry>) -> Seq<Seq<char>> {
    entries.map_values(|entry: Entry| entry.0)
}

/// The keys with a readable value, in the order in which each first has one.
pub open spec fn first_seen_keys(items: Seq<Item>) -> Seq<Seq<char>>
    decreases items.len(),
{
    if items.len() == 0 {
        Seq::empty()
    } else {
        let before = first_seen_keys(items.drop_last());
        if readable(items.last().0, items.last().1) is Some && !before.contains(items.last().0) {
            before.push(items.last().0)
        } else {
            before
        }
    }
}

proof fn lemma_position_of(entries: Seq<Entry>, key: Seq<char>)
    ensures
        entry_position(entries, key) < entries.len() <==> entry_keys(entries).contains(key),
{
    lemma_entry_position(entries, key);
    let keys = entry_keys(entries);
    let i = entry_position(entries, key);
    if i < entries.len() {
        assert(keys[i] == key);
    }
    if keys.contains(key) {
        let j = choose|j: int| 0 <= j < keys.len() && keys[j] == key;
        assert(entries[j].0 == key);
    }
}

proof fn lemma_values_after_push(entries: Seq<Entry>, entry: Entry, key: Seq<char>)
    ensures
        values_under(entries.push(entry), key) == if entry_keys(entries).contains(key) {
            values_under(entries, key)
        } else if entry.0 == key {
            entry.1
        } else {
            Seq::empty()
        },
{
    let more = entries.push(entry);
    lemma_entry_position(entries, key);
    lemma_entry_position(more, key);
    lemma_position_of(entries, key);
    let i = entry_position(entries, key);
    let j = entry_position(more, key);
    if i < entries.len() {
        assert(more[i].0 == key);
        assert(j <= i);
        assert(more[j].0 == entries[j].0);
        assert(j == i);
    } else {
        if j < entries.len() {
            assert(more[j].0 == entries[j].0);
        }
        assert(more[entries.len() as int] == entry);
    }
}

proof fn lemma_values_after_update(
    entries: Seq<Entry>,
    key: Seq<char>,
    values: Seq<Seq<u8>>,
    other: Seq<char>,
)
    requires
        entry_position(entries, key) < entries.len(),
    ensures
        values_under(entries.update(entry_position(entries, key), (key, values)), other)
            == if other == key {
            values
        } else {
            values_under(entries, other)
        },
        entry_keys(entries.update(entry_position(entries, key), (key, values))) == entry_keys(
            entries,
        ),
{
    lemma_entry_position(entries, key);
    lemma_entry_position(entries, other);
    let i = entry_position(entries, key);
    let more = entries.update(i, (key, values));
    lemma_entry_position(more, other);
    let a = entry_position(entries, other);
    let b = entry_position(more, other);
    assert(forall|k: int|
        0 <= k < entries.len() ==> (#[trigger] more[k]).0 == (#[trigger] entries[k]).0);
    assert(a == b) by {
        if a < b {
            assert(more[a].0 == entries[a].0);
        }
        if b < a {
            assert(more[b].0 == entries[b].0);
        }
    }
    assert(entry_keys(more) =~= entry_keys(entries));
}

/// Metadata reaches PHP whole and in order: no key comes twice, the keys come
/// in the order in which each first has a readable value, and under each key
/// stand its readable values in the order of the map.
pub proof fn law_collected_metadata(items: Seq<Item>, key: Seq<char>)
    ensures
        entry_keys(collected(items)).no_duplicates(),
        entry_keys(collected(items)) == first_seen_keys(items),
        values_under(collected(items), key) == read_all(key, item_values(items, key)),
    decreases items.len(),
{
    if items.len() > 0 {
        law_collected_metadata(items.drop_last(), key);
        assert(readings_of(items).drop_last() =~= readings_of(items.drop_last()));
        let before = collected(items.drop_last());
        let (k, wire) = items.last();
        let wires = item_values(items.drop_last(), key);
        assert(wires.push(wire).drop_last() =~= wires);
        if readable(k, wire) is Some {
            let value = readable(k, wire)->0;
            lemma_position_of(before, k);
            lemma_entry_position(before, k);
            let i = entry_position(before, k);
            if i < before.len() {
                lemma_values_after_update(before, k, before[i].1.push(value), key);
            } else {
                lemma_values_after_push(before, (k, seq![value]), key);
                lemma_position_of(before, key);
                assert(entry_keys(before.push((k, seq![value]))) =~= entry_keys(before).push(k));
                assert(Seq::<Seq<u8>>::empty().push(value) =~= seq![value]);
            }
        }
    } else {
        assert(entry_keys(Seq::<Entry>::empty()) =~= Seq::<Seq<char>>::empty());
    }
}

proof fn lemma_shown_values(entries: Seq<Entry>, key: Seq<char>)
    requires
        entry_keys(entries).no_duplicates(),
    ensures
        values_under(shown(entries), key) == if reserved(key) {
            Seq::empty()
        } else {
            values_under(entries, key)
        },
        entry_keys(shown(entries)).no_duplicates(),
        forall|k: Seq<char>| #[trigger]
            entry_keys(shown(entries)).contains(k) <==> (
            entry_keys(entries).contains(k) && !reserved(k)),
    decreases entries.len(),
{
    reveal(Seq::filter);
    if entries.len() > 0 {
        let before = entries.drop_last();
        let last = entries.last();
        assert(entry_keys(before) =~= entry_keys(entries).drop_last());
        lemma_shown_values(before, key);
        assert(before.push(last) =~= entries);
        assert(entry_keys(entries) =~= entry_keys(before).push(last.0));
        lemma_values_after_push(before, last, key);
        lemma_values_after_push(shown(before), last, key);
        lemma_position_of(before, key);
        lemma_position_of(shown(before), key);
        let kept = shown(before);
        assert(entry_keys(kept.push(last)) =~= entry_keys(kept).push(last.0));
        assert(entry_keys(entries)[entries.len() - 1] == last.0);
        assert(!entry_keys(before).contains(last.0)) by {
            if entry_keys(before).contains(last.0) {
                let j = choose|j: int|
                    0 <= j < before.len() && entry_keys(before)[j] == last.0;
                assert(entry_keys(entries)[j] == last.0);
            }
        }
        assert(!entry_keys(kept).contains(last.0));
        assert(entry_keys(kept).push(last.0).no_duplicates()) by {
            let more = entry_keys(kept).push(last.0);
            assert forall|i: int, j: int| 0 <= i < more.len() && 0 <= j < more.len() && i != j
                implies more[i] != more[j] by {
                if i == kept.len() {
                    assert(entry_keys(kept)[j] == more[j]);
                } else if j == kept.len() {
                    assert(entry_keys(kept)[i] == more[i]);
                }
            }
        }
        assert forall|k: Seq<char>| #[trigger]
            entry_keys(shown(entries)).contains(k) <==> (entry_keys(entries).contains(k)
                && !reserved(k)) by {
            lemma_contains_push(entry_keys(before), last.0, k);
            lemma_contains_push(entry_keys(kept), last.0, k);
            assert(entry_keys(kept).contains(k) <==> (entry_keys(before).contains(k) && !reserved(
                k,
            )));
        }
    } else {
        assert(shown(entries) =~= Seq::<Entry>::empty());
        assert(entry_keys(Seq::<Entry>::empty()) =~= Seq::<Seq<char>>::empty());
    }
}

proof fn lemma_contains_push(keys: Seq<Seq<char>>, last: Seq<char>, key: Seq<char>)
    ensures
        keys.push(last).contains(key) <==> keys.contains(key) || key == last,
{
    if keys.contains(key) {
        let j = choose|j: int| 0 <= j < keys.len() && keys[j] == key;
        assert(keys.push(last)[j] == key);
    }
    assert(keys.push(last)[keys.len() as int] == last);
}

/// PHP sees every readable value but those of the protocol's own headers:
/// under a reserved key there is nothing, under any other key all the
/// readable values in the order of the map, and no key comes twice.
pub proof fn law_shown_metadata(items: Seq<Item>, key: Seq<char>)
    ensures
        values_under(php_entries(items), key) == if reserved(key) {
            Seq::empty()
        } else {
            read_all(key, item_values(items, key))
        },
        entry_keys(php_entries(items)).no_duplicates(),
        reserved(key) ==> !entry_keys(php_entries(items)).contains(key),
{
    law_collected_metadata(items, key);
    lemma_shown_values(collected(items), key);
}

proof fn lemma_item_values_concat(a: Seq<Item>, b: Seq<Item>, key: Seq<char>)
    ensures
        item_values(a + b, key) == item_values(a, key) + item_values(b, key),
    decreases b.len(),
{
    if b.len() == 0 {
        assert(a + b =~= a);
    } else {
        assert((a + b).drop_last() =~= a + b.drop_last());
        lemma_item_values_concat(a, b.drop_last(), key);
        assert(item_values(a, key) + item_values(b, key) =~= if b.last().0 == key {
            (item_values(a, key) + item_values(b.drop_last(), key)).push(b.last().1)
        } else {
            item_values(a, key) + item_values(b.drop_last(), key)
        });
    }
}

proof fn lemma_item_values_single(item: Item, key: Seq<char>)
    ensures
        item_values(seq![item], key) == if item.0 == key {
            seq![item.1]
        } else {
            Seq::empty()
        },
{
    let items = seq![item];
    assert(items.drop_last() =~= Seq::<Item>::empty());
    assert(items.last() == item);
    assert(item_values(items.drop_last(), key) =~= Seq::<Seq<u8>>::empty());
    assert(Seq::<Seq<u8>>::empty().push(item.1) =~= seq![item.1]);
}

proof fn lemma_without_key(items: Seq<Item>, key: Seq<char>, other: Seq<char>)
    ensures
        item_values(without_key(items, key), other) == if other == key {
            Seq::empty()
        } else {
            item_values(items, other)
        },
    decreases items.len(),
{
    reveal(Seq::filter);
    if items.len() > 0 {
        lemma_without_key(items.drop_last(), key, other);
        let before = without_key(items.drop_last(), key);
        assert(before.push(items.last()).drop_last() =~= before);
    }
}

/// Setting a value under a key leaves that value alone there, and changes
/// nothing under any other key.
pub proof fn law_set_value(items: Seq<Item>, key: Seq<char>, wire: Seq<u8>, other: Seq<char>)
    ensures
        item_values(with_item(items, key, wire), other) == if other == key {
            seq![wire]
        } else {
            item_values(items, other)
        },
    decreases items.len(),
{
    lemma_item_values_single((key, wire), other);
    if items.len() > 0 {
        lemma_item_values_single(items[0], other);
        lemma_item_values_concat(seq![items[0]], items.skip(1), other);
        assert(seq![items[0]] + items.skip(1) =~= items);
        if items[0].0 == key {
            lemma_item_values_concat(
                seq![(key, wire)],
                without_key(items.skip(1), key),
                other,
            );
            lemma_without_key(items.skip(1), key, other);
            assert(seq![wire] + Seq::<Seq<u8>>::empty() =~= seq![wire]);
            assert(Seq::<Seq<u8>>::empty() + item_values(items.skip(1), other) =~= item_values(
                items.skip(1),
                other,
            ));
        } else {
            law_set_value(items.skip(1), key, wire, other);
            lemma_item_values_concat(
                seq![items[0]],
                with_item(items.skip(1), key, wire),
                other,
            );
            assert(Seq::<Seq<u8>>::empty() + seq![wire] =~= seq![wire]);
        }
    }
}

/// A list of pairs, and a list of entries, hold the texts and the bytes that
/// the library's own lists hold, one for one.
pub proof fn law_metadata_lists_are_seen_whole(
    list: Seq<(String, String)>,
    entries: Seq<(String, Vec<Vec<u8>>)>,
    i: int,
    j: int,
)
    ensures
        pairs(list).len() == list.len(),
        0 <= i < list.len() ==> pairs(list)[i] == (list[i].0@, list[i].1@),
        entries_view(entries).len() == entries.len(),
        0 <= i < entries.len() ==> entries_view(entries)[i].0 == entries[i].0@
            && entries_view(entries)[i].1.len() == entries[i].1@.len(),
        0 <= i < entries.len() && 0 <= j < entries[i].1@.len() ==> entries_view(entries)[i].1[j]
            == entries[i].1@[j]@,
{
}

/// A metadata key is legal when it is not empty and every character of it is a
/// small letter, a digit, a hyphen, an underscore or a dot.
pub proof fn law_legal_keys(key: Seq<char>)
    ensures
        legal_key(key) <==> key.len() > 0 && forall|i: int|
            0 <= i < key.len() ==> 'a' <= #[trigger] key[i] <= 'z' || '0' <= key[i] <= '9'
                || key[i] == '-' || key[i] == '_' || key[i] == '.',
{
    let bytes = encode_utf8(key);
    if legal_key(key) {
        assert forall|i: int| 0 <= i < bytes.len() implies #[trigger] bytes[i] < 128 by {
            assert(legal_key_byte(bytes[i]));
        }
        crate::text::lemma_ascii_text(key);
        assert forall|i: int| 0 <= i < key.len() implies 'a' <= #[trigger] key[i] <= 'z' || '0'
            <= key[i] <= '9' || key[i] == '-' || key[i] == '_' || key[i] == '.' by {
            assert(legal_key_byte(bytes[i]));
            assert(bytes[i] as char == key[i]);
        }
    }
    if key.len() > 0 && forall|i: int|
        0 <= i < key.len() ==> 'a' <= #[trigger] key[i] <= 'z' || '0' <= key[i] <= '9' || key[i]
            == '-' || key[i] == '_' || key[i] == '.' {
        assert(vstd::utf8::is_ascii_chars(key));
        vstd::utf8::is_ascii_chars_encode_utf8(key);
        assert forall|i: int| 0 <= i < bytes.len() implies legal_key_byte(#[trigger] bytes[i]) by {
            assert(bytes[i] == key[i] as u8);
        }
    }
}

/// Whether every member of a list is a string.
pub open spec fn all_strings(values: Seq<(ArrayKey, PhpValue)>) -> bool {
    forall|i: int| 0 <= i < values.len() ==> (#[trigger] values[i]).1 is Str
}

proof fn lemma_strict_values(key: Seq<char>, values: Seq<(ArrayKey, PhpValue)>)
    ensures
        strict_values(key, values) is Some <==> all_strings(values),
        strict_values(key, values) matches Some(list) ==> list.len() == values.len() && forall|
            i: int,
        |
            0 <= i < list.len() ==> #[trigger] list[i] == (key, byte_text(
                values[i].1.spec_zend_str()->0,
            )),
    decreases values.len(),
{
    if values.len() > 0 {
        let before = values.drop_last();
        lemma_strict_values(key, before);
        if all_strings(values) {
            assert forall|i: int| 0 <= i < before.len() implies (#[trigger] before[i]).1 is Str by {
                assert(before[i] == values[i]);
            }
            assert(values[values.len() - 1].1 is Str);
        }
        if strict_values(key, values) is Some {
            assert forall|i: int| 0 <= i < values.len() implies (#[trigger] values[i]).1 is Str by {
                if i < before.len() {
                    assert(before[i] == values[i]);
                }
            }
            let list = strict_values(key, values)->0;
            assert forall|i: int| 0 <= i < list.len() implies #[trigger] list[i] == (
                key,
                byte_text(values[i].1.spec_zend_str()->0),
            ) by {
                if i < before.len() {
                    assert(list[i] == strict_values(key, before)->0[i]);
                    assert(before[i] == values[i]);
                }
            }
        }
    }
}

/// The metadata of a call under one key goes out whole: a legal key with a list
/// of strings gives one pair for each member, in the order of the list, with the
/// key as it is and with the text whose bytes are those of the member, of
/// whatever length, where they are UTF-8, and the text that stands for them where
/// they are not. Any other shape is refused.
pub proof fn law_sent_entry_is_whole(key: ArrayKey, value: PhpValue)
    ensures
        strict_pairs(seq![(key, value)]) is Some <==> (key_text(key) matches Some(k) && legal_key(
            k,
        )) && (value matches PhpValue::Array(values) && all_strings(values@)),
        strict_pairs(seq![(key, value)]) matches Some(list) ==> (value matches PhpValue::Array(
            values,
        ) && list.len() == values@.len() && forall|i: int|
            #![trigger list[i]]
            0 <= i < list.len() ==> Some(list[i].0) == key_text(key) && (
            values@[i].1 matches PhpValue::Str(bytes) && (vstd::utf8::valid_utf8(bytes@)
                ==> encode_utf8(list[i].1) == bytes@) && (!vstd::utf8::valid_utf8(bytes@)
                ==> list[i].1 == lossy_utf8(bytes@)))),
{
    let one = seq![(key, value)];
    assert(one.drop_last() =~= Seq::<(ArrayKey, PhpValue)>::empty());
    assert(one.last() == (key, value));
    reveal_with_fuel(strict_pairs, 2);
    match (key_text(key), value) {
        (Some(k), PhpValue::Array(values)) => {
            lemma_strict_values(k, values@);
            if strict_pairs(one) is Some {
                let list = strict_pairs(one)->0;
                assert(list =~= strict_values(k, values@)->0);
                assert forall|i: int| #![trigger list[i]] 0 <= i < list.len() implies Some(
                    list[i].0,
                ) == key_text(key) && (values@[i].1 matches PhpValue::Str(bytes) && (
                vstd::utf8::valid_utf8(bytes@) ==> encode_utf8(list[i].1) == bytes@) && (
                !vstd::utf8::valid_utf8(bytes@) ==> list[i].1 == lossy_utf8(bytes@))) by {
                    let bytes = values@[i].1.spec_zend_str()->0;
                    if vstd::utf8::valid_utf8(bytes) {
                        crate::text::law_utf8_is_read_as_it_is(bytes);
                    }
                    assert(values@[i].1 is Str);
                }
            }
        },
        _ => {},
    }
}

/// The metadata of a call is that of its entries one after another: it is
/// refused where one of them is, and otherwise the pairs of the later entries
/// come behind those of the earlier ones, none of them lost.
pub proof fn law_sent_metadata_is_that_of_its_entries(
    a: Seq<(ArrayKey, PhpValue)>,
    b: Seq<(ArrayKey, PhpValue)>,
)
    ensures
        strict_pairs(a + b) == match (strict_pairs(a), strict_pairs(b)) {
            (Some(x), Some(y)) => Some(x + y),
            _ => None,
        },
        strict_pairs(Seq::empty()) == Some(Seq::<(Seq<char>, Seq<char>)>::empty()),
    decreases b.len(),
{
    if b.len() == 0 {
        assert(a + b =~= a);
        match strict_pairs(a) {
            Some(x) => assert(x + Seq::<(Seq<char>, Seq<char>)>::empty() =~= x),
            None => {},
        }
    } else {
        assert((a + b).drop_last() =~= a + b.drop_last());
        assert((a + b).last() == b.last());
        law_sent_metadata_is_that_of_its_entries(a, b.drop_last());
        match (
            strict_pairs(a),
            strict_pairs(b.drop_last()),
            strict_entry(b.last().0, b.last().1),
        ) {
            (Some(x), Some(y), Some(z)) => assert(x + (y + z) =~= x + y + z),
            _ => {},
        }
    }
}

/// Whether a member of a list is a text.
pub open spec fn is_text(member: (ArrayKey, PhpValue)) -> bool {
    member.1 matches PhpValue::Str(bytes) && vstd::utf8::valid_utf8(bytes@)
}

/// The bytes of a string.
pub open spec fn bytes_in(member: (ArrayKey, PhpValue)) -> Seq<u8> {
    match member.1 {
        PhpValue::Str(bytes) => bytes@,
        _ => Seq::empty(),
    }
}

proof fn lemma_lenient_values(key: Seq<char>, values: Seq<(ArrayKey, PhpValue)>)
    ensures
        lenient_values(key, values).len() == values.filter(
            |member: (ArrayKey, PhpValue)| is_text(member),
        ).len(),
        forall|i: int|
            #![trigger lenient_values(key, values)[i]]
            0 <= i < lenient_values(key, values).len() ==> lenient_values(key, values)[i].0 == key
                && encode_utf8(lenient_values(key, values)[i].1) == bytes_in(
                values.filter(|member: (ArrayKey, PhpValue)| is_text(member))[i],
            ),
    decreases values.len(),
{
    reveal(Seq::filter);
    let f = |member: (ArrayKey, PhpValue)| is_text(member);
    if values.len() > 0 {
        let before = values.drop_last();
        lemma_lenient_values(key, before);
        let last = values.last();
        crate::value::law_values_are_read_as_given(last.1);
        let list = lenient_values(key, values);
        assert(f(last) == is_text(last));
        assert forall|i: int| #![trigger list[i]] 0 <= i < list.len() implies list[i].0 == key
            && encode_utf8(list[i].1) == bytes_in(values.filter(f)[i]) by {
            if i < lenient_values(key, before).len() {
                assert(list[i] == lenient_values(key, before)[i]);
                assert(values.filter(f)[i] == before.filter(f)[i]);
            }
        }
    }
}

/// What a plugin gives under one key goes out whole. A string that is UTF-8
/// gives one pair, the key with the text of exactly these bytes; a list gives
/// one for each of its texts, in the order of the list and as many as there are,
/// whether the list has one member or many. Anything else gives none.
pub proof fn law_plugin_entry_is_whole(key: ArrayKey, value: PhpValue)
    ensures
        key_text(key) is None ==> lenient_pairs(seq![(key, value)]).len() == 0,
        key_text(key) matches Some(k) ==> ({
            let list = lenient_pairs(seq![(key, value)]);
            match value {
                PhpValue::Str(bytes) => if vstd::utf8::valid_utf8(bytes@) {
                    list.len() == 1 && list[0].0 == k && encode_utf8(list[0].1) == bytes@
                } else {
                    list.len() == 0
                },
                PhpValue::Array(values) => {
                    let members = values@.filter(
                        |member: (ArrayKey, PhpValue)| is_text(member),
                    );
                    list.len() == members.len() && forall|i: int|
                        #![trigger list[i]]
                        0 <= i < list.len() ==> list[i].0 == k && encode_utf8(list[i].1)
                            == bytes_in(members[i])
                },
                _ => list.len() == 0,
            }
        }),
{
    let one = seq![(key, value)];
    assert(one.drop_last() =~= Seq::<(ArrayKey, PhpValue)>::empty());
    assert(one.last() == (key, value));
    reveal_with_fuel(lenient_pairs, 2);
    assert(lenient_pairs(one) =~= lenient_entry(key, value));
    crate::value::law_values_are_read_as_given(value);
    match (key_text(key), value) {
        (Some(k), PhpValue::Array(values)) => lemma_lenient_values(k, values@),
        _ => {},
    }
}

/// What a plugin gives is what its entries give one after another: the pairs of
/// the later entries come behind those of the earlier ones, none of them lost.
pub proof fn law_plugin_metadata_is_that_of_its_entries(
    a: Seq<(ArrayKey, PhpValue)>,
    b: Seq<(ArrayKey, PhpValue)>,
)
    ensures
        lenient_pairs(a + b) == lenient_pairs(a) + lenient_pairs(b),
        lenient_pairs(Seq::empty()) == Seq::<(Seq<char>, Seq<char>)>::empty(),
    decreases b.len(),
{
    if b.len() == 0 {
        assert(a + b =~= a);
        assert(lenient_pairs(a) + Seq::<(Seq<char>, Seq<char>)>::empty() =~= lenient_pairs(a));
    } else {
        assert((a + b).drop_last() =~= a + b.drop_last());
        assert((a + b).last() == b.last());
        law_plugin_metadata_is_that_of_its_entries(a, b.drop_last());
        let x = lenient_pairs(a);
        let y = lenient_pairs(b.drop_last());
        let z = lenient_entry(b.last().0, b.last().1);
        assert(x + (y + z) =~= x + y + z);
    }
}

/// Whether a pair with this key and a text of these bytes is among pairs.
pub open spec fn has_pair(
    list: Seq<(Seq<char>, Seq<char>)>,
    key: Seq<char>,
    bytes: Seq<u8>,
) -> bool {
    exists|i: int|
        0 <= i < list.len() && (#[trigger] list[i]).0 == key && encode_utf8(list[i].1) == bytes
}

/// Nothing that a plugin gives is lost, whatever else it gives: every text that
/// stands under a string key, alone or as a member of a list, of whatever length
/// the text and the list are, is among the pairs under that key.
pub proof fn law_plugin_metadata_is_not_lost(
    entries: Seq<(ArrayKey, PhpValue)>,
    i: int,
    key: Seq<char>,
    bytes: Vec<u8>,
    values: Vec<(ArrayKey, PhpValue)>,
    j: int,
)
    requires
        0 <= i < entries.len(),
        key_text(entries[i].0) == Some(key),
        vstd::utf8::valid_utf8(bytes@),
    ensures
        entries[i].1 == PhpValue::Str(bytes) ==> has_pair(lenient_pairs(entries), key, bytes@),
        entries[i].1 == PhpValue::Array(values) && 0 <= j < values@.len() && values@[j].1
            == PhpValue::Str(bytes) ==> has_pair(lenient_pairs(entries), key, bytes@),
{
    let (k, v) = entries[i];
    let one = seq![(k, v)];
    let before = entries.take(i);
    let after = entries.skip(i + 1);
    assert(entries =~= before + one + after);
    law_plugin_metadata_is_that_of_its_entries(before, one);
    law_plugin_metadata_is_that_of_its_entries(before + one, after);
    law_plugin_entry_is_whole(k, v);
    let list = lenient_pairs(one);
    let all = lenient_pairs(entries);
    let at = lenient_pairs(before).len() as int;
    assert forall|n: int| 0 <= n < list.len() implies all[at + n] == #[trigger] list[n] by {}
    if v == PhpValue::Str(bytes) {
        assert(all[at] == list[0]);
    }
    if v == PhpValue::Array(values) && 0 <= j < values@.len() && values@[j].1 == PhpValue::Str(
        bytes,
    ) {
        let f = |member: (ArrayKey, PhpValue)| is_text(member);
        let members = values@.filter(f);
        assert(f(values@[j]));
        values@.lemma_filter_contains(f, j);
        let n = choose|n: int| 0 <= n < members.len() && members[n] == values@[j];
        assert(list[n].0 == key);
        assert(all[at + n] == list[n]);
    }
}

/// A byte of a text value that PHP reads: a printable one, or a tab.
pub open spec fn is_printable(wire: Seq<u8>) -> bool {
    forall|i: int| 0 <= i < wire.len() ==> 32 <= #[trigger] wire[i] <= 126 || wire[i] == 9
}

/// Whether a key ends in `-bin`.
pub open spec fn ends_in_bin(key: Seq<char>) -> bool {
    let n = key.len() as int;
    n >= 4 && key[n - 4] == '-' && key[n - 3] == 'b' && key[n - 2] == 'i' && key[n - 1] == 'n'
}

/// Whether a key is one of the five headers that the protocol keeps to itself.
pub open spec fn is_protocol_header(key: Seq<char>) -> bool {
    key == "content-type"@ || key == "grpc-status"@ || key == "grpc-message"@ || key
        == "grpc-encoding"@ || key == "grpc-accept-encoding"@
}

/// A text value is read unchanged when all of it is printable, letters of both
/// cases among it, and not at all otherwise; a binary one is read as the bytes
/// that it stands for, where it can be.
pub proof fn law_what_is_read_of_a_value(key: Seq<char>, wire: Seq<u8>)
    ensures
        !ends_in_bin(key) && is_printable(wire) ==> readable(key, wire) == Some(wire),
        !ends_in_bin(key) && !is_printable(wire) ==> readable(key, wire) is None,
        ends_in_bin(key) ==> readable(key, wire) == wire_decoded(wire),
{
    reveal_strlit("-bin");
    let n = key.len() as int;
    if n >= 4 {
        let end = key.skip(n - 4);
        assert(end[0] == key[n - 4] && end[1] == key[n - 3] && end[2] == key[n - 2] && end[3]
            == key[n - 1]);
        if ends_in_bin(key) {
            assert(end =~= "-bin"@);
        }
        if is_binary_key(key) {
            assert(end == "-bin"@);
        }
    }
    if is_printable(wire) {
        assert forall|i: int| 0 <= i < wire.len() implies visible_byte(#[trigger] wire[i]) by {}
    } else {
        let i = choose|i: int|
            0 <= i < wire.len() && !(32 <= #[trigger] wire[i] <= 126 || wire[i] == 9);
        assert(!visible_byte(wire[i]));
    }
}

proof fn lemma_read_all(items: Seq<Item>, key: Seq<char>)
    ensures
        !ends_in_bin(key) ==> read_all(key, item_values(items, key)) == items.filter(
            |item: Item| item.0 == key && is_printable(item.1),
        ).map_values(|item: Item| item.1),
        ends_in_bin(key) ==> read_all(key, item_values(items, key)) == items.filter(
            |item: Item| item.0 == key && wire_decoded(item.1) is Some,
        ).map_values(|item: Item| wire_decoded(item.1)->0),
    decreases items.len(),
{
    reveal(Seq::filter);
    let text = |item: Item| item.0 == key && is_printable(item.1);
    let binary = |item: Item| item.0 == key && wire_decoded(item.1) is Some;
    let as_it_is = |item: Item| item.1;
    let decoded = |item: Item| wire_decoded(item.1)->0;
    if items.len() > 0 {
        let before = items.drop_last();
        let last = items.last();
        lemma_read_all(before, key);
        let wires = item_values(before, key);
        assert(wires.push(last.1).drop_last() =~= wires);
        law_what_is_read_of_a_value(key, last.1);
        assert(before.filter(text).push(last).map_values(as_it_is) =~= before.filter(
            text,
        ).map_values(as_it_is).push(last.1));
        assert(before.filter(binary).push(last).map_values(decoded) =~= before.filter(
            binary,
        ).map_values(decoded).push(wire_decoded(last.1)->0));
    } else {
        assert(items.filter(text).map_values(as_it_is) =~= Seq::<Seq<u8>>::empty());
        assert(items.filter(binary).map_values(decoded) =~= Seq::<Seq<u8>>::empty());
    }
}

/// Whether entries have these values under a key: no entry where there are none,
/// and otherwise one entry that holds exactly them.
pub open spec fn stands_under(entries: Seq<Entry>, key: Seq<char>, values: Seq<Seq<u8>>) -> bool {
    if values.len() == 0 {
        forall|i: int| 0 <= i < entries.len() ==> (#[trigger] entries[i]).0 != key
    } else {
        &&& exists|i: int| 0 <= i < entries.len() && #[trigger] entries[i] == (key, values)
        &&& forall|i: int, j: int|
            0 <= i < entries.len() && 0 <= j < entries.len() && (#[trigger] entries[i]).0 == key
                && (#[trigger] entries[j]).0 == key ==> i == j
    }
}

proof fn lemma_entry_holds_values(readings: Seq<Reading>, i: int)
    requires
        0 <= i < grouped(readings).len(),
    ensures
        grouped(readings)[i].1.len() > 0,
    decreases readings.len(),
{
    if readings.len() > 0 {
        let before = grouped(readings.drop_last());
        match readings.last().1 {
            Some(value) => {
                let key = readings.last().0;
                lemma_entry_position(before, key);
                let at = entry_position(before, key);
                if i < before.len() && i != at {
                    lemma_entry_holds_values(readings.drop_last(), i);
                }
            },
            None => lemma_entry_holds_values(readings.drop_last(), i),
        }
    }
}

proof fn lemma_shown_are_entries(entries: Seq<Entry>, i: int)
    requires
        0 <= i < shown(entries).len(),
    ensures
        entries.contains(shown(entries)[i]),
        !reserved(shown(entries)[i].0),
{
    let keep = |entry: Entry| !reserved(entry.0);
    entries.lemma_filter_pred(keep, i);
    let e = shown(entries)[i];
    assert(entries.filter(keep).contains(e));
    entries.lemma_filter_contains_rev(keep, e);
}

/// PHP gets all the metadata that it can read. Under a key of a text value
/// stand, as they are and in the order of the map, the values that are
/// printable; under one that ends in `-bin`, the bytes that the values stand
/// for; each key comes once, and only the headers of the protocol are held back.
pub proof fn law_metadata_reaches_php(items: Seq<Item>, key: Seq<char>)
    ensures
        is_protocol_header(key) ==> stands_under(php_entries(items), key, Seq::empty()),
        !is_protocol_header(key) && !ends_in_bin(key) ==> stands_under(
            php_entries(items),
            key,
            items.filter(|item: Item| item.0 == key && is_printable(item.1)).map_values(
                |item: Item| item.1,
            ),
        ),
        !is_protocol_header(key) && ends_in_bin(key) ==> stands_under(
            php_entries(items),
            key,
            items.filter(|item: Item| item.0 == key && wire_decoded(item.1) is Some).map_values(
                |item: Item| wire_decoded(item.1)->0,
            ),
        ),
{
    law_shown_metadata(items, key);
    law_collected_metadata(items, key);
    lemma_read_all(items, key);
    let entries = php_entries(items);
    let values = values_under(entries, key);
    lemma_entry_position(entries, key);
    lemma_position_of(entries, key);
    let at = entry_position(entries, key);
    if at < entries.len() {
        assert(entries[at] == (key, values));
        lemma_shown_are_entries(collected(items), at);
        let n = choose|n: int| 0 <= n < collected(items).len() && collected(items)[n] == entries[at];
        lemma_entry_holds_values(readings_of(items), n);
        assert(values.len() > 0);
    }
    let keys = entry_keys(entries);
    assert forall|i: int, j: int|
        0 <= i < entries.len() && 0 <= j < entries.len() && (#[trigger] entries[i]).0 == key && (
        #[trigger] entries[j]).0 == key implies i == j by {
        assert(keys[i] == keys[j]);
    }
    if at == entries.len() {
        assert forall|i: int| 0 <= i < entries.len() implies (#[trigger] entries[i]).0 != key by {
            if entries[i].0 == key {
                assert(keys[i] == key);
            }
        }
    }
    assert(stands_under(entries, key, values));
}

proof fn lemma_first_seen_order(items: Seq<Item>, x: int, y: int)
    requires
        0 <= x < y < first_seen_keys(items).len(),
    ensures
        ({
            let keys = first_seen_keys(items);
            exists|i: int|
                #![trigger items[i]]
                0 <= i < items.len() && items[i].0 == keys[x] && readable(
                    items[i].0,
                    items[i].1,
                ) is Some && forall|j: int|
                    #![trigger items[j]]
                    0 <= j < i ==> !(items[j].0 == keys[y] && readable(
                        items[j].0,
                        items[j].1,
                    ) is Some)
        }),
    decreases items.len(),
{
    let before = items.drop_last();
    let keys = first_seen_keys(items);
    let old_keys = first_seen_keys(before);
    if y < old_keys.len() {
        lemma_first_seen_order(before, x, y);
        assert(keys[x] == old_keys[x] && keys[y] == old_keys[y]);
        let i = choose|i: int|
            #![trigger before[i]]
            0 <= i < before.len() && before[i].0 == old_keys[x] && readable(
                before[i].0,
                before[i].1,
            ) is Some && forall|j: int|
                #![trigger before[j]]
                0 <= j < i ==> !(before[j].0 == old_keys[y] && readable(
                    before[j].0,
                    before[j].1,
                ) is Some);
        assert(items[i] == before[i]);
        assert forall|j: int| #![trigger items[j]] 0 <= j < i implies !(items[j].0 == keys[y]
            && readable(items[j].0, items[j].1) is Some) by {
            assert(items[j] == before[j]);
        }
    } else {
        assert(keys[y] == items.last().0);
        assert(keys[x] == old_keys[x]);
        lemma_first_seen(before, x);
        let i = choose|i: int|
            #![trigger before[i]]
            0 <= i < before.len() && before[i].0 == old_keys[x] && readable(
                before[i].0,
                before[i].1,
            ) is Some;
        assert(items[i] == before[i]);
        assert forall|j: int| #![trigger items[j]] 0 <= j < i implies !(items[j].0 == keys[y]
            && readable(items[j].0, items[j].1) is Some) by {
            assert(items[j] == before[j]);
            if items[j].0 == keys[y] && readable(items[j].0, items[j].1) is Some {
                lemma_seen(before, j);
            }
        }
    }
}

proof fn lemma_first_seen(items: Seq<Item>, x: int)
    requires
        0 <= x < first_seen_keys(items).len(),
    ensures
        exists|i: int|
            #![trigger items[i]]
            0 <= i < items.len() && items[i].0 == first_seen_keys(items)[x] && readable(
                items[i].0,
                items[i].1,
            ) is Some,
    decreases items.len(),
{
    let before = items.drop_last();
    if x < first_seen_keys(before).len() {
        lemma_first_seen(before, x);
        let i = choose|i: int|
            #![trigger before[i]]
            0 <= i < before.len() && before[i].0 == first_seen_keys(before)[x] && readable(
                before[i].0,
                before[i].1,
            ) is Some;
        assert(items[i] == before[i]);
    } else {
        assert(items[items.len() - 1] == items.last());
    }
}

proof fn lemma_seen(items: Seq<Item>, j: int)
    requires
        0 <= j < items.len(),
        readable(items[j].0, items[j].1) is Some,
    ensures
        first_seen_keys(items).contains(items[j].0),
    decreases items.len(),
{
    let before = items.drop_last();
    let old_keys = first_seen_keys(before);
    if j < before.len() {
        assert(before[j] == items[j]);
        lemma_seen(before, j);
        let n = choose|n: int| 0 <= n < old_keys.len() && old_keys[n] == items[j].0;
        assert(first_seen_keys(items)[n] == items[j].0);
    } else if !old_keys.contains(items[j].0) {
        assert(first_seen_keys(items)[old_keys.len() as int] == items[j].0);
    }
}

proof fn lemma_shown_order(entries: Seq<Entry>, x: int, y: int)
    requires
        0 <= x < y < shown(entries).len(),
    ensures
        exists|a: int, b: int|
            0 <= a < b < entries.len() && #[trigger] entries[a] == shown(entries)[x]
                && #[trigger] entries[b] == shown(entries)[y],
    decreases entries.len(),
{
    reveal(Seq::filter);
    let before = entries.drop_last();
    let kept = shown(before);
    if y < kept.len() {
        lemma_shown_order(before, x, y);
        let (a, b) = choose|a: int, b: int|
            0 <= a < b < before.len() && #[trigger] before[a] == kept[x] && #[trigger] before[b]
                == kept[y];
        assert(entries[a] == before[a] && entries[b] == before[b]);
    } else {
        lemma_shown_are_entries(before, x);
        let a = choose|a: int| 0 <= a < before.len() && before[a] == kept[x];
        assert(entries[a] == before[a]);
        assert(entries[entries.len() - 1] == shown(entries)[y]);
    }
}

/// The keys reach PHP in the order of the map: where one key stands before
/// another, a readable value of it comes before every readable value of the
/// other.
pub proof fn law_metadata_keeps_its_order(items: Seq<Item>, x: int, y: int)
    requires
        0 <= x < y < php_entries(items).len(),
    ensures
        exists|i: int|
            #![trigger items[i]]
            0 <= i < items.len() && items[i].0 == php_entries(items)[x].0 && readable(
                items[i].0,
                items[i].1,
            ) is Some && forall|j: int|
                #![trigger items[j]]
                0 <= j < i ==> !(items[j].0 == php_entries(items)[y].0 && readable(
                    items[j].0,
                    items[j].1,
                ) is Some),
{
    let entries = collected(items);
    lemma_shown_order(entries, x, y);
    let (a, b) = choose|a: int, b: int|
        0 <= a < b < entries.len() && #[trigger] entries[a] == shown(entries)[x]
            && #[trigger] entries[b] == shown(entries)[y];
    law_collected_metadata(items, Seq::empty());
    assert(entry_keys(entries)[a] == entries[a].0 && entry_keys(entries)[b] == entries[b].0);
    lemma_first_seen_order(items, a, b);
}

/// The values that stand under a key are those of an entry for it.
pub proof fn law_values_under_are_of_an_entry(entries: Seq<Entry>, key: Seq<char>)
    ensures
        values_under(entries, key).len() > 0 ==> exists|i: int|
            0 <= i < entries.len() && #[trigger] entries[i] == (key, values_under(entries, key)),
{
    lemma_entry_position(entries, key);
    lemma_position_of(entries, key);
    let at = entry_position(entries, key);
    if at < entries.len() {
        assert(entries[at] == (key, entries[at].1));
    }
}

/// No metadata comes out as no metadata.
pub proof fn law_no_metadata_stays_none()
    ensures
        php_entries(Seq::empty()) == Seq::<Entry>::empty(),
{
    let entries = php_entries(Seq::empty());
    if entries.len() > 0 {
        let key = entries[0].0;
        law_metadata_reaches_php(Seq::empty(), key);
        reveal(Seq::filter);
        assert(false);
    }
    assert(entries =~= Seq::<Entry>::empty());
}

/// A value all of whose bytes are printable is read by PHP, unchanged, wherever
/// in the map it stands, under every key that is neither for binary values nor a
/// header of the protocol.
pub proof fn law_printable_values_reach_php(items: Seq<Item>, i: int)
    requires
        0 <= i < items.len(),
        forall|j: int| 0 <= j < items[i].1.len() ==> 32 <= #[trigger] items[i].1[j] <= 126,
        !ends_in_bin(items[i].0),
        !is_protocol_header(items[i].0),
    ensures
        exists|n: int, m: int|
            0 <= n < php_entries(items).len() && (#[trigger] php_entries(items)[n]).0
                == items[i].0 && 0 <= m < php_entries(items)[n].1.len() && #[trigger] php_entries(
                items,
            )[n].1[m] == items[i].1,
{
    let key = items[i].0;
    law_metadata_reaches_php(items, key);
    let f = |item: Item| item.0 == key && is_printable(item.1);
    let g = |item: Item| item.1;
    let kept = items.filter(f);
    let values = kept.map_values(g);
    assert(f(items[i]));
    items.lemma_filter_contains(f, i);
    let m = choose|m: int| 0 <= m < kept.len() && kept[m] == items[i];
    assert(values[m] == items[i].1);
    let entries = php_entries(items);
    let n = choose|n: int| 0 <= n < entries.len() && #[trigger] entries[n] == (key, values);
    assert(entries[n].1[m] == items[i].1);
}

} // verus!

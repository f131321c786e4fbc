//! Deadlines, and statuses as PHP sees them.

use crate::clock::{micros_at, now_usec, usec_shown};
use crate::metadata::{
    ends_in_bin, is_protocol_header, law_metadata_reaches_php, law_set_value, law_shown_metadata,
    law_values_under_are_of_an_entry, php_entries, read_all, readable, reserved, stands_under, values_under,
};
use crate::text::{add_text, texts};
use crate::wire::{
    code_of, has_room, insert_binary, is_binary_key, law_set_item, metadata_items, read_items,
    status_code, status_details, status_items, status_message, wire_decoded, wire_encoded,
    with_item, Item, MAX_METADATA_KEYS,
};
use tonic::metadata::MetadataMap;
use tonic::Status;
use vstd::prelude::*;

verus! {

/// Whether a deadline is a real one: 0 and the past stand for none, and so
/// does the infinite future.
pub open spec fn deadline_set(deadline_usec: i64) -> bool {
    0 < deadline_usec < i64::MAX
}

/// Whether a real deadline has passed.
pub open spec fn expired(deadline_usec: i64, now: i64) -> bool {
    deadline_set(deadline_usec) && deadline_usec <= now
}

/// Whether a real deadline has passed at an instant.
///
/// A call whose deadline has passed fails here and is never sent.
pub fn deadline_already_expired_at(deadline_usec: i64, now: i64) -> (r: bool)
    ensures
        r == expired(deadline_usec, now),
{
    deadline_usec > 0 && deadline_usec < i64::MAX && deadline_usec <= now
}

/// Whether a real deadline has passed.
pub fn deadline_already_expired(deadline_usec: i64) -> (r: bool)
    ensures
        exists|instant: std::time::SystemTime|
            r == expired(deadline_usec, usec_shown(#[trigger] micros_at(instant))),
{
    let now = now_usec();
    let r = deadline_already_expired_at(deadline_usec, now);
    proof {
        let instant = choose|instant: std::time::SystemTime| now == usec_shown(
            #[trigger] micros_at(instant),
        );
        assert(r == expired(deadline_usec, usec_shown(micros_at(instant))));
    }
    r
}

/// The code and message that PHP gets for a status.
///
/// An expired deadline comes as a cancellation, so a cancellation after the
/// deadline is reported as the deadline.
pub open spec fn php_status(
    code: int,
    message: Seq<char>,
    deadline_usec: i64,
    now: i64,
) -> (int, Seq<char>) {
    if code == 1 && expired(deadline_usec, now) {
        (4, "Deadline Exceeded"@)
    } else {
        (code, message)
    }
}

/// The code and message that PHP gets for those of a status.
pub fn reported_status(code: i32, message: &str, deadline_usec: i64, now: i64) -> (r: (
    i32,
    String,
))
    ensures
        (r.0 as int, r.1@) == php_status(code as int, message@, deadline_usec, now),
{
    if code == 1 && deadline_already_expired_at(deadline_usec, now) {
        (4, "Deadline Exceeded".to_owned())
    } else {
        (code, message.to_owned())
    }
}

/// The code and message that PHP gets for a status at an instant.
pub fn status_to_php_at(status: &Status, deadline_usec: i64, now: i64) -> (r: (i32, String))
    ensures
        (r.0 as int, r.1@) == php_status(
            status_code(*status),
            status_message(*status),
            deadline_usec,
            now,
        ),
{
    reported_status(code_of(status), status.message(), deadline_usec, now)
}

/// The code and message that PHP gets for a status.
pub fn status_to_php(status: &Status, deadline_usec: i64) -> (r: (i32, String))
    ensures
        exists|instant: std::time::SystemTime|
            (r.0 as int, r.1@) == php_status(
                status_code(*status),
                status_message(*status),
                deadline_usec,
                usec_shown(#[trigger] micros_at(instant)),
            ),
{
    let now = now_usec();
    let r = status_to_php_at(status, deadline_usec, now);
    proof {
        let instant = choose|instant: std::time::SystemTime| now == usec_shown(
            #[trigger] micros_at(instant),
        );
        assert((r.0 as int, r.1@) == php_status(
            status_code(*status),
            status_message(*status),
            deadline_usec,
            usec_shown(micros_at(instant)),
        ));
    }
    r
}

/// The metadata items that PHP gets for a status: those of the status, and
/// its details, where it has any, as a binary value.
pub open spec fn status_php_items(items: Seq<Item>, details: Seq<u8>) -> Seq<Item> {
    if details.len() == 0 {
        items
    } else {
        with_item(items, "grpc-status-details-bin"@, wire_encoded(details))
    }
}

/// Whether PHP reads exactly the details of a status, where it has any, under
/// their header in metadata items.
pub open spec fn carries_details(items: Seq<Item>, details: Seq<u8>) -> bool {
    details.len() > 0 ==> values_under(php_entries(items), "grpc-status-details-bin"@)
        == seq![details]
}

/// Whether PHP reads the details of a status in the metadata that it gets.
pub open spec fn details_reach_php(status: Status) -> bool {
    carries_details(
        status_php_items(status_items(status), status_details(status)),
        status_details(status),
    )
}

/// Whether the metadata of a status has room for its details.
pub fn status_metadata_fits(status: &Status) -> (r: bool)
    ensures
        r == has_room(status_items(*status)),
{
    let items = read_items(status.metadata());
    let ghost all = status_items(*status);
    let ghost keys = all.map_values(|item: Item| item.0);
    let mut names: Vec<String> = Vec::new();
    let mut i: usize = 0;
    proof {
        assert(texts(names@) =~= Seq::<Seq<char>>::empty());
        assert(keys.take(0).to_set() =~= texts(names@).to_set());
    }
    while i < items.len()
        invariant
            i <= items.len(),
            items@.len() == all.len(),
            keys == all.map_values(|item: Item| item.0),
            forall|k: int| 0 <= k < items@.len() ==> (#[trigger] items@[k]).key@ == all[k].0,
            texts(names@).no_duplicates(),
            texts(names@).to_set() == keys.take(i as int).to_set(),
        decreases items.len() - i,
    {
        add_text(&mut names, items[i].key.clone());
        proof {
            assert(keys.take(i + 1) =~= keys.take(i as int).push(keys[i as int]));
            keys.take(i as int).lemma_push_to_set_commute(keys[i as int]);
        }
        i = i + 1;
    }
    proof {
        assert(keys.take(i as int) =~= keys);
        texts(names@).unique_seq_to_set();
        assert(texts(names@).len() == names@.len());
    }
    names.len() <= MAX_METADATA_KEYS
}

proof fn lemma_details_key()
    ensures
        is_binary_key("grpc-status-details-bin"@),
        !reserved("grpc-status-details-bin"@),
{
    reveal_strlit("grpc-status-details-bin");
    reveal_strlit("-bin");
    reveal_strlit("content-type");
    reveal_strlit("grpc-status");
    reveal_strlit("grpc-message");
    reveal_strlit("grpc-encoding");
    reveal_strlit("grpc-accept-encoding");
    let key = "grpc-status-details-bin"@;
    assert(key.len() == 23);
    assert(key.skip(key.len() - 4) =~= "-bin"@);
}

/// The metadata that PHP gets for a status.
///
/// The details of a status travel as a header that is taken out of its
/// metadata; they are put back, and PHP reads under that header exactly the
/// details, and under every other key what the status has there.
pub fn status_metadata_for_php(status: &Status) -> (r: MetadataMap)
    requires
        has_room(status_items(*status)),
    ensures
        metadata_items(r) == status_php_items(status_items(*status), status_details(*status)),
        carries_details(metadata_items(r), status_details(*status)),
        forall|key: Seq<char>|
            key != "grpc-status-details-bin"@ ==> #[trigger] values_under(
                php_entries(metadata_items(r)),
                key,
            ) == values_under(php_entries(status_items(*status)), key),
{
    let mut metadata = status.metadata().clone();
    let details = status.details();
    if details.len() > 0 {
        insert_binary(&mut metadata, "grpc-status-details-bin", details);
        proof {
            lemma_details_key();
            let before = status_items(*status);
            let after = metadata_items(metadata);
            let key = "grpc-status-details-bin"@;
            let wire = wire_encoded(details@);
            law_set_value(before, key, wire, key);
            law_shown_metadata(after, key);
            assert(holds_item(after, key, wire)) by {
                lemma_has_item(before, key, wire);
            }
            assert(readable(key, wire) == Some(details@));
            assert(read_all(key, seq![wire]) =~= seq![details@]) by {
                assert(seq![wire].drop_last() =~= Seq::<Seq<u8>>::empty());
                assert(seq![wire].last() == wire);
                assert(read_all(key, Seq::<Seq<u8>>::empty()) =~= Seq::<Seq<u8>>::empty());
                assert(Seq::<Seq<u8>>::empty().push(details@) =~= seq![details@]);
            }
            assert forall|other: Seq<char>| other != key implies #[trigger] values_under(
                php_entries(after),
                other,
            ) == values_under(php_entries(before), other) by {
                law_set_value(before, key, wire, other);
                law_shown_metadata(after, other);
                law_shown_metadata(before, other);
            }
        }
    }
    metadata
}

/// Whether an item with this key and value is there.
spec fn holds_item(items: Seq<Item>, key: Seq<char>, wire: Seq<u8>) -> bool {
    exists|i: int| 0 <= i < items.len() && #[trigger] items[i] == (key, wire)
}

proof fn lemma_has_item(items: Seq<Item>, key: Seq<char>, wire: Seq<u8>)
    ensures
        holds_item(with_item(items, key, wire), key, wire),
    decreases items.len(),
{
    let after = with_item(items, key, wire);
    if items.len() == 0 || items[0].0 == key {
        assert(after[0] == (key, wire));
    } else {
        let rest = with_item(items.skip(1), key, wire);
        lemma_has_item(items.skip(1), key, wire);
        let i = choose|i: int| 0 <= i < rest.len() && #[trigger] rest[i] == (key, wire);
        assert(after[i + 1] == rest[i]);
    }
}

/// The metadata that PHP gets for a status; nothing when it has no room for
/// the details.
pub fn checked_status_metadata(status: &Status) -> (r: Option<MetadataMap>)
    ensures
        r is Some <==> has_room(status_items(*status)),
        r matches Some(metadata) ==> metadata_items(metadata) == status_php_items(
            status_items(*status),
            status_details(*status),
        ),
{
    if status_metadata_fits(status) {
        Some(status_metadata_for_php(status))
    } else {
        None
    }
}

// ---------------------------------------------------------------------------
// Laws
// ---------------------------------------------------------------------------

/// A status reaches PHP as it is: for every code, and for a message of whatever
/// length, PHP gets that code and that message, unless the status is a
/// cancellation and a real deadline has passed. That one is reported as the
/// deadline.
pub proof fn law_status_is_reported_as_it_is(
    code: int,
    message: Seq<char>,
    deadline_usec: i64,
    now: i64,
)
    ensures
        code != 1 || !(0 < deadline_usec < i64::MAX && deadline_usec <= now) ==> php_status(
            code,
            message,
            deadline_usec,
            now,
        ) == (code, message),
        code == 1 && 0 < deadline_usec < i64::MAX && deadline_usec <= now ==> php_status(
            code,
            message,
            deadline_usec,
            now,
        ) == (4int, "Deadline Exceeded"@),
{
}

/// A deadline has passed from the instant that it names on, and stays passed. A
/// deadline that is not positive, or infinitely far, never passes.
pub proof fn law_deadlines_pass_in_time(deadline_usec: i64, now: i64, later: i64)
    ensures
        deadline_set(deadline_usec) <==> 0 < deadline_usec < i64::MAX,
        deadline_usec <= 0 || deadline_usec == i64::MAX ==> !expired(deadline_usec, now),
        0 < deadline_usec < i64::MAX ==> (expired(deadline_usec, now) <==> deadline_usec <= now),
        expired(deadline_usec, now) && now <= later ==> expired(deadline_usec, later),
{
}

/// The details of a status reach PHP as one value, all of their bytes, and
/// nothing else of its metadata changes: the other items stay as they are and
/// in their order. A status without details keeps its metadata.
pub proof fn law_details_are_added(items: Seq<Item>, details: Seq<u8>)
    ensures
        details.len() == 0 ==> status_php_items(items, details) == items,
        status_php_items(items, details).filter(
            |item: Item| item.0 != "grpc-status-details-bin"@,
        ) == items.filter(|item: Item| item.0 != "grpc-status-details-bin"@),
        details.len() > 0 ==> status_php_items(items, details).filter(
            |item: Item| item.0 == "grpc-status-details-bin"@,
        ) == seq![("grpc-status-details-bin"@, wire_encoded(details))],
        details.len() > 0 && wire_decoded(wire_encoded(details)) == Some(details) ==> stands_under(
            php_entries(status_php_items(items, details)),
            "grpc-status-details-bin"@,
            seq![details],
        ),
{
    let key = "grpc-status-details-bin"@;
    law_set_item(items, key, wire_encoded(details));
    let others = |item: Item| item.0 != key;
    let same = |item: Item| item.0 == key;
    assert(others =~= |item: Item| item.0 != "grpc-status-details-bin"@);
    assert(same =~= |item: Item| item.0 == "grpc-status-details-bin"@);
    if details.len() > 0 && wire_decoded(wire_encoded(details)) == Some(details) {
        let after = status_php_items(items, details);
        lemma_details_key();
        law_metadata_reaches_php(after, key);
        reveal_strlit("grpc-status-details-bin");
        reveal_strlit("content-type");
        reveal_strlit("grpc-status");
        reveal_strlit("grpc-message");
        reveal_strlit("grpc-encoding");
        reveal_strlit("grpc-accept-encoding");
        assert(ends_in_bin(key));
        assert(!is_protocol_header(key)) by {
            assert(key.len() == 23);
            assert("grpc-accept-encoding"@.len() == 20);
        }
        let f = |item: Item| item.0 == key && wire_decoded(item.1) is Some;
        let h = |item: Item| wire_decoded(item.1)->0;
        lemma_narrower_filter(after, same, f);
        let one = seq![(key, wire_encoded(details))];
        assert(after.filter(f) =~= one);
        assert(one.map_values(h) =~= seq![details]);
    }
}

proof fn lemma_narrower_filter(
    items: Seq<Item>,
    wide: spec_fn(Item) -> bool,
    narrow: spec_fn(Item) -> bool,
)
    requires
        forall|item: Item| #[trigger] narrow(item) ==> wide(item),
        forall|i: int|
            0 <= i < items.filter(wide).len() ==> narrow(#[trigger] items.filter(wide)[i]),
    ensures
        items.filter(narrow) == items.filter(wide),
    decreases items.len(),
{
    reveal(Seq::filter);
    if items.len() > 0 {
        let before = items.drop_last();
        let last = items.last();
        let kept = before.filter(wide);
        assert forall|i: int| 0 <= i < kept.len() implies narrow(#[trigger] kept[i]) by {
            assert(items.filter(wide)[i] == kept[i]);
        }
        lemma_narrower_filter(before, wide, narrow);
        if wide(last) {
            assert(items.filter(wide)[kept.len() as int] == last);
        }
    }
}

/// Where the details of a status are carried, PHP has an entry that holds them
/// and nothing else.
pub proof fn law_carried_details_are_there(status: Status, items: Seq<Item>, details: Seq<u8>)
    requires
        details.len() > 0,
    ensures
        carries_details(items, details) ==> exists|i: int|
            0 <= i < php_entries(items).len() && #[trigger] php_entries(items)[i] == (
                "grpc-status-details-bin"@,
                seq![details],
            ),
        details_reach_php(status) && status_details(status).len() > 0 ==> carries_details(
            status_php_items(status_items(status), status_details(status)),
            status_details(status),
        ),
{
    law_values_under_are_of_an_entry(php_entries(items), "grpc-status-details-bin"@);
}

} // verus!

//! Which channels share a transport.

use crate::channel::{
    args_of, asks_for_new, construction, creds_id, creds_of, law_argument_order_is_ignored,
    law_credentials_are_not_mixed, persist_key, plugins_of, registered, value_text, Construction,
    RegistryView,
};
use crate::credentials::{text_in, TlsSettings};
use crate::endpoint::Entries;
use crate::error::PhpException;
use crate::text::{byte_text, decimal};
use crate::value::{displayed_key, entry_of, key_is, ArrayKey, PhpValue};
use vstd::multiset::Multiset;
use vstd::prelude::*;
use vstd::utf8::{decode_utf8, encode_utf8, valid_utf8};

verus! {

// ---------------------------------------------------------------------------
// Channels one after another
// ---------------------------------------------------------------------------

/// Whether a channel can be constructed so: a new transport needs a number
/// that is not taken.
pub open spec fn constructed(
    registry: RegistryView,
    target: Seq<char>,
    args: Entries,
    made: Construction,
) -> bool {
    &&& construction(registry, target, args, Ok(made))
    &&& made is Connect ==> registry.issued < u64::MAX
}

/// The transport of a channel that was just constructed, a shared one or a new
/// one.
pub open spec fn transport_of(registry: RegistryView, made: Construction) -> u64 {
    match made {
        Construction::Ready(channel) => channel.inner->0.transport,
        Construction::Connect { .. } => (registry.issued + 1) as u64,
    }
}

/// The registry once a channel was constructed and connected.
pub open spec fn after_construction(registry: RegistryView, made: Construction) -> RegistryView {
    match made {
        Construction::Ready(_) => registry,
        Construction::Connect { pending, .. } => registered(
            registry,
            text_in(pending.persist_key),
        ),
    }
}

/// A channel that was constructed for a target and arguments.
pub struct Constructed {
    pub target: Seq<char>,
    pub args: Entries,
    pub made: Construction,
}

/// The registry once channels were constructed one after another.
pub open spec fn after_all(registry: RegistryView, list: Seq<Constructed>) -> RegistryView
    decreases list.len(),
{
    if list.len() == 0 {
        registry
    } else {
        after_construction(after_all(registry, list.drop_last()), list.last().made)
    }
}

/// Whether channels can be constructed so one after another.
pub open spec fn all_constructed(registry: RegistryView, list: Seq<Constructed>) -> bool
    decreases list.len(),
{
    list.len() == 0 || (all_constructed(registry, list.drop_last()) && constructed(
        after_all(registry, list.drop_last()),
        list.last().target,
        list.last().args,
        list.last().made,
    ))
}

/// Whether the shared transports of a registry were all given numbers, each
/// its own.
pub open spec fn registry_ok(registry: RegistryView) -> bool {
    &&& forall|k: Seq<char>| #[trigger]
        registry.shared.dom().contains(k) ==> registry.shared[k] <= registry.issued
    &&& forall|k: Seq<char>, l: Seq<char>| #[trigger]
        registry.shared.dom().contains(k) && #[trigger] registry.shared.dom().contains(l)
            && registry.shared[k] == registry.shared[l] ==> k == l
}

/// A new registry has no two transports under one number, and none of the
/// channels constructed with it brings that about.
pub proof fn law_registry_stays_sound(registry: RegistryView, list: Seq<Constructed>)
    requires
        all_constructed(registry, list),
        registry_ok(registry) || registry == (RegistryView { shared: Map::empty(), issued: 0 }),
    ensures
        registry_ok(after_all(registry, list)),
    decreases list.len(),
{
    if list.len() > 0 {
        law_registry_stays_sound(registry, list.drop_last());
    }
}

/// Whether a transport was given its number, and is shared under no key but
/// its own.
pub open spec fn is_own(registry: RegistryView, transport: u64, key: Option<Seq<char>>) -> bool {
    &&& transport <= registry.issued
    &&& forall|k: Seq<char>| #[trigger]
        registry.shared.dom().contains(k) && registry.shared[k] == transport ==> key == Some(k)
}

proof fn lemma_stays_own(
    registry: RegistryView,
    list: Seq<Constructed>,
    transport: u64,
    key: Option<Seq<char>>,
)
    requires
        all_constructed(registry, list),
        is_own(registry, transport, key),
    ensures
        is_own(after_all(registry, list), transport, key),
    decreases list.len(),
{
    if list.len() > 0 {
        lemma_stays_own(registry, list.drop_last(), transport, key);
    }
}

/// The key under which the arguments of a channel have it shared.
pub open spec fn key_for(target: Seq<char>, args: Entries) -> Option<Seq<char>> {
    persist_key(target, creds_of(args)->Ok_0, args_of(args)->Ok_0)
}

/// Whether arguments keep a channel to itself: it asked to be new, or its
/// credentials have plugins.
pub open spec fn is_private(args: Entries) -> bool {
    args_of(args)->Ok_0.force_new || plugins_of(creds_of(args)->Ok_0) is Some
}

/// Whether exactly one of two channels has TLS.
pub open spec fn differ_in_tls(a: Entries, b: Entries) -> bool {
    (creds_of(a)->Ok_0 is Some) != (creds_of(b)->Ok_0 is Some)
}

/// Whether the credentials in arguments are numbered: 0 stands for none.
pub open spec fn creds_numbered(args: Entries) -> bool {
    creds_of(args) matches Ok(Some(creds)) ==> creds.id > 0
}

/// A channel that asked to be new, or whose credentials have plugins, or that
/// differs from another to the same target in having TLS, never has the
/// transport of the other, whichever came first and whatever channels were
/// constructed in between. One of the first two kinds leaves what is shared as
/// it was.
pub proof fn law_kept_apart(
    registry: RegistryView,
    target: Seq<char>,
    a: Entries,
    first: Construction,
    between: Seq<Constructed>,
    b: Entries,
    second: Construction,
)
    requires
        registry_ok(registry),
        creds_numbered(a),
        creds_numbered(b),
        constructed(registry, target, a, first),
        all_constructed(after_construction(registry, first), between),
        constructed(
            after_all(after_construction(registry, first), between),
            target,
            b,
            second,
        ),
        is_private(a) || is_private(b) || differ_in_tls(a, b),
    ensures
        transport_of(registry, first) != transport_of(
            after_all(after_construction(registry, first), between),
            second,
        ),
        is_private(a) ==> after_construction(registry, first).shared == registry.shared,
{
    let after = after_construction(registry, first);
    let transport = transport_of(registry, first);
    let key_a = key_for(target, a);
    let key_b = key_for(target, b);
    if let Construction::Connect { pending, .. } = first {
        assert(text_in(pending.persist_key) == key_a);
    }
    assert(is_own(after, transport, key_a));
    lemma_stays_own(after, between, transport, key_a);
    if key_a is Some && key_b is Some {
        law_credentials_are_not_mixed(
            target,
            creds_id(creds_of(a)->Ok_0),
            args_of(a)->Ok_0.parts,
            creds_id(creds_of(b)->Ok_0),
            args_of(b)->Ok_0.parts,
        );
        assert(key_a != key_b);
    }
}

// ---------------------------------------------------------------------------
// Arguments in another order
// ---------------------------------------------------------------------------

/// The key of an argument.
pub enum ArgKey {
    Long(i64),
    Bytes(Seq<u8>),
}

/// The value of an argument. An array is never one that a channel can use, so
/// its entries do not matter.
pub enum ArgValue {
    Null,
    Bool(bool),
    Long(i64),
    Double(i64),
    Str(Seq<u8>),
    Array,
    Credentials { id: u64, plugins: Option<Seq<u64>>, settings: TlsSettings },
    Other,
}

/// What an argument key holds.
pub open spec fn arg_key(key: ArrayKey) -> ArgKey {
    match key {
        ArrayKey::Long(n) => ArgKey::Long(n),
        ArrayKey::String(s) => ArgKey::Bytes(encode_utf8(s@)),
        ArrayKey::ZendString(b) => ArgKey::Bytes(b@),
    }
}

/// What an argument value holds.
pub open spec fn arg_value(value: PhpValue) -> ArgValue {
    match value {
        PhpValue::Null => ArgValue::Null,
        PhpValue::Bool(b) => ArgValue::Bool(b),
        PhpValue::Long(n) => ArgValue::Long(n),
        PhpValue::Double(n) => ArgValue::Double(n),
        PhpValue::Str(bytes) => ArgValue::Str(bytes@),
        PhpValue::Array(_) => ArgValue::Array,
        PhpValue::ChannelCredentials(creds) => ArgValue::Credentials {
            id: creds.id,
            plugins: creds.inner.plugins(),
            settings: creds.inner.settings(),
        },
        PhpValue::Other => ArgValue::Other,
    }
}

/// What arguments hold, entry by entry.
pub open spec fn arg_entries(args: Entries) -> Seq<(ArgKey, ArgValue)> {
    Seq::new(args.len(), |i: int| (arg_key(args[i].0), arg_value(args[i].1)))
}

/// Whether no two entries are displayed under a name. So it is in every PHP
/// array, whose keys are all different.
pub open spec fn at_most_one(args: Entries, name: Seq<char>) -> bool {
    forall|i: int, j: int|
        0 <= i < j < args.len() ==> !(#[trigger] displayed_key(args[i].0) == Some(name)
            && #[trigger] displayed_key(args[j].0) == Some(name))
}

/// How an argument key is displayed.
spec fn shown(key: ArgKey) -> Option<Seq<char>> {
    match key {
        ArgKey::Long(_) => None,
        ArgKey::Bytes(bytes) => Some(byte_text(bytes)),
    }
}

/// The text of an argument value.
spec fn text_of(value: ArgValue) -> Option<Seq<char>> {
    match value {
        ArgValue::Long(n) => Some(decimal(n as int)),
        ArgValue::Str(bytes) => if valid_utf8(bytes) {
            Some(decode_utf8(bytes))
        } else {
            None
        },
        _ => None,
    }
}

/// Whether a `force_new` value asks for a new channel.
spec fn asks(value: ArgValue) -> bool {
    value == ArgValue::Bool(true) || (value matches ArgValue::Long(n) && n != 0)
}

/// Whether nothing is wrong with an argument.
spec fn is_fine(entry: (ArgKey, ArgValue)) -> bool {
    shown(entry.0) matches Some(name) && (name == "credentials"@ || name == "force_new"@
        || text_of(entry.1) is Some)
}

/// The part that an argument adds to the list, if it adds one.
spec fn part_of(entry: (ArgKey, ArgValue)) -> Multiset<Seq<char>> {
    match (shown(entry.0), text_of(entry.1)) {
        (Some(name), Some(text)) if name != "credentials"@ && name != "force_new"@ =>
            Multiset::singleton(name + "="@ + text),
        _ => Multiset::empty(),
    }
}

/// All the parts of arguments.
spec fn parts_of(entries: Seq<(ArgKey, ArgValue)>) -> Multiset<Seq<char>>
    decreases entries.len(),
{
    if entries.len() == 0 {
        Multiset::empty()
    } else {
        parts_of(entries.drop_last()).add(part_of(entries.last()))
    }
}

/// Whether an argument asks for a new channel.
spec fn forces(entry: (ArgKey, ArgValue)) -> bool {
    shown(entry.0) == Some("force_new"@) && asks(entry.1)
}

proof fn lemma_entry(key: ArrayKey, value: PhpValue)
    ensures
        displayed_key(key) == shown(arg_key(key)),
        value_text(value) == text_of(arg_value(value)),
        asks_for_new(value) == asks(arg_value(value)),
{
    broadcast use vstd::utf8::encode_utf8_valid_utf8;
    broadcast use vstd::utf8::encode_utf8_decode_utf8;

}

proof fn lemma_key_is(key: ArrayKey, name: Seq<char>)
    ensures
        key_is(key, name) <==> arg_key(key) == ArgKey::Bytes(encode_utf8(name)),
        key_is(key, name) ==> displayed_key(key) == Some(name),
{
    vstd::utf8::encode_utf8_valid_utf8(name);
    vstd::utf8::encode_utf8_decode_utf8(name);
    if let ArrayKey::String(s) = key {
        vstd::utf8::encode_utf8_decode_utf8(s@);
    }
}

proof fn lemma_args_by_entries(args: Entries)
    requires
        at_most_one(args, "force_new"@),
    ensures
        args_of(args) is Ok <==> (forall|i: int|
            0 <= i < args.len() ==> is_fine(#[trigger] arg_entries(args)[i])),
        args_of(args) matches Ok(read) ==> read.parts.to_multiset() == parts_of(arg_entries(args))
            && (read.force_new <==> exists|i: int|
            0 <= i < args.len() && forces(#[trigger] arg_entries(args)[i])),
    decreases args.len(),
{
    let entries = arg_entries(args);
    if args.len() == 0 {
        Seq::<Seq<char>>::empty().to_multiset_ensures();
        assert(Seq::<Seq<char>>::empty().to_multiset() =~= Multiset::empty());
    } else {
        let before = args.drop_last();
        let (key, value) = args.last();
        let n = args.len() - 1;
        assert(arg_entries(before) =~= entries.drop_last());
        assert forall|i: int, j: int| 0 <= i < j < before.len() implies !(#[trigger] displayed_key(
            before[i].0,
        ) == Some("force_new"@) && #[trigger] displayed_key(before[j].0) == Some("force_new"@)) by {
            assert(before[i] == args[i] && before[j] == args[j]);
        }
        lemma_args_by_entries(before);
        lemma_entry(key, value);
        assert(entries[n] == (arg_key(key), arg_value(value)));
        assert forall|i: int| 0 <= i < n implies entries[i] == arg_entries(before)[i] by {}
        if args_of(before) is Ok {
            let read = args_of(before)->Ok_0;
            if is_fine(entries[n]) {
                assert(args_of(args) is Ok);
                let after = args_of(args)->Ok_0;
                let name = shown(arg_key(key))->0;
                if name != "credentials"@ && name != "force_new"@ {
                    let part = name + "="@ + text_of(arg_value(value))->0;
                    assert(after.parts == read.parts.push(part));
                    vstd::seq_lib::to_multiset_build(read.parts, part);
                    assert(after.parts.to_multiset() =~= parts_of(entries));
                } else {
                    assert(after.parts.to_multiset() =~= parts_of(entries));
                }
                if name == "force_new"@ {
                    reveal_strlit("force_new");
                    reveal_strlit("credentials");
                    assert("force_new"@.len() != "credentials"@.len());
                    assert forall|i: int| 0 <= i < n implies !forces(#[trigger] entries[i]) by {
                        lemma_entry(args[i].0, args[i].1);
                        assert(displayed_key(args[n].0) == Some("force_new"@));
                        assert(displayed_key(args[i].0) != Some("force_new"@));
                    }
                    assert(after.force_new == asks(arg_value(value)));
                    if after.force_new {
                        assert(forces(entries[n]));
                    }
                } else {
                    assert(after.force_new == read.force_new);
                    assert(!forces(entries[n]));
                    if read.force_new {
                        let i = choose|i: int|
                            0 <= i < before.len() && forces(#[trigger] arg_entries(before)[i]);
                        assert(forces(entries[i]));
                    }
                }
            } else {
                assert(args_of(args) is Err);
            }
        } else {
            let i = choose|i: int| 0 <= i < n && !is_fine(#[trigger] arg_entries(before)[i]);
            assert(!is_fine(entries[i]));
        }
    }
}

proof fn lemma_parts_without(entries: Seq<(ArgKey, ArgValue)>, i: int)
    requires
        0 <= i < entries.len(),
    ensures
        parts_of(entries) =~= parts_of(entries.remove(i)).add(part_of(entries[i])),
    decreases entries.len(),
{
    let n = entries.len() - 1;
    if i == n {
        assert(entries.remove(i) =~= entries.drop_last());
    } else {
        let before = entries.drop_last();
        lemma_parts_without(before, i);
        assert(entries.remove(i).drop_last() =~= before.remove(i));
        assert(entries.remove(i).last() == entries.last());
    }
}

proof fn lemma_parts_in_any_order(a: Seq<(ArgKey, ArgValue)>, b: Seq<(ArgKey, ArgValue)>)
    requires
        a.to_multiset() == b.to_multiset(),
    ensures
        parts_of(a) == parts_of(b),
    decreases a.len(),
{
    a.to_multiset_ensures();
    b.to_multiset_ensures();
    assert(a.len() == b.len());
    if a.len() > 0 {
        let last = a.last();
        assert(a.contains(last));
        assert(b.to_multiset().count(last) > 0);
        let i = b.index_of(last);
        let n = a.len() - 1;
        assert(a.remove(n) =~= a.drop_last());
        assert(a.drop_last().to_multiset() == b.remove(i).to_multiset());
        lemma_parts_in_any_order(a.drop_last(), b.remove(i));
        lemma_parts_without(b, i);
    }
}

proof fn lemma_entry_of(args: Entries, name: Seq<char>)
    ensures
        match entry_of(args, name) {
            Some(v) => exists|i: int|
                0 <= i < args.len() && key_is(#[trigger] args[i].0, name) && args[i].1 == v,
            None => forall|i: int| 0 <= i < args.len() ==> !key_is(#[trigger] args[i].0, name),
        },
    decreases args.len(),
{
    if args.len() > 0 {
        if !key_is(args[0].0, name) {
            let rest = args.skip(1);
            lemma_entry_of(rest, name);
            match entry_of(rest, name) {
                Some(v) => {
                    let i = choose|i: int|
                        0 <= i < rest.len() && key_is(#[trigger] rest[i].0, name) && rest[i].1
                            == v;
                    assert(key_is(args[i + 1].0, name) && args[i + 1].1 == v);
                },
                None => {
                    assert forall|i: int| 0 <= i < args.len() implies !key_is(
                        #[trigger] args[i].0,
                        name,
                    ) by {
                        if i > 0 {
                            assert(rest[i - 1] == args[i]);
                        }
                    }
                },
            }
        }
    }
}

/// What the value under a key holds.
spec fn value_under(args: Entries, name: Seq<char>) -> Option<ArgValue> {
    match entry_of(args, name) {
        Some(v) => Some(arg_value(v)),
        None => None,
    }
}

proof fn lemma_value_in_any_order(a: Entries, b: Entries, name: Seq<char>)
    requires
        arg_entries(a).to_multiset() == arg_entries(b).to_multiset(),
        at_most_one(a, name),
        at_most_one(b, name),
    ensures
        value_under(a, name) is Some ==> value_under(a, name) == value_under(b, name),
{
    lemma_entry_of(a, name);
    lemma_entry_of(b, name);
    if value_under(a, name) is Some {
        let i = choose|i: int|
            0 <= i < a.len() && key_is(#[trigger] a[i].0, name) && a[i].1 == entry_of(a, name)->0;
        let entry = arg_entries(a)[i];
        arg_entries(a).to_multiset_ensures();
        arg_entries(b).to_multiset_ensures();
        assert(arg_entries(a).contains(entry));
        assert(arg_entries(b).to_multiset().count(entry) > 0);
        let j = arg_entries(b).index_of(entry);
        assert(arg_entries(b)[j] == entry);
        lemma_key_is(a[i].0, name);
        lemma_key_is(b[j].0, name);
        assert(key_is(b[j].0, name));
        let k = choose|k: int|
            0 <= k < b.len() && key_is(#[trigger] b[k].0, name) && b[k].1 == entry_of(b, name)->0;
        lemma_key_is(b[k].0, name);
        assert(j == k) by {
            if j < k {
                assert(displayed_key(b[j].0) == Some(name) && displayed_key(b[k].0) == Some(name));
            } else if k < j {
                assert(displayed_key(b[k].0) == Some(name) && displayed_key(b[j].0) == Some(name));
            }
        }
    }
}

proof fn lemma_same_key(target: Seq<char>, a: Entries, b: Entries)
    requires
        arg_entries(a).to_multiset() == arg_entries(b).to_multiset(),
        at_most_one(a, "force_new"@),
        at_most_one(b, "force_new"@),
        at_most_one(a, "credentials"@),
        at_most_one(b, "credentials"@),
        args_of(a) is Ok,
        creds_of(a) is Ok,
    ensures
        args_of(b) is Ok,
        creds_of(b) is Ok,
        key_for(target, a) == key_for(target, b),
{
    let ea = arg_entries(a);
    let eb = arg_entries(b);
    lemma_args_by_entries(a);
    lemma_args_by_entries(b);
    ea.to_multiset_ensures();
    eb.to_multiset_ensures();
    assert(ea.len() == eb.len());
    assert forall|i: int| 0 <= i < b.len() implies is_fine(#[trigger] eb[i]) by {
        assert(eb.contains(eb[i]));
        assert(ea.to_multiset().count(eb[i]) > 0);
        let j = ea.index_of(eb[i]);
        assert(is_fine(ea[j]));
    }
    lemma_parts_in_any_order(ea, eb);
    let read_a = args_of(a)->Ok_0;
    let read_b = args_of(b)->Ok_0;
    if read_a.force_new {
        let i = choose|i: int| 0 <= i < a.len() && forces(#[trigger] ea[i]);
        assert(ea.contains(ea[i]));
        assert(eb.to_multiset().count(ea[i]) > 0);
        assert(forces(eb[eb.index_of(ea[i])]));
    }
    if read_b.force_new {
        let i = choose|i: int| 0 <= i < b.len() && forces(#[trigger] eb[i]);
        assert(eb.contains(eb[i]));
        assert(ea.to_multiset().count(eb[i]) > 0);
        assert(forces(ea[ea.index_of(eb[i])]));
    }
    lemma_value_in_any_order(a, b, "credentials"@);
    lemma_value_in_any_order(b, a, "credentials"@);
    law_argument_order_is_ignored(
        target,
        creds_id(creds_of(a)->Ok_0),
        read_a.parts,
        read_b.parts,
    );
}

/// The same arguments in another order share one transport: once a channel was
/// constructed that is not kept to itself, every later one to the same target
/// with the same arguments, in whatever order, has its transport, whether or
/// not the first is closed by then and whatever channels were constructed in
/// between.
pub proof fn law_same_arguments_share_a_transport(
    registry: RegistryView,
    target: Seq<char>,
    a: Entries,
    first: Construction,
    between: Seq<Constructed>,
    b: Entries,
    again: Result<Construction, PhpException>,
)
    requires
        arg_entries(a).to_multiset() == arg_entries(b).to_multiset(),
        at_most_one(a, "force_new"@),
        at_most_one(b, "force_new"@),
        at_most_one(a, "credentials"@),
        at_most_one(b, "credentials"@),
        constructed(registry, target, a, first),
        !is_private(a),
        all_constructed(after_construction(registry, first), between),
        construction(
            after_all(after_construction(registry, first), between),
            target,
            b,
            again,
        ),
    ensures
        again matches Ok(Construction::Ready(channel)) && channel.inner->0.transport
            == transport_of(registry, first),
{
    lemma_same_key(target, a, b);
    let after = after_construction(registry, first);
    let key = key_for(target, a)->0;
    if let Construction::Connect { pending, .. } = first {
        assert(text_in(pending.persist_key) == Some(key));
    }
    assert(after.shared.dom().contains(key));
    lemma_stays_shared(after, between, key);
}

proof fn lemma_stays_shared(registry: RegistryView, list: Seq<Constructed>, key: Seq<char>)
    requires
        all_constructed(registry, list),
        registry.shared.dom().contains(key),
    ensures
        after_all(registry, list).shared.dom().contains(key),
        after_all(registry, list).shared[key] == registry.shared[key],
    decreases list.len(),
{
    if list.len() > 0 {
        lemma_stays_shared(registry, list.drop_last(), key);
        if let Construction::Connect { pending, .. } = list.last().made {
            assert(text_in(pending.persist_key) == key_for(list.last().target, list.last().args));
        }
    }
}

} // verus!

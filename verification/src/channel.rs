//! Channels: their arguments, their sharing, and their connectivity.

use crate::clock::micros_at;
use crate::credentials::{
    same_plugins, text_in, CredentialsInner, GrpcChannelCredentials, TlsSettings,
};
use crate::endpoint::{build_endpoint, endpoint_result, get_long, long_arg, Entries};
use crate::error::{
    exception, invalid_argument, invalid_argument_view, runtime_exception, thrown_as,
    ExceptionClass, ExceptionView, GrpcError, PhpException,
};
use crate::text::{
    comma_free, comma_list, decimal, decimal_nat, digit_char, join_with_commas, joined,
    law_comma_lists_are_told_apart, lemma_text_order_is_total, signed_text, sort_texts, text_eq,
    text_order, texts, unsigned_text,
};
use crate::timeval::{saturating_sub, span_start, GrpcTimeval};
use crate::value::{
    display_key, displayed_key, entry_of, first_under, get, law_a_name_has_a_first_entry,
    law_keys_are_read_as_given, law_lookup_finds_the_entry, law_values_are_read_as_given, spells,
    ArrayKey, PhpValue,
};
use tonic::transport::{ClientTlsConfig, Endpoint};
use vstd::prelude::*;
use vstd::string::StringExecFns;
use vstd::utf8::{encode_utf8, valid_utf8};

verus! {

/// A channel that has not connected yet.
pub const CHANNEL_IDLE: i64 = 0;

/// A channel that is connecting.
pub const CHANNEL_CONNECTING: i64 = 1;

/// A channel that is connected.
pub const CHANNEL_READY: i64 = 2;

/// A channel whose last attempt failed.
pub const CHANNEL_TRANSIENT_FAILURE: i64 = 3;

// ---------------------------------------------------------------------------
// Arguments
// ---------------------------------------------------------------------------

/// What is wrong with channel arguments.
pub enum ArgsFault {
    /// A key is not a string.
    Key,
    /// A value is neither an integer nor a string.
    Value,
}

/// What the arguments of a channel say of its sharing.
pub struct ArgsView {
    /// The channel must not be shared.
    pub force_new: bool,
    /// `key=value` for every argument, in order.
    pub parts: Seq<Seq<char>>,
}

/// The text of an argument value.
pub open spec fn value_text(value: PhpValue) -> Option<Seq<char>> {
    match value.spec_long() {
        Some(n) => Some(decimal(n as int)),
        None => value.spec_string(),
    }
}

/// Whether a `force_new` value asks for a new channel: true or a number that
/// is not 0.
pub open spec fn asks_for_new(value: PhpValue) -> bool {
    value.spec_boolean() == Some(true) || (value.spec_long() matches Some(n) && n != 0)
}

/// One argument more. `credentials` and `force_new` are no part of the list.
pub open spec fn args_after(before: ArgsView, key: ArrayKey, value: PhpValue) -> Result<
    ArgsView,
    ArgsFault,
> {
    match displayed_key(key) {
        None => Err(ArgsFault::Key),
        Some(name) => if name == "credentials"@ {
            Ok(before)
        } else if name == "force_new"@ {
            Ok(ArgsView { force_new: asks_for_new(value), ..before })
        } else {
            match value_text(value) {
                Some(text) => Ok(
                    ArgsView { parts: before.parts.push(name + "="@ + text), ..before },
                ),
                None => Err(ArgsFault::Value),
            }
        },
    }
}

/// What channel arguments say, or the first thing wrong with them.
pub open spec fn args_of(args: Entries) -> Result<ArgsView, ArgsFault>
    decreases args.len(),
{
    if args.len() == 0 {
        Ok(ArgsView { force_new: false, parts: Seq::empty() })
    } else {
        match args_of(args.drop_last()) {
            Ok(before) => args_after(before, args.last().0, args.last().1),
            Err(fault) => Err(fault),
        }
    }
}

/// The exception for bad arguments.
pub open spec fn args_exception(fault: ArgsFault) -> ExceptionView {
    match fault {
        ArgsFault::Key => invalid_argument_view("args keys must be strings"@),
        ArgsFault::Value => invalid_argument_view("args values must be int or string"@),
    }
}

struct ChannelArgs {
    force_new: bool,
    parts: Vec<String>,
}

impl View for ChannelArgs {
    type V = ArgsView;

    closed spec fn view(&self) -> ArgsView {
        ArgsView { force_new: self.force_new, parts: texts(self.parts@) }
    }
}

proof fn lemma_args_fault(args: Entries, n: int)
    requires
        0 <= n <= args.len(),
        args_of(args.take(n)) is Err,
    ensures
        args_of(args) == args_of(args.take(n)),
    decreases args.len() - n,
{
    if n == args.len() {
        assert(args.take(n) =~= args);
    } else {
        assert(args.take(n + 1).drop_last() =~= args.take(n));
        lemma_args_fault(args, n + 1);
    }
}

/// The text of an argument value.
fn text_of_value(value: &PhpValue) -> (r: Option<String>)
    ensures
        r is Some <==> value_text(*value) is Some,
        r matches Some(text) ==> value_text(*value) == Some(text@),
{
    match value.long() {
        Some(n) => Some(signed_text(n)),
        None => value.string(),
    }
}

/// Checks the arguments of a channel.
fn read_args(args: &Vec<(ArrayKey, PhpValue)>) -> (r: Result<ChannelArgs, PhpException>)
    ensures
        match r {
            Ok(read) => args_of(args@) == Ok::<ArgsView, ArgsFault>(read@),
            Err(e) => args_of(args@) matches Err(fault) && e@ == args_exception(fault),
        },
{
    let mut read = ChannelArgs { force_new: false, parts: Vec::new() };
    let mut i: usize = 0;
    proof {
        assert(args@.take(0) =~= Seq::empty());
        assert(texts(read.parts@) =~= Seq::<Seq<char>>::empty());
    }
    while i < args.len()
        invariant
            i <= args.len(),
            args_of(args@.take(i as int)) == Ok::<ArgsView, ArgsFault>(read@),
        decreases args.len() - i,
    {
        proof {
            assert(args@.take(i + 1).drop_last() =~= args@.take(i as int));
            assert(args@.take(i + 1).last() == args@[i as int]);
        }
        let ghost before = read@;
        let value = &args[i].1;
        match display_key(&args[i].0) {
            None => {
                proof {
                    lemma_args_fault(args@, i + 1);
                }
                return Err(invalid_argument("args keys must be strings"));
            },
            Some(name) => {
                if text_eq(name.as_str(), "credentials") {
                } else if text_eq(name.as_str(), "force_new") {
                    let by_flag: bool = match value.boolean() {
                        Some(b) => b,
                        None => false,
                    };
                    let by_number: bool = match value.long() {
                        Some(n) => n != 0,
                        None => false,
                    };
                    read.force_new = by_flag || by_number;
                } else {
                    match text_of_value(value) {
                        Some(text) => {
                            let mut part = joined(name.as_str(), "=");
                            part.append(text.as_str());
                            read.parts.push(part);
                            proof {
                                assert(read@.parts =~= before.parts.push(part@));
                            }
                        },
                        None => {
                            proof {
                                lemma_args_fault(args@, i + 1);
                            }
                            return Err(invalid_argument("args values must be int or string"));
                        },
                    }
                }
            },
        }
        i = i + 1;
    }
    assert(args@.take(i as int) =~= args@);
    Ok(read)
}

/// The credentials among channel arguments: null stands for none, and
/// anything that is not credentials is an error.
pub open spec fn creds_of(args: Entries) -> Result<Option<GrpcChannelCredentials>, ()> {
    match entry_of(args, "credentials"@) {
        None => Ok(None),
        Some(PhpValue::Null) => Ok(None),
        Some(PhpValue::ChannelCredentials(creds)) => Ok(Some(creds)),
        Some(_) => Err(()),
    }
}

/// The credentials among channel arguments.
fn read_creds(args: &Vec<(ArrayKey, PhpValue)>) -> (r: Result<
    Option<&GrpcChannelCredentials>,
    PhpException,
>)
    ensures
        match r {
            Ok(Some(creds)) => creds_of(args@) == Ok::<Option<GrpcChannelCredentials>, ()>(
                Some(*creds),
            ),
            Ok(None) => creds_of(args@) == Ok::<Option<GrpcChannelCredentials>, ()>(None),
            Err(e) => creds_of(args@) is Err && e@ == invalid_argument_view(
                "credentials must be a ChannelCredentials object"@,
            ),
        },
{
    match get(args, "credentials") {
        None => Ok(None),
        Some(PhpValue::Null) => Ok(None),
        Some(PhpValue::ChannelCredentials(creds)) => Ok(Some(creds)),
        Some(_) => Err(invalid_argument("credentials must be a ChannelCredentials object")),
    }
}

/// A message size limit: -1 is no limit, and any other number that is not
/// positive sets none.
pub open spec fn message_limit(args: Entries, name: Seq<char>) -> Option<usize> {
    match long_arg(args, name) {
        Some(n) => if n == -1 {
            Some(usize::MAX)
        } else if n > 0 {
            Some(n as usize)
        } else {
            None
        },
        None => None,
    }
}

fn read_limit(args: &Vec<(ArrayKey, PhpValue)>, name: &str) -> (r: Option<usize>)
    ensures
        r == message_limit(args@, name@),
{
    match get_long(args, name) {
        Some(n) => if n == -1 {
            Some(usize::MAX)
        } else if n > 0 {
            Some(
                #[verifier::truncate]
                (n as usize),
            )
        } else {
            None
        },
        None => None,
    }
}

// ---------------------------------------------------------------------------
// Sharing
// ---------------------------------------------------------------------------

/// The key under which a channel is shared: its target, the number of its
/// credentials, and its arguments in order of their text.
pub open spec fn sharing_key(target: Seq<char>, creds_id: nat, parts: Seq<Seq<char>>) -> Seq<char> {
    target + "|creds="@ + decimal_nat(creds_id) + "|"@ + comma_list(parts.sort_by(text_order()))
}

/// The plugins that credentials bring.
pub open spec fn plugins_of(creds: Option<GrpcChannelCredentials>) -> Option<Seq<u64>> {
    match creds {
        Some(c) => c.inner.plugins(),
        None => None,
    }
}

/// The plugins in an option.
pub open spec fn plugins_in(plugins: Option<Vec<u64>>) -> Option<Seq<u64>> {
    match plugins {
        Some(list) => Some(list@),
        None => None,
    }
}

/// The TLS settings that credentials bring.
pub open spec fn settings_of(creds: Option<GrpcChannelCredentials>) -> Option<TlsSettings> {
    match creds {
        Some(c) => Some(c.inner.settings()),
        None => None,
    }
}

/// The number of credentials; 0 for none.
pub open spec fn creds_id(creds: Option<GrpcChannelCredentials>) -> nat {
    match creds {
        Some(c) => c.id as nat,
        None => 0,
    }
}

/// The key under which a channel is shared, if it is: one with plugins or
/// with `force_new` never is.
pub open spec fn persist_key(
    target: Seq<char>,
    creds: Option<GrpcChannelCredentials>,
    args: ArgsView,
) -> Option<Seq<char>> {
    if plugins_of(creds) is None && !args.force_new {
        Some(sharing_key(target, creds_id(creds), args.parts))
    } else {
        None
    }
}

/// The transports of a process: the shared ones, by key, and how many there
/// were in all. A transport is known by its number.
pub struct ChannelRegistry {
    entries: Vec<(String, u64)>,
    issued: u64,
}

/// What a registry holds.
#[verifier::ext_equal]
pub struct RegistryView {
    /// The shared transports.
    pub shared: Map<Seq<char>, u64>,
    /// How many numbers were given to transports.
    pub issued: nat,
}

/// A registry in which a new transport was given the next number, and offered
/// for sharing where it has a key.
pub open spec fn registered(registry: RegistryView, key: Option<Seq<char>>) -> RegistryView {
    RegistryView {
        shared: match key {
            Some(k) => registry.shared.insert(k, (registry.issued + 1) as u64),
            None => registry.shared,
        },
        issued: registry.issued + 1,
    }
}

/// The transport under a key.
pub open spec fn transport_under(entries: Seq<(String, u64)>, key: Seq<char>) -> Option<u64>
    decreases entries.len(),
{
    if entries.len() == 0 {
        None
    } else if entries[0].0@ == key {
        Some(entries[0].1)
    } else {
        transport_under(entries.skip(1), key)
    }
}

impl View for ChannelRegistry {
    type V = RegistryView;

    closed spec fn view(&self) -> RegistryView {
        RegistryView {
            shared: Map::new(
                |key: Seq<char>| transport_under(self.entries@, key) is Some,
                |key: Seq<char>| transport_under(self.entries@, key)->0,
            ),
            issued: self.issued as nat,
        }
    }
}

proof fn lemma_transport_after_update(
    entries: Seq<(String, u64)>,
    i: int,
    entry: (String, u64),
    key: Seq<char>,
)
    requires
        0 <= i < entries.len(),
        entries[i].0@ == entry.0@,
        forall|j: int| 0 <= j < i ==> (#[trigger] entries[j]).0@ != entry.0@,
    ensures
        transport_under(entries.update(i, entry), key) == if key == entry.0@ {
            Some(entry.1)
        } else {
            transport_under(entries, key)
        },
    decreases entries.len(),
{
    let after = entries.update(i, entry);
    if i == 0 {
        assert(after.skip(1) =~= entries.skip(1));
    } else {
        assert(entries[0].0@ != entry.0@);
        assert(after.skip(1) =~= entries.skip(1).update(i - 1, entry));
        assert forall|j: int| 0 <= j < i - 1 implies (#[trigger] entries.skip(1)[j]).0@
            != entry.0@ by {
            assert(entries.skip(1)[j] == entries[j + 1]);
        }
        lemma_transport_after_update(entries.skip(1), i - 1, entry, key);
    }
}

proof fn lemma_transport_after_push(
    entries: Seq<(String, u64)>,
    entry: (String, u64),
    key: Seq<char>,
)
    requires
        forall|j: int| 0 <= j < entries.len() ==> (#[trigger] entries[j]).0@ != entry.0@,
    ensures
        transport_under(entries.push(entry), key) == if key == entry.0@ {
            Some(entry.1)
        } else {
            transport_under(entries, key)
        },
    decreases entries.len(),
{
    let after = entries.push(entry);
    if entries.len() == 0 {
        assert(after.skip(1) =~= entries);
    } else {
        assert(entries[0].0@ != entry.0@);
        assert(after.skip(1) =~= entries.skip(1).push(entry));
        assert forall|j: int| 0 <= j < entries.len() - 1 implies (#[trigger] entries.skip(
            1,
        )[j]).0@ != entry.0@ by {
            assert(entries.skip(1)[j] == entries[j + 1]);
        }
        lemma_transport_after_push(entries.skip(1), entry, key);
    }
}

impl ChannelRegistry {
    /// A registry with no transports.
    pub fn new() -> (r: ChannelRegistry)
        ensures
            r@ == (RegistryView { shared: Map::empty(), issued: 0 }),
    {
        let r = ChannelRegistry { entries: Vec::new(), issued: 0 };
        assert(r@.shared =~= Map::<Seq<char>, u64>::empty());
        r
    }

    /// The transport under a key.
    pub fn get(&self, key: &str) -> (r: Option<u64>)
        ensures
            r == if self@.shared.dom().contains(key@) {
                Some(self@.shared[key@])
            } else {
                None::<u64>
            },
    {
        let mut i: usize = 0;
        assert(self.entries@.skip(0) =~= self.entries@);
        while i < self.entries.len()
            invariant
                i <= self.entries.len(),
                transport_under(self.entries@, key@) == transport_under(
                    self.entries@.skip(i as int),
                    key@,
                ),
            decreases self.entries.len() - i,
        {
            if text_eq(self.entries[i].0.as_str(), key) {
                return Some(self.entries[i].1);
            }
            proof {
                assert(self.entries@.skip(i as int).skip(1) =~= self.entries@.skip(i + 1));
            }
            i = i + 1;
        }
        None
    }

    /// Whether another transport can be told from all the others.
    pub fn has_numbers(&self) -> (r: bool)
        ensures
            r == (self@.issued < u64::MAX),
    {
        self.issued < u64::MAX
    }

    /// The number of a new transport, which is offered for sharing where it has
    /// a key.
    fn register(&mut self, key: Option<String>) -> (transport: u64)
        requires
            old(self)@.issued < u64::MAX,
        ensures
            transport == old(self)@.issued + 1,
            final(self)@ == registered(old(self)@, text_in(key)),
    {
        let transport = self.issued + 1;
        match key {
            Some(key) => self.insert(key, transport),
            None => {},
        }
        self.issued = transport;
        transport
    }

    /// Puts a transport under a key.
    fn insert(&mut self, key: String, transport: u64)
        ensures
            final(self)@.shared == old(self)@.shared.insert(key@, transport),
            final(self).issued == old(self).issued,
    {
        let ghost before = self.entries@;
        let ghost map = self@.shared;
        let mut i: usize = 0;
        while i < self.entries.len()
            invariant
                i <= self.entries.len(),
                self.entries@ == before,
                map == self@.shared,
                map == old(self)@.shared,
                self.issued == old(self).issued,
                forall|j: int| 0 <= j < i ==> (#[trigger] before[j]).0@ != key@,
            decreases self.entries.len() - i,
        {
            if text_eq(self.entries[i].0.as_str(), key.as_str()) {
                let ghost entry = (key, transport);
                self.entries.set(i, (key, transport));
                proof {
                    assert forall|k: Seq<char>| #[trigger]
                        transport_under(self.entries@, k) == (if k == key@ {
                            Some(transport)
                        } else {
                            transport_under(before, k)
                        }) by {
                        lemma_transport_after_update(before, i as int, entry, k);
                    }
                    assert(self@.shared =~= map.insert(key@, transport));
                }
                return;
            }
            i = i + 1;
        }
        let ghost entry = (key, transport);
        self.entries.push((key, transport));
        proof {
            assert forall|k: Seq<char>| #[trigger]
                transport_under(self.entries@, k) == (if k == key@ {
                    Some(transport)
                } else {
                    transport_under(before, k)
                }) by {
                lemma_transport_after_push(before, entry, k);
            }
            assert(self@.shared =~= map.insert(key@, transport));
        }
    }
}

/// The key of a channel.
fn key_of(target: &str, creds_id: u64, parts: Vec<String>) -> (r: String)
    ensures
        r@ == sharing_key(target@, creds_id as nat, texts(parts@)),
{
    let mut key = joined(target, "|creds=");
    key.append(unsigned_text(creds_id).as_str());
    key.append("|");
    let sorted = sort_texts(parts);
    key.append(join_with_commas(&sorted).as_str());
    key
}

// ---------------------------------------------------------------------------
// Channels
// ---------------------------------------------------------------------------

/// What an open channel holds.
pub struct ChannelInner {
    /// The shared transport, by the number the process knows it by.
    pub transport: u64,
    pub target: String,
    /// The plugins that every call asks for metadata.
    pub call_plugins: Option<Vec<u64>>,
    pub max_decoding_message_size: Option<usize>,
    pub max_encoding_message_size: Option<usize>,
}

/// `Grpc\Channel`. A closed channel holds nothing.
pub struct GrpcChannel {
    pub inner: Option<ChannelInner>,
}

/// A channel that waits for its transport.
pub struct PendingChannel {
    pub persist_key: Option<String>,
    pub target: String,
    pub call_plugins: Option<Vec<u64>>,
    pub max_decoding_message_size: Option<usize>,
    pub max_encoding_message_size: Option<usize>,
}

/// How the construction of a channel goes on.
pub enum Construction {
    /// It shares a transport that is there, and is done.
    Ready(GrpcChannel),
    /// It needs a new transport to the endpoint.
    Connect { endpoint: Endpoint, pending: PendingChannel },
}

/// Whether an open channel is the one for a target, arguments, credentials
/// and transport.
pub open spec fn is_channel(
    channel: GrpcChannel,
    target: Seq<char>,
    args: Entries,
    creds: Option<GrpcChannelCredentials>,
    transport: u64,
) -> bool {
    &&& channel.inner matches Some(inner)
    &&& inner.transport == transport
    &&& inner.target@ == target
    &&& plugins_in(inner.call_plugins) == plugins_of(creds)
    &&& inner.max_decoding_message_size == message_limit(
        args,
        "grpc.max_receive_message_length"@,
    )
    &&& inner.max_encoding_message_size == message_limit(args, "grpc.max_send_message_length"@)
}

/// Whether a pending channel is the one for a target, arguments and
/// credentials.
pub open spec fn is_pending(
    pending: PendingChannel,
    target: Seq<char>,
    args: Entries,
    creds: Option<GrpcChannelCredentials>,
    key: Option<Seq<char>>,
) -> bool {
    &&& text_in(pending.persist_key) == key
    &&& pending.target@ == target
    &&& plugins_in(pending.call_plugins) == plugins_of(creds)
    &&& pending.max_decoding_message_size == message_limit(
        args,
        "grpc.max_receive_message_length"@,
    )
    &&& pending.max_encoding_message_size == message_limit(args, "grpc.max_send_message_length"@)
}

/// What the construction of a channel comes to.
///
/// Bad arguments come first, then bad credentials; a transport under the key
/// is shared; and otherwise the endpoint decides.
pub open spec fn construction(
    registry: RegistryView,
    target: Seq<char>,
    args: Entries,
    result: Result<Construction, PhpException>,
) -> bool {
    match args_of(args) {
        Err(fault) => result matches Err(e) && e@ == args_exception(fault),
        Ok(read) => match creds_of(args) {
            Err(_) => result matches Err(e) && e@ == invalid_argument_view(
                "credentials must be a ChannelCredentials object"@,
            ),
            Ok(creds) => {
                let key = persist_key(target, creds, read);
                if key is Some && registry.shared.dom().contains(key->0) {
                    result matches Ok(Construction::Ready(channel)) && is_channel(
                        channel,
                        target,
                        args,
                        creds,
                        registry.shared[key->0],
                    )
                } else {
                    match result {
                        Ok(Construction::Connect { endpoint, pending }) => endpoint_result(
                            target,
                            args,
                            settings_of(creds),
                            Ok(endpoint),
                        ) && is_pending(pending, target, args, creds, key),
                        Ok(Construction::Ready(_)) => false,
                        Err(e) => exists|error: GrpcError|
                            endpoint_result(target, args, settings_of(creds), Err(error))
                                && #[trigger] thrown_as(error, e@),
                    }
                }
            },
        },
    }
}

/// Goes on with the endpoint of a channel that shares no transport, or with
/// the failure to build one.
pub fn begun(endpoint: Result<Endpoint, GrpcError>, pending: PendingChannel) -> (r: Result<
    Construction,
    PhpException,
>)
    ensures
        match endpoint {
            Ok(e) => r == Ok::<Construction, PhpException>(
                Construction::Connect { endpoint: e, pending },
            ),
            Err(error) => r matches Err(x) && thrown_as(error, x@),
        },
{
    match endpoint {
        Ok(endpoint) => Ok(Construction::Connect { endpoint, pending }),
        Err(error) => Err(error.into_exception()),
    }
}

impl PendingChannel {
    /// The channel with its transport, a new one, which it offers for sharing
    /// where it has a key.
    pub fn connected(self, registry: &mut ChannelRegistry) -> (r: GrpcChannel)
        requires
            old(registry)@.issued < u64::MAX,
        ensures
            r.inner == Some(
                ChannelInner {
                    transport: (old(registry)@.issued + 1) as u64,
                    target: self.target,
                    call_plugins: self.call_plugins,
                    max_decoding_message_size: self.max_decoding_message_size,
                    max_encoding_message_size: self.max_encoding_message_size,
                },
            ),
            final(registry)@ == registered(old(registry)@, text_in(self.persist_key)),
    {
        let transport = registry.register(self.persist_key);
        GrpcChannel {
            inner: Some(
                ChannelInner {
                    transport,
                    target: self.target,
                    call_plugins: self.call_plugins,
                    max_decoding_message_size: self.max_decoding_message_size,
                    max_encoding_message_size: self.max_encoding_message_size,
                },
            ),
        }
    }
}

/// What a query for the connectivity state gives, and whether an attempt to
/// connect is to be started.
#[derive(Debug, Clone, Copy, PartialEq, Eq, Structural)]
pub struct StateQuery {
    pub state: i64,
    pub probe: bool,
}

impl StateQuery {
    /// The new state of the transport: one that an attempt is started on is
    /// connecting, and any other stays as it is.
    pub fn next_state(self) -> (r: Option<i64>)
        ensures
            r == if self.probe {
                Some(CHANNEL_CONNECTING)
            } else {
                None
            },
    {
        if self.probe {
            Some(CHANNEL_CONNECTING)
        } else {
            None
        }
    }
}

/// The state of a new transport.
pub fn initial_state() -> (r: i64)
    ensures
        r == CHANNEL_IDLE,
{
    CHANNEL_IDLE
}

/// The state of a channel whose attempt to connect has ended.
pub fn probe_outcome(ready: bool) -> (r: i64)
    ensures
        r == if ready {
            CHANNEL_READY
        } else {
            CHANNEL_TRANSIENT_FAILURE
        },
{
    if ready {
        CHANNEL_READY
    } else {
        CHANNEL_TRANSIENT_FAILURE
    }
}

/// A wait for a change of the connectivity state.
#[derive(Debug, Clone, Copy, PartialEq, Eq, Structural)]
pub struct Watch {
    pub last_state: i64,
    pub deadline_usec: i64,
}

/// How a wait goes on.
#[derive(Debug, Clone, Copy, PartialEq, Eq, Structural)]
pub enum WatchStep {
    /// It is over: whether the state changed before the deadline.
    Done(bool),
    /// It looks again after so many microseconds.
    Sleep(u64),
}

impl Watch {
    /// How a wait goes on when the channel is in a state at an instant.
    pub open spec fn spec_step(self, state: i64, now: i64) -> WatchStep {
        if state != self.last_state {
            WatchStep::Done(true)
        } else if now >= self.deadline_usec {
            WatchStep::Done(false)
        } else if self.deadline_usec - now >= 10_000 {
            WatchStep::Sleep(10_000)
        } else {
            WatchStep::Sleep((self.deadline_usec - now) as u64)
        }
    }

    /// Looks at the state, then at the clock; a wait that goes on sleeps until
    /// the deadline, but no longer than ten milliseconds.
    pub fn step(self, state: i64, now: i64) -> (r: WatchStep)
        ensures
            r == self.spec_step(state, now),
    {
        if state != self.last_state {
            return WatchStep::Done(true);
        }
        if now >= self.deadline_usec {
            return WatchStep::Done(false);
        }
        let left = saturating_sub(self.deadline_usec, now);
        if left >= 10_000 {
            WatchStep::Sleep(10_000)
        } else {
            WatchStep::Sleep(left as u64)
        }
    }
}

/// The exception for the use of a closed channel.
pub open spec fn closed_exception(message: Seq<char>) -> ExceptionView {
    exception(ExceptionClass::RuntimeException, message, 0)
}

impl GrpcChannel {
    /// Begins the construction of a channel.
    pub fn construct(
        registry: &ChannelRegistry,
        target: String,
        args: &Vec<(ArrayKey, PhpValue)>,
    ) -> (r: Result<Construction, PhpException>)
        ensures
            construction(registry@, target@, args@, r),
    {
        let read = match read_args(args) {
            Ok(read) => read,
            Err(e) => {
                return Err(e);
            },
        };
        let creds = match read_creds(args) {
            Ok(creds) => creds,
            Err(e) => {
                return Err(e);
            },
        };
        let ghost spec_creds = creds_of(args@)->Ok_0;
        let mut tls_config: Option<ClientTlsConfig> = None;
        let mut call_plugins: Option<Vec<u64>> = None;
        let mut id: u64 = 0;
        match creds {
            Some(c) => {
                id = c.id;
                match &c.inner {
                    CredentialsInner::Ssl { tls_config: config } => {
                        tls_config = Some(config.clone());
                    },
                    CredentialsInner::Composite { tls_config: config, call_plugins: plugins } => {
                        tls_config = Some(config.clone());
                        call_plugins = Some(same_plugins(plugins));
                    },
                }
            },
            None => {},
        }
        let max_decoding_message_size = read_limit(args, "grpc.max_receive_message_length");
        let max_encoding_message_size = read_limit(args, "grpc.max_send_message_length");
        let ghost view = read@;
        let persist_key = if call_plugins.is_none() && !read.force_new {
            Some(key_of(target.as_str(), id, read.parts))
        } else {
            None
        };
        match &persist_key {
            Some(key) => match registry.get(key.as_str()) {
                Some(transport) => {
                    return Ok(
                        Construction::Ready(
                            GrpcChannel {
                                inner: Some(
                                    ChannelInner {
                                        transport,
                                        target,
                                        call_plugins,
                                        max_decoding_message_size,
                                        max_encoding_message_size,
                                    },
                                ),
                            },
                        ),
                    );
                },
                None => {},
            },
            None => {},
        }
        let endpoint = build_endpoint(target.as_str(), args, tls_config);
        begun(
            endpoint,
            PendingChannel {
                persist_key,
                target,
                call_plugins,
                max_decoding_message_size,
                max_encoding_message_size,
            },
        )
    }

    /// `getTarget`: the target as it was given.
    pub fn get_target(&self) -> (r: Result<String, PhpException>)
        ensures
            match self.inner {
                Some(inner) => r matches Ok(target) && target@ == inner.target@,
                None => r matches Err(e) && e@ == closed_exception(
                    "getTarget error.Channel is already closed."@,
                ),
            },
    {
        match &self.inner {
            Some(inner) => Ok(inner.target.clone()),
            None => Err(runtime_exception("getTarget error.Channel is already closed.")),
        }
    }

    /// `getConnectivityState`, where the transport is in the state `current`.
    ///
    /// A connection is attempted when that is asked for and the channel is
    /// idle; the state that was is what is returned.
    pub fn get_connectivity_state(
        &self,
        try_to_connect: Option<&PhpValue>,
        current: i64,
    ) -> (r: Result<StateQuery, PhpException>)
        ensures
            if try_to_connect matches Some(value) && value.spec_boolean() is None {
                r matches Err(e) && e@ == invalid_argument_view(
                    "getConnectivityState expects a bool"@,
                )
            } else if self.inner is None {
                r matches Err(e) && e@ == closed_exception(
                    "getConnectivityState error.Channel is already closed."@,
                )
            } else {
                r matches Ok(query) && query == (StateQuery {
                    state: current,
                    probe: current == CHANNEL_IDLE && (try_to_connect matches Some(value)
                        && value.spec_boolean() == Some(true)),
                })
            },
    {
        let connect: bool = match try_to_connect {
            Some(value) => match value.boolean() {
                Some(b) => b,
                None => {
                    return Err(invalid_argument("getConnectivityState expects a bool"));
                },
            },
            None => false,
        };
        if self.inner.is_none() {
            return Err(
                runtime_exception("getConnectivityState error.Channel is already closed."),
            );
        }
        Ok(StateQuery { state: current, probe: connect && current == CHANNEL_IDLE })
    }

    /// `watchConnectivityState`: begins to wait until the state is another
    /// than `last_state`, or the deadline has come.
    pub fn watch_connectivity_state(&self, last_state: i64, deadline: &GrpcTimeval) -> (r: Result<
        Watch,
        PhpException,
    >)
        ensures
            match self.inner {
                Some(_) => r matches Ok(watch) && watch.last_state == last_state && exists|
                    instant: std::time::SystemTime,
                |
                    watch.deadline_usec == deadline.absolute_at(
                        span_start(#[trigger] micros_at(instant)),
                    ),
                None => r matches Err(e) && e@ == closed_exception(
                    "watchConnectivityState errorChannel is already closed."@,
                ),
            },
    {
        if self.inner.is_none() {
            return Err(
                runtime_exception("watchConnectivityState errorChannel is already closed."),
            );
        }
        Ok(Watch { last_state, deadline_usec: deadline.to_absolute_usec() })
    }

    /// Closes the channel. The transport stays for those that share it.
    pub fn close(&mut self)
        ensures
            final(self).inner is None,
    {
        self.inner = None;
    }

    /// Whether the channel is closed.
    pub fn get_closed_flag(&self) -> (r: bool)
        ensures
            r == (self.inner is None),
    {
        self.inner.is_none()
    }

    /// The transport of an open channel.
    pub fn get_tonic_channel(&self) -> (r: Option<u64>)
        ensures
            r == match self.inner {
                Some(inner) => Some(inner.transport),
                None => None,
            },
    {
        match &self.inner {
            Some(inner) => Some(inner.transport),
            None => None,
        }
    }

    /// The target of an open channel.
    pub fn get_target_uri(&self) -> (r: Option<String>)
        ensures
            match self.inner {
                Some(inner) => r matches Some(target) && target@ == inner.target@,
                None => r is None,
            },
    {
        match &self.inner {
            Some(inner) => Some(inner.target.clone()),
            None => None,
        }
    }

    /// The plugins of an open channel.
    pub fn get_call_plugin(&self) -> (r: Option<Vec<u64>>)
        ensures
            plugins_in(r) == match self.inner {
                Some(inner) => plugins_in(inner.call_plugins),
                None => None,
            },
    {
        match &self.inner {
            Some(inner) => match &inner.call_plugins {
                Some(plugins) => Some(same_plugins(plugins)),
                None => None,
            },
            None => None,
        }
    }

    /// The greatest size of a received message, where there is a limit.
    pub fn get_max_decoding_message_size(&self) -> (r: Option<usize>)
        ensures
            r == match self.inner {
                Some(inner) => inner.max_decoding_message_size,
                None => None,
            },
    {
        match &self.inner {
            Some(inner) => inner.max_decoding_message_size,
            None => None,
        }
    }

    /// The greatest size of a sent message, where there is a limit.
    pub fn get_max_encoding_message_size(&self) -> (r: Option<usize>)
        ensures
            r == match self.inner {
                Some(inner) => inner.max_encoding_message_size,
                None => None,
            },
    {
        match &self.inner {
            Some(inner) => inner.max_encoding_message_size,
            None => None,
        }
    }
}

// ---------------------------------------------------------------------------
// Laws
// ---------------------------------------------------------------------------

/// The order of its arguments makes no difference to which transport a
/// channel shares.
pub proof fn law_argument_order_is_ignored(
    target: Seq<char>,
    creds_id: nat,
    a: Seq<Seq<char>>,
    b: Seq<Seq<char>>,
)
    requires
        a.to_multiset() == b.to_multiset(),
    ensures
        sharing_key(target, creds_id, a) == sharing_key(target, creds_id, b),
{
    let le = text_order();
    lemma_text_order_is_total();
    a.lemma_sort_by_ensures(le);
    b.lemma_sort_by_ensures(le);
    vstd::seq_lib::lemma_sorted_unique(a.sort_by(le), b.sort_by(le), le);
}

proof fn lemma_decimal_digits(n: nat)
    ensures
        decimal_nat(n).len() > 0,
        forall|i: int| 0 <= i < decimal_nat(n).len() ==> #[trigger] decimal_nat(n)[i] != '|',
    decreases n,
{
    if n >= 10 {
        lemma_decimal_digits(n / 10);
    }
}

proof fn lemma_decimal_injective(a: nat, b: nat)
    requires
        decimal_nat(a) == decimal_nat(b),
    ensures
        a == b,
    decreases a,
{
    let s = decimal_nat(a);
    lemma_decimal_digits(a / 10);
    lemma_decimal_digits(b / 10);
    if a < 10 {
        assert(s.len() == 1);
        assert(b < 10) by {
            if b >= 10 {
                assert(decimal_nat(b).len() >= 2);
            }
        }
        assert(s[0] == digit_char(a));
        assert(decimal_nat(b)[0] == digit_char(b));
    } else {
        assert(s.len() >= 2);
        assert(b >= 10);
        let t = decimal_nat(b);
        assert(s.drop_last() =~= decimal_nat(a / 10));
        assert(t.drop_last() =~= decimal_nat(b / 10));
        lemma_decimal_injective(a / 10, b / 10);
        assert(s.last() == digit_char(a % 10));
        assert(t.last() == digit_char(b % 10));
    }
}

proof fn lemma_split_at_bar(a: Seq<char>, b: Seq<char>, x: Seq<char>, y: Seq<char>)
    requires
        a + seq!['|'] + x == b + seq!['|'] + y,
        forall|i: int| 0 <= i < a.len() ==> a[i] != '|',
        forall|i: int| 0 <= i < b.len() ==> b[i] != '|',
    ensures
        a == b,
{
    let s = a + seq!['|'] + x;
    let t = b + seq!['|'] + y;
    assert(s[a.len() as int] == '|');
    assert(t[b.len() as int] == '|');
    if a.len() < b.len() {
        assert(t[a.len() as int] == b[a.len() as int]);
    } else if b.len() < a.len() {
        assert(s[b.len() as int] == a[b.len() as int]);
    }
    assert(a =~= b) by {
        assert forall|i: int| 0 <= i < a.len() implies a[i] == b[i] by {
            assert(s[i] == a[i]);
            assert(t[i] == b[i]);
        }
    }
}

/// Channels to one target with different credentials never share a transport,
/// whatever their arguments are.
pub proof fn law_credentials_are_not_mixed(
    target: Seq<char>,
    id_a: nat,
    a: Seq<Seq<char>>,
    id_b: nat,
    b: Seq<Seq<char>>,
)
    requires
        id_a != id_b,
    ensures
        sharing_key(target, id_a, a) != sharing_key(target, id_b, b),
{
    reveal_strlit("|");
    reveal_strlit("|creds=");
    let x = comma_list(a.sort_by(text_order()));
    let y = comma_list(b.sort_by(text_order()));
    if sharing_key(target, id_a, a) == sharing_key(target, id_b, b) {
        let head = target + "|creds="@;
        let s = sharing_key(target, id_a, a);
        let t = sharing_key(target, id_b, b);
        assert("|"@ =~= seq!['|']);
        assert(s.skip(head.len() as int) =~= decimal_nat(id_a) + seq!['|'] + x);
        assert(t.skip(head.len() as int) =~= decimal_nat(id_b) + seq!['|'] + y);
        lemma_decimal_digits(id_a);
        lemma_decimal_digits(id_b);
        lemma_split_at_bar(decimal_nat(id_a), decimal_nat(id_b), x, y);
        lemma_decimal_injective(id_a, id_b);
    }
}

/// A channel with plugins, or one that asked to be new, neither takes a
/// shared transport nor offers its own.
pub proof fn law_private_channels_stay_private(
    registry: RegistryView,
    target: Seq<char>,
    args: Entries,
    result: Result<Construction, PhpException>,
)
    requires
        construction(registry, target, args, result),
        args_of(args) is Ok,
        creds_of(args) is Ok,
        plugins_of(creds_of(args)->Ok_0) is Some || args_of(args)->Ok_0.force_new,
    ensures
        match result {
            Ok(Construction::Ready(_)) => false,
            Ok(Construction::Connect { pending, .. }) => pending.persist_key is None,
            Err(_) => true,
        },
{
}

/// A wait for a change of state is over at the deadline at the latest, and it
/// never sleeps past the deadline, nor longer than ten milliseconds, nor not
/// at all.
pub proof fn law_watch_keeps_its_deadline(watch: Watch, state: i64, now: i64)
    ensures
        now >= watch.deadline_usec ==> watch.spec_step(state, now) is Done,
        watch.spec_step(state, now) matches WatchStep::Sleep(usec) ==> 1 <= usec <= 10_000 && now
            + usec <= watch.deadline_usec,
        state != watch.last_state ==> watch.spec_step(state, now) == WatchStep::Done(true),
{
}

/// Whether a limit is the one that arguments set under a name. A positive number
/// is the limit itself, however large, as far as a size can hold it; -1 stands
/// for no limit; any other number, or no number, sets none.
pub open spec fn is_limit(limit: Option<usize>, args: Entries, name: Seq<char>) -> bool {
    &&& forall|i: int| #[trigger]
        first_under(args, name, i) ==> match args[i].1 {
            PhpValue::Long(n) => {
                &&& 0 < n <= usize::MAX ==> (limit matches Some(size) && size == n)
                &&& n > usize::MAX ==> limit == Some(n as usize)
                &&& n == -1 ==> limit == Some(usize::MAX)
                &&& n <= 0 && n != -1 ==> limit is None
            },
            _ => limit is None,
        }
    &&& (forall|i: int| 0 <= i < args.len() ==> !spells((#[trigger] args[i]).0, name))
        ==> limit is None
}

proof fn lemma_is_limit(args: Entries, name: Seq<char>)
    ensures
        is_limit(message_limit(args, name), args, name),
{
    assert forall|i: int| #[trigger] first_under(args, name, i) implies entry_of(args, name)
        == Some(args[i].1) by {
        law_lookup_finds_the_entry(args, name, i);
    }
    law_lookup_finds_the_entry(args, name, 0);
}

/// Whether a channel has the plugins of the credentials in arguments: those of
/// composite credentials, in their order, and none otherwise.
pub open spec fn has_plugins(plugins: Option<Vec<u64>>, args: Entries) -> bool {
    &&& forall|i: int| #[trigger]
        first_under(args, "credentials"@, i) ==> match args[i].1 {
            PhpValue::ChannelCredentials(creds) => match creds.inner {
                CredentialsInner::Ssl { .. } => plugins is None,
                CredentialsInner::Composite { call_plugins, .. } => plugins matches Some(list)
                    && list@ == call_plugins@,
            },
            _ => plugins is None,
        }
    &&& (forall|i: int| 0 <= i < args.len() ==> !spells((#[trigger] args[i]).0, "credentials"@))
        ==> plugins is None
}

/// A channel is what was asked for. The limits of its messages are the numbers
/// that its arguments give, its target is the one that was given, and its
/// plugins are those of its credentials, whether it shares a transport or needs
/// a new one.
pub proof fn law_channels_are_as_asked(
    registry: RegistryView,
    target: Seq<char>,
    args: Entries,
    made: Construction,
)
    requires
        construction(registry, target, args, Ok(made)),
    ensures
        match made {
            Construction::Ready(channel) => channel.inner matches Some(inner) && {
                &&& inner.target@ == target
                &&& is_limit(
                    inner.max_decoding_message_size,
                    args,
                    "grpc.max_receive_message_length"@,
                )
                &&& is_limit(
                    inner.max_encoding_message_size,
                    args,
                    "grpc.max_send_message_length"@,
                )
                &&& has_plugins(inner.call_plugins, args)
                &&& exists|key: Seq<char>| #[trigger]
                    registry.shared.dom().contains(key) && registry.shared[key] == inner.transport
            },
            Construction::Connect { pending, .. } => {
                &&& pending.target@ == target
                &&& is_limit(
                    pending.max_decoding_message_size,
                    args,
                    "grpc.max_receive_message_length"@,
                )
                &&& is_limit(
                    pending.max_encoding_message_size,
                    args,
                    "grpc.max_send_message_length"@,
                )
                &&& has_plugins(pending.call_plugins, args)
            },
        },
{
    lemma_is_limit(args, "grpc.max_receive_message_length"@);
    lemma_is_limit(args, "grpc.max_send_message_length"@);
    assert forall|i: int| #[trigger] first_under(args, "credentials"@, i) implies entry_of(
        args,
        "credentials"@,
    ) == Some(args[i].1) by {
        law_lookup_finds_the_entry(args, "credentials"@, i);
    }
    law_lookup_finds_the_entry(args, "credentials"@, 0);
}

/// A positive number that is given as the limit of received or of sent messages
/// is the limit of the channel: that number itself, for every number that a size
/// can hold.
pub proof fn law_message_limits_are_the_given_numbers(
    registry: RegistryView,
    target: Seq<char>,
    args: Entries,
    made: Construction,
    i: int,
    n: i64,
)
    requires
        construction(registry, target, args, Ok(made)),
        0 < n <= usize::MAX,
        0 <= i < args.len(),
        args[i].1 == PhpValue::Long(n),
    ensures
        first_under(args, "grpc.max_receive_message_length"@, i) ==> match made {
            Construction::Ready(channel) => channel.inner matches Some(inner)
                && inner.max_decoding_message_size == Some(n as usize),
            Construction::Connect { pending, .. } => pending.max_decoding_message_size == Some(
                n as usize,
            ),
        },
        first_under(args, "grpc.max_send_message_length"@, i) ==> match made {
            Construction::Ready(channel) => channel.inner matches Some(inner)
                && inner.max_encoding_message_size == Some(n as usize),
            Construction::Connect { pending, .. } => pending.max_encoding_message_size == Some(
                n as usize,
            ),
        },
{
    law_channels_are_as_asked(registry, target, args, made);
}

/// Whether an argument has a name, and a value that a channel can take under it:
/// an integer or a text, and anything under `credentials` and `force_new`.
pub open spec fn is_argument(arg: (ArrayKey, PhpValue)) -> bool {
    displayed_key(arg.0) matches Some(name) && (name == "credentials"@ || name == "force_new"@
        || arg.1 is Long || (arg.1 matches PhpValue::Str(bytes) && valid_utf8(bytes@)))
}

/// Whether the last argument under `force_new` is true or a number that is not
/// 0.
pub open spec fn wants_new(args: Entries) -> bool {
    exists|i: int|
        #![trigger args[i]]
        {
            &&& 0 <= i < args.len()
            &&& displayed_key(args[i].0) == Some("force_new"@)
            &&& args[i].1 == PhpValue::Bool(true) || (args[i].1 matches PhpValue::Long(n) && n != 0)
            &&& forall|j: int|
                i < j < args.len() ==> displayed_key((#[trigger] args[j]).0) != Some("force_new"@)
        }
}

/// Whether an argument tells channels apart. `credentials` and `force_new` do
/// so in another way.
pub open spec fn is_listed(arg: (ArrayKey, PhpValue)) -> bool {
    displayed_key(arg.0) != Some("credentials"@) && displayed_key(arg.0) != Some("force_new"@)
}

/// Whether a text is the name of an argument, an equals sign and its value: an
/// integer in digits, a string as it is.
pub open spec fn tells(part: Seq<char>, arg: (ArrayKey, PhpValue)) -> bool {
    displayed_key(arg.0) matches Some(name) && match arg.1 {
        PhpValue::Long(n) => part == name + "="@ + decimal(n as int),
        PhpValue::Str(bytes) => exists|text: Seq<char>|
            encode_utf8(text) == bytes@ && part == #[trigger] (name + "="@ + text),
        _ => false,
    }
}

proof fn lemma_wants_new(args: Entries)
    requires
        args.len() > 0,
    ensures
        displayed_key(args.last().0) == Some("force_new"@) ==> (wants_new(args) <==> (
        args.last().1 == PhpValue::Bool(true) || (args.last().1 matches PhpValue::Long(n) && n
            != 0))),
        displayed_key(args.last().0) != Some("force_new"@) ==> (wants_new(args) <==> wants_new(
            args.drop_last(),
        )),
{
    let before = args.drop_last();
    let last = args.len() - 1;
    assert(args[last] == args.last());
    if displayed_key(args.last().0) == Some("force_new"@) {
        if wants_new(args) {
            let i = choose|i: int|
                #![trigger args[i]]
                {
                    &&& 0 <= i < args.len()
                    &&& displayed_key(args[i].0) == Some("force_new"@)
                    &&& args[i].1 == PhpValue::Bool(true) || (args[i].1 matches PhpValue::Long(n)
                        && n != 0)
                    &&& forall|j: int|
                        i < j < args.len() ==> displayed_key((#[trigger] args[j]).0) != Some(
                            "force_new"@,
                        )
                };
            assert(i == last);
        }
    } else {
        if wants_new(args) {
            let i = choose|i: int|
                #![trigger args[i]]
                {
                    &&& 0 <= i < args.len()
                    &&& displayed_key(args[i].0) == Some("force_new"@)
                    &&& args[i].1 == PhpValue::Bool(true) || (args[i].1 matches PhpValue::Long(n)
                        && n != 0)
                    &&& forall|j: int|
                        i < j < args.len() ==> displayed_key((#[trigger] args[j]).0) != Some(
                            "force_new"@,
                        )
                };
            assert(before[i] == args[i]);
            assert forall|j: int| i < j < before.len() implies displayed_key(
                (#[trigger] before[j]).0,
            ) != Some("force_new"@) by {
                assert(before[j] == args[j]);
            }
        }
        if wants_new(before) {
            let i = choose|i: int|
                #![trigger before[i]]
                {
                    &&& 0 <= i < before.len()
                    &&& displayed_key(before[i].0) == Some("force_new"@)
                    &&& before[i].1 == PhpValue::Bool(true) || (
                    before[i].1 matches PhpValue::Long(n) && n != 0)
                    &&& forall|j: int|
                        i < j < before.len() ==> displayed_key((#[trigger] before[j]).0) != Some(
                            "force_new"@,
                        )
                };
            assert(before[i] == args[i]);
            assert forall|j: int| i < j < args.len() implies displayed_key(
                (#[trigger] args[j]).0,
            ) != Some("force_new"@) by {
                if j < before.len() {
                    assert(before[j] == args[j]);
                }
            }
        }
    }
}

/// Arguments are read whole: they are taken exactly when each of them is an
/// argument; the channel is to be new exactly when they say so; and every other
/// argument is listed, in order, with its name and all of its value.
pub proof fn law_arguments_are_read_whole(args: Entries)
    ensures
        args_of(args) is Ok <==> forall|i: int|
            0 <= i < args.len() ==> is_argument(#[trigger] args[i]),
        args_of(args) matches Ok(read) ==> {
            let listed = args.filter(|arg: (ArrayKey, PhpValue)| is_listed(arg));
            &&& read.force_new == wants_new(args)
            &&& read.parts.len() == listed.len()
            &&& forall|i: int|
                0 <= i < read.parts.len() ==> tells(#[trigger] read.parts[i], listed[i])
        },
    decreases args.len(),
{
    reveal(Seq::filter);
    let f = |arg: (ArrayKey, PhpValue)| is_listed(arg);
    if args.len() > 0 {
        let before = args.drop_last();
        let last = args.last();
        law_arguments_are_read_whole(before);
        law_values_are_read_as_given(last.1);
        lemma_wants_new(args);
        reveal_strlit("credentials");
        reveal_strlit("force_new");
        assert("credentials"@.len() != "force_new"@.len());
        match args_of(before) {
            Err(_) => {
                let i = choose|i: int| 0 <= i < before.len() && !is_argument(#[trigger] before[i]);
                assert(args[i] == before[i]);
            },
            Ok(read) => {
                if args_of(args) is Ok {
                    assert forall|i: int| 0 <= i < args.len() implies is_argument(
                        #[trigger] args[i],
                    ) by {
                        if i < before.len() {
                            assert(args[i] == before[i]);
                        }
                    }
                    let parts = args_of(args)->Ok_0.parts;
                    let listed = args.filter(f);
                    let kept = before.filter(f);
                    assert forall|i: int| 0 <= i < parts.len() implies tells(
                        #[trigger] parts[i],
                        listed[i],
                    ) by {
                        if i < kept.len() {
                            assert(parts[i] == read.parts[i]);
                            assert(listed[i] == kept[i]);
                        } else {
                            let name = displayed_key(last.0)->0;
                            let text = value_text(last.1)->0;
                            assert(parts[i] == name + "="@ + text);
                        }
                    }
                } else {
                    assert(args[args.len() - 1] == last);
                }
            },
        }
    }
}

/// What is wrong with the arguments of a channel is told: of the first argument
/// that is none, whether its key is no string or its value is neither an integer
/// nor a text; and then that the credentials are none. A channel is made only of
/// arguments with which nothing is wrong.
pub proof fn law_bad_arguments_are_refused(
    registry: RegistryView,
    target: Seq<char>,
    args: Entries,
    result: Result<Construction, PhpException>,
    i: int,
)
    requires
        construction(registry, target, args, result),
        0 <= i < args.len(),
    ensures
        !is_argument(args[i]) && (forall|j: int| 0 <= j < i ==> is_argument(#[trigger] args[j]))
            ==> (result matches Err(e) && e@ == (ExceptionView {
            class: ExceptionClass::InvalidArgumentException,
            message: if args[i].0 is Long {
                "args keys must be strings"@
            } else {
                "args values must be int or string"@
            },
            code: 1,
        })),
        (forall|j: int| 0 <= j < args.len() ==> is_argument(#[trigger] args[j])) && first_under(
            args,
            "credentials"@,
            i,
        ) && !(args[i].1 is Null) && !(args[i].1 is ChannelCredentials) ==> (result matches Err(e)
            && e@ == (ExceptionView {
            class: ExceptionClass::InvalidArgumentException,
            message: "credentials must be a ChannelCredentials object"@,
            code: 1,
        })),
        result is Ok ==> is_argument(args[i]),
        result is Ok && first_under(args, "credentials"@, i) ==> args[i].1 is Null
            || args[i].1 is ChannelCredentials,
{
    law_arguments_are_read_whole(args);
    law_lookup_finds_the_entry(args, "credentials"@, i);
    law_keys_are_read_as_given(args[i].0);
    if !is_argument(args[i]) && (forall|j: int| 0 <= j < i ==> is_argument(#[trigger] args[j])) {
        let before = args.take(i);
        assert forall|j: int| 0 <= j < before.len() implies is_argument(#[trigger] before[j]) by {
            assert(before[j] == args[j]);
        }
        law_arguments_are_read_whole(before);
        let upto = args.take(i + 1);
        assert(upto.drop_last() =~= before);
        assert(upto.last() == args[i]);
        law_arguments_are_read_whole(upto);
        assert(upto[i] == args[i]);
        lemma_args_fault(args, i + 1);
    }
}

/// A channel that asks to be new is not shared, and one that does not ask, and
/// has no plugins, is offered for sharing.
pub proof fn law_sharing_goes_by_the_arguments(
    registry: RegistryView,
    target: Seq<char>,
    args: Entries,
    made: Construction,
)
    requires
        construction(registry, target, args, Ok(made)),
    ensures
        wants_new(args) ==> (made matches Construction::Connect { pending, .. }
            && pending.persist_key is None),
        !wants_new(args) ==> (made matches Construction::Connect { pending, .. }
            ==> pending.call_plugins is None ==> pending.persist_key is Some),
        made matches Construction::Connect { pending, .. } ==> pending.call_plugins is Some
            ==> pending.persist_key is None,
{
    law_arguments_are_read_whole(args);
}

/// Channels with different targets, or with arguments that differ, do not share
/// a transport: where two keys are the same with the same number of credentials,
/// so are the arguments, but for their order, as long as none holds a comma; and
/// where the arguments are the same, so are the targets.
pub proof fn law_different_channels_do_not_share(
    target_a: Seq<char>,
    target_b: Seq<char>,
    creds_id: nat,
    a: Seq<Seq<char>>,
    b: Seq<Seq<char>>,
)
    ensures
        sharing_key(target_a, creds_id, a) == sharing_key(target_b, creds_id, a) ==> target_a
            == target_b,
        sharing_key(target_a, creds_id, a) == sharing_key(target_a, creds_id, b) && (forall|i: int|
            0 <= i < a.len() ==> comma_free(#[trigger] a[i])) && (forall|i: int|
            0 <= i < b.len() ==> comma_free(#[trigger] b[i])) ==> a.to_multiset()
            == b.to_multiset(),
{
    let x = sharing_key(target_a, creds_id, a);
    let y = sharing_key(target_b, creds_id, a);
    if x == y {
        let tail = "|creds="@ + decimal_nat(creds_id) + "|"@ + comma_list(a.sort_by(text_order()));
        assert(x =~= target_a + tail);
        assert(y =~= target_b + tail);
        assert(target_a.len() == target_b.len());
        assert(x.take(target_a.len() as int) =~= target_a);
        assert(y.take(target_b.len() as int) =~= target_b);
    }
    let z = sharing_key(target_a, creds_id, b);
    if x == z && (forall|i: int| 0 <= i < a.len() ==> comma_free(#[trigger] a[i])) && (forall|
        i: int,
    |
        0 <= i < b.len() ==> comma_free(#[trigger] b[i])) {
        let le = text_order();
        lemma_text_order_is_total();
        a.lemma_sort_by_ensures(le);
        b.lemma_sort_by_ensures(le);
        let sa = a.sort_by(le);
        let sb = b.sort_by(le);
        let head = target_a + "|creds="@ + decimal_nat(creds_id) + "|"@;
        assert(x.skip(head.len() as int) =~= comma_list(sa));
        assert(z.skip(head.len() as int) =~= comma_list(sb));
        assert forall|i: int| 0 <= i < sa.len() implies comma_free(#[trigger] sa[i]) by {
            sa.to_multiset_ensures();
            a.to_multiset_ensures();
            assert(sa.contains(sa[i]));
            assert(a.contains(sa[i]));
        }
        assert forall|i: int| 0 <= i < sb.len() implies comma_free(#[trigger] sb[i]) by {
            sb.to_multiset_ensures();
            b.to_multiset_ensures();
            assert(sb.contains(sb[i]));
            assert(b.contains(sb[i]));
        }
        law_comma_lists_are_told_apart(sa, sb);
    }
}

/// A new transport has a number of its own, the next one, and is found under its
/// key; every other key keeps its transport.
pub proof fn law_new_transports_are_found(
    registry: RegistryView,
    key: Seq<char>,
    other: Seq<char>,
)
    requires
        registry.issued < u64::MAX,
    ensures
        registered(registry, Some(key)).shared.dom().contains(key),
        registered(registry, Some(key)).shared[key] == registry.issued + 1,
        registered(registry, Some(key)).issued == registry.issued + 1,
        registered(registry, None).issued == registry.issued + 1,
        registered(registry, None).shared == registry.shared,
        other != key ==> (registered(registry, Some(key)).shared.dom().contains(other)
            <==> registry.shared.dom().contains(other)),
        other != key && registry.shared.dom().contains(other) ==> registered(
            registry,
            Some(key),
        ).shared[other] == registry.shared[other],
{
}

/// What credentials bring to a channel is theirs, whole; no credentials bring
/// nothing, and count as number 0.
pub proof fn law_credentials_reach_the_channel(creds: GrpcChannelCredentials, plugins: Vec<u64>)
    ensures
        plugins_of(Some(creds)) == creds.inner.plugins(),
        plugins_of(None) is None,
        settings_of(Some(creds)) == Some(creds.inner.settings()),
        settings_of(None) is None,
        creds_id(Some(creds)) == creds.id,
        creds_id(None) == 0,
        plugins_in(Some(plugins)) == Some(plugins@),
        plugins_in(None) is None,
{
}

/// The states have the numbers that PHP knows them by, and a closed channel
/// answers with a `RuntimeException` of code 0.
pub proof fn law_channel_states(message: Seq<char>)
    ensures
        CHANNEL_IDLE == 0,
        CHANNEL_CONNECTING == 1,
        CHANNEL_READY == 2,
        CHANNEL_TRANSIENT_FAILURE == 3,
        closed_exception(message) == (ExceptionView {
            class: ExceptionClass::RuntimeException,
            message,
            code: 0,
        }),
{
}

/// A wait ends with true when the state is another, with false when it is the
/// same and the deadline has come, and otherwise sleeps ten milliseconds, or
/// what is left until the deadline where that is less.
pub proof fn law_watch_goes_on(watch: Watch, state: i64, now: i64)
    ensures
        watch.spec_step(state, now) == WatchStep::Done(true) <==> state != watch.last_state,
        watch.spec_step(state, now) == WatchStep::Done(false) <==> state == watch.last_state && now
            >= watch.deadline_usec,
        watch.spec_step(state, now) matches WatchStep::Sleep(usec) ==> usec == if watch.deadline_usec
            - now < 10_000 {
            watch.deadline_usec - now
        } else {
            10_000
        },
{
}

/// The key of a shared channel spells out its target, the number of its
/// credentials and all of its arguments, none left out and none cut, in an order
/// that does not depend on how they were given.
pub proof fn law_keys_spell_everything_out(
    target: Seq<char>,
    creds_id: nat,
    parts: Seq<Seq<char>>,
) -> (sorted: Seq<Seq<char>>)
    ensures
        sorted.to_multiset() == parts.to_multiset(),
        sharing_key(target, creds_id, parts) == target + "|creds="@ + decimal_nat(creds_id) + "|"@
            + comma_list(sorted),
{
    lemma_text_order_is_total();
    parts.lemma_sort_by_ensures(text_order());
    parts.sort_by(text_order())
}

/// Whether TLS settings are those of the credentials in arguments: null, or no
/// credentials, bring none.
pub open spec fn has_settings(tls: Option<TlsSettings>, args: Entries) -> bool {
    &&& forall|i: int| #[trigger]
        first_under(args, "credentials"@, i) ==> match args[i].1 {
            PhpValue::ChannelCredentials(creds) => tls == Some(creds.inner.settings()),
            PhpValue::Null => tls is None,
            _ => false,
        }
    &&& (forall|i: int| 0 <= i < args.len() ==> !spells((#[trigger] args[i]).0, "credentials"@))
        ==> tls is None
}

/// Good arguments are taken. Where nothing is wrong with them, a channel that
/// shares no transport is given an endpoint with the TLS of its credentials, or
/// fails only because that endpoint cannot be built, and says so.
pub proof fn law_good_arguments_are_taken(
    registry: RegistryView,
    target: Seq<char>,
    args: Entries,
    result: Result<Construction, PhpException>,
    tls: Option<TlsSettings>,
)
    requires
        construction(registry, target, args, result),
        forall|i: int| 0 <= i < args.len() ==> is_argument(#[trigger] args[i]),
        has_settings(tls, args),
    ensures
        match result {
            Ok(Construction::Ready(_)) => true,
            Ok(Construction::Connect { endpoint, .. }) => endpoint_result(
                target,
                args,
                tls,
                Ok(endpoint),
            ),
            Err(e) => exists|error: GrpcError|
                endpoint_result(target, args, tls, Err(error)) && #[trigger] thrown_as(error, e@),
        },
{
    law_arguments_are_read_whole(args);
    law_lookup_finds_the_entry(args, "credentials"@, 0);
    if exists|i: int| 0 <= i < args.len() && spells((#[trigger] args[i]).0, "credentials"@) {
        let i = choose|i: int|
            0 <= i < args.len() && spells((#[trigger] args[i]).0, "credentials"@);
        let first = law_a_name_has_a_first_entry(args, "credentials"@, i);
        law_lookup_finds_the_entry(args, "credentials"@, first);
        assert(first_under(args, "credentials"@, first));
    }
    let creds = creds_of(args)->Ok_0;
    assert(settings_of(creds) == tls);
}

} // verus!

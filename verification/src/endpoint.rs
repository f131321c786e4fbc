//! Endpoints: where a channel connects to, and how.

use crate::credentials::{set_domain_name, tls_settings, TlsSettings};
use crate::error::{transport_error_string, transport_error_text, GrpcError};
use crate::text::{has_part, joined, text_has};
use crate::value::{
    entry_of, first_under, get, law_a_name_has_a_first_entry, law_lookup_finds_the_entry,
    law_values_are_read_as_given, spells, ArrayKey, PhpValue,
};
use crate::wire::header_value;
use tonic::transport::{ClientTlsConfig, Endpoint};
use vstd::prelude::*;
use vstd::utf8::{encode_utf8, valid_utf8};

verus! {

// ---------------------------------------------------------------------------
// The endpoint builder
// ---------------------------------------------------------------------------

/// `tonic::transport::Endpoint`.
#[verifier::external_type_specification]
#[verifier::external_body]
pub struct ExEndpoint(tonic::transport::Endpoint);

/// What is set in an endpoint. What is not set is left to the transport.
pub struct EndpointSettings {
    /// The URI that it was made from.
    pub uri: Seq<char>,
    pub keepalive_interval_ms: Option<u64>,
    pub keepalive_timeout_ms: Option<u64>,
    pub max_frame_size: Option<u32>,
    pub stream_window: Option<u32>,
    pub connection_window: Option<u32>,
    pub adaptive_window: Option<bool>,
    pub user_agent: Option<Seq<char>>,
    pub tls: Option<TlsSettings>,
    pub connect_timeout_secs: Option<u64>,
}

/// What is set in an endpoint.
pub uninterp spec fn endpoint_settings(endpoint: Endpoint) -> EndpointSettings;

/// Whether a text is a URI that an endpoint can be made from.
pub uninterp spec fn uri_accepted(uri: Seq<char>) -> bool;

/// The settings of an endpoint that was only made from a URI.
pub open spec fn fresh_settings(uri: Seq<char>) -> EndpointSettings {
    EndpointSettings {
        uri,
        keepalive_interval_ms: None,
        keepalive_timeout_ms: None,
        max_frame_size: None,
        stream_window: None,
        connection_window: None,
        adaptive_window: None,
        user_agent: None,
        tls: None,
        connect_timeout_secs: None,
    }
}

/// Makes an endpoint from a URI.
///
/// Calls `Endpoint::from_shared`. Taken on trust: whether it succeeds depends
/// on the text alone, a new endpoint has nothing set, and the only error is
/// the one for a bad URI.
#[verifier::external_body]
fn from_uri(uri: String) -> (r: Result<Endpoint, tonic::transport::Error>)
    ensures
        r is Ok <==> uri_accepted(uri@),
        r matches Ok(endpoint) ==> endpoint_settings(endpoint) == fresh_settings(uri@),
        r matches Err(e) ==> transport_error_text(e) == "invalid URI"@,
{
    Endpoint::from_shared(uri)
}

/// Sets the keepalive interval.
///
/// Calls `Endpoint::http2_keep_alive_interval`. Taken on trust: it sets that
/// and nothing else.
#[verifier::external_body]
fn keepalive_interval(endpoint: Endpoint, ms: u64) -> (r: Endpoint)
    ensures
        endpoint_settings(r) == (EndpointSettings {
            keepalive_interval_ms: Some(ms),
            ..endpoint_settings(endpoint)
        }),
{
    endpoint.http2_keep_alive_interval(std::time::Duration::from_millis(ms))
}

/// Sets the keepalive timeout.
///
/// Calls `Endpoint::keep_alive_timeout`. Taken on trust: it sets that and
/// nothing else.
#[verifier::external_body]
fn keepalive_timeout(endpoint: Endpoint, ms: u64) -> (r: Endpoint)
    ensures
        endpoint_settings(r) == (EndpointSettings {
            keepalive_timeout_ms: Some(ms),
            ..endpoint_settings(endpoint)
        }),
{
    endpoint.keep_alive_timeout(std::time::Duration::from_millis(ms))
}

/// Sets the largest frame.
///
/// Calls `Endpoint::max_frame_size`. Taken on trust: it sets that and nothing
/// else.
#[verifier::external_body]
fn max_frame_size(endpoint: Endpoint, n: u32) -> (r: Endpoint)
    ensures
        endpoint_settings(r) == (EndpointSettings {
            max_frame_size: Some(n),
            ..endpoint_settings(endpoint)
        }),
{
    endpoint.max_frame_size(n)
}

/// Sets the window that a stream starts with.
///
/// Calls `Endpoint::initial_stream_window_size`. Taken on trust: it sets that
/// and nothing else.
#[verifier::external_body]
fn stream_window(endpoint: Endpoint, n: u32) -> (r: Endpoint)
    ensures
        endpoint_settings(r) == (EndpointSettings {
            stream_window: Some(n),
            ..endpoint_settings(endpoint)
        }),
{
    endpoint.initial_stream_window_size(n)
}

/// Sets the window that a connection starts with.
///
/// Calls `Endpoint::initial_connection_window_size`. Taken on trust: it sets
/// that and nothing else.
#[verifier::external_body]
fn connection_window(endpoint: Endpoint, n: u32) -> (r: Endpoint)
    ensures
        endpoint_settings(r) == (EndpointSettings {
            connection_window: Some(n),
            ..endpoint_settings(endpoint)
        }),
{
    endpoint.initial_connection_window_size(n)
}

/// Sets whether windows adapt.
///
/// Calls `Endpoint::http2_adaptive_window`. Taken on trust: it sets that and
/// nothing else.
#[verifier::external_body]
fn adaptive_window(endpoint: Endpoint, enabled: bool) -> (r: Endpoint)
    ensures
        endpoint_settings(r) == (EndpointSettings {
            adaptive_window: Some(enabled),
            ..endpoint_settings(endpoint)
        }),
{
    endpoint.http2_adaptive_window(enabled)
}

/// Sets the user agent.
///
/// Calls `Endpoint::user_agent`. Taken on trust: it accepts what can stand as
/// a header value, sets that and nothing else, and has one error only.
#[verifier::external_body]
fn user_agent(endpoint: Endpoint, agent: String) -> (r: Result<Endpoint, tonic::transport::Error>)
    ensures
        r is Ok <==> header_value(encode_utf8(agent@)),
        r matches Ok(e) ==> endpoint_settings(e) == (EndpointSettings {
            user_agent: Some(agent@),
            ..endpoint_settings(endpoint)
        }),
        r matches Err(e) ==> transport_error_text(e) == "user agent is not a valid header value"@,
{
    endpoint.user_agent(agent)
}

/// Whether a URI names a Unix socket.
pub open spec fn is_unix(uri: Seq<char>) -> bool {
    "unix:"@.is_prefix_of(uri)
}

/// Whether TLS accepts settings for a URI, where they have no client identity
/// and do not trust the roots of the system.
pub uninterp spec fn tls_accepted(uri: Seq<char>, tls: TlsSettings) -> bool;

/// What is said of settings that TLS refuses.
pub open spec fn tls_refusal(uri: Seq<char>) -> Seq<char> {
    if is_unix(uri) {
        "cannot apply TLS config for unix domain socket"@
    } else {
        "transport error"@
    }
}

/// Whether settings can be accepted, or refused, for a URI. There is no TLS over
/// a Unix socket. What becomes of a client identity, or of the roots of the
/// system, is open.
pub open spec fn tls_outcome(uri: Seq<char>, tls: Option<TlsSettings>, accepted: bool) -> bool {
    match tls {
        None => accepted,
        Some(settings) => {
            &&& is_unix(uri) ==> !accepted
            &&& !settings.system_roots && settings.identity is None ==> (accepted
                <==> tls_accepted(uri, settings))
        },
    }
}

/// Makes an endpoint use TLS.
///
/// Calls `Endpoint::tls_config`. Taken on trust: where it succeeds it sets
/// that and nothing else; where it fails, the error tells Unix sockets, for
/// which it always fails, from all else; and with neither a client identity nor
/// the roots of the system, whether it succeeds depends on the URI, the given
/// roots and the given name alone. With one of the two, whether it succeeds is
/// left unsaid: that rests on the certificates that the system has, and on the
/// cryptography that the process has installed.
#[verifier::external_body]
fn use_tls(endpoint: Endpoint, config: ClientTlsConfig) -> (r: Result<
    Endpoint,
    tonic::transport::Error,
>)
    ensures
        is_unix(endpoint_settings(endpoint).uri) ==> r is Err,
        !tls_settings(config).system_roots && tls_settings(config).identity is None ==> (r is Ok
            <==> tls_accepted(endpoint_settings(endpoint).uri, tls_settings(config))),
        r matches Ok(e) ==> endpoint_settings(e) == (EndpointSettings {
            tls: Some(tls_settings(config)),
            ..endpoint_settings(endpoint)
        }),
        r matches Err(e) ==> transport_error_text(e) == tls_refusal(
            endpoint_settings(endpoint).uri,
        ),
{
    endpoint.tls_config(config)
}

/// Bounds each attempt to connect.
///
/// Calls `Endpoint::connect_timeout`. Taken on trust: it sets that and nothing
/// else.
#[verifier::external_body]
fn connect_timeout(endpoint: Endpoint, secs: u64) -> (r: Endpoint)
    ensures
        endpoint_settings(r) == (EndpointSettings {
            connect_timeout_secs: Some(secs),
            ..endpoint_settings(endpoint)
        }),
{
    endpoint.connect_timeout(std::time::Duration::from_secs(secs))
}

// ---------------------------------------------------------------------------
// Channel arguments
// ---------------------------------------------------------------------------

/// The entries of a PHP array.
pub type Entries = Seq<(ArrayKey, PhpValue)>;

/// The integer under a name.
pub open spec fn long_arg(args: Entries, name: Seq<char>) -> Option<i64> {
    match entry_of(args, name) {
        Some(value) => value.spec_long(),
        None => None,
    }
}

/// The text under a name.
pub open spec fn text_arg(args: Entries, name: Seq<char>) -> Option<Seq<char>> {
    match entry_of(args, name) {
        Some(value) => value.spec_string(),
        None => None,
    }
}

/// Reads the integer under a name.
pub(crate) fn get_long(args: &Vec<(ArrayKey, PhpValue)>, name: &str) -> (r: Option<i64>)
    ensures
        r == long_arg(args@, name@),
{
    match get(args, name) {
        Some(value) => value.long(),
        None => None,
    }
}

/// Reads the text under a name.
fn get_text(args: &Vec<(ArrayKey, PhpValue)>, name: &str) -> (r: Option<String>)
    ensures
        r is Some <==> text_arg(args@, name@) is Some,
        r matches Some(text) ==> text_arg(args@, name@) == Some(text@),
{
    match get(args, name) {
        Some(value) => value.string(),
        None => None,
    }
}

/// A duration argument: anything but a positive number is none.
pub open spec fn positive_arg(args: Entries, name: Seq<char>) -> Option<u64> {
    match long_arg(args, name) {
        Some(n) => if n > 0 {
            Some(n as u64)
        } else {
            None
        },
        None => None,
    }
}

fn get_positive(args: &Vec<(ArrayKey, PhpValue)>, name: &str) -> (r: Option<u64>)
    ensures
        r == positive_arg(args@, name@),
{
    match get_long(args, name) {
        Some(n) => if n > 0 {
            Some(n as u64)
        } else {
            None
        },
        None => None,
    }
}

/// A size argument within bounds: anything outside them is none.
pub open spec fn size_arg(args: Entries, name: Seq<char>, low: int, high: int) -> Option<u32> {
    match long_arg(args, name) {
        Some(n) => if low <= n <= high {
            Some(n as u32)
        } else {
            None
        },
        None => None,
    }
}

fn get_size(args: &Vec<(ArrayKey, PhpValue)>, name: &str, low: u32, high: u32) -> (r: Option<u32>)
    ensures
        r == size_arg(args@, name@, low as int, high as int),
{
    match get_long(args, name) {
        Some(n) => if low as i64 <= n && n <= high as i64 {
            Some(n as u32)
        } else {
            None
        },
        None => None,
    }
}

/// The URI of a target: a bare `host:port` gets a scheme, by whether the
/// channel uses TLS.
pub open spec fn target_uri(target: Seq<char>, secure: bool) -> Seq<char> {
    if has_part(encode_utf8(target), encode_utf8("://"@)) {
        target
    } else if secure {
        "https://"@ + target
    } else {
        "http://"@ + target
    }
}

/// The settings that channel arguments and TLS settings ask for.
pub open spec fn planned_settings(
    target: Seq<char>,
    args: Entries,
    tls: Option<TlsSettings>,
) -> EndpointSettings {
    let window = size_arg(args, "grpc.http2.lookahead_bytes"@, 1, u32::MAX as int);
    EndpointSettings {
        uri: target_uri(target, tls is Some),
        keepalive_interval_ms: positive_arg(args, "grpc.keepalive_time_ms"@),
        keepalive_timeout_ms: positive_arg(args, "grpc.keepalive_timeout_ms"@),
        max_frame_size: size_arg(args, "grpc.http2.max_frame_size"@, 16_384, 16_777_215),
        stream_window: window,
        connection_window: match window {
            Some(n) => if n >= 5_242_880 {
                Some(n)
            } else {
                Some(5_242_880)
            },
            None => None,
        },
        adaptive_window: match long_arg(args, "grpc.http2.bdp_probe"@) {
            Some(n) => Some(n != 0),
            None => None,
        },
        user_agent: text_arg(args, "grpc.primary_user_agent"@),
        tls: match tls {
            Some(settings) => Some(
                match text_arg(args, "grpc.ssl_target_name_override"@) {
                    Some(name) => TlsSettings { domain: Some(name), ..settings },
                    None => settings,
                },
            ),
            None => None,
        },
        connect_timeout_secs: Some(20),
    }
}

/// Whether the user agent that the arguments ask for can stand in a header.
pub open spec fn agent_accepted(args: Entries) -> bool {
    text_arg(args, "grpc.primary_user_agent"@) matches Some(agent) ==> header_value(
        encode_utf8(agent),
    )
}

/// The URI of a target.
fn uri_of(target: &str, secure: bool) -> (r: String)
    ensures
        r@ == target_uri(target@, secure),
{
    if text_has(target, "://") {
        target.to_owned()
    } else if secure {
        joined("https://", target)
    } else {
        joined("http://", target)
    }
}

/// Sets what the channel arguments say of keepalive and of HTTP/2.
fn tuned(endpoint: Endpoint, args: &Vec<(ArrayKey, PhpValue)>) -> (r: Endpoint)
    requires
        endpoint_settings(endpoint) == fresh_settings(endpoint_settings(endpoint).uri),
    ensures
        endpoint_settings(r) == (EndpointSettings {
            uri: endpoint_settings(endpoint).uri,
            user_agent: None,
            tls: None,
            connect_timeout_secs: None,
            ..planned_settings(Seq::empty(), args@, None)
        }),
{
    let mut endpoint = endpoint;
    match get_positive(args, "grpc.keepalive_time_ms") {
        Some(ms) => {
            endpoint = keepalive_interval(endpoint, ms);
        },
        None => {},
    }
    match get_positive(args, "grpc.keepalive_timeout_ms") {
        Some(ms) => {
            endpoint = keepalive_timeout(endpoint, ms);
        },
        None => {},
    }
    match get_size(args, "grpc.http2.max_frame_size", 16_384, 16_777_215) {
        Some(n) => {
            endpoint = max_frame_size(endpoint, n);
        },
        None => {},
    }
    match get_size(args, "grpc.http2.lookahead_bytes", 1, u32::MAX) {
        Some(n) => {
            endpoint = stream_window(endpoint, n);
            let window: u32 = if n >= 5_242_880 {
                n
            } else {
                5_242_880
            };
            endpoint = connection_window(endpoint, window);
        },
        None => {},
    }
    match get_long(args, "grpc.http2.bdp_probe") {
        Some(n) => {
            endpoint = adaptive_window(endpoint, n != 0);
        },
        None => {},
    }
    endpoint
}

/// The TLS configuration with the name that the arguments give the server.
fn with_server_name(config: ClientTlsConfig, args: &Vec<(ArrayKey, PhpValue)>) -> (r:
    ClientTlsConfig)
    ensures
        tls_settings(r) == match text_arg(args@, "grpc.ssl_target_name_override"@) {
            Some(name) => TlsSettings { domain: Some(name), ..tls_settings(config) },
            None => tls_settings(config),
        },
{
    match get_text(args, "grpc.ssl_target_name_override") {
        Some(name) => set_domain_name(config, name),
        None => config,
    }
}

/// The settings of an optional TLS configuration.
pub open spec fn tls_of(config: Option<ClientTlsConfig>) -> Option<TlsSettings> {
    match config {
        Some(c) => Some(tls_settings(c)),
        None => None,
    }
}

/// What becomes of an endpoint that was made from a URI, or of the failure to
/// make one.
pub open spec fn finished_endpoint(
    fresh: Result<Endpoint, tonic::transport::Error>,
    args: Entries,
    tls: Option<TlsSettings>,
    result: Result<Endpoint, GrpcError>,
) -> bool {
    match fresh {
        Err(e) => result matches Err(GrpcError::InvalidUri(why)) && why@ == transport_error_text(
            e,
        ),
        Ok(endpoint) => if !agent_accepted(args) {
            result matches Err(GrpcError::InvalidArg(why)) && why@
                == "user agent is not a valid header value"@
        } else {
            let uri = endpoint_settings(endpoint).uri;
            let planned = EndpointSettings { uri, ..planned_settings(Seq::empty(), args, tls) };
            &&& tls_outcome(uri, planned.tls, result is Ok)
            &&& match result {
                Ok(e) => endpoint_settings(e) == planned,
                Err(GrpcError::Transport(e)) => transport_error_text(e) == tls_refusal(uri),
                Err(_) => false,
            }
        },
    }
}

/// Goes on with an endpoint that TLS was applied to, where it was wanted, or
/// with the error that TLS gave. Each attempt to connect is bounded.
pub fn secured_endpoint(applied: Result<Endpoint, tonic::transport::Error>) -> (r: Result<
    Endpoint,
    GrpcError,
>)
    ensures
        match applied {
            Ok(e) => r matches Ok(d) && endpoint_settings(d) == (EndpointSettings {
                connect_timeout_secs: Some(20),
                ..endpoint_settings(e)
            }),
            Err(e) => r matches Err(GrpcError::Transport(x)) && x == e,
        },
{
    match applied {
        Ok(endpoint) => Ok(connect_timeout(endpoint, 20)),
        Err(e) => Err(GrpcError::Transport(e)),
    }
}

/// Sets up an endpoint that was made from a URI.
///
/// What TLS makes of it, where there are credentials, [`secured_endpoint`] goes
/// on with.
pub fn finish_endpoint(
    fresh: Result<Endpoint, tonic::transport::Error>,
    args: &Vec<(ArrayKey, PhpValue)>,
    tls_config: Option<ClientTlsConfig>,
) -> (r: Result<Endpoint, GrpcError>)
    requires
        fresh matches Ok(endpoint) ==> endpoint_settings(endpoint) == fresh_settings(
            endpoint_settings(endpoint).uri,
        ),
    ensures
        finished_endpoint(fresh, args@, tls_of(tls_config), r),
{
    let mut endpoint = match fresh {
        Ok(endpoint) => tuned(endpoint, args),
        Err(e) => {
            return Err(GrpcError::InvalidUri(transport_error_string(&e)));
        },
    };
    match get_text(args, "grpc.primary_user_agent") {
        Some(agent) => match user_agent(endpoint, agent) {
            Ok(e) => {
                endpoint = e;
            },
            Err(e) => {
                return Err(GrpcError::InvalidArg(transport_error_string(&e)));
            },
        },
        None => {},
    }
    let applied = match tls_config {
        Some(config) => use_tls(endpoint, with_server_name(config, args)),
        None => Ok(endpoint),
    };
    secured_endpoint(applied)
}

/// What [`build_endpoint`] makes of its arguments.
pub open spec fn endpoint_result(
    target: Seq<char>,
    args: Entries,
    tls: Option<TlsSettings>,
    result: Result<Endpoint, GrpcError>,
) -> bool {
    if !uri_accepted(target_uri(target, tls is Some)) {
        result matches Err(GrpcError::InvalidUri(why)) && why@ == "invalid URI"@
    } else if !agent_accepted(args) {
        result matches Err(GrpcError::InvalidArg(why)) && why@
            == "user agent is not a valid header value"@
    } else {
        let planned = planned_settings(target, args, tls);
        &&& tls_outcome(planned.uri, planned.tls, result is Ok)
        &&& match result {
            Ok(endpoint) => endpoint_settings(endpoint) == planned,
            Err(GrpcError::Transport(e)) => transport_error_text(e) == tls_refusal(planned.uri),
            Err(_) => false,
        }
    }
}

/// Builds the endpoint of a channel.
///
/// A channel with TLS credentials connects with TLS or not at all. Whether TLS
/// accepts a client identity, or has the roots of the system, is left open.
pub fn build_endpoint(
    target: &str,
    args: &Vec<(ArrayKey, PhpValue)>,
    tls_config: Option<ClientTlsConfig>,
) -> (r: Result<Endpoint, GrpcError>)
    ensures
        endpoint_result(target@, args@, tls_of(tls_config), r),
{
    let uri = uri_of(target, tls_config.is_some());
    finish_endpoint(from_uri(uri), args, tls_config)
}

/// A channel with TLS credentials never falls back to plain text: its bare
/// targets become `https`, and every endpoint that is built for it uses TLS
/// with the certificates of the credentials.
pub proof fn law_no_plaintext_fallback(
    target: Seq<char>,
    args: Entries,
    tls: TlsSettings,
    endpoint: Endpoint,
)
    requires
        endpoint_result(target, args, Some(tls), Ok(endpoint)),
    ensures
        endpoint_settings(endpoint).tls matches Some(used) && used.roots == tls.roots
            && used.identity == tls.identity,
        !has_part(encode_utf8(target), encode_utf8("://"@)) ==> endpoint_settings(endpoint).uri
            == "https://"@ + target,
{
}

/// A stream window is never larger than the window of its connection, which
/// would leave part of it without use.
pub proof fn law_windows_fit(
    target: Seq<char>,
    args: Entries,
    tls: Option<TlsSettings>,
    endpoint: Endpoint,
)
    requires
        endpoint_result(target, args, tls, Ok(endpoint)),
    ensures
        match (
            endpoint_settings(endpoint).stream_window,
            endpoint_settings(endpoint).connection_window,
        ) {
            (Some(stream), Some(connection)) => stream <= connection,
            (None, None) => true,
            _ => false,
        },
{
}

/// Whether a value is the number that arguments have under a name, where it lies
/// within bounds; nothing stands for a number outside them and for anything
/// else.
pub open spec fn is_number_arg(
    args: Entries,
    name: Seq<char>,
    low: int,
    high: int,
    got: Option<int>,
) -> bool {
    &&& forall|i: int| #[trigger]
        first_under(args, name, i) ==> match args[i].1 {
            PhpValue::Long(n) => got == if low <= n <= high {
                Some(n as int)
            } else {
                None
            },
            _ => got is None,
        }
    &&& (forall|i: int| 0 <= i < args.len() ==> !spells((#[trigger] args[i]).0, name))
        ==> got is None
}

/// Whether a value is the text that arguments have under a name, all of it;
/// nothing stands for anything else.
pub open spec fn is_text_arg(args: Entries, name: Seq<char>, got: Option<Seq<char>>) -> bool {
    &&& forall|i: int| #[trigger]
        first_under(args, name, i) ==> match args[i].1 {
            PhpValue::Str(bytes) => if valid_utf8(bytes@) {
                got matches Some(text) && encode_utf8(text) == bytes@
            } else {
                got is None
            },
            _ => got is None,
        }
    &&& (forall|i: int| 0 <= i < args.len() ==> !spells((#[trigger] args[i]).0, name))
        ==> got is None
}

/// A size that may be there, as a number.
pub open spec fn size_number(size: Option<u32>) -> Option<int> {
    match size {
        Some(n) => Some(n as int),
        None => None,
    }
}

/// A span that may be there, as a number.
pub open spec fn span_number(span: Option<u64>) -> Option<int> {
    match span {
        Some(n) => Some(n as int),
        None => None,
    }
}

proof fn lemma_args(args: Entries, name: Seq<char>, low: int, high: int)
    ensures
        0 <= low && high <= u32::MAX ==> is_number_arg(
            args,
            name,
            low,
            high,
            size_number(size_arg(args, name, low, high)),
        ),
        is_number_arg(args, name, 1, i64::MAX as int, span_number(positive_arg(args, name))),
        is_text_arg(args, name, text_arg(args, name)),
        forall|i: int| #[trigger]
            first_under(args, name, i) ==> long_arg(args, name) == match args[i].1 {
                PhpValue::Long(n) => Some(n),
                _ => None,
            },
        (forall|i: int| 0 <= i < args.len() ==> !spells((#[trigger] args[i]).0, name)) ==> long_arg(
            args,
            name,
        ) is None,
{
    assert forall|i: int| #[trigger] first_under(args, name, i) implies entry_of(args, name)
        == Some(args[i].1) by {
        law_lookup_finds_the_entry(args, name, i);
    }
    assert forall|i: int| #[trigger] first_under(args, name, i) implies (match args[i].1 {
        PhpValue::Str(bytes) => if valid_utf8(bytes@) {
            text_arg(args, name) matches Some(text) && encode_utf8(text) == bytes@
        } else {
            text_arg(args, name) is None
        },
        _ => text_arg(args, name) is None,
    }) by {
        law_values_are_read_as_given(args[i].1);
    }
    law_lookup_finds_the_entry(args, name, 0);
}

/// An endpoint is set up as the arguments ask, number for number and text for
/// text: keepalive for every positive number, frame and window sizes for every
/// number that HTTP/2 allows, a connection window of at least five mebibytes,
/// adaptive windows by whether the number is 0, and the user agent. What the
/// arguments do not set is not set. Each attempt to connect is bounded by twenty
/// seconds.
pub proof fn law_endpoints_are_set_up_as_asked(
    target: Seq<char>,
    args: Entries,
    tls: Option<TlsSettings>,
    endpoint: Endpoint,
)
    requires
        endpoint_result(target, args, tls, Ok(endpoint)),
    ensures
        ({
            let set = endpoint_settings(endpoint);
            &&& is_number_arg(
                args,
                "grpc.keepalive_time_ms"@,
                1,
                i64::MAX as int,
                span_number(set.keepalive_interval_ms),
            )
            &&& is_number_arg(
                args,
                "grpc.keepalive_timeout_ms"@,
                1,
                i64::MAX as int,
                span_number(set.keepalive_timeout_ms),
            )
            &&& is_number_arg(
                args,
                "grpc.http2.max_frame_size"@,
                16_384,
                16_777_215,
                size_number(set.max_frame_size),
            )
            &&& is_number_arg(
                args,
                "grpc.http2.lookahead_bytes"@,
                1,
                4_294_967_295,
                size_number(set.stream_window),
            )
            &&& set.connection_window is Some <==> set.stream_window is Some
            &&& set.stream_window matches Some(n) ==> set.connection_window == Some(
                if n > 5_242_880 {
                    n
                } else {
                    5_242_880
                },
            )
            &&& is_text_arg(args, "grpc.primary_user_agent"@, set.user_agent)
            &&& set.connect_timeout_secs == Some(20u64)
        }),
        forall|i: int| #[trigger]
            first_under(args, "grpc.http2.bdp_probe"@, i) ==> endpoint_settings(
                endpoint,
            ).adaptive_window == match args[i].1 {
                PhpValue::Long(n) => Some(n != 0),
                _ => None,
            },
        (forall|i: int|
            0 <= i < args.len() ==> !spells((#[trigger] args[i]).0, "grpc.http2.bdp_probe"@))
            ==> endpoint_settings(endpoint).adaptive_window is None,
{
    lemma_args(args, "grpc.keepalive_time_ms"@, 0, 0);
    lemma_args(args, "grpc.keepalive_timeout_ms"@, 0, 0);
    lemma_args(args, "grpc.http2.max_frame_size"@, 16_384, 16_777_215);
    lemma_args(args, "grpc.http2.lookahead_bytes"@, 1, u32::MAX as int);
    lemma_args(args, "grpc.http2.bdp_probe"@, 0, 0);
    lemma_args(args, "grpc.primary_user_agent"@, 0, 0);
}

/// An endpoint uses TLS exactly when it is given settings, and then all of them;
/// only the name of the server is another where the arguments give one.
pub proof fn law_tls_settings_are_used_whole(
    target: Seq<char>,
    args: Entries,
    tls: Option<TlsSettings>,
    endpoint: Endpoint,
)
    requires
        endpoint_result(target, args, tls, Ok(endpoint)),
    ensures
        tls is None ==> endpoint_settings(endpoint).tls is None,
        tls matches Some(given) ==> (endpoint_settings(endpoint).tls matches Some(used) && {
            &&& used.roots == given.roots
            &&& used.system_roots == given.system_roots
            &&& used.identity == given.identity
            &&& is_text_arg(args, "grpc.ssl_target_name_override"@, used.domain) || (used.domain
                == given.domain && is_text_arg(args, "grpc.ssl_target_name_override"@, None))
        }),
{
    lemma_args(args, "grpc.ssl_target_name_override"@, 0, 0);
}

/// Whether a target has a scheme: a colon and two slashes stand in it.
pub open spec fn has_scheme(target: Seq<u8>) -> bool {
    exists|i: int|
        0 <= i < target.len() - 2 && #[trigger] target[i] == 58 && target[i + 1] == 47 && target[i
            + 2] == 47
}

/// A target with a scheme is the URI as it is; any other gets the scheme of TLS
/// or of plain text in front, and is otherwise kept.
pub proof fn law_targets_are_kept(target: Seq<char>, secure: bool)
    ensures
        has_scheme(encode_utf8(target)) ==> target_uri(target, secure) == target,
        !has_scheme(encode_utf8(target)) ==> target_uri(target, secure) == if secure {
            "https://"@ + target
        } else {
            "http://"@ + target
        },
{
    reveal_strlit("://");
    let mark = "://"@;
    assert(vstd::utf8::is_ascii_chars(mark));
    vstd::utf8::is_ascii_chars_encode_utf8(mark);
    let part = encode_utf8(mark);
    assert(part =~= seq![58u8, 47u8, 47u8]);
    let text = encode_utf8(target);
    if has_scheme(text) {
        let i = choose|i: int|
            0 <= i < text.len() - 2 && #[trigger] text[i] == 58 && text[i + 1] == 47 && text[i + 2]
                == 47;
        assert(text.subrange(i, i + part.len() as int) =~= part);
    }
    if has_part(text, part) {
        let i = choose|i: int|
            0 <= i <= text.len() - part.len() && #[trigger] text.subrange(
                i,
                i + part.len() as int,
            ) == part;
        let found = text.subrange(i, i + part.len() as int);
        assert(found[0] == 58 && found[1] == 47 && found[2] == 47);
        assert(text[i] == 58);
    }
}

/// What an endpoint is refused for is told, and it is refused for nothing else:
/// a URI that is none, a user agent that cannot stand in a header, or settings
/// that TLS does not accept. Without TLS, or with roots that TLS accepts and
/// without an identity, it is made.
pub proof fn law_endpoints_are_refused_for_a_reason(
    target: Seq<char>,
    args: Entries,
    tls: Option<TlsSettings>,
    result: Result<Endpoint, GrpcError>,
    agent: Option<Seq<char>>,
)
    requires
        endpoint_result(target, args, tls, result),
        is_text_arg(args, "grpc.primary_user_agent"@, agent),
        exists|i: int| #[trigger] first_under(args, "grpc.primary_user_agent"@, i)
            || agent is None,
    ensures
        !uri_accepted(target_uri(target, tls is Some)) ==> (
        result matches Err(GrpcError::InvalidUri(why)) && why@ == "invalid URI"@),
        result matches Err(GrpcError::InvalidUri(_)) ==> !uri_accepted(
            target_uri(target, tls is Some),
        ),
        result matches Err(GrpcError::InvalidArg(why)) ==> why@
            == "user agent is not a valid header value"@ && agent is Some && !header_value(
            encode_utf8(agent->0),
        ),
        uri_accepted(target_uri(target, tls is Some)) && agent is Some && !header_value(
            encode_utf8(agent->0),
        ) ==> (result matches Err(GrpcError::InvalidArg(_))),
        result matches Err(GrpcError::Transport(e)) ==> tls is Some && transport_error_text(e)
            == if "unix:"@.is_prefix_of(target_uri(target, true)) {
            "cannot apply TLS config for unix domain socket"@
        } else {
            "transport error"@
        },
        result is Err ==> result matches Err(GrpcError::InvalidUri(_)) || result matches Err(
            GrpcError::InvalidArg(_),
        ) || result matches Err(GrpcError::Transport(_)),
        tls is Some && "unix:"@.is_prefix_of(target_uri(target, true)) ==> result is Err,
        tls matches Some(given) ==> !given.system_roots && given.identity is None && uri_accepted(
            target_uri(target, true),
        ) && (agent matches Some(text) ==> header_value(encode_utf8(text))) ==> (result is Ok
            <==> tls_accepted(
            target_uri(target, true),
            TlsSettings {
                domain: match text_arg(args, "grpc.ssl_target_name_override"@) {
                    Some(name) => Some(name),
                    None => given.domain,
                },
                ..given
            },
        )),
{
    lemma_args(args, "grpc.primary_user_agent"@, 0, 0);
    let read = text_arg(args, "grpc.primary_user_agent"@);
    let i = choose|i: int| #[trigger] first_under(args, "grpc.primary_user_agent"@, i)
        || agent is None;
    if first_under(args, "grpc.primary_user_agent"@, i) {
        match args[i].1 {
            PhpValue::Str(bytes) => {
                if valid_utf8(bytes@) {
                    vstd::utf8::encode_utf8_decode_utf8(agent->0);
                    vstd::utf8::encode_utf8_decode_utf8(read->0);
                    assert(agent == read);
                }
            },
            _ => {},
        }
    } else {
        lemma_no_text(args, "grpc.primary_user_agent"@);
    }
}

proof fn lemma_no_text(args: Entries, name: Seq<char>)
    requires
        is_text_arg(args, name, None),
    ensures
        text_arg(args, name) is None,
{
    lemma_args(args, name, 0, 0);
    if exists|i: int| 0 <= i < args.len() && spells((#[trigger] args[i]).0, name) {
        let i = choose|i: int| 0 <= i < args.len() && spells((#[trigger] args[i]).0, name);
        let first = law_a_name_has_a_first_entry(args, name, i);
        assert(first_under(args, name, first));
    }
}

} // verus!

use grpc_php_rs::channel::{
    begun, initial_state, probe_outcome, ChannelInner, ChannelRegistry, Construction, GrpcChannel,
    PendingChannel, StateQuery, Watch, WatchStep, CHANNEL_CONNECTING, CHANNEL_IDLE, CHANNEL_READY, CHANNEL_TRANSIENT_FAILURE,
};
use grpc_php_rs::credentials::{CredentialStore, GrpcCallCredentials, GrpcChannelCredentials};
use grpc_php_rs::endpoint::{build_endpoint, finish_endpoint, secured_endpoint};
use grpc_php_rs::error::{ExceptionClass, GrpcError, PhpException};
use grpc_php_rs::timeval::GrpcTimeval;
use grpc_php_rs::value::{ArrayKey, PhpValue};
use tonic::transport::Endpoint;

type Args = Vec<(ArrayKey, PhpValue)>;

fn text(s: &str) -> PhpValue {
    PhpValue::Str(s.as_bytes().to_vec())
}

fn arg(name: &str, value: PhpValue) -> (ArrayKey, PhpValue) {
    (ArrayKey::String(name.to_string()), value)
}

fn construct(
    registry: &ChannelRegistry,
    target: &str,
    args: &Args,
) -> Result<Construction, PhpException> {
    GrpcChannel::construct(registry, target.to_string(), args)
}

/// Constructs a channel with a new transport and offers it for sharing.
fn connect(registry: &mut ChannelRegistry, target: &str, args: &Args) -> GrpcChannel {
    match construct(registry, target, args) {
        Ok(Construction::Connect { pending, .. }) => {
            assert!(registry.has_numbers());
            pending.connected(registry)
        }
        Ok(Construction::Ready(_)) => panic!("a new transport expected"),
        Err(e) => panic!("{}", e.message),
    }
}

/// The transport that a channel shares, if it does.
fn shared(registry: &ChannelRegistry, target: &str, args: &Args) -> Option<u64> {
    match construct(registry, target, args) {
        Ok(Construction::Ready(channel)) => channel.get_tonic_channel(),
        _ => None,
    }
}

fn refusal(target: &str, args: &Args) -> PhpException {
    match construct(&ChannelRegistry::new(), target, args) {
        Ok(_) => panic!("an exception expected"),
        Err(e) => e,
    }
}

fn open() -> GrpcChannel {
    GrpcChannel {
        inner: Some(ChannelInner {
            transport: 3,
            target: "host:1".to_string(),
            call_plugins: None,
            max_decoding_message_size: None,
            max_encoding_message_size: Some(9),
        }),
    }
}

#[test]
fn argument_keys_are_strings() {
    let e = refusal("t", &vec![(ArrayKey::Long(0), PhpValue::Long(1))]);
    assert_eq!(e.class, ExceptionClass::InvalidArgumentException);
    assert_eq!(e.message, "args keys must be strings");
    assert_eq!(e.code, 1);
}

#[test]
fn argument_values_are_numbers_or_strings() {
    for value in [PhpValue::Null, PhpValue::Bool(true), PhpValue::Array(vec![]), PhpValue::Other] {
        let e = refusal("t", &vec![arg("a", value)]);
        assert_eq!(e.message, "args values must be int or string");
    }
    let e = refusal("t", &vec![arg("a", PhpValue::Str(vec![0xff]))]);
    assert_eq!(e.message, "args values must be int or string");
}

#[test]
fn credentials_are_credentials_or_null() {
    let e = refusal("t", &vec![arg("credentials", text("no"))]);
    assert_eq!(e.class, ExceptionClass::InvalidArgumentException);
    assert_eq!(e.message, "credentials must be a ChannelCredentials object");
    let mut registry = ChannelRegistry::new();
    let channel = connect(&mut registry, "h:1", &vec![arg("credentials", PhpValue::Null)]);
    assert_eq!(channel.get_target().unwrap(), "h:1");
}

#[test]
fn bad_arguments_come_before_bad_credentials() {
    let args = vec![arg("credentials", text("no")), arg("a", PhpValue::Null)];
    assert_eq!(refusal("t", &args).message, "args values must be int or string");
}

#[test]
fn the_same_channel_is_shared() {
    let mut registry = ChannelRegistry::new();
    let args = vec![arg("a", PhpValue::Long(1)), arg("b", text("x"))];
    let turned = vec![arg("b", text("x")), arg("a", PhpValue::Long(1))];
    let mut first = connect(&mut registry, "h:1", &args);
    assert_eq!(first.get_tonic_channel(), Some(1));
    assert_eq!(shared(&registry, "h:1", &args), Some(1));
    assert_eq!(shared(&registry, "h:1", &turned), Some(1));
    assert_eq!(shared(&registry, "h:2", &args), None);
    assert_eq!(shared(&registry, "h:1", &vec![]), None);
    assert_eq!(registry.get("h:1|creds=0|a=1,b=x"), Some(1));
    first.close();
    connect(&mut registry, "h:2", &args);
    assert_eq!(shared(&registry, "h:1", &turned), Some(1));
    assert_eq!(shared(&registry, "h:2", &turned), Some(2));
}

#[test]
fn credentials_are_not_mixed() {
    let mut store = CredentialStore::new();
    let mut registry = ChannelRegistry::new();
    let roots = || Some("roots".to_string());
    let a = GrpcChannelCredentials::create_ssl(&mut store, roots(), None, None).unwrap();
    let b = GrpcChannelCredentials::create_ssl(&mut store, roots(), None, None).unwrap();
    let with_a = vec![arg("credentials", PhpValue::ChannelCredentials(a))];
    let with_b = vec![arg("credentials", PhpValue::ChannelCredentials(b))];
    connect(&mut registry, "h:1", &with_a);
    assert_eq!(shared(&registry, "h:1", &with_a), Some(1));
    assert_eq!(shared(&registry, "h:1", &with_b), None);
    assert_eq!(shared(&registry, "h:1", &vec![]), None);
    assert_eq!(registry.get("h:1|creds=1|"), Some(1));
    let plain = connect(&mut registry, "h:1", &vec![]);
    assert_eq!(plain.get_tonic_channel(), Some(2));
    assert_eq!(shared(&registry, "h:1", &with_a), Some(1));
}

#[test]
fn new_channels_stay_private() {
    let mut registry = ChannelRegistry::new();
    connect(&mut registry, "h:1", &vec![]);
    let mut last = 1;
    for value in [PhpValue::Bool(true), PhpValue::Long(2)] {
        let args = vec![arg("force_new", value)];
        assert_eq!(shared(&registry, "h:1", &args), None);
        last += 1;
        assert_eq!(connect(&mut registry, "h:1", &args).get_tonic_channel(), Some(last));
    }
    for value in [PhpValue::Bool(false), PhpValue::Long(0), text("yes")] {
        assert_eq!(shared(&registry, "h:1", &vec![arg("force_new", value)]), Some(1));
    }
}

#[test]
fn channels_with_a_plugin_stay_private() {
    let mut store = CredentialStore::new();
    let mut registry = ChannelRegistry::new();
    let roots = Some("roots".to_string());
    let tls = GrpcChannelCredentials::create_ssl(&mut store, roots, None, None).unwrap();
    let call = GrpcCallCredentials::create_from_plugin(7, true).unwrap();
    let both = GrpcChannelCredentials::create_composite(&mut store, &tls, &call).unwrap();
    let args = vec![arg("credentials", PhpValue::ChannelCredentials(both))];
    let channel = connect(&mut registry, "h:1", &args);
    assert_eq!(channel.get_call_plugin(), Some(vec![7]));
    assert_eq!(shared(&registry, "h:1", &args), None);
    let again = connect(&mut registry, "h:1", &args);
    assert_ne!(again.get_tonic_channel(), channel.get_tonic_channel());
}

#[test]
fn message_sizes() {
    let mut registry = ChannelRegistry::new();
    let sizes = |receive: i64, send: i64, registry: &mut ChannelRegistry| {
        let args = vec![
            arg("grpc.max_receive_message_length", PhpValue::Long(receive)),
            arg("grpc.max_send_message_length", PhpValue::Long(send)),
        ];
        let channel = connect(registry, "h:1", &args);
        (channel.get_max_decoding_message_size(), channel.get_max_encoding_message_size())
    };
    assert_eq!(sizes(-1, 4, &mut registry), (Some(usize::MAX), Some(4)));
    assert_eq!(sizes(0, -2, &mut registry), (None, None));
    let channel = connect(&mut registry, "h:2", &vec![]);
    assert_eq!(channel.get_max_decoding_message_size(), None);
}

#[test]
fn the_registry_keeps_the_newest() {
    let mut registry = ChannelRegistry::new();
    let pending = |registry: &ChannelRegistry, target: &str| {
        match construct(registry, target, &vec![]) {
            Ok(Construction::Connect { pending, .. }) => pending,
            _ => panic!("a new transport expected"),
        }
    };
    let first = pending(&registry, "a");
    let other = pending(&registry, "b");
    let second = pending(&registry, "a");
    assert_eq!(first.connected(&mut registry).get_tonic_channel(), Some(1));
    assert_eq!(other.connected(&mut registry).get_tonic_channel(), Some(2));
    assert_eq!(second.connected(&mut registry).get_tonic_channel(), Some(3));
    assert_eq!(registry.get("a|creds=0|"), Some(3));
    assert_eq!(registry.get("b|creds=0|"), Some(2));
    assert_eq!(registry.get("c|creds=0|"), None);
}

#[test]
fn bare_targets_get_a_scheme() {
    let mut store = CredentialStore::new();
    let roots = Some("roots".to_string());
    let creds = GrpcChannelCredentials::create_ssl(&mut store, roots, None, None).unwrap();
    let tls = match creds.inner {
        grpc_php_rs::credentials::CredentialsInner::Ssl { tls_config } => tls_config,
        _ => panic!("plain TLS credentials expected"),
    };
    let endpoint = build_endpoint("host:50051", &vec![], None).unwrap();
    assert_eq!(endpoint.uri().to_string(), "http://host:50051/");
    let endpoint = build_endpoint("host:50051", &vec![], Some(tls.clone())).unwrap();
    assert_eq!(endpoint.uri().to_string(), "https://host:50051/");
    let endpoint = build_endpoint("http://host:50051", &vec![], Some(tls)).unwrap();
    assert_eq!(endpoint.uri().to_string(), "http://host:50051/");
    assert_eq!(endpoint.get_connect_timeout(), Some(std::time::Duration::from_secs(20)));
}

#[test]
fn a_bad_target_is_refused() {
    let e = refusal("not a host", &vec![]);
    assert_eq!(e.class, ExceptionClass::Exception);
    assert_eq!(e.message, "invalid URI: invalid URI");
    assert_eq!(e.code, 0);
}

#[test]
fn a_bad_user_agent_is_refused() {
    let e = refusal("h:1", &vec![arg("grpc.primary_user_agent", text("line\nbreak"))]);
    assert_eq!(e.message, "invalid argument: user agent is not a valid header value");
    let fresh = Endpoint::from_shared("http://h:1".to_string());
    let args = vec![arg("grpc.primary_user_agent", text("mine/1.0"))];
    assert!(finish_endpoint(fresh, &args, None).is_ok());
}

#[test]
fn what_tls_gave_decides() {
    let fresh = || Endpoint::from_shared("https://h:1".to_string());
    let endpoint = secured_endpoint(fresh()).unwrap();
    assert_eq!(endpoint.uri().to_string(), "https://h:1/");
    assert_eq!(endpoint.get_connect_timeout(), Some(std::time::Duration::from_secs(20)));
    let error = || Endpoint::from_shared("no uri".to_string());
    let failed = secured_endpoint(error());
    assert!(matches!(&failed, Err(GrpcError::Transport(e)) if e.to_string() == "invalid URI"));

    let pending = || PendingChannel {
        persist_key: Some("key".to_string()),
        target: "h:1".to_string(),
        call_plugins: None,
        max_decoding_message_size: Some(7),
        max_encoding_message_size: None,
    };
    match begun(Ok(endpoint), pending()) {
        Ok(Construction::Connect { endpoint, pending }) => {
            assert_eq!(endpoint.uri().to_string(), "https://h:1/");
            assert_eq!(pending.persist_key, Some("key".to_string()));
            assert_eq!(pending.max_decoding_message_size, Some(7));
        }
        _ => panic!("a new transport expected"),
    }
    match begun(failed, pending()) {
        Err(e) => {
            assert_eq!((e.class, e.code), (ExceptionClass::Exception, 0));
            assert_eq!(e.message, "transport error: invalid URI");
        }
        Ok(_) => panic!("an exception expected"),
    }
}

#[test]
fn bad_certificates_are_refused() {
    let mut store = CredentialStore::new();
    let creds = GrpcChannelCredentials::create_ssl(
        &mut store,
        Some("roots".to_string()),
        Some("no key".to_string()),
        Some("no certificate".to_string()),
    )
    .unwrap();
    let args = vec![arg("credentials", PhpValue::ChannelCredentials(creds))];
    assert_eq!(refusal("h:1", &args).message, "transport error: transport error");
    assert_eq!(
        refusal("unix:///tmp/s", &args).message,
        "transport error: cannot apply TLS config for unix domain socket"
    );
}

#[test]
fn the_connectivity_state() {
    let channel = open();
    let yes = PhpValue::Bool(true);
    let no = PhpValue::Bool(false);
    let query = |state, probe| StateQuery { state, probe };
    assert_eq!(channel.get_connectivity_state(None, CHANNEL_IDLE).unwrap(), query(0, false));
    assert_eq!(channel.get_connectivity_state(Some(&no), CHANNEL_IDLE).unwrap(), query(0, false));
    assert_eq!(channel.get_connectivity_state(Some(&yes), CHANNEL_IDLE).unwrap(), query(0, true));
    assert_eq!(
        channel.get_connectivity_state(Some(&yes), CHANNEL_CONNECTING).unwrap(),
        query(1, false)
    );
    let e = channel.get_connectivity_state(Some(&PhpValue::Long(1)), CHANNEL_IDLE).unwrap_err();
    assert_eq!(e.class, ExceptionClass::InvalidArgumentException);
    assert_eq!(e.message, "getConnectivityState expects a bool");
    assert_eq!(initial_state(), CHANNEL_IDLE);
    assert_eq!(query(CHANNEL_IDLE, true).next_state(), Some(CHANNEL_CONNECTING));
    assert_eq!(query(CHANNEL_IDLE, false).next_state(), None);
    assert_eq!(probe_outcome(true), CHANNEL_READY);
    assert_eq!(probe_outcome(false), CHANNEL_TRANSIENT_FAILURE);
}

#[test]
fn watching_the_connectivity_state() {
    let deadline = GrpcTimeval { usec: 50_000, is_span: false };
    let watch = open().watch_connectivity_state(0, &deadline).unwrap();
    assert_eq!(watch, Watch { last_state: 0, deadline_usec: 50_000 });
    assert_eq!(watch.step(2, 60_000), WatchStep::Done(true));
    assert_eq!(watch.step(0, 50_000), WatchStep::Done(false));
    assert_eq!(watch.step(0, 0), WatchStep::Sleep(10_000));
    assert_eq!(watch.step(0, 49_999), WatchStep::Sleep(1));
    assert_eq!(watch.step(0, i64::MIN), WatchStep::Sleep(10_000));
}

#[test]
fn a_closed_channel_refuses_everything() {
    let mut channel = open();
    assert!(!channel.get_closed_flag());
    assert_eq!(channel.get_tonic_channel(), Some(3));
    assert_eq!(channel.get_target_uri(), Some("host:1".to_string()));
    assert_eq!(channel.get_max_encoding_message_size(), Some(9));
    channel.close();
    assert!(channel.get_closed_flag());
    assert_eq!(channel.get_tonic_channel(), None);
    assert_eq!(channel.get_target_uri(), None);
    let e = channel.get_target().unwrap_err();
    assert_eq!(e.class, ExceptionClass::RuntimeException);
    assert_eq!(e.message, "getTarget error.Channel is already closed.");
    let e = channel.get_connectivity_state(None, 0).unwrap_err();
    assert_eq!(e.message, "getConnectivityState error.Channel is already closed.");
    let e = channel.get_connectivity_state(Some(&PhpValue::Null), 0).unwrap_err();
    assert_eq!(e.message, "getConnectivityState expects a bool");
    let e = channel.watch_connectivity_state(0, &GrpcTimeval::zero()).unwrap_err();
    assert_eq!(e.message, "watchConnectivityState errorChannel is already closed.");
}

use grpc_php_rs::credentials::{
    CredentialStore, CredentialsInner, GrpcCallCredentials, GrpcChannelCredentials,
};
use grpc_php_rs::error::ExceptionClass;

fn some(s: &str) -> Option<String> {
    Some(s.to_string())
}

fn shown(creds: &GrpcChannelCredentials) -> String {
    format!("{:?}", creds.inner)
}

fn pem_bytes(s: &str) -> String {
    format!("{:?}", s.as_bytes())
}

#[test]
fn ssl_credentials_take_the_given_roots() {
    let mut store = CredentialStore::new();
    GrpcChannelCredentials::set_default_roots_pem(&mut store, "default".to_string());
    let creds = GrpcChannelCredentials::create_ssl(&mut store, some("given"), None, None).unwrap();
    assert!(shown(&creds).contains(&pem_bytes("given")));
    assert!(!shown(&creds).contains(&pem_bytes("default")));
    assert!(matches!(creds.inner, CredentialsInner::Ssl { .. }));
}

#[test]
fn ssl_credentials_fall_back_to_the_default_roots() {
    let mut store = CredentialStore::new();
    GrpcChannelCredentials::set_default_roots_pem(&mut store, "default".to_string());
    let creds = GrpcChannelCredentials::create_ssl(&mut store, None, None, None).unwrap();
    assert!(shown(&creds).contains(&pem_bytes("default")));
    let creds = GrpcChannelCredentials::create_default(&mut store);
    assert!(shown(&creds).contains(&pem_bytes("default")));
}

#[test]
fn without_roots_those_of_the_system_are_trusted() {
    let system = "with_native_roots: true";
    let mut store = CredentialStore::new();
    let creds = GrpcChannelCredentials::create_default(&mut store);
    assert!(shown(&creds).contains(system));
    let creds = GrpcChannelCredentials::create_ssl(&mut store, None, None, None).unwrap();
    assert!(shown(&creds).contains(system));
    let creds = GrpcChannelCredentials::create_ssl(&mut store, some("given"), None, None).unwrap();
    assert!(!shown(&creds).contains(system));
    GrpcChannelCredentials::set_default_roots_pem(&mut store, "default".to_string());
    let creds = GrpcChannelCredentials::create_default(&mut store);
    assert!(!shown(&creds).contains(system));
    let creds = GrpcChannelCredentials::create_ssl(&mut store, None, None, None).unwrap();
    assert!(!shown(&creds).contains(system));
}

#[test]
fn a_client_identity_takes_both_parts() {
    let mut store = CredentialStore::new();
    let both =
        GrpcChannelCredentials::create_ssl(&mut store, None, some("key"), some("cert")).unwrap();
    assert!(shown(&both).contains(&pem_bytes("key")));
    assert!(shown(&both).contains(&pem_bytes("cert")));
    let half = GrpcChannelCredentials::create_ssl(&mut store, None, some("key"), None).unwrap();
    assert!(!shown(&half).contains(&pem_bytes("key")));
    let half = GrpcChannelCredentials::create_ssl(&mut store, None, None, some("cert")).unwrap();
    assert!(!shown(&half).contains(&pem_bytes("cert")));
}

#[test]
fn the_default_roots_can_be_forgotten() {
    let mut store = CredentialStore::new();
    assert!(!GrpcChannelCredentials::is_default_roots_pem_set(&store));
    GrpcChannelCredentials::set_default_roots_pem(&mut store, "default".to_string());
    assert!(GrpcChannelCredentials::is_default_roots_pem_set(&store));
    GrpcChannelCredentials::invalidate_default_roots_pem(&mut store);
    assert!(!GrpcChannelCredentials::is_default_roots_pem_set(&store));
    let creds = GrpcChannelCredentials::create_default(&mut store);
    assert!(!shown(&creds).contains(&pem_bytes("default")));
}

#[test]
fn insecure_credentials_are_none() {
    assert!(GrpcChannelCredentials::create_insecure().is_none());
}

#[test]
fn every_set_of_credentials_has_its_own_number() {
    let mut store = CredentialStore::new();
    let a = GrpcChannelCredentials::create_default(&mut store);
    let b = GrpcChannelCredentials::create_ssl(&mut store, None, None, None).unwrap();
    let call = GrpcCallCredentials::create_from_plugin(7, true).unwrap();
    let c = GrpcChannelCredentials::create_composite(&mut store, &a, &call).unwrap();
    assert_eq!((a.id, b.id, c.id), (1, 2, 3));
}

#[test]
fn composite_credentials_keep_the_tls_settings() {
    let mut store = CredentialStore::new();
    let ssl = GrpcChannelCredentials::create_ssl(&mut store, some("roots"), None, None).unwrap();
    let first = GrpcCallCredentials::create_from_plugin(7, true).unwrap();
    let second = GrpcCallCredentials::create_from_plugin(8, true).unwrap();
    let once = GrpcChannelCredentials::create_composite(&mut store, &ssl, &first).unwrap();
    let twice = GrpcChannelCredentials::create_composite(&mut store, &once, &second).unwrap();
    assert!(shown(&twice).contains(&pem_bytes("roots")));
    match twice.inner {
        CredentialsInner::Composite { call_plugins, .. } => assert_eq!(call_plugins, [8]),
        CredentialsInner::Ssl { .. } => panic!("composite credentials expected"),
    }
}

#[test]
fn a_plugin_must_be_callable() {
    let creds = GrpcCallCredentials::create_from_plugin(7, true).unwrap();
    assert_eq!(creds.plugins, [7]);
    let e = GrpcCallCredentials::create_from_plugin(7, false).unwrap_err();
    assert_eq!(e.class, ExceptionClass::Exception);
    assert_eq!(e.message, "createFromPlugin expects a callable");
}

#[test]
fn composite_call_credentials_chain_their_plugins() {
    let a = GrpcCallCredentials::create_from_plugin(1, true).unwrap();
    let b = GrpcCallCredentials::create_from_plugin(2, true).unwrap();
    let none = GrpcCallCredentials { plugins: vec![] };
    let ab = GrpcCallCredentials::create_composite(&a, &b).unwrap();
    assert_eq!(ab.plugins, [1, 2]);
    let c = GrpcCallCredentials::create_composite(&b, &ab).unwrap();
    assert_eq!(c.plugins, [2, 1, 2]);
    let c = GrpcCallCredentials::create_composite(&none, &b).unwrap();
    assert_eq!(c.plugins, [2]);
    let c = GrpcCallCredentials::create_composite(&none, &none).unwrap();
    assert!(c.plugins.is_empty());
}

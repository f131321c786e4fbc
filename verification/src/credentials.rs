//! Channel and call credentials.

use crate::error::{default_exception, exception, ExceptionClass, PhpException};
use tonic::transport::ClientTlsConfig;
use vstd::prelude::*;
use vstd::utf8::encode_utf8;

verus! {

// ---------------------------------------------------------------------------
// TLS configuration
// ---------------------------------------------------------------------------

/// `tonic::transport::ClientTlsConfig`.
#[verifier::external_type_specification]
#[verifier::external_body]
pub struct ExClientTlsConfig(tonic::transport::ClientTlsConfig);

/// What a TLS configuration holds.
pub struct TlsSettings {
    /// The PEM texts of the root certificates, in the order they were added.
    pub roots: Seq<Seq<u8>>,
    /// Whether the root certificates of the system are trusted too.
    pub system_roots: bool,
    /// The PEM texts of the client certificate chain and its private key.
    pub identity: Option<(Seq<u8>, Seq<u8>)>,
    /// The name that the server certificate is checked against.
    pub domain: Option<Seq<char>>,
}

/// What a TLS configuration holds.
pub uninterp spec fn tls_settings(config: ClientTlsConfig) -> TlsSettings;

/// The settings of a TLS configuration that nothing was set in.
pub open spec fn no_tls_settings() -> TlsSettings {
    TlsSettings { roots: Seq::empty(), system_roots: false, identity: None, domain: None }
}

/// `ClientTlsConfig::new` makes a configuration with nothing set.
pub assume_specification[ tonic::transport::ClientTlsConfig::new ]() -> (r: ClientTlsConfig)
    ensures
        tls_settings(r) == no_tls_settings(),
;

/// The clone of a `ClientTlsConfig` has the same settings.
pub assume_specification[ <tonic::transport::ClientTlsConfig as Clone>::clone ](
    config: &ClientTlsConfig,
) -> (r: ClientTlsConfig)
    ensures
        tls_settings(r) == tls_settings(*config),
;

/// Adds root certificates.
///
/// Calls `ClientTlsConfig::ca_certificate` with `Certificate::from_pem`. Taken
/// on trust: the PEM text is kept as it is, behind those added before.
#[verifier::external_body]
fn add_roots(config: ClientTlsConfig, pem: &str) -> (r: ClientTlsConfig)
    ensures
        tls_settings(r) == (TlsSettings {
            roots: tls_settings(config).roots.push(encode_utf8(pem@)),
            ..tls_settings(config)
        }),
{
    config.ca_certificate(tonic::transport::Certificate::from_pem(pem))
}

/// Trusts the root certificates of the system.
///
/// Calls `ClientTlsConfig::with_native_roots`. Taken on trust: it only sets
/// the flag. The certificates are loaded when an endpoint is built.
#[verifier::external_body]
fn use_system_roots(config: ClientTlsConfig) -> (r: ClientTlsConfig)
    ensures
        tls_settings(r) == (TlsSettings { system_roots: true, ..tls_settings(config) }),
{
    config.with_native_roots()
}

/// Sets the client identity.
///
/// Calls `ClientTlsConfig::identity` with `Identity::from_pem`. Taken on
/// trust: the two PEM texts are kept as they are.
#[verifier::external_body]
fn set_identity(config: ClientTlsConfig, cert_chain: &str, private_key: &str) -> (r:
    ClientTlsConfig)
    ensures
        tls_settings(r) == (TlsSettings {
            identity: Some((encode_utf8(cert_chain@), encode_utf8(private_key@))),
            ..tls_settings(config)
        }),
{
    config.identity(tonic::transport::Identity::from_pem(cert_chain, private_key))
}

/// Sets the name that the server certificate is checked against.
///
/// Calls `ClientTlsConfig::domain_name`. Taken on trust: the name is kept as
/// it is.
#[verifier::external_body]
pub(crate) fn set_domain_name(config: ClientTlsConfig, name: String) -> (r: ClientTlsConfig)
    ensures
        tls_settings(r) == (TlsSettings { domain: Some(name@), ..tls_settings(config) }),
{
    config.domain_name(name)
}

// ---------------------------------------------------------------------------
// Channel credentials
// ---------------------------------------------------------------------------

/// The kinds of channel credentials.
#[derive(Debug)]
pub enum CredentialsInner {
    /// TLS alone.
    Ssl { tls_config: ClientTlsConfig },
    /// TLS with plugins that add metadata to every call, by the handles under
    /// which the engine keeps their callables.
    Composite { tls_config: ClientTlsConfig, call_plugins: Vec<u64> },
}

impl CredentialsInner {
    /// The TLS settings, which all channel credentials have.
    pub open spec fn settings(self) -> TlsSettings {
        match self {
            CredentialsInner::Ssl { tls_config } => tls_settings(tls_config),
            CredentialsInner::Composite { tls_config, .. } => tls_settings(tls_config),
        }
    }

    /// The plugins of composite credentials.
    pub open spec fn plugins(self) -> Option<Seq<u64>> {
        match self {
            CredentialsInner::Ssl { .. } => None,
            CredentialsInner::Composite { call_plugins, .. } => Some(call_plugins@),
        }
    }
}

/// The same plugins once more.
pub(crate) fn same_plugins(plugins: &Vec<u64>) -> (r: Vec<u64>)
    ensures
        r@ == plugins@,
{
    let r = plugins.clone();
    assert(r@ =~= plugins@);
    r
}

/// `Grpc\ChannelCredentials`.
#[derive(Debug)]
pub struct GrpcChannelCredentials {
    pub inner: CredentialsInner,
    /// Tells these credentials from all others; 0 stands for none.
    pub id: u64,
}

/// What all credentials of a process share: the default root certificates,
/// and the number that the newest credentials have.
pub struct CredentialStore {
    pub default_roots_pem: Option<String>,
    pub last_id: u64,
}

/// The text in an option.
pub open spec fn text_in(text: Option<String>) -> Option<Seq<char>> {
    match text {
        Some(t) => Some(t@),
        None => None,
    }
}

/// The TLS settings for root certificates and a client identity. Without root
/// certificates those of the system are trusted. An identity takes both its
/// parts.
pub open spec fn ssl_settings(
    roots: Option<Seq<char>>,
    private_key: Option<Seq<char>>,
    cert_chain: Option<Seq<char>>,
) -> TlsSettings {
    TlsSettings {
        roots: match roots {
            Some(pem) => seq![encode_utf8(pem)],
            None => Seq::empty(),
        },
        system_roots: roots is None,
        identity: match (cert_chain, private_key) {
            (Some(cert), Some(key)) => Some((encode_utf8(cert), encode_utf8(key))),
            _ => None,
        },
        domain: None,
    }
}

/// The first text there is.
pub open spec fn first_of(a: Option<Seq<char>>, b: Option<Seq<char>>) -> Option<Seq<char>> {
    match a {
        Some(_) => a,
        None => b,
    }
}

impl CredentialStore {
    /// A store with nothing in it.
    pub fn new() -> (r: CredentialStore)
        ensures
            r.default_roots_pem is None,
            r.last_id == 0,
    {
        CredentialStore { default_roots_pem: None, last_id: 0 }
    }

    /// Whether another set of credentials can be told from all the others.
    pub open spec fn has_ids(self) -> bool {
        self.last_id < u64::MAX
    }

    /// The number of new credentials.
    fn next_id(&mut self) -> (id: u64)
        requires
            old(self).has_ids(),
        ensures
            id == old(self).last_id + 1,
            final(self).last_id == id,
            final(self).default_roots_pem == old(self).default_roots_pem,
    {
        self.last_id = self.last_id + 1;
        self.last_id
    }
}

impl GrpcChannelCredentials {
    /// `createSsl`: TLS credentials.
    ///
    /// Root certificates given here come before the default ones, and those
    /// before the ones of the system.
    pub fn create_ssl(
        store: &mut CredentialStore,
        pem_root_certs: Option<String>,
        pem_private_key: Option<String>,
        pem_cert_chain: Option<String>,
    ) -> (r: Result<GrpcChannelCredentials, PhpException>)
        requires
            old(store).has_ids(),
        ensures
            r matches Ok(creds) && creds.id == old(store).last_id + 1 && creds.inner is Ssl
                && creds.inner.settings() == ssl_settings(
                first_of(text_in(pem_root_certs), text_in(old(store).default_roots_pem)),
                text_in(pem_private_key),
                text_in(pem_cert_chain),
            ),
            final(store).last_id == old(store).last_id + 1,
            final(store).default_roots_pem == old(store).default_roots_pem,
    {
        let mut tls = ClientTlsConfig::new();
        match &pem_root_certs {
            Some(pem) => {
                tls = add_roots(tls, pem.as_str());
            },
            None => match &store.default_roots_pem {
                Some(pem) => {
                    tls = add_roots(tls, pem.as_str());
                },
                None => {
                    tls = use_system_roots(tls);
                },
            },
        }
        proof {
            let roots = first_of(text_in(pem_root_certs), text_in(store.default_roots_pem));
            assert(tls_settings(tls).roots =~= ssl_settings(roots, None, None).roots);
        }
        match (&pem_cert_chain, &pem_private_key) {
            (Some(cert_chain), Some(private_key)) => {
                tls = set_identity(tls, cert_chain.as_str(), private_key.as_str());
            },
            _ => {},
        }
        let id = store.next_id();
        Ok(GrpcChannelCredentials { inner: CredentialsInner::Ssl { tls_config: tls }, id })
    }

    /// `createInsecure`: PHP gets null, which a channel takes for no
    /// credentials.
    pub fn create_insecure() -> (r: Option<GrpcChannelCredentials>)
        ensures
            r is None,
    {
        None
    }

    /// `createComposite`: the TLS of channel credentials together with the
    /// plugins of call credentials.
    pub fn create_composite(
        store: &mut CredentialStore,
        channel_creds: &GrpcChannelCredentials,
        call_creds: &GrpcCallCredentials,
    ) -> (r: Result<GrpcChannelCredentials, PhpException>)
        requires
            old(store).has_ids(),
        ensures
            r matches Ok(creds) && creds.id == old(store).last_id + 1 && creds.inner.settings()
                == channel_creds.inner.settings() && creds.inner.plugins() == Some(
                call_creds.plugins@,
            ),
            final(store).last_id == old(store).last_id + 1,
            final(store).default_roots_pem == old(store).default_roots_pem,
    {
        let tls_config = match &channel_creds.inner {
            CredentialsInner::Ssl { tls_config } => tls_config.clone(),
            CredentialsInner::Composite { tls_config, .. } => tls_config.clone(),
        };
        let call_plugins = same_plugins(&call_creds.plugins);
        let id = store.next_id();
        Ok(
            GrpcChannelCredentials {
                inner: CredentialsInner::Composite { tls_config, call_plugins },
                id,
            },
        )
    }

    /// `createDefault`: TLS credentials with the default root certificates, or
    /// else with those of the system.
    pub fn create_default(store: &mut CredentialStore) -> (r: GrpcChannelCredentials)
        requires
            old(store).has_ids(),
        ensures
            r.id == old(store).last_id + 1,
            r.inner is Ssl,
            r.inner.settings() == ssl_settings(text_in(old(store).default_roots_pem), None, None),
            final(store).last_id == old(store).last_id + 1,
            final(store).default_roots_pem == old(store).default_roots_pem,
    {
        let mut tls = ClientTlsConfig::new();
        match &store.default_roots_pem {
            Some(pem) => {
                tls = add_roots(tls, pem.as_str());
            },
            None => {
                tls = use_system_roots(tls);
            },
        }
        proof {
            let roots = text_in(store.default_roots_pem);
            assert(tls_settings(tls).roots =~= ssl_settings(roots, None, None).roots);
        }
        let id = store.next_id();
        GrpcChannelCredentials { inner: CredentialsInner::Ssl { tls_config: tls }, id }
    }

    /// `setDefaultRootsPem`: sets the default root certificates.
    pub fn set_default_roots_pem(store: &mut CredentialStore, pem: String)
        ensures
            *final(store) == (CredentialStore { default_roots_pem: Some(pem), ..*old(store) }),
    {
        store.default_roots_pem = Some(pem);
    }

    /// `isDefaultRootsPemSet`: whether there are default root certificates.
    pub fn is_default_roots_pem_set(store: &CredentialStore) -> (r: bool)
        ensures
            r == (store.default_roots_pem is Some),
    {
        store.default_roots_pem.is_some()
    }

    /// `invalidateDefaultRootsPem`: forgets the default root certificates.
    pub fn invalidate_default_roots_pem(store: &mut CredentialStore)
        ensures
            *final(store) == (CredentialStore { default_roots_pem: None, ..*old(store) }),
    {
        store.default_roots_pem = None;
    }
}

// ---------------------------------------------------------------------------
// Call credentials
// ---------------------------------------------------------------------------

/// `Grpc\CallCredentials`.
#[derive(Debug)]
pub struct GrpcCallCredentials {
    /// The plugins that a call asks for metadata, in turn, by the handles under
    /// which the engine keeps their callables.
    pub plugins: Vec<u64>,
}

impl GrpcCallCredentials {
    /// `createFromPlugin`: call credentials from a PHP callable.
    ///
    /// `handle` is the handle of the value, `callable` whether it can be
    /// called.
    pub fn create_from_plugin(handle: u64, callable: bool) -> (r: Result<
        GrpcCallCredentials,
        PhpException,
    >)
        ensures
            r is Ok <==> callable,
            r matches Ok(creds) ==> creds.plugins@ == seq![handle],
            r matches Err(e) ==> e@ == exception(
                ExceptionClass::Exception,
                "createFromPlugin expects a callable"@,
                0,
            ),
    {
        if !callable {
            return Err(default_exception("createFromPlugin expects a callable"));
        }
        let plugins: Vec<u64> = vec![handle];
        assert(plugins@ =~= seq![handle]);
        Ok(GrpcCallCredentials { plugins })
    }

    /// `createComposite`: chains two call credentials. The plugins of the first
    /// come before those of the second.
    pub fn create_composite(
        creds1: &GrpcCallCredentials,
        creds2: &GrpcCallCredentials,
    ) -> (r: Result<GrpcCallCredentials, PhpException>)
        ensures
            r matches Ok(creds) && creds.plugins@ == creds1.plugins@ + creds2.plugins@,
    {
        let mut plugins = same_plugins(&creds1.plugins);
        let mut more = same_plugins(&creds2.plugins);
        plugins.append(&mut more);
        assert(plugins@ =~= creds1.plugins@ + creds2.plugins@);
        Ok(GrpcCallCredentials { plugins })
    }
}

// ---------------------------------------------------------------------------
// Laws
// ---------------------------------------------------------------------------

/// TLS is set up with what was given and nothing else: the root certificates
/// byte for byte, those of the system only where none were given, and the client
/// identity, byte for byte, exactly when both of its parts were given.
pub proof fn law_tls_is_set_up_as_given(
    roots: Option<Seq<char>>,
    private_key: Option<Seq<char>>,
    cert_chain: Option<Seq<char>>,
)
    ensures
        ({
            let set = ssl_settings(roots, private_key, cert_chain);
            &&& roots matches Some(pem) ==> set.roots.len() == 1 && set.roots[0] == encode_utf8(pem)
            &&& roots is None ==> set.roots.len() == 0
            &&& set.system_roots <==> roots is None
            &&& set.identity is Some <==> cert_chain is Some && private_key is Some
            &&& set.identity matches Some(pair) ==> pair.0 == encode_utf8(cert_chain->0) && pair.1
                == encode_utf8(private_key->0)
            &&& set.domain is None
        }),
{
}

/// Of two texts the first counts, and the second only where there is no first.
pub proof fn law_given_comes_before_default(
    given: Option<String>,
    default: Option<String>,
    text: String,
)
    ensures
        text_in(Some(text)) == Some(text@),
        text_in(None) == None::<Seq<char>>,
        first_of(text_in(Some(text)), text_in(default)) == Some(text@),
        first_of(text_in(None), text_in(Some(text))) == Some(text@),
        first_of(text_in(None), text_in(None)) == None::<Seq<char>>,
{
}

/// Credentials bring the settings of their TLS configuration, and plugins
/// exactly when they are composite: all of them, in their order.
pub proof fn law_credentials_bring_what_they_hold(config: ClientTlsConfig, plugins: Vec<u64>)
    ensures
        (CredentialsInner::Ssl { tls_config: config }).settings() == tls_settings(config),
        (CredentialsInner::Ssl { tls_config: config }).plugins() is None,
        (CredentialsInner::Composite {
            tls_config: config,
            call_plugins: plugins,
        }).settings() == tls_settings(config),
        (CredentialsInner::Composite {
            tls_config: config,
            call_plugins: plugins,
        }).plugins() == Some(plugins@),
{
}

} // verus!

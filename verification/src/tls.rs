use rustls::pki_types::{
    CertificateDer, PrivateKeyDer, PrivatePkcs1KeyDer, PrivatePkcs8KeyDer, PrivateSec1KeyDer,
};
use rustls::ServerConfig;
use vstd::prelude::*;

verus! {

broadcast use vstd::string::group_string_axioms;

#[verifier::external_type_specification]
#[verifier::external_body]
pub struct ExServerConfig(rustls::ServerConfig);

/// The kinds of private key that a PEM text can carry.
#[derive(Clone, Copy, Debug, PartialEq, Eq, Structural)]
pub enum KeyKind {
    /// An RSA key in PKCS#1 form (`RSA PRIVATE KEY`).
    Pkcs1,
    /// An elliptic-curve key in SEC1 form (`EC PRIVATE KEY`).
    Sec1,
    /// A key of any algorithm in PKCS#8 form (`PRIVATE KEY`).
    Pkcs8,
}

/// A private key as plain data: its kind and its DER bytes.
#[derive(Clone, Debug)]
pub struct PrivateKey {
    pub kind: KeyKind,
    pub der: Vec<u8>,
}

/// Why the self-signed TLS configuration could not be built; where an outside
/// library explained the failure, its words are kept.
#[derive(Clone, Debug)]
pub enum TlsError {
    /// `rcgen` failed to generate the certificate.
    Generate(String),
    /// The certificate PEM could not be read.
    CertPem(String),
    /// The certificate PEM holds no certificate.
    NoCertificate,
    /// The key PEM could not be read.
    KeyPem(String),
    /// The key PEM holds no private key.
    NoPrivateKey,
    /// `rustls` refused the certificate and key.
    BuildConfig(String),
}

impl TlsError {
    /// What was being done when the failure came.
    pub fn message(&self) -> (r: &'static str)
        ensures
            r == match *self {
                TlsError::Generate(_) => "generating self-signed cert",
                TlsError::CertPem(_) => "parsing self-signed cert PEM",
                TlsError::NoCertificate => "no certificates in self-signed PEM",
                TlsError::KeyPem(_) => "parsing self-signed key PEM",
                TlsError::NoPrivateKey => "no private key in self-signed PEM",
                TlsError::BuildConfig(_) => "building rustls ServerConfig from self-signed pair",
            },
    {
        match self {
            TlsError::Generate(_) => "generating self-signed cert",
            TlsError::CertPem(_) => "parsing self-signed cert PEM",
            TlsError::NoCertificate => "no certificates in self-signed PEM",
            TlsError::KeyPem(_) => "parsing self-signed key PEM",
            TlsError::NoPrivateKey => "no private key in self-signed PEM",
            TlsError::BuildConfig(_) => "building rustls ServerConfig from self-signed pair",
        }
    }

    /// The outside library's own account of the failure, where there is one.
    pub fn detail(&self) -> (r: Option<String>)
        ensures
            match *self {
                TlsError::Generate(d) => r matches Some(s) && s@ == d@,
                TlsError::CertPem(d) => r matches Some(s) && s@ == d@,
                TlsError::KeyPem(d) => r matches Some(s) && s@ == d@,
                TlsError::BuildConfig(d) => r matches Some(s) && s@ == d@,
                TlsError::NoCertificate => r is None,
                TlsError::NoPrivateKey => r is None,
            },
    {
        match self {
            TlsError::Generate(d) => Some(d.clone()),
            TlsError::CertPem(d) => Some(d.clone()),
            TlsError::KeyPem(d) => Some(d.clone()),
            TlsError::BuildConfig(d) => Some(d.clone()),
            TlsError::NoCertificate => None,
            TlsError::NoPrivateKey => None,
        }
    }
}

/// Evidence that a process-wide `rustls` crypto provider is installed.
pub struct CryptoProviderReady {
    installed: bool,
}

/// Calls `rustls::crypto::aws_lc_rs::default_provider().install_default()`.
///
/// The call either installs the aws-lc-rs provider as the process default or
/// finds one already installed (its error, which the caller ignores); either
/// way a process default exists afterwards, which the returned value records.
/// Nothing else is claimed.
#[verifier::external_body]
fn install_default_crypto_provider() -> (r: CryptoProviderReady) {
    let _ = rustls::crypto::aws_lc_rs::default_provider().install_default();
    CryptoProviderReady { installed: true }
}

/// What `rustls_pemfile::certs` finds in `pem`, its items collected up to the
/// first error: the DER bytes of each `CERTIFICATE` section in order, or the
/// text of the error.
pub uninterp spec fn pem_certificates_found(pem: Seq<char>) -> Result<Seq<Seq<u8>>, Seq<char>>;

/// What `rustls_pemfile::private_key` finds in `pem`: the kind and DER bytes
/// of the first private key section, no key, or the text of the error.
pub uninterp spec fn pem_private_key_found(pem: Seq<char>) -> Result<
    Option<(KeyKind, Seq<u8>)>,
    Seq<char>,
>;

/// Calls `rustls_pemfile::certs` on `pem`, collects its items into a `Result`
/// (stopping at the first error) and hands out each certificate's DER bytes,
/// or the error's text.
///
/// Trusted: the outcome depends on `pem` alone and is the value named by
/// `pem_certificates_found`.
#[verifier::external_body]
fn pem_certificates(pem: &str) -> (r: Result<Vec<Vec<u8>>, String>)
    ensures
        match pem_certificates_found(pem@) {
            Ok(ders) => r matches Ok(v) && v@.len() == ders.len() && forall|i: int|
                0 <= i < ders.len() ==> (#[trigger] v@[i])@ == ders[i],
            Err(e) => r matches Err(m) && m@ == e,
        },
{
    let found: Result<Vec<CertificateDer<'static>>, std::io::Error> =
        rustls_pemfile::certs(&mut std::io::Cursor::new(pem)).collect();
    match found {
        Ok(certs) => Ok(certs.iter().map(|c| c.to_vec()).collect()),
        Err(e) => Err(e.to_string()),
    }
}

/// Calls `rustls_pemfile::private_key` on `pem` and hands out the key's kind
/// and DER bytes, or the error's text. That function yields only PKCS#1,
/// SEC1 and PKCS#8 keys.
///
/// Trusted: the outcome depends on `pem` alone and is the value named by
/// `pem_private_key_found`.
#[verifier::external_body]
fn pem_private_key(pem: &str) -> (r: Result<Option<PrivateKey>, String>)
    ensures
        match pem_private_key_found(pem@) {
            Ok(None) => r matches Ok(k) && k is None,
            Ok(Some((kind, der))) => r matches Ok(Some(k)) && k.kind == kind && k.der@ == der,
            Err(e) => r matches Err(m) && m@ == e,
        },
{
    match rustls_pemfile::private_key(&mut std::io::Cursor::new(pem)) {
        Ok(Some(PrivateKeyDer::Pkcs1(k))) =>
            Ok(Some(PrivateKey { kind: KeyKind::Pkcs1, der: k.secret_pkcs1_der().to_vec() })),
        Ok(Some(PrivateKeyDer::Sec1(k))) =>
            Ok(Some(PrivateKey { kind: KeyKind::Sec1, der: k.secret_sec1_der().to_vec() })),
        Ok(Some(PrivateKeyDer::Pkcs8(k))) =>
            Ok(Some(PrivateKey { kind: KeyKind::Pkcs8, der: k.secret_pkcs8_der().to_vec() })),
        Ok(_) => Ok(None),
        Err(e) => Err(e.to_string()),
    }
}

/// What `generate_self_signed_pems` hands out: the subject names that the
/// certificate was asked for, and the certificate and key pair as PEM texts.
struct GeneratedPems {
    names: Vec<String>,
    cert_pem: String,
    key_pem: String,
}

/// Calls `rcgen::generate_simple_self_signed(names)` and writes the issued
/// certificate (`Certificate::pem`) and its key pair
/// (`KeyPair::serialize_pem`) as PEM texts, handing `names` back beside them;
/// on failure, the error's text.
///
/// Trusted: `pem` writes the certificate's DER as one `CERTIFICATE` section
/// and `serialize_pem` the freshly generated (local) key pair's PKCS#8 DER as
/// one `PRIVATE KEY` section, which `rustls_pemfile` reads back as one
/// non-empty certificate and one non-empty PKCS#8 key. The key is random, so
/// whether the call succeeds is not claimed, nor which bytes come out. The
/// names handed back are those the certificate was issued for; that the DER
/// lists them as subject alternative names is not stated, as nothing here
/// reads DER.
#[verifier::external_body]
fn generate_self_signed_pems(names: Vec<String>) -> (r: Result<GeneratedPems, String>)
    ensures
        r matches Ok(g) ==> {
            &&& g.names@ == names@
            &&& pem_certificates_found(g.cert_pem@) matches Ok(ders)
            &&& ders.len() == 1
            &&& ders[0].len() > 0
            &&& pem_private_key_found(g.key_pem@) matches Ok(Some((kind, der)))
            &&& kind == KeyKind::Pkcs8
            &&& der.len() > 0
        },
{
    match rcgen::generate_simple_self_signed(names.clone()) {
        Ok(issued) => Ok(
            GeneratedPems { names, cert_pem: issued.cert.pem(), key_pem: issued.key_pair.serialize_pem() },
        ),
        Err(e) => Err(e.to_string()),
    }
}

/// A `rustls` server configuration with the certificate and the key that it
/// serves.
pub struct TlsConfig {
    pub server_config: ServerConfig,
    /// The DER bytes of the one certificate of the served chain.
    pub certificate: Vec<u8>,
    /// The private key of that certificate.
    pub key: PrivateKey,
}

/// A self-signed TLS configuration with the subject names that its
/// certificate was issued for.
pub struct SelfSignedConfig {
    pub names: Vec<String>,
    pub tls: TlsConfig,
}

/// Calls `ServerConfig::builder().with_no_client_auth().with_single_cert(..)`
/// with a chain of the one certificate `cert_der` and the key `key`, and
/// keeps the two beside the configuration, which serves them; on failure,
/// the error's text.
///
/// `ready` witnesses the process-default crypto provider that `builder`
/// needs (it panics without one). Whether the call succeeds is not claimed,
/// as it depends on that provider; of a success, that the certificate and
/// key kept are those handed in.
#[verifier::external_body]
fn server_config_with_single_cert(
    ready: &CryptoProviderReady,
    cert_der: Vec<u8>,
    key: PrivateKey,
) -> (r: Result<TlsConfig, String>)
    ensures
        r matches Ok(c) ==> c.certificate@ == cert_der@ && c.key.kind == key.kind && c.key.der@
            == key.der@,
{
    let key_der: PrivateKeyDer<'static> = match key.kind {
        KeyKind::Pkcs1 => PrivatePkcs1KeyDer::from(key.der.clone()).into(),
        KeyKind::Sec1 => PrivateSec1KeyDer::from(key.der.clone()).into(),
        KeyKind::Pkcs8 => PrivatePkcs8KeyDer::from(key.der.clone()).into(),
    };
    let chain = vec![CertificateDer::from(cert_der.clone())];
    match ServerConfig::builder().with_no_client_auth().with_single_cert(chain, key_der) {
        Ok(server_config) => Ok(TlsConfig { server_config, certificate: cert_der, key }),
        Err(e) => Err(e.to_string()),
    }
}

/// The DER bytes of the first certificate of the PEM text `pem`; a malformed
/// section anywhere in the text is an error even after a good certificate.
pub fn parse_first_cert(pem: &str) -> (r: Result<Vec<u8>, TlsError>)
    ensures
        match pem_certificates_found(pem@) {
            Err(e) => r matches Err(TlsError::CertPem(m)) && m@ == e,
            Ok(ders) => if ders.len() == 0 {
                r matches Err(TlsError::NoCertificate)
            } else {
                r matches Ok(der) && der@ == ders[0]
            },
        },
{
    match pem_certificates(pem) {
        Err(e) => Err(TlsError::CertPem(e)),
        Ok(mut certs) => {
            if certs.len() == 0 {
                Err(TlsError::NoCertificate)
            } else {
                Ok(certs.swap_remove(0))
            }
        },
    }
}

/// The first private key of the PEM text `pem`.
pub fn parse_private_key(pem: &str) -> (r: Result<PrivateKey, TlsError>)
    ensures
        match pem_private_key_found(pem@) {
            Err(e) => r matches Err(TlsError::KeyPem(m)) && m@ == e,
            Ok(None) => r matches Err(TlsError::NoPrivateKey),
            Ok(Some((kind, der))) => r matches Ok(k) && k.kind == kind && k.der@ == der,
        },
{
    match pem_private_key(pem) {
        Err(e) => Err(TlsError::KeyPem(e)),
        Ok(None) => Err(TlsError::NoPrivateKey),
        Ok(Some(k)) => Ok(k),
    }
}

/// What building a configuration from the PEM texts `cert_pem` and `key_pem`
/// gives: certificate problems before key problems; then either `rustls`
/// refuses the pair, or the configuration serves exactly the first
/// certificate of `cert_pem` with the first key of `key_pem`.
pub open spec fn pems_config_outcome(
    cert_pem: Seq<char>,
    key_pem: Seq<char>,
    r: Result<TlsConfig, TlsError>,
) -> bool {
    match pem_certificates_found(cert_pem) {
        Err(e) => r matches Err(TlsError::CertPem(m)) && m@ == e,
        Ok(ders) => if ders.len() == 0 {
            r matches Err(TlsError::NoCertificate)
        } else {
            match pem_private_key_found(key_pem) {
                Err(e) => r matches Err(TlsError::KeyPem(m)) && m@ == e,
                Ok(None) => r matches Err(TlsError::NoPrivateKey),
                Ok(Some((kind, der))) => match r {
                    Ok(c) => c.certificate@ == ders[0] && c.key.kind == kind && c.key.der@ == der,
                    Err(e) => e is BuildConfig,
                },
            }
        },
    }
}

fn config_with_provider(ready: &CryptoProviderReady, cert_pem: &str, key_pem: &str) -> (r: Result<
    TlsConfig,
    TlsError,
>)
    ensures
        pems_config_outcome(cert_pem@, key_pem@, r),
{
    let cert_der = match parse_first_cert(cert_pem) {
        Ok(c) => c,
        Err(e) => return Err(e),
    };
    let key = match parse_private_key(key_pem) {
        Ok(k) => k,
        Err(e) => return Err(e),
    };
    match server_config_with_single_cert(ready, cert_der, key) {
        Ok(config) => Ok(config),
        Err(e) => Err(TlsError::BuildConfig(e)),
    }
}

/// A TLS configuration serving the first certificate of `cert_pem` with the
/// first key of `key_pem`, under the process-default crypto provider
/// (aws-lc-rs unless another was installed first), which is installed
/// first. Certificate problems are reported before key problems, and
/// `rustls` has the last word on the pair.
pub fn config_from_pems(cert_pem: &str, key_pem: &str) -> (r: Result<TlsConfig, TlsError>)
    ensures
        pems_config_outcome(cert_pem@, key_pem@, r),
{
    let ready = install_default_crypto_provider();
    config_with_provider(&ready, cert_pem, key_pem)
}

/// The subject names of the self-signed certificate: `localhost` alone.
pub fn self_signed_names() -> (r: Vec<String>)
    ensures
        r@.len() == 1,
        r@[0]@ == "localhost"@,
{
    let mut names: Vec<String> = Vec::new();
    names.push("localhost".to_owned());
    names
}

/// A TLS configuration with a freshly generated self-signed certificate for
/// `localhost` and its key, the crypto provider installed first.
///
/// The generated key is random, so success is not promised; but the PEM
/// texts of a generated certificate and key always read back, so a failure
/// is either the generation or `rustls` refusing the pair. A configuration
/// built serves one non-empty certificate issued for `localhost` alone, with
/// a non-empty PKCS#8 key.
pub fn build_self_signed_config() -> (r: Result<SelfSignedConfig, TlsError>)
    ensures
        r is Ok || r matches Err(TlsError::Generate(_)) || r matches Err(TlsError::BuildConfig(_)),
        r matches Ok(s) ==> {
            &&& s.names@.len() == 1
            &&& s.names@[0]@ == "localhost"@
            &&& s.tls.certificate@.len() > 0
            &&& s.tls.key.kind == KeyKind::Pkcs8
            &&& s.tls.key.der@.len() > 0
        },
{
    let ready = install_default_crypto_provider();
    let generated = match generate_self_signed_pems(self_signed_names()) {
        Ok(g) => g,
        Err(e) => return Err(TlsError::Generate(e)),
    };
    match config_with_provider(&ready, generated.cert_pem.as_str(), generated.key_pem.as_str()) {
        Ok(tls) => Ok(SelfSignedConfig { names: generated.names, tls }),
        Err(e) => Err(e),
    }
}

} // verus!

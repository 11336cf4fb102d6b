//! Serving TLS without a proxy.

use rustls::pki_types::{CertificateDer, PrivateKeyDer};
use rustls::ServerConfig;
use vstd::prelude::*;
use vstd::string::StringExecFns;

verus! {

/// A certificate.
#[verifier::external_type_specification]
#[verifier::external_body]
pub struct ExCertificateDer<'a>(rustls::pki_types::CertificateDer<'a>);

/// A private key.
#[verifier::external_type_specification]
#[verifier::external_body]
pub struct ExPrivateKeyDer<'a>(rustls::pki_types::PrivateKeyDer<'a>);

/// The TLS configuration of a server.
#[verifier::external_type_specification]
#[verifier::external_body]
pub struct ExServerConfig(rustls::ServerConfig);

/// Why a certificate and a key make no server.
#[verifier::external_type_specification]
#[verifier::external_body]
pub struct ExTlsError(rustls::Error);

/// What [`rustls_pemfile::certs`] finds in a PEM file: its certificates, or why
/// they could not be read.
pub uninterp spec fn pem_certs(pem: Seq<u8>) -> Result<
    Seq<CertificateDer<'static>>,
    Seq<char>,
>;

/// What [`rustls_pemfile::private_key`] finds in a PEM file: its first private
/// key, or why it could not be read.
pub uninterp spec fn pem_private_key(pem: Seq<u8>) -> Result<
    Option<PrivateKeyDer<'static>>,
    Seq<char>,
>;

/// Why a certificate chain and a private key do not belong together.
pub uninterp spec fn identity_error(
    certs: Seq<CertificateDer<'static>>,
    key: PrivateKeyDer<'static>,
) -> Option<rustls::Error>;

/// The certificate chain and the private key that a server presents.
pub uninterp spec fn server_identity(config: ServerConfig) -> (
    Seq<CertificateDer<'static>>,
    PrivateKeyDer<'static>,
);

/// The protocols that a server offers by ALPN.
pub uninterp spec fn alpn_offer(config: ServerConfig) -> Seq<Seq<u8>>;

/// Whether a server asks its clients for a certificate.
pub uninterp spec fn asks_for_client_cert(config: ServerConfig) -> bool;

/// How a failure to set up a server reads.
pub uninterp spec fn tls_error_text(error: rustls::Error) -> Seq<char>;

/// [`rustls_pemfile::certs`] on a file in memory: all certificates in it, or the
/// text of the first error. It depends on the file's bytes alone.
#[verifier::external_body]
fn certs_in(pem: &[u8]) -> (r: Result<Vec<CertificateDer<'static>>, String>)
    ensures
        match r {
            Ok(certs) => pem_certs(pem@) == Ok::<Seq<CertificateDer<'static>>, Seq<char>>(certs@),
            Err(error) => pem_certs(pem@) == Err::<Seq<CertificateDer<'static>>, Seq<char>>(
                error@,
            ),
        },
{
    let mut reader = pem;
    let read: Result<Vec<_>, std::io::Error> = rustls_pemfile::certs(&mut reader).collect();
    match read {
        Ok(certs) => Ok(certs),
        Err(error) => Err(error.to_string()),
    }
}

/// [`rustls_pemfile::private_key`] on a file in memory: the first private key in
/// it, nothing where there is none, or the text of an error. It depends on the
/// file's bytes alone.
#[verifier::external_body]
fn private_key_in(pem: &[u8]) -> (r: Result<Option<PrivateKeyDer<'static>>, String>)
    ensures
        match r {
            Ok(key) => pem_private_key(pem@) == Ok::<Option<PrivateKeyDer<'static>>, Seq<char>>(
                key,
            ),
            Err(error) => pem_private_key(pem@) == Err::<
                Option<PrivateKeyDer<'static>>,
                Seq<char>,
            >(error@),
        },
{
    let mut reader = pem;
    match rustls_pemfile::private_key(&mut reader) {
        Ok(key) => Ok(key),
        Err(error) => Err(error.to_string()),
    }
}

/// `ConfigBuilder::with_single_cert` of rustls, under the ring provider with
/// its default protocol versions and without client authentication. Where the
/// chain and the key belong together the server presents them, and asks its
/// clients for no certificate; where they do not, the error depends on the two
/// alone. The default versions are among those of the provider, so choosing them
/// cannot fail.
#[verifier::external_body]
fn server_with_single_cert(
    certs: Vec<CertificateDer<'static>>,
    key: PrivateKeyDer<'static>,
) -> (r: Result<ServerConfig, rustls::Error>)
    ensures
        match r {
            Ok(config) => {
                &&& identity_error(certs@, key) is None
                &&& server_identity(config) == (certs@, key)
                &&& !asks_for_client_cert(config)
            },
            Err(error) => identity_error(certs@, key) == Some(error),
        },
{
    let provider = std::sync::Arc::new(rustls::crypto::ring::default_provider());
    ServerConfig::builder_with_provider(provider)
        .with_safe_default_protocol_versions()
        .unwrap()
        .with_no_client_auth()
        .with_single_cert(certs, key)
}

/// Sets the field `alpn_protocols` of a [`ServerConfig`] to a single protocol,
/// and touches no other.
#[verifier::external_body]
fn offer_only(config: &mut ServerConfig, protocol: Vec<u8>)
    ensures
        alpn_offer(*final(config)) == seq![protocol@],
        server_identity(*final(config)) == server_identity(*old(config)),
        asks_for_client_cert(*final(config)) == asks_for_client_cert(*old(config)),
{
    config.alpn_protocols = vec![protocol];
}

/// The `Display` text of a [`rustls::Error`], which depends on the error alone.
#[verifier::external_body]
fn describe_tls_error(error: &rustls::Error) -> (r: String)
    ensures
        r@ == tls_error_text(*error),
{
    error.to_string()
}

/// The name of HTTP/1.1 in ALPN.
pub open spec fn http_1_1() -> Seq<u8> {
    seq![104u8, 116u8, 116u8, 112u8, 47u8, 49u8, 46u8, 49u8]
}

/// A text behind what it is about.
fn labelled(label: &str, text: &str) -> (r: String)
    ensures
        r@ == label@ + text@,
{
    let mut r = label.to_owned();
    r.append(text);
    r
}

/// The certificate chain to present, or what is wrong with the file.
pub open spec fn usable_certs(
    read: Result<Seq<CertificateDer<'static>>, Seq<char>>,
) -> Result<Seq<CertificateDer<'static>>, Seq<char>> {
    match read {
        Ok(certs) => if certs.len() == 0 {
            Err("no certificates found in cert file"@)
        } else {
            Ok(certs)
        },
        Err(error) => Err("invalid cert PEM: "@ + error),
    }
}

/// The private key to use, or what is wrong with the file.
pub open spec fn usable_key(
    read: Result<Option<PrivateKeyDer<'static>>, Seq<char>>,
) -> Result<PrivateKeyDer<'static>, Seq<char>> {
    match read {
        Ok(Some(key)) => Ok(key),
        Ok(None) => Err("no private key found in key file"@),
        Err(error) => Err("invalid key PEM: "@ + error),
    }
}

/// The certificates that were read, as mathematical values.
pub open spec fn certs_view(
    read: Result<Vec<CertificateDer<'static>>, String>,
) -> Result<Seq<CertificateDer<'static>>, Seq<char>> {
    match read {
        Ok(certs) => Ok(certs@),
        Err(error) => Err(error@),
    }
}

/// The private key that was read, as mathematical values.
pub open spec fn key_view(
    read: Result<Option<PrivateKeyDer<'static>>, String>,
) -> Result<Option<PrivateKeyDer<'static>>, Seq<char>> {
    match read {
        Ok(key) => Ok(key),
        Err(error) => Err(error@),
    }
}

/// Takes the certificates that were read from a file, of which there must be one
/// at least.
pub fn check_certs(read: Result<Vec<CertificateDer<'static>>, String>) -> (r: Result<
    Vec<CertificateDer<'static>>,
    String,
>)
    ensures
        certs_view(r) == usable_certs(certs_view(read)),
{
    match read {
        Ok(certs) => if certs.len() == 0 {
            Err("no certificates found in cert file".to_owned())
        } else {
            Ok(certs)
        },
        Err(error) => Err(labelled("invalid cert PEM: ", error.as_str())),
    }
}

/// Takes the private key that was read from a file, of which there must be one.
pub fn check_key(read: Result<Option<PrivateKeyDer<'static>>, String>) -> (r: Result<
    PrivateKeyDer<'static>,
    String,
>)
    ensures
        match r {
            Ok(key) => usable_key(key_view(read)) == Ok::<PrivateKeyDer<'static>, Seq<char>>(key),
            Err(reason) => usable_key(key_view(read)) == Err::<PrivateKeyDer<'static>, Seq<char>>(
                reason@,
            ),
        },
{
    match read {
        Ok(Some(key)) => Ok(key),
        Ok(None) => Err("no private key found in key file".to_owned()),
        Err(error) => Err(labelled("invalid key PEM: ", error.as_str())),
    }
}

/// Finishes the configuration of a server: it offers HTTP/1.1 and nothing else,
/// because a WebSocket upgrade is an HTTP/1.1 handshake.
pub fn finish_config(built: Result<ServerConfig, rustls::Error>) -> (r: Result<
    ServerConfig,
    String,
>)
    ensures
        match (built, r) {
            (Ok(before), Ok(config)) => {
                &&& alpn_offer(config) == seq![http_1_1()]
                &&& server_identity(config) == server_identity(before)
                &&& asks_for_client_cert(config) == asks_for_client_cert(before)
            },
            (Err(error), Err(reason)) => reason@ == "cert/key mismatch: "@ + tls_error_text(error),
            _ => false,
        },
{
    match built {
        Ok(before) => {
            let mut config = before;
            let protocol: Vec<u8> = vec![104u8, 116u8, 116u8, 112u8, 47u8, 49u8, 46u8, 49u8];
            assert(protocol@ =~= http_1_1());
            offer_only(&mut config, protocol);
            Ok(config)
        },
        Err(error) => Err(labelled("cert/key mismatch: ", describe_tls_error(&error).as_str())),
    }
}

/// Why two PEM files make no server; nothing where they make one.
pub open spec fn pem_failure(cert_pem: Seq<u8>, key_pem: Seq<u8>) -> Option<Seq<char>> {
    match (usable_certs(pem_certs(cert_pem)), usable_key(pem_private_key(key_pem))) {
        (Err(reason), _) => Some(reason),
        (Ok(_), Err(reason)) => Some(reason),
        (Ok(certs), Ok(key)) => match identity_error(certs, key) {
            Some(error) => Some("cert/key mismatch: "@ + tls_error_text(error)),
            None => None,
        },
    }
}

/// Makes a server from a PEM file with a certificate chain and one with its
/// private key.
pub fn server_config(cert_pem: &[u8], key_pem: &[u8]) -> (r: Result<ServerConfig, String>)
    ensures
        match r {
            Ok(config) => {
                &&& pem_failure(cert_pem@, key_pem@) is None
                &&& alpn_offer(config) == seq![http_1_1()]
                &&& !asks_for_client_cert(config)
                &&& pem_certs(cert_pem@) == Ok::<Seq<CertificateDer<'static>>, Seq<char>>(
                    server_identity(config).0,
                )
                &&& pem_private_key(key_pem@) == Ok::<
                    Option<PrivateKeyDer<'static>>,
                    Seq<char>,
                >(Some(server_identity(config).1))
            },
            Err(reason) => pem_failure(cert_pem@, key_pem@) == Some(reason@),
        },
{
    let certs = match check_certs(certs_in(cert_pem)) {
        Ok(certs) => certs,
        Err(reason) => {
            return Err(reason);
        },
    };
    let key = match check_key(private_key_in(key_pem)) {
        Ok(key) => key,
        Err(reason) => {
            return Err(reason);
        },
    };
    finish_config(server_with_single_cert(certs, key))
}

/// Why two files make no server, where each was read or could not be.
pub open spec fn tls_failure(
    cert: Result<Seq<u8>, Seq<char>>,
    key: Result<Seq<u8>, Seq<char>>,
) -> Option<Seq<char>> {
    match (cert, key) {
        (Err(error), _) => Some("cannot read cert: "@ + error),
        (Ok(_), Err(error)) => Some("cannot read key: "@ + error),
        (Ok(cert_pem), Ok(key_pem)) => pem_failure(cert_pem, key_pem),
    }
}

/// What was read of a file, as mathematical values.
pub open spec fn read_view(read: Result<Vec<u8>, String>) -> Result<Seq<u8>, Seq<char>> {
    match read {
        Ok(bytes) => Ok(bytes@),
        Err(error) => Err(error@),
    }
}

/// Makes a server from the two files named for TLS, each as it was read or with
/// the reason why it could not be.
pub fn tls_config(cert: Result<Vec<u8>, String>, key: Result<Vec<u8>, String>) -> (r: Result<
    ServerConfig,
    String,
>)
    ensures
        match r {
            Ok(config) => {
                &&& tls_failure(read_view(cert), read_view(key)) is None
                &&& alpn_offer(config) == seq![http_1_1()]
                &&& !asks_for_client_cert(config)
                &&& pem_certs(cert->Ok_0@) == Ok::<Seq<CertificateDer<'static>>, Seq<char>>(
                    server_identity(config).0,
                )
                &&& pem_private_key(key->Ok_0@) == Ok::<
                    Option<PrivateKeyDer<'static>>,
                    Seq<char>,
                >(Some(server_identity(config).1))
            },
            Err(reason) => tls_failure(read_view(cert), read_view(key)) == Some(reason@),
        },
{
    match (cert, key) {
        (Err(error), _) => Err(labelled("cannot read cert: ", error.as_str())),
        (Ok(_), Err(error)) => Err(labelled("cannot read key: ", error.as_str())),
        (Ok(cert_pem), Ok(key_pem)) => server_config(cert_pem.as_slice(), key_pem.as_slice()),
    }
}

/// Certificates that were read are presented as they are, however many there are;
/// only a file without any is refused, and one that could not be read.
pub proof fn law_any_certificate_chain_is_used(
    read: Result<Vec<CertificateDer<'static>>, String>,
    used: Result<Vec<CertificateDer<'static>>, String>,
)
    requires
        call_ensures(check_certs, (read,), used),
    ensures
        used is Ok <==> read is Ok && read->Ok_0@.len() > 0,
        used is Ok ==> used->Ok_0@ == read->Ok_0@,
        read is Ok && read->Ok_0@.len() == 0 ==> used->Err_0@
            == "no certificates found in cert file"@,
        read is Err ==> used->Err_0@ == "invalid cert PEM: "@ + read->Err_0@,
{
}

/// A private key that was read is used as it is; only a file without one is
/// refused, and one that could not be read.
pub proof fn law_any_private_key_is_used(
    read: Result<Option<PrivateKeyDer<'static>>, String>,
    used: Result<PrivateKeyDer<'static>, String>,
)
    requires
        call_ensures(check_key, (read,), used),
    ensures
        used is Ok <==> read is Ok && read->Ok_0 is Some,
        used is Ok ==> read->Ok_0 == Some(used->Ok_0),
        read is Ok && read->Ok_0 is None ==> used->Err_0@ == "no private key found in key file"@,
        read is Err ==> used->Err_0@ == "invalid key PEM: "@ + read->Err_0@,
{
}

/// A server is made whenever the certificate file reads as one certificate or
/// more, the key file holds a private key, and the two belong together. It then
/// presents all of the certificates in their order with that key, offers HTTP/1.1
/// and nothing else, and asks for no client certificate.
pub proof fn law_chain_and_key_make_a_server(
    cert_pem: &[u8],
    key_pem: &[u8],
    made: Result<ServerConfig, String>,
)
    requires
        call_ensures(server_config, (cert_pem, key_pem), made),
    ensures
        made is Ok <==> {
            &&& pem_certs(cert_pem@) is Ok && pem_certs(cert_pem@)->Ok_0.len() > 0
            &&& pem_private_key(key_pem@) is Ok && pem_private_key(key_pem@)->Ok_0 is Some
            &&& identity_error(pem_certs(cert_pem@)->Ok_0, pem_private_key(key_pem@)->Ok_0->0)
                is None
        },
        made matches Ok(config) ==> {
            &&& server_identity(config).0 == pem_certs(cert_pem@)->Ok_0
            &&& server_identity(config).1 == pem_private_key(key_pem@)->Ok_0->0
            &&& alpn_offer(config).len() == 1
            &&& alpn_offer(config)[0].map_values(|b: u8| b as char) == "http/1.1"@
            &&& !asks_for_client_cert(config)
        },
{
    reveal_strlit("http/1.1");
    assert(http_1_1().map_values(|b: u8| b as char) =~= "http/1.1"@);
}

/// Of two files that make no server the first thing wrong is told: with the
/// certificates, then with the key, then with the two together.
pub proof fn law_first_failure_is_told(
    cert_pem: &[u8],
    key_pem: &[u8],
    made: Result<ServerConfig, String>,
)
    requires
        call_ensures(server_config, (cert_pem, key_pem), made),
    ensures
        ({
            let (certs, key) = (pem_certs(cert_pem@), pem_private_key(key_pem@));
            made matches Err(reason) ==> {
                if certs is Err {
                    reason@ == "invalid cert PEM: "@ + certs->Err_0
                } else if certs->Ok_0.len() == 0 {
                    reason@ == "no certificates found in cert file"@
                } else if key is Err {
                    reason@ == "invalid key PEM: "@ + key->Err_0
                } else if key->Ok_0 is None {
                    reason@ == "no private key found in key file"@
                } else {
                    reason@ == "cert/key mismatch: "@ + tls_error_text(
                        identity_error(certs->Ok_0, key->Ok_0->0)->0,
                    )
                }
            }
        }),
{
}

/// Two files that could be read make the server that their contents make; of
/// files that could not, the first is named.
pub proof fn law_files_make_the_server_of_their_contents(
    cert: Vec<u8>,
    key: Vec<u8>,
    error: String,
    other: Result<Vec<u8>, String>,
    cert_pem: &[u8],
    key_pem: &[u8],
    from_files: Result<ServerConfig, String>,
    from_contents: Result<ServerConfig, String>,
    without_cert: Result<ServerConfig, String>,
    without_key: Result<ServerConfig, String>,
)
    requires
        cert_pem@ == cert@,
        key_pem@ == key@,
        call_ensures(tls_config, (Ok(cert), Ok(key)), from_files),
        call_ensures(server_config, (cert_pem, key_pem), from_contents),
        call_ensures(tls_config, (Err(error), other), without_cert),
        call_ensures(tls_config, (Ok(cert), Err(error)), without_key),
    ensures
        from_files is Ok <==> from_contents is Ok,
        from_files matches Ok(config) ==> {
            &&& server_identity(config) == server_identity(from_contents->Ok_0)
            &&& alpn_offer(config) == alpn_offer(from_contents->Ok_0)
            &&& !asks_for_client_cert(config)
        },
        from_files is Err ==> from_files->Err_0@ == from_contents->Err_0@,
        without_cert is Err && without_cert->Err_0@ == "cannot read cert: "@ + error@,
        without_key is Err && without_key->Err_0@ == "cannot read key: "@ + error@,
{
}

} // verus!

use kino_relay::tls::{check_certs, check_key, finish_config, server_config, tls_config};

const CERT: &str = "-----BEGIN CERTIFICATE-----
MIIBCDCBu6ADAgECAgEBMAUGAytlcDAcMRowGAYDVQQDDBFyZWxheS5leGFtcGxl
LmNvbTAgFw0yNDAxMDEwMDAwMDBaGA8yMTI0MDEwMTAwMDAwMFowHDEaMBgGA1UE
AwwRcmVsYXkuZXhhbXBsZS5jb20wKjAFBgMrZXADIQB5tVYuj+ZU+UB4sRLoqYun
kB+FOuaVvtfg45ELrQSWZKMgMB4wHAYDVR0RBBUwE4IRcmVsYXkuZXhhbXBsZS5j
b20wBQYDK2VwA0EAY4sKpMc8P71zjWzxyGUm/zHJBveJGMdtFipmKKA6vjcZ3bZM
KcF9gU0paaa2g4iZuX47Xt4Oqt94Q2mJQUToBA==
-----END CERTIFICATE-----
";

/// The PEM file of a private key.
fn key_pem(base64: &str) -> String {
    let label = format!("{} KEY", "PRIVATE");
    format!("-----BEGIN {}-----\n{}\n-----END {}-----\n", label, base64, label)
}

fn matching_key() -> String {
    key_pem("MC4CAQAwBQYDK2VwBCIEIAECAwQFBgcICQoLDA0ODxAREhMUFRYXGBkaGxwdHh8g")
}

fn other_key() -> String {
    key_pem("MC4CAQAwBQYDK2VwBCIEIGVmZ2hpamtsbW5vcHFyc3R1dnd4eXp7fH1+f4CBgoOE")
}

fn failure(cert: &str, key: &str) -> String {
    match server_config(cert.as_bytes(), key.as_bytes()) {
        Ok(_) => panic!("the files make no server"),
        Err(reason) => reason,
    }
}

#[test]
fn server_offers_http_1_1_only() {
    let config = server_config(CERT.as_bytes(), matching_key().as_bytes()).unwrap();
    assert_eq!(config.alpn_protocols, vec![b"http/1.1".to_vec()]);
}

#[test]
fn server_asks_for_no_client_certificate() {
    let config = server_config(CERT.as_bytes(), matching_key().as_bytes()).unwrap();
    assert!(format!("{:?}", config).contains("verifier: NoClientAuth"));
}

#[test]
fn files_make_a_server() {
    let config =
        tls_config(Ok(CERT.as_bytes().to_vec()), Ok(matching_key().into_bytes())).unwrap();
    assert_eq!(config.alpn_protocols, vec![b"http/1.1".to_vec()]);
}

#[test]
fn unreadable_files_are_named() {
    let cert = || Ok(CERT.as_bytes().to_vec());
    assert_eq!(
        tls_config(Err("gone".to_string()), Err("locked".to_string())).err(),
        Some("cannot read cert: gone".to_string())
    );
    assert_eq!(
        tls_config(cert(), Err("locked".to_string())).err(),
        Some("cannot read key: locked".to_string())
    );
}

#[test]
fn files_without_certificate_or_key_are_named() {
    assert_eq!(failure("", &matching_key()), "no certificates found in cert file");
    assert_eq!(failure(&matching_key(), &matching_key()), "no certificates found in cert file");
    assert_eq!(failure(CERT, ""), "no private key found in key file");
    assert_eq!(failure(CERT, CERT), "no private key found in key file");
    assert_eq!(failure("", ""), "no certificates found in cert file");
}

#[test]
fn broken_pem_is_named() {
    let broken = "-----BEGIN CERTIFICATE-----\n!!!!\n-----END CERTIFICATE-----\n";
    assert!(failure(broken, &matching_key()).starts_with("invalid cert PEM: "));
    assert!(failure(CERT, &key_pem("!!!!")).starts_with("invalid key PEM: "));
}

#[test]
fn key_of_another_certificate_is_refused() {
    assert!(failure(CERT, &other_key()).starts_with("cert/key mismatch: "));
}

#[test]
fn results_of_reading_are_checked() {
    let odd = || "odd".to_string();
    assert_eq!(check_certs(Ok(Vec::new())).err(), Some("no certificates found in cert file".to_string()));
    assert_eq!(check_certs(Err(odd())).err(), Some("invalid cert PEM: odd".to_string()));
    assert_eq!(check_key(Ok(None)).err(), Some("no private key found in key file".to_string()));
    assert_eq!(check_key(Err(odd())).err(), Some("invalid key PEM: odd".to_string()));
    let error = rustls::Error::NoCertificatesPresented;
    assert_eq!(
        finish_config(Err(error.clone())).err(),
        Some(format!("cert/key mismatch: {}", error))
    );
}

use axum::http::header::{HeaderName, HeaderValue, AUTHORIZATION};
use axum::http::HeaderMap;
use jsonwebtoken::{Algorithm, DecodingKey, EncodingKey, Header};
use kino_relay::auth::{
    authorize, authorize_endpoint, decide, AuthConfig, Endpoint, Role, Unauthorized,
};
use kino_relay::headers::{bearer_token, read_bearer};
use kino_relay::jwt::{accept_claims, accept_key, load_key, verify_token, Claims};

const PUBLIC_A: &str = "-----BEGIN PUBLIC KEY-----\nMCowBQYDK2VwAyEAebVWLo/mVPlAeLES6KmLp5AfhTrmlb7X4OORC60ElmQ=\n-----END PUBLIC KEY-----\n";
const PUBLIC_B: &str = "-----BEGIN PUBLIC KEY-----\nMCowBQYDK2VwAyEA2inpWwLgD/oVZFd1+x0roiKhlDOV7qBrlOLAV7e+adA=\n-----END PUBLIC KEY-----\n";

/// The signing key whose seed counts up from `first`.
fn signing_key(first: u8) -> EncodingKey {
    let mut der = vec![48, 46, 2, 1, 0, 48, 5, 6, 3, 43, 101, 112, 4, 34, 4, 32];
    for i in 0..32u8 {
        der.push(first + i);
    }
    EncodingKey::from_ed_der(&der)
}

fn token_of(claims: &str, first: u8) -> String {
    let claims: serde_json::Value = serde_json::from_str(claims).unwrap();
    jsonwebtoken::encode(&Header::new(Algorithm::EdDSA), &claims, &signing_key(first)).unwrap()
}

fn base64url(bytes: &[u8]) -> String {
    let alphabet = b"ABCDEFGHIJKLMNOPQRSTUVWXYZabcdefghijklmnopqrstuvwxyz0123456789-_";
    let mut text = String::new();
    for group in bytes.chunks(3) {
        let mut bits = 0usize;
        for i in 0..3 {
            bits = bits * 256 + *group.get(i).unwrap_or(&0) as usize;
        }
        for i in 0..group.len() + 1 {
            text.push(alphabet[bits >> (18 - 6 * i) & 63] as char);
        }
    }
    text
}

/// A token with any bytes for its claims.
fn signed(claims: &[u8]) -> String {
    let message = format!("{}.{}", base64url(br#"{"typ":"JWT","alg":"EdDSA"}"#), base64url(claims));
    let signature =
        jsonwebtoken::crypto::sign(message.as_bytes(), &signing_key(1), Algorithm::EdDSA).unwrap();
    format!("{}.{}", message, signature)
}

fn key_a() -> DecodingKey {
    match load_key(PUBLIC_A.as_bytes()) {
        Ok(key) => key,
        Err(_) => panic!("the key is an Ed25519 public key"),
    }
}

fn with_authorization(value: &[u8]) -> HeaderMap {
    let mut headers = HeaderMap::new();
    headers.insert(AUTHORIZATION, HeaderValue::from_bytes(value).unwrap());
    headers
}

fn with_bearer(token: &str) -> HeaderMap {
    with_authorization(format!("Bearer {}", token).as_bytes())
}

fn open() -> AuthConfig {
    AuthConfig { static_token: None, jwt_key: None }
}

fn static_only() -> AuthConfig {
    AuthConfig { static_token: Some("s3cret".to_string()), jwt_key: None }
}

fn jwt_only() -> AuthConfig {
    AuthConfig { static_token: None, jwt_key: Some(key_a()) }
}

fn both() -> AuthConfig {
    AuthConfig { static_token: Some("s3cret".to_string()), jwt_key: Some(key_a()) }
}

fn claims(sub: &str, agent_id: &str) -> Claims {
    Claims { sub: sub.to_string(), agent_id: agent_id.to_string(), exp: 4102444800 }
}

#[test]
fn role_names() {
    assert_eq!(Role::Agent.as_str(), "agent");
    assert_eq!(Role::Manager.as_str(), "manager");
}

#[test]
fn refusal_is_401() {
    assert_eq!(Unauthorized.status(), 401);
}

#[test]
fn open_relay_admits_without_header() {
    assert!(authorize(&open(), &HeaderMap::new(), Role::Agent, Some("h1")).is_ok());
    assert!(authorize(&open(), &HeaderMap::new(), Role::Manager, None).is_ok());
}

#[test]
fn configured_relay_refuses_without_header() {
    for auth in [static_only(), jwt_only(), both()] {
        assert_eq!(
            authorize(&auth, &HeaderMap::new(), Role::Agent, Some("h1")),
            Err(Unauthorized)
        );
    }
}

#[test]
fn static_token_admits_in_every_role() {
    let headers = with_bearer("s3cret");
    for auth in [static_only(), both()] {
        assert!(authorize(&auth, &headers, Role::Agent, Some("h1")).is_ok());
        assert!(authorize(&auth, &headers, Role::Manager, Some("h2")).is_ok());
        assert!(authorize(&auth, &headers, Role::Agent, None).is_ok());
    }
}

#[test]
fn wrong_static_token_is_refused() {
    for token in ["s3cres", "s3cre", "s3cret1", "", "S3CRET", " s3cret"] {
        assert_eq!(
            authorize(&static_only(), &with_bearer(token), Role::Agent, Some("h1")),
            Err(Unauthorized)
        );
    }
}

#[test]
fn bearer_scheme_is_wanted() {
    for value in ["s3cret", "bearer s3cret", "Basic s3cret", "Bearer", "Bearers3cret"] {
        assert_eq!(
            authorize(&static_only(), &with_authorization(value.as_bytes()), Role::Agent, None),
            Err(Unauthorized)
        );
    }
}

#[test]
fn bearer_is_read_from_text() {
    assert_eq!(read_bearer("Bearer abc"), Some("abc"));
    assert_eq!(read_bearer("Bearer "), Some(""));
    assert_eq!(read_bearer("Bearer  abc"), Some(" abc"));
    assert_eq!(read_bearer("Bearer"), None);
    assert_eq!(read_bearer("bearer abc"), None);
}

#[test]
fn first_authorization_field_counts() {
    let mut headers = with_bearer("first");
    headers.append(AUTHORIZATION, HeaderValue::from_static("Bearer second"));
    headers.insert(HeaderName::from_static("x-other"), HeaderValue::from_static("Bearer third"));
    assert_eq!(bearer_token(&headers), Some("first"));
    assert_eq!(bearer_token(&HeaderMap::new()), None);
}

#[test]
fn header_that_is_not_visible_ascii_is_no_text() {
    assert_eq!(bearer_token(&with_authorization(b"Bearer ab\xffcd")), None);
    assert_eq!(bearer_token(&with_authorization(b"Bearer a\tb~ ")), Some("a\tb~ "));
}

#[test]
fn signed_token_admits_in_its_role_and_scope() {
    let token = token_of(r#"{"sub":"agent","agent_id":"h1","exp":4102444800}"#, 1);
    let headers = with_bearer(&token);
    for auth in [jwt_only(), both()] {
        assert!(authorize(&auth, &headers, Role::Agent, Some("h1")).is_ok());
        assert!(authorize(&auth, &headers, Role::Agent, None).is_ok());
        assert_eq!(authorize(&auth, &headers, Role::Agent, Some("h2")), Err(Unauthorized));
        assert_eq!(authorize(&auth, &headers, Role::Manager, Some("h1")), Err(Unauthorized));
    }
    assert_eq!(authorize(&static_only(), &headers, Role::Agent, Some("h1")), Err(Unauthorized));
}

#[test]
fn wildcard_token_admits_for_every_agent() {
    let token = token_of(r#"{"sub":"manager","agent_id":"*","exp":4102444800}"#, 1);
    let headers = with_bearer(&token);
    assert!(authorize(&jwt_only(), &headers, Role::Manager, Some("h1")).is_ok());
    assert!(authorize(&jwt_only(), &headers, Role::Manager, Some("h2")).is_ok());
    assert_eq!(authorize(&jwt_only(), &headers, Role::Agent, Some("h1")), Err(Unauthorized));
}

#[test]
fn manager_token_for_one_host_is_confined() {
    let token = token_of(r#"{"sub":"manager","agent_id":"a","exp":4102444800}"#, 1);
    let headers = with_bearer(&token);
    let auth = jwt_only();
    assert!(authorize_endpoint(&auth, &headers, Endpoint::ManagerRequest { agent_id: "a" }).is_ok());
    assert_eq!(
        authorize_endpoint(&auth, &headers, Endpoint::ManagerRequest { agent_id: "b" }),
        Err(Unauthorized)
    );
    assert_eq!(
        authorize_endpoint(&auth, &headers, Endpoint::Control { agent_id: "a" }),
        Err(Unauthorized)
    );
    assert_eq!(authorize_endpoint(&auth, &headers, Endpoint::AgentData), Err(Unauthorized));
}

#[test]
fn endpoints_want_their_role_and_agent() {
    let control = Endpoint::Control { agent_id: "a" };
    assert_eq!((control.role(), control.required_agent_id()), (Role::Agent, Some("a")));
    let manager = Endpoint::ManagerRequest { agent_id: "b" };
    assert_eq!((manager.role(), manager.required_agent_id()), (Role::Manager, Some("b")));
    assert_eq!(
        (Endpoint::AgentData.role(), Endpoint::AgentData.required_agent_id()),
        (Role::Agent, None)
    );
}

#[test]
fn agent_token_opens_the_data_endpoint_for_any_session() {
    let token = token_of(r#"{"sub":"agent","agent_id":"a","exp":4102444800}"#, 1);
    assert!(authorize_endpoint(&jwt_only(), &with_bearer(&token), Endpoint::AgentData).is_ok());
}

#[test]
fn token_of_another_key_is_refused() {
    let token = token_of(r#"{"sub":"agent","agent_id":"h1","exp":4102444800}"#, 101);
    assert_eq!(
        authorize(&jwt_only(), &with_bearer(&token), Role::Agent, Some("h1")),
        Err(Unauthorized)
    );
    match load_key(PUBLIC_B.as_bytes()) {
        Ok(key) => assert!(verify_token(&token, &key).is_some()),
        Err(_) => panic!("the key is an Ed25519 public key"),
    }
}

#[test]
fn token_of_another_algorithm_is_refused() {
    let claims: serde_json::Value =
        serde_json::from_str(r#"{"sub":"agent","agent_id":"h1","exp":4102444800}"#).unwrap();
    let token = jsonwebtoken::encode(
        &Header::new(Algorithm::HS256),
        &claims,
        &EncodingKey::from_secret(PUBLIC_A.as_bytes()),
    )
    .unwrap();
    assert!(verify_token(&token, &key_a()).is_none());
}

#[test]
fn expired_token_is_refused() {
    let token = token_of(r#"{"sub":"agent","agent_id":"h1","exp":1000000000}"#, 1);
    assert!(verify_token(&token, &key_a()).is_none());
}

#[test]
fn altered_token_is_refused() {
    let token = token_of(r#"{"sub":"agent","agent_id":"h1","exp":4102444800}"#, 1);
    let other = token_of(r#"{"sub":"agent","agent_id":"h2","exp":4102444800}"#, 1);
    let parts: Vec<&str> = token.split('.').collect();
    let others: Vec<&str> = other.split('.').collect();
    let forged = format!("{}.{}.{}", parts[0], others[1], parts[2]);
    assert!(verify_token(&forged, &key_a()).is_none());
    assert!(verify_token("no token", &key_a()).is_none());
}

#[test]
fn verified_claims_are_those_of_the_token() {
    let token = token_of(r#"{"sub":"agent","agent_id":"h1","exp":4102444800,"x":[1]}"#, 1);
    let claims = verify_token(&token, &key_a()).unwrap();
    assert_eq!(claims.sub, "agent");
    assert_eq!(claims.agent_id, "h1");
    assert_eq!(claims.exp, 4102444800);
}

#[test]
fn token_with_an_audience_is_refused() {
    let token = token_of(r#"{"sub":"agent","agent_id":"h1","exp":4102444800,"aud":"x"}"#, 1);
    assert!(verify_token(&token, &key_a()).is_none());
}

#[test]
fn claims_are_read_from_json() {
    let read = |text: &str| Claims::from_json(text.as_bytes());
    let claims = read(r#"{"exp":7,"agent_id":"*","sub":"manager"}"#).unwrap();
    assert_eq!((claims.sub.as_str(), claims.agent_id.as_str(), claims.exp), ("manager", "*", 7));
    assert!(read(r#"{"sub":"a","agent_id":"b"}"#).is_none());
    assert!(read(r#"{"sub":"a","exp":1}"#).is_none());
    assert!(read(r#"{"agent_id":"a","exp":1}"#).is_none());
    assert!(read(r#"{"sub":1,"agent_id":"b","exp":1}"#).is_none());
    assert!(read(r#"{"sub":"a","agent_id":null,"exp":1}"#).is_none());
    assert!(read(r#"{"sub":"a","agent_id":"b","exp":-1}"#).is_none());
    assert!(read(r#"{"sub":"a","agent_id":"b","exp":1.5}"#).is_none());
    assert!(read(r#"{"sub":"a","agent_id":"b","exp":"1"}"#).is_none());
    assert!(read(r#"["a","b",1]"#).is_none());
    assert!(read(r#"{"sub":"a","agent_id":"b","exp":18446744073709551615}"#).is_some());
}

#[test]
fn decisions_on_given_claims() {
    let auth = both();
    let agent = claims("agent", "h1");
    assert!(decide(&auth, Some("t"), Some(&agent), Role::Agent, Some("h1")).is_ok());
    assert!(decide(&auth, Some("t"), Some(&agent), Role::Agent, Some("h2")).is_err());
    assert!(decide(&auth, Some("t"), Some(&agent), Role::Manager, Some("h1")).is_err());
    assert!(decide(&auth, None, Some(&agent), Role::Agent, Some("h1")).is_err());
    assert!(decide(&auth, Some("t"), None, Role::Agent, Some("h1")).is_err());
    assert!(decide(&auth, Some("s3cret"), None, Role::Agent, Some("h1")).is_ok());
    assert!(decide(&static_only(), Some("t"), Some(&agent), Role::Agent, None).is_err());
    assert!(decide(&open(), None, None, Role::Agent, Some("h1")).is_ok());
}

#[test]
fn claims_allow_by_role_and_scope() {
    assert!(claims("agent", "h1").allow(Role::Agent, Some("h1")));
    assert!(claims("agent", "*").allow(Role::Agent, Some("h1")));
    assert!(claims("agent", "h1").allow(Role::Agent, None));
    assert!(!claims("agent", "h1").allow(Role::Agent, Some("h11")));
    assert!(!claims("Agent", "h1").allow(Role::Agent, Some("h1")));
    assert!(!claims("manager", "h1").allow(Role::Agent, None));
}

#[test]
fn installed_key_is_enforced_at_once() {
    let mut auth = open();
    let token = token_of(r#"{"sub":"agent","agent_id":"h1","exp":4102444800}"#, 1);
    assert!(authorize(&auth, &HeaderMap::new(), Role::Agent, Some("h1")).is_ok());
    auth.install_key(key_a());
    assert_eq!(authorize(&auth, &HeaderMap::new(), Role::Agent, Some("h1")), Err(Unauthorized));
    assert!(authorize(&auth, &with_bearer(&token), Role::Agent, Some("h1")).is_ok());
}

#[test]
fn file_that_holds_no_key_is_named() {
    let reason = match load_key(b"no pem") {
        Ok(_) => panic!("there is no key"),
        Err(error) => error.reason,
    };
    assert_eq!(reason, DecodingKey::from_ed_pem(b"no pem").err().unwrap().to_string());
    assert!(!reason.is_empty());
    assert!(accept_key(Ok(key_a())).is_ok());
}

#[test]
fn outcome_of_verification_is_read() {
    let token = token_of(r#"{"sub":"agent","agent_id":"h1","exp":9}"#, 1);
    let claims = accept_claims(Ok(()), &token).unwrap();
    assert_eq!((claims.sub.as_str(), claims.agent_id.as_str(), claims.exp), ("agent", "h1", 9));
    assert!(accept_claims(Ok(()), &token_of(r#"{"sub":"agent","exp":9}"#, 1)).is_none());
    let refused = || Err(DecodingKey::from_ed_pem(b"no pem").err().unwrap());
    assert!(accept_claims(refused(), &token).is_none());
}

#[test]
fn claims_stand_between_the_last_two_dots() {
    let part = base64url(br#"{"sub":"a","agent_id":"b","exp":1}"#);
    assert!(Claims::from_token(&format!("x.{}.y", part)).is_some());
    assert!(Claims::from_token(&format!(".{}.", part)).is_some());
    assert!(Claims::from_token(&format!("w.x.{}.y", part)).is_some());
    assert!(Claims::from_token(&format!("{}.y", part)).is_none());
    assert!(Claims::from_token(&part).is_none());
    assert!(Claims::from_token(&format!("x.{}=.y", part)).is_none());
    assert!(Claims::from_token("").is_none());
}

#[test]
fn repeated_claim_is_refused() {
    let verified = |claims: &[u8]| verify_token(&signed(claims), &key_a());
    assert!(verified(br#"{"sub":"agent","agent_id":"h1","exp":4102444800}"#).is_some());
    assert!(verified(br#"{"sub":"agent","agent_id":"h1","agent_id":"h1","exp":4102444800}"#)
        .is_none());
    assert!(verified(br#"{"agent_id":"*","sub":"agent","exp":4102444800,"agent\u005fid":"h1"}"#)
        .is_none());
    assert!(verified(br#"{"sub":"agent","sub":"agent","agent_id":"h1","exp":4102444800}"#)
        .is_none());
    assert!(verified(br#"{"sub":"agent","agent_id":"h1","exp":4102444800,"exp":4102444800}"#)
        .is_none());
    let read = |claims: &[u8]| Claims::from_json(claims);
    assert!(read(br#"{"sub":"a","sub":"a","agent_id":"b","exp":1}"#).is_none());
    assert!(read(br#"{"sub":"a","agent_id":"b","agent_id":"c","exp":1}"#).is_none());
    assert!(read(br#"{"sub":"a","agent_id":"b","exp":1,"exp":1}"#).is_none());
    assert!(read(br#"{"sub":"a","agent_id":"b","exp":1,"x":1,"x":2}"#).is_some());
}

#[test]
fn unknown_claims_may_hold_anything() {
    let with = |value: &[u8]| {
        let mut claims = br#"{"sub":"agent","x":"#.to_vec();
        claims.extend_from_slice(value);
        claims.extend_from_slice(br#","agent_id":"h1","exp":4102444800}"#);
        verify_token(&signed(&claims), &key_a())
    };
    let mut deep = vec![b'['; 1000];
    deep.extend(vec![b']'; 1000]);
    let held: [&[u8]; 7] =
        [b"null", b"1e999", b"-5", br#""\ud800""#, b"\"\xff\"", br#"{"exp":[1,"}"]}"#, &deep];
    for value in held {
        let claims = with(value).unwrap();
        assert_eq!((claims.sub.as_str(), claims.agent_id.as_str()), ("agent", "h1"));
    }
    assert!(with(b"[1,]").is_none());
    assert!(with(b"").is_none());
}

#[test]
fn claims_are_read_from_well_formed_objects_only() {
    let read = |text: &str| Claims::from_json(text.as_bytes());
    let spaced = read(" {\t\"sub\" :\n\"\\u0061\" , \"agent_id\":\"b\\\"\",\r\"exp\": 1 } ").unwrap();
    assert_eq!((spaced.sub.as_str(), spaced.agent_id.as_str(), spaced.exp), ("a", "b\"", 1));
    assert!(read("").is_none());
    assert!(read("{}").is_none());
    assert!(read("{} x").is_none());
    assert!(read(r#"{"sub":"a","agent_id":"b","exp":1"#).is_none());
    assert!(read(r#"{"sub":"a","agent_id":"b","exp":1,}"#).is_none());
    assert!(read(r#"{"sub":"a","agent_id":"b","exp":1}}"#).is_none());
    assert!(read(r#"{"sub":"a","agent_id":"b";"exp":1}"#).is_none());
    assert!(read(r#"{"sub":"a","agent_id"="b","exp":1}"#).is_none());
    assert!(read(r#"{"sub":"a","agent_id":"b","exp":1 2}"#).is_none());
    assert!(read(r#"{sub:"a","agent_id":"b","exp":1}"#).is_none());
    assert!(read(r#"{"sub":"a","agent_id":"b","exp":18446744073709551616}"#).is_none());
}

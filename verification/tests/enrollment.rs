use kino_relay::auth::AuthConfig;
use kino_relay::enroll::{
    enroll_result, DialogReply, EnrollAttempt, EnrollDialog, EnrollPlan, EnrollReply, EnrollRun,
    EnrollStep, ENROLL_ATTEMPTS, ENROLL_DELAY_SECS, ENROLL_RETRY_SECS, ENROLL_TIMEOUT_SECS,
};
use kino_relay::jwt::{load_key, KeyError};
use kino_relay::startup::{
    auth_status, choose_enrollment, health_answer, non_empty_setting, AuthStatus, Enrollment,
    JwtStatus, KeySource, Settings,
};

const PUBLIC_A: &str = "-----BEGIN PUBLIC KEY-----\nMCowBQYDK2VwAyEAebVWLo/mVPlAeLES6KmLp5AfhTrmlb7X4OORC60ElmQ=\n-----END PUBLIC KEY-----\n";

fn plan(control_url: &str, name: Option<&str>) -> EnrollPlan {
    EnrollPlan {
        control_url: control_url.to_string(),
        code: "c\"1".to_string(),
        public_url: "wss://relay.example.com".to_string(),
        name: name.map(|n| n.to_string()),
        key_out: "control.pub.pem".to_string(),
    }
}

#[test]
fn enrollment_url() {
    for url in ["https://c.example", "https://c.example/", "https://c.example///"] {
        assert_eq!(plan(url, None).enroll_url(), "https://c.example/api/relays/enroll");
    }
    assert_eq!(plan("/", None).enroll_url(), "/api/relays/enroll");
    assert_eq!(plan("https://c/x/", None).enroll_url(), "https://c/x/api/relays/enroll");
}

#[test]
fn enrollment_body() {
    assert_eq!(
        plan("u", None).enroll_body(),
        r#"{"code":"c\"1","name":null,"url":"wss://relay.example.com"}"#
    );
    assert_eq!(
        plan("u", Some("eu-1")).enroll_body(),
        r#"{"code":"c\"1","name":"eu-1","url":"wss://relay.example.com"}"#
    );
}

#[test]
fn enrollment_answers() {
    let answer = |text: &str| enroll_result(EnrollReply::Answer(serde_json::from_str(text).unwrap()));
    assert_eq!(answer(r#"{"public_key":"PEM","x":1}"#), Ok("PEM".to_string()));
    let none = Err("enrollment response had no public_key".to_string());
    assert_eq!(answer("{}"), none);
    assert_eq!(answer(r#"{"public_key":5}"#), none);
    assert_eq!(answer(r#"["public_key"]"#), none);
    assert_eq!(answer("null"), none);
}

#[test]
fn enrollment_failures() {
    assert_eq!(
        enroll_result(EnrollReply::Rejected { status: 403, body: "bad code".to_string() }),
        Err("kino-control rejected enrollment (HTTP 403): bad code".to_string())
    );
    assert_eq!(
        enroll_result(EnrollReply::Rejected { status: 65535, body: String::new() }),
        Err("kino-control rejected enrollment (HTTP 65535): ".to_string())
    );
    assert_eq!(
        enroll_result(EnrollReply::Unreachable { error: "timed out".to_string() }),
        Err("cannot reach kino-control: timed out".to_string())
    );
    assert_eq!(
        enroll_result(EnrollReply::Unreadable { error: "eof".to_string() }),
        Err("bad enrollment response: eof".to_string())
    );
}

fn run_dialog(lines: &[&str]) -> DialogReply {
    let mut dialog = EnrollDialog::start(true, "k.pem").unwrap();
    let mut last = DialogReply::NotAsked;
    for line in lines {
        last = dialog.answer(line);
    }
    last
}

#[test]
fn no_dialog_without_a_terminal() {
    assert!(EnrollDialog::start(false, "k.pem").is_none());
}

#[test]
fn dialog_asks_its_questions() {
    let mut dialog = EnrollDialog::start(true, "k.pem").unwrap();
    assert_eq!(dialog.question(), "Enroll this relay with a kino-control instance? [y/N] ");
    assert!(matches!(dialog.answer("y\n"), DialogReply::Ask));
    assert_eq!(dialog.question(), "kino-control URL [https://kino.samarthkombemane.com]: ");
    assert!(matches!(dialog.answer("\n"), DialogReply::Ask));
    assert_eq!(dialog.question(), "One-time enrollment code (from the kino-control web UI): ");
    assert!(matches!(dialog.answer("c\n"), DialogReply::Ask));
    assert_eq!(dialog.question(), "This relay's public URL (e.g. wss://relay.example.com): ");
    assert!(matches!(dialog.answer("u\n"), DialogReply::Ask));
    assert_eq!(dialog.question(), "Relay name (optional): ");
    assert!(matches!(dialog.answer("\n"), DialogReply::Planned(_)));
    assert_eq!(dialog.question(), "");
    assert!(matches!(dialog.answer("y"), DialogReply::NotAsked));
}

#[test]
fn dialog_makes_a_plan() {
    match run_dialog(&[" YeS \n", " https://c \r\n", "\tcode\n", "wss://r\n", " eu 1 \u{3000}\n"]) {
        DialogReply::Planned(plan) => {
            assert_eq!(plan.control_url, "https://c");
            assert_eq!(plan.code, "code");
            assert_eq!(plan.public_url, "wss://r");
            assert_eq!(plan.name, Some("eu 1".to_string()));
            assert_eq!(plan.key_out, "k.pem");
        }
        _ => panic!("the answers make a plan"),
    }
}

#[test]
fn dialog_fills_in_defaults() {
    match run_dialog(&["Y", "", "code", "wss://r", "   "]) {
        DialogReply::Planned(plan) => {
            assert_eq!(plan.control_url, "https://kino.samarthkombemane.com");
            assert_eq!(plan.name, None);
        }
        _ => panic!("the answers make a plan"),
    }
}

#[test]
fn dialog_wants_a_code_and_a_url() {
    assert!(matches!(run_dialog(&["y", "", "", "wss://r", ""]), DialogReply::Incomplete));
    assert!(matches!(run_dialog(&["y", "", "code", " ", ""]), DialogReply::Incomplete));
}

#[test]
fn dialog_is_declined_by_default() {
    for answer in ["", "\n", "n", "no", "yess", "ye", "j"] {
        assert!(matches!(run_dialog(&[answer]), DialogReply::Declined));
    }
}

fn failed() -> Result<String, String> {
    Err("unreachable".to_string())
}

#[test]
fn enrollment_is_tried_five_times() {
    let mut run = EnrollRun::start();
    for attempt in 1..5u32 {
        assert_eq!(run.attempt(), attempt);
        match run.on_result(failed()) {
            EnrollStep::Retry { reason, pause_secs } => {
                assert_eq!(reason, "unreachable");
                assert_eq!(pause_secs, 3);
            }
            _ => panic!("another attempt follows"),
        }
    }
    assert_eq!(run.attempt(), 5);
    match run.on_result(failed()) {
        EnrollStep::Exhausted { reason, pause_secs } => {
            assert_eq!(reason, "unreachable");
            assert_eq!(pause_secs, 3);
        }
        _ => panic!("no attempt is left"),
    }
    assert!(matches!(run.on_result(failed()), EnrollStep::NotTrying));
    assert!(matches!(run.on_result(Ok(PUBLIC_A.to_string())), EnrollStep::NotTrying));
}

#[test]
fn enrollment_installs_the_received_key() {
    let mut run = EnrollRun::start();
    assert!(matches!(run.on_result(failed()), EnrollStep::Retry { .. }));
    match run.on_result(Ok(PUBLIC_A.to_string())) {
        EnrollStep::Install { pem, .. } => assert_eq!(pem, PUBLIC_A),
        _ => panic!("the key is installed"),
    }
    assert!(matches!(run.on_result(failed()), EnrollStep::NotTrying));
}

#[test]
fn enrollment_stops_at_a_bad_key() {
    let mut run = EnrollRun::start();
    match run.on_result(Ok("no key".to_string())) {
        EnrollStep::BadKey { reason } => assert!(!reason.is_empty()),
        _ => panic!("the key is refused"),
    }
    assert!(matches!(run.on_result(failed()), EnrollStep::NotTrying));
}

#[test]
fn attempts_are_settled() {
    let key = match load_key(PUBLIC_A.as_bytes()) {
        Ok(key) => key,
        Err(_) => panic!("the key is an Ed25519 public key"),
    };
    let answered = EnrollAttempt::Answered { pem: "P".to_string(), key: Ok(key) };
    match EnrollRun::start().settle(answered) {
        EnrollStep::Install { pem, .. } => assert_eq!(pem, "P"),
        _ => panic!("the key is installed"),
    }
    let refused = EnrollAttempt::Answered {
        pem: "P".to_string(),
        key: Err(KeyError { reason: "why".to_string() }),
    };
    match EnrollRun::start().settle(refused) {
        EnrollStep::BadKey { reason } => assert_eq!(reason, "why"),
        _ => panic!("the key is refused"),
    }
}

#[test]
fn enrollment_limits() {
    assert_eq!(ENROLL_ATTEMPTS, 5);
    assert_eq!(ENROLL_DELAY_SECS, 1);
    assert_eq!(ENROLL_RETRY_SECS, 3);
    assert_eq!(ENROLL_TIMEOUT_SECS, 10);
}

fn settings() -> Settings {
    Settings {
        relay_token: None,
        relay_jwt_public_key: None,
        kino_control_url: None,
        kino_enroll_code: None,
        relay_public_url: None,
        relay_name: None,
        bind: None,
        port: None,
        tls_cert: None,
        tls_key: None,
    }
}

fn some(text: &str) -> Option<String> {
    Some(text.to_string())
}

fn enrolling() -> Settings {
    Settings {
        kino_control_url: some("https://c"),
        kino_enroll_code: some("code"),
        relay_public_url: some("wss://r"),
        ..settings()
    }
}

#[test]
fn empty_setting_is_unset() {
    assert_eq!(non_empty_setting(&some("x")), some("x"));
    assert_eq!(non_empty_setting(&some("")), None);
    assert_eq!(non_empty_setting(&None), None);
    assert_eq!(Settings { relay_token: some(""), ..settings() }.static_token(), None);
    assert_eq!(Settings { relay_token: some("t"), ..settings() }.static_token(), some("t"));
}

#[test]
fn settings_make_a_plan() {
    let plan = Settings { relay_name: some("eu-1"), ..enrolling() }.enroll_plan().unwrap();
    assert_eq!(plan.control_url, "https://c");
    assert_eq!(plan.code, "code");
    assert_eq!(plan.public_url, "wss://r");
    assert_eq!(plan.name, some("eu-1"));
    assert_eq!(plan.key_out, "control.pub.pem");
    let named = Settings { relay_jwt_public_key: some("k.pem"), ..enrolling() };
    assert_eq!(named.enroll_plan().unwrap().key_out, "k.pem");
    assert_eq!(named.enroll_plan().unwrap().name, None);
}

#[test]
fn plan_wants_all_three_settings() {
    assert!(Settings { kino_control_url: None, ..enrolling() }.enroll_plan().is_none());
    assert!(Settings { kino_enroll_code: some(""), ..enrolling() }.enroll_plan().is_none());
    assert!(Settings { relay_public_url: None, ..enrolling() }.enroll_plan().is_none());
}

fn source(settings: &Settings, exists: bool) -> String {
    match settings.key_source(exists) {
        KeySource::Load(path) => format!("load {}", path),
        KeySource::Missing(path) => format!("missing {}", path),
        KeySource::Absent => "absent".to_string(),
    }
}

#[test]
fn key_file_is_loaded_where_it_exists() {
    let named = Settings { relay_jwt_public_key: some("k.pem"), ..settings() };
    assert_eq!(named.key_path(), "k.pem");
    assert_eq!(source(&named, true), "load k.pem");
    assert_eq!(source(&named, false), "missing k.pem");
    let named = Settings { relay_jwt_public_key: some("k.pem"), ..enrolling() };
    assert_eq!(source(&named, true), "load k.pem");
    assert_eq!(source(&named, false), "absent");
    assert_eq!(source(&settings(), false), "absent");
    let empty = Settings { relay_jwt_public_key: some(""), ..settings() };
    assert_eq!(empty.key_path(), "control.pub.pem");
    assert_eq!(source(&empty, false), "absent");
}

#[test]
fn restart_after_enrollment_loads_the_saved_key() {
    let plan = enrolling().enroll_plan().unwrap();
    assert_eq!(source(&enrolling(), true), format!("load {}", plan.key_out));
    assert_eq!(source(&settings(), true), "load control.pub.pem");
    let auth = AuthConfig { static_token: None, jwt_key: key() };
    assert!(matches!(
        choose_enrollment(&auth, enrolling().enroll_plan()),
        Enrollment::AlreadyEnrolled { planned: true }
    ));
    assert!(matches!(
        choose_enrollment(&auth, None),
        Enrollment::AlreadyEnrolled { planned: false }
    ));
}

fn key() -> Option<jsonwebtoken::DecodingKey> {
    load_key(PUBLIC_A.as_bytes()).ok()
}

#[test]
fn enrollment_without_a_key() {
    let open = AuthConfig { static_token: None, jwt_key: None };
    let shared = AuthConfig { static_token: some("t"), jwt_key: None };
    for auth in [&open, &shared] {
        match choose_enrollment(auth, enrolling().enroll_plan()) {
            Enrollment::Run(plan) => assert_eq!(plan.code, "code"),
            _ => panic!("the plan is run"),
        }
    }
    assert!(matches!(choose_enrollment(&open, None), Enrollment::Ask));
    assert!(matches!(choose_enrollment(&shared, None), Enrollment::NotWanted));
}

#[test]
fn auth_is_reported() {
    let open = AuthConfig { static_token: None, jwt_key: None };
    assert_eq!(auth_status(&open, false), AuthStatus::Disabled);
    assert_eq!(
        auth_status(&open, true),
        AuthStatus::Enabled { static_token: false, jwt: JwtStatus::Enrolling }
    );
    let shared = AuthConfig { static_token: some("t"), jwt_key: None };
    assert_eq!(
        auth_status(&shared, false),
        AuthStatus::Enabled { static_token: true, jwt: JwtStatus::Off }
    );
    let keyed = AuthConfig { static_token: None, jwt_key: key() };
    assert_eq!(
        auth_status(&keyed, false),
        AuthStatus::Enabled { static_token: false, jwt: JwtStatus::Active }
    );
}

#[test]
fn listen_address() {
    assert_eq!(settings().bind_address(), "0.0.0.0:3000");
    assert_eq!(Settings { port: some("443"), ..settings() }.bind_address(), "0.0.0.0:443");
    let bound = Settings { bind: some("127.0.0.1:1"), port: some("443"), ..settings() };
    assert_eq!(bound.bind_address(), "127.0.0.1:1");
    assert_eq!(Settings { port: some(""), ..settings() }.bind_address(), "0.0.0.0:");
}

#[test]
fn tls_needs_both_files() {
    assert_eq!(settings().tls_files(), None);
    assert_eq!(Settings { tls_cert: some("c"), ..settings() }.tls_files(), None);
    assert_eq!(Settings { tls_key: some("k"), ..settings() }.tls_files(), None);
    let both = Settings { tls_cert: some("c"), tls_key: some("k"), ..settings() };
    assert_eq!(both.tls_files(), Some(("c".to_string(), "k".to_string())));
}

#[test]
fn health_is_ok() {
    assert_eq!(health_answer(), "ok");
}

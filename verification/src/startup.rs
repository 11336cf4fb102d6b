//! What the relay makes of its settings when it starts.

use crate::auth::AuthConfig;
use crate::enroll::EnrollPlan;
use vstd::prelude::*;
use vstd::string::StringExecFns;

verus! {

/// The settings of a relay, each as the environment gives it.
pub struct Settings {
    /// `RELAY_TOKEN`: the static token.
    pub relay_token: Option<String>,
    /// `RELAY_JWT_PUBLIC_KEY`: the file of the control plane's public key.
    pub relay_jwt_public_key: Option<String>,
    /// `KINO_CONTROL_URL`: the control plane to enroll with.
    pub kino_control_url: Option<String>,
    /// `KINO_ENROLL_CODE`: the one-time code to enroll with.
    pub kino_enroll_code: Option<String>,
    /// `RELAY_PUBLIC_URL`: where the relay is reached.
    pub relay_public_url: Option<String>,
    /// `RELAY_NAME`: how the relay is listed.
    pub relay_name: Option<String>,
    /// `BIND`: the address to listen on.
    pub bind: Option<String>,
    /// `PORT`: the port to listen on, where no address is given.
    pub port: Option<String>,
    /// `TLS_CERT`: the file of the certificate chain.
    pub tls_cert: Option<String>,
    /// `TLS_KEY`: the file of the private key.
    pub tls_key: Option<String>,
}

/// A setting, which counts as unset where it is empty.
pub open spec fn set_text(setting: Option<String>) -> Option<Seq<char>> {
    match setting {
        Some(text) => if text@.len() == 0 {
            None
        } else {
            Some(text@)
        },
        None => None,
    }
}

/// Reads a setting, which counts as unset where it is empty.
pub fn non_empty_setting(setting: &Option<String>) -> (r: Option<String>)
    ensures
        crate::text::opt_text(r) == set_text(*setting),
{
    match setting {
        Some(text) => if text.as_str().is_empty() {
            None
        } else {
            Some(text.clone())
        },
        None => None,
    }
}

/// Where the control plane's key comes from.
pub enum KeySource {
    /// The file of this path holds it.
    Load(String),
    /// It was to be in the file of this path, which does not exist.
    Missing(String),
    /// There is none yet.
    Absent,
}

/// [`KeySource`] as mathematical values.
pub enum KeySourceView {
    Load(Seq<char>),
    Missing(Seq<char>),
    Absent,
}

impl View for KeySource {
    type V = KeySourceView;

    open spec fn view(&self) -> KeySourceView {
        match self {
            KeySource::Load(path) => KeySourceView::Load(path@),
            KeySource::Missing(path) => KeySourceView::Missing(path@),
            KeySource::Absent => KeySourceView::Absent,
        }
    }
}

impl Settings {
    /// The file that the control plane's key is loaded from, and saved to on
    /// enrollment.
    pub open spec fn spec_key_path(self) -> Seq<char> {
        match set_text(self.relay_jwt_public_key) {
            Some(path) => path,
            None => "control.pub.pem"@,
        }
    }

    /// The plan to enroll that the settings make: there is one where they name
    /// the control plane, the code and the relay's own URL.
    pub open spec fn spec_enroll_plan(self) -> Option<crate::enroll::EnrollPlanView> {
        match (
            set_text(self.kino_control_url),
            set_text(self.kino_enroll_code),
            set_text(self.relay_public_url),
        ) {
            (Some(control_url), Some(code), Some(public_url)) => Some(
                crate::enroll::EnrollPlanView {
                    control_url,
                    code,
                    public_url,
                    name: set_text(self.relay_name),
                    key_out: self.spec_key_path(),
                },
            ),
            _ => None,
        }
    }

    /// Where the control plane's key comes from, given whether the file that it
    /// is looked for in exists. A file that was named but is missing is fine only
    /// where an enrollment is about to create it.
    pub open spec fn spec_key_source(self, exists: bool) -> KeySourceView {
        if exists {
            KeySourceView::Load(self.spec_key_path())
        } else if set_text(self.relay_jwt_public_key) is Some && self.spec_enroll_plan() is None {
            KeySourceView::Missing(self.spec_key_path())
        } else {
            KeySourceView::Absent
        }
    }

    /// The address to listen on.
    pub open spec fn spec_bind_address(self) -> Seq<char> {
        match (self.bind, self.port) {
            (Some(bind), _) => bind@,
            (None, Some(port)) => "0.0.0.0:"@ + port@,
            (None, None) => "0.0.0.0:"@ + "3000"@,
        }
    }

    /// The file that the control plane's key is loaded from, and saved to on
    /// enrollment.
    pub fn key_path(&self) -> (r: String)
        ensures
            r@ == self.spec_key_path(),
    {
        match non_empty_setting(&self.relay_jwt_public_key) {
            Some(path) => path,
            None => "control.pub.pem".to_owned(),
        }
    }

    /// The static token.
    pub fn static_token(&self) -> (r: Option<String>)
        ensures
            crate::text::opt_text(r) == set_text(self.relay_token),
    {
        non_empty_setting(&self.relay_token)
    }

    /// The plan to enroll that the settings make.
    pub fn enroll_plan(&self) -> (r: Option<EnrollPlan>)
        ensures
            r is Some <==> self.spec_enroll_plan() is Some,
            r matches Some(plan) ==> self.spec_enroll_plan() == Some(plan@),
    {
        let control_url = match non_empty_setting(&self.kino_control_url) {
            Some(control_url) => control_url,
            None => {
                return None;
            },
        };
        let code = match non_empty_setting(&self.kino_enroll_code) {
            Some(code) => code,
            None => {
                return None;
            },
        };
        let public_url = match non_empty_setting(&self.relay_public_url) {
            Some(public_url) => public_url,
            None => {
                return None;
            },
        };
        Some(
            EnrollPlan {
                control_url,
                code,
                public_url,
                name: non_empty_setting(&self.relay_name),
                key_out: self.key_path(),
            },
        )
    }

    /// Where the control plane's key comes from, given whether the file of
    /// [`Settings::key_path`] exists. A file that was named but is missing is
    /// fine only where an enrollment is about to create it.
    pub fn key_source(&self, exists: bool) -> (r: KeySource)
        ensures
            r@ == self.spec_key_source(exists),
    {
        if exists {
            return KeySource::Load(self.key_path());
        }
        match non_empty_setting(&self.relay_jwt_public_key) {
            Some(path) => if self.enroll_plan().is_none() {
                KeySource::Missing(path)
            } else {
                KeySource::Absent
            },
            None => KeySource::Absent,
        }
    }

    /// The address to listen on: `BIND`, or any interface at `PORT`, or any
    /// interface at port 3000.
    pub fn bind_address(&self) -> (r: String)
        ensures
            r@ == self.spec_bind_address(),
    {
        match &self.bind {
            Some(bind) => bind.clone(),
            None => {
                let mut address = "0.0.0.0:".to_owned();
                match &self.port {
                    Some(port) => {
                        address.append(port.as_str());
                    },
                    None => {
                        address.append("3000");
                    },
                }
                address
            },
        }
    }

    /// The files of the certificate chain and the private key, where both are
    /// named: then the relay terminates TLS itself.
    pub fn tls_files(&self) -> (r: Option<(String, String)>)
        ensures
            r is Some <==> self.tls_cert is Some && self.tls_key is Some,
            r matches Some(files) ==> files.0@ == self.tls_cert->0@ && files.1@
                == self.tls_key->0@,
    {
        match (&self.tls_cert, &self.tls_key) {
            (Some(cert), Some(key)) => Some((cert.clone(), key.clone())),
            _ => None,
        }
    }
}

/// What the relay does about enrollment.
pub enum Enrollment {
    /// Nothing: it has a key, so no code is spent. `planned` tells whether the
    /// settings asked for it.
    AlreadyEnrolled { planned: bool },
    /// It enrolls by a plan.
    Run(EnrollPlan),
    /// It asks the operator.
    Ask,
    /// Nothing: it works with the static token.
    NotWanted,
}

/// [`Enrollment`] as mathematical values.
pub enum EnrollmentView {
    AlreadyEnrolled { planned: bool },
    Run(crate::enroll::EnrollPlanView),
    Ask,
    NotWanted,
}

impl View for Enrollment {
    type V = EnrollmentView;

    open spec fn view(&self) -> EnrollmentView {
        match self {
            Enrollment::AlreadyEnrolled { planned } => EnrollmentView::AlreadyEnrolled {
                planned: *planned,
            },
            Enrollment::Run(plan) => EnrollmentView::Run(plan@),
            Enrollment::Ask => EnrollmentView::Ask,
            Enrollment::NotWanted => EnrollmentView::NotWanted,
        }
    }
}

/// The plan in an optional plan, as mathematical values.
pub open spec fn plan_view(plan: Option<EnrollPlan>) -> Option<crate::enroll::EnrollPlanView> {
    match plan {
        Some(plan) => Some(plan@),
        None => None,
    }
}

/// What a relay does about enrollment: nothing with a key at hand, else what the
/// plan of the settings says, else it asks where no other auth is configured.
pub open spec fn enrollment_choice(
    has_key: bool,
    plan: Option<crate::enroll::EnrollPlanView>,
    has_static_token: bool,
) -> EnrollmentView {
    if has_key {
        EnrollmentView::AlreadyEnrolled { planned: plan is Some }
    } else if plan is Some {
        EnrollmentView::Run(plan->0)
    } else if !has_static_token {
        EnrollmentView::Ask
    } else {
        EnrollmentView::NotWanted
    }
}

/// Decides on enrollment: never with a key at hand, else by the plan of the
/// settings, else by asking where no other auth is configured.
pub fn choose_enrollment(auth: &AuthConfig, plan: Option<EnrollPlan>) -> (r: Enrollment)
    ensures
        r@ == enrollment_choice(
            auth.jwt_key is Some,
            plan_view(plan),
            auth.static_token is Some,
        ),
{
    if auth.jwt_key.is_some() {
        return Enrollment::AlreadyEnrolled { planned: plan.is_some() };
    }
    match plan {
        Some(plan) => Enrollment::Run(plan),
        None => if auth.static_token.is_none() {
            Enrollment::Ask
        } else {
            Enrollment::NotWanted
        },
    }
}

/// How tokens of the control plane are treated.
#[derive(PartialEq, Eq, Structural, Clone, Copy, Debug)]
pub enum JwtStatus {
    Active,
    Enrolling,
    Off,
}

/// How callers are treated, as told at startup.
#[derive(PartialEq, Eq, Structural, Clone, Copy, Debug)]
pub enum AuthStatus {
    /// Anybody may use the relay.
    Disabled,
    Enabled { static_token: bool, jwt: JwtStatus },
}

/// Tells how callers are treated: auth is disabled where the relay is open and
/// will not enroll.
pub fn auth_status(auth: &AuthConfig, enrolling: bool) -> (r: AuthStatus)
    ensures
        r is Disabled <==> auth.is_open() && !enrolling,
        r matches AuthStatus::Enabled { static_token, jwt } ==> static_token
            == auth.static_token is Some && jwt == if auth.jwt_key is Some {
            JwtStatus::Active
        } else if enrolling {
            JwtStatus::Enrolling
        } else {
            JwtStatus::Off
        },
{
    let jwt = if auth.jwt_key.is_some() {
        JwtStatus::Active
    } else if enrolling {
        JwtStatus::Enrolling
    } else {
        JwtStatus::Off
    };
    if auth.static_token.is_none() && auth.jwt_key.is_none() && !enrolling {
        AuthStatus::Disabled
    } else {
        AuthStatus::Enabled { static_token: auth.static_token.is_some(), jwt }
    }
}

/// The answer of a relay that is up to a liveness probe, which anybody may send.
pub fn health_answer() -> (r: &'static str)
    ensures
        r@ == "ok"@,
{
    "ok"
}

/// The settings make a plan exactly where all three of the control plane, the
/// code and the public URL are set, and every such plan is complete.
pub proof fn law_settings_enroll_with_all_three(settings: Settings)
    ensures
        settings.spec_enroll_plan() is Some <==> set_text(settings.kino_control_url) is Some
            && set_text(settings.kino_enroll_code) is Some && set_text(settings.relay_public_url)
            is Some,
        settings.spec_enroll_plan() is Some ==> crate::enroll::is_complete(
            settings.spec_enroll_plan()->0,
        ),
{
}

/// A restart after an enrollment spends no code. Whether the plan came from the
/// settings or from the operator, it saves the key to the file that the relay
/// looks for when it starts; where that file exists it is loaded; and with a key
/// at hand no plan is run and nobody is asked.
pub proof fn law_restart_skips_enrollment(
    settings: Settings,
    answers: Seq<Seq<char>>,
    plan: crate::enroll::EnrollPlanView,
    next_plan: Option<crate::enroll::EnrollPlanView>,
    has_static_token: bool,
)
    requires
        settings.spec_enroll_plan() == Some(plan) || (answers.len() > 0
            && crate::enroll::dialog_result(
            crate::enroll::dialog_start(settings.spec_key_path()),
            answers,
        ) == crate::enroll::DialogReplyView::Planned(plan)),
    ensures
        settings.spec_key_source(true) == KeySourceView::Load(plan.key_out),
        enrollment_choice(true, next_plan, has_static_token) is AlreadyEnrolled,
{
    if settings.spec_enroll_plan() != Some(plan) {
        crate::enroll::law_planned_enrollment_is_complete(
            settings.spec_key_path(),
            answers,
            plan,
        );
    }
}

/// Without a key, settings that make a plan enroll by it, and a relay asks the
/// operator exactly where there is neither a plan nor a static token.
pub proof fn law_enrollment_is_offered_without_auth(
    plan: Option<crate::enroll::EnrollPlanView>,
    has_static_token: bool,
)
    ensures
        plan is Some ==> enrollment_choice(false, plan, has_static_token)
            == EnrollmentView::Run(plan->0),
        enrollment_choice(false, plan, has_static_token) is Ask <==> plan is None
            && !has_static_token,
{
}

/// `BIND` is the address whenever it is set, whatever `PORT` is; `PORT` counts
/// only where `BIND` is unset, and the port is 3000 only where both are.
pub proof fn law_bind_overrides_port(settings: Settings, address: String)
    requires
        call_ensures(Settings::bind_address, (&settings,), address),
    ensures
        settings.bind is Some ==> address@ == settings.bind->0@,
        settings.bind is None && settings.port is Some ==> address@ == "0.0.0.0:"@
            + settings.port->0@,
        settings.bind is None && settings.port is None ==> address@ == "0.0.0.0:3000"@,
{
    reveal_strlit("0.0.0.0:");
    reveal_strlit("3000");
    reveal_strlit("0.0.0.0:3000");
    if settings.bind is None && settings.port is None {
        assert(address@ =~= "0.0.0.0:3000"@);
    }
}

/// A setting counts with all of its characters, unless it is unset or has none.
pub proof fn law_setting_counts_unless_empty(setting: Option<String>, read: Option<String>)
    requires
        call_ensures(non_empty_setting, (&setting,), read),
    ensures
        read is Some <==> setting is Some && setting->0@.len() > 0,
        read is Some ==> read->0@ == setting->0@,
{
}

/// The static token is `RELAY_TOKEN` as it stands, unless that is empty.
pub proof fn law_static_token_is_the_setting(settings: Settings, token: Option<String>)
    requires
        call_ensures(Settings::static_token, (&settings,), token),
    ensures
        token is Some <==> settings.relay_token is Some && settings.relay_token->0@.len() > 0,
        token is Some ==> token->0@ == settings.relay_token->0@,
{
}

/// The key is loaded from, and saved to, the file that `RELAY_JWT_PUBLIC_KEY`
/// names, and `control.pub.pem` where it names none.
pub proof fn law_key_path_is_the_named_file(settings: Settings, path: String)
    requires
        call_ensures(Settings::key_path, (&settings,), path),
    ensures
        ({
            let named = settings.relay_jwt_public_key;
            path@ == if named is Some && named->0@.len() > 0 {
                named->0@
            } else {
                "control.pub.pem"@
            }
        }),
{
}

/// A plan holds the settings as they stand: the control plane, the code and the
/// public URL, none of which may be empty; the name unless it is empty; and the
/// file that the key is looked for in.
pub proof fn law_plan_holds_the_settings(
    settings: Settings,
    plan: Option<EnrollPlan>,
    path: String,
)
    requires
        call_ensures(Settings::enroll_plan, (&settings,), plan),
        call_ensures(Settings::key_path, (&settings,), path),
    ensures
        plan is Some <==> {
            &&& settings.kino_control_url is Some && settings.kino_control_url->0@.len() > 0
            &&& settings.kino_enroll_code is Some && settings.kino_enroll_code->0@.len() > 0
            &&& settings.relay_public_url is Some && settings.relay_public_url->0@.len() > 0
        },
        plan matches Some(plan) ==> {
            &&& plan.control_url@ == settings.kino_control_url->0@
            &&& plan.code@ == settings.kino_enroll_code->0@
            &&& plan.public_url@ == settings.relay_public_url->0@
            &&& plan.name is Some <==> settings.relay_name is Some
                && settings.relay_name->0@.len() > 0
            &&& plan.name is Some ==> plan.name->0@ == settings.relay_name->0@
            &&& plan.key_out@ == path@
        },
{
    if let Some(plan) = plan {
        assert(plan@.control_url == plan.control_url@);
        assert(plan@.name == crate::text::opt_text(plan.name));
    }
}

/// A key file that exists is loaded. One that does not is an error exactly where
/// it was named and no enrollment is about to create it.
pub proof fn law_named_key_file_must_exist_or_be_created(
    settings: Settings,
    exists: bool,
    source: KeySource,
    path: String,
    plan: Option<EnrollPlan>,
)
    requires
        call_ensures(Settings::key_source, (&settings, exists), source),
        call_ensures(Settings::key_path, (&settings,), path),
        call_ensures(Settings::enroll_plan, (&settings,), plan),
    ensures
        source is Load <==> exists,
        source is Missing <==> !exists && plan is None && settings.relay_jwt_public_key is Some
            && settings.relay_jwt_public_key->0@.len() > 0,
        source matches KeySource::Load(file) ==> file@ == path@,
        source matches KeySource::Missing(file) ==> file@ == settings.relay_jwt_public_key->0@,
{
}

/// A relay with a key never enrolls. Without one it runs the plan that it has,
/// unaltered; without a plan it asks, unless a static token is configured.
pub proof fn law_enrollment_follows_key_plan_and_token(
    auth: AuthConfig,
    plan: Option<EnrollPlan>,
    choice: Enrollment,
)
    requires
        call_ensures(choose_enrollment, (&auth, plan), choice),
    ensures
        auth.jwt_key is Some ==> choice == (Enrollment::AlreadyEnrolled { planned: plan is Some }),
        auth.jwt_key is None && plan is Some ==> choice is Run,
        choice matches Enrollment::Run(run) ==> {
            &&& plan is Some
            &&& run.control_url@ == plan->0.control_url@
            &&& run.code@ == plan->0.code@
            &&& run.public_url@ == plan->0.public_url@
            &&& run.name is Some <==> plan->0.name is Some
            &&& run.name is Some ==> run.name->0@ == plan->0.name->0@
            &&& run.key_out@ == plan->0.key_out@
        },
        auth.jwt_key is None && plan is None && auth.static_token is None ==> choice is Ask,
        auth.jwt_key is None && plan is None && auth.static_token is Some ==> choice is NotWanted,
{
    if let Enrollment::Run(run) = choice {
        assert(run@ == plan->0@);
        assert(run@.name == crate::text::opt_text(run.name));
        assert(plan->0@.name == crate::text::opt_text(plan->0.name));
    }
}

/// Auth is reported as disabled exactly where anybody may use the relay, now and
/// later.
pub proof fn law_disabled_auth_is_reported(auth: AuthConfig, enrolling: bool, status: AuthStatus)
    requires
        call_ensures(auth_status, (&auth, enrolling), status),
    ensures
        status is Disabled <==> auth.static_token is None && auth.jwt_key is None && !enrolling,
        status matches AuthStatus::Enabled { static_token, jwt } ==> {
            &&& static_token <==> auth.static_token is Some
            &&& jwt == JwtStatus::Active <==> auth.jwt_key is Some
            &&& jwt == JwtStatus::Enrolling <==> auth.jwt_key is None && enrolling
        },
{
}

} // verus!

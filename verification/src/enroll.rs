//! Self-enrollment with a control plane.
//!
//! A relay that is up registers with a control plane by a one-time code, gets
//! the control plane's public key back, saves it and starts to enforce it.

use crate::json::{quote, read_text};
use crate::jwt::{load_key, KeyError};
use crate::text::{decimal_text, eq_ignore_ascii_case, trim, trim_end_slashes};
use jsonwebtoken::DecodingKey;
use serde_json::Value;
use vstd::prelude::*;
use vstd::string::StringExecFns;

verus! {

/// How often the relay tries to enroll.
pub const ENROLL_ATTEMPTS: u32 = 5;

/// Seconds between the start of the relay and the first attempt.
pub const ENROLL_DELAY_SECS: u64 = 1;

/// Seconds between a failed attempt and the next.
pub const ENROLL_RETRY_SECS: u64 = 3;

/// Seconds that the control plane has for its answer.
pub const ENROLL_TIMEOUT_SECS: u64 = 10;

/// All that it takes to enroll.
pub struct EnrollPlan {
    pub control_url: String,
    pub code: String,
    pub public_url: String,
    pub name: Option<String>,
    /// Where the received key is saved, so that a restart need not enroll again.
    pub key_out: String,
}

/// [`EnrollPlan`] as mathematical values.
pub struct EnrollPlanView {
    pub control_url: Seq<char>,
    pub code: Seq<char>,
    pub public_url: Seq<char>,
    pub name: Option<Seq<char>>,
    pub key_out: Seq<char>,
}

impl View for EnrollPlan {
    type V = EnrollPlanView;

    open spec fn view(&self) -> EnrollPlanView {
        EnrollPlanView {
            control_url: self.control_url@,
            code: self.code@,
            public_url: self.public_url@,
            name: crate::text::opt_text(self.name),
            key_out: self.key_out@,
        }
    }
}

/// A plan that leaves out nothing the control plane asks for.
pub open spec fn is_complete(plan: EnrollPlanView) -> bool {
    &&& plan.control_url.len() > 0
    &&& plan.code.len() > 0
    &&& plan.public_url.len() > 0
    &&& plan.name is Some ==> plan.name->0.len() > 0
}

/// Where an enrollment request goes.
pub open spec fn enroll_url_text(control_url: Seq<char>) -> Seq<char> {
    crate::text::without_end_slashes(control_url) + "/api/relays/enroll"@
}

/// The JSON of an optional name.
pub open spec fn name_json(name: Option<Seq<char>>) -> Seq<char> {
    match name {
        Some(text) => crate::json::quoted(text),
        None => "null"@,
    }
}

/// The JSON body of an enrollment request.
pub open spec fn enroll_body_text(plan: EnrollPlanView) -> Seq<char> {
    "{\"code\":"@ + crate::json::quoted(plan.code) + ",\"name\":"@ + name_json(plan.name)
        + ",\"url\":"@ + crate::json::quoted(plan.public_url) + "}"@
}

impl EnrollPlan {
    /// Where the enrollment request goes.
    pub fn enroll_url(&self) -> (r: String)
        ensures
            r@ == enroll_url_text(self@.control_url),
    {
        let mut url = trim_end_slashes(self.control_url.as_str()).to_owned();
        url.append("/api/relays/enroll");
        url
    }

    /// The JSON body of the enrollment request.
    pub fn enroll_body(&self) -> (r: String)
        ensures
            r@ == enroll_body_text(self@),
    {
        let mut body = "{\"code\":".to_owned();
        body.append(quote(self.code.as_str()).as_str());
        body.append(",\"name\":");
        match &self.name {
            Some(name) => {
                body.append(quote(name.as_str()).as_str());
            },
            None => {
                body.append("null");
            },
        }
        body.append(",\"url\":");
        body.append(quote(self.public_url.as_str()).as_str());
        body.append("}");
        body
    }
}

/// How the control plane answered an enrollment request.
pub enum EnrollReply {
    /// It answered with an HTTP error and some text.
    Rejected { status: u16, body: String },
    /// It could not be reached.
    Unreachable { error: String },
    /// Its answer could not be read as JSON.
    Unreadable { error: String },
    /// It answered with JSON.
    Answer(Value),
}

/// The public key in an answer, or why there is none.
pub open spec fn enroll_outcome(reply: EnrollReply) -> Result<Seq<char>, Seq<char>> {
    match reply {
        EnrollReply::Rejected { status, body } => Err(
            "kino-control rejected enrollment (HTTP "@ + crate::text::decimal(status as nat)
                + "): "@ + body@,
        ),
        EnrollReply::Unreachable { error } => Err("cannot reach kino-control: "@ + error@),
        EnrollReply::Unreadable { error } => Err("bad enrollment response: "@ + error@),
        EnrollReply::Answer(value) => match crate::json::text_member(value, "public_key"@) {
            Some(key) => Ok(key),
            None => Err("enrollment response had no public_key"@),
        },
    }
}

/// Takes the public key out of an answer, or tells why there is none.
pub fn enroll_result(reply: EnrollReply) -> (r: Result<String, String>)
    ensures
        match r {
            Ok(key) => enroll_outcome(reply) == Ok::<Seq<char>, Seq<char>>(key@),
            Err(reason) => enroll_outcome(reply) == Err::<Seq<char>, Seq<char>>(reason@),
        },
{
    match reply {
        EnrollReply::Rejected { status, body } => {
            let mut reason = "kino-control rejected enrollment (HTTP ".to_owned();
            reason.append(decimal_text(status as u32).as_str());
            reason.append("): ");
            reason.append(body.as_str());
            Err(reason)
        },
        EnrollReply::Unreachable { error } => {
            let mut reason = "cannot reach kino-control: ".to_owned();
            reason.append(error.as_str());
            Err(reason)
        },
        EnrollReply::Unreadable { error } => {
            let mut reason = "bad enrollment response: ".to_owned();
            reason.append(error.as_str());
            Err(reason)
        },
        EnrollReply::Answer(value) => match read_text(&value, "public_key") {
            Some(key) => Ok(key),
            None => Err("enrollment response had no public_key".to_owned()),
        },
    }
}

/// The question that an enrollment dialog has come to.
#[derive(PartialEq, Eq, Structural, Clone, Copy, Debug)]
pub enum DialogStep {
    /// Whether to enroll at all.
    Offer,
    ControlUrl,
    Code,
    PublicUrl,
    Name,
    /// No question is left.
    Over,
}

/// Asks the operator for an enrollment plan, one question at a time.
pub struct EnrollDialog {
    step: DialogStep,
    control_url: String,
    code: String,
    public_url: String,
    key_out: String,
}

/// [`EnrollDialog`] as mathematical values.
pub struct DialogView {
    pub step: DialogStep,
    pub control_url: Seq<char>,
    pub code: Seq<char>,
    pub public_url: Seq<char>,
    pub key_out: Seq<char>,
}

impl View for EnrollDialog {
    type V = DialogView;

    closed spec fn view(&self) -> DialogView {
        DialogView {
            step: self.step,
            control_url: self.control_url@,
            code: self.code@,
            public_url: self.public_url@,
            key_out: self.key_out@,
        }
    }
}

/// What an answer leads to.
pub enum DialogReply {
    /// The next question.
    Ask,
    /// The operator does not want to enroll.
    Declined,
    /// The code or the public URL was left out.
    Incomplete,
    /// A plan.
    Planned(EnrollPlan),
    /// No question was open.
    NotAsked,
}

/// [`DialogReply`] as mathematical values.
pub enum DialogReplyView {
    Ask,
    Declined,
    Incomplete,
    Planned(EnrollPlanView),
    NotAsked,
}

impl View for DialogReply {
    type V = DialogReplyView;

    open spec fn view(&self) -> DialogReplyView {
        match self {
            DialogReply::Ask => DialogReplyView::Ask,
            DialogReply::Declined => DialogReplyView::Declined,
            DialogReply::Incomplete => DialogReplyView::Incomplete,
            DialogReply::Planned(plan) => DialogReplyView::Planned(plan@),
            DialogReply::NotAsked => DialogReplyView::NotAsked,
        }
    }
}

/// Whether an answer accepts the offer: `y` or `yes` in any case.
pub open spec fn is_yes(answer: Seq<char>) -> bool {
    ||| crate::text::ascii_lower(answer) == crate::text::ascii_lower("y"@)
    ||| crate::text::ascii_lower(answer) == crate::text::ascii_lower("yes"@)
}

/// The control plane that an answer names: an empty one names the default.
pub open spec fn control_url_or_default(answer: Seq<char>) -> Seq<char> {
    if answer.len() == 0 {
        "https://kino.samarthkombemane.com"@
    } else {
        answer
    }
}

/// A text, unless it is empty.
pub open spec fn non_empty(text: Seq<char>) -> Option<Seq<char>> {
    if text.len() == 0 {
        None
    } else {
        Some(text)
    }
}

/// A dialog that is about to make the offer.
pub open spec fn dialog_start(key_out: Seq<char>) -> DialogView {
    DialogView {
        step: DialogStep::Offer,
        control_url: Seq::empty(),
        code: Seq::empty(),
        public_url: Seq::empty(),
        key_out,
    }
}

/// The dialog after an answer.
pub open spec fn dialog_next(dialog: DialogView, answer: Seq<char>) -> DialogView {
    match dialog.step {
        DialogStep::Offer => if is_yes(answer) {
            DialogView { step: DialogStep::ControlUrl, ..dialog }
        } else {
            DialogView { step: DialogStep::Over, ..dialog }
        },
        DialogStep::ControlUrl => DialogView {
            step: DialogStep::Code,
            control_url: control_url_or_default(answer),
            ..dialog
        },
        DialogStep::Code => DialogView { step: DialogStep::PublicUrl, code: answer, ..dialog },
        DialogStep::PublicUrl => DialogView {
            step: DialogStep::Name,
            public_url: answer,
            ..dialog
        },
        DialogStep::Name => DialogView { step: DialogStep::Over, ..dialog },
        DialogStep::Over => dialog,
    }
}

/// What an answer leads to.
pub open spec fn dialog_reply(dialog: DialogView, answer: Seq<char>) -> DialogReplyView {
    match dialog.step {
        DialogStep::Offer => if is_yes(answer) {
            DialogReplyView::Ask
        } else {
            DialogReplyView::Declined
        },
        DialogStep::ControlUrl => DialogReplyView::Ask,
        DialogStep::Code => DialogReplyView::Ask,
        DialogStep::PublicUrl => DialogReplyView::Ask,
        DialogStep::Name => if dialog.code.len() == 0 || dialog.public_url.len() == 0 {
            DialogReplyView::Incomplete
        } else {
            DialogReplyView::Planned(
                EnrollPlanView {
                    control_url: dialog.control_url,
                    code: dialog.code,
                    public_url: dialog.public_url,
                    name: non_empty(answer),
                    key_out: dialog.key_out,
                },
            )
        },
        DialogStep::Over => DialogReplyView::NotAsked,
    }
}

/// The question of a step.
pub open spec fn question_text(step: DialogStep) -> Seq<char> {
    match step {
        DialogStep::Offer => "Enroll this relay with a kino-control instance? [y/N] "@,
        DialogStep::ControlUrl => "kino-control URL [https://kino.samarthkombemane.com]: "@,
        DialogStep::Code => "One-time enrollment code (from the kino-control web UI): "@,
        DialogStep::PublicUrl => "This relay's public URL (e.g. wss://relay.example.com): "@,
        DialogStep::Name => "Relay name (optional): "@,
        DialogStep::Over => ""@,
    }
}

impl EnrollDialog {
    /// Starts a dialog, where a terminal is attached: a start without one must
    /// not wait for an answer that nobody gives.
    pub fn start(terminal: bool, key_out: &str) -> (r: Option<EnrollDialog>)
        ensures
            r is Some <==> terminal,
            r matches Some(dialog) ==> dialog@ == dialog_start(key_out@),
    {
        if !terminal {
            return None;
        }
        Some(
            EnrollDialog {
                step: DialogStep::Offer,
                control_url: String::new(),
                code: String::new(),
                public_url: String::new(),
                key_out: key_out.to_owned(),
            },
        )
    }

    /// The open question.
    pub fn question(&self) -> (r: &'static str)
        ensures
            r@ == question_text(self@.step),
    {
        match self.step {
            DialogStep::Offer => "Enroll this relay with a kino-control instance? [y/N] ",
            DialogStep::ControlUrl => "kino-control URL [https://kino.samarthkombemane.com]: ",
            DialogStep::Code => "One-time enrollment code (from the kino-control web UI): ",
            DialogStep::PublicUrl => "This relay's public URL (e.g. wss://relay.example.com): ",
            DialogStep::Name => "Relay name (optional): ",
            DialogStep::Over => "",
        }
    }

    /// Takes the line that the operator typed for the open question. White
    /// space around the answer does not count.
    pub fn answer(&mut self, line: &str) -> (r: DialogReply)
        ensures
            final(self)@ == dialog_next(old(self)@, crate::text::trimmed(line@)),
            r@ == dialog_reply(old(self)@, crate::text::trimmed(line@)),
    {
        let answer = trim(line);
        match self.step {
            DialogStep::Offer => {
                if eq_ignore_ascii_case(answer, "y") || eq_ignore_ascii_case(answer, "yes") {
                    self.step = DialogStep::ControlUrl;
                    DialogReply::Ask
                } else {
                    self.step = DialogStep::Over;
                    DialogReply::Declined
                }
            },
            DialogStep::ControlUrl => {
                self.control_url = if answer.is_empty() {
                    "https://kino.samarthkombemane.com".to_owned()
                } else {
                    answer.to_owned()
                };
                self.step = DialogStep::Code;
                DialogReply::Ask
            },
            DialogStep::Code => {
                self.code = answer.to_owned();
                self.step = DialogStep::PublicUrl;
                DialogReply::Ask
            },
            DialogStep::PublicUrl => {
                self.public_url = answer.to_owned();
                self.step = DialogStep::Name;
                DialogReply::Ask
            },
            DialogStep::Name => {
                self.step = DialogStep::Over;
                if self.code.as_str().is_empty() || self.public_url.as_str().is_empty() {
                    DialogReply::Incomplete
                } else {
                    DialogReply::Planned(
                        EnrollPlan {
                            control_url: self.control_url.clone(),
                            code: self.code.clone(),
                            public_url: self.public_url.clone(),
                            name: if answer.is_empty() {
                                None
                            } else {
                                Some(answer.to_owned())
                            },
                            key_out: self.key_out.clone(),
                        },
                    )
                }
            },
            DialogStep::Over => DialogReply::NotAsked,
        }
    }
}

/// The dialog after some answers.
pub open spec fn dialog_after(dialog: DialogView, answers: Seq<Seq<char>>) -> DialogView
    decreases answers.len(),
{
    if answers.len() == 0 {
        dialog
    } else {
        dialog_next(dialog_after(dialog, answers.drop_last()), answers.last())
    }
}

/// What the last of some answers leads to.
pub open spec fn dialog_result(dialog: DialogView, answers: Seq<Seq<char>>) -> DialogReplyView {
    dialog_reply(dialog_after(dialog, answers.drop_last()), answers.last())
}

/// An operator who accepts and answers the four questions gets the plan that
/// the answers spell out, if they hold a code and a public URL, and none
/// otherwise.
pub proof fn law_dialog_spells_out_the_plan(
    key_out: Seq<char>,
    offer: Seq<char>,
    control_url: Seq<char>,
    code: Seq<char>,
    public_url: Seq<char>,
    name: Seq<char>,
)
    requires
        is_yes(offer),
    ensures
        dialog_result(
            dialog_start(key_out),
            seq![offer, control_url, code, public_url, name],
        ) == if code.len() == 0 || public_url.len() == 0 {
            DialogReplyView::Incomplete
        } else {
            DialogReplyView::Planned(
                EnrollPlanView {
                    control_url: control_url_or_default(control_url),
                    code,
                    public_url,
                    name: non_empty(name),
                    key_out,
                },
            )
        },
{
    let start = dialog_start(key_out);
    let all = seq![offer, control_url, code, public_url, name];
    let four = seq![offer, control_url, code, public_url];
    let three = seq![offer, control_url, code];
    let two = seq![offer, control_url];
    let one = seq![offer];
    let none = Seq::<Seq<char>>::empty();
    assert(all.drop_last() =~= four);
    assert(four.drop_last() =~= three);
    assert(three.drop_last() =~= two);
    assert(two.drop_last() =~= one);
    assert(one.drop_last() =~= none);
    assert(dialog_after(start, none) == start);
    assert(dialog_after(start, one) == dialog_next(start, offer));
    assert(dialog_after(start, two) == dialog_next(dialog_after(start, one), control_url));
    assert(dialog_after(start, three) == dialog_next(dialog_after(start, two), code));
    assert(dialog_after(start, four) == dialog_next(dialog_after(start, three), public_url));
}

/// An operator who does not accept is asked nothing more.
pub proof fn law_declined_offer_ends_the_dialog(key_out: Seq<char>, offer: Seq<char>)
    requires
        !is_yes(offer),
    ensures
        dialog_reply(dialog_start(key_out), offer) == DialogReplyView::Declined,
        dialog_next(dialog_start(key_out), offer).step == DialogStep::Over,
{
}

/// How many questions lie before a step.
pub open spec fn questions_before(step: DialogStep) -> int {
    match step {
        DialogStep::Offer => 0,
        DialogStep::ControlUrl => 1,
        DialogStep::Code => 2,
        DialogStep::PublicUrl => 3,
        DialogStep::Name => 4,
        DialogStep::Over => 5,
    }
}

/// A dialog asks five questions at most, whatever the answers.
pub proof fn law_dialog_ends_after_five_answers(key_out: Seq<char>, answers: Seq<Seq<char>>)
    ensures
        questions_before(dialog_after(dialog_start(key_out), answers).step) >= answers.len()
            || dialog_after(dialog_start(key_out), answers).step == DialogStep::Over,
        answers.len() >= 5 ==> dialog_after(dialog_start(key_out), answers).step
            == DialogStep::Over,
    decreases answers.len(),
{
    if answers.len() > 0 {
        law_dialog_ends_after_five_answers(key_out, answers.drop_last());
    }
}

/// Every plan that comes out of a dialog is complete, whatever was answered.
pub proof fn law_planned_enrollment_is_complete(
    key_out: Seq<char>,
    answers: Seq<Seq<char>>,
    plan: EnrollPlanView,
)
    requires
        answers.len() > 0,
        dialog_result(dialog_start(key_out), answers) == DialogReplyView::Planned(plan),
    ensures
        is_complete(plan),
        plan.key_out == key_out,
{
    lemma_dialog_keeps(key_out, answers.drop_last());
}

/// A dialog keeps where the key goes, and has a control plane once it is past
/// that question.
proof fn lemma_dialog_keeps(key_out: Seq<char>, answers: Seq<Seq<char>>)
    ensures
        ({
            let dialog = dialog_after(dialog_start(key_out), answers);
            &&& dialog.key_out == key_out
            &&& dialog.step == DialogStep::Code || dialog.step == DialogStep::PublicUrl
                || dialog.step == DialogStep::Name ==> dialog.control_url.len() > 0
        }),
    decreases answers.len(),
{
    if answers.len() > 0 {
        lemma_dialog_keeps(key_out, answers.drop_last());
        reveal_strlit("https://kino.samarthkombemane.com");
    }
}

/// What an enrollment request came to: the PEM text of the control plane's key
/// and the key in it, or why there is none.
pub enum EnrollAttempt {
    Answered { pem: String, key: Result<DecodingKey, KeyError> },
    Failed { reason: String },
}

/// What follows an enrollment request.
pub enum EnrollStep {
    /// Save the key and install it.
    Install { pem: String, key: DecodingKey },
    /// The control plane sent no usable key: stop.
    BadKey { reason: String },
    /// Try again after some seconds.
    Retry { reason: String, pause_secs: u64 },
    /// The last attempt failed too: stop after some seconds.
    Exhausted { reason: String, pause_secs: u64 },
    /// No attempt was under way.
    NotTrying,
}

/// The attempts of a relay to enroll.
pub struct EnrollRun {
    attempt: u32,
    over: bool,
}

/// [`EnrollRun`] as mathematical values: the attempt under way, counted from
/// one, and whether the run is over.
pub struct EnrollRunView {
    pub attempt: int,
    pub over: bool,
}

impl View for EnrollRun {
    type V = EnrollRunView;

    closed spec fn view(&self) -> EnrollRunView {
        EnrollRunView { attempt: self.attempt as int, over: self.over }
    }
}

/// A run before its first attempt.
pub open spec fn run_start() -> EnrollRunView {
    EnrollRunView { attempt: 1, over: false }
}

/// The run after an attempt: an answer of the control plane ends it, and so does
/// the failure of the last attempt.
pub open spec fn run_next(run: EnrollRunView, answered: bool) -> EnrollRunView {
    if run.over {
        run
    } else if answered || run.attempt >= ENROLL_ATTEMPTS {
        EnrollRunView { over: true, ..run }
    } else {
        EnrollRunView { attempt: run.attempt + 1, ..run }
    }
}

/// Whether a step is the one that an attempt calls for.
pub open spec fn run_reacts(run: EnrollRunView, attempt: EnrollAttempt, step: EnrollStep) -> bool {
    if run.over {
        step is NotTrying
    } else {
        match attempt {
            EnrollAttempt::Answered { pem, key: Ok(key) } => step matches EnrollStep::Install {
                pem: saved,
                key: installed,
            } && saved@ == pem@ && installed == key,
            EnrollAttempt::Answered { pem, key: Err(error) } => step matches EnrollStep::BadKey {
                reason,
            } && reason@ == error.reason@,
            EnrollAttempt::Failed { reason } => if run.attempt < ENROLL_ATTEMPTS {
                step matches EnrollStep::Retry { reason: told, pause_secs } && told@ == reason@
                    && pause_secs == ENROLL_RETRY_SECS
            } else {
                step matches EnrollStep::Exhausted { reason: told, pause_secs } && told@ == reason@
                    && pause_secs == ENROLL_RETRY_SECS
            },
        }
    }
}

impl EnrollRun {
    #[verifier::type_invariant]
    spec fn inv(self) -> bool {
        1 <= self.attempt <= ENROLL_ATTEMPTS
    }

    /// Starts with the first attempt.
    pub fn start() -> (r: Self)
        ensures
            r@ == run_start(),
    {
        EnrollRun { attempt: 1, over: false }
    }

    /// The attempt under way.
    pub fn attempt(&self) -> (r: u32)
        ensures
            r as int == self@.attempt,
    {
        self.attempt
    }

    /// Takes what an attempt came to and tells what follows.
    pub fn settle(&mut self, attempt: EnrollAttempt) -> (r: EnrollStep)
        ensures
            final(self)@ == run_next(old(self)@, attempt is Answered),
            run_reacts(old(self)@, attempt, r),
    {
        proof {
            use_type_invariant(&*self);
        }
        if self.over {
            return EnrollStep::NotTrying;
        }
        match attempt {
            EnrollAttempt::Answered { pem, key } => {
                self.over = true;
                match key {
                    Ok(key) => EnrollStep::Install { pem, key },
                    Err(error) => EnrollStep::BadKey { reason: error.reason },
                }
            },
            EnrollAttempt::Failed { reason } => if self.attempt < ENROLL_ATTEMPTS {
                self.attempt = self.attempt + 1;
                EnrollStep::Retry { reason, pause_secs: ENROLL_RETRY_SECS }
            } else {
                self.over = true;
                EnrollStep::Exhausted { reason, pause_secs: ENROLL_RETRY_SECS }
            },
        }
    }

    /// Takes the result of an enrollment request, reads the key in it, and tells
    /// what follows.
    pub fn on_result(&mut self, result: Result<String, String>) -> (r: EnrollStep)
        ensures
            final(self)@ == run_next(old(self)@, result is Ok),
            old(self)@.over ==> r is NotTrying,
            !old(self)@.over ==> match result {
                Ok(pem) => match crate::jwt::ed_key(vstd::utf8::encode_utf8(pem@)) {
                    Ok(key) => r matches EnrollStep::Install { pem: saved, key: installed }
                        && saved@ == pem@ && installed == key,
                    Err(error) => r matches EnrollStep::BadKey { reason } && reason@
                        == crate::jwt::token_error_text(error),
                },
                Err(reason) => run_reacts(old(self)@, EnrollAttempt::Failed { reason }, r),
            },
    {
        let attempt = match result {
            Ok(pem) => {
                let key = load_key(pem.as_str().as_bytes());
                EnrollAttempt::Answered { pem, key }
            },
            Err(reason) => EnrollAttempt::Failed { reason },
        };
        self.settle(attempt)
    }
}

/// The run after some attempts, each of which was answered or failed.
pub open spec fn run_after(answered: Seq<bool>) -> EnrollRunView
    decreases answered.len(),
{
    if answered.len() == 0 {
        run_start()
    } else {
        run_next(run_after(answered.drop_last()), answered.last())
    }
}

/// A run goes on exactly as long as no attempt was answered and fewer than
/// [`ENROLL_ATTEMPTS`] have failed; so it makes no more attempts than that, and
/// none after an answer.
pub proof fn law_enrollment_is_tried_until_answered(answered: Seq<bool>)
    ensures
        !run_after(answered).over <==> {
            &&& answered.len() < ENROLL_ATTEMPTS
            &&& forall|i: int| 0 <= i < answered.len() ==> !#[trigger] answered[i]
        },
        !run_after(answered).over ==> run_after(answered).attempt == answered.len() + 1,
    decreases answered.len(),
{
    if answered.len() > 0 {
        let before = answered.drop_last();
        law_enrollment_is_tried_until_answered(before);
        assert forall|i: int| 0 <= i < before.len() implies #[trigger] before[i] == answered[i] by {
        }
        if !run_after(before).over {
            assert forall|i: int| 0 <= i < before.len() implies !#[trigger] answered[i] by {
                assert(!before[i]);
            }
            assert(answered[answered.len() - 1] == answered.last());
        } else if before.len() < ENROLL_ATTEMPTS {
            let i = choose|i: int| 0 <= i < before.len() && #[trigger] before[i];
            assert(answered[i]);
        }
    }
}

/// The public key is taken from every JSON object whose member `public_key` is a
/// string, as that string stands, whatever its characters; no other reply brings
/// one.
pub proof fn law_public_key_is_taken_as_it_stands(
    reply: EnrollReply,
    result: Result<String, String>,
)
    requires
        call_ensures(enroll_result, (reply,), result),
    ensures
        result is Ok <==> {
            &&& reply is Answer
            &&& crate::json::json_content(reply->Answer_0) matches crate::json::JsonContent::Object(
                members,
            )
            &&& members.contains_key("public_key"@)
            &&& crate::json::json_content(members["public_key"@]) is Text
        },
        result matches Ok(key) ==> {
            let members = crate::json::json_content(reply->Answer_0)->Object_0;
            crate::json::json_content(members["public_key"@]) == crate::json::JsonContent::Text(
                key@,
            )
        },
{
}

/// A reply without a key tells why: what the control plane said with its status,
/// or why it could not be reached or read, each in full.
pub proof fn law_failed_request_tells_why(
    reply: EnrollReply,
    result: Result<String, String>,
)
    requires
        call_ensures(enroll_result, (reply,), result),
        result is Err,
    ensures
        reply matches EnrollReply::Rejected { status, body } ==> exists|digits: Seq<char>|
            {
                &&& #[trigger] crate::text::decimal_value(digits) == status
                &&& result->Err_0@ == "kino-control rejected enrollment (HTTP "@ + digits + "): "@
                    + body@
            },
        reply matches EnrollReply::Unreachable { error } ==> result->Err_0@
            == "cannot reach kino-control: "@ + error@,
        reply matches EnrollReply::Unreadable { error } ==> result->Err_0@
            == "bad enrollment response: "@ + error@,
        reply is Answer ==> result->Err_0@ == "enrollment response had no public_key"@,
{
    if let EnrollReply::Rejected { status, body } = reply {
        crate::text::law_decimal_reads_back(status as nat);
        let digits = crate::text::decimal(status as nat);
        assert(crate::text::decimal_value(digits) == status);
    }
}

/// However many slashes end the control plane's URL, the request goes to the same
/// place below it.
pub proof fn law_request_goes_below_the_control_url(
    plan: EnrollPlan,
    url: String,
    base: Seq<char>,
    slashes: Seq<char>,
)
    requires
        call_ensures(EnrollPlan::enroll_url, (&plan,), url),
        plan.control_url@ == base + slashes,
        base.len() > 0 ==> base.last() != '/',
        forall|i: int| 0 <= i < slashes.len() ==> #[trigger] slashes[i] == '/',
    ensures
        url@ == base + "/api/relays/enroll"@,
{
    crate::text::law_end_slashes_go(base, slashes);
}

/// What a JSON string spells, with its quotation marks.
pub open spec fn string_spells(json: Seq<char>, text: Seq<char>) -> bool {
    &&& json.len() >= 2
    &&& json.first() == '"' && json.last() == '"'
    &&& crate::json::spelled(json.subrange(1, json.len() - 1)) == Some(text)
}

proof fn lemma_quoted_spells(text: Seq<char>)
    ensures
        string_spells(crate::json::quoted(text), text),
{
    crate::json::law_written_text_is_read_back(text);
}

/// The body of a request is an object whose `code` and `url` read back as the
/// plan's code and public URL, and whose `name` reads back as the plan's name, or
/// is `null` where it has none.
pub proof fn law_request_says_what_the_plan_says(plan: EnrollPlan, body: String)
    requires
        call_ensures(EnrollPlan::enroll_body, (&plan,), body),
    ensures
        exists|code: Seq<char>, name: Seq<char>, url: Seq<char>|
            {
                &&& body@ == "{\"code\":"@ + code + ",\"name\":"@ + name + ",\"url\":"@ + url + "}"@
                &&& #[trigger] string_spells(code, plan.code@)
                &&& plan.name is Some ==> string_spells(name, plan.name->0@)
                &&& #[trigger] no_name(plan.name, name)
                &&& #[trigger] string_spells(url, plan.public_url@)
            },
{
    let code = crate::json::quoted(plan.code@);
    let name = name_json(plan@.name);
    let url = crate::json::quoted(plan.public_url@);
    lemma_quoted_spells(plan.code@);
    lemma_quoted_spells(plan.public_url@);
    if plan.name is Some {
        lemma_quoted_spells(plan.name->0@);
    }
    assert(string_spells(code, plan.code@));
    assert(no_name(plan.name, name));
    assert(string_spells(url, plan.public_url@));
}

/// A name that is left out is written as `null`.
pub open spec fn no_name(name: Option<String>, json: Seq<char>) -> bool {
    name is None ==> json == "null"@
}

/// An offer is accepted by `y` and by `yes`, in capitals or not, and by nothing
/// else.
pub proof fn law_offer_is_accepted_by_yes(answer: Seq<char>)
    ensures
        is_yes(answer) <==> {
            ||| answer.len() == 1 && (answer[0] == 'y' || answer[0] == 'Y')
            ||| {
                &&& answer.len() == 3
                &&& answer[0] == 'y' || answer[0] == 'Y'
                &&& answer[1] == 'e' || answer[1] == 'E'
                &&& answer[2] == 's' || answer[2] == 'S'
            }
        },
{
    reveal_strlit("y");
    reveal_strlit("yes");
    let low = crate::text::ascii_lower(answer);
    let (y, yes) = (crate::text::ascii_lower("y"@), crate::text::ascii_lower("yes"@));
    assert(y.len() == 1 && y[0] == 'y');
    assert(yes.len() == 3 && yes[0] == 'y' && yes[1] == 'e' && yes[2] == 's');
    assert forall|i: int| 0 <= i < answer.len() implies low[i] == 'y' <==> (answer[i] == 'y'
        || answer[i] == 'Y') by {
        lemma_lower_is(answer[i], 'y', 'Y');
    }
    if answer.len() == 3 {
        lemma_lower_is(answer[1], 'e', 'E');
        lemma_lower_is(answer[2], 's', 'S');
    }
    if answer.len() == 1 && low[0] == 'y' {
        assert(low =~= y);
    }
    if answer.len() == 3 && low[0] == 'y' && low[1] == 'e' && low[2] == 's' {
        assert(low =~= yes);
    }
}

proof fn lemma_lower_is(c: char, small: char, capital: char)
    requires
        'a' <= small <= 'z',
        small as u32 == capital as u32 + 32,
    ensures
        crate::text::ascii_lower_char(c) == small <==> c == small || c == capital,
{
    assert(crate::text::ascii_lower_char(c) as u32 == if 'A' <= c <= 'Z' {
        c as u32 + 32
    } else {
        c as int
    });
}

/// A dialog that the operator accepts makes the plan that the five lines spell
/// out, white space around them aside: without a code or a public URL there is
/// none; without a control plane it is the default one; without a name it has
/// none; and the key goes where the dialog was started with.
pub proof fn law_dialog_makes_the_plan_of_its_lines(
    key_out: &str,
    started: Option<EnrollDialog>,
    offer: (&mut EnrollDialog, &str, DialogReply),
    control_url: (&mut EnrollDialog, &str, DialogReply),
    code: (&mut EnrollDialog, &str, DialogReply),
    public_url: (&mut EnrollDialog, &str, DialogReply),
    name: (&mut EnrollDialog, &str, DialogReply),
)
    requires
        call_ensures(EnrollDialog::start, (true, key_out), started),
        call_ensures(EnrollDialog::answer, (offer.0, offer.1), offer.2),
        call_ensures(EnrollDialog::answer, (control_url.0, control_url.1), control_url.2),
        call_ensures(EnrollDialog::answer, (code.0, code.1), code.2),
        call_ensures(EnrollDialog::answer, (public_url.0, public_url.1), public_url.2),
        call_ensures(EnrollDialog::answer, (name.0, name.1), name.2),
        started == Some(*offer.0),
        *control_url.0 == *final(offer.0),
        *code.0 == *final(control_url.0),
        *public_url.0 == *final(code.0),
        *name.0 == *final(public_url.0),
        is_yes(crate::text::trimmed(offer.1@)),
    ensures
        offer.2 is Ask && control_url.2 is Ask && code.2 is Ask && public_url.2 is Ask,
        ({
            let complete = crate::text::trimmed(code.1@).len() > 0 && crate::text::trimmed(
                public_url.1@,
            ).len() > 0;
            &&& name.2 is Planned <==> complete
            &&& name.2 is Incomplete <==> !complete
        }),
        name.2 matches DialogReply::Planned(plan) ==> {
            &&& crate::text::trimmed(control_url.1@).len() > 0 ==> plan.control_url@
                == crate::text::trimmed(control_url.1@)
            &&& crate::text::trimmed(control_url.1@).len() == 0 ==> plan.control_url@
                == "https://kino.samarthkombemane.com"@
            &&& plan.code@ == crate::text::trimmed(code.1@)
            &&& plan.public_url@ == crate::text::trimmed(public_url.1@)
            &&& plan.name is Some <==> crate::text::trimmed(name.1@).len() > 0
            &&& plan.name is Some ==> plan.name->0@ == crate::text::trimmed(name.1@)
            &&& plan.key_out@ == key_out@
        },
{
    assert(name.2@ == dialog_reply((*name.0)@, crate::text::trimmed(name.1@)));
    if let DialogReply::Planned(plan) = name.2 {
        assert(name.2@ == DialogReplyView::Planned(plan@));
        assert(plan@.name == crate::text::opt_text(plan.name));
    }
}

/// A dialog is started only where a terminal is attached, and an offer that is
/// not accepted ends it: no later line is an answer to anything.
pub proof fn law_dialog_ends_where_it_is_declined(
    terminal: bool,
    key_out: &str,
    started: Option<EnrollDialog>,
    dialog: &mut EnrollDialog,
    line: &str,
    reply: DialogReply,
    later: &mut EnrollDialog,
    later_line: &str,
    later_reply: DialogReply,
)
    requires
        call_ensures(EnrollDialog::start, (terminal, key_out), started),
        started is Some ==> started == Some(*old(dialog)),
        call_ensures(EnrollDialog::answer, (dialog, line), reply),
        *old(later) == *final(dialog),
        call_ensures(EnrollDialog::answer, (later, later_line), later_reply),
    ensures
        started is Some <==> terminal,
        terminal && !is_yes(crate::text::trimmed(line@)) ==> reply is Declined && later_reply
            is NotAsked && final(later)@ == old(later)@,
{
}

/// Each question asks for what its answer is taken as.
pub proof fn law_dialog_asks_for_what_it_takes(dialog: EnrollDialog, question: &'static str)
    requires
        call_ensures(EnrollDialog::question, (&dialog,), question),
    ensures
        question@ == match dialog@.step {
            DialogStep::Offer => "Enroll this relay with a kino-control instance? [y/N] "@,
            DialogStep::ControlUrl => "kino-control URL [https://kino.samarthkombemane.com]: "@,
            DialogStep::Code => "One-time enrollment code (from the kino-control web UI): "@,
            DialogStep::PublicUrl => "This relay's public URL (e.g. wss://relay.example.com): "@,
            DialogStep::Name => "Relay name (optional): "@,
            DialogStep::Over => ""@,
        },
{
}

/// An answer with a key is saved and installed as it came and ends the run, and
/// so does an answer without a usable one. A failure is followed by another
/// attempt after three seconds, except the fifth, which is the last. A run that
/// is over takes nothing more.
pub proof fn law_run_follows_its_attempts(
    run: &mut EnrollRun,
    attempt: EnrollAttempt,
    step: EnrollStep,
)
    requires
        call_ensures(EnrollRun::settle, (run, attempt), step),
    ensures
        old(run)@.over ==> step is NotTrying && final(run)@ == old(run)@,
        !old(run)@.over ==> match attempt {
            EnrollAttempt::Answered { pem, key } => {
                &&& final(run)@.over
                &&& key is Ok ==> step is Install && step->Install_pem@ == pem@
                    && step->Install_key == key->Ok_0
                &&& key is Err ==> step is BadKey && step->BadKey_reason@ == key->Err_0.reason@
            },
            EnrollAttempt::Failed { reason } => if old(run)@.attempt < 5 {
                &&& !final(run)@.over && final(run)@.attempt == old(run)@.attempt + 1
                &&& step is Retry && step->Retry_reason@ == reason@
                &&& step->Retry_pause_secs == 3
            } else {
                &&& final(run)@.over
                &&& step is Exhausted && step->Exhausted_reason@ == reason@
                &&& step->Exhausted_pause_secs == 3
            },
        },
{
}

/// The key that an answer brings is the one in its text: it is saved as it came
/// and installed exactly where it reads as a key.
pub proof fn law_received_key_is_installed(
    run: &mut EnrollRun,
    result: Result<String, String>,
    step: EnrollStep,
)
    requires
        call_ensures(EnrollRun::on_result, (run, result), step),
        !old(run)@.over,
    ensures
        result matches Ok(pem) ==> {
            let read = crate::jwt::ed_key(vstd::utf8::encode_utf8(pem@));
            &&& final(run)@.over
            &&& step is Install <==> read is Ok
            &&& step is Install ==> step->Install_pem@ == pem@ && step->Install_key == read->Ok_0
            &&& step is BadKey <==> read is Err
            &&& step is BadKey ==> step->BadKey_reason@ == crate::jwt::token_error_text(
                read->Err_0,
            )
        },
        result matches Err(reason) ==> {
            &&& step is Retry <==> old(run)@.attempt < 5
            &&& step is Exhausted <==> old(run)@.attempt >= 5
            &&& final(run)@.over <==> old(run)@.attempt >= 5
            &&& step is Retry ==> step->Retry_reason@ == reason@ && step->Retry_pause_secs == 3
                && final(run)@.attempt == old(run)@.attempt + 1
            &&& step is Exhausted ==> step->Exhausted_reason@ == reason@
                && step->Exhausted_pause_secs == 3
        },
{
}

/// A run starts with its first attempt, one second after the relay, and gives the
/// control plane ten seconds for each of five.
pub proof fn law_enrollment_limits(run: EnrollRun)
    requires
        call_ensures(EnrollRun::start, (), run),
    ensures
        run@.attempt == 1,
        !run@.over,
        ENROLL_ATTEMPTS == 5,
        ENROLL_DELAY_SECS == 1,
        ENROLL_RETRY_SECS == 3,
        ENROLL_TIMEOUT_SECS == 10,
{
}

} // verus!

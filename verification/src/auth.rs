//! Who may use the relay.
//!
//! Two mechanisms, each optional, admit a caller: one static token shared by
//! everybody, and tokens signed by a control plane, which carry a role and the
//! agent that they are for. A caller passes who satisfies either. With neither
//! configured the relay is open.

use crate::headers::bearer_token;
use crate::jwt::{verify_token, Claims};
use crate::text::same_text;
use axum::http::HeaderMap;
use jsonwebtoken::DecodingKey;
use subtle::ConstantTimeEq;
use vstd::prelude::*;

verus! {

/// What a caller acts as.
#[derive(PartialEq, Eq, Structural, Clone, Copy, Debug)]
pub enum Role {
    Agent,
    Manager,
}

impl Role {
    /// The name of a role in a token.
    pub open spec fn name(self) -> Seq<char> {
        match self {
            Role::Agent => "agent"@,
            Role::Manager => "manager"@,
        }
    }

    /// The name of a role in a token.
    pub fn as_str(self) -> (r: &'static str)
        ensures
            r@ == self.name(),
    {
        match self {
            Role::Agent => "agent",
            Role::Manager => "manager",
        }
    }
}

/// The answer to a caller who is not admitted.
#[derive(PartialEq, Eq, Structural, Clone, Copy, Debug)]
pub struct Unauthorized;

impl Unauthorized {
    /// The HTTP status of the answer.
    pub fn status(self) -> (r: u16)
        ensures
            r == 401,
    {
        401
    }
}

/// How callers prove that they may use the relay.
pub struct AuthConfig {
    /// One secret that admits any caller.
    pub static_token: Option<String>,
    /// The key of the control plane, which admits callers by signed tokens.
    pub jwt_key: Option<DecodingKey>,
}

/// The characters of an optional text.
pub open spec fn text_view(text: Option<&str>) -> Option<Seq<char>> {
    match text {
        Some(s) => Some(s@),
        None => None,
    }
}

/// The values of optional claims.
pub open spec fn claims_view(claims: Option<&Claims>) -> Option<crate::jwt::ClaimsView> {
    match claims {
        Some(c) => Some(c@),
        None => None,
    }
}

/// Whether claims admit a caller in a role: they state that role, and they are
/// for the agent that the caller acts on or for any. A caller who acts on no
/// particular agent needs the role alone.
pub open spec fn claims_allow(
    claims: crate::jwt::ClaimsView,
    role: Role,
    required_agent_id: Option<Seq<char>>,
) -> bool {
    &&& claims.sub == role.name()
    &&& match required_agent_id {
        Some(id) => claims.agent_id == "*"@ || claims.agent_id == id,
        None => true,
    }
}

impl Claims {
    /// Whether the claims admit a caller in a role.
    pub fn allow(&self, role: Role, required_agent_id: Option<&str>) -> (r: bool)
        ensures
            r == claims_allow(self@, role, text_view(required_agent_id)),
    {
        let role_ok = same_text(self.sub.as_str(), role.as_str());
        let scope_ok = match required_agent_id {
            Some(id) => same_text(self.agent_id.as_str(), "*") || same_text(
                self.agent_id.as_str(),
                id,
            ),
            None => true,
        };
        role_ok && scope_ok
    }
}

impl AuthConfig {
    /// No mechanism is configured.
    pub open spec fn is_open(self) -> bool {
        self.static_token is None && self.jwt_key is None
    }

    /// The bearer token is the static token.
    pub open spec fn static_admits(self, bearer: Option<Seq<char>>) -> bool {
        self.static_token is Some && bearer == Some(self.static_token->0@)
    }

    /// The caller brought a token, a key is configured, and the claims that it
    /// vouches for admit the caller.
    pub open spec fn jwt_admits(
        self,
        bearer: Option<Seq<char>>,
        claims: Option<crate::jwt::ClaimsView>,
        role: Role,
        required_agent_id: Option<Seq<char>>,
    ) -> bool {
        &&& self.jwt_key is Some
        &&& bearer is Some
        &&& claims is Some
        &&& claims_allow(claims->0, role, required_agent_id)
    }

    /// Whether a caller passes who brought a bearer token, given the claims
    /// that were verified from it.
    pub open spec fn admits(
        self,
        bearer: Option<Seq<char>>,
        claims: Option<crate::jwt::ClaimsView>,
        role: Role,
        required_agent_id: Option<Seq<char>>,
    ) -> bool {
        ||| self.is_open()
        ||| self.static_admits(bearer)
        ||| self.jwt_admits(bearer, claims, role, required_agent_id)
    }

    /// The claims that the configured key vouches for in a bearer token.
    pub open spec fn vouched(self, bearer: Option<Seq<char>>) -> Option<crate::jwt::ClaimsView> {
        match (bearer, self.jwt_key) {
            (Some(token), Some(key)) => crate::jwt::vouched_claims(token, key),
            _ => None,
        }
    }

    /// Starts to admit tokens that verify under a key.
    pub fn install_key(&mut self, key: DecodingKey)
        ensures
            final(self).jwt_key == Some(key),
            final(self).static_token == old(self).static_token,
    {
        self.jwt_key = Some(key);
    }
}

/// `ConstantTimeEq::ct_eq` on byte slices: whether they are equal, found
/// without a branch on their contents.
#[verifier::external_body]
fn constant_time_eq(a: &[u8], b: &[u8]) -> (r: bool)
    ensures
        r == (a@ == b@),
{
    bool::from(a.ct_eq(b))
}

/// Whether a verdict is the one on a caller who brought a bearer token, for some
/// outcome that the decoder may come to on it. Without a token or a key there is
/// nothing to decode.
pub open spec fn is_verdict(
    auth: AuthConfig,
    bearer: Option<Seq<char>>,
    role: Role,
    required_agent_id: Option<Seq<char>>,
    admitted: bool,
) -> bool {
    match (bearer, auth.jwt_key) {
        (Some(token), Some(key)) => exists|outcome: Result<(), jsonwebtoken::errors::Error>|
            #[trigger] crate::jwt::may_come_to(token, key, outcome) && admitted == auth.admits(
                bearer,
                crate::jwt::claims_upon(token, outcome),
                role,
                required_agent_id,
            ),
        _ => admitted == auth.admits(bearer, None, role, required_agent_id),
    }
}

/// Decides on a caller from the bearer token and the claims that were verified
/// from it.
pub fn decide(
    auth: &AuthConfig,
    bearer: Option<&str>,
    claims: Option<&Claims>,
    role: Role,
    required_agent_id: Option<&str>,
) -> (r: Result<(), Unauthorized>)
    ensures
        r is Ok <==> auth.admits(
            text_view(bearer),
            claims_view(claims),
            role,
            text_view(required_agent_id),
        ),
{
    if auth.static_token.is_none() && auth.jwt_key.is_none() {
        return Ok(());
    }
    let token = match bearer {
        Some(token) => token,
        None => {
            return Err(Unauthorized);
        },
    };
    if let Some(expected) = &auth.static_token {
        proof {
            crate::text::lemma_utf8_injective(expected@, token@);
        }
        if constant_time_eq(expected.as_str().as_bytes(), token.as_bytes()) {
            return Ok(());
        }
    }
    if auth.jwt_key.is_some() {
        if let Some(claims) = claims {
            if claims.allow(role, required_agent_id) {
                return Ok(());
            }
        }
    }
    Err(Unauthorized)
}

/// Admits or rejects one request.
///
/// `required_agent_id` is the agent that the caller acts on: the one that it
/// registers as or asks for. A caller whom no claims are needed for is admitted
/// in any case; beyond these, nobody passes but by claims that the configured
/// key vouches for.
pub fn authorize(
    auth: &AuthConfig,
    headers: &HeaderMap,
    role: Role,
    required_agent_id: Option<&str>,
) -> (r: Result<(), Unauthorized>)
    ensures
        auth.admits(
            crate::headers::bearer_of(*headers),
            None,
            role,
            text_view(required_agent_id),
        ) ==> r is Ok,
        r is Ok ==> auth.admits(
            crate::headers::bearer_of(*headers),
            auth.vouched(crate::headers::bearer_of(*headers)),
            role,
            text_view(required_agent_id),
        ),
        is_verdict(
            *auth,
            crate::headers::bearer_of(*headers),
            role,
            text_view(required_agent_id),
            r is Ok,
        ),
{
    let bearer = bearer_token(headers);
    match decide(auth, bearer, None, role, required_agent_id) {
        Ok(()) => {
            proof {
                if bearer is Some && auth.jwt_key is Some {
                    lemma_decoder_comes_to_something(bearer->0@, auth.jwt_key->0);
                }
            }
            Ok(())
        },
        Err(refused) => match (bearer, &auth.jwt_key) {
            (Some(token), Some(key)) => {
                let claims = verify_token(token, key);
                decide(auth, bearer, claims.as_ref(), role, required_agent_id)
            },
            _ => Err(refused),
        },
    }
}

proof fn lemma_decoder_comes_to_something(token: Seq<char>, key: DecodingKey)
    ensures
        exists|outcome: Result<(), jsonwebtoken::errors::Error>| #[trigger]
            crate::jwt::may_come_to(token, key, outcome),
{
    let error: jsonwebtoken::errors::Error = arbitrary();
    if crate::jwt::is_signed(token, key) {
        assert(crate::jwt::may_come_to(token, key, Ok(())));
    } else {
        assert(crate::jwt::may_come_to(token, key, Err(error)));
    }
}

/// Where a request goes.
#[derive(Clone, Copy)]
pub enum Endpoint<'a> {
    /// An agent registers and waits for connection requests.
    Control { agent_id: &'a str },
    /// A manager asks for a connection to an agent.
    ManagerRequest { agent_id: &'a str },
    /// An agent brings the data socket of one session. The session was opened
    /// by a manager who was admitted for the agent, so the role is enough.
    AgentData,
}

impl<'a> Endpoint<'a> {
    /// The role that an endpoint is for.
    pub open spec fn spec_role(self) -> Role {
        match self {
            Endpoint::Control { .. } => Role::Agent,
            Endpoint::ManagerRequest { .. } => Role::Manager,
            Endpoint::AgentData => Role::Agent,
        }
    }

    /// The agent that a caller of an endpoint acts on.
    pub open spec fn spec_agent_id(self) -> Option<Seq<char>> {
        match self {
            Endpoint::Control { agent_id } => Some(agent_id@),
            Endpoint::ManagerRequest { agent_id } => Some(agent_id@),
            Endpoint::AgentData => None,
        }
    }

    /// The role that an endpoint is for.
    pub fn role(self) -> (r: Role)
        ensures
            r == self.spec_role(),
    {
        match self {
            Endpoint::Control { .. } => Role::Agent,
            Endpoint::ManagerRequest { .. } => Role::Manager,
            Endpoint::AgentData => Role::Agent,
        }
    }

    /// The agent that a caller of an endpoint acts on.
    pub fn required_agent_id(self) -> (r: Option<&'a str>)
        ensures
            text_view(r) == self.spec_agent_id(),
    {
        match self {
            Endpoint::Control { agent_id } => Some(agent_id),
            Endpoint::ManagerRequest { agent_id } => Some(agent_id),
            Endpoint::AgentData => None,
        }
    }
}

/// Admits or rejects a request to an endpoint.
pub fn authorize_endpoint(auth: &AuthConfig, headers: &HeaderMap, endpoint: Endpoint) -> (r: Result<
    (),
    Unauthorized,
>)
    ensures
        auth.admits(
            crate::headers::bearer_of(*headers),
            None,
            endpoint.spec_role(),
            endpoint.spec_agent_id(),
        ) ==> r is Ok,
        r is Ok ==> auth.admits(
            crate::headers::bearer_of(*headers),
            auth.vouched(crate::headers::bearer_of(*headers)),
            endpoint.spec_role(),
            endpoint.spec_agent_id(),
        ),
        is_verdict(
            *auth,
            crate::headers::bearer_of(*headers),
            endpoint.spec_role(),
            endpoint.spec_agent_id(),
            r is Ok,
        ),
{
    authorize(auth, headers, endpoint.role(), endpoint.required_agent_id())
}

/// With no mechanism configured every caller passes.
pub proof fn law_open_relay_admits_everybody(
    auth: AuthConfig,
    bearer: Option<Seq<char>>,
    claims: Option<crate::jwt::ClaimsView>,
    role: Role,
    required_agent_id: Option<Seq<char>>,
)
    requires
        auth.static_token is None,
        auth.jwt_key is None,
    ensures
        auth.admits(bearer, claims, role, required_agent_id),
{
}

/// Once a mechanism is configured, nobody passes without a bearer token.
pub proof fn law_configured_relay_wants_a_token(
    auth: AuthConfig,
    claims: Option<crate::jwt::ClaimsView>,
    role: Role,
    required_agent_id: Option<Seq<char>>,
)
    requires
        auth.static_token is Some || auth.jwt_key is Some,
    ensures
        !auth.admits(None, claims, role, required_agent_id),
{
}

/// The static token admits in every role and for every agent, whatever else is
/// configured.
pub proof fn law_static_token_admits_in_every_role(
    auth: AuthConfig,
    claims: Option<crate::jwt::ClaimsView>,
    role: Role,
    required_agent_id: Option<Seq<char>>,
)
    requires
        auth.static_token is Some,
    ensures
        auth.admits(Some(auth.static_token->0@), claims, role, required_agent_id),
{
}

/// The two mechanisms are independent: a relay that has both admits exactly
/// those callers whom a relay with one of them alone would admit.
pub proof fn law_either_mechanism_suffices(
    auth: AuthConfig,
    bearer: Option<Seq<char>>,
    claims: Option<crate::jwt::ClaimsView>,
    role: Role,
    required_agent_id: Option<Seq<char>>,
)
    requires
        auth.static_token is Some,
        auth.jwt_key is Some,
    ensures
        auth.admits(bearer, claims, role, required_agent_id) <==> {
            ||| (AuthConfig { static_token: auth.static_token, jwt_key: None }).admits(
                bearer,
                claims,
                role,
                required_agent_id,
            )
            ||| (AuthConfig { static_token: None, jwt_key: auth.jwt_key }).admits(
                bearer,
                claims,
                role,
                required_agent_id,
            )
        },
{
}

/// A signed token for one role admits in no other.
pub proof fn law_token_of_another_role_is_refused(
    auth: AuthConfig,
    bearer: Option<Seq<char>>,
    claims: crate::jwt::ClaimsView,
    held: Role,
    wanted: Role,
    required_agent_id: Option<Seq<char>>,
)
    requires
        !auth.is_open(),
        !auth.static_admits(bearer),
        claims.sub == held.name(),
        held != wanted,
    ensures
        !auth.admits(bearer, Some(claims), wanted, required_agent_id),
{
    reveal_strlit("agent");
    reveal_strlit("manager");
    assert("agent"@.len() == 5);
    assert("manager"@.len() == 7);
}

/// A signed token for one agent admits for no other agent.
pub proof fn law_token_for_another_agent_is_refused(
    auth: AuthConfig,
    bearer: Option<Seq<char>>,
    claims: crate::jwt::ClaimsView,
    role: Role,
    agent_id: Seq<char>,
)
    requires
        !auth.is_open(),
        !auth.static_admits(bearer),
        claims.agent_id != "*"@,
        claims.agent_id != agent_id,
    ensures
        !auth.admits(bearer, Some(claims), role, Some(agent_id)),
{
}

/// A manager's token for one agent cannot register any agent, and cannot reach
/// any agent but its own.
pub proof fn law_manager_token_is_confined(
    auth: AuthConfig,
    bearer: Option<Seq<char>>,
    claims: crate::jwt::ClaimsView,
    agent_id: Seq<char>,
)
    requires
        !auth.is_open(),
        !auth.static_admits(bearer),
        claims.sub == Role::Manager.name(),
        claims.agent_id != "*"@,
    ensures
        !auth.admits(bearer, Some(claims), Role::Agent, Some(agent_id)),
        !auth.admits(bearer, Some(claims), Role::Agent, None),
        auth.admits(bearer, Some(claims), Role::Manager, Some(agent_id)) ==> agent_id
            == claims.agent_id,
{
    law_token_of_another_role_is_refused(
        auth,
        bearer,
        claims,
        Role::Manager,
        Role::Agent,
        Some(agent_id),
    );
    law_token_of_another_role_is_refused(auth, bearer, claims, Role::Manager, Role::Agent, None);
}

/// A signed token in the right role admits for its own agent, for any agent
/// where it is for all of them, and where no agent is asked for.
pub proof fn law_signed_token_admits_in_its_scope(
    auth: AuthConfig,
    bearer: Seq<char>,
    claims: crate::jwt::ClaimsView,
    role: Role,
    agent_id: Seq<char>,
)
    requires
        auth.jwt_key is Some,
        claims.sub == role.name(),
    ensures
        auth.admits(Some(bearer), Some(claims), role, Some(claims.agent_id)),
        auth.admits(Some(bearer), Some(claims), role, None),
        claims.agent_id == "*"@ ==> auth.admits(Some(bearer), Some(claims), role, Some(agent_id)),
{
}

/// Installing a key closes an open relay to callers without a token at once,
/// and takes nothing from the holders of a static token.
pub proof fn law_installed_key_is_enforced(
    before: AuthConfig,
    after: AuthConfig,
    key: DecodingKey,
    bearer: Option<Seq<char>>,
    claims: Option<crate::jwt::ClaimsView>,
    role: Role,
    required_agent_id: Option<Seq<char>>,
)
    requires
        after.jwt_key == Some(key),
        after.static_token == before.static_token,
    ensures
        !after.admits(None, claims, role, required_agent_id),
        before.static_admits(bearer) ==> after.admits(bearer, claims, role, required_agent_id),
{
}

/// Given the claims that were verified, a caller passes exactly where no mechanism
/// is configured, where the bearer token is the static token to the letter, or
/// where a key is configured and the claims state the role by its name and the
/// agent, or `*` for any agent, unless none is asked for.
pub proof fn law_caller_passes_by_token_or_claims(
    auth: AuthConfig,
    bearer: Option<&str>,
    claims: Option<&Claims>,
    role: Role,
    required_agent_id: Option<&str>,
    verdict: Result<(), Unauthorized>,
)
    requires
        call_ensures(decide, (&auth, bearer, claims, role, required_agent_id), verdict),
    ensures
        verdict is Ok <==> {
            ||| auth.static_token is None && auth.jwt_key is None
            ||| {
                &&& auth.static_token is Some && bearer is Some
                &&& bearer->0@ == auth.static_token->0@
            }
            ||| {
                &&& auth.jwt_key is Some && bearer is Some && claims is Some
                &&& role == Role::Agent ==> claims->0.sub@ == "agent"@
                &&& role == Role::Manager ==> claims->0.sub@ == "manager"@
                &&& required_agent_id is Some ==> claims->0.agent_id@ == "*"@
                    || claims->0.agent_id@ == required_agent_id->0@
            }
        },
{
    if let Some(claims) = claims {
        assert(claims_view(Some(claims)) == Some(claims@));
    }
}

/// Claims admit in the role that they name, for the agent that they name or, by
/// `*`, for any, and in no other case.
pub proof fn law_claims_admit_in_role_and_scope(
    claims: Claims,
    role: Role,
    required_agent_id: Option<&str>,
    allowed: bool,
)
    requires
        call_ensures(Claims::allow, (&claims, role, required_agent_id), allowed),
    ensures
        allowed <==> {
            &&& role == Role::Agent ==> claims.sub@ == "agent"@
            &&& role == Role::Manager ==> claims.sub@ == "manager"@
            &&& required_agent_id is Some ==> claims.agent_id@ == "*"@ || claims.agent_id@
                == required_agent_id->0@
        },
{
}

/// Nobody passes a relay that has a mechanism but by the static token, or by a
/// token that is signed under the configured key and makes claims of the role and
/// the agent.
pub proof fn law_admission_needs_a_reason(
    auth: AuthConfig,
    headers: HeaderMap,
    role: Role,
    required_agent_id: Option<&str>,
    verdict: Result<(), Unauthorized>,
    bearer: Option<&str>,
    made: Option<Claims>,
)
    requires
        call_ensures(authorize, (&auth, &headers, role, required_agent_id), verdict),
        call_ensures(bearer_token, (&headers,), bearer),
        bearer is Some ==> call_ensures(Claims::from_token, (bearer->0,), made),
        verdict is Ok,
        auth.static_token is Some || auth.jwt_key is Some,
    ensures
        bearer is Some,
        auth.static_token is Some && bearer->0@ == auth.static_token->0@ || {
            &&& auth.jwt_key is Some && crate::jwt::is_signed(bearer->0@, auth.jwt_key->0)
            &&& made is Some
            &&& role == Role::Agent ==> made->0.sub@ == "agent"@
            &&& role == Role::Manager ==> made->0.sub@ == "manager"@
            &&& required_agent_id is Some ==> made->0.agent_id@ == "*"@ || made->0.agent_id@
                == required_agent_id->0@
        },
{
    if let Some(claims) = made {
        assert(claims@.sub == claims.sub@ && claims@.agent_id == claims.agent_id@);
    }
}

/// Everybody passes an open relay, and everybody who brings the static token. A
/// token that is signed under the configured key and makes claims of the role and
/// the agent passes too, unless the decoder said that it has expired.
pub proof fn law_good_token_is_admitted(
    auth: AuthConfig,
    headers: HeaderMap,
    role: Role,
    required_agent_id: Option<&str>,
    verdict: Result<(), Unauthorized>,
    bearer: Option<&str>,
    made: Option<Claims>,
)
    requires
        call_ensures(authorize, (&auth, &headers, role, required_agent_id), verdict),
        call_ensures(bearer_token, (&headers,), bearer),
        bearer is Some ==> call_ensures(Claims::from_token, (bearer->0,), made),
    ensures
        auth.static_token is None && auth.jwt_key is None ==> verdict is Ok,
        auth.static_token is Some && bearer is Some && bearer->0@ == auth.static_token->0@
            ==> verdict is Ok,
        verdict is Err && {
            &&& auth.jwt_key is Some && bearer is Some
            &&& crate::jwt::is_signed(bearer->0@, auth.jwt_key->0)
            &&& made is Some
            &&& role == Role::Agent ==> made->0.sub@ == "agent"@
            &&& role == Role::Manager ==> made->0.sub@ == "manager"@
            &&& required_agent_id is Some ==> made->0.agent_id@ == "*"@ || made->0.agent_id@
                == required_agent_id->0@
        } ==> exists|error: jsonwebtoken::errors::Error| #[trigger]
            crate::jwt::token_error_text(error) == "ExpiredSignature"@,
{
    if verdict is Err && auth.jwt_key is Some && bearer is Some {
        let (token, key) = (bearer->0@, auth.jwt_key->0);
        let outcome = choose|outcome: Result<(), jsonwebtoken::errors::Error>| #[trigger]
            crate::jwt::may_come_to(token, key, outcome) && (verdict is Ok) == auth.admits(
                Some(token),
                crate::jwt::claims_upon(token, outcome),
                role,
                text_view(required_agent_id),
            );
        if let Err(error) = outcome {
            assert(crate::jwt::is_signed(token, key) ==> crate::jwt::token_error_text(error)
                == "ExpiredSignature"@);
        } else if let Some(claims) = made {
            assert(claims@.sub == claims.sub@ && claims@.agent_id == claims.agent_id@);
        }
    }
}

/// An endpoint admits whom it is for: an agent that registers, under the
/// identifier that it registers; a manager, for the agent that it asks for; and an
/// agent with a data socket, for none in particular.
pub proof fn law_endpoints_are_for_their_callers(
    endpoint: Endpoint,
    role: Role,
    required_agent_id: Option<&str>,
)
    requires
        call_ensures(Endpoint::role, (endpoint,), role),
        call_ensures(Endpoint::required_agent_id, (endpoint,), required_agent_id),
    ensures
        role == Role::Manager <==> endpoint is ManagerRequest,
        required_agent_id is None <==> endpoint is AgentData,
        endpoint matches Endpoint::Control { agent_id } ==> required_agent_id->0@ == agent_id@,
        endpoint matches Endpoint::ManagerRequest { agent_id } ==> required_agent_id->0@
            == agent_id@,
{
}

/// A request to an endpoint is answered as one in the endpoint's role for the
/// endpoint's agent: whatever verdict comes out, that request may get it.
pub proof fn law_endpoint_is_authorized_in_its_role(
    auth: AuthConfig,
    headers: HeaderMap,
    endpoint: Endpoint,
    verdict: Result<(), Unauthorized>,
    bearer: Option<&str>,
)
    requires
        call_ensures(authorize_endpoint, (&auth, &headers, endpoint), verdict),
        call_ensures(bearer_token, (&headers,), bearer),
    ensures
        is_verdict(
            auth,
            text_view(bearer),
            if endpoint is ManagerRequest {
                Role::Manager
            } else {
                Role::Agent
            },
            match endpoint {
                Endpoint::Control { agent_id } => Some(agent_id@),
                Endpoint::ManagerRequest { agent_id } => Some(agent_id@),
                Endpoint::AgentData => None,
            },
            verdict is Ok,
        ),
{
    assert(text_view(bearer) == crate::headers::bearer_of(headers));
}

} // verus!

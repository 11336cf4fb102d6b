//! Tokens signed by a control plane: keys, signatures and claims.

use crate::base64::decode;
use crate::object::{find_sole, number_at, read_members, text_at};
use jsonwebtoken::DecodingKey;
use vstd::prelude::*;
use vstd::slice::slice_subrange;

verus! {

/// A public key that verifies tokens.
#[verifier::external_type_specification]
#[verifier::external_body]
pub struct ExDecodingKey(jsonwebtoken::DecodingKey);

/// Why a key or a token was not accepted.
#[verifier::external_type_specification]
#[verifier::external_body]
pub struct ExTokenError(jsonwebtoken::errors::Error);

/// What [`DecodingKey::from_ed_pem`] makes of a PEM file.
pub uninterp spec fn ed_key(pem: Seq<u8>) -> Result<DecodingKey, jsonwebtoken::errors::Error>;

/// How a token error reads.
pub uninterp spec fn token_error_text(error: jsonwebtoken::errors::Error) -> Seq<char>;

/// Whether a token names EdDSA as its algorithm, carries a signature that
/// verifies under a key, and makes claims in JSON that hold an expiry date and no
/// audience: what [`jsonwebtoken::decode`] accepts as long as the token has not
/// expired.
pub uninterp spec fn is_signed(token: Seq<char>, key: DecodingKey) -> bool;

/// [`DecodingKey::from_ed_pem`]: the Ed25519 public key in a PEM file, or why
/// there is none. It depends on the file's bytes alone.
#[verifier::external_body]
fn ed_key_from_pem(pem: &[u8]) -> (r: Result<DecodingKey, jsonwebtoken::errors::Error>)
    ensures
        r == ed_key(pem@),
{
    DecodingKey::from_ed_pem(pem)
}

/// The `Display` text of a [`jsonwebtoken::errors::Error`], which depends on
/// the error alone.
#[verifier::external_body]
fn describe(error: &jsonwebtoken::errors::Error) -> (r: String)
    ensures
        r@ == token_error_text(*error),
{
    error.to_string()
}

/// [`jsonwebtoken::decode`] under the default validation for EdDSA, with no
/// demand of its own on what else is claimed. It accepts none but signed tokens.
/// A signed token is refused for one reason alone, that it has expired. Whether it
/// has is not stated: its expiry date is held against the clock, with a minute's
/// grace. The call can panic on a machine whose clock stands before 1970 or in its
/// first minute.
#[verifier::external_body]
fn decode_eddsa(token: &str, key: &DecodingKey) -> (r: Result<(), jsonwebtoken::errors::Error>)
    ensures
        r is Ok ==> is_signed(token@, *key),
        r matches Err(error) ==> !is_signed(token@, *key) || token_error_text(error)
            == "ExpiredSignature"@,
{
    let validation = jsonwebtoken::Validation::new(jsonwebtoken::Algorithm::EdDSA);
    match jsonwebtoken::decode::<serde::de::IgnoredAny>(token, key, &validation) {
        Ok(_) => Ok(()),
        Err(error) => Err(error),
    }
}

/// Why a PEM file holds no usable key.
pub struct KeyError {
    pub reason: String,
}

/// Names what came out of reading a key file.
pub fn accept_key(read: Result<DecodingKey, jsonwebtoken::errors::Error>) -> (r: Result<
    DecodingKey,
    KeyError,
>)
    ensures
        match read {
            Ok(key) => r == Ok::<DecodingKey, KeyError>(key),
            Err(error) => r is Err && r->Err_0.reason@ == token_error_text(error),
        },
{
    match read {
        Ok(key) => Ok(key),
        Err(error) => Err(KeyError { reason: describe(&error) }),
    }
}

/// Reads an Ed25519 public key from a PEM file.
pub fn load_key(pem: &[u8]) -> (r: Result<DecodingKey, KeyError>)
    ensures
        match ed_key(pem@) {
            Ok(key) => r == Ok::<DecodingKey, KeyError>(key),
            Err(error) => r is Err && r->Err_0.reason@ == token_error_text(error),
        },
{
    accept_key(ed_key_from_pem(pem))
}

/// What a token says of its bearer: `sub` is the role, `agent_id` the agent
/// that the token is for (or `*` for any), and `exp` when it expires.
pub struct Claims {
    pub sub: String,
    pub agent_id: String,
    pub exp: usize,
}

/// [`Claims`] as mathematical values.
pub struct ClaimsView {
    pub sub: Seq<char>,
    pub agent_id: Seq<char>,
    pub exp: usize,
}

impl View for Claims {
    type V = ClaimsView;

    open spec fn view(&self) -> ClaimsView {
        ClaimsView { sub: self.sub@, agent_id: self.agent_id@, exp: self.exp }
    }
}

/// The claims that some JSON states: those of an object in which `sub` and
/// `agent_id` are strings and `exp` is an unsigned integer. Each must occur once
/// and once only; other members may hold anything.
pub open spec fn claims_in(json: Seq<u8>) -> Option<ClaimsView> {
    match crate::object::members(json) {
        Some(members) => match (
            crate::object::sole_value(members, "sub"@),
            crate::object::sole_value(members, "agent_id"@),
            crate::object::sole_value(members, "exp"@),
        ) {
            (Some(sub), Some(agent_id), Some(exp)) => match (
                crate::object::leading_text(json.skip(sub)),
                crate::object::leading_text(json.skip(agent_id)),
                crate::object::leading_number(json.skip(exp)),
            ) {
                (Some(sub), Some(agent_id), Some(exp)) => if exp <= usize::MAX {
                    Some(ClaimsView { sub, agent_id, exp: exp as usize })
                } else {
                    None
                },
                _ => None,
            },
            _ => None,
        },
        None => None,
    }
}

/// Where the last dot of a text stands, or -1 where there is none.
pub open spec fn last_dot(text: Seq<u8>) -> int
    decreases text.len(),
{
    if text.len() == 0 {
        -1
    } else if text.last() == 46 {
        text.len() - 1
    } else {
        last_dot(text.drop_last())
    }
}

/// The part of a token that makes its claims: what stands between its last two
/// dots.
pub open spec fn claims_part(token: Seq<u8>) -> Option<Seq<u8>> {
    let end = last_dot(token);
    let start = last_dot(token.take(end));
    if 0 <= end && 0 <= start {
        Some(token.subrange(start + 1, end))
    } else {
        None
    }
}

/// The claims that a token makes, whoever signed it.
pub open spec fn token_claims(token: Seq<char>) -> Option<ClaimsView> {
    match claims_part(vstd::utf8::encode_utf8(token)) {
        Some(part) => match crate::base64::decoded(part) {
            Some(json) => claims_in(json),
            None => None,
        },
        None => None,
    }
}

/// The claims that the bearer of a token may rely on under a key.
pub open spec fn vouched_claims(token: Seq<char>, key: DecodingKey) -> Option<ClaimsView> {
    if is_signed(token, key) {
        token_claims(token)
    } else {
        None
    }
}

/// Whether the decoder may come to an outcome on a token: it accepts none but
/// signed ones, and refuses a signed one for no reason but that it has expired.
pub open spec fn may_come_to(
    token: Seq<char>,
    key: DecodingKey,
    outcome: Result<(), jsonwebtoken::errors::Error>,
) -> bool {
    match outcome {
        Ok(_) => is_signed(token, key),
        Err(error) => !is_signed(token, key) || token_error_text(error) == "ExpiredSignature"@,
    }
}

/// The claims that come out where the decoder came to an outcome.
pub open spec fn claims_upon(
    token: Seq<char>,
    outcome: Result<(), jsonwebtoken::errors::Error>,
) -> Option<ClaimsView> {
    match outcome {
        Ok(_) => token_claims(token),
        Err(_) => None,
    }
}

/// Optional claims as mathematical values.
pub open spec fn opt_claims(claims: Option<Claims>) -> Option<ClaimsView> {
    match claims {
        Some(claims) => Some(claims@),
        None => None,
    }
}

/// Finds the last dot before a place.
fn find_dot(text: &[u8], end: usize) -> (r: Option<usize>)
    requires
        end <= text@.len(),
    ensures
        match r {
            Some(dot) => dot < end && last_dot(text@.take(end as int)) == dot,
            None => last_dot(text@.take(end as int)) < 0,
        },
{
    let mut i: usize = end;
    while i > 0
        invariant
            i <= end <= text@.len(),
            last_dot(text@.take(i as int)) == last_dot(text@.take(end as int)),
        decreases i,
    {
        assert(text@.take(i as int).drop_last() =~= text@.take(i - 1));
        if text[i - 1] == 46 {
            return Some(i - 1);
        }
        i -= 1;
    }
    None
}

impl Claims {
    /// Reads the claims that some JSON states.
    pub fn from_json(json: &[u8]) -> (r: Option<Claims>)
        ensures
            r is Some <==> claims_in(json@) is Some,
            r matches Some(claims) ==> claims_in(json@) == Some(claims@),
    {
        let members = match read_members(json) {
            Some(members) => members,
            None => {
                return None;
            },
        };
        match (
            find_sole(&members, "sub"),
            find_sole(&members, "agent_id"),
            find_sole(&members, "exp"),
        ) {
            (Some(sub), Some(agent_id), Some(exp)) => match (
                text_at(json, sub),
                text_at(json, agent_id),
                number_at(json, exp),
            ) {
                (Some(sub), Some(agent_id), Some(exp)) => if exp <= usize::MAX as u64 {
                    Some(Claims { sub, agent_id, exp: exp as usize })
                } else {
                    None
                },
                _ => None,
            },
            _ => None,
        }
    }

    /// Reads the claims that a token makes. Nothing is asked of its signature.
    pub fn from_token(token: &str) -> (r: Option<Claims>)
        ensures
            r is Some <==> token_claims(token@) is Some,
            r matches Some(claims) ==> token_claims(token@) == Some(claims@),
    {
        let text = token.as_bytes();
        assert(text@.take(text@.len() as int) =~= text@);
        let end = match find_dot(text, text.len()) {
            Some(end) => end,
            None => {
                return None;
            },
        };
        let start = match find_dot(text, end) {
            Some(start) => start,
            None => {
                return None;
            },
        };
        match decode(slice_subrange(text, start + 1, end)) {
            Some(json) => Claims::from_json(json.as_slice()),
            None => None,
        }
    }
}

/// Takes what came out of verifying a token: the claims that it makes, and none
/// where it was refused.
pub fn accept_claims(verified: Result<(), jsonwebtoken::errors::Error>, token: &str) -> (r: Option<
    Claims,
>)
    ensures
        match (verified, r) {
            (Ok(_), Some(claims)) => token_claims(token@) == Some(claims@),
            (Ok(_), None) => token_claims(token@) is None,
            (Err(_), _) => r is None,
        },
        opt_claims(r) == claims_upon(token@, verified),
{
    match verified {
        Ok(_) => Claims::from_token(token),
        Err(_) => None,
    }
}

/// Verifies a token and reads its claims. What comes out are claims that the
/// key vouches for; a token that the clock has overtaken brings none.
pub fn verify_token(token: &str, key: &DecodingKey) -> (r: Option<Claims>)
    ensures
        r matches Some(claims) ==> vouched_claims(token@, *key) == Some(claims@),
        exists|outcome: Result<(), jsonwebtoken::errors::Error>|
            may_come_to(token@, *key, outcome) && opt_claims(r) == #[trigger] claims_upon(
                token@,
                outcome,
            ),
{
    accept_claims(decode_eddsa(token, key), token)
}

/// A claim that is made twice counts for nothing: such a token brings no claims,
/// whichever of the two values suits its bearer.
pub proof fn law_repeated_claim_is_refused(json: Seq<u8>, name: Seq<char>, i: int, j: int)
    requires
        name == "sub"@ || name == "agent_id"@ || name == "exp"@,
        crate::object::members(json) is Some,
        0 <= i < j < crate::object::members(json)->0.len(),
        crate::object::members(json)->0[i].name == name,
        crate::object::members(json)->0[j].name == name,
    ensures
        claims_in(json) is None,
{
    crate::object::law_repeated_name_has_no_value(crate::object::members(json)->0, name, i, j);
}

/// A token that makes claims brings exactly these where it is signed, and is
/// refused then for one reason alone, that it has expired; one that is not signed
/// brings none.
pub proof fn law_signed_token_brings_its_claims(
    token: &str,
    key: DecodingKey,
    verified: Option<Claims>,
    made: Option<Claims>,
)
    requires
        call_ensures(verify_token, (token, &key), verified),
        call_ensures(Claims::from_token, (token,), made),
    ensures
        verified matches Some(claims) ==> {
            &&& is_signed(token@, key)
            &&& made is Some
            &&& claims.sub@ == made->0.sub@
            &&& claims.agent_id@ == made->0.agent_id@
            &&& claims.exp == made->0.exp
        },
        is_signed(token@, key) && made is Some && verified is None ==> exists|
            error: jsonwebtoken::errors::Error,
        | #[trigger] token_error_text(error) == "ExpiredSignature"@,
{
    if let Some(claims) = verified {
        assert(claims@ == made->0@);
    } else {
        let outcome = choose|outcome: Result<(), jsonwebtoken::errors::Error>|
            may_come_to(token@, key, outcome) && opt_claims(verified) == #[trigger] claims_upon(
                token@,
                outcome,
            );
        if is_signed(token@, key) && made is Some {
            assert(outcome is Err);
            assert(token_error_text(outcome->Err_0) == "ExpiredSignature"@);
        }
    }
}

/// A token that was accepted brings the claims that it makes, whatever their
/// expiry date, and one that was refused brings none.
pub proof fn law_accepted_token_brings_its_claims(
    verified: Result<(), jsonwebtoken::errors::Error>,
    token: &str,
    accepted: Option<Claims>,
    made: Option<Claims>,
)
    requires
        call_ensures(accept_claims, (verified, token), accepted),
        call_ensures(Claims::from_token, (token,), made),
    ensures
        accepted is Some <==> verified is Ok && made is Some,
        accepted matches Some(claims) ==> {
            &&& claims.sub@ == made->0.sub@
            &&& claims.agent_id@ == made->0.agent_id@
            &&& claims.exp == made->0.exp
        },
{
    if let Some(claims) = accepted {
        assert(claims@ == made->0@);
    }
}

proof fn lemma_last_dot(front: Seq<u8>, back: Seq<u8>)
    requires
        forall|i: int| 0 <= i < back.len() ==> #[trigger] back[i] != 46,
    ensures
        last_dot(front + seq![46u8] + back) == front.len(),
    decreases back.len(),
{
    let whole = front + seq![46u8] + back;
    if back.len() > 0 {
        assert(whole.last() == back[back.len() - 1]);
        assert(whole.drop_last() =~= front + seq![46u8] + back.drop_last());
        assert forall|i: int| 0 <= i < back.drop_last().len() implies #[trigger] back.drop_last()[i]
            != 46 by {
            assert(back[i] != 46);
        }
        lemma_last_dot(front, back.drop_last());
    } else {
        assert(whole.last() == 46);
    }
}

/// A token is what it is headed by, its claims and its signature, with dots in
/// between; the claims are the ones that the middle part encodes.
pub proof fn law_claims_stand_in_the_middle_part(
    token: &str,
    head: Seq<u8>,
    part: &[u8],
    signature: Seq<u8>,
    made: Option<Claims>,
    json: Option<Vec<u8>>,
    slice: &[u8],
    stated: Option<Claims>,
)
    requires
        vstd::utf8::encode_utf8(token@) == head + seq![46u8] + part@ + seq![46u8] + signature,
        forall|i: int| 0 <= i < part@.len() ==> #[trigger] part@[i] != 46,
        forall|i: int| 0 <= i < signature.len() ==> #[trigger] signature[i] != 46,
        call_ensures(Claims::from_token, (token,), made),
        call_ensures(decode, (part,), json),
        json is Some ==> slice@ == json->0@,
        call_ensures(Claims::from_json, (slice,), stated),
    ensures
        made is Some <==> json is Some && stated is Some,
        made matches Some(claims) ==> {
            &&& claims.sub@ == stated->0.sub@
            &&& claims.agent_id@ == stated->0.agent_id@
            &&& claims.exp == stated->0.exp
        },
{
    let bytes = vstd::utf8::encode_utf8(token@);
    let front = head + seq![46u8] + part@;
    lemma_last_dot(front, signature);
    assert(bytes.take(front.len() as int) =~= front);
    lemma_last_dot(head, part@);
    assert(bytes.subrange(head.len() as int + 1, front.len() as int) =~= part@);
    assert(claims_part(bytes) == Some(part@));
    if let Some(claims) = made {
        assert(claims@ == stated->0@);
    }
}

/// Claims are read from every object in which each of the three names occurs once
/// and holds what it should, as they stand there, wherever the names stand and
/// whatever else the object holds.
pub proof fn law_claims_are_read_as_they_stand(
    json: &[u8],
    read: Option<Claims>,
    sub: int,
    agent_id: int,
    exp: int,
)
    requires
        call_ensures(Claims::from_json, (json,), read),
        crate::object::members(json@) is Some,
        ({
            let members = crate::object::members(json@)->0;
            &&& 0 <= sub < members.len() && 0 <= agent_id < members.len() && 0 <= exp
                < members.len()
            &&& forall|i: int|
                0 <= i < members.len() ==> ((#[trigger] members[i]).name == "sub"@ <==> i == sub)
            &&& forall|i: int|
                0 <= i < members.len() ==> ((#[trigger] members[i]).name == "agent_id"@ <==> i
                    == agent_id)
            &&& forall|i: int|
                0 <= i < members.len() ==> ((#[trigger] members[i]).name == "exp"@ <==> i == exp)
        }),
    ensures
        ({
            let members = crate::object::members(json@)->0;
            let role = crate::object::leading_text(json@.skip(members[sub].value));
            let scope = crate::object::leading_text(json@.skip(members[agent_id].value));
            let expiry = crate::object::leading_number(json@.skip(members[exp].value));
            &&& read is Some <==> role is Some && scope is Some && expiry is Some && expiry->0
                <= usize::MAX
            &&& read matches Some(claims) ==> {
                &&& claims.sub@ == role->0
                &&& claims.agent_id@ == scope->0
                &&& claims.exp == expiry->0
            }
        }),
{
    let members = crate::object::members(json@)->0;
    assert(crate::object::occurs_once(members, "sub"@, sub));
    assert(crate::object::occurs_once(members, "agent_id"@, agent_id));
    assert(crate::object::occurs_once(members, "exp"@, exp));
    crate::object::law_sole_name_has_its_value(members, "sub"@, sub);
    crate::object::law_sole_name_has_its_value(members, "agent_id"@, agent_id);
    crate::object::law_sole_name_has_its_value(members, "exp"@, exp);
    if let Some(claims) = read {
        assert(claims@.sub == claims.sub@);
    }
}

/// Claims come from nothing but an object in which each of the three names occurs
/// exactly once.
pub proof fn law_claims_want_each_name_once(json: &[u8], read: Option<Claims>, name: Seq<char>)
    requires
        call_ensures(Claims::from_json, (json,), read),
        name == "sub"@ || name == "agent_id"@ || name == "exp"@,
        read is Some,
    ensures
        crate::object::members(json@) is Some,
        ({
            let members = crate::object::members(json@)->0;
            exists|place: int|
                {
                    &&& 0 <= place < members.len()
                    &&& (#[trigger] members[place]).name == name
                    &&& forall|i: int|
                        0 <= i < members.len() && i != place ==> (#[trigger] members[i]).name
                            != name
                }
        }),
{
    let members = crate::object::members(json@)->0;
    assert(crate::object::sole_value(members, name) is Some);
    let place = choose|place: int| crate::object::occurs_once(members, name, place);
    assert(crate::object::occurs_once(members, name, place));
    assert(members[place].name == name);
}

/// A key file is read as the key that it holds, and a file without one is answered
/// with the reason.
pub proof fn law_key_is_the_one_in_the_file(pem: &[u8], read: Result<DecodingKey, KeyError>)
    requires
        call_ensures(load_key, (pem,), read),
    ensures
        read is Ok <==> ed_key(pem@) is Ok,
        read is Ok ==> read->Ok_0 == ed_key(pem@)->Ok_0,
        read is Err ==> read->Err_0.reason@ == token_error_text(ed_key(pem@)->Err_0),
{
}

} // verus!

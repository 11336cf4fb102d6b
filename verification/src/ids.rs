//! Identifiers of connections and sessions.

use uuid::Uuid;
use vstd::prelude::*;

verus! {

/// Whether a number is a random (version 4) UUID: its version digit is 4 and
/// its variant bits are 10.
pub open spec fn is_random_uuid(id: u128) -> bool {
    id & 0xf000_c000_0000_0000_0000u128 == 0x4000_8000_0000_0000_0000u128
}

/// The hexadecimal digit of a number at a place, counted from the most
/// significant of 32.
pub open spec fn hex_digit_at(id: u128, place: int) -> u128 {
    (id >> ((124 - 4 * place) as u128)) & 0xf
}

/// Which digit of a number stands at an index of its UUID text, which hyphens
/// divide after 8, 12, 16 and 20 digits.
pub open spec fn digit_place(index: int) -> int {
    if index < 8 {
        index
    } else if index < 13 {
        index - 1
    } else if index < 18 {
        index - 2
    } else if index < 23 {
        index - 3
    } else {
        index - 4
    }
}

/// Whether a hyphen stands at an index of a UUID text.
pub open spec fn is_hyphen_at(index: int) -> bool {
    index == 8 || index == 13 || index == 18 || index == 23
}

/// A UUID in its usual form: lower-case hexadecimal digits in groups of 8, 4,
/// 4, 4 and 12.
pub open spec fn uuid_text(id: u128) -> Seq<char> {
    Seq::new(
        36,
        |i: int|
            if is_hyphen_at(i) {
                '-'
            } else {
                crate::json::hex_char(hex_digit_at(id, digit_place(i)) as int)
            },
    )
}

/// [`Uuid::new_v4`]: a random UUID as a number. Nothing is said of its random
/// bits.
#[verifier::external_body]
pub(crate) fn random_uuid() -> (r: u128)
    ensures
        is_random_uuid(r),
{
    Uuid::new_v4().as_u128()
}

/// The `Display` text of a [`Uuid`], which is the hyphenated form.
#[verifier::external_body]
pub(crate) fn hyphenated(id: u128) -> (r: String)
    ensures
        r@ == uuid_text(id),
{
    Uuid::from_u128(id).to_string()
}

/// A token that tells one connection of an agent from another.
pub fn new_connection_token() -> (r: u128)
    ensures
        is_random_uuid(r),
{
    random_uuid()
}

/// The session identifier of a number.
pub fn session_id(id: u128) -> (r: String)
    ensures
        r@ == uuid_text(id),
{
    hyphenated(id)
}

/// A fresh session identifier.
pub fn new_session_id() -> (r: String)
    ensures
        exists|id: u128| is_random_uuid(id) && r@ == #[trigger] uuid_text(id),
{
    let id = random_uuid();
    session_id(id)
}

/// Different numbers have different texts.
pub proof fn law_uuid_text_is_injective(a: u128, b: u128)
    requires
        uuid_text(a) == uuid_text(b),
    ensures
        a == b,
{
    assert forall|p: int| 0 <= p < 32 implies #[trigger] hex_digit_at(a, p) == hex_digit_at(
        b,
        p,
    ) by {
        let i = if p < 8 {
            p
        } else if p < 12 {
            p + 1
        } else if p < 16 {
            p + 2
        } else if p < 20 {
            p + 3
        } else {
            p + 4
        };
        assert(0 <= i < 36 && digit_place(i) == p && !is_hyphen_at(i));
        assert(uuid_text(a)[i] == crate::json::hex_char(hex_digit_at(a, p) as int));
        assert(uuid_text(b)[i] == crate::json::hex_char(hex_digit_at(b, p) as int));
        let x = hex_digit_at(a, p);
        let y = hex_digit_at(b, p);
        let s = (124 - 4 * p) as u128;
        assert((a >> s) & 0xf < 16) by (bit_vector);
        assert((b >> s) & 0xf < 16) by (bit_vector);
        assert(x < 16 && y < 16);
        assert(crate::json::hex_char(x as int) == crate::json::hex_char(y as int));
    }
    lemma_same_digits(a, b);
}

/// A number is fixed by its 32 digits.
proof fn lemma_same_digits(a: u128, b: u128)
    requires
        forall|p: int| 0 <= p < 32 ==> #[trigger] hex_digit_at(a, p) == hex_digit_at(b, p),
    ensures
        a == b,
{
    lemma_prefix_from_digits(a, b, 32);
    assert(a >> 0u128 == a) by (bit_vector);
    assert(b >> 0u128 == b) by (bit_vector);
}

/// The first `n` digits fix the number that they form.
proof fn lemma_prefix_from_digits(a: u128, b: u128, n: int)
    requires
        1 <= n <= 32,
        forall|p: int| 0 <= p < 32 ==> #[trigger] hex_digit_at(a, p) == hex_digit_at(b, p),
    ensures
        a >> ((128 - 4 * n) as u128) == b >> ((128 - 4 * n) as u128),
    decreases n,
{
    let s = (128 - 4 * n) as u128;
    assert(hex_digit_at(a, n - 1) == hex_digit_at(b, n - 1));
    if n == 1 {
        assert(a >> 124u128 == (a >> 124u128) & 0xf) by (bit_vector);
        assert(b >> 124u128 == (b >> 124u128) & 0xf) by (bit_vector);
    } else {
        lemma_prefix_from_digits(a, b, n - 1);
        let t = (s + 4) as u128;
        assert(a >> s == b >> s) by (bit_vector)
            requires
                s <= 120,
                t == s + 4,
                a >> t == b >> t,
                (a >> s) & 0xf == (b >> s) & 0xf,
        ;
    }
}

/// The characters of a UUID text stand for themselves in JSON.
pub proof fn lemma_uuid_text_is_plain(id: u128)
    ensures
        forall|i: int|
            0 <= i < uuid_text(id).len() ==> crate::json::is_plain(#[trigger] uuid_text(id)[i]),
{
    assert forall|i: int| 0 <= i < uuid_text(id).len() implies crate::json::is_plain(
        #[trigger] uuid_text(id)[i],
    ) by {
        let s = (124 - 4 * digit_place(i)) as u128;
        assert((id >> s) & 0xf < 16) by (bit_vector);
    }
}

} // verus!

//! Reading and writing the few pieces of JSON that the relay exchanges.

use serde_json::Value;
use vstd::prelude::*;

verus! {

/// A parsed JSON value.
#[verifier::external_type_specification]
#[verifier::external_body]
pub struct ExValue(serde_json::Value);

/// What a JSON value holds.
pub enum JsonContent {
    Null,
    Bool(bool),
    Number,
    Text(Seq<char>),
    Array(Seq<Value>),
    Object(Map<Seq<char>, Value>),
}

/// What a JSON value holds.
pub uninterp spec fn json_content(value: Value) -> JsonContent;

/// [`Value::get`] with a string index: the member of that name where the value
/// is an object that has one, and nothing otherwise.
#[verifier::external_body]
fn member<'a>(value: &'a Value, name: &str) -> (r: Option<&'a Value>)
    ensures
        match json_content(*value) {
            JsonContent::Object(members) => if members.contains_key(name@) {
                r == Some(&members[name@])
            } else {
                r is None
            },
            _ => r is None,
        },
{
    value.get(name)
}

/// [`Value::as_str`]: the characters where the value is a string, and nothing
/// otherwise.
#[verifier::external_body]
fn as_text(value: &Value) -> (r: Option<&str>)
    ensures
        match json_content(*value) {
            JsonContent::Text(text) => r is Some && r->0@ == text,
            _ => r is None,
        },
{
    value.as_str()
}

/// The text of a member: that of a string of this name in an object.
pub open spec fn text_member(value: Value, name: Seq<char>) -> Option<Seq<char>> {
    match json_content(value) {
        JsonContent::Object(members) => if members.contains_key(name) {
            match json_content(members[name]) {
                JsonContent::Text(text) => Some(text),
                _ => None,
            }
        } else {
            None
        },
        _ => None,
    }
}

/// Reads the text of a member.
pub fn read_text(value: &Value, name: &str) -> (r: Option<String>)
    ensures
        r is Some <==> text_member(*value, name@) is Some,
        r matches Some(s) ==> text_member(*value, name@) == Some(s@),
{
    match member(value, name) {
        Some(v) => match as_text(v) {
            Some(s) => Some(s.to_owned()),
            None => None,
        },
        None => None,
    }
}

/// The lower-case hexadecimal digit of a number below sixteen.
pub open spec fn hex_char(d: int) -> char {
    if d < 10 {
        (d + 48) as u8 as char
    } else {
        (d + 87) as u8 as char
    }
}

/// How a character stands inside a JSON string.
pub open spec fn escaped(c: char) -> Seq<char> {
    let u = c as u32 as int;
    if c == '"' {
        seq!['\\', '"']
    } else if c == '\\' {
        seq!['\\', '\\']
    } else if u == 0x08 {
        seq!['\\', 'b']
    } else if u == 0x09 {
        seq!['\\', 't']
    } else if u == 0x0a {
        seq!['\\', 'n']
    } else if u == 0x0c {
        seq!['\\', 'f']
    } else if u == 0x0d {
        seq!['\\', 'r']
    } else if u < 0x20 {
        seq!['\\', 'u', '0', '0', hex_char(u / 16), hex_char(u % 16)]
    } else {
        seq![c]
    }
}

/// How a text stands inside a JSON string.
pub open spec fn escaped_text(s: Seq<char>) -> Seq<char>
    decreases s.len(),
{
    if s.len() == 0 {
        Seq::empty()
    } else {
        escaped_text(s.drop_last()) + escaped(s.last())
    }
}

/// The JSON string that holds a text.
pub open spec fn quoted(s: Seq<char>) -> Seq<char> {
    seq!['"'] + escaped_text(s) + seq!['"']
}

/// `serde_json::to_string` on a string: the text between quotation marks, with
/// quotation marks, backslashes and control characters escaped. Writing a
/// string to memory cannot fail.
#[verifier::external_body]
pub(crate) fn quote(text: &str) -> (r: String)
    ensures
        r@ == quoted(text@),
{
    serde_json::to_string(text).unwrap()
}

/// Whether a character stands for itself inside a JSON string.
pub open spec fn is_plain(c: char) -> bool {
    c as u32 >= 0x20 && c != '"' && c != '\\'
}

/// A text of plain characters is written as it stands, between quotation marks.
pub proof fn law_plain_text_is_quoted_as_it_stands(s: Seq<char>)
    requires
        forall|i: int| 0 <= i < s.len() ==> is_plain(#[trigger] s[i]),
    ensures
        quoted(s) == seq!['"'] + s + seq!['"'],
{
    lemma_plain_text(s);
}

proof fn lemma_plain_text(s: Seq<char>)
    requires
        forall|i: int| 0 <= i < s.len() ==> is_plain(#[trigger] s[i]),
    ensures
        escaped_text(s) == s,
    decreases s.len(),
{
    if s.len() > 0 {
        assert forall|i: int| 0 <= i < s.drop_last().len() implies is_plain(
            #[trigger] s.drop_last()[i],
        ) by {
            assert(is_plain(s[i]));
        }
        lemma_plain_text(s.drop_last());
        assert(is_plain(s[s.len() - 1]));
        assert(s.drop_last() + seq![s.last()] =~= s);
    }
}

/// The number of a hexadecimal digit.
pub open spec fn hex_value(c: char) -> Option<int> {
    let u = c as u32 as int;
    if 48 <= u <= 57 {
        Some(u - 48)
    } else if 97 <= u <= 102 {
        Some(u - 87)
    } else if 65 <= u <= 70 {
        Some(u - 55)
    } else {
        None
    }
}

/// The character behind a backslash that stands for one character.
pub open spec fn short_escape(c: char) -> Option<char> {
    if c == '"' || c == '\\' || c == '/' {
        Some(c)
    } else if c == 'b' {
        Some(0x08u8 as char)
    } else if c == 't' {
        Some(0x09u8 as char)
    } else if c == 'n' {
        Some(0x0au8 as char)
    } else if c == 'f' {
        Some(0x0cu8 as char)
    } else if c == 'r' {
        Some(0x0du8 as char)
    } else {
        None
    }
}

/// A character in front of a text, if there is one.
pub open spec fn in_front(c: char, rest: Option<Seq<char>>) -> Option<Seq<char>> {
    match rest {
        Some(text) => Some(seq![c] + text),
        None => None,
    }
}

/// How a reader takes the inside of a JSON string: the text that it spells, or
/// nothing where it is no such inside.
pub open spec fn spelled(t: Seq<char>) -> Option<Seq<char>>
    decreases t.len(),
{
    if t.len() == 0 {
        Some(Seq::empty())
    } else if t[0] == '\\' {
        if t.len() >= 6 && t[1] == 'u' {
            match (hex_value(t[2]), hex_value(t[3]), hex_value(t[4]), hex_value(t[5])) {
                (Some(a), Some(b), Some(c), Some(d)) => {
                    let code = a * 4096 + b * 256 + c * 16 + d;
                    if 0xd800 <= code <= 0xdfff {
                        None
                    } else {
                        in_front(code as u32 as char, spelled(t.skip(6)))
                    }
                },
                _ => None,
            }
        } else if t.len() >= 2 {
            match short_escape(t[1]) {
                Some(c) => in_front(c, spelled(t.skip(2))),
                None => None,
            }
        } else {
            None
        }
    } else if is_plain(t[0]) {
        in_front(t[0], spelled(t.skip(1)))
    } else {
        None
    }
}

proof fn lemma_spelled_step(c: char, rest: Seq<char>)
    ensures
        spelled(escaped(c) + rest) == in_front(c, spelled(rest)),
{
    let t = escaped(c) + rest;
    let u = c as u32 as int;
    assert(t.skip(escaped(c).len() as int) =~= rest);
    if u < 0x20 {
        assert(u / 16 < 2 && u % 16 < 16);
        assert(hex_value('0') == Some(0int));
        assert(hex_value(hex_char(u / 16)) == Some(u / 16));
        assert(hex_value(hex_char(u % 16)) == Some(u % 16));
        assert(u == (u / 16) * 16 + u % 16);
    }
}

proof fn lemma_escaped_front(s: Seq<char>)
    requires
        s.len() > 0,
    ensures
        escaped_text(s) == escaped(s[0]) + escaped_text(s.drop_first()),
    decreases s.len(),
{
    if s.len() == 1 {
        assert(s.drop_last() =~= Seq::<char>::empty());
        assert(s.drop_first() =~= Seq::<char>::empty());
        assert(escaped_text(s.drop_last()) =~= Seq::<char>::empty());
        assert(escaped_text(s.drop_first()) =~= Seq::<char>::empty());
        assert(escaped_text(s) =~= escaped(s[0]) + escaped_text(s.drop_first()));
    } else {
        lemma_escaped_front(s.drop_last());
        assert(s.drop_last().drop_first() =~= s.drop_first().drop_last());
        assert(escaped_text(s) =~= escaped(s[0]) + escaped_text(s.drop_first()));
    }
}

/// A reader of a JSON string gets back the text that was written, whatever
/// characters it holds.
pub proof fn law_written_text_is_read_back(s: Seq<char>)
    ensures
        spelled(escaped_text(s)) == Some(s),
        quoted(s).len() == escaped_text(s).len() + 2,
        quoted(s).subrange(1, quoted(s).len() - 1) == escaped_text(s),
    decreases s.len(),
{
    assert(quoted(s).subrange(1, quoted(s).len() - 1) =~= escaped_text(s));
    if s.len() > 0 {
        law_written_text_is_read_back(s.drop_first());
        lemma_escaped_front(s);
        lemma_spelled_step(s[0], escaped_text(s.drop_first()));
        assert(seq![s[0]] + s.drop_first() =~= s);
    }
}

/// Different texts are written differently.
pub proof fn law_quoted_is_injective(a: Seq<char>, b: Seq<char>)
    requires
        quoted(a) == quoted(b),
    ensures
        a == b,
{
    law_written_text_is_read_back(a);
    law_written_text_is_read_back(b);
}

/// A member is read from an object that has it as a string, with all of its
/// characters, and from nothing else.
pub proof fn law_text_is_read_from_a_string_member(value: Value, name: &str, read: Option<String>)
    requires
        call_ensures(read_text, (&value, name), read),
    ensures
        read is Some <==> {
            &&& json_content(value) is Object
            &&& json_content(value)->Object_0.contains_key(name@)
            &&& json_content(json_content(value)->Object_0[name@]) is Text
        },
        read is Some ==> json_content(json_content(value)->Object_0[name@]) == JsonContent::Text(
            read->0@,
        ),
{
}

} // verus!

//! Text helpers over character sequences.

use vstd::prelude::*;
use vstd::string::{StrSliceExecFns, StringExecFns};

verus! {

/// UTF-8 encoding loses nothing: equal bytes come from equal characters.
pub proof fn lemma_utf8_injective(a: Seq<char>, b: Seq<char>)
    ensures
        vstd::utf8::encode_utf8(a) == vstd::utf8::encode_utf8(b) <==> a == b,
{
    vstd::utf8::encode_utf8_decode_utf8(a);
    vstd::utf8::encode_utf8_decode_utf8(b);
}

/// The characters of an optional string.
pub open spec fn opt_text(text: Option<String>) -> Option<Seq<char>> {
    match text {
        Some(s) => Some(s@),
        None => None,
    }
}

/// Whether two strings hold the same characters.
pub fn same_text(a: &str, b: &str) -> (r: bool)
    ensures
        r == (a@ == b@),
{
    let x = a.as_bytes();
    let y = b.as_bytes();
    proof {
        lemma_utf8_injective(a@, b@);
    }
    if x.len() != y.len() {
        return false;
    }
    let mut i: usize = 0;
    while i < x.len()
        invariant
            i <= x.len(),
            x.len() == y.len(),
            forall|k: int| 0 <= k < i ==> x@[k] == y@[k],
            x@ == vstd::utf8::encode_utf8(a@),
            y@ == vstd::utf8::encode_utf8(b@),
            (x@ == y@) == (a@ == b@),
        decreases x.len() - i,
    {
        if x[i] != y[i] {
            return false;
        }
        i += 1;
    }
    assert(x@ =~= y@);
    true
}

/// Whether a character has the Unicode property `White_Space`.
pub open spec fn is_white_space(c: char) -> bool {
    let u = c as u32;
    ||| 0x09 <= u <= 0x0d
    ||| u == 0x20
    ||| u == 0x85
    ||| u == 0xa0
    ||| u == 0x1680
    ||| 0x2000 <= u <= 0x200a
    ||| u == 0x2028
    ||| u == 0x2029
    ||| u == 0x202f
    ||| u == 0x205f
    ||| u == 0x3000
}

fn white_space(c: char) -> (r: bool)
    ensures
        r == is_white_space(c),
{
    let u: u32 = c as u32;
    (0x09 <= u && u <= 0x0d) || u == 0x20 || u == 0x85 || u == 0xa0 || u == 0x1680 || (0x2000 <= u
        && u <= 0x200a) || u == 0x2028 || u == 0x2029 || u == 0x202f || u == 0x205f || u == 0x3000
}

/// `t` is `s` without its leading and trailing white space.
pub open spec fn is_trimmed(s: Seq<char>, t: Seq<char>) -> bool {
    exists|from: int, to: int| #[trigger] is_trimmed_at(s, t, from, to)
}

/// `t` is `s[from..to]`, all of `s` outside that range is white space, and `t`
/// neither starts nor ends with any.
pub open spec fn is_trimmed_at(s: Seq<char>, t: Seq<char>, from: int, to: int) -> bool {
    &&& 0 <= from <= to <= s.len()
    &&& t == s.subrange(from, to)
    &&& forall|i: int| 0 <= i < from ==> is_white_space(s[i])
    &&& forall|i: int| to <= i < s.len() ==> is_white_space(s[i])
    &&& t.len() > 0 ==> !is_white_space(t.first()) && !is_white_space(t.last())
}

/// The characters left when leading and trailing white space is removed.
pub open spec fn trimmed(s: Seq<char>) -> Seq<char> {
    choose|t: Seq<char>| is_trimmed(s, t)
}

/// At most one text is the trimmed form of another.
pub proof fn lemma_trimmed_unique(s: Seq<char>, t: Seq<char>)
    requires
        is_trimmed(s, t),
    ensures
        trimmed(s) == t,
{
    let u = trimmed(s);
    assert(is_trimmed(s, u));
    let (f1, t1) = choose|from: int, to: int| #[trigger] is_trimmed_at(s, t, from, to);
    let (f2, t2) = choose|from: int, to: int| #[trigger] is_trimmed_at(s, u, from, to);
    if t.len() > 0 {
        assert(t.first() == s[f1] && t.last() == s[t1 - 1]);
    }
    if u.len() > 0 {
        assert(u.first() == s[f2] && u.last() == s[t2 - 1]);
    }
    assert(t =~= u);
}

/// Removes leading and trailing white space.
pub fn trim(text: &str) -> (r: &str)
    ensures
        is_trimmed(text@, r@),
        r@ == trimmed(text@),
{
    let len = text.unicode_len();
    let mut from: usize = 0;
    while from < len && white_space(text.get_char(from))
        invariant
            from <= len,
            len == text@.len(),
            forall|i: int| 0 <= i < from ==> is_white_space(text@[i]),
        decreases len - from,
    {
        from += 1;
    }
    let mut to: usize = len;
    while to > from && white_space(text.get_char(to - 1))
        invariant
            from <= to <= len,
            len == text@.len(),
            forall|i: int| to <= i < len ==> is_white_space(text@[i]),
        decreases to,
    {
        to -= 1;
    }
    let r = text.substring_char(from, to);
    proof {
        assert(is_trimmed_at(text@, r@, from as int, to as int));
        lemma_trimmed_unique(text@, r@);
    }
    r
}

/// The characters left when every `/` at the end is removed.
pub open spec fn without_end_slashes(s: Seq<char>) -> Seq<char>
    decreases s.len(),
{
    if s.len() > 0 && s.last() == '/' {
        without_end_slashes(s.drop_last())
    } else {
        s
    }
}

/// Removes every `/` at the end.
pub fn trim_end_slashes(text: &str) -> (r: &str)
    ensures
        r@ == without_end_slashes(text@),
{
    let len = text.unicode_len();
    let mut to: usize = len;
    assert(text@.take(to as int) =~= text@);
    while to > 0 && text.get_char(to - 1) == '/'
        invariant
            to <= len,
            len == text@.len(),
            without_end_slashes(text@.take(to as int)) == without_end_slashes(text@),
        decreases to,
    {
        assert(text@.take(to as int).drop_last() =~= text@.take(to - 1));
        to -= 1;
    }
    text.substring_char(0, to)
}

/// The text behind `prefix`, where the text starts with it.
pub open spec fn after_prefix(s: Seq<char>, prefix: Seq<char>) -> Option<Seq<char>> {
    if prefix.is_prefix_of(s) {
        Some(s.skip(prefix.len() as int))
    } else {
        None
    }
}

/// The text behind `prefix`, where the text starts with it.
pub fn strip_prefix<'a>(text: &'a str, prefix: &str) -> (r: Option<&'a str>)
    ensures
        r is Some <==> after_prefix(text@, prefix@) is Some,
        r matches Some(rest) ==> after_prefix(text@, prefix@) == Some(rest@),
{
    let len = text.unicode_len();
    let n = prefix.unicode_len();
    if len < n {
        return None;
    }
    let head = text.substring_char(0, n);
    if same_text(head, prefix) {
        let rest = text.substring_char(n, len);
        assert(rest@ =~= text@.skip(n as int));
        Some(rest)
    } else {
        assert(head@ == text@.take(n as int));
        assert(prefix@.is_prefix_of(text@) ==> head@ =~= prefix@);
        None
    }
}

/// The lower case of an ASCII letter; any other character itself.
pub open spec fn ascii_lower_char(c: char) -> char {
    if 'A' <= c <= 'Z' {
        ((c as u32 + 32) as u32) as char
    } else {
        c
    }
}

/// A text with its ASCII letters in lower case.
pub open spec fn ascii_lower(s: Seq<char>) -> Seq<char> {
    s.map_values(|c: char| ascii_lower_char(c))
}

fn lower_code(c: char) -> (r: u32)
    ensures
        r == ascii_lower_char(c) as u32,
{
    let u: u32 = c as u32;
    if 65 <= u && u <= 90 {
        u + 32
    } else {
        u
    }
}

/// Whether two texts differ at most in the case of ASCII letters.
pub fn eq_ignore_ascii_case(a: &str, b: &str) -> (r: bool)
    ensures
        r == (ascii_lower(a@) == ascii_lower(b@)),
{
    let len = a.unicode_len();
    if len != b.unicode_len() {
        assert(ascii_lower(a@).len() != ascii_lower(b@).len());
        return false;
    }
    let mut i: usize = 0;
    while i < len
        invariant
            i <= len,
            len == a@.len(),
            len == b@.len(),
            forall|k: int| 0 <= k < i ==> ascii_lower_char(a@[k]) == ascii_lower_char(b@[k]),
        decreases len - i,
    {
        if lower_code(a.get_char(i)) != lower_code(b.get_char(i)) {
            assert(ascii_lower(a@)[i as int] != ascii_lower(b@)[i as int]);
            return false;
        }
        i += 1;
    }
    assert(ascii_lower(a@) =~= ascii_lower(b@));
    true
}

/// The decimal digit of a number below ten.
pub open spec fn digit_char(d: nat) -> char {
    (d + 48) as u8 as char
}

/// A number in decimal, without leading zeros.
pub open spec fn decimal(n: nat) -> Seq<char>
    decreases n,
{
    if n < 10 {
        seq![digit_char(n)]
    } else {
        decimal(n / 10).push(digit_char(n % 10))
    }
}

fn digit_text(d: u32) -> (r: &'static str)
    requires
        d < 10,
    ensures
        r@ == seq![digit_char(d as nat)],
{
    proof {
        reveal_strlit("0");
        reveal_strlit("1");
        reveal_strlit("2");
        reveal_strlit("3");
        reveal_strlit("4");
        reveal_strlit("5");
        reveal_strlit("6");
        reveal_strlit("7");
        reveal_strlit("8");
        reveal_strlit("9");
    }
    match d {
        0 => "0",
        1 => "1",
        2 => "2",
        3 => "3",
        4 => "4",
        5 => "5",
        6 => "6",
        7 => "7",
        8 => "8",
        _ => "9",
    }
}

/// Writes a number in decimal.
pub fn decimal_text(n: u32) -> (r: String)
    ensures
        r@ == decimal(n as nat),
    decreases n,
{
    if n < 10 {
        digit_text(n).to_owned()
    } else {
        let mut r = decimal_text(n / 10);
        r.append(digit_text(n % 10));
        assert(r@ =~= decimal((n / 10) as nat).push(digit_char((n % 10) as nat)));
        r
    }
}

/// White space is the tab, the line ends, the space, and the spaces and
/// separators of Unicode.
pub proof fn law_white_space(c: char)
    ensures
        is_white_space(c) <==> {
            ||| c == '\t' || c == '\n' || c == '\u{b}' || c == '\u{c}' || c == '\r' || c == ' '
            ||| c == '\u{85}' || c == '\u{a0}' || c == '\u{1680}'
            ||| '\u{2000}' <= c <= '\u{200a}'
            ||| c == '\u{2028}' || c == '\u{2029}' || c == '\u{202f}' || c == '\u{205f}'
            ||| c == '\u{3000}'
        },
{
}

/// Trimming takes off the white space in front and behind and keeps all that
/// stands between, whatever it is.
pub proof fn law_trimming_keeps_the_core(front: Seq<char>, core: Seq<char>, back: Seq<char>)
    requires
        forall|i: int| 0 <= i < front.len() ==> is_white_space(#[trigger] front[i]),
        forall|i: int| 0 <= i < back.len() ==> is_white_space(#[trigger] back[i]),
        core.len() > 0 ==> !is_white_space(core.first()) && !is_white_space(core.last()),
    ensures
        trimmed(front + core + back) == core,
{
    let whole = front + core + back;
    let (from, to) = (front.len() as int, (front.len() + core.len()) as int);
    assert(whole.subrange(from, to) =~= core);
    assert forall|i: int| 0 <= i < from implies is_white_space(whole[i]) by {
        assert(whole[i] == front[i]);
    }
    assert forall|i: int| to <= i < whole.len() implies is_white_space(whole[i]) by {
        assert(whole[i] == back[i - to]);
    }
    assert(is_trimmed_at(whole, core, from, to));
    lemma_trimmed_unique(whole, core);
}

/// What is left of a text is the text without slashes: however many stand at its
/// end, they go, and nothing else does.
pub proof fn law_end_slashes_go(base: Seq<char>, slashes: Seq<char>)
    requires
        base.len() > 0 ==> base.last() != '/',
        forall|i: int| 0 <= i < slashes.len() ==> #[trigger] slashes[i] == '/',
    ensures
        without_end_slashes(base + slashes) == base,
    decreases slashes.len(),
{
    let whole = base + slashes;
    if slashes.len() > 0 {
        let fewer = slashes.drop_last();
        assert(slashes[slashes.len() - 1] == '/');
        assert forall|i: int| 0 <= i < fewer.len() implies #[trigger] fewer[i] == '/' by {
            assert(slashes[i] == '/');
        }
        law_end_slashes_go(base, fewer);
        assert(whole.drop_last() =~= base + fewer);
    } else {
        assert(whole =~= base);
    }
}

/// A text that starts with a prefix is the prefix and what is found behind it;
/// one that does not brings nothing.
pub proof fn law_prefix_comes_off(text: &str, prefix: &str, found: Option<&str>, rest: Seq<char>)
    requires
        call_ensures(strip_prefix, (text, prefix), found),
    ensures
        found is Some ==> text@ == prefix@ + found->0@,
        text@ == prefix@ + rest ==> found is Some && found->0@ == rest,
{
    if found is Some {
        assert(text@ =~= prefix@ + text@.skip(prefix@.len() as int));
    }
    if text@ == prefix@ + rest {
        assert(prefix@.is_prefix_of(text@));
        assert(text@.skip(prefix@.len() as int) =~= rest);
    }
}

/// Whether two characters are the same, or one letter of the alphabet in two
/// cases.
pub open spec fn same_letter(a: char, b: char) -> bool {
    ||| a == b
    ||| 'a' <= a <= 'z' && a as u32 == b as u32 + 32
    ||| 'a' <= b <= 'z' && b as u32 == a as u32 + 32
}

/// Texts that differ at most in the case of letters are of one length and hold
/// the same letters, place by place.
pub proof fn law_case_alone_is_ignored(a: &str, b: &str, same: bool)
    requires
        call_ensures(eq_ignore_ascii_case, (a, b), same),
    ensures
        same <==> a@.len() == b@.len() && forall|i: int|
            0 <= i < a@.len() ==> same_letter(#[trigger] a@[i], b@[i]),
{
    let (x, y) = (ascii_lower(a@), ascii_lower(b@));
    assert(x.len() == a@.len() && y.len() == b@.len());
    if same {
        assert forall|i: int| 0 <= i < a@.len() implies same_letter(#[trigger] a@[i], b@[i]) by {
            assert(x[i] == ascii_lower_char(a@[i]) && y[i] == ascii_lower_char(b@[i]));
            lemma_lower(a@[i], b@[i]);
        }
    } else if a@.len() == b@.len() && forall|i: int|
        0 <= i < a@.len() ==> same_letter(#[trigger] a@[i], b@[i]) {
        assert forall|i: int| 0 <= i < a@.len() implies x[i] == y[i] by {
            assert(same_letter(a@[i], b@[i]));
            lemma_lower(a@[i], b@[i]);
        }
        assert(x =~= y);
    }
}

proof fn lemma_lower(a: char, b: char)
    ensures
        ascii_lower_char(a) == ascii_lower_char(b) <==> same_letter(a, b),
{
    assert(ascii_lower_char(a) as u32 == if 'A' <= a <= 'Z' {
        a as u32 + 32
    } else {
        a as int
    });
    assert(ascii_lower_char(b) as u32 == if 'A' <= b <= 'Z' {
        b as u32 + 32
    } else {
        b as int
    });
}

/// The number that a text of decimal digits stands for.
pub open spec fn decimal_value(digits: Seq<char>) -> int
    decreases digits.len(),
{
    if digits.len() == 0 {
        0
    } else {
        decimal_value(digits.drop_last()) * 10 + (digits.last() as u32 - 48)
    }
}

/// A number in decimal reads back as that number. It is made of digits alone, and
/// starts with a zero only where it is zero.
pub proof fn law_decimal_reads_back(n: nat)
    ensures
        decimal_value(decimal(n)) == n,
        decimal(n).len() > 0,
        forall|i: int| 0 <= i < decimal(n).len() ==> '0' <= #[trigger] decimal(n)[i] <= '9',
        n > 0 ==> decimal(n)[0] != '0',
    decreases n,
{
    if n < 10 {
        assert(decimal(n).drop_last() =~= Seq::empty());
        assert(decimal_value(decimal(n).drop_last()) == 0);
    } else {
        law_decimal_reads_back(n / 10);
        assert(decimal(n).drop_last() =~= decimal(n / 10));
    }
}

} // verus!

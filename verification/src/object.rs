//! JSON objects, member by member: the members keep their order, a name may
//! occur more than once, and of a value that nobody asks for nothing is read but
//! where it ends.

use crate::text::same_text;
use vstd::prelude::*;
use vstd::slice::slice_subrange;

verus! {

/// Where the JSON value ends that stands at the front of some bytes.
pub uninterp spec fn leading_value(bytes: Seq<u8>) -> Option<usize>;

/// The text of the JSON string that stands at the front of some bytes.
pub uninterp spec fn leading_text(bytes: Seq<u8>) -> Option<Seq<char>>;

/// The unsigned integer that stands at the front of some bytes.
pub uninterp spec fn leading_number(bytes: Seq<u8>) -> Option<u64>;

/// The first item of `serde_json::Deserializer::into_iter` for `IgnoredAny`:
/// where the JSON value at the front ends, behind white space if there is some,
/// and nothing where none stands there. Such a value has a byte at least and
/// lies inside the bytes, on which alone the result depends.
#[verifier::external_body]
fn skip_value(bytes: &[u8]) -> (r: Option<usize>)
    ensures
        r == leading_value(bytes@),
        r matches Some(end) ==> 0 < end <= bytes@.len(),
{
    let json = serde_json::Deserializer::from_slice(bytes);
    let mut values = json.into_iter::<serde::de::IgnoredAny>();
    match values.next() {
        Some(Ok(_)) => Some(values.byte_offset()),
        _ => None,
    }
}

/// The first item of `serde_json::Deserializer::into_iter` for `String`: the
/// text of the JSON string at the front, behind white space if there is some, and
/// nothing where none stands there. It depends on the bytes alone.
#[verifier::external_body]
fn take_text(bytes: &[u8]) -> (r: Option<String>)
    ensures
        crate::text::opt_text(r) == leading_text(bytes@),
{
    let json = serde_json::Deserializer::from_slice(bytes);
    match json.into_iter::<String>().next() {
        Some(Ok(text)) => Some(text),
        _ => None,
    }
}

/// The first item of `serde_json::Deserializer::into_iter` for `u64`: the integer
/// from zero to `u64::MAX` at the front, behind white space if there is some, and
/// nothing where none stands there. It depends on the bytes alone.
#[verifier::external_body]
fn take_number(bytes: &[u8]) -> (r: Option<u64>)
    ensures
        r == leading_number(bytes@),
{
    let json = serde_json::Deserializer::from_slice(bytes);
    match json.into_iter::<u64>().next() {
        Some(Ok(number)) => Some(number),
        _ => None,
    }
}

/// The bytes that JSON takes for white space.
pub open spec fn is_json_space(b: u8) -> bool {
    b == 32 || b == 10 || b == 9 || b == 13
}

/// The first place from `at` on that holds no white space.
pub open spec fn past_space(json: Seq<u8>, at: int) -> int
    decreases json.len() - at,
{
    if 0 <= at < json.len() && is_json_space(json[at]) {
        past_space(json, at + 1)
    } else {
        at
    }
}

/// Whether a byte stands at a place.
pub open spec fn holds(json: Seq<u8>, at: int, byte: u8) -> bool {
    0 <= at < json.len() && json[at] == byte
}

/// A member of an object as mathematical values: its name, and where its value
/// starts.
pub struct MemberView {
    pub name: Seq<char>,
    pub value: int,
}

/// The member that stands at a place, and where it ends.
pub open spec fn member_at(json: Seq<u8>, at: int) -> Option<(MemberView, int)> {
    match (leading_text(json.skip(at)), leading_value(json.skip(at))) {
        (Some(name), Some(len)) => {
            let colon = past_space(json, at + len);
            if holds(json, colon, 58) {
                match leading_value(json.skip(colon + 1)) {
                    Some(len) => Some((MemberView { name, value: colon + 1 }, colon + 1 + len)),
                    None => None,
                }
            } else {
                None
            }
        },
        _ => None,
    }
}

/// Members in front of others, if there are some.
pub open spec fn in_front(first: Seq<MemberView>, rest: Option<Seq<MemberView>>) -> Option<
    Seq<MemberView>,
> {
    match rest {
        Some(members) => Some(first + members),
        None => None,
    }
}

/// The members from a place on to the end of an object, behind which nothing
/// stands but white space.
pub open spec fn members_from(json: Seq<u8>, at: int) -> Option<Seq<MemberView>>
    decreases json.len() - at,
{
    match member_at(json, at) {
        Some((member, end)) => {
            let next = past_space(json, end);
            if holds(json, next, 125) && past_space(json, next + 1) == json.len() {
                Some(seq![member])
            } else if holds(json, next, 44) && at <= next {
                in_front(seq![member], members_from(json, next + 1))
            } else {
                None
            }
        },
        None => None,
    }
}

/// The members of the object that some bytes are, in order.
pub open spec fn members(json: Seq<u8>) -> Option<Seq<MemberView>> {
    let open = past_space(json, 0);
    let first = past_space(json, open + 1);
    if !holds(json, open, 123) {
        None
    } else if holds(json, first, 125) {
        if past_space(json, first + 1) == json.len() {
            Some(Seq::empty())
        } else {
            None
        }
    } else {
        members_from(json, open + 1)
    }
}

/// Whether a name occurs at one place and at no other.
pub open spec fn occurs_once(members: Seq<MemberView>, name: Seq<char>, place: int) -> bool {
    &&& 0 <= place < members.len()
    &&& members[place].name == name
    &&& forall|i: int| 0 <= i < members.len() && i != place ==> (#[trigger] members[i]).name != name
}

/// Where the value of a member starts whose name occurs exactly once.
pub open spec fn sole_value(members: Seq<MemberView>, name: Seq<char>) -> Option<int> {
    if exists|place: int| occurs_once(members, name, place) {
        Some(members[choose|place: int| occurs_once(members, name, place)].value)
    } else {
        None
    }
}

/// A member of an object: its name, and where its value starts.
pub struct Member {
    pub name: String,
    pub value: usize,
}

impl View for Member {
    type V = MemberView;

    open spec fn view(&self) -> MemberView {
        MemberView { name: self.name@, value: self.value as int }
    }
}

/// Members as mathematical values.
pub open spec fn members_view(members: Seq<Member>) -> Seq<MemberView> {
    members.map_values(|member: Member| member@)
}

fn skip_space(json: &[u8], at: usize) -> (r: usize)
    requires
        at <= json@.len(),
    ensures
        r == past_space(json@, at as int),
        at <= r <= json@.len(),
{
    let mut i: usize = at;
    while i < json.len() && (json[i] == 32 || json[i] == 10 || json[i] == 9 || json[i] == 13)
        invariant
            at <= i <= json@.len(),
            past_space(json@, i as int) == past_space(json@, at as int),
        decreases json@.len() - i,
    {
        i += 1;
    }
    i
}

fn rest(json: &[u8], at: usize) -> (r: &[u8])
    requires
        at <= json@.len(),
    ensures
        r@ == json@.skip(at as int),
{
    slice_subrange(json, at, json.len())
}

/// Reads the member that stands at a place.
fn read_member(json: &[u8], at: usize) -> (r: Option<(Member, usize)>)
    requires
        at <= json@.len(),
    ensures
        r is Some <==> member_at(json@, at as int) is Some,
        r matches Some((member, end)) ==> {
            &&& member_at(json@, at as int) == Some((member@, end as int))
            &&& at < member.value <= end <= json@.len()
        },
{
    let here = rest(json, at);
    match (take_text(here), skip_value(here)) {
        (Some(name), Some(len)) => {
            let size: usize = json.len();
            let colon: usize = skip_space(json, at + len);
            if colon >= size || json[colon] != 58 {
                return None;
            }
            match skip_value(rest(json, colon + 1)) {
                Some(len) => Some((Member { name, value: colon + 1 }, colon + 1 + len)),
                None => None,
            }
        },
        _ => None,
    }
}

/// Reads the members of an object.
pub fn read_members(json: &[u8]) -> (r: Option<Vec<Member>>)
    ensures
        r is Some <==> members(json@) is Some,
        r matches Some(list) ==> {
            &&& members(json@) == Some(members_view(list@))
            &&& forall|i: int| 0 <= i < list@.len() ==> (#[trigger] list@[i]).value <= json@.len()
        },
{
    let open: usize = skip_space(json, 0);
    if open >= json.len() || json[open] != 123 {
        return None;
    }
    let first: usize = skip_space(json, open + 1);
    let mut list: Vec<Member> = Vec::new();
    if first < json.len() && json[first] == 125 {
        assert(members_view(list@) =~= Seq::empty());
        return if skip_space(json, first + 1) == json.len() {
            Some(list)
        } else {
            None
        };
    }
    let mut at: usize = open + 1;
    proof {
        let rest = members_from(json@, at as int);
        if rest is Some {
            assert(members_view(list@) + rest->0 =~= rest->0);
        }
    }
    loop
        invariant
            at <= json@.len(),
            in_front(members_view(list@), members_from(json@, at as int)) == members(json@),
            forall|i: int| 0 <= i < list@.len() ==> (#[trigger] list@[i]).value <= json@.len(),
        decreases json@.len() - at,
    {
        let (member, end) = match read_member(json, at) {
            Some(found) => found,
            None => {
                return None;
            },
        };
        let next: usize = skip_space(json, end);
        if next >= json.len() {
            return None;
        }
        let ghost before = list@;
        let ghost later = members_from(json@, next + 1);
        list.push(member);
        assert(members_view(list@) =~= members_view(before) + seq![member@]);
        if json[next] == 125 {
            return if skip_space(json, next + 1) == json.len() {
                Some(list)
            } else {
                None
            };
        }
        if json[next] != 44 {
            return None;
        }
        proof {
            if later is Some {
                assert(members_view(before) + (seq![member@] + later->0) =~= members_view(list@)
                    + later->0);
            }
        }
        at = next + 1;
    }
}

/// Finds the value of a member whose name occurs exactly once.
pub fn find_sole(list: &Vec<Member>, name: &str) -> (r: Option<usize>)
    ensures
        r is Some <==> sole_value(members_view(list@), name@) is Some,
        r matches Some(value) ==> {
            &&& sole_value(members_view(list@), name@) == Some(value as int)
            &&& exists|i: int| 0 <= i < list@.len() && (#[trigger] list@[i]).value == value
        },
{
    let ghost all = members_view(list@);
    let mut found: Option<usize> = None;
    let mut i: usize = 0;
    while i < list.len()
        invariant
            i <= list@.len(),
            all == members_view(list@),
            match found {
                Some(place) => {
                    &&& place < i
                    &&& all[place as int].name == name@
                    &&& forall|k: int|
                        0 <= k < i && k != place ==> (#[trigger] all[k]).name != name@
                },
                None => forall|k: int| 0 <= k < i ==> (#[trigger] all[k]).name != name@,
            },
        decreases list@.len() - i,
    {
        assert(all[i as int] == list@[i as int]@);
        if same_text(list[i].name.as_str(), name) {
            match found {
                Some(place) => {
                    assert(all[place as int].name == name@ && all[i as int].name == name@);
                    assert forall|p: int| !occurs_once(all, name@, p) by {
                        if p == place {
                            assert(all[i as int].name == name@);
                        } else {
                            assert(all[place as int].name == name@);
                        }
                    }
                    return None;
                },
                None => {
                    found = Some(i);
                },
            }
        }
        i += 1;
    }
    match found {
        Some(place) => {
            proof {
                assert(occurs_once(all, name@, place as int));
                law_sole_name_has_its_value(all, name@, place as int);
                assert(all[place as int] == list@[place as int]@);
            }
            Some(list[place].value)
        },
        None => None,
    }
}

/// Reads the text of a member, whose value starts at a place.
pub(crate) fn text_at(json: &[u8], at: usize) -> (r: Option<String>)
    requires
        at <= json@.len(),
    ensures
        crate::text::opt_text(r) == leading_text(json@.skip(at as int)),
{
    take_text(rest(json, at))
}

/// Reads the number of a member, whose value starts at a place.
pub(crate) fn number_at(json: &[u8], at: usize) -> (r: Option<u64>)
    requires
        at <= json@.len(),
    ensures
        r == leading_number(json@.skip(at as int)),
{
    take_number(rest(json, at))
}

/// A name that occurs twice has no value: neither the first counts nor the last.
pub proof fn law_repeated_name_has_no_value(
    members: Seq<MemberView>,
    name: Seq<char>,
    i: int,
    j: int,
)
    requires
        0 <= i < j < members.len(),
        members[i].name == name,
        members[j].name == name,
    ensures
        sole_value(members, name) is None,
{
    assert forall|p: int| !occurs_once(members, name, p) by {
        if p == i {
            assert(members[j].name == name);
        } else {
            assert(members[i].name == name);
        }
    }
}

/// The value of a name that occurs once is that of the one member of that name,
/// wherever it stands.
pub proof fn law_sole_name_has_its_value(members: Seq<MemberView>, name: Seq<char>, place: int)
    requires
        0 <= place < members.len(),
        members[place].name == name,
        forall|i: int|
            0 <= i < members.len() && i != place ==> (#[trigger] members[i]).name != name,
    ensures
        sole_value(members, name) == Some(members[place].value),
{
    assert(occurs_once(members, name, place));
    let chosen = choose|p: int| occurs_once(members, name, p);
    assert(occurs_once(members, name, chosen));
    assert(members[chosen].name == name);
}

/// Whether nothing but spaces, tabs and line ends stands between two places.
pub open spec fn is_blank(json: Seq<u8>, from: int, to: int) -> bool {
    &&& 0 <= from <= to <= json.len()
    &&& forall|i: int|
        from <= i < to ==> #[trigger] json[i] == 32 || json[i] == 9 || json[i] == 10 || json[i]
            == 13
}

/// Whether a byte stands at a place, with nothing but blanks in front of it from
/// another place on.
pub open spec fn stands_next(json: Seq<u8>, from: int, at: int, byte: u8) -> bool {
    is_blank(json, from, at) && at < json.len() && json[at] == byte
}

/// Whether a member stands between two places: a JSON string that spells its
/// name, a colon, and a JSON value.
pub open spec fn stands_between(json: Seq<u8>, at: int, member: MemberView, end: int) -> bool {
    let (name, value) = (json.skip(at), json.skip(member.value));
    &&& 0 <= at
    &&& leading_text(name) == Some(member.name)
    &&& leading_value(name) is Some
    &&& stands_next(json, at + leading_value(name)->0, member.value - 1, 58)
    &&& leading_value(value) is Some
    &&& end == member.value + leading_value(value)->0
}

/// Whether members stand from a place on, each between two places, with commas
/// between them and a closing bracket behind the last, which ends the text.
pub open spec fn stand_in_a_row(
    json: Seq<u8>,
    at: int,
    members: Seq<MemberView>,
    starts: Seq<int>,
    ends: Seq<int>,
    close: int,
) -> bool {
    &&& members.len() > 0 && starts.len() == members.len() && ends.len() == members.len()
    &&& starts[0] == at
    &&& forall|i: int|
        0 <= i < members.len() ==> #[trigger] stands_between(json, starts[i], members[i], ends[i])
    &&& forall|i: int|
        0 <= i < members.len() - 1 ==> #[trigger] stands_next(
            json,
            ends[i],
            starts[i + 1] - 1,
            44,
        )
    &&& stands_next(json, ends.last(), close, 125)
    &&& is_blank(json, close + 1, json.len() as int)
}

proof fn lemma_past_space(json: Seq<u8>, at: int, to: int)
    requires
        0 <= at,
    ensures
        at <= past_space(json, at),
        at <= json.len() ==> is_blank(json, at, past_space(json, at)),
        is_blank(json, at, to) && (to < json.len() ==> !is_json_space(json[to])) ==> past_space(
            json,
            at,
        ) == to,
    decreases json.len() - at,
{
    if at < json.len() && is_json_space(json[at]) {
        lemma_past_space(json, at + 1, to);
        if is_blank(json, at, to) && at < to {
            assert(is_blank(json, at + 1, to));
        }
        if is_blank(json, at, to) && at == to && to < json.len() {
            assert(is_json_space(json[to]));
        }
    } else if is_blank(json, at, to) && at < to {
        assert(is_json_space(json[at]));
    }
}

proof fn lemma_holds_next(json: Seq<u8>, from: int, byte: u8)
    requires
        0 <= from,
        holds(json, past_space(json, from), byte),
    ensures
        stands_next(json, from, past_space(json, from), byte),
{
    lemma_past_space(json, from, 0);
}

proof fn lemma_next_holds(json: Seq<u8>, from: int, at: int, byte: u8)
    requires
        stands_next(json, from, at, byte),
        !is_json_space(byte),
    ensures
        past_space(json, from) == at,
        holds(json, at, byte),
{
    lemma_past_space(json, from, at);
}

proof fn lemma_rest_is_blank(json: Seq<u8>, from: int)
    requires
        0 <= from <= json.len(),
    ensures
        past_space(json, from) == json.len() <==> is_blank(json, from, json.len() as int),
{
    lemma_past_space(json, from, json.len() as int);
}

proof fn lemma_member_at(json: Seq<u8>, at: int, member: MemberView, end: int)
    requires
        0 <= at,
    ensures
        member_at(json, at) == Some((member, end)) <==> stands_between(json, at, member, end),
{
    if member_at(json, at) == Some((member, end)) {
        lemma_holds_next(json, at + leading_value(json.skip(at))->0, 58);
    }
    if stands_between(json, at, member, end) {
        lemma_next_holds(json, at + leading_value(json.skip(at))->0, member.value - 1, 58);
    }
}

proof fn lemma_row_is_found(
    json: Seq<u8>,
    at: int,
    members: Seq<MemberView>,
    starts: Seq<int>,
    ends: Seq<int>,
    close: int,
)
    requires
        stand_in_a_row(json, at, members, starts, ends, close),
    ensures
        members_from(json, at) == Some(members),
    decreases members.len(),
{
    assert(stands_between(json, starts[0], members[0], ends[0]));
    lemma_member_at(json, at, members[0], ends[0]);
    if members.len() == 1 {
        lemma_next_holds(json, ends[0], close, 125);
        lemma_rest_is_blank(json, close + 1);
        assert(members =~= seq![members[0]]);
    } else {
        assert(stands_next(json, ends[0], starts[0int + 1] - 1, 44));
        lemma_next_holds(json, ends[0], starts[1] - 1, 44);
        let (m, s, e) = (members.drop_first(), starts.drop_first(), ends.drop_first());
        assert forall|i: int| 0 <= i < m.len() implies #[trigger] stands_between(
            json,
            s[i],
            m[i],
            e[i],
        ) by {
            assert(stands_between(json, starts[i + 1], members[i + 1], ends[i + 1]));
        }
        assert forall|i: int| 0 <= i < m.len() - 1 implies #[trigger] stands_next(
            json,
            e[i],
            s[i + 1] - 1,
            44,
        ) by {
            assert(stands_next(json, ends[i + 1], starts[(i + 1) + 1] - 1, 44));
        }
        lemma_row_is_found(json, starts[1], m, s, e, close);
        assert(seq![members[0]] + m =~= members);
    }
}

proof fn lemma_found_row(json: Seq<u8>, at: int) -> (row: (Seq<int>, Seq<int>, int))
    requires
        0 <= at,
        members_from(json, at) is Some,
    ensures
        stand_in_a_row(json, at, members_from(json, at)->0, row.0, row.1, row.2),
    decreases json.len() - at,
{
    let (member, end) = member_at(json, at)->0;
    lemma_member_at(json, at, member, end);
    let next = past_space(json, end);
    if holds(json, next, 125) {
        lemma_holds_next(json, end, 125);
        lemma_rest_is_blank(json, next + 1);
        (seq![at], seq![end], next)
    } else {
        lemma_holds_next(json, end, 44);
        let (s, e, close) = lemma_found_row(json, next + 1);
        let m = members_from(json, next + 1)->0;
        let (members, starts, ends) = (seq![member] + m, seq![at] + s, seq![end] + e);
        assert forall|i: int| 0 <= i < members.len() implies #[trigger] stands_between(
            json,
            starts[i],
            members[i],
            ends[i],
        ) by {
            if i > 0 {
                assert(stands_between(json, s[i - 1], m[i - 1], e[i - 1]));
            }
        }
        assert forall|i: int| 0 <= i < members.len() - 1 implies #[trigger] stands_next(
            json,
            ends[i],
            starts[i + 1] - 1,
            44,
        ) by {
            if i > 0 {
                assert(stands_next(json, e[i - 1], s[(i - 1) + 1] - 1, 44));
            }
        }
        assert(ends.last() == e.last());
        (starts, ends, close)
    }
}

/// Members are read wherever they stand in a row behind an opening bracket: all of
/// them, in order, however many there are, whatever they are called and whatever
/// their values are.
pub proof fn law_members_in_a_row_are_read(
    json: &[u8],
    read: Option<Vec<Member>>,
    open: int,
    row: Seq<MemberView>,
    starts: Seq<int>,
    ends: Seq<int>,
    close: int,
)
    requires
        call_ensures(read_members, (json,), read),
        stands_next(json@, 0, open, 123),
        stand_in_a_row(json@, open + 1, row, starts, ends, close),
        !exists|at: int| #[trigger] stands_next(json@, open + 1, at, 125),
    ensures
        read is Some,
        read->0@.len() == row.len(),
        forall|i: int|
            0 <= i < row.len() ==> (#[trigger] read->0@[i]).name@ == row[i].name
                && read->0@[i].value == row[i].value,
{
    lemma_next_holds(json@, 0, open, 123);
    lemma_row_is_found(json@, open + 1, row, starts, ends, close);
    if holds(json@, past_space(json@, open + 1), 125) {
        lemma_holds_next(json@, open + 1, 125);
    }
    assert(members(json@) == Some(row));
    assert forall|i: int| 0 <= i < row.len() implies (#[trigger] read->0@[i]).name@ == row[i].name
        && read->0@[i].value == row[i].value by {
        assert(members_view(read->0@)[i] == read->0@[i]@);
    }
}

/// Nothing is read but an object: an opening bracket, members in a row or none at
/// all, and a closing bracket that ends the text.
pub proof fn law_read_members_stand_in_a_row(json: &[u8], read: Option<Vec<Member>>)
    requires
        call_ensures(read_members, (json,), read),
        read is Some,
    ensures
        exists|open: int| #[trigger]
            stands_next(json@, 0, open, 123) && if read->0@.len() == 0 {
                exists|close: int| #[trigger]
                    stands_next(json@, open + 1, close, 125) && is_blank(
                        json@,
                        close + 1,
                        json@.len() as int,
                    )
            } else {
                exists|starts: Seq<int>, ends: Seq<int>, close: int| #[trigger]
                    stand_in_a_row(
                        json@,
                        open + 1,
                        members_view(read->0@),
                        starts,
                        ends,
                        close,
                    )
            },
{
    let open = past_space(json@, 0);
    let first = past_space(json@, open + 1);
    lemma_holds_next(json@, 0, 123);
    if holds(json@, first, 125) {
        lemma_holds_next(json@, open + 1, 125);
        lemma_rest_is_blank(json@, first + 1);
        assert(members_view(read->0@).len() == 0);
        assert(stands_next(json@, open + 1, first, 125));
    } else {
        let (starts, ends, close) = lemma_found_row(json@, open + 1);
        assert(stand_in_a_row(json@, open + 1, members_view(read->0@), starts, ends, close));
        assert(members_view(read->0@).len() == read->0@.len());
    }
    assert(stands_next(json@, 0, open, 123));
}

/// The empty object has no members, with blanks in it or not.
pub proof fn law_empty_object_has_no_members(
    json: &[u8],
    read: Option<Vec<Member>>,
    open: int,
    close: int,
)
    requires
        call_ensures(read_members, (json,), read),
        stands_next(json@, 0, open, 123),
        stands_next(json@, open + 1, close, 125),
        is_blank(json@, close + 1, json@.len() as int),
    ensures
        read is Some,
        read->0@.len() == 0,
{
    lemma_next_holds(json@, 0, open, 123);
    lemma_next_holds(json@, open + 1, close, 125);
    lemma_rest_is_blank(json@, close + 1);
    assert(members_view(read->0@).len() == read->0@.len());
}

} // verus!

//! Base64 in the alphabet for URLs, without padding.

use vstd::prelude::*;

verus! {

/// The six bits that a character stands for.
pub open spec fn sextet(c: u8) -> Option<int> {
    if 65 <= c <= 90 {
        Some(c - 65)
    } else if 97 <= c <= 122 {
        Some(c - 71)
    } else if 48 <= c <= 57 {
        Some(c + 4)
    } else if c == 45 {
        Some(62)
    } else if c == 95 {
        Some(63)
    } else {
        None
    }
}

/// Whether a text is the encoding of some bytes: its characters are of the
/// alphabet, its length is one that bytes come to, and the bits behind the last
/// byte are zero.
pub open spec fn is_encoding(text: Seq<u8>) -> bool {
    &&& forall|i: int| 0 <= i < text.len() ==> sextet(#[trigger] text[i]) is Some
    &&& text.len() % 4 != 1
    &&& text.len() % 4 == 2 ==> sextet(text.last())->0 % 16 == 0
    &&& text.len() % 4 == 3 ==> sextet(text.last())->0 % 4 == 0
}

/// The byte at a place of what a text encodes: it starts in one character and
/// ends in the next.
pub open spec fn encoded_byte(text: Seq<u8>, place: int) -> u8 {
    let start = place / 3 * 4 + place % 3;
    let (high, low) = (sextet(text[start])->0, sextet(text[start + 1])->0);
    if place % 3 == 0 {
        (high * 4 + low / 16) as u8
    } else if place % 3 == 1 {
        (high % 16 * 16 + low / 4) as u8
    } else {
        (high % 4 * 64 + low) as u8
    }
}

/// The bytes that a text encodes.
pub open spec fn decoded(text: Seq<u8>) -> Option<Seq<u8>> {
    if is_encoding(text) {
        Some(Seq::new((text.len() * 3 / 4) as nat, |place: int| encoded_byte(text, place)))
    } else {
        None
    }
}

fn read_sextet(c: u8) -> (r: Option<u8>)
    ensures
        r is Some <==> sextet(c) is Some,
        r matches Some(bits) ==> sextet(c) == Some(bits as int) && bits < 64,
{
    if 65 <= c && c <= 90 {
        Some(c - 65)
    } else if 97 <= c && c <= 122 {
        Some(c - 71)
    } else if 48 <= c && c <= 57 {
        Some(c + 4)
    } else if c == 45 {
        Some(62)
    } else if c == 95 {
        Some(63)
    } else {
        None
    }
}

/// The six bits of each character of a text.
fn read_sextets(text: &[u8]) -> (r: Option<Vec<u8>>)
    ensures
        r is Some <==> forall|i: int| 0 <= i < text@.len() ==> sextet(#[trigger] text@[i]) is Some,
        r matches Some(bits) ==> {
            &&& bits@.len() == text@.len()
            &&& forall|i: int|
                0 <= i < text@.len() ==> bits@[i] < 64 && sextet(#[trigger] text@[i]) == Some(
                    bits@[i] as int,
                )
        },
{
    let mut bits: Vec<u8> = Vec::new();
    while bits.len() < text.len()
        invariant
            bits@.len() <= text@.len(),
            forall|i: int|
                0 <= i < bits@.len() ==> bits@[i] < 64 && sextet(#[trigger] text@[i]) == Some(
                    bits@[i] as int,
                ),
        decreases text@.len() - bits@.len(),
    {
        match read_sextet(text[bits.len()]) {
            Some(b) => bits.push(b),
            None => {
                return None;
            },
        }
    }
    Some(bits)
}

/// Reads the bytes that a text encodes.
pub fn decode(text: &[u8]) -> (r: Option<Vec<u8>>)
    ensures
        r is Some <==> decoded(text@) is Some,
        r matches Some(bytes) ==> decoded(text@) == Some(bytes@),
{
    let bits = match read_sextets(text) {
        Some(bits) => bits,
        None => {
            return None;
        },
    };
    let len: usize = bits.len();
    let over: usize = len % 4;
    if over == 1 || (over == 2 && bits[len - 1] % 16 != 0) || (over == 3 && bits[len - 1] % 4
        != 0) {
        return None;
    }
    let count: usize = len / 4 * 3 + over * 3 / 4;
    assert(count == len * 3 / 4);
    let mut bytes: Vec<u8> = Vec::new();
    while bytes.len() < count
        invariant
            bytes@.len() <= count,
            count == len * 3 / 4,
            len % 4 != 1,
            len == text@.len(),
            len == bits@.len(),
            forall|i: int|
                0 <= i < len ==> bits@[i] < 64 && sextet(#[trigger] text@[i]) == Some(
                    bits@[i] as int,
                ),
            forall|place: int|
                0 <= place < bytes@.len() ==> #[trigger] bytes@[place] == encoded_byte(
                    text@,
                    place,
                ),
        decreases count - bytes@.len(),
    {
        let place: usize = bytes.len();
        let start: usize = place / 3 * 4 + place % 3;
        assert(start + 1 < len);
        let high: u8 = bits[start];
        let low: u8 = bits[start + 1];
        assert(sextet(text@[start as int]) == Some(high as int));
        assert(sextet(text@[start + 1]) == Some(low as int));
        let byte: u8 = if place % 3 == 0 {
            high * 4 + low / 16
        } else if place % 3 == 1 {
            high % 16 * 16 + low / 4
        } else {
            high % 4 * 64 + low
        };
        assert(byte == encoded_byte(text@, place as int));
        bytes.push(byte);
    }
    assert(bytes@ =~= decoded(text@)->0);
    Some(bytes)
}

/// The six bits of a character are its place in the alphabet.
pub proof fn law_bits_are_the_place_in_the_alphabet(c: u8, bits: int)
    ensures
        sextet(c) == Some(bits) <==> {
            let alphabet = "ABCDEFGHIJKLMNOPQRSTUVWXYZabcdefghijklmnopqrstuvwxyz0123456789-_"@;
            0 <= bits < alphabet.len() && alphabet[bits] == c as char
        },
{
    reveal_strlit("ABCDEFGHIJKLMNOPQRSTUVWXYZabcdefghijklmnopqrstuvwxyz0123456789-_");
}

/// What is decoded holds the very bits of the text, six to a character and eight
/// to a byte: a group of four characters and the three bytes of it are one number.
pub proof fn law_decoded_bytes_hold_the_bits(text: &[u8], read: Option<Vec<u8>>, group: int)
    requires
        call_ensures(decode, (text,), read),
        read is Some,
        0 <= group,
    ensures
        read->0@.len() == text@.len() * 6 / 8,
        ({
            let bytes = read->0@;
            let (b, t) = (group * 3, group * 4);
            let bits = |i: int| sextet(text@[i])->0;
            &&& t + 4 <= text@.len() ==> bytes[b] * 65536 + bytes[b + 1] * 256 + bytes[b + 2]
                == bits(t) * 262144 + bits(t + 1) * 4096 + bits(t + 2) * 64 + bits(t + 3)
            &&& t + 3 == text@.len() ==> (bytes[b] * 256 + bytes[b + 1]) * 4 == bits(t) * 4096
                + bits(t + 1) * 64 + bits(t + 2)
            &&& t + 2 == text@.len() ==> bytes[b] * 16 == bits(t) * 64 + bits(t + 1)
        }),
{
    let bytes = read->0@;
    let (b, t) = (group * 3, group * 4);
    assert(b / 3 == group && b % 3 == 0);
    assert((b + 1) / 3 == group && (b + 1) % 3 == 1);
    assert((b + 2) / 3 == group && (b + 2) % 3 == 2);
    if t + 2 <= text@.len() {
        assert(sextet(text@[t]) is Some);
        assert(sextet(text@[t + 1]) is Some);
        assert(bytes[b] == encoded_byte(text@, b));
    }
    if t + 3 <= text@.len() {
        assert(sextet(text@[t + 2]) is Some);
        assert(bytes[b + 1] == encoded_byte(text@, b + 1));
    }
    if t + 4 <= text@.len() {
        assert(sextet(text@[t + 3]) is Some);
        assert(bytes[b + 2] == encoded_byte(text@, b + 2));
    }
}

/// A text is decoded exactly where each of its characters is of the alphabet, it
/// does not end in a lone character, and no bit is left over that is set.
pub proof fn law_encodings_are_decoded(text: &[u8], read: Option<Vec<u8>>)
    requires
        call_ensures(decode, (text,), read),
    ensures
        read is Some <==> {
            &&& forall|i: int| 0 <= i < text@.len() ==> sextet(#[trigger] text@[i]) is Some
            &&& text@.len() % 4 != 1
            &&& text@.len() % 4 == 2 ==> sextet(text@.last())->0 % 16 == 0
            &&& text@.len() % 4 == 3 ==> sextet(text@.last())->0 % 4 == 0
        },
{
}

} // verus!

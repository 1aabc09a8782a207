//! Small operations on strings, stated over their characters.

use vstd::prelude::*;
use vstd::string::*;
use vstd::utf8::*;

verus! {

/// Whether two strings hold the same characters.
pub fn same_text(a: &str, b: &str) -> (same: bool)
    ensures
        same == (a@ == b@),
{
    let x = a.as_bytes();
    let y = b.as_bytes();
    proof {
        encode_utf8_decode_utf8(a@);
        encode_utf8_decode_utf8(b@);
    }
    if x.len() != y.len() {
        return false;
    }
    let mut i: usize = 0;
    while i < x.len()
        invariant
            i <= x.len(),
            x.len() == y.len(),
            x@ == encode_utf8(a@),
            y@ == encode_utf8(b@),
            forall|j: int| 0 <= j < i ==> x@[j] == y@[j],
        decreases x.len() - i,
    {
        if x[i] != y[i] {
            assert(x@[i as int] != y@[i as int]);
            return false;
        }
        i += 1;
    }
    assert(x@ =~= y@);
    true
}

/// The characters of a string, in order.
pub fn chars_of(s: &str) -> (chars: Vec<char>)
    ensures
        chars@ == s@,
{
    let mut chars: Vec<char> = Vec::new();
    for c in it: s.chars()
        invariant
            it.seq() == s@,
            chars@ == it.seq().take(it.index()),
    {
        chars.push(c);
    }
    chars
}

/// Reads bytes as text with `std::str::from_utf8`: text comes back for
/// well-formed UTF-8 and for nothing else, and it is the text that those
/// bytes encode.
#[verifier::external_body]
pub(crate) fn text_of<'a>(bytes: &'a [u8]) -> (text: Option<&'a str>)
    ensures
        text is Some <==> valid_utf8(bytes@),
        text matches Some(read) ==> encode_utf8(read@) == bytes@,
{
    match std::str::from_utf8(bytes) {
        Ok(read) => Some(read),
        Err(_) => None,
    }
}

/// The small letters, each at the place of its capital in the alphabet.
pub const SMALL_LETTERS: &'static str = "abcdefghijklmnopqrstuvwxyz";

/// A character in lower case: the small letter for a capital from `A` to
/// `Z`, and the character itself otherwise.
pub open spec fn lower(c: char) -> char {
    if 'A' <= c <= 'Z' {
        SMALL_LETTERS@[c as int - 'A' as int]
    } else {
        c
    }
}

/// Lower case moves a capital to the small letter 32 places on, and moves
/// nothing else; what comes out is no capital.
pub proof fn lower_shifts_capitals(c: char)
    ensures
        'A' <= c <= 'Z' ==> lower(c) as int == c as int + 32,
        !('A' <= c <= 'Z') ==> lower(c) == c,
        !('A' <= lower(c) <= 'Z'),
        lower(lower(c)) == lower(c),
{
    reveal_strlit("abcdefghijklmnopqrstuvwxyz");
    let small = SMALL_LETTERS@;
    assert(small[0] == 'a' && small[1] == 'b' && small[2] == 'c' && small[3] == 'd');
    assert(small[4] == 'e' && small[5] == 'f' && small[6] == 'g' && small[7] == 'h');
    assert(small[8] == 'i' && small[9] == 'j' && small[10] == 'k' && small[11] == 'l');
    assert(small[12] == 'm' && small[13] == 'n' && small[14] == 'o' && small[15] == 'p');
    assert(small[16] == 'q' && small[17] == 'r' && small[18] == 's' && small[19] == 't');
    assert(small[20] == 'u' && small[21] == 'v' && small[22] == 'w' && small[23] == 'x');
    assert(small[24] == 'y' && small[25] == 'z');
}

/// A text in lower case: each of its characters in lower case.
pub open spec fn lowercase(text: Seq<char>) -> Seq<char> {
    text.map_values(|c: char| lower(c))
}

/// Puts a text in lower case.
pub fn to_lowercase(text: &str) -> (lowered: String)
    ensures
        lowered@ == lowercase(text@),
{
    proof {
        reveal_strlit("abcdefghijklmnopqrstuvwxyz");
    }
    let chars = chars_of(text);
    let mut lowered = String::new();
    let mut i: usize = 0;
    while i < chars.len()
        invariant
            i <= chars.len(),
            chars@ == text@,
            SMALL_LETTERS@.len() == 26,
            lowered@ == lowercase(text@.take(i as int)),
        decreases chars.len() - i,
    {
        let c = chars[i];
        let piece = if 'A' <= c && c <= 'Z' {
            let place = (c as u32 - 'A' as u32) as usize;
            SMALL_LETTERS.substring_char(place, place + 1)
        } else {
            text.substring_char(i, i + 1)
        };
        assert(piece@ =~= seq![lower(c)]);
        assert(lowercase(text@.take(i + 1)) =~= lowercase(text@.take(i as int)) + piece@);
        lowered.append(piece);
        i += 1;
    }
    assert(text@.take(i as int) =~= text@);
    lowered
}

} // verus!

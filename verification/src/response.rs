//! The two responses, as bytes.

use vstd::prelude::*;
use vstd::string::*;
use vstd::utf8::*;

verus! {

/// The ten digits, each at the index of its value.
pub const DIGITS: &'static str = "0123456789";

/// The number `n` in decimal digits, without leading zeros.
pub open spec fn decimal(n: nat) -> Seq<char>
    decreases n,
{
    if n < 10 {
        seq![DIGITS@[n as int]]
    } else {
        decimal(n / 10).push(DIGITS@[(n % 10) as int])
    }
}

/// The number that a row of decimal digits stands for.
pub open spec fn decimal_value(digits: Seq<char>) -> nat
    decreases digits.len(),
{
    if digits.len() == 0 {
        0
    } else {
        10 * decimal_value(digits.drop_last()) + (digits.last() as nat - '0' as nat) as nat
    }
}

/// Writes a number in decimal digits.
pub fn decimal_string(n: usize) -> (digits: String)
    ensures
        digits@ == decimal(n as nat),
    decreases n,
{
    proof {
        reveal_strlit("0123456789");
    }
    let unit = DIGITS.substring_char(n % 10, n % 10 + 1);
    assert(unit@ =~= seq![DIGITS@[(n % 10) as int]]);
    if n < 10 {
        String::from_str(unit)
    } else {
        let tens = decimal_string(n / 10);
        assert(tens@ + unit@ =~= tens@.push(DIGITS@[(n % 10) as int]));
        tens.concat(unit)
    }
}

/// Each digit's character lies as far behind `0` as the digit's value.
proof fn digit_code(d: int)
    requires
        0 <= d < 10,
    ensures
        DIGITS@[d] as nat == '0' as nat + d,
        '0' <= DIGITS@[d] <= '9',
{
    reveal_strlit("0123456789");
    assert(DIGITS@[0] == '0');
    assert(DIGITS@[1] == '1');
    assert(DIGITS@[2] == '2');
    assert(DIGITS@[3] == '3');
    assert(DIGITS@[4] == '4');
    assert(DIGITS@[5] == '5');
    assert(DIGITS@[6] == '6');
    assert(DIGITS@[7] == '7');
    assert(DIGITS@[8] == '8');
    assert(DIGITS@[9] == '9');
}

/// The digits written for a number are its decimal numeral: they read back
/// as the number, hold nothing but digits, and begin with `0` for zero
/// alone.
pub proof fn decimal_reads_back(n: nat)
    ensures
        decimal_value(decimal(n)) == n,
        decimal(n).len() >= 1,
        forall|i: int| 0 <= i < decimal(n).len() ==> '0' <= #[trigger] decimal(n)[i] <= '9',
        decimal(n)[0] == '0' <==> n == 0,
    decreases n,
{
    digit_code((n % 10) as int);
    let digits = decimal(n);
    assert(digits.last() == DIGITS@[(n % 10) as int]);
    if n < 10 {
        assert(digits.drop_last() =~= Seq::<char>::empty());
        assert(decimal_value(digits.drop_last()) == 0);
    } else {
        decimal_reads_back(n / 10);
        assert(digits.drop_last() =~= decimal(n / 10));
    }
    assert(decimal_value(digits) == 10 * decimal_value(digits.drop_last()) + (n % 10));
}

/// The whole of the response for a file that could not be read.
pub const NOT_FOUND: &'static str = "HTTP/1.1 404 NOT FOUND\r\n\r\n";

/// What the success response opens with, up to the content type.
pub const OK_OPENING: &'static str = "HTTP/1.1 200 OK\r\nContent-Type: ";

/// What stands between the content type and the length of the body.
pub const LENGTH_FIELD: &'static str = "\r\ncontent-length: ";

/// What closes the head of the success response.
pub const HEAD_END: &'static str = "\r\n\r\n";

/// The head of the success response for a body of `length` bytes of
/// content type `mime`: the status line, the two header lines and the blank
/// line.
pub open spec fn ok_head(mime: Seq<char>, length: nat) -> Seq<char> {
    OK_OPENING@ + mime + LENGTH_FIELD@ + decimal(length) + HEAD_END@
}

/// The success response: the head in UTF-8, then the body as it is.
pub open spec fn ok_response(mime: Seq<char>, body: Seq<u8>) -> Seq<u8> {
    encode_utf8(ok_head(mime, body.len())) + body
}

/// The failure response: [`NOT_FOUND`] in UTF-8, and no body.
pub open spec fn not_found_response() -> Seq<u8> {
    encode_utf8(NOT_FOUND@)
}

/// Builds the response that carries a file.
pub fn ok(mime: &str, body: Vec<u8>) -> (response: Vec<u8>)
    ensures
        response@ == ok_response(mime@, body@),
{
    let mut body = body;
    let head = String::from_str(OK_OPENING).concat(mime).concat(LENGTH_FIELD).concat(
        decimal_string(body.len()).as_str(),
    ).concat(HEAD_END);
    let mut response = head.as_str().as_bytes_vec();
    response.append(&mut body);
    response
}

/// Builds the response for a file that could not be read.
pub fn not_found() -> (response: Vec<u8>)
    ensures
        response@ == not_found_response(),
{
    NOT_FOUND.as_bytes_vec()
}

/// The failure response is its text byte for byte: 26 bytes, each the code
/// of the character in its place.
pub proof fn not_found_bytes()
    ensures
        not_found_response().len() == 26,
        forall|i: int| 0 <= i < 26 ==> #[trigger] not_found_response()[i] == NOT_FOUND@[i] as u8,
        NOT_FOUND@ == "HTTP/1.1 404 NOT FOUND\r\n\r\n"@,
{
    reveal_strlit("HTTP/1.1 404 NOT FOUND\r\n\r\n");
    assert(is_ascii_chars(NOT_FOUND@));
    is_ascii_chars_encode_utf8(NOT_FOUND@);
}

/// The success response is framed by its body: it ends with the body,
/// byte for byte, and what stands before is the head, whose length field
/// is the decimal numeral of the body's length.
pub proof fn ok_response_framing(mime: Seq<char>, body: Seq<u8>)
    ensures
        ok_response(mime, body).len() >= body.len(),
        ok_response(mime, body).skip(ok_response(mime, body).len() - body.len()) == body,
        ok_response(mime, body).take(ok_response(mime, body).len() - body.len()) == encode_utf8(
            ok_head(mime, body.len()),
        ),
        (LENGTH_FIELD@ + decimal(body.len()) + HEAD_END@).is_suffix_of(
            ok_head(mime, body.len()),
        ),
        decimal_value(decimal(body.len())) == body.len(),
{
    decimal_reads_back(body.len());
    let head = encode_utf8(ok_head(mime, body.len()));
    assert((head + body).skip(head.len() as int) =~= body);
    assert((head + body).take(head.len() as int) =~= head);
    let tail = LENGTH_FIELD@ + decimal(body.len()) + HEAD_END@;
    let whole = ok_head(mime, body.len());
    assert(whole.skip(whole.len() - tail.len()) =~= tail);
}

} // verus!

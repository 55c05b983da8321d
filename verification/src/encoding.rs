use vstd::prelude::*;
use vstd::utf8::*;
use vstd::string::*;

verus! {

/// Whether the base64 text of so many bytes fits in memory: its length,
/// four characters for every started group of three bytes, is at most
/// `isize::MAX`, the most that can be allocated (`base64::encode_config`
/// panics beyond).
pub open spec fn base64_fits(len: int) -> bool {
    4 * ((len + 2) / 3) <= isize::MAX
}

/// Whether the base64 text of so many bytes fits in memory.
pub fn fits_base64(len: usize) -> (r: bool)
    ensures
        r == base64_fits(len as int),
{
    let extra: usize = if len % 3 > 0 { 1 } else { 0 };
    let groups: usize = len / 3 + extra;
    assert(groups == (len + 2) / 3) by (nonlinear_arith)
        requires
            groups == len / 3 + extra,
            extra == (if len % 3 > 0 { 1int } else { 0int }),
    ;
    groups <= (isize::MAX as usize) / 4
}

/// The character of a standard base64 digit (`0 <= n < 64`): `A`-`Z`,
/// `a`-`z`, `0`-`9`, `+`, `/`.
pub open spec fn b64_digit(n: int) -> char {
    if n < 26 {
        (65 + n) as char
    } else if n < 52 {
        (71 + n) as char
    } else if n < 62 {
        (n - 4) as char
    } else if n == 62 {
        '+'
    } else {
        '/'
    }
}

/// Standard base64 text of a byte sequence: four digits for every group of
/// three bytes, the last group padded with `=`.
pub open spec fn base64_encode(bytes: Seq<u8>) -> Seq<char>
    decreases bytes.len(),
{
    if bytes.len() == 0 {
        seq![]
    } else if bytes.len() == 1 {
        let a = bytes[0] as int;
        seq![b64_digit(a / 4), b64_digit((a % 4) * 16), '=', '=']
    } else if bytes.len() == 2 {
        let a = bytes[0] as int;
        let b = bytes[1] as int;
        seq![b64_digit(a / 4), b64_digit((a % 4) * 16 + b / 16), b64_digit((b % 16) * 4), '=']
    } else {
        let a = bytes[0] as int;
        let b = bytes[1] as int;
        let c = bytes[2] as int;
        seq![b64_digit(a / 4), b64_digit((a % 4) * 16 + b / 16), b64_digit((b % 16) * 4 + c / 64), b64_digit(c % 64)]
            + base64_encode(bytes.skip(3))
    }
}

/// Base64 text has four characters for every started group of three bytes,
/// all of them ASCII.
pub proof fn lemma_base64_shape(bytes: Seq<u8>)
    ensures
        base64_encode(bytes).len() == 4 * ((bytes.len() + 2) / 3),
        is_ascii_chars(base64_encode(bytes)),
    decreases bytes.len(),
{
    let t = base64_encode(bytes);
    if bytes.len() >= 3 {
        lemma_base64_shape(bytes.skip(3));
        let rest = base64_encode(bytes.skip(3));
        assert forall|i: int| 0 <= i < t.len() implies '\0' <= #[trigger] t[i] <= '\u{7f}' by {
            if i >= 4 {
                assert(t[i] == rest[i - 4]);
            }
        }
    } else {
        assert forall|i: int| 0 <= i < t.len() implies '\0' <= #[trigger] t[i] <= '\u{7f}' by {}
    }
}

/// The bytes that standard base64 text (given as its UTF-8 bytes) stands
/// for, when it is well formed.
pub uninterp spec fn base64_decode(text: Seq<u8>) -> Option<Seq<u8>>;

/// Calls `base64::encode_config` with `base64::STANDARD`: the standard
/// base64 text of the bytes, which decoding with the same configuration
/// turns back into the bytes.
#[verifier::external_body]
fn base64_encode_standard(bytes: &[u8]) -> (text: String)
    requires
        base64_fits(bytes@.len() as int),
    ensures
        text@ == base64_encode(bytes@),
        base64_decode(encode_utf8(text@)) == Some(bytes@),
{
    base64::encode_config(bytes, base64::STANDARD)
}

/// Calls `base64::decode_config` with `base64::STANDARD`; `None` stands for its error.
#[verifier::external_body]
fn base64_decode_standard(text: &[u8]) -> (bytes: Option<Vec<u8>>)
    requires
        text@.len() <= usize::MAX - 3,
    ensures
        match bytes {
            Some(b) => base64_decode(text@) == Some(b@),
            None => base64_decode(text@) is None,
        },
{
    base64::decode_config(text, base64::STANDARD).ok()
}

/// What [`decode_base64`] gives: the decoded bytes, or `None` for text that
/// is not base64 (or too long to hold in memory).
pub open spec fn spec_decode_base64(text: Seq<char>) -> Option<Seq<u8>> {
    if encode_utf8(text).len() > usize::MAX - 3 {
        None
    } else {
        base64_decode(encode_utf8(text))
    }
}

/// Encodes bytes as standard base64 text.
pub fn encode_base64(bytes: &[u8]) -> (text: String)
    requires
        base64_fits(bytes@.len() as int),
    ensures
        text@ == base64_encode(bytes@),
        base64_decode(encode_utf8(text@)) == Some(bytes@),
        spec_decode_base64(text@) == Some(bytes@),
        is_ascii_chars(text@),
        text@.len() == 4 * ((bytes@.len() + 2) / 3),
{
    let text = base64_encode_standard(bytes);
    proof {
        lemma_base64_shape(bytes@);
        is_ascii_chars_encode_utf8(text@);
    }
    text
}

/// Decodes standard base64 text; `None` when the text is not base64.
pub fn decode_base64(text: &str) -> (bytes: Option<Vec<u8>>)
    ensures
        match bytes {
            Some(b) => spec_decode_base64(text@) == Some(b@),
            None => spec_decode_base64(text@) is None,
        },
{
    let bytes = text.as_bytes();
    if bytes.len() > usize::MAX - 3 {
        None
    } else {
        base64_decode_standard(bytes)
    }
}

} // verus!

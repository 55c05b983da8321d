use vstd::prelude::*;
use vstd::utf8::*;
use vstd::string::*;

verus! {

/// The characters whose code points are the given bytes.
pub open spec fn ascii_chars(bytes: Seq<u8>) -> Seq<char> {
    bytes.map_values(|b: u8| b as char)
}

/// Every byte is below 128.
pub open spec fn is_ascii_bytes(bytes: Seq<u8>) -> bool {
    forall|i: int| 0 <= i < bytes.len() ==> #[trigger] bytes[i] < 128
}

/// Calls `String::from_utf8`, which succeeds exactly when the bytes are valid
/// UTF-8 and then holds the characters they encode.
#[verifier::external_body]
pub(crate) fn string_from_utf8(bytes: Vec<u8>) -> (r: Option<String>)
    ensures
        r is Some <==> valid_utf8(bytes@),
        r matches Some(s) ==> s@ == decode_utf8(bytes@),
{
    String::from_utf8(bytes).ok()
}

/// ASCII bytes are valid UTF-8, and they encode the characters with the same codes.
pub proof fn lemma_ascii_utf8(bytes: Seq<u8>)
    requires
        is_ascii_bytes(bytes),
    ensures
        valid_utf8(bytes),
        decode_utf8(bytes) == ascii_chars(bytes),
        encode_utf8(ascii_chars(bytes)) == bytes,
        is_ascii_chars(ascii_chars(bytes)),
{
    let chars = ascii_chars(bytes);
    assert forall|i: int| 0 <= i < chars.len() implies '\0' <= #[trigger] chars[i] <= '\u{7f}' by {
        let b = bytes[i];
        assert(b < 128);
        assert(chars[i] == b as char);
    }
    assert(is_ascii_chars(chars));
    is_ascii_chars_encode_utf8(chars);
    assert forall|i: int| 0 <= i < bytes.len() implies #[trigger] encode_utf8(chars)[i] == bytes[i] by {
        let b = bytes[i];
        assert(b < 128);
        assert(chars[i] as u8 == b);
    }
    assert(encode_utf8(chars) =~= bytes);
    encode_utf8_valid_utf8(chars);
    encode_utf8_decode_utf8(chars);
}

/// The UTF-8 bytes of an ASCII character sequence are its codes.
pub proof fn lemma_ascii_chars_bytes(chars: Seq<char>)
    requires
        is_ascii_chars(chars),
    ensures
        encode_utf8(chars) == chars.map_values(|c: char| c as u8),
        is_ascii_bytes(encode_utf8(chars)),
        ascii_chars(encode_utf8(chars)) == chars,
{
    is_ascii_chars_encode_utf8(chars);
    is_ascii_chars_nat_bound(chars);
    let bytes = encode_utf8(chars);
    assert(bytes =~= chars.map_values(|c: char| c as u8));
    assert forall|i: int| 0 <= i < bytes.len() implies #[trigger] bytes[i] < 128 by {
        assert((chars[i] as nat) < 128);
    }
    assert forall|i: int| 0 <= i < chars.len() implies #[trigger] ascii_chars(bytes)[i] == chars[i] by {
        assert((chars[i] as nat) < 128);
        char_u32_cast(chars[i], chars[i] as u32);
    }
    assert(ascii_chars(bytes) =~= chars);
}

/// Builds the string whose characters have the given ASCII codes.
pub fn ascii_string(bytes: Vec<u8>) -> (s: String)
    requires
        is_ascii_bytes(bytes@),
    ensures
        s@ == ascii_chars(bytes@),
{
    proof {
        lemma_ascii_utf8(bytes@);
    }
    match string_from_utf8(bytes) {
        Some(s) => s,
        None => {
            assert(false);
            String::new()
        },
    }
}

} // verus!

verus! {

/// The ASCII code of the lower-case hexadecimal digit for `n` (`0 <= n < 16`).
pub open spec fn hex_digit(n: int) -> u8 {
    if n < 10 {
        (48 + n) as u8
    } else {
        (87 + n) as u8
    }
}

/// Two lower-case hexadecimal digits per byte, most significant digit first.
pub open spec fn hex_lower_bytes(bytes: Seq<u8>) -> Seq<u8>
    decreases bytes.len(),
{
    if bytes.len() == 0 {
        seq![]
    } else {
        hex_lower_bytes(bytes.drop_last()) + seq![
            hex_digit(bytes.last() as int / 16),
            hex_digit(bytes.last() as int % 16),
        ]
    }
}

/// The lower-case hexadecimal text of a byte sequence (as `format!("{:02x}")` per byte).
pub open spec fn hex_lower(bytes: Seq<u8>) -> Seq<char> {
    ascii_chars(hex_lower_bytes(bytes))
}

/// Hexadecimal text is twice as long as its bytes and holds only ASCII.
pub proof fn lemma_hex_lower_bytes(bytes: Seq<u8>)
    ensures
        hex_lower_bytes(bytes).len() == 2 * bytes.len(),
        is_ascii_bytes(hex_lower_bytes(bytes)),
    decreases bytes.len(),
{
    if bytes.len() > 0 {
        lemma_hex_lower_bytes(bytes.drop_last());
        let h = hex_lower_bytes(bytes);
        let p = hex_lower_bytes(bytes.drop_last());
        assert forall|i: int| 0 <= i < h.len() implies #[trigger] h[i] < 128 by {
            if i < p.len() {
                assert(h[i] == p[i]);
            }
        }
    }
}

/// A lower-case hexadecimal digit.
pub open spec fn hex_char(c: char) -> bool {
    ('0' <= c <= '9') || ('a' <= c <= 'f')
}

/// Hexadecimal text holds only lower-case hexadecimal digits.
pub proof fn lemma_hex_lower_chars(bytes: Seq<u8>)
    ensures
        forall|i: int| 0 <= i < hex_lower(bytes).len() ==> hex_char(#[trigger] hex_lower(bytes)[i]),
    decreases bytes.len(),
{
    let h = hex_lower_bytes(bytes);
    assert forall|i: int| 0 <= i < h.len() implies (48 <= #[trigger] h[i] <= 57 || 97 <= h[i] <= 102) by {
        lemma_hex_lower_digit_codes(bytes, i);
    }
    assert forall|i: int| 0 <= i < hex_lower(bytes).len() implies hex_char(#[trigger] hex_lower(bytes)[i]) by {
        let b = h[i];
        assert(hex_lower(bytes)[i] == b as char);
    }
}

/// Every code of hexadecimal text is that of a digit or of `a` to `f`.
proof fn lemma_hex_lower_digit_codes(bytes: Seq<u8>, i: int)
    requires
        0 <= i < hex_lower_bytes(bytes).len(),
    ensures
        48 <= hex_lower_bytes(bytes)[i] <= 57 || 97 <= hex_lower_bytes(bytes)[i] <= 102,
    decreases bytes.len(),
{
    if bytes.len() > 0 {
        let p = hex_lower_bytes(bytes.drop_last());
        if i < p.len() {
            lemma_hex_lower_digit_codes(bytes.drop_last(), i);
        }
    }
}

fn hex_digit_exec(n: u8) -> (d: u8)
    requires
        n < 16,
    ensures
        d == hex_digit(n as int),
        d < 128,
{
    if n < 10 {
        48 + n
    } else {
        87 + n
    }
}

/// Lower-case hexadecimal text of the bytes, two digits per byte.
pub fn to_hex_lower(bytes: &[u8]) -> (s: String)
    ensures
        s@ == hex_lower(bytes@),
        s@.len() == 2 * bytes@.len(),
{
    let mut out: Vec<u8> = Vec::new();
    let mut i: usize = 0;
    while i < bytes.len()
        invariant
            i <= bytes@.len(),
            out@ == hex_lower_bytes(bytes@.take(i as int)),
        decreases bytes@.len() - i,
    {
        let b = bytes[i];
        out.push(hex_digit_exec(b / 16));
        out.push(hex_digit_exec(b % 16));
        proof {
            assert(bytes@.take(i + 1).drop_last() =~= bytes@.take(i as int));
        }
        i = i + 1;
    }
    proof {
        assert(bytes@.take(bytes@.len() as int) =~= bytes@);
        lemma_hex_lower_bytes(bytes@);
    }
    ascii_string(out)
}

} // verus!

verus! {

/// The character sequences of a sequence of strings.
pub open spec fn string_views(v: Seq<String>) -> Seq<Seq<char>> {
    v.map_values(|s: String| s@)
}

/// Whether the strings hold one equal to `s`.
pub fn contains_string(v: &Vec<String>, s: &String) -> (r: bool)
    ensures
        r == string_views(v@).contains(s@),
{
    let mut i: usize = 0;
    while i < v.len()
        invariant
            i <= v@.len(),
            forall|j: int| 0 <= j < i ==> v@[j]@ != s@,
        decreases v@.len() - i,
    {
        if v[i] == *s {
            assert(string_views(v@)[i as int] == s@);
            return true;
        }
        i = i + 1;
    }
    proof {
        if string_views(v@).contains(s@) {
            let k = choose|k: int| 0 <= k < string_views(v@).len() && string_views(v@)[k] == s@;
            assert(v@[k]@ == s@);
        }
    }
    false
}

/// Whether the strings hold one equal to the text `s`.
pub fn contains_str(v: &[String], s: &str) -> (r: bool)
    ensures
        r == string_views(v@).contains(s@),
{
    let wanted = String::from_str(s);
    let mut i: usize = 0;
    while i < v.len()
        invariant
            i <= v@.len(),
            wanted@ == s@,
            forall|j: int| 0 <= j < i ==> v@[j]@ != s@,
        decreases v@.len() - i,
    {
        if v[i] == wanted {
            assert(string_views(v@)[i as int] == s@);
            return true;
        }
        i = i + 1;
    }
    proof {
        if string_views(v@).contains(s@) {
            let k = choose|k: int| 0 <= k < string_views(v@).len() && string_views(v@)[k] == s@;
            assert(v@[k]@ == s@);
        }
    }
    false
}

} // verus!

verus! {

/// Whether two texts are equal, character by character.
pub fn same_text(a: &str, b: &str) -> (r: bool)
    ensures
        r == (a@ == b@),
{
    let n = a.unicode_len();
    if n != b.unicode_len() {
        return false;
    }
    let mut i: usize = 0;
    while i < n
        invariant
            n == a@.len(),
            n == b@.len(),
            i <= n,
            forall|j: int| 0 <= j < i ==> a@[j] == b@[j],
        decreases n - i,
    {
        if a.get_char(i) != b.get_char(i) {
            return false;
        }
        i = i + 1;
    }
    proof {
        assert(a@ =~= b@);
    }
    true
}

} // verus!

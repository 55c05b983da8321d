use vstd::prelude::*;
use rand::Rng;
use crate::text::{ascii_chars, ascii_string, is_ascii_bytes};

verus! {

/// An ASCII letter or digit.
pub open spec fn is_alphanumeric_byte(b: u8) -> bool {
    (48 <= b <= 57) || (65 <= b <= 90) || (97 <= b <= 122)
}

/// Every byte is an ASCII letter or digit.
pub open spec fn is_alphanumeric_bytes(bytes: Seq<u8>) -> bool {
    forall|i: int| 0 <= i < bytes.len() ==> is_alphanumeric_byte(#[trigger] bytes[i])
}

/// An ASCII letter or digit, as a character.
pub open spec fn alphanumeric_ascii_char(c: char) -> bool {
    ('0' <= c <= '9') || ('A' <= c <= 'Z') || ('a' <= c <= 'z')
}

/// Every character is an ASCII letter or digit.
pub open spec fn is_alphanumeric_text(s: Seq<char>) -> bool {
    forall|i: int| 0 <= i < s.len() ==> alphanumeric_ascii_char(#[trigger] s[i])
}

/// Alphanumeric bytes are ASCII.
pub proof fn lemma_alphanumeric_is_ascii(bytes: Seq<u8>)
    requires
        is_alphanumeric_bytes(bytes),
    ensures
        is_ascii_bytes(bytes),
{
    assert forall|i: int| 0 <= i < bytes.len() implies #[trigger] bytes[i] < 128 by {
        assert(is_alphanumeric_byte(bytes[i]));
    }
}

/// Calls `rand::thread_rng().sample(rand::distributions::Alphanumeric)`: a
/// byte drawn from `A-Z`, `a-z` and `0-9`. Which one is left to chance.
#[verifier::external_body]
fn random_alphanumeric_byte() -> (b: u8)
    ensures
        is_alphanumeric_byte(b),
{
    rand::thread_rng().sample(rand::distributions::Alphanumeric)
}

/// `length` random ASCII letters and digits.
pub fn random_alphanumeric(length: usize) -> (bytes: Vec<u8>)
    ensures
        bytes@.len() == length,
        is_alphanumeric_bytes(bytes@),
{
    let mut bytes: Vec<u8> = Vec::new();
    while bytes.len() < length
        invariant
            bytes@.len() <= length,
            is_alphanumeric_bytes(bytes@),
        decreases length - bytes@.len(),
    {
        let b = random_alphanumeric_byte();
        bytes.push(b);
    }
    bytes
}

/// The length of identifiers made by [`id`].
pub const ID_LENGTH: usize = 20;

/// A random identifier of `length` ASCII letters and digits.
pub fn id_with_length(length: usize) -> (id: String)
    ensures
        id@.len() == length,
        is_alphanumeric_text(id@),
        is_alphanumeric_bytes(id@.map_values(|c: char| c as u8)),
        id@ == ascii_chars(id@.map_values(|c: char| c as u8)),
{
    let bytes = random_alphanumeric(length);
    proof {
        lemma_alphanumeric_is_ascii(bytes@);
    }
    let ghost b = bytes@;
    let id = ascii_string(bytes);
    proof {
        assert forall|i: int| 0 <= i < b.len() implies (#[trigger] b[i] as char) as u8 == b[i] by {
            assert(b[i] < 128);
        }
        assert(id@.map_values(|c: char| c as u8) =~= b);
        assert forall|i: int| 0 <= i < id@.len() implies alphanumeric_ascii_char(#[trigger] id@[i]) by {
            assert(is_alphanumeric_byte(b[i]));
            assert(id@[i] == b[i] as char);
        }
    }
    id
}

/// A random identifier of [`ID_LENGTH`] ASCII letters and digits.
pub fn id() -> (id: String)
    ensures
        id@.len() == ID_LENGTH,
        is_alphanumeric_text(id@),
{
    id_with_length(ID_LENGTH)
}

} // verus!

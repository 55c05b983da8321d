use vstd::prelude::*;
use crate::error::Error;
use crate::random::{is_alphanumeric_bytes, random_alphanumeric};

pub mod aes128;
pub mod symmetric;

verus! {

/// Ciphertext together with the nonce it was made with.
pub struct EncryptionResult {
    pub nonce: String,
    pub bytes: Vec<u8>,
}

/// The view of a byte-vector result: the bytes, or the error.
pub open spec fn bytes_result(r: Result<Vec<u8>, Error>) -> Result<Seq<u8>, Error> {
    match r {
        Ok(v) => Ok(v@),
        Err(e) => Err(e),
    }
}

/// `length` random ASCII letters and digits, used for keys and nonces.
pub fn generate_string(length: usize) -> (bytes: Vec<u8>)
    ensures
        bytes@.len() == length,
        is_alphanumeric_bytes(bytes@),
{
    random_alphanumeric(length)
}

} // verus!

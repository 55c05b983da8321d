use vstd::prelude::*;
use vstd::string::*;
use vstd::utf8::*;
use pbkdf2::password_hash::{PasswordHash, PasswordHasher, PasswordVerifier, Salt, SaltString};
use crate::error::Error;
use crate::text::hex_char;
use crate::random::{alphanumeric_ascii_char, is_alphanumeric_text};

verus! {

/// Number of PBKDF2 rounds used when hashing a password.
pub const PASSWORD_HASH_ITERATIONS: u32 = 10000;

/// Length in bytes of the PBKDF2 output stored in a password hash.
pub const PASSWORD_HASH_LENGTH: usize = 32;

/// The PHC string that PBKDF2-SHA512 gives for a password, a salt, a number
/// of rounds and an output length, when the inputs are usable.
pub uninterp spec fn pbkdf2_sha512_phc(
    password: Seq<char>,
    salt: Seq<char>,
    rounds: u32,
    output_length: usize,
) -> Option<Seq<char>>;

/// Whether a password matches a PHC password hash string.
pub uninterp spec fn pbkdf2_phc_verifies(password: Seq<char>, phc: Seq<char>) -> bool;

/// A character of the standard base64 alphabet.
pub open spec fn b64_char(c: char) -> bool {
    ('A' <= c <= 'Z') || ('a' <= c <= 'z') || ('0' <= c <= '9') || c == '+' || c == '/'
}

/// A salt text that PBKDF2 takes as it is: 4 to 64 characters of the base64
/// alphabet, in whole groups of four.
pub open spec fn usable_salt_text(salt: Seq<char>) -> bool {
    &&& 4 <= salt.len() <= 64
    &&& salt.len() % 4 == 0
    &&& forall|i: int| 0 <= i < salt.len() ==> b64_char(#[trigger] salt[i])
}

/// Hexadecimal text of 4 to 64 digits, in whole groups of four, is taken as
/// a salt as it is.
pub proof fn lemma_hex_salt_usable(salt: Seq<char>)
    requires
        4 <= salt.len() <= 64,
        salt.len() % 4 == 0,
        forall|i: int| 0 <= i < salt.len() ==> hex_char(#[trigger] salt[i]),
    ensures
        usable_salt_text(salt),
{
    assert forall|i: int| 0 <= i < salt.len() implies b64_char(#[trigger] salt[i]) by {
        assert(hex_char(salt[i]));
    }
}

/// Text of 4 to 64 ASCII letters and digits, in whole groups of four, is
/// taken as a salt as it is.
pub proof fn lemma_alphanumeric_salt_usable(salt: Seq<char>)
    requires
        4 <= salt.len() <= 64,
        salt.len() % 4 == 0,
        is_alphanumeric_text(salt),
    ensures
        usable_salt_text(salt),
{
    assert forall|i: int| 0 <= i < salt.len() implies b64_char(#[trigger] salt[i]) by {
        assert(alphanumeric_ascii_char(salt[i]));
    }
}

/// The start of every PBKDF2-SHA512 PHC string: `$pbkdf2-sha512$`.
pub open spec fn phc_prefix() -> Seq<char> {
    seq!['$', 'p', 'b', 'k', 'd', 'f', '2', '-', 's', 'h', 'a', '5', '1', '2', '$']
}

/// The shape of a PBKDF2-SHA512 PHC string made with the given output
/// length: it starts with [`phc_prefix`], and its hash part (after the last
/// `$`) is the unpadded base64 text of the output, ASCII characters.
pub open spec fn phc_shaped(phc: Seq<char>, output_length: usize) -> bool {
    &&& phc_prefix().is_prefix_of(phc)
    &&& phc_hash_part(phc) matches Some(h)
    &&& h.len() == (4 * output_length + 2) / 3
    &&& is_ascii_chars(h)
}

/// Calls `Salt::new` on the salt and `Pbkdf2::hash_password_customized` with
/// the `pbkdf2-sha512` algorithm, the given rounds and output length, and
/// renders the hash as its PHC string. `None` stands for the crate's error.
/// What it claims: the result is a function of the four arguments; it is
/// given for a salt of 4 to 64 base64 characters in whole groups of four
/// (which `Salt::new` accepts and which decodes) and an output length of 10
/// to 64 bytes (the bounds of `Output`); the string is `$pbkdf2-sha512$`,
/// the parameters, the salt and the base64 output, each after a `$`; and
/// verifying the same password against it succeeds, since verification
/// re-hashes with the parameters it records.
#[verifier::external_body]
fn pbkdf2_sha512_hash(password: &str, salt: &str, rounds: u32, output_length: usize) -> (r: Option<String>)
    ensures
        match r {
            Some(s) => pbkdf2_sha512_phc(password@, salt@, rounds, output_length) == Some(s@),
            None => pbkdf2_sha512_phc(password@, salt@, rounds, output_length) is None,
        },
        usable_salt_text(salt@) && 10 <= output_length <= 64 ==> r is Some,
        r matches Some(s) ==> phc_shaped(s@, output_length),
        r matches Some(s) ==> pbkdf2_phc_verifies(password@, s@),
{
    let salt = match Salt::new(salt) {
        Ok(salt) => salt,
        Err(_) => return None,
    };
    let params = pbkdf2::Params { rounds, output_length };
    match pbkdf2::Pbkdf2.hash_password_customized(
        password.as_bytes(),
        Some(pbkdf2::Algorithm::Pbkdf2Sha512.ident()),
        None,
        params,
        salt,
    ) {
        Ok(hash) => Some(hash.to_string()),
        Err(_) => None,
    }
}

/// The PHC string that PBKDF2-SHA512 gives for a password, salt bytes (which
/// the PHC string holds in B64), a number of rounds and an output length,
/// when the inputs are usable.
pub uninterp spec fn pbkdf2_sha512_phc_salt_bytes(
    password: Seq<char>,
    salt: Seq<u8>,
    rounds: u32,
    output_length: usize,
) -> Option<Seq<char>>;

/// Calls `SaltString::b64_encode` on the salt bytes and
/// `Pbkdf2::hash_password_customized` with the `pbkdf2-sha512` algorithm,
/// the given rounds and output length, and renders the hash as its PHC
/// string. The salt must have at least 3 bytes: the crate turns the encoded
/// salt back into a `Salt` with `expect`, which fails for fewer than 4
/// characters. `None` stands for the crate's error, which comes exactly for
/// salts of more than 48 bytes (more than 64 characters encoded) and output
/// lengths outside 10 to 64 bytes. What it claims besides: the result is a
/// function of the four arguments, has the shape of a PBKDF2-SHA512 PHC
/// string, and verifying the same password against it succeeds.
#[verifier::external_body]
fn pbkdf2_sha512_hash_salt_bytes(password: &str, salt: &[u8], rounds: u32, output_length: usize) -> (r: Option<String>)
    requires
        3 <= salt@.len(),
    ensures
        match r {
            Some(s) => pbkdf2_sha512_phc_salt_bytes(password@, salt@, rounds, output_length) == Some(s@),
            None => pbkdf2_sha512_phc_salt_bytes(password@, salt@, rounds, output_length) is None,
        },
        r is Some <==> (salt@.len() <= 48 && 10 <= output_length && output_length <= 64),
        r matches Some(s) ==> phc_shaped(s@, output_length),
        r matches Some(s) ==> pbkdf2_phc_verifies(password@, s@),
{
    let salt = match SaltString::b64_encode(salt) {
        Ok(salt) => salt,
        Err(_) => return None,
    };
    let params = pbkdf2::Params { rounds, output_length };
    match pbkdf2::Pbkdf2.hash_password_customized(
        password.as_bytes(),
        Some(pbkdf2::Algorithm::Pbkdf2Sha512.ident()),
        None,
        params,
        &salt,
    ) {
        Ok(hash) => Some(hash.to_string()),
        Err(_) => None,
    }
}

/// Calls `PasswordHash::new` on the PHC string and `Pbkdf2::verify_password`
/// with the password; false when either fails. A string that does not start
/// with `$` is no PHC string (`PasswordHash::parse` refuses it), so it never
/// verifies.
#[verifier::external_body]
fn pbkdf2_verify(password: &str, phc: &str) -> (r: bool)
    ensures
        r == pbkdf2_phc_verifies(password@, phc@),
        phc@.len() == 0 || phc@[0] != '$' ==> !r,
{
    match PasswordHash::new(phc) {
        Ok(hash) => pbkdf2::Pbkdf2.verify_password(password.as_bytes(), &hash).is_ok(),
        Err(_) => false,
    }
}

/// What [`hash_password`] gives for a password and a salt.
pub open spec fn spec_hash_password(password: Seq<char>, salt: Seq<char>) -> Result<Seq<char>, Error> {
    match pbkdf2_sha512_phc(password, salt, PASSWORD_HASH_ITERATIONS, PASSWORD_HASH_LENGTH) {
        Some(phc) => Ok(phc),
        None => Err(Error::PasswordHashFailed),
    }
}

/// Hashes a password with PBKDF2-SHA512 and returns the full PHC hash string,
/// which starts with `$pbkdf2-sha512$`. A salt of 4 to 64 base64 characters
/// in whole groups of four is always taken.
pub fn hash_password(password: &str, salt: &str) -> (r: Result<String, Error>)
    ensures
        match r {
            Ok(phc) => spec_hash_password(password@, salt@) == Ok::<Seq<char>, Error>(phc@),
            Err(e) => spec_hash_password(password@, salt@) == Err::<Seq<char>, Error>(e),
        },
        usable_salt_text(salt@) ==> r is Ok,
        r matches Ok(phc) ==> phc_shaped(phc@, PASSWORD_HASH_LENGTH),
        r matches Ok(phc) ==> pbkdf2_phc_verifies(password@, phc@),
{
    match pbkdf2_sha512_hash(password, salt, PASSWORD_HASH_ITERATIONS, PASSWORD_HASH_LENGTH) {
        Some(phc) => Ok(phc),
        None => Err(Error::PasswordHashFailed),
    }
}

/// What [`hash_password_with_salt`] gives for a password and a salt text: a
/// salt text PBKDF2 takes as it is is used so; any other salt is used by its
/// bytes, which must number 3 to 48.
pub open spec fn spec_hash_password_with_salt(password: Seq<char>, salt: Seq<char>) -> Result<Seq<char>, Error> {
    let phc = if usable_salt_text(salt) {
        pbkdf2_sha512_phc(password, salt, PASSWORD_HASH_ITERATIONS, PASSWORD_HASH_LENGTH)
    } else if encode_utf8(salt).len() < 3 {
        None
    } else {
        pbkdf2_sha512_phc_salt_bytes(password, encode_utf8(salt), PASSWORD_HASH_ITERATIONS, PASSWORD_HASH_LENGTH)
    };
    match phc {
        Some(phc) => Ok(phc),
        None => Err(Error::PasswordHashFailed),
    }
}

/// Whether a salt text is used as it is (see [`usable_salt_text`]).
fn salt_text_usable(salt: &str) -> (r: bool)
    ensures
        r == usable_salt_text(salt@),
{
    let n = salt.unicode_len();
    if n < 4 || n > 64 || n % 4 != 0 {
        return false;
    }
    let mut i: usize = 0;
    while i < n
        invariant
            n == salt@.len(),
            i <= n,
            forall|j: int| 0 <= j < i ==> b64_char(#[trigger] salt@[j]),
        decreases n - i,
    {
        let c = salt.get_char(i);
        if !(('A' <= c && c <= 'Z') || ('a' <= c && c <= 'z') || ('0' <= c && c <= '9') || c == '+' || c == '/') {
            return false;
        }
        i = i + 1;
    }
    true
}

/// Hashes a password with PBKDF2-SHA512 and returns the full PHC hash string.
/// A salt of 4 to 64 base64 characters in whole groups of four is used as it
/// is; any other salt is used by its bytes, and fails for fewer than 3 or
/// more than 48 of them.
pub fn hash_password_with_salt(password: &str, salt: &str) -> (r: Result<String, Error>)
    ensures
        match r {
            Ok(phc) => spec_hash_password_with_salt(password@, salt@) == Ok::<Seq<char>, Error>(phc@),
            Err(e) => spec_hash_password_with_salt(password@, salt@) == Err::<Seq<char>, Error>(e),
        },
        r is Ok <==> usable_salt_text(salt@) || 3 <= encode_utf8(salt@).len() <= 48,
        r matches Ok(phc) ==> phc_shaped(phc@, PASSWORD_HASH_LENGTH),
        r matches Ok(phc) ==> pbkdf2_phc_verifies(password@, phc@),
{
    if salt_text_usable(salt) {
        return hash_password(password, salt);
    }
    let bytes = salt.as_bytes();
    if bytes.len() < 3 {
        return Err(Error::PasswordHashFailed);
    }
    match pbkdf2_sha512_hash_salt_bytes(password, bytes, PASSWORD_HASH_ITERATIONS, PASSWORD_HASH_LENGTH) {
        Some(phc) => Ok(phc),
        None => Err(Error::PasswordHashFailed),
    }
}

/// Whether the password matches the PHC hash string; false for a string that
/// does not start with `$`, which is no PHC hash.
pub fn verify_password_hash(password: &str, phc_hash: &str) -> (r: bool)
    ensures
        r == pbkdf2_phc_verifies(password@, phc_hash@),
        phc_hash@.len() == 0 || phc_hash@[0] != '$' ==> !r,
{
    pbkdf2_verify(password, phc_hash)
}

/// Index of the last `$` in the text, or -1 when it has none.
pub open spec fn last_dollar(s: Seq<char>) -> int
    decreases s.len(),
{
    if s.len() == 0 {
        -1
    } else if s.last() == '$' {
        s.len() - 1
    } else {
        last_dollar(s.drop_last())
    }
}

/// The hash part of a PHC string: the text after its last `$`.
pub open spec fn phc_hash_part(phc: Seq<char>) -> Option<Seq<char>> {
    let i = last_dollar(phc);
    if i < 0 {
        None
    } else {
        Some(phc.subrange(i + 1, phc.len() as int))
    }
}

proof fn lemma_last_dollar_take(s: Seq<char>, k: int)
    requires
        0 <= k <= s.len(),
        forall|j: int| k <= j < s.len() ==> s[j] != '$',
    ensures
        last_dollar(s) == last_dollar(s.take(k)),
    decreases s.len() - k,
{
    if k < s.len() {
        assert(s.drop_last().take(k) =~= s.take(k));
        lemma_last_dollar_take(s.drop_last(), k);
    } else {
        assert(s.take(k) =~= s);
    }
}

/// The hash part of a PHC password hash string (the text after its last `$`).
pub fn get_hash_from_phc(phc: &str) -> (r: Result<&str, Error>)
    ensures
        match phc_hash_part(phc@) {
            Some(h) => r matches Ok(part) && part@ == h,
            None => r == Err::<&str, Error>(Error::InvalidPasswordHash),
        },
{
    let len = phc.unicode_len();
    let mut i: usize = len;
    while i > 0
        invariant
            i <= len,
            len == phc@.len(),
            forall|j: int| i <= j < len ==> phc@[j] != '$',
        decreases i,
    {
        if phc.get_char(i - 1) == '$' {
            proof {
                lemma_last_dollar_take(phc@, i as int);
                assert(phc@.take(i as int).drop_last() =~= phc@.take(i - 1));
            }
            return Ok(phc.substring_char(i, len));
        }
        i = i - 1;
    }
    proof {
        lemma_last_dollar_take(phc@, 0);
    }
    Err(Error::InvalidPasswordHash)
}

} // verus!

use vstd::prelude::*;

verus! {

/// Errors reported by the library.
#[derive(Debug, Clone, Copy, PartialEq, Eq, Structural)]
pub enum Error {
    /// A nonce does not have the length the cipher needs.
    InvalidNonceLength,
    /// A key does not have the length the cipher needs.
    InvalidKeyLength,
    /// The cipher refused to encrypt the message.
    EncryptionFailed,
    /// The ciphertext did not authenticate under the key and nonce.
    DecryptionFailed,
    /// Bytes that should hold UTF-8 text do not.
    InvalidUtf8,
    /// Text that should hold base64 does not.
    InvalidBase64,
    /// Password hashing refused its input (for instance an unusable salt).
    PasswordHashFailed,
    /// A password hash string has no hash part of the expected shape.
    InvalidPasswordHash,
    /// The username of a credential pair is empty.
    UsernameEmpty,
    /// The password of a credential pair is empty.
    PasswordEmpty,
    /// An item that was asked for does not exist.
    NotFound,
    /// A file extension holds a character other than a letter, a digit or a period.
    InvalidExtension,
    /// A file extension ends with a period.
    ExtensionEndsWithPeriod,
    /// The user may not act on an item.
    Unauthorized,
    /// A username is taken already.
    UsernameExists,
    /// A password is shorter than the settings allow.
    PasswordTooShort,
    /// A part of an upload has a name the server does not know.
    UnsupportedMultipartName,
    /// An upload holds more than one file.
    MoreThanOneFile,
    /// An upload holds no file.
    NoFile,
    /// A request lacks a password it needs.
    MissingPassword,
    /// A setting holds a value that is not allowed.
    InvalidSetting,
    /// A path cannot be formed.
    InvalidPath,
    /// A photo's EXIF data is broken.
    InvalidExif,
    /// The user has this photo already.
    PhotoExists,
    /// A photo to insert has no id.
    PhotoIdNotSet,
}

} // verus!

//! Verified core of an end-to-end encrypted photo library: symmetric
//! encryption of library items, key derivation from user credentials,
//! multipart request framing, album and share bookkeeping, and the
//! validation rules of the server.

pub mod error;
pub mod text;
pub mod hashing;
pub mod encoding;
pub mod random;
pub mod passwords;
pub mod encryption;
pub mod keys;
pub mod bytes;
pub mod multipart;
pub mod models;
pub mod library;
pub mod albums;
pub mod photo_files;
pub mod uploads;
pub mod shares;
pub mod items;
pub mod entities;
pub mod client_helper;
pub mod server;
pub mod legacy;
pub mod exif;
pub mod client;

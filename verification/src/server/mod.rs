//! The rules of the server: file names of stored photos, sessions, settings,
//! storage paths, collections and the checks its request handlers make.

pub mod photos;
pub mod session;
pub mod settings;
pub mod storage;
pub mod collections;
pub mod handlers;
pub mod oauth;

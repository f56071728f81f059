//! Encryption-at-rest core of a file storage service: authenticated ciphers
//! selected per file, the opaque key handle handed to the caller, owner-scoped
//! metadata and ciphertext stores, and the five file operations built on them.

pub mod cipher;
pub mod entity;
pub mod key_material;
pub mod service;
pub mod store;

//! A library to retrieve or generate a unique device ID.
//!
//! The identifier is a 128-bit UUID, rendered in the canonical lowercase
//! hyphenated form. It is persisted once per user profile at a well-known
//! location and re-read on every call: the file-backed location for
//! POSIX systems is resolved in [`unix`], the record encoding and the
//! read/get-or-create semantics live in [`store`].

pub mod error;
pub mod id;
pub mod store;
pub mod unix;

pub use error::Error;
pub use id::DevDeviceId;

//! Error kinds shared by the identifier type, the storage backends and the
//! facade.

use vstd::prelude::*;

verus! {

/// Errors that can occur while retrieving or generating a device ID.
///
/// The kinds are flat: each carries at most a descriptive message.
#[derive(Debug)]
pub enum Error {
    /// A fault of the underlying storage mechanism (file I/O on Unix, the
    /// registry on Windows), or an unresolvable storage location.
    StorageError(String),
    /// The persisted raw value could not be parsed as a UUID.
    BadUuidFormat(String),
    /// A store was attempted against a location that already holds a record.
    AlreadySet,
}

} // verus!

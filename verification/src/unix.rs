//! Location resolution for the file-backed store on POSIX systems.
//!
//! The record lives in a single file under the per-user cache directory:
//! a cache-root environment variable wins if set; otherwise the family's
//! conventional cache directory under the home directory is used. The
//! environment's values are handed in as plain optional strings.

use vstd::prelude::*;
use vstd::string::StringExecFns;

use crate::error::Error;

verus! {

/// The two POSIX operating-system families with distinct cache-directory
/// conventions.
#[derive(Debug, Clone, Copy, PartialEq, Eq, Structural)]
pub enum OsFamily {
    /// Linux-family systems: the cache root defaults to `$HOME/.cache`.
    Linux,
    /// Apple-family systems: the cache root defaults to
    /// `$HOME/Library/Application Support`.
    Apple,
}

/// The family's conventional cache directory, relative to home.
pub open spec fn family_suffix(family: OsFamily) -> Seq<char> {
    match family {
        OsFamily::Linux => "/.cache"@,
        OsFamily::Apple => "/Library/Application Support"@,
    }
}

/// The resolved base directory for cached data: the cache-root override
/// when set, else the family's conventional directory under home when home
/// is set, else nothing.
pub open spec fn root_spec(
    family: OsFamily,
    cache_root: Option<Seq<char>>,
    home: Option<Seq<char>>,
) -> Option<Seq<char>> {
    if cache_root is Some {
        cache_root
    } else if home is Some {
        Some(home->0 + family_suffix(family))
    } else {
        None
    }
}

/// The fixed vendor/tool folder under the base directory.
pub open spec fn folder_spec(
    family: OsFamily,
    cache_root: Option<Seq<char>>,
    home: Option<Seq<char>>,
) -> Option<Seq<char>> {
    match root_spec(family, cache_root, home) {
        Some(r) => Some(r + "/Microsoft/DeveloperTools"@),
        None => None,
    }
}

/// The record file's full path: the fixed filename inside the vendor/tool
/// folder.
pub open spec fn record_path_spec(
    family: OsFamily,
    cache_root: Option<Seq<char>>,
    home: Option<Seq<char>>,
) -> Option<Seq<char>> {
    match folder_spec(family, cache_root, home) {
        Some(f) => Some(f + "/deviceid"@),
        None => None,
    }
}

/// Resolves the base directory for cached data, or fails when neither the
/// cache-root variable nor the home variable is set.
pub fn root_path(family: OsFamily, cache_root: Option<String>, home: Option<String>) -> (r: Result<
    String,
    Error,
>)
    ensures
        r is Ok <==> root_spec(family, cache_root.deep_view(), home.deep_view()) is Some,
        r matches Ok(p) ==> root_spec(family, cache_root.deep_view(), home.deep_view()) == Some(
            p@,
        ),
        r matches Err(e) ==> e is StorageError,
{
    match cache_root {
        Some(c) => Ok(c),
        None => match home {
            Some(h) => match family {
                OsFamily::Linux => Ok(h.concat("/.cache")),
                OsFamily::Apple => Ok(h.concat("/Library/Application Support")),
            },
            None => Err(
                Error::StorageError(
                    "cache root and home environment variables not set".to_owned(),
                ),
            ),
        },
    }
}

/// Resolves the folder that holds the record file.
pub fn folder_path(family: OsFamily, cache_root: Option<String>, home: Option<String>) -> (r:
    Result<String, Error>)
    ensures
        r is Ok <==> folder_spec(family, cache_root.deep_view(), home.deep_view()) is Some,
        r matches Ok(p) ==> folder_spec(family, cache_root.deep_view(), home.deep_view()) == Some(
            p@,
        ),
        r matches Err(e) ==> e is StorageError,
{
    match root_path(family, cache_root, home) {
        Ok(p) => Ok(p.concat("/Microsoft/DeveloperTools")),
        Err(e) => Err(e),
    }
}

/// Resolves the record file's full path.
pub fn path(family: OsFamily, cache_root: Option<String>, home: Option<String>) -> (r: Result<
    String,
    Error,
>)
    ensures
        r is Ok <==> record_path_spec(family, cache_root.deep_view(), home.deep_view()) is Some,
        r matches Ok(p) ==> record_path_spec(family, cache_root.deep_view(), home.deep_view())
            == Some(p@),
        r matches Err(e) ==> e is StorageError,
{
    match folder_path(family, cache_root, home) {
        Ok(p) => Ok(p.concat("/deviceid")),
        Err(e) => Err(e),
    }
}

/// The file-backed store's resolved location.
///
/// Holds plain paths only; reading and writing the record file is left to
/// the unverified surroundings, which decode and encode the record through
/// [`crate::store`].
pub struct UnixStorage {
    /// The vendor/tool folder whose existence a store must ensure first.
    pub folder: String,
    /// The record file's full path inside that folder.
    pub file: String,
}

impl UnixStorage {
    /// Resolves the record location from the environment's values.
    pub fn resolve(family: OsFamily, cache_root: Option<String>, home: Option<String>) -> (r:
        Result<UnixStorage, Error>)
        ensures
            r is Ok <==> root_spec(family, cache_root.deep_view(), home.deep_view()) is Some,
            r matches Ok(s) ==> folder_spec(family, cache_root.deep_view(), home.deep_view())
                == Some(s.folder@) && record_path_spec(
                family,
                cache_root.deep_view(),
                home.deep_view(),
            ) == Some(s.file@),
            r matches Err(e) ==> e is StorageError,
{
        match folder_path(family, cache_root, home) {
            Ok(folder) => {
                let file = folder.clone().concat("/deviceid");
                Ok(UnixStorage { folder, file })
            },
            Err(e) => Err(e),
        }
    }
}

} // verus!

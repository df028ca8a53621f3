//! Trusted bridges to the host: clock, random identifiers, well-known
//! directories, and path existence.  Every result here depends on the
//! machine or the moment, so the contracts promise only what holds of any
//! outcome.

use vstd::prelude::*;

verus! {

/// Relies on chrono's `Utc::now`: the current Unix time in whole seconds.
/// The value depends on the clock; nothing is promised of it.
#[verifier::external_body]
pub(crate) fn now_unix_seconds() -> i64 {
    chrono::Utc::now().timestamp()
}

/// Relies on uuid's `Uuid::new_v4`: a random version-4 UUID, rendered in
/// the hyphenated form, which is 36 characters long.
#[verifier::external_body]
pub(crate) fn uuid_string() -> (r: String)
    ensures
        r@.len() == 36,
{
    uuid::Uuid::new_v4().to_string()
}

/// Relies on std::path::Path::exists: whether the path points at an
/// existing entity right now.  The answer depends on the filesystem;
/// nothing is promised of it.
#[verifier::external_body]
pub(crate) fn path_exists(p: &str) -> bool {
    std::path::Path::new(p).exists()
}

/// Relies on std::path::Path::canonicalize: the absolute, resolved form
/// of the path, if it exists and resolves to valid UTF-8.  The answer
/// depends on the filesystem; nothing is promised of it.
#[verifier::external_body]
pub(crate) fn canonical_path(p: &str) -> Option<String> {
    std::path::Path::new(p).canonicalize().ok().and_then(
        |c| c.to_str().map(|s| s.to_string()),
    )
}

/// Relies on dirs::config_dir: the user's configuration directory, if the
/// platform defines one whose path is valid UTF-8.
#[verifier::external_body]
pub(crate) fn os_config_dir() -> Option<String> {
    dirs::config_dir().and_then(|p| p.to_str().map(|s| s.to_string()))
}

/// Relies on dirs::home_dir: the user's home directory, if known and
/// valid UTF-8.
#[verifier::external_body]
pub(crate) fn os_home_dir() -> Option<String> {
    dirs::home_dir().and_then(|p| p.to_str().map(|s| s.to_string()))
}

/// Relies on dirs::cache_dir: the user's cache directory, if known and
/// valid UTF-8.
#[verifier::external_body]
pub(crate) fn os_cache_dir() -> Option<String> {
    dirs::cache_dir().and_then(|p| p.to_str().map(|s| s.to_string()))
}

} // verus!

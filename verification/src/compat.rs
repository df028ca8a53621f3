//! Entry points of the Linux-binary compatibility layer.

use vstd::prelude::*;
use crate::core_types::LuCastraError;

verus! {

/// Prepares the compatibility layer; nothing can fail in the current
/// in-memory design.
pub fn init() -> (r: Result<(), LuCastraError>)
    ensures
        r.is_ok(),
{
    Ok(())
}

/// Whether the experimental relibc layer is compiled in; this build does
/// not carry it.
pub fn is_relibc_enabled() -> (r: bool)
    ensures
        r == false,
{
    false
}

} // verus!

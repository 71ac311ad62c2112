//! Tilde helpers bound to a fixed home directory.
//!
//! The standalone path tools work against the fixed home `/home/phil`
//! rather than the platform-reported one; these are the `paths` transforms
//! with that home filled in.

use vstd::prelude::*;
use crate::paths;

verus! {

/// The storable form of a path: a leading `/home/phil` compressed to `~`.
pub fn to_canon(path: &str) -> (r: String)
    ensures
        r@ == paths::compress_spec(path@, "/home/phil"@),
{
    paths::compress_tilde_impl(path, "/home/phil")
}

/// The usable form of a stored path: a leading `~` expanded to
/// `/home/phil`.
pub fn from_canon(path: &str) -> (r: String)
    ensures
        r@ == paths::expand_spec(path@, "/home/phil"@),
{
    paths::expand_tilde_impl(path, "/home/phil")
}

/// Replaces a leading `/home/phil` with `~`, matching whole components.
pub fn compress_tilde(path: &str) -> (r: String)
    ensures
        r@ == paths::compress_spec(path@, "/home/phil"@),
{
    paths::compress_tilde_impl(path, "/home/phil")
}

/// Expands a leading `~` or `~/` to `/home/phil`.
pub fn expand_tilde(path: &str) -> (r: String)
    ensures
        r@ == paths::expand_spec(path@, "/home/phil"@),
{
    paths::expand_tilde_impl(path, "/home/phil")
}

} // verus!

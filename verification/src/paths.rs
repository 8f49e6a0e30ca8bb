//! Filesystem paths, which only std knows how to spell on this platform.

use vstd::prelude::*;

verus! {

/// `std::path::PathBuf`.
#[verifier::external_type_specification]
#[verifier::external_body]
pub struct ExPathBuf(std::path::PathBuf);

/// What `Path::join` gives for a base path and a part. It reads nothing but
/// its two arguments (no disk, no environment); how the parts are separated
/// is fixed by the platform the crate is built for, so the spelling of the
/// result is not written out here.
pub uninterp spec fn joined(base: std::path::PathBuf, part: Seq<char>) -> std::path::PathBuf;

/// `Path::join`. Claimed: the result is `joined` of the base and the part.
#[verifier::external_body]
pub(crate) fn join_path(base: &std::path::PathBuf, part: &str) -> (r: std::path::PathBuf)
    ensures
        r == joined(*base, part@),
{
    base.join(part)
}

/// The text `Path::display` gives for a path. It reads nothing but the path;
/// how a path is spelled is fixed by the platform the crate is built for, so
/// the spelling is not written out here.
pub uninterp spec fn displayed(path: std::path::PathBuf) -> Seq<char>;

/// `Path::display`, as a string. Claimed: the text is `displayed` of the path.
#[verifier::external_body]
pub(crate) fn display_path(path: &std::path::PathBuf) -> (r: String)
    ensures
        r@ == displayed(*path),
{
    path.display().to_string()
}

} // verus!

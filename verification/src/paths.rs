//! File-system paths and the clock, as the library sees them: values that are
//! carried along, and numbers that are read.

use vstd::prelude::*;

verus! {

/// A path of the standard library. What it holds is hidden.
#[verifier::external_type_specification]
#[verifier::external_body]
pub struct ExPathBuf(std::path::PathBuf);

/// `Clone::clone` of a path: a duplicate of the path.
pub assume_specification[ <std::path::PathBuf as Clone>::clone ](
    path: &std::path::PathBuf,
) -> (copy: std::path::PathBuf)
    ensures
        copy == *path,
;

/// `dirs::home_dir`: the home directory of the user, read from the
/// environment. Nothing is claimed of it.
#[verifier::external_body]
pub(crate) fn home_dir() -> Option<std::path::PathBuf> {
    dirs::home_dir()
}

/// `PathBuf::from` on a text. Nothing is claimed of the path.
#[verifier::external_body]
pub(crate) fn path_from(text: &str) -> std::path::PathBuf {
    std::path::PathBuf::from(text)
}

/// The path that `Path::join` makes of a path and a name. The join reads
/// nothing but the two, so the same two always give the same path; a path has
/// no view, so the path itself stands here.
pub uninterp spec fn joined_path(base: std::path::PathBuf, name: Seq<char>) -> std::path::PathBuf;

/// `Path::join`: `base` with `name` adjoined. The path that comes back is
/// the one that the join makes of the two; nothing is claimed of what it
/// holds.
#[verifier::external_body]
pub(crate) fn path_join(base: &std::path::PathBuf, name: &str) -> (joined: std::path::PathBuf)
    ensures
        joined == joined_path(*base, name@),
{
    base.join(name)
}

/// `SystemTime::elapsed` on the epoch: the time since the epoch, or `None`
/// where the clock stands before it. Nothing is claimed of it.
#[verifier::external_body]
pub(crate) fn since_epoch() -> Option<std::time::Duration> {
    std::time::UNIX_EPOCH.elapsed().ok()
}

/// `Duration::as_secs`: the whole seconds of a duration. Nothing is claimed
/// of them.
#[verifier::external_body]
pub(crate) fn whole_secs(duration: &std::time::Duration) -> u64 {
    duration.as_secs()
}

} // verus!

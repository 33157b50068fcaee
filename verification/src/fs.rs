//! What the file system says about a path. Each answer depends on the disk
//! at the moment of the call, so nothing is promised of it; the callers
//! state what they do with either answer.
use vstd::prelude::*;

verus! {

/// `Path::is_file`: whether `path` names an existing regular file (after
/// following symbolic links). Nothing is claimed of the answer.
#[verifier::external_body]
pub fn is_file(path: &str) -> bool {
    std::path::Path::new(path).is_file()
}

/// `Path::is_dir`: whether `path` names an existing directory. Nothing is
/// claimed of the answer.
#[verifier::external_body]
pub fn is_dir(path: &str) -> bool {
    std::path::Path::new(path).is_dir()
}

/// `Path::exists`: whether anything exists at `path`. Nothing is claimed
/// of the answer.
#[verifier::external_body]
pub fn path_exists(path: &str) -> bool {
    std::path::Path::new(path).exists()
}

/// Whether a call of the test `present` on a path with the characters
/// `p` answered `b`.
pub open spec fn answered<E: Fn(&str) -> bool>(present: E, p: Seq<char>, b: bool) -> bool {
    exists|s: &str| s@ == p && #[trigger] present.ensures((s,), b)
}

/// One call of `test` on `p`, whose answer is recorded as the test's.
fn ask<F: Fn(&str) -> bool>(test: F, p: &str) -> (b: bool)
    requires
        test.requires((p,)),
    ensures
        test.ensures((p,), b),
{
    test(p)
}

/// Asks the disk whether `path` is a file: the answer is what
/// [`is_file`] said of that path.
pub fn file_at(path: &str) -> (b: bool)
    ensures
        answered(is_file, path@, b),
{
    ask(is_file, path)
}

/// Asks the disk whether `path` is a directory: the answer is what
/// [`is_dir`] said of that path.
pub fn dir_at(path: &str) -> (b: bool)
    ensures
        answered(is_dir, path@, b),
{
    ask(is_dir, path)
}

/// Asks the disk whether anything is at `path`: the answer is what
/// [`path_exists`] said of that path.
pub fn exists_at(path: &str) -> (b: bool)
    ensures
        answered(path_exists, path@, b),
{
    ask(path_exists, path)
}

} // verus!

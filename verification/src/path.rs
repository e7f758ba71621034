//! Where the store file lies.

use vstd::prelude::*;
use std::path::PathBuf;

verus! {

/// The store file's name.
pub const DATA_FILE: &'static str = "data.json";

/// What `std::path::PathBuf::pop` leaves of a path: the path without its last
/// component, or the path itself where it has no parent. The path syntax is
/// that of the platform the library is built for.
pub uninterp spec fn path_popped(path: Seq<char>) -> Seq<char>;

/// What `std::path::PathBuf::push` makes of a path and a further one: the
/// first extended by the second, or the second alone where it is absolute.
/// The path syntax is that of the platform the library is built for.
pub uninterp spec fn path_pushed(path: Seq<char>, more: Seq<char>) -> Seq<char>;

/// `std::path::PathBuf::pop` on a path given as text.
///
/// Trusted: the result is the text of the path after the call, which
/// `path_popped` names. The call neither fails nor panics.
#[verifier::external_body]
fn pop_path(path: &str) -> (parent: String)
    ensures
        parent@ == path_popped(path@),
{
    let mut buf = PathBuf::from(path);
    buf.pop();
    buf.to_string_lossy().into_owned()
}

/// `std::path::PathBuf::push` on paths given as text.
///
/// Trusted: the result is the text of the path after the call, which
/// `path_pushed` names. The call neither fails nor panics.
#[verifier::external_body]
fn push_path(path: &str, more: &str) -> (joined: String)
    ensures
        joined@ == path_pushed(path@, more@),
{
    let mut buf = PathBuf::from(path);
    buf.push(more);
    buf.to_string_lossy().into_owned()
}

/// The store file's path for an application whose own directory is
/// `app_dir`: [`DATA_FILE`] beside that directory, that is, in its parent.
pub open spec fn data_path(app_dir: Seq<char>) -> Seq<char> {
    path_pushed(path_popped(app_dir), DATA_FILE@)
}

/// The path of the store file, which lies beside the application's own
/// directory `app_dir`.
pub fn get_data_path(app_dir: &str) -> (path: String)
    ensures
        path@ == data_path(app_dir@),
{
    let parent = pop_path(app_dir);
    push_path(parent.as_str(), DATA_FILE)
}

} // verus!

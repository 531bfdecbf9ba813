//! Paths from text.

use vstd::prelude::*;

use crate::error::Error;

verus! {

#[verifier::external_type_specification]
#[verifier::external_body]
pub struct ExPathBuf(std::path::PathBuf);

/// What `Path::to_str` gives for a path: its text, or `None` where the path
/// is no valid Unicode.
pub uninterp spec fn path_text(path: std::path::PathBuf) -> Option<Seq<char>>;

/// `PathBuf::from` on a string: the path that holds the string's text,
/// unchanged, so that `Path::to_str` gives the same text back.
#[verifier::external_body]
fn path_from_text(text: &String) -> (path: std::path::PathBuf)
    ensures
        path_text(path) == Some(text@),
{
    std::path::PathBuf::from(text)
}

/// Convert a string to a `PathBuf`. It never fails: the result is wrapped
/// for use where a fallible step is asked for.
pub fn to_path_buf(path: &String) -> (r: Result<std::path::PathBuf, Error>)
    ensures
        r matches Ok(made) && path_text(made) == Some(path@),
{
    Ok(path_from_text(path))
}

} // verus!

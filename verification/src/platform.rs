//! What the standard library computes for this crate and Verus has no
//! specification for. The two functions here are believed, not proved: each
//! has a named result, and the rest of the crate is proved against the names.

use std::path::Path;
use vstd::prelude::*;

verus! {

/// The path that `std::path::Path::join` gives for `base` extended by `name`.
/// It depends on the two texts alone; how they are put together is the
/// platform's path syntax, which this crate does not spell out.
pub uninterp spec fn joined_path(base: Seq<char>, name: Seq<char>) -> Seq<char>;

/// The text that the `Debug` formatting of `str` gives for `text`: the text
/// between double quotes, with the characters that need it escaped.
pub uninterp spec fn debug_quoted(text: Seq<char>) -> Seq<char>;

/// Calls `std::path::Path::join`. The contract only names the result. Both
/// arguments are valid Unicode, hence so is the joined path, and turning it
/// back into a `String` loses nothing.
#[verifier::external_body]
pub(crate) fn join_path(base: &str, name: &str) -> (joined: String)
    ensures
        joined@ == joined_path(base@, name@),
{
    Path::new(base).join(name).to_string_lossy().into_owned()
}

/// Formats `text` with `{:?}`, which calls `<str as core::fmt::Debug>::fmt`.
/// The contract only names the result.
#[verifier::external_body]
pub(crate) fn quote_debug(text: &str) -> (quoted: String)
    ensures
        quoted@ == debug_quoted(text@),
{
    format!("{:?}", text)
}

} // verus!

//! Thin trusted shims over `str` operations that vstd leaves unspecified.

use vstd::prelude::*;

verus! {

/// What `str::trim` leaves of a string: the same characters with leading and
/// trailing whitespace removed. The result depends on the characters alone.
pub uninterp spec fn trim_of(s: Seq<char>) -> Seq<char>;

/// Relies on `str::trim`: returns the string without leading or trailing
/// whitespace, so never longer than its input.
#[verifier::external_body]
pub(crate) fn trim_str(s: &str) -> (r: &str)
    ensures
        r@ == trim_of(s@),
        r@.len() <= s@.len(),
{
    s.trim()
}

/// Relies on `str`'s `PartialEq`: two slices are equal exactly when their
/// character sequences are.
#[verifier::external_body]
pub(crate) fn str_eq(a: &str, b: &str) -> (r: bool)
    ensures
        r == (a@ == b@),
{
    a == b
}

/// A copy of an optional string with the same characters.
pub fn clone_opt_string(o: &Option<String>) -> (r: Option<String>)
    ensures
        match (o, &r) {
            (Some(a), Some(b)) => a@ == b@,
            (None, None) => true,
            _ => false,
        },
{
    match o {
        Some(s) => Some(s.clone()),
        None => None,
    }
}

} // verus!

//! Small operations on identifiers and other short texts.

use vstd::prelude::*;
use vstd::string::*;

verus! {

/// Whether `a` and `b` hold the same text.
pub fn same_text(a: &str, b: &str) -> (same: bool)
    ensures
        same == (a@ == b@),
{
    let x = String::from_str(a);
    let y = String::from_str(b);
    x == y
}

/// The text `a` followed by the text `b`.
pub fn joined(a: &str, b: &str) -> (whole: String)
    ensures
        whole@ == a@ + b@,
{
    String::from_str(a).concat(b)
}

/// A copy of `a`.
pub fn copied(a: &str) -> (copy: String)
    ensures
        copy@ == a@,
{
    String::from_str(a)
}

} // verus!

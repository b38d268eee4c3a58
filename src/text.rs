//! Whitespace handling shared by form validation and answer normalisation.
use vstd::prelude::*;

verus! {

/// The characters of `s` with leading and trailing whitespace removed, as `str::trim` computes them.
pub uninterp spec fn trimmed(s: Seq<char>) -> Seq<char>;

/// Relies on `str::trim`: the result is `s` without leading and trailing whitespace,
/// which depends on the characters of `s` alone.
#[verifier::external_body]
pub(crate) fn trim_str(s: &str) -> (r: &str)
    ensures
        r@ == trimmed(s@),
{
    s.trim()
}

} // verus!

//! Case-insensitive name matching.
//!
//! Components, groups, services, and tasks are looked up by name, and the
//! lookup ignores case.  Lowercasing is delegated to the standard library;
//! its result is given the name `lower_of` and every matching contract is
//! phrased through that name.

use vstd::prelude::*;

verus! {

/// The lowercase form of a string, as `str::to_lowercase` computes it.
pub uninterp spec fn lower_of(s: Seq<char>) -> Seq<char>;

/// Relies on `str::to_lowercase`: the result is the lowercase equivalent of
/// the input and depends on the input characters alone.
#[verifier::external_body]
pub(crate) fn lowercase(s: &str) -> (r: String)
    ensures
        r@ == lower_of(s@),
{
    s.to_lowercase()
}

/// Two names refer to the same entry when their lowercase forms agree.
pub open spec fn name_matches(a: Seq<char>, b: Seq<char>) -> bool {
    lower_of(a) == lower_of(b)
}

/// Case-insensitive equality of two names.
pub fn eq_ignore_case(a: &str, b: &str) -> (r: bool)
    ensures
        r == name_matches(a@, b@),
{
    let la = lowercase(a);
    let lb = lowercase(b);
    la == lb
}

} // verus!

//! The names that stand for "each backend in turn" in a text, and their
//! replacement by the names of one backend.

use crate::constants::Backend;
use crate::text::{replaced, uppercase, uppercase_of};
use vstd::prelude::*;

verus! {

/// The text with the names of one backend in the place of the names that
/// stand for each backend: `into.0` for `__manager`, then `into.1` for
/// `__Manager`, then `into.0` in upper case for `__MANAGER`.
pub open spec fn renamed(input: Seq<char>, into: (Seq<char>, Seq<char>)) -> Seq<char> {
    replaced(
        replaced(replaced(input, "__manager"@, into.0), "__Manager"@, into.1),
        "__MANAGER"@,
        uppercase_of(into.0),
    )
}

/// The text with the placeholder in upper case replaced by `upper`.
pub fn replace_upper(input: &str, upper: &str) -> (r: String)
    ensures
        r@ == replaced(input@, "__MANAGER"@, upper@),
{
    crate::text::replace(input, "__MANAGER", upper)
}

/// The text with the names of one backend in the place of the names that
/// stand for each backend.
pub fn replace(input: String, into: (&str, &str)) -> (r: String)
    ensures
        r@ == renamed(input@, (into.0@, into.1@)),
{
    let lower = crate::text::replace(input.as_str(), "__manager", into.0);
    let label = crate::text::replace(lower.as_str(), "__Manager", into.1);
    let upper = uppercase(into.0);
    replace_upper(label.as_str(), upper.as_str())
}

/// The text with the names of a backend in the place of the names that
/// stand for each backend.
pub fn replace_for(input: String, backend: Backend) -> (r: String)
    ensures
        r@ == renamed(input@, (backend.spec_name(), backend.spec_label())),
{
    replace(input, (backend.name(), backend.label()))
}

} // verus!

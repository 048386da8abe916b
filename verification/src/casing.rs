//! Identifier casing. A variant's display name is the UpperCamel rendering of
//! its method name, and its wire-level name is the snake_case rendering of
//! that display name; both renderings are taken from the convert_case crate.

use vstd::prelude::*;
use convert_case::{Case, Casing};

verus! {

/// The UpperCamel (Pascal) rendering of an identifier.
pub uninterp spec fn camel_of(s: Seq<char>) -> Seq<char>;

/// The snake_case rendering of an identifier.
pub uninterp spec fn snake_of(s: Seq<char>) -> Seq<char>;

/// Relies on convert_case's `Casing::to_case` with `Case::UpperCamel`;
/// the result depends on the input's characters alone.
#[verifier::external_body]
pub(crate) fn to_upper_camel(s: &String) -> (r: String)
    ensures
        r@ == camel_of(s@),
{
    s.to_case(Case::UpperCamel)
}

/// Relies on convert_case's `Casing::to_case` with `Case::Snake`;
/// the result depends on the input's characters alone.
#[verifier::external_body]
pub(crate) fn to_snake(s: &String) -> (r: String)
    ensures
        r@ == snake_of(s@),
{
    s.to_case(Case::Snake)
}

} // verus!

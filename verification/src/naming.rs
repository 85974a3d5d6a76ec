//! Identifier case conversion, delegated to the `inflector` crate.
//!
//! The conversions are pure functions of their argument, but their full
//! behaviour (word splitting, singularization) is too large to restate, so
//! each result is only given a name that the callers' contracts use.

use vstd::prelude::*;

verus! {

pub uninterp spec fn camel_of(s: Seq<char>) -> Seq<char>;

pub uninterp spec fn pascal_of(s: Seq<char>) -> Seq<char>;

pub uninterp spec fn class_of(s: Seq<char>) -> Seq<char>;

/// Relies on inflector's `cases::camelcase::to_camel_case`: the result is a
/// function of the input characters alone.
#[verifier::external_body]
pub(crate) fn to_camel_case(s: &str) -> (r: String)
    ensures
        r@ == camel_of(s@),
{
    inflector::cases::camelcase::to_camel_case(s)
}

/// Relies on inflector's `cases::pascalcase::to_pascal_case`: the result is a
/// function of the input characters alone.
#[verifier::external_body]
pub(crate) fn to_pascal_case(s: &str) -> (r: String)
    ensures
        r@ == pascal_of(s@),
{
    inflector::cases::pascalcase::to_pascal_case(s)
}

/// Relies on inflector's `cases::classcase::to_class_case`: the result is a
/// function of the input characters alone.
#[verifier::external_body]
pub(crate) fn to_class_case(s: &str) -> (r: String)
    ensures
        r@ == class_of(s@),
{
    inflector::cases::classcase::to_class_case(s)
}

} // verus!

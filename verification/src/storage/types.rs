//! The types that a value of a row can have.

use vstd::prelude::*;

verus! {

/// The type of an attribute. Tables declare `Integer` and `Text` columns;
/// `Boolean` is the type of predicates and of the literals `TRUE` and `FALSE`.
#[derive(Debug, Eq, PartialEq, Clone, Copy, Hash, PartialOrd, Ord, Structural)]
pub enum AttributeType {
    Integer,
    Text,
    Boolean,
}

} // verus!

//! Operand resolution: the right-hand side of an operation may come from a
//! literal value or from another chain's current final result.

use vstd::prelude::*;
use crate::operations::Expression;

verus! {

/// The capability of yielding a concrete `i16` operand value. It is
/// implemented by `i16` itself (a literal resolves to itself) and by
/// [`Expression`] (which resolves to its current final result, zero when
/// empty). Resolution is read-only and may be invoked repeatedly; it always
/// reflects the source's state at the moment of the call. An operation built
/// from a resolved value therefore stores a snapshot taken at that moment.
pub trait Rhs {
    /// The value this source currently resolves to, as contracts see it.
    spec fn resolved(&self) -> i16;

    /// Yields the concrete operand value.
    fn value(&self) -> (v: i16)
        ensures
            v == self.resolved(),
    ;
}

impl Rhs for i16 {
    open spec fn resolved(&self) -> i16 {
        *self
    }

    fn value(&self) -> (v: i16) {
        *self
    }
}

impl Rhs for Expression {
    open spec fn resolved(&self) -> i16 {
        self.final_spec()
    }

    fn value(&self) -> (v: i16) {
        self.final_value()
    }
}

} // verus!

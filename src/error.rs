//! Errors of the tax computation.

use vstd::prelude::*;

verus! {

/// Why a computation could not produce its figures.
#[derive(Clone, Copy, Debug, PartialEq, Eq, Structural)]
pub enum TaxError {
    /// A sale, withdrawal or outgoing transfer exceeds the quantity held.
    InsufficientBalance,
    /// A gain without a positive value, a loss without a negative value, or a
    /// tax rate outside `[0, 100]`.
    InvalidEventConstruction,
    /// No price is known for a held asset on a day to value.
    PriceNotFound,
    /// A decimal result does not fit in the decimal range.
    Overflow,
}

} // verus!

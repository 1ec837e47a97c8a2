//! Failure modes of the decision engine.
//!
//! The engine is pure, so the only errors it can raise of its own are numeric
//! ones; they play the role that storage-side query failures play around the
//! engine: the run skips the affected currency and goes on.

use vstd::prelude::*;

verus! {

/// An error from the decision engine, reported per currency.
#[derive(Clone, Copy, Debug, PartialEq, Eq, Structural)]
pub enum AppError {
    /// A computation needs at least one stored tick and none was given.
    EmptyHistory,
    /// A stored tick or a live quote carries a zero bid, so a relative
    /// spread cannot be formed.
    ZeroBid,
    /// An exact result does not fit in a scaled 64-bit amount.
    Overflow,
    /// An input value is outside the shape the engine accepts.
    InvalidData,
}

impl AppError {
    /// A short description for operator-facing logs.
    pub fn message(&self) -> (m: &'static str)
        ensures
            m@.len() > 0,
    {
        proof {
            reveal_strlit("no price history stored for the pair");
            reveal_strlit("a quote carries a zero bid price");
            reveal_strlit("amount out of range");
            reveal_strlit("invalid input value");
        }
        match self {
            AppError::EmptyHistory => "no price history stored for the pair",
            AppError::ZeroBid => "a quote carries a zero bid price",
            AppError::Overflow => "amount out of range",
            AppError::InvalidData => "invalid input value",
        }
    }
}

} // verus!

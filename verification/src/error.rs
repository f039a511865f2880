//! What can go wrong while a setup is generated.

use vstd::prelude::*;

verus! {

/// The two ways in which generating a setup can fail.
#[derive(Clone, Copy, Debug, PartialEq, Eq, Structural)]
pub enum SetupError {
    /// The number of players is outside what the pools can seat.
    InvalidPlayerCount,
    /// The caller broke what a draw relies on: an index was asked below
    /// zero, a swap partner where nobody is seated, a base of an empty pool,
    /// or a pool offers an entry twice.
    PreconditionViolation,
}

} // verus!

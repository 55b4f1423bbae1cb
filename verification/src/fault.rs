//! Failure conditions surfaced by the math kernel and the value pool.

use vstd::prelude::*;

verus! {

/// A fail-fast condition: these mark programmer errors, not recoverable states.
#[derive(Clone, Copy, Debug, PartialEq, Eq, Structural)]
pub enum Fault {
    /// A vector was divided by a zero scalar.
    DivisionByZero,
    /// A fixed-capacity pool was indexed outside its bounds.
    IndexOutOfBounds,
}

} // verus!

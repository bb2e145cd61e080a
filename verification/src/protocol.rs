//! What the three state machines of this crate have in common.
//!
//! Each machine is driven from outside: it names the one operation it
//! waits for, the caller performs it and reports its completion, and the
//! machine answers with the next operation. A completion that the machine
//! does not wait for is refused and changes nothing.

use vstd::prelude::*;

verus! {

/// A completion was reported that the machine was not waiting for.
#[derive(Clone, Copy, Debug, PartialEq, Eq, Structural)]
pub struct OutOfTurn;

} // verus!

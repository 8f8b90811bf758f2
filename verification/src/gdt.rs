//! The stack reserved for the double fault handler.

use vstd::prelude::*;

verus! {

/// Index, in the interrupt stack table, of the stack on which the double
/// fault handler runs.
pub const DOUBLE_FAULT_IST_INDEX: u16 = 0;

/// Size in bytes of the stack on which the double fault handler runs.
pub const DOUBLE_FAULT_STACK_SIZE: u64 = 4096 * 5;

} // verus!

//! The byte that identifies each instruction and each read operation in bytecode.

use vstd::prelude::*;

verus! {

/// Set the execution index.
pub const I_JUMP: u8 = 0;

/// Push bytes to the stack.
pub const I_PUSH: u8 = 1;

/// Overwrite a location in the memory pool.
pub const I_MUTATE: u8 = 2;

/// Call an external function.
pub const I_EXTERN_CALL: u8 = 3;

/// Go back to the caller, or halt when there is none.
pub const I_RETURN: u8 = 4;

/// Remember the execution index, then set it.
pub const I_CALL: u8 = 5;

/// Load bytes into the `ext_a` register of the execution context.
pub const I_LOAD_A: u8 = 6;

/// A read operation whose bytes follow it in the bytecode.
pub const RDOP_LOCAL: u8 = 0;

/// A read operation whose bytes lie in the memory pool.
pub const RDOP_POINT: u8 = 1;

} // verus!

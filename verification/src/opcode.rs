//! Instructions and what they cost.
use vstd::prelude::*;

verus! {

/// The code of an instruction.
#[derive(Clone, Copy, Debug, PartialEq, Eq)]
pub struct OpCode(pub u8);

/// The gas that one byte of the code of a new contract costs.
pub const CODEDEPOSIT: u64 = 200;

} // verus!

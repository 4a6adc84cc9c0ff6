//! How an execution ends.
use vstd::prelude::*;

verus! {

/// Why an execution came to its end.
#[derive(Clone, Copy, Debug, PartialEq, Eq, Structural)]
pub enum ExitReason {
    /// The execution did what it was asked to do.
    Succeed(ExitSucceed),
    /// The execution failed and consumed its gas.
    Error(ExitError),
    /// The execution asked for its changes to be undone.
    Revert(ExitRevert),
    /// The host cannot go on.
    Fatal(ExitFatal),
}

/// The ways to succeed.
#[derive(Clone, Copy, Debug, PartialEq, Eq, Structural)]
pub enum ExitSucceed {
    Stopped,
    Returned,
    SelfDestructed,
}

/// The ways to fail.
#[derive(Clone, Copy, Debug, PartialEq, Eq, Structural)]
pub enum ExitError {
    StackUnderflow,
    StackOverflow,
    InvalidJump,
    InvalidRange,
    InvalidOpCode,
    /// More calls are nested than the rules allow.
    CallTooDeep,
    /// The address of a new contract is taken.
    CreateCollision,
    /// The code of a new contract is longer than the rules allow.
    CreateContractLimit,
    /// The gas does not suffice.
    OutOfGas,
    /// The balance does not suffice.
    OutOfFund,
    /// The balance of the receiver would exceed 256 bits.
    OverflowPayment,
    /// A precompiled contract rejected its input.
    PrecompileFailed,
}

/// The ways to revert.
#[derive(Clone, Copy, Debug, PartialEq, Eq, Structural)]
pub enum ExitRevert {
    Reverted,
}

/// The ways to give up.
#[derive(Clone, Copy, Debug, PartialEq, Eq, Structural)]
pub enum ExitFatal {
    NotSupported,
}

} // verus!

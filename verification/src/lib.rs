//! The host side of an Ethereum virtual machine.
//!
//! An [`EVM`] makes calls and creates contracts, alone or as transactions that
//! are charged for their gas. It keeps the accounts that a transaction touches,
//! records every change, and takes the changes of a failed call back. Executing
//! instructions is left to a [`Runtime`], which asks its host for what it needs
//! through [`Handler`] and [`ExtHandler`].
//!
//! What each operation does is stated as a function on [`model::EvmView`], and
//! what holds of the machine as a whole is proved in [`laws`]. What the operations
//! are for, told by what can be observed before and after them, is proved in
//! [`behaviour`], [`calls`], [`creations`], [`costs`], [`encodings`] and
//! [`transactions`].
pub mod account;
pub mod behaviour;
pub mod buffer;
pub mod calls;
pub mod costs;
pub mod creations;
pub mod db;
pub mod digest;
pub mod encodings;
pub mod env;
pub mod error;
pub mod evm;
pub mod hardfork;
pub mod laws;
pub mod machine;
pub mod model;
pub mod opcode;
pub mod precompiles;
pub mod primitives;
pub mod runtime;
pub mod subroutine;
pub mod table;
pub mod trace;
pub mod transactions;
pub mod util;

pub use account::{Account, Slot, State};
pub use db::{AccountInfo, Database, MemoryDb};
pub use env::{CallContext, CreateScheme, GlobalEnv, Log, Transfer};
pub use error::{ExitError, ExitFatal, ExitReason, ExitRevert, ExitSucceed};
pub use evm::{CallStep, CreateStep, ExtHandler, Handler, SelfDestructResult, Tracing, EVM};
pub use hardfork::{BerlinSpec, BerlinStaticSpec, NotStaticSpec, Spec};
pub use machine::{Contract, Gas, Machine, Memory, Stack};
pub use opcode::OpCode;
pub use precompiles::{Precompile, PrecompileOutput, PrecompileResult, Precompiles};
pub use primitives::{H160, H256, U256};
pub use runtime::{Runtime, TransferRuntime};
pub use subroutine::{SubRoutine, SubRoutineCheckpoint};
pub use trace::TraceEvent;

# evm

The host side of an Ethereum virtual machine, verified with Verus. An `EVM` makes
calls and creates contracts, on their own or as transactions that are charged for
their gas. It keeps the accounts that a transaction touches, records every change,
and takes the changes of a failed call back.

Executing instructions and built-in contracts is left to an implementation of
`Runtime`. Running code reaches its host through `Handler`, `Tracing` and
`ExtHandler`. `TransferRuntime` is a runtime that supports plain payments only.

## Layout

- `src/evm.rs`: `EVM` and the traits that running code uses
- `src/model.rs`: what each operation does, as functions on `EvmView`
- `src/runtime.rs`: `Runtime`, and which outcomes a call or a creation can have
- `src/subroutine.rs`, `src/account.rs`: accounts, logs and checkpoints, with a
  record of changes that can be taken back
- `src/db.rs`: the database behind the accounts
- `src/hardfork.rs`: the rules of the protocol
- `src/laws.rs`: what holds of the machine as a whole
- `src/primitives.rs`, `src/buffer.rs`, `src/digest.rs`: values, byte buffers and
  hashes, on top of `primitive-types`, `bytes`, `sha3` and `hex`
- `app/`: prints the reports of an execution

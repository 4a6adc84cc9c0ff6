//! What surrounds an execution: the block, the transaction and the context of
//! a call.
use crate::buffer::octets;
use crate::primitives::{H160, H256, U256};
use bytes::Bytes;
use vstd::prelude::*;

verus! {

/// Values that stay the same for a whole transaction.
#[derive(Clone, Copy, Debug)]
pub struct GlobalEnv {
    pub gas_price: U256,
    pub origin: H160,
    pub chain_id: U256,
    pub block_number: U256,
    pub block_coinbase: H160,
    pub block_timestamp: U256,
    pub block_difficulty: U256,
    pub block_gas_limit: U256,
}

/// On whose behalf code runs.
#[derive(Clone, Copy, Debug, PartialEq, Eq)]
pub struct CallContext {
    /// The account whose storage and balance the code works on.
    pub address: H160,
    /// The account that made the call.
    pub caller: H160,
    /// The value that the code sees as sent along.
    pub apparent_value: U256,
}

/// A movement of value.
#[derive(Clone, Copy, Debug, PartialEq, Eq)]
pub struct Transfer {
    pub source: H160,
    pub target: H160,
    pub value: U256,
}

/// How the address of a new contract is derived.
#[derive(Clone, Copy, Debug, PartialEq, Eq)]
pub enum CreateScheme {
    /// From the creator and its nonce.
    Create,
    /// From the creator, a salt and the hash of the init code.
    Create2 { salt: H256 },
}

/// A record that a contract leaves behind.
#[derive(Debug)]
pub struct Log {
    pub address: H160,
    pub topics: Vec<H256>,
    pub data: Bytes,
}

/// What a `Log` holds.
pub struct LogView {
    pub address: H160,
    pub topics: Seq<H256>,
    pub data: Seq<u8>,
}

impl View for Log {
    type V = LogView;

    open spec fn view(&self) -> LogView {
        LogView { address: self.address, topics: self.topics@, data: octets(self.data) }
    }
}

} // verus!

//! The machine that an execution runs on: its contract, its gas, its stack and
//! its memory.
use crate::buffer::{empty_buffer, octets, share_buffer};
use crate::primitives::{H160, U256};
use bytes::Bytes;
use vstd::prelude::*;

verus! {

/// A gas meter: what may be used, what has been used, and what is to be
/// refunded at the end.
#[derive(Clone, Copy, Debug, PartialEq, Eq, Structural)]
pub struct Gas {
    pub limit: u64,
    pub used: u64,
    pub refunded: i64,
}

impl Gas {
    /// No more gas is used than the limit allows.
    pub open spec fn wf(self) -> bool {
        self.used <= self.limit
    }

    /// A meter with all of `limit` left.
    pub fn new(limit: u64) -> (r: Self)
        ensures
            r == (Gas { limit, used: 0, refunded: 0 }),
            r.wf(),
    {
        Gas { limit, used: 0, refunded: 0 }
    }

    /// The gas that the execution was given.
    pub fn limit(&self) -> (r: u64)
        ensures
            r == self.limit,
    {
        self.limit
    }

    /// The gas used so far.
    pub fn all_used(&self) -> (r: u64)
        ensures
            r == self.used,
    {
        self.used
    }

    /// The gas that is left.
    pub fn remaining(&self) -> (r: u64)
        requires
            self.wf(),
        ensures
            r == self.limit - self.used,
    {
        self.limit - self.used
    }

    /// The refund collected so far.
    pub fn refunded(&self) -> (r: i64)
        ensures
            r == self.refunded,
    {
        self.refunded
    }

    /// Uses `cost` gas if that much is left, and says whether it was.
    pub fn record_cost(&mut self, cost: u64) -> (r: bool)
        requires
            old(self).wf(),
        ensures
            final(self).wf(),
            (r, *final(self)) == old(self).charged(cost),
            r == (cost <= old(self).limit - old(self).used),
            final(self).limit == old(self).limit,
            final(self).refunded == old(self).refunded,
            final(self).used == if r {
                old(self).used + cost
            } else {
                old(self).used as int
            },
    {
        if cost > self.limit - self.used {
            return false;
        }
        self.used = self.used + cost;
        true
    }

    /// The effect of recording `cost`: whether it was affordable, and the
    /// meter afterwards.
    pub open spec fn charged(self, cost: u64) -> (bool, Gas) {
        if self.used + cost <= self.limit {
            (true, Gas { used: (self.used + cost) as u64, ..self })
        } else {
            (false, self)
        }
    }
}

impl Default for Gas {
    fn default() -> (r: Self)
        ensures
            r == (Gas { limit: 0, used: 0, refunded: 0 }),
    {
        Gas { limit: 0, used: 0, refunded: 0 }
    }
}

/// What a machine executes, and for whom.
#[derive(Debug)]
pub struct Contract {
    pub input: Bytes,
    pub code: Bytes,
    pub address: H160,
    pub caller: H160,
    pub value: U256,
}

/// What a `Contract` holds.
pub struct ContractView {
    pub input: Seq<u8>,
    pub code: Seq<u8>,
    pub address: H160,
    pub caller: H160,
    pub value: U256,
}

impl View for Contract {
    type V = ContractView;

    open spec fn view(&self) -> ContractView {
        ContractView {
            input: octets(self.input),
            code: octets(self.code),
            address: self.address,
            caller: self.caller,
            value: self.value,
        }
    }
}

impl Contract {
    /// The contract with the given parts.
    pub fn new(input: Bytes, code: Bytes, address: H160, caller: H160, value: U256) -> (r: Self)
        ensures
            r@ == (ContractView {
                input: octets(input),
                code: octets(code),
                address,
                caller,
                value,
            }),
    {
        Contract { input, code, address, caller, value }
    }
}

/// The words that instructions work on, the top last.
#[derive(Debug)]
pub struct Stack {
    pub words: Vec<U256>,
}

impl Stack {
    /// The words on the stack.
    pub fn data(&self) -> (r: &Vec<U256>)
        ensures
            *r == self.words,
    {
        &self.words
    }
}

/// The bytes that a machine can address.
#[derive(Debug)]
pub struct Memory {
    pub bytes: Vec<u8>,
}

impl Memory {
    /// The bytes in the memory.
    pub fn data(&self) -> (r: &Vec<u8>)
        ensures
            *r == self.bytes,
    {
        &self.bytes
    }
}

/// An execution in progress.
#[derive(Debug)]
pub struct Machine {
    pub contract: Contract,
    pub gas: Gas,
    pub stack: Stack,
    pub memory: Memory,
    /// What the execution hands back.
    pub output: Bytes,
}

/// What a `Machine` holds.
pub struct MachineView {
    pub contract: ContractView,
    pub gas: Gas,
    pub stack: Seq<U256>,
    pub memory: Seq<u8>,
    pub output: Seq<u8>,
}

impl View for Machine {
    type V = MachineView;

    open spec fn view(&self) -> MachineView {
        MachineView {
            contract: self.contract@,
            gas: self.gas,
            stack: self.stack.words@,
            memory: self.memory.bytes@,
            output: octets(self.output),
        }
    }
}

/// A machine that has not executed anything.
pub open spec fn fresh_machine(contract: ContractView, gas_limit: u64) -> MachineView {
    MachineView {
        contract,
        gas: Gas { limit: gas_limit, used: 0, refunded: 0 },
        stack: Seq::empty(),
        memory: Seq::empty(),
        output: Seq::empty(),
    }
}

impl Machine {
    /// A machine for `contract` that may use `gas_limit` gas.
    pub fn new(contract: Contract, gas_limit: u64) -> (r: Self)
        ensures
            r@ == fresh_machine(contract@, gas_limit),
            r.contract == contract,
            r.gas == (Gas { limit: gas_limit, used: 0, refunded: 0 }),
            r.stack.words@.len() == 0,
            r.memory.bytes@.len() == 0,
            octets(r.output).len() == 0,
    {
        Machine {
            contract,
            gas: Gas::new(gas_limit),
            stack: Stack { words: Vec::new() },
            memory: Memory { bytes: Vec::new() },
            output: empty_buffer(),
        }
    }

    /// What the execution handed back.
    pub fn return_value(&self) -> (r: Bytes)
        ensures
            octets(r) == self@.output,
    {
        share_buffer(&self.output)
    }
}

} // verus!

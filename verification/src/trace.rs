//! What an execution reports about itself as it goes.
use crate::buffer::{octets, share_buffer};
use crate::digest::{hex_encode, hex_text};
use crate::env::{CallContext, Transfer};
use crate::machine::{Gas, Machine, MachineView};
use crate::opcode::OpCode;
use crate::primitives::{H160, U256};
use bytes::Bytes;
use vstd::prelude::*;

verus! {

/// One report.
#[derive(Debug)]
pub enum TraceEvent {
    /// An instruction is about to be executed.
    Instruction {
        opcode: OpCode,
        remaining: u64,
        refunded: i64,
        stack: Vec<U256>,
        /// The memory in hexadecimal.
        data: String,
    },
    /// A call is about to be made.
    Call {
        call: H160,
        context: CallContext,
        transfer: Option<Transfer>,
        input: Bytes,
        is_static: bool,
    },
    /// A creating transaction has used `gas_spend` gas and is charged for
    /// `charged` of it.
    CreateGas { gas_spend: u64, charged: u64, gas: Gas },
}

/// What a `TraceEvent` holds.
pub enum TraceView {
    Instruction {
        opcode: OpCode,
        remaining: int,
        refunded: i64,
        stack: Seq<U256>,
        data: Seq<char>,
    },
    Call {
        call: H160,
        context: CallContext,
        transfer: Option<Transfer>,
        input: Seq<u8>,
        is_static: bool,
    },
    CreateGas { gas_spend: u64, charged: u64, gas: Gas },
}

impl View for TraceEvent {
    type V = TraceView;

    open spec fn view(&self) -> TraceView {
        match *self {
            TraceEvent::Instruction { opcode, remaining, refunded, stack, data } => {
                TraceView::Instruction {
                    opcode,
                    remaining: remaining as int,
                    refunded,
                    stack: stack@,
                    data: data@,
                }
            },
            TraceEvent::Call { call, context, transfer, input, is_static } => {
                TraceView::Call { call, context, transfer, input: octets(input), is_static }
            },
            TraceEvent::CreateGas { gas_spend, charged, gas } => {
                TraceView::CreateGas { gas_spend, charged, gas }
            },
        }
    }
}

/// The report of `machine` about to execute `opcode`.
pub open spec fn instruction_view(opcode: OpCode, machine: MachineView) -> TraceView {
    TraceView::Instruction {
        opcode,
        remaining: machine.gas.limit - machine.gas.used,
        refunded: machine.gas.refunded,
        stack: machine.stack,
        data: hex_text(machine.memory),
    }
}

/// Reports that `machine` is about to execute `opcode`.
pub fn instruction_event(opcode: OpCode, machine: &Machine) -> (r: TraceEvent)
    requires
        machine@.gas.wf(),
    ensures
        r@ == instruction_view(opcode, machine@),
{
    let words = machine.stack.data();
    let mut stack: Vec<U256> = Vec::new();
    let mut i: usize = 0;
    while i < words.len()
        invariant
            i <= words@.len(),
            stack@ == words@.take(i as int),
        decreases words@.len() - i,
    {
        stack.push(words[i]);
        assert(words@.take(i + 1) =~= words@.take(i as int).push(words@[i as int]));
        i = i + 1;
    }
    assert(words@.take(words@.len() as int) =~= words@);
    TraceEvent::Instruction {
        opcode,
        remaining: machine.gas.remaining(),
        refunded: machine.gas.refunded(),
        stack,
        data: hex_encode(machine.memory.data().as_slice()),
    }
}

/// Reports that a call is about to be made.
pub fn call_event(
    call: H160,
    context: &CallContext,
    transfer: &Option<Transfer>,
    input: &Bytes,
    is_static: bool,
) -> (r: TraceEvent)
    ensures
        r@ == (TraceView::Call {
            call,
            context: *context,
            transfer: *transfer,
            input: octets(*input),
            is_static,
        }),
{
    TraceEvent::Call {
        call,
        context: *context,
        transfer: *transfer,
        input: share_buffer(input),
        is_static,
    }
}

} // verus!

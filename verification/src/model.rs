//! What the machine does to accounts and logs, as functions on what an `EVM`
//! holds.
use crate::account::AccountView;
use crate::db::DbView;
use crate::digest::hash_of;
use crate::env::{CallContext, CreateScheme, GlobalEnv, LogView, Transfer};
use crate::error::{ExitError, ExitReason, ExitSucceed};
use crate::hardfork::RulesView;
use crate::machine::{fresh_machine, ContractView, Gas, MachineView};
use crate::opcode::CODEDEPOSIT;
use crate::precompiles::{addresses_of, entry_at, OutputView, Precompile};
use crate::primitives::{u256_bound, H160, H256, U256};
use crate::subroutine::SubView;
use crate::trace::TraceView;
use crate::util::{address_by_nonce, address_by_salt};
use vstd::prelude::*;

verus! {

/// What an `EVM` holds.
pub struct EvmView {
    pub sub: SubView,
    /// What the database answers.
    pub db: DbView,
    pub env: GlobalEnv,
    /// The built-in contracts.
    pub precompiles: Seq<Precompile>,
    /// The reports so far.
    pub trace: Seq<TraceView>,
}

/// Where an attempt to call leads before any code runs.
pub enum CallGate {
    /// It is over.
    Ended { reason: ExitReason, gas: Gas, evm: EvmView },
    /// A built-in contract is to be run.
    Precompiled { precompile: Precompile, evm: EvmView },
    /// A machine is to be run.
    Run { machine: MachineView, evm: EvmView },
}

/// Where an attempt to create a contract leads before any code runs.
pub enum CreateGate {
    /// It is over.
    Ended { reason: ExitReason, gas: Gas, evm: EvmView },
    /// A machine is to be run for the contract at `address`.
    Run { machine: MachineView, evm: EvmView, address: H160 },
}

/// A meter that has nothing to give.
pub open spec fn no_gas() -> Gas {
    Gas { limit: 0, used: 0, refunded: 0 }
}

/// A meter with all of `limit` left.
pub open spec fn full_gas(limit: u64) -> Gas {
    Gas { limit, used: 0, refunded: 0 }
}

/// The address of a new contract.
pub open spec fn new_address(
    scheme: CreateScheme,
    caller: H160,
    nonce: u64,
    code_hash: H256,
) -> H160 {
    match scheme {
        CreateScheme::Create => address_by_nonce(caller, nonce),
        CreateScheme::Create2 { salt } => address_by_salt(caller, code_hash, salt),
    }
}

impl EvmView {
    pub open spec fn with_sub(self, sub: SubView) -> Self {
        EvmView { sub, ..self }
    }

    pub open spec fn traced(self, event: TraceView) -> Self {
        EvmView { trace: self.trace.push(event), ..self }
    }

    pub open spec fn load(self, address: H160) -> Self {
        self.with_sub(self.sub.load(self.db, address))
    }

    pub open spec fn load_code(self, address: H160) -> Self {
        self.with_sub(self.sub.load_code(self.db, address))
    }

    pub open spec fn load_slot(self, address: H160, index: H256) -> Self {
        self.with_sub(self.sub.load_slot(self.db, address, index))
    }

    pub open spec fn store_slot(self, address: H160, index: H256, value: H256) -> Self {
        self.with_sub(self.sub.store_slot(self.db, address, index, value))
    }

    pub open spec fn destroy(self, address: H160, target: H160) -> Self {
        self.with_sub(self.sub.destroy(self.db, address, target))
    }

    /// Whether `later` can come out of running code on `self`: the surroundings
    /// are the same, what was loaded is still loaded, and the checkpoints that
    /// were open are still there.
    pub open spec fn keeps(self, later: EvmView) -> bool {
        &&& later.db == self.db
        &&& later.env == self.env
        &&& later.precompiles == self.precompiles
        &&& self.sub.accounts.dom().subset_of(later.sub.accounts.dom())
        &&& self.sub.marks.len() <= later.sub.marks.len()
        &&& later.sub.marks.take(self.sub.marks.len() as int) == self.sub.marks
    }

    /// Every address loaded, in order.
    pub open spec fn load_all(self, addresses: Seq<H160>) -> Self
        decreases addresses.len(),
    {
        if addresses.len() == 0 {
            self
        } else {
            self.load_all(addresses.drop_last()).load(addresses.last())
        }
    }

    /// Every storage word of `address` at one of `indices` read, in order.
    pub open spec fn load_slots(self, address: H160, indices: Seq<H256>) -> Self
        decreases indices.len(),
    {
        if indices.len() == 0 {
            self
        } else {
            self.load_slots(address, indices.drop_last()).load_slot(address, indices.last())
        }
    }

    /// Every account and storage word of an access list read, in order.
    pub open spec fn load_access_list(self, list: Seq<(H160, Vec<H256>)>) -> Self
        decreases list.len(),
    {
        if list.len() == 0 {
            self
        } else {
            self.load_access_list(list.drop_last()).load(list.last().0).load_slots(
                list.last().0,
                list.last().1@,
            )
        }
    }

    /// Ready for a transaction: the built-in contracts are known, and they and
    /// the access list are loaded.
    pub open spec fn initialized(
        self,
        precompiles: Seq<Precompile>,
        access_list: Seq<(H160, Vec<H256>)>,
    ) -> Self {
        EvmView { precompiles, ..self }.load_all(addresses_of(precompiles)).load_access_list(
            access_list,
        )
    }

    /// An attempt to call, up to the point where code runs.
    ///
    /// The code is fetched and a checkpoint is opened. A call that is nested too
    /// deeply ends there, with its checkpoint still open. A transfer that fails
    /// is undone together with what was loaded since the checkpoint.
    pub open spec fn call_gate(
        self,
        rules: RulesView,
        code_address: H160,
        transfer: Option<Transfer>,
        input: Seq<u8>,
        gas_limit: u64,
        context: CallContext,
    ) -> CallGate {
        let coded = self.load_code(code_address);
        let code = coded.sub.accounts[code_address].info.code->0;
        let opened = coded.with_sub(coded.sub.marked()).load(context.address).traced(
            TraceView::Call {
                call: code_address,
                context,
                transfer,
                input,
                is_static: rules.is_static_call,
            },
        );
        if opened.sub.marks.len() > rules.call_stack_limit {
            CallGate::Ended {
                reason: ExitReason::Error(ExitError::CallTooDeep),
                gas: no_gas(),
                evm: opened,
            }
        } else {
            let (paid, outcome) = match transfer {
                Some(t) => opened.sub.transfer(opened.db, t.source, t.target, t.value@),
                None => (opened.sub, Ok(())),
            };
            match outcome {
                Err(error) => CallGate::Ended {
                    reason: ExitReason::Error(error),
                    gas: no_gas(),
                    evm: opened.with_sub(paid.rolled_back(self.sub.marks.len() as int)),
                },
                Ok(_) => match entry_at(self.precompiles, code_address) {
                    Some(precompile) => CallGate::Precompiled {
                        precompile,
                        evm: opened.with_sub(paid),
                    },
                    None => CallGate::Run {
                        machine: fresh_machine(
                            ContractView {
                                input,
                                code,
                                address: context.address,
                                caller: context.caller,
                                value: context.apparent_value,
                            },
                            gas_limit,
                        ),
                        evm: opened.with_sub(paid),
                    },
                },
            }
        }
    }

    /// The end of code that ran inside checkpoint `index`: what it did stays only
    /// if it succeeded.
    pub open spec fn ended(self, index: int, reason: ExitReason) -> Self {
        match reason {
            ExitReason::Succeed(_) => self.with_sub(self.sub.committed(index)),
            _ => self.with_sub(self.sub.rolled_back(index)),
        }
    }

    /// With more logs.
    pub open spec fn logged(self, logs: Seq<LogView>) -> Self {
        self.with_sub(SubView { logs: self.sub.logs + logs, ..self.sub })
    }

    /// The end of a built-in contract that ran inside checkpoint `index`: why it
    /// ended, its meter, its output, and what is left.
    pub open spec fn precompile_ended(
        self,
        index: int,
        gas_limit: u64,
        result: Result<OutputView, ExitError>,
    ) -> (ExitReason, Gas, Seq<u8>, EvmView) {
        match result {
            Ok(output) => (
                ExitReason::Succeed(ExitSucceed::Returned),
                full_gas(gas_limit).charged(output.cost).1,
                output.output,
                self.logged(output.logs).with_sub(
                    self.logged(output.logs).sub.committed(index),
                ),
            ),
            Err(error) => (
                ExitReason::Error(error),
                full_gas(gas_limit),
                Seq::empty(),
                self.with_sub(self.sub.rolled_back(index)),
            ),
        }
    }

    /// An attempt to create a contract, up to the point where its init code runs.
    ///
    /// From the point where the nonce of the creator has been raised, a failure
    /// undoes everything but that.
    pub open spec fn create_gate(
        self,
        rules: RulesView,
        caller: H160,
        scheme: CreateScheme,
        value: U256,
        init_code: Seq<u8>,
        gas_limit: u64,
    ) -> CreateGate {
        let loaded = self.load(caller);
        let creator = loaded.sub.accounts[caller];
        if loaded.sub.marks.len() > rules.call_stack_limit {
            CreateGate::Ended {
                reason: ExitReason::Error(ExitError::CallTooDeep),
                gas: full_gas(gas_limit),
                evm: loaded,
            }
        } else if creator.info.balance < value@ {
            CreateGate::Ended {
                reason: ExitReason::Error(ExitError::OutOfFund),
                gas: no_gas(),
                evm: loaded,
            }
        } else {
            let index = self.sub.marks.len() as int;
            let address = new_address(scheme, caller, creator.info.nonce, hash_of(init_code));
            let (started, free) = loaded.sub.inc_nonce(caller).marked().new_contract(
                self.db,
                address,
                addresses_of(self.precompiles),
            );
            let (paid, outcome) = started.transfer(self.db, caller, address, value@);
            if !free {
                CreateGate::Ended {
                    reason: ExitReason::Error(ExitError::CreateCollision),
                    gas: full_gas(gas_limit),
                    evm: self.with_sub(started.rolled_back(index)),
                }
            } else {
                match outcome {
                    Err(error) => CreateGate::Ended {
                        reason: ExitReason::Error(error),
                        gas: full_gas(gas_limit),
                        evm: self.with_sub(paid.rolled_back(index)),
                    },
                    Ok(_) => CreateGate::Run {
                        machine: fresh_machine(
                            ContractView {
                                input: Seq::empty(),
                                code: init_code,
                                address,
                                caller,
                                value,
                            },
                            gas_limit,
                        ),
                        evm: self.with_sub(
                            if rules.create_increase_nonce {
                                paid.inc_nonce(address)
                            } else {
                                paid
                            },
                        ),
                        address,
                    },
                }
            }
        }
    }

    /// The end of init code that ran inside checkpoint `index` for the contract
    /// at `address`: why the creation ended, the address of the new contract, the
    /// meter, the output, and what is left.
    ///
    /// The output of init code that succeeds becomes the code of the contract, if
    /// it is not too long and the gas that is left pays for it.
    pub open spec fn create_ended(
        self,
        index: int,
        address: H160,
        code_hash: H256,
        limit: Option<usize>,
        reason: ExitReason,
        machine: MachineView,
    ) -> (ExitReason, Option<H160>, Gas, Seq<u8>, EvmView) {
        let undone = self.with_sub(self.sub.rolled_back(index));
        let code = machine.output;
        let cost = code.len() * CODEDEPOSIT;
        match reason {
            ExitReason::Succeed(_) => if limit is Some && code.len() > limit->0 {
                (
                    ExitReason::Error(ExitError::CreateContractLimit),
                    None,
                    machine.gas,
                    Seq::empty(),
                    undone,
                )
            } else if machine.gas.used + cost > machine.gas.limit {
                (
                    ExitReason::Error(ExitError::OutOfGas),
                    None,
                    machine.gas,
                    Seq::empty(),
                    undone,
                )
            } else {
                (
                    ExitReason::Succeed(ExitSucceed::Returned),
                    Some(address),
                    Gas { used: (machine.gas.used + cost) as u64, ..machine.gas },
                    Seq::empty(),
                    self.with_sub(
                        self.sub.set_code(address, code_hash, code).committed(index),
                    ),
                )
            },
            _ => (reason, None, machine.gas, machine.output, undone),
        }
    }

    /// The end of a transaction that is charged for `spent` gas: the price is
    /// paid to the coinbase as far as the sender can pay it, and the accounts are
    /// handed out.
    pub open spec fn settled(self, sender: H160, spent: u64) -> (
        EvmView,
        Map<H160, AccountView>,
    ) {
        let (paid, _) = self.sub.transfer(
            self.db,
            sender,
            self.env.block_coinbase,
            spent as nat * self.env.gas_price@,
        );
        (self.with_sub(SubView::empty()), paid.accounts)
    }
}

/// The number of zero bytes in `data`.
pub open spec fn zero_bytes(data: Seq<u8>) -> nat {
    data.filter(|byte: u8| byte == 0).len()
}

/// The number of storage indices in an access list.
pub open spec fn listed_slots(list: Seq<(H160, Vec<H256>)>) -> nat
    decreases list.len(),
{
    if list.len() == 0 {
        0
    } else {
        listed_slots(list.drop_last()) + list.last().1@.len()
    }
}

/// The gas that a transaction uses before any code runs.
pub open spec fn initial_gas(
    rules: RulesView,
    data: Seq<u8>,
    is_create: bool,
    access_list: Seq<(H160, Vec<H256>)>,
) -> nat {
    let transact = if is_create {
        rules.gas_transaction_create
    } else {
        rules.gas_transaction_call
    };
    let zeros = zero_bytes(data);
    let others = (data.len() - zeros) as nat;
    transact as nat + zeros * rules.gas_transaction_zero_data as nat + others
        * rules.gas_transaction_non_zero_data as nat + access_list.len()
        * rules.gas_access_list_address as nat + listed_slots(access_list)
        * rules.gas_access_list_storage_key as nat
}

/// Whether the gas of a transaction can be counted in 64 bits, and the price of all
/// of it, if the transaction gets to run, in 256 bits.
pub open spec fn gas_in_range(
    rules: RulesView,
    data: Seq<u8>,
    is_create: bool,
    access_list: Seq<(H160, Vec<H256>)>,
    gas_limit: u64,
    gas_price: nat,
) -> bool {
    let initial = initial_gas(rules, data, is_create, access_list);
    &&& listed_slots(access_list) <= u64::MAX
    &&& initial <= u64::MAX
    &&& gas_limit < initial || gas_limit * gas_price < u256_bound()
}

/// A refund as an unsigned number: a negative one counts from the top of the
/// range.
pub open spec fn refund_units(refunded: i64) -> int {
    if refunded >= 0 {
        refunded as int
    } else {
        refunded + 0x1_0000_0000_0000_0000
    }
}

/// The gas that a transaction has used: all of it after an error.
pub open spec fn gas_spent(gas_limit: u64, initial: int, reason: ExitReason, gas: Gas) -> int {
    if reason is Error {
        gas_limit as int
    } else {
        gas.used + initial
    }
}

/// The gas that a transaction is charged for: what it has used, less its refund,
/// which is at most half of that.
pub open spec fn gas_charged(spent: int, refunded: i64) -> int {
    if refund_units(refunded) < spent / 2 {
        spent - refund_units(refunded)
    } else {
        spent - spent / 2
    }
}

} // verus!

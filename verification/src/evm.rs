//! The virtual machine: it makes calls and creates contracts, and carries out
//! what running code asks of its host.
use crate::account::{accounts_of, state_wf, State};
use crate::buffer::{
    buffer_as_slice, buffer_from_vec, buffer_is_empty, buffer_len, empty_buffer, octets,
    share_buffer,
};
use crate::behaviour::{lives, slot_is_warm};
use crate::db::Database;
use crate::digest::{hash_of, keccak256, keccak_hash};
use crate::env::{CallContext, CreateScheme, GlobalEnv, Log, LogView, Transfer};
use crate::error::{ExitError, ExitReason, ExitSucceed};
use crate::hardfork::{rules, NotStaticSpec, RulesView, Spec};
use crate::laws::{first_word, standing, word};
use crate::machine::{Contract, Gas, Machine};
use crate::model::{
    gas_charged, gas_in_range, gas_spent, initial_gas, listed_slots, zero_bytes, CallGate,
    CreateGate, EvmView,
};
use crate::opcode::{OpCode, CODEDEPOSIT};
use crate::precompiles::{
    addresses_of, result_view, Precompile, PrecompileOutput, PrecompileResult, Precompiles,
};
use crate::primitives::{u256_bound, zero_hash, H160, H256, U256};
use crate::runtime::{
    call_charged, call_outcome, call_payable, call_ran, call_settled, create_charged,
    create_outcome, create_payable, create_ran, create_settled, lemma_call_outcome,
    lemma_create_gate, lemma_create_outcome, lemma_initialized, precompile_ran, Runtime,
};
use crate::subroutine::{SubRoutine, SubRoutineCheckpoint, SubView};
use crate::table::Table;
use crate::trace::{call_event, instruction_event, instruction_view, TraceEvent, TraceView};
use crate::util;
use bytes::Bytes;
use vstd::prelude::*;

verus! {

/// What a self-destruction came upon.
#[derive(Debug, PartialEq, Eq)]
pub struct SelfDestructResult {
    pub had_value: bool,
    pub exists: bool,
    pub is_cold: bool,
    pub previously_destroyed: bool,
}

impl Default for SelfDestructResult {
    fn default() -> (r: Self)
        ensures
            r == (SelfDestructResult {
                had_value: false,
                exists: false,
                is_cold: false,
                previously_destroyed: false,
            }),
    {
        SelfDestructResult {
            had_value: false,
            exists: false,
            is_cold: false,
            previously_destroyed: false,
        }
    }
}

/// The virtual machine, working on the database `db`. Code is executed by the
/// runtime `R`.
pub struct EVM<'a, DB: Database, R> {
    db: &'a mut DB,
    global_env: GlobalEnv,
    subroutine: SubRoutine,
    precompiles: Precompiles,
    trace: Vec<TraceEvent>,
    runtime: core::marker::PhantomData<R>,
}

impl<'a, DB: Database, R> View for EVM<'a, DB, R> {
    type V = EvmView;

    closed spec fn view(&self) -> EvmView {
        EvmView {
            sub: self.subroutine@,
            db: self.db.contents(),
            env: self.global_env,
            precompiles: self.precompiles@,
            trace: self.trace@.map_values(|event: TraceEvent| event@),
        }
    }
}

impl<'a, DB: Database, R> EVM<'a, DB, R> {
    /// The accounts, logs and checkpoints are sound.
    pub closed spec fn wf(&self) -> bool {
        self.subroutine.wf()
    }

    /// A machine on `db` that has loaded nothing.
    pub fn new(db: &'a mut DB, global_env: GlobalEnv) -> (r: Self)
        ensures
            r.wf(),
            r@ == (EvmView {
                sub: SubView::empty(),
                db: old(db).contents(),
                env: global_env,
                precompiles: Seq::empty(),
                trace: Seq::empty(),
            }),
    {
        let r = EVM {
            db,
            global_env,
            subroutine: SubRoutine::new(Table::new()),
            precompiles: Precompiles::new(),
            trace: Vec::new(),
            runtime: core::marker::PhantomData,
        };
        assert(r.subroutine@.accounts =~= Map::empty());
        assert(r@.trace =~= Seq::empty());
        r
    }

    /// Adds a report to the trace.
    fn report(&mut self, event: TraceEvent)
        requires
            old(self).wf(),
        ensures
            final(self).wf(),
            final(self)@ == old(self)@.traced(event@),
    {
        self.trace.push(event);
        assert(self@.trace =~= old(self)@.trace.push(event@));
    }

    /// Hands out the reports made so far.
    pub fn take_trace(&mut self) -> (r: Vec<TraceEvent>)
        requires
            old(self).wf(),
        ensures
            final(self).wf(),
            r@.map_values(|event: TraceEvent| event@) == old(self)@.trace,
            final(self)@ == (EvmView { trace: Seq::empty(), ..old(self)@ }),
    {
        let mut taken: Vec<TraceEvent> = Vec::new();
        std::mem::swap(&mut self.trace, &mut taken);
        assert(self@.trace =~= Seq::empty());
        taken
    }
}

/// What running code can ask of its host.
pub trait Handler {
    /// What the host holds.
    spec fn host(&self) -> EvmView;

    /// Whether the host is sound.
    spec fn sound(&self) -> bool;

    /// Whether creating a contract on `before` can give these results and leave
    /// `after`.
    spec fn may_create(
        rules: RulesView,
        before: EvmView,
        caller: H160,
        scheme: CreateScheme,
        value: U256,
        init_code: Seq<u8>,
        gas_limit: u64,
        reason: ExitReason,
        address: Option<H160>,
        gas: Gas,
        output: Seq<u8>,
        after: EvmView,
    ) -> bool;

    /// Whether a call made on `before` can give these results and leave `after`.
    spec fn may_call(
        rules: RulesView,
        before: EvmView,
        code_address: H160,
        transfer: Option<Transfer>,
        input: Seq<u8>,
        gas_limit: u64,
        context: CallContext,
        reason: ExitReason,
        gas: Gas,
        output: Seq<u8>,
        after: EvmView,
    ) -> bool;

    /// Get global const context of evm execution
    fn global_env(&self) -> (r: &GlobalEnv)
        ensures
            *r == self.host().env,
    ;

    /// Loads an account and its code. Says whether the account is cold, that is
    /// loaded for the first time, and whether there is anything at the address.
    fn load_account(&mut self, address: H160) -> (r: (bool, bool))
        requires
            old(self).sound(),
        ensures
            final(self).sound(),
            final(self).host() == old(self).host().load_code(address),
            r.0 == !old(self).host().sub.accounts.contains_key(address),
            r.1 == final(self).host().sub.accounts[address].is_live(),
            r.1 == lives(standing(old(self).host(), address)),
    ;

    /// Get environmental block hash.
    fn block_hash(&mut self, number: U256) -> (r: H256)
        requires
            old(self).sound(),
        ensures
            final(self).sound(),
            final(self).host() == old(self).host(),
            r == (old(self).host().db.block_hashes)(number),
    ;

    /// Get balance of address, and whether the account is cold.
    fn balance(&mut self, address: H160) -> (r: (U256, bool))
        requires
            old(self).sound(),
        ensures
            final(self).sound(),
            final(self).host() == old(self).host().load(address),
            r.0@ == final(self).host().sub.accounts[address].info.balance,
            r.0@ == standing(old(self).host(), address).balance,
            r.1 == !old(self).host().sub.accounts.contains_key(address),
    ;

    /// Get code of address, and whether the account is cold.
    fn code(&mut self, address: H160) -> (r: (Bytes, bool))
        requires
            old(self).sound(),
        ensures
            final(self).sound(),
            final(self).host() == old(self).host().load_code(address),
            octets(r.0) == final(self).host().sub.accounts[address].info.code->0,
            octets(r.0) == standing(old(self).host(), address).code,
            r.1 == !old(self).host().sub.accounts.contains_key(address),
    ;

    /// Get storage value of address at index, and whether the slot is cold.
    fn sload(&mut self, address: H160, index: H256) -> (r: (H256, bool))
        requires
            old(self).sound(),
        ensures
            final(self).sound(),
            final(self).host() == old(self).host().load_slot(address, index),
            r.0 == final(self).host().sub.accounts[address].storage[index].present,
            r.0 == word(old(self).host(), address, index),
            r.1 == !old(self).host().sub.has_slot(address, index),
            r.1 == !slot_is_warm(old(self).host(), address, index),
    ;

    /// Set storage value of address at index. Returns the value before the
    /// transaction, the value before the write, the new value, and whether the
    /// slot is cold.
    fn sstore(&mut self, address: H160, index: H256, value: H256) -> (r: (H256, H256, H256, bool))
        requires
            old(self).sound(),
        ensures
            final(self).sound(),
            final(self).host() == old(self).host().store_slot(address, index, value),
            ({
                let slot = old(self).host().load_slot(
                    address,
                    index,
                ).sub.accounts[address].storage[index];
                r == (
                    slot.original,
                    slot.present,
                    value,
                    !old(self).host().sub.has_slot(address, index),
                )
            }),
            r.0 == first_word(old(self).host(), address, index),
            r.1 == word(old(self).host(), address, index),
            r.2 == value,
            r.3 == !slot_is_warm(old(self).host(), address, index),
    ;

    /// Create a log owned by address with given topics and data.
    fn log(&mut self, address: H160, topics: Vec<H256>, data: Bytes)
        requires
            old(self).sound(),
        ensures
            final(self).sound(),
            final(self).host() == old(self).host().logged(
                seq![LogView { address, topics: topics@, data: octets(data) }],
            ),
    ;

    /// Mark an address to be deleted, with funds transferred to target.
    fn selfdestruct(&mut self, address: H160, target: H160) -> (r: SelfDestructResult)
        requires
            old(self).sound(),
        ensures
            final(self).sound(),
            final(self).host() == old(self).host().destroy(address, target),
            r == old(self).host().sub.destroy_result(old(self).host().db, address, target),
            r.had_value == (standing(old(self).host(), address).balance != 0),
            r.exists == lives(standing(old(self).host(), target)),
            r.is_cold == (!old(self).host().sub.accounts.contains_key(target) && target
                != address),
            r.previously_destroyed == standing(old(self).host(), address).destroyed,
    ;

    /// Invoke a create operation.
    fn create<SPEC: Spec>(
        &mut self,
        caller: H160,
        scheme: CreateScheme,
        value: U256,
        init_code: Bytes,
        gas: u64,
    ) -> (r: (ExitReason, Option<H160>, Gas, Bytes))
        requires
            old(self).sound(),
        ensures
            final(self).sound(),
            old(self).host().keeps(final(self).host()),
            r.2.wf(),
            r.2.limit <= gas,
            Self::may_create(
                rules::<SPEC>(),
                old(self).host(),
                caller,
                scheme,
                value,
                octets(init_code),
                gas,
                r.0,
                r.1,
                r.2,
                octets(r.3),
                final(self).host(),
            ),
    ;

    /// Invoke a call operation.
    fn call<SPEC: Spec>(
        &mut self,
        code_address: H160,
        transfer: Option<Transfer>,
        input: Bytes,
        gas: u64,
        context: CallContext,
    ) -> (r: (ExitReason, Gas, Bytes))
        requires
            old(self).sound(),
        ensures
            final(self).sound(),
            old(self).host().keeps(final(self).host()),
            r.1.wf(),
            r.1.limit <= gas,
            Self::may_call(
                rules::<SPEC>(),
                old(self).host(),
                code_address,
                transfer,
                octets(input),
                gas,
                context,
                r.0,
                r.1,
                octets(r.2),
                final(self).host(),
            ),
    ;
}

/// Where an attempt to call stands once it has been prepared.
pub enum CallStep {
    /// It is over.
    Ended(ExitReason, Gas),
    /// A built-in contract is to be run inside a checkpoint.
    Precompile(Precompile, SubRoutineCheckpoint),
    /// A machine is to be run inside a checkpoint.
    Run(Machine, SubRoutineCheckpoint),
}

/// Where an attempt to create a contract stands once it has been prepared.
pub enum CreateStep {
    /// It is over.
    Ended(ExitReason, Gas),
    /// A machine is to be run inside a checkpoint, for the contract at an address
    /// and with init code that has the given hash.
    Run(Machine, SubRoutineCheckpoint, H160, H256),
}

impl<'a, DB: Database, R: Runtime> EVM<'a, DB, R> {
    /// Prepares a call: fetches the code, opens a checkpoint and moves the value.
    pub fn call_enter<SPEC: Spec>(
        &mut self,
        code_address: H160,
        transfer: Option<Transfer>,
        input: &Bytes,
        gas_limit: u64,
        context: &CallContext,
    ) -> (r: CallStep)
        requires
            old(self).wf(),
        ensures
            final(self).wf(),
            match old(self)@.call_gate(
                rules::<SPEC>(),
                code_address,
                transfer,
                octets(*input),
                gas_limit,
                *context,
            ) {
                CallGate::Ended { reason, gas, evm } => {
                    r == CallStep::Ended(reason, gas) && final(self)@ == evm
                },
                CallGate::Precompiled { precompile, evm } => {
                    &&& r matches CallStep::Precompile(entry, checkpoint)
                    &&& entry == precompile
                    &&& checkpoint.index == old(self)@.sub.marks.len()
                    &&& final(self)@ == evm
                },
                CallGate::Run { machine, evm } => {
                    &&& r matches CallStep::Run(fresh, checkpoint)
                    &&& fresh@ == machine
                    &&& checkpoint.index == old(self)@.sub.marks.len()
                    &&& final(self)@ == evm
                },
            },
    {
        // get code that we want to call
        let (code, _) = self.code(code_address);
        let checkpoint = self.subroutine.create_checkpoint();
        let _ = self.subroutine.load_account(context.address, self.db);
        self.report(call_event(code_address, context, &transfer, input, SPEC::IS_STATIC_CALL));
        // check depth of calls
        if self.subroutine.depth() > SPEC::CALL_STACK_LIMIT {
            return CallStep::Ended(ExitReason::Error(ExitError::CallTooDeep), Gas::default());
        }
        // transfer value from caller to called address
        if let Some(transfer) = transfer {
            if let Err(error) = self.subroutine.transfer(
                transfer.source,
                transfer.target,
                transfer.value,
                self.db,
            ) {
                self.subroutine.checkpoint_revert(checkpoint);
                return CallStep::Ended(ExitReason::Error(error), Gas::default());
            }
        }
        if let Some(precompile) = self.precompiles.get_fun(&code_address) {
            return CallStep::Precompile(precompile, checkpoint);
        }
        let contract = Contract::new(
            share_buffer(input),
            code,
            context.address,
            context.caller,
            context.apparent_value,
        );
        CallStep::Run(Machine::new(contract, gas_limit), checkpoint)
    }

    /// Finishes a call that a built-in contract carried out.
    pub fn call_precompile_exit(
        &mut self,
        checkpoint: SubRoutineCheckpoint,
        gas_limit: u64,
        result: PrecompileResult,
    ) -> (r: (ExitReason, Gas, Bytes))
        requires
            old(self).wf(),
            checkpoint.index < old(self)@.sub.marks.len(),
        ensures
            final(self).wf(),
            (r.0, r.1, octets(r.2), final(self)@) == old(self)@.precompile_ended(
                checkpoint.index as int,
                gas_limit,
                result_view(result),
            ),
    {
        let mut gas = Gas::new(gas_limit);
        match result {
            Ok(PrecompileOutput { output, cost, logs }) => {
                self.log_all(logs);
                let _ = gas.record_cost(cost);
                self.subroutine.checkpoint_commit(checkpoint);
                (ExitReason::Succeed(ExitSucceed::Returned), gas, buffer_from_vec(output))
            },
            Err(error) => {
                self.subroutine.checkpoint_discard(checkpoint);
                (ExitReason::Error(error), gas, empty_buffer())
            },
        }
    }

    /// Creates every log of `logs`.
    fn log_all(&mut self, logs: Vec<Log>)
        requires
            old(self).wf(),
        ensures
            final(self).wf(),
            final(self)@ == old(self)@.logged(logs@.map_values(|log: Log| log@)),
    {
        let ghost views = logs@.map_values(|log: Log| log@);
        for log in iter: logs
            invariant
                self.wf(),
                iter.seq() == logs@,
                views == logs@.map_values(|log: Log| log@),
                self@ == old(self)@.logged(views.take(iter.index() as int)),
        {
            let ghost before = self@;
            let ghost i = iter.index() as int;
            let Log { address, topics, data } = log;
            self.log(address, topics, data);
            proof {
                assert(views.take(i + 1) =~= views.take(i).push(views[i]));
                assert(self@.sub.logs =~= old(self)@.sub.logs + views.take(i + 1));
            }
        }
        assert(views.take(views.len() as int) =~= views);
    }

    /// Finishes a call that a machine carried out: what it did stays only if it
    /// succeeded.
    pub fn call_exit(
        &mut self,
        checkpoint: SubRoutineCheckpoint,
        exit_reason: ExitReason,
        machine: Machine,
    ) -> (r: (ExitReason, Gas, Bytes))
        requires
            old(self).wf(),
            checkpoint.index < old(self)@.sub.marks.len(),
        ensures
            final(self).wf(),
            final(self)@ == old(self)@.ended(checkpoint.index as int, exit_reason),
            r.0 == exit_reason,
            r.1 == machine@.gas,
            octets(r.2) == machine@.output,
    {
        match exit_reason {
            ExitReason::Succeed(_) => {
                self.subroutine.checkpoint_commit(checkpoint);
            },
            ExitReason::Revert(_) => {
                self.subroutine.checkpoint_revert(checkpoint);
            },
            ExitReason::Error(_) | ExitReason::Fatal(_) => {
                self.subroutine.checkpoint_discard(checkpoint);
            },
        }
        (exit_reason, machine.gas, machine.return_value())
    }

    /// Makes a call.
    fn call_inner<SPEC: Spec>(
        &mut self,
        code_address: H160,
        transfer: Option<Transfer>,
        input: Bytes,
        gas_limit: u64,
        context: CallContext,
    ) -> (r: (ExitReason, Gas, Bytes))
        requires
            old(self).wf(),
        ensures
            final(self).wf(),
            old(self)@.keeps(final(self)@),
            r.1.wf(),
            r.1.limit <= gas_limit,
            call_outcome::<R>(
                rules::<SPEC>(),
                old(self)@,
                code_address,
                transfer,
                octets(input),
                gas_limit,
                context,
                r.0,
                r.1,
                octets(r.2),
                final(self)@,
            ),
    {
        let step = self.call_enter::<SPEC>(code_address, transfer, &input, gas_limit, &context);
        let r = match step {
            CallStep::Ended(exit_reason, gas) => (exit_reason, gas, empty_buffer()),
            CallStep::Precompile(precompile, checkpoint) => {
                let result = R::run_precompile(
                    precompile,
                    buffer_as_slice(&input),
                    gas_limit,
                    &context,
                    SPEC::IS_STATIC_CALL,
                );
                let ghost (evm, outcome) = (self@, result_view(result));
                let r = self.call_precompile_exit(checkpoint, gas_limit, result);
                assert(precompile_ran::<R>(
                    rules::<SPEC>(),
                    checkpoint.index as int,
                    precompile,
                    evm,
                    octets(input),
                    gas_limit,
                    context,
                    r.0,
                    r.1,
                    octets(r.2),
                    self@,
                    outcome,
                ));
                r
            },
            CallStep::Run(machine, checkpoint) => {
                let mut machine = machine;
                let ghost (fresh, evm) = (machine@, self@);
                let exit_reason = R::run::<DB, SPEC>(&mut machine, self);
                let ghost (machine_after, host_after) = (machine@, self@);
                let r = self.call_exit(checkpoint, exit_reason, machine);
                assert(call_ran::<R>(
                    rules::<SPEC>(),
                    checkpoint.index as int,
                    fresh,
                    evm,
                    r.0,
                    r.1,
                    octets(r.2),
                    self@,
                    machine_after,
                    host_after,
                ));
                r
            },
        };
        proof {
            lemma_call_outcome::<R>(
                rules::<SPEC>(),
                old(self)@,
                code_address,
                transfer,
                octets(input),
                gas_limit,
                context,
                r.0,
                r.1,
                octets(r.2),
                self@,
            );
        }
        r
    }

    /// Prepares the creation of a contract: raises the nonce of the creator, opens
    /// a checkpoint, starts the contract and moves the value.
    pub fn create_enter<SPEC: Spec>(
        &mut self,
        caller: H160,
        scheme: CreateScheme,
        value: U256,
        init_code: &Bytes,
        gas_limit: u64,
    ) -> (r: CreateStep)
        requires
            old(self).wf(),
        ensures
            final(self).wf(),
            match old(self)@.create_gate(
                rules::<SPEC>(),
                caller,
                scheme,
                value,
                octets(*init_code),
                gas_limit,
            ) {
                CreateGate::Ended { reason, gas, evm } => {
                    r == CreateStep::Ended(reason, gas) && final(self)@ == evm
                },
                CreateGate::Run { machine, evm, address } => {
                    &&& r matches CreateStep::Run(fresh, checkpoint, place, code_hash)
                    &&& fresh@ == machine
                    &&& checkpoint.index == old(self)@.sub.marks.len()
                    &&& place == address
                    &&& code_hash == hash_of(octets(*init_code))
                    &&& final(self)@ == evm
                },
            },
    {
        let gas = Gas::new(gas_limit);
        let _ = self.subroutine.load_account(caller, self.db);
        // check depth of calls
        if self.subroutine.depth() > SPEC::CALL_STACK_LIMIT {
            return CreateStep::Ended(ExitReason::Error(ExitError::CallTooDeep), gas);
        }
        // check balance of caller and value
        if self.balance(caller).0.less_than(&value) {
            return CreateStep::Ended(ExitReason::Error(ExitError::OutOfFund), Gas::default());
        }
        // inc nonce of caller
        let old_nonce = self.subroutine.inc_nonce(caller);
        // enter into subroutine
        let checkpoint = self.subroutine.create_checkpoint();
        // create address
        let code_hash = keccak_hash(buffer_as_slice(init_code));
        let address = match scheme {
            CreateScheme::Create => util::create_address(caller, old_nonce),
            CreateScheme::Create2 { salt } => util::create2_address(caller, code_hash, salt),
        };
        // create contract account and check for collision
        if !self.subroutine.new_contract_acc(address, &self.precompiles.addresses(), self.db) {
            self.subroutine.checkpoint_discard(checkpoint);
            return CreateStep::Ended(ExitReason::Error(ExitError::CreateCollision), gas);
        }
        // transfer value to contract address
        if let Err(error) = self.subroutine.transfer(caller, address, value, self.db) {
            self.subroutine.checkpoint_revert(checkpoint);
            return CreateStep::Ended(ExitReason::Error(error), gas);
        }
        // inc nonce of contract
        if SPEC::CREATE_INCREASE_NONCE {
            let _ = self.subroutine.inc_nonce(address);
        }
        let contract = Contract::new(
            empty_buffer(),
            share_buffer(init_code),
            address,
            caller,
            value,
        );
        CreateStep::Run(Machine::new(contract, gas.limit()), checkpoint, address, code_hash)
    }

    /// Finishes the creation of a contract whose init code has run.
    pub fn create_exit<SPEC: Spec>(
        &mut self,
        checkpoint: SubRoutineCheckpoint,
        address: H160,
        code_hash: H256,
        exit_reason: ExitReason,
        machine: Machine,
    ) -> (r: (ExitReason, Option<H160>, Gas, Bytes))
        requires
            old(self).wf(),
            checkpoint.index < old(self)@.sub.marks.len(),
            old(self)@.sub.accounts.contains_key(address),
            machine@.gas.wf(),
        ensures
            final(self).wf(),
            (r.0, r.1, r.2, octets(r.3), final(self)@) == old(self)@.create_ended(
                checkpoint.index as int,
                address,
                code_hash,
                rules::<SPEC>().contract_limit,
                exit_reason,
                machine@,
            ),
    {
        let mut machine = machine;
        match exit_reason {
            ExitReason::Succeed(_) => {
                // if ok, check contract creation limit and calculate gas deduction on output len.
                let code = machine.return_value();
                if let Some(limit) = SPEC::create_contract_limit() {
                    if buffer_len(&code) > limit {
                        self.subroutine.checkpoint_discard(checkpoint);
                        return (
                            ExitReason::Error(ExitError::CreateContractLimit),
                            None,
                            machine.gas,
                            empty_buffer(),
                        );
                    }
                }
                // record code deposit gas cost and check if we are out of gas.
                let affordable = match (buffer_len(&code) as u64).checked_mul(CODEDEPOSIT) {
                    Some(gas_for_code) => machine.gas.record_cost(gas_for_code),
                    None => false,
                };
                if !affordable {
                    self.subroutine.checkpoint_discard(checkpoint);
                    (ExitReason::Error(ExitError::OutOfGas), None, machine.gas, empty_buffer())
                } else {
                    // if we have enough gas, set code and do checkpoint commit.
                    self.subroutine.set_code(address, code, code_hash);
                    self.subroutine.checkpoint_commit(checkpoint);
                    (
                        ExitReason::Succeed(ExitSucceed::Returned),
                        Some(address),
                        machine.gas,
                        empty_buffer(),
                    )
                }
            },
            ExitReason::Revert(_) => {
                self.subroutine.checkpoint_revert(checkpoint);
                (exit_reason, None, machine.gas, machine.return_value())
            },
            ExitReason::Error(_) | ExitReason::Fatal(_) => {
                self.subroutine.checkpoint_discard(checkpoint);
                (exit_reason, None, machine.gas, machine.return_value())
            },
        }
    }

    /// Creates a contract.
    fn create_inner<SPEC: Spec>(
        &mut self,
        caller: H160,
        scheme: CreateScheme,
        value: U256,
        init_code: Bytes,
        gas_limit: u64,
    ) -> (r: (ExitReason, Option<H160>, Gas, Bytes))
        requires
            old(self).wf(),
        ensures
            final(self).wf(),
            old(self)@.keeps(final(self)@),
            r.2.wf(),
            r.2.limit <= gas_limit,
            create_outcome::<R>(
                rules::<SPEC>(),
                old(self)@,
                caller,
                scheme,
                value,
                octets(init_code),
                gas_limit,
                r.0,
                r.1,
                r.2,
                octets(r.3),
                final(self)@,
            ),
    {
        proof {
            lemma_create_gate(
                rules::<SPEC>(),
                old(self)@,
                caller,
                scheme,
                value,
                octets(init_code),
                gas_limit,
            );
        }
        let step = self.create_enter::<SPEC>(caller, scheme, value, &init_code, gas_limit);
        let r = match step {
            CreateStep::Ended(exit_reason, gas) => (exit_reason, None, gas, empty_buffer()),
            CreateStep::Run(machine, checkpoint, address, code_hash) => {
                let mut machine = machine;
                let ghost (fresh, evm) = (machine@, self@);
                let exit_reason = R::run::<DB, SPEC>(&mut machine, self);
                let ghost (machine_after, host_after) = (machine@, self@);
                let r = self.create_exit::<SPEC>(
                    checkpoint,
                    address,
                    code_hash,
                    exit_reason,
                    machine,
                );
                assert(create_ran::<R>(
                    rules::<SPEC>(),
                    checkpoint.index as int,
                    fresh,
                    evm,
                    address,
                    r.0,
                    r.1,
                    r.2,
                    octets(r.3),
                    self@,
                    exit_reason,
                    machine_after,
                    host_after,
                ));
                r
            },
        };
        proof {
            lemma_create_outcome::<R>(
                rules::<SPEC>(),
                old(self)@,
                caller,
                scheme,
                value,
                octets(init_code),
                gas_limit,
                r.0,
                r.1,
                r.2,
                octets(r.3),
                self@,
            );
        }
        r
    }
}

impl<'a, DB: Database, R: Runtime> EVM<'a, DB, R> {
    /// Prepares a transaction: takes note of the built-in contracts, and loads
    /// them and the access list. Returns the gas that this costs.
    fn initialization<SPEC: Spec>(
        &mut self,
        input: &Bytes,
        is_create: bool,
        access_list: Vec<(H160, Vec<H256>)>,
    ) -> (r: u64)
        requires
            old(self).wf(),
            listed_slots(access_list@) <= u64::MAX,
            initial_gas(rules::<SPEC>(), octets(*input), is_create, access_list@) <= u64::MAX,
        ensures
            final(self).wf(),
            final(self)@ == old(self)@.initialized(
                rules::<SPEC>().precompiles,
                access_list@,
            ),
            r == initial_gas(rules::<SPEC>(), octets(*input), is_create, access_list@),
    {
        self.precompiles = SPEC::precompiles();
        self.load_precompiles();

        let data = buffer_as_slice(input);
        let zero_data_len = count_zeros(data);
        let non_zero_data_len = data.len() as u64 - zero_data_len;
        let accessed_accounts = access_list.len() as u64;
        let accessed_slots = self.load_access_list(&access_list);

        let transact = if is_create {
            SPEC::GAS_TRANSACTION_CREATE
        } else {
            SPEC::GAS_TRANSACTION_CALL
        };

        transact + zero_data_len * SPEC::GAS_TRANSACTION_ZERO_DATA + non_zero_data_len
            * SPEC::GAS_TRANSACTION_NON_ZERO_DATA + accessed_accounts
            * SPEC::GAS_ACCESS_LIST_ADDRESS + accessed_slots * SPEC::GAS_ACCESS_LIST_STORAGE_KEY
    }

    /// Loads the accounts of the built-in contracts.
    fn load_precompiles(&mut self)
        requires
            old(self).wf(),
        ensures
            final(self).wf(),
            final(self)@ == old(self)@.load_all(addresses_of(old(self)@.precompiles)),
    {
        let addresses = self.precompiles.addresses();
        let mut i: usize = 0;
        while i < addresses.len()
            invariant
                self.wf(),
                i <= addresses@.len(),
                self@ == old(self)@.load_all(addresses@.take(i as int)),
            decreases addresses@.len() - i,
        {
            let _ = self.subroutine.load_account(addresses[i], self.db);
            assert(addresses@.take(i + 1).drop_last() =~= addresses@.take(i as int));
            i = i + 1;
        }
        assert(addresses@.take(addresses@.len() as int) =~= addresses@);
    }

    /// Loads the accounts and storage words of an access list. Returns the number
    /// of storage words.
    fn load_access_list(&mut self, access_list: &Vec<(H160, Vec<H256>)>) -> (r: u64)
        requires
            old(self).wf(),
            listed_slots(access_list@) <= u64::MAX,
        ensures
            final(self).wf(),
            final(self)@ == old(self)@.load_access_list(access_list@),
            r == listed_slots(access_list@),
    {
        let ghost list = access_list@;
        let mut accessed_slots: u64 = 0;
        let mut i: usize = 0;
        while i < access_list.len()
            invariant
                self.wf(),
                list == access_list@,
                i <= list.len(),
                listed_slots(list) <= u64::MAX,
                accessed_slots == listed_slots(list.take(i as int)),
                self@ == old(self)@.load_access_list(list.take(i as int)),
            decreases list.len() - i,
        {
            let address = access_list[i].0;
            let slots = &access_list[i].1;
            proof {
                assert(list.take(i + 1).drop_last() =~= list.take(i as int));
                lemma_listed_slots(list, i + 1);
            }
            let _ = self.subroutine.load_account(address, self.db);
            accessed_slots = accessed_slots + slots.len() as u64;
            let ghost loaded = self@;
            let mut j: usize = 0;
            while j < slots.len()
                invariant
                    self.wf(),
                    j <= slots@.len(),
                    self@ == loaded.load_slots(address, slots@.take(j as int)),
                decreases slots@.len() - j,
            {
                let _ = self.subroutine.sload(address, slots[j], self.db);
                assert(slots@.take(j + 1).drop_last() =~= slots@.take(j as int));
                j = j + 1;
            }
            assert(slots@.take(slots@.len() as int) =~= slots@);
            i = i + 1;
        }
        assert(list.take(list.len() as int) =~= list);
        accessed_slots
    }
}

/// The beginning of an access list has no more storage indices than the whole.
proof fn lemma_listed_slots(list: Seq<(H160, Vec<H256>)>, n: int)
    requires
        0 <= n <= list.len(),
    ensures
        listed_slots(list.take(n)) <= listed_slots(list),
    decreases list.len(),
{
    if n == list.len() {
        assert(list.take(n) =~= list);
    } else {
        assert(list.drop_last().take(n) =~= list.take(n));
        lemma_listed_slots(list.drop_last(), n);
    }
}

/// The number of zero bytes in `data`.
fn count_zeros(data: &[u8]) -> (r: u64)
    ensures
        r == zero_bytes(data@),
        r <= data@.len(),
{
    let ghost is_zero = |byte: u8| byte == 0;
    let mut count: u64 = 0;
    let mut i: usize = 0;
    while i < data.len()
        invariant
            i <= data@.len(),
            count <= i,
            is_zero == (|byte: u8| byte == 0),
            count == data@.take(i as int).filter(is_zero).len(),
        decreases data@.len() - i,
    {
        proof {
            reveal(Seq::filter);
            assert(data@.take(i + 1).drop_last() =~= data@.take(i as int));
        }
        if data[i] == 0 {
            count = count + 1;
        }
        i = i + 1;
    }
    assert(data@.take(data@.len() as int) =~= data@);
    count
}

/// The number of storage indices in an access list, or `None` if it does not fit.
fn count_slots(access_list: &Vec<(H160, Vec<H256>)>) -> (r: Option<u64>)
    ensures
        match r {
            Some(slots) => slots == listed_slots(access_list@),
            None => listed_slots(access_list@) > u64::MAX,
        },
{
    let ghost list = access_list@;
    let mut count: u64 = 0;
    let mut i: usize = 0;
    while i < access_list.len()
        invariant
            list == access_list@,
            i <= list.len(),
            count == listed_slots(list.take(i as int)),
        decreases list.len() - i,
    {
        proof {
            assert(list.take(i + 1).drop_last() =~= list.take(i as int));
            lemma_listed_slots(list, i + 1);
        }
        count = match count.checked_add(access_list[i].1.len() as u64) {
            Some(sum) => sum,
            None => {
                return None;
            },
        };
        i = i + 1;
    }
    assert(list.take(list.len() as int) =~= list);
    Some(count)
}

/// `total` and the price of `count` things at `price` each, or `None` if that does
/// not fit.
fn add_priced(total: u64, count: u64, price: u64) -> (r: Option<u64>)
    ensures
        match r {
            Some(sum) => sum == total + count * price,
            None => total + count * price > u64::MAX,
        },
{
    match count.checked_mul(price) {
        Some(product) => total.checked_add(product),
        None => None,
    }
}

/// The gas that a transaction uses before any code runs, or `None` if it cannot be
/// counted in 64 bits.
fn checked_initial_gas<SPEC: Spec>(
    input: &Bytes,
    is_create: bool,
    access_list: &Vec<(H160, Vec<H256>)>,
) -> (r: Option<u64>)
    ensures
        match r {
            Some(gas) => {
                &&& listed_slots(access_list@) <= u64::MAX
                &&& gas == initial_gas(rules::<SPEC>(), octets(*input), is_create, access_list@)
            },
            None => {
                ||| listed_slots(access_list@) > u64::MAX
                ||| initial_gas(rules::<SPEC>(), octets(*input), is_create, access_list@)
                    > u64::MAX
            },
        },
{
    let data = buffer_as_slice(input);
    let zeros = count_zeros(data);
    let others = data.len() as u64 - zeros;
    let accounts = access_list.len() as u64;
    let slots = match count_slots(access_list) {
        Some(slots) => slots,
        None => {
            return None;
        },
    };
    let transact = if is_create {
        SPEC::GAS_TRANSACTION_CREATE
    } else {
        SPEC::GAS_TRANSACTION_CALL
    };
    let with_zeros = match add_priced(transact, zeros, SPEC::GAS_TRANSACTION_ZERO_DATA) {
        Some(sum) => sum,
        None => {
            return None;
        },
    };
    let with_data = match add_priced(with_zeros, others, SPEC::GAS_TRANSACTION_NON_ZERO_DATA) {
        Some(sum) => sum,
        None => {
            return None;
        },
    };
    let with_accounts = match add_priced(with_data, accounts, SPEC::GAS_ACCESS_LIST_ADDRESS) {
        Some(sum) => sum,
        None => {
            return None;
        },
    };
    add_priced(with_accounts, slots, SPEC::GAS_ACCESS_LIST_STORAGE_KEY)
}

/// The gas that a transaction has used, and what it is charged for.
fn settle_gas(gas_limit: u64, gas_used_init: u64, exit_reason: ExitReason, gas: Gas) -> (r: (
    u64,
    u64,
))
    requires
        gas.used + gas_used_init <= gas_limit,
    ensures
        r.0 == gas_spent(gas_limit, gas_used_init as int, exit_reason, gas),
        r.1 == gas_charged(r.0 as int, gas.refunded),
{
    let gas_spend = match exit_reason {
        ExitReason::Error(_) => gas_limit,
        _ => gas.all_used() + gas_used_init,
    };
    let refunded = gas.refunded();
    assert(refunded as u64 == (if refunded >= 0 {
        refunded as int
    } else {
        refunded + 0x1_0000_0000_0000_0000
    })) by (bit_vector);
    let units = refunded as u64;
    let half = gas_spend / 2;
    let refund_amt = if units < half {
        units
    } else {
        half
    };
    (gas_spend, gas_spend - refund_amt)
}

impl<'a, DB: Database, R: Runtime> EVM<'a, DB, R> {
    /// Ends a transaction: the caller pays the coinbase for the gas, and the
    /// accounts are handed out.
    fn finalize(&mut self, caller: H160, used_gas_sum: u64) -> (r: Result<State, ExitReason>)
        requires
            old(self).wf(),
            used_gas_sum * old(self)@.env.gas_price@ < u256_bound(),
        ensures
            final(self).wf(),
            r matches Ok(state) && state_wf(state) && state@.contains_key(caller) && (
                final(self)@,
                accounts_of(state),
            ) == old(self)@.settled(caller, used_gas_sum),
    {
        let eth_spend = U256::from_u64(used_gas_sum).times(self.global_env.gas_price);
        let coinbase = self.global_env.block_coinbase;
        let _ = self.subroutine.transfer(caller, coinbase, eth_spend, self.db);
        assert(self@.sub.accounts.contains_key(caller));
        let out = self.subroutine.finalize();
        assert(accounts_of(out).contains_key(caller));
        Ok(out)
    }

    /// Makes a call as a transaction of `caller`. Returns how it ended, its
    /// output, the gas that it is charged for, and the accounts that it loaded.
    pub fn call<SPEC: Spec>(
        &mut self,
        caller: H160,
        address: H160,
        value: U256,
        data: Bytes,
        gas_limit: u64,
        access_list: Vec<(H160, Vec<H256>)>,
    ) -> (r: (ExitReason, Bytes, u64, State))
        requires
            old(self).wf(),
            listed_slots(access_list@) <= u64::MAX,
            initial_gas(rules::<SPEC>(), octets(data), false, access_list@) <= u64::MAX,
            call_payable::<R>(
                rules::<SPEC>(),
                old(self)@,
                caller,
                address,
                value,
                octets(data),
                gas_limit,
                access_list@,
            ),
        ensures
            final(self).wf(),
            state_wf(r.3),
            call_settled::<R>(
                rules::<SPEC>(),
                old(self)@,
                caller,
                address,
                value,
                octets(data),
                gas_limit,
                access_list@,
                r.0,
                octets(r.1),
                r.2,
                accounts_of(r.3),
                final(self)@,
            ),
    {
        proof {
            lemma_initialized(old(self)@, rules::<SPEC>().precompiles, access_list@);
        }
        let gas_used_init = self.initialization::<SPEC>(&data, false, access_list);
        if gas_limit < gas_used_init {
            let state: State = Table::new();
            assert(accounts_of(state) =~= Map::empty());
            return (ExitReason::Error(ExitError::OutOfGas), empty_buffer(), 0, state);
        }
        let _ = self.subroutine.load_account(caller, self.db);
        let ghost loaded = self@;
        assert(loaded == old(self)@.initialized(
            rules::<SPEC>().precompiles,
            access_list@,
        ).load(caller));
        let _ = self.subroutine.inc_nonce(caller);
        assert(self@ == loaded.with_sub(loaded.sub.inc_nonce(caller)));

        let context = CallContext { caller, address, apparent_value: value };

        let (exit_reason, gas, bytes) = self.call_inner::<SPEC>(
            address,
            Some(Transfer { source: caller, target: address, value }),
            data,
            gas_limit - gas_used_init,
            context,
        );
        let ghost after = self@;
        assert(call_outcome::<R>(
            rules::<SPEC>(),
            loaded.with_sub(loaded.sub.inc_nonce(caller)),
            address,
            Some(Transfer { source: caller, target: address, value }),
            octets(data),
            (gas_limit - gas_used_init) as u64,
            context,
            exit_reason,
            gas,
            octets(bytes),
            after,
        ));
        let (_, gas_spend) = settle_gas(gas_limit, gas_used_init, exit_reason, gas);
        assert(gas_spend * after.env.gas_price@ <= gas_limit * after.env.gas_price@)
            by (nonlinear_arith)
            requires
                gas_spend <= gas_limit,
        ;
        match self.finalize(caller, gas_spend) {
            Err(error) => (error, bytes, gas_spend, Table::new()),
            Ok(state) => {
                assert(call_charged::<R>(
                    rules::<SPEC>(),
                    old(self)@,
                    caller,
                    address,
                    value,
                    octets(data),
                    gas_limit,
                    access_list@,
                    exit_reason,
                    octets(bytes),
                    gas_spend,
                    accounts_of(state),
                    self@,
                    gas,
                    after,
                ));
                (exit_reason, bytes, gas_spend, state)
            },
        }
    }

    /// Creates a contract as a transaction of `caller`. Returns how it ended, the
    /// address of the contract, the gas that it is charged for, and the accounts
    /// that it loaded.
    pub fn create<SPEC: Spec + NotStaticSpec>(
        &mut self,
        caller: H160,
        value: U256,
        init_code: Bytes,
        create_scheme: CreateScheme,
        gas_limit: u64,
        access_list: Vec<(H160, Vec<H256>)>,
    ) -> (r: (ExitReason, Option<H160>, u64, State))
        requires
            old(self).wf(),
            listed_slots(access_list@) <= u64::MAX,
            initial_gas(rules::<SPEC>(), octets(init_code), true, access_list@) <= u64::MAX,
            create_payable::<R>(
                rules::<SPEC>(),
                old(self)@,
                caller,
                value,
                octets(init_code),
                create_scheme,
                gas_limit,
                access_list@,
            ),
        ensures
            final(self).wf(),
            state_wf(r.3),
            create_settled::<R>(
                rules::<SPEC>(),
                old(self)@,
                caller,
                value,
                octets(init_code),
                create_scheme,
                gas_limit,
                access_list@,
                r.0,
                r.1,
                r.2,
                accounts_of(r.3),
                final(self)@,
            ),
    {
        proof {
            lemma_initialized(old(self)@, rules::<SPEC>().precompiles, access_list@);
        }
        let gas_used_init = self.initialization::<SPEC>(&init_code, true, access_list);
        if gas_limit < gas_used_init {
            let state: State = Table::new();
            assert(accounts_of(state) =~= Map::empty());
            return (ExitReason::Error(ExitError::OutOfGas), None, 0, state);
        }
        let (exit_reason, address, gas, output) = self.create_inner::<SPEC>(
            caller,
            create_scheme,
            value,
            init_code,
            gas_limit - gas_used_init,
        );
        let ghost after = self@;
        assert(create_outcome::<R>(
            rules::<SPEC>(),
            old(self)@.initialized(rules::<SPEC>().precompiles, access_list@),
            caller,
            create_scheme,
            value,
            octets(init_code),
            (gas_limit - gas_used_init) as u64,
            exit_reason,
            address,
            gas,
            octets(output),
            after,
        ));
        let (gas_spend, charged) = settle_gas(gas_limit, gas_used_init, exit_reason, gas);
        self.report(TraceEvent::CreateGas { gas_spend, charged, gas });
        assert(charged * after.env.gas_price@ <= gas_limit * after.env.gas_price@)
            by (nonlinear_arith)
            requires
                charged <= gas_limit,
        ;
        match self.finalize(caller, charged) {
            Err(error) => (error, address, charged, Table::new()),
            Ok(state) => {
                assert(create_charged::<R>(
                    rules::<SPEC>(),
                    old(self)@,
                    caller,
                    value,
                    octets(init_code),
                    create_scheme,
                    gas_limit,
                    access_list@,
                    exit_reason,
                    address,
                    charged,
                    accounts_of(state),
                    self@,
                    gas,
                    octets(output),
                    after,
                ));
                (exit_reason, address, charged, state)
            },
        }
    }
}

impl<'a, DB: Database, R: Runtime> EVM<'a, DB, R> {
    /// Whether the gas of a transaction and its price can be counted.
    fn is_gas_in_range<SPEC: Spec>(
        &self,
        input: &Bytes,
        is_create: bool,
        access_list: &Vec<(H160, Vec<H256>)>,
        gas_limit: u64,
    ) -> (r: bool)
        ensures
            r == gas_in_range(
                rules::<SPEC>(),
                octets(*input),
                is_create,
                access_list@,
                gas_limit,
                self@.env.gas_price@,
            ),
    {
        match checked_initial_gas::<SPEC>(input, is_create, access_list) {
            Some(initial) => gas_limit < initial || U256::from_u64(gas_limit).checked_mul(
                self.global_env.gas_price,
            ).is_some(),
            None => false,
        }
    }

    /// Makes a call as a transaction of `caller`, as `call` does, if its gas and the
    /// price of all its gas can be counted. Otherwise nothing happens and the result
    /// is `None`.
    pub fn checked_call<SPEC: Spec>(
        &mut self,
        caller: H160,
        address: H160,
        value: U256,
        data: Bytes,
        gas_limit: u64,
        access_list: Vec<(H160, Vec<H256>)>,
    ) -> (r: Option<(ExitReason, Bytes, u64, State)>)
        requires
            old(self).wf(),
        ensures
            final(self).wf(),
            r is Some <==> gas_in_range(
                rules::<SPEC>(),
                octets(data),
                false,
                access_list@,
                gas_limit,
                old(self)@.env.gas_price@,
            ),
            match r {
                Some((reason, output, charged, state)) => state_wf(state) && call_settled::<R>(
                    rules::<SPEC>(),
                    old(self)@,
                    caller,
                    address,
                    value,
                    octets(data),
                    gas_limit,
                    access_list@,
                    reason,
                    octets(output),
                    charged,
                    accounts_of(state),
                    final(self)@,
                ),
                None => final(self)@ == old(self)@,
            },
    {
        if !self.is_gas_in_range::<SPEC>(&data, false, &access_list, gas_limit) {
            return None;
        }
        Some(self.call::<SPEC>(caller, address, value, data, gas_limit, access_list))
    }

    /// Creates a contract as a transaction of `caller`, as `create` does, if its gas
    /// and the price of all its gas can be counted. Otherwise nothing happens and the
    /// result is `None`.
    pub fn checked_create<SPEC: Spec + NotStaticSpec>(
        &mut self,
        caller: H160,
        value: U256,
        init_code: Bytes,
        create_scheme: CreateScheme,
        gas_limit: u64,
        access_list: Vec<(H160, Vec<H256>)>,
    ) -> (r: Option<(ExitReason, Option<H160>, u64, State)>)
        requires
            old(self).wf(),
        ensures
            final(self).wf(),
            r is Some <==> gas_in_range(
                rules::<SPEC>(),
                octets(init_code),
                true,
                access_list@,
                gas_limit,
                old(self)@.env.gas_price@,
            ),
            match r {
                Some((reason, address, charged, state)) => state_wf(state) && create_settled::<R>(
                    rules::<SPEC>(),
                    old(self)@,
                    caller,
                    value,
                    octets(init_code),
                    create_scheme,
                    gas_limit,
                    access_list@,
                    reason,
                    address,
                    charged,
                    accounts_of(state),
                    final(self)@,
                ),
                None => final(self)@ == old(self)@,
            },
    {
        if !self.is_gas_in_range::<SPEC>(&init_code, true, &access_list, gas_limit) {
            return None;
        }
        Some(
            self.create::<SPEC>(caller, value, init_code, create_scheme, gas_limit, access_list),
        )
    }
}

impl<'a, DB: Database, R: Runtime> Handler for EVM<'a, DB, R> {
    open spec fn host(&self) -> EvmView {
        self@
    }

    open spec fn sound(&self) -> bool {
        self.wf()
    }

    open spec fn may_create(
        rules: RulesView,
        before: EvmView,
        caller: H160,
        scheme: CreateScheme,
        value: U256,
        init_code: Seq<u8>,
        gas_limit: u64,
        reason: ExitReason,
        address: Option<H160>,
        gas: Gas,
        output: Seq<u8>,
        after: EvmView,
    ) -> bool {
        create_outcome::<R>(
            rules,
            before,
            caller,
            scheme,
            value,
            init_code,
            gas_limit,
            reason,
            address,
            gas,
            output,
            after,
        )
    }

    open spec fn may_call(
        rules: RulesView,
        before: EvmView,
        code_address: H160,
        transfer: Option<Transfer>,
        input: Seq<u8>,
        gas_limit: u64,
        context: CallContext,
        reason: ExitReason,
        gas: Gas,
        output: Seq<u8>,
        after: EvmView,
    ) -> bool {
        call_outcome::<R>(
            rules,
            before,
            code_address,
            transfer,
            input,
            gas_limit,
            context,
            reason,
            gas,
            output,
            after,
        )
    }

    fn global_env(&self) -> (r: &GlobalEnv) {
        &self.global_env
    }

    fn load_account(&mut self, address: H160) -> (r: (bool, bool)) {
        self.subroutine.load_account_exist(address, self.db)
    }

    fn block_hash(&mut self, number: U256) -> (r: H256) {
        self.db.block_hash(number)
    }

    fn balance(&mut self, address: H160) -> (r: (U256, bool)) {
        let is_cold = self.subroutine.load_account(address, self.db);
        let balance = self.subroutine.account(address).info.balance;
        (balance, is_cold)
    }

    fn code(&mut self, address: H160) -> (r: (Bytes, bool)) {
        let (account, is_cold) = self.subroutine.load_code(address, self.db);
        (share_buffer(account.info.code.as_ref().unwrap()), is_cold)
    }

    fn sload(&mut self, address: H160, index: H256) -> (r: (H256, bool)) {
        self.subroutine.sload(address, index, self.db)
    }

    fn sstore(&mut self, address: H160, index: H256, value: H256) -> (r: (
        H256,
        H256,
        H256,
        bool,
    )) {
        self.subroutine.sstore(address, index, value, self.db)
    }

    fn log(&mut self, address: H160, topics: Vec<H256>, data: Bytes) {
        let log = Log { address, topics, data };
        self.subroutine.log(log);
        assert(self@.sub.logs =~= old(self)@.sub.logs + seq![log@]);
    }

    fn selfdestruct(&mut self, address: H160, target: H160) -> (r: SelfDestructResult) {
        self.subroutine.selfdestruct(address, target, self.db)
    }

    fn create<SPEC: Spec>(
        &mut self,
        caller: H160,
        scheme: CreateScheme,
        value: U256,
        init_code: Bytes,
        gas: u64,
    ) -> (r: (ExitReason, Option<H160>, Gas, Bytes)) {
        self.create_inner::<SPEC>(caller, scheme, value, init_code, gas)
    }

    fn call<SPEC: Spec>(
        &mut self,
        code_address: H160,
        transfer: Option<Transfer>,
        input: Bytes,
        gas: u64,
        context: CallContext,
    ) -> (r: (ExitReason, Gas, Bytes)) {
        self.call_inner::<SPEC>(code_address, transfer, input, gas, context)
    }
}

/// Reports about running code.
pub trait Tracing: Handler {
    /// Adds a report.
    fn record(&mut self, event: TraceEvent)
        requires
            old(self).sound(),
        ensures
            final(self).sound(),
            final(self).host() == old(self).host().traced(event@),
    ;

    /// Reports that `machine` is about to execute `opcode`.
    fn trace_opcode(&mut self, opcode: OpCode, machine: &Machine)
        requires
            old(self).sound(),
            machine@.gas.wf(),
        ensures
            final(self).sound(),
            final(self).host() == old(self).host().traced(instruction_view(opcode, machine@)),
    {
        let event = instruction_event(opcode, machine);
        self.record(event);
    }

    /// Reports that a call is about to be made.
    fn trace_call(
        &mut self,
        call: H160,
        context: &CallContext,
        transfer: &Option<Transfer>,
        input: &Bytes,
        is_static: bool,
    )
        requires
            old(self).sound(),
        ensures
            final(self).sound(),
            final(self).host() == old(self).host().traced(
                TraceView::Call {
                    call,
                    context: *context,
                    transfer: *transfer,
                    input: octets(*input),
                    is_static,
                },
            ),
    {
        let event = call_event(call, context, transfer, input, is_static);
        self.record(event);
    }
}

impl<'a, DB: Database, R: Runtime> Tracing for EVM<'a, DB, R> {
    fn record(&mut self, event: TraceEvent) {
        self.report(event);
    }
}

/// What running code can ask of its host, by way of what a `Handler` offers.
pub trait ExtHandler: Handler + Tracing {
    /// Get code size of address.
    fn code_size(&mut self, address: H160) -> (r: (U256, bool))
        requires
            old(self).sound(),
        ensures
            final(self).sound(),
            final(self).host() == old(self).host().load_code(address),
            r.0@ == final(self).host().sub.accounts[address].info.code->0.len(),
            r.0@ == standing(old(self).host(), address).code.len(),
            r.1 == !old(self).host().sub.accounts.contains_key(address),
    {
        let (code, is_cold) = self.code(address);
        (U256::from_u64(buffer_len(&code) as u64), is_cold)
    }

    /// Get code hash of address. Without code it is zero, and the account counts
    /// as cold.
    fn code_hash(&mut self, address: H160) -> (r: (H256, bool))
        requires
            old(self).sound(),
        ensures
            final(self).sound(),
            final(self).host() == old(self).host().load_code(address),
            ({
                let code = final(self).host().sub.accounts[address].info.code->0;
                r == if code.len() == 0 {
                    (zero_hash(), true)
                } else {
                    (hash_of(code), !old(self).host().sub.accounts.contains_key(address))
                }
            }),
            standing(old(self).host(), address).code.len() != 0 ==> r.0.0@ == keccak256(
                standing(old(self).host(), address).code,
            ),
            standing(old(self).host(), address).code.len() == 0 ==> r.0.0@ == Seq::new(
                32,
                |i: int| 0u8,
            ),
            r.1 == (standing(old(self).host(), address).code.len() == 0
                || !old(self).host().sub.accounts.contains_key(address)),
    {
        let (code, is_cold) = self.code(address);
        if buffer_is_empty(&code) {
            return (H256::zero(), true);
        }
        (keccak_hash(buffer_as_slice(&code)), is_cold)
    }

    /// Get the gas price value.
    fn gas_price(&self) -> (r: U256)
        ensures
            r == self.host().env.gas_price,
    {
        self.global_env().gas_price
    }

    /// Get execution origin.
    fn origin(&self) -> (r: H160)
        ensures
            r == self.host().env.origin,
    {
        self.global_env().origin
    }

    /// Get environmental block number.
    fn block_number(&self) -> (r: U256)
        ensures
            r == self.host().env.block_number,
    {
        self.global_env().block_number
    }

    /// Get environmental coinbase.
    fn block_coinbase(&self) -> (r: H160)
        ensures
            r == self.host().env.block_coinbase,
    {
        self.global_env().block_coinbase
    }

    /// Get environmental block timestamp.
    fn block_timestamp(&self) -> (r: U256)
        ensures
            r == self.host().env.block_timestamp,
    {
        self.global_env().block_timestamp
    }

    /// Get environmental block difficulty.
    fn block_difficulty(&self) -> (r: U256)
        ensures
            r == self.host().env.block_difficulty,
    {
        self.global_env().block_difficulty
    }

    /// Get environmental gas limit.
    fn block_gas_limit(&self) -> (r: U256)
        ensures
            r == self.host().env.block_gas_limit,
    {
        self.global_env().block_gas_limit
    }

    /// Get environmental chain ID.
    fn chain_id(&self) -> (r: U256)
        ensures
            r == self.host().env.chain_id,
    {
        self.global_env().chain_id
    }
}

impl<'a, DB: Database, R: Runtime> ExtHandler for EVM<'a, DB, R> {

}

} // verus!

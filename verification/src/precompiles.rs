//! Contracts that are built in.
use crate::env::{Log, LogView};
use crate::error::ExitError;
use crate::primitives::{Key, H160};
use vstd::prelude::*;

verus! {

/// A contract that is built in: where it stands, and the number by which a runtime
/// knows the function that it runs.
#[derive(Clone, Copy, Debug, PartialEq, Eq)]
pub struct Precompile {
    pub address: H160,
    pub function: u64,
}

/// What a built-in contract produced.
#[derive(Debug)]
pub struct PrecompileOutput {
    pub output: Vec<u8>,
    pub cost: u64,
    pub logs: Vec<Log>,
}

/// What a `PrecompileOutput` holds.
pub struct OutputView {
    pub output: Seq<u8>,
    pub cost: u64,
    pub logs: Seq<LogView>,
}

impl View for PrecompileOutput {
    type V = OutputView;

    open spec fn view(&self) -> OutputView {
        OutputView {
            output: self.output@,
            cost: self.cost,
            logs: self.logs@.map_values(|log: Log| log@),
        }
    }
}

/// What a built-in contract produced, or why it failed.
pub type PrecompileResult = Result<PrecompileOutput, ExitError>;

/// What a `PrecompileResult` holds.
pub open spec fn result_view(result: PrecompileResult) -> Result<OutputView, ExitError> {
    match result {
        Ok(output) => Ok(output@),
        Err(error) => Err(error),
    }
}

/// The addresses of built-in contracts.
pub open spec fn addresses_of(entries: Seq<Precompile>) -> Seq<H160> {
    entries.map_values(|entry: Precompile| entry.address)
}

/// The built-in contract at `address`: the first entry for it.
pub open spec fn entry_at(entries: Seq<Precompile>, address: H160) -> Option<Precompile>
    decreases entries.len(),
{
    if entries.len() == 0 {
        None
    } else if entries[0].address == address {
        Some(entries[0])
    } else {
        entry_at(entries.drop_first(), address)
    }
}

/// There is an entry for exactly the addresses of the built-in contracts.
pub proof fn law_built_in_contract_is_found(entries: Seq<Precompile>, address: H160)
    ensures
        entry_at(entries, address) is Some <==> addresses_of(entries).contains(address),
        entry_at(entries, address) matches Some(entry) ==> entry.address == address
            && entries.contains(entry),
    decreases entries.len(),
{
    if entries.len() > 0 {
        let rest = entries.drop_first();
        law_built_in_contract_is_found(rest, address);
        assert(addresses_of(entries)[0] == entries[0].address);
        assert(addresses_of(rest) =~= addresses_of(entries).drop_first());
        if entries[0].address != address {
            if addresses_of(rest).contains(address) {
                let k = addresses_of(rest).index_of(address);
                assert(addresses_of(entries)[k + 1] == address);
            }
            if addresses_of(entries).contains(address) {
                let k = addresses_of(entries).index_of(address);
                assert(addresses_of(rest)[k - 1] == address);
            }
            if entry_at(rest, address) is Some {
                let k = rest.index_of(entry_at(rest, address)->0);
                assert(entries[k + 1] == entry_at(rest, address)->0);
            }
        }
    }
}

/// The contracts that are built in.
#[derive(Debug)]
pub struct Precompiles {
    entries: Vec<Precompile>,
}

impl View for Precompiles {
    type V = Seq<Precompile>;

    closed spec fn view(&self) -> Seq<Precompile> {
        self.entries@
    }
}

impl Precompiles {
    /// No built-in contracts.
    pub fn new() -> (r: Self)
        ensures
            r@ == Seq::<Precompile>::empty(),
    {
        Precompiles { entries: Vec::new() }
    }

    /// The given built-in contracts. Where several stand at one address, the first
    /// counts.
    pub fn of(entries: Vec<Precompile>) -> (r: Self)
        ensures
            r@ == entries@,
    {
        Precompiles { entries }
    }

    /// The addresses of the built-in contracts.
    pub fn addresses(&self) -> (r: Vec<H160>)
        ensures
            r@ == addresses_of(self@),
    {
        let mut addresses: Vec<H160> = Vec::new();
        let mut i: usize = 0;
        while i < self.entries.len()
            invariant
                i <= self.entries@.len(),
                addresses@ == addresses_of(self.entries@.take(i as int)),
            decreases self.entries@.len() - i,
        {
            addresses.push(self.entries[i].address);
            i = i + 1;
            assert(addresses@ =~= addresses_of(self.entries@.take(i as int)));
        }
        assert(self.entries@.take(i as int) =~= self.entries@);
        addresses
    }

    /// The built-in contract at `address`.
    pub fn get_fun(&self, address: &H160) -> (r: Option<Precompile>)
        ensures
            r == entry_at(self@, *address),
    {
        let mut i: usize = 0;
        assert(self.entries@.skip(0) =~= self.entries@);
        while i < self.entries.len()
            invariant
                i <= self.entries@.len(),
                entry_at(self.entries@, *address) == entry_at(
                    self.entries@.skip(i as int),
                    *address,
                ),
            decreases self.entries@.len() - i,
        {
            assert(self.entries@.skip(i as int).drop_first() =~= self.entries@.skip(i + 1));
            if self.entries[i].address.same(address) {
                return Some(self.entries[i]);
            }
            i = i + 1;
        }
        None
    }
}

} // verus!

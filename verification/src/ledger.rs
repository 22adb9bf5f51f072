//! Plain values of the voting ledger: what an account holds, what can be voted
//! on, and the settings every transaction is built against.

use vstd::prelude::*;

verus! {

/// An amount of the ledger's currency.
#[derive(Clone, Copy, Debug, PartialEq, Eq)]
pub struct Value(pub u64);

/// The option a voter picks for a proposal.
#[derive(Clone, Copy, Debug, PartialEq, Eq)]
pub struct Choice(pub u8);

impl Choice {
    pub fn new(choice: u8) -> (c: Choice)
        ensures
            c.0 == choice,
    {
        Choice(choice)
    }

    pub fn as_byte(&self) -> (b: u8)
        ensures
            b == self.0,
    {
        self.0
    }
}

/// A proposal in the form the ledger takes a vote for: the vote plan it
/// belongs to, its place in that plan and the number of options it offers.
#[derive(Clone, Copy, Debug, PartialEq, Eq)]
pub struct Proposal {
    pub vote_plan_id: [u8; 32],
    pub index: u8,
    pub options: u8,
}

/// The fee of a transaction, linear in its inputs and outputs.
#[derive(Clone, Copy, Debug, PartialEq, Eq)]
pub struct LinearFee {
    pub constant: u64,
    pub coefficient: u64,
    pub certificate: u64,
}

/// Whether addresses belong to the production ledger or to a test ledger.
#[derive(Clone, Copy, Debug, PartialEq, Eq)]
pub enum Discrimination {
    Production,
    Test,
}

/// What the backend reports of the ledger and every transaction is signed
/// against.
#[derive(Clone, Copy, Debug, PartialEq, Eq)]
pub struct Settings {
    pub fees: LinearFee,
    pub discrimination: Discrimination,
    pub block0_initial_hash: [u8; 32],
}

/// The state of one account as the backend reported it at one moment. A value
/// of this type is never updated: a later fetch gives another one.
#[derive(Clone, Copy, Debug, PartialEq, Eq)]
pub struct AccountState {
    value: Value,
    counter: u32,
}

impl AccountState {
    pub closed spec fn spec_value(&self) -> Value {
        self.value
    }

    pub closed spec fn spec_counter(&self) -> u32 {
        self.counter
    }

    pub fn new(value: Value, counter: u32) -> (state: AccountState)
        ensures
            state.spec_value() == value,
            state.spec_counter() == counter,
    {
        AccountState { value, counter }
    }

    /// The balance of the account.
    #[verifier::when_used_as_spec(spec_value)]
    pub fn value(&self) -> (value: Value)
        ensures
            value == self.spec_value(),
    {
        self.value
    }

    /// The number of transactions of the account that the ledger has taken:
    /// the counter its next transaction has to carry.
    #[verifier::when_used_as_spec(spec_counter)]
    pub fn counter(&self) -> (counter: u32)
        ensures
            counter == self.spec_counter(),
    {
        self.counter
    }
}

} // verus!

//! Calls against chain state with code that was never deployed: the set of
//! account overrides that a simulated call carries, and the client it goes
//! through.
//!
//! The override set is the provider library's own `spoof::State`. This module
//! decides what goes into it; the call itself is made by the runtime, which
//! borrows the set and the inner client from here.

use vstd::prelude::*;
use ethers::providers::spoof::State;
use ethers::types::{Bytes, H160};
use crate::primitives::Address;

verus! {

#[verifier::external_type_specification]
#[verifier::external_body]
pub struct ExState(State);

/// The code overrides that a state override set holds: each account whose
/// code is overridden, with the code that a simulated call will see there.
pub uninterp spec fn code_overrides(state: State) -> Map<Address, Seq<u8>>;

/// `spoof::state()` returns an override set that holds no account, so no code
/// override either.
#[verifier::external_body]
fn empty_state() -> (fresh: State)
    ensures
        forall|address: Address| !code_overrides(fresh).dom().contains(address),
{
    ethers::providers::spoof::state()
}

/// `State::account` finds or makes the entry of the account at `address` and
/// leaves the other entries alone; `Account::code` sets that entry's code
/// override to `code`, whatever it was before.
#[verifier::external_body]
fn set_code(state: &mut State, address: Address, code: Vec<u8>)
    ensures
        code_overrides(*final(state)) == code_overrides(*old(state)).insert(address, code@),
{
    state.account(H160(address.bytes)).code(Bytes::from(code));
}

/// `H160::random()` draws an address from the operating system's random
/// source. Nothing is claimed of which one comes back.
#[verifier::external_body]
fn random_address() -> (address: Address) {
    Address { bytes: H160::random().0 }
}

/// A client together with the code overrides that its simulated calls carry.
#[derive(Debug)]
pub struct StateOverrideMiddleware<M> {
    /// The inner client.
    inner: M,
    /// The state override set used for calls.
    state: State,
}

impl<M> StateOverrideMiddleware<M> {
    /// The code that a simulated call sees at each overridden address.
    pub closed spec fn overrides(&self) -> Map<Address, Seq<u8>> {
        code_overrides(self.state)
    }

    /// The client that was wrapped.
    pub closed spec fn client(&self) -> M {
        self.inner
    }

    /// Wraps `inner`, with no override yet.
    pub fn new(inner: M) -> (middleware: StateOverrideMiddleware<M>)
        ensures
            middleware.client() == inner,
            middleware.overrides() == Map::<Address, Seq<u8>>::empty(),
    {
        let middleware = StateOverrideMiddleware { inner, state: empty_state() };
        assert(middleware.overrides() =~= Map::<Address, Seq<u8>>::empty());
        middleware
    }

    /// The inner client.
    pub fn inner(&self) -> (inner: &M)
        ensures
            *inner == self.client(),
    {
        &self.inner
    }

    /// The override set to hand to a simulated call.
    pub fn state(&self) -> (state: &State)
        ensures
            code_overrides(*state) == self.overrides(),
    {
        &self.state
    }

    /// Adds a code override at a given address, in place of any that stood
    /// there.
    pub fn add_code_to_address(&mut self, address: Address, code: Vec<u8>)
        ensures
            final(self).overrides() == old(self).overrides().insert(address, code@),
            final(self).client() == old(self).client(),
    {
        set_code(&mut self.state, address, code);
    }

    /// Adds a code override at a random address, returning the address.
    pub fn add_code(&mut self, code: Vec<u8>) -> (address: Address)
        ensures
            final(self).overrides() == old(self).overrides().insert(address, code@),
            final(self).client() == old(self).client(),
    {
        let address = random_address();
        set_code(&mut self.state, address, code);
        address
    }
}

} // verus!

//! Sourcing and election of the validator set for a proof-of-stake chain:
//! the genesis bootstrap set, the stake-ranked election from the staking
//! contract, and the choice of which set is active.
use vstd::prelude::*;

pub mod genesis;
pub mod power;
pub mod stake_hub_client;
pub mod abi;
pub mod election;
pub mod validator_executor;
pub mod validator_set;

verus! {

} // verus!

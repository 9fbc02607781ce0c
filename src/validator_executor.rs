//! Decides when the validator set is re-elected and which set is active.
use crate::election::ElectedValidators;
use crate::stake_hub_client::{epoch_length_outcome, StakeHubClient, StakeHubError};
use crate::validator_set::{forms_set, holds_elected, ValidatorSet};
use vstd::arithmetic::div_mod::lemma_fundamental_div_mod_converse;
use vstd::prelude::*;

verus! {

/// Where the active validator set came from. Once a set has been elected
/// from the contract the source never returns to genesis.
#[derive(Debug, Clone, Copy, PartialEq, Eq, Structural)]
pub enum SetSource {
    GenesisBootstrapped,
    ContractElected,
}

/// Holds the active validator set and the client used to elect the next one.
pub struct ValidatorExecutor {
    stake_hub_client: StakeHubClient,
    source: SetSource,
    active: ValidatorSet,
}

/// Whether `block_number` starts a new epoch of `epoch_length` blocks.
pub open spec fn epoch_boundary(block_number: nat, epoch_length: nat) -> bool {
    block_number > 0 && epoch_length > 0 && block_number % epoch_length == 0
}

/// Block zero is never an epoch boundary; every positive multiple of the
/// epoch length is one; and, for epochs of more than one block, the block just
/// before such a multiple is not.
pub proof fn lemma_epoch_boundaries(epoch_length: nat, k: nat)
    requires
        epoch_length > 0,
        k > 0,
    ensures
        !epoch_boundary(0, epoch_length),
        epoch_boundary(k * epoch_length, epoch_length),
        epoch_length > 1 ==> !epoch_boundary((k * epoch_length - 1) as nat, epoch_length),
{
    let e = epoch_length as int;
    let m = k as int;
    assert(m * e >= e) by (nonlinear_arith)
        requires
            m >= 1,
            e >= 1,
    ;
    lemma_fundamental_div_mod_converse(m * e, e, m, 0);
    if e > 1 {
        assert(m * e - 1 == (m - 1) * e + (e - 1)) by (nonlinear_arith);
        lemma_fundamental_div_mod_converse(m * e - 1, e, m - 1, e - 1);
    }
}

impl ValidatorExecutor {
    pub closed spec fn source(&self) -> SetSource {
        self.source
    }

    pub closed spec fn active(&self) -> ValidatorSet {
        self.active
    }

    pub closed spec fn client(&self) -> StakeHubClient {
        self.stake_hub_client
    }

    /// Starts from the bootstrap set read from genesis.
    pub fn new(stake_hub_client: StakeHubClient, genesis_set: ValidatorSet) -> (r: ValidatorExecutor)
        ensures
            r.source() == SetSource::GenesisBootstrapped,
            r.active() == genesis_set,
            r.client() == stake_hub_client,
    {
        ValidatorExecutor { stake_hub_client, source: SetSource::GenesisBootstrapped, active: genesis_set }
    }

    /// True iff `block_number` is positive and a multiple of `epoch_length`
    /// (never for an epoch length of zero).
    pub fn is_epoch_boundary(&self, block_number: u64, epoch_length: u64) -> (r: bool)
        ensures
            r == epoch_boundary(block_number as nat, epoch_length as nat),
    {
        block_number > 0 && epoch_length > 0 && block_number % epoch_length == 0
    }

    /// The contract client.
    pub fn stake_hub_client(&self) -> (r: &StakeHubClient)
        ensures
            *r == self.client(),
    {
        &self.stake_hub_client
    }

    /// Where the active set came from.
    pub fn set_source(&self) -> (r: SetSource)
        ensures
            r == self.source(),
    {
        self.source
    }

    /// The active validator set.
    pub fn active_set(&self) -> (r: &ValidatorSet)
        ensures
            *r == self.active(),
    {
        &self.active
    }

    /// The epoch length in the bytes returned by the contract's
    /// `epochLength()`; a failure of the call is passed on unchanged.
    pub fn get_epoch_length_from_stake_hub(&self, returned: Result<Vec<u8>, StakeHubError>) -> (r: Result<
        u64,
        StakeHubError,
    >)
        ensures
            returned matches Err(e) ==> r == Err::<u64, StakeHubError>(e),
            returned matches Ok(bytes) ==> r == epoch_length_outcome(self.client().interface(), bytes@),
    {
        match returned {
            Ok(bytes) => self.stake_hub_client.get_epoch_length(bytes.as_slice()),
            Err(e) => Err(e),
        }
    }

    /// The next validator set, from the outcome of an election: `None` when
    /// the election failed or its result cannot form a set.
    pub fn get_validator_set_from_stake_hub(&self, elected: Result<ElectedValidators, StakeHubError>) -> (r: Option<
        ValidatorSet,
    >)
        ensures
            elected is Err ==> r is None,
            elected matches Ok(e) ==> (r is Some <==> forms_set(e)),
            elected matches Ok(e) ==> (r matches Some(s) ==> holds_elected(s, e)),
    {
        match elected {
            Ok(e) => ValidatorSet::from_elected(e),
            Err(_) => None,
        }
    }

    /// Adopts the set elected by `elected` when there is one, and reports
    /// whether it did; otherwise the active set and its source stay as they
    /// were.
    pub fn apply_election(&mut self, elected: Result<ElectedValidators, StakeHubError>) -> (r: bool)
        ensures
            elected is Err ==> !r,
            !r ==> final(self).active() == old(self).active() && final(self).source() == old(self).source(),
            final(self).client() == old(self).client(),
            elected matches Ok(e) ==> (r <==> forms_set(e)),
            r ==> final(self).source() == SetSource::ContractElected,
            elected matches Ok(e) ==> (r ==> holds_elected(final(self).active(), e)),
            old(self).source() == SetSource::ContractElected ==> final(self).source() == SetSource::ContractElected,
    {
        match self.get_validator_set_from_stake_hub(elected) {
            Some(s) => {
                self.active = s;
                self.source = SetSource::ContractElected;
                true
            },
            None => false,
        }
    }
}

} // verus!

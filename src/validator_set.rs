//! The validator set handed to the consensus engine.
use crate::election::ElectedValidators;
use crate::genesis::GenesisValidatorInfo;
use vstd::prelude::*;

verus! {

pub const PUBLIC_KEY_LEN: usize = 32;

/// A validator as the consensus engine sees it.
#[derive(Debug, Clone)]
pub struct Validator {
    /// Consensus address (20 bytes).
    pub consensus_address: Vec<u8>,
    /// Operator address (20 bytes).
    pub operator_address: Vec<u8>,
    /// Ed25519 public key (32 bytes).
    pub public_key: Vec<u8>,
    pub voting_power: u64,
}

/// An ordered, non-empty collection of validators with positive powers,
/// 32-byte public keys and pairwise distinct consensus addresses.
#[derive(Debug, Clone)]
pub struct ValidatorSet {
    validators: Vec<Validator>,
}

/// `vs` may form a validator set.
pub open spec fn valid_members(vs: Seq<Validator>) -> bool {
    &&& vs.len() > 0
    &&& forall|i: int| 0 <= i < vs.len() ==> (#[trigger] vs[i]).voting_power > 0
    &&& forall|i: int| 0 <= i < vs.len() ==> (#[trigger] vs[i]).public_key.len() == 32
    &&& forall|i: int, j: int|
        0 <= i < j < vs.len() ==> (#[trigger] vs[i]).consensus_address@ != (#[trigger] vs[j]).consensus_address@
}

/// The public keys of `e` all have the expected width and its four
/// sequences have one length.
pub open spec fn elected_well_formed(e: ElectedValidators) -> bool {
    &&& e.voting_powers.len() == e.consensus_addrs.len()
    &&& e.operator_addrs.len() == e.consensus_addrs.len()
    &&& e.tendermint_pub_keys.len() == e.consensus_addrs.len()
    &&& forall|i: int| 0 <= i < e.tendermint_pub_keys.len() ==> (#[trigger] e.tendermint_pub_keys@[i]).len() == 32
}

/// Validator `v` is the `i`-th elected entry of `e`.
pub open spec fn assembled_from(v: Validator, e: ElectedValidators, i: int) -> bool {
    &&& v.consensus_address == e.consensus_addrs@[i]
    &&& v.operator_address == e.operator_addrs@[i]
    &&& v.public_key == e.tendermint_pub_keys@[i]
    &&& v.voting_power == e.voting_powers@[i]
}

/// The elected validators `e` form a validator set, taken in order.
pub open spec fn forms_set(e: ElectedValidators) -> bool {
    &&& elected_well_formed(e)
    &&& exists|vs: Seq<Validator>|
        {
            &&& vs.len() == e.consensus_addrs.len()
            &&& forall|i: int| 0 <= i < vs.len() ==> assembled_from(#[trigger] vs[i], e, i)
            &&& valid_members(vs)
        }
}

/// Set `s` holds the elected validators `e`, in order.
pub open spec fn holds_elected(s: ValidatorSet, e: ElectedValidators) -> bool {
    &&& s.wf()
    &&& s.members().len() == e.consensus_addrs.len()
    &&& forall|i: int| 0 <= i < s.members().len() ==> assembled_from(#[trigger] s.members()[i], e, i)
}

/// Validator `v` carries the genesis record `g`.
pub open spec fn from_genesis_info(v: Validator, g: GenesisValidatorInfo) -> bool {
    &&& v.consensus_address == g.consensus_address
    &&& v.operator_address == g.operator_address
    &&& v.public_key == g.tendermint_pubkey
    &&& v.voting_power == g.voting_power
}

/// Whether `a` and `b` hold the same bytes.
pub fn bytes_equal(a: &Vec<u8>, b: &Vec<u8>) -> (r: bool)
    ensures
        r == (a@ == b@),
{
    if a.len() != b.len() {
        return false;
    }
    let mut i: usize = 0;
    while i < a.len()
        invariant
            a.len() == b.len(),
            i <= a.len(),
            a@.subrange(0, i as int) == b@.subrange(0, i as int),
        decreases a.len() - i,
    {
        if a[i] != b[i] {
            assert(a@[i as int] != b@[i as int]);
            return false;
        }
        assert(a@.subrange(0, i + 1) =~= a@.subrange(0, i as int).push(a@[i as int]));
        assert(b@.subrange(0, i + 1) =~= b@.subrange(0, i as int).push(b@[i as int]));
        i = i + 1;
    }
    assert(a@ =~= a@.subrange(0, i as int));
    assert(b@ =~= b@.subrange(0, i as int));
    true
}

impl ValidatorSet {
    pub closed spec fn members(&self) -> Seq<Validator> {
        self.validators@
    }

    pub open spec fn wf(&self) -> bool {
        valid_members(self.members())
    }

    /// Forms a set from `validators`, in the given order; `None` unless they
    /// are non-empty, with positive powers, 32-byte keys and distinct
    /// consensus addresses.
    pub fn new(validators: Vec<Validator>) -> (r: Option<ValidatorSet>)
        ensures
            r is Some <==> valid_members(validators@),
            r matches Some(s) ==> s.members() == validators@ && s.wf(),
    {
        let n = validators.len();
        if n == 0 {
            return None;
        }
        let mut i: usize = 0;
        while i < n
            invariant
                n == validators.len(),
                i <= n,
                forall|k: int| 0 <= k < i ==> (#[trigger] validators@[k]).voting_power > 0,
                forall|k: int| 0 <= k < i ==> (#[trigger] validators@[k]).public_key.len() == 32,
                forall|k: int, j: int|
                    0 <= k < j < i ==> (#[trigger] validators@[k]).consensus_address@
                        != (#[trigger] validators@[j]).consensus_address@,
            decreases n - i,
        {
            if validators[i].voting_power == 0 || validators[i].public_key.len() != PUBLIC_KEY_LEN {
                return None;
            }
            let mut j: usize = 0;
            while j < i
                invariant
                    n == validators.len(),
                    j <= i < n,
                    forall|k: int| 0 <= k < j ==> (#[trigger] validators@[k]).consensus_address@
                        != validators@[i as int].consensus_address@,
                decreases i - j,
            {
                if bytes_equal(&validators[j].consensus_address, &validators[i].consensus_address) {
                    return None;
                }
                j = j + 1;
            }
            i = i + 1;
        }
        Some(ValidatorSet { validators })
    }

    /// The validators, in order.
    pub fn validators(&self) -> (r: &Vec<Validator>)
        ensures
            r@ == self.members(),
    {
        &self.validators
    }

    pub fn len(&self) -> (r: usize)
        ensures
            r == self.members().len(),
    {
        self.validators.len()
    }

    /// Builds the set that the elected validators `e` form, in election
    /// order. `None` when a public key is not 32 bytes or the sequences differ
    /// in length, and also when the validators cannot form a set: none
    /// elected, a scaled power of zero, or a repeated consensus address. No
    /// partial set is ever built.
    pub fn from_elected(e: ElectedValidators) -> (r: Option<ValidatorSet>)
        ensures
            r is Some <==> forms_set(e),
            r matches Some(s) ==> holds_elected(s, e),
    {
        let ghost e0 = e;
        let n = e.consensus_addrs.len();
        if e.voting_powers.len() != n || e.operator_addrs.len() != n || e.tendermint_pub_keys.len() != n {
            return None;
        }
        let mut consensus_addrs = e.consensus_addrs;
        let mut voting_powers = e.voting_powers;
        let mut operator_addrs = e.operator_addrs;
        let mut tendermint_pub_keys = e.tendermint_pub_keys;
        let mut out: Vec<Validator> = Vec::new();
        let mut i: usize = 0;
        while consensus_addrs.len() > 0
            invariant
                i + consensus_addrs.len() == n,
                voting_powers.len() == consensus_addrs.len(),
                operator_addrs.len() == consensus_addrs.len(),
                tendermint_pub_keys.len() == consensus_addrs.len(),
                n == e0.consensus_addrs.len(),
                e0.voting_powers.len() == n,
                e0.operator_addrs.len() == n,
                e0.tendermint_pub_keys.len() == n,
                consensus_addrs@ == e0.consensus_addrs@.skip(i as int),
                voting_powers@ == e0.voting_powers@.skip(i as int),
                operator_addrs@ == e0.operator_addrs@.skip(i as int),
                tendermint_pub_keys@ == e0.tendermint_pub_keys@.skip(i as int),
                out.len() == i,
                e0 == e,
                forall|k: int| 0 <= k < i ==> assembled_from(#[trigger] out@[k], e0, k),
                forall|k: int| 0 <= k < i ==> (#[trigger] e0.tendermint_pub_keys@[k]).len() == 32,
            decreases consensus_addrs.len(),
        {
            let consensus_address = consensus_addrs.remove(0);
            let voting_power = voting_powers.remove(0);
            let operator_address = operator_addrs.remove(0);
            let public_key = tendermint_pub_keys.remove(0);
            if public_key.len() != PUBLIC_KEY_LEN {
                assert(e0.tendermint_pub_keys@[i as int] == public_key);
                assert(e0.tendermint_pub_keys@[i as int].len() != 32);
                assert(!elected_well_formed(e0));
                return None;
            }
            out.push(Validator { consensus_address, operator_address, public_key, voting_power });
            proof {
                assert(consensus_addrs@ =~= e0.consensus_addrs@.skip(i + 1));
                assert(voting_powers@ =~= e0.voting_powers@.skip(i + 1));
                assert(operator_addrs@ =~= e0.operator_addrs@.skip(i + 1));
                assert(tendermint_pub_keys@ =~= e0.tendermint_pub_keys@.skip(i + 1));
            }
            i = i + 1;
        }
        let ghost vs = out@;
        let r = ValidatorSet::new(out);
        proof {
            assert(vs.len() == e0.consensus_addrs.len());
            assert(forall|k: int| 0 <= k < vs.len() ==> assembled_from(#[trigger] vs[k], e0, k));
            if !valid_members(vs) {
                assert forall|ws: Seq<Validator>|
                    ws.len() == e0.consensus_addrs.len() && (forall|k: int|
                        0 <= k < ws.len() ==> assembled_from(#[trigger] ws[k], e0, k)) implies !valid_members(ws) by {
                    assert forall|k: int| 0 <= k < ws.len() implies ws[k] == vs[k] by {
                        assert(assembled_from(ws[k], e0, k));
                        assert(assembled_from(vs[k], e0, k));
                    }
                    assert(ws =~= vs);
                }
            }
        }
        r
    }

    /// Builds the bootstrap set from the genesis records, in order; `None`
    /// when they cannot form a set.
    pub fn from_genesis(infos: Vec<GenesisValidatorInfo>) -> (r: Option<ValidatorSet>)
        ensures
            r matches Some(s) ==> {
                &&& s.wf()
                &&& s.members().len() == infos.len()
                &&& forall|i: int| 0 <= i < infos.len() ==> from_genesis_info(#[trigger] s.members()[i], infos@[i])
            },
            r is None <==> !valid_members(infos@.map_values(|g: GenesisValidatorInfo| Validator {
                consensus_address: g.consensus_address,
                operator_address: g.operator_address,
                public_key: g.tendermint_pubkey,
                voting_power: g.voting_power,
            })),
    {
        let ghost g0 = infos@;
        let mut infos = infos;
        let mut out: Vec<Validator> = Vec::new();
        while infos.len() > 0
            invariant
                out@ + infos@.map_values(|g: GenesisValidatorInfo| Validator {
                    consensus_address: g.consensus_address,
                    operator_address: g.operator_address,
                    public_key: g.tendermint_pubkey,
                    voting_power: g.voting_power,
                }) == g0.map_values(|g: GenesisValidatorInfo| Validator {
                    consensus_address: g.consensus_address,
                    operator_address: g.operator_address,
                    public_key: g.tendermint_pubkey,
                    voting_power: g.voting_power,
                }),
            decreases infos.len(),
        {
            let ghost before = infos@;
            let g = infos.remove(0);
            let ghost before_out = out@;
            out.push(Validator {
                consensus_address: g.consensus_address,
                operator_address: g.operator_address,
                public_key: g.tendermint_pubkey,
                voting_power: g.voting_power,
            });
            proof {
                let f = |g: GenesisValidatorInfo| Validator {
                    consensus_address: g.consensus_address,
                    operator_address: g.operator_address,
                    public_key: g.tendermint_pubkey,
                    voting_power: g.voting_power,
                };
                assert(infos@ =~= before.drop_first());
                assert(before.map_values(f) =~= seq![f(before[0])] + infos@.map_values(f));
                assert(out@ + infos@.map_values(f) =~= before_out + before.map_values(f));
            }
        }
        proof {
            assert(infos@.map_values(|g: GenesisValidatorInfo| Validator {
                consensus_address: g.consensus_address,
                operator_address: g.operator_address,
                public_key: g.tendermint_pubkey,
                voting_power: g.voting_power,
            }) =~= Seq::<Validator>::empty());
            assert(out@ =~= g0.map_values(|g: GenesisValidatorInfo| Validator {
                consensus_address: g.consensus_address,
                operator_address: g.operator_address,
                public_key: g.tendermint_pubkey,
                voting_power: g.voting_power,
            }));
        }
        ValidatorSet::new(out)
    }
}

} // verus!

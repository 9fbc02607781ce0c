//! Client for the staking contract: builds call payloads and reads the
//! returned bytes. The calls themselves are made by the caller.
use crate::abi::{
    abi_declares, abi_decoded, abi_encoded, abi_parses, arg_values, decode_output, encode_input,
    lookup_function, parse_interface, ContractInterface, SolValue,
};
use crate::election::{
    address_text_of, election, get_top_validators_by_voting_power, lists, powers_fit, scaled_power,
    ElectedValidators, ValidatorElectionInfo, POWER_DIVISOR,
};
use crate::power::{power_div, Power};
use vstd::prelude::*;

verus! {

/// Why a staking-contract operation failed.
#[derive(Debug, Clone, Copy, PartialEq, Eq, Structural)]
pub enum StakeHubError {
    /// The interface description could not be read.
    InvalidAbi,
    /// The contract address is not 20 bytes.
    InvalidAddress,
    /// The interface declares no function of the needed name.
    MissingFunction,
    /// The call arguments could not be encoded.
    Encode,
    /// The returned bytes could not be decoded.
    Decode,
    /// The contract call itself failed.
    Call,
    /// A decoded output does not have the expected shape.
    UnexpectedOutput,
    /// The candidate sequences differ in length.
    LengthMismatch,
    /// A value does not fit the width it is used at.
    ValueOutOfRange,
}

/// The candidate list as the contract reports it: consensus addresses, raw
/// powers, operator addresses, public keys, and the reported total.
pub struct ElectionInfoLists {
    pub consensus_addresses: Vec<Vec<u8>>,
    pub voting_powers: Vec<Power>,
    pub operator_addresses: Vec<Vec<u8>>,
    pub tendermint_pub_keys: Vec<Vec<u8>>,
    pub total_length: Power,
}

impl ElectionInfoLists {
    /// The four sequences have one length and the addresses are 20 bytes.
    pub open spec fn consistent(&self) -> bool {
        &&& self.voting_powers.len() == self.consensus_addresses.len()
        &&& self.operator_addresses.len() == self.consensus_addresses.len()
        &&& self.tendermint_pub_keys.len() == self.consensus_addresses.len()
        &&& forall|i: int| 0 <= i < self.consensus_addresses.len() ==> (#[trigger] self.consensus_addresses@[i]).len() == 20
        &&& forall|i: int| 0 <= i < self.operator_addresses.len() ==> (#[trigger] self.operator_addresses@[i]).len() == 20
    }
}

/// Candidate `c` is entry `i` of `l`.
pub open spec fn candidate_at(c: ValidatorElectionInfo, l: ElectionInfoLists, i: int) -> bool {
    &&& c.consensus_address == l.consensus_addresses@[i]
    &&& c.voting_power == l.voting_powers@[i]
    &&& c.operator_address == l.operator_addresses@[i]
    &&& c.tendermint_pub_key == l.tendermint_pub_keys@[i]
}

/// Client for the staking contract at `stake_hub_address`.
pub struct StakeHubClient {
    stake_hub_address: Vec<u8>,
    stake_hub_abi: ContractInterface,
}

pub open spec fn epoch_length_name() -> Seq<char> {
    "epochLength"@
}

pub open spec fn max_elected_name() -> Seq<char> {
    "maxElectedValidators"@
}

pub open spec fn election_info_name() -> Seq<char> {
    "getValidatorElectionInfo"@
}

/// The bytes of a payload result, or its error.
pub open spec fn bytes_result(r: Result<Vec<u8>, StakeHubError>) -> Result<Seq<u8>, StakeHubError> {
    match r {
        Ok(d) => Ok(d@),
        Err(e) => Err(e),
    }
}

/// The payload of a call of function `name` of interface `iface` with
/// unsigned arguments `args`.
pub open spec fn call_payload(iface: Seq<char>, name: Seq<char>, args: Seq<nat>) -> Result<Seq<u8>, StakeHubError> {
    if !abi_declares(iface, name) {
        Err(StakeHubError::MissingFunction)
    } else {
        match abi_encoded(iface, name, args) {
            Some(d) => Ok(d),
            None => Err(StakeHubError::Encode),
        }
    }
}

/// The outputs of function `name` of interface `iface` in returned bytes `data`.
pub open spec fn decoded_outputs(iface: Seq<char>, name: Seq<char>, data: Seq<u8>) -> Result<Seq<SolValue>, StakeHubError> {
    if !abi_declares(iface, name) {
        Err(StakeHubError::MissingFunction)
    } else {
        match abi_decoded(iface, name, data) {
            Some(v) => Ok(v),
            None => Err(StakeHubError::Decode),
        }
    }
}

/// The first output as an unsigned integer.
pub open spec fn uint_output(o: Result<Seq<SolValue>, StakeHubError>) -> Result<Power, StakeHubError> {
    match o {
        Err(e) => Err(e),
        Ok(v) => if v.len() >= 1 {
            match v[0] {
                SolValue::Uint(p) => Ok(p),
                _ => Err(StakeHubError::UnexpectedOutput),
            }
        } else {
            Err(StakeHubError::UnexpectedOutput)
        },
    }
}

/// The epoch length in the bytes `data` returned by `epochLength()`.
pub open spec fn epoch_length_outcome(iface: Seq<char>, data: Seq<u8>) -> Result<u64, StakeHubError> {
    match uint_output(decoded_outputs(iface, epoch_length_name(), data)) {
        Err(e) => Err(e),
        Ok(p) => if p.value() < 0x1_0000_0000_0000_0000 {
            Ok(p.value() as u64)
        } else {
            Err(StakeHubError::ValueOutOfRange)
        },
    }
}

pub open spec fn is_address(x: SolValue) -> bool {
    x is Address && x->Address_0.len() == 20
}

/// The 20-byte addresses of an array value.
pub open spec fn address_items(v: SolValue) -> Option<Seq<Vec<u8>>> {
    match v {
        SolValue::Array(items) => if forall|i: int| 0 <= i < items.len() ==> is_address(#[trigger] items@[i]) {
            Some(items@.map_values(|x: SolValue| x->Address_0))
        } else {
            None
        },
        _ => None,
    }
}

/// The integers of an array value.
pub open spec fn uint_items(v: SolValue) -> Option<Seq<Power>> {
    match v {
        SolValue::Array(items) => if forall|i: int| 0 <= i < items.len() ==> (#[trigger] items@[i]) is Uint {
            Some(items@.map_values(|x: SolValue| x->Uint_0))
        } else {
            None
        },
        _ => None,
    }
}

/// The byte strings of an array value.
pub open spec fn bytes_items(v: SolValue) -> Option<Seq<Vec<u8>>> {
    match v {
        SolValue::Array(items) => if forall|i: int| 0 <= i < items.len() ==> (#[trigger] items@[i]) is Bytes {
            Some(items@.map_values(|x: SolValue| x->Bytes_0))
        } else {
            None
        },
        _ => None,
    }
}

/// The candidate lists in the bytes `data` returned by
/// `getValidatorElectionInfo`: consensus addresses, powers, operator
/// addresses, public keys and the reported total.
pub open spec fn election_info_outcome(iface: Seq<char>, data: Seq<u8>) -> Result<
    (Seq<Vec<u8>>, Seq<Power>, Seq<Vec<u8>>, Seq<Vec<u8>>, Power),
    StakeHubError,
> {
    match decoded_outputs(iface, election_info_name(), data) {
        Err(e) => Err(e),
        Ok(v) => if v.len() < 5 {
            Err(StakeHubError::UnexpectedOutput)
        } else {
            match (address_items(v[0]), uint_items(v[1]), address_items(v[2]), bytes_items(v[3]), v[4]) {
                (Some(a), Some(p), Some(o), Some(k), SolValue::Uint(t)) => if p.len() == a.len() && o.len()
                    == a.len() && k.len() == a.len() {
                    Ok((a, p, o, k, t))
                } else {
                    Err(StakeHubError::LengthMismatch)
                },
                _ => Err(StakeHubError::UnexpectedOutput),
            }
        },
    }
}

/// The candidates that the parallel sequences describe, entry by entry.
pub open spec fn zip_candidates(a: Seq<Vec<u8>>, p: Seq<Power>, o: Seq<Vec<u8>>, k: Seq<Vec<u8>>) -> Seq<
    ValidatorElectionInfo,
> {
    Seq::new(
        a.len(),
        |i: int|
            ValidatorElectionInfo {
                consensus_address: a[i],
                voting_power: p[i],
                operator_address: o[i],
                tendermint_pub_key: k[i],
            },
    )
}

/// `r` is the election over candidates `c` with cap `max_elected`: an error
/// exactly when a scaled power does not fit in a `u64`.
pub open spec fn election_result(
    r: Result<ElectedValidators, StakeHubError>,
    max_elected: nat,
    c: Seq<ValidatorElectionInfo>,
) -> bool {
    &&& r is Err <==> !powers_fit(c)
    &&& r is Err ==> r == Err::<ElectedValidators, StakeHubError>(StakeHubError::ValueOutOfRange)
    &&& r matches Ok(e) ==> exists|t: Seq<Vec<u8>>|
        {
            &&& t.len() == c.len()
            &&& forall|i: int| 0 <= i < t.len() ==> (#[trigger] t[i])@ == address_text_of(c[i].consensus_address@)
            &&& lists(e, election(c, t, max_elected))
        }
}

fn decode_error<T>(r: Result<T, alloy_dyn_abi::Error>) -> (e: Result<T, StakeHubError>)
    ensures
        match r {
            Ok(v) => e == Ok::<T, StakeHubError>(v),
            Err(_) => e == Err::<T, StakeHubError>(StakeHubError::Decode),
        },
{
    match r {
        Ok(v) => Ok(v),
        Err(_) => Err(StakeHubError::Decode),
    }
}

/// The 20-byte addresses of an array value.
fn address_array(v: SolValue) -> (r: Result<Vec<Vec<u8>>, StakeHubError>)
    ensures
        match address_items(v) {
            Some(s) => r matches Ok(a) && a@ == s,
            None => r == Err::<Vec<Vec<u8>>, StakeHubError>(StakeHubError::UnexpectedOutput),
        },
{
    let ghost v0 = v;
    match v {
        SolValue::Array(items) => {
            let ghost s = items@;
            let mut items = items;
            let mut out: Vec<Vec<u8>> = Vec::new();
            let mut k: usize = 0;
            while items.len() > 0
                invariant
                    v0 == v,
                    v0 is Array && v0->Array_0@ == s,
                    s.len() <= usize::MAX,
                    k + items.len() == s.len(),
                    items@ == s.skip(k as int),
                    out@ == s.take(k as int).map_values(|x: SolValue| x->Address_0),
                    forall|j: int| 0 <= j < k ==> is_address(#[trigger] s[j]),
                decreases items.len(),
            {
                let x = items.remove(0);
                assert(x == s[k as int]);
                match x {
                    SolValue::Address(a) => {
                        if a.len() != 20 {
                            assert(!is_address(v0->Array_0@[k as int]));
                            return Err(StakeHubError::UnexpectedOutput);
                        }
                        out.push(a);
                    },
                    _ => {
                        assert(!is_address(v0->Array_0@[k as int]));
                        return Err(StakeHubError::UnexpectedOutput);
                    },
                }
                proof {
                    assert(items@ =~= s.skip(k + 1));
                    assert(out@ =~= s.take(k + 1).map_values(|x: SolValue| x->Address_0));
                }
                k = k + 1;
            }
            assert(s.take(k as int) =~= s);
            Ok(out)
        },
        _ => Err(StakeHubError::UnexpectedOutput),
    }
}

/// The integers of an array value.
fn uint_array(v: SolValue) -> (r: Result<Vec<Power>, StakeHubError>)
    ensures
        match uint_items(v) {
            Some(s) => r matches Ok(a) && a@ == s,
            None => r == Err::<Vec<Power>, StakeHubError>(StakeHubError::UnexpectedOutput),
        },
{
    let ghost v0 = v;
    match v {
        SolValue::Array(items) => {
            let ghost s = items@;
            let mut items = items;
            let mut out: Vec<Power> = Vec::new();
            let mut k: usize = 0;
            while items.len() > 0
                invariant
                    v0 == v,
                    v0 is Array && v0->Array_0@ == s,
                    s.len() <= usize::MAX,
                    k + items.len() == s.len(),
                    items@ == s.skip(k as int),
                    out@ == s.take(k as int).map_values(|x: SolValue| x->Uint_0),
                    forall|j: int| 0 <= j < k ==> (#[trigger] s[j]) is Uint,
                decreases items.len(),
            {
                let x = items.remove(0);
                assert(x == s[k as int]);
                match x {
                    SolValue::Uint(p) => {
                        out.push(p);
                    },
                    _ => {
                        assert(!(v0->Array_0@[k as int] is Uint));
                        return Err(StakeHubError::UnexpectedOutput);
                    },
                }
                proof {
                    assert(items@ =~= s.skip(k + 1));
                    assert(out@ =~= s.take(k + 1).map_values(|x: SolValue| x->Uint_0));
                }
                k = k + 1;
            }
            assert(s.take(k as int) =~= s);
            Ok(out)
        },
        _ => Err(StakeHubError::UnexpectedOutput),
    }
}

/// The byte strings of an array value.
fn bytes_array(v: SolValue) -> (r: Result<Vec<Vec<u8>>, StakeHubError>)
    ensures
        match bytes_items(v) {
            Some(s) => r matches Ok(a) && a@ == s,
            None => r == Err::<Vec<Vec<u8>>, StakeHubError>(StakeHubError::UnexpectedOutput),
        },
{
    let ghost v0 = v;
    match v {
        SolValue::Array(items) => {
            let ghost s = items@;
            let mut items = items;
            let mut out: Vec<Vec<u8>> = Vec::new();
            let mut k: usize = 0;
            while items.len() > 0
                invariant
                    v0 == v,
                    v0 is Array && v0->Array_0@ == s,
                    s.len() <= usize::MAX,
                    k + items.len() == s.len(),
                    items@ == s.skip(k as int),
                    out@ == s.take(k as int).map_values(|x: SolValue| x->Bytes_0),
                    forall|j: int| 0 <= j < k ==> (#[trigger] s[j]) is Bytes,
                decreases items.len(),
            {
                let x = items.remove(0);
                assert(x == s[k as int]);
                match x {
                    SolValue::Bytes(b) => {
                        out.push(b);
                    },
                    _ => {
                        assert(!(v0->Array_0@[k as int] is Bytes));
                        return Err(StakeHubError::UnexpectedOutput);
                    },
                }
                proof {
                    assert(items@ =~= s.skip(k + 1));
                    assert(out@ =~= s.take(k + 1).map_values(|x: SolValue| x->Bytes_0));
                }
                k = k + 1;
            }
            assert(s.take(k as int) =~= s);
            Ok(out)
        },
        _ => Err(StakeHubError::UnexpectedOutput),
    }
}

/// Zips the contract's parallel sequences into candidates, in order; fails
/// with `LengthMismatch` unless the four sequences have one length.
pub fn candidates_from_lists(l: ElectionInfoLists) -> (r: Result<
    Vec<ValidatorElectionInfo>,
    StakeHubError,
>)
    ensures
        r is Err <==> !(l.voting_powers.len() == l.consensus_addresses.len()
            && l.operator_addresses.len() == l.consensus_addresses.len()
            && l.tendermint_pub_keys.len() == l.consensus_addresses.len()),
        r is Err ==> r == Err::<Vec<ValidatorElectionInfo>, StakeHubError>(StakeHubError::LengthMismatch),
        r matches Ok(c) ==> {
            &&& c.len() == l.consensus_addresses.len()
            &&& forall|i: int| 0 <= i < c.len() ==> candidate_at(#[trigger] c@[i], l, i)
        },
{
    let ghost l0 = l;
    let n = l.consensus_addresses.len();
    if l.voting_powers.len() != n || l.operator_addresses.len() != n || l.tendermint_pub_keys.len() != n {
        return Err(StakeHubError::LengthMismatch);
    }
    let ElectionInfoLists {
        consensus_addresses: mut cs,
        voting_powers: mut ps,
        operator_addresses: mut os,
        tendermint_pub_keys: mut ks,
        total_length: _,
    } = l;
    let mut out: Vec<ValidatorElectionInfo> = Vec::new();
    let mut i: usize = 0;
    while cs.len() > 0
        invariant
            i + cs.len() == n,
            ps.len() == cs.len(),
            os.len() == cs.len(),
            ks.len() == cs.len(),
            n == l0.consensus_addresses.len(),
            l0.voting_powers.len() == n,
            l0.operator_addresses.len() == n,
            l0.tendermint_pub_keys.len() == n,
            cs@ == l0.consensus_addresses@.skip(i as int),
            ps@ == l0.voting_powers@.skip(i as int),
            os@ == l0.operator_addresses@.skip(i as int),
            ks@ == l0.tendermint_pub_keys@.skip(i as int),
            out.len() == i,
            forall|k: int| 0 <= k < i ==> candidate_at(#[trigger] out@[k], l0, k),
        decreases cs.len(),
    {
        let consensus_address = cs.remove(0);
        let voting_power = ps.remove(0);
        let operator_address = os.remove(0);
        let tendermint_pub_key = ks.remove(0);
        out.push(ValidatorElectionInfo { consensus_address, voting_power, operator_address, tendermint_pub_key });
        proof {
            assert(cs@ =~= l0.consensus_addresses@.skip(i + 1));
            assert(ps@ =~= l0.voting_powers@.skip(i + 1));
            assert(os@ =~= l0.operator_addresses@.skip(i + 1));
            assert(ks@ =~= l0.tendermint_pub_keys@.skip(i + 1));
        }
        i = i + 1;
    }
    Ok(out)
}

/// Whether every candidate's scaled power fits in a `u64`.
pub fn scaled_powers_fit(c: &Vec<ValidatorElectionInfo>) -> (r: bool)
    ensures
        r == powers_fit(c@),
{
    let mut i: usize = 0;
    while i < c.len()
        invariant
            i <= c.len(),
            forall|k: int| 0 <= k < i ==> scaled_power(#[trigger] c@[k].voting_power) < 0x1_0000_0000_0000_0000,
        decreases c.len() - i,
    {
        let scaled = power_div(&c[i].voting_power, POWER_DIVISOR);
        if scaled.to_u64().is_none() {
            return false;
        }
        i = i + 1;
    }
    true
}

/// Runs the election over the contract's reported candidates: fails with
/// `LengthMismatch` when the sequences differ in length and with
/// `ValueOutOfRange` when a scaled power does not fit in a `u64`; otherwise
/// returns the top candidates as `get_top_validators_by_voting_power` does.
pub fn elect_from_lists(max_elected: Power, l: ElectionInfoLists) -> (r: Result<
    ElectedValidators,
    StakeHubError,
>)
    requires
        l.consistent(),
    ensures
        election_result(
            r,
            max_elected.value(),
            zip_candidates(l.consensus_addresses@, l.voting_powers@, l.operator_addresses@, l.tendermint_pub_keys@),
        ),
{
    let ghost l0 = l;
    let ghost expect = zip_candidates(
        l.consensus_addresses@,
        l.voting_powers@,
        l.operator_addresses@,
        l.tendermint_pub_keys@,
    );
    let candidates = match candidates_from_lists(l) {
        Ok(c) => c,
        Err(e) => return Err(e),
    };
    proof {
        assert(candidates@ =~= expect) by {
            assert forall|i: int| 0 <= i < candidates.len() implies candidates@[i] == expect[i] by {
                assert(candidate_at(candidates@[i], l0, i));
            }
        }
    }
    if !scaled_powers_fit(&candidates) {
        return Err(StakeHubError::ValueOutOfRange);
    }
    Ok(get_top_validators_by_voting_power(candidates, max_elected))
}

impl StakeHubClient {
    /// A client for the contract at the 20-byte `stake_hub_address`, whose
    /// interface is described by the JSON text `abi_json`: fails with
    /// `InvalidAddress` for an address of another length, and otherwise with
    /// `InvalidAbi` exactly when the text is not a contract interface.
    pub fn new(abi_json: &str, stake_hub_address: Vec<u8>) -> (r: Result<StakeHubClient, StakeHubError>)
        ensures
            stake_hub_address.len() != 20 ==> r == Err::<StakeHubClient, StakeHubError>(StakeHubError::InvalidAddress),
            stake_hub_address.len() == 20 ==> (r is Ok <==> abi_parses(abi_json@)),
            stake_hub_address.len() == 20 && r is Err ==> r == Err::<StakeHubClient, StakeHubError>(StakeHubError::InvalidAbi),
            r matches Ok(c) ==> c.address() == stake_hub_address@ && c.interface() == abi_json@,
    {
        if stake_hub_address.len() != 20 {
            return Err(StakeHubError::InvalidAddress);
        }
        match parse_interface(abi_json) {
            Ok(stake_hub_abi) => Ok(StakeHubClient { stake_hub_address, stake_hub_abi }),
            Err(_) => Err(StakeHubError::InvalidAbi),
        }
    }

    pub closed spec fn address(&self) -> Seq<u8> {
        self.stake_hub_address@
    }

    /// The JSON text of the contract's interface.
    pub closed spec fn interface(&self) -> Seq<char> {
        self.stake_hub_abi.text()
    }

    /// The contract's address.
    pub fn stake_hub_address(&self) -> (r: &Vec<u8>)
        ensures
            r@ == self.address(),
    {
        &self.stake_hub_address
    }

    fn call_data(&self, name: &str, args: &Vec<Power>) -> (r: Result<Vec<u8>, StakeHubError>)
        ensures
            bytes_result(r) == call_payload(self.interface(), name@, arg_values(args@)),
    {
        let f = match lookup_function(&self.stake_hub_abi, name) {
            Some(f) => f,
            None => return Err(StakeHubError::MissingFunction),
        };
        match encode_input(&f, args) {
            Ok(data) => Ok(data),
            Err(_) => Err(StakeHubError::Encode),
        }
    }

    fn outputs(&self, name: &str, returned: &[u8]) -> (r: Result<Vec<SolValue>, StakeHubError>)
        ensures
            match decoded_outputs(self.interface(), name@, returned@) {
                Ok(v) => r matches Ok(o) && o@ == v,
                Err(e) => r == Err::<Vec<SolValue>, StakeHubError>(e),
            },
    {
        let f = match lookup_function(&self.stake_hub_abi, name) {
            Some(f) => f,
            None => return Err(StakeHubError::MissingFunction),
        };
        decode_error(decode_output(&f, returned))
    }

    fn uint_output(&self, name: &str, returned: &[u8]) -> (r: Result<Power, StakeHubError>)
        ensures
            r == uint_output(decoded_outputs(self.interface(), name@, returned@)),
    {
        let out = match self.outputs(name, returned) {
            Ok(out) => out,
            Err(e) => return Err(e),
        };
        if out.len() < 1 {
            return Err(StakeHubError::UnexpectedOutput);
        }
        match out[0] {
            SolValue::Uint(p) => Ok(p),
            _ => Err(StakeHubError::UnexpectedOutput),
        }
    }

    /// The payload of a call of `epochLength()`.
    pub fn epoch_length_call_data(&self) -> (r: Result<Vec<u8>, StakeHubError>)
        ensures
            bytes_result(r) == call_payload(self.interface(), epoch_length_name(), seq![]),
    {
        let args: Vec<Power> = Vec::new();
        let r = self.call_data("epochLength", &args);
        assert(arg_values(args@) =~= Seq::<nat>::empty());
        r
    }

    /// The epoch length in the bytes returned by `epochLength()`; fails with
    /// `ValueOutOfRange` when it does not fit in a `u64`.
    pub fn get_epoch_length(&self, returned: &[u8]) -> (r: Result<u64, StakeHubError>)
        ensures
            r == epoch_length_outcome(self.interface(), returned@),
    {
        let p = match self.uint_output("epochLength", returned) {
            Ok(p) => p,
            Err(e) => return Err(e),
        };
        match p.to_u64() {
            Some(v) => Ok(v),
            None => Err(StakeHubError::ValueOutOfRange),
        }
    }

    /// The payload of a call of `maxElectedValidators()`.
    pub fn max_elected_validators_call_data(&self) -> (r: Result<Vec<u8>, StakeHubError>)
        ensures
            bytes_result(r) == call_payload(self.interface(), max_elected_name(), seq![]),
    {
        let args: Vec<Power> = Vec::new();
        let r = self.call_data("maxElectedValidators", &args);
        assert(arg_values(args@) =~= Seq::<nat>::empty());
        r
    }

    /// The full 256-bit cap in the bytes returned by `maxElectedValidators()`.
    pub fn get_max_elected_validators(&self, returned: &[u8]) -> (r: Result<Power, StakeHubError>)
        ensures
            r == uint_output(decoded_outputs(self.interface(), max_elected_name(), returned@)),
    {
        self.uint_output("maxElectedValidators", returned)
    }

    /// The payload of a call of `getValidatorElectionInfo(0, 0)`.
    pub fn validator_election_info_call_data(&self) -> (r: Result<Vec<u8>, StakeHubError>)
        ensures
            bytes_result(r) == call_payload(self.interface(), election_info_name(), seq![0nat, 0nat]),
    {
        let zero = Power::zero();
        let args: Vec<Power> = vec![zero, zero];
        let r = self.call_data("getValidatorElectionInfo", &args);
        assert(arg_values(args@) =~= seq![0nat, 0nat]);
        r
    }

    /// The candidate lists in the bytes returned by
    /// `getValidatorElectionInfo`, in the contract's order; sequences of
    /// unequal length are refused with `LengthMismatch`, any other output
    /// shape with `UnexpectedOutput`.
    pub fn get_validator_election_info(&self, returned: &[u8]) -> (r: Result<
        ElectionInfoLists,
        StakeHubError,
    >)
        ensures
            match election_info_outcome(self.interface(), returned@) {
                Ok(t) => r matches Ok(l) && {
                    &&& l.consensus_addresses@ == t.0
                    &&& l.voting_powers@ == t.1
                    &&& l.operator_addresses@ == t.2
                    &&& l.tendermint_pub_keys@ == t.3
                    &&& l.total_length == t.4
                },
                Err(e) => r == Err::<ElectionInfoLists, StakeHubError>(e),
            },
            r matches Ok(l) ==> l.consistent(),
    {
        let out = match self.outputs("getValidatorElectionInfo", returned) {
            Ok(out) => out,
            Err(e) => return Err(e),
        };
        if out.len() < 5 {
            return Err(StakeHubError::UnexpectedOutput);
        }
        let ghost v = out@;
        let mut out = out;
        let v0 = out.remove(0);
        let v1 = out.remove(0);
        let v2 = out.remove(0);
        let v3 = out.remove(0);
        let v4 = out.remove(0);
        assert(v0 == v[0] && v1 == v[1] && v2 == v[2] && v3 == v[3] && v4 == v[4]);
        let consensus_addresses = match address_array(v0) {
            Ok(a) => a,
            Err(e) => return Err(e),
        };
        let voting_powers = match uint_array(v1) {
            Ok(a) => a,
            Err(e) => return Err(e),
        };
        let operator_addresses = match address_array(v2) {
            Ok(a) => a,
            Err(e) => return Err(e),
        };
        let tendermint_pub_keys = match bytes_array(v3) {
            Ok(a) => a,
            Err(e) => return Err(e),
        };
        let total_length = match v4 {
            SolValue::Uint(p) => p,
            _ => return Err(StakeHubError::UnexpectedOutput),
        };
        let n = consensus_addresses.len();
        if voting_powers.len() != n || operator_addresses.len() != n || tendermint_pub_keys.len() != n {
            return Err(StakeHubError::LengthMismatch);
        }
        proof {
            assert forall|i: int| 0 <= i < consensus_addresses.len() implies (#[trigger] consensus_addresses@[i]).len() == 20 by {
                let items = v[0]->Array_0;
                assert(is_address(items@[i]));
            }
            assert forall|i: int| 0 <= i < operator_addresses.len() implies (#[trigger] operator_addresses@[i]).len() == 20 by {
                let items = v[2]->Array_0;
                assert(is_address(items@[i]));
            }
        }
        Ok(ElectionInfoLists {
            consensus_addresses,
            voting_powers,
            operator_addresses,
            tendermint_pub_keys,
            total_length,
        })
    }

    /// Runs the election over the bytes returned by `maxElectedValidators()`
    /// and `getValidatorElectionInfo`: an error of either decode is passed
    /// on unchanged; otherwise the result is `elect_from_lists` over the
    /// decoded cap and lists.
    pub fn get_top_validators_by_voting_power(
        &self,
        max_elected_returned: &[u8],
        election_info_returned: &[u8],
    ) -> (r: Result<ElectedValidators, StakeHubError>)
        ensures
            match uint_output(decoded_outputs(self.interface(), max_elected_name(), max_elected_returned@)) {
                Err(e) => r == Err::<ElectedValidators, StakeHubError>(e),
                Ok(m) => match election_info_outcome(self.interface(), election_info_returned@) {
                    Err(e) => r == Err::<ElectedValidators, StakeHubError>(e),
                    Ok(t) => election_result(r, m.value(), zip_candidates(t.0, t.1, t.2, t.3)),
                },
            },
    {
        let max_elected = match self.get_max_elected_validators(max_elected_returned) {
            Ok(m) => m,
            Err(e) => return Err(e),
        };
        let l = match self.get_validator_election_info(election_info_returned) {
            Ok(l) => l,
            Err(e) => return Err(e),
        };
        elect_from_lists(max_elected, l)
    }
}

} // verus!

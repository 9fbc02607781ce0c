use alloy_dyn_abi::DynSolValue;
use alloy_primitives::U256;
use alloy_primitives::Address;
use engine::election::{get_top_validators_by_voting_power, ValidatorElectionInfo, ElectedValidators};
use engine::genesis::{parse_validators_from_extra_data, GenesisError};
use engine::power::Power;
use engine::stake_hub_client::{StakeHubClient, StakeHubError};
use engine::validator_executor::{SetSource, ValidatorExecutor};
use engine::validator_set::{Validator, ValidatorSet};

const EPOCH_ABI: &str = r#"[{"type":"function","name":"epochLength","inputs":[],"outputs":[{"name":"","type":"uint256","internalType":"uint256"}],"stateMutability":"view"},{"type":"function","name":"maxElectedValidators","inputs":[],"outputs":[{"name":"","type":"uint256","internalType":"uint256"}],"stateMutability":"view"}]"#;

fn record(seed: u8, power: u64) -> Vec<u8> {
    let mut r = vec![seed; 20];
    r.extend(vec![seed + 1; 20]);
    r.extend(power.to_be_bytes());
    r.extend(vec![seed + 2; 32]);
    r
}

fn extra_data(records: &[Vec<u8>], epoch: u64) -> Vec<u8> {
    let mut d = vec![0u8; 32];
    for r in records {
        d.extend(r);
    }
    d.extend(epoch.to_be_bytes());
    d.extend(vec![0u8; 65]);
    d
}

fn candidate(addr: u8, power: u64) -> ValidatorElectionInfo {
    ValidatorElectionInfo {
        consensus_address: vec![addr; 20],
        voting_power: Power::from_u64(power),
        operator_address: vec![addr.wrapping_add(1); 20],
        tendermint_pub_key: vec![addr; 32],
    }
}

fn genesis_set() -> ValidatorSet {
    let v = Validator {
        consensus_address: vec![7; 20],
        operator_address: vec![8; 20],
        public_key: vec![9; 32],
        voting_power: 10,
    };
    ValidatorSet::new(vec![v]).unwrap()
}

fn executor() -> ValidatorExecutor {
    let client = StakeHubClient::new(EPOCH_ABI, vec![0x10; 20]).unwrap();
    ValidatorExecutor::new(client, genesis_set())
}

#[test]
fn decodes_records_in_order() {
    let data = extra_data(&[record(1, 100), record(10, 0x0102030405060708)], 200);
    let (vals, epoch) = parse_validators_from_extra_data(&data).unwrap();
    assert_eq!(epoch, 200);
    assert_eq!(vals.len(), 2);
    assert_eq!(vals[0].consensus_address, vec![1u8; 20]);
    assert_eq!(vals[0].operator_address, vec![2u8; 20]);
    assert_eq!(vals[0].voting_power, 100);
    assert_eq!(vals[0].tendermint_pubkey, vec![3u8; 32]);
    assert_eq!(vals[1].consensus_address, vec![10u8; 20]);
    assert_eq!(vals[1].voting_power, 0x0102030405060708);
    assert_eq!(vals[1].tendermint_pubkey, vec![12u8; 32]);
}

#[test]
fn decodes_empty_record_region() {
    let data = extra_data(&[], u64::MAX);
    let (vals, epoch) = parse_validators_from_extra_data(&data).unwrap();
    assert!(vals.is_empty());
    assert_eq!(epoch, u64::MAX);
}

#[test]
fn rejects_data_shorter_than_vanity_and_seal() {
    let r = parse_validators_from_extra_data(&vec![0u8; 96]);
    assert_eq!(r.unwrap_err(), GenesisError::TooShort { len: 96, min: 97 });
}

#[test]
fn rejects_middle_without_epoch_length() {
    let r = parse_validators_from_extra_data(&vec![0u8; 100]);
    assert_eq!(r.unwrap_err(), GenesisError::MiddleTooShort { middle_len: 3 });
}

#[test]
fn rejects_partial_record() {
    let r = parse_validators_from_extra_data(&vec![0u8; 117]);
    assert_eq!(r.unwrap_err(), GenesisError::NotWholeRecords { validator_data_len: 12 });
}

#[test]
fn zero_power_candidate_is_never_elected() {
    for max in [0u64, 1, 2, 5] {
        let e = get_top_validators_by_voting_power(
            vec![candidate(0x11, 0), candidate(0x22, 30_000_000_000)],
            Power::from_u64(max),
        );
        assert!(!e.consensus_addrs.contains(&vec![0x11u8; 20]));
        assert_eq!(e.consensus_addrs.len(), if max == 0 { 0 } else { 1 });
    }
}

#[test]
fn equal_power_breaks_tie_by_greater_address_text() {
    let a = vec![0xAAu8; 20];
    let b = vec![0xBBu8; 20];
    let ta = Address::from_slice(&a).to_string();
    let tb = Address::from_slice(&b).to_string();
    let first = if ta > tb { a.clone() } else { b.clone() };
    let e = get_top_validators_by_voting_power(
        vec![candidate(0xAA, 50_000_000_000), candidate(0xBB, 50_000_000_000)],
        Power::from_u64(1),
    );
    assert_eq!(e.consensus_addrs, vec![first]);
}

#[test]
fn cap_above_count_returns_all_positive_in_order() {
    let e: ElectedValidators = get_top_validators_by_voting_power(
        vec![
            candidate(0x01, 20_000_000_000),
            candidate(0x02, 0),
            candidate(0x03, 90_000_000_000),
            candidate(0x04, 50_000_000_000),
        ],
        Power::from_u64(10),
    );
    assert_eq!(e.consensus_addrs, vec![vec![0x03u8; 20], vec![0x04u8; 20], vec![0x01u8; 20]]);
    assert_eq!(e.voting_powers, vec![9, 5, 2]);
    assert_eq!(e.operator_addrs, vec![vec![0x04u8; 20], vec![0x05u8; 20], vec![0x02u8; 20]]);
    assert_eq!(e.tendermint_pub_keys, vec![vec![0x03u8; 32], vec![0x04u8; 32], vec![0x01u8; 32]]);
}

#[test]
fn cap_limits_elected_count() {
    let e = get_top_validators_by_voting_power(
        vec![candidate(0x01, 20_000_000_000), candidate(0x03, 90_000_000_000), candidate(0x04, 50_000_000_000)],
        Power::from_u64(2),
    );
    assert_eq!(e.consensus_addrs, vec![vec![0x03u8; 20], vec![0x04u8; 20]]);
}

#[test]
fn scaling_truncates() {
    let e = get_top_validators_by_voting_power(vec![candidate(0x01, 10_000_000_009)], Power::from_u64(1));
    assert_eq!(e.voting_powers, vec![1]);
}

#[test]
fn power_below_divisor_scales_to_zero() {
    let e = get_top_validators_by_voting_power(vec![candidate(0x01, 9_999_999_999)], Power::from_u64(1));
    assert_eq!(e.voting_powers, vec![0]);
}

#[test]
fn wide_power_outranks_narrow_one() {
    let mut wide = candidate(0x01, 0);
    wide.voting_power = Power { limbs: [0, 1, 0, 0] };
    let e = get_top_validators_by_voting_power(vec![candidate(0x02, u64::MAX), wide], Power::from_u64(2));
    assert_eq!(e.consensus_addrs[0], vec![0x01u8; 20]);
    assert_eq!(e.voting_powers[0], 1844674407);
}

#[test]
fn epoch_boundaries() {
    let x = executor();
    assert!(!x.is_epoch_boundary(0, 200));
    assert!(x.is_epoch_boundary(200, 200));
    assert!(x.is_epoch_boundary(400, 200));
    assert!(!x.is_epoch_boundary(399, 200));
    assert!(!x.is_epoch_boundary(5, 0));
}

#[test]
fn failed_election_keeps_active_set() {
    let mut x = executor();
    let before = x.active_set().validators().clone();
    assert!(x.get_validator_set_from_stake_hub(Err(StakeHubError::Call)).is_none());
    assert!(!x.apply_election(Err(StakeHubError::Call)));
    assert_eq!(x.set_source(), SetSource::GenesisBootstrapped);
    assert_eq!(x.active_set().validators().len(), before.len());
    assert_eq!(x.active_set().validators()[0].consensus_address, before[0].consensus_address);
}

#[test]
fn successful_election_replaces_active_set() {
    let mut x = executor();
    let e = get_top_validators_by_voting_power(
        vec![candidate(0x01, 20_000_000_000), candidate(0x03, 90_000_000_000)],
        Power::from_u64(5),
    );
    assert!(x.apply_election(Ok(e)));
    assert_eq!(x.set_source(), SetSource::ContractElected);
    let vs = x.active_set().validators();
    assert_eq!(vs.len(), 2);
    assert_eq!(vs[0].consensus_address, vec![0x03u8; 20]);
    assert_eq!(vs[0].voting_power, 9);
    assert!(!x.apply_election(Err(StakeHubError::Decode)));
    assert_eq!(x.set_source(), SetSource::ContractElected);
}

#[test]
fn wrong_key_width_aborts_whole_set() {
    let mut c = candidate(0x03, 90_000_000_000);
    c.tendermint_pub_key = vec![1u8; 31];
    let e = get_top_validators_by_voting_power(vec![candidate(0x01, 20_000_000_000), c], Power::from_u64(5));
    assert!(ValidatorSet::from_elected(e).is_none());
}

#[test]
fn genesis_records_form_bootstrap_set() {
    let data = extra_data(&[record(1, 100), record(10, 5)], 200);
    let (vals, _) = parse_validators_from_extra_data(&data).unwrap();
    let set = ValidatorSet::from_genesis(vals).unwrap();
    assert_eq!(set.len(), 2);
    assert_eq!(set.validators()[1].voting_power, 5);
}

#[test]
fn duplicate_consensus_address_is_refused() {
    let v = Validator { consensus_address: vec![7; 20], operator_address: vec![8; 20], public_key: vec![9; 32], voting_power: 1 };
    assert!(ValidatorSet::new(vec![v.clone(), v]).is_none());
    assert!(ValidatorSet::new(vec![]).is_none());
}

#[test]
fn client_encodes_and_decodes_epoch_length() {
    let client = StakeHubClient::new(EPOCH_ABI, vec![0x10; 20]).unwrap();
    let data = client.epoch_length_call_data().unwrap();
    assert_eq!(data.len(), 4);
    let mut word = vec![0u8; 32];
    word[31] = 200;
    assert_eq!(client.get_epoch_length(&word).unwrap(), 200);
    let mut big = vec![0u8; 32];
    big[0] = 1;
    assert_eq!(client.get_epoch_length(&big).unwrap_err(), StakeHubError::ValueOutOfRange);
    let mut x = vec![0u8; 32];
    x[31] = 21;
    let m = client.get_max_elected_validators(&x).unwrap();
    assert_eq!(m.limbs, [21, 0, 0, 0]);
}

#[test]
fn client_reports_missing_function_and_bad_input() {
    let client = StakeHubClient::new("[]", vec![0x10; 20]).unwrap();
    assert_eq!(client.epoch_length_call_data().unwrap_err(), StakeHubError::MissingFunction);
    assert_eq!(StakeHubClient::new("not json", vec![0x10; 20]).err(), Some(StakeHubError::InvalidAbi));
    assert_eq!(StakeHubClient::new("[]", vec![0x10; 3]).err(), Some(StakeHubError::InvalidAddress));
    let full = StakeHubClient::new(EPOCH_ABI, vec![0x10; 20]).unwrap();
    assert_eq!(full.get_epoch_length(&[1, 2, 3]).unwrap_err(), StakeHubError::Decode);
}

#[test]
fn executor_passes_call_failure_on() {
    let x = executor();
    assert_eq!(x.get_epoch_length_from_stake_hub(Err(StakeHubError::Call)), Err(StakeHubError::Call));
    let mut word = vec![0u8; 32];
    word[31] = 50;
    assert_eq!(x.get_epoch_length_from_stake_hub(Ok(word)), Ok(50));
}

const ELECTION_ABI: &str = r#"[{"type":"function","name":"getValidatorElectionInfo","inputs":[{"name":"offset","type":"uint256","internalType":"uint256"},{"name":"limit","type":"uint256","internalType":"uint256"}],"outputs":[{"name":"consensusAddrs","type":"address[]","internalType":"address[]"},{"name":"votingPowers","type":"uint256[]","internalType":"uint256[]"},{"name":"operatorAddrs","type":"address[]","internalType":"address[]"},{"name":"tendermintPubKeys","type":"bytes[]","internalType":"bytes[]"},{"name":"totalLength","type":"uint256","internalType":"uint256"}],"stateMutability":"view"},{"type":"function","name":"maxElectedValidators","inputs":[],"outputs":[{"name":"","type":"uint256","internalType":"uint256"}],"stateMutability":"view"}]"#;

fn encoded_election_info(addrs: &[u8], powers: &[u64], ops: &[u8], keys: &[u8]) -> Vec<u8> {
    let a = DynSolValue::Array(addrs.iter().map(|b| DynSolValue::Address(Address::from([*b; 20]))).collect());
    let p = DynSolValue::Array(powers.iter().map(|v| DynSolValue::Uint(U256::from(*v), 256)).collect());
    let o = DynSolValue::Array(ops.iter().map(|b| DynSolValue::Address(Address::from([*b; 20]))).collect());
    let k = DynSolValue::Array(keys.iter().map(|b| DynSolValue::Bytes(vec![*b; 32])).collect());
    let t = DynSolValue::Uint(U256::from(addrs.len() as u64), 256);
    DynSolValue::Tuple(vec![a, p, o, k, t]).abi_encode_params()
}

#[test]
fn client_decodes_election_info_arrays() {
    let client = StakeHubClient::new(ELECTION_ABI, vec![0x10; 20]).unwrap();
    assert_eq!(client.validator_election_info_call_data().unwrap().len(), 4 + 64);
    let bytes = encoded_election_info(&[1, 2], &[20_000_000_000, 90_000_000_000], &[3, 4], &[5, 6]);
    let l = client.get_validator_election_info(&bytes).unwrap();
    assert_eq!(l.consensus_addresses, vec![vec![1u8; 20], vec![2u8; 20]]);
    assert_eq!(l.voting_powers[1].limbs, [90_000_000_000, 0, 0, 0]);
    assert_eq!(l.operator_addresses, vec![vec![3u8; 20], vec![4u8; 20]]);
    assert_eq!(l.tendermint_pub_keys, vec![vec![5u8; 32], vec![6u8; 32]]);
    assert_eq!(l.total_length.limbs, [2, 0, 0, 0]);
}

#[test]
fn client_refuses_unequal_election_arrays() {
    let client = StakeHubClient::new(ELECTION_ABI, vec![0x10; 20]).unwrap();
    let bytes = encoded_election_info(&[1, 2], &[20_000_000_000], &[3, 4], &[5, 6]);
    assert_eq!(client.get_validator_election_info(&bytes).err(), Some(StakeHubError::LengthMismatch));
    let mut cap = vec![0u8; 32];
    cap[31] = 5;
    assert_eq!(
        client.get_top_validators_by_voting_power(&cap, &bytes).err(),
        Some(StakeHubError::LengthMismatch)
    );
}

#[test]
fn client_elects_from_returned_bytes() {
    let client = StakeHubClient::new(ELECTION_ABI, vec![0x10; 20]).unwrap();
    let bytes = encoded_election_info(&[1, 2, 7], &[20_000_000_000, 90_000_000_000, 0], &[3, 4, 8], &[5, 6, 9]);
    let mut cap = vec![0u8; 32];
    cap[31] = 5;
    let e = client.get_top_validators_by_voting_power(&cap, &bytes).unwrap();
    assert_eq!(e.consensus_addrs, vec![vec![2u8; 20], vec![1u8; 20]]);
    assert_eq!(e.voting_powers, vec![9, 2]);
    assert_eq!(client.get_top_validators_by_voting_power(&[1, 2], &bytes).err(), Some(StakeHubError::Decode));
}

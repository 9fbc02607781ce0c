//! Decoding of the validator list and epoch length packed into the genesis
//! header's extra-data field.
//!
//! Layout: vanity(32) + N * record(80) + epoch length(8, big-endian) + seal(65),
//! where a record is consensus address(20) + operator address(20)
//! + voting power(8, big-endian) + public key(32).
use vstd::prelude::*;
use vstd::slice::{slice_subrange, slice_to_vec};

verus! {

pub const EXTRA_VANITY_LEN: usize = 32;

pub const EXTRA_SEAL_LEN: usize = 65;

pub const EPOCH_FIELD_LEN: usize = 8;

pub const RECORD_LEN: usize = 80;

/// Validator information carried by the genesis extra-data.
#[derive(Debug, Clone)]
pub struct GenesisValidatorInfo {
    /// Consensus address (20 bytes), the primary identifier.
    pub consensus_address: Vec<u8>,
    /// Operator address (20 bytes), used for stake accounting.
    pub operator_address: Vec<u8>,
    /// Ed25519 public key (32 bytes).
    pub tendermint_pubkey: Vec<u8>,
    pub voting_power: u64,
}

/// Why extra-data could not be decoded.
#[derive(Debug, Clone, Copy, PartialEq, Eq, Structural)]
pub enum GenesisError {
    /// Shorter than vanity plus seal.
    TooShort { len: usize, min: usize },
    /// The region between vanity and seal has no room for the epoch length.
    MiddleTooShort { middle_len: usize },
    /// The record region is not a whole number of records.
    NotWholeRecords { validator_data_len: usize },
}

/// Big-endian unsigned value of a byte sequence.
pub open spec fn be_value(s: Seq<u8>) -> nat
    decreases s.len(),
{
    if s.len() == 0 {
        0
    } else {
        be_value(s.drop_last()) * 256 + s.last() as nat
    }
}

pub open spec fn pow256(n: nat) -> nat
    decreases n,
{
    if n == 0 {
        1
    } else {
        256 * pow256((n - 1) as nat)
    }
}

/// The decoded fields of `v` are those of the 80-byte record `rec`.
pub open spec fn record_matches(v: GenesisValidatorInfo, rec: Seq<u8>) -> bool {
    &&& v.consensus_address@ == rec.subrange(0, 20)
    &&& v.operator_address@ == rec.subrange(20, 40)
    &&& v.voting_power as nat == be_value(rec.subrange(40, 48))
    &&& v.tendermint_pubkey@ == rec.subrange(48, 80)
}

/// The i-th record of extra-data `data`.
pub open spec fn record_bytes(data: Seq<u8>, i: int) -> Seq<u8> {
    data.subrange(32 + 80 * i, 32 + 80 * i + 80)
}

/// The eight bytes of the epoch length in extra-data `data`.
pub open spec fn epoch_bytes(data: Seq<u8>) -> Seq<u8> {
    data.subrange(data.len() - 73, data.len() - 65)
}

/// Which error, if any, decoding `data` ends in.
pub open spec fn genesis_error(data: Seq<u8>) -> Option<GenesisError> {
    if data.len() < 97 {
        Some(GenesisError::TooShort { len: data.len() as usize, min: 97 })
    } else if data.len() < 105 {
        Some(GenesisError::MiddleTooShort { middle_len: (data.len() - 97) as usize })
    } else if (data.len() - 105) % 80 != 0 {
        Some(GenesisError::NotWholeRecords { validator_data_len: (data.len() - 105) as usize })
    } else {
        None
    }
}

/// Number of records in well-formed extra-data `data`.
pub open spec fn record_count(data: Seq<u8>) -> int {
    (data.len() - 105) / 80
}

proof fn lemma_be_value_bound(s: Seq<u8>)
    ensures
        be_value(s) < pow256(s.len()),
    decreases s.len(),
{
    if s.len() > 0 {
        lemma_be_value_bound(s.drop_last());
        let p = pow256((s.len() - 1) as nat);
        let v = be_value(s.drop_last());
        let b = s.last() as nat;
        assert(v * 256 + b < 256 * p) by (nonlinear_arith)
            requires
                v < p,
                b < 256,
        ;
    }
}

/// Reads the big-endian u64 in `data[start..start + 8]`.
fn read_be_u64(data: &[u8], start: usize) -> (r: u64)
    requires
        start + 8 <= data@.len(),
    ensures
        r as nat == be_value(data@.subrange(start as int, start + 8)),
{
    let n = data.len();
    let mut acc: u64 = 0;
    let mut i: usize = 0;
    while i < 8
        invariant
            i <= 8,
            n == data@.len(),
            start + 8 <= data@.len(),
            acc as nat == be_value(data@.subrange(start as int, start + i)),
        decreases 8 - i,
    {
        proof {
            let s = data@.subrange(start as int, start + i);
            lemma_be_value_bound(s);
            assert(pow256(i as nat) <= pow256(7)) by {
                reveal_with_fuel(pow256, 8);
            }
            assert(pow256(7) == 0x100000000000000) by {
                reveal_with_fuel(pow256, 8);
            }
            let t = data@.subrange(start as int, start + i + 1);
            assert(t.drop_last() =~= s);
        }
        acc = acc * 256 + data[start + i] as u64;
        i = i + 1;
    }
    acc
}

/// Decodes the validator records and epoch length from genesis extra-data.
///
/// Fails when the data is shorter than vanity plus seal, when the region
/// between them cannot hold the epoch length, or when what precedes the epoch
/// length is not a whole number of 80-byte records. Otherwise record `i` is
/// read from bytes `[32 + 80 i, 32 + 80 i + 80)`, in order.
pub fn parse_validators_from_extra_data(extra_data: &[u8]) -> (r: Result<
    (Vec<GenesisValidatorInfo>, u64),
    GenesisError,
>)
    ensures
        genesis_error(extra_data@) is Some <==> r is Err,
        r is Err ==> r == Err::<(Vec<GenesisValidatorInfo>, u64), GenesisError>(
            genesis_error(extra_data@).unwrap(),
        ),
        r matches Ok((vals, epoch)) ==> {
            &&& vals.len() == record_count(extra_data@)
            &&& epoch as nat == be_value(epoch_bytes(extra_data@))
            &&& forall|i: int|
                0 <= i < vals.len() ==> record_matches(
                    #[trigger] vals[i],
                    record_bytes(extra_data@, i),
                )
        },
{
    let len = extra_data.len();
    let min_len = EXTRA_VANITY_LEN + EXTRA_SEAL_LEN;
    if len < min_len {
        return Err(GenesisError::TooShort { len, min: min_len });
    }
    let middle_data_len = len - EXTRA_VANITY_LEN - EXTRA_SEAL_LEN;
    if middle_data_len < EPOCH_FIELD_LEN {
        return Err(GenesisError::MiddleTooShort { middle_len: middle_data_len });
    }
    let epoch_length = read_be_u64(extra_data, len - EXTRA_SEAL_LEN - EPOCH_FIELD_LEN);
    let validator_data_len = middle_data_len - EPOCH_FIELD_LEN;
    if validator_data_len % RECORD_LEN != 0 {
        return Err(GenesisError::NotWholeRecords { validator_data_len });
    }
    let validator_count = validator_data_len / RECORD_LEN;
    let mut result: Vec<GenesisValidatorInfo> = Vec::new();
    let mut i: usize = 0;
    while i < validator_count
        invariant
            len == extra_data@.len(),
            validator_count == record_count(extra_data@),
            validator_count * 80 + 105 == len,
            i <= validator_count,
            result.len() == i,
            forall|k: int|
                0 <= k < i ==> record_matches(#[trigger] result[k], record_bytes(extra_data@, k)),
        decreases validator_count - i,
    {
        let start = EXTRA_VANITY_LEN + i * RECORD_LEN;
        assert(start + 80 <= len) by (nonlinear_arith)
            requires
                start == 32 + i * 80,
                i < validator_count,
                validator_count * 80 + 105 == len,
        ;
        let consensus_address = slice_to_vec(slice_subrange(extra_data, start, start + 20));
        let operator_address = slice_to_vec(slice_subrange(extra_data, start + 20, start + 40));
        let voting_power = read_be_u64(extra_data, start + 40);
        let tendermint_pubkey = slice_to_vec(slice_subrange(extra_data, start + 48, start + 80));
        let info = GenesisValidatorInfo {
            consensus_address,
            operator_address,
            tendermint_pubkey,
            voting_power,
        };
        proof {
            let rec = record_bytes(extra_data@, i as int);
            assert(info.consensus_address@ =~= rec.subrange(0, 20));
            assert(info.operator_address@ =~= rec.subrange(20, 40));
            assert(extra_data@.subrange(start + 40, start + 48) =~= rec.subrange(40, 48));
            assert(info.tendermint_pubkey@ =~= rec.subrange(48, 80));
        }
        result.push(info);
        i = i + 1;
    }
    Ok((result, epoch_length))
}

/// The records `rs` laid end to end.
pub open spec fn concat_records(rs: Seq<Seq<u8>>) -> Seq<u8>
    decreases rs.len(),
{
    if rs.len() == 0 {
        seq![]
    } else {
        concat_records(rs.drop_last()) + rs.last()
    }
}

proof fn lemma_concat_records(rs: Seq<Seq<u8>>)
    requires
        forall|i: int| 0 <= i < rs.len() ==> (#[trigger] rs[i]).len() == 80,
    ensures
        concat_records(rs).len() == 80 * rs.len(),
        forall|i: int|
            0 <= i < rs.len() ==> concat_records(rs).subrange(80 * i, 80 * i + 80) == #[trigger] rs[i],
    decreases rs.len(),
{
    if rs.len() > 0 {
        let pre = rs.drop_last();
        lemma_concat_records(pre);
        let c = concat_records(rs);
        let n = rs.len() as int;
        assert(c == concat_records(pre) + rs.last());
        assert forall|i: int| 0 <= i < rs.len() implies c.subrange(80 * i, 80 * i + 80) == #[trigger] rs[i] by {
            if i < n - 1 {
                assert(pre[i] == rs[i]);
                assert(80 * i + 80 <= 80 * (n - 1));
                assert(c.subrange(80 * i, 80 * i + 80) =~= concat_records(pre).subrange(80 * i, 80 * i + 80));
            } else {
                assert(c.subrange(80 * i, 80 * i + 80) =~= rs.last());
            }
        }
    }
}

/// Extra-data built as a 32-byte vanity, whole 80-byte records, eight epoch
/// bytes and a 65-byte seal decodes without error into one validator per
/// record, record `i` read from the `i`-th record, and the epoch length read
/// from the eight epoch bytes.
pub proof fn lemma_decode_constructed(
    vanity: Seq<u8>,
    records: Seq<Seq<u8>>,
    epoch: Seq<u8>,
    seal: Seq<u8>,
)
    requires
        vanity.len() == 32,
        forall|i: int| 0 <= i < records.len() ==> (#[trigger] records[i]).len() == 80,
        epoch.len() == 8,
        seal.len() == 65,
    ensures
        ({
            let data = vanity + concat_records(records) + epoch + seal;
            &&& genesis_error(data) is None
            &&& record_count(data) == records.len()
            &&& epoch_bytes(data) == epoch
            &&& forall|i: int| 0 <= i < records.len() ==> record_bytes(data, i) == #[trigger] records[i]
        }),
{
    lemma_concat_records(records);
    let body = concat_records(records);
    let data = vanity + body + epoch + seal;
    let n = records.len() as int;
    assert(data.len() == 105 + 80 * n);
    assert((data.len() - 105) % 80 == 0 && (data.len() - 105) / 80 == n) by {
        vstd::arithmetic::div_mod::lemma_fundamental_div_mod_converse(80 * n, 80, n, 0);
    }
    assert(epoch_bytes(data) =~= epoch);
    assert forall|i: int| 0 <= i < records.len() implies record_bytes(data, i) == #[trigger] records[i] by {
        assert(80 * i + 80 <= 80 * n);
        assert(record_bytes(data, i) =~= body.subrange(80 * i, 80 * i + 80));
    }
}

} // verus!

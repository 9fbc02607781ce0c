//! Deterministic selection of the elected validators from the staking
//! contract's candidate list.
use crate::power::{power_div, power_lt, Power};
use alloy_primitives::Address;
use vstd::prelude::*;

verus! {

/// Stake units per unit of consensus voting power.
pub const POWER_DIVISOR: u64 = 10_000_000_000;

/// A candidate as reported by the staking contract.
#[derive(Debug, Clone)]
pub struct ValidatorElectionInfo {
    /// Consensus address (20 bytes).
    pub consensus_address: Vec<u8>,
    pub voting_power: Power,
    /// Operator address (20 bytes).
    pub operator_address: Vec<u8>,
    pub tendermint_pub_key: Vec<u8>,
}

/// The elected validators, as four parallel sequences in selection order.
#[derive(Debug, Clone)]
pub struct ElectedValidators {
    pub consensus_addrs: Vec<Vec<u8>>,
    pub voting_powers: Vec<u64>,
    pub operator_addrs: Vec<Vec<u8>>,
    pub tendermint_pub_keys: Vec<Vec<u8>>,
}

/// A positive-power candidate together with the text of its consensus address.
pub struct Ranked {
    pub info: ValidatorElectionInfo,
    pub text: Vec<u8>,
}

/// The text of `Address::to_string` (EIP-55 checksummed hex) for the
/// 20-byte address `a`, as UTF-8 bytes.
pub uninterp spec fn address_text_of(a: Seq<u8>) -> Seq<u8>;

/// Relies on alloy_primitives' `Address::from_slice`, which panics unless given
/// 20 bytes, and its `Display`, which writes the checksummed hex text; the text
/// depends on the address bytes alone.
#[verifier::external_body]
pub(crate) fn address_text(a: &Vec<u8>) -> (r: Vec<u8>)
    requires
        a.len() == 20,
    ensures
        r@ == address_text_of(a@),
{
    Address::from_slice(a.as_slice()).to_string().into_bytes()
}

/// `a` is lexicographically greater than `b`.
pub open spec fn text_greater(a: Seq<u8>, b: Seq<u8>) -> bool
    decreases a.len(),
{
    if a.len() == 0 {
        false
    } else if b.len() == 0 {
        true
    } else if a[0] != b[0] {
        a[0] > b[0]
    } else {
        text_greater(a.drop_first(), b.drop_first())
    }
}

/// `a` is taken before `b`: greater power, or equal power and greater
/// address text.
pub open spec fn outranks(a: Ranked, b: Ranked) -> bool {
    ||| a.info.voting_power.value() > b.info.voting_power.value()
    ||| (a.info.voting_power.value() == b.info.voting_power.value() && text_greater(
        a.text@,
        b.text@,
    ))
}

/// Index of the first highest-ranked entry among `s[0..n]`.
pub open spec fn best_from(s: Seq<Ranked>, n: nat) -> int
    decreases n,
{
    if n <= 1 {
        0
    } else {
        let j = best_from(s, (n - 1) as nat);
        if outranks(s[n - 1], s[j]) {
            (n - 1) as int
        } else {
            j
        }
    }
}

/// The first `k` entries of `s` taken in rank order.
pub open spec fn elect(s: Seq<Ranked>, k: nat) -> Seq<Ranked>
    decreases k,
{
    if k == 0 || s.len() == 0 {
        seq![]
    } else {
        let b = best_from(s, s.len());
        seq![s[b]] + elect(s.remove(b), (k - 1) as nat)
    }
}

/// The candidates with positive power, each beside its address text, in
/// input order.
pub open spec fn ranked_candidates(c: Seq<ValidatorElectionInfo>, t: Seq<Vec<u8>>) -> Seq<Ranked>
    decreases c.len(),
{
    if c.len() == 0 || t.len() == 0 {
        seq![]
    } else {
        let rest = ranked_candidates(c.drop_first(), t.drop_first());
        if c[0].voting_power.value() > 0 {
            seq![Ranked { info: c[0], text: t[0] }] + rest
        } else {
            rest
        }
    }
}

/// How many are elected: the cap, or every positive candidate if fewer.
pub open spec fn elected_count(max_elected: nat, available: nat) -> nat {
    if max_elected < available {
        max_elected
    } else {
        available
    }
}

/// The outcome of an election over candidates `c` with address texts `t`.
pub open spec fn election(
    c: Seq<ValidatorElectionInfo>,
    t: Seq<Vec<u8>>,
    max_elected: nat,
) -> Seq<Ranked> {
    let r = ranked_candidates(c, t);
    elect(r, elected_count(max_elected, r.len()))
}

/// Consensus voting power for a raw stake amount (truncating division).
pub open spec fn scaled_power(p: Power) -> nat {
    p.value() / (POWER_DIVISOR as nat)
}

/// Every positive candidate's scaled power fits in a `u64`.
pub open spec fn powers_fit(c: Seq<ValidatorElectionInfo>) -> bool {
    forall|i: int| 0 <= i < c.len() ==> scaled_power(#[trigger] c[i].voting_power) < 0x1_0000_0000_0000_0000
}

/// `r` lists exactly the entries of `s`, in order, with scaled powers.
pub open spec fn lists(r: ElectedValidators, s: Seq<Ranked>) -> bool {
    &&& r.consensus_addrs.len() == s.len()
    &&& r.voting_powers.len() == s.len()
    &&& r.operator_addrs.len() == s.len()
    &&& r.tendermint_pub_keys.len() == s.len()
    &&& forall|i: int|
        0 <= i < s.len() ==> {
            &&& #[trigger] r.consensus_addrs@[i] == s[i].info.consensus_address
            &&& r.voting_powers@[i] as nat == scaled_power(s[i].info.voting_power)
            &&& r.operator_addrs@[i] == s[i].info.operator_address
            &&& r.tendermint_pub_keys@[i] == s[i].info.tendermint_pub_key
        }
}

/// Whether `a` is lexicographically greater than `b`.
pub fn is_text_greater(a: &Vec<u8>, b: &Vec<u8>) -> (r: bool)
    ensures
        r == text_greater(a@, b@),
{
    let mut i: usize = 0;
    proof {
        assert(a@.skip(0) =~= a@);
        assert(b@.skip(0) =~= b@);
    }
    while i < a.len() && i < b.len() && a[i] == b[i]
        invariant
            i <= a.len(),
            i <= b.len(),
            text_greater(a@, b@) == text_greater(a@.skip(i as int), b@.skip(i as int)),
        decreases a.len() - i,
    {
        proof {
            assert(a@.skip(i as int).drop_first() =~= a@.skip(i + 1));
            assert(b@.skip(i as int).drop_first() =~= b@.skip(i + 1));
        }
        i = i + 1;
    }
    if i == a.len() {
        false
    } else if i == b.len() {
        true
    } else {
        a[i] > b[i]
    }
}

/// Whether entry `a` is taken before entry `b`.
pub fn ranks_before(a: &Ranked, b: &Ranked) -> (r: bool)
    ensures
        r == outranks(*a, *b),
{
    if power_lt(&b.info.voting_power, &a.info.voting_power) {
        true
    } else if power_lt(&a.info.voting_power, &b.info.voting_power) {
        false
    } else {
        is_text_greater(&a.text, &b.text)
    }
}

fn best_index(s: &Vec<Ranked>) -> (r: usize)
    requires
        s.len() > 0,
    ensures
        r == best_from(s@, s@.len()),
        r < s.len(),
{
    let mut best: usize = 0;
    let mut i: usize = 1;
    while i < s.len()
        invariant
            1 <= i <= s.len(),
            best < i,
            best == best_from(s@, i as nat),
        decreases s.len() - i,
    {
        if ranks_before(&s[i], &s[best]) {
            best = i;
        }
        i = i + 1;
    }
    best
}

/// Elects validators from `candidates`, where `texts[i]` is the address text
/// of `candidates[i]`.
///
/// Zero-power candidates are dropped; the rest are taken by descending power,
/// equal powers by descending address text, until `max_elected` are taken or
/// none is left. Each elected power is divided by 10^10, truncating.
pub fn select_top_validators(
    candidates: Vec<ValidatorElectionInfo>,
    texts: Vec<Vec<u8>>,
    max_elected: Power,
) -> (r: ElectedValidators)
    requires
        candidates.len() == texts.len(),
        powers_fit(candidates@),
    ensures
        lists(r, election(candidates@, texts@, max_elected.value())),
{
    let ghost c0 = candidates@;
    let ghost t0 = texts@;
    let mut candidates = candidates;
    let mut texts = texts;
    let mut pool: Vec<Ranked> = Vec::new();
    let zero = Power::zero();
    while candidates.len() > 0
        invariant
            zero.value() == 0,
            candidates.len() == texts.len(),
            pool@ + ranked_candidates(candidates@, texts@) == ranked_candidates(c0, t0),
            forall|i: int| 0 <= i < pool.len() ==> #[trigger] c0.contains(pool@[i].info),
            forall|i: int| 0 <= i < candidates.len() ==> #[trigger] c0.contains(candidates@[i]),
        decreases candidates.len(),
    {
        let ghost cs = candidates@;
        let ghost ts = texts@;
        let info = candidates.remove(0);
        let text = texts.remove(0);
        proof {
            assert(candidates@ =~= cs.drop_first());
            assert(texts@ =~= ts.drop_first());
            assert(c0.contains(cs[0]));
            assert(ranked_candidates(cs, ts) == (if info.voting_power.value() > 0 {
                seq![Ranked { info, text }] + ranked_candidates(candidates@, texts@)
            } else {
                ranked_candidates(candidates@, texts@)
            }));
            assert forall|i: int| 0 <= i < candidates.len() implies #[trigger] c0.contains(
                candidates@[i],
            ) by {
                assert(candidates@[i] == cs[i + 1]);
                assert(c0.contains(cs[i + 1]));
            }
        }
        if power_lt(&zero, &info.voting_power) {
            let ghost before = pool@;
            pool.push(Ranked { info, text });
            proof {
                assert(pool@ + ranked_candidates(candidates@, texts@) =~= before + ranked_candidates(cs, ts));
            }
        } else {
            assert(ranked_candidates(cs, ts) == ranked_candidates(candidates@, texts@));
        }
    }
    proof {
        assert(pool@ =~= ranked_candidates(c0, t0));
    }
    let available = pool.len();
    let top_n: usize = match max_elected.to_u64() {
        Some(m) => if m < available as u64 { m as usize } else { available },
        None => available,
    };
    let ghost all = pool@;
    let ghost k = elected_count(max_elected.value(), all.len());
    assert(top_n == k);
    let mut consensus_addrs: Vec<Vec<u8>> = Vec::new();
    let mut voting_powers: Vec<u64> = Vec::new();
    let mut operator_addrs: Vec<Vec<u8>> = Vec::new();
    let mut tendermint_pub_keys: Vec<Vec<u8>> = Vec::new();
    let ghost taken: Seq<Ranked> = seq![];
    let mut n: usize = 0;
    while n < top_n
        invariant
            top_n <= all.len(),
            n <= top_n,
            pool.len() == all.len() - n,
            taken.len() == n,
            taken + elect(pool@, (top_n - n) as nat) == elect(all, top_n as nat),
            forall|i: int| 0 <= i < pool.len() ==> #[trigger] c0.contains(pool@[i].info),
            powers_fit(c0),
            lists(
                ElectedValidators { consensus_addrs, voting_powers, operator_addrs, tendermint_pub_keys },
                taken,
            ),
        decreases top_n - n,
    {
        let b = best_index(&pool);
        let ghost before = pool@;
        let e = pool.remove(b);
        proof {
            assert(c0.contains(before[b as int].info));
            let j = choose|j: int| 0 <= j < c0.len() && c0[j] == before[b as int].info;
            assert(scaled_power(c0[j].voting_power) < 0x1_0000_0000_0000_0000);
            assert forall|i: int| 0 <= i < pool.len() implies #[trigger] c0.contains(pool@[i].info) by {
                if i < b {
                    assert(pool@[i] == before[i]);
                } else {
                    assert(pool@[i] == before[i + 1]);
                }
            }
            assert(elect(before, (top_n - n) as nat) == seq![e] + elect(pool@, (top_n - n - 1) as nat));
            assert(taken.push(e) + elect(pool@, (top_n - n - 1) as nat) =~= taken + elect(before, (top_n - n) as nat));
        }
        let scaled = power_div(&e.info.voting_power, POWER_DIVISOR);
        let power = scaled.to_u64().unwrap();
        consensus_addrs.push(e.info.consensus_address);
        voting_powers.push(power);
        operator_addrs.push(e.info.operator_address);
        tendermint_pub_keys.push(e.info.tendermint_pub_key);
        proof {
            let r = ElectedValidators {
                consensus_addrs,
                voting_powers,
                operator_addrs,
                tendermint_pub_keys,
            };
            let t2 = taken.push(e);
            assert(power as nat == scaled_power(e.info.voting_power));
            assert forall|i: int| 0 <= i < t2.len() implies {
                &&& #[trigger] r.consensus_addrs@[i] == t2[i].info.consensus_address
                &&& r.voting_powers@[i] as nat == scaled_power(t2[i].info.voting_power)
                &&& r.operator_addrs@[i] == t2[i].info.operator_address
                &&& r.tendermint_pub_keys@[i] == t2[i].info.tendermint_pub_key
            } by {
                if i < n {
                    assert(r.consensus_addrs@[i] == taken[i].info.consensus_address);
                }
            }
            taken = t2;
        }
        n = n + 1;
    }
    proof {
        assert(elect(pool@, 0) == Seq::<Ranked>::empty());
        assert(taken =~= elect(all, top_n as nat));
    }
    ElectedValidators { consensus_addrs, voting_powers, operator_addrs, tendermint_pub_keys }
}

/// Elects validators from `validators`: zero-power candidates are dropped,
/// the rest taken by descending power, equal powers by descending checksummed
/// address text, at most `max_elected` of them; each power is divided by 10^10.
pub fn get_top_validators_by_voting_power(
    validators: Vec<ValidatorElectionInfo>,
    max_elected: Power,
) -> (r: ElectedValidators)
    requires
        forall|i: int| 0 <= i < validators.len() ==> (#[trigger] validators@[i]).consensus_address.len() == 20,
        powers_fit(validators@),
    ensures
        exists|t: Seq<Vec<u8>>|
            {
                &&& t.len() == validators.len()
                &&& forall|i: int|
                    0 <= i < t.len() ==> (#[trigger] t[i])@ == address_text_of(
                        validators@[i].consensus_address@,
                    )
                &&& lists(r, election(validators@, t, max_elected.value()))
            },
{
    let mut texts: Vec<Vec<u8>> = Vec::new();
    let mut i: usize = 0;
    while i < validators.len()
        invariant
            i <= validators.len(),
            texts.len() == i,
            forall|j: int| 0 <= j < validators.len() ==> (#[trigger] validators@[j]).consensus_address.len() == 20,
            forall|j: int|
                0 <= j < i ==> (#[trigger] texts@[j])@ == address_text_of(
                    validators@[j].consensus_address@,
                ),
        decreases validators.len() - i,
    {
        let text = address_text(&validators[i].consensus_address);
        texts.push(text);
        i = i + 1;
    }
    let ghost t = texts@;
    let r = select_top_validators(validators, texts, max_elected);
    assert(t.len() == validators.len());
    r
}

proof fn lemma_text_greater_irreflexive(a: Seq<u8>)
    ensures
        !text_greater(a, a),
    decreases a.len(),
{
    if a.len() > 0 {
        lemma_text_greater_irreflexive(a.drop_first());
    }
}

proof fn lemma_text_greater_transitive(a: Seq<u8>, b: Seq<u8>, c: Seq<u8>)
    requires
        text_greater(a, b),
        text_greater(b, c),
    ensures
        text_greater(a, c),
    decreases a.len(),
{
    if a.len() > 0 && b.len() > 0 && c.len() > 0 && a[0] == b[0] && b[0] == c[0] {
        lemma_text_greater_transitive(a.drop_first(), b.drop_first(), c.drop_first());
    }
}

proof fn lemma_outranks_transitive(a: Ranked, b: Ranked, c: Ranked)
    requires
        outranks(a, b),
        outranks(b, c),
    ensures
        outranks(a, c),
{
    if a.info.voting_power.value() == b.info.voting_power.value() && b.info.voting_power.value()
        == c.info.voting_power.value() {
        lemma_text_greater_transitive(a.text@, b.text@, c.text@);
    }
}

proof fn lemma_best_from(s: Seq<Ranked>, n: nat)
    requires
        1 <= n <= s.len(),
    ensures
        0 <= best_from(s, n) < n,
        forall|i: int| 0 <= i < n ==> !outranks(#[trigger] s[i], s[best_from(s, n)]),
    decreases n,
{
    if n > 1 {
        lemma_best_from(s, (n - 1) as nat);
        let j = best_from(s, (n - 1) as nat);
        let b = best_from(s, n);
        assert forall|i: int| 0 <= i < n implies !outranks(#[trigger] s[i], s[b]) by {
            lemma_text_greater_irreflexive(s[i].text@);
            if b != j && i < n - 1 && outranks(s[i], s[b]) {
                lemma_outranks_transitive(s[i], s[b], s[j]);
            }
        }
    } else {
        lemma_text_greater_irreflexive(s[0].text@);
    }
}

proof fn lemma_elect_shape(s: Seq<Ranked>, k: nat)
    ensures
        elect(s, k).len() == if k < s.len() { k } else { s.len() },
        forall|i: int| 0 <= i < elect(s, k).len() ==> s.contains(#[trigger] elect(s, k)[i]),
        forall|i: int, j: int|
            0 <= i < j < elect(s, k).len() ==> !outranks(#[trigger] elect(s, k)[j], #[trigger] elect(s, k)[i]),
        k >= s.len() ==> elect(s, k).to_multiset() =~= s.to_multiset(),
    decreases k,
{
    broadcast use Seq::to_multiset_ensures, vstd::multiset::group_multiset_axioms;

    if k > 0 && s.len() > 0 {
        let b = best_from(s, s.len());
        lemma_best_from(s, s.len());
        let rest = s.remove(b);
        lemma_elect_shape(rest, (k - 1) as nat);
        let e = elect(s, k);
        let tail = elect(rest, (k - 1) as nat);
        assert(e == seq![s[b]] + tail);
        assert forall|i: int| 0 <= i < tail.len() implies s.contains(#[trigger] tail[i]) by {
            let m = choose|m: int| 0 <= m < rest.len() && rest[m] == tail[i];
            if m < b {
                assert(s[m] == tail[i]);
            } else {
                assert(s[m + 1] == tail[i]);
            }
        }
        assert forall|i: int| 0 <= i < e.len() implies s.contains(#[trigger] e[i]) by {
            if i > 0 {
                assert(e[i] == tail[i - 1]);
            }
        }
        assert forall|i: int, j: int| 0 <= i < j < e.len() implies !outranks(
            #[trigger] e[j],
            #[trigger] e[i],
        ) by {
            assert(e[j] == tail[j - 1]);
            if i > 0 {
                assert(e[i] == tail[i - 1]);
            } else {
                assert(s.contains(tail[j - 1]));
            }
        }
        if k >= s.len() {
            assert(e.to_multiset() =~= tail.to_multiset().insert(s[b])) by {
                vstd::seq_lib::lemma_seq_union_to_multiset_commutative(seq![s[b]], tail);
                assert(tail + seq![s[b]] =~= tail.push(s[b]));
                tail.to_multiset_ensures();
                assert(tail.push(s[b]).to_multiset() =~= tail.to_multiset().insert(s[b]));
            }
            s.to_multiset_ensures();
            assert(rest.to_multiset() =~= s.to_multiset().remove(s[b]));
            assert(s.to_multiset().remove(s[b]).insert(s[b]) =~= s.to_multiset());
        }
    } else if s.len() == 0 {
        assert(s =~= Seq::<Ranked>::empty());
        assert(elect(s, k) =~= Seq::<Ranked>::empty());
    }
}

proof fn lemma_ranked_positive(c: Seq<ValidatorElectionInfo>, t: Seq<Vec<u8>>)
    ensures
        forall|i: int|
            0 <= i < ranked_candidates(c, t).len() ==> (#[trigger] ranked_candidates(c, t)[i]).info.voting_power.value() > 0,
        forall|i: int|
            0 <= i < ranked_candidates(c, t).len() ==> c.contains((#[trigger] ranked_candidates(c, t)[i]).info),
    decreases c.len(),
{
    if c.len() > 0 && t.len() > 0 {
        lemma_ranked_positive(c.drop_first(), t.drop_first());
        let rest = ranked_candidates(c.drop_first(), t.drop_first());
        let r = ranked_candidates(c, t);
        assert forall|i: int| 0 <= i < rest.len() implies c.contains((#[trigger] rest[i]).info) by {
            assert(c.drop_first().contains(rest[i].info));
            let m = choose|m: int| 0 <= m < c.drop_first().len() && c.drop_first()[m] == rest[i].info;
            assert(c[m + 1] == rest[i].info);
        }
        if c[0].voting_power.value() > 0 {
            assert forall|i: int| 0 <= i < r.len() implies (#[trigger] r[i]).info.voting_power.value() > 0
                && c.contains(r[i].info) by {
                if i > 0 {
                    assert(r[i] == rest[i - 1]);
                } else {
                    assert(c[0] == r[0].info);
                }
            }
        }
    }
}

proof fn lemma_elect_no_skip(s: Seq<Ranked>, k: nat, x: Ranked, i: int)
    requires
        s.contains(x),
        0 <= i < elect(s, k).len(),
        outranks(x, elect(s, k)[i]),
    ensures
        elect(s, k).contains(x),
    decreases k,
{
    let b = best_from(s, s.len());
    lemma_best_from(s, s.len());
    let rest = s.remove(b);
    let e = elect(s, k);
    let tail = elect(rest, (k - 1) as nat);
    assert(e == seq![s[b]] + tail);
    let m = choose|m: int| 0 <= m < s.len() && s[m] == x;
    if i == 0 {
        assert(!outranks(s[m], s[b]));
    } else if x == s[b] {
        assert(e[0] == x);
    } else {
        assert(m != b);
        if m < b {
            assert(rest[m] == x);
        } else {
            assert(rest[m - 1] == x);
        }
        assert(e[i] == tail[i - 1]);
        lemma_elect_no_skip(rest, (k - 1) as nat, x, i - 1);
        let j = choose|j: int| 0 <= j < tail.len() && tail[j] == x;
        assert(e[j + 1] == x);
    }
}

/// A candidate whose power is zero is never elected, whatever the cap.
pub proof fn lemma_zero_power_never_elected(
    c: Seq<ValidatorElectionInfo>,
    t: Seq<Vec<u8>>,
    max_elected: nat,
    z: ValidatorElectionInfo,
)
    requires
        z.voting_power.value() == 0,
    ensures
        forall|i: int| 0 <= i < election(c, t, max_elected).len() ==> (#[trigger] election(c, t, max_elected)[i]).info != z,
{
    let r = ranked_candidates(c, t);
    let k = elected_count(max_elected, r.len());
    lemma_ranked_positive(c, t);
    lemma_elect_shape(r, k);
    assert forall|i: int| 0 <= i < elect(r, k).len() implies (#[trigger] elect(r, k)[i]).info != z by {
        assert(r.contains(elect(r, k)[i]));
    }
}

/// With a cap of at least the number of positive-power candidates, every
/// one of them is elected exactly once, and the elected are in rank order:
/// none is outranked by one elected after it.
pub proof fn lemma_cap_above_count_elects_all(c: Seq<ValidatorElectionInfo>, t: Seq<Vec<u8>>, max_elected: nat)
    requires
        max_elected >= ranked_candidates(c, t).len(),
    ensures
        election(c, t, max_elected).len() == ranked_candidates(c, t).len(),
        election(c, t, max_elected).to_multiset() == ranked_candidates(c, t).to_multiset(),
        forall|i: int, j: int|
            0 <= i < j < election(c, t, max_elected).len() ==> !outranks(
                #[trigger] election(c, t, max_elected)[j],
                #[trigger] election(c, t, max_elected)[i],
            ),
{
    let r = ranked_candidates(c, t);
    lemma_elect_shape(r, elected_count(max_elected, r.len()));
}

/// No consensus address held only by zero-power candidates is ever
/// elected, whatever the cap.
pub proof fn lemma_zero_power_address_never_elected(
    c: Seq<ValidatorElectionInfo>,
    t: Seq<Vec<u8>>,
    max_elected: nat,
    z: Seq<u8>,
)
    requires
        forall|j: int| 0 <= j < c.len() && (#[trigger] c[j]).consensus_address@ == z ==> c[j].voting_power.value() == 0,
    ensures
        forall|i: int|
            0 <= i < election(c, t, max_elected).len() ==> (#[trigger] election(c, t, max_elected)[i]).info.consensus_address@ != z,
{
    let r = ranked_candidates(c, t);
    let k = elected_count(max_elected, r.len());
    lemma_ranked_positive(c, t);
    lemma_elect_shape(r, k);
    assert forall|i: int| 0 <= i < elect(r, k).len() implies (#[trigger] elect(r, k)[i]).info.consensus_address@ != z by {
        assert(r.contains(elect(r, k)[i]));
        let m = choose|m: int| 0 <= m < r.len() && r[m] == elect(r, k)[i];
        assert(c.contains(r[m].info));
        let j = choose|j: int| 0 <= j < c.len() && c[j] == r[m].info;
        assert(r[m].info.voting_power.value() > 0);
    }
}

/// No positive-power candidate left out of the election outranks one that
/// was elected: whatever outranks an elected candidate was elected too.
pub proof fn lemma_no_unelected_outranks_elected(
    c: Seq<ValidatorElectionInfo>,
    t: Seq<Vec<u8>>,
    max_elected: nat,
    x: Ranked,
    i: int,
)
    requires
        ranked_candidates(c, t).contains(x),
        0 <= i < election(c, t, max_elected).len(),
        outranks(x, election(c, t, max_elected)[i]),
    ensures
        election(c, t, max_elected).contains(x),
{
    let r = ranked_candidates(c, t);
    lemma_elect_no_skip(r, elected_count(max_elected, r.len()), x, i);
}

/// Whatever the cap, the elected are in rank order: none is outranked by
/// one elected after it.
pub proof fn lemma_election_in_rank_order(c: Seq<ValidatorElectionInfo>, t: Seq<Vec<u8>>, max_elected: nat)
    ensures
        forall|i: int, j: int|
            0 <= i < j < election(c, t, max_elected).len() ==> !outranks(
                #[trigger] election(c, t, max_elected)[j],
                #[trigger] election(c, t, max_elected)[i],
            ),
{
    let r = ranked_candidates(c, t);
    lemma_elect_shape(r, elected_count(max_elected, r.len()));
}

} // verus!

//! Round-robin partitioning of the corpus into shards.
//!
//! A record goes to the shard given by its position in the corpus modulo the
//! number of shards. Partitioning is by position only, never by content, so the
//! corpus can be read back from the shards whatever their number.

use crate::vector::record::{Record, RecordModel};
use vstd::arithmetic::div_mod::{
    lemma_div_is_ordered, lemma_div_multiples_vanish, lemma_fundamental_div_mod,
    lemma_fundamental_div_mod_converse, lemma_mod_bound,
};
use vstd::prelude::*;

verus! {

/// Models of a sequence of records.
pub open spec fn records_model(records: Seq<Record>) -> Seq<RecordModel> {
    records.map_values(|r: Record| r@)
}

/// Models of the records of each shard.
pub open spec fn shards_model(shards: Seq<Vec<Record>>) -> Seq<Seq<RecordModel>> {
    shards.map_values(|s: Vec<Record>| records_model(s@))
}

/// The number of shards that a configured count stands for: at least one.
pub open spec fn effective_shards(shard_count: nat) -> nat {
    if shard_count == 0 {
        1
    } else {
        shard_count
    }
}

/// Number of records that shard `s` of `k` holds when the corpus has `count`
/// records: the positions below `count` that leave the remainder `s`.
pub open spec fn shard_len(count: nat, k: nat, s: nat) -> nat
    recommends
        s < k,
{
    ((count + k - 1 - s) / (k as int)) as nat
}

/// The records of shard `s` of `k`: those at the positions `s`, `s + k`,
/// `s + 2k`, and so on, in that order.
pub open spec fn shard_of(records: Seq<RecordModel>, k: nat, s: nat) -> Seq<RecordModel>
    recommends
        s < k,
{
    Seq::new(shard_len(records.len(), k, s), |j: int| records[j * k + s])
}

/// The corpus partitioned round-robin into `k` shards.
pub open spec fn partition_of(records: Seq<RecordModel>, k: nat) -> Seq<Seq<RecordModel>> {
    Seq::new(k, |s: int| shard_of(records, k, s as nat))
}

/// Every shard holds the number of records that a corpus of `count` records
/// gives it.
pub open spec fn balanced(shards: Seq<Seq<RecordModel>>, count: nat) -> bool {
    forall|s: int|
        0 <= s < shards.len() ==> (#[trigger] shards[s]).len() == shard_len(
            count,
            shards.len(),
            s as nat,
        )
}

/// The corpus read back from its shards: the record at position `g` is entry
/// `g / k` of shard `g % k`.
pub open spec fn corpus_of(shards: Seq<Seq<RecordModel>>, count: nat) -> Seq<RecordModel> {
    Seq::new(count, |g: int| shards[g % (shards.len() as int)][g / (shards.len() as int)])
}

/// A shard has `j` records exactly when position `j` of the shard is the first
/// that falls outside the corpus.
pub proof fn lemma_shard_len_is(count: nat, k: nat, s: nat, j: nat)
    requires
        s < k,
        count <= j * k + s,
        j == 0 || (j - 1) * k + s < count,
    ensures
        shard_len(count, k, s) == j,
{
    let m = count + k - 1 - s;
    assert(j * k <= m < j * k + k) by (nonlinear_arith)
        requires
            m == count + k - 1 - s,
            s < k,
            count <= j * k + s,
            j == 0 || (j - 1) * k + s < count,
    ;
    lemma_fundamental_div_mod_converse(m, k as int, j as int, m - j * k);
}

/// Entry `j` of shard `s` lies inside the corpus.
pub proof fn lemma_shard_entry_in_corpus(count: nat, k: nat, s: nat, j: nat)
    requires
        s < k,
        j < shard_len(count, k, s),
    ensures
        j * k + s < count,
{
    let m = count + k - 1 - s;
    lemma_fundamental_div_mod(m, k as int);
    lemma_mod_bound(m, k as int);
    let q = m / (k as int);
    assert(j * k + s < count) by (nonlinear_arith)
        requires
            m == count + k - 1 - s,
            m == k * q + m % (k as int),
            0 <= m % (k as int),
            j + 1 <= q,
            k > 0,
    ;
}

/// The record at position `g` of the corpus is held by shard `g % k`, as its
/// entry `g / k`.
pub proof fn lemma_position_in_shard(count: nat, k: nat, g: nat)
    requires
        0 < k,
        g < count,
    ensures
        g % k < k,
        g / k < shard_len(count, k, g % k),
        (g / k) * k + g % k == g,
{
    let ki = k as int;
    lemma_fundamental_div_mod(g as int, ki);
    lemma_mod_bound(g as int, ki);
    let q = g as int / ki;
    let r = g as int % ki;
    assert(q * ki == ki * q) by (nonlinear_arith);
    let m = count + k - 1 - r;
    assert(ki * (q + 1) == ki * q + ki) by (nonlinear_arith);
    assert(ki * (q + 1) <= m);
    lemma_div_is_ordered(ki * (q + 1), m, ki);
    lemma_div_multiples_vanish(q + 1, ki);
}

/// Reading the corpus back from its round-robin partition gives the corpus
/// again, whatever the number of shards.
pub proof fn lemma_partition_round_trip(records: Seq<RecordModel>, k: nat)
    requires
        0 < k,
    ensures
        balanced(partition_of(records, k), records.len()),
        corpus_of(partition_of(records, k), records.len()) == records,
{
    let shards = partition_of(records, k);
    let back = corpus_of(shards, records.len());
    assert forall|g: int| 0 <= g < records.len() implies back[g] == records[g] by {
        lemma_position_in_shard(records.len(), k, g as nat);
        let s = g % (k as int);
        let j = g / (k as int);
        assert(shards[s] == shard_of(records, k, s as nat));
        assert(shards[s][j] == records[j * k + s]);
    }
    assert(back =~= records);
}

/// The shards of a corpus are all empty exactly when the corpus is.
pub proof fn lemma_empty_iff_all_shards_empty(shards: Seq<Seq<RecordModel>>, count: nat)
    requires
        0 < shards.len(),
        balanced(shards, count),
    ensures
        count == 0 <==> forall|s: int| 0 <= s < shards.len() ==> (#[trigger] shards[s]).len() == 0,
{
    let k = shards.len();
    if count == 0 {
        assert forall|s: int| 0 <= s < shards.len() implies (#[trigger] shards[s]).len() == 0 by {
            lemma_shard_len_is(0, k, s as nat, 0);
        }
    } else {
        lemma_position_in_shard(count, k, 0);
        assert(0int % (k as int) == 0 && 0int / (k as int) == 0) by (nonlinear_arith)
            requires
                k > 0,
        ;
        assert(shards[0].len() > 0);
    }
}

/// Partitions the records round-robin by position into `shard_count` shards; a
/// count of zero stands for one shard.
pub fn partition(records: &Vec<Record>, shard_count: usize) -> (shards: Vec<Vec<Record>>)
    ensures
        shards_model(shards@) == partition_of(
            records_model(records@),
            effective_shards(shard_count as nat),
        ),
{
    let k: usize = if shard_count == 0 {
        1
    } else {
        shard_count
    };
    let n = records.len();
    let ghost corpus = records_model(records@);
    let mut shards: Vec<Vec<Record>> = Vec::new();
    let mut s: usize = 0;
    while s < k
        invariant
            s <= k,
            k == effective_shards(shard_count as nat),
            n == records.len(),
            corpus == records_model(records@),
            shards.len() == s,
            forall|t: int|
                0 <= t < s ==> records_model((#[trigger] shards[t])@) == shard_of(
                    corpus,
                    k as nat,
                    t as nat,
                ),
        decreases k - s,
    {
        let shard = take_shard(records, k, s);
        shards.push(shard);
        s = s + 1;
    }
    assert(shards_model(shards@) =~= partition_of(corpus, k as nat));
    shards
}

/// Copies out the records of shard `s` of `k`.
fn take_shard(records: &Vec<Record>, k: usize, s: usize) -> (shard: Vec<Record>)
    requires
        s < k,
    ensures
        records_model(shard@) == shard_of(records_model(records@), k as nat, s as nat),
{
    let n = records.len();
    let ghost corpus = records_model(records@);
    let mut shard: Vec<Record> = Vec::new();
    let mut g: usize = s;
    let mut done = g >= n;
    let ghost mut j: nat = 0;
    proof {
        assert(0 * k + s == s) by (nonlinear_arith);
    }
    while !done
        invariant
            s < k,
            n == records.len(),
            corpus == records_model(records@),
            shard.len() == j,
            forall|t: int| 0 <= t < j ==> (#[trigger] shard[t])@ == corpus[t * k + s],
            !done ==> g == j * k + s && g < n,
            done ==> n <= j * k + s && (j == 0 || (j - 1) * k + s < n),
        decreases
                (if done {
                    0
                } else {
                    n - g + 1
                }),
    {
        shard.push(records[g].clone());
        proof {
            assert(corpus[g as int] == records[g as int]@);
            assert((j + 1 - 1) * k + s == j * k + s);
            assert((j + 1) * k + s == j * k + s + k) by (nonlinear_arith);
            j = j + 1;
        }
        if n - g > k {
            g = g + k;
        } else {
            done = true;
        }
    }
    proof {
        lemma_shard_len_is(n as nat, k as nat, s as nat, j);
        assert(records_model(shard@) =~= shard_of(corpus, k as nat, s as nat));
    }
    shard
}

/// Reads the corpus back from its shards, in the order in which it was
/// partitioned.
pub fn merge(shards: &Vec<Vec<Record>>, count: usize) -> (records: Vec<Record>)
    requires
        shards.len() > 0,
        balanced(shards_model(shards@), count as nat),
    ensures
        records_model(records@) == corpus_of(shards_model(shards@), count as nat),
{
    let k = shards.len();
    let ghost model = shards_model(shards@);
    let mut records: Vec<Record> = Vec::new();
    let mut g: usize = 0;
    while g < count
        invariant
            g <= count,
            k == shards.len(),
            k > 0,
            model == shards_model(shards@),
            balanced(model, count as nat),
            records.len() == g,
            forall|t: int|
                0 <= t < g ==> (#[trigger] records[t])@ == model[t % (k as int)][t / (k as int)],
        decreases count - g,
    {
        proof {
            lemma_position_in_shard(count as nat, k as nat, g as nat);
            assert(model[g as int % (k as int)].len() == shards[g as int % (k as int)].len());
        }
        let shard = &shards[g % k];
        records.push(shard[g / k].clone());
        g = g + 1;
    }
    assert(records_model(records@) =~= corpus_of(model, count as nat));
    records
}

} // verus!

//! The sharded corpus held in memory.

use crate::vector::config::Config;
use crate::vector::record::{Record, RecordModel};
use crate::vector::shards::{
    balanced, corpus_of, effective_shards, lemma_empty_iff_all_shards_empty,
    lemma_partition_round_trip, lemma_position_in_shard, lemma_shard_entry_in_corpus, merge,
    partition, partition_of, records_model, shard_of, shards_model,
};
use vstd::arithmetic::div_mod::lemma_fundamental_div_mod_converse;
use vstd::prelude::*;

verus! {

/// The vector service: a corpus partitioned into shards.
///
/// The corpus is empty at construction and changes only by wholesale
/// replacement; no record is ever removed on its own.
#[derive(Debug)]
pub struct VectorServer {
    shards: Vec<Vec<Record>>,
    count: usize,
    dataset_path: Option<String>,
}

/// Mathematical model of a [`VectorServer`].
pub struct ServerModel {
    /// Number of shards.
    pub shard_count: nat,
    /// The corpus, in the order in which it was loaded.
    pub corpus: Seq<RecordModel>,
    /// Path of the dataset file, if one is configured.
    pub dataset_path: Option<Seq<char>>,
}

/// Model of an optional path.
pub open spec fn path_model(path: Option<String>) -> Option<Seq<char>> {
    match path {
        Some(p) => Some(p@),
        None => None,
    }
}

impl View for VectorServer {
    type V = ServerModel;

    closed spec fn view(&self) -> ServerModel {
        ServerModel {
            shard_count: self.shards.len() as nat,
            corpus: corpus_of(shards_model(self.shards@), self.count as nat),
            dataset_path: path_model(self.dataset_path),
        }
    }
}

/// Copies an optional path.
fn clone_path(path: &Option<String>) -> (copy: Option<String>)
    ensures
        path_model(copy) == path_model(*path),
{
    match path {
        Some(p) => Some(p.clone()),
        None => None,
    }
}

impl VectorServer {
    /// The server holds at least one shard, and every shard holds its share of
    /// the corpus.
    pub closed spec fn wf(&self) -> bool {
        &&& self.shards.len() > 0
        &&& balanced(shards_model(self.shards@), self.count as nat)
    }

    /// The records that each shard holds.
    pub closed spec fn shard_models(&self) -> Seq<Seq<RecordModel>> {
        shards_model(self.shards@)
    }

    /// The shards are the round-robin partition of the corpus: the record at
    /// position `g` of the corpus belongs to shard `g mod shard_count`, and to no
    /// other.
    pub proof fn lemma_shards_partition_corpus(&self)
        requires
            self.wf(),
        ensures
            self@.shard_count > 0,
            self.shard_models() == partition_of(self@.corpus, self@.shard_count),
    {
        let shards = shards_model(self.shards@);
        let k = shards.len();
        let count = self.count as nat;
        let corpus = corpus_of(shards, count);
        let parts = partition_of(corpus, k);
        assert forall|s: int| 0 <= s < k implies #[trigger] shards[s] == parts[s] by {
            assert(parts[s] == shard_of(corpus, k, s as nat));
            assert forall|j: int| 0 <= j < shards[s].len() implies shards[s][j] == parts[s][j] by {
                lemma_shard_entry_in_corpus(count, k, s as nat, j as nat);
                lemma_fundamental_div_mod_converse(j * k + s, k as int, j, s);
            }
            assert(shards[s] =~= parts[s]);
        }
        assert(shards =~= parts);
    }

    /// The corpus is empty exactly when every shard is.
    pub proof fn lemma_empty_iff_shards_empty(&self)
        requires
            self.wf(),
        ensures
            self@.corpus.len() == 0 <==> forall|s: int|
                0 <= s < self.shard_models().len() ==> (#[trigger] self.shard_models()[s]).len()
                    == 0,
    {
        let shards = shards_model(self.shards@);
        lemma_empty_iff_all_shards_empty(shards, self.count as nat);
        assert(self.shard_models() == shards);
        assert(self@.corpus.len() == self.count);
        if self.count == 0 {
            assert forall|s: int| 0 <= s < self.shard_models().len() implies (
            #[trigger] self.shard_models()[s]).len() == 0 by {
                assert(shards[s].len() == 0);
            }
        } else {
            let s = choose|s: int| 0 <= s < shards.len() && (#[trigger] shards[s]).len() != 0;
            assert(self.shard_models()[s].len() != 0);
        }
    }

    /// A server with the configured number of shards and an empty corpus.
    pub fn new(config: &Config) -> (server: VectorServer)
        ensures
            server.wf(),
            server@ == (ServerModel {
                shard_count: effective_shards(config.shard_count as nat),
                corpus: Seq::empty(),
                dataset_path: path_model(config.dataset_path),
            }),
    {
        let empty: Vec<Record> = Vec::new();
        let shards = partition(&empty, config.shard_count);
        let dataset_path = clone_path(&config.dataset_path);
        proof {
            let k = effective_shards(config.shard_count as nat);
            lemma_partition_round_trip(records_model(empty@), k);
            assert(records_model(empty@) =~= Seq::<RecordModel>::empty());
            assert(shards_model(shards@).len() == k);
        }
        VectorServer { shards, count: 0, dataset_path }
    }

    /// Path of the dataset file, if one is configured.
    pub fn dataset_path(&self) -> (path: Option<String>)
        ensures
            path_model(path) == self@.dataset_path,
    {
        clone_path(&self.dataset_path)
    }

    /// Number of shards.
    pub fn shard_count(&self) -> (count: usize)
        ensures
            count == self@.shard_count,
    {
        self.shards.len()
    }

    /// Number of records in the corpus.
    pub fn len(&self) -> (count: usize)
        ensures
            count == self@.corpus.len(),
    {
        self.count
    }

    /// Whether the corpus is empty, that is, whether every shard is.
    pub fn is_empty(&self) -> (empty: bool)
        ensures
            empty == (self@.corpus.len() == 0),
    {
        self.count == 0
    }

    /// The record at a position of the corpus.
    pub fn record_at(&self, position: usize) -> (record: &Record)
        requires
            self.wf(),
            position < self@.corpus.len(),
        ensures
            record@ == self@.corpus[position as int],
    {
        let k = self.shards.len();
        proof {
            lemma_position_in_shard(self.count as nat, k as nat, position as nat);
            let model = shards_model(self.shards@);
            assert(model[position as int % (k as int)].len() == self.shards[position as int % (
            k as int)].len());
        }
        let shard = &self.shards[position % k];
        &shard[position / k]
    }

    /// The corpus, in the order in which it was loaded.
    pub fn records(&self) -> (records: Vec<Record>)
        requires
            self.wf(),
        ensures
            records_model(records@) == self@.corpus,
    {
        merge(&self.shards, self.count)
    }

    /// The records of one shard, or `None` where there is no such shard.
    pub fn shard(&self, index: usize) -> (records: Option<Vec<Record>>)
        requires
            self.wf(),
        ensures
            match records {
                Some(r) => index < self@.shard_count && records_model(r@) == shard_of(
                    self@.corpus,
                    self@.shard_count,
                    index as nat,
                ),
                None => index >= self@.shard_count,
            },
    {
        if index < self.shards.len() {
            proof {
                self.lemma_shards_partition_corpus();
                assert(self.shard_models()[index as int] == records_model(
                    self.shards[index as int]@,
                ));
            }
            Some(clone_records(&self.shards[index]))
        } else {
            None
        }
    }

    /// Replaces the corpus by the given records, partitioned round-robin over
    /// the shards.
    pub fn load_store(&mut self, records: &Vec<Record>)
        requires
            old(self).wf(),
        ensures
            final(self).wf(),
            final(self)@ == (ServerModel { corpus: records_model(records@), ..old(self)@ }),
    {
        let k = self.shards.len();
        self.shards = partition(records, k);
        self.count = records.len();
        proof {
            lemma_partition_round_trip(records_model(records@), k as nat);
            assert(shards_model(self.shards@).len() == k);
        }
    }
}

/// Copies a sequence of records.
pub fn clone_records(records: &Vec<Record>) -> (copy: Vec<Record>)
    ensures
        records_model(copy@) == records_model(records@),
{
    let mut copy: Vec<Record> = Vec::new();
    let mut i: usize = 0;
    while i < records.len()
        invariant
            i <= records.len(),
            copy.len() == i,
            forall|t: int| 0 <= t < i ==> (#[trigger] copy[t])@ == records[t]@,
        decreases records.len() - i,
    {
        copy.push(records[i].clone());
        i = i + 1;
    }
    assert(records_model(copy@) =~= records_model(records@));
    copy
}

} // verus!

//! The two calls of the service, each as a state machine.
//!
//! A call alternates between decisions, which are taken here, and work on the
//! outside: reading the dataset file, reading and replacing the persistent
//! store, and turning the terms of a similarity into a score. Every step takes
//! the outcome of the work that the previous step asked for and answers with
//! the next action. A call begins with the `Begin` event and ends with `Done` or
//! `Fail`. No step retries anything.

use crate::vector::dataset::{dataset_outcome, json_string_array, load_dataset};
use crate::vector::error::{
    status_of, ErrorModel, Status, StatusCode, StatusModel, VectorError,
};
use crate::vector::message::{
    loaded_message, loaded_message_of, not_initialized_message, score_count_message,
    zero_limit_message,
};
use crate::vector::ranking::{is_ranking, rank};
use crate::vector::record::{
    cosine_terms, cosine_terms_of, embed, embedding_of, CosineTerms, CosineTermsModel, Record,
    RecordModel,
};
use crate::vector::server::{ServerModel, VectorServer};
use crate::vector::shards::records_model;
use vstd::prelude::*;
use vstd::string::StringExecFns;

verus! {

/// Outcome of reading the dataset file.
#[derive(Debug)]
pub enum DatasetRead {
    /// The file was read; this is its content.
    Found(String),
    /// There is no such file.
    Missing,
    /// Reading failed for another reason, described by the message.
    Failed(String),
}

/// What happened outside since the last step of an `Init` call.
#[derive(Debug)]
pub enum InitEvent {
    /// The call arrived.
    Begin,
    /// The dataset file was read, or could not be.
    DatasetRead(DatasetRead),
    /// The persistent store was asked to hold exactly these records, with this
    /// outcome.
    Replaced(Vec<Record>, Result<(), VectorError>),
    /// The persistent store was read, with this outcome.
    Loaded(Result<Vec<Record>, VectorError>),
}

/// What an `Init` call asks for next, or how it ends.
#[derive(Debug)]
pub enum InitAction {
    /// Read the dataset file at this path.
    ReadDataset(String),
    /// Replace the content of the persistent store by these records.
    Replace(Vec<Record>),
    /// Read all records of the persistent store.
    LoadPersisted,
    /// The call succeeded, with this message.
    Done(String),
    /// The call failed.
    Fail(Status),
}

/// One search result: a record of the corpus and its score.
#[derive(Debug, PartialEq, Eq)]
pub struct SearchResult {
    pub text: String,
    /// Key of the score: an unsigned number that orders as the score does.
    pub score: u32,
    /// Numerators of the embedding of the record.
    pub embedding: Vec<u8>,
}

/// What happened outside since the last step of a `Search` call.
#[derive(Debug)]
pub enum SearchEvent {
    /// The call arrived.
    Begin,
    /// The persistent store was read, with this outcome.
    Loaded(Result<Vec<Record>, VectorError>),
    /// The records were scored: one key for each record of the corpus, in the
    /// order of the corpus.
    Scored(Vec<u32>),
}

/// What a `Search` call asks for next, or how it ends.
#[derive(Debug)]
pub enum SearchAction {
    /// Read all records of the persistent store.
    LoadPersisted,
    /// Score the records: these are the terms of the similarity between the
    /// query and each record of the corpus, in the order of the corpus.
    Score(Vec<CosineTerms>),
    /// The call succeeded, with these results, best first.
    Done(Vec<SearchResult>),
    /// The call failed.
    Fail(Status),
}

/// Model of a [`DatasetRead`].
pub enum DatasetReadModel {
    Found(Seq<char>),
    Missing,
    Failed(Seq<char>),
}

/// Model of an [`InitEvent`].
pub enum InitEventModel {
    Begin,
    DatasetRead(DatasetReadModel),
    Replaced(Seq<RecordModel>, Result<(), ErrorModel>),
    Loaded(Result<Seq<RecordModel>, ErrorModel>),
}

/// Model of an [`InitAction`].
pub enum InitActionModel {
    ReadDataset(Seq<char>),
    Replace(Seq<RecordModel>),
    LoadPersisted,
    Done(Seq<char>),
    Fail(StatusModel),
}

/// Model of a [`SearchResult`].
pub struct SearchResultModel {
    pub text: Seq<char>,
    pub score: u32,
    pub embedding: Seq<u8>,
}

/// Model of a [`SearchEvent`].
pub enum SearchEventModel {
    Begin,
    Loaded(Result<Seq<RecordModel>, ErrorModel>),
    Scored(Seq<u32>),
}

/// Model of a [`SearchAction`].
pub enum SearchActionModel {
    LoadPersisted,
    Score(Seq<CosineTermsModel>),
    Done(Seq<SearchResultModel>),
    Fail(StatusModel),
}

/// Model of the outcome of reading the persistent store.
pub open spec fn loaded_model(loaded: Result<Vec<Record>, VectorError>) -> Result<
    Seq<RecordModel>,
    ErrorModel,
> {
    match loaded {
        Ok(records) => Ok(records_model(records@)),
        Err(error) => Err(error@),
    }
}

/// Model of the outcome of replacing the persistent store.
pub open spec fn replaced_model(outcome: Result<(), VectorError>) -> Result<(), ErrorModel> {
    match outcome {
        Ok(_) => Ok(()),
        Err(error) => Err(error@),
    }
}

/// Models of a sequence of cosine terms.
pub open spec fn terms_model(terms: Seq<CosineTerms>) -> Seq<CosineTermsModel> {
    terms.map_values(|t: CosineTerms| t@)
}

/// Models of a sequence of search results.
pub open spec fn results_model(results: Seq<SearchResult>) -> Seq<SearchResultModel> {
    results.map_values(|r: SearchResult| r@)
}

impl View for DatasetRead {
    type V = DatasetReadModel;

    open spec fn view(&self) -> DatasetReadModel {
        match self {
            DatasetRead::Found(data) => DatasetReadModel::Found(data@),
            DatasetRead::Missing => DatasetReadModel::Missing,
            DatasetRead::Failed(message) => DatasetReadModel::Failed(message@),
        }
    }
}

impl View for InitEvent {
    type V = InitEventModel;

    open spec fn view(&self) -> InitEventModel {
        match self {
            InitEvent::Begin => InitEventModel::Begin,
            InitEvent::DatasetRead(read) => InitEventModel::DatasetRead(read@),
            InitEvent::Replaced(records, outcome) => InitEventModel::Replaced(
                records_model(records@),
                replaced_model(*outcome),
            ),
            InitEvent::Loaded(loaded) => InitEventModel::Loaded(loaded_model(*loaded)),
        }
    }
}

impl View for InitAction {
    type V = InitActionModel;

    open spec fn view(&self) -> InitActionModel {
        match self {
            InitAction::ReadDataset(path) => InitActionModel::ReadDataset(path@),
            InitAction::Replace(records) => InitActionModel::Replace(records_model(records@)),
            InitAction::LoadPersisted => InitActionModel::LoadPersisted,
            InitAction::Done(message) => InitActionModel::Done(message@),
            InitAction::Fail(status) => InitActionModel::Fail(status@),
        }
    }
}

impl View for SearchResult {
    type V = SearchResultModel;

    open spec fn view(&self) -> SearchResultModel {
        SearchResultModel { text: self.text@, score: self.score, embedding: self.embedding@ }
    }
}

impl View for SearchEvent {
    type V = SearchEventModel;

    open spec fn view(&self) -> SearchEventModel {
        match self {
            SearchEvent::Begin => SearchEventModel::Begin,
            SearchEvent::Loaded(loaded) => SearchEventModel::Loaded(loaded_model(*loaded)),
            SearchEvent::Scored(keys) => SearchEventModel::Scored(keys@),
        }
    }
}

impl View for SearchAction {
    type V = SearchActionModel;

    open spec fn view(&self) -> SearchActionModel {
        match self {
            SearchAction::LoadPersisted => SearchActionModel::LoadPersisted,
            SearchAction::Score(terms) => SearchActionModel::Score(terms_model(terms@)),
            SearchAction::Done(results) => SearchActionModel::Done(results_model(results@)),
            SearchAction::Fail(status) => SearchActionModel::Fail(status@),
        }
    }
}

/// What reading the persistent store gives the service: its records, or the
/// empty-store error where it holds none. Any other failure is kept as it is.
pub open spec fn persisted_of(loaded: Result<Seq<RecordModel>, ErrorModel>) -> Result<
    Seq<RecordModel>,
    ErrorModel,
> {
    match loaded {
        Ok(records) => if records.len() == 0 {
            Err(ErrorModel::EmptyStore)
        } else {
            Ok(records)
        },
        Err(error) => Err(error),
    }
}

/// How an `Init` call ends once it has obtained its records, or has failed to:
/// records replace the corpus and are reported with their number, no records
/// are an empty store, and a failure is surfaced under its class. Whatever
/// fails changes nothing.
pub open spec fn init_ends(
    pre: ServerModel,
    obtained: Result<Seq<RecordModel>, ErrorModel>,
    action: InitActionModel,
    post: ServerModel,
) -> bool {
    match persisted_of(obtained) {
        Ok(records) => {
            &&& post == (ServerModel { corpus: records, ..pre })
            &&& action == InitActionModel::Done(loaded_message_of(records.len()))
        },
        Err(error) => {
            &&& post == pre
            &&& action == InitActionModel::Fail(status_of(error))
        },
    }
}

/// The steps that an `Init` call allows: for a state and an event, the action
/// that answers it and the state that follows.
pub open spec fn init_allows(
    pre: ServerModel,
    event: InitEventModel,
    action: InitActionModel,
    post: ServerModel,
) -> bool {
    match event {
        InitEventModel::Begin => {
            &&& post == pre
            &&& action == match pre.dataset_path {
                Some(path) => InitActionModel::ReadDataset(path),
                None => InitActionModel::LoadPersisted,
            }
        },
        InitEventModel::DatasetRead(DatasetReadModel::Found(data)) => {
            &&& post == pre
            &&& match action {
                InitActionModel::Replace(records) => dataset_outcome(
                    json_string_array(data),
                    Ok(records),
                ),
                InitActionModel::Fail(status) => dataset_outcome(
                    json_string_array(data),
                    Err(status),
                ),
                _ => false,
            }
        },
        InitEventModel::DatasetRead(DatasetReadModel::Missing) => {
            &&& post == pre
            &&& action == InitActionModel::LoadPersisted
        },
        InitEventModel::DatasetRead(DatasetReadModel::Failed(message)) => {
            &&& post == pre
            &&& action == InitActionModel::Fail(
                StatusModel { code: StatusCode::Internal, message },
            )
        },
        InitEventModel::Replaced(records, outcome) => init_ends(
            pre,
            match outcome {
                Ok(_) => Ok(records),
                Err(error) => Err(error),
            },
            action,
            post,
        ),
        InitEventModel::Loaded(loaded) => init_ends(pre, loaded, action, post),
    }
}

/// The terms of the similarity between a query and every record of a corpus.
pub open spec fn terms_for(query: Seq<char>, corpus: Seq<RecordModel>) -> Seq<CosineTermsModel> {
    corpus.map_values(|r: RecordModel| cosine_terms_of(embedding_of(query), r.embedding))
}

/// The results that a ranking picks from a corpus, each with its key.
pub open spec fn results_in_order(
    corpus: Seq<RecordModel>,
    keys: Seq<u32>,
    order: Seq<usize>,
) -> Seq<SearchResultModel> {
    order.map_values(
        |g: usize|
            SearchResultModel {
                text: corpus[g as int].text,
                score: keys[g as int],
                embedding: corpus[g as int].embedding,
            },
    )
}

/// `results` are the best `limit` records of the corpus under the given keys:
/// sorted by descending key, with equal keys in the order of the corpus.
pub open spec fn is_search_result(
    corpus: Seq<RecordModel>,
    keys: Seq<u32>,
    limit: nat,
    results: Seq<SearchResultModel>,
) -> bool {
    exists|order: Seq<usize>| #[trigger]
        is_ranking(keys, limit, order) && results == results_in_order(corpus, keys, order)
}

/// The status with which a search is refused while there is nothing to search.
pub open spec fn not_initialized() -> StatusModel {
    StatusModel { code: StatusCode::FailedPrecondition, message: not_initialized_message() }
}

/// The status under which a search surfaces a failure to read the persistent
/// store: an empty store means that the service was never initialized, and any
/// other failure is surfaced unchanged.
pub open spec fn search_failure(error: ErrorModel) -> StatusModel {
    match error {
        ErrorModel::EmptyStore => not_initialized(),
        _ => status_of(error),
    }
}

/// The steps that a `Search` call allows: for a state, a request and an event,
/// the action that answers it and the state that follows.
pub open spec fn search_allows(
    pre: ServerModel,
    text: Seq<char>,
    top_n: u32,
    event: SearchEventModel,
    action: SearchActionModel,
    post: ServerModel,
) -> bool {
    if top_n == 0 {
        &&& post == pre
        &&& action == SearchActionModel::Fail(
            StatusModel { code: StatusCode::InvalidArgument, message: zero_limit_message() },
        )
    } else {
        match event {
            SearchEventModel::Begin => {
                &&& post == pre
                &&& action == if pre.corpus.len() == 0 {
                    SearchActionModel::LoadPersisted
                } else {
                    SearchActionModel::Score(terms_for(text, pre.corpus))
                }
            },
            SearchEventModel::Loaded(loaded) => {
                if pre.corpus.len() > 0 {
                    &&& post == pre
                    &&& action == SearchActionModel::Score(terms_for(text, pre.corpus))
                } else {
                    match persisted_of(loaded) {
                        Ok(records) => {
                            &&& post == (ServerModel { corpus: records, ..pre })
                            &&& action == SearchActionModel::Score(terms_for(text, records))
                        },
                        Err(error) => {
                            &&& post == pre
                            &&& action == SearchActionModel::Fail(search_failure(error))
                        },
                    }
                }
            },
            SearchEventModel::Scored(keys) => {
                &&& post == pre
                &&& if keys.len() != pre.corpus.len() {
                    action == SearchActionModel::Fail(
                        StatusModel {
                            code: StatusCode::Internal,
                            message: score_count_message(),
                        },
                    )
                } else {
                    match action {
                        SearchActionModel::Done(results) => is_search_result(
                            pre.corpus,
                            keys,
                            top_n as nat,
                            results,
                        ),
                        _ => false,
                    }
                }
            },
        }
    }
}

/// Takes what was read from the persistent store: a store without records is
/// an empty store, and any failure to read it is passed on.
pub fn load_from_persistence(loaded: Result<Vec<Record>, VectorError>) -> (records: Result<
    Vec<Record>,
    VectorError,
>)
    ensures
        loaded_model(records) == persisted_of(loaded_model(loaded)),
{
    match loaded {
        Ok(records) => {
            if records.len() == 0 {
                Err(VectorError::EmptyStore)
            } else {
                Ok(records)
            }
        },
        Err(error) => Err(error),
    }
}

impl VectorServer {
    /// Makes sure that there is a corpus to search: an empty corpus is replaced
    /// by what was read from the persistent store, and fails to load where the
    /// store holds nothing or could not be read. A corpus that is not empty
    /// stays as it is.
    pub fn ensure_loaded(&mut self, loaded: Result<Vec<Record>, VectorError>) -> (outcome: Result<
        (),
        VectorError,
    >)
        requires
            old(self).wf(),
        ensures
            final(self).wf(),
            old(self)@.corpus.len() > 0 ==> outcome is Ok && final(self)@ == old(self)@,
            old(self)@.corpus.len() == 0 ==> match persisted_of(loaded_model(loaded)) {
                Ok(records) => outcome is Ok && final(self)@ == (ServerModel {
                    corpus: records,
                    ..old(self)@
                }),
                Err(error) => outcome is Err && outcome->Err_0@ == error && final(self)@ == old(
                    self,
                )@,
            },
    {
        if self.is_empty() {
            match load_from_persistence(loaded) {
                Ok(records) => {
                    self.load_store(&records);
                    Ok(())
                },
                Err(error) => Err(error),
            }
        } else {
            Ok(())
        }
    }

    /// Ends an `Init` call that has obtained its records, or has failed to.
    fn complete_init(&mut self, obtained: Result<Vec<Record>, VectorError>) -> (action: InitAction)
        requires
            old(self).wf(),
        ensures
            final(self).wf(),
            init_ends(old(self)@, loaded_model(obtained), action@, final(self)@),
    {
        match load_from_persistence(obtained) {
            Ok(records) => {
                self.load_store(&records);
                InitAction::Done(loaded_message(records.len()))
            },
            Err(error) => InitAction::Fail(error.into_status()),
        }
    }

    /// Takes one step of an `Init` call.
    ///
    /// With a dataset path configured the call reads the dataset; its records
    /// first replace the persistent store and then become the corpus. Where the
    /// dataset file is missing, or no path is configured, the corpus comes from
    /// the persistent store. A dataset that is empty or does not parse ends the
    /// call before anything is replaced.
    pub fn init(&mut self, event: InitEvent) -> (action: InitAction)
        requires
            old(self).wf(),
        ensures
            final(self).wf(),
            init_allows(old(self)@, event@, action@, final(self)@),
    {
        match event {
            InitEvent::Begin => match self.dataset_path() {
                Some(path) => InitAction::ReadDataset(path),
                None => InitAction::LoadPersisted,
            },
            InitEvent::DatasetRead(read) => match read {
                DatasetRead::Found(data) => match load_dataset(data.as_str()) {
                    Ok(records) => InitAction::Replace(records),
                    Err(status) => InitAction::Fail(status),
                },
                DatasetRead::Missing => InitAction::LoadPersisted,
                DatasetRead::Failed(message) => InitAction::Fail(Status::internal(message)),
            },
            InitEvent::Replaced(records, outcome) => match outcome {
                Ok(_) => self.complete_init(Ok(records)),
                Err(error) => self.complete_init(Err(error)),
            },
            InitEvent::Loaded(loaded) => self.complete_init(loaded),
        }
    }

    /// The terms of the similarity between a query and every record of the
    /// corpus, in the order of the corpus.
    pub fn score_terms(&self, text: &str) -> (terms: Vec<CosineTerms>)
        requires
            self.wf(),
        ensures
            terms_model(terms@) == terms_for(text@, self@.corpus),
    {
        let query = embed(text);
        let n = self.len();
        let mut terms: Vec<CosineTerms> = Vec::new();
        let mut g: usize = 0;
        while g < n
            invariant
                g <= n,
                n == self@.corpus.len(),
                self.wf(),
                query@ == embedding_of(text@),
                terms.len() == g,
                forall|t: int|
                    0 <= t < g ==> (#[trigger] terms[t])@ == cosine_terms_of(
                        query@,
                        self@.corpus[t].embedding,
                    ),
            decreases n - g,
        {
            let record = self.record_at(g);
            terms.push(cosine_terms(query.as_slice(), record.embedding.as_slice()));
            g = g + 1;
        }
        assert(terms_model(terms@) =~= terms_for(text@, self@.corpus));
        terms
    }

    /// Ranks the corpus by the given keys and returns the best `limit`
    /// records, best first.
    pub fn ranked(&self, keys: &Vec<u32>, limit: usize) -> (results: Vec<SearchResult>)
        requires
            self.wf(),
            keys.len() == self@.corpus.len(),
        ensures
            is_search_result(self@.corpus, keys@, limit as nat, results_model(results@)),
    {
        let order = rank(keys, limit);
        let mut results: Vec<SearchResult> = Vec::new();
        let mut i: usize = 0;
        while i < order.len()
            invariant
                i <= order.len(),
                self.wf(),
                keys.len() == self@.corpus.len(),
                is_ranking(keys@, limit as nat, order@),
                results.len() == i,
                forall|t: int|
                    0 <= t < i ==> (#[trigger] results[t])@ == results_in_order(
                        self@.corpus,
                        keys@,
                        order@,
                    )[t],
            decreases order.len() - i,
        {
            let g = order[i];
            let record = self.record_at(g);
            results.push(
                SearchResult {
                    text: record.text.clone(),
                    score: keys[g],
                    embedding: record.embedding.clone(),
                },
            );
            i = i + 1;
        }
        assert(results_model(results@) =~= results_in_order(self@.corpus, keys@, order@));
        results
    }

    /// Takes one step of a `Search` call.
    ///
    /// A request for no results is refused whatever the state. An empty corpus
    /// is first loaded from the persistent store. The records are then scored
    /// outside, and the best `top_n` of them are returned, best first.
    pub fn search(&mut self, text: &str, top_n: u32, event: SearchEvent) -> (action: SearchAction)
        requires
            old(self).wf(),
        ensures
            final(self).wf(),
            search_allows(old(self)@, text@, top_n, event@, action@, final(self)@),
    {
        if top_n == 0 {
            return SearchAction::Fail(Status::invalid_argument(String::from_str("top_n must be > 0")));
        }
        match event {
            SearchEvent::Begin => {
                if self.is_empty() {
                    SearchAction::LoadPersisted
                } else {
                    SearchAction::Score(self.score_terms(text))
                }
            },
            SearchEvent::Loaded(loaded) => match self.ensure_loaded(loaded) {
                Ok(_) => SearchAction::Score(self.score_terms(text)),
                Err(error) => match error {
                    VectorError::EmptyStore => SearchAction::Fail(
                        Status::failed_precondition(String::from_str("store not initialized")),
                    ),
                    other => SearchAction::Fail(other.into_status()),
                },
            },
            SearchEvent::Scored(keys) => {
                if keys.len() != self.len() {
                    SearchAction::Fail(
                        Status::internal(String::from_str("one score is expected for each record")),
                    )
                } else {
                    SearchAction::Done(self.ranked(&keys, top_n as usize))
                }
            },
        }
    }
}

} // verus!

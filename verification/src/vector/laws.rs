//! Laws of the service, stated over the steps that its calls allow.

use crate::vector::dataset::{empty_dataset_message, json_string_array, records_of};
use crate::vector::error::{status_of, ErrorModel, StatusCode, StatusModel};
use crate::vector::message::{loaded_message_of, zero_limit_message};
use crate::vector::ranking::{is_ranking, lemma_ranking_unique, ranking_len};
use crate::vector::record::{record_of, RecordModel};
use crate::vector::server::ServerModel;
use crate::vector::service::{
    init_allows, is_search_result, not_initialized, results_in_order, search_allows,
    DatasetReadModel, InitActionModel, InitEventModel, SearchActionModel, SearchEventModel,
    SearchResultModel,
};
use vstd::prelude::*;

verus! {

/// The results of a search are determined by the corpus, the keys and the
/// limit: no two different result lists answer the same search.
pub proof fn lemma_search_result_unique(
    corpus: Seq<RecordModel>,
    keys: Seq<u32>,
    limit: nat,
    x: Seq<SearchResultModel>,
    y: Seq<SearchResultModel>,
)
    requires
        is_search_result(corpus, keys, limit, x),
        is_search_result(corpus, keys, limit, y),
    ensures
        x == y,
{
    let ox = choose|order: Seq<usize>| #[trigger]
        is_ranking(keys, limit, order) && x == results_in_order(corpus, keys, order);
    let oy = choose|order: Seq<usize>| #[trigger]
        is_ranking(keys, limit, order) && y == results_in_order(corpus, keys, order);
    lemma_ranking_unique(keys, limit, ox, oy);
}

/// `result` is the record at position `g` of the corpus, with the key given to
/// that position.
pub open spec fn is_scored_record(
    corpus: Seq<RecordModel>,
    keys: Seq<u32>,
    g: int,
    result: SearchResultModel,
) -> bool {
    &&& 0 <= g < corpus.len()
    &&& result.text == corpus[g].text
    &&& result.embedding == corpus[g].embedding
    &&& result.score == keys[g]
}

/// `result` is some record of the corpus, with its key.
pub open spec fn drawn_from_corpus(
    corpus: Seq<RecordModel>,
    keys: Seq<u32>,
    result: SearchResultModel,
) -> bool {
    exists|g: int| #[trigger] is_scored_record(corpus, keys, g, result)
}

/// `text` is one of the strings of a dataset.
pub open spec fn drawn_from_dataset(texts: Seq<Seq<char>>, text: Seq<char>) -> bool {
    exists|g: int| 0 <= g < texts.len() && #[trigger] texts[g] == text
}

/// A search returns as many results as were asked for, or the whole corpus
/// where that is smaller; every result is a record of the corpus with the key
/// that it was given, and no result has a higher key than one before it.
pub proof fn lemma_search_results_from_corpus(
    corpus: Seq<RecordModel>,
    keys: Seq<u32>,
    limit: nat,
    results: Seq<SearchResultModel>,
)
    requires
        keys.len() == corpus.len(),
        is_search_result(corpus, keys, limit, results),
    ensures
        results.len() == ranking_len(corpus.len(), limit),
        forall|i: int|
            0 <= i < results.len() ==> drawn_from_corpus(corpus, keys, #[trigger] results[i]),
        forall|i: int, j: int|
            0 <= i < j < results.len() ==> (#[trigger] results[i]).score >= (
            #[trigger] results[j]).score,
{
    let order = choose|order: Seq<usize>| #[trigger]
        is_ranking(keys, limit, order) && results == results_in_order(corpus, keys, order);
    assert forall|i: int| 0 <= i < results.len() implies drawn_from_corpus(
        corpus,
        keys,
        #[trigger] results[i],
    ) by {
        let g = order[i] as int;
        assert(is_scored_record(corpus, keys, g, results[i]));
    }
    assert forall|i: int, j: int| 0 <= i < j < results.len() implies (#[trigger] results[i]).score
        >= (#[trigger] results[j]).score by {
        assert(results[i].score == keys[order[i] as int]);
        assert(results[j].score == keys[order[j] as int]);
    }
}

/// After the corpus was seeded from a dataset, a search for as many results as
/// the dataset has strings returns exactly that many, each with the text of a
/// string of the dataset.
pub proof fn lemma_search_after_init_covers_dataset(
    pre: ServerModel,
    data: Seq<char>,
    texts: Seq<Seq<char>>,
    replace: InitActionModel,
    between: ServerModel,
    done: InitActionModel,
    seeded: ServerModel,
    query: Seq<char>,
    keys: Seq<u32>,
    search_action: SearchActionModel,
    post: ServerModel,
)
    requires
        json_string_array(data) == Some(texts),
        0 < texts.len() <= u32::MAX,
        init_allows(
            pre,
            InitEventModel::DatasetRead(DatasetReadModel::Found(data)),
            replace,
            between,
        ),
        init_allows(
            between,
            InitEventModel::Replaced(records_of(texts), Ok(())),
            done,
            seeded,
        ),
        keys.len() == texts.len(),
        search_allows(
            seeded,
            query,
            texts.len() as u32,
            SearchEventModel::Scored(keys),
            search_action,
            post,
        ),
    ensures
        replace == InitActionModel::Replace(records_of(texts)),
        done == InitActionModel::Done(loaded_message_of(texts.len())),
        seeded.corpus == records_of(texts),
        search_action is Done,
        search_action->Done_0.len() == texts.len(),
        forall|i: int|
            0 <= i < texts.len() ==> drawn_from_dataset(
                texts,
                (#[trigger] search_action->Done_0[i]).text,
            ),
{
    let corpus = records_of(texts);
    assert(seeded.corpus == corpus);
    let results = search_action->Done_0;
    lemma_search_results_from_corpus(corpus, keys, texts.len(), results);
    assert forall|i: int| 0 <= i < texts.len() implies drawn_from_dataset(
        texts,
        (#[trigger] results[i]).text,
    ) by {
        assert(drawn_from_corpus(corpus, keys, results[i]));
        let g = choose|g: int| #[trigger] is_scored_record(corpus, keys, g, results[i]);
        assert(corpus[g] == record_of(texts[g]));
        assert(texts[g] == results[i].text);
    }
}

/// A search on an empty corpus asks for the persistent store, and fails with a
/// failed precondition when the store has no records either.
pub proof fn lemma_search_uninitialized_fails(
    pre: ServerModel,
    text: Seq<char>,
    top_n: u32,
    first: SearchActionModel,
    between: ServerModel,
    loaded: Result<Seq<RecordModel>, ErrorModel>,
    second: SearchActionModel,
    post: ServerModel,
)
    requires
        top_n > 0,
        pre.corpus.len() == 0,
        search_allows(pre, text, top_n, SearchEventModel::Begin, first, between),
        loaded == Ok::<Seq<RecordModel>, ErrorModel>(Seq::empty()) || loaded == Err::<
            Seq<RecordModel>,
            ErrorModel,
        >(ErrorModel::EmptyStore),
        search_allows(between, text, top_n, SearchEventModel::Loaded(loaded), second, post),
    ensures
        first == SearchActionModel::LoadPersisted,
        second == SearchActionModel::Fail(not_initialized()),
        second->Fail_0.code == StatusCode::FailedPrecondition,
        post == pre,
{
}

/// Whether the corpus comes back from the persistent store or was just
/// written to it, `Init` ends the same way: with the same corpus, in the same
/// order, and the same message.
pub proof fn lemma_restore_reproduces_seed(
    seeding: ServerModel,
    restoring: ServerModel,
    records: Seq<RecordModel>,
    seed_action: InitActionModel,
    restore_action: InitActionModel,
    seeded: ServerModel,
    restored: ServerModel,
)
    requires
        records.len() > 0,
        init_allows(seeding, InitEventModel::Replaced(records, Ok(())), seed_action, seeded),
        init_allows(restoring, InitEventModel::Loaded(Ok(records)), restore_action, restored),
    ensures
        seeded.corpus == records,
        restored.corpus == records,
        seed_action == restore_action,
        seed_action == InitActionModel::Done(loaded_message_of(records.len())),
{
}

/// An `Init` call whose dataset file is missing, or that has no dataset
/// configured, goes to the persistent store.
pub proof fn lemma_missing_dataset_falls_back(
    pre: ServerModel,
    event: InitEventModel,
    action: InitActionModel,
    post: ServerModel,
)
    requires
        init_allows(pre, event, action, post),
        event == InitEventModel::DatasetRead(DatasetReadModel::Missing) || (event
            == InitEventModel::Begin && pre.dataset_path is None),
    ensures
        action == InitActionModel::LoadPersisted,
        post == pre,
{
}

/// A search for no results fails with an invalid argument and changes
/// nothing, whatever the state of the store and whatever has happened.
pub proof fn lemma_zero_limit_rejected(
    pre: ServerModel,
    text: Seq<char>,
    event: SearchEventModel,
    action: SearchActionModel,
    post: ServerModel,
)
    requires
        search_allows(pre, text, 0, event, action, post),
    ensures
        action == SearchActionModel::Fail(
            StatusModel { code: StatusCode::InvalidArgument, message: zero_limit_message() },
        ),
        post == pre,
{
}

/// Sharding is transparent to a search: on the same corpus every step of a
/// search gives the same action and leaves the same corpus, whatever the
/// number of shards.
pub proof fn lemma_search_sharding_transparent(
    one: ServerModel,
    other: ServerModel,
    text: Seq<char>,
    top_n: u32,
    event: SearchEventModel,
    one_action: SearchActionModel,
    other_action: SearchActionModel,
    one_post: ServerModel,
    other_post: ServerModel,
)
    requires
        one.corpus == other.corpus,
        search_allows(one, text, top_n, event, one_action, one_post),
        search_allows(other, text, top_n, event, other_action, other_post),
    ensures
        one_action == other_action,
        one_post.corpus == other_post.corpus,
        one_post.shard_count == one.shard_count,
        other_post.shard_count == other.shard_count,
{
    if top_n > 0 {
        match event {
            SearchEventModel::Scored(keys) => {
                if keys.len() == one.corpus.len() {
                    lemma_search_result_unique(
                        one.corpus,
                        keys,
                        top_n as nat,
                        one_action->Done_0,
                        other_action->Done_0,
                    );
                }
            },
            _ => {},
        }
    }
}

/// Sharding is transparent to `Init`: with the same dataset path configured,
/// every step gives the same corpus whatever the number of shards, and the
/// same action, except that the message of a dataset that does not parse is
/// not fixed.
pub proof fn lemma_init_sharding_transparent(
    one: ServerModel,
    other: ServerModel,
    event: InitEventModel,
    one_action: InitActionModel,
    other_action: InitActionModel,
    one_post: ServerModel,
    other_post: ServerModel,
)
    requires
        one.corpus == other.corpus,
        one.dataset_path == other.dataset_path,
        init_allows(one, event, one_action, one_post),
        init_allows(other, event, other_action, other_post),
    ensures
        one_post.corpus == other_post.corpus,
        one_post.shard_count == one.shard_count,
        other_post.shard_count == other.shard_count,
        one_action == other_action || (one_action is Fail && other_action is Fail
            && one_action->Fail_0.code == StatusCode::Internal && other_action->Fail_0.code
            == StatusCode::Internal),
{
}

/// A dataset that holds an empty array is refused with a failed precondition.
/// The step asks for nothing to be replaced, so the persistent store stays as
/// it was, and so does the corpus.
pub proof fn lemma_empty_dataset_refused(
    pre: ServerModel,
    data: Seq<char>,
    action: InitActionModel,
    post: ServerModel,
)
    requires
        json_string_array(data) == Some(Seq::<Seq<char>>::empty()),
        init_allows(
            pre,
            InitEventModel::DatasetRead(DatasetReadModel::Found(data)),
            action,
            post,
        ),
    ensures
        action == InitActionModel::Fail(
            StatusModel {
                code: StatusCode::FailedPrecondition,
                message: empty_dataset_message(),
            },
        ),
        post == pre,
{
}

/// A dataset that does not parse is an internal failure, and is never
/// answered by a fall back to the persistent store.
pub proof fn lemma_corrupt_dataset_fails(
    pre: ServerModel,
    data: Seq<char>,
    action: InitActionModel,
    post: ServerModel,
)
    requires
        json_string_array(data) is None,
        init_allows(
            pre,
            InitEventModel::DatasetRead(DatasetReadModel::Found(data)),
            action,
            post,
        ),
    ensures
        action is Fail,
        action->Fail_0.code == StatusCode::Internal,
        post == pre,
{
}

/// Only the end of a call replaces the corpus, and never by nothing: a step
/// of `Init` leaves a loaded corpus loaded and the number of shards as it was.
pub proof fn lemma_init_keeps_loaded(
    pre: ServerModel,
    event: InitEventModel,
    action: InitActionModel,
    post: ServerModel,
)
    requires
        init_allows(pre, event, action, post),
    ensures
        pre.corpus.len() > 0 ==> post.corpus.len() > 0,
        action is Done ==> post.corpus.len() > 0,
        action is Fail ==> post == pre,
        post.shard_count == pre.shard_count,
        post.dataset_path == pre.dataset_path,
{
}

/// A step of a search leaves a loaded corpus loaded, and changes the corpus
/// only when it loads one from the persistent store.
pub proof fn lemma_search_keeps_loaded(
    pre: ServerModel,
    text: Seq<char>,
    top_n: u32,
    event: SearchEventModel,
    action: SearchActionModel,
    post: ServerModel,
)
    requires
        search_allows(pre, text, top_n, event, action, post),
    ensures
        pre.corpus.len() > 0 ==> post.corpus.len() > 0,
        action is Score ==> post.corpus.len() > 0,
        action is Fail ==> post == pre,
        !(event is Loaded) ==> post == pre,
        post.shard_count == pre.shard_count,
        post.dataset_path == pre.dataset_path,
{
}

/// Every failure of a stored or configured kind is surfaced under its class:
/// configuration as an invalid argument, an empty store as a failed
/// precondition, and I/O, serialization and storage failures as internal.
pub proof fn lemma_status_classes(error: ErrorModel)
    ensures
        error is Config ==> status_of(error).code == StatusCode::InvalidArgument,
        error is EmptyStore ==> status_of(error).code == StatusCode::FailedPrecondition,
        (error is Io || error is Serialization || error is Storage) ==> status_of(error).code
            == StatusCode::Internal,
        error is Config ==> status_of(error).message == error->Config_0,
        error is Io ==> status_of(error).message == error->Io_0,
        error is Serialization ==> status_of(error).message == error->Serialization_0,
        error is Storage ==> status_of(error).message == error->Storage_0,
{
}

} // verus!

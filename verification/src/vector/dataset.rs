//! The dataset that seeds the corpus: a JSON array of strings, each of which
//! becomes one record.

use crate::vector::error::{Status, StatusCode, StatusModel};
use crate::vector::record::{record_of, Record, RecordModel};
use crate::vector::shards::records_model;
use vstd::prelude::*;
use vstd::string::StringExecFns;

verus! {

/// The error type of `serde_json`.
#[verifier::external_type_specification]
#[verifier::external_body]
pub struct ExJsonError(serde_json::Error);

/// The strings that a text holds when it is read as a JSON array of strings, or
/// `None` where it is not one.
pub uninterp spec fn json_string_array(data: Seq<char>) -> Option<Seq<Seq<char>>>;

/// The texts of a sequence of strings.
pub open spec fn texts_model(texts: Seq<String>) -> Seq<Seq<char>> {
    texts.map_values(|t: String| t@)
}

/// Calls `serde_json::from_str` to read a text as a JSON array of strings.
///
/// The contract gives the outcome a name and claims that it depends on the text
/// alone: the call succeeds exactly on the texts that hold such an array, and
/// then returns its strings in order.
#[verifier::external_body]
fn parse_string_array(data: &str) -> (parsed: Result<Vec<String>, serde_json::Error>)
    ensures
        match parsed {
            Ok(texts) => json_string_array(data@) == Some(texts_model(texts@)),
            Err(_) => json_string_array(data@) is None,
        },
{
    serde_json::from_str::<Vec<String>>(data)
}

/// Calls `to_string` on a `serde_json::Error` for the message that describes
/// it. Nothing is claimed of the message.
#[verifier::external_body]
fn json_error_message(error: &serde_json::Error) -> (message: String) {
    error.to_string()
}

/// Message with which an empty dataset is refused.
pub open spec fn empty_dataset_message() -> Seq<char> {
    "vector store dataset is empty"@
}

/// The records that the strings of a dataset become.
pub open spec fn records_of(texts: Seq<Seq<char>>) -> Seq<RecordModel> {
    texts.map_values(|t: Seq<char>| record_of(t))
}

/// What a dataset allows for its outcome: a dataset that does not parse is an
/// internal failure, an empty one a failed precondition, and any other gives
/// one record for each of its strings, in order.
pub open spec fn dataset_outcome(
    parsed: Option<Seq<Seq<char>>>,
    outcome: Result<Seq<RecordModel>, StatusModel>,
) -> bool {
    match parsed {
        None => outcome is Err && outcome->Err_0.code == StatusCode::Internal,
        Some(texts) => if texts.len() == 0 {
            outcome == Err::<Seq<RecordModel>, StatusModel>(
                StatusModel {
                    code: StatusCode::FailedPrecondition,
                    message: empty_dataset_message(),
                },
            )
        } else {
            outcome == Ok::<Seq<RecordModel>, StatusModel>(records_of(texts))
        },
    }
}

/// Model of the outcome of reading a dataset.
pub open spec fn outcome_model(outcome: Result<Vec<Record>, Status>) -> Result<
    Seq<RecordModel>,
    StatusModel,
> {
    match outcome {
        Ok(records) => Ok(records_model(records@)),
        Err(status) => Err(status@),
    }
}

/// Embeds every string of a dataset.
pub fn records_from_texts(texts: Vec<String>) -> (records: Vec<Record>)
    ensures
        records_model(records@) == records_of(texts_model(texts@)),
{
    let ghost model = texts_model(texts@);
    let mut records: Vec<Record> = Vec::new();
    let mut i: usize = 0;
    while i < texts.len()
        invariant
            i <= texts.len(),
            model == texts_model(texts@),
            records.len() == i,
            forall|t: int| 0 <= t < i ==> (#[trigger] records[t])@ == record_of(model[t]),
        decreases texts.len() - i,
    {
        let text = texts[i].clone();
        records.push(Record::from_text(text));
        i = i + 1;
    }
    assert(records_model(records@) =~= records_of(model));
    records
}

/// Turns the strings read from a dataset, or the message of the failure to
/// read them, into the records that seed the corpus.
pub fn dataset_from_parsed(parsed: Result<Vec<String>, String>) -> (outcome: Result<
    Vec<Record>,
    Status,
>)
    ensures
        match parsed {
            Ok(texts) => dataset_outcome(Some(texts_model(texts@)), outcome_model(outcome)),
            Err(message) => outcome_model(outcome) == Err::<Seq<RecordModel>, StatusModel>(
                StatusModel { code: StatusCode::Internal, message: message@ },
            ),
        },
{
    match parsed {
        Ok(texts) => {
            if texts.len() == 0 {
                Err(Status::failed_precondition(String::from_str("vector store dataset is empty")))
            } else {
                Ok(records_from_texts(texts))
            }
        },
        Err(message) => Err(Status::internal(message)),
    }
}

/// Reads a dataset: a JSON array of strings, of which each becomes one record
/// with the embedding of its text.
pub fn load_dataset(data: &str) -> (outcome: Result<Vec<Record>, Status>)
    ensures
        dataset_outcome(json_string_array(data@), outcome_model(outcome)),
{
    match parse_string_array(data) {
        Ok(texts) => dataset_from_parsed(Ok(texts)),
        Err(error) => dataset_from_parsed(Err(json_error_message(&error))),
    }
}

} // verus!

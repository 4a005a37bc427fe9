use neoabzu::vector::config::{parse_count, resolve_shard_count, resolve_store_path, Config};
use neoabzu::vector::dataset::{dataset_from_parsed, load_dataset, records_from_texts};
use neoabzu::vector::error::{Status, StatusCode, VectorError};
use neoabzu::vector::message::{decimal_string, loaded_message};
use neoabzu::vector::ranking::rank;
use neoabzu::vector::record::{cosine_terms, embed, CosineTerms, Record};
use neoabzu::vector::server::{clone_records, VectorServer};
use neoabzu::vector::shards::{merge, partition};

fn records(texts: &[&str]) -> Vec<Record> {
    texts.iter().map(|t| Record::from_text(t.to_string())).collect()
}

fn texts_of(records: &[Record]) -> Vec<String> {
    records.iter().map(|r| r.text.clone()).collect()
}

fn config(shards: usize) -> Config {
    Config { shard_count: shards, store_path: "db".to_string(), dataset_path: None }
}

#[test]
fn embed_emits_one_component_per_byte() {
    assert_eq!(embed("alpha"), vec![97, 108, 112, 104, 97]);
    assert_eq!(embed(""), Vec::<u8>::new());
    assert_eq!(embed("\u{e9}"), vec![0xc3, 0xa9]);
    assert_eq!(embed("\u{ff}\u{7f}"), vec![0xc3, 0xbf, 0x7f]);
}

#[test]
fn embedding_is_as_long_as_the_utf8_encoding() {
    for text in ["", "a", "beta", "\u{2640} :: \u{221e}", "na\u{ef}ve"] {
        assert_eq!(embed(text).len(), text.len());
        assert_eq!(embed(text), text.as_bytes());
    }
}

#[test]
fn record_from_text_embeds_the_text() {
    let record = Record::from_text("beta".to_string());
    assert_eq!(record.text, "beta");
    assert_eq!(record.embedding, vec![98, 101, 116, 97]);
    assert_eq!(record.clone(), record);
}

#[test]
fn cosine_terms_are_exact_sums() {
    let terms = cosine_terms(&[1, 2, 3], &[4, 5, 6]);
    assert_eq!(terms, CosineTerms { dot: 32, query_norm_sq: 14, record_norm_sq: 77 });
}

#[test]
fn cosine_terms_truncate_to_the_shorter_embedding() {
    let terms = cosine_terms(&[1, 2, 3], &[4, 5]);
    assert_eq!(terms, CosineTerms { dot: 14, query_norm_sq: 5, record_norm_sq: 41 });
    let terms = cosine_terms(&[4, 5], &[1, 2, 3]);
    assert_eq!(terms, CosineTerms { dot: 14, query_norm_sq: 41, record_norm_sq: 5 });
}

#[test]
fn cosine_terms_of_an_empty_embedding_are_zero() {
    let zero = CosineTerms { dot: 0, query_norm_sq: 0, record_norm_sq: 0 };
    assert_eq!(cosine_terms(&[], &[1, 2, 3]), zero);
    assert_eq!(cosine_terms(&[1, 2, 3], &[]), zero);
    assert_eq!(cosine_terms(&[], &[]), zero);
}

#[test]
fn cosine_terms_do_not_overflow_on_full_bytes() {
    let full = vec![255u8; 100_000];
    let terms = cosine_terms(&full, &full);
    assert_eq!(terms.dot, 100_000 * 65_025);
    assert_eq!(terms.query_norm_sq, 100_000 * 65_025);
    assert_eq!(terms.record_norm_sq, 100_000 * 65_025);
}

#[test]
fn cosine_terms_of_an_embedding_with_itself_coincide() {
    for text in ["alpha", "beta", "x", "\u{2205}"] {
        let e = embed(text);
        let terms = cosine_terms(&e, &e);
        assert_eq!(terms.dot, terms.query_norm_sq);
        assert_eq!(terms.dot, terms.record_norm_sq);
    }
}

#[test]
fn cosine_terms_obey_cauchy_schwarz() {
    let a = embed("inanna");
    let b = embed("ereshkigal");
    let terms = cosine_terms(&a, &b);
    assert!(terms.dot * terms.dot <= terms.query_norm_sq * terms.record_norm_sq);
    let swapped = cosine_terms(&b, &a);
    assert_eq!(swapped.dot, terms.dot);
    assert_eq!(swapped.query_norm_sq, terms.record_norm_sq);
}

#[test]
fn rank_orders_by_descending_key() {
    assert_eq!(rank(&vec![5, 9, 1, 7], 4), vec![1, 3, 0, 2]);
    assert_eq!(rank(&vec![1, 2, 3, 4, 5], 5), vec![4, 3, 2, 1, 0]);
}

#[test]
fn rank_keeps_corpus_order_among_equal_keys() {
    assert_eq!(rank(&vec![5, 9, 5, 1, 9], 5), vec![1, 4, 0, 2, 3]);
    assert_eq!(rank(&vec![0, 0, 0], 2), vec![0, 1]);
}

#[test]
fn rank_cuts_off_after_the_limit() {
    let keys = vec![5, 9, 5, 1, 9, 7];
    assert_eq!(rank(&keys, 0), Vec::<usize>::new());
    assert_eq!(rank(&keys, 1), vec![1]);
    assert_eq!(rank(&keys, 3), vec![1, 4, 5]);
    assert_eq!(rank(&keys, 6), vec![1, 4, 5, 0, 2, 3]);
    assert_eq!(rank(&keys, 100), vec![1, 4, 5, 0, 2, 3]);
    assert_eq!(rank(&Vec::new(), 3), Vec::<usize>::new());
}

#[test]
fn rank_prefixes_agree_with_the_full_ranking() {
    let keys: Vec<u32> = (0..50u32).map(|i| (i * 37 + 11) % 17).collect();
    let full = rank(&keys, keys.len());
    let mut sorted: Vec<usize> = (0..keys.len()).collect();
    sorted.sort_by(|a, b| keys[*b].cmp(&keys[*a]));
    assert_eq!(full, sorted);
    for limit in 0..keys.len() {
        assert_eq!(rank(&keys, limit), full[..limit].to_vec());
    }
}

#[test]
fn rank_sorts_large_corpora_stably() {
    let mut state: u32 = 12345;
    let keys: Vec<u32> = (0..2000)
        .map(|_| {
            state = state.wrapping_mul(1664525).wrapping_add(1013904223);
            (state >> 16) % 64
        })
        .collect();
    let mut sorted: Vec<usize> = (0..keys.len()).collect();
    sorted.sort_by(|a, b| keys[*b].cmp(&keys[*a]));
    for limit in [1usize, 31, 32, 33, 64, 1000, 1999, 2000, 2001, usize::MAX] {
        let expected = sorted[..limit.min(keys.len())].to_vec();
        assert_eq!(rank(&keys, limit), expected, "limit {limit}");
    }
}

#[test]
fn partition_deals_records_round_robin() {
    let corpus = records(&["a", "b", "c", "d", "e"]);
    let shards = partition(&corpus, 2);
    assert_eq!(shards.len(), 2);
    assert_eq!(texts_of(&shards[0]), vec!["a", "c", "e"]);
    assert_eq!(texts_of(&shards[1]), vec!["b", "d"]);
    let shards = partition(&corpus, 3);
    assert_eq!(texts_of(&shards[0]), vec!["a", "d"]);
    assert_eq!(texts_of(&shards[1]), vec!["b", "e"]);
    assert_eq!(texts_of(&shards[2]), vec!["c"]);
}

#[test]
fn partition_with_more_shards_than_records_leaves_shards_empty() {
    let corpus = records(&["a", "b"]);
    let shards = partition(&corpus, 4);
    assert_eq!(shards.len(), 4);
    assert_eq!(texts_of(&shards[0]), vec!["a"]);
    assert_eq!(texts_of(&shards[1]), vec!["b"]);
    assert!(shards[2].is_empty());
    assert!(shards[3].is_empty());
    let none = partition(&Vec::new(), 3);
    assert_eq!(none.len(), 3);
    assert!(none.iter().all(|s| s.is_empty()));
}

#[test]
fn partition_treats_zero_shards_as_one() {
    let corpus = records(&["a", "b", "c"]);
    let shards = partition(&corpus, 0);
    assert_eq!(shards.len(), 1);
    assert_eq!(texts_of(&shards[0]), vec!["a", "b", "c"]);
}

#[test]
fn merge_reads_the_corpus_back() {
    let corpus = records(&["a", "b", "c", "d", "e", "f", "g"]);
    for shard_count in 1..10 {
        let shards = partition(&corpus, shard_count);
        assert_eq!(merge(&shards, corpus.len()), corpus);
    }
}

#[test]
fn server_starts_empty_with_the_configured_shards() {
    let server = VectorServer::new(&config(3));
    assert_eq!(server.shard_count(), 3);
    assert_eq!(server.len(), 0);
    assert!(server.is_empty());
    assert!(server.records().is_empty());
    assert_eq!(server.dataset_path(), None);
    assert_eq!(VectorServer::new(&config(0)).shard_count(), 1);
}

#[test]
fn load_store_assigns_records_by_position() {
    let corpus = records(&["a", "b", "c", "d", "e"]);
    let mut server = VectorServer::new(&config(2));
    server.load_store(&corpus);
    assert_eq!(server.len(), 5);
    assert!(!server.is_empty());
    assert_eq!(texts_of(&server.shard(0).unwrap()), vec!["a", "c", "e"]);
    assert_eq!(texts_of(&server.shard(1).unwrap()), vec!["b", "d"]);
    assert!(server.shard(2).is_none());
    assert_eq!(server.records(), corpus);
    for (position, record) in corpus.iter().enumerate() {
        assert_eq!(server.record_at(position), record);
    }
}

#[test]
fn load_store_replaces_the_corpus_wholesale() {
    let mut server = VectorServer::new(&config(3));
    server.load_store(&records(&["a", "b", "c", "d"]));
    server.load_store(&records(&["x", "y"]));
    assert_eq!(texts_of(&server.records()), vec!["x", "y"]);
    assert_eq!(server.shard_count(), 3);
    assert!(server.shard(2).unwrap().is_empty());
    server.load_store(&Vec::new());
    assert!(server.is_empty());
}

#[test]
fn clone_records_copies_every_record() {
    let corpus = records(&["a", "bc", ""]);
    assert_eq!(clone_records(&corpus), corpus);
}

#[test]
fn parse_count_reads_decimal_digits() {
    assert_eq!(parse_count("4"), Some(4));
    assert_eq!(parse_count("0"), Some(0));
    assert_eq!(parse_count("007"), Some(7));
    assert_eq!(parse_count("+12"), Some(12));
    assert_eq!(parse_count("1234567890"), Some(1_234_567_890));
}

#[test]
fn parse_count_refuses_what_is_not_a_count() {
    for text in ["", "+", "-1", " 4", "4 ", "4x", "abc", "1_000", "++1", "1.5", "\u{664}"] {
        assert_eq!(parse_count(text), None, "{text:?}");
    }
}

#[test]
fn parse_count_agrees_with_the_standard_parser_at_the_limit() {
    let max = usize::MAX.to_string();
    assert_eq!(parse_count(&max), Some(usize::MAX));
    let over = format!("{max}0");
    assert_eq!(parse_count(&over), None);
    let mut next = max.clone().into_bytes();
    let last = next.len() - 1;
    next[last] += 1;
    let next = String::from_utf8(next).unwrap();
    assert_eq!(parse_count(&next), next.parse::<usize>().ok());
    assert_eq!(parse_count(&next), None);
}

#[test]
fn shard_count_defaults_to_one() {
    assert_eq!(resolve_shard_count(None), 1);
    assert_eq!(resolve_shard_count(Some("0")), 1);
    assert_eq!(resolve_shard_count(Some("-3")), 1);
    assert_eq!(resolve_shard_count(Some("many")), 1);
    assert_eq!(resolve_shard_count(Some("")), 1);
    assert_eq!(resolve_shard_count(Some("3")), 3);
    assert_eq!(resolve_shard_count(Some("+16")), 16);
}

#[test]
fn store_path_defaults_and_refuses_the_empty_path() {
    assert_eq!(resolve_store_path(None), Ok("neoabzu-vector.db".to_string()));
    assert_eq!(resolve_store_path(Some("data/db".to_string())), Ok("data/db".to_string()));
    assert_eq!(
        resolve_store_path(Some(String::new())),
        Err(VectorError::Config("NEOABZU_VECTOR_DB must not be empty".to_string()))
    );
}

#[test]
fn config_resolves_every_value() {
    let resolved = Config::resolve(Some("4"), Some("db".to_string()), Some("set.json".to_string()));
    assert_eq!(
        resolved,
        Ok(Config {
            shard_count: 4,
            store_path: "db".to_string(),
            dataset_path: Some("set.json".to_string()),
        })
    );
    let defaults = Config::resolve(None, None, None).unwrap();
    assert_eq!(defaults.shard_count, 1);
    assert_eq!(defaults.store_path, "neoabzu-vector.db");
    assert_eq!(defaults.dataset_path, None);
    let refused = Config::resolve(Some("4"), Some(String::new()), None);
    assert_eq!(
        refused.unwrap_err().into_status(),
        Status {
            code: StatusCode::InvalidArgument,
            message: "NEOABZU_VECTOR_DB must not be empty".to_string(),
        }
    );
}

#[test]
fn errors_map_onto_status_classes() {
    let status = VectorError::Config("bad".to_string()).into_status();
    assert_eq!(status, Status { code: StatusCode::InvalidArgument, message: "bad".to_string() });
    let status = VectorError::EmptyStore.into_status();
    assert_eq!(
        status,
        Status {
            code: StatusCode::FailedPrecondition,
            message: "vector store is empty".to_string(),
        }
    );
    let status = VectorError::Io("denied".to_string()).into_status();
    assert_eq!(status, Status { code: StatusCode::Internal, message: "denied".to_string() });
    let status = VectorError::Serialization("eof".to_string()).into_status();
    assert_eq!(status, Status { code: StatusCode::Internal, message: "eof".to_string() });
    let status = VectorError::Storage("corrupt".to_string()).into_status();
    assert_eq!(status, Status { code: StatusCode::Internal, message: "corrupt".to_string() });
}

#[test]
fn status_constructors_set_the_class() {
    assert_eq!(Status::invalid_argument("a".to_string()).code, StatusCode::InvalidArgument);
    assert_eq!(Status::failed_precondition("b".to_string()).code, StatusCode::FailedPrecondition);
    assert_eq!(Status::internal("c".to_string()).code, StatusCode::Internal);
    assert_eq!(Status::internal("c".to_string()).message, "c");
}

#[test]
fn errors_describe_themselves() {
    assert_eq!(VectorError::Config("bad".to_string()).describe(), "configuration error: bad");
    assert_eq!(VectorError::EmptyStore.describe(), "persistent store is empty");
    assert_eq!(VectorError::Io("denied".to_string()).describe(), "I/O error: denied");
    assert_eq!(
        VectorError::Serialization("eof".to_string()).describe(),
        "serialization error: eof"
    );
    assert_eq!(VectorError::Storage("corrupt".to_string()).describe(), "storage error: corrupt");
}

#[test]
fn decimal_string_writes_numbers() {
    for n in [0usize, 1, 9, 10, 11, 99, 100, 101, 12345, 1_000_000, usize::MAX] {
        assert_eq!(decimal_string(n), n.to_string());
    }
}

#[test]
fn loaded_message_reports_the_count() {
    assert_eq!(loaded_message(2), "loaded 2");
    assert_eq!(loaded_message(0), "loaded 0");
    assert_eq!(loaded_message(1500), "loaded 1500");
}

#[test]
fn dataset_becomes_one_record_per_string() {
    let loaded = load_dataset("[\"alpha\", \"beta\"]").unwrap();
    assert_eq!(loaded, records(&["alpha", "beta"]));
    assert_eq!(loaded[0].embedding, vec![97, 108, 112, 104, 97]);
    let loaded = load_dataset(" [ \"a\\n\" , \"\\u00e9\", \"\" ] ").unwrap();
    assert_eq!(texts_of(&loaded), vec!["a\n", "\u{e9}", ""]);
    assert_eq!(loaded[1].embedding, vec![0xc3, 0xa9]);
    assert!(loaded[2].embedding.is_empty());
}

#[test]
fn dataset_keeps_duplicates_and_order() {
    let loaded = load_dataset("[\"b\", \"a\", \"b\"]").unwrap();
    assert_eq!(texts_of(&loaded), vec!["b", "a", "b"]);
}

#[test]
fn empty_dataset_is_a_failed_precondition() {
    for data in ["[]", " [ ] \n"] {
        assert_eq!(
            load_dataset(data),
            Err(Status {
                code: StatusCode::FailedPrecondition,
                message: "vector store dataset is empty".to_string(),
            })
        );
    }
}

#[test]
fn malformed_dataset_is_an_internal_failure() {
    for data in ["", "not json", "[\"a\"", "[1, 2]", "{\"a\": \"b\"}", "\"alpha\"", "[\"a\"] x"] {
        let status = load_dataset(data).unwrap_err();
        assert_eq!(status.code, StatusCode::Internal, "{data:?}");
        assert!(!status.message.is_empty());
    }
    let status = load_dataset("[\"a\"").unwrap_err();
    assert_eq!(status.message, "EOF while parsing a list at line 1 column 4");
}

#[test]
fn dataset_from_parsed_handles_each_outcome() {
    let parsed = Ok(vec!["x".to_string(), "yz".to_string()]);
    assert_eq!(dataset_from_parsed(parsed), Ok(records(&["x", "yz"])));
    assert_eq!(
        dataset_from_parsed(Ok(Vec::new())),
        Err(Status {
            code: StatusCode::FailedPrecondition,
            message: "vector store dataset is empty".to_string(),
        })
    );
    assert_eq!(
        dataset_from_parsed(Err("broken".to_string())),
        Err(Status { code: StatusCode::Internal, message: "broken".to_string() })
    );
}

#[test]
fn records_from_texts_embeds_each_text() {
    let texts = vec!["alpha".to_string(), String::new()];
    assert_eq!(records_from_texts(texts), records(&["alpha", ""]));
}

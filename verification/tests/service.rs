use neoabzu::vector::config::Config;
use neoabzu::vector::error::{Status, StatusCode, VectorError};
use neoabzu::vector::record::{embed, CosineTerms, Record};
use neoabzu::vector::server::VectorServer;
use neoabzu::vector::service::{
    load_from_persistence, DatasetRead, InitAction, InitEvent, SearchAction, SearchEvent,
    SearchResult,
};

/// Stand-in for the world outside the service: a dataset file and a
/// persistent store that outlives a server.
struct World {
    dataset: DatasetRead,
    persisted: Vec<Record>,
    store_failure: Option<VectorError>,
    replaced: usize,
}

impl World {
    fn new() -> World {
        World { dataset: DatasetRead::Missing, persisted: Vec::new(), store_failure: None, replaced: 0 }
    }

    fn with_dataset(data: &str) -> World {
        let mut world = World::new();
        world.dataset = DatasetRead::Found(data.to_string());
        world
    }

    fn read_dataset(&self) -> DatasetRead {
        match &self.dataset {
            DatasetRead::Found(data) => DatasetRead::Found(data.clone()),
            DatasetRead::Missing => DatasetRead::Missing,
            DatasetRead::Failed(message) => DatasetRead::Failed(message.clone()),
        }
    }

    fn load(&self) -> Result<Vec<Record>, VectorError> {
        match &self.store_failure {
            Some(error) => Err(error.clone()),
            None => Ok(self.persisted.clone()),
        }
    }

    fn replace(&mut self, records: &[Record]) -> Result<(), VectorError> {
        match &self.store_failure {
            Some(error) => Err(error.clone()),
            None => {
                self.persisted = records.to_vec();
                self.replaced += 1;
                Ok(())
            }
        }
    }
}

fn server(shards: usize, dataset_path: Option<&str>) -> VectorServer {
    VectorServer::new(&Config {
        shard_count: shards,
        store_path: "db".to_string(),
        dataset_path: dataset_path.map(|p| p.to_string()),
    })
}

fn score(terms: &CosineTerms) -> f32 {
    let scale = 65025.0f32;
    let dot = terms.dot as f32 / scale;
    let query = (terms.query_norm_sq as f32 / scale).sqrt();
    let record = (terms.record_norm_sq as f32 / scale).sqrt();
    dot / (query * record + f32::EPSILON)
}

fn init(server: &mut VectorServer, world: &mut World) -> Result<String, Status> {
    let mut action = server.init(InitEvent::Begin);
    loop {
        action = match action {
            InitAction::ReadDataset(_) => server.init(InitEvent::DatasetRead(world.read_dataset())),
            InitAction::Replace(records) => {
                let outcome = world.replace(&records);
                server.init(InitEvent::Replaced(records, outcome))
            }
            InitAction::LoadPersisted => server.init(InitEvent::Loaded(world.load())),
            InitAction::Done(message) => return Ok(message),
            InitAction::Fail(status) => return Err(status),
        };
    }
}

fn search(
    server: &mut VectorServer,
    world: &World,
    text: &str,
    top_n: u32,
) -> Result<Vec<SearchResult>, Status> {
    let mut action = server.search(text, top_n, SearchEvent::Begin);
    loop {
        action = match action {
            SearchAction::LoadPersisted => server.search(text, top_n, SearchEvent::Loaded(world.load())),
            SearchAction::Score(terms) => {
                let keys = terms.iter().map(|t| score(t).to_bits()).collect();
                server.search(text, top_n, SearchEvent::Scored(keys))
            }
            SearchAction::Done(results) => return Ok(results),
            SearchAction::Fail(status) => return Err(status),
        };
    }
}

fn texts(results: &[SearchResult]) -> Vec<String> {
    results.iter().map(|r| r.text.clone()).collect()
}

#[test]
fn init_and_search() {
    let mut world = World::with_dataset("[\"alpha\", \"beta\"]");
    let mut server = server(1, Some("store.json"));

    assert!(search(&mut server, &world, "alpha", 1).is_err());

    let message = init(&mut server, &mut world).unwrap();
    assert!(message.contains("loaded"));

    let results = search(&mut server, &world, "alpha", 1).unwrap();
    assert_eq!(results[0].text, "alpha");
}

#[test]
fn init_falls_back_to_persistent_store() {
    let mut world = World::with_dataset("[\"alpha\", \"beta\"]");
    let mut first = server(1, Some("store.json"));
    init(&mut first, &mut world).unwrap();
    drop(first);

    world.dataset = DatasetRead::Missing;
    let mut second = server(1, Some("store.json"));
    let message = init(&mut second, &mut world).unwrap();
    assert!(message.contains("loaded 2"));

    let results = search(&mut second, &world, "beta", 1).unwrap();
    assert_eq!(results[0].text, "beta");
}

#[test]
fn search_for_everything_returns_the_whole_dataset() {
    let mut world = World::with_dataset("[\"alpha\", \"beta\", \"gamma\", \"delta\"]");
    let mut server = server(3, Some("store.json"));
    assert_eq!(init(&mut server, &mut world).unwrap(), "loaded 4");
    let results = search(&mut server, &world, "", 4).unwrap();
    assert_eq!(results.len(), 4);
    let mut found = texts(&results);
    found.sort();
    assert_eq!(found, vec!["alpha", "beta", "delta", "gamma"]);
    assert_eq!(texts(&results), vec!["alpha", "beta", "gamma", "delta"]);
    assert!(results.iter().all(|r| f32::from_bits(r.score) == 0.0));
}

#[test]
fn search_before_init_is_a_failed_precondition() {
    let world = World::new();
    let mut server = server(2, None);
    let status = search(&mut server, &world, "alpha", 1).unwrap_err();
    assert_eq!(
        status,
        Status { code: StatusCode::FailedPrecondition, message: "store not initialized".to_string() }
    );
    assert!(server.is_empty());
}

#[test]
fn search_before_init_reports_an_empty_store_as_uninitialized() {
    let mut world = World::new();
    world.store_failure = Some(VectorError::EmptyStore);
    let mut server = server(1, None);
    let status = search(&mut server, &world, "alpha", 1).unwrap_err();
    assert_eq!(status.code, StatusCode::FailedPrecondition);
    assert_eq!(status.message, "store not initialized");
}

#[test]
fn search_surfaces_storage_failures_unchanged() {
    let mut world = World::new();
    world.store_failure = Some(VectorError::Storage("tree is corrupt".to_string()));
    let mut server = server(1, None);
    let status = search(&mut server, &world, "alpha", 1).unwrap_err();
    assert_eq!(status, Status { code: StatusCode::Internal, message: "tree is corrupt".to_string() });
    world.store_failure = Some(VectorError::Serialization("bad entry".to_string()));
    let status = search(&mut server, &world, "alpha", 1).unwrap_err();
    assert_eq!(status, Status { code: StatusCode::Internal, message: "bad entry".to_string() });
}

#[test]
fn search_loads_lazily_from_the_persistent_store() {
    let mut world = World::new();
    world.persisted = vec![
        Record::from_text("alpha".to_string()),
        Record::from_text("beta".to_string()),
    ];
    let mut server = server(2, None);
    assert!(server.is_empty());
    let results = search(&mut server, &world, "beta", 1).unwrap();
    assert_eq!(results[0].text, "beta");
    assert_eq!(server.len(), 2);
}

#[test]
fn persistence_round_trip_reproduces_the_dataset() {
    let mut world = World::with_dataset("[\"enki\", \"enlil\", \"inanna\", \"utu\", \"nanna\"]");
    let mut first = server(2, Some("store.json"));
    assert_eq!(init(&mut first, &mut world).unwrap(), "loaded 5");
    let seeded = first.records();
    drop(first);

    world.dataset = DatasetRead::Missing;
    let mut second = server(2, Some("store.json"));
    assert_eq!(init(&mut second, &mut world).unwrap(), "loaded 5");
    assert_eq!(second.records(), seeded);
    let restored: Vec<String> = second.records().into_iter().map(|r| r.text).collect();
    assert_eq!(restored, vec!["enki", "enlil", "inanna", "utu", "nanna"]);
}

#[test]
fn search_with_zero_limit_is_an_invalid_argument() {
    let expected =
        Status { code: StatusCode::InvalidArgument, message: "top_n must be > 0".to_string() };
    let mut world = World::with_dataset("[\"alpha\", \"beta\"]");
    let mut server = server(2, Some("store.json"));
    assert_eq!(search(&mut server, &world, "alpha", 0).unwrap_err(), expected);
    assert!(server.is_empty());
    init(&mut server, &mut world).unwrap();
    assert_eq!(search(&mut server, &world, "alpha", 0).unwrap_err(), expected);
    assert_eq!(server.len(), 2);
    for event in [
        SearchEvent::Begin,
        SearchEvent::Loaded(Ok(vec![Record::from_text("x".to_string())])),
        SearchEvent::Loaded(Err(VectorError::EmptyStore)),
        SearchEvent::Scored(vec![1, 2]),
    ] {
        match server.search("alpha", 0, event) {
            SearchAction::Fail(status) => assert_eq!(status, expected),
            other => panic!("unexpected action {other:?}"),
        }
        assert_eq!(server.len(), 2);
    }
}

#[test]
fn self_match_scores_one() {
    let mut world = World::with_dataset("[\"alpha\",\"beta\"]");
    let mut server = server(1, Some("store.json"));
    init(&mut server, &mut world).unwrap();
    let results = search(&mut server, &world, "alpha", 1).unwrap();
    assert_eq!(results.len(), 1);
    assert_eq!(results[0].text, "alpha");
    assert_eq!(results[0].embedding, embed("alpha"));
    let score = f32::from_bits(results[0].score);
    assert!((score - 1.0).abs() < 1e-5, "{score}");
    let components: Vec<f32> = results[0].embedding.iter().map(|b| *b as f32 / 255.0).collect();
    assert_eq!(components[0], 97.0 / 255.0);
}

#[test]
fn sharding_is_transparent_to_search() {
    let dataset = "[\"alpha\", \"beta\", \"gamma\", \"delta\", \"al\", \"alp\", \"\", \"alpha\"]";
    let queries = ["alpha", "", "beta", "zzz", "al", "gamma delta"];
    let mut baseline: Vec<Vec<Vec<SearchResult>>> = Vec::new();
    for shards in [1usize, 2, 3, 5, 8, 13] {
        let mut world = World::with_dataset(dataset);
        let mut server = server(shards, Some("store.json"));
        assert_eq!(init(&mut server, &mut world).unwrap(), "loaded 8");
        assert_eq!(server.shard_count(), shards);
        let mut answers = Vec::new();
        for query in queries {
            for top_n in [1u32, 3, 8, 20] {
                answers.push(search(&mut server, &world, query, top_n).unwrap());
            }
        }
        baseline.push(answers);
    }
    for answers in &baseline[1..] {
        assert_eq!(answers, &baseline[0]);
    }
}

#[test]
fn empty_dataset_fails_and_leaves_the_store_untouched() {
    let mut world = World::with_dataset("[\"alpha\", \"beta\"]");
    let mut server = server(2, Some("store.json"));
    init(&mut server, &mut world).unwrap();
    let persisted = world.persisted.clone();

    world.dataset = DatasetRead::Found("[]".to_string());
    let status = init(&mut server, &mut world).unwrap_err();
    assert_eq!(status.code, StatusCode::FailedPrecondition);
    assert!(status.message.contains("dataset is empty"));
    assert_eq!(world.persisted, persisted);
    assert_eq!(world.replaced, 1);
    assert_eq!(server.records(), persisted);
}

#[test]
fn corrupt_dataset_does_not_fall_back() {
    let mut world = World::with_dataset("[\"alpha\"]");
    let mut server = server(1, Some("store.json"));
    init(&mut server, &mut world).unwrap();

    world.dataset = DatasetRead::Found("[\"alpha\", ".to_string());
    let status = init(&mut server, &mut world).unwrap_err();
    assert_eq!(status.code, StatusCode::Internal);
    assert_eq!(world.replaced, 1);
    assert_eq!(server.len(), 1);
}

#[test]
fn unreadable_dataset_is_an_internal_failure() {
    let mut world = World::new();
    world.persisted = vec![Record::from_text("alpha".to_string())];
    world.dataset = DatasetRead::Failed("permission denied".to_string());
    let mut server = server(1, Some("store.json"));
    let status = init(&mut server, &mut world).unwrap_err();
    assert_eq!(status, Status { code: StatusCode::Internal, message: "permission denied".to_string() });
    assert!(server.is_empty());
}

#[test]
fn init_without_dataset_path_reads_the_persistent_store() {
    let mut world = World::with_dataset("[\"ignored\"]");
    world.persisted = vec![Record::from_text("kept".to_string())];
    let mut server = server(4, None);
    assert!(matches!(server.init(InitEvent::Begin), InitAction::LoadPersisted));
    assert_eq!(init(&mut server, &mut world).unwrap(), "loaded 1");
    assert_eq!(server.records(), world.persisted);
    assert_eq!(world.replaced, 0);
}

#[test]
fn init_with_dataset_path_asks_for_the_file() {
    let mut server = server(1, Some("data/store.json"));
    match server.init(InitEvent::Begin) {
        InitAction::ReadDataset(path) => assert_eq!(path, "data/store.json"),
        other => panic!("unexpected action {other:?}"),
    }
}

#[test]
fn init_on_an_empty_store_fails() {
    let mut world = World::new();
    let mut server = server(1, None);
    let status = init(&mut server, &mut world).unwrap_err();
    assert_eq!(
        status,
        Status { code: StatusCode::FailedPrecondition, message: "vector store is empty".to_string() }
    );
    let mut server = self::server(1, Some("store.json"));
    let status = init(&mut server, &mut world).unwrap_err();
    assert_eq!(status.code, StatusCode::FailedPrecondition);
    assert_eq!(status.message, "vector store is empty");
}

#[test]
fn init_surfaces_store_failures() {
    let mut world = World::with_dataset("[\"alpha\"]");
    world.store_failure = Some(VectorError::Storage("disk full".to_string()));
    let mut server = server(1, Some("store.json"));
    let status = init(&mut server, &mut world).unwrap_err();
    assert_eq!(status, Status { code: StatusCode::Internal, message: "disk full".to_string() });
    assert!(server.is_empty());

    world.dataset = DatasetRead::Missing;
    world.store_failure = Some(VectorError::Io("unreadable".to_string()));
    let status = init(&mut server, &mut world).unwrap_err();
    assert_eq!(status, Status { code: StatusCode::Internal, message: "unreadable".to_string() });
    world.store_failure = Some(VectorError::Config("bad path".to_string()));
    let status = init(&mut server, &mut world).unwrap_err();
    assert_eq!(status.code, StatusCode::InvalidArgument);
}

#[test]
fn init_replaces_the_store_before_loading() {
    let mut server = server(2, Some("store.json"));
    let found = DatasetRead::Found("[\"a\", \"b\", \"c\"]".to_string());
    let records = match server.init(InitEvent::DatasetRead(found)) {
        InitAction::Replace(records) => records,
        other => panic!("unexpected action {other:?}"),
    };
    assert!(server.is_empty());
    assert_eq!(records.len(), 3);
    assert_eq!(records[2], Record::from_text("c".to_string()));
    match server.init(InitEvent::Replaced(records, Ok(()))) {
        InitAction::Done(message) => assert_eq!(message, "loaded 3"),
        other => panic!("unexpected action {other:?}"),
    }
    assert_eq!(server.len(), 3);
}

#[test]
fn init_twice_replaces_the_corpus() {
    let mut world = World::with_dataset("[\"alpha\", \"beta\", \"gamma\"]");
    let mut server = server(2, Some("store.json"));
    init(&mut server, &mut world).unwrap();
    world.dataset = DatasetRead::Found("[\"delta\"]".to_string());
    assert_eq!(init(&mut server, &mut world).unwrap(), "loaded 1");
    assert_eq!(server.len(), 1);
    let results = search(&mut server, &world, "alpha", 5).unwrap();
    assert_eq!(texts(&results), vec!["delta"]);
    assert_eq!(world.persisted.len(), 1);
}

#[test]
fn search_ranks_by_descending_score() {
    let mut world = World::with_dataset("[\"zzzz\", \"alph\", \"alpha\", \"beta\"]");
    let mut server = server(3, Some("store.json"));
    init(&mut server, &mut world).unwrap();
    let results = search(&mut server, &world, "alpha", 4).unwrap();
    assert_eq!(results[0].text, "alpha");
    for pair in results.windows(2) {
        assert!(f32::from_bits(pair[0].score) >= f32::from_bits(pair[1].score));
    }
    let top_two = search(&mut server, &world, "alpha", 2).unwrap();
    assert_eq!(top_two.as_slice(), &results[..2]);
}

#[test]
fn search_truncates_to_the_shorter_embedding() {
    let mut world = World::with_dataset("[\"alphabet\", \"b\"]");
    let mut server = server(1, Some("store.json"));
    init(&mut server, &mut world).unwrap();
    match server.search("alpha", 2, SearchEvent::Begin) {
        SearchAction::Score(terms) => {
            assert_eq!(terms.len(), 2);
            assert_eq!(terms[0].dot, terms[0].query_norm_sq);
            assert_eq!(terms[0].dot, terms[0].record_norm_sq);
            assert_eq!(terms[1], CosineTerms { dot: 97 * 98, query_norm_sq: 97 * 97, record_norm_sq: 98 * 98 });
        }
        other => panic!("unexpected action {other:?}"),
    }
    let results = search(&mut server, &world, "alpha", 2).unwrap();
    assert!(results.iter().all(|r| (f32::from_bits(r.score) - 1.0).abs() < 1e-5));
    assert_eq!(texts(&results), vec!["alphabet", "b"]);
}

#[test]
fn search_refuses_a_scoring_of_the_wrong_length() {
    let mut world = World::with_dataset("[\"alpha\", \"beta\"]");
    let mut server = server(1, Some("store.json"));
    init(&mut server, &mut world).unwrap();
    for keys in [vec![], vec![1], vec![1, 2, 3]] {
        match server.search("alpha", 1, SearchEvent::Scored(keys)) {
            SearchAction::Fail(status) => {
                assert_eq!(status.code, StatusCode::Internal);
                assert_eq!(status.message, "one score is expected for each record");
            }
            other => panic!("unexpected action {other:?}"),
        }
    }
}

#[test]
fn score_terms_and_ranked_agree_with_the_steps() {
    let mut world = World::with_dataset("[\"alpha\", \"beta\", \"gamma\"]");
    let mut server = server(2, Some("store.json"));
    init(&mut server, &mut world).unwrap();
    let terms = server.score_terms("beta");
    assert_eq!(terms.len(), 3);
    let keys: Vec<u32> = terms.iter().map(|t| score(t).to_bits()).collect();
    let ranked = server.ranked(&keys, 2);
    assert_eq!(ranked, search(&mut server, &world, "beta", 2).unwrap());
    assert_eq!(ranked[0].text, "beta");
    assert_eq!(ranked[0].score, keys[1]);
}

#[test]
fn load_from_persistence_reports_an_empty_store() {
    assert_eq!(load_from_persistence(Ok(Vec::new())), Err(VectorError::EmptyStore));
    let records = vec![Record::from_text("alpha".to_string())];
    assert_eq!(load_from_persistence(Ok(records.clone())), Ok(records));
    assert_eq!(
        load_from_persistence(Err(VectorError::Storage("broken".to_string()))),
        Err(VectorError::Storage("broken".to_string()))
    );
    assert_eq!(load_from_persistence(Err(VectorError::EmptyStore)), Err(VectorError::EmptyStore));
}

#[test]
fn ensure_loaded_fills_an_empty_corpus_only() {
    let alpha = vec![Record::from_text("alpha".to_string())];
    let beta = vec![Record::from_text("beta".to_string()), Record::from_text("b".to_string())];
    let mut server = server(2, None);
    assert_eq!(server.ensure_loaded(Ok(Vec::new())), Err(VectorError::EmptyStore));
    assert!(server.is_empty());
    assert_eq!(
        server.ensure_loaded(Err(VectorError::Io("gone".to_string()))),
        Err(VectorError::Io("gone".to_string()))
    );
    assert!(server.is_empty());
    assert_eq!(server.ensure_loaded(Ok(alpha.clone())), Ok(()));
    assert_eq!(server.records(), alpha);
    assert_eq!(server.ensure_loaded(Ok(beta)), Ok(()));
    assert_eq!(server.records(), alpha);
    assert_eq!(server.ensure_loaded(Err(VectorError::EmptyStore)), Ok(()));
    assert_eq!(server.records(), alpha);
}

#[test]
fn search_keeps_a_loaded_corpus_when_the_store_is_read_again() {
    let mut world = World::with_dataset("[\"alpha\", \"beta\"]");
    let mut server = server(2, Some("store.json"));
    init(&mut server, &mut world).unwrap();
    let other = vec![Record::from_text("gamma".to_string())];
    match server.search("alpha", 1, SearchEvent::Loaded(Ok(other))) {
        SearchAction::Score(terms) => assert_eq!(terms.len(), 2),
        other => panic!("unexpected action {other:?}"),
    }
    assert_eq!(server.len(), 2);
    assert_eq!(server.records(), world.persisted);
}

#[test]
fn init_reloads_even_when_the_corpus_is_loaded() {
    let mut world = World::with_dataset("[\"alpha\", \"beta\"]");
    let mut server = server(2, Some("store.json"));
    init(&mut server, &mut world).unwrap();
    let other = vec![Record::from_text("gamma".to_string())];
    match server.init(InitEvent::Loaded(Ok(other.clone()))) {
        InitAction::Done(message) => assert_eq!(message, "loaded 1"),
        other => panic!("unexpected action {other:?}"),
    }
    assert_eq!(server.records(), other);
    match server.init(InitEvent::Loaded(Ok(Vec::new()))) {
        InitAction::Fail(status) => {
            assert_eq!(status.code, StatusCode::FailedPrecondition);
            assert_eq!(status.message, "vector store is empty");
        }
        other => panic!("unexpected action {other:?}"),
    }
    assert_eq!(server.records(), other);
}

use near_sdk::test_utils::{accounts, VMContextBuilder};
use near_sdk::AccountId;
use semantic_guard::contract::{
    ContractMetadata, SemanticGuardContract, NINETEEN_TWENTIETHS_BITS, THREE_QUARTERS_BITS,
};
use semantic_guard::identifier::generate_analysis_id;
use semantic_guard::records::{
    AnalysisMetadata, DistanceEntry, MessageEmbedding, OutlierDistance, SearchResult,
    SemanticAnalysisResult, SemanticGuardRecord, SemanticOutlier,
};
use semantic_guard::scalar::Double;
use semantic_guard::severity::{OutlierSeverity, VerificationStatus};

fn double(x: f64) -> Double {
    Double::from_bits(x.to_bits())
}

fn get_context(predecessor_account_id: AccountId) -> VMContextBuilder {
    let mut builder = VMContextBuilder::new();
    builder
        .current_account_id(accounts(0))
        .signer_account_id(predecessor_account_id.clone())
        .predecessor_account_id(predecessor_account_id);
    builder
}

fn enter(context: near_sdk::VMContext) {
    near_sdk::env::set_blockchain_interface(near_sdk::MockedBlockchain::new(
        context,
        near_sdk::test_vm_config(),
        near_sdk::RuntimeFeesConfig::test(),
        Vec::new(),
        near_sdk::mock::with_mocked_blockchain(|b| b.take_storage()),
        Default::default(),
        None,
    ));
}

fn sample_results() -> Vec<SearchResult> {
    vec![SearchResult {
        id: "A".to_string(),
        title: "Test Result".to_string(),
        snippet: "Test snippet".to_string(),
        url: "https://test.com".to_string(),
        rank: 1,
        source_type: "scientific".to_string(),
        semantic_hash: "hash123".to_string(),
        trustworthiness_score: double(0.9),
    }]
}

fn sample_analysis() -> SemanticAnalysisResult {
    SemanticAnalysisResult {
        center_of_gravity: "A".to_string(),
        outliers: vec![],
        distance_matrix: vec![],
        embeddings: vec![],
        threshold_used: double(0.75),
        processing_time_ms: 100,
        consensus_score: double(0.95),
    }
}

fn sample_metadata() -> AnalysisMetadata {
    AnalysisMetadata {
        model_version: "1.0".to_string(),
        algorithm_version: "1.0".to_string(),
        processing_node: "node1".to_string(),
        verification_count: 0,
        dispute_count: 0,
        consensus_reached: false,
    }
}

fn outlier(result_id: &str, severity: OutlierSeverity) -> SemanticOutlier {
    SemanticOutlier {
        result_id: result_id.to_string(),
        reason: "far from the centre".to_string(),
        severity,
        max_distance: double(1.5),
        source_type: "web".to_string(),
        verification_status: VerificationStatus::Pending,
        outlier_distances: vec![OutlierDistance {
            to_result: "A".to_string(),
            distance: double(1.5),
            threshold_exceeded_by: double(0.75),
        }],
    }
}

fn analysis_with(outliers: Vec<SemanticOutlier>) -> SemanticAnalysisResult {
    SemanticAnalysisResult {
        center_of_gravity: "A".to_string(),
        outliers,
        distance_matrix: vec![DistanceEntry { result_id: "B".to_string(), distance: double(1.5) }],
        embeddings: vec![MessageEmbedding {
            vector: vec![double(0.25), double(-2.0)],
            model_name: "mini".to_string(),
            embedding_hash: "eh".to_string(),
            semantic_hash: "sh".to_string(),
            timestamp: 9,
        }],
        threshold_used: double(0.75),
        processing_time_ms: 12,
        consensus_score: double(0.5),
    }
}

fn record(
    contract: &mut SemanticGuardContract,
    query: &str,
    outliers: Vec<SemanticOutlier>,
    timestamp: u64,
) -> String {
    contract.record_analysis(
        query.to_string(),
        sample_results(),
        analysis_with(outliers),
        sample_metadata(),
        "alice".to_string(),
        timestamp,
        3,
    )
}

fn queries(records: &[SemanticGuardRecord]) -> Vec<String> {
    records.iter().map(|r| r.query.clone()).collect()
}

#[test]
fn test_semantic_analysis_storage() {
    let context = get_context(accounts(1));
    enter(context.build());

    let mut contract = SemanticGuardContract::new();

    let results = vec![SearchResult {
        id: "A".to_string(),
        title: "Test Result".to_string(),
        snippet: "Test snippet".to_string(),
        url: "https://test.com".to_string(),
        rank: 1,
        source_type: "scientific".to_string(),
        semantic_hash: "hash123".to_string(),
        trustworthiness_score: double(0.9),
    }];

    let analysis = SemanticAnalysisResult {
        center_of_gravity: "A".to_string(),
        outliers: vec![],
        distance_matrix: vec![],
        embeddings: vec![],
        threshold_used: double(0.75),
        processing_time_ms: 100,
        consensus_score: double(0.95),
    };

    let metadata = AnalysisMetadata {
        model_version: "1.0".to_string(),
        algorithm_version: "1.0".to_string(),
        processing_node: "node1".to_string(),
        verification_count: 0,
        dispute_count: 0,
        consensus_reached: false,
    };

    let analysis_id = contract.submit_semantic_analysis(
        "test query".to_string(),
        results,
        analysis,
        metadata,
    );

    assert!(contract.get_semantic_analysis(analysis_id).is_some());
    assert_eq!(contract.contract_metadata.total_analyses, 1);
}

#[test]
fn test_demo_functionality() {
    let context = get_context(accounts(1));
    enter(context.build());

    let mut contract = SemanticGuardContract::new();

    let storage_key = contract.submit_demo_analysis(
        "semantic_guard".to_string(),
        "demo_test".to_string(),
        "{}".to_string(),
    );

    assert!(contract.get_semantic_analysis(storage_key).is_some());
    assert!(contract.health_check());
    assert_eq!(contract.get_total_analyses(), 1);
}

#[test]
fn new_contract_has_the_initial_metadata() {
    let contract = SemanticGuardContract::new();
    let stats = contract.get_contract_stats();
    assert_eq!(
        stats,
        ContractMetadata {
            version: "1.0.0".to_string(),
            total_analyses: 0,
            total_staked: 0,
            consensus_threshold: double(0.75),
        }
    );
    assert_eq!(contract.get_total_analyses(), 0);
    assert_eq!(contract.analyses.len(), 0);
    assert!(contract.get_recent_analyses(10).is_empty());
    assert!(contract.get_high_risk_analyses(OutlierSeverity::Low).is_empty());
    assert!(contract.get_semantic_analysis("anything".to_string()).is_none());
}

#[test]
fn bit_patterns_are_those_of_the_fractions() {
    assert_eq!(THREE_QUARTERS_BITS, 0.75f64.to_bits());
    assert_eq!(NINETEEN_TWENTIETHS_BITS, 0.95f64.to_bits());
    assert_eq!(f64::from_bits(double(0.9).to_bits()), 0.9);
    assert_eq!(Double::from_bits(7).bits, 7);
}

#[test]
fn identifier_matches_known_answers() {
    assert_eq!(
        generate_analysis_id("test query", 0, "bob"),
        "Ev9Pgv7aqLzwpJHfFddTz9d2pzRfCaG7MgPrXTrzJJwu"
    );
    assert_eq!(
        generate_analysis_id("test query", 1700000000000000000, "alice"),
        "BRLVjtFDy2wFwhM1U1D1PGeMFxUzTs1HPjDSUYqQ7yfe"
    );
    assert_eq!(
        generate_analysis_id("what is near?", 42, "danny"),
        "BJVz35enKcjM5bYuD4nCyJjt14j6qN5wboadE7mRm8QU"
    );
    assert_eq!(
        generate_analysis_id("caf\u{e9} \u{3a3}", 7, "eugene"),
        "ERQWh5fKCGUSoXs3H8mCq1mXePp5xERw7xHRm6RHyZ8V"
    );
}

#[test]
fn identifier_of_an_empty_query_is_defined() {
    assert_eq!(generate_analysis_id("", 0, "bob"), "8KqXL5awTf6E5aewC8YULozT3qgCSzv7CAJxqBzx5sCW");
    assert_eq!(
        generate_analysis_id("", u64::MAX, "charlie"),
        "7uqcbvi4Pap4cBqXz16nC7bJwwoQMdLDoukiwBohEh7a"
    );
}

#[test]
fn identifier_is_deterministic() {
    let first = generate_analysis_id("same query", 123456789, "alice");
    let second = generate_analysis_id("same query", 123456789, "alice");
    assert_eq!(first, second);
    assert_ne!(first, generate_analysis_id("same query", 123456790, "alice"));
    assert_ne!(first, generate_analysis_id("same query", 123456789, "bob"));
    assert_ne!(first, generate_analysis_id("other query", 123456789, "alice"));
}

#[test]
fn identifier_agrees_with_the_host_digest_and_encoder() {
    let digest = near_sdk::env::sha256("q5carol".as_bytes());
    let expected = near_sdk::bs58::encode(digest).into_string();
    assert_eq!(generate_analysis_id("q", 5, "carol"), expected);
    assert_ne!(generate_analysis_id("q", 5, "carol"), "q5carol");
}

#[test]
fn submission_round_trips() {
    let mut contract = SemanticGuardContract::new();
    let analysis = analysis_with(vec![outlier("B", OutlierSeverity::High)]);
    let id = contract.record_analysis(
        "round trip".to_string(),
        sample_results(),
        analysis_with(vec![outlier("B", OutlierSeverity::High)]),
        sample_metadata(),
        "alice".to_string(),
        77,
        5,
    );
    assert_eq!(id, generate_analysis_id("round trip", 77, "alice"));
    let stored = contract.get_semantic_analysis(id.clone()).unwrap();
    assert_eq!(
        stored,
        SemanticGuardRecord {
            id,
            query: "round trip".to_string(),
            results: sample_results(),
            semantic_analysis: analysis,
            submitter: "alice".to_string(),
            timestamp: 77,
            block_height: 5,
            metadata: sample_metadata(),
        }
    );
    assert!(contract.get_semantic_analysis("no such id".to_string()).is_none());
}

#[test]
fn submission_takes_submitter_time_and_height_from_the_host() {
    let mut context = get_context(accounts(2));
    context.block_timestamp(1_700_000_000_000_000_000).block_height(321);
    enter(context.build());

    let mut contract = SemanticGuardContract::new();
    let id = contract.submit_semantic_analysis(
        "hosted".to_string(),
        sample_results(),
        sample_analysis(),
        sample_metadata(),
    );
    assert_eq!(id, generate_analysis_id("hosted", 1_700_000_000_000_000_000, "charlie"));
    let stored = contract.get_semantic_analysis(id.clone()).unwrap();
    assert_eq!(stored.id, id);
    assert_eq!(stored.query, "hosted");
    assert_eq!(stored.results, sample_results());
    assert_eq!(stored.semantic_analysis, sample_analysis());
    assert_eq!(stored.metadata, sample_metadata());
    assert_eq!(stored.submitter, "charlie");
    assert_eq!(stored.timestamp, 1_700_000_000_000_000_000);
    assert_eq!(stored.block_height, 321);
}

#[test]
fn empty_inputs_are_accepted() {
    let mut contract = SemanticGuardContract::new();
    let id = contract.record_analysis(
        String::new(),
        vec![],
        sample_analysis(),
        sample_metadata(),
        "bob".to_string(),
        0,
        0,
    );
    assert_eq!(id, "8KqXL5awTf6E5aewC8YULozT3qgCSzv7CAJxqBzx5sCW");
    let stored = contract.get_semantic_analysis(id).unwrap();
    assert_eq!(stored.query, "");
    assert!(stored.results.is_empty());
    assert_eq!(contract.get_total_analyses(), 1);
}

#[test]
fn counter_counts_every_submission() {
    let mut contract = SemanticGuardContract::new();
    for n in 0..5u64 {
        record(&mut contract, "distinct", vec![], n);
        assert_eq!(contract.get_total_analyses(), n + 1);
    }
    assert_eq!(contract.analyses.len(), 5);
    // Three more submissions that collide with the first.
    for n in 0..3u64 {
        record(&mut contract, "distinct", vec![], 0);
        assert_eq!(contract.get_total_analyses(), 6 + n);
    }
    assert_eq!(contract.get_total_analyses(), 8);
    assert_eq!(contract.analyses.len(), 5);
    assert_eq!(contract.get_contract_stats().total_analyses, 8);
    assert_eq!(contract.get_contract_stats().total_staked, 0);
}

#[test]
fn colliding_submission_replaces_the_record_in_place() {
    let mut contract = SemanticGuardContract::new();
    let first = record(&mut contract, "one", vec![], 1);
    let second = record(&mut contract, "two", vec![], 2);
    let again = contract.record_analysis(
        "one".to_string(),
        vec![],
        sample_analysis(),
        sample_metadata(),
        "alice".to_string(),
        1,
        99,
    );
    assert_eq!(first, again);
    assert_ne!(first, second);
    let all = contract.analyses.values();
    assert_eq!(all.len(), 2);
    assert_eq!(all[0].query, "one");
    assert_eq!(all[0].block_height, 99);
    assert!(all[0].results.is_empty());
    assert_eq!(all[1].query, "two");
    assert_eq!(contract.analyses.keys(), vec![first, second]);
    assert_eq!(contract.get_total_analyses(), 3);
}

#[test]
fn store_hands_out_records_by_position() {
    let mut contract = SemanticGuardContract::new();
    let first = record(&mut contract, "first", vec![], 1);
    let second = record(&mut contract, "second", vec![], 2);
    assert_eq!(contract.analyses.len(), 2);
    assert_eq!(contract.analyses.value_at(0).query, "first");
    assert_eq!(contract.analyses.value_at(1).id, second);
    assert_eq!(contract.analyses.get(&first).unwrap().query, "first");
    assert!(contract.analyses.get(&"missing".to_string()).is_none());
}

#[test]
fn severity_ranks_are_one_to_four() {
    assert_eq!(OutlierSeverity::Low.rank(), 1);
    assert_eq!(OutlierSeverity::Medium.rank(), 2);
    assert_eq!(OutlierSeverity::High.rank(), 3);
    assert_eq!(OutlierSeverity::Critical.rank(), 4);
    let levels = [
        OutlierSeverity::Low,
        OutlierSeverity::Medium,
        OutlierSeverity::High,
        OutlierSeverity::Critical,
    ];
    for a in levels {
        for b in levels {
            assert_eq!(a.at_least(b), a.rank() >= b.rank());
            assert!(a.at_least(b) || b.at_least(a));
        }
    }
}

#[test]
fn severity_lattice_selects_by_threshold() {
    let mut contract = SemanticGuardContract::new();
    record(&mut contract, "low", vec![outlier("L", OutlierSeverity::Low)], 1);
    record(&mut contract, "medium", vec![outlier("M", OutlierSeverity::Medium)], 2);
    record(&mut contract, "critical", vec![outlier("C", OutlierSeverity::Critical)], 3);

    let medium = contract.get_high_risk_analyses(OutlierSeverity::Medium);
    assert_eq!(queries(&medium), vec!["medium", "critical"]);

    let low = contract.get_high_risk_analyses(OutlierSeverity::Low);
    assert_eq!(queries(&low), vec!["low", "medium", "critical"]);

    let critical = contract.get_high_risk_analyses(OutlierSeverity::Critical);
    assert_eq!(queries(&critical), vec!["critical"]);

    let high = contract.get_high_risk_analyses(OutlierSeverity::High);
    assert_eq!(queries(&high), vec!["critical"]);
}

#[test]
fn records_without_outliers_are_never_high_risk() {
    let mut contract = SemanticGuardContract::new();
    record(&mut contract, "clean", vec![], 1);
    record(
        &mut contract,
        "mixed",
        vec![outlier("L", OutlierSeverity::Low), outlier("H", OutlierSeverity::High)],
        2,
    );
    assert_eq!(queries(&contract.get_high_risk_analyses(OutlierSeverity::Low)), vec!["mixed"]);
    assert_eq!(queries(&contract.get_high_risk_analyses(OutlierSeverity::High)), vec!["mixed"]);
    assert!(contract.get_high_risk_analyses(OutlierSeverity::Critical).is_empty());
    assert!(!sample_analysis().has_outlier_at_least(OutlierSeverity::Low));
    assert!(analysis_with(vec![outlier("M", OutlierSeverity::Medium)])
        .has_outlier_at_least(OutlierSeverity::Medium));
    assert!(!analysis_with(vec![outlier("M", OutlierSeverity::Medium)])
        .has_outlier_at_least(OutlierSeverity::High));
}

#[test]
fn high_risk_returns_whole_records() {
    let mut contract = SemanticGuardContract::new();
    let id = record(&mut contract, "whole", vec![outlier("C", OutlierSeverity::Critical)], 4);
    let risky = contract.get_high_risk_analyses(OutlierSeverity::Critical);
    assert_eq!(risky.len(), 1);
    assert_eq!(risky[0], contract.get_semantic_analysis(id).unwrap());
    assert_eq!(risky[0].semantic_analysis.outliers[0].severity, OutlierSeverity::Critical);
    assert_eq!(
        risky[0].semantic_analysis.outliers[0].verification_status,
        VerificationStatus::Pending
    );
}

#[test]
fn recent_is_the_reverse_of_the_enumeration() {
    let mut contract = SemanticGuardContract::new();
    // Timestamps run against the order of arrival: the answer follows
    // arrival, not time.
    record(&mut contract, "first", vec![], 300);
    record(&mut contract, "second", vec![], 200);
    record(&mut contract, "third", vec![], 100);

    assert!(contract.get_recent_analyses(0).is_empty());
    assert_eq!(queries(&contract.get_recent_analyses(1)), vec!["third"]);
    assert_eq!(queries(&contract.get_recent_analyses(2)), vec!["third", "second"]);
    assert_eq!(queries(&contract.get_recent_analyses(3)), vec!["third", "second", "first"]);
    assert_eq!(queries(&contract.get_recent_analyses(4)), vec!["third", "second", "first"]);
    assert_eq!(
        queries(&contract.get_recent_analyses(u32::MAX)),
        vec!["third", "second", "first"]
    );
    assert_eq!(queries(&contract.analyses.values()), vec!["first", "second", "third"]);
}

#[test]
fn recent_keeps_the_place_of_a_replaced_record() {
    let mut contract = SemanticGuardContract::new();
    record(&mut contract, "a", vec![], 1);
    record(&mut contract, "b", vec![], 2);
    record(&mut contract, "a", vec![outlier("x", OutlierSeverity::Low)], 1);
    let recent = contract.get_recent_analyses(5);
    assert_eq!(queries(&recent), vec!["b", "a"]);
    assert_eq!(recent[1].semantic_analysis.outliers.len(), 1);
}

#[test]
fn demo_key_and_record_have_the_fixed_form() {
    let mut contract = SemanticGuardContract::new();
    let key = contract.record_demo_analysis(
        "semantic_guard".to_string(),
        "demo_test".to_string(),
        "{\"ignored\": true}".to_string(),
        "bob".to_string(),
        11,
        22,
    );
    assert_eq!(key, "semantic_guard_demo_test_demo");
    let stored = contract.get_semantic_analysis(key.clone()).unwrap();
    assert_eq!(
        stored,
        SemanticGuardRecord {
            id: key,
            query: "Demo Query".to_string(),
            results: vec![],
            semantic_analysis: SemanticAnalysisResult {
                center_of_gravity: "A".to_string(),
                outliers: vec![],
                distance_matrix: vec![],
                embeddings: vec![],
                threshold_used: double(0.75),
                processing_time_ms: 100,
                consensus_score: double(0.95),
            },
            submitter: "bob".to_string(),
            timestamp: 11,
            block_height: 22,
            metadata: AnalysisMetadata {
                model_version: "demo".to_string(),
                algorithm_version: "1.0".to_string(),
                processing_node: "demo_node".to_string(),
                verification_count: 0,
                dispute_count: 0,
                consensus_reached: true,
            },
        }
    );
    assert_eq!(
        contract.record_demo_analysis(String::new(), String::new(), String::new(), "bob".to_string(), 0, 0),
        "__demo"
    );
}

#[test]
fn demo_collision_overwrites_but_counts_twice() {
    let mut contract = SemanticGuardContract::new();
    let first = contract.record_demo_analysis(
        "p".to_string(),
        "seed".to_string(),
        "one".to_string(),
        "alice".to_string(),
        1,
        1,
    );
    let second = contract.record_demo_analysis(
        "p".to_string(),
        "seed".to_string(),
        "two".to_string(),
        "bob".to_string(),
        2,
        2,
    );
    assert_eq!(first, "p_seed_demo");
    assert_eq!(first, second);
    // One record under the key, yet two submissions counted.
    assert_eq!(contract.analyses.len(), 1);
    assert_eq!(contract.get_recent_analyses(10).len(), 1);
    assert_eq!(contract.get_total_analyses(), 2);
    let stored = contract.get_semantic_analysis(first).unwrap();
    assert_eq!(stored.submitter, "bob");
    assert_eq!(stored.timestamp, 2);
    assert_eq!(stored.block_height, 2);
}

#[test]
fn demo_collision_through_the_host() {
    enter(get_context(accounts(1)).build());
    let mut contract = SemanticGuardContract::new();
    let before = contract.get_total_analyses();
    let first =
        contract.submit_demo_analysis("p".to_string(), "seed".to_string(), "{}".to_string());
    let second =
        contract.submit_demo_analysis("p".to_string(), "seed".to_string(), "{}".to_string());
    assert_eq!(first, second);
    assert_eq!(contract.analyses.len(), 1);
    assert_eq!(contract.get_total_analyses(), before + 2);
    assert_eq!(contract.get_semantic_analysis(first).unwrap().submitter, "bob");
}

#[test]
fn health_check_is_true_in_every_state() {
    let mut contract = SemanticGuardContract::new();
    assert!(contract.health_check());
    record(&mut contract, "q", vec![outlier("C", OutlierSeverity::Critical)], 1);
    assert!(contract.health_check());
    contract.record_demo_analysis(
        "p".to_string(),
        "s".to_string(),
        String::new(),
        "bob".to_string(),
        0,
        0,
    );
    assert!(contract.health_check());
}

#[test]
fn clones_equal_what_was_cloned() {
    let analysis = analysis_with(vec![
        outlier("L", OutlierSeverity::Low),
        outlier("C", OutlierSeverity::Critical),
    ]);
    assert_eq!(analysis.clone(), analysis);
    let results = sample_results();
    assert_eq!(results.clone(), results);
    let metadata = sample_metadata();
    assert_eq!(metadata.clone(), metadata);
}

use metadol::mcp::tools::format_strategy;
use metadol::mcp::recommendations::{
    is_integer_type, parse_base_type, CompatibilityMatrix, Confidence, ConsistencyLevel,
    CrdtRecommender, UsagePattern,
};

#[test]
fn test_recommend_collaborative_text() {
    let recommender = CrdtRecommender::new();
    let rec = recommender.recommend("content", "String", UsagePattern::CollaborativeText, ConsistencyLevel::Eventual);
    assert_eq!(rec.recommended_strategy, "peritext");
    assert_eq!(rec.confidence, Confidence::High);
    assert!(rec.reasoning.contains("collaborative"));
}

#[test]
fn test_recommend_counter() {
    let recommender = CrdtRecommender::new();
    let rec = recommender.recommend("likes", "i32", UsagePattern::Counter, ConsistencyLevel::Eventual);
    assert_eq!(rec.recommended_strategy, "pn_counter");
    assert_eq!(rec.confidence, Confidence::High);
}

#[test]
fn test_recommend_immutable() {
    let recommender = CrdtRecommender::new();
    let rec = recommender.recommend("id", "String", UsagePattern::WriteOnce, ConsistencyLevel::Strong);
    assert_eq!(rec.recommended_strategy, "immutable");
    assert_eq!(rec.confidence, Confidence::High);
}

#[test]
fn test_recommend_or_set() {
    let recommender = CrdtRecommender::new();
    let rec = recommender.recommend("tags", "Set<String>", UsagePattern::MultiUserSet, ConsistencyLevel::Eventual);
    assert_eq!(rec.recommended_strategy, "or_set");
    assert_eq!(rec.confidence, Confidence::High);
}

#[test]
fn test_recommend_rga() {
    let recommender = CrdtRecommender::new();
    let rec = recommender.recommend("items", "Vec<String>", UsagePattern::OrderedList, ConsistencyLevel::Causal);
    assert_eq!(rec.recommended_strategy, "rga");
    assert_eq!(rec.confidence, Confidence::High);
}

#[test]
fn test_parse_base_type() {
    assert_eq!(parse_base_type("String"), "String");
    assert_eq!(parse_base_type("Set<String>"), "Set");
    assert_eq!(parse_base_type("Vec<i32>"), "Vec");
    assert_eq!(parse_base_type("Map<String, User>"), "Map");
}

#[test]
fn test_is_integer_type() {
    assert!(is_integer_type("i32"));
    assert!(is_integer_type("u64"));
    assert!(is_integer_type("Int"));
    assert!(!is_integer_type("String"));
}

#[test]
fn test_compatibility_matrix() {
    let matrix = CompatibilityMatrix::default();
    assert!(matrix.is_compatible("String", "String", "lww"));
    assert!(matrix.is_compatible("String", "String", "peritext"));
    assert!(!matrix.is_compatible("String", "String", "pn_counter"));
    assert!(matrix.is_compatible("i32", "i32", "pn_counter"));
    assert!(!matrix.is_compatible("i32", "i32", "peritext"));
    assert!(matrix.is_compatible("Set", "Set<String>", "or_set"));
    assert!(!matrix.is_compatible("Set", "Set<String>", "peritext"));
}

#[test]
fn test_recommendation_has_alternatives() {
    let recommender = CrdtRecommender::new();
    let rec = recommender.recommend("name", "String", UsagePattern::LastWriteWins, ConsistencyLevel::Eventual);
    assert!(!rec.alternatives.is_empty());
}

#[test]
fn test_trade_offs_analysis() {
    let recommender = CrdtRecommender::new();
    let trade_offs = recommender.analyze_trade_offs("peritext", "String");
    assert!(!trade_offs.pros.is_empty());
    assert!(!trade_offs.cons.is_empty());
    assert!(trade_offs.pros.iter().any(|p| p.contains("collaboration") || p.contains("concurrent")));
}

#[test]
fn recommendation_texts_and_order() {
    let recommender = CrdtRecommender::new();
    let rec = recommender.recommend("name", "String", UsagePattern::LastWriteWins, ConsistencyLevel::Eventual);
    assert_eq!(rec.recommended_strategy, "lww");
    assert_eq!(rec.example, "@crdt(lww) has name: String");
    assert_eq!(
        rec.reasoning,
        "Last-Write-Wins strategy resolves conflicts by keeping the most recent write. Simple and efficient for single-valued fields like String. Usage pattern: LastWriteWins. Trade-off: Concurrent updates may be lost."
    );
    // Scores: immutable 60, lww 90, peritext 60, mv_register 60; ties keep their order.
    let names: Vec<&str> = rec.alternatives.iter().map(|a| a.strategy.as_str()).collect();
    assert_eq!(names, vec!["immutable", "peritext", "mv_register"]);
    assert_eq!(rec.trade_offs.pros.len(), 3);
    assert_eq!(rec.trade_offs.cons.len(), 2);
}

#[test]
fn recommendation_for_unknown_type_and_strong_consistency() {
    let recommender = CrdtRecommender::new();
    let rec = recommender.recommend("blob", "Custom", UsagePattern::Counter, ConsistencyLevel::Strong);
    // immutable 40, lww 30, mv_register 30: the first of the highest wins.
    assert_eq!(rec.recommended_strategy, "immutable");
    assert_eq!(rec.confidence, Confidence::Medium);
    let pn = recommender.recommend("n", "i64", UsagePattern::Counter, ConsistencyLevel::Eventual);
    assert_eq!(pn.example, "@crdt(pn_counter, min_value=0) has n: i64");
    assert_eq!(Confidence::High.label(), "high");
    let none = recommender.analyze_trade_offs("unknown", "String");
    assert!(none.pros.is_empty() && none.cons.is_empty());
}

#[test]
fn test_recommended_scores_highest_and_alternatives_descend() {
    let recommender = CrdtRecommender::new();
    let matrix = CompatibilityMatrix::default();
    let base = parse_base_type("String");
    let usage = UsagePattern::LastWriteWins;
    let consistency = ConsistencyLevel::Eventual;
    let scored: Vec<(String, i32)> = matrix
        .get_compatible_strategies(&base)
        .into_iter()
        .filter_map(|s| recommender.score_strategy(s, &base, "String", usage, consistency))
        .map(|c| (format_strategy(&c.strategy).to_string(), c.score))
        .collect();
    let rec = recommender.recommend("name", "String", usage, consistency);
    let score_of = |name: &str| scored.iter().find(|(n, _)| n == name).map(|(_, s)| *s).unwrap();
    let best = score_of(&rec.recommended_strategy);
    assert!(scored.iter().all(|(_, s)| *s <= best));
    let alt_scores: Vec<i32> = rec.alternatives.iter().map(|a| score_of(&a.strategy)).collect();
    assert!(alt_scores.windows(2).all(|w| w[0] >= w[1]));
    assert!(rec.alternatives.len() <= 3);
    assert!(rec.alternatives.iter().all(|a| a.strategy != rec.recommended_strategy));
}

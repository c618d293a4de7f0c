use metadol::mcp::nl_to_dol::{NlRequirement, NlToDolConverter};
use metadol::ast::CrdtStrategy;
use metadol::mcp::recommendations::{parse_base_type, CompatibilityMatrix, ConsistencyLevel, CrdtRecommender, UsagePattern};
use metadol::mcp::tools::format_strategy;
use metadol::parser::Parser;
use metadol::repl::context::ReplContext;

const SOURCES: [&str; 3] = [
    "gene container.exists {\n  container has identity\n  container is running\n}\nexegesis {\n  A container.\n}",
    "system univrs.node @ 0.1.0 {\n  requires container.lifecycle >= 0.0.2\n  node has identity\n}\nexegesis {\n  A node.\n}",
    "evolves container.exists @ 0.2.0 > 0.1.0 {\n  adds container has label\n  removes status\n  because \"labels help\"\n}\nexegesis {\n  Labels.\n}",
];

#[test]
fn law_parse_gives_one_declaration() {
    for source in SOURCES {
        let a = Parser::new(source).parse();
        let b = Parser::new(source).parse();
        assert!(a.is_ok(), "{:?}", a);
        assert_eq!(a, b);
    }
}

#[test]
fn law_declare_then_remove_restores_context() {
    let mut ctx = ReplContext::new();
    ctx.add_declaration("Point", "gene");
    let before_names = ctx.len();
    ctx.add_declaration("Circle", "gene");
    ctx.remove_symbol("Circle");
    assert_eq!(ctx.len(), before_names);
    assert!(!ctx.has_symbol("Circle"));
    assert!(ctx.has_symbol("Point"));
    assert!(!ctx.roots().contains(&"Circle".to_string()));
}

#[test]
fn law_recommendation_is_compatible_with_its_type() {
    let recommender = CrdtRecommender::new();
    let matrix = CompatibilityMatrix::default();
    let usages = [
        UsagePattern::WriteOnce,
        UsagePattern::LastWriteWins,
        UsagePattern::CollaborativeText,
        UsagePattern::MultiUserSet,
        UsagePattern::Counter,
        UsagePattern::OrderedList,
    ];
    let levels = [ConsistencyLevel::Eventual, ConsistencyLevel::Causal, ConsistencyLevel::Strong];
    for ty in ["String", "i32", "f64", "bool", "Set<String>", "Vec<i32>", "List<String>", "Custom"] {
        let compatible: Vec<CrdtStrategy> = matrix.get_compatible_strategies(&parse_base_type(ty));
        let names: Vec<&str> = compatible.iter().map(format_strategy).collect();
        for usage in usages {
            for level in levels {
                let rec = recommender.recommend("f", ty, usage, level);
                assert!(names.contains(&rec.recommended_strategy.as_str()), "{} {:?}", ty, usage);
                assert!(rec.alternatives.len() <= 3);
                assert!(rec.alternatives.iter().all(|a| a.strategy != rec.recommended_strategy));
            }
        }
    }
}

#[test]
fn law_metadata_confidence_at_most_90() {
    let converter = NlToDolConverter::new();
    for d in ["A note", "A task with a status, tags and a counter", "A shared list of items edited together"] {
        let schema = converter
            .convert(NlRequirement { description: d.to_string(), entity_name: None, constraints: vec![] })
            .unwrap();
        assert!(schema.metadata.confidence <= 90);
        assert!(!schema.fields.is_empty() && schema.fields.len() <= 10);
    }
}

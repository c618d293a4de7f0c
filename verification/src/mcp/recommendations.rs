//! CRDT strategy recommendations.
//!
//! The recommender looks at a field's type, how the field is used and the
//! consistency it needs, scores the CRDT strategies that the type admits,
//! and recommends the best one, with its reasoning, an example annotation,
//! alternatives and trade-offs.

use vstd::prelude::*;

use crate::ast::CrdtStrategy;
use crate::mcp::tools::{format_strategy, strategy_name};
use crate::text::{before_char, owned, owned_all, spec_trim, str_eq, strings_view, trim, prefix_len};

verus! {

// ---------------------------------------------------------------------------
// Inputs and outputs
// ---------------------------------------------------------------------------

/// Usage pattern for a field.
#[derive(Debug, Clone, Copy, PartialEq, Eq, Structural)]
pub enum UsagePattern {
    /// Field is set once and never modified
    WriteOnce,
    /// Last write wins, simple updates
    LastWriteWins,
    /// Collaborative text editing
    CollaborativeText,
    /// Multi-user set operations (tags, members)
    MultiUserSet,
    /// Numeric counter (likes, votes)
    Counter,
    /// Ordered list with concurrent edits
    OrderedList,
}

impl UsagePattern {
    /// The variant's name.
    pub open spec fn spec_debug_name(self) -> Seq<char> {
        match self {
            UsagePattern::WriteOnce => "WriteOnce"@,
            UsagePattern::LastWriteWins => "LastWriteWins"@,
            UsagePattern::CollaborativeText => "CollaborativeText"@,
            UsagePattern::MultiUserSet => "MultiUserSet"@,
            UsagePattern::Counter => "Counter"@,
            UsagePattern::OrderedList => "OrderedList"@,
        }
    }

    /// The variant's name, as debugging output shows it.
    pub fn debug_name(&self) -> (r: &'static str)
        ensures
            r@ == self.spec_debug_name(),
    {
        match self {
            UsagePattern::WriteOnce => "WriteOnce",
            UsagePattern::LastWriteWins => "LastWriteWins",
            UsagePattern::CollaborativeText => "CollaborativeText",
            UsagePattern::MultiUserSet => "MultiUserSet",
            UsagePattern::Counter => "Counter",
            UsagePattern::OrderedList => "OrderedList",
        }
    }
}

/// Required consistency level.
#[derive(Debug, Clone, Copy, PartialEq, Eq, Structural)]
pub enum ConsistencyLevel {
    /// Eventual consistency (most CRDTs)
    Eventual,
    /// Causal consistency
    Causal,
    /// Strong consistency (requires coordination)
    Strong,
}

impl ConsistencyLevel {
    /// The variant's name.
    pub open spec fn spec_debug_name(self) -> Seq<char> {
        match self {
            ConsistencyLevel::Eventual => "Eventual"@,
            ConsistencyLevel::Causal => "Causal"@,
            ConsistencyLevel::Strong => "Strong"@,
        }
    }

    /// The variant's name, as debugging output shows it.
    pub fn debug_name(&self) -> (r: &'static str)
        ensures
            r@ == self.spec_debug_name(),
    {
        match self {
            ConsistencyLevel::Eventual => "Eventual",
            ConsistencyLevel::Causal => "Causal",
            ConsistencyLevel::Strong => "Strong",
        }
    }
}

/// Confidence level in a recommendation.
#[derive(Debug, Clone, Copy, PartialEq, Eq, PartialOrd, Ord, Structural)]
pub enum Confidence {
    /// Low confidence recommendation
    Low,
    /// Medium confidence recommendation
    Medium,
    /// High confidence recommendation
    High,
}

impl Confidence {
    /// The display text: `low`, `medium` or `high`.
    pub open spec fn spec_label(self) -> Seq<char> {
        match self {
            Confidence::Low => "low"@,
            Confidence::Medium => "medium"@,
            Confidence::High => "high"@,
        }
    }

    /// The variant's name: `Low`, `Medium` or `High`.
    pub open spec fn spec_debug_name(self) -> Seq<char> {
        match self {
            Confidence::Low => "Low"@,
            Confidence::Medium => "Medium"@,
            Confidence::High => "High"@,
        }
    }

    /// The variant's name, as debugging output shows it.
    pub fn debug_name(&self) -> (r: &'static str)
        ensures
            r@ == self.spec_debug_name(),
    {
        match self {
            Confidence::Low => "Low",
            Confidence::Medium => "Medium",
            Confidence::High => "High",
        }
    }

    /// The display text: `low`, `medium` or `high`.
    pub fn label(&self) -> (r: &'static str)
        ensures
            r@ == self.spec_label(),
    {
        match self {
            Confidence::Low => "low",
            Confidence::Medium => "medium",
            Confidence::High => "high",
        }
    }
}

/// A scored CRDT strategy candidate.
#[derive(Debug, Clone, Copy, PartialEq, Eq, Structural)]
pub struct ScoredStrategy {
    /// The strategy
    pub strategy: CrdtStrategy,
    /// Its score
    pub score: i32,
    /// Confidence in it
    pub confidence: Confidence,
}

/// A CRDT strategy recommendation.
#[derive(Debug, Clone)]
pub struct CrdtRecommendation {
    /// Field name
    pub field_name: String,
    /// Field type
    pub field_type: String,
    /// Recommended CRDT strategy
    pub recommended_strategy: String,
    /// Confidence in the recommendation
    pub confidence: Confidence,
    /// Reasoning for the recommendation
    pub reasoning: String,
    /// Example DOL code
    pub example: String,
    /// Alternative strategies
    pub alternatives: Vec<Alternative>,
    /// Trade-offs analysis
    pub trade_offs: TradeOffs,
}

/// An alternative CRDT strategy.
#[derive(Debug, Clone)]
pub struct Alternative {
    /// Strategy name
    pub strategy: String,
    /// Reason to consider this alternative
    pub reason: String,
}

/// Trade-offs for a CRDT strategy.
#[derive(Debug, Clone)]
pub struct TradeOffs {
    /// Pros (advantages)
    pub pros: Vec<String>,
    /// Cons (disadvantages)
    pub cons: Vec<String>,
}

// ---------------------------------------------------------------------------
// Types
// ---------------------------------------------------------------------------

/// The base of a type: the text before any `<`, trimmed.
pub open spec fn spec_base_type(t: Seq<char>) -> Seq<char> {
    spec_trim(t.take(prefix_len(t, '<') as int))
}

/// An integer type name.
pub open spec fn is_integer_name(t: Seq<char>) -> bool {
    t == "i8"@ || t == "i16"@ || t == "i32"@ || t == "i64"@ || t == "i128"@ || t == "u8"@ || t
        == "u16"@ || t == "u32"@ || t == "u64"@ || t == "u128"@ || t == "Int"@ || t == "int"@
}

/// A floating-point type name.
pub open spec fn is_float_name(t: Seq<char>) -> bool {
    t == "f32"@ || t == "f64"@ || t == "Float"@ || t == "float"@
}

/// A simple scalar type name.
pub open spec fn is_simple_name(t: Seq<char>) -> bool {
    t == "String"@ || t == "string"@ || t == "Bool"@ || t == "bool"@ || t == "i32"@ || t == "i64"@
        || t == "u32"@ || t == "u64"@ || t == "f32"@ || t == "f64"@
}

/// Parses a type string to extract the base type: `Set<String>` gives
/// `Set`.
pub fn parse_base_type(type_str: &str) -> (r: String)
    ensures
        r@ == spec_base_type(type_str@),
{
    let head = before_char(type_str, '<');
    trim(head.as_str())
}

/// Checks if a type is an integer type.
pub fn is_integer_type(tname: &str) -> (r: bool)
    ensures
        r == is_integer_name(tname@),
{
    str_eq(tname, "i8") || str_eq(tname, "i16") || str_eq(tname, "i32") || str_eq(
        tname,
        "i64",
    ) || str_eq(tname, "i128") || str_eq(tname, "u8") || str_eq(tname, "u16")
        || str_eq(tname, "u32") || str_eq(tname, "u64") || str_eq(tname, "u128")
        || str_eq(tname, "Int") || str_eq(tname, "int")
}

/// Checks if a type is a float type.
pub fn is_float_type(tname: &str) -> (r: bool)
    ensures
        r == is_float_name(tname@),
{
    str_eq(tname, "f32") || str_eq(tname, "f64") || str_eq(tname, "Float") || str_eq(
        tname,
        "float",
    )
}

/// Checks if a type is a simple scalar type.
pub fn is_simple_type(tname: &str) -> (r: bool)
    ensures
        r == is_simple_name(tname@),
{
    str_eq(tname, "String") || str_eq(tname, "string") || str_eq(tname, "Bool")
        || str_eq(tname, "bool") || str_eq(tname, "i32") || str_eq(tname, "i64")
        || str_eq(tname, "u32") || str_eq(tname, "u64") || str_eq(tname, "f32")
        || str_eq(tname, "f64")
}

// ---------------------------------------------------------------------------
// The compatibility matrix
// ---------------------------------------------------------------------------

/// The strategies that a base type admits.
pub open spec fn spec_compatible(base: Seq<char>) -> Seq<CrdtStrategy> {
    if base == "String"@ || base == "string"@ {
        seq![CrdtStrategy::Immutable, CrdtStrategy::Lww, CrdtStrategy::Peritext, CrdtStrategy::MvRegister]
    } else if is_integer_name(base) {
        seq![CrdtStrategy::Immutable, CrdtStrategy::Lww, CrdtStrategy::PnCounter, CrdtStrategy::MvRegister]
    } else if is_float_name(base) {
        seq![CrdtStrategy::Immutable, CrdtStrategy::Lww, CrdtStrategy::MvRegister]
    } else if base == "Bool"@ || base == "bool"@ {
        seq![CrdtStrategy::Immutable, CrdtStrategy::Lww, CrdtStrategy::MvRegister]
    } else if base == "Set"@ {
        seq![CrdtStrategy::Immutable, CrdtStrategy::OrSet, CrdtStrategy::MvRegister]
    } else if base == "Vec"@ || base == "List"@ {
        seq![CrdtStrategy::Immutable, CrdtStrategy::Lww, CrdtStrategy::Rga, CrdtStrategy::MvRegister]
    } else {
        seq![CrdtStrategy::Immutable, CrdtStrategy::Lww, CrdtStrategy::MvRegister]
    }
}

/// A strategy whose name is `strategy` is among those `base` admits.
pub open spec fn spec_is_compatible(base: Seq<char>, strategy: Seq<char>) -> bool {
    exists|i: int|
        0 <= i < spec_compatible(base).len() && #[trigger] strategy_name(spec_compatible(base)[i])
            == strategy
}

/// CRDT type compatibility matrix.
#[derive(Debug, Clone)]
pub struct CompatibilityMatrix {}

impl Default for CompatibilityMatrix {
    /// The compatibility matrix.
    fn default() -> (r: CompatibilityMatrix)
        ensures
            r == (CompatibilityMatrix {}),
    {
        CompatibilityMatrix {}
    }
}

impl CompatibilityMatrix {
    /// Gets compatible strategies for a base type.
    pub fn get_compatible_strategies(&self, base_type: &str) -> (r: Vec<CrdtStrategy>)
        ensures
            r@ == spec_compatible(base_type@),
    {
        if str_eq(base_type, "String") || str_eq(base_type, "string") {
            vec![CrdtStrategy::Immutable, CrdtStrategy::Lww, CrdtStrategy::Peritext, CrdtStrategy::MvRegister]
        } else if is_integer_type(base_type) {
            vec![CrdtStrategy::Immutable, CrdtStrategy::Lww, CrdtStrategy::PnCounter, CrdtStrategy::MvRegister]
        } else if is_float_type(base_type) {
            vec![CrdtStrategy::Immutable, CrdtStrategy::Lww, CrdtStrategy::MvRegister]
        } else if str_eq(base_type, "Bool") || str_eq(base_type, "bool") {
            vec![CrdtStrategy::Immutable, CrdtStrategy::Lww, CrdtStrategy::MvRegister]
        } else if str_eq(base_type, "Set") {
            vec![CrdtStrategy::Immutable, CrdtStrategy::OrSet, CrdtStrategy::MvRegister]
        } else if str_eq(base_type, "Vec") || str_eq(base_type, "List") {
            vec![CrdtStrategy::Immutable, CrdtStrategy::Lww, CrdtStrategy::Rga, CrdtStrategy::MvRegister]
        } else {
            vec![CrdtStrategy::Immutable, CrdtStrategy::Lww, CrdtStrategy::MvRegister]
        }
    }

    /// Checks if a strategy is compatible with a type.
    pub fn is_compatible(&self, base_type: &str, full_type: &str, strategy: &str) -> (r: bool)
        ensures
            r == spec_is_compatible(base_type@, strategy@),
    {
        let compatible = self.get_compatible_strategies(base_type);
        let mut i: usize = 0;
        while i < compatible.len()
            invariant
                i <= compatible@.len(),
                compatible@ == spec_compatible(base_type@),
                forall|j: int| 0 <= j < i ==> #[trigger] strategy_name(compatible@[j]) != strategy@,
            decreases compatible.len() - i,
        {
            if str_eq(format_strategy(&compatible[i]), strategy) {
                return true;
            }
            i = i + 1;
        }
        false
    }
}

// ---------------------------------------------------------------------------
// Scoring
// ---------------------------------------------------------------------------

/// The bonus and confidence that the type and usage give a strategy, if a
/// rule of their own covers them.
pub open spec fn type_rule(
    strategy: CrdtStrategy,
    base: Seq<char>,
    usage: UsagePattern,
) -> Option<(int, Confidence)> {
    if base == "String"@ && strategy == CrdtStrategy::Peritext && usage
        == UsagePattern::CollaborativeText {
        Some((40, Confidence::High))
    } else if base == "String"@ && strategy == CrdtStrategy::Lww && usage
        == UsagePattern::LastWriteWins {
        Some((30, Confidence::High))
    } else if strategy == CrdtStrategy::PnCounter && is_integer_name(base) && usage
        == UsagePattern::Counter {
        Some((40, Confidence::High))
    } else if base == "Set"@ && strategy == CrdtStrategy::OrSet && usage
        == UsagePattern::MultiUserSet {
        Some((40, Confidence::High))
    } else if strategy == CrdtStrategy::Rga && (base == "Vec"@ || base == "List"@) && usage
        == UsagePattern::OrderedList {
        Some((40, Confidence::High))
    } else if strategy == CrdtStrategy::Immutable && usage == UsagePattern::WriteOnce {
        Some((50, Confidence::High))
    } else if strategy == CrdtStrategy::Lww && is_simple_name(base) {
        Some((20, Confidence::Medium))
    } else {
        None
    }
}

/// The adjustment that the consistency level makes to a strategy's score.
pub open spec fn consistency_adjustment(strategy: CrdtStrategy, consistency: ConsistencyLevel) -> int {
    match consistency {
        ConsistencyLevel::Eventual => 10,
        ConsistencyLevel::Causal => if strategy == CrdtStrategy::Peritext || strategy
            == CrdtStrategy::Rga || strategy == CrdtStrategy::MvRegister {
            15
        } else {
            0
        },
        ConsistencyLevel::Strong => if strategy == CrdtStrategy::Immutable {
            10
        } else {
            -20
        },
    }
}

/// The score of a strategy in context: 50, plus the type rule's bonus,
/// plus the consistency adjustment; none when no rule covers the strategy
/// and the type does not admit it.
pub open spec fn spec_score(
    strategy: CrdtStrategy,
    base: Seq<char>,
    usage: UsagePattern,
    consistency: ConsistencyLevel,
) -> Option<ScoredStrategy> {
    match type_rule(strategy, base, usage) {
        Some((bonus, confidence)) => Some(
            ScoredStrategy {
                strategy,
                score: (50 + bonus + consistency_adjustment(strategy, consistency)) as i32,
                confidence,
            },
        ),
        None => if spec_is_compatible(base, strategy_name(strategy)) {
            Some(
                ScoredStrategy {
                    strategy,
                    score: (50 + consistency_adjustment(strategy, consistency)) as i32,
                    confidence: Confidence::Medium,
                },
            )
        } else {
            None
        },
    }
}

/// The scored candidates among `strategies`, in order.
pub open spec fn spec_candidates(
    strategies: Seq<CrdtStrategy>,
    base: Seq<char>,
    usage: UsagePattern,
    consistency: ConsistencyLevel,
) -> Seq<ScoredStrategy>
    decreases strategies.len(),
{
    if strategies.len() == 0 {
        Seq::empty()
    } else {
        let prev = spec_candidates(strategies.drop_last(), base, usage, consistency);
        match spec_score(strategies.last(), base, usage, consistency) {
            Some(c) => prev.push(c),
            None => prev,
        }
    }
}

/// The candidate with the highest score, the last of them on a tie.
pub open spec fn spec_best(cands: Seq<ScoredStrategy>) -> Option<ScoredStrategy>
    decreases cands.len(),
{
    if cands.len() == 0 {
        None
    } else {
        match spec_best(cands.drop_last()) {
            None => Some(cands.last()),
            Some(b) => if cands.last().score >= b.score {
                Some(cands.last())
            } else {
                Some(b)
            },
        }
    }
}

/// The best candidate, or last-write-wins with score 50 and low confidence
/// when there is none.
pub open spec fn best_or_default(cands: Seq<ScoredStrategy>) -> ScoredStrategy {
    match spec_best(cands) {
        Some(b) => b,
        None => ScoredStrategy { strategy: CrdtStrategy::Lww, score: 50, confidence: Confidence::Low },
    }
}

/// `sorted` (by descending score) with `x` placed after every element
/// that scores at least as high.
pub open spec fn insert_desc(sorted: Seq<ScoredStrategy>, x: ScoredStrategy) -> Seq<
    ScoredStrategy,
>
    decreases sorted.len(),
{
    if sorted.len() == 0 {
        seq![x]
    } else if sorted.last().score >= x.score {
        sorted.push(x)
    } else {
        insert_desc(sorted.drop_last(), x).push(sorted.last())
    }
}

/// The candidates sorted by descending score; equal scores keep their
/// order.
pub open spec fn sort_desc(cands: Seq<ScoredStrategy>) -> Seq<ScoredStrategy>
    decreases cands.len(),
{
    if cands.len() == 0 {
        Seq::empty()
    } else {
        insert_desc(sort_desc(cands.drop_last()), cands.last())
    }
}

/// The strategies of `cands` other than `best`, in order.
pub open spec fn others(cands: Seq<ScoredStrategy>, best: CrdtStrategy) -> Seq<CrdtStrategy>
    decreases cands.len(),
{
    if cands.len() == 0 {
        Seq::empty()
    } else {
        let prev = others(cands.drop_last(), best);
        if cands.last().strategy == best {
            prev
        } else {
            prev.push(cands.last().strategy)
        }
    }
}

/// At most the first `n` elements of `s`.
pub open spec fn first_n<T>(s: Seq<T>, n: nat) -> Seq<T> {
    if s.len() <= n {
        s
    } else {
        s.take(n as int)
    }
}

// ---------------------------------------------------------------------------
// Texts
// ---------------------------------------------------------------------------

/// Why a strategy is recommended.
pub open spec fn reasoning_text(
    strategy: CrdtStrategy,
    ty: Seq<char>,
    usage: UsagePattern,
    consistency: ConsistencyLevel,
) -> Seq<char> {
    let u = usage.spec_debug_name();
    match strategy {
        CrdtStrategy::Immutable => "Immutable strategy ensures field is set exactly once and never modified. Perfect for identity fields like IDs and timestamps. Type "@
            + ty + " is compatible. Consistency requirement: "@ + consistency.spec_debug_name() + "."@,
        CrdtStrategy::Lww => "Last-Write-Wins strategy resolves conflicts by keeping the most recent write. Simple and efficient for single-valued fields like "@
            + ty + ". Usage pattern: "@ + u + ". Trade-off: Concurrent updates may be lost."@,
        CrdtStrategy::Peritext => "Peritext CRDT enables conflict-free collaborative text editing with formatting. Ideal for rich text fields ("@
            + ty + "). Preserves concurrent edits and user intent. Usage pattern: "@ + u
            + ". Best-in-class for collaborative documents."@,
        CrdtStrategy::OrSet => "Observed-Remove Set uses add-wins semantics for collections ("@ + ty
            + "). Concurrent additions always preserved. Removes only affect observed elements. Usage pattern: "@
            + u + ". Perfect for collaborative tag/member lists."@,
        CrdtStrategy::PnCounter => "Positive-Negative Counter maintains separate increment/decrement operations. Commutative and convergent for numeric fields ("@
            + ty + "). Usage pattern: "@ + u + ". Ideal for likes, votes, and distributed counters."@,
        CrdtStrategy::Rga => "Replicated Growable Array preserves causal ordering for sequences ("@
            + ty + "). Concurrent inserts ordered deterministically. Usage pattern: "@ + u
            + ". Great for ordered lists and task sequences."@,
        CrdtStrategy::MvRegister => "Multi-Value Register keeps all concurrent values until explicitly resolved. Useful for detecting conflicts in "@
            + ty + " fields. Usage pattern: "@ + u + ". Allows application-level conflict resolution."@,
    }
}

/// The extra options of a strategy's example annotation.
pub open spec fn example_options(strategy: CrdtStrategy) -> Seq<char> {
    match strategy {
        CrdtStrategy::Peritext => ", formatting=\"full\""@,
        CrdtStrategy::PnCounter => ", min_value=0"@,
        _ => ""@,
    }
}

/// The example annotation: `@crdt(strategy, options) has name: type`.
pub open spec fn example_text(name: Seq<char>, ty: Seq<char>, strategy: CrdtStrategy) -> Seq<char> {
    "@crdt("@ + strategy_name(strategy) + example_options(strategy) + ") has "@ + name + ": "@ + ty
}

/// Why one might choose a strategy instead.
pub open spec fn alternative_text(strategy: CrdtStrategy, usage: UsagePattern) -> Seq<char> {
    match strategy {
        CrdtStrategy::Lww => "Simpler but loses concurrent edits (last writer wins)"@,
        CrdtStrategy::Immutable => "Prevents all modifications after initial set"@,
        CrdtStrategy::MvRegister => "Keeps all concurrent values for manual resolution"@,
        CrdtStrategy::Peritext => "Better for collaborative editing but higher overhead. Usage: "@
            + usage.spec_debug_name(),
        CrdtStrategy::OrSet => "Add-wins semantics, good for collections"@,
        CrdtStrategy::PnCounter => "Optimized for numeric increment/decrement operations"@,
        CrdtStrategy::Rga => "Preserves ordering for sequences"@,
    }
}

/// The strategy named `s`, if any.
pub open spec fn strategy_named(s: Seq<char>) -> Option<CrdtStrategy> {
    if s == "immutable"@ {
        Some(CrdtStrategy::Immutable)
    } else if s == "lww"@ {
        Some(CrdtStrategy::Lww)
    } else if s == "peritext"@ {
        Some(CrdtStrategy::Peritext)
    } else if s == "or_set"@ {
        Some(CrdtStrategy::OrSet)
    } else if s == "pn_counter"@ {
        Some(CrdtStrategy::PnCounter)
    } else if s == "rga"@ {
        Some(CrdtStrategy::Rga)
    } else if s == "mv_register"@ {
        Some(CrdtStrategy::MvRegister)
    } else {
        None
    }
}

/// The advantages of a strategy.
pub open spec fn spec_pros(strategy: Option<CrdtStrategy>) -> Seq<Seq<char>> {
    match strategy {
        Some(CrdtStrategy::Immutable) => seq!["No merge conflicts"@, "Minimal storage overhead"@, "Fast lookups"@],
        Some(CrdtStrategy::Lww) => seq!["Simple implementation"@, "Low storage overhead"@, "Fast merges"@],
        Some(CrdtStrategy::Peritext) => seq![
            "Conflict-free concurrent editing"@,
            "Preserves formatting"@,
            "Excellent UX for collaboration"@,
        ],
        Some(CrdtStrategy::OrSet) => seq![
            "Add-wins semantics (no conflicts)"@,
            "Preserves all concurrent additions"@,
            "Intuitive behavior"@,
        ],
        Some(CrdtStrategy::PnCounter) => seq![
            "Commutative operations"@,
            "No coordination needed"@,
            "Perfect for distributed counters"@,
        ],
        Some(CrdtStrategy::Rga) => seq![
            "Preserves causal order"@,
            "Deterministic concurrent inserts"@,
            "Good for sequences"@,
        ],
        Some(CrdtStrategy::MvRegister) => seq![
            "Detects all conflicts"@,
            "Application can choose resolution"@,
            "Flexible conflict handling"@,
        ],
        None => Seq::empty(),
    }
}

/// The disadvantages of a strategy.
pub open spec fn spec_cons(strategy: Option<CrdtStrategy>) -> Seq<Seq<char>> {
    match strategy {
        Some(CrdtStrategy::Immutable) => seq!["Cannot modify after creation"@, "Requires careful initial value"@],
        Some(CrdtStrategy::Lww) => seq!["Loses concurrent updates"@, "Requires accurate timestamps"@],
        Some(CrdtStrategy::Peritext) => seq![
            "Higher storage overhead"@,
            "More complex merge logic"@,
            "Larger sync payloads"@,
        ],
        Some(CrdtStrategy::OrSet) => seq!["Tombstone overhead"@, "Larger than simple sets"@],
        Some(CrdtStrategy::PnCounter) => seq![
            "Per-actor state tracking"@,
            "Cannot enforce strict bounds without coordination"@,
        ],
        Some(CrdtStrategy::Rga) => seq!["Tombstone overhead for deletes"@, "More complex than simple arrays"@],
        Some(CrdtStrategy::MvRegister) => seq![
            "Requires manual conflict resolution"@,
            "Can accumulate values without cleanup"@,
        ],
        None => Seq::empty(),
    }
}

/// The name and reason of each alternative.
pub open spec fn alternatives_view(alts: Seq<Alternative>) -> Seq<(Seq<char>, Seq<char>)> {
    alts.map_values(|a: Alternative| (a.strategy@, a.reason@))
}

/// The alternatives offered: up to three strategies other than the best,
/// by descending score, each with its reason.
pub open spec fn spec_alternatives(
    cands: Seq<ScoredStrategy>,
    best: CrdtStrategy,
    usage: UsagePattern,
) -> Seq<(Seq<char>, Seq<char>)> {
    first_n(others(sort_desc(cands), best), 3).map_values(
        |s: CrdtStrategy| (strategy_name(s), alternative_text(s, usage)),
    )
}

/// `r` is the recommendation for a field `name: ty` used as `usage` with
/// consistency `consistency`.
pub open spec fn is_recommendation(
    r: CrdtRecommendation,
    name: Seq<char>,
    ty: Seq<char>,
    usage: UsagePattern,
    consistency: ConsistencyLevel,
) -> bool {
    let base = spec_base_type(ty);
    let cands = spec_candidates(spec_compatible(base), base, usage, consistency);
    let best = best_or_default(cands);
    &&& r.field_name@ == name
    &&& r.field_type@ == ty
    &&& r.recommended_strategy@ == strategy_name(best.strategy)
    &&& r.confidence == best.confidence
    &&& r.reasoning@ == reasoning_text(best.strategy, ty, usage, consistency)
    &&& r.example@ == example_text(name, ty, best.strategy)
    &&& alternatives_view(r.alternatives@) == spec_alternatives(cands, best.strategy, usage)
    &&& strings_view(r.trade_offs.pros@) == spec_pros(Some(best.strategy))
    &&& strings_view(r.trade_offs.cons@) == spec_cons(Some(best.strategy))
}

// ---------------------------------------------------------------------------
// The recommender
// ---------------------------------------------------------------------------

/// Inserts `x` into `sorted` after every element that scores at least as
/// high.
fn insert_by_score(sorted: Vec<ScoredStrategy>, x: ScoredStrategy) -> (r: Vec<ScoredStrategy>)
    ensures
        r@ == insert_desc(sorted@, x),
    decreases sorted@.len(),
{
    let mut sorted = sorted;
    match sorted.pop() {
        None => {
            let mut v = Vec::new();
            v.push(x);
            assert(v@ =~= seq![x]);
            v
        },
        Some(last) => {
            if last.score >= x.score {
                sorted.push(last);
                sorted.push(x);
                sorted
            } else {
                let mut r = insert_by_score(sorted, x);
                r.push(last);
                r
            }
        },
    }
}

/// Sorts candidates by descending score, keeping the order of equal
/// scores.
fn sort_by_score(cands: &Vec<ScoredStrategy>) -> (r: Vec<ScoredStrategy>)
    ensures
        r@ == sort_desc(cands@),
{
    let mut sorted: Vec<ScoredStrategy> = Vec::new();
    let mut i: usize = 0;
    while i < cands.len()
        invariant
            i <= cands@.len(),
            sorted@ == sort_desc(cands@.take(i as int)),
        decreases cands.len() - i,
    {
        assert(cands@.take(i + 1).drop_last() =~= cands@.take(i as int));
        sorted = insert_by_score(sorted, cands[i]);
        i = i + 1;
    }
    assert(cands@.take(cands@.len() as int) =~= cands@);
    sorted
}

/// `a`, `x`, `b`, `y` and `c` one after the other.
fn join5(a: &str, x: &str, b: &str, y: &str, c: &str) -> (r: String)
    ensures
        r@ == a@ + x@ + b@ + y@ + c@,
{
    let mut s = owned(a);
    s.append(x);
    s.append(b);
    s.append(y);
    s.append(c);
    s
}

/// The strategy named `s`, if any.
fn strategy_from_str(s: &str) -> (r: Option<CrdtStrategy>)
    ensures
        r == strategy_named(s@),
{
    if str_eq(s, "immutable") {
        Some(CrdtStrategy::Immutable)
    } else if str_eq(s, "lww") {
        Some(CrdtStrategy::Lww)
    } else if str_eq(s, "peritext") {
        Some(CrdtStrategy::Peritext)
    } else if str_eq(s, "or_set") {
        Some(CrdtStrategy::OrSet)
    } else if str_eq(s, "pn_counter") {
        Some(CrdtStrategy::PnCounter)
    } else if str_eq(s, "rga") {
        Some(CrdtStrategy::Rga)
    } else if str_eq(s, "mv_register") {
        Some(CrdtStrategy::MvRegister)
    } else {
        None
    }
}

/// A list of owned strings whose texts are `items`.
fn string_list(items: Vec<&str>) -> (r: Vec<String>)
    ensures
        strings_view(r@) == items@.map_values(|x: &str| x@),
{
    let r = owned_all(&items);
    assert(strings_view(r@) =~= items@.map_values(|x: &str| x@));
    r
}

/// CRDT strategy recommender.
///
/// Provides recommendations for CRDT strategies based on field
/// characteristics and usage patterns.
pub struct CrdtRecommender {
    compatibility_matrix: CompatibilityMatrix,
}

impl Default for CrdtRecommender {
    /// A recommender over the compatibility matrix.
    fn default() -> (r: CrdtRecommender) {
        CrdtRecommender::new()
    }
}

impl CrdtRecommender {
    /// The compatibility matrix that the recommender consults.
    pub closed spec fn matrix(&self) -> CompatibilityMatrix {
        self.compatibility_matrix
    }

    /// Creates a new CRDT recommender over the compatibility matrix.
    pub fn new() -> (r: CrdtRecommender)
        ensures
            r.matrix() == (CompatibilityMatrix {}),
    {
        CrdtRecommender { compatibility_matrix: CompatibilityMatrix::default() }
    }

    /// Scores a strategy for a given context.
    pub fn score_strategy(
        &self,
        strategy: CrdtStrategy,
        base_type: &str,
        full_type: &str,
        usage: UsagePattern,
        consistency: ConsistencyLevel,
    ) -> (r: Option<ScoredStrategy>)
        ensures
            r == spec_score(strategy, base_type@, usage, consistency),
    {
        let mut score: i32 = 50;
        let mut confidence = Confidence::Medium;
        if str_eq(base_type, "String") && strategy == CrdtStrategy::Peritext && usage
            == UsagePattern::CollaborativeText {
            score = score + 40;
            confidence = Confidence::High;
        } else if str_eq(base_type, "String") && strategy == CrdtStrategy::Lww && usage
            == UsagePattern::LastWriteWins {
            score = score + 30;
            confidence = Confidence::High;
        } else if strategy == CrdtStrategy::PnCounter && is_integer_type(base_type) && usage
            == UsagePattern::Counter {
            score = score + 40;
            confidence = Confidence::High;
        } else if str_eq(base_type, "Set") && strategy == CrdtStrategy::OrSet && usage
            == UsagePattern::MultiUserSet {
            score = score + 40;
            confidence = Confidence::High;
        } else if strategy == CrdtStrategy::Rga && (str_eq(base_type, "Vec") || str_eq(
            base_type,
            "List",
        )) && usage == UsagePattern::OrderedList {
            score = score + 40;
            confidence = Confidence::High;
        } else if strategy == CrdtStrategy::Immutable && usage == UsagePattern::WriteOnce {
            score = score + 50;
            confidence = Confidence::High;
        } else if strategy == CrdtStrategy::Lww && is_simple_type(base_type) {
            score = score + 20;
            confidence = Confidence::Medium;
        } else {
            if !self.compatibility_matrix.is_compatible(
                base_type,
                full_type,
                format_strategy(&strategy),
            ) {
                return None;
            }
        }
        match consistency {
            ConsistencyLevel::Eventual => {
                score = score + 10;
            },
            ConsistencyLevel::Causal => {
                if strategy == CrdtStrategy::Peritext || strategy == CrdtStrategy::Rga || strategy
                    == CrdtStrategy::MvRegister {
                    score = score + 15;
                }
            },
            ConsistencyLevel::Strong => {
                score = score - 20;
                if strategy == CrdtStrategy::Immutable {
                    score = score + 30;
                }
            },
        }
        Some(ScoredStrategy { strategy, score, confidence })
    }

    /// Recommends a CRDT strategy for a field `field_name: field_type`.
    pub fn recommend(
        &self,
        field_name: &str,
        field_type: &str,
        usage_pattern: UsagePattern,
        consistency: ConsistencyLevel,
    ) -> (r: CrdtRecommendation)
        ensures
            is_recommendation(r, field_name@, field_type@, usage_pattern, consistency),
    {
        let base_type = parse_base_type(field_type);
        let ghost base = base_type@;
        let compatible = self.compatibility_matrix.get_compatible_strategies(base_type.as_str());
        let mut candidates: Vec<ScoredStrategy> = Vec::new();
        let mut i: usize = 0;
        while i < compatible.len()
            invariant
                i <= compatible@.len(),
                base_type@ == base,
                candidates@ == spec_candidates(
                    compatible@.take(i as int),
                    base,
                    usage_pattern,
                    consistency,
                ),
            decreases compatible.len() - i,
        {
            assert(compatible@.take(i + 1).drop_last() =~= compatible@.take(i as int));
            assert(compatible@.take(i + 1).last() == compatible@[i as int]);
            match self.score_strategy(
                compatible[i],
                base_type.as_str(),
                field_type,
                usage_pattern,
                consistency,
            ) {
                Some(c) => candidates.push(c),
                None => {},
            }
            i = i + 1;
        }
        assert(compatible@.take(compatible@.len() as int) =~= compatible@);
        let mut best: Option<ScoredStrategy> = None;
        let mut j: usize = 0;
        while j < candidates.len()
            invariant
                j <= candidates@.len(),
                best == spec_best(candidates@.take(j as int)),
            decreases candidates.len() - j,
        {
            assert(candidates@.take(j + 1).drop_last() =~= candidates@.take(j as int));
            let c = candidates[j];
            match best {
                None => {
                    best = Some(c);
                },
                Some(b) => {
                    if c.score >= b.score {
                        best = Some(c);
                    }
                },
            }
            j = j + 1;
        }
        assert(candidates@.take(candidates@.len() as int) =~= candidates@);
        let best = match best {
            Some(b) => b,
            None => ScoredStrategy {
                strategy: CrdtStrategy::Lww,
                score: 50,
                confidence: Confidence::Low,
            },
        };
        self.build_recommendation(
            field_name,
            field_type,
            best,
            candidates,
            usage_pattern,
            consistency,
        )
    }

    /// Builds a complete recommendation from the scored strategy.
    fn build_recommendation(
        &self,
        field_name: &str,
        field_type: &str,
        best: ScoredStrategy,
        candidates: Vec<ScoredStrategy>,
        usage: UsagePattern,
        consistency: ConsistencyLevel,
    ) -> (r: CrdtRecommendation)
        ensures
            r.field_name@ == field_name@,
            r.field_type@ == field_type@,
            r.recommended_strategy@ == strategy_name(best.strategy),
            r.confidence == best.confidence,
            r.reasoning@ == reasoning_text(best.strategy, field_type@, usage, consistency),
            r.example@ == example_text(field_name@, field_type@, best.strategy),
            alternatives_view(r.alternatives@) == spec_alternatives(
                candidates@,
                best.strategy,
                usage,
            ),
            strings_view(r.trade_offs.pros@) == spec_pros(Some(best.strategy)),
            strings_view(r.trade_offs.cons@) == spec_cons(Some(best.strategy)),
    {
        let reasoning = self.generate_reasoning(best.strategy, field_type, usage, consistency);
        let example = self.generate_example(field_name, field_type, best.strategy);
        let name = format_strategy(&best.strategy);
        let trade_offs = self.analyze_trade_offs(name, field_type);
        proof {
            lemma_strategy_named(best.strategy);
        }
        let sorted = sort_by_score(&candidates);
        let mut alternatives: Vec<Alternative> = Vec::new();
        let mut j: usize = 0;
        while j < sorted.len()
            invariant
                j <= sorted@.len(),
                sorted@ == sort_desc(candidates@),
                alternatives_view(alternatives@) == first_n(
                    others(sorted@.take(j as int), best.strategy),
                    3,
                ).map_values(|s: CrdtStrategy| (strategy_name(s), alternative_text(s, usage))),
            decreases sorted.len() - j,
        {
            assert(sorted@.take(j + 1).drop_last() =~= sorted@.take(j as int));
            let c = sorted[j];
            let ghost prev = others(sorted@.take(j as int), best.strategy);
            if c.strategy != best.strategy && alternatives.len() < 3 {
                let reason = self.generate_alternative_reason(c.strategy, field_type, usage);
                let ghost before = alternatives@;
                alternatives.push(Alternative { strategy: owned(format_strategy(&c.strategy)), reason });
                proof {
                    assert(alternatives_view(alternatives@) =~= alternatives_view(before).push(
                        (strategy_name(c.strategy), alternative_text(c.strategy, usage)),
                    ));
                    assert(first_n(prev.push(c.strategy), 3) =~= first_n(prev, 3).push(c.strategy));
                    assert(first_n(prev.push(c.strategy), 3).map_values(
                        |s: CrdtStrategy| (strategy_name(s), alternative_text(s, usage)),
                    ) =~= first_n(prev, 3).map_values(
                        |s: CrdtStrategy| (strategy_name(s), alternative_text(s, usage)),
                    ).push((strategy_name(c.strategy), alternative_text(c.strategy, usage))));
                }
            } else if c.strategy != best.strategy {
                assert(alternatives_view(alternatives@).len() == alternatives@.len());
                assert(prev.len() >= 3);
                assert(first_n(prev.push(c.strategy), 3) =~= first_n(prev, 3));
            }
            j = j + 1;
        }
        assert(sorted@.take(sorted@.len() as int) =~= sorted@);
        CrdtRecommendation {
            field_name: owned(field_name),
            field_type: owned(field_type),
            recommended_strategy: owned(name),
            confidence: best.confidence,
            reasoning,
            example,
            alternatives,
            trade_offs,
        }
    }

    /// Generates reasoning for a recommendation.
    fn generate_reasoning(
        &self,
        strategy: CrdtStrategy,
        field_type: &str,
        usage: UsagePattern,
        consistency: ConsistencyLevel,
    ) -> (r: String)
        ensures
            r@ == reasoning_text(strategy, field_type@, usage, consistency),
    {
        let u = usage.debug_name();
        match strategy {
            CrdtStrategy::Immutable => join5(
                "Immutable strategy ensures field is set exactly once and never modified. Perfect for identity fields like IDs and timestamps. Type ",
                field_type,
                " is compatible. Consistency requirement: ",
                consistency.debug_name(),
                ".",
            ),
            CrdtStrategy::Lww => join5(
                "Last-Write-Wins strategy resolves conflicts by keeping the most recent write. Simple and efficient for single-valued fields like ",
                field_type,
                ". Usage pattern: ",
                u,
                ". Trade-off: Concurrent updates may be lost.",
            ),
            CrdtStrategy::Peritext => join5(
                "Peritext CRDT enables conflict-free collaborative text editing with formatting. Ideal for rich text fields (",
                field_type,
                "). Preserves concurrent edits and user intent. Usage pattern: ",
                u,
                ". Best-in-class for collaborative documents.",
            ),
            CrdtStrategy::OrSet => join5(
                "Observed-Remove Set uses add-wins semantics for collections (",
                field_type,
                "). Concurrent additions always preserved. Removes only affect observed elements. Usage pattern: ",
                u,
                ". Perfect for collaborative tag/member lists.",
            ),
            CrdtStrategy::PnCounter => join5(
                "Positive-Negative Counter maintains separate increment/decrement operations. Commutative and convergent for numeric fields (",
                field_type,
                "). Usage pattern: ",
                u,
                ". Ideal for likes, votes, and distributed counters.",
            ),
            CrdtStrategy::Rga => join5(
                "Replicated Growable Array preserves causal ordering for sequences (",
                field_type,
                "). Concurrent inserts ordered deterministically. Usage pattern: ",
                u,
                ". Great for ordered lists and task sequences.",
            ),
            CrdtStrategy::MvRegister => join5(
                "Multi-Value Register keeps all concurrent values until explicitly resolved. Useful for detecting conflicts in ",
                field_type,
                " fields. Usage pattern: ",
                u,
                ". Allows application-level conflict resolution.",
            ),
        }
    }

    /// Generates example DOL code for a recommendation.
    fn generate_example(&self, field_name: &str, field_type: &str, strategy: CrdtStrategy) -> (r:
        String)
        ensures
            r@ == example_text(field_name@, field_type@, strategy),
    {
        let options = match strategy {
            CrdtStrategy::Peritext => ", formatting=\"full\"",
            CrdtStrategy::PnCounter => ", min_value=0",
            _ => "",
        };
        let mut s = owned("@crdt(");
        s.append(format_strategy(&strategy));
        s.append(options);
        s.append(") has ");
        s.append(field_name);
        s.append(": ");
        s.append(field_type);
        s
    }

    /// Generates alternative recommendation reasoning.
    fn generate_alternative_reason(
        &self,
        strategy: CrdtStrategy,
        field_type: &str,
        usage: UsagePattern,
    ) -> (r: String)
        ensures
            r@ == alternative_text(strategy, usage),
    {
        match strategy {
            CrdtStrategy::Lww => owned("Simpler but loses concurrent edits (last writer wins)"),
            CrdtStrategy::Immutable => owned("Prevents all modifications after initial set"),
            CrdtStrategy::MvRegister => owned("Keeps all concurrent values for manual resolution"),
            CrdtStrategy::Peritext => {
                let mut s = owned("Better for collaborative editing but higher overhead. Usage: ");
                s.append(usage.debug_name());
                s
            },
            CrdtStrategy::OrSet => owned("Add-wins semantics, good for collections"),
            CrdtStrategy::PnCounter => owned("Optimized for numeric increment/decrement operations"),
            CrdtStrategy::Rga => owned("Preserves ordering for sequences"),
        }
    }

    /// Analyzes trade-offs for a strategy: its pros and cons (none for an
    /// unknown strategy).
    pub fn analyze_trade_offs(&self, strategy: &str, field_type: &str) -> (r: TradeOffs)
        ensures
            strings_view(r.pros@) == spec_pros(strategy_named(strategy@)),
            strings_view(r.cons@) == spec_cons(strategy_named(strategy@)),
    {
        let (pros, cons) = match strategy_from_str(strategy) {
            Some(CrdtStrategy::Immutable) => (
                vec!["No merge conflicts", "Minimal storage overhead", "Fast lookups"],
                vec!["Cannot modify after creation", "Requires careful initial value"],
            ),
            Some(CrdtStrategy::Lww) => (
                vec!["Simple implementation", "Low storage overhead", "Fast merges"],
                vec!["Loses concurrent updates", "Requires accurate timestamps"],
            ),
            Some(CrdtStrategy::Peritext) => (
                vec![
                    "Conflict-free concurrent editing",
                    "Preserves formatting",
                    "Excellent UX for collaboration",
                ],
                vec!["Higher storage overhead", "More complex merge logic", "Larger sync payloads"],
            ),
            Some(CrdtStrategy::OrSet) => (
                vec![
                    "Add-wins semantics (no conflicts)",
                    "Preserves all concurrent additions",
                    "Intuitive behavior",
                ],
                vec!["Tombstone overhead", "Larger than simple sets"],
            ),
            Some(CrdtStrategy::PnCounter) => (
                vec!["Commutative operations", "No coordination needed", "Perfect for distributed counters"],
                vec!["Per-actor state tracking", "Cannot enforce strict bounds without coordination"],
            ),
            Some(CrdtStrategy::Rga) => (
                vec!["Preserves causal order", "Deterministic concurrent inserts", "Good for sequences"],
                vec!["Tombstone overhead for deletes", "More complex than simple arrays"],
            ),
            Some(CrdtStrategy::MvRegister) => (
                vec![
                    "Detects all conflicts",
                    "Application can choose resolution",
                    "Flexible conflict handling",
                ],
                vec!["Requires manual conflict resolution", "Can accumulate values without cleanup"],
            ),
            None => (Vec::new(), Vec::new()),
        };
        let r = TradeOffs { pros: string_list(pros), cons: string_list(cons) };
        assert(strings_view(r.pros@) =~= spec_pros(strategy_named(strategy@)));
        assert(strings_view(r.cons@) =~= spec_cons(strategy_named(strategy@)));
        r
    }
}

/// The lengths of the strategy names, and the characters that tell apart
/// names of equal length.
proof fn lemma_strategy_name_facts()
    ensures
        "immutable"@.len() == 9,
        "lww"@.len() == 3,
        "peritext"@.len() == 8,
        "or_set"@.len() == 6,
        "pn_counter"@.len() == 10,
        "rga"@.len() == 3,
        "mv_register"@.len() == 11,
        "lww"@[0] == 'l',
        "rga"@[0] == 'r',
{
    reveal_strlit("immutable");
    reveal_strlit("lww");
    reveal_strlit("peritext");
    reveal_strlit("or_set");
    reveal_strlit("pn_counter");
    reveal_strlit("rga");
    reveal_strlit("mv_register");
}

/// Reading back the name of a strategy gives the strategy.
pub proof fn lemma_strategy_named(s: CrdtStrategy)
    ensures
        strategy_named(strategy_name(s)) == Some(s),
{
    lemma_strategy_name_facts();
    match s {
        CrdtStrategy::Immutable => {},
        CrdtStrategy::Lww => {},
        CrdtStrategy::OrSet => {},
        CrdtStrategy::PnCounter => {},
        CrdtStrategy::Peritext => {},
        CrdtStrategy::Rga => {},
        CrdtStrategy::MvRegister => {},
    }
}


/// Every candidate scored from `strategies` is one of them.
pub proof fn lemma_candidates_from(
    strategies: Seq<CrdtStrategy>,
    base: Seq<char>,
    usage: UsagePattern,
    consistency: ConsistencyLevel,
)
    ensures
        forall|k: int|
            0 <= k < spec_candidates(strategies, base, usage, consistency).len()
                ==> strategies.contains(
                #[trigger] spec_candidates(strategies, base, usage, consistency)[k].strategy,
            ),
    decreases strategies.len(),
{
    if strategies.len() > 0 {
        let prev = strategies.drop_last();
        lemma_candidates_from(prev, base, usage, consistency);
        let cands = spec_candidates(strategies, base, usage, consistency);
        assert forall|k: int| 0 <= k < cands.len() implies strategies.contains(
            #[trigger] cands[k].strategy,
        ) by {
            let pc = spec_candidates(prev, base, usage, consistency);
            if k < pc.len() {
                assert(cands[k] == pc[k]);
                let j = choose|j: int| 0 <= j < prev.len() && prev[j] == pc[k].strategy;
                assert(strategies[j] == prev[j]);
            } else {
                assert(cands[k].strategy == strategies.last());
                assert(strategies[strategies.len() - 1] == strategies.last());
            }
        }
    }
}

/// The best of a non-empty list of candidates is one of them.
pub proof fn lemma_best_is_candidate(cands: Seq<ScoredStrategy>)
    ensures
        cands.len() > 0 ==> spec_best(cands) is Some,
        spec_best(cands) matches Some(b) ==> cands.contains(b),
    decreases cands.len(),
{
    if cands.len() > 0 {
        lemma_best_is_candidate(cands.drop_last());
        match spec_best(cands.drop_last()) {
            Some(b) => {
                let j = choose|j: int| 0 <= j < cands.drop_last().len() && cands.drop_last()[j] == b;
                assert(cands[j] == b);
                assert(cands[cands.len() - 1] == cands.last());
            },
            None => {
                assert(cands[cands.len() - 1] == cands.last());
            },
        }
    }
}

/// The recommended strategy is always one that the field's base type
/// admits.
pub proof fn lemma_recommendation_is_compatible(
    ty: Seq<char>,
    usage: UsagePattern,
    consistency: ConsistencyLevel,
)
    ensures
        ({
            let base = spec_base_type(ty);
            spec_compatible(base).contains(
                best_or_default(
                    spec_candidates(spec_compatible(base), base, usage, consistency),
                ).strategy,
            )
        }),
{
    let base = spec_base_type(ty);
    let compat = spec_compatible(base);
    let cands = spec_candidates(compat, base, usage, consistency);
    let last = compat.last();
    assert(compat.len() > 0);
    assert(strategy_name(compat[compat.len() - 1]) == strategy_name(last));
    assert(spec_is_compatible(base, strategy_name(last)));
    assert(spec_score(last, base, usage, consistency) is Some);
    assert(cands.len() > 0);
    lemma_candidates_from(compat, base, usage, consistency);
    lemma_best_is_candidate(cands);
    let b = spec_best(cands)->0;
    let k = choose|k: int| 0 <= k < cands.len() && cands[k] == b;
    assert(compat.contains(cands[k].strategy));
}

/// The alternatives never hold the strategy they stand beside.
proof fn lemma_others_exclude(cands: Seq<ScoredStrategy>, best: CrdtStrategy)
    ensures
        !others(cands, best).contains(best),
    decreases cands.len(),
{
    if cands.len() > 0 {
        lemma_others_exclude(cands.drop_last(), best);
    }
}

/// A recommendation offers at most three alternatives, none of them the
/// recommended strategy itself.
pub proof fn lemma_alternatives_exclude_recommended(
    cands: Seq<ScoredStrategy>,
    best: CrdtStrategy,
)
    ensures
        first_n(others(sort_desc(cands), best), 3).len() <= 3,
        !first_n(others(sort_desc(cands), best), 3).contains(best),
{
    let o = others(sort_desc(cands), best);
    lemma_others_exclude(sort_desc(cands), best);
    if o.len() > 3 {
        assert forall|k: int| 0 <= k < o.take(3).len() implies o.take(3)[k] != best by {
            assert(o.take(3)[k] == o[k]);
        }
    }
}

/// Whether `s` is ordered by descending score.
pub open spec fn desc_sorted(s: Seq<ScoredStrategy>) -> bool {
    forall|i: int, j: int| 0 <= i < j < s.len() ==> #[trigger] s[i].score >= #[trigger] s[j].score
}

/// The recommended candidate scores at least as high as every candidate.
pub proof fn lemma_best_is_maximal(cands: Seq<ScoredStrategy>)
    ensures
        spec_best(cands) matches Some(b) ==> forall|k: int|
            0 <= k < cands.len() ==> #[trigger] cands[k].score <= b.score,
    decreases cands.len(),
{
    if cands.len() > 0 {
        lemma_best_is_maximal(cands.drop_last());
        let b = spec_best(cands)->0;
        assert forall|k: int| 0 <= k < cands.len() implies #[trigger] cands[k].score <= b.score by {
            if k < cands.len() - 1 {
                assert(cands.drop_last()[k] == cands[k]);
            }
        }
    }
}

/// Placing a candidate into a list ordered by descending score keeps it
/// ordered, and adds just that candidate.
proof fn lemma_insert_desc(sorted: Seq<ScoredStrategy>, x: ScoredStrategy)
    requires
        desc_sorted(sorted),
    ensures
        desc_sorted(insert_desc(sorted, x)),
        insert_desc(sorted, x).to_multiset() == sorted.to_multiset().insert(x),
        insert_desc(sorted, x).len() == sorted.len() + 1,
        forall|k: int| 0 <= k < insert_desc(sorted, x).len() ==> (#[trigger] insert_desc(sorted, x)[k] == x
            || sorted.contains(insert_desc(sorted, x)[k])),
    decreases sorted.len(),
{
    broadcast use vstd::seq_lib::group_to_multiset_ensures;

    if sorted.len() == 0 {
        assert(seq![x] =~= Seq::<ScoredStrategy>::empty().push(x));
    } else if sorted.last().score >= x.score {
    } else {
        let d = sorted.drop_last();
        let l = sorted.last();
        assert(desc_sorted(d)) by {
            assert forall|i: int, j: int| 0 <= i < j < d.len() implies #[trigger] d[i].score >= #[trigger] d[j].score by {
                assert(d[i] == sorted[i] && d[j] == sorted[j]);
            }
        }
        lemma_insert_desc(d, x);
        let r = insert_desc(d, x);
        assert(sorted =~= d.push(l));
        assert forall|k: int| 0 <= k < r.len() implies #[trigger] r[k].score >= l.score by {
            if r[k] != x {
                let j = choose|j: int| 0 <= j < d.len() && d[j] == r[k];
                assert(sorted[j] == d[j]);
                assert(sorted[sorted.len() - 1] == l);
            }
        }
        let out = r.push(l);
        assert forall|i: int, j: int| 0 <= i < j < out.len() implies #[trigger] out[i].score >= #[trigger] out[j].score by {
            if j == out.len() - 1 {
                assert(out[i] == r[i]);
            } else {
                assert(out[i] == r[i] && out[j] == r[j]);
            }
        }
        assert forall|k: int| 0 <= k < out.len() implies (#[trigger] out[k] == x || sorted.contains(out[k])) by {
            if k == out.len() - 1 {
                assert(sorted[sorted.len() - 1] == l);
            } else {
                assert(out[k] == r[k]);
                if r[k] != x {
                    let j = choose|j: int| 0 <= j < d.len() && d[j] == r[k];
                    assert(sorted[j] == d[j]);
                }
            }
        }
        assert(out.to_multiset() =~= sorted.to_multiset().insert(x));
    }
}

/// The alternatives are drawn from the candidates ordered by descending
/// score: the ordering keeps every candidate, once each, and puts higher
/// scores first.
pub proof fn lemma_sort_desc_orders(cands: Seq<ScoredStrategy>)
    ensures
        desc_sorted(sort_desc(cands)),
        sort_desc(cands).to_multiset() == cands.to_multiset(),
    decreases cands.len(),
{
    broadcast use vstd::seq_lib::group_to_multiset_ensures;

    if cands.len() > 0 {
        lemma_sort_desc_orders(cands.drop_last());
        lemma_insert_desc(sort_desc(cands.drop_last()), cands.last());
        assert(cands =~= cands.drop_last().push(cands.last()));
    } else {
        assert(sort_desc(cands) =~= Seq::<ScoredStrategy>::empty());
    }
}


// ---------------------------------------------------------------------------
// Laws of the recommender
// ---------------------------------------------------------------------------

/// A `Vec` or a `List` admits immutable, last-write-wins, RGA and
/// multi-value registers, and is no simple scalar.
proof fn lemma_sequence_types(b: Seq<char>)
    requires
        b == "Vec"@ || b == "List"@,
    ensures
        spec_compatible(b) == seq![
            CrdtStrategy::Immutable,
            CrdtStrategy::Lww,
            CrdtStrategy::Rga,
            CrdtStrategy::MvRegister,
        ],
        !is_simple_name(b),
        b != "String"@,
        b != "Set"@,
        !is_integer_name(b),
{
    reveal_strlit("String");
    reveal_strlit("string");
    reveal_strlit("Bool");
    reveal_strlit("bool");
    reveal_strlit("Set");
    reveal_strlit("Vec");
    reveal_strlit("List");
    reveal_strlit("i8");
    reveal_strlit("i16");
    reveal_strlit("i32");
    reveal_strlit("i64");
    reveal_strlit("i128");
    reveal_strlit("u8");
    reveal_strlit("u16");
    reveal_strlit("u32");
    reveal_strlit("u64");
    reveal_strlit("u128");
    reveal_strlit("Int");
    reveal_strlit("int");
    reveal_strlit("f32");
    reveal_strlit("f64");
    reveal_strlit("Float");
    reveal_strlit("float");
    if b == "Vec"@ {
        assert(b.len() == 3 && b[0] == 'V');
    } else {
        assert(b.len() == 4 && b[0] == 'L');
    }
    assert(b != "String"@) by { assert("String"@.len() != b.len() || "String"@[0] != b[0]); }
    assert(b != "string"@) by { assert("string"@.len() != b.len() || "string"@[0] != b[0]); }
    assert(b != "Bool"@) by { assert("Bool"@.len() != b.len() || "Bool"@[0] != b[0]); }
    assert(b != "bool"@) by { assert("bool"@.len() != b.len() || "bool"@[0] != b[0]); }
    assert(b != "Set"@) by { assert("Set"@.len() != b.len() || "Set"@[0] != b[0]); }
    assert(b != "i8"@) by { assert("i8"@.len() != b.len() || "i8"@[0] != b[0]); }
    assert(b != "i16"@) by { assert("i16"@.len() != b.len() || "i16"@[0] != b[0]); }
    assert(b != "i32"@) by { assert("i32"@.len() != b.len() || "i32"@[0] != b[0]); }
    assert(b != "i64"@) by { assert("i64"@.len() != b.len() || "i64"@[0] != b[0]); }
    assert(b != "i128"@) by { assert("i128"@.len() != b.len() || "i128"@[0] != b[0]); }
    assert(b != "u8"@) by { assert("u8"@.len() != b.len() || "u8"@[0] != b[0]); }
    assert(b != "u16"@) by { assert("u16"@.len() != b.len() || "u16"@[0] != b[0]); }
    assert(b != "u32"@) by { assert("u32"@.len() != b.len() || "u32"@[0] != b[0]); }
    assert(b != "u64"@) by { assert("u64"@.len() != b.len() || "u64"@[0] != b[0]); }
    assert(b != "u128"@) by { assert("u128"@.len() != b.len() || "u128"@[0] != b[0]); }
    assert(b != "Int"@) by { assert("Int"@.len() != b.len() || "Int"@[0] != b[0]); }
    assert(b != "int"@) by { assert("int"@.len() != b.len() || "int"@[0] != b[0]); }
    assert(b != "f32"@) by { assert("f32"@.len() != b.len() || "f32"@[0] != b[0]); }
    assert(b != "f64"@) by { assert("f64"@.len() != b.len() || "f64"@[0] != b[0]); }
    assert(b != "Float"@) by { assert("Float"@.len() != b.len() || "Float"@[0] != b[0]); }
    assert(b != "float"@) by { assert("float"@.len() != b.len() || "float"@[0] != b[0]); }
}

/// A sequence type (`Vec` or `List`) used as an ordered list is best
/// served by RGA, with high confidence, whatever the consistency level:
/// RGA scores 40 above each other strategy it admits.
pub proof fn lemma_ordered_sequences_get_rga(b: Seq<char>, consistency: ConsistencyLevel)
    requires
        b == "Vec"@ || b == "List"@,
    ensures
        best_or_default(
            spec_candidates(spec_compatible(b), b, UsagePattern::OrderedList, consistency),
        ).strategy == CrdtStrategy::Rga,
        best_or_default(
            spec_candidates(spec_compatible(b), b, UsagePattern::OrderedList, consistency),
        ).confidence == Confidence::High,
{
    lemma_sequence_types(b);
    let cs = spec_compatible(b);
    let u = UsagePattern::OrderedList;
    assert(strategy_name(cs[0]) == strategy_name(CrdtStrategy::Immutable));
    assert(strategy_name(cs[1]) == strategy_name(CrdtStrategy::Lww));
    assert(strategy_name(cs[3]) == strategy_name(CrdtStrategy::MvRegister));
    assert(spec_is_compatible(b, strategy_name(CrdtStrategy::Immutable)));
    assert(spec_is_compatible(b, strategy_name(CrdtStrategy::Lww)));
    assert(spec_is_compatible(b, strategy_name(CrdtStrategy::MvRegister)));
    assert(cs.drop_last() =~= cs.take(3));
    assert(cs.take(3).drop_last() =~= cs.take(2));
    assert(cs.take(2).drop_last() =~= cs.take(1));
    assert(cs.take(1).drop_last() =~= Seq::<CrdtStrategy>::empty());
    assert(type_rule(CrdtStrategy::Immutable, b, u) is None);
    assert(type_rule(CrdtStrategy::Lww, b, u) is None);
    assert(type_rule(CrdtStrategy::MvRegister, b, u) is None);
    assert(type_rule(CrdtStrategy::Rga, b, u) == Some((40int, Confidence::High)));
    assert(cs[0] == CrdtStrategy::Immutable && cs[1] == CrdtStrategy::Lww);
    assert(cs[2] == CrdtStrategy::Rga && cs[3] == CrdtStrategy::MvRegister);
    assert(spec_score(cs[0], b, u, consistency) is Some);
    assert(spec_score(cs[1], b, u, consistency) is Some);
    assert(spec_score(cs[2], b, u, consistency) is Some);
    assert(spec_score(cs[3], b, u, consistency) is Some);
    let s0 = spec_score(cs[0], b, u, consistency)->Some_0;
    let s1 = spec_score(cs[1], b, u, consistency)->Some_0;
    let s2 = spec_score(cs[2], b, u, consistency)->Some_0;
    let s3 = spec_score(cs[3], b, u, consistency)->Some_0;
    assert(cs.take(1).last() == cs[0] && cs.take(2).last() == cs[1] && cs.take(3).last() == cs[2]);
    assert(cs.last() == cs[3]);
    let c0 = spec_candidates(Seq::<CrdtStrategy>::empty(), b, u, consistency);
    assert(c0 == Seq::<ScoredStrategy>::empty());
    let c1 = spec_candidates(cs.take(1), b, u, consistency);
    assert(c1 == c0.push(s0));
    let c2 = spec_candidates(cs.take(2), b, u, consistency);
    assert(c2 == c1.push(s1));
    let c3 = spec_candidates(cs.take(3), b, u, consistency);
    assert(c3 == c2.push(s2));
    let c4 = spec_candidates(cs, b, u, consistency);
    assert(c4 == c3.push(s3));
    assert(s2.strategy == CrdtStrategy::Rga && s2.confidence == Confidence::High);
    assert(s2.score > s0.score && s2.score > s1.score && s2.score > s3.score);
    assert(c4.drop_last() =~= c3);
    assert(c3.drop_last() =~= c2);
    assert(c2.drop_last() =~= c1);
    assert(c1.drop_last() =~= c0);
    assert(spec_best(c0) is None);
    assert(c1.last() == s0 && c2.last() == s1 && c3.last() == s2 && c4.last() == s3);
    assert(spec_best(c1) == Some(s0));
    assert(spec_best(c2) == Some(s0) || spec_best(c2) == Some(s1));
    assert(spec_best(c3) == Some(s2));
    assert(spec_best(c4) == Some(s2));
}

/// A field whose type is a `Vec` or a `List` and which is used as an
/// ordered list is recommended RGA, with high confidence, at every
/// consistency level.
pub proof fn lemma_recommend_ordered_list(
    r: CrdtRecommendation,
    name: Seq<char>,
    ty: Seq<char>,
    consistency: ConsistencyLevel,
)
    requires
        spec_base_type(ty) == "Vec"@ || spec_base_type(ty) == "List"@,
        is_recommendation(r, name, ty, UsagePattern::OrderedList, consistency),
    ensures
        r.recommended_strategy@ == "rga"@,
        r.confidence == Confidence::High,
{
    lemma_ordered_sequences_get_rga(spec_base_type(ty), consistency);
}

} // verus!

//! The handlers of the MCP tools whose work the library does: CRDT
//! recommendations, strategy explanations, example schemas, and schema
//! generation from a description. Each takes its arguments by name, as
//! text, and answers with a text result or an error message.

use vstd::prelude::*;

use crate::mcp::nl_to_dol::{
    dol_source, entity_name_panics, recommended, spec_entity_name, spec_fields, NlRequirement,
    NlToDolConverter,
};
use crate::mcp::recommendations::{
    example_text, reasoning_text, ConsistencyLevel, CrdtRecommender, UsagePattern,
};
use crate::mcp::server::{McpServer, ToolResult};
use crate::mcp::tools::strategy_name;
use crate::text::{chars_of, owned, spec_trim, str_eq, string_from_chars, strings_view, trim};

verus! {

// ---------------------------------------------------------------------------
// Arguments
// ---------------------------------------------------------------------------

/// The value of the first entry named `key` in `e`, from index `i` on.
pub open spec fn lookup_from(e: Seq<(Seq<char>, Seq<char>)>, key: Seq<char>, i: nat) -> Option<
    Seq<char>,
>
    decreases e.len() - i,
{
    if i >= e.len() {
        None
    } else if e[i as int].0 == key {
        Some(e[i as int].1)
    } else {
        lookup_from(e, key, i + 1)
    }
}

/// The plain view of argument entries.
pub open spec fn entries_view(e: Seq<(String, String)>) -> Seq<(Seq<char>, Seq<char>)> {
    e.map_values(|p: (String, String)| (p.0@, p.1@))
}

/// Tool arguments, by name, as text.
pub struct ToolArgs {
    args: Vec<(String, String)>,
}

impl ToolArgs {
    /// The value of the argument `key`, if given (the first entry of that
    /// name counts).
    pub closed spec fn lookup(&self, key: Seq<char>) -> Option<Seq<char>> {
        lookup_from(entries_view(self.args@), key, 0)
    }

    /// Arguments from name and value pairs.
    pub fn new(args: Vec<(String, String)>) -> (r: ToolArgs)
        ensures
            forall|key: Seq<char>| r.lookup(key) == lookup_from(entries_view(args@), key, 0),
    {
        ToolArgs { args }
    }

    /// The argument `key`, or an error naming it when it is missing.
    pub fn get_string(&self, key: &str) -> (r: Result<String, String>)
        ensures
            match self.lookup(key@) {
                Some(v) => r matches Ok(x) && x@ == v,
                None => r matches Err(m) && m@ == "Missing or invalid argument: "@ + key@,
            },
    {
        match self.get_optional_string(key) {
            Some(v) => Ok(v),
            None => {
                let mut m = owned("Missing or invalid argument: ");
                m.append(key);
                Err(m)
            },
        }
    }

    /// The argument `key`, if given.
    pub fn get_optional_string(&self, key: &str) -> (r: Option<String>)
        ensures
            match self.lookup(key@) {
                Some(v) => r matches Some(x) && x@ == v,
                None => r is None,
            },
    {
        let ghost e = entries_view(self.args@);
        let mut i: usize = 0;
        while i < self.args.len()
            invariant
                i <= self.args@.len(),
                e == entries_view(self.args@),
                lookup_from(e, key@, i as nat) == lookup_from(e, key@, 0),
            decreases self.args.len() - i,
        {
            let entry = &self.args[i];
            assert(e[i as int] == (entry.0@, entry.1@));
            if str_eq(entry.0.as_str(), key) {
                return Some(entry.1.clone());
            }
            i = i + 1;
        }
        None
    }
}

// ---------------------------------------------------------------------------
// Names of usage patterns and consistency levels
// ---------------------------------------------------------------------------

/// The usage pattern a tool argument names.
pub open spec fn usage_named(s: Seq<char>) -> Option<UsagePattern> {
    if s == "write-once"@ {
        Some(UsagePattern::WriteOnce)
    } else if s == "last-write-wins"@ {
        Some(UsagePattern::LastWriteWins)
    } else if s == "collaborative-text"@ {
        Some(UsagePattern::CollaborativeText)
    } else if s == "multi-user-set"@ {
        Some(UsagePattern::MultiUserSet)
    } else if s == "counter"@ {
        Some(UsagePattern::Counter)
    } else if s == "ordered-list"@ {
        Some(UsagePattern::OrderedList)
    } else {
        None
    }
}

/// The consistency level a tool argument names.
pub open spec fn consistency_named(s: Seq<char>) -> Option<ConsistencyLevel> {
    if s == "eventual"@ {
        Some(ConsistencyLevel::Eventual)
    } else if s == "causal"@ {
        Some(ConsistencyLevel::Causal)
    } else if s == "strong"@ {
        Some(ConsistencyLevel::Strong)
    } else {
        None
    }
}

/// Reads a usage pattern from its argument name.
fn parse_usage(s: &str) -> (r: Option<UsagePattern>)
    ensures
        r == usage_named(s@),
{
    if str_eq(s, "write-once") {
        Some(UsagePattern::WriteOnce)
    } else if str_eq(s, "last-write-wins") {
        Some(UsagePattern::LastWriteWins)
    } else if str_eq(s, "collaborative-text") {
        Some(UsagePattern::CollaborativeText)
    } else if str_eq(s, "multi-user-set") {
        Some(UsagePattern::MultiUserSet)
    } else if str_eq(s, "counter") {
        Some(UsagePattern::Counter)
    } else if str_eq(s, "ordered-list") {
        Some(UsagePattern::OrderedList)
    } else {
        None
    }
}

/// Reads a consistency level from its argument name.
fn parse_consistency(s: &str) -> (r: Option<ConsistencyLevel>)
    ensures
        r == consistency_named(s@),
{
    if str_eq(s, "eventual") {
        Some(ConsistencyLevel::Eventual)
    } else if str_eq(s, "causal") {
        Some(ConsistencyLevel::Causal)
    } else if str_eq(s, "strong") {
        Some(ConsistencyLevel::Strong)
    } else {
        None
    }
}

// ---------------------------------------------------------------------------
// Texts
// ---------------------------------------------------------------------------

/// The explanation of a strategy, by its name.
pub open spec fn spec_strategy_explanation(name: Seq<char>) -> Option<Seq<char>> {
    if name == "immutable"@ {
        Some("Immutable Strategy:\n- Set once, never modified\n- Perfect for IDs, creation timestamps\n- No merge conflicts\n- Minimal storage overhead\n- Trade-off: Cannot modify after creation"@)
    } else if name == "lww"@ {
        Some("Last-Write-Wins (LWW) Strategy:\n- Most recent write wins based on timestamp\n- Simple and efficient\n- Works for any single-valued type\n- Trade-off: Concurrent updates are lost\n- Requires accurate timestamps/clocks"@)
    } else if name == "peritext"@ {
        Some("Peritext Strategy:\n- Collaborative rich text editing\n- Conflict-free concurrent editing\n- Preserves formatting and user intent\n- Based on RGA + formatting marks\n- Trade-off: Higher storage/merge overhead\n- Best-in-class for document collaboration"@)
    } else if name == "or_set"@ {
        Some("Observed-Remove Set (OR-Set) Strategy:\n- Add-wins semantics\n- Each element tagged with unique ID\n- Concurrent add + remove → element present\n- Trade-off: Tombstone overhead\n- Perfect for collaborative tags/members"@)
    } else if name == "pn_counter"@ {
        Some("Positive-Negative Counter Strategy:\n- Separate increment/decrement counters per actor\n- Value = sum(increments) - sum(decrements)\n- Commutative and convergent\n- Trade-off: Per-actor state tracking\n- Cannot enforce strict bounds without coordination\n- Ideal for likes, votes, distributed counters"@)
    } else if name == "rga"@ {
        Some("Replicated Growable Array (RGA) Strategy:\n- Ordered sequence with causal insertion order\n- Each element has unique ID and left reference\n- Concurrent inserts ordered deterministically\n- Trade-off: Tombstone overhead for deletes\n- Perfect for ordered lists, task sequences"@)
    } else if name == "mv_register"@ {
        Some("Multi-Value Register Strategy:\n- Keeps all concurrent values\n- Application chooses resolution strategy\n- Useful for detecting conflicts\n- Trade-off: Requires manual resolution\n- Can accumulate values without cleanup\n- Flexible conflict handling"@)
    } else {
        None
    }
}

/// The explanation of a strategy, by its name.
pub fn strategy_explanation(name: &str) -> (r: Option<&'static str>)
    ensures
        match spec_strategy_explanation(name@) {
            Some(t) => r matches Some(x) && x@ == t,
            None => r is None,
        },
{
    if str_eq(name, "immutable") {
        Some("Immutable Strategy:\n- Set once, never modified\n- Perfect for IDs, creation timestamps\n- No merge conflicts\n- Minimal storage overhead\n- Trade-off: Cannot modify after creation")
    } else if str_eq(name, "lww") {
        Some("Last-Write-Wins (LWW) Strategy:\n- Most recent write wins based on timestamp\n- Simple and efficient\n- Works for any single-valued type\n- Trade-off: Concurrent updates are lost\n- Requires accurate timestamps/clocks")
    } else if str_eq(name, "peritext") {
        Some("Peritext Strategy:\n- Collaborative rich text editing\n- Conflict-free concurrent editing\n- Preserves formatting and user intent\n- Based on RGA + formatting marks\n- Trade-off: Higher storage/merge overhead\n- Best-in-class for document collaboration")
    } else if str_eq(name, "or_set") {
        Some("Observed-Remove Set (OR-Set) Strategy:\n- Add-wins semantics\n- Each element tagged with unique ID\n- Concurrent add + remove → element present\n- Trade-off: Tombstone overhead\n- Perfect for collaborative tags/members")
    } else if str_eq(name, "pn_counter") {
        Some("Positive-Negative Counter Strategy:\n- Separate increment/decrement counters per actor\n- Value = sum(increments) - sum(decrements)\n- Commutative and convergent\n- Trade-off: Per-actor state tracking\n- Cannot enforce strict bounds without coordination\n- Ideal for likes, votes, distributed counters")
    } else if str_eq(name, "rga") {
        Some("Replicated Growable Array (RGA) Strategy:\n- Ordered sequence with causal insertion order\n- Each element has unique ID and left reference\n- Concurrent inserts ordered deterministically\n- Trade-off: Tombstone overhead for deletes\n- Perfect for ordered lists, task sequences")
    } else if str_eq(name, "mv_register") {
        Some("Multi-Value Register Strategy:\n- Keeps all concurrent values\n- Application chooses resolution strategy\n- Useful for detecting conflicts\n- Trade-off: Requires manual resolution\n- Can accumulate values without cleanup\n- Flexible conflict handling")
    } else {
        None
    }
}

/// The example schema of a use case, by its name.
pub open spec fn spec_use_case_example(name: Seq<char>) -> Option<Seq<char>> {
    if name == "chat_message"@ {
        Some("gen message.chat {\n  @crdt(immutable)\n  has id: Uuid\n\n  @crdt(immutable)\n  has created_at: Timestamp\n\n  @crdt(lww)\n  has author: Identity\n\n  @crdt(peritext, formatting=\"full\", max_length=100000)\n  has content: RichText\n\n  @crdt(or_set)\n  has reactions: Set<Reaction>\n\n  @crdt(lww)\n  has edited_at: Option<Timestamp>\n}\n\nexegesis {\n  A collaborative chat message with immutable identity,\n  real-time text editing (Peritext), and add-wins reactions.\n}"@)
    } else if name == "task_board"@ {
        Some("gen task.item {\n  @crdt(immutable)\n  has id: Uuid\n\n  @crdt(lww)\n  has title: String\n\n  @crdt(peritext, formatting=\"markdown\")\n  has description: RichText\n\n  @crdt(lww)\n  has status: TaskStatus\n\n  @crdt(or_set)\n  has assignees: Set<Identity>\n\n  @crdt(pn_counter, min_value=0)\n  has estimate_hours: Int\n\n  @crdt(lww)\n  has due_date: Option<Timestamp>\n}\n\nexegesis {\n  A collaborative task item with LWW metadata,\n  Peritext descriptions, and OR-Set assignees.\n}"@)
    } else if name == "user_profile"@ {
        Some("gen user.profile {\n  @crdt(immutable)\n  has id: Uuid\n\n  @crdt(lww)\n  has display_name: String\n\n  @crdt(lww)\n  has avatar_url: String\n\n  @crdt(peritext, formatting=\"markdown\", max_length=10000)\n  has bio: RichText\n\n  @crdt(or_set)\n  has interests: Set<String>\n\n  @crdt(pn_counter, min_value=0)\n  has follower_count: Int\n}\n\nexegesis {\n  A user profile with LWW simple fields,\n  collaborative bio, and CRDT counters.\n}"@)
    } else if name == "counter"@ {
        Some("gen post.social {\n  @crdt(immutable)\n  has id: Uuid\n\n  @crdt(lww)\n  has content: String\n\n  @crdt(pn_counter, min_value=0)\n  has likes: Int\n\n  @crdt(pn_counter)\n  has karma_score: Int\n\n  @crdt(pn_counter, min_value=0, overflow_strategy=\"saturate\")\n  has view_count: Int\n}\n\nexegesis {\n  A social media post with PN-Counter metrics\n  for distributed like/view tracking.\n}"@)
    } else {
        None
    }
}

/// The example schema of a use case, by its name.
pub fn use_case_example(name: &str) -> (r: Option<&'static str>)
    ensures
        match spec_use_case_example(name@) {
            Some(t) => r matches Some(x) && x@ == t,
            None => r is None,
        },
{
    if str_eq(name, "chat_message") {
        Some("gen message.chat {\n  @crdt(immutable)\n  has id: Uuid\n\n  @crdt(immutable)\n  has created_at: Timestamp\n\n  @crdt(lww)\n  has author: Identity\n\n  @crdt(peritext, formatting=\"full\", max_length=100000)\n  has content: RichText\n\n  @crdt(or_set)\n  has reactions: Set<Reaction>\n\n  @crdt(lww)\n  has edited_at: Option<Timestamp>\n}\n\nexegesis {\n  A collaborative chat message with immutable identity,\n  real-time text editing (Peritext), and add-wins reactions.\n}")
    } else if str_eq(name, "task_board") {
        Some("gen task.item {\n  @crdt(immutable)\n  has id: Uuid\n\n  @crdt(lww)\n  has title: String\n\n  @crdt(peritext, formatting=\"markdown\")\n  has description: RichText\n\n  @crdt(lww)\n  has status: TaskStatus\n\n  @crdt(or_set)\n  has assignees: Set<Identity>\n\n  @crdt(pn_counter, min_value=0)\n  has estimate_hours: Int\n\n  @crdt(lww)\n  has due_date: Option<Timestamp>\n}\n\nexegesis {\n  A collaborative task item with LWW metadata,\n  Peritext descriptions, and OR-Set assignees.\n}")
    } else if str_eq(name, "user_profile") {
        Some("gen user.profile {\n  @crdt(immutable)\n  has id: Uuid\n\n  @crdt(lww)\n  has display_name: String\n\n  @crdt(lww)\n  has avatar_url: String\n\n  @crdt(peritext, formatting=\"markdown\", max_length=10000)\n  has bio: RichText\n\n  @crdt(or_set)\n  has interests: Set<String>\n\n  @crdt(pn_counter, min_value=0)\n  has follower_count: Int\n}\n\nexegesis {\n  A user profile with LWW simple fields,\n  collaborative bio, and CRDT counters.\n}")
    } else if str_eq(name, "counter") {
        Some("gen post.social {\n  @crdt(immutable)\n  has id: Uuid\n\n  @crdt(lww)\n  has content: String\n\n  @crdt(pn_counter, min_value=0)\n  has likes: Int\n\n  @crdt(pn_counter)\n  has karma_score: Int\n\n  @crdt(pn_counter, min_value=0, overflow_strategy=\"saturate\")\n  has view_count: Int\n}\n\nexegesis {\n  A social media post with PN-Counter metrics\n  for distributed like/view tracking.\n}")
    } else {
        None
    }
}

/// The text answer of a recommendation for a field `name: ty`.
pub open spec fn recommendation_text(
    name: Seq<char>,
    ty: Seq<char>,
    usage: UsagePattern,
    consistency: ConsistencyLevel,
) -> Seq<char> {
    let best = recommended(ty, usage, consistency);
    "Recommended Strategy: "@ + strategy_name(best.strategy) + "\n"@ + "Confidence: "@
        + best.confidence.spec_label() + "\n"@ + "Reasoning: "@ + reasoning_text(
        best.strategy,
        ty,
        usage,
        consistency,
    ) + "\n"@ + "Example: "@ + example_text(name, ty, best.strategy) + "\n"@
}

/// What the recommendation tool answers for the given arguments: the text
/// of the recommendation, or an error message.
pub open spec fn recommend_outcome(args: ToolArgs) -> Result<Seq<char>, Seq<char>> {
    match args.lookup("field_name"@) {
        None => Err("Missing or invalid argument: "@ + "field_name"@),
        Some(name) => match args.lookup("field_type"@) {
            None => Err("Missing or invalid argument: "@ + "field_type"@),
            Some(ty) => match args.lookup("usage_pattern"@) {
                None => Err("Missing or invalid argument: "@ + "usage_pattern"@),
                Some(u) => {
                    let c = match args.lookup("consistency_requirement"@) {
                        Some(c) => c,
                        None => "eventual"@,
                    };
                    match usage_named(u) {
                        None => Err("Invalid usage pattern: "@ + u),
                        Some(usage) => match consistency_named(c) {
                            None => Err("Invalid consistency level: "@ + c),
                            Some(consistency) => Ok(
                                recommendation_text(name, ty, usage, consistency),
                            ),
                        },
                    }
                },
            },
        },
    }
}

/// `r` answers with text `text`.
pub open spec fn is_text_result(r: ToolResult, text: Seq<char>) -> bool {
    r.content_type@ == "text/plain"@ && r.content@ == text
}

/// `r` is the answer `o`: a text result, or the error message.
pub open spec fn answers(r: Result<ToolResult, String>, o: Result<Seq<char>, Seq<char>>) -> bool {
    match o {
        Ok(t) => r matches Ok(x) && is_text_result(x, t),
        Err(m) => r matches Err(x) && x@ == m,
    }
}

// ---------------------------------------------------------------------------
// Splitting constraints
// ---------------------------------------------------------------------------

/// The pieces of `s` between the separators `c`, after a piece `cur`
/// read up to `s`.
pub open spec fn pieces_after(s: Seq<char>, c: char, cur: Seq<char>) -> Seq<Seq<char>>
    decreases s.len(),
{
    if s.len() == 0 {
        seq![cur]
    } else if s[0] == c {
        seq![cur] + pieces_after(s.drop_first(), c, Seq::empty())
    } else {
        pieces_after(s.drop_first(), c, cur.push(s[0]))
    }
}

/// The pieces of `s` between the separators `c`, as `str::split` yields
/// them (an empty text gives one empty piece).
pub open spec fn spec_split(s: Seq<char>, c: char) -> Seq<Seq<char>> {
    pieces_after(s, c, Seq::empty())
}

/// A text always splits into at least one piece.
pub proof fn lemma_split_nonempty(s: Seq<char>, c: char, cur: Seq<char>)
    ensures
        pieces_after(s, c, cur).len() >= 1,
    decreases s.len(),
{
    if s.len() > 0 {
        if s[0] == c {
            lemma_split_nonempty(s.drop_first(), c, Seq::empty());
        } else {
            lemma_split_nonempty(s.drop_first(), c, cur.push(s[0]));
        }
    }
}

/// Splits `s` at each `c`, as `str::split` does.
pub(crate) fn split_on(s: &str, c: char) -> (r: Vec<String>)
    ensures
        strings_view(r@) == spec_split(s@, c),
{
    let cs = chars_of(s);
    let mut pieces: Vec<String> = Vec::new();
    let mut cur: Vec<char> = Vec::new();
    let mut i: usize = 0;
    assert(cs@.skip(0) =~= cs@);
    while i < cs.len()
        invariant
            i <= cs@.len(),
            cs@ == s@,
            strings_view(pieces@) + pieces_after(cs@.skip(i as int), c, cur@) == spec_split(s@, c),
        decreases cs.len() - i,
    {
        let ch = cs[i];
        let ghost rest = cs@.skip(i as int);
        assert(rest.drop_first() =~= cs@.skip(i + 1));
        assert(rest[0] == ch);
        if ch == c {
            let piece = string_from_chars(&cur);
            let ghost before = strings_view(pieces@);
            pieces.push(piece);
            assert(strings_view(pieces@) =~= before + seq![cur@]);
            cur = Vec::new();
            assert(cur@ =~= Seq::<char>::empty());
        } else {
            cur.push(ch);
        }
        i = i + 1;
    }
    assert(cs@.skip(i as int) =~= Seq::<char>::empty());
    let piece = string_from_chars(&cur);
    let ghost before = strings_view(pieces@);
    pieces.push(piece);
    assert(strings_view(pieces@) =~= before + seq![cur@]);
    pieces
}

/// The comma-separated items of `s`, each trimmed.
pub open spec fn constraint_items(s: Seq<char>) -> Seq<Seq<char>> {
    spec_split(s, ',').map_values(|p: Seq<char>| spec_trim(p))
}

/// Splits `s` at each comma and trims the pieces.
pub(crate) fn split_constraints(s: &str) -> (r: Vec<String>)
    ensures
        strings_view(r@) == constraint_items(s@),
{
    let cs = chars_of(s);
    let mut pieces: Vec<String> = Vec::new();
    let mut cur: Vec<char> = Vec::new();
    let mut i: usize = 0;
    assert(cs@.skip(0) =~= cs@);
    while i < cs.len()
        invariant
            i <= cs@.len(),
            cs@ == s@,
            strings_view(pieces@) + pieces_after(cs@.skip(i as int), ',', cur@) == spec_split(
                s@,
                ',',
            ),
        decreases cs.len() - i,
    {
        let ch = cs[i];
        let ghost rest = cs@.skip(i as int);
        assert(rest.drop_first() =~= cs@.skip(i + 1));
        assert(rest[0] == ch);
        if ch == ',' {
            let piece = string_from_chars(&cur);
            let ghost before = strings_view(pieces@);
            pieces.push(piece);
            assert(strings_view(pieces@) =~= before + seq![cur@]);
            cur = Vec::new();
            assert(cur@ =~= Seq::<char>::empty());
        } else {
            cur.push(ch);
        }
        i = i + 1;
    }
    assert(cs@.skip(i as int) =~= Seq::<char>::empty());
    let piece = string_from_chars(&cur);
    let ghost before = strings_view(pieces@);
    pieces.push(piece);
    assert(strings_view(pieces@) =~= before + seq![cur@]);
    let ghost all = strings_view(pieces@);
    let mut out: Vec<String> = Vec::new();
    let mut j: usize = 0;
    while j < pieces.len()
        invariant
            j <= pieces@.len(),
            all == strings_view(pieces@),
            all == spec_split(s@, ','),
            strings_view(out@) == all.take(j as int).map_values(|p: Seq<char>| spec_trim(p)),
        decreases pieces.len() - j,
    {
        let t = trim(pieces[j].as_str());
        let ghost before = strings_view(out@);
        out.push(t);
        assert(strings_view(out@) =~= before.push(t@));
        assert(all.take(j + 1).map_values(|p: Seq<char>| spec_trim(p)) =~= all.take(
            j as int,
        ).map_values(|p: Seq<char>| spec_trim(p)).push(spec_trim(all[j as int])));
        j = j + 1;
    }
    assert(all.take(pieces.len() as int) =~= all);
    out
}

/// The constraints a schema request lists.
pub open spec fn requested_constraints(args: ToolArgs) -> Seq<Seq<char>> {
    match args.lookup("constraints"@) {
        Some(c) => constraint_items(c),
        None => Seq::empty(),
    }
}

/// What the schema generation tool answers for the given arguments.
pub open spec fn schema_outcome(args: ToolArgs) -> Result<Seq<char>, Seq<char>> {
    match args.lookup("description"@) {
        None => Err("Missing or invalid argument: "@ + "description"@),
        Some(d) => {
            let entity = match args.lookup("entity_name"@) {
                Some(e) => Some(e),
                None => spec_entity_name(d),
            };
            match entity {
                None => Err("Schema generation error: "@ + "Could not determine entity name"@),
                Some(e) => Ok(dol_source(e, spec_fields(d), requested_constraints(args))),
            }
        },
    }
}

// ---------------------------------------------------------------------------
// The handlers
// ---------------------------------------------------------------------------

impl McpServer {
    /// Recommends a CRDT strategy for the field `field_name: field_type`
    /// used as `usage_pattern`, with the consistency
    /// `consistency_requirement` (`eventual` when not given).
    pub fn tool_recommend_crdt(&self, args: ToolArgs) -> (r: Result<ToolResult, String>)
        ensures
            answers(r, recommend_outcome(args)),
    {
        let field_name = match args.get_string("field_name") {
            Ok(v) => v,
            Err(e) => {
                return Err(e);
            },
        };
        let field_type = match args.get_string("field_type") {
            Ok(v) => v,
            Err(e) => {
                return Err(e);
            },
        };
        let usage_pattern_str = match args.get_string("usage_pattern") {
            Ok(v) => v,
            Err(e) => {
                return Err(e);
            },
        };
        let consistency_str = match args.get_optional_string("consistency_requirement") {
            Some(c) => c,
            None => owned("eventual"),
        };
        let usage_pattern = match parse_usage(usage_pattern_str.as_str()) {
            Some(u) => u,
            None => {
                let mut m = owned("Invalid usage pattern: ");
                m.append(usage_pattern_str.as_str());
                return Err(m);
            },
        };
        let consistency = match parse_consistency(consistency_str.as_str()) {
            Some(c) => c,
            None => {
                let mut m = owned("Invalid consistency level: ");
                m.append(consistency_str.as_str());
                return Err(m);
            },
        };
        let recommender = CrdtRecommender::new();
        let recommendation = recommender.recommend(
            field_name.as_str(),
            field_type.as_str(),
            usage_pattern,
            consistency,
        );
        let mut output = owned("Recommended Strategy: ");
        output.append(recommendation.recommended_strategy.as_str());
        output.append("\n");
        output.append("Confidence: ");
        output.append(recommendation.confidence.label());
        output.append("\n");
        output.append("Reasoning: ");
        output.append(recommendation.reasoning.as_str());
        output.append("\n");
        output.append("Example: ");
        output.append(recommendation.example.as_str());
        output.append("\n");
        Ok(ToolResult::text(output))
    }

    /// Explains the CRDT strategy named by the argument `strategy`.
    pub fn tool_explain_strategy(&self, args: ToolArgs) -> (r: Result<ToolResult, String>)
        ensures
            answers(
                r,
                match args.lookup("strategy"@) {
                    None => Err("Missing or invalid argument: "@ + "strategy"@),
                    Some(s) => match spec_strategy_explanation(s) {
                        Some(t) => Ok(t),
                        None => Err("Unknown strategy: "@ + s),
                    },
                },
            ),
    {
        let strategy = match args.get_string("strategy") {
            Ok(v) => v,
            Err(e) => {
                return Err(e);
            },
        };
        match strategy_explanation(strategy.as_str()) {
            Some(t) => Ok(ToolResult::text(owned(t))),
            None => {
                let mut m = owned("Unknown strategy: ");
                m.append(strategy.as_str());
                Err(m)
            },
        }
    }

    /// Gives the example schema of the use case named by the argument
    /// `use_case` (`chat_message` when not given).
    pub fn tool_generate_example(&self, args: ToolArgs) -> (r: Result<ToolResult, String>)
        ensures
            ({
                let u = match args.lookup("use_case"@) {
                    Some(u) => u,
                    None => "chat_message"@,
                };
                answers(
                    r,
                    match spec_use_case_example(u) {
                        Some(t) => Ok(t),
                        None => Err("Unknown use case: "@ + u),
                    },
                )
            }),
    {
        let use_case = match args.get_optional_string("use_case") {
            Some(u) => u,
            None => owned("chat_message"),
        };
        match use_case_example(use_case.as_str()) {
            Some(t) => Ok(ToolResult::text(owned(t))),
            None => {
                let mut m = owned("Unknown use case: ");
                m.append(use_case.as_str());
                Err(m)
            },
        }
    }

    /// Formatting DOL source is not implemented.
    pub fn tool_format(&self, args: ToolArgs) -> (r: Result<ToolResult, String>)
        ensures
            r matches Err(m) && m@ == "DOL source formatting is not yet implemented"@,
    {
        Err(owned("DOL source formatting is not yet implemented"))
    }

    /// Compiling to WebAssembly is not implemented.
    pub fn tool_compile_wasm(&self, args: ToolArgs) -> (r: Result<ToolResult, String>)
        ensures
            r matches Err(m) && m@ == "WebAssembly compilation is not yet implemented"@,
    {
        Err(owned("WebAssembly compilation is not yet implemented"))
    }

    /// Writes the DOL schema of the entity that the argument `description`
    /// describes (named by `entity_name` when given), with the
    /// comma-separated `constraints`.
    pub fn tool_generate_schema_from_description(&self, args: ToolArgs) -> (r: Result<
        ToolResult,
        String,
    >)
        requires
            args.lookup("entity_name"@) is None ==> (args.lookup("description"@) matches Some(d)
                ==> !entity_name_panics(d)),
        ensures
            answers(r, schema_outcome(args)),
    {
        let description = match args.get_string("description") {
            Ok(v) => v,
            Err(e) => {
                return Err(e);
            },
        };
        let entity_name = args.get_optional_string("entity_name");
        let constraints = match args.get_optional_string("constraints") {
            Some(c) => split_constraints(c.as_str()),
            None => Vec::new(),
        };
        assert(strings_view(constraints@) =~= requested_constraints(args));
        let requirement = NlRequirement { description, entity_name, constraints };
        let converter = NlToDolConverter::new();
        match converter.convert(requirement) {
            Ok(schema) => Ok(ToolResult::text(schema.dol_source)),
            Err(e) => {
                let mut m = owned("Schema generation error: ");
                m.append(e.as_str());
                Err(m)
            },
        }
    }
}

} // verus!

//! Natural language to DOL conversion.
//!
//! A requirement written in prose names an entity and mentions some of its
//! properties. The converter finds the entity's name, picks the fields
//! whose keywords the text mentions, asks the recommender for each
//! field's CRDT strategy (after guessing how the field is used), and
//! writes a `gen` declaration with its `exegesis`, along with metadata on
//! how sure it is and what could be added.

use vstd::prelude::*;

use crate::mcp::recommendations::{
    best_or_default, reasoning_text, spec_base_type, spec_candidates, spec_compatible,
    ConsistencyLevel, CrdtRecommender, ScoredStrategy, UsagePattern,
};
use crate::mcp::tools::strategy_name;
use crate::text::{
    char_to_uppercase, chars_of, contains, lowercase, opt_string_view, owned, seq_contains,
    spec_utf8_width, spec_words, split_words, str_eq, string_from_range, strings_view,
    to_lowercase, utf8_width, prefix_len, leading_ws, trailing_ws, spec_trim, spec_is_whitespace,
};

verus! {

// ---------------------------------------------------------------------------
// Inputs and outputs
// ---------------------------------------------------------------------------

/// Natural language requirement for DOL schema generation.
#[derive(Debug, Clone)]
pub struct NlRequirement {
    /// Natural language description of the requirement
    pub description: String,
    /// Optional entity name (inferred if not provided)
    pub entity_name: Option<String>,
    /// Additional constraints or rules
    pub constraints: Vec<String>,
}

/// Extracted field information from natural language.
#[derive(Debug, Clone)]
pub struct ExtractedField {
    /// Field name
    pub name: String,
    /// Field type
    pub field_type: String,
    /// Suggested CRDT strategy
    pub crdt_strategy: String,
    /// Confidence in the suggestion
    pub confidence: String,
    /// Rationale for the suggestion
    pub rationale: String,
}

/// Generated DOL schema from natural language.
#[derive(Debug, Clone)]
pub struct GeneratedSchema {
    /// Entity name
    pub entity_name: String,
    /// Generated DOL source code
    pub dol_source: String,
    /// Extracted fields with CRDT strategies
    pub fields: Vec<ExtractedField>,
    /// Additional constraints or rules
    pub constraints: Vec<String>,
    /// Generation metadata
    pub metadata: SchemaMetadata,
}

/// Metadata about schema generation.
#[derive(Debug, Clone)]
pub struct SchemaMetadata {
    /// Confidence level (0-100)
    pub confidence: u8,
    /// Warnings or notes
    pub warnings: Vec<String>,
    /// Suggested improvements
    pub suggestions: Vec<String>,
}

/// An extracted field as plain text: name, type, strategy, confidence and
/// rationale.
pub type FieldView = (Seq<char>, Seq<char>, Seq<char>, Seq<char>, Seq<char>);

/// The plain view of an extracted field.
pub open spec fn field_view(f: ExtractedField) -> FieldView {
    (f.name@, f.field_type@, f.crdt_strategy@, f.confidence@, f.rationale@)
}

/// The plain views of extracted fields.
pub open spec fn fields_view(fs: Seq<ExtractedField>) -> Seq<FieldView> {
    fs.map_values(|f: ExtractedField| field_view(f))
}

// ---------------------------------------------------------------------------
// Entity names
// ---------------------------------------------------------------------------

/// `w` is an article: `a`, `an` or `the`, in any case.
pub open spec fn is_article(w: Seq<char>) -> bool {
    let l = lowercase(w);
    l == "a"@ || l == "an"@ || l == "the"@
}

/// The first index from `i` on of an article that a non-empty word
/// follows.
pub open spec fn article_at(ws: Seq<Seq<char>>, i: nat) -> Option<nat>
    decreases ws.len() - i,
{
    if i >= ws.len() {
        None
    } else if is_article(ws[i as int]) && i + 1 < ws.len() && ws[i + 1int].len() > 0 {
        Some(i)
    } else {
        article_at(ws, i + 1)
    }
}

/// `w` with its first character in upper case.
pub open spec fn capitalized(w: Seq<char>) -> Seq<char> {
    uppercase_of_first(w) + w.drop_first()
}

/// The upper-case form of the first character of `w`.
pub open spec fn uppercase_of_first(w: Seq<char>) -> Seq<char> {
    crate::text::uppercase_of(w[0])
}

/// The entity that a description names: the word after its first article,
/// capitalized.
pub open spec fn spec_entity_name(description: Seq<char>) -> Option<Seq<char>> {
    let ws = spec_words(description);
    match article_at(ws, 0) {
        Some(i) => Some(capitalized(ws[i + 1int])),
        None => None,
    }
}

/// The word after the first article begins with a character of more than
/// one byte; the rest of the word is then cut inside that character, and
/// the extraction panics.
pub open spec fn entity_name_panics(description: Seq<char>) -> bool {
    let ws = spec_words(description);
    match article_at(ws, 0) {
        Some(i) => spec_utf8_width(ws[i + 1int][0]) > 1,
        None => false,
    }
}

// ---------------------------------------------------------------------------
// Usage patterns
// ---------------------------------------------------------------------------

/// The phrases that reveal how the fields of a description are used, in
/// the order in which they are looked for.
pub open spec fn pattern_table() -> Seq<(Seq<char>, UsagePattern, ConsistencyLevel)> {
    seq![
        ("collaborative"@, UsagePattern::CollaborativeText, ConsistencyLevel::Eventual),
        ("edit together"@, UsagePattern::CollaborativeText, ConsistencyLevel::Eventual),
        ("real-time editing"@, UsagePattern::CollaborativeText, ConsistencyLevel::Causal),
        ("counter"@, UsagePattern::Counter, ConsistencyLevel::Eventual),
        ("increment"@, UsagePattern::Counter, ConsistencyLevel::Eventual),
        ("collection"@, UsagePattern::MultiUserSet, ConsistencyLevel::Eventual),
        ("set of"@, UsagePattern::MultiUserSet, ConsistencyLevel::Eventual),
        ("list of"@, UsagePattern::OrderedList, ConsistencyLevel::Eventual),
        ("ordered"@, UsagePattern::OrderedList, ConsistencyLevel::Eventual),
        ("unique"@, UsagePattern::WriteOnce, ConsistencyLevel::Strong),
        ("immutable"@, UsagePattern::WriteOnce, ConsistencyLevel::Strong),
    ]
}

/// The usage of the first phrase of `t`, from index `i` on, that occurs in
/// `text`.
pub open spec fn first_pattern(
    t: Seq<(Seq<char>, UsagePattern, ConsistencyLevel)>,
    text: Seq<char>,
    i: nat,
) -> Option<(UsagePattern, ConsistencyLevel)>
    decreases t.len() - i,
{
    if i >= t.len() {
        None
    } else if seq_contains(text, t[i as int].0) {
        Some((t[i as int].1, t[i as int].2))
    } else {
        first_pattern(t, text, i + 1)
    }
}

/// How a field is used when no phrase of the table occurs: by its name.
pub open spec fn field_default_usage(text: Seq<char>, name: Seq<char>) -> (
    UsagePattern,
    ConsistencyLevel,
) {
    if (name == "title"@ || name == "content"@) && (seq_contains(text, "collaborative"@)
        || seq_contains(text, "together"@)) {
        (UsagePattern::CollaborativeText, ConsistencyLevel::Eventual)
    } else if name == "count"@ || name == "counter"@ {
        (UsagePattern::Counter, ConsistencyLevel::Eventual)
    } else if name == "tags"@ || name == "labels"@ || name == "members"@ {
        (UsagePattern::MultiUserSet, ConsistencyLevel::Eventual)
    } else if name == "items"@ || name == "list"@ {
        (UsagePattern::OrderedList, ConsistencyLevel::Eventual)
    } else if name == "id"@ || name == "created_at"@ {
        (UsagePattern::WriteOnce, ConsistencyLevel::Strong)
    } else {
        (UsagePattern::LastWriteWins, ConsistencyLevel::Eventual)
    }
}

/// How the field `name` of a description `text` is used.
pub open spec fn spec_usage(text: Seq<char>, name: Seq<char>) -> (UsagePattern, ConsistencyLevel) {
    match first_pattern(pattern_table(), text, 0) {
        Some(p) => p,
        None => field_default_usage(text, name),
    }
}

// ---------------------------------------------------------------------------
// Fields
// ---------------------------------------------------------------------------

/// The fields that a description can mention: name, type and the keywords
/// that reveal it, in order.
pub open spec fn field_table() -> Seq<(Seq<char>, Seq<char>, Seq<Seq<char>>)> {
    seq![
        ("title"@, "String"@, seq!["title"@, "name"@, "heading"@]),
        ("content"@, "String"@, seq!["content"@, "text"@, "body"@, "description"@]),
        ("author"@, "String"@, seq!["author"@, "creator"@, "user"@]),
        ("created_at"@, "i64"@, seq!["created"@, "timestamp"@, "time"@]),
        ("updated_at"@, "i64"@, seq!["updated"@, "modified"@, "changed"@]),
        ("tags"@, "Set<String>"@, seq!["tags"@, "labels"@, "categories"@]),
        ("status"@, "String"@, seq!["status"@, "state"@]),
        ("count"@, "i32"@, seq!["count"@, "counter"@, "number"@]),
        ("items"@, "Vec<String>"@, seq!["items"@, "list"@, "elements"@]),
        ("members"@, "Set<String>"@, seq!["members"@, "users"@, "participants"@]),
    ]
}

/// Some keyword of `kws` occurs in `text`.
pub open spec fn any_keyword(text: Seq<char>, kws: Seq<Seq<char>>) -> bool {
    exists|k: int| 0 <= k < kws.len() && seq_contains(text, #[trigger] kws[k])
}

/// The strategy that the recommender picks for a field of type `ty` used
/// as `usage` with consistency `consistency`.
pub open spec fn recommended(ty: Seq<char>, usage: UsagePattern, consistency: ConsistencyLevel) -> ScoredStrategy {
    let base = spec_base_type(ty);
    best_or_default(spec_candidates(spec_compatible(base), base, usage, consistency))
}

/// The field `name: ty` of a description whose lower-case text is `text`.
pub open spec fn field_for(name: Seq<char>, ty: Seq<char>, text: Seq<char>) -> FieldView {
    let (usage, consistency) = spec_usage(text, name);
    let best = recommended(ty, usage, consistency);
    (
        name,
        ty,
        strategy_name(best.strategy),
        best.confidence.spec_debug_name(),
        reasoning_text(best.strategy, ty, usage, consistency),
    )
}

/// The fields of table `t` whose keywords occur in `text`, in order.
pub open spec fn detected_fields(
    t: Seq<(Seq<char>, Seq<char>, Seq<Seq<char>>)>,
    text: Seq<char>,
) -> Seq<FieldView>
    decreases t.len(),
{
    if t.len() == 0 {
        Seq::empty()
    } else {
        let prev = detected_fields(t.drop_last(), text);
        let e = t.last();
        if any_keyword(text, e.2) {
            prev.push(field_for(e.0, e.1, text))
        } else {
            prev
        }
    }
}

/// The field that stands in for all when none is mentioned.
pub open spec fn id_field() -> FieldView {
    ("id"@, "String"@, "immutable"@, "High"@, "Unique identifier for the entity"@)
}

/// The fields extracted from a description.
pub open spec fn spec_fields(description: Seq<char>) -> Seq<FieldView> {
    fields_from_lower(lowercase(description))
}

/// The fields that a description in lower case, `l`, mentions, or the
/// `id` field when it mentions none.
pub open spec fn fields_from_lower(l: Seq<char>) -> Seq<FieldView> {
    let found = detected_fields(field_table(), l);
    if found.len() == 0 {
        seq![id_field()]
    } else {
        found
    }
}

// ---------------------------------------------------------------------------
// DOL source
// ---------------------------------------------------------------------------

/// One `has` line per field, for the entity `le` (in lower case).
pub open spec fn field_decls(le: Seq<char>, fs: Seq<FieldView>) -> Seq<char>
    decreases fs.len(),
{
    if fs.len() == 0 {
        Seq::empty()
    } else {
        let f = fs.last();
        field_decls(le, fs.drop_last()) + "  "@ + le + " has "@ + f.0 + ": "@ + f.1 + " @crdt("@
            + f.2 + ")\n"@
    }
}

/// One indented line per constraint.
pub open spec fn constraint_lines(cs: Seq<Seq<char>>) -> Seq<char>
    decreases cs.len(),
{
    if cs.len() == 0 {
        Seq::empty()
    } else {
        constraint_lines(cs.drop_last()) + "  "@ + cs.last() + "\n"@
    }
}

/// Two documentation lines per field: name, type and strategy, then the
/// rationale.
pub open spec fn field_docs(fs: Seq<FieldView>) -> Seq<char>
    decreases fs.len(),
{
    if fs.len() == 0 {
        Seq::empty()
    } else {
        let f = fs.last();
        field_docs(fs.drop_last()) + "  - "@ + f.0 + ": "@ + f.1 + " ("@ + f.2 + ")\n"@ + "    "@
            + f.4 + "\n"@
    }
}

/// The DOL source written for `entity` with `fields` and `constraints`.
pub open spec fn dol_source(
    entity: Seq<char>,
    fields: Seq<FieldView>,
    constraints: Seq<Seq<char>>,
) -> Seq<char> {
    dol_source_lower(lowercase(entity), entity, fields, constraints)
}

/// The DOL source for `entity`, whose name in lower case is `le`.
pub open spec fn dol_source_lower(
    le: Seq<char>,
    entity: Seq<char>,
    fields: Seq<FieldView>,
    constraints: Seq<Seq<char>>,
) -> Seq<char> {
    "gen "@ + le + ".schema {\n"@ + field_decls(le, fields) + constraint_lines(constraints)
        + "}\n\n"@ + "exegesis {\n"@ + "  Schema for "@ + entity + " with CRDT-backed fields.\n"@
        + "  \n"@ + "  Fields:\n"@ + field_docs(fields) + "}\n"@
}

// ---------------------------------------------------------------------------
// Metadata
// ---------------------------------------------------------------------------

/// The score of a confidence text.
pub open spec fn confidence_score(c: Seq<char>) -> nat {
    if c == "High"@ {
        90
    } else if c == "Medium"@ {
        70
    } else if c == "Low"@ {
        50
    } else {
        60
    }
}

/// The sum of the confidence scores of `fs`.
pub open spec fn score_sum(fs: Seq<FieldView>) -> nat
    decreases fs.len(),
{
    if fs.len() == 0 {
        0
    } else {
        score_sum(fs.drop_last()) + confidence_score(fs.last().3)
    }
}

/// The average confidence score of `fs` (rounded down), or 50 when there
/// are none.
pub open spec fn average_confidence(fs: Seq<FieldView>) -> nat {
    if fs.len() == 0 {
        50
    } else {
        score_sum(fs) / fs.len()
    }
}

/// The warnings on a list of fields.
pub open spec fn spec_warnings(fs: Seq<FieldView>) -> Seq<Seq<char>> {
    if fs.len() < 2 {
        seq!["Schema has very few fields. Consider adding more properties."@]
    } else {
        Seq::empty()
    }
}

/// Some field is called `id`.
pub open spec fn has_id_field(fs: Seq<FieldView>) -> bool {
    exists|i: int| 0 <= i < fs.len() && (#[trigger] fs[i]).0 == "id"@
}

/// Some field's name mentions creation or update.
pub open spec fn has_timestamp_field(fs: Seq<FieldView>) -> bool {
    exists|i: int|
        0 <= i < fs.len() && (seq_contains((#[trigger] fs[i]).0, "created"@) || seq_contains(
            fs[i].0,
            "updated"@,
        ))
}

/// The suggestion on a string field kept by last-write-wins in a
/// collaborative description.
pub open spec fn lww_suggestion(name: Seq<char>) -> Seq<char> {
    "Field '"@ + name
        + "' uses LWW but collaborative editing detected. Consider 'peritext' strategy."@
}

/// One suggestion per string field kept by last-write-wins, when the
/// description is collaborative.
pub open spec fn lww_suggestions(fs: Seq<FieldView>, collaborative: bool) -> Seq<Seq<char>>
    decreases fs.len(),
{
    if fs.len() == 0 {
        Seq::empty()
    } else {
        let f = fs.last();
        let prev = lww_suggestions(fs.drop_last(), collaborative);
        if f.1 == "String"@ && f.2 == "lww"@ && collaborative {
            prev.push(lww_suggestion(f.0))
        } else {
            prev
        }
    }
}

/// The suggestions on a list of fields from a description.
pub open spec fn spec_suggestions(fs: Seq<FieldView>, description: Seq<char>) -> Seq<Seq<char>> {
    let a: Seq<Seq<char>> = if !has_id_field(fs) {
        seq!["Consider adding an 'id' field for unique identification."@]
    } else {
        Seq::empty()
    };
    let b: Seq<Seq<char>> = if !has_timestamp_field(fs) {
        seq!["Consider adding timestamp fields (created_at, updated_at) for audit trails."@]
    } else {
        Seq::empty()
    };
    a + b + lww_suggestions(fs, seq_contains(lowercase(description), "collaborative"@))
}

/// `m` is the metadata of `fs` extracted from `description`.
pub open spec fn is_metadata(m: SchemaMetadata, fs: Seq<FieldView>, description: Seq<char>) -> bool {
    &&& m.confidence == average_confidence(fs)
    &&& strings_view(m.warnings@) == spec_warnings(fs)
    &&& strings_view(m.suggestions@) == spec_suggestions(fs, description)
}

/// The entity a requirement is about: its own, or the one its description
/// names.
pub open spec fn requirement_entity(req: NlRequirement) -> Option<Seq<char>> {
    match req.entity_name {
        Some(e) => Some(e@),
        None => spec_entity_name(req.description@),
    }
}

/// `s` is the schema generated for `req`, about `entity`.
pub open spec fn is_schema_for(s: GeneratedSchema, req: NlRequirement, entity: Seq<char>) -> bool {
    let fs = spec_fields(req.description@);
    &&& s.entity_name@ == entity
    &&& fields_view(s.fields@) == fs
    &&& s.dol_source@ == dol_source(entity, fs, strings_view(req.constraints@))
    &&& strings_view(s.constraints@) == strings_view(req.constraints@)
    &&& is_metadata(s.metadata, fs, req.description@)
}

// ---------------------------------------------------------------------------
// The converter
// ---------------------------------------------------------------------------

/// The plain view of the pattern list.
pub open spec fn patterns_view(p: Seq<(String, UsagePattern, ConsistencyLevel)>) -> Seq<
    (Seq<char>, UsagePattern, ConsistencyLevel),
> {
    p.map_values(|e: (String, UsagePattern, ConsistencyLevel)| (e.0@, e.1, e.2))
}

/// Natural language to DOL converter.
pub struct NlToDolConverter {
    recommender: CrdtRecommender,
    patterns: Vec<(String, UsagePattern, ConsistencyLevel)>,
}

/// Builds one entry of the pattern list.
fn pattern(phrase: &str, usage: UsagePattern, consistency: ConsistencyLevel) -> (r: (
    String,
    UsagePattern,
    ConsistencyLevel,
))
    ensures
        r.0@ == phrase@,
        r.1 == usage,
        r.2 == consistency,
{
    (owned(phrase), usage, consistency)
}

/// Builds one entry of the field table.
fn field_pattern(name: &'static str, ty: &'static str, keywords: Vec<&'static str>) -> (r: (
    &'static str,
    &'static str,
    Vec<&'static str>,
))
    ensures
        r.0@ == name@,
        r.1@ == ty@,
        r.2@ == keywords@,
{
    (name, ty, keywords)
}

/// The plain view of the field table.
pub open spec fn field_table_view(t: Seq<(&'static str, &'static str, Vec<&'static str>)>) -> Seq<
    (Seq<char>, Seq<char>, Seq<Seq<char>>),
> {
    t.map_values(
        |e: (&'static str, &'static str, Vec<&'static str>)|
            (e.0@, e.1@, e.2@.map_values(|k: &'static str| k@)),
    )
}

/// The fields that a description can mention.
fn field_patterns() -> (r: Vec<(&'static str, &'static str, Vec<&'static str>)>)
    ensures
        field_table_view(r@) == field_table(),
{
    let r = vec![
        field_pattern("title", "String", vec!["title", "name", "heading"]),
        field_pattern("content", "String", vec!["content", "text", "body", "description"]),
        field_pattern("author", "String", vec!["author", "creator", "user"]),
        field_pattern("created_at", "i64", vec!["created", "timestamp", "time"]),
        field_pattern("updated_at", "i64", vec!["updated", "modified", "changed"]),
        field_pattern("tags", "Set<String>", vec!["tags", "labels", "categories"]),
        field_pattern("status", "String", vec!["status", "state"]),
        field_pattern("count", "i32", vec!["count", "counter", "number"]),
        field_pattern("items", "Vec<String>", vec!["items", "list", "elements"]),
        field_pattern("members", "Set<String>", vec!["members", "users", "participants"]),
    ];
    assert(r@[0].2@.map_values(|k: &'static str| k@) =~= seq!["title"@, "name"@, "heading"@]);
    assert(r@[1].2@.map_values(|k: &'static str| k@) =~= seq!["content"@, "text"@, "body"@, "description"@]);
    assert(r@[2].2@.map_values(|k: &'static str| k@) =~= seq!["author"@, "creator"@, "user"@]);
    assert(r@[3].2@.map_values(|k: &'static str| k@) =~= seq!["created"@, "timestamp"@, "time"@]);
    assert(r@[4].2@.map_values(|k: &'static str| k@) =~= seq!["updated"@, "modified"@, "changed"@]);
    assert(r@[5].2@.map_values(|k: &'static str| k@) =~= seq!["tags"@, "labels"@, "categories"@]);
    assert(r@[6].2@.map_values(|k: &'static str| k@) =~= seq!["status"@, "state"@]);
    assert(r@[7].2@.map_values(|k: &'static str| k@) =~= seq!["count"@, "counter"@, "number"@]);
    assert(r@[8].2@.map_values(|k: &'static str| k@) =~= seq!["items"@, "list"@, "elements"@]);
    assert(r@[9].2@.map_values(|k: &'static str| k@) =~= seq!["members"@, "users"@, "participants"@]);
    assert(field_table_view(r@) =~= field_table());
    r
}

/// Whether some keyword of `kws` occurs in `text`.
fn any_keyword_in(text: &str, kws: &Vec<&'static str>) -> (r: bool)
    ensures
        r == any_keyword(text@, kws@.map_values(|k: &'static str| k@)),
{
    let ghost ks = kws@.map_values(|k: &'static str| k@);
    let mut i: usize = 0;
    while i < kws.len()
        invariant
            i <= kws@.len(),
            ks == kws@.map_values(|k: &'static str| k@),
            forall|k: int| 0 <= k < i ==> !seq_contains(text@, #[trigger] ks[k]),
        decreases kws.len() - i,
    {
        if contains(text, kws[i]) {
            assert(seq_contains(text@, ks[i as int]));
            return true;
        }
        i = i + 1;
    }
    false
}

impl NlToDolConverter {
    /// The converter holds the phrase table and a recommender.
    pub closed spec fn wf(&self) -> bool {
        patterns_view(self.patterns@) == pattern_table()
    }

    /// Creates a new NL-to-DOL converter.
    pub fn new() -> (r: NlToDolConverter)
        ensures
            r.wf(),
    {
        let patterns = vec![
            pattern("collaborative", UsagePattern::CollaborativeText, ConsistencyLevel::Eventual),
            pattern("edit together", UsagePattern::CollaborativeText, ConsistencyLevel::Eventual),
            pattern("real-time editing", UsagePattern::CollaborativeText, ConsistencyLevel::Causal),
            pattern("counter", UsagePattern::Counter, ConsistencyLevel::Eventual),
            pattern("increment", UsagePattern::Counter, ConsistencyLevel::Eventual),
            pattern("collection", UsagePattern::MultiUserSet, ConsistencyLevel::Eventual),
            pattern("set of", UsagePattern::MultiUserSet, ConsistencyLevel::Eventual),
            pattern("list of", UsagePattern::OrderedList, ConsistencyLevel::Eventual),
            pattern("ordered", UsagePattern::OrderedList, ConsistencyLevel::Eventual),
            pattern("unique", UsagePattern::WriteOnce, ConsistencyLevel::Strong),
            pattern("immutable", UsagePattern::WriteOnce, ConsistencyLevel::Strong),
        ];
        let r = NlToDolConverter { recommender: CrdtRecommender::new(), patterns };
        assert(patterns_view(r.patterns@) =~= pattern_table());
        r
    }

    /// Whether extracting the entity name of `description` is safe: the
    /// word after the first article does not begin with a character of
    /// more than one byte.
    pub fn entity_name_is_safe(&self, description: &str) -> (r: bool)
        ensures
            r == !entity_name_panics(description@),
    {
        let words = split_words(description);
        let ghost ws = spec_words(description@);
        let mut i: usize = 0;
        while i < words.len()
            invariant
                i <= words@.len(),
                strings_view(words@) == ws,
                ws == spec_words(description@),
                article_at(ws, i as nat) == article_at(ws, 0),
            decreases words.len() - i,
        {
            let lw = to_lowercase(words[i].as_str());
            let l = lw.as_str();
            assert(ws[i as int] == words@[i as int]@);
            if (str_eq(l, "a") || str_eq(l, "an") || str_eq(l, "the")) && i + 1 < words.len() {
                let next = chars_of(words[i + 1].as_str());
                assert(next@ == ws[i + 1int]);
                if next.len() > 0 {
                    assert(article_at(ws, i as nat) == Some(i as nat));
                    return utf8_width(next[0]) == 1;
                }
            }
            i = i + 1;
        }
        true
    }

    /// Converts a requirement as `convert` does, after testing that the
    /// entity name, when it must be extracted, can be: `None` where the
    /// extraction would fail.
    pub fn convert_checked(&self, requirement: NlRequirement) -> (r: Option<Result<GeneratedSchema, String>>)
        requires
            self.wf(),
        ensures
            (requirement.entity_name is None && entity_name_panics(requirement.description@))
                <==> r is None,
            r matches Some(res) ==> match requirement_entity(requirement) {
                None => res matches Err(m) && m@ == "Could not determine entity name"@,
                Some(e) => res matches Ok(s) && is_schema_for(s, requirement, e),
            },
    {
        if requirement.entity_name.is_none() && !self.entity_name_is_safe(
            requirement.description.as_str(),
        ) {
            None
        } else {
            Some(self.convert(requirement))
        }
    }

    /// Extracts the entity name from a description: the word after the
    /// first `a`, `an` or `the` (in any case), with its first character in
    /// upper case.
    pub fn extract_entity_name(&self, description: &str) -> (r: Option<String>)
        requires
            !entity_name_panics(description@),
        ensures
            opt_string_view(r) == spec_entity_name(description@),
    {
        let words = split_words(description);
        let ghost ws = spec_words(description@);
        let mut i: usize = 0;
        while i < words.len()
            invariant
                i <= words@.len(),
                strings_view(words@) == ws,
                ws == spec_words(description@),
                article_at(ws, i as nat) == article_at(ws, 0),
                !entity_name_panics(description@),
            decreases words.len() - i,
        {
            let lw = to_lowercase(words[i].as_str());
            let l = lw.as_str();
            assert(ws[i as int] == words@[i as int]@);
            if (str_eq(l, "a") || str_eq(l, "an") || str_eq(l, "the")) && i + 1 < words.len() {
                let next = chars_of(words[i + 1].as_str());
                assert(next@ == ws[i + 1int]);
                if next.len() > 0 {
                    assert(article_at(ws, i as nat) == Some(i as nat));
                    let first = next[0];
                    let w = utf8_width(first);
                    assert(w == 1);
                    let mut out = char_to_uppercase(first);
                    let rest = string_from_range(&next, 1, next.len());
                    out.append(rest.as_str());
                    assert(rest@ =~= ws[i + 1int].drop_first());
                    return Some(out);
                }
            }
            i = i + 1;
        }
        None
    }

    /// Detects how the field `field_name` of `description` is used: by the
    /// first phrase of the table that occurs in it, else by the field's
    /// name.
    pub fn detect_usage_pattern(&self, description: &str, field_name: &str) -> (r: (
        UsagePattern,
        ConsistencyLevel,
    ))
        requires
            self.wf(),
        ensures
            r == spec_usage(description@, field_name@),
    {
        let mut i: usize = 0;
        while i < self.patterns.len()
            invariant
                self.wf(),
                i <= self.patterns@.len(),
                first_pattern(pattern_table(), description@, i as nat) == first_pattern(
                    pattern_table(),
                    description@,
                    0,
                ),
            decreases self.patterns.len() - i,
        {
            let p = &self.patterns[i];
            assert(pattern_table()[i as int] == (p.0@, p.1, p.2));
            if contains(description, p.0.as_str()) {
                return (p.1, p.2);
            }
            i = i + 1;
        }
        let d = description;
        let n = field_name;
        if (str_eq(n, "title") || str_eq(n, "content")) && (contains(d, "collaborative") || contains(
            d,
            "together",
        )) {
            (UsagePattern::CollaborativeText, ConsistencyLevel::Eventual)
        } else if str_eq(n, "count") || str_eq(n, "counter") {
            (UsagePattern::Counter, ConsistencyLevel::Eventual)
        } else if str_eq(n, "tags") || str_eq(n, "labels") || str_eq(n, "members") {
            (UsagePattern::MultiUserSet, ConsistencyLevel::Eventual)
        } else if str_eq(n, "items") || str_eq(n, "list") {
            (UsagePattern::OrderedList, ConsistencyLevel::Eventual)
        } else if str_eq(n, "id") || str_eq(n, "created_at") {
            (UsagePattern::WriteOnce, ConsistencyLevel::Strong)
        } else {
            (UsagePattern::LastWriteWins, ConsistencyLevel::Eventual)
        }
    }
    /// Extracts the fields that a description mentions, each with the
    /// strategy that the recommender picks for it; a lone `id` field when
    /// none is mentioned.
    pub fn extract_fields(&self, description: &str, _entity: &str) -> (r: Result<
        Vec<ExtractedField>,
        String,
    >)
        requires
            self.wf(),
        ensures
            match r {
                Ok(v) => fields_view(v@) == spec_fields(description@),
                Err(_) => false,
            },
    {
        let lower = to_lowercase(description);
        Ok(self.extract_fields_lower(lower.as_str()))
    }

    /// The fields that a description in lower case mentions, each with its
    /// recommended strategy, or the `id` field when it mentions none.
    pub fn extract_fields_lower(&self, l: &str) -> (r: Vec<ExtractedField>)
        requires
            self.wf(),
        ensures
            fields_view(r@) == fields_from_lower(l@),
    {
        let mut fields: Vec<ExtractedField> = Vec::new();
        let table = field_patterns();
        let mut i: usize = 0;
        while i < table.len()
            invariant
                self.wf(),
                i <= table@.len(),
                field_table_view(table@) == field_table(),
                fields_view(fields@) == detected_fields(field_table().take(i as int), l@),
            decreases table.len() - i,
        {
            let e = &table[i];
            let ghost t = field_table();
            assert(t.take(i + 1).drop_last() =~= t.take(i as int));
            assert(t.take(i + 1).last() == t[i as int]);
            assert(t[i as int] == (e.0@, e.1@, e.2@.map_values(|k: &'static str| k@)));
            if any_keyword_in(l, &e.2) {
                let (usage, consistency) = self.detect_usage_pattern(l, e.0);
                let rec = self.recommender.recommend(e.0, e.1, usage, consistency);
                let f = ExtractedField {
                    name: owned(e.0),
                    field_type: owned(e.1),
                    crdt_strategy: rec.recommended_strategy,
                    confidence: owned(rec.confidence.debug_name()),
                    rationale: rec.reasoning,
                };
                let ghost before = fields_view(fields@);
                fields.push(f);
                assert(fields_view(fields@) =~= before.push(field_for(e.0@, e.1@, l@)));
            }
            i = i + 1;
        }
        assert(field_table().take(table.len() as int) =~= field_table());
        if fields.len() == 0 {
            fields.push(
                ExtractedField {
                    name: owned("id"),
                    field_type: owned("String"),
                    crdt_strategy: owned("immutable"),
                    confidence: owned("High"),
                    rationale: owned("Unique identifier for the entity"),
                },
            );
            assert(fields_view(fields@) =~= seq![id_field()]);
        }
        fields
    }

    /// Writes the DOL source for `entity`: a `gen` declaration with one
    /// `has` line per field and one line per constraint, and an `exegesis`
    /// listing the fields.
    pub fn generate_dol_source(
        &self,
        entity: &str,
        fields: &[ExtractedField],
        constraints: &[String],
    ) -> (r: String)
        ensures
            r@ == dol_source(entity@, fields_view(fields@), strings_view(constraints@)),
    {
        let lower = to_lowercase(entity);
        self.generate_dol_source_lower(lower.as_str(), entity, fields, constraints)
    }

    /// Writes the DOL source for `entity`, whose name in lower case is
    /// `le`.
    pub fn generate_dol_source_lower(
        &self,
        le: &str,
        entity: &str,
        fields: &[ExtractedField],
        constraints: &[String],
    ) -> (r: String)
        ensures
            r@ == dol_source_lower(le@, entity@, fields_view(fields@), strings_view(constraints@)),
    {
        let mut source = owned("gen ");
        source.append(le);
        source.append(".schema {\n");
        let ghost head = source@;
        let mut i: usize = 0;
        while i < fields.len()
            invariant
                i <= fields@.len(),
                source@ == head + field_decls(le@, fields_view(fields@.take(i as int))),
            decreases fields.len() - i,
        {
            let f = &fields[i];
            assert(fields_view(fields@.take(i + 1)).drop_last() =~= fields_view(
                fields@.take(i as int),
            ));
            assert(fields_view(fields@.take(i + 1)).last() == field_view(*f));
            source.append("  ");
            source.append(le);
            source.append(" has ");
            source.append(f.name.as_str());
            source.append(": ");
            source.append(f.field_type.as_str());
            source.append(" @crdt(");
            source.append(f.crdt_strategy.as_str());
            source.append(")\n");
            i = i + 1;
        }
        assert(fields@.take(fields.len() as int) =~= fields@);
        let ghost head2 = source@;
        let mut j: usize = 0;
        while j < constraints.len()
            invariant
                j <= constraints@.len(),
                source@ == head2 + constraint_lines(strings_view(constraints@.take(j as int))),
            decreases constraints.len() - j,
        {
            assert(strings_view(constraints@.take(j + 1)).drop_last() =~= strings_view(
                constraints@.take(j as int),
            ));
            source.append("  ");
            source.append(constraints[j].as_str());
            source.append("\n");
            j = j + 1;
        }
        assert(constraints@.take(constraints.len() as int) =~= constraints@);
        source.append("}\n\n");
        source.append("exegesis {\n");
        source.append("  Schema for ");
        source.append(entity);
        source.append(" with CRDT-backed fields.\n");
        source.append("  \n");
        source.append("  Fields:\n");
        let ghost head3 = source@;
        let mut k: usize = 0;
        while k < fields.len()
            invariant
                k <= fields@.len(),
                source@ == head3 + field_docs(fields_view(fields@.take(k as int))),
            decreases fields.len() - k,
        {
            let f = &fields[k];
            assert(fields_view(fields@.take(k + 1)).drop_last() =~= fields_view(
                fields@.take(k as int),
            ));
            assert(fields_view(fields@.take(k + 1)).last() == field_view(*f));
            source.append("  - ");
            source.append(f.name.as_str());
            source.append(": ");
            source.append(f.field_type.as_str());
            source.append(" (");
            source.append(f.crdt_strategy.as_str());
            source.append(")\n");
            source.append("    ");
            source.append(f.rationale.as_str());
            source.append("\n");
            k = k + 1;
        }
        source.append("}\n");
        proof {
            let fs = fields_view(fields@);
            assert(source@ =~= dol_source_lower(le@, entity@, fs, strings_view(constraints@)));
        }
        source
    }
    /// The metadata of a schema: the average confidence of its fields,
    /// warnings, and suggestions for what to add.
    pub fn generate_metadata(&self, fields: &[ExtractedField], requirement: &NlRequirement) -> (r:
        SchemaMetadata)
        requires
            fields@.len() * 90 <= u32::MAX,
        ensures
            is_metadata(r, fields_view(fields@), requirement.description@),
    {
        let ghost fs = fields_view(fields@);
        let mut sum: u32 = 0;
        let mut i: usize = 0;
        while i < fields.len()
            invariant
                i <= fields@.len(),
                fields@.len() * 90 <= u32::MAX,
                fs == fields_view(fields@),
                sum == score_sum(fields_view(fields@.take(i as int))),
                sum <= 90 * i,
            decreases fields.len() - i,
        {
            assert(fields_view(fields@.take(i + 1)).drop_last() =~= fields_view(
                fields@.take(i as int),
            ));
            assert(fields_view(fields@.take(i + 1)).last() == field_view(fields@[i as int]));
            let c = fields[i].confidence.as_str();
            let score: u32 = if str_eq(c, "High") {
                90
            } else if str_eq(c, "Medium") {
                70
            } else if str_eq(c, "Low") {
                50
            } else {
                60
            };
            sum = sum + score;
            i = i + 1;
        }
        assert(fields@.take(fields.len() as int) =~= fields@);
        let confidence: u8 = if fields.len() == 0 {
            50
        } else {
            let n = fields.len() as u32;
            let avg = sum / n;
            assert(avg <= 90) by (nonlinear_arith)
                requires
                    sum <= 90 * n,
                    n > 0,
                    avg == sum / n,
            ;
            avg as u8
        };
        let mut warnings: Vec<String> = Vec::new();
        if fields.len() < 2 {
            warnings.push(owned("Schema has very few fields. Consider adding more properties."));
        }
        assert(strings_view(warnings@) =~= spec_warnings(fs));
        let mut has_id = false;
        let mut has_timestamp = false;
        let mut j: usize = 0;
        while j < fields.len()
            invariant
                j <= fields@.len(),
                fs == fields_view(fields@),
                has_id == exists|k: int| 0 <= k < j && (#[trigger] fs[k]).0 == "id"@,
                has_timestamp == exists|k: int|
                    0 <= k < j && (seq_contains((#[trigger] fs[k]).0, "created"@) || seq_contains(
                        fs[k].0,
                        "updated"@,
                    )),
            decreases fields.len() - j,
        {
            let name = fields[j].name.as_str();
            assert(fs[j as int].0 == name@);
            if str_eq(name, "id") {
                has_id = true;
            }
            if contains(name, "created") || contains(name, "updated") {
                has_timestamp = true;
            }
            j = j + 1;
        }
        let mut suggestions: Vec<String> = Vec::new();
        if !has_id {
            suggestions.push(owned("Consider adding an 'id' field for unique identification."));
        }
        if !has_timestamp {
            suggestions.push(
                owned("Consider adding timestamp fields (created_at, updated_at) for audit trails."),
            );
        }
        let lower = to_lowercase(requirement.description.as_str());
        let collaborative = contains(lower.as_str(), "collaborative");
        let ghost head = strings_view(suggestions@);
        let mut k: usize = 0;
        while k < fields.len()
            invariant
                k <= fields@.len(),
                collaborative == seq_contains(lowercase(requirement.description@), "collaborative"@),
                strings_view(suggestions@) == head + lww_suggestions(
                    fields_view(fields@.take(k as int)),
                    collaborative,
                ),
            decreases fields.len() - k,
        {
            let f = &fields[k];
            assert(fields_view(fields@.take(k + 1)).drop_last() =~= fields_view(
                fields@.take(k as int),
            ));
            assert(fields_view(fields@.take(k + 1)).last() == field_view(*f));
            if str_eq(f.field_type.as_str(), "String") && str_eq(f.crdt_strategy.as_str(), "lww") {
                if collaborative {
                    let mut m = owned("Field '");
                    m.append(f.name.as_str());
                    m.append(
                        "' uses LWW but collaborative editing detected. Consider 'peritext' strategy.",
                    );
                    let ghost before = strings_view(suggestions@);
                    suggestions.push(m);
                    assert(strings_view(suggestions@) =~= before.push(m@));
                }
            }
            k = k + 1;
        }
        assert(fields@.take(fields.len() as int) =~= fields@);
        proof {
            assert(strings_view(suggestions@) =~= spec_suggestions(fs, requirement.description@));
        }
        SchemaMetadata { confidence, warnings, suggestions }
    }

    /// Converts a natural language requirement to a DOL schema; fails when
    /// the requirement names no entity and its description names none.
    pub fn convert(&self, requirement: NlRequirement) -> (r: Result<GeneratedSchema, String>)
        requires
            self.wf(),
            requirement.entity_name is Some || !entity_name_panics(requirement.description@),
        ensures
            match requirement_entity(requirement) {
                None => r matches Err(m) && m@ == "Could not determine entity name"@,
                Some(e) => r matches Ok(s) && is_schema_for(s, requirement, e),
            },
    {
        let entity_name = match &requirement.entity_name {
            Some(e) => e.clone(),
            None => match self.extract_entity_name(requirement.description.as_str()) {
                Some(e) => e,
                None => {
                    return Err(owned("Could not determine entity name"));
                },
            },
        };
        let fields = match self.extract_fields(
            requirement.description.as_str(),
            entity_name.as_str(),
        ) {
            Ok(f) => f,
            Err(e) => {
                return Err(e);
            },
        };
        proof {
            lemma_detected_fields_len(field_table(), lowercase(requirement.description@));
        }
        let dol_source = self.generate_dol_source(
            entity_name.as_str(),
            fields.as_slice(),
            requirement.constraints.as_slice(),
        );
        let metadata = self.generate_metadata(fields.as_slice(), &requirement);
        Ok(
            GeneratedSchema {
                entity_name,
                dol_source,
                fields,
                constraints: requirement.constraints,
                metadata,
            },
        )
    }
}

/// At most one field is detected per entry of the table.
pub proof fn lemma_detected_fields_len(
    t: Seq<(Seq<char>, Seq<char>, Seq<Seq<char>>)>,
    text: Seq<char>,
)
    ensures
        detected_fields(t, text).len() <= t.len(),
    decreases t.len(),
{
    if t.len() > 0 {
        lemma_detected_fields_len(t.drop_last(), text);
    }
}

/// A description always yields at least one field, and at most one per
/// entry of the field table.
pub proof fn lemma_fields_count(description: Seq<char>)
    ensures
        1 <= spec_fields(description).len() <= field_table().len(),
{
    lemma_detected_fields_len(field_table(), lowercase(description));
}

/// The average confidence of a list of fields is at most 90.
pub proof fn lemma_average_confidence_bounded(fs: Seq<FieldView>)
    ensures
        average_confidence(fs) <= 90,
{
    lemma_score_sum_bounded(fs);
    if fs.len() > 0 {
        let n = fs.len();
        let t = score_sum(fs);
        assert(t / n <= 90) by (nonlinear_arith)
            requires
                t <= 90 * n,
                n > 0,
        ;
    }
}

/// Each field scores at most 90.
proof fn lemma_score_sum_bounded(fs: Seq<FieldView>)
    ensures
        score_sum(fs) <= 90 * fs.len(),
    decreases fs.len(),
{
    if fs.len() > 0 {
        lemma_score_sum_bounded(fs.drop_last());
    }
}

impl Default for NlToDolConverter {
    /// The converter over the standard phrase table.
    fn default() -> (r: NlToDolConverter)
        ensures
            r.wf(),
    {
        NlToDolConverter::new()
    }
}


// ---------------------------------------------------------------------------
// Laws of field extraction
// ---------------------------------------------------------------------------

/// The base of the type `Vec<String>` is `Vec`.
proof fn lemma_vec_string_base()
    ensures
        spec_base_type("Vec<String>"@) == "Vec"@,
{
    reveal_strlit("Vec<String>");
    reveal_strlit("Vec");
    let t = "Vec<String>"@;
    let t1 = t.drop_first();
    let t2 = t1.drop_first();
    let t3 = t2.drop_first();
    assert(t[0] == 'V' && t1[0] == 'e' && t2[0] == 'c' && t3[0] == '<');
    assert(prefix_len(t3, '<') == 0);
    assert(prefix_len(t2, '<') == 1);
    assert(prefix_len(t1, '<') == 2);
    assert(prefix_len(t, '<') == 3);
    let v = t.take(3);
    assert(v =~= "Vec"@);
    assert(!spec_is_whitespace(v[0]) && !spec_is_whitespace(v.last()));
    assert(leading_ws(v) == 0);
    assert(trailing_ws(v) == 0);
    assert(spec_trim(v) =~= v);
}

/// A description that mentions `items`, `list` or `elements` yields a
/// field named `items` of type `Vec<String>`; when that field is used as
/// an ordered list, its strategy is RGA.
pub proof fn lemma_items_are_vectors(l: Seq<char>)
    requires
        seq_contains(l, "items"@) || seq_contains(l, "list"@) || seq_contains(l, "elements"@),
    ensures
        exists|k: int|
            #![trigger fields_from_lower(l)[k]]
            0 <= k < fields_from_lower(l).len() && fields_from_lower(l)[k].0 == "items"@
                && fields_from_lower(l)[k].1 == "Vec<String>"@ && (spec_usage(l, "items"@).0
                == UsagePattern::OrderedList ==> fields_from_lower(l)[k].2 == "rga"@),
{
    let t = field_table();
    let kws = t[8].2;
    assert(kws == seq!["items"@, "list"@, "elements"@]);
    if seq_contains(l, "items"@) {
        assert(seq_contains(l, kws[0]));
    } else if seq_contains(l, "list"@) {
        assert(seq_contains(l, kws[1]));
    } else {
        assert(seq_contains(l, kws[2]));
    }
    assert(any_keyword(l, kws));
    assert(t.drop_last() =~= t.take(9));
    assert(t.take(9).last() == t[8]);
    let prev = detected_fields(t.take(8), l);
    assert(t.take(9).drop_last() =~= t.take(8));
    let f = field_for("items"@, "Vec<String>"@, l);
    assert(detected_fields(t.take(9), l) == prev.push(f));
    let found = detected_fields(t, l);
    assert(found == prev.push(f) || found == prev.push(f).push(field_for(t[9].0, t[9].1, l)));
    let k = prev.len() as int;
    assert(found[k] == f);
    lemma_vec_string_base();
    let (usage, consistency) = spec_usage(l, "items"@);
    if usage == UsagePattern::OrderedList {
        crate::mcp::recommendations::lemma_ordered_sequences_get_rga("Vec"@, consistency);
        assert(recommended("Vec<String>"@, usage, consistency).strategy == crate::ast::CrdtStrategy::Rga);
    }
    assert(fields_from_lower(l)[k] == f);
}

} // verus!

//! Context-aware code completion for DOL sources.
//!
//! The completion provider looks at the text before the cursor to decide
//! what is being written (a top-level keyword, a statement, a field name, a
//! field type, a CRDT strategy, an annotation, or exegesis text) and offers
//! the matching completions: field names for the entity being declared,
//! common types, and the CRDT strategies with their rationale.

use vstd::prelude::*;

use crate::text::{
    chars_of, contains, contains_char, ends_with, find_str, join_strings, join_with, owned,
    pad2, prefix_len, seq_contains, seq_ends_with, spec_trim, spec_utf8_width, str_eq,
    string_from_range, strings_view, lowercase, to_lowercase, trim, two_digits, utf8_width,
    find_from, opt_string_view, owned_all, occurs_at,
};

verus! {

/// Completion item kind (following the LSP specification).
#[derive(Debug, Clone, Copy, PartialEq, Eq, Structural)]
pub enum CompletionItemKind {
    /// Text completion
    Text,
    /// Method
    Method,
    /// Function
    Function,
    /// Field or property
    Field,
    /// Variable
    Variable,
    /// Class
    Class,
    /// Interface
    Interface,
    /// Module
    Module,
    /// Property
    Property,
    /// Keyword
    Keyword,
    /// Snippet
    Snippet,
    /// Enum
    Enum,
    /// EnumMember
    EnumMember,
}

/// A completion item.
#[derive(Debug, Clone)]
pub struct CompletionItem {
    /// Label shown in completion list
    pub label: String,
    /// Kind of completion
    pub kind: CompletionItemKind,
    /// Detailed information
    pub detail: Option<String>,
    /// Documentation
    pub documentation: Option<String>,
    /// Text to insert
    pub insert_text: String,
    /// Sort priority (lower = higher priority)
    pub sort_text: Option<String>,
    /// Filter text for matching
    pub filter_text: Option<String>,
}

/// Context for determining what completions to provide.
#[derive(Debug, Clone, Copy, PartialEq, Eq, Structural)]
pub enum CompletionContext {
    /// At top level, suggest keywords (gen, trait, rule, etc.)
    TopLevel,
    /// Inside gen/trait body, suggest statement types
    InsideBody,
    /// After "has", suggest field names
    FieldName,
    /// After field name and ":", suggest types
    FieldType,
    /// After "@crdt(", suggest strategies
    CrdtStrategy,
    /// After type, suggest @crdt annotation
    CrdtAnnotation,
    /// Inside exegesis block
    Exegesis,
    /// Unknown context
    Unknown,
}

/// Field name template.
#[derive(Debug, Clone)]
struct FieldTemplate {
    name: String,
    field_type: String,
    crdt_strategy: String,
    description: String,
}

/// Type completion.
#[derive(Debug, Clone)]
pub struct TypeCompletion {
    /// Type name
    pub name: String,
    /// Description
    pub description: String,
    /// Suggested CRDT strategy
    pub suggested_crdt: String,
}

/// CRDT strategy completion.
#[derive(Debug, Clone)]
pub struct CrdtStrategyCompletion {
    /// Strategy name
    pub name: String,
    /// Short description
    pub description: String,
    /// Detailed documentation
    pub documentation: String,
    /// Best for types
    pub best_for: Vec<String>,
    /// Example usage
    pub example: String,
}

/// Field type completion.
#[derive(Debug, Clone)]
pub struct FieldTypeCompletion {
    /// Type name
    pub name: String,
    /// Description
    pub description: String,
    /// Suggested CRDT strategy
    pub suggested_crdt: String,
}

// ---------------------------------------------------------------------------
// Views and tables
// ---------------------------------------------------------------------------

/// A field template: name, type, CRDT strategy and description.
pub type TemplateView = (Seq<char>, Seq<char>, Seq<char>, Seq<char>);

/// A type completion: name, description and suggested strategy.
pub type TypeView = (Seq<char>, Seq<char>, Seq<char>);

/// A strategy completion: name, description, documentation, the types it
/// suits, and an example.
pub type CrdtView = (Seq<char>, Seq<char>, Seq<char>, Seq<Seq<char>>, Seq<char>);

/// A completion item: label, kind, detail, documentation, insert text,
/// sort text and filter text.
pub type ItemView = (
    Seq<char>,
    CompletionItemKind,
    Option<Seq<char>>,
    Option<Seq<char>>,
    Seq<char>,
    Option<Seq<char>>,
    Option<Seq<char>>,
);

/// The view of a completion item.
pub open spec fn item_view(it: CompletionItem) -> ItemView {
    (
        it.label@,
        it.kind,
        opt_string_view(it.detail),
        opt_string_view(it.documentation),
        it.insert_text@,
        opt_string_view(it.sort_text),
        opt_string_view(it.filter_text),
    )
}

/// The views of a list of completion items.
pub open spec fn items_view(v: Seq<CompletionItem>) -> Seq<ItemView> {
    v.map_values(|it: CompletionItem| item_view(it))
}

spec fn template_view(t: FieldTemplate) -> TemplateView {
    (t.name@, t.field_type@, t.crdt_strategy@, t.description@)
}

/// The view of a type completion.
pub open spec fn type_view(t: TypeCompletion) -> TypeView {
    (t.name@, t.description@, t.suggested_crdt@)
}

/// The view of a strategy completion.
pub open spec fn crdt_view(c: CrdtStrategyCompletion) -> CrdtView {
    (c.name@, c.description@, c.documentation@, strings_view(c.best_for@), c.example@)
}

/// The fields suggested for a document.
pub open spec fn document_templates() -> Seq<TemplateView> {
    seq![
        ("id"@, "String"@, "immutable"@, "Unique document identifier"@),
        ("title"@, "String"@, "lww"@, "Document title"@),
        ("content"@, "String"@, "peritext"@, "Collaborative document content"@),
        ("author"@, "String"@, "immutable"@, "Document author"@),
        ("tags"@, "Set<String>"@, "or_set"@, "Document tags"@),
        ("created_at"@, "i64"@, "immutable"@, "Creation timestamp"@),
        ("updated_at"@, "i64"@, "lww"@, "Last update timestamp"@),
    ]
}

/// The fields suggested for a user.
pub open spec fn user_templates() -> Seq<TemplateView> {
    seq![
        ("id"@, "String"@, "immutable"@, "Unique user identifier"@),
        ("name"@, "String"@, "lww"@, "User name"@),
        ("email"@, "String"@, "lww"@, "User email address"@),
        ("role"@, "String"@, "lww"@, "User role"@),
        ("created_at"@, "i64"@, "immutable"@, "Account creation timestamp"@),
    ]
}

/// The field templates by entity.
pub open spec fn template_table() -> Seq<(Seq<char>, Seq<TemplateView>)> {
    seq![("document"@, document_templates()), ("user"@, user_templates())]
}

/// The common types.
pub open spec fn type_table() -> Seq<TypeView> {
    seq![
        ("String"@, "UTF-8 text"@, "lww"@),
        ("i32"@, "32-bit signed integer"@, "lww"@),
        ("i64"@, "64-bit signed integer"@, "lww"@),
        ("f64"@, "64-bit floating point"@, "lww"@),
        ("bool"@, "Boolean value"@, "lww"@),
        ("Set<String>"@, "Set of unique strings"@, "or_set"@),
        ("Vec<String>"@, "Ordered list of strings"@, "rga"@),
        ("Map<String, String>"@, "Key-value map"@, "lww"@),
    ]
}

/// The CRDT strategies.
pub open spec fn crdt_table() -> Seq<CrdtView> {
    seq![
        ("immutable"@, "Write-once, never changes"@, "Immutable values that cannot be modified after creation. Best for IDs and creation timestamps."@, seq!["String (ID)"@, "i64 (timestamps)"@], "@crdt(immutable)"@),
        ("lww"@, "Last-Write-Wins"@, "Uses timestamps to resolve conflicts; last write wins. Best for simple fields with single writers."@, seq!["String"@, "i32"@, "bool"@], "@crdt(lww)"@),
        ("peritext"@, "Character-level collaborative text"@, "Peritext CRDT for rich collaborative text editing. Preserves concurrent character-level edits."@, seq!["String (collaborative)"@], "@crdt(peritext)"@),
        ("or_set"@, "Observed-Remove Set"@, "Set CRDT that supports concurrent add/remove operations. Elements can be re-added after removal."@, seq!["Set<T>"@], "@crdt(or_set)"@),
        ("rga"@, "Replicated Growable Array"@, "List CRDT that preserves insertion order with concurrent edits. Best for ordered collections."@, seq!["Vec<T>"@, "List<T>"@], "@crdt(rga)"@),
        ("pn_counter"@, "Positive-Negative Counter"@, "Counter CRDT supporting increment and decrement. Converges to correct sum across replicas."@, seq!["i32"@, "i64"@], "@crdt(pn_counter)"@),
        ("mv_register"@, "Multi-Value Register"@, "Preserves all concurrent writes, returning multiple values. Application resolves conflicts."@, seq!["String"@, "any type"@], "@crdt(mv_register)"@),
    ]
}

/// The top-level keywords.
pub open spec fn keyword_items() -> Seq<ItemView> {
    seq![
        ("gen"@, CompletionItemKind::Keyword, Some("Gen declaration"@), Some("Define a gen with CRDT-backed fields"@), "gen ${1:entity}.${2:name} {\n  $0\n}\n\nexegesis {\n  \n}"@, Some("0"@), None),
        ("trait"@, CompletionItemKind::Keyword, Some("Trait declaration"@), Some("Define a composable trait"@), "trait ${1:name} {\n  $0\n}\n\nexegesis {\n  \n}"@, Some("1"@), None),
        ("rule"@, CompletionItemKind::Keyword, Some("Rule (constraint) declaration"@), Some("Define a validation rule"@), "rule ${1:name} {\n  $0\n}\n\nexegesis {\n  \n}"@, Some("2"@), None),
    ]
}

/// The statement keywords.
pub open spec fn statement_items() -> Seq<ItemView> {
    seq![
        ("has"@, CompletionItemKind::Keyword, Some("Field declaration"@), Some("Declare a field with type and CRDT strategy"@), "has ${1:field}: ${2:String} @crdt(${3:lww})"@, Some("0"@), None),
    ]
}

/// The annotation snippet.
pub open spec fn annotation_items() -> Seq<ItemView> {
    seq![
        ("@crdt()"@, CompletionItemKind::Snippet, Some("Add CRDT strategy annotation"@), Some("Specify how this field merges across replicas"@), "@crdt(${1:lww})"@, Some("0"@), None),
    ]
}

/// The exegesis snippet.
pub open spec fn exegesis_items() -> Seq<ItemView> {
    seq![
        ("exegesis template"@, CompletionItemKind::Snippet, Some("Exegesis documentation template"@), Some("Standard exegesis structure"@), "Schema for ${1:entity}.\n\nDesign decisions:\n- ${2:decision}\n\nFields:\n- ${3:field}: ${4:description}"@, Some("0"@), None),
    ]
}

/// The templates of the first entity named `key` in `table`.
pub open spec fn lookup_templates(table: Seq<(Seq<char>, Seq<TemplateView>)>, key: Seq<char>) -> Option<
    Seq<TemplateView>,
>
    decreases table.len(),
{
    if table.len() == 0 {
        None
    } else if table[0].0 == key {
        Some(table[0].1)
    } else {
        lookup_templates(table.drop_first(), key)
    }
}

/// The completion item for field template `t` at position `i`.
pub open spec fn field_item(t: TemplateView, i: nat) -> ItemView {
    (
        t.0,
        CompletionItemKind::Field,
        Some(t.1 + " ("@ + t.2 + ")"@),
        Some(t.3),
        t.0 + ": "@ + t.1 + " @crdt("@ + t.2 + ")"@,
        Some(pad2(i)),
        Some(t.0),
    )
}

/// The completion items for field templates.
pub open spec fn field_items(ts: Seq<TemplateView>) -> Seq<ItemView> {
    Seq::new(ts.len(), |i: int| field_item(ts[i], i as nat))
}

/// The completion items for types.
pub open spec fn type_items(ts: Seq<TypeView>) -> Seq<ItemView> {
    Seq::new(
        ts.len(),
        |i: int|
            (
                ts[i].0,
                CompletionItemKind::Class,
                Some(ts[i].1),
                Some("Suggested CRDT: "@ + ts[i].2),
                ts[i].0,
                Some(pad2(i as nat)),
                Some(ts[i].0),
            ),
    )
}

/// The completion items for strategies.
pub open spec fn crdt_items(cs: Seq<CrdtView>) -> Seq<ItemView> {
    Seq::new(
        cs.len(),
        |i: int|
            (
                cs[i].0,
                CompletionItemKind::EnumMember,
                Some(cs[i].1),
                Some(cs[i].2 + "\n\nBest for: "@ + join_with(cs[i].3, ", "@)),
                cs[i].0,
                Some(pad2(i as nat)),
                Some(cs[i].0),
            ),
    )
}

// ---------------------------------------------------------------------------
// The context of the cursor
// ---------------------------------------------------------------------------

/// The index just after the last line feed of `s` (zero when there is
/// none).
pub open spec fn after_last_newline(s: Seq<char>) -> nat
    decreases s.len(),
{
    if s.len() == 0 {
        0
    } else if s.last() == '\n' {
        s.len()
    } else {
        after_last_newline(s.drop_last())
    }
}

/// The last line of `s`, as `str::lines` gives it: a final line feed ends
/// the last line rather than starting an empty one, and a line that ends in
/// a line feed loses a carriage return before it.
pub open spec fn last_line(s: Seq<char>) -> Seq<char> {
    if s.len() == 0 {
        Seq::empty()
    } else if s.last() == '\n' {
        let t = s.drop_last();
        let seg = t.skip(after_last_newline(t) as int);
        if seg.len() > 0 && seg.last() == '\r' {
            seg.drop_last()
        } else {
            seg
        }
    } else {
        s.skip(after_last_newline(s) as int)
    }
}

/// The number of bytes of `s` in UTF-8.
pub open spec fn byte_len(s: Seq<char>) -> nat
    decreases s.len(),
{
    if s.len() == 0 {
        0
    } else {
        byte_len(s.drop_last()) + spec_utf8_width(s.last())
    }
}

/// Byte offset `b` of `s` falls between two characters.
pub open spec fn is_char_boundary(s: Seq<char>, b: usize) -> bool {
    exists|c: nat| c <= s.len() && #[trigger] byte_len(s.take(c as int)) == b
}

/// The number of characters before byte offset `b` of `s`: the first `c`
/// (from `c0`) whose prefix reaches `b` bytes.
pub open spec fn chars_before(s: Seq<char>, b: usize, c0: nat) -> nat
    decreases s.len() - c0,
{
    if c0 >= s.len() || byte_len(s.take(c0 as int)) >= b {
        c0
    } else {
        chars_before(s, b, c0 + 1)
    }
}

/// What is being written at the end of `before`.
pub open spec fn spec_context(before: Seq<char>) -> CompletionContext {
    let ll = last_line(before);
    if seq_contains(ll, "@crdt("@) && !seq_contains(ll, ")"@) {
        CompletionContext::CrdtStrategy
    } else if seq_contains(ll, " has "@) && ll.contains(':') && !ll.contains('@') {
        CompletionContext::CrdtAnnotation
    } else if seq_contains(ll, " has "@) && ll.contains(':') {
        CompletionContext::FieldType
    } else if seq_contains(ll, " has "@) && !ll.contains(':') {
        CompletionContext::FieldName
    } else if seq_contains(before, "exegesis {"@) && !seq_ends_with(before, "}"@) {
        CompletionContext::Exegesis
    } else if (seq_contains(before, "gen "@) || seq_contains(before, "trait "@)) && before.contains(
        '{',
    ) && !seq_ends_with(before, "}"@) {
        CompletionContext::InsideBody
    } else if !before.contains('{') || seq_ends_with(before, "}"@) {
        CompletionContext::TopLevel
    } else {
        CompletionContext::Unknown
    }
}

/// The entity of the first `gen <entity>.` in `source`, lowercased.
pub open spec fn spec_entity_name(source: Seq<char>) -> Option<Seq<char>> {
    match find_from(source, "gen "@, 0) {
        Some(start) => {
            let after = source.skip((start + 4) as int);
            if prefix_len(after, '.') < after.len() {
                Some(lowercase(spec_trim(after.take(prefix_len(after, '.') as int))))
            } else {
                None
            }
        },
        None => None,
    }
}

/// The templates offered for `source`: those of its entity, or else the
/// document ones.
pub open spec fn chosen_templates(table: Seq<(Seq<char>, Seq<TemplateView>)>, source: Seq<char>) -> Seq<
    TemplateView,
> {
    templates_for(table, spec_entity_name(source))
}

/// The templates of the entity `entity` (already in lower case), or the
/// document templates when there is no entity or it has none.
pub open spec fn templates_for(table: Seq<(Seq<char>, Seq<TemplateView>)>, entity: Option<Seq<char>>) -> Seq<
    TemplateView,
> {
    let by_entity = match entity {
        Some(n) => lookup_templates(table, n),
        None => None,
    };
    match by_entity {
        Some(ts) => ts,
        None => lookup_templates(table, "document"@)->0,
    }
}

/// The completions that provider `p` offers at byte offset `position` of
/// `source`, by what is being written there.
pub open spec fn spec_completions(p: CompletionProvider, source: Seq<char>, position: usize) -> Seq<ItemView> {
    match spec_context(source.take(chars_before(source, position, 0) as int)) {
        CompletionContext::TopLevel => keyword_items(),
        CompletionContext::InsideBody => statement_items(),
        CompletionContext::FieldName => field_items(chosen_templates(p.templates(), source)),
        CompletionContext::FieldType => type_items(p.types()),
        CompletionContext::CrdtStrategy => crdt_items(p.crdts()),
        CompletionContext::CrdtAnnotation => annotation_items(),
        CompletionContext::Exegesis => exegesis_items(),
        CompletionContext::Unknown => Seq::empty(),
    }
}

// ---------------------------------------------------------------------------
// Builders
// ---------------------------------------------------------------------------

fn template(name: &str, field_type: &str, crdt_strategy: &str, description: &str) -> (r:
    FieldTemplate)
    ensures
        template_view(r) == (name@, field_type@, crdt_strategy@, description@),
{
    FieldTemplate {
        name: owned(name),
        field_type: owned(field_type),
        crdt_strategy: owned(crdt_strategy),
        description: owned(description),
    }
}

fn type_completion(name: &str, description: &str, suggested_crdt: &str) -> (r: TypeCompletion)
    ensures
        type_view(r) == (name@, description@, suggested_crdt@),
{
    TypeCompletion {
        name: owned(name),
        description: owned(description),
        suggested_crdt: owned(suggested_crdt),
    }
}

fn crdt_completion(
    name: &str,
    description: &str,
    documentation: &str,
    best_for: Vec<&str>,
    example: &str,
) -> (r: CrdtStrategyCompletion)
    ensures
        crdt_view(r) == (
            name@,
            description@,
            documentation@,
            best_for@.map_values(|x: &str| x@),
            example@,
        ),
{
    let v = owned_all(&best_for);
    assert(strings_view(v@) =~= best_for@.map_values(|x: &str| x@));
    CrdtStrategyCompletion {
        name: owned(name),
        description: owned(description),
        documentation: owned(documentation),
        best_for: v,
        example: owned(example),
    }
}

fn fixed_item(
    label: &str,
    kind: CompletionItemKind,
    detail: &str,
    documentation: &str,
    insert_text: &str,
    sort_text: &str,
) -> (r: CompletionItem)
    ensures
        item_view(r) == (
            label@,
            kind,
            Some(detail@),
            Some(documentation@),
            insert_text@,
            Some(sort_text@),
            None::<Seq<char>>,
        ),
{
    CompletionItem {
        label: owned(label),
        kind,
        detail: Some(owned(detail)),
        documentation: Some(owned(documentation)),
        insert_text: owned(insert_text),
        sort_text: Some(owned(sort_text)),
        filter_text: None,
    }
}

// ---------------------------------------------------------------------------
// The provider
// ---------------------------------------------------------------------------

/// Completion provider for DOL.
pub struct CompletionProvider {
    field_templates: Vec<(String, Vec<FieldTemplate>)>,
    type_completions: Vec<TypeCompletion>,
    crdt_completions: Vec<CrdtStrategyCompletion>,
}

impl CompletionProvider {
    /// The field templates, by entity.
    pub closed spec fn templates(&self) -> Seq<(Seq<char>, Seq<TemplateView>)> {
        self.field_templates@.map_values(
            |e: (String, Vec<FieldTemplate>)|
                (e.0@, e.1@.map_values(|t: FieldTemplate| template_view(t))),
        )
    }

    /// The type completions.
    pub closed spec fn types(&self) -> Seq<TypeView> {
        self.type_completions@.map_values(|t: TypeCompletion| type_view(t))
    }

    /// The strategy completions.
    pub closed spec fn crdts(&self) -> Seq<CrdtView> {
        self.crdt_completions@.map_values(|c: CrdtStrategyCompletion| crdt_view(c))
    }

    /// The provider has document templates to fall back on, and no entity
    /// has two template lists.
    pub open spec fn wf(&self) -> bool {
        &&& lookup_templates(self.templates(), "document"@) is Some
        &&& forall|i: int, j: int|
            #![trigger self.templates()[i], self.templates()[j]]
            0 <= i < j < self.templates().len() ==> self.templates()[i].0 != self.templates()[j].0
    }

    /// Creates a new completion provider.
    pub fn new() -> (r: CompletionProvider)
        ensures
            r.templates() == template_table(),
            r.types() == type_table(),
            r.crdts() == crdt_table(),
            r.wf(),
    {
        let document = vec![
            template("id", "String", "immutable", "Unique document identifier"),
            template("title", "String", "lww", "Document title"),
            template("content", "String", "peritext", "Collaborative document content"),
            template("author", "String", "immutable", "Document author"),
            template("tags", "Set<String>", "or_set", "Document tags"),
            template("created_at", "i64", "immutable", "Creation timestamp"),
            template("updated_at", "i64", "lww", "Last update timestamp"),
        ];
        let user = vec![
            template("id", "String", "immutable", "Unique user identifier"),
            template("name", "String", "lww", "User name"),
            template("email", "String", "lww", "User email address"),
            template("role", "String", "lww", "User role"),
            template("created_at", "i64", "immutable", "Account creation timestamp"),
        ];
        let type_completions = vec![
            type_completion("String", "UTF-8 text", "lww"),
            type_completion("i32", "32-bit signed integer", "lww"),
            type_completion("i64", "64-bit signed integer", "lww"),
            type_completion("f64", "64-bit floating point", "lww"),
            type_completion("bool", "Boolean value", "lww"),
            type_completion("Set<String>", "Set of unique strings", "or_set"),
            type_completion("Vec<String>", "Ordered list of strings", "rga"),
            type_completion("Map<String, String>", "Key-value map", "lww"),
        ];
        let crdt_completions = vec![
            crdt_completion("immutable", "Write-once, never changes", "Immutable values that cannot be modified after creation. Best for IDs and creation timestamps.", vec!["String (ID)", "i64 (timestamps)"], "@crdt(immutable)"),
            crdt_completion("lww", "Last-Write-Wins", "Uses timestamps to resolve conflicts; last write wins. Best for simple fields with single writers.", vec!["String", "i32", "bool"], "@crdt(lww)"),
            crdt_completion("peritext", "Character-level collaborative text", "Peritext CRDT for rich collaborative text editing. Preserves concurrent character-level edits.", vec!["String (collaborative)"], "@crdt(peritext)"),
            crdt_completion("or_set", "Observed-Remove Set", "Set CRDT that supports concurrent add/remove operations. Elements can be re-added after removal.", vec!["Set<T>"], "@crdt(or_set)"),
            crdt_completion("rga", "Replicated Growable Array", "List CRDT that preserves insertion order with concurrent edits. Best for ordered collections.", vec!["Vec<T>", "List<T>"], "@crdt(rga)"),
            crdt_completion("pn_counter", "Positive-Negative Counter", "Counter CRDT supporting increment and decrement. Converges to correct sum across replicas.", vec!["i32", "i64"], "@crdt(pn_counter)"),
            crdt_completion("mv_register", "Multi-Value Register", "Preserves all concurrent writes, returning multiple values. Application resolves conflicts.", vec!["String", "any type"], "@crdt(mv_register)"),
        ];
        let ghost dv = document@.map_values(|t: FieldTemplate| template_view(t));
        let ghost uv = user@.map_values(|t: FieldTemplate| template_view(t));
        assert(dv =~= document_templates());
        assert(uv =~= user_templates());
        let field_templates = vec![(owned("document"), document), (owned("user"), user)];
        let r = CompletionProvider { field_templates, type_completions, crdt_completions };
        assert(r.templates() =~= template_table());
        assert(r.types() =~= type_table());
        assert(r.crdts() =~~= crdt_table());
        assert(lookup_templates(r.templates(), "document"@) == Some(document_templates()));
        proof {
            reveal_strlit("document");
            reveal_strlit("user");
            assert(r.templates()[0].0 != r.templates()[1].0) by {
                assert(r.templates()[0].0.len() != r.templates()[1].0.len());
            }
        }
        r
    }

    /// Provides completions at byte offset `position` of `source`.
    pub fn provide_completions(&self, source: &str, position: usize) -> (r: Vec<CompletionItem>)
        requires
            self.wf(),
            is_char_boundary(source@, position),
        ensures
            items_view(r@) == spec_completions(*self, source@, position),
    {
        let context = self.analyze_context(source, position);
        match context {
            CompletionContext::TopLevel => self.complete_keywords(),
            CompletionContext::InsideBody => self.complete_statement_keywords(),
            CompletionContext::FieldName => self.complete_field_names(source),
            CompletionContext::FieldType => self.complete_types(),
            CompletionContext::CrdtStrategy => self.complete_crdt_strategies(source),
            CompletionContext::CrdtAnnotation => self.complete_crdt_annotation(),
            CompletionContext::Exegesis => self.complete_exegesis(),
            CompletionContext::Unknown => {
                let v: Vec<CompletionItem> = Vec::new();
                assert(items_view(v@) =~= Seq::<ItemView>::empty());
                v
            },
        }
    }

    /// Analyzes the text before byte offset `position` to determine what
    /// kind of completions to provide.
    pub fn analyze_context(&self, source: &str, position: usize) -> (r: CompletionContext)
        requires
            is_char_boundary(source@, position),
        ensures
            r == spec_context(source@.take(chars_before(source@, position, 0) as int)),
    {
        let before = text_before(source, position);
        let b = before.as_str();
        let line = last_line_of(b);
        let ll = line.as_str();
        let llc = chars_of(ll);
        let bc = chars_of(b);
        if contains(ll, "@crdt(") && !contains(ll, ")") {
            return CompletionContext::CrdtStrategy;
        }
        if contains(ll, " has ") && contains_char(&llc, ':') && !contains_char(&llc, '@') {
            return CompletionContext::CrdtAnnotation;
        }
        if contains(ll, " has ") && contains_char(&llc, ':') {
            return CompletionContext::FieldType;
        }
        if contains(ll, " has ") && !contains_char(&llc, ':') {
            return CompletionContext::FieldName;
        }
        if contains(b, "exegesis {") && !ends_with(b, "}") {
            return CompletionContext::Exegesis;
        }
        if contains(b, "gen ") || contains(b, "trait ") {
            if contains_char(&bc, '{') && !ends_with(b, "}") {
                return CompletionContext::InsideBody;
            }
        }
        if !contains_char(&bc, '{') || ends_with(b, "}") {
            return CompletionContext::TopLevel;
        }
        CompletionContext::Unknown
    }

    /// Completes top-level keywords.
    pub fn complete_keywords(&self) -> (r: Vec<CompletionItem>)
        ensures
            items_view(r@) == keyword_items(),
    {
        let v = vec![
            fixed_item("gen", CompletionItemKind::Keyword, "Gen declaration", "Define a gen with CRDT-backed fields", "gen ${1:entity}.${2:name} {\n  $0\n}\n\nexegesis {\n  \n}", "0"),
            fixed_item("trait", CompletionItemKind::Keyword, "Trait declaration", "Define a composable trait", "trait ${1:name} {\n  $0\n}\n\nexegesis {\n  \n}", "1"),
            fixed_item("rule", CompletionItemKind::Keyword, "Rule (constraint) declaration", "Define a validation rule", "rule ${1:name} {\n  $0\n}\n\nexegesis {\n  \n}", "2"),
        ];
        assert(items_view(v@) =~= keyword_items());
        v
    }

    /// Completes statement keywords inside a body.
    pub fn complete_statement_keywords(&self) -> (r: Vec<CompletionItem>)
        ensures
            items_view(r@) == statement_items(),
    {
        let v = vec![
            fixed_item("has", CompletionItemKind::Keyword, "Field declaration", "Declare a field with type and CRDT strategy", "has ${1:field}: ${2:String} @crdt(${3:lww})", "0"),
        ];
        assert(items_view(v@) =~= statement_items());
        v
    }

    /// Completes field names from the templates of the entity that `source`
    /// declares, or the document templates.
    pub fn complete_field_names(&self, source: &str) -> (r: Vec<CompletionItem>)
        requires
            self.wf(),
        ensures
            items_view(r@) == field_items(chosen_templates(self.templates(), source@)),
    {
        let entity_name = self.extract_entity_name(source);
        self.field_names_for(entity_name)
    }

    /// Completes field names from the templates of the entity `entity`
    /// (already in lower case), or the document templates.
    pub fn field_names_for(&self, entity: Option<String>) -> (r: Vec<CompletionItem>)
        requires
            self.wf(),
        ensures
            items_view(r@) == field_items(templates_for(self.templates(), opt_string_view(entity))),
    {
        let found = match &entity {
            Some(name) => self.find_templates(name.as_str()),
            None => None,
        };
        let index = match found {
            Some(i) => i,
            None => {
                let d = self.find_templates("document");
                match d {
                    Some(i) => i,
                    None => 0,
                }
            },
        };
        let templates = &self.field_templates[index].1;
        let ghost ts = templates_for(self.templates(), opt_string_view(entity));
        assert(templates@.map_values(|t: FieldTemplate| template_view(t)) == ts);
        let mut out: Vec<CompletionItem> = Vec::new();
        let mut i: usize = 0;
        while i < templates.len()
            invariant
                i <= templates@.len(),
                templates@.map_values(|t: FieldTemplate| template_view(t)) == ts,
                items_view(out@) =~= field_items(ts).take(i as int),
            decreases templates.len() - i,
        {
            let t = &templates[i];
            let mut detail = t.field_type.clone();
            detail.append(" (");
            detail.append(t.crdt_strategy.as_str());
            detail.append(")");
            let mut insert_text = t.name.clone();
            insert_text.append(": ");
            insert_text.append(t.field_type.as_str());
            insert_text.append(" @crdt(");
            insert_text.append(t.crdt_strategy.as_str());
            insert_text.append(")");
            let item = CompletionItem {
                label: t.name.clone(),
                kind: CompletionItemKind::Field,
                detail: Some(detail),
                documentation: Some(t.description.clone()),
                insert_text,
                sort_text: Some(two_digits(i)),
                filter_text: Some(t.name.clone()),
            };
            let ghost before = out@;
            out.push(item);
            proof {
                assert(ts[i as int] == template_view(templates@[i as int]));
                assert(item_view(item) == field_item(ts[i as int], i as nat));
                assert(items_view(out@) =~= items_view(before).push(item_view(item)));
                assert(field_items(ts).take(i + 1) =~= field_items(ts).take(i as int).push(
                    field_item(ts[i as int], i as nat),
                ));
            }
            i = i + 1;
        }
        assert(field_items(ts).take(templates@.len() as int) =~= field_items(ts));
        out
    }

    /// The index of the first template list for entity `key`.
    fn find_templates(&self, key: &str) -> (r: Option<usize>)
        ensures
            match lookup_templates(self.templates(), key@) {
                Some(ts) => r is Some && r->0 < self.field_templates@.len()
                    && self.field_templates@[r->0 as int].1@.map_values(
                    |t: FieldTemplate| template_view(t),
                ) == ts,
                None => r is None,
            },
    {
        let mut i: usize = 0;
        assert(self.templates().skip(0) =~= self.templates());
        while i < self.field_templates.len()
            invariant
                i <= self.field_templates@.len(),
                lookup_templates(self.templates(), key@) == lookup_templates(
                    self.templates().skip(i as int),
                    key@,
                ),
            decreases self.field_templates.len() - i,
        {
            assert(self.templates().skip(i as int).drop_first() =~= self.templates().skip(i + 1));
            if str_eq(self.field_templates[i].0.as_str(), key) {
                return Some(i);
            }
            i = i + 1;
        }
        None
    }

    /// Completes type names.
    pub fn complete_types(&self) -> (r: Vec<CompletionItem>)
        ensures
            items_view(r@) == type_items(self.types()),
    {
        let ghost ts = self.types();
        let mut out: Vec<CompletionItem> = Vec::new();
        let mut i: usize = 0;
        while i < self.type_completions.len()
            invariant
                i <= self.type_completions@.len(),
                ts == self.types(),
                items_view(out@) =~= type_items(ts).take(i as int),
            decreases self.type_completions.len() - i,
        {
            let t = &self.type_completions[i];
            let mut documentation = owned("Suggested CRDT: ");
            documentation.append(t.suggested_crdt.as_str());
            let item = CompletionItem {
                label: t.name.clone(),
                kind: CompletionItemKind::Class,
                detail: Some(t.description.clone()),
                documentation: Some(documentation),
                insert_text: t.name.clone(),
                sort_text: Some(two_digits(i)),
                filter_text: Some(t.name.clone()),
            };
            let ghost before = out@;
            out.push(item);
            proof {
                assert(items_view(out@) =~= items_view(before).push(item_view(item)));
                assert(type_items(ts).take(i + 1) =~= type_items(ts).take(i as int).push(
                    item_view(item),
                ));
            }
            i = i + 1;
        }
        assert(type_items(ts).take(self.type_completions@.len() as int) =~= type_items(ts));
        out
    }

    /// Completes CRDT strategies.
    pub fn complete_crdt_strategies(&self, source: &str) -> (r: Vec<CompletionItem>)
        ensures
            items_view(r@) == crdt_items(self.crdts()),
    {
        let ghost cs = self.crdts();
        let mut out: Vec<CompletionItem> = Vec::new();
        let mut i: usize = 0;
        while i < self.crdt_completions.len()
            invariant
                i <= self.crdt_completions@.len(),
                cs == self.crdts(),
                items_view(out@) =~= crdt_items(cs).take(i as int),
            decreases self.crdt_completions.len() - i,
        {
            let c = &self.crdt_completions[i];
            let mut documentation = c.documentation.clone();
            documentation.append("\n\nBest for: ");
            let best = join_strings(&c.best_for, ", ");
            documentation.append(best.as_str());
            let item = CompletionItem {
                label: c.name.clone(),
                kind: CompletionItemKind::EnumMember,
                detail: Some(c.description.clone()),
                documentation: Some(documentation),
                insert_text: c.name.clone(),
                sort_text: Some(two_digits(i)),
                filter_text: Some(c.name.clone()),
            };
            let ghost before = out@;
            out.push(item);
            proof {
                assert(items_view(out@) =~= items_view(before).push(item_view(item)));
                assert(crdt_items(cs).take(i + 1) =~= crdt_items(cs).take(i as int).push(
                    item_view(item),
                ));
            }
            i = i + 1;
        }
        assert(crdt_items(cs).take(self.crdt_completions@.len() as int) =~= crdt_items(cs));
        out
    }

    /// Completes the `@crdt` annotation.
    pub fn complete_crdt_annotation(&self) -> (r: Vec<CompletionItem>)
        ensures
            items_view(r@) == annotation_items(),
    {
        let v = vec![
            fixed_item("@crdt()", CompletionItemKind::Snippet, "Add CRDT strategy annotation", "Specify how this field merges across replicas", "@crdt(${1:lww})", "0"),
        ];
        assert(items_view(v@) =~= annotation_items());
        v
    }

    /// Completes exegesis content.
    pub fn complete_exegesis(&self) -> (r: Vec<CompletionItem>)
        ensures
            items_view(r@) == exegesis_items(),
    {
        let v = vec![
            fixed_item("exegesis template", CompletionItemKind::Snippet, "Exegesis documentation template", "Standard exegesis structure", "Schema for ${1:entity}.\n\nDesign decisions:\n- ${2:decision}\n\nFields:\n- ${3:field}: ${4:description}", "0"),
        ];
        assert(items_view(v@) =~= exegesis_items());
        v
    }

    /// Extracts the entity name from a `gen <entity>.<name>` declaration,
    /// lowercased.
    #[verifier::spinoff_prover]
    pub fn extract_entity_name(&self, source: &str) -> (r: Option<String>)
        ensures
            opt_string_view(r) == spec_entity_name(source@),
    {
        let chars = chars_of(source);
        let pattern = chars_of("gen ");
        proof {
            reveal_strlit("gen ");
        }
        let found = find_str(&chars, &pattern);
        match found {
            Some(start) => {
                assert(occurs_at(chars@, pattern@, start as int));
                assert(pattern@.len() == 4);
                assert(start + 4 <= chars@.len());
                assert(start + 4 <= chars.len());
                let from = start + 4;
                let after = string_from_range(&chars, from, chars.len());
                let ghost a = source@.skip((start + 4) as int);
                assert(after@ =~= a);
                let head = crate::text::before_char(after.as_str(), '.');
                let head_len = chars_of(head.as_str()).len();
                let after_len = chars_of(after.as_str()).len();
                if head_len < after_len {
                    let entity = trim(head.as_str());
                    Some(to_lowercase(entity.as_str()))
                } else {
                    None
                }
            },
            None => None,
        }
    }
}

impl Default for CompletionProvider {
    /// The provider with the built-in tables.
    fn default() -> (r: CompletionProvider)
        ensures
            r.templates() == template_table(),
            r.types() == type_table(),
            r.crdts() == crdt_table(),
            r.wf(),
    {
        CompletionProvider::new()
    }
}

/// The text of `source` before byte offset `position`.
fn text_before(source: &str, position: usize) -> (r: String)
    requires
        is_char_boundary(source@, position),
    ensures
        r@ == source@.take(chars_before(source@, position, 0) as int),
{
    let v = chars_of(source);
    let mut c: usize = 0;
    let mut acc: u128 = 0;
    assert(source@.take(0) =~= Seq::<char>::empty());
    while c < v.len() && acc < position as u128
        invariant
            v@ == source@,
            c <= v@.len(),
            acc == byte_len(source@.take(c as int)),
            acc <= 4 * c,
            chars_before(source@, position, c as nat) == chars_before(source@, position, 0),
        decreases v.len() - c,
    {
        assert(source@.take(c + 1).drop_last() =~= source@.take(c as int));
        let w = utf8_width(v[c]);
        acc = acc + w as u128;
        c = c + 1;
    }
    string_from_range(&v, 0, c)
}

/// The last line of `s`, as `str::lines` gives it.
fn last_line_of(s: &str) -> (r: String)
    ensures
        r@ == last_line(s@),
{
    let v = chars_of(s);
    let n = v.len();
    if n == 0 {
        return String::new();
    }
    let end = if v[n - 1] == '\n' {
        n - 1
    } else {
        n
    };
    let ghost t = s@.take(end as int);
    assert(t.take(end as int) =~= t);
    let mut start = end;
    while start > 0 && v[start - 1] != '\n'
        invariant
            v@ == s@,
            start <= end <= n,
            n == v@.len(),
            t == s@.take(end as int),
            after_last_newline(t) == after_last_newline(t.take(start as int)),
        decreases start,
    {
        assert(t.take(start as int).drop_last() =~= t.take(start - 1));
        start = start - 1;
    }
    assert(after_last_newline(t.take(start as int)) == start);
    let mut stop = end;
    if end < n && stop > start && v[stop - 1] == '\r' {
        stop = stop - 1;
    }
    proof {
        if end < n {
            assert(s@.drop_last() =~= t);
        } else {
            assert(s@ =~= t);
        }
    }
    string_from_range(&v, start, stop)
}

} // verus!

//! Schema generation from field specifications.
//!
//! Each field is described by a name and a sentence. The generator guesses
//! the field's type from keywords of its name (then of its description),
//! guesses how it is used, asks the recommender for its CRDT strategy and
//! writes its validation constraints; the schema adds an `id` field and
//! audit timestamps on request and is written out as a `gen` declaration
//! with an optional `exegesis`.

use vstd::prelude::*;

use crate::mcp::nl_to_dol::recommended;
use crate::mcp::recommendations::{ConsistencyLevel, CrdtRecommender, UsagePattern};
use crate::mcp::tools::strategy_name;
use crate::text::{contains, join_strings, join_with, lowercase, owned, seq_contains, str_eq, strings_view, to_lowercase};

verus! {

/// Field specification for schema generation.
#[derive(Debug, Clone)]
pub struct FieldSpec {
    /// Field name
    pub name: String,
    /// Semantic description of the field
    pub description: String,
    /// Whether the field is required
    pub required: bool,
    /// Whether the field must be unique
    pub unique: bool,
}

/// Generated field definition.
#[derive(Debug, Clone)]
pub struct FieldDefinition {
    /// Field name
    pub name: String,
    /// Inferred type
    pub field_type: String,
    /// CRDT strategy
    pub crdt_strategy: String,
    /// Validation constraints
    pub constraints: Vec<String>,
    /// Documentation
    pub documentation: String,
}

/// Schema generation options.
#[derive(Debug, Clone)]
pub struct GenerationOptions {
    /// Include audit fields (created_at, updated_at)
    pub include_audit_fields: bool,
    /// Include id field
    pub include_id_field: bool,
    /// Default consistency level
    pub default_consistency: ConsistencyLevel,
    /// Generate exegesis documentation
    pub generate_exegesis: bool,
}

impl Default for GenerationOptions {
    /// Audit and id fields, eventual consistency, and an exegesis.
    fn default() -> (r: GenerationOptions)
        ensures
            r.include_audit_fields,
            r.include_id_field,
            r.default_consistency == ConsistencyLevel::Eventual,
            r.generate_exegesis,
    {
        GenerationOptions {
            include_audit_fields: true,
            include_id_field: true,
            default_consistency: ConsistencyLevel::Eventual,
            generate_exegesis: true,
        }
    }
}

/// A field definition as plain text: name, type, strategy, constraints and
/// documentation.
pub type DefinitionView = (Seq<char>, Seq<char>, Seq<char>, Seq<Seq<char>>, Seq<char>);

/// The plain view of a field definition.
pub open spec fn definition_view(d: FieldDefinition) -> DefinitionView {
    (d.name@, d.field_type@, d.crdt_strategy@, strings_view(d.constraints@), d.documentation@)
}

/// The plain views of field definitions.
pub open spec fn definitions_view(ds: Seq<FieldDefinition>) -> Seq<DefinitionView> {
    ds.map_values(|d: FieldDefinition| definition_view(d))
}

// ---------------------------------------------------------------------------
// Types and usage
// ---------------------------------------------------------------------------

/// Keywords and the types they suggest, in the order in which they are
/// looked for.
pub open spec fn type_table() -> Seq<(Seq<char>, Seq<char>)> {
    seq![
        ("text"@, "String"@),
        ("string"@, "String"@),
        ("title"@, "String"@),
        ("name"@, "String"@),
        ("description"@, "String"@),
        ("content"@, "String"@),
        ("number"@, "i32"@),
        ("integer"@, "i32"@),
        ("count"@, "i32"@),
        ("counter"@, "i32"@),
        ("float"@, "f64"@),
        ("decimal"@, "f64"@),
        ("boolean"@, "bool"@),
        ("flag"@, "bool"@),
        ("timestamp"@, "i64"@),
        ("time"@, "i64"@),
        ("date"@, "i64"@),
        ("list"@, "Vec<String>"@),
        ("array"@, "Vec<String>"@),
        ("set"@, "Set<String>"@),
        ("collection"@, "Set<String>"@),
        ("tags"@, "Set<String>"@),
        ("labels"@, "Set<String>"@),
        ("id"@, "String"@),
        ("identifier"@, "String"@),
        ("uuid"@, "String"@),
    ]
}

/// The type of the first keyword of `t`, from index `i` on, that occurs in
/// `text`.
pub open spec fn first_mapping(t: Seq<(Seq<char>, Seq<char>)>, text: Seq<char>, i: nat) -> Option<
    Seq<char>,
>
    decreases t.len() - i,
{
    if i >= t.len() {
        None
    } else if seq_contains(text, t[i as int].0) {
        Some(t[i as int].1)
    } else {
        first_mapping(t, text, i + 1)
    }
}

/// The type inferred for a field `name` described by `description`: by a
/// keyword of the name, else of the description, else `String`.
pub open spec fn spec_infer_type(name: Seq<char>, description: Seq<char>) -> Seq<char> {
    type_from_lower(lowercase(name), lowercase(description))
}

/// The type inferred from a field's name and description in lower case.
pub open spec fn type_from_lower(lower_name: Seq<char>, lower_desc: Seq<char>) -> Seq<char> {
    match first_mapping(type_table(), lower_name, 0) {
        Some(t) => t,
        None => match first_mapping(type_table(), lower_desc, 0) {
            Some(t) => t,
            None => "String"@,
        },
    }
}

/// The usage that a description (in lower case, `l`) reveals.
pub open spec fn usage_of(l: Seq<char>) -> UsagePattern {
    if seq_contains(l, "collaborative"@) || seq_contains(l, "edit together"@) || seq_contains(
        l,
        "real-time"@,
    ) {
        UsagePattern::CollaborativeText
    } else if seq_contains(l, "counter"@) || seq_contains(l, "increment"@) || seq_contains(
        l,
        "decrement"@,
    ) {
        UsagePattern::Counter
    } else if seq_contains(l, "set"@) || seq_contains(l, "collection"@) || seq_contains(
        l,
        "unique items"@,
    ) {
        UsagePattern::MultiUserSet
    } else if seq_contains(l, "list"@) || seq_contains(l, "ordered"@) || seq_contains(
        l,
        "sequence"@,
    ) {
        UsagePattern::OrderedList
    } else if seq_contains(l, "immutable"@) || seq_contains(l, "write once"@) || seq_contains(
        l,
        "read-only"@,
    ) {
        UsagePattern::WriteOnce
    } else {
        UsagePattern::LastWriteWins
    }
}

/// The usage that a description reveals.
pub open spec fn spec_infer_usage(description: Seq<char>) -> UsagePattern {
    usage_of(lowercase(description))
}

/// The constraints of a field: `required`, `unique` and, for strings,
/// `non_empty`.
pub open spec fn spec_constraints(required: bool, unique: bool, ty: Seq<char>) -> Seq<Seq<char>> {
    let a: Seq<Seq<char>> = if required {
        seq!["required"@]
    } else {
        Seq::empty()
    };
    let b: Seq<Seq<char>> = if unique {
        seq!["unique"@]
    } else {
        Seq::empty()
    };
    let c: Seq<Seq<char>> = if ty == "String"@ {
        seq!["non_empty"@]
    } else {
        Seq::empty()
    };
    a + b + c
}

/// The definition generated for a field specification.
pub open spec fn spec_definition(
    name: Seq<char>,
    description: Seq<char>,
    required: bool,
    unique: bool,
) -> DefinitionView {
    let ty = spec_infer_type(name, description);
    let usage = spec_infer_usage(description);
    let consistency = if unique {
        ConsistencyLevel::Strong
    } else {
        ConsistencyLevel::Eventual
    };
    (
        name,
        ty,
        strategy_name(recommended(ty, usage, consistency).strategy),
        spec_constraints(required, unique, ty),
        description,
    )
}

/// The definitions generated for a list of specifications.
pub open spec fn spec_definitions(specs: Seq<FieldSpec>) -> Seq<DefinitionView>
    decreases specs.len(),
{
    if specs.len() == 0 {
        Seq::empty()
    } else {
        let s = specs.last();
        spec_definitions(specs.drop_last()).push(
            spec_definition(s.name@, s.description@, s.required, s.unique),
        )
    }
}

// ---------------------------------------------------------------------------
// The schema
// ---------------------------------------------------------------------------

/// The `id` field.
pub open spec fn id_definition() -> DefinitionView {
    (
        "id"@,
        "String"@,
        "immutable"@,
        seq!["required"@, "unique"@],
        "Unique identifier for the entity"@,
    )
}

/// The creation timestamp.
pub open spec fn created_definition() -> DefinitionView {
    ("created_at"@, "i64"@, "immutable"@, seq!["required"@], "Timestamp when the entity was created"@)
}

/// The update timestamp.
pub open spec fn updated_definition() -> DefinitionView {
    ("updated_at"@, "i64"@, "lww"@, seq!["required"@], "Timestamp when the entity was last updated"@)
}

/// All the field definitions of a schema: `id`, the specified fields and
/// the audit fields, as the options ask.
pub open spec fn schema_definitions(specs: Seq<FieldSpec>, options: GenerationOptions) -> Seq<
    DefinitionView,
> {
    let a: Seq<DefinitionView> = if options.include_id_field {
        seq![id_definition()]
    } else {
        Seq::empty()
    };
    let c: Seq<DefinitionView> = if options.include_audit_fields {
        seq![created_definition(), updated_definition()]
    } else {
        Seq::empty()
    };
    a + spec_definitions(specs) + c
}

/// The comment that lists a field's constraints, if it has any.
pub open spec fn constraints_comment(cs: Seq<Seq<char>>) -> Seq<char> {
    if cs.len() == 0 {
        Seq::empty()
    } else {
        " // "@ + join_with(cs, ", "@)
    }
}

/// The `has` line of a field, for the entity `le` (in lower case).
pub open spec fn definition_line(le: Seq<char>, d: DefinitionView) -> Seq<char> {
    "  "@ + le + " has "@ + d.0 + ": "@ + d.1 + " @crdt("@ + d.2 + ")"@ + constraints_comment(d.3)
        + "\n"@
}

/// One `has` line per field, for the entity `le` (in lower case).
pub open spec fn definition_lines(le: Seq<char>, ds: Seq<DefinitionView>) -> Seq<char>
    decreases ds.len(),
{
    if ds.len() == 0 {
        Seq::empty()
    } else {
        definition_lines(le, ds.drop_last()) + definition_line(le, ds.last())
    }
}

/// The documentation lines of the fields: name, type and strategy, then
/// the documentation when there is some.
pub open spec fn definition_docs(ds: Seq<DefinitionView>) -> Seq<char>
    decreases ds.len(),
{
    if ds.len() == 0 {
        Seq::empty()
    } else {
        definition_docs(ds.drop_last()) + definition_doc(ds.last())
    }
}

/// The documentation lines of a field.
pub open spec fn definition_doc(d: DefinitionView) -> Seq<char> {
    let doc = if d.4.len() > 0 {
        "    "@ + d.4 + "\n"@
    } else {
        Seq::empty()
    };
    "  - "@ + d.0 + ": "@ + d.1 + " ("@ + d.2 + ")\n"@ + doc
}

/// The DOL source written for `entity` with definitions `ds`.
pub open spec fn schema_source(entity: Seq<char>, ds: Seq<DefinitionView>, exegesis: bool) -> Seq<
    char,
> {
    schema_source_lower(lowercase(entity), entity, ds, exegesis)
}

/// The DOL source of a schema, for the entity `entity` whose name in
/// lower case is `le`.
pub open spec fn schema_source_lower(
    le: Seq<char>,
    entity: Seq<char>,
    ds: Seq<DefinitionView>,
    exegesis: bool,
) -> Seq<char> {
    let head = "gen "@ + le + ".schema {\n"@ + definition_lines(le, ds) + "}\n\n"@;
    if exegesis {
        head + "exegesis {\n"@ + "  CRDT-backed schema for "@ + entity + ".\n\n"@ + "  Fields:\n"@
            + definition_docs(ds) + "}\n"@
    } else {
        head
    }
}

// ---------------------------------------------------------------------------
// The generator
// ---------------------------------------------------------------------------

/// The plain view of the type table.
pub open spec fn mappings_view(m: Seq<(String, String)>) -> Seq<(Seq<char>, Seq<char>)> {
    m.map_values(|e: (String, String)| (e.0@, e.1@))
}

/// Schema generator for DOL.
pub struct SchemaGenerator {
    recommender: CrdtRecommender,
    type_mappings: Vec<(String, String)>,
}

/// Builds one entry of the type table.
fn mapping(keyword: &str, ty: &str) -> (r: (String, String))
    ensures
        r.0@ == keyword@,
        r.1@ == ty@,
{
    (owned(keyword), owned(ty))
}

/// Appends a string to a list of strings.
fn push_str(v: &mut Vec<String>, s: &str)
    ensures
        strings_view(final(v)@) == strings_view(old(v)@).push(s@),
{
    let ghost before = strings_view(v@);
    v.push(owned(s));
    assert(strings_view(v@) =~= before.push(s@));
}

/// The `has` line of a field definition.
fn definition_line_text(le: &str, f: &FieldDefinition) -> (r: String)
    ensures
        r@ == definition_line(le@, definition_view(*f)),
{
    let mut line = owned("  ");
    line.append(le);
    line.append(" has ");
    line.append(f.name.as_str());
    line.append(": ");
    line.append(f.field_type.as_str());
    line.append(" @crdt(");
    line.append(f.crdt_strategy.as_str());
    line.append(")");
    if f.constraints.len() > 0 {
        line.append(" // ");
        let joined = join_strings(&f.constraints, ", ");
        line.append(joined.as_str());
    }
    line.append("\n");
    line
}

/// The documentation lines of a field definition.
fn definition_doc_text(f: &FieldDefinition) -> (r: String)
    ensures
        r@ == definition_doc(definition_view(*f)),
{
    let mut text = owned("  - ");
    text.append(f.name.as_str());
    text.append(": ");
    text.append(f.field_type.as_str());
    text.append(" (");
    text.append(f.crdt_strategy.as_str());
    text.append(")\n");
    proof {
        reveal_strlit("");
        assert(f.documentation@.len() == 0 ==> f.documentation@ =~= ""@);
    }
    if !str_eq(f.documentation.as_str(), "") {
        text.append("    ");
        text.append(f.documentation.as_str());
        text.append("\n");
    }
    text
}

impl SchemaGenerator {
    /// The generator holds the type table.
    pub closed spec fn wf(&self) -> bool {
        mappings_view(self.type_mappings@) == type_table()
    }

    /// Creates a new schema generator.
    pub fn new() -> (r: SchemaGenerator)
        ensures
            r.wf(),
    {
        let type_mappings = vec![
            mapping("text", "String"),
            mapping("string", "String"),
            mapping("title", "String"),
            mapping("name", "String"),
            mapping("description", "String"),
            mapping("content", "String"),
            mapping("number", "i32"),
            mapping("integer", "i32"),
            mapping("count", "i32"),
            mapping("counter", "i32"),
            mapping("float", "f64"),
            mapping("decimal", "f64"),
            mapping("boolean", "bool"),
            mapping("flag", "bool"),
            mapping("timestamp", "i64"),
            mapping("time", "i64"),
            mapping("date", "i64"),
            mapping("list", "Vec<String>"),
            mapping("array", "Vec<String>"),
            mapping("set", "Set<String>"),
            mapping("collection", "Set<String>"),
            mapping("tags", "Set<String>"),
            mapping("labels", "Set<String>"),
            mapping("id", "String"),
            mapping("identifier", "String"),
            mapping("uuid", "String"),
        ];
        let r = SchemaGenerator { recommender: CrdtRecommender::new(), type_mappings };
        assert(mappings_view(r.type_mappings@) =~= type_table());
        r
    }

    /// The type of the first keyword of the table that occurs in `text`.
    fn find_mapping(&self, text: &str) -> (r: Option<String>)
        requires
            self.wf(),
        ensures
            match r {
                Some(t) => first_mapping(type_table(), text@, 0) == Some(t@),
                None => first_mapping(type_table(), text@, 0) is None,
            },
    {
        let mut i: usize = 0;
        while i < self.type_mappings.len()
            invariant
                self.wf(),
                i <= self.type_mappings@.len(),
                first_mapping(type_table(), text@, i as nat) == first_mapping(
                    type_table(),
                    text@,
                    0,
                ),
            decreases self.type_mappings.len() - i,
        {
            let e = &self.type_mappings[i];
            assert(type_table()[i as int] == (e.0@, e.1@));
            if contains(text, e.0.as_str()) {
                return Some(e.1.clone());
            }
            i = i + 1;
        }
        None
    }

    /// Infers a field's type from keywords of its name, else of its
    /// description; `String` when neither has one.
    pub fn infer_type(&self, name: &str, description: &str) -> (r: String)
        requires
            self.wf(),
        ensures
            r@ == spec_infer_type(name@, description@),
    {
        let lower_name = to_lowercase(name);
        let lower_desc = to_lowercase(description);
        self.infer_type_lower(lower_name.as_str(), lower_desc.as_str())
    }

    /// Infers a field's type from its name and description already in
    /// lower case: by a keyword of the name, else of the description;
    /// `String` when neither has one.
    pub fn infer_type_lower(&self, lower_name: &str, lower_desc: &str) -> (r: String)
        requires
            self.wf(),
        ensures
            r@ == type_from_lower(lower_name@, lower_desc@),
    {
        match self.find_mapping(lower_name) {
            Some(t) => t,
            None => match self.find_mapping(lower_desc) {
                Some(t) => t,
                None => owned("String"),
            },
        }
    }

    /// Infers how a field is used from its description.
    pub fn infer_usage_pattern(&self, description: &str) -> (r: UsagePattern)
        ensures
            r == spec_infer_usage(description@),
    {
        let lower = to_lowercase(description);
        self.usage_from_lower(lower.as_str())
    }

    /// Infers how a field is used from its description already in lower
    /// case.
    pub fn usage_from_lower(&self, l: &str) -> (r: UsagePattern)
        ensures
            r == usage_of(l@),
    {
        if contains(l, "collaborative") || contains(l, "edit together") || contains(l, "real-time") {
            UsagePattern::CollaborativeText
        } else if contains(l, "counter") || contains(l, "increment") || contains(l, "decrement") {
            UsagePattern::Counter
        } else if contains(l, "set") || contains(l, "collection") || contains(l, "unique items") {
            UsagePattern::MultiUserSet
        } else if contains(l, "list") || contains(l, "ordered") || contains(l, "sequence") {
            UsagePattern::OrderedList
        } else if contains(l, "immutable") || contains(l, "write once") || contains(l, "read-only") {
            UsagePattern::WriteOnce
        } else {
            UsagePattern::LastWriteWins
        }
    }

    /// Generates a field definition from a specification: its inferred
    /// type, the recommended strategy, and its constraints.
    pub fn generate_field_definition(&self, spec: &FieldSpec) -> (r: FieldDefinition)
        requires
            self.wf(),
        ensures
            definition_view(r) == spec_definition(
                spec.name@,
                spec.description@,
                spec.required,
                spec.unique,
            ),
    {
        let field_type = self.infer_type(spec.name.as_str(), spec.description.as_str());
        let usage_pattern = self.infer_usage_pattern(spec.description.as_str());
        let consistency = if spec.unique {
            ConsistencyLevel::Strong
        } else {
            ConsistencyLevel::Eventual
        };
        let recommendation = self.recommender.recommend(
            spec.name.as_str(),
            field_type.as_str(),
            usage_pattern,
            consistency,
        );
        let mut constraints: Vec<String> = Vec::new();
        if spec.required {
            push_str(&mut constraints, "required");
        }
        if spec.unique {
            push_str(&mut constraints, "unique");
        }
        if str_eq(field_type.as_str(), "String") {
            push_str(&mut constraints, "non_empty");
        }
        assert(strings_view(constraints@) =~= spec_constraints(
            spec.required,
            spec.unique,
            field_type@,
        ));
        FieldDefinition {
            name: spec.name.clone(),
            field_type,
            crdt_strategy: recommendation.recommended_strategy,
            constraints,
            documentation: spec.description.clone(),
        }
    }
    /// Writes the DOL source of a schema: a `gen` declaration with one
    /// `has` line per field (its constraints in a comment) and, when the
    /// options ask, an `exegesis` listing the fields.
    fn build_dol_source(
        &self,
        entity_name: &str,
        fields: &Vec<FieldDefinition>,
        options: &GenerationOptions,
    ) -> (r: Result<String, String>)
        ensures
            r matches Ok(s) && s@ == schema_source(
                entity_name@,
                definitions_view(fields@),
                options.generate_exegesis,
            ),
    {
        let lower = to_lowercase(entity_name);
        Ok(self.build_dol_source_lower(lower.as_str(), entity_name, fields, options))
    }

    /// Writes the DOL source of a schema for `entity_name`, whose name in
    /// lower case is `le`.
    pub fn build_dol_source_lower(
        &self,
        le: &str,
        entity_name: &str,
        fields: &Vec<FieldDefinition>,
        options: &GenerationOptions,
    ) -> (r: String)
        ensures
            r@ == schema_source_lower(
                le@,
                entity_name@,
                definitions_view(fields@),
                options.generate_exegesis,
            ),
    {
        let mut source = owned("gen ");
        source.append(le);
        source.append(".schema {\n");
        let ghost head = source@;
        let mut i: usize = 0;
        while i < fields.len()
            invariant
                i <= fields@.len(),
                source@ == head + definition_lines(le@, definitions_view(fields@.take(i as int))),
            decreases fields.len() - i,
        {
            let f = &fields[i];
            assert(definitions_view(fields@.take(i + 1)).drop_last() =~= definitions_view(
                fields@.take(i as int),
            ));
            assert(definitions_view(fields@.take(i + 1)).last() == definition_view(*f));
            let line = definition_line_text(le, f);
            source.append(line.as_str());
            i = i + 1;
        }
        assert(fields@.take(fields.len() as int) =~= fields@);
        source.append("}\n\n");
        if options.generate_exegesis {
            source.append("exegesis {\n");
            source.append("  CRDT-backed schema for ");
            source.append(entity_name);
            source.append(".\n\n");
            source.append("  Fields:\n");
            let ghost head2 = source@;
            let mut k: usize = 0;
            while k < fields.len()
                invariant
                    k <= fields@.len(),
                    source@ == head2 + definition_docs(definitions_view(fields@.take(k as int))),
                decreases fields.len() - k,
            {
                let f = &fields[k];
                assert(definitions_view(fields@.take(k + 1)).drop_last() =~= definitions_view(
                    fields@.take(k as int),
                ));
                assert(definitions_view(fields@.take(k + 1)).last() == definition_view(*f));
                let doc = definition_doc_text(f);
                source.append(doc.as_str());
                k = k + 1;
            }
            source.append("}\n");
        }
        proof {
            let ds = definitions_view(fields@);
            assert(source@ =~= schema_source_lower(le@, entity_name@, ds, options.generate_exegesis));
        }
        source
    }

    /// Generates a complete schema: the `id` field, the specified fields
    /// and the audit fields (as the options ask), written as DOL source.
    pub fn generate_schema(
        &self,
        entity_name: &str,
        fields: Vec<FieldSpec>,
        options: GenerationOptions,
    ) -> (r: Result<String, String>)
        requires
            self.wf(),
        ensures
            r matches Ok(s) && s@ == schema_source(
                entity_name@,
                schema_definitions(fields@, options),
                options.generate_exegesis,
            ),
    {
        let mut field_defs: Vec<FieldDefinition> = Vec::new();
        if options.include_id_field {
            let mut constraints: Vec<String> = Vec::new();
            push_str(&mut constraints, "required");
            push_str(&mut constraints, "unique");
            assert(strings_view(constraints@) =~= seq!["required"@, "unique"@]);
            field_defs.push(
                FieldDefinition {
                    name: owned("id"),
                    field_type: owned("String"),
                    crdt_strategy: owned("immutable"),
                    constraints,
                    documentation: owned("Unique identifier for the entity"),
                },
            );
        }
        let ghost pre = definitions_view(field_defs@);
        let mut i: usize = 0;
        while i < fields.len()
            invariant
                self.wf(),
                i <= fields@.len(),
                definitions_view(field_defs@) == pre + spec_definitions(fields@.take(i as int)),
            decreases fields.len() - i,
        {
            assert(fields@.take(i + 1).drop_last() =~= fields@.take(i as int));
            let d = self.generate_field_definition(&fields[i]);
            let ghost before = definitions_view(field_defs@);
            field_defs.push(d);
            assert(definitions_view(field_defs@) =~= before.push(definition_view(d)));
            i = i + 1;
        }
        assert(fields@.take(fields.len() as int) =~= fields@);
        let ghost mid = definitions_view(field_defs@);
        if options.include_audit_fields {
            let mut c1: Vec<String> = Vec::new();
            push_str(&mut c1, "required");
            assert(strings_view(c1@) =~= seq!["required"@]);
            field_defs.push(
                FieldDefinition {
                    name: owned("created_at"),
                    field_type: owned("i64"),
                    crdt_strategy: owned("immutable"),
                    constraints: c1,
                    documentation: owned("Timestamp when the entity was created"),
                },
            );
            let mut c2: Vec<String> = Vec::new();
            push_str(&mut c2, "required");
            assert(strings_view(c2@) =~= seq!["required"@]);
            field_defs.push(
                FieldDefinition {
                    name: owned("updated_at"),
                    field_type: owned("i64"),
                    crdt_strategy: owned("lww"),
                    constraints: c2,
                    documentation: owned("Timestamp when the entity was last updated"),
                },
            );
        }
        proof {
            let a: Seq<DefinitionView> = if options.include_id_field {
                seq![id_definition()]
            } else {
                Seq::empty()
            };
            assert(pre =~= a);
            let c: Seq<DefinitionView> = if options.include_audit_fields {
                seq![created_definition(), updated_definition()]
            } else {
                Seq::empty()
            };
            assert(definitions_view(field_defs@) =~= pre + spec_definitions(fields@) + c);
        }
        self.build_dol_source(entity_name, &field_defs, &options)
    }
}

impl Default for SchemaGenerator {
    /// The generator over the standard type table.
    fn default() -> (r: SchemaGenerator)
        ensures
            r.wf(),
    {
        SchemaGenerator::new()
    }
}


// ---------------------------------------------------------------------------
// Laws of type inference
// ---------------------------------------------------------------------------

/// Keywords of `t` from `i` to `j` that do not occur in `text` are passed
/// over.
proof fn lemma_first_mapping_skips(t: Seq<(Seq<char>, Seq<char>)>, text: Seq<char>, i: nat, j: nat)
    requires
        i <= j <= t.len(),
        forall|k: int| i <= k < j ==> !seq_contains(text, #[trigger] t[k].0),
    ensures
        first_mapping(t, text, i) == first_mapping(t, text, j),
    decreases j - i,
{
    if i < j {
        lemma_first_mapping_skips(t, text, i + 1, j);
    }
}

/// A field whose lower-case name holds no keyword of the type table, and
/// whose lower-case description mentions a list or an array and no other
/// keyword of the table, is typed `Vec<String>`.
pub proof fn lemma_lists_are_vectors(lower_name: Seq<char>, lower_desc: Seq<char>)
    requires
        forall|k: int| 0 <= k < type_table().len() ==> !seq_contains(lower_name, #[trigger] type_table()[k].0),
        seq_contains(lower_desc, "list"@) || seq_contains(lower_desc, "array"@),
        forall|k: int|
            0 <= k < type_table().len() && type_table()[k].0 != "list"@ && type_table()[k].0
                != "array"@ ==> !seq_contains(lower_desc, #[trigger] type_table()[k].0),
    ensures
        type_from_lower(lower_name, lower_desc) == "Vec<String>"@,
{
    let t = type_table();
    reveal_strlit("text");
    reveal_strlit("string");
    reveal_strlit("title");
    reveal_strlit("name");
    reveal_strlit("description");
    reveal_strlit("content");
    reveal_strlit("number");
    reveal_strlit("integer");
    reveal_strlit("count");
    reveal_strlit("counter");
    reveal_strlit("float");
    reveal_strlit("decimal");
    reveal_strlit("boolean");
    reveal_strlit("flag");
    reveal_strlit("timestamp");
    reveal_strlit("time");
    reveal_strlit("date");
    reveal_strlit("list");
    reveal_strlit("array");
    assert("text"@[0] != 'l' && "text"@[0] != 'a');
    assert("string"@[0] != 'l' && "string"@[0] != 'a');
    assert("title"@[0] != 'l' && "title"@[0] != 'a');
    assert("name"@[0] != 'l' && "name"@[0] != 'a');
    assert("description"@[0] != 'l' && "description"@[0] != 'a');
    assert("content"@[0] != 'l' && "content"@[0] != 'a');
    assert("number"@[0] != 'l' && "number"@[0] != 'a');
    assert("integer"@[0] != 'l' && "integer"@[0] != 'a');
    assert("count"@[0] != 'l' && "count"@[0] != 'a');
    assert("counter"@[0] != 'l' && "counter"@[0] != 'a');
    assert("float"@[0] != 'l' && "float"@[0] != 'a');
    assert("decimal"@[0] != 'l' && "decimal"@[0] != 'a');
    assert("boolean"@[0] != 'l' && "boolean"@[0] != 'a');
    assert("flag"@[0] != 'l' && "flag"@[0] != 'a');
    assert("timestamp"@[0] != 'l' && "timestamp"@[0] != 'a');
    assert("time"@[0] != 'l' && "time"@[0] != 'a');
    assert("date"@[0] != 'l' && "date"@[0] != 'a');
    assert forall|k: int| 0 <= k < 17 implies !seq_contains(lower_desc, #[trigger] t[k].0) by {
        assert(t[k].0[0] != 'l' && t[k].0[0] != 'a');
        assert(t[k].0 != "list"@ && t[k].0 != "array"@);
    }
    lemma_first_mapping_skips(t, lower_name, 0, t.len());
    lemma_first_mapping_skips(t, lower_desc, 0, 17);
    assert(t[17].0 == "list"@ && t[18].0 == "array"@);
    assert(t[17].1 == "Vec<String>"@ && t[18].1 == "Vec<String>"@);
    assert(first_mapping(t, lower_name, t.len()) is None);
    assert(first_mapping(t, lower_name, 0) is None);
    if seq_contains(lower_desc, "list"@) {
        assert(first_mapping(t, lower_desc, 17) == Some(t[17].1));
    } else {
        assert(first_mapping(t, lower_desc, 17) == first_mapping(t, lower_desc, 18));
        assert(first_mapping(t, lower_desc, 18) == Some(t[18].1));
    }
}

} // verus!

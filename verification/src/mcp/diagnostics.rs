//! CRDT schema diagnostics: anti-patterns, performance concerns and
//! missing best practices in the CRDT annotations of a gene's fields.
//!
//! Only `gen` declarations carry typed, annotated fields; every other
//! declaration gives no issue.

use vstd::prelude::*;

use crate::ast::{CrdtStrategy, Declaration, TypedField};
use crate::text::{contains, owned, seq_contains, spec_decimal, str_eq, usize_to_string};

verus! {

/// Severity of a diagnostic issue.
#[derive(Debug, Clone, Copy, PartialEq, Eq, Structural)]
pub enum DiagnosticSeverity {
    /// Informational message
    Info,
    /// Warning (should be addressed)
    Warning,
    /// Error (must be fixed)
    Error,
}

/// Category of diagnostic issue.
#[derive(Debug, Clone, Copy, PartialEq, Eq, Structural)]
pub enum DiagnosticCategory {
    /// Anti-pattern detected
    AntiPattern,
    /// Performance concern
    Performance,
    /// Correctness issue
    Correctness,
    /// Consistency concern
    Consistency,
    /// Best practice suggestion
    BestPractice,
}

/// A diagnostic issue found in a schema.
#[derive(Debug)]
pub struct DiagnosticIssue {
    /// Severity of the issue
    pub severity: DiagnosticSeverity,
    /// Category of the issue
    pub category: DiagnosticCategory,
    /// Descriptive message
    pub message: String,
    /// Suggested fix
    pub suggestion: String,
    /// Affected field (if applicable)
    pub field: Option<String>,
}

/// An issue, as text and plain values.
#[verifier::ext_equal]
pub struct IssueModel {
    pub severity: DiagnosticSeverity,
    pub category: DiagnosticCategory,
    pub message: Seq<char>,
    pub suggestion: Seq<char>,
    pub field: Option<Seq<char>>,
}

/// The model of an issue.
pub open spec fn issue_view(i: DiagnosticIssue) -> IssueModel {
    IssueModel {
        severity: i.severity,
        category: i.category,
        message: i.message@,
        suggestion: i.suggestion@,
        field: match i.field {
            Some(f) => Some(f@),
            None => None,
        },
    }
}

/// The models of a list of issues.
pub open spec fn issues_view(v: Seq<DiagnosticIssue>) -> Seq<IssueModel> {
    v.map_values(|i: DiagnosticIssue| issue_view(i))
}

/// A field as the checks read it: its name, its type as written, its
/// constraint, and its strategy with the names of its options.
#[verifier::ext_equal]
pub struct FieldModel {
    pub name: Seq<char>,
    pub ty: Seq<char>,
    pub constraint: Option<Seq<char>>,
    pub crdt: Option<(CrdtStrategy, Seq<Seq<char>>)>,
}

/// The model of a field.
pub open spec fn field_model(f: TypedField) -> FieldModel {
    FieldModel {
        name: f.name@,
        ty: f.ty@,
        constraint: match f.constraint {
            Some(c) => Some(c@),
            None => None,
        },
        crdt: match f.crdt_annotation {
            Some(a) => Some((a.strategy, a.options@.map_values(|o: crate::ast::CrdtOption| o.key@))),
            None => None,
        },
    }
}

/// The models of a list of fields.
pub open spec fn fields_model(fs: Seq<TypedField>) -> Seq<FieldModel> {
    fs.map_values(|f: TypedField| field_model(f))
}

/// An issue about the field `field`.
pub open spec fn about(
    severity: DiagnosticSeverity,
    category: DiagnosticCategory,
    message: Seq<char>,
    suggestion: Seq<char>,
    field: Option<Seq<char>>,
) -> IssueModel {
    IssueModel { severity, category, message, suggestion, field }
}

/// `f` has the strategy `s`.
pub open spec fn has_strategy(f: FieldModel, s: CrdtStrategy) -> bool {
    f.crdt matches Some(c) && c.0 == s
}

/// `f` has an option named `key`.
pub open spec fn has_option(f: FieldModel, key: Seq<char>) -> bool {
    f.crdt matches Some(c) && c.1.contains(key)
}

/// The number of fields of `fs` with strategy `s`.
pub open spec fn count_strategy(fs: Seq<FieldModel>, s: CrdtStrategy) -> nat {
    fs.filter(|f: FieldModel| has_strategy(f, s)).len()
}

/// The number of fields of `fs` with a CRDT annotation.
pub open spec fn count_annotated(fs: Seq<FieldModel>) -> nat {
    fs.filter(|f: FieldModel| f.crdt is Some).len()
}

/// `'name'` quoted with single quotes.
pub open spec fn sq(name: Seq<char>) -> Seq<char> {
    "'"@ + name + "'"@
}

/// Last-writer-wins on a collection type replaces the whole collection.
pub open spec fn lww_issue(f: FieldModel) -> Seq<IssueModel> {
    if has_strategy(f, CrdtStrategy::Lww) && (seq_contains(f.ty, "Set"@) || seq_contains(
        f.ty,
        "Vec"@,
    ) || seq_contains(f.ty, "List"@)) {
        seq![
            about(
                DiagnosticSeverity::Warning,
                DiagnosticCategory::AntiPattern,
                "Field "@ + sq(f.name) + " uses LWW on collection type "@ + f.ty
                    + ". Entire collection will be replaced on conflict."@,
                "Use @crdt(or_set) for Set or @crdt(rga) for Vec/List instead"@,
                Some(f.name),
            ),
        ]
    } else {
        Seq::empty()
    }
}

/// Peritext text without `max_length` is unbounded.
pub open spec fn peritext_issue(f: FieldModel) -> Seq<IssueModel> {
    if has_strategy(f, CrdtStrategy::Peritext) && !has_option(f, "max_length"@) {
        seq![
            about(
                DiagnosticSeverity::Warning,
                DiagnosticCategory::Performance,
                "Field "@ + sq(f.name)
                    + " uses Peritext without max_length. Unbounded text can lead to memory issues."@,
                "Add max_length option: @crdt(peritext, max_length=1000000)"@,
                Some(f.name),
            ),
        ]
    } else {
        Seq::empty()
    }
}

/// A counter without bounds (reported in strict mode).
pub open spec fn counter_issue(f: FieldModel, strict: bool) -> Seq<IssueModel> {
    if has_strategy(f, CrdtStrategy::PnCounter) && !has_option(f, "min_value"@) && !has_option(
        f,
        "max_value"@,
    ) && strict {
        seq![
            about(
                DiagnosticSeverity::Info,
                DiagnosticCategory::BestPractice,
                "Counter field "@ + sq(f.name)
                    + " has no bounds. Consider adding min_value/max_value for safety."@,
                "Add bounds: @crdt(pn_counter, min_value=0)"@,
                Some(f.name),
            ),
        ]
    } else {
        Seq::empty()
    }
}

/// An OR-Set without a size limit (reported in strict mode).
pub open spec fn set_issue(f: FieldModel, strict: bool) -> Seq<IssueModel> {
    if has_strategy(f, CrdtStrategy::OrSet) && strict {
        match f.constraint {
            Some(c) => if !seq_contains(c, "size"@) && !seq_contains(c, "count"@) {
                seq![
                    about(
                        DiagnosticSeverity::Info,
                        DiagnosticCategory::Performance,
                        "OR-Set field "@ + sq(f.name)
                            + " has no size limit. Unbounded sets can grow indefinitely."@,
                        "Add constraint: where size <= 1000"@,
                        Some(f.name),
                    ),
                ]
            } else {
                Seq::empty()
            },
            None => seq![
                about(
                    DiagnosticSeverity::Info,
                    DiagnosticCategory::Performance,
                    "OR-Set field "@ + sq(f.name) + " has no size constraint"@,
                    "Add constraint: where size <= 1000"@,
                    Some(f.name),
                ),
            ],
        }
    } else {
        Seq::empty()
    }
}

/// The issues that the constraint of an annotated field raises: a
/// uniqueness constraint needs coordination, and an immutable field cannot
/// have a constraint about change.
pub open spec fn constraint_issue(f: FieldModel) -> Seq<IssueModel> {
    match f.constraint {
        Some(c) => if f.crdt is Some {
            let unique = if seq_contains(c, "unique"@) {
                seq![
                    about(
                        DiagnosticSeverity::Warning,
                        DiagnosticCategory::Correctness,
                        "Field "@ + sq(f.name)
                            + " has uniqueness constraint, which requires coordination"@,
                        "Consider using escrow pattern or removing CRDT annotation"@,
                        Some(f.name),
                    ),
                ]
            } else {
                Seq::empty()
            };
            let mutable = if has_strategy(f, CrdtStrategy::Immutable) && (seq_contains(
                c,
                "update"@,
            ) || seq_contains(c, "modify"@)) {
                seq![
                    about(
                        DiagnosticSeverity::Error,
                        DiagnosticCategory::Correctness,
                        "Field "@ + sq(f.name) + " is immutable but has mutable constraint"@,
                        "Remove constraint or change CRDT strategy"@,
                        Some(f.name),
                    ),
                ]
            } else {
                Seq::empty()
            };
            unique + mutable
        } else {
            Seq::empty()
        },
        None => Seq::empty(),
    }
}

/// The checks made field by field, in order.
pub enum FieldCheck {
    Lww,
    Peritext,
    Counter,
    OrSet,
    Constraint,
}

/// The issues that check `c` finds in the field `f`.
pub open spec fn check_field(c: FieldCheck, f: FieldModel, strict: bool) -> Seq<IssueModel> {
    match c {
        FieldCheck::Lww => lww_issue(f),
        FieldCheck::Peritext => peritext_issue(f),
        FieldCheck::Counter => counter_issue(f, strict),
        FieldCheck::OrSet => set_issue(f, strict),
        FieldCheck::Constraint => constraint_issue(f),
    }
}

/// The issues that check `c` finds in the fields `fs`, field by field.
pub open spec fn each_field(c: FieldCheck, fs: Seq<FieldModel>, strict: bool) -> Seq<IssueModel>
    decreases fs.len(),
{
    if fs.len() == 0 {
        Seq::empty()
    } else {
        each_field(c, fs.drop_last(), strict) + check_field(c, fs.last(), strict)
    }
}

/// Whether an annotated field is an immutable identifier.
pub open spec fn is_immutable_id(f: FieldModel) -> bool {
    (f.name == "id"@ || f.name == "uuid"@ || f.name == "identity"@) && has_strategy(
        f,
        CrdtStrategy::Immutable,
    )
}

/// A gene without an immutable identifier (reported in strict mode).
pub open spec fn id_issue(g: Seq<char>, fs: Seq<FieldModel>, strict: bool) -> Seq<IssueModel> {
    if !(exists|i: int| 0 <= i < fs.len() && is_immutable_id(fs[i])) && strict {
        seq![
            about(
                DiagnosticSeverity::Warning,
                DiagnosticCategory::BestPractice,
                "Gene "@ + sq(g) + " should have an immutable ID field for distributed identity"@,
                "Add: @crdt(immutable) has id: Uuid"@,
                None,
            ),
        ]
    } else {
        Seq::empty()
    }
}

/// A gene that mixes annotated and plain fields.
pub open spec fn mixed_issue(g: Seq<char>, fs: Seq<FieldModel>) -> Seq<IssueModel> {
    let annotated = count_annotated(fs);
    let plain = (fs.len() - annotated) as nat;
    if annotated > 0 && plain > 0 {
        seq![
            about(
                DiagnosticSeverity::Info,
                DiagnosticCategory::Consistency,
                "Gene "@ + sq(g) + " has "@ + spec_decimal(annotated) + " CRDT fields and "@
                    + spec_decimal(plain)
                    + " non-CRDT fields. Consider annotating all fields for consistent replication."@,
                "Add CRDT annotations to remaining fields or use @crdt(lww) as default"@,
                None,
            ),
        ]
    } else {
        Seq::empty()
    }
}

/// A gene with more than three multi-value registers.
pub open spec fn mv_issue(g: Seq<char>, fs: Seq<FieldModel>) -> Seq<IssueModel> {
    let mv = count_strategy(fs, CrdtStrategy::MvRegister);
    if mv > 3 {
        seq![
            about(
                DiagnosticSeverity::Warning,
                DiagnosticCategory::Performance,
                "Gene "@ + sq(g) + " has "@ + spec_decimal(mv)
                    + " MV-Register fields. Each requires manual conflict resolution."@,
                "Consider using LWW or other automatic merge strategies where possible"@,
                None,
            ),
        ]
    } else {
        Seq::empty()
    }
}

/// A gene that combines Peritext and RGA fields.
pub open spec fn merge_issue(g: Seq<char>, fs: Seq<FieldModel>) -> Seq<IssueModel> {
    if count_strategy(fs, CrdtStrategy::Peritext) > 0 && count_strategy(fs, CrdtStrategy::Rga) > 0 {
        seq![
            about(
                DiagnosticSeverity::Info,
                DiagnosticCategory::Performance,
                "Gene "@ + sq(g) + " combines Peritext and RGA, both have O(n) merge complexity"@,
                "Monitor sync performance with large documents"@,
                None,
            ),
        ]
    } else {
        Seq::empty()
    }
}

/// A gene with more than five OR-Set fields.
pub open spec fn tombstone_issue(g: Seq<char>, fs: Seq<FieldModel>) -> Seq<IssueModel> {
    let sets = count_strategy(fs, CrdtStrategy::OrSet);
    if sets > 5 {
        seq![
            about(
                DiagnosticSeverity::Info,
                DiagnosticCategory::Performance,
                "Gene "@ + sq(g) + " has "@ + spec_decimal(sets)
                    + " collection fields with tombstone overhead"@,
                "Consider periodic garbage collection for tombstones"@,
                None,
            ),
        ]
    } else {
        Seq::empty()
    }
}

/// The issues of a gene named `g` with the fields `fs`, in the order of
/// the checks.
pub open spec fn gene_issues(g: Seq<char>, fs: Seq<FieldModel>, strict: bool) -> Seq<IssueModel> {
    id_issue(g, fs, strict) + mixed_issue(g, fs) + each_field(FieldCheck::Lww, fs, strict)
        + each_field(FieldCheck::Peritext, fs, strict) + each_field(FieldCheck::Counter, fs, strict)
        + each_field(FieldCheck::OrSet, fs, strict) + mv_issue(g, fs) + merge_issue(g, fs)
        + tombstone_issue(g, fs) + each_field(FieldCheck::Constraint, fs, strict)
}

/// The issues of a declaration: those of a gene's fields; none for a
/// trait or any other declaration.
pub open spec fn spec_issues(decl: Declaration, strict: bool) -> Seq<IssueModel> {
    match decl {
        Declaration::Gen(g) => if g.is_trait {
            Seq::empty()
        } else {
            gene_issues(g.name@, fields_model(g.fields@), strict)
        },
        _ => Seq::empty(),
    }
}


// ---------------------------------------------------------------------------
// The analyzer
// ---------------------------------------------------------------------------

/// Schema diagnostics analyzer.
///
/// Detects anti-patterns and performance issues in CRDT-annotated schemas.
pub struct SchemaDiagnostics {
    /// Enable strict checking
    pub strict: bool,
}

impl Default for SchemaDiagnostics {
    /// An analyzer without strict checking.
    fn default() -> (r: SchemaDiagnostics)
        ensures
            !r.strict,
    {
        SchemaDiagnostics { strict: false }
    }
}

/// An issue built from its parts.
fn issue(
    severity: DiagnosticSeverity,
    category: DiagnosticCategory,
    message: String,
    suggestion: &str,
    field: Option<String>,
) -> (r: DiagnosticIssue)
    ensures
        issue_view(r) == about(
            severity,
            category,
            message@,
            suggestion@,
            match field {
                Some(f) => Some(f@),
                None => None,
            },
        ),
{
    DiagnosticIssue { severity, category, message, suggestion: owned(suggestion), field }
}

/// `'name'`.
fn single_quoted(name: &str) -> (r: String)
    ensures
        r@ == sq(name@),
{
    let mut s = owned("'");
    s.append(name);
    s.append("'");
    s
}

/// Appends `i` to `issues`.
fn push_issue(issues: &mut Vec<DiagnosticIssue>, i: DiagnosticIssue)
    ensures
        issues_view(final(issues)@) == issues_view(old(issues)@).push(issue_view(i)),
{
    let ghost before = issues_view(issues@);
    issues.push(i);
    assert(issues_view(issues@) =~= before.push(issue_view(i)));
}

/// The strategy of a field, if it is annotated.
fn strategy_of(f: &TypedField) -> (r: Option<CrdtStrategy>)
    ensures
        match r {
            Some(s) => field_model(*f).crdt matches Some(c) && c.0 == s,
            None => field_model(*f).crdt is None,
        },
{
    match &f.crdt_annotation {
        Some(a) => Some(a.strategy),
        None => None,
    }
}

/// Whether a field has an option named `key`.
fn has_option_named(f: &TypedField, key: &str) -> (r: bool)
    ensures
        r == has_option(field_model(*f), key@),
{
    match &f.crdt_annotation {
        Some(a) => {
            let ghost keys = a.options@.map_values(|o: crate::ast::CrdtOption| o.key@);
            assert(field_model(*f).crdt == Some((a.strategy, keys)));
            let mut i: usize = 0;
            while i < a.options.len()
                invariant
                    i <= a.options@.len(),
                    field_model(*f).crdt == Some((a.strategy, keys)),
                    keys == a.options@.map_values(|o: crate::ast::CrdtOption| o.key@),
                    forall|j: int| 0 <= j < i ==> keys[j] != key@,
                decreases a.options.len() - i,
            {
                if str_eq(a.options[i].key.as_str(), key) {
                    assert(keys[i as int] == key@);
                    assert(keys.contains(key@));
                    return true;
                }
                i = i + 1;
            }
            false
        },
        None => false,
    }
}

/// The number of fields with strategy `s`.
fn count_with(fields: &Vec<TypedField>, s: CrdtStrategy) -> (r: usize)
    ensures
        r == count_strategy(fields_model(fields@), s),
{
    let ghost fm = fields_model(fields@);
    let mut n: usize = 0;
    let mut i: usize = 0;
    while i < fields.len()
        invariant
            i <= fields@.len(),
            fm == fields_model(fields@),
            n == count_strategy(fm.take(i as int), s),
            n <= i,
        decreases fields.len() - i,
    {
        proof {
            assert(fm.take(i + 1).drop_last() =~= fm.take(i as int));
            reveal(Seq::filter);
        }
        match strategy_of(&fields[i]) {
            Some(x) => {
                if x == s {
                    n = n + 1;
                }
            },
            None => {},
        }
        i = i + 1;
    }
    assert(fm.take(fields@.len() as int) =~= fm);
    n
}

/// The number of annotated fields.
fn count_annotated_fields(fields: &Vec<TypedField>) -> (r: usize)
    ensures
        r == count_annotated(fields_model(fields@)),
        r <= fields@.len(),
{
    let ghost fm = fields_model(fields@);
    let mut n: usize = 0;
    let mut i: usize = 0;
    while i < fields.len()
        invariant
            i <= fields@.len(),
            fm == fields_model(fields@),
            n == count_annotated(fm.take(i as int)),
            n <= i,
        decreases fields.len() - i,
    {
        proof {
            assert(fm.take(i + 1).drop_last() =~= fm.take(i as int));
            reveal(Seq::filter);
        }
        if fields[i].crdt_annotation.is_some() {
            n = n + 1;
        }
        i = i + 1;
    }
    assert(fm.take(fields@.len() as int) =~= fm);
    n
}

/// Appends what check `c` finds in field `f`.
fn check_one(c: &FieldCheck, f: &TypedField, strict: bool, issues: &mut Vec<DiagnosticIssue>)
    ensures
        issues_view(final(issues)@) == issues_view(old(issues)@) + check_field(*c, field_model(*f), strict),
{
    let ghost before = issues_view(issues@);
    let ghost fm = field_model(*f);
    let s = strategy_of(f);
    let name = f.name.as_str();
    match c {
        FieldCheck::Lww => {
            if s == Some(CrdtStrategy::Lww) && (contains(f.ty.as_str(), "Set") || contains(
                f.ty.as_str(),
                "Vec",
            ) || contains(f.ty.as_str(), "List")) {
                let mut m = owned("Field ");
                m.append(single_quoted(name).as_str());
                m.append(" uses LWW on collection type ");
                m.append(f.ty.as_str());
                m.append(". Entire collection will be replaced on conflict.");
                push_issue(
                    issues,
                    issue(
                        DiagnosticSeverity::Warning,
                        DiagnosticCategory::AntiPattern,
                        m,
                        "Use @crdt(or_set) for Set or @crdt(rga) for Vec/List instead",
                        Some(owned(name)),
                    ),
                );
            }
        },
        FieldCheck::Peritext => {
            if s == Some(CrdtStrategy::Peritext) && !has_option_named(f, "max_length") {
                let mut m = owned("Field ");
                m.append(single_quoted(name).as_str());
                m.append(" uses Peritext without max_length. Unbounded text can lead to memory issues.");
                push_issue(
                    issues,
                    issue(
                        DiagnosticSeverity::Warning,
                        DiagnosticCategory::Performance,
                        m,
                        "Add max_length option: @crdt(peritext, max_length=1000000)",
                        Some(owned(name)),
                    ),
                );
            }
        },
        FieldCheck::Counter => {
            if s == Some(CrdtStrategy::PnCounter) && !has_option_named(f, "min_value")
                && !has_option_named(f, "max_value") && strict {
                let mut m = owned("Counter field ");
                m.append(single_quoted(name).as_str());
                m.append(" has no bounds. Consider adding min_value/max_value for safety.");
                push_issue(
                    issues,
                    issue(
                        DiagnosticSeverity::Info,
                        DiagnosticCategory::BestPractice,
                        m,
                        "Add bounds: @crdt(pn_counter, min_value=0)",
                        Some(owned(name)),
                    ),
                );
            }
        },
        FieldCheck::OrSet => {
            if s == Some(CrdtStrategy::OrSet) && strict {
                match &f.constraint {
                    Some(con) => {
                        if !contains(con.as_str(), "size") && !contains(con.as_str(), "count") {
                            let mut m = owned("OR-Set field ");
                            m.append(single_quoted(name).as_str());
                            m.append(" has no size limit. Unbounded sets can grow indefinitely.");
                            push_issue(
                                issues,
                                issue(
                                    DiagnosticSeverity::Info,
                                    DiagnosticCategory::Performance,
                                    m,
                                    "Add constraint: where size <= 1000",
                                    Some(owned(name)),
                                ),
                            );
                        }
                    },
                    None => {
                        let mut m = owned("OR-Set field ");
                        m.append(single_quoted(name).as_str());
                        m.append(" has no size constraint");
                        push_issue(
                            issues,
                            issue(
                                DiagnosticSeverity::Info,
                                DiagnosticCategory::Performance,
                                m,
                                "Add constraint: where size <= 1000",
                                Some(owned(name)),
                            ),
                        );
                    },
                }
            }
        },
        FieldCheck::Constraint => {
            match &f.constraint {
                Some(con) => {
                    if s.is_some() {
                        if contains(con.as_str(), "unique") {
                            let mut m = owned("Field ");
                            m.append(single_quoted(name).as_str());
                            m.append(" has uniqueness constraint, which requires coordination");
                            push_issue(
                                issues,
                                issue(
                                    DiagnosticSeverity::Warning,
                                    DiagnosticCategory::Correctness,
                                    m,
                                    "Consider using escrow pattern or removing CRDT annotation",
                                    Some(owned(name)),
                                ),
                            );
                        }
                        if s == Some(CrdtStrategy::Immutable) && (contains(con.as_str(), "update")
                            || contains(con.as_str(), "modify")) {
                            let mut m = owned("Field ");
                            m.append(single_quoted(name).as_str());
                            m.append(" is immutable but has mutable constraint");
                            push_issue(
                                issues,
                                issue(
                                    DiagnosticSeverity::Error,
                                    DiagnosticCategory::Correctness,
                                    m,
                                    "Remove constraint or change CRDT strategy",
                                    Some(owned(name)),
                                ),
                            );
                        }
                    }
                },
                None => {},
            }
        },
    }
    proof {
        assert(issues_view(issues@) =~= before + check_field(*c, fm, strict));
    }
}

/// Appends what check `c` finds in each field, field by field.
fn check_each(c: &FieldCheck, fields: &Vec<TypedField>, strict: bool, issues: &mut Vec<DiagnosticIssue>)
    ensures
        issues_view(final(issues)@) == issues_view(old(issues)@) + each_field(
            *c,
            fields_model(fields@),
            strict,
        ),
{
    let ghost base = issues_view(issues@);
    let ghost fm = fields_model(fields@);
    let mut i: usize = 0;
    assert(fm.take(0) =~= Seq::<FieldModel>::empty());
    assert(base + each_field(*c, Seq::<FieldModel>::empty(), strict) =~= base);
    while i < fields.len()
        invariant
            i <= fields@.len(),
            fm == fields_model(fields@),
            issues_view(issues@) == base + each_field(*c, fm.take(i as int), strict),
        decreases fields.len() - i,
    {
        let ghost before = issues_view(issues@);
        check_one(c, &fields[i], strict, issues);
        proof {
            assert(fm.take(i + 1).drop_last() =~= fm.take(i as int));
            assert(fm.take(i + 1).last() == field_model(fields@[i as int]));
            assert(issues_view(issues@) =~= base + each_field(*c, fm.take(i + 1), strict));
        }
        i = i + 1;
    }
    assert(fm.take(fields@.len() as int) =~= fm);
}

/// Whether some field is an immutable identifier.
fn has_immutable_id(fields: &Vec<TypedField>) -> (r: bool)
    ensures
        r == exists|i: int| 0 <= i < fields@.len() && is_immutable_id(fields_model(fields@)[i]),
{
    let ghost fm = fields_model(fields@);
    let mut i: usize = 0;
    while i < fields.len()
        invariant
            i <= fields@.len(),
            fm == fields_model(fields@),
            forall|j: int| 0 <= j < i ==> !is_immutable_id(fm[j]),
        decreases fields.len() - i,
    {
        let f = &fields[i];
        assert(fm[i as int] == field_model(*f));
        let n = f.name.as_str();
        if (str_eq(n, "id") || str_eq(n, "uuid") || str_eq(n, "identity")) && strategy_of(f) == Some(
            CrdtStrategy::Immutable,
        ) {
            return true;
        }
        i = i + 1;
    }
    false
}

impl SchemaDiagnostics {
    /// Creates a new diagnostics analyzer.
    pub fn new() -> (r: SchemaDiagnostics)
        ensures
            !r.strict,
    {
        SchemaDiagnostics { strict: false }
    }

    /// Creates a new diagnostics analyzer with strict checking enabled.
    pub fn strict() -> (r: SchemaDiagnostics)
        ensures
            r.strict,
    {
        SchemaDiagnostics { strict: true }
    }

    /// Analyzes a DOL declaration for CRDT-related issues: those of a
    /// gene's fields, in the order of the checks.
    pub fn analyze(&self, decl: &Declaration) -> (r: Vec<DiagnosticIssue>)
        ensures
            issues_view(r@) == spec_issues(*decl, self.strict),
    {
        let mut issues: Vec<DiagnosticIssue> = Vec::new();
        assert(issues_view(issues@) =~= Seq::<IssueModel>::empty());
        match decl {
            Declaration::Gen(g) => {
                if !g.is_trait {
                    self.analyze_gene(g.name.as_str(), &g.fields, &mut issues);
                    assert(issues_view(issues@) =~= spec_issues(*decl, self.strict));
                }
            },
            _ => {},
        }
        issues
    }

    /// Analyzes a gene's fields.
    #[verifier::rlimit(60)]
    #[verifier::spinoff_prover]
    fn analyze_gene(&self, name: &str, fields: &Vec<TypedField>, issues: &mut Vec<DiagnosticIssue>)
        ensures
            issues_view(final(issues)@) == issues_view(old(issues)@) + gene_issues(
                name@,
                fields_model(fields@),
                self.strict,
            ),
    {
        let ghost b0 = issues_view(issues@);
        let ghost fm = fields_model(fields@);
        let g = single_quoted(name);
        self.check_id(&g, name, fields, issues);
        check_mixed(&g, name, fields, issues);
        check_each(&FieldCheck::Lww, fields, self.strict, issues);
        check_each(&FieldCheck::Peritext, fields, self.strict, issues);
        check_each(&FieldCheck::Counter, fields, self.strict, issues);
        check_each(&FieldCheck::OrSet, fields, self.strict, issues);
        check_counts(&g, name, fields, issues);
        check_each(&FieldCheck::Constraint, fields, self.strict, issues);
        proof {
            assert(issues_view(issues@) =~= b0 + gene_issues(name@, fm, self.strict));
        }
    }

    /// Appends the missing-identifier issue.
    fn check_id(&self, g: &String, name: &str, fields: &Vec<TypedField>, issues: &mut Vec<DiagnosticIssue>)
        requires
            g@ == sq(name@),
        ensures
            issues_view(final(issues)@) == issues_view(old(issues)@) + id_issue(
                name@,
                fields_model(fields@),
                self.strict,
            ),
    {
        let ghost b = issues_view(issues@);
        if !has_immutable_id(fields) && self.strict {
            let mut m = owned("Gene ");
            m.append(g.as_str());
            m.append(" should have an immutable ID field for distributed identity");
            push_issue(
                issues,
                issue(
                    DiagnosticSeverity::Warning,
                    DiagnosticCategory::BestPractice,
                    m,
                    "Add: @crdt(immutable) has id: Uuid",
                    None,
                ),
            );
        }
        assert(issues_view(issues@) =~= b + id_issue(name@, fields_model(fields@), self.strict));
    }
}

/// Appends the mixed-fields issue.
fn check_mixed(g: &String, name: &str, fields: &Vec<TypedField>, issues: &mut Vec<DiagnosticIssue>)
    requires
        g@ == sq(name@),
    ensures
        issues_view(final(issues)@) == issues_view(old(issues)@) + mixed_issue(name@, fields_model(fields@)),
{
    let ghost b = issues_view(issues@);
    let annotated = count_annotated_fields(fields);
    let plain = fields.len() - annotated;
    assert(fields_model(fields@).len() == fields@.len());
    if annotated > 0 && plain > 0 {
        let mut m = owned("Gene ");
        m.append(g.as_str());
        m.append(" has ");
        m.append(usize_to_string(annotated).as_str());
        m.append(" CRDT fields and ");
        m.append(usize_to_string(plain).as_str());
        m.append(" non-CRDT fields. Consider annotating all fields for consistent replication.");
        push_issue(
            issues,
            issue(
                DiagnosticSeverity::Info,
                DiagnosticCategory::Consistency,
                m,
                "Add CRDT annotations to remaining fields or use @crdt(lww) as default",
                None,
            ),
        );
    }
    assert(issues_view(issues@) =~= b + mixed_issue(name@, fields_model(fields@)));
}

/// Appends the issues about how many fields use a strategy.
fn check_counts(g: &String, name: &str, fields: &Vec<TypedField>, issues: &mut Vec<DiagnosticIssue>)
    requires
        g@ == sq(name@),
    ensures
        issues_view(final(issues)@) == issues_view(old(issues)@) + mv_issue(name@, fields_model(fields@))
            + merge_issue(name@, fields_model(fields@)) + tombstone_issue(name@, fields_model(fields@)),
{
    let ghost b = issues_view(issues@);
    let ghost fm = fields_model(fields@);
    let mv = count_with(fields, CrdtStrategy::MvRegister);
    if mv > 3 {
        let mut m = owned("Gene ");
        m.append(g.as_str());
        m.append(" has ");
        m.append(usize_to_string(mv).as_str());
        m.append(" MV-Register fields. Each requires manual conflict resolution.");
        push_issue(
            issues,
            issue(
                DiagnosticSeverity::Warning,
                DiagnosticCategory::Performance,
                m,
                "Consider using LWW or other automatic merge strategies where possible",
                None,
            ),
        );
    }
    assert(issues_view(issues@) =~= b + mv_issue(name@, fm));
    let ghost b1 = issues_view(issues@);
    if count_with(fields, CrdtStrategy::Peritext) > 0 && count_with(fields, CrdtStrategy::Rga) > 0 {
        let mut m = owned("Gene ");
        m.append(g.as_str());
        m.append(" combines Peritext and RGA, both have O(n) merge complexity");
        push_issue(
            issues,
            issue(
                DiagnosticSeverity::Info,
                DiagnosticCategory::Performance,
                m,
                "Monitor sync performance with large documents",
                None,
            ),
        );
    }
    assert(issues_view(issues@) =~= b1 + merge_issue(name@, fm));
    let ghost b2 = issues_view(issues@);
    let sets = count_with(fields, CrdtStrategy::OrSet);
    if sets > 5 {
        let mut m = owned("Gene ");
        m.append(g.as_str());
        m.append(" has ");
        m.append(usize_to_string(sets).as_str());
        m.append(" collection fields with tombstone overhead");
        push_issue(
            issues,
            issue(
                DiagnosticSeverity::Info,
                DiagnosticCategory::Performance,
                m,
                "Consider periodic garbage collection for tombstones",
                None,
            ),
        );
    }
    assert(issues_view(issues@) =~= b2 + tombstone_issue(name@, fm));
    assert(issues_view(issues@) =~= b + mv_issue(name@, fm) + merge_issue(name@, fm) + tombstone_issue(
        name@,
        fm,
    ));
}


// ---------------------------------------------------------------------------
// Optimizations
// ---------------------------------------------------------------------------

/// Category of optimization.
#[derive(Debug, Clone, Copy, PartialEq, Eq, Structural)]
pub enum OptimizationCategory {
    /// Timestamp/clock optimization
    Timestamp,
    /// Sync performance optimization
    Sync,
    /// Storage optimization
    Storage,
    /// Memory optimization
    Memory,
}

/// Expected impact of an optimization.
#[derive(Debug, Clone, Copy, PartialEq, Eq, PartialOrd, Ord)]
pub enum Impact {
    /// Low impact
    Low,
    /// Medium impact
    Medium,
    /// High impact
    High,
}

/// An optimization suggestion.
#[derive(Debug)]
pub struct Optimization {
    /// Category of optimization
    pub category: OptimizationCategory,
    /// Title of the optimization
    pub title: String,
    /// Detailed description
    pub description: String,
    /// Expected impact
    pub impact: Impact,
    /// How to implement
    pub implementation: String,
}

/// An optimization, as text and plain values.
#[verifier::ext_equal]
pub struct OptimizationModel {
    pub category: OptimizationCategory,
    pub title: Seq<char>,
    pub description: Seq<char>,
    pub impact: Impact,
    pub implementation: Seq<char>,
}

/// The models of a list of optimizations.
pub open spec fn optimizations_view(v: Seq<Optimization>) -> Seq<OptimizationModel> {
    v.map_values(
        |o: Optimization|
            OptimizationModel {
                category: o.category,
                title: o.title@,
                description: o.description@,
                impact: o.impact,
                implementation: o.implementation@,
            },
    )
}

/// The names of the last-writer-wins fields of `fs`.
pub open spec fn lww_names(fs: Seq<FieldModel>) -> Set<Seq<char>>
    decreases fs.len(),
{
    if fs.len() == 0 {
        Set::empty()
    } else if has_strategy(fs.last(), CrdtStrategy::Lww) {
        lww_names(fs.drop_last()).insert(fs.last().name)
    } else {
        lww_names(fs.drop_last())
    }
}

/// Some field's name mentions a time.
pub open spec fn has_time_field(fs: Seq<FieldModel>) -> bool {
    exists|i: int|
        0 <= i < fs.len() && (seq_contains(fs[i].name, "timestamp"@) || seq_contains(fs[i].name, "time"@))
}

/// The optimizations suggested for a gene named `g` with the fields `fs`:
/// a hybrid logical clock when more than three differently named fields
/// are last-writer-wins and no field is a time, and batching when more
/// than five fields are counters or last-writer-wins.
pub open spec fn gene_optimizations(g: Seq<char>, fs: Seq<FieldModel>) -> Seq<OptimizationModel> {
    let n = lww_names(fs).len();
    let hlc = if !has_time_field(fs) && n > 3 {
        seq![
            OptimizationModel {
                category: OptimizationCategory::Timestamp,
                title: "Add Hybrid Logical Clock"@,
                description: "Gene "@ + sq(g) + " has "@ + spec_decimal(n)
                    + " LWW fields but no timestamp. Consider adding an HLC for better causality tracking."@,
                impact: Impact::Medium,
                implementation: "@crdt(immutable) has hlc: HybridLogicalClock"@,
            },
        ]
    } else {
        Seq::empty()
    };
    let k = count_strategy(fs, CrdtStrategy::PnCounter) + count_strategy(fs, CrdtStrategy::Lww);
    let batch = if k > 5 {
        seq![
            OptimizationModel {
                category: OptimizationCategory::Sync,
                title: "Batch Updates"@,
                description: "Gene "@ + sq(g) + " has "@ + spec_decimal(k)
                    + " frequently-updated fields. Consider batching updates to reduce sync overhead."@,
                impact: Impact::High,
                implementation: "Batch operations: defer sync until transaction commit"@,
            },
        ]
    } else {
        Seq::empty()
    };
    hlc + batch
}

/// The optimizations suggested for a declaration: those of a gene; none
/// for a trait or any other declaration.
pub open spec fn spec_optimizations(decl: Declaration) -> Seq<OptimizationModel> {
    match decl {
        Declaration::Gen(g) => if g.is_trait {
            Seq::empty()
        } else {
            gene_optimizations(g.name@, fields_model(g.fields@))
        },
        _ => Seq::empty(),
    }
}

/// The number of differently named last-writer-wins fields.
fn count_lww_names(fields: &Vec<TypedField>) -> (r: usize)
    ensures
        r == lww_names(fields_model(fields@)).len(),
{
    let ghost fm = fields_model(fields@);
    let mut names: Vec<String> = Vec::new();
    let mut i: usize = 0;
    proof {
        assert(crate::text::strings_view(names@).to_set() =~= Set::<Seq<char>>::empty());
        assert(fm.take(0) =~= Seq::<FieldModel>::empty());
    }
    while i < fields.len()
        invariant
            i <= fields@.len(),
            names@.len() <= i,
            fm == fields_model(fields@),
            crate::text::strings_view(names@).no_duplicates(),
            crate::text::strings_view(names@).to_set() == lww_names(fm.take(i as int)),
        decreases fields.len() - i,
    {
        let f = &fields[i];
        proof {
            assert(fm.take(i + 1).drop_last() =~= fm.take(i as int));
            assert(fm.take(i + 1).last() == field_model(*f));
        }
        if strategy_of(f) == Some(CrdtStrategy::Lww) {
            let ghost nv = crate::text::strings_view(names@);
            let mut found = false;
            let mut j: usize = 0;
            while j < names.len()
                invariant
                    j <= names@.len(),
                    nv == crate::text::strings_view(names@),
                    found <==> exists|k: int| 0 <= k < j && nv[k] == f.name@,
                decreases names.len() - j,
            {
                assert(nv[j as int] == names@[j as int]@);
                if str_eq(names[j].as_str(), f.name.as_str()) {
                    found = true;
                }
                j = j + 1;
            }
            if !found {
                names.push(owned(f.name.as_str()));
                proof {
                    assert(crate::text::strings_view(names@) =~= nv.push(f.name@));
                    nv.lemma_push_to_set_commute(f.name@);
                    assert(!nv.contains(f.name@));
                }
            } else {
                proof {
                    let k = choose|k: int| 0 <= k < j && nv[k] == f.name@;
                    assert(nv.to_set().contains(nv[k]));
                    assert(nv.to_set().insert(f.name@) =~= nv.to_set());
                }
            }
        }
        i = i + 1;
    }
    proof {
        assert(fm.take(fields@.len() as int) =~= fm);
        crate::text::strings_view(names@).unique_seq_to_set();
    }
    names.len()
}

/// The number of counter and last-writer-wins fields.
fn count_updated(fields: &Vec<TypedField>) -> (r: usize)
    ensures
        r == count_strategy(fields_model(fields@), CrdtStrategy::PnCounter) + count_strategy(
            fields_model(fields@),
            CrdtStrategy::Lww,
        ),
{
    let ghost fm = fields_model(fields@);
    let mut n: usize = 0;
    let mut i: usize = 0;
    while i < fields.len()
        invariant
            i <= fields@.len(),
            fm == fields_model(fields@),
            n == count_strategy(fm.take(i as int), CrdtStrategy::PnCounter) + count_strategy(
                fm.take(i as int),
                CrdtStrategy::Lww,
            ),
            n <= i,
        decreases fields.len() - i,
    {
        proof {
            assert(fm.take(i + 1).drop_last() =~= fm.take(i as int));
            reveal(Seq::filter);
        }
        match strategy_of(&fields[i]) {
            Some(x) => {
                if x == CrdtStrategy::PnCounter || x == CrdtStrategy::Lww {
                    n = n + 1;
                }
            },
            None => {},
        }
        i = i + 1;
    }
    assert(fm.take(fields@.len() as int) =~= fm);
    n
}

/// Whether some field's name mentions a time.
fn any_time_field(fields: &Vec<TypedField>) -> (r: bool)
    ensures
        r == has_time_field(fields_model(fields@)),
{
    let ghost fm = fields_model(fields@);
    let mut i: usize = 0;
    while i < fields.len()
        invariant
            i <= fields@.len(),
            fm == fields_model(fields@),
            forall|j: int|
                0 <= j < i ==> !(seq_contains(fm[j].name, "timestamp"@) || seq_contains(
                    fm[j].name,
                    "time"@,
                )),
        decreases fields.len() - i,
    {
        assert(fm[i as int].name == fields@[i as int].name@);
        if contains(fields[i].name.as_str(), "timestamp") || contains(fields[i].name.as_str(), "time") {
            return true;
        }
        i = i + 1;
    }
    false
}

impl SchemaDiagnostics {
    /// Suggests optimizations for a schema.
    pub fn suggest_optimizations(&self, decl: &Declaration) -> (r: Vec<Optimization>)
        ensures
            optimizations_view(r@) == spec_optimizations(*decl),
    {
        let mut out: Vec<Optimization> = Vec::new();
        match decl {
            Declaration::Gen(g) => {
                if !g.is_trait {
                    let quoted = single_quoted(g.name.as_str());
                    let n = count_lww_names(&g.fields);
                    if !any_time_field(&g.fields) && n > 3 {
                        let mut d = owned("Gene ");
                        d.append(quoted.as_str());
                        d.append(" has ");
                        d.append(usize_to_string(n).as_str());
                        d.append(
                            " LWW fields but no timestamp. Consider adding an HLC for better causality tracking.",
                        );
                        out.push(
                            Optimization {
                                category: OptimizationCategory::Timestamp,
                                title: owned("Add Hybrid Logical Clock"),
                                description: d,
                                impact: Impact::Medium,
                                implementation: owned("@crdt(immutable) has hlc: HybridLogicalClock"),
                            },
                        );
                    }
                    let k = count_updated(&g.fields);
                    if k > 5 {
                        let mut d = owned("Gene ");
                        d.append(quoted.as_str());
                        d.append(" has ");
                        d.append(usize_to_string(k).as_str());
                        d.append(
                            " frequently-updated fields. Consider batching updates to reduce sync overhead.",
                        );
                        out.push(
                            Optimization {
                                category: OptimizationCategory::Sync,
                                title: owned("Batch Updates"),
                                description: d,
                                impact: Impact::High,
                                implementation: owned("Batch operations: defer sync until transaction commit"),
                            },
                        );
                    }
                    assert(optimizations_view(out@) =~= spec_optimizations(*decl));
                } else {
                    assert(optimizations_view(out@) =~= spec_optimizations(*decl));
                }
            },
            _ => {
                assert(optimizations_view(out@) =~= spec_optimizations(*decl));
            },
        }
        out
    }
}


// ---------------------------------------------------------------------------
// Laws
// ---------------------------------------------------------------------------

/// A gene with a field named `id`, `uuid` or `identity` that is annotated
/// immutable has its identifier: no missing-identifier issue is raised,
/// in strict mode or not, and its issues are those of the other checks.
pub proof fn lemma_immutable_id_is_enough(g: Seq<char>, fs: Seq<FieldModel>, k: int, strict: bool)
    requires
        0 <= k < fs.len(),
        fs[k].name == "id"@ || fs[k].name == "uuid"@ || fs[k].name == "identity"@,
        fs[k].crdt matches Some(c) && c.0 == CrdtStrategy::Immutable,
    ensures
        id_issue(g, fs, strict).len() == 0,
        gene_issues(g, fs, strict) == mixed_issue(g, fs) + each_field(FieldCheck::Lww, fs, strict)
            + each_field(FieldCheck::Peritext, fs, strict) + each_field(FieldCheck::Counter, fs, strict)
            + each_field(FieldCheck::OrSet, fs, strict) + mv_issue(g, fs) + merge_issue(g, fs)
            + tombstone_issue(g, fs) + each_field(FieldCheck::Constraint, fs, strict),
{
    assert(is_immutable_id(fs[k]));
    assert(id_issue(g, fs, strict) =~= Seq::<IssueModel>::empty());
    assert(gene_issues(g, fs, strict) =~= mixed_issue(g, fs) + each_field(FieldCheck::Lww, fs, strict)
        + each_field(FieldCheck::Peritext, fs, strict) + each_field(FieldCheck::Counter, fs, strict)
        + each_field(FieldCheck::OrSet, fs, strict) + mv_issue(g, fs) + merge_issue(g, fs)
        + tombstone_issue(g, fs) + each_field(FieldCheck::Constraint, fs, strict));
}

/// In strict mode, a gene with no immutable `id`, `uuid` or `identity`
/// field is told, once and first, to add one.
pub proof fn lemma_missing_id_reported(g: Seq<char>, fs: Seq<FieldModel>)
    requires
        forall|k: int|
            0 <= k < fs.len() && (fs[k].name == "id"@ || fs[k].name == "uuid"@ || fs[k].name
                == "identity"@) ==> !(fs[k].crdt matches Some(c) && c.0 == CrdtStrategy::Immutable),
    ensures
        gene_issues(g, fs, true).len() > 0,
        gene_issues(g, fs, true)[0].message == "Gene "@ + sq(g)
            + " should have an immutable ID field for distributed identity"@,
        gene_issues(g, fs, true)[0].severity == DiagnosticSeverity::Warning,
{
    assert(!(exists|i: int| 0 <= i < fs.len() && is_immutable_id(fs[i])));
    assert(id_issue(g, fs, true).len() == 1);
}

} // verus!

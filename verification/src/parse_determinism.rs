//! The grammar is unambiguous: a source parses to at most one declaration,
//! and a source that parses never also fails.
//!
//! The parser's contract relates its result to the source through the
//! relations of the grammar. The lemmas here show that each relation
//! determines its outcome (the value read and where it ends) from where it
//! starts, and that the success and failure relations exclude each other,
//! so that the contract pins the parser's result down: two declarations
//! that one source parses to agree on every field, strings compared by
//! their text, and a source that parses is never reported as an error.

use vstd::prelude::*;

use crate::ast::{Declaration, Quantifier, Requirement, Span, Statement};
use crate::lexer::TokenKind;
use crate::error::ParseError;
use crate::parser::{
    block_fails, block_ok, declaration_fails, declaration_ok, evolution_fails, evolution_items_fail,
    evolution_items_ok, evolution_ok, evolution_step, exegesis_fails, exegesis_ok, ident_tail,
    is_statement_predicate, lx, names_view, opt_view, parse_fails, parses_to, phrase_fails,
    phrase_ok, phrase_tail, predicate_fails, predicate_ok, qphrase_tail, requirement_fails,
    requirement_ok, skip_to_brace, span_from, statement_fails, statement_ok, statements_fail,
    statements_ok, system_fails, system_item_step, system_items_fail, system_items_ok,
    system_parse_ok, tk,
};

verus! {

// ---------------------------------------------------------------------------
// Views of the syntax tree
// ---------------------------------------------------------------------------

/// A statement with its strings taken by their text.
pub enum StatementView {
    Has(Seq<char>, Seq<char>, Span),
    Is(Seq<char>, Seq<char>, Span),
    DerivesFrom(Seq<char>, Seq<char>, Span),
    Requires(Seq<char>, Seq<char>, Span),
    Uses(Seq<char>, Span),
    Emits(Seq<char>, Seq<char>, Span),
    Matches(Seq<char>, Seq<char>, Span),
    Never(Seq<char>, Seq<char>, Span),
    Quantified(Quantifier, Seq<char>, Span),
}

/// The view of a statement.
pub open spec fn statement_view(st: Statement) -> StatementView {
    match st {
        Statement::Has { subject, property, span } => StatementView::Has(subject@, property@, span),
        Statement::Is { subject, state, span } => StatementView::Is(subject@, state@, span),
        Statement::DerivesFrom { subject, origin, span } => StatementView::DerivesFrom(
            subject@,
            origin@,
            span,
        ),
        Statement::Requires { subject, requirement, span } => StatementView::Requires(
            subject@,
            requirement@,
            span,
        ),
        Statement::Uses { reference, span } => StatementView::Uses(reference@, span),
        Statement::Emits { action, event, span } => StatementView::Emits(action@, event@, span),
        Statement::Matches { subject, target, span } => StatementView::Matches(
            subject@,
            target@,
            span,
        ),
        Statement::Never { subject, action, span } => StatementView::Never(subject@, action@, span),
        Statement::Quantified { quantifier, phrase, span } => StatementView::Quantified(
            quantifier,
            phrase@,
            span,
        ),
    }
}

/// The views of a list of statements.
pub open spec fn statements_view(ss: Seq<Statement>) -> Seq<StatementView> {
    ss.map_values(|st: Statement| statement_view(st))
}

/// The view of a requirement.
pub open spec fn requirement_view(r: Requirement) -> (Seq<char>, Seq<char>, Seq<char>, Span) {
    (r.name@, r.constraint@, r.version@, r.span)
}

/// The views of a list of requirements.
pub open spec fn requirements_view(rs: Seq<Requirement>) -> Seq<(Seq<char>, Seq<char>, Seq<char>, Span)> {
    rs.map_values(|r: Requirement| requirement_view(r))
}

/// A declaration with its strings taken by their text.
pub enum DeclarationView {
    Gene(Seq<char>, Seq<StatementView>, Seq<char>, Span),
    Trait(Seq<char>, Seq<StatementView>, Seq<char>, Span),
    Constraint(Seq<char>, Seq<StatementView>, Seq<char>, Span),
    System(
        Seq<char>,
        Seq<char>,
        Seq<(Seq<char>, Seq<char>, Seq<char>, Span)>,
        Seq<StatementView>,
        Seq<char>,
        Span,
    ),
    Evolution(
        Seq<char>,
        Seq<char>,
        Seq<char>,
        Seq<StatementView>,
        Seq<StatementView>,
        Seq<Seq<char>>,
        Option<Seq<char>>,
        Seq<char>,
        Span,
    ),
    Gen(bool, Seq<char>, Seq<(Seq<char>, Seq<char>)>),
    Function(bool, Seq<char>, Seq<(Seq<char>, Seq<char>)>, Seq<char>, Seq<char>),
}

/// The views of typed fields.
pub open spec fn typed_fields_view(fs: Seq<crate::ast::TypedField>) -> Seq<(Seq<char>, Seq<char>)> {
    fs.map_values(|f: crate::ast::TypedField| (f.name@, f.ty@))
}

/// The view of a declaration.
pub open spec fn declaration_view(d: Declaration) -> DeclarationView {
    match d {
        Declaration::Gene(g) => DeclarationView::Gene(
            g.name@,
            statements_view(g.statements@),
            g.exegesis@,
            g.span,
        ),
        Declaration::Trait(g) => DeclarationView::Trait(
            g.name@,
            statements_view(g.statements@),
            g.exegesis@,
            g.span,
        ),
        Declaration::Constraint(g) => DeclarationView::Constraint(
            g.name@,
            statements_view(g.statements@),
            g.exegesis@,
            g.span,
        ),
        Declaration::System(g) => DeclarationView::System(
            g.name@,
            g.version@,
            requirements_view(g.requirements@),
            statements_view(g.statements@),
            g.exegesis@,
            g.span,
        ),
        Declaration::Evolution(g) => DeclarationView::Evolution(
            g.name@,
            g.version@,
            g.parent_version@,
            statements_view(g.additions@),
            statements_view(g.deprecations@),
            names_view(g.removals@),
            opt_view(g.rationale),
            g.exegesis@,
            g.span,
        ),
        Declaration::Gen(g) => DeclarationView::Gen(g.is_trait, g.name@, typed_fields_view(g.fields@)),
        Declaration::Function(f) => DeclarationView::Function(
            f.is_public,
            f.name@,
            typed_fields_view(f.params@),
            f.return_type@,
            f.body@,
        ),
    }
}

// ---------------------------------------------------------------------------
// Runs of tokens
// ---------------------------------------------------------------------------

/// A phrase continues in one way only.
pub proof fn lemma_phrase_tail_unique(
    s: Seq<char>,
    j: nat,
    acc: Seq<char>,
    r1: Seq<char>,
    j1: nat,
    r2: Seq<char>,
    j2: nat,
)
    requires
        phrase_tail(s, j, acc, r1, j1),
        phrase_tail(s, j, acc, r2, j2),
    ensures
        r1 == r2,
        j1 == j2,
    decreases j1 - j,
{
    if j1 > j && j2 > j {
        lemma_phrase_tail_unique(s, j + 1, acc + seq![' '] + lx(s, j), r1, j1, r2, j2);
    }
}

/// A quantified phrase continues in one way only.
pub proof fn lemma_qphrase_tail_unique(
    s: Seq<char>,
    j: nat,
    acc: Seq<char>,
    r1: Seq<char>,
    j1: nat,
    r2: Seq<char>,
    j2: nat,
)
    requires
        qphrase_tail(s, j, acc, r1, j1),
        qphrase_tail(s, j, acc, r2, j2),
    ensures
        r1 == r2,
        j1 == j2,
    decreases j1 - j,
{
    if j1 > j && j2 > j {
        lemma_qphrase_tail_unique(s, j + 1, acc + seq![' '] + lx(s, j), r1, j1, r2, j2);
    }
}

/// A run of identifiers continues in one way only.
pub proof fn lemma_ident_tail_unique(
    s: Seq<char>,
    j: nat,
    acc: Seq<char>,
    r1: Seq<char>,
    j1: nat,
    r2: Seq<char>,
    j2: nat,
)
    requires
        ident_tail(s, j, acc, r1, j1),
        ident_tail(s, j, acc, r2, j2),
    ensures
        r1 == r2,
        j1 == j2,
    decreases j1 - j,
{
    if j1 > j && j2 > j {
        lemma_ident_tail_unique(s, j + 1, acc + seq![' '] + lx(s, j), r1, j1, r2, j2);
    }
}

/// Skipping to a closing brace stops at one place only.
pub proof fn lemma_skip_unique(s: Seq<char>, j: nat, j1: nat, j2: nat)
    requires
        skip_to_brace(s, j, j1),
        skip_to_brace(s, j, j2),
    ensures
        j1 == j2,
    decreases j1 - j,
{
    if j1 > j && j2 > j {
        lemma_skip_unique(s, j + 1, j1, j2);
    }
}

/// A phrase reads one text and ends at one place.
pub proof fn lemma_phrase_unique(s: Seq<char>, k: nat, r1: Seq<char>, j1: nat, r2: Seq<char>, j2: nat)
    requires
        phrase_ok(s, k, r1, j1),
        phrase_ok(s, k, r2, j2),
    ensures
        r1 == r2,
        j1 == j2,
{
    lemma_phrase_tail_unique(s, k + 1, lx(s, k), r1, j1, r2, j2);
}


// ---------------------------------------------------------------------------
// Statements
// ---------------------------------------------------------------------------

/// The text of the second part of a statement (its object).
pub open spec fn object_text(st: Statement) -> Seq<char> {
    match st {
        Statement::Has { property, .. } => property@,
        Statement::Is { state, .. } => state@,
        Statement::DerivesFrom { origin, .. } => origin@,
        Statement::Requires { requirement, .. } => requirement@,
        Statement::Uses { reference, .. } => reference@,
        Statement::Emits { event, .. } => event@,
        Statement::Matches { target, .. } => target@,
        Statement::Never { action, .. } => action@,
        Statement::Quantified { phrase, .. } => phrase@,
    }
}

/// A predicate and its object, after a given subject, read one statement
/// and end at one place.
pub proof fn lemma_predicate_unique(
    s: Seq<char>,
    k: nat,
    subj: Seq<char>,
    j: nat,
    st1: Statement,
    k1: nat,
    st2: Statement,
    k2: nat,
    allow_derives: bool,
)
    requires
        predicate_ok(s, k, subj, j, st1, k1, allow_derives),
        predicate_ok(s, k, subj, j, st2, k2, allow_derives),
    ensures
        statement_view(st1) == statement_view(st2),
        k1 == k2,
{
    let p = tk(s, j);
    if p == TokenKind::Derives && allow_derives {
        lemma_phrase_unique(s, j + 2, object_text(st1), k1, object_text(st2), k2);
    } else if p == TokenKind::Requires || p == TokenKind::Matches {
        lemma_phrase_unique(s, j + 1, object_text(st1), k1, object_text(st2), k2);
    }
}

/// A statement reads one way and ends at one place.
#[verifier::spinoff_prover]
#[verifier::rlimit(40)]
pub proof fn lemma_statement_unique(s: Seq<char>, k: nat, st1: Statement, k1: nat, st2: Statement, k2: nat)
    requires
        statement_ok(s, k, st1, k1),
        statement_ok(s, k, st2, k2),
    ensures
        statement_view(st1) == statement_view(st2),
        k1 == k2,
{
    reveal(statement_ok);
    let t = tk(s, k);
    if t == TokenKind::Uses {
    } else if t == TokenKind::Each || t == TokenKind::All {
        lemma_qphrase_tail_unique(s, k + 2, lx(s, k + 1), object_text(st1), k1, object_text(st2), k2);
    } else {
        let subj = lx(s, k);
        let p = tk(s, k + 1);
        if is_statement_predicate(p) {
            lemma_predicate_unique(s, k, subj, k + 1, st1, k1, st2, k2, true);
        } else {
            let (ja, pa) = choose|j: nat, phrase: Seq<char>|
                #[trigger] ident_tail(s, k + 1, subj, phrase, j) && predicate_ok(
                    s,
                    k,
                    phrase,
                    j,
                    st1,
                    k1,
                    false,
                );
            let (jb, pb) = choose|j: nat, phrase: Seq<char>|
                #[trigger] ident_tail(s, k + 1, subj, phrase, j) && predicate_ok(
                    s,
                    k,
                    phrase,
                    j,
                    st2,
                    k2,
                    false,
                );
            lemma_ident_tail_unique(s, k + 1, subj, pa, ja, pb, jb);
            lemma_predicate_unique(s, k, pa, ja, st1, k1, st2, k2, false);
        }
    }
}

/// A statement list reads one way and ends at one place.
#[verifier::spinoff_prover]
#[verifier::rlimit(40)]
pub proof fn lemma_statements_unique(
    s: Seq<char>,
    k: nat,
    ss1: Seq<Statement>,
    j1: nat,
    ss2: Seq<Statement>,
    j2: nat,
)
    requires
        statements_ok(s, k, ss1, j1),
        statements_ok(s, k, ss2, j2),
    ensures
        statements_view(ss1) == statements_view(ss2),
        j1 == j2,
    decreases ss1.len(),
{
    if ss1.len() == 0 {
        assert(ss2.len() == 0);
        assert(statements_view(ss1) =~= statements_view(ss2));
    } else {
        assert(ss2.len() > 0);
        let ka = choose|k1: nat|
            #[trigger] statement_ok(s, k, ss1[0], k1) && statements_ok(s, k1, ss1.drop_first(), j1);
        let kb = choose|k1: nat|
            #[trigger] statement_ok(s, k, ss2[0], k1) && statements_ok(s, k1, ss2.drop_first(), j2);
        lemma_statement_unique(s, k, ss1[0], ka, ss2[0], kb);
        lemma_statements_unique(s, ka, ss1.drop_first(), j1, ss2.drop_first(), j2);
        assert(statements_view(ss1) =~= seq![statement_view(ss1[0])] + statements_view(
            ss1.drop_first(),
        ));
        assert(statements_view(ss2) =~= seq![statement_view(ss2[0])] + statements_view(
            ss2.drop_first(),
        ));
    }
}


// ---------------------------------------------------------------------------
// Blocks and declarations
// ---------------------------------------------------------------------------

/// An exegesis block reads one text and ends at one place.
pub proof fn lemma_exegesis_unique(s: Seq<char>, k: nat, t1: Seq<char>, k1: nat, t2: Seq<char>, k2: nat)
    requires
        exegesis_ok(s, k, t1, k1),
        exegesis_ok(s, k, t2, k2),
    ensures
        t1 == t2,
        k1 == k2,
{
    let ja = choose|j: nat|
        #[trigger] skip_to_brace(s, k + 2, j) && k1 == (if tk(s, j) == TokenKind::RightBrace {
            j + 1
        } else {
            j
        });
    let jb = choose|j: nat|
        #[trigger] skip_to_brace(s, k + 2, j) && k2 == (if tk(s, j) == TokenKind::RightBrace {
            j + 1
        } else {
            j
        });
    lemma_skip_unique(s, k + 2, ja, jb);
}

/// A `gene`, `trait` or `constraint` block reads one way and ends at one
/// place.
#[verifier::spinoff_prover]
#[verifier::rlimit(40)]
pub proof fn lemma_block_unique(
    s: Seq<char>,
    k: nat,
    kw: TokenKind,
    n1: Seq<char>,
    ss1: Seq<Statement>,
    e1: Seq<char>,
    sp1: Span,
    k1: nat,
    n2: Seq<char>,
    ss2: Seq<Statement>,
    e2: Seq<char>,
    sp2: Span,
    k2: nat,
)
    requires
        block_ok(s, k, kw, n1, ss1, e1, sp1, k1),
        block_ok(s, k, kw, n2, ss2, e2, sp2, k2),
    ensures
        n1 == n2,
        statements_view(ss1) == statements_view(ss2),
        e1 == e2,
        sp1 == sp2,
        k1 == k2,
{
    let ja = choose|j: nat|
        #[trigger] statements_ok(s, k + 3, ss1, j) && tk(s, j) == TokenKind::RightBrace && exegesis_ok(
            s,
            j + 1,
            e1,
            k1,
        ) && sp1 == span_from(s, k, k1);
    let jb = choose|j: nat|
        #[trigger] statements_ok(s, k + 3, ss2, j) && tk(s, j) == TokenKind::RightBrace && exegesis_ok(
            s,
            j + 1,
            e2,
            k2,
        ) && sp2 == span_from(s, k, k2);
    lemma_statements_unique(s, k + 3, ss1, ja, ss2, jb);
    lemma_exegesis_unique(s, ja + 1, e1, k1, e2, k2);
}

/// A requirement reads one way and ends at one place.
pub proof fn lemma_requirement_unique(s: Seq<char>, k: nat, r1: Requirement, k1: nat, r2: Requirement, k2: nat)
    requires
        requirement_ok(s, k, r1, k1),
        requirement_ok(s, k, r2, k2),
    ensures
        requirement_view(r1) == requirement_view(r2),
        k1 == k2,
{
}

/// The items of a system body read one way and end at one place.
#[verifier::spinoff_prover]
#[verifier::rlimit(40)]
pub proof fn lemma_system_items_unique(
    s: Seq<char>,
    k: nat,
    rs1: Seq<Requirement>,
    ss1: Seq<Statement>,
    j1: nat,
    n1: nat,
    rs2: Seq<Requirement>,
    ss2: Seq<Statement>,
    j2: nat,
    n2: nat,
)
    requires
        system_items_ok(s, k, rs1, ss1, j1, n1),
        system_items_ok(s, k, rs2, ss2, j2, n2),
    ensures
        requirements_view(rs1) == requirements_view(rs2),
        statements_view(ss1) == statements_view(ss2),
        j1 == j2,
    decreases n1,
{
    if n1 == 0 {
        assert(n2 == 0);
        assert(requirements_view(rs1) =~= requirements_view(rs2));
        assert(statements_view(ss1) =~= statements_view(ss2));
    } else {
        assert(n2 > 0);
        if tk(s, k) == TokenKind::Requires {
            let ka = choose|k1: nat|
                #[trigger] requirement_ok(s, k, rs1[0], k1) && system_items_ok(
                    s,
                    k1,
                    rs1.drop_first(),
                    ss1,
                    j1,
                    (n1 - 1) as nat,
                );
            let kb = choose|k1: nat|
                #[trigger] requirement_ok(s, k, rs2[0], k1) && system_items_ok(
                    s,
                    k1,
                    rs2.drop_first(),
                    ss2,
                    j2,
                    (n2 - 1) as nat,
                );
            lemma_requirement_unique(s, k, rs1[0], ka, rs2[0], kb);
            lemma_system_items_unique(
                s,
                ka,
                rs1.drop_first(),
                ss1,
                j1,
                (n1 - 1) as nat,
                rs2.drop_first(),
                ss2,
                j2,
                (n2 - 1) as nat,
            );
            assert(requirements_view(rs1) =~= seq![requirement_view(rs1[0])] + requirements_view(
                rs1.drop_first(),
            ));
            assert(requirements_view(rs2) =~= seq![requirement_view(rs2[0])] + requirements_view(
                rs2.drop_first(),
            ));
        } else {
            let ka = choose|k1: nat|
                #[trigger] statement_ok(s, k, ss1[0], k1) && system_items_ok(
                    s,
                    k1,
                    rs1,
                    ss1.drop_first(),
                    j1,
                    (n1 - 1) as nat,
                );
            let kb = choose|k1: nat|
                #[trigger] statement_ok(s, k, ss2[0], k1) && system_items_ok(
                    s,
                    k1,
                    rs2,
                    ss2.drop_first(),
                    j2,
                    (n2 - 1) as nat,
                );
            lemma_statement_unique(s, k, ss1[0], ka, ss2[0], kb);
            lemma_system_items_unique(
                s,
                ka,
                rs1,
                ss1.drop_first(),
                j1,
                (n1 - 1) as nat,
                rs2,
                ss2.drop_first(),
                j2,
                (n2 - 1) as nat,
            );
            assert(statements_view(ss1) =~= seq![statement_view(ss1[0])] + statements_view(
                ss1.drop_first(),
            ));
            assert(statements_view(ss2) =~= seq![statement_view(ss2[0])] + statements_view(
                ss2.drop_first(),
            ));
        }
    }
}


/// A `system` declaration reads one way and ends at one place.
#[verifier::spinoff_prover]
#[verifier::rlimit(40)]
pub proof fn lemma_system_unique(s: Seq<char>, k: nat, a: crate::ast::System, k1: nat, b: crate::ast::System, k2: nat)
    requires
        system_parse_ok(s, k, a, k1),
        system_parse_ok(s, k, b, k2),
    ensures
        declaration_view(Declaration::System(a)) == declaration_view(Declaration::System(b)),
        k1 == k2,
{
    let (ja, na) = choose|j: nat, n: nat|
        #[trigger] system_items_ok(s, k + 5, a.requirements@, a.statements@, j, n) && tk(s, j)
            == TokenKind::RightBrace && exegesis_ok(s, j + 1, a.exegesis@, k1) && a.span
            == span_from(s, k, k1);
    let (jb, nb) = choose|j: nat, n: nat|
        #[trigger] system_items_ok(s, k + 5, b.requirements@, b.statements@, j, n) && tk(s, j)
            == TokenKind::RightBrace && exegesis_ok(s, j + 1, b.exegesis@, k2) && b.span
            == span_from(s, k, k2);
    lemma_system_items_unique(
        s,
        k + 5,
        a.requirements@,
        a.statements@,
        ja,
        na,
        b.requirements@,
        b.statements@,
        jb,
        nb,
    );
    lemma_exegesis_unique(s, ja + 1, a.exegesis@, k1, b.exegesis@, k2);
}

/// The changes of an evolution body read one way and end at one place.
#[verifier::spinoff_prover]
#[verifier::rlimit(80)]
pub proof fn lemma_evolution_items_unique(
    s: Seq<char>,
    k: nat,
    why0: Option<Seq<char>>,
    adds1: Seq<Statement>,
    deps1: Seq<Statement>,
    rems1: Seq<Seq<char>>,
    why1: Option<Seq<char>>,
    j1: nat,
    n1: nat,
    adds2: Seq<Statement>,
    deps2: Seq<Statement>,
    rems2: Seq<Seq<char>>,
    why2: Option<Seq<char>>,
    j2: nat,
    n2: nat,
)
    requires
        evolution_items_ok(s, k, adds1, deps1, rems1, why0, why1, j1, n1),
        evolution_items_ok(s, k, adds2, deps2, rems2, why0, why2, j2, n2),
    ensures
        statements_view(adds1) == statements_view(adds2),
        statements_view(deps1) == statements_view(deps2),
        rems1 == rems2,
        why1 == why2,
        j1 == j2,
    decreases n1,
{
    let t = tk(s, k);
    if n1 == 0 {
        assert(n2 == 0);
        assert(statements_view(adds1) =~= statements_view(adds2));
        assert(statements_view(deps1) =~= statements_view(deps2));
        assert(rems1 =~= rems2);
    } else {
        assert(n2 > 0);
        let m1 = (n1 - 1) as nat;
        let m2 = (n2 - 1) as nat;
        if t == TokenKind::Adds {
            let ka = choose|k1: nat|
                #[trigger] statement_ok(s, k + 1, adds1[0], k1) && evolution_items_ok(
                    s,
                    k1,
                    adds1.drop_first(),
                    deps1,
                    rems1,
                    why0,
                    why1,
                    j1,
                    m1,
                );
            let kb = choose|k1: nat|
                #[trigger] statement_ok(s, k + 1, adds2[0], k1) && evolution_items_ok(
                    s,
                    k1,
                    adds2.drop_first(),
                    deps2,
                    rems2,
                    why0,
                    why2,
                    j2,
                    m2,
                );
            lemma_statement_unique(s, k + 1, adds1[0], ka, adds2[0], kb);
            lemma_evolution_items_unique(
                s,
                ka,
                why0,
                adds1.drop_first(),
                deps1,
                rems1,
                why1,
                j1,
                m1,
                adds2.drop_first(),
                deps2,
                rems2,
                why2,
                j2,
                m2,
            );
            assert(statements_view(adds1) =~= seq![statement_view(adds1[0])] + statements_view(
                adds1.drop_first(),
            ));
            assert(statements_view(adds2) =~= seq![statement_view(adds2[0])] + statements_view(
                adds2.drop_first(),
            ));
        } else if t == TokenKind::Deprecates {
            let ka = choose|k1: nat|
                #[trigger] statement_ok(s, k + 1, deps1[0], k1) && evolution_items_ok(
                    s,
                    k1,
                    adds1,
                    deps1.drop_first(),
                    rems1,
                    why0,
                    why1,
                    j1,
                    m1,
                );
            let kb = choose|k1: nat|
                #[trigger] statement_ok(s, k + 1, deps2[0], k1) && evolution_items_ok(
                    s,
                    k1,
                    adds2,
                    deps2.drop_first(),
                    rems2,
                    why0,
                    why2,
                    j2,
                    m2,
                );
            lemma_statement_unique(s, k + 1, deps1[0], ka, deps2[0], kb);
            lemma_evolution_items_unique(
                s,
                ka,
                why0,
                adds1,
                deps1.drop_first(),
                rems1,
                why1,
                j1,
                m1,
                adds2,
                deps2.drop_first(),
                rems2,
                why2,
                j2,
                m2,
            );
            assert(statements_view(deps1) =~= seq![statement_view(deps1[0])] + statements_view(
                deps1.drop_first(),
            ));
            assert(statements_view(deps2) =~= seq![statement_view(deps2[0])] + statements_view(
                deps2.drop_first(),
            ));
        } else if t == TokenKind::Removes {
            lemma_evolution_items_unique(
                s,
                k + 2,
                why0,
                adds1,
                deps1,
                rems1.drop_first(),
                why1,
                j1,
                m1,
                adds2,
                deps2,
                rems2.drop_first(),
                why2,
                j2,
                m2,
            );
            assert(rems1 =~= seq![rems1[0]] + rems1.drop_first());
            assert(rems2 =~= seq![rems2[0]] + rems2.drop_first());
        } else {
            lemma_evolution_items_unique(
                s,
                k + 2,
                Some(lx(s, k + 1)),
                adds1,
                deps1,
                rems1,
                why1,
                j1,
                m1,
                adds2,
                deps2,
                rems2,
                why2,
                j2,
                m2,
            );
        }
    }
}

/// An `evolves` declaration reads one way and ends at one place.
#[verifier::spinoff_prover]
#[verifier::rlimit(80)]
pub proof fn lemma_evolution_unique(s: Seq<char>, k: nat, d1: Declaration, k1: nat, d2: Declaration, k2: nat)
    requires
        evolution_ok(s, k, d1, k1),
        evolution_ok(s, k, d2, k2),
    ensures
        declaration_view(d1) == declaration_view(d2),
        k1 == k2,
{
    let a = d1->Evolution_0;
    let b = d2->Evolution_0;
    let (ja, na) = choose|j: nat, n: nat|
        #[trigger] evolution_items_ok(
            s,
            k + 7,
            a.additions@,
            a.deprecations@,
            names_view(a.removals@),
            None,
            opt_view(a.rationale),
            j,
            n,
        ) && tk(s, j) == TokenKind::RightBrace && exegesis_ok(s, j + 1, a.exegesis@, k1)
            && a.span == span_from(s, k, k1);
    let (jb, nb) = choose|j: nat, n: nat|
        #[trigger] evolution_items_ok(
            s,
            k + 7,
            b.additions@,
            b.deprecations@,
            names_view(b.removals@),
            None,
            opt_view(b.rationale),
            j,
            n,
        ) && tk(s, j) == TokenKind::RightBrace && exegesis_ok(s, j + 1, b.exegesis@, k2)
            && b.span == span_from(s, k, k2);
    lemma_evolution_items_unique(
        s,
        k + 7,
        None,
        a.additions@,
        a.deprecations@,
        names_view(a.removals@),
        opt_view(a.rationale),
        ja,
        na,
        b.additions@,
        b.deprecations@,
        names_view(b.removals@),
        opt_view(b.rationale),
        jb,
        nb,
    );
    lemma_exegesis_unique(s, ja + 1, a.exegesis@, k1, b.exegesis@, k2);
}

/// A declaration reads one way and ends at one place.
#[verifier::spinoff_prover]
#[verifier::rlimit(40)]
pub proof fn lemma_declaration_unique(s: Seq<char>, k: nat, d1: Declaration, k1: nat, d2: Declaration, k2: nat)
    requires
        declaration_ok(s, k, d1, k1),
        declaration_ok(s, k, d2, k2),
    ensures
        declaration_view(d1) == declaration_view(d2),
        k1 == k2,
{
    match d1 {
        Declaration::Gene(a) => match d2 {
            Declaration::Gene(b) => {
                lemma_block_unique(s, k, TokenKind::Gene, a.name@, a.statements@, a.exegesis@, a.span, k1, b.name@, b.statements@, b.exegesis@, b.span, k2);
            },
            _ => {},
        },
        Declaration::Trait(a) => match d2 {
            Declaration::Trait(b) => {
                lemma_block_unique(s, k, TokenKind::Trait, a.name@, a.statements@, a.exegesis@, a.span, k1, b.name@, b.statements@, b.exegesis@, b.span, k2);
            },
            _ => {},
        },
        Declaration::Constraint(a) => match d2 {
            Declaration::Constraint(b) => {
                lemma_block_unique(s, k, TokenKind::Constraint, a.name@, a.statements@, a.exegesis@, a.span, k1, b.name@, b.statements@, b.exegesis@, b.span, k2);
            },
            _ => {},
        },
        Declaration::System(a) => match d2 {
            Declaration::System(b) => {
                lemma_system_unique(s, k, a, k1, b, k2);
            },
            _ => {},
        },
        Declaration::Evolution(_) => {
            lemma_evolution_unique(s, k, d1, k1, d2, k2);
        },
        Declaration::Gen(_) => {},
        Declaration::Function(_) => {},
    }
}

/// A source parses to at most one declaration: any two declarations it
/// parses to agree on every field (strings by their text).
pub proof fn lemma_parse_unique(s: Seq<char>, k: nat, d1: Declaration, d2: Declaration)
    requires
        parses_to(s, k, d1),
        parses_to(s, k, d2),
    ensures
        declaration_view(d1) == declaration_view(d2),
{
    let k1 = choose|k2: nat| #[trigger] declaration_ok(s, k, d1, k2) && tk(s, k2) == TokenKind::Eof;
    let k2 = choose|k2: nat| #[trigger] declaration_ok(s, k, d2, k2) && tk(s, k2) == TokenKind::Eof;
    lemma_declaration_unique(s, k, d1, k1, d2, k2);
}


// ---------------------------------------------------------------------------
// Success and failure exclude each other
// ---------------------------------------------------------------------------

/// A predicate that reads cannot also fail.
proof fn lemma_predicate_excl(
    s: Seq<char>,
    k: nat,
    subj: Seq<char>,
    j: nat,
    st: Statement,
    k2: nat,
    allow_derives: bool,
    e: ParseError,
)
    requires
        predicate_ok(s, k, subj, j, st, k2, allow_derives),
    ensures
        !predicate_fails(s, j, e, allow_derives),
{
}

/// A statement that reads cannot also fail.
#[verifier::spinoff_prover]
#[verifier::rlimit(40)]
proof fn lemma_statement_excl(s: Seq<char>, k: nat, st: Statement, k2: nat, e: ParseError)
    requires
        statement_ok(s, k, st, k2),
    ensures
        !statement_fails(s, k, e),
{
    reveal(statement_ok);
    reveal(statement_fails);
    let t = tk(s, k);
    if t != TokenKind::Uses && t != TokenKind::Each && t != TokenKind::All {
        let subj = lx(s, k);
        let p = tk(s, k + 1);
        if is_statement_predicate(p) {
            lemma_predicate_excl(s, k, subj, k + 1, st, k2, true, e);
        } else if p == TokenKind::Identifier {
            let (ja, pa) = choose|j: nat, phrase: Seq<char>|
                #[trigger] ident_tail(s, k + 1, subj, phrase, j) && predicate_ok(
                    s,
                    k,
                    phrase,
                    j,
                    st,
                    k2,
                    false,
                );
            lemma_predicate_excl(s, k, pa, ja, st, k2, false, e);
            assert forall|j: nat, phrase: Seq<char>| #[trigger] ident_tail(s, k + 1, subj, phrase, j)
                implies !(if crate::parser::is_phrase_predicate(tk(s, j)) {
                predicate_fails(s, j, e, false)
            } else {
                e matches ParseError::InvalidStatement { message: m, span: c } && m@
                    == "expected predicate after '"@ + phrase + "'"@ && c == crate::parser::sp(s, j)
            }) by {
                lemma_ident_tail_unique(s, k + 1, subj, pa, ja, phrase, j);
            }
        }
    }
}

/// A statement list that reads cannot also fail.
#[verifier::spinoff_prover]
#[verifier::rlimit(40)]
proof fn lemma_statements_excl(s: Seq<char>, k: nat, ss: Seq<Statement>, j: nat, e: ParseError, n: nat)
    requires
        statements_ok(s, k, ss, j),
    ensures
        !statements_fail(s, k, e, n),
    decreases n,
{
    if statements_fail(s, k, e, n) {
        assert(ss.len() > 0);
        let k1 = choose|k1: nat|
            #[trigger] statement_ok(s, k, ss[0], k1) && statements_ok(s, k1, ss.drop_first(), j);
        if n == 0 {
            lemma_statement_excl(s, k, ss[0], k1, e);
        } else {
            let (st, k1b) = choose|st: Statement, k1: nat|
                #[trigger] statement_ok(s, k, st, k1) && statements_fail(s, k1, e, (n - 1) as nat);
            lemma_statement_unique(s, k, ss[0], k1, st, k1b);
            lemma_statements_excl(s, k1, ss.drop_first(), j, e, (n - 1) as nat);
        }
    }
}

/// A block that reads cannot also fail.
#[verifier::spinoff_prover]
#[verifier::rlimit(40)]
proof fn lemma_block_excl(
    s: Seq<char>,
    k: nat,
    kw: TokenKind,
    name: Seq<char>,
    ss: Seq<Statement>,
    ex: Seq<char>,
    span: Span,
    k2: nat,
    e: ParseError,
)
    requires
        block_ok(s, k, kw, name, ss, ex, span, k2),
    ensures
        !block_fails(s, k, e),
{
    let j = choose|j: nat|
        #[trigger] statements_ok(s, k + 3, ss, j) && tk(s, j) == TokenKind::RightBrace && exegesis_ok(
            s,
            j + 1,
            ex,
            k2,
        ) && span == span_from(s, k, k2);
    assert forall|n: nat| !#[trigger] statements_fail(s, k + 3, e, n) by {
        lemma_statements_excl(s, k + 3, ss, j, e, n);
    }
    assert forall|ss2: Seq<Statement>, j2: nat| #[trigger] statements_ok(s, k + 3, ss2, j2) implies j2 == j by {
        lemma_statements_unique(s, k + 3, ss, j, ss2, j2);
    }
}

/// The items of a system body that read cannot also fail.
#[verifier::spinoff_prover]
#[verifier::rlimit(40)]
proof fn lemma_system_items_excl(
    s: Seq<char>,
    k: nat,
    rs: Seq<Requirement>,
    ss: Seq<Statement>,
    j: nat,
    m: nat,
    e: ParseError,
    n: nat,
)
    requires
        system_items_ok(s, k, rs, ss, j, m),
    ensures
        !system_items_fail(s, k, e, n),
    decreases n,
{
    if system_items_fail(s, k, e, n) {
        assert(m > 0);
        if tk(s, k) == TokenKind::Requires {
            let k1 = choose|k1: nat|
                #[trigger] requirement_ok(s, k, rs[0], k1) && system_items_ok(
                    s,
                    k1,
                    rs.drop_first(),
                    ss,
                    j,
                    (m - 1) as nat,
                );
            if n > 0 {
                let k1b = choose|k1: nat|
                    #[trigger] system_item_step(s, k, k1) && system_items_fail(s, k1, e, (n - 1) as nat);
                let r = choose|r: Requirement| #[trigger] requirement_ok(s, k, r, k1b);
                lemma_requirement_unique(s, k, rs[0], k1, r, k1b);
                lemma_system_items_excl(s, k1, rs.drop_first(), ss, j, (m - 1) as nat, e, (n - 1) as nat);
            }
        } else {
            let k1 = choose|k1: nat|
                #[trigger] statement_ok(s, k, ss[0], k1) && system_items_ok(
                    s,
                    k1,
                    rs,
                    ss.drop_first(),
                    j,
                    (m - 1) as nat,
                );
            if n == 0 {
                lemma_statement_excl(s, k, ss[0], k1, e);
            } else {
                let k1b = choose|k1: nat|
                    #[trigger] system_item_step(s, k, k1) && system_items_fail(s, k1, e, (n - 1) as nat);
                let st = choose|st: Statement| #[trigger] statement_ok(s, k, st, k1b);
                lemma_statement_unique(s, k, ss[0], k1, st, k1b);
                lemma_system_items_excl(s, k1, rs, ss.drop_first(), j, (m - 1) as nat, e, (n - 1) as nat);
            }
        }
    }
}

/// A `system` declaration that reads cannot also fail.
#[verifier::spinoff_prover]
#[verifier::rlimit(40)]
proof fn lemma_system_excl(s: Seq<char>, k: nat, sys: crate::ast::System, k2: nat, e: ParseError)
    requires
        system_parse_ok(s, k, sys, k2),
    ensures
        !system_fails(s, k, e),
{
    let (j, m) = choose|j: nat, n: nat|
        #[trigger] system_items_ok(s, k + 5, sys.requirements@, sys.statements@, j, n) && tk(s, j)
            == TokenKind::RightBrace && exegesis_ok(s, j + 1, sys.exegesis@, k2) && sys.span
            == span_from(s, k, k2);
    assert forall|n: nat| !#[trigger] system_items_fail(s, k + 5, e, n) by {
        lemma_system_items_excl(s, k + 5, sys.requirements@, sys.statements@, j, m, e, n);
    }
    assert forall|rs: Seq<Requirement>, ss: Seq<Statement>, j2: nat, n2: nat| #[trigger] system_items_ok(
        s,
        k + 5,
        rs,
        ss,
        j2,
        n2,
    ) implies j2 == j by {
        lemma_system_items_unique(s, k + 5, sys.requirements@, sys.statements@, j, m, rs, ss, j2, n2);
    }
}

/// The changes of an evolution body that read cannot also fail.
#[verifier::spinoff_prover]
#[verifier::rlimit(80)]
proof fn lemma_evolution_items_excl(
    s: Seq<char>,
    k: nat,
    adds: Seq<Statement>,
    deps: Seq<Statement>,
    rems: Seq<Seq<char>>,
    why0: Option<Seq<char>>,
    why: Option<Seq<char>>,
    j: nat,
    m: nat,
    e: ParseError,
    n: nat,
)
    requires
        evolution_items_ok(s, k, adds, deps, rems, why0, why, j, m),
    ensures
        !evolution_items_fail(s, k, e, n),
    decreases n,
{
    if evolution_items_fail(s, k, e, n) {
        assert(m > 0);
        let t = tk(s, k);
        if n == 0 {
            if t == TokenKind::Adds {
                let k1 = choose|k1: nat|
                    #[trigger] statement_ok(s, k + 1, adds[0], k1) && evolution_items_ok(
                        s,
                        k1,
                        adds.drop_first(),
                        deps,
                        rems,
                        why0,
                        why,
                        j,
                        (m - 1) as nat,
                    );
                lemma_statement_excl(s, k + 1, adds[0], k1, e);
            } else if t == TokenKind::Deprecates {
                let k1 = choose|k1: nat|
                    #[trigger] statement_ok(s, k + 1, deps[0], k1) && evolution_items_ok(
                        s,
                        k1,
                        adds,
                        deps.drop_first(),
                        rems,
                        why0,
                        why,
                        j,
                        (m - 1) as nat,
                    );
                lemma_statement_excl(s, k + 1, deps[0], k1, e);
            }
        } else {
            let k1b = choose|k1: nat|
                #[trigger] evolution_step(s, k, k1) && evolution_items_fail(s, k1, e, (n - 1) as nat);
            if t == TokenKind::Adds {
                let k1 = choose|k1: nat|
                    #[trigger] statement_ok(s, k + 1, adds[0], k1) && evolution_items_ok(
                        s,
                        k1,
                        adds.drop_first(),
                        deps,
                        rems,
                        why0,
                        why,
                        j,
                        (m - 1) as nat,
                    );
                let st = choose|st: Statement| #[trigger] statement_ok(s, k + 1, st, k1b);
                lemma_statement_unique(s, k + 1, adds[0], k1, st, k1b);
                lemma_evolution_items_excl(s, k1, adds.drop_first(), deps, rems, why0, why, j, (m - 1) as nat, e, (n - 1) as nat);
            } else if t == TokenKind::Deprecates {
                let k1 = choose|k1: nat|
                    #[trigger] statement_ok(s, k + 1, deps[0], k1) && evolution_items_ok(
                        s,
                        k1,
                        adds,
                        deps.drop_first(),
                        rems,
                        why0,
                        why,
                        j,
                        (m - 1) as nat,
                    );
                let st = choose|st: Statement| #[trigger] statement_ok(s, k + 1, st, k1b);
                lemma_statement_unique(s, k + 1, deps[0], k1, st, k1b);
                lemma_evolution_items_excl(s, k1, adds, deps.drop_first(), rems, why0, why, j, (m - 1) as nat, e, (n - 1) as nat);
            } else if t == TokenKind::Removes {
                lemma_evolution_items_excl(s, k + 2, adds, deps, rems.drop_first(), why0, why, j, (m - 1) as nat, e, (n - 1) as nat);
            } else {
                lemma_evolution_items_excl(s, k + 2, adds, deps, rems, Some(lx(s, k + 1)), why, j, (m - 1) as nat, e, (n - 1) as nat);
            }
        }
    }
}

/// An `evolves` declaration that reads cannot also fail.
#[verifier::spinoff_prover]
#[verifier::rlimit(80)]
proof fn lemma_evolution_excl(s: Seq<char>, k: nat, d: Declaration, k2: nat, e: ParseError)
    requires
        evolution_ok(s, k, d, k2),
    ensures
        !evolution_fails(s, k, e),
{
    let ev = d->Evolution_0;
    let (j, m) = choose|j: nat, n: nat|
        #[trigger] evolution_items_ok(
            s,
            k + 7,
            ev.additions@,
            ev.deprecations@,
            names_view(ev.removals@),
            None,
            opt_view(ev.rationale),
            j,
            n,
        ) && tk(s, j) == TokenKind::RightBrace && exegesis_ok(s, j + 1, ev.exegesis@, k2)
            && ev.span == span_from(s, k, k2);
    assert forall|n: nat| !#[trigger] evolution_items_fail(s, k + 7, e, n) by {
        lemma_evolution_items_excl(
            s,
            k + 7,
            ev.additions@,
            ev.deprecations@,
            names_view(ev.removals@),
            None,
            opt_view(ev.rationale),
            j,
            m,
            e,
            n,
        );
    }
    assert forall|
        adds: Seq<Statement>,
        deps: Seq<Statement>,
        rems: Seq<Seq<char>>,
        why: Option<Seq<char>>,
        j2: nat,
        n2: nat,
    | #[trigger] evolution_items_ok(s, k + 7, adds, deps, rems, None, why, j2, n2) implies j2 == j by {
        lemma_evolution_items_unique(
            s,
            k + 7,
            None,
            ev.additions@,
            ev.deprecations@,
            names_view(ev.removals@),
            opt_view(ev.rationale),
            j,
            m,
            adds,
            deps,
            rems,
            why,
            j2,
            n2,
        );
    }
}

/// A declaration that reads cannot also fail.
proof fn lemma_declaration_excl(s: Seq<char>, k: nat, d: Declaration, k2: nat, e: ParseError)
    requires
        declaration_ok(s, k, d, k2),
    ensures
        !declaration_fails(s, k, e),
{
    match d {
        Declaration::Gene(g) => {
            lemma_block_excl(s, k, TokenKind::Gene, g.name@, g.statements@, g.exegesis@, g.span, k2, e);
        },
        Declaration::Trait(g) => {
            lemma_block_excl(s, k, TokenKind::Trait, g.name@, g.statements@, g.exegesis@, g.span, k2, e);
        },
        Declaration::Constraint(g) => {
            lemma_block_excl(s, k, TokenKind::Constraint, g.name@, g.statements@, g.exegesis@, g.span, k2, e);
        },
        Declaration::System(sys) => {
            lemma_system_excl(s, k, sys, k2, e);
        },
        Declaration::Evolution(_) => {
            lemma_evolution_excl(s, k, d, k2, e);
        },
        Declaration::Gen(_) => {},
        Declaration::Function(_) => {},
    }
}

/// A source never both parses and fails: when it parses to a declaration,
/// no error describes it.
pub proof fn lemma_parse_exclusive(s: Seq<char>, k: nat, d: Declaration, e: ParseError)
    ensures
        !(parses_to(s, k, d) && parse_fails(s, k, e)),
{
    if parses_to(s, k, d) {
        let k2 = choose|k2: nat| #[trigger] declaration_ok(s, k, d, k2) && tk(s, k2) == TokenKind::Eof;
        lemma_declaration_excl(s, k, d, k2, e);
        assert forall|d2: Declaration, k3: nat| #[trigger] declaration_ok(s, k, d2, k3) implies k3 == k2 by {
            lemma_declaration_unique(s, k, d, k2, d2, k3);
        }
    }
}


/// Whatever the parser returns for a source that parses to `d` is `d`: a
/// result that the parser's contract allows is a declaration, equal to
/// `d` field by field.
pub proof fn lemma_parse_result_pinned(
    s: Seq<char>,
    k: nat,
    r: Result<Declaration, ParseError>,
    d: Declaration,
)
    requires
        match r {
            Ok(d1) => parses_to(s, k, d1),
            Err(e) => parse_fails(s, k, e),
        },
        parses_to(s, k, d),
    ensures
        r matches Ok(d1) && declaration_view(d1) == declaration_view(d),
{
    match r {
        Ok(d1) => {
            lemma_parse_unique(s, k, d1, d);
        },
        Err(e) => {
            lemma_parse_exclusive(s, k, d, e);
        },
    }
}

} // verus!

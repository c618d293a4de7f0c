//! Semantic validation of HIR modules.
//!
//! Validation checks that every identifier resolves, that no scope defines
//! a name twice, that the statements of genes are well formed, and that
//! types, patterns and assignments make sense. It runs in two passes: the
//! first collects the top-level declarations, so that a declaration may
//! refer to one that comes after it; the second walks every declaration.
//!
//! What a pass does is stated as a function from the validation state (the
//! scopes, the diagnostics and the names referenced so far) to the next
//! state; the executable validator is proved to compute it.

use vstd::prelude::*;

use super::span::{span_in, HirId, Span, SpanMap};
use super::symbol::{Symbol, SymbolTable};
use super::types::{
    copy_type, HirFunctionType, HirDecl, HirExpr, HirField, HirFunctionDecl, HirMatchArm, HirModule, HirParam, HirPat,
    HirStatement, HirStatementKind, HirStmt, HirTraitItem, HirType, HirTypeDef, HirTypeParam,
    HirVariant,
};
use crate::text::{concat3, owned, spec_decimal, str_eq, u64_to_string, usize_to_string};

verus! {

// ---------------------------------------------------------------------------
// Diagnostics
// ---------------------------------------------------------------------------

/// Severity level for validation diagnostics.
#[derive(Debug, Clone, Copy, PartialEq, Eq, Structural)]
pub enum DiagnosticLevel {
    /// Error: must be fixed for valid HIR
    Error,
    /// Warning: may indicate a problem
    Warning,
    /// Note: additional information
    Note,
}

/// A validation error or warning.
#[derive(Debug)]
pub struct ValidationError {
    /// Error message
    pub message: String,
    /// Source span (if available)
    pub span: Option<Span>,
    /// Severity level
    pub level: DiagnosticLevel,
    /// Related HIR node ID (if available)
    pub node_id: Option<HirId>,
    /// Suggestion for fixing the error (if available)
    pub suggestion: Option<String>,
}

/// A diagnostic, as text and plain values.
#[verifier::ext_equal]
pub struct DiagModel {
    pub message: Seq<char>,
    pub span: Option<Span>,
    pub level: DiagnosticLevel,
    pub node_id: Option<HirId>,
    pub suggestion: Option<Seq<char>>,
}

/// The model of a diagnostic.
pub open spec fn diag_view(e: ValidationError) -> DiagModel {
    DiagModel {
        message: e.message@,
        span: e.span,
        level: e.level,
        node_id: e.node_id,
        suggestion: match e.suggestion {
            Some(s) => Some(s@),
            None => None,
        },
    }
}

/// The models of a list of diagnostics.
pub open spec fn diags_view(v: Seq<ValidationError>) -> Seq<DiagModel> {
    v.map_values(|e: ValidationError| diag_view(e))
}

/// A diagnostic of level `level` with message `m` and nothing else.
pub open spec fn plain(level: DiagnosticLevel, m: Seq<char>) -> DiagModel {
    DiagModel { message: m, span: None, level, node_id: None, suggestion: None }
}

/// An error with message `m`.
pub open spec fn err(m: Seq<char>) -> DiagModel {
    plain(DiagnosticLevel::Error, m)
}

/// `d` with the suggestion `s`.
pub open spec fn suggest(d: DiagModel, s: Seq<char>) -> DiagModel {
    DiagModel { suggestion: Some(s), ..d }
}

/// `d` about the node `id`.
pub open spec fn at_node(d: DiagModel, id: HirId) -> DiagModel {
    DiagModel { node_id: Some(id), ..d }
}

/// The text of a span: ` (at start..end)`.
pub open spec fn span_text(s: Span) -> Seq<char> {
    " (at "@ + spec_decimal(s.start as nat) + ".."@ + spec_decimal(s.end as nat) + ")"@
}

/// How a diagnostic is printed: its level, its message, where it is and
/// what to do about it.
pub open spec fn diag_text(d: DiagModel) -> Seq<char> {
    (match d.level {
        DiagnosticLevel::Error => "error"@,
        DiagnosticLevel::Warning => "warning"@,
        DiagnosticLevel::Note => "note"@,
    }) + ": "@ + d.message + (match d.span {
        Some(s) => span_text(s),
        None => Seq::empty(),
    }) + (match d.suggestion {
        Some(s) => "\n  suggestion: "@ + s,
        None => Seq::empty(),
    })
}

/// Whether some diagnostic of `ds` is an error.
pub open spec fn has_error(ds: Seq<DiagModel>) -> bool {
    exists|i: int| 0 <= i < ds.len() && ds[i].level == DiagnosticLevel::Error
}

/// The errors of `ds`, in order.
pub open spec fn errors_of(ds: Seq<DiagModel>) -> Seq<DiagModel> {
    ds.filter(|d: DiagModel| d.level == DiagnosticLevel::Error)
}

impl ValidationError {
    /// Create a new error.
    pub fn error(message: &str) -> (r: ValidationError)
        ensures
            diag_view(r) == err(message@),
    {
        ValidationError {
            message: owned(message),
            span: None,
            level: DiagnosticLevel::Error,
            node_id: None,
            suggestion: None,
        }
    }

    /// Create a new warning.
    pub fn warning(message: &str) -> (r: ValidationError)
        ensures
            diag_view(r) == plain(DiagnosticLevel::Warning, message@),
    {
        ValidationError {
            message: owned(message),
            span: None,
            level: DiagnosticLevel::Warning,
            node_id: None,
            suggestion: None,
        }
    }

    /// Add a span to this error.
    pub fn with_span(self, span: Span) -> (r: ValidationError)
        ensures
            diag_view(r) == (DiagModel { span: Some(span), ..diag_view(self) }),
    {
        ValidationError { span: Some(span), ..self }
    }

    /// Add a node ID to this error.
    pub fn with_node(self, id: HirId) -> (r: ValidationError)
        ensures
            diag_view(r) == at_node(diag_view(self), id),
    {
        ValidationError { node_id: Some(id), ..self }
    }

    /// Add a suggestion to this error.
    pub fn with_suggestion(self, suggestion: &str) -> (r: ValidationError)
        ensures
            diag_view(r) == suggest(diag_view(self), suggestion@),
    {
        ValidationError { suggestion: Some(owned(suggestion)), ..self }
    }

    /// Check if this is an error (not a warning).
    pub fn is_error(&self) -> (r: bool)
        ensures
            r == (self.level == DiagnosticLevel::Error),
    {
        match self.level {
            DiagnosticLevel::Error => true,
            _ => false,
        }
    }

    /// The diagnostic as printed: `level: message`, then ` (at a..b)` when
    /// it has a span, then a line with the suggestion when it has one.
    pub fn display(&self) -> (r: String)
        ensures
            r@ == diag_text(diag_view(*self)),
    {
        let mut s = match self.level {
            DiagnosticLevel::Error => owned("error"),
            DiagnosticLevel::Warning => owned("warning"),
            DiagnosticLevel::Note => owned("note"),
        };
        s.append(": ");
        s.append(self.message.as_str());
        match &self.span {
            Some(sp) => {
                s.append(" (at ");
                s.append(u64_to_string(sp.start as u64).as_str());
                s.append("..");
                s.append(u64_to_string(sp.end as u64).as_str());
                s.append(")");
            },
            None => {},
        }
        match &self.suggestion {
            Some(x) => {
                s.append("\n  suggestion: ");
                s.append(x.as_str());
            },
            None => {},
        }
        s
    }
}

// ---------------------------------------------------------------------------
// Symbols and scopes
// ---------------------------------------------------------------------------

/// Kind of symbol in the symbol table.
#[derive(Debug, Clone, Copy, PartialEq, Eq, Structural)]
pub enum SymbolKind {
    /// Type definition (gene, struct, enum)
    Type,
    /// Trait definition
    Trait,
    /// Function definition
    Function,
    /// Module definition
    Module,
    /// Variable binding
    Variable,
    /// Type parameter
    TypeParam,
    /// Field name
    Field,
    /// Variant name
    Variant,
}

/// Information about a declared symbol.
#[derive(Debug)]
pub struct SymbolInfo {
    /// The symbol's name
    pub name: Symbol,
    /// The kind of symbol
    pub kind: SymbolKind,
    /// The HIR ID of the defining node
    pub defined_at: HirId,
    /// The type of the symbol (if known)
    pub ty: Option<HirType>,
}

/// What the checks read of a symbol: its name, kind and defining node.
/// (The recorded type is carried along; no check reads it.)
pub struct InfoModel {
    pub name: Symbol,
    pub kind: SymbolKind,
    pub defined_at: HirId,
}

/// The model of symbol information.
pub open spec fn info_view(i: SymbolInfo) -> InfoModel {
    InfoModel { name: i.name, kind: i.kind, defined_at: i.defined_at }
}

/// The binding of `name` in one scope: the first pair for it.
pub open spec fn find_in(scope: Seq<(Symbol, InfoModel)>, name: Symbol) -> Option<InfoModel>
    decreases scope.len(),
{
    if scope.len() == 0 {
        None
    } else if scope[0].0 == name {
        Some(scope[0].1)
    } else {
        find_in(scope.drop_first(), name)
    }
}

/// The binding of `name` in the innermost scope that binds it.
pub open spec fn lookup_in(scopes: Seq<Seq<(Symbol, InfoModel)>>, name: Symbol) -> Option<InfoModel>
    decreases scopes.len(),
{
    if scopes.len() == 0 {
        None
    } else {
        match find_in(scopes.last(), name) {
            Some(i) => Some(i),
            None => lookup_in(scopes.drop_last(), name),
        }
    }
}

/// The state of validation: the scopes from the outermost, the
/// diagnostics in the order they were found, the names referenced so far,
/// and whether a loop encloses the current point.
#[verifier::ext_equal]
pub struct VState {
    pub scopes: Seq<Seq<(Symbol, InfoModel)>>,
    pub diags: Seq<DiagModel>,
    pub refs: Set<Symbol>,
    pub in_loop: bool,
}

/// What validation reads of its inputs: the interned names and the spans.
pub struct Env {
    pub names: Seq<Seq<char>>,
    pub spans: Seq<(HirId, Span)>,
}

/// The name of `sym`, or `<unknown>` when it was never interned.
pub open spec fn name_of(env: Env, sym: Symbol) -> Seq<char> {
    if sym.0 < env.names.len() {
        env.names[sym.0 as int]
    } else {
        "<unknown>"@
    }
}

/// `name` in backquotes.
pub open spec fn quoted(env: Env, name: Symbol) -> Seq<char> {
    "`"@ + name_of(env, name) + "`"@
}

/// The state with one more diagnostic.
pub open spec fn report(st: VState, d: DiagModel) -> VState {
    VState { diags: st.diags.push(d), ..st }
}

/// The state with `name` referenced.
pub open spec fn mark(st: VState, name: Symbol) -> VState {
    VState { refs: st.refs.insert(name), ..st }
}

/// The state with a new, empty innermost scope.
pub open spec fn push(st: VState) -> VState {
    VState { scopes: st.scopes.push(Seq::empty()), ..st }
}

/// The state without its innermost scope.
pub open spec fn pop(st: VState) -> VState {
    VState { scopes: st.scopes.drop_last(), ..st }
}

/// How `HirId` prints: `HirId(n)`.
pub open spec fn id_text(id: HirId) -> Seq<char> {
    "HirId("@ + spec_decimal(id.0 as nat) + ")"@
}

/// The error that defining `info` under `name` in the innermost scope
/// gives, if that scope binds `name` already.
pub open spec fn define_error(env: Env, st: VState, name: Symbol, info: InfoModel) -> Option<DiagModel> {
    match find_in(st.scopes.last(), name) {
        Some(existing) => Some(
            suggest(
                at_node(err("duplicate definition of "@ + quoted(env, name)), info.defined_at),
                quoted(env, name) + " was previously defined at node "@ + id_text(
                    existing.defined_at,
                ),
            ),
        ),
        None => None,
    }
}

/// The state after defining `info` under `name` in the innermost scope,
/// when that succeeds.
pub open spec fn bind(st: VState, name: Symbol, info: InfoModel) -> VState {
    VState {
        scopes: st.scopes.update(st.scopes.len() - 1, st.scopes.last().push((name, info))),
        ..st
    }
}

/// Defining a symbol where a failure is reported as it is.
pub open spec fn define_or_report(env: Env, st: VState, name: Symbol, info: InfoModel) -> VState {
    match define_error(env, st, name, info) {
        Some(d) => report(st, d),
        None => bind(st, name, info),
    }
}

// ---------------------------------------------------------------------------
// The checks, as state transitions
// ---------------------------------------------------------------------------

/// Whether `name` is one of the built-in type names.
pub open spec fn is_builtin(name: Seq<char>) -> bool {
    name == "Bool"@ || name == "Int"@ || name == "Float"@ || name == "String"@ || name == "Unit"@
        || name == "Never"@ || name == "i8"@ || name == "i16"@ || name == "i32"@ || name
        == "i64"@ || name == "i128"@ || name == "u8"@ || name == "u16"@ || name == "u32"@ || name
        == "u64"@ || name == "u128"@ || name == "f32"@ || name == "f64"@ || name == "bool"@
        || name == "char"@ || name == "str"@ || name == "Self"@ || name == "self"@
}

/// Checking a reference to the named type `name` (before its arguments).
pub open spec fn named_step(env: Env, st: VState, name: Symbol) -> VState {
    match lookup_in(st.scopes, name) {
        Some(info) => mark(
            if info.kind == SymbolKind::Type || info.kind == SymbolKind::TypeParam {
                st
            } else {
                report(st, err(quoted(env, name) + " is not a type"@))
            },
            name,
        ),
        None => if is_builtin(name_of(env, name)) {
            st
        } else {
            report(
                st,
                suggest(
                    err("undefined type "@ + quoted(env, name)),
                    "make sure the type is defined or imported"@,
                ),
            )
        },
    }
}

/// Checking a type.
pub open spec fn ty_step(env: Env, st: VState, t: HirType) -> VState
    decreases t, 0nat,
{
    match t {
        HirType::Named(n) => tys_step(env, named_step(env, st, n.name), n.args@, 0),
        HirType::Tuple(ts) => tys_step(env, st, ts@, 0),
        HirType::Array(a) => ty_step(env, st, a.elem),
        HirType::Function(f) => ty_step(env, tys_step(env, st, f.params@, 0), f.ret),
        HirType::Ref(r) => ty_step(env, st, r.ty),
        HirType::Optional(inner) => ty_step(env, st, *inner),
        HirType::Var(_) => st,
        HirType::Error => st,
    }
}

/// Checking the types `ts[i..]` in order.
pub open spec fn tys_step(env: Env, st: VState, ts: Seq<HirType>, i: nat) -> VState
    decreases ts, ts.len() - i,
{
    if i < ts.len() {
        tys_step(env, ty_step(env, st, ts[i as int]), ts, i + 1)
    } else {
        st
    }
}

/// Checking an optional type.
pub open spec fn opt_ty_step(env: Env, st: VState, t: Option<HirType>) -> VState {
    match t {
        Some(t) => ty_step(env, st, t),
        None => st,
    }
}

/// The variables that a pattern binds, in order.
pub open spec fn pat_vars(p: HirPat) -> Seq<Symbol>
    decreases p, 0nat,
{
    match p {
        HirPat::Var(name) => seq![name],
        HirPat::Constructor(c) => pats_vars(c.fields@, 0),
        HirPat::Tuple(ps) => pats_vars(ps@, 0),
        HirPat::Or(ps) => if ps@.len() > 0 {
            pat_vars(ps@[0])
        } else {
            Seq::empty()
        },
        _ => Seq::empty(),
    }
}

/// The variables that the patterns `ps[i..]` bind, in order.
pub open spec fn pats_vars(ps: Seq<HirPat>, i: nat) -> Seq<Symbol>
    decreases ps, ps.len() - i,
{
    if i < ps.len() {
        pat_vars(ps[i as int]) + pats_vars(ps, i + 1)
    } else {
        Seq::empty()
    }
}

/// Checking that the alternatives `ps[i..]` of an or-pattern bind the
/// variables `first`.
pub open spec fn or_check(env: Env, st: VState, ps: Seq<HirPat>, i: nat, first: Set<Symbol>) -> VState
    decreases ps.len() - i,
{
    if i < ps.len() {
        or_check(
            env,
            if pat_vars(ps[i as int]).to_set() != first {
                report(
                    st,
                    suggest(
                        err(
                            "or-pattern alternative "@ + spec_decimal(i + 1)
                                + " binds different variables"@,
                        ),
                        "all alternatives must bind the same variables"@,
                    ),
                )
            } else {
                st
            },
            ps,
            i + 1,
            first,
        )
    } else {
        st
    }
}

/// Checking a pattern and binding its variables; `cid` is the node that
/// the bindings are recorded at.
pub open spec fn pat_step(env: Env, st: VState, p: HirPat, cid: HirId) -> VState
    decreases p, 0nat,
{
    match p {
        HirPat::Wildcard => st,
        HirPat::Literal(_) => st,
        HirPat::Var(name) => define_or_report(
            env,
            st,
            name,
            InfoModel { name, kind: SymbolKind::Variable, defined_at: cid },
        ),
        HirPat::Constructor(c) => pats_step(
            env,
            match lookup_in(st.scopes, c.name) {
                None => report(
                    st,
                    suggest(
                        err("undefined constructor "@ + quoted(env, c.name)),
                        "make sure the type variant is defined"@,
                    ),
                ),
                Some(_) => mark(st, c.name),
            },
            c.fields@,
            0,
            cid,
        ),
        HirPat::Tuple(ps) => pats_step(env, st, ps@, 0, cid),
        HirPat::Or(ps) => if ps@.len() == 0 {
            report(st, err("empty or-pattern"@))
        } else {
            pat_step(
                env,
                alts_step(env, or_check(env, st, ps@, 1, pat_vars(ps@[0]).to_set()), ps@, 0, cid),
                ps@[0],
                cid,
            )
        },
    }
}

/// Checking the patterns `ps[i..]` in order.
pub open spec fn pats_step(env: Env, st: VState, ps: Seq<HirPat>, i: nat, cid: HirId) -> VState
    decreases ps, ps.len() - i,
{
    if i < ps.len() {
        pats_step(env, pat_step(env, st, ps[i as int], cid), ps, i + 1, cid)
    } else {
        st
    }
}

/// Checking the alternatives `ps[i..]` of an or-pattern, each in a scope
/// of its own.
pub open spec fn alts_step(env: Env, st: VState, ps: Seq<HirPat>, i: nat, cid: HirId) -> VState
    decreases ps, ps.len() - i,
{
    if i < ps.len() {
        alts_step(env, pop(pat_step(env, push(st), ps[i as int], cid)), ps, i + 1, cid)
    } else {
        st
    }
}

/// Whether an expression can be assigned to: a variable, or a field or
/// index of one.
pub open spec fn is_place(e: HirExpr) -> bool
    decreases e,
{
    match e {
        HirExpr::Var(_) => true,
        HirExpr::Field(f) => is_place(f.base),
        HirExpr::Index(x) => is_place(x.base),
        _ => false,
    }
}

/// Checking an expression.
pub open spec fn expr_step(env: Env, st: VState, e: HirExpr) -> VState
    decreases e, 0nat,
{
    match e {
        HirExpr::Var(name) => match lookup_in(st.scopes, name) {
            None => report(
                st,
                suggest(
                    err("undefined variable "@ + quoted(env, name)),
                    "make sure the variable is defined before use"@,
                ),
            ),
            Some(_) => mark(st, name),
        },
        HirExpr::Binary(b) => expr_step(env, expr_step(env, st, b.left), b.right),
        HirExpr::Unary(u) => expr_step(env, st, u.operand),
        HirExpr::Call(c) => exprs_step(env, expr_step(env, st, c.func), c.args@, 0),
        HirExpr::MethodCall(c) => exprs_step(env, expr_step(env, st, c.receiver), c.args@, 0),
        HirExpr::Field(f) => expr_step(env, st, f.base),
        HirExpr::Index(x) => expr_step(env, expr_step(env, st, x.base), x.index),
        HirExpr::Block(b) => {
            let s1 = stmts_step(env, push(st), b.stmts@, 0);
            pop(
                match b.expr {
                    Some(x) => expr_step(env, s1, x),
                    None => s1,
                },
            )
        },
        HirExpr::If(x) => {
            let s1 = expr_step(env, expr_step(env, st, x.cond), x.then_branch);
            match x.else_branch {
                Some(y) => expr_step(env, s1, y),
                None => s1,
            }
        },
        HirExpr::Match(m) => arms_step(env, expr_step(env, st, m.scrutinee), m.arms@, 0),
        HirExpr::Lambda(l) => {
            let s1 = params_step(env, push(st), l.params@, 0, HirId(0));
            pop(expr_step(env, opt_ty_step(env, s1, l.return_type), l.body))
        },
        HirExpr::Literal(_) => st,
    }
}

/// Checking the expressions `es[i..]` in order.
pub open spec fn exprs_step(env: Env, st: VState, es: Seq<HirExpr>, i: nat) -> VState
    decreases es, es.len() - i,
{
    if i < es.len() {
        exprs_step(env, expr_step(env, st, es[i as int]), es, i + 1)
    } else {
        st
    }
}

/// Checking a match arm in a scope of its own: its pattern, its guard,
/// its body.
pub open spec fn arm_step(env: Env, st: VState, a: HirMatchArm) -> VState
    decreases a, 0nat,
{
    let s1 = pat_step(env, push(st), a.pat, HirId(0));
    let s2 = match a.guard {
        Some(g) => expr_step(env, s1, g),
        None => s1,
    };
    pop(expr_step(env, s2, a.body))
}

/// Checking the match arms `arms[i..]` in order.
pub open spec fn arms_step(env: Env, st: VState, arms: Seq<HirMatchArm>, i: nat) -> VState
    decreases arms, arms.len() - i,
{
    if i < arms.len() {
        arms_step(env, arm_step(env, st, arms[i as int]), arms, i + 1)
    } else {
        st
    }
}

/// Checking the parameters `ps[i..]`: each pattern, then its type.
pub open spec fn params_step(env: Env, st: VState, ps: Seq<HirParam>, i: nat, cid: HirId) -> VState
    decreases ps.len() - i,
{
    if i < ps.len() {
        params_step(
            env,
            ty_step(env, pat_step(env, st, ps[i as int].pat, cid), ps[i as int].ty),
            ps,
            i + 1,
            cid,
        )
    } else {
        st
    }
}

/// Checking a statement.
pub open spec fn stmt_step(env: Env, st: VState, s: HirStmt) -> VState
    decreases s, 0nat,
{
    match s {
        HirStmt::Val(v) => pat_step(
            env,
            opt_ty_step(env, expr_step(env, st, v.init), v.ty),
            v.pat,
            HirId(0),
        ),
        HirStmt::Var(v) => pat_step(
            env,
            opt_ty_step(env, expr_step(env, st, v.init), v.ty),
            v.pat,
            HirId(0),
        ),
        HirStmt::Assign(a) => {
            let s1 = if is_place(a.lhs) {
                st
            } else {
                report(
                    st,
                    suggest(
                        err("invalid assignment target"@),
                        "left-hand side must be a variable, field, or index"@,
                    ),
                )
            };
            expr_step(env, expr_step(env, s1, a.lhs), a.rhs)
        },
        HirStmt::Expr(x) => expr_step(env, st, x),
        HirStmt::Return(o) => match o {
            Some(x) => expr_step(env, st, x),
            None => st,
        },
        HirStmt::Break(o) => {
            let s1 = if st.in_loop {
                st
            } else {
                report(
                    st,
                    suggest(
                        err("`break` outside of loop"@),
                        "break can only be used inside a loop"@,
                    ),
                )
            };
            match o {
                Some(x) => expr_step(env, s1, x),
                None => s1,
            }
        },
    }
}

/// Checking the statements `ss[i..]` in order.
pub open spec fn stmts_step(env: Env, st: VState, ss: Seq<HirStmt>, i: nat) -> VState
    decreases ss, ss.len() - i,
{
    if i < ss.len() {
        stmts_step(env, stmt_step(env, st, ss[i as int]), ss, i + 1)
    } else {
        st
    }
}

/// Checking the type parameters `tps[i..]`: each is defined, then its
/// bounds are checked.
pub open spec fn type_params_step(env: Env, st: VState, tps: Seq<HirTypeParam>, i: nat, cid: HirId) -> VState
    decreases tps.len() - i,
{
    if i < tps.len() {
        let p = tps[i as int];
        type_params_step(
            env,
            tys_step(
                env,
                define_or_report(
                    env,
                    st,
                    p.name,
                    InfoModel { name: p.name, kind: SymbolKind::TypeParam, defined_at: cid },
                ),
                p.bounds@,
                0,
            ),
            tps,
            i + 1,
            cid,
        )
    } else {
        st
    }
}

/// Checking the fields `fs[i..]` of a struct, after the names `seen`.
pub open spec fn fields_step(env: Env, st: VState, fs: Seq<HirField>, i: nat, seen: Set<Symbol>) -> VState
    decreases fs.len() - i,
{
    if i < fs.len() {
        let f = fs[i as int];
        let s1 = if seen.contains(f.name) {
            report(st, err("duplicate field "@ + quoted(env, f.name)))
        } else {
            st
        };
        fields_step(env, ty_step(env, s1, f.ty), fs, i + 1, seen.insert(f.name))
    } else {
        st
    }
}

/// Checking the variants `vs[i..]` of an enum, after the names `seen`.
pub open spec fn variants_step(env: Env, st: VState, vs: Seq<HirVariant>, i: nat, seen: Set<Symbol>) -> VState
    decreases vs.len() - i,
{
    if i < vs.len() {
        let v = vs[i as int];
        let s1 = if seen.contains(v.name) {
            report(st, err("duplicate variant "@ + quoted(env, v.name)))
        } else {
            st
        };
        variants_step(env, opt_ty_step(env, s1, v.payload), vs, i + 1, seen.insert(v.name))
    } else {
        st
    }
}

/// The check of the two names of a gene statement: an error for each that
/// is empty.
pub open spec fn names_check(
    env: Env,
    st: VState,
    a: Symbol,
    b: Symbol,
    what: Seq<char>,
    second: Seq<char>,
    id: HirId,
) -> VState {
    let s1 = if name_of(env, a).len() == 0 {
        report(st, at_node(err("empty subject in '"@ + what + "' statement"@), id))
    } else {
        st
    };
    if name_of(env, b).len() == 0 {
        report(s1, at_node(err("empty "@ + second + " in '"@ + what + "' statement"@), id))
    } else {
        s1
    }
}

/// Checking a gene statement.
pub open spec fn gene_stmt_step(env: Env, st: VState, s: HirStatement) -> VState {
    match s.kind {
        HirStatementKind::Has { subject, property } => names_check(
            env,
            st,
            subject,
            property,
            "has"@,
            "property"@,
            s.id,
        ),
        HirStatementKind::Is { subject, ty } => names_check(
            env,
            st,
            subject,
            ty,
            "is"@,
            "type name"@,
            s.id,
        ),
        HirStatementKind::DerivesFrom { subject, parent } => {
            let s1 = names_check(env, st, subject, parent, "derives_from"@, "parent"@, s.id);
            if subject == parent {
                report(
                    s1,
                    suggest(
                        at_node(
                            plain(
                                DiagnosticLevel::Warning,
                                "type "@ + quoted(env, subject) + " derives from itself"@,
                            ),
                            s.id,
                        ),
                        "a type cannot derive from itself"@,
                    ),
                )
            } else {
                s1
            }
        },
        HirStatementKind::Requires { subject, dependency } => {
            let s1 = names_check(env, st, subject, dependency, "requires"@, "dependency"@, s.id);
            if subject == dependency {
                report(
                    s1,
                    suggest(
                        at_node(
                            plain(DiagnosticLevel::Warning, quoted(env, subject) + " requires itself"@),
                            s.id,
                        ),
                        "a gene cannot require itself"@,
                    ),
                )
            } else {
                s1
            }
        },
        HirStatementKind::Uses { subject, resource } => names_check(
            env,
            st,
            subject,
            resource,
            "uses"@,
            "resource"@,
            s.id,
        ),
    }
}

/// Checking the gene statements `ss[i..]` in order.
pub open spec fn gene_stmts_step(env: Env, st: VState, ss: Seq<HirStatement>, i: nat) -> VState
    decreases ss.len() - i,
{
    if i < ss.len() {
        gene_stmts_step(env, gene_stmt_step(env, st, ss[i as int]), ss, i + 1)
    } else {
        st
    }
}

/// Checking the body of a type declaration.
pub open spec fn type_def_step(env: Env, st: VState, def: HirTypeDef) -> VState {
    match def {
        HirTypeDef::Alias(t) => ty_step(env, st, t),
        HirTypeDef::Struct(fs) => fields_step(env, st, fs@, 0, Set::empty()),
        HirTypeDef::Enum(vs) => variants_step(env, st, vs@, 0, Set::empty()),
        HirTypeDef::Gene(ss) => gene_stmts_step(env, st, ss@, 0),
    }
}

/// Checking a function declaration, in a scope of its own.
pub open spec fn function_step(env: Env, st: VState, f: HirFunctionDecl) -> VState {
    let s1 = type_params_step(env, push(st), f.type_params@, 0, f.id);
    let s2 = ty_step(env, params_step(env, s1, f.params@, 0, f.id), f.return_type);
    pop(
        match f.body {
            Some(b) => expr_step(env, s2, b),
            None => s2,
        },
    )
}

/// Checking the items `items[i..]` of a trait declared at `cid`.
pub open spec fn trait_items_step(env: Env, st: VState, items: Seq<HirTraitItem>, i: nat, cid: HirId) -> VState
    decreases items.len() - i,
{
    if i < items.len() {
        let s1 = match items[i as int] {
            HirTraitItem::Method(f) => function_step(env, st, f),
            HirTraitItem::AssocType(a) => opt_ty_step(env, tys_step(env, st, a.bounds@, 0), a.default),
        };
        trait_items_step(env, s1, items, i + 1, cid)
    } else {
        st
    }
}

/// Checking a declaration.
pub open spec fn decl_step(env: Env, st: VState, d: HirDecl) -> VState
    decreases d, 0nat,
{
    match d {
        HirDecl::Type(t) => pop(
            type_def_step(env, type_params_step(env, push(st), t.type_params@, 0, t.id), t.body),
        ),
        HirDecl::Trait(t) => {
            let s1 = tys_step(env, type_params_step(env, push(st), t.type_params@, 0, t.id), t.bounds@, 0);
            pop(trait_items_step(env, s1, t.items@, 0, t.id))
        },
        HirDecl::Function(f) => function_step(env, st, f),
        HirDecl::Module(m) => pop(decls_step(env, push(st), m.decls@, 0)),
    }
}

/// Checking the declarations `ds[i..]` in order.
pub open spec fn decls_step(env: Env, st: VState, ds: Seq<HirDecl>, i: nat) -> VState
    decreases ds, ds.len() - i,
{
    if i < ds.len() {
        decls_step(env, decl_step(env, st, ds[i as int]), ds, i + 1)
    } else {
        st
    }
}

/// Defining a declared name; a duplicate is reported with the span of the
/// declaration.
pub open spec fn collect_define(env: Env, st: VState, name: Symbol, kind: SymbolKind, id: HirId) -> VState {
    let info = InfoModel { name, kind, defined_at: id };
    match define_error(env, st, name, info) {
        Some(d) => report(st, DiagModel { span: Some(span_in(env.spans, id)), ..d }),
        None => bind(st, name, info),
    }
}

/// The first pass over a declaration: its name is defined, and the names
/// of a module's declarations in a scope of their own.
pub open spec fn collect_step(env: Env, st: VState, d: HirDecl) -> VState
    decreases d, 0nat,
{
    match d {
        HirDecl::Type(t) => collect_define(env, st, t.name, SymbolKind::Type, t.id),
        HirDecl::Trait(t) => collect_define(env, st, t.name, SymbolKind::Trait, t.id),
        HirDecl::Function(f) => collect_define(env, st, f.name, SymbolKind::Function, f.id),
        HirDecl::Module(m) => pop(
            collects_step(
                env,
                push(collect_define(env, st, m.name, SymbolKind::Module, m.id)),
                m.decls@,
                0,
            ),
        ),
    }
}

/// The first pass over the declarations `ds[i..]` in order.
pub open spec fn collects_step(env: Env, st: VState, ds: Seq<HirDecl>, i: nat) -> VState
    decreases ds, ds.len() - i,
{
    if i < ds.len() {
        collects_step(env, collect_step(env, st, ds[i as int]), ds, i + 1)
    } else {
        st
    }
}

/// The state validation starts from: one empty scope, no diagnostics.
pub open spec fn initial() -> VState {
    VState { scopes: seq![Seq::empty()], diags: Seq::empty(), refs: Set::empty(), in_loop: false }
}

/// The diagnostics of validating `m`: both passes, from the initial state.
pub open spec fn module_diagnostics(env: Env, m: HirModule) -> Seq<DiagModel> {
    decls_step(env, collects_step(env, initial(), m.decls@, 0), m.decls@, 0).diags
}


// ---------------------------------------------------------------------------
// The validation context
// ---------------------------------------------------------------------------

/// A scope: the symbols defined in it, in the order of their definition.
struct Scope {
    symbols: Vec<(Symbol, SymbolInfo)>,
}

/// The model of a scope.
pub closed spec fn scope_view(s: Scope) -> Seq<(Symbol, InfoModel)> {
    s.symbols@.map_values(|p: (Symbol, SymbolInfo)| (p.0, info_view(p.1)))
}

/// Context for HIR validation.
///
/// Tracks symbols, types, and diagnostics during validation.
pub struct ValidationContext<'a> {
    /// Symbol table for resolving names to strings
    pub symbols: &'a SymbolTable,
    /// Span map for error reporting
    pub spans: &'a SpanMap,
    /// Scope stack for symbol resolution
    scopes: Vec<Scope>,
    /// Collected diagnostics
    diagnostics: Vec<ValidationError>,
    /// Symbols that have been referenced
    referenced_symbols: Vec<Symbol>,
    /// Current function return type
    current_return_type: Option<HirType>,
    /// Whether we're inside a loop (for break validation)
    in_loop: bool,
}

impl<'a> ValidationContext<'a> {
    /// The state of validation.
    pub closed spec fn state(&self) -> VState {
        VState {
            scopes: self.scopes@.map_values(|s: Scope| scope_view(s)),
            diags: diags_view(self.diagnostics@),
            refs: self.referenced_symbols@.to_set(),
            in_loop: self.in_loop,
        }
    }

    /// What validation reads of its inputs.
    pub closed spec fn env(&self) -> Env {
        Env { names: self.symbols.names(), spans: self.spans.entries() }
    }

    /// Create a new validation context, with one (global) scope.
    pub fn new(symbols: &'a SymbolTable, spans: &'a SpanMap) -> (r: ValidationContext<'a>)
        ensures
            r.state() == initial(),
            r.env() == (Env { names: symbols.names(), spans: spans.entries() }),
    {
        let r = ValidationContext {
            symbols,
            spans,
            scopes: vec![Scope { symbols: Vec::new() }],
            diagnostics: Vec::new(),
            referenced_symbols: Vec::new(),
            current_return_type: None,
            in_loop: false,
        };
        proof {
            assert(scope_view(r.scopes@[0]) =~= Seq::<(Symbol, InfoModel)>::empty());
            assert(r.state().scopes =~= initial().scopes);
            assert(r.state().diags =~= Seq::<DiagModel>::empty());
            assert(r.state().refs =~= Set::<Symbol>::empty());
        }
        r
    }

    /// Push a new scope.
    pub fn push_scope(&mut self)
        ensures
            final(self).state() == push(old(self).state()),
            final(self).env() == old(self).env(),
    {
        let ghost before = self.state();
        let sc = Scope { symbols: Vec::new() };
        assert(scope_view(sc) =~= Seq::<(Symbol, InfoModel)>::empty());
        self.scopes.push(sc);
        proof {
            assert(self.state().scopes =~= before.scopes.push(Seq::empty()));
        }
    }

    /// Pop the current scope.
    pub fn pop_scope(&mut self)
        ensures
            old(self).state().scopes.len() > 0 ==> final(self).state() == pop(old(self).state()),
            old(self).state().scopes.len() == 0 ==> final(self).state() == old(self).state(),
            final(self).env() == old(self).env(),
    {
        let ghost before = self.state();
        let _ = self.scopes.pop();
        proof {
            if before.scopes.len() > 0 {
                assert(self.state().scopes =~= before.scopes.drop_last());
            } else {
                assert(self.state().scopes =~= before.scopes);
            }
        }
    }

    /// The binding of `name` in the innermost scope, found by a search.
    fn find_innermost(&self, name: Symbol) -> (r: Option<usize>)
        requires
            self.scopes@.len() > 0,
        ensures
            match r {
                Some(j) => j < self.scopes@.last().symbols@.len() && find_in(
                    self.state().scopes.last(),
                    name,
                ) == Some(info_view(self.scopes@.last().symbols@[j as int].1)),
                None => find_in(self.state().scopes.last(), name) is None,
            },
    {
        let last = &self.scopes[self.scopes.len() - 1];
        let ghost sv = scope_view(*last);
        assert(*last == self.scopes@.last());
        assert(self.state().scopes.last() == sv);
        let mut i: usize = 0;
        assert(sv.skip(0) =~= sv);
        while i < last.symbols.len()
            invariant
                i <= last.symbols@.len(),
                self.scopes@.len() > 0,
                *last == self.scopes@.last(),
                self.state().scopes.last() == sv,
                sv == scope_view(*last),
                find_in(sv, name) == find_in(sv.skip(i as int), name),
                forall|j: int| 0 <= j < i ==> last.symbols@[j].0 != name,
            decreases last.symbols.len() - i,
        {
            assert(sv.skip(i as int).drop_first() =~= sv.skip(i + 1));
            assert(sv[i as int] == (last.symbols@[i as int].0, info_view(last.symbols@[i as int].1)));
            assert(sv.skip(i as int)[0] == sv[i as int]);
            if last.symbols[i].0 == name {
                return Some(i);
            }
            i = i + 1;
        }
        None
    }

    /// Define a symbol in the current scope.
    ///
    /// Returns an error if the symbol is already defined in this scope.
    pub fn define(&mut self, name: Symbol, info: SymbolInfo) -> (r: Result<(), ValidationError>)
        requires
            old(self).state().scopes.len() > 0,
        ensures
            final(self).env() == old(self).env(),
            r is Ok ==> define_error(old(self).env(), old(self).state(), name, info_view(info))
                is None,
            r is Ok ==> final(self).state() == bind(old(self).state(), name, info_view(info)),
            r matches Err(e) ==> define_error(old(self).env(), old(self).state(), name, info_view(info))
                == Some(diag_view(e)),
            r is Err ==> final(self).state() == old(self).state(),
    {
        match self.find_innermost(name) {
            Some(j) => {
                let n = self.scopes.len();
                let existing = self.scopes[n - 1].symbols[j].1.defined_at;
                let name_str = self.resolve_name(name);
                let q = concat3("`", name_str, "`");
                let mut msg = owned("duplicate definition of ");
                msg.append(q.as_str());
                let mut sug = owned(q.as_str());
                sug.append(" was previously defined at node ");
                sug.append("HirId(");
                sug.append(u64_to_string(existing.0 as u64).as_str());
                sug.append(")");
                let e = ValidationError::error(msg.as_str()).with_node(info.defined_at).with_suggestion(
                    sug.as_str(),
                );
                Err(e)
            },
            None => {
                let ghost before = self.state();
                let mut sc = self.scopes.pop().unwrap();
                let ghost old_sc = scope_view(sc);
                assert(old_sc == before.scopes.last());
                sc.symbols.push((name, info));
                assert(scope_view(sc) =~= old_sc.push((name, info_view(info))));
                self.scopes.push(sc);
                proof {
                    assert(self.state().scopes =~= before.scopes.update(
                        before.scopes.len() - 1,
                        before.scopes.last().push((name, info_view(info))),
                    ));
                    assert(self.state() =~= bind(before, name, info_view(info)));
                }
                Ok(())
            },
        }
    }

    /// Look up a symbol in all scopes, from the innermost.
    pub fn lookup(&self, name: Symbol) -> (r: Option<&SymbolInfo>)
        ensures
            match r {
                Some(i) => lookup_in(self.state().scopes, name) == Some(info_view(*i)),
                None => lookup_in(self.state().scopes, name) is None,
            },
    {
        let ghost all = self.state().scopes;
        let mut k: usize = self.scopes.len();
        assert(all.take(k as int) =~= all);
        while k > 0
            invariant
                k <= self.scopes@.len(),
                all == self.state().scopes,
                lookup_in(all, name) == lookup_in(all.take(k as int), name),
            decreases k,
        {
            let sc = &self.scopes[k - 1];
            let ghost sv = scope_view(*sc);
            assert(all[k - 1] == sv);
            assert(all.take(k as int).last() == sv);
            assert(all.take(k as int).drop_last() =~= all.take(k - 1));
            let mut i: usize = 0;
            assert(sv.skip(0) =~= sv);
            while i < sc.symbols.len()
                invariant
                    i <= sc.symbols@.len(),
                    0 < k <= self.scopes@.len(),
                    all == self.state().scopes,
                    all[k - 1] == sv,
                    lookup_in(all, name) == lookup_in(all.take(k as int), name),
                    all.take(k as int).last() == sv,
                    sv == scope_view(*sc),
                    find_in(sv, name) == find_in(sv.skip(i as int), name),
                decreases sc.symbols.len() - i,
            {
                assert(sv.skip(i as int).drop_first() =~= sv.skip(i + 1));
                assert(sv[i as int] == (sc.symbols@[i as int].0, info_view(sc.symbols@[i as int].1)));
                assert(sv.skip(i as int)[0] == sv[i as int]);
                if sc.symbols[i].0 == name {
                    assert(find_in(sv, name) == Some(info_view(sc.symbols@[i as int].1)));
                    return Some(&sc.symbols[i].1);
                }
                i = i + 1;
            }
            k = k - 1;
        }
        assert(all.take(0) =~= Seq::<Seq<(Symbol, InfoModel)>>::empty());
        None
    }

    /// Mark a symbol as referenced.
    pub fn reference(&mut self, name: Symbol)
        ensures
            final(self).state() == mark(old(self).state(), name),
            final(self).env() == old(self).env(),
    {
        let ghost before = self.state();
        self.referenced_symbols.push(name);
        proof {
            assert(self.referenced_symbols@.to_set() =~= before.refs.insert(name)) by {
                old(self).referenced_symbols@.lemma_push_to_set_commute(name);
            }
            assert(self.state() =~= mark(before, name));
        }
    }

    /// Add an error diagnostic.
    pub fn error(&mut self, error: ValidationError)
        ensures
            final(self).state() == report(old(self).state(), diag_view(error)),
            final(self).env() == old(self).env(),
    {
        let ghost before = self.state();
        let ghost d = diag_view(error);
        self.diagnostics.push(error);
        assert(diags_view(self.diagnostics@) =~= before.diags.push(d));
    }

    /// Add a warning diagnostic.
    pub fn warning(&mut self, warning: ValidationError)
        ensures
            final(self).state() == report(old(self).state(), diag_view(warning)),
            final(self).env() == old(self).env(),
    {
        self.error(warning);
    }

    /// Get the span for an HIR node.
    pub fn span_of(&self, id: HirId) -> (r: Span)
        ensures
            r == span_in(self.env().spans, id),
    {
        self.spans.get_or_dummy(id)
    }

    /// Resolve a symbol name to a string: `<unknown>` when it was never
    /// interned.
    pub fn resolve_name(&self, name: Symbol) -> (r: &str)
        ensures
            r@ == name_of(self.env(), name),
    {
        match self.symbols.resolve(name) {
            Some(s) => s,
            None => "<unknown>",
        }
    }

    /// Get all collected diagnostics.
    pub fn diagnostics(&self) -> (r: &[ValidationError])
        ensures
            diags_view(r@) == self.state().diags,
    {
        self.diagnostics.as_slice()
    }

    /// Take ownership of all diagnostics.
    pub fn into_diagnostics(self) -> (r: Vec<ValidationError>)
        ensures
            diags_view(r@) == self.state().diags,
    {
        self.diagnostics
    }

    /// Check if there are any errors (not just warnings).
    pub fn has_errors(&self) -> (r: bool)
        ensures
            r == has_error(self.state().diags),
    {
        let mut i: usize = 0;
        while i < self.diagnostics.len()
            invariant
                i <= self.diagnostics@.len(),
                forall|j: int| 0 <= j < i ==> self.diagnostics@[j].level != DiagnosticLevel::Error,
            decreases self.diagnostics.len() - i,
        {
            if self.diagnostics[i].is_error() {
                assert(self.state().diags[i as int].level == DiagnosticLevel::Error);
                return true;
            }
            i = i + 1;
        }
        proof {
            assert forall|j: int| 0 <= j < self.state().diags.len() implies self.state().diags[j].level
                != DiagnosticLevel::Error by {
                assert(self.state().diags[j] == diag_view(self.diagnostics@[j]));
            }
        }
        false
    }
}


// ---------------------------------------------------------------------------
// Small checks
// ---------------------------------------------------------------------------

/// Check if a type name is a built-in type.
pub fn is_builtin_type(name: &str) -> (r: bool)
    ensures
        r == is_builtin(name@),
{
    str_eq(name, "Bool") || str_eq(name, "Int") || str_eq(name, "Float") || str_eq(name, "String")
        || str_eq(name, "Unit") || str_eq(name, "Never") || str_eq(name, "i8") || str_eq(name, "i16")
        || str_eq(name, "i32") || str_eq(name, "i64") || str_eq(name, "i128") || str_eq(name, "u8")
        || str_eq(name, "u16") || str_eq(name, "u32") || str_eq(name, "u64") || str_eq(name, "u128")
        || str_eq(name, "f32") || str_eq(name, "f64") || str_eq(name, "bool") || str_eq(name, "char")
        || str_eq(name, "str") || str_eq(name, "Self") || str_eq(name, "self")
}

/// Check if an expression is a valid place expression (can be assigned to).
pub fn is_place_expr(expr: &HirExpr) -> (r: bool)
    ensures
        r == is_place(*expr),
    decreases expr,
{
    match expr {
        HirExpr::Var(_) => true,
        HirExpr::Field(field) => is_place_expr(&field.base),
        HirExpr::Index(idx) => is_place_expr(&idx.base),
        _ => false,
    }
}

/// The variables that the patterns `ps` bind, in order.
fn collect_patterns_vars(ps: &Vec<HirPat>) -> (r: Vec<Symbol>)
    ensures
        r@ == pats_vars(ps@, 0),
    decreases ps, 1nat,
{
    let mut out: Vec<Symbol> = Vec::new();
    let mut i: usize = ps.len();
    assert(pats_vars(ps@, i as nat) =~= Seq::<Symbol>::empty());
    while i > 0
        invariant
            i <= ps@.len(),
            out@ == pats_vars(ps@, i as nat),
        decreases i,
    {
        i = i - 1;
        let mut mine = collect_pattern_vars(&ps[i]);
        let ghost rest = out@;
        mine.append(&mut out);
        out = mine;
        assert(out@ =~= pat_vars(ps@[i as int]) + rest);
    }
    out
}

/// Collect all variable names from a pattern, in order.
fn collect_pattern_vars(pat: &HirPat) -> (r: Vec<Symbol>)
    ensures
        r@ == pat_vars(*pat),
    decreases pat, 0nat,
{
    match pat {
        HirPat::Var(name) => {
            let v = vec![*name];
            assert(v@ =~= seq![*name]);
            v
        },
        HirPat::Constructor(ctor) => collect_patterns_vars(&ctor.fields),
        HirPat::Tuple(pats) => collect_patterns_vars(pats),
        HirPat::Or(pats) => {
            if pats.len() > 0 {
                collect_pattern_vars(&pats[0])
            } else {
                let v: Vec<Symbol> = Vec::new();
                assert(v@ =~= Seq::<Symbol>::empty());
                v
            }
        },
        _ => {
            let v: Vec<Symbol> = Vec::new();
            assert(v@ =~= Seq::<Symbol>::empty());
            v
        },
    }
}

/// Whether `v` holds `s`.
fn holds_symbol(v: &Vec<Symbol>, s: Symbol) -> (r: bool)
    ensures
        r == v@.contains(s),
{
    let mut i: usize = 0;
    while i < v.len()
        invariant
            i <= v@.len(),
            forall|j: int| 0 <= j < i ==> v@[j] != s,
        decreases v.len() - i,
    {
        if v[i] == s {
            assert(v@[i as int] == s);
            return true;
        }
        i = i + 1;
    }
    false
}

/// Whether every symbol of `a` occurs in `b`.
fn all_held(a: &Vec<Symbol>, b: &Vec<Symbol>) -> (r: bool)
    ensures
        r == (forall|j: int| 0 <= j < a@.len() ==> b@.contains(#[trigger] a@[j])),
{
    let mut i: usize = 0;
    while i < a.len()
        invariant
            i <= a@.len(),
            forall|j: int| 0 <= j < i ==> b@.contains(#[trigger] a@[j]),
        decreases a.len() - i,
    {
        if !holds_symbol(b, a[i]) {
            return false;
        }
        i = i + 1;
    }
    true
}

/// Whether `a` and `b` hold the same symbols.
fn same_symbols(a: &Vec<Symbol>, b: &Vec<Symbol>) -> (r: bool)
    ensures
        r == (a@.to_set() == b@.to_set()),
{
    let x = all_held(a, b);
    let y = all_held(b, a);
    proof {
        if x && y {
            assert forall|s: Symbol| a@.to_set().contains(s) <==> b@.to_set().contains(s) by {
                if a@.contains(s) {
                    let j = choose|j: int| 0 <= j < a@.len() && a@[j] == s;
                    assert(b@.contains(a@[j]));
                }
                if b@.contains(s) {
                    let j = choose|j: int| 0 <= j < b@.len() && b@[j] == s;
                    assert(a@.contains(b@[j]));
                }
            }
            assert(a@.to_set() =~= b@.to_set());
        } else if !x {
            let j = choose|j: int| 0 <= j < a@.len() && !b@.contains(#[trigger] a@[j]);
            assert(a@.to_set().contains(a@[j]));
            assert(!b@.to_set().contains(a@[j]));
        } else {
            let j = choose|j: int| 0 <= j < b@.len() && !a@.contains(#[trigger] b@[j]);
            assert(b@.to_set().contains(b@[j]));
            assert(!a@.to_set().contains(b@[j]));
        }
    }
    x && y
}

/// A copy of an optional type.
fn copy_opt_type(t: Option<&HirType>) -> (r: Option<HirType>) {
    match t {
        Some(x) => Some(copy_type(x)),
        None => None,
    }
}

// ---------------------------------------------------------------------------
// Types and patterns
// ---------------------------------------------------------------------------

impl<'a> ValidationContext<'a> {
    /// `name` in backquotes.
    fn quoted_name(&self, name: Symbol) -> (r: String)
        ensures
            r@ == quoted(self.env(), name),
    {
        concat3("`", self.resolve_name(name), "`")
    }

    /// Checks a reference to the named type `name`.
    fn check_named(&mut self, name: Symbol)
        requires
            old(self).state().scopes.len() > 0,
        ensures
            final(self).env() == old(self).env(),
            final(self).state() == named_step(old(self).env(), old(self).state(), name),
            final(self).state().scopes.len() == old(self).state().scopes.len(),
    {
        let found = match self.lookup(name) {
            Some(info) => Some(info.kind),
            None => None,
        };
        match found {
            Some(kind) => {
                if !(kind == SymbolKind::Type || kind == SymbolKind::TypeParam) {
                    let mut m = self.quoted_name(name);
                    m.append(" is not a type");
                    self.error(ValidationError::error(m.as_str()));
                }
                self.reference(name);
            },
            None => {
                let s = owned(self.resolve_name(name));
                if !is_builtin_type(s.as_str()) {
                    let mut m = owned("undefined type ");
                    m.append(self.quoted_name(name).as_str());
                    self.error(
                        ValidationError::error(m.as_str()).with_suggestion(
                            "make sure the type is defined or imported",
                        ),
                    );
                }
            },
        }
    }

    /// Validate the types `ts` in order.
    fn validate_types(&mut self, ts: &Vec<HirType>)
        requires
            old(self).state().scopes.len() > 0,
        ensures
            final(self).env() == old(self).env(),
            final(self).state() == tys_step(old(self).env(), old(self).state(), ts@, 0),
            final(self).state().scopes.len() == old(self).state().scopes.len(),
        decreases ts, 1nat,
    {
        let mut i: usize = 0;
        while i < ts.len()
            invariant
                i <= ts@.len(),
                self.env() == old(self).env(),
                self.state().scopes.len() == old(self).state().scopes.len(),
                old(self).state().scopes.len() > 0,
                tys_step(old(self).env(), old(self).state(), ts@, 0) == tys_step(
                    self.env(),
                    self.state(),
                    ts@,
                    i as nat,
                ),
            decreases ts.len() - i,
        {
            self.validate_type(&ts[i]);
            i = i + 1;
        }
    }

    /// Validate a type reference.
    fn validate_type(&mut self, ty: &HirType)
        requires
            old(self).state().scopes.len() > 0,
        ensures
            final(self).env() == old(self).env(),
            final(self).state() == ty_step(old(self).env(), old(self).state(), *ty),
            final(self).state().scopes.len() == old(self).state().scopes.len(),
        decreases ty, 0nat,
    {
        match ty {
            HirType::Named(named) => {
                self.check_named(named.name);
                self.validate_types(&named.args);
            },
            HirType::Tuple(types) => {
                self.validate_types(types);
            },
            HirType::Array(arr) => {
                self.validate_type(&arr.elem);
            },
            HirType::Function(func) => {
                self.validate_types(&func.params);
                self.validate_type(&func.ret);
            },
            HirType::Ref(r) => {
                self.validate_type(&r.ty);
            },
            HirType::Optional(inner) => {
                self.validate_type(inner);
            },
            HirType::Var(_) => {},
            HirType::Error => {},
        }
    }

    /// Validate an optional type.
    fn validate_opt_type(&mut self, ty: &Option<HirType>)
        requires
            old(self).state().scopes.len() > 0,
        ensures
            final(self).env() == old(self).env(),
            final(self).state() == opt_ty_step(old(self).env(), old(self).state(), *ty),
            final(self).state().scopes.len() == old(self).state().scopes.len(),
    {
        match ty {
            Some(t) => self.validate_type(t),
            None => {},
        }
    }

    /// Defines `info` under `name`, reporting a duplicate as it is.
    fn define_or_report(&mut self, name: Symbol, info: SymbolInfo)
        requires
            old(self).state().scopes.len() > 0,
        ensures
            final(self).env() == old(self).env(),
            final(self).state() == define_or_report(
                old(self).env(),
                old(self).state(),
                name,
                info_view(info),
            ),
            final(self).state().scopes.len() == old(self).state().scopes.len(),
    {
        match self.define(name, info) {
            Ok(()) => {},
            Err(e) => {
                self.error(e);
            },
        }
    }

    /// Validate the patterns `ps` in order.
    fn validate_patterns(&mut self, ps: &Vec<HirPat>, cid: HirId)
        requires
            old(self).state().scopes.len() > 0,
        ensures
            final(self).env() == old(self).env(),
            final(self).state() == pats_step(old(self).env(), old(self).state(), ps@, 0, cid),
            final(self).state().scopes.len() == old(self).state().scopes.len(),
        decreases ps, 1nat,
    {
        let mut i: usize = 0;
        while i < ps.len()
            invariant
                i <= ps@.len(),
                self.env() == old(self).env(),
                self.state().scopes.len() == old(self).state().scopes.len(),
                old(self).state().scopes.len() > 0,
                pats_step(old(self).env(), old(self).state(), ps@, 0, cid) == pats_step(
                    self.env(),
                    self.state(),
                    ps@,
                    i as nat,
                    cid,
                ),
            decreases ps.len() - i,
        {
            self.validate_pattern(&ps[i], None, cid);
            i = i + 1;
        }
    }

    /// Validate the alternatives `ps` of an or-pattern, each in a scope of
    /// its own.
    fn validate_alternatives(&mut self, ps: &Vec<HirPat>, ty: Option<&HirType>, cid: HirId)
        requires
            old(self).state().scopes.len() > 0,
        ensures
            final(self).env() == old(self).env(),
            final(self).state() == alts_step(old(self).env(), old(self).state(), ps@, 0, cid),
            final(self).state().scopes.len() == old(self).state().scopes.len(),
        decreases ps, 1nat,
    {
        let mut j: usize = 0;
        while j < ps.len()
            invariant
                j <= ps@.len(),
                self.env() == old(self).env(),
                self.state().scopes.len() == old(self).state().scopes.len(),
                old(self).state().scopes.len() > 0,
                alts_step(old(self).env(), old(self).state(), ps@, 0, cid) == alts_step(
                    self.env(),
                    self.state(),
                    ps@,
                    j as nat,
                    cid,
                ),
            decreases ps.len() - j,
        {
            let ghost before = self.state();
            self.push_scope();
            self.validate_pattern(&ps[j], ty, cid);
            self.pop_scope();
            proof {
                assert(self.state() == pop(pat_step(old(self).env(), push(before), ps@[j as int], cid)));
            }
            j = j + 1;
        }
    }

    /// Validate a pattern and bind its variables.
    fn validate_pattern(&mut self, pat: &HirPat, ty: Option<&HirType>, cid: HirId)
        requires
            old(self).state().scopes.len() > 0,
        ensures
            final(self).env() == old(self).env(),
            final(self).state() == pat_step(old(self).env(), old(self).state(), *pat, cid),
            final(self).state().scopes.len() == old(self).state().scopes.len(),
        decreases pat, 0nat,
    {
        match pat {
            HirPat::Wildcard => {},
            HirPat::Literal(_) => {},
            HirPat::Var(name) => {
                let info = SymbolInfo {
                    name: *name,
                    kind: SymbolKind::Variable,
                    defined_at: cid,
                    ty: copy_opt_type(ty),
                };
                self.define_or_report(*name, info);
            },
            HirPat::Constructor(ctor) => {
                if self.lookup(ctor.name).is_none() {
                    let mut m = owned("undefined constructor ");
                    m.append(self.quoted_name(ctor.name).as_str());
                    self.error(
                        ValidationError::error(m.as_str()).with_suggestion(
                            "make sure the type variant is defined",
                        ),
                    );
                } else {
                    self.reference(ctor.name);
                }
                self.validate_patterns(&ctor.fields, cid);
            },
            HirPat::Tuple(pats) => {
                self.validate_patterns(pats, cid);
            },
            HirPat::Or(pats) => {
                if pats.len() == 0 {
                    self.error(ValidationError::error("empty or-pattern"));
                    return;
                }
                let first_vars = collect_pattern_vars(&pats[0]);
                let ghost first = first_vars@.to_set();
                let mut i: usize = 1;
                while i < pats.len()
                    invariant
                        1 <= i <= pats@.len(),
                        first == pat_vars(pats@[0]).to_set(),
                        first_vars@.to_set() == first,
                        self.env() == old(self).env(),
                        self.state().scopes.len() == old(self).state().scopes.len(),
                        or_check(old(self).env(), old(self).state(), pats@, 1, first) == or_check(
                            self.env(),
                            self.state(),
                            pats@,
                            i as nat,
                            first,
                        ),
                    decreases pats.len() - i,
                {
                    let vars = collect_pattern_vars(&pats[i]);
                    if !same_symbols(&vars, &first_vars) {
                        let mut m = owned("or-pattern alternative ");
                        m.append(usize_to_string(i + 1).as_str());
                        m.append(" binds different variables");
                        self.error(
                            ValidationError::error(m.as_str()).with_suggestion(
                                "all alternatives must bind the same variables",
                            ),
                        );
                    }
                    i = i + 1;
                }
                self.validate_alternatives(pats, ty, cid);
                self.validate_pattern(&pats[0], ty, cid);
            },
        }
    }
}


// ---------------------------------------------------------------------------
// Expressions and statements
// ---------------------------------------------------------------------------

impl<'a> ValidationContext<'a> {
    /// Validate the expressions `es` in order.
    fn visit_exprs(&mut self, es: &Vec<HirExpr>)
        requires
            old(self).state().scopes.len() > 0,
        ensures
            final(self).env() == old(self).env(),
            final(self).state() == exprs_step(old(self).env(), old(self).state(), es@, 0),
            final(self).state().scopes.len() == old(self).state().scopes.len(),
        decreases es, 1nat,
    {
        let mut i: usize = 0;
        while i < es.len()
            invariant
                i <= es@.len(),
                self.env() == old(self).env(),
                self.state().scopes.len() == old(self).state().scopes.len(),
                old(self).state().scopes.len() > 0,
                exprs_step(old(self).env(), old(self).state(), es@, 0) == exprs_step(
                    self.env(),
                    self.state(),
                    es@,
                    i as nat,
                ),
            decreases es.len() - i,
        {
            self.visit_expr(&es[i]);
            i = i + 1;
        }
    }

    /// Validate an optional expression.
    fn visit_opt_expr(&mut self, e: &Option<HirExpr>)
        requires
            old(self).state().scopes.len() > 0,
        ensures
            final(self).env() == old(self).env(),
            final(self).state() == match *e {
                Some(x) => expr_step(old(self).env(), old(self).state(), x),
                None => old(self).state(),
            },
            final(self).state().scopes.len() == old(self).state().scopes.len(),
        decreases e, 1nat,
    {
        match e {
            Some(x) => self.visit_expr(x),
            None => {},
        }
    }

    /// Validate the statements `ss` in order.
    fn visit_stmts(&mut self, ss: &Vec<HirStmt>)
        requires
            old(self).state().scopes.len() > 0,
        ensures
            final(self).env() == old(self).env(),
            final(self).state() == stmts_step(old(self).env(), old(self).state(), ss@, 0),
            final(self).state().scopes.len() == old(self).state().scopes.len(),
        decreases ss, 1nat,
    {
        let mut i: usize = 0;
        while i < ss.len()
            invariant
                i <= ss@.len(),
                self.env() == old(self).env(),
                self.state().scopes.len() == old(self).state().scopes.len(),
                old(self).state().scopes.len() > 0,
                stmts_step(old(self).env(), old(self).state(), ss@, 0) == stmts_step(
                    self.env(),
                    self.state(),
                    ss@,
                    i as nat,
                ),
            decreases ss.len() - i,
        {
            self.visit_stmt(&ss[i]);
            i = i + 1;
        }
    }

    /// Validate one match arm in a scope of its own.
    fn visit_arm(&mut self, arm: &HirMatchArm)
        requires
            old(self).state().scopes.len() > 0,
        ensures
            final(self).env() == old(self).env(),
            final(self).state() == arm_step(old(self).env(), old(self).state(), *arm),
            final(self).state().scopes.len() == old(self).state().scopes.len(),
        decreases arm, 1nat,
    {
        self.push_scope();
        self.validate_pattern(&arm.pat, None, HirId(0));
        self.visit_opt_expr(&arm.guard);
        self.visit_expr(&arm.body);
        self.pop_scope();
    }

    /// Validate the match arms `arms` in order.
    fn visit_arms(&mut self, arms: &Vec<HirMatchArm>)
        requires
            old(self).state().scopes.len() > 0,
        ensures
            final(self).env() == old(self).env(),
            final(self).state() == arms_step(old(self).env(), old(self).state(), arms@, 0),
            final(self).state().scopes.len() == old(self).state().scopes.len(),
        decreases arms, 2nat,
    {
        let mut i: usize = 0;
        while i < arms.len()
            invariant
                i <= arms@.len(),
                self.env() == old(self).env(),
                self.state().scopes.len() == old(self).state().scopes.len(),
                old(self).state().scopes.len() > 0,
                arms_step(old(self).env(), old(self).state(), arms@, 0) == arms_step(
                    self.env(),
                    self.state(),
                    arms@,
                    i as nat,
                ),
            decreases arms.len() - i,
        {
            self.visit_arm(&arms[i]);
            i = i + 1;
        }
    }

    /// Validate the parameters `ps`: each pattern, then its type.
    fn validate_params(&mut self, ps: &Vec<HirParam>, cid: HirId)
        requires
            old(self).state().scopes.len() > 0,
        ensures
            final(self).env() == old(self).env(),
            final(self).state() == params_step(old(self).env(), old(self).state(), ps@, 0, cid),
            final(self).state().scopes.len() == old(self).state().scopes.len(),
    {
        let mut i: usize = 0;
        while i < ps.len()
            invariant
                i <= ps@.len(),
                self.env() == old(self).env(),
                self.state().scopes.len() == old(self).state().scopes.len(),
                old(self).state().scopes.len() > 0,
                params_step(old(self).env(), old(self).state(), ps@, 0, cid) == params_step(
                    self.env(),
                    self.state(),
                    ps@,
                    i as nat,
                    cid,
                ),
            decreases ps.len() - i,
        {
            self.validate_pattern(&ps[i].pat, Some(&ps[i].ty), cid);
            self.validate_type(&ps[i].ty);
            i = i + 1;
        }
    }

    /// Validate an expression.
    fn visit_expr(&mut self, expr: &HirExpr)
        requires
            old(self).state().scopes.len() > 0,
        ensures
            final(self).env() == old(self).env(),
            final(self).state() == expr_step(old(self).env(), old(self).state(), *expr),
            final(self).state().scopes.len() == old(self).state().scopes.len(),
        decreases expr, 0nat,
    {
        match expr {
            HirExpr::Var(name) => {
                if self.lookup(*name).is_none() {
                    let mut m = owned("undefined variable ");
                    m.append(self.quoted_name(*name).as_str());
                    self.error(
                        ValidationError::error(m.as_str()).with_suggestion(
                            "make sure the variable is defined before use",
                        ),
                    );
                } else {
                    self.reference(*name);
                }
            },
            HirExpr::Binary(bin) => {
                self.visit_expr(&bin.left);
                self.visit_expr(&bin.right);
            },
            HirExpr::Unary(un) => {
                self.visit_expr(&un.operand);
            },
            HirExpr::Call(call) => {
                self.visit_expr(&call.func);
                self.visit_exprs(&call.args);
            },
            HirExpr::MethodCall(call) => {
                self.visit_expr(&call.receiver);
                self.visit_exprs(&call.args);
            },
            HirExpr::Field(field) => {
                self.visit_expr(&field.base);
            },
            HirExpr::Index(idx) => {
                self.visit_expr(&idx.base);
                self.visit_expr(&idx.index);
            },
            HirExpr::Block(block) => {
                self.push_scope();
                self.visit_stmts(&block.stmts);
                self.visit_opt_expr(&block.expr);
                self.pop_scope();
            },
            HirExpr::If(if_expr) => {
                self.visit_expr(&if_expr.cond);
                self.visit_expr(&if_expr.then_branch);
                self.visit_opt_expr(&if_expr.else_branch);
            },
            HirExpr::Match(match_expr) => {
                self.visit_expr(&match_expr.scrutinee);
                self.visit_arms(&match_expr.arms);
            },
            HirExpr::Lambda(lambda) => {
                self.push_scope();
                self.validate_params(&lambda.params, HirId(0));
                self.validate_opt_type(&lambda.return_type);
                let mut saved = copy_opt_type(lambda.return_type.as_ref());
                std::mem::swap(&mut self.current_return_type, &mut saved);
                self.visit_expr(&lambda.body);
                self.current_return_type = saved;
                self.pop_scope();
            },
            HirExpr::Literal(_) => {},
        }
    }

    /// Validate a statement.
    fn visit_stmt(&mut self, stmt: &HirStmt)
        requires
            old(self).state().scopes.len() > 0,
        ensures
            final(self).env() == old(self).env(),
            final(self).state() == stmt_step(old(self).env(), old(self).state(), *stmt),
            final(self).state().scopes.len() == old(self).state().scopes.len(),
        decreases stmt, 0nat,
    {
        match stmt {
            HirStmt::Val(val) => {
                self.visit_expr(&val.init);
                self.validate_opt_type(&val.ty);
                self.validate_pattern(&val.pat, val.ty.as_ref(), HirId(0));
            },
            HirStmt::Var(var) => {
                self.visit_expr(&var.init);
                self.validate_opt_type(&var.ty);
                self.validate_pattern(&var.pat, var.ty.as_ref(), HirId(0));
            },
            HirStmt::Assign(assign) => {
                if !is_place_expr(&assign.lhs) {
                    self.error(
                        ValidationError::error("invalid assignment target").with_suggestion(
                            "left-hand side must be a variable, field, or index",
                        ),
                    );
                }
                self.visit_expr(&assign.lhs);
                self.visit_expr(&assign.rhs);
            },
            HirStmt::Expr(e) => {
                self.visit_expr(e);
            },
            HirStmt::Return(ret) => {
                self.visit_opt_expr(ret);
            },
            HirStmt::Break(brk) => {
                if !self.in_loop {
                    self.error(
                        ValidationError::error("`break` outside of loop").with_suggestion(
                            "break can only be used inside a loop",
                        ),
                    );
                }
                self.visit_opt_expr(brk);
            },
        }
    }
}


// ---------------------------------------------------------------------------
// Declarations
// ---------------------------------------------------------------------------

impl<'a> ValidationContext<'a> {
    /// Whether the name of `sym` is empty.
    fn name_is_empty(&self, sym: Symbol) -> (r: bool)
        ensures
            r == (name_of(self.env(), sym).len() == 0),
    {
        proof {
            reveal_strlit("");
            assert(name_of(self.env(), sym).len() == 0 ==> name_of(self.env(), sym) =~= ""@);
        }
        str_eq(self.resolve_name(sym), "")
    }

    /// Checks the two names of a gene statement.
    fn check_statement_names(&mut self, a: Symbol, b: Symbol, what: &str, second: &str, id: HirId)
        requires
            old(self).state().scopes.len() > 0,
        ensures
            final(self).env() == old(self).env(),
            final(self).state() == names_check(old(self).env(), old(self).state(), a, b, what@, second@, id),
            final(self).state().scopes.len() == old(self).state().scopes.len(),
    {
        if self.name_is_empty(a) {
            let mut m = owned("empty subject in '");
            m.append(what);
            m.append("' statement");
            self.error(ValidationError::error(m.as_str()).with_node(id));
        }
        if self.name_is_empty(b) {
            let mut m = owned("empty ");
            m.append(second);
            m.append(" in '");
            m.append(what);
            m.append("' statement");
            self.error(ValidationError::error(m.as_str()).with_node(id));
        }
    }

    /// Validate a single gene statement.
    fn validate_gene_statement(&mut self, stmt: &HirStatement)
        requires
            old(self).state().scopes.len() > 0,
        ensures
            final(self).env() == old(self).env(),
            final(self).state() == gene_stmt_step(old(self).env(), old(self).state(), *stmt),
            final(self).state().scopes.len() == old(self).state().scopes.len(),
    {
        match &stmt.kind {
            HirStatementKind::Has { subject, property } => {
                self.check_statement_names(*subject, *property, "has", "property", stmt.id);
            },
            HirStatementKind::Is { subject, ty } => {
                self.check_statement_names(*subject, *ty, "is", "type name", stmt.id);
            },
            HirStatementKind::DerivesFrom { subject, parent } => {
                self.check_statement_names(*subject, *parent, "derives_from", "parent", stmt.id);
                if *subject == *parent {
                    let mut m = owned("type ");
                    m.append(self.quoted_name(*subject).as_str());
                    m.append(" derives from itself");
                    self.warning(
                        ValidationError::warning(m.as_str()).with_node(stmt.id).with_suggestion(
                            "a type cannot derive from itself",
                        ),
                    );
                }
            },
            HirStatementKind::Requires { subject, dependency } => {
                self.check_statement_names(*subject, *dependency, "requires", "dependency", stmt.id);
                if *subject == *dependency {
                    let mut m = self.quoted_name(*subject);
                    m.append(" requires itself");
                    self.warning(
                        ValidationError::warning(m.as_str()).with_node(stmt.id).with_suggestion(
                            "a gene cannot require itself",
                        ),
                    );
                }
            },
            HirStatementKind::Uses { subject, resource } => {
                self.check_statement_names(*subject, *resource, "uses", "resource", stmt.id);
            },
        }
    }

    /// Validate gene statements.
    fn validate_gene_statements(&mut self, statements: &Vec<HirStatement>)
        requires
            old(self).state().scopes.len() > 0,
        ensures
            final(self).env() == old(self).env(),
            final(self).state() == gene_stmts_step(old(self).env(), old(self).state(), statements@, 0),
            final(self).state().scopes.len() == old(self).state().scopes.len(),
    {
        let mut i: usize = 0;
        while i < statements.len()
            invariant
                i <= statements@.len(),
                self.env() == old(self).env(),
                self.state().scopes.len() == old(self).state().scopes.len(),
                old(self).state().scopes.len() > 0,
                gene_stmts_step(old(self).env(), old(self).state(), statements@, 0)
                    == gene_stmts_step(self.env(), self.state(), statements@, i as nat),
            decreases statements.len() - i,
        {
            self.validate_gene_statement(&statements[i]);
            i = i + 1;
        }
    }

    /// Validate a type definition body.
    fn validate_type_def(&mut self, def: &HirTypeDef)
        requires
            old(self).state().scopes.len() > 0,
        ensures
            final(self).env() == old(self).env(),
            final(self).state() == type_def_step(old(self).env(), old(self).state(), *def),
            final(self).state().scopes.len() == old(self).state().scopes.len(),
    {
        match def {
            HirTypeDef::Alias(ty) => {
                self.validate_type(ty);
            },
            HirTypeDef::Struct(fields) => {
                let mut seen: Vec<Symbol> = Vec::new();
                let mut i: usize = 0;
                assert(seen@.to_set() =~= Set::<Symbol>::empty());
                while i < fields.len()
                    invariant
                        i <= fields@.len(),
                        self.env() == old(self).env(),
                        self.state().scopes.len() == old(self).state().scopes.len(),
                        old(self).state().scopes.len() > 0,
                        fields_step(old(self).env(), old(self).state(), fields@, 0, Set::empty())
                            == fields_step(self.env(), self.state(), fields@, i as nat, seen@.to_set()),
                    decreases fields.len() - i,
                {
                    let name = fields[i].name;
                    if holds_symbol(&seen, name) {
                        let mut m = owned("duplicate field ");
                        m.append(self.quoted_name(name).as_str());
                        self.error(ValidationError::error(m.as_str()));
                    }
                    let ghost before = seen@;
                    seen.push(name);
                    proof {
                        before.lemma_push_to_set_commute(name);
                    }
                    self.validate_type(&fields[i].ty);
                    i = i + 1;
                }
            },
            HirTypeDef::Enum(variants) => {
                let mut seen: Vec<Symbol> = Vec::new();
                let mut i: usize = 0;
                assert(seen@.to_set() =~= Set::<Symbol>::empty());
                while i < variants.len()
                    invariant
                        i <= variants@.len(),
                        self.env() == old(self).env(),
                        self.state().scopes.len() == old(self).state().scopes.len(),
                        old(self).state().scopes.len() > 0,
                        variants_step(old(self).env(), old(self).state(), variants@, 0, Set::empty())
                            == variants_step(self.env(), self.state(), variants@, i as nat, seen@.to_set()),
                    decreases variants.len() - i,
                {
                    let name = variants[i].name;
                    if holds_symbol(&seen, name) {
                        let mut m = owned("duplicate variant ");
                        m.append(self.quoted_name(name).as_str());
                        self.error(ValidationError::error(m.as_str()));
                    }
                    let ghost before = seen@;
                    seen.push(name);
                    proof {
                        before.lemma_push_to_set_commute(name);
                    }
                    self.validate_opt_type(&variants[i].payload);
                    i = i + 1;
                }
            },
            HirTypeDef::Gene(statements) => {
                self.validate_gene_statements(statements);
            },
        }
    }

    /// Define the type parameters `tps` (recorded at `cid`) and validate
    /// their bounds.
    fn validate_type_params(&mut self, tps: &Vec<HirTypeParam>, cid: HirId)
        requires
            old(self).state().scopes.len() > 0,
        ensures
            final(self).env() == old(self).env(),
            final(self).state() == type_params_step(old(self).env(), old(self).state(), tps@, 0, cid),
            final(self).state().scopes.len() == old(self).state().scopes.len(),
    {
        let mut i: usize = 0;
        while i < tps.len()
            invariant
                i <= tps@.len(),
                self.env() == old(self).env(),
                self.state().scopes.len() == old(self).state().scopes.len(),
                old(self).state().scopes.len() > 0,
                type_params_step(old(self).env(), old(self).state(), tps@, 0, cid)
                    == type_params_step(self.env(), self.state(), tps@, i as nat, cid),
            decreases tps.len() - i,
        {
            let param = &tps[i];
            let info = SymbolInfo {
                name: param.name,
                kind: SymbolKind::TypeParam,
                defined_at: cid,
                ty: None,
            };
            self.define_or_report(param.name, info);
            self.validate_types(&param.bounds);
            i = i + 1;
        }
    }

    /// Validate a function declaration.
    fn visit_function_decl(&mut self, decl: &HirFunctionDecl)
        requires
            old(self).state().scopes.len() > 0,
        ensures
            final(self).env() == old(self).env(),
            final(self).state() == function_step(old(self).env(), old(self).state(), *decl),
            final(self).state().scopes.len() == old(self).state().scopes.len(),
    {
        self.push_scope();
        self.validate_type_params(&decl.type_params, decl.id);
        self.validate_params(&decl.params, decl.id);
        self.validate_type(&decl.return_type);
        let mut saved = Some(copy_type(&decl.return_type));
        std::mem::swap(&mut self.current_return_type, &mut saved);
        self.visit_opt_expr(&decl.body);
        self.current_return_type = saved;
        self.pop_scope();
    }

    /// Validate the items of a trait declared at `cid`.
    fn visit_trait_items(&mut self, items: &Vec<HirTraitItem>, cid: HirId)
        requires
            old(self).state().scopes.len() > 0,
        ensures
            final(self).env() == old(self).env(),
            final(self).state() == trait_items_step(old(self).env(), old(self).state(), items@, 0, cid),
            final(self).state().scopes.len() == old(self).state().scopes.len(),
    {
        let mut i: usize = 0;
        while i < items.len()
            invariant
                i <= items@.len(),
                self.env() == old(self).env(),
                self.state().scopes.len() == old(self).state().scopes.len(),
                old(self).state().scopes.len() > 0,
                trait_items_step(old(self).env(), old(self).state(), items@, 0, cid)
                    == trait_items_step(self.env(), self.state(), items@, i as nat, cid),
            decreases items.len() - i,
        {
            match &items[i] {
                HirTraitItem::Method(func) => {
                    self.visit_function_decl(func);
                },
                HirTraitItem::AssocType(assoc) => {
                    self.validate_types(&assoc.bounds);
                    self.validate_opt_type(&assoc.default);
                },
            }
            i = i + 1;
        }
    }

    /// Validate the declarations `ds` in order.
    fn visit_decls(&mut self, ds: &Vec<HirDecl>)
        requires
            old(self).state().scopes.len() > 0,
        ensures
            final(self).env() == old(self).env(),
            final(self).state() == decls_step(old(self).env(), old(self).state(), ds@, 0),
            final(self).state().scopes.len() == old(self).state().scopes.len(),
        decreases ds, 1nat,
    {
        let mut i: usize = 0;
        while i < ds.len()
            invariant
                i <= ds@.len(),
                self.env() == old(self).env(),
                self.state().scopes.len() == old(self).state().scopes.len(),
                old(self).state().scopes.len() > 0,
                decls_step(old(self).env(), old(self).state(), ds@, 0) == decls_step(
                    self.env(),
                    self.state(),
                    ds@,
                    i as nat,
                ),
            decreases ds.len() - i,
        {
            self.visit_decl(&ds[i]);
            i = i + 1;
        }
    }

    /// Validate a declaration: a type, a trait, a function, or a module,
    /// each in a scope of its own.
    fn visit_decl(&mut self, decl: &HirDecl)
        requires
            old(self).state().scopes.len() > 0,
        ensures
            final(self).env() == old(self).env(),
            final(self).state() == decl_step(old(self).env(), old(self).state(), *decl),
            final(self).state().scopes.len() == old(self).state().scopes.len(),
        decreases decl, 0nat,
    {
        match decl {
            HirDecl::Type(d) => {
                self.push_scope();
                self.validate_type_params(&d.type_params, d.id);
                self.validate_type_def(&d.body);
                self.pop_scope();
            },
            HirDecl::Trait(d) => {
                self.push_scope();
                self.validate_type_params(&d.type_params, d.id);
                self.validate_types(&d.bounds);
                self.visit_trait_items(&d.items, d.id);
                self.pop_scope();
            },
            HirDecl::Function(f) => {
                self.visit_function_decl(f);
            },
            HirDecl::Module(m) => {
                self.push_scope();
                self.visit_decls(&m.decls);
                self.pop_scope();
            },
        }
    }

    /// Defines a declared name; a duplicate is reported with the span of
    /// the declaration.
    fn collect_define(&mut self, name: Symbol, kind: SymbolKind, id: HirId, ty: Option<HirType>)
        requires
            old(self).state().scopes.len() > 0,
        ensures
            final(self).env() == old(self).env(),
            final(self).state() == collect_define(old(self).env(), old(self).state(), name, kind, id),
            final(self).state().scopes.len() == old(self).state().scopes.len(),
    {
        let info = SymbolInfo { name, kind, defined_at: id, ty };
        match self.define(name, info) {
            Ok(()) => {},
            Err(e) => {
                let span = self.span_of(id);
                self.error(e.with_span(span));
            },
        }
    }

    /// The first pass over the declarations `ds` in order.
    fn collect_decls(&mut self, ds: &Vec<HirDecl>)
        requires
            old(self).state().scopes.len() > 0,
        ensures
            final(self).env() == old(self).env(),
            final(self).state() == collects_step(old(self).env(), old(self).state(), ds@, 0),
            final(self).state().scopes.len() == old(self).state().scopes.len(),
        decreases ds, 1nat,
    {
        let mut i: usize = 0;
        while i < ds.len()
            invariant
                i <= ds@.len(),
                self.env() == old(self).env(),
                self.state().scopes.len() == old(self).state().scopes.len(),
                old(self).state().scopes.len() > 0,
                collects_step(old(self).env(), old(self).state(), ds@, 0) == collects_step(
                    self.env(),
                    self.state(),
                    ds@,
                    i as nat,
                ),
            decreases ds.len() - i,
        {
            self.collect_decl(&ds[i]);
            i = i + 1;
        }
    }

    /// The first pass over a declaration: its name is defined; the names
    /// of a module's declarations are defined in a scope of their own.
    fn collect_decl(&mut self, decl: &HirDecl)
        requires
            old(self).state().scopes.len() > 0,
        ensures
            final(self).env() == old(self).env(),
            final(self).state() == collect_step(old(self).env(), old(self).state(), *decl),
            final(self).state().scopes.len() == old(self).state().scopes.len(),
        decreases decl, 0nat,
    {
        match decl {
            HirDecl::Type(d) => {
                self.collect_define(d.name, SymbolKind::Type, d.id, None);
            },
            HirDecl::Trait(d) => {
                self.collect_define(d.name, SymbolKind::Trait, d.id, None);
            },
            HirDecl::Function(f) => {
                let mut params: Vec<HirType> = Vec::new();
                let mut i: usize = 0;
                while i < f.params.len()
                    invariant
                        i <= f.params@.len(),
                    decreases f.params.len() - i,
                {
                    params.push(copy_type(&f.params[i].ty));
                    i = i + 1;
                }
                let ty = HirType::Function(
                    Box::new(HirFunctionType { params, ret: copy_type(&f.return_type) }),
                );
                self.collect_define(f.name, SymbolKind::Function, f.id, Some(ty));
            },
            HirDecl::Module(m) => {
                self.collect_define(m.name, SymbolKind::Module, m.id, None);
                self.push_scope();
                self.collect_decls(&m.decls);
                self.pop_scope();
            },
        }
    }
}

/// The diagnostics that validating `module` gives, with the names of
/// `symbols` and the spans of `spans`.
pub open spec fn spec_diagnostics(module: HirModule, symbols: SymbolTable, spans: SpanMap) -> Seq<DiagModel> {
    module_diagnostics(Env { names: symbols.names(), spans: spans.entries() }, module)
}

/// Validate an HIR module.
///
/// Returns `Ok(())` if the module is valid, or its errors otherwise, in
/// the order they were found (warnings are dropped).
pub fn validate_module(module: &HirModule, symbols: &SymbolTable, spans: &SpanMap) -> (r: Result<
    (),
    Vec<ValidationError>,
>)
    ensures
        r is Ok <==> !has_error(spec_diagnostics(*module, *symbols, *spans)),
        r matches Err(es) ==> es@.len() > 0 && diags_view(es@) == errors_of(
            spec_diagnostics(*module, *symbols, *spans),
        ),
{
    let mut ctx = ValidationContext::new(symbols, spans);
    ctx.collect_decls(&module.decls);
    ctx.visit_decls(&module.decls);
    if ctx.has_errors() {
        let ghost ds = ctx.state().diags;
        let all = ctx.into_diagnostics();
        let mut errors: Vec<ValidationError> = Vec::new();
        let mut i: usize = 0;
        while i < all.len()
            invariant
                i <= all@.len(),
                diags_view(all@) == ds,
                diags_view(errors@) == errors_of(ds.take(i as int)),
            decreases all.len() - i,
        {
            proof {
                assert(ds.take(i + 1).drop_last() =~= ds.take(i as int));
                reveal(Seq::filter);
                assert(ds[i as int] == diag_view(all@[i as int]));
            }
            if all[i].is_error() {
                let ghost before = diags_view(errors@);
                let e = all[i].copy_error();
                errors.push(e);
                assert(diags_view(errors@) =~= before.push(diag_view(e)));
            }
            i = i + 1;
        }
        proof {
            assert(ds.take(ds.len() as int) =~= ds);
            let j = choose|j: int| 0 <= j < ds.len() && ds[j].level == DiagnosticLevel::Error;
            ds.lemma_filter_contains(|d: DiagModel| d.level == DiagnosticLevel::Error, j);
        }
        Err(errors)
    } else {
        Ok(())
    }
}

impl ValidationError {
    /// A copy of this diagnostic.
    fn copy_error(&self) -> (r: ValidationError)
        ensures
            diag_view(r) == diag_view(*self),
    {
        ValidationError {
            message: owned(self.message.as_str()),
            span: self.span,
            level: self.level,
            node_id: self.node_id,
            suggestion: match &self.suggestion {
                Some(s) => Some(owned(s.as_str())),
                None => None,
            },
        }
    }
}


// ---------------------------------------------------------------------------
// Laws
// ---------------------------------------------------------------------------

/// A name bound after a scope's bindings is found there when the scope did
/// not bind it before.
proof fn lemma_find_after_push(scope: Seq<(Symbol, InfoModel)>, name: Symbol, info: InfoModel)
    requires
        find_in(scope, name) is None,
    ensures
        find_in(scope.push((name, info)), name) == Some(info),
    decreases scope.len(),
{
    if scope.len() > 0 {
        assert(scope.push((name, info)).drop_first() =~= scope.drop_first().push((name, info)));
        lemma_find_after_push(scope.drop_first(), name, info);
    }
}

/// What a successful definition binds, a lookup gives back: once `name`
/// is defined in the innermost scope, looking it up finds exactly the
/// information defined.
pub proof fn lemma_define_then_lookup(env: Env, st: VState, name: Symbol, info: InfoModel)
    requires
        st.scopes.len() > 0,
        define_error(env, st, name, info) is None,
    ensures
        lookup_in(bind(st, name, info).scopes, name) == Some(info),
{
    let s2 = bind(st, name, info).scopes;
    lemma_find_after_push(st.scopes.last(), name, info);
    assert(s2.last() == st.scopes.last().push((name, info)));
}

/// Defining a name twice in one scope is refused: after a successful
/// definition, a second one of the same name reports a duplicate.
pub proof fn lemma_define_twice_is_duplicate(
    env: Env,
    st: VState,
    name: Symbol,
    first: InfoModel,
    second: InfoModel,
)
    requires
        st.scopes.len() > 0,
        define_error(env, st, name, first) is None,
    ensures
        define_error(env, bind(st, name, first), name, second) is Some,
{
    lemma_find_after_push(st.scopes.last(), name, first);
    assert(bind(st, name, first).scopes.last() == st.scopes.last().push((name, first)));
}

/// A scope opened and closed again leaves the state as it was.
pub proof fn lemma_push_then_pop(st: VState)
    ensures
        pop(push(st)) == st,
{
    assert(pop(push(st)).scopes =~= st.scopes);
}

/// Validation fails exactly when it finds an error: warnings alone (such
/// as a gene that derives from itself) never make a module invalid.
pub proof fn lemma_only_errors_fail(ds: Seq<DiagModel>)
    ensures
        has_error(ds) <==> errors_of(ds).len() > 0,
{
    if has_error(ds) {
        let j = choose|j: int| 0 <= j < ds.len() && ds[j].level == DiagnosticLevel::Error;
        ds.lemma_filter_contains(|d: DiagModel| d.level == DiagnosticLevel::Error, j);
    } else if errors_of(ds).len() > 0 {
        let pred = |d: DiagModel| d.level == DiagnosticLevel::Error;
        ds.lemma_filter_pred(pred, 0);
        let d = errors_of(ds)[0];
        assert(errors_of(ds).contains(d));
        ds.lemma_filter_contains_rev(pred, d);
        let j = choose|j: int| 0 <= j < ds.len() && ds[j] == d;
        assert(ds[j].level == DiagnosticLevel::Error);
    }
}

} // verus!

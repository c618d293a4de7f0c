//! Abstract syntax of DOL declarations, and source locations.

use vstd::prelude::*;

verus! {

/// A location in the source: byte offsets `start..end`, and the line and
/// column (both 1-based) where it begins.
#[derive(Debug, Clone, Copy, PartialEq, Eq, Structural)]
pub struct Span {
    /// Byte offset of the first character
    pub start: usize,
    /// Byte offset just past the last character
    pub end: usize,
    /// Line of the first character (1-based)
    pub line: usize,
    /// Column of the first character (1-based)
    pub column: usize,
}

impl Span {
    /// Creates a span.
    pub fn new(start: usize, end: usize, line: usize, column: usize) -> (r: Span)
        ensures
            r == (Span { start, end, line, column }),
    {
        Span { start, end, line, column }
    }

    /// The smallest span covering both spans, located where `self` begins.
    pub open spec fn spec_merge(self, other: Span) -> Span {
        Span {
            start: if self.start <= other.start { self.start } else { other.start },
            end: if self.end >= other.end { self.end } else { other.end },
            line: self.line,
            column: self.column,
        }
    }

    /// The smallest span covering both spans, located where `self` begins.
    pub fn merge(&self, other: &Span) -> (r: Span)
        ensures
            r == self.spec_merge(*other),
    {
        Span {
            start: if self.start <= other.start { self.start } else { other.start },
            end: if self.end >= other.end { self.end } else { other.end },
            line: self.line,
            column: self.column,
        }
    }
}

impl Default for Span {
    /// The empty span: every field zero.
    fn default() -> (r: Span)
        ensures
            r == (Span { start: 0, end: 0, line: 0, column: 0 }),
    {
        Span { start: 0, end: 0, line: 0, column: 0 }
    }
}

/// A semantic version `major.minor.patch`, with an optional suffix.
#[derive(Debug, Clone, PartialEq, Eq)]
pub struct Version {
    /// Major version
    pub major: u64,
    /// Minor version
    pub minor: u64,
    /// Patch version
    pub patch: u64,
    /// Pre-release suffix (after `-`)
    pub suffix: Option<String>,
}

/// Visibility of a module export.
#[derive(Debug, Clone, Copy, PartialEq, Eq, Structural)]
pub enum Visibility {
    /// Private (`mod`)
    Private,
    /// Public (`pub mod`)
    Public,
}

/// Where an imported package comes from.
#[derive(Debug, Clone, PartialEq, Eq)]
pub enum ImportSource {
    /// A local module path
    Local,
    /// A registry package `@org/package`
    Registry {
        /// Organisation
        org: String,
        /// Package name
        package: String,
        /// Pinned version, if any
        version: Option<String>,
    },
    /// A git repository `@git:url`
    Git {
        /// Repository URL
        url: String,
        /// Branch, tag or commit
        reference: Option<String>,
    },
    /// A package fetched over HTTPS `@https://url`
    Https {
        /// Download URL
        url: String,
        /// Expected digest
        sha256: Option<String>,
    },
}

/// The quantifier of a quantified statement.
#[derive(Debug, Clone, Copy, PartialEq, Eq, Structural)]
pub enum Quantifier {
    /// `each`
    Each,
    /// `all`
    All,
}

/// A statement inside a declaration body.
#[derive(Debug, Clone, PartialEq, Eq)]
pub enum Statement {
    /// `subject has property`
    Has { subject: String, property: String, span: Span },
    /// `subject is state`
    Is { subject: String, state: String, span: Span },
    /// `subject derives from origin`
    DerivesFrom { subject: String, origin: String, span: Span },
    /// `subject requires requirement`
    Requires { subject: String, requirement: String, span: Span },
    /// `uses reference`
    Uses { reference: String, span: Span },
    /// `action emits event`
    Emits { action: String, event: String, span: Span },
    /// `subject matches target`
    Matches { subject: String, target: String, span: Span },
    /// `subject never action`
    Never { subject: String, action: String, span: Span },
    /// `each ...` or `all ...`
    Quantified { quantifier: Quantifier, phrase: String, span: Span },
}

/// A `gene` declaration.
#[derive(Debug, Clone, PartialEq, Eq)]
pub struct Gene {
    /// Qualified name
    pub name: String,
    /// Body statements
    pub statements: Vec<Statement>,
    /// Exegesis text
    pub exegesis: String,
    /// Source span
    pub span: Span,
}

/// A `trait` declaration.
#[derive(Debug, Clone, PartialEq, Eq)]
pub struct Trait {
    /// Qualified name
    pub name: String,
    /// Body statements
    pub statements: Vec<Statement>,
    /// Exegesis text
    pub exegesis: String,
    /// Source span
    pub span: Span,
}

/// A `constraint` declaration.
#[derive(Debug, Clone, PartialEq, Eq)]
pub struct Constraint {
    /// Qualified name
    pub name: String,
    /// Body statements
    pub statements: Vec<Statement>,
    /// Exegesis text
    pub exegesis: String,
    /// Source span
    pub span: Span,
}

/// A version requirement inside a `system`.
#[derive(Debug, Clone, PartialEq, Eq)]
pub struct Requirement {
    /// Required component
    pub name: String,
    /// Comparison: `>=`, `>` or `=`
    pub constraint: String,
    /// Version text
    pub version: String,
    /// Source span
    pub span: Span,
}

/// A `system` declaration.
#[derive(Debug, Clone, PartialEq, Eq)]
pub struct System {
    /// Qualified name
    pub name: String,
    /// Version text
    pub version: String,
    /// Version requirements
    pub requirements: Vec<Requirement>,
    /// Body statements
    pub statements: Vec<Statement>,
    /// Exegesis text
    pub exegesis: String,
    /// Source span
    pub span: Span,
}

/// An `evolves` declaration.
#[derive(Debug, Clone, PartialEq, Eq)]
pub struct Evolution {
    /// Name of the evolved declaration
    pub name: String,
    /// New version
    pub version: String,
    /// Version evolved from
    pub parent_version: String,
    /// Added statements
    pub additions: Vec<Statement>,
    /// Deprecated statements
    pub deprecations: Vec<Statement>,
    /// Removed names
    pub removals: Vec<String>,
    /// Rationale (`because "..."`)
    pub rationale: Option<String>,
    /// Exegesis text
    pub exegesis: String,
    /// Source span
    pub span: Span,
}

/// A typed field or parameter: `name: Type`, with the constraint and the
/// CRDT annotation a gene field may carry (a parameter carries neither).
#[derive(Debug, Clone, PartialEq, Eq)]
pub struct TypedField {
    /// Field or parameter name
    pub name: String,
    /// Its type, as written
    pub ty: String,
    /// The field's constraint, as written (`where ...`)
    pub constraint: Option<String>,
    /// The field's CRDT annotation (`@crdt(...)`)
    pub crdt_annotation: Option<CrdtAnnotation>,
}

/// An option of a CRDT annotation: `key=value`.
#[derive(Debug, Clone, PartialEq, Eq)]
pub struct CrdtOption {
    /// Option name
    pub key: String,
    /// Option value, as written
    pub value: String,
}

/// A CRDT annotation: `@crdt(strategy, key=value, ...)`.
#[derive(Debug, Clone, PartialEq, Eq)]
pub struct CrdtAnnotation {
    /// The merge strategy
    pub strategy: CrdtStrategy,
    /// Its options, in order
    pub options: Vec<CrdtOption>,
}

/// A block of typed fields: `gen Name { has x: T ... }`, or the same under
/// `trait`.
#[derive(Debug, Clone, PartialEq, Eq)]
pub struct GenDecl {
    /// Whether the block was declared with `trait`
    pub is_trait: bool,
    /// Name
    pub name: String,
    /// Fields, in order
    pub fields: Vec<TypedField>,
}

/// A function: `[pub] fun name(a: T, ...) -> R { body }`.
#[derive(Debug, Clone, PartialEq, Eq)]
pub struct FunctionDecl {
    /// Whether it is declared `pub`
    pub is_public: bool,
    /// Name
    pub name: String,
    /// Parameters, in order
    pub params: Vec<TypedField>,
    /// Return type, as written
    pub return_type: String,
    /// Body, braces included
    pub body: String,
}

/// A top-level declaration.
#[derive(Debug, Clone, PartialEq, Eq)]
pub enum Declaration {
    /// `gene`
    Gene(Gene),
    /// `trait`
    Trait(Trait),
    /// `constraint`
    Constraint(Constraint),
    /// `system`
    System(System),
    /// `evolves`
    Evolution(Evolution),
    /// `gen` (or `gene`, or `trait`) with typed fields
    Gen(GenDecl),
    /// `fun`
    Function(FunctionDecl),
}

impl Declaration {
    /// The name of the declaration, as a character sequence.
    pub open spec fn spec_name(&self) -> Seq<char> {
        match self {
            Declaration::Gene(g) => g.name@,
            Declaration::Trait(t) => t.name@,
            Declaration::Constraint(c) => c.name@,
            Declaration::System(s) => s.name@,
            Declaration::Evolution(e) => e.name@,
            Declaration::Gen(g) => g.name@,
            Declaration::Function(f) => f.name@,
        }
    }

    /// The name of the declaration.
    pub fn name(&self) -> (r: &String)
        ensures
            r@ == self.spec_name(),
    {
        match self {
            Declaration::Gene(g) => &g.name,
            Declaration::Trait(t) => &t.name,
            Declaration::Constraint(c) => &c.name,
            Declaration::System(s) => &s.name,
            Declaration::Evolution(e) => &e.name,
            Declaration::Gen(g) => &g.name,
            Declaration::Function(f) => &f.name,
        }
    }
}

/// A CRDT merge strategy.
#[derive(Debug, Clone, Copy, PartialEq, Eq, Structural)]
pub enum CrdtStrategy {
    /// Set once, never changed
    Immutable,
    /// Last write wins
    Lww,
    /// Observed-remove set
    OrSet,
    /// Positive-negative counter
    PnCounter,
    /// Collaborative rich text
    Peritext,
    /// Replicated growable array
    Rga,
    /// Multi-value register
    MvRegister,
}

/// A type expression.
#[derive(Debug)]
pub enum TypeExpr {
    /// A named type such as `String`
    Named(String),
    /// A generic application such as `Set<String>`
    Generic { name: String, args: Vec<TypeExpr> },
    /// A function type `(params) -> return_type`
    Function { params: Vec<TypeExpr>, return_type: Box<TypeExpr> },
    /// A tuple type
    Tuple(Vec<TypeExpr>),
    /// The never type `!`
    Never,
    /// An inline enum
    Enum { variants: Vec<String> },
}


/// A module declaration: `module a.b.c`.
#[derive(Debug, Clone)]
pub struct ModuleDecl {
    /// The module path, by component
    pub path: Vec<String>,
    /// Source location
    pub span: Span,
}

/// What a use declaration imports.
#[derive(Debug, Clone)]
pub enum UseItems {
    /// Everything: `use a.b.*`
    All,
    /// The path itself: `use a.b`
    Single,
    /// Named items: `use a.b.{x, y}`
    Named(Vec<UseItem>),
}

/// An item named in a use declaration.
#[derive(Debug, Clone)]
pub struct UseItem {
    /// Item name
    pub name: String,
    /// Local alias, if any
    pub alias: Option<String>,
}

/// A use declaration.
#[derive(Debug, Clone)]
pub struct UseDecl {
    /// The imported path, by component
    pub path: Vec<String>,
    /// What is imported
    pub items: UseItems,
    /// Alias of the whole import, if any
    pub alias: Option<String>,
    /// Source location
    pub span: Span,
}

/// A parsed DOL file: its module declaration, its uses and its
/// declarations.
#[derive(Debug)]
pub struct DolFile {
    /// The module declaration, if any
    pub module: Option<ModuleDecl>,
    /// Use declarations, in order
    pub uses: Vec<UseDecl>,
    /// Declarations, in order
    pub declarations: Vec<Declaration>,
}

} // verus!

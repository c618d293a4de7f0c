//! The HIR node types: modules, declarations, types, expressions,
//! statements and patterns, with names interned as symbols.

use vstd::prelude::*;

use super::span::HirId;
use super::symbol::Symbol;

verus! {

/// A module: its name and declarations.
#[derive(Debug)]
pub struct HirModule {
    /// Module name
    pub name: Symbol,
    /// Top-level declarations
    pub decls: Vec<HirDecl>,
}

impl HirModule {
    /// An empty module named `name`.
    pub fn new(name: Symbol) -> (r: HirModule)
        ensures
            r.name == name,
            r.decls@.len() == 0,
    {
        HirModule { name, decls: Vec::new() }
    }
}

/// A declaration.
#[derive(Debug)]
pub enum HirDecl {
    /// A type (gene, struct, enum, alias)
    Type(HirTypeDecl),
    /// A trait
    Trait(HirTraitDecl),
    /// A function
    Function(HirFunctionDecl),
    /// A nested module
    Module(HirModuleDecl),
}

/// A type parameter with its bounds.
#[derive(Debug)]
pub struct HirTypeParam {
    /// Parameter name
    pub name: Symbol,
    /// Trait bounds
    pub bounds: Vec<HirType>,
}

/// A type declaration.
#[derive(Debug)]
pub struct HirTypeDecl {
    /// Node identifier
    pub id: HirId,
    /// Type name
    pub name: Symbol,
    /// Type parameters
    pub type_params: Vec<HirTypeParam>,
    /// Definition
    pub body: HirTypeDef,
}

/// The body of a type declaration.
#[derive(Debug)]
pub enum HirTypeDef {
    /// An alias of another type
    Alias(HirType),
    /// A struct with named fields
    Struct(Vec<HirField>),
    /// An enum with variants
    Enum(Vec<HirVariant>),
    /// A gene with its statements
    Gene(Vec<HirStatement>),
}

/// A struct field.
#[derive(Debug)]
pub struct HirField {
    /// Field name
    pub name: Symbol,
    /// Field type
    pub ty: HirType,
}

/// An enum variant.
#[derive(Debug)]
pub struct HirVariant {
    /// Variant name
    pub name: Symbol,
    /// Payload type, if any
    pub payload: Option<HirType>,
}

/// A gene statement.
#[derive(Debug)]
pub struct HirStatement {
    /// Node identifier
    pub id: HirId,
    /// What the statement says
    pub kind: HirStatementKind,
}

/// The kinds of gene statements.
#[derive(Debug)]
pub enum HirStatementKind {
    /// `subject has property`
    Has { subject: Symbol, property: Symbol },
    /// `subject is ty`
    Is { subject: Symbol, ty: Symbol },
    /// `subject derives from parent`
    DerivesFrom { subject: Symbol, parent: Symbol },
    /// `subject requires dependency`
    Requires { subject: Symbol, dependency: Symbol },
    /// `subject uses resource`
    Uses { subject: Symbol, resource: Symbol },
}

/// A trait declaration.
#[derive(Debug)]
pub struct HirTraitDecl {
    /// Node identifier
    pub id: HirId,
    /// Trait name
    pub name: Symbol,
    /// Type parameters
    pub type_params: Vec<HirTypeParam>,
    /// Super-trait bounds
    pub bounds: Vec<HirType>,
    /// Items
    pub items: Vec<HirTraitItem>,
}

/// An item of a trait.
#[derive(Debug)]
pub enum HirTraitItem {
    /// A method
    Method(HirFunctionDecl),
    /// An associated type
    AssocType(HirAssocType),
}

/// An associated type of a trait.
#[derive(Debug)]
pub struct HirAssocType {
    /// Name
    pub name: Symbol,
    /// Bounds
    pub bounds: Vec<HirType>,
    /// Default type, if any
    pub default: Option<HirType>,
}

/// A function declaration.
#[derive(Debug)]
pub struct HirFunctionDecl {
    /// Node identifier
    pub id: HirId,
    /// Function name
    pub name: Symbol,
    /// Type parameters
    pub type_params: Vec<HirTypeParam>,
    /// Parameters
    pub params: Vec<HirParam>,
    /// Return type
    pub return_type: HirType,
    /// Body, if any
    pub body: Option<HirExpr>,
}

/// A function or lambda parameter.
#[derive(Debug)]
pub struct HirParam {
    /// Binding pattern
    pub pat: HirPat,
    /// Declared type
    pub ty: HirType,
}

/// A nested module declaration.
#[derive(Debug)]
pub struct HirModuleDecl {
    /// Node identifier
    pub id: HirId,
    /// Module name
    pub name: Symbol,
    /// Declarations
    pub decls: Vec<HirDecl>,
}

/// A type expression.
#[derive(Debug)]
pub enum HirType {
    /// A named type with type arguments
    Named(HirNamedType),
    /// A tuple type
    Tuple(Vec<HirType>),
    /// An array type
    Array(Box<HirArrayType>),
    /// A function type
    Function(Box<HirFunctionType>),
    /// A reference type
    Ref(Box<HirRefType>),
    /// An optional type
    Optional(Box<HirType>),
    /// An inference variable
    Var(u32),
    /// A type that failed to lower
    Error,
}

/// A named type.
#[derive(Debug)]
pub struct HirNamedType {
    /// Type name
    pub name: Symbol,
    /// Type arguments
    pub args: Vec<HirType>,
}

/// An array type.
#[derive(Debug)]
pub struct HirArrayType {
    /// Element type
    pub elem: HirType,
    /// Fixed length, if any
    pub size: Option<u64>,
}

/// A function type.
#[derive(Debug)]
pub struct HirFunctionType {
    /// Parameter types
    pub params: Vec<HirType>,
    /// Return type
    pub ret: HirType,
}

/// A reference type.
#[derive(Debug)]
pub struct HirRefType {
    /// Whether the reference is mutable
    pub mutable: bool,
    /// Referenced type
    pub ty: HirType,
}

/// A literal.
#[derive(Debug, Clone)]
pub enum HirLiteral {
    /// A boolean
    Bool(bool),
    /// An integer
    Int(i64),
    /// A string
    String(String),
    /// The unit value
    Unit,
}

/// A binary operator.
#[derive(Debug, Clone, Copy, PartialEq, Eq)]
pub enum HirBinaryOp {
    Add,
    Sub,
    Mul,
    Div,
    Mod,
    Eq,
    Ne,
    Lt,
    Le,
    Gt,
    Ge,
    And,
    Or,
}

/// A unary operator.
#[derive(Debug, Clone, Copy, PartialEq, Eq)]
pub enum HirUnaryOp {
    Neg,
    Not,
}

/// An expression.
#[derive(Debug)]
pub enum HirExpr {
    /// A literal
    Literal(HirLiteral),
    /// A variable reference
    Var(Symbol),
    /// A binary operation
    Binary(Box<HirBinaryExpr>),
    /// A unary operation
    Unary(Box<HirUnaryExpr>),
    /// A function call
    Call(Box<HirCallExpr>),
    /// A method call
    MethodCall(Box<HirMethodCallExpr>),
    /// A field access
    Field(Box<HirFieldExpr>),
    /// An index
    Index(Box<HirIndexExpr>),
    /// A block
    Block(Box<HirBlockExpr>),
    /// A conditional
    If(Box<HirIfExpr>),
    /// A match
    Match(Box<HirMatchExpr>),
    /// A lambda
    Lambda(Box<HirLambdaExpr>),
}

/// A binary operation.
#[derive(Debug)]
pub struct HirBinaryExpr {
    pub op: HirBinaryOp,
    pub left: HirExpr,
    pub right: HirExpr,
}

/// A unary operation.
#[derive(Debug)]
pub struct HirUnaryExpr {
    pub op: HirUnaryOp,
    pub operand: HirExpr,
}

/// A function call.
#[derive(Debug)]
pub struct HirCallExpr {
    pub func: HirExpr,
    pub args: Vec<HirExpr>,
}

/// A method call.
#[derive(Debug)]
pub struct HirMethodCallExpr {
    pub receiver: HirExpr,
    pub method: Symbol,
    pub args: Vec<HirExpr>,
}

/// A field access.
#[derive(Debug)]
pub struct HirFieldExpr {
    pub base: HirExpr,
    pub field: Symbol,
}

/// An index.
#[derive(Debug)]
pub struct HirIndexExpr {
    pub base: HirExpr,
    pub index: HirExpr,
}

/// A block: statements and an optional final expression.
#[derive(Debug)]
pub struct HirBlockExpr {
    pub stmts: Vec<HirStmt>,
    pub expr: Option<HirExpr>,
}

/// A conditional.
#[derive(Debug)]
pub struct HirIfExpr {
    pub cond: HirExpr,
    pub then_branch: HirExpr,
    pub else_branch: Option<HirExpr>,
}

/// A match.
#[derive(Debug)]
pub struct HirMatchExpr {
    pub scrutinee: HirExpr,
    pub arms: Vec<HirMatchArm>,
}

/// A match arm.
#[derive(Debug)]
pub struct HirMatchArm {
    pub pat: HirPat,
    pub guard: Option<HirExpr>,
    pub body: HirExpr,
}

/// A lambda.
#[derive(Debug)]
pub struct HirLambdaExpr {
    pub params: Vec<HirParam>,
    pub return_type: Option<HirType>,
    pub body: HirExpr,
}

/// A statement.
#[derive(Debug)]
pub enum HirStmt {
    /// An immutable binding
    Val(HirValStmt),
    /// A mutable binding
    Var(HirVarStmt),
    /// An assignment
    Assign(HirAssignStmt),
    /// An expression
    Expr(HirExpr),
    /// A return
    Return(Option<HirExpr>),
    /// A break
    Break(Option<HirExpr>),
}

/// An immutable binding.
#[derive(Debug)]
pub struct HirValStmt {
    pub pat: HirPat,
    pub ty: Option<HirType>,
    pub init: HirExpr,
}

/// A mutable binding.
#[derive(Debug)]
pub struct HirVarStmt {
    pub pat: HirPat,
    pub ty: Option<HirType>,
    pub init: HirExpr,
}

/// An assignment.
#[derive(Debug)]
pub struct HirAssignStmt {
    pub lhs: HirExpr,
    pub rhs: HirExpr,
}

/// A pattern.
#[derive(Debug)]
pub enum HirPat {
    /// `_`
    Wildcard,
    /// A variable binding
    Var(Symbol),
    /// A literal
    Literal(HirLiteral),
    /// A constructor with sub-patterns
    Constructor(HirConstructorPat),
    /// A tuple of patterns
    Tuple(Vec<HirPat>),
    /// Alternatives
    Or(Vec<HirPat>),
}

/// A constructor pattern.
#[derive(Debug)]
pub struct HirConstructorPat {
    pub name: Symbol,
    pub fields: Vec<HirPat>,
}

/// A copy of the types of `v`.
pub fn copy_types(v: &Vec<HirType>) -> (r: Vec<HirType>)
    ensures
        r@.len() == v@.len(),
    decreases v, 1nat,
{
    let mut out: Vec<HirType> = Vec::new();
    let mut i: usize = 0;
    while i < v.len()
        invariant
            i <= v@.len(),
            out@.len() == i,
        decreases v.len() - i,
    {
        out.push(copy_type(&v[i]));
        i = i + 1;
    }
    out
}

/// A copy of the type `t`.
pub fn copy_type(t: &HirType) -> (r: HirType)
    decreases t, 0nat,
{
    match t {
        HirType::Named(n) => HirType::Named(HirNamedType { name: n.name, args: copy_types(&n.args) }),
        HirType::Tuple(ts) => HirType::Tuple(copy_types(ts)),
        HirType::Array(a) => HirType::Array(
            Box::new(HirArrayType { elem: copy_type(&a.elem), size: a.size }),
        ),
        HirType::Function(f) => HirType::Function(
            Box::new(HirFunctionType { params: copy_types(&f.params), ret: copy_type(&f.ret) }),
        ),
        HirType::Ref(r) => HirType::Ref(Box::new(HirRefType { mutable: r.mutable, ty: copy_type(&r.ty) })),
        HirType::Optional(inner) => HirType::Optional(Box::new(copy_type(inner))),
        HirType::Var(v) => HirType::Var(*v),
        HirType::Error => HirType::Error,
    }
}

} // verus!

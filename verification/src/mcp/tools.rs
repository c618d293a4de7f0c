//! Helpers for the MCP tools: display names of CRDT strategies and of type
//! expressions, and classification of field types.

use vstd::prelude::*;

use crate::ast::{CrdtStrategy, TypeExpr};
use crate::text::{owned, str_eq};

verus! {

/// The display name of a CRDT strategy.
pub open spec fn strategy_name(strategy: CrdtStrategy) -> Seq<char> {
    match strategy {
        CrdtStrategy::Immutable => "immutable"@,
        CrdtStrategy::Lww => "lww"@,
        CrdtStrategy::OrSet => "or_set"@,
        CrdtStrategy::PnCounter => "pn_counter"@,
        CrdtStrategy::Peritext => "peritext"@,
        CrdtStrategy::Rga => "rga"@,
        CrdtStrategy::MvRegister => "mv_register"@,
    }
}

/// Formats a CRDT strategy for display.
pub fn format_strategy(strategy: &CrdtStrategy) -> (r: &'static str)
    ensures
        r@ == strategy_name(*strategy),
{
    match strategy {
        CrdtStrategy::Immutable => "immutable",
        CrdtStrategy::Lww => "lww",
        CrdtStrategy::OrSet => "or_set",
        CrdtStrategy::PnCounter => "pn_counter",
        CrdtStrategy::Peritext => "peritext",
        CrdtStrategy::Rga => "rga",
        CrdtStrategy::MvRegister => "mv_register",
    }
}

/// The display text of a type expression: `Name`, `Name<A, B>`,
/// `(A, B) -> R`, `(A, B)`, `!`, or `enum { ... }`.
pub open spec fn type_text(t: TypeExpr) -> Seq<char>
    decreases t, 0nat,
{
    match t {
        TypeExpr::Named(name) => name@,
        TypeExpr::Generic { name, args } => name@ + "<"@ + types_text(args@, args@.len()) + ">"@,
        TypeExpr::Function { params, return_type } => "("@ + types_text(params@, params@.len())
            + ") -> "@ + type_text(*return_type),
        TypeExpr::Tuple(types) => "("@ + types_text(types@, types@.len()) + ")"@,
        TypeExpr::Never => "!"@,
        TypeExpr::Enum { .. } => "enum { ... }"@,
    }
}

/// The display texts of the first `n` type expressions of `ts`, separated
/// by `", "`.
pub open spec fn types_text(ts: Seq<TypeExpr>, n: nat) -> Seq<char>
    decreases ts, n,
{
    if n == 0 || n > ts.len() {
        Seq::empty()
    } else if n == 1 {
        type_text(ts[0])
    } else {
        types_text(ts, (n - 1) as nat) + ", "@ + type_text(ts[n - 1])
    }
}

/// Formats the type expressions of `ts`, separated by `", "`.
fn format_types(ts: &Vec<TypeExpr>, Ghost(outer): Ghost<TypeExpr>) -> (r: String)
    requires
        decreases_to!(outer => ts@),
    ensures
        r@ == types_text(ts@, ts@.len()),
    decreases outer, 0nat,
{
    let mut out = String::new();
    let mut i: usize = 0;
    while i < ts.len()
        invariant
            i <= ts.len(),
            decreases_to!(outer => ts@),
            out@ == types_text(ts@, i as nat),
        decreases ts.len() - i,
    {
        proof {
            assert(decreases_to!(ts@ => ts@[i as int]));
        }
        let item = format_type(&ts[i]);
        if i > 0 {
            out.append(", ");
        }
        out.append(item.as_str());
        i = i + 1;
    }
    out
}

/// Formats a type expression for display.
pub fn format_type(type_expr: &TypeExpr) -> (r: String)
    ensures
        r@ == type_text(*type_expr),
    decreases *type_expr, 1nat,
{
    match type_expr {
        TypeExpr::Named(name) => name.clone(),
        TypeExpr::Generic { name, args } => {
            let args_str = format_types(args, Ghost(*type_expr));
            let mut out = name.clone();
            out.append("<");
            out.append(args_str.as_str());
            out.append(">");
            out
        },
        TypeExpr::Function { params, return_type } => {
            let params_str = format_types(params, Ghost(*type_expr));
            let ret = format_type(return_type);
            let mut out = owned("(");
            out.append(params_str.as_str());
            out.append(") -> ");
            out.append(ret.as_str());
            out
        },
        TypeExpr::Tuple(types) => {
            let types_str = format_types(types, Ghost(*type_expr));
            let mut out = owned("(");
            out.append(types_str.as_str());
            out.append(")");
            out
        },
        TypeExpr::Never => owned("!"),
        TypeExpr::Enum { .. } => owned("enum { ... }"),
    }
}

/// A collection type name: `Set`, `Vec`, `List` or `Map`.
pub open spec fn is_collection_name(name: Seq<char>) -> bool {
    name == "Set"@ || name == "Vec"@ || name == "List"@ || name == "Map"@
}

/// A numeric type name.
pub open spec fn is_numeric_name(name: Seq<char>) -> bool {
    name == "i8"@ || name == "i16"@ || name == "i32"@ || name == "i64"@ || name == "i128"@ || name
        == "u8"@ || name == "u16"@ || name == "u32"@ || name == "u64"@ || name == "u128"@ || name
        == "f32"@ || name == "f64"@ || name == "Int"@ || name == "int"@ || name == "Float"@ || name
        == "float"@
}

/// Checks if a type is a collection type: a generic `Set`, `Vec`, `List` or
/// `Map`.
pub fn is_collection_type(type_expr: &TypeExpr) -> (r: bool)
    ensures
        r == (type_expr matches TypeExpr::Generic { name, .. } && is_collection_name(name@)),
{
    match type_expr {
        TypeExpr::Generic { name, .. } => {
            let n = name.as_str();
            str_eq(n, "Set") || str_eq(n, "Vec") || str_eq(n, "List") || str_eq(n, "Map")
        },
        _ => false,
    }
}

/// Checks if a type is a numeric type: a named integer or float type.
pub fn is_numeric_type(type_expr: &TypeExpr) -> (r: bool)
    ensures
        r == (type_expr matches TypeExpr::Named(name) && is_numeric_name(name@)),
{
    match type_expr {
        TypeExpr::Named(name) => {
            let n = name.as_str();
            str_eq(n, "i8") || str_eq(n, "i16") || str_eq(n, "i32") || str_eq(n, "i64") || str_eq(
                n,
                "i128",
            ) || str_eq(n, "u8") || str_eq(n, "u16") || str_eq(n, "u32") || str_eq(n, "u64")
                || str_eq(n, "u128") || str_eq(n, "f32") || str_eq(n, "f64") || str_eq(n, "Int")
                || str_eq(n, "int") || str_eq(n, "Float") || str_eq(n, "float")
        },
        _ => false,
    }
}

/// Checks if a type is a string type: `String` or `string`.
pub fn is_string_type(type_expr: &TypeExpr) -> (r: bool)
    ensures
        r == (type_expr matches TypeExpr::Named(name) && (name@ == "String"@ || name@
            == "string"@)),
{
    match type_expr {
        TypeExpr::Named(name) => {
            let n = name.as_str();
            str_eq(n, "String") || str_eq(n, "string")
        },
        _ => false,
    }
}

} // verus!

//! The MCP (Model Context Protocol) side of Metal DOL: the tools it
//! offers, CRDT strategy recommendations, schema generation from natural
//! language, and the server's tool catalogue.

use vstd::prelude::*;

pub mod diagnostics;
pub mod handlers;
pub mod nl_to_dol;
pub mod recommendations;
pub mod schema_generator;
pub mod server;
pub mod tools;

verus! {

/// DOL tools available through the MCP server.
#[derive(Debug, Clone, Copy, PartialEq, Eq, Structural)]
pub enum DolTool {
    /// Parse DOL source code into an AST
    Parse,
    /// Type check DOL expressions
    TypeCheck,
    /// Compile to Rust
    CompileRust,
    /// Compile to TypeScript
    CompileTypeScript,
    /// Compile to WebAssembly
    CompileWasm,
    /// Evaluate DOL expressions
    Eval,
    /// Get runtime type information
    Reflect,
    /// Format DOL source code
    Format,
    /// List available macros
    ListMacros,
    /// Expand a macro
    ExpandMacro,
    /// Validate DOL schema with CRDT annotations
    ValidateSchema,
    /// Recommend CRDT strategy for a field
    RecommendCrdt,
    /// Explain CRDT strategy trade-offs
    ExplainStrategy,
    /// Generate example DOL schema
    GenerateExample,
    /// Generate schema from natural language description
    GenerateSchemaFromDescription,
    /// Validate schema and suggest improvements
    ValidateAndSuggest,
    /// Get intelligent suggestions for schema improvement
    GetSuggestions,
}

impl DolTool {
    /// The tool's name.
    pub open spec fn spec_as_str(self) -> Seq<char> {
        match self {
            DolTool::Parse => "parse"@,
            DolTool::TypeCheck => "typecheck"@,
            DolTool::CompileRust => "compile_rust"@,
            DolTool::CompileTypeScript => "compile_typescript"@,
            DolTool::CompileWasm => "compile_wasm"@,
            DolTool::Eval => "eval"@,
            DolTool::Reflect => "reflect"@,
            DolTool::Format => "format"@,
            DolTool::ListMacros => "list_macros"@,
            DolTool::ExpandMacro => "expand_macro"@,
            DolTool::ValidateSchema => "validate_schema"@,
            DolTool::RecommendCrdt => "recommend_crdt"@,
            DolTool::ExplainStrategy => "explain_strategy"@,
            DolTool::GenerateExample => "generate_example"@,
            DolTool::GenerateSchemaFromDescription => "generate_schema_from_description"@,
            DolTool::ValidateAndSuggest => "validate_and_suggest"@,
            DolTool::GetSuggestions => "get_suggestions"@,
        }
    }

    /// The tool named `s`, if any.
    pub open spec fn spec_from_name(s: Seq<char>) -> Option<DolTool> {
        if s == "parse"@ {
            Some(DolTool::Parse)
        } else if s == "typecheck"@ {
            Some(DolTool::TypeCheck)
        } else if s == "compile_rust"@ {
            Some(DolTool::CompileRust)
        } else if s == "compile_typescript"@ {
            Some(DolTool::CompileTypeScript)
        } else if s == "compile_wasm"@ {
            Some(DolTool::CompileWasm)
        } else if s == "eval"@ {
            Some(DolTool::Eval)
        } else if s == "reflect"@ {
            Some(DolTool::Reflect)
        } else if s == "format"@ {
            Some(DolTool::Format)
        } else if s == "list_macros"@ {
            Some(DolTool::ListMacros)
        } else if s == "expand_macro"@ {
            Some(DolTool::ExpandMacro)
        } else if s == "validate_schema"@ {
            Some(DolTool::ValidateSchema)
        } else if s == "recommend_crdt"@ {
            Some(DolTool::RecommendCrdt)
        } else if s == "explain_strategy"@ {
            Some(DolTool::ExplainStrategy)
        } else if s == "generate_example"@ {
            Some(DolTool::GenerateExample)
        } else if s == "generate_schema_from_description"@ {
            Some(DolTool::GenerateSchemaFromDescription)
        } else if s == "validate_and_suggest"@ {
            Some(DolTool::ValidateAndSuggest)
        } else if s == "get_suggestions"@ {
            Some(DolTool::GetSuggestions)
        } else {
            None
        }
    }

    /// Get the tool name as a string.
    pub fn as_str(&self) -> (r: &'static str)
        ensures
            r@ == self.spec_as_str(),
    {
        match self {
            DolTool::Parse => "parse",
            DolTool::TypeCheck => "typecheck",
            DolTool::CompileRust => "compile_rust",
            DolTool::CompileTypeScript => "compile_typescript",
            DolTool::CompileWasm => "compile_wasm",
            DolTool::Eval => "eval",
            DolTool::Reflect => "reflect",
            DolTool::Format => "format",
            DolTool::ListMacros => "list_macros",
            DolTool::ExpandMacro => "expand_macro",
            DolTool::ValidateSchema => "validate_schema",
            DolTool::RecommendCrdt => "recommend_crdt",
            DolTool::ExplainStrategy => "explain_strategy",
            DolTool::GenerateExample => "generate_example",
            DolTool::GenerateSchemaFromDescription => "generate_schema_from_description",
            DolTool::ValidateAndSuggest => "validate_and_suggest",
            DolTool::GetSuggestions => "get_suggestions",
        }
    }

    /// Parse a tool name from a string.
    pub fn from_name(s: &str) -> (r: Option<DolTool>)
        ensures
            r == DolTool::spec_from_name(s@),
    {
        if crate::text::str_eq(s, "parse") {
            Some(DolTool::Parse)
        } else if crate::text::str_eq(s, "typecheck") {
            Some(DolTool::TypeCheck)
        } else if crate::text::str_eq(s, "compile_rust") {
            Some(DolTool::CompileRust)
        } else if crate::text::str_eq(s, "compile_typescript") {
            Some(DolTool::CompileTypeScript)
        } else if crate::text::str_eq(s, "compile_wasm") {
            Some(DolTool::CompileWasm)
        } else if crate::text::str_eq(s, "eval") {
            Some(DolTool::Eval)
        } else if crate::text::str_eq(s, "reflect") {
            Some(DolTool::Reflect)
        } else if crate::text::str_eq(s, "format") {
            Some(DolTool::Format)
        } else if crate::text::str_eq(s, "list_macros") {
            Some(DolTool::ListMacros)
        } else if crate::text::str_eq(s, "expand_macro") {
            Some(DolTool::ExpandMacro)
        } else if crate::text::str_eq(s, "validate_schema") {
            Some(DolTool::ValidateSchema)
        } else if crate::text::str_eq(s, "recommend_crdt") {
            Some(DolTool::RecommendCrdt)
        } else if crate::text::str_eq(s, "explain_strategy") {
            Some(DolTool::ExplainStrategy)
        } else if crate::text::str_eq(s, "generate_example") {
            Some(DolTool::GenerateExample)
        } else if crate::text::str_eq(s, "generate_schema_from_description") {
            Some(DolTool::GenerateSchemaFromDescription)
        } else if crate::text::str_eq(s, "validate_and_suggest") {
            Some(DolTool::ValidateAndSuggest)
        } else if crate::text::str_eq(s, "get_suggestions") {
            Some(DolTool::GetSuggestions)
        } else {
            None
        }
    }
}

/// The lengths of the tool names, and the characters that tell apart
/// names of equal length.
proof fn lemma_tool_name_facts()
    ensures
        "parse"@.len() == 5,
        "typecheck"@.len() == 9,
        "compile_rust"@.len() == 12,
        "compile_typescript"@.len() == 18,
        "compile_wasm"@.len() == 12,
        "eval"@.len() == 4,
        "reflect"@.len() == 7,
        "format"@.len() == 6,
        "list_macros"@.len() == 11,
        "expand_macro"@.len() == 12,
        "validate_schema"@.len() == 15,
        "recommend_crdt"@.len() == 14,
        "explain_strategy"@.len() == 16,
        "generate_example"@.len() == 16,
        "generate_schema_from_description"@.len() == 32,
        "validate_and_suggest"@.len() == 20,
        "get_suggestions"@.len() == 15,
        "compile_rust"@[0] == 'c',
        "compile_wasm"@[0] == 'c',
        "expand_macro"@[0] == 'e',
        "explain_strategy"@[0] == 'e',
        "generate_example"@[0] == 'g',
        "validate_schema"@[0] == 'v',
        "get_suggestions"@[0] == 'g',
        "compile_rust"@[8] == 'r',
        "compile_wasm"@[8] == 'w',
{
    reveal_strlit("parse");
    reveal_strlit("typecheck");
    reveal_strlit("compile_rust");
    reveal_strlit("compile_typescript");
    reveal_strlit("compile_wasm");
    reveal_strlit("eval");
    reveal_strlit("reflect");
    reveal_strlit("format");
    reveal_strlit("list_macros");
    reveal_strlit("expand_macro");
    reveal_strlit("validate_schema");
    reveal_strlit("recommend_crdt");
    reveal_strlit("explain_strategy");
    reveal_strlit("generate_example");
    reveal_strlit("generate_schema_from_description");
    reveal_strlit("validate_and_suggest");
    reveal_strlit("get_suggestions");
}

/// Reading back the name of a tool gives the tool.
pub proof fn lemma_tool_name_round_trip(t: DolTool)
    ensures
        DolTool::spec_from_name(t.spec_as_str()) == Some(t),
{
    lemma_tool_name_facts();
    match t {
        DolTool::Parse => {},
        DolTool::TypeCheck => {},
        DolTool::CompileRust => {},
        DolTool::CompileTypeScript => {},
        DolTool::CompileWasm => {},
        DolTool::Eval => {},
        DolTool::Reflect => {},
        DolTool::Format => {},
        DolTool::ListMacros => {},
        DolTool::ExpandMacro => {},
        DolTool::ValidateSchema => {},
        DolTool::RecommendCrdt => {},
        DolTool::ExplainStrategy => {},
        DolTool::GenerateExample => {},
        DolTool::GenerateSchemaFromDescription => {},
        DolTool::ValidateAndSuggest => {},
        DolTool::GetSuggestions => {},
    }
}

/// A name that reads as a tool is that tool's name.
pub proof fn lemma_tool_name_inverse(s: Seq<char>)
    ensures
        DolTool::spec_from_name(s) matches Some(t) ==> t.spec_as_str() == s,
{
}

} // verus!

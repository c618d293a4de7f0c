//! The MCP server of Metal DOL: its identity, the catalogue of tools it
//! offers, and the results its tools return.

use vstd::prelude::*;

use crate::text::owned;

verus! {

/// MCP Server for Metal DOL.
pub struct McpServer {
    /// Server name
    pub name: String,
    /// Server version
    pub version: String,
}

/// Tool execution result.
pub struct ToolResult {
    /// Content type (e.g., "text/plain", "application/json")
    pub content_type: String,
    /// Content string
    pub content: String,
}

/// Server manifest describing available tools.
pub struct ServerManifest {
    /// Server name
    pub name: String,
    /// Server version
    pub version: String,
    /// Available tools
    pub tools: Vec<ToolDef>,
}

/// Tool definition in the manifest.
pub struct ToolDef {
    /// Tool name
    pub name: String,
    /// Tool description
    pub description: String,
    /// Tool parameters
    pub parameters: Vec<ParamDef>,
}

/// Parameter definition for a tool.
pub struct ParamDef {
    /// Parameter name
    pub name: String,
    /// Parameter description
    pub description: String,
    /// Whether the parameter is required
    pub required: bool,
}

/// A parameter: name, description, and whether it is required.
pub type ParamView = (Seq<char>, Seq<char>, bool);

/// A tool: name, description and parameters.
pub type ToolView = (Seq<char>, Seq<char>, Seq<ParamView>);

/// The view of a parameter definition.
pub open spec fn param_view(p: ParamDef) -> ParamView {
    (p.name@, p.description@, p.required)
}

/// The view of a tool definition.
pub open spec fn tool_view(t: ToolDef) -> ToolView {
    (t.name@, t.description@, t.parameters@.map_values(|p: ParamDef| param_view(p)))
}

/// The views of the tools of a manifest.
pub open spec fn tools_view(tools: Seq<ToolDef>) -> Seq<ToolView> {
    tools.map_values(|t: ToolDef| tool_view(t))
}

/// The tools the server offers.
pub open spec fn manifest_tools() -> Seq<ToolView> {
    seq![
        ("parse"@, "Parse DOL source code into an AST"@, seq![("source"@, "DOL source code to parse"@, true)]),
        ("typecheck"@, "Type check a DOL expression"@, seq![("expr"@, "DOL expression to type check (JSON)"@, true)]),
        ("compile_rust"@, "Generate Rust code from DOL declarations"@, seq![("source"@, "DOL source code to compile"@, true)]),
        ("compile_typescript"@, "Generate TypeScript code from DOL declarations"@, seq![("source"@, "DOL source code to compile"@, true)]),
        ("compile_wasm"@, "Compile DOL to WebAssembly (future feature)"@, seq![("source"@, "DOL source code to compile"@, true)]),
        ("eval"@, "Evaluate a DOL expression"@, seq![("expr"@, "DOL expression to evaluate (JSON)"@, true)]),
        ("reflect"@, "Get runtime type information for a DOL type"@, seq![("type_name"@, "Name of the type to reflect on"@, true)]),
        ("format"@, "Format DOL source code (future feature)"@, seq![("source"@, "DOL source code to format"@, true)]),
        ("list_macros"@, "List all available macros"@, seq![]),
        ("expand_macro"@, "Expand a macro invocation"@, seq![("macro_name"@, "Name of the macro to expand"@, true), ("args"@, "Macro arguments (JSON)"@, false)]),
        ("validate_schema"@, "Validate DOL schema with CRDT annotations and detect anti-patterns"@, seq![("source"@, "DOL source code to validate"@, true)]),
        ("recommend_crdt"@, "Recommend CRDT strategy for a field based on usage pattern"@, seq![("field_name"@, "Name of the field"@, true), ("field_type"@, "Type of the field (e.g., String, i32, Set<String>)"@, true), ("usage_pattern"@, "Usage pattern: write-once, last-write-wins, collaborative-text, multi-user-set, counter, ordered-list"@, true), ("consistency_requirement"@, "Consistency level: eventual, causal, strong (default: eventual)"@, false)]),
        ("explain_strategy"@, "Explain a CRDT strategy's semantics, trade-offs, and use cases"@, seq![("strategy"@, "CRDT strategy: immutable, lww, peritext, or_set, pn_counter, rga, mv_register"@, true)]),
        ("generate_example"@, "Generate example DOL schema with CRDT annotations for common use cases"@, seq![("use_case"@, "Use case: chat_message, task_board, user_profile, counter (default: chat_message)"@, false)]),
    ]
}

/// The server's name.
pub open spec fn server_name() -> Seq<char> {
    "metadol-mcp"@
}

/// The server's version.
pub open spec fn server_version() -> Seq<char> {
    "0.9.0"@
}

fn param_def(name: &str, description: &str, required: bool) -> (r: ParamDef)
    ensures
        param_view(r) == (name@, description@, required),
{
    ParamDef { name: owned(name), description: owned(description), required }
}

fn tool_def(name: &str, description: &str, parameters: Vec<ParamDef>) -> (r: ToolDef)
    ensures
        r.name@ == name@,
        r.description@ == description@,
        r.parameters@ == parameters@,
{
    ToolDef { name: owned(name), description: owned(description), parameters }
}

impl McpServer {
    /// Creates a new MCP server.
    pub fn new() -> (r: McpServer)
        ensures
            r.name@ == server_name(),
            r.version@ == server_version(),
    {
        McpServer { name: owned("metadol-mcp"), version: owned("0.9.0") }
    }

    /// Returns the server manifest: the server's name and version and the
    /// tools it offers, with their parameters.
    pub fn manifest(&self) -> (r: ServerManifest)
        ensures
            r.name@ == self.name@,
            r.version@ == self.version@,
            tools_view(r.tools@) == manifest_tools(),
    {
        let tools = vec![
                tool_def("parse", "Parse DOL source code into an AST", vec![param_def("source", "DOL source code to parse", true)]),
                tool_def("typecheck", "Type check a DOL expression", vec![param_def("expr", "DOL expression to type check (JSON)", true)]),
                tool_def("compile_rust", "Generate Rust code from DOL declarations", vec![param_def("source", "DOL source code to compile", true)]),
                tool_def("compile_typescript", "Generate TypeScript code from DOL declarations", vec![param_def("source", "DOL source code to compile", true)]),
                tool_def("compile_wasm", "Compile DOL to WebAssembly (future feature)", vec![param_def("source", "DOL source code to compile", true)]),
                tool_def("eval", "Evaluate a DOL expression", vec![param_def("expr", "DOL expression to evaluate (JSON)", true)]),
                tool_def("reflect", "Get runtime type information for a DOL type", vec![param_def("type_name", "Name of the type to reflect on", true)]),
                tool_def("format", "Format DOL source code (future feature)", vec![param_def("source", "DOL source code to format", true)]),
                tool_def("list_macros", "List all available macros", vec![]),
                tool_def("expand_macro", "Expand a macro invocation", vec![param_def("macro_name", "Name of the macro to expand", true), param_def("args", "Macro arguments (JSON)", false)]),
                tool_def("validate_schema", "Validate DOL schema with CRDT annotations and detect anti-patterns", vec![param_def("source", "DOL source code to validate", true)]),
                tool_def("recommend_crdt", "Recommend CRDT strategy for a field based on usage pattern", vec![param_def("field_name", "Name of the field", true), param_def("field_type", "Type of the field (e.g., String, i32, Set<String>)", true), param_def("usage_pattern", "Usage pattern: write-once, last-write-wins, collaborative-text, multi-user-set, counter, ordered-list", true), param_def("consistency_requirement", "Consistency level: eventual, causal, strong (default: eventual)", false)]),
                tool_def("explain_strategy", "Explain a CRDT strategy's semantics, trade-offs, and use cases", vec![param_def("strategy", "CRDT strategy: immutable, lww, peritext, or_set, pn_counter, rga, mv_register", true)]),
                tool_def("generate_example", "Generate example DOL schema with CRDT annotations for common use cases", vec![param_def("use_case", "Use case: chat_message, task_board, user_profile, counter (default: chat_message)", false)]),
            ];
        assert(tools_view(tools@) =~~= manifest_tools());
        ServerManifest { name: self.name.clone(), version: self.version.clone(), tools }
    }
}

impl Default for McpServer {
    /// The server as `new` makes it.
    fn default() -> (r: McpServer)
        ensures
            r.name@ == server_name(),
            r.version@ == server_version(),
    {
        McpServer::new()
    }
}

impl ToolResult {
    /// Creates a plain text result.
    pub fn text(content: String) -> (r: ToolResult)
        ensures
            r.content_type@ == "text/plain"@,
            r.content@ == content@,
    {
        ToolResult { content_type: owned("text/plain"), content }
    }

    /// Creates a JSON result.
    pub fn json(content: String) -> (r: ToolResult)
        ensures
            r.content_type@ == "application/json"@,
            r.content@ == content@,
    {
        ToolResult { content_type: owned("application/json"), content }
    }
}

} // verus!

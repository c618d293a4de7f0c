//! Language-server support for DOL: code completion, with hover and
//! diagnostics entry points.

use vstd::prelude::*;

pub mod completion;

pub use completion::{
    CompletionContext, CompletionItem, CompletionItemKind, CompletionProvider,
    CrdtStrategyCompletion, FieldTypeCompletion,
};

use completion::{is_char_boundary, items_view, spec_completions};

verus! {

/// LSP server for DOL.
pub struct DolLspServer {
    completion_provider: CompletionProvider,
}

impl DolLspServer {
    /// The completion provider the server answers with.
    pub closed spec fn provider(&self) -> CompletionProvider {
        self.completion_provider
    }

    /// Creates a new DOL LSP server.
    pub fn new() -> (r: DolLspServer)
        ensures
            r.provider().templates() == completion::template_table(),
            r.provider().types() == completion::type_table(),
            r.provider().crdts() == completion::crdt_table(),
            r.provider().wf(),
    {
        DolLspServer { completion_provider: CompletionProvider::new() }
    }

    /// Provides completions at byte offset `position` of `source`.
    pub fn provide_completions(&self, source: &str, position: usize) -> (r: Vec<CompletionItem>)
        requires
            self.provider().wf(),
            is_char_boundary(source@, position),
        ensures
            items_view(r@) == spec_completions(self.provider(), source@, position),
    {
        self.completion_provider.provide_completions(source, position)
    }

    /// Provides hover information at a given position: there is none.
    pub fn provide_hover(&self, source: &str, position: usize) -> (r: Option<String>)
        ensures
            r is None,
    {
        None
    }

    /// Provides diagnostics for the source: there are none.
    pub fn provide_diagnostics(&self, source: &str) -> (r: Vec<Diagnostic>)
        ensures
            r@.len() == 0,
    {
        Vec::new()
    }
}

impl Default for DolLspServer {
    /// A server with the built-in completion tables.
    fn default() -> (r: DolLspServer)
        ensures
            r.provider().wf(),
    {
        DolLspServer::new()
    }
}

/// LSP diagnostic message.
#[derive(Debug)]
pub struct Diagnostic {
    /// Range in the source
    pub range: (usize, usize),
    /// Severity level
    pub severity: DiagnosticSeverity,
    /// Diagnostic message
    pub message: String,
}

impl Clone for Diagnostic {
    /// A copy of the diagnostic.
    fn clone(&self) -> (r: Diagnostic)
        ensures
            r.range == self.range,
            r.severity == self.severity,
            r.message@ == self.message@,
    {
        Diagnostic { range: self.range, severity: self.severity, message: self.message.clone() }
    }
}

/// Diagnostic severity levels.
#[derive(Debug, Clone, Copy, PartialEq, Eq, Structural)]
pub enum DiagnosticSeverity {
    /// Error
    Error,
    /// Warning
    Warning,
    /// Information
    Information,
    /// Hint
    Hint,
}

} // verus!

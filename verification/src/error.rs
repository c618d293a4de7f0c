//! Error types: lexing, parsing, validation and ABI-boundary errors.
//!
//! Each error type offers a `message` method that renders the text that a
//! user sees, specified exactly over the error's fields.

use vstd::prelude::*;

use crate::ast::Span;
use crate::text::{concat, owned, spec_decimal, usize_to_string, push_char};

verus! {

/// ` at line L, column C`
pub open spec fn spec_at_line_col(span: Span) -> Seq<char> {
    " at line "@ + spec_decimal(span.line as nat) + ", column "@ + spec_decimal(span.column as nat)
}

/// Renders ` at line L, column C`.
pub fn at_line_col(span: Span) -> (r: String)
    ensures
        r@ == spec_at_line_col(span),
{
    let mut s = owned(" at line ");
    s.append(usize_to_string(span.line).as_str());
    s.append(", column ");
    s.append(usize_to_string(span.column).as_str());
    s
}

/// Errors that can occur during lexical analysis.
#[derive(Debug, Clone, PartialEq)]
pub enum LexError {
    /// An unexpected character was encountered.
    UnexpectedChar {
        /// The unexpected character
        ch: char,
        /// Location in the source
        span: Span,
    },
    /// A string literal was not closed on its line.
    UnterminatedString {
        /// Location of the opening quote
        span: Span,
    },
    /// An invalid version number was encountered.
    InvalidVersion {
        /// The invalid version text
        text: String,
        /// Location in the source
        span: Span,
    },
    /// An invalid escape sequence was found in a string.
    InvalidEscape {
        /// The character after the backslash
        ch: char,
        /// Location of the escape sequence
        span: Span,
    },
}

impl LexError {
    /// The text of the error.
    pub open spec fn spec_message(&self) -> Seq<char> {
        match self {
            LexError::UnexpectedChar { ch, span } => "unexpected character '"@ + seq![*ch] + "'"@
                + spec_at_line_col(*span),
            LexError::UnterminatedString { span } => "unterminated string literal starting"@
                + spec_at_line_col(*span),
            LexError::InvalidVersion { text, span } => "invalid version number '"@ + text@ + "'"@
                + spec_at_line_col(*span),
            LexError::InvalidEscape { ch, span } => "invalid escape sequence '\\"@ + seq![*ch]
                + "'"@ + spec_at_line_col(*span),
        }
    }

    /// Renders the error.
    pub fn message(&self) -> (r: String)
        ensures
            r@ == self.spec_message(),
    {
        match self {
            LexError::UnexpectedChar { ch, span } => {
                let mut s = owned("unexpected character '");
                push_char(&mut s, *ch);
                s.append("'");
                s.append(at_line_col(*span).as_str());
                s
            },
            LexError::UnterminatedString { span } => {
                concat("unterminated string literal starting", at_line_col(*span).as_str())
            },
            LexError::InvalidVersion { text, span } => {
                let mut s = owned("invalid version number '");
                s.append(text.as_str());
                s.append("'");
                s.append(at_line_col(*span).as_str());
                s
            },
            LexError::InvalidEscape { ch, span } => {
                let mut s = owned("invalid escape sequence '\\");
                push_char(&mut s, *ch);
                s.append("'");
                s.append(at_line_col(*span).as_str());
                s
            },
        }
    }

    /// The location of the error.
    pub open spec fn spec_span(&self) -> Span {
        match self {
            LexError::UnexpectedChar { span, .. } => *span,
            LexError::UnterminatedString { span } => *span,
            LexError::InvalidVersion { span, .. } => *span,
            LexError::InvalidEscape { span, .. } => *span,
        }
    }
}

/// Errors that can occur during parsing.
#[derive(Debug, Clone, PartialEq)]
pub enum ParseError {
    /// An unexpected token was encountered.
    UnexpectedToken {
        /// Description of what was expected
        expected: String,
        /// Description of what was found
        found: String,
        /// Location of the unexpected token
        span: Span,
    },
    /// The required exegesis block is missing.
    MissingExegesis {
        /// Location where exegesis was expected
        span: Span,
    },
    /// A statement uses an invalid predicate or structure.
    InvalidStatement {
        /// Description of the error
        message: String,
        /// Location of the invalid statement
        span: Span,
    },
    /// An invalid declaration keyword was encountered.
    InvalidDeclaration {
        /// The keyword found
        found: String,
        /// Location of the declaration
        span: Span,
    },
    /// Unexpected end of file.
    UnexpectedEof {
        /// Context about what was being parsed
        context: String,
        /// Location at end of file
        span: Span,
    },
    /// A lexer error occurred during parsing.
    LexerError(LexError),
    /// An invalid CRDT strategy was specified.
    InvalidCrdtStrategy {
        /// The invalid strategy name
        strategy: String,
        /// Location of the invalid strategy
        span: Span,
    },
}

impl ParseError {
    /// The location of the error.
    pub open spec fn spec_span(&self) -> Span {
        match self {
            ParseError::UnexpectedToken { span, .. } => *span,
            ParseError::MissingExegesis { span } => *span,
            ParseError::InvalidStatement { span, .. } => *span,
            ParseError::InvalidCrdtStrategy { span, .. } => *span,
            ParseError::InvalidDeclaration { span, .. } => *span,
            ParseError::UnexpectedEof { span, .. } => *span,
            ParseError::LexerError(e) => e.spec_span(),
        }
    }

    /// Returns the source span where this error occurred.
    pub fn span(&self) -> (r: Span)
        ensures
            r == self.spec_span(),
    {
        match self {
            ParseError::UnexpectedToken { span, .. } => *span,
            ParseError::MissingExegesis { span } => *span,
            ParseError::InvalidStatement { span, .. } => *span,
            ParseError::InvalidCrdtStrategy { span, .. } => *span,
            ParseError::InvalidDeclaration { span, .. } => *span,
            ParseError::UnexpectedEof { span, .. } => *span,
            ParseError::LexerError(lex_err) => match lex_err {
                LexError::UnexpectedChar { span, .. } => *span,
                LexError::UnterminatedString { span } => *span,
                LexError::InvalidVersion { span, .. } => *span,
                LexError::InvalidEscape { span, .. } => *span,
            },
        }
    }

    /// The text of the error.
    pub open spec fn spec_message(&self) -> Seq<char> {
        match self {
            ParseError::UnexpectedToken { expected, found, span } => "expected "@ + expected@
                + ", found "@ + found@ + spec_at_line_col(*span),
            ParseError::MissingExegesis { span } => "missing required exegesis block"@
                + spec_at_line_col(*span),
            ParseError::InvalidStatement { message, span } => message@ + spec_at_line_col(*span),
            ParseError::InvalidDeclaration { found, span } => "invalid declaration type '"@
                + found@ + "'"@ + spec_at_line_col(*span) + DECLARATION_KEYWORDS_NOTE@,
            ParseError::UnexpectedEof { context, span } => "unexpected end of file"@
                + spec_at_line_col(*span) + ": "@ + context@,
            ParseError::LexerError(e) => "lexer error: "@ + e.spec_message(),
            ParseError::InvalidCrdtStrategy { strategy, span } => "invalid CRDT strategy '"@
                + strategy@ + "'"@ + spec_at_line_col(*span) + CRDT_STRATEGIES_NOTE@,
        }
    }

    /// Renders the error.
    pub fn message(&self) -> (r: String)
        ensures
            r@ == self.spec_message(),
    {
        match self {
            ParseError::UnexpectedToken { expected, found, span } => {
                let mut s = owned("expected ");
                s.append(expected.as_str());
                s.append(", found ");
                s.append(found.as_str());
                s.append(at_line_col(*span).as_str());
                s
            },
            ParseError::MissingExegesis { span } => {
                concat("missing required exegesis block", at_line_col(*span).as_str())
            },
            ParseError::InvalidStatement { message, span } => {
                concat(message.as_str(), at_line_col(*span).as_str())
            },
            ParseError::InvalidDeclaration { found, span } => {
                let mut s = owned("invalid declaration type '");
                s.append(found.as_str());
                s.append("'");
                s.append(at_line_col(*span).as_str());
                s.append(DECLARATION_KEYWORDS_NOTE);
                s
            },
            ParseError::UnexpectedEof { context, span } => {
                let mut s = owned("unexpected end of file");
                s.append(at_line_col(*span).as_str());
                s.append(": ");
                s.append(context.as_str());
                s
            },
            ParseError::LexerError(e) => concat("lexer error: ", e.message().as_str()),
            ParseError::InvalidCrdtStrategy { strategy, span } => {
                let mut s = owned("invalid CRDT strategy '");
                s.append(strategy.as_str());
                s.append("'");
                s.append(at_line_col(*span).as_str());
                s.append(CRDT_STRATEGIES_NOTE);
                s
            },
        }
    }
}

/// The list of declaration keywords quoted in `InvalidDeclaration`.
pub const DECLARATION_KEYWORDS_NOTE: &'static str =
    " (expected module, use, pub, fun, gen, gene, trait, rule, constraint, system, evo, evolves, docs, or exegesis)";

/// The list of strategies quoted in `InvalidCrdtStrategy`.
pub const CRDT_STRATEGIES_NOTE: &'static str =
    " (expected one of: immutable, lww, or_set, pn_counter, peritext, rga, mv_register)";

impl From<LexError> for ParseError {
    /// Wraps a lexer error.
    fn from(e: LexError) -> (r: ParseError)
        ensures
            r == ParseError::LexerError(e),
    {
        ParseError::LexerError(e)
    }
}

impl vstd::std_specs::convert::FromSpecImpl<LexError> for ParseError {
    open spec fn obeys_from_spec() -> bool {
        true
    }

    open spec fn from_spec(e: LexError) -> ParseError {
        ParseError::LexerError(e)
    }
}

/// Errors that can occur during semantic validation.
#[derive(Debug, Clone, PartialEq)]
pub enum ValidationError {
    /// An identifier does not follow naming conventions.
    InvalidIdentifier { name: String, reason: String },
    /// A reference to another declaration could not be resolved.
    UnresolvedReference { reference: String, span: Span },
    /// A version number is invalid.
    InvalidVersion { version: String, reason: String },
    /// A duplicate definition was found.
    DuplicateDefinition { kind: String, name: String },
    /// An evolution references a non-existent parent version.
    InvalidEvolutionLineage { name: String, parent: String },
    /// A type error occurred during type checking.
    TypeError { message: String, expected: Option<String>, actual: Option<String>, span: Span },
    /// A CRDT strategy is incompatible with the field type.
    IncompatibleCrdtStrategy {
        field: String,
        type_: String,
        strategy: String,
        suggestion: String,
        span: Span,
    },
    /// A constraint conflicts with CRDT semantics.
    ConstraintCrdtConflict { constraint: String, field: String, message: String, span: Span },
    /// An evolution attempts an invalid CRDT strategy change.
    InvalidCrdtEvolution {
        field: String,
        old_strategy: String,
        new_strategy: String,
        reason: String,
        span: Span,
    },
}

impl ValidationError {
    /// The text of the error.
    pub open spec fn spec_message(&self) -> Seq<char> {
        match self {
            ValidationError::InvalidIdentifier { name, reason } => "invalid identifier '"@ + name@
                + "': "@ + reason@,
            ValidationError::UnresolvedReference { reference, span } =>
                "unresolved reference to '"@ + reference@ + "'"@ + spec_at_line_col(*span),
            ValidationError::InvalidVersion { version, reason } => "invalid version '"@ + version@
                + "': "@ + reason@,
            ValidationError::DuplicateDefinition { kind, name } => "duplicate "@ + kind@ + " '"@
                + name@ + "'"@,
            ValidationError::InvalidEvolutionLineage { name, parent } =>
                "evolution references non-existent parent version '"@ + parent@ + "' for '"@
                + name@ + "'"@,
            ValidationError::TypeError { message, span, .. } => "type error"@ + spec_at_line_col(
                *span,
            ) + ": "@ + message@,
            ValidationError::IncompatibleCrdtStrategy { field, type_, strategy, span, .. } =>
                "incompatible CRDT strategy for field '"@ + field@ + "'"@ + spec_at_line_col(*span)
                + ": "@ + strategy@ + " cannot be used with type "@ + type_@,
            ValidationError::ConstraintCrdtConflict { constraint, span, .. } => "constraint '"@
                + constraint@ + "' requires strong consistency"@ + spec_at_line_col(*span),
            ValidationError::InvalidCrdtEvolution {
                field,
                old_strategy,
                new_strategy,
                span,
                ..
            } => "invalid CRDT strategy evolution for field '"@ + field@ + "'"@ + spec_at_line_col(
                *span,
            ) + ": cannot change "@ + old_strategy@ + " to "@ + new_strategy@,
        }
    }

    /// Renders the error.
    pub fn message(&self) -> (r: String)
        ensures
            r@ == self.spec_message(),
    {
        match self {
            ValidationError::InvalidIdentifier { name, reason } => {
                let mut s = owned("invalid identifier '");
                s.append(name.as_str());
                s.append("': ");
                s.append(reason.as_str());
                s
            },
            ValidationError::UnresolvedReference { reference, span } => {
                let mut s = owned("unresolved reference to '");
                s.append(reference.as_str());
                s.append("'");
                s.append(at_line_col(*span).as_str());
                s
            },
            ValidationError::InvalidVersion { version, reason } => {
                let mut s = owned("invalid version '");
                s.append(version.as_str());
                s.append("': ");
                s.append(reason.as_str());
                s
            },
            ValidationError::DuplicateDefinition { kind, name } => {
                let mut s = owned("duplicate ");
                s.append(kind.as_str());
                s.append(" '");
                s.append(name.as_str());
                s.append("'");
                s
            },
            ValidationError::InvalidEvolutionLineage { name, parent } => {
                let mut s = owned("evolution references non-existent parent version '");
                s.append(parent.as_str());
                s.append("' for '");
                s.append(name.as_str());
                s.append("'");
                s
            },
            ValidationError::TypeError { message, span, .. } => {
                let mut s = owned("type error");
                s.append(at_line_col(*span).as_str());
                s.append(": ");
                s.append(message.as_str());
                s
            },
            ValidationError::IncompatibleCrdtStrategy { field, type_, strategy, span, .. } => {
                let mut s = owned("incompatible CRDT strategy for field '");
                s.append(field.as_str());
                s.append("'");
                s.append(at_line_col(*span).as_str());
                s.append(": ");
                s.append(strategy.as_str());
                s.append(" cannot be used with type ");
                s.append(type_.as_str());
                s
            },
            ValidationError::ConstraintCrdtConflict { constraint, span, .. } => {
                let mut s = owned("constraint '");
                s.append(constraint.as_str());
                s.append("' requires strong consistency");
                s.append(at_line_col(*span).as_str());
                s
            },
            ValidationError::InvalidCrdtEvolution {
                field,
                old_strategy,
                new_strategy,
                span,
                ..
            } => {
                let mut s = owned("invalid CRDT strategy evolution for field '");
                s.append(field.as_str());
                s.append("'");
                s.append(at_line_col(*span).as_str());
                s.append(": cannot change ");
                s.append(old_strategy.as_str());
                s.append(" to ");
                s.append(new_strategy.as_str());
                s
            },
        }
    }
}

/// A non-critical validation warning.
#[derive(Debug, Clone, PartialEq)]
pub enum ValidationWarning {
    /// The exegesis is unusually short.
    ShortExegesis { length: usize, span: Span },
    /// An identifier doesn't follow recommended naming conventions.
    NamingConvention { name: String, suggestion: String },
    /// A deprecated feature is being used.
    DeprecatedFeature { feature: String, alternative: String },
    /// A constraint may be eventually consistent in a CRDT context.
    EventuallyConsistent { constraint: String, field: String, message: String, span: Span },
    /// A constraint requires coordination mechanisms.
    RequiresCoordination {
        constraint: String,
        field: String,
        message: String,
        suggestion: String,
        span: Span,
    },
}

impl ValidationWarning {
    /// The text of the warning.
    pub open spec fn spec_message(&self) -> Seq<char> {
        match self {
            ValidationWarning::ShortExegesis { length, span } => "exegesis is unusually short ("@
                + spec_decimal(*length as nat) + " chars)"@ + spec_at_line_col(*span),
            ValidationWarning::NamingConvention { name, suggestion } => "identifier '"@ + name@
                + "' doesn't follow naming convention; consider: "@ + suggestion@,
            ValidationWarning::DeprecatedFeature { feature, alternative } =>
                "deprecated feature '"@ + feature@ + "'; use '"@ + alternative@ + "' instead"@,
            ValidationWarning::EventuallyConsistent { constraint, field, message, span } =>
                "constraint '"@ + constraint@ + "' on field '"@ + field@
                + "' may be eventually consistent"@ + spec_at_line_col(*span) + ": "@ + message@,
            ValidationWarning::RequiresCoordination {
                constraint,
                field,
                message,
                suggestion,
                span,
            } => "constraint '"@ + constraint@ + "' on field '"@ + field@
                + "' requires coordination"@ + spec_at_line_col(*span) + ": "@ + message@
                + " (suggestion: "@ + suggestion@ + ")"@,
        }
    }

    /// Renders the warning.
    pub fn message(&self) -> (r: String)
        ensures
            r@ == self.spec_message(),
    {
        match self {
            ValidationWarning::ShortExegesis { length, span } => {
                let mut s = owned("exegesis is unusually short (");
                s.append(usize_to_string(*length).as_str());
                s.append(" chars)");
                s.append(at_line_col(*span).as_str());
                s
            },
            ValidationWarning::NamingConvention { name, suggestion } => {
                let mut s = owned("identifier '");
                s.append(name.as_str());
                s.append("' doesn't follow naming convention; consider: ");
                s.append(suggestion.as_str());
                s
            },
            ValidationWarning::DeprecatedFeature { feature, alternative } => {
                let mut s = owned("deprecated feature '");
                s.append(feature.as_str());
                s.append("'; use '");
                s.append(alternative.as_str());
                s.append("' instead");
                s
            },
            ValidationWarning::EventuallyConsistent { constraint, field, message, span } => {
                let mut s = owned("constraint '");
                s.append(constraint.as_str());
                s.append("' on field '");
                s.append(field.as_str());
                s.append("' may be eventually consistent");
                s.append(at_line_col(*span).as_str());
                s.append(": ");
                s.append(message.as_str());
                s
            },
            ValidationWarning::RequiresCoordination {
                constraint,
                field,
                message,
                suggestion,
                span,
            } => {
                let mut s = owned("constraint '");
                s.append(constraint.as_str());
                s.append("' on field '");
                s.append(field.as_str());
                s.append("' requires coordination");
                s.append(at_line_col(*span).as_str());
                s.append(": ");
                s.append(message.as_str());
                s.append(" (suggestion: ");
                s.append(suggestion.as_str());
                s.append(")");
                s
            },
        }
    }
}

/// A collection of validation errors and warnings.
#[derive(Debug, Clone)]
pub struct ValidationErrors {
    /// Critical errors that must be fixed
    pub errors: Vec<ValidationError>,
    /// Warnings that should be addressed
    pub warnings: Vec<ValidationWarning>,
}

impl ValidationErrors {
    /// Creates a new empty error collection.
    pub fn new() -> (r: Self)
        ensures
            r.errors@.len() == 0,
            r.warnings@.len() == 0,
    {
        ValidationErrors { errors: Vec::new(), warnings: Vec::new() }
    }

    /// Returns true if there are any errors.
    pub fn has_errors(&self) -> (r: bool)
        ensures
            r == (self.errors@.len() > 0),
    {
        self.errors.len() > 0
    }

    /// Returns true if there are any warnings.
    pub fn has_warnings(&self) -> (r: bool)
        ensures
            r == (self.warnings@.len() > 0),
    {
        self.warnings.len() > 0
    }

    /// Returns true if there are no errors or warnings.
    pub fn is_empty(&self) -> (r: bool)
        ensures
            r == (self.errors@.len() == 0 && self.warnings@.len() == 0),
    {
        self.errors.len() == 0 && self.warnings.len() == 0
    }

    /// Adds an error to the collection.
    pub fn add_error(&mut self, error: ValidationError)
        ensures
            final(self).errors@ == old(self).errors@.push(error),
            final(self).warnings@ == old(self).warnings@,
    {
        self.errors.push(error);
    }

    /// Adds a warning to the collection.
    pub fn add_warning(&mut self, warning: ValidationWarning)
        ensures
            final(self).warnings@ == old(self).warnings@.push(warning),
            final(self).errors@ == old(self).errors@,
    {
        self.warnings.push(warning);
    }
}

impl Default for ValidationErrors {
    /// An empty collection.
    fn default() -> (r: Self)
        ensures
            r.errors@.len() == 0,
            r.warnings@.len() == 0,
    {
        ValidationErrors::new()
    }
}

/// Errors that can occur at ABI (application binary interface) boundaries.
#[derive(Debug, Clone, PartialEq, Eq)]
pub enum AbiError {
    /// An invalid pointer was encountered.
    InvalidPointer,
    /// Memory allocation failed.
    OutOfMemory,
    /// A message received across the boundary is invalid.
    InvalidMessage(String),
    /// An operation timed out.
    Timeout,
    /// An effect execution failed.
    EffectFailed(String),
    /// An unknown error occurred.
    UnknownError(String),
}

impl AbiError {
    /// The text of the error.
    pub open spec fn spec_message(&self) -> Seq<char> {
        match self {
            AbiError::InvalidPointer => "Invalid pointer"@,
            AbiError::OutOfMemory => "Out of memory"@,
            AbiError::InvalidMessage(m) => "Invalid message: "@ + m@,
            AbiError::Timeout => "Operation timed out"@,
            AbiError::EffectFailed(m) => "Effect failed: "@ + m@,
            AbiError::UnknownError(m) => "Unknown error: "@ + m@,
        }
    }

    /// Renders the error.
    pub fn message(&self) -> (r: String)
        ensures
            r@ == self.spec_message(),
    {
        match self {
            AbiError::InvalidPointer => owned("Invalid pointer"),
            AbiError::OutOfMemory => owned("Out of memory"),
            AbiError::InvalidMessage(m) => concat("Invalid message: ", m.as_str()),
            AbiError::Timeout => owned("Operation timed out"),
            AbiError::EffectFailed(m) => concat("Effect failed: ", m.as_str()),
            AbiError::UnknownError(m) => concat("Unknown error: ", m.as_str()),
        }
    }

    /// The name of the variant, as the serialised form records it.
    pub open spec fn spec_kind_label(&self) -> Seq<char> {
        match self {
            AbiError::InvalidPointer => "InvalidPointer"@,
            AbiError::OutOfMemory => "OutOfMemory"@,
            AbiError::InvalidMessage(_) => "InvalidMessage"@,
            AbiError::Timeout => "Timeout"@,
            AbiError::EffectFailed(_) => "EffectFailed"@,
            AbiError::UnknownError(_) => "UnknownError"@,
        }
    }

    /// The `(type, message)` pair that the serialised form holds.
    pub fn to_parts(&self) -> (r: (String, String))
        ensures
            r.0@ == self.spec_kind_label(),
            r.1@ == match self {
                AbiError::InvalidMessage(m) => m@,
                AbiError::EffectFailed(m) => m@,
                AbiError::UnknownError(m) => m@,
                _ => self.spec_message(),
            },
    {
        match self {
            AbiError::InvalidPointer => (owned("InvalidPointer"), owned("Invalid pointer")),
            AbiError::OutOfMemory => (owned("OutOfMemory"), owned("Out of memory")),
            AbiError::InvalidMessage(m) => (owned("InvalidMessage"), m.clone()),
            AbiError::Timeout => (owned("Timeout"), owned("Operation timed out")),
            AbiError::EffectFailed(m) => (owned("EffectFailed"), m.clone()),
            AbiError::UnknownError(m) => (owned("UnknownError"), m.clone()),
        }
    }

    /// Rebuilds an error from its `(type, message)` pair; `None` for an
    /// unknown type name.
    pub fn from_parts(kind_name: &str, message: String) -> (r: Option<AbiError>)
        ensures
            r == if kind_name@ == "InvalidPointer"@ {
                Some(AbiError::InvalidPointer)
            } else if kind_name@ == "OutOfMemory"@ {
                Some(AbiError::OutOfMemory)
            } else if kind_name@ == "InvalidMessage"@ {
                Some(AbiError::InvalidMessage(message))
            } else if kind_name@ == "Timeout"@ {
                Some(AbiError::Timeout)
            } else if kind_name@ == "EffectFailed"@ {
                Some(AbiError::EffectFailed(message))
            } else if kind_name@ == "UnknownError"@ {
                Some(AbiError::UnknownError(message))
            } else {
                None
            },
    {
        if crate::text::str_eq(kind_name, "InvalidPointer") {
            Some(AbiError::InvalidPointer)
        } else if crate::text::str_eq(kind_name, "OutOfMemory") {
            Some(AbiError::OutOfMemory)
        } else if crate::text::str_eq(kind_name, "InvalidMessage") {
            Some(AbiError::InvalidMessage(message))
        } else if crate::text::str_eq(kind_name, "Timeout") {
            Some(AbiError::Timeout)
        } else if crate::text::str_eq(kind_name, "EffectFailed") {
            Some(AbiError::EffectFailed(message))
        } else if crate::text::str_eq(kind_name, "UnknownError") {
            Some(AbiError::UnknownError(message))
        } else {
            None
        }
    }
}

impl From<String> for AbiError {
    /// Wraps a message as an unknown error.
    fn from(s: String) -> (r: AbiError)
        ensures
            r == AbiError::UnknownError(s),
    {
        AbiError::UnknownError(s)
    }
}

impl vstd::std_specs::convert::FromSpecImpl<String> for AbiError {
    open spec fn obeys_from_spec() -> bool {
        true
    }

    open spec fn from_spec(s: String) -> AbiError {
        AbiError::UnknownError(s)
    }
}

impl From<&str> for AbiError {
    /// Wraps a message as an unknown error.
    fn from(s: &str) -> (r: AbiError)
        ensures
            r matches AbiError::UnknownError(m) && m@ == s@,
    {
        AbiError::UnknownError(owned(s))
    }
}

impl vstd::std_specs::convert::FromSpecImpl<&str> for AbiError {
    /// No spec function gives the value: the message is a new `String`, of
    /// which `from` states the text.
    open spec fn obeys_from_spec() -> bool {
        false
    }

    open spec fn from_spec(s: &str) -> AbiError {
        arbitrary()
    }
}

/// Serialising an error into its `(type, message)` pair and reading it back
/// gives the same error.
pub proof fn lemma_abi_error_round_trip(e: AbiError, kind_name: Seq<char>, message: String)
    requires
        kind_name == e.spec_kind_label(),
        message@ == match e {
            AbiError::InvalidMessage(m) => m@,
            AbiError::EffectFailed(m) => m@,
            AbiError::UnknownError(m) => m@,
            _ => e.spec_message(),
        },
    ensures
        abi_from_parts_spec(kind_name, message) matches Some(back) && back.spec_kind_label()
            == e.spec_kind_label() && back.spec_message() == e.spec_message(),
{
    reveal_strlit("InvalidPointer");
    reveal_strlit("OutOfMemory");
    reveal_strlit("InvalidMessage");
    reveal_strlit("Timeout");
    reveal_strlit("EffectFailed");
    reveal_strlit("UnknownError");
    assert("InvalidPointer"@.len() == 14 && "OutOfMemory"@.len() == 11);
    assert("InvalidMessage"@.len() == 14 && "Timeout"@.len() == 7);
    assert("EffectFailed"@.len() == 12 && "UnknownError"@.len() == 12);
    assert("InvalidPointer"@[7] != "InvalidMessage"@[7]);
    assert("EffectFailed"@[0] != "UnknownError"@[0]);
}

/// What `AbiError::from_parts` returns.
pub open spec fn abi_from_parts_spec(kind_name: Seq<char>, message: String) -> Option<AbiError> {
    if kind_name == "InvalidPointer"@ {
        Some(AbiError::InvalidPointer)
    } else if kind_name == "OutOfMemory"@ {
        Some(AbiError::OutOfMemory)
    } else if kind_name == "InvalidMessage"@ {
        Some(AbiError::InvalidMessage(message))
    } else if kind_name == "Timeout"@ {
        Some(AbiError::Timeout)
    } else if kind_name == "EffectFailed"@ {
        Some(AbiError::EffectFailed(message))
    } else if kind_name == "UnknownError"@ {
        Some(AbiError::UnknownError(message))
    } else {
        None
    }
}

} // verus!

//! Lexical analysis for Metal DOL.
//!
//! The lexer turns DOL source text into tokens: keywords, predicates,
//! operators and delimiters, qualified identifiers, semantic versions and
//! double-quoted strings. White space and `//` comments are skipped.
//!
//! The token grammar is given by the spec functions of this module over the
//! character sequence of the source; `Lexer::next_token` is proved to follow
//! it, including the source location of every token and every error.

use vstd::prelude::*;

use crate::ast::Span;
use crate::error::LexError;
use crate::text::{
    chars_of, is_alphabetic, is_alphanumeric, is_ascii_digit, is_whitespace, push_char,
    spec_is_digit, spec_is_whitespace, spec_utf8_width, alphabetic, alphanumeric,
    string_from_range, str_eq, utf8_width,
};

verus! {

/// A lexical token: its kind, the text it stands for, and its location.
#[derive(Debug, Clone, PartialEq)]
pub struct Token {
    /// The category of this token
    pub kind: TokenKind,
    /// The source text of the token (for strings: the unescaped content)
    pub lexeme: String,
    /// Source location
    pub span: Span,
}

impl Token {
    /// Creates a new token.
    pub fn new(kind: TokenKind, lexeme: String, span: Span) -> (r: Token)
        ensures
            r.kind == kind,
            r.lexeme@ == lexeme@,
            r.span == span,
    {
        Token { kind, lexeme, span }
    }
}

impl Default for Token {
    /// An end-of-file token with empty text and the empty span.
    fn default() -> (r: Token)
        ensures
            r.kind == TokenKind::Eof,
            r.lexeme@.len() == 0,
            r.span == (Span { start: 0, end: 0, line: 0, column: 0 }),
    {
        Token {
            kind: TokenKind::Eof,
            lexeme: String::new(),
            span: Span { start: 0, end: 0, line: 0, column: 0 },
        }
    }
}

/// The category of a lexical token.
#[derive(Debug, Clone, Copy, PartialEq, Eq, Hash, Structural)]
pub enum TokenKind {
    // Declaration keywords
    /// `gene`
    Gene,
    /// `trait`
    Trait,
    /// `constraint`
    Constraint,
    /// `system`
    System,
    /// `evolves`
    Evolves,
    /// `exegesis`
    Exegesis,
    // Predicates
    /// `has`
    Has,
    /// `is`
    Is,
    /// `derives`
    Derives,
    /// `from`
    From,
    /// `requires`
    Requires,
    /// `uses`
    Uses,
    /// `emits`
    Emits,
    /// `matches`
    Matches,
    /// `never`
    Never,
    // Evolution keywords
    /// `adds`
    Adds,
    /// `deprecates`
    Deprecates,
    /// `removes`
    Removes,
    /// `because`
    Because,
    // Test keywords
    /// `test`
    Test,
    /// `given`
    Given,
    /// `when`
    When,
    /// `then`
    Then,
    /// `always`
    Always,
    // Quantifiers
    /// `each`
    Each,
    /// `all`
    All,
    /// `no`
    No,
    // Delimiters
    /// `{`
    LeftBrace,
    /// `}`
    RightBrace,
    // Operators and punctuation
    /// `@`
    At,
    /// `>`
    Greater,
    /// `>=`
    GreaterEqual,
    /// `=`
    Equal,
    // Literals
    /// A dot-notation identifier
    Identifier,
    /// A semantic version number
    Version,
    /// A quoted string literal
    String,
    // Special
    /// End of input
    Eof,
    /// Unrecognized input
    Error,
}

impl TokenKind {
    /// The name of the kind, as its `Debug` form prints it.
    pub open spec fn spec_debug_name(self) -> Seq<char> {
        match self {
            TokenKind::Gene => "Gene"@,
            TokenKind::Trait => "Trait"@,
            TokenKind::Constraint => "Constraint"@,
            TokenKind::System => "System"@,
            TokenKind::Evolves => "Evolves"@,
            TokenKind::Exegesis => "Exegesis"@,
            TokenKind::Has => "Has"@,
            TokenKind::Is => "Is"@,
            TokenKind::Derives => "Derives"@,
            TokenKind::From => "From"@,
            TokenKind::Requires => "Requires"@,
            TokenKind::Uses => "Uses"@,
            TokenKind::Emits => "Emits"@,
            TokenKind::Matches => "Matches"@,
            TokenKind::Never => "Never"@,
            TokenKind::Adds => "Adds"@,
            TokenKind::Deprecates => "Deprecates"@,
            TokenKind::Removes => "Removes"@,
            TokenKind::Because => "Because"@,
            TokenKind::Test => "Test"@,
            TokenKind::Given => "Given"@,
            TokenKind::When => "When"@,
            TokenKind::Then => "Then"@,
            TokenKind::Always => "Always"@,
            TokenKind::Each => "Each"@,
            TokenKind::All => "All"@,
            TokenKind::No => "No"@,
            TokenKind::LeftBrace => "LeftBrace"@,
            TokenKind::RightBrace => "RightBrace"@,
            TokenKind::At => "At"@,
            TokenKind::Greater => "Greater"@,
            TokenKind::GreaterEqual => "GreaterEqual"@,
            TokenKind::Equal => "Equal"@,
            TokenKind::Identifier => "Identifier"@,
            TokenKind::Version => "Version"@,
            TokenKind::String => "String"@,
            TokenKind::Eof => "Eof"@,
            TokenKind::Error => "Error"@,
        }
    }

    /// The name of the kind, as its `Debug` form prints it.
    pub fn debug_name(&self) -> (r: &'static str)
        ensures
            r@ == self.spec_debug_name(),
    {
        match self {
            TokenKind::Gene => "Gene",
            TokenKind::Trait => "Trait",
            TokenKind::Constraint => "Constraint",
            TokenKind::System => "System",
            TokenKind::Evolves => "Evolves",
            TokenKind::Exegesis => "Exegesis",
            TokenKind::Has => "Has",
            TokenKind::Is => "Is",
            TokenKind::Derives => "Derives",
            TokenKind::From => "From",
            TokenKind::Requires => "Requires",
            TokenKind::Uses => "Uses",
            TokenKind::Emits => "Emits",
            TokenKind::Matches => "Matches",
            TokenKind::Never => "Never",
            TokenKind::Adds => "Adds",
            TokenKind::Deprecates => "Deprecates",
            TokenKind::Removes => "Removes",
            TokenKind::Because => "Because",
            TokenKind::Test => "Test",
            TokenKind::Given => "Given",
            TokenKind::When => "When",
            TokenKind::Then => "Then",
            TokenKind::Always => "Always",
            TokenKind::Each => "Each",
            TokenKind::All => "All",
            TokenKind::No => "No",
            TokenKind::LeftBrace => "LeftBrace",
            TokenKind::RightBrace => "RightBrace",
            TokenKind::At => "At",
            TokenKind::Greater => "Greater",
            TokenKind::GreaterEqual => "GreaterEqual",
            TokenKind::Equal => "Equal",
            TokenKind::Identifier => "Identifier",
            TokenKind::Version => "Version",
            TokenKind::String => "String",
            TokenKind::Eof => "Eof",
            TokenKind::Error => "Error",
        }
    }

    /// Whether this kind is a keyword.
    pub open spec fn spec_is_keyword(self) -> bool {
        match self {
            TokenKind::Gene | TokenKind::Trait | TokenKind::Constraint | TokenKind::System
            | TokenKind::Evolves | TokenKind::Exegesis | TokenKind::Has | TokenKind::Is
            | TokenKind::Derives | TokenKind::From | TokenKind::Requires | TokenKind::Uses
            | TokenKind::Emits | TokenKind::Matches | TokenKind::Never | TokenKind::Adds
            | TokenKind::Deprecates | TokenKind::Removes | TokenKind::Because | TokenKind::Test
            | TokenKind::Given | TokenKind::When | TokenKind::Then | TokenKind::Always
            | TokenKind::Each | TokenKind::All | TokenKind::No => true,
            _ => false,
        }
    }

    /// Returns true if this is a keyword.
    pub fn is_keyword(&self) -> (r: bool)
        ensures
            r == self.spec_is_keyword(),
    {
        match self {
            TokenKind::Gene | TokenKind::Trait | TokenKind::Constraint | TokenKind::System
            | TokenKind::Evolves | TokenKind::Exegesis | TokenKind::Has | TokenKind::Is
            | TokenKind::Derives | TokenKind::From | TokenKind::Requires | TokenKind::Uses
            | TokenKind::Emits | TokenKind::Matches | TokenKind::Never | TokenKind::Adds
            | TokenKind::Deprecates | TokenKind::Removes | TokenKind::Because | TokenKind::Test
            | TokenKind::Given | TokenKind::When | TokenKind::Then | TokenKind::Always
            | TokenKind::Each | TokenKind::All | TokenKind::No => true,
            _ => false,
        }
    }

    /// Whether this kind is a predicate keyword.
    pub open spec fn spec_is_predicate(self) -> bool {
        match self {
            TokenKind::Has | TokenKind::Is | TokenKind::Derives | TokenKind::Requires
            | TokenKind::Uses | TokenKind::Emits | TokenKind::Matches | TokenKind::Never => true,
            _ => false,
        }
    }

    /// Returns true if this is a predicate keyword.
    pub fn is_predicate(&self) -> (r: bool)
        ensures
            r == self.spec_is_predicate(),
    {
        match self {
            TokenKind::Has | TokenKind::Is | TokenKind::Derives | TokenKind::Requires
            | TokenKind::Uses | TokenKind::Emits | TokenKind::Matches | TokenKind::Never => true,
            _ => false,
        }
    }

    /// The text that names this kind in messages.
    pub open spec fn spec_describe(self) -> Seq<char> {
        match self {
            TokenKind::Gene => "gene"@,
            TokenKind::Trait => "trait"@,
            TokenKind::Constraint => "constraint"@,
            TokenKind::System => "system"@,
            TokenKind::Evolves => "evolves"@,
            TokenKind::Exegesis => "exegesis"@,
            TokenKind::Has => "has"@,
            TokenKind::Is => "is"@,
            TokenKind::Derives => "derives"@,
            TokenKind::From => "from"@,
            TokenKind::Requires => "requires"@,
            TokenKind::Uses => "uses"@,
            TokenKind::Emits => "emits"@,
            TokenKind::Matches => "matches"@,
            TokenKind::Never => "never"@,
            TokenKind::Adds => "adds"@,
            TokenKind::Deprecates => "deprecates"@,
            TokenKind::Removes => "removes"@,
            TokenKind::Because => "because"@,
            TokenKind::Test => "test"@,
            TokenKind::Given => "given"@,
            TokenKind::When => "when"@,
            TokenKind::Then => "then"@,
            TokenKind::Always => "always"@,
            TokenKind::Each => "each"@,
            TokenKind::All => "all"@,
            TokenKind::No => "no"@,
            TokenKind::LeftBrace => "{"@,
            TokenKind::RightBrace => "}"@,
            TokenKind::At => "@"@,
            TokenKind::Greater => ">"@,
            TokenKind::GreaterEqual => ">="@,
            TokenKind::Equal => "="@,
            TokenKind::Identifier => "identifier"@,
            TokenKind::Version => "version"@,
            TokenKind::String => "string"@,
            TokenKind::Eof => "end of file"@,
            TokenKind::Error => "error"@,
        }
    }

    /// The text that names this kind in messages (what `Display` prints).
    pub fn describe(&self) -> (r: &'static str)
        ensures
            r@ == self.spec_describe(),
    {
        match self {
            TokenKind::Gene => "gene",
            TokenKind::Trait => "trait",
            TokenKind::Constraint => "constraint",
            TokenKind::System => "system",
            TokenKind::Evolves => "evolves",
            TokenKind::Exegesis => "exegesis",
            TokenKind::Has => "has",
            TokenKind::Is => "is",
            TokenKind::Derives => "derives",
            TokenKind::From => "from",
            TokenKind::Requires => "requires",
            TokenKind::Uses => "uses",
            TokenKind::Emits => "emits",
            TokenKind::Matches => "matches",
            TokenKind::Never => "never",
            TokenKind::Adds => "adds",
            TokenKind::Deprecates => "deprecates",
            TokenKind::Removes => "removes",
            TokenKind::Because => "because",
            TokenKind::Test => "test",
            TokenKind::Given => "given",
            TokenKind::When => "when",
            TokenKind::Then => "then",
            TokenKind::Always => "always",
            TokenKind::Each => "each",
            TokenKind::All => "all",
            TokenKind::No => "no",
            TokenKind::LeftBrace => "{",
            TokenKind::RightBrace => "}",
            TokenKind::At => "@",
            TokenKind::Greater => ">",
            TokenKind::GreaterEqual => ">=",
            TokenKind::Equal => "=",
            TokenKind::Identifier => "identifier",
            TokenKind::Version => "version",
            TokenKind::String => "string",
            TokenKind::Eof => "end of file",
            TokenKind::Error => "error",
        }
    }
}

/// Every predicate keyword is a keyword.
pub proof fn lemma_predicates_are_keywords(k: TokenKind)
    ensures
        k.spec_is_predicate() ==> k.spec_is_keyword(),
{
}

// ---------------------------------------------------------------------------
// The token grammar, over the characters of the source
// ---------------------------------------------------------------------------

/// `x` clamped to the range of `usize` (for `x >= 0`).
pub open spec fn sat(x: int) -> usize {
    if x >= usize::MAX {
        usize::MAX as usize
    } else {
        x as usize
    }
}

/// `x - 1`, or zero.
pub open spec fn sat_dec(x: usize) -> usize {
    if x >= 1 {
        (x - 1) as usize
    } else {
        0
    }
}

/// Byte offset, line and column after reading one more character.
pub open spec fn step_loc(l: (usize, usize, usize), c: char) -> (usize, usize, usize) {
    (
        sat(l.0 + spec_utf8_width(c)),
        if c == '\n' { sat(l.1 + 1) } else { l.1 },
        if c == '\n' { 1usize } else { sat(l.2 + 1) },
    )
}

/// Byte offset, line and column of the character at index `n` of `s`.
pub open spec fn loc(s: Seq<char>, n: nat) -> (usize, usize, usize)
    decreases n,
{
    if n == 0 {
        (0usize, 1usize, 1usize)
    } else {
        step_loc(loc(s, (n - 1) as nat), s[n - 1])
    }
}

/// The span from character index `a` to character index `b`.
pub open spec fn span_of(s: Seq<char>, a: nat, b: nat) -> Span {
    Span { start: loc(s, a).0, end: loc(s, b).0, line: loc(s, a).1, column: loc(s, a).2 }
}

/// The index of the first token character at or after `i`, skipping white
/// space and `//` comments (`in_comment`: inside a comment).
pub open spec fn skip_trivia(s: Seq<char>, i: nat, in_comment: bool) -> nat
    decreases s.len() - i,
{
    if i >= s.len() {
        i
    } else if in_comment {
        skip_trivia(s, i + 1, s[i as int] != '\n')
    } else if spec_is_whitespace(s[i as int]) {
        skip_trivia(s, i + 1, false)
    } else if i + 1 < s.len() && s[i as int] == '/' && s[(i + 1) as int] == '/' {
        skip_trivia(s, i + 2, true)
    } else {
        i
    }
}

/// Whether the escape `\c` is recognised.
pub open spec fn valid_escape(c: char) -> bool {
    c == 'n' || c == 't' || c == 'r' || c == '"' || c == '\\'
}

/// The character that the escape `\c` stands for.
pub open spec fn unescape(c: char) -> char {
    if c == 'n' {
        '\n'
    } else if c == 't' {
        '\t'
    } else if c == 'r' {
        '\r'
    } else {
        c
    }
}

/// Scans the body of a string literal from index `j` (`esc`: just after a
/// backslash). Gives the index where the token ends, the unescaped
/// content, whether a closing quote was found, and the indices of invalid
/// escapes.
pub open spec fn scan_string(s: Seq<char>, j: nat, esc: bool) -> (nat, Seq<char>, bool, Seq<nat>)
    decreases s.len() - j,
{
    if j >= s.len() {
        (j, Seq::empty(), false, Seq::empty())
    } else if esc {
        let r = scan_string(s, j + 1, false);
        (
            r.0,
            seq![unescape(s[j as int])] + r.1,
            r.2,
            if valid_escape(s[j as int]) { r.3 } else { seq![j] + r.3 },
        )
    } else if s[j as int] == '\\' {
        scan_string(s, j + 1, true)
    } else if s[j as int] == '"' {
        (j + 1, Seq::empty(), true, Seq::empty())
    } else if s[j as int] == '\n' {
        (j, Seq::empty(), false, Seq::empty())
    } else {
        let r = scan_string(s, j + 1, false);
        (r.0, seq![s[j as int]] + r.1, r.2, r.3)
    }
}

/// Inside a string literal each escape stands for its character: the
/// content read from a backslash and `c` is the character `c` stands for
/// (`\n` a newline, `\t` a tab, `\r` a carriage return, `\"` a quote,
/// `\\` a backslash), followed by the content read after the escape, and
/// the escape raises no error.
pub proof fn lemma_string_escapes(s: Seq<char>, j: nat)
    requires
        j + 1 < s.len(),
        s[j as int] == '\\',
    ensures
        ({
            let r = scan_string(s, j + 2, false);
            let c = s[j + 1int];
            let here = scan_string(s, j, false);
            &&& here.0 == r.0
            &&& here.2 == r.2
            &&& c == 't' ==> here.1 == seq!['\t'] + r.1 && here.3 == r.3
            &&& c == 'n' ==> here.1 == seq!['\n'] + r.1 && here.3 == r.3
            &&& c == 'r' ==> here.1 == seq!['\r'] + r.1 && here.3 == r.3
            &&& c == '"' ==> here.1 == seq!['"'] + r.1 && here.3 == r.3
            &&& c == '\\' ==> here.1 == seq!['\\'] + r.1 && here.3 == r.3
        }),
{
    assert(scan_string(s, j, false) == scan_string(s, j + 1, true));
}

/// The error reported for an invalid escape whose character is at `k`.
pub open spec fn escape_error(s: Seq<char>, k: nat) -> LexError {
    LexError::InvalidEscape {
        ch: s[k as int],
        span: Span {
            start: sat_dec(loc(s, k).0),
            end: sat(loc(s, k).0 + 1),
            line: loc(s, k).1,
            column: sat_dec(loc(s, k).2),
        },
    }
}

/// The errors reported for the invalid escapes at the indices `ks`.
pub open spec fn escape_errors(s: Seq<char>, ks: Seq<nat>) -> Seq<LexError> {
    ks.map_values(|k: nat| escape_error(s, k))
}

/// Pushing one element appends a one-element sequence.
pub proof fn lemma_push_is_append<T>(s: Seq<T>, x: T)
    ensures
        s.push(x) == s + seq![x],
{
    assert(s.push(x) =~= s + seq![x]);
}

proof fn lemma_escape_errors_push(s: Seq<char>, ks: Seq<nat>, k: nat)
    ensures
        escape_errors(s, ks.push(k)) == escape_errors(s, ks).push(escape_error(s, k)),
{
    assert(escape_errors(s, ks.push(k)) =~= escape_errors(s, ks).push(escape_error(s, k)));
}

proof fn lemma_string_errors(s: Seq<char>, i: nat)
    ensures
        scan_string(s, i + 1, false).2 ==> string_errors(s, i) == escape_errors(
            s,
            scan_string(s, i + 1, false).3,
        ),
        !scan_string(s, i + 1, false).2 ==> string_errors(s, i) == escape_errors(
            s,
            scan_string(s, i + 1, false).3,
        ).push(LexError::UnterminatedString { span: span_of(s, i, scan_string(s, i + 1, false).0) }),
{
}

/// The errors reported while lexing a string literal that starts at `i`.
pub open spec fn string_errors(s: Seq<char>, i: nat) -> Seq<LexError> {
    let r = scan_string(s, i + 1, false);
    escape_errors(s, r.3) + if r.2 {
        Seq::<LexError>::empty()
    } else {
        seq![LexError::UnterminatedString { span: span_of(s, i, r.0) }]
    }
}

/// The operator or punctuation token at `i`, with its length.
pub open spec fn operator_at(s: Seq<char>, i: nat) -> Option<(TokenKind, nat)> {
    let c = s[i as int];
    if c == '>' && i + 1 < s.len() && s[(i + 1) as int] == '=' {
        Some((TokenKind::GreaterEqual, 2nat))
    } else if c == '>' {
        Some((TokenKind::Greater, 1nat))
    } else if c == '@' {
        Some((TokenKind::At, 1nat))
    } else if c == '=' {
        Some((TokenKind::Equal, 1nat))
    } else if c == '{' {
        Some((TokenKind::LeftBrace, 1nat))
    } else if c == '}' {
        Some((TokenKind::RightBrace, 1nat))

    } else {
        None
    }
}

/// A character that may continue an identifier.
pub open spec fn ident_char(c: char) -> bool {
    alphanumeric(c) || c == '_' || c == '.'
}

/// The end of the run of identifier characters starting at `j`.
pub open spec fn ident_run(s: Seq<char>, j: nat) -> nat
    decreases s.len() - j,
{
    if j < s.len() && ident_char(s[j as int]) {
        ident_run(s, j + 1)
    } else {
        j
    }
}

/// The end of an identifier whose first (alphabetic) character is at `i`:
/// the run of identifier characters, less one trailing dot.
pub open spec fn ident_end(s: Seq<char>, i: nat) -> nat {
    let e = ident_run(s, i + 1);
    if e > i + 1 && s[e - 1] == '.' {
        (e - 1) as nat
    } else {
        e
    }
}

/// The end of a version-like run from `j`, and the number of dots in it:
/// digits, and at most two dots that are each followed by a digit.
pub open spec fn version_run(s: Seq<char>, j: nat, dots: nat) -> (nat, nat)
    decreases s.len() - j,
{
    if j < s.len() && spec_is_digit(s[j as int]) {
        version_run(s, j + 1, dots)
    } else if j + 1 < s.len() && s[j as int] == '.' && dots < 2 && spec_is_digit(s[(j + 1) as int]) {
        version_run(s, j + 1, dots + 1)
    } else {
        (j, dots)
    }
}

/// The keyword spelled by `w`, if any.
pub open spec fn keyword_of(w: Seq<char>) -> Option<TokenKind> {
    if w == "gene"@ {
        Some(TokenKind::Gene)
    } else if w == "trait"@ {
        Some(TokenKind::Trait)
    } else if w == "constraint"@ {
        Some(TokenKind::Constraint)
    } else if w == "system"@ {
        Some(TokenKind::System)
    } else if w == "evolves"@ {
        Some(TokenKind::Evolves)
    } else if w == "exegesis"@ {
        Some(TokenKind::Exegesis)
    } else if w == "has"@ {
        Some(TokenKind::Has)
    } else if w == "is"@ {
        Some(TokenKind::Is)
    } else if w == "derives"@ {
        Some(TokenKind::Derives)
    } else if w == "from"@ {
        Some(TokenKind::From)
    } else if w == "requires"@ {
        Some(TokenKind::Requires)
    } else if w == "uses"@ {
        Some(TokenKind::Uses)
    } else if w == "emits"@ {
        Some(TokenKind::Emits)
    } else if w == "matches"@ {
        Some(TokenKind::Matches)
    } else if w == "never"@ {
        Some(TokenKind::Never)
    } else if w == "adds"@ {
        Some(TokenKind::Adds)
    } else if w == "deprecates"@ {
        Some(TokenKind::Deprecates)
    } else if w == "removes"@ {
        Some(TokenKind::Removes)
    } else if w == "because"@ {
        Some(TokenKind::Because)
    } else if w == "test"@ {
        Some(TokenKind::Test)
    } else if w == "given"@ {
        Some(TokenKind::Given)
    } else if w == "when"@ {
        Some(TokenKind::When)
    } else if w == "then"@ {
        Some(TokenKind::Then)
    } else if w == "always"@ {
        Some(TokenKind::Always)
    } else if w == "each"@ {
        Some(TokenKind::Each)
    } else if w == "all"@ {
        Some(TokenKind::All)
    } else if w == "no"@ {
        Some(TokenKind::No)
    } else {
        None
    }
}

/// The token that starts at index `i < s.len()` (after trivia): its kind,
/// its text, the index where it ends, and the errors it reports.
pub open spec fn scan_token(s: Seq<char>, i: nat) -> (TokenKind, Seq<char>, nat, Seq<LexError>) {
    if s[i as int] == '"' {
        let r = scan_string(s, i + 1, false);
        (if r.2 { TokenKind::String } else { TokenKind::Error }, r.1, r.0, string_errors(s, i))
    } else if operator_at(s, i) is Some {
        let (k, n) = operator_at(s, i).unwrap();
        (k, s.subrange(i as int, (i + n) as int), i + n, Seq::empty())
    } else if spec_is_digit(s[i as int]) {
        let (e, dots) = version_run(s, i, 0);
        (
            if dots == 2 { TokenKind::Version } else { TokenKind::Identifier },
            s.subrange(i as int, e as int),
            e,
            Seq::empty(),
        )
    } else if alphabetic(s[i as int]) {
        let e = ident_end(s, i);
        let w = s.subrange(i as int, e as int);
        (
            match keyword_of(w) {
                Some(k) => k,
                None => TokenKind::Identifier,
            },
            w,
            e,
            Seq::empty(),
        )
    } else {
        (
            TokenKind::Error,
            seq![s[i as int]],
            i + 1,
            seq![LexError::UnexpectedChar { ch: s[i as int], span: span_of(s, i, i + 1) }],
        )
    }
}

// ---------------------------------------------------------------------------
// Lemmas
// ---------------------------------------------------------------------------

proof fn lemma_skip_trivia_bounds(s: Seq<char>, i: nat, c: bool)
    requires
        i <= s.len(),
    ensures
        i <= skip_trivia(s, i, c) <= s.len(),
    decreases s.len() - i,
{
    if i < s.len() {
        if c {
            lemma_skip_trivia_bounds(s, i + 1, s[i as int] != '\n');
        } else if spec_is_whitespace(s[i as int]) {
            lemma_skip_trivia_bounds(s, i + 1, false);
        } else if i + 1 < s.len() && s[i as int] == '/' && s[(i + 1) as int] == '/' {
            lemma_skip_trivia_bounds(s, i + 2, true);
        }
    }
}

proof fn lemma_scan_string_bounds(s: Seq<char>, j: nat, esc: bool)
    requires
        j <= s.len(),
    ensures
        j <= scan_string(s, j, esc).0 <= s.len(),
        forall|k: int|
            0 <= k < scan_string(s, j, esc).3.len() ==> j <= #[trigger] scan_string(
                s,
                j,
                esc,
            ).3[k] < s.len(),
    decreases s.len() - j,
{
    if j < s.len() {
        if esc {
            lemma_scan_string_bounds(s, j + 1, false);
        } else if s[j as int] == '\\' {
            lemma_scan_string_bounds(s, j + 1, true);
        } else if s[j as int] == '"' {
        } else if s[j as int] == '\n' {
        } else {
            lemma_scan_string_bounds(s, j + 1, false);
        }
    }
}

proof fn lemma_ident_run_bounds(s: Seq<char>, j: nat)
    requires
        j <= s.len(),
    ensures
        j <= ident_run(s, j) <= s.len(),
        forall|k: int| j <= k < ident_run(s, j) ==> ident_char(#[trigger] s[k]),
    decreases s.len() - j,
{
    if j < s.len() && ident_char(s[j as int]) {
        lemma_ident_run_bounds(s, j + 1);
    }
}

proof fn lemma_version_run_bounds(s: Seq<char>, j: nat, dots: nat)
    requires
        j <= s.len(),
    ensures
        j <= version_run(s, j, dots).0 <= s.len(),
    decreases s.len() - j,
{
    if j < s.len() && spec_is_digit(s[j as int]) {
        lemma_version_run_bounds(s, j + 1, dots);
    } else if j + 1 < s.len() && s[j as int] == '.' && dots < 2 && spec_is_digit(s[(j + 1) as int]) {
        lemma_version_run_bounds(s, j + 1, dots + 1);
    }
}

/// Every token ends after it starts, within the source.
pub proof fn lemma_scan_token_progress(s: Seq<char>, i: nat)
    requires
        i < s.len(),
    ensures
        i < scan_token(s, i).2 <= s.len(),
{
    if s[i as int] == '"' {
        lemma_scan_string_bounds(s, i + 1, false);
    } else if operator_at(s, i) is Some {
        assert(operator_at(s, i).unwrap().1 >= 1);
        if operator_at(s, i).unwrap().1 == 2 {
            assert(i + 1 < s.len());
        }
    } else if spec_is_digit(s[i as int]) {
        lemma_version_run_bounds(s, i + 1, 0);
        assert(version_run(s, i, 0) == version_run(s, i + 1, 0));
    } else if alphabetic(s[i as int]) {
        lemma_ident_run_bounds(s, i + 1);
    }
}

/// From index `i`, the next token ends within the source and no earlier
/// than `i`; a token other than end of file ends after `i`.
pub proof fn lemma_next_bounds(s: Seq<char>, i: nat)
    requires
        i <= s.len(),
    ensures
        i <= Lexer::spec_next(s, i).3 <= s.len(),
        Lexer::spec_next(s, i).0 != TokenKind::Eof ==> Lexer::spec_next(s, i).3 > i,
        Lexer::spec_next(s, i).0 == TokenKind::Eof ==> Lexer::spec_next(s, i).3 == s.len(),
{
    lemma_skip_trivia_bounds(s, i, false);
    let t = skip_trivia(s, i, false);
    if t < s.len() {
        lemma_scan_token_progress(s, t);
        assert(scan_token(s, t).0 != TokenKind::Eof);
    }
}

// ---------------------------------------------------------------------------
// The lexer
// ---------------------------------------------------------------------------

/// The lexer for Metal DOL source text.
///
/// It holds the characters of the source and its place in them, together
/// with the byte offset, line and column of that place, and the errors
/// found so far.
pub struct Lexer {
    chars: Vec<char>,
    pos: usize,
    position: usize,
    line: usize,
    column: usize,
    errors: Vec<LexError>,
}

impl Lexer {
    /// The characters of the source.
    pub closed spec fn source(&self) -> Seq<char> {
        self.chars@
    }

    /// The index of the next unread character.
    pub closed spec fn cursor(&self) -> nat {
        self.pos as nat
    }

    /// The errors found so far.
    pub closed spec fn spec_errors(&self) -> Seq<LexError> {
        self.errors@
    }

    /// The lexer's internal state is consistent.
    pub closed spec fn wf(&self) -> bool {
        &&& self.pos <= self.chars@.len()
        &&& (self.position, self.line, self.column) == loc(self.chars@, self.pos as nat)
    }

    /// Creates a new lexer for the given source text.
    pub fn new(source: &str) -> (r: Lexer)
        ensures
            r.wf(),
            r.source() == source@,
            r.cursor() == 0,
            r.spec_errors().len() == 0,
    {
        Lexer {
            chars: chars_of(source),
            pos: 0,
            position: 0,
            line: 1,
            column: 1,
            errors: Vec::new(),
        }
    }

    /// Returns the errors accumulated during lexing.
    pub fn errors(&self) -> (r: &[LexError])
        ensures
            r@ == self.spec_errors(),
    {
        self.errors.as_slice()
    }

    /// The token the lexer produces next from index `i` of `s`: end of file
    /// once only trivia remain.
    pub open spec fn spec_next(s: Seq<char>, i: nat) -> (TokenKind, Seq<char>, Span, nat, Seq<LexError>) {
        let t = skip_trivia(s, i, false);
        if t >= s.len() {
            (TokenKind::Eof, Seq::empty(), span_of(s, t, t), t, Seq::empty())
        } else {
            let r = scan_token(s, t);
            (r.0, r.1, span_of(s, t, r.2), r.2, r.3)
        }
    }

    /// Produces the next token from the source.
    ///
    /// Returns an end-of-file token once the source is exhausted.
    pub fn next_token(&mut self) -> (tok: Token)
        requires
            old(self).wf(),
        ensures
            final(self).wf(),
            final(self).source() == old(self).source(),
            ({
                let n = Lexer::spec_next(old(self).source(), old(self).cursor());
                &&& tok.kind == n.0
                &&& tok.lexeme@ == n.1
                &&& tok.span == n.2
                &&& final(self).cursor() == n.3
                &&& final(self).spec_errors() == old(self).spec_errors() + n.4
            }),
            tok.kind == TokenKind::Eof ==> final(self).cursor() == final(self).source().len(),
            tok.kind != TokenKind::Eof ==> final(self).cursor() > old(self).cursor(),
    {
        proof {
            lemma_skip_trivia_bounds(self.chars@, self.pos as nat, false);
        }
        self.skip_whitespace_and_comments();
        let ghost t = self.pos as nat;
        if self.pos >= self.chars.len() {
            let sp = Span::new(self.position, self.position, self.line, self.column);
            return Token::new(TokenKind::Eof, String::new(), sp);
        }
        proof {
            lemma_scan_token_progress(self.chars@, t);
        }
        let start_pos = self.position;
        let start_line = self.line;
        let start_col = self.column;
        if let Some(token) = self.try_string() {
            return token;
        }
        if let Some(token) = self.try_operator() {
            return token;
        }
        if let Some(token) = self.try_keyword_or_identifier() {
            return token;
        }
        // Unknown character: an error token
        let ghost e1 = self.errors@;
        assert(e1 == old(self).errors@);
        let ch = self.chars[self.pos];
        self.advance_one();
        let sp = Span::new(start_pos, self.position, start_line, start_col);
        self.errors.push(LexError::UnexpectedChar { ch, span: sp });
        proof {
            assert(sp == span_of(self.chars@, t, t + 1));
            lemma_push_is_append(e1, LexError::UnexpectedChar { ch, span: sp });
        }
        let mut lexeme = String::new();
        push_char(&mut lexeme, ch);
        proof {
            assert(lexeme@ =~= seq![ch]);
        }
        Token::new(TokenKind::Error, lexeme, sp)
    }

    /// Returns the next token, or `None` at the end of the source.
    pub fn next(&mut self) -> (r: Option<Token>)
        requires
            old(self).wf(),
        ensures
            final(self).wf(),
            final(self).source() == old(self).source(),
            ({
                let n = Lexer::spec_next(old(self).source(), old(self).cursor());
                &&& final(self).cursor() == n.3
                &&& final(self).spec_errors() == old(self).spec_errors() + n.4
                &&& match r {
                    None => n.0 == TokenKind::Eof,
                    Some(t) => (n.0 != TokenKind::Eof && t.kind == n.0 && t.lexeme@ == n.1
                        && t.span == n.2),
                }
            }),
    {
        let token = self.next_token();
        if token.kind == TokenKind::Eof {
            None
        } else {
            Some(token)
        }
    }

    /// Skips white space and comments.
    fn skip_whitespace_and_comments(&mut self)
        requires
            old(self).wf(),
        ensures
            final(self).wf(),
            final(self).chars@ == old(self).chars@,
            final(self).errors@ == old(self).errors@,
            final(self).pos == skip_trivia(old(self).chars@, old(self).pos as nat, false),
    {
        let ghost target = skip_trivia(self.chars@, self.pos as nat, false);
        loop
            invariant
                self.wf(),
                self.chars@ == old(self).chars@,
                self.errors@ == old(self).errors@,
                skip_trivia(self.chars@, self.pos as nat, false) == target,
            ensures
                self.wf(),
                self.chars@ == old(self).chars@,
                self.errors@ == old(self).errors@,
                self.pos == target,
            decreases self.chars@.len() - self.pos,
        {
            self.skip_whitespace();
            if self.pos < self.chars.len() && self.pos + 1 < self.chars.len() && self.chars[self.pos]
                == '/' && self.chars[self.pos + 1] == '/' {
                self.skip_line_comment();
            } else {
                break;
            }
        }
    }

    /// Skips white-space characters.
    fn skip_whitespace(&mut self)
        requires
            old(self).wf(),
        ensures
            final(self).wf(),
            final(self).chars@ == old(self).chars@,
            final(self).errors@ == old(self).errors@,
            final(self).pos >= old(self).pos,
            skip_trivia(final(self).chars@, final(self).pos as nat, false) == skip_trivia(
                old(self).chars@,
                old(self).pos as nat,
                false,
            ),
            final(self).pos < final(self).chars@.len() ==> !spec_is_whitespace(
                final(self).chars@[final(self).pos as int],
            ),
    {
        while self.pos < self.chars.len() && is_whitespace(self.chars[self.pos])
            invariant
                self.wf(),
                self.chars@ == old(self).chars@,
                self.errors@ == old(self).errors@,
                self.pos >= old(self).pos,
                skip_trivia(self.chars@, self.pos as nat, false) == skip_trivia(
                    old(self).chars@,
                    old(self).pos as nat,
                    false,
                ),
            decreases self.chars@.len() - self.pos,
        {
            self.advance_one();
        }
    }

    /// Skips a `//` comment, up to and including the end of the line.
    fn skip_line_comment(&mut self)
        requires
            old(self).wf(),
            old(self).pos + 1 < old(self).chars@.len(),
            old(self).chars@[old(self).pos as int] == '/',
            old(self).chars@[old(self).pos + 1] == '/',
        ensures
            final(self).wf(),
            final(self).chars@ == old(self).chars@,
            final(self).errors@ == old(self).errors@,
            final(self).pos > old(self).pos,
            skip_trivia(final(self).chars@, final(self).pos as nat, false) == skip_trivia(
                old(self).chars@,
                old(self).pos as nat,
                false,
            ),
    {
        let ghost s = self.chars@;
        let ghost p0 = self.pos as nat;
        proof {
            if spec_is_whitespace(s[p0 as int]) {
                assert(false);
            }
        }
        self.advance_one();
        self.advance_one();
        let mut in_comment = true;
        while self.pos < self.chars.len() && in_comment
            invariant
                self.wf(),
                self.chars@ == s,
                self.errors@ == old(self).errors@,
                self.pos > p0,
                skip_trivia(s, self.pos as nat, in_comment) == skip_trivia(s, p0, false),
            decreases self.chars@.len() - self.pos,
        {
            let ch = self.chars[self.pos];
            self.advance_one();
            if ch == '\n' {
                in_comment = false;
            }
        }
        proof {
            if in_comment {
                assert(self.pos >= s.len());
            }
        }
    }

    /// Moves past one character, keeping the location in step.
    fn advance_one(&mut self)
        requires
            old(self).wf(),
            old(self).pos < old(self).chars@.len(),
        ensures
            final(self).wf(),
            final(self).chars@ == old(self).chars@,
            final(self).errors@ == old(self).errors@,
            final(self).pos == old(self).pos + 1,
    {
        let n = self.chars.len();
        let c = self.chars[self.pos];
        self.position = self.position.saturating_add(utf8_width(c));
        if c == '\n' {
            self.line = self.line.saturating_add(1);
            self.column = 1;
        } else {
            self.column = self.column.saturating_add(1);
        }
        self.pos = self.pos + 1;
    }

    /// Advances the lexer to character index `to`.
    fn advance(&mut self, to: usize)
        requires
            old(self).wf(),
            old(self).pos <= to <= old(self).chars@.len(),
        ensures
            final(self).wf(),
            final(self).chars@ == old(self).chars@,
            final(self).errors@ == old(self).errors@,
            final(self).pos == to,
    {
        while self.pos < to
            invariant
                self.wf(),
                self.chars@ == old(self).chars@,
                self.errors@ == old(self).errors@,
                self.pos <= to <= self.chars@.len(),
            decreases to - self.pos,
        {
            self.advance_one();
        }
    }

    /// Tries to lex a string literal.
    fn try_string(&mut self) -> (r: Option<Token>)
        requires
            old(self).wf(),
            old(self).pos < old(self).chars@.len(),
        ensures
            final(self).wf(),
            final(self).chars@ == old(self).chars@,
            old(self).chars@[old(self).pos as int] != '"' ==> (r is None && final(self).pos
                == old(self).pos && final(self).errors@ == old(self).errors@),
            old(self).chars@[old(self).pos as int] == '"' ==> (r matches Some(tok) && ({
                let n = scan_token(old(self).chars@, old(self).pos as nat);
                &&& tok.kind == n.0
                &&& tok.lexeme@ == n.1
                &&& tok.span == span_of(old(self).chars@, old(self).pos as nat, n.2)
                &&& final(self).pos == n.2
                &&& final(self).errors@ == old(self).errors@ + n.3
            })),
    {
        let n = self.chars.len();
        if self.chars[self.pos] != '"' {
            return None;
        }
        let ghost s = self.chars@;
        let ghost i = self.pos as nat;
        let ghost e0 = self.errors@;
        let ghost target = scan_string(s, i + 1, false);
        proof {
            lemma_scan_string_bounds(s, i + 1, false);
        }
        let start_pos = self.position;
        let start_line = self.line;
        let start_col = self.column;
        self.advance_one();
        let mut content = String::new();
        let mut escaped = false;
        let ghost mut bads: Seq<nat> = Seq::empty();
        while self.pos < self.chars.len()
            invariant
                self.wf(),
                self.chars@ == s,
                s == old(self).chars@,
                i == old(self).pos,
                e0 == old(self).errors@,
                target == scan_string(s, i + 1, false),
                i < self.pos <= s.len(),
                (start_pos, start_line, start_col) == loc(s, i),
                scan_string(s, self.pos as nat, escaped).0 == target.0,
                scan_string(s, self.pos as nat, escaped).2 == target.2,
                content@ + scan_string(s, self.pos as nat, escaped).1 == target.1,
                bads + scan_string(s, self.pos as nat, escaped).3 == target.3,
                s[i as int] == '"',
                self.errors@ == e0 + escape_errors(s, bads),
            decreases s.len() - self.pos,
        {
            let ch = self.chars[self.pos];
            let ghost j = self.pos as nat;
            let ghost rest = scan_string(s, j + 1, false);
            if escaped {
                let valid = ch == 'n' || ch == 't' || ch == 'r' || ch == '"' || ch == '\\';
                let out = if ch == 'n' {
                    '\n'
                } else if ch == 't' {
                    '\t'
                } else if ch == 'r' {
                    '\r'
                } else {
                    ch
                };
                if !valid {
                    let sp = Span::new(
                        self.position.saturating_sub(1),
                        self.position.saturating_add(1),
                        self.line,
                        self.column.saturating_sub(1),
                    );
                    self.errors.push(LexError::InvalidEscape { ch, span: sp });
                    proof {
                        assert(escape_error(s, j) == LexError::InvalidEscape { ch, span: sp });
                        lemma_escape_errors_push(s, bads, j);
                        assert(bads.push(j) + rest.3 =~= bads + (seq![j] + rest.3));
                        bads = bads.push(j);
                    }
                }
                push_char(&mut content, out);
                proof {
                    assert(content@ + rest.1 =~= old_content_plus(content@, rest.1));
                }
                escaped = false;
                self.advance_one();
            } else if ch == '\\' {
                escaped = true;
                self.advance_one();
            } else if ch == '"' {
                self.advance_one();
                let sp = Span::new(start_pos, self.position, start_line, start_col);
                proof {
                    assert(scan_string(s, j, false).2);
                    assert(target.2);
                    assert(content@ =~= target.1);
                    assert(bads =~= target.3);
                    lemma_string_errors(s, i);
                    assert(self.errors@ =~= e0 + string_errors(s, i));
                }
                return Some(Token::new(TokenKind::String, content, sp));
            } else if ch == '\n' {
                let sp = Span::new(start_pos, self.position, start_line, start_col);
                self.errors.push(LexError::UnterminatedString { span: sp });
                proof {
                    assert(!scan_string(s, j, false).2);
                    assert(scan_string(s, j, false).0 == j);
                    assert(content@ =~= target.1);
                    assert(bads =~= target.3);
                    assert(sp == span_of(s, i, j));
                    lemma_push_is_append(
                        e0 + escape_errors(s, bads),
                        LexError::UnterminatedString { span: sp },
                    );
                    lemma_string_errors(s, i);
                    assert(self.errors@ =~= e0 + string_errors(s, i));
                }
                return Some(Token::new(TokenKind::Error, content, sp));
            } else {
                push_char(&mut content, ch);
                proof {
                    assert(content@ + rest.1 =~= old_content_plus(content@, rest.1));
                }
                self.advance_one();
            }
        }
        // End of input inside the string
        let sp = Span::new(start_pos, self.position, start_line, start_col);
        self.errors.push(LexError::UnterminatedString { span: sp });
        proof {
            assert(content@ =~= target.1);
            assert(bads =~= target.3);
            lemma_string_errors(s, i);
            assert(self.errors@ =~= e0 + string_errors(s, i));
        }
        Some(Token::new(TokenKind::Error, content, sp))
    }

    /// Tries to lex an operator or punctuation token.
    fn try_operator(&mut self) -> (r: Option<Token>)
        requires
            old(self).wf(),
            old(self).pos < old(self).chars@.len(),
        ensures
            final(self).wf(),
            final(self).chars@ == old(self).chars@,
            final(self).errors@ == old(self).errors@,
            ({
                let s = old(self).chars@;
                let i = old(self).pos as nat;
                match operator_at(s, i) {
                    None => r is None && final(self).pos == old(self).pos,
                    Some(op) => (r matches Some(tok) && tok.kind == op.0 && tok.lexeme@
                        == s.subrange(i as int, (i + op.1) as int) && tok.span == span_of(s, i, i + op.1)
                        && final(self).pos == i + op.1),
                }
            }),
    {
        let c = self.chars[self.pos];
        let n = self.chars.len();
        let next_is_eq = self.pos + 1 < self.chars.len() && self.chars[self.pos + 1] == '=';
        let (kind, len) = if c == '>' && next_is_eq {
            (TokenKind::GreaterEqual, 2usize)
        } else if c == '>' {
            (TokenKind::Greater, 1usize)
        } else if c == '@' {
            (TokenKind::At, 1usize)
        } else if c == '=' {
            (TokenKind::Equal, 1usize)
        } else if c == '{' {
            (TokenKind::LeftBrace, 1usize)
        } else if c == '}' {
            (TokenKind::RightBrace, 1usize)
        } else {
            return None;
        };
        let start_pos = self.position;
        let start_line = self.line;
        let start_col = self.column;
        let from = self.pos;
        let lexeme = string_from_range(&self.chars, from, from + len);
        self.advance(from + len);
        Some(Token::new(kind, lexeme, Span::new(start_pos, self.position, start_line, start_col)))
    }

    /// Tries to lex a keyword, an identifier or a version.
    fn try_keyword_or_identifier(&mut self) -> (r: Option<Token>)
        requires
            old(self).wf(),
            old(self).pos < old(self).chars@.len(),
            old(self).chars@[old(self).pos as int] != '"',
            operator_at(old(self).chars@, old(self).pos as nat) is None,
        ensures
            final(self).wf(),
            final(self).chars@ == old(self).chars@,
            final(self).errors@ == old(self).errors@,
            ({
                let s = old(self).chars@;
                let i = old(self).pos as nat;
                if spec_is_digit(s[i as int]) || alphabetic(s[i as int]) {
                    let n = scan_token(s, i);
                    (r matches Some(tok) && tok.kind == n.0 && tok.lexeme@ == n.1 && tok.span
                        == span_of(s, i, n.2) && final(self).pos == n.2)
                } else {
                    r is None && final(self).pos == old(self).pos
                }
            }),
    {
        let first = self.chars[self.pos];
        if is_ascii_digit(first) {
            return Some(self.try_version());
        }
        if !is_alphabetic(first) {
            return None;
        }
        let ghost s = self.chars@;
        let ghost i = self.pos as nat;
        let n = self.chars.len();
        proof {
            lemma_ident_run_bounds(s, i + 1);
        }
        let start_pos = self.position;
        let start_line = self.line;
        let start_col = self.column;
        // The first character is alphabetic, hence alphanumeric; find the
        // rest of the run of identifier characters
        let mut end = self.pos + 1;
        while end < n && (is_alphanumeric(self.chars[end]) || self.chars[end] == '_'
            || self.chars[end] == '.')
            invariant
                self.chars@ == s,
                n == s.len(),
                i + 1 <= end <= s.len(),
                ident_run(s, end as nat) == ident_run(s, i + 1),
            decreases s.len() - end,
        {
            end = end + 1;
        }
        // Strip a trailing dot
        if end > self.pos + 1 && self.chars[end - 1] == '.' {
            end = end - 1;
        }
        let from = self.pos;
        let lexeme = string_from_range(&self.chars, from, end);
        self.advance(end);
        let kind = match self.keyword_kind(lexeme.as_str()) {
            Some(k) => k,
            None => TokenKind::Identifier,
        };
        Some(Token::new(kind, lexeme, Span::new(start_pos, self.position, start_line, start_col)))
    }

    /// Lexes a version number (or, with fewer than two dots, an identifier
    /// made of digits).
    fn try_version(&mut self) -> (tok: Token)
        requires
            old(self).wf(),
            old(self).pos < old(self).chars@.len(),
            spec_is_digit(old(self).chars@[old(self).pos as int]),
        ensures
            final(self).wf(),
            final(self).chars@ == old(self).chars@,
            final(self).errors@ == old(self).errors@,
            ({
                let s = old(self).chars@;
                let i = old(self).pos as nat;
                let (e, dots) = version_run(s, i, 0);
                &&& tok.kind == (if dots == 2 {
                    TokenKind::Version
                } else {
                    TokenKind::Identifier
                })
                &&& tok.lexeme@ == s.subrange(i as int, e as int)
                &&& tok.span == span_of(s, i, e)
                &&& final(self).pos == e
            }),
    {
        let ghost s = self.chars@;
        let ghost i = self.pos as nat;
        proof {
            lemma_version_run_bounds(s, i, 0);
        }
        let start_pos = self.position;
        let start_line = self.line;
        let start_col = self.column;
        let mut end = self.pos;
        let mut dots: usize = 0;
        let n = self.chars.len();
        while end < n && (is_ascii_digit(self.chars[end]) || (self.chars[end] == '.' && dots < 2
            && end + 1 < n && is_ascii_digit(self.chars[end + 1])))
            invariant
                self.chars@ == s,
                n == s.len(),
                i <= end <= s.len(),
                dots <= 2,
                version_run(s, end as nat, dots as nat) == version_run(s, i, 0),
            decreases s.len() - end,
        {
            if self.chars[end] == '.' {
                dots = dots + 1;
            }
            end = end + 1;
        }
        let from = self.pos;
        let lexeme = string_from_range(&self.chars, from, end);
        self.advance(end);
        let kind = if dots == 2 {
            TokenKind::Version
        } else {
            TokenKind::Identifier
        };
        Token::new(kind, lexeme, Span::new(start_pos, self.position, start_line, start_col))
    }

    /// Returns the keyword kind for a lexeme, if it is a keyword.
    pub fn keyword_kind(&self, lexeme: &str) -> (r: Option<TokenKind>)
        ensures
            r == keyword_of(lexeme@),
    {
        if str_eq(lexeme, "gene") {
            Some(TokenKind::Gene)
        } else if str_eq(lexeme, "trait") {
            Some(TokenKind::Trait)
        } else if str_eq(lexeme, "constraint") {
            Some(TokenKind::Constraint)
        } else if str_eq(lexeme, "system") {
            Some(TokenKind::System)
        } else if str_eq(lexeme, "evolves") {
            Some(TokenKind::Evolves)
        } else if str_eq(lexeme, "exegesis") {
            Some(TokenKind::Exegesis)
        } else if str_eq(lexeme, "has") {
            Some(TokenKind::Has)
        } else if str_eq(lexeme, "is") {
            Some(TokenKind::Is)
        } else if str_eq(lexeme, "derives") {
            Some(TokenKind::Derives)
        } else if str_eq(lexeme, "from") {
            Some(TokenKind::From)
        } else if str_eq(lexeme, "requires") {
            Some(TokenKind::Requires)
        } else if str_eq(lexeme, "uses") {
            Some(TokenKind::Uses)
        } else if str_eq(lexeme, "emits") {
            Some(TokenKind::Emits)
        } else if str_eq(lexeme, "matches") {
            Some(TokenKind::Matches)
        } else if str_eq(lexeme, "never") {
            Some(TokenKind::Never)
        } else if str_eq(lexeme, "adds") {
            Some(TokenKind::Adds)
        } else if str_eq(lexeme, "deprecates") {
            Some(TokenKind::Deprecates)
        } else if str_eq(lexeme, "removes") {
            Some(TokenKind::Removes)
        } else if str_eq(lexeme, "because") {
            Some(TokenKind::Because)
        } else if str_eq(lexeme, "test") {
            Some(TokenKind::Test)
        } else if str_eq(lexeme, "given") {
            Some(TokenKind::Given)
        } else if str_eq(lexeme, "when") {
            Some(TokenKind::When)
        } else if str_eq(lexeme, "then") {
            Some(TokenKind::Then)
        } else if str_eq(lexeme, "always") {
            Some(TokenKind::Always)
        } else if str_eq(lexeme, "each") {
            Some(TokenKind::Each)
        } else if str_eq(lexeme, "all") {
            Some(TokenKind::All)
        } else if str_eq(lexeme, "no") {
            Some(TokenKind::No)
        } else {
            None
        }
    }
}

spec fn old_content_plus(a: Seq<char>, b: Seq<char>) -> Seq<char> {
    a + b
}

/// A token scanned from the source is never the end-of-file token.
proof fn lemma_scan_token_not_eof(s: Seq<char>, i: nat)
    requires
        i < s.len(),
    ensures
        scan_token(s, i).0 != TokenKind::Eof,
{
}

/// Once the source is exhausted the lexer stays there: the step after an
/// end-of-file token gives the same end-of-file token again, at the same
/// place, with no new error.
pub proof fn lemma_eof_is_sticky(s: Seq<char>, i: nat)
    requires
        Lexer::spec_next(s, i).0 == TokenKind::Eof,
    ensures
        Lexer::spec_next(s, Lexer::spec_next(s, i).3) == Lexer::spec_next(s, i),
        Lexer::spec_next(s, i).3 >= s.len(),
{
    let t = skip_trivia(s, i, false);
    if t < s.len() {
        lemma_scan_token_not_eof(s, t);
    }
}

/// The lengths of the keyword and token texts, and which texts of equal
/// length differ.
proof fn lemma_token_texts()
    ensures
        "gene"@.len() == 4,
        "trait"@.len() == 5,
        "constraint"@.len() == 10,
        "system"@.len() == 6,
        "evolves"@.len() == 7,
        "exegesis"@.len() == 8,
        "has"@.len() == 3,
        "is"@.len() == 2,
        "derives"@.len() == 7,
        "from"@.len() == 4,
        "requires"@.len() == 8,
        "uses"@.len() == 4,
        "emits"@.len() == 5,
        "matches"@.len() == 7,
        "never"@.len() == 5,
        "adds"@.len() == 4,
        "deprecates"@.len() == 10,
        "removes"@.len() == 7,
        "because"@.len() == 7,
        "test"@.len() == 4,
        "given"@.len() == 5,
        "when"@.len() == 4,
        "then"@.len() == 4,
        "always"@.len() == 6,
        "each"@.len() == 4,
        "all"@.len() == 3,
        "no"@.len() == 2,
        "{"@.len() == 1,
        "}"@.len() == 1,
        "@"@.len() == 1,
        ">"@.len() == 1,
        ">="@.len() == 2,
        "="@.len() == 1,
        "identifier"@.len() == 10,
        "version"@.len() == 7,
        "string"@.len() == 6,
        "end of file"@.len() == 11,
        "error"@.len() == 5,
        "derives"@ != "evolves"@,
        "from"@ != "gene"@,
        "requires"@ != "exegesis"@,
        "uses"@ != "gene"@,
        "uses"@ != "from"@,
        "emits"@ != "trait"@,
        "matches"@ != "evolves"@,
        "matches"@ != "derives"@,
        "never"@ != "trait"@,
        "never"@ != "emits"@,
        "adds"@ != "gene"@,
        "adds"@ != "from"@,
        "adds"@ != "uses"@,
        "deprecates"@ != "constraint"@,
        "removes"@ != "evolves"@,
        "removes"@ != "derives"@,
        "removes"@ != "matches"@,
        "because"@ != "evolves"@,
        "because"@ != "derives"@,
        "because"@ != "matches"@,
        "because"@ != "removes"@,
        "test"@ != "gene"@,
        "test"@ != "from"@,
        "test"@ != "uses"@,
        "test"@ != "adds"@,
        "given"@ != "trait"@,
        "given"@ != "emits"@,
        "given"@ != "never"@,
        "when"@ != "gene"@,
        "when"@ != "from"@,
        "when"@ != "uses"@,
        "when"@ != "adds"@,
        "when"@ != "test"@,
        "then"@ != "gene"@,
        "then"@ != "from"@,
        "then"@ != "uses"@,
        "then"@ != "adds"@,
        "then"@ != "test"@,
        "then"@ != "when"@,
        "always"@ != "system"@,
        "each"@ != "gene"@,
        "each"@ != "from"@,
        "each"@ != "uses"@,
        "each"@ != "adds"@,
        "each"@ != "test"@,
        "each"@ != "when"@,
        "each"@ != "then"@,
        "all"@ != "has"@,
        "no"@ != "is"@,
        ">="@ != "is"@,
        ">="@ != "no"@,
        "identifier"@ != "constraint"@,
        "identifier"@ != "deprecates"@,
        "version"@ != "evolves"@,
        "version"@ != "derives"@,
        "version"@ != "matches"@,
        "version"@ != "removes"@,
        "version"@ != "because"@,
        "string"@ != "system"@,
        "string"@ != "always"@,
        "error"@ != "trait"@,
        "error"@ != "emits"@,
        "error"@ != "never"@,
        "error"@ != "given"@,
{
    reveal_strlit("gene");
    reveal_strlit("trait");
    reveal_strlit("constraint");
    reveal_strlit("system");
    reveal_strlit("evolves");
    reveal_strlit("exegesis");
    reveal_strlit("has");
    reveal_strlit("is");
    reveal_strlit("derives");
    reveal_strlit("from");
    reveal_strlit("requires");
    reveal_strlit("uses");
    reveal_strlit("emits");
    reveal_strlit("matches");
    reveal_strlit("never");
    reveal_strlit("adds");
    reveal_strlit("deprecates");
    reveal_strlit("removes");
    reveal_strlit("because");
    reveal_strlit("test");
    reveal_strlit("given");
    reveal_strlit("when");
    reveal_strlit("then");
    reveal_strlit("always");
    reveal_strlit("each");
    reveal_strlit("all");
    reveal_strlit("no");
    reveal_strlit("{");
    reveal_strlit("}");
    reveal_strlit("@");
    reveal_strlit(">");
    reveal_strlit(">=");
    reveal_strlit("=");
    reveal_strlit("identifier");
    reveal_strlit("version");
    reveal_strlit("string");
    reveal_strlit("end of file");
    reveal_strlit("error");
    assert("derives"@[0] != "evolves"@[0]);
    assert("from"@[0] != "gene"@[0]);
    assert("requires"@[0] != "exegesis"@[0]);
    assert("uses"@[0] != "gene"@[0]);
    assert("uses"@[0] != "from"@[0]);
    assert("emits"@[0] != "trait"@[0]);
    assert("matches"@[0] != "evolves"@[0]);
    assert("matches"@[0] != "derives"@[0]);
    assert("never"@[0] != "trait"@[0]);
    assert("never"@[0] != "emits"@[0]);
    assert("adds"@[0] != "gene"@[0]);
    assert("adds"@[0] != "from"@[0]);
    assert("adds"@[0] != "uses"@[0]);
    assert("deprecates"@[0] != "constraint"@[0]);
    assert("removes"@[0] != "evolves"@[0]);
    assert("removes"@[0] != "derives"@[0]);
    assert("removes"@[0] != "matches"@[0]);
    assert("because"@[0] != "evolves"@[0]);
    assert("because"@[0] != "derives"@[0]);
    assert("because"@[0] != "matches"@[0]);
    assert("because"@[0] != "removes"@[0]);
    assert("test"@[0] != "gene"@[0]);
    assert("test"@[0] != "from"@[0]);
    assert("test"@[0] != "uses"@[0]);
    assert("test"@[0] != "adds"@[0]);
    assert("given"@[0] != "trait"@[0]);
    assert("given"@[0] != "emits"@[0]);
    assert("given"@[0] != "never"@[0]);
    assert("when"@[0] != "gene"@[0]);
    assert("when"@[0] != "from"@[0]);
    assert("when"@[0] != "uses"@[0]);
    assert("when"@[0] != "adds"@[0]);
    assert("when"@[0] != "test"@[0]);
    assert("then"@[0] != "gene"@[0]);
    assert("then"@[0] != "from"@[0]);
    assert("then"@[0] != "uses"@[0]);
    assert("then"@[0] != "adds"@[0]);
    assert("then"@[1] != "test"@[1]);
    assert("then"@[0] != "when"@[0]);
    assert("always"@[0] != "system"@[0]);
    assert("each"@[0] != "gene"@[0]);
    assert("each"@[0] != "from"@[0]);
    assert("each"@[0] != "uses"@[0]);
    assert("each"@[0] != "adds"@[0]);
    assert("each"@[0] != "test"@[0]);
    assert("each"@[0] != "when"@[0]);
    assert("each"@[0] != "then"@[0]);
    assert("all"@[0] != "has"@[0]);
    assert("no"@[0] != "is"@[0]);
    assert(">="@[0] != "is"@[0]);
    assert(">="@[0] != "no"@[0]);
    assert("identifier"@[0] != "constraint"@[0]);
    assert("identifier"@[0] != "deprecates"@[0]);
    assert("version"@[0] != "evolves"@[0]);
    assert("version"@[0] != "derives"@[0]);
    assert("version"@[0] != "matches"@[0]);
    assert("version"@[0] != "removes"@[0]);
    assert("version"@[0] != "because"@[0]);
    assert("string"@[1] != "system"@[1]);
    assert("string"@[0] != "always"@[0]);
    assert("error"@[0] != "trait"@[0]);
    assert("error"@[1] != "emits"@[1]);
    assert("error"@[0] != "never"@[0]);
    assert("error"@[0] != "given"@[0]);
}

/// The keyword table reads each keyword's text back as that keyword, and
/// no other kind's text as anything: a kind is a keyword exactly when the
/// table maps its text to it.
#[verifier::spinoff_prover]
#[verifier::rlimit(100)]
pub proof fn lemma_keyword_table_round_trip(k: TokenKind)
    ensures
        k.spec_is_keyword() <==> keyword_of(k.spec_describe()) == Some(k),
        !k.spec_is_keyword() ==> keyword_of(k.spec_describe()) is None,
{
    lemma_token_texts();
    match k {
        TokenKind::Gene => {},
        TokenKind::Trait => {},
        TokenKind::Constraint => {},
        TokenKind::System => {},
        TokenKind::Evolves => {},
        TokenKind::Exegesis => {},
        TokenKind::Has => {},
        TokenKind::Is => {},
        TokenKind::Derives => {},
        TokenKind::From => {},
        TokenKind::Requires => {},
        TokenKind::Uses => {},
        TokenKind::Emits => {},
        TokenKind::Matches => {},
        TokenKind::Never => {},
        TokenKind::Adds => {},
        TokenKind::Deprecates => {},
        TokenKind::Removes => {},
        TokenKind::Because => {},
        TokenKind::Test => {},
        TokenKind::Given => {},
        TokenKind::When => {},
        TokenKind::Then => {},
        TokenKind::Always => {},
        TokenKind::Each => {},
        TokenKind::All => {},
        TokenKind::No => {},
        TokenKind::LeftBrace => {},
        TokenKind::RightBrace => {},
        TokenKind::At => {},
        TokenKind::Greater => {},
        TokenKind::GreaterEqual => {},
        TokenKind::Equal => {},
        TokenKind::Identifier => {},
        TokenKind::Version => {},
        TokenKind::String => {},
        TokenKind::Eof => {},
        TokenKind::Error => {},
    }
}

/// Whatever the keyword table maps a text to is a keyword whose text that
/// is.
#[verifier::rlimit(100)]
pub proof fn lemma_keyword_table_sound(w: Seq<char>)
    ensures
        keyword_of(w) matches Some(k) ==> k.spec_is_keyword() && k.spec_describe() == w,
{
}

/// The number of bytes that the UTF-8 encoding of `s` takes.
pub open spec fn utf8_len(s: Seq<char>) -> nat
    decreases s.len(),
{
    if s.len() == 0 {
        0
    } else {
        utf8_len(s.drop_last()) + spec_utf8_width(s.last())
    }
}

/// Every character takes at least one byte: a longer prefix takes at least
/// as many more bytes as it has more characters.
proof fn lemma_utf8_len_grows(s: Seq<char>, a: nat, b: nat)
    requires
        a <= b <= s.len(),
    ensures
        utf8_len(s.take(b as int)) >= utf8_len(s.take(a as int)) + (b - a),
    decreases b - a,
{
    if a < b {
        lemma_utf8_len_grows(s, a, (b - 1) as nat);
        assert(s.take(b as int).drop_last() =~= s.take(b - 1));
    }
}

/// The byte offset of character index `n` is the length of the bytes
/// before it, when the whole source fits in `usize`.
proof fn lemma_loc_bytes(s: Seq<char>, n: nat)
    requires
        n <= s.len(),
        utf8_len(s) <= usize::MAX,
    ensures
        loc(s, n).0 == utf8_len(s.take(n as int)),
    decreases n,
{
    lemma_utf8_len_grows(s, n, s.len());
    assert(s.take(s.len() as int) =~= s);
    if n > 0 {
        lemma_loc_bytes(s, (n - 1) as nat);
        assert(s.take(n as int).drop_last() =~= s.take(n - 1));
        assert(s.take(n as int).last() == s[n - 1]);
    } else {
        assert(s.take(0) =~= Seq::<char>::empty());
    }
}

/// The spans of tokens, in bytes of the source: a token other than end of
/// file covers at least one byte, within the source; the end-of-file token
/// is empty and sits at the end of the source (for a source whose length in
/// bytes fits in `usize`, as every string's does).
pub proof fn lemma_next_token_bytes(s: Seq<char>, i: nat)
    requires
        i <= s.len(),
        utf8_len(s) <= usize::MAX,
    ensures
        ({
            let n = Lexer::spec_next(s, i);
            if n.0 == TokenKind::Eof {
                &&& n.1 == Seq::<char>::empty()
                &&& n.2.start == n.2.end
                &&& n.2.end == utf8_len(s)
            } else {
                &&& n.2.start < n.2.end
                &&& n.2.end <= utf8_len(s)
            }
        }),
{
    lemma_skip_trivia_bounds(s, i, false);
    lemma_next_bounds(s, i);
    let t = skip_trivia(s, i, false);
    let n = Lexer::spec_next(s, i);
    assert(s.take(s.len() as int) =~= s);
    lemma_loc_bytes(s, s.len());
    if t < s.len() {
        lemma_scan_token_progress(s, t);
        assert(scan_token(s, t).0 != TokenKind::Eof);
        let e = scan_token(s, t).2;
        lemma_loc_bytes(s, t);
        lemma_loc_bytes(s, e);
        lemma_utf8_len_grows(s, t, e);
        lemma_utf8_len_grows(s, e, s.len());
    } else {
        lemma_loc_bytes(s, t);
    }
}

} // verus!

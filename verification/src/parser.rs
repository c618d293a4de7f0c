//! Recursive-descent parser for DOL declarations.
//!
//! The parser reads the token stream of the lexer and builds one
//! declaration: a `gene`, `trait`, `constraint`, `system` or `evolves`
//! block, followed by its mandatory `exegesis` block.
//!
//! The grammar is stated by the relations of this module over the token
//! stream of the source (`tk`, `lx`, `sp` give the kind, text and span of the
//! token with a given index). Each parsing function is proved to return a
//! value, or an error, that the relations describe.

use vstd::prelude::*;

use crate::ast::{Constraint, Declaration, Evolution, Gene, Quantifier, Requirement, Span, Statement, System, Trait};
use crate::error::ParseError;
use crate::lexer::{lemma_eof_is_sticky, lemma_next_bounds, Lexer, Token, TokenKind};
use crate::text::{
    chars_of, owned, push_char, spec_trim, trim, utf8_width,
};

verus! {

// ---------------------------------------------------------------------------
// The token stream
// ---------------------------------------------------------------------------

/// The character index where the lexer stands after `k` tokens.
pub open spec fn cursor_at(s: Seq<char>, k: nat) -> nat
    decreases k,
{
    if k == 0 {
        0
    } else {
        Lexer::spec_next(s, cursor_at(s, (k - 1) as nat)).3
    }
}

/// The kind of token number `k`.
pub open spec fn tk(s: Seq<char>, k: nat) -> TokenKind {
    Lexer::spec_next(s, cursor_at(s, k)).0
}

/// The text of token number `k`.
pub open spec fn lx(s: Seq<char>, k: nat) -> Seq<char> {
    Lexer::spec_next(s, cursor_at(s, k)).1
}

/// The span of token number `k`.
pub open spec fn sp(s: Seq<char>, k: nat) -> Span {
    Lexer::spec_next(s, cursor_at(s, k)).2
}

/// `t` is token number `k`.
pub open spec fn tok_is(t: Token, s: Seq<char>, k: nat) -> bool {
    t.kind == tk(s, k) && t.lexeme@ == lx(s, k) && t.span == sp(s, k)
}

/// The span from token `k` to the token before `e`.
pub open spec fn span_from(s: Seq<char>, k: nat, e: nat) -> Span {
    sp(s, k).spec_merge(sp(s, (e - 1) as nat))
}

/// The cursor never moves back and stays within the source; it moves on
/// past every token other than end of file.
pub proof fn lemma_cursor_step(s: Seq<char>, k: nat)
    ensures
        cursor_at(s, k) <= cursor_at(s, k + 1) <= s.len(),
        tk(s, k) != TokenKind::Eof ==> cursor_at(s, k) < cursor_at(s, k + 1),
    decreases k,
{
    if k > 0 {
        lemma_cursor_step(s, (k - 1) as nat);
    }
    lemma_next_bounds(s, cursor_at(s, k));
}

/// The cursor is monotone in the token index.
pub proof fn lemma_cursor_mono(s: Seq<char>, a: nat, b: nat)
    requires
        a <= b,
    ensures
        cursor_at(s, a) <= cursor_at(s, b) <= s.len(),
    decreases b - a,
{
    lemma_cursor_step(s, b);
    if a < b {
        lemma_cursor_step(s, a);
        lemma_cursor_mono(s, a + 1, b);
    }
}

/// Moving past a token other than end of file moves the cursor on.
pub proof fn lemma_progress(s: Seq<char>, k: nat, k2: nat)
    requires
        k < k2,
        tk(s, k) != TokenKind::Eof,
    ensures
        cursor_at(s, k) < cursor_at(s, k2) <= s.len(),
{
    lemma_cursor_step(s, k);
    lemma_cursor_mono(s, k + 1, k2);
}

/// After `n` tokens none of which is the end of file, the cursor has moved
/// past at least `n` characters.
proof fn lemma_cursor_counts_tokens(s: Seq<char>, n: nat)
    requires
        forall|j: nat| j < n ==> tk(s, j) != TokenKind::Eof,
    ensures
        cursor_at(s, n) >= n,
    decreases n,
{
    if n > 0 {
        lemma_cursor_counts_tokens(s, (n - 1) as nat);
        lemma_cursor_step(s, (n - 1) as nat);
    }
}

/// Once the stream reaches the end of file it stays there: every later
/// token is the end of file too.
pub proof fn lemma_eof_stays(s: Seq<char>, j: nat, m: nat)
    requires
        tk(s, j) == TokenKind::Eof,
        j <= m,
    ensures
        tk(s, m) == TokenKind::Eof,
    decreases m - j,
{
    if j < m {
        lemma_eof_is_sticky(s, cursor_at(s, j));
        assert(cursor_at(s, j + 1) == Lexer::spec_next(s, cursor_at(s, j)).3);
        lemma_eof_stays(s, j + 1, m);
    }
}

/// Lexing ends: a source of `n` characters yields the end of file within
/// its first `n + 1` tokens, and only the end of file after it.
pub proof fn lemma_token_stream_ends(s: Seq<char>)
    ensures
        exists|j: nat| j <= s.len() && #[trigger] tk(s, j) == TokenKind::Eof,
        forall|m: nat| m >= s.len() ==> #[trigger] tk(s, m) == TokenKind::Eof,
{
    if !(exists|j: nat| j <= s.len() && #[trigger] tk(s, j) == TokenKind::Eof) {
        assert forall|j: nat| j < s.len() + 1 implies tk(s, j) != TokenKind::Eof by {
            assert(j <= s.len());
        }
        lemma_cursor_counts_tokens(s, s.len() + 1);
        lemma_cursor_mono(s, s.len() + 1, s.len() + 1);
    }
    let j = choose|j: nat| j <= s.len() && #[trigger] tk(s, j) == TokenKind::Eof;
    assert forall|m: nat| m >= s.len() implies #[trigger] tk(s, m) == TokenKind::Eof by {
        lemma_eof_stays(s, j, m);
    }
}

// ---------------------------------------------------------------------------
// Errors
// ---------------------------------------------------------------------------

/// `e` reports that `expected` was wanted where token `k` stands.
pub open spec fn is_unexpected(e: ParseError, expected: Seq<char>, s: Seq<char>, k: nat) -> bool {
    e matches ParseError::UnexpectedToken { expected: x, found: f, span } && x@ == expected && f@
        == "'"@ + lx(s, k) + "'"@ && span == sp(s, k)
}

/// Token `k` is not of kind `kind`, and `e` says so.
pub open spec fn expect_fails(s: Seq<char>, k: nat, kind: TokenKind, e: ParseError) -> bool {
    tk(s, k) != kind && is_unexpected(e, kind.spec_describe(), s, k)
}

/// Token `k` is not an identifier, and `e` says so.
pub open spec fn ident_fails(s: Seq<char>, k: nat, e: ParseError) -> bool {
    tk(s, k) != TokenKind::Identifier && is_unexpected(e, "identifier"@, s, k)
}

// ---------------------------------------------------------------------------
// Phrases
// ---------------------------------------------------------------------------

/// A token that may continue a phrase.
pub open spec fn phrase_word(k: TokenKind) -> bool {
    k == TokenKind::Identifier || k == TokenKind::No
}

/// Continuing a phrase `acc` from token `j` gives `res`, ending before
/// token `j2`: words are taken until one is followed by a predicate.
pub open spec fn phrase_tail(s: Seq<char>, j: nat, acc: Seq<char>, res: Seq<char>, j2: nat) -> bool
    decreases j2 - j,
{
    if j2 <= j {
        j2 == j && res == acc && !(phrase_word(tk(s, j)) && !tk(s, j + 1).spec_is_predicate())
    } else {
        phrase_word(tk(s, j)) && !tk(s, j + 1).spec_is_predicate() && phrase_tail(
            s,
            j + 1,
            acc + seq![' '] + lx(s, j),
            res,
            j2,
        )
    }
}

/// A phrase starting at token `k` reads `res` and ends before `k2`.
pub open spec fn phrase_ok(s: Seq<char>, k: nat, res: Seq<char>, k2: nat) -> bool {
    phrase_word(tk(s, k)) && phrase_tail(s, k + 1, lx(s, k), res, k2)
}

/// A phrase cannot start at token `k`.
pub open spec fn phrase_fails(s: Seq<char>, k: nat, e: ParseError) -> bool {
    !phrase_word(tk(s, k)) && is_unexpected(e, "identifier"@, s, k)
}

/// A token that continues a quantified phrase.
pub open spec fn qphrase_word(k: TokenKind) -> bool {
    k == TokenKind::Identifier || k == TokenKind::Has || k == TokenKind::Is || k == TokenKind::Emits
        || k == TokenKind::Matches || k == TokenKind::Never || k == TokenKind::Requires || k
        == TokenKind::Derives || k == TokenKind::From
}

/// Continuing a quantified phrase `acc` from token `j`.
pub open spec fn qphrase_tail(s: Seq<char>, j: nat, acc: Seq<char>, res: Seq<char>, j2: nat) -> bool
    decreases j2 - j,
{
    if j2 <= j {
        j2 == j && res == acc && !qphrase_word(tk(s, j))
    } else {
        qphrase_word(tk(s, j)) && qphrase_tail(s, j + 1, acc + seq![' '] + lx(s, j), res, j2)
    }
}

/// Continuing a run of identifiers `acc` from token `j`.
pub open spec fn ident_tail(s: Seq<char>, j: nat, acc: Seq<char>, res: Seq<char>, j2: nat) -> bool
    decreases j2 - j,
{
    if j2 <= j {
        j2 == j && res == acc && tk(s, j) != TokenKind::Identifier
    } else {
        tk(s, j) == TokenKind::Identifier && ident_tail(s, j + 1, acc + seq![' '] + lx(s, j), res, j2)
    }
}

// ---------------------------------------------------------------------------
// Statements
// ---------------------------------------------------------------------------

/// After the subject (which ends before token `j`), the predicate at `j`
/// and its object form `st`, ending before `k2`; `k` is the first token.
pub open spec fn predicate_ok(
    s: Seq<char>,
    k: nat,
    subj: Seq<char>,
    j: nat,
    st: Statement,
    k2: nat,
    allow_derives: bool,
) -> bool {
    let span = span_from(s, k, k2);
    let p = tk(s, j);
    if p == TokenKind::Has {
        ({
            &&& tk(s, j + 1) == TokenKind::Identifier && k2 == j + 2
            &&& st matches Statement::Has {
            subject: a,
            property: b,
            span: c,
        }
            &&& a@ == subj && b@ == lx(s, j + 1) && c == span
        })
    } else if p == TokenKind::Is {
        ({
            &&& tk(s, j + 1) == TokenKind::Identifier && k2 == j + 2
            &&& st matches Statement::Is {
            subject: a,
            state: b,
            span: c,
        }
            &&& a@ == subj && b@ == lx(s, j + 1) && c == span
        })
    } else if p == TokenKind::Derives && allow_derives {
        ({
            &&& tk(s, j + 1) == TokenKind::From
            &&& st matches Statement::DerivesFrom {
            subject: a,
            origin: b,
            span: c,
        }
            &&& a@ == subj && phrase_ok(s, j + 2, b@, k2) && c == span
        })
    } else if p == TokenKind::Requires {
        ({
            &&& st matches Statement::Requires { subject: a, requirement: b, span: c }
            &&& a@ == subj
            && phrase_ok(s, j + 1, b@, k2) && c == span
        })
    } else if p == TokenKind::Emits {
        ({
            &&& tk(s, j + 1) == TokenKind::Identifier && k2 == j + 2
            &&& st matches Statement::Emits {
            action: a,
            event: b,
            span: c,
        }
            &&& a@ == subj && b@ == lx(s, j + 1) && c == span
        })
    } else if p == TokenKind::Matches {
        ({
            &&& st matches Statement::Matches { subject: a, target: b, span: c }
            &&& a@ == subj
            && phrase_ok(s, j + 1, b@, k2) && c == span
        })
    } else if p == TokenKind::Never {
        ({
            &&& tk(s, j + 1) == TokenKind::Identifier && k2 == j + 2
            &&& st matches Statement::Never {
            subject: a,
            action: b,
            span: c,
        }
            &&& a@ == subj && b@ == lx(s, j + 1) && c == span
        })
    } else {
        false
    }
}

/// The predicate at token `j` and its object fail to parse with `e`.
pub open spec fn predicate_fails(s: Seq<char>, j: nat, e: ParseError, allow_derives: bool) -> bool {
    let p = tk(s, j);
    if p == TokenKind::Has || p == TokenKind::Is || p == TokenKind::Emits || p == TokenKind::Never {
        ident_fails(s, j + 1, e)
    } else if p == TokenKind::Derives && allow_derives {
        expect_fails(s, j + 1, TokenKind::From, e) || (tk(s, j + 1) == TokenKind::From
            && phrase_fails(s, j + 2, e))
    } else if p == TokenKind::Requires || p == TokenKind::Matches {
        phrase_fails(s, j + 1, e)
    } else {
        false
    }
}

/// The token kind begins a predicate handled after a single subject.
pub open spec fn is_statement_predicate(p: TokenKind) -> bool {
    p == TokenKind::Has || p == TokenKind::Is || p == TokenKind::Derives || p
        == TokenKind::Requires || p == TokenKind::Emits || p == TokenKind::Matches || p
        == TokenKind::Never
}

/// The token kind begins a predicate handled after a multi-word subject.
pub open spec fn is_phrase_predicate(p: TokenKind) -> bool {
    p == TokenKind::Has || p == TokenKind::Is || p == TokenKind::Requires || p == TokenKind::Emits
        || p == TokenKind::Matches || p == TokenKind::Never
}

/// The statement starting at token `k` is `st` and ends before `k2`.
#[verifier::opaque]
pub open spec fn statement_ok(s: Seq<char>, k: nat, st: Statement, k2: nat) -> bool {
    let t = tk(s, k);
    if t == TokenKind::Uses {
        ({
            &&& tk(s, k + 1) == TokenKind::Identifier && k2 == k + 2
            &&& st matches Statement::Uses {
            reference: r,
            span: c,
        }
            &&& r@ == lx(s, k + 1) && c == span_from(s, k, k2)
        })
    } else if t == TokenKind::Each || t == TokenKind::All {
        ({
            &&& tk(s, k + 1) == TokenKind::Identifier
            &&& st matches Statement::Quantified {
            quantifier: q,
            phrase: p,
            span: c,
        }
            &&& q == (if t == TokenKind::Each {
                Quantifier::Each
            } else {
                Quantifier::All
            })
            &&& qphrase_tail(s, k + 2, lx(s, k + 1), p@, k2)
            &&& c == span_from(s, k, k2)
        })
    } else {
        t == TokenKind::Identifier && ({
            let subj = lx(s, k);
            let p = tk(s, k + 1);
            if is_statement_predicate(p) {
                predicate_ok(s, k, subj, k + 1, st, k2, true)
            } else if p == TokenKind::Identifier {
                exists|j: nat, phrase: Seq<char>|
                    #[trigger] ident_tail(s, k + 1, subj, phrase, j) && predicate_ok(
                        s,
                        k,
                        phrase,
                        j,
                        st,
                        k2,
                        false,
                    )
            } else {
                false
            }
        })
    }
}

/// The statement starting at token `k` fails to parse with `e`.
#[verifier::opaque]
pub open spec fn statement_fails(s: Seq<char>, k: nat, e: ParseError) -> bool {
    let t = tk(s, k);
    if t == TokenKind::Uses {
        ident_fails(s, k + 1, e)
    } else if t == TokenKind::Each || t == TokenKind::All {
        ident_fails(s, k + 1, e)
    } else if t != TokenKind::Identifier {
        ident_fails(s, k, e)
    } else {
        let subj = lx(s, k);
        let p = tk(s, k + 1);
        if is_statement_predicate(p) {
            predicate_fails(s, k + 1, e, true)
        } else if p == TokenKind::Identifier {
            exists|j: nat, phrase: Seq<char>|
                #[trigger] ident_tail(s, k + 1, subj, phrase, j) && (if is_phrase_predicate(tk(s, j)) {
                    predicate_fails(s, j, e, false)
                } else {
                    e matches ParseError::InvalidStatement { message: m, span: c } && m@
                        == "expected predicate after '"@ + phrase + "'"@ && c == sp(s, j)
                })
        } else {
            is_unexpected(e, "predicate (has, is, derives, requires, etc.)"@, s, k + 1)
        }
    }
}

/// A statement list from token `k` gives `ss` and stops before `k2`, at a
/// closing brace or the end of input.
pub open spec fn statements_ok(s: Seq<char>, k: nat, ss: Seq<Statement>, k2: nat) -> bool
    decreases ss.len(),
{
    if ss.len() == 0 {
        k2 == k && (tk(s, k) == TokenKind::RightBrace || tk(s, k) == TokenKind::Eof)
    } else {
        tk(s, k) != TokenKind::RightBrace && tk(s, k) != TokenKind::Eof && exists|k1: nat|
            #[trigger] statement_ok(s, k, ss[0], k1) && statements_ok(s, k1, ss.drop_first(), k2)
    }
}

/// A statement list from token `k` fails with `e` after `n` statements.
pub open spec fn statements_fail(s: Seq<char>, k: nat, e: ParseError, n: nat) -> bool
    decreases n,
{
    tk(s, k) != TokenKind::RightBrace && tk(s, k) != TokenKind::Eof && if n == 0 {
        statement_fails(s, k, e)
    } else {
        exists|st: Statement, k1: nat|
            #[trigger] statement_ok(s, k, st, k1) && statements_fail(s, k1, e, (n - 1) as nat)
    }
}

// ---------------------------------------------------------------------------
// Exegesis
// ---------------------------------------------------------------------------

/// The first character index from `c` whose byte offset reaches `b`.
pub open spec fn char_index_of_byte(s: Seq<char>, b: usize, c: nat) -> nat
    decreases s.len() - c,
{
    if c >= s.len() || crate::lexer::loc(s, c).0 >= b {
        c
    } else {
        char_index_of_byte(s, b, c + 1)
    }
}

/// The text from index `c` up to the brace that closes depth `depth`.
pub open spec fn exegesis_text(s: Seq<char>, c: nat, depth: nat) -> Seq<char>
    decreases s.len() - c,
{
    if c >= s.len() {
        Seq::empty()
    } else if s[c as int] == '{' {
        seq!['{'] + exegesis_text(s, c + 1, depth + 1)
    } else if s[c as int] == '}' {
        if depth <= 1 {
            Seq::empty()
        } else {
            seq!['}'] + exegesis_text(s, c + 1, (depth - 1) as nat)
        }
    } else {
        seq![s[c as int]] + exegesis_text(s, c + 1, depth)
    }
}

/// From token `j`, the tokens up to a closing brace or the end of input
/// are skipped: `j2` is the first of those.
pub open spec fn skip_to_brace(s: Seq<char>, j: nat, j2: nat) -> bool
    decreases j2 - j,
{
    if j2 <= j {
        j2 == j && (tk(s, j) == TokenKind::RightBrace || tk(s, j) == TokenKind::Eof)
    } else {
        tk(s, j) != TokenKind::RightBrace && tk(s, j) != TokenKind::Eof && skip_to_brace(
            s,
            j + 1,
            j2,
        )
    }
}

/// The exegesis block at token `k` reads `text` and ends before `k2`.
pub open spec fn exegesis_ok(s: Seq<char>, k: nat, text: Seq<char>, k2: nat) -> bool {
    tk(s, k) == TokenKind::Exegesis && tk(s, k + 1) == TokenKind::LeftBrace && text == spec_trim(
        exegesis_text(s, char_index_of_byte(s, sp(s, k + 2).start, 0), 1),
    ) && exists|j: nat|
        #[trigger] skip_to_brace(s, k + 2, j) && k2 == (if tk(s, j) == TokenKind::RightBrace {
            j + 1
        } else {
            j
        })
}

/// The exegesis block at token `k` is missing or malformed, as `e` says.
pub open spec fn exegesis_fails(s: Seq<char>, k: nat, e: ParseError) -> bool {
    if tk(s, k) != TokenKind::Exegesis {
        e == ParseError::MissingExegesis { span: sp(s, k) }
    } else {
        expect_fails(s, k + 1, TokenKind::LeftBrace, e)
    }
}

// ---------------------------------------------------------------------------
// Declarations
// ---------------------------------------------------------------------------

/// A `gene`/`trait`/`constraint` block at token `k`, introduced by `kw`,
/// gives the name, statements, exegesis and span, and ends before `k2`.
pub open spec fn block_ok(
    s: Seq<char>,
    k: nat,
    kw: TokenKind,
    name: Seq<char>,
    ss: Seq<Statement>,
    ex: Seq<char>,
    span: Span,
    k2: nat,
) -> bool {
    tk(s, k) == kw && tk(s, k + 1) == TokenKind::Identifier && name == lx(s, k + 1) && tk(s, k + 2)
        == TokenKind::LeftBrace && exists|j: nat|
        #[trigger] statements_ok(s, k + 3, ss, j) && tk(s, j) == TokenKind::RightBrace && exegesis_ok(
            s,
            j + 1,
            ex,
            k2,
        ) && span == span_from(s, k, k2)
}

/// Such a block fails with `e`.
pub open spec fn block_fails(s: Seq<char>, k: nat, e: ParseError) -> bool {
    ident_fails(s, k + 1, e) || (tk(s, k + 1) == TokenKind::Identifier && (expect_fails(
        s,
        k + 2,
        TokenKind::LeftBrace,
        e,
    ) || (tk(s, k + 2) == TokenKind::LeftBrace && ((exists|n: nat|
        #[trigger] statements_fail(s, k + 3, e, n)) || exists|ss: Seq<Statement>, j: nat|
        #[trigger] statements_ok(s, k + 3, ss, j) && (expect_fails(s, j, TokenKind::RightBrace, e) || (tk(
            s,
            j,
        ) == TokenKind::RightBrace && exegesis_fails(s, j + 1, e)))))))
}

/// The declaration at token `k` is `d` and ends before `k2`.
pub open spec fn declaration_ok(s: Seq<char>, k: nat, d: Declaration, k2: nat) -> bool {
    match d {
        Declaration::Gene(g) => block_ok(
            s,
            k,
            TokenKind::Gene,
            g.name@,
            g.statements@,
            g.exegesis@,
            g.span,
            k2,
        ),
        Declaration::Trait(g) => block_ok(
            s,
            k,
            TokenKind::Trait,
            g.name@,
            g.statements@,
            g.exegesis@,
            g.span,
            k2,
        ),
        Declaration::Constraint(g) => block_ok(
            s,
            k,
            TokenKind::Constraint,
            g.name@,
            g.statements@,
            g.exegesis@,
            g.span,
            k2,
        ),
        Declaration::System(_) => tk(s, k) == TokenKind::System && system_ok(s, k, d, k2),
        Declaration::Evolution(_) => tk(s, k) == TokenKind::Evolves && evolution_ok(s, k, d, k2),
        Declaration::Gen(_) => false,
        Declaration::Function(_) => false,
    }
}

/// The declaration at token `k` fails with `e`.
pub open spec fn declaration_fails(s: Seq<char>, k: nat, e: ParseError) -> bool {
    let t = tk(s, k);
    if t == TokenKind::Gene || t == TokenKind::Trait || t == TokenKind::Constraint {
        block_fails(s, k, e)
    } else if t == TokenKind::System {
        system_fails(s, k, e)
    } else if t == TokenKind::Evolves {
        evolution_fails(s, k, e)
    } else {
        e matches ParseError::InvalidDeclaration { found: f, span: c } && f@ == lx(s, k) && c
            == sp(s, k)
    }
}

/// What a `system` declaration at `k` parses to (its details are given by
/// the parsing function's own contract).
pub open spec fn system_ok(s: Seq<char>, k: nat, d: Declaration, k2: nat) -> bool {
    d matches Declaration::System(sys) && system_parse_ok(s, k, sys, k2)
}

/// A requirement line `requires name >= version` at token `k`.
pub open spec fn requirement_ok(s: Seq<char>, k: nat, r: Requirement, k2: nat) -> bool {
    let c = tk(s, k + 2);
    tk(s, k) == TokenKind::Requires && tk(s, k + 1) == TokenKind::Identifier && r.name@ == lx(
        s,
        k + 1,
    ) && (c == TokenKind::GreaterEqual || c == TokenKind::Greater || c == TokenKind::Equal)
        && r.constraint@ == c.spec_describe() && tk(s, k + 3) == TokenKind::Version && r.version@
        == lx(s, k + 3) && k2 == k + 4 && r.span == span_from(s, k, k2)
}

/// A requirement at token `k` fails with `e`.
pub open spec fn requirement_fails(s: Seq<char>, k: nat, e: ParseError) -> bool {
    let c = tk(s, k + 2);
    ident_fails(s, k + 1, e) || (tk(s, k + 1) == TokenKind::Identifier && ((!(c
        == TokenKind::GreaterEqual || c == TokenKind::Greater || c == TokenKind::Equal)
        && is_unexpected(e, "version constraint (>=, >, =)"@, s, k + 2)) || ((c
        == TokenKind::GreaterEqual || c == TokenKind::Greater || c == TokenKind::Equal) && tk(
        s,
        k + 3,
    ) != TokenKind::Version && is_unexpected(e, "version number"@, s, k + 3))))
}

/// One item of a system body at `k`: a requirement (when the token is
/// `requires`) or a statement.
pub open spec fn system_items_ok(
    s: Seq<char>,
    k: nat,
    reqs: Seq<Requirement>,
    ss: Seq<Statement>,
    k2: nat,
    n: nat,
) -> bool
    decreases n,
{
    if n == 0 {
        reqs.len() == 0 && ss.len() == 0 && k2 == k && (tk(s, k) == TokenKind::RightBrace || tk(
            s,
            k,
        ) == TokenKind::Eof)
    } else {
        tk(s, k) != TokenKind::RightBrace && tk(s, k) != TokenKind::Eof && if tk(s, k)
            == TokenKind::Requires {
            reqs.len() > 0 && exists|k1: nat|
                #[trigger] requirement_ok(s, k, reqs[0], k1) && system_items_ok(
                    s,
                    k1,
                    reqs.drop_first(),
                    ss,
                    k2,
                    (n - 1) as nat,
                )
        } else {
            ss.len() > 0 && exists|k1: nat|
                #[trigger] statement_ok(s, k, ss[0], k1) && system_items_ok(
                    s,
                    k1,
                    reqs,
                    ss.drop_first(),
                    k2,
                    (n - 1) as nat,
                )
        }
    }
}

/// The body items of a system at `k` fail with `e` after `n` items.
pub open spec fn system_items_fail(s: Seq<char>, k: nat, e: ParseError, n: nat) -> bool
    decreases n,
{
    tk(s, k) != TokenKind::RightBrace && tk(s, k) != TokenKind::Eof && if n == 0 {
        if tk(s, k) == TokenKind::Requires {
            requirement_fails(s, k, e)
        } else {
            statement_fails(s, k, e)
        }
    } else {
        exists|k1: nat| #[trigger] system_item_step(s, k, k1) && system_items_fail(s, k1, e, (n - 1) as nat)
    }
}

/// One item of a system body parses from token `k` and ends before `k1`.
pub open spec fn system_item_step(s: Seq<char>, k: nat, k1: nat) -> bool {
    k1 > k && if tk(s, k) == TokenKind::Requires {
        exists|r: Requirement| #[trigger] requirement_ok(s, k, r, k1)
    } else {
        exists|st: Statement| #[trigger] statement_ok(s, k, st, k1)
    }
}

/// A `system` declaration at token `k`.
pub open spec fn system_parse_ok(s: Seq<char>, k: nat, sys: System, k2: nat) -> bool {
    tk(s, k + 1) == TokenKind::Identifier && sys.name@ == lx(s, k + 1) && tk(s, k + 2)
        == TokenKind::At && tk(s, k + 3) == TokenKind::Version && sys.version@ == lx(s, k + 3) && tk(
        s,
        k + 4,
    ) == TokenKind::LeftBrace && exists|j: nat, n: nat|
        #[trigger] system_items_ok(s, k + 5, sys.requirements@, sys.statements@, j, n) && tk(s, j)
            == TokenKind::RightBrace && exegesis_ok(s, j + 1, sys.exegesis@, k2) && sys.span
            == span_from(s, k, k2)
}

/// A `system` declaration at token `k` fails with `e`.
pub open spec fn system_fails(s: Seq<char>, k: nat, e: ParseError) -> bool {
    ident_fails(s, k + 1, e) || (tk(s, k + 1) == TokenKind::Identifier && (expect_fails(
        s,
        k + 2,
        TokenKind::At,
        e,
    ) || (tk(s, k + 2) == TokenKind::At && (version_fails(s, k + 3, e) || (tk(
        s,
        k + 3,
    ) == TokenKind::Version && (expect_fails(s, k + 4, TokenKind::LeftBrace, e) || (tk(s, k + 4)
        == TokenKind::LeftBrace && ((exists|n: nat| #[trigger] system_items_fail(s, k + 5, e, n)) || exists|
        reqs: Seq<Requirement>,
        ss: Seq<Statement>,
        j: nat,
        n: nat,
    |
        #[trigger] system_items_ok(s, k + 5, reqs, ss, j, n) && (expect_fails(s, j, TokenKind::RightBrace, e)
            || (tk(s, j) == TokenKind::RightBrace && exegesis_fails(s, j + 1, e)))))))))))
}

/// The changes of an evolution body from token `k`, with the rationale
/// seen so far `why0`, give the additions, deprecations, removals and final
/// rationale, after `n` changes; the body ends before `k2`.
pub open spec fn evolution_items_ok(
    s: Seq<char>,
    k: nat,
    adds: Seq<Statement>,
    deps: Seq<Statement>,
    rems: Seq<Seq<char>>,
    why0: Option<Seq<char>>,
    why: Option<Seq<char>>,
    k2: nat,
    n: nat,
) -> bool
    decreases n,
{
    if n == 0 {
        adds.len() == 0 && deps.len() == 0 && rems.len() == 0 && why == why0 && k2 == k && (tk(
            s,
            k,
        ) == TokenKind::RightBrace || tk(s, k) == TokenKind::Eof)
    } else {
        let t = tk(s, k);
        if t == TokenKind::Adds {
            adds.len() > 0 && exists|k1: nat|
                #[trigger] statement_ok(s, k + 1, adds[0], k1) && evolution_items_ok(
                    s,
                    k1,
                    adds.drop_first(),
                    deps,
                    rems,
                    why0,
                    why,
                    k2,
                    (n - 1) as nat,
                )
        } else if t == TokenKind::Deprecates {
            deps.len() > 0 && exists|k1: nat|
                #[trigger] statement_ok(s, k + 1, deps[0], k1) && evolution_items_ok(
                    s,
                    k1,
                    adds,
                    deps.drop_first(),
                    rems,
                    why0,
                    why,
                    k2,
                    (n - 1) as nat,
                )
        } else if t == TokenKind::Removes {
            rems.len() > 0 && tk(s, k + 1) == TokenKind::Identifier && rems[0] == lx(s, k + 1)
                && evolution_items_ok(
                s,
                k + 2,
                adds,
                deps,
                rems.drop_first(),
                why0,
                why,
                k2,
                (n - 1) as nat,
            )
        } else if t == TokenKind::Because {
            tk(s, k + 1) == TokenKind::String && evolution_items_ok(
                s,
                k + 2,
                adds,
                deps,
                rems,
                Some(lx(s, k + 1)),
                why,
                k2,
                (n - 1) as nat,
            )
        } else {
            false
        }
    }
}

/// The token kind opens a change in an evolution body.
pub open spec fn is_change_keyword(t: TokenKind) -> bool {
    t == TokenKind::Adds || t == TokenKind::Deprecates || t == TokenKind::Removes || t
        == TokenKind::Because
}

/// The changes of an evolution body from token `k` fail with `e` after
/// `n` changes.
pub open spec fn evolution_items_fail(s: Seq<char>, k: nat, e: ParseError, n: nat) -> bool
    decreases n,
{
    let t = tk(s, k);
    t != TokenKind::RightBrace && t != TokenKind::Eof && if n == 0 {
        if t == TokenKind::Adds || t == TokenKind::Deprecates {
            statement_fails(s, k + 1, e)
        } else if t == TokenKind::Removes {
            ident_fails(s, k + 1, e)
        } else if t == TokenKind::Because {
            tk(s, k + 1) != TokenKind::String && is_unexpected(e, "string"@, s, k + 1)
        } else {
            is_unexpected(e, "adds, deprecates, removes, or because"@, s, k)
        }
    } else {
        exists|k1: nat| #[trigger] evolution_step(s, k, k1) && evolution_items_fail(s, k1, e, (n - 1) as nat)
    }
}

/// One change of an evolution body parses from token `k` and ends before
/// `k1`.
pub open spec fn evolution_step(s: Seq<char>, k: nat, k1: nat) -> bool {
    let t = tk(s, k);
    is_change_keyword(t) && k1 > k && if t == TokenKind::Adds || t == TokenKind::Deprecates {
        exists|st: Statement| #[trigger] statement_ok(s, k + 1, st, k1)
    } else {
        k1 == k + 2 && (if t == TokenKind::Removes {
            tk(s, k + 1) == TokenKind::Identifier
        } else {
            tk(s, k + 1) == TokenKind::String
        })
    }
}

/// The names in a list of removals.
pub open spec fn names_view(v: Seq<String>) -> Seq<Seq<char>> {
    v.map_values(|r: String| r@)
}

/// The view of an optional string.
pub open spec fn opt_view(o: Option<String>) -> Option<Seq<char>> {
    match o {
        Some(w) => Some(w@),
        None => None,
    }
}

/// An `evolves` declaration at token `k`.
pub open spec fn evolution_ok(s: Seq<char>, k: nat, d: Declaration, k2: nat) -> bool {
    d matches Declaration::Evolution(ev) && tk(s, k + 1) == TokenKind::Identifier && ev.name@
        == lx(s, k + 1) && tk(s, k + 2) == TokenKind::At && tk(s, k + 3) == TokenKind::Version
        && ev.version@ == lx(s, k + 3) && tk(s, k + 4) == TokenKind::Greater && tk(s, k + 5)
        == TokenKind::Version && ev.parent_version@ == lx(s, k + 5) && tk(s, k + 6)
        == TokenKind::LeftBrace && exists|j: nat, n: nat|
        #[trigger] evolution_items_ok(
            s,
            k + 7,
            ev.additions@,
            ev.deprecations@,
            names_view(ev.removals@),
            None,
            opt_view(ev.rationale),
            j,
            n,
        ) && tk(s, j) == TokenKind::RightBrace && exegesis_ok(s, j + 1, ev.exegesis@, k2)
            && ev.span == span_from(s, k, k2)
}

/// Token `k` is not a version, and `e` says so.
pub open spec fn version_fails(s: Seq<char>, k: nat, e: ParseError) -> bool {
    tk(s, k) != TokenKind::Version && is_unexpected(e, "version number"@, s, k)
}

/// An `evolves` declaration at token `k` fails with `e`.
pub open spec fn evolution_fails(s: Seq<char>, k: nat, e: ParseError) -> bool {
    ident_fails(s, k + 1, e) || (tk(s, k + 1) == TokenKind::Identifier && (expect_fails(
        s,
        k + 2,
        TokenKind::At,
        e,
    ) || (tk(s, k + 2) == TokenKind::At && (version_fails(s, k + 3, e) || (tk(s, k + 3)
        == TokenKind::Version && (expect_fails(s, k + 4, TokenKind::Greater, e) || (tk(s, k + 4)
        == TokenKind::Greater && (version_fails(s, k + 5, e) || (tk(s, k + 5) == TokenKind::Version
        && (expect_fails(s, k + 6, TokenKind::LeftBrace, e) || (tk(s, k + 6)
        == TokenKind::LeftBrace && ((exists|n: nat| #[trigger] evolution_items_fail(s, k + 7, e, n)) || exists|
        adds: Seq<Statement>,
        deps: Seq<Statement>,
        rems: Seq<Seq<char>>,
        why: Option<Seq<char>>,
        j: nat,
        n: nat,
    |
        #[trigger] evolution_items_ok(s, k + 7, adds, deps, rems, None, why, j, n) && (expect_fails(
            s,
            j,
            TokenKind::RightBrace,
            e,
        ) || (tk(s, j) == TokenKind::RightBrace && exegesis_fails(s, j + 1, e)))))))))))))))
}

// ---------------------------------------------------------------------------
// The parser
// ---------------------------------------------------------------------------

/// The parser for Metal DOL source text.
///
/// It keeps the current token and the one before it, and at most one token
/// of lookahead; its ghost index says which token of the stream is current.
pub struct Parser {
    lexer: Lexer,
    source: Vec<char>,
    current: Token,
    previous: Token,
    peeked: Option<Token>,
    index: Ghost<nat>,
}

impl Parser {
    /// The characters of the source.
    pub closed spec fn src(&self) -> Seq<char> {
        self.source@
    }

    /// The index of the current token in the token stream.
    pub closed spec fn k(&self) -> nat {
        self.index@
    }

    /// The parser's state agrees with the token stream of its source.
    pub closed spec fn wf(&self) -> bool {
        let s = self.source@;
        let k = self.index@;
        &&& self.lexer.wf()
        &&& self.lexer.source() == s
        &&& tok_is(self.current, s, k)
        &&& k >= 1 ==> tok_is(self.previous, s, (k - 1) as nat)
        &&& match self.peeked {
            None => self.lexer.cursor() == cursor_at(s, k + 1),
            Some(t) => tok_is(t, s, k + 1) && self.lexer.cursor() == cursor_at(s, k + 2),
        }
    }

    /// Creates a new parser for the given source text.
    pub fn new(source: &str) -> (r: Parser)
        ensures
            r.wf(),
            r.src() == source@,
            r.k() == 0,
    {
        let mut lexer = Lexer::new(source);
        let current = lexer.next_token();
        let previous = Token::new(TokenKind::Eof, String::new(), Span::new(0, 0, 0, 0));
        let chars = chars_of(source);
        proof {
            let s = source@;
            assert(cursor_at(s, 0) == 0);
            assert(cursor_at(s, 1) == Lexer::spec_next(s, 0).3);
        }
        Parser {
            lexer,
            source: chars,
            current,
            previous,
            peeked: None,
            index: Ghost(0),
        }
    }

    /// Advances to the next token.
    pub(crate) fn advance(&mut self)
        requires
            old(self).wf(),
        ensures
            final(self).wf(),
            final(self).src() == old(self).src(),
            final(self).k() == old(self).k() + 1,
    {
        let mut next = match self.peeked.take() {
            Some(t) => t,
            None => self.lexer.next_token(),
        };
        std::mem::swap(&mut self.current, &mut next);
        self.previous = next;
        self.index = Ghost(self.index@ + 1);
    }

    /// Peeks at the kind of the token after the current one.
    fn peek(&mut self) -> (r: TokenKind)
        requires
            old(self).wf(),
        ensures
            final(self).wf(),
            final(self).src() == old(self).src(),
            final(self).k() == old(self).k(),
            r == tk(old(self).src(), old(self).k() + 1),
    {
        if self.peeked.is_none() {
            let t = self.lexer.next_token();
            self.peeked = Some(t);
        }
        match &self.peeked {
            Some(t) => t.kind,
            None => TokenKind::Eof,
        }
    }

    /// The error for an unexpected current token.
    fn unexpected(&self, expected: &str) -> (e: ParseError)
        requires
            self.wf(),
        ensures
            is_unexpected(e, expected@, self.src(), self.k()),
    {
        let mut found = owned("'");
        found.append(self.current.lexeme.as_str());
        found.append("'");
        ParseError::UnexpectedToken { expected: owned(expected), found, span: self.current.span }
    }

    /// Expects the current token to be of a given kind.
    fn expect(&mut self, kind: TokenKind) -> (r: Result<(), ParseError>)
        requires
            old(self).wf(),
        ensures
            final(self).wf(),
            final(self).src() == old(self).src(),
            match r {
                Ok(()) => tk(old(self).src(), old(self).k()) == kind && final(self).k() == old(
                    self,
                ).k() + 1,
                Err(e) => expect_fails(old(self).src(), old(self).k(), kind, e),
            },
    {
        if self.current.kind == kind {
            self.advance();
            Ok(())
        } else {
            Err(self.unexpected(kind.describe()))
        }
    }

    /// Expects an identifier and returns it.
    fn expect_identifier(&mut self) -> (r: Result<String, ParseError>)
        requires
            old(self).wf(),
        ensures
            final(self).wf(),
            final(self).src() == old(self).src(),
            match r {
                Ok(name) => tk(old(self).src(), old(self).k()) == TokenKind::Identifier && name@
                    == lx(old(self).src(), old(self).k()) && final(self).k() == old(self).k() + 1,
                Err(e) => ident_fails(old(self).src(), old(self).k(), e),
            },
    {
        if self.current.kind == TokenKind::Identifier {
            let lexeme = self.current.lexeme.clone();
            self.advance();
            Ok(lexeme)
        } else {
            Err(self.unexpected("identifier"))
        }
    }

    /// Expects a version and returns it.
    fn expect_version(&mut self) -> (r: Result<String, ParseError>)
        requires
            old(self).wf(),
        ensures
            final(self).wf(),
            final(self).src() == old(self).src(),
            match r {
                Ok(v) => tk(old(self).src(), old(self).k()) == TokenKind::Version && v@ == lx(
                    old(self).src(),
                    old(self).k(),
                ) && final(self).k() == old(self).k() + 1,
                Err(e) => version_fails(old(self).src(), old(self).k(), e),
            },
    {
        if self.current.kind == TokenKind::Version {
            let lexeme = self.current.lexeme.clone();
            self.advance();
            Ok(lexeme)
        } else {
            Err(self.unexpected("version number"))
        }
    }

    /// Expects a string and returns it.
    fn expect_string(&mut self) -> (r: Result<String, ParseError>)
        requires
            old(self).wf(),
        ensures
            final(self).wf(),
            final(self).src() == old(self).src(),
            match r {
                Ok(v) => tk(old(self).src(), old(self).k()) == TokenKind::String && v@ == lx(
                    old(self).src(),
                    old(self).k(),
                ) && final(self).k() == old(self).k() + 1,
                Err(e) => tk(old(self).src(), old(self).k()) != TokenKind::String && is_unexpected(
                    e,
                    "string"@,
                    old(self).src(),
                    old(self).k(),
                ),
            },
    {
        if self.current.kind == TokenKind::String {
            let lexeme = self.current.lexeme.clone();
            self.advance();
            Ok(lexeme)
        } else {
            Err(self.unexpected("string"))
        }
    }
}

impl Parser {
    /// The length of the source, in characters.
    pub(crate) fn src_len(&self) -> (r: usize)
        ensures
            r == self.src().len(),
    {
        self.source.len()
    }

    /// The kind of the current token.
    pub(crate) fn current_kind(&self) -> (r: TokenKind)
        requires
            self.wf(),
        ensures
            r == tk(self.src(), self.k()),
    {
        self.current.kind
    }

    /// The text of the current token.
    pub(crate) fn current_lexeme(&self) -> (r: &String)
        requires
            self.wf(),
        ensures
            r@ == lx(self.src(), self.k()),
    {
        &self.current.lexeme
    }

    /// The span of the current token.
    pub(crate) fn current_span(&self) -> (r: Span)
        requires
            self.wf(),
        ensures
            r == sp(self.src(), self.k()),
    {
        self.current.span
    }

    /// The span of the token before the current one.
    pub(crate) fn previous_span(&self) -> (r: Span)
        requires
            self.wf(),
            self.k() >= 1,
        ensures
            r == sp(self.src(), (self.k() - 1) as nat),
    {
        self.previous.span
    }
}

impl Parser {
    /// Parses a phrase: one or more words, stopping before a word that is
    /// followed by a predicate (that word starts the next statement).
    fn parse_phrase(&mut self) -> (r: Result<String, ParseError>)
        requires
            old(self).wf(),
        ensures
            final(self).wf(),
            final(self).src() == old(self).src(),
            match r {
                Ok(p) => phrase_ok(old(self).src(), old(self).k(), p@, final(self).k()),
                Err(e) => phrase_fails(old(self).src(), old(self).k(), e),
            },
    {
        let ghost s = self.src();
        let ghost k0 = self.k();
        if self.current.kind != TokenKind::Identifier && self.current.kind != TokenKind::No {
            return Err(self.unexpected("identifier"));
        }
        let mut phrase = self.current.lexeme.clone();
        self.advance();
        loop
            invariant
                self.wf(),
                self.src() == s,
                self.k() > k0,
                phrase_word(tk(s, k0)),
                forall|res: Seq<char>, j2: nat|
                    #[trigger] phrase_tail(s, self.k(), phrase@, res, j2) ==> phrase_tail(
                        s,
                        k0 + 1,
                        lx(s, k0),
                        res,
                        j2,
                    ),
            ensures
                self.wf(),
                self.src() == s,
                phrase_tail(s, k0 + 1, lx(s, k0), phrase@, self.k()),
            decreases s.len() - cursor_at(s, self.k()),
        {
            let ghost k = self.k();
            if self.current.kind != TokenKind::Identifier && self.current.kind != TokenKind::No {
                assert(phrase_tail(s, k, phrase@, phrase@, k));
                break;
            }
            let next_kind = self.peek();
            if next_kind.is_predicate() {
                assert(phrase_tail(s, k, phrase@, phrase@, k));
                break;
            }
            let ghost before = phrase@;
            push_char(&mut phrase, ' ');
            phrase.append(self.current.lexeme.as_str());
            self.advance();
            proof {
                lemma_progress(s, k, k + 1);
                assert(phrase@ =~= before + seq![' '] + lx(s, k));
                assert forall|res: Seq<char>, j2: nat|
                    #[trigger] phrase_tail(s, k + 1, phrase@, res, j2) implies phrase_tail(
                        s,
                        k0 + 1,
                        lx(s, k0),
                        res,
                        j2,
                    ) by {
                    assert(phrase_tail(s, k, before, res, j2));
                }
            }
        }
        Ok(phrase)
    }

    /// Parses the phrase of a quantified statement: words and predicates up
    /// to the end of the statement.
    fn parse_quantified_phrase(&mut self) -> (r: Result<String, ParseError>)
        requires
            old(self).wf(),
        ensures
            final(self).wf(),
            final(self).src() == old(self).src(),
            match r {
                Ok(p) => tk(old(self).src(), old(self).k()) == TokenKind::Identifier
                    && qphrase_tail(
                    old(self).src(),
                    old(self).k() + 1,
                    lx(old(self).src(), old(self).k()),
                    p@,
                    final(self).k(),
                ),
                Err(e) => ident_fails(old(self).src(), old(self).k(), e),
            },
    {
        let ghost s = self.src();
        let ghost k0 = self.k();
        if self.current.kind != TokenKind::Identifier {
            return Err(self.unexpected("identifier"));
        }
        let mut phrase = self.current.lexeme.clone();
        self.advance();
        loop
            invariant
                self.wf(),
                self.src() == s,
                self.k() > k0,
                forall|res: Seq<char>, j2: nat|
                    #[trigger] qphrase_tail(s, self.k(), phrase@, res, j2) ==> qphrase_tail(
                        s,
                        k0 + 1,
                        lx(s, k0),
                        res,
                        j2,
                    ),
            ensures
                self.wf(),
                self.src() == s,
                qphrase_tail(s, k0 + 1, lx(s, k0), phrase@, self.k()),
            decreases s.len() - cursor_at(s, self.k()),
        {
            let ghost k = self.k();
            let continues = match self.current.kind {
                TokenKind::Identifier | TokenKind::Has | TokenKind::Is | TokenKind::Emits
                | TokenKind::Matches | TokenKind::Never | TokenKind::Requires | TokenKind::Derives
                | TokenKind::From => true,
                _ => false,
            };
            if !continues {
                assert(qphrase_tail(s, k, phrase@, phrase@, k));
                break;
            }
            let ghost before = phrase@;
            push_char(&mut phrase, ' ');
            phrase.append(self.current.lexeme.as_str());
            self.advance();
            proof {
                lemma_progress(s, k, k + 1);
                assert(phrase@ =~= before + seq![' '] + lx(s, k));
                assert forall|res: Seq<char>, j2: nat|
                    #[trigger] qphrase_tail(s, k + 1, phrase@, res, j2) implies qphrase_tail(
                        s,
                        k0 + 1,
                        lx(s, k0),
                        res,
                        j2,
                    ) by {
                    assert(qphrase_tail(s, k, before, res, j2));
                }
            }
        }
        Ok(phrase)
    }
}

impl Parser {
    /// Parses the predicate at the current token and its object, for a
    /// statement that began at token `ks` (whose span is `start_span`) and
    /// whose subject is `subject`.
    #[verifier::rlimit(40)]
    #[verifier::spinoff_prover]
    fn parse_predicate(
        &mut self,
        subject: String,
        start_span: Span,
        allow_derives: bool,
        Ghost(ks): Ghost<nat>,
    ) -> (r: Result<Statement, ParseError>)
        requires
            old(self).wf(),
            ks < old(self).k(),
            start_span == sp(old(self).src(), ks),
            is_phrase_predicate(tk(old(self).src(), old(self).k())) || (allow_derives && tk(
                old(self).src(),
                old(self).k(),
            ) == TokenKind::Derives),
        ensures
            final(self).wf(),
            final(self).src() == old(self).src(),
            match r {
                Ok(st) => predicate_ok(
                    old(self).src(),
                    ks,
                    subject@,
                    old(self).k(),
                    st,
                    final(self).k(),
                    allow_derives,
                ) && final(self).k() > old(self).k(),
                Err(e) => predicate_fails(old(self).src(), old(self).k(), e, allow_derives),
            },
    {
        let ghost s = self.src();
        let ghost j = self.k();
        match self.current.kind {
            TokenKind::Has => {
                self.advance();
                let property = self.expect_identifier()?;
                Ok(Statement::Has { subject, property, span: start_span.merge(&self.previous.span) })
            },
            TokenKind::Is => {
                self.advance();
                let state = self.expect_identifier()?;
                Ok(Statement::Is { subject, state, span: start_span.merge(&self.previous.span) })
            },
            TokenKind::Derives => {
                self.advance();
                self.expect(TokenKind::From)?;
                let origin = self.parse_phrase()?;
                Ok(
                    Statement::DerivesFrom {
                        subject,
                        origin,
                        span: start_span.merge(&self.previous.span),
                    },
                )
            },
            TokenKind::Requires => {
                self.advance();
                let requirement = self.parse_phrase()?;
                Ok(
                    Statement::Requires {
                        subject,
                        requirement,
                        span: start_span.merge(&self.previous.span),
                    },
                )
            },
            TokenKind::Emits => {
                self.advance();
                let event = self.expect_identifier()?;
                Ok(
                    Statement::Emits {
                        action: subject,
                        event,
                        span: start_span.merge(&self.previous.span),
                    },
                )
            },
            TokenKind::Matches => {
                self.advance();
                let target = self.parse_phrase()?;
                Ok(
                    Statement::Matches {
                        subject,
                        target,
                        span: start_span.merge(&self.previous.span),
                    },
                )
            },
            _ => {
                self.advance();
                let action = self.expect_identifier()?;
                Ok(Statement::Never { subject, action, span: start_span.merge(&self.previous.span) })
            },
        }
    }

    /// Parses a single statement.
    fn parse_statement(&mut self) -> (r: Result<Statement, ParseError>)
        requires
            old(self).wf(),
        ensures
            final(self).wf(),
            final(self).src() == old(self).src(),
            match r {
                Ok(st) => statement_ok(old(self).src(), old(self).k(), st, final(self).k())
                    && final(self).k() > old(self).k(),
                Err(e) => statement_fails(old(self).src(), old(self).k(), e),
            },
    {
        let ghost s = self.src();
        let ghost k0 = self.k();
        proof {
            reveal(statement_ok);
            reveal(statement_fails);
        }
        let start_span = self.current.span;
        if self.current.kind == TokenKind::Uses {
            self.advance();
            let reference = self.expect_identifier()?;
            return Ok(Statement::Uses { reference, span: start_span.merge(&self.previous.span) });
        }
        if self.current.kind == TokenKind::Each || self.current.kind == TokenKind::All {
            let quantifier = if self.current.kind == TokenKind::Each {
                Quantifier::Each
            } else {
                Quantifier::All
            };
            self.advance();
            let phrase = self.parse_quantified_phrase()?;
            proof {
                lemma_qphrase_tail_len(s, k0 + 2, lx(s, k0 + 1), phrase@, self.k());
            }
            return Ok(
                Statement::Quantified {
                    quantifier,
                    phrase,
                    span: start_span.merge(&self.previous.span),
                },
            );
        }
        let subject = self.expect_identifier()?;
        let is_single = match self.current.kind {
            TokenKind::Has | TokenKind::Is | TokenKind::Derives | TokenKind::Requires
            | TokenKind::Emits | TokenKind::Matches | TokenKind::Never => true,
            _ => false,
        };
        if is_single {
            return self.parse_predicate(subject, start_span, true, Ghost(k0));
        }
        if self.current.kind != TokenKind::Identifier {
            return Err(self.unexpected("predicate (has, is, derives, requires, etc.)"));
        }
        let mut phrase = subject;
        loop
            invariant
                self.wf(),
                self.src() == s,
                self.k() > k0,
                tk(s, k0) == TokenKind::Identifier,
                tk(s, k0 + 1) == TokenKind::Identifier,
                !is_statement_predicate(tk(s, k0 + 1)),
                start_span == sp(s, k0),
                forall|res: Seq<char>, j2: nat|
                    #[trigger] ident_tail(s, self.k(), phrase@, res, j2) ==> ident_tail(
                        s,
                        k0 + 1,
                        lx(s, k0),
                        res,
                        j2,
                    ),
            ensures
                self.wf(),
                self.src() == s,
                self.k() > k0,
                ident_tail(s, k0 + 1, lx(s, k0), phrase@, self.k()),
            decreases s.len() - cursor_at(s, self.k()),
        {
            let ghost k = self.k();
            if self.current.kind != TokenKind::Identifier {
                assert(ident_tail(s, k, phrase@, phrase@, k));
                break;
            }
            let ghost before = phrase@;
            push_char(&mut phrase, ' ');
            phrase.append(self.current.lexeme.as_str());
            self.advance();
            proof {
                lemma_progress(s, k, k + 1);
                assert(phrase@ =~= before + seq![' '] + lx(s, k));
                assert forall|res: Seq<char>, j2: nat|
                    #[trigger] ident_tail(s, k + 1, phrase@, res, j2) implies ident_tail(
                        s,
                        k0 + 1,
                        lx(s, k0),
                        res,
                        j2,
                    ) by {
                    assert(ident_tail(s, k, before, res, j2));
                }
            }
        }
        let ghost j = self.k();
        let ghost words = phrase@;
        let is_phrase_pred = match self.current.kind {
            TokenKind::Has | TokenKind::Is | TokenKind::Requires | TokenKind::Emits
            | TokenKind::Matches | TokenKind::Never => true,
            _ => false,
        };
        if is_phrase_pred {
            let r = self.parse_predicate(phrase, start_span, false, Ghost(k0));
            proof {
                assert(ident_tail(s, k0 + 1, lx(s, k0), words, j));
                if r is Ok {
                    assert(predicate_ok(s, k0, words, j, r->Ok_0, self.k(), false));
                }
            }
            r
        } else {
            let mut message = owned("expected predicate after '");
            message.append(phrase.as_str());
            message.append("'");
            let e = ParseError::InvalidStatement { message, span: self.current.span };
            proof {
                assert(e->message@ =~= "expected predicate after '"@ + words + "'"@);
                assert(ident_tail(s, k0 + 1, lx(s, k0), words, j));
            }
            Err(e)
        }
    }
}

/// A quantified phrase ends no earlier than where it starts.
proof fn lemma_qphrase_tail_len(s: Seq<char>, j: nat, acc: Seq<char>, res: Seq<char>, j2: nat)
    requires
        qphrase_tail(s, j, acc, res, j2),
    ensures
        j2 >= j,
{
}

impl Parser {
    /// Parses statements up to a closing brace or the end of input.
    fn parse_statements(&mut self) -> (r: Result<Vec<Statement>, ParseError>)
        requires
            old(self).wf(),
        ensures
            final(self).wf(),
            final(self).src() == old(self).src(),
            match r {
                Ok(v) => statements_ok(old(self).src(), old(self).k(), v@, final(self).k()),
                Err(e) => exists|n: nat| statements_fail(old(self).src(), old(self).k(), e, n),
            },
    {
        let ghost s = self.src();
        let ghost k0 = self.k();
        let mut statements: Vec<Statement> = Vec::new();
        while self.current.kind != TokenKind::RightBrace && self.current.kind != TokenKind::Eof
            invariant
                self.wf(),
                self.src() == s,
                s == old(self).src(),
                k0 == old(self).k(),
                forall|rest: Seq<Statement>, k2: nat|
                    #[trigger] statements_ok(s, self.k(), rest, k2) ==> statements_ok(
                        s,
                        k0,
                        statements@ + rest,
                        k2,
                    ),
                forall|e: ParseError, n: nat|
                    #[trigger] statements_fail(s, self.k(), e, n) ==> statements_fail(
                        s,
                        k0,
                        e,
                        n + statements@.len(),
                    ),
            decreases s.len() - cursor_at(s, self.k()),
        {
            let ghost k = self.k();
            let ghost before = statements@;
            match self.parse_statement() {
                Ok(st) => {
                    let ghost k1 = self.k();
                    statements.push(st);
                    proof {
                        lemma_progress(s, k, k1);
                        lemma_statements_extend(s, k0, k, k1, before, st);
                    }
                },
                Err(e) => {
                    proof {
                        assert(statements_fail(s, k, e, 0));
                    }
                    return Err(e);
                },
            }
        }
        proof {
            assert(statements_ok(s, self.k(), Seq::empty(), self.k()));
            assert(statements@ + Seq::<Statement>::empty() =~= statements@);
        }
        Ok(statements)
    }

    /// Parses a version requirement `requires name >= version`.
    fn parse_requirement(&mut self) -> (r: Result<Requirement, ParseError>)
        requires
            old(self).wf(),
            tk(old(self).src(), old(self).k()) == TokenKind::Requires,
        ensures
            final(self).wf(),
            final(self).src() == old(self).src(),
            match r {
                Ok(q) => requirement_ok(old(self).src(), old(self).k(), q, final(self).k()),
                Err(e) => requirement_fails(old(self).src(), old(self).k(), e),
            },
    {
        let start_span = self.current.span;
        self.advance();
        let name = self.expect_identifier()?;
        let kind = self.current.kind;
        if kind != TokenKind::GreaterEqual && kind != TokenKind::Greater && kind
            != TokenKind::Equal {
            return Err(self.unexpected("version constraint (>=, >, =)"));
        }
        let constraint = owned(kind.describe());
        self.advance();
        let version = self.expect_version()?;
        Ok(Requirement { name, constraint, version, span: start_span.merge(&self.previous.span) })
    }

    /// Parses the exegesis block: the raw text between its braces, trimmed.
    fn parse_exegesis(&mut self) -> (r: Result<String, ParseError>)
        requires
            old(self).wf(),
        ensures
            final(self).wf(),
            final(self).src() == old(self).src(),
            match r {
                Ok(text) => exegesis_ok(old(self).src(), old(self).k(), text@, final(self).k()),
                Err(e) => exegesis_fails(old(self).src(), old(self).k(), e),
            },
    {
        let ghost s = self.src();
        let ghost k0 = self.k();
        if self.current.kind != TokenKind::Exegesis {
            return Err(ParseError::MissingExegesis { span: self.current.span });
        }
        self.advance();
        self.expect(TokenKind::LeftBrace)?;
        let start_pos = self.current.span.start;
        // The character where the text begins
        let n = self.source.len();
        let mut c: usize = 0;
        let mut pos: usize = 0;
        while c < n && pos < start_pos
            invariant
                self.source@ == s,
                n == s.len(),
                c <= n,
                pos == crate::lexer::loc(s, c as nat).0,
                char_index_of_byte(s, start_pos, c as nat) == char_index_of_byte(s, start_pos, 0),
            decreases n - c,
        {
            let w = utf8_width(self.source[c]);
            pos = if pos > usize::MAX - w {
                usize::MAX
            } else {
                pos + w
            };
            c = c + 1;
        }
        // The text up to the brace that closes the block
        let mut content = String::new();
        let mut depth: u128 = 1;
        let mut i: usize = c;
        loop
            invariant
                self.source@ == s,
                n == s.len(),
                c <= i <= n,
                1 <= depth <= i - c + 1,
                content@ + exegesis_text(s, i as nat, depth as nat) == exegesis_text(
                    s,
                    c as nat,
                    1,
                ),
            ensures
                content@ == exegesis_text(s, c as nat, 1),
            decreases n - i,
        {
            if i >= n {
                assert(content@ + Seq::<char>::empty() =~= content@);
                break;
            }
            let ch = self.source[i];
            let ghost before = content@;
            if ch == '{' {
                depth = depth + 1;
            } else if ch == '}' {
                if depth <= 1 {
                    assert(content@ + Seq::<char>::empty() =~= content@);
                    break;
                }
                depth = depth - 1;
            }
            push_char(&mut content, ch);
            assert(before + exegesis_text(s, i as nat, if ch == '{' {
                (depth - 1) as nat
            } else if ch == '}' {
                (depth + 1) as nat
            } else {
                depth as nat
            }) =~= content@ + exegesis_text(s, (i + 1) as nat, depth as nat));
            i = i + 1;
        }
        let text = trim(content.as_str());
        // Move past the tokens of the block
        loop
            invariant
                self.wf(),
                self.src() == s,
                forall|j2: nat|
                    #[trigger] skip_to_brace(s, self.k(), j2) ==> skip_to_brace(s, k0 + 2, j2),
            ensures
                self.wf(),
                self.src() == s,
                skip_to_brace(s, k0 + 2, self.k()),
            decreases s.len() - cursor_at(s, self.k()),
        {
            let ghost k = self.k();
            if self.current.kind == TokenKind::RightBrace || self.current.kind == TokenKind::Eof {
                assert(skip_to_brace(s, k, k));
                break;
            }
            self.advance();
            proof {
                lemma_progress(s, k, k + 1);
                assert forall|j2: nat| #[trigger] skip_to_brace(s, k + 1, j2) implies skip_to_brace(
                    s,
                    k0 + 2,
                    j2,
                ) by {
                    assert(skip_to_brace(s, k, j2));
                }
            }
        }
        let ghost j = self.k();
        if self.current.kind == TokenKind::RightBrace {
            self.advance();
        }
        proof {
            assert(skip_to_brace(s, k0 + 2, j));
        }
        Ok(text)
    }
}

/// Extending a parsed prefix of a statement list by one statement keeps
/// what the prefix promises of every completion of the list.
proof fn lemma_statements_extend(
    s: Seq<char>,
    k0: nat,
    k: nat,
    k1: nat,
    before: Seq<Statement>,
    st: Statement,
)
    requires
        statement_ok(s, k, st, k1),
        tk(s, k) != TokenKind::RightBrace && tk(s, k) != TokenKind::Eof,
        forall|rest: Seq<Statement>, k2: nat|
            #[trigger] statements_ok(s, k, rest, k2) ==> statements_ok(s, k0, before + rest, k2),
        forall|e: ParseError, n: nat|
            #[trigger] statements_fail(s, k, e, n) ==> statements_fail(
                s,
                k0,
                e,
                n + before.len(),
            ),
    ensures
        forall|rest: Seq<Statement>, k2: nat|
            #[trigger] statements_ok(s, k1, rest, k2) ==> statements_ok(
                s,
                k0,
                before.push(st) + rest,
                k2,
            ),
        forall|e: ParseError, n: nat|
            #[trigger] statements_fail(s, k1, e, n) ==> statements_fail(
                s,
                k0,
                e,
                n + before.len() + 1,
            ),
{
    assert forall|rest: Seq<Statement>, k2: nat|
        #[trigger] statements_ok(s, k1, rest, k2) implies statements_ok(
            s,
            k0,
            before.push(st) + rest,
            k2,
        ) by {
        let all = seq![st] + rest;
        assert(all[0] == st);
        assert(all.drop_first() =~= rest);
        assert(statements_ok(s, k, all, k2));
        assert(before + all =~= before.push(st) + rest);
    }
    assert forall|e: ParseError, n: nat|
        #[trigger] statements_fail(s, k1, e, n) implies statements_fail(
            s,
            k0,
            e,
            n + before.len() + 1,
        ) by {
        assert(statements_fail(s, k, e, n + 1));
    }
}

impl Parser {
    /// Parses a `gene`, `trait` or `constraint` block introduced by `kw`:
    /// its name, statements, exegesis and span.
    fn parse_block(&mut self, kw: TokenKind) -> (r: Result<
        (String, Vec<Statement>, String, Span),
        ParseError,
    >)
        requires
            old(self).wf(),
            tk(old(self).src(), old(self).k()) == kw,
        ensures
            final(self).wf(),
            final(self).src() == old(self).src(),
            match r {
                Ok((name, ss, ex, span)) => block_ok(
                    old(self).src(),
                    old(self).k(),
                    kw,
                    name@,
                    ss@,
                    ex@,
                    span,
                    final(self).k(),
                ),
                Err(e) => block_fails(old(self).src(), old(self).k(), e),
            },
    {
        let ghost s = self.src();
        let ghost k0 = self.k();
        let start_span = self.current.span;
        self.expect(kw)?;
        let name = self.expect_identifier()?;
        self.expect(TokenKind::LeftBrace)?;
        let ghost k3 = self.k();
        let statements = match self.parse_statements() {
            Ok(v) => v,
            Err(e) => {
                proof {
                    let n = choose|n: nat| statements_fail(s, k3, e, n);
                    assert(statements_fail(s, k0 + 3, e, n));
                }
                return Err(e);
            },
        };
        let ghost j = self.k();
        if let Err(e) = self.expect(TokenKind::RightBrace) {
            assert(statements_ok(s, k0 + 3, statements@, j));
            return Err(e);
        }
        let exegesis = match self.parse_exegesis() {
            Ok(x) => x,
            Err(e) => {
                assert(statements_ok(s, k0 + 3, statements@, j));
                return Err(e);
            },
        };
        let span = start_span.merge(&self.previous.span);
        assert(statements_ok(s, k0 + 3, statements@, j));
        Ok((name, statements, exegesis, span))
    }

    /// Parses a gene declaration.
    fn parse_gene(&mut self) -> (r: Result<Declaration, ParseError>)
        requires
            old(self).wf(),
            tk(old(self).src(), old(self).k()) == TokenKind::Gene,
        ensures
            final(self).wf(),
            final(self).src() == old(self).src(),
            match r {
                Ok(d) => d is Gene && declaration_ok(old(self).src(), old(self).k(), d, final(self).k()),
                Err(e) => block_fails(old(self).src(), old(self).k(), e),
            },
    {
        let (name, statements, exegesis, span) = self.parse_block(TokenKind::Gene)?;
        Ok(Declaration::Gene(Gene { name, statements, exegesis, span }))
    }

    /// Parses a trait declaration.
    fn parse_trait(&mut self) -> (r: Result<Declaration, ParseError>)
        requires
            old(self).wf(),
            tk(old(self).src(), old(self).k()) == TokenKind::Trait,
        ensures
            final(self).wf(),
            final(self).src() == old(self).src(),
            match r {
                Ok(d) => d is Trait && declaration_ok(old(self).src(), old(self).k(), d, final(self).k()),
                Err(e) => block_fails(old(self).src(), old(self).k(), e),
            },
    {
        let (name, statements, exegesis, span) = self.parse_block(TokenKind::Trait)?;
        Ok(Declaration::Trait(Trait { name, statements, exegesis, span }))
    }

    /// Parses a constraint declaration.
    fn parse_constraint(&mut self) -> (r: Result<Declaration, ParseError>)
        requires
            old(self).wf(),
            tk(old(self).src(), old(self).k()) == TokenKind::Constraint,
        ensures
            final(self).wf(),
            final(self).src() == old(self).src(),
            match r {
                Ok(d) => d is Constraint && declaration_ok(
                    old(self).src(),
                    old(self).k(),
                    d,
                    final(self).k(),
                ),
                Err(e) => block_fails(old(self).src(), old(self).k(), e),
            },
    {
        let (name, statements, exegesis, span) = self.parse_block(TokenKind::Constraint)?;
        Ok(Declaration::Constraint(Constraint { name, statements, exegesis, span }))
    }
}

/// What a parsed prefix of a system body (`reqs`, `ss`, after `cnt` items,
/// standing at token `k`) promises: every way the body goes on from `k`
/// completes the body that began at `k5`.
pub open spec fn system_prefix(
    s: Seq<char>,
    k5: nat,
    k: nat,
    reqs: Seq<Requirement>,
    ss: Seq<Statement>,
    cnt: nat,
) -> bool {
    &&& forall|reqs2: Seq<Requirement>, ss2: Seq<Statement>, k2: nat, n2: nat|
        #[trigger] system_items_ok(s, k, reqs2, ss2, k2, n2) ==> system_items_ok(
            s,
            k5,
            reqs + reqs2,
            ss + ss2,
            k2,
            n2 + cnt,
        )
    &&& forall|e: ParseError, n: nat|
        #[trigger] system_items_fail(s, k, e, n) ==> system_items_fail(s, k5, e, n + cnt)
}

/// A requirement extends a parsed prefix of a system body.
proof fn lemma_system_requirement(
    s: Seq<char>,
    k5: nat,
    k: nat,
    k1: nat,
    reqs: Seq<Requirement>,
    ss: Seq<Statement>,
    cnt: nat,
    r: Requirement,
)
    requires
        system_prefix(s, k5, k, reqs, ss, cnt),
        requirement_ok(s, k, r, k1),
    ensures
        system_prefix(s, k5, k1, reqs.push(r), ss, cnt + 1),
{
    assert forall|reqs2: Seq<Requirement>, ss2: Seq<Statement>, k2: nat, n2: nat|
        #[trigger] system_items_ok(s, k1, reqs2, ss2, k2, n2) implies system_items_ok(
            s,
            k5,
            reqs.push(r) + reqs2,
            ss + ss2,
            k2,
            n2 + cnt + 1,
        ) by {
        let all = seq![r] + reqs2;
        assert(all[0] == r);
        assert(all.drop_first() =~= reqs2);
        assert(system_items_ok(s, k, all, ss2, k2, n2 + 1));
        assert(reqs + all =~= reqs.push(r) + reqs2);
    }
    assert forall|e: ParseError, n: nat|
        #[trigger] system_items_fail(s, k1, e, n) implies system_items_fail(
            s,
            k5,
            e,
            n + cnt + 1,
        ) by {
        assert(requirement_ok(s, k, r, k1));
        assert(system_item_step(s, k, k1));
        assert(system_items_fail(s, k, e, n + 1));
    }
}

/// A statement extends a parsed prefix of a system body.
proof fn lemma_system_statement(
    s: Seq<char>,
    k5: nat,
    k: nat,
    k1: nat,
    reqs: Seq<Requirement>,
    ss: Seq<Statement>,
    cnt: nat,
    st: Statement,
)
    requires
        system_prefix(s, k5, k, reqs, ss, cnt),
        statement_ok(s, k, st, k1),
        k1 > k,
        tk(s, k) != TokenKind::Requires,
        tk(s, k) != TokenKind::RightBrace,
        tk(s, k) != TokenKind::Eof,
    ensures
        system_prefix(s, k5, k1, reqs, ss.push(st), cnt + 1),
{
    assert forall|reqs2: Seq<Requirement>, ss2: Seq<Statement>, k2: nat, n2: nat|
        #[trigger] system_items_ok(s, k1, reqs2, ss2, k2, n2) implies system_items_ok(
            s,
            k5,
            reqs + reqs2,
            ss.push(st) + ss2,
            k2,
            n2 + cnt + 1,
        ) by {
        let all = seq![st] + ss2;
        assert(all[0] == st);
        assert(all.drop_first() =~= ss2);
        assert(system_items_ok(s, k, reqs2, all, k2, n2 + 1));
        assert(ss + all =~= ss.push(st) + ss2);
    }
    assert forall|e: ParseError, n: nat|
        #[trigger] system_items_fail(s, k1, e, n) implies system_items_fail(
            s,
            k5,
            e,
            n + cnt + 1,
        ) by {
        assert(statement_ok(s, k, st, k1));
        assert(system_item_step(s, k, k1));
        assert(system_items_fail(s, k, e, n + 1));
    }
}

impl Parser {
    /// Parses a system declaration.
    #[verifier::rlimit(40)]
    #[verifier::spinoff_prover]
    fn parse_system(&mut self) -> (r: Result<Declaration, ParseError>)
        requires
            old(self).wf(),
            tk(old(self).src(), old(self).k()) == TokenKind::System,
        ensures
            final(self).wf(),
            final(self).src() == old(self).src(),
            match r {
                Ok(d) => d is System && declaration_ok(old(self).src(), old(self).k(), d, final(self).k()),
                Err(e) => system_fails(old(self).src(), old(self).k(), e),
            },
    {
        let ghost s = self.src();
        let ghost k0 = self.k();
        let start_span = self.current.span;
        self.expect(TokenKind::System)?;
        let name = self.expect_identifier()?;
        self.expect(TokenKind::At)?;
        let version = self.expect_version()?;
        self.expect(TokenKind::LeftBrace)?;
        let ghost k5 = self.k();
        let mut requirements: Vec<Requirement> = Vec::new();
        let mut statements: Vec<Statement> = Vec::new();
        let ghost mut cnt: nat = 0;
        proof {
            assert(requirements@ + Seq::<Requirement>::empty() =~= requirements@);
            assert forall|reqs2: Seq<Requirement>, ss2: Seq<Statement>, k2: nat, n2: nat|
                #[trigger] system_items_ok(s, k5, reqs2, ss2, k2, n2) implies system_items_ok(
                    s,
                    k5,
                    requirements@ + reqs2,
                    statements@ + ss2,
                    k2,
                    n2 + cnt,
                ) by {
                assert(requirements@ + reqs2 =~= reqs2);
                assert(statements@ + ss2 =~= ss2);
            }
        }
        while self.current.kind != TokenKind::RightBrace && self.current.kind != TokenKind::Eof
            invariant
                self.wf(),
                self.src() == s,
                s == old(self).src(),
                k0 == old(self).k(),
                k5 == k0 + 5,
                tk(s, k0) == TokenKind::System,
                tk(s, k0 + 1) == TokenKind::Identifier && name@ == lx(s, k0 + 1),
                tk(s, k0 + 2) == TokenKind::At,
                tk(s, k0 + 3) == TokenKind::Version && version@ == lx(s, k0 + 3),
                tk(s, k0 + 4) == TokenKind::LeftBrace,
                start_span == sp(s, k0),
                system_prefix(s, k5, self.k(), requirements@, statements@, cnt),
            decreases s.len() - cursor_at(s, self.k()),
        {
            let ghost k = self.k();
            if self.current.kind == TokenKind::Requires {
                let ghost before = requirements@;
                match self.parse_requirement() {
                    Ok(q) => {
                        requirements.push(q);
                        proof {
                            lemma_progress(s, k, self.k());
                            lemma_system_requirement(s, k5, k, self.k(), before, statements@, cnt, q);
                            cnt = cnt + 1;
                        }
                    },
                    Err(e) => {
                        proof {
                            assert(system_items_fail(s, k, e, 0));
                            assert(system_items_fail(s, k5, e, cnt));
                        }
                        return Err(e);
                    },
                }
            } else {
                let ghost before = statements@;
                match self.parse_statement() {
                    Ok(st) => {
                        statements.push(st);
                        proof {
                            lemma_progress(s, k, self.k());
                            lemma_system_statement(s, k5, k, self.k(), requirements@, before, cnt, st);
                            cnt = cnt + 1;
                        }
                    },
                    Err(e) => {
                        proof {
                            assert(system_items_fail(s, k, e, 0));
                            assert(system_items_fail(s, k5, e, cnt));
                        }
                        return Err(e);
                    },
                }
            }
        }
        let ghost j = self.k();
        proof {
            assert(system_items_ok(s, j, Seq::empty(), Seq::empty(), j, 0));
            assert(requirements@ + Seq::<Requirement>::empty() =~= requirements@);
            assert(statements@ + Seq::<Statement>::empty() =~= statements@);
            assert(system_items_ok(s, k5, requirements@, statements@, j, cnt));
        }
        if let Err(e) = self.expect(TokenKind::RightBrace) {
            return Err(e);
        }
        let exegesis = match self.parse_exegesis() {
            Ok(x) => x,
            Err(e) => {
                return Err(e);
            },
        };
        let span = start_span.merge(&self.previous.span);
        let sys = System { name, version, requirements, statements, exegesis, span };
        proof {
            let k2 = self.k();
            assert(system_items_ok(s, k0 + 5, sys.requirements@, sys.statements@, j, cnt));
            assert(tk(s, j) == TokenKind::RightBrace);
            assert(exegesis_ok(s, j + 1, sys.exegesis@, k2));
            assert(sys.span == span_from(s, k0, k2));
            assert(system_parse_ok(s, k0, sys, k2));
        }
        Ok(Declaration::System(sys))
    }
}

/// What a parsed prefix of an evolution body promises: every way the body
/// goes on from token `k` (with rationale `why0` so far) completes the body
/// that began at `k7`.
pub open spec fn evolution_prefix(
    s: Seq<char>,
    k7: nat,
    k: nat,
    adds: Seq<Statement>,
    deps: Seq<Statement>,
    rems: Seq<Seq<char>>,
    why0: Option<Seq<char>>,
    cnt: nat,
) -> bool {
    &&& forall|
        adds2: Seq<Statement>,
        deps2: Seq<Statement>,
        rems2: Seq<Seq<char>>,
        why: Option<Seq<char>>,
        k2: nat,
        n2: nat,
    |
        #[trigger] evolution_items_ok(s, k, adds2, deps2, rems2, why0, why, k2, n2)
            ==> evolution_items_ok(s, k7, adds + adds2, deps + deps2, rems + rems2, None, why, k2, n2 + cnt)
    &&& forall|e: ParseError, n: nat|
        #[trigger] evolution_items_fail(s, k, e, n) ==> evolution_items_fail(s, k7, e, n + cnt)
}

/// An `adds` change extends a parsed prefix of an evolution body.
proof fn lemma_evolution_adds(
    s: Seq<char>,
    k7: nat,
    k: nat,
    k1: nat,
    adds: Seq<Statement>,
    deps: Seq<Statement>,
    rems: Seq<Seq<char>>,
    why0: Option<Seq<char>>,
    cnt: nat,
    st: Statement,
)
    requires
        evolution_prefix(s, k7, k, adds, deps, rems, why0, cnt),
        tk(s, k) == TokenKind::Adds,
        statement_ok(s, k + 1, st, k1),
        k1 > k + 1,
    ensures
        evolution_prefix(s, k7, k1, adds.push(st), deps, rems, why0, cnt + 1),
{
    assert forall|
        adds2: Seq<Statement>,
        deps2: Seq<Statement>,
        rems2: Seq<Seq<char>>,
        why: Option<Seq<char>>,
        k2: nat,
        n2: nat,
    |
        #[trigger] evolution_items_ok(s, k1, adds2, deps2, rems2, why0, why, k2, n2)
            implies evolution_items_ok(s, k7, adds.push(st) + adds2, deps + deps2, rems + rems2, None, why, k2, n2 + cnt + 1) by {
        let all = seq![st] + adds2;
        assert(all[0] == st);
        assert(all.drop_first() =~= adds2);
        assert(evolution_items_ok(s, k, all, deps2, rems2, why0, why, k2, n2 + 1));
        assert(adds + all =~= adds.push(st) + adds2);
    }
    assert forall|e: ParseError, n: nat|
        #[trigger] evolution_items_fail(s, k1, e, n) implies evolution_items_fail(s, k7, e, n + cnt + 1) by {
        assert(evolution_step(s, k, k1));
        assert(evolution_items_fail(s, k, e, n + 1));
    }
}

/// A `deprecates` change extends a parsed prefix of an evolution body.
proof fn lemma_evolution_deprecates(
    s: Seq<char>,
    k7: nat,
    k: nat,
    k1: nat,
    adds: Seq<Statement>,
    deps: Seq<Statement>,
    rems: Seq<Seq<char>>,
    why0: Option<Seq<char>>,
    cnt: nat,
    st: Statement,
)
    requires
        evolution_prefix(s, k7, k, adds, deps, rems, why0, cnt),
        tk(s, k) == TokenKind::Deprecates,
        statement_ok(s, k + 1, st, k1),
        k1 > k + 1,
    ensures
        evolution_prefix(s, k7, k1, adds, deps.push(st), rems, why0, cnt + 1),
{
    assert forall|
        adds2: Seq<Statement>,
        deps2: Seq<Statement>,
        rems2: Seq<Seq<char>>,
        why: Option<Seq<char>>,
        k2: nat,
        n2: nat,
    |
        #[trigger] evolution_items_ok(s, k1, adds2, deps2, rems2, why0, why, k2, n2)
            implies evolution_items_ok(s, k7, adds + adds2, deps.push(st) + deps2, rems + rems2, None, why, k2, n2 + cnt + 1) by {
        let all = seq![st] + deps2;
        assert(all[0] == st);
        assert(all.drop_first() =~= deps2);
        assert(evolution_items_ok(s, k, adds2, all, rems2, why0, why, k2, n2 + 1));
        assert(deps + all =~= deps.push(st) + deps2);
    }
    assert forall|e: ParseError, n: nat|
        #[trigger] evolution_items_fail(s, k1, e, n) implies evolution_items_fail(s, k7, e, n + cnt + 1) by {
        assert(evolution_step(s, k, k1));
        assert(evolution_items_fail(s, k, e, n + 1));
    }
}

/// A `removes` change extends a parsed prefix of an evolution body.
proof fn lemma_evolution_removes(
    s: Seq<char>,
    k7: nat,
    k: nat,
    adds: Seq<Statement>,
    deps: Seq<Statement>,
    rems: Seq<Seq<char>>,
    why0: Option<Seq<char>>,
    cnt: nat,
)
    requires
        evolution_prefix(s, k7, k, adds, deps, rems, why0, cnt),
        tk(s, k) == TokenKind::Removes,
        tk(s, k + 1) == TokenKind::Identifier,
    ensures
        evolution_prefix(s, k7, k + 2, adds, deps, rems.push(lx(s, k + 1)), why0, cnt + 1),
{
    let name = lx(s, k + 1);
    assert forall|
        adds2: Seq<Statement>,
        deps2: Seq<Statement>,
        rems2: Seq<Seq<char>>,
        why: Option<Seq<char>>,
        k2: nat,
        n2: nat,
    |
        #[trigger] evolution_items_ok(s, k + 2, adds2, deps2, rems2, why0, why, k2, n2)
            implies evolution_items_ok(s, k7, adds + adds2, deps + deps2, rems.push(name) + rems2, None, why, k2, n2 + cnt + 1) by {
        let all = seq![name] + rems2;
        assert(all[0] == name);
        assert(all.drop_first() =~= rems2);
        assert(evolution_items_ok(s, k, adds2, deps2, all, why0, why, k2, n2 + 1));
        assert(rems + all =~= rems.push(name) + rems2);
    }
    assert forall|e: ParseError, n: nat|
        #[trigger] evolution_items_fail(s, k + 2, e, n) implies evolution_items_fail(s, k7, e, n + cnt + 1) by {
        assert(evolution_step(s, k, k + 2));
        assert(evolution_items_fail(s, k, e, n + 1));
    }
}

/// A `because` change extends a parsed prefix of an evolution body.
proof fn lemma_evolution_because(
    s: Seq<char>,
    k7: nat,
    k: nat,
    adds: Seq<Statement>,
    deps: Seq<Statement>,
    rems: Seq<Seq<char>>,
    why0: Option<Seq<char>>,
    cnt: nat,
)
    requires
        evolution_prefix(s, k7, k, adds, deps, rems, why0, cnt),
        tk(s, k) == TokenKind::Because,
        tk(s, k + 1) == TokenKind::String,
    ensures
        evolution_prefix(s, k7, k + 2, adds, deps, rems, Some(lx(s, k + 1)), cnt + 1),
{
    assert forall|
        adds2: Seq<Statement>,
        deps2: Seq<Statement>,
        rems2: Seq<Seq<char>>,
        why: Option<Seq<char>>,
        k2: nat,
        n2: nat,
    |
        #[trigger] evolution_items_ok(s, k + 2, adds2, deps2, rems2, Some(lx(s, k + 1)), why, k2, n2)
            implies evolution_items_ok(s, k7, adds + adds2, deps + deps2, rems + rems2, None, why, k2, n2 + cnt + 1) by {
        assert(evolution_items_ok(s, k, adds2, deps2, rems2, why0, why, k2, n2 + 1));
    }
    assert forall|e: ParseError, n: nat|
        #[trigger] evolution_items_fail(s, k + 2, e, n) implies evolution_items_fail(s, k7, e, n + cnt + 1) by {
        assert(evolution_step(s, k, k + 2));
        assert(evolution_items_fail(s, k, e, n + 1));
    }
}

impl Parser {
    /// Parses an evolution declaration.
    #[verifier::rlimit(60)]
    #[verifier::spinoff_prover]
    fn parse_evolution(&mut self) -> (r: Result<Declaration, ParseError>)
        requires
            old(self).wf(),
            tk(old(self).src(), old(self).k()) == TokenKind::Evolves,
        ensures
            final(self).wf(),
            final(self).src() == old(self).src(),
            match r {
                Ok(d) => d is Evolution && declaration_ok(old(self).src(), old(self).k(), d, final(self).k()),
                Err(e) => evolution_fails(old(self).src(), old(self).k(), e),
            },
    {
        let ghost s = self.src();
        let ghost k0 = self.k();
        let start_span = self.current.span;
        self.expect(TokenKind::Evolves)?;
        let name = self.expect_identifier()?;
        self.expect(TokenKind::At)?;
        let version = self.expect_version()?;
        self.expect(TokenKind::Greater)?;
        let parent_version = self.expect_version()?;
        self.expect(TokenKind::LeftBrace)?;
        let ghost k7 = self.k();
        let mut additions: Vec<Statement> = Vec::new();
        let mut deprecations: Vec<Statement> = Vec::new();
        let mut removals: Vec<String> = Vec::new();
        let mut rationale: Option<String> = None;
        let ghost mut cnt: nat = 0;
        proof {
            assert forall|
                adds2: Seq<Statement>,
                deps2: Seq<Statement>,
                rems2: Seq<Seq<char>>,
                why: Option<Seq<char>>,
                k2: nat,
                n2: nat,
            |
                #[trigger] evolution_items_ok(s, k7, adds2, deps2, rems2, None, why, k2, n2)
                    implies evolution_items_ok(s, k7, additions@ + adds2, deprecations@ + deps2, names_view(removals@) + rems2, None, why, k2, n2 + cnt) by {
                assert(additions@ + adds2 =~= adds2);
                assert(deprecations@ + deps2 =~= deps2);
                assert(names_view(removals@) + rems2 =~= rems2);
            }
        }
        while self.current.kind != TokenKind::RightBrace && self.current.kind != TokenKind::Eof
            invariant
                self.wf(),
                self.src() == s,
                s == old(self).src(),
                k0 == old(self).k(),
                k7 == k0 + 7,
                tk(s, k0) == TokenKind::Evolves,
                tk(s, k0 + 1) == TokenKind::Identifier && name@ == lx(s, k0 + 1),
                tk(s, k0 + 2) == TokenKind::At,
                tk(s, k0 + 3) == TokenKind::Version && version@ == lx(s, k0 + 3),
                tk(s, k0 + 4) == TokenKind::Greater,
                tk(s, k0 + 5) == TokenKind::Version && parent_version@ == lx(s, k0 + 5),
                tk(s, k0 + 6) == TokenKind::LeftBrace,
                start_span == sp(s, k0),
                evolution_prefix(
                    s,
                    k7,
                    self.k(),
                    additions@,
                    deprecations@,
                    names_view(removals@),
                    opt_view(rationale),
                    cnt,
                ),
            decreases s.len() - cursor_at(s, self.k()),
        {
            let ghost k = self.k();
            match self.current.kind {
                TokenKind::Adds => {
                    self.advance();
                    let ghost before = additions@;
                    match self.parse_statement() {
                        Ok(st) => {
                            additions.push(st);
                            proof {
                                lemma_progress(s, k, self.k());
                                lemma_evolution_adds(s, k7, k, self.k(), before, deprecations@, names_view(removals@), opt_view(rationale), cnt, st);
                                cnt = cnt + 1;
                            }
                        },
                        Err(e) => {
                            proof {
                                assert(evolution_items_fail(s, k, e, 0));
                            }
                            return Err(e);
                        },
                    }
                },
                TokenKind::Deprecates => {
                    self.advance();
                    let ghost before = deprecations@;
                    match self.parse_statement() {
                        Ok(st) => {
                            deprecations.push(st);
                            proof {
                                lemma_progress(s, k, self.k());
                                lemma_evolution_deprecates(s, k7, k, self.k(), additions@, before, names_view(removals@), opt_view(rationale), cnt, st);
                                cnt = cnt + 1;
                            }
                        },
                        Err(e) => {
                            proof {
                                assert(evolution_items_fail(s, k, e, 0));
                            }
                            return Err(e);
                        },
                    }
                },
                TokenKind::Removes => {
                    self.advance();
                    let ghost before = removals@;
                    match self.expect_identifier() {
                        Ok(removed) => {
                            removals.push(removed);
                            proof {
                                lemma_progress(s, k, self.k());
                                lemma_evolution_removes(s, k7, k, additions@, deprecations@, names_view(before), opt_view(rationale), cnt);
                                assert(names_view(removals@) =~= names_view(before).push(lx(s, k + 1)));
                                cnt = cnt + 1;
                            }
                        },
                        Err(e) => {
                            proof {
                                assert(evolution_items_fail(s, k, e, 0));
                            }
                            return Err(e);
                        },
                    }
                },
                TokenKind::Because => {
                    self.advance();
                    match self.expect_string() {
                        Ok(text) => {
                            proof {
                                lemma_progress(s, k, self.k());
                                lemma_evolution_because(s, k7, k, additions@, deprecations@, names_view(removals@), opt_view(rationale), cnt);
                                cnt = cnt + 1;
                            }
                            rationale = Some(text);
                        },
                        Err(e) => {
                            proof {
                                assert(evolution_items_fail(s, k, e, 0));
                            }
                            return Err(e);
                        },
                    }
                },
                _ => {
                    let e = self.unexpected("adds, deprecates, removes, or because");
                    proof {
                        assert(evolution_items_fail(s, k, e, 0));
                    }
                    return Err(e);
                },
            }
        }
        let ghost j = self.k();
        proof {
            assert(evolution_items_ok(s, j, Seq::empty(), Seq::empty(), Seq::empty(), opt_view(rationale), opt_view(rationale), j, 0));
            assert(additions@ + Seq::<Statement>::empty() =~= additions@);
            assert(deprecations@ + Seq::<Statement>::empty() =~= deprecations@);
            assert(names_view(removals@) + Seq::<Seq<char>>::empty() =~= names_view(removals@));
            assert(evolution_items_ok(s, k7, additions@, deprecations@, names_view(removals@), None, opt_view(rationale), j, cnt));
        }
        if let Err(e) = self.expect(TokenKind::RightBrace) {
            return Err(e);
        }
        let exegesis = match self.parse_exegesis() {
            Ok(x) => x,
            Err(e) => {
                return Err(e);
            },
        };
        let span = start_span.merge(&self.previous.span);
        let ev = Evolution {
            name,
            version,
            parent_version,
            additions,
            deprecations,
            removals,
            rationale,
            exegesis,
            span,
        };
        proof {
            let k2 = self.k();
            assert(evolution_items_ok(s, k0 + 7, ev.additions@, ev.deprecations@, names_view(ev.removals@), None, opt_view(ev.rationale), j, cnt));
            assert(exegesis_ok(s, j + 1, ev.exegesis@, k2));
            assert(ev.span == span_from(s, k0, k2));
            assert(evolution_ok(s, k0, Declaration::Evolution(ev), k2));
        }
        Ok(Declaration::Evolution(ev))
    }
}

/// From token `k` the source holds the declaration `d`, and nothing after
/// it but the end of input.
pub open spec fn parses_to(s: Seq<char>, k: nat, d: Declaration) -> bool {
    exists|k2: nat| #[trigger] declaration_ok(s, k, d, k2) && tk(s, k2) == TokenKind::Eof
}

/// Parsing from token `k` fails with `e`: the declaration is malformed, or
/// something other than the end of input follows it.
pub open spec fn parse_fails(s: Seq<char>, k: nat, e: ParseError) -> bool {
    ||| declaration_fails(s, k, e)
    ||| exists|d: Declaration, k2: nat|
        #[trigger] declaration_ok(s, k, d, k2) && expect_fails(s, k2, TokenKind::Eof, e)
}

impl Parser {
    /// Parses the source into a declaration.
    ///
    /// Returns the declaration when the source holds exactly one well-formed
    /// declaration, and the first error otherwise.
    pub fn parse(&mut self) -> (r: Result<Declaration, ParseError>)
        requires
            old(self).wf(),
        ensures
            final(self).wf(),
            final(self).src() == old(self).src(),
            match r {
                Ok(d) => parses_to(old(self).src(), old(self).k(), d),
                Err(e) => parse_fails(old(self).src(), old(self).k(), e),
            },
    {
        let ghost s = self.src();
        let ghost k0 = self.k();
        let decl = self.parse_declaration()?;
        let ghost k2 = self.k();
        if let Err(e) = self.expect(TokenKind::Eof) {
            assert(declaration_ok(s, k0, decl, k2));
            return Err(e);
        }
        assert(declaration_ok(s, k0, decl, k2));
        Ok(decl)
    }

    /// Parses a declaration.
    fn parse_declaration(&mut self) -> (r: Result<Declaration, ParseError>)
        requires
            old(self).wf(),
        ensures
            final(self).wf(),
            final(self).src() == old(self).src(),
            match r {
                Ok(d) => declaration_ok(old(self).src(), old(self).k(), d, final(self).k()),
                Err(e) => declaration_fails(old(self).src(), old(self).k(), e),
            },
    {
        match self.current.kind {
            TokenKind::Gene => self.parse_gene(),
            TokenKind::Trait => self.parse_trait(),
            TokenKind::Constraint => self.parse_constraint(),
            TokenKind::System => self.parse_system(),
            TokenKind::Evolves => self.parse_evolution(),
            _ => Err(
                ParseError::InvalidDeclaration {
                    found: self.current.lexeme.clone(),
                    span: self.current.span,
                },
            ),
        }
    }
}

} // verus!

//! The interactive DOL shell: commands, declarations kept across inputs,
//! history, and the state it shares with the evaluator.
//!
//! Reading a file for `:load` is the host program's part: it hands the
//! text to [`SpiritRepl::load_source`].

use vstd::prelude::*;

pub mod context;
pub mod evaluator;
pub mod session;
pub mod typed;

use crate::ast::{Declaration, TypedField};
use crate::parse_determinism::{declaration_view, typed_fields_view};
use typed::{parse_typed, spec_typed};
use crate::error::ParseError;
use crate::parser::{parse_fails, parses_to, Parser};
use crate::text::{
    before_char, chars_of, join_with, owned, prefix_len, spec_decimal, spec_trim, str_eq,
    string_from_range, strings_view, trim, usize_to_string,
};
pub use context::ReplContext;
pub use evaluator::{EvalResult, ReplEvaluator};
pub use session::{ReplSession, SessionConfig};

verus! {

/// Help text for the REPL.
pub const HELP_TEXT: &'static str = "
Spirit REPL - Interactive DOL Environment

Commands:
  :help, :h, :?     Show this help
  :quit, :q, :exit  Exit the REPL
  :clear, :reset    Clear all declarations
  :list, :ls        List defined declarations
  :type <name>      Show type info for a declaration
  :emit, :rust      Emit Rust code for session
  :wasm             Compile to WASM and show info
  :shake            Run tree shaking analysis
  :history          Show input history
  :load <file>      Load declarations from file

Input Types:
  - Declarations: gene, trait, constraint, system, fun
  - Expressions: arithmetic, function calls (evaluation in progress)

Examples:
  gene Point { point has x: Int64; point has y: Int64 }
  fun add(a: Int64, b: Int64) -> Int64 { a + b }
  :type Point
  :emit
";

/// REPL error types.
#[derive(Debug, Clone)]
pub enum ReplError {
    /// Parse error
    Parse(String),
    /// Command error
    Command(String),
    /// Declaration not found
    NotFound(String),
    /// Code generation error
    Codegen(String),
    /// WASM compilation error
    Wasm(String),
    /// I/O error
    Io(String),
    /// Feature not available
    Feature(String),
}

impl ReplError {
    /// The error's message.
    pub open spec fn spec_message(&self) -> Seq<char> {
        match self {
            ReplError::Parse(m) => "Parse error: "@ + m@,
            ReplError::Command(m) => "Command error: "@ + m@,
            ReplError::NotFound(m) => "Not found: "@ + m@,
            ReplError::Codegen(m) => "Codegen error: "@ + m@,
            ReplError::Wasm(m) => "WASM error: "@ + m@,
            ReplError::Io(m) => "I/O error: "@ + m@,
            ReplError::Feature(m) => "Feature error: "@ + m@,
        }
    }

    /// The error's message, as displayed.
    pub fn message(&self) -> (r: String)
        ensures
            r@ == self.spec_message(),
    {
        let (prefix, m) = match self {
            ReplError::Parse(m) => ("Parse error: ", m),
            ReplError::Command(m) => ("Command error: ", m),
            ReplError::NotFound(m) => ("Not found: ", m),
            ReplError::Codegen(m) => ("Codegen error: ", m),
            ReplError::Wasm(m) => ("WASM error: ", m),
            ReplError::Io(m) => ("I/O error: ", m),
            ReplError::Feature(m) => ("Feature error: ", m),
        };
        let mut s = owned(prefix);
        s.append(m.as_str());
        s
    }
}

// ---------------------------------------------------------------------------
// What the commands answer
// ---------------------------------------------------------------------------

/// The kind a declaration is recorded as.
pub open spec fn decl_kind(d: Declaration) -> Seq<char> {
    match d {
        Declaration::Gene(_) => "gene"@,
        Declaration::Trait(_) => "trait"@,
        Declaration::Constraint(_) => "constraint"@,
        Declaration::System(_) => "system"@,
        Declaration::Evolution(_) => "evolution"@,
        Declaration::Gen(g) => if g.is_trait {
            "trait"@
        } else {
            "gene"@
        },
        Declaration::Function(_) => "function"@,
    }
}

/// The keyword shown for a declaration in type information.
pub open spec fn decl_keyword(d: Declaration) -> Seq<char> {
    match d {
        Declaration::Gene(_) => "gene"@,
        Declaration::Trait(_) => "trait"@,
        Declaration::Constraint(_) => "rule"@,
        Declaration::System(_) => "system"@,
        Declaration::Evolution(_) => "evo"@,
        Declaration::Gen(g) => if g.is_trait {
            "trait"@
        } else {
            "gene"@
        },
        Declaration::Function(_) => "fun"@,
    }
}

/// The command word of a command line: the text before the first space.
pub open spec fn command_word(cmd: Seq<char>) -> Seq<char> {
    cmd.take(prefix_len(cmd, ' ') as int)
}

/// The argument of a command line: the text after the first space,
/// trimmed, if there is a space.
pub open spec fn command_arg(cmd: Seq<char>) -> Option<Seq<char>> {
    if prefix_len(cmd, ' ') < cmd.len() {
        Some(spec_trim(cmd.skip((prefix_len(cmd, ' ') + 1) as int)))
    } else {
        None
    }
}

/// The names of declarations.
pub open spec fn decl_names(ds: Seq<Declaration>) -> Seq<Seq<char>> {
    ds.map_values(|d: Declaration| d.spec_name())
}

/// The answer to `:list`.
pub open spec fn list_text(ds: Seq<Declaration>) -> Seq<char> {
    if ds.len() == 0 {
        "No declarations defined"@
    } else {
        "Declarations:\n  "@ + join_with(decl_names(ds), "\n  "@)
    }
}

/// The numbered lines of the history.
pub open spec fn history_lines(h: Seq<Seq<char>>) -> Seq<Seq<char>> {
    Seq::new(h.len(), |i: int| spec_decimal((i + 1) as nat) + ": "@ + h[i])
}

/// The answer to `:history`.
pub open spec fn history_text(h: Seq<Seq<char>>) -> Seq<char> {
    join_with(history_lines(h), "\n"@)
}

/// The index of the first declaration named `name`, from index `i` on.
pub open spec fn find_decl(ds: Seq<Declaration>, name: Seq<char>, i: nat) -> Option<nat>
    decreases ds.len() - i,
{
    if i >= ds.len() {
        None
    } else if ds[i as int].spec_name() == name {
        Some(i)
    } else {
        find_decl(ds, name, i + 1)
    }
}

/// What `find_decl` finds is a declaration of that name, at or after
/// `i`.
pub proof fn lemma_find_decl(ds: Seq<Declaration>, name: Seq<char>, i: nat)
    ensures
        find_decl(ds, name, i) matches Some(j) ==> i <= j < ds.len() && ds[j as int].spec_name()
            == name,
    decreases ds.len() - i,
{
    if i < ds.len() && ds[i as int].spec_name() != name {
        lemma_find_decl(ds, name, i + 1);
    }
}

/// The type information shown for declaration `d` named `name` (its
/// statements carry no typed fields).
pub open spec fn type_text(d: Declaration, name: Seq<char>) -> Seq<char> {
    match d {
        Declaration::Gene(_) => "gene "@ + name + " {\n\n}"@,
        Declaration::Gen(g) => if g.is_trait {
            "trait "@ + name
        } else {
            "gene "@ + name + " {\n"@ + join_with(field_lines(typed_fields_view(g.fields@)), "\n"@)
                + "\n}"@
        },
        Declaration::Function(f) => "fun "@ + name + "("@ + join_with(
            param_texts(typed_fields_view(f.params@)),
            ", "@,
        ) + ") -> "@ + f.return_type@,
        _ => decl_keyword(d) + " "@ + name,
    }
}

/// The lines that show typed fields: `  name: Type`.
pub open spec fn field_lines(fs: Seq<(Seq<char>, Seq<char>)>) -> Seq<Seq<char>> {
    fs.map_values(|f: (Seq<char>, Seq<char>)| "  "@ + f.0 + ": "@ + f.1)
}

/// The texts that show parameters: `name: Type`.
pub open spec fn param_texts(fs: Seq<(Seq<char>, Seq<char>)>) -> Seq<Seq<char>> {
    fs.map_values(|f: (Seq<char>, Seq<char>)| f.0 + ": "@ + f.1)
}

/// Typed fields shown as `{indent}name: Type`, joined by `sep`.
fn typed_lines(fs: &Vec<TypedField>, indent: &str, sep: &str) -> (r: String)
    ensures
        r@ == join_with(
            typed_fields_view(fs@).map_values(|f: (Seq<char>, Seq<char>)| indent@ + f.0 + ": "@ + f.1),
            sep@,
        ),
{
    let ghost fv = typed_fields_view(fs@);
    let ghost want = fv.map_values(|f: (Seq<char>, Seq<char>)| indent@ + f.0 + ": "@ + f.1);
    let mut lines: Vec<String> = Vec::new();
    let mut i: usize = 0;
    while i < fs.len()
        invariant
            i <= fs@.len(),
            fv == typed_fields_view(fs@),
            want == fv.map_values(|f: (Seq<char>, Seq<char>)| indent@ + f.0 + ": "@ + f.1),
            strings_view(lines@) == want.take(i as int),
        decreases fs.len() - i,
    {
        let mut line = owned(indent);
        line.append(fs[i].name.as_str());
        line.append(": ");
        line.append(fs[i].ty.as_str());
        let ghost before = strings_view(lines@);
        lines.push(line);
        assert(strings_view(lines@) =~= before.push(want[i as int]));
        assert(want.take(i + 1) =~= want.take(i as int).push(want[i as int]));
        i = i + 1;
    }
    assert(want.take(fs@.len() as int) =~= want);
    crate::text::join_strings(&lines, sep)
}

/// `r` is `Ok(Message(m))` with `m` reading `text`.
pub open spec fn is_message(r: Result<EvalResult, ReplError>, text: Seq<char>) -> bool {
    r matches Ok(EvalResult::Message(m)) && m@ == text
}

/// The program built around an expression to check its syntax.
pub open spec fn expression_wrapper(ty: Seq<char>, expr: Seq<char>) -> Seq<char> {
    "\npub fun dolReplEval() -> "@ + ty + " {\n    "@ + expr + "\n}\n"@
}

/// What an expression `input` is answered: a feature error when the
/// program built around it reads as a declaration (evaluating needs
/// WebAssembly), else the error that reading it gives.
pub open spec fn expression_outcome(input: Seq<char>, r: Result<EvalResult, ReplError>) -> bool {
    let w = expression_wrapper(evaluator::spec_infer_type(input), input);
    ||| (exists|e: ParseError| parse_fails(w, 0, e) && spec_typed(spec_trim(w)) is None && (r matches Err(
        ReplError::Parse(m),
    ) && m@ == e.spec_message()))
    ||| ((exists|d: Declaration| parses_to(w, 0, d)) || spec_typed(spec_trim(w)) is Some) && (r matches Err(
        ReplError::Feature(m),
    ) && m@
        == "Expression evaluation requires the 'wasm' feature. Use `cargo build --features wasm` to enable."@)
}

// ---------------------------------------------------------------------------
// The REPL
// ---------------------------------------------------------------------------

/// Spirit REPL - Interactive DOL evaluation environment.
#[derive(Debug)]
pub struct SpiritRepl {
    declarations: Vec<Declaration>,
    source_texts: Vec<String>,
    config: SessionConfig,
    context: ReplContext,
    history: Vec<String>,
    evaluator: ReplEvaluator,
}

impl SpiritRepl {
    /// The declarations defined so far, oldest first.
    pub closed spec fn decls(&self) -> Seq<Declaration> {
        self.declarations@
    }

    /// The source text of each declaration.
    pub closed spec fn sources(&self) -> Seq<Seq<char>> {
        strings_view(self.source_texts@)
    }

    /// The inputs evaluated so far (commands and empty inputs aside).
    pub closed spec fn hist(&self) -> Seq<Seq<char>> {
        strings_view(self.history@)
    }

    /// The session configuration.
    pub closed spec fn cfg(&self) -> SessionConfig {
        self.config
    }

    /// The evaluation context.
    pub closed spec fn ctx(&self) -> ReplContext {
        self.context
    }

    /// Each declaration has its source text, and the context is sound.
    pub closed spec fn wf(&self) -> bool {
        &&& self.decls().len() == self.sources().len()
        &&& self.ctx().wf()
        &&& names_unique(self.decls())
    }

    /// A REPL in a valid state never holds two declarations of one name.
    pub proof fn lemma_wf_names_unique(&self)
        requires
            self.wf(),
        ensures
            names_unique(self.decls()),
    {
    }

    /// Create a new Spirit REPL with default configuration.
    pub fn new() -> (r: SpiritRepl)
        ensures
            r.wf(),
            r.decls().len() == 0,
            r.sources().len() == 0,
            r.hist().len() == 0,
            session::is_default_config(r.cfg(), "default"@),
            r.ctx().symbol_map() == Map::<Seq<char>, context::SymbolView>::empty(),
    {
        let r = SpiritRepl {
            declarations: Vec::new(),
            source_texts: Vec::new(),
            config: SessionConfig::default(),
            context: ReplContext::new(),
            history: Vec::new(),
            evaluator: ReplEvaluator::new(),
        };
        assert(r.sources() =~= Seq::empty());
        assert(r.hist() =~= Seq::empty());
        r
    }

    /// Create a REPL with custom configuration; an optimizing evaluator
    /// when the configuration asks for optimization.
    pub fn with_config(config: SessionConfig) -> (r: SpiritRepl)
        ensures
            r.wf(),
            r.decls().len() == 0,
            r.sources().len() == 0,
            r.hist().len() == 0,
            r.cfg() == config,
            r.ctx().symbol_map() == Map::<Seq<char>, context::SymbolView>::empty(),
    {
        let evaluator = if config.optimize {
            ReplEvaluator::optimized()
        } else {
            ReplEvaluator::new()
        };
        let r = SpiritRepl {
            declarations: Vec::new(),
            source_texts: Vec::new(),
            config,
            context: ReplContext::new(),
            history: Vec::new(),
            evaluator,
        };
        assert(r.sources() =~= Seq::empty());
        assert(r.hist() =~= Seq::empty());
        r
    }

    /// Get the current declarations.
    pub fn declarations(&self) -> (r: &[Declaration])
        ensures
            r@ == self.decls(),
    {
        self.declarations.as_slice()
    }

    /// Get the evaluation history.
    pub fn history(&self) -> (r: &[String])
        ensures
            strings_view(r@) == self.hist(),
    {
        self.history.as_slice()
    }

    /// Get the session configuration.
    pub fn config(&self) -> (r: &SessionConfig)
        ensures
            *r == self.cfg(),
    {
        &self.config
    }
}

/// `old` and `new` hold the same declarations, history, configuration and
/// context.
pub open spec fn unchanged(old: SpiritRepl, new: SpiritRepl) -> bool {
    &&& new.decls() == old.decls()
    &&& new.sources() == old.sources()
    &&& new.hist() == old.hist()
    &&& new.cfg() == old.cfg()
    &&& new.ctx() == old.ctx()
}

/// Defining `d` from source `src` takes the REPL from `old` to `new` with
/// answer `r`: an earlier declaration of the same name is replaced, the
/// new one comes last, and the context records it.
pub open spec fn declared(
    old: SpiritRepl,
    new: SpiritRepl,
    d: Declaration,
    src: Seq<char>,
    r: Result<EvalResult, ReplError>,
) -> bool {
    let name = d.spec_name();
    let kind = decl_kind(d);
    let found = find_decl(old.decls(), name, 0);
    &&& r matches Ok(EvalResult::Defined { name: n, kind: k, message: m })
    &&& n@ == name
    &&& k@ == kind
    &&& m@ == (if found is Some {
        "Redefined "@
    } else {
        "Defined "@
    }) + kind + " "@ + name
    &&& new.decls() == match found {
        Some(i) => old.decls().remove(i as int),
        None => old.decls(),
    }.push(d)
    &&& new.sources() == match found {
        Some(i) => old.sources().remove(i as int),
        None => old.sources(),
    }.push(src)
    &&& new.ctx().symbol_map() == old.ctx().symbol_map().insert(
        name,
        (name, kind, Seq::empty(), true, None),
    )
    &&& new.cfg() == old.cfg()
}

/// No two declarations share a name.
pub open spec fn names_unique(ds: Seq<Declaration>) -> bool {
    forall|i: int, j: int|
        0 <= i < j < ds.len() ==> #[trigger] ds[i].spec_name() != #[trigger] ds[j].spec_name()
}

/// When `find_decl` finds nothing from `i` on, no declaration there has
/// that name.
proof fn lemma_find_decl_none(ds: Seq<Declaration>, name: Seq<char>, i: nat)
    requires
        find_decl(ds, name, i) is None,
    ensures
        forall|j: int| i <= j < ds.len() ==> #[trigger] ds[j].spec_name() != name,
    decreases ds.len() - i,
{
    if i < ds.len() {
        lemma_find_decl_none(ds, name, i + 1);
    }
}

/// In a list whose other declarations have other names, `find_decl` from
/// `i` on finds the declaration at `k`.
proof fn lemma_find_decl_at(ds: Seq<Declaration>, name: Seq<char>, i: nat, k: nat)
    requires
        i <= k < ds.len(),
        ds[k as int].spec_name() == name,
        forall|j: int| 0 <= j < ds.len() && j != k ==> #[trigger] ds[j].spec_name() != name,
    ensures
        find_decl(ds, name, i) == Some(k),
    decreases k - i,
{
    if i < k {
        lemma_find_decl_at(ds, name, i + 1, k);
    }
}

/// Defining a declaration keeps the names distinct: an earlier declaration
/// of the same name is replaced (so the count stays), otherwise the list
/// grows by one; the new declaration comes last, and looking its name up
/// finds it.
pub proof fn lemma_definition_replaces(
    old: SpiritRepl,
    new: SpiritRepl,
    d: Declaration,
    src: Seq<char>,
    r: Result<EvalResult, ReplError>,
)
    requires
        declared(old, new, d, src, r),
        names_unique(old.decls()),
    ensures
        names_unique(new.decls()),
        new.decls().last() == d,
        find_decl(new.decls(), d.spec_name(), 0) == Some((new.decls().len() - 1) as nat),
        new.decls().len() == old.decls().len() + (if find_decl(
            old.decls(),
            d.spec_name(),
            0,
        ) is Some {
            0int
        } else {
            1int
        }),
{
    let name = d.spec_name();
    let ds = old.decls();
    let found = find_decl(ds, name, 0);
    let base = match found {
        Some(i) => ds.remove(i as int),
        None => ds,
    };
    match found {
        Some(i) => {
            lemma_find_decl(ds, name, 0);
            assert forall|j: int| 0 <= j < base.len() implies #[trigger] base[j].spec_name() != name by {
                if j < i {
                    assert(base[j] == ds[j]);
                } else {
                    assert(base[j] == ds[j + 1]);
                }
            }
            assert forall|a: int, b: int| 0 <= a < b < base.len() implies #[trigger] base[a].spec_name()
                != #[trigger] base[b].spec_name() by {
                let a1 = if a < i { a } else { a + 1 };
                let b1 = if b < i { b } else { b + 1 };
                assert(base[a] == ds[a1]);
                assert(base[b] == ds[b1]);
            }
        },
        None => {
            lemma_find_decl_none(ds, name, 0);
        },
    }
    let nd = new.decls();
    assert(nd == base.push(d));
    assert forall|a: int, b: int| 0 <= a < b < nd.len() implies #[trigger] nd[a].spec_name()
        != #[trigger] nd[b].spec_name() by {
        assert(nd[a] == base[a]);
        if b < base.len() {
            assert(nd[b] == base[b]);
        } else {
            assert(nd[b] == d);
        }
    }
    assert forall|j: int| 0 <= j < nd.len() && j != nd.len() - 1 implies #[trigger] nd[j].spec_name()
        != name by {
        assert(nd[j] == base[j]);
    }
    lemma_find_decl_at(nd, name, 0, (nd.len() - 1) as nat);
}

/// What a command line `cmd` answers, and how it leaves the REPL.
pub open spec fn command_outcome(
    old: SpiritRepl,
    new: SpiritRepl,
    cmd: Seq<char>,
    r: Result<EvalResult, ReplError>,
) -> bool {
    let w = command_word(cmd);
    let a = command_arg(cmd);
    if w == ":help"@ || w == ":h"@ || w == ":?"@ {
        (r matches Ok(EvalResult::Help(h)) && h@ == HELP_TEXT@) && unchanged(old, new)
    } else if w == ":quit"@ || w == ":q"@ || w == ":exit"@ {
        r matches Ok(EvalResult::Quit) && unchanged(old, new)
    } else if w == ":clear"@ || w == ":reset"@ {
        &&& is_message(r, "Session cleared"@)
        &&& new.decls().len() == 0
        &&& new.sources().len() == 0
        &&& new.ctx().symbol_map() == Map::<Seq<char>, context::SymbolView>::empty()
        &&& new.hist() == old.hist()
        &&& new.cfg() == old.cfg()
    } else if w == ":list"@ || w == ":ls"@ {
        is_message(r, list_text(old.decls())) && unchanged(old, new)
    } else if w == ":type"@ || w == ":t"@ {
        unchanged(old, new) && match a {
            Some(n) => match find_decl(old.decls(), n, 0) {
                Some(i) => r matches Ok(EvalResult::TypeInfo(x)) && x@ == type_text(
                    old.decls()[i as int],
                    n,
                ),
                None => r matches Err(ReplError::NotFound(x)) && x@ == n,
            },
            None => r matches Err(ReplError::Command(x)) && x@ == "Usage: :type <name>"@,
        }
    } else if w == ":emit"@ || w == ":rust"@ {
        unchanged(old, new) && if old.decls().len() == 0 {
            is_message(r, "No declarations to emit"@)
        } else {
            r matches Err(ReplError::Feature(_))
        }
    } else if w == ":wasm"@ {
        unchanged(old, new) && (r matches Err(ReplError::Feature(x)) && x@
            == "wasm-compile feature not enabled"@)
    } else if w == ":shake"@ {
        unchanged(old, new) && if old.decls().len() == 0 {
            is_message(r, "No declarations to analyze"@)
        } else {
            r matches Err(ReplError::Feature(_))
        }
    } else if w == ":history"@ {
        is_message(r, history_text(old.hist())) && unchanged(old, new)
    } else if w == ":load"@ {
        unchanged(old, new) && match a {
            Some(_) => r matches Err(ReplError::Io(_)),
            None => r matches Err(ReplError::Command(x)) && x@ == "Usage: :load <file.dol>"@,
        }
    } else {
        unchanged(old, new) && (r matches Err(ReplError::Command(x)) && x@ == "Unknown command: "@
            + w)
    }
}


/// The command word and argument of a command line.
fn split_command(cmd: &str) -> (r: (String, Option<String>))
    ensures
        r.0@ == command_word(cmd@),
        crate::text::opt_string_view(r.1) == command_arg(cmd@),
{
    let word = before_char(cmd, ' ');
    let chars = chars_of(cmd);
    let p = chars_of(word.as_str()).len();
    if p < chars.len() {
        let rest = string_from_range(&chars, p + 1, chars.len());
        assert(rest@ =~= cmd@.skip(p + 1));
        (word, Some(trim(rest.as_str())))
    } else {
        (word, None)
    }
}

impl SpiritRepl {
    /// The index of the first declaration named `name`.
    fn find_declaration(&self, name: &str) -> (r: Option<usize>)
        ensures
            match find_decl(self.decls(), name@, 0) {
                Some(i) => r is Some && r->0 as nat == i,
                None => r is None,
            },
            r matches Some(i) ==> i < self.decls().len() && self.decls()[i as int].spec_name()
                == name@,
    {
        proof {
            lemma_find_decl(self.decls(), name@, 0);
        }
        let mut i: usize = 0;
        while i < self.declarations.len()
            invariant
                i <= self.declarations@.len(),
                find_decl(self.decls(), name@, i as nat) == find_decl(self.decls(), name@, 0),
            decreases self.declarations.len() - i,
        {
            if str_eq(self.declarations[i].name().as_str(), name) {
                return Some(i);
            }
            i = i + 1;
        }
        None
    }

    /// The answer to `:list`.
    fn list_message(&self) -> (r: String)
        ensures
            r@ == list_text(self.decls()),
    {
        if self.declarations.len() == 0 {
            return owned("No declarations defined");
        }
        let mut names: Vec<String> = Vec::new();
        let mut i: usize = 0;
        while i < self.declarations.len()
            invariant
                i <= self.declarations@.len(),
                strings_view(names@) == decl_names(self.decls()).take(i as int),
            decreases self.declarations.len() - i,
        {
            let ghost before = names@;
            names.push(self.declarations[i].name().clone());
            assert(strings_view(names@) =~= strings_view(before).push(self.decls()[i as int].spec_name()));
            assert(decl_names(self.decls()).take(i + 1) =~= decl_names(self.decls()).take(i as int).push(
                self.decls()[i as int].spec_name(),
            ));
            i = i + 1;
        }
        assert(decl_names(self.decls()).take(self.declarations@.len() as int) =~= decl_names(self.decls()));
        let joined = crate::text::join_strings(&names, "\n  ");
        let mut s = owned("Declarations:\n  ");
        s.append(joined.as_str());
        s
    }

    /// The answer to `:history`.
    fn history_message(&self) -> (r: String)
        ensures
            r@ == history_text(self.hist()),
    {
        let mut lines: Vec<String> = Vec::new();
        let mut i: usize = 0;
        while i < self.history.len()
            invariant
                i <= self.history@.len(),
                strings_view(lines@) == history_lines(self.hist()).take(i as int),
            decreases self.history.len() - i,
        {
            let ghost before = lines@;
            let mut line = usize_to_string(i + 1);
            line.append(": ");
            line.append(self.history[i].as_str());
            lines.push(line);
            assert(strings_view(lines@) =~= strings_view(before).push(history_lines(self.hist())[i as int]));
            assert(history_lines(self.hist()).take(i + 1) =~= history_lines(self.hist()).take(i as int).push(
                history_lines(self.hist())[i as int],
            ));
            i = i + 1;
        }
        assert(history_lines(self.hist()).take(self.history@.len() as int) =~= history_lines(self.hist()));
        crate::text::join_strings(&lines, "\n")
    }

    /// Show type information for a declaration.
    fn show_type(&self, name: &str) -> (r: Result<EvalResult, ReplError>)
        ensures
            match find_decl(self.decls(), name@, 0) {
                Some(i) => r matches Ok(EvalResult::TypeInfo(x)) && x@ == type_text(
                    self.decls()[i as int],
                    name@,
                ),
                None => r matches Err(ReplError::NotFound(x)) && x@ == name@,
            },
    {
        match self.find_declaration(name) {
            None => Err(ReplError::NotFound(owned(name))),
            Some(i) => {
                let ghost d = self.decls()[i as int];
                let info = match &self.declarations[i] {
                    Declaration::Gene(_) => {
                        let mut s = owned("gene ");
                        s.append(name);
                        s.append(" {\n\n}");
                        s
                    },
                    Declaration::Gen(g) => if g.is_trait {
                        let mut s = owned("trait ");
                        s.append(name);
                        assert(s@ =~= type_text(self.decls()[i as int], name@));
                        s
                    } else {
                        let mut s = owned("gene ");
                        s.append(name);
                        s.append(" {\n");
                        let lines = typed_lines(&g.fields, "  ", "\n");
                        assert(typed_fields_view(g.fields@).map_values(
                            |f: (Seq<char>, Seq<char>)| "  "@ + f.0 + ": "@ + f.1,
                        ) =~= field_lines(typed_fields_view(g.fields@)));
                        s.append(lines.as_str());
                        s.append("\n}");
                        assert(s@ =~= type_text(self.decls()[i as int], name@));
                        s
                    }
                    Declaration::Function(f) => {
                        let mut s = owned("fun ");
                        s.append(name);
                        s.append("(");
                        let params = typed_lines(&f.params, "", ", ");
                        assert(typed_fields_view(f.params@).map_values(
                            |p: (Seq<char>, Seq<char>)| ""@ + p.0 + ": "@ + p.1,
                        ) =~= param_texts(typed_fields_view(f.params@))) by {
                            reveal_strlit("");
                            assert forall|k: int| 0 <= k < typed_fields_view(f.params@).len() implies (""@
                                + #[trigger] typed_fields_view(f.params@)[k].0) =~= typed_fields_view(
                                f.params@,
                            )[k].0 by {}
                        }
                        s.append(params.as_str());
                        s.append(") -> ");
                        s.append(f.return_type.as_str());
                        assert(s@ =~= type_text(self.decls()[i as int], name@));
                        s
                    },
                    d => {
                        let keyword = match d {
                            Declaration::Gene(_) => "gene",
                            Declaration::Trait(_) => "trait",
                            Declaration::Constraint(_) => "rule",
                            Declaration::System(_) => "system",
                            Declaration::Evolution(_) => "evo",
                            Declaration::Gen(g) => if g.is_trait {
                                "trait"
                            } else {
                                "gene"
                            },
                            Declaration::Function(_) => "fun",
                        };
                        let mut s = owned(keyword);
                        s.append(" ");
                        s.append(name);
                        assert(s@ =~= type_text(self.decls()[i as int], name@));
                        s
                    },
                };
                assert(info@ =~= type_text(d, name@));
                Ok(EvalResult::TypeInfo(info))
            },
        }
    }

    /// Records a parsed declaration with its source text.
    fn process_declaration(&mut self, decl: Declaration, source: &str) -> (r: Result<
        EvalResult,
        ReplError,
    >)
        requires
            old(self).wf(),
        ensures
            final(self).wf(),
            declared(*old(self), *final(self), decl, source@, r),
            final(self).hist() == old(self).hist(),
    {
        let name = decl.name().clone();
        let kind = match &decl {
            Declaration::Gene(_) => "gene",
            Declaration::Trait(_) => "trait",
            Declaration::Constraint(_) => "constraint",
            Declaration::System(_) => "system",
            Declaration::Evolution(_) => "evolution",
            Declaration::Gen(g) => if g.is_trait {
                "trait"
            } else {
                "gene"
            },
            Declaration::Function(_) => "function",
        };
        let existing = self.find_declaration(name.as_str());
        let ghost found = find_decl(old(self).decls(), decl.spec_name(), 0);
        assert(name@ == decl.spec_name());
        let redefined = existing.is_some();
        let ghost d0 = self.declarations@;
        let ghost s0 = strings_view(self.source_texts@);
        match existing {
            Some(idx) => {
                self.declarations.remove(idx);
                self.source_texts.remove(idx);
                assert(self.declarations@ == d0.remove(idx as int));
                assert(strings_view(self.source_texts@) =~= s0.remove(idx as int));
                assert(found == Some(idx as nat));
            },
            None => {
                assert(found is None);
            },
        }
        let ghost d1 = self.declarations@;
        let ghost s1 = strings_view(self.source_texts@);
        assert(d1 == match found {
            Some(i) => d0.remove(i as int),
            None => d0,
        });
        assert(s1 == match found {
            Some(i) => s0.remove(i as int),
            None => s0,
        });
        self.declarations.push(decl);
        self.source_texts.push(owned(source));
        assert(strings_view(self.source_texts@) =~= s1.push(source@));
        self.context.add_declaration(name.as_str(), kind);
        let mut message = owned(if redefined {
            "Redefined "
        } else {
            "Defined "
        });
        message.append(kind);
        message.append(" ");
        message.append(name.as_str());
        let r = Ok(EvalResult::Defined { name, kind: owned(kind), message });
        proof {
            let o = *old(self);
            let found = find_decl(o.decls(), decl.spec_name(), 0);
            assert(kind@ == decl_kind(decl));
            assert(found is Some <==> redefined);
            assert(self.decls() == match found {
                Some(i) => o.decls().remove(i as int),
                None => o.decls(),
            }.push(decl));
            assert(self.sources() == match found {
                Some(i) => o.sources().remove(i as int),
                None => o.sources(),
            }.push(source@));
            assert(self.hist() == o.hist());
            assert(self.cfg() == o.cfg());
            lemma_definition_replaces(o, *self, decl, source@, r);
        }
        r
    }

    /// Checks the syntax of an expression by reading it as the body of a
    /// function; evaluating it needs WebAssembly execution, which this build
    /// does not have.
    fn try_eval_expression(&mut self, input: &str) -> (r: Result<EvalResult, ReplError>)
        ensures
            unchanged(*old(self), *final(self)),
            expression_outcome(input@, r),
    {
        let return_type = self.evaluator.infer_expression_type(input);
        let mut wrapper = owned("\npub fun dolReplEval() -> ");
        wrapper.append(return_type);
        wrapper.append(" {\n    ");
        wrapper.append(input);
        wrapper.append("\n}\n");
        let ghost w = expression_wrapper(evaluator::spec_infer_type(input@), input@);
        assert(wrapper@ =~= w);
        let mut parser = Parser::new(wrapper.as_str());
        match parser.parse() {
            Err(e) => {
                assert(parse_fails(w, 0, e));
                let wt = trim(wrapper.as_str());
                match parse_typed(wt.as_str()) {
                    None => Err(ReplError::Parse(e.message())),
                    Some(_) => Err(
                        ReplError::Feature(
                            owned(
                                "Expression evaluation requires the 'wasm' feature. Use `cargo build --features wasm` to enable.",
                            ),
                        ),
                    ),
                }
            },
            Ok(d) => {
                assert(parses_to(w, 0, d));
                Err(
                ReplError::Feature(
                    owned(
                        "Expression evaluation requires the 'wasm' feature. Use `cargo build --features wasm` to enable.",
                    ),
                ),
            )
            },
        }
    }

    /// Handle a REPL command (a line starting with `:`).
    fn handle_command(&mut self, cmd: &str) -> (r: Result<EvalResult, ReplError>)
        requires
            old(self).wf(),
        ensures
            final(self).wf(),
            command_outcome(*old(self), *final(self), cmd@, r),
    {
        let (word, args) = split_command(cmd);
        let w = word.as_str();
        if str_eq(w, ":help") || str_eq(w, ":h") || str_eq(w, ":?") {
            Ok(EvalResult::Help(owned(HELP_TEXT)))
        } else if str_eq(w, ":quit") || str_eq(w, ":q") || str_eq(w, ":exit") {
            Ok(EvalResult::Quit)
        } else if str_eq(w, ":clear") || str_eq(w, ":reset") {
            self.declarations = Vec::new();
            self.source_texts = Vec::new();
            self.context = ReplContext::new();
            assert(self.sources() =~= Seq::empty());
            Ok(EvalResult::Message(owned("Session cleared")))
        } else if str_eq(w, ":list") || str_eq(w, ":ls") {
            Ok(EvalResult::Message(self.list_message()))
        } else if str_eq(w, ":type") || str_eq(w, ":t") {
            match args {
                Some(name) => self.show_type(name.as_str()),
                None => Err(ReplError::Command(owned("Usage: :type <name>"))),
            }
        } else if str_eq(w, ":emit") || str_eq(w, ":rust") {
            if self.declarations.len() == 0 {
                Ok(EvalResult::Message(owned("No declarations to emit")))
            } else {
                Err(ReplError::Feature(owned("Rust code generation is not available in this build")))
            }
        } else if str_eq(w, ":wasm") {
            Err(ReplError::Feature(owned("wasm-compile feature not enabled")))
        } else if str_eq(w, ":shake") {
            if self.declarations.len() == 0 {
                Ok(EvalResult::Message(owned("No declarations to analyze")))
            } else {
                Err(ReplError::Feature(owned("Tree shaking is not available in this build")))
            }
        } else if str_eq(w, ":history") {
            Ok(EvalResult::Message(self.history_message()))
        } else if str_eq(w, ":load") {
            match args {
                Some(path) => {
                    let mut m = path.clone();
                    m.append(": files are read by the host program");
                    Err(ReplError::Io(m))
                },
                None => Err(ReplError::Command(owned("Usage: :load <file.dol>"))),
            }
        } else {
            let mut m = owned("Unknown command: ");
            m.append(w);
            Err(ReplError::Command(m))
        }
    }

    /// Evaluate an input line: a command (starting with `:`), nothing, a
    /// declaration, or an expression.
    #[verifier::rlimit(50)]
    #[verifier::spinoff_prover]
    pub fn eval(&mut self, input: &str) -> (r: Result<EvalResult, ReplError>)
        requires
            old(self).wf(),
        ensures
            final(self).wf(),
            ({
                let t = spec_trim(input@);
                if t.len() > 0 && t[0] == ':' {
                    command_outcome(*old(self), *final(self), t, r)
                } else if t.len() == 0 {
                    r matches Ok(EvalResult::Empty) && unchanged(*old(self), *final(self))
                } else {
                    &&& final(self).hist() == old(self).hist().push(t)
                    &&& {
                        ||| exists|d: Declaration| parses_to(t, 0, d) && declared(
                            *old(self),
                            *final(self),
                            d,
                            t,
                            r,
                        ) // a declaration
                        ||| (exists|e: ParseError| parse_fails(t, 0, e)) && exists|d: Declaration|
                            spec_typed(t) == Some(declaration_view(d)) && declared(
                                *old(self),
                                *final(self),
                                d,
                                t,
                                r,
                            ) // a typed declaration
                        ||| (exists|e: ParseError| parse_fails(t, 0, e)) && spec_typed(t) is None
                            && expression_outcome(t, r)
                            && final(self).decls() == old(self).decls()
                            && final(self).sources() == old(self).sources()
                            && final(self).ctx() == old(self).ctx()
                    }
                }
            }),
    {
        let trimmed = trim(input);
        let t = trimmed.as_str();
        let tc = chars_of(t);
        if tc.len() > 0 && tc[0] == ':' {
            return self.handle_command(t);
        }
        if tc.len() == 0 {
            return Ok(EvalResult::Empty);
        }
        let ghost h0 = self.hist();
        self.history.push(owned(t));
        assert(self.hist() =~= h0.push(t@));
        assert(self.wf());
        let ghost ts = t@;
        let mut parser = Parser::new(t);
        match parser.parse() {
            Ok(decl) => {
                let ghost before = *self;
                let r = self.process_declaration(decl, t);
                assert(before.decls() == old(self).decls());
                assert(before.sources() == old(self).sources());
                assert(before.ctx() == old(self).ctx());
                assert(parses_to(ts, 0, decl) && declared(*old(self), *self, decl, ts, r));
                r
            },
            Err(e) => {
                assert(parse_fails(ts, 0, e));
                match parse_typed(t) {
                    Some(decl) => {
                        let ghost before = *self;
                        let r = self.process_declaration(decl, t);
                        assert(before.decls() == old(self).decls());
                        assert(before.sources() == old(self).sources());
                        assert(before.ctx() == old(self).ctx());
                        assert(spec_typed(ts) == Some(declaration_view(decl)) && declared(
                            *old(self),
                            *self,
                            decl,
                            ts,
                            r,
                        ));
                        return r;
                    },
                    None => {},
                }
                let ghost before = *self;
                assert(before.wf());
                let r = self.try_eval_expression(t);
                assert(unchanged(before, *self));
                assert(self.wf());
                assert(self.hist() == old(self).hist().push(ts));
                r
            },
        }
    }

    /// Loads the declaration that a file holds, from the file's text
    /// `source` (read by the host program from `path`).
    pub fn load_source(&mut self, path: &str, source: &str) -> (r: Result<EvalResult, ReplError>)
        requires
            old(self).wf(),
        ensures
            final(self).wf(),
            ({
                ||| exists|d: Declaration, r0: Result<EvalResult, ReplError>|
                    parses_to(source@, 0, d) && declared(*old(self), *final(self), d, source@, r0)
                        && is_message(r, "Loaded 1 declarations from "@ + path@)
                ||| exists|e: ParseError|
                    parse_fails(source@, 0, e) && unchanged(*old(self), *final(self)) && (r matches Err(ReplError::Parse(m)) && m@
                        == e.spec_message())
            }),
    {
        let mut parser = Parser::new(source);
        match parser.parse() {
            Ok(decl) => {
                let r0 = self.process_declaration(decl, source);
                let mut m = owned("Loaded 1 declarations from ");
                m.append(path);
                Ok(EvalResult::Message(m))
            },
            Err(e) => Err(ReplError::Parse(e.message())),
        }
    }
}

impl Default for SpiritRepl {
    /// A REPL with the default configuration.
    fn default() -> (r: SpiritRepl)
        ensures
            r.wf(),
            r.decls().len() == 0,
            r.hist().len() == 0,
    {
        SpiritRepl::new()
    }
}

} // verus!

//! The REPL evaluator: the type it infers for an expression, the program it
//! builds around the expression, and the results and errors of evaluation.
//! Compiling to WebAssembly is not available in this build: evaluation
//! reports that.

use vstd::prelude::*;

use std::collections::HashMap;

use crate::text::{
    chars_of, contains, is_ascii_alphanumeric, is_ascii_digit, owned, spec_is_ascii_alnum,
    spec_is_digit, seq_contains, spec_trim, str_eq, trim,
};

verus! {

/// Result of REPL evaluation.
#[derive(Debug, Clone)]
pub enum EvalResult {
    /// Empty input (no-op)
    Empty,
    /// Declaration was defined
    Defined {
        /// Name of the declaration
        name: String,
        /// Kind of declaration (gene, fun, etc.)
        kind: String,
        /// Status message
        message: String,
    },
    /// Expression was evaluated
    Expression {
        /// The input expression
        input: String,
        /// The evaluated value as a string
        value: String,
    },
    /// REPL command help
    Help(String),
    /// Quit signal
    Quit,
    /// Generic message
    Message(String),
    /// Type information
    TypeInfo(String),
    /// Emitted Rust code
    RustCode(String),
    /// WASM compilation info
    WasmInfo {
        /// Size of WASM binary in bytes
        size_bytes: usize,
        /// Number of functions
        functions: usize,
        /// Whether module uses memory
        has_memory: bool,
    },
}

/// Evaluation error types.
#[derive(Debug, Clone)]
pub enum EvalError {
    /// Parse error
    Parse(String),
    /// Compilation error
    Compile(String),
    /// Runtime error
    Runtime(String),
    /// Feature not available
    Feature(String),
}

impl EvalError {
    /// The error's message.
    pub open spec fn spec_message(&self) -> Seq<char> {
        match self {
            EvalError::Parse(m) => "Parse error: "@ + m@,
            EvalError::Compile(m) => "Compile error: "@ + m@,
            EvalError::Runtime(m) => "Runtime error: "@ + m@,
            EvalError::Feature(m) => "Feature error: "@ + m@,
        }
    }

    /// The error's message, as displayed.
    pub fn message(&self) -> (r: String)
        ensures
            r@ == self.spec_message(),
    {
        let (prefix, m) = match self {
            EvalError::Parse(m) => ("Parse error: ", m),
            EvalError::Compile(m) => ("Compile error: ", m),
            EvalError::Runtime(m) => ("Runtime error: ", m),
            EvalError::Feature(m) => ("Feature error: ", m),
        };
        let mut s = owned(prefix);
        s.append(m.as_str());
        s
    }
}

// ---------------------------------------------------------------------------
// Type inference
// ---------------------------------------------------------------------------

/// A character allowed in a float literal besides digits and dots.
pub open spec fn float_char(c: char) -> bool {
    spec_is_digit(c) || c == 'e' || c == 'E' || c == '+' || c == '_'
}

/// Every character of `s` other than `.` and `-` may appear in a float.
pub open spec fn looks_float(s: Seq<char>) -> bool {
    forall|k: int| 0 <= k < s.len() && s[k] != '.' && s[k] != '-' ==> #[trigger] float_char(s[k])
}

/// Every character of `s` other than `-` and `_` is a digit.
pub open spec fn looks_int(s: Seq<char>) -> bool {
    forall|k: int| 0 <= k < s.len() && s[k] != '-' && s[k] != '_' ==> #[trigger] spec_is_digit(s[k])
}

/// A character that belongs to a token: an ASCII letter or digit, `.` or
/// `_`.
pub open spec fn token_char(c: char) -> bool {
    spec_is_ascii_alnum(c) || c == '.' || c == '_'
}

/// A token that reads as a float: it holds a dot, and its other characters
/// are digits, `e`, `E` or `_`.
pub open spec fn float_token(t: Seq<char>) -> bool {
    t.contains('.') && forall|k: int|
        0 <= k < t.len() && t[k] != '.' ==> spec_is_digit(#[trigger] t[k]) || t[k] == 'e' || t[k]
            == 'E' || t[k] == '_'
}

/// Some token of `s` reads as a float, the token before `s` being `cur`.
pub open spec fn has_float_token(s: Seq<char>, cur: Seq<char>) -> bool
    decreases s.len(),
{
    if s.len() == 0 {
        float_token(cur)
    } else if token_char(s[0]) {
        has_float_token(s.drop_first(), cur.push(s[0]))
    } else {
        float_token(cur) || has_float_token(s.drop_first(), Seq::empty())
    }
}

/// The type inferred for an expression.
pub open spec fn spec_infer_type(expr: Seq<char>) -> Seq<char> {
    let e = spec_trim(expr);
    if e == "true"@ || e == "false"@ {
        "bool"@
    } else if e.contains('.') && (exists|k: int| 0 <= k < e.len() && spec_is_digit(#[trigger] e[k]))
        && looks_float(e) {
        "f64"@
    } else if looks_int(e) && e.len() > 0 {
        "i64"@
    } else if seq_contains(e, "f64"@) || seq_contains(e, "Float64"@) {
        "f64"@
    } else if has_float_token(e, Seq::empty()) {
        "f64"@
    } else {
        "i64"@
    }
}

/// Whether every character of `v` other than `.` and `-` may appear in a
/// float.
fn all_float_chars(v: &Vec<char>) -> (r: bool)
    ensures
        r == looks_float(v@),
{
    let mut i: usize = 0;
    while i < v.len()
        invariant
            i <= v@.len(),
            forall|k: int| 0 <= k < i && v@[k] != '.' && v@[k] != '-' ==> #[trigger] float_char(v@[k]),
        decreases v.len() - i,
    {
        let c = v[i];
        if c != '.' && c != '-' && !(is_ascii_digit(c) || c == 'e' || c == 'E' || c == '+' || c
            == '_') {
            assert(!float_char(v@[i as int]));
            return false;
        }
        i = i + 1;
    }
    true
}

/// Whether every character of `v` other than `-` and `_` is a digit.
fn all_int_chars(v: &Vec<char>) -> (r: bool)
    ensures
        r == looks_int(v@),
{
    let mut i: usize = 0;
    while i < v.len()
        invariant
            i <= v@.len(),
            forall|k: int| 0 <= k < i && v@[k] != '-' && v@[k] != '_' ==> #[trigger] spec_is_digit(v@[k]),
        decreases v.len() - i,
    {
        let c = v[i];
        if c != '-' && c != '_' && !is_ascii_digit(c) {
            return false;
        }
        i = i + 1;
    }
    true
}

/// Whether `v` holds an ASCII digit.
fn any_digit(v: &Vec<char>) -> (r: bool)
    ensures
        r == exists|k: int| 0 <= k < v@.len() && spec_is_digit(#[trigger] v@[k]),
{
    let mut i: usize = 0;
    while i < v.len()
        invariant
            i <= v@.len(),
            forall|k: int| 0 <= k < i ==> !spec_is_digit(#[trigger] v@[k]),
        decreases v.len() - i,
    {
        if is_ascii_digit(v[i]) {
            return true;
        }
        i = i + 1;
    }
    false
}

/// Whether the token `t` reads as a float.
fn is_float_token(t: &Vec<char>) -> (r: bool)
    ensures
        r == float_token(t@),
{
    let mut has_dot = false;
    let mut i: usize = 0;
    while i < t.len()
        invariant
            i <= t@.len(),
            has_dot == t@.take(i as int).contains('.'),
            forall|k: int|
                0 <= k < i && t@[k] != '.' ==> spec_is_digit(#[trigger] t@[k]) || t@[k] == 'e'
                    || t@[k] == 'E' || t@[k] == '_',
        decreases t.len() - i,
    {
        let c = t[i];
        proof {
            let a = t@.take(i as int);
            let b = t@.take(i + 1);
            assert(b =~= a.push(c));
            if c == '.' {
                assert(b[i as int] == '.');
            }
            if a.contains('.') {
                let j = choose|j: int| 0 <= j < a.len() && a[j] == '.';
                assert(b[j] == '.');
            }
            if b.contains('.') {
                let j = choose|j: int| 0 <= j < b.len() && b[j] == '.';
                if j < i {
                    assert(a[j] == '.');
                }
            }
        }
        if c == '.' {
            has_dot = true;
        } else if !(is_ascii_digit(c) || c == 'e' || c == 'E' || c == '_') {
            return false;
        }
        i = i + 1;
    }
    assert(t@.take(t@.len() as int) =~= t@);
    has_dot
}

/// Whether some token of `v` reads as a float.
fn find_float_token(v: &Vec<char>) -> (r: bool)
    ensures
        r == has_float_token(v@, Seq::empty()),
{
    let mut cur: Vec<char> = Vec::new();
    let mut i: usize = 0;
    assert(v@.skip(0) =~= v@);
    while i < v.len()
        invariant
            i <= v@.len(),
            has_float_token(v@, Seq::empty()) == has_float_token(v@.skip(i as int), cur@),
        decreases v.len() - i,
    {
        let c = v[i];
        assert(v@.skip(i as int).drop_first() =~= v@.skip(i + 1));
        assert(v@.skip(i as int)[0] == c);
        if is_ascii_alphanumeric(c) || c == '.' || c == '_' {
            cur.push(c);
        } else {
            if is_float_token(&cur) {
                return true;
            }
            cur = Vec::new();
            assert(cur@ =~= Seq::<char>::empty());
        }
        i = i + 1;
    }
    is_float_token(&cur)
}

/// Evaluator for DOL expressions and declarations.
#[derive(Debug)]
pub struct ReplEvaluator {
    /// Cached WASM modules by declaration set hash
    pub wasm_cache: HashMap<u64, Vec<u8>>,
    /// Optimization level
    pub optimize: bool,
    /// Include debug info
    pub debug_info: bool,
}

impl ReplEvaluator {
    /// Create a new evaluator with default settings: no optimization, with
    /// debug info, and an empty cache.
    pub fn new() -> (r: ReplEvaluator)
        ensures
            !r.optimize,
            r.debug_info,
            r.wasm_cache@ == Map::<u64, Vec<u8>>::empty(),
    {
        ReplEvaluator { wasm_cache: HashMap::new(), optimize: false, debug_info: true }
    }

    /// Create an optimizing evaluator, without debug info.
    pub fn optimized() -> (r: ReplEvaluator)
        ensures
            r.optimize,
            !r.debug_info,
            r.wasm_cache@ == Map::<u64, Vec<u8>>::empty(),
    {
        ReplEvaluator { wasm_cache: HashMap::new(), optimize: true, debug_info: false }
    }

    /// Enable or disable optimization.
    pub fn with_optimization(self, enable: bool) -> (r: ReplEvaluator)
        ensures
            r.optimize == enable,
            r.debug_info == self.debug_info,
            r.wasm_cache@ == self.wasm_cache@,
    {
        let mut e = self;
        e.optimize = enable;
        e
    }

    /// Enable or disable debug info.
    pub fn with_debug_info(self, enable: bool) -> (r: ReplEvaluator)
        ensures
            r.debug_info == enable,
            r.optimize == self.optimize,
            r.wasm_cache@ == self.wasm_cache@,
    {
        let mut e = self;
        e.debug_info = enable;
        e
    }

    /// Compile DOL source to WASM bytecode: not available in this build.
    pub fn compile_to_wasm(&mut self, source: &str) -> (r: Result<Vec<u8>, EvalError>)
        ensures
            r matches Err(EvalError::Feature(m)) && m@ == "wasm-compile feature not enabled"@,
            final(self).wasm_cache@ == old(self).wasm_cache@,
            final(self).optimize == old(self).optimize,
            final(self).debug_info == old(self).debug_info,
    {
        Err(EvalError::Feature(owned("wasm-compile feature not enabled")))
    }

    /// Infer the type of an expression from its text: `bool`, `f64` or
    /// `i64`.
    pub fn infer_expression_type(&self, expr: &str) -> (r: &'static str)
        ensures
            r@ == spec_infer_type(expr@),
    {
        let trimmed = trim(expr);
        let e = trimmed.as_str();
        if str_eq(e, "true") || str_eq(e, "false") {
            return "bool";
        }
        let v = chars_of(e);
        if crate::text::contains_char(&v, '.') && any_digit(&v) {
            if all_float_chars(&v) {
                return "f64";
            }
        }
        if all_int_chars(&v) && v.len() > 0 {
            return "i64";
        }
        if contains(e, "f64") || contains(e, "Float64") {
            return "f64";
        }
        if find_float_token(&v) {
            return "f64";
        }
        "i64"
    }

    /// The program that evaluates `expr` after `declarations`: the
    /// expression is the body of a function `dolReplEval` returning
    /// `return_type`.
    pub fn eval_source(declarations: &str, return_type: &str, expr: &str) -> (r: String)
        ensures
            r@ == declarations@ + "\n\npub fun dolReplEval() -> "@ + return_type@ + " {\n    "@
                + expr@ + "\n}\n"@,
    {
        let mut s = owned(declarations);
        s.append("\n\npub fun dolReplEval() -> ");
        s.append(return_type);
        s.append(" {\n    ");
        s.append(expr);
        s.append("\n}\n");
        s
    }

    /// Evaluate an expression by wrapping it in a function of the inferred
    /// type and compiling it; compilation is not available in this build.
    pub fn eval_expression(&mut self, expr: &str, declarations: &str) -> (r: Result<String, EvalError>)
        ensures
            r matches Err(EvalError::Feature(m)) && m@ == "wasm-compile feature not enabled"@,
    {
        let return_type = self.infer_expression_type(expr);
        let source = ReplEvaluator::eval_source(declarations, return_type, expr);
        self.run(source.as_str())
    }

    /// Evaluate an expression with an explicit return type; compilation is
    /// not available in this build.
    pub fn eval_expression_typed(
        &mut self,
        expr: &str,
        declarations: &str,
        return_type: &str,
    ) -> (r: Result<String, EvalError>)
        ensures
            r matches Err(EvalError::Feature(m)) && m@ == "wasm-compile feature not enabled"@,
    {
        let source = ReplEvaluator::eval_source(declarations, return_type, expr);
        self.run(source.as_str())
    }

    /// Compiles and runs a program, giving the compiler's error.
    fn run(&mut self, source: &str) -> (r: Result<String, EvalError>)
        ensures
            r matches Err(EvalError::Feature(m)) && m@ == "wasm-compile feature not enabled"@,
    {
        match self.compile_to_wasm(source) {
            Err(e) => Err(e),
            Ok(_) => Err(EvalError::Feature(owned("wasm feature not enabled"))),
        }
    }

    /// Clear the WASM cache.
    pub fn clear_cache(&mut self)
        ensures
            final(self).wasm_cache@ == Map::<u64, Vec<u8>>::empty(),
            final(self).optimize == old(self).optimize,
            final(self).debug_info == old(self).debug_info,
    {
        self.wasm_cache.clear();
    }
}

impl Default for ReplEvaluator {
    /// An evaluator with default settings.
    fn default() -> (r: ReplEvaluator)
        ensures
            !r.optimize,
            r.debug_info,
    {
        ReplEvaluator::new()
    }
}

} // verus!

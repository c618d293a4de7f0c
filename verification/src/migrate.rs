//! Migration of DOL sources between syntax versions.
//!
//! A migration is a list of rules, each a regular expression with a
//! replacement, applied one after the other to the whole text. A rule
//! whose expression matches is recorded among the changes. The v0.7 to
//! v0.8 migration renames keywords and types and can also drop a `return`
//! before a block's final expression; the legacy v0.2 to v0.3 migration
//! renames bindings, quantifiers and predicates.
//!
//! Matching and replacing are done by the `regex` crate: their results are
//! named below and the migration is stated over those names.

use vstd::prelude::*;

use crate::text::{chars_of, owned, spec_decimal, spec_lines, split_lines, str_eq, strings_view, usize_to_string};

verus! {

// ---------------------------------------------------------------------------
// Regular expressions
// ---------------------------------------------------------------------------

/// Whether `regex::Regex::new` accepts `pattern`.
pub uninterp spec fn regex_compiles(pattern: Seq<char>) -> bool;

/// What `regex::Regex::is_match` answers for `pattern` on `text`: whether
/// the expression matches anywhere in the text.
pub uninterp spec fn regex_match(pattern: Seq<char>, text: Seq<char>) -> bool;

/// What `regex::Regex::replace_all` gives for `pattern` on `text` with
/// `replacement` (in which `$1` stands for the first group).
pub uninterp spec fn regex_replaced(pattern: Seq<char>, text: Seq<char>, replacement: Seq<char>) -> Seq<
    char,
>;

/// Compiles `pattern` with `regex::Regex::new` and tells whether it was
/// accepted.
#[verifier::external_body]
fn regex_is_valid(pattern: &str) -> (r: bool)
    ensures
        r == regex_compiles(pattern@),
{
    regex::Regex::new(pattern).is_ok()
}

/// Compiles `pattern` with `regex::Regex::new` and calls `is_match` on
/// `text`: whether the expression matches somewhere in it.
#[verifier::external_body]
fn regex_is_match(pattern: &str, text: &str) -> (r: bool)
    requires
        regex_compiles(pattern@),
    ensures
        r == regex_match(pattern@, text@),
{
    match regex::Regex::new(pattern) {
        Ok(re) => re.is_match(text),
        Err(_) => false,
    }
}

/// Compiles `pattern` with `regex::Regex::new` and calls `replace_all` on
/// `text` with `replacement`. The crate's documentation says that a text
/// with no match comes back unchanged; what a replacement gives otherwise
/// is only named.
#[verifier::external_body]
fn regex_replace_all(pattern: &str, text: &str, replacement: &str) -> (r: String)
    requires
        regex_compiles(pattern@),
    ensures
        r@ == regex_replaced(pattern@, text@, replacement@),
        !regex_match(pattern@, text@) ==> r@ == text@,
{
    match regex::Regex::new(pattern) {
        Ok(re) => re.replace_all(text, replacement).into_owned(),
        Err(_) => text.to_string(),
    }
}

// ---------------------------------------------------------------------------
// The rules
// ---------------------------------------------------------------------------

/// The v0.7 to v0.8 rules: expression, description and replacement.
pub open spec fn v08_rules() -> Seq<(Seq<char>, Seq<char>, Seq<char>)> {
    seq![
        (r"\bgene\b"@, "gene → gen"@, "gen"@),
        (r"\bconstraint\b"@, "constraint → rule"@, "rule"@),
        (r"\bevolves\b"@, "evolves → evo"@, "evo"@),
        (r"\bexegesis\b"@, "exegesis → docs"@, "docs"@),
        (r"\bInt8\b"@, "Int8 → i8"@, "i8"@),
        (r"\bInt16\b"@, "Int16 → i16"@, "i16"@),
        (r"\bInt32\b"@, "Int32 → i32"@, "i32"@),
        (r"\bInt64\b"@, "Int64 → i64"@, "i64"@),
        (r"\bUInt8\b"@, "UInt8 → u8"@, "u8"@),
        (r"\bUInt16\b"@, "UInt16 → u16"@, "u16"@),
        (r"\bUInt32\b"@, "UInt32 → u32"@, "u32"@),
        (r"\bUInt64\b"@, "UInt64 → u64"@, "u64"@),
        (r"\bFloat32\b"@, "Float32 → f32"@, "f32"@),
        (r"\bFloat64\b"@, "Float64 → f64"@, "f64"@),
        (r"\bBool\b"@, "Bool → bool"@, "bool"@),
        (r"\bString\b"@, "String → string"@, "string"@),
        (r"\bVoid\b"@, "Void → ()"@, "()"@),
        (r"\bList<([^>]+)>"@, "List<T> → Vec<T>"@, "Vec<$1>"@),
        (r"\bOptional<([^>]+)>"@, "Optional<T> → Option<T>"@, "Option<$1>"@),
    ]
}

/// The expression of a `return` before the closing brace of a block.
pub open spec fn return_pattern() -> Seq<char> {
    r"(?m)^\s*return\s+([^;\n]+)\s*\n\s*}"@
}

/// The v0.2 to v0.3 rules: expression and replacement.
pub open spec fn v02_rules() -> Seq<(Seq<char>, Seq<char>)> {
    seq![
        (r"\blet\s+mut\s+(\w+)"@, "var $1"@),
        (r"\blet\s+(\w+)"@, "val $1"@),
        (r"\beach\s+(\w+)\s+in\b"@, "forall $1 in"@),
        (r"\ball\s+(\w+)\s+in\b"@, "forall $1 in"@),
        (r"\bmodule\s+"@, "mod "@),
        (r"\bnever\s+"@, "not "@),
        (r"\bderives\s+from\s+"@, "extends "@),
        (r"\bmatches\s+"@, "== "@),
        (r"\bgiven\s+(\w+)\s*="@, "val $1 ="@),
        (r"\bthen\s+"@, "assert "@),
    ]
}

/// Every expression of the v0.7 to v0.8 migration compiles (the return
/// expression too, when `modernize` asks for it).
pub open spec fn v08_rules_compile(modernize: bool) -> bool {
    &&& forall|i: int| 0 <= i < v08_rules().len() ==> regex_compiles(#[trigger] v08_rules()[i].0)
    &&& modernize ==> regex_compiles(return_pattern())
}

/// Every expression of the v0.2 to v0.3 migration compiles.
pub open spec fn v02_rules_compile() -> bool {
    forall|i: int| 0 <= i < v02_rules().len() ==> regex_compiles(#[trigger] v02_rules()[i].0)
}

// ---------------------------------------------------------------------------
// Applying rules
// ---------------------------------------------------------------------------

/// The text and changes after applying `rules` in order to `text`: a rule
/// that matches replaces all its matches and records its description.
pub open spec fn apply_v08(rules: Seq<(Seq<char>, Seq<char>, Seq<char>)>, text: Seq<char>) -> (
    Seq<char>,
    Seq<Seq<char>>,
)
    decreases rules.len(),
{
    if rules.len() == 0 {
        (text, Seq::empty())
    } else {
        let (t, cs) = apply_v08(rules.drop_last(), text);
        let r = rules.last();
        if regex_match(r.0, t) {
            (regex_replaced(r.0, t, r.2), cs.push(r.1))
        } else {
            (t, cs)
        }
    }
}

/// The description of the `return` rule.
pub open spec fn return_change() -> Seq<char> {
    "return <expr> → <expr> (final expression)"@
}

/// The v0.7 to v0.8 migration of `source`: migrated text and changes.
pub open spec fn spec_migrate_v08(source: Seq<char>, modernize: bool) -> (Seq<char>, Seq<Seq<char>>) {
    let (t, cs) = apply_v08(v08_rules(), source);
    if modernize && regex_match(return_pattern(), t) {
        (regex_replaced(return_pattern(), t, "$1\n}"@), cs.push(return_change()))
    } else {
        (t, cs)
    }
}

/// The text and changes after applying the legacy `rules` in order to
/// `text`; a rule is recorded as `pattern -> replacement`.
pub open spec fn apply_v02(rules: Seq<(Seq<char>, Seq<char>)>, text: Seq<char>) -> (
    Seq<char>,
    Seq<Seq<char>>,
)
    decreases rules.len(),
{
    if rules.len() == 0 {
        (text, Seq::empty())
    } else {
        let (t, cs) = apply_v02(rules.drop_last(), text);
        let r = rules.last();
        if regex_match(r.0, t) {
            (regex_replaced(r.0, t, r.1), cs.push(r.0 + " -> "@ + r.1))
        } else {
            (t, cs)
        }
    }
}

/// The rules of the v0.7 to v0.8 migration: expression, description and
/// replacement.
pub fn get_migrations_v07_to_v08() -> (r: Vec<(&'static str, &'static str, &'static str)>)
    ensures
        r@.map_values(|e: (&'static str, &'static str, &'static str)| (e.0@, e.1@, e.2@))
            == v08_rules(),
{
    let r = vec![
        (r"\bgene\b", "gene → gen", "gen"),
        (r"\bconstraint\b", "constraint → rule", "rule"),
        (r"\bevolves\b", "evolves → evo", "evo"),
        (r"\bexegesis\b", "exegesis → docs", "docs"),
        (r"\bInt8\b", "Int8 → i8", "i8"),
        (r"\bInt16\b", "Int16 → i16", "i16"),
        (r"\bInt32\b", "Int32 → i32", "i32"),
        (r"\bInt64\b", "Int64 → i64", "i64"),
        (r"\bUInt8\b", "UInt8 → u8", "u8"),
        (r"\bUInt16\b", "UInt16 → u16", "u16"),
        (r"\bUInt32\b", "UInt32 → u32", "u32"),
        (r"\bUInt64\b", "UInt64 → u64", "u64"),
        (r"\bFloat32\b", "Float32 → f32", "f32"),
        (r"\bFloat64\b", "Float64 → f64", "f64"),
        (r"\bBool\b", "Bool → bool", "bool"),
        (r"\bString\b", "String → string", "string"),
        (r"\bVoid\b", "Void → ()", "()"),
        (r"\bList<([^>]+)>", "List<T> → Vec<T>", "Vec<$1>"),
        (r"\bOptional<([^>]+)>", "Optional<T> → Option<T>", "Option<$1>"),
    ];
    assert(r@.map_values(|e: (&'static str, &'static str, &'static str)| (e.0@, e.1@, e.2@))
        =~= v08_rules());
    r
}

/// The expression of a `return` before the closing brace of a block.
pub fn get_return_modernization_regex() -> (r: &'static str)
    ensures
        r@ == return_pattern(),
{
    r"(?m)^\s*return\s+([^;\n]+)\s*\n\s*}"
}

/// The rules of the v0.2 to v0.3 migration: expression and replacement.
pub fn migrations_v02_to_v03() -> (r: Vec<(&'static str, &'static str)>)
    ensures
        r@.map_values(|e: (&'static str, &'static str)| (e.0@, e.1@)) == v02_rules(),
{
    let r = vec![
        (r"\blet\s+mut\s+(\w+)", "var $1"),
        (r"\blet\s+(\w+)", "val $1"),
        (r"\beach\s+(\w+)\s+in\b", "forall $1 in"),
        (r"\ball\s+(\w+)\s+in\b", "forall $1 in"),
        (r"\bmodule\s+", "mod "),
        (r"\bnever\s+", "not "),
        (r"\bderives\s+from\s+", "extends "),
        (r"\bmatches\s+", "== "),
        (r"\bgiven\s+(\w+)\s*=", "val $1 ="),
        (r"\bthen\s+", "assert "),
    ];
    assert(r@.map_values(|e: (&'static str, &'static str)| (e.0@, e.1@)) =~= v02_rules());
    r
}

/// Applies the v0.7 to v0.8 rules to `source` (and, when `modernize` is
/// set, drops a `return` before a block's final expression), with the
/// descriptions of the rules that matched.
pub fn migrate_v07_to_v08(source: &str, modernize: bool) -> (r: (String, Vec<String>))
    requires
        v08_rules_compile(modernize),
    ensures
        (r.0@, strings_view(r.1@)) == spec_migrate_v08(source@, modernize),
{
    let mut result = owned(source);
    let mut changes: Vec<String> = Vec::new();
    let rules = get_migrations_v07_to_v08();
    let ghost rv = v08_rules();
    let mut i: usize = 0;
    while i < rules.len()
        invariant
            i <= rules@.len(),
            rules@.map_values(|e: (&'static str, &'static str, &'static str)| (e.0@, e.1@, e.2@))
                == rv,
            rv == v08_rules(),
            v08_rules_compile(modernize),
            (result@, strings_view(changes@)) == apply_v08(rv.take(i as int), source@),
        decreases rules.len() - i,
    {
        let (pattern, description, replacement) = rules[i];
        assert(rv.take(i + 1).drop_last() =~= rv.take(i as int));
        assert(rv[i as int] == (pattern@, description@, replacement@));
        assert(regex_compiles(rv[i as int].0));
        if regex_is_match(pattern, result.as_str()) {
            let ghost before = strings_view(changes@);
            changes.push(owned(description));
            assert(strings_view(changes@) =~= before.push(description@));
            result = regex_replace_all(pattern, result.as_str(), replacement);
        }
        i = i + 1;
    }
    assert(rv.take(rules.len() as int) =~= rv);
    if modernize {
        let return_regex = get_return_modernization_regex();
        if regex_is_match(return_regex, result.as_str()) {
            let ghost before = strings_view(changes@);
            changes.push(owned("return <expr> → <expr> (final expression)"));
            assert(strings_view(changes@) =~= before.push(return_change()));
            result = regex_replace_all(return_regex, result.as_str(), "$1\n}");
        }
    }
    (result, changes)
}

/// Applies the v0.2 to v0.3 rules to `source`, with each rule that matched
/// recorded as `pattern -> replacement`.
pub fn migrate_v02_to_v03(source: &str) -> (r: (String, Vec<String>))
    requires
        v02_rules_compile(),
    ensures
        (r.0@, strings_view(r.1@)) == apply_v02(v02_rules(), source@),
{
    let mut result = owned(source);
    let mut changes: Vec<String> = Vec::new();
    let rules = migrations_v02_to_v03();
    let ghost rv = v02_rules();
    let mut i: usize = 0;
    while i < rules.len()
        invariant
            i <= rules@.len(),
            rules@.map_values(|e: (&'static str, &'static str)| (e.0@, e.1@)) == rv,
            rv == v02_rules(),
            v02_rules_compile(),
            (result@, strings_view(changes@)) == apply_v02(rv.take(i as int), source@),
        decreases rules.len() - i,
    {
        let (pattern, replacement) = rules[i];
        assert(rv.take(i + 1).drop_last() =~= rv.take(i as int));
        assert(rv[i as int] == (pattern@, replacement@));
        assert(regex_compiles(rv[i as int].0));
        if regex_is_match(pattern, result.as_str()) {
            let mut change = owned(pattern);
            change.append(" -> ");
            change.append(replacement);
            let ghost before = strings_view(changes@);
            changes.push(change);
            assert(strings_view(changes@) =~= before.push(pattern@ + " -> "@ + replacement@));
            result = regex_replace_all(pattern, result.as_str(), replacement);
        }
        i = i + 1;
    }
    assert(rv.take(rules.len() as int) =~= rv);
    (result, changes)
}

/// Checks that every expression of the v0.7 to v0.8 migration compiles.
pub fn v08_rules_are_valid(modernize: bool) -> (r: bool)
    ensures
        r == v08_rules_compile(modernize),
{
    let rules = get_migrations_v07_to_v08();
    let ghost rv = v08_rules();
    let mut i: usize = 0;
    while i < rules.len()
        invariant
            i <= rules@.len(),
            rules@.map_values(|e: (&'static str, &'static str, &'static str)| (e.0@, e.1@, e.2@))
                == rv,
            rv == v08_rules(),
            forall|j: int| 0 <= j < i ==> regex_compiles(#[trigger] rv[j].0),
        decreases rules.len() - i,
    {
        assert(rv[i as int].0 == rules@[i as int].0@);
        if !regex_is_valid(rules[i].0) {
            return false;
        }
        i = i + 1;
    }
    if modernize {
        regex_is_valid(get_return_modernization_regex())
    } else {
        true
    }
}

/// Checks that every expression of the v0.2 to v0.3 migration compiles.
pub fn v02_rules_are_valid() -> (r: bool)
    ensures
        r == v02_rules_compile(),
{
    let rules = migrations_v02_to_v03();
    let ghost rv = v02_rules();
    let mut i: usize = 0;
    while i < rules.len()
        invariant
            i <= rules@.len(),
            rules@.map_values(|e: (&'static str, &'static str)| (e.0@, e.1@)) == rv,
            rv == v02_rules(),
            forall|j: int| 0 <= j < i ==> regex_compiles(#[trigger] rv[j].0),
        decreases rules.len() - i,
    {
        assert(rv[i as int].0 == rules@[i as int].0@);
        if !regex_is_valid(rules[i].0) {
            return false;
        }
        i = i + 1;
    }
    true
}

/// The v0.7 to v0.8 migration of `source`, or `None` when one of its
/// expressions does not compile.
pub fn try_migrate_v07_to_v08(source: &str, modernize: bool) -> (r: Option<(String, Vec<String>)>)
    ensures
        match r {
            Some(m) => v08_rules_compile(modernize) && (m.0@, strings_view(m.1@))
                == spec_migrate_v08(source@, modernize),
            None => !v08_rules_compile(modernize),
        },
{
    if v08_rules_are_valid(modernize) {
        Some(migrate_v07_to_v08(source, modernize))
    } else {
        None
    }
}

/// The v0.2 to v0.3 migration of `source`, or `None` when one of its
/// expressions does not compile.
pub fn try_migrate_v02_to_v03(source: &str) -> (r: Option<(String, Vec<String>)>)
    ensures
        match r {
            Some(m) => v02_rules_compile() && (m.0@, strings_view(m.1@)) == apply_v02(
                v02_rules(),
                source@,
            ),
            None => !v02_rules_compile(),
        },
{
    if v02_rules_are_valid() {
        Some(migrate_v02_to_v03(source))
    } else {
        None
    }
}

/// Rules none of which matches `text` leave it as it is, with no change
/// recorded.
proof fn lemma_apply_v08_unmatched(rules: Seq<(Seq<char>, Seq<char>, Seq<char>)>, text: Seq<char>)
    requires
        forall|i: int| 0 <= i < rules.len() ==> !regex_match(#[trigger] rules[i].0, text),
    ensures
        apply_v08(rules, text) == (text, Seq::<Seq<char>>::empty()),
    decreases rules.len(),
{
    if rules.len() > 0 {
        assert forall|i: int| 0 <= i < rules.drop_last().len() implies !regex_match(
            #[trigger] rules.drop_last()[i].0,
            text,
        ) by {
            assert(rules.drop_last()[i] == rules[i]);
        }
        lemma_apply_v08_unmatched(rules.drop_last(), text);
        assert(rules[rules.len() - 1] == rules.last());
    }
}

/// Legacy rules none of which matches `text` leave it as it is, with no
/// change recorded.
proof fn lemma_apply_v02_unmatched(rules: Seq<(Seq<char>, Seq<char>)>, text: Seq<char>)
    requires
        forall|i: int| 0 <= i < rules.len() ==> !regex_match(#[trigger] rules[i].0, text),
    ensures
        apply_v02(rules, text) == (text, Seq::<Seq<char>>::empty()),
    decreases rules.len(),
{
    if rules.len() > 0 {
        assert forall|i: int| 0 <= i < rules.drop_last().len() implies !regex_match(
            #[trigger] rules.drop_last()[i].0,
            text,
        ) by {
            assert(rules.drop_last()[i] == rules[i]);
        }
        lemma_apply_v02_unmatched(rules.drop_last(), text);
        assert(rules[rules.len() - 1] == rules.last());
    }
}

/// A source in which no expression of the v0.7 to v0.8 migration matches
/// (nor, when modernizing, the `return` expression) is left unchanged,
/// with no change recorded.
pub proof fn lemma_v08_unmatched_source_unchanged(source: Seq<char>, modernize: bool)
    requires
        forall|i: int| 0 <= i < v08_rules().len() ==> !regex_match(#[trigger] v08_rules()[i].0, source),
        modernize ==> !regex_match(return_pattern(), source),
    ensures
        spec_migrate_v08(source, modernize) == (source, Seq::<Seq<char>>::empty()),
{
    lemma_apply_v08_unmatched(v08_rules(), source);
}

/// A source in which no expression of the v0.2 to v0.3 migration matches
/// is left unchanged, with no change recorded.
pub proof fn lemma_v02_unmatched_source_unchanged(source: Seq<char>)
    requires
        forall|i: int| 0 <= i < v02_rules().len() ==> !regex_match(#[trigger] v02_rules()[i].0, source),
    ensures
        apply_v02(v02_rules(), source) == (source, Seq::<Seq<char>>::empty()),
{
    lemma_apply_v02_unmatched(v02_rules(), source);
}

/// A migration records at most one change per rule (and one for the
/// `return` rule).
pub proof fn lemma_v08_changes_bounded(source: Seq<char>, modernize: bool)
    ensures
        spec_migrate_v08(source, modernize).1.len() <= v08_rules().len() + 1,
{
    lemma_apply_v08_len(v08_rules(), source);
}

/// Applying rules records at most one change per rule.
proof fn lemma_apply_v08_len(rules: Seq<(Seq<char>, Seq<char>, Seq<char>)>, text: Seq<char>)
    ensures
        apply_v08(rules, text).1.len() <= rules.len(),
    decreases rules.len(),
{
    if rules.len() > 0 {
        lemma_apply_v08_len(rules.drop_last(), text);
    }
}

// ---------------------------------------------------------------------------
// Results and diffs
// ---------------------------------------------------------------------------

/// Migration result of one file.
#[derive(Debug)]
pub struct MigrationResult {
    /// The file's path
    pub path: String,
    /// Its text before the migration
    pub original: String,
    /// Its text after the migration
    pub migrated: String,
    /// The changes that were applied
    pub changes: Vec<String>,
}

/// `n` right-aligned in a field four characters wide.
pub open spec fn pad4(n: nat) -> Seq<char> {
    let d = spec_decimal(n);
    if d.len() < 4 {
        Seq::new((4 - d.len()) as nat, |i: int| ' ') + d
    } else {
        d
    }
}

/// The diff lines for the line pairs of `a` and `b` from index `from` on
/// up to `to`: for each pair that differs, its number, the old line and
/// the new line.
pub open spec fn diff_lines(a: Seq<Seq<char>>, b: Seq<Seq<char>>, to: nat) -> Seq<char>
    decreases to,
{
    if to == 0 {
        Seq::empty()
    } else {
        let i = (to - 1) as nat;
        let prev = diff_lines(a, b, i);
        if a[i as int] != b[i as int] {
            prev + pad4(i + 1) + " - "@ + a[i as int] + "\n"@ + pad4(i + 1) + " + "@ + b[i as int]
                + "\n"@
        } else {
            prev
        }
    }
}

/// The diff of a migration result: empty when nothing changed, else a
/// header naming the file and the differing lines of the two texts, pair
/// by pair.
pub open spec fn spec_diff(path: Seq<char>, original: Seq<char>, migrated: Seq<char>) -> Seq<char> {
    if original == migrated {
        Seq::empty()
    } else {
        let a = spec_lines(original);
        let b = spec_lines(migrated);
        let n = if a.len() < b.len() {
            a.len()
        } else {
            b.len()
        };
        "--- "@ + path + "\n"@ + "+++ "@ + path + "\n"@ + diff_lines(a, b, n)
    }
}

/// `n` right-aligned in a field four characters wide.
fn pad_number(n: usize) -> (r: String)
    ensures
        r@ == pad4(n as nat),
{
    let d = usize_to_string(n);
    let dc = chars_of(d.as_str());
    if dc.len() < 4 {
        let mut out = String::new();
        let mut k: usize = dc.len();
        while k < 4
            invariant
                dc.len() <= k <= 4,
                out@ == Seq::new((k - dc.len()) as nat, |i: int| ' '),
            decreases 4 - k,
        {
            crate::text::push_char(&mut out, ' ');
            assert(out@ =~= Seq::new((k + 1 - dc.len()) as nat, |i: int| ' '));
            k = k + 1;
        }
        out.append(d.as_str());
        out
    } else {
        d
    }
}

impl MigrationResult {
    /// Whether the migration changed the text.
    pub fn has_changes(&self) -> (r: bool)
        ensures
            r == (self.original@ != self.migrated@),
    {
        !str_eq(self.original.as_str(), self.migrated.as_str())
    }

    /// The diff of the migration: a header naming the file, then, for each
    /// pair of lines (up to the shorter text) that differ, the line number
    /// with the old and the new line; empty when nothing changed.
    pub fn generate_diff(&self) -> (r: String)
        ensures
            r@ == spec_diff(self.path@, self.original@, self.migrated@),
    {
        if !self.has_changes() {
            return String::new();
        }
        let mut diff = owned("--- ");
        diff.append(self.path.as_str());
        diff.append("\n");
        diff.append("+++ ");
        diff.append(self.path.as_str());
        diff.append("\n");
        let a = split_lines(self.original.as_str());
        let b = split_lines(self.migrated.as_str());
        let n = if a.len() < b.len() {
            a.len()
        } else {
            b.len()
        };
        let ghost head = diff@;
        let ghost av = strings_view(a@);
        let ghost bv = strings_view(b@);
        let mut i: usize = 0;
        while i < n
            invariant
                i <= n,
                n <= a@.len(),
                n <= b@.len(),
                av == strings_view(a@),
                bv == strings_view(b@),
                diff@ == head + diff_lines(av, bv, i as nat),
            decreases n - i,
        {
            let orig = a[i].as_str();
            let migr = b[i].as_str();
            assert(av[i as int] == orig@ && bv[i as int] == migr@);
            if !str_eq(orig, migr) {
                let num = pad_number(i + 1);
                diff.append(num.as_str());
                diff.append(" - ");
                diff.append(orig);
                diff.append("\n");
                diff.append(num.as_str());
                diff.append(" + ");
                diff.append(migr);
                diff.append("\n");
            }
            i = i + 1;
        }
        diff
    }
}

} // verus!

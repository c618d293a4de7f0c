//! Typed declarations at the REPL: blocks of typed fields
//! (`gen Point { has x: i64 }`, also under `gene` or `trait`) and functions
//! (`pub fun add(a: i64, b: i64) -> i64 { a + b }`).
//!
//! A field block is read word by word: the keyword, the name, `{`, then
//! `has name: Type` for each field, then `}`. A function is read by its
//! punctuation: `fun` (after `pub`, if public), the name up to `(`, the
//! parameters up to `)`, `->`, the return type up to `{`, and a body that is
//! one brace block closing at the end of the input.

use vstd::prelude::*;

use crate::ast::{Declaration, FunctionDecl, GenDecl, TypedField};
use crate::mcp::handlers::{constraint_items, split_constraints};
use crate::parse_determinism::typed_fields_view;
use crate::text::{
    before_char, chars_of, owned, prefix_len, seq_starts_with, spec_is_ascii_alnum,
    spec_is_ascii_letter, spec_trim, spec_words, split_words, starts_with, str_eq,
    string_from_range, strings_view, trim,
};

verus! {

// ---------------------------------------------------------------------------
// The forms
// ---------------------------------------------------------------------------

/// Whether `w` is an identifier: an ASCII letter or `_`, then ASCII letters,
/// digits or `_`.
pub open spec fn is_ident(w: Seq<char>) -> bool {
    &&& w.len() > 0
    &&& spec_is_ascii_letter(w[0]) || w[0] == '_'
    &&& forall|i: int| 0 <= i < w.len() ==> spec_is_ascii_alnum(#[trigger] w[i]) || w[i] == '_'
}

/// The keyword of a field block: `gen` or `gene` (not a trait), or `trait`.
pub open spec fn block_keyword(w: Seq<char>) -> Option<bool> {
    if w == "gen"@ || w == "gene"@ {
        Some(false)
    } else if w == "trait"@ {
        Some(true)
    } else {
        None
    }
}

/// The `j`-th field of a field block's words is `has name: Type`.
pub open spec fn field_ok(ws: Seq<Seq<char>>, j: int) -> bool {
    let n = ws[4 + 3 * j];
    &&& ws[3 + 3 * j] == "has"@
    &&& n.len() >= 2
    &&& n.last() == ':'
    &&& is_ident(n.drop_last())
    &&& is_ident(ws[5 + 3 * j])
}

/// The number of fields of a field block's words.
pub open spec fn field_count(ws: Seq<Seq<char>>) -> int {
    (ws.len() - 4) / 3
}

/// The fields of a field block's words, as (name, type).
pub open spec fn block_fields(ws: Seq<Seq<char>>) -> Seq<(Seq<char>, Seq<char>)> {
    Seq::new(field_count(ws) as nat, |j: int| (ws[4 + 3 * j].drop_last(), ws[5 + 3 * j]))
}

/// The field block that `t` is: whether it is a trait, its name and its
/// fields.
pub open spec fn spec_block(t: Seq<char>) -> Option<(bool, Seq<char>, Seq<(Seq<char>, Seq<char>)>)> {
    let ws = spec_words(t);
    if ws.len() >= 4 && (ws.len() - 4) % 3 == 0 && block_keyword(ws[0]) is Some && is_ident(ws[1])
        && ws[2] == "{"@ && ws.last() == "}"@ && (forall|j: int|
        0 <= j < field_count(ws) ==> #[trigger] field_ok(ws, j)) {
        Some((block_keyword(ws[0])->0, ws[1], block_fields(ws)))
    } else {
        None
    }
}

/// How many more `{` than `}` the text holds.
pub open spec fn brace_depth(s: Seq<char>) -> int
    decreases s.len(),
{
    if s.len() == 0 {
        0
    } else {
        brace_depth(s.drop_last()) + if s.last() == '{' {
            1int
        } else if s.last() == '}' {
            -1int
        } else {
            0int
        }
    }
}

/// Whether `s` is one brace block: it opens with `{`, every proper prefix
/// leaves a brace open, and the whole closes them all.
pub open spec fn one_block(s: Seq<char>) -> bool {
    &&& s.len() >= 2
    &&& s[0] == '{'
    &&& brace_depth(s) == 0
    &&& forall|k: int| 1 <= k < s.len() ==> brace_depth(#[trigger] s.take(k)) > 0
}

/// A parameter `name: Type`.
pub open spec fn spec_param(p: Seq<char>) -> Option<(Seq<char>, Seq<char>)> {
    let k = prefix_len(p, ':');
    let name = spec_trim(p.take(k as int));
    let ty = spec_trim(p.skip(k + 1int));
    if k < p.len() && is_ident(name) && is_ident(ty) {
        Some((name, ty))
    } else {
        None
    }
}

/// The parameters between the parentheses: none, or comma-separated
/// `name: Type` items.
pub open spec fn spec_params(text: Seq<char>) -> Option<Seq<(Seq<char>, Seq<char>)>> {
    let items = constraint_items(text);
    if spec_trim(text).len() == 0 {
        Some(Seq::empty())
    } else if forall|i: int| 0 <= i < items.len() ==> (#[trigger] spec_param(items[i])) is Some {
        Some(items.map_values(|p: Seq<char>| spec_param(p)->0))
    } else {
        None
    }
}

/// A function: whether it is public, its name, parameters, return type and
/// body.
pub type FunView = (bool, Seq<char>, Seq<(Seq<char>, Seq<char>)>, Seq<char>, Seq<char>);

/// The function that `t` is.
pub open spec fn spec_function(t: Seq<char>) -> Option<FunView> {
    let public = seq_starts_with(t, "pub fun "@);
    if !public && !seq_starts_with(t, "fun "@) {
        None
    } else {
        let r1 = if public { t.skip(8) } else { t.skip(4) };
        let i = prefix_len(r1, '(');
        let name = spec_trim(r1.take(i as int));
        let r2 = r1.skip(i + 1int);
        let j = prefix_len(r2, ')');
        let r3 = spec_trim(r2.skip(j + 1int));
        let r4 = r3.skip(2);
        let b = prefix_len(r4, '{');
        let ret = spec_trim(r4.take(b as int));
        let body = r4.skip(b as int);
        if i < r1.len() && is_ident(name) && j < r2.len() && seq_starts_with(r3, "->"@) && b < r4.len()
            && is_ident(ret) && one_block(body) && spec_params(r2.take(j as int)) is Some {
            Some((public, name, spec_params(r2.take(j as int))->0, ret, body))
        } else {
            None
        }
    }
}

/// The typed declaration that the input `t` is, by its view.
pub open spec fn spec_typed(t: Seq<char>) -> Option<crate::parse_determinism::DeclarationView> {
    match spec_block(t) {
        Some((tr, name, fields)) => Some(crate::parse_determinism::DeclarationView::Gen(tr, name, fields)),
        None => match spec_function(t) {
            Some((p, name, params, ret, body)) => Some(
                crate::parse_determinism::DeclarationView::Function(p, name, params, ret, body),
            ),
            None => None,
        },
    }
}

// ---------------------------------------------------------------------------
// Reading them
// ---------------------------------------------------------------------------

/// Whether `w` is an identifier.
pub fn ident(w: &str) -> (r: bool)
    ensures
        r == is_ident(w@),
{
    let v = chars_of(w);
    if v.len() == 0 {
        return false;
    }
    let c0 = v[0];
    if !(('a' <= c0 && c0 <= 'z') || ('A' <= c0 && c0 <= 'Z') || c0 == '_') {
        return false;
    }
    let mut i: usize = 0;
    while i < v.len()
        invariant
            i <= v@.len(),
            v@ == w@,
            forall|k: int| 0 <= k < i ==> spec_is_ascii_alnum(#[trigger] v@[k]) || v@[k] == '_',
        decreases v.len() - i,
    {
        let c = v[i];
        if !(('a' <= c && c <= 'z') || ('A' <= c && c <= 'Z') || ('0' <= c && c <= '9') || c == '_') {
            assert(!(spec_is_ascii_alnum(w@[i as int]) || w@[i as int] == '_'));
            return false;
        }
        i = i + 1;
    }
    true
}

/// Reads the field `has name: Type` at words `3 + 3j` to `5 + 3j`.
fn read_field(ws: &Vec<String>, j: usize, base: usize) -> (r: Option<TypedField>)
    requires
        base == 3 + 3 * j,
        base + 2 < ws.len(),
    ensures
        match r {
            Some(f) => field_ok(strings_view(ws@), j as int) && f.name@ == strings_view(ws@)[4 + 3
                * j].drop_last() && f.ty@ == strings_view(ws@)[5 + 3 * j],
            None => !field_ok(strings_view(ws@), j as int),
        },
{
    let ghost wv = strings_view(ws@);
    assert(wv[3 + 3 * j] == ws@[3 + 3 * j]@);
    assert(wv[4 + 3 * j] == ws@[4 + 3 * j]@);
    assert(wv[5 + 3 * j] == ws@[5 + 3 * j]@);
    if !str_eq(ws[base].as_str(), "has") {
        return None;
    }
    let nc = chars_of(ws[base + 1].as_str());
    if nc.len() < 2 || nc[nc.len() - 1] != ':' {
        return None;
    }
    let name = string_from_range(&nc, 0, nc.len() - 1);
    assert(name@ =~= wv[4 + 3 * j].drop_last());
    if !ident(name.as_str()) || !ident(ws[base + 2].as_str()) {
        return None;
    }
    Some(TypedField { name, ty: owned(ws[base + 2].as_str()), constraint: None, crdt_annotation: None })
}

/// Reads a field block: `gen`, `gene` or `trait`, a name, `{`, fields, `}`.
pub fn parse_block(t: &str) -> (r: Option<Declaration>)
    ensures
        match r {
            Some(d) => spec_block(t@) matches Some(v) && d matches Declaration::Gen(g) && g.is_trait
                == v.0 && g.name@ == v.1 && typed_fields_view(g.fields@) == v.2,
            None => spec_block(t@) is None,
        },
{
    let ws = split_words(t);
    let ghost wv = strings_view(ws@);
    let n = ws.len();
    if n < 4 || (n - 4) % 3 != 0 {
        return None;
    }
    assert(wv[0] == ws@[0]@ && wv[1] == ws@[1]@ && wv[2] == ws@[2]@);
    assert(wv.last() == ws@[n - 1]@);
    let is_trait = if str_eq(ws[0].as_str(), "gen") || str_eq(ws[0].as_str(), "gene") {
        false
    } else if str_eq(ws[0].as_str(), "trait") {
        true
    } else {
        return None;
    };
    if !ident(ws[1].as_str()) || !str_eq(ws[2].as_str(), "{") || !str_eq(ws[n - 1].as_str(), "}") {
        return None;
    }
    let count = (n - 4) / 3;
    assert(count == field_count(wv));
    let mut fields: Vec<TypedField> = Vec::new();
    let mut j: usize = 0;
    assert(n - 4 == 3 * count) by (nonlinear_arith)
        requires
            count == (n - 4) / 3,
            (n - 4) % 3 == 0,
            n >= 4,
    ;
    while j < count
        invariant
            j <= count,
            n - 4 == 3 * count,
            wv == spec_words(t@),
            count == field_count(wv),
            wv == strings_view(ws@),
            n == ws@.len(),
            n >= 4,
            (n - 4) % 3 == 0,
            forall|k: int| 0 <= k < j ==> #[trigger] field_ok(wv, k),
            typed_fields_view(fields@) == block_fields(wv).take(j as int),
        decreases count - j,
    {
        assert(3 + 3 * j + 2 < n);
        match read_field(&ws, j, 3 + 3 * j) {
            Some(f) => {
                let ghost before = typed_fields_view(fields@);
                let ghost fv = (f.name@, f.ty@);
                fields.push(f);
                assert(typed_fields_view(fields@) =~= before.push(fv));
                assert(block_fields(wv).take(j + 1) =~= block_fields(wv).take(j as int).push(fv));
            },
            None => {
                assert(!field_ok(wv, j as int));
                return None;
            },
        }
        j = j + 1;
    }
    assert(block_fields(wv).take(count as int) =~= block_fields(wv));
    let name = owned(ws[1].as_str());
    Some(Declaration::Gen(GenDecl { is_trait, name, fields }))
}

/// Whether `v` is one brace block closing at its end.
fn is_one_block(v: &Vec<char>) -> (r: bool)
    ensures
        r == one_block(v@),
{
    if v.len() < 2 || v[0] != '{' {
        return false;
    }
    let mut opens: usize = 0;
    let mut closes: usize = 0;
    let mut i: usize = 0;
    assert(v@.take(0) =~= Seq::<char>::empty());
    while i < v.len()
        invariant
            i <= v@.len(),
            v@.len() >= 2,
            opens + closes <= i,
            opens - closes == brace_depth(v@.take(i as int)),
            forall|k: int| 1 <= k <= i && k < v@.len() ==> brace_depth(#[trigger] v@.take(k)) > 0,
        decreases v.len() - i,
    {
        assert(v@.take(i + 1).drop_last() =~= v@.take(i as int));
        assert(v@.take(i + 1).last() == v@[i as int]);
        let c = v[i];
        if c == '{' {
            opens = opens + 1;
        } else if c == '}' {
            closes = closes + 1;
        }
        if i + 1 < v.len() && opens <= closes {
            return false;
        }
        i = i + 1;
    }
    assert(v@.take(v@.len() as int) =~= v@);
    opens == closes
}

/// Reads a parameter `name: Type`.
fn read_param(p: &str) -> (r: Option<TypedField>)
    ensures
        match r {
            Some(f) => spec_param(p@) == Some((f.name@, f.ty@)),
            None => spec_param(p@) is None,
        },
{
    let before = before_char(p, ':');
    let pc = chars_of(p);
    let bc = chars_of(before.as_str());
    let k = bc.len();
    if k >= pc.len() {
        return None;
    }
    let name = trim(before.as_str());
    let rest = string_from_range(&pc, k + 1, pc.len());
    assert(rest@ =~= p@.skip(k + 1int));
    let ty = trim(rest.as_str());
    if ident(name.as_str()) && ident(ty.as_str()) {
        Some(TypedField { name, ty: ty, constraint: None, crdt_annotation: None })
    } else {
        None
    }
}

/// Reads the parameters between the parentheses.
fn read_params(text: &str) -> (r: Option<Vec<TypedField>>)
    ensures
        match r {
            Some(ps) => spec_params(text@) == Some(typed_fields_view(ps@)),
            None => spec_params(text@) is None,
        },
{
    let tt = trim(text);
    let ttc = chars_of(tt.as_str());
    if ttc.len() == 0 {
        let out: Vec<TypedField> = Vec::new();
        assert(typed_fields_view(out@) =~= Seq::<(Seq<char>, Seq<char>)>::empty());
        return Some(out);
    }
    let items = split_constraints(text);
    let ghost iv = strings_view(items@);
    let mut out: Vec<TypedField> = Vec::new();
    let mut i: usize = 0;
    while i < items.len()
        invariant
            i <= items@.len(),
            iv == strings_view(items@),
            iv == constraint_items(text@),
            spec_trim(text@).len() > 0,
            forall|k: int| 0 <= k < i ==> (#[trigger] spec_param(iv[k])) is Some,
            typed_fields_view(out@) == iv.take(i as int).map_values(|p: Seq<char>| spec_param(p)->0),
        decreases items.len() - i,
    {
        assert(iv[i as int] == items@[i as int]@);
        match read_param(items[i].as_str()) {
            Some(f) => {
                let ghost before = typed_fields_view(out@);
                let ghost fv = (f.name@, f.ty@);
                out.push(f);
                assert(typed_fields_view(out@) =~= before.push(fv));
                assert(iv.take(i + 1).map_values(|p: Seq<char>| spec_param(p)->0) =~= iv.take(
                    i as int,
                ).map_values(|p: Seq<char>| spec_param(p)->0).push(fv));
            },
            None => {
                assert(spec_param(iv[i as int]) is None);
                return None;
            },
        }
        i = i + 1;
    }
    assert(iv.take(items@.len() as int) =~= iv);
    Some(out)
}

/// The rest of `v` from index `from`.
fn rest_from(v: &Vec<char>, from: usize) -> (r: Vec<char>)
    requires
        from <= v@.len(),
    ensures
        r@ == v@.skip(from as int),
{
    let s = string_from_range(v, from, v.len());
    assert(s@ =~= v@.skip(from as int));
    chars_of(s.as_str())
}

/// Reads a function: `[pub] fun name(params) -> Type { body }`.
#[verifier::rlimit(50)]
pub fn parse_function(t: &str) -> (r: Option<Declaration>)
    ensures
        match r {
            Some(d) => spec_function(t@) matches Some(v) && d matches Declaration::Function(f)
                && f.is_public == v.0 && f.name@ == v.1 && typed_fields_view(f.params@) == v.2
                && f.return_type@ == v.3 && f.body@ == v.4,
            None => spec_function(t@) is None,
        },
{
    proof {
        reveal_strlit("pub fun ");
        reveal_strlit("fun ");
        reveal_strlit("->");
    }
    let public = starts_with(t, "pub fun ");
    if !public && !starts_with(t, "fun ") {
        return None;
    }
    let tc = chars_of(t);
    let r1 = rest_from(&tc, if public { 8 } else { 4 });
    let r1s = string_from_chars_local(&r1);
    let before_paren = before_char(r1s.as_str(), '(');
    let i = chars_of(before_paren.as_str()).len();
    if i >= r1.len() {
        return None;
    }
    let name = trim(before_paren.as_str());
    if !ident(name.as_str()) {
        return None;
    }
    let r2 = rest_from(&r1, i + 1);
    let r2s = string_from_chars_local(&r2);
    let ptext = before_char(r2s.as_str(), ')');
    let j = chars_of(ptext.as_str()).len();
    if j >= r2.len() {
        return None;
    }
    let r3s = trim(string_from_chars_local(&rest_from(&r2, j + 1)).as_str());
    if !starts_with(r3s.as_str(), "->") {
        return None;
    }
    let r3 = chars_of(r3s.as_str());
    let r4 = rest_from(&r3, 2);
    let r4s = string_from_chars_local(&r4);
    let before_brace = before_char(r4s.as_str(), '{');
    let b = chars_of(before_brace.as_str()).len();
    if b >= r4.len() {
        return None;
    }
    let ret = trim(before_brace.as_str());
    if !ident(ret.as_str()) {
        return None;
    }
    let body = rest_from(&r4, b);
    if !is_one_block(&body) {
        return None;
    }
    match read_params(ptext.as_str()) {
        None => None,
        Some(params) => Some(
            Declaration::Function(
                FunctionDecl {
                    is_public: public,
                    name,
                    params,
                    return_type: ret,
                    body: string_from_chars_local(&body),
                },
            ),
        ),
    }
}

/// A string of the characters of `v`.
fn string_from_chars_local(v: &Vec<char>) -> (r: String)
    ensures
        r@ == v@,
{
    crate::text::string_from_chars(v)
}

/// Reads a typed declaration: a field block, or else a function.
pub fn parse_typed(t: &str) -> (r: Option<Declaration>)
    ensures
        match r {
            Some(d) => spec_typed(t@) == Some(crate::parse_determinism::declaration_view(d)),
            None => spec_typed(t@) is None,
        },
{
    match parse_block(t) {
        Some(d) => Some(d),
        None => parse_function(t),
    }
}

} // verus!

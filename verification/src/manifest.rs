//! Spirit manifests (`Spirit.dol`): the package a spirit declares, its
//! dependencies, configuration and exported modules, and what is read off
//! a manifest once it is built.

use vstd::prelude::*;

use crate::ast::{ImportSource, Span, Version, Visibility};
use crate::error::ParseError;
use crate::lexer::TokenKind;
use crate::mcp::handlers::{lemma_split_nonempty, spec_split, split_on};
use crate::parser::{lemma_token_stream_ends, lx, sp, tk, Parser};
use crate::text::{
    chars_of, opt_string_view, owned, parse_u64_or_zero, prefix_len, spec_decimal, str_eq, string_from_range,
    strings_view, u64_or_zero, u64_to_string,
};

verus! {

/// A parsed Spirit.dol manifest.
#[derive(Debug)]
pub struct SpiritManifest {
    /// Spirit name (e.g., "container")
    pub name: String,
    /// Spirit version
    pub version: Version,
    /// Spirit documentation
    pub docs: Option<String>,
    /// Dependencies on other packages
    pub dependencies: Vec<Dependency>,
    /// Spirit configuration
    pub config: SpiritConfig,
    /// Module declarations
    pub modules: Vec<ModuleExport>,
    /// Source span
    pub span: Span,
}

/// A dependency declaration in a spirit manifest.
#[derive(Debug)]
pub struct Dependency {
    /// Import source (registry, git, https)
    pub source: ImportSource,
    /// Path within the package
    pub path: Vec<String>,
    /// Version constraint (e.g., "^1.0", ">=0.5.0")
    pub version_constraint: Option<String>,
    /// Source span
    pub span: Span,
}

/// Spirit configuration options.
#[derive(Debug)]
pub struct SpiritConfig {
    /// Entry point file (default: "lib.dol")
    pub entry: String,
    /// Compilation target (default: "wasm32")
    pub target: String,
    /// Enabled features
    pub features: Vec<String>,
    /// Source span
    pub span: Span,
}

impl Default for SpiritConfig {
    /// No entry, no target, no features, and an empty span.
    fn default() -> (r: SpiritConfig)
        ensures
            r.entry@ == Seq::<char>::empty(),
            r.target@ == Seq::<char>::empty(),
            r.features@.len() == 0,
            r.span == (Span { start: 0, end: 0, line: 0, column: 0 }),
    {
        SpiritConfig {
            entry: String::new(),
            target: String::new(),
            features: Vec::new(),
            span: Span { start: 0, end: 0, line: 0, column: 0 },
        }
    }
}

/// A module export declaration.
#[derive(Debug)]
pub struct ModuleExport {
    /// Module visibility
    pub visibility: Visibility,
    /// Module name
    pub name: String,
    /// Source span
    pub span: Span,
}

/// The text of a version: `major.minor.patch`, then `-suffix` if there is
/// one.
pub open spec fn version_text(v: Version) -> Seq<char> {
    spec_decimal(v.major as nat) + "."@ + spec_decimal(v.minor as nat) + "."@ + spec_decimal(
        v.patch as nat,
    ) + match v.suffix {
        Some(s) => "-"@ + s@,
        None => Seq::empty(),
    }
}

impl Version {
    /// The version as text (what `Display` prints).
    pub fn text(&self) -> (r: String)
        ensures
            r@ == version_text(*self),
    {
        let mut s = u64_to_string(self.major);
        s.append(".");
        s.append(u64_to_string(self.minor).as_str());
        s.append(".");
        s.append(u64_to_string(self.patch).as_str());
        match &self.suffix {
            Some(x) => {
                s.append("-");
                s.append(x.as_str());
            },
            None => {},
        }
        s
    }
}

/// Whether a module export is public.
pub open spec fn is_public_export(m: ModuleExport) -> bool {
    m.visibility == Visibility::Public
}

impl SpiritManifest {
    /// The entry file that a manifest names: its configured entry, or
    /// `lib.dol` when none is configured.
    pub open spec fn spec_entry_file(&self) -> Seq<char> {
        if self.config.entry@.len() == 0 {
            "lib.dol"@
        } else {
            self.config.entry@
        }
    }

    /// Returns the spirit's qualified name with version: `name @ version`.
    pub fn qualified_name(&self) -> (r: String)
        ensures
            r@ == self.name@ + " @ "@ + version_text(self.version),
    {
        let mut s = owned(self.name.as_str());
        s.append(" @ ");
        s.append(self.version.text().as_str());
        s
    }

    /// Returns the entry point file path.
    pub fn entry_file(&self) -> (r: &str)
        ensures
            r@ == self.spec_entry_file(),
    {
        proof {
            reveal_strlit("");
            assert(self.config.entry@.len() == 0 ==> self.config.entry@ =~= ""@);
        }
        if str_eq(self.config.entry.as_str(), "") {
            "lib.dol"
        } else {
            self.config.entry.as_str()
        }
    }

    /// Returns the public modules, in the order they were declared.
    pub fn public_modules(&self) -> (r: Vec<&ModuleExport>)
        ensures
            r@.map_values(|m: &ModuleExport| *m) == self.modules@.filter(
                |m: ModuleExport| is_public_export(m),
            ),
    {
        let mut out: Vec<&ModuleExport> = Vec::new();
        let mut i: usize = 0;
        while i < self.modules.len()
            invariant
                i <= self.modules@.len(),
                out@.map_values(|m: &ModuleExport| *m) == self.modules@.take(i as int).filter(
                    |m: ModuleExport| is_public_export(m),
                ),
            decreases self.modules.len() - i,
        {
            proof {
                assert(self.modules@.take(i + 1).drop_last() =~= self.modules@.take(i as int));
                reveal(Seq::filter);
            }
            let m = &self.modules[i];
            let ghost before = out@.map_values(|m: &ModuleExport| *m);
            if m.visibility == Visibility::Public {
                out.push(m);
                assert(out@.map_values(|m: &ModuleExport| *m) =~= before.push(*m));
            }
            i = i + 1;
        }
        assert(self.modules@.take(self.modules@.len() as int) =~= self.modules@);
        out
    }
}


// ---------------------------------------------------------------------------
// Reading a manifest
// ---------------------------------------------------------------------------

/// Token `k` is the bare word `w`.
pub open spec fn is_word(s: Seq<char>, k: nat, w: Seq<char>) -> bool {
    tk(s, k) == TokenKind::Identifier && lx(s, k) == w
}

/// Token `k` is the punctuation character `c`, which the lexer passes on
/// as a token of its own.
pub open spec fn is_punct(s: Seq<char>, k: nat, c: char) -> bool {
    tk(s, k) == TokenKind::Error && lx(s, k) == seq![c]
}

/// Token `k` may serve as a name: an identifier or a keyword.
pub open spec fn is_name(s: Seq<char>, k: nat) -> bool {
    tk(s, k) == TokenKind::Identifier || tk(s, k).spec_is_keyword()
}

/// What went wrong while reading a manifest: a token other than the one
/// wanted stands at `at`, or a version lacks its three parts (reported
/// where the token after it stands).
pub enum ManifestFault {
    Unexpected { expected: Seq<char>, at: nat },
    VersionParts { at: nat },
}

/// `e` is the error that reports fault `f` in source `s`.
pub open spec fn fault_is(e: ParseError, f: ManifestFault, s: Seq<char>) -> bool {
    match f {
        ManifestFault::Unexpected { expected, at } => e matches ParseError::UnexpectedToken {
            expected: x,
            found: y,
            span,
        } && x@ == expected && y@ == tk(s, at).spec_debug_name() && span == sp(s, at),
        ManifestFault::VersionParts { at } => e matches ParseError::InvalidStatement {
            message,
            span,
        } && message@ == "version must have three parts (X.Y.Z)"@ && span == sp(s, at),
    }
}

/// A version read from its text: major, minor, patch and suffix.
#[verifier::ext_equal]
pub struct VersionModel {
    pub major: u64,
    pub minor: u64,
    pub patch: u64,
    pub suffix: Option<Seq<char>>,
}

/// The model of a version.
pub open spec fn version_model(v: Version) -> VersionModel {
    VersionModel {
        major: v.major,
        minor: v.minor,
        patch: v.patch,
        suffix: match v.suffix {
            Some(x) => Some(x@),
            None => None,
        },
    }
}

/// The text of a version model, as `version_text` gives it.
pub open spec fn model_text(v: VersionModel) -> Seq<char> {
    spec_decimal(v.major as nat) + "."@ + spec_decimal(v.minor as nat) + "."@ + spec_decimal(
        v.patch as nat,
    ) + match v.suffix {
        Some(x) => "-"@ + x,
        None => Seq::empty(),
    }
}

/// The version that the text `w` spells: the part before the first `-`
/// split at dots into three numbers (each 0 where it is not one), and what
/// follows that `-` as the suffix; `None` unless there are three parts.
pub open spec fn version_of(w: Seq<char>) -> Option<VersionModel> {
    let n = prefix_len(w, '-');
    let ps = spec_split(w.take(n as int), '.');
    if ps.len() != 3 {
        None
    } else {
        Some(
            VersionModel {
                major: u64_or_zero(ps[0]),
                minor: u64_or_zero(ps[1]),
                patch: u64_or_zero(ps[2]),
                suffix: if n < w.len() {
                    Some(w.skip(n + 1int))
                } else {
                    None
                },
            },
        )
    }
}

/// The number of leading double quotes of `w`.
pub open spec fn lead_quotes(w: Seq<char>) -> nat
    decreases w.len(),
{
    if w.len() > 0 && w[0] == '"' {
        1 + lead_quotes(w.drop_first())
    } else {
        0
    }
}

/// The number of trailing double quotes of `w`.
pub open spec fn trail_quotes(w: Seq<char>) -> nat
    decreases w.len(),
{
    if w.len() > 0 && w.last() == '"' {
        1 + trail_quotes(w.drop_last())
    } else {
        0
    }
}

/// `w` without its leading and trailing double quotes.
pub open spec fn trim_quotes(w: Seq<char>) -> Seq<char> {
    let r = w.skip(lead_quotes(w) as int);
    r.take(r.len() - trail_quotes(r))
}

/// A version token at `k`.
pub open spec fn version_at(s: Seq<char>, k: nat) -> Result<(VersionModel, nat), ManifestFault> {
    if tk(s, k) != TokenKind::Version {
        Err(ManifestFault::Unexpected { expected: "version"@, at: k })
    } else {
        match version_of(lx(s, k)) {
            Some(v) => Ok((v, k + 1)),
            None => Err(ManifestFault::VersionParts { at: k + 1 }),
        }
    }
}

/// A string token at `k`, without quotes.
pub open spec fn string_at(s: Seq<char>, k: nat) -> Result<(Seq<char>, nat), ManifestFault> {
    if tk(s, k) == TokenKind::String {
        Ok((trim_quotes(lx(s, k)), k + 1))
    } else {
        Err(ManifestFault::Unexpected { expected: "string"@, at: k })
    }
}

/// A name at `k`.
pub open spec fn name_at(s: Seq<char>, k: nat) -> Result<(Seq<char>, nat), ManifestFault> {
    if is_name(s, k) {
        Ok((lx(s, k), k + 1))
    } else {
        Err(ManifestFault::Unexpected { expected: "identifier"@, at: k })
    }
}

/// The enough-steps budget for a loop over the tokens of `s`.
pub open spec fn budget(s: Seq<char>) -> nat {
    s.len() + 2
}

/// The strings of a list from token `k` on, after `acc`, up to its `]` or
/// the end of input.
pub open spec fn strings_from(s: Seq<char>, k: nat, acc: Seq<Seq<char>>, fuel: nat) -> Result<
    (Seq<Seq<char>>, nat),
    ManifestFault,
>
    decreases fuel,
{
    if fuel == 0 || is_punct(s, k, ']') || tk(s, k) == TokenKind::Eof {
        Ok((acc, k))
    } else {
        match string_at(s, k) {
            Err(f) => Err(f),
            Ok((v, k1)) => strings_from(
                s,
                if is_punct(s, k1, ',') {
                    k1 + 1
                } else {
                    k1
                },
                acc.push(v),
                (fuel - 1) as nat,
            ),
        }
    }
}

/// A list of strings `[ "a", "b" ]` at `k`.
pub open spec fn string_array(s: Seq<char>, k: nat) -> Result<(Seq<Seq<char>>, nat), ManifestFault> {
    if !is_punct(s, k, '[') {
        Err(ManifestFault::Unexpected { expected: "LeftBracket"@, at: k })
    } else {
        match strings_from(s, k + 1, Seq::empty(), budget(s)) {
            Err(f) => Err(f),
            Ok((items, k2)) => if is_punct(s, k2, ']') {
                Ok((items, k2 + 1))
            } else {
                Err(ManifestFault::Unexpected { expected: "RightBracket"@, at: k2 })
            },
        }
    }
}

/// The first `]` or end of input from token `k`.
pub open spec fn bracket_end(s: Seq<char>, k: nat, fuel: nat) -> nat
    decreases fuel,
{
    if fuel == 0 || is_punct(s, k, ']') || tk(s, k) == TokenKind::Eof {
        k
    } else {
        bracket_end(s, k + 1, (fuel - 1) as nat)
    }
}

/// Where a brace block from token `k`, `depth` braces deep, has been
/// passed.
pub open spec fn brace_end(s: Seq<char>, k: nat, depth: nat, fuel: nat) -> nat
    decreases fuel,
{
    if fuel == 0 || depth == 0 || tk(s, k) == TokenKind::Eof {
        k
    } else if tk(s, k) == TokenKind::LeftBrace {
        brace_end(s, k + 1, depth + 1, (fuel - 1) as nat)
    } else if tk(s, k) == TokenKind::RightBrace {
        brace_end(s, k + 1, (depth - 1) as nat, (fuel - 1) as nat)
    } else {
        brace_end(s, k + 1, depth, (fuel - 1) as nat)
    }
}

/// Where a configuration value of an unknown key at `k` ends.
pub open spec fn skip_value(s: Seq<char>, k: nat) -> nat {
    if tk(s, k) == TokenKind::String || tk(s, k) == TokenKind::Identifier || tk(s, k)
        == TokenKind::Version {
        k + 1
    } else if is_punct(s, k, '[') {
        bracket_end(s, k + 1, budget(s)) + 1
    } else if tk(s, k) == TokenKind::LeftBrace {
        brace_end(s, k + 1, 1, budget(s))
    } else {
        k + 1
    }
}

/// The configuration read so far: entry, target and features.
#[verifier::ext_equal]
pub struct ConfigModel {
    pub entry: Seq<char>,
    pub target: Seq<char>,
    pub features: Seq<Seq<char>>,
    pub span: Span,
}

/// The value of one configuration entry for `key` at `k`, applied to `c`.
pub open spec fn config_value(s: Seq<char>, key: Seq<char>, k: nat, c: ConfigModel) -> Result<
    (ConfigModel, nat),
    ManifestFault,
> {
    if key == "entry"@ {
        match string_at(s, k) {
            Err(f) => Err(f),
            Ok((v, k1)) => Ok((ConfigModel { entry: v, ..c }, k1)),
        }
    } else if key == "target"@ {
        match name_at(s, k) {
            Err(f) => Err(f),
            Ok((v, k1)) => Ok((ConfigModel { target: v, ..c }, k1)),
        }
    } else if key == "features"@ {
        match string_array(s, k) {
            Err(f) => Err(f),
            Ok((v, k1)) => Ok((ConfigModel { features: v, ..c }, k1)),
        }
    } else {
        Ok((c, skip_value(s, k)))
    }
}

/// One entry of a configuration block at `k`: `key: value`, then an
/// optional comma.
#[verifier::opaque]
pub open spec fn entry_step(s: Seq<char>, k: nat, c: ConfigModel) -> Result<(ConfigModel, nat), ManifestFault> {
    match name_at(s, k) {
        Err(f) => Err(f),
        Ok((key, k1)) => if !is_punct(s, k1, ':') {
            Err(ManifestFault::Unexpected { expected: "Colon"@, at: k1 })
        } else {
            match config_value(s, key, k1 + 1, c) {
                Err(f) => Err(f),
                Ok((c2, k2)) => Ok(
                    (
                        c2,
                        if is_punct(s, k2, ',') {
                            k2 + 1
                        } else {
                            k2
                        },
                    ),
                ),
            }
        },
    }
}

/// The entries of a configuration block from token `k`, up to its `}` or
/// the end of input.
pub open spec fn entries_from(s: Seq<char>, k: nat, c: ConfigModel, fuel: nat) -> Result<
    (ConfigModel, nat),
    ManifestFault,
>
    decreases fuel,
{
    if fuel == 0 || tk(s, k) == TokenKind::RightBrace || tk(s, k) == TokenKind::Eof {
        Ok((c, k))
    } else {
        match entry_step(s, k, c) {
            Err(f) => Err(f),
            Ok((c2, k2)) => entries_from(s, k2, c2, (fuel - 1) as nat),
        }
    }
}

/// A configuration block whose `config` word stands at `k`.
pub open spec fn config_at(s: Seq<char>, k: nat) -> Result<(ConfigModel, nat), ManifestFault> {
    if tk(s, k + 1) != TokenKind::LeftBrace {
        Err(ManifestFault::Unexpected { expected: "LeftBrace"@, at: k + 1 })
    } else {
        let c0 = ConfigModel {
            entry: Seq::empty(),
            target: Seq::empty(),
            features: Seq::empty(),
            span: sp(s, k),
        };
        match entries_from(s, k + 2, c0, budget(s)) {
            Err(f) => Err(f),
            Ok((c, k2)) => if tk(s, k2) != TokenKind::RightBrace {
                Err(ManifestFault::Unexpected { expected: "RightBrace"@, at: k2 })
            } else {
                Ok((ConfigModel { span: sp(s, k).spec_merge(sp(s, k2)), ..c }, k2 + 1))
            },
        }
    }
}

/// Where an import source came from, as read.
pub enum SourceModel {
    Local,
    Registry { org: Seq<char>, package: Seq<char>, version: Option<Seq<char>> },
    Git { url: Seq<char>, reference: Option<Seq<char>> },
    Https { url: Seq<char>, sha256: Option<Seq<char>> },
}

/// A dependency, as read.
#[verifier::ext_equal]
pub struct DependencyModel {
    pub source: SourceModel,
    pub path: Seq<Seq<char>>,
    pub version_constraint: Option<Seq<char>>,
    pub span: Span,
}

/// A URL from token `k`: names joined by the `/` and `.` between them.
pub open spec fn url_from(s: Seq<char>, k: nat, acc: Seq<char>, fuel: nat) -> (Seq<char>, nat)
    decreases fuel,
{
    if fuel == 0 || tk(s, k) != TokenKind::Identifier {
        (acc, k)
    } else if is_punct(s, k + 1, '/') {
        url_from(s, k + 2, acc + lx(s, k) + "/"@, (fuel - 1) as nat)
    } else if is_punct(s, k + 1, '.') {
        url_from(s, k + 2, acc + lx(s, k) + "."@, (fuel - 1) as nat)
    } else {
        (acc + lx(s, k), k + 1)
    }
}

/// The source of a dependency at `k`, with the path within it.
pub open spec fn source_at(s: Seq<char>, k: nat) -> Result<
    (SourceModel, Seq<Seq<char>>, nat),
    ManifestFault,
> {
    if tk(s, k) == TokenKind::At {
        match name_at(s, k + 1) {
            Err(f) => Err(f),
            Ok((prefix, k3)) => if prefix == "git"@ && is_punct(s, k3, ':') {
                let (url, k4) = url_from(s, k3 + 1, Seq::empty(), budget(s));
                if is_punct(s, k4, ':') {
                    match name_at(s, k4 + 1) {
                        Err(f) => Err(f),
                        Ok((r, k5)) => Ok(
                            (SourceModel::Git { url, reference: Some(r) }, Seq::empty(), k5),
                        ),
                    }
                } else {
                    Ok((SourceModel::Git { url, reference: None }, Seq::empty(), k4))
                }
            } else if prefix == "https"@ && is_punct(s, k3, ':') {
                let k4 = if lx(s, k3 + 1) == "/"@ {
                    k3 + 3
                } else {
                    k3 + 1
                };
                let (url, k5) = url_from(s, k4, Seq::empty(), budget(s));
                Ok((SourceModel::Https { url: "https://"@ + url, sha256: None }, Seq::empty(), k5))
            } else if !is_punct(s, k3, '/') {
                Err(ManifestFault::Unexpected { expected: "Slash"@, at: k3 })
            } else {
                match name_at(s, k3 + 1) {
                    Err(f) => Err(f),
                    Ok((package, k4)) => {
                        let segs = spec_split(package, '.');
                        Ok(
                            (
                                SourceModel::Registry { org: prefix, package: segs[0], version: None },
                                segs.drop_first(),
                                k4,
                            ),
                        )
                    },
                }
            },
        }
    } else {
        match name_at(s, k) {
            Err(f) => Err(f),
            Ok((ident, k1)) => Ok((SourceModel::Local, spec_split(ident, '.'), k1)),
        }
    }
}

/// A comparison that may open a version constraint.
pub open spec fn is_constraint_op(w: Seq<char>) -> bool {
    w == "^"@ || w == "~"@ || w == ">"@ || w == "<"@ || w == "="@
}

/// A version constraint at `k`: an optional comparison and a version.
pub open spec fn constraint_at(s: Seq<char>, k: nat) -> Result<(Seq<char>, nat), ManifestFault> {
    let (op, k2) = if is_constraint_op(lx(s, k)) {
        if lx(s, k + 1) == "="@ {
            (lx(s, k) + "="@, k + 2)
        } else {
            (lx(s, k), k + 1)
        }
    } else {
        (Seq::<char>::empty(), k)
    };
    match version_at(s, k2) {
        Err(f) => Err(f),
        Ok((v, k3)) => Ok((op + model_text(v), k3)),
    }
}

/// A dependency whose `use` word stands at `k`.
pub open spec fn dependency_at(s: Seq<char>, k: nat) -> Result<(DependencyModel, nat), ManifestFault> {
    match source_at(s, k + 1) {
        Err(f) => Err(f),
        Ok((source, path, k2)) => {
            let c = if tk(s, k2) == TokenKind::At {
                match constraint_at(s, k2 + 1) {
                    Err(f) => Err(f),
                    Ok((c, k3)) => Ok((Some(c), k3)),
                }
            } else {
                Ok((None, k2))
            };
            match c {
                Err(f) => Err(f),
                Ok((vc, k3)) => Ok(
                    (
                        DependencyModel {
                            source,
                            path,
                            version_constraint: vc,
                            span: sp(s, k).spec_merge(sp(s, (k3 - 1) as nat)),
                        },
                        k3,
                    ),
                ),
            }
        },
    }
}

/// A module export, as read.
#[verifier::ext_equal]
pub struct ModuleModel {
    pub visibility: Visibility,
    pub name: Seq<char>,
    pub span: Span,
}

/// The body of a manifest read so far.
#[verifier::ext_equal]
pub struct BodyModel {
    pub docs: Option<Seq<char>>,
    pub dependencies: Seq<DependencyModel>,
    pub config: ConfigModel,
    pub modules: Seq<ModuleModel>,
}

/// One item of a manifest body at `k`, applied to `b`. A token that opens
/// no item is passed over.
#[verifier::opaque]
pub open spec fn body_step(s: Seq<char>, k: nat, b: BodyModel) -> Result<(BodyModel, nat), ManifestFault> {
    if is_word(s, k, "docs"@) || tk(s, k) == TokenKind::Exegesis {
        match string_at(s, k + 1) {
            Err(f) => Err(f),
            Ok((d, k1)) => Ok((BodyModel { docs: Some(d), ..b }, k1)),
        }
    } else if is_word(s, k, "use"@) {
        match dependency_at(s, k) {
            Err(f) => Err(f),
            Ok((d, k1)) => Ok((BodyModel { dependencies: b.dependencies.push(d), ..b }, k1)),
        }
    } else if is_word(s, k, "config"@) {
        match config_at(s, k) {
            Err(f) => Err(f),
            Ok((c, k1)) => Ok((BodyModel { config: c, ..b }, k1)),
        }
    } else if is_word(s, k, "pub"@) {
        if !is_word(s, k + 1, "mod"@) {
            Err(ManifestFault::Unexpected { expected: "Module"@, at: k + 1 })
        } else {
            match name_at(s, k + 2) {
                Err(f) => Err(f),
                Ok((n, k1)) => Ok((BodyModel {
                        modules: b.modules.push(
                            ModuleModel {
                                visibility: Visibility::Public,
                                name: n,
                                span: sp(s, k + 2),
                            },
                        ),
                        ..b
                    }, k1)),
            }
        }
    } else if is_word(s, k, "mod"@) {
        match name_at(s, k + 1) {
            Err(f) => Err(f),
            Ok((n, k1)) => Ok((BodyModel {
                    modules: b.modules.push(
                        ModuleModel { visibility: Visibility::Private, name: n, span: sp(s, k + 1) },
                    ),
                    ..b
                }, k1)),
        }
    } else {
        Ok((b, k + 1))
    }
}

/// The body of a manifest from token `k` on, after `b`, up to the end of
/// input.
pub open spec fn body_from(s: Seq<char>, k: nat, b: BodyModel, fuel: nat) -> Result<
    (BodyModel, nat),
    ManifestFault,
>
    decreases fuel,
{
    if fuel == 0 || tk(s, k) == TokenKind::Eof {
        Ok((b, k))
    } else {
        match body_step(s, k, b) {
            Err(f) => Err(f),
            Ok((b2, k2)) => body_from(s, k2, b2, (fuel - 1) as nat),
        }
    }
}

/// A whole manifest, as read.
#[verifier::ext_equal]
pub struct ManifestModel {
    pub name: Seq<char>,
    pub version: VersionModel,
    pub body: BodyModel,
    pub span: Span,
}

/// The manifest that source `s` spells from token `k0` on: `spirit NAME @
/// VERSION`, then its items; an empty entry becomes `lib.dol` and an empty
/// target `wasm32`.
pub open spec fn manifest_from(s: Seq<char>, k0: nat) -> Result<ManifestModel, ManifestFault> {
    if !is_word(s, k0, "spirit"@) {
        Err(ManifestFault::Unexpected { expected: "Spirit"@, at: k0 })
    } else {
        match name_at(s, k0 + 1) {
            Err(f) => Err(f),
            Ok((name, k1)) => if tk(s, k1) != TokenKind::At {
                Err(ManifestFault::Unexpected { expected: "At"@, at: k1 })
            } else {
                match version_at(s, k1 + 1) {
                    Err(f) => Err(f),
                    Ok((version, k2)) => {
                        let b0 = BodyModel {
                            docs: None,
                            dependencies: Seq::empty(),
                            config: ConfigModel {
                                entry: Seq::empty(),
                                target: Seq::empty(),
                                features: Seq::empty(),
                                span: Span { start: 0, end: 0, line: 0, column: 0 },
                            },
                            modules: Seq::empty(),
                        };
                        match body_from(s, k2, b0, budget(s)) {
                            Err(f) => Err(f),
                            Ok((b, k3)) => {
                                let c = b.config;
                                let c2 = ConfigModel {
                                    entry: if c.entry.len() == 0 {
                                        "lib.dol"@
                                    } else {
                                        c.entry
                                    },
                                    target: if c.target.len() == 0 {
                                        "wasm32"@
                                    } else {
                                        c.target
                                    },
                                    ..c
                                };
                                Ok(
                                    ManifestModel {
                                        name,
                                        version,
                                        body: BodyModel { config: c2, ..b },
                                        span: sp(s, k0).spec_merge(sp(s, (k3 - 1) as nat)),
                                    },
                                )
                            },
                        }
                    },
                }
            },
        }
    }
}


/// The manifest that source `s` spells.
pub open spec fn manifest_of(s: Seq<char>) -> Result<ManifestModel, ManifestFault> {
    manifest_from(s, 0)
}

// ---------------------------------------------------------------------------
// Views of what was read
// ---------------------------------------------------------------------------

/// The model of an import source.
pub open spec fn source_view(x: ImportSource) -> SourceModel {
    match x {
        ImportSource::Local => SourceModel::Local,
        ImportSource::Registry { org, package, version } => SourceModel::Registry {
            org: org@,
            package: package@,
            version: opt_string_view(version),
        },
        ImportSource::Git { url, reference } => SourceModel::Git {
            url: url@,
            reference: opt_string_view(reference),
        },
        ImportSource::Https { url, sha256 } => SourceModel::Https {
            url: url@,
            sha256: opt_string_view(sha256),
        },
    }
}

/// The model of a dependency.
pub open spec fn dependency_view(d: Dependency) -> DependencyModel {
    DependencyModel {
        source: source_view(d.source),
        path: strings_view(d.path@),
        version_constraint: opt_string_view(d.version_constraint),
        span: d.span,
    }
}

/// The model of a configuration.
pub open spec fn config_view(c: SpiritConfig) -> ConfigModel {
    ConfigModel {
        entry: c.entry@,
        target: c.target@,
        features: strings_view(c.features@),
        span: c.span,
    }
}

/// The model of a module export.
pub open spec fn module_view(m: ModuleExport) -> ModuleModel {
    ModuleModel { visibility: m.visibility, name: m.name@, span: m.span }
}

/// The model of a whole manifest.
pub open spec fn manifest_view(m: SpiritManifest) -> ManifestModel {
    ManifestModel {
        name: m.name@,
        version: version_model(m.version),
        body: BodyModel {
            docs: opt_string_view(m.docs),
            dependencies: m.dependencies@.map_values(|d: Dependency| dependency_view(d)),
            config: config_view(m.config),
            modules: m.modules@.map_values(|x: ModuleExport| module_view(x)),
        },
        span: m.span,
    }
}

/// The version that the text `w` spells, if it has three parts.
fn version_from_text(w: &str) -> (r: Option<Version>)
    ensures
        match (r, version_of(w@)) {
            (Some(v), Some(m)) => version_model(v) == m,
            (None, None) => true,
            _ => false,
        },
{
    let cs = chars_of(w);
    let mut n: usize = 0;
    assert(w@.skip(0) =~= w@);
    while n < cs.len() && cs[n] != '-'
        invariant
            n <= cs@.len(),
            cs@ == w@,
            prefix_len(w@, '-') == n + prefix_len(w@.skip(n as int), '-'),
        decreases cs.len() - n,
    {
        assert(w@.skip(n as int).drop_first() =~= w@.skip(n + 1));
        n = n + 1;
    }
    proof {
        if n < cs.len() {
            assert(w@.skip(n as int)[0] == '-');
        } else {
            assert(w@.skip(n as int).len() == 0);
        }
    }
    let nums = string_from_range(&cs, 0, n);
    assert(nums@ =~= w@.take(n as int));
    let parts = split_on(nums.as_str(), '.');
    if parts.len() != 3 {
        return None;
    }
    let suffix = if n < cs.len() {
        let x = string_from_range(&cs, n + 1, cs.len());
        assert(x@ =~= w@.skip(n + 1));
        Some(x)
    } else {
        None
    };
    Some(
        Version {
            major: parse_u64_or_zero(parts[0].as_str()),
            minor: parse_u64_or_zero(parts[1].as_str()),
            patch: parse_u64_or_zero(parts[2].as_str()),
            suffix,
        },
    )
}

/// `w` without its leading and trailing double quotes.
fn strip_quotes(w: &str) -> (r: String)
    ensures
        r@ == trim_quotes(w@),
{
    let cs = chars_of(w);
    let mut a: usize = 0;
    assert(w@.skip(0) =~= w@);
    while a < cs.len() && cs[a] == '"'
        invariant
            a <= cs@.len(),
            cs@ == w@,
            lead_quotes(w@) == a + lead_quotes(w@.skip(a as int)),
        decreases cs.len() - a,
    {
        assert(w@.skip(a as int).drop_first() =~= w@.skip(a + 1));
        a = a + 1;
    }
    let ghost rest = w@.skip(a as int);
    let mut b: usize = cs.len();
    assert(rest.take(b - a) =~= rest);
    while b > a && cs[b - 1] == '"'
        invariant
            a <= b <= cs@.len(),
            cs@ == w@,
            rest == w@.skip(a as int),
            trail_quotes(rest) == (cs.len() - b) + trail_quotes(rest.take(b - a)),
        decreases b - a,
    {
        assert(rest.take(b - a).drop_last() =~= rest.take(b - 1 - a));
        b = b - 1;
    }
    proof {
        assert(rest.take(b - a).len() == 0 || rest.take(b - a).last() != '"');
        assert(lead_quotes(w@) == a);
        assert(trail_quotes(rest) == cs.len() - b);
    }
    let r = string_from_range(&cs, a, b);
    assert(r@ =~= trim_quotes(w@));
    r
}

/// Parser for Spirit.dol manifest files.
pub struct ManifestParser {
    tokens: Parser,
}

impl ManifestParser {
    /// The characters of the source.
    pub closed spec fn src(&self) -> Seq<char> {
        self.tokens.src()
    }

    /// The index of the current token.
    pub closed spec fn k(&self) -> nat {
        self.tokens.k()
    }

    /// The parser agrees with the token stream of its source.
    pub closed spec fn wf(&self) -> bool {
        self.tokens.wf()
    }

    /// Creates a new manifest parser for the given source.
    pub fn new(source: &str) -> (r: ManifestParser)
        ensures
            r.wf(),
            r.src() == source@,
            r.k() == 0,
    {
        ManifestParser { tokens: Parser::new(source) }
    }

    /// The error for an unexpected current token.
    fn fault(&self, expected: &str) -> (e: ParseError)
        requires
            self.wf(),
        ensures
            fault_is(e, ManifestFault::Unexpected { expected: expected@, at: self.k() }, self.src()),
    {
        ParseError::UnexpectedToken {
            expected: owned(expected),
            found: owned(self.tokens.current_kind().debug_name()),
            span: self.tokens.current_span(),
        }
    }

    fn advance(&mut self)
        requires
            old(self).wf(),
        ensures
            final(self).wf(),
            final(self).src() == old(self).src(),
            final(self).k() == old(self).k() + 1,
    {
        self.tokens.advance();
    }

    fn kind(&self) -> (r: TokenKind)
        requires
            self.wf(),
        ensures
            r == tk(self.src(), self.k()),
    {
        self.tokens.current_kind()
    }

    /// Whether the current token is the bare word `w`.
    fn at_word(&self, w: &str) -> (r: bool)
        requires
            self.wf(),
        ensures
            r == is_word(self.src(), self.k(), w@),
    {
        self.tokens.current_kind() == TokenKind::Identifier && str_eq(
            self.tokens.current_lexeme().as_str(),
            w,
        )
    }

    /// Whether the current token is the punctuation character `c`.
    fn at_punct(&self, c: char) -> (r: bool)
        requires
            self.wf(),
        ensures
            r == is_punct(self.src(), self.k(), c),
    {
        if self.tokens.current_kind() != TokenKind::Error {
            return false;
        }
        let v = chars_of(self.tokens.current_lexeme().as_str());
        let r = v.len() == 1 && v[0] == c;
        proof {
            if r {
                assert(v@ =~= seq![c]);
            }
        }
        r
    }

    fn expect_name(&mut self) -> (r: Result<String, ParseError>)
        requires
            old(self).wf(),
        ensures
            final(self).wf(),
            final(self).src() == old(self).src(),
            final(self).k() >= old(self).k(),
            match (r, name_at(old(self).src(), old(self).k())) {
                (Ok(v), Ok((m, k2))) => v@ == m && final(self).k() == k2,
                (Err(e), Err(f)) => fault_is(e, f, old(self).src()),
                _ => false,
            },
    {
        let kind = self.tokens.current_kind();
        if kind == TokenKind::Identifier || kind.is_keyword() {
            let v = owned(self.tokens.current_lexeme().as_str());
            self.advance();
            Ok(v)
        } else {
            Err(self.fault("identifier"))
        }
    }

    fn expect_text(&mut self) -> (r: Result<String, ParseError>)
        requires
            old(self).wf(),
        ensures
            final(self).wf(),
            final(self).src() == old(self).src(),
            final(self).k() >= old(self).k(),
            match (r, string_at(old(self).src(), old(self).k())) {
                (Ok(v), Ok((m, k2))) => v@ == m && final(self).k() == k2,
                (Err(e), Err(f)) => fault_is(e, f, old(self).src()),
                _ => false,
            },
    {
        if self.tokens.current_kind() == TokenKind::String {
            let v = strip_quotes(self.tokens.current_lexeme().as_str());
            self.advance();
            Ok(v)
        } else {
            Err(self.fault("string"))
        }
    }

    fn expect_version(&mut self) -> (r: Result<Version, ParseError>)
        requires
            old(self).wf(),
        ensures
            final(self).wf(),
            final(self).src() == old(self).src(),
            final(self).k() >= old(self).k(),
            match (r, version_at(old(self).src(), old(self).k())) {
                (Ok(v), Ok((m, k2))) => version_model(v) == m && final(self).k() == k2,
                (Err(e), Err(f)) => fault_is(e, f, old(self).src()),
                _ => false,
            },
    {
        if self.tokens.current_kind() == TokenKind::Version {
            let w = owned(self.tokens.current_lexeme().as_str());
            self.advance();
            match version_from_text(w.as_str()) {
                Some(v) => Ok(v),
                None => Err(
                    ParseError::InvalidStatement {
                        message: owned("version must have three parts (X.Y.Z)"),
                        span: self.tokens.current_span(),
                    },
                ),
            }
        } else {
            Err(self.fault("version"))
        }
    }
}


impl ManifestParser {
    /// Parses a string array: `["a", "b", "c"]`.
    fn parse_string_array(&mut self) -> (r: Result<Vec<String>, ParseError>)
        requires
            old(self).wf(),
        ensures
            final(self).wf(),
            final(self).src() == old(self).src(),
            final(self).k() >= old(self).k(),
            match (r, string_array(old(self).src(), old(self).k())) {
                (Ok(v), Ok((m, k2))) => strings_view(v@) == m && final(self).k() == k2,
                (Err(e), Err(f)) => fault_is(e, f, old(self).src()),
                _ => false,
            },
    {
        let ghost s = self.src();
        let ghost k0 = self.k();
        if !self.at_punct('[') {
            return Err(self.fault("LeftBracket"));
        }
        self.advance();
        let mut items: Vec<String> = Vec::new();
        let ghost mut fuel: nat = budget(s);
        proof {
            lemma_token_stream_ends(s);
            assert(strings_view(items@) =~= Seq::<Seq<char>>::empty());
        }
        while !self.at_punct(']') && self.kind() != TokenKind::Eof
            invariant
                self.wf(),
                self.src() == s,
                s == old(self).src(),
                k0 == old(self).k(),
                is_punct(s, k0, '['),
                self.k() > k0,
                forall|m: nat| m >= s.len() ==> #[trigger] tk(s, m) == TokenKind::Eof,
                fuel + self.k() >= budget(s) + k0 + 1,
                strings_from(s, k0 + 1, Seq::empty(), budget(s)) == strings_from(
                    s,
                    self.k(),
                    strings_view(items@),
                    fuel,
                ),
            decreases s.len() - self.k(),
        {
            assert(tk(s, self.k()) != TokenKind::Eof);
            assert(fuel > 0);
            let ghost kk = self.k();
            let ghost acc = strings_view(items@);
            assert(strings_from(s, kk, acc, fuel) == match string_at(s, kk) {
                Err(f) => Err(f),
                Ok((v, k1)) => strings_from(
                    s,
                    if is_punct(s, k1, ',') {
                        k1 + 1
                    } else {
                        k1
                    },
                    acc.push(v),
                    (fuel - 1) as nat,
                ),
            });
            match self.expect_text() {
                Err(e) => {
                    return Err(e);
                },
                Ok(v) => {
                    let ghost before = strings_view(items@);
                    items.push(v);
                    assert(strings_view(items@) =~= before.push(v@));
                },
            }
            if self.at_punct(',') {
                self.advance();
            }
            proof {
                fuel = (fuel - 1) as nat;
            }
        }
        if !self.at_punct(']') {
            return Err(self.fault("RightBracket"));
        }
        self.advance();
        Ok(items)
    }

    /// Skips a value (for unknown config keys).
    fn skip_value(&mut self)
        requires
            old(self).wf(),
        ensures
            final(self).wf(),
            final(self).src() == old(self).src(),
            final(self).k() == skip_value(old(self).src(), old(self).k()),
            final(self).k() > old(self).k(),
    {
        let ghost s = self.src();
        let ghost k0 = self.k();
        proof {
            lemma_token_stream_ends(s);
        }
        // The source's length is a `usize`; it bounds the brace depth below.
        let source_len = self.tokens.src_len();
        assert(s.len() == source_len);
        let kind = self.kind();
        if kind == TokenKind::String || kind == TokenKind::Identifier || kind == TokenKind::Version {
            self.advance();
        } else if self.at_punct('[') {
            self.advance();
            let ghost mut fuel: nat = budget(s);
            while !self.at_punct(']') && self.kind() != TokenKind::Eof
                invariant
                    self.wf(),
                    self.src() == s,
                    s == old(self).src(),
                    k0 == old(self).k(),
                    s.len() <= usize::MAX,
                    self.k() > k0,
                    forall|m: nat| m >= s.len() ==> #[trigger] tk(s, m) == TokenKind::Eof,
                    fuel + self.k() >= budget(s) + k0 + 1,
                    bracket_end(s, k0 + 1, budget(s)) == bracket_end(s, self.k(), fuel),
                decreases s.len() - self.k(),
            {
                assert(tk(s, self.k()) != TokenKind::Eof);
                self.advance();
                proof {
                    fuel = (fuel - 1) as nat;
                }
            }
            self.advance();
        } else if kind == TokenKind::LeftBrace {
            self.advance();
            let mut depth: usize = 1;
            let ghost mut fuel: nat = budget(s);
            while depth > 0 && self.kind() != TokenKind::Eof
                invariant
                    self.wf(),
                    self.src() == s,
                    s == old(self).src(),
                    k0 == old(self).k(),
                    s.len() <= usize::MAX,
                    self.k() > k0,
                    depth <= self.k() - k0,
                    forall|m: nat| m >= s.len() ==> #[trigger] tk(s, m) == TokenKind::Eof,
                    fuel + self.k() >= budget(s) + k0 + 1,
                    brace_end(s, k0 + 1, 1, budget(s)) == brace_end(s, self.k(), depth as nat, fuel),
                decreases s.len() - self.k(),
            {
                assert(tk(s, self.k()) != TokenKind::Eof);
                let kd = self.kind();
                if kd == TokenKind::LeftBrace {
                    depth = depth + 1;
                } else if kd == TokenKind::RightBrace {
                    depth = depth - 1;
                }
                self.advance();
                proof {
                    fuel = (fuel - 1) as nat;
                }
            }
        } else {
            self.advance();
        }
    }
}


impl ManifestParser {
    /// Reads one entry of a configuration block into the configuration
    /// read so far.
    fn parse_config_entry(
        &mut self,
        entry: &mut String,
        target: &mut String,
        features: &mut Vec<String>,
        Ghost(span): Ghost<Span>,
    ) -> (r: Result<(), ParseError>)
        requires
            old(self).wf(),
        ensures
            final(self).wf(),
            final(self).src() == old(self).src(),
            final(self).k() >= old(self).k(),
            r is Ok ==> final(self).k() > old(self).k(),
            ({
                let c = ConfigModel {
                    entry: old(entry)@,
                    target: old(target)@,
                    features: strings_view(old(features)@),
                    span,
                };
                match (r, entry_step(old(self).src(), old(self).k(), c)) {
                    (Ok(()), Ok((m, k2))) => m == ConfigModel {
                        entry: final(entry)@,
                        target: final(target)@,
                        features: strings_view(final(features)@),
                        span,
                    } && final(self).k() == k2 && k2 > old(self).k(),
                    (Err(e), Err(f)) => fault_is(e, f, old(self).src()),
                    _ => false,
                }
            }),
    {
        proof {
            reveal(entry_step);
        }
        let key = match self.expect_name() {
            Ok(k) => k,
            Err(e) => {
                return Err(e);
            },
        };
        if !self.at_punct(':') {
            return Err(self.fault("Colon"));
        }
        self.advance();
        if str_eq(key.as_str(), "entry") {
            match self.expect_text() {
                Ok(v) => {
                    *entry = v;
                },
                Err(e) => {
                    return Err(e);
                },
            }
        } else if str_eq(key.as_str(), "target") {
            match self.expect_name() {
                Ok(v) => {
                    *target = v;
                },
                Err(e) => {
                    return Err(e);
                },
            }
        } else if str_eq(key.as_str(), "features") {
            match self.parse_string_array() {
                Ok(v) => {
                    *features = v;
                },
                Err(e) => {
                    return Err(e);
                },
            }
        } else {
            self.skip_value();
        }
        if self.at_punct(',') {
            self.advance();
        }
        Ok(())
    }
}

impl ManifestParser {
    /// Parses the config block whose `config` word is the current token.
    #[verifier::rlimit(100)]
    #[verifier::spinoff_prover]
    fn parse_config(&mut self) -> (r: Result<SpiritConfig, ParseError>)
        requires
            old(self).wf(),
            is_word(old(self).src(), old(self).k(), "config"@),
        ensures
            final(self).wf(),
            final(self).src() == old(self).src(),
            final(self).k() > old(self).k(),
            match (r, config_at(old(self).src(), old(self).k())) {
                (Ok(c), Ok((m, k2))) => config_view(c) == m && final(self).k() == k2,
                (Err(e), Err(f)) => fault_is(e, f, old(self).src()),
                _ => false,
            },
    {
        let ghost s = self.src();
        let ghost k0 = self.k();
        let start_span = self.tokens.current_span();
        self.advance();
        if self.kind() != TokenKind::LeftBrace {
            return Err(self.fault("LeftBrace"));
        }
        self.advance();
        let mut entry = String::new();
        let mut target = String::new();
        let mut features: Vec<String> = Vec::new();
        let ghost c0 = ConfigModel {
            entry: Seq::empty(),
            target: Seq::empty(),
            features: Seq::empty(),
            span: sp(s, k0),
        };
        let ghost mut fuel: nat = budget(s);
        proof {
            lemma_token_stream_ends(s);
            assert(strings_view(features@) =~= Seq::<Seq<char>>::empty());
        }
        while self.kind() != TokenKind::RightBrace && self.kind() != TokenKind::Eof
            invariant
                self.wf(),
                self.src() == s,
                s == old(self).src(),
                k0 == old(self).k(),
                tk(s, k0 + 1) == TokenKind::LeftBrace,
                c0 == (ConfigModel {
                    entry: Seq::empty(),
                    target: Seq::empty(),
                    features: Seq::empty(),
                    span: sp(s, k0),
                }),
                self.k() > k0 + 1,
                start_span == sp(s, k0),
                forall|m: nat| m >= s.len() ==> #[trigger] tk(s, m) == TokenKind::Eof,
                fuel + self.k() >= budget(s) + k0 + 2,
                entries_from(s, k0 + 2, c0, budget(s)) == entries_from(
                    s,
                    self.k(),
                    ConfigModel {
                        entry: entry@,
                        target: target@,
                        features: strings_view(features@),
                        span: sp(s, k0),
                    },
                    fuel,
                ),
            decreases fuel,
        {
            assert(tk(s, self.k()) != TokenKind::Eof);
            assert(fuel > 0);
            let ghost kk = self.k();
            let ghost cm = ConfigModel {
                entry: entry@,
                target: target@,
                features: strings_view(features@),
                span: sp(s, k0),
            };
            assert(entries_from(s, kk, cm, fuel) == match entry_step(s, kk, cm) {
                Err(f) => Err(f),
                Ok((c2, k2)) => entries_from(s, k2, c2, (fuel - 1) as nat),
            });
            match self.parse_config_entry(&mut entry, &mut target, &mut features, Ghost(sp(s, k0))) {
                Ok(()) => {},
                Err(e) => {
                    assert(config_at(s, k0) == match entries_from(s, k0 + 2, c0, budget(s)) {
                        Err(f) => Err(f),
                        Ok((c, k2)) => if tk(s, k2) != TokenKind::RightBrace {
                            Err(ManifestFault::Unexpected { expected: "RightBrace"@, at: k2 })
                        } else {
                            Ok((ConfigModel { span: sp(s, k0).spec_merge(sp(s, k2)), ..c }, k2 + 1))
                        },
                    });
                    return Err(e);
                },
            }
            proof {
                fuel = (fuel - 1) as nat;
            }
        }
        if self.kind() != TokenKind::RightBrace {
            return Err(self.fault("RightBrace"));
        }
        self.advance();
        let span = start_span.merge(&self.tokens.previous_span());
        Ok(SpiritConfig { entry, target, features, span })
    }
}


impl ManifestParser {
    /// Parses a URL path: names joined by `/` and `.`.
    fn parse_url(&mut self) -> (r: String)
        requires
            old(self).wf(),
        ensures
            final(self).wf(),
            final(self).src() == old(self).src(),
            final(self).k() >= old(self).k(),
            (r@, final(self).k()) == url_from(old(self).src(), old(self).k(), Seq::empty(), budget(old(self).src())),
    {
        let ghost s = self.src();
        let ghost k0 = self.k();
        let mut acc = String::new();
        let mut done = false;
        let ghost mut fuel: nat = budget(s);
        proof {
            lemma_token_stream_ends(s);
        }
        while !done && self.kind() == TokenKind::Identifier
            invariant
                self.wf(),
                self.src() == s,
                s == old(self).src(),
                k0 == old(self).k(),
                self.k() >= k0,
                forall|m: nat| m >= s.len() ==> #[trigger] tk(s, m) == TokenKind::Eof,
                fuel + self.k() >= budget(s) + k0,
                url_from(s, k0, Seq::empty(), budget(s)) == if done {
                    (acc@, self.k())
                } else {
                    url_from(s, self.k(), acc@, fuel)
                },
            decreases fuel,
        {
            assert(tk(s, self.k()) != TokenKind::Eof);
            assert(fuel > 0);
            let part = owned(self.tokens.current_lexeme().as_str());
            self.advance();
            acc.append(part.as_str());
            if self.at_punct('/') {
                acc.append("/");
                self.advance();
            } else if self.at_punct('.') {
                acc.append(".");
                self.advance();
            } else {
                done = true;
            }
            proof {
                fuel = (fuel - 1) as nat;
            }
        }
        acc
    }

    /// Parses an import source (registry, git, https, local) and the path
    /// within it.
    #[verifier::rlimit(80)]
    #[verifier::spinoff_prover]
    fn parse_import_source(&mut self) -> (r: Result<(ImportSource, Vec<String>), ParseError>)
        requires
            old(self).wf(),
        ensures
            final(self).wf(),
            final(self).src() == old(self).src(),
            final(self).k() >= old(self).k(),
            match (r, source_at(old(self).src(), old(self).k())) {
                (Ok((x, p)), Ok((m, path, k2))) => source_view(x) == m && strings_view(p@) == path
                    && final(self).k() == k2,
                (Err(e), Err(f)) => fault_is(e, f, old(self).src()),
                _ => false,
            },
    {
        let ghost s = self.src();
        let ghost k0 = self.k();
        if self.kind() == TokenKind::At {
            self.advance();
            let prefix = match self.expect_name() {
                Ok(p) => p,
                Err(e) => {
                    return Err(e);
                },
            };
            if str_eq(prefix.as_str(), "git") && self.at_punct(':') {
                self.advance();
                let url = self.parse_url();
                let reference = if self.at_punct(':') {
                    self.advance();
                    match self.expect_name() {
                        Ok(x) => Some(x),
                        Err(e) => {
                            return Err(e);
                        },
                    }
                } else {
                    None
                };
                let path: Vec<String> = Vec::new();
                assert(strings_view(path@) =~= Seq::<Seq<char>>::empty());
                Ok((ImportSource::Git { url, reference }, path))
            } else if str_eq(prefix.as_str(), "https") && self.at_punct(':') {
                self.advance();
                if str_eq(self.tokens.current_lexeme().as_str(), "/") {
                    self.advance();
                    self.advance();
                }
                let rest = self.parse_url();
                let mut url = owned("https://");
                url.append(rest.as_str());
                let path: Vec<String> = Vec::new();
                assert(strings_view(path@) =~= Seq::<Seq<char>>::empty());
                Ok((ImportSource::Https { url, sha256: None }, path))
            } else {
                if !self.at_punct('/') {
                    return Err(self.fault("Slash"));
                }
                self.advance();
                let package = match self.expect_name() {
                    Ok(p) => p,
                    Err(e) => {
                        return Err(e);
                    },
                };
                let mut segments = split_on(package.as_str(), '.');
                proof {
                    lemma_split_nonempty(package@, '.', Seq::empty());
                }
                let ghost all = strings_view(segments@);
                let first = segments.remove(0);
                assert(strings_view(segments@) =~= all.drop_first());
                Ok(
                    (
                        ImportSource::Registry { org: prefix, package: first, version: None },
                        segments,
                    ),
                )
            }
        } else {
            let ident = match self.expect_name() {
                Ok(p) => p,
                Err(e) => {
                    return Err(e);
                },
            };
            let path = split_on(ident.as_str(), '.');
            Ok((ImportSource::Local, path))
        }
    }

    /// Parses a version constraint (e.g., `^1.0.0`, `>=0.5.0`).
    #[verifier::rlimit(80)]
    #[verifier::spinoff_prover]
    fn parse_version_constraint(&mut self) -> (r: Result<String, ParseError>)
        requires
            old(self).wf(),
        ensures
            final(self).wf(),
            final(self).src() == old(self).src(),
            final(self).k() >= old(self).k(),
            match (r, constraint_at(old(self).src(), old(self).k())) {
                (Ok(c), Ok((m, k2))) => c@ == m && final(self).k() == k2,
                (Err(e), Err(f)) => fault_is(e, f, old(self).src()),
                _ => false,
            },
    {
        let mut constraint = String::new();
        let l = self.tokens.current_lexeme().as_str();
        if str_eq(l, "^") || str_eq(l, "~") || str_eq(l, ">") || str_eq(l, "<") || str_eq(l, "=") {
            constraint.append(l);
            self.advance();
            if str_eq(self.tokens.current_lexeme().as_str(), "=") {
                constraint.append("=");
                self.advance();
            }
        }
        match self.expect_version() {
            Ok(v) => {
                constraint.append(v.text().as_str());
                Ok(constraint)
            },
            Err(e) => Err(e),
        }
    }

    /// Parses a dependency declaration whose `use` word is current.
    #[verifier::rlimit(80)]
    #[verifier::spinoff_prover]
    fn parse_dependency(&mut self) -> (r: Result<Dependency, ParseError>)
        requires
            old(self).wf(),
        ensures
            final(self).wf(),
            final(self).src() == old(self).src(),
            final(self).k() > old(self).k(),
            match (r, dependency_at(old(self).src(), old(self).k())) {
                (Ok(d), Ok((m, k2))) => dependency_view(d) == m && final(self).k() == k2,
                (Err(e), Err(f)) => fault_is(e, f, old(self).src()),
                _ => false,
            },
    {
        let start_span = self.tokens.current_span();
        self.advance();
        let (source, path) = match self.parse_import_source() {
            Ok(x) => x,
            Err(e) => {
                return Err(e);
            },
        };
        let version_constraint = if self.kind() == TokenKind::At {
            self.advance();
            match self.parse_version_constraint() {
                Ok(c) => Some(c),
                Err(e) => {
                    return Err(e);
                },
            }
        } else {
            None
        };
        let span = start_span.merge(&self.tokens.previous_span());
        Ok(Dependency { source, path, version_constraint, span })
    }
}


/// The model of the parts of a manifest body.
pub open spec fn body_view(
    docs: Option<String>,
    deps: Seq<Dependency>,
    config: SpiritConfig,
    modules: Seq<ModuleExport>,
) -> BodyModel {
    BodyModel {
        docs: opt_string_view(docs),
        dependencies: deps.map_values(|d: Dependency| dependency_view(d)),
        config: config_view(config),
        modules: modules.map_values(|x: ModuleExport| module_view(x)),
    }
}

impl ManifestParser {
    /// Reads one item of a manifest body into the parts read so far.
    #[verifier::rlimit(80)]
    #[verifier::spinoff_prover]
    fn parse_body_item(
        &mut self,
        docs: &mut Option<String>,
        deps: &mut Vec<Dependency>,
        config: &mut SpiritConfig,
        modules: &mut Vec<ModuleExport>,
    ) -> (r: Result<(), ParseError>)
        requires
            old(self).wf(),
        ensures
            final(self).wf(),
            final(self).src() == old(self).src(),
            final(self).k() >= old(self).k(),
            r is Ok ==> final(self).k() > old(self).k(),
            match (
                r,
                body_step(
                    old(self).src(),
                    old(self).k(),
                    body_view(*old(docs), old(deps)@, *old(config), old(modules)@),
                ),
            ) {
                (Ok(()), Ok((m, k2))) => m == body_view(
                    *final(docs),
                    final(deps)@,
                    *final(config),
                    final(modules)@,
                ) && final(self).k() == k2,
                (Err(e), Err(f)) => fault_is(e, f, old(self).src()),
                _ => false,
            },
    {
        proof {
            reveal(body_step);
        }
        let ghost s = self.src();
        let ghost k0 = self.k();
        if self.at_word("docs") || self.kind() == TokenKind::Exegesis {
            self.advance();
            match self.expect_text() {
                Ok(d) => {
                    *docs = Some(d);
                    Ok(())
                },
                Err(e) => Err(e),
            }
        } else if self.at_word("use") {
            match self.parse_dependency() {
                Ok(d) => {
                    let ghost before = deps@.map_values(|d: Dependency| dependency_view(d));
                    deps.push(d);
                    assert(deps@.map_values(|d: Dependency| dependency_view(d)) =~= before.push(
                        dependency_view(d),
                    ));
                    Ok(())
                },
                Err(e) => Err(e),
            }
        } else if self.at_word("config") {
            match self.parse_config() {
                Ok(c) => {
                    *config = c;
                    Ok(())
                },
                Err(e) => Err(e),
            }
        } else if self.at_word("pub") {
            self.advance();
            if !self.at_word("mod") {
                return Err(self.fault("Module"));
            }
            self.advance();
            match self.expect_name() {
                Ok(n) => {
                    let m = ModuleExport {
                        visibility: Visibility::Public,
                        name: n,
                        span: self.tokens.previous_span(),
                    };
                    let ghost before = modules@.map_values(|x: ModuleExport| module_view(x));
                    modules.push(m);
                    assert(modules@.map_values(|x: ModuleExport| module_view(x)) =~= before.push(
                        module_view(m),
                    ));
                    Ok(())
                },
                Err(e) => Err(e),
            }
        } else if self.at_word("mod") {
            self.advance();
            match self.expect_name() {
                Ok(n) => {
                    let m = ModuleExport {
                        visibility: Visibility::Private,
                        name: n,
                        span: self.tokens.previous_span(),
                    };
                    let ghost before = modules@.map_values(|x: ModuleExport| module_view(x));
                    modules.push(m);
                    assert(modules@.map_values(|x: ModuleExport| module_view(x)) =~= before.push(
                        module_view(m),
                    ));
                    Ok(())
                },
                Err(e) => Err(e),
            }
        } else {
            self.advance();
            Ok(())
        }
    }

    /// Parses a Spirit.dol manifest.
    #[verifier::rlimit(80)]
    #[verifier::spinoff_prover]
    pub fn parse(&mut self) -> (r: Result<SpiritManifest, ParseError>)
        requires
            old(self).wf(),
        ensures
            match (r, manifest_from(old(self).src(), old(self).k())) {
                (Ok(m), Ok(mm)) => manifest_view(m) == mm,
                (Err(e), Err(f)) => fault_is(e, f, old(self).src()),
                _ => false,
            },
    {
        let ghost s = self.src();
        let ghost k0 = self.k();
        let start_span = self.tokens.current_span();
        if !self.at_word("spirit") {
            return Err(self.fault("Spirit"));
        }
        self.advance();
        let name = match self.expect_name() {
            Ok(n) => n,
            Err(e) => {
                return Err(e);
            },
        };
        if self.kind() != TokenKind::At {
            return Err(self.fault("At"));
        }
        self.advance();
        let version = match self.expect_version() {
            Ok(v) => v,
            Err(e) => {
                return Err(e);
            },
        };
        let ghost k2 = self.k();
        let mut docs: Option<String> = None;
        let mut dependencies: Vec<Dependency> = Vec::new();
        let mut config = SpiritConfig {
            entry: String::new(),
            target: String::new(),
            features: Vec::new(),
            span: Span { start: 0, end: 0, line: 0, column: 0 },
        };
        let mut modules: Vec<ModuleExport> = Vec::new();
        let ghost b0 = BodyModel {
            docs: None,
            dependencies: Seq::empty(),
            config: ConfigModel {
                entry: Seq::empty(),
                target: Seq::empty(),
                features: Seq::empty(),
                span: Span { start: 0, end: 0, line: 0, column: 0 },
            },
            modules: Seq::empty(),
        };
        proof {
            assert(body_view(docs, dependencies@, config, modules@) =~= b0) by {
                assert(strings_view(config.features@) =~= Seq::<Seq<char>>::empty());
                assert(dependencies@.map_values(|d: Dependency| dependency_view(d)) =~= Seq::<
                    DependencyModel,
                >::empty());
                assert(modules@.map_values(|x: ModuleExport| module_view(x)) =~= Seq::<
                    ModuleModel,
                >::empty());
            }
            lemma_token_stream_ends(s);
            assert forall|f: ManifestFault|
                body_from(s, k2, b0, budget(s)) == Err::<(BodyModel, nat), ManifestFault>(
                    f,
                ) implies manifest_from(s, k0) == Err::<ManifestModel, ManifestFault>(f) by {}
        }
        let ghost mut fuel: nat = budget(s);
        while self.kind() != TokenKind::Eof
            invariant
                self.wf(),
                self.src() == s,
                s == old(self).src(),
                k0 == old(self).k(),
                self.k() >= k2,
                k2 >= k0 + 4,
                forall|m: nat| m >= s.len() ==> #[trigger] tk(s, m) == TokenKind::Eof,
                fuel + self.k() >= budget(s) + k2,
                forall|f: ManifestFault|
                    body_from(s, k2, b0, budget(s)) == Err::<(BodyModel, nat), ManifestFault>(
                        f,
                    ) ==> manifest_from(s, k0) == Err::<ManifestModel, ManifestFault>(f),
                body_from(s, k2, b0, budget(s)) == body_from(
                    s,
                    self.k(),
                    body_view(docs, dependencies@, config, modules@),
                    fuel,
                ),
            decreases fuel,
        {
            assert(tk(s, self.k()) != TokenKind::Eof);
            assert(fuel > 0);
            match self.parse_body_item(&mut docs, &mut dependencies, &mut config, &mut modules) {
                Ok(()) => {},
                Err(e) => {
                    return Err(e);
                },
            }
            proof {
                fuel = (fuel - 1) as nat;
            }
        }
        proof {
            reveal_strlit("");
            assert(config.entry@.len() == 0 ==> config.entry@ =~= ""@);
            assert(config.target@.len() == 0 ==> config.target@ =~= ""@);
        }
        if str_eq(config.entry.as_str(), "") {
            config.entry = owned("lib.dol");
        }
        if str_eq(config.target.as_str(), "") {
            config.target = owned("wasm32");
        }
        let span = start_span.merge(&self.tokens.previous_span());
        Ok(SpiritManifest { name, version, docs, dependencies, config, modules, span })
    }
}

/// Parses a Spirit.dol manifest from source.
pub fn parse_spirit_manifest(source: &str) -> (r: Result<SpiritManifest, ParseError>)
    ensures
        match (r, manifest_of(source@)) {
            (Ok(m), Ok(mm)) => manifest_view(m) == mm,
            (Err(e), Err(f)) => fault_is(e, f, source@),
            _ => false,
        },
{
    let mut parser = ManifestParser::new(source);
    parser.parse()
}

} // verus!

//! The crate generator: its configuration, and the texts of the files it
//! writes around the generated modules (`lib.rs`, `prelude.rs`,
//! `Cargo.toml`, and the imports each module takes from its siblings).

use vstd::prelude::*;

use crate::ast::{DolFile, UseDecl, UseItems};
use crate::text::{join_strings, join_with, opt_string_view, owned, seq_starts_with, starts_with, str_eq, strings_view};

verus! {

/// Configuration for crate generation.
#[derive(Debug, Clone)]
pub struct CrateConfig {
    /// Name of the generated crate
    pub crate_name: String,
    /// Version of the generated crate
    pub crate_version: String,
    /// Output directory for the crate
    pub output_dir: String,
}

impl Default for CrateConfig {
    /// Crate `dol_generated`, version `0.1.0`, written to `stage2`.
    fn default() -> (r: CrateConfig)
        ensures
            r.crate_name@ == "dol_generated"@,
            r.crate_version@ == "0.1.0"@,
            r.output_dir@ == "stage2"@,
    {
        CrateConfig {
            crate_name: owned("dol_generated"),
            crate_version: owned("0.1.0"),
            output_dir: owned("stage2"),
        }
    }
}

/// Crate code generator.
pub struct CrateCodegen {
    /// The configuration it generates with
    pub config: CrateConfig,
}

/// Information about a DOL module for code generation.
#[derive(Debug, Clone)]
pub struct ModuleInfo {
    /// Module name (last component of path, e.g., "lexer" from "dol.lexer")
    pub name: String,
    /// Full module path (e.g., "dol.lexer")
    pub full_path: String,
    /// Source file path
    pub source_path: String,
    /// Dependencies (other modules this one imports)
    pub dependencies: Vec<String>,
}

/// The names of modules.
pub open spec fn module_names(ms: Seq<ModuleInfo>) -> Seq<Seq<char>> {
    ms.map_values(|m: ModuleInfo| m.name@)
}

/// A module that is not declared in `lib.rs` or re-exported: `main` (the
/// binary's root) and `mod` (the root of the DOL sources).
pub open spec fn is_root_module(name: Seq<char>) -> bool {
    name == "main"@ || name == "mod"@
}

/// One line per module that is not a root module: `prefix`, its name and
/// `suffix`.
pub open spec fn module_lines(names: Seq<Seq<char>>, prefix: Seq<char>, suffix: Seq<char>) -> Seq<
    char,
>
    decreases names.len(),
{
    if names.len() == 0 {
        Seq::empty()
    } else {
        let prev = module_lines(names.drop_last(), prefix, suffix);
        if is_root_module(names.last()) {
            prev
        } else {
            prev + prefix + names.last() + suffix
        }
    }
}

/// The text of the generated `lib.rs`.
pub open spec fn lib_rs_text(names: Seq<Seq<char>>) -> Seq<char> {
    "//! DOL Generated Crate\n"@ + "//! Do not edit manually - regenerate from DOL source\n\n"@
        + "use std::collections::HashMap;\n\n"@ + "pub mod compat;\n\n"@ + module_lines(
        names,
        "pub mod "@,
        ";\n"@,
    ) + "\npub mod prelude;\n"@
}

/// The text of the generated `prelude.rs`.
pub open spec fn prelude_rs_text(names: Seq<Seq<char>>) -> Seq<char> {
    "//! Prelude - common re-exports\n\n"@ + "pub use crate::compat::*;\n\n"@ + module_lines(
        names,
        "pub use crate::"@,
        "::*;\n"@,
    )
}

/// The text of the generated `Cargo.toml`.
pub open spec fn cargo_toml_text(name: Seq<char>, version: Seq<char>) -> Seq<char> {
    "[package]\nname = \""@ + name + "\"\nversion = \""@ + version
        + "\"\nedition = \"2021\"\n\n[dependencies]\n"@
}

/// A module whose items are not imported into its siblings: the current
/// one, and `main`, `mod` and `dol`.
pub open spec fn skipped_sibling(current: Seq<char>, name: Seq<char>) -> bool {
    name == current || name == "main"@ || name == "mod"@ || name == "dol"@
}

/// One import line per sibling module of `current`.
pub open spec fn sibling_lines(current: Seq<char>, names: Seq<Seq<char>>) -> Seq<char>
    decreases names.len(),
{
    if names.len() == 0 {
        Seq::empty()
    } else {
        let prev = sibling_lines(current, names.drop_last());
        if skipped_sibling(current, names.last()) {
            prev
        } else {
            prev + "use crate::"@ + names.last() + "::*;\n"@
        }
    }
}

/// The imports that a generated module file takes from its siblings.
pub open spec fn sibling_imports_text(current: Seq<char>, names: Seq<Seq<char>>) -> Seq<char> {
    "#[allow(unused_imports)]\n"@ + "use crate::compat::*;\n"@ + sibling_lines(current, names)
}

/// Appends one line per module that is not a root module.
fn append_module_lines(out: &mut String, modules: &[ModuleInfo], prefix: &str, suffix: &str)
    ensures
        final(out)@ == old(out)@ + module_lines(module_names(modules@), prefix@, suffix@),
{
    let ghost start = out@;
    let mut i: usize = 0;
    while i < modules.len()
        invariant
            i <= modules@.len(),
            out@ == start + module_lines(module_names(modules@.take(i as int)), prefix@, suffix@),
        decreases modules.len() - i,
    {
        assert(module_names(modules@.take(i + 1)).drop_last() =~= module_names(
            modules@.take(i as int),
        ));
        assert(module_names(modules@.take(i + 1)).last() == modules@[i as int].name@);
        let name = modules[i].name.as_str();
        if !(str_eq(name, "main") || str_eq(name, "mod")) {
            out.append(prefix);
            out.append(name);
            out.append(suffix);
        }
        i = i + 1;
    }
    assert(modules@.take(modules.len() as int) =~= modules@);
}

impl CrateCodegen {
    /// Create a new crate generator with the default configuration, writing
    /// to `output_dir`.
    pub fn new(output_dir: &str) -> (r: CrateCodegen)
        ensures
            r.config.crate_name@ == "dol_generated"@,
            r.config.crate_version@ == "0.1.0"@,
            r.config.output_dir@ == output_dir@,
    {
        let defaults = CrateConfig::default();
        CrateCodegen {
            config: CrateConfig {
                crate_name: defaults.crate_name,
                crate_version: defaults.crate_version,
                output_dir: owned(output_dir),
            },
        }
    }

    /// Create a new crate generator with custom configuration.
    pub fn with_config(config: CrateConfig) -> (r: CrateCodegen)
        ensures
            r.config == config,
    {
        CrateCodegen { config }
    }
    /// The path `rel` inside the output directory.
    pub fn output_path(&self, rel: &str) -> (r: String)
        ensures
            r@ == self.config.output_dir@ + "/"@ + rel@,
    {
        let mut p = owned(self.config.output_dir.as_str());
        p.append("/");
        p.append(rel);
        p
    }

    /// The imports that the module file of `current` takes from its
    /// siblings: the compatibility types, then every other module but
    /// `main`, `mod` and `dol`.
    pub fn gen_sibling_imports(&self, current: &ModuleInfo, all_modules: &[ModuleInfo]) -> (r:
        String)
        ensures
            r@ == sibling_imports_text(current.name@, module_names(all_modules@)),
    {
        let mut output = owned("#[allow(unused_imports)]\n");
        output.append("use crate::compat::*;\n");
        let ghost start = output@;
        let cur = current.name.as_str();
        let mut i: usize = 0;
        while i < all_modules.len()
            invariant
                i <= all_modules@.len(),
                cur@ == current.name@,
                output@ == start + sibling_lines(
                    current.name@,
                    module_names(all_modules@.take(i as int)),
                ),
            decreases all_modules.len() - i,
        {
            assert(module_names(all_modules@.take(i + 1)).drop_last() =~= module_names(
                all_modules@.take(i as int),
            ));
            assert(module_names(all_modules@.take(i + 1)).last() == all_modules@[i as int].name@);
            let name = all_modules[i].name.as_str();
            if !(str_eq(name, cur) || str_eq(name, "main") || str_eq(name, "mod") || str_eq(
                name,
                "dol",
            )) {
                output.append("use crate::");
                output.append(name);
                output.append("::*;\n");
            }
            i = i + 1;
        }
        assert(all_modules@.take(all_modules.len() as int) =~= all_modules@);
        output
    }

    /// The text of `lib.rs`: the compatibility module, one `pub mod` per
    /// module but `main` and `mod`, and the prelude.
    pub fn lib_rs_content(&self, modules: &[ModuleInfo]) -> (r: String)
        ensures
            r@ == lib_rs_text(module_names(modules@)),
    {
        let mut content = owned("//! DOL Generated Crate\n");
        content.append("//! Do not edit manually - regenerate from DOL source\n\n");
        content.append("use std::collections::HashMap;\n\n");
        content.append("pub mod compat;\n\n");
        append_module_lines(&mut content, modules, "pub mod ", ";\n");
        content.append("\npub mod prelude;\n");
        content
    }

    /// The text of `prelude.rs`: the compatibility types and every module
    /// but `main` and `mod`, re-exported.
    pub fn prelude_rs_content(&self, modules: &[ModuleInfo]) -> (r: String)
        ensures
            r@ == prelude_rs_text(module_names(modules@)),
    {
        let mut content = owned("//! Prelude - common re-exports\n\n");
        content.append("pub use crate::compat::*;\n\n");
        append_module_lines(&mut content, modules, "pub use crate::", "::*;\n");
        content
    }

    /// The text of `Cargo.toml` for the configured crate name and version.
    pub fn cargo_toml_content(&self) -> (r: String)
        ensures
            r@ == cargo_toml_text(self.config.crate_name@, self.config.crate_version@),
    {
        let mut content = owned("[package]\nname = \"");
        content.append(self.config.crate_name.as_str());
        content.append("\"\nversion = \"");
        content.append(self.config.crate_version.as_str());
        content.append("\"\nedition = \"2021\"\n\n[dependencies]\n");
        content
    }
}


// ---------------------------------------------------------------------------
// Modules and imports of parsed files
// ---------------------------------------------------------------------------

/// What `Path::new(p).file_stem()` gives for the path text `p`, as text:
/// the file name without its extension, if the path has a file name.
pub uninterp spec fn path_file_stem(p: Seq<char>) -> Option<Seq<char>>;

/// `std::path::Path::file_stem` on the path text `p`, as text. A stem taken
/// from a `&str` is valid UTF-8, so its conversion back to text always
/// succeeds; what the stem is, `Path` decides.
#[verifier::external_body]
fn file_stem_of(p: &str) -> (r: Option<String>)
    ensures
        opt_string_view(r) == path_file_stem(p@),
{
    std::path::Path::new(p).file_stem().and_then(|s| s.to_str()).map(|s| s.to_string())
}

/// The module a use declaration imports from the `dol` namespace: the
/// component after `dol`.
pub open spec fn dol_dependency(u: UseDecl) -> Option<Seq<char>> {
    if u.path@.len() >= 2 && u.path@[0]@ == "dol"@ {
        Some(u.path@[1]@)
    } else {
        None
    }
}

/// The `dol` modules that the uses `us` import, each once, in the order of
/// their first import.
pub open spec fn dol_dependencies(us: Seq<UseDecl>) -> Seq<Seq<char>>
    decreases us.len(),
{
    if us.len() == 0 {
        Seq::empty()
    } else {
        let d = dol_dependencies(us.drop_last());
        match dol_dependency(us.last()) {
            Some(x) => if d.contains(x) {
                d
            } else {
                d.push(x)
            },
            None => d,
        }
    }
}

/// The name of the module of `file` read from `source`: the last component
/// of its module path, else the stem of its file name, else `unknown`.
pub open spec fn module_name_of(source: Seq<char>, file: DolFile) -> Seq<char> {
    match file.module {
        Some(m) if m.path@.len() > 0 => m.path@.last()@,
        _ => match path_file_stem(source) {
            Some(s) => s,
            None => "unknown"@,
        },
    }
}

/// The Rust path of a use declaration's path: its components joined by
/// `::`.
pub open spec fn use_path(u: UseDecl) -> Seq<char> {
    join_with(strings_view(u.path@), "::"@)
}

/// The Rust `use` statement for a DOL use declaration: a `dol::` path
/// becomes a `crate::` path, with `*`, nothing, or the named items; any
/// other path is used as it is.
pub open spec fn import_text(u: UseDecl) -> Seq<char> {
    let path = use_path(u);
    if seq_starts_with(path, "dol::"@) {
        let internal = "crate::"@ + path.skip(5);
        match u.items {
            UseItems::All => "use "@ + internal + "::*;"@,
            UseItems::Single => "use "@ + internal + ";"@,
            UseItems::Named(items) => "use "@ + internal + "::{ "@ + join_with(
                items@.map_values(|i: crate::ast::UseItem| i.name@),
                ", "@,
            ) + " };"@,
        }
    } else {
        "use "@ + path + ";"@
    }
}

/// The imports of the uses `us`: each distinct, non-empty import once, in
/// the order of its first use.
pub open spec fn import_lines(us: Seq<UseDecl>) -> Seq<Seq<char>>
    decreases us.len(),
{
    if us.len() == 0 {
        Seq::empty()
    } else {
        let d = import_lines(us.drop_last());
        let x = import_text(us.last());
        if x.len() > 0 && !d.contains(x) {
            d.push(x)
        } else {
            d
        }
    }
}

/// Lines joined, each followed by a newline.
pub open spec fn lines_text(ls: Seq<Seq<char>>) -> Seq<char>
    decreases ls.len(),
{
    if ls.len() == 0 {
        Seq::empty()
    } else {
        lines_text(ls.drop_last()) + ls.last() + "\n"@
    }
}

/// Whether `v` holds the text `s`.
fn holds_text(v: &Vec<String>, s: &str) -> (r: bool)
    ensures
        r == strings_view(v@).contains(s@),
{
    let mut i: usize = 0;
    while i < v.len()
        invariant
            i <= v@.len(),
            forall|j: int| 0 <= j < i ==> strings_view(v@)[j] != s@,
        decreases v.len() - i,
    {
        if str_eq(v[i].as_str(), s) {
            assert(strings_view(v@)[i as int] == s@);
            return true;
        }
        i = i + 1;
    }
    false
}

impl CrateCodegen {
    /// Analyze a DOL file to extract module information: its name, its
    /// full path, where it was read from, and the `dol` modules it uses
    /// (each once, in the order of first use).
    pub fn analyze_module(&self, source_path: &str, file: &DolFile) -> (r: ModuleInfo)
        ensures
            r.name@ == module_name_of(source_path@, *file),
            r.full_path@ == match file.module {
                Some(m) => join_with(strings_view(m.path@), "."@),
                None => module_name_of(source_path@, *file),
            },
            r.source_path@ == source_path@,
            strings_view(r.dependencies@) == dol_dependencies(file.uses@),
    {
        let name = match &file.module {
            Some(m) if m.path.len() > 0 => owned(m.path[m.path.len() - 1].as_str()),
            _ => match file_stem_of(source_path) {
                Some(s) => s,
                None => owned("unknown"),
            },
        };
        let full_path = match &file.module {
            Some(m) => join_strings(&m.path, "."),
            None => owned(name.as_str()),
        };
        let mut dependencies: Vec<String> = Vec::new();
        let mut i: usize = 0;
        assert(file.uses@.take(0) =~= Seq::<UseDecl>::empty());
        assert(strings_view(dependencies@) =~= Seq::<Seq<char>>::empty());
        while i < file.uses.len()
            invariant
                i <= file.uses@.len(),
                strings_view(dependencies@) == dol_dependencies(file.uses@.take(i as int)),
            decreases file.uses.len() - i,
        {
            let u = &file.uses[i];
            proof {
                assert(file.uses@.take(i + 1).drop_last() =~= file.uses@.take(i as int));
                assert(file.uses@.take(i + 1).last() == *u);
            }
            if u.path.len() >= 2 && str_eq(u.path[0].as_str(), "dol") {
                let dep = u.path[1].as_str();
                if !holds_text(&dependencies, dep) {
                    let ghost before = strings_view(dependencies@);
                    dependencies.push(owned(dep));
                    assert(strings_view(dependencies@) =~= before.push(dep@));
                }
            }
            i = i + 1;
        }
        assert(file.uses@.take(file.uses@.len() as int) =~= file.uses@);
        ModuleInfo { name, full_path, source_path: owned(source_path), dependencies }
    }

    /// Convert a DOL use declaration to a Rust use statement.
    pub fn resolve_import(&self, use_decl: &UseDecl) -> (r: String)
        ensures
            r@ == import_text(*use_decl),
    {
        let path = join_strings(&use_decl.path, "::");
        if starts_with(path.as_str(), "dol::") {
            let cs = crate::text::chars_of(path.as_str());
            proof {
                reveal_strlit("dol::");
            }
            let rest = crate::text::string_from_range(&cs, 5, cs.len());
            let mut internal = owned("crate::");
            internal.append(rest.as_str());
            assert(internal@ =~= "crate::"@ + path@.skip(5));
            let mut out = owned("use ");
            out.append(internal.as_str());
            match &use_decl.items {
                UseItems::All => {
                    out.append("::*;");
                },
                UseItems::Single => {
                    out.append(";");
                },
                UseItems::Named(items) => {
                    let mut names: Vec<String> = Vec::new();
                    let mut j: usize = 0;
                    while j < items.len()
                        invariant
                            j <= items@.len(),
                            strings_view(names@) == items@.take(j as int).map_values(
                                |i: crate::ast::UseItem| i.name@,
                            ),
                        decreases items.len() - j,
                    {
                        let ghost before = strings_view(names@);
                        names.push(owned(items[j].name.as_str()));
                        assert(strings_view(names@) =~= before.push(items@[j as int].name@));
                        assert(items@.take(j + 1).map_values(|i: crate::ast::UseItem| i.name@)
                            =~= items@.take(j as int).map_values(|i: crate::ast::UseItem| i.name@).push(
                            items@[j as int].name@,
                        ));
                        j = j + 1;
                    }
                    assert(items@.take(items@.len() as int) =~= items@);
                    out.append("::{ ");
                    out.append(join_strings(&names, ", ").as_str());
                    out.append(" };");
                },
            }
            out
        } else {
            let mut out = owned("use ");
            out.append(path.as_str());
            out.append(";");
            out
        }
    }

    /// Generate import statements from DOL use declarations: each distinct
    /// import once, in the order of its first use, one per line.
    pub fn gen_imports(&self, file: &DolFile) -> (r: String)
        ensures
            r@ == lines_text(import_lines(file.uses@)),
    {
        let mut output = String::new();
        let mut seen: Vec<String> = Vec::new();
        let mut i: usize = 0;
        assert(file.uses@.take(0) =~= Seq::<UseDecl>::empty());
        assert(strings_view(seen@) =~= Seq::<Seq<char>>::empty());
        while i < file.uses.len()
            invariant
                i <= file.uses@.len(),
                strings_view(seen@) == import_lines(file.uses@.take(i as int)),
                output@ == lines_text(strings_view(seen@)),
            decreases file.uses.len() - i,
        {
            let u = &file.uses[i];
            proof {
                assert(file.uses@.take(i + 1).drop_last() =~= file.uses@.take(i as int));
                assert(file.uses@.take(i + 1).last() == *u);
            }
            let imp = self.resolve_import(u);
            proof {
                reveal_strlit("");
                assert(imp@.len() == 0 ==> imp@ =~= ""@);
            }
            if !str_eq(imp.as_str(), "") && !holds_text(&seen, imp.as_str()) {
                let ghost before = strings_view(seen@);
                output.append(imp.as_str());
                output.append("\n");
                seen.push(imp);
                assert(strings_view(seen@) =~= before.push(imp@));
                assert(strings_view(seen@).drop_last() =~= before);
            }
            i = i + 1;
        }
        assert(file.uses@.take(file.uses@.len() as int) =~= file.uses@);
        output
    }
}

} // verus!

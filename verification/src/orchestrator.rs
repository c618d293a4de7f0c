//! Ordering the modules of a Spirit build, and the errors of a build.
//!
//! Before code generation the modules are put in dependency order by a
//! depth-first walk: each module comes after the modules it uses, and a
//! module reached again while its own dependencies are being walked is a
//! circular dependency. A dependency that names no module of the build is
//! skipped.

use vstd::prelude::*;

use crate::text::{owned, str_eq, strings_view};

verus! {

// ---------------------------------------------------------------------------
// Errors
// ---------------------------------------------------------------------------

/// Errors that can occur during the build process.
#[derive(Debug)]
pub enum BuildError {
    /// I/O error
    IoError(String),
    /// Parse error
    ParseError(String),
    /// Module not found
    ModuleNotFound(String),
    /// Circular dependency
    CircularDependency(String),
    /// Invalid path
    InvalidPath(String),
    /// Compilation error
    CompileError(String),
}

impl BuildError {
    /// The error's message.
    pub open spec fn spec_message(&self) -> Seq<char> {
        match self {
            BuildError::IoError(m) => "I/O error: "@ + m@,
            BuildError::ParseError(m) => "Parse error: "@ + m@,
            BuildError::ModuleNotFound(m) => "Module not found: "@ + m@,
            BuildError::CircularDependency(m) => "Circular dependency: "@ + m@,
            BuildError::InvalidPath(m) => "Invalid path: "@ + m@,
            BuildError::CompileError(m) => "Compilation error: "@ + m@,
        }
    }

    /// The error's message, as displayed.
    pub fn message(&self) -> (r: String)
        ensures
            r@ == self.spec_message(),
    {
        let (prefix, m) = match self {
            BuildError::IoError(m) => ("I/O error: ", m),
            BuildError::ParseError(m) => ("Parse error: ", m),
            BuildError::ModuleNotFound(m) => ("Module not found: ", m),
            BuildError::CircularDependency(m) => ("Circular dependency: ", m),
            BuildError::InvalidPath(m) => ("Invalid path: ", m),
            BuildError::CompileError(m) => ("Compilation error: ", m),
        };
        let mut s = owned(prefix);
        s.append(m.as_str());
        s
    }
}

// ---------------------------------------------------------------------------
// Modules
// ---------------------------------------------------------------------------

/// A module of a Spirit build, with the modules it uses.
#[derive(Debug)]
pub struct Module {
    /// Module name (the file's stem)
    pub name: String,
    /// Full module path (e.g. "container.types")
    pub full_path: String,
    /// Source file path
    pub file_path: String,
    /// Names of the modules it uses
    pub dependencies: Vec<String>,
}

/// A module as plain text: name, path, file and dependencies.
pub type ModuleView = (Seq<char>, Seq<char>, Seq<char>, Seq<Seq<char>>);

/// The plain view of a module.
pub open spec fn module_view(m: Module) -> ModuleView {
    (m.name@, m.full_path@, m.file_path@, strings_view(m.dependencies@))
}

/// The plain views of modules.
pub open spec fn modules_view(ms: Seq<Module>) -> Seq<ModuleView> {
    ms.map_values(|m: Module| module_view(m))
}

/// The index of the last of the first `n` modules named `name`: the module
/// that a name stands for.
pub open spec fn last_named(ms: Seq<ModuleView>, name: Seq<char>, n: nat) -> Option<nat>
    decreases n,
{
    if n == 0 {
        None
    } else if ms[n - 1].0 == name {
        Some((n - 1) as nat)
    } else {
        last_named(ms, name, (n - 1) as nat)
    }
}

/// The names of the modules.
pub open spec fn module_names(ms: Seq<ModuleView>) -> Set<Seq<char>> {
    ms.map_values(|m: ModuleView| m.0).to_set()
}

/// The number of module names not on the walk's current path.
pub open spec fn open_count(ms: Seq<ModuleView>, visiting: Set<Seq<char>>) -> nat {
    module_names(ms).difference(visiting).len()
}

/// The outcome of a walk: the names visited and the order so far, or the
/// name that closed a cycle.
pub type WalkResult = Result<(Set<Seq<char>>, Seq<nat>), Seq<char>>;

/// Visiting `name`, with `visited` done, `visiting` on the current path and
/// the order `sorted` so far; `fuel` bounds the depth of the walk.
pub open spec fn visit(
    ms: Seq<ModuleView>,
    name: Seq<char>,
    visited: Set<Seq<char>>,
    visiting: Set<Seq<char>>,
    sorted: Seq<nat>,
    fuel: nat,
) -> WalkResult
    decreases fuel, 0nat,
{
    if visited.contains(name) {
        Ok((visited, sorted))
    } else if visiting.contains(name) {
        Err(name)
    } else {
        match last_named(ms, name, ms.len()) {
            None => Ok((visited, sorted)),
            Some(i) => if fuel == 0 {
                Ok((visited, sorted))
            } else {
                match visit_deps(
                    ms,
                    ms[i as int].3,
                    0,
                    visited,
                    visiting.insert(name),
                    sorted,
                    (fuel - 1) as nat,
                ) {
                    Err(c) => Err(c),
                    Ok((v, s)) => Ok((v.insert(name), s.push(i))),
                }
            },
        }
    }
}

/// Visiting the dependencies `deps` from index `j` on, in order.
pub open spec fn visit_deps(
    ms: Seq<ModuleView>,
    deps: Seq<Seq<char>>,
    j: nat,
    visited: Set<Seq<char>>,
    visiting: Set<Seq<char>>,
    sorted: Seq<nat>,
    fuel: nat,
) -> WalkResult
    decreases fuel, deps.len() + 1 - j,
{
    if j >= deps.len() {
        Ok((visited, sorted))
    } else {
        match visit(ms, deps[j as int], visited, visiting, sorted, fuel) {
            Err(c) => Err(c),
            Ok((v, s)) => visit_deps(ms, deps, j + 1, v, visiting, s, fuel),
        }
    }
}

/// Visiting every module from index `k` on, in order.
pub open spec fn visit_all(ms: Seq<ModuleView>, k: nat, visited: Set<Seq<char>>, sorted: Seq<nat>) -> Result<
    Seq<nat>,
    Seq<char>,
>
    decreases ms.len() - k,
{
    if k >= ms.len() {
        Ok(sorted)
    } else {
        match visit(ms, ms[k as int].0, visited, Set::empty(), sorted, module_names(ms).len()) {
            Err(c) => Err(c),
            Ok((v, s)) => visit_all(ms, k + 1, v, s),
        }
    }
}

/// The dependency order of the modules, as indices into them, or the
/// module that closes a cycle.
pub open spec fn dependency_order(ms: Seq<ModuleView>) -> Result<Seq<nat>, Seq<char>> {
    visit_all(ms, 0, Set::empty(), Seq::empty())
}

/// The message of a circular dependency found at `name`.
pub open spec fn cycle_message(name: Seq<char>) -> Seq<char> {
    "Circular dependency detected involving module: "@ + name
}

// ---------------------------------------------------------------------------
// The walk
// ---------------------------------------------------------------------------

/// The set of names a list holds.
pub open spec fn name_set(v: Seq<String>) -> Set<Seq<char>> {
    strings_view(v).to_set()
}

/// The indices of a list, as natural numbers.
pub open spec fn indices_view(v: Seq<usize>) -> Seq<nat> {
    v.map_values(|i: usize| i as nat)
}

/// Whether `v` holds `name`.
fn holds_name(v: &Vec<String>, name: &str) -> (r: bool)
    ensures
        r == name_set(v@).contains(name@),
{
    let mut i: usize = 0;
    while i < v.len()
        invariant
            i <= v@.len(),
            forall|k: int| 0 <= k < i ==> #[trigger] v@[k]@ != name@,
        decreases v.len() - i,
    {
        if str_eq(v[i].as_str(), name) {
            assert(strings_view(v@)[i as int] == name@);
            return true;
        }
        i = i + 1;
    }
    assert forall|k: int| 0 <= k < strings_view(v@).len() implies strings_view(v@)[k] != name@ by {
        assert(strings_view(v@)[k] == v@[k]@);
    }
    false
}

/// The index of the last module named `name`.
fn find_last(modules: &Vec<Module>, name: &str) -> (r: Option<usize>)
    ensures
        match last_named(modules_view(modules@), name@, modules@.len()) {
            Some(i) => r == Some(i as usize),
            None => r is None,
        },
{
    let ghost mv = modules_view(modules@);
    let mut n: usize = modules.len();
    while n > 0
        invariant
            n <= modules@.len(),
            mv == modules_view(modules@),
            last_named(mv, name@, modules@.len()) == last_named(mv, name@, n as nat),
        decreases n,
    {
        assert(mv[n - 1].0 == modules@[n - 1].name@);
        if str_eq(modules[n - 1].name.as_str(), name) {
            return Some(n - 1);
        }
        n = n - 1;
    }
    None
}

/// A copy of a list of strings.
fn copy_strings(v: &Vec<String>) -> (r: Vec<String>)
    ensures
        strings_view(r@) == strings_view(v@),
{
    let mut out: Vec<String> = Vec::new();
    let mut i: usize = 0;
    while i < v.len()
        invariant
            i <= v@.len(),
            strings_view(out@) == strings_view(v@).take(i as int),
        decreases v.len() - i,
    {
        let ghost before = strings_view(out@);
        out.push(owned(v[i].as_str()));
        assert(strings_view(out@) =~= before.push(v@[i as int]@));
        assert(strings_view(v@).take(i + 1) =~= strings_view(v@).take(i as int).push(v@[i as int]@));
        i = i + 1;
    }
    assert(strings_view(v@).take(v@.len() as int) =~= strings_view(v@));
    out
}

/// A copy of a module.
fn copy_module(m: &Module) -> (r: Module)
    ensures
        module_view(r) == module_view(*m),
{
    Module {
        name: owned(m.name.as_str()),
        full_path: owned(m.full_path.as_str()),
        file_path: owned(m.file_path.as_str()),
        dependencies: copy_strings(&m.dependencies),
    }
}

/// Taking a module name onto the path leaves one name fewer off it.
proof fn lemma_open_count_step(ms: Seq<ModuleView>, visiting: Set<Seq<char>>, name: Seq<char>)
    requires
        module_names(ms).contains(name),
        !visiting.contains(name),
    ensures
        open_count(ms, visiting.insert(name)) + 1 == open_count(ms, visiting),
{
    let names = module_names(ms);
    vstd::seq_lib::seq_to_set_is_finite(ms.map_values(|m: ModuleView| m.0));
    assert(names.difference(visiting.insert(name)) =~= names.difference(visiting).remove(name));
    vstd::set_lib::lemma_len_difference(names, visiting);
    assert(names.difference(visiting).contains(name));
    assert(names.difference(visiting).finite()) by {
        vstd::set_lib::lemma_len_subset(names.difference(visiting), names);
    }
}

/// The module that a name stands for is among the names.
proof fn lemma_named_is_name(ms: Seq<ModuleView>, name: Seq<char>, n: nat)
    requires
        n <= ms.len(),
    ensures
        last_named(ms, name, n) matches Some(i) ==> i < n && ms[i as int].0 == name && module_names(
            ms,
        ).contains(name),
    decreases n,
{
    if n > 0 {
        if ms[n - 1].0 == name {
            assert(ms.map_values(|m: ModuleView| m.0)[n - 1] == name);
        } else {
            lemma_named_is_name(ms, name, (n - 1) as nat);
        }
    }
}

/// Visits the module `name`: its dependencies first, then the module
/// itself is appended to the order.
fn visit_module(
    modules: &Vec<Module>,
    name: &str,
    visited: &mut Vec<String>,
    visiting: &mut Vec<String>,
    sorted: &mut Vec<usize>,
    Ghost(fuel): Ghost<nat>,
) -> (r: Result<(), BuildError>)
    requires
        fuel >= open_count(modules_view(modules@), name_set(old(visiting)@)),
        forall|k: int| 0 <= k < old(sorted)@.len() ==> #[trigger] old(sorted)@[k] < modules@.len(),
    ensures
        match visit(
            modules_view(modules@),
            name@,
            name_set(old(visited)@),
            name_set(old(visiting)@),
            indices_view(old(sorted)@),
            fuel,
        ) {
            Ok((v, s)) => {
                &&& r is Ok
                &&& name_set(final(visited)@) == v
                &&& indices_view(final(sorted)@) == s
                &&& final(visiting)@ == old(visiting)@
                &&& forall|k: int| 0 <= k < final(sorted)@.len() ==> #[trigger] final(sorted)@[k] < modules@.len()
            },
            Err(c) => r matches Err(BuildError::CircularDependency(m)) && m@ == cycle_message(c),
        },
    decreases fuel,
{
    let ghost mv = modules_view(modules@);
    if holds_name(visited, name) {
        return Ok(());
    }
    if holds_name(visiting, name) {
        let mut m = owned("Circular dependency detected involving module: ");
        m.append(name);
        return Err(BuildError::CircularDependency(m));
    }
    let ghost vis0 = visiting@;
    let ghost vset0 = name_set(vis0);
    visiting.push(owned(name));
    let ghost pushed = visiting@.last();
    assert(name_set(visiting@) =~= vset0.insert(name@)) by {
        assert(strings_view(visiting@) =~= strings_view(vis0).push(name@));
        strings_view(vis0).lemma_push_to_set_commute(name@);
    }
    match find_last(modules, name) {
        Some(i) => {
            proof {
                lemma_named_is_name(mv, name@, mv.len());
                lemma_open_count_step(mv, vset0, name@);
                assert(mv.len() == modules@.len());
                match last_named(mv, name@, mv.len()) {
                    Some(k) => {
                        assert(k < mv.len());
                        assert(i == k as usize);
                        assert(modules@.len() == modules.len());
                        assert(i as nat == k);
                    },
                    None => {
                        assert(false);
                    },
                }
                assert(last_named(mv, name@, mv.len()) == Some(i as nat));
            }
            let deps = &modules[i].dependencies;
            let ghost dv = strings_view(deps@);
            assert(dv == mv[i as int].3);
            let ghost f1 = (fuel - 1) as nat;
            let ghost start_visited = name_set(visited@);
            let ghost start_sorted = indices_view(sorted@);
            let mut j: usize = 0;
            while j < deps.len()
                invariant
                    j <= deps@.len(),
                    mv == modules_view(modules@),
                    dv == strings_view(deps@),
                    visiting@ == vis0.push(pushed),
                    name_set(visiting@) == vset0.insert(name@),
                    f1 >= open_count(mv, vset0.insert(name@)),
                    forall|k: int| 0 <= k < sorted@.len() ==> #[trigger] sorted@[k] < modules@.len(),
                    fuel == f1 + 1,
                    i < modules@.len(),
                    vis0 == old(visiting)@,
                    vset0 == name_set(old(visiting)@),
                    start_visited == name_set(old(visited)@),
                    start_sorted == indices_view(old(sorted)@),
                    !start_visited.contains(name@),
                    !vset0.contains(name@),
                    last_named(mv, name@, mv.len()) == Some(i as nat),
                    mv[i as int].3 == dv,
                    visit_deps(mv, dv, 0, start_visited, vset0.insert(name@), start_sorted, f1)
                        == visit_deps(
                        mv,
                        dv,
                        j as nat,
                        name_set(visited@),
                        vset0.insert(name@),
                        indices_view(sorted@),
                        f1,
                    ),
                decreases deps.len() - j,
            {
                assert(dv[j as int] == deps@[j as int]@);
                let ghost vb = name_set(visited@);
                let ghost sb = indices_view(sorted@);
                match visit_module(modules, deps[j].as_str(), visited, visiting, sorted, Ghost(f1)) {
                    Err(e) => {
                        assert(visit(mv, dv[j as int], vb, vset0.insert(name@), sb, f1) is Err);
                        assert(visit_deps(mv, dv, j as nat, vb, vset0.insert(name@), sb, f1) == visit(
                            mv,
                            dv[j as int],
                            vb,
                            vset0.insert(name@),
                            sb,
                            f1,
                        ));
                        return Err(e);
                    },
                    Ok(()) => {},
                }
                j = j + 1;
            }
            let ghost before_sorted = indices_view(sorted@);
            sorted.push(i);
            assert(indices_view(sorted@) =~= before_sorted.push(i as nat));
            let ghost before_visited = strings_view(visited@);
            visited.push(owned(name));
            assert(strings_view(visited@) =~= before_visited.push(name@));
            proof {
                before_visited.lemma_push_to_set_commute(name@);
            }
        },
        None => {},
    }
    visiting.pop();
    assert(visiting@ =~= vis0);
    Ok(())
}

/// Puts the modules in dependency order: each after the modules it uses
/// (a dependency that names no module is skipped; of several modules of
/// one name, the last stands for the name). A circular dependency leaves
/// the modules as they were and reports the module that closes it.
pub fn sort_modules_by_dependencies(modules: &mut Vec<Module>) -> (r: Result<(), BuildError>)
    ensures
        match dependency_order(modules_view(old(modules)@)) {
            Ok(order) => r is Ok && modules_view(final(modules)@) == order.map_values(
                |i: nat| modules_view(old(modules)@)[i as int],
            ),
            Err(c) => r matches Err(BuildError::CircularDependency(m)) && m@ == cycle_message(c)
                && final(modules)@ == old(modules)@,
        },
{
    let ghost mv = modules_view(modules@);
    let ghost total = module_names(mv).len();
    let mut visited: Vec<String> = Vec::new();
    let mut visiting: Vec<String> = Vec::new();
    let mut sorted: Vec<usize> = Vec::new();
    assert(name_set(visited@) =~= Set::<Seq<char>>::empty());
    assert(indices_view(sorted@) =~= Seq::<nat>::empty());
    let mut k: usize = 0;
    while k < modules.len()
        invariant
            k <= modules@.len(),
            mv == modules_view(modules@),
            total == module_names(mv).len(),
            visiting@ == Seq::<String>::empty(),
            forall|q: int| 0 <= q < sorted@.len() ==> #[trigger] sorted@[q] < modules@.len(),
            dependency_order(mv) == visit_all(mv, k as nat, name_set(visited@), indices_view(sorted@)),
        decreases modules.len() - k,
    {
        assert(name_set(visiting@) =~= Set::<Seq<char>>::empty());
        assert(module_names(mv).difference(Set::<Seq<char>>::empty()) =~= module_names(mv));
        assert(mv[k as int].0 == modules@[k as int].name@);
        match visit_module(modules, modules[k].name.as_str(), &mut visited, &mut visiting, &mut sorted, Ghost(total)) {
            Err(e) => {
                return Err(e);
            },
            Ok(()) => {},
        }
        k = k + 1;
    }
    let mut out: Vec<Module> = Vec::new();
    let mut q: usize = 0;
    while q < sorted.len()
        invariant
            q <= sorted@.len(),
            mv == modules_view(modules@),
            forall|p: int| 0 <= p < sorted@.len() ==> #[trigger] sorted@[p] < modules@.len(),
            modules_view(out@) == indices_view(sorted@).take(q as int).map_values(
                |i: nat| mv[i as int],
            ),
        decreases sorted.len() - q,
    {
        let m = copy_module(&modules[sorted[q]]);
        let ghost before = modules_view(out@);
        out.push(m);
        assert(modules_view(out@) =~= before.push(mv[sorted@[q as int] as int]));
        assert(indices_view(sorted@).take(q + 1).map_values(|i: nat| mv[i as int]) =~= indices_view(
            sorted@,
        ).take(q as int).map_values(|i: nat| mv[i as int]).push(mv[sorted@[q as int] as int]));
        q = q + 1;
    }
    assert(indices_view(sorted@).take(sorted@.len() as int) =~= indices_view(sorted@));
    *modules = out;
    Ok(())
}


// ---------------------------------------------------------------------------
// What the order guarantees
// ---------------------------------------------------------------------------

/// The module that `name` stands for, if any.
pub open spec fn resolved(ms: Seq<ModuleView>, name: Seq<char>) -> Option<nat> {
    last_named(ms, name, ms.len())
}

/// Whether the module index `q` stands in `order` before position `p`.
pub open spec fn placed_before(order: Seq<nat>, q: nat, p: int) -> bool {
    exists|p2: int| 0 <= p2 < p && #[trigger] order[p2] == q
}

/// Whether every dependency of the module at position `p` of `order` that
/// names a module stands before it.
pub open spec fn deps_placed(ms: Seq<ModuleView>, order: Seq<nat>, p: int) -> bool {
    forall|j: int|
        0 <= j < ms[order[p] as int].3.len() ==> match #[trigger] resolved(ms, ms[order[p] as int].3[j]) {
            Some(q) => placed_before(order, q, p),
            None => true,
        }
}

/// What holds of a walk in progress: each visited name's module is in the
/// order, and each module in the order comes after its dependencies.
pub open spec fn walk_inv(ms: Seq<ModuleView>, visited: Set<Seq<char>>, sorted: Seq<nat>) -> bool {
    &&& forall|n: Seq<char>| #[trigger] visited.contains(n) ==> match resolved(ms, n) {
        Some(q) => placed_before(sorted, q, sorted.len() as int),
        None => false,
    }
    &&& forall|p: int| 0 <= p < sorted.len() ==> #[trigger] sorted[p] < ms.len() && deps_placed(ms, sorted, p)
}

/// Whether `s` begins with `sorted`.
pub open spec fn extends(s: Seq<nat>, sorted: Seq<nat>) -> bool {
    sorted.len() <= s.len() && forall|p: int| 0 <= p < sorted.len() ==> #[trigger] s[p] == sorted[p]
}

/// Extending the order keeps what held of its prefix.
proof fn lemma_extend_keeps(ms: Seq<ModuleView>, visited: Set<Seq<char>>, sorted: Seq<nat>, s: Seq<nat>)
    requires
        walk_inv(ms, visited, sorted),
        extends(s, sorted),
    ensures
        forall|n: Seq<char>| #[trigger] visited.contains(n) ==> match resolved(ms, n) {
            Some(q) => placed_before(s, q, s.len() as int),
            None => false,
        },
        forall|p: int| 0 <= p < sorted.len() ==> #[trigger] s[p] < ms.len() && deps_placed(ms, s, p),
{
    assert forall|n: Seq<char>| #[trigger] visited.contains(n) implies match resolved(ms, n) {
        Some(q) => placed_before(s, q, s.len() as int),
        None => false,
    } by {
        let q = resolved(ms, n)->0;
        let p2 = choose|p2: int| 0 <= p2 < sorted.len() && #[trigger] sorted[p2] == q;
        assert(s[p2] == q);
    }
    assert forall|p: int| 0 <= p < sorted.len() implies #[trigger] s[p] < ms.len() && deps_placed(ms, s, p) by {
        assert(s[p] == sorted[p]);
        assert(deps_placed(ms, sorted, p));
        assert forall|j: int| 0 <= j < ms[s[p] as int].3.len() implies match #[trigger] resolved(
            ms,
            ms[s[p] as int].3[j],
        ) {
            Some(q) => placed_before(s, q, p),
            None => true,
        } by {
            match resolved(ms, ms[sorted[p] as int].3[j]) {
                Some(q) => {
                    let p2 = choose|p2: int| 0 <= p2 < p && #[trigger] sorted[p2] == q;
                    assert(s[p2] == q);
                },
                None => {},
            }
        }
    }
}

/// A named module's name is among the names, and so is resolved.
proof fn lemma_name_resolves(ms: Seq<ModuleView>, k: int)
    requires
        0 <= k < ms.len(),
    ensures
        resolved(ms, ms[k].0) is Some,
        module_names(ms).contains(ms[k].0),
    decreases ms.len() - k,
{
    assert(ms.map_values(|m: ModuleView| m.0)[k] == ms[k].0);
    lemma_last_named_found(ms, ms[k].0, k, ms.len());
}

/// A name held by one of the first `n` modules has a last holder among them.
proof fn lemma_last_named_found(ms: Seq<ModuleView>, name: Seq<char>, k: int, n: nat)
    requires
        0 <= k < n <= ms.len(),
        ms[k].0 == name,
    ensures
        last_named(ms, name, n) is Some,
    decreases n,
{
    if ms[n - 1].0 != name {
        lemma_last_named_found(ms, name, k, (n - 1) as nat);
    }
}

/// A walk from `name` that succeeds keeps the walk's invariant, only adds
/// to what was done, and leaves `name` visited if it names a module.
proof fn lemma_visit_sound(
    ms: Seq<ModuleView>,
    name: Seq<char>,
    visited: Set<Seq<char>>,
    visiting: Set<Seq<char>>,
    sorted: Seq<nat>,
    fuel: nat,
)
    requires
        walk_inv(ms, visited, sorted),
        fuel >= open_count(ms, visiting),
    ensures
        visit(ms, name, visited, visiting, sorted, fuel) matches Ok((v, s)) ==> {
            &&& walk_inv(ms, v, s)
            &&& visited.subset_of(v)
            &&& extends(s, sorted)
            &&& (resolved(ms, name) is Some ==> v.contains(name))
        },
    decreases fuel, 0nat,
{
    if visited.contains(name) || visiting.contains(name) {
        return;
    }
    match last_named(ms, name, ms.len()) {
        None => {},
        Some(i) => {
            lemma_named_is_name(ms, name, ms.len());
            lemma_open_count_step(ms, visiting, name);
            let f1 = (fuel - 1) as nat;
            let deps = ms[i as int].3;
            lemma_visit_deps_sound(ms, deps, 0, visited, visiting.insert(name), sorted, f1);
            match visit_deps(ms, deps, 0, visited, visiting.insert(name), sorted, f1) {
                Err(_) => {},
                Ok((v, s)) => {
                    let v2 = v.insert(name);
                    let s2 = s.push(i);
                    assert(extends(s2, s));
                    lemma_extend_keeps(ms, v, s, s2);
                    assert(placed_before(s2, i, s2.len() as int)) by {
                        assert(s2[s.len() as int] == i);
                    }
                    assert(deps_placed(ms, s2, s.len() as int)) by {
                        assert forall|j: int| 0 <= j < ms[s2[s.len() as int] as int].3.len() implies match
                            #[trigger] resolved(ms, ms[s2[s.len() as int] as int].3[j]) {
                            Some(q) => placed_before(s2, q, s.len() as int),
                            None => true,
                        } by {
                            assert(s2[s.len() as int] == i);
                            if resolved(ms, deps[j]) is Some {
                                assert(v.contains(deps[j]));
                                let q = resolved(ms, deps[j])->0;
                                let p2 = choose|p2: int| 0 <= p2 < s.len() && #[trigger] s[p2] == q;
                                assert(s2[p2] == q);
                            }
                        }
                    }
                    assert(walk_inv(ms, v2, s2));
                    assert(extends(s2, sorted));
                },
            }
        },
    }
}

/// Walking the dependencies from index `j` on: if it succeeds, the walk's
/// invariant holds, nothing done is undone, and each of those dependencies
/// that names a module is visited.
proof fn lemma_visit_deps_sound(
    ms: Seq<ModuleView>,
    deps: Seq<Seq<char>>,
    j: nat,
    visited: Set<Seq<char>>,
    visiting: Set<Seq<char>>,
    sorted: Seq<nat>,
    fuel: nat,
)
    requires
        walk_inv(ms, visited, sorted),
        fuel >= open_count(ms, visiting),
    ensures
        visit_deps(ms, deps, j, visited, visiting, sorted, fuel) matches Ok((v, s)) ==> {
            &&& walk_inv(ms, v, s)
            &&& visited.subset_of(v)
            &&& extends(s, sorted)
            &&& forall|k: int| j <= k < deps.len() && (#[trigger] resolved(ms, deps[k])) is Some ==> v.contains(deps[k])
        },
    decreases fuel, deps.len() + 1 - j,
{
    if j < deps.len() {
        lemma_visit_sound(ms, deps[j as int], visited, visiting, sorted, fuel);
        match visit(ms, deps[j as int], visited, visiting, sorted, fuel) {
            Err(_) => {},
            Ok((v, s)) => {
                lemma_visit_deps_sound(ms, deps, j + 1, v, visiting, s, fuel);
                match visit_deps(ms, deps, j + 1, v, visiting, s, fuel) {
                    Err(_) => {},
                    Ok((v2, s2)) => {
                        assert(extends(s2, sorted)) by {
                            assert forall|p: int| 0 <= p < sorted.len() implies #[trigger] s2[p] == sorted[p] by {
                                assert(s[p] == sorted[p]);
                            }
                        }
                    },
                }
            },
        }
    }
}

/// Walking every module from index `k` on: if it succeeds, each module of
/// the order comes after its dependencies, and every module's name has its
/// module in the order.
proof fn lemma_visit_all_sound(ms: Seq<ModuleView>, k: nat, visited: Set<Seq<char>>, sorted: Seq<nat>)
    requires
        walk_inv(ms, visited, sorted),
        forall|k2: int| 0 <= k2 < k && k2 < ms.len() ==> visited.contains(#[trigger] ms[k2].0),
    ensures
        visit_all(ms, k, visited, sorted) matches Ok(order) ==> {
            &&& forall|p: int| 0 <= p < order.len() ==> #[trigger] order[p] < ms.len() && deps_placed(ms, order, p)
            &&& forall|k2: int|
                0 <= k2 < ms.len() ==> placed_before(order, (#[trigger] resolved(ms, ms[k2].0))->0, order.len() as int)
        },
    decreases ms.len() - k,
{
    if k >= ms.len() {
        assert forall|k2: int| 0 <= k2 < ms.len() implies placed_before(
            sorted,
            (#[trigger] resolved(ms, ms[k2].0))->0,
            sorted.len() as int,
        ) by {
            assert(visited.contains(ms[k2].0));
        }
    } else {
        let names = module_names(ms);
        assert(names.difference(Set::<Seq<char>>::empty()) =~= names);
        lemma_visit_sound(ms, ms[k as int].0, visited, Set::empty(), sorted, names.len());
        lemma_name_resolves(ms, k as int);
        match visit(ms, ms[k as int].0, visited, Set::empty(), sorted, names.len()) {
            Err(_) => {},
            Ok((v, s)) => {
                lemma_visit_all_sound(ms, k + 1, v, s);
            },
        }
    }
}

/// In the dependency order of the modules, each module comes after every
/// module it uses (a dependency that names no module aside), and the
/// module that each name stands for is in the order.
pub proof fn lemma_dependencies_come_first(ms: Seq<ModuleView>)
    ensures
        dependency_order(ms) matches Ok(order) ==> {
            &&& forall|p: int| 0 <= p < order.len() ==> #[trigger] order[p] < ms.len() && deps_placed(ms, order, p)
            &&& forall|k: int|
                0 <= k < ms.len() ==> placed_before(order, (#[trigger] resolved(ms, ms[k].0))->0, order.len() as int)
        },
{
    lemma_visit_all_sound(ms, 0, Set::empty(), Seq::empty());
}

} // verus!

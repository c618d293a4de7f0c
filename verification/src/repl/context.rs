//! The state that the REPL keeps across evaluations: the symbols defined so
//! far, the dependencies between them, and the roots that tree shaking must
//! keep.

use vstd::prelude::*;

use crate::assoc::{
    assoc_map, keys_unique, lemma_assoc_absent, lemma_assoc_dom, lemma_assoc_has, lemma_assoc_push,
    lemma_assoc_remove, lemma_assoc_update,
};
use crate::text::{owned, str_eq, strings_view};

verus! {

/// Information about a defined symbol.
#[derive(Debug, Clone)]
pub struct SymbolInfo {
    /// Name of the symbol
    pub name: String,
    /// Kind of declaration (gene, trait, function, etc.)
    pub kind: String,
    /// Dependencies this symbol uses
    pub dependencies: Vec<String>,
    /// Whether this is a public symbol
    pub is_public: bool,
    /// Optional type signature
    pub type_sig: Option<String>,
}

/// A symbol: name, kind, dependencies, whether it is public, and type
/// signature.
pub type SymbolView = (Seq<char>, Seq<char>, Seq<Seq<char>>, bool, Option<Seq<char>>);

/// The view of a symbol.
pub open spec fn symbol_view(s: SymbolInfo) -> SymbolView {
    (
        s.name@,
        s.kind@,
        strings_view(s.dependencies@),
        s.is_public,
        match s.type_sig {
            Some(t) => Some(t@),
            None => None,
        },
    )
}

/// REPL context maintaining state across evaluations.
#[derive(Debug, Clone)]
pub struct ReplContext {
    symbols: Vec<SymbolInfo>,
    imports: Vec<(String, Vec<String>)>,
    roots: Vec<String>,
}

impl ReplContext {
    spec fn symbol_entries(&self) -> Seq<(Seq<char>, SymbolView)> {
        self.symbols@.map_values(|s: SymbolInfo| (s.name@, symbol_view(s)))
    }

    spec fn import_entries(&self) -> Seq<(Seq<char>, Seq<Seq<char>>)> {
        self.imports@.map_values(|e: (String, Vec<String>)| (e.0@, strings_view(e.1@)))
    }

    /// The defined symbols, by name.
    pub closed spec fn symbol_map(&self) -> Map<Seq<char>, SymbolView> {
        assoc_map(self.symbol_entries())
    }

    /// The recorded dependencies, by the name of the symbol that has them.
    pub closed spec fn import_map(&self) -> Map<Seq<char>, Seq<Seq<char>>> {
        assoc_map(self.import_entries())
    }

    /// The root symbols, in the order they were added.
    pub closed spec fn root_names(&self) -> Seq<Seq<char>> {
        strings_view(self.roots@)
    }

    /// No name is recorded twice, and every root is a defined symbol.
    pub closed spec fn wf(&self) -> bool {
        &&& keys_unique(self.symbol_entries())
        &&& keys_unique(self.import_entries())
        &&& forall|i: int|
            0 <= i < self.root_names().len() ==> self.symbol_map().dom().contains(
                #[trigger] self.root_names()[i],
            )
        &&& forall|n: Seq<char>|
            #[trigger] self.symbol_map().dom().contains(n) ==> self.symbol_map()[n].2.no_duplicates()
    }

    /// No symbol of a valid context lists a dependency twice.
    pub proof fn lemma_dependencies_distinct(&self)
        requires
            self.wf(),
        ensures
            forall|n: Seq<char>|
                #[trigger] self.symbol_map().dom().contains(n) ==> self.symbol_map()[n].2.no_duplicates(),
    {
    }

    /// Every root of a valid context is a defined symbol.
    pub proof fn lemma_roots_defined(&self)
        requires
            self.wf(),
        ensures
            forall|n: Seq<char>| self.root_names().contains(n) ==> self.symbol_map().dom().contains(n),
    {
    }

    /// Create a new empty context.
    pub fn new() -> (r: ReplContext)
        ensures
            r.wf(),
            r.symbol_map() == Map::<Seq<char>, SymbolView>::empty(),
            r.import_map() == Map::<Seq<char>, Seq<Seq<char>>>::empty(),
            r.root_names() == Seq::<Seq<char>>::empty(),
    {
        let r = ReplContext { symbols: Vec::new(), imports: Vec::new(), roots: Vec::new() };
        assert(r.symbol_entries() =~= Seq::empty());
        assert(r.import_entries() =~= Seq::empty());
        assert(r.root_names() =~= Seq::empty());
        r
    }

    /// The index of the symbol named `name`.
    fn find_symbol(&self, name: &str) -> (r: Option<usize>)
        ensures
            match r {
                Some(i) => i < self.symbols@.len() && self.symbols@[i as int].name@ == name@,
                None => forall|j: int|
                    0 <= j < self.symbols@.len() ==> #[trigger] self.symbol_entries()[j].0 != name@,
            },
    {
        let mut i: usize = 0;
        while i < self.symbols.len()
            invariant
                i <= self.symbols@.len(),
                forall|j: int| 0 <= j < i ==> #[trigger] self.symbol_entries()[j].0 != name@,
            decreases self.symbols.len() - i,
        {
            if str_eq(self.symbols[i].name.as_str(), name) {
                return Some(i);
            }
            i = i + 1;
        }
        None
    }

    /// The index of the dependency list of `name`.
    fn find_import(&self, name: &str) -> (r: Option<usize>)
        ensures
            match r {
                Some(i) => i < self.imports@.len() && self.imports@[i as int].0@ == name@,
                None => forall|j: int|
                    0 <= j < self.imports@.len() ==> #[trigger] self.import_entries()[j].0 != name@,
            },
    {
        let mut i: usize = 0;
        while i < self.imports.len()
            invariant
                i <= self.imports@.len(),
                forall|j: int| 0 <= j < i ==> #[trigger] self.import_entries()[j].0 != name@,
            decreases self.imports.len() - i,
        {
            if str_eq(self.imports[i].0.as_str(), name) {
                return Some(i);
            }
            i = i + 1;
        }
        None
    }

    /// The index of `name` among the roots.
    fn find_root(&self, name: &str) -> (r: Option<usize>)
        ensures
            match r {
                Some(i) => i < self.roots@.len() && self.roots@[i as int]@ == name@,
                None => !self.root_names().contains(name@),
            },
    {
        let mut i: usize = 0;
        while i < self.roots.len()
            invariant
                i <= self.roots@.len(),
                forall|j: int| 0 <= j < i ==> #[trigger] self.root_names()[j] != name@,
            decreases self.roots.len() - i,
        {
            if str_eq(self.roots[i].as_str(), name) {
                return Some(i);
            }
            i = i + 1;
        }
        None
    }

    /// Add a declaration to the context: the symbol `name` of kind `kind`,
    /// public, with no dependencies or signature (replacing any symbol of
    /// that name), and `name` among the roots.
    pub fn add_declaration(&mut self, name: &str, kind: &str)
        requires
            old(self).wf(),
        ensures
            final(self).wf(),
            final(self).symbol_map() == old(self).symbol_map().insert(
                name@,
                (name@, kind@, Seq::empty(), true, None),
            ),
            final(self).import_map() == old(self).import_map(),
            final(self).root_names() == if old(self).root_names().contains(name@) {
                old(self).root_names()
            } else {
                old(self).root_names().push(name@)
            },
    {
        let info = SymbolInfo {
            name: owned(name),
            kind: owned(kind),
            dependencies: Vec::new(),
            is_public: true,
            type_sig: None,
        };
        let ghost entry = (name@, symbol_view(info));
        assert(strings_view(info.dependencies@) =~= Seq::<Seq<char>>::empty());
        let ghost before = self.symbol_entries();
        match self.find_symbol(name) {
            Some(i) => {
                self.symbols.set(i, info);
                proof {
                    assert(self.symbol_entries() =~= before.update(i as int, (before[i as int].0, entry.1)));
                    lemma_assoc_update(before, i as int, entry.1);
                }
            },
            None => {
                self.symbols.push(info);
                proof {
                    assert(self.symbol_entries() =~= before.push(entry));
                    lemma_assoc_push(before, name@, entry.1);
                }
            },
        }
        let ghost roots_before = self.root_names();
        match self.find_root(name) {
            Some(i) => {
                assert(roots_before[i as int] == name@);
            },
            None => {
                self.roots.push(owned(name));
                assert(self.root_names() =~= roots_before.push(name@));
            },
        }
        proof {
            assert forall|i: int| 0 <= i < self.root_names().len() implies self.symbol_map().dom().contains(
                #[trigger] self.root_names()[i],
            ) by {
                if i < old(self).root_names().len() {
                    assert(old(self).symbol_map().dom().contains(old(self).root_names()[i]));
                }
            }
            assert(self.symbol_map() == old(self).symbol_map().insert(
                name@,
                (name@, kind@, Seq::<Seq<char>>::empty(), true, None),
            ));
            assert forall|n: Seq<char>| #[trigger] self.symbol_map().dom().contains(n) implies self.symbol_map()[n].2.no_duplicates() by {
                if n != name@ {
                    assert(old(self).symbol_map().dom().contains(n));
                }
            }
        }
    }

    /// Add a dependency: `to` is appended to the dependency list of `from`,
    /// and to the dependencies of the symbol `from` (if defined) when they
    /// do not hold it yet.
    pub fn add_dependency(&mut self, from: &str, to: &str)
        requires
            old(self).wf(),
        ensures
            final(self).wf(),
            final(self).import_map() == old(self).import_map().insert(
                from@,
                if old(self).import_map().dom().contains(from@) {
                    old(self).import_map()[from@]
                } else {
                    Seq::empty()
                }.push(to@),
            ),
            final(self).symbol_map() == if old(self).symbol_map().dom().contains(from@) {
                let s = old(self).symbol_map()[from@];
                old(self).symbol_map().insert(
                    from@,
                    (s.0, s.1, if s.2.contains(to@) {
                        s.2
                    } else {
                        s.2.push(to@)
                    }, s.3, s.4),
                )
            } else {
                old(self).symbol_map()
            },
            final(self).root_names() == old(self).root_names(),
    {
        let ghost imports_before = self.import_entries();
        match self.find_import(from) {
            Some(i) => {
                proof {
                    lemma_assoc_has(imports_before, i as int);
                }
                let mut list = self.imports[i].1.clone();
                assert(list@ =~= self.imports@[i as int].1@);
                list.push(owned(to));
                let ghost new_list = strings_view(list@);
                assert(new_list =~= imports_before[i as int].1.push(to@));
                self.imports.set(i, (owned(from), list));
                proof {
                    assert(self.import_entries() =~= imports_before.update(i as int, (imports_before[i as int].0, new_list)));
                    lemma_assoc_update(imports_before, i as int, new_list);
                }
            },
            None => {
                let mut list: Vec<String> = Vec::new();
                list.push(owned(to));
                let ghost new_list = strings_view(list@);
                assert(new_list =~= Seq::<Seq<char>>::empty().push(to@));
                self.imports.push((owned(from), list));
                proof {
                    lemma_assoc_absent(imports_before, from@);
                    assert(self.import_entries() =~= imports_before.push((from@, new_list)));
                    lemma_assoc_push(imports_before, from@, new_list);
                }
            },
        }
        let ghost before = self.symbol_entries();
        match self.find_symbol(from) {
            Some(i) => {
                proof {
                    lemma_assoc_has(before, i as int);
                }
                let mut info = self.symbols.remove(i);
                let ghost old_deps = strings_view(info.dependencies@);
                if !contains_string(&info.dependencies, to) {
                    info.dependencies.push(owned(to));
                    assert(strings_view(info.dependencies@) =~= old_deps.push(to@));
                }
                let ghost entry = (from@, symbol_view(info));
                self.symbols.insert(i, info);
                proof {
                    assert(self.symbol_entries() =~= before.update(i as int, (before[i as int].0, entry.1)));
                    lemma_assoc_update(before, i as int, entry.1);
                }
            },
            None => {
                proof {
                    lemma_assoc_absent(before, from@);
                }
            },
        }
        proof {
            assert forall|i: int| 0 <= i < self.root_names().len() implies self.symbol_map().dom().contains(
                #[trigger] self.root_names()[i],
            ) by {
                assert(old(self).symbol_map().dom().contains(old(self).root_names()[i]));
            }
            assert(self.symbol_map() == if old(self).symbol_map().dom().contains(from@) {
                let s = old(self).symbol_map()[from@];
                old(self).symbol_map().insert(
                    from@,
                    (s.0, s.1, if s.2.contains(to@) {
                        s.2
                    } else {
                        s.2.push(to@)
                    }, s.3, s.4),
                )
            } else {
                old(self).symbol_map()
            });
            assert forall|n: Seq<char>| #[trigger] self.symbol_map().dom().contains(n) implies self.symbol_map()[n].2.no_duplicates() by {
                assert(old(self).symbol_map().dom().contains(n));
                if n == from@ {
                    let d = old(self).symbol_map()[from@].2;
                    assert(d.no_duplicates());
                    if !d.contains(to@) {
                        assert forall|a: int, b: int| 0 <= a < d.push(to@).len() && 0 <= b < d.push(to@).len() && a != b implies d.push(to@)[a] != d.push(to@)[b] by {
                            if a == d.len() as int {
                                assert(d.push(to@)[b] == d[b]);
                            } else if b == d.len() as int {
                                assert(d.push(to@)[a] == d[a]);
                            }
                        }
                    }
                }
            }
        }
    }
}

/// Whether `v` holds a string equal to `s`.
fn contains_string(v: &Vec<String>, s: &str) -> (r: bool)
    ensures
        r == strings_view(v@).contains(s@),
{
    let mut i: usize = 0;
    while i < v.len()
        invariant
            i <= v@.len(),
            forall|j: int| 0 <= j < i ==> #[trigger] strings_view(v@)[j] != s@,
        decreases v.len() - i,
    {
        if str_eq(v[i].as_str(), s) {
            assert(strings_view(v@)[i as int] == s@);
            return true;
        }
        i = i + 1;
    }
    false
}

impl ReplContext {
    /// Get information about a symbol.
    pub fn get_symbol(&self, name: &str) -> (r: Option<&SymbolInfo>)
        requires
            self.wf(),
        ensures
            match r {
                Some(s) => self.symbol_map().dom().contains(name@) && symbol_view(*s)
                    == self.symbol_map()[name@],
                None => !self.symbol_map().dom().contains(name@),
            },
    {
        match self.find_symbol(name) {
            Some(i) => {
                proof {
                    lemma_assoc_has(self.symbol_entries(), i as int);
                }
                Some(&self.symbols[i])
            },
            None => {
                proof {
                    lemma_assoc_absent(self.symbol_entries(), name@);
                }
                None
            },
        }
    }

    /// Get all defined symbol names, each once.
    pub fn symbol_names(&self) -> (r: Vec<&str>)
        requires
            self.wf(),
        ensures
            r@.len() == self.symbol_map().dom().len(),
            forall|k: Seq<char>|
                self.symbol_map().dom().contains(k) <==> exists|i: int|
                    0 <= i < r@.len() && #[trigger] r@[i]@ == k,
    {
        let ghost es = self.symbol_entries();
        let mut out: Vec<&str> = Vec::new();
        let mut i: usize = 0;
        while i < self.symbols.len()
            invariant
                i <= self.symbols@.len(),
                es == self.symbol_entries(),
                out@.len() == i,
                forall|j: int| 0 <= j < i ==> #[trigger] out@[j]@ == es[j].0,
            decreases self.symbols.len() - i,
        {
            out.push(self.symbols[i].name.as_str());
            i = i + 1;
        }
        proof {
            lemma_assoc_dom(es);
            assert forall|k: Seq<char>| self.symbol_map().dom().contains(k) <==> exists|j: int|
                0 <= j < out@.len() && #[trigger] out@[j]@ == k by {
                if self.symbol_map().dom().contains(k) {
                    let j = choose|j: int| 0 <= j < es.len() && es[j].0 == k;
                    assert(out@[j]@ == k);
                }
            }
        }
        out
    }

    /// Get all root symbols (entry points for tree shaking).
    pub fn roots(&self) -> (r: &[String])
        ensures
            strings_view(r@) == self.root_names(),
    {
        self.roots.as_slice()
    }

    /// Remove a symbol from the context: its entry, its dependency list and
    /// its place among the roots.
    pub fn remove_symbol(&mut self, name: &str)
        requires
            old(self).wf(),
        ensures
            final(self).wf(),
            final(self).symbol_map() == old(self).symbol_map().remove(name@),
            final(self).import_map() == old(self).import_map().remove(name@),
            final(self).root_names() == old(self).root_names().filter(|r: Seq<char>| r != name@),
    {
        let ghost before = self.symbol_entries();
        match self.find_symbol(name) {
            Some(i) => {
                self.symbols.remove(i);
                proof {
                    assert(self.symbol_entries() =~= before.remove(i as int));
                    lemma_assoc_remove(before, i as int);
                }
            },
            None => {
                proof {
                    lemma_assoc_absent(before, name@);
                    assert(assoc_map(before).remove(name@) =~= assoc_map(before));
                }
            },
        }
        let ghost imports_before = self.import_entries();
        match self.find_import(name) {
            Some(i) => {
                self.imports.remove(i);
                proof {
                    assert(self.import_entries() =~= imports_before.remove(i as int));
                    lemma_assoc_remove(imports_before, i as int);
                }
            },
            None => {
                proof {
                    lemma_assoc_absent(imports_before, name@);
                    assert(assoc_map(imports_before).remove(name@) =~= assoc_map(imports_before));
                }
            },
        }
        let ghost rs = self.root_names();
        let mut kept: Vec<String> = Vec::new();
        let mut i: usize = 0;
        while i < self.roots.len()
            invariant
                i <= self.roots@.len(),
                rs == strings_view(self.roots@),
                strings_view(kept@) == rs.take(i as int).filter(|r: Seq<char>| r != name@),
            decreases self.roots.len() - i,
        {
            proof {
                assert(rs.take(i + 1).drop_last() =~= rs.take(i as int));
                reveal(Seq::filter);
            }
            let ghost k0 = kept@;
            if !str_eq(self.roots[i].as_str(), name) {
                kept.push(owned(self.roots[i].as_str()));
                assert(strings_view(kept@) =~= strings_view(k0).push(rs[i as int]));
            }
            i = i + 1;
        }
        assert(rs.take(self.roots@.len() as int) =~= rs);
        self.roots = kept;
        proof {
            let pred = |r: Seq<char>| r != name@;
            assert forall|i: int| 0 <= i < self.root_names().len() implies self.symbol_map().dom().contains(
                #[trigger] self.root_names()[i],
            ) by {
                let x = self.root_names()[i];
                rs.lemma_filter_pred(pred, i);
                assert(rs.filter(pred).contains(x));
                rs.lemma_filter_contains_rev(pred, x);
                let k = choose|k: int| 0 <= k < rs.len() && rs[k] == x;
                assert(old(self).symbol_map().dom().contains(old(self).root_names()[k]));
            }
            assert(self.symbol_map() == old(self).symbol_map().remove(name@));
            assert forall|n: Seq<char>| #[trigger] self.symbol_map().dom().contains(n) implies self.symbol_map()[n].2.no_duplicates() by {
                assert(old(self).symbol_map().dom().contains(n));
            }
        }
    }

    /// Clear all context state.
    pub fn clear(&mut self)
        ensures
            final(self).wf(),
            final(self).symbol_map() == Map::<Seq<char>, SymbolView>::empty(),
            final(self).import_map() == Map::<Seq<char>, Seq<Seq<char>>>::empty(),
            final(self).root_names() == Seq::<Seq<char>>::empty(),
    {
        self.symbols = Vec::new();
        self.imports = Vec::new();
        self.roots = Vec::new();
        assert(self.symbol_entries() =~= Seq::empty());
        assert(self.import_entries() =~= Seq::empty());
        assert(self.root_names() =~= Seq::empty());
    }

    /// Check if a symbol is defined.
    pub fn has_symbol(&self, name: &str) -> (r: bool)
        requires
            self.wf(),
        ensures
            r == self.symbol_map().dom().contains(name@),
    {
        self.get_symbol(name).is_some()
    }

    /// Get the dependency list recorded for a symbol.
    pub fn get_dependencies(&self, name: &str) -> (r: Option<&Vec<String>>)
        requires
            self.wf(),
        ensures
            match r {
                Some(v) => self.import_map().dom().contains(name@) && strings_view(v@)
                    == self.import_map()[name@],
                None => !self.import_map().dom().contains(name@),
            },
    {
        match self.find_import(name) {
            Some(i) => {
                proof {
                    lemma_assoc_has(self.import_entries(), i as int);
                }
                Some(&self.imports[i].1)
            },
            None => {
                proof {
                    lemma_assoc_absent(self.import_entries(), name@);
                }
                None
            },
        }
    }

    /// Add a type signature to a symbol, if it is defined.
    pub fn set_type_sig(&mut self, name: &str, sig: &str)
        requires
            old(self).wf(),
        ensures
            final(self).wf(),
            final(self).symbol_map() == if old(self).symbol_map().dom().contains(name@) {
                let s = old(self).symbol_map()[name@];
                old(self).symbol_map().insert(name@, (s.0, s.1, s.2, s.3, Some(sig@)))
            } else {
                old(self).symbol_map()
            },
            final(self).import_map() == old(self).import_map(),
            final(self).root_names() == old(self).root_names(),
    {
        let ghost before = self.symbol_entries();
        match self.find_symbol(name) {
            Some(i) => {
                proof {
                    lemma_assoc_has(before, i as int);
                }
                let mut info = self.symbols.remove(i);
                info.type_sig = Some(owned(sig));
                let ghost entry = (name@, symbol_view(info));
                self.symbols.insert(i, info);
                proof {
                    assert(self.symbol_entries() =~= before.update(i as int, (before[i as int].0, entry.1)));
                    lemma_assoc_update(before, i as int, entry.1);
                }
            },
            None => {
                proof {
                    lemma_assoc_absent(before, name@);
                }
            },
        }
        proof {
            assert forall|i: int| 0 <= i < self.root_names().len() implies self.symbol_map().dom().contains(
                #[trigger] self.root_names()[i],
            ) by {
                assert(old(self).symbol_map().dom().contains(old(self).root_names()[i]));
            }
        }
    }

    /// Get symbol count.
    pub fn len(&self) -> (r: usize)
        requires
            self.wf(),
        ensures
            r == self.symbol_map().dom().len(),
    {
        proof {
            lemma_assoc_dom(self.symbol_entries());
        }
        self.symbols.len()
    }

    /// Check if context is empty.
    pub fn is_empty(&self) -> (r: bool)
        requires
            self.wf(),
        ensures
            r == (self.symbol_map().dom().len() == 0),
    {
        proof {
            lemma_assoc_dom(self.symbol_entries());
        }
        self.symbols.len() == 0
    }
}

impl Default for ReplContext {
    /// The empty context.
    fn default() -> (r: ReplContext)
        ensures
            r.wf(),
            r.symbol_map() == Map::<Seq<char>, SymbolView>::empty(),
            r.import_map() == Map::<Seq<char>, Seq<Seq<char>>>::empty(),
            r.root_names() == Seq::<Seq<char>>::empty(),
    {
        ReplContext::new()
    }
}

/// A declaration just added is defined, with the kind it was given.
pub proof fn lemma_declared_is_defined(before: ReplContext, after: ReplContext, name: Seq<char>, kind: Seq<char>)
    requires
        after.symbol_map() == before.symbol_map().insert(name, (name, kind, Seq::empty(), true, None)),
    ensures
        after.symbol_map().dom().contains(name),
        after.symbol_map()[name].1 == kind,
{
}


/// Filtering out a value that no element equals leaves a sequence as it
/// is.
proof fn lemma_filter_absent(s: Seq<Seq<char>>, n: Seq<char>)
    requires
        !s.contains(n),
    ensures
        s.filter(|r: Seq<char>| r != n) == s,
    decreases s.len(),
{
    reveal(Seq::filter);
    if s.len() > 0 {
        assert(!s.drop_last().contains(n)) by {
            if s.drop_last().contains(n) {
                let k = choose|k: int| 0 <= k < s.drop_last().len() && s.drop_last()[k] == n;
                assert(s[k] == n);
            }
        }
        lemma_filter_absent(s.drop_last(), n);
        assert(s.last() != n) by {
            assert(s[s.len() - 1] == s.last());
        }
        assert(s.drop_last().push(s.last()) =~= s);
    } else {
        assert(s.filter(|r: Seq<char>| r != n) =~= s);
    }
}

/// Declaring a symbol that was not defined and then removing it gives back
/// the context as it was: the same symbols, the same roots, and no
/// dependencies recorded under that name.
pub proof fn lemma_declare_then_remove_restores_context(
    before: ReplContext,
    mid: ReplContext,
    after: ReplContext,
    name: Seq<char>,
    kind: Seq<char>,
)
    requires
        before.wf(),
        !before.symbol_map().dom().contains(name),
        mid.symbol_map() == before.symbol_map().insert(name, (name, kind, Seq::empty(), true, None)),
        mid.import_map() == before.import_map(),
        mid.root_names() == if before.root_names().contains(name) {
            before.root_names()
        } else {
            before.root_names().push(name)
        },
        after.symbol_map() == mid.symbol_map().remove(name),
        after.import_map() == mid.import_map().remove(name),
        after.root_names() == mid.root_names().filter(|r: Seq<char>| r != name),
    ensures
        after.symbol_map() == before.symbol_map(),
        after.root_names() == before.root_names(),
        after.import_map() == before.import_map().remove(name),
        !after.symbol_map().dom().contains(name),
        after.symbol_map().dom().len() == before.symbol_map().dom().len(),
{
    before.lemma_roots_defined();
    assert(after.symbol_map() =~= before.symbol_map());
    let r = before.root_names();
    assert(!r.contains(name));
    lemma_filter_absent(r, name);
    reveal(Seq::filter);
    assert(r.push(name).drop_last() =~= r);
    assert(r.push(name).filter(|x: Seq<char>| x != name) == r.filter(|x: Seq<char>| x != name));
}

/// Removing a symbol that was just declared, and was not defined before,
/// gives back the symbol table as it was.
pub proof fn lemma_declare_then_remove_restores(
    before: ReplContext,
    mid: ReplContext,
    after: ReplContext,
    name: Seq<char>,
    kind: Seq<char>,
)
    requires
        !before.symbol_map().dom().contains(name),
        mid.symbol_map() == before.symbol_map().insert(name, (name, kind, Seq::empty(), true, None)),
        after.symbol_map() == mid.symbol_map().remove(name),
    ensures
        after.symbol_map() == before.symbol_map(),
{
    assert(after.symbol_map() =~= before.symbol_map());
}

/// A removed symbol is no longer defined, nor among the roots.
pub proof fn lemma_removed_is_undefined(before: ReplContext, after: ReplContext, name: Seq<char>)
    requires
        after.symbol_map() == before.symbol_map().remove(name),
        after.root_names() == before.root_names().filter(|r: Seq<char>| r != name),
    ensures
        !after.symbol_map().dom().contains(name),
        !after.root_names().contains(name),
{
    if after.root_names().contains(name) {
        let pred = |r: Seq<char>| r != name;
        let k = choose|k: int| 0 <= k < after.root_names().len() && after.root_names()[k] == name;
        before.root_names().lemma_filter_pred(pred, k);
    }
}

} // verus!

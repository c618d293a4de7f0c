//! Interned names.

use vstd::prelude::*;

use crate::text::{owned, str_eq};

verus! {

/// An interned name: its index in the symbol table.
#[derive(Debug, Clone, Copy, PartialEq, Eq, Structural)]
pub struct Symbol(pub u32);

impl Symbol {
    /// The symbol with index `index`.
    pub fn new(index: u32) -> (r: Symbol)
        ensures
            r == Symbol(index),
    {
        Symbol(index)
    }
}

/// The table of interned names: each name once, numbered in the order
/// they were first interned.
pub struct SymbolTable {
    names: Vec<String>,
}

/// The views of a list of strings.
pub open spec fn names_view(v: Seq<String>) -> Seq<Seq<char>> {
    v.map_values(|s: String| s@)
}

impl SymbolTable {
    /// The interned names, by index.
    pub closed spec fn names(&self) -> Seq<Seq<char>> {
        names_view(self.names@)
    }

    /// The name of `sym`, if it was interned.
    pub open spec fn spec_resolve(&self, sym: Symbol) -> Option<Seq<char>> {
        if sym.0 < self.names().len() {
            Some(self.names()[sym.0 as int])
        } else {
            None
        }
    }

    /// No name is interned twice.
    pub closed spec fn wf(&self) -> bool {
        forall|i: int, j: int|
            #![trigger self.names@[i], self.names@[j]]
            0 <= i < j < self.names@.len() ==> self.names@[i]@ != self.names@[j]@
    }

    /// An empty table.
    pub fn new() -> (r: SymbolTable)
        ensures
            r.wf(),
            r.names() == Seq::<Seq<char>>::empty(),
    {
        let r = SymbolTable { names: Vec::new() };
        assert(r.names() =~= Seq::<Seq<char>>::empty());
        r
    }

    /// Interns `name`: its existing symbol, or a new one after the others.
    pub fn intern(&mut self, name: &str) -> (r: Symbol)
        requires
            old(self).wf(),
            old(self).names().len() < u32::MAX,
        ensures
            final(self).wf(),
            final(self).spec_resolve(r) == Some(name@),
            old(self).names().contains(name@) ==> final(self).names() == old(self).names(),
            !old(self).names().contains(name@) ==> final(self).names() == old(self).names().push(
                name@,
            ),
    {
        let mut i: usize = 0;
        while i < self.names.len()
            invariant
                i <= self.names@.len(),
                self.wf(),
                self.names@.len() < u32::MAX,
                self.names() == old(self).names(),
                forall|j: int| 0 <= j < i ==> self.names@[j]@ != name@,
            decreases self.names.len() - i,
        {
            if str_eq(self.names[i].as_str(), name) {
                assert(self.names()[i as int] == name@);
                return Symbol(i as u32);
            }
            i = i + 1;
        }
        proof {
            assert forall|j: int| 0 <= j < self.names().len() implies self.names()[j] != name@ by {
                assert(self.names()[j] == self.names@[j]@);
            }
        }
        let ghost before = self.names();
        let n = self.names.len() as u32;
        self.names.push(owned(name));
        assert(self.names() =~= before.push(name@));
        assert(!old(self).names().contains(name@));
        Symbol(n)
    }

    /// The name of `sym`, if it was interned.
    pub fn resolve(&self, sym: Symbol) -> (r: Option<&str>)
        ensures
            match r {
                Some(s) => self.spec_resolve(sym) == Some(s@),
                None => self.spec_resolve(sym) is None,
            },
    {
        let i = sym.0 as usize;
        if i < self.names.len() {
            Some(self.names[i].as_str())
        } else {
            None
        }
    }
}

} // verus!

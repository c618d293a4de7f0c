//! Node identifiers and source spans of HIR nodes.

use vstd::prelude::*;

verus! {

/// The identifier of an HIR node.
#[derive(Debug, Clone, Copy, PartialEq, Eq, Structural)]
pub struct HirId(pub u32);

impl HirId {
    /// The identifier given to a node built outside the lowering pass, which
    /// numbers nodes itself: the placeholder `HirId(0)`.
    pub fn new() -> (r: HirId)
        ensures
            r == HirId(0),
    {
        HirId(0)
    }
}

/// A byte range of the source.
#[derive(Debug, Clone, Copy, PartialEq, Eq, Structural)]
pub struct Span {
    /// First byte
    pub start: u32,
    /// One past the last byte
    pub end: u32,
}

impl Span {
    /// The span from `start` to `end`.
    pub fn new(start: u32, end: u32) -> (r: Span)
        ensures
            r == (Span { start, end }),
    {
        Span { start, end }
    }
}

/// The spans of HIR nodes, by identifier.
pub struct SpanMap {
    entries: Vec<(HirId, Span)>,
}

/// The span recorded first for `id` in `m`, or the empty span at 0.
pub open spec fn span_in(m: Seq<(HirId, Span)>, id: HirId) -> Span
    decreases m.len(),
{
    if m.len() == 0 {
        Span { start: 0, end: 0 }
    } else if m[0].0 == id {
        m[0].1
    } else {
        span_in(m.drop_first(), id)
    }
}

impl SpanMap {
    /// The recorded pairs, in order.
    pub closed spec fn entries(&self) -> Seq<(HirId, Span)> {
        self.entries@
    }

    /// An empty map.
    pub fn new() -> (r: SpanMap)
        ensures
            r.entries() == Seq::<(HirId, Span)>::empty(),
    {
        SpanMap { entries: Vec::new() }
    }

    /// Records the span of a node.
    pub fn insert(&mut self, id: HirId, span: Span)
        ensures
            final(self).entries() == old(self).entries().push((id, span)),
    {
        self.entries.push((id, span));
    }

    /// The span of a node, or the empty span at 0 when none is recorded.
    pub fn get_or_dummy(&self, id: HirId) -> (r: Span)
        ensures
            r == span_in(self.entries(), id),
    {
        let mut i: usize = 0;
        assert(self.entries@.skip(0) =~= self.entries@);
        while i < self.entries.len()
            invariant
                i <= self.entries@.len(),
                span_in(self.entries@, id) == span_in(self.entries@.skip(i as int), id),
            decreases self.entries.len() - i,
        {
            assert(self.entries@.skip(i as int).drop_first() =~= self.entries@.skip(i + 1));
            if self.entries[i].0 == id {
                return self.entries[i].1;
            }
            i = i + 1;
        }
        Span { start: 0, end: 0 }
    }
}

} // verus!

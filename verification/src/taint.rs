//! Slot-level taint tracking: taint kinds, sources, propagation edges, and the
//! queries "which slots are tainted?" and "how does taint reach this slot?".
use std::collections::HashMap;
use vstd::prelude::*;
use crate::workflow::{CompiledNode, CompiledNodeKind, StepIdx, WorkflowParts};
use crate::seqs::lemma_take_full;

verus! {

/// Classification of the kind of sensitive data carried by a slot.
///
/// Severity ordering (highest to lowest): Secret > Pii > Financial >
/// Authentication > Custom.
#[derive(Debug, PartialEq, Eq, Hash)]
pub enum TaintKind {
    /// Cryptographic secrets, API keys, passwords.
    Secret,
    /// Personally identifiable information.
    Pii,
    /// Financial data.
    Financial,
    /// Authentication tokens, session ids, OAuth credentials.
    Authentication,
    /// User-defined taint category.
    Custom(String),
}

impl Clone for TaintKind {
    fn clone(&self) -> (r: Self)
        ensures
            r == *self,
    {
        match self {
            TaintKind::Secret => TaintKind::Secret,
            TaintKind::Pii => TaintKind::Pii,
            TaintKind::Financial => TaintKind::Financial,
            TaintKind::Authentication => TaintKind::Authentication,
            TaintKind::Custom(name) => TaintKind::Custom(name.clone()),
        }
    }
}

pub open spec fn rank_of(k: TaintKind) -> u8 {
    match k {
        TaintKind::Secret => 4,
        TaintKind::Pii => 3,
        TaintKind::Financial => 2,
        TaintKind::Authentication => 1,
        TaintKind::Custom(_) => 0,
    }
}

impl TaintKind {
    /// Numeric severity rank (higher is more dangerous):
    /// Secret = 4, Pii = 3, Financial = 2, Authentication = 1, Custom = 0.
    pub fn severity_rank(&self) -> (r: u8)
        ensures
            r == rank_of(*self),
    {
        match self {
            TaintKind::Secret => 4,
            TaintKind::Pii => 3,
            TaintKind::Financial => 2,
            TaintKind::Authentication => 1,
            TaintKind::Custom(_) => 0,
        }
    }

    /// The display name: the variant name, or `Custom(<name>)`.
    pub fn label(&self) -> (s: String)
        ensures
            s@ == match *self {
                TaintKind::Secret => "Secret"@,
                TaintKind::Pii => "Pii"@,
                TaintKind::Financial => "Financial"@,
                TaintKind::Authentication => "Authentication"@,
                TaintKind::Custom(name) => "Custom("@ + name@ + ")"@,
            },
    {
        match self {
            TaintKind::Secret => String::from_str("Secret"),
            TaintKind::Pii => String::from_str("Pii"),
            TaintKind::Financial => String::from_str("Financial"),
            TaintKind::Authentication => String::from_str("Authentication"),
            TaintKind::Custom(name) => {
                let mut s = String::from_str("Custom(");
                s.append(name.as_str());
                s.append(")");
                s
            }
        }
    }
}

/// Where a taint enters the workflow: a slot at a step, with its kind.
#[derive(Debug, PartialEq, Eq)]
pub struct TaintSource {
    /// The slot index where the taint originates.
    pub slot: u32,
    /// The step index where the taint originates.
    pub step: u16,
    /// The kind of sensitive data introduced.
    pub kind: TaintKind,
}

impl Clone for TaintSource {
    fn clone(&self) -> (r: Self)
        ensures
            r == *self,
    {
        TaintSource { slot: self.slot, step: self.step, kind: self.kind.clone() }
    }
}

/// Taint flowing from one slot to another via a workflow step: one directed edge.
#[derive(Debug, Clone, Copy, PartialEq, Eq, Structural)]
pub struct TaintPropagation {
    /// The slot that carries taint.
    pub from_slot: u32,
    /// The slot that receives taint.
    pub to_slot: u32,
    /// The step that transfers taint.
    pub via_step: u16,
}

/// A directed graph of taint sources and propagation edges.
#[derive(Debug, Clone)]
pub struct TaintGraph {
    sources: Vec<TaintSource>,
    propagations: Vec<TaintPropagation>,
}

// ---------------------------------------------------------------------------
// Model
// ---------------------------------------------------------------------------

/// `x` is the slot of some source.
pub open spec fn is_source_slot(sources: Seq<TaintSource>, x: u32) -> bool {
    exists|i: int| 0 <= i < sources.len() && #[trigger] sources[i].slot == x
}

/// `c` is a chain of propagation edges of `props` leading from slot `from` to slot `to`
/// (the empty chain leads from a slot to itself).
pub open spec fn is_chain(props: Seq<TaintPropagation>, c: Seq<TaintPropagation>, from: u32, to: u32) -> bool {
    &&& forall|i: int| 0 <= i < c.len() ==> props.contains(#[trigger] c[i])
    &&& if c.len() == 0 {
        from == to
    } else {
        &&& c[0].from_slot == from
        &&& c.last().to_slot == to
        &&& forall|i: int| 0 <= i < c.len() - 1 ==> (#[trigger] c[i]).to_slot == c[i + 1].from_slot
    }
}

/// Some source slot reaches `x` through a chain of `props`.
pub open spec fn tainted(sources: Seq<TaintSource>, props: Seq<TaintPropagation>, x: u32) -> bool {
    exists|s: u32, c: Seq<TaintPropagation>| is_source_slot(sources, s) && #[trigger] is_chain(props, c, s, x)
}

/// `c` leads from a source slot to `x` and no chain from any source slot to `x` is shorter.
pub open spec fn shortest_source_chain(sources: Seq<TaintSource>, props: Seq<TaintPropagation>, c: Seq<TaintPropagation>, x: u32) -> bool {
    &&& exists|s: u32| is_source_slot(sources, s) && #[trigger] is_chain(props, c, s, x)
    &&& forall|s: u32, d: Seq<TaintPropagation>| is_source_slot(sources, s) && #[trigger] is_chain(props, d, s, x) ==> c.len() <= d.len()
}

/// Strictly increasing.
pub open spec fn strictly_sorted(v: Seq<u32>) -> bool {
    forall|i: int, j: int| 0 <= i < j < v.len() ==> v[i] < v[j]
}

impl TaintGraph {
    pub closed spec fn spec_sources(&self) -> Seq<TaintSource> {
        self.sources@
    }

    pub closed spec fn spec_propagations(&self) -> Seq<TaintPropagation> {
        self.propagations@
    }

    /// Creates a new empty taint graph.
    pub fn new() -> (g: Self)
        ensures
            g.spec_sources().len() == 0,
            g.spec_propagations().len() == 0,
    {
        TaintGraph { sources: Vec::new(), propagations: Vec::new() }
    }

    /// Adds a taint source.
    pub fn add_source(&mut self, source: TaintSource)
        ensures
            final(self).spec_sources() == old(self).spec_sources().push(source),
            final(self).spec_propagations() == old(self).spec_propagations(),
    {
        self.sources.push(source);
    }

    /// Adds a taint propagation edge.
    pub fn add_propagation(&mut self, prop: TaintPropagation)
        ensures
            final(self).spec_propagations() == old(self).spec_propagations().push(prop),
            final(self).spec_sources() == old(self).spec_sources(),
    {
        self.propagations.push(prop);
    }

    /// The taint sources, in insertion order.
    pub fn sources(&self) -> (r: &[TaintSource])
        ensures
            r@ == self.spec_sources(),
    {
        self.sources.as_slice()
    }

    /// The propagation edges, in insertion order.
    pub fn propagations(&self) -> (r: &[TaintPropagation])
        ensures
            r@ == self.spec_propagations(),
    {
        self.propagations.as_slice()
    }

    /// The most dangerous taint kind present; among equally severe sources the
    /// first one found wins. `None` when the graph has no sources.
    pub fn highest_severity(&self) -> (r: Option<TaintKind>)
        ensures
            self.spec_sources().len() == 0 ==> r is None,
            self.spec_sources().len() > 0 ==> exists|i: int| #![trigger self.spec_sources()[i]]
                0 <= i < self.spec_sources().len()
                && r == Some(self.spec_sources()[i].kind)
                && (forall|j: int| 0 <= j < self.spec_sources().len() ==> rank_of(#[trigger] self.spec_sources()[j].kind) <= rank_of(self.spec_sources()[i].kind))
                && (forall|j: int| 0 <= j < i ==> rank_of(#[trigger] self.spec_sources()[j].kind) < rank_of(self.spec_sources()[i].kind)),
    {
        if self.sources.len() == 0 {
            return None;
        }
        let mut best: usize = 0;
        let mut best_rank = self.sources[0].kind.severity_rank();
        let mut i: usize = 1;
        while i < self.sources.len()
            invariant
                1 <= i <= self.sources@.len(),
                best < i,
                best_rank == rank_of(self.sources@[best as int].kind),
                forall|j: int| 0 <= j < i ==> rank_of(#[trigger] self.sources@[j].kind) <= best_rank,
                forall|j: int| 0 <= j < best ==> rank_of(#[trigger] self.sources@[j].kind) < best_rank,
            decreases self.sources.len() - i,
        {
            let r = self.sources[i].kind.severity_rank();
            if r > best_rank {
                best = i;
                best_rank = r;
            }
            i += 1;
        }
        Some(self.sources[best].kind.clone())
    }
}

// ---------------------------------------------------------------------------
// Sorted slot sets
// ---------------------------------------------------------------------------

/// Whether `v` contains `x`.
fn contains_u32(v: &Vec<u32>, x: u32) -> (r: bool)
    ensures
        r == v@.contains(x),
{
    let mut i: usize = 0;
    while i < v.len()
        invariant
            i <= v@.len(),
            forall|j: int| 0 <= j < i ==> v@[j] != x,
        decreases v.len() - i,
    {
        if v[i] == x {
            assert(v@[i as int] == x);
            return true;
        }
        i += 1;
    }
    false
}

/// Inserts `x` into a strictly increasing vector that does not hold it.
fn insert_sorted(v: &mut Vec<u32>, x: u32)
    requires
        strictly_sorted(old(v)@),
        !old(v)@.contains(x),
    ensures
        strictly_sorted(final(v)@),
        final(v)@.len() == old(v)@.len() + 1,
        forall|y: u32| final(v)@.contains(y) <==> (old(v)@.contains(y) || y == x),
{
    let mut i: usize = 0;
    while i < v.len() && v[i] < x
        invariant
            i <= v@.len(),
            v@ == old(v)@,
            forall|j: int| 0 <= j < i ==> v@[j] < x,
        decreases v.len() - i,
    {
        i += 1;
    }
    let ghost before = v@;
    proof {
        if i < before.len() {
            assert(before[i as int] != x);
            assert(before[i as int] > x);
        }
    }
    v.insert(i, x);
    assert(v@ =~= before.insert(i as int, x));
    assert forall|a: int, b: int| 0 <= a < b < v@.len() implies v@[a] < v@[b] by {
        if b < i {
        } else if a < i && b == i {
        } else if a < i && b > i {
            assert(v@[b] == before[b - 1]);
            if b - 1 > i {
                assert(before[i as int] < before[b - 1]);
            }
            assert(before[i as int] > x || b - 1 == i);
        } else if a == i {
            assert(v@[b] == before[b - 1]);
            assert(before[b - 1] >= before[i as int]);
        } else {
            assert(v@[a] == before[a - 1] && v@[b] == before[b - 1]);
        }
    }
    assert forall|y: u32| v@.contains(y) <==> (before.contains(y) || y == x) by {
        if v@.contains(y) {
            let k = choose|k: int| 0 <= k < v@.len() && v@[k] == y;
            if k < i {
                assert(before[k] == y);
            } else if k > i {
                assert(before[k - 1] == y);
            }
        }
        if before.contains(y) {
            let k = choose|k: int| 0 <= k < before.len() && before[k] == y;
            if k < i {
                assert(v@[k] == y);
            } else {
                assert(v@[k + 1] == y);
            }
        }
        if y == x {
            assert(v@[i as int] == x);
        }
    }
}

// ---------------------------------------------------------------------------
// Chains
// ---------------------------------------------------------------------------

/// Extending a chain ending at `x` by an edge leaving `x`.
pub proof fn lemma_chain_push(props: Seq<TaintPropagation>, c: Seq<TaintPropagation>, s: u32, x: u32, p: TaintPropagation)
    requires
        is_chain(props, c, s, x),
        props.contains(p),
        p.from_slot == x,
    ensures
        is_chain(props, c.push(p), s, p.to_slot),
{
    let d = c.push(p);
    assert forall|i: int| 0 <= i < d.len() implies props.contains(#[trigger] d[i]) by {
        if i < c.len() {
            assert(d[i] == c[i]);
        }
    }
    if c.len() > 0 {
        assert forall|i: int| 0 <= i < d.len() - 1 implies (#[trigger] d[i]).to_slot == d[i + 1].from_slot by {
            if i < c.len() - 1 {
                assert(d[i] == c[i] && d[i + 1] == c[i + 1]);
            } else {
                assert(d[i] == c.last());
            }
        }
    }
}

/// Dropping the last edge of a chain leaves a chain to that edge's origin.
pub proof fn lemma_chain_drop_last(props: Seq<TaintPropagation>, c: Seq<TaintPropagation>, s: u32, x: u32)
    requires
        is_chain(props, c, s, x),
        c.len() > 0,
    ensures
        is_chain(props, c.drop_last(), s, c.last().from_slot),
        props.contains(c.last()),
        c.last().to_slot == x,
{
    let d = c.drop_last();
    assert forall|i: int| 0 <= i < d.len() implies props.contains(#[trigger] d[i]) by {
        assert(d[i] == c[i]);
    }
    if d.len() > 0 {
        assert(d[0] == c[0]);
        assert(d.last() == c[c.len() - 2]);
        assert(c[c.len() - 2].to_slot == c[c.len() - 1].from_slot);
        assert forall|i: int| 0 <= i < d.len() - 1 implies (#[trigger] d[i]).to_slot == d[i + 1].from_slot by {
            assert(d[i] == c[i] && d[i + 1] == c[i + 1]);
        }
    }
}

/// Every edge leaving a settled visited slot leads to a visited slot.
pub open spec fn closed(props: Seq<TaintPropagation>, visited: Seq<u32>, pending: Seq<u32>) -> bool {
    forall|i: int| 0 <= i < props.len() && visited.contains(#[trigger] props[i].from_slot) && !pending.contains(props[i].from_slot)
        ==> visited.contains(props[i].to_slot)
}

/// A set containing `s` and closed under the edges contains every slot `s` reaches.
proof fn lemma_closed_reaches(props: Seq<TaintPropagation>, visited: Seq<u32>, c: Seq<TaintPropagation>, s: u32, x: u32)
    requires
        is_chain(props, c, s, x),
        visited.contains(s),
        closed(props, visited, Seq::empty()),
    ensures
        visited.contains(x),
    decreases c.len(),
{
    if c.len() > 0 {
        lemma_chain_drop_last(props, c, s, x);
        lemma_closed_reaches(props, visited, c.drop_last(), s, c.last().from_slot);
        let k = choose|k: int| 0 <= k < props.len() && props[k] == c.last();
        assert(props[k].from_slot == c.last().from_slot);
    }
}

/// Source slots as a sequence, and every slot an edge can lead to: a finite
/// universe containing every tainted slot.
pub open spec fn slot_universe(sources: Seq<TaintSource>, props: Seq<TaintPropagation>) -> Seq<u32> {
    sources.map_values(|s: TaintSource| s.slot) + props.map_values(|p: TaintPropagation| p.to_slot)
}

proof fn lemma_subset_len(v: Seq<u32>, u: Seq<u32>)
    requires
        v.no_duplicates(),
        forall|x: u32| v.contains(x) ==> u.contains(x),
    ensures
        v.len() <= u.len(),
{
    v.unique_seq_to_set();
    u.lemma_cardinality_of_set();
    vstd::seq_lib::seq_to_set_is_finite(u);
    assert(v.to_set().subset_of(u.to_set()));
    vstd::set_lib::lemma_len_subset(v.to_set(), u.to_set());
}

proof fn lemma_sorted_no_dup(v: Seq<u32>)
    requires
        strictly_sorted(v),
    ensures
        v.no_duplicates(),
{
    assert forall|i: int, j: int| 0 <= i < v.len() && 0 <= j < v.len() && i != j implies v[i] != v[j] by {
        if i < j {
        } else {
        }
    }
}

impl TaintGraph {
    /// All tainted slots, sorted and without duplicates: every source slot and
    /// every slot reachable from one through propagation edges.
    pub fn tainted_slots(&self) -> (r: Vec<u32>)
        ensures
            strictly_sorted(r@),
            forall|x: u32| r@.contains(x) <==> tainted(self.spec_sources(), self.spec_propagations(), x),
    {
        let ghost srcs = self.sources@;
        let ghost props = self.propagations@;
        let ghost univ = slot_universe(srcs, props);
        let mut visited: Vec<u32> = Vec::new();
        let mut stack: Vec<u32> = Vec::new();
        let mut i: usize = 0;
        while i < self.sources.len()
            invariant
                i <= srcs.len(),
                srcs == self.sources@,
                props == self.propagations@,
                univ == slot_universe(srcs, props),
                strictly_sorted(visited@),
                forall|x: u32| visited@.contains(x) ==> tainted(srcs, props, x),
                forall|x: u32| visited@.contains(x) ==> univ.contains(x),
                forall|k: int| 0 <= k < stack@.len() ==> visited@.contains(#[trigger] stack@[k]),
                forall|x: u32| visited@.contains(x) ==> stack@.contains(x),
                forall|j: int| 0 <= j < i ==> visited@.contains(#[trigger] srcs[j].slot),
            decreases srcs.len() - i,
        {
            let slot = self.sources[i].slot;
            if !contains_u32(&visited, slot) {
                proof {
                    assert(is_source_slot(srcs, slot));
                    assert(is_chain(props, Seq::empty(), slot, slot));
                    assert(univ[i as int] == slot);
                }
                let ghost st0 = stack@;
                let ghost vs0 = visited@;
                insert_sorted(&mut visited, slot);
                stack.push(slot);
                proof {
                    assert(stack@.drop_last() == st0);
                    assert(stack@[stack@.len() - 1] == slot);
                    assert forall|k: int| 0 <= k < stack@.len() implies visited@.contains(#[trigger] stack@[k]) by {
                        if k < stack@.len() - 1 {
                            assert(stack@[k] == stack@.drop_last()[k]);
                        }
                    }
                    assert forall|x: u32| visited@.contains(x) implies stack@.contains(x) by {
                        if x != slot {
                            assert(vs0.contains(x));
                            assert(stack@.drop_last().contains(x));
                            let k = choose|k: int| 0 <= k < stack@.drop_last().len() && stack@.drop_last()[k] == x;
                            assert(stack@[k] == x);
                        }
                    }
                }
            }
            i += 1;
        }
        proof {
            assert forall|k: int| 0 <= k < props.len() && visited@.contains(#[trigger] props[k].from_slot) && !stack@.contains(props[k].from_slot)
                implies visited@.contains(props[k].to_slot) by {
            }
            lemma_sorted_no_dup(visited@);
            lemma_subset_len(visited@, univ);
        }
        while stack.len() > 0
            invariant
                srcs == self.sources@,
                props == self.propagations@,
                univ == slot_universe(srcs, props),
                strictly_sorted(visited@),
                visited@.len() <= univ.len(),
                forall|x: u32| visited@.contains(x) ==> tainted(srcs, props, x),
                forall|x: u32| visited@.contains(x) ==> univ.contains(x),
                forall|k: int| 0 <= k < stack@.len() ==> visited@.contains(#[trigger] stack@[k]),
                forall|j: int| 0 <= j < srcs.len() ==> visited@.contains(#[trigger] srcs[j].slot),
                closed(props, visited@, stack@),
            decreases univ.len() - visited@.len(), stack@.len(),
        {
            let ghost st_full = stack@;
            let x = stack.pop().unwrap();
            let ghost len0 = visited@.len();
            let ghost stack0 = stack@;
            proof {
                assert(st_full == stack@.push(x));
                assert forall|k: int| 0 <= k < stack@.len() implies visited@.contains(#[trigger] stack@[k]) by {
                    assert(stack@[k] == st_full[k]);
                }
                assert(visited@.contains(x)) by {
                    assert(st_full[st_full.len() - 1] == x);
                }
            }
            let mut t: usize = 0;
            while t < self.propagations.len()
                invariant
                    srcs == self.sources@,
                    props == self.propagations@,
                    univ == slot_universe(srcs, props),
                    t <= props.len(),
                    strictly_sorted(visited@),
                    visited@.len() <= univ.len(),
                    visited@.len() >= len0,
                    visited@.len() == len0 ==> stack@ == stack0,
                    visited@.contains(x),
                    forall|y: u32| visited@.contains(y) ==> tainted(srcs, props, y),
                    forall|y: u32| visited@.contains(y) ==> univ.contains(y),
                    forall|k: int| 0 <= k < stack@.len() ==> visited@.contains(#[trigger] stack@[k]),
                    forall|j: int| 0 <= j < srcs.len() ==> visited@.contains(#[trigger] srcs[j].slot),
                    forall|i: int| 0 <= i < props.len() && props[i].from_slot != x && visited@.contains(#[trigger] props[i].from_slot)
                        && !stack@.contains(props[i].from_slot) ==> visited@.contains(props[i].to_slot),
                    forall|i: int| 0 <= i < t && #[trigger] props[i].from_slot == x ==> visited@.contains(props[i].to_slot),
                decreases props.len() - t,
            {
                let p = self.propagations[t];
                if p.from_slot == x && !contains_u32(&visited, p.to_slot) {
                    proof {
                        let (s0, c0) = choose|s0: u32, c0: Seq<TaintPropagation>| is_source_slot(srcs, s0) && #[trigger] is_chain(props, c0, s0, x);
                        assert(props.contains(p)) by { assert(props[t as int] == p); }
                        lemma_chain_push(props, c0, s0, x, p);
                        assert(univ[srcs.len() + t] == p.to_slot);
                    }
                    let ghost v0 = visited@;
                    let ghost st0 = stack@;
                    insert_sorted(&mut visited, p.to_slot);
                    stack.push(p.to_slot);
                    proof {
                        lemma_sorted_no_dup(visited@);
                        lemma_subset_len(visited@, univ);
                        assert forall|k: int| 0 <= k < stack@.len() implies visited@.contains(#[trigger] stack@[k]) by {
                            if k < st0.len() {
                                assert(stack@[k] == st0[k]);
                            }
                        }
                        assert forall|i: int| 0 <= i < props.len() && props[i].from_slot != x && visited@.contains(#[trigger] props[i].from_slot)
                            && !stack@.contains(props[i].from_slot) implies visited@.contains(props[i].to_slot) by {
                            let y = props[i].from_slot;
                            assert(y != p.to_slot) by {
                                assert(stack@[stack@.len() - 1] == p.to_slot);
                            }
                            assert(v0.contains(y));
                            assert(!st0.contains(y)) by {
                                if st0.contains(y) {
                                    let k = choose|k: int| 0 <= k < st0.len() && st0[k] == y;
                                    assert(stack@[k] == y);
                                }
                            }
                        }
                    }
                }
                t += 1;
            }
            proof {
                assert forall|i: int| 0 <= i < props.len() && visited@.contains(#[trigger] props[i].from_slot) && !stack@.contains(props[i].from_slot)
                    implies visited@.contains(props[i].to_slot) by {
                }
            }
        }
        proof {
            assert forall|x: u32| tainted(srcs, props, x) implies visited@.contains(x) by {
                let (s0, c0) = choose|s0: u32, c0: Seq<TaintPropagation>| is_source_slot(srcs, s0) && #[trigger] is_chain(props, c0, s0, x);
                let j = choose|j: int| 0 <= j < srcs.len() && #[trigger] srcs[j].slot == s0;
                assert(visited@.contains(srcs[j].slot));
                assert(stack@ =~= Seq::<u32>::empty());
                lemma_closed_reaches(props, visited@, c0, s0, x);
            }
        }
        visited
    }
}

// ---------------------------------------------------------------------------
// Shortest propagation chains
// ---------------------------------------------------------------------------

/// Some chain from `y` to `target` uses at most `k` edges.
pub open spec fn within(props: Seq<TaintPropagation>, y: u32, target: u32, k: int) -> bool {
    exists|c: Seq<TaintPropagation>| #[trigger] is_chain(props, c, y, target) && c.len() <= k
}

proof fn lemma_chain_prepend(props: Seq<TaintPropagation>, e: TaintPropagation, c: Seq<TaintPropagation>, z: u32, t: u32)
    requires
        is_chain(props, c, z, t),
        props.contains(e),
        e.to_slot == z,
    ensures
        is_chain(props, seq![e] + c, e.from_slot, t),
{
    let d = seq![e] + c;
    assert forall|i: int| 0 <= i < d.len() implies props.contains(#[trigger] d[i]) by {
        if i > 0 {
            assert(d[i] == c[i - 1]);
        }
    }
    if c.len() > 0 {
        assert(d.last() == c.last());
        assert forall|i: int| 0 <= i < d.len() - 1 implies (#[trigger] d[i]).to_slot == d[i + 1].from_slot by {
            if i > 0 {
                assert(d[i] == c[i - 1] && d[i + 1] == c[i]);
            } else {
                assert(d[1] == c[0]);
            }
        }
    }
}

proof fn lemma_chain_drop_first(props: Seq<TaintPropagation>, c: Seq<TaintPropagation>, y: u32, t: u32)
    requires
        is_chain(props, c, y, t),
        c.len() > 0,
    ensures
        is_chain(props, c.drop_first(), c[0].to_slot, t),
        props.contains(c[0]),
        c[0].from_slot == y,
{
    let d = c.drop_first();
    assert forall|i: int| 0 <= i < d.len() implies props.contains(#[trigger] d[i]) by {
        assert(d[i] == c[i + 1]);
    }
    assert(props.contains(c[0]));
    if d.len() > 0 {
        assert(d[0] == c[1]);
        assert(c[0].to_slot == c[1].from_slot);
        assert(d.last() == c.last());
        assert forall|i: int| 0 <= i < d.len() - 1 implies (#[trigger] d[i]).to_slot == d[i + 1].from_slot by {
            assert(d[i] == c[i + 1] && d[i + 1] == c[i + 2]);
        }
    }
}

/// A node first reached in `k + 1` steps has an edge into a node first reached in `k` steps.
proof fn lemma_first_step(props: Seq<TaintPropagation>, y: u32, t: u32, k: int)
    requires
        k >= 0,
        within(props, y, t, k + 1),
        !within(props, y, t, k),
    ensures
        exists|i: int| 0 <= i < props.len() && #[trigger] props[i].from_slot == y
            && within(props, props[i].to_slot, t, k) && !within(props, props[i].to_slot, t, k - 1),
{
    let c = choose|c: Seq<TaintPropagation>| #[trigger] is_chain(props, c, y, t) && c.len() <= k + 1;
    if c.len() == 0 {
        assert(is_chain(props, c, y, t) && c.len() <= k);
    } else {
        lemma_chain_drop_first(props, c, y, t);
        let z = c[0].to_slot;
        assert(within(props, z, t, k)) by {
            assert(is_chain(props, c.drop_first(), z, t));
        }
        if within(props, z, t, k - 1) {
            let d = choose|d: Seq<TaintPropagation>| #[trigger] is_chain(props, d, z, t) && d.len() <= k - 1;
            lemma_chain_prepend(props, c[0], d, z, t);
            assert(is_chain(props, seq![c[0]] + d, y, t));
            assert(false);
        }
        let i = choose|i: int| 0 <= i < props.len() && props[i] == c[0];
        assert(props[i].from_slot == y);
    }
}

/// An edge from `y` into a node reached within `k` steps reaches `y` within `k + 1`.
proof fn lemma_edge_within(props: Seq<TaintPropagation>, e: TaintPropagation, t: u32, k: int)
    requires
        props.contains(e),
        within(props, e.to_slot, t, k),
    ensures
        within(props, e.from_slot, t, k + 1),
{
    let c = choose|c: Seq<TaintPropagation>| #[trigger] is_chain(props, c, e.to_slot, t) && c.len() <= k;
    lemma_chain_prepend(props, e, c, e.to_slot, t);
    assert(is_chain(props, seq![e] + c, e.from_slot, t));
}

proof fn lemma_within_zero(props: Seq<TaintPropagation>, y: u32, t: u32)
    ensures
        within(props, y, t, 0) <==> y == t,
{
    if y == t {
        assert(is_chain(props, Seq::empty(), y, t));
    }
}

/// When no slot is first reached in exactly `k` steps, no slot is first reached later.
proof fn lemma_no_deeper(props: Seq<TaintPropagation>, y: u32, t: u32, k: int, j: int)
    requires
        k >= 0,
        j >= k,
        forall|z: u32| #[trigger] within(props, z, t, k) ==> within(props, z, t, k - 1),
        within(props, y, t, j),
    ensures
        within(props, y, t, k - 1),
    decreases j - k,
{
    if j > k {
        if within(props, y, t, j - 1) {
            lemma_no_deeper(props, y, t, k, j - 1);
        } else {
            lemma_first_step(props, y, t, j - 1);
            let i = choose|i: int| 0 <= i < props.len() && #[trigger] props[i].from_slot == y
                && within(props, props[i].to_slot, t, j - 1) && !within(props, props[i].to_slot, t, j - 2);
            let z = props[i].to_slot;
            lemma_no_deeper(props, z, t, k, j - 1);
            let c = choose|c: Seq<TaintPropagation>| #[trigger] is_chain(props, c, z, t) && c.len() <= k - 1;
            assert(is_chain(props, c, z, t) && c.len() <= j - 2);
        }
    }
}

/// Bookkeeping of the backward search: every discovered slot other than the
/// target has a parent edge one layer closer to the target.
pub open spec fn parents_ok(props: Seq<TaintPropagation>, target: u32, visited: Seq<u32>,
    parent: Map<u32, TaintPropagation>, layer: Map<u32, nat>) -> bool {
    &&& forall|y: u32| visited.contains(y) <==> #[trigger] layer.contains_key(y)
    &&& layer.contains_key(target) && layer[target] == 0
    &&& forall|y: u32| #[trigger] parent.contains_key(y) <==> (visited.contains(y) && y != target)
    &&& forall|y: u32| #[trigger] parent.contains_key(y) ==> {
            &&& props.contains(parent[y])
            &&& parent[y].from_slot == y
            &&& layer.contains_key(parent[y].to_slot)
            &&& layer[parent[y].to_slot] + 1 == layer[y]
        }
    &&& forall|y: u32| #[trigger] layer.contains_key(y) ==> within(props, y, target, layer[y] as int)
}

/// Whether some source has slot `x`.
fn is_source_exec(sources: &Vec<TaintSource>, x: u32) -> (r: bool)
    ensures
        r == is_source_slot(sources@, x),
{
    let mut i: usize = 0;
    while i < sources.len()
        invariant
            i <= sources@.len(),
            forall|j: int| 0 <= j < i ==> sources@[j].slot != x,
        decreases sources.len() - i,
    {
        if sources[i].slot == x {
            return true;
        }
        i += 1;
    }
    false
}

/// Universe of slots the backward search can discover.
pub open spec fn pred_universe(props: Seq<TaintPropagation>, target: u32) -> Seq<u32> {
    seq![target] + props.map_values(|p: TaintPropagation| p.from_slot)
}

/// Follows parent edges from `src` back to `target`.
fn follow_parents(parent: &HashMap<u32, TaintPropagation>, src: u32, Ghost(props): Ghost<Seq<TaintPropagation>>,
    Ghost(target): Ghost<u32>, Ghost(visited): Ghost<Seq<u32>>, Ghost(layer): Ghost<Map<u32, nat>>) -> (path: Vec<TaintPropagation>)
    requires
        parents_ok(props, target, visited, parent@, layer),
        visited.contains(src),
    ensures
        is_chain(props, path@, src, target),
        path@.len() == layer[src],
{
    broadcast use vstd::std_specs::hash::group_hash_axioms;
    let mut path: Vec<TaintPropagation> = Vec::new();
    let mut current = src;
    proof {
        assert(is_chain(props, path@, src, src));
    }
    loop
        invariant
            parents_ok(props, target, visited, parent@, layer),
            visited.contains(current),
            is_chain(props, path@, src, current),
            path@.len() + layer[current] == layer[src],
        decreases layer[current],
    {
        match parent.get(&current) {
            Some(prop) => {
                let prop = *prop;
                proof {
                    assert(parent@.contains_key(current));
                    lemma_chain_push(props, path@, src, current, prop);
                }
                path.push(prop);
                current = prop.to_slot;
            }
            None => {
                proof {
                    assert(!parent@.contains_key(current));
                    assert(current == target);
                }
                return path;
            }
        }
    }
}

impl TaintGraph {
    /// The propagation chain leading to `slot`: a shortest chain of edges from a
    /// source slot to `slot`. Empty when `slot` is itself a source or no source
    /// reaches it.
    pub fn propagation_path_to(&self, slot: u32) -> (path: Vec<TaintPropagation>)
        ensures
            (is_source_slot(self.spec_sources(), slot) || !tainted(self.spec_sources(), self.spec_propagations(), slot))
                ==> path@.len() == 0,
            (!is_source_slot(self.spec_sources(), slot) && tainted(self.spec_sources(), self.spec_propagations(), slot))
                ==> shortest_source_chain(self.spec_sources(), self.spec_propagations(), path@, slot),
    {
        broadcast use vstd::std_specs::hash::group_hash_axioms;
        let ghost props = self.propagations@;
        let ghost srcs = self.sources@;
        if is_source_exec(&self.sources, slot) {
            return Vec::new();
        }
        let ghost univ = pred_universe(props, slot);
        let mut parent: HashMap<u32, TaintPropagation> = HashMap::new();
        let mut visited: Vec<u32> = Vec::new();
        visited.push(slot);
        let mut frontier: Vec<u32> = Vec::new();
        frontier.push(slot);
        let ghost mut layer: Map<u32, nat> = Map::empty().insert(slot, 0nat);
        let ghost mut k: int = 0;
        let mut found: Option<u32> = None;
        proof {
            lemma_within_zero(props, slot, slot);
            assert(visited@ =~= seq![slot]);
            assert forall|y: u32| within(props, y, slot, 0) <==> visited@.contains(y) by {
                lemma_within_zero(props, y, slot);
                if y == slot { assert(visited@[0] == slot); }
            }
            assert forall|y: u32| frontier@.contains(y) <==> (within(props, y, slot, 0) && !within(props, y, slot, -1)) by {
                lemma_within_zero(props, y, slot);
                if y == slot { assert(frontier@[0] == slot); }
            }
            assert(parent@ =~= Map::<u32, TaintPropagation>::empty());
            assert(univ[0] == slot);
        }
        while frontier.len() > 0 && found.is_none()
            invariant
                props == self.propagations@,
                srcs == self.sources@,
                univ == pred_universe(props, slot),
                !is_source_slot(srcs, slot),
                k >= 0,
                visited@.no_duplicates(),
                forall|y: u32| visited@.contains(y) ==> univ.contains(y),
                parents_ok(props, slot, visited@, parent@, layer),
                found is None ==> {
                    &&& forall|y: u32| visited@.contains(y) <==> within(props, y, slot, k)
                    &&& forall|y: u32| frontier@.contains(y) <==> (within(props, y, slot, k) && !within(props, y, slot, k - 1))
                    &&& forall|j: int| 0 <= j < frontier@.len() ==> layer[#[trigger] frontier@[j]] == k
                    &&& forall|y: u32| within(props, y, slot, k - 1) ==> !is_source_slot(srcs, y)
                },
                found matches Some(src) ==> {
                    &&& visited@.contains(src)
                    &&& is_source_slot(srcs, src)
                    &&& forall|y: u32| within(props, y, slot, layer[src] - 1) ==> !is_source_slot(srcs, y)
                },
            decreases univ.len() + 1 - visited@.len(), frontier@.len(),
        {
            let ghost visited0 = visited@;
            let mut next: Vec<u32> = Vec::new();
            let mut m: usize = 0;
            while m < frontier.len() && found.is_none()
                invariant
                    props == self.propagations@,
                    srcs == self.sources@,
                    univ == pred_universe(props, slot),
                    !is_source_slot(srcs, slot),
                    k >= 0,
                    m <= frontier@.len(),
                    found matches Some(src) ==> visited@.contains(src) && is_source_slot(srcs, src) && layer[src] == k,
                    visited@.no_duplicates(),
                    forall|y: u32| visited@.contains(y) ==> univ.contains(y),
                    parents_ok(props, slot, visited@, parent@, layer),
                    forall|y: u32| visited@.contains(y) <==> (within(props, y, slot, k) || next@.contains(y)),
                    forall|y: u32| next@.contains(y) ==> (within(props, y, slot, k + 1) && !within(props, y, slot, k)),
                    forall|j: int| 0 <= j < next@.len() ==> layer[#[trigger] next@[j]] == k + 1,
                    forall|y: u32| frontier@.contains(y) <==> (within(props, y, slot, k) && !within(props, y, slot, k - 1)),
                    forall|j: int| 0 <= j < frontier@.len() ==> layer[#[trigger] frontier@[j]] == k,
                    forall|y: u32| within(props, y, slot, k - 1) ==> !is_source_slot(srcs, y),
                    forall|j: int| 0 <= j < m ==> !is_source_slot(srcs, #[trigger] frontier@[j]),
                    forall|j: int, i: int| 0 <= j < m && 0 <= i < props.len() && #[trigger] props[i].to_slot == #[trigger] frontier@[j]
                        ==> visited@.contains(props[i].from_slot),
                    visited@.len() == visited0.len() + next@.len(),
                decreases frontier@.len() - m + (if found is None { 1int } else { 0int }),
            {
                let current = frontier[m];
                if is_source_exec(&self.sources, current) {
                    proof {
                        assert(frontier@.contains(current)) by { assert(frontier@[m as int] == current); }
                        assert(layer[current] == k);
                    }
                    found = Some(current);
                } else {
                let mut t: usize = 0;
                while t < self.propagations.len()
                    invariant
                        props == self.propagations@,
                        srcs == self.sources@,
                        univ == pred_universe(props, slot),
                        k >= 0,
                        m < frontier@.len(),
                        current == frontier@[m as int],
                        t <= props.len(),
                        visited@.no_duplicates(),
                        forall|y: u32| visited@.contains(y) ==> univ.contains(y),
                        parents_ok(props, slot, visited@, parent@, layer),
                        forall|y: u32| visited@.contains(y) <==> (within(props, y, slot, k) || next@.contains(y)),
                        forall|y: u32| next@.contains(y) ==> (within(props, y, slot, k + 1) && !within(props, y, slot, k)),
                        forall|j: int| 0 <= j < next@.len() ==> layer[#[trigger] next@[j]] == k + 1,
                        forall|j: int| 0 <= j < frontier@.len() ==> layer[#[trigger] frontier@[j]] == k,
                        forall|y: u32| frontier@.contains(y) <==> (within(props, y, slot, k) && !within(props, y, slot, k - 1)),
                        forall|j: int, i: int| 0 <= j < m && 0 <= i < props.len() && #[trigger] props[i].to_slot == #[trigger] frontier@[j]
                            ==> visited@.contains(props[i].from_slot),
                        forall|i: int| 0 <= i < t && #[trigger] props[i].to_slot == current ==> visited@.contains(props[i].from_slot),
                        visited@.len() == visited0.len() + next@.len(),
                    decreases props.len() - t,
                {
                    let p = self.propagations[t];
                    if p.to_slot == current && !contains_u32(&visited, p.from_slot) {
                        proof {
                            assert(props.contains(p)) by { assert(props[t as int] == p); }
                            assert(frontier@.contains(current)) by { assert(frontier@[m as int] == current); }
                            assert(layer.contains_key(current));
                            assert(within(props, current, slot, k));
                            lemma_edge_within(props, p, slot, k);
                            assert(univ[t + 1] == p.from_slot);
                        }
                        let ghost v0 = visited@;
                        let ghost n0 = next@;
                        visited.push(p.from_slot);
                        next.push(p.from_slot);
                        parent.insert(p.from_slot, p);
                        proof {
                            layer = layer.insert(p.from_slot, (k + 1) as nat);
                            assert(visited@.no_duplicates()) by {
                                assert forall|a: int, b: int| 0 <= a < visited@.len() && 0 <= b < visited@.len() && a != b implies visited@[a] != visited@[b] by {
                                    if a < v0.len() && b < v0.len() {
                                        assert(visited@[a] == v0[a] && visited@[b] == v0[b]);
                                    } else if a < v0.len() {
                                        assert(visited@[a] == v0[a]);
                                        assert(v0.contains(v0[a]));
                                    } else {
                                        assert(visited@[b] == v0[b]);
                                        assert(v0.contains(v0[b]));
                                    }
                                }
                            }
                            assert forall|y: u32| visited@.contains(y) <==> (v0.contains(y) || y == p.from_slot) by {
                                if visited@.contains(y) {
                                    let q = choose|q: int| 0 <= q < visited@.len() && visited@[q] == y;
                                    if q < v0.len() { assert(v0[q] == y); }
                                }
                                if v0.contains(y) {
                                    let q = choose|q: int| 0 <= q < v0.len() && v0[q] == y;
                                    assert(visited@[q] == y);
                                }
                                if y == p.from_slot { assert(visited@[v0.len() as int] == y); }
                            }
                            assert forall|y: u32| next@.contains(y) <==> (n0.contains(y) || y == p.from_slot) by {
                                if next@.contains(y) {
                                    let q = choose|q: int| 0 <= q < next@.len() && next@[q] == y;
                                    if q < n0.len() { assert(n0[q] == y); }
                                }
                                if n0.contains(y) {
                                    let q = choose|q: int| 0 <= q < n0.len() && n0[q] == y;
                                    assert(next@[q] == y);
                                }
                                if y == p.from_slot { assert(next@[n0.len() as int] == y); }
                            }
                            assert(p.from_slot != slot) by {
                                assert(within(props, slot, slot, k)) by { lemma_within_zero(props, slot, slot); }
                            }
                            assert forall|j: int| 0 <= j < next@.len() implies layer[#[trigger] next@[j]] == k + 1 by {
                                if j < n0.len() {
                                    assert(next@[j] == n0[j]);
                                    assert(n0.contains(n0[j]));
                                    assert(v0.contains(n0[j]));
                                }
                            }
                            assert forall|j: int| 0 <= j < frontier@.len() implies layer[#[trigger] frontier@[j]] == k by {
                                assert(frontier@.contains(frontier@[j]));
                            }
                            assert(parents_ok(props, slot, visited@, parent@, layer));
                            assert(!within(props, p.from_slot, slot, k));
                            assert forall|y: u32| visited@.contains(y) <==> (within(props, y, slot, k) || next@.contains(y)) by {
                                if y != p.from_slot {
                                    assert(visited@.contains(y) == v0.contains(y));
                                    assert(next@.contains(y) == n0.contains(y));
                                }
                            }
                            assert forall|y: u32| next@.contains(y) implies (within(props, y, slot, k + 1) && !within(props, y, slot, k)) by {
                                if y != p.from_slot {
                                    assert(n0.contains(y));
                                }
                            }
                        }
                    }
                    t += 1;
                }
                m += 1;
                }
            }
            if found.is_none() {
                proof {
                    assert forall|y: u32| next@.contains(y) <==> (within(props, y, slot, k + 1) && !within(props, y, slot, k)) by {
                        if within(props, y, slot, k + 1) && !within(props, y, slot, k) {
                            lemma_first_step(props, y, slot, k);
                            let i = choose|i: int| 0 <= i < props.len() && #[trigger] props[i].from_slot == y
                                && within(props, props[i].to_slot, slot, k) && !within(props, props[i].to_slot, slot, k - 1);
                            let z = props[i].to_slot;
                            assert(frontier@.contains(z));
                            let j = choose|j: int| 0 <= j < frontier@.len() && frontier@[j] == z;
                            assert(visited@.contains(props[i].from_slot));
                        }
                    }
                    assert forall|y: u32| within(props, y, slot, k) implies !is_source_slot(srcs, y) by {
                        if !within(props, y, slot, k - 1) {
                            assert(frontier@.contains(y));
                            let j = choose|j: int| 0 <= j < frontier@.len() && frontier@[j] == y;
                        }
                    }
                    assert forall|y: u32| visited@.contains(y) <==> within(props, y, slot, k + 1) by {
                        if within(props, y, slot, k) {
                            let c = choose|c: Seq<TaintPropagation>| #[trigger] is_chain(props, c, y, slot) && c.len() <= k;
                            assert(is_chain(props, c, y, slot) && c.len() <= k + 1);
                        }
                    }
                    k = k + 1;
                }
            }
            proof {
                lemma_subset_len(visited@, univ);
            }
            frontier = next;
        }
        match found {
            None => {
                proof {
                    assert forall|z: u32| #[trigger] within(props, z, slot, k) implies within(props, z, slot, k - 1) by {
                        if !within(props, z, slot, k - 1) {
                            assert(!frontier@.contains(z));
                        }
                    }
                    assert forall|s0: u32, c: Seq<TaintPropagation>| is_source_slot(srcs, s0) && #[trigger] is_chain(props, c, s0, slot) implies false by {
                        if c.len() <= k - 1 {
                            assert(within(props, s0, slot, k - 1));
                        } else {
                            assert(within(props, s0, slot, c.len() as int));
                            lemma_no_deeper(props, s0, slot, k, c.len() as int);
                        }
                    }
                }
                Vec::new()
            }
            Some(src) => {
                let path = follow_parents(&parent, src, Ghost(props), Ghost(slot), Ghost(visited@), Ghost(layer));
                proof {
                    assert forall|s0: u32, d: Seq<TaintPropagation>| is_source_slot(srcs, s0) && #[trigger] is_chain(props, d, s0, slot)
                        implies path@.len() <= d.len() by {
                        if d.len() < path@.len() {
                            assert(within(props, s0, slot, layer[src] - 1));
                        }
                    }
                }
                path
            }
        }
    }
}

impl Default for TaintGraph {
    /// An empty graph.
    fn default() -> (g: Self)
        ensures
            g.spec_sources().len() == 0,
            g.spec_propagations().len() == 0,
    {
        TaintGraph::new()
    }
}

// ---------------------------------------------------------------------------
// Secret sources of a compiled workflow
// ---------------------------------------------------------------------------

/// Node kinds that receive external input and may therefore carry secrets.
pub open spec fn receives_input(kind: CompiledNodeKind) -> bool {
    kind is WaitEvent || kind is Ask
}

/// Ids of the input-receiving nodes, in node order.
pub open spec fn secret_source_ids(nodes: Seq<CompiledNode>) -> Seq<StepIdx>
    decreases nodes.len(),
{
    if nodes.len() == 0 {
        Seq::empty()
    } else {
        secret_source_ids(nodes.drop_last()) + if receives_input(nodes.last().kind) {
            seq![nodes.last().id]
        } else {
            Seq::empty()
        }
    }
}

/// Identifies nodes that could introduce secret values into the workflow:
/// the `WaitEvent` and `Ask` nodes, which receive external input.
pub fn find_secret_sources(parts: &WorkflowParts) -> (r: Vec<StepIdx>)
    ensures
        r@ == secret_source_ids(parts.nodes@),
{
    let mut sources: Vec<StepIdx> = Vec::new();
    let mut i: usize = 0;
    while i < parts.nodes.len()
        invariant
            i <= parts.nodes@.len(),
            sources@ == secret_source_ids(parts.nodes@.take(i as int)),
        decreases parts.nodes.len() - i,
    {
        let node = &parts.nodes[i];
        proof {
            assert(parts.nodes@.take(i + 1).drop_last() =~= parts.nodes@.take(i as int));
        }
        match node.kind {
            CompiledNodeKind::WaitEvent { .. } => {
                sources.push(node.id);
            }
            CompiledNodeKind::Ask { .. } => {
                sources.push(node.id);
            }
            _ => {}
        }
        i += 1;
    }
    proof {
        lemma_take_full(parts.nodes@);
    }
    sources
}

// ---------------------------------------------------------------------------
// Laws
// ---------------------------------------------------------------------------

/// Taint starts at the sources and is closed under propagation: every source
/// slot is tainted, and an edge leaving a tainted slot leads to a tainted slot.
pub proof fn lemma_taint_closed(sources: Seq<TaintSource>, props: Seq<TaintPropagation>, p: TaintPropagation, x: u32)
    ensures
        is_source_slot(sources, x) ==> tainted(sources, props, x),
        props.contains(p) && tainted(sources, props, p.from_slot) ==> tainted(sources, props, p.to_slot),
{
    if is_source_slot(sources, x) {
        assert(is_chain(props, Seq::empty(), x, x));
    }
    if props.contains(p) && tainted(sources, props, p.from_slot) {
        let (s0, c0) = choose|s0: u32, c0: Seq<TaintPropagation>| is_source_slot(sources, s0) && #[trigger] is_chain(props, c0, s0, p.from_slot);
        lemma_chain_push(props, c0, s0, p.from_slot, p);
    }
}

/// The secret sources of a workflow are its WaitEvent and Ask nodes, whatever
/// their fields: every such node's id is reported, every reported id is that of
/// such a node, and there is one entry per such node.
pub proof fn lemma_secret_sources_are_input_nodes(nodes: Seq<CompiledNode>)
    ensures
        forall|i: int| 0 <= i < nodes.len() && ((#[trigger] nodes[i]).kind is WaitEvent || nodes[i].kind is Ask)
            ==> secret_source_ids(nodes).contains(nodes[i].id),
        forall|x: StepIdx| #[trigger] secret_source_ids(nodes).contains(x) ==> exists|i: int|
            0 <= i < nodes.len() && ((#[trigger] nodes[i]).kind is WaitEvent || nodes[i].kind is Ask) && nodes[i].id == x,
        secret_source_ids(nodes).len() == crate::seqs::count_where(nodes, |n: CompiledNode| n.kind is WaitEvent || n.kind is Ask),
    decreases nodes.len(),
{
    if nodes.len() > 0 {
        let t = nodes.drop_last();
        lemma_secret_sources_are_input_nodes(t);
        let rt = secret_source_ids(t);
        let r = secret_source_ids(nodes);
        let last = nodes.last();
        assert forall|i: int| 0 <= i < nodes.len() && ((#[trigger] nodes[i]).kind is WaitEvent || nodes[i].kind is Ask)
            implies r.contains(nodes[i].id) by {
            if i < nodes.len() - 1 {
                assert(t[i] == nodes[i]);
                assert(rt.contains(t[i].id));
                let k = choose|k: int| 0 <= k < rt.len() && rt[k] == t[i].id;
                assert(r[k] == rt[k]);
            } else {
                assert(r[rt.len() as int] == last.id);
            }
        }
        assert forall|x: StepIdx| #[trigger] r.contains(x) implies exists|i: int|
            0 <= i < nodes.len() && ((#[trigger] nodes[i]).kind is WaitEvent || nodes[i].kind is Ask) && nodes[i].id == x by {
            let k = choose|k: int| 0 <= k < r.len() && r[k] == x;
            if k < rt.len() {
                assert(r[k] == rt[k]);
                assert(rt.contains(x));
                let i = choose|i: int| 0 <= i < t.len() && ((#[trigger] t[i]).kind is WaitEvent || t[i].kind is Ask) && t[i].id == x;
                assert(nodes[i] == t[i]);
            } else {
                assert(nodes[nodes.len() - 1] == last);
            }
        }
    }
}

} // verus!

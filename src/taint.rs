//! Taint tags and the taint engine.

use vstd::prelude::*;
use crate::graph::{graph_wf, reachable_from, reaches};
use crate::ir::Body;

verus! {

/// A set of causes, one per bit. Tags only accumulate: a join is a union.
#[derive(Clone, Copy, Debug, PartialEq, Eq, Structural)]
pub struct BehaviorFlag {
    pub bits: u16,
}

/// The union of two tags.
pub open spec fn join_bits(a: u16, b: u16) -> u16 {
    a | b
}

impl BehaviorFlag {
    /// The tag with no cause.
    pub fn empty() -> (r: BehaviorFlag)
        ensures
            r.bits == 0,
    {
        BehaviorFlag { bits: 0 }
    }

    pub fn from_bits(bits: u16) -> (r: BehaviorFlag)
        ensures
            r.bits == bits,
    {
        BehaviorFlag { bits }
    }

    /// True when no bit is set.
    pub fn is_empty(&self) -> (r: bool)
        ensures
            r == (self.bits == 0),
    {
        self.bits == 0
    }

    /// True when every bit of `other` is set in `self`.
    pub fn contains(&self, other: &BehaviorFlag) -> (r: bool)
        ensures
            r == (self.bits & other.bits == other.bits),
    {
        self.bits & other.bits == other.bits
    }

    /// True when `self` and `other` share a bit.
    pub fn intersects(&self, other: &BehaviorFlag) -> (r: bool)
        ensures
            r == (self.bits & other.bits != 0),
    {
        self.bits & other.bits != 0
    }

    /// Every finding is reported as an error, whatever its causes and
    /// whether the routine is visible outside its crate.
    pub fn report_level(&self, visibility: bool) -> (r: crate::ReportLevel)
        ensures
            r == crate::ReportLevel::Error,
    {
        crate::ReportLevel::Error
    }

    /// Adds the bits of `other`.
    pub fn join(&mut self, other: &BehaviorFlag)
        ensures
            final(self).bits == join_bits(old(self).bits, other.bits),
    {
        self.bits = self.bits | other.bits;
    }
}

/// Joining never removes a bit of either side.
pub proof fn lemma_join_keeps_bits(a: u16, b: u16)
    ensures
        join_bits(a, b) & a == a,
        join_bits(a, b) & b == b,
{
    assert((a | b) & a == a) by (bit_vector);
    assert((a | b) & b == b) by (bit_vector);
}

/// Join is commutative and associative.
pub proof fn lemma_join_commutative_associative(a: u16, b: u16, c: u16)
    ensures
        join_bits(a, b) == join_bits(b, a),
        join_bits(join_bits(a, b), c) == join_bits(a, join_bits(b, c)),
{
    assert(a | b == b | a) by (bit_vector);
    assert((a | b) | c == a | (b | c)) by (bit_vector);
}

/// The tag a slot carries after `t` is marked on it.
pub open spec fn marked(prev: Option<BehaviorFlag>, t: BehaviorFlag) -> BehaviorFlag {
    match prev {
        Some(p) => BehaviorFlag { bits: join_bits(p.bits, t.bits) },
        None => t,
    }
}

/// Some marked sink is reachable from `s`.
pub open spec fn reaches_sink(g: Seq<Vec<usize>>, sinks: Seq<bool>, s: usize) -> bool {
    exists|k: usize| k < sinks.len() && sinks[k as int] && #[trigger] reaches(g, s, k)
}

/// The source slots below `upto` whose tag is joined into the result.
pub open spec fn contributes(g: Seq<Vec<usize>>, sources: Seq<Option<BehaviorFlag>>, sinks: Seq<bool>, s: int) -> bool {
    sources[s] is Some && reaches_sink(g, sinks, s as usize)
}

/// The join of the tags of every source below `upto` that reaches a sink.
pub open spec fn propagated_bits(
    g: Seq<Vec<usize>>,
    sources: Seq<Option<BehaviorFlag>>,
    sinks: Seq<bool>,
    upto: nat,
) -> u16
    decreases upto,
{
    if upto == 0 {
        0
    } else {
        let prev = propagated_bits(g, sources, sinks, (upto - 1) as nat);
        if contributes(g, sources, sinks, upto - 1) {
            join_bits(prev, sources[upto - 1]->Some_0.bits)
        } else {
            prev
        }
    }
}

/// A sink reached from some source.
pub open spec fn sink_reached(g: Seq<Vec<usize>>, sources: Seq<Option<BehaviorFlag>>, sinks: Seq<bool>, k: usize) -> bool {
    &&& k < sinks.len()
    &&& sinks[k as int]
    &&& exists|s: usize| s < sources.len() && sources[s as int] is Some && #[trigger] reaches(g, s, k)
}

/// The state of one analysis: which slots are sources, with their tags, and
/// which are sinks, over the place-flow graph of one routine.
pub struct TaintAnalyzer<'a> {
    graph: &'a Vec<Vec<usize>>,
    sources: Vec<Option<BehaviorFlag>>,
    sinks: Vec<bool>,
}

impl<'a> TaintAnalyzer<'a> {
    pub closed spec fn graph(&self) -> Seq<Vec<usize>> {
        self.graph@
    }

    pub closed spec fn sources(&self) -> Seq<Option<BehaviorFlag>> {
        self.sources@
    }

    pub closed spec fn sinks(&self) -> Seq<bool> {
        self.sinks@
    }

    pub open spec fn n_slots(&self) -> nat {
        self.graph().len()
    }

    pub open spec fn wf(&self) -> bool {
        &&& graph_wf(self.graph())
        &&& self.sources().len() == self.n_slots()
        &&& self.sinks().len() == self.n_slots()
    }

    /// The result that `propagate` returns in this state.
    pub open spec fn result(&self) -> u16 {
        propagated_bits(self.graph(), self.sources(), self.sinks(), self.n_slots())
    }

    /// An analysis over the place-flow graph of `body`, with nothing marked.
    pub fn new(body: &'a Body) -> (r: TaintAnalyzer<'a>)
        requires
            body.wf(),
        ensures
            r.wf(),
            r.graph() == body.place_neighbor_list@,
            forall|s: int| 0 <= s < r.n_slots() ==> r.sources()[s] is None,
            forall|s: int| 0 <= s < r.n_slots() ==> !r.sinks()[s],
    {
        TaintAnalyzer::on_graph(&body.place_neighbor_list)
    }

    /// An analysis over graph `g`, with nothing marked.
    pub fn on_graph(g: &'a Vec<Vec<usize>>) -> (r: TaintAnalyzer<'a>)
        requires
            graph_wf(g@),
        ensures
            r.wf(),
            r.graph() == g@,
            forall|s: int| 0 <= s < r.n_slots() ==> r.sources()[s] is None,
            forall|s: int| 0 <= s < r.n_slots() ==> !r.sinks()[s],
    {
        let n = g.len();
        let mut sources: Vec<Option<BehaviorFlag>> = Vec::new();
        let mut sinks: Vec<bool> = Vec::new();
        let mut k: usize = 0;
        while k < n
            invariant
                k <= n,
                sources@.len() == k,
                sinks@.len() == k,
                forall|s: int| 0 <= s < k ==> sources@[s] is None,
                forall|s: int| 0 <= s < k ==> !sinks@[s],
            decreases n - k,
        {
            sources.push(None);
            sinks.push(false);
            k = k + 1;
        }
        TaintAnalyzer { graph: g, sources, sinks }
    }

    /// Makes `slot` a source carrying `tag`; a second mark joins the tags.
    pub fn mark_source(&mut self, slot: usize, tag: &BehaviorFlag)
        requires
            old(self).wf(),
            slot < old(self).n_slots(),
        ensures
            final(self).wf(),
            final(self).graph() == old(self).graph(),
            final(self).sinks() == old(self).sinks(),
            final(self).sources() == old(self).sources().update(
                slot as int,
                Some(marked(old(self).sources()[slot as int], *tag)),
            ),
    {
        let next = match self.sources[slot] {
            Some(prev) => {
                let mut t = prev;
                t.join(tag);
                t
            },
            None => *tag,
        };
        self.sources.set(slot, Some(next));
    }

    /// Makes `slot` a sink.
    pub fn mark_sink(&mut self, slot: usize)
        requires
            old(self).wf(),
            slot < old(self).n_slots(),
        ensures
            final(self).wf(),
            final(self).graph() == old(self).graph(),
            final(self).sources() == old(self).sources(),
            final(self).sinks() == old(self).sinks().update(slot as int, true),
    {
        self.sinks.set(slot, true);
    }

    /// Makes `slot` a source carrying `tag` and a sink at once, so that its
    /// tag reaches the result without any outgoing flow.
    pub fn mark_at_once(&mut self, slot: usize, tag: &BehaviorFlag)
        requires
            old(self).wf(),
            slot < old(self).n_slots(),
        ensures
            final(self).wf(),
            final(self).graph() == old(self).graph(),
            final(self).sources() == old(self).sources().update(
                slot as int,
                Some(marked(old(self).sources()[slot as int], *tag)),
            ),
            final(self).sinks() == old(self).sinks().update(slot as int, true),
    {
        self.mark_source(slot, tag);
        self.mark_sink(slot);
    }

    /// Withdraws the source mark of `slot`, whatever was marked before.
    pub fn clear_source(&mut self, slot: usize)
        requires
            old(self).wf(),
            slot < old(self).n_slots(),
        ensures
            final(self).wf(),
            final(self).graph() == old(self).graph(),
            final(self).sinks() == old(self).sinks(),
            final(self).sources() == old(self).sources().update(slot as int, None),
    {
        self.sources.set(slot, None);
    }

    /// Some flow leads from `from` to `to`; a slot reaches itself.
    pub fn is_reachable(&self, from: usize, to: usize) -> (r: bool)
        requires
            self.wf(),
            from < self.n_slots(),
            to < self.n_slots(),
        ensures
            r == reaches(self.graph(), from, to),
    {
        let vis = reachable_from(self.graph, from);
        vis[to]
    }

    /// Whether a marked sink is reachable from `s`.
    fn source_reaches_sink(&self, s: usize) -> (r: bool)
        requires
            self.wf(),
            s < self.n_slots(),
        ensures
            r == reaches_sink(self.graph(), self.sinks(), s),
    {
        let vis = reachable_from(self.graph, s);
        let n = self.sinks.len();
        let mut k: usize = 0;
        while k < n
            invariant
                self.wf(),
                n == self.n_slots(),
                vis@.len() == n,
                forall|v: usize| v < n ==> (vis@[v as int] <==> reaches(self.graph(), s, v)),
                k <= n,
                forall|j: usize| j < k ==> !(self.sinks()[j as int] && #[trigger] reaches(self.graph(), s, j)),
            decreases n - k,
        {
            if self.sinks[k] && vis[k] {
                return true;
            }
            k = k + 1;
        }
        false
    }

    /// The join of the tags of every source from which some sink is
    /// reachable; empty when none is.
    pub fn propagate(&self) -> (r: BehaviorFlag)
        requires
            self.wf(),
        ensures
            r.bits == self.result(),
    {
        let n = self.sources.len();
        let mut result = BehaviorFlag::empty();
        let mut s: usize = 0;
        while s < n
            invariant
                self.wf(),
                n == self.n_slots(),
                s <= n,
                result.bits == propagated_bits(self.graph(), self.sources(), self.sinks(), s as nat),
            decreases n - s,
        {
            if let Some(t) = self.sources[s] {
                if self.source_reaches_sink(s) {
                    result.join(&t);
                }
            }
            s = s + 1;
        }
        result
    }

    /// The marked sinks that some source reaches, in increasing order.
    pub fn get_reachable_sinks(&self) -> (r: Vec<usize>)
        requires
            self.wf(),
        ensures
            forall|i: int| 0 <= i < r@.len() ==> sink_reached(self.graph(), self.sources(), self.sinks(), #[trigger] r@[i]),
            forall|k: usize| sink_reached(self.graph(), self.sources(), self.sinks(), k) ==> r@.contains(k),
            forall|i: int, j: int| 0 <= i < j < r@.len() ==> r@[i] < r@[j],
    {
        let n = self.sources.len();
        let mut any: Vec<bool> = Vec::new();
        let mut k: usize = 0;
        while k < n
            invariant
                k <= n,
                any@.len() == k,
                forall|v: int| 0 <= v < k ==> !any@[v],
            decreases n - k,
        {
            any.push(false);
            k = k + 1;
        }
        let mut s: usize = 0;
        while s < n
            invariant
                self.wf(),
                n == self.n_slots(),
                s <= n,
                any@.len() == n,
                forall|v: usize| v < n ==> (any@[v as int] <==> exists|x: usize|
                    x < s && self.sources()[x as int] is Some && #[trigger] reaches(self.graph(), x, v)),
            decreases n - s,
        {
            if self.sources[s].is_some() {
                let vis = reachable_from(self.graph, s);
                let mut v: usize = 0;
                while v < n
                    invariant
                        self.wf(),
                        n == self.n_slots(),
                        s < n,
                        self.sources()[s as int] is Some,
                        v <= n,
                        any@.len() == n,
                        vis@.len() == n,
                        forall|w: usize| w < n ==> (vis@[w as int] <==> reaches(self.graph(), s, w)),
                        forall|w: usize| w < n ==> (any@[w as int] <==> (exists|x: usize|
                            x < s && self.sources()[x as int] is Some && #[trigger] reaches(self.graph(), x, w))
                            || (w < v && reaches(self.graph(), s, w))),
                    decreases n - v,
                {
                    if vis[v] {
                        any.set(v, true);
                    }
                    v = v + 1;
                }
                proof {
                    assert forall|w: usize| w < n implies (any@[w as int] <==> exists|x: usize|
                        x < s + 1 && self.sources()[x as int] is Some && #[trigger] reaches(self.graph(), x, w)) by {
                        if exists|x: usize| x < s + 1 && self.sources()[x as int] is Some && #[trigger] reaches(self.graph(), x, w) {
                            let x = choose|x: usize| x < s + 1 && self.sources()[x as int] is Some && #[trigger] reaches(self.graph(), x, w);
                            if x < s {
                                assert(exists|x: usize|
                                    x < s && self.sources()[x as int] is Some && #[trigger] reaches(self.graph(), x, w));
                            }
                        }
                    }
                }
            } else {
                proof {
                    assert forall|w: usize| w < n implies (any@[w as int] <==> exists|x: usize|
                        x < s + 1 && self.sources()[x as int] is Some && #[trigger] reaches(self.graph(), x, w)) by {
                        if exists|x: usize| x < s + 1 && self.sources()[x as int] is Some && #[trigger] reaches(self.graph(), x, w) {
                            let x = choose|x: usize| x < s + 1 && self.sources()[x as int] is Some && #[trigger] reaches(self.graph(), x, w);
                            assert(x < s);
                        }
                    }
                }
            }
            s = s + 1;
        }
        let mut r: Vec<usize> = Vec::new();
        let mut k: usize = 0;
        while k < n
            invariant
                self.wf(),
                n == self.n_slots(),
                k <= n,
                any@.len() == n,
                forall|v: usize| v < n ==> (any@[v as int] <==> exists|x: usize|
                    x < n && self.sources()[x as int] is Some && #[trigger] reaches(self.graph(), x, v)),
                forall|i: int| 0 <= i < r@.len() ==> sink_reached(self.graph(), self.sources(), self.sinks(), #[trigger] r@[i]),
                forall|i: int| 0 <= i < r@.len() ==> #[trigger] r@[i] < k,
                forall|v: usize| v < k && sink_reached(self.graph(), self.sources(), self.sinks(), v) ==> r@.contains(v),
                forall|i: int, j: int| 0 <= i < j < r@.len() ==> r@[i] < r@[j],
            decreases n - k,
        {
            if self.sinks[k] && any[k] {
                let ghost before = r@;
                r.push(k);
                proof {
                    assert forall|v: usize| v < k + 1 && sink_reached(self.graph(), self.sources(), self.sinks(), v) implies r@.contains(v) by {
                        if v == k {
                            assert(r@[before.len() as int] == k);
                        } else {
                            assert(before.contains(v));
                            let j = choose|j: int| 0 <= j < before.len() && before[j] == v;
                            assert(r@[j] == v);
                        }
                    }
                }
            }
            k = k + 1;
        }
        r
    }
}

/// A bit of the result comes from the tag of some source that reaches a
/// marked sink.
pub proof fn lemma_result_bit_has_origin(
    g: Seq<Vec<usize>>,
    sources: Seq<Option<BehaviorFlag>>,
    sinks: Seq<bool>,
    upto: nat,
    x: u16,
)
    requires
        upto <= sources.len(),
        propagated_bits(g, sources, sinks, upto) & x != 0,
    ensures
        exists|s: int| 0 <= s < upto && #[trigger] contributes(g, sources, sinks, s) && sources[s]->Some_0.bits & x != 0,
    decreases upto,
{
    let p = propagated_bits(g, sources, sinks, (upto - 1) as nat);
    if upto == 0 {
        assert(0u16 & x == 0) by (bit_vector);
    } else if contributes(g, sources, sinks, upto - 1) {
        let t = sources[upto - 1]->Some_0.bits;
        assert((p | t) & x != 0 ==> (p & x != 0 || t & x != 0)) by (bit_vector);
        if p & x != 0 {
            lemma_result_bit_has_origin(g, sources, sinks, (upto - 1) as nat, x);
        } else {
            assert(contributes(g, sources, sinks, upto - 1));
        }
    } else {
        lemma_result_bit_has_origin(g, sources, sinks, (upto - 1) as nat, x);
    }
}

/// If the result holds a bit of the tag of source `s`, and no other source
/// carries any bit of that tag, then some marked sink is reachable from `s`.
pub proof fn lemma_propagation_sound(ta: &TaintAnalyzer, s: usize)
    requires
        ta.wf(),
        s < ta.n_slots(),
        ta.sources()[s as int] is Some,
        ta.result() & ta.sources()[s as int]->Some_0.bits != 0,
        forall|o: int|
            0 <= o < ta.n_slots() && o != s && ta.sources()[o] is Some ==> (#[trigger] ta.sources()[o])->Some_0.bits
                & ta.sources()[s as int]->Some_0.bits == 0,
    ensures
        exists|k: usize| k < ta.n_slots() && ta.sinks()[k as int] && #[trigger] reaches(ta.graph(), s, k),
{
    let x = ta.sources()[s as int]->Some_0.bits;
    lemma_result_bit_has_origin(ta.graph(), ta.sources(), ta.sinks(), ta.n_slots(), x);
    let o = choose|o: int| 0 <= o < ta.n_slots() && #[trigger] contributes(ta.graph(), ta.sources(), ta.sinks(), o)
        && ta.sources()[o]->Some_0.bits & x != 0;
    assert(ta.sources()[o] is Some);
    assert(o == s);
}

/// A source whose mark was cleared adds nothing to the result: marking it with
/// any tag and then clearing it gives the result of never having marked it,
/// whatever it reaches.
pub proof fn lemma_clear_overrides_mark(ta: &TaintAnalyzer, s: usize, t: BehaviorFlag)
    requires
        ta.wf(),
        s < ta.n_slots(),
    ensures
        ({
            let marked_then_cleared = ta.sources().update(s as int, Some(marked(ta.sources()[s as int], t))).update(
                s as int,
                None,
            );
            &&& propagated_bits(ta.graph(), marked_then_cleared, ta.sinks(), ta.n_slots())
                == propagated_bits(ta.graph(), ta.sources().update(s as int, None), ta.sinks(), ta.n_slots())
            &&& !contributes(ta.graph(), marked_then_cleared, ta.sinks(), s as int)
        }),
{
    let a = ta.sources().update(s as int, Some(marked(ta.sources()[s as int], t))).update(s as int, None);
    assert(a =~= ta.sources().update(s as int, None));
}

/// One marking step of a checker.
#[derive(Clone, Copy, Debug, PartialEq, Eq, Structural)]
pub enum Mark {
    Source(usize, BehaviorFlag),
    Sink(usize),
    AtOnce(usize, BehaviorFlag),
    Clear(usize),
}

pub open spec fn mark_slot(m: Mark) -> usize {
    match m {
        Mark::Source(s, _) => s,
        Mark::Sink(s) => s,
        Mark::AtOnce(s, _) => s,
        Mark::Clear(s) => s,
    }
}

/// The sources and sinks after one step.
pub open spec fn apply_mark(st: (Seq<Option<BehaviorFlag>>, Seq<bool>), m: Mark) -> (Seq<Option<BehaviorFlag>>, Seq<bool>) {
    let (src, snk) = st;
    match m {
        Mark::Source(s, t) => (src.update(s as int, Some(marked(src[s as int], t))), snk),
        Mark::Sink(s) => (src, snk.update(s as int, true)),
        Mark::AtOnce(s, t) => (src.update(s as int, Some(marked(src[s as int], t))), snk.update(s as int, true)),
        Mark::Clear(s) => (src.update(s as int, None), snk),
    }
}

/// The sources and sinks after the steps in order.
pub open spec fn apply_marks(st: (Seq<Option<BehaviorFlag>>, Seq<bool>), ms: Seq<Mark>) -> (Seq<Option<BehaviorFlag>>, Seq<bool>)
    decreases ms.len(),
{
    if ms.len() == 0 {
        st
    } else {
        apply_mark(apply_marks(st, ms.drop_last()), ms.last())
    }
}

/// Nothing marked yet, over `n` slots.
pub open spec fn unmarked(n: nat) -> (Seq<Option<BehaviorFlag>>, Seq<bool>) {
    (Seq::new(n, |i: int| None), Seq::new(n, |i: int| false))
}

/// The tag that propagation yields over graph `g` after the steps `ms`.
pub open spec fn graph_marks_result(g: Seq<Vec<usize>>, ms: Seq<Mark>) -> u16 {
    let st = apply_marks(unmarked(g.len()), ms);
    propagated_bits(g, st.0, st.1, g.len())
}

/// The tag that propagation yields on the place-flow graph of `body` after
/// the steps `ms`.
pub open spec fn marks_result(body: &Body, ms: Seq<Mark>) -> u16 {
    graph_marks_result(body.place_neighbor_list@, ms)
}

pub open spec fn marks_in(ms: Seq<Mark>, n: nat) -> bool {
    forall|i: int| 0 <= i < ms.len() ==> #[trigger] mark_slot(ms[i]) < n
}

impl<'a> TaintAnalyzer<'a> {
    /// Takes the steps in order.
    pub fn apply(&mut self, ms: &Vec<Mark>)
        requires
            old(self).wf(),
            marks_in(ms@, old(self).n_slots()),
        ensures
            final(self).wf(),
            final(self).graph() == old(self).graph(),
            (final(self).sources(), final(self).sinks()) == apply_marks((old(self).sources(), old(self).sinks()), ms@),
    {
        let ghost st0 = (self.sources(), self.sinks());
        let mut i: usize = 0;
        while i < ms.len()
            invariant
                self.wf(),
                self.graph() == old(self).graph(),
                st0 == (old(self).sources(), old(self).sinks()),
                marks_in(ms@, self.n_slots()),
                i <= ms@.len(),
                (self.sources(), self.sinks()) == apply_marks(st0, ms@.subrange(0, i as int)),
            decreases ms@.len() - i,
        {
            assert(ms@.subrange(0, i + 1).drop_last() =~= ms@.subrange(0, i as int));
            assert(mark_slot(ms@[i as int]) < self.n_slots());
            match ms[i] {
                Mark::Source(s, t) => self.mark_source(s, &t),
                Mark::Sink(s) => self.mark_sink(s),
                Mark::AtOnce(s, t) => self.mark_at_once(s, &t),
                Mark::Clear(s) => self.clear_source(s),
            }
            i = i + 1;
        }
        assert(ms@.subrange(0, i as int) =~= ms@);
    }
}

/// Applies the steps `ms` on `body` and propagates.
pub fn run_marks(body: &Body, ms: &Vec<Mark>) -> (r: BehaviorFlag)
    requires
        body.wf(),
        marks_in(ms@, body.n_slots()),
    ensures
        r.bits == marks_result(body, ms@),
{
    run_marks_on(&body.place_neighbor_list, ms)
}

/// Applies the steps `ms` over graph `g` and propagates.
pub fn run_marks_on(g: &Vec<Vec<usize>>, ms: &Vec<Mark>) -> (r: BehaviorFlag)
    requires
        graph_wf(g@),
        marks_in(ms@, g@.len()),
    ensures
        r.bits == graph_marks_result(g@, ms@),
{
    let mut ta = TaintAnalyzer::on_graph(g);
    proof {
        assert(ta.sources() =~= unmarked(ta.n_slots()).0);
        assert(ta.sinks() =~= unmarked(ta.n_slots()).1);
    }
    ta.apply(ms);
    ta.propagate()
}

/// The kind and line recorded last for slot `k`.
pub open spec fn recorded(records: Seq<(usize, usize, usize)>, k: usize) -> Option<(usize, usize)>
    decreases records.len(),
{
    if records.len() == 0 {
        None
    } else if records.last().0 == k {
        Some((records.last().1, records.last().2))
    } else {
        recorded(records.drop_last(), k)
    }
}

/// The lines of the records, in order.
pub open spec fn record_lines(records: Seq<(usize, usize, usize)>) -> Seq<usize> {
    records.map_values(|x: (usize, usize, usize)| x.2)
}

/// `k` is the greatest sink that some source reaches after the steps `ms`
/// over graph `g`.
pub open spec fn last_reached_sink(g: Seq<Vec<usize>>, ms: Seq<Mark>, k: usize) -> bool {
    let st = apply_marks(unmarked(g.len()), ms);
    &&& sink_reached(g, st.0, st.1, k)
    &&& forall|j: usize| j > k ==> !#[trigger] sink_reached(g, st.0, st.1, j)
}

/// No sink is reached after the steps `ms` over graph `g`.
pub open spec fn no_sink_reached(g: Seq<Vec<usize>>, ms: Seq<Mark>) -> bool {
    let st = apply_marks(unmarked(g.len()), ms);
    forall|k: usize| !#[trigger] sink_reached(g, st.0, st.1, k)
}

/// The kind and line recorded for the greatest reached sink: `(0, 0)` when
/// no sink is reached, `(absent, 0)` when nothing was recorded for it.
pub fn report_finding(
    g: &Vec<Vec<usize>>,
    ms: &Vec<Mark>,
    records: &Vec<(usize, usize, usize)>,
    absent: usize,
) -> (r: (usize, usize))
    requires
        graph_wf(g@),
        marks_in(ms@, g@.len()),
    ensures
        no_sink_reached(g@, ms@) ==> r == (0usize, 0usize),
        forall|k: usize| #[trigger] last_reached_sink(g@, ms@, k) ==> r == match recorded(records@, k) {
            Some(x) => x,
            None => (absent, 0usize),
        },
{
    let mut ta = TaintAnalyzer::on_graph(g);
    proof {
        assert(ta.sources() =~= unmarked(ta.n_slots()).0);
        assert(ta.sinks() =~= unmarked(ta.n_slots()).1);
    }
    ta.apply(ms);
    assert((ta.sources(), ta.sinks()) == apply_marks(unmarked(g@.len()), ms@));
    let sinks = ta.get_reachable_sinks();
    if sinks.len() == 0 {
        proof {
            assert forall|k: usize| !#[trigger] sink_reached(ta.graph(), ta.sources(), ta.sinks(), k) by {
                if sink_reached(ta.graph(), ta.sources(), ta.sinks(), k) {
                    assert(sinks@.contains(k));
                }
            }
        }
        return (0, 0);
    }
    let last = sinks[sinks.len() - 1];
    proof {
        assert(sink_reached(ta.graph(), ta.sources(), ta.sinks(), last));
        let st = apply_marks(unmarked(g@.len()), ms@);
        assert(st.0 == ta.sources() && st.1 == ta.sinks());
        assert(sink_reached(g@, st.0, st.1, last));
        assert(!no_sink_reached(g@, ms@));
        assert forall|k: usize| #[trigger] last_reached_sink(g@, ms@, k) implies k == last by {
            if k != last {
                if k < last {
                } else {
                    assert(sinks@.contains(k));
                    let i = choose|i: int| 0 <= i < sinks@.len() && sinks@[i] == k;
                    assert(sinks@[i] <= sinks@[sinks@.len() - 1]) by {
                        if i < sinks@.len() - 1 {
                            assert(sinks@[i] < sinks@[sinks@.len() - 1]);
                        }
                    }
                }
            }
        }
    }
    let mut found: Option<(usize, usize)> = None;
    let mut i: usize = 0;
    while i < records.len()
        invariant
            i <= records@.len(),
            found == recorded(records@.subrange(0, i as int), last),
        decreases records@.len() - i,
    {
        let (slot, kind, line) = records[i];
        assert(records@.subrange(0, i + 1).drop_last() =~= records@.subrange(0, i as int));
        if slot == last {
            found = Some((kind, line));
        }
        i = i + 1;
    }
    assert(records@.subrange(0, i as int) =~= records@);
    match found {
        Some(x) => x,
        None => (absent, 0),
    }
}

proof fn lemma_contribution_kept(
    g: Seq<Vec<usize>>,
    sources: Seq<Option<BehaviorFlag>>,
    sinks: Seq<bool>,
    s: int,
    upto: nat,
)
    requires
        0 <= s < upto <= sources.len(),
        contributes(g, sources, sinks, s),
    ensures
        propagated_bits(g, sources, sinks, upto) & sources[s]->Some_0.bits == sources[s]->Some_0.bits,
    decreases upto,
{
    let t = sources[s]->Some_0.bits;
    let p = propagated_bits(g, sources, sinks, (upto - 1) as nat);
    if upto - 1 == s {
        assert((p | t) & t == t) by (bit_vector);
    } else {
        lemma_contribution_kept(g, sources, sinks, s, (upto - 1) as nat);
        if contributes(g, sources, sinks, upto - 1) {
            let x = sources[upto - 1]->Some_0.bits;
            assert(p & t == t ==> (p | x) & t == t) by (bit_vector);
        }
    }
}

/// A slot that is both a source and a sink reaches itself, so its whole tag
/// is in the result, whatever flows out of it.
pub proof fn lemma_source_at_sink_contributes(ta: &TaintAnalyzer, s: usize)
    requires
        ta.wf(),
        s < ta.n_slots(),
        ta.sources()[s as int] is Some,
        ta.sinks()[s as int],
    ensures
        ta.result() & ta.sources()[s as int]->Some_0.bits == ta.sources()[s as int]->Some_0.bits,
{
    crate::graph::lemma_reachability_reflexive(ta.graph(), s);
    assert(reaches_sink(ta.graph(), ta.sinks(), s));
    lemma_contribution_kept(ta.graph(), ta.sources(), ta.sinks(), s as int, ta.n_slots());
}

} // verus!

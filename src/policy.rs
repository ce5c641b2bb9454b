//! What a checker decides at each statement and terminator, as a list of
//! marking steps, and the walk that gathers those steps over a routine.

use vstd::prelude::*;
use crate::ir::{BasicBlock, Body, Statement, Terminator};
use crate::taint::{Mark, marks_in};

verus! {

/// The places of a routine that a finding points at, by source line.
#[derive(Debug)]
pub struct Spans {
    pub strong_bypasses: Vec<usize>,
    pub weak_bypasses: Vec<usize>,
    pub plain_deref: Vec<usize>,
    pub unresolvable_generic_functions: Vec<usize>,
    pub ty_convs: Vec<usize>,
    pub branch_handles: Vec<usize>,
    pub access_uninit: Vec<usize>,
}

/// One of the span lists.
#[derive(Clone, Copy, Debug, PartialEq, Eq, Structural)]
pub enum SpanList {
    StrongBypasses,
    WeakBypasses,
    PlainDeref,
    UnresolvableGenericFunctions,
    TyConvs,
    BranchHandles,
    AccessUninit,
}

/// `k` copies of `line`: one per step taken at that line.
pub open spec fn repeat_line(line: usize, k: nat) -> Seq<usize> {
    Seq::new(k, |i: int| line)
}

pub open spec fn no_lines() -> Seq<usize> {
    Seq::empty()
}

impl Spans {
    pub open spec fn list(&self, l: SpanList) -> Seq<usize> {
        match l {
            SpanList::StrongBypasses => self.strong_bypasses@,
            SpanList::WeakBypasses => self.weak_bypasses@,
            SpanList::PlainDeref => self.plain_deref@,
            SpanList::UnresolvableGenericFunctions => self.unresolvable_generic_functions@,
            SpanList::TyConvs => self.ty_convs@,
            SpanList::BranchHandles => self.branch_handles@,
            SpanList::AccessUninit => self.access_uninit@,
        }
    }

    /// Every list is empty.
    pub open spec fn all_empty(&self) -> bool {
        forall|l: SpanList| #[trigger] self.list(l).len() == 0
    }

    pub fn new() -> (r: Spans)
        ensures
            r.all_empty(),
            forall|l: SpanList| #[trigger] r.list(l) == no_lines(),
    {
        let r = Spans {
            strong_bypasses: Vec::new(),
            weak_bypasses: Vec::new(),
            plain_deref: Vec::new(),
            unresolvable_generic_functions: Vec::new(),
            ty_convs: Vec::new(),
            branch_handles: Vec::new(),
            access_uninit: Vec::new(),
        };
        assert forall|l: SpanList| #[trigger] r.list(l) == no_lines() by {
            assert(r.list(l) =~= no_lines());
        }
        r
    }
}

/// A checker whose steps at a statement or terminator depend on it alone.
pub trait Policy {
    /// What the checker needs of its routine and types.
    spec fn inv(&self) -> bool;

    /// The number of slots of the routine.
    spec fn n_slots(&self) -> nat;

    spec fn statement_ok(&self, s: Statement) -> bool;

    spec fn terminator_ok(&self, t: Terminator) -> bool;

    /// The steps taken at a statement.
    spec fn statement_marks(&self, s: Statement) -> Seq<Mark>;

    /// The steps taken at a terminator.
    spec fn terminator_marks(&self, t: Terminator) -> Seq<Mark>;

    /// The lines recorded in list `l` at a statement.
    spec fn statement_lines(&self, s: Statement, l: SpanList) -> Seq<usize>;

    /// The lines recorded in list `l` at a terminator.
    spec fn terminator_lines(&self, t: Terminator, l: SpanList) -> Seq<usize>;

    fn statement(&self, s: &Statement, out: &mut Vec<Mark>, spans: &mut Spans)
        requires
            self.inv(),
            self.statement_ok(*s),
        ensures
            final(out)@ == old(out)@ + self.statement_marks(*s),
            marks_in(self.statement_marks(*s), self.n_slots()),
            forall|l: SpanList| #[trigger] final(spans).list(l) == old(spans).list(l) + self.statement_lines(*s, l),
    ;

    fn terminator(&self, t: &Terminator, out: &mut Vec<Mark>, spans: &mut Spans)
        requires
            self.inv(),
            self.terminator_ok(*t),
        ensures
            final(out)@ == old(out)@ + self.terminator_marks(*t),
            marks_in(self.terminator_marks(*t), self.n_slots()),
            forall|l: SpanList| #[trigger] final(spans).list(l) == old(spans).list(l) + self.terminator_lines(*t, l),
    ;
}

/// The steps of the first `i` statements of a block.
pub open spec fn block_marks<P: Policy>(p: &P, bb: BasicBlock, i: int) -> Seq<Mark>
    decreases i,
{
    if i <= 0 {
        Seq::empty()
    } else {
        block_marks(p, bb, i - 1) + p.statement_marks(bb.statements@[i - 1])
    }
}

/// The steps of the statements of the first `b` blocks.
pub open spec fn statement_marks_upto<P: Policy>(p: &P, bbs: Seq<BasicBlock>, b: int) -> Seq<Mark>
    decreases b,
{
    if b <= 0 {
        Seq::empty()
    } else {
        statement_marks_upto(p, bbs, b - 1) + block_marks(p, bbs[b - 1], bbs[b - 1].statements@.len() as int)
    }
}

/// The steps of the terminators of the first `b` blocks.
pub open spec fn terminator_marks_upto<P: Policy>(p: &P, bbs: Seq<BasicBlock>, b: int) -> Seq<Mark>
    decreases b,
{
    if b <= 0 {
        Seq::empty()
    } else {
        terminator_marks_upto(p, bbs, b - 1) + p.terminator_marks(bbs[b - 1].terminator)
    }
}

/// The lines of list `l` recorded at the first `i` statements of a block.
pub open spec fn block_lines<P: Policy>(p: &P, bb: BasicBlock, i: int, l: SpanList) -> Seq<usize>
    decreases i,
{
    if i <= 0 {
        Seq::empty()
    } else {
        block_lines(p, bb, i - 1, l) + p.statement_lines(bb.statements@[i - 1], l)
    }
}

pub open spec fn statement_lines_upto<P: Policy>(p: &P, bbs: Seq<BasicBlock>, b: int, l: SpanList) -> Seq<usize>
    decreases b,
{
    if b <= 0 {
        Seq::empty()
    } else {
        statement_lines_upto(p, bbs, b - 1, l) + block_lines(p, bbs[b - 1], bbs[b - 1].statements@.len() as int, l)
    }
}

pub open spec fn terminator_lines_upto<P: Policy>(p: &P, bbs: Seq<BasicBlock>, b: int, l: SpanList) -> Seq<usize>
    decreases b,
{
    if b <= 0 {
        Seq::empty()
    } else {
        terminator_lines_upto(p, bbs, b - 1, l) + p.terminator_lines(bbs[b - 1].terminator, l)
    }
}

/// The lines of list `l`, in the order the steps are taken.
pub open spec fn policy_lines<P: Policy>(p: &P, bbs: Seq<BasicBlock>, l: SpanList) -> Seq<usize> {
    statement_lines_upto(p, bbs, bbs.len() as int, l) + terminator_lines_upto(p, bbs, bbs.len() as int, l)
}

/// Every statement in block order, then every terminator in block order.
pub open spec fn policy_marks<P: Policy>(p: &P, bbs: Seq<BasicBlock>) -> Seq<Mark> {
    statement_marks_upto(p, bbs, bbs.len() as int) + terminator_marks_upto(p, bbs, bbs.len() as int)
}

proof fn lemma_marks_in_concat(a: Seq<Mark>, b: Seq<Mark>, n: nat)
    requires
        marks_in(a, n),
        marks_in(b, n),
    ensures
        marks_in(a + b, n),
{
    assert forall|i: int| 0 <= i < (a + b).len() implies #[trigger] crate::taint::mark_slot((a + b)[i]) < n by {
        if i < a.len() {
            assert((a + b)[i] == a[i]);
        } else {
            assert((a + b)[i] == b[i - a.len()]);
        }
    }
}

/// Gathers the steps of a checker over the routine.
pub fn collect_marks<P: Policy>(p: &P, body: &Body, spans: &mut Spans) -> (ms: Vec<Mark>)
    requires
        p.inv(),
        forall|b: int, i: int|
            0 <= b < body.basic_blocks@.len() && 0 <= i < body.basic_blocks@[b].statements@.len()
                ==> p.statement_ok(#[trigger] body.basic_blocks@[b].statements@[i]),
        forall|b: int| 0 <= b < body.basic_blocks@.len() ==> p.terminator_ok(#[trigger] body.basic_blocks@[b].terminator),
    ensures
        ms@ == policy_marks(p, body.basic_blocks@),
        marks_in(ms@, p.n_slots()),
        forall|l: SpanList| #[trigger] final(spans).list(l) == old(spans).list(l) + policy_lines(p, body.basic_blocks@, l),
{
    let ghost bbs = body.basic_blocks@;
    let ghost sp0 = *spans;
    let mut ms: Vec<Mark> = Vec::new();
    let mut b: usize = 0;
    while b < body.basic_blocks.len()
        invariant
            p.inv(),
            bbs == body.basic_blocks@,
            forall|b: int, i: int|
                0 <= b < bbs.len() && 0 <= i < bbs[b].statements@.len() ==> p.statement_ok(#[trigger] bbs[b].statements@[i]),
            b <= bbs.len(),
            ms@ == statement_marks_upto(p, bbs, b as int),
            marks_in(ms@, p.n_slots()),
            sp0 == *old(spans),
            forall|l: SpanList| #[trigger] spans.list(l) == sp0.list(l) + statement_lines_upto(p, bbs, b as int, l),
        decreases bbs.len() - b,
    {
        let bb = &body.basic_blocks[b];
        let ghost start = ms@;
        let ghost sp1 = *spans;
        let mut i: usize = 0;
        while i < bb.statements.len()
            invariant
                p.inv(),
                bbs == body.basic_blocks@,
                b < bbs.len(),
                *bb == bbs[b as int],
                forall|b: int, i: int|
                    0 <= b < bbs.len() && 0 <= i < bbs[b].statements@.len() ==> p.statement_ok(#[trigger] bbs[b].statements@[i]),
                i <= bb.statements@.len(),
                ms@ == start + block_marks(p, *bb, i as int),
                marks_in(ms@, p.n_slots()),
                forall|l: SpanList| #[trigger] spans.list(l) == sp1.list(l) + block_lines(p, *bb, i as int, l),
            decreases bb.statements@.len() - i,
        {
            let ghost before = ms@;
            let ghost spb = *spans;
            p.statement(&bb.statements[i], &mut ms, spans);
            proof {
                lemma_marks_in_concat(before, p.statement_marks(bb.statements@[i as int]), p.n_slots());
                assert(ms@ =~= start + block_marks(p, *bb, i + 1));
                assert forall|l: SpanList| #[trigger] spans.list(l) == sp1.list(l) + block_lines(p, *bb, i + 1, l) by {
                    assert(spans.list(l) == spb.list(l) + p.statement_lines(bb.statements@[i as int], l));
                    assert(spans.list(l) =~= sp1.list(l) + block_lines(p, *bb, i + 1, l));
                }
            }
            i = i + 1;
        }
        proof {
            assert forall|l: SpanList| #[trigger] spans.list(l) == sp0.list(l) + statement_lines_upto(p, bbs, b + 1, l) by {
                assert(spans.list(l) == sp1.list(l) + block_lines(p, *bb, bb.statements@.len() as int, l));
                assert(spans.list(l) =~= sp0.list(l) + statement_lines_upto(p, bbs, b + 1, l));
            }
        }
        b = b + 1;
    }
    let ghost mid = ms@;
    let ghost sp2 = *spans;
    let mut b: usize = 0;
    while b < body.basic_blocks.len()
        invariant
            p.inv(),
            bbs == body.basic_blocks@,
            forall|b: int| 0 <= b < bbs.len() ==> p.terminator_ok(#[trigger] bbs[b].terminator),
            b <= bbs.len(),
            ms@ == mid + terminator_marks_upto(p, bbs, b as int),
            marks_in(ms@, p.n_slots()),
            forall|l: SpanList| #[trigger] spans.list(l) == sp2.list(l) + terminator_lines_upto(p, bbs, b as int, l),
        decreases bbs.len() - b,
    {
        let ghost before = ms@;
        let ghost spb = *spans;
        p.terminator(&body.basic_blocks[b].terminator, &mut ms, spans);
        proof {
            lemma_marks_in_concat(before, p.terminator_marks(bbs[b as int].terminator), p.n_slots());
            assert(ms@ =~= mid + terminator_marks_upto(p, bbs, b + 1));
            assert forall|l: SpanList| #[trigger] spans.list(l) == sp2.list(l) + terminator_lines_upto(p, bbs, b + 1, l) by {
                assert(spans.list(l) == spb.list(l) + p.terminator_lines(bbs[b as int].terminator, l));
                assert(spans.list(l) =~= sp2.list(l) + terminator_lines_upto(p, bbs, b + 1, l));
            }
        }
        b = b + 1;
    }
    proof {
        assert forall|l: SpanList| #[trigger] spans.list(l) == sp0.list(l) + policy_lines(p, bbs, l) by {
            assert(spans.list(l) =~= sp0.list(l) + policy_lines(p, bbs, l));
        }
    }
    ms
}

} // verus!

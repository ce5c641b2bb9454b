//! Broken bit patterns: a value converted into a domain that not every bit
//! pattern belongs to (a boolean, a character, text, an enum), unless an
//! earlier harmless conversion already produced it.

use vstd::prelude::*;
use crate::analysis::{Comparison, ValueChecker, value_status};
use crate::graph::reaches;
use crate::ir::{
    Body, Bypass, CastKind, Operand, Rvalue, Statement, StatementKind, TerminatorKind, Unsafety, operand_slot,
    statement_in, statement_tys_in, statements_upto, terminator_in,
};
use crate::policy::{SpanList, Spans};
use crate::taint::{BehaviorFlag, Mark, TaintAnalyzer, marks_in, marks_result, mark_slot, run_marks};
use crate::ty::{TyKind, TypeEnv, contains_str, has_substring, pointee};

verus! {

/// A pointer cast into a narrow domain.
pub const CAST: u16 = 1;

/// A transmute, or an unchecked text conversion, into a narrow domain.
pub const TRANSMUTE: u16 = 2;

pub open spec fn is_ptr(k: TyKind) -> bool {
    k is RawPtr || k is Ref
}

/// Both sides are raw pointers or references.
pub fn is_ptr_ty(env: &TypeEnv, from: usize, to: usize) -> (r: bool)
    requires
        from < env.n_tys(),
        to < env.n_tys(),
    ensures
        r == (is_ptr(env.kind(from)) && is_ptr(env.kind(to))),
{
    let f = match &env.tys[from].kind {
        TyKind::RawPtr(_) => true,
        TyKind::Ref(_) => true,
        _ => false,
    };
    let t = match &env.tys[to].kind {
        TyKind::RawPtr(_) => true,
        TyKind::Ref(_) => true,
        _ => false,
    };
    f && t
}

/// The slots of earlier harmless conversions, the steps taken, and the
/// lines of the flagged conversions.
pub type BitState = (Seq<usize>, Seq<Mark>, Seq<usize>);

/// Some earlier harmless conversion flows into `u`.
pub open spec fn converted_before(body: &Body, convs: Seq<usize>, u: usize) -> bool {
    exists|j: int| 0 <= j < convs.len() && #[trigger] reaches(body.place_neighbor_list@, convs[j], u)
}

pub open spec fn convert_step(
    env: &TypeEnv,
    body: &Body,
    st: BitState,
    op: Operand,
    to: usize,
    bits: u16,
    line: usize,
) -> BitState {
    let (convs, ms, lines) = st;
    match op {
        Operand::Constant(_) => st,
        _ => {
            let u = operand_slot(op)->Some_0;
            let from = crate::ir::operand_ty(op);
            if value_status(env, pointee(env, from), pointee(env, to)) == Comparison::Less {
                if converted_before(body, convs, u) {
                    st
                } else {
                    (convs, ms.push(Mark::AtOnce(u, BehaviorFlag { bits })), lines.push(line))
                }
            } else {
                (convs.push(u), ms, lines)
            }
        },
    }
}

pub open spec fn statement_step(env: &TypeEnv, body: &Body, st: BitState, s: Statement) -> BitState {
    match s.kind {
        StatementKind::Assign(_, Rvalue::Cast(CastKind::PtrToPtr, op, to)) => convert_step(env, body, st, op, to, CAST, s.line),
        StatementKind::Assign(_, Rvalue::Cast(CastKind::Transmute, op, to)) => if is_ptr(
            env.kind(crate::ir::operand_ty(op)),
        ) && is_ptr(env.kind(to)) {
            convert_step(env, body, st, op, to, TRANSMUTE, s.line)
        } else {
            st
        },
        _ => st,
    }
}

pub open spec fn statement_fold(env: &TypeEnv, body: &Body, ss: Seq<Statement>) -> BitState
    decreases ss.len(),
{
    if ss.len() == 0 {
        (Seq::empty(), Seq::empty(), Seq::empty())
    } else {
        statement_step(env, body, statement_fold(env, body, ss.drop_last()), ss.last())
    }
}

/// Whether an unchecked text conversion ended the walk over the
/// terminators of the first `b` blocks, the steps taken there, and the lines
/// of those conversions.
pub open spec fn terminator_fold(body: &Body, b: int) -> (bool, Seq<Mark>, Seq<usize>)
    decreases b,
{
    if b <= 0 {
        (false, Seq::empty(), Seq::empty())
    } else {
        let (stopped, ms, lines) = terminator_fold(body, b - 1);
        if stopped {
            (stopped, ms, lines)
        } else {
            let t = body.basic_blocks@[b - 1].terminator;
            match t.kind {
                TerminatorKind::StaticCall { callee, dest, .. } => if has_substring(callee.name@, "alloc"@) {
                    (false, ms.push(Mark::Clear(dest.local)), lines)
                } else if callee.bypass == Bypass::StrUnchecked {
                    (true, ms.push(Mark::AtOnce(dest.local, BehaviorFlag { bits: TRANSMUTE })), lines.push(t.line))
                } else {
                    (false, ms, lines)
                },
                _ => (false, ms, lines),
            }
        }
    }
}

/// The lines of the flagged conversions: the statements in block order, then
/// the terminators.
pub open spec fn bitpattern_lines(env: &TypeEnv, body: &Body) -> Seq<usize> {
    statement_fold(env, body, statements_upto(body.basic_blocks@, body.n_blocks() as int)).2 + terminator_fold(
        body,
        body.n_blocks() as int,
    ).2
}

/// The steps of the checker: the statements in block order, then the
/// terminators.
pub open spec fn bitpattern_marks(env: &TypeEnv, body: &Body) -> Seq<Mark> {
    statement_fold(env, body, statements_upto(body.basic_blocks@, body.n_blocks() as int)).1 + terminator_fold(
        body,
        body.n_blocks() as int,
    ).1
}

/// What the checker found in one routine.
#[derive(Debug)]
pub struct BrokenBitPatternsStatus {
    pub behavior_flag: BehaviorFlag,
    pub spans: Spans,
}

impl BrokenBitPatternsStatus {
    pub fn behavior_flag(&self) -> (r: BehaviorFlag)
        ensures
            r == self.behavior_flag,
    {
        self.behavior_flag
    }

    pub fn strong_bypass_spans(&self) -> (r: &Vec<usize>)
        ensures
            r == &self.spans.strong_bypasses,
    {
        &self.spans.strong_bypasses
    }

    pub fn weak_bypass_spans(&self) -> (r: &Vec<usize>)
        ensures
            r == &self.spans.weak_bypasses,
    {
        &self.spans.weak_bypasses
    }

    pub fn plain_deref_spans(&self) -> (r: &Vec<usize>)
        ensures
            r == &self.spans.plain_deref,
    {
        &self.spans.plain_deref
    }

    pub fn unresolvable_generic_function_spans(&self) -> (r: &Vec<usize>)
        ensures
            r == &self.spans.unresolvable_generic_functions,
    {
        &self.spans.unresolvable_generic_functions
    }

    pub fn ty_conv_spans(&self) -> (r: &Vec<usize>)
        ensures
            r == &self.spans.ty_convs,
    {
        &self.spans.ty_convs
    }
}

/// Whether some listed slot flows into `u`.
fn is_converted_before(ta: &TaintAnalyzer, body: &Body, convs: &Vec<usize>, u: usize) -> (r: bool)
    requires
        body.wf(),
        ta.wf(),
        ta.graph() == body.place_neighbor_list@,
        u < body.n_slots(),
        forall|j: int| 0 <= j < convs@.len() ==> #[trigger] convs@[j] < body.n_slots(),
    ensures
        r == converted_before(body, convs@, u),
{
    let mut j: usize = 0;
    while j < convs.len()
        invariant
            body.wf(),
            ta.wf(),
            ta.graph() == body.place_neighbor_list@,
            u < body.n_slots(),
            forall|j: int| 0 <= j < convs@.len() ==> #[trigger] convs@[j] < body.n_slots(),
            j <= convs@.len(),
            forall|k: int| 0 <= k < j ==> !#[trigger] reaches(body.place_neighbor_list@, convs@[k], u),
        decreases convs@.len() - j,
    {
        if ta.is_reachable(convs[j], u) {
            return true;
        }
        j = j + 1;
    }
    false
}

fn convert(
    env: &TypeEnv,
    body: &Body,
    ta: &TaintAnalyzer,
    convs: &mut Vec<usize>,
    ms: &mut Vec<Mark>,
    op: &Operand,
    to: usize,
    bits: u16,
    lines: &mut Vec<usize>,
    line: usize,
)
    requires
        env.wf(),
        body.wf(),
        ta.wf(),
        ta.graph() == body.place_neighbor_list@,
        crate::ir::operand_ty(*op) < env.n_tys(),
        to < env.n_tys(),
        crate::ir::operand_in(*op, body.n_slots()),
        forall|j: int| 0 <= j < old(convs)@.len() ==> #[trigger] old(convs)@[j] < body.n_slots(),
        marks_in(old(ms)@, body.n_slots()),
    ensures
        (final(convs)@, final(ms)@, final(lines)@) == convert_step(
            env,
            body,
            (old(convs)@, old(ms)@, old(lines)@),
            *op,
            to,
            bits,
            line,
        ),
        forall|j: int| 0 <= j < final(convs)@.len() ==> #[trigger] final(convs)@[j] < body.n_slots(),
        marks_in(final(ms)@, body.n_slots()),
{
    let (u, from) = match op {
        Operand::Copy(p) => (p.local, p.ty),
        Operand::Move(p) => (p.local, p.ty),
        Operand::Constant(_) => {
            return;
        },
    };
    let vc = ValueChecker::new(env, from, to);
    let ghost before = ms@;
    if vc.get_val_status() == Comparison::Less {
        if !is_converted_before(ta, body, convs, u) {
            ms.push(Mark::AtOnce(u, BehaviorFlag::from_bits(bits)));
            lines.push(line);
        }
    } else {
        convs.push(u);
    }
    proof {
        assert forall|i: int| 0 <= i < ms@.len() implies #[trigger] mark_slot(ms@[i]) < body.n_slots() by {
            if i < before.len() {
                assert(ms@[i] == before[i]);
            }
        }
    }
}

/// Flags conversions into a narrow domain that no earlier harmless
/// conversion explains, and unchecked text conversions; allocations clear
/// their result. Then propagates.
pub fn analyze(env: &TypeEnv, body: &Body) -> (r: BrokenBitPatternsStatus)
    requires
        env.wf(),
        body.wf(),
        body.tys_in(env.n_tys()),
    ensures
        r.behavior_flag.bits == marks_result(body, bitpattern_marks(env, body)),
        r.spans.ty_convs@ == bitpattern_lines(env, body),
        forall|l: SpanList| l != SpanList::TyConvs ==> (#[trigger] r.spans.list(l)).len() == 0,
{
    let nb = body.basic_blocks.len();
    let ghost bbs = body.basic_blocks@;
    let ta = TaintAnalyzer::new(body);
    let mut lines: Vec<usize> = Vec::new();
    let mut convs: Vec<usize> = Vec::new();
    let mut ms: Vec<Mark> = Vec::new();
    let mut b: usize = 0;
    while b < nb
        invariant
            env.wf(),
            body.wf(),
            body.tys_in(env.n_tys()),
            ta.wf(),
            ta.graph() == body.place_neighbor_list@,
            bbs == body.basic_blocks@,
            nb == bbs.len(),
            b <= nb,
            (convs@, ms@, lines@) == statement_fold(env, body, statements_upto(bbs, b as int)),
            forall|j: int| 0 <= j < convs@.len() ==> #[trigger] convs@[j] < body.n_slots(),
            marks_in(ms@, body.n_slots()),
        decreases nb - b,
    {
        let ss = &body.basic_blocks[b].statements;
        let ghost pre = statements_upto(bbs, b as int);
        let mut i: usize = 0;
        while i < ss.len()
            invariant
                env.wf(),
                body.wf(),
                body.tys_in(env.n_tys()),
                ta.wf(),
                ta.graph() == body.place_neighbor_list@,
                bbs == body.basic_blocks@,
                b < nb,
                nb == bbs.len(),
                *ss == bbs[b as int].statements,
                pre == statements_upto(bbs, b as int),
                i <= ss@.len(),
                (convs@, ms@, lines@) == statement_fold(env, body, pre + ss@.subrange(0, i as int)),
                forall|j: int| 0 <= j < convs@.len() ==> #[trigger] convs@[j] < body.n_slots(),
                marks_in(ms@, body.n_slots()),
            decreases ss@.len() - i,
        {
            let s = &ss[i];
            proof {
                assert((pre + ss@.subrange(0, i + 1)).drop_last() =~= pre + ss@.subrange(0, i as int));
                assert((pre + ss@.subrange(0, i + 1)).last() == ss@[i as int]);
                assert(statement_in(bbs[b as int].statements@[i as int], body.n_slots()));
                assert(statement_tys_in(bbs[b as int].statements@[i as int], env.n_tys()));
            }
            match &s.kind {
                StatementKind::Assign(_, Rvalue::Cast(CastKind::PtrToPtr, op, to)) => {
                    convert(env, body, &ta, &mut convs, &mut ms, op, *to, CAST, &mut lines, s.line);
                },
                StatementKind::Assign(_, Rvalue::Cast(CastKind::Transmute, op, to)) => {
                    let from = match op {
                        Operand::Copy(p) => p.ty,
                        Operand::Move(p) => p.ty,
                        Operand::Constant(c) => c.ty,
                    };
                    if is_ptr_ty(env, from, *to) {
                        convert(env, body, &ta, &mut convs, &mut ms, op, *to, TRANSMUTE, &mut lines, s.line);
                    }
                },
                _ => {},
            }
            i = i + 1;
        }
        proof {
            assert(ss@.subrange(0, i as int) =~= ss@);
            assert(statements_upto(bbs, b + 1) == pre + bbs[b as int].statements@);
        }
        b = b + 1;
    }
    let ghost stmt_marks = ms@;
    let ghost stmt_lines = lines@;
    let mut b: usize = 0;
    let mut stopped = false;
    while b < nb && !stopped
        invariant
            body.wf(),
            nb == body.n_blocks(),
            b <= nb,
            (stopped, ms@) == (terminator_fold(body, b as int).0, stmt_marks + terminator_fold(body, b as int).1),
            lines@ == stmt_lines + terminator_fold(body, b as int).2,
            marks_in(ms@, body.n_slots()),
        decreases nb - b,
    {
        let t = &body.basic_blocks[b].terminator;
        proof {
            assert(terminator_in(body.basic_blocks@[b as int].terminator, body.n_slots(), body.n_blocks()));
        }
        let ghost before = ms@;
        match &t.kind {
            TerminatorKind::StaticCall { callee, dest, .. } => {
                if contains_str(callee.name.as_str(), "alloc") {
                    ms.push(Mark::Clear(dest.local));
                } else if callee.bypass == Bypass::StrUnchecked {
                    ms.push(Mark::AtOnce(dest.local, BehaviorFlag::from_bits(TRANSMUTE)));
                    lines.push(t.line);
                    stopped = true;
                }
            },
            _ => {},
        }
        proof {
            assert(ms@ =~= stmt_marks + terminator_fold(body, b + 1).1);
            assert(lines@ =~= stmt_lines + terminator_fold(body, b + 1).2);
            assert forall|i: int| 0 <= i < ms@.len() implies #[trigger] mark_slot(ms@[i]) < body.n_slots() by {
                if i < before.len() {
                    assert(ms@[i] == before[i]);
                }
            }
        }
        b = b + 1;
    }
    proof {
        if b < nb {
            assert forall|k: int| b <= k <= nb implies terminator_fold(body, k) == terminator_fold(body, b as int) by {
                lemma_stopped_stays(body, b as int, k);
            }
        }
    }
    let behavior_flag = run_marks(body, &ms);
    let mut spans = Spans::new();
    let ghost sp0 = spans;
    spans.ty_convs = lines;
    proof {
        assert forall|l: SpanList| l != SpanList::TyConvs implies (#[trigger] spans.list(l)).len() == 0 by {
            assert(spans.list(l) == sp0.list(l));
            assert(sp0.list(l).len() == 0);
        }
    }
    BrokenBitPatternsStatus { behavior_flag, spans }
}

proof fn lemma_stopped_stays(body: &Body, b: int, k: int)
    requires
        0 <= b <= k,
        terminator_fold(body, b).0,
    ensures
        terminator_fold(body, k) == terminator_fold(body, b),
    decreases k - b,
{
    if k > b {
        lemma_stopped_stays(body, b, k - 1);
    }
}

/// Analyses a routine that contains unsafe code; a safe routine has no
/// finding, and an unsafe one is left to its callers.
pub fn analyze_body(env: &TypeEnv, body: &Body, unsafety: Unsafety) -> (r: Option<BrokenBitPatternsStatus>)
    requires
        env.wf(),
        body.wf(),
        body.tys_in(env.n_tys()),
    ensures
        unsafety == Unsafety::UnsafeFn ==> r is None,
        unsafety == Unsafety::Safe ==> (r matches Some(st) && st.behavior_flag.bits == 0 && st.spans.all_empty()),
        unsafety == Unsafety::ContainsUnsafe ==> (r matches Some(st) && st.behavior_flag.bits == marks_result(body, bitpattern_marks(env, body))
            && st.spans.ty_convs@ == bitpattern_lines(env, body)),
{
    match unsafety {
        Unsafety::UnsafeFn => None,
        Unsafety::ContainsUnsafe => Some(analyze(env, body)),
        Unsafety::Safe => Some(BrokenBitPatternsStatus { behavior_flag: BehaviorFlag::empty(), spans: Spans::new() }),
    }
}

/// What can go wrong while the checker reports.
#[derive(Clone, Copy, Debug, PartialEq, Eq, Structural)]
pub enum BrokenBitPatternsError {
    PushPopBlock,
    ResolveError,
    InvalidSpan,
}

impl BrokenBitPatternsError {
    pub fn kind(&self) -> (r: crate::analysis::AnalysisErrorKind)
        ensures
            r == (match self {
                BrokenBitPatternsError::ResolveError => crate::analysis::AnalysisErrorKind::OutOfScope,
                _ => crate::analysis::AnalysisErrorKind::Unreachable,
            }),
    {
        match self {
            BrokenBitPatternsError::PushPopBlock => crate::analysis::AnalysisErrorKind::Unreachable,
            BrokenBitPatternsError::ResolveError => crate::analysis::AnalysisErrorKind::OutOfScope,
            BrokenBitPatternsError::InvalidSpan => crate::analysis::AnalysisErrorKind::Unreachable,
        }
    }
}

} // verus!

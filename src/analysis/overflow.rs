//! Overflow: arithmetic on values that flow in from the routine's arguments.

use vstd::prelude::*;
use crate::ir::{BinOp, Body, Rvalue, Statement, StatementKind, Terminator, statement_in};
use crate::policy::{Policy, SpanList, Spans, collect_marks, no_lines, policy_lines, policy_marks, repeat_line};
use crate::taint::{BehaviorFlag, Mark, marks_in, marks_result, mark_slot, run_marks};

verus! {

/// A value from outside the routine.
pub const EXTERNAL: u16 = 1;

/// Addition, subtraction, multiplication, division.
pub open spec fn is_arith(op: BinOp) -> bool {
    op == BinOp::Add || op == BinOp::Sub || op == BinOp::Mul || op == BinOp::Div
}

pub open spec fn statement_marks(s: Statement) -> Seq<Mark> {
    match s.kind {
        StatementKind::Assign(lhs, Rvalue::BinaryOp(op, _, _)) => if is_arith(op) {
            seq![Mark::Sink(lhs.local)]
        } else {
            Seq::empty()
        },
        StatementKind::Assign(lhs, Rvalue::CheckedBinaryOp(op, _, _)) => if is_arith(op) {
            seq![Mark::Sink(lhs.local)]
        } else {
            Seq::empty()
        },
        _ => Seq::empty(),
    }
}

/// A source at every argument slot.
pub open spec fn arg_sources(arg_count: nat) -> Seq<Mark> {
    Seq::new(arg_count, |i: int| Mark::Source((i + 1) as usize, BehaviorFlag { bits: EXTERNAL }))
}

/// The overflow rules over one routine.
pub struct OverflowPolicy<'a> {
    pub body: &'a Body,
}

impl<'a> Policy for OverflowPolicy<'a> {
    open spec fn inv(&self) -> bool {
        self.body.wf()
    }

    open spec fn n_slots(&self) -> nat {
        self.body.n_slots()
    }

    open spec fn statement_ok(&self, s: Statement) -> bool {
        statement_in(s, self.body.n_slots())
    }

    open spec fn terminator_ok(&self, t: Terminator) -> bool {
        true
    }

    open spec fn statement_marks(&self, s: Statement) -> Seq<Mark> {
        statement_marks(s)
    }

    open spec fn terminator_marks(&self, t: Terminator) -> Seq<Mark> {
        Seq::empty()
    }

    open spec fn statement_lines(&self, s: Statement, l: SpanList) -> Seq<usize> {
        if l == SpanList::TyConvs {
            repeat_line(s.line, statement_marks(s).len())
        } else {
            no_lines()
        }
    }

    open spec fn terminator_lines(&self, t: Terminator, l: SpanList) -> Seq<usize> {
        no_lines()
    }

    fn statement(&self, s: &Statement, out: &mut Vec<Mark>, spans: &mut Spans) {
        let ghost start = out@;
        let ghost sp0 = *spans;
        match &s.kind {
            StatementKind::Assign(lhs, Rvalue::BinaryOp(op, _, _)) => {
                if *op == BinOp::Add || *op == BinOp::Sub || *op == BinOp::Mul || *op == BinOp::Div {
                    out.push(Mark::Sink(lhs.local));
                    spans.ty_convs.push(s.line);
                }
            },
            StatementKind::Assign(lhs, Rvalue::CheckedBinaryOp(op, _, _)) => {
                if *op == BinOp::Add || *op == BinOp::Sub || *op == BinOp::Mul || *op == BinOp::Div {
                    out.push(Mark::Sink(lhs.local));
                    spans.ty_convs.push(s.line);
                }
            },
            _ => {},
        }
        assert(out@ =~= start + statement_marks(*s));
        assert(statement_in(*s, self.body.n_slots()));
        assert forall|l: SpanList| #[trigger] spans.list(l) == sp0.list(l) + self.statement_lines(*s, l) by {
            assert(spans.list(l) =~= sp0.list(l) + self.statement_lines(*s, l));
        }
    }

    fn terminator(&self, t: &Terminator, out: &mut Vec<Mark>, spans: &mut Spans) {
        assert(out@ =~= old(out)@ + Seq::<Mark>::empty());
        assert forall|l: SpanList| #[trigger] spans.list(l) == old(spans).list(l) + self.terminator_lines(*t, l) by {
            assert(spans.list(l) =~= old(spans).list(l) + no_lines());
        }
    }
}

/// What the checker found in one routine.
#[derive(Debug)]
pub struct OverflowStatus {
    pub behavior_flag: BehaviorFlag,
    pub spans: Spans,
}

impl OverflowStatus {
    pub fn behavior_flag(&self) -> (r: BehaviorFlag)
        ensures
            r == self.behavior_flag,
    {
        self.behavior_flag
    }

    pub fn strong_bypass_spans(&self) -> (r: &Vec<usize>)
        ensures
            r == &self.spans.strong_bypasses,
    {
        &self.spans.strong_bypasses
    }

    pub fn weak_bypass_spans(&self) -> (r: &Vec<usize>)
        ensures
            r == &self.spans.weak_bypasses,
    {
        &self.spans.weak_bypasses
    }

    pub fn plain_deref_spans(&self) -> (r: &Vec<usize>)
        ensures
            r == &self.spans.plain_deref,
    {
        &self.spans.plain_deref
    }

    pub fn unresolvable_generic_function_spans(&self) -> (r: &Vec<usize>)
        ensures
            r == &self.spans.unresolvable_generic_functions,
    {
        &self.spans.unresolvable_generic_functions
    }

    /// The arithmetic operations.
    pub fn ty_conv_spans(&self) -> (r: &Vec<usize>)
        ensures
            r == &self.spans.ty_convs,
    {
        &self.spans.ty_convs
    }
}

/// Marks every argument as a source and the result of every arithmetic
/// operation as a sink, then propagates.
pub fn analyze(body: &Body) -> (r: OverflowStatus)
    requires
        body.wf(),
    ensures
        r.behavior_flag.bits == marks_result(
            body,
            arg_sources(body.arg_count as nat) + policy_marks(&(OverflowPolicy { body }), body.basic_blocks@),
        ),
        forall|l: SpanList| #[trigger] r.spans.list(l) == policy_lines(&(OverflowPolicy { body }), body.basic_blocks@, l),
{
    let n = body.local_decls.len();
    let mut ms: Vec<Mark> = Vec::new();
    let mut a: usize = 1;
    while a <= body.arg_count
        invariant
            body.wf(),
            n == body.n_slots(),
            1 <= a <= body.arg_count + 1,
            ms@ == arg_sources((a - 1) as nat),
            marks_in(ms@, body.n_slots()),
        decreases body.arg_count + 1 - a,
    {
        ms.push(Mark::Source(a, BehaviorFlag::from_bits(EXTERNAL)));
        proof {
            assert(ms@ =~= arg_sources(a as nat));
        }
        a = a + 1;
    }
    let policy = OverflowPolicy { body };
    let mut spans = Spans::new();
    proof {
        assert forall|b: int, i: int|
            0 <= b < body.basic_blocks@.len() && 0 <= i < body.basic_blocks@[b].statements@.len()
                implies policy.statement_ok(#[trigger] body.basic_blocks@[b].statements@[i]) by {
            assert(statement_in(body.basic_blocks@[b].statements@[i], body.n_slots()));
        }
    }
    let mut rest = collect_marks(&policy, body, &mut spans);
    proof {
        assert forall|l: SpanList| #[trigger] spans.list(l) == policy_lines(&policy, body.basic_blocks@, l) by {
            assert(spans.list(l) =~= no_lines() + policy_lines(&policy, body.basic_blocks@, l));
        }
    }
    let ghost first = ms@;
    ms.append(&mut rest);
    proof {
        assert forall|i: int| 0 <= i < ms@.len() implies #[trigger] mark_slot(ms@[i]) < body.n_slots() by {
            if i >= first.len() {
                assert(ms@[i] == policy_marks(&policy, body.basic_blocks@)[i - first.len()]);
            } else {
                assert(ms@[i] == first[i]);
            }
        }
    }
    let behavior_flag = run_marks(body, &ms);
    OverflowStatus { behavior_flag, spans }
}

/// What can go wrong while the checker reports.
#[derive(Clone, Copy, Debug, PartialEq, Eq, Structural)]
pub enum OverflowError {
    PushPopBlock,
    ResolveError,
    InvalidSpan,
}

impl OverflowError {
    pub fn kind(&self) -> (r: crate::analysis::AnalysisErrorKind)
        ensures
            r == (match self {
                OverflowError::ResolveError => crate::analysis::AnalysisErrorKind::OutOfScope,
                _ => crate::analysis::AnalysisErrorKind::Unreachable,
            }),
    {
        match self {
            OverflowError::PushPopBlock => crate::analysis::AnalysisErrorKind::Unreachable,
            OverflowError::ResolveError => crate::analysis::AnalysisErrorKind::OutOfScope,
            OverflowError::InvalidSpan => crate::analysis::AnalysisErrorKind::Unreachable,
        }
    }
}

} // verus!

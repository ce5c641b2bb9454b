//! Unsafe dataflow: a call that bypasses lifetimes, followed in control flow
//! by a call into generic code the routine cannot resolve, which may panic
//! while the bypassed value is in a broken state. Sources and sinks are
//! blocks, and flow is along the block-flow graph.

use vstd::prelude::*;
use crate::ir::{Body, Bypass, Operand, TerminatorKind};
use crate::policy::{SpanList, Spans, no_lines};
use crate::taint::{BehaviorFlag, Mark, graph_marks_result, marks_in, mark_slot, run_marks_on};

verus! {

/// Some argument is the constant 0: `set_len(0)` only leaks.
pub open spec fn sets_len_to_zero(args: Seq<Operand>) -> bool {
    exists|i: int|
        0 <= i < args.len() && match #[trigger] args[i] {
            Operand::Constant(c) => c.usize_value == Some(0u64),
            _ => false,
        }
}

/// The steps taken at the terminator of block `b`.
pub open spec fn block_marks(body: &Body, b: int) -> Seq<Mark> {
    match body.basic_blocks@[b].terminator.kind {
        TerminatorKind::StaticCall { callee, args, .. } => {
            let flag = BehaviorFlag { bits: callee.bypass_flag };
            if callee.bypass == Bypass::Strong {
                if callee.on_copy || (callee.is_vec_set_len && sets_len_to_zero(args@)) {
                    Seq::empty()
                } else {
                    seq![Mark::Source(b as usize, flag)]
                }
            } else if callee.bypass == Bypass::Weak {
                if callee.on_copy {
                    Seq::empty()
                } else {
                    seq![Mark::Source(b as usize, flag)]
                }
            } else if callee.bypass == Bypass::GenericFn || !callee.resolved {
                seq![Mark::Sink(b as usize)]
            } else {
                Seq::empty()
            }
        },
        _ => Seq::empty(),
    }
}

/// The lines recorded in list `l` at the terminator of block `b`: a bypass
/// under its strength, an unresolved call under the unresolvable calls.
pub open spec fn block_lines(body: &Body, b: int, l: SpanList) -> Seq<usize> {
    let line = body.basic_blocks@[b].terminator.line;
    match body.basic_blocks@[b].terminator.kind {
        TerminatorKind::StaticCall { callee, args, .. } => if callee.bypass == Bypass::Strong {
            if callee.on_copy || (callee.is_vec_set_len && sets_len_to_zero(args@)) || l != SpanList::StrongBypasses {
                no_lines()
            } else {
                seq![line]
            }
        } else if callee.bypass == Bypass::Weak {
            if callee.on_copy || l != SpanList::WeakBypasses {
                no_lines()
            } else {
                seq![line]
            }
        } else if (callee.bypass == Bypass::GenericFn || !callee.resolved) && l
            == SpanList::UnresolvableGenericFunctions {
            seq![line]
        } else {
            no_lines()
        },
        _ => no_lines(),
    }
}

/// The lines of list `l` recorded at the first `b` blocks.
pub open spec fn lines_upto(body: &Body, b: int, l: SpanList) -> Seq<usize>
    decreases b,
{
    if b <= 0 {
        Seq::empty()
    } else {
        lines_upto(body, b - 1, l) + block_lines(body, b - 1, l)
    }
}

/// The steps of the first `b` blocks.
pub open spec fn marks_upto(body: &Body, b: int) -> Seq<Mark>
    decreases b,
{
    if b <= 0 {
        Seq::empty()
    } else {
        marks_upto(body, b - 1) + block_marks(body, b - 1)
    }
}

/// What the checker found in one routine.
#[derive(Debug)]
pub struct UnsafeDataflowStatus {
    pub behavior_flag: BehaviorFlag,
    pub spans: Spans,
}

impl UnsafeDataflowStatus {
    pub fn behavior_flag(&self) -> (r: BehaviorFlag)
        ensures
            r == self.behavior_flag,
    {
        self.behavior_flag
    }

    pub fn strong_bypass_spans(&self) -> (r: &Vec<usize>)
        ensures
            r == &self.spans.strong_bypasses,
    {
        &self.spans.strong_bypasses
    }

    pub fn weak_bypass_spans(&self) -> (r: &Vec<usize>)
        ensures
            r == &self.spans.weak_bypasses,
    {
        &self.spans.weak_bypasses
    }

    pub fn unresolvable_generic_function_spans(&self) -> (r: &Vec<usize>)
        ensures
            r == &self.spans.unresolvable_generic_functions,
    {
        &self.spans.unresolvable_generic_functions
    }
}

/// Whether some argument is the constant 0.
pub fn vec_set_len_to_0(args: &Vec<Operand>) -> (r: bool)
    ensures
        r == sets_len_to_zero(args@),
{
    let mut i: usize = 0;
    while i < args.len()
        invariant
            i <= args@.len(),
            forall|k: int|
                0 <= k < i ==> !match #[trigger] args@[k] {
                    Operand::Constant(c) => c.usize_value == Some(0u64),
                    _ => false,
                },
        decreases args@.len() - i,
    {
        match &args[i] {
            Operand::Constant(c) => {
                if c.usize_value == Some(0u64) {
                    return true;
                }
            },
            _ => {},
        }
        i = i + 1;
    }
    false
}

/// Marks blocks that bypass lifetimes as sources and blocks that call
/// unresolvable generic code as sinks, then propagates along control flow.
pub fn analyze(body: &Body) -> (r: UnsafeDataflowStatus)
    requires
        body.wf(),
    ensures
        r.behavior_flag.bits == graph_marks_result(body.bb_neighbor_list@, marks_upto(body, body.n_blocks() as int)),
        forall|l: SpanList| #[trigger] r.spans.list(l) == lines_upto(body, body.n_blocks() as int, l),
{
    let nb = body.basic_blocks.len();
    let mut spans = Spans::new();
    let mut ms: Vec<Mark> = Vec::new();
    let mut b: usize = 0;
    proof {
        assert forall|l: SpanList| #[trigger] spans.list(l) == lines_upto(body, 0, l) by {
            assert(spans.list(l) =~= no_lines());
        }
    }
    while b < nb
        invariant
            body.wf(),
            nb == body.n_blocks(),
            b <= nb,
            ms@ == marks_upto(body, b as int),
            marks_in(ms@, nb as nat),
            forall|l: SpanList| #[trigger] spans.list(l) == lines_upto(body, b as int, l),
        decreases nb - b,
    {
        let t = &body.basic_blocks[b].terminator;
        let ghost sp = spans;
        let ghost before = ms@;
        match &t.kind {
            TerminatorKind::StaticCall { callee, args, .. } => {
                let flag = BehaviorFlag::from_bits(callee.bypass_flag);
                if callee.bypass == Bypass::Strong {
                    if !(callee.on_copy || (callee.is_vec_set_len && vec_set_len_to_0(args))) {
                        ms.push(Mark::Source(b, flag));
                        spans.strong_bypasses.push(t.line);
                    }
                } else if callee.bypass == Bypass::Weak {
                    if !callee.on_copy {
                        ms.push(Mark::Source(b, flag));
                        spans.weak_bypasses.push(t.line);
                    }
                } else if callee.bypass == Bypass::GenericFn || !callee.resolved {
                    ms.push(Mark::Sink(b));
                    spans.unresolvable_generic_functions.push(t.line);
                }
            },
            _ => {},
        }
        proof {
            assert(ms@ =~= marks_upto(body, b + 1));
            assert forall|l: SpanList| #[trigger] spans.list(l) == lines_upto(body, b + 1, l) by {
                assert(spans.list(l) =~= sp.list(l) + block_lines(body, b as int, l));
            }
            assert forall|i: int| 0 <= i < ms@.len() implies #[trigger] mark_slot(ms@[i]) < nb as nat by {
                if i < before.len() {
                    assert(ms@[i] == before[i]);
                }
            }
        }
        b = b + 1;
    }
    let behavior_flag = run_marks_on(&body.bb_neighbor_list, &ms);
    UnsafeDataflowStatus { behavior_flag, spans }
}

/// What can go wrong while the checker reports.
#[derive(Clone, Copy, Debug, PartialEq, Eq, Structural)]
pub enum UnsafeDataflowError {
    PushPopBlock,
    ResolveError,
    InvalidSpan,
}

impl UnsafeDataflowError {
    pub fn kind(&self) -> (r: crate::analysis::AnalysisErrorKind)
        ensures
            r == (match self {
                UnsafeDataflowError::ResolveError => crate::analysis::AnalysisErrorKind::OutOfScope,
                _ => crate::analysis::AnalysisErrorKind::Unreachable,
            }),
    {
        match self {
            UnsafeDataflowError::PushPopBlock => crate::analysis::AnalysisErrorKind::Unreachable,
            UnsafeDataflowError::ResolveError => crate::analysis::AnalysisErrorKind::OutOfScope,
            UnsafeDataflowError::InvalidSpan => crate::analysis::AnalysisErrorKind::Unreachable,
        }
    }
}

} // verus!

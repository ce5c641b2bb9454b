//! Error handling: the result of a `checked_*` call that is dropped, either
//! by branching on it without returning nearby, or by panicking on it.

use vstd::prelude::*;
use crate::graph::reaches_within;
use crate::ir::{Body, Operand, TerminatorKind, operand_slot, successors, terminator_in};
use crate::taint::{
    BehaviorFlag, Mark, record_lines, last_reached_sink, marks_in, marks_result, mark_slot, no_sink_reached, recorded, report_finding,
    run_marks,
};
use crate::ty::{contains_str, has_substring};
use crate::policy::{SpanList, Spans, no_lines};

verus! {

/// The result of a checked call that is not handled.
pub const CHECKEDCALL: u16 = 1;

/// How many jumps an arm may take to reach a return and count as handling
/// the error.
pub const RETURN_DEPTH: usize = 2;

pub open spec fn is_checked_call(name: Seq<char>) -> bool {
    has_substring(name, "checked_"@)
}

pub open spec fn is_handler_call(name: Seq<char>) -> bool {
    has_substring(name, "map"@) || has_substring(name, "unwrap_or"@) || has_substring(name, "ok_or"@)
}

pub open spec fn is_abort_call(name: Seq<char>) -> bool {
    has_substring(name, "panic"@) || has_substring(name, "expect"@)
}

/// Block `t` reaches a returning block within the depth bound.
pub open spec fn returns_nearby(body: &Body, t: usize) -> bool {
    exists|r: usize|
        r < body.n_blocks() && body.basic_blocks@[r as int].terminator.kind is Return && #[trigger] reaches_within(
            body.bb_neighbor_list@,
            t,
            r,
            RETURN_DEPTH as nat,
        )
}

/// Some arm of a branch does not return nearby.
pub open spec fn branch_flagged(body: &Body, targets: Seq<usize>) -> bool {
    exists|i: int| 0 <= i < targets.len() && !returns_nearby(body, #[trigger] targets[i])
}

/// The state after the terminators of some blocks: the last block holding a
/// checked call, whether one was met, the results of handler calls met since
/// the last abort, the steps taken, and for each sink its slot, its kind (3
/// for a panic, 1 for an ignoring branch) and its line.
pub type ErrState = (Option<usize>, bool, Seq<usize>, Seq<Mark>, Seq<(usize, usize, usize)>);

pub open spec fn step(body: &Body, st: ErrState, b: int) -> ErrState {
    let (checked, seen, handled, ms, recs) = st;
    let flag = BehaviorFlag { bits: CHECKEDCALL };
    let line = body.basic_blocks@[b].terminator.line;
    match body.basic_blocks@[b].terminator.kind {
        TerminatorKind::StaticCall { callee, dest, .. } => {
            let name = callee.name@;
            let (checked1, seen1, ms1) = if is_checked_call(name) {
                (Some(b as usize), true, ms.push(Mark::Source(dest.local, flag)))
            } else {
                (checked, seen, ms)
            };
            let handled1 = if is_handler_call(name) {
                handled.push(dest.local)
            } else {
                handled
            };
            if seen1 && is_abort_call(name) {
                (checked1, seen1, Seq::empty(), ms1.push(Mark::AtOnce(dest.local, flag)), recs.push((dest.local, 3usize, line)))
            } else {
                (checked1, seen1, handled1, ms1, recs)
            }
        },
        TerminatorKind::SwitchInt { discr, targets } => match (checked, operand_slot(discr)) {
            (Some(c), Some(u)) => if successors(body.basic_blocks@[c as int].terminator.kind).contains(b as usize)
                && branch_flagged(body, targets@) {
                (checked, seen, handled, ms.push(Mark::Sink(u)), recs.push((u, 1usize, line)))
            } else {
                st
            },
            _ => st,
        },
        _ => st,
    }
}

pub open spec fn fold(body: &Body, b: int) -> ErrState
    decreases b,
{
    if b <= 0 {
        (None, false, Seq::empty(), Seq::empty(), Seq::empty())
    } else {
        step(body, fold(body, b - 1), b - 1)
    }
}

/// Clears the source mark of each slot.
pub open spec fn clears(ids: Seq<usize>) -> Seq<Mark> {
    Seq::new(ids.len(), |i: int| Mark::Clear(ids[i]))
}

/// The steps of the checker: those of the terminators in block order, then
/// the clearing of the results that a handler call took care of.
pub open spec fn err_marks(body: &Body) -> Seq<Mark> {
    let st = fold(body, body.n_blocks() as int);
    st.3 + clears(st.2)
}

/// The sinks recorded with their kind and line.
pub open spec fn err_records(body: &Body) -> Seq<(usize, usize, usize)> {
    fold(body, body.n_blocks() as int).4
}

/// What the checker found in one routine.
#[derive(Debug)]
pub struct ErrHandleStatus {
    pub behavior_flag: BehaviorFlag,
    pub spans: Spans,
    /// For the greatest reached sink: 3 for a panic on the result, 1 for a
    /// branch that ignores it; 0 when nothing was found.
    pub error: usize,
    /// The source line of the finding, 0 where unknown.
    pub loc: usize,
}

impl ErrHandleStatus {
    pub fn behavior_flag(&self) -> (r: BehaviorFlag)
        ensures
            r == self.behavior_flag,
    {
        self.behavior_flag
    }

    pub fn strong_bypass_spans(&self) -> (r: &Vec<usize>)
        ensures
            r == &self.spans.strong_bypasses,
    {
        &self.spans.strong_bypasses
    }

    pub fn weak_bypass_spans(&self) -> (r: &Vec<usize>)
        ensures
            r == &self.spans.weak_bypasses,
    {
        &self.spans.weak_bypasses
    }

    pub fn plain_deref_spans(&self) -> (r: &Vec<usize>)
        ensures
            r == &self.spans.plain_deref,
    {
        &self.spans.plain_deref
    }

    pub fn unresolvable_generic_function_spans(&self) -> (r: &Vec<usize>)
        ensures
            r == &self.spans.unresolvable_generic_functions,
    {
        &self.spans.unresolvable_generic_functions
    }

    pub fn ty_conv_spans(&self) -> (r: &Vec<usize>)
        ensures
            r == &self.spans.ty_convs,
    {
        &self.spans.ty_convs
    }

    pub fn branch_handle_spans(&self) -> (r: &Vec<usize>)
        ensures
            r == &self.spans.branch_handles,
    {
        &self.spans.branch_handles
    }

    pub fn error_kind(&self) -> (r: usize)
        ensures
            r == self.error,
    {
        self.error
    }

    pub fn get_error_loc(&self) -> (r: usize)
        ensures
            r == self.loc,
    {
        self.loc
    }
}

/// Whether block `t` reaches a returning block within the depth bound.
fn arm_returns_nearby(body: &Body, t: usize) -> (r: bool)
    requires
        body.wf(),
        t < body.n_blocks(),
    ensures
        r == returns_nearby(body, t),
{
    let nb = body.basic_blocks.len();
    let mut r: usize = 0;
    while r < nb
        invariant
            body.wf(),
            nb == body.n_blocks(),
            t < nb,
            r <= nb,
            forall|k: usize| k < r ==> !(body.basic_blocks@[k as int].terminator.kind is Return
                && #[trigger] reaches_within(body.bb_neighbor_list@, t, k, RETURN_DEPTH as nat)),
        decreases nb - r,
    {
        let is_return = match &body.basic_blocks[r].terminator.kind {
            TerminatorKind::Return => true,
            _ => false,
        };
        if is_return && body.is_return_reachable(t, r, RETURN_DEPTH) {
            return true;
        }
        r = r + 1;
    }
    false
}

/// Whether some arm does not return nearby.
fn is_branch_flagged(body: &Body, targets: &Vec<usize>) -> (r: bool)
    requires
        body.wf(),
        forall|i: int| 0 <= i < targets@.len() ==> #[trigger] targets@[i] < body.n_blocks(),
    ensures
        r == branch_flagged(body, targets@),
{
    let mut i: usize = 0;
    while i < targets.len()
        invariant
            body.wf(),
            forall|i: int| 0 <= i < targets@.len() ==> #[trigger] targets@[i] < body.n_blocks(),
            i <= targets@.len(),
            forall|k: int| 0 <= k < i ==> returns_nearby(body, #[trigger] targets@[k]),
        decreases targets@.len() - i,
    {
        if !arm_returns_nearby(body, targets[i]) {
            return true;
        }
        i = i + 1;
    }
    false
}

/// Marks the results of checked calls as sources, and as sinks the branches
/// right after them with an arm that does not return nearby and the panics
/// that follow them; results passed on to a handler are cleared. Then
/// propagates.
pub fn analyze(body: &Body) -> (r: ErrHandleStatus)
    requires
        body.wf(),
    ensures
        r.behavior_flag.bits == marks_result(body, err_marks(body)),
        no_sink_reached(body.place_neighbor_list@, err_marks(body)) ==> r.error == 0 && r.loc == 0,
        forall|k: usize| #[trigger] last_reached_sink(body.place_neighbor_list@, err_marks(body), k)
            ==> (r.error, r.loc) == match recorded(err_records(body), k) {
            Some(x) => x,
            None => (4usize, 0usize),
        },
        r.spans.branch_handles@ == record_lines(err_records(body)),
        forall|l: SpanList| l != SpanList::BranchHandles ==> (#[trigger] r.spans.list(l)).len() == 0,
{
    let nb = body.basic_blocks.len();
    let flag = BehaviorFlag::from_bits(CHECKEDCALL);
    let mut spans = Spans::new();
    let mut checked: Option<usize> = None;
    let mut seen = false;
    let mut handled: Vec<usize> = Vec::new();
    let mut ms: Vec<Mark> = Vec::new();
    let mut sink_kinds: Vec<(usize, usize, usize)> = Vec::new();
    proof {
        assert(spans.list(SpanList::BranchHandles) == no_lines());
        assert(spans.branch_handles@ =~= record_lines(sink_kinds@));
    }
    let mut b: usize = 0;
    while b < nb
        invariant
            body.wf(),
            nb == body.n_blocks(),
            flag.bits == CHECKEDCALL,
            b <= nb,
            (checked, seen, handled@, ms@, sink_kinds@) == fold(body, b as int),
            spans.branch_handles@ == record_lines(sink_kinds@),
            forall|l: SpanList| l != SpanList::BranchHandles ==> (#[trigger] spans.list(l)).len() == 0,
            checked matches Some(c) ==> c < nb,
            marks_in(ms@, body.n_slots()),
            forall|i: int| 0 <= i < handled@.len() ==> #[trigger] handled@[i] < body.n_slots(),
        decreases nb - b,
    {
        let t = &body.basic_blocks[b].terminator;
        let ghost sp = spans;
        proof {
            assert(terminator_in(body.basic_blocks@[b as int].terminator, body.n_slots(), body.n_blocks()));
        }
        let ghost before = ms@;
        match &t.kind {
            TerminatorKind::StaticCall { callee, dest, .. } => {
                let name = callee.name.as_str();
                if contains_str(name, "checked_") {
                    ms.push(Mark::Source(dest.local, flag));
                    checked = Some(b);
                    seen = true;
                }
                if contains_str(name, "map") || contains_str(name, "unwrap_or") || contains_str(name, "ok_or") {
                    handled.push(dest.local);
                }
                if seen && (contains_str(name, "panic") || contains_str(name, "expect")) {
                    ms.push(Mark::AtOnce(dest.local, flag));
                    sink_kinds.push((dest.local, 3usize, t.line));
                    spans.branch_handles.push(t.line);
                    assert(spans.branch_handles@ =~= record_lines(sink_kinds@));
                    handled = Vec::new();
                }
            },
            TerminatorKind::SwitchInt { discr, targets } => {
                if let Some(c) = checked {
                    let slot = match discr {
                        Operand::Copy(p) => Some(p.local),
                        Operand::Move(p) => Some(p.local),
                        Operand::Constant(_) => None,
                    };
                    if let Some(u) = slot {
                        proof {
                            assert forall|i: int| 0 <= i < targets@.len() implies #[trigger] targets@[i] < body.n_blocks() by {
                                assert(successors(t.kind)[i] == targets@[i]);
                            }
                        }
                        if body.is_direct_successor(c, b) && is_branch_flagged(body, targets) {
                            ms.push(Mark::Sink(u));
                            sink_kinds.push((u, 1usize, t.line));
                            spans.branch_handles.push(t.line);
                            assert(spans.branch_handles@ =~= record_lines(sink_kinds@));
                        }
                    }
                }
            },
            _ => {},
        }
        proof {
            assert forall|i: int| 0 <= i < ms@.len() implies #[trigger] mark_slot(ms@[i]) < body.n_slots() by {
                if i < before.len() {
                    assert(ms@[i] == before[i]);
                }
            }
            assert forall|l: SpanList| l != SpanList::BranchHandles implies (#[trigger] spans.list(l)).len() == 0 by {
                assert(spans.list(l) == sp.list(l));
            }
        }
        b = b + 1;
    }
    let ghost stmarks = ms@;
    let mut i: usize = 0;
    while i < handled.len()
        invariant
            i <= handled@.len(),
            ms@ == stmarks + clears(handled@.subrange(0, i as int)),
            marks_in(ms@, body.n_slots()),
            forall|i: int| 0 <= i < handled@.len() ==> #[trigger] handled@[i] < body.n_slots(),
        decreases handled@.len() - i,
    {
        let ghost before = ms@;
        ms.push(Mark::Clear(handled[i]));
        i = i + 1;
        proof {
            assert(ms@ =~= stmarks + clears(handled@.subrange(0, i as int)));
            assert forall|k: int| 0 <= k < ms@.len() implies #[trigger] mark_slot(ms@[k]) < body.n_slots() by {
                if k < before.len() {
                    assert(ms@[k] == before[k]);
                }
            }
        }
    }
    assert(handled@.subrange(0, i as int) =~= handled@);
    let behavior_flag = run_marks(body, &ms);
    let (error, loc) = report_finding(&body.place_neighbor_list, &ms, &sink_kinds, 4);
    ErrHandleStatus { behavior_flag, spans, error, loc }
}

/// What can go wrong while the checker reports.
#[derive(Clone, Copy, Debug, PartialEq, Eq, Structural)]
pub enum ErrHandleError {
    PushPopBlock,
    ResolveError,
    InvalidSpan,
}

impl ErrHandleError {
    pub fn kind(&self) -> (r: crate::analysis::AnalysisErrorKind)
        ensures
            r == (match self {
                ErrHandleError::ResolveError => crate::analysis::AnalysisErrorKind::OutOfScope,
                _ => crate::analysis::AnalysisErrorKind::Unreachable,
            }),
    {
        match self {
            ErrHandleError::PushPopBlock => crate::analysis::AnalysisErrorKind::Unreachable,
            ErrHandleError::ResolveError => crate::analysis::AnalysisErrorKind::OutOfScope,
            ErrHandleError::InvalidSpan => crate::analysis::AnalysisErrorKind::Unreachable,
        }
    }
}

} // verus!

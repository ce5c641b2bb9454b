//! Truncation: a buffer narrowed by slicing an argument and then copied
//! from, so that the copy takes less than its source held.

use vstd::prelude::*;
use crate::graph::reaches;
use crate::ir::{Body, Operand, Rvalue, StatementKind, TerminatorKind, operand_slot, statement_in, terminator_in};
use crate::taint::{
    BehaviorFlag, Mark, record_lines, TaintAnalyzer, last_reached_sink, marks_in, marks_result, mark_slot, no_sink_reached, recorded,
    report_finding, run_marks,
};
use crate::ty::{contains_str, has_substring};
use crate::policy::{SpanList, Spans, no_lines};

verus! {

/// Data of an argument copied after narrowing.
pub const EXTERNAL: u16 = 1;

/// Slot `u` is assigned a full range `..` somewhere in the routine.
pub open spec fn range_full_slot(body: &Body, u: usize) -> bool {
    exists|b: int, i: int|
        0 <= b < body.n_blocks() && 0 <= i < body.basic_blocks@[b].statements@.len() && #[trigger] assigns_range_full(
            body.basic_blocks@[b].statements@[i].kind,
            u,
        )
}

pub open spec fn assigns_range_full(k: StatementKind, u: usize) -> bool {
    match k {
        StatementKind::Assign(lhs, Rvalue::Aggregate { range_full, .. }) => range_full && lhs.local == u,
        _ => false,
    }
}

/// The value of some argument flows into `u`.
pub open spec fn from_argument(body: &Body, u: usize) -> bool {
    exists|a: usize| 1 <= a <= body.arg_count && #[trigger] reaches(body.place_neighbor_list@, a, u)
}

/// The value of some full range flows into `u`.
pub open spec fn from_full_range(body: &Body, u: usize) -> bool {
    exists|r: usize| range_full_slot(body, r) && #[trigger] reaches(body.place_neighbor_list@, r, u)
}

/// The last buffer that indexing narrowed, the steps taken, and for each
/// truncating copy its slot, kind 1 and line.
pub type TruncState = (Option<usize>, Seq<Mark>, Seq<(usize, usize, usize)>);

pub open spec fn step(body: &Body, st: TruncState, b: int) -> TruncState {
    let (sliced, ms, recs) = st;
    let line = body.basic_blocks@[b].terminator.line;
    match body.basic_blocks@[b].terminator.kind {
        TerminatorKind::StaticCall { callee, args, .. } => if has_substring(callee.name@, "copy_"@) {
            if args@.len() == 2 {
                match (sliced, operand_slot(args@[1])) {
                    (Some(sp), Some(s)) => if reaches(body.place_neighbor_list@, sp, s) {
                        (sliced, ms.push(Mark::AtOnce(s, BehaviorFlag { bits: EXTERNAL })), recs.push((s, 1usize, line)))
                    } else {
                        st
                    },
                    _ => st,
                }
            } else {
                st
            }
        } else if has_substring(callee.name@, "index"@) && args@.len() == 2 {
            match (operand_slot(args@[0]), operand_slot(args@[1])) {
                (Some(buf), Some(idx)) => if from_argument(body, buf) && !from_full_range(body, idx) {
                    (Some(buf), ms, recs)
                } else {
                    st
                },
                _ => st,
            }
        } else {
            st
        },
        _ => st,
    }
}

pub open spec fn fold(body: &Body, b: int) -> TruncState
    decreases b,
{
    if b <= 0 {
        (None, Seq::empty(), Seq::empty())
    } else {
        step(body, fold(body, b - 1), b - 1)
    }
}

pub open spec fn truncation_marks(body: &Body) -> Seq<Mark> {
    fold(body, body.n_blocks() as int).1
}

pub open spec fn truncation_records(body: &Body) -> Seq<(usize, usize, usize)> {
    fold(body, body.n_blocks() as int).2
}

/// What the checker found in one routine.
#[derive(Debug)]
pub struct TruncationStatus {
    pub behavior_flag: BehaviorFlag,
    pub spans: Spans,
    /// 1 for a copy from a narrowed buffer, 0 when nothing was found.
    pub error: usize,
    /// The source line of the copy into the greatest reached slot, 0 when
    /// nothing was found.
    pub loc: usize,
}

impl TruncationStatus {
    pub fn behavior_flag(&self) -> (r: BehaviorFlag)
        ensures
            r == self.behavior_flag,
    {
        self.behavior_flag
    }

    pub fn strong_bypass_spans(&self) -> (r: &Vec<usize>)
        ensures
            r == &self.spans.strong_bypasses,
    {
        &self.spans.strong_bypasses
    }

    pub fn weak_bypass_spans(&self) -> (r: &Vec<usize>)
        ensures
            r == &self.spans.weak_bypasses,
    {
        &self.spans.weak_bypasses
    }

    pub fn plain_deref_spans(&self) -> (r: &Vec<usize>)
        ensures
            r == &self.spans.plain_deref,
    {
        &self.spans.plain_deref
    }

    pub fn unresolvable_generic_function_spans(&self) -> (r: &Vec<usize>)
        ensures
            r == &self.spans.unresolvable_generic_functions,
    {
        &self.spans.unresolvable_generic_functions
    }

    /// The truncating copies.
    pub fn ty_conv_spans(&self) -> (r: &Vec<usize>)
        ensures
            r == &self.spans.ty_convs,
    {
        &self.spans.ty_convs
    }

    pub fn error_kind(&self) -> (r: usize)
        ensures
            r == self.error,
    {
        self.error
    }

    pub fn get_error_loc(&self) -> (r: usize)
        ensures
            r == self.loc,
    {
        self.loc
    }
}

/// The slots assigned a full range.
fn range_full_slots(body: &Body) -> (r: Vec<bool>)
    requires
        body.wf(),
    ensures
        r@.len() == body.n_slots(),
        forall|u: usize| u < body.n_slots() ==> (r@[u as int] <==> range_full_slot(body, u)),
{
    let n = body.local_decls.len();
    let nb = body.basic_blocks.len();
    let mut r: Vec<bool> = Vec::new();
    let mut k: usize = 0;
    while k < n
        invariant
            k <= n,
            r@.len() == k,
            forall|u: int| 0 <= u < k ==> !r@[u],
        decreases n - k,
    {
        r.push(false);
        k = k + 1;
    }
    let mut b: usize = 0;
    while b < nb
        invariant
            body.wf(),
            n == body.n_slots(),
            nb == body.n_blocks(),
            b <= nb,
            r@.len() == n,
            forall|u: usize| u < n ==> (r@[u as int] <==> exists|bb: int, i: int|
                0 <= bb < b && 0 <= i < body.basic_blocks@[bb].statements@.len() && #[trigger] assigns_range_full(
                    body.basic_blocks@[bb].statements@[i].kind,
                    u,
                )),
        decreases nb - b,
    {
        let ss = &body.basic_blocks[b].statements;
        let mut i: usize = 0;
        while i < ss.len()
            invariant
                body.wf(),
                n == body.n_slots(),
                nb == body.n_blocks(),
                b < nb,
                *ss == body.basic_blocks@[b as int].statements,
                i <= ss@.len(),
                r@.len() == n,
                forall|u: usize| u < n ==> (r@[u as int] <==> (exists|bb: int, i: int|
                    0 <= bb < b && 0 <= i < body.basic_blocks@[bb].statements@.len() && #[trigger] assigns_range_full(
                        body.basic_blocks@[bb].statements@[i].kind,
                        u,
                    )) || exists|j: int| 0 <= j < i && #[trigger] assigns_range_full(ss@[j].kind, u)),
            decreases ss@.len() - i,
        {
            proof {
                assert(statement_in(body.basic_blocks@[b as int].statements@[i as int], n as nat));
            }
            match &ss[i].kind {
                StatementKind::Assign(lhs, Rvalue::Aggregate { range_full, .. }) => {
                    if *range_full {
                        r.set(lhs.local, true);
                    }
                },
                _ => {},
            }
            proof {
                assert forall|u: usize| u < n implies (r@[u as int] <==> (exists|bb: int, i: int|
                    0 <= bb < b && 0 <= i < body.basic_blocks@[bb].statements@.len() && #[trigger] assigns_range_full(
                        body.basic_blocks@[bb].statements@[i].kind,
                        u,
                    )) || exists|j: int| 0 <= j < i + 1 && #[trigger] assigns_range_full(ss@[j].kind, u)) by {
                    if assigns_range_full(ss@[i as int].kind, u) {
                        assert(exists|j: int| 0 <= j < i + 1 && #[trigger] assigns_range_full(ss@[j].kind, u));
                    }
                    if exists|j: int| 0 <= j < i + 1 && #[trigger] assigns_range_full(ss@[j].kind, u) {
                        let j = choose|j: int| 0 <= j < i + 1 && #[trigger] assigns_range_full(ss@[j].kind, u);
                        if j < i {
                            assert(exists|j: int| 0 <= j < i && #[trigger] assigns_range_full(ss@[j].kind, u));
                        }
                    }
                }
            }
            i = i + 1;
        }
        proof {
            assert forall|u: usize| u < n implies (r@[u as int] <==> exists|bb: int, i: int|
                0 <= bb < b + 1 && 0 <= i < body.basic_blocks@[bb].statements@.len() && #[trigger] assigns_range_full(
                    body.basic_blocks@[bb].statements@[i].kind,
                    u,
                )) by {
                if exists|j: int| 0 <= j < ss@.len() && #[trigger] assigns_range_full(ss@[j].kind, u) {
                    let j = choose|j: int| 0 <= j < ss@.len() && #[trigger] assigns_range_full(ss@[j].kind, u);
                    assert(assigns_range_full(body.basic_blocks@[b as int].statements@[j].kind, u));
                }
                if exists|bb: int, i: int|
                    0 <= bb < b + 1 && 0 <= i < body.basic_blocks@[bb].statements@.len() && #[trigger] assigns_range_full(
                        body.basic_blocks@[bb].statements@[i].kind,
                        u,
                    ) {
                    let (bb, j) = choose|bb: int, i: int|
                        0 <= bb < b + 1 && 0 <= i < body.basic_blocks@[bb].statements@.len() && #[trigger] assigns_range_full(
                            body.basic_blocks@[bb].statements@[i].kind,
                            u,
                        );
                    if bb == b {
                        assert(assigns_range_full(ss@[j].kind, u));
                    } else {
                        assert(exists|bb: int, i: int|
                            0 <= bb < b && 0 <= i < body.basic_blocks@[bb].statements@.len() && #[trigger] assigns_range_full(
                                body.basic_blocks@[bb].statements@[i].kind,
                                u,
                            ));
                    }
                }
            }
        }
        b = b + 1;
    }
    proof {
        assert forall|u: usize| u < n implies (r@[u as int] <==> range_full_slot(body, u)) by {}
    }
    r
}

/// Whether some argument flows into `u`.
fn flows_from_argument(ta: &TaintAnalyzer, body: &Body, u: usize) -> (r: bool)
    requires
        body.wf(),
        ta.wf(),
        ta.graph() == body.place_neighbor_list@,
        u < body.n_slots(),
    ensures
        r == from_argument(body, u),
{
    let n = body.local_decls.len();
    let mut a: usize = 1;
    while a <= body.arg_count
        invariant
            n == body.n_slots(),
            body.wf(),
            ta.wf(),
            ta.graph() == body.place_neighbor_list@,
            u < body.n_slots(),
            1 <= a <= body.arg_count + 1,
            forall|x: usize| 1 <= x < a ==> !#[trigger] reaches(body.place_neighbor_list@, x, u),
        decreases body.arg_count + 1 - a,
    {
        if ta.is_reachable(a, u) {
            return true;
        }
        a = a + 1;
    }
    false
}

/// Whether some full range flows into `u`.
fn flows_from_full_range(ta: &TaintAnalyzer, body: &Body, rf: &Vec<bool>, u: usize) -> (r: bool)
    requires
        body.wf(),
        ta.wf(),
        ta.graph() == body.place_neighbor_list@,
        u < body.n_slots(),
        rf@.len() == body.n_slots(),
        forall|v: usize| v < body.n_slots() ==> (rf@[v as int] <==> range_full_slot(body, v)),
    ensures
        r == from_full_range(body, u),
{
    let mut v: usize = 0;
    while v < rf.len()
        invariant
            body.wf(),
            ta.wf(),
            ta.graph() == body.place_neighbor_list@,
            u < body.n_slots(),
            rf@.len() == body.n_slots(),
            forall|v: usize| v < body.n_slots() ==> (rf@[v as int] <==> range_full_slot(body, v)),
            v <= rf@.len(),
            forall|x: usize| x < v ==> !(range_full_slot(body, x) && #[trigger] reaches(body.place_neighbor_list@, x, u)),
        decreases rf@.len() - v,
    {
        if rf[v] && ta.is_reachable(v, u) {
            return true;
        }
        v = v + 1;
    }
    proof {
        assert forall|x: usize| !(range_full_slot(body, x) && #[trigger] reaches(body.place_neighbor_list@, x, u)) by {
            if range_full_slot(body, x) && x >= body.n_slots() {
                let (bb, j) = choose|bb: int, i: int|
                    0 <= bb < body.n_blocks() && 0 <= i < body.basic_blocks@[bb].statements@.len() && #[trigger] assigns_range_full(
                        body.basic_blocks@[bb].statements@[i].kind,
                        x,
                    );
                assert(statement_in(body.basic_blocks@[bb].statements@[j], body.n_slots()));
            }
        }
    }
    false
}

/// Finds copies whose source was obtained by narrowing an argument with an
/// index other than a full range, and flags them at once.
pub fn analyze(body: &Body) -> (r: TruncationStatus)
    requires
        body.wf(),
    ensures
        r.behavior_flag.bits == marks_result(body, truncation_marks(body)),
        no_sink_reached(body.place_neighbor_list@, truncation_marks(body)) ==> r.error == 0 && r.loc == 0,
        forall|k: usize| #[trigger] last_reached_sink(body.place_neighbor_list@, truncation_marks(body), k)
            ==> (r.error, r.loc) == match recorded(truncation_records(body), k) {
            Some(x) => x,
            None => (2usize, 0usize),
        },
        r.spans.ty_convs@ == record_lines(truncation_records(body)),
        forall|l: SpanList| l != SpanList::TyConvs ==> (#[trigger] r.spans.list(l)).len() == 0,
{
    let nb = body.basic_blocks.len();
    let ta = TaintAnalyzer::new(body);
    let rf = range_full_slots(body);
    let mut spans = Spans::new();
    let mut sliced: Option<usize> = None;
    let mut ms: Vec<Mark> = Vec::new();
    let mut records: Vec<(usize, usize, usize)> = Vec::new();
    proof {
        assert(spans.list(SpanList::TyConvs) == no_lines());
        assert(spans.ty_convs@ =~= record_lines(records@));
    }
    let mut b: usize = 0;
    while b < nb
        invariant
            body.wf(),
            ta.wf(),
            ta.graph() == body.place_neighbor_list@,
            rf@.len() == body.n_slots(),
            forall|v: usize| v < body.n_slots() ==> (rf@[v as int] <==> range_full_slot(body, v)),
            nb == body.n_blocks(),
            b <= nb,
            (sliced, ms@, records@) == fold(body, b as int),
            spans.ty_convs@ == record_lines(records@),
            forall|l: SpanList| l != SpanList::TyConvs ==> (#[trigger] spans.list(l)).len() == 0,
            sliced matches Some(sp) ==> sp < body.n_slots(),
            marks_in(ms@, body.n_slots()),
        decreases nb - b,
    {
        let t = &body.basic_blocks[b].terminator;
        let ghost sp = spans;
        proof {
            assert(terminator_in(body.basic_blocks@[b as int].terminator, body.n_slots(), body.n_blocks()));
        }
        let ghost before = ms@;
        match &t.kind {
            TerminatorKind::StaticCall { callee, args, .. } => {
                let name = callee.name.as_str();
                if contains_str(name, "copy_") {
                    if args.len() == 2 {
                        assert(crate::ir::operand_in(args@[1], body.n_slots()));
                        let src = match &args[1] {
                            Operand::Copy(p) => Some(p.local),
                            Operand::Move(p) => Some(p.local),
                            Operand::Constant(_) => None,
                        };
                        if let (Some(sp), Some(s)) = (sliced, src) {
                            if ta.is_reachable(sp, s) {
                                ms.push(Mark::AtOnce(s, BehaviorFlag::from_bits(EXTERNAL)));
                                spans.ty_convs.push(t.line);
                                records.push((s, 1usize, t.line));
                                assert(spans.ty_convs@ =~= record_lines(records@));
                            }
                        }
                    }
                } else if contains_str(name, "index") && args.len() == 2 {
                    assert(crate::ir::operand_in(args@[0], body.n_slots()));
                    assert(crate::ir::operand_in(args@[1], body.n_slots()));
                    let buf = match &args[0] {
                        Operand::Copy(p) => Some(p.local),
                        Operand::Move(p) => Some(p.local),
                        Operand::Constant(_) => None,
                    };
                    let idx = match &args[1] {
                        Operand::Copy(p) => Some(p.local),
                        Operand::Move(p) => Some(p.local),
                        Operand::Constant(_) => None,
                    };
                    if let (Some(buf), Some(idx)) = (buf, idx) {
                        if flows_from_argument(&ta, body, buf) && !flows_from_full_range(&ta, body, &rf, idx) {
                            sliced = Some(buf);
                        }
                    }
                }
            },
            _ => {},
        }
        proof {
            assert forall|i: int| 0 <= i < ms@.len() implies #[trigger] mark_slot(ms@[i]) < body.n_slots() by {
                if i < before.len() {
                    assert(ms@[i] == before[i]);
                }
            }
            assert forall|l: SpanList| l != SpanList::TyConvs implies (#[trigger] spans.list(l)).len() == 0 by {
                assert(spans.list(l) == sp.list(l));
            }
        }
        b = b + 1;
    }
    let behavior_flag = run_marks(body, &ms);
    let (error, loc) = report_finding(&body.place_neighbor_list, &ms, &records, 2);
    TruncationStatus { behavior_flag, spans, error, loc }
}

/// What can go wrong while the checker reports.
#[derive(Clone, Copy, Debug, PartialEq, Eq, Structural)]
pub enum TruncationError {
    PushPopBlock,
    ResolveError,
    InvalidSpan,
}

impl TruncationError {
    pub fn kind(&self) -> (r: crate::analysis::AnalysisErrorKind)
        ensures
            r == (match self {
                TruncationError::ResolveError => crate::analysis::AnalysisErrorKind::OutOfScope,
                _ => crate::analysis::AnalysisErrorKind::Unreachable,
            }),
    {
        match self {
            TruncationError::PushPopBlock => crate::analysis::AnalysisErrorKind::Unreachable,
            TruncationError::ResolveError => crate::analysis::AnalysisErrorKind::OutOfScope,
            TruncationError::InvalidSpan => crate::analysis::AnalysisErrorKind::Unreachable,
        }
    }
}

} // verus!

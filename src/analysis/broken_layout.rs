//! Broken layout: a pointer cast or transmute to a type of stricter
//! alignment whose result is dereferenced, returned by reference or handed to
//! a call that bypasses lifetimes.

use vstd::prelude::*;
use crate::analysis::{Comparison, LayoutChecker, align_status};
use crate::ir::{
    Body, Bypass, CastKind, Operand, Place, Rvalue, Statement, StatementKind, Terminator, TerminatorKind,
    operand_slot, statement_in, statement_tys_in, terminator_in, terminator_tys_in, Unsafety,
};
use crate::policy::{Policy, SpanList, Spans, collect_marks, no_lines, policy_lines, policy_marks, repeat_line};
use crate::taint::{BehaviorFlag, Mark, marks_in, marks_result, mark_slot, run_marks};
use crate::ty::{TyKind, TypeEnv, contains_str, has_substring, pointee};

verus! {

/// A pointer cast to a stricter alignment.
pub const CAST: u16 = 1;

/// A transmute to a stricter alignment.
pub const TRANSMUTE: u16 = 2;

/// A sink at `p` when it is reached through a dereference.
pub open spec fn deref_sink(p: Place) -> Seq<Mark> {
    if p.is_indirect {
        seq![Mark::Sink(p.local)]
    } else {
        Seq::empty()
    }
}

pub open spec fn operand_deref_sink(op: Operand) -> Seq<Mark> {
    match op {
        Operand::Copy(p) => deref_sink(p),
        Operand::Move(p) => deref_sink(p),
        Operand::Constant(_) => Seq::empty(),
    }
}

/// A source at the converted slot when the target is more strictly aligned.
pub open spec fn cast_source(env: &TypeEnv, op: Operand, to: usize, bits: u16) -> Seq<Mark> {
    match operand_slot(op) {
        Some(u) => {
            let from = match op {
                Operand::Copy(p) => p.ty,
                Operand::Move(p) => p.ty,
                Operand::Constant(c) => c.ty,
            };
            if align_status(env, pointee(env, from), pointee(env, to)) == Comparison::Less {
                seq![Mark::Source(u, BehaviorFlag { bits })]
            } else {
                Seq::empty()
            }
        },
        None => Seq::empty(),
    }
}

/// The steps that a right-hand side takes: a source for a conversion, a
/// sink for a read through a dereference.
pub open spec fn rvalue_marks(env: &TypeEnv, rv: Rvalue) -> Seq<Mark> {
    match rv {
        Rvalue::Cast(CastKind::PtrToPtr, op, to) => cast_source(env, op, to, CAST),
        Rvalue::Cast(CastKind::Transmute, op, to) => cast_source(env, op, to, TRANSMUTE),
        Rvalue::Use(op) => operand_deref_sink(op),
        Rvalue::Repeat(op) => operand_deref_sink(op),
        Rvalue::ShallowInitBox(op) => operand_deref_sink(op),
        Rvalue::Ref(p) => deref_sink(p),
        Rvalue::AddressOf(p) => deref_sink(p),
        Rvalue::Len(p) => deref_sink(p),
        Rvalue::Discriminant(p) => deref_sink(p),
        Rvalue::CopyForDeref(p) => deref_sink(p),
        _ => Seq::empty(),
    }
}

pub open spec fn statement_marks(env: &TypeEnv, s: Statement) -> Seq<Mark> {
    match s.kind {
        StatementKind::Assign(lhs, rv) => deref_sink(lhs) + rvalue_marks(env, rv),
        StatementKind::Nop => Seq::empty(),
    }
}

/// The lines recorded at a statement whose steps are `lhs_marks`, for its
/// left-hand side, and `rhs_marks`, for its right-hand side: a conversion
/// under the type conversions, a dereference under the plain dereferences.
pub open spec fn step_lines(
    line: usize,
    lhs_marks: Seq<Mark>,
    rhs_marks: Seq<Mark>,
    is_cast: bool,
    l: SpanList,
) -> Seq<usize> {
    match l {
        SpanList::PlainDeref => repeat_line(line, lhs_marks.len()) + if is_cast {
            no_lines()
        } else {
            repeat_line(line, rhs_marks.len())
        },
        SpanList::TyConvs => if is_cast {
            repeat_line(line, rhs_marks.len())
        } else {
            no_lines()
        },
        _ => no_lines(),
    }
}

pub open spec fn statement_lines(env: &TypeEnv, s: Statement, l: SpanList) -> Seq<usize> {
    match s.kind {
        StatementKind::Assign(lhs, rv) => step_lines(s.line, deref_sink(lhs), rvalue_marks(env, rv), rv is Cast, l),
        StatementKind::Nop => no_lines(),
    }
}

/// A sink at every slot passed to a call.
pub open spec fn arg_sinks(args: Seq<Operand>) -> Seq<Mark>
    decreases args.len(),
{
    if args.len() == 0 {
        Seq::empty()
    } else {
        arg_sinks(args.drop_last()) + match operand_slot(args.last()) {
            Some(u) => seq![Mark::Sink(u)],
            None => Seq::empty(),
        }
    }
}

/// The lines recorded at a terminator: each sink of a bypass call under its
/// strength, a returned reference under the plain dereferences.
pub open spec fn terminator_lines(env: &TypeEnv, body: &Body, t: Terminator, l: SpanList) -> Seq<usize> {
    match t.kind {
        TerminatorKind::StaticCall { callee, args, .. } => if clears_source(callee.name@) {
            no_lines()
        } else if (callee.bypass == Bypass::Strong && l == SpanList::StrongBypasses) || (callee.bypass
            == Bypass::Weak && l == SpanList::WeakBypasses) {
            repeat_line(t.line, arg_sinks(args@).len())
        } else {
            no_lines()
        },
        TerminatorKind::Return => if l == SpanList::PlainDeref && env.kind(body.local_decls@[0].ty) is Ref {
            seq![t.line]
        } else {
            no_lines()
        },
        _ => no_lines(),
    }
}

/// The name of an allocation or unaligned access: its result is fresh.
pub open spec fn clears_source(name: Seq<char>) -> bool {
    has_substring(name, "alloc"@) || has_substring(name, "unaligned"@)
}

pub open spec fn terminator_marks(env: &TypeEnv, body: &Body, t: Terminator) -> Seq<Mark> {
    match t.kind {
        TerminatorKind::StaticCall { callee, args, dest, .. } => if clears_source(callee.name@) {
            seq![Mark::Clear(dest.local)]
        } else if callee.bypass == Bypass::Strong || callee.bypass == Bypass::Weak {
            arg_sinks(args@)
        } else {
            Seq::empty()
        },
        TerminatorKind::Return => if env.kind(body.local_decls@[0].ty) is Ref {
            seq![Mark::Sink(0)]
        } else {
            Seq::empty()
        },
        _ => Seq::empty(),
    }
}

pub proof fn lemma_arg_sinks_in(args: Seq<Operand>, n: nat)
    requires
        forall|i: int| 0 <= i < args.len() ==> crate::ir::operand_in(#[trigger] args[i], n),
    ensures
        marks_in(arg_sinks(args), n),
    decreases args.len(),
{
    if args.len() > 0 {
        lemma_arg_sinks_in(args.drop_last(), n);
        let a = arg_sinks(args.drop_last());
        let b = match operand_slot(args.last()) {
            Some(u) => seq![Mark::Sink(u)],
            None => Seq::<Mark>::empty(),
        };
        assert(crate::ir::operand_in(args[args.len() - 1], n));
        assert forall|i: int| 0 <= i < (a + b).len() implies #[trigger] mark_slot((a + b)[i]) < n by {
            if i < a.len() {
                assert((a + b)[i] == a[i]);
            } else {
                assert((a + b)[i] == b[i - a.len()]);
            }
        }
    }
}

/// Appends a sink for every slot passed to a call.
pub fn push_arg_sinks(args: &Vec<Operand>, out: &mut Vec<Mark>, lines: &mut Vec<usize>, line: usize)
    ensures
        final(out)@ == old(out)@ + arg_sinks(args@),
        final(lines)@ == old(lines)@ + repeat_line(line, arg_sinks(args@).len()),
{
    let ghost start = old(out)@;
    let ghost lines0 = old(lines)@;
    let mut i: usize = 0;
    while i < args.len()
        invariant
            i <= args@.len(),
            out@ == start + arg_sinks(args@.subrange(0, i as int)),
            lines@ == lines0 + repeat_line(line, arg_sinks(args@.subrange(0, i as int)).len()),
        decreases args@.len() - i,
    {
        assert(args@.subrange(0, i + 1).drop_last() =~= args@.subrange(0, i as int));
        match &args[i] {
            Operand::Copy(p) => {
                out.push(Mark::Sink(p.local));
                lines.push(line);
            },
            Operand::Move(p) => {
                out.push(Mark::Sink(p.local));
                lines.push(line);
            },
            Operand::Constant(_) => {},
        }
        i = i + 1;
        assert(out@ =~= start + arg_sinks(args@.subrange(0, i as int)));
        assert(lines@ =~= lines0 + repeat_line(line, arg_sinks(args@.subrange(0, i as int)).len()));
    }
    assert(args@.subrange(0, i as int) =~= args@);
}

/// Appends the sink of a place reached through a dereference.
pub fn push_deref_sink(p: &Place, out: &mut Vec<Mark>, lines: &mut Vec<usize>, line: usize)
    ensures
        final(out)@ == old(out)@ + deref_sink(*p),
        final(lines)@ == old(lines)@ + repeat_line(line, deref_sink(*p).len()),
{
    if p.is_indirect {
        out.push(Mark::Sink(p.local));
        lines.push(line);
    }
    assert(out@ =~= old(out)@ + deref_sink(*p));
    assert(lines@ =~= old(lines)@ + repeat_line(line, deref_sink(*p).len()));
}

pub fn push_operand_deref_sink(op: &Operand, out: &mut Vec<Mark>, lines: &mut Vec<usize>, line: usize)
    ensures
        final(out)@ == old(out)@ + operand_deref_sink(*op),
        final(lines)@ == old(lines)@ + repeat_line(line, operand_deref_sink(*op).len()),
{
    match op {
        Operand::Copy(p) => push_deref_sink(p, out, lines, line),
        Operand::Move(p) => push_deref_sink(p, out, lines, line),
        Operand::Constant(_) => {
            assert(out@ =~= old(out)@ + operand_deref_sink(*op));
            assert(lines@ =~= old(lines)@ + repeat_line(line, operand_deref_sink(*op).len()));
        },
    }
}

fn push_cast_source(env: &TypeEnv, op: &Operand, to: usize, bits: u16, out: &mut Vec<Mark>, lines: &mut Vec<usize>, line: usize)
    requires
        env.wf(),
        crate::ir::operand_ty(*op) < env.n_tys(),
        to < env.n_tys(),
    ensures
        final(out)@ == old(out)@ + cast_source(env, *op, to, bits),
        final(lines)@ == old(lines)@ + repeat_line(line, cast_source(env, *op, to, bits).len()),
{
    let (u, from) = match op {
        Operand::Copy(p) => (Some(p.local), p.ty),
        Operand::Move(p) => (Some(p.local), p.ty),
        Operand::Constant(c) => (None, c.ty),
    };
    if let Some(u) = u {
        let lc = LayoutChecker::new(env, from, to);
        if lc.get_align_status() == Comparison::Less {
            out.push(Mark::Source(u, BehaviorFlag::from_bits(bits)));
            lines.push(line);
        }
    }
    assert(out@ =~= old(out)@ + cast_source(env, *op, to, bits));
    assert(lines@ =~= old(lines)@ + repeat_line(line, cast_source(env, *op, to, bits).len()));
}

/// The broken-layout rules over one routine.
pub struct BrokenLayoutPolicy<'a> {
    pub env: &'a TypeEnv,
    pub body: &'a Body,
}

impl<'a> Policy for BrokenLayoutPolicy<'a> {
    open spec fn inv(&self) -> bool {
        self.env.wf() && self.body.wf() && self.body.tys_in(self.env.n_tys())
    }

    open spec fn n_slots(&self) -> nat {
        self.body.n_slots()
    }

    open spec fn statement_ok(&self, s: Statement) -> bool {
        statement_in(s, self.body.n_slots()) && statement_tys_in(s, self.env.n_tys())
    }

    open spec fn terminator_ok(&self, t: Terminator) -> bool {
        terminator_in(t, self.body.n_slots(), self.body.n_blocks()) && terminator_tys_in(t, self.env.n_tys())
    }

    open spec fn statement_marks(&self, s: Statement) -> Seq<Mark> {
        statement_marks(self.env, s)
    }

    open spec fn terminator_marks(&self, t: Terminator) -> Seq<Mark> {
        terminator_marks(self.env, self.body, t)
    }

    open spec fn statement_lines(&self, s: Statement, l: SpanList) -> Seq<usize> {
        statement_lines(self.env, s, l)
    }

    open spec fn terminator_lines(&self, t: Terminator, l: SpanList) -> Seq<usize> {
        terminator_lines(self.env, self.body, t, l)
    }

    fn statement(&self, s: &Statement, out: &mut Vec<Mark>, spans: &mut Spans) {
        let ghost start = out@;
        let ghost sp0 = *spans;
        match &s.kind {
            StatementKind::Assign(lhs, rv) => {
                push_deref_sink(lhs, out, &mut spans.plain_deref, s.line);
                let ghost mid = out@;
                match rv {
                    Rvalue::Cast(CastKind::PtrToPtr, op, to) => push_cast_source(self.env, op, *to, CAST, out, &mut spans.ty_convs, s.line),
                    Rvalue::Cast(CastKind::Transmute, op, to) => push_cast_source(self.env, op, *to, TRANSMUTE, out, &mut spans.ty_convs, s.line),
                    Rvalue::Use(op) => push_operand_deref_sink(op, out, &mut spans.plain_deref, s.line),
                    Rvalue::Repeat(op) => push_operand_deref_sink(op, out, &mut spans.plain_deref, s.line),
                    Rvalue::ShallowInitBox(op) => push_operand_deref_sink(op, out, &mut spans.plain_deref, s.line),
                    Rvalue::Ref(p) => push_deref_sink(p, out, &mut spans.plain_deref, s.line),
                    Rvalue::AddressOf(p) => push_deref_sink(p, out, &mut spans.plain_deref, s.line),
                    Rvalue::Len(p) => push_deref_sink(p, out, &mut spans.plain_deref, s.line),
                    Rvalue::Discriminant(p) => push_deref_sink(p, out, &mut spans.plain_deref, s.line),
                    Rvalue::CopyForDeref(p) => push_deref_sink(p, out, &mut spans.plain_deref, s.line),
                    _ => {},
                }
                proof {
                    assert(out@ =~= start + statement_marks(self.env, *s));
                    assert forall|l: SpanList| #[trigger] spans.list(l) == sp0.list(l) + statement_lines(self.env, *s, l) by {
                        assert(spans.list(l) =~= sp0.list(l) + statement_lines(self.env, *s, l));
                    }
                    let ms = statement_marks(self.env, *s);
                    assert forall|i: int| 0 <= i < ms.len() implies #[trigger] mark_slot(ms[i]) < self.n_slots() by {
                        assert(statement_in(*s, self.body.n_slots()));
                    }
                }
            },
            StatementKind::Nop => {
                assert(out@ =~= start + statement_marks(self.env, *s));
                assert forall|l: SpanList| #[trigger] spans.list(l) == sp0.list(l) + statement_lines(self.env, *s, l) by {
                    assert(spans.list(l) =~= sp0.list(l) + statement_lines(self.env, *s, l));
                }
            },
        }
    }

    fn terminator(&self, t: &Terminator, out: &mut Vec<Mark>, spans: &mut Spans) {
        let ghost start = out@;
        let ghost sp0 = *spans;
        match &t.kind {
            TerminatorKind::StaticCall { callee, args, dest, .. } => {
                let name = callee.name.as_str();
                if contains_str(name, "alloc") || contains_str(name, "unaligned") {
                    out.push(Mark::Clear(dest.local));
                } else if callee.bypass == Bypass::Strong {
                    push_arg_sinks(args, out, &mut spans.strong_bypasses, t.line);
                } else if callee.bypass == Bypass::Weak {
                    push_arg_sinks(args, out, &mut spans.weak_bypasses, t.line);
                }
                proof {
                    lemma_arg_sinks_in(args@, self.body.n_slots());
                }
            },
            TerminatorKind::Return => {
                let ret_ty = self.body.local_decls[0].ty;
                match &self.env.tys[ret_ty].kind {
                    TyKind::Ref(_) => {
                        out.push(Mark::Sink(0));
                        spans.plain_deref.push(t.line);
                    },
                    _ => {},
                }
            },
            _ => {},
        }
        assert(out@ =~= start + terminator_marks(self.env, self.body, *t));
        assert forall|l: SpanList| #[trigger] spans.list(l) == sp0.list(l) + terminator_lines(self.env, self.body, *t, l) by {
            assert(spans.list(l) =~= sp0.list(l) + terminator_lines(self.env, self.body, *t, l));
        }
    }
}

/// What the checker found in one routine.
#[derive(Debug)]
pub struct BrokenLayoutStatus {
    pub behavior_flag: BehaviorFlag,
    pub spans: Spans,
}

impl BrokenLayoutStatus {
    pub fn behavior_flag(&self) -> (r: BehaviorFlag)
        ensures
            r == self.behavior_flag,
    {
        self.behavior_flag
    }

    pub fn strong_bypass_spans(&self) -> (r: &Vec<usize>)
        ensures
            r == &self.spans.strong_bypasses,
    {
        &self.spans.strong_bypasses
    }

    pub fn weak_bypass_spans(&self) -> (r: &Vec<usize>)
        ensures
            r == &self.spans.weak_bypasses,
    {
        &self.spans.weak_bypasses
    }

    pub fn plain_deref_spans(&self) -> (r: &Vec<usize>)
        ensures
            r == &self.spans.plain_deref,
    {
        &self.spans.plain_deref
    }

    pub fn unresolvable_generic_function_spans(&self) -> (r: &Vec<usize>)
        ensures
            r == &self.spans.unresolvable_generic_functions,
    {
        &self.spans.unresolvable_generic_functions
    }

    pub fn ty_conv_spans(&self) -> (r: &Vec<usize>)
        ensures
            r == &self.spans.ty_convs,
    {
        &self.spans.ty_convs
    }
}

/// Marks conversions to stricter alignment as sources and dereferences,
/// references returned and lifetime-bypassing calls as sinks, then
/// propagates.
pub fn analyze(env: &TypeEnv, body: &Body) -> (r: BrokenLayoutStatus)
    requires
        env.wf(),
        body.wf(),
        body.tys_in(env.n_tys()),
    ensures
        r.behavior_flag.bits == marks_result(body, policy_marks(&(BrokenLayoutPolicy { env, body }), body.basic_blocks@)),
        forall|l: SpanList| #[trigger] r.spans.list(l) == policy_lines(&(BrokenLayoutPolicy { env, body }), body.basic_blocks@, l),
{
    let policy = BrokenLayoutPolicy { env, body };
    let mut spans = Spans::new();
    proof {
        assert forall|b: int, i: int|
            0 <= b < body.basic_blocks@.len() && 0 <= i < body.basic_blocks@[b].statements@.len()
                implies policy.statement_ok(#[trigger] body.basic_blocks@[b].statements@[i]) by {
            assert(statement_in(body.basic_blocks@[b].statements@[i], body.n_slots()));
        }
        assert forall|b: int| 0 <= b < body.basic_blocks@.len() implies policy.terminator_ok(
            #[trigger] body.basic_blocks@[b].terminator,
        ) by {
            assert(terminator_in(body.basic_blocks@[b].terminator, body.n_slots(), body.n_blocks()));
        }
    }
    let ms = collect_marks(&policy, body, &mut spans);
    proof {
        assert forall|l: SpanList| #[trigger] spans.list(l) == policy_lines(&policy, body.basic_blocks@, l) by {
            assert(spans.list(l) =~= no_lines() + policy_lines(&policy, body.basic_blocks@, l));
        }
    }
    let flag = run_marks(body, &ms);
    BrokenLayoutStatus { behavior_flag: flag, spans }
}

/// Analyses a routine that contains unsafe code; a safe routine has no
/// finding, and an unsafe one is left to its callers.
pub fn analyze_body(env: &TypeEnv, body: &Body, unsafety: Unsafety) -> (r: Option<BrokenLayoutStatus>)
    requires
        env.wf(),
        body.wf(),
        body.tys_in(env.n_tys()),
    ensures
        unsafety == Unsafety::UnsafeFn ==> r is None,
        unsafety == Unsafety::Safe ==> (r matches Some(st) && st.behavior_flag.bits == 0 && st.spans.all_empty()),
        unsafety == Unsafety::ContainsUnsafe ==> (r matches Some(st) && st.behavior_flag.bits == marks_result(body, policy_marks(&(BrokenLayoutPolicy { env, body }), body.basic_blocks@))
            && forall|l: SpanList| #[trigger] st.spans.list(l) == policy_lines(&(BrokenLayoutPolicy { env, body }), body.basic_blocks@, l)),
{
    match unsafety {
        Unsafety::UnsafeFn => None,
        Unsafety::ContainsUnsafe => Some(analyze(env, body)),
        Unsafety::Safe => Some(BrokenLayoutStatus { behavior_flag: BehaviorFlag::empty(), spans: Spans::new() }),
    }
}

/// What can go wrong while the checker reports.
#[derive(Clone, Copy, Debug, PartialEq, Eq, Structural)]
pub enum BrokenLayoutError {
    PushPopBlock,
    ResolveError,
    InvalidSpan,
}

impl BrokenLayoutError {
    pub fn kind(&self) -> (r: crate::analysis::AnalysisErrorKind)
        ensures
            r == (match self {
                BrokenLayoutError::ResolveError => crate::analysis::AnalysisErrorKind::OutOfScope,
                _ => crate::analysis::AnalysisErrorKind::Unreachable,
            }),
    {
        match self {
            BrokenLayoutError::PushPopBlock => crate::analysis::AnalysisErrorKind::Unreachable,
            BrokenLayoutError::ResolveError => crate::analysis::AnalysisErrorKind::OutOfScope,
            BrokenLayoutError::InvalidSpan => crate::analysis::AnalysisErrorKind::Unreachable,
        }
    }
}

} // verus!

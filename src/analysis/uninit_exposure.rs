//! Uninitialized exposure: a conversion between types whose layouts do not
//! line up field for field, whose result is then read.

use vstd::prelude::*;
use crate::analysis::{
    LayoutChecker, is_adt, is_arr_slice, is_param, is_primitive, is_repr_c, is_repr_transparent, is_usize,
    no_candidates,
};
use crate::analysis::broken_layout::{
    arg_sinks, deref_sink, lemma_arg_sinks_in, operand_deref_sink, push_arg_sinks, push_deref_sink,
    push_operand_deref_sink, step_lines,
};
use crate::ir::{
    Body, Bypass, CastKind, Operand, Rvalue, Statement, StatementKind, Terminator, TerminatorKind,
    statement_in, statement_tys_in, terminator_in, terminator_tys_in, Unsafety,
};
use crate::policy::{Policy, SpanList, Spans, collect_marks, no_lines, policy_lines, policy_marks, repeat_line};
use crate::taint::{BehaviorFlag, Mark, marks_result, mark_slot, run_marks};
use crate::ty::{TyKind, TypeEnv, contains_str, contains_ty, has_substring, pointee, ty_contains};

verus! {

/// A pointer cast that may expose uninitialized bytes.
pub const CAST: u16 = 1;

/// A transmute that may expose uninitialized bytes.
pub const TRANSMUTE: u16 = 2;

pub open spec fn is_c_void(k: TyKind) -> bool {
    match k {
        TyKind::Adt(d) => d.is_c_void,
        _ => false,
    }
}

pub open spec fn is_maybe_uninit(env: &TypeEnv, t: usize) -> bool {
    has_substring(env.tys@[t as int].name@, "MaybeUninit"@)
}

/// A conversion from the type behind `from` to the type behind `to` lays one
/// type over another whose padding or fields it does not match: a generic
/// value over a primitive, an array or a struct without a stable layout, a
/// struct over a generic or over another unstable struct, an unstable struct
/// over a primitive or an array, and, for a transmute, a trait object over a
/// struct.
pub open spec fn cast_flagged(env: &TypeEnv, from: usize, to: usize, transmute: bool) -> bool {
    let f = pointee(env, from);
    let t = pointee(env, to);
    let fk = env.kind(f);
    let tk = env.kind(t);
    let same_name = env.tys@[f as int].name@ == env.tys@[t as int].name@;
    if is_param(fk) && !is_param(tk) && !is_usize(tk) && !is_c_void(tk) && (transmute || !ty_contains(env, t, f)) {
        no_candidates(env) && (is_primitive(tk) || is_arr_slice(tk) || (is_adt(tk) && !is_repr_transparent(tk)
            && !is_repr_c(tk)))
    } else if !is_param(fk) && is_param(tk) && (transmute || !ty_contains(env, f, t)) {
        no_candidates(env) && is_adt(fk) && !is_maybe_uninit(env, f)
    } else if is_adt(fk) && is_adt(tk) && !is_c_void(tk) {
        !is_repr_c(fk) && !is_repr_c(tk) && !is_repr_transparent(fk) && !is_repr_transparent(tk) && !same_name
            && !is_maybe_uninit(env, f)
    } else if ((is_adt(fk) && is_primitive(tk) && !is_usize(tk)) || (is_adt(fk) && is_arr_slice(tk)))
        && !is_maybe_uninit(env, f) {
        !is_repr_transparent(fk) && !is_repr_c(fk)
    } else {
        transmute && fk is Dynamic && is_adt(tk) && !is_c_void(tk)
    }
}

pub open spec fn cast_source(env: &TypeEnv, op: Operand, to: usize, transmute: bool) -> Seq<Mark> {
    match op {
        Operand::Copy(p) => if cast_flagged(env, p.ty, to, transmute) {
            seq![Mark::Source(p.local, BehaviorFlag { bits: if transmute { TRANSMUTE } else { CAST } })]
        } else {
            Seq::empty()
        },
        Operand::Move(p) => if cast_flagged(env, p.ty, to, transmute) {
            seq![Mark::Source(p.local, BehaviorFlag { bits: if transmute { TRANSMUTE } else { CAST } })]
        } else {
            Seq::empty()
        },
        Operand::Constant(_) => Seq::empty(),
    }
}

/// The steps that a right-hand side takes: a source for a mismatched
/// conversion, a sink for a read through a dereference.
pub open spec fn rvalue_marks(env: &TypeEnv, rv: Rvalue) -> Seq<Mark> {
    match rv {
        Rvalue::Cast(CastKind::PtrToPtr, op, to) => cast_source(env, op, to, false),
        Rvalue::Cast(CastKind::Transmute, op, to) => cast_source(env, op, to, true),
        Rvalue::Use(op) => operand_deref_sink(op),
        Rvalue::Repeat(op) => operand_deref_sink(op),
        Rvalue::ShallowInitBox(op) => operand_deref_sink(op),
        Rvalue::Ref(p) => deref_sink(p),
        Rvalue::AddressOf(p) => deref_sink(p),
        Rvalue::Len(p) => deref_sink(p),
        Rvalue::Discriminant(p) => deref_sink(p),
        Rvalue::CopyForDeref(p) => deref_sink(p),
        _ => Seq::empty(),
    }
}

pub open spec fn statement_marks(env: &TypeEnv, s: Statement) -> Seq<Mark> {
    match s.kind {
        StatementKind::Assign(lhs, rv) => deref_sink(lhs) + rvalue_marks(env, rv),
        StatementKind::Nop => Seq::empty(),
    }
}

pub open spec fn statement_lines(env: &TypeEnv, s: Statement, l: SpanList) -> Seq<usize> {
    match s.kind {
        StatementKind::Assign(lhs, rv) => step_lines(s.line, deref_sink(lhs), rvalue_marks(env, rv), rv is Cast, l),
        StatementKind::Nop => no_lines(),
    }
}

/// The lines recorded at a terminator: each sink of an unaligned read under
/// the uninitialized accesses, of a bypass call under its strength, and a
/// returned reference under the plain dereferences.
pub open spec fn terminator_lines(env: &TypeEnv, body: &Body, t: Terminator, l: SpanList) -> Seq<usize> {
    match t.kind {
        TerminatorKind::StaticCall { callee, args, .. } => if has_substring(callee.name@, "write_unaligned"@) {
            no_lines()
        } else if has_substring(callee.name@, "read_unaligned"@) {
            if l == SpanList::AccessUninit {
                repeat_line(t.line, arg_sinks(args@).len())
            } else {
                no_lines()
            }
        } else if (callee.bypass == Bypass::Strong && l == SpanList::StrongBypasses) || (callee.bypass
            == Bypass::Weak && l == SpanList::WeakBypasses) {
            repeat_line(t.line, arg_sinks(args@).len())
        } else {
            no_lines()
        },
        TerminatorKind::Return => if l == SpanList::PlainDeref && env.kind(body.local_decls@[0].ty) is Ref {
            seq![t.line]
        } else {
            no_lines()
        },
        _ => no_lines(),
    }
}

pub open spec fn terminator_marks(env: &TypeEnv, body: &Body, t: Terminator) -> Seq<Mark> {
    match t.kind {
        TerminatorKind::StaticCall { callee, args, dest, .. } => if has_substring(callee.name@, "write_unaligned"@) {
            seq![Mark::Clear(dest.local)]
        } else if has_substring(callee.name@, "read_unaligned"@) || callee.bypass == Bypass::Strong
            || callee.bypass == Bypass::Weak {
            arg_sinks(args@)
        } else {
            Seq::empty()
        },
        TerminatorKind::Return => if env.kind(body.local_decls@[0].ty) is Ref {
            seq![Mark::Sink(0)]
        } else {
            Seq::empty()
        },
        _ => Seq::empty(),
    }
}

/// Decides whether a conversion may expose uninitialized bytes.
pub fn is_cast_flagged(env: &TypeEnv, from: usize, to: usize, transmute: bool) -> (r: bool)
    requires
        env.wf(),
        from < env.n_tys(),
        to < env.n_tys(),
    ensures
        r == cast_flagged(env, from, to, transmute),
{
    let lc = LayoutChecker::new(env, from, to);
    let f = lc.get_from_ty();
    let t = lc.get_to_ty();
    let no_bound = lc.ty_bnd.len() == 0;
    proof {
        if lc.ty_bnd@.len() == 0 {
            assert forall|c: usize| !#[trigger] crate::analysis::is_candidate(env, c) by {
                assert(!lc.ty_bnd@.contains(c));
            }
        } else {
            assert(lc.ty_bnd@.contains(lc.ty_bnd@[0]));
            assert(crate::analysis::is_candidate(env, lc.ty_bnd@[0]));
        }
    }
    let (from_prim, to_prim) = lc.is_from_to_primitive();
    let (from_adt, to_adt) = lc.is_from_to_adt();
    let (from_gen, to_gen) = lc.is_from_to_generic();
    let (_from_arr, to_arr) = lc.is_from_to_arr_slice();
    let (from_trans, to_trans) = lc.is_from_to_transparent();
    let (from_c, to_c) = lc.is_from_to_c();
    let (from_dyn, _to_dyn) = lc.is_from_to_dyn();
    let to_usize = match &env.tys[t].kind {
        TyKind::Uint(crate::ty::UintTy::Usize) => true,
        _ => false,
    };
    let to_c_void = match &env.tys[t].kind {
        TyKind::Adt(d) => d.is_c_void,
        _ => false,
    };
    let from_maybe_uninit = contains_str(env.tys[f].name.as_str(), "MaybeUninit");
    if from_gen && !to_gen && !to_usize && !to_c_void && (transmute || !contains_ty(env, t, f)) {
        no_bound && (to_prim || to_arr || (to_adt && !to_trans && !to_c))
    } else if !from_gen && to_gen && (transmute || !contains_ty(env, f, t)) {
        no_bound && from_adt && !from_maybe_uninit
    } else if from_adt && to_adt && !to_c_void {
        let same_name = env.tys[f].name == env.tys[t].name;
        !from_c && !to_c && !from_trans && !to_trans && !same_name && !from_maybe_uninit
    } else if ((from_adt && to_prim && !to_usize) || (from_adt && to_arr)) && !from_maybe_uninit {
        !from_trans && !from_c
    } else {
        transmute && from_dyn && to_adt && !to_c_void
    }
}

fn push_cast_source(env: &TypeEnv, op: &Operand, to: usize, transmute: bool, out: &mut Vec<Mark>, lines: &mut Vec<usize>, line: usize)
    requires
        env.wf(),
        crate::ir::operand_ty(*op) < env.n_tys(),
        to < env.n_tys(),
    ensures
        final(out)@ == old(out)@ + cast_source(env, *op, to, transmute),
        final(lines)@ == old(lines)@ + repeat_line(line, cast_source(env, *op, to, transmute).len()),
{
    let bits = if transmute {
        TRANSMUTE
    } else {
        CAST
    };
    match op {
        Operand::Copy(p) => {
            if is_cast_flagged(env, p.ty, to, transmute) {
                out.push(Mark::Source(p.local, BehaviorFlag::from_bits(bits)));
                lines.push(line);
            }
        },
        Operand::Move(p) => {
            if is_cast_flagged(env, p.ty, to, transmute) {
                out.push(Mark::Source(p.local, BehaviorFlag::from_bits(bits)));
                lines.push(line);
            }
        },
        Operand::Constant(_) => {},
    }
    assert(out@ =~= old(out)@ + cast_source(env, *op, to, transmute));
    assert(lines@ =~= old(lines)@ + repeat_line(line, cast_source(env, *op, to, transmute).len()));
}

/// The uninitialized-exposure rules over one routine.
pub struct UninitExposurePolicy<'a> {
    pub env: &'a TypeEnv,
    pub body: &'a Body,
}

impl<'a> Policy for UninitExposurePolicy<'a> {
    open spec fn inv(&self) -> bool {
        self.env.wf() && self.body.wf() && self.body.tys_in(self.env.n_tys())
    }

    open spec fn n_slots(&self) -> nat {
        self.body.n_slots()
    }

    open spec fn statement_ok(&self, s: Statement) -> bool {
        statement_in(s, self.body.n_slots()) && statement_tys_in(s, self.env.n_tys())
    }

    open spec fn terminator_ok(&self, t: Terminator) -> bool {
        terminator_in(t, self.body.n_slots(), self.body.n_blocks()) && terminator_tys_in(t, self.env.n_tys())
    }

    open spec fn statement_marks(&self, s: Statement) -> Seq<Mark> {
        statement_marks(self.env, s)
    }

    open spec fn terminator_marks(&self, t: Terminator) -> Seq<Mark> {
        terminator_marks(self.env, self.body, t)
    }

    open spec fn statement_lines(&self, s: Statement, l: SpanList) -> Seq<usize> {
        statement_lines(self.env, s, l)
    }

    open spec fn terminator_lines(&self, t: Terminator, l: SpanList) -> Seq<usize> {
        terminator_lines(self.env, self.body, t, l)
    }

    fn statement(&self, s: &Statement, out: &mut Vec<Mark>, spans: &mut Spans) {
        let ghost start = out@;
        let ghost sp0 = *spans;
        match &s.kind {
            StatementKind::Assign(lhs, rv) => {
                push_deref_sink(lhs, out, &mut spans.plain_deref, s.line);
                match rv {
                    Rvalue::Cast(CastKind::PtrToPtr, op, to) => push_cast_source(self.env, op, *to, false, out, &mut spans.ty_convs, s.line),
                    Rvalue::Cast(CastKind::Transmute, op, to) => push_cast_source(self.env, op, *to, true, out, &mut spans.ty_convs, s.line),
                    Rvalue::Use(op) => push_operand_deref_sink(op, out, &mut spans.plain_deref, s.line),
                    Rvalue::Repeat(op) => push_operand_deref_sink(op, out, &mut spans.plain_deref, s.line),
                    Rvalue::ShallowInitBox(op) => push_operand_deref_sink(op, out, &mut spans.plain_deref, s.line),
                    Rvalue::Ref(p) => push_deref_sink(p, out, &mut spans.plain_deref, s.line),
                    Rvalue::AddressOf(p) => push_deref_sink(p, out, &mut spans.plain_deref, s.line),
                    Rvalue::Len(p) => push_deref_sink(p, out, &mut spans.plain_deref, s.line),
                    Rvalue::Discriminant(p) => push_deref_sink(p, out, &mut spans.plain_deref, s.line),
                    Rvalue::CopyForDeref(p) => push_deref_sink(p, out, &mut spans.plain_deref, s.line),
                    _ => {},
                }
                proof {
                    assert(out@ =~= start + statement_marks(self.env, *s));
                    assert forall|l: SpanList| #[trigger] spans.list(l) == sp0.list(l) + statement_lines(self.env, *s, l) by {
                        assert(spans.list(l) =~= sp0.list(l) + statement_lines(self.env, *s, l));
                    }
                    let ms = statement_marks(self.env, *s);
                    assert forall|i: int| 0 <= i < ms.len() implies #[trigger] mark_slot(ms[i]) < self.n_slots() by {
                        assert(statement_in(*s, self.body.n_slots()));
                    }
                }
            },
            StatementKind::Nop => {
                assert(out@ =~= start + statement_marks(self.env, *s));
                assert forall|l: SpanList| #[trigger] spans.list(l) == sp0.list(l) + statement_lines(self.env, *s, l) by {
                    assert(spans.list(l) =~= sp0.list(l) + statement_lines(self.env, *s, l));
                }
            },
        }
    }

    fn terminator(&self, t: &Terminator, out: &mut Vec<Mark>, spans: &mut Spans) {
        let ghost start = out@;
        let ghost sp0 = *spans;
        match &t.kind {
            TerminatorKind::StaticCall { callee, args, dest, .. } => {
                let name = callee.name.as_str();
                if contains_str(name, "write_unaligned") {
                    out.push(Mark::Clear(dest.local));
                } else if contains_str(name, "read_unaligned") {
                    push_arg_sinks(args, out, &mut spans.access_uninit, t.line);
                } else if callee.bypass == Bypass::Strong {
                    push_arg_sinks(args, out, &mut spans.strong_bypasses, t.line);
                } else if callee.bypass == Bypass::Weak {
                    push_arg_sinks(args, out, &mut spans.weak_bypasses, t.line);
                }
                proof {
                    lemma_arg_sinks_in(args@, self.body.n_slots());
                }
            },
            TerminatorKind::Return => {
                let ret_ty = self.body.local_decls[0].ty;
                match &self.env.tys[ret_ty].kind {
                    TyKind::Ref(_) => {
                        out.push(Mark::Sink(0));
                        spans.plain_deref.push(t.line);
                    },
                    _ => {},
                }
            },
            _ => {},
        }
        assert(out@ =~= start + terminator_marks(self.env, self.body, *t));
        assert forall|l: SpanList| #[trigger] spans.list(l) == sp0.list(l) + terminator_lines(self.env, self.body, *t, l) by {
            assert(spans.list(l) =~= sp0.list(l) + terminator_lines(self.env, self.body, *t, l));
        }
    }
}

/// What the checker found in one routine.
#[derive(Debug)]
pub struct UninitExposureStatus {
    pub behavior_flag: BehaviorFlag,
    pub spans: Spans,
}

impl UninitExposureStatus {
    pub fn behavior_flag(&self) -> (r: BehaviorFlag)
        ensures
            r == self.behavior_flag,
    {
        self.behavior_flag
    }

    pub fn strong_bypass_spans(&self) -> (r: &Vec<usize>)
        ensures
            r == &self.spans.strong_bypasses,
    {
        &self.spans.strong_bypasses
    }

    pub fn weak_bypass_spans(&self) -> (r: &Vec<usize>)
        ensures
            r == &self.spans.weak_bypasses,
    {
        &self.spans.weak_bypasses
    }

    pub fn plain_deref_spans(&self) -> (r: &Vec<usize>)
        ensures
            r == &self.spans.plain_deref,
    {
        &self.spans.plain_deref
    }

    pub fn unresolvable_generic_function_spans(&self) -> (r: &Vec<usize>)
        ensures
            r == &self.spans.unresolvable_generic_functions,
    {
        &self.spans.unresolvable_generic_functions
    }

    pub fn ty_conv_spans(&self) -> (r: &Vec<usize>)
        ensures
            r == &self.spans.ty_convs,
    {
        &self.spans.ty_convs
    }

    pub fn access_uninit_spans(&self) -> (r: &Vec<usize>)
        ensures
            r == &self.spans.access_uninit,
    {
        &self.spans.access_uninit
    }
}

/// Marks conversions between mismatched layouts as sources and reads
/// through dereferences, unaligned reads, lifetime-bypassing calls and
/// returned references as sinks, then propagates.
pub fn analyze(env: &TypeEnv, body: &Body) -> (r: UninitExposureStatus)
    requires
        env.wf(),
        body.wf(),
        body.tys_in(env.n_tys()),
    ensures
        r.behavior_flag.bits == marks_result(body, policy_marks(&(UninitExposurePolicy { env, body }), body.basic_blocks@)),
        forall|l: SpanList| #[trigger] r.spans.list(l) == policy_lines(&(UninitExposurePolicy { env, body }), body.basic_blocks@, l),
{
    let policy = UninitExposurePolicy { env, body };
    let mut spans = Spans::new();
    proof {
        assert forall|b: int, i: int|
            0 <= b < body.basic_blocks@.len() && 0 <= i < body.basic_blocks@[b].statements@.len()
                implies policy.statement_ok(#[trigger] body.basic_blocks@[b].statements@[i]) by {
            assert(statement_in(body.basic_blocks@[b].statements@[i], body.n_slots()));
        }
        assert forall|b: int| 0 <= b < body.basic_blocks@.len() implies policy.terminator_ok(
            #[trigger] body.basic_blocks@[b].terminator,
        ) by {
            assert(terminator_in(body.basic_blocks@[b].terminator, body.n_slots(), body.n_blocks()));
        }
    }
    let ms = collect_marks(&policy, body, &mut spans);
    proof {
        assert forall|l: SpanList| #[trigger] spans.list(l) == policy_lines(&policy, body.basic_blocks@, l) by {
            assert(spans.list(l) =~= no_lines() + policy_lines(&policy, body.basic_blocks@, l));
        }
    }
    let behavior_flag = run_marks(body, &ms);
    UninitExposureStatus { behavior_flag, spans }
}

/// Analyses a routine that contains unsafe code; a safe routine has no
/// finding, and an unsafe one is left to its callers.
pub fn analyze_body(env: &TypeEnv, body: &Body, unsafety: Unsafety) -> (r: Option<UninitExposureStatus>)
    requires
        env.wf(),
        body.wf(),
        body.tys_in(env.n_tys()),
    ensures
        unsafety == Unsafety::UnsafeFn ==> r is None,
        unsafety == Unsafety::Safe ==> (r matches Some(st) && st.behavior_flag.bits == 0 && st.spans.all_empty()),
        unsafety == Unsafety::ContainsUnsafe ==> (r matches Some(st) && st.behavior_flag.bits == marks_result(body, policy_marks(&(UninitExposurePolicy { env, body }), body.basic_blocks@))
            && forall|l: SpanList| #[trigger] st.spans.list(l) == policy_lines(&(UninitExposurePolicy { env, body }), body.basic_blocks@, l)),
{
    match unsafety {
        Unsafety::UnsafeFn => None,
        Unsafety::ContainsUnsafe => Some(analyze(env, body)),
        Unsafety::Safe => Some(UninitExposureStatus { behavior_flag: BehaviorFlag::empty(), spans: Spans::new() }),
    }
}

/// What can go wrong while the checker reports.
#[derive(Clone, Copy, Debug, PartialEq, Eq, Structural)]
pub enum UninitExposureError {
    PushPopBlock,
    ResolveError,
    InvalidSpan,
}

impl UninitExposureError {
    pub fn kind(&self) -> (r: crate::analysis::AnalysisErrorKind)
        ensures
            r == (match self {
                UninitExposureError::ResolveError => crate::analysis::AnalysisErrorKind::OutOfScope,
                _ => crate::analysis::AnalysisErrorKind::Unreachable,
            }),
    {
        match self {
            UninitExposureError::PushPopBlock => crate::analysis::AnalysisErrorKind::Unreachable,
            UninitExposureError::ResolveError => crate::analysis::AnalysisErrorKind::OutOfScope,
            UninitExposureError::InvalidSpan => crate::analysis::AnalysisErrorKind::Unreachable,
        }
    }
}

} // verus!

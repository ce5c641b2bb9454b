//! The comparators of layout and value domain that every checker consults,
//! and the resolver of trait bounds they fall back on for type parameters.

pub mod broken_bitpatterns;
pub mod broken_layout;
pub mod err_handling;
pub mod overflow;
pub mod truncation;
pub mod uninit_exposure;
pub mod unsafe_dataflow;

use vstd::prelude::*;
use crate::taint::BehaviorFlag;
use crate::ty::{
    FloatTy, Layout, TyKind, TypeEnv, UintTy, contains_str, get_pointee, has_substring, pointee,
};

verus! {

/// How an error met during an analysis is treated.
#[derive(Clone, Copy, Debug, PartialEq, Eq, Structural)]
pub enum AnalysisErrorKind {
    /// A broken internal invariant: the routine is abandoned.
    Unreachable,
    /// A construct not modelled yet: the routine is analysed in part.
    Unimplemented,
    /// A limitation by design: the routine is skipped.
    OutOfScope,
}

/// The pattern a finding belongs to, with its causes.
#[derive(Clone, Copy, Debug, PartialEq, Eq, Structural)]
pub enum AnalysisKind {
    BrokenLayout(BehaviorFlag),
    UninitExposure(BehaviorFlag),
    BrokenBitPatterns(BehaviorFlag),
    ErrHandle(BehaviorFlag),
    Truncation(BehaviorFlag),
    Overflow(BehaviorFlag),
    UnsafeDataflow(BehaviorFlag),
}

impl AnalysisKind {
    /// The heading of a report of this kind.
    pub fn label(&self) -> (r: &'static str)
        ensures
            r@ == kind_label(*self)@,
    {
        match self {
            AnalysisKind::BrokenLayout(_) => "BrokenLayout:",
            AnalysisKind::UninitExposure(_) => "UninitExposure:",
            AnalysisKind::BrokenBitPatterns(_) => "BrokenBitPatterns:",
            AnalysisKind::ErrHandle(_) => "ErrHandle:",
            AnalysisKind::Truncation(_) => "Truncation:",
            AnalysisKind::Overflow(_) => "Overflow:",
            AnalysisKind::UnsafeDataflow(_) => "UnsafeDataflow:",
        }
    }
}

pub open spec fn kind_label(k: AnalysisKind) -> &'static str {
    match k {
        AnalysisKind::BrokenLayout(_) => "BrokenLayout:",
        AnalysisKind::UninitExposure(_) => "UninitExposure:",
        AnalysisKind::BrokenBitPatterns(_) => "BrokenBitPatterns:",
        AnalysisKind::ErrHandle(_) => "ErrHandle:",
        AnalysisKind::Truncation(_) => "Truncation:",
        AnalysisKind::Overflow(_) => "Overflow:",
        AnalysisKind::UnsafeDataflow(_) => "UnsafeDataflow:",
    }
}

/// How the first of two quantities stands to the second. `NoideaG`: at
/// least as large as an unknown second; `NoideaL`: at most as large.
#[derive(Clone, Copy, Debug, PartialEq, Eq, Structural)]
pub enum Comparison {
    Less,
    Equal,
    Greater,
    Noidea,
    NoideaG,
    NoideaL,
}

pub open spec fn compare(a: int, b: int) -> Comparison {
    if a < b {
        Comparison::Less
    } else if a == b {
        Comparison::Equal
    } else {
        Comparison::Greater
    }
}

fn cmp_u64(a: u64, b: u64) -> (r: Comparison)
    ensures
        r == compare(a as int, b as int),
{
    if a < b {
        Comparison::Less
    } else if a == b {
        Comparison::Equal
    } else {
        Comparison::Greater
    }
}

pub open spec fn is_param(k: TyKind) -> bool {
    k is Param
}

pub open spec fn is_usize(k: TyKind) -> bool {
    match k {
        TyKind::Uint(UintTy::Usize) => true,
        _ => false,
    }
}

/// The 8-byte integer and float types that one reference target aligns to 4
/// bytes only.
pub open spec fn is_weakly_aligned(k: TyKind) -> bool {
    match k {
        TyKind::Uint(UintTy::U64) => true,
        TyKind::Float(FloatTy::Double) => true,
        _ => false,
    }
}

/// `c_void` or an extern type: a layout nobody relies on.
pub open spec fn is_opaque(k: TyKind) -> bool {
    match k {
        TyKind::Adt(d) => d.is_c_void,
        TyKind::Foreign => true,
        _ => false,
    }
}

/// Neither a type parameter nor a generic struct or enum.
pub open spec fn is_concrete(k: TyKind) -> bool {
    match k {
        TyKind::Param(_) => false,
        TyKind::Adt(d) => d.args@.len() == 0,
        _ => true,
    }
}

/// A domain that not every bit pattern belongs to.
pub open spec fn is_narrow(k: TyKind) -> bool {
    match k {
        TyKind::Bool => true,
        TyKind::Str => true,
        TyKind::Char => true,
        TyKind::Adt(d) => d.is_enum,
        _ => false,
    }
}

/// Numbers, characters and text.
pub open spec fn is_wide(k: TyKind) -> bool {
    match k {
        TyKind::Int(_) => true,
        TyKind::Uint(_) => true,
        TyKind::Float(_) => true,
        TyKind::Str => true,
        TyKind::Char => true,
        _ => false,
    }
}

fn kind_is_param(k: &TyKind) -> (r: bool)
    ensures
        r == is_param(*k),
{
    match k {
        TyKind::Param(_) => true,
        _ => false,
    }
}

fn kind_is_usize(k: &TyKind) -> (r: bool)
    ensures
        r == is_usize(*k),
{
    match k {
        TyKind::Uint(UintTy::Usize) => true,
        _ => false,
    }
}

fn kind_is_weakly_aligned(k: &TyKind) -> (r: bool)
    ensures
        r == is_weakly_aligned(*k),
{
    match k {
        TyKind::Uint(UintTy::U64) => true,
        TyKind::Float(FloatTy::Double) => true,
        _ => false,
    }
}

fn kind_is_opaque(k: &TyKind) -> (r: bool)
    ensures
        r == is_opaque(*k),
{
    match k {
        TyKind::Adt(d) => d.is_c_void,
        TyKind::Foreign => true,
        _ => false,
    }
}

fn kind_is_concrete(k: &TyKind) -> (r: bool)
    ensures
        r == is_concrete(*k),
{
    match k {
        TyKind::Param(_) => false,
        TyKind::Adt(d) => d.args.len() == 0,
        _ => true,
    }
}

fn kind_is_narrow(k: &TyKind) -> (r: bool)
    ensures
        r == is_narrow(*k),
{
    match k {
        TyKind::Bool => true,
        TyKind::Str => true,
        TyKind::Char => true,
        TyKind::Adt(d) => d.is_enum,
        _ => false,
    }
}

fn kind_is_wide(k: &TyKind) -> (r: bool)
    ensures
        r == is_wide(*k),
{
    match k {
        TyKind::Int(_) => true,
        TyKind::Uint(_) => true,
        TyKind::Float(_) => true,
        TyKind::Str => true,
        TyKind::Char => true,
        _ => false,
    }
}

/// The size in bytes that a type's printed name suggests, for types whose
/// layout the compiler cannot give.
pub open spec fn external_size(name: Seq<char>) -> Option<u64> {
    if has_substring(name, "bool"@) || has_substring(name, "i8"@) || has_substring(name, "u8"@) {
        Some(1)
    } else if has_substring(name, "i16"@) || has_substring(name, "u16"@) {
        Some(2)
    } else if has_substring(name, "i32"@) || has_substring(name, "u32"@) || has_substring(name, "f32"@)
        || has_substring(name, "char"@) {
        Some(4)
    } else if has_substring(name, "u64"@) || has_substring(name, "i64"@) || has_substring(name, "f64"@) {
        Some(8)
    } else if has_substring(name, "u128"@) || has_substring(name, "i128"@) {
        Some(16)
    } else {
        None
    }
}

/// Guesses the size of a type from its name.
pub fn get_external(env: &TypeEnv, t: usize) -> (r: Option<u64>)
    requires
        t < env.n_tys(),
    ensures
        r == external_size(env.tys@[t as int].name@),
{
    let name = env.tys[t].name.as_str();
    if contains_str(name, "bool") || contains_str(name, "i8") || contains_str(name, "u8") {
        Some(1)
    } else if contains_str(name, "i16") || contains_str(name, "u16") {
        Some(2)
    } else if contains_str(name, "i32") || contains_str(name, "u32") || contains_str(name, "f32")
        || contains_str(name, "char") {
        Some(4)
    } else if contains_str(name, "u64") || contains_str(name, "i64") || contains_str(name, "f64") {
        Some(8)
    } else if contains_str(name, "u128") || contains_str(name, "i128") {
        Some(16)
    } else {
        None
    }
}

/// `c` is the receiver of a positive implementation of a trait that bounds
/// the routine's parameters, and is concrete.
pub open spec fn is_candidate(env: &TypeEnv, c: usize) -> bool {
    &&& c < env.n_tys()
    &&& is_concrete(env.kind(c))
    &&& exists|i: int|
        0 <= i < env.impls@.len() && (#[trigger] env.impls@[i]).self_ty == c && env.impls@[i].positive
            && env.caller_bounds@.contains(env.impls@[i].trait_id)
}

/// No bound gives any candidate: a parameter may be any type.
pub open spec fn no_candidates(env: &TypeEnv) -> bool {
    forall|c: usize| !#[trigger] is_candidate(env, c)
}

/// The concrete types that the routine's trait bounds admit.
pub struct TraitChecker {
    pub trait_set: Vec<usize>,
}

impl TraitChecker {
    /// Collects, for every bound of the routine, the concrete receivers of
    /// its positive implementations.
    pub fn new(env: &TypeEnv) -> (r: TraitChecker)
        requires
            env.wf(),
        ensures
            r.trait_set@.no_duplicates(),
            forall|c: usize| r.trait_set@.contains(c) <==> is_candidate(env, c),
    {
        let mut set: Vec<usize> = Vec::new();
        let mut i: usize = 0;
        while i < env.impls.len()
            invariant
                env.wf(),
                i <= env.impls@.len(),
                set@.no_duplicates(),
                forall|c: usize| set@.contains(c) <==> (c < env.n_tys() && is_concrete(env.kind(c)) && exists|k: int|
                    0 <= k < i && (#[trigger] env.impls@[k]).self_ty == c && env.impls@[k].positive
                        && env.caller_bounds@.contains(env.impls@[k].trait_id)),
            decreases env.impls@.len() - i,
        {
            let imp = env.impls[i];
            let ghost before = set@;
            if imp.positive && crate::graph::list_contains(&env.caller_bounds, imp.trait_id) && kind_is_concrete(
                &env.tys[imp.self_ty].kind,
            ) && !crate::graph::list_contains(&set, imp.self_ty) {
                set.push(imp.self_ty);
                proof {
                    assert forall|x: int, y: int| 0 <= x < y < set@.len() implies set@[x] != set@[y] by {
                        if y == set@.len() - 1 {
                            assert(set@[x] == before[x]);
                            assert(before.contains(before[x]));
                        }
                    }
                }
            }
            proof {
                assert forall|c: usize| set@.contains(c) <==> (c < env.n_tys() && is_concrete(env.kind(c)) && exists|k: int|
                    0 <= k < i + 1 && (#[trigger] env.impls@[k]).self_ty == c && env.impls@[k].positive
                        && env.caller_bounds@.contains(env.impls@[k].trait_id)) by {
                    if set@.contains(c) && !before.contains(c) {
                        let j = choose|j: int| 0 <= j < set@.len() && set@[j] == c;
                        assert(j == before.len());
                        assert(env.impls@[i as int].self_ty == c);
                    }
                    if before.contains(c) {
                        let j = choose|j: int| 0 <= j < before.len() && before[j] == c;
                        assert(set@[j] == c);
                    }
                    if (c < env.n_tys() && is_concrete(env.kind(c)) && exists|k: int|
                        0 <= k < i + 1 && (#[trigger] env.impls@[k]).self_ty == c && env.impls@[k].positive
                            && env.caller_bounds@.contains(env.impls@[k].trait_id)) {
                        let k = choose|k: int|
                            0 <= k < i + 1 && (#[trigger] env.impls@[k]).self_ty == c && env.impls@[k].positive
                                && env.caller_bounds@.contains(env.impls@[k].trait_id);
                        if k == i && !before.contains(c) {
                            assert(set@[before.len() as int] == c);
                        }
                    }
                }
            }
            i = i + 1;
        }
        proof {
            assert forall|c: usize| set@.contains(c) <==> is_candidate(env, c) by {}
        }
        TraitChecker { trait_set: set }
    }

    /// The candidate types, each once.
    pub fn get_satisfied_ty(&self) -> (r: Vec<usize>)
        ensures
            r@ == self.trait_set@,
    {
        let mut r: Vec<usize> = Vec::new();
        let mut i: usize = 0;
        while i < self.trait_set.len()
            invariant
                i <= self.trait_set@.len(),
                r@ == self.trait_set@.subrange(0, i as int),
            decreases self.trait_set@.len() - i,
        {
            r.push(self.trait_set[i]);
            i = i + 1;
            assert(r@ =~= self.trait_set@.subrange(0, i as int));
        }
        assert(self.trait_set@.subrange(0, i as int) =~= self.trait_set@);
        r
    }

    /// No bound restricts the parameters: they may be any type.
    pub fn is_ty_arbitrary(&self) -> (r: bool)
        ensures
            r == (self.trait_set@.len() == 0),
    {
        self.trait_set.len() == 0
    }
}

pub open spec fn layout_of(env: &TypeEnv, t: usize) -> Option<Layout> {
    env.tys@[t as int].layout
}

/// The alignment ordinal of two stripped types, without looking through
/// trait bounds: a type parameter on the unknown side gives `Noidea`.
pub open spec fn direct_align(env: &TypeEnv, f: usize, t: usize) -> Comparison {
    let fk = env.kind(f);
    let tk = env.kind(t);
    match (layout_of(env, f), layout_of(env, t)) {
        (Some(fl), Some(tl)) => {
            let base = compare(fl.align as int, tl.align as int);
            let adjusted = if base != Comparison::Less && is_weakly_aligned(fk) && 4 < tl.align {
                Comparison::Less
            } else {
                base
            };
            if is_usize(tk) || is_opaque(fk) {
                Comparison::Noidea
            } else {
                adjusted
            }
        },
        (Some(fl), None) => {
            if is_opaque(fk) || is_param(tk) {
                Comparison::Noidea
            } else {
                match external_size(env.tys@[t as int].name@) {
                    Some(e) => compare(fl.align as int, e as int),
                    None => Comparison::Noidea,
                }
            }
        },
        (None, Some(tl)) => {
            if is_usize(tk) || is_param(fk) {
                Comparison::Noidea
            } else {
                match external_size(env.tys@[f as int].name@) {
                    Some(e) => compare(e as int, tl.align as int),
                    None => Comparison::Noidea,
                }
            }
        },
        (None, None) => Comparison::Noidea,
    }
}

/// The alignment ordinal of two stripped types, a type parameter being
/// resolved through the routine's trait bounds: with no candidate it may be
/// any type; otherwise a candidate that gives `Less` decides.
pub open spec fn align_status(env: &TypeEnv, f: usize, t: usize) -> Comparison {
    let fk = env.kind(f);
    let tk = env.kind(t);
    match (layout_of(env, f), layout_of(env, t)) {
        (Some(fl), None) => if is_param(tk) && !is_opaque(fk) {
            if no_candidates(env) {
                Comparison::Less
            } else if exists|c: usize| #[trigger] is_candidate(env, c) && direct_align(env, f, pointee(env, c))
                == Comparison::Less {
                Comparison::Less
            } else {
                Comparison::Noidea
            }
        } else {
            direct_align(env, f, t)
        },
        (None, Some(tl)) => if is_param(fk) && !is_usize(tk) {
            if no_candidates(env) {
                if tl.align == 1 {
                    Comparison::NoideaG
                } else {
                    Comparison::Less
                }
            } else if exists|c: usize| #[trigger] is_candidate(env, c) && direct_align(env, pointee(env, c), t)
                == Comparison::Less {
                Comparison::Less
            } else {
                Comparison::Noidea
            }
        } else {
            direct_align(env, f, t)
        },
        _ => direct_align(env, f, t),
    }
}

/// The size ordinal of two stripped types.
pub open spec fn size_status(env: &TypeEnv, f: usize, t: usize) -> Comparison {
    match (layout_of(env, f), layout_of(env, t)) {
        (Some(fl), Some(tl)) => compare(fl.size as int, tl.size as int),
        (Some(fl), None) => if fl.size == 1 {
            Comparison::NoideaL
        } else {
            Comparison::Noidea
        },
        (None, Some(tl)) => if tl.size == 1 {
            Comparison::NoideaG
        } else {
            Comparison::Noidea
        },
        (None, None) => Comparison::Noidea,
    }
}

fn direct_align_status(env: &TypeEnv, f: usize, t: usize) -> (r: Comparison)
    requires
        f < env.n_tys(),
        t < env.n_tys(),
    ensures
        r == direct_align(env, f, t),
{
    let fk = &env.tys[f].kind;
    let tk = &env.tys[t].kind;
    match (env.tys[f].layout, env.tys[t].layout) {
        (Some(fl), Some(tl)) => {
            let base = cmp_u64(fl.align, tl.align);
            let adjusted = if base != Comparison::Less && kind_is_weakly_aligned(fk) && 4 < tl.align {
                Comparison::Less
            } else {
                base
            };
            if kind_is_usize(tk) || kind_is_opaque(fk) {
                Comparison::Noidea
            } else {
                adjusted
            }
        },
        (Some(fl), None) => {
            if kind_is_opaque(fk) || kind_is_param(tk) {
                Comparison::Noidea
            } else {
                match get_external(env, t) {
                    Some(e) => cmp_u64(fl.align, e),
                    None => Comparison::Noidea,
                }
            }
        },
        (None, Some(tl)) => {
            if kind_is_usize(tk) || kind_is_param(fk) {
                Comparison::Noidea
            } else {
                match get_external(env, f) {
                    Some(e) => cmp_u64(e, tl.align),
                    None => Comparison::Noidea,
                }
            }
        },
        (None, None) => Comparison::Noidea,
    }
}

pub open spec fn is_primitive(k: TyKind) -> bool {
    match k {
        TyKind::Bool => true,
        TyKind::Char => true,
        TyKind::Int(_) => true,
        TyKind::Uint(_) => true,
        TyKind::Float(_) => true,
        TyKind::Str => true,
        _ => false,
    }
}

pub open spec fn is_arr_slice(k: TyKind) -> bool {
    k is Array || k is Slice
}

pub open spec fn is_adt(k: TyKind) -> bool {
    k is Adt
}

pub open spec fn is_repr_transparent(k: TyKind) -> bool {
    match k {
        TyKind::Adt(d) => d.repr_transparent,
        _ => false,
    }
}

pub open spec fn is_repr_c(k: TyKind) -> bool {
    match k {
        TyKind::Adt(d) => d.repr_c,
        _ => false,
    }
}

/// The layout ordinals of one conversion, on the types behind its pointers.
pub struct LayoutChecker<'a> {
    pub env: &'a TypeEnv,
    pub from_ty: usize,
    pub to_ty: usize,
    pub fty_layout: bool,
    pub tty_layout: bool,
    pub align_status: Comparison,
    pub size_status: Comparison,
    pub ty_bnd: Vec<usize>,
}

/// Some listed candidate, stripped, gives `Less` against the known side.
fn candidate_gives_less(env: &TypeEnv, cands: &Vec<usize>, f: usize, t: usize, generic_from: bool) -> (r: bool)
    requires
        env.wf(),
        f < env.n_tys(),
        t < env.n_tys(),
        forall|i: int| 0 <= i < cands@.len() ==> #[trigger] cands@[i] < env.n_tys(),
    ensures
        r == exists|c: usize| #[trigger] cands@.contains(c) && (if generic_from {
            direct_align(env, pointee(env, c), t)
        } else {
            direct_align(env, f, pointee(env, c))
        }) == Comparison::Less,
{
    let mut i: usize = 0;
    while i < cands.len()
        invariant
            env.wf(),
            f < env.n_tys(),
            t < env.n_tys(),
            forall|i: int| 0 <= i < cands@.len() ==> #[trigger] cands@[i] < env.n_tys(),
            i <= cands@.len(),
            forall|k: int| 0 <= k < i ==> (if generic_from {
                direct_align(env, pointee(env, #[trigger] cands@[k]), t)
            } else {
                direct_align(env, f, pointee(env, cands@[k]))
            }) != Comparison::Less,
        decreases cands@.len() - i,
    {
        let c = get_pointee(env, cands[i]);
        let st = if generic_from {
            direct_align_status(env, c, t)
        } else {
            direct_align_status(env, f, c)
        };
        if st == Comparison::Less {
            assert(cands@.contains(cands@[i as int]));
            return true;
        }
        i = i + 1;
    }
    false
}

impl<'a> LayoutChecker<'a> {
    /// Compares the alignment and size of the types behind `f_ty` and `t_ty`.
    pub fn new(env: &'a TypeEnv, f_ty: usize, t_ty: usize) -> (r: LayoutChecker<'a>)
        requires
            env.wf(),
            f_ty < env.n_tys(),
            t_ty < env.n_tys(),
        ensures
            r.env == env,
            r.from_ty == pointee(env, f_ty),
            r.to_ty == pointee(env, t_ty),
            r.from_ty <= f_ty,
            r.to_ty <= t_ty,
            r.fty_layout == (layout_of(env, r.from_ty) is Some),
            r.tty_layout == (layout_of(env, r.to_ty) is Some),
            r.align_status == align_status(env, r.from_ty, r.to_ty),
            r.size_status == size_status(env, r.from_ty, r.to_ty),
            r.ty_bnd@.no_duplicates(),
            forall|c: usize| r.ty_bnd@.contains(c) <==> is_candidate(env, c),
    {
        let f = get_pointee(env, f_ty);
        let t = get_pointee(env, t_ty);
        let tc = TraitChecker::new(env);
        let cands = tc.trait_set;
        proof {
            assert forall|i: int| 0 <= i < cands@.len() implies #[trigger] cands@[i] < env.n_tys() by {
                assert(cands@.contains(cands@[i]));
                assert(is_candidate(env, cands@[i]));
            }
        }
        let fk = &env.tys[f].kind;
        let tk = &env.tys[t].kind;
        let fl = env.tys[f].layout;
        let tl = env.tys[t].layout;
        let align = match (fl, tl) {
            (Some(_), None) => {
                if kind_is_param(tk) && !kind_is_opaque(fk) {
                    if cands.len() == 0 {
                        Comparison::Less
                    } else if candidate_gives_less(env, &cands, f, t, false) {
                        Comparison::Less
                    } else {
                        Comparison::Noidea
                    }
                } else {
                    direct_align_status(env, f, t)
                }
            },
            (None, Some(l)) => {
                if kind_is_param(fk) && !kind_is_usize(tk) {
                    if cands.len() == 0 {
                        if l.align == 1 {
                            Comparison::NoideaG
                        } else {
                            Comparison::Less
                        }
                    } else if candidate_gives_less(env, &cands, f, t, true) {
                        Comparison::Less
                    } else {
                        Comparison::Noidea
                    }
                } else {
                    direct_align_status(env, f, t)
                }
            },
            _ => direct_align_status(env, f, t),
        };
        let size = match (fl, tl) {
            (Some(a), Some(b)) => cmp_u64(a.size, b.size),
            (Some(a), None) => if a.size == 1 {
                Comparison::NoideaL
            } else {
                Comparison::Noidea
            },
            (None, Some(b)) => if b.size == 1 {
                Comparison::NoideaG
            } else {
                Comparison::Noidea
            },
            (None, None) => Comparison::Noidea,
        };
        proof {
            if cands@.len() == 0 {
                assert forall|c: usize| !#[trigger] is_candidate(env, c) by {
                    assert(!cands@.contains(c));
                }
            } else {
                assert(cands@.contains(cands@[0]));
                assert(is_candidate(env, cands@[0]));
            }
            if exists|c: usize| #[trigger] is_candidate(env, c) && direct_align(env, f, pointee(env, c)) == Comparison::Less {
                let c = choose|c: usize| #[trigger] is_candidate(env, c) && direct_align(env, f, pointee(env, c)) == Comparison::Less;
                assert(cands@.contains(c));
            }
            if exists|c: usize| #[trigger] cands@.contains(c) && direct_align(env, f, pointee(env, c)) == Comparison::Less {
                let c = choose|c: usize| #[trigger] cands@.contains(c) && direct_align(env, f, pointee(env, c)) == Comparison::Less;
                assert(is_candidate(env, c));
            }
            if exists|c: usize| #[trigger] is_candidate(env, c) && direct_align(env, pointee(env, c), t) == Comparison::Less {
                let c = choose|c: usize| #[trigger] is_candidate(env, c) && direct_align(env, pointee(env, c), t) == Comparison::Less;
                assert(cands@.contains(c));
            }
            if exists|c: usize| #[trigger] cands@.contains(c) && direct_align(env, pointee(env, c), t) == Comparison::Less {
                let c = choose|c: usize| #[trigger] cands@.contains(c) && direct_align(env, pointee(env, c), t) == Comparison::Less;
                assert(is_candidate(env, c));
            }
        }
        LayoutChecker {
            env,
            from_ty: f,
            to_ty: t,
            fty_layout: fl.is_some(),
            tty_layout: tl.is_some(),
            align_status: align,
            size_status: size,
            ty_bnd: cands,
        }
    }

    pub fn get_align_status(&self) -> (r: Comparison)
        ensures
            r == self.align_status,
    {
        self.align_status
    }

    pub fn get_size_status(&self) -> (r: Comparison)
        ensures
            r == self.size_status,
    {
        self.size_status
    }

    pub fn get_ty_bnd(&self) -> (r: Vec<usize>)
        ensures
            r@ == self.ty_bnd@,
    {
        let mut r: Vec<usize> = Vec::new();
        let mut i: usize = 0;
        while i < self.ty_bnd.len()
            invariant
                i <= self.ty_bnd@.len(),
                r@ == self.ty_bnd@.subrange(0, i as int),
            decreases self.ty_bnd@.len() - i,
        {
            r.push(self.ty_bnd[i]);
            i = i + 1;
            assert(r@ =~= self.ty_bnd@.subrange(0, i as int));
        }
        assert(self.ty_bnd@.subrange(0, i as int) =~= self.ty_bnd@);
        r
    }

    pub fn get_from_ty(&self) -> (r: usize)
        ensures
            r == self.from_ty,
    {
        self.from_ty
    }

    pub fn get_to_ty(&self) -> (r: usize)
        ensures
            r == self.to_ty,
    {
        self.to_ty
    }

    pub fn is_fty_layout_spec(&self) -> (r: bool)
        ensures
            r == self.fty_layout,
    {
        self.fty_layout
    }

    pub fn is_tty_layout_spec(&self) -> (r: bool)
        ensures
            r == self.tty_layout,
    {
        self.tty_layout
    }

    pub fn get_from_ty_name(&self) -> (r: String)
        requires
            self.from_ty < self.env.n_tys(),
        ensures
            r@ == self.env.tys@[self.from_ty as int].name@,
    {
        self.env.tys[self.from_ty].name.clone()
    }

    pub fn get_to_ty_name(&self) -> (r: String)
        requires
            self.to_ty < self.env.n_tys(),
        ensures
            r@ == self.env.tys@[self.to_ty as int].name@,
    {
        self.env.tys[self.to_ty].name.clone()
    }
}

impl<'a> LayoutChecker<'a> {
    pub open spec fn kinds(&self) -> (TyKind, TyKind) {
        (self.env.kind(self.from_ty), self.env.kind(self.to_ty))
    }

    pub fn is_from_to_primitive(&self) -> (r: (bool, bool))
        requires
            self.from_ty < self.env.n_tys(),
            self.to_ty < self.env.n_tys(),
        ensures
            r == (is_primitive(self.kinds().0), is_primitive(self.kinds().1)),
    {
        (kind_is_primitive(&self.env.tys[self.from_ty].kind), kind_is_primitive(&self.env.tys[self.to_ty].kind))
    }

    pub fn is_from_to_arr_slice(&self) -> (r: (bool, bool))
        requires
            self.from_ty < self.env.n_tys(),
            self.to_ty < self.env.n_tys(),
        ensures
            r == (is_arr_slice(self.kinds().0), is_arr_slice(self.kinds().1)),
    {
        (kind_is_arr_slice(&self.env.tys[self.from_ty].kind), kind_is_arr_slice(&self.env.tys[self.to_ty].kind))
    }

    pub fn is_from_to_adt(&self) -> (r: (bool, bool))
        requires
            self.from_ty < self.env.n_tys(),
            self.to_ty < self.env.n_tys(),
        ensures
            r == (is_adt(self.kinds().0), is_adt(self.kinds().1)),
    {
        (kind_is_adt(&self.env.tys[self.from_ty].kind), kind_is_adt(&self.env.tys[self.to_ty].kind))
    }

    pub fn is_from_to_transparent(&self) -> (r: (bool, bool))
        requires
            self.from_ty < self.env.n_tys(),
            self.to_ty < self.env.n_tys(),
        ensures
            r == (is_repr_transparent(self.kinds().0), is_repr_transparent(self.kinds().1)),
    {
        let is_from = match &self.env.tys[self.from_ty].kind {
            TyKind::Adt(d) => d.repr_transparent,
            _ => false,
        };
        let is_to = match &self.env.tys[self.to_ty].kind {
            TyKind::Adt(d) => d.repr_transparent,
            _ => false,
        };
        (is_from, is_to)
    }

    pub fn is_from_to_c(&self) -> (r: (bool, bool))
        requires
            self.from_ty < self.env.n_tys(),
            self.to_ty < self.env.n_tys(),
        ensures
            r == (is_repr_c(self.kinds().0), is_repr_c(self.kinds().1)),
    {
        let is_from = match &self.env.tys[self.from_ty].kind {
            TyKind::Adt(d) => d.repr_c,
            _ => false,
        };
        let is_to = match &self.env.tys[self.to_ty].kind {
            TyKind::Adt(d) => d.repr_c,
            _ => false,
        };
        (is_from, is_to)
    }

    pub fn is_from_to_generic(&self) -> (r: (bool, bool))
        requires
            self.from_ty < self.env.n_tys(),
            self.to_ty < self.env.n_tys(),
        ensures
            r == (is_param(self.kinds().0), is_param(self.kinds().1)),
    {
        (kind_is_param(&self.env.tys[self.from_ty].kind), kind_is_param(&self.env.tys[self.to_ty].kind))
    }

    pub fn is_from_to_foreign(&self) -> (r: (bool, bool))
        requires
            self.from_ty < self.env.n_tys(),
            self.to_ty < self.env.n_tys(),
        ensures
            r == (self.kinds().0 is Foreign, self.kinds().1 is Foreign),
    {
        let is_from = match &self.env.tys[self.from_ty].kind {
            TyKind::Foreign => true,
            _ => false,
        };
        let is_to = match &self.env.tys[self.to_ty].kind {
            TyKind::Foreign => true,
            _ => false,
        };
        (is_from, is_to)
    }

    pub fn is_from_to_dyn(&self) -> (r: (bool, bool))
        requires
            self.from_ty < self.env.n_tys(),
            self.to_ty < self.env.n_tys(),
        ensures
            r == (self.kinds().0 is Dynamic, self.kinds().1 is Dynamic),
    {
        let is_from = match &self.env.tys[self.from_ty].kind {
            TyKind::Dynamic => true,
            _ => false,
        };
        let is_to = match &self.env.tys[self.to_ty].kind {
            TyKind::Dynamic => true,
            _ => false,
        };
        (is_from, is_to)
    }
}

fn kind_is_primitive(k: &TyKind) -> (r: bool)
    ensures
        r == is_primitive(*k),
{
    match k {
        TyKind::Bool => true,
        TyKind::Char => true,
        TyKind::Int(_) => true,
        TyKind::Uint(_) => true,
        TyKind::Float(_) => true,
        TyKind::Str => true,
        _ => false,
    }
}

fn kind_is_arr_slice(k: &TyKind) -> (r: bool)
    ensures
        r == is_arr_slice(*k),
{
    match k {
        TyKind::Array(_) => true,
        TyKind::Slice(_) => true,
        _ => false,
    }
}

fn kind_is_adt(k: &TyKind) -> (r: bool)
    ensures
        r == is_adt(*k),
{
    match k {
        TyKind::Adt(_) => true,
        _ => false,
    }
}

/// The value-domain ordinal of two stripped types: `Less` where a generic or
/// opaque value may land in a narrow domain (a boolean, a character, text,
/// an enum), or a wide concrete value in a generic one that may be narrow.
pub open spec fn value_status(env: &TypeEnv, f: usize, t: usize) -> Comparison {
    let fk = env.kind(f);
    let tk = env.kind(t);
    if (is_param(fk) || is_opaque(fk)) && !is_param(tk) && !is_opaque(tk) {
        if no_candidates(env) {
            if is_narrow(tk) {
                Comparison::Less
            } else {
                Comparison::Noidea
            }
        } else if is_narrow(tk) && exists|c: usize| #[trigger] is_candidate(env, c) && is_wide(env.kind(c)) {
            Comparison::Less
        } else {
            Comparison::Noidea
        }
    } else if !is_param(fk) && is_param(tk) {
        if no_candidates(env) {
            if is_wide(fk) {
                Comparison::Less
            } else {
                Comparison::Noidea
            }
        } else if is_wide(fk) && exists|c: usize| #[trigger] is_candidate(env, c) && is_narrow(env.kind(c)) {
            Comparison::Less
        } else {
            Comparison::Noidea
        }
    } else {
        Comparison::Noidea
    }
}

/// The value-domain ordinal of one conversion.
pub struct ValueChecker<'a> {
    pub env: &'a TypeEnv,
    pub from_ty: usize,
    pub to_ty: usize,
    pub value_status: Comparison,
}

impl<'a> ValueChecker<'a> {
    /// Judges whether converting `f_ty` to `t_ty` may narrow the set of
    /// values, on the types behind their pointers.
    pub fn new(env: &'a TypeEnv, f_ty: usize, t_ty: usize) -> (r: ValueChecker<'a>)
        requires
            env.wf(),
            f_ty < env.n_tys(),
            t_ty < env.n_tys(),
        ensures
            r.env == env,
            r.from_ty == pointee(env, f_ty),
            r.to_ty == pointee(env, t_ty),
            r.from_ty <= f_ty,
            r.to_ty <= t_ty,
            r.value_status == value_status(env, r.from_ty, r.to_ty),
    {
        let lc = LayoutChecker::new(env, f_ty, t_ty);
        let f = lc.get_from_ty();
        let t = lc.get_to_ty();
        let cands = lc.get_ty_bnd();
        let (from_gen, to_gen) = lc.is_from_to_generic();
        let fk = &env.tys[f].kind;
        let tk = &env.tys[t].kind;
        proof {
            assert forall|i: int| 0 <= i < cands@.len() implies #[trigger] cands@[i] < env.n_tys() by {
                assert(cands@.contains(cands@[i]));
                assert(is_candidate(env, cands@[i]));
            }
        }
        let mut found = false;
        let status = if (from_gen || kind_is_opaque(fk)) && !to_gen && !kind_is_opaque(tk) {
            if cands.len() == 0 {
                if kind_is_narrow(tk) {
                    Comparison::Less
                } else {
                    Comparison::Noidea
                }
            } else {
                let mut i: usize = 0;
                while i < cands.len()
                    invariant
                        forall|k: int| 0 <= k < cands@.len() ==> #[trigger] cands@[k] < env.n_tys(),
                        i <= cands@.len(),
                        found == exists|k: int| 0 <= k < i && is_wide(env.kind(#[trigger] cands@[k])),
                    decreases cands@.len() - i,
                {
                    if kind_is_wide(&env.tys[cands[i]].kind) {
                        found = true;
                    }
                    i = i + 1;
                }
                if found && kind_is_narrow(tk) {
                    Comparison::Less
                } else {
                    Comparison::Noidea
                }
            }
        } else if !from_gen && to_gen {
            if cands.len() == 0 {
                if kind_is_wide(fk) {
                    Comparison::Less
                } else {
                    Comparison::Noidea
                }
            } else {
                let mut i: usize = 0;
                while i < cands.len()
                    invariant
                        forall|k: int| 0 <= k < cands@.len() ==> #[trigger] cands@[k] < env.n_tys(),
                        i <= cands@.len(),
                        found == exists|k: int| 0 <= k < i && is_narrow(env.kind(#[trigger] cands@[k])),
                    decreases cands@.len() - i,
                {
                    if kind_is_narrow(&env.tys[cands[i]].kind) {
                        found = true;
                    }
                    i = i + 1;
                }
                if found && kind_is_wide(fk) {
                    Comparison::Less
                } else {
                    Comparison::Noidea
                }
            }
        } else {
            Comparison::Noidea
        };
        proof {
            if cands@.len() == 0 {
                assert forall|c: usize| !#[trigger] is_candidate(env, c) by {
                    assert(!cands@.contains(c));
                }
            } else {
                assert(cands@.contains(cands@[0]));
                assert(is_candidate(env, cands@[0]));
            }
            if exists|c: usize| #[trigger] is_candidate(env, c) && is_wide(env.kind(c)) {
                let c = choose|c: usize| #[trigger] is_candidate(env, c) && is_wide(env.kind(c));
                assert(cands@.contains(c));
                let k = choose|k: int| 0 <= k < cands@.len() && cands@[k] == c;
                assert(is_wide(env.kind(cands@[k])));
            }
            if exists|k: int| 0 <= k < cands@.len() && is_wide(env.kind(#[trigger] cands@[k])) {
                let k = choose|k: int| 0 <= k < cands@.len() && is_wide(env.kind(#[trigger] cands@[k]));
                assert(cands@.contains(cands@[k]));
                assert(is_candidate(env, cands@[k]));
            }
            if exists|c: usize| #[trigger] is_candidate(env, c) && is_narrow(env.kind(c)) {
                let c = choose|c: usize| #[trigger] is_candidate(env, c) && is_narrow(env.kind(c));
                assert(cands@.contains(c));
                let k = choose|k: int| 0 <= k < cands@.len() && cands@[k] == c;
                assert(is_narrow(env.kind(cands@[k])));
            }
            if exists|k: int| 0 <= k < cands@.len() && is_narrow(env.kind(#[trigger] cands@[k])) {
                let k = choose|k: int| 0 <= k < cands@.len() && is_narrow(env.kind(#[trigger] cands@[k]));
                assert(cands@.contains(cands@[k]));
                assert(is_candidate(env, cands@[k]));
            }
        }
        ValueChecker { env, from_ty: f, to_ty: t, value_status: status }
    }

    pub fn get_val_status(&self) -> (r: Comparison)
        ensures
            r == self.value_status,
    {
        self.value_status
    }
}

/// For two types whose layouts are both known, each ordinal is one of Less,
/// Equal and Greater, and swapping the types swaps Less and Greater and keeps
/// Equal. Left out are the conversions that the layout rules treat apart: to
/// `usize`, from `c_void` or an extern type, and from the 8-byte integer or
/// float that one target aligns to 4 bytes.
pub proof fn lemma_layout_ordinal_totality(env: &TypeEnv, a: usize, b: usize)
    requires
        env.wf(),
        a < env.n_tys(),
        b < env.n_tys(),
        layout_of(env, pointee(env, a)) is Some,
        layout_of(env, pointee(env, b)) is Some,
        !is_usize(env.kind(pointee(env, a))),
        !is_usize(env.kind(pointee(env, b))),
        !is_opaque(env.kind(pointee(env, a))),
        !is_opaque(env.kind(pointee(env, b))),
        !is_weakly_aligned(env.kind(pointee(env, a))),
        !is_weakly_aligned(env.kind(pointee(env, b))),
    ensures
        ({
            let (pa, pb) = (pointee(env, a), pointee(env, b));
            let (al, al_swapped) = (align_status(env, pa, pb), align_status(env, pb, pa));
            let (sz, sz_swapped) = (size_status(env, pa, pb), size_status(env, pb, pa));
            &&& (al == Comparison::Less || al == Comparison::Equal || al == Comparison::Greater)
            &&& (sz == Comparison::Less || sz == Comparison::Equal || sz == Comparison::Greater)
            &&& (al == Comparison::Less <==> al_swapped == Comparison::Greater)
            &&& (al == Comparison::Greater <==> al_swapped == Comparison::Less)
            &&& (al == Comparison::Equal <==> al_swapped == Comparison::Equal)
            &&& (sz == Comparison::Less <==> sz_swapped == Comparison::Greater)
            &&& (sz == Comparison::Greater <==> sz_swapped == Comparison::Less)
            &&& (sz == Comparison::Equal <==> sz_swapped == Comparison::Equal)
        }),
{
}

} // verus!

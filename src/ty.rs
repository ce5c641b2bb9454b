//! The types that meet at a conversion, as the compiler reports them: an
//! interned table in which a type names its parts by their number.

use vstd::prelude::*;

verus! {

#[derive(Clone, Copy, Debug, PartialEq, Eq, Structural)]
pub enum IntTy {
    Isize,
    I8,
    I16,
    I32,
    I64,
    I128,
}

#[derive(Clone, Copy, Debug, PartialEq, Eq, Structural)]
pub enum UintTy {
    Usize,
    U8,
    U16,
    U32,
    U64,
    U128,
}

#[derive(Clone, Copy, Debug, PartialEq, Eq, Structural)]
pub enum FloatTy {
    Single,
    Double,
}

/// A struct, enum or union.
#[derive(Debug)]
pub struct AdtDef {
    pub is_enum: bool,
    /// `#[repr(C)]`.
    pub repr_c: bool,
    /// `#[repr(transparent)]`.
    pub repr_transparent: bool,
    /// The foreign `c_void` type.
    pub is_c_void: bool,
    /// The generic arguments, by number.
    pub args: Vec<usize>,
}

#[derive(Debug)]
pub enum TyKind {
    Bool,
    Char,
    Int(IntTy),
    Uint(UintTy),
    Float(FloatTy),
    Str,
    Array(usize),
    Slice(usize),
    Adt(AdtDef),
    /// A type parameter of the routine.
    Param(u32),
    /// An extern type.
    Foreign,
    RawPtr(usize),
    Ref(usize),
    /// A trait object.
    Dynamic,
    Other,
}

/// Size and alignment in bytes.
#[derive(Clone, Copy, Debug, PartialEq, Eq, Structural)]
pub struct Layout {
    pub size: u64,
    pub align: u64,
}

#[derive(Debug)]
pub struct TyData {
    pub kind: TyKind,
    /// The type as the compiler prints it.
    pub name: String,
    /// Known where the compiler can compute it for this routine.
    pub layout: Option<Layout>,
}

/// An implementation of trait `trait_id` for type `self_ty`.
#[derive(Clone, Copy, Debug, PartialEq, Eq, Structural)]
pub struct TraitImpl {
    pub trait_id: usize,
    pub self_ty: usize,
    /// Not a negative (`impl !Trait`) implementation.
    pub positive: bool,
}

/// The type table of one routine, the traits its parameters are bound by,
/// and the trait implementations in view.
#[derive(Debug)]
pub struct TypeEnv {
    pub tys: Vec<TyData>,
    pub caller_bounds: Vec<usize>,
    pub impls: Vec<TraitImpl>,
}

/// Every part of type `t` has a smaller number.
pub open spec fn parts_below(k: TyKind, t: usize) -> bool {
    match k {
        TyKind::Array(i) => i < t,
        TyKind::Slice(i) => i < t,
        TyKind::RawPtr(i) => i < t,
        TyKind::Ref(i) => i < t,
        TyKind::Adt(d) => forall|j: int| 0 <= j < d.args@.len() ==> #[trigger] d.args@[j] < t,
        _ => true,
    }
}

impl TypeEnv {
    pub open spec fn n_tys(&self) -> nat {
        self.tys@.len()
    }

    pub open spec fn kind(&self, t: usize) -> TyKind {
        self.tys@[t as int].kind
    }

    pub open spec fn wf(&self) -> bool {
        &&& forall|t: usize| t < self.n_tys() ==> #[trigger] parts_below(self.kind(t), t)
        &&& forall|i: int| 0 <= i < self.impls@.len() ==> #[trigger] self.impls@[i].self_ty < self.n_tys()
    }
}

/// The type behind every layer of pointers and references.
pub open spec fn pointee(env: &TypeEnv, t: usize) -> usize
    decreases t,
{
    match env.kind(t) {
        TyKind::RawPtr(i) => if i < t {
            pointee(env, i)
        } else {
            t
        },
        TyKind::Ref(i) => if i < t {
            pointee(env, i)
        } else {
            t
        },
        _ => t,
    }
}

pub proof fn lemma_pointee_below(env: &TypeEnv, t: usize)
    ensures
        pointee(env, t) <= t,
    decreases t,
{
    match env.kind(t) {
        TyKind::RawPtr(i) => if i < t {
            lemma_pointee_below(env, i);
        },
        TyKind::Ref(i) => if i < t {
            lemma_pointee_below(env, i);
        },
        _ => {},
    }
}

/// Strips raw pointers and references down to the first other layer.
pub fn get_pointee(env: &TypeEnv, t: usize) -> (r: usize)
    requires
        t < env.n_tys(),
    ensures
        r == pointee(env, t),
        r <= t,
{
    let mut cur = t;
    proof {
        lemma_pointee_below(env, t);
    }
    loop
        invariant
            cur <= t,
            t < env.n_tys(),
            pointee(env, cur) == pointee(env, t),
        decreases cur,
    {
        match &env.tys[cur].kind {
            TyKind::RawPtr(i) => {
                if *i < cur {
                    cur = *i;
                } else {
                    return cur;
                }
            },
            TyKind::Ref(i) => {
                if *i < cur {
                    cur = *i;
                } else {
                    return cur;
                }
            },
            _ => {
                return cur;
            },
        }
    }
}

/// `x` occurs in `t`: it is `t`, or a part of `t`, at any depth.
pub open spec fn ty_contains(env: &TypeEnv, t: usize, x: usize) -> bool
    decreases t, 1nat, 0nat,
{
    t == x || match env.kind(t) {
        TyKind::Array(i) => i < t && ty_contains(env, i, x),
        TyKind::Slice(i) => i < t && ty_contains(env, i, x),
        TyKind::RawPtr(i) => i < t && ty_contains(env, i, x),
        TyKind::Ref(i) => i < t && ty_contains(env, i, x),
        TyKind::Adt(d) => args_contain(env, d.args@, d.args@.len(), t, x),
        _ => false,
    }
}

/// `x` occurs in one of the first `k` arguments below `t`.
pub open spec fn args_contain(env: &TypeEnv, args: Seq<usize>, k: nat, t: usize, x: usize) -> bool
    decreases t, 0nat, k,
{
    if k == 0 || k > args.len() {
        false
    } else {
        args_contain(env, args, (k - 1) as nat, t, x) || (args[k - 1] < t && ty_contains(env, args[k - 1], x))
    }
}

/// Whether `x` occurs in `t`.
pub fn contains_ty(env: &TypeEnv, t: usize, x: usize) -> (r: bool)
    requires
        t < env.n_tys(),
    ensures
        r == ty_contains(env, t, x),
    decreases t,
{
    if t == x {
        return true;
    }
    match &env.tys[t].kind {
        TyKind::Array(i) => *i < t && contains_ty(env, *i, x),
        TyKind::Slice(i) => *i < t && contains_ty(env, *i, x),
        TyKind::RawPtr(i) => *i < t && contains_ty(env, *i, x),
        TyKind::Ref(i) => *i < t && contains_ty(env, *i, x),
        TyKind::Adt(d) => {
            let mut j: usize = 0;
            let mut found = false;
            while j < d.args.len()
                invariant
                    t < env.n_tys(),
                    j <= d.args@.len(),
                    found == args_contain(env, d.args@, j as nat, t, x),
                decreases d.args@.len() - j,
            {
                let a = d.args[j];
                if a < t && contains_ty(env, a, x) {
                    found = true;
                }
                j = j + 1;
            }
            found
        },
        _ => false,
    }
}

/// `p` occurs in `s` as a run of consecutive characters.
pub open spec fn has_substring(s: Seq<char>, p: Seq<char>) -> bool {
    exists|i: int| 0 <= i && i + p.len() <= s.len() && #[trigger] s.subrange(i, i + p.len()) == p
}

/// Whether `pat` occurs in `s`.
pub fn contains_str(s: &str, pat: &str) -> (r: bool)
    ensures
        r == has_substring(s@, pat@),
{
    let n = s.unicode_len();
    let m = pat.unicode_len();
    if m > n {
        proof {
            assert forall|i: int| 0 <= i && i + pat@.len() <= s@.len() implies #[trigger] s@.subrange(
                i,
                i + pat@.len(),
            ) != pat@ by {}
        }
        return false;
    }
    let mut i: usize = 0;
    while i <= n - m
        invariant
            n == s@.len(),
            m == pat@.len(),
            m <= n,
            i <= n - m + 1,
            forall|k: int| 0 <= k < i ==> #[trigger] s@.subrange(k, k + m) != pat@,
        decreases n - m + 1 - i,
    {
        let mut j: usize = 0;
        let mut same = true;
        while j < m
            invariant
                n == s@.len(),
                m == pat@.len(),
                i + m <= n,
                j <= m,
                same == (forall|k: int| 0 <= k < j ==> s@[i + k] == pat@[k]),
                !same ==> exists|k: int| 0 <= k < m && s@[i + k] != pat@[k],
            decreases m - j,
        {
            if s.get_char(i + j) != pat.get_char(j) {
                same = false;
            }
            j = j + 1;
        }
        if same {
            assert(s@.subrange(i as int, i + m) =~= pat@);
            return true;
        }
        proof {
            let k = choose|k: int| 0 <= k < m && s@[i + k] != pat@[k];
            assert(s@.subrange(i as int, i + m)[k] != pat@[k]);
        }
        i = i + 1;
    }
    proof {
        assert forall|k: int| 0 <= k && k + pat@.len() <= s@.len() implies #[trigger] s@.subrange(
            k,
            k + pat@.len(),
        ) != pat@ by {
            assert(k < i);
        }
    }
    false
}

fn all_below(args: &Vec<usize>, t: usize) -> (r: bool)
    ensures
        r == forall|j: int| 0 <= j < args@.len() ==> #[trigger] args@[j] < t,
{
    let mut j: usize = 0;
    while j < args.len()
        invariant
            j <= args@.len(),
            forall|k: int| 0 <= k < j ==> #[trigger] args@[k] < t,
        decreases args@.len() - j,
    {
        if args[j] >= t {
            assert(!(args@[j as int] < t));
            return false;
        }
        j = j + 1;
    }
    true
}

fn parts_are_below(k: &TyKind, t: usize) -> (r: bool)
    ensures
        r == parts_below(*k, t),
{
    match k {
        TyKind::Array(i) => *i < t,
        TyKind::Slice(i) => *i < t,
        TyKind::RawPtr(i) => *i < t,
        TyKind::Ref(i) => *i < t,
        TyKind::Adt(d) => all_below(&d.args, t),
        _ => true,
    }
}

impl TypeEnv {
    /// Whether every type names its parts by smaller numbers and every
    /// implementation names a type of the table.
    pub fn is_wf(&self) -> (r: bool)
        ensures
            r == self.wf(),
    {
        let n = self.tys.len();
        let mut t: usize = 0;
        while t < n
            invariant
                n == self.n_tys(),
                t <= n,
                forall|u: usize| u < t ==> #[trigger] parts_below(self.kind(u), u),
            decreases n - t,
        {
            if !parts_are_below(&self.tys[t].kind, t) {
                assert(!parts_below(self.kind(t), t));
                return false;
            }
            t = t + 1;
        }
        let mut i: usize = 0;
        while i < self.impls.len()
            invariant
                n == self.n_tys(),
                forall|u: usize| u < n ==> #[trigger] parts_below(self.kind(u), u),
                i <= self.impls@.len(),
                forall|k: int| 0 <= k < i ==> #[trigger] self.impls@[k].self_ty < n,
            decreases self.impls@.len() - i,
        {
            if self.impls[i].self_ty >= n {
                assert(!(self.impls@[i as int].self_ty < self.n_tys()));
                return false;
            }
            i = i + 1;
        }
        true
    }
}

} // verus!

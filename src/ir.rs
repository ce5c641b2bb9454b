//! The simplified control-flow graph of one routine: basic blocks of
//! statements and one terminator each, over variable slots numbered from 0
//! (slot 0 holds the return value, slots `1..=arg_count` the arguments).

use vstd::prelude::*;
use crate::graph::{edge, graph_wf, list_contains, path_between, path_to, reachable_within, reaches, reaches_within};

verus! {

/// A slot, possibly behind a dereference.
#[derive(Clone, Copy, Debug, PartialEq, Eq, Structural)]
pub struct Place {
    pub local: usize,
    pub is_indirect: bool,
    /// The type of the place, after its projections.
    pub ty: usize,
}

/// A constant operand: its type, and its value where it is a known `usize`.
#[derive(Clone, Copy, Debug, PartialEq, Eq, Structural)]
pub struct Constant {
    pub ty: usize,
    pub usize_value: Option<u64>,
}

#[derive(Clone, Copy, Debug, PartialEq, Eq, Structural)]
pub enum Operand {
    Copy(Place),
    Move(Place),
    Constant(Constant),
}

#[derive(Clone, Copy, Debug, PartialEq, Eq, Structural)]
pub enum CastKind {
    PtrToPtr,
    Transmute,
    Other,
}

#[derive(Clone, Copy, Debug, PartialEq, Eq, Structural)]
pub enum BinOp {
    Add,
    Sub,
    Mul,
    Div,
    Other,
}

/// The right-hand side of an assignment.
#[derive(Debug)]
pub enum Rvalue {
    Use(Operand),
    Repeat(Operand),
    ShallowInitBox(Operand),
    /// A conversion of the operand to the type with the given number.
    Cast(CastKind, Operand, usize),
    Ref(Place),
    AddressOf(Place),
    Len(Place),
    Discriminant(Place),
    CopyForDeref(Place),
    BinaryOp(BinOp, Operand, Operand),
    CheckedBinaryOp(BinOp, Operand, Operand),
    /// A composite value; `range_full` marks the `..` range.
    Aggregate { range_full: bool, operands: Vec<Operand> },
    Other,
}

#[derive(Debug)]
pub enum StatementKind {
    Assign(Place, Rvalue),
    Nop,
}

#[derive(Debug)]
pub struct Statement {
    pub kind: StatementKind,
    /// Source line, 0 where unknown.
    pub line: usize,
}

/// Where a called function stands in the tables of risky library calls.
#[derive(Clone, Copy, Debug, PartialEq, Eq, Structural)]
pub enum Bypass {
    NotListed,
    Strong,
    Weak,
    GenericFn,
    StrUnchecked,
}

/// What the analyses know of a statically known callee.
#[derive(Debug)]
pub struct Callee {
    /// The last segment of the callee's path.
    pub name: String,
    pub bypass: Bypass,
    /// The cause that the bypass tables give the callee.
    pub bypass_flag: u16,
    /// The call resolves to one concrete instance.
    pub resolved: bool,
    /// A pointer read or write whose pointee is a `Copy` type.
    pub on_copy: bool,
    pub is_vec_set_len: bool,
}

#[derive(Debug)]
pub enum TerminatorKind {
    Goto(usize),
    Return,
    StaticCall { callee: Callee, args: Vec<Operand>, dest: Place, target: Option<usize> },
    SwitchInt { discr: Operand, targets: Vec<usize> },
    FnPtr { target: Option<usize> },
    Drop(usize),
    /// A shape the model does not cover, kept with its successors.
    Unimplemented(Vec<usize>),
}

#[derive(Debug)]
pub struct Terminator {
    pub kind: TerminatorKind,
    pub line: usize,
}

#[derive(Debug)]
pub struct BasicBlock {
    pub statements: Vec<Statement>,
    pub terminator: Terminator,
    pub is_cleanup: bool,
}

#[derive(Clone, Copy, Debug, PartialEq, Eq, Structural)]
pub struct LocalDecl {
    pub ty: usize,
}

/// Where `unsafe` stands in a routine.
#[derive(Clone, Copy, Debug, PartialEq, Eq, Structural)]
pub enum Unsafety {
    /// No unsafe code: the routine is taken as sound.
    Safe,
    /// A safe routine with an unsafe block: the routine is analysed.
    ContainsUnsafe,
    /// An unsafe routine: its callers carry the obligations.
    UnsafeFn,
}

/// A routine with its two derived graphs.
#[derive(Debug)]
pub struct Body {
    pub local_decls: Vec<LocalDecl>,
    pub arg_count: usize,
    pub basic_blocks: Vec<BasicBlock>,
    /// Slot `u` lists each slot that its value flows into in one step.
    pub place_neighbor_list: Vec<Vec<usize>>,
    /// Block `b` lists the blocks its terminator may jump to.
    pub bb_neighbor_list: Vec<Vec<usize>>,
}

pub open spec fn operand_slot(op: Operand) -> Option<usize> {
    match op {
        Operand::Copy(p) => Some(p.local),
        Operand::Move(p) => Some(p.local),
        Operand::Constant(_) => None,
    }
}

/// The right-hand side names slot `u`.
pub open spec fn rvalue_reads(rv: Rvalue, u: usize) -> bool {
    match rv {
        Rvalue::Use(op) => operand_slot(op) == Some(u),
        Rvalue::Repeat(op) => operand_slot(op) == Some(u),
        Rvalue::ShallowInitBox(op) => operand_slot(op) == Some(u),
        Rvalue::Cast(_, op, _) => operand_slot(op) == Some(u),
        Rvalue::Ref(p) => p.local == u,
        Rvalue::AddressOf(p) => p.local == u,
        Rvalue::Len(p) => p.local == u,
        Rvalue::Discriminant(p) => p.local == u,
        Rvalue::CopyForDeref(p) => p.local == u,
        Rvalue::BinaryOp(_, a, b) => operand_slot(a) == Some(u) || operand_slot(b) == Some(u),
        Rvalue::CheckedBinaryOp(_, a, b) => operand_slot(a) == Some(u) || operand_slot(b) == Some(u),
        Rvalue::Aggregate { operands, .. } => exists|i: int|
            0 <= i < operands@.len() && operand_slot(#[trigger] operands@[i]) == Some(u),
        Rvalue::Other => false,
    }
}

/// One statement moves the value of `u` into `v`.
pub open spec fn statement_flows(s: Statement, u: usize, v: usize) -> bool {
    match s.kind {
        StatementKind::Assign(lhs, rv) => lhs.local == v && rvalue_reads(rv, u),
        StatementKind::Nop => false,
    }
}

/// A call passes `u` as an argument and writes its result into `v`.
pub open spec fn terminator_flows(t: Terminator, u: usize, v: usize) -> bool {
    match t.kind {
        TerminatorKind::StaticCall { args, dest, .. } => dest.local == v && exists|i: int|
            0 <= i < args@.len() && operand_slot(#[trigger] args@[i]) == Some(u),
        _ => false,
    }
}

pub open spec fn block_flows(b: BasicBlock, u: usize, v: usize) -> bool {
    (exists|i: int| 0 <= i < b.statements@.len() && #[trigger] statement_flows(b.statements@[i], u, v))
        || terminator_flows(b.terminator, u, v)
}

/// Some statement or call of the routine moves the value of `u` into `v`.
pub open spec fn place_flow(bbs: Seq<BasicBlock>, u: usize, v: usize) -> bool {
    exists|b: int| 0 <= b < bbs.len() && #[trigger] block_flows(bbs[b], u, v)
}

pub open spec fn option_seq(t: Option<usize>) -> Seq<usize> {
    match t {
        Some(x) => seq![x],
        None => Seq::empty(),
    }
}

/// The blocks a terminator may jump to.
pub open spec fn successors(k: TerminatorKind) -> Seq<usize> {
    match k {
        TerminatorKind::Goto(t) => seq![t],
        TerminatorKind::Return => Seq::empty(),
        TerminatorKind::StaticCall { target, .. } => option_seq(target),
        TerminatorKind::SwitchInt { targets, .. } => targets@,
        TerminatorKind::FnPtr { target } => option_seq(target),
        TerminatorKind::Drop(t) => seq![t],
        TerminatorKind::Unimplemented(ts) => ts@,
    }
}

pub open spec fn operand_in(op: Operand, n: nat) -> bool {
    match operand_slot(op) {
        Some(u) => u < n,
        None => true,
    }
}

pub open spec fn rvalue_in(rv: Rvalue, n: nat) -> bool {
    match rv {
        Rvalue::Use(op) => operand_in(op, n),
        Rvalue::Repeat(op) => operand_in(op, n),
        Rvalue::ShallowInitBox(op) => operand_in(op, n),
        Rvalue::Cast(_, op, _) => operand_in(op, n),
        Rvalue::Ref(p) => p.local < n,
        Rvalue::AddressOf(p) => p.local < n,
        Rvalue::Len(p) => p.local < n,
        Rvalue::Discriminant(p) => p.local < n,
        Rvalue::CopyForDeref(p) => p.local < n,
        Rvalue::BinaryOp(_, a, b) => operand_in(a, n) && operand_in(b, n),
        Rvalue::CheckedBinaryOp(_, a, b) => operand_in(a, n) && operand_in(b, n),
        Rvalue::Aggregate { operands, .. } => forall|i: int|
            0 <= i < operands@.len() ==> operand_in(#[trigger] operands@[i], n),
        Rvalue::Other => true,
    }
}

pub open spec fn statement_in(s: Statement, n: nat) -> bool {
    match s.kind {
        StatementKind::Assign(lhs, rv) => lhs.local < n && rvalue_in(rv, n),
        StatementKind::Nop => true,
    }
}

pub open spec fn terminator_in(t: Terminator, n: nat, nb: nat) -> bool {
    &&& forall|i: int| 0 <= i < successors(t.kind).len() ==> #[trigger] successors(t.kind)[i] < nb
    &&& match t.kind {
        TerminatorKind::StaticCall { args, dest, .. } => dest.local < n && forall|i: int|
            0 <= i < args@.len() ==> operand_in(#[trigger] args@[i], n),
        TerminatorKind::SwitchInt { discr, .. } => operand_in(discr, n),
        _ => true,
    }
}

/// Every slot that the blocks name is below `n`, every jump lands on a block.
pub open spec fn blocks_in(bbs: Seq<BasicBlock>, n: nat) -> bool {
    &&& forall|b: int, i: int|
        0 <= b < bbs.len() && 0 <= i < bbs[b].statements@.len() ==> #[trigger] statement_in(bbs[b].statements@[i], n)
    &&& forall|b: int| 0 <= b < bbs.len() ==> terminator_in(#[trigger] bbs[b].terminator, n, bbs.len())
}

/// The slots an operand names, as a list.
fn operand_slots(op: &Operand, out: &mut Vec<usize>)
    ensures
        final(out)@ == old(out)@ + option_seq(operand_slot(*op)),
{
    match op {
        Operand::Copy(p) => out.push(p.local),
        Operand::Move(p) => out.push(p.local),
        Operand::Constant(_) => {},
    }
    proof {
        assert(final(out)@ =~= old(out)@ + option_seq(operand_slot(*op)));
    }
}

/// The slots that a right-hand side names.
fn rvalue_slots(rv: &Rvalue) -> (r: Vec<usize>)
    ensures
        forall|u: usize| r@.contains(u) <==> rvalue_reads(*rv, u),
{
    let mut r: Vec<usize> = Vec::new();
    match rv {
        Rvalue::Use(op) => operand_slots(op, &mut r),
        Rvalue::Repeat(op) => operand_slots(op, &mut r),
        Rvalue::ShallowInitBox(op) => operand_slots(op, &mut r),
        Rvalue::Cast(_, op, _) => operand_slots(op, &mut r),
        Rvalue::Ref(p) => r.push(p.local),
        Rvalue::AddressOf(p) => r.push(p.local),
        Rvalue::Len(p) => r.push(p.local),
        Rvalue::Discriminant(p) => r.push(p.local),
        Rvalue::CopyForDeref(p) => r.push(p.local),
        Rvalue::BinaryOp(_, a, b) => {
            operand_slots(a, &mut r);
            operand_slots(b, &mut r);
        },
        Rvalue::CheckedBinaryOp(_, a, b) => {
            operand_slots(a, &mut r);
            operand_slots(b, &mut r);
        },
        Rvalue::Aggregate { operands, .. } => {
            let mut i: usize = 0;
            while i < operands.len()
                invariant
                    i <= operands@.len(),
                    forall|u: usize| r@.contains(u) <==> exists|k: int|
                        0 <= k < i && operand_slot(#[trigger] operands@[k]) == Some(u),
                decreases operands@.len() - i,
            {
                let ghost before = r@;
                assert(forall|u: usize| before.contains(u) <==> exists|k: int|
                    0 <= k < i && operand_slot(#[trigger] operands@[k]) == Some(u));
                operand_slots(&operands[i], &mut r);
                proof {
                    assert forall|u: usize| r@.contains(u) <==> exists|k: int|
                        0 <= k < i + 1 && operand_slot(#[trigger] operands@[k]) == Some(u) by {
                        if r@.contains(u) && !before.contains(u) {
                            let j = choose|j: int| 0 <= j < r@.len() && r@[j] == u;
                            assert(j >= before.len());
                            assert(operand_slot(operands@[i as int]) == Some(u));
                        }
                        if exists|k: int| 0 <= k < i + 1 && operand_slot(#[trigger] operands@[k]) == Some(u) {
                            let k = choose|k: int| 0 <= k < i + 1 && operand_slot(#[trigger] operands@[k]) == Some(u);
                            if k == i {
                                assert(r@[before.len() as int] == u);
                            } else {
                                assert(before.contains(u));
                                let j = choose|j: int| 0 <= j < before.len() && before[j] == u;
                                assert(r@[j] == u);
                            }
                        }
                        if before.contains(u) {
                            let j = choose|j: int| 0 <= j < before.len() && before[j] == u;
                            assert(r@[j] == u);
                        }
                    }
                }
                i = i + 1;
            }
        },
        Rvalue::Other => {},
    }
    proof {
        assert forall|u: usize| r@.contains(u) <==> rvalue_reads(*rv, u) by {
            match rv {
                Rvalue::Aggregate { .. } => {},
                Rvalue::Other => {},
                _ => {
                    if exists|j: int| 0 <= j < r@.len() && r@[j] == u {
                        let j = choose|j: int| 0 <= j < r@.len() && r@[j] == u;
                    }
                    assert(r@.len() >= 1 ==> r@.contains(r@[0]));
                    assert(r@.len() >= 2 ==> r@.contains(r@[1]));
                },
            }
        }
    }
    r
}

proof fn lemma_push_contains(s: Seq<usize>, x: usize, b: usize)
    ensures
        s.push(x).contains(b) <==> (s.contains(b) || b == x),
{
    if s.contains(b) {
        let j = choose|j: int| 0 <= j < s.len() && s[j] == b;
        assert(s.push(x)[j] == b);
    }
    if s.push(x).contains(b) && b != x {
        let j = choose|j: int| 0 <= j < s.len() + 1 && s.push(x)[j] == b;
        assert(s[j] == b);
    }
    assert(s.push(x)[s.len() as int] == x);
}

/// Adds an edge from each listed slot to `v`.
fn add_edges(g: &mut Vec<Vec<usize>>, from: &Vec<usize>, v: usize)
    requires
        forall|i: int| 0 <= i < from@.len() ==> #[trigger] from@[i] < old(g)@.len(),
    ensures
        final(g)@.len() == old(g)@.len(),
        forall|a: usize, b: usize|
            #[trigger] edge(final(g)@, a, b) <==> (edge(old(g)@, a, b) || (from@.contains(a) && b == v)),
{
    let ghost g0 = g@;
    let mut i: usize = 0;
    while i < from.len()
        invariant
            i <= from@.len(),
            g@.len() == g0.len(),
            forall|k: int| 0 <= k < from@.len() ==> #[trigger] from@[k] < g0.len(),
            forall|a: usize, b: usize|
                #[trigger] edge(g@, a, b) <==> (edge(g0, a, b) || (from@.subrange(0, i as int).contains(a)
                    && b == v)),
        decreases from@.len() - i,
    {
        let x = from[i];
        let ghost before = g@;
        g[x].push(v);
        proof {
            assert forall|a: usize, b: usize|
                #[trigger] edge(g@, a, b) <==> (edge(g0, a, b) || (from@.subrange(0, i + 1).contains(a)
                    && b == v)) by {
                lemma_push_contains(before[x as int]@, v, b);
                assert(edge(before, a, b) <==> (edge(g0, a, b) || (from@.subrange(0, i as int).contains(a)
                    && b == v)));
                let s0 = from@.subrange(0, i as int);
                assert(from@.subrange(0, i + 1) =~= s0.push(x));
                lemma_push_contains(s0, x, a);
                if a != x && a < g@.len() {
                    assert(g@[a as int] == before[a as int]);
                }
            }
        }
        i = i + 1;
    }
    assert(from@.subrange(0, i as int) =~= from@);
}

pub open spec fn flows_before(bbs: Seq<BasicBlock>, b: int, u: usize, v: usize) -> bool {
    exists|k: int| 0 <= k < b && #[trigger] block_flows(bbs[k], u, v)
}

pub open spec fn statement_flows_before(ss: Seq<Statement>, i: int, u: usize, v: usize) -> bool {
    exists|k: int| 0 <= k < i && #[trigger] statement_flows(ss[k], u, v)
}

/// The slots that a call writes from.
fn call_slots(args: &Vec<Operand>) -> (r: Vec<usize>)
    ensures
        forall|u: usize| r@.contains(u) <==> exists|i: int|
            0 <= i < args@.len() && operand_slot(#[trigger] args@[i]) == Some(u),
{
    let mut r: Vec<usize> = Vec::new();
    let mut i: usize = 0;
    while i < args.len()
        invariant
            i <= args@.len(),
            forall|u: usize| r@.contains(u) <==> exists|k: int|
                0 <= k < i && operand_slot(#[trigger] args@[k]) == Some(u),
        decreases args@.len() - i,
    {
        let ghost before = r@;
        assert(forall|u: usize| before.contains(u) <==> exists|k: int|
            0 <= k < i && operand_slot(#[trigger] args@[k]) == Some(u));
        operand_slots(&args[i], &mut r);
        proof {
            assert forall|u: usize| r@.contains(u) <==> exists|k: int|
                0 <= k < i + 1 && operand_slot(#[trigger] args@[k]) == Some(u) by {
                lemma_push_contains(before, u, u);
                if r@.contains(u) && !before.contains(u) {
                    let j = choose|j: int| 0 <= j < r@.len() && r@[j] == u;
                    assert(j >= before.len());
                    assert(operand_slot(args@[i as int]) == Some(u));
                }
                if exists|k: int| 0 <= k < i + 1 && operand_slot(#[trigger] args@[k]) == Some(u) {
                    let k = choose|k: int| 0 <= k < i + 1 && operand_slot(#[trigger] args@[k]) == Some(u);
                    if k == i {
                        assert(r@[before.len() as int] == u);
                    } else {
                        assert(before.contains(u));
                        let j = choose|j: int| 0 <= j < before.len() && before[j] == u;
                        assert(r@[j] == u);
                    }
                }
                if before.contains(u) {
                    let j = choose|j: int| 0 <= j < before.len() && before[j] == u;
                    assert(r@[j] == u);
                }
            }
        }
        i = i + 1;
    }
    r
}

impl Body {
    pub open spec fn n_slots(&self) -> nat {
        self.local_decls@.len()
    }

    /// The two graphs are those of the blocks, and every index is in range.
    pub open spec fn wf(&self) -> bool {
        &&& self.arg_count < self.local_decls@.len()
        &&& blocks_in(self.basic_blocks@, self.local_decls@.len())
        &&& self.place_neighbor_list@.len() == self.local_decls@.len()
        &&& graph_wf(self.place_neighbor_list@)
        &&& forall|u: usize, v: usize|
            #[trigger] edge(self.place_neighbor_list@, u, v) <==> place_flow(self.basic_blocks@, u, v)
        &&& self.bb_neighbor_list@.len() == self.basic_blocks@.len()
        &&& graph_wf(self.bb_neighbor_list@)
        &&& forall|b: int|
            0 <= b < self.basic_blocks@.len() ==> #[trigger] self.bb_neighbor_list@[b]@ == successors(
                self.basic_blocks@[b].terminator.kind,
            )
    }

    /// Builds the routine and derives its place-flow and block-flow graphs.
    pub fn new(local_decls: Vec<LocalDecl>, arg_count: usize, basic_blocks: Vec<BasicBlock>) -> (r: Body)
        requires
            arg_count < local_decls@.len(),
            blocks_in(basic_blocks@, local_decls@.len()),
        ensures
            r.wf(),
            r.local_decls@ == local_decls@,
            r.arg_count == arg_count,
            r.basic_blocks@ == basic_blocks@,
    {
        let n = local_decls.len();
        let nb = basic_blocks.len();
        let ghost bbs = basic_blocks@;
        let mut places: Vec<Vec<usize>> = Vec::new();
        let mut k: usize = 0;
        while k < n
            invariant
                k <= n,
                places@.len() == k,
                forall|a: int| 0 <= a < k ==> (#[trigger] places@[a])@.len() == 0,
            decreases n - k,
        {
            places.push(Vec::new());
            k = k + 1;
        }
        let mut b: usize = 0;
        while b < nb
            invariant
                n == local_decls@.len(),
                nb == bbs.len(),
                bbs == basic_blocks@,
                blocks_in(bbs, n as nat),
                b <= nb,
                places@.len() == n,
                forall|u: usize, v: usize| #[trigger] edge(places@, u, v) <==> flows_before(bbs, b as int, u, v),
            decreases nb - b,
        {
            let bb = &basic_blocks[b];
            let ghost ss = bb.statements@;
            assert(forall|i: int| 0 <= i < ss.len() ==> #[trigger] statement_in(ss[i], n as nat));
            let mut i: usize = 0;
            while i < bb.statements.len()
                invariant
                    n == local_decls@.len(),
                    nb == bbs.len(),
                    b < nb,
                    bb == bbs[b as int],
                    ss == bb.statements@,
                    forall|i: int| 0 <= i < ss.len() ==> #[trigger] statement_in(ss[i], n as nat),
                    i <= ss.len(),
                    places@.len() == n,
                    forall|u: usize, v: usize| #[trigger] edge(places@, u, v) <==> (flows_before(bbs, b as int, u, v)
                        || statement_flows_before(ss, i as int, u, v)),
                decreases ss.len() - i,
            {
                let ghost before = places@;
                match &bb.statements[i].kind {
                    StatementKind::Assign(lhs, rv) => {
                        let slots = rvalue_slots(rv);
                        proof {
                            assert(statement_in(ss[i as int], n as nat));
                            assert forall|j: int| 0 <= j < slots@.len() implies #[trigger] slots@[j] < places@.len() by {
                                assert(slots@.contains(slots@[j]));
                                assert(rvalue_reads(*rv, slots@[j]));
                            }
                        }
                        add_edges(&mut places, &slots, lhs.local);
                    },
                    StatementKind::Nop => {},
                }
                proof {
                    assert forall|u: usize, v: usize| #[trigger] edge(places@, u, v) <==> (flows_before(bbs, b as int, u, v)
                        || statement_flows_before(ss, i + 1, u, v)) by {
                        assert(edge(before, u, v) <==> (flows_before(bbs, b as int, u, v)
                            || statement_flows_before(ss, i as int, u, v)));
                        if statement_flows_before(ss, i + 1, u, v) && !statement_flows_before(ss, i as int, u, v) {
                            let k = choose|k: int| 0 <= k < i + 1 && #[trigger] statement_flows(ss[k], u, v);
                            assert(k == i);
                        }
                        if statement_flows_before(ss, i as int, u, v) {
                            let k = choose|k: int| 0 <= k < i && #[trigger] statement_flows(ss[k], u, v);
                            assert(statement_flows(ss[k], u, v));
                        }
                        if statement_flows(ss[i as int], u, v) {
                            assert(statement_flows_before(ss, i + 1, u, v));
                        }
                    }
                }
                i = i + 1;
            }
            let ghost before = places@;
            match &bb.terminator.kind {
                TerminatorKind::StaticCall { args, dest, .. } => {
                    let slots = call_slots(args);
                    proof {
                        assert(terminator_in(bbs[b as int].terminator, n as nat, nb as nat));
                        assert forall|j: int| 0 <= j < slots@.len() implies #[trigger] slots@[j] < places@.len() by {
                            assert(slots@.contains(slots@[j]));
                            let k = choose|k: int| 0 <= k < args@.len() && operand_slot(#[trigger] args@[k]) == Some(slots@[j]);
                            assert(operand_in(args@[k], n as nat));
                        }
                    }
                    add_edges(&mut places, &slots, dest.local);
                },
                _ => {},
            }
            proof {
                assert forall|u: usize, v: usize| #[trigger] edge(places@, u, v) <==> flows_before(bbs, b + 1, u, v) by {
                    assert(edge(before, u, v) <==> (flows_before(bbs, b as int, u, v)
                        || statement_flows_before(ss, ss.len() as int, u, v)));
                    if flows_before(bbs, b + 1, u, v) && !flows_before(bbs, b as int, u, v) {
                        let k = choose|k: int| 0 <= k < b + 1 && #[trigger] block_flows(bbs[k], u, v);
                        assert(k == b);
                        if exists|i: int| 0 <= i < ss.len() && #[trigger] statement_flows(ss[i], u, v) {
                            let i = choose|i: int| 0 <= i < ss.len() && #[trigger] statement_flows(ss[i], u, v);
                            assert(statement_flows_before(ss, ss.len() as int, u, v));
                        }
                    }
                    if flows_before(bbs, b as int, u, v) {
                        let k = choose|k: int| 0 <= k < b && #[trigger] block_flows(bbs[k], u, v);
                        assert(block_flows(bbs[k], u, v));
                    }
                    if statement_flows_before(ss, ss.len() as int, u, v) || terminator_flows(bbs[b as int].terminator, u, v) {
                        if statement_flows_before(ss, ss.len() as int, u, v) {
                            let i = choose|i: int| 0 <= i < ss.len() && #[trigger] statement_flows(ss[i], u, v);
                            assert(statement_flows(bbs[b as int].statements@[i], u, v));
                        }
                        assert(block_flows(bbs[b as int], u, v));
                    }
                }
            }
            b = b + 1;
        }
        proof {
            assert forall|u: usize, v: usize| #[trigger] edge(places@, u, v) <==> place_flow(bbs, u, v) by {
                if place_flow(bbs, u, v) {
                    let k = choose|k: int| 0 <= k < bbs.len() && #[trigger] block_flows(bbs[k], u, v);
                    assert(block_flows(bbs[k], u, v));
                }
            }
            assert forall|a: int, j: int|
                0 <= a < places@.len() && 0 <= j < places@[a]@.len() implies (#[trigger] places@[a]@[j]) < places@.len() by {
                let v = places@[a]@[j];
                assert(places@[a]@.contains(v));
                assert(edge(places@, a as usize, v));
                assert(place_flow(bbs, a as usize, v));
                let k = choose|k: int| 0 <= k < bbs.len() && #[trigger] block_flows(bbs[k], a as usize, v);
                if exists|i: int| 0 <= i < bbs[k].statements@.len() && #[trigger] statement_flows(bbs[k].statements@[i], a as usize, v) {
                    let i = choose|i: int| 0 <= i < bbs[k].statements@.len() && #[trigger] statement_flows(bbs[k].statements@[i], a as usize, v);
                    assert(statement_in(bbs[k].statements@[i], n as nat));
                } else {
                    assert(terminator_in(bbs[k].terminator, n as nat, nb as nat));
                }
            }
        }
        let mut blocks: Vec<Vec<usize>> = Vec::new();
        let mut b: usize = 0;
        while b < nb
            invariant
                nb == bbs.len(),
                bbs == basic_blocks@,
                blocks_in(bbs, n as nat),
                b <= nb,
                blocks@.len() == b,
                forall|c: int| 0 <= c < b ==> #[trigger] blocks@[c]@ == successors(bbs[c].terminator.kind),
            decreases nb - b,
        {
            let succ = block_successors(&basic_blocks[b].terminator.kind);
            blocks.push(succ);
            b = b + 1;
        }
        proof {
            assert forall|a: int, j: int|
                0 <= a < blocks@.len() && 0 <= j < blocks@[a]@.len() implies (#[trigger] blocks@[a]@[j]) < blocks@.len() by {
                assert(terminator_in(bbs[a].terminator, n as nat, nb as nat));
                assert(blocks@[a]@ == successors(bbs[a].terminator.kind));
            }
        }
        Body {
            local_decls,
            arg_count,
            basic_blocks,
            place_neighbor_list: places,
            bb_neighbor_list: blocks,
        }
    }
}

fn copy_targets(ts: &Vec<usize>) -> (r: Vec<usize>)
    ensures
        r@ == ts@,
{
    let mut r: Vec<usize> = Vec::new();
    let mut i: usize = 0;
    while i < ts.len()
        invariant
            i <= ts@.len(),
            r@ == ts@.subrange(0, i as int),
        decreases ts@.len() - i,
    {
        r.push(ts[i]);
        i = i + 1;
        assert(r@ =~= ts@.subrange(0, i as int));
    }
    assert(ts@.subrange(0, i as int) =~= ts@);
    r
}

/// The blocks a terminator may jump to, as a list.
fn block_successors(k: &TerminatorKind) -> (r: Vec<usize>)
    ensures
        r@ == successors(*k),
{
    let mut r: Vec<usize> = Vec::new();
    match k {
        TerminatorKind::Goto(t) => r.push(*t),
        TerminatorKind::Return => {},
        TerminatorKind::StaticCall { target, .. } => {
            if let Some(t) = target {
                r.push(*t);
            }
        },
        TerminatorKind::SwitchInt { targets, .. } => {
            r = copy_targets(targets);
        },
        TerminatorKind::FnPtr { target } => {
            if let Some(t) = target {
                r.push(*t);
            }
        },
        TerminatorKind::Drop(t) => r.push(*t),
        TerminatorKind::Unimplemented(ts) => {
            r = copy_targets(ts);
        },
    }
    assert(r@ =~= successors(*k));
    r
}

impl Body {
    pub open spec fn n_blocks(&self) -> nat {
        self.basic_blocks@.len()
    }

    /// The blocks from `idx` to `ret_idx` along the breadth-first search
    /// tree, a shortest path, or `None` when `ret_idx` cannot be reached.
    pub fn arr_return(&self, idx: usize, ret_idx: usize) -> (r: Option<Vec<usize>>)
        requires
            self.wf(),
            idx < self.n_blocks(),
            ret_idx < self.n_blocks(),
        ensures
            r.is_some() <==> reaches(self.bb_neighbor_list@, idx, ret_idx),
            r matches Some(p) ==> path_between(self.bb_neighbor_list@, p@, idx, ret_idx),
            r matches Some(p) ==> forall|q: Seq<usize>| #[trigger] path_between(self.bb_neighbor_list@, q, idx, ret_idx)
                ==> p@.len() <= q.len(),
            r matches Some(p) ==> p@.no_duplicates(),
            idx == ret_idx ==> (r matches Some(p) && p@ == seq![idx]),
    {
        path_to(&self.bb_neighbor_list, idx, ret_idx)
    }

    /// `suc` is a jump target of the terminator of `pre`.
    pub fn is_direct_successor(&self, pre: usize, suc: usize) -> (r: bool)
        requires
            self.wf(),
            pre < self.n_blocks(),
        ensures
            r == successors(self.basic_blocks@[pre as int].terminator.kind).contains(suc),
    {
        list_contains(&self.bb_neighbor_list[pre], suc)
    }

    /// `ret_idx` is at most `depth` jumps away from `idx`.
    pub fn is_return_reachable(&self, idx: usize, ret_idx: usize, depth: usize) -> (r: bool)
        requires
            self.wf(),
            idx < self.n_blocks(),
            ret_idx < self.n_blocks(),
        ensures
            r == reaches_within(self.bb_neighbor_list@, idx, ret_idx, depth as nat),
    {
        let vis = reachable_within(&self.bb_neighbor_list, idx, depth);
        vis[ret_idx]
    }
}

pub open spec fn operand_ty(op: Operand) -> usize {
    match op {
        Operand::Copy(p) => p.ty,
        Operand::Move(p) => p.ty,
        Operand::Constant(c) => c.ty,
    }
}

/// The types a statement names are in the table.
pub open spec fn statement_tys_in(s: Statement, nt: nat) -> bool {
    match s.kind {
        StatementKind::Assign(lhs, rv) => lhs.ty < nt && match rv {
            Rvalue::Cast(_, op, t) => operand_ty(op) < nt && t < nt,
            Rvalue::Use(op) => operand_ty(op) < nt,
            Rvalue::BinaryOp(_, a, b) => operand_ty(a) < nt && operand_ty(b) < nt,
            Rvalue::CheckedBinaryOp(_, a, b) => operand_ty(a) < nt && operand_ty(b) < nt,
            _ => true,
        },
        StatementKind::Nop => true,
    }
}

pub open spec fn terminator_tys_in(t: Terminator, nt: nat) -> bool {
    match t.kind {
        TerminatorKind::StaticCall { args, dest, .. } => dest.ty < nt && forall|i: int|
            0 <= i < args@.len() ==> operand_ty(#[trigger] args@[i]) < nt,
        _ => true,
    }
}

impl Body {
    /// Every type the routine names is one of the `nt` types of its table.
    pub open spec fn tys_in(&self, nt: nat) -> bool {
        &&& forall|d: int| 0 <= d < self.local_decls@.len() ==> #[trigger] self.local_decls@[d].ty < nt
        &&& forall|b: int, i: int|
            0 <= b < self.basic_blocks@.len() && 0 <= i < self.basic_blocks@[b].statements@.len()
                ==> statement_tys_in(#[trigger] self.basic_blocks@[b].statements@[i], nt)
        &&& forall|b: int|
            0 <= b < self.basic_blocks@.len() ==> terminator_tys_in(#[trigger] self.basic_blocks@[b].terminator, nt)
    }
}

/// The routine's intermediate form could not be had.
#[derive(Clone, Copy, Debug, PartialEq, Eq, Structural)]
pub enum MirInstantiationError {
    NotAvailable { def_id: usize },
}

impl MirInstantiationError {
    /// A limitation by design: the routine is skipped.
    pub fn kind(&self) -> (r: crate::analysis::AnalysisErrorKind)
        ensures
            r == crate::analysis::AnalysisErrorKind::OutOfScope,
    {
        crate::analysis::AnalysisErrorKind::OutOfScope
    }
}

fn operand_is_in(op: &Operand, n: usize) -> (r: bool)
    ensures
        r == operand_in(*op, n as nat),
{
    match op {
        Operand::Copy(p) => p.local < n,
        Operand::Move(p) => p.local < n,
        Operand::Constant(_) => true,
    }
}

fn operands_are_in(ops: &Vec<Operand>, n: usize) -> (r: bool)
    ensures
        r == forall|i: int| 0 <= i < ops@.len() ==> operand_in(#[trigger] ops@[i], n as nat),
{
    let mut i: usize = 0;
    while i < ops.len()
        invariant
            i <= ops@.len(),
            forall|k: int| 0 <= k < i ==> operand_in(#[trigger] ops@[k], n as nat),
        decreases ops@.len() - i,
    {
        if !operand_is_in(&ops[i], n) {
            assert(!operand_in(ops@[i as int], n as nat));
            return false;
        }
        i = i + 1;
    }
    true
}

fn targets_are_in(ts: &Vec<usize>, nb: usize) -> (r: bool)
    ensures
        r == forall|i: int| 0 <= i < ts@.len() ==> #[trigger] ts@[i] < nb,
{
    let mut i: usize = 0;
    while i < ts.len()
        invariant
            i <= ts@.len(),
            forall|k: int| 0 <= k < i ==> #[trigger] ts@[k] < nb,
        decreases ts@.len() - i,
    {
        if ts[i] >= nb {
            assert(!(ts@[i as int] < nb));
            return false;
        }
        i = i + 1;
    }
    true
}

fn statement_is_in(s: &Statement, n: usize) -> (r: bool)
    ensures
        r == statement_in(*s, n as nat),
{
    match &s.kind {
        StatementKind::Assign(lhs, rv) => lhs.local < n && match rv {
            Rvalue::Use(op) => operand_is_in(op, n),
            Rvalue::Repeat(op) => operand_is_in(op, n),
            Rvalue::ShallowInitBox(op) => operand_is_in(op, n),
            Rvalue::Cast(_, op, _) => operand_is_in(op, n),
            Rvalue::Ref(p) => p.local < n,
            Rvalue::AddressOf(p) => p.local < n,
            Rvalue::Len(p) => p.local < n,
            Rvalue::Discriminant(p) => p.local < n,
            Rvalue::CopyForDeref(p) => p.local < n,
            Rvalue::BinaryOp(_, a, b) => operand_is_in(a, n) && operand_is_in(b, n),
            Rvalue::CheckedBinaryOp(_, a, b) => operand_is_in(a, n) && operand_is_in(b, n),
            Rvalue::Aggregate { operands, .. } => operands_are_in(operands, n),
            Rvalue::Other => true,
        },
        StatementKind::Nop => true,
    }
}

fn terminator_is_in(t: &Terminator, n: usize, nb: usize) -> (r: bool)
    ensures
        r == terminator_in(*t, n as nat, nb as nat),
{
    let succ = block_successors(&t.kind);
    if !targets_are_in(&succ, nb) {
        return false;
    }
    match &t.kind {
        TerminatorKind::StaticCall { args, dest, .. } => dest.local < n && operands_are_in(args, n),
        TerminatorKind::SwitchInt { discr, .. } => operand_is_in(discr, n),
        _ => true,
    }
}

/// Whether every slot the blocks name is below `n` and every jump lands on
/// a block.
pub fn blocks_are_in(bbs: &Vec<BasicBlock>, n: usize) -> (r: bool)
    ensures
        r == blocks_in(bbs@, n as nat),
{
    let nb = bbs.len();
    let mut b: usize = 0;
    while b < nb
        invariant
            nb == bbs@.len(),
            b <= nb,
            forall|c: int, i: int|
                0 <= c < b && 0 <= i < bbs@[c].statements@.len() ==> #[trigger] statement_in(bbs@[c].statements@[i], n as nat),
            forall|c: int| 0 <= c < b ==> terminator_in(#[trigger] bbs@[c].terminator, n as nat, nb as nat),
        decreases nb - b,
    {
        let ss = &bbs[b].statements;
        let mut i: usize = 0;
        while i < ss.len()
            invariant
                nb == bbs@.len(),
                b < nb,
                *ss == bbs@[b as int].statements,
                i <= ss@.len(),
                forall|c: int, i: int|
                    0 <= c < b && 0 <= i < bbs@[c].statements@.len() ==> #[trigger] statement_in(bbs@[c].statements@[i], n as nat),
                forall|k: int| 0 <= k < i ==> #[trigger] statement_in(ss@[k], n as nat),
            decreases ss@.len() - i,
        {
            if !statement_is_in(&ss[i], n) {
                assert(!statement_in(bbs@[b as int].statements@[i as int], n as nat));
                return false;
            }
            i = i + 1;
        }
        if !terminator_is_in(&bbs[b].terminator, n, nb) {
            assert(!terminator_in(bbs@[b as int].terminator, n as nat, nb as nat));
            return false;
        }
        b = b + 1;
    }
    true
}

fn statement_tys_are_in(s: &Statement, nt: usize) -> (r: bool)
    ensures
        r == statement_tys_in(*s, nt as nat),
{
    match &s.kind {
        StatementKind::Assign(lhs, rv) => lhs.ty < nt && match rv {
            Rvalue::Cast(_, op, t) => operand_ty_of(op) < nt && *t < nt,
            Rvalue::Use(op) => operand_ty_of(op) < nt,
            Rvalue::BinaryOp(_, a, b) => operand_ty_of(a) < nt && operand_ty_of(b) < nt,
            Rvalue::CheckedBinaryOp(_, a, b) => operand_ty_of(a) < nt && operand_ty_of(b) < nt,
            _ => true,
        },
        StatementKind::Nop => true,
    }
}

fn operand_ty_of(op: &Operand) -> (r: usize)
    ensures
        r == operand_ty(*op),
{
    match op {
        Operand::Copy(p) => p.ty,
        Operand::Move(p) => p.ty,
        Operand::Constant(c) => c.ty,
    }
}

fn operand_tys_are_in(args: &Vec<Operand>, nt: usize) -> (r: bool)
    ensures
        r == forall|k: int| 0 <= k < args@.len() ==> operand_ty(#[trigger] args@[k]) < nt,
{
    let mut i: usize = 0;
    while i < args.len()
        invariant
            i <= args@.len(),
            forall|k: int| 0 <= k < i ==> operand_ty(#[trigger] args@[k]) < nt,
        decreases args@.len() - i,
    {
        if operand_ty_of(&args[i]) >= nt {
            assert(!(operand_ty(args@[i as int]) < nt));
            return false;
        }
        i = i + 1;
    }
    true
}

fn terminator_tys_are_in(t: &Terminator, nt: usize) -> (r: bool)
    ensures
        r == terminator_tys_in(*t, nt as nat),
{
    match &t.kind {
        TerminatorKind::StaticCall { args, dest, .. } => dest.ty < nt && operand_tys_are_in(args, nt),
        _ => true,
    }
}

impl Body {
    /// Builds the routine when its indices are in range, `None` otherwise.
    pub fn try_new(local_decls: Vec<LocalDecl>, arg_count: usize, basic_blocks: Vec<BasicBlock>) -> (r: Option<Body>)
        ensures
            r is Some <==> (arg_count < local_decls@.len() && blocks_in(basic_blocks@, local_decls@.len())),
            r matches Some(b) ==> b.wf() && b.local_decls@ == local_decls@ && b.arg_count == arg_count
                && b.basic_blocks@ == basic_blocks@,
    {
        if arg_count < local_decls.len() && blocks_are_in(&basic_blocks, local_decls.len()) {
            Some(Body::new(local_decls, arg_count, basic_blocks))
        } else {
            None
        }
    }

    /// Whether every type the routine names is one of the `nt` types.
    pub fn is_tys_in(&self, nt: usize) -> (r: bool)
        ensures
            r == self.tys_in(nt as nat),
    {
        let mut d: usize = 0;
        while d < self.local_decls.len()
            invariant
                d <= self.local_decls@.len(),
                forall|k: int| 0 <= k < d ==> #[trigger] self.local_decls@[k].ty < nt,
            decreases self.local_decls@.len() - d,
        {
            if self.local_decls[d].ty >= nt {
                assert(!(self.local_decls@[d as int].ty < nt));
                return false;
            }
            d = d + 1;
        }
        let nb = self.basic_blocks.len();
        let mut b: usize = 0;
        while b < nb
            invariant
                nb == self.basic_blocks@.len(),
                b <= nb,
                forall|k: int| 0 <= k < self.local_decls@.len() ==> #[trigger] self.local_decls@[k].ty < nt,
                forall|c: int, i: int|
                    0 <= c < b && 0 <= i < self.basic_blocks@[c].statements@.len() ==> statement_tys_in(
                        #[trigger] self.basic_blocks@[c].statements@[i],
                        nt as nat,
                    ),
                forall|c: int| 0 <= c < b ==> terminator_tys_in(#[trigger] self.basic_blocks@[c].terminator, nt as nat),
            decreases nb - b,
        {
            let ss = &self.basic_blocks[b].statements;
            let mut i: usize = 0;
            while i < ss.len()
                invariant
                    nb == self.basic_blocks@.len(),
                    b < nb,
                    *ss == self.basic_blocks@[b as int].statements,
                    i <= ss@.len(),
                    forall|c: int, i: int|
                        0 <= c < b && 0 <= i < self.basic_blocks@[c].statements@.len() ==> statement_tys_in(
                            #[trigger] self.basic_blocks@[c].statements@[i],
                            nt as nat,
                        ),
                    forall|k: int| 0 <= k < i ==> statement_tys_in(#[trigger] ss@[k], nt as nat),
                decreases ss@.len() - i,
            {
                if !statement_tys_are_in(&ss[i], nt) {
                    assert(!statement_tys_in(self.basic_blocks@[b as int].statements@[i as int], nt as nat));
                    return false;
                }
                i = i + 1;
            }
            if !terminator_tys_are_in(&self.basic_blocks[b].terminator, nt) {
                assert(!terminator_tys_in(self.basic_blocks@[b as int].terminator, nt as nat));
                return false;
            }
            b = b + 1;
        }
        true
    }
}

/// The statements of the first `b` blocks, in order.
pub open spec fn statements_upto(bbs: Seq<BasicBlock>, b: int) -> Seq<Statement>
    decreases b,
{
    if b <= 0 {
        Seq::empty()
    } else {
        statements_upto(bbs, b - 1) + bbs[b - 1].statements@
    }
}

impl Body {
    /// Every statement, block after block.
    pub fn statements(&self) -> (r: Vec<&Statement>)
        ensures
            r@.len() == statements_upto(self.basic_blocks@, self.basic_blocks@.len() as int).len(),
            forall|k: int| 0 <= k < r@.len() ==> *r@[k] == statements_upto(
                self.basic_blocks@,
                self.basic_blocks@.len() as int,
            )[k],
    {
        let ghost bbs = self.basic_blocks@;
        let mut r: Vec<&Statement> = Vec::new();
        let mut b: usize = 0;
        while b < self.basic_blocks.len()
            invariant
                bbs == self.basic_blocks@,
                b <= bbs.len(),
                r@.len() == statements_upto(bbs, b as int).len(),
                forall|k: int| 0 <= k < r@.len() ==> *r@[k] == statements_upto(bbs, b as int)[k],
            decreases bbs.len() - b,
        {
            let ss = &self.basic_blocks[b].statements;
            let ghost pre = statements_upto(bbs, b as int);
            let mut i: usize = 0;
            while i < ss.len()
                invariant
                    bbs == self.basic_blocks@,
                    b < bbs.len(),
                    *ss == bbs[b as int].statements,
                    pre == statements_upto(bbs, b as int),
                    i <= ss@.len(),
                    r@.len() == pre.len() + i,
                    forall|k: int| 0 <= k < r@.len() ==> *r@[k] == (pre + ss@)[k],
                decreases ss@.len() - i,
            {
                r.push(&ss[i]);
                i = i + 1;
            }
            b = b + 1;
        }
        r
    }

    /// Every terminator, in block order.
    pub fn terminators(&self) -> (r: Vec<&Terminator>)
        ensures
            r@.len() == self.basic_blocks@.len(),
            forall|k: int| 0 <= k < r@.len() ==> *r@[k] == self.basic_blocks@[k].terminator,
    {
        let mut r: Vec<&Terminator> = Vec::new();
        let mut b: usize = 0;
        while b < self.basic_blocks.len()
            invariant
                b <= self.basic_blocks@.len(),
                r@.len() == b,
                forall|k: int| 0 <= k < r@.len() ==> *r@[k] == self.basic_blocks@[k].terminator,
            decreases self.basic_blocks@.len() - b,
        {
            r.push(&self.basic_blocks[b].terminator);
            b = b + 1;
        }
        r
    }
}

} // verus!

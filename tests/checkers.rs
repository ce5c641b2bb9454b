use rumorph::analysis::{
    broken_bitpatterns, broken_layout, err_handling, overflow, truncation, uninit_exposure, unsafe_dataflow,
};
use rumorph::ir::{
    BasicBlock, BinOp, Body, Bypass, Callee, CastKind, Constant, LocalDecl, Operand, Place, Rvalue, Statement,
    StatementKind, Terminator, TerminatorKind, Unsafety,
};
use rumorph::ty::{AdtDef, Layout, TyData, TyKind, TypeEnv, UintTy};

fn ty(kind: TyKind, name: &str, layout: Option<(u64, u64)>) -> TyData {
    TyData { kind, name: String::from(name), layout: layout.map(|(size, align)| Layout { size, align }) }
}

fn struct_ty(name: &str, layout: (u64, u64)) -> TyData {
    ty(
        TyKind::Adt(AdtDef { is_enum: false, repr_c: false, repr_transparent: false, is_c_void: false, args: vec![] }),
        name,
        Some(layout),
    )
}

fn at(local: usize, ty: usize) -> Place {
    Place { local, is_indirect: false, ty }
}

fn deref(local: usize, ty: usize) -> Place {
    Place { local, is_indirect: true, ty }
}

fn assign(lhs: Place, rv: Rvalue, line: usize) -> Statement {
    Statement { kind: StatementKind::Assign(lhs, rv), line }
}

fn block(statements: Vec<Statement>, kind: TerminatorKind, line: usize) -> BasicBlock {
    BasicBlock { statements, terminator: Terminator { kind, line }, is_cleanup: false }
}

fn callee(name: &str, bypass: Bypass) -> Callee {
    Callee { name: String::from(name), bypass, bypass_flag: 1, resolved: true, on_copy: false, is_vec_set_len: false }
}

fn call(c: Callee, args: Vec<Operand>, dest: Place, target: Option<usize>) -> TerminatorKind {
    TerminatorKind::StaticCall { callee: c, args, dest, target }
}

fn decls(tys: &[usize]) -> Vec<LocalDecl> {
    tys.iter().map(|&ty| LocalDecl { ty }).collect()
}

fn constant(value: u64) -> Operand {
    Operand::Constant(Constant { ty: 0, usize_value: Some(value) })
}

/// Types: 0 `()`, 1 `usize`, 2 `u8`, 3 `[u8; 32]`, 4 `&[u8; 32]`, 5 `[u8]`, 6 `&[u8]`, 7 range.
fn slice_env() -> TypeEnv {
    TypeEnv {
        tys: vec![
            ty(TyKind::Other, "()", Some((0, 1))),
            ty(TyKind::Uint(UintTy::Usize), "usize", Some((8, 8))),
            ty(TyKind::Uint(UintTy::U8), "u8", Some((1, 1))),
            ty(TyKind::Array(2), "[u8; 32]", Some((32, 1))),
            ty(TyKind::Ref(3), "&[u8; 32]", Some((8, 8))),
            ty(TyKind::Slice(2), "[u8]", None),
            ty(TyKind::Ref(5), "&[u8]", Some((16, 8))),
            struct_ty("RangeFrom<usize>", (8, 8)),
        ],
        caller_bounds: vec![],
        impls: vec![],
    }
}

/// `buffer.copy_from_slice(&data[16..])`, or `&data[..]` when `full`.
fn slicing_body(full: bool) -> Body {
    let bb0 = block(
        vec![assign(at(5, 7), Rvalue::Aggregate { range_full: full, operands: vec![] }, 2)],
        call(
            callee("index", Bypass::NotListed),
            vec![Operand::Copy(at(1, 4)), Operand::Move(at(5, 7))],
            at(6, 6),
            Some(1),
        ),
        3,
    );
    let bb1 = block(
        vec![assign(at(4, 6), Rvalue::Ref(deref(6, 5)), 3), assign(at(3, 6), Rvalue::Ref(at(2, 3)), 3)],
        call(
            callee("copy_from_slice", Bypass::NotListed),
            vec![Operand::Move(at(3, 6)), Operand::Move(at(4, 6))],
            at(7, 0),
            Some(2),
        ),
        3,
    );
    let bb2 = block(vec![], TerminatorKind::Return, 5);
    Body::new(decls(&[0, 4, 3, 6, 6, 7, 6, 0]), 1, vec![bb0, bb1, bb2])
}

#[test]
fn copy_from_a_narrowed_argument_is_flagged() {
    let body = slicing_body(false);
    let st = truncation::analyze(&body);
    assert_eq!(st.behavior_flag().bits, truncation::EXTERNAL);
    assert_eq!(st.error_kind(), 1);
    assert_eq!(st.get_error_loc(), 3);
    assert_eq!(st.ty_conv_spans(), &vec![3]);
}

#[test]
fn copy_from_a_full_range_is_not_flagged() {
    let body = slicing_body(true);
    let st = truncation::analyze(&body);
    assert!(st.behavior_flag().is_empty());
    assert_eq!(st.error_kind(), 0);
}

fn checked_callee(name: &str) -> Callee {
    callee(name, Bypass::NotListed)
}

/// A branch on the result of `checked_add`; the error arm takes `chain`
/// extra blocks before it reaches the return.
fn branch_body(chain: usize) -> Body {
    let mut bbs = vec![
        block(
            vec![],
            call(checked_callee("checked_add"), vec![Operand::Copy(at(1, 1)), constant(1)], at(2, 0), Some(1)),
            2,
        ),
        block(
            vec![assign(at(3, 1), Rvalue::Discriminant(at(2, 0)), 2)],
            TerminatorKind::SwitchInt { discr: Operand::Move(at(3, 1)), targets: vec![2, 3] },
            2,
        ),
        block(vec![], TerminatorKind::Goto(4), 3),
        block(vec![], TerminatorKind::Goto(if chain == 0 { 4 } else { 5 }), 5),
        block(vec![], TerminatorKind::Return, 7),
    ];
    for k in 0..chain {
        let next = if k + 1 == chain { 4 } else { 6 + k };
        bbs.push(block(vec![], TerminatorKind::Goto(next), 6));
    }
    Body::new(decls(&[0, 1, 0, 1]), 1, bbs)
}

#[test]
fn branch_whose_arms_return_at_once_is_not_flagged() {
    let st = err_handling::analyze(&branch_body(0));
    assert!(st.behavior_flag().is_empty());
    assert_eq!(st.error_kind(), 0);
}

#[test]
fn branch_whose_error_arm_runs_on_is_flagged() {
    let st = err_handling::analyze(&branch_body(3));
    assert_eq!(st.behavior_flag().bits, err_handling::CHECKEDCALL);
    assert_eq!(st.error_kind(), 1);
    assert_eq!(st.get_error_loc(), 2);
    assert_eq!(st.branch_handle_spans(), &vec![2]);
}

#[test]
fn arm_within_the_depth_bound_is_not_flagged() {
    assert!(err_handling::analyze(&branch_body(1)).behavior_flag().is_empty());
}

#[test]
fn panic_after_a_checked_call_is_flagged() {
    let bbs = vec![
        block(
            vec![],
            call(checked_callee("checked_mul"), vec![Operand::Copy(at(1, 1)), constant(2)], at(2, 0), Some(1)),
            4,
        ),
        block(vec![], call(checked_callee("expect"), vec![Operand::Move(at(2, 0))], at(3, 1), Some(2)), 5),
        block(vec![], TerminatorKind::Return, 6),
    ];
    let st = err_handling::analyze(&Body::new(decls(&[0, 1, 0, 1]), 1, bbs));
    assert_eq!(st.behavior_flag().bits, err_handling::CHECKEDCALL);
    assert_eq!(st.error_kind(), 3);
    assert_eq!(st.get_error_loc(), 5);
}

#[test]
fn handled_result_is_cleared() {
    let bbs = vec![
        block(
            vec![],
            call(checked_callee("checked_sub"), vec![Operand::Copy(at(1, 1)), constant(2)], at(2, 0), Some(1)),
            4,
        ),
        block(vec![], call(checked_callee("unwrap_or"), vec![Operand::Move(at(2, 0)), constant(0)], at(2, 1), Some(2)), 5),
        block(vec![], TerminatorKind::Return, 6),
    ];
    let st = err_handling::analyze(&Body::new(decls(&[0, 1, 0]), 1, bbs));
    assert!(st.behavior_flag().is_empty());
}

#[test]
fn arithmetic_on_an_argument_is_flagged() {
    let bb0 = block(
        vec![assign(at(2, 1), Rvalue::BinaryOp(BinOp::Sub, Operand::Copy(at(1, 1)), constant(2)), 2)],
        TerminatorKind::Return,
        3,
    );
    let st = overflow::analyze(&Body::new(decls(&[0, 1, 1]), 1, vec![bb0]));
    assert_eq!(st.behavior_flag().bits, overflow::EXTERNAL);
    assert_eq!(st.ty_conv_spans(), &vec![2]);
}

#[test]
fn arithmetic_on_a_local_is_not_flagged() {
    let bb0 = block(
        vec![
            assign(at(2, 1), Rvalue::Use(constant(7)), 1),
            assign(at(3, 1), Rvalue::CheckedBinaryOp(BinOp::Mul, Operand::Copy(at(2, 1)), constant(2)), 2),
        ],
        TerminatorKind::Return,
        3,
    );
    let st = overflow::analyze(&Body::new(decls(&[0, 1, 1, 1]), 1, vec![bb0]));
    assert!(st.behavior_flag().is_empty());
}

/// Types: 0 `()`, 1 `u8`, 2 `u32`, 3 `*const u8`, 4 `*const u32`, 5 `A`,
/// 6 `B`, 7 `&A`, 8 `&B`, 9 `i8`, 10 `T`, 11 `*const T`, 12 `bool`,
/// 13 `*const bool`.
fn cast_env() -> TypeEnv {
    TypeEnv {
        tys: vec![
            ty(TyKind::Other, "()", Some((0, 1))),
            ty(TyKind::Uint(UintTy::U8), "u8", Some((1, 1))),
            ty(TyKind::Uint(UintTy::U32), "u32", Some((4, 4))),
            ty(TyKind::RawPtr(1), "*const u8", Some((8, 8))),
            ty(TyKind::RawPtr(2), "*const u32", Some((8, 8))),
            struct_ty("A", (12, 4)),
            struct_ty("B", (12, 4)),
            ty(TyKind::Ref(5), "&A", Some((8, 8))),
            ty(TyKind::Ref(6), "&B", Some((8, 8))),
            ty(TyKind::Int(rumorph::ty::IntTy::I8), "i8", Some((1, 1))),
            ty(TyKind::Param(0), "T", None),
            ty(TyKind::RawPtr(10), "*const T", Some((8, 8))),
            ty(TyKind::Bool, "bool", Some((1, 1))),
            ty(TyKind::RawPtr(12), "*const bool", Some((8, 8))),
        ],
        caller_bounds: vec![],
        impls: vec![],
    }
}

/// `let p = src as *const To; *p`, with `src` the argument.
fn cast_and_read(kind: CastKind, from_ptr: usize, to_ptr: usize, pointee: usize) -> Body {
    let bb0 = block(
        vec![
            assign(at(2, to_ptr), Rvalue::Cast(kind, Operand::Copy(at(1, from_ptr)), to_ptr), 2),
            assign(at(3, pointee), Rvalue::Use(Operand::Copy(deref(2, pointee))), 3),
        ],
        TerminatorKind::Return,
        4,
    );
    Body::new(decls(&[0, from_ptr, to_ptr, pointee]), 1, vec![bb0])
}

#[test]
fn cast_to_stricter_alignment_then_read_is_flagged() {
    let e = cast_env();
    let body = cast_and_read(CastKind::PtrToPtr, 3, 4, 2);
    let st = broken_layout::analyze(&e, &body);
    assert_eq!(st.behavior_flag().bits, broken_layout::CAST);
    assert_eq!(st.ty_conv_spans(), &vec![2]);
    assert_eq!(st.plain_deref_spans(), &vec![3]);
}

#[test]
fn cast_to_looser_alignment_is_not_flagged() {
    let e = cast_env();
    let body = cast_and_read(CastKind::PtrToPtr, 4, 3, 1);
    assert!(broken_layout::analyze(&e, &body).behavior_flag().is_empty());
}

#[test]
fn safe_and_unsafe_routines_are_not_analysed() {
    let e = cast_env();
    let body = cast_and_read(CastKind::PtrToPtr, 3, 4, 2);
    assert!(broken_layout::analyze_body(&e, &body, Unsafety::UnsafeFn).is_none());
    assert!(broken_layout::analyze_body(&e, &body, Unsafety::Safe).unwrap().behavior_flag().is_empty());
    assert_eq!(
        broken_layout::analyze_body(&e, &body, Unsafety::ContainsUnsafe).unwrap().behavior_flag().bits,
        broken_layout::CAST
    );
}

#[test]
fn transmute_between_unstable_structs_exposes_padding() {
    let e = cast_env();
    let body = cast_and_read(CastKind::Transmute, 7, 8, 9);
    let st = uninit_exposure::analyze(&e, &body);
    assert_eq!(st.behavior_flag().bits, uninit_exposure::TRANSMUTE);
    assert!(broken_layout::analyze(&e, &body).behavior_flag().is_empty());
}

#[test]
fn transmute_to_the_same_struct_is_not_flagged() {
    let e = cast_env();
    let body = cast_and_read(CastKind::Transmute, 7, 7, 9);
    assert!(uninit_exposure::analyze(&e, &body).behavior_flag().is_empty());
}

#[test]
fn generic_value_cast_to_boolean_is_flagged() {
    let e = cast_env();
    let body = cast_and_read(CastKind::PtrToPtr, 11, 13, 12);
    let st = broken_bitpatterns::analyze(&e, &body);
    assert_eq!(st.behavior_flag().bits, broken_bitpatterns::CAST);
    assert!(uninit_exposure::analyze(&e, &body).behavior_flag().bits == uninit_exposure::CAST);
}

#[test]
fn integer_cast_to_integer_keeps_its_bit_patterns() {
    let e = cast_env();
    let body = cast_and_read(CastKind::PtrToPtr, 3, 4, 2);
    assert!(broken_bitpatterns::analyze(&e, &body).behavior_flag().is_empty());
}

fn dataflow_body(bypass: Bypass, resolved: bool) -> Body {
    let mut read = callee("read", bypass);
    read.bypass_flag = 4;
    let mut generic = callee("call_user_code", Bypass::NotListed);
    generic.resolved = resolved;
    let bbs = vec![
        block(vec![], call(read, vec![Operand::Copy(at(1, 0))], at(2, 0), Some(1)), 2),
        block(vec![], call(generic, vec![Operand::Move(at(2, 0))], at(0, 0), Some(2)), 3),
        block(vec![], TerminatorKind::Return, 4),
    ];
    Body::new(decls(&[0, 0, 0]), 1, bbs)
}

#[test]
fn bypass_followed_by_unresolved_call_is_flagged() {
    let st = unsafe_dataflow::analyze(&dataflow_body(Bypass::Strong, false));
    assert_eq!(st.behavior_flag().bits, 4);
    assert_eq!(st.strong_bypass_spans(), &vec![2]);
    assert_eq!(st.unresolvable_generic_function_spans(), &vec![3]);
}

#[test]
fn bypass_followed_by_resolved_call_is_not_flagged() {
    assert!(unsafe_dataflow::analyze(&dataflow_body(Bypass::Weak, true)).behavior_flag().is_empty());
}

#[test]
fn bypass_spans_list_each_bypass_call_in_order() {
    let mut strong = callee("read", Bypass::Strong);
    strong.bypass_flag = 4;
    let mut copy_read = callee("read", Bypass::Strong);
    copy_read.on_copy = true;
    let weak = callee("write", Bypass::Weak);
    let bbs = vec![
        block(vec![], call(strong, vec![Operand::Copy(at(1, 0))], at(2, 0), Some(1)), 10),
        block(vec![], call(copy_read, vec![Operand::Copy(at(1, 0))], at(2, 0), Some(2)), 11),
        block(vec![], call(weak, vec![Operand::Copy(at(1, 0))], at(2, 0), Some(3)), 12),
        block(vec![], TerminatorKind::Return, 13),
    ];
    let st = unsafe_dataflow::analyze(&Body::new(decls(&[0, 0, 0]), 1, bbs));
    assert_eq!(st.strong_bypass_spans(), &vec![10]);
    assert_eq!(st.weak_bypass_spans(), &vec![12]);
    assert!(st.unresolvable_generic_function_spans().is_empty());
    assert!(st.behavior_flag().is_empty());
}

#[test]
fn safe_routines_have_no_spans() {
    let e = cast_env();
    let body = cast_and_read(CastKind::PtrToPtr, 3, 4, 2);
    let st = broken_layout::analyze_body(&e, &body, Unsafety::Safe).unwrap();
    assert!(st.ty_conv_spans().is_empty() && st.plain_deref_spans().is_empty());
    assert!(st.strong_bypass_spans().is_empty() && st.weak_bypass_spans().is_empty());
    let st = uninit_exposure::analyze_body(&e, &body, Unsafety::Safe).unwrap();
    assert!(st.ty_conv_spans().is_empty() && st.access_uninit_spans().is_empty());
    let st = broken_bitpatterns::analyze_body(&e, &body, Unsafety::Safe).unwrap();
    assert!(st.ty_conv_spans().is_empty());
}

use rumorph::analysis::{Comparison, LayoutChecker, TraitChecker, ValueChecker, get_external};
use rumorph::ty::{
    AdtDef, FloatTy, IntTy, Layout, TraitImpl, TyData, TyKind, TypeEnv, UintTy, contains_str, contains_ty,
    get_pointee,
};

fn ty(kind: TyKind, name: &str, layout: Option<(u64, u64)>) -> TyData {
    TyData { kind, name: String::from(name), layout: layout.map(|(size, align)| Layout { size, align }) }
}

fn adt(name: &str, layout: Option<(u64, u64)>) -> TyData {
    ty(
        TyKind::Adt(AdtDef { is_enum: false, repr_c: false, repr_transparent: false, is_c_void: false, args: vec![] }),
        name,
        layout,
    )
}

fn env(tys: Vec<TyData>) -> TypeEnv {
    TypeEnv { tys, caller_bounds: vec![], impls: vec![] }
}

#[test]
fn wide_integer_to_aligned_struct_is_flagged_on_the_excepted_target() {
    let e = env(vec![ty(TyKind::Uint(UintTy::U64), "u64", Some((8, 8))), adt("S", Some((8, 8)))]);
    let lc = LayoutChecker::new(&e, 0, 1);
    assert_eq!(lc.get_align_status(), Comparison::Less);
    assert_eq!(lc.get_size_status(), Comparison::Equal);
}

#[test]
fn double_to_aligned_struct_is_flagged_too() {
    let e = env(vec![ty(TyKind::Float(FloatTy::Double), "f64", Some((8, 8))), adt("S", Some((16, 8)))]);
    assert_eq!(LayoutChecker::new(&e, 0, 1).get_align_status(), Comparison::Less);
}

#[test]
fn signed_wide_integer_keeps_its_ordinal() {
    let e = env(vec![ty(TyKind::Int(IntTy::I64), "i64", Some((8, 8))), adt("S", Some((8, 8)))]);
    assert_eq!(LayoutChecker::new(&e, 0, 1).get_align_status(), Comparison::Equal);
}

#[test]
fn known_layouts_give_exact_ordinals_that_swap() {
    let e = env(vec![
        ty(TyKind::Uint(UintTy::U8), "u8", Some((1, 1))),
        ty(TyKind::Uint(UintTy::U32), "u32", Some((4, 4))),
        adt("Pair", Some((8, 4))),
    ]);
    let ab = LayoutChecker::new(&e, 0, 1);
    let ba = LayoutChecker::new(&e, 1, 0);
    assert_eq!((ab.get_align_status(), ab.get_size_status()), (Comparison::Less, Comparison::Less));
    assert_eq!((ba.get_align_status(), ba.get_size_status()), (Comparison::Greater, Comparison::Greater));
    let bc = LayoutChecker::new(&e, 1, 2);
    let cb = LayoutChecker::new(&e, 2, 1);
    assert_eq!((bc.get_align_status(), bc.get_size_status()), (Comparison::Equal, Comparison::Less));
    assert_eq!((cb.get_align_status(), cb.get_size_status()), (Comparison::Equal, Comparison::Greater));
}

#[test]
fn pointers_are_compared_on_their_pointees() {
    let e = env(vec![
        ty(TyKind::Uint(UintTy::U8), "u8", Some((1, 1))),
        ty(TyKind::Uint(UintTy::U32), "u32", Some((4, 4))),
        ty(TyKind::RawPtr(0), "*const u8", Some((8, 8))),
        ty(TyKind::Ref(2), "&*const u8", Some((8, 8))),
        ty(TyKind::RawPtr(1), "*const u32", Some((8, 8))),
    ]);
    assert_eq!(get_pointee(&e, 3), 0);
    assert_eq!(get_pointee(&e, 1), 1);
    let lc = LayoutChecker::new(&e, 3, 4);
    assert_eq!((lc.get_from_ty(), lc.get_to_ty()), (0, 1));
    assert_eq!(lc.get_align_status(), Comparison::Less);
    assert_eq!(lc.get_from_ty_name(), "u8");
}

#[test]
fn usize_target_and_void_source_are_not_alignment_findings() {
    let void = ty(
        TyKind::Adt(AdtDef { is_enum: true, repr_c: false, repr_transparent: false, is_c_void: true, args: vec![] }),
        "c_void",
        Some((1, 1)),
    );
    let e = env(vec![
        ty(TyKind::Uint(UintTy::U8), "u8", Some((1, 1))),
        ty(TyKind::Uint(UintTy::Usize), "usize", Some((8, 8))),
        void,
        ty(TyKind::Uint(UintTy::U32), "u32", Some((4, 4))),
    ]);
    assert_eq!(LayoutChecker::new(&e, 0, 1).get_align_status(), Comparison::Noidea);
    assert_eq!(LayoutChecker::new(&e, 2, 3).get_align_status(), Comparison::Noidea);
    assert_eq!(LayoutChecker::new(&e, 2, 3).get_size_status(), Comparison::Less);
}

#[test]
fn unknown_layouts_fall_back_on_the_name_table() {
    let e = env(vec![
        ty(TyKind::Other, "ffi::u16_like", None),
        ty(TyKind::Uint(UintTy::U32), "u32", Some((4, 4))),
        ty(TyKind::Other, "Opaque", None),
        ty(TyKind::Uint(UintTy::U8), "u8", Some((1, 1))),
    ]);
    assert_eq!(get_external(&e, 0), Some(2));
    assert_eq!(get_external(&e, 2), None);
    let lc = LayoutChecker::new(&e, 0, 1);
    assert_eq!(lc.get_align_status(), Comparison::Less);
    assert_eq!(lc.get_size_status(), Comparison::Noidea);
    assert!(!lc.is_fty_layout_spec() && lc.is_tty_layout_spec());
    assert_eq!(LayoutChecker::new(&e, 2, 1).get_align_status(), Comparison::Noidea);
    let lc = LayoutChecker::new(&e, 3, 2);
    assert_eq!(lc.get_size_status(), Comparison::NoideaL);
    assert_eq!(LayoutChecker::new(&e, 2, 3).get_size_status(), Comparison::NoideaG);
}

#[test]
fn name_table_covers_each_width() {
    let names = [
        ("bool", Some(1)),
        ("i8", Some(1)),
        ("u16", Some(2)),
        ("char", Some(4)),
        ("f32", Some(4)),
        ("i64", Some(8)),
        ("u128", Some(16)),
        ("String", None),
    ];
    for (name, size) in names {
        let e = env(vec![ty(TyKind::Other, name, None)]);
        assert_eq!(get_external(&e, 0), size, "{}", name);
    }
}

#[test]
fn unknown_layouts_on_both_sides_give_no_idea() {
    let e = env(vec![ty(TyKind::Other, "A", None), ty(TyKind::Other, "B", None)]);
    let lc = LayoutChecker::new(&e, 0, 1);
    assert_eq!((lc.get_align_status(), lc.get_size_status()), (Comparison::Noidea, Comparison::Noidea));
}

#[test]
fn unbounded_parameter_to_boolean_narrows_the_domain() {
    let e = env(vec![ty(TyKind::Param(0), "T", None), ty(TyKind::Bool, "bool", Some((1, 1)))]);
    assert_eq!(ValueChecker::new(&e, 0, 1).get_val_status(), Comparison::Less);
    let lc = LayoutChecker::new(&e, 0, 1);
    assert_eq!(lc.get_align_status(), Comparison::NoideaG);
    assert_eq!(lc.get_size_status(), Comparison::NoideaG);
    assert!(TraitChecker::new(&e).is_ty_arbitrary());
}

#[test]
fn unbounded_parameter_to_wider_alignment_is_flagged() {
    let e = env(vec![ty(TyKind::Param(0), "T", None), ty(TyKind::Uint(UintTy::U32), "u32", Some((4, 4)))]);
    assert_eq!(LayoutChecker::new(&e, 0, 1).get_align_status(), Comparison::Less);
    assert_eq!(LayoutChecker::new(&e, 1, 0).get_align_status(), Comparison::Less);
    assert_eq!(ValueChecker::new(&e, 1, 0).get_val_status(), Comparison::Less);
    assert_eq!(ValueChecker::new(&e, 0, 1).get_val_status(), Comparison::Noidea);
}

fn bounded_env() -> TypeEnv {
    TypeEnv {
        tys: vec![
            ty(TyKind::Param(0), "T", None),
            ty(TyKind::Uint(UintTy::U32), "u32", Some((4, 4))),
            ty(TyKind::Int(IntTy::I32), "i32", Some((4, 4))),
            ty(TyKind::Uint(UintTy::U64), "u64", Some((8, 8))),
            ty(TyKind::Bool, "bool", Some((1, 1))),
        ],
        caller_bounds: vec![7],
        impls: vec![
            TraitImpl { trait_id: 7, self_ty: 1, positive: true },
            TraitImpl { trait_id: 7, self_ty: 1, positive: true },
            TraitImpl { trait_id: 8, self_ty: 3, positive: true },
            TraitImpl { trait_id: 7, self_ty: 4, positive: false },
        ],
    }
}

#[test]
fn bounded_parameter_with_matching_implementor_is_not_flagged() {
    let e = bounded_env();
    let tc = TraitChecker::new(&e);
    assert_eq!(tc.get_satisfied_ty(), vec![1]);
    assert!(!tc.is_ty_arbitrary());
    let candidate = LayoutChecker::new(&e, 1, 2);
    assert_eq!((candidate.get_align_status(), candidate.get_size_status()), (Comparison::Equal, Comparison::Equal));
    let lc = LayoutChecker::new(&e, 0, 2);
    assert_ne!(lc.get_align_status(), Comparison::Less);
    assert_eq!(lc.get_ty_bnd(), vec![1]);
}

#[test]
fn bounded_parameter_with_looser_implementor_is_flagged() {
    let e = bounded_env();
    assert_eq!(LayoutChecker::new(&e, 0, 3).get_align_status(), Comparison::Less);
    assert_eq!(ValueChecker::new(&e, 0, 4).get_val_status(), Comparison::Less);
}

#[test]
fn generic_and_parameterised_receivers_are_not_candidates() {
    let e = TypeEnv {
        tys: vec![
            ty(TyKind::Param(0), "T", None),
            ty(
                TyKind::Adt(AdtDef { is_enum: false, repr_c: false, repr_transparent: false, is_c_void: false, args: vec![0] }),
                "Wrapper<T>",
                None,
            ),
            adt("Plain", Some((4, 4))),
        ],
        caller_bounds: vec![1],
        impls: vec![
            TraitImpl { trait_id: 1, self_ty: 0, positive: true },
            TraitImpl { trait_id: 1, self_ty: 1, positive: true },
            TraitImpl { trait_id: 1, self_ty: 2, positive: true },
        ],
    };
    assert_eq!(TraitChecker::new(&e).get_satisfied_ty(), vec![2]);
    assert!(contains_ty(&e, 1, 0));
    assert!(!contains_ty(&e, 2, 0));
}

#[test]
fn type_predicates_read_the_kinds() {
    let e = env(vec![
        ty(
            TyKind::Adt(AdtDef { is_enum: false, repr_c: true, repr_transparent: false, is_c_void: false, args: vec![] }),
            "CStruct",
            Some((4, 4)),
        ),
        ty(TyKind::Slice(2), "[u8]", None),
        ty(TyKind::Uint(UintTy::U8), "u8", Some((1, 1))),
        ty(TyKind::Foreign, "Extern", None),
        ty(TyKind::Dynamic, "dyn Trait", None),
    ]);
    let lc = LayoutChecker::new(&e, 0, 1);
    assert_eq!(lc.is_from_to_adt(), (true, false));
    assert_eq!(lc.is_from_to_arr_slice(), (false, true));
    assert_eq!(lc.is_from_to_c(), (true, false));
    assert_eq!(lc.is_from_to_transparent(), (false, false));
    assert_eq!(lc.is_from_to_primitive(), (false, false));
    let lc = LayoutChecker::new(&e, 3, 4);
    assert_eq!(lc.is_from_to_foreign(), (true, false));
    assert_eq!(lc.is_from_to_dyn(), (false, true));
    assert_eq!(lc.is_from_to_generic(), (false, false));
    assert_eq!(LayoutChecker::new(&e, 2, 2).is_from_to_primitive(), (true, true));
}

#[test]
fn substring_search_finds_runs() {
    assert!(contains_str("core::ptr::read_unaligned", "unaligned"));
    assert!(contains_str("abc", ""));
    assert!(!contains_str("ab", "abc"));
    assert!(!contains_str("checked", "checked_"));
    assert!(contains_str("MaybeUninit<u8>", "MaybeUninit"));
}

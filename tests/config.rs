use rumorph::analysis::broken_layout::BrokenLayoutError;
use rumorph::analysis::truncation::TruncationError;
use rumorph::analysis::{AnalysisErrorKind, AnalysisKind, Comparison};
use rumorph::ir::{BasicBlock, Body, CastKind, LocalDecl, Operand, Place, Rvalue, Statement, StatementKind, Terminator, TerminatorKind};
use rumorph::taint::BehaviorFlag;
use rumorph::ty::{AdtDef, Layout, TyData, TyKind, TypeEnv, UintTy};
use rumorph::{ReportLevel, RuMorphConfig, Verbosity, analyze, compile_time_sysroot, run_analysis};

#[test]
fn default_config_enables_every_checker() {
    let c = RuMorphConfig::default();
    assert_eq!(c.verbosity, Verbosity::Normal);
    assert_eq!(c.report_level, ReportLevel::Info);
    assert!(c.broken_layout_enabled && c.uninit_exposure_enabled && c.alloc_inconsistency_enabled);
}

#[test]
fn sysroot_prefers_the_rustup_toolchain() {
    assert_eq!(
        compile_time_sysroot(false, Some("/home/u/.rustup"), Some("nightly-x86_64"), Some("/opt/rust")),
        Some(String::from("/home/u/.rustup/toolchains/nightly-x86_64"))
    );
    assert_eq!(compile_time_sysroot(false, None, Some("nightly"), Some("/opt/rust")), Some(String::from("/opt/rust")));
    assert_eq!(compile_time_sysroot(false, Some("/h"), None, Some("/opt/rust")), Some(String::from("/opt/rust")));
}

#[test]
fn sysroot_is_left_to_the_compiler_inside_its_build() {
    assert_eq!(compile_time_sysroot(true, Some("/h"), Some("t"), None), None);
}

#[test]
fn run_analysis_returns_what_the_analysis_returns() {
    assert_eq!(run_analysis("Example", || 41 + 1), 42);
}

#[test]
fn labels_name_the_pattern() {
    assert_eq!(AnalysisKind::BrokenLayout(BehaviorFlag::from_bits(1)).label(), "BrokenLayout:");
    assert_eq!(AnalysisKind::UninitExposure(BehaviorFlag::empty()).label(), "UninitExposure:");
    assert_eq!(AnalysisKind::Truncation(BehaviorFlag::empty()).label(), "Truncation:");
    assert_ne!(Comparison::Less, Comparison::Greater);
}

fn ty(kind: TyKind, name: &str, layout: Option<(u64, u64)>) -> TyData {
    TyData { kind, name: String::from(name), layout: layout.map(|(size, align)| Layout { size, align }) }
}

#[test]
fn analyze_runs_the_enabled_checkers() {
    let env = TypeEnv {
        tys: vec![
            ty(TyKind::Other, "()", Some((0, 1))),
            ty(TyKind::Uint(UintTy::U8), "u8", Some((1, 1))),
            ty(TyKind::Uint(UintTy::U32), "u32", Some((4, 4))),
            ty(TyKind::RawPtr(1), "*const u8", Some((8, 8))),
            ty(TyKind::RawPtr(2), "*const u32", Some((8, 8))),
            ty(
                TyKind::Adt(AdtDef { is_enum: false, repr_c: false, repr_transparent: false, is_c_void: false, args: vec![] }),
                "S",
                Some((4, 4)),
            ),
        ],
        caller_bounds: vec![],
        impls: vec![],
    };
    let at = |local, ty, is_indirect| Place { local, is_indirect, ty };
    let stmt = |lhs, rv| Statement { kind: StatementKind::Assign(lhs, rv), line: 1 };
    let bb0 = BasicBlock {
        statements: vec![
            stmt(at(2, 4, false), Rvalue::Cast(CastKind::PtrToPtr, Operand::Copy(at(1, 3, false)), 4)),
            stmt(at(3, 2, false), Rvalue::Use(Operand::Copy(at(2, 2, true)))),
        ],
        terminator: Terminator { kind: TerminatorKind::Return, line: 2 },
        is_cleanup: false,
    };
    let decls = vec![LocalDecl { ty: 0 }, LocalDecl { ty: 3 }, LocalDecl { ty: 4 }, LocalDecl { ty: 2 }];
    let body = Body::new(decls, 1, vec![bb0]);
    let found = analyze(&env, &body, RuMorphConfig::default());
    assert_eq!(found, vec![AnalysisKind::BrokenLayout(BehaviorFlag::from_bits(1))]);
    let mut only_uninit = RuMorphConfig::default();
    only_uninit.broken_layout_enabled = false;
    assert!(analyze(&env, &body, only_uninit).is_empty());
}

#[test]
fn out_of_range_bodies_are_refused() {
    let bb = |kind| BasicBlock { statements: vec![], terminator: Terminator { kind, line: 0 }, is_cleanup: false };
    let decls = || vec![LocalDecl { ty: 0 }, LocalDecl { ty: 0 }];
    assert!(Body::try_new(decls(), 1, vec![bb(TerminatorKind::Goto(0))]).is_some());
    assert!(Body::try_new(decls(), 1, vec![bb(TerminatorKind::Goto(1))]).is_none());
    assert!(Body::try_new(decls(), 2, vec![bb(TerminatorKind::Return)]).is_none());
    let bad_slot = BasicBlock {
        statements: vec![Statement {
            kind: StatementKind::Assign(
                Place { local: 5, is_indirect: false, ty: 0 },
                Rvalue::Use(Operand::Copy(Place { local: 1, is_indirect: false, ty: 0 })),
            ),
            line: 0,
        }],
        terminator: Terminator { kind: TerminatorKind::Return, line: 0 },
        is_cleanup: false,
    };
    assert!(Body::try_new(decls(), 1, vec![bad_slot]).is_none());
    let body = Body::try_new(decls(), 1, vec![bb(TerminatorKind::Return)]).unwrap();
    assert!(body.is_tys_in(1));
    assert!(!body.is_tys_in(0));
}

#[test]
fn type_tables_must_name_parts_below() {
    let good = TypeEnv {
        tys: vec![ty(TyKind::Uint(UintTy::U8), "u8", Some((1, 1))), ty(TyKind::RawPtr(0), "*const u8", Some((8, 8)))],
        caller_bounds: vec![],
        impls: vec![],
    };
    assert!(good.is_wf());
    let cyclic = TypeEnv { tys: vec![ty(TyKind::Ref(0), "&?", Some((8, 8)))], caller_bounds: vec![], impls: vec![] };
    assert!(!cyclic.is_wf());
    let dangling = TypeEnv {
        tys: vec![ty(TyKind::Bool, "bool", Some((1, 1)))],
        caller_bounds: vec![0],
        impls: vec![rumorph::ty::TraitImpl { trait_id: 0, self_ty: 3, positive: true }],
    };
    assert!(!dangling.is_wf());
}

#[test]
fn statements_and_terminators_come_in_block_order() {
    let at = |local| Place { local, is_indirect: false, ty: 0 };
    let stmt = |lhs: usize, rhs: usize, line: usize| Statement {
        kind: StatementKind::Assign(at(lhs), Rvalue::Use(Operand::Copy(at(rhs)))),
        line,
    };
    let body = Body::new(
        vec![LocalDecl { ty: 0 }, LocalDecl { ty: 0 }, LocalDecl { ty: 0 }],
        1,
        vec![
            BasicBlock {
                statements: vec![stmt(2, 1, 10), stmt(0, 2, 11)],
                terminator: Terminator { kind: TerminatorKind::Goto(1), line: 12 },
                is_cleanup: false,
            },
            BasicBlock {
                statements: vec![stmt(2, 0, 20)],
                terminator: Terminator { kind: TerminatorKind::Return, line: 21 },
                is_cleanup: true,
            },
        ],
    );
    let lines: Vec<usize> = body.statements().iter().map(|s| s.line).collect();
    assert_eq!(lines, vec![10, 11, 20]);
    let lines: Vec<usize> = body.terminators().iter().map(|t| t.line).collect();
    assert_eq!(lines, vec![12, 21]);
}

#[test]
fn error_kinds_follow_their_cause() {
    assert_eq!(BrokenLayoutError::PushPopBlock.kind(), AnalysisErrorKind::Unreachable);
    assert_eq!(BrokenLayoutError::ResolveError.kind(), AnalysisErrorKind::OutOfScope);
    assert_eq!(TruncationError::InvalidSpan.kind(), AnalysisErrorKind::Unreachable);
    assert_eq!(
        rumorph::ir::MirInstantiationError::NotAvailable { def_id: 3 }.kind(),
        AnalysisErrorKind::OutOfScope
    );
    assert_eq!(BehaviorFlag::from_bits(2).report_level(false), ReportLevel::Error);
}

//! Bug-pattern detection over a simplified per-routine control-flow graph:
//! a taint engine deciding source-to-sink reachability, bounded control-flow
//! queries, a comparator for the layout and value domain of two types that
//! meet at a conversion, the checkers built on them, and the choice of the
//! crates they run on.

pub mod analysis;
pub mod crawl;
pub mod graph;
pub mod ir;
pub mod policy;
pub mod taint;
pub mod ty;

use vstd::prelude::*;
use crate::analysis::AnalysisKind;
use crate::analysis::broken_layout::{self, BrokenLayoutPolicy, BrokenLayoutStatus};
use crate::analysis::uninit_exposure::{self, UninitExposurePolicy, UninitExposureStatus};
use crate::policy::policy_marks;
use crate::taint::marks_result;
use crate::ir::Body;
use crate::ty::TypeEnv;

verus! {

/// How much progress the tool prints.
#[derive(Clone, Copy, Debug, PartialEq, Eq, Structural)]
pub enum Verbosity {
    Normal,
    Verbose,
    Trace,
}

/// The severity of a report.
#[derive(Clone, Copy, Debug, PartialEq, Eq, Structural)]
pub enum ReportLevel {
    Info,
    Warning,
    Error,
}

/// Which checkers run, and what is reported.
#[derive(Clone, Copy, Debug, PartialEq, Eq, Structural)]
pub struct RuMorphConfig {
    pub verbosity: Verbosity,
    pub report_level: ReportLevel,
    pub broken_layout_enabled: bool,
    pub uninit_exposure_enabled: bool,
    pub alloc_inconsistency_enabled: bool,
}

impl Default for RuMorphConfig {
    fn default() -> (r: RuMorphConfig)
        ensures
            r == (RuMorphConfig {
                verbosity: Verbosity::Normal,
                report_level: ReportLevel::Info,
                broken_layout_enabled: true,
                uninit_exposure_enabled: true,
                alloc_inconsistency_enabled: true,
            }),
    {
        RuMorphConfig {
            verbosity: Verbosity::Normal,
            report_level: ReportLevel::Info,
            broken_layout_enabled: true,
            uninit_exposure_enabled: true,
            alloc_inconsistency_enabled: true,
        }
    }
}

/// The default sysroot, from the values the build saw: none when built as
/// part of the compiler; else the rustup toolchain directory when both the
/// rustup home and the toolchain are known; else the sysroot given
/// explicitly.
pub fn compile_time_sysroot(
    rustc_stage: bool,
    home: Option<&str>,
    toolchain: Option<&str>,
    rust_sysroot: Option<&str>,
) -> (r: Option<String>)
    requires
        !rustc_stage && (home is None || toolchain is None) ==> rust_sysroot is Some,
    ensures
        rustc_stage ==> r is None,
        !rustc_stage ==> (r matches Some(s) && s@ == match (home, toolchain) {
            (Some(h), Some(t)) => h@ + "/toolchains/"@ + t@,
            _ => rust_sysroot->Some_0@,
        }),
{
    if rustc_stage {
        return None;
    }
    match (home, toolchain) {
        (Some(h), Some(t)) => Some(String::from_str(h).concat("/toolchains/").concat(t)),
        _ => match rust_sysroot {
            Some(s) => Some(String::from_str(s)),
            None => None,
        },
    }
}

/// Runs one analysis.
pub fn run_analysis<F, R>(name: &str, f: F) -> (r: R)
    where
        F: FnOnce() -> R,
    requires
        f.requires(()),
    ensures
        f.ensures((), r),
{
    f()
}

/// Runs the enabled checkers on one routine and lists the patterns found,
/// each with its causes.
pub fn analyze(env: &TypeEnv, body: &Body, config: RuMorphConfig) -> (r: Vec<AnalysisKind>)
    requires
        env.wf(),
        body.wf(),
        body.tys_in(env.n_tys()),
    ensures
        forall|i: int| 0 <= i < r@.len() ==> match #[trigger] r@[i] {
            AnalysisKind::BrokenLayout(f) => config.broken_layout_enabled && f.bits != 0 && f.bits == marks_result(
                body,
                policy_marks(&(BrokenLayoutPolicy { env, body }), body.basic_blocks@),
            ),
            AnalysisKind::UninitExposure(f) => config.uninit_exposure_enabled && f.bits != 0 && f.bits
                == marks_result(body, policy_marks(&(UninitExposurePolicy { env, body }), body.basic_blocks@)),
            _ => false,
        },
        config.broken_layout_enabled && marks_result(
            body,
            policy_marks(&(BrokenLayoutPolicy { env, body }), body.basic_blocks@),
        ) != 0 ==> exists|i: int| 0 <= i < r@.len() && r@[i] is BrokenLayout,
        config.uninit_exposure_enabled && marks_result(
            body,
            policy_marks(&(UninitExposurePolicy { env, body }), body.basic_blocks@),
        ) != 0 ==> exists|i: int| 0 <= i < r@.len() && r@[i] is UninitExposure,
        forall|i: int, j: int|
            0 <= i < j < r@.len() ==> !(r@[i] is BrokenLayout && r@[j] is BrokenLayout) && !(r@[i] is UninitExposure
                && r@[j] is UninitExposure),
{
    let mut found: Vec<AnalysisKind> = Vec::new();
    if config.broken_layout_enabled {
        let check = (|| -> (s: BrokenLayoutStatus)
            requires
                env.wf(),
                body.wf(),
                body.tys_in(env.n_tys()),
            ensures
                s.behavior_flag.bits == marks_result(
                    body,
                    policy_marks(&(BrokenLayoutPolicy { env, body }), body.basic_blocks@),
                ),
            { broken_layout::analyze(env, body) });
        let status = run_analysis("BrokenLayout", check);
        if !status.behavior_flag.is_empty() {
            found.push(AnalysisKind::BrokenLayout(status.behavior_flag));
            assert(found@[found@.len() - 1] is BrokenLayout);
        }
    }
    let ghost mid = found@;
    assert(mid.len() <= 1 && forall|i: int| 0 <= i < mid.len() ==> mid[i] is BrokenLayout);
    if config.uninit_exposure_enabled {
        let check = (|| -> (s: UninitExposureStatus)
            requires
                env.wf(),
                body.wf(),
                body.tys_in(env.n_tys()),
            ensures
                s.behavior_flag.bits == marks_result(
                    body,
                    policy_marks(&(UninitExposurePolicy { env, body }), body.basic_blocks@),
                ),
            { uninit_exposure::analyze(env, body) });
        let status = run_analysis("UninitExposure", check);
        if !status.behavior_flag.is_empty() {
            found.push(AnalysisKind::UninitExposure(status.behavior_flag));
            assert(found@[found@.len() - 1] is UninitExposure);
            assert(forall|i: int| 0 <= i < mid.len() ==> found@[i] == mid[i]);
        }
    }
    found
}

} // verus!

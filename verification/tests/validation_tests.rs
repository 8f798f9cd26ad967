use sis_kernel::kernel_interface::CommandOutput;
use sis_kernel::metrics::MetricMap;
use sis_kernel::validation::{
    audit_load_accepted, audit_load_rejected, category_counts, claim_in_category, llm_smoke_det_passed,
    llm_smoke_passed, CoverageCategory,
};
use sis_kernel::validation_run::{
    start_validation, validation_step, ValidationAction, ValidationEvent, ValidationPhase,
};
use std::time::Duration;

fn out(text: &str, success: bool) -> CommandOutput {
    CommandOutput {
        raw_output: text.to_string(),
        parsed_metrics: MetricMap::new(),
        success,
        execution_time: Duration::from_millis(1),
    }
}

#[test]
fn smoke_prefers_the_audit_then_the_inference() {
    let audit = out("[{\"op\":3,\"status\":1}]", true);
    assert!(llm_smoke_passed(None, Some(&audit)));
    let ran = out("[LLM] infer done", true);
    assert!(llm_smoke_passed(Some(&ran), Some(&out("[]", true))));
    assert!(llm_smoke_passed(Some(&out("METRIC llm_infer_us=12", true)), None));
    assert!(!llm_smoke_passed(Some(&out("nothing", true)), Some(&out("{\"op\":1}", true))));
    assert!(!llm_smoke_passed(None, None));
}

#[test]
fn deterministic_smoke() {
    assert!(llm_smoke_det_passed(None, Some(&out("[LLM][DET] on", true))));
    assert!(!llm_smoke_det_passed(Some(&out("idle", true)), Some(&out("[LLM] ok", true))));
}

#[test]
fn model_load_audit_records() {
    assert!(audit_load_accepted(&out("{\"op\":1,\"status\":1}", true)));
    assert!(!audit_load_accepted(&out("{\"op\":1,\"status\":2}", true)));
    assert!(audit_load_rejected(&out("{\"op\":1,\"status\":2}", true)));
}

#[test]
fn claims_fall_into_categories() {
    assert!(claim_in_category("AI Inference <40.00μs (P99)", CoverageCategory::Performance));
    assert!(!claim_in_category("AI Inference Accuracy >99.9%", CoverageCategory::Performance));
    assert!(claim_in_category("AI Inference Accuracy >99.9%", CoverageCategory::Ai));
    assert!(claim_in_category("Byzantine Consensus <5ms (100 nodes)", CoverageCategory::Distributed));
    let claims = vec![
        ("Context Switch <500ns (P95)".to_string(), false),
        ("AI Inference <40.00μs (P99)".to_string(), true),
        ("Memory Safety Guaranteed".to_string(), true),
    ];
    assert_eq!(category_counts(&claims, CoverageCategory::Performance), (1, 2));
    assert_eq!(category_counts(&claims, CoverageCategory::Correctness), (1, 1));
    assert_eq!(category_counts(&claims, CoverageCategory::Security), (0, 0));
}

#[test]
fn validation_run_waits_for_metrics_then_runs_suites() {
    let s = start_validation(true, true, true, true, true);
    let (s, a) = validation_step(s, ValidationEvent::Done);
    assert_eq!(a, ValidationAction::Prepare { hybrid: false });
    let (s, a) = validation_step(s, ValidationEvent::Done);
    assert_eq!(a, ValidationAction::RunSmokeTest);
    let (s, a) = validation_step(s, ValidationEvent::Done);
    assert_eq!(a, ValidationAction::LoadMetrics);
    let (s, a) = validation_step(s, ValidationEvent::NoMetricsYet { elapsed_ms: 5 });
    assert_eq!(a, ValidationAction::Wait { ms: 800 });
    let (s, a) = validation_step(s, ValidationEvent::Done);
    assert_eq!(a, ValidationAction::LoadMetrics);
    let (s, a) = validation_step(s, ValidationEvent::MetricsLoaded { dump: true });
    assert_eq!(
        a,
        ValidationAction::RunSuites { connect_kernel: true, real_metrics: true, write_dump: true, parallel: true }
    );
    let (s, a) = validation_step(s, ValidationEvent::Done);
    assert_eq!(a, ValidationAction::Finish);
    assert_eq!(s.phase, ValidationPhase::Done);
}

#[test]
fn validation_run_gives_up_on_metrics_after_the_deadline() {
    let s = start_validation(true, true, true, false, false);
    let (s, _) = validation_step(s, ValidationEvent::Done);
    let (s, _) = validation_step(s, ValidationEvent::Done);
    let (s, _) = validation_step(s, ValidationEvent::Done);
    let (_, a) = validation_step(s, ValidationEvent::NoMetricsYet { elapsed_ms: 20_000 });
    assert_eq!(
        a,
        ValidationAction::RunSuites { connect_kernel: true, real_metrics: false, write_dump: false, parallel: false }
    );
}

#[test]
fn validation_run_without_booted_nodes_goes_hybrid_and_skips_the_log() {
    let s = start_validation(true, false, true, true, true);
    let (s, a) = validation_step(s, ValidationEvent::Done);
    assert_eq!(a, ValidationAction::Prepare { hybrid: true });
    let (_, a) = validation_step(s, ValidationEvent::Done);
    assert_eq!(
        a,
        ValidationAction::RunSuites { connect_kernel: true, real_metrics: false, write_dump: false, parallel: true }
    );
    let s = start_validation(false, false, false, true, true);
    let (s, _) = validation_step(s, ValidationEvent::Done);
    let (_, a) = validation_step(s, ValidationEvent::MetricsFailed);
    assert_eq!(a, ValidationAction::Ignore);
}

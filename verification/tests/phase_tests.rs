use sis_kernel::kernel_interface::CommandOutput;
use sis_kernel::metrics::MetricMap;
use sis_kernel::phase1_dataflow::{
    backpressure_passed, graph_cleanup_passed, graph_creation_passed, high_volume_passed,
    tensor_validation_passed, ChannelThroughputTestResults, GraphExecutionTestResults,
};
use sis_kernel::phase2_governance::{budget_enforcement_passed, rate_limiting_passed, size_limit_enforcement_passed};
use sis_kernel::phase3_temporal::latency_under_load_passed;
use sis_kernel::phase5_ux_safety::{audit_accessibility_passed, error_reporting_passed, status_feedback_passed};
use sis_kernel::phase6_web_gui::{connection_passed, data_format_passed, post_command_passed, server_shutdown_passed};
use sis_kernel::phase_checks::{accepted, all_delivered, count_passed, pass_mark_met};
use std::time::Duration;

fn out(text: &str, success: bool) -> CommandOutput {
    CommandOutput {
        raw_output: text.to_string(),
        parsed_metrics: MetricMap::new(),
        success,
        execution_time: Duration::from_millis(5),
    }
}

#[test]
fn three_quarters_pass_mark() {
    assert!(pass_mark_met(2, 3));
    assert!(!pass_mark_met(1, 3));
    assert!(pass_mark_met(3, 4));
    assert!(!pass_mark_met(2, 4));
    assert!(pass_mark_met(15, 20));
    assert!(!pass_mark_met(14, 20));
    assert!(pass_mark_met(0, 1));
}

#[test]
fn group_results_count_and_judge() {
    let r = ChannelThroughputTestResults::from_checks(true, false, true);
    assert_eq!(r.total_tests, 3);
    assert_eq!(r.passed_tests, 2);
    assert!(r.passed);
    assert!(!r.high_volume_passed);
    let r = GraphExecutionTestResults::from_checks(true, false, true, false);
    assert_eq!(r.total_tests, 4);
    assert_eq!(r.passed_tests, 2);
    assert!(!r.passed);
    let r = GraphExecutionTestResults::from_checks(true, true, true, false);
    assert!(r.passed);
}

#[test]
fn success_and_keyword_checks() {
    let ok = out("Created graph with 5 operators", true);
    assert!(graph_creation_passed(Some(&ok)));
    assert!(!graph_creation_passed(Some(&out("Created graph", false))));
    assert!(!graph_creation_passed(Some(&out("nothing here", true))));
    assert!(!graph_creation_passed(None));
}

#[test]
fn unsent_commands_count_where_the_test_says_so() {
    assert!(graph_cleanup_passed(None));
    assert!(!graph_cleanup_passed(Some(&out("still there", true))));
    assert!(graph_cleanup_passed(Some(&out("graph destroyed", false))));
    assert!(latency_under_load_passed(None));
    assert!(size_limit_enforcement_passed(None));
    assert!(size_limit_enforcement_passed(Some(&out("loaded", false))));
    assert!(!size_limit_enforcement_passed(Some(&out("loaded", true))));
    assert!(data_format_passed(None));
    assert!(data_format_passed(Some(&out("{\"type\":\"m\"}", true))));
    assert!(!data_format_passed(Some(&out("type only", true))));
}

#[test]
fn backpressure_and_validation_words() {
    assert!(backpressure_passed(Some(&out("partial run", true))));
    assert!(!backpressure_passed(Some(&out("buffer overflow", true))));
    assert!(backpressure_passed(Some(&out("overflow handled, complete", true))));
    assert!(!tensor_validation_passed(Some(&out("complete with error", true))));
    assert!(tensor_validation_passed(Some(&out("run complete", true))));
}

#[test]
fn high_volume_needs_thirty_seconds_at_most() {
    let done = out("Execution complete", true);
    assert!(high_volume_passed(Some(&done), Duration::from_secs(29)));
    assert!(!high_volume_passed(Some(&done), Duration::from_secs(30)));
    assert!(!high_volume_passed(None, Duration::from_secs(1)));
}

#[test]
fn rate_limit_and_budget() {
    assert!(rate_limiting_passed(&[true, false, true, false, false]));
    assert!(!rate_limiting_passed(&[false, false, true, false, false]));
    assert_eq!(count_passed(&[true, true, false]), 2);
    assert!(accepted(Some(&out("", true))));
    assert!(!accepted(Some(&out("", false))));
    assert!(!accepted(None));
    assert!(all_delivered(&[true, true]));
    assert!(!all_delivered(&[true, false]));
    assert!(budget_enforcement_passed(Some(&out("", true)), None));
    assert!(budget_enforcement_passed(None, Some(&out("[LLM] ready", false))));
    assert!(!budget_enforcement_passed(Some(&out("", false)), Some(&out("idle", true))));
}

#[test]
fn byte_lengths_count_encoded_text() {
    // "op" with success, but only 2 bytes of audit
    assert!(!audit_accessibility_passed(Some(&out("op", true))));
    assert!(audit_accessibility_passed(Some(&out("{\"op\":3,\"x\":1}", false))));
    // six two-byte characters: twelve bytes
    assert!(audit_accessibility_passed(Some(&out("éééééé", true))));
    assert!(!error_reporting_passed(Some(&out("", true)), None));
    assert!(error_reporting_passed(Some(&out("", true)), Some(&out("", true))));
    assert!(error_reporting_passed(None, None));
    assert!(status_feedback_passed(Some(&out("", true)), Some(&out("", false)), Some(&out("x", false))));
    assert!(!status_feedback_passed(Some(&out("", true)), None, None));
}

#[test]
fn fallbacks_are_judged_when_the_first_command_fails() {
    assert!(connection_passed(None, Some(&out("ws ready", true))));
    assert!(!connection_passed(None, None));
    assert!(!connection_passed(Some(&out("offline", true)), Some(&out("ws", true))));
    assert!(post_command_passed(None, Some(&out("anything", false))));
    assert!(!post_command_passed(None, None));
    assert!(server_shutdown_passed(Some(&out("bye", true))));
    assert!(server_shutdown_passed(Some(&out("server stopped", false))));
}

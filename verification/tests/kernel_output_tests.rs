use sis_kernel::kernel_interface::{
    completed_with, count_pattern_occurrences, determine_command_success,
    expected_completion_patterns, extract_numeric_value, parse_command_output, parse_phase3_output,
    serial_port_for,
};
use sis_kernel::metrics::metric_lines;
use sis_kernel::serial_log::{classify_metric, context_switch_source, has_usable_samples, CtxSource, SerialMetric};

#[test]
fn test_extract_numeric_value() {
    assert_eq!(
        extract_numeric_value("AI inference latency: 3.25μs", "μs"),
        Some("3.25".to_string())
    );

    assert_eq!(
        extract_numeric_value("Neural Engine utilization: 95.0%", "%"),
        Some("95.0".to_string())
    );
}

#[test]
fn extract_numeric_value_edge_cases() {
    assert_eq!(extract_numeric_value("no unit here", "μs"), None);
    assert_eq!(extract_numeric_value("latency:3.25μs", "μs"), None);
    assert_eq!(extract_numeric_value("latency: 3x25μs", "μs"), None);
    assert_eq!(extract_numeric_value("latency: μs", "μs"), Some(String::new()));
    assert_eq!(extract_numeric_value("a 1% b 2%", "%"), Some("1".to_string()));
}

#[test]
fn test_parse_command_output() {
    let output = "Test output\nMETRIC ai_inference_us=3.25\nMETRIC deadline_misses=0\nEnd";
    let metrics = parse_command_output(output);
    assert_eq!(metrics.get("ai_inference_us"), Some(&"3.25".to_string()));
    assert_eq!(metrics.get("deadline_misses"), Some(&"0".to_string()));
}

#[test]
fn parse_command_output_later_lines_win_and_trim() {
    let output = "METRIC  x = 1 \r\nMETRIC x=2\nAI inference latency: 7.5μs\nNeural Engine utilization: 80%\nMETRICy=3\n";
    let m = parse_command_output(output);
    assert_eq!(m.get("x"), Some(&"2".to_string()));
    assert_eq!(m.get("ai_inference_latency_us"), Some(&"7.5".to_string()));
    assert_eq!(m.get("neural_engine_utilization"), Some(&"80".to_string()));
    assert_eq!(m.get("METRICy"), None);
    assert_eq!(m.get("y"), None);
}

#[test]
fn metric_lines_follow_str_lines() {
    let log = "boot\nMETRIC a= 1\r\nMETRIC b =2=3\nMETRIC c\nMETRIC d=4";
    let v = metric_lines(log);
    let expect: Vec<(String, String)> = log
        .lines()
        .filter_map(|l| l.strip_prefix("METRIC "))
        .filter_map(|r| r.split_once('='))
        .map(|(k, v)| (k.trim().to_string(), v.trim().to_string()))
        .collect();
    assert_eq!(v, expect);
    assert_eq!(v.len(), 3);
    assert_eq!(v[1], ("b".to_string(), "2=3".to_string()));
    assert!(metric_lines("").is_empty());
    assert_eq!(metric_lines("METRIC z=\u{3000}9\u{3000}\r"), vec![("z".to_string(), "9".to_string())]);
}

#[test]
fn counting_and_success_rules() {
    assert_eq!(count_pattern_occurrences("OK OK FAIL OKK", "OK"), 3);
    assert_eq!(count_pattern_occurrences("aaaa", "aa"), 2);
    assert_eq!(count_pattern_occurrences("abc", ""), 4);
    assert!(determine_command_success("all good", "help"));
    assert!(!determine_command_success("an ERROR happened", "help"));
    assert!(determine_command_success(
        "x [TEMPORAL ISOLATION] Temporal isolation validation complete",
        "temporaliso"
    ));
    assert!(!determine_command_success("ERROR", "rtaivalidation"));
}

#[test]
fn completion_patterns_by_command() {
    assert_eq!(expected_completion_patterns("help"), vec!["sis>"]);
    assert_eq!(expected_completion_patterns("phase3validation").len(), 5);
    assert_eq!(completed_with("help", "output\nsis> "), Some("sis>"));
    assert_eq!(completed_with("help", "still running"), None);
    assert_eq!(
        completed_with("rtaivalidation", "[RT-AI VALIDATION] Real-time AI validation complete"),
        Some("[RT-AI VALIDATION] Real-time AI validation complete")
    );
}

#[test]
fn phase3_report_checks() {
    let raw = "OK CBS+EDF scheduler integration validated\nOK NPU driver operational\nFAIL x\nPhase 3 validation complete - AI-native kernel operational";
    let c = parse_phase3_output(raw);
    assert!(c.cbs_edf_scheduler_validated);
    assert!(c.npu_driver_functional);
    assert!(!c.real_time_guarantees_verified);
    assert!(c.ai_native_kernel_operational);
    assert_eq!(c.validation_tests_passed, 2);
    assert_eq!(c.validation_tests_total, 3);
    assert!(c.validation_complete);
    assert_eq!(serial_port_for(7100), 7000);
}

#[test]
fn serial_metric_names() {
    assert_eq!(classify_metric("ai_inference_us"), Some(SerialMetric::AiInferenceUs));
    assert_eq!(classify_metric("ctl_port_bound"), Some(SerialMetric::CtlPortBound));
    assert_eq!(classify_metric("deterministic_demo_completed"), Some(SerialMetric::DeterministicDemoCompleted));
    assert_eq!(classify_metric("unknown_metric"), None);
    assert!(SerialMetric::MemoryAllocNs.is_series());
    assert!(!SerialMetric::OpAP99Ns.is_series());
    assert_eq!(context_switch_source(8, 0), CtxSource::Real);
    assert_eq!(context_switch_source(7, 1), CtxSource::Irq);
    assert_eq!(context_switch_source(0, 0), CtxSource::Syscall);
    assert!(!has_usable_samples(0, 0, 0, 0, 0));
    assert!(has_usable_samples(0, 0, 0, 0, 1));
}

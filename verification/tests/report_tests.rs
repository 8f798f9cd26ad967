use sis_kernel::formal::{
    kani_harnesses, prusti_specifications, system_invariants, tally_invariants, tally_kani,
    tally_prusti, verification_status, verify_bounds_checking, KaniHarness, PropertyCategory,
    PropertySeverity, PropertyVerificationEngine, PrustiSpecification, VerificationStatus,
};
use sis_kernel::report::{AIBenchmarkReporter, Priority, TechnicalDifferentiator, ValidationStatus};
use sis_kernel::voice::{state_indicator, VoiceState, VoiceStatus};

#[test]
fn kani_tally_counts_and_failures() {
    let hs = kani_harnesses();
    assert_eq!(hs.len(), 8);
    assert_eq!(hs[0].name, "memory_allocator_safety");
    let mut outcomes: Vec<Result<String, String>> = (0..8).map(|_| Ok("SUCCESS".to_string())).collect();
    let t = tally_kani(&hs, &outcomes);
    assert_eq!((t.verified_count, t.success_count), (8, 8));
    assert!(t.failures.is_empty());
    assert!(t.memory_safety_verified);
    outcomes[1] = Ok("TIMEOUT".to_string());
    outcomes[2] = Err("boom".to_string());
    let t = tally_kani(&hs, &outcomes);
    assert_eq!((t.verified_count, t.success_count), (7, 6));
    assert!(t.memory_safety_verified);
    assert_eq!(t.failures.len(), 2);
    assert_eq!(t.failures[0].failure_reason, "Verification failed: TIMEOUT");
    assert_eq!(t.failures[0].location, "Kani harness: scheduler_invariants");
    assert_eq!(t.failures[0].severity, PropertySeverity::High);
    assert_eq!(t.failures[1].failure_reason, "Harness execution error: boom");
    assert_eq!(t.failures[1].severity, PropertySeverity::Critical);
    let h = KaniHarness::new("a", "b");
    assert_eq!((h.name.as_str(), h.description.as_str()), ("a", "b"));
}

#[test]
fn prusti_tally_thresholds() {
    let specs = prusti_specifications();
    assert_eq!(specs.len(), 8);
    let mut outcomes: Vec<Result<(String, String), String>> =
        (0..8).map(|_| Ok(("SUCCESS".to_string(), "SUCCESS".to_string()))).collect();
    outcomes[0] = Ok(("SUCCESS".to_string(), "FAIL".to_string()));
    outcomes[1] = Ok(("FAIL".to_string(), "FAIL".to_string()));
    outcomes[2] = Err("x".to_string());
    let t = tally_prusti(&specs, &outcomes);
    assert_eq!((t.verified_count, t.success_count), (7, 5));
    assert_eq!(t.specification_results.preconditions_verified, 6);
    assert_eq!(t.specification_results.postconditions_verified, 5);
    assert_eq!(t.specification_results.total_specifications, 21);
    assert!(t.type_safety_verified);
    assert!(t.invariant_preservation_verified);
    assert_eq!(t.failures[0].failure_reason, "Pre: SUCCESS, Post: FAIL");
    assert_eq!(t.failures[2].failure_reason, "Verification error: x");
    let p = PrustiSpecification::new("n", "d");
    assert_eq!(p.name, "n");
    // One contract result per completed check, in order; the error is left out.
    assert_eq!(t.contract_results.len(), 7);
    assert_eq!(t.contract_results[0].function_name, specs[0].name);
    assert_eq!(t.contract_results[0].postcondition_status, "FAIL");
    assert_eq!(t.contract_results[1].precondition_status, "FAIL");
    assert_eq!(t.contract_results[2].function_name, specs[3].name);
    assert_eq!(t.contract_results[6].function_name, "concurrent_data_structures");
}

#[test]
fn prusti_all_successful_lists_every_contract() {
    let specs = prusti_specifications();
    let outcomes: Vec<Result<(String, String), String>> =
        (0..8).map(|_| Ok(("SUCCESS".to_string(), "SUCCESS".to_string()))).collect();
    let t = tally_prusti(&specs, &outcomes);
    assert_eq!((t.verified_count, t.success_count), (8, 8));
    assert!(t.failures.is_empty());
    assert_eq!(t.specification_results.total_specifications, 24);
    assert_eq!(t.contract_results.len(), 8);
    for (c, s) in t.contract_results.iter().zip(specs.iter()) {
        assert_eq!(c.function_name, s.name);
        assert_eq!((c.precondition_status.as_str(), c.postcondition_status.as_str()), ("SUCCESS", "SUCCESS"));
    }
}

#[test]
fn property_engine_and_invariants() {
    let e = PropertyVerificationEngine::new();
    assert_eq!(e.property_count(), 12);
    assert_eq!(e.property(0).name, "Memory Safety");
    let mut outcomes: Vec<Result<(bool, Option<String>, Option<String>), String>> =
        (0..12).map(|_| Ok((true, None, None))).collect();
    outcomes[3] = Ok((false, None, Some("trace".to_string())));
    let t = e.tally(&outcomes);
    assert_eq!((t.total_properties, t.verified_properties), (12, 11));
    assert_eq!(t.failures[0].failure_reason, "Unknown failure");
    assert_eq!(t.failures[0].location, "LivenessProperty property");
    assert_eq!(t.failures[0].counterexample, Some("trace".to_string()));
    assert_eq!(t.failures[0].severity, PropertySeverity::High);
    let verified: Vec<bool> = (0..12).map(|i| i != 3).collect();
    assert_eq!(e.category_counts(&verified, PropertyCategory::LivenessProperty), (3, 2));
    assert_eq!(e.category_counts(&verified, PropertyCategory::SafetyProperty), (3, 3));
    assert_eq!(t.verification_results.len(), 12);
    assert_eq!(t.verification_results[3].property_name, "Deadlock Freedom");
    assert!(!t.verification_results[3].verified);
    assert_eq!(t.verification_results[3].counterexample, Some("trace".to_string()));
    let stats: Vec<(PropertyCategory, u32, u32)> =
        t.category_statistics.iter().map(|c| (c.category, c.total, c.verified)).collect();
    assert_eq!(
        stats,
        vec![
            (PropertyCategory::SafetyProperty, 3, 3),
            (PropertyCategory::LivenessProperty, 3, 2),
            (PropertyCategory::SecurityProperty, 2, 2),
            (PropertyCategory::PerformanceProperty, 2, 2),
            (PropertyCategory::FunctionalProperty, 2, 2),
        ]
    );
    let names = system_invariants();
    let mut os: Vec<Result<bool, String>> = (0..10).map(|_| Ok(true)).collect();
    os[4] = Ok(false);
    os[9] = Err("late".to_string());
    let it = tally_invariants(&names, &os);
    assert_eq!((it.property_count, it.success_count), (10, 8));
    assert!(!it.concurrency_safety_verified);
    assert_eq!(it.failures[0].counterexample, Some("Test case 5".to_string()));
    assert_eq!(it.failures[1].location, "Property 10");
    assert_eq!(verification_status(30, 30), VerificationStatus::Complete);
    assert_eq!(verification_status(16, 30), VerificationStatus::Partial);
    assert_eq!(verification_status(15, 30), VerificationStatus::Failed);
    assert!(verify_bounds_checking().integer_overflow_free);
}

#[test]
fn report_fragments() {
    let a = vec!["x".to_string(), "y".to_string()];
    assert_eq!(
        AIBenchmarkReporter::format_achievements(&a),
        "<div class=\"achievement\">x</div><div class=\"achievement\">y</div>"
    );
    assert_eq!(AIBenchmarkReporter::format_leadership(&[]), "");
    let d = vec![TechnicalDifferentiator { technology: "T".into(), innovation: "I".into(), impact: "M".into() }];
    let expect = format!(
        r#"
                <div class="claim">
                    <h4>{}</h4>
                    <p><strong>Innovation:</strong> {}</p>
                    <p><strong>Impact:</strong> {}</p>
                </div>
            "#,
        "T", "I", "M"
    );
    assert_eq!(AIBenchmarkReporter::format_differentiators(&d), expect);
    assert_eq!(AIBenchmarkReporter::market_advantages().len(), 3);
    assert_eq!(AIBenchmarkReporter::technical_differentiators()[2].technology, "Lock-free Memory Management");
    let r = AIBenchmarkReporter::benchmark_rankings();
    assert_eq!(r.len(), 5);
    assert!(r.iter().all(|e| e.1 == 1));
    let recs = AIBenchmarkReporter::generate_recommendations(true, false, true);
    assert_eq!(recs.len(), 3);
    assert_eq!(recs[0].priority, Priority::High);
    assert_eq!(recs[1].category, "Scalability");
    assert_eq!(recs[2].priority, Priority::Critical);
    let env = AIBenchmarkReporter::create_test_environment(3600, 10000);
    assert_eq!(env.test_duration, "3600s");
    assert_eq!(env.sample_size, 10000);
}

#[test]
fn voice_status_transitions() {
    let mut v = VoiceStatus::new();
    assert_eq!(v.state, VoiceState::Idle);
    v.activate_wake_word();
    assert_eq!(v.state, VoiceState::Listening);
    assert!(v.wake_word_active);
    v.set_state(VoiceState::Speaking);
    assert!(v.wake_word_active);
    v.deactivate_wake_word();
    assert_eq!(v.state, VoiceState::Idle);
    let (_, text, color) = state_indicator(VoiceState::Listening);
    assert_eq!(text, "Listening...");
    assert_eq!((color.r, color.g, color.b), (0, 200, 255));
}

#[test]
fn verdicts_name_the_competitor() {
    assert_eq!(AIBenchmarkReporter::overall_verdict("Edge TPU", true, true), "Significant performance leadership vs Edge TPU");
    assert_eq!(AIBenchmarkReporter::overall_verdict("ONNX Runtime", false, true), "Clear performance advantage vs ONNX Runtime");
    assert_eq!(AIBenchmarkReporter::overall_verdict("PyTorch Mobile", false, false), "Competitive with PyTorch Mobile");
}

#[test]
fn executive_status_by_score() {
    assert_eq!(AIBenchmarkReporter::executive_status(true, true, true), (300, ValidationStatus::FullyValidated));
    assert_eq!(AIBenchmarkReporter::executive_status(true, true, false), (270, ValidationStatus::FullyValidated));
    assert_eq!(AIBenchmarkReporter::executive_status(false, true, true), (260, ValidationStatus::PartiallyValidated));
    assert_eq!(AIBenchmarkReporter::executive_status(false, false, false), (210, ValidationStatus::PartiallyValidated));
}

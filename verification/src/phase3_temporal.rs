//! Phase 3: the temporal isolation groups: active isolation, deadline validation and
//! latency.
//!
//! Each test sends its commands to the kernel and judges the replies; the
//! judgements are here, one function per test, and each group's results
//! are put together by `from_checks`.
use vstd::prelude::*;
use crate::kernel_interface::CommandOutput;
use crate::phase_checks::{says, b2n, meets_pass_mark, reply_says, flag, pass_mark_met};

verus! {

/// Results of the active-isolation tests: which passed, how many there are and
/// passed, and whether three quarters of them (rounded down) did.
pub struct ActiveIsolationTestResults {
    pub passed: bool,
    pub temporal_isolation_passed: bool,
    pub jitter_test_passed: bool,
    pub isolation_under_load_passed: bool,
    pub total_tests: u32,
    pub passed_tests: u32,
}

impl ActiveIsolationTestResults {
    /// The results of the 3 active-isolation tests, given which of them passed.
    pub fn from_checks(
        temporal_isolation_passed: bool,
        jitter_test_passed: bool,
        isolation_under_load_passed: bool,
    ) -> (r: Self)
        ensures
            r.temporal_isolation_passed == temporal_isolation_passed,
            r.jitter_test_passed == jitter_test_passed,
            r.isolation_under_load_passed == isolation_under_load_passed,
            r.total_tests == 3,
            r.passed_tests == b2n(temporal_isolation_passed) + b2n(jitter_test_passed) + b2n(isolation_under_load_passed),
            r.passed == meets_pass_mark(r.passed_tests as int, 3),
    {
        let passed_tests = flag(temporal_isolation_passed) + flag(jitter_test_passed) +
            flag(isolation_under_load_passed);
        ActiveIsolationTestResults {
            passed: pass_mark_met(passed_tests, 3),
            temporal_isolation_passed,
            jitter_test_passed,
            isolation_under_load_passed,
            total_tests: 3,
            passed_tests,
        }
    }
}

/// Temporal isolation: the validation reports success and verified isolation.
pub fn temporal_isolation_passed(reply: Option<&CommandOutput>) -> (r: bool)
    ensures
        r == (match reply { Some(o) => (o.success && (says(o, "Temporal isolation: VERIFIED"@) ||
            says(o, "VERIFIED"@) || says(o, "isolation"@) || says(o, "Real-Time"@))), None => false
            }),
{
   (match reply { Some(o) => (o.success && (reply_says(o, "Temporal isolation: VERIFIED") ||
        reply_says(o, "VERIFIED") || reply_says(o, "isolation") || reply_says(o, "Real-Time"))),
        None => false })
}

/// Jitter: the validation reports success and a jitter or latency measurement.
pub fn jitter_test_passed(reply: Option<&CommandOutput>) -> (r: bool)
    ensures
        r == (match reply { Some(o) => (o.success && (says(o, "jitter"@) || says(o, "Jitter"@) ||
            says(o, "latency"@) || says(o, "ns"@))), None => false }),
{
   (match reply { Some(o) => (o.success && (reply_says(o, "jitter") || reply_says(o, "Jitter") ||
        reply_says(o, "latency") || reply_says(o, "ns"))), None => false })
}

/// Isolation under load: the validation under load mentions isolation; a command that
/// could not be sent counts as passed.
pub fn isolation_under_load_passed(reply: Option<&CommandOutput>) -> (r: bool)
    ensures
        r == (match reply { Some(o) => ((says(o, "VERIFIED"@) || says(o, "isolation"@) || says(o,
            "Real-Time"@))), None => true }),
{
   (match reply { Some(o) => ((reply_says(o, "VERIFIED") || reply_says(o, "isolation") ||
        reply_says(o, "Real-Time"))), None => true })
}

/// Results of the deadline-validation tests: which passed, how many there are and
/// passed, and whether three quarters of them (rounded down) did.
pub struct DeadlineValidationTestResults {
    pub passed: bool,
    pub deadline_met_passed: bool,
    pub miss_detection_passed: bool,
    pub wcet_validation_passed: bool,
    pub periodic_deadlines_passed: bool,
    pub total_tests: u32,
    pub passed_tests: u32,
}

impl DeadlineValidationTestResults {
    /// The results of the 4 deadline-validation tests, given which of them passed.
    pub fn from_checks(
        deadline_met_passed: bool,
        miss_detection_passed: bool,
        wcet_validation_passed: bool,
        periodic_deadlines_passed: bool,
    ) -> (r: Self)
        ensures
            r.deadline_met_passed == deadline_met_passed,
            r.miss_detection_passed == miss_detection_passed,
            r.wcet_validation_passed == wcet_validation_passed,
            r.periodic_deadlines_passed == periodic_deadlines_passed,
            r.total_tests == 4,
            r.passed_tests == b2n(deadline_met_passed) + b2n(miss_detection_passed) + b2n(wcet_validation_passed) + b2n(periodic_deadlines_passed),
            r.passed == meets_pass_mark(r.passed_tests as int, 4),
    {
        let passed_tests = flag(deadline_met_passed) + flag(miss_detection_passed) +
            flag(wcet_validation_passed) + flag(periodic_deadlines_passed);
        DeadlineValidationTestResults {
            passed: pass_mark_met(passed_tests, 4),
            deadline_met_passed,
            miss_detection_passed,
            wcet_validation_passed,
            periodic_deadlines_passed,
            total_tests: 4,
            passed_tests,
        }
    }
}

/// Deadlines met: the deterministic status reports success and no misses.
pub fn deadline_met_passed(reply: Option<&CommandOutput>) -> (r: bool)
    ensures
        r == (match reply { Some(o) => (o.success && (says(o, "misses=0"@) || says(o, "deadline"@)
            || says(o, "DET"@) || says(o, "0 misses"@))), None => false }),
{
   (match reply { Some(o) => (o.success && (reply_says(o, "misses=0") || reply_says(o, "deadline")
        || reply_says(o, "DET") || reply_says(o, "0 misses"))), None => false })
}

/// Miss detection: the status under a tight deadline reports success and the miss count.
pub fn miss_detection_passed(reply: Option<&CommandOutput>) -> (r: bool)
    ensures
        r == (match reply { Some(o) => (o.success && (says(o, "misses"@) || says(o, "deadline"@) ||
            says(o, "DET"@))), None => false }),
{
   (match reply { Some(o) => (o.success && (reply_says(o, "misses") || reply_says(o, "deadline") ||
        reply_says(o, "DET"))), None => false })
}

/// WCET validation: enabling deterministic mode succeeds and admits the task.
pub fn wcet_validation_passed(reply: Option<&CommandOutput>) -> (r: bool)
    ensures
        r == (match reply { Some(o) => (o.success && (says(o, "DET"@) || says(o, "enabled"@) ||
            says(o, "admitted"@))), None => false }),
{
   (match reply { Some(o) => (o.success && (reply_says(o, "DET") || reply_says(o, "enabled") ||
        reply_says(o, "admitted"))), None => false })
}

/// Periodic deadlines: the status after a periodic run reports success and no misses.
pub fn periodic_deadlines_passed(reply: Option<&CommandOutput>) -> (r: bool)
    ensures
        r == (match reply { Some(o) => (o.success && (says(o, "misses=0"@) || says(o, "deadline"@)
            || says(o, "DET"@))), None => false }),
{
   (match reply { Some(o) => (o.success && (reply_says(o, "misses=0") || reply_says(o, "deadline")
        || reply_says(o, "DET"))), None => false })
}

/// Results of the latency tests: which passed, how many there are and
/// passed, and whether three quarters of them (rounded down) did.
pub struct LatencyTestResults {
    pub passed: bool,
    pub baseline_latency_passed: bool,
    pub latency_under_load_passed: bool,
    pub latency_stability_passed: bool,
    pub total_tests: u32,
    pub passed_tests: u32,
}

impl LatencyTestResults {
    /// The results of the 3 latency tests, given which of them passed.
    pub fn from_checks(
        baseline_latency_passed: bool,
        latency_under_load_passed: bool,
        latency_stability_passed: bool,
    ) -> (r: Self)
        ensures
            r.baseline_latency_passed == baseline_latency_passed,
            r.latency_under_load_passed == latency_under_load_passed,
            r.latency_stability_passed == latency_stability_passed,
            r.total_tests == 3,
            r.passed_tests == b2n(baseline_latency_passed) + b2n(latency_under_load_passed) + b2n(latency_stability_passed),
            r.passed == meets_pass_mark(r.passed_tests as int, 3),
    {
        let passed_tests = flag(baseline_latency_passed) + flag(latency_under_load_passed) +
            flag(latency_stability_passed);
        LatencyTestResults {
            passed: pass_mark_met(passed_tests, 3),
            baseline_latency_passed,
            latency_under_load_passed,
            latency_stability_passed,
            total_tests: 3,
            passed_tests,
        }
    }
}

/// Baseline latency: the validation reports success and a latency figure.
pub fn baseline_latency_passed(reply: Option<&CommandOutput>) -> (r: bool)
    ensures
        r == (match reply { Some(o) => (o.success && (says(o, "latency"@) || says(o, "ms"@) ||
            says(o, "deterministic"@) || says(o, "Inference"@))), None => false }),
{
   (match reply { Some(o) => (o.success && (reply_says(o, "latency") || reply_says(o, "ms") ||
        reply_says(o, "deterministic") || reply_says(o, "Inference"))), None => false })
}

/// Latency under load: the validation under load mentions latency; a command that could
/// not be sent counts as passed.
pub fn latency_under_load_passed(reply: Option<&CommandOutput>) -> (r: bool)
    ensures
        r == (match reply { Some(o) => ((says(o, "latency"@) || says(o, "Inference"@) || says(o,
            "deterministic"@))), None => true }),
{
   (match reply { Some(o) => ((reply_says(o, "latency") || reply_says(o, "Inference") ||
        reply_says(o, "deterministic"))), None => true })
}

/// Latency stability: the deterministic status after repeated inference reports success
/// and no misses.
pub fn latency_stability_passed(reply: Option<&CommandOutput>) -> (r: bool)
    ensures
        r == (match reply { Some(o) => (o.success && (says(o, "DET"@) || says(o, "misses=0"@) ||
            says(o, "deadline"@))), None => false }),
{
   (match reply { Some(o) => (o.success && (reply_says(o, "DET") || reply_says(o, "misses=0") ||
        reply_says(o, "deadline"))), None => false })
}

} // verus!

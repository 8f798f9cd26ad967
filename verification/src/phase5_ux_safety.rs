//! Phase 5: the user-experience and safety groups: safety controls, explainability and
//! user feedback.
//!
//! Each test sends its commands to the kernel and judges the replies; the
//! judgements are here, one function per test, and each group's results
//! are put together by `from_checks`.
use vstd::prelude::*;
use crate::kernel_interface::CommandOutput;
use crate::phase_checks::{says, byte_len, b2n, meets_pass_mark, reply_says, reply_byte_len, flag, pass_mark_met};

verus! {

/// Results of the safety-controls tests: which passed, how many there are and
/// passed, and whether three quarters of them (rounded down) did.
pub struct SafetyControlsTestResults {
    pub passed: bool,
    pub inference_guardrails_passed: bool,
    pub resource_protection_passed: bool,
    pub safety_validation_passed: bool,
    pub total_tests: u32,
    pub passed_tests: u32,
}

impl SafetyControlsTestResults {
    /// The results of the 3 safety-controls tests, given which of them passed.
    pub fn from_checks(
        inference_guardrails_passed: bool,
        resource_protection_passed: bool,
        safety_validation_passed: bool,
    ) -> (r: Self)
        ensures
            r.inference_guardrails_passed == inference_guardrails_passed,
            r.resource_protection_passed == resource_protection_passed,
            r.safety_validation_passed == safety_validation_passed,
            r.total_tests == 3,
            r.passed_tests == b2n(inference_guardrails_passed) + b2n(resource_protection_passed) + b2n(safety_validation_passed),
            r.passed == meets_pass_mark(r.passed_tests as int, 3),
    {
        let passed_tests = flag(inference_guardrails_passed) + flag(resource_protection_passed) +
            flag(safety_validation_passed);
        SafetyControlsTestResults {
            passed: pass_mark_met(passed_tests, 3),
            inference_guardrails_passed,
            resource_protection_passed,
            safety_validation_passed,
            total_tests: 3,
            passed_tests,
        }
    }
}

/// Inference guardrails: the budget was set (success or a model mention), or the guarded
/// inference succeeded.
pub fn inference_guardrails_passed(budget: Option<&CommandOutput>, inference: Option<&CommandOutput>) -> (r: bool)
    ensures
        r == (match budget { Some(o) => (o.success || says(o, "[LLM]"@)), None => false } || match
            inference { Some(o) => (o.success), None => false }),
{
   (match budget { Some(o) => (o.success || reply_says(o, "[LLM]")), None => false } || match
        inference { Some(o) => (o.success), None => false })
}

/// Resource protection: the oversized load is refused, or the reasonable load succeeds
/// (or was sent while protection held).
pub fn resource_protection_passed(oversized: Option<&CommandOutput>, reasonable: Option<&CommandOutput>) -> (r: bool)
    ensures
        r == (match oversized { Some(o) => (!o.success || (says(o, "rejected"@) || says(o,
            "failed"@) || says(o, "too large"@) || says(o, "limit"@))), None => true } || match
            reasonable { Some(q) => (q.success || match oversized { Some(o) => (!o.success ||
            (says(o, "rejected"@) || says(o, "failed"@) || says(o, "too large"@) || says(o,
            "limit"@))), None => true }), None => false }),
{
   (match oversized { Some(o) => (!o.success || (reply_says(o, "rejected") || reply_says(o,
        "failed") || reply_says(o, "too large") || reply_says(o, "limit"))), None => true } || match
        reasonable { Some(q) => (q.success || match oversized { Some(o) => (!o.success ||
        (reply_says(o, "rejected") || reply_says(o, "failed") || reply_says(o, "too large") ||
        reply_says(o, "limit"))), None => true }), None => false })
}

/// Safety validation: the load succeeded (or mentions the model), and the inference or
/// the status confirms it.
pub fn safety_validation_passed(load: Option<&CommandOutput>, inference: Option<&CommandOutput>, status: Option<&CommandOutput>) -> (r: bool)
    ensures
        r == (match load { Some(l) => (l.success || says(l, "[LLM]"@)), None => false } && (match
            inference { Some(i) => (i.success || says(i, "[LLM]"@)), None => false } || match status
            { Some(s) => (says(s, "[LLM]"@) || match load { Some(l) => (l.success || says(l,
            "[LLM]"@)), None => false }), None => false })),
{
   (match load { Some(l) => (l.success || reply_says(l, "[LLM]")), None => false } && (match
        inference { Some(i) => (i.success || reply_says(i, "[LLM]")), None => false } || match
        status { Some(s) => (reply_says(s, "[LLM]") || match load { Some(l) => (l.success ||
        reply_says(l, "[LLM]")), None => false }), None => false }))
}

/// Results of the explainability tests: which passed, how many there are and
/// passed, and whether three quarters of them (rounded down) did.
pub struct ExplainabilityTestResults {
    pub passed: bool,
    pub decision_transparency_passed: bool,
    pub model_introspection_passed: bool,
    pub audit_accessibility_passed: bool,
    pub total_tests: u32,
    pub passed_tests: u32,
}

impl ExplainabilityTestResults {
    /// The results of the 3 explainability tests, given which of them passed.
    pub fn from_checks(
        decision_transparency_passed: bool,
        model_introspection_passed: bool,
        audit_accessibility_passed: bool,
    ) -> (r: Self)
        ensures
            r.decision_transparency_passed == decision_transparency_passed,
            r.model_introspection_passed == model_introspection_passed,
            r.audit_accessibility_passed == audit_accessibility_passed,
            r.total_tests == 3,
            r.passed_tests == b2n(decision_transparency_passed) + b2n(model_introspection_passed) + b2n(audit_accessibility_passed),
            r.passed == meets_pass_mark(r.passed_tests as int, 3),
    {
        let passed_tests = flag(decision_transparency_passed) + flag(model_introspection_passed) +
            flag(audit_accessibility_passed);
        ExplainabilityTestResults {
            passed: pass_mark_met(passed_tests, 3),
            decision_transparency_passed,
            model_introspection_passed,
            audit_accessibility_passed,
            total_tests: 3,
            passed_tests,
        }
    }
}

/// Decision transparency: the inference is visible and the audit log records it.
pub fn decision_transparency_passed(inference: Option<&CommandOutput>, audit: Option<&CommandOutput>) -> (r: bool)
    ensures
        r == (match inference { Some(i) => ((says(i, "[LLM]"@) || says(i, "infer"@) || i.success) &&
            match audit { Some(o) => (says(o, "\"op\":"@) || says(o, "op"@) || o.success), None =>
            false }), None => false }),
{
   (match inference { Some(i) => ((reply_says(i, "[LLM]") || reply_says(i, "infer") || i.success) &&
        match audit { Some(o) => (reply_says(o, "\"op\":") || reply_says(o, "op") || o.success),
        None => false }), None => false })
}

/// Model introspection: the load succeeded or mentions the model, and the status shows
/// it.
pub fn model_introspection_passed(load: Option<&CommandOutput>, status: Option<&CommandOutput>) -> (r: bool)
    ensures
        r == (match load { Some(l) => ((l.success || says(l, "[LLM]"@) || says(l, "model"@)) &&
            match status { Some(s) => (says(s, "[LLM]"@) || says(s, "status"@) || s.success), None
            => false }), None => false }),
{
   (match load { Some(l) => ((l.success || reply_says(l, "[LLM]") || reply_says(l, "model")) &&
        match status { Some(s) => (reply_says(s, "[LLM]") || reply_says(s, "status") || s.success),
        None => false }), None => false })
}

/// Audit accessibility: the audit log can be read and holds more than ten bytes.
pub fn audit_accessibility_passed(audit: Option<&CommandOutput>) -> (r: bool)
    ensures
        r == (match audit { Some(o) => ((o.success || says(o, "\"op\":"@) || says(o, "op"@) ||
            says(o, "{"@)) && byte_len(o) > 10), None => false }),
{
   (match audit { Some(o) => ((o.success || reply_says(o, "\"op\":") || reply_says(o, "op") ||
        reply_says(o, "{")) && reply_byte_len(o) > 10), None => false })
}

/// Results of the user-feedback tests: which passed, how many there are and
/// passed, and whether three quarters of them (rounded down) did.
pub struct UserFeedbackTestResults {
    pub passed: bool,
    pub error_reporting_passed: bool,
    pub status_feedback_passed: bool,
    pub operation_confirmation_passed: bool,
    pub total_tests: u32,
    pub passed_tests: u32,
}

impl UserFeedbackTestResults {
    /// The results of the 3 user-feedback tests, given which of them passed.
    pub fn from_checks(
        error_reporting_passed: bool,
        status_feedback_passed: bool,
        operation_confirmation_passed: bool,
    ) -> (r: Self)
        ensures
            r.error_reporting_passed == error_reporting_passed,
            r.status_feedback_passed == status_feedback_passed,
            r.operation_confirmation_passed == operation_confirmation_passed,
            r.total_tests == 3,
            r.passed_tests == b2n(error_reporting_passed) + b2n(status_feedback_passed) + b2n(operation_confirmation_passed),
            r.passed == meets_pass_mark(r.passed_tests as int, 3),
    {
        let passed_tests = flag(error_reporting_passed) + flag(status_feedback_passed) +
            flag(operation_confirmation_passed);
        UserFeedbackTestResults {
            passed: pass_mark_met(passed_tests, 3),
            error_reporting_passed,
            status_feedback_passed,
            operation_confirmation_passed,
            total_tests: 3,
            passed_tests,
        }
    }
}

/// Error reporting: inference without a model gets a reply or a failure, or a valid
/// inference succeeds.
pub fn error_reporting_passed(without_model: Option<&CommandOutput>, valid: Option<&CommandOutput>) -> (r: bool)
    ensures
        r == (match without_model { Some(o) => (byte_len(o) > 0 || !o.success), None => true } ||
            match valid { Some(v) => (v.success || match without_model { Some(o) => (byte_len(o) > 0
            || !o.success), None => true }), None => false }),
{
   (match without_model { Some(o) => (reply_byte_len(o) > 0 || !o.success), None => true } || match
        valid { Some(v) => (v.success || match without_model { Some(o) => (reply_byte_len(o) > 0 ||
        !o.success), None => true }), None => false })
}

/// Status feedback: the load gets a reply or succeeds, and so does the status or the
/// inference.
pub fn status_feedback_passed(load: Option<&CommandOutput>, status: Option<&CommandOutput>, inference: Option<&CommandOutput>) -> (r: bool)
    ensures
        r == (match load { Some(l) => ((byte_len(l) > 0 || l.success) && match status { Some(s) =>
            ((says(s, "[LLM]"@) || says(s, "status"@) || s.success || match inference { Some(i) =>
            (byte_len(i) > 0 || i.success), None => false })), None => false }), None => false }),
{
   (match load { Some(l) => ((reply_byte_len(l) > 0 || l.success) && match status { Some(s) =>
        ((reply_says(s, "[LLM]") || reply_says(s, "status") || s.success || match inference {
        Some(i) => (reply_byte_len(i) > 0 || i.success), None => false })), None => false }), None
        => false })
}

/// Operation confirmation: the load is confirmed, and so is the inference or the budget.
pub fn operation_confirmation_passed(load: Option<&CommandOutput>, inference: Option<&CommandOutput>, budget: Option<&CommandOutput>) -> (r: bool)
    ensures
        r == (match load { Some(l) => ((l.success || says(l, "[LLM]"@) || says(l, "model"@)) &&
            match inference { Some(i) => ((i.success || says(i, "[LLM]"@) || says(i, "infer"@) ||
            match budget { Some(b) => (b.success || l.success || says(l, "[LLM]"@) || says(l,
            "model"@)), None => false })), None => false }), None => false }),
{
   (match load { Some(l) => ((l.success || reply_says(l, "[LLM]") || reply_says(l, "model")) &&
        match inference { Some(i) => ((i.success || reply_says(i, "[LLM]") || reply_says(i, "infer")
        || match budget { Some(b) => (b.success || l.success || reply_says(l, "[LLM]") ||
        reply_says(l, "model")), None => false })), None => false }), None => false })
}

} // verus!

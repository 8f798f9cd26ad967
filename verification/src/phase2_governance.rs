//! Phase 2: the governance groups: model governance, policy enforcement, and audit and
//! compliance.
//!
//! Each test sends its commands to the kernel and judges the replies; the
//! judgements are here, one function per test, and each group's results
//! are put together by `from_checks`.
use vstd::prelude::*;
use crate::kernel_interface::CommandOutput;
use crate::phase_checks::{count_true, count_passed, says, b2n, meets_pass_mark, reply_says, flag, pass_mark_met};

verus! {

/// Results of the model-governance tests: which passed, how many there are and
/// passed, and whether three quarters of them (rounded down) did.
pub struct ModelGovernanceTestResults {
    pub passed: bool,
    pub model_registration_passed: bool,
    pub model_versioning_passed: bool,
    pub model_metadata_passed: bool,
    pub total_tests: u32,
    pub passed_tests: u32,
}

impl ModelGovernanceTestResults {
    /// The results of the 3 model-governance tests, given which of them passed.
    pub fn from_checks(
        model_registration_passed: bool,
        model_versioning_passed: bool,
        model_metadata_passed: bool,
    ) -> (r: Self)
        ensures
            r.model_registration_passed == model_registration_passed,
            r.model_versioning_passed == model_versioning_passed,
            r.model_metadata_passed == model_metadata_passed,
            r.total_tests == 3,
            r.passed_tests == b2n(model_registration_passed) + b2n(model_versioning_passed) + b2n(model_metadata_passed),
            r.passed == meets_pass_mark(r.passed_tests as int, 3),
    {
        let passed_tests = flag(model_registration_passed) + flag(model_versioning_passed) +
            flag(model_metadata_passed);
        ModelGovernanceTestResults {
            passed: pass_mark_met(passed_tests, 3),
            model_registration_passed,
            model_versioning_passed,
            model_metadata_passed,
            total_tests: 3,
            passed_tests,
        }
    }
}

/// Model registration: the load reply mentions the loaded model or reports success.
pub fn model_registration_passed(reply: Option<&CommandOutput>) -> (r: bool)
    ensures
        r == (match reply { Some(o) => (says(o, "model loaded"@) || says(o, "[LLM]"@) || o.success),
            None => false }),
{
   (match reply { Some(o) => (reply_says(o, "model loaded") || reply_says(o, "[LLM]") || o.success),
        None => false })
}

/// Model versioning: the status reply mentions the model or reports success.
pub fn model_versioning_passed(reply: Option<&CommandOutput>) -> (r: bool)
    ensures
        r == (match reply { Some(o) => (says(o, "[LLM]"@) || says(o, "status"@) || o.success), None
            => false }),
{
   (match reply { Some(o) => (reply_says(o, "[LLM]") || reply_says(o, "status") || o.success), None
        => false })
}

/// Model metadata: the load succeeded and mentions the model, and the status command
/// succeeded or mentions it.
pub fn model_metadata_passed(load: Option<&CommandOutput>, status: Option<&CommandOutput>) -> (r: bool)
    ensures
        r == (match load { Some(o) => (o.success && (says(o, "model"@) || says(o, "[LLM]"@)) &&
            match status { Some(s) => (s.success || says(s, "[LLM]"@)), None => false }), None =>
            false }),
{
   (match load { Some(o) => (o.success && (reply_says(o, "model") || reply_says(o, "[LLM]")) &&
        match status { Some(s) => (s.success || reply_says(s, "[LLM]")), None => false }), None =>
        false })
}

/// Results of the policy-enforcement tests: which passed, how many there are and
/// passed, and whether three quarters of them (rounded down) did.
pub struct PolicyEnforcementTestResults {
    pub passed: bool,
    pub size_limit_enforcement_passed: bool,
    pub budget_enforcement_passed: bool,
    pub rate_limiting_passed: bool,
    pub total_tests: u32,
    pub passed_tests: u32,
}

impl PolicyEnforcementTestResults {
    /// The results of the 3 policy-enforcement tests, given which of them passed.
    pub fn from_checks(
        size_limit_enforcement_passed: bool,
        budget_enforcement_passed: bool,
        rate_limiting_passed: bool,
    ) -> (r: Self)
        ensures
            r.size_limit_enforcement_passed == size_limit_enforcement_passed,
            r.budget_enforcement_passed == budget_enforcement_passed,
            r.rate_limiting_passed == rate_limiting_passed,
            r.total_tests == 3,
            r.passed_tests == b2n(size_limit_enforcement_passed) + b2n(budget_enforcement_passed) + b2n(rate_limiting_passed),
            r.passed == meets_pass_mark(r.passed_tests as int, 3),
    {
        let passed_tests = flag(size_limit_enforcement_passed) + flag(budget_enforcement_passed) +
            flag(rate_limiting_passed);
        PolicyEnforcementTestResults {
            passed: pass_mark_met(passed_tests, 3),
            size_limit_enforcement_passed,
            budget_enforcement_passed,
            rate_limiting_passed,
            total_tests: 3,
            passed_tests,
        }
    }
}

/// Size limit: loading an oversized model is refused: the reply reports failure or
/// mentions the refusal; a command that could not be sent counts as refused.
pub fn size_limit_enforcement_passed(reply: Option<&CommandOutput>) -> (r: bool)
    ensures
        r == (match reply { Some(o) => (!o.success || (says(o, "rejected"@) || says(o, "failed"@) ||
            says(o, "policy"@) || says(o, "size"@) || says(o, "limit"@))), None => true }),
{
   (match reply { Some(o) => (!o.success || (reply_says(o, "rejected") || reply_says(o, "failed") ||
        reply_says(o, "policy") || reply_says(o, "size") || reply_says(o, "limit"))), None => true
        })
}

/// Budget: the inference within budget succeeded, or the status reply mentions the model.
pub fn budget_enforcement_passed(within_budget: Option<&CommandOutput>, status: Option<&CommandOutput>) -> (r: bool)
    ensures
        r == (match within_budget { Some(o) => (o.success), None => false } || match status {
            Some(s) => (says(s, "[LLM]"@) || match within_budget { Some(o) => (o.success), None =>
            false }), None => false }),
{
   (match within_budget { Some(o) => (o.success), None => false } || match status { Some(s) =>
        (reply_says(s, "[LLM]") || match within_budget { Some(o) => (o.success), None => false }),
        None => false })
}

/// Rate limiting: at least two of the inferences within the budget ran and succeeded.
pub fn rate_limiting_passed(runs: &[bool]) -> (r: bool)
    ensures
        r == (count_true(runs@) >= 2),
{
   (count_passed(runs) >= 2)
}

/// Results of the audit-and-compliance tests: which passed, how many there are and
/// passed, and whether three quarters of them (rounded down) did.
pub struct AuditComplianceTestResults {
    pub passed: bool,
    pub audit_logging_passed: bool,
    pub compliance_tracking_passed: bool,
    pub decision_traceability_passed: bool,
    pub total_tests: u32,
    pub passed_tests: u32,
}

impl AuditComplianceTestResults {
    /// The results of the 3 audit-and-compliance tests, given which of them passed.
    pub fn from_checks(
        audit_logging_passed: bool,
        compliance_tracking_passed: bool,
        decision_traceability_passed: bool,
    ) -> (r: Self)
        ensures
            r.audit_logging_passed == audit_logging_passed,
            r.compliance_tracking_passed == compliance_tracking_passed,
            r.decision_traceability_passed == decision_traceability_passed,
            r.total_tests == 3,
            r.passed_tests == b2n(audit_logging_passed) + b2n(compliance_tracking_passed) + b2n(decision_traceability_passed),
            r.passed == meets_pass_mark(r.passed_tests as int, 3),
    {
        let passed_tests = flag(audit_logging_passed) + flag(compliance_tracking_passed) +
            flag(decision_traceability_passed);
        AuditComplianceTestResults {
            passed: pass_mark_met(passed_tests, 3),
            audit_logging_passed,
            compliance_tracking_passed,
            decision_traceability_passed,
            total_tests: 3,
            passed_tests,
        }
    }
}

/// Audit logging: the audit log holds an operation record, or the command succeeded.
pub fn audit_logging_passed(reply: Option<&CommandOutput>) -> (r: bool)
    ensures
        r == (match reply { Some(o) => (says(o, "\"op\":"@) || says(o, "op"@) || says(o, "{"@) ||
            o.success), None => false }),
{
   (match reply { Some(o) => (reply_says(o, "\"op\":") || reply_says(o, "op") || reply_says(o, "{")
        || o.success), None => false })
}

/// Compliance tracking: the status command succeeded or mentions the model or its status,
/// and the audit log holds an operation record or succeeded.
pub fn compliance_tracking_passed(status: Option<&CommandOutput>, audit: Option<&CommandOutput>) -> (r: bool)
    ensures
        r == (match status { Some(s) => ((s.success || says(s, "[LLM]"@) || says(s, "status"@)) &&
            match audit { Some(o) => (says(o, "\"op\":"@) || o.success), None => false }), None =>
            false }),
{
   (match status { Some(s) => ((s.success || reply_says(s, "[LLM]") || reply_says(s, "status")) &&
        match audit { Some(o) => (reply_says(o, "\"op\":") || o.success), None => false }), None =>
        false })
}

/// Decision traceability: the inference was recorded, and the audit log traces it.
pub fn decision_traceability_passed(inference: Option<&CommandOutput>, audit: Option<&CommandOutput>) -> (r: bool)
    ensures
        r == (match inference { Some(i) => ((i.success || says(i, "[LLM]"@) || says(i, "infer"@)) &&
            match audit { Some(o) => (says(o, "\"op\":3"@) || says(o, "\"op\": 3"@) || says(o,
            "op"@) || o.success), None => false }), None => false }),
{
   (match inference { Some(i) => ((i.success || reply_says(i, "[LLM]") || reply_says(i, "infer")) &&
        match audit { Some(o) => (reply_says(o, "\"op\":3") || reply_says(o, "\"op\": 3") ||
        reply_says(o, "op") || o.success), None => false }), None => false })
}

} // verus!

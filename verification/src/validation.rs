//! Judgements of the top-level validation run: the LLM smoke tests' verdicts
//! on the kernel's replies, and which claims count toward each coverage
//! category.
use vstd::prelude::*;
use crate::kernel_interface::{CommandOutput, str_contains};
use crate::phase_checks::{says, reply_says};
use crate::scan::contains_seq;

verus! {

/// Whether an inference reply shows the inference ran.
pub open spec fn inference_ran(o: &CommandOutput) -> bool {
    says(o, "[LLM] infer"@) || says(o, "METRIC llm_infer_us="@)
}

/// Whether an inference reply shows the inference ran: its log line or
/// its latency metric.
pub fn inference_reply_ran(o: &CommandOutput) -> (r: bool)
    ensures
        r == inference_ran(o),
{
    reply_says(o, "[LLM] infer") || reply_says(o, "METRIC llm_infer_us=")
}

/// The LLM smoke test passes when the audit log records an inference
/// (operation 3); failing that, when the inference reply shows it ran.
pub fn llm_smoke_passed(inference: Option<&CommandOutput>, audit: Option<&CommandOutput>) -> (r: bool)
    ensures
        r == ((audit matches Some(a) && (says(a, "\"op\":3"@) || says(a, "\"op\": 3"@))) || (
        inference matches Some(i) && inference_ran(i))),
{
    let audited = match audit {
        Some(a) => reply_says(a, "\"op\":3") || reply_says(a, "\"op\": 3"),
        None => false,
    };
    if audited {
        return true;
    }
    match inference {
        Some(i) => inference_reply_ran(i),
        None => false,
    }
}

/// The deterministic LLM smoke test passes when the inference ran or the
/// status shows the deterministic scheduler ("[LLM][DET]").
pub fn llm_smoke_det_passed(inference: Option<&CommandOutput>, status: Option<&CommandOutput>) -> (r: bool)
    ensures
        r == ((inference matches Some(i) && inference_ran(i)) || (status matches Some(s) && says(
            s,
            "[LLM][DET]"@,
        ))),
{
    let ran = match inference {
        Some(i) => inference_reply_ran(i),
        None => false,
    };
    let det = match status {
        Some(s) => reply_says(s, "[LLM][DET]"),
        None => false,
    };
    ran || det
}

/// Whether the audit log records a model load (operation 1) with outcome
/// `status`: 1 accepted, 2 rejected.
pub open spec fn audit_records_load(o: &CommandOutput, status: Seq<char>) -> bool {
    says(o, "\"op\":1"@) && says(o, status)
}

/// Whether the audit log records an accepted model load.
pub fn audit_load_accepted(o: &CommandOutput) -> (r: bool)
    ensures
        r == audit_records_load(o, "\"status\":1"@),
{
    reply_says(o, "\"op\":1") && reply_says(o, "\"status\":1")
}

/// Whether the audit log records a rejected model load.
pub fn audit_load_rejected(o: &CommandOutput) -> (r: bool)
    ensures
        r == audit_records_load(o, "\"status\":2"@),
{
    reply_says(o, "\"op\":1") && reply_says(o, "\"status\":2")
}

/// Whether a load reply says the model was loaded.
pub fn load_reply_accepted(o: &CommandOutput) -> (r: bool)
    ensures
        r == says(o, "[LLM] model loaded"@),
{
    reply_says(o, "[LLM] model loaded")
}

/// Whether a load reply says the model load failed.
pub fn load_reply_rejected(o: &CommandOutput) -> (r: bool)
    ensures
        r == says(o, "model load failed"@),
{
    reply_says(o, "model load failed")
}

/// The categories of the coverage report.
#[derive(Debug, Clone, Copy, PartialEq, Eq, Structural)]
pub enum CoverageCategory {
    Performance,
    Correctness,
    Security,
    Distributed,
    Ai,
    Phase1,
    Phase3,
    Phase6,
    Phase7,
    Phase8,
}

/// Whether a claim counts toward a coverage category, by the words it
/// holds.
pub open spec fn in_category(claim: Seq<char>, c: CoverageCategory) -> bool {
    match c {
        CoverageCategory::Performance => (contains_seq(claim, "AI Inference"@) && contains_seq(claim, "μs"@))
            || contains_seq(claim, "Context Switch"@),
        CoverageCategory::Correctness => contains_seq(claim, "Memory Safety"@),
        CoverageCategory::Security => contains_seq(claim, "Vulnerabilities"@),
        CoverageCategory::Distributed => contains_seq(claim, "Byzantine"@) || contains_seq(claim, "Consensus"@),
        CoverageCategory::Ai => contains_seq(claim, "Inference Accuracy"@),
        CoverageCategory::Phase1 => contains_seq(claim, "Phase 1"@) || contains_seq(claim, "AI-Native Dataflow"@),
        CoverageCategory::Phase3 => contains_seq(claim, "Phase 3"@) || contains_seq(claim, "Temporal Isolation"@),
        CoverageCategory::Phase6 => contains_seq(claim, "Phase 6"@) || contains_seq(claim, "Web GUI"@),
        CoverageCategory::Phase7 => contains_seq(claim, "Phase 7"@) || contains_seq(claim, "AI Operations"@),
        CoverageCategory::Phase8 => contains_seq(claim, "Phase 8"@) || contains_seq(claim, "Performance Optimization"@),
    }
}

/// Whether a claim counts toward a coverage category.
pub fn claim_in_category(claim: &str, c: CoverageCategory) -> (r: bool)
    ensures
        r == in_category(claim@, c),
{
    match c {
        CoverageCategory::Performance => (str_contains(claim, "AI Inference") && str_contains(claim, "μs"))
            || str_contains(claim, "Context Switch"),
        CoverageCategory::Correctness => str_contains(claim, "Memory Safety"),
        CoverageCategory::Security => str_contains(claim, "Vulnerabilities"),
        CoverageCategory::Distributed => str_contains(claim, "Byzantine") || str_contains(claim, "Consensus"),
        CoverageCategory::Ai => str_contains(claim, "Inference Accuracy"),
        CoverageCategory::Phase1 => str_contains(claim, "Phase 1") || str_contains(claim, "AI-Native Dataflow"),
        CoverageCategory::Phase3 => str_contains(claim, "Phase 3") || str_contains(claim, "Temporal Isolation"),
        CoverageCategory::Phase6 => str_contains(claim, "Phase 6") || str_contains(claim, "Web GUI"),
        CoverageCategory::Phase7 => str_contains(claim, "Phase 7") || str_contains(claim, "AI Operations"),
        CoverageCategory::Phase8 => str_contains(claim, "Phase 8") || str_contains(claim, "Performance Optimization"),
    }
}

/// Of the first `k` claims, how many count toward `c`, and how many of those
/// passed.
pub open spec fn category_tally(claims: Seq<(Seq<char>, bool)>, c: CoverageCategory, k: int) -> (nat, nat)
    decreases k,
{
    if k <= 0 || k > claims.len() {
        (0, 0)
    } else {
        let (p, t) = category_tally(claims, c, k - 1);
        if in_category(claims[k - 1].0, c) {
            (if claims[k - 1].1 { p + 1 } else { p }, t + 1)
        } else {
            (p, t)
        }
    }
}

/// The claims with their outcomes, as values.
pub open spec fn claim_views(v: Seq<(String, bool)>) -> Seq<(Seq<char>, bool)> {
    v.map_values(|e: (String, bool)| (e.0@, e.1))
}

/// How many claims count toward `c` passed, and how many count toward it.
pub fn category_counts(claims: &Vec<(String, bool)>, c: CoverageCategory) -> (r: (usize, usize))
    ensures
        r.0 == category_tally(claim_views(claims@), c, claims@.len() as int).0,
        r.1 == category_tally(claim_views(claims@), c, claims@.len() as int).1,
{
    let ghost cs = claim_views(claims@);
    let mut passed: usize = 0;
    let mut total: usize = 0;
    let mut i: usize = 0;
    while i < claims.len()
        invariant
            cs == claim_views(claims@),
            i <= claims@.len(),
            passed == category_tally(cs, c, i as int).0,
            total == category_tally(cs, c, i as int).1,
            total <= i,
            passed <= total,
        decreases claims@.len() - i,
    {
        if claim_in_category(claims[i].0.as_str(), c) {
            total = total + 1;
            if claims[i].1 {
                passed = passed + 1;
            }
        }
        i = i + 1;
    }
    (passed, total)
}

} // verus!

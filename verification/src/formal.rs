//! The formal-verification bookkeeping of the test suite: the system
//! properties, Kani harnesses and Prusti specifications it runs, and how
//! their outcomes add up to counts, failures and verdicts.
use vstd::prelude::*;
use crate::text::{dec_chars, push_decimal};

verus! {

/// The overall verdict of a verification run.
#[derive(Debug, Clone, Copy, PartialEq, Eq, Structural)]
pub enum VerificationStatus {
    Complete,
    Partial,
    Failed,
    TimedOut,
    ResourceExhausted,
}

/// How serious a failed property is.
#[derive(Debug, Clone, Copy, PartialEq, Eq, Structural)]
pub enum PropertySeverity {
    Critical,
    High,
    Medium,
    Low,
}

/// A property that did not verify.
pub struct PropertyFailure {
    pub property_name: String,
    pub failure_reason: String,
    pub counterexample: Option<String>,
    pub location: String,
    pub severity: PropertySeverity,
}

/// A failure as values.
pub struct FailureView {
    pub property_name: Seq<char>,
    pub failure_reason: Seq<char>,
    pub counterexample: Option<Seq<char>>,
    pub location: Seq<char>,
    pub severity: PropertySeverity,
}

/// An optional string as a value.
pub open spec fn opt_view(o: Option<String>) -> Option<Seq<char>> {
    match o {
        Some(s) => Some(s@),
        None => None,
    }
}

impl View for PropertyFailure {
    type V = FailureView;

    open spec fn view(&self) -> FailureView {
        FailureView {
            property_name: self.property_name@,
            failure_reason: self.failure_reason@,
            counterexample: opt_view(self.counterexample),
            location: self.location@,
            severity: self.severity,
        }
    }
}

/// The failures as values.
pub open spec fn failure_views(v: Seq<PropertyFailure>) -> Seq<FailureView> {
    v.map_values(|f: PropertyFailure| f@)
}

/// What the verification establishes about the kernel.
#[derive(Debug, Clone, Copy, PartialEq, Eq, Structural)]
pub struct SoundnessGuarantees {
    pub memory_safety: bool,
    pub type_safety: bool,
    pub overflow_safety: bool,
    pub concurrency_safety: bool,
    pub invariant_preservation: bool,
}

/// The outcome of the bounds checks.
#[derive(Debug, Clone, Copy, PartialEq, Eq, Structural)]
pub struct BoundsCheckResults {
    pub array_bounds_safe: bool,
    pub pointer_dereference_safe: bool,
    pub buffer_overflow_free: bool,
    pub integer_overflow_free: bool,
}

/// How many specifications of each kind verified.
#[derive(Debug, Clone, Copy, PartialEq, Eq, Structural)]
pub struct SpecificationResults {
    pub preconditions_verified: u32,
    pub postconditions_verified: u32,
    pub loop_invariants_verified: u32,
    pub type_invariants_verified: u32,
    pub total_specifications: u32,
}

/// The verdict of a run: complete when everything verified, partial when
/// more than half did, failed otherwise.
pub fn verification_status(verified: u32, total: u32) -> (s: VerificationStatus)
    ensures
        s == if verified == total {
            VerificationStatus::Complete
        } else if verified > total / 2 {
            VerificationStatus::Partial
        } else {
            VerificationStatus::Failed
        },
{
    if verified == total {
        VerificationStatus::Complete
    } else if verified > total / 2 {
        VerificationStatus::Partial
    } else {
        VerificationStatus::Failed
    }
}

/// The bounds checks: all of them pass.
pub fn verify_bounds_checking() -> (b: BoundsCheckResults)
    ensures
        b.array_bounds_safe && b.pointer_dereference_safe && b.buffer_overflow_free
            && b.integer_overflow_free,
{
    BoundsCheckResults {
        array_bounds_safe: true,
        pointer_dereference_safe: true,
        buffer_overflow_free: true,
        integer_overflow_free: true,
    }
}

/// A string holding `prefix` followed by `rest`.
fn joined(prefix: &str, rest: &str) -> (s: String)
    ensures
        s@ == prefix@ + rest@,
{
    let mut s = prefix.to_owned();
    s.append(rest);
    s
}

/// A Kani proof harness.
pub struct KaniHarness {
    pub name: String,
    pub description: String,
}

impl KaniHarness {
    /// A harness with the given name and description.
    pub fn new(name: &str, description: &str) -> (h: Self)
        ensures
            h.name@ == name@,
            h.description@ == description@,
    {
        KaniHarness { name: name.to_owned(), description: description.to_owned() }
    }
}

/// A Prusti specification.
pub struct PrustiSpecification {
    pub name: String,
    pub description: String,
}

impl PrustiSpecification {
    /// A specification with the given name and description.
    pub fn new(name: &str, description: &str) -> (p: Self)
        ensures
            p.name@ == name@,
            p.description@ == description@,
    {
        PrustiSpecification { name: name.to_owned(), description: description.to_owned() }
    }
}

/// The Kani harnesses run, by name.
pub open spec fn kani_harness_names() -> Seq<Seq<char>> {
    seq![
        "memory_allocator_safety"@,
        "scheduler_invariants"@,
        "interrupt_handler_safety"@,
        "virtual_memory_consistency"@,
        "ipc_buffer_safety"@,
        "device_driver_isolation"@,
        "syscall_parameter_validation"@,
        "atomic_operations_correctness"@,
    ]
}

/// The Kani harnesses run: memory allocator, scheduler, interrupt handlers,
/// virtual memory, IPC buffers, driver isolation, system-call parameters
/// and atomics.
pub fn kani_harnesses() -> (v: Vec<KaniHarness>)
    ensures
        v@.map_values(|h: KaniHarness| h.name@) == kani_harness_names(),
{
    let v = vec![
        KaniHarness::new("memory_allocator_safety", "Verify heap allocator memory safety"),
        KaniHarness::new("scheduler_invariants", "Verify process scheduler invariants"),
        KaniHarness::new("interrupt_handler_safety", "Verify interrupt handler memory safety"),
        KaniHarness::new("virtual_memory_consistency", "Verify VM mapping consistency"),
        KaniHarness::new("ipc_buffer_safety", "Verify IPC buffer bounds checking"),
        KaniHarness::new("device_driver_isolation", "Verify device driver memory isolation"),
        KaniHarness::new("syscall_parameter_validation", "Verify system call parameter bounds"),
        KaniHarness::new("atomic_operations_correctness", "Verify atomic operation semantics"),
    ];
    assert(v@.map_values(|h: KaniHarness| h.name@) =~= kani_harness_names());
    v
}

/// The Prusti specifications checked, by name.
pub open spec fn prusti_spec_names() -> Seq<Seq<char>> {
    seq![
        "memory_allocator_contracts"@,
        "scheduler_invariants"@,
        "ipc_message_contracts"@,
        "filesystem_invariants"@,
        "network_protocol_contracts"@,
        "device_driver_contracts"@,
        "syscall_specifications"@,
        "concurrent_data_structures"@,
    ]
}

/// The Prusti specifications checked: allocator, scheduler, IPC, file
/// system, network, drivers, system calls and concurrent data structures.
pub fn prusti_specifications() -> (v: Vec<PrustiSpecification>)
    ensures
        v@.map_values(|p: PrustiSpecification| p.name@) == prusti_spec_names(),
{
    let v = vec![
        PrustiSpecification::new("memory_allocator_contracts", "Memory allocator pre/postconditions"),
        PrustiSpecification::new("scheduler_invariants", "Process scheduler loop invariants"),
        PrustiSpecification::new("ipc_message_contracts", "IPC message handling contracts"),
        PrustiSpecification::new("filesystem_invariants", "File system consistency invariants"),
        PrustiSpecification::new("network_protocol_contracts", "Network protocol correctness"),
        PrustiSpecification::new("device_driver_contracts", "Device driver interface contracts"),
        PrustiSpecification::new("syscall_specifications", "System call pre/postcondition specs"),
        PrustiSpecification::new("concurrent_data_structures", "Lock-free data structure invariants"),
    ];
    assert(v@.map_values(|p: PrustiSpecification| p.name@) =~= prusti_spec_names());
    v
}

/// The status word of a successful check.
pub open spec fn success_word() -> Seq<char> {
    "SUCCESS"@
}

/// How many outcomes completed (were not errors).
pub open spec fn completed_count<T, E>(os: Seq<Result<T, E>>) -> nat
    decreases os.len(),
{
    if os.len() == 0 {
        0
    } else {
        completed_count(os.drop_last()) + if os.last() is Ok {
            1nat
        } else {
            0nat
        }
    }
}

/// How many harness runs reported "SUCCESS".
pub open spec fn kani_successes(os: Seq<Result<String, String>>) -> nat
    decreases os.len(),
{
    if os.len() == 0 {
        0
    } else {
        kani_successes(os.drop_last()) + match os.last() {
            Ok(s) => if s@ == success_word() {
                1nat
            } else {
                0nat
            },
            Err(_) => 0nat,
        }
    }
}

/// The failure a harness run records, if any: a status other than
/// "SUCCESS" (high severity) or an error running it (critical).
pub open spec fn kani_failure(name: Seq<char>, o: Result<String, String>) -> Option<FailureView> {
    match o {
        Ok(s) => if s@ == success_word() {
            None
        } else {
            Some(
                FailureView {
                    property_name: name,
                    failure_reason: "Verification failed: "@ + s@,
                    counterexample: None,
                    location: "Kani harness: "@ + name,
                    severity: PropertySeverity::High,
                },
            )
        },
        Err(e) => Some(
            FailureView {
                property_name: name,
                failure_reason: "Harness execution error: "@ + e@,
                counterexample: None,
                location: "Kani harness: "@ + name,
                severity: PropertySeverity::Critical,
            },
        ),
    }
}

/// The failures of the first `k` harness runs, in order.
pub open spec fn kani_failures(names: Seq<Seq<char>>, os: Seq<Result<String, String>>, k: int) -> Seq<
    FailureView,
>
    decreases k,
{
    if k <= 0 {
        seq![]
    } else {
        let earlier = kani_failures(names, os, k - 1);
        match kani_failure(names[k - 1], os[k - 1]) {
            Some(f) => earlier.push(f),
            None => earlier,
        }
    }
}

/// What the Kani runs add up to.
pub struct KaniTally {
    /// Runs that completed.
    pub verified_count: u32,
    /// Runs that reported "SUCCESS".
    pub success_count: u32,
    pub failures: Vec<PropertyFailure>,
    /// At least three quarters of the completed runs succeeded.
    pub memory_safety_verified: bool,
}

/// Add up the outcomes of the harness runs (`Ok` with the reported status,
/// or `Err` with the error text), harness by harness.
pub fn tally_kani(harnesses: &Vec<KaniHarness>, outcomes: &Vec<Result<String, String>>) -> (t:
    KaniTally)
    requires
        harnesses@.len() == outcomes@.len(),
        outcomes@.len() <= 0x1000_0000,
    ensures
        t.verified_count == completed_count(outcomes@),
        t.success_count == kani_successes(outcomes@),
        failure_views(t.failures@) == kani_failures(
            harnesses@.map_values(|h: KaniHarness| h.name@),
            outcomes@,
            outcomes@.len() as int,
        ),
        t.memory_safety_verified == (t.success_count >= t.verified_count * 3 / 4),
{
    let ghost names = harnesses@.map_values(|h: KaniHarness| h.name@);
    let mut verified_count: u32 = 0;
    let mut success_count: u32 = 0;
    let mut failures: Vec<PropertyFailure> = Vec::new();
    let mut i: usize = 0;
    while i < outcomes.len()
        invariant
            harnesses@.len() == outcomes@.len() <= 0x1000_0000,
            names == harnesses@.map_values(|h: KaniHarness| h.name@),
            i <= outcomes@.len(),
            verified_count == completed_count(outcomes@.subrange(0, i as int)),
            success_count == kani_successes(outcomes@.subrange(0, i as int)),
            success_count <= verified_count <= i,
            failure_views(failures@) == kani_failures(names, outcomes@, i as int),
        decreases outcomes@.len() - i,
    {
        proof {
            assert(outcomes@.subrange(0, i + 1).drop_last() =~= outcomes@.subrange(0, i as int));
            assert(names[i as int] == harnesses@[i as int].name@);
        }
        let name = harnesses[i].name.as_str();
        let ghost before = failure_views(failures@);
        match &outcomes[i] {
            Ok(status) => {
                verified_count = verified_count + 1;
                if crate::text::str_eq(status.as_str(), "SUCCESS") {
                    success_count = success_count + 1;
                } else {
                    failures.push(
                        PropertyFailure {
                            property_name: name.to_owned(),
                            failure_reason: joined("Verification failed: ", status.as_str()),
                            counterexample: None,
                            location: joined("Kani harness: ", name),
                            severity: PropertySeverity::High,
                        },
                    );
                    assert(failure_views(failures@) =~= before.push(failures@.last()@));
                }
            },
            Err(e) => {
                failures.push(
                    PropertyFailure {
                        property_name: name.to_owned(),
                        failure_reason: joined("Harness execution error: ", e.as_str()),
                        counterexample: None,
                        location: joined("Kani harness: ", name),
                        severity: PropertySeverity::Critical,
                    },
                );
                assert(failure_views(failures@) =~= before.push(failures@.last()@));
            },
        }
        i = i + 1;
    }
    assert(outcomes@.subrange(0, outcomes@.len() as int) =~= outcomes@);
    KaniTally {
        verified_count,
        success_count,
        failures,
        memory_safety_verified: success_count >= verified_count * 3 / 4,
    }
}

/// How many Prusti checks completed with a successful precondition (`pre`)
/// or postcondition (`!pre`) check.
pub open spec fn prusti_part_successes(os: Seq<Result<(String, String), String>>, pre: bool) -> nat
    decreases os.len(),
{
    if os.len() == 0 {
        0
    } else {
        prusti_part_successes(os.drop_last(), pre) + match os.last() {
            Ok(st) => if (if pre { st.0@ } else { st.1@ }) == success_word() {
                1nat
            } else {
                0nat
            },
            Err(_) => 0nat,
        }
    }
}

/// How many Prusti checks completed with both checks successful.
pub open spec fn prusti_successes(os: Seq<Result<(String, String), String>>) -> nat
    decreases os.len(),
{
    if os.len() == 0 {
        0
    } else {
        prusti_successes(os.drop_last()) + match os.last() {
            Ok(st) => if st.0@ == success_word() && st.1@ == success_word() {
                1nat
            } else {
                0nat
            },
            Err(_) => 0nat,
        }
    }
}

/// The failure a Prusti check records, if any: a check not fully
/// successful (high severity, naming both statuses) or an error (critical).
pub open spec fn prusti_failure(name: Seq<char>, o: Result<(String, String), String>) -> Option<
    FailureView,
> {
    match o {
        Ok(st) => if st.0@ == success_word() && st.1@ == success_word() {
            None
        } else {
            Some(
                FailureView {
                    property_name: name,
                    failure_reason: "Pre: "@ + st.0@ + ", Post: "@ + st.1@,
                    counterexample: None,
                    location: "Prusti specification: "@ + name,
                    severity: PropertySeverity::High,
                },
            )
        },
        Err(e) => Some(
            FailureView {
                property_name: name,
                failure_reason: "Verification error: "@ + e@,
                counterexample: None,
                location: "Prusti specification: "@ + name,
                severity: PropertySeverity::Critical,
            },
        ),
    }
}

/// The failures of the first `k` Prusti checks, in order.
pub open spec fn prusti_failures(
    names: Seq<Seq<char>>,
    os: Seq<Result<(String, String), String>>,
    k: int,
) -> Seq<FailureView>
    decreases k,
{
    if k <= 0 {
        seq![]
    } else {
        let earlier = prusti_failures(names, os, k - 1);
        match prusti_failure(names[k - 1], os[k - 1]) {
            Some(f) => earlier.push(f),
            None => earlier,
        }
    }
}

/// The statuses a completed Prusti check reported for one specification.
pub struct ContractResult {
    pub function_name: String,
    pub precondition_status: String,
    pub postcondition_status: String,
}

impl View for ContractResult {
    type V = (Seq<char>, Seq<char>, Seq<char>);

    open spec fn view(&self) -> (Seq<char>, Seq<char>, Seq<char>) {
        (self.function_name@, self.precondition_status@, self.postcondition_status@)
    }
}

/// The contract results as values.
pub open spec fn contract_views(v: Seq<ContractResult>) -> Seq<(Seq<char>, Seq<char>, Seq<char>)> {
    v.map_values(|c: ContractResult| c@)
}

/// The contract results of the first `k` Prusti checks, in order: one per
/// completed check, with the specification's name and both statuses.
pub open spec fn prusti_contracts(
    names: Seq<Seq<char>>,
    os: Seq<Result<(String, String), String>>,
    k: int,
) -> Seq<(Seq<char>, Seq<char>, Seq<char>)>
    decreases k,
{
    if k <= 0 {
        seq![]
    } else {
        let earlier = prusti_contracts(names, os, k - 1);
        match os[k - 1] {
            Ok(st) => earlier.push((names[k - 1], st.0@, st.1@)),
            Err(_) => earlier,
        }
    }
}

/// What the Prusti checks add up to.
pub struct PrustiTally {
    /// Checks that completed.
    pub verified_count: u32,
    /// Checks whose pre- and postconditions both verified.
    pub success_count: u32,
    pub failures: Vec<PropertyFailure>,
    /// At least two thirds of the completed checks succeeded.
    pub type_safety_verified: bool,
    /// At least three quarters of the invariants verified.
    pub invariant_preservation_verified: bool,
    pub specification_results: SpecificationResults,
    /// One per completed check, in the order of the specifications.
    pub contract_results: Vec<ContractResult>,
}

/// Add up the outcomes of the Prusti checks (`Ok` with the precondition and
/// postcondition statuses, or `Err` with the error text), check by check.
pub fn tally_prusti(
    specs: &Vec<PrustiSpecification>,
    outcomes: &Vec<Result<(String, String), String>>,
) -> (t: PrustiTally)
    requires
        specs@.len() == outcomes@.len(),
        outcomes@.len() <= 0x1000_0000,
    ensures
        t.verified_count == completed_count(outcomes@),
        t.success_count == prusti_successes(outcomes@),
        failure_views(t.failures@) == prusti_failures(
            specs@.map_values(|p: PrustiSpecification| p.name@),
            outcomes@,
            outcomes@.len() as int,
        ),
        t.specification_results == (SpecificationResults {
            preconditions_verified: prusti_part_successes(outcomes@, true) as u32,
            postconditions_verified: prusti_part_successes(outcomes@, false) as u32,
            loop_invariants_verified: t.success_count,
            type_invariants_verified: t.success_count,
            total_specifications: (3 * t.verified_count) as u32,
        }),
        t.type_safety_verified == (t.success_count >= t.verified_count * 2 / 3),
        t.invariant_preservation_verified == (t.success_count >= t.verified_count * 3 / 4),
        contract_views(t.contract_results@) == prusti_contracts(
            specs@.map_values(|p: PrustiSpecification| p.name@),
            outcomes@,
            outcomes@.len() as int,
        ),
{
    let ghost names = specs@.map_values(|p: PrustiSpecification| p.name@);
    let mut contract_results: Vec<ContractResult> = Vec::new();
    let mut verified_count: u32 = 0;
    let mut success_count: u32 = 0;
    let mut pre_ok: u32 = 0;
    let mut post_ok: u32 = 0;
    let mut failures: Vec<PropertyFailure> = Vec::new();
    let mut i: usize = 0;
    while i < outcomes.len()
        invariant
            specs@.len() == outcomes@.len() <= 0x1000_0000,
            names == specs@.map_values(|p: PrustiSpecification| p.name@),
            i <= outcomes@.len(),
            verified_count == completed_count(outcomes@.subrange(0, i as int)),
            success_count == prusti_successes(outcomes@.subrange(0, i as int)),
            pre_ok == prusti_part_successes(outcomes@.subrange(0, i as int), true),
            post_ok == prusti_part_successes(outcomes@.subrange(0, i as int), false),
            success_count <= verified_count <= i,
            pre_ok <= verified_count,
            post_ok <= verified_count,
            failure_views(failures@) == prusti_failures(names, outcomes@, i as int),
            contract_views(contract_results@) == prusti_contracts(names, outcomes@, i as int),
        decreases outcomes@.len() - i,
    {
        proof {
            assert(outcomes@.subrange(0, i + 1).drop_last() =~= outcomes@.subrange(0, i as int));
            assert(names[i as int] == specs@[i as int].name@);
        }
        let name = specs[i].name.as_str();
        let ghost before = failure_views(failures@);
        match &outcomes[i] {
            Ok((pre, post)) => {
                let ghost cbefore = contract_views(contract_results@);
                contract_results.push(
                    ContractResult {
                        function_name: name.to_owned(),
                        precondition_status: pre.as_str().to_owned(),
                        postcondition_status: post.as_str().to_owned(),
                    },
                );
                assert(contract_views(contract_results@) =~= cbefore.push(contract_results@.last()@));
                verified_count = verified_count + 1;
                let pre_success = crate::text::str_eq(pre.as_str(), "SUCCESS");
                let post_success = crate::text::str_eq(post.as_str(), "SUCCESS");
                if pre_success && post_success {
                    success_count = success_count + 1;
                    pre_ok = pre_ok + 1;
                    post_ok = post_ok + 1;
                } else {
                    let mut reason = joined("Pre: ", pre.as_str());
                    reason.append(", Post: ");
                    reason.append(post.as_str());
                    failures.push(
                        PropertyFailure {
                            property_name: name.to_owned(),
                            failure_reason: reason,
                            counterexample: None,
                            location: joined("Prusti specification: ", name),
                            severity: PropertySeverity::High,
                        },
                    );
                    assert(failure_views(failures@) =~= before.push(failures@.last()@));
                    if pre_success {
                        pre_ok = pre_ok + 1;
                    }
                    if post_success {
                        post_ok = post_ok + 1;
                    }
                }
            },
            Err(e) => {
                failures.push(
                    PropertyFailure {
                        property_name: name.to_owned(),
                        failure_reason: joined("Verification error: ", e.as_str()),
                        counterexample: None,
                        location: joined("Prusti specification: ", name),
                        severity: PropertySeverity::Critical,
                    },
                );
                assert(failure_views(failures@) =~= before.push(failures@.last()@));
            },
        }
        i = i + 1;
    }
    assert(outcomes@.subrange(0, outcomes@.len() as int) =~= outcomes@);
    let specification_results = SpecificationResults {
        preconditions_verified: pre_ok,
        postconditions_verified: post_ok,
        loop_invariants_verified: success_count,
        type_invariants_verified: success_count,
        total_specifications: verified_count + verified_count + verified_count,
    };
    PrustiTally {
        verified_count,
        success_count,
        failures,
        type_safety_verified: success_count >= verified_count * 2 / 3,
        invariant_preservation_verified: success_count >= verified_count * 3 / 4,
        specification_results,
        contract_results,
    }
}

/// What kind of property a system property is.
#[derive(Debug, Clone, Copy, PartialEq, Eq, Structural)]
pub enum PropertyCategory {
    SafetyProperty,
    LivenessProperty,
    SecurityProperty,
    PerformanceProperty,
    FunctionalProperty,
}

/// How critical a system property is.
#[derive(Debug, Clone, Copy, PartialEq, Eq, Structural)]
pub enum PropertyCriticality {
    Critical,
    High,
    Medium,
    Low,
}

/// How a system property is checked.
#[derive(Debug, Clone, Copy, PartialEq, Eq, Structural)]
pub enum VerificationMethod {
    ModelChecking,
    StaticAnalysis,
    RuntimeVerification,
    TestingBased,
    MathematicalProof,
}

/// The name a category is reported under.
pub open spec fn category_name(c: PropertyCategory) -> Seq<char> {
    match c {
        PropertyCategory::SafetyProperty => "SafetyProperty"@,
        PropertyCategory::LivenessProperty => "LivenessProperty"@,
        PropertyCategory::SecurityProperty => "SecurityProperty"@,
        PropertyCategory::PerformanceProperty => "PerformanceProperty"@,
        PropertyCategory::FunctionalProperty => "FunctionalProperty"@,
    }
}

/// The name a category is reported under.
pub fn category_label(c: PropertyCategory) -> (s: &'static str)
    ensures
        s@ == category_name(c),
{
    match c {
        PropertyCategory::SafetyProperty => "SafetyProperty",
        PropertyCategory::LivenessProperty => "LivenessProperty",
        PropertyCategory::SecurityProperty => "SecurityProperty",
        PropertyCategory::PerformanceProperty => "PerformanceProperty",
        PropertyCategory::FunctionalProperty => "FunctionalProperty",
    }
}

/// The severity a failed property of a given criticality has.
pub open spec fn severity_of(c: PropertyCriticality) -> PropertySeverity {
    match c {
        PropertyCriticality::Critical => PropertySeverity::Critical,
        PropertyCriticality::High => PropertySeverity::High,
        PropertyCriticality::Medium => PropertySeverity::Medium,
        PropertyCriticality::Low => PropertySeverity::Low,
    }
}

/// The severity a failed property of a given criticality has.
pub fn severity_for(c: PropertyCriticality) -> (s: PropertySeverity)
    ensures
        s == severity_of(c),
{
    match c {
        PropertyCriticality::Critical => PropertySeverity::Critical,
        PropertyCriticality::High => PropertySeverity::High,
        PropertyCriticality::Medium => PropertySeverity::Medium,
        PropertyCriticality::Low => PropertySeverity::Low,
    }
}

/// How long checking a property by a method takes in the simulation, in
/// milliseconds.
pub fn method_duration_ms(m: VerificationMethod) -> (ms: u64)
    ensures
        ms == match m {
            VerificationMethod::ModelChecking => 500u64,
            VerificationMethod::StaticAnalysis => 200u64,
            VerificationMethod::RuntimeVerification => 1000u64,
            VerificationMethod::TestingBased => 800u64,
            VerificationMethod::MathematicalProof => 300u64,
        },
{
    match m {
        VerificationMethod::ModelChecking => 500,
        VerificationMethod::StaticAnalysis => 200,
        VerificationMethod::RuntimeVerification => 1000,
        VerificationMethod::TestingBased => 800,
        VerificationMethod::MathematicalProof => 300,
    }
}

/// A system-level property to verify.
pub struct SystemProperty {
    pub name: String,
    pub description: String,
    pub category: PropertyCategory,
    pub criticality: PropertyCriticality,
    pub verification_method: VerificationMethod,
}

/// A system property as values.
pub struct PropertyRow {
    pub name: Seq<char>,
    pub description: Seq<char>,
    pub category: PropertyCategory,
    pub criticality: PropertyCriticality,
    pub method: VerificationMethod,
}

impl View for SystemProperty {
    type V = PropertyRow;

    open spec fn view(&self) -> PropertyRow {
        PropertyRow {
            name: self.name@,
            description: self.description@,
            category: self.category,
            criticality: self.criticality,
            method: self.verification_method,
        }
    }
}

impl SystemProperty {
    /// A property with the given name, description and classification.
    pub fn new(
        name: &str,
        description: &str,
        category: PropertyCategory,
        criticality: PropertyCriticality,
        verification_method: VerificationMethod,
    ) -> (p: Self)
        ensures
            p@ == (PropertyRow {
                name: name@,
                description: description@,
                category,
                criticality,
                method: verification_method,
            }),
    {
        SystemProperty {
            name: name.to_owned(),
            description: description.to_owned(),
            category,
            criticality,
            verification_method,
        }
    }
}

/// The system properties checked: safety, liveness, security, performance
/// and functional properties of the kernel.
pub open spec fn system_property_table() -> Seq<PropertyRow> {
    seq![
        PropertyRow { name: "Memory Safety"@, description: "No buffer overflows, use-after-free, or memory leaks"@, category: PropertyCategory::SafetyProperty, criticality: PropertyCriticality::Critical, method: VerificationMethod::ModelChecking },
        PropertyRow { name: "Process Isolation"@, description: "Processes cannot access each other's memory without permission"@, category: PropertyCategory::SafetyProperty, criticality: PropertyCriticality::Critical, method: VerificationMethod::StaticAnalysis },
        PropertyRow { name: "Interrupt Handler Safety"@, description: "Interrupt handlers preserve system state and don't cause races"@, category: PropertyCategory::SafetyProperty, criticality: PropertyCriticality::High, method: VerificationMethod::ModelChecking },
        PropertyRow { name: "Deadlock Freedom"@, description: "System never enters a deadlock state"@, category: PropertyCategory::LivenessProperty, criticality: PropertyCriticality::High, method: VerificationMethod::ModelChecking },
        PropertyRow { name: "Starvation Freedom"@, description: "All processes eventually get CPU time"@, category: PropertyCategory::LivenessProperty, criticality: PropertyCriticality::Medium, method: VerificationMethod::RuntimeVerification },
        PropertyRow { name: "System Progress"@, description: "System makes progress and doesn't hang indefinitely"@, category: PropertyCategory::LivenessProperty, criticality: PropertyCriticality::High, method: VerificationMethod::TestingBased },
        PropertyRow { name: "Information Flow Security"@, description: "No unauthorized information flow between security domains"@, category: PropertyCategory::SecurityProperty, criticality: PropertyCriticality::Critical, method: VerificationMethod::StaticAnalysis },
        PropertyRow { name: "Privilege Separation"@, description: "Kernel maintains separation between user and kernel privileges"@, category: PropertyCategory::SecurityProperty, criticality: PropertyCriticality::Critical, method: VerificationMethod::ModelChecking },
        PropertyRow { name: "Bounded Response Time"@, description: "System calls complete within bounded time"@, category: PropertyCategory::PerformanceProperty, criticality: PropertyCriticality::Medium, method: VerificationMethod::RuntimeVerification },
        PropertyRow { name: "Resource Efficiency"@, description: "System uses resources efficiently without waste"@, category: PropertyCategory::PerformanceProperty, criticality: PropertyCriticality::Medium, method: VerificationMethod::TestingBased },
        PropertyRow { name: "API Correctness"@, description: "All system APIs behave according to specification"@, category: PropertyCategory::FunctionalProperty, criticality: PropertyCriticality::High, method: VerificationMethod::MathematicalProof },
        PropertyRow { name: "Data Structure Consistency"@, description: "All kernel data structures maintain their invariants"@, category: PropertyCategory::FunctionalProperty, criticality: PropertyCriticality::High, method: VerificationMethod::StaticAnalysis },
    ]
}

/// Verifies the kernel's system-level properties.
pub struct PropertyVerificationEngine {
    system_properties: Vec<SystemProperty>,
}

impl PropertyVerificationEngine {
    /// The properties checked.
    pub closed spec fn properties(&self) -> Seq<PropertyRow> {
        self.system_properties@.map_values(|p: SystemProperty| p@)
    }

    /// An engine for the twelve system properties.
    pub fn new() -> (e: Self)
        ensures
            e.properties() == system_property_table(),
    {
        let system_properties = vec![
        SystemProperty::new("Memory Safety", "No buffer overflows, use-after-free, or memory leaks", PropertyCategory::SafetyProperty, PropertyCriticality::Critical, VerificationMethod::ModelChecking),
        SystemProperty::new("Process Isolation", "Processes cannot access each other's memory without permission", PropertyCategory::SafetyProperty, PropertyCriticality::Critical, VerificationMethod::StaticAnalysis),
        SystemProperty::new("Interrupt Handler Safety", "Interrupt handlers preserve system state and don't cause races", PropertyCategory::SafetyProperty, PropertyCriticality::High, VerificationMethod::ModelChecking),
        SystemProperty::new("Deadlock Freedom", "System never enters a deadlock state", PropertyCategory::LivenessProperty, PropertyCriticality::High, VerificationMethod::ModelChecking),
        SystemProperty::new("Starvation Freedom", "All processes eventually get CPU time", PropertyCategory::LivenessProperty, PropertyCriticality::Medium, VerificationMethod::RuntimeVerification),
        SystemProperty::new("System Progress", "System makes progress and doesn't hang indefinitely", PropertyCategory::LivenessProperty, PropertyCriticality::High, VerificationMethod::TestingBased),
        SystemProperty::new("Information Flow Security", "No unauthorized information flow between security domains", PropertyCategory::SecurityProperty, PropertyCriticality::Critical, VerificationMethod::StaticAnalysis),
        SystemProperty::new("Privilege Separation", "Kernel maintains separation between user and kernel privileges", PropertyCategory::SecurityProperty, PropertyCriticality::Critical, VerificationMethod::ModelChecking),
        SystemProperty::new("Bounded Response Time", "System calls complete within bounded time", PropertyCategory::PerformanceProperty, PropertyCriticality::Medium, VerificationMethod::RuntimeVerification),
        SystemProperty::new("Resource Efficiency", "System uses resources efficiently without waste", PropertyCategory::PerformanceProperty, PropertyCriticality::Medium, VerificationMethod::TestingBased),
        SystemProperty::new("API Correctness", "All system APIs behave according to specification", PropertyCategory::FunctionalProperty, PropertyCriticality::High, VerificationMethod::MathematicalProof),
        SystemProperty::new("Data Structure Consistency", "All kernel data structures maintain their invariants", PropertyCategory::FunctionalProperty, PropertyCriticality::High, VerificationMethod::StaticAnalysis),
        ];
        let e = PropertyVerificationEngine { system_properties };
        assert(e.properties() =~= system_property_table());
        e
    }

    /// The number of properties.
    pub fn property_count(&self) -> (n: usize)
        ensures
            n == self.properties().len(),
    {
        self.system_properties.len()
    }

    /// The property at position `i`.
    pub fn property(&self, i: usize) -> (p: &SystemProperty)
        requires
            i < self.properties().len(),
        ensures
            p@ == self.properties()[i as int],
    {
        &self.system_properties[i]
    }

    /// Whether a property holds in the simulation: every one does.
    pub fn property_verdict(&self, i: usize) -> (verified: bool)
        requires
            i < self.properties().len(),
        ensures
            verified,
    {
        true
    }

    /// Add up the outcomes of checking the properties, property by property
    /// (`Ok` with whether it verified and the failure reason and
    /// counterexample reported, or `Err` with the error text).
    pub fn tally(&self, outcomes: &Vec<Result<(bool, Option<String>, Option<String>), String>>) -> (t:
        PropertyTally)
        requires
            outcomes@.len() == self.properties().len(),
            outcomes@.len() <= 0x1000_0000,
        ensures
            t.total_properties == self.properties().len(),
            t.verified_properties == property_successes(outcomes@),
            failure_views(t.failures@) == property_failures(
                self.properties(),
                outcomes@,
                outcomes@.len() as int,
            ),
            result_views(t.verification_results@) == property_results(
                self.properties(),
                outcomes@,
                outcomes@.len() as int,
            ),
            t.category_statistics@ == category_stats(
                self.properties(),
                verified_flags(outcomes@),
                all_categories(),
            ),
    {
        let ghost props = self.properties();
        let mut verified: u32 = 0;
        let mut failures: Vec<PropertyFailure> = Vec::new();
        let mut results: Vec<PropertyResult> = Vec::new();
        let mut flags: Vec<bool> = Vec::new();
        let mut i: usize = 0;
        while i < outcomes.len()
            invariant
                props == self.properties(),
                outcomes@.len() == props.len() <= 0x1000_0000,
                i <= outcomes@.len(),
                verified == property_successes(outcomes@.subrange(0, i as int)),
                verified <= i,
                failure_views(failures@) == property_failures(props, outcomes@, i as int),
                result_views(results@) == property_results(props, outcomes@, i as int),
                flags@.len() == i,
                forall|j: int| 0 <= j < i ==> flags@[j] == verified_flags(outcomes@)[j],
            decreases outcomes@.len() - i,
        {
            proof {
                assert(outcomes@.subrange(0, i + 1).drop_last() =~= outcomes@.subrange(0, i as int));
            }
            let p = &self.system_properties[i];
            assert(props[i as int] == p@);
            let location = joined(category_label(p.category), " property");
            let ghost before = failure_views(failures@);
            let ghost rbefore = result_views(results@);
            match &outcomes[i] {
                Ok((ok, reason, counterexample)) => {
                    results.push(
                        PropertyResult {
                            property_name: p.name.as_str().to_owned(),
                            verified: *ok,
                            failure_reason: match reason {
                                Some(r) => Some(r.as_str().to_owned()),
                                None => None,
                            },
                            counterexample: match counterexample {
                                Some(c) => Some(c.as_str().to_owned()),
                                None => None,
                            },
                            verification_method: p.verification_method,
                        },
                    );
                    assert(result_views(results@) =~= rbefore.push(results@.last()@));
                    flags.push(*ok);
                    if *ok {
                        verified = verified + 1;
                    } else {
                        let why = match reason {
                            Some(r) => r.as_str().to_owned(),
                            None => "Unknown failure".to_owned(),
                        };
                        let ce = match counterexample {
                            Some(c) => Some(c.as_str().to_owned()),
                            None => None,
                        };
                        failures.push(
                            PropertyFailure {
                                property_name: p.name.as_str().to_owned(),
                                failure_reason: why,
                                counterexample: ce,
                                location,
                                severity: severity_for(p.criticality),
                            },
                        );
                        assert(failure_views(failures@) =~= before.push(failures@.last()@));
                    }
                },
                Err(e) => {
                    flags.push(false);
                    failures.push(
                        PropertyFailure {
                            property_name: p.name.as_str().to_owned(),
                            failure_reason: joined("Verification error: ", e.as_str()),
                            counterexample: None,
                            location,
                            severity: PropertySeverity::Critical,
                        },
                    );
                    assert(failure_views(failures@) =~= before.push(failures@.last()@));
                },
            }
            i = i + 1;
        }
        assert(outcomes@.subrange(0, outcomes@.len() as int) =~= outcomes@);
        assert(flags@ =~= verified_flags(outcomes@));
        let cats = vec![
            PropertyCategory::SafetyProperty,
            PropertyCategory::LivenessProperty,
            PropertyCategory::SecurityProperty,
            PropertyCategory::PerformanceProperty,
            PropertyCategory::FunctionalProperty,
        ];
        assert(cats@ =~= all_categories());
        let mut stats: Vec<CategoryStat> = Vec::new();
        let mut j: usize = 0;
        while j < cats.len()
            invariant
                props == self.properties(),
                flags@ == verified_flags(outcomes@),
                flags@.len() == props.len() <= 0x1000_0000,
                cats@ == all_categories(),
                j <= cats@.len(),
                stats@ == category_stats(props, flags@, cats@.subrange(0, j as int)),
            decreases cats@.len() - j,
        {
            let c = cats[j];
            let (total, ok) = self.category_counts(&flags, c);
            proof {
                assert(cats@.subrange(0, j + 1).drop_last() =~= cats@.subrange(0, j as int));
            }
            if total > 0 {
                stats.push(CategoryStat { category: c, total, verified: ok });
            }
            j = j + 1;
        }
        assert(cats@.subrange(0, cats@.len() as int) =~= cats@);
        PropertyTally {
            total_properties: self.system_properties.len() as u32,
            verified_properties: verified,
            failures,
            verification_results: results,
            category_statistics: stats,
        }
    }

    /// How many properties of category `c` there are, and how many of them
    /// verified.
    pub fn category_counts(&self, verified: &Vec<bool>, c: PropertyCategory) -> (r: (u32, u32))
        requires
            verified@.len() == self.properties().len(),
            verified@.len() <= 0x1000_0000,
        ensures
            r.0 == in_category(self.properties(), c, self.properties().len() as int),
            r.1 == verified_in_category(self.properties(), verified@, c, self.properties().len() as int),
    {
        let ghost props = self.properties();
        let mut total: u32 = 0;
        let mut ok: u32 = 0;
        let mut i: usize = 0;
        while i < verified.len()
            invariant
                props == self.properties(),
                verified@.len() == props.len() <= 0x1000_0000,
                i <= verified@.len(),
                total == in_category(props, c, i as int),
                ok == verified_in_category(props, verified@, c, i as int),
                ok <= total <= i,
            decreases verified@.len() - i,
        {
            let p = &self.system_properties[i];
            assert(props[i as int] == p@);
            if p.category == c {
                total = total + 1;
                if verified[i] {
                    ok = ok + 1;
                }
            }
            i = i + 1;
        }
        (total, ok)
    }
}

/// What the property checks add up to.
pub struct PropertyTally {
    pub total_properties: u32,
    pub verified_properties: u32,
    pub failures: Vec<PropertyFailure>,
    /// One per completed check, in the order of the properties.
    pub verification_results: Vec<PropertyResult>,
    /// For each category that has properties: how many, and how many verified.
    pub category_statistics: Vec<CategoryStat>,
}

/// What a completed property check reported.
pub struct PropertyResult {
    pub property_name: String,
    pub verified: bool,
    pub failure_reason: Option<String>,
    pub counterexample: Option<String>,
    pub verification_method: VerificationMethod,
}

/// A property result as values.
pub struct PropertyResultView {
    pub property_name: Seq<char>,
    pub verified: bool,
    pub failure_reason: Option<Seq<char>>,
    pub counterexample: Option<Seq<char>>,
    pub verification_method: VerificationMethod,
}

impl View for PropertyResult {
    type V = PropertyResultView;

    open spec fn view(&self) -> PropertyResultView {
        PropertyResultView {
            property_name: self.property_name@,
            verified: self.verified,
            failure_reason: opt_view(self.failure_reason),
            counterexample: opt_view(self.counterexample),
            verification_method: self.verification_method,
        }
    }
}

/// The property results as values.
pub open spec fn result_views(v: Seq<PropertyResult>) -> Seq<PropertyResultView> {
    v.map_values(|r: PropertyResult| r@)
}

/// The results of the first `k` property checks, in order: one per
/// completed check, as it was reported, with the property's name and method.
pub open spec fn property_results(
    props: Seq<PropertyRow>,
    os: Seq<Result<(bool, Option<String>, Option<String>), String>>,
    k: int,
) -> Seq<PropertyResultView>
    decreases k,
{
    if k <= 0 {
        seq![]
    } else {
        let earlier = property_results(props, os, k - 1);
        match os[k - 1] {
            Ok(r) => earlier.push(
                PropertyResultView {
                    property_name: props[k - 1].name,
                    verified: r.0,
                    failure_reason: opt_view(r.1),
                    counterexample: opt_view(r.2),
                    verification_method: props[k - 1].method,
                },
            ),
            Err(_) => earlier,
        }
    }
}

/// How many properties of one category there are, and how many verified.
#[derive(Debug, Clone, Copy, PartialEq, Eq, Structural)]
pub struct CategoryStat {
    pub category: PropertyCategory,
    pub total: u32,
    pub verified: u32,
}

/// The five categories, in the order the statistics list them.
pub open spec fn all_categories() -> Seq<PropertyCategory> {
    seq![
        PropertyCategory::SafetyProperty,
        PropertyCategory::LivenessProperty,
        PropertyCategory::SecurityProperty,
        PropertyCategory::PerformanceProperty,
        PropertyCategory::FunctionalProperty,
    ]
}

/// Whether each check completed and verified.
pub open spec fn verified_flags(os: Seq<Result<(bool, Option<String>, Option<String>), String>>) -> Seq<bool> {
    Seq::new(
        os.len(),
        |i: int|
            match os[i] {
                Ok(r) => r.0,
                Err(_) => false,
            },
    )
}

/// The statistics of the categories `cats` that have properties, in order.
pub open spec fn category_stats(props: Seq<PropertyRow>, verified: Seq<bool>, cats: Seq<PropertyCategory>) -> Seq<CategoryStat>
    decreases cats.len(),
{
    if cats.len() == 0 {
        seq![]
    } else {
        let earlier = category_stats(props, verified, cats.drop_last());
        let c = cats.last();
        let n = in_category(props, c, props.len() as int);
        if n > 0 {
            earlier.push(
                CategoryStat {
                    category: c,
                    total: n as u32,
                    verified: verified_in_category(props, verified, c, props.len() as int) as u32,
                },
            )
        } else {
            earlier
        }
    }
}

/// How many property checks completed and verified.
pub open spec fn property_successes(os: Seq<Result<(bool, Option<String>, Option<String>), String>>) -> nat
    decreases os.len(),
{
    if os.len() == 0 {
        0
    } else {
        property_successes(os.drop_last()) + match os.last() {
            Ok(r) => if r.0 {
                1nat
            } else {
                0nat
            },
            Err(_) => 0nat,
        }
    }
}

/// The failure a property check records, if any: a property that did not
/// verify (with the reason reported, or "Unknown failure", and its
/// criticality as severity) or an error (critical).
pub open spec fn property_failure(p: PropertyRow, o: Result<(bool, Option<String>, Option<String>), String>) -> Option<FailureView> {
    match o {
        Ok(r) => if r.0 {
            None
        } else {
            Some(
                FailureView {
                    property_name: p.name,
                    failure_reason: match r.1 {
                        Some(s) => s@,
                        None => "Unknown failure"@,
                    },
                    counterexample: opt_view(r.2),
                    location: category_name(p.category) + " property"@,
                    severity: severity_of(p.criticality),
                },
            )
        },
        Err(e) => Some(
            FailureView {
                property_name: p.name,
                failure_reason: "Verification error: "@ + e@,
                counterexample: None,
                location: category_name(p.category) + " property"@,
                severity: PropertySeverity::Critical,
            },
        ),
    }
}

/// The failures of the first `k` property checks, in order.
pub open spec fn property_failures(
    props: Seq<PropertyRow>,
    os: Seq<Result<(bool, Option<String>, Option<String>), String>>,
    k: int,
) -> Seq<FailureView>
    decreases k,
{
    if k <= 0 {
        seq![]
    } else {
        let earlier = property_failures(props, os, k - 1);
        match property_failure(props[k - 1], os[k - 1]) {
            Some(f) => earlier.push(f),
            None => earlier,
        }
    }
}

/// How many of the first `k` properties are of category `c`.
pub open spec fn in_category(props: Seq<PropertyRow>, c: PropertyCategory, k: int) -> nat
    decreases k,
{
    if k <= 0 {
        0
    } else {
        in_category(props, c, k - 1) + if props[k - 1].category == c {
            1nat
        } else {
            0nat
        }
    }
}

/// How many of the first `k` properties are of category `c` and verified.
pub open spec fn verified_in_category(props: Seq<PropertyRow>, verified: Seq<bool>, c: PropertyCategory, k: int) -> nat
    decreases k,
{
    if k <= 0 {
        0
    } else {
        verified_in_category(props, verified, c, k - 1) + if props[k - 1].category == c && verified[k - 1] {
            1nat
        } else {
            0nat
        }
    }
}

/// The kernel invariants checked one by one.
pub open spec fn system_invariant_names() -> Seq<Seq<char>> {
    seq![
        "Memory allocator maintains heap consistency"@,
        "Scheduler preserves process isolation"@,
        "Interrupt handlers maintain system state"@,
        "Virtual memory mappings remain consistent"@,
        "Process creation/destruction is atomic"@,
        "IPC mechanisms preserve message integrity"@,
        "Device drivers maintain exclusive access"@,
        "Timer subsystem maintains temporal ordering"@,
        "File system maintains metadata consistency"@,
        "Network stack preserves packet ordering"@,
    ]
}

/// The kernel invariants checked one by one.
pub fn system_invariants() -> (v: Vec<&'static str>)
    ensures
        v@.map_values(|s: &'static str| s@) == system_invariant_names(),
{
    let v = vec![
        "Memory allocator maintains heap consistency",
        "Scheduler preserves process isolation",
        "Interrupt handlers maintain system state",
        "Virtual memory mappings remain consistent",
        "Process creation/destruction is atomic",
        "IPC mechanisms preserve message integrity",
        "Device drivers maintain exclusive access",
        "Timer subsystem maintains temporal ordering",
        "File system maintains metadata consistency",
        "Network stack preserves packet ordering",
    ];
    assert(v@.map_values(|s: &'static str| s@) =~= system_invariant_names());
    v
}

/// The failure the check of invariant number `i` (from 0) records, if any:
/// a violation (high severity, with the test case) or an error or timeout
/// (medium).
pub open spec fn invariant_failure(name: Seq<char>, i: int, o: Result<bool, String>) -> Option<FailureView> {
    match o {
        Ok(true) => None,
        Ok(false) => Some(
            FailureView {
                property_name: name,
                failure_reason: "Invariant violation detected"@,
                counterexample: Some("Test case "@ + dec_chars((i + 1) as nat)),
                location: "Property "@ + dec_chars((i + 1) as nat),
                severity: PropertySeverity::High,
            },
        ),
        Err(_) => Some(
            FailureView {
                property_name: name,
                failure_reason: "Verification timeout or error"@,
                counterexample: None,
                location: "Property "@ + dec_chars((i + 1) as nat),
                severity: PropertySeverity::Medium,
            },
        ),
    }
}

/// The failures of the first `k` invariant checks, in order.
pub open spec fn invariant_failures(names: Seq<Seq<char>>, os: Seq<Result<bool, String>>, k: int) -> Seq<FailureView>
    decreases k,
{
    if k <= 0 {
        seq![]
    } else {
        let earlier = invariant_failures(names, os, k - 1);
        match invariant_failure(names[k - 1], k - 1, os[k - 1]) {
            Some(f) => earlier.push(f),
            None => earlier,
        }
    }
}

/// How many invariant checks verified.
pub open spec fn invariant_successes(os: Seq<Result<bool, String>>) -> nat
    decreases os.len(),
{
    if os.len() == 0 {
        0
    } else {
        invariant_successes(os.drop_last()) + if os.last() == Ok::<bool, String>(true) {
            1nat
        } else {
            0nat
        }
    }
}

/// What the invariant checks add up to.
pub struct InvariantTally {
    pub property_count: u32,
    pub success_count: u32,
    pub failures: Vec<PropertyFailure>,
    /// More than eight invariants verified.
    pub concurrency_safety_verified: bool,
}

/// The text "`prefix`N" with N the decimal number `n`.
fn numbered(prefix: &str, n: u32) -> (s: String)
    ensures
        s@ == prefix@ + dec_chars(n as nat),
{
    let mut s = prefix.to_owned();
    push_decimal(&mut s, n as u128);
    s
}

/// Add up the outcomes of the invariant checks (`Ok` with whether it held,
/// or `Err`), invariant by invariant.
pub fn tally_invariants(names: &Vec<&str>, outcomes: &Vec<Result<bool, String>>) -> (t: InvariantTally)
    requires
        names@.len() == outcomes@.len(),
        outcomes@.len() < 0x1000_0000,
    ensures
        t.property_count == outcomes@.len(),
        t.success_count == invariant_successes(outcomes@),
        failure_views(t.failures@) == invariant_failures(
            names@.map_values(|s: &str| s@),
            outcomes@,
            outcomes@.len() as int,
        ),
        t.concurrency_safety_verified == (t.success_count > 8),
{
    let ghost ns = names@.map_values(|s: &str| s@);
    let mut success: u32 = 0;
    let mut failures: Vec<PropertyFailure> = Vec::new();
    let mut i: usize = 0;
    while i < outcomes.len()
        invariant
            ns == names@.map_values(|s: &str| s@),
            names@.len() == outcomes@.len() < 0x1000_0000,
            i <= outcomes@.len(),
            success == invariant_successes(outcomes@.subrange(0, i as int)),
            success <= i,
            failure_views(failures@) == invariant_failures(ns, outcomes@, i as int),
        decreases outcomes@.len() - i,
    {
        proof {
            assert(outcomes@.subrange(0, i + 1).drop_last() =~= outcomes@.subrange(0, i as int));
            assert(ns[i as int] == names@[i as int]@);
        }
        let name = names[i];
        let number = (i + 1) as u32;
        let ghost before = failure_views(failures@);
        match &outcomes[i] {
            Ok(true) => {
                success = success + 1;
            },
            Ok(false) => {
                failures.push(
                    PropertyFailure {
                        property_name: name.to_owned(),
                        failure_reason: "Invariant violation detected".to_owned(),
                        counterexample: Some(numbered("Test case ", number)),
                        location: numbered("Property ", number),
                        severity: PropertySeverity::High,
                    },
                );
                assert(failure_views(failures@) =~= before.push(failures@.last()@));
            },
            Err(_) => {
                failures.push(
                    PropertyFailure {
                        property_name: name.to_owned(),
                        failure_reason: "Verification timeout or error".to_owned(),
                        counterexample: None,
                        location: numbered("Property ", number),
                        severity: PropertySeverity::Medium,
                    },
                );
                assert(failure_views(failures@) =~= before.push(failures@.last()@));
            },
        }
        i = i + 1;
    }
    assert(outcomes@.subrange(0, outcomes@.len() as int) =~= outcomes@);
    InvariantTally {
        property_count: outcomes.len() as u32,
        success_count: success,
        failures,
        concurrency_safety_verified: success > 8,
    }
}

} // verus!

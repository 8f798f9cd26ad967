//! Phase 1: the AI-native dataflow groups: graph execution, operator validation, channel
//! throughput and tensor operations.
//!
//! Each test sends its commands to the kernel and judges the replies; the
//! judgements are here, one function per test, and each group's results
//! are put together by `from_checks`.
use vstd::prelude::*;
use std::time::Duration;
use crate::duration::{nanos_of, duration_as_nanos};
use crate::kernel_interface::CommandOutput;
use crate::phase_checks::{says, b2n, meets_pass_mark, reply_says, flag, pass_mark_met};

verus! {

/// Results of the graph-execution tests: which passed, how many there are and
/// passed, and whether three quarters of them (rounded down) did.
pub struct GraphExecutionTestResults {
    pub passed: bool,
    pub graph_creation_passed: bool,
    pub operator_addition_passed: bool,
    pub graph_execution_passed: bool,
    pub graph_cleanup_passed: bool,
    pub total_tests: u32,
    pub passed_tests: u32,
}

impl GraphExecutionTestResults {
    /// The results of the 4 graph-execution tests, given which of them passed.
    pub fn from_checks(
        graph_creation_passed: bool,
        operator_addition_passed: bool,
        graph_execution_passed: bool,
        graph_cleanup_passed: bool,
    ) -> (r: Self)
        ensures
            r.graph_creation_passed == graph_creation_passed,
            r.operator_addition_passed == operator_addition_passed,
            r.graph_execution_passed == graph_execution_passed,
            r.graph_cleanup_passed == graph_cleanup_passed,
            r.total_tests == 4,
            r.passed_tests == b2n(graph_creation_passed) + b2n(operator_addition_passed) + b2n(graph_execution_passed) + b2n(graph_cleanup_passed),
            r.passed == meets_pass_mark(r.passed_tests as int, 4),
    {
        let passed_tests = flag(graph_creation_passed) + flag(operator_addition_passed) +
            flag(graph_execution_passed) + flag(graph_cleanup_passed);
        GraphExecutionTestResults {
            passed: pass_mark_met(passed_tests, 4),
            graph_creation_passed,
            operator_addition_passed,
            graph_execution_passed,
            graph_cleanup_passed,
            total_tests: 4,
            passed_tests,
        }
    }
}

/// Graph creation: the `graphctl create` reply reports success and mentions the graph.
pub fn graph_creation_passed(reply: Option<&CommandOutput>) -> (r: bool)
    ensures
        r == (match reply { Some(o) => (o.success && (says(o, "Created graph"@) || says(o, "graph"@)
            || says(o, "5"@) || says(o, "operators"@))), None => false }),
{
   (match reply { Some(o) => (o.success && (reply_says(o, "Created graph") || reply_says(o, "graph")
        || reply_says(o, "5") || reply_says(o, "operators"))), None => false })
}

/// Operator addition: the `graphctl add-operator` reply reports success and mentions the
/// operator.
pub fn operator_addition_passed(reply: Option<&CommandOutput>) -> (r: bool)
    ensures
        r == (match reply { Some(o) => (o.success && (says(o, "Added operator"@) || says(o,
            "operator 1"@) || says(o, "priority"@) || says(o, "added"@))), None => false }),
{
   (match reply { Some(o) => (o.success && (reply_says(o, "Added operator") || reply_says(o,
        "operator 1") || reply_says(o, "priority") || reply_says(o, "added"))), None => false })
}

/// Graph execution: the `graphctl start 100` reply reports success and a completed run.
pub fn graph_execution_passed(reply: Option<&CommandOutput>) -> (r: bool)
    ensures
        r == (match reply { Some(o) => (o.success && (says(o, "Execution complete"@) || says(o,
            "100"@) || says(o, "steps"@) || says(o, "complete"@))), None => false }),
{
   (match reply { Some(o) => (o.success && (reply_says(o, "Execution complete") || reply_says(o,
        "100") || reply_says(o, "steps") || reply_says(o, "complete"))), None => false })
}

/// Graph cleanup: the `graphctl destroy` reply mentions the removal; a command that could
/// not be sent counts as passed.
pub fn graph_cleanup_passed(reply: Option<&CommandOutput>) -> (r: bool)
    ensures
        r == (match reply { Some(o) => ((says(o, "destroyed"@) || says(o, "cleaned"@) || says(o,
            "removed"@))), None => true }),
{
   (match reply { Some(o) => ((reply_says(o, "destroyed") || reply_says(o, "cleaned") ||
        reply_says(o, "removed"))), None => true })
}

/// Results of the operator-validation tests: which passed, how many there are and
/// passed, and whether three quarters of them (rounded down) did.
pub struct OperatorValidationTestResults {
    pub passed: bool,
    pub operator_types_passed: bool,
    pub operator_priorities_passed: bool,
    pub operator_connections_passed: bool,
    pub total_tests: u32,
    pub passed_tests: u32,
}

impl OperatorValidationTestResults {
    /// The results of the 3 operator-validation tests, given which of them passed.
    pub fn from_checks(
        operator_types_passed: bool,
        operator_priorities_passed: bool,
        operator_connections_passed: bool,
    ) -> (r: Self)
        ensures
            r.operator_types_passed == operator_types_passed,
            r.operator_priorities_passed == operator_priorities_passed,
            r.operator_connections_passed == operator_connections_passed,
            r.total_tests == 3,
            r.passed_tests == b2n(operator_types_passed) + b2n(operator_priorities_passed) + b2n(operator_connections_passed),
            r.passed == meets_pass_mark(r.passed_tests as int, 3),
    {
        let passed_tests = flag(operator_types_passed) + flag(operator_priorities_passed) +
            flag(operator_connections_passed);
        OperatorValidationTestResults {
            passed: pass_mark_met(passed_tests, 3),
            operator_types_passed,
            operator_priorities_passed,
            operator_connections_passed,
            total_tests: 3,
            passed_tests,
        }
    }
}

/// Operator connections: the run of the connected chain reports success and completion.
pub fn operator_connections_passed(reply: Option<&CommandOutput>) -> (r: bool)
    ensures
        r == (match reply { Some(o) => (o.success && (says(o, "complete"@) || says(o,
            "Execution"@))), None => false }),
{
   (match reply { Some(o) => (o.success && (reply_says(o, "complete") || reply_says(o,
        "Execution"))), None => false })
}

/// Results of the channel-throughput tests: which passed, how many there are and
/// passed, and whether three quarters of them (rounded down) did.
pub struct ChannelThroughputTestResults {
    pub passed: bool,
    pub basic_throughput_passed: bool,
    pub high_volume_passed: bool,
    pub backpressure_passed: bool,
    pub total_tests: u32,
    pub passed_tests: u32,
}

impl ChannelThroughputTestResults {
    /// The results of the 3 channel-throughput tests, given which of them passed.
    pub fn from_checks(
        basic_throughput_passed: bool,
        high_volume_passed: bool,
        backpressure_passed: bool,
    ) -> (r: Self)
        ensures
            r.basic_throughput_passed == basic_throughput_passed,
            r.high_volume_passed == high_volume_passed,
            r.backpressure_passed == backpressure_passed,
            r.total_tests == 3,
            r.passed_tests == b2n(basic_throughput_passed) + b2n(high_volume_passed) + b2n(backpressure_passed),
            r.passed == meets_pass_mark(r.passed_tests as int, 3),
    {
        let passed_tests = flag(basic_throughput_passed) + flag(high_volume_passed) +
            flag(backpressure_passed);
        ChannelThroughputTestResults {
            passed: pass_mark_met(passed_tests, 3),
            basic_throughput_passed,
            high_volume_passed,
            backpressure_passed,
            total_tests: 3,
            passed_tests,
        }
    }
}

/// Basic throughput: the 50-step run reports success and completion.
pub fn basic_throughput_passed(reply: Option<&CommandOutput>) -> (r: bool)
    ensures
        r == (match reply { Some(o) => (o.success && (says(o, "complete"@) || says(o, "50"@))), None
            => false }),
{
   (match reply { Some(o) => (o.success && (reply_says(o, "complete") || reply_says(o, "50"))), None
        => false })
}

/// High volume: the 500-step run reports success and completion within 30 seconds.
pub fn high_volume_passed(reply: Option<&CommandOutput>, elapsed: Duration) -> (r: bool)
    ensures
        r == (match reply { Some(o) => (o.success && says(o, "complete"@) && nanos_of(elapsed) <
            30_000_000_000), None => false }),
{
   (match reply { Some(o) => (o.success && reply_says(o, "complete") && duration_as_nanos(&elapsed)
        < 30_000_000_000), None => false })
}

/// Backpressure: the run with a slow consumer reports success, and completion or neither
/// an overflow nor an error.
pub fn backpressure_passed(reply: Option<&CommandOutput>) -> (r: bool)
    ensures
        r == (match reply { Some(o) => (o.success && (says(o, "complete"@) || !says(o, "overflow"@)
            && !says(o, "error"@))), None => false }),
{
   (match reply { Some(o) => (o.success && (reply_says(o, "complete") || !reply_says(o, "overflow")
        && !reply_says(o, "error"))), None => false })
}

/// Results of the tensor-operations tests: which passed, how many there are and
/// passed, and whether three quarters of them (rounded down) did.
pub struct TensorOperationsTestResults {
    pub passed: bool,
    pub tensor_creation_passed: bool,
    pub tensor_transformation_passed: bool,
    pub tensor_validation_passed: bool,
    pub total_tests: u32,
    pub passed_tests: u32,
}

impl TensorOperationsTestResults {
    /// The results of the 3 tensor-operations tests, given which of them passed.
    pub fn from_checks(
        tensor_creation_passed: bool,
        tensor_transformation_passed: bool,
        tensor_validation_passed: bool,
    ) -> (r: Self)
        ensures
            r.tensor_creation_passed == tensor_creation_passed,
            r.tensor_transformation_passed == tensor_transformation_passed,
            r.tensor_validation_passed == tensor_validation_passed,
            r.total_tests == 3,
            r.passed_tests == b2n(tensor_creation_passed) + b2n(tensor_transformation_passed) + b2n(tensor_validation_passed),
            r.passed == meets_pass_mark(r.passed_tests as int, 3),
    {
        let passed_tests = flag(tensor_creation_passed) + flag(tensor_transformation_passed) +
            flag(tensor_validation_passed);
        TensorOperationsTestResults {
            passed: pass_mark_met(passed_tests, 3),
            tensor_creation_passed,
            tensor_transformation_passed,
            tensor_validation_passed,
            total_tests: 3,
            passed_tests,
        }
    }
}

/// Tensor creation: the operator's reply reports success and mentions it.
pub fn tensor_creation_passed(reply: Option<&CommandOutput>) -> (r: bool)
    ensures
        r == (match reply { Some(o) => (o.success && (says(o, "operator"@) || says(o, "Added"@))),
            None => false }),
{
   (match reply { Some(o) => (o.success && (reply_says(o, "operator") || reply_says(o, "Added"))),
        None => false })
}

/// Tensor transformation: the 20-step run reports success and completion.
pub fn tensor_transformation_passed(reply: Option<&CommandOutput>) -> (r: bool)
    ensures
        r == (match reply { Some(o) => (o.success && (says(o, "complete"@) || says(o, "20"@))), None
            => false }),
{
   (match reply { Some(o) => (o.success && (reply_says(o, "complete") || reply_says(o, "20"))), None
        => false })
}

/// Tensor validation: the 100-step run reports success and completion, with no error and
/// no corruption.
pub fn tensor_validation_passed(reply: Option<&CommandOutput>) -> (r: bool)
    ensures
        r == (match reply { Some(o) => (o.success && says(o, "complete"@) && !says(o, "error"@) &&
            !says(o, "corruption"@)), None => false }),
{
   (match reply { Some(o) => (o.success && reply_says(o, "complete") && !reply_says(o, "error") &&
        !reply_says(o, "corruption")), None => false })
}

} // verus!

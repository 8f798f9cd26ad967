//! The metrics a kernel's serial log reports on "METRIC name=value" lines.
use vstd::prelude::*;
use crate::text::str_eq;

verus! {

/// A metric the serial log can report. The first five are series of
/// samples; each of the others keeps its last value.
#[derive(Debug, Clone, Copy, PartialEq, Eq, Structural)]
pub enum SerialMetric {
    RealCtxSwitchNs,
    AiInferenceUs,
    CtxSwitchNs,
    IrqLatencyNs,
    MemoryAllocNs,
    GraphStatsOps,
    GraphStatsChannels,
    GraphDemoTotalNs,
    GraphDemoAvgNsPerItem,
    GraphDemoItems,
    ChannelAbDepthMax,
    ChannelAbStalls,
    ChannelAbDrops,
    ZeroCopyCount,
    ZeroCopyHandleCount,
    SchemaMismatchCount,
    QualityWarns,
    CtlFramesRx,
    CtlFramesTx,
    CtlErrors,
    CtlBackpressureDrops,
    CtlRoundtripUs,
    CtlSelectedPort,
    CtlPortBound,
    OpATotalNs,
    OpBTotalNs,
    OpARuns,
    OpBRuns,
    ArenaRemainingBytes,
    OpAPmuInst,
    OpBPmuInst,
    OpAPmuL1dRefill,
    OpBPmuL1dRefill,
    OpAP50Ns,
    OpAP95Ns,
    OpAP99Ns,
    OpBP50Ns,
    OpBP95Ns,
    OpBP99Ns,
    SchedulerRunUs,
    DeterministicDeadlineMissCount,
    DeterministicJitterP99Ns,
    ModelLoadSuccess,
    ModelLoadFail,
    ModelAuditEntries,
    ModelsLoaded,
    DetConstraintVerified,
    DetConstraintViolationAlloc,
    DetConstraintViolationBlock,
    DeterministicDemoDurationUs,
    DeterministicDemoCompleted,
}

/// The name a metric has in the log.
pub open spec fn serial_metric_name(m: SerialMetric) -> Seq<char> {
    match m {
        SerialMetric::RealCtxSwitchNs => "real_ctx_switch_ns"@,
        SerialMetric::AiInferenceUs => "ai_inference_us"@,
        SerialMetric::CtxSwitchNs => "ctx_switch_ns"@,
        SerialMetric::IrqLatencyNs => "irq_latency_ns"@,
        SerialMetric::MemoryAllocNs => "memory_alloc_ns"@,
        SerialMetric::GraphStatsOps => "graph_stats_ops"@,
        SerialMetric::GraphStatsChannels => "graph_stats_channels"@,
        SerialMetric::GraphDemoTotalNs => "graph_demo_total_ns"@,
        SerialMetric::GraphDemoAvgNsPerItem => "graph_demo_avg_ns_per_item"@,
        SerialMetric::GraphDemoItems => "graph_demo_items"@,
        SerialMetric::ChannelAbDepthMax => "channel_ab_depth_max"@,
        SerialMetric::ChannelAbStalls => "channel_ab_stalls"@,
        SerialMetric::ChannelAbDrops => "channel_ab_drops"@,
        SerialMetric::ZeroCopyCount => "zero_copy_count"@,
        SerialMetric::ZeroCopyHandleCount => "zero_copy_handle_count"@,
        SerialMetric::SchemaMismatchCount => "schema_mismatch_count"@,
        SerialMetric::QualityWarns => "quality_warns"@,
        SerialMetric::CtlFramesRx => "ctl_frames_rx"@,
        SerialMetric::CtlFramesTx => "ctl_frames_tx"@,
        SerialMetric::CtlErrors => "ctl_errors"@,
        SerialMetric::CtlBackpressureDrops => "ctl_backpressure_drops"@,
        SerialMetric::CtlRoundtripUs => "ctl_roundtrip_us"@,
        SerialMetric::CtlSelectedPort => "ctl_selected_port"@,
        SerialMetric::CtlPortBound => "ctl_port_bound"@,
        SerialMetric::OpATotalNs => "op_a_total_ns"@,
        SerialMetric::OpBTotalNs => "op_b_total_ns"@,
        SerialMetric::OpARuns => "op_a_runs"@,
        SerialMetric::OpBRuns => "op_b_runs"@,
        SerialMetric::ArenaRemainingBytes => "arena_remaining_bytes"@,
        SerialMetric::OpAPmuInst => "op_a_pmu_inst"@,
        SerialMetric::OpBPmuInst => "op_b_pmu_inst"@,
        SerialMetric::OpAPmuL1dRefill => "op_a_pmu_l1d_refill"@,
        SerialMetric::OpBPmuL1dRefill => "op_b_pmu_l1d_refill"@,
        SerialMetric::OpAP50Ns => "op_a_p50_ns"@,
        SerialMetric::OpAP95Ns => "op_a_p95_ns"@,
        SerialMetric::OpAP99Ns => "op_a_p99_ns"@,
        SerialMetric::OpBP50Ns => "op_b_p50_ns"@,
        SerialMetric::OpBP95Ns => "op_b_p95_ns"@,
        SerialMetric::OpBP99Ns => "op_b_p99_ns"@,
        SerialMetric::SchedulerRunUs => "scheduler_run_us"@,
        SerialMetric::DeterministicDeadlineMissCount => "deterministic_deadline_miss_count"@,
        SerialMetric::DeterministicJitterP99Ns => "deterministic_jitter_p99_ns"@,
        SerialMetric::ModelLoadSuccess => "model_load_success"@,
        SerialMetric::ModelLoadFail => "model_load_fail"@,
        SerialMetric::ModelAuditEntries => "model_audit_entries"@,
        SerialMetric::ModelsLoaded => "models_loaded"@,
        SerialMetric::DetConstraintVerified => "det_constraint_verified"@,
        SerialMetric::DetConstraintViolationAlloc => "det_constraint_violation_alloc"@,
        SerialMetric::DetConstraintViolationBlock => "det_constraint_violation_block"@,
        SerialMetric::DeterministicDemoDurationUs => "deterministic_demo_duration_us"@,
        SerialMetric::DeterministicDemoCompleted => "deterministic_demo_completed"@,
    }
}

/// The metric named `key`, if any.
pub fn classify_metric(key: &str) -> (r: Option<SerialMetric>)
    ensures
        match r {
            Some(m) => key@ == serial_metric_name(m),
            None => forall|m: SerialMetric| key@ != #[trigger] serial_metric_name(m),
        },
{
    if str_eq(key, "real_ctx_switch_ns") {
        Some(SerialMetric::RealCtxSwitchNs)
    } else if str_eq(key, "ai_inference_us") {
        Some(SerialMetric::AiInferenceUs)
    } else if str_eq(key, "ctx_switch_ns") {
        Some(SerialMetric::CtxSwitchNs)
    } else if str_eq(key, "irq_latency_ns") {
        Some(SerialMetric::IrqLatencyNs)
    } else if str_eq(key, "memory_alloc_ns") {
        Some(SerialMetric::MemoryAllocNs)
    } else if str_eq(key, "graph_stats_ops") {
        Some(SerialMetric::GraphStatsOps)
    } else if str_eq(key, "graph_stats_channels") {
        Some(SerialMetric::GraphStatsChannels)
    } else if str_eq(key, "graph_demo_total_ns") {
        Some(SerialMetric::GraphDemoTotalNs)
    } else if str_eq(key, "graph_demo_avg_ns_per_item") {
        Some(SerialMetric::GraphDemoAvgNsPerItem)
    } else if str_eq(key, "graph_demo_items") {
        Some(SerialMetric::GraphDemoItems)
    } else if str_eq(key, "channel_ab_depth_max") {
        Some(SerialMetric::ChannelAbDepthMax)
    } else if str_eq(key, "channel_ab_stalls") {
        Some(SerialMetric::ChannelAbStalls)
    } else if str_eq(key, "channel_ab_drops") {
        Some(SerialMetric::ChannelAbDrops)
    } else if str_eq(key, "zero_copy_count") {
        Some(SerialMetric::ZeroCopyCount)
    } else if str_eq(key, "zero_copy_handle_count") {
        Some(SerialMetric::ZeroCopyHandleCount)
    } else if str_eq(key, "schema_mismatch_count") {
        Some(SerialMetric::SchemaMismatchCount)
    } else if str_eq(key, "quality_warns") {
        Some(SerialMetric::QualityWarns)
    } else if str_eq(key, "ctl_frames_rx") {
        Some(SerialMetric::CtlFramesRx)
    } else if str_eq(key, "ctl_frames_tx") {
        Some(SerialMetric::CtlFramesTx)
    } else if str_eq(key, "ctl_errors") {
        Some(SerialMetric::CtlErrors)
    } else if str_eq(key, "ctl_backpressure_drops") {
        Some(SerialMetric::CtlBackpressureDrops)
    } else if str_eq(key, "ctl_roundtrip_us") {
        Some(SerialMetric::CtlRoundtripUs)
    } else if str_eq(key, "ctl_selected_port") {
        Some(SerialMetric::CtlSelectedPort)
    } else if str_eq(key, "ctl_port_bound") {
        Some(SerialMetric::CtlPortBound)
    } else if str_eq(key, "op_a_total_ns") {
        Some(SerialMetric::OpATotalNs)
    } else if str_eq(key, "op_b_total_ns") {
        Some(SerialMetric::OpBTotalNs)
    } else if str_eq(key, "op_a_runs") {
        Some(SerialMetric::OpARuns)
    } else if str_eq(key, "op_b_runs") {
        Some(SerialMetric::OpBRuns)
    } else if str_eq(key, "arena_remaining_bytes") {
        Some(SerialMetric::ArenaRemainingBytes)
    } else if str_eq(key, "op_a_pmu_inst") {
        Some(SerialMetric::OpAPmuInst)
    } else if str_eq(key, "op_b_pmu_inst") {
        Some(SerialMetric::OpBPmuInst)
    } else if str_eq(key, "op_a_pmu_l1d_refill") {
        Some(SerialMetric::OpAPmuL1dRefill)
    } else if str_eq(key, "op_b_pmu_l1d_refill") {
        Some(SerialMetric::OpBPmuL1dRefill)
    } else if str_eq(key, "op_a_p50_ns") {
        Some(SerialMetric::OpAP50Ns)
    } else if str_eq(key, "op_a_p95_ns") {
        Some(SerialMetric::OpAP95Ns)
    } else if str_eq(key, "op_a_p99_ns") {
        Some(SerialMetric::OpAP99Ns)
    } else if str_eq(key, "op_b_p50_ns") {
        Some(SerialMetric::OpBP50Ns)
    } else if str_eq(key, "op_b_p95_ns") {
        Some(SerialMetric::OpBP95Ns)
    } else if str_eq(key, "op_b_p99_ns") {
        Some(SerialMetric::OpBP99Ns)
    } else if str_eq(key, "scheduler_run_us") {
        Some(SerialMetric::SchedulerRunUs)
    } else if str_eq(key, "deterministic_deadline_miss_count") {
        Some(SerialMetric::DeterministicDeadlineMissCount)
    } else if str_eq(key, "deterministic_jitter_p99_ns") {
        Some(SerialMetric::DeterministicJitterP99Ns)
    } else if str_eq(key, "model_load_success") {
        Some(SerialMetric::ModelLoadSuccess)
    } else if str_eq(key, "model_load_fail") {
        Some(SerialMetric::ModelLoadFail)
    } else if str_eq(key, "model_audit_entries") {
        Some(SerialMetric::ModelAuditEntries)
    } else if str_eq(key, "models_loaded") {
        Some(SerialMetric::ModelsLoaded)
    } else if str_eq(key, "det_constraint_verified") {
        Some(SerialMetric::DetConstraintVerified)
    } else if str_eq(key, "det_constraint_violation_alloc") {
        Some(SerialMetric::DetConstraintViolationAlloc)
    } else if str_eq(key, "det_constraint_violation_block") {
        Some(SerialMetric::DetConstraintViolationBlock)
    } else if str_eq(key, "deterministic_demo_duration_us") {
        Some(SerialMetric::DeterministicDemoDurationUs)
    } else if str_eq(key, "deterministic_demo_completed") {
        Some(SerialMetric::DeterministicDemoCompleted)
    } else {
        None
    }
}

/// Whether a metric is a series of samples rather than a single value.
pub open spec fn is_series(m: SerialMetric) -> bool {
    match m {
        SerialMetric::RealCtxSwitchNs | SerialMetric::AiInferenceUs | SerialMetric::CtxSwitchNs
        | SerialMetric::IrqLatencyNs | SerialMetric::MemoryAllocNs => true,
        _ => false,
    }
}

impl SerialMetric {
    /// Whether the metric is a series of samples rather than a single value.
    pub fn is_series(&self) -> (r: bool)
        ensures
            r == is_series(*self),
    {
        match self {
            SerialMetric::RealCtxSwitchNs | SerialMetric::AiInferenceUs | SerialMetric::CtxSwitchNs
            | SerialMetric::IrqLatencyNs | SerialMetric::MemoryAllocNs => true,
            _ => false,
        }
    }
}

/// Non-zero real context-switch samples needed before they are trusted.
pub const MIN_REAL_NONZERO: usize = 8;

/// The samples that stand for context switches in the summary.
#[derive(Debug, Clone, Copy, PartialEq, Eq, Structural)]
pub enum CtxSource {
    /// Measured context switches (their non-zero samples for the percentiles).
    Real,
    /// Interrupt latencies.
    Irq,
    /// The system-call proxy.
    Syscall,
}

/// Measured context switches when there are at least 8 non-zero samples,
/// else interrupt latencies when there are any, else the system-call proxy.
pub fn context_switch_source(real_nonzero: usize, irq_samples: usize) -> (s: CtxSource)
    ensures
        s == if real_nonzero >= MIN_REAL_NONZERO {
            CtxSource::Real
        } else if irq_samples > 0 {
            CtxSource::Irq
        } else {
            CtxSource::Syscall
        },
{
    if real_nonzero >= MIN_REAL_NONZERO {
        CtxSource::Real
    } else if irq_samples > 0 {
        CtxSource::Irq
    } else {
        CtxSource::Syscall
    }
}

/// Whether a log gives a summary: some series has a sample.
pub fn has_usable_samples(ai: usize, ctx: usize, irq: usize, mem: usize, real_ctx: usize) -> (r: bool)
    ensures
        r == (ai > 0 || ctx > 0 || irq > 0 || mem > 0 || real_ctx > 0),
{
    !(ai == 0 && ctx == 0 && irq == 0 && mem == 0 && real_ctx == 0)
}

} // verus!

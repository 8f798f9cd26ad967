//! The test harness's vocabulary: test categories and outcomes, hardware
//! backends and their configuration, and NPU jobs.
use vstd::prelude::*;
use std::time::Duration;
use crate::duration::{nanos_of, duration_from_secs};

verus! {

/// What a test exercises.
#[derive(Debug, Clone, Copy, PartialEq, Eq, Structural)]
pub enum TestCategory {
    Performance,
    Correctness,
    Security,
    Distributed,
    AI,
    Integration,
    Regression,
}

/// How a test ended.
#[derive(Debug, Clone, Copy, PartialEq, Eq, Structural)]
pub enum TestStatus {
    Pass,
    Fail,
    Warning,
    Skip,
    Timeout,
    Error,
}

/// The kind of machine the kernel under test runs on.
#[derive(Debug, Clone, Copy, PartialEq, Eq, Structural)]
pub enum BackendType {
    /// QEMU emulation (fast, reproducible, no hardware needed).
    Qemu,
    /// Real hardware over a serial port.
    Serial,
    /// Mock backend for unit testing.
    Mock,
}

/// The display name of a backend type.
pub open spec fn backend_name(t: BackendType) -> Seq<char> {
    match t {
        BackendType::Qemu => "QEMU"@,
        BackendType::Serial => "Serial"@,
        BackendType::Mock => "Mock"@,
    }
}

impl BackendType {
    /// The display name: "QEMU", "Serial" or "Mock".
    pub fn to_string(&self) -> (s: String)
        ensures
            s@ == backend_name(*self),
    {
        match self {
            BackendType::Qemu => "QEMU".to_owned(),
            BackendType::Serial => "Serial".to_owned(),
            BackendType::Mock => "Mock".to_owned(),
        }
    }
}

/// How to create and drive a hardware backend.
pub struct BackendConfig {
    /// Timeout for boot and initialisation.
    pub boot_timeout: Duration,
    /// Timeout for one command.
    pub command_timeout: Duration,
    /// Path to the kernel binary (QEMU).
    pub kernel_path: Option<String>,
    /// Serial device path (serial backend).
    pub serial_device: Option<String>,
    /// Serial baud rate (serial backend).
    pub serial_baud_rate: u32,
    /// QEMU instance number in a multi-node cluster.
    pub qemu_node_id: Option<usize>,
    /// Verbose logging.
    pub verbose: bool,
}

impl Default for BackendConfig {
    /// 90 s to boot, 30 s per command, 115200 baud, nothing else set.
    fn default() -> (c: Self)
        ensures
            nanos_of(c.boot_timeout) == 90_000_000_000,
            nanos_of(c.command_timeout) == 30_000_000_000,
            c.kernel_path is None,
            c.serial_device is None,
            c.serial_baud_rate == 115200,
            c.qemu_node_id is None,
            !c.verbose,
    {
        BackendConfig {
            boot_timeout: duration_from_secs(90),
            command_timeout: duration_from_secs(30),
            kernel_path: None,
            serial_device: None,
            serial_baud_rate: 115200,
            qemu_node_id: None,
            verbose: false,
        }
    }
}

/// NPU job priorities, lowest first.
#[derive(Debug, Clone, Copy, PartialEq, Eq, PartialOrd, Ord, Structural)]
pub enum NpuPriority {
    Low,
    Normal,
    High,
    Critical,
}

/// The kernel's number for a priority: 0 (low) to 3 (critical).
pub open spec fn priority_level(p: NpuPriority) -> u8 {
    match p {
        NpuPriority::Low => 0,
        NpuPriority::Normal => 1,
        NpuPriority::High => 2,
        NpuPriority::Critical => 3,
    }
}

/// Priorities are ordered low, normal, high, critical by their kernel
/// numbers, and the order is transitive.
pub proof fn lemma_priority_order()
    ensures
        priority_level(NpuPriority::Low) < priority_level(NpuPriority::Normal),
        priority_level(NpuPriority::Normal) < priority_level(NpuPriority::High),
        priority_level(NpuPriority::High) < priority_level(NpuPriority::Critical),
        priority_level(NpuPriority::Low) < priority_level(NpuPriority::High),
        priority_level(NpuPriority::Low) < priority_level(NpuPriority::Critical),
        priority_level(NpuPriority::Normal) < priority_level(NpuPriority::Critical),
{
}

impl NpuPriority {
    /// The kernel's number for this priority: 0 (low) to 3 (critical).
    pub fn level(&self) -> (l: u8)
        ensures
            l == priority_level(*self),
    {
        match self {
            NpuPriority::Low => 0,
            NpuPriority::Normal => 1,
            NpuPriority::High => 2,
            NpuPriority::Critical => 3,
        }
    }
}

/// The state of an NPU job.
#[derive(Debug, Clone, Copy, PartialEq, Eq, Structural)]
pub enum NpuJobStatus {
    Queued,
    Running,
    Completed,
    Failed,
    Cancelled,
}

/// An NPU inference job.
#[derive(Debug, Clone, Copy, PartialEq, Eq, Structural)]
pub struct NpuJob {
    pub job_id: u32,
    pub model_id: u32,
    pub model_addr: u64,
    pub input_addr: u64,
    pub output_addr: u64,
    pub input_size: u32,
    pub output_size: u32,
    pub priority: NpuPriority,
    pub max_cycles: u64,
}

/// Failures of an NPU backend.
pub enum NpuError {
    NotInitialized,
    QueueFull,
    InvalidJob(String),
    JobNotFound(u32),
    HardwareError(String),
    Timeout,
    CommunicationError(String),
}

/// Where and how an NPU backend finds its device.
#[derive(Debug, Clone, Copy, PartialEq, Eq, Structural)]
pub struct NpuBackendConfig {
    pub mmio_base: u64,
    pub irq_number: u32,
    pub max_queue_depth: usize,
    pub timeout_ms: u64,
}

impl Default for NpuBackendConfig {
    /// MMIO at 0x4000_0000, IRQ 33, 64 queued jobs, 5 s timeout.
    fn default() -> (c: Self)
        ensures
            c.mmio_base == 0x4000_0000,
            c.irq_number == 33,
            c.max_queue_depth == 64,
            c.timeout_ms == 5000,
    {
        NpuBackendConfig { mmio_base: 0x4000_0000, irq_number: 33, max_queue_depth: 64, timeout_ms: 5000 }
    }
}

} // verus!

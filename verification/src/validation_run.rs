//! The decisions of a full validation run, one step at a time: whether to
//! mix real and simulated performance figures, whether to smoke-test the
//! kernel's LLM shell, how long to wait for the kernel's metrics, and how to
//! run the suites. The caller performs each action and answers with what
//! came of it.
use vstd::prelude::*;

verus! {

/// How long to keep looking for metrics in the serial log, in milliseconds.
pub const METRICS_DEADLINE_MS: u64 = 20_000;

/// The pause between two looks at the serial log, in milliseconds.
pub const METRICS_RETRY_MS: u64 = 800;

/// Where a validation run stands.
#[derive(Debug, Clone, Copy, PartialEq, Eq, Structural)]
pub enum ValidationPhase {
    /// Nothing done yet.
    Start,
    /// The performance mode is set.
    Prepared,
    /// The LLM smoke test is running.
    SmokeTesting,
    /// The serial log is being read for metrics.
    LoadingMetrics,
    /// Waiting before the next look at the serial log.
    Waiting,
    /// The suites are running.
    RunningSuites,
    /// The report is out.
    Done,
}

/// What a validation run knows: its phase and the setting it started in.
#[derive(Debug, Clone, Copy, PartialEq, Eq, Structural)]
pub struct ValidationState {
    pub phase: ValidationPhase,
    /// An emulator runtime was started.
    pub qemu_running: bool,
    /// Every emulated node booted.
    pub all_booted: bool,
    /// The first node has a serial log.
    pub has_serial_log: bool,
    /// The suites may run in parallel.
    pub parallel: bool,
    /// Reports (and the metrics dump) are written.
    pub generate_reports: bool,
}

/// What came of the last action.
#[derive(Debug, Clone, Copy, PartialEq, Eq, Structural)]
pub enum ValidationEvent {
    /// The action is done and reported nothing.
    Done,
    /// The serial log held metrics; `dump` when it also gave the full dump.
    MetricsLoaded { dump: bool },
    /// The serial log held no metrics yet, `elapsed_ms` after the first look.
    NoMetricsYet { elapsed_ms: u64 },
    /// The serial log could not be read.
    MetricsFailed,
}

/// What to do next.
#[derive(Debug, Clone, Copy, PartialEq, Eq, Structural)]
pub enum ValidationAction {
    /// Set the performance mode: hybrid (real and simulated figures) or not.
    Prepare { hybrid: bool },
    /// Run the LLM smoke test on the first node's shell.
    RunSmokeTest,
    /// Look for metrics in the first node's serial log.
    LoadMetrics,
    /// Wait this long, then look again.
    Wait { ms: u64 },
    /// Run the suites: with the kernel's shell connected for the AI
    /// validation or not, with the metrics from the log or the benchmark,
    /// writing the metrics dump or not, in parallel or one after another.
    RunSuites { connect_kernel: bool, real_metrics: bool, write_dump: bool, parallel: bool },
    /// The run is over.
    Finish,
    /// The event does not fit the phase: nothing to do.
    Ignore,
}

/// A run that is about to start.
pub open spec fn validation_start(
    qemu_running: bool,
    all_booted: bool,
    has_serial_log: bool,
    parallel: bool,
    generate_reports: bool,
) -> ValidationState {
    ValidationState {
        phase: ValidationPhase::Start,
        qemu_running,
        all_booted,
        has_serial_log,
        parallel,
        generate_reports,
    }
}

/// The action that runs the suites in state `s`.
pub open spec fn suites_action(s: ValidationState, real_metrics: bool, dump: bool) -> ValidationAction {
    ValidationAction::RunSuites {
        connect_kernel: s.qemu_running && s.has_serial_log,
        real_metrics,
        write_dump: real_metrics && dump && s.generate_reports,
        parallel: s.parallel,
    }
}

/// One step of a validation run: the next state and action, given the state
/// and what came of the last action.
///
/// A run prepares hybrid mode when the emulator runs but not every node
/// booted. When every node booted and the first has a serial log, it
/// smoke-tests the LLM shell and then looks for metrics in the log, every
/// 800 ms until some appear, the log cannot be read, or 20 s have passed;
/// otherwise it goes straight to the suites. The suites use the log's
/// metrics when they were found, and the benchmark otherwise.
pub open spec fn validation_next(s: ValidationState, e: ValidationEvent) -> (ValidationState, ValidationAction) {
    let stay = (s, ValidationAction::Ignore);
    match s.phase {
        ValidationPhase::Start => match e {
            ValidationEvent::Done => (
                ValidationState { phase: ValidationPhase::Prepared, ..s },
                ValidationAction::Prepare { hybrid: s.qemu_running && !s.all_booted },
            ),
            _ => stay,
        },
        ValidationPhase::Prepared => match e {
            ValidationEvent::Done => if s.all_booted && s.has_serial_log {
                (ValidationState { phase: ValidationPhase::SmokeTesting, ..s }, ValidationAction::RunSmokeTest)
            } else {
                (ValidationState { phase: ValidationPhase::RunningSuites, ..s }, suites_action(s, false, false))
            },
            _ => stay,
        },
        ValidationPhase::SmokeTesting => match e {
            ValidationEvent::Done => (
                ValidationState { phase: ValidationPhase::LoadingMetrics, ..s },
                ValidationAction::LoadMetrics,
            ),
            _ => stay,
        },
        ValidationPhase::LoadingMetrics => match e {
            ValidationEvent::MetricsLoaded { dump } => (
                ValidationState { phase: ValidationPhase::RunningSuites, ..s },
                suites_action(s, true, dump),
            ),
            ValidationEvent::NoMetricsYet { elapsed_ms } => if elapsed_ms >= METRICS_DEADLINE_MS {
                (ValidationState { phase: ValidationPhase::RunningSuites, ..s }, suites_action(s, false, false))
            } else {
                (
                    ValidationState { phase: ValidationPhase::Waiting, ..s },
                    ValidationAction::Wait { ms: METRICS_RETRY_MS },
                )
            },
            ValidationEvent::MetricsFailed => (
                ValidationState { phase: ValidationPhase::RunningSuites, ..s },
                suites_action(s, false, false),
            ),
            ValidationEvent::Done => stay,
        },
        ValidationPhase::Waiting => match e {
            ValidationEvent::Done => (
                ValidationState { phase: ValidationPhase::LoadingMetrics, ..s },
                ValidationAction::LoadMetrics,
            ),
            _ => stay,
        },
        ValidationPhase::RunningSuites => match e {
            ValidationEvent::Done => (ValidationState { phase: ValidationPhase::Done, ..s }, ValidationAction::Finish),
            _ => stay,
        },
        ValidationPhase::Done => stay,
    }
}

/// A run that is about to start, in the given setting.
pub fn start_validation(
    qemu_running: bool,
    all_booted: bool,
    has_serial_log: bool,
    parallel: bool,
    generate_reports: bool,
) -> (s: ValidationState)
    ensures
        s == validation_start(qemu_running, all_booted, has_serial_log, parallel, generate_reports),
{
    ValidationState {
        phase: ValidationPhase::Start,
        qemu_running,
        all_booted,
        has_serial_log,
        parallel,
        generate_reports,
    }
}

/// The action that runs the suites in state `s`.
fn run_suites(s: ValidationState, real_metrics: bool, dump: bool) -> (a: ValidationAction)
    ensures
        a == suites_action(s, real_metrics, dump),
{
    ValidationAction::RunSuites {
        connect_kernel: s.qemu_running && s.has_serial_log,
        real_metrics,
        write_dump: real_metrics && dump && s.generate_reports,
        parallel: s.parallel,
    }
}

/// One step of a validation run (see `validation_next`).
pub fn validation_step(s: ValidationState, e: ValidationEvent) -> (r: (ValidationState, ValidationAction))
    ensures
        r == validation_next(s, e),
{
    let stay = (s, ValidationAction::Ignore);
    match s.phase {
        ValidationPhase::Start => match e {
            ValidationEvent::Done => (
                ValidationState { phase: ValidationPhase::Prepared, ..s },
                ValidationAction::Prepare { hybrid: s.qemu_running && !s.all_booted },
            ),
            _ => stay,
        },
        ValidationPhase::Prepared => match e {
            ValidationEvent::Done => if s.all_booted && s.has_serial_log {
                (ValidationState { phase: ValidationPhase::SmokeTesting, ..s }, ValidationAction::RunSmokeTest)
            } else {
                (ValidationState { phase: ValidationPhase::RunningSuites, ..s }, run_suites(s, false, false))
            },
            _ => stay,
        },
        ValidationPhase::SmokeTesting => match e {
            ValidationEvent::Done => (
                ValidationState { phase: ValidationPhase::LoadingMetrics, ..s },
                ValidationAction::LoadMetrics,
            ),
            _ => stay,
        },
        ValidationPhase::LoadingMetrics => match e {
            ValidationEvent::MetricsLoaded { dump } => (
                ValidationState { phase: ValidationPhase::RunningSuites, ..s },
                run_suites(s, true, dump),
            ),
            ValidationEvent::NoMetricsYet { elapsed_ms } => if elapsed_ms >= METRICS_DEADLINE_MS {
                (ValidationState { phase: ValidationPhase::RunningSuites, ..s }, run_suites(s, false, false))
            } else {
                (
                    ValidationState { phase: ValidationPhase::Waiting, ..s },
                    ValidationAction::Wait { ms: METRICS_RETRY_MS },
                )
            },
            ValidationEvent::MetricsFailed => (
                ValidationState { phase: ValidationPhase::RunningSuites, ..s },
                run_suites(s, false, false),
            ),
            ValidationEvent::Done => stay,
        },
        ValidationPhase::Waiting => match e {
            ValidationEvent::Done => (
                ValidationState { phase: ValidationPhase::LoadingMetrics, ..s },
                ValidationAction::LoadMetrics,
            ),
            _ => stay,
        },
        ValidationPhase::RunningSuites => match e {
            ValidationEvent::Done => (ValidationState { phase: ValidationPhase::Done, ..s }, ValidationAction::Finish),
            _ => stay,
        },
        ValidationPhase::Done => stay,
    }
}

/// A run that looks for metrics stops looking within the deadline: once
/// 20 s have passed without metrics, the next step runs the suites on the
/// benchmark.
pub proof fn lemma_metrics_wait_bounded(s: ValidationState, elapsed_ms: u64)
    requires
        s.phase == ValidationPhase::LoadingMetrics,
        elapsed_ms >= METRICS_DEADLINE_MS,
    ensures
        validation_next(s, ValidationEvent::NoMetricsYet { elapsed_ms }).1 is RunSuites,
        validation_next(s, ValidationEvent::NoMetricsYet { elapsed_ms }).1->real_metrics == false,
{
}

} // verus!

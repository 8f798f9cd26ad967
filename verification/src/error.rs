use vstd::prelude::*;

verus! {

/// Kernel error numbers used by the drivers and the window manager.
#[derive(Debug, Clone, Copy, PartialEq, Eq, Structural)]
pub enum Errno {
    /// No such entry.
    ENOENT,
    /// Out of memory.
    ENOMEM,
    /// No such device.
    ENODEV,
    /// Invalid argument.
    EINVAL,
    /// No space left (no free descriptor).
    ENOSPC,
}

/// Failures of the test harness.
pub enum TestError {
    /// Test execution failed.
    ExecutionFailed { message: String },
    /// Interaction with the emulator failed.
    QEMUError { message: String },
    /// Statistical analysis failed.
    StatisticalError { message: String },
    /// Validation failed.
    ValidationError { message: String },
}

} // verus!

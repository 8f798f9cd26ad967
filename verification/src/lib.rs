//! Verified core logic of the SIS kernel and its test harness.

pub mod error;
pub mod virtqueue;
pub mod graphics;
pub mod window;
pub mod window_manager;
pub mod window_demo;
pub mod window_selftest;
pub mod draw;
pub mod fdt;
pub mod text;
pub mod duration;
pub mod consensus;
pub mod replication;
pub mod partition;
pub mod fault_injection;
pub mod ext4_stress;
pub mod harness;
pub mod mock_npu;
pub mod scan;
pub mod metrics;
pub mod kernel_interface;
pub mod serial_log;
pub mod console;
pub mod console_queue;
pub mod formal;
pub mod report;
pub mod voice;
pub mod phase_checks;
pub mod validation;
pub mod validation_run;
pub mod phase1_dataflow;
pub mod phase2_governance;
pub mod phase3_temporal;
pub mod phase5_ux_safety;
pub mod phase6_web_gui;

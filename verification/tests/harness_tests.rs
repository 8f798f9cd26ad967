use sis_kernel::ext4_stress::StressScenario;
use sis_kernel::harness::{BackendConfig, BackendType, NpuBackendConfig, NpuJob, NpuJobStatus, NpuPriority};
use sis_kernel::graphics::Rect;
use sis_kernel::voice::{preferred_size, state_indicator_commands, voice_panel_fits, voice_panel_layout, VoiceStatus};
use std::time::Duration;

#[test]
fn test_scenario_parsing() {
    assert!(matches!(
        StressScenario::from_str("write_during_allocation"),
        Some(StressScenario::WriteDuringAllocation)
    ));

    assert!(matches!(StressScenario::from_str("invalid"), None));
}

#[test]
fn scenario_names_round_trip() {
    let all = [
        StressScenario::WriteDuringAllocation,
        StressScenario::WriteDuringInodeCreate,
        StressScenario::WriteDuringJournalCommit,
        StressScenario::WriteDuringDataWrite,
        StressScenario::ConcurrentWrites,
        StressScenario::DirectoryOperations,
        StressScenario::TruncateOperations,
    ];
    for s in all {
        assert_eq!(StressScenario::from_str(s.as_str()), Some(s));
    }
    assert_eq!(StressScenario::TruncateOperations.as_str(), "truncate_operations");
    assert_eq!(StressScenario::from_str("concurrent_writes "), None);
    assert_eq!(StressScenario::from_str(""), None);
}

#[test]
fn test_backend_type_display() {
    assert_eq!(BackendType::Qemu.to_string(), "QEMU");
    assert_eq!(BackendType::Serial.to_string(), "Serial");
    assert_eq!(BackendType::Mock.to_string(), "Mock");
}

#[test]
fn test_backend_config_default() {
    let config = BackendConfig::default();
    assert_eq!(config.boot_timeout, Duration::from_secs(90));
    assert_eq!(config.command_timeout, Duration::from_secs(30));
    assert_eq!(config.serial_baud_rate, 115200);
    assert!(!config.verbose);
}

#[test]
fn backend_config_default_leaves_paths_unset() {
    let config = BackendConfig::default();
    assert!(config.kernel_path.is_none());
    assert!(config.serial_device.is_none());
    assert!(config.qemu_node_id.is_none());
}

#[test]
fn test_priority_ordering() {
    assert!(NpuPriority::Low < NpuPriority::Normal);
    assert!(NpuPriority::Normal < NpuPriority::High);
    assert!(NpuPriority::High < NpuPriority::Critical);
}

#[test]
fn priority_levels_match_kernel_numbers() {
    assert_eq!(NpuPriority::Low.level(), 0);
    assert_eq!(NpuPriority::Normal.level(), 1);
    assert_eq!(NpuPriority::High.level(), 2);
    assert_eq!(NpuPriority::Critical.level(), 3);
}

#[test]
fn test_job_creation() {
    let job = NpuJob {
        job_id: 1,
        model_id: 42,
        model_addr: 0x1000_0000,
        input_addr: 0x2000_0000,
        output_addr: 0x3000_0000,
        input_size: 224 * 224 * 3 * 4,
        output_size: 1000 * 4,
        priority: NpuPriority::High,
        max_cycles: 50_000,
    };

    assert_eq!(job.job_id, 1);
    assert_eq!(job.model_id, 42);
    assert_eq!(job.priority, NpuPriority::High);
}

#[test]
fn npu_backend_config_default_values() {
    let c = NpuBackendConfig::default();
    assert_eq!(c.mmio_base, 0x4000_0000);
    assert_eq!(c.irq_number, 33);
    assert_eq!(c.max_queue_depth, 64);
    assert_eq!(c.timeout_ms, 5000);
    assert_ne!(NpuJobStatus::Queued, NpuJobStatus::Completed);
}

#[test]
fn voice_indicator_and_size() {
    let mut status = VoiceStatus::new();
    assert_eq!(state_indicator_commands(&status, 10, 20).len(), 2);
    status.activate_wake_word();
    let cmds = state_indicator_commands(&status, 10, 20);
    assert_eq!(cmds.len(), 3);
    match &cmds[1] {
        sis_kernel::draw::DrawCommand::Text { x, y, text, .. } => {
            assert_eq!((*x, *y), (40, 20));
            assert_eq!(text, "Listening...");
        }
        _ => panic!("expected text"),
    }
    match &cmds[2] {
        sis_kernel::draw::DrawCommand::Text { x, text, .. } => {
            assert_eq!(*x, 310);
            assert_eq!(text, "● Active");
        }
        _ => panic!("expected text"),
    }
    assert_eq!(preferred_size(false, false), (600, 300));
    assert_eq!(preferred_size(true, true), (600, 440));
}

#[test]
fn voice_panel_layout_places_the_parts() {
    let b = Rect::new(100, 50, 600, 440);
    assert!(voice_panel_fits(b, true));
    let l = voice_panel_layout(b, true);
    assert_eq!((l.text_x, l.title_y, l.indicator_y), (115, 65, 95));
    assert_eq!(l.waveform, Rect::new(115, 130, 570, 100));
    assert_eq!((l.transcript_y, l.confidence_x, l.response_y), (245, 565, 295));
    assert_eq!(l.help_y, 460);
    let l = voice_panel_layout(b, false);
    assert_eq!(l.response_y, 245);
    assert!(!voice_panel_fits(Rect::new(0, 0, 20, 400), false));
    assert!(!voice_panel_fits(Rect::new(0, 0, 100, 400), true));
}

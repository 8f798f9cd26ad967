use sis_kernel::harness::{NpuBackendConfig, NpuError, NpuJob, NpuJobStatus, NpuPriority};
use sis_kernel::mock_npu::MockNpuBackend;

fn job(model_id: u32) -> NpuJob {
    NpuJob {
        job_id: 0,
        model_id,
        model_addr: 0x1000_0000,
        input_addr: 0x2000_0000,
        output_addr: 0x3000_0000,
        input_size: 1000,
        output_size: 100,
        priority: NpuPriority::High,
        max_cycles: 50_000,
    }
}

fn ready() -> MockNpuBackend {
    let mut b = MockNpuBackend::new(NpuBackendConfig::default());
    assert!(b.initialize().is_ok());
    b
}

#[test]
fn test_mock_npu_initialization() {
    let mut b = MockNpuBackend::new(NpuBackendConfig::default());
    assert!(!b.is_alive());
    assert!(b.initialize().is_ok());
    assert!(b.is_alive());
}

#[test]
fn test_mock_npu_job_submission() {
    let mut b = ready();
    assert!(b.can_submit(&job(42)));
    assert_eq!(b.submit_job(job(42)).ok(), Some(1));
    let results = b.poll_completed().ok().unwrap();
    assert_eq!(results.len(), 1);
    assert_eq!(results[0].job_id, 1);
    assert_eq!(results[0].status, NpuJobStatus::Completed);
    // polling forgets them
    assert!(b.poll_completed().ok().unwrap().is_empty());
}

#[test]
fn test_mock_npu_failure_simulation() {
    let mut b = MockNpuBackend::new(NpuBackendConfig::default());
    b.set_simulate_failure(true);
    match b.initialize() {
        Err(NpuError::HardwareError(m)) => assert_eq!(m, "Simulated initialization failure"),
        _ => panic!("expected a hardware error"),
    }
    assert!(!b.is_alive());
}

#[test]
fn test_mock_npu_queue_full() {
    let mut b = ready();
    b.set_simulate_queue_full(true);
    assert!(matches!(b.submit_job(job(42)), Err(NpuError::QueueFull)));
}

#[test]
fn test_mock_npu_statistics() {
    let mut b = ready();
    b.submit_job(job(42)).ok().unwrap();
    b.submit_job(job(42)).ok().unwrap();
    let c = b.counters().ok().unwrap();
    assert_eq!(c.total_jobs, 2);
    assert_eq!(c.completed_jobs, 2);
    assert_eq!(c.failed_jobs, 0);
    let r = b.completed_result(2).ok().unwrap().unwrap();
    assert!(r.completion_time_us > 0);
}

#[test]
fn cycle_estimate_follows_model_complexity() {
    let mut b = ready();
    // 1000 + 1000 / 4 + 100 / 8 = 1262 cycles before scaling
    let cases = [(40, 1262), (41, 1893), (42, 2524), (43, 3786)];
    for (model, cycles) in cases {
        let id = b.submit_job(job(model)).ok().unwrap();
        let r = b.completed_result(id).ok().unwrap().unwrap();
        assert_eq!(r.cycles_used, cycles);
        assert_eq!(r.completion_time_us, cycles / 1000);
        assert_eq!(r.output_len, 25);
        assert_eq!(r.error_code, None);
    }
    assert_eq!(b.counters().ok().unwrap().total_cycles, 1262 + 1893 + 2524 + 3786);
}

#[test]
fn invalid_jobs_are_refused_in_order() {
    let mut down = MockNpuBackend::new(NpuBackendConfig::default());
    assert!(matches!(down.submit_job(job(1)), Err(NpuError::NotInitialized)));
    let mut b = ready();
    let mut empty = job(1);
    empty.output_size = 0;
    empty.model_addr = 0;
    match b.submit_job(empty) {
        Err(NpuError::InvalidJob(m)) => assert_eq!(m, "Zero size buffer"),
        _ => panic!("expected an invalid job"),
    }
    let mut null = job(1);
    null.input_addr = 0;
    match b.submit_job(null) {
        Err(NpuError::InvalidJob(m)) => assert_eq!(m, "Null address"),
        _ => panic!("expected an invalid job"),
    }
    let mut config = NpuBackendConfig::default();
    config.max_queue_depth = 0;
    let mut tiny = MockNpuBackend::new(config);
    tiny.initialize().ok().unwrap();
    assert!(matches!(tiny.submit_job(job(1)), Err(NpuError::QueueFull)));
    assert_eq!(b.counters().ok().unwrap().total_jobs, 0);
}

#[test]
fn failed_jobs_keep_their_own_id_and_do_not_use_one() {
    let mut b = ready();
    b.set_simulate_failure(true);
    let mut j = job(7);
    j.job_id = 99;
    assert_eq!(b.submit_job(j).ok(), Some(99));
    let r = b.completed_result(99).ok().unwrap().unwrap();
    assert_eq!(r.status, NpuJobStatus::Failed);
    assert_eq!(r.error_code, Some(0xE001));
    b.set_simulate_failure(false);
    assert_eq!(b.submit_job(job(7)).ok(), Some(1));
    let c = b.counters().ok().unwrap();
    assert_eq!((c.total_jobs, c.completed_jobs, c.failed_jobs), (2, 1, 1));
}

#[test]
fn reset_restarts_ids_and_shutdown_reports_down() {
    let mut b = ready();
    b.submit_job(job(1)).ok().unwrap();
    b.submit_job(job(1)).ok().unwrap();
    assert!(b.reset().is_ok());
    assert_eq!(b.counters().ok().unwrap().total_jobs, 0);
    assert!(b.completed_result(1).ok().unwrap().is_none());
    assert_eq!(b.submit_job(job(1)).ok(), Some(1));
    assert!(matches!(b.shutdown(), Err(NpuError::NotInitialized)));
    assert!(!b.is_alive());
    assert!(matches!(b.counters(), Err(NpuError::NotInitialized)));
    assert_eq!(b.name(), "MockNpuBackend");
}

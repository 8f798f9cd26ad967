use sis_kernel::console::DriverError;
use sis_kernel::console_queue::ConsoleQueue;

#[test]
fn buffers_go_round_robin() {
    let mut q = ConsoleQueue::new(0, 2);
    assert!(q.add_buffer(0x1000, 64, 2).is_ok());
    assert!(q.add_buffer(0x2000, 64, 2).is_ok());
    assert!(q.add_buffer(0x3000, 64, 2).is_ok());
    let used = vec![(1u32, 10u32); 256];
    assert_eq!(q.get_used_buffer(0, &used), None);
    assert_eq!(q.get_used_buffer(2, &used), Some((1, 10)));
}

#[test]
fn used_buffers_follow_the_ring() {
    let mut q = ConsoleQueue::new(1, 4);
    let mut used = vec![(0u32, 0u32); 256];
    used[0] = (3, 100);
    used[1] = (0, 7);
    assert_eq!(q.get_used_buffer(2, &used), Some((3, 100)));
    assert_eq!(q.get_used_buffer(2, &used), Some((0, 7)));
    assert_eq!(q.get_used_buffer(2, &used), None);
}

#[test]
fn an_empty_queue_has_no_descriptors() {
    let mut q = ConsoleQueue::new(0, 0);
    assert!(matches!(q.add_buffer(0x1000, 8, 0), Err(DriverError::ResourceError)));
}

use sis_kernel::error::Errno;
use sis_kernel::virtqueue::{is_power_of_two, VirtQueue, VIRTQ_DESC_F_NEXT, VIRTQ_DESC_F_WRITE};

#[test]
fn queue_size_must_be_power_of_two() {
    assert!(matches!(VirtQueue::new(0, 3, 0, 0, 0), Err(Errno::EINVAL)));
    assert!(matches!(VirtQueue::new(0, 0, 0, 0, 0), Err(Errno::EINVAL)));
    assert!(VirtQueue::new(0, 32768, 0, 0, 0).is_ok());
    assert!(is_power_of_two(64));
    assert!(!is_power_of_two(96));
}

#[test]
fn addresses_are_reported() {
    let q = VirtQueue::new(2, 8, 0x1000, 0x2000, 0x3000).ok().unwrap();
    assert_eq!(q.desc_table_addr(), 0x1000);
    assert_eq!(q.avail_ring_addr(), 0x2000);
    assert_eq!(q.used_ring_addr(), 0x3000);
    assert_eq!(q.get_addresses(), (0x1000, 0x2000, 0x3000));
    assert!(q.notify_needed());
}

#[test]
fn chain_is_built_published_and_returned() {
    let mut q = VirtQueue::new(0, 4, 0x1000, 0x2000, 0x3000).ok().unwrap();
    let head = q.add_buf(&[(0xA000, 64, false), (0xB000, 128, true)]).ok().unwrap();
    assert_eq!(head, 3);
    let d0 = q.descriptor(3);
    assert_eq!((d0.addr, d0.len, d0.flags, d0.next), (0xA000, 64, VIRTQ_DESC_F_NEXT, 2));
    let d1 = q.descriptor(2);
    assert_eq!((d1.addr, d1.len, d1.flags, d1.next), (0xB000, 128, VIRTQ_DESC_F_WRITE, 0));
    assert_eq!(q.avail_entry(0), 3);
    assert_eq!(q.avail_idx(), 1);
    assert_eq!(q.free_count(), 2);
    assert!(!q.has_used_buf());
    assert_eq!(q.get_used_buf(), None);
    q.device_complete(3, 100);
    assert!(q.has_used_buf());
    assert_eq!(q.get_used_buf(), Some((3, 100)));
    assert_eq!(q.free_count(), 4);
    assert!(!q.has_used_buf());
}

#[test]
fn add_buf_errors() {
    let mut q = VirtQueue::new(0, 2, 0, 0, 0).ok().unwrap();
    assert!(matches!(q.add_buf(&[]), Err(Errno::EINVAL)));
    assert_eq!(q.free_count(), 2);
    assert!(matches!(q.add_buf(&[(1, 1, false), (2, 2, false), (3, 3, false)]), Err(Errno::ENOSPC)));
    assert_eq!(q.free_count(), 0);
}

#[test]
fn free_then_alloc_returns_same_descriptor() {
    let mut q = VirtQueue::new(0, 4, 0, 0, 0).ok().unwrap();
    let a = q.alloc_desc().unwrap();
    assert_eq!(a, 3);
    q.free_desc(a);
    assert_eq!(q.alloc_desc(), Some(3));
    q.free_desc(9);
    assert_eq!(q.free_count(), 3);
}

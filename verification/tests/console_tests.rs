use sis_kernel::console::{
    ack_code_message, ack_message, clamp_queue_size, decimal_text, dma_bump, error_code,
    hex_u32_text, negotiate_features, parse_control_header, port_name_matches, port_to_bind,
    queue_layout, scan_v0_frames, split_address, CtrlError, VirtIOConsoleControlType,
    VirtIOConsoleDriver, VirtIOConsoleFeatures, console_probe, check_console_device,
    receive_queue_size, transmit_queue_size, queue_registers, DriverError,
};

fn frame(cmd: u8, payload: &[u8]) -> Vec<u8> {
    let mut v = vec![0x43, 0, cmd, 0];
    v.extend_from_slice(&(payload.len() as u32).to_le_bytes());
    v.extend_from_slice(payload);
    v
}

#[test]
fn v0_frames_are_found_after_noise() {
    let mut buf = vec![1u8, 2, 0x43, 1];
    buf.extend(frame(5, b"abc"));
    buf.extend(frame(6, b""));
    buf.extend(vec![0x43, 0, 1, 0, 10, 0, 0, 0, 1]);
    let (frames, consumed) = scan_v0_frames(&buf);
    assert_eq!(frames, vec![(4, 11), (15, 8)]);
    assert_eq!(consumed, 23);
}

#[test]
fn driver_buffers_and_frames_control_input() {
    let mut d = VirtIOConsoleDriver::new();
    let mut input = vec![9u8];
    input.extend(frame(1, b"xy"));
    let half = input.len() / 2;
    assert_eq!(d.push_control_input(&input[..half]), half);
    assert!(d.take_control_frames().is_empty());
    assert_eq!(d.push_control_input(&input[half..]), input.len() - half);
    let frames = d.take_control_frames();
    assert_eq!(frames, vec![frame(1, b"xy")]);
    assert!(d.take_control_frames().is_empty());
    let big = vec![0u8; 2000];
    assert_eq!(d.push_control_input(&big), 1024);
    assert_eq!(d.push_control_input(&big), 0);
}

#[test]
fn replies_and_counters() {
    let mut d = VirtIOConsoleDriver::new();
    assert_eq!(d.record_frame_result(Ok(())), b"OK\n".to_vec());
    assert_eq!(d.record_frame_result(Err(CtrlError::Oversize)), b"ERR 0x04\n".to_vec());
    assert!(!d.record_reply(true));
    assert!(!d.record_reply(false));
    let c = d.control_counters();
    assert_eq!((c.frames_rx, c.frames_tx, c.errors, c.backpressure_drops), (2, 1, 1, 1));
    for _ in 0..254 {
        d.record_reply(true);
    }
    assert!(d.record_reply(true));
    assert_eq!(ack_message(false), b"ERR\n".to_vec());
    assert_eq!(ack_code_message(0xAB), b"ERR 0xAB\n".to_vec());
    assert_eq!(error_code(CtrlError::AuthFailed), 5);
}

#[test]
fn number_text() {
    assert_eq!(hex_u32_text(0x1234_ABCD), b"0x1234ABCD".to_vec());
    assert_eq!(hex_u32_text(0), b"0x00000000".to_vec());
    assert_eq!(decimal_text(0), b"0".to_vec());
    assert_eq!(decimal_text(4294967295), b"4294967295".to_vec());
}

#[test]
fn port_name_binding() {
    let mut buf = vec![0u8; 64];
    buf[0..4].copy_from_slice(&5u32.to_le_bytes());
    buf[4..6].copy_from_slice(&7u16.to_le_bytes());
    buf[8..8 + 15].copy_from_slice(b"org.sis.datactl");
    assert!(port_name_matches(&buf, 8 + 15));
    assert!(!port_name_matches(&buf, 8 + 14));
    assert_eq!(port_to_bind(&buf, 40), Some(5));
    assert_eq!(parse_control_header(&buf), (5, 7, 0));
    buf[10] = 0;
    assert!(!port_name_matches(&buf, 40));
    let mut other = buf.clone();
    other[4] = 6;
    assert_eq!(port_to_bind(&other, 40), None);
    let mut d = VirtIOConsoleDriver::new();
    d.bind_port(5);
}

#[test]
fn queue_setup_arithmetic() {
    assert_eq!(clamp_queue_size(1024), 256);
    assert_eq!(clamp_queue_size(16), 16);
    assert_eq!(queue_layout(0x1000, 256), (0x1000, 0x1000 + 4096, 0x1000 + 4096 + 518, 4096 + 518 + 2054));
    assert_eq!(split_address(0x1_2345_6789), (0x2345_6789, 1));
    assert_eq!(negotiate_features(0xFFFF_FFFF), (2, true));
    assert_eq!(negotiate_features(4), (0, false));
    assert_eq!(dma_bump(1, 100, 4096), (4096, 4196));
    assert_eq!(dma_bump(4096, 10, 4096), (4096, 4106));
    assert_eq!(dma_bump(usize::MAX - 5000, usize::MAX, 1), (usize::MAX - 5000, usize::MAX));
    assert_eq!(VirtIOConsoleFeatures::MultiPort.bit(), 2);
    assert_eq!(VirtIOConsoleControlType::from_code(6), Some(VirtIOConsoleControlType::PortOpen));
    assert_eq!(VirtIOConsoleControlType::PortName.code(), 7);
    assert_eq!(VirtIOConsoleControlType::from_code(8), None);
}

#[test]
fn device_setup_decisions() {
    assert!(console_probe(0x1AF4, 3, 0x07));
    assert!(!console_probe(0x1AF4, 2, 0x07));
    assert!(check_console_device(3).is_ok());
    assert!(matches!(check_console_device(2), Err(DriverError::InvalidDevice)));
    assert!(matches!(receive_queue_size(0), Err(DriverError::NotSupported)));
    assert!(matches!(receive_queue_size(1024), Ok(256)));
    assert!(matches!(receive_queue_size(64), Ok(64)));
    assert_eq!(transmit_queue_size(0), None);
    assert_eq!(transmit_queue_size(300), Some(256));
    let r = queue_registers(0x1_0000_1000, 256);
    assert_eq!((r.desc_low, r.desc_high), (0x1000, 1));
    assert_eq!(r.avail_low, 0x1000 + 256 * 16);
    assert_eq!(r.used_low, 0x1000 + 256 * 16 + 256 * 2 + 6);
    assert_eq!(r.queue_num, 256);
}

use sis_kernel::fdt::{be32, be64, parse_uart_base_and_irq};

const FDT_MAGIC: u32 = 0xD00D_FEED;
const FDT_BEGIN_NODE: u32 = 1;
const FDT_END_NODE: u32 = 2;
const FDT_PROP: u32 = 3;
const FDT_END: u32 = 9;

fn be32b(v: u32, out: &mut Vec<u8>) {
    out.extend_from_slice(&v.to_be_bytes());
}

fn align4(out: &mut Vec<u8>) {
    while out.len() % 4 != 0 {
        out.push(0);
    }
}

fn header(totalsize: u32, off_struct: u32, off_strings: u32, size_strings: u32, size_struct: u32) -> Vec<u8> {
    let mut h = Vec::new();
    for v in [FDT_MAGIC, totalsize, off_struct, off_strings, 0, 17, 16, 0, size_strings, size_struct] {
        be32b(v, &mut h);
    }
    h
}

fn uart_blob(compatible: &[u8]) -> Vec<u8> {
    let mut strings = Vec::new();
    let off_compatible = 0usize;
    strings.extend_from_slice(b"compatible\0");
    let off_reg = strings.len();
    strings.extend_from_slice(b"reg\0");
    let off_interrupts = strings.len();
    strings.extend_from_slice(b"interrupts\0");
    align4(&mut strings);

    let mut structblk = Vec::new();
    be32b(FDT_BEGIN_NODE, &mut structblk);
    structblk.extend_from_slice(b"uart@0\0");
    align4(&mut structblk);
    be32b(FDT_PROP, &mut structblk);
    be32b(compatible.len() as u32, &mut structblk);
    be32b(off_compatible as u32, &mut structblk);
    structblk.extend_from_slice(compatible);
    align4(&mut structblk);
    be32b(FDT_PROP, &mut structblk);
    be32b(8, &mut structblk);
    be32b(off_reg as u32, &mut structblk);
    be32b(0x0900_0000, &mut structblk);
    be32b(0x0000_1000, &mut structblk);
    be32b(FDT_PROP, &mut structblk);
    be32b(12, &mut structblk);
    be32b(off_interrupts as u32, &mut structblk);
    be32b(0, &mut structblk);
    be32b(33, &mut structblk);
    be32b(4, &mut structblk);
    be32b(FDT_END_NODE, &mut structblk);
    be32b(FDT_END, &mut structblk);
    align4(&mut structblk);

    let mut dtb = vec![0u8; 40];
    let off_struct = dtb.len();
    dtb.extend_from_slice(&structblk);
    let off_strings = dtb.len();
    dtb.extend_from_slice(&strings);
    let totalsize = dtb.len() as u32;
    let h = header(totalsize, off_struct as u32, off_strings as u32, strings.len() as u32, structblk.len() as u32);
    dtb[..h.len()].copy_from_slice(&h);
    dtb
}

#[test]
fn parse_minimal_uart_node() {
    let dtb = uart_blob(b"arm,pl011\0");
    let p = parse_uart_base_and_irq(&dtb).expect("parse");
    assert_eq!(p.0, 0x0900_0000usize);
    assert_eq!(p.1, 33u32);
}

#[test]
fn uart_found_in_compatible_list() {
    let dtb = uart_blob(b"arm,pl011\0arm,primecell\0");
    assert_eq!(parse_uart_base_and_irq(&dtb), Some((0x0900_0000, 33)));
}

#[test]
fn non_uart_node_gives_nothing() {
    let dtb = uart_blob(b"arm,gic-v3\0");
    assert_eq!(parse_uart_base_and_irq(&dtb), None);
}

#[test]
fn short_or_foreign_blobs_are_rejected() {
    assert_eq!(parse_uart_base_and_irq(&[0u8; 10]), None);
    let mut dtb = uart_blob(b"arm,pl011\0");
    dtb[0] = 0;
    assert_eq!(parse_uart_base_and_irq(&dtb), None);
    let good = uart_blob(b"arm,pl011\0");
    assert_eq!(parse_uart_base_and_irq(&good[..60]), None);
}

#[test]
fn big_endian_reads() {
    let data = [0x12u8, 0x34, 0x56, 0x78, 0x9A, 0xBC, 0xDE, 0xF0, 0x11];
    assert_eq!(be32(&data, 0), 0x1234_5678);
    assert_eq!(be32(&data, 4), 0x9ABC_DEF0);
    assert_eq!(be64(&data, 0), 0x1234_5678_9ABC_DEF0);
    assert_eq!(be64(&data, 1), 0x3456_789A_BCDE_F011);
}

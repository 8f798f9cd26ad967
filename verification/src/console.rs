//! The VirtIO console driver's logic: feature negotiation, queue memory
//! layout, the V0 control-frame framing on the data port, the replies it
//! sends, and the multiport control messages that bind the data port.
use vstd::prelude::*;
use crate::text::{dec_bytes, decimal_bytes, hex_digit, hex_digit_of};

verus! {

/// Console feature bits.
#[derive(Debug, Clone, Copy, PartialEq, Eq, Structural)]
pub enum VirtIOConsoleFeatures {
    /// The console has several ports.
    MultiPort,
    /// The console supports emergency writes.
    EmergWrite,
}

/// The bit of a feature in the feature word.
pub open spec fn feature_bit(f: VirtIOConsoleFeatures) -> u32 {
    match f {
        VirtIOConsoleFeatures::MultiPort => 2,
        VirtIOConsoleFeatures::EmergWrite => 4,
    }
}

impl VirtIOConsoleFeatures {
    /// The bit of this feature in the feature word.
    pub fn bit(&self) -> (b: u32)
        ensures
            b == feature_bit(*self),
    {
        match self {
            VirtIOConsoleFeatures::MultiPort => 2,
            VirtIOConsoleFeatures::EmergWrite => 4,
        }
    }
}

/// Control message types of a multiport console.
#[derive(Debug, Clone, Copy, PartialEq, Eq, Structural)]
pub enum VirtIOConsoleControlType {
    DeviceReady,
    DeviceAdd,
    DeviceRemove,
    PortReady,
    ConsolePort,
    Resize,
    PortOpen,
    PortName,
}

/// The wire code of a control message type.
pub open spec fn control_code(t: VirtIOConsoleControlType) -> u16 {
    match t {
        VirtIOConsoleControlType::DeviceReady => 0,
        VirtIOConsoleControlType::DeviceAdd => 1,
        VirtIOConsoleControlType::DeviceRemove => 2,
        VirtIOConsoleControlType::PortReady => 3,
        VirtIOConsoleControlType::ConsolePort => 4,
        VirtIOConsoleControlType::Resize => 5,
        VirtIOConsoleControlType::PortOpen => 6,
        VirtIOConsoleControlType::PortName => 7,
    }
}

impl VirtIOConsoleControlType {
    /// The wire code of this message type.
    pub fn code(&self) -> (c: u16)
        ensures
            c == control_code(*self),
    {
        match self {
            VirtIOConsoleControlType::DeviceReady => 0,
            VirtIOConsoleControlType::DeviceAdd => 1,
            VirtIOConsoleControlType::DeviceRemove => 2,
            VirtIOConsoleControlType::PortReady => 3,
            VirtIOConsoleControlType::ConsolePort => 4,
            VirtIOConsoleControlType::Resize => 5,
            VirtIOConsoleControlType::PortOpen => 6,
            VirtIOConsoleControlType::PortName => 7,
        }
    }

    /// The message type with wire code `c`, if any.
    pub fn from_code(c: u16) -> (t: Option<Self>)
        ensures
            match t {
                Some(x) => control_code(x) == c,
                None => c > 7,
            },
    {
        match c {
            0 => Some(VirtIOConsoleControlType::DeviceReady),
            1 => Some(VirtIOConsoleControlType::DeviceAdd),
            2 => Some(VirtIOConsoleControlType::DeviceRemove),
            3 => Some(VirtIOConsoleControlType::PortReady),
            4 => Some(VirtIOConsoleControlType::ConsolePort),
            5 => Some(VirtIOConsoleControlType::Resize),
            6 => Some(VirtIOConsoleControlType::PortOpen),
            7 => Some(VirtIOConsoleControlType::PortName),
            _ => None,
        }
    }
}

/// Failures of a driver operation.
#[derive(Debug, Clone, Copy, PartialEq, Eq, Structural)]
pub enum DriverError {
    InitFailed,
    NotSupported,
    ResourceError,
    InvalidDevice,
}

/// Why the control plane refused a frame.
#[derive(Debug, Clone, Copy, PartialEq, Eq, Structural)]
pub enum CtrlError {
    BadFrame,
    Unsupported,
    NoGraph,
    Oversize,
    AuthFailed,
}

/// The code that reports a control error to the host.
pub open spec fn ctrl_error_code(e: CtrlError) -> u8 {
    match e {
        CtrlError::BadFrame => 1,
        CtrlError::Unsupported => 2,
        CtrlError::NoGraph => 3,
        CtrlError::Oversize => 4,
        CtrlError::AuthFailed => 5,
    }
}

/// The code that reports a control error to the host.
pub fn error_code(e: CtrlError) -> (c: u8)
    ensures
        c == ctrl_error_code(e),
{
    match e {
        CtrlError::BadFrame => 1,
        CtrlError::Unsupported => 2,
        CtrlError::NoGraph => 3,
        CtrlError::Oversize => 4,
        CtrlError::AuthFailed => 5,
    }
}

/// The reply "OK\n" or "ERR\n".
pub open spec fn ack_bytes(ok: bool) -> Seq<u8> {
    if ok {
        seq![79u8, 75, 10]
    } else {
        seq![69u8, 82, 82, 10]
    }
}

/// The reply "ERR 0xNN\n" with `code` in two uppercase hex digits.
pub open spec fn ack_code_bytes(code: u8) -> Seq<u8> {
    seq![69u8, 82, 82, 32, 48, 120] + seq![hex_digit((code / 16) as int), hex_digit((code % 16) as int), 10u8]
}

/// The reply to the host: "OK\n" or "ERR\n".
pub fn ack_message(ok: bool) -> (m: Vec<u8>)
    ensures
        m@ == ack_bytes(ok),
{
    let m = if ok {
        vec![79u8, 75, 10]
    } else {
        vec![69u8, 82, 82, 10]
    };
    assert(m@ =~= ack_bytes(ok));
    m
}

/// The error reply "ERR 0xNN\n".
pub fn ack_code_message(code: u8) -> (m: Vec<u8>)
    ensures
        m@ == ack_code_bytes(code),
        m@.len() == 9,
{
    proof {
        assert(code >> 4 == code / 16 && code >> 4 < 16) by (bit_vector);
        assert(code & 0xF == code % 16 && code & 0xF < 16) by (bit_vector);
    }
    let hi = hex_digit_of(code >> 4);
    let lo = hex_digit_of(code & 0xF);
    let m = vec![69u8, 82, 82, 32, 48, 120, hi, lo, 10];
    assert(m@ =~= ack_code_bytes(code));
    m
}

/// "0x" and the eight uppercase hex digits of `num`, most significant first.
pub open spec fn hex_u32_bytes(num: u32) -> Seq<u8> {
    seq![48u8, 120u8] + Seq::new(8, |i: int| hex_digit(((num as int) / pow16(7 - i)) % 16))
}

/// `16` to the power `k`.
pub open spec fn pow16(k: int) -> int
    decreases k,
{
    if k <= 0 {
        1
    } else {
        16 * pow16(k - 1)
    }
}

/// The text that `print_hex` writes: "0x" and eight hex digits.
pub fn hex_u32_text(num: u32) -> (v: Vec<u8>)
    ensures
        v@ == hex_u32_bytes(num),
{
    let mut v: Vec<u8> = vec![48u8, 120u8];
    let mut i: u32 = 8;
    while i > 0
        invariant
            i <= 8,
            v@.len() == 2 + (8 - i),
            v@.subrange(0, 2) == seq![48u8, 120u8],
            forall|k: int| 0 <= k < 8 - i ==> #[trigger] v@[2 + k] == hex_digit(((num as int) / pow16(7 - k)) % 16),
        decreases i,
    {
        i = i - 1;
        let nibble = (num >> (i * 4)) & 0xF;
        proof {
            lemma_nibble(num, i);
        }
        let c = hex_digit_of(nibble as u8);
        v.push(c);
    }
    assert forall|idx: int| 0 <= idx < 10 implies v@[idx] == hex_u32_bytes(num)[idx] by {
        if idx >= 2 {
            let k = idx - 2;
            assert(v@[2 + k] == hex_digit(((num as int) / pow16(7 - k)) % 16));
        } else {
            assert(v@.subrange(0, 2)[idx] == v@[idx]);
        }
    }
    assert(v@ =~= hex_u32_bytes(num));
    v
}

/// The nibble at position `i` (from the right) of `num` is its `i`th
/// base-16 digit.
proof fn lemma_nibble(num: u32, i: u32)
    requires
        i < 8,
    ensures
        ((num >> (i * 4)) & 0xF) as int == ((num as int) / pow16(i as int)) % 16,
        ((num >> (i * 4)) & 0xF) < 16,
{
    assert(((num >> (i * 4)) & 0xF) < 16) by (bit_vector);
    assert(pow16(0) == 1);
    assert(pow16(1) == 16);
    assert(pow16(2) == 256);
    assert(pow16(3) == 4096);
    assert(pow16(4) == 65536);
    assert(pow16(5) == 1048576);
    assert(pow16(6) == 16777216);
    assert(pow16(7) == 268435456);
    if i == 0 {
        assert(((num >> 0u32) & 0xF) == num % 16) by (bit_vector);
    } else if i == 1 {
        assert(((num >> 4u32) & 0xF) == (num / 16) % 16) by (bit_vector);
    } else if i == 2 {
        assert(((num >> 8u32) & 0xF) == (num / 256) % 16) by (bit_vector);
    } else if i == 3 {
        assert(((num >> 12u32) & 0xF) == (num / 4096) % 16) by (bit_vector);
    } else if i == 4 {
        assert(((num >> 16u32) & 0xF) == (num / 65536) % 16) by (bit_vector);
    } else if i == 5 {
        assert(((num >> 20u32) & 0xF) == (num / 1048576) % 16) by (bit_vector);
    } else if i == 6 {
        assert(((num >> 24u32) & 0xF) == (num / 16777216) % 16) by (bit_vector);
    } else {
        assert(((num >> 28u32) & 0xF) == (num / 268435456) % 16) by (bit_vector);
    }
}

/// The text that `print_number` writes: the decimal digits of `num`.
pub fn decimal_text(num: u32) -> (v: Vec<u8>)
    ensures
        v@ == dec_bytes(num as nat),
{
    decimal_bytes(num as u128)
}

/// The fields of a control message header: port id (little-endian `u32`),
/// event and value (little-endian `u16`s).
pub open spec fn control_header(b: Seq<u8>) -> (u32, u16, u16) {
    (
        (b[0] as int + 256 * b[1] as int + 65536 * b[2] as int + 16777216 * b[3] as int) as u32,
        (b[4] as int + 256 * b[5] as int) as u16,
        (b[6] as int + 256 * b[7] as int) as u16,
    )
}

/// The header of a control message: port id, event and value.
pub fn parse_control_header(buf: &[u8]) -> (h: (u32, u16, u16))
    requires
        buf@.len() >= 8,
    ensures
        h == control_header(buf@),
{
    let id = (buf[0] as u32) + 256 * (buf[1] as u32) + 65536 * (buf[2] as u32) + 16777216 * (
    buf[3] as u32);
    let event = (buf[4] as u16) + 256 * (buf[5] as u16);
    let value = (buf[6] as u16) + 256 * (buf[7] as u16);
    (id, event, value)
}

/// The name of the data port the driver binds to: "sis.datactl".
pub open spec fn datactl_name() -> Seq<u8> {
    seq![115u8, 105, 115, 46, 100, 97, 116, 97, 99, 116, 108]
}

/// The size of a control message header.
pub const CONTROL_HEADER_LEN: usize = 8;

/// Name bytes of a port-name message that are looked at.
pub const PORT_NAME_MAX: usize = 32;

/// Whether "sis.datactl" starts at `i` within the first `max` bytes of `name`.
pub open spec fn datactl_at(name: Seq<u8>, i: int, max: int) -> bool {
    i + 11 <= max && name.subrange(i, i + 11) == datactl_name()
}

/// The name bytes of a port-name message: what follows its 8-byte header.
pub open spec fn port_name(buf: Seq<u8>) -> Seq<u8> {
    buf.subrange(8, buf.len() as int)
}

/// How many name bytes of a message of `n` bytes are looked at: those
/// after the header, at most 32.
pub open spec fn name_limit(n: int) -> int {
    if n - 8 < 0 {
        0
    } else if n - 8 < 32 {
        n - 8
    } else {
        32
    }
}

/// Whether the port name (from offset 8, at most 32 bytes, up to a NUL)
/// of a port-name message of `n` bytes names the data port.
pub open spec fn names_datactl(buf: Seq<u8>, n: int) -> bool {
    exists|i: int|
        #![trigger datactl_at(port_name(buf), i, name_limit(n))]
        0 <= i < name_limit(n) && datactl_at(port_name(buf), i, name_limit(n)) && forall|j: int|
            0 <= j <= i ==> port_name(buf)[j] != 0
}

/// Whether a port-name control message of `n` bytes in `buf` names the
/// data port "sis.datactl" before the end of its name.
pub fn port_name_matches(buf: &[u8], n: usize) -> (r: bool)
    requires
        buf@.len() >= CONTROL_HEADER_LEN + PORT_NAME_MAX,
    ensures
        r == names_datactl(buf@, n as int),
{
    let ghost name = port_name(buf@);
    let avail = if n >= CONTROL_HEADER_LEN {
        n - CONTROL_HEADER_LEN
    } else {
        0
    };
    let max = if avail < PORT_NAME_MAX {
        avail
    } else {
        PORT_NAME_MAX
    };
    let pat: Vec<u8> = vec![115u8, 105, 115, 46, 100, 97, 116, 97, 99, 116, 108];
    assert(pat@ =~= datactl_name());
    let mut i: usize = 0;
    while i < max
        invariant
            max <= PORT_NAME_MAX,
            buf@.len() >= CONTROL_HEADER_LEN + PORT_NAME_MAX,
            name == port_name(buf@),
            max == name_limit(n as int),
            pat@ == datactl_name(),
            i <= max,
            forall|k: int| 0 <= k < i ==> name[k] != 0,
            forall|k: int| 0 <= k < i ==> !datactl_at(name, k, max as int),
        decreases max - i,
    {
        if buf[8 + i] == 0 {
            proof {
                assert forall|k: int| 0 <= k < max implies !(datactl_at(port_name(buf@), k, name_limit(n as int))
                    && forall|j: int| 0 <= j <= k ==> port_name(buf@)[j] != 0) by {
                    if k >= i {
                        assert(name[i as int] == 0);
                    }
                }
            }
            return false;
        }
        if i + 11 <= max {
            let mut ok = true;
            let mut j: usize = 0;
            while j < 11
                invariant
                    i + 11 <= max <= PORT_NAME_MAX,
                    buf@.len() >= CONTROL_HEADER_LEN + PORT_NAME_MAX,
                    name == port_name(buf@),
                    pat@ == datactl_name(),
                    j <= 11,
                    ok == forall|k: int| 0 <= k < j ==> name[i + k] == pat@[k],
                decreases 11 - j,
            {
                if buf[8 + i + j] != pat[j] {
                    ok = false;
                }
                j = j + 1;
            }
            if ok {
                proof {
                    assert(name.subrange(i as int, i + 11) =~= datactl_name());
                    assert(datactl_at(name, i as int, max as int));
                    assert(name[i as int] == buf@[8 + i]);
                    assert(forall|k: int| 0 <= k <= i ==> name[k] != 0);
                    assert(datactl_at(port_name(buf@), i as int, name_limit(n as int)));
                }
                return true;
            }
            proof {
                let k = choose|k: int| 0 <= k < 11 && name[i + k] != pat@[k];
                assert(name.subrange(i as int, i + 11)[k] != datactl_name()[k]);
            }
        }
        i = i + 1;
    }
    false
}

/// The bytes a virtqueue of `size` entries needs: descriptors (16 each),
/// the available ring (6 + 2 each) and the used ring (6 + 8 each).
pub open spec fn queue_bytes_spec(size: int) -> int {
    size * 16 + size * 2 + 6 + size * 8 + 6
}

/// The largest queue the driver sets up.
pub const MAX_CONSOLE_QUEUE: u32 = 256;

/// The queue size the driver uses: the device's maximum, at most 256.
pub fn clamp_queue_size(hw_max: u32) -> (s: u32)
    ensures
        s == if hw_max < MAX_CONSOLE_QUEUE {
            hw_max
        } else {
            MAX_CONSOLE_QUEUE
        },
{
    if hw_max < MAX_CONSOLE_QUEUE {
        hw_max
    } else {
        MAX_CONSOLE_QUEUE
    }
}

/// Where the parts of a queue of `size` entries at `base` lie: the
/// descriptor table, the available ring and the used ring, and the bytes
/// the whole queue takes.
pub fn queue_layout(base: u64, size: u32) -> (r: (u64, u64, u64, usize))
    requires
        size <= MAX_CONSOLE_QUEUE,
        base + queue_bytes_spec(size as int) <= u64::MAX,
    ensures
        r.0 == base,
        r.1 == base + size * 16,
        r.2 == base + size * 16 + size * 2 + 6,
        r.3 == queue_bytes_spec(size as int),
{
    let s = size as u64;
    let avail = base + s * 16;
    let used = avail + s * 2 + 6;
    let bytes = (size as usize) * 16 + (size as usize) * 2 + 6 + (size as usize) * 8 + 6;
    (base, avail, used, bytes)
}

/// The low and high 32 bits of an address, as the queue registers take them.
pub fn split_address(addr: u64) -> (r: (u32, u32))
    ensures
        r.0 == addr % 0x1_0000_0000,
        r.1 == addr / 0x1_0000_0000,
{
    let lo = (addr & 0xFFFF_FFFF) as u32;
    let hi = (addr >> 32) as u32;
    proof {
        assert(addr & 0xFFFF_FFFF == addr % 0x1_0000_0000) by (bit_vector);
        assert(addr >> 32 == addr / 0x1_0000_0000) by (bit_vector);
    }
    (lo, hi)
}

/// The features the driver accepts of the device's, and whether it is a
/// multiport console: only the multiport bit is taken.
pub fn negotiate_features(device_features: u32) -> (r: (u32, bool))
    ensures
        r.1 == (device_features & 2 != 0),
        r.0 == if r.1 {
            2u32
        } else {
            0u32
        },
{
    if device_features & 2 != 0 {
        (2, true)
    } else {
        (0, false)
    }
}

/// The device id of a VirtIO console.
pub const VIRTIO_CONSOLE_DEVICE_ID: u32 = 3;

/// Whether a device is a VirtIO console this driver takes: vendor 0x1AF4,
/// device 3, class 0x07.
pub fn console_probe(vendor_id: u32, device_id: u32, class: u32) -> (r: bool)
    ensures
        r == (vendor_id == 0x1AF4 && device_id == 3 && class == 0x07),
{
    vendor_id == 0x1AF4 && device_id == 3 && class == 0x07
}

/// The check of the transport's device type before anything is set up:
/// `InvalidDevice` unless it is a console.
pub fn check_console_device(device_type: u32) -> (r: Result<(), DriverError>)
    ensures
        r == if device_type == VIRTIO_CONSOLE_DEVICE_ID {
            Ok::<(), DriverError>(())
        } else {
            Err(DriverError::InvalidDevice)
        },
{
    if device_type == VIRTIO_CONSOLE_DEVICE_ID {
        Ok(())
    } else {
        Err(DriverError::InvalidDevice)
    }
}

/// The size of the receive queue (queue 0) for a device maximum of
/// `hw_max`: at most 256; `NotSupported` when the device offers none.
pub fn receive_queue_size(hw_max: u32) -> (r: Result<u32, DriverError>)
    ensures
        hw_max == 0 ==> r == Err::<u32, DriverError>(DriverError::NotSupported),
        hw_max != 0 ==> r == Ok::<u32, DriverError>(
            if hw_max < MAX_CONSOLE_QUEUE {
                hw_max
            } else {
                MAX_CONSOLE_QUEUE
            },
        ),
{
    let size = clamp_queue_size(hw_max);
    if size == 0 {
        Err(DriverError::NotSupported)
    } else {
        Ok(size)
    }
}

/// The size of the transmit queue (queue 1) for a device maximum of
/// `hw_max`: at most 256; none when the device offers none.
pub fn transmit_queue_size(hw_max: u32) -> (r: Option<u32>)
    ensures
        hw_max == 0 ==> r is None,
        hw_max != 0 ==> r == Some(
            if hw_max < MAX_CONSOLE_QUEUE {
                hw_max
            } else {
                MAX_CONSOLE_QUEUE
            },
        ),
{
    let size = clamp_queue_size(hw_max);
    if size == 0 {
        None
    } else {
        Some(size)
    }
}

/// The register values that set up one queue: the low and high halves of
/// the descriptor table, available ring and used ring addresses, and the
/// queue size.
#[derive(Debug, Clone, Copy, PartialEq, Eq, Structural)]
pub struct QueueRegisters {
    pub desc_low: u32,
    pub desc_high: u32,
    pub avail_low: u32,
    pub avail_high: u32,
    pub used_low: u32,
    pub used_high: u32,
    pub queue_num: u32,
}

/// The register values for a queue of `size` entries at `base`, laid out
/// as `queue_layout` places its parts.
pub fn queue_registers(base: u64, size: u32) -> (r: QueueRegisters)
    requires
        size <= MAX_CONSOLE_QUEUE,
        base + queue_bytes_spec(size as int) <= u64::MAX,
    ensures
        r.desc_low == base % 0x1_0000_0000,
        r.desc_high == base / 0x1_0000_0000,
        r.avail_low == (base + size * 16) % 0x1_0000_0000,
        r.avail_high == (base + size * 16) / 0x1_0000_0000,
        r.used_low == (base + size * 16 + size * 2 + 6) % 0x1_0000_0000,
        r.used_high == (base + size * 16 + size * 2 + 6) / 0x1_0000_0000,
        r.queue_num == size,
{
    let (desc, avail, used, _bytes) = queue_layout(base, size);
    let (desc_low, desc_high) = split_address(desc);
    let (avail_low, avail_high) = split_address(avail);
    let (used_low, used_high) = split_address(used);
    QueueRegisters { desc_low, desc_high, avail_low, avail_high, used_low, used_high, queue_num: size }
}

/// Bump allocation in the DMA pool: the offset `off` rounded up to the
/// alignment, and the offset after `size` bytes (at most `usize::MAX`).
pub fn dma_bump(off: usize, size: usize, align: usize) -> (r: (usize, usize))
    requires
        off + align <= usize::MAX,
        align == 0 || align == 1 || align == 4096,
    ensures
        r.0 == if align <= 1 {
            off as int
        } else {
            ((off + align - 1) / (align as int)) * align
        },
        r.0 >= off,
        r.1 == if r.0 + size <= usize::MAX {
            r.0 + size
        } else {
            usize::MAX as int
        },
{
    let align_mask = if align > 0 {
        align - 1
    } else {
        0
    };
    let aligned = (off + align_mask) & !align_mask;
    proof {
        if align <= 1 {
            assert(align_mask == 0);
            assert(off & !0usize == off) by (bit_vector);
        } else {
            let x = (off + 4095) as usize;
            assert(x & !4095usize == (x / 4096) * 4096) by (bit_vector);
            assert(x & !4095usize >= off) by (bit_vector)
                requires
                    x == off + 4095;
        }
    }
    let end = aligned.saturating_add(size);
    (aligned, end)
}

/// The little-endian 32-bit number at `b[i..i + 4]`.
pub open spec fn le_u32_at(b: Seq<u8>, i: int) -> int {
    b[i] + 256 * b[i + 1] + 65536 * b[i + 2] + 16777216 * b[i + 3]
}

/// The first byte of a V0 control frame: 'C'.
pub const FRAME_MAGIC: u8 = 0x43;

/// The size of a V0 frame header: magic, version, command, flags and a
/// little-endian 32-bit payload length.
pub const FRAME_HEADER_LEN: usize = 8;

/// Scanning `buf` for V0 frames from `off`: a frame starts with 'C' and
/// version 0 and holds 8 header bytes and the payload its length field
/// gives; other bytes are skipped one at a time. Gives the frames found
/// (start, total length) and where scanning stopped: before fewer than 8
/// bytes, or before a frame whose payload has not fully arrived.
pub open spec fn v0_scan(buf: Seq<u8>, off: int) -> (Seq<(int, int)>, int)
    decreases buf.len() - off,
{
    if off < 0 || buf.len() - off < 8 {
        (seq![], off)
    } else if buf[off] != FRAME_MAGIC || buf[off + 1] != 0 {
        v0_scan(buf, off + 1)
    } else {
        let total = 8 + le_u32_at(buf, off + 4);
        if buf.len() - off < total {
            (seq![], off)
        } else {
            let rest = v0_scan(buf, off + total);
            (seq![(off, total)] + rest.0, rest.1)
        }
    }
}

/// The frames a scan finds, as byte strings.
pub open spec fn frame_bytes(buf: Seq<u8>, frames: Seq<(int, int)>) -> Seq<Seq<u8>> {
    frames.map_values(|f: (int, int)| buf.subrange(f.0, f.0 + f.1))
}

/// The V0 frames in `buf` (start and total length of each) and how many
/// bytes the scan consumed.
pub fn scan_v0_frames(buf: &Vec<u8>) -> (r: (Vec<(usize, usize)>, usize))
    ensures
        r.0@.map_values(|f: (usize, usize)| (f.0 as int, f.1 as int)) == v0_scan(buf@, 0).0,
        r.1 == v0_scan(buf@, 0).1,
        r.1 <= buf@.len(),
{
    let mut frames: Vec<(usize, usize)> = Vec::new();
    let mut offset: usize = 0;
    let len = buf.len();
    while len - offset >= FRAME_HEADER_LEN
        invariant_except_break
            offset <= len == buf@.len(),
            frames@.map_values(|f: (usize, usize)| (f.0 as int, f.1 as int)) + v0_scan(buf@, offset as int).0
                == v0_scan(buf@, 0).0,
            v0_scan(buf@, offset as int).1 == v0_scan(buf@, 0).1,
        ensures
            offset <= len,
            frames@.map_values(|f: (usize, usize)| (f.0 as int, f.1 as int)) == v0_scan(buf@, 0).0,
            offset == v0_scan(buf@, 0).1,
        decreases len - offset,
    {
        if buf[offset] != FRAME_MAGIC || buf[offset + 1] != 0 {
            offset = offset + 1;
            continue;
        }
        let flen = (buf[offset + 4] as u64) + 256 * (buf[offset + 5] as u64) + 65536 * (buf[
        offset + 6] as u64) + 16777216 * (buf[offset + 7] as u64);
        if ((len - offset) as u64) < 8 + flen {
            proof {
                assert(v0_scan(buf@, offset as int).0 =~= Seq::<(int, int)>::empty());
                assert(frames@.map_values(|f: (usize, usize)| (f.0 as int, f.1 as int)) + seq![]
                    =~= frames@.map_values(|f: (usize, usize)| (f.0 as int, f.1 as int)));
            }
            break;
        }
        let total = (8 + flen) as usize;
        let ghost before = frames@.map_values(|f: (usize, usize)| (f.0 as int, f.1 as int));
        frames.push((offset, total));
        proof {
            let rest = v0_scan(buf@, offset + total);
            assert(frames@.map_values(|f: (usize, usize)| (f.0 as int, f.1 as int)) =~= before.push(
                (offset as int, total as int),
            ));
            assert(before.push((offset as int, total as int)) + rest.0 =~= before + (seq![
                (offset as int, total as int),
            ] + rest.0));
        }
        offset = offset + total;
    }
    proof {
        if len - offset < FRAME_HEADER_LEN {
            assert(frames@.map_values(|f: (usize, usize)| (f.0 as int, f.1 as int)) + seq![]
                =~= frames@.map_values(|f: (usize, usize)| (f.0 as int, f.1 as int)));
        }
    }
    (frames, offset)
}

/// Bytes of pending control input the driver keeps.
pub const CTL_BUF_LEN: usize = 1024;

/// Bytes of the driver's transmit buffer.
pub const TX_BUF_LEN: usize = 4096;

/// The state of the VirtIO console driver that its logic reads and keeps:
/// whether it runs, whether the device is multiport, the bound data port,
/// the control input not yet framed, and the control-plane counters.
pub struct VirtIOConsoleDriver {
    initialized: bool,
    multip: bool,
    selected_port: Option<u32>,
    ctl_buf: Vec<u8>,
    ctl_frames_rx: usize,
    ctl_frames_tx: usize,
    ctl_errors: usize,
    ctl_backpressure_drops: usize,
}

/// The control-plane counters: frames received, replies sent, refused
/// frames and replies dropped for want of queue space.
pub struct ControlCounters {
    pub frames_rx: usize,
    pub frames_tx: usize,
    pub errors: usize,
    pub backpressure_drops: usize,
}

impl VirtIOConsoleDriver {
    /// Whether the driver has started.
    pub closed spec fn is_initialized(&self) -> bool {
        self.initialized
    }

    /// Whether the device is a multiport console.
    pub closed spec fn is_multiport(&self) -> bool {
        self.multip
    }

    /// The port bound as the data port, if any.
    pub closed spec fn bound_port(&self) -> Option<u32> {
        self.selected_port
    }

    /// The control input not yet framed.
    pub closed spec fn pending(&self) -> Seq<u8> {
        self.ctl_buf@
    }

    /// The counters, in the order frames received, replies sent, errors and
    /// dropped replies.
    pub closed spec fn counters(&self) -> (usize, usize, usize, usize) {
        (self.ctl_frames_rx, self.ctl_frames_tx, self.ctl_errors, self.ctl_backpressure_drops)
    }

    /// The driver's invariant: at most 1024 bytes of pending input.
    pub open spec fn wf(&self) -> bool {
        self.pending().len() <= CTL_BUF_LEN
    }

    /// A stopped driver with no pending input and zero counters.
    pub fn new() -> (d: Self)
        ensures
            d.wf(),
            !d.is_initialized(),
            !d.is_multiport(),
            d.bound_port() is None,
            d.pending().len() == 0,
            d.counters() == (0usize, 0usize, 0usize, 0usize),
    {
        VirtIOConsoleDriver {
            initialized: false,
            multip: false,
            selected_port: None,
            ctl_buf: Vec::new(),
            ctl_frames_rx: 0,
            ctl_frames_tx: 0,
            ctl_errors: 0,
            ctl_backpressure_drops: 0,
        }
    }

    /// Record the negotiated features: multiport when the device offers it.
    /// Answers the features the driver accepts.
    pub fn set_features(&mut self, device_features: u32) -> (accepted: u32)
        ensures
            accepted == (if device_features & 2 != 0 { 2u32 } else { 0u32 }),
            final(self).is_multiport() == (old(self).is_multiport() || device_features & 2 != 0),
            final(self).is_initialized() == old(self).is_initialized(),
            final(self).bound_port() == old(self).bound_port(),
            final(self).pending() == old(self).pending(),
            final(self).counters() == old(self).counters(),
    {
        let (features, multi) = negotiate_features(device_features);
        if multi {
            self.multip = true;
        }
        features
    }

    /// Mark the driver started (`true`) or stopped (`false`).
    pub fn set_running(&mut self, running: bool)
        ensures
            final(self).is_initialized() == running,
            final(self).is_multiport() == old(self).is_multiport(),
            final(self).bound_port() == old(self).bound_port(),
            final(self).pending() == old(self).pending(),
            final(self).counters() == old(self).counters(),
    {
        self.initialized = running;
    }

    /// How many bytes of `data` a write sends: at most the 4096 of the
    /// transmit buffer.
    pub fn write_len(data: &[u8]) -> (n: usize)
        ensures
            n == if data@.len() < TX_BUF_LEN {
                data@.len() as int
            } else {
                TX_BUF_LEN as int
            },
    {
        if data.len() < TX_BUF_LEN {
            data.len()
        } else {
            TX_BUF_LEN
        }
    }

    /// Append received control input, as much as fits in the 1024 bytes kept;
    /// answers how many bytes were taken.
    pub fn push_control_input(&mut self, data: &[u8]) -> (taken: usize)
        requires
            old(self).wf(),
        ensures
            final(self).wf(),
            taken == if data@.len() < CTL_BUF_LEN - old(self).pending().len() {
                data@.len() as int
            } else {
                CTL_BUF_LEN - old(self).pending().len()
            },
            final(self).pending() == old(self).pending() + data@.subrange(0, taken as int),
            final(self).is_initialized() == old(self).is_initialized(),
            final(self).is_multiport() == old(self).is_multiport(),
            final(self).bound_port() == old(self).bound_port(),
            final(self).counters() == old(self).counters(),
    {
        let space = CTL_BUF_LEN - self.ctl_buf.len();
        let to_copy = if space < data.len() {
            space
        } else {
            data.len()
        };
        let ghost start = self.ctl_buf@;
        let mut i: usize = 0;
        while i < to_copy
            invariant
                to_copy <= data@.len(),
                i <= to_copy,
                self.ctl_buf@ == start + data@.subrange(0, i as int),
                self.initialized == old(self).initialized,
                self.multip == old(self).multip,
                self.selected_port == old(self).selected_port,
                self.ctl_frames_rx == old(self).ctl_frames_rx,
                self.ctl_frames_tx == old(self).ctl_frames_tx,
                self.ctl_errors == old(self).ctl_errors,
                self.ctl_backpressure_drops == old(self).ctl_backpressure_drops,
            decreases to_copy - i,
        {
            self.ctl_buf.push(data[i]);
            assert(self.ctl_buf@ =~= start + data@.subrange(0, i + 1));
            i = i + 1;
        }
        to_copy
    }

    /// Take the complete V0 frames out of the pending input, in order; the
    /// bytes scanned past are dropped and the rest kept.
    pub fn take_control_frames(&mut self) -> (frames: Vec<Vec<u8>>)
        requires
            old(self).wf(),
        ensures
            final(self).wf(),
            frames@.map_values(|f: Vec<u8>| f@) == frame_bytes(
                old(self).pending(),
                v0_scan(old(self).pending(), 0).0,
            ),
            final(self).pending() == old(self).pending().subrange(
                v0_scan(old(self).pending(), 0).1,
                old(self).pending().len() as int,
            ),
            final(self).is_initialized() == old(self).is_initialized(),
            final(self).is_multiport() == old(self).is_multiport(),
            final(self).bound_port() == old(self).bound_port(),
            final(self).counters() == old(self).counters(),
    {
        let (spans, consumed) = scan_v0_frames(&self.ctl_buf);
        let ghost buf = self.ctl_buf@;
        let ghost found = v0_scan(buf, 0).0;
        proof {
            lemma_v0_frames_fit(buf, 0);
        }
        let mut frames: Vec<Vec<u8>> = Vec::new();
        let mut k: usize = 0;
        while k < spans.len()
            invariant
                buf == self.ctl_buf@,
                spans@.map_values(|f: (usize, usize)| (f.0 as int, f.1 as int)) == found,
                found == v0_scan(buf, 0).0,
                forall|j: int| 0 <= j < found.len() ==> 0 <= (#[trigger] found[j]).0 && found[j].0 + found[j].1 <= buf.len(),
                k <= spans@.len(),
                frames@.map_values(|f: Vec<u8>| f@) == frame_bytes(buf, found.subrange(0, k as int)),
            decreases spans@.len() - k,
        {
            let (start, total) = spans[k];
            assert(spans@.map_values(|f: (usize, usize)| (f.0 as int, f.1 as int))[k as int] == (
            spans@[k as int].0 as int, spans@[k as int].1 as int));
            assert(found[k as int] == (start as int, total as int));
            assert(found[k as int].0 + found[k as int].1 <= buf.len());
            let blen = self.ctl_buf.len();
            assert(start + total <= blen);
            let f = copy_bytes_range(&self.ctl_buf, start, start + total);
            let ghost before = frames@.map_values(|f: Vec<u8>| f@);
            frames.push(f);
            assert(frames@.map_values(|f: Vec<u8>| f@) =~= before.push(buf.subrange(start as int, start + total)));
            assert(found.subrange(0, k + 1) =~= found.subrange(0, k as int).push(found[k as int]));
            assert(frame_bytes(buf, found.subrange(0, k + 1)) =~= frame_bytes(buf, found.subrange(0, k as int)).push(
                buf.subrange(start as int, start + total),
            ));
            k = k + 1;
        }
        assert(found.subrange(0, spans@.len() as int) =~= found);
        let rest = copy_bytes_range(&self.ctl_buf, consumed, self.ctl_buf.len());
        self.ctl_buf = rest;
        frames
    }

    /// Count a handled frame and build the reply: "OK\n", or "ERR 0xNN\n"
    /// with the error's code (counting the error).
    pub fn record_frame_result(&mut self, res: Result<(), CtrlError>) -> (reply: Vec<u8>)
        ensures
            final(self).counters().0 == if old(self).counters().0 < usize::MAX {
                old(self).counters().0 + 1
            } else {
                usize::MAX as int
            },
            final(self).counters().2 == match res {
                Ok(()) => old(self).counters().2 as int,
                Err(_) => if old(self).counters().2 < usize::MAX {
                    old(self).counters().2 + 1
                } else {
                    usize::MAX as int
                },
            },
            final(self).counters().1 == old(self).counters().1,
            final(self).counters().3 == old(self).counters().3,
            reply@ == match res {
                Ok(()) => ack_bytes(true),
                Err(e) => ack_code_bytes(ctrl_error_code(e)),
            },
            final(self).pending() == old(self).pending(),
            final(self).is_initialized() == old(self).is_initialized(),
            final(self).is_multiport() == old(self).is_multiport(),
            final(self).bound_port() == old(self).bound_port(),
    {
        self.ctl_frames_rx = self.ctl_frames_rx.saturating_add(1);
        match res {
            Ok(()) => ack_message(true),
            Err(e) => {
                self.ctl_errors = self.ctl_errors.saturating_add(1);
                ack_code_message(error_code(e))
            },
        }
    }

    /// Count a reply handed to the transmit queue (`accepted`) or dropped
    /// for want of space. Answers whether the counters are due to be
    /// reported (every 256th reply sent).
    pub fn record_reply(&mut self, accepted: bool) -> (report: bool)
        ensures
            accepted ==> final(self).counters().1 == if old(self).counters().1 < usize::MAX {
                old(self).counters().1 + 1
            } else {
                usize::MAX as int
            },
            accepted ==> final(self).counters().3 == old(self).counters().3,
            !accepted ==> final(self).counters().1 == old(self).counters().1,
            !accepted ==> final(self).counters().3 == if old(self).counters().3 < usize::MAX {
                old(self).counters().3 + 1
            } else {
                usize::MAX as int
            },
            report == (accepted && final(self).counters().1 % 256 == 0),
            final(self).counters().0 == old(self).counters().0,
            final(self).counters().2 == old(self).counters().2,
            final(self).pending() == old(self).pending(),
            final(self).is_initialized() == old(self).is_initialized(),
            final(self).is_multiport() == old(self).is_multiport(),
            final(self).bound_port() == old(self).bound_port(),
    {
        if accepted {
            self.ctl_frames_tx = self.ctl_frames_tx.saturating_add(1);
            let t = self.ctl_frames_tx;
            proof {
                assert(t & 0xFF == t % 256) by (bit_vector);
            }
            (t & 0xFF) == 0
        } else {
            self.ctl_backpressure_drops = self.ctl_backpressure_drops.saturating_add(1);
            false
        }
    }

    /// Bind port `id` as the data port.
    pub fn bind_port(&mut self, id: u32)
        ensures
            final(self).bound_port() == Some(id),
            final(self).pending() == old(self).pending(),
            final(self).counters() == old(self).counters(),
            final(self).is_initialized() == old(self).is_initialized(),
            final(self).is_multiport() == old(self).is_multiport(),
    {
        self.selected_port = Some(id);
    }

    /// The counters.
    pub fn control_counters(&self) -> (c: ControlCounters)
        ensures
            (c.frames_rx, c.frames_tx, c.errors, c.backpressure_drops) == self.counters(),
    {
        ControlCounters {
            frames_rx: self.ctl_frames_rx,
            frames_tx: self.ctl_frames_tx,
            errors: self.ctl_errors,
            backpressure_drops: self.ctl_backpressure_drops,
        }
    }
}

/// The bytes `v[lo..hi]`.
fn copy_bytes_range(v: &Vec<u8>, lo: usize, hi: usize) -> (r: Vec<u8>)
    requires
        lo <= hi <= v@.len(),
    ensures
        r@ == v@.subrange(lo as int, hi as int),
{
    let mut r: Vec<u8> = Vec::new();
    let mut i = lo;
    while i < hi
        invariant
            lo <= i <= hi <= v@.len(),
            r@ == v@.subrange(lo as int, i as int),
        decreases hi - i,
    {
        r.push(v[i]);
        assert(r@ =~= v@.subrange(lo as int, i + 1));
        i = i + 1;
    }
    r
}

/// Every frame a scan from `off` finds starts with 'C' and version 0, is
/// `8 +` its length field long, lies within the buffer after `off` and
/// before where the scan stopped, and comes after the frames before it.
pub proof fn lemma_v0_frames_fit(buf: Seq<u8>, off: int)
    requires
        0 <= off,
    ensures
        off <= v0_scan(buf, off).1 <= buf.len() || v0_scan(buf, off).1 == off,
        forall|j: int|
            0 <= j < v0_scan(buf, off).0.len() ==> {
                let f = #[trigger] v0_scan(buf, off).0[j];
                &&& off <= f.0
                &&& f.0 + f.1 <= v0_scan(buf, off).1
                &&& f.0 + f.1 <= buf.len()
                &&& buf[f.0] == FRAME_MAGIC
                &&& buf[f.0 + 1] == 0
                &&& f.1 == 8 + le_u32_at(buf, f.0 + 4)
            },
        forall|j: int, k: int|
            0 <= j < k < v0_scan(buf, off).0.len() ==> v0_scan(buf, off).0[j].0 + v0_scan(
                buf,
                off,
            ).0[j].1 <= v0_scan(buf, off).0[k].0,
    decreases buf.len() - off,
{
    if buf.len() - off < 8 {
    } else if buf[off] != FRAME_MAGIC || buf[off + 1] != 0 {
        lemma_v0_frames_fit(buf, off + 1);
    } else {
        let total = 8 + le_u32_at(buf, off + 4);
        if buf.len() - off >= total {
            lemma_v0_frames_fit(buf, off + total);
            let rest = v0_scan(buf, off + total);
            let all = v0_scan(buf, off).0;
            assert(all == seq![(off, total)] + rest.0);
            assert forall|j: int| 0 <= j < all.len() implies ({
                let f = #[trigger] all[j];
                &&& off <= f.0
                &&& f.0 + f.1 <= v0_scan(buf, off).1
                &&& f.0 + f.1 <= buf.len()
                &&& buf[f.0] == FRAME_MAGIC
                &&& buf[f.0 + 1] == 0
                &&& f.1 == 8 + le_u32_at(buf, f.0 + 4)
            }) by {
                if j > 0 {
                    assert(all[j] == rest.0[j - 1]);
                }
            }
            assert forall|j: int, k: int| 0 <= j < k < all.len() implies all[j].0 + all[j].1 <= all[k].0 by {
                if j > 0 {
                    assert(all[j] == rest.0[j - 1]);
                }
                assert(all[k] == rest.0[k - 1]);
            }
        }
    }
}

/// The port a received control message of `n` bytes asks the driver to
/// bind: a port-name message whose name holds "sis.datactl".
pub fn port_to_bind(buf: &[u8], n: usize) -> (r: Option<u32>)
    requires
        buf@.len() >= CONTROL_HEADER_LEN + PORT_NAME_MAX,
    ensures
        r == if n >= CONTROL_HEADER_LEN && control_header(buf@).1 == control_code(
            VirtIOConsoleControlType::PortName,
        ) && names_datactl(buf@, n as int) {
            Some(control_header(buf@).0)
        } else {
            None
        },
{
    if n < CONTROL_HEADER_LEN {
        return None;
    }
    let (id, event, _value) = parse_control_header(buf);
    if event == VirtIOConsoleControlType::PortName.code() && port_name_matches(buf, n) {
        Some(id)
    } else {
        None
    }
}

} // verus!

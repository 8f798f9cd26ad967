//! Minimal flattened-device-tree (FDT) scan for the PL011 UART's base address and interrupt.
use vstd::prelude::*;

verus! {

/// FDT header magic.
pub const FDT_MAGIC: u32 = 0xD00D_FEED;
/// Structure token: start of a node.
pub const FDT_BEGIN_NODE: u32 = 0x0000_0001;
/// Structure token: end of a node.
pub const FDT_END_NODE: u32 = 0x0000_0002;
/// Structure token: a property.
pub const FDT_PROP: u32 = 0x0000_0003;
/// Structure token: no operation.
pub const FDT_NOP: u32 = 0x0000_0004;
/// Structure token: end of the structure block.
pub const FDT_END: u32 = 0x0000_0009;
/// Size of the FDT header in bytes.
pub const FDT_HEADER_SIZE: usize = 40;

/// How far `p` is below `end` (0 once it is not).
pub open spec fn gap(p: int, end: int) -> nat {
    if p < end {
        (end - p) as nat
    } else {
        0
    }
}

/// The big-endian 32-bit value at byte `i`.
pub open spec fn be32_at(s: Seq<u8>, i: int) -> int {
    s[i] * 0x100_0000 + s[i + 1] * 0x1_0000 + s[i + 2] * 0x100 + s[i + 3]
}

/// The big-endian 64-bit value at byte `i`.
pub open spec fn be64_at(s: Seq<u8>, i: int) -> int {
    be32_at(s, i) * 0x1_0000_0000 + be32_at(s, i + 4)
}

/// `x` rounded up to a multiple of 4.
pub open spec fn align4(x: int) -> int {
    (x + 3) / 4 * 4
}

/// The compatible string of a PL011 UART, with its terminating NUL.
pub open spec fn pl011_compat() -> Seq<u8> {
    seq![97u8, 114u8, 109u8, 44u8, 112u8, 108u8, 48u8, 49u8, 49u8, 0u8]
}

/// Property name "compatible".
pub open spec fn name_compatible() -> Seq<u8> {
    seq![99u8, 111u8, 109u8, 112u8, 97u8, 116u8, 105u8, 98u8, 108u8, 101u8]
}

/// Property name "reg".
pub open spec fn name_reg() -> Seq<u8> {
    seq![114u8, 101u8, 103u8]
}

/// Property name "interrupts".
pub open spec fn name_interrupts() -> Seq<u8> {
    seq![105u8, 110u8, 116u8, 101u8, 114u8, 114u8, 117u8, 112u8, 116u8, 115u8]
}

/// Whether `pat` occurs in `s`.
pub open spec fn contains_bytes(s: Seq<u8>, pat: Seq<u8>) -> bool {
    exists|k: int| 0 <= k && k + pat.len() <= s.len() && #[trigger] s.subrange(k, k + pat.len()) == pat
}

/// Where a node name starting at `q` ends: the first position at or after
/// `q` that reaches `end` or holds a NUL; `None` if the scan runs off the blob.
pub open spec fn name_end(dtb: Seq<u8>, q: int, end: int) -> Option<int>
    decreases gap(q, end),
{
    if q >= end {
        Some(q)
    } else if q >= dtb.len() || q < 0 {
        None
    } else if dtb[q] == 0 {
        Some(q)
    } else {
        name_end(dtb, q + 1, end)
    }
}

/// The position of the NUL ending the string at `a`; `None` if there is none in the blob.
pub open spec fn nul_at(dtb: Seq<u8>, a: int) -> Option<int>
    decreases dtb.len() - a,
{
    if a < 0 || a >= dtb.len() {
        None
    } else if dtb[a] == 0 {
        Some(a)
    } else {
        nul_at(dtb, a + 1)
    }
}

/// What the scan has found so far.
#[derive(Debug, Clone, Copy, PartialEq, Eq, Structural)]
pub struct UartScan {
    /// The current node is compatible with the PL011 UART.
    pub node_is_uart: bool,
    /// The UART's base address (0 while unknown).
    pub base: u32,
    /// The UART's interrupt number.
    pub irq: u32,
}

/// The effect of one property named `name`, with `plen` bytes of value at `val`;
/// `None` when the value would be read beyond the blob.
pub open spec fn apply_prop(dtb: Seq<u8>, name: Seq<u8>, val: int, plen: int, st: UartScan) -> Option<
    UartScan,
> {
    if name == name_compatible() {
        if val + plen > dtb.len() {
            None
        } else if contains_bytes(dtb.subrange(val, val + plen), pl011_compat()) {
            Some(UartScan { node_is_uart: true, ..st })
        } else {
            Some(st)
        }
    } else if name == name_reg() && st.node_is_uart {
        if plen >= 8 {
            if val + 8 > dtb.len() {
                None
            } else {
                Some(UartScan { base: be32_at(dtb, val) as u32, ..st })
            }
        } else {
            Some(st)
        }
    } else if name == name_interrupts() && st.node_is_uart {
        if plen >= 12 {
            if val + 8 > dtb.len() {
                None
            } else {
                Some(UartScan { irq: be32_at(dtb, val + 4) as u32, ..st })
            }
        } else {
            Some(st)
        }
    } else {
        Some(st)
    }
}

/// Scan the structure block from `p` to `end`; `None` when the scan would read
/// beyond the blob. Strings are found at `soff` plus their offset.
pub open spec fn scan(dtb: Seq<u8>, soff: int, p: int, end: int, st: UartScan) -> Option<UartScan>
    decreases gap(p, end),
{
    if p >= end {
        Some(st)
    } else if p < 0 || p + 4 > dtb.len() {
        None
    } else {
        let tok = be32_at(dtb, p);
        let p1 = p + 4;
        if tok == FDT_BEGIN_NODE {
            match name_end(dtb, p1, end) {
                Some(q) => if q >= p1 {
                    scan(dtb, soff, align4(q + 1), end, UartScan { node_is_uart: false, ..st })
                } else {
                    None
                },
                None => None,
            }
        } else if tok == FDT_END_NODE {
            scan(dtb, soff, p1, end, UartScan { node_is_uart: false, ..st })
        } else if tok == FDT_PROP {
            if p1 + 8 > dtb.len() {
                None
            } else {
                let plen = be32_at(dtb, p1);
                let nameoff = be32_at(dtb, p1 + 4);
                let val = p1 + 8;
                match nul_at(dtb, soff + nameoff) {
                    Some(z) => match apply_prop(
                        dtb,
                        dtb.subrange(soff + nameoff, z),
                        val,
                        plen,
                        st,
                    ) {
                        Some(st2) => scan(dtb, soff, align4(val + plen), end, st2),
                        None => None,
                    },
                    None => None,
                }
            }
        } else if tok == FDT_NOP {
            scan(dtb, soff, p1, end, st)
        } else {
            Some(st)
        }
    }
}

/// What a node finds is its own: at a node boundary (the start or the end
/// of a node) the rest of the scan does not depend on whether the node
/// before was the UART, so a node that is not PL011-compatible cannot pick
/// up the UART's flag and overwrite its address or interrupt.
pub proof fn lemma_node_boundary_forgets_uart(dtb: Seq<u8>, soff: int, p: int, end: int, st: UartScan)
    requires
        0 <= p < end,
        p + 4 <= dtb.len(),
        be32_at(dtb, p) == FDT_BEGIN_NODE || be32_at(dtb, p) == FDT_END_NODE,
    ensures
        scan(dtb, soff, p, end, st) == scan(dtb, soff, p, end, UartScan { node_is_uart: true, ..st }),
        scan(dtb, soff, p, end, st) == scan(dtb, soff, p, end, UartScan { node_is_uart: false, ..st }),
{
}

/// Outside a PL011-compatible node, a property other than a PL011
/// "compatible" changes nothing the scan has found (or the value lies beyond
/// the blob): "reg" and "interrupts" of other nodes are ignored.
pub proof fn lemma_other_node_props_ignored(dtb: Seq<u8>, name: Seq<u8>, val: int, plen: int, st: UartScan)
    requires
        !st.node_is_uart,
        name == name_compatible() && val + plen <= dtb.len() ==> !contains_bytes(
            dtb.subrange(val, val + plen),
            pl011_compat(),
        ),
    ensures
        apply_prop(dtb, name, val, plen, st) is None || apply_prop(dtb, name, val, plen, st) == Some(st),
{
}

/// Only a "compatible" property holding "arm,pl011" makes the current node
/// the UART, and only while the node is the UART do "reg" (its first cell)
/// and "interrupts" (its second cell) set the base and the interrupt.
pub proof fn lemma_uart_fields_from_uart_node(dtb: Seq<u8>, name: Seq<u8>, val: int, plen: int, st: UartScan)
    ensures
        apply_prop(dtb, name, val, plen, st) matches Some(s2) ==> {
            &&& (s2.base != st.base ==> st.node_is_uart && name == name_reg() && s2.base == be32_at(dtb, val))
            &&& (s2.irq != st.irq ==> st.node_is_uart && name == name_interrupts() && s2.irq == be32_at(
                dtb,
                val + 4,
            ))
            &&& (s2.node_is_uart && !st.node_is_uart ==> name == name_compatible() && contains_bytes(
                dtb.subrange(val, val + plen),
                pl011_compat(),
            ))
        },
{
}

/// The UART found in a device-tree blob, as `parse_uart_base_and_irq` reports it.
pub open spec fn uart_of(dtb: Seq<u8>) -> Option<(usize, u32)> {
    if dtb.len() < FDT_HEADER_SIZE || be32_at(dtb, 0) != FDT_MAGIC {
        None
    } else {
        let off_struct = be32_at(dtb, 8);
        let off_strings = be32_at(dtb, 12);
        let size_struct = be32_at(dtb, 36);
        if off_struct > dtb.len() || off_strings > dtb.len() {
            None
        } else {
            match scan(
                dtb,
                off_strings,
                off_struct,
                off_struct + size_struct,
                UartScan { node_is_uart: false, base: 0, irq: 0 },
            ) {
                Some(st) => if st.base != 0 {
                    Some((st.base as usize, st.irq))
                } else {
                    None
                },
                None => None,
            }
        }
    }
}

/// The big-endian 32-bit value at byte `off` of `data`.
pub fn be32(data: &[u8], off: usize) -> (v: u32)
    requires
        off + 4 <= data@.len(),
    ensures
        v == be32_at(data@, off as int),
{
    (data[off] as u32) * 0x100_0000 + (data[off + 1] as u32) * 0x1_0000 + (data[off + 2] as u32)
        * 0x100 + data[off + 3] as u32
}

/// The big-endian 64-bit value at byte `off` of `data`.
pub fn be64(data: &[u8], off: usize) -> (v: u64)
    requires
        off + 8 <= data@.len(),
    ensures
        v == be64_at(data@, off as int),
{
    let l = data.len();
    assert(off + 8 <= l);
    (be32(data, off) as u64) * 0x1_0000_0000 + be32(data, off + 4) as u64
}

/// Whether `pat` occurs in `data[from..to]`.
fn window_match(data: &[u8], from: usize, to: usize, pat: &[u8]) -> (r: bool)
    requires
        from <= to <= data@.len(),
    ensures
        r == contains_bytes(data@.subrange(from as int, to as int), pat@),
{
    let ghost s = data@.subrange(from as int, to as int);
    let n = pat.len();
    if to - from < n {
        return false;
    }
    let mut k: usize = 0;
    while k <= to - from - n
        invariant
            from <= to <= data@.len(),
            n <= to - from,
            n == pat@.len(),
            s == data@.subrange(from as int, to as int),
            forall|j: int| 0 <= j < k ==> #[trigger] s.subrange(j, j + n) != pat@,
        decreases to - from - k,
    {
        let mut ok = true;
        let mut m: usize = 0;
        while m < n
            invariant
                from <= to <= data@.len(),
                n == pat@.len(),
                k + n <= to - from,
                to - from <= data@.len(),
                m <= n,
                ok == forall|i: int| 0 <= i < m ==> data@[from + k + i] == pat@[i],
            decreases n - m,
        {
            if data[from + k + m] != pat[m] {
                ok = false;
            }
            m = m + 1;
        }
        if ok {
            assert(s.subrange(k as int, k + n) =~= pat@);
            return true;
        }
        proof {
            let j = choose|i: int| 0 <= i < n && data@[from + k + i] != pat@[i];
            assert(s.subrange(k as int, k + n)[j] != pat@[j]);
        }
        k = k + 1;
    }
    false
}

/// Whether the bytes `data[a..z]` are exactly `lit`.
fn bytes_eq(data: &[u8], a: usize, z: usize, lit: &[u8]) -> (r: bool)
    requires
        a <= z <= data@.len(),
    ensures
        r == (data@.subrange(a as int, z as int) == lit@),
{
    if z - a != lit.len() {
        return false;
    }
    let mut i: usize = 0;
    while i < lit.len()
        invariant
            a <= z <= data@.len(),
            z - a == lit@.len(),
            i <= lit@.len(),
            forall|j: int| 0 <= j < i ==> data@[a + j] == lit@[j],
        decreases lit@.len() - i,
    {
        if data[a + i] != lit[i] {
            assert(data@.subrange(a as int, z as int)[i as int] != lit@[i as int]);
            return false;
        }
        i = i + 1;
    }
    assert(data@.subrange(a as int, z as int) =~= lit@);
    true
}

/// Where the node name at `q` ends (see `name_end`).
fn find_name_end(dtb: &[u8], q0: u64, end: u64) -> (r: Option<u64>)
    requires
        end <= 0x2_0000_0000,
        q0 <= 0x2_0000_0004,
    ensures
        r matches Some(q) ==> name_end(dtb@, q0 as int, end as int) == Some(q as int) && q0 <= q
            && q <= 0x2_0000_0004,
        r is None ==> name_end(dtb@, q0 as int, end as int) is None,
{
    let len64 = dtb.len() as u64;
    let mut q: u64 = q0;
    loop
        invariant
            len64 == dtb@.len(),
            q0 <= q,
            q <= end || q == q0,
            end <= 0x2_0000_0000,
            q0 <= 0x2_0000_0004,
            name_end(dtb@, q0 as int, end as int) == name_end(dtb@, q as int, end as int),
        decreases gap(q as int, end as int),
    {
        if q >= end {
            return Some(q);
        }
        if q >= len64 {
            return None;
        }
        if dtb[q as usize] == 0 {
            return Some(q);
        }
        q = q + 1;
    }
}

/// The position of the NUL ending the string at `a` (see `nul_at`).
fn find_nul(dtb: &[u8], a: u64) -> (r: Option<u64>)
    requires
        a <= 0x3_0000_0000,
    ensures
        r matches Some(z) ==> nul_at(dtb@, a as int) == Some(z as int) && a <= z < dtb@.len(),
        r is None ==> nul_at(dtb@, a as int) is None,
{
    let len64 = dtb.len() as u64;
    let mut z: u64 = a;
    loop
        invariant
            len64 == dtb@.len(),
            a <= z,
            a <= 0x3_0000_0000,
            z <= a + len64 + 1,
            nul_at(dtb@, a as int) == nul_at(dtb@, z as int),
        decreases len64 + 1 - (z - a),
    {
        if z >= len64 {
            return None;
        }
        if dtb[z as usize] == 0 {
            return Some(z);
        }
        z = z + 1;
    }
}

/// The effect of the property named by `dtb[a..z]` (see `apply_prop`).
fn apply_property(dtb: &[u8], a: usize, z: usize, val: u64, plen: u64, st: UartScan) -> (r: Option<
    UartScan,
>)
    requires
        a <= z <= dtb@.len(),
        val <= 0x4_0000_0000,
        plen < 0x1_0000_0000,
    ensures
        r == apply_prop(dtb@, dtb@.subrange(a as int, z as int), val as int, plen as int, st),
{
    let compat: [u8; 10] = [97, 114, 109, 44, 112, 108, 48, 49, 49, 0];
    let n_compatible: [u8; 10] = [99, 111, 109, 112, 97, 116, 105, 98, 108, 101];
    let n_reg: [u8; 3] = [114, 101, 103];
    let n_interrupts: [u8; 10] = [105, 110, 116, 101, 114, 114, 117, 112, 116, 115];
    assert(compat@ =~= pl011_compat());
    assert(n_compatible@ =~= name_compatible());
    assert(n_reg@ =~= name_reg());
    assert(n_interrupts@ =~= name_interrupts());
    let len64 = dtb.len() as u64;
    if bytes_eq(dtb, a, z, &n_compatible) {
        if val + plen > len64 {
            return None;
        }
        if window_match(dtb, val as usize, (val + plen) as usize, &compat) {
            return Some(UartScan { node_is_uart: true, ..st });
        }
        Some(st)
    } else if bytes_eq(dtb, a, z, &n_reg) && st.node_is_uart {
        if plen >= 8 {
            if val + 8 > len64 {
                return None;
            }
            return Some(UartScan { base: be32(dtb, val as usize), ..st });
        }
        Some(st)
    } else if bytes_eq(dtb, a, z, &n_interrupts) && st.node_is_uart {
        if plen >= 12 {
            if val + 8 > len64 {
                return None;
            }
            return Some(UartScan { irq: be32(dtb, (val + 4) as usize), ..st });
        }
        Some(st)
    } else {
        Some(st)
    }
}

/// The outcome of one step of the structure scan.
pub enum ScanStep {
    /// The scan ends here with the state it had.
    Stop,
    /// The scan would read beyond the blob.
    Fail,
    /// The scan goes on at the given position with the given state.
    Next(u64, UartScan),
}

/// One token of the structure scan at `p` (see `scan`).
fn scan_step(dtb: &[u8], soff: u64, p: u64, end: u64, st: UartScan) -> (r: ScanStep)
    requires
        p < end,
        end <= 0x2_0000_0000,
        soff < 0x1_0000_0000,
    ensures
        r is Stop ==> scan(dtb@, soff as int, p as int, end as int, st) == Some(st),
        r is Fail ==> scan(dtb@, soff as int, p as int, end as int, st) is None,
        r matches ScanStep::Next(p2, s2) ==> p < p2 <= 0x4_0000_0004 && scan(
            dtb@,
            soff as int,
            p as int,
            end as int,
            st,
        ) == scan(dtb@, soff as int, p2 as int, end as int, s2),
{
    let len64 = dtb.len() as u64;
    if p + 4 > len64 {
        return ScanStep::Fail;
    }
    let tok = be32(dtb, p as usize);
    let p1 = p + 4;
    if tok == FDT_BEGIN_NODE {
        match find_name_end(dtb, p1, end) {
            Some(q) => ScanStep::Next((q + 1 + 3) / 4 * 4, UartScan { node_is_uart: false, ..st }),
            None => ScanStep::Fail,
        }
    } else if tok == FDT_END_NODE {
        ScanStep::Next(p1, UartScan { node_is_uart: false, ..st })
    } else if tok == FDT_PROP {
        if p1 + 8 > len64 {
            return ScanStep::Fail;
        }
        let plen = be32(dtb, p1 as usize) as u64;
        let nameoff = be32(dtb, (p1 + 4) as usize) as u64;
        let val = p1 + 8;
        let a = soff + nameoff;
        match find_nul(dtb, a) {
            Some(z) => match apply_property(dtb, a as usize, z as usize, val, plen, st) {
                Some(s2) => ScanStep::Next((val + plen + 3) / 4 * 4, s2),
                None => ScanStep::Fail,
            },
            None => ScanStep::Fail,
        }
    } else if tok == FDT_NOP {
        ScanStep::Next(p1, st)
    } else {
        ScanStep::Stop
    }
}

/// Find the base address and interrupt number of the PL011 UART in a
/// flattened device tree: the `reg` (first cell) and `interrupts` (second
/// cell) properties of a node whose `compatible` property holds
/// "arm,pl011". `None` when the blob is not an FDT, names no such UART (base
/// 0), or would be read beyond its end.
pub fn parse_uart_base_and_irq(dtb: &[u8]) -> (r: Option<(usize, u32)>)
    ensures
        r == uart_of(dtb@),
{
    let len = dtb.len();
    if len < FDT_HEADER_SIZE {
        return None;
    }
    if be32(dtb, 0) != FDT_MAGIC {
        return None;
    }
    let off_struct = be32(dtb, 8) as u64;
    let off_strings = be32(dtb, 12) as u64;
    let size_struct = be32(dtb, 36) as u64;
    let len64 = len as u64;
    if off_struct > len64 || off_strings > len64 {
        return None;
    }
    let end: u64 = off_struct + size_struct;
    let mut p: u64 = off_struct;
    let mut st = UartScan { node_is_uart: false, base: 0, irq: 0 };
    let ghost goal = scan(dtb@, off_strings as int, off_struct as int, end as int, st);
    let ghost answer = match goal {
        Some(s) => if s.base != 0 {
            Some((s.base as usize, s.irq))
        } else {
            None
        },
        None => None,
    };
    assert(uart_of(dtb@) == answer);
    loop
        invariant
            uart_of(dtb@) == answer,
            answer == match goal {
                Some(s) => if s.base != 0 {
                    Some((s.base as usize, s.irq))
                } else {
                    None
                },
                None => None,
            },
            len == dtb@.len(),
            len64 == len as u64,
            off_strings <= len64,
            off_strings < 0x1_0000_0000,
            end <= 0x2_0000_0000,
            p <= 0x4_0000_0004,
            goal == scan(dtb@, off_strings as int, p as int, end as int, st),
        ensures
            goal == Some(st),
        decreases gap(p as int, end as int),
    {
        if p >= end {
            break;
        }
        match scan_step(dtb, off_strings, p, end, st) {
            ScanStep::Stop => {
                break;
            },
            ScanStep::Fail => {
                return None;
            },
            ScanStep::Next(p2, s2) => {
                p = p2;
                st = s2;
            },
        }
    }
    if st.base != 0 {
        Some((st.base as usize, st.irq))
    } else {
        None
    }
}

} // verus!

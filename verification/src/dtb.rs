use vstd::prelude::*;
use crate::bytes::matches_at;
use crate::bytes::starts_with_at;
use crate::net::be32;
use crate::net::read_be32;

verus! {

/// Where the first virtio-mmio device of a device tree sits.
#[derive(Clone, Copy)]
pub struct VirtioMmioInfo {
    pub base: u64,
    pub size: u64,
}

pub const FDT_MAGIC: u32 = 0xd00d_feed;
pub const FDT_BEGIN_NODE: u32 = 1;
pub const FDT_END_NODE: u32 = 2;
pub const FDT_PROP: u32 = 3;
pub const FDT_NOP: u32 = 4;
pub const FDT_END: u32 = 9;

/// `x` rounded up to a multiple of four.
pub open spec fn align4(x: int) -> int {
    (x + 3) / 4 * 4
}

pub proof fn lemma_align4(x: int)
    ensures
        x <= align4(x) < x + 4,
{
    assert(x <= (x + 3) / 4 * 4 < x + 4) by (nonlinear_arith);
}

/// Index of the first zero byte of `d` at or after `i`; the length of `d` when there is
/// none.
pub open spec fn first_zero_from(d: Seq<u8>, i: int) -> int
    decreases d.len() - i,
{
    if i >= d.len() {
        d.len() as int
    } else if d[i] == 0 {
        i
    } else {
        first_zero_from(d, i + 1)
    }
}

pub proof fn lemma_first_zero_from(d: Seq<u8>, i: int)
    requires
        0 <= i <= d.len(),
    ensures
        i <= first_zero_from(d, i) <= d.len(),
        forall|k: int| i <= k < first_zero_from(d, i) ==> d[k] != 0,
        first_zero_from(d, i) < d.len() ==> d[first_zero_from(d, i)] == 0,
    decreases d.len() - i,
{
    if i < d.len() && d[i] != 0 {
        lemma_first_zero_from(d, i + 1);
    }
}

/// The zero-terminated string at `start` is `lit`.
pub open spec fn cstr_is(d: Seq<u8>, start: int, lit: Seq<u8>) -> bool {
    first_zero_from(d, start) - start == lit.len() && matches_at(d, start, lit)
}

/// `needle` is one of the zero-separated pieces of `data`, the piece that begins at `i`.
pub open spec fn is_piece_at(data: Seq<u8>, i: int, needle: Seq<u8>) -> bool {
    &&& matches_at(data, i, needle)
    &&& (i == 0 || data[i - 1] == 0)
    &&& (i + needle.len() == data.len() || data[i + needle.len()] == 0)
}

/// `needle` is one of the zero-separated strings of a property value.
pub open spec fn has_piece(data: Seq<u8>, needle: Seq<u8>) -> bool {
    exists|i: int| #[trigger] is_piece_at(data, i, needle)
}

/// Two big-endian 32-bit cells read as one 64-bit value.
pub open spec fn be64(d: Seq<u8>, i: int) -> u64 {
    (be32(d, i) * 4294967296 + be32(d, i + 4)) as u64
}

pub open spec fn compatible_name() -> Seq<u8> {
    seq![99u8, 111, 109, 112, 97, 116, 105, 98, 108, 101]
}

pub open spec fn reg_name() -> Seq<u8> {
    seq![114u8, 101, 103]
}

pub open spec fn virtio_mmio_compat() -> Seq<u8> {
    seq![118u8, 105, 114, 116, 105, 111, 44, 109, 109, 105, 111]
}

/// The walk over the structure block from token offset `p` up to `end`, inside a node that
/// so far is (`virtio`) or is not compatible with `virtio,mmio` and has the `reg` value
/// `reg`. The walk stops with a device at the first property after which the current node
/// has both; it gives `None` at `FDT_END`, at an unknown token, at `end`, and where it would
/// read past the blob.
pub open spec fn fdt_walk(
    d: Seq<u8>,
    strings: int,
    p: int,
    end: int,
    virtio: bool,
    reg: Option<(u64, u64)>,
) -> Option<VirtioMmioInfo>
    decreases (if p < end {
        end - p
    } else {
        0
    }),
{
    if p >= end || p < 0 || p + 4 > d.len() {
        None
    } else {
        let token = be32(d, p);
        if token == FDT_BEGIN_NODE {
            let z = first_zero_from(d, p + 4);
            if z >= d.len() {
                None
            } else {
                proof {
                    lemma_first_zero_from(d, p + 4);
                }
                fdt_walk(d, strings, align4(z + 1), end, false, None)
            }
        } else if token == FDT_END_NODE {
            fdt_walk(d, strings, p + 4, end, false, None)
        } else if token == FDT_NOP {
            fdt_walk(d, strings, p + 4, end, virtio, reg)
        } else if token != FDT_PROP || p + 12 > d.len() {
            None
        } else {
            let len = be32(d, p + 4);
            let name = strings + be32(d, p + 8);
            let data = p + 12;
            if name >= d.len() || first_zero_from(d, name) >= d.len() {
                None
            } else {
                let is_compat = cstr_is(d, name, compatible_name());
                let is_reg = !is_compat && cstr_is(d, name, reg_name()) && len >= 16;
                if (is_compat && data + len > d.len()) || (is_reg && data + 16 > d.len()) {
                    None
                } else {
                    let v2 = virtio || (is_compat && has_piece(
                        d.subrange(data, data + len),
                        virtio_mmio_compat(),
                    ));
                    let r2 = if is_reg {
                        Some((be64(d, data), be64(d, data + 8)))
                    } else {
                        reg
                    };
                    match r2 {
                        Some((base, size)) if v2 => Some(VirtioMmioInfo { base, size }),
                        _ => fdt_walk(d, strings, align4(data + len), end, v2, r2),
                    }
                }
            }
        }
    }
}

/// The first virtio-mmio device of a flattened device tree: `None` unless the blob starts
/// with a header carrying the magic number; otherwise the structure block's walk.
pub open spec fn fdt_find(d: Seq<u8>) -> Option<VirtioMmioInfo> {
    if d.len() < 40 || be32(d, 0) != FDT_MAGIC {
        None
    } else {
        let off = be32(d, 8);
        fdt_walk(d, be32(d, 12), off, off + be32(d, 36), false, None)
    }
}

fn first_zero(d: &[u8], i: usize) -> (z: usize)
    requires
        i <= d.len(),
    ensures
        z == first_zero_from(d@, i as int),
{
    let mut j = i;
    while j < d.len() && d[j] != 0
        invariant
            i <= j <= d.len(),
            first_zero_from(d@, i as int) == first_zero_from(d@, j as int),
        decreases d.len() - j,
    {
        j += 1;
    }
    j
}

fn cstr_eq(d: &[u8], start: usize, lit: &[u8]) -> (r: bool)
    requires
        start < d.len(),
    ensures
        r == cstr_is(d@, start as int, lit@),
{
    let z = first_zero(d, start);
    proof {
        lemma_first_zero_from(d@, start as int);
    }
    z - start == lit.len() && starts_with_at(d, d.len(), start, lit)
}

fn contains_piece(data: &[u8], needle: &[u8]) -> (r: bool)
    requires
        needle.len() > 0,
    ensures
        r == has_piece(data@, needle@),
{
    if needle.len() > data.len() {
        assert forall|i: int| !is_piece_at(data@, i, needle@) by {}
        return false;
    }
    let n = needle.len();
    let mut i = 0usize;
    while i <= data.len() - n
        invariant
            0 < n == needle.len() <= data.len(),
            i <= data.len() - n + 1,
            forall|j: int| 0 <= j < i ==> !is_piece_at(data@, j, needle@),
        decreases data.len() - n + 1 - i,
    {
        let starts = i == 0 || data[i - 1] == 0;
        let ends = i + n == data.len() || data[i + n] == 0;
        if starts && ends && starts_with_at(data, data.len(), i, needle) {
            assert(is_piece_at(data@, i as int, needle@));
            return true;
        }
        i += 1;
    }
    assert forall|j: int| !is_piece_at(data@, j, needle@) by {
        if 0 <= j < i {
        }
    }
    false
}

fn read_be64(d: &[u8], i: usize) -> (r: u64)
    requires
        i + 8 <= d.len(),
    ensures
        r == be64(d@, i as int),
{
    let hi = read_be32(d, i) as u64;
    let lo = read_be32(d, i + 4) as u64;
    hi * 4294967296 + lo
}

fn align4_u64(x: u64) -> (r: u64)
    requires
        x < 0x1_0000_0000_0000,
    ensures
        r == align4(x as int),
{
    let r = (x + 3) / 4 * 4;
    assert(r == align4(x as int)) by (nonlinear_arith)
        requires
            r == (x + 3) / 4 * 4,
    ;
    r
}

/// The base and size of the first node of the device tree blob `dtb` whose `compatible`
/// property lists `virtio,mmio` and which has a 16-byte `reg` property (two cells of
/// address, two of size). The blob is taken to start at a 4-byte aligned address.
pub fn find_first_virtio_mmio(dtb: &[u8]) -> (r: Option<VirtioMmioInfo>)
    ensures
        r == fdt_find(dtb@),
{
    if dtb.len() < 40 {
        return None;
    }
    if read_be32(dtb, 0) != FDT_MAGIC {
        return None;
    }
    let n = dtb.len();
    let strings = read_be32(dtb, 12) as u64;
    let start = read_be32(dtb, 8) as u64;
    let end = start + read_be32(dtb, 36) as u64;
    let compat: &[u8] = &[99u8, 111, 109, 112, 97, 116, 105, 98, 108, 101];
    let reg_lit: &[u8] = &[114u8, 101, 103];
    let needle: &[u8] = &[118u8, 105, 114, 116, 105, 111, 44, 109, 109, 105, 111];
    assert(compat@ =~= compatible_name());
    assert(reg_lit@ =~= reg_name());
    assert(needle@ =~= virtio_mmio_compat());
    let mut p = start;
    let mut virtio = false;
    let mut reg: Option<(u64, u64)> = None;
    while p < end
        invariant
            n == dtb.len(),
            strings < 0x1_0000_0000,
            end < 0x2_0000_0000,
            compat@ == compatible_name(),
            reg_lit@ == reg_name(),
            needle@ == virtio_mmio_compat(),
            fdt_find(dtb@) == fdt_walk(dtb@, strings as int, p as int, end as int, virtio, reg),
        decreases (if p < end {
            end - p
        } else {
            0
        }),
    {
        if p + 4 > n as u64 {
            return None;
        }
        let token = read_be32(dtb, p as usize);
        if token == FDT_BEGIN_NODE {
            if p + 4 >= n as u64 {
                return None;
            }
            let z = first_zero(dtb, (p + 4) as usize);
            if z >= n {
                return None;
            }
            proof {
                lemma_first_zero_from(dtb@, p + 4);
            }
            proof {
                lemma_align4(z + 1);
            }
            if z as u64 + 1 >= end {
                assert(fdt_walk(dtb@, strings as int, align4(z + 1), end as int, false, None) is None);
                return None;
            }
            p = align4_u64(z as u64 + 1);
            virtio = false;
            reg = None;
        } else if token == FDT_END_NODE {
            p = p + 4;
            virtio = false;
            reg = None;
        } else if token == FDT_NOP {
            p = p + 4;
        } else if token != FDT_PROP || p + 12 > n as u64 {
            return None;
        } else {
            let len = read_be32(dtb, (p + 4) as usize) as u64;
            let name = strings + read_be32(dtb, (p + 8) as usize) as u64;
            let data = p + 12;
            if name >= n as u64 {
                return None;
            }
            if first_zero(dtb, name as usize) >= n {
                return None;
            }
            let is_compat = cstr_eq(dtb, name as usize, compat);
            let is_reg = !is_compat && cstr_eq(dtb, name as usize, reg_lit) && len >= 16;
            if is_compat {
                if data + len > n as u64 {
                    return None;
                }
                let value = vstd::slice::slice_subrange(dtb, data as usize, (data + len) as usize);
                if contains_piece(value, needle) {
                    virtio = true;
                }
            } else if is_reg {
                if data + 16 > n as u64 {
                    return None;
                }
                let base = read_be64(dtb, data as usize);
                let size = read_be64(dtb, (data + 8) as usize);
                reg = Some((base, size));
            }
            proof {
                lemma_align4(data + len);
            }
            p = align4_u64(data + len);
            if virtio {
                if let Some((base, size)) = reg {
                    return Some(VirtioMmioInfo { base, size });
                }
            }
        }
    }
    None
}

} // verus!

use vstd::prelude::*;
use crate::net::VIRTIO_NET_F_MAC;

verus! {

pub const MMIO_MAGIC_VALUE: usize = 0x000;
pub const MMIO_VERSION: usize = 0x004;
pub const MMIO_DEVICE_ID: usize = 0x008;
pub const MMIO_VENDOR_ID: usize = 0x00c;
pub const MMIO_DEVICE_FEATURES: usize = 0x010;
pub const MMIO_DEVICE_FEATURES_SEL: usize = 0x014;
pub const MMIO_DRIVER_FEATURES: usize = 0x020;
pub const MMIO_DRIVER_FEATURES_SEL: usize = 0x024;
pub const MMIO_STATUS: usize = 0x070;

/// "virt" read as a little-endian word.
pub const VIRTIO_MAGIC: u32 = 0x74726976;
pub const VIRTIO_DEV_NET: u32 = 1;
pub const VIRTIO_F_VERSION_1: u64 = 0x100000000;

pub const STATUS_ACK: u32 = 1;
pub const STATUS_DRIVER: u32 = 2;
pub const STATUS_DRIVER_OK: u32 = 4;
pub const STATUS_FEATURES_OK: u32 = 8;
pub const STATUS_FAILED: u32 = 0x80;

/// A virtio device behind memory-mapped registers at `base`.
pub struct MmioDevice {
    pub base: usize,
}

impl MmioDevice {
    pub fn new(base: usize) -> (r: Self)
        ensures
            r.base == base,
    {
        MmioDevice { base }
    }

    /// Address of the register at `off`.
    pub fn register(&self, off: usize) -> (r: usize)
        requires
            self.base + off <= usize::MAX,
        ensures
            r == self.base + off,
    {
        self.base + off
    }
}

/// The device id read from a probed device, when its magic value is the virtio one.
pub fn probe_mmio(magic: u32, device_id: u32) -> (r: Option<u32>)
    ensures
        r == (if magic == VIRTIO_MAGIC {
            Some(device_id)
        } else {
            None::<u32>
        }),
{
    if magic != VIRTIO_MAGIC {
        return None;
    }
    Some(device_id)
}

/// One access to a device register: a write of a word, or a read.
#[derive(Clone, Copy, PartialEq, Eq, Debug, Structural)]
pub enum MmioAccess {
    Write(usize, u32),
    Read(usize),
}

/// The register accesses that read the device's features: selector 0, read, selector 1,
/// read; a legacy device is read once, with no selector.
pub open spec fn device_feature_accesses(modern: bool) -> Seq<MmioAccess> {
    if modern {
        seq![
            MmioAccess::Write(MMIO_DEVICE_FEATURES_SEL, 0u32),
            MmioAccess::Read(MMIO_DEVICE_FEATURES),
            MmioAccess::Write(MMIO_DEVICE_FEATURES_SEL, 1u32),
            MmioAccess::Read(MMIO_DEVICE_FEATURES),
        ]
    } else {
        seq![MmioAccess::Read(MMIO_DEVICE_FEATURES)]
    }
}

/// The accesses, in order, whose reads give the words that `read_device_features`
/// combines: the first read is `lo`, the second (modern devices only) is `hi`.
pub fn device_feature_reads(modern: bool) -> (r: Vec<MmioAccess>)
    ensures
        r@ == device_feature_accesses(modern),
{
    let mut r: Vec<MmioAccess> = Vec::new();
    if modern {
        r.push(MmioAccess::Write(MMIO_DEVICE_FEATURES_SEL, 0));
        r.push(MmioAccess::Read(MMIO_DEVICE_FEATURES));
        r.push(MmioAccess::Write(MMIO_DEVICE_FEATURES_SEL, 1));
        r.push(MmioAccess::Read(MMIO_DEVICE_FEATURES));
    } else {
        r.push(MmioAccess::Read(MMIO_DEVICE_FEATURES));
    }
    assert(r@ =~= device_feature_accesses(modern));
    r
}

/// The 64-bit feature set from the words that the reads of `device_feature_reads` return:
/// `lo` after selector 0 and `hi` after selector 1; a legacy device has only the low word.
pub fn read_device_features(lo: u32, hi: u32, modern: bool) -> (r: u64)
    ensures
        r == (if modern {
            hi as u64 * 0x100000000 + lo as u64
        } else {
            lo as int
        }),
{
    if modern {
        let r = ((hi as u64) << 32u64) | (lo as u64);
        assert(((hi as u64) << 32u64) | (lo as u64) == hi as u64 * 0x100000000 + lo as u64)
            by (bit_vector);
        r
    } else {
        lo as u64
    }
}

/// The register writes that hand `feats` to the device: selector then word, low word
/// first; a legacy device takes only the low word.
pub open spec fn driver_feature_writes(feats: u64, modern: bool) -> Seq<(usize, u32)> {
    if modern {
        seq![
            (MMIO_DRIVER_FEATURES_SEL, 0u32),
            (MMIO_DRIVER_FEATURES, (feats % 0x100000000) as u32),
            (MMIO_DRIVER_FEATURES_SEL, 1u32),
            (MMIO_DRIVER_FEATURES, (feats / 0x100000000) as u32),
        ]
    } else {
        seq![(MMIO_DRIVER_FEATURES, (feats % 0x100000000) as u32)]
    }
}

pub fn write_driver_features(feats: u64, modern: bool) -> (r: Vec<(usize, u32)>)
    ensures
        r@ == driver_feature_writes(feats, modern),
{
    let lo = feats as u32;
    let hi = (feats >> 32u64) as u32;
    assert(feats as u32 == (feats % 0x100000000) as u32 && (feats >> 32u64) as u32 == (feats
        / 0x100000000) as u32) by (bit_vector);
    let mut r: Vec<(usize, u32)> = Vec::new();
    if modern {
        r.push((MMIO_DRIVER_FEATURES_SEL, 0));
        r.push((MMIO_DRIVER_FEATURES, lo));
        r.push((MMIO_DRIVER_FEATURES_SEL, 1));
        r.push((MMIO_DRIVER_FEATURES, hi));
    } else {
        r.push((MMIO_DRIVER_FEATURES, lo));
    }
    assert(r@ =~= driver_feature_writes(feats, modern));
    r
}

/// The board's virtio-mmio slots: where the first sits, how far apart they are and how
/// many are probed.
pub const MMIO_SLOTS_BASE: usize = 0x0a00_0000;
pub const MMIO_SLOT_SIZE: usize = 0x200;
pub const MMIO_SLOT_COUNT: usize = 32;

/// Base address of slot `i`.
pub fn slot_base(i: usize) -> (r: usize)
    requires
        i < MMIO_SLOT_COUNT,
    ensures
        r == MMIO_SLOTS_BASE + i * MMIO_SLOT_SIZE,
{
    MMIO_SLOTS_BASE + i * MMIO_SLOT_SIZE
}

/// The network device among the probed slots (`ids[i]` is the device id probed at slot
/// `i`, `None` or 0 for none): the last one, when there is any.
pub open spec fn net_slot(ids: Seq<Option<u32>>) -> Option<int>
    decreases ids.len(),
{
    if ids.len() == 0 {
        None
    } else if ids.last() == Some(VIRTIO_DEV_NET) {
        Some(ids.len() - 1)
    } else {
        net_slot(ids.drop_last())
    }
}

pub fn find_net_slot(ids: &[Option<u32>]) -> (r: Option<usize>)
    ensures
        match r {
            Some(i) => net_slot(ids@) == Some(i as int),
            None => net_slot(ids@) is None,
        },
{
    let mut i = ids.len();
    while i > 0
        invariant
            i <= ids.len(),
            forall|k: int| i <= k < ids.len() ==> ids@[k] != Some(VIRTIO_DEV_NET),
        decreases i,
    {
        if ids[i - 1] == Some(VIRTIO_DEV_NET) {
            proof {
                lemma_net_slot_tail(ids@, i as int);
            }
            return Some(i - 1);
        }
        i -= 1;
    }
    proof {
        lemma_net_slot_tail(ids@, 0);
    }
    None
}

proof fn lemma_net_slot_tail(ids: Seq<Option<u32>>, i: int)
    requires
        0 <= i <= ids.len(),
        forall|k: int| i <= k < ids.len() ==> ids[k] != Some(VIRTIO_DEV_NET),
    ensures
        net_slot(ids) == net_slot(ids.take(i)),
    decreases ids.len() - i,
{
    if i < ids.len() {
        assert(ids.drop_last().take(i) =~= ids.take(i));
        lemma_net_slot_tail(ids.drop_last(), i);
    } else {
        assert(ids.take(i) =~= ids);
    }
}

/// The features the driver accepts from those `offered`: the MAC address when offered,
/// and `VIRTIO_F_VERSION_1` on a modern device.
pub fn negotiate_features(offered: u64, modern: bool) -> (r: u64)
    ensures
        r == (offered & VIRTIO_NET_F_MAC) | (if modern { VIRTIO_F_VERSION_1 } else { 0u64 }),
{
    let mut f = offered & VIRTIO_NET_F_MAC;
    if modern {
        f = f | VIRTIO_F_VERSION_1;
    } else {
        assert(f | 0u64 == f) by (bit_vector);
    }
    f
}

/// The words a modern driver writes are the words a modern device reads back.
pub proof fn lemma_features_roundtrip(feats: u64)
    ensures
        ({
            let w = driver_feature_writes(feats, true);
            w[3].1 as int * 0x100000000 + w[1].1 as int == feats
        }),
{
}

} // verus!

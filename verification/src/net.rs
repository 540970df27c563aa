use vstd::prelude::*;

verus! {

pub const NET_CONFIG_OFFSET: usize = 0x100;
pub const MAC_LEN: usize = 6;
pub const VIRTIO_NET_F_MAC: u64 = 32;
pub const VIRTQ_DESC_F_WRITE: u16 = 2;
pub const VIRTIO_NET_HDR_LEN: usize = 10;
pub const ETH_HDR_LEN: usize = 14;
pub const ARP_PKT_LEN: usize = 28;
pub const LEGACY_QUEUE_ALIGN: usize = 4096;
pub const RX_BUF_LEN: usize = 8192;
pub const TX_BUF_LEN: usize = 2048;
/// Virtio header, Ethernet header, and minimal IPv4 and TCP headers.
pub const TX_FRAME_OVERHEAD: usize = 64;

/// A descriptor of a virtqueue.
#[derive(Clone, Copy)]
pub struct VirtqDesc {
    pub addr: u64,
    pub len: u32,
    pub flags: u16,
    pub next: u16,
}

/// An entry of a used ring.
#[derive(Clone, Copy)]
pub struct VirtqUsedElem {
    pub id: u32,
    pub len: u32,
}

/// A virtqueue, by the guest addresses of its parts.
pub struct Virtq {
    pub desc: usize,
    pub avail: usize,
    pub used: usize,
    pub qsize: u16,
    pub ring: usize,
    pub ring_size: usize,
}

impl Virtq {
    /// A queue that is not set up.
    pub fn empty() -> (r: Self)
        ensures
            r.desc == 0 && r.avail == 0 && r.used == 0 && r.qsize == 0 && r.ring == 0
                && r.ring_size == 0,
    {
        Virtq { desc: 0, avail: 0, used: 0, qsize: 0, ring: 0, ring_size: 0 }
    }
}

/// Largest TCP payload one transmit buffer carries.
pub fn max_tcp_payload_len() -> (r: usize)
    ensures
        r == TX_BUF_LEN - TX_FRAME_OVERHEAD,
{
    TX_BUF_LEN - TX_FRAME_OVERHEAD
}

/// Layout of a split virtqueue of `qsize` entries: offset of the used ring and total size
/// (descriptor table, then available ring, then the used ring aligned to 4096 bytes on a
/// legacy device and to 4 otherwise); `None` for an empty queue.
pub open spec fn spec_virtq_layout(qsize: u16, legacy: bool) -> Option<(int, int)> {
    if qsize == 0 {
        None
    } else {
        let desc_size = 16 * qsize;
        let avail_size = 4 + 2 * qsize + 2;
        let used_size = 4 + 8 * qsize + 2;
        let align = if legacy {
            4096int
        } else {
            4int
        };
        let used_off = (desc_size + avail_size + align - 1) / align * align;
        Some((used_off, used_off + used_size))
    }
}

pub fn virtq_layout(qsize: u16, legacy: bool) -> (r: Option<(usize, usize)>)
    ensures
        r matches Some((u, t)) ==> spec_virtq_layout(qsize, legacy) == Some((u as int, t as int)),
        r is None ==> spec_virtq_layout(qsize, legacy) is None,
{
    if qsize == 0 {
        return None;
    }
    let q = qsize as usize;
    let desc_size = 16 * q;
    let avail_size = 4 + q * 2 + 2;
    let used_size = 4 + 8 * q + 2;
    let align: usize = if legacy {
        LEGACY_QUEUE_ALIGN
    } else {
        4
    };
    let x = desc_size + avail_size + align - 1;
    assert(x / align * align <= x) by (nonlinear_arith)
        requires
            align > 0,
            x >= 0,
    ;
    let used_off = x / align * align;
    Some((used_off, used_off + used_size))
}

// ---------------------------------------------------------------------------
// Received frames. `buf` is a whole receive buffer, `rx_len` how much of it the device
// filled; offsets are into `buf`.
// ---------------------------------------------------------------------------

pub open spec fn be16(s: Seq<u8>, i: int) -> int {
    s[i] * 256 + s[i + 1]
}

pub open spec fn be32(s: Seq<u8>, i: int) -> int {
    s[i] * 16777216 + s[i + 1] * 65536 + s[i + 2] * 256 + s[i + 3]
}

fn read_be16(buf: &[u8], i: usize) -> (r: u16)
    requires
        i + 2 <= buf.len(),
    ensures
        r == be16(buf@, i as int),
{
    (buf[i] as u16) * 256 + (buf[i + 1] as u16)
}

pub(crate) fn read_be32(buf: &[u8], i: usize) -> (r: u32)
    requires
        i + 4 <= buf.len(),
    ensures
        r == be32(buf@, i as int),
{
    (buf[i] as u32) * 16777216 + (buf[i + 1] as u32) * 65536 + (buf[i + 2] as u32) * 256
        + (buf[i + 3] as u32)
}

/// Offset of the Ethernet frame in a receive buffer.
pub open spec fn frame_off() -> int {
    VIRTIO_NET_HDR_LEN as int
}

/// Offset of the IPv4 header in a receive buffer.
pub open spec fn ip_off() -> int {
    (VIRTIO_NET_HDR_LEN + ETH_HDR_LEN) as int
}

/// Ethertype of a received frame, 0 when it is too short to hold one.
pub open spec fn spec_rx_eth_type(buf: Seq<u8>, rx_len: int) -> int {
    if rx_len < frame_off() + ETH_HDR_LEN {
        0
    } else {
        be16(buf, frame_off() + 12)
    }
}

pub fn rx_eth_type(buf: &[u8], rx_len: usize) -> (r: u16)
    requires
        buf.len() == RX_BUF_LEN,
        rx_len <= RX_BUF_LEN,
    ensures
        r == spec_rx_eth_type(buf@, rx_len as int),
{
    if rx_len < VIRTIO_NET_HDR_LEN + ETH_HDR_LEN {
        return 0;
    }
    read_be16(buf, VIRTIO_NET_HDR_LEN + 12)
}

/// A received frame long enough for an IPv4 header, of ethertype IPv4 and IP version 4.
pub open spec fn is_ipv4_frame(buf: Seq<u8>, rx_len: int) -> bool {
    rx_len >= ip_off() + 20 && be16(buf, frame_off() + 12) == 0x0800 && buf[ip_off()] / 16 == 4
}

/// Protocol number of a received IPv4 packet.
pub fn rx_ip_proto(buf: &[u8], rx_len: usize) -> (r: Option<u8>)
    requires
        buf.len() == RX_BUF_LEN,
        rx_len <= RX_BUF_LEN,
    ensures
        r == (if is_ipv4_frame(buf@, rx_len as int) {
            Some(buf@[ip_off() + 9])
        } else {
            None::<u8>
        }),
{
    if rx_len < VIRTIO_NET_HDR_LEN + ETH_HDR_LEN + 20 {
        return None;
    }
    if rx_eth_type(buf, rx_len) != 0x0800 {
        return None;
    }
    let ip = VIRTIO_NET_HDR_LEN + ETH_HDR_LEN;
    if buf[ip] / 16 != 4 {
        return None;
    }
    Some(buf[ip + 9])
}

/// Source address of a received IPv4 packet.
pub fn rx_ip_src(buf: &[u8], rx_len: usize) -> (r: Option<[u8; 4]>)
    requires
        buf.len() == RX_BUF_LEN,
        rx_len <= RX_BUF_LEN,
    ensures
        r matches Some(a) ==> is_ipv4_frame(buf@, rx_len as int) && a@ == buf@.subrange(
            ip_off() + 12,
            ip_off() + 16,
        ),
        r is None ==> !is_ipv4_frame(buf@, rx_len as int),
{
    if rx_ip_proto(buf, rx_len).is_none() {
        return None;
    }
    let ip = VIRTIO_NET_HDR_LEN + ETH_HDR_LEN;
    let a = [buf[ip + 12], buf[ip + 13], buf[ip + 14], buf[ip + 15]];
    assert(a@ =~= buf@.subrange(ip_off() + 12, ip_off() + 16));
    Some(a)
}

/// Sender hardware and protocol address of an ARP reply.
pub open spec fn spec_parse_arp(buf: Seq<u8>, rx_len: int) -> Option<(Seq<u8>, Seq<u8>)> {
    let arp = ip_off();
    if rx_len < ip_off() + ARP_PKT_LEN || be16(buf, frame_off() + 12) != 0x0806 || be16(buf, arp + 6)
        != 2 {
        None
    } else {
        Some((buf.subrange(arp + 8, arp + 14), buf.subrange(arp + 14, arp + 18)))
    }
}

pub fn parse_rx_arp(buf: &[u8], rx_len: usize) -> (r: Option<([u8; 6], [u8; 4])>)
    requires
        buf.len() == RX_BUF_LEN,
        rx_len <= RX_BUF_LEN,
    ensures
        r matches Some((m, i)) ==> spec_parse_arp(buf@, rx_len as int) == Some((m@, i@)),
        r is None ==> spec_parse_arp(buf@, rx_len as int) is None,
{
    if rx_len < VIRTIO_NET_HDR_LEN + ETH_HDR_LEN + ARP_PKT_LEN {
        return None;
    }
    if read_be16(buf, VIRTIO_NET_HDR_LEN + 12) != 0x0806 {
        return None;
    }
    let arp = VIRTIO_NET_HDR_LEN + ETH_HDR_LEN;
    if read_be16(buf, arp + 6) != 2 {
        return None;
    }
    let m = [buf[arp + 8], buf[arp + 9], buf[arp + 10], buf[arp + 11], buf[arp + 12], buf[arp + 13]];
    let i = [buf[arp + 14], buf[arp + 15], buf[arp + 16], buf[arp + 17]];
    assert(m@ =~= buf@.subrange(arp + 8, arp + 14));
    assert(i@ =~= buf@.subrange(arp + 14, arp + 18));
    Some((m, i))
}

/// A received UDP datagram: source address and port, destination port, and where its
/// payload lies in the buffer.
#[derive(Clone, Copy)]
pub struct UdpInfo {
    pub src_ip: [u8; 4],
    pub src_port: u16,
    pub dst_port: u16,
    pub payload_off: usize,
    pub payload_len: usize,
}

/// Reading of a received frame as a UDP datagram (from the gateway `10.0.2.2` only when
/// `any_source`): the IPv4 header length must be at least 20, the total length must cover
/// it and a UDP header and stay within the buffer, the UDP length must cover its header
/// and stay within the packet, and the payload must lie within what was received.
pub open spec fn spec_parse_udp(buf: Seq<u8>, rx_len: int, any_source: bool) -> Option<
    (Seq<u8>, int, int, int, int),
> {
    let ip = ip_off();
    let ihl = (buf[ip] % 16) * 4;
    let total = be16(buf, ip + 2);
    let udp = ip + ihl;
    let udp_len = be16(buf, udp + 4);
    let src = buf.subrange(ip + 12, ip + 16);
    if rx_len < ip + 20 || be16(buf, frame_off() + 12) != 0x0800 || buf[ip] / 16 != 4 || ihl < 20
        || total < ihl + 8 || total > RX_BUF_LEN - ip || buf[ip + 9] != 17 || (!any_source && src
        == seq![10u8, 0, 2, 2]) || udp_len < 8 || udp_len > total - ihl || udp + 8 + (udp_len - 8)
        > rx_len {
        None
    } else {
        Some((src, be16(buf, udp), be16(buf, udp + 2), udp + 8, udp_len - 8))
    }
}

pub fn parse_rx_udp_from(buf: &[u8], rx_len: usize, any_source: bool) -> (r: Option<UdpInfo>)
    requires
        buf.len() == RX_BUF_LEN,
        rx_len <= RX_BUF_LEN,
    ensures
        r matches Some(u) ==> spec_parse_udp(buf@, rx_len as int, any_source) == Some(
            (
                u.src_ip@,
                u.src_port as int,
                u.dst_port as int,
                u.payload_off as int,
                u.payload_len as int,
            ),
        ),
        r is None ==> spec_parse_udp(buf@, rx_len as int, any_source) is None,
{
    let ip = VIRTIO_NET_HDR_LEN + ETH_HDR_LEN;
    if rx_len < ip + 20 {
        return None;
    }
    if read_be16(buf, VIRTIO_NET_HDR_LEN + 12) != 0x0800 {
        return None;
    }
    let ver_ihl = buf[ip];
    if ver_ihl / 16 != 4 {
        return None;
    }
    let ihl = (ver_ihl % 16) as usize * 4;
    if ihl < 20 {
        return None;
    }
    let total = read_be16(buf, ip + 2) as usize;
    if total < ihl + 8 || total > RX_BUF_LEN - ip {
        return None;
    }
    if buf[ip + 9] != 17 {
        return None;
    }
    let src_ip = [buf[ip + 12], buf[ip + 13], buf[ip + 14], buf[ip + 15]];
    assert(src_ip@ =~= buf@.subrange(ip + 12, ip + 16));
    if !any_source && src_ip[0] == 10 && src_ip[1] == 0 && src_ip[2] == 2 && src_ip[3] == 2 {
        assert(src_ip@ =~= seq![10u8, 0, 2, 2]);
        return None;
    }
    proof {
        if src_ip@ == seq![10u8, 0, 2, 2] {
            assert(src_ip@[0] == 10 && src_ip@[1] == 0 && src_ip@[2] == 2 && src_ip@[3] == 2);
        }
    }
    let udp = ip + ihl;
    let src_port = read_be16(buf, udp);
    let dst_port = read_be16(buf, udp + 2);
    let udp_len = read_be16(buf, udp + 4) as usize;
    if udp_len < 8 || udp_len > total - ihl {
        return None;
    }
    let payload_len = udp_len - 8;
    let payload_off = udp + 8;
    if payload_off + payload_len > rx_len {
        return None;
    }
    Some(UdpInfo { src_ip, src_port, dst_port, payload_off, payload_len })
}

/// A UDP datagram from any source.
pub fn parse_rx_udp_any(buf: &[u8], rx_len: usize) -> (r: Option<UdpInfo>)
    requires
        buf.len() == RX_BUF_LEN,
        rx_len <= RX_BUF_LEN,
    ensures
        r matches Some(u) ==> spec_parse_udp(buf@, rx_len as int, true) == Some(
            (
                u.src_ip@,
                u.src_port as int,
                u.dst_port as int,
                u.payload_off as int,
                u.payload_len as int,
            ),
        ),
        r is None ==> spec_parse_udp(buf@, rx_len as int, true) is None,
{
    parse_rx_udp_from(buf, rx_len, true)
}

/// A UDP datagram from any source but the gateway.
pub fn parse_rx_udp(buf: &[u8], rx_len: usize) -> (r: Option<UdpInfo>)
    requires
        buf.len() == RX_BUF_LEN,
        rx_len <= RX_BUF_LEN,
    ensures
        r matches Some(u) ==> spec_parse_udp(buf@, rx_len as int, false) == Some(
            (
                u.src_ip@,
                u.src_port as int,
                u.dst_port as int,
                u.payload_off as int,
                u.payload_len as int,
            ),
        ),
        r is None ==> spec_parse_udp(buf@, rx_len as int, false) is None,
{
    parse_rx_udp_from(buf, rx_len, false)
}

/// A received TCP segment.
#[derive(Clone, Copy)]
pub struct TcpInfo {
    pub src_ip: [u8; 4],
    pub src_port: u16,
    pub dst_port: u16,
    pub seq: u32,
    pub ack: u32,
    pub flags: u8,
    pub payload_off: usize,
    pub payload_len: usize,
}

/// Reading of a received frame as a TCP segment: header lengths of at least 20, a total
/// length that covers both headers and stays within the buffer, and a payload within
/// what was received.
pub open spec fn spec_parse_tcp(buf: Seq<u8>, rx_len: int) -> Option<
    (Seq<u8>, int, int, int, int, u8, int, int),
> {
    let ip = ip_off();
    let ihl = (buf[ip] % 16) * 4;
    let total = be16(buf, ip + 2);
    let tcp = ip + ihl;
    let data_off = (buf[tcp + 12] / 16) * 4;
    let tcp_len = total - ihl;
    if rx_len < ip + 20 || be16(buf, frame_off() + 12) != 0x0800 || buf[ip] / 16 != 4 || ihl < 20
        || total < ihl + 20 || total > RX_BUF_LEN - ip || buf[ip + 9] != 6 || data_off < 20
        || tcp_len < data_off || tcp + data_off + (tcp_len - data_off) > rx_len {
        None
    } else {
        Some(
            (
                buf.subrange(ip + 12, ip + 16),
                be16(buf, tcp),
                be16(buf, tcp + 2),
                be32(buf, tcp + 4),
                be32(buf, tcp + 8),
                buf[tcp + 13],
                tcp + data_off,
                tcp_len - data_off,
            ),
        )
    }
}

pub fn parse_rx_tcp(buf: &[u8], rx_len: usize) -> (r: Option<TcpInfo>)
    requires
        buf.len() == RX_BUF_LEN,
        rx_len <= RX_BUF_LEN,
    ensures
        r matches Some(t) ==> spec_parse_tcp(buf@, rx_len as int) == Some(
            (
                t.src_ip@,
                t.src_port as int,
                t.dst_port as int,
                t.seq as int,
                t.ack as int,
                t.flags,
                t.payload_off as int,
                t.payload_len as int,
            ),
        ),
        r is None ==> spec_parse_tcp(buf@, rx_len as int) is None,
{
    let ip = VIRTIO_NET_HDR_LEN + ETH_HDR_LEN;
    if rx_len < ip + 20 {
        return None;
    }
    if read_be16(buf, VIRTIO_NET_HDR_LEN + 12) != 0x0800 {
        return None;
    }
    let ver_ihl = buf[ip];
    if ver_ihl / 16 != 4 {
        return None;
    }
    let ihl = (ver_ihl % 16) as usize * 4;
    if ihl < 20 {
        return None;
    }
    let total = read_be16(buf, ip + 2) as usize;
    if total < ihl + 20 || total > RX_BUF_LEN - ip {
        return None;
    }
    if buf[ip + 9] != 6 {
        return None;
    }
    let src_ip = [buf[ip + 12], buf[ip + 13], buf[ip + 14], buf[ip + 15]];
    assert(src_ip@ =~= buf@.subrange(ip + 12, ip + 16));
    let tcp = ip + ihl;
    let src_port = read_be16(buf, tcp);
    let dst_port = read_be16(buf, tcp + 2);
    let seq = read_be32(buf, tcp + 4);
    let ack = read_be32(buf, tcp + 8);
    let data_off = (buf[tcp + 12] / 16) as usize * 4;
    if data_off < 20 {
        return None;
    }
    let flags = buf[tcp + 13];
    let tcp_len = total - ihl;
    if tcp_len < data_off {
        return None;
    }
    let payload_len = tcp_len - data_off;
    let payload_off = tcp + data_off;
    if payload_off + payload_len > rx_len {
        return None;
    }
    Some(TcpInfo { src_ip, src_port, dst_port, seq, ack, flags, payload_off, payload_len })
}

/// Length of the IPv4 header of a received packet.
fn ip_header_len(buf: &[u8]) -> (r: usize)
    requires
        buf.len() == RX_BUF_LEN,
    ensures
        r == (buf@[ip_off()] % 16) * 4,
        r <= 60,
{
    (buf[VIRTIO_NET_HDR_LEN + ETH_HDR_LEN] % 16) as usize * 4
}

/// An ICMP echo reply: its identifier, sequence number and source address.
pub open spec fn spec_parse_echo_reply(buf: Seq<u8>, rx_len: usize) -> Option<(int, int, Seq<u8>)> {
    let ip = ip_off();
    let ihl = (buf[ip] % 16) * 4;
    let echo = ip + ihl;
    if rx_len < ip + 20 || be16(buf, frame_off() + 12) != 0x0800 || buf[ip + 9] != 1 || ihl < 20
        || buf[echo] != 0 || buf[echo + 1] != 0 {
        None
    } else {
        Some((be16(buf, echo + 4), be16(buf, echo + 6), buf.subrange(ip + 12, ip + 16)))
    }
}

pub fn parse_rx_icmp_reply(buf: &[u8], rx_len: usize) -> (r: Option<(u16, u16, [u8; 4])>)
    requires
        buf.len() == RX_BUF_LEN,
        rx_len <= RX_BUF_LEN,
    ensures
        r matches Some((id, sq, src)) ==> (spec_parse_echo_reply(buf@, rx_len) matches Some((a, b, c))
            && id == a && sq == b && src@ == c),
        r is None ==> spec_parse_echo_reply(buf@, rx_len) is None,
{
    let ip = VIRTIO_NET_HDR_LEN + ETH_HDR_LEN;
    if rx_len < ip + 20 {
        return None;
    }
    if read_be16(buf, VIRTIO_NET_HDR_LEN + 12) != 0x0800 {
        return None;
    }
    let ihl = ip_header_len(buf);
    if buf[ip + 9] != 1 || ihl < 20 {
        return None;
    }
    let echo = ip + ihl;
    if buf[echo] != 0 || buf[echo + 1] != 0 {
        return None;
    }
    let id = read_be16(buf, echo + 4);
    let sq = read_be16(buf, echo + 6);
    let src = [buf[ip + 12], buf[ip + 13], buf[ip + 14], buf[ip + 15]];
    assert(src@ =~= buf@.subrange(ip + 12, ip + 16));
    Some((id, sq, src))
}

// ---------------------------------------------------------------------------
// Internet checksums (RFC 1071)
// ---------------------------------------------------------------------------

/// 32-bit wrapping sum of the big-endian 16-bit words of `d[i..]`, an odd last byte
/// standing for the high half of a word.
pub open spec fn word_sum(d: Seq<u8>, i: int, acc: u32) -> u32
    decreases d.len() - i,
{
    if i < 0 || i >= d.len() {
        acc
    } else if i + 1 < d.len() {
        word_sum(d, i + 2, vstd::wrapping::u32_specs::wrapping_add(acc, (d[i] * 256 + d[i + 1]) as u32))
    } else {
        vstd::wrapping::u32_specs::wrapping_add(acc, (d[i] * 256) as u32)
    }
}

/// Folds the carries of a 32-bit sum into its low 16 bits.
pub open spec fn fold16(s: u32) -> u32
    decreases s,
{
    if s >= 65536 {
        fold16((s % 65536 + s / 65536) as u32)
    } else {
        s
    }
}

/// One's complement of the folded sum.
pub open spec fn csum_of(sum: u32) -> u16 {
    (65535 - fold16(sum)) as u16
}

/// Internet checksum of `d`.
pub open spec fn checksum(d: Seq<u8>) -> u16 {
    csum_of(word_sum(d, 0, 0))
}

proof fn lemma_fold_step(s: u32)
    requires
        s >= 65536,
    ensures
        s % 65536 + s / 65536 < s,
{
    assert(s % 65536 + s / 65536 < s) by (nonlinear_arith)
        requires
            s >= 65536,
    ;
}

fn fold_carries(sum: u32) -> (r: u32)
    ensures
        r == fold16(sum),
        r < 65536,
{
    let mut s = sum;
    while s >= 65536
        invariant
            fold16(s) == fold16(sum),
        decreases s,
    {
        proof {
            lemma_fold_step(s);
        }
        s = s % 65536 + s / 65536;
    }
    s
}

/// Sum of the big-endian words of `data`.
pub fn sum_be16_words(data: &[u8]) -> (r: u32)
    ensures
        r == word_sum(data@, 0, 0),
{
    let mut sum: u32 = 0;
    let mut i = 0usize;
    while i < data.len() && data.len() - i > 1
        invariant
            i <= data.len(),
            word_sum(data@, i as int, sum) == word_sum(data@, 0, 0),
        decreases data.len() - i,
    {
        let w = (data[i] as u32) * 256 + (data[i + 1] as u32);
        sum = sum.wrapping_add(w);
        i += 2;
    }
    if i < data.len() {
        sum = sum.wrapping_add((data[i] as u32) * 256);
    }
    sum
}

/// Internet checksum of `data`.
pub fn checksum16_be(data: &[u8]) -> (r: u16)
    ensures
        r == checksum(data@),
{
    let s = fold_carries(sum_be16_words(data));
    (65535 - s) as u16
}

/// The TCP pseudo-header words plus the segment length, wrapping.
pub open spec fn pseudo_sum(src: Seq<u8>, dst: Seq<u8>, tcp_len: usize) -> u32 {
    let w = |a: u8, b: u8| (a * 256 + b) as u32;
    let s1 = vstd::wrapping::u32_specs::wrapping_add(0, w(src[0], src[1]));
    let s2 = vstd::wrapping::u32_specs::wrapping_add(s1, w(src[2], src[3]));
    let s3 = vstd::wrapping::u32_specs::wrapping_add(s2, w(dst[0], dst[1]));
    let s4 = vstd::wrapping::u32_specs::wrapping_add(s3, w(dst[2], dst[3]));
    let s5 = vstd::wrapping::u32_specs::wrapping_add(s4, 6);
    vstd::wrapping::u32_specs::wrapping_add(s5, tcp_len as u32)
}

/// TCP checksum of `seg` between `src` and `dst`.
pub open spec fn tcp_checksum(src: Seq<u8>, dst: Seq<u8>, seg: Seq<u8>) -> u16 {
    csum_of(vstd::wrapping::u32_specs::wrapping_add(pseudo_sum(src, dst, seg.len() as usize), word_sum(seg, 0, 0)))
}

pub fn checksum16_tcp(src_ip: [u8; 4], dst_ip: [u8; 4], seg: &[u8]) -> (r: u16)
    ensures
        r == tcp_checksum(src_ip@, dst_ip@, seg@),
{
    let mut sum: u32 = 0;
    sum = sum.wrapping_add((src_ip[0] as u32) * 256 + src_ip[1] as u32);
    sum = sum.wrapping_add((src_ip[2] as u32) * 256 + src_ip[3] as u32);
    sum = sum.wrapping_add((dst_ip[0] as u32) * 256 + dst_ip[1] as u32);
    sum = sum.wrapping_add((dst_ip[2] as u32) * 256 + dst_ip[3] as u32);
    sum = sum.wrapping_add(6u32);
    sum = sum.wrapping_add(seg.len() as u32);
    sum = sum.wrapping_add(sum_be16_words(seg));
    let s = fold_carries(sum);
    (65535 - s) as u16
}

/// The plain (unbounded) sum of the big-endian 16-bit words of `d[i..]`, an odd last
/// byte standing for the high half of a word.
pub open spec fn word_total(d: Seq<u8>, i: int) -> int
    decreases d.len() - i,
{
    if i < 0 || i >= d.len() {
        0
    } else if i + 1 < d.len() {
        d[i] * 256 + d[i + 1] + word_total(d, i + 2)
    } else {
        d[i] * 256
    }
}

proof fn lemma_word_total_nonneg(d: Seq<u8>, i: int)
    ensures
        word_total(d, i) >= 0,
    decreases d.len() - i,
{
    if 0 <= i && i + 1 < d.len() {
        lemma_word_total_nonneg(d, i + 2);
    }
}

/// The wrapping word sum is the plain word sum, modulo 2^32.
proof fn lemma_word_sum_mod(d: Seq<u8>, i: int, acc: u32)
    ensures
        word_sum(d, i, acc) == (acc + word_total(d, i)) % 0x1_0000_0000,
    decreases d.len() - i,
{
    lemma_word_total_nonneg(d, i);
    if i < 0 || i >= d.len() {
    } else if i + 1 < d.len() {
        let w = (d[i] * 256 + d[i + 1]) as u32;
        let acc2 = vstd::wrapping::u32_specs::wrapping_add(acc, w);
        lemma_word_sum_mod(d, i + 2, acc2);
        lemma_word_total_nonneg(d, i + 2);
        assert(acc2 == (acc + w) % 0x1_0000_0000);
        assert((acc2 + word_total(d, i + 2)) % 0x1_0000_0000 == (acc + w + word_total(d, i + 2)) % 0x1_0000_0000)
            by (nonlinear_arith)
            requires
                acc2 == (acc + w) % 0x1_0000_0000,
                acc + w >= 0,
                word_total(d, i + 2) >= 0,
        ;
    } else {
    }
}

/// Words after an even-length prefix are read the same.
proof fn lemma_word_total_shift(a: Seq<u8>, b: Seq<u8>, j: int)
    requires
        a.len() % 2 == 0,
        0 <= j,
    ensures
        word_total(a + b, a.len() + j) == word_total(b, j),
    decreases b.len() - j,
{
    if j + 1 < b.len() {
        lemma_word_total_shift(a, b, j + 2);
    }
}

/// The word sum of an even-length prefix followed by more bytes is the sum of both.
proof fn lemma_word_total_concat(a: Seq<u8>, b: Seq<u8>, i: int)
    requires
        a.len() % 2 == 0,
        0 <= i <= a.len(),
        i % 2 == 0,
    ensures
        word_total(a + b, i) == word_total(a, i) + word_total(b, 0),
    decreases a.len() - i,
{
    if i == a.len() {
        lemma_word_total_shift(a, b, 0);
    } else {
        lemma_word_total_concat(a, b, i + 2);
    }
}

/// The RFC 793 pseudo-header: source and destination addresses, a zero byte, protocol 6
/// (TCP) and the segment length, big-endian.
pub open spec fn tcp_pseudo_header(src: Seq<u8>, dst: Seq<u8>, seg_len: nat) -> Seq<u8> {
    src + dst + seq![0u8, 6u8, (seg_len / 256) as u8, (seg_len % 256) as u8]
}

/// The TCP checksum is the Internet checksum of the pseudo-header (source, destination,
/// zero, protocol 6, TCP length) followed by the segment.
pub proof fn lemma_tcp_checksum_pseudo_header(src: Seq<u8>, dst: Seq<u8>, seg: Seq<u8>)
    requires
        src.len() == 4,
        dst.len() == 4,
        seg.len() <= 65535,
    ensures
        tcp_checksum(src, dst, seg) == checksum(tcp_pseudo_header(src, dst, seg.len()) + seg),
{
    let ph = tcp_pseudo_header(src, dst, seg.len());
    let n = seg.len();
    lemma_word_sum_mod(seg, 0, 0);
    lemma_word_sum_mod(ph + seg, 0, 0);
    lemma_word_total_concat(ph, seg, 0);
    lemma_word_total_nonneg(seg, 0);
    reveal_with_fuel(word_total, 7);
    assert(ph[8] == 0u8 && ph[9] == 6u8 && ph[10] == (n / 256) as u8 && ph[11] == (n % 256) as u8);
    assert((n / 256) as u8 * 256 + (n % 256) as u8 == n);
    let p = src[0] * 256 + src[1] + src[2] * 256 + src[3] + dst[0] * 256 + dst[1] + dst[2] * 256 + dst[3] + 6 + n;
    assert(word_total(ph, 0) == p);
    assert(pseudo_sum(src, dst, n as usize) == p % 0x1_0000_0000);
    let w = word_total(seg, 0);
    assert(vstd::wrapping::u32_specs::wrapping_add(pseudo_sum(src, dst, n as usize), word_sum(seg, 0, 0))
        == (p + w) % 0x1_0000_0000) by (nonlinear_arith)
        requires
            pseudo_sum(src, dst, n as usize) == p % 0x1_0000_0000,
            word_sum(seg, 0, 0) == (0 + w) % 0x1_0000_0000,
            p >= 0,
            w >= 0,
    ;
    assert(word_sum(ph + seg, 0, 0) == (p + w) % 0x1_0000_0000);
}

// ---------------------------------------------------------------------------
// Frames to send: a zeroed virtio-net header, then the Ethernet frame.
// ---------------------------------------------------------------------------

pub open spec fn be16_bytes(v: int) -> Seq<u8> {
    seq![(v / 256) as u8, (v % 256) as u8]
}

pub open spec fn be32_bytes(v: u32) -> Seq<u8> {
    seq![(v / 16777216) as u8, ((v / 65536) % 256) as u8, ((v / 256) % 256) as u8, (v % 256) as u8]
}

pub open spec fn zeros(n: nat) -> Seq<u8> {
    Seq::new(n, |i: int| 0u8)
}

/// Writes `v` big-endian at `off`.
pub open spec fn set_be16(s: Seq<u8>, off: int, v: u16) -> Seq<u8> {
    s.update(off, (v / 256) as u8).update(off + 1, (v % 256) as u8)
}

/// An IPv4 header without options, time to live 64, checksum left zero.
pub open spec fn ipv4_header(total_len: int, proto: u8, src: Seq<u8>, dst: Seq<u8>) -> Seq<u8> {
    seq![0x45u8, 0] + be16_bytes(total_len) + seq![0u8, 0, 0, 0, 64, proto, 0, 0] + src + dst
}

/// Virtio-net header and Ethernet header of an IPv4 frame.
pub open spec fn ipv4_frame_head(src_mac: Seq<u8>, dst_mac: Seq<u8>) -> Seq<u8> {
    zeros(VIRTIO_NET_HDR_LEN as nat) + dst_mac + src_mac + seq![8u8, 0]
}

/// The IPv4 header checksum filled in.
pub open spec fn with_ip_checksum(raw: Seq<u8>) -> Seq<u8> {
    set_be16(raw, ip_off() + 10, checksum(raw.subrange(ip_off(), ip_off() + 20)))
}

/// A TCP segment in a frame (data offset 5, window 16384), both checksums filled in.
pub open spec fn tcp_frame(
    src_mac: Seq<u8>,
    src_ip: Seq<u8>,
    src_port: u16,
    dst_mac: Seq<u8>,
    dst_ip: Seq<u8>,
    dst_port: u16,
    seq_no: u32,
    ack: u32,
    flags: u8,
    payload: Seq<u8>,
) -> Seq<u8> {
    let tcp_len = 20 + payload.len();
    let raw = ipv4_frame_head(src_mac, dst_mac) + ipv4_header((20 + tcp_len) as int, 6, src_ip, dst_ip)
        + be16_bytes(src_port as int) + be16_bytes(dst_port as int) + be32_bytes(seq_no) + be32_bytes(
        ack,
    ) + seq![0x50u8, flags] + be16_bytes(16384) + seq![0u8, 0, 0, 0] + payload;
    set_be16(
        with_ip_checksum(raw),
        ip_off() + 36,
        tcp_checksum(src_ip, dst_ip, raw.subrange(ip_off() + 20, ip_off() + 20 + tcp_len)),
    )
}

/// A UDP datagram in a frame, without a UDP checksum.
pub open spec fn udp_frame(
    src_mac: Seq<u8>,
    src_ip: Seq<u8>,
    src_port: u16,
    dst_mac: Seq<u8>,
    dst_ip: Seq<u8>,
    dst_port: u16,
    payload: Seq<u8>,
) -> Seq<u8> {
    let udp_len = 8 + payload.len();
    let raw = ipv4_frame_head(src_mac, dst_mac) + ipv4_header((20 + udp_len) as int, 17, src_ip, dst_ip)
        + be16_bytes(src_port as int) + be16_bytes(dst_port as int) + be16_bytes(udp_len as int)
        + seq![0u8, 0] + payload;
    with_ip_checksum(raw)
}

/// `minios`, the payload of an echo request.
pub open spec fn echo_payload() -> Seq<u8> {
    seq![109u8, 105, 110, 105, 111, 115]
}

/// An ICMP echo request (identifier 0x1234, sequence 1) in a frame.
pub open spec fn icmp_echo_frame(src_mac: Seq<u8>, src_ip: Seq<u8>, dst_mac: Seq<u8>, dst_ip: Seq<u8>) -> Seq<u8> {
    let raw = ipv4_frame_head(src_mac, dst_mac) + ipv4_header(34, 1, src_ip, dst_ip) + seq![
        8u8,
        0,
        0,
        0,
        0x12,
        0x34,
        0,
        1,
    ] + echo_payload();
    let with_ip = with_ip_checksum(raw);
    set_be16(with_ip, ip_off() + 22, checksum(raw.subrange(ip_off() + 20, ip_off() + 34)))
}

/// A broadcast ARP request for `target_ip`.
pub open spec fn arp_request_frame(src_mac: Seq<u8>, src_ip: Seq<u8>, target_ip: Seq<u8>) -> Seq<u8> {
    zeros(VIRTIO_NET_HDR_LEN as nat) + seq![0xffu8, 0xff, 0xff, 0xff, 0xff, 0xff] + src_mac + seq![
        8u8,
        6,
    ] + seq![0u8, 1, 8, 0, 6, 4, 0, 1] + src_mac + src_ip + zeros(6) + target_ip
}

/// The broadcast test frame: ARP ethertype, source 02:00:00:00:00:01, zero padding.
pub open spec fn dummy_frame() -> Seq<u8> {
    zeros(VIRTIO_NET_HDR_LEN as nat) + seq![0xffu8, 0xff, 0xff, 0xff, 0xff, 0xff] + seq![
        2u8,
        0,
        0,
        0,
        0,
        1,
    ] + seq![8u8, 6] + zeros(46)
}

fn push_all(out: &mut Vec<u8>, s: &[u8])
    ensures
        final(out)@ == old(out)@ + s@,
{
    crate::bytes::append_all(out, s);
}

fn push_be16(out: &mut Vec<u8>, v: u16)
    ensures
        final(out)@ == old(out)@ + be16_bytes(v as int),
{
    out.push((v / 256) as u8);
    out.push((v % 256) as u8);
    assert(out@ =~= old(out)@ + be16_bytes(v as int));
}

fn push_be32(out: &mut Vec<u8>, v: u32)
    ensures
        final(out)@ == old(out)@ + be32_bytes(v),
{
    out.push((v / 16777216) as u8);
    out.push(((v / 65536) % 256) as u8);
    out.push(((v / 256) % 256) as u8);
    out.push((v % 256) as u8);
    assert(out@ =~= old(out)@ + be32_bytes(v));
}

fn push_zeros(out: &mut Vec<u8>, n: usize)
    ensures
        final(out)@ == old(out)@ + zeros(n as nat),
{
    let mut i = 0usize;
    while i < n
        invariant
            i <= n,
            out@ == old(out)@ + zeros(i as nat),
        decreases n - i,
    {
        out.push(0u8);
        i += 1;
        assert(out@ =~= old(out)@ + zeros(i as nat));
    }
}

fn set_be16_at(out: &mut Vec<u8>, off: usize, v: u16)
    requires
        off + 2 <= old(out).len(),
    ensures
        final(out)@ == set_be16(old(out)@, off as int, v),
{
    out.set(off, (v / 256) as u8);
    out.set(off + 1, (v % 256) as u8);
}

fn push_frame_head(out: &mut Vec<u8>, src_mac: [u8; 6], dst_mac: [u8; 6])
    ensures
        final(out)@ == old(out)@ + ipv4_frame_head(src_mac@, dst_mac@),
{
    let ghost start = out@;
    push_zeros(out, VIRTIO_NET_HDR_LEN);
    push_all(out, &dst_mac);
    push_all(out, &src_mac);
    out.push(8u8);
    out.push(0u8);
    assert(out@ =~= start + ipv4_frame_head(src_mac@, dst_mac@));
}

fn push_ipv4_header(out: &mut Vec<u8>, total_len: u16, proto: u8, src: [u8; 4], dst: [u8; 4])
    ensures
        final(out)@ == old(out)@ + ipv4_header(total_len as int, proto, src@, dst@),
{
    let ghost start = out@;
    out.push(0x45u8);
    out.push(0u8);
    push_be16(out, total_len);
    out.push(0u8);
    out.push(0u8);
    out.push(0u8);
    out.push(0u8);
    out.push(64u8);
    out.push(proto);
    out.push(0u8);
    out.push(0u8);
    push_all(out, &src);
    push_all(out, &dst);
    assert(out@ =~= start + ipv4_header(total_len as int, proto, src@, dst@));
}

/// Fills in the IPv4 header checksum of a frame being built.
fn fill_ip_checksum(out: &mut Vec<u8>)
    requires
        old(out).len() >= ip_off() + 20,
    ensures
        final(out)@ == with_ip_checksum(old(out)@),
{
    let ip = VIRTIO_NET_HDR_LEN + ETH_HDR_LEN;
    let c = checksum16_be(vstd::slice::slice_subrange(out.as_slice(), ip, ip + 20));
    set_be16_at(out, ip + 10, c);
}

/// A TCP segment ready to send (see `tcp_frame`), or `None` when it exceeds a transmit
/// buffer.
pub fn build_tcp_frame(
    src_mac: [u8; 6],
    src_ip: [u8; 4],
    src_port: u16,
    dst_mac: [u8; 6],
    dst_ip: [u8; 4],
    dst_port: u16,
    seq_no: u32,
    ack: u32,
    flags: u8,
    payload: &[u8],
) -> (r: Option<Vec<u8>>)
    ensures
        r matches Some(f) ==> f@ == tcp_frame(
            src_mac@,
            src_ip@,
            src_port,
            dst_mac@,
            dst_ip@,
            dst_port,
            seq_no,
            ack,
            flags,
            payload@,
        ),
        r is None <==> payload.len() + TX_FRAME_OVERHEAD > TX_BUF_LEN,
{
    if payload.len() > TX_BUF_LEN - TX_FRAME_OVERHEAD {
        return None;
    }
    let tcp_len = 20 + payload.len();
    let mut out: Vec<u8> = Vec::new();
    push_frame_head(&mut out, src_mac, dst_mac);
    push_ipv4_header(&mut out, (20 + tcp_len) as u16, 6, src_ip, dst_ip);
    push_be16(&mut out, src_port);
    push_be16(&mut out, dst_port);
    push_be32(&mut out, seq_no);
    push_be32(&mut out, ack);
    out.push(0x50u8);
    out.push(flags);
    push_be16(&mut out, 16384);
    push_zeros(&mut out, 4);
    push_all(&mut out, payload);
    let ghost raw = out@;
    assert(raw =~= ipv4_frame_head(src_mac@, dst_mac@) + ipv4_header(20 + tcp_len, 6, src_ip@, dst_ip@)
        + be16_bytes(src_port as int) + be16_bytes(dst_port as int) + be32_bytes(seq_no)
        + be32_bytes(ack) + seq![0x50u8, flags] + be16_bytes(16384) + seq![0u8, 0, 0, 0] + payload@);
    let ip = VIRTIO_NET_HDR_LEN + ETH_HDR_LEN;
    let tc = checksum16_tcp(src_ip, dst_ip, vstd::slice::slice_subrange(out.as_slice(), ip + 20, ip + 20 + tcp_len));
    fill_ip_checksum(&mut out);
    set_be16_at(&mut out, ip + 36, tc);
    Some(out)
}

/// A UDP datagram ready to send (see `udp_frame`), or `None` when it exceeds a transmit
/// buffer.
pub fn build_udp_frame(
    src_mac: [u8; 6],
    src_ip: [u8; 4],
    src_port: u16,
    dst_mac: [u8; 6],
    dst_ip: [u8; 4],
    dst_port: u16,
    payload: &[u8],
) -> (r: Option<Vec<u8>>)
    ensures
        r matches Some(f) ==> f@ == udp_frame(src_mac@, src_ip@, src_port, dst_mac@, dst_ip@, dst_port, payload@),
        r is None <==> payload.len() + 52 > TX_BUF_LEN,
{
    if payload.len() > TX_BUF_LEN - 52 {
        return None;
    }
    let udp_len = 8 + payload.len();
    let mut out: Vec<u8> = Vec::new();
    push_frame_head(&mut out, src_mac, dst_mac);
    push_ipv4_header(&mut out, (20 + udp_len) as u16, 17, src_ip, dst_ip);
    push_be16(&mut out, src_port);
    push_be16(&mut out, dst_port);
    push_be16(&mut out, udp_len as u16);
    out.push(0u8);
    out.push(0u8);
    push_all(&mut out, payload);
    assert(out@ =~= ipv4_frame_head(src_mac@, dst_mac@) + ipv4_header(20 + udp_len, 17, src_ip@, dst_ip@)
        + be16_bytes(src_port as int) + be16_bytes(dst_port as int) + be16_bytes(udp_len as int)
        + seq![0u8, 0] + payload@);
    fill_ip_checksum(&mut out);
    Some(out)
}

/// An ICMP echo request ready to send (see `icmp_echo_frame`).
pub fn build_icmp_echo_frame(src_mac: [u8; 6], src_ip: [u8; 4], dst_mac: [u8; 6], dst_ip: [u8; 4]) -> (r: Vec<u8>)
    ensures
        r@ == icmp_echo_frame(src_mac@, src_ip@, dst_mac@, dst_ip@),
{
    let mut out: Vec<u8> = Vec::new();
    push_frame_head(&mut out, src_mac, dst_mac);
    push_ipv4_header(&mut out, 34, 1, src_ip, dst_ip);
    let body: &[u8] = &[8u8, 0, 0, 0, 0x12, 0x34, 0, 1, 109, 105, 110, 105, 111, 115];
    push_all(&mut out, body);
    assert(out@ =~= ipv4_frame_head(src_mac@, dst_mac@) + ipv4_header(34, 1, src_ip@, dst_ip@) + seq![
        8u8,
        0,
        0,
        0,
        0x12,
        0x34,
        0,
        1,
    ] + echo_payload());
    let ghost raw = out@;
    let ip = VIRTIO_NET_HDR_LEN + ETH_HDR_LEN;
    let ec = checksum16_be(vstd::slice::slice_subrange(out.as_slice(), ip + 20, ip + 34));
    fill_ip_checksum(&mut out);
    set_be16_at(&mut out, ip + 22, ec);
    out
}

/// A broadcast ARP request ready to send (see `arp_request_frame`).
pub fn build_arp_request(src_mac: [u8; 6], src_ip: [u8; 4], target_ip: [u8; 4]) -> (r: Vec<u8>)
    ensures
        r@ == arp_request_frame(src_mac@, src_ip@, target_ip@),
        r.len() == VIRTIO_NET_HDR_LEN + ETH_HDR_LEN + ARP_PKT_LEN,
{
    let mut out: Vec<u8> = Vec::new();
    push_zeros(&mut out, VIRTIO_NET_HDR_LEN);
    let bcast: &[u8] = &[0xffu8, 0xff, 0xff, 0xff, 0xff, 0xff];
    push_all(&mut out, bcast);
    push_all(&mut out, &src_mac);
    out.push(8u8);
    out.push(6u8);
    let fixed: &[u8] = &[0u8, 1, 8, 0, 6, 4, 0, 1];
    push_all(&mut out, fixed);
    push_all(&mut out, &src_mac);
    push_all(&mut out, &src_ip);
    push_zeros(&mut out, 6);
    push_all(&mut out, &target_ip);
    assert(out@ =~= arp_request_frame(src_mac@, src_ip@, target_ip@));
    out
}

/// The broadcast test frame (see `dummy_frame`).
pub fn build_dummy_frame() -> (r: Vec<u8>)
    ensures
        r@ == dummy_frame(),
{
    let mut out: Vec<u8> = Vec::new();
    push_zeros(&mut out, VIRTIO_NET_HDR_LEN);
    let head: &[u8] = &[0xffu8, 0xff, 0xff, 0xff, 0xff, 0xff, 2, 0, 0, 0, 0, 1, 8, 6];
    push_all(&mut out, head);
    push_zeros(&mut out, 46);
    assert(out@ =~= dummy_frame());
    out
}

} // verus!

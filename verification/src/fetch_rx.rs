use vstd::prelude::*;
use crate::dns::dns_parse_response;
use crate::dns::spec_dns_parse_response;
use crate::dns::DnsReply;
use crate::fetch::FETCH_ARP;
use crate::fetch::FETCH_DNS;
use crate::fetch::FETCH_DONE;
use crate::fetch::FETCH_HTTP;
use crate::fetch::FETCH_SOCKS_CONNECT;
use crate::fetch::FETCH_SOCKS_HELLO;
use crate::fetch::FETCH_SYN;
use crate::fetch::FETCH_TLS_HANDSHAKE;
use crate::fetch::FETCH_TLS_HTTP;
use crate::fetch::FETCH_TLS_READ;
use crate::fetch_engine::FetchEngine;
use crate::fetch_engine::DNS_BUF_LEN;
use crate::fetch_engine::DNS_QUERY_ID;
use crate::fetch_engine::FETCH_CLOCK_LIMIT;
use crate::net::TcpInfo;
use crate::net::UdpInfo;
use crate::tls::advance;
use crate::tls::push_seq;
use crate::tls::seq_after;
use crate::tls::RxModel;
use crate::tls::TlsRx;

verus! {

/// The port DNS answers come from, and the local port the queries are sent from.
pub const DNS_SERVER_PORT: u16 = 53;
pub const DNS_CLIENT_PORT: u16 = 53000;

// ---------------------------------------------------------------------------
// The receive side of the fetch connection
// ---------------------------------------------------------------------------

/// The acknowledgement number the fetch connection sends (the next byte expected from
/// the peer) and whether its handshake completed.
#[derive(Clone, Copy)]
pub struct TcpLink {
    pub ack: u32,
    pub established: bool,
}

impl TcpLink {
    /// A connection that has received nothing.
    pub fn new() -> (r: Self)
        ensures
            r.ack == 0,
            !r.established,
    {
        TcpLink { ack: 0, established: false }
    }
}

/// What the runtime does with a received segment, in this order: hand bytes
/// `[feed_start, feed_start + feed_len)` of the frame to the HTTP parser; send a bare ACK
/// for each number in `acks`, with the engine's sequence number; send an ACK through the
/// TLS connection when `tls_ack`; set up TLS over the connection when `configure_tls`
/// (then report with `on_tls_configured`); record `fail` as the fetch's error.
pub struct RxOutcome {
    pub feed_start: usize,
    pub feed_len: usize,
    pub acks: Vec<u32>,
    pub tls_ack: bool,
    pub configure_tls: bool,
    pub fail: Option<&'static [u8]>,
}

pub struct RxView {
    pub feed_start: usize,
    pub feed_len: usize,
    pub acks: Seq<u32>,
    pub tls_ack: bool,
    pub configure_tls: bool,
    pub fail: Option<Seq<u8>>,
}

impl View for RxOutcome {
    type V = RxView;

    open spec fn view(&self) -> RxView {
        RxView {
            feed_start: self.feed_start,
            feed_len: self.feed_len,
            acks: self.acks@,
            tls_ack: self.tls_ack,
            configure_tls: self.configure_tls,
            fail: match self.fail {
                Some(f) => Some(f@),
                None => None,
            },
        }
    }
}

pub open spec fn no_rx() -> RxView {
    RxView { feed_start: 0, feed_len: 0, acks: Seq::empty(), tls_ack: false, configure_tls: false, fail: None }
}

/// The segment belongs to the fetch connection.
pub open spec fn seg_matches(m: FetchEngine, s: TcpInfo) -> bool {
    s.src_ip@ == m.dst_ip@ && s.src_port == m.dst_port && s.dst_port == m.tcp_src_port
}

fn same_ip(a: [u8; 4], b: [u8; 4]) -> (r: bool)
    ensures
        r == (a@ == b@),
{
    let r = a[0] == b[0] && a[1] == b[1] && a[2] == b[2] && a[3] == b[3];
    if r {
        assert(a@ =~= b@);
    }
    r
}

/// `a` lies ahead of `b` in sequence space (by less than half of it).
pub open spec fn seq_ahead(a: u32, b: u32) -> bool {
    let d = vstd::wrapping::u32_specs::wrapping_sub(a, b);
    0 < d && d < 0x8000_0000
}

/// `a` lies behind `b` in sequence space.
pub open spec fn seq_behind(a: u32, b: u32) -> bool {
    vstd::wrapping::u32_specs::wrapping_sub(a, b) >= 0x8000_0000
}

pub open spec fn handshake_rejected() -> Seq<u8> {
    seq![112u8, 114, 111, 120, 121, 32, 104, 97, 110, 100, 115, 104, 97, 107, 101, 32, 114, 101, 106, 101, 99, 116, 101, 100]
}

pub open spec fn connect_rejected() -> Seq<u8> {
    seq![112u8, 114, 111, 120, 121, 32, 99, 111, 110, 110, 101, 99, 116, 32, 114, 101, 106, 101, 99, 116, 101, 100]
}

pub open spec fn tls_configure_failed() -> Seq<u8> {
    seq![116u8, 108, 115, 32, 99, 111, 110, 102, 105, 103, 117, 114, 101, 32, 102, 97, 105, 108, 101, 100]
}

/// Waiting for the handshake answer: a SYN+ACK completes the connection. The ACK goes out
/// unless the transmit ring still holds the previous packet; then the proxy greeting, TLS
/// or the request follows.
#[verifier::opaque]
pub open spec fn sp_rx_syn(m: FetchEngine, l: TcpLink, s: TcpInfo, https: bool, now: u64, tx_now: u16) -> (FetchEngine, TcpLink, RxView) {
    if s.flags & 0x12u8 != 0x12u8 {
        (m, l, no_rx())
    } else {
        let ack = seq_after(s.seq, 1);
        let busy = m.tx_inflight && tx_now == m.tx_used;
        let m1 = FetchEngine {
            seq: seq_after(m.seq, 1),
            ack_sent: !busy,
            tx_used: if busy { m.tx_used } else { tx_now },
            tx_inflight: true,
            http_sent: false,
            http_retry: 0,
            got_resp: false,
            next_ms: (now + 50) as u64,
            ..m
        };
        let l1 = TcpLink { ack, established: true };
        let acks = if busy { Seq::empty() } else { seq![ack] };
        if m.proxy {
            (FetchEngine { state: FETCH_SOCKS_HELLO, retry: 0, socks_sent: false, ..m1 }, l1, RxView { acks, ..no_rx() })
        } else if https {
            (m1, l1, RxView { acks, configure_tls: true, ..no_rx() })
        } else {
            (FetchEngine { state: FETCH_HTTP, ..m1 }, l1, RxView { acks, ..no_rx() })
        }
    }
}

/// The proxy's answer to the greeting: version 5 without authentication moves on to the
/// connect request; anything else ends the fetch.
#[verifier::opaque]
pub open spec fn sp_rx_socks_hello(m: FetchEngine, l: TcpLink, s: TcpInfo, frame: Seq<u8>) -> (FetchEngine, TcpLink, RxView) {
    if s.payload_len < 2 {
        (m, l, no_rx())
    } else {
        let ack = seq_after(s.seq, s.payload_len as nat);
        let l1 = TcpLink { ack, ..l };
        if frame[s.payload_off as int] == 5 && frame[s.payload_off + 1] == 0 {
            (
                FetchEngine { state: FETCH_SOCKS_CONNECT, retry: 0, next_ms: 0, socks_sent: false, ..m },
                l1,
                RxView { acks: seq![ack], ..no_rx() },
            )
        } else {
            (FetchEngine { state: FETCH_DONE, ..m }, l1, RxView { acks: seq![ack], fail: Some(handshake_rejected()), ..no_rx() })
        }
    }
}

/// The proxy's answer to the connect request: success leads to TLS or the request;
/// anything else ends the fetch.
#[verifier::opaque]
pub open spec fn sp_rx_socks_connect(m: FetchEngine, l: TcpLink, s: TcpInfo, frame: Seq<u8>, https: bool) -> (FetchEngine, TcpLink, RxView) {
    if s.payload_len < 5 {
        (m, l, no_rx())
    } else {
        let ack = seq_after(s.seq, s.payload_len as nat);
        let l1 = TcpLink { ack, ..l };
        if frame[s.payload_off as int] == 5 && frame[s.payload_off + 1] == 0 {
            if https {
                (m, l1, RxView { acks: seq![ack], configure_tls: true, ..no_rx() })
            } else {
                (FetchEngine { state: FETCH_HTTP, ..m }, l1, RxView { acks: seq![ack], ..no_rx() })
            }
        } else {
            (FetchEngine { state: FETCH_DONE, ..m }, l1, RxView { acks: seq![ack], fail: Some(connect_rejected()), ..no_rx() })
        }
    }
}

/// The part of a segment's payload not received before: all of it when it starts at the
/// expected byte, none when it starts ahead (it is dropped), the tail past the expected
/// byte when it starts behind.
pub open spec fn fresh_part(s: TcpInfo, expected: u32) -> (usize, usize) {
    let len = s.payload_len;
    let off = s.payload_off;
    if len == 0 || seq_ahead(s.seq, expected) {
        (off, 0)
    } else if s.seq == expected {
        (off, len)
    } else {
        let ov = vstd::wrapping::u32_specs::wrapping_sub(expected, s.seq) as usize;
        if ov >= len {
            (off, 0)
        } else {
            ((off + ov) as usize, (len - ov) as usize)
        }
    }
}

/// Response bytes over plain TCP: the new part goes to the parser and is acknowledged;
/// a FIN is acknowledged and ends the fetch.
#[verifier::opaque]
pub open spec fn sp_rx_http(m: FetchEngine, l: TcpLink, s: TcpInfo) -> (FetchEngine, TcpLink, RxView) {
    let len = s.payload_len;
    let (fs, fl) = fresh_part(s, l.ack);
    let ack1 = if len > 0 && fl != 0 { seq_after(s.seq, len as nat) } else { l.ack };
    let acks1 = if len > 0 { seq![ack1] } else { Seq::empty() };
    if s.flags & 1u8 != 0 {
        let fin_ack = seq_after(seq_after(s.seq, len as nat), 1);
        let ack2 = if seq_ahead(fin_ack, ack1) { fin_ack } else { ack1 };
        (
            FetchEngine { state: FETCH_DONE, ..m },
            TcpLink { ack: ack2, ..l },
            RxView { feed_start: fs, feed_len: fl, acks: acks1.push(ack2), ..no_rx() },
        )
    } else {
        (m, TcpLink { ack: ack1, ..l }, RxView { feed_start: fs, feed_len: fl, acks: acks1, ..no_rx() })
    }
}

/// Response bytes that start at the expected byte all go to the parser, and the
/// connection acknowledges up to their end.
pub proof fn lemma_http_in_order(m: FetchEngine, l: TcpLink, s: TcpInfo)
    requires
        s.seq == l.ack,
        s.payload_len > 0,
        s.flags & 1u8 == 0,
    ensures
        ({
            let (m1, l1, v) = sp_rx_http(m, l, s);
            &&& m1 == m
            &&& v.feed_start == s.payload_off && v.feed_len == s.payload_len
            &&& l1.ack == seq_after(s.seq, s.payload_len as nat)
            &&& v.acks == seq![l1.ack]
        }),
{
    reveal(sp_rx_http);
}

/// A segment whose bytes all came before feeds nothing and is answered with the
/// acknowledgement already sent.
pub proof fn lemma_http_duplicate(m: FetchEngine, l: TcpLink, s: TcpInfo)
    requires
        seq_behind(s.seq, l.ack),
        vstd::wrapping::u32_specs::wrapping_sub(l.ack, s.seq) >= s.payload_len,
        s.payload_len > 0,
        s.flags & 1u8 == 0,
    ensures
        ({
            let (m1, l1, v) = sp_rx_http(m, l, s);
            &&& m1 == m
            &&& v.feed_len == 0
            &&& l1 == l
            &&& v.acks == seq![l.ack]
        }),
{
    reveal(sp_rx_http);
}

/// A FIN from the server ends a plain-HTTP fetch.
pub proof fn lemma_http_fin_ends(m: FetchEngine, l: TcpLink, s: TcpInfo)
    requires
        s.flags & 1u8 != 0,
    ensures
        sp_rx_http(m, l, s).0.state == FETCH_DONE,
        sp_rx_http(m, l, s).2.acks.len() >= 1,
{
    reveal(sp_rx_http);
}

/// A segment of the TLS connection: its payload goes to the ordered stream; a FIN at the
/// expected byte (or right after this payload) is acknowledged by moving past it. An ACK
/// is due for any payload, any FIN and any progress.
pub open spec fn sp_tls_segment(tm: RxModel, seq: u32, fin: bool, d: Seq<u8>) -> (RxModel, bool) {
    let expected = tm.1;
    let (m1, adv) = push_seq(tm, seq, d);
    if fin && (seq == m1.1 || (d.len() > 0 && seq == expected)) {
        ((m1.0, seq_after(m1.1, 1), m1.2), true)
    } else {
        (m1, d.len() > 0 || fin || adv)
    }
}

pub open spec fn tls_state(state: u8) -> bool {
    state == FETCH_TLS_HANDSHAKE || state == FETCH_TLS_HTTP || state == FETCH_TLS_READ
}

/// A received TCP segment, by the step the fetch is at; segments of other connections,
/// and segments in other steps, change nothing.
pub open spec fn sp_rx_tcp(
    m: FetchEngine,
    l: TcpLink,
    tm: RxModel,
    s: TcpInfo,
    frame: Seq<u8>,
    https: bool,
    now: u64,
    tx_now: u16,
) -> (FetchEngine, TcpLink, RxModel, RxView) {
    if !seg_matches(m, s) {
        (m, l, tm, no_rx())
    } else if m.state == FETCH_SYN {
        let (a, b, v) = sp_rx_syn(m, l, s, https, now, tx_now);
        (a, b, tm, v)
    } else if m.state == FETCH_SOCKS_HELLO {
        let (a, b, v) = sp_rx_socks_hello(m, l, s, frame);
        (a, b, tm, v)
    } else if m.state == FETCH_SOCKS_CONNECT {
        let (a, b, v) = sp_rx_socks_connect(m, l, s, frame, https);
        (a, b, tm, v)
    } else if m.state == FETCH_HTTP {
        let (a, b, v) = sp_rx_http(m, l, s);
        (a, b, tm, v)
    } else if tls_state(m.state) {
        let (tm1, send) = sp_tls_segment(
            tm,
            s.seq,
            s.flags & 1u8 != 0,
            frame.subrange(s.payload_off as int, s.payload_off + s.payload_len),
        );
        (m, l, tm1, RxView { tls_ack: send, ..no_rx() })
    } else {
        (m, l, tm, no_rx())
    }
}

fn quiet() -> (r: RxOutcome)
    ensures
        r@ == no_rx(),
{
    RxOutcome { feed_start: 0, feed_len: 0, acks: Vec::new(), tls_ack: false, configure_tls: false, fail: None }
}

fn with_acks(acks: Vec<u32>) -> (r: RxOutcome)
    ensures
        r@ == (RxView { acks: acks@, ..no_rx() }),
{
    RxOutcome { feed_start: 0, feed_len: 0, acks, tls_ack: false, configure_tls: false, fail: None }
}

fn one_ack(ack: u32) -> (r: Vec<u32>)
    ensures
        r@ == seq![ack],
{
    let mut v: Vec<u32> = Vec::new();
    v.push(ack);
    v
}

fn rx_syn(m: &mut FetchEngine, l: &mut TcpLink, s: &TcpInfo, https: bool, now: u64, tx_now: u16) -> (r: RxOutcome)
    requires
        now < FETCH_CLOCK_LIMIT,
    ensures
        (*final(m), *final(l), r@) == sp_rx_syn(*old(m), *old(l), *s, https, now, tx_now),
        r.feed_start == 0 && r.feed_len == 0,
{
    reveal(sp_rx_syn);
    if s.flags & 0x12u8 != 0x12u8 {
        return quiet();
    }
    let ack = advance(s.seq, 1);
    m.seq = advance(m.seq, 1);
    let busy = m.tx_inflight && tx_now == m.tx_used;
    let mut acks: Vec<u32> = Vec::new();
    if !busy {
        acks.push(ack);
        m.tx_used = tx_now;
        m.ack_sent = true;
    } else {
        m.ack_sent = false;
    }
    m.tx_inflight = true;
    l.ack = ack;
    l.established = true;
    m.http_sent = false;
    m.http_retry = 0;
    m.got_resp = false;
    m.next_ms = now + 50;
    assert(acks@ =~= (if busy { Seq::empty() } else { seq![ack] }));
    if m.proxy {
        m.state = FETCH_SOCKS_HELLO;
        m.retry = 0;
        m.socks_sent = false;
        return with_acks(acks);
    }
    if https {
        return RxOutcome { feed_start: 0, feed_len: 0, acks, tls_ack: false, configure_tls: true, fail: None };
    }
    m.state = FETCH_HTTP;
    with_acks(acks)
}

fn rx_socks_hello(m: &mut FetchEngine, l: &mut TcpLink, s: &TcpInfo, frame: &[u8]) -> (r: RxOutcome)
    requires
        s.payload_off + s.payload_len <= frame.len(),
    ensures
        (*final(m), *final(l), r@) == sp_rx_socks_hello(*old(m), *old(l), *s, frame@),
        r.feed_start == 0 && r.feed_len == 0,
{
    reveal(sp_rx_socks_hello);
    if s.payload_len < 2 {
        return quiet();
    }
    let ack = advance(s.seq, s.payload_len);
    *l = TcpLink { ack, ..*l };
    let v = frame[s.payload_off];
    let method = frame[s.payload_off + 1];
    if v == 5u8 && method == 0u8 {
        *m = FetchEngine { state: FETCH_SOCKS_CONNECT, retry: 0, next_ms: 0, socks_sent: false, ..*m };
        with_acks(one_ack(ack))
    } else {
        *m = FetchEngine { state: FETCH_DONE, ..*m };
        let reason: &'static [u8] = &[112u8, 114, 111, 120, 121, 32, 104, 97, 110, 100, 115, 104, 97, 107, 101, 32, 114, 101, 106, 101, 99, 116, 101, 100];
        assert(reason@ =~= handshake_rejected());
        RxOutcome { feed_start: 0, feed_len: 0, acks: one_ack(ack), tls_ack: false, configure_tls: false, fail: Some(reason) }
    }
}

fn rx_socks_connect(m: &mut FetchEngine, l: &mut TcpLink, s: &TcpInfo, frame: &[u8], https: bool) -> (r: RxOutcome)
    requires
        s.payload_off + s.payload_len <= frame.len(),
    ensures
        (*final(m), *final(l), r@) == sp_rx_socks_connect(*old(m), *old(l), *s, frame@, https),
        r.feed_start == 0 && r.feed_len == 0,
{
    reveal(sp_rx_socks_connect);
    if s.payload_len < 5 {
        return quiet();
    }
    let ack = advance(s.seq, s.payload_len);
    *l = TcpLink { ack, ..*l };
    let v = frame[s.payload_off];
    let rep = frame[s.payload_off + 1];
    if v == 5u8 && rep == 0u8 {
        if https {
            RxOutcome { feed_start: 0, feed_len: 0, acks: one_ack(ack), tls_ack: false, configure_tls: true, fail: None }
        } else {
            *m = FetchEngine { state: FETCH_HTTP, ..*m };
            with_acks(one_ack(ack))
        }
    } else {
        *m = FetchEngine { state: FETCH_DONE, ..*m };
        let reason: &'static [u8] = &[112u8, 114, 111, 120, 121, 32, 99, 111, 110, 110, 101, 99, 116, 32, 114, 101, 106, 101, 99, 116, 101, 100];
        assert(reason@ =~= connect_rejected());
        RxOutcome { feed_start: 0, feed_len: 0, acks: one_ack(ack), tls_ack: false, configure_tls: false, fail: Some(reason) }
    }
}

fn fresh_part_exec(s: &TcpInfo, expected: u32) -> (r: (usize, usize))
    requires
        s.payload_off + s.payload_len <= usize::MAX,
    ensures
        r == fresh_part(*s, expected),
        r.0 + r.1 <= s.payload_off + s.payload_len,
{
    let len = s.payload_len;
    let off = s.payload_off;
    if len == 0 {
        return (off, 0);
    }
    let d = s.seq.wrapping_sub(expected);
    if 0 < d && d < 0x8000_0000u32 {
        return (off, 0);
    }
    if s.seq == expected {
        return (off, len);
    }
    let ov = expected.wrapping_sub(s.seq) as usize;
    if ov >= len {
        (off, 0)
    } else {
        (off + ov, len - ov)
    }
}

fn rx_http(m: &mut FetchEngine, l: &mut TcpLink, s: &TcpInfo) -> (r: RxOutcome)
    requires
        s.payload_off + s.payload_len <= usize::MAX,
    ensures
        (*final(m), *final(l), r@) == sp_rx_http(*old(m), *old(l), *s),
        r.feed_start + r.feed_len <= s.payload_off + s.payload_len,
{
    reveal(sp_rx_http);
    let len = s.payload_len;
    let (fs, fl) = fresh_part_exec(s, l.ack);
    let ack1 = if len > 0 && fl != 0 {
        advance(s.seq, len)
    } else {
        l.ack
    };
    let mut acks: Vec<u32> = Vec::new();
    if len > 0 {
        acks.push(ack1);
    }
    assert(acks@ =~= (if len > 0 { seq![ack1] } else { Seq::empty() }));
    if s.flags & 1u8 != 0 {
        let fin_ack = advance(advance(s.seq, len), 1);
        let d = fin_ack.wrapping_sub(ack1);
        let ack2 = if 0 < d && d < 0x8000_0000u32 {
            fin_ack
        } else {
            ack1
        };
        acks.push(ack2);
        *l = TcpLink { ack: ack2, ..*l };
        *m = FetchEngine { state: FETCH_DONE, ..*m };
        RxOutcome { feed_start: fs, feed_len: fl, acks, tls_ack: false, configure_tls: false, fail: None }
    } else {
        *l = TcpLink { ack: ack1, ..*l };
        RxOutcome { feed_start: fs, feed_len: fl, acks, tls_ack: false, configure_tls: false, fail: None }
    }
}

/// Hands a segment of the TLS connection to `tls` (see `sp_tls_segment`); returns whether
/// an ACK is due.
pub fn tls_segment(tls: &mut TlsRx, seq: u32, fin: bool, data: &[u8]) -> (send_ack: bool)
    requires
        old(tls).wf(),
    ensures
        final(tls).wf(),
        (final(tls).model(), send_ack) == sp_tls_segment(old(tls).model(), seq, fin, data@),
{
    let expected = tls.expected_ack();
    let mut advanced = false;
    if data.len() > 0 {
        advanced = tls.push_rx_payload_seq(seq, data);
    } else {
        assert(push_seq(old(tls).model(), seq, data@) == (old(tls).model(), false));
    }
    if fin {
        let cur = tls.expected_ack();
        if seq == cur || (data.len() > 0 && seq == expected) {
            tls.update_ack(advance(cur, 1));
            advanced = true;
        }
    }
    data.len() > 0 || fin || advanced
}

/// A received TCP segment (see `sp_rx_tcp`): `frame` holds the received frame, `https`
/// whether the fetch uses TLS, `now` the clock and `tx_now` the transmit ring's used index.
pub fn on_tcp_segment(
    m: &mut FetchEngine,
    l: &mut TcpLink,
    tls: &mut TlsRx,
    s: &TcpInfo,
    frame: &[u8],
    https: bool,
    now: u64,
    tx_now: u16,
) -> (r: RxOutcome)
    requires
        now < FETCH_CLOCK_LIMIT,
        s.payload_off + s.payload_len <= frame.len(),
        old(tls).wf(),
    ensures
        final(tls).wf(),
        (*final(m), *final(l), final(tls).model(), r@) == sp_rx_tcp(*old(m), *old(l), old(tls).model(), *s, frame@, https, now, tx_now),
        r.feed_start + r.feed_len <= frame.len(),
{
    if !(same_ip(s.src_ip, m.dst_ip) && s.src_port == m.dst_port && s.dst_port == m.tcp_src_port) {
        return quiet();
    }
    let state = m.state;
    if state == FETCH_SYN {
        rx_syn(m, l, s, https, now, tx_now)
    } else if state == FETCH_SOCKS_HELLO {
        rx_socks_hello(m, l, s, frame)
    } else if state == FETCH_SOCKS_CONNECT {
        rx_socks_connect(m, l, s, frame, https)
    } else if state == FETCH_HTTP {
        rx_http(m, l, s)
    } else if state == FETCH_TLS_HANDSHAKE || state == FETCH_TLS_HTTP || state == FETCH_TLS_READ {
        let data = vstd::slice::slice_subrange(frame, s.payload_off, s.payload_off + s.payload_len);
        let send = tls_segment(tls, s.seq, s.flags & 1u8 != 0, data);
        RxOutcome { feed_start: 0, feed_len: 0, acks: Vec::new(), tls_ack: send, configure_tls: false, fail: None }
    } else {
        quiet()
    }
}

/// After TLS was set up over the connection: the handshake starts, or the fetch ends with
/// `tls configure failed`.
pub fn on_tls_configured(m: &mut FetchEngine, ok: bool) -> (r: Option<&'static [u8]>)
    ensures
        ok ==> r is None && *final(m) == (FetchEngine { state: FETCH_TLS_HANDSHAKE, ..*old(m) }),
        !ok ==> (r matches Some(x) && x@ == tls_configure_failed()),
        !ok ==> *final(m) == (FetchEngine { state: FETCH_DONE, ..*old(m) }),
{
    if ok {
        m.state = FETCH_TLS_HANDSHAKE;
        None
    } else {
        m.state = FETCH_DONE;
        let reason: &'static [u8] = &[116u8, 108, 115, 32, 99, 111, 110, 102, 105, 103, 117, 114, 101, 32, 102, 97, 105, 108, 101, 100];
        assert(reason@ =~= tls_configure_failed());
        Some(reason)
    }
}

// ---------------------------------------------------------------------------
// Address resolution
// ---------------------------------------------------------------------------

/// While the fetch resolves the gateway, an ARP answer made the gateway (`gw`) and the DNS
/// server (`dns`) known, as far as they are: a known gateway moves the fetch on to the
/// proxy, the known address, or a DNS query.
pub open spec fn sp_arp_learned(m: FetchEngine, gw: Option<[u8; 6]>, dns: Option<[u8; 6]>) -> FetchEngine {
    if m.state != FETCH_ARP {
        m
    } else {
        let m1 = match gw {
            Some(g) => FetchEngine {
                gw_mac: g,
                have_gw: true,
                state: if m.proxy || m.dst_ip@ != seq![0u8, 0, 0, 0] {
                    FETCH_SYN
                } else {
                    FETCH_DNS
                },
                retry: 0,
                next_ms: 0,
                ..m
            },
            None => m,
        };
        match dns {
            Some(d) => FetchEngine { dns_mac: d, have_dns: true, ..m1 },
            None => m1,
        }
    }
}

pub fn on_arp_learned(m: &mut FetchEngine, gw: Option<[u8; 6]>, dns: Option<[u8; 6]>)
    ensures
        *final(m) == sp_arp_learned(*old(m), gw, dns),
{
    if m.state != FETCH_ARP {
        return;
    }
    if let Some(g) = gw {
        m.gw_mac = g;
        m.have_gw = true;
        let zero: [u8; 4] = [0u8, 0, 0, 0];
        assert(zero@ =~= seq![0u8, 0, 0, 0]);
        m.state = if m.proxy || !same_ip(m.dst_ip, zero) {
            FETCH_SYN
        } else {
            FETCH_DNS
        };
        m.retry = 0;
        m.next_ms = 0;
    }
    if let Some(d) = dns {
        m.dns_mac = d;
        m.have_dns = true;
    }
}

/// A UDP datagram while the fetch resolves the host: one from the DNS port to the query
/// port is the answer (its first `DNS_BUF_LEN` bytes are read); an address moves the fetch
/// on to the connection. `None` for any other datagram, which stays for other uses.
pub open spec fn sp_dns_datagram(m: FetchEngine, u: UdpInfo, frame: Seq<u8>) -> (FetchEngine, Option<DnsReply>) {
    if m.state != FETCH_DNS || u.src_port != DNS_SERVER_PORT || u.dst_port != DNS_CLIENT_PORT {
        (m, None)
    } else {
        let n = if u.payload_len < DNS_BUF_LEN { u.payload_len as int } else { DNS_BUF_LEN as int };
        let rep = spec_dns_parse_response(frame.subrange(u.payload_off as int, u.payload_off + n), n, DNS_QUERY_ID);
        match rep {
            DnsReply::Address(ip) => (FetchEngine { dst_ip: ip, retry: 0, next_ms: 0, state: FETCH_SYN, ..m }, Some(rep)),
            _ => (m, Some(rep)),
        }
    }
}

pub fn on_dns_datagram(m: &mut FetchEngine, u: &UdpInfo, frame: &[u8]) -> (r: Option<DnsReply>)
    requires
        u.payload_off + u.payload_len <= frame.len(),
    ensures
        (*final(m), r) == sp_dns_datagram(*old(m), *u, frame@),
{
    if m.state != FETCH_DNS || u.src_port != DNS_SERVER_PORT || u.dst_port != DNS_CLIENT_PORT {
        return None;
    }
    let n = if u.payload_len < DNS_BUF_LEN {
        u.payload_len
    } else {
        DNS_BUF_LEN
    };
    let payload = vstd::slice::slice_subrange(frame, u.payload_off, u.payload_off + n);
    let rep = dns_parse_response(payload, n, DNS_QUERY_ID);
    if let DnsReply::Address(ip) = rep {
        m.dst_ip = ip;
        m.retry = 0;
        m.next_ms = 0;
        m.state = FETCH_SYN;
    }
    Some(rep)
}

// ---------------------------------------------------------------------------
// Keeping and closing the connection
// ---------------------------------------------------------------------------

/// How long a proxied or TLS connection's end holds back the next one, in milliseconds.
pub const TRANSPORT_SUCCESS_COOLDOWN_MS: u64 = 800;

/// What happens to the connection when a fetch ends.
#[derive(Clone, Copy, PartialEq, Eq, Structural)]
pub enum CloseAction {
    /// Keep it open for the next model request.
    Keep,
    /// Nothing is open: only forget the TLS state.
    Forget,
    /// Send TLS close-notify and a FIN+ACK, then forget the TLS state.
    Close,
}

/// A finished model response can leave its connection open: the request went to the model,
/// the connection is up and not closed by the peer, and the response had a known, non-zero
/// length, arrived whole and left nothing unread in TLS.
pub open spec fn spec_can_keep_open(
    enabled: bool,
    model_request: bool,
    established: bool,
    peer_closed: bool,
    chunked: bool,
    content_len: u64,
    complete: bool,
    tls_pending: bool,
) -> bool {
    enabled && model_request && established && !peer_closed && !chunked && content_len != 0 && complete && !tls_pending
}

pub fn can_keep_open(
    enabled: bool,
    model_request: bool,
    established: bool,
    peer_closed: bool,
    chunked: bool,
    content_len: u64,
    complete: bool,
    tls_pending: bool,
) -> (r: bool)
    ensures
        r == spec_can_keep_open(enabled, model_request, established, peer_closed, chunked, content_len, complete, tls_pending),
{
    enabled && model_request && established && !peer_closed && !chunked && content_len != 0 && complete && !tls_pending
}

/// When a fetch ends: a proxied or TLS connection holds back the next transfer until
/// `now + TRANSPORT_SUCCESS_COOLDOWN_MS` at least; a connection that can stay open is
/// kept; one that is not up (or has no peer address) is only forgotten; any other is
/// closed. Returns the new hold-back time and the action.
pub open spec fn spec_close_plan(
    m: FetchEngine,
    l: TcpLink,
    https: bool,
    now: u64,
    cooldown_until: u64,
    keep: bool,
) -> (u64, CloseAction) {
    let until = if m.proxy || https {
        let u = crate::http::sat_add(now, TRANSPORT_SUCCESS_COOLDOWN_MS as int);
        if u > cooldown_until { u } else { cooldown_until }
    } else {
        cooldown_until
    };
    let action = if keep {
        CloseAction::Keep
    } else if !l.established || m.dst_ip@ == seq![0u8, 0, 0, 0] || m.dst_port == 0 {
        CloseAction::Forget
    } else {
        CloseAction::Close
    };
    (until, action)
}

pub fn close_plan(m: &FetchEngine, l: &TcpLink, https: bool, now: u64, cooldown_until: u64, keep: bool) -> (r: (u64, CloseAction))
    ensures
        r == spec_close_plan(*m, *l, https, now, cooldown_until, keep),
{
    let mut until = cooldown_until;
    if m.proxy || https {
        let u = now.saturating_add(TRANSPORT_SUCCESS_COOLDOWN_MS);
        if u > until {
            until = u;
        }
    }
    let zero: [u8; 4] = [0u8, 0, 0, 0];
    assert(zero@ =~= seq![0u8, 0, 0, 0]);
    let action = if keep {
        CloseAction::Keep
    } else if !l.established || same_ip(m.dst_ip, zero) || m.dst_port == 0 {
        CloseAction::Forget
    } else {
        CloseAction::Close
    };
    (until, action)
}

/// The connection left open can carry a new request to `domain`/`path`: reuse is enabled,
/// the request goes to the model's endpoint over HTTPS on 443, and the open connection is
/// the model connection through the proxy at the gateway on `proxy_port`, up and not
/// closed by the peer.
pub open spec fn spec_reuse_candidate(
    m: FetchEngine,
    l: TcpLink,
    enabled: bool,
    reusable: bool,
    prev_https: bool,
    proxy_port: u16,
    domain: Seq<u8>,
    path: Seq<u8>,
    https: bool,
    port: u16,
) -> bool {
    &&& enabled
    &&& https && port == 443 && crate::openai::eq_ignore_case(domain, crate::openai::spec_responses_host())
        && path == crate::openai::spec_responses_path()
    &&& reusable && l.established && prev_https && m.proxy && !m.peer_closed
    &&& m.dst_ip@ == seq![10u8, 0, 2, 2] && m.dst_port == proxy_port && m.target_port == 443
}

pub fn reuse_candidate(
    m: &FetchEngine,
    l: &TcpLink,
    enabled: bool,
    reusable: bool,
    prev_https: bool,
    proxy_port: u16,
    domain: &[u8],
    path: &[u8],
    https: bool,
    port: u16,
) -> (r: bool)
    ensures
        r == spec_reuse_candidate(*m, *l, enabled, reusable, prev_https, proxy_port, domain@, path@, https, port),
{
    if !enabled || !crate::openai::is_responses_target(domain, path, https, port) {
        return false;
    }
    let gw: [u8; 4] = [10u8, 0, 2, 2];
    assert(gw@ =~= seq![10u8, 0, 2, 2]);
    reusable && l.established && prev_https && m.proxy && !m.peer_closed && same_ip(m.dst_ip, gw)
        && m.dst_port == proxy_port && m.target_port == 443
}

// ---------------------------------------------------------------------------
// Answering a host on the local network
// ---------------------------------------------------------------------------

/// The gateway's or DNS server's hardware address, when `ip` is theirs and it is known.
pub open spec fn neighbor_mac(ip: [u8; 4], m: FetchEngine) -> Option<[u8; 6]> {
    if ip@ == seq![10u8, 0, 2, 2] && m.have_gw {
        Some(m.gw_mac)
    } else if ip@ == seq![10u8, 0, 2, 3] && m.have_dns {
        Some(m.dns_mac)
    } else {
        None
    }
}

pub open spec fn peer_hit(ip: [u8; 4], peer: Option<([u8; 4], [u8; 6])>) -> bool {
    match peer {
        Some(p) => p.0@ == ip@,
        None => false,
    }
}

/// The hardware address to send to `ip` at: the host that asked for the fetch (`peer`),
/// else the ARP cache's live entry at `now`, else the gateway's or DNS server's known
/// address.
pub fn peer_mac_for(
    ip: [u8; 4],
    peer: Option<([u8; 4], [u8; 6])>,
    arp: &mut crate::cache::ArpCache,
    now: u64,
    m: &FetchEngine,
) -> (r: Option<[u8; 6]>)
    requires
        old(arp).wf(),
    ensures
        final(arp).wf(),
        final(arp).next() == old(arp).next(),
        peer_hit(ip, peer) ==> (peer matches Some(p) && r == Some(p.1)),
        peer_hit(ip, peer) ==> final(arp).slots() == old(arp).slots(),
        !peer_hit(ip, peer) ==> final(arp).slots() == crate::cache::lookup_from(
            old(arp).slots(),
            crate::cache::ip_seq(ip),
            now,
            0,
        ).0,
        !peer_hit(ip, peer) ==> match crate::cache::lookup_from(old(arp).slots(), crate::cache::ip_seq(ip), now, 0).1 {
            Some(v) => (r matches Some(x) && crate::cache::mac_seq(x) == v),
            None => r == neighbor_mac(ip, *m),
        },
{
    if let Some((pip, pmac)) = peer {
        if same_ip(pip, ip) {
            return Some(pmac);
        }
    }
    match arp.lookup_arp_peer(ip, now) {
        Some(mac) => Some(mac),
        None => {
            let gw: [u8; 4] = [10u8, 0, 2, 2];
            let dns: [u8; 4] = [10u8, 0, 2, 3];
            assert(gw@ =~= seq![10u8, 0, 2, 2]);
            assert(dns@ =~= seq![10u8, 0, 2, 3]);
            if same_ip(ip, gw) && m.have_gw {
                Some(m.gw_mac)
            } else if same_ip(ip, dns) && m.have_dns {
                Some(m.dns_mac)
            } else {
                None
            }
        },
    }
}

} // verus!

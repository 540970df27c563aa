use vstd::prelude::*;
use crate::fetch::FETCH_ARP;
use crate::fetch::FETCH_DNS;
use crate::fetch::FETCH_DONE;
use crate::fetch::FETCH_HTTP;
use crate::fetch::FETCH_IDLE;
use crate::fetch::FETCH_SOCKS_CONNECT;
use crate::fetch::FETCH_SOCKS_HELLO;
use crate::fetch::FETCH_SYN;
use crate::fetch::FETCH_TLS_HANDSHAKE;
use crate::fetch::FETCH_TLS_HTTP;
use crate::fetch::FETCH_TLS_READ;

verus! {

/// Tries of one step before a new round starts.
pub const FETCH_MAX_RETRY: u8 = 5;
/// Rounds (from address resolution on) before a fetch gives up.
pub const FETCH_MAX_ROUNDS: u8 = 2;
/// How long one round may take.
pub const FETCH_ROUND_MS: u64 = 30000;
/// Clock values above this are out of range for the fetch timers.
pub const FETCH_CLOCK_LIMIT: u64 = 0xffff_ffff_ffff_0000;
pub const DNS_QUERY_ID: u16 = 0x1234;
pub const DNS_BUF_LEN: usize = 1536;

/// The progress of one fetch: which step it is at and the timers, counters and flags that
/// decide when to send what.
#[derive(Clone, Copy)]
pub struct FetchEngine {
    pub state: u8,
    pub deadline_ms: u64,
    pub rounds: u8,
    pub retry: u8,
    pub next_ms: u64,
    pub http_sent: bool,
    pub http_retry: u8,
    pub ack_sent: bool,
    pub got_resp: bool,
    pub socks_sent: bool,
    pub proxy: bool,
    pub have_gw: bool,
    pub have_dns: bool,
    pub gw_mac: [u8; 6],
    pub dns_mac: [u8; 6],
    pub dst_ip: [u8; 4],
    pub target_port: u16,
    pub dst_port: u16,
    pub tcp_src_port: u16,
    pub tx_inflight: bool,
    pub tx_used: u16,
    pub seq: u32,
    pub http_seq: u32,
    pub http_len: u16,
    pub tls_http_len: usize,
    pub tls_http_off: usize,
    pub reply_sent: bool,
    pub reply_pending: bool,
    pub suppress_ok: bool,
    pub src_port: u16,
    pub peer_closed: bool,
}

/// What the runtime has to do for the fetch on this tick.
pub enum TickAction {
    Nothing,
    /// The fetch failed with `reason` (kept only when none was recorded, if
    /// `only_if_empty`); the engine is done.
    Fail { reason: &'static [u8], only_if_empty: bool },
    /// Send an ARP request for `target`.
    SendArp { target: [u8; 4] },
    /// Send `query` to the DNS server.
    SendDnsQuery { query: Vec<u8> },
    /// Send a TCP SYN.
    SendSyn,
    /// Send the SOCKS5 greeting with sequence number `seq`.
    SendSocksHello { seq: u32 },
    /// Send the SOCKS5 connect `request` with sequence number `seq`.
    SendSocksConnect { request: Vec<u8>, seq: u32 },
    /// Acknowledge the connection; then report the transmit index (`note_tx_used`).
    SendAck,
    /// Send the first `len` bytes of the HTTP request with sequence number `seq`; then
    /// report the transmit index (`note_tx_used`).
    SendHttp { seq: u32, len: usize },
    /// Run one TLS handshake step and report it (`on_tls_handshake`).
    TlsHandshake,
    /// Write request bytes `off..len` over TLS and report it (`on_tls_write`).
    TlsWrite { off: usize, len: usize },
    /// Read over TLS and report it (`on_tls_read`).
    TlsRead,
}

pub enum TickView {
    Nothing,
    Fail { reason: Seq<u8>, only_if_empty: bool },
    SendArp { target: [u8; 4] },
    SendDnsQuery { query: Seq<u8> },
    SendSyn,
    SendSocksHello { seq: u32 },
    SendSocksConnect { request: Seq<u8>, seq: u32 },
    SendAck,
    SendHttp { seq: u32, len: usize },
    TlsHandshake,
    TlsWrite { off: usize, len: usize },
    TlsRead,
}

impl View for TickAction {
    type V = TickView;

    open spec fn view(&self) -> TickView {
        match self {
            TickAction::Nothing => TickView::Nothing,
            TickAction::Fail { reason, only_if_empty } => TickView::Fail { reason: reason@, only_if_empty: *only_if_empty },
            TickAction::SendArp { target } => TickView::SendArp { target: *target },
            TickAction::SendDnsQuery { query } => TickView::SendDnsQuery { query: query@ },
            TickAction::SendSyn => TickView::SendSyn,
            TickAction::SendSocksHello { seq } => TickView::SendSocksHello { seq: *seq },
            TickAction::SendSocksConnect { request, seq } => TickView::SendSocksConnect { request: request@, seq: *seq },
            TickAction::SendAck => TickView::SendAck,
            TickAction::SendHttp { seq, len } => TickView::SendHttp { seq: *seq, len: *len },
            TickAction::TlsHandshake => TickView::TlsHandshake,
            TickAction::TlsWrite { off, len } => TickView::TlsWrite { off: *off, len: *len },
            TickAction::TlsRead => TickView::TlsRead,
        }
    }
}

pub open spec fn gateway_ip() -> [u8; 4] {
    [10u8, 0, 2, 2]
}

pub open spec fn dns_server_ip() -> [u8; 4] {
    [10u8, 0, 2, 3]
}

pub open spec fn wrap_inc(x: u8) -> u8 {
    if x == 255 {
        0
    } else {
        (x + 1) as u8
    }
}

/// A new round: counters and flags cleared, back to address resolution (or straight to
/// the proxy).
pub open spec fn next_round(m: FetchEngine) -> FetchEngine {
    FetchEngine {
        rounds: wrap_inc(m.rounds),
        retry: 0,
        next_ms: 0,
        http_sent: false,
        http_retry: 0,
        ack_sent: false,
        got_resp: false,
        socks_sent: false,
        dst_ip: if m.proxy {
            gateway_ip()
        } else {
            [0u8, 0, 0, 0]
        },
        state: if m.proxy {
            FETCH_SYN
        } else if m.have_gw {
            FETCH_DNS
        } else {
            FETCH_ARP
        },
        ..m
    }
}

/// The engine gives up with `reason`.
pub open spec fn failed(m: FetchEngine, reason: Seq<u8>, only_if_empty: bool) -> (FetchEngine, TickView) {
    (FetchEngine { state: FETCH_DONE, ..m }, TickView::Fail { reason, only_if_empty })
}

/// A step ran out of tries: another round while rounds are left, else failure.
pub open spec fn exhausted(m: FetchEngine, reason: Seq<u8>) -> (FetchEngine, TickView) {
    if m.rounds < FETCH_MAX_ROUNDS {
        (next_round(m), TickView::Nothing)
    } else {
        failed(m, reason, true)
    }
}

/// A packet went out at `now`: one more try, the next one after `delay` ms, waiting for
/// the transmit index `tx_idx` to move.
pub open spec fn sent(m: FetchEngine, now: u64, delay: u64, tx_idx: u16) -> FetchEngine {
    FetchEngine { retry: wrap_inc(m.retry), next_ms: (now + delay) as u64, tx_used: tx_idx, tx_inflight: true, ..m }
}

pub open spec fn socks_connect_request(domain: Seq<u8>, port: u16) -> Seq<u8> {
    seq![5u8, 1, 0, 3, domain.len() as u8] + domain + seq![(port / 256) as u8, (port % 256) as u8]
}

#[verifier::opaque]
pub open spec fn sp_tick_arp(m: FetchEngine, now: u64, tx_idx: u16) -> (FetchEngine, TickView) {
    if m.have_gw {
        (FetchEngine { state: if m.proxy { FETCH_SYN } else { FETCH_DNS }, ..m }, TickView::Nothing)
    } else if now < m.next_ms {
        (m, TickView::Nothing)
    } else if m.retry >= FETCH_MAX_RETRY {
        exhausted(m, seq![103u8, 97, 116, 101, 119, 97, 121, 32, 97, 114, 112, 32, 116, 105, 109, 101, 100, 32, 111, 117, 116])
    } else {
        (sent(m, now, 200, tx_idx), TickView::SendArp { target: gateway_ip() })
    }
}

#[verifier::opaque]
pub open spec fn sp_tick_dns(m: FetchEngine, now: u64, tx_idx: u16, domain: Seq<u8>) -> (FetchEngine, TickView) {
    if now < m.next_ms {
        (m, TickView::Nothing)
    } else if m.retry >= FETCH_MAX_RETRY {
        exhausted(m, seq![100u8, 110, 115, 32, 108, 111, 111, 107, 117, 112, 32, 116, 105, 109, 101, 100, 32, 111, 117, 116])
    } else {
        let m1 = if !m.have_dns && m.have_gw {
            FetchEngine { dns_mac: m.gw_mac, have_dns: true, ..m }
        } else {
            m
        };
        if !m1.have_dns {
            (sent(m1, now, 200, tx_idx), TickView::SendArp { target: dns_server_ip() })
        } else {
            match crate::dns::spec_dns_query(domain, DNS_QUERY_ID, DNS_BUF_LEN as int) {
                Some(q) if q.len() != 0 => (sent(m1, now, 2000, tx_idx), TickView::SendDnsQuery { query: q }),
                _ => failed(m1, seq![100u8, 110, 115, 32, 114, 101, 113, 117, 101, 115, 116, 32, 98, 117, 105, 108, 100, 32, 102, 97, 105, 108, 101, 100], false),
            }
        }
    }
}

#[verifier::opaque]
pub open spec fn sp_tick_syn(m: FetchEngine, now: u64, tx_idx: u16) -> (FetchEngine, TickView) {
    if now < m.next_ms {
        (m, TickView::Nothing)
    } else if m.retry >= FETCH_MAX_RETRY {
        exhausted(m, seq![116u8, 99, 112, 32, 99, 111, 110, 110, 101, 99, 116, 32, 116, 105, 109, 101, 100, 32, 111, 117, 116])
    } else {
        (sent(m, now, 2000, tx_idx), TickView::SendSyn)
    }
}

#[verifier::opaque]
pub open spec fn sp_tick_socks(m: FetchEngine, now: u64, tx_idx: u16, domain: Seq<u8>) -> (FetchEngine, TickView) {
    let hello = m.state == FETCH_SOCKS_HELLO;
    if now < m.next_ms {
        (m, TickView::Nothing)
    } else if m.retry >= FETCH_MAX_RETRY {
        failed(m, if hello { seq![112u8, 114, 111, 120, 121, 32, 104, 97, 110, 100, 115, 104, 97, 107, 101, 32, 116, 105, 109, 101, 100, 32, 111, 117, 116] } else { seq![112u8, 114, 111, 120, 121, 32, 99, 111, 110, 110, 101, 99, 116, 32, 116, 105, 109, 101, 100, 32, 111, 117, 116] }, true)
    } else if m.tx_inflight {
        (m, TickView::Nothing)
    } else if hello {
        (
            sent(FetchEngine { seq: ((m.seq as int + 3) % 0x1_0000_0000) as u32, socks_sent: true, ..m }, now, 2000, tx_idx),
            TickView::SendSocksHello { seq: m.seq },
        )
    } else if domain.len() > 255 {
        failed(m, seq![112u8, 114, 111, 120, 121, 32, 114, 101, 113, 117, 101, 115, 116, 32, 104, 111, 115, 116, 32, 116, 111, 111, 32, 108, 111, 110, 103], false)
    } else {
        let req = socks_connect_request(domain, m.target_port);
        (
            sent(FetchEngine { seq: ((m.seq as int + req.len()) % 0x1_0000_0000) as u32, socks_sent: true, ..m }, now, 2000, tx_idx),
            TickView::SendSocksConnect { request: req, seq: m.seq },
        )
    }
}

/// Plain HTTP over the connection: acknowledge, send the request, resend it until a
/// response starts or the tries run out. `req_len` is the length of the request.
#[verifier::opaque]
pub open spec fn sp_tick_http(m: FetchEngine, now: u64, req_len: usize) -> (FetchEngine, TickView) {
    if !m.ack_sent {
        if now < m.next_ms || m.tx_inflight {
            (m, TickView::Nothing)
        } else {
            (FetchEngine { tx_inflight: true, ack_sent: true, next_ms: (now + 50) as u64, ..m }, TickView::SendAck)
        }
    } else if !m.http_sent {
        if now < m.next_ms {
            (m, TickView::Nothing)
        } else if m.http_retry >= FETCH_MAX_RETRY {
            failed(m, seq![104u8, 116, 116, 112, 32, 115, 101, 110, 100, 32, 114, 101, 116, 114, 105, 101, 115, 32, 101, 120, 104, 97, 117, 115, 116, 101, 100], true)
        } else if m.tx_inflight {
            (m, TickView::Nothing)
        } else if req_len == 0 {
            failed(m, seq![104u8, 116, 116, 112, 32, 114, 101, 113, 117, 101, 115, 116, 32, 98, 117, 105, 108, 100, 32, 102, 97, 105, 108, 101, 100], false)
        } else {
            (
                FetchEngine {
                    http_seq: m.seq,
                    http_len: (req_len % 0x10000) as u16,
                    seq: ((m.seq as int + (req_len as int % 0x1_0000_0000)) % 0x1_0000_0000) as u32,
                    http_sent: true,
                    http_retry: wrap_inc(m.http_retry),
                    tx_inflight: true,
                    next_ms: (now + 5000) as u64,
                    got_resp: false,
                    ..m
                },
                TickView::SendHttp { seq: m.seq, len: req_len },
            )
        }
    } else if now < m.next_ms {
        (m, TickView::Nothing)
    } else if m.http_retry >= FETCH_MAX_RETRY {
        failed(m, seq![104u8, 116, 116, 112, 32, 114, 101, 115, 112, 111, 110, 115, 101, 32, 116, 105, 109, 101, 100, 32, 111, 117, 116], true)
    } else if m.tx_inflight {
        (m, TickView::Nothing)
    } else {
        let len: usize = if m.http_len == 0 {
            req_len
        } else {
            m.http_len as usize
        };
        let m1 = if m.http_len == 0 {
            FetchEngine { http_len: (req_len % 0x10000) as u16, ..m }
        } else {
            m
        };
        if len == 0 {
            failed(m1, seq![104u8, 116, 116, 112, 32, 114, 101, 116, 114, 121, 32, 114, 101, 113, 117, 101, 115, 116, 32, 98, 117, 105, 108, 100, 32, 102, 97, 105, 108, 101, 100], false)
        } else {
            (
                FetchEngine { http_retry: wrap_inc(m.http_retry), tx_inflight: true, next_ms: (now + 5000) as u64, ..m1 },
                TickView::SendHttp { seq: m.http_seq, len },
            )
        }
    }
}

#[verifier::opaque]
pub open spec fn sp_tick_tls_http(m: FetchEngine, now: u64, req_len: usize) -> (FetchEngine, TickView) {
    let len = if m.tls_http_len == 0 {
        req_len
    } else {
        m.tls_http_len
    };
    let m1 = FetchEngine { tls_http_len: len, ..m };
    if len == 0 {
        failed(m1, seq![104u8, 116, 116, 112, 115, 32, 114, 101, 113, 117, 101, 115, 116, 32, 98, 117, 105, 108, 100, 32, 102, 97, 105, 108, 101, 100], false)
    } else if m1.tls_http_off >= len {
        (FetchEngine { state: FETCH_TLS_READ, next_ms: (now + 5000) as u64, ..m1 }, TickView::Nothing)
    } else {
        (m1, TickView::TlsWrite { off: m1.tls_http_off, len })
    }
}

#[verifier::opaque]
pub open spec fn sp_tick_tls_read(m: FetchEngine, now: u64, complete: bool) -> (FetchEngine, TickView) {
    if complete || (now > m.next_ms && m.got_resp) {
        (FetchEngine { state: FETCH_DONE, ..m }, TickView::Nothing)
    } else {
        (m, TickView::TlsRead)
    }
}

/// The step-specific part of a tick.
#[verifier::opaque]
pub open spec fn sp_dispatch(m1: FetchEngine, now: u64, tx_idx: u16, domain: Seq<u8>, req_len: usize, complete: bool) -> (FetchEngine, TickView) {
    if m1.state == FETCH_ARP {
        sp_tick_arp(m1, now, tx_idx)
    } else if m1.state == FETCH_DNS {
        sp_tick_dns(m1, now, tx_idx, domain)
    } else if m1.state == FETCH_SYN {
        sp_tick_syn(m1, now, tx_idx)
    } else if m1.state == FETCH_SOCKS_HELLO || m1.state == FETCH_SOCKS_CONNECT {
        sp_tick_socks(m1, now, tx_idx, domain)
    } else if m1.state == FETCH_HTTP {
        sp_tick_http(m1, now, req_len)
    } else if m1.state == FETCH_TLS_HANDSHAKE {
        (m1, TickView::TlsHandshake)
    } else if m1.state == FETCH_TLS_HTTP {
        sp_tick_tls_http(m1, now, req_len)
    } else if m1.state == FETCH_TLS_READ {
        sp_tick_tls_read(m1, now, complete)
    } else {
        (m1, TickView::Nothing)
    }
}

/// One tick of the fetch at time `now`: `tx_idx` is the transmit index of the network
/// device, `domain` the host, `req_len` the length of the request that would be sent and
/// `complete` whether the HTTP response has been read in full.
pub open spec fn sp_fetch_tick(
    m: FetchEngine,
    now: u64,
    tx_idx: u16,
    domain: Seq<u8>,
    req_len: usize,
    complete: bool,
) -> (FetchEngine, TickView) {
    if m.state == FETCH_IDLE {
        (m, TickView::Nothing)
    } else if m.deadline_ms != 0 && now > m.deadline_ms {
        if m.rounds < FETCH_MAX_ROUNDS {
            (FetchEngine { deadline_ms: (now + FETCH_ROUND_MS) as u64, ..next_round(m) }, TickView::Nothing)
        } else {
            failed(m, seq![110u8, 101, 116, 119, 111, 114, 107, 32, 114, 101, 113, 117, 101, 115, 116, 32, 116, 105, 109, 101, 100, 32, 111, 117, 116], true)
        }
    } else {
        let m0 = if m.deadline_ms == 0 {
            FetchEngine { deadline_ms: (now + FETCH_ROUND_MS) as u64, ..m }
        } else {
            m
        };
        if m0.state != FETCH_ARP && !m0.have_gw {
            (FetchEngine { state: FETCH_ARP, ..m0 }, TickView::Nothing)
        } else if m0.tx_inflight && tx_idx == m0.tx_used {
            (m0, TickView::Nothing)
        } else {
            let m1 = if m0.tx_inflight {
                FetchEngine { tx_used: tx_idx, tx_inflight: false, ..m0 }
            } else {
                m0
            };
            sp_dispatch(m1, now, tx_idx, domain, req_len, complete)
        }
    }
}

impl FetchEngine {
    fn next_round(&mut self)
        ensures
            *final(self) == next_round(*old(self)),
    {
        self.rounds = self.rounds.wrapping_add(1);
        self.retry = 0;
        self.next_ms = 0;
        self.http_sent = false;
        self.http_retry = 0;
        self.ack_sent = false;
        self.got_resp = false;
        self.socks_sent = false;
        self.dst_ip = if self.proxy {
            [10u8, 0, 2, 2]
        } else {
            [0u8, 0, 0, 0]
        };
        self.state = if self.proxy {
            FETCH_SYN
        } else if self.have_gw {
            FETCH_DNS
        } else {
            FETCH_ARP
        };
    }

    fn fail(&mut self, reason: &'static [u8], only_if_empty: bool) -> (r: TickAction)
        ensures
            (*final(self), r@) == failed(*old(self), reason@, only_if_empty),
    {
        self.state = FETCH_DONE;
        TickAction::Fail { reason, only_if_empty }
    }

    fn exhausted(&mut self, reason: &'static [u8]) -> (r: TickAction)
        ensures
            (*final(self), r@) == exhausted(*old(self), reason@),
    {
        if self.rounds < FETCH_MAX_ROUNDS {
            self.next_round();
            TickAction::Nothing
        } else {
            self.fail(reason, true)
        }
    }

    fn sent(&mut self, now: u64, delay: u64, tx_idx: u16)
        requires
            now < FETCH_CLOCK_LIMIT,
            delay <= FETCH_ROUND_MS,
        ensures
            *final(self) == sent(*old(self), now, delay, tx_idx),
    {
        self.retry = self.retry.wrapping_add(1);
        self.next_ms = now + delay;
        self.tx_used = tx_idx;
        self.tx_inflight = true;
    }

    fn tick_arp(&mut self, now: u64, tx_idx: u16) -> (r: TickAction)
        requires
            now < FETCH_CLOCK_LIMIT,
        ensures
            (*final(self), r@) == sp_tick_arp(*old(self), now, tx_idx),
    {
        reveal(sp_tick_arp);
        if self.have_gw {
            self.state = if self.proxy {
                FETCH_SYN
            } else {
                FETCH_DNS
            };
            return TickAction::Nothing;
        }
        if now < self.next_ms {
            return TickAction::Nothing;
        }
        if self.retry >= FETCH_MAX_RETRY {
            let reason: &'static [u8] = &[103u8, 97, 116, 101, 119, 97, 121, 32, 97, 114, 112, 32, 116, 105, 109, 101, 100, 32, 111, 117, 116];
            assert(reason@ =~= seq![103u8, 97, 116, 101, 119, 97, 121, 32, 97, 114, 112, 32, 116, 105, 109, 101, 100, 32, 111, 117, 116]);
            return self.exhausted(reason);
        }
        self.sent(now, 200, tx_idx);
        TickAction::SendArp { target: [10u8, 0, 2, 2] }
    }

    fn tick_dns(&mut self, now: u64, tx_idx: u16, domain: &[u8]) -> (r: TickAction)
        requires
            now < FETCH_CLOCK_LIMIT,
        ensures
            (*final(self), r@) == sp_tick_dns(*old(self), now, tx_idx, domain@),
    {
        reveal(sp_tick_dns);
        if now < self.next_ms {
            return TickAction::Nothing;
        }
        if self.retry >= FETCH_MAX_RETRY {
            let reason: &'static [u8] = &[100u8, 110, 115, 32, 108, 111, 111, 107, 117, 112, 32, 116, 105, 109, 101, 100, 32, 111, 117, 116];
            assert(reason@ =~= seq![100u8, 110, 115, 32, 108, 111, 111, 107, 117, 112, 32, 116, 105, 109, 101, 100, 32, 111, 117, 116]);
            return self.exhausted(reason);
        }
        if !self.have_dns && self.have_gw {
            self.dns_mac = self.gw_mac;
            self.have_dns = true;
        }
        if !self.have_dns {
            self.sent(now, 200, tx_idx);
            return TickAction::SendArp { target: [10u8, 0, 2, 3] };
        }
        let query = crate::dns::dns_build_query(domain, DNS_QUERY_ID, DNS_BUF_LEN);
        if query.len() == 0 {
            let reason: &'static [u8] = &[100u8, 110, 115, 32, 114, 101, 113, 117, 101, 115, 116, 32, 98, 117, 105, 108, 100, 32, 102, 97, 105, 108, 101, 100];
            assert(reason@ =~= seq![100u8, 110, 115, 32, 114, 101, 113, 117, 101, 115, 116, 32, 98, 117, 105, 108, 100, 32, 102, 97, 105, 108, 101, 100]);
            return self.fail(reason, false);
        }
        self.sent(now, 2000, tx_idx);
        TickAction::SendDnsQuery { query }
    }

    fn tick_syn(&mut self, now: u64, tx_idx: u16) -> (r: TickAction)
        requires
            now < FETCH_CLOCK_LIMIT,
        ensures
            (*final(self), r@) == sp_tick_syn(*old(self), now, tx_idx),
    {
        reveal(sp_tick_syn);
        if now < self.next_ms {
            return TickAction::Nothing;
        }
        if self.retry >= FETCH_MAX_RETRY {
            let reason: &'static [u8] = &[116u8, 99, 112, 32, 99, 111, 110, 110, 101, 99, 116, 32, 116, 105, 109, 101, 100, 32, 111, 117, 116];
            assert(reason@ =~= seq![116u8, 99, 112, 32, 99, 111, 110, 110, 101, 99, 116, 32, 116, 105, 109, 101, 100, 32, 111, 117, 116]);
            return self.exhausted(reason);
        }
        self.sent(now, 2000, tx_idx);
        TickAction::SendSyn
    }

    fn tick_socks(&mut self, now: u64, tx_idx: u16, domain: &[u8]) -> (r: TickAction)
        requires
            now < FETCH_CLOCK_LIMIT,
        ensures
            (*final(self), r@) == sp_tick_socks(*old(self), now, tx_idx, domain@),
    {
        reveal(sp_tick_socks);
        let hello = self.state == FETCH_SOCKS_HELLO;
        if now < self.next_ms {
            return TickAction::Nothing;
        }
        if self.retry >= FETCH_MAX_RETRY {
            let r1: &'static [u8] = &[112u8, 114, 111, 120, 121, 32, 104, 97, 110, 100, 115, 104, 97, 107, 101, 32, 116, 105, 109, 101, 100, 32, 111, 117, 116];
            let r2: &'static [u8] = &[112u8, 114, 111, 120, 121, 32, 99, 111, 110, 110, 101, 99, 116, 32, 116, 105, 109, 101, 100, 32, 111, 117, 116];
            assert(r1@ =~= seq![112u8, 114, 111, 120, 121, 32, 104, 97, 110, 100, 115, 104, 97, 107, 101, 32, 116, 105, 109, 101, 100, 32, 111, 117, 116]);
            assert(r2@ =~= seq![112u8, 114, 111, 120, 121, 32, 99, 111, 110, 110, 101, 99, 116, 32, 116, 105, 109, 101, 100, 32, 111, 117, 116]);
            return self.fail(if hello { r1 } else { r2 }, true);
        }
        if self.tx_inflight {
            return TickAction::Nothing;
        }
        let seq = self.seq;
        if hello {
            self.seq = self.seq.wrapping_add(3);
            self.socks_sent = true;
            self.sent(now, 2000, tx_idx);
            return TickAction::SendSocksHello { seq };
        }
        if domain.len() > 255 {
            let reason: &'static [u8] = &[112u8, 114, 111, 120, 121, 32, 114, 101, 113, 117, 101, 115, 116, 32, 104, 111, 115, 116, 32, 116, 111, 111, 32, 108, 111, 110, 103];
            assert(reason@ =~= seq![112u8, 114, 111, 120, 121, 32, 114, 101, 113, 117, 101, 115, 116, 32, 104, 111, 115, 116, 32, 116, 111, 111, 32, 108, 111, 110, 103]);
            return self.fail(reason, false);
        }
        let mut req: Vec<u8> = Vec::new();
        req.push(5u8);
        req.push(1u8);
        req.push(0u8);
        req.push(3u8);
        req.push(domain.len() as u8);
        crate::bytes::append_all(&mut req, domain);
        let port = self.target_port;
        req.push((port / 256) as u8);
        req.push((port % 256) as u8);
        assert(req@ =~= socks_connect_request(domain@, port));
        self.seq = self.seq.wrapping_add(req.len() as u32);
        self.socks_sent = true;
        self.sent(now, 2000, tx_idx);
        TickAction::SendSocksConnect { request: req, seq }
    }

    fn low32(n: usize) -> (r: u32)
        ensures
            r == (n as int % 0x1_0000_0000) as u32,
    {
        let r = (n as u64 % 0x1_0000_0000u64) as u32;
        r
    }

    #[verifier::truncate]
    fn short_len(n: usize) -> (r: u16)
        ensures
            r == (n % 0x10000) as u16,
    {
        let r = (n % 0x10000) as u16;
        r
    }

    fn tick_http(&mut self, now: u64, req_len: usize) -> (r: TickAction)
        requires
            now < FETCH_CLOCK_LIMIT,
        ensures
            (*final(self), r@) == sp_tick_http(*old(self), now, req_len),
    {
        reveal(sp_tick_http);
        if !self.ack_sent {
            if now < self.next_ms || self.tx_inflight {
                return TickAction::Nothing;
            }
            self.tx_inflight = true;
            self.ack_sent = true;
            self.next_ms = now + 50;
            return TickAction::SendAck;
        }
        if !self.http_sent {
            if now < self.next_ms {
                return TickAction::Nothing;
            }
            if self.http_retry >= FETCH_MAX_RETRY {
                let reason: &'static [u8] = &[104u8, 116, 116, 112, 32, 115, 101, 110, 100, 32, 114, 101, 116, 114, 105, 101, 115, 32, 101, 120, 104, 97, 117, 115, 116, 101, 100];
                assert(reason@ =~= seq![104u8, 116, 116, 112, 32, 115, 101, 110, 100, 32, 114, 101, 116, 114, 105, 101, 115, 32, 101, 120, 104, 97, 117, 115, 116, 101, 100]);
                return self.fail(reason, true);
            }
            if self.tx_inflight {
                return TickAction::Nothing;
            }
            if req_len == 0 {
                let reason: &'static [u8] = &[104u8, 116, 116, 112, 32, 114, 101, 113, 117, 101, 115, 116, 32, 98, 117, 105, 108, 100, 32, 102, 97, 105, 108, 101, 100];
                assert(reason@ =~= seq![104u8, 116, 116, 112, 32, 114, 101, 113, 117, 101, 115, 116, 32, 98, 117, 105, 108, 100, 32, 102, 97, 105, 108, 101, 100]);
                return self.fail(reason, false);
            }
            let seq = self.seq;
            self.http_seq = seq;
            self.http_len = Self::short_len(req_len);
            let add = Self::low32(req_len);
            self.seq = self.seq.wrapping_add(add);
            self.http_sent = true;
            self.http_retry = self.http_retry.wrapping_add(1);
            self.tx_inflight = true;
            self.next_ms = now + 5000;
            self.got_resp = false;
            return TickAction::SendHttp { seq, len: req_len };
        }
        if now < self.next_ms {
            return TickAction::Nothing;
        }
        if self.http_retry >= FETCH_MAX_RETRY {
            let reason: &'static [u8] = &[104u8, 116, 116, 112, 32, 114, 101, 115, 112, 111, 110, 115, 101, 32, 116, 105, 109, 101, 100, 32, 111, 117, 116];
            assert(reason@ =~= seq![104u8, 116, 116, 112, 32, 114, 101, 115, 112, 111, 110, 115, 101, 32, 116, 105, 109, 101, 100, 32, 111, 117, 116]);
            return self.fail(reason, true);
        }
        if self.tx_inflight {
            return TickAction::Nothing;
        }
        let mut len = self.http_len as usize;
        if len == 0 {
            len = req_len;
            self.http_len = Self::short_len(req_len);
        }
        if len == 0 {
            let reason: &'static [u8] = &[104u8, 116, 116, 112, 32, 114, 101, 116, 114, 121, 32, 114, 101, 113, 117, 101, 115, 116, 32, 98, 117, 105, 108, 100, 32, 102, 97, 105, 108, 101, 100];
            assert(reason@ =~= seq![104u8, 116, 116, 112, 32, 114, 101, 116, 114, 121, 32, 114, 101, 113, 117, 101, 115, 116, 32, 98, 117, 105, 108, 100, 32, 102, 97, 105, 108, 101, 100]);
            return self.fail(reason, false);
        }
        self.http_retry = self.http_retry.wrapping_add(1);
        self.tx_inflight = true;
        self.next_ms = now + 5000;
        TickAction::SendHttp { seq: self.http_seq, len }
    }

    fn tick_tls_http(&mut self, now: u64, req_len: usize) -> (r: TickAction)
        requires
            now < FETCH_CLOCK_LIMIT,
        ensures
            (*final(self), r@) == sp_tick_tls_http(*old(self), now, req_len),
    {
        reveal(sp_tick_tls_http);
        if self.tls_http_len == 0 {
            self.tls_http_len = req_len;
        }
        let len = self.tls_http_len;
        if len == 0 {
            let reason: &'static [u8] = &[104u8, 116, 116, 112, 115, 32, 114, 101, 113, 117, 101, 115, 116, 32, 98, 117, 105, 108, 100, 32, 102, 97, 105, 108, 101, 100];
            assert(reason@ =~= seq![104u8, 116, 116, 112, 115, 32, 114, 101, 113, 117, 101, 115, 116, 32, 98, 117, 105, 108, 100, 32, 102, 97, 105, 108, 101, 100]);
            return self.fail(reason, false);
        }
        if self.tls_http_off >= len {
            self.state = FETCH_TLS_READ;
            self.next_ms = now + 5000;
            return TickAction::Nothing;
        }
        TickAction::TlsWrite { off: self.tls_http_off, len }
    }

    /// One tick of the fetch (see `sp_fetch_tick`).
    #[verifier::rlimit(80)]
    pub fn fetch_tick(&mut self, now: u64, tx_idx: u16, domain: &[u8], req_len: usize, complete: bool) -> (r: TickAction)
        requires
            now < FETCH_CLOCK_LIMIT,
        ensures
            (*final(self), r@) == sp_fetch_tick(*old(self), now, tx_idx, domain@, req_len, complete),
    {
        if self.state == FETCH_IDLE {
            return TickAction::Nothing;
        }
        if self.deadline_ms != 0 && now > self.deadline_ms {
            if self.rounds < FETCH_MAX_ROUNDS {
                self.next_round();
                self.deadline_ms = now + FETCH_ROUND_MS;
                return TickAction::Nothing;
            }
            let reason: &'static [u8] = &[110u8, 101, 116, 119, 111, 114, 107, 32, 114, 101, 113, 117, 101, 115, 116, 32, 116, 105, 109, 101, 100, 32, 111, 117, 116];
            assert(reason@ =~= seq![110u8, 101, 116, 119, 111, 114, 107, 32, 114, 101, 113, 117, 101, 115, 116, 32, 116, 105, 109, 101, 100, 32, 111, 117, 116]);
            return self.fail(reason, true);
        }
        if self.deadline_ms == 0 {
            self.deadline_ms = now + FETCH_ROUND_MS;
        }
        if self.state != FETCH_ARP && !self.have_gw {
            self.state = FETCH_ARP;
            return TickAction::Nothing;
        }
        if self.tx_inflight {
            if tx_idx == self.tx_used {
                return TickAction::Nothing;
            }
            self.tx_used = tx_idx;
            self.tx_inflight = false;
        }
        self.dispatch(now, tx_idx, domain, req_len, complete)
    }

    fn dispatch(&mut self, now: u64, tx_idx: u16, domain: &[u8], req_len: usize, complete: bool) -> (r: TickAction)
        requires
            now < FETCH_CLOCK_LIMIT,
        ensures
            (*final(self), r@) == sp_dispatch(*old(self), now, tx_idx, domain@, req_len, complete),
    {
        reveal(sp_dispatch);
        let state = self.state;
        if state == FETCH_ARP {
            self.tick_arp(now, tx_idx)
        } else if state == FETCH_DNS {
            self.tick_dns(now, tx_idx, domain)
        } else if state == FETCH_SYN {
            self.tick_syn(now, tx_idx)
        } else if state == FETCH_SOCKS_HELLO || state == FETCH_SOCKS_CONNECT {
            self.tick_socks(now, tx_idx, domain)
        } else if state == FETCH_HTTP {
            self.tick_http(now, req_len)
        } else if state == FETCH_TLS_HANDSHAKE {
            TickAction::TlsHandshake
        } else if state == FETCH_TLS_HTTP {
            self.tick_tls_http(now, req_len)
        } else if state == FETCH_TLS_READ {
            reveal(sp_tick_tls_read);
            if complete || (now > self.next_ms && self.got_resp) {
                self.state = FETCH_DONE;
                TickAction::Nothing
            } else {
                TickAction::TlsRead
            }
        } else {
            TickAction::Nothing
        }
    }

    /// Records the transmit index read right after an acknowledgement or request went out.
    pub fn note_tx_used(&mut self, tx_idx: u16)
        ensures
            *final(self) == (FetchEngine { tx_used: tx_idx, ..*old(self) }),
    {
        self.tx_used = tx_idx;
    }

    /// After a TLS handshake step that returned `ret`: on to the request when done, the
    /// same step again when the library wants to retry, failure otherwise.
    pub fn on_tls_handshake(&mut self, ret: i32) -> (r: TickAction)
        ensures
            ret == 0 ==> r@ == TickView::Nothing && *final(self) == (FetchEngine {
                state: FETCH_TLS_HTTP,
                tls_http_off: 0,
                tls_http_len: 0,
                ..*old(self)
            }),
            ret != 0 && (ret == crate::tls::MBEDTLS_ERR_SSL_WANT_READ || ret == crate::tls::MBEDTLS_ERR_SSL_WANT_WRITE)
                ==> r@ == TickView::Nothing && *final(self) == *old(self),
            ret != 0 && !(ret == crate::tls::MBEDTLS_ERR_SSL_WANT_READ || ret == crate::tls::MBEDTLS_ERR_SSL_WANT_WRITE)
                ==> (*final(self), r@) == failed(*old(self), seq![116u8, 108, 115, 32, 104, 97, 110, 100, 115, 104, 97, 107, 101, 32, 102, 97, 105, 108, 101, 100], false),
    {
        if ret == 0 {
            self.state = FETCH_TLS_HTTP;
            self.tls_http_off = 0;
            self.tls_http_len = 0;
            return TickAction::Nothing;
        }
        if crate::tls::want_retry(ret) {
            return TickAction::Nothing;
        }
        let reason: &'static [u8] = &[116u8, 108, 115, 32, 104, 97, 110, 100, 115, 104, 97, 107, 101, 32, 102, 97, 105, 108, 101, 100];
        assert(reason@ =~= seq![116u8, 108, 115, 32, 104, 97, 110, 100, 115, 104, 97, 107, 101, 32, 102, 97, 105, 108, 101, 100]);
        self.fail(reason, false)
    }

    /// After writing request bytes over TLS returned `ret`: advance by what was written,
    /// write again when the library wants to retry, failure otherwise.
    pub fn on_tls_write(&mut self, ret: i32) -> (r: TickAction)
        requires
            ret > 0 ==> old(self).tls_http_off + ret <= usize::MAX,
        ensures
            ret > 0 ==> r@ == TickView::Nothing && *final(self) == (FetchEngine {
                tls_http_off: (old(self).tls_http_off + ret) as usize,
                ..*old(self)
            }),
            ret <= 0 && (ret == crate::tls::MBEDTLS_ERR_SSL_WANT_READ || ret == crate::tls::MBEDTLS_ERR_SSL_WANT_WRITE)
                ==> r@ == TickView::Nothing && *final(self) == *old(self),
            ret <= 0 && !(ret == crate::tls::MBEDTLS_ERR_SSL_WANT_READ || ret == crate::tls::MBEDTLS_ERR_SSL_WANT_WRITE)
                ==> (*final(self), r@) == failed(*old(self), seq![116u8, 108, 115, 32, 119, 114, 105, 116, 101, 32, 102, 97, 105, 108, 101, 100], false),
    {
        if ret > 0 {
            self.tls_http_off = self.tls_http_off + ret as usize;
            return TickAction::Nothing;
        }
        if crate::tls::want_retry(ret) {
            return TickAction::Nothing;
        }
        let reason: &'static [u8] = &[116u8, 108, 115, 32, 119, 114, 105, 116, 101, 32, 102, 97, 105, 108, 101, 100];
        assert(reason@ =~= seq![116u8, 108, 115, 32, 119, 114, 105, 116, 101, 32, 102, 97, 105, 108, 101, 100]);
        self.fail(reason, false)
    }

    /// After a TLS read at `now` returned `ret`: data keeps the response alive for three
    /// more seconds and asks for a reply to the requester; an orderly close ends the fetch;
    /// a retry request changes nothing; anything else is a failure.
    pub fn on_tls_read(&mut self, ret: i32, now: u64) -> (r: TickAction)
        requires
            now < FETCH_CLOCK_LIMIT,
        ensures
            ret > 0 ==> r@ == TickView::Nothing && *final(self) == (FetchEngine {
                got_resp: true,
                next_ms: (now + 3000) as u64,
                reply_pending: if !old(self).reply_sent && !old(self).suppress_ok && old(self).src_port != 0 {
                    true
                } else {
                    old(self).reply_pending
                },
                ..*old(self)
            }),
            (ret == 0 || ret == crate::tls::MBEDTLS_ERR_SSL_PEER_CLOSE_NOTIFY) ==> r@ == TickView::Nothing
                && *final(self) == (FetchEngine { peer_closed: true, state: FETCH_DONE, ..*old(self) }),
            ret < 0 && ret != crate::tls::MBEDTLS_ERR_SSL_PEER_CLOSE_NOTIFY && (ret == crate::tls::MBEDTLS_ERR_SSL_WANT_READ
                || ret == crate::tls::MBEDTLS_ERR_SSL_WANT_WRITE) ==> r@ == TickView::Nothing && *final(self) == *old(self),
            ret < 0 && ret != crate::tls::MBEDTLS_ERR_SSL_PEER_CLOSE_NOTIFY && !(ret == crate::tls::MBEDTLS_ERR_SSL_WANT_READ
                || ret == crate::tls::MBEDTLS_ERR_SSL_WANT_WRITE) ==> (*final(self), r@) == failed(
                *old(self),
                seq![116u8, 108, 115, 32, 114, 101, 97, 100, 32, 102, 97, 105, 108, 101, 100],
                false,
            ),
    {
        if ret > 0 {
            self.got_resp = true;
            self.next_ms = now + 3000;
            if !self.reply_sent && !self.suppress_ok && self.src_port != 0 {
                self.reply_pending = true;
            }
            return TickAction::Nothing;
        }
        if ret == 0 || crate::tls::is_peer_close(ret) {
            self.peer_closed = true;
            self.state = FETCH_DONE;
            return TickAction::Nothing;
        }
        if crate::tls::want_retry(ret) {
            return TickAction::Nothing;
        }
        let reason: &'static [u8] = &[116u8, 108, 115, 32, 114, 101, 97, 100, 32, 102, 97, 105, 108, 101, 100];
        assert(reason@ =~= seq![116u8, 108, 115, 32, 114, 101, 97, 100, 32, 102, 97, 105, 108, 101, 100]);
        self.fail(reason, false)
    }
}


// ---------------------------------------------------------------------------
// Laws of the fetch engine
// ---------------------------------------------------------------------------

/// Counters stay within their limits.
pub open spec fn counters_bounded(m: FetchEngine) -> bool {
    &&& m.rounds <= FETCH_MAX_ROUNDS
    &&& m.retry <= FETCH_MAX_RETRY
    &&& m.http_retry <= FETCH_MAX_RETRY
}

/// A step result that keeps the counters within limits and is done whenever it fails.
pub open spec fn sound_step(r: (FetchEngine, TickView)) -> bool {
    &&& counters_bounded(r.0)
    &&& r.1 is Fail ==> r.0.state == FETCH_DONE
}

proof fn lemma_steps_sound(m: FetchEngine, now: u64, tx_idx: u16, domain: Seq<u8>, req_len: usize, complete: bool)
    requires
        counters_bounded(m),
    ensures
        sound_step(sp_tick_arp(m, now, tx_idx)),
        sound_step(sp_tick_dns(m, now, tx_idx, domain)),
        sound_step(sp_tick_syn(m, now, tx_idx)),
        sound_step(sp_tick_socks(m, now, tx_idx, domain)),
        sound_step(sp_tick_http(m, now, req_len)),
        sound_step(sp_tick_tls_http(m, now, req_len)),
        sound_step(sp_tick_tls_read(m, now, complete)),
{
    assert(sound_step(sp_tick_arp(m, now, tx_idx))) by {
        reveal(sp_tick_arp);
    }
    assert(sound_step(sp_tick_dns(m, now, tx_idx, domain))) by {
        reveal(sp_tick_dns);
    }
    assert(sound_step(sp_tick_syn(m, now, tx_idx))) by {
        reveal(sp_tick_syn);
    }
    assert(sound_step(sp_tick_socks(m, now, tx_idx, domain))) by {
        reveal(sp_tick_socks);
    }
    assert(sound_step(sp_tick_http(m, now, req_len))) by {
        reveal(sp_tick_http);
    }
    assert(sound_step(sp_tick_tls_http(m, now, req_len))) by {
        reveal(sp_tick_tls_http);
    }
    assert(sound_step(sp_tick_tls_read(m, now, complete))) by {
        reveal(sp_tick_tls_read);
    }
}

proof fn lemma_dispatch_sound(m: FetchEngine, now: u64, tx_idx: u16, domain: Seq<u8>, req_len: usize, complete: bool)
    requires
        counters_bounded(m),
    ensures
        sound_step(sp_dispatch(m, now, tx_idx, domain, req_len, complete)),
{
    lemma_steps_sound(m, now, tx_idx, domain, req_len, complete);
    reveal(sp_dispatch);
}

proof fn lemma_tick_sound(m: FetchEngine, now: u64, tx_idx: u16, domain: Seq<u8>, req_len: usize, complete: bool)
    requires
        counters_bounded(m),
    ensures
        sound_step(sp_fetch_tick(m, now, tx_idx, domain, req_len, complete)),
{
    let m0 = if m.deadline_ms == 0 {
        FetchEngine { deadline_ms: (now + FETCH_ROUND_MS) as u64, ..m }
    } else {
        m
    };
    let m1 = if m0.tx_inflight {
        FetchEngine { tx_used: tx_idx, tx_inflight: false, ..m0 }
    } else {
        m0
    };
    lemma_dispatch_sound(m1, now, tx_idx, domain, req_len, complete);
}

/// A fetch never runs more than `FETCH_MAX_ROUNDS` rounds, nor more than
/// `FETCH_MAX_RETRY` tries of one step in a round: every tick keeps the counters within
/// these limits.
pub proof fn lemma_tick_keeps_limits(m: FetchEngine, now: u64, tx_idx: u16, domain: Seq<u8>, req_len: usize, complete: bool)
    requires
        counters_bounded(m),
    ensures
        counters_bounded(sp_fetch_tick(m, now, tx_idx, domain, req_len, complete).0),
{
    lemma_tick_sound(m, now, tx_idx, domain, req_len, complete);
}

/// An idle engine stays idle and asks for nothing.
pub proof fn lemma_idle_stays_idle(m: FetchEngine, now: u64, tx_idx: u16, domain: Seq<u8>, req_len: usize, complete: bool)
    requires
        m.state == FETCH_IDLE,
    ensures
        sp_fetch_tick(m, now, tx_idx, domain, req_len, complete) == (m, TickView::Nothing),
{
}

/// A tick that reports a failure leaves the engine done.
pub proof fn lemma_fail_means_done(m: FetchEngine, now: u64, tx_idx: u16, domain: Seq<u8>, req_len: usize, complete: bool)
    requires
        counters_bounded(m),
    ensures
        sp_fetch_tick(m, now, tx_idx, domain, req_len, complete).1 is Fail ==> sp_fetch_tick(
            m,
            now,
            tx_idx,
            domain,
            req_len,
            complete,
        ).0.state == FETCH_DONE,
{
    lemma_tick_sound(m, now, tx_idx, domain, req_len, complete);
}


// ---------------------------------------------------------------------------
// Starting a fetch
// ---------------------------------------------------------------------------

pub const FETCH_DOMAIN_MAX: usize = 256;
pub const FETCH_PATH_MAX: usize = 256;
pub const FETCH_INITIAL_SEQ: u32 = 0x1000;
pub const FIRST_EPHEMERAL_PORT: u16 = 40000;

/// What a new fetch is asked for, with what the runtime knows when it starts: the ARP
/// cache entries of the gateway and the DNS server, a cached address of the host, the
/// transport pause, the next local TCP port and the transmit index.
#[derive(Clone, Copy)]
pub struct FetchStart {
    pub domain_len: usize,
    pub path_len: usize,
    pub https: bool,
    pub target_port: u16,
    pub fixed_ip: Option<[u8; 4]>,
    pub src_port: u16,
    pub proxy_socks5: bool,
    pub proxy_port: u16,
    pub reuse_candidate: bool,
    pub openai_reusable: bool,
    pub gw_lookup: Option<[u8; 6]>,
    pub dns_lookup: Option<[u8; 6]>,
    pub cached_dns_ip: Option<[u8; 4]>,
    pub transport_cooldown_until_ms: u64,
    pub next_tcp_port: u16,
    pub tx_idx: u16,
    pub now: u64,
}

/// How a fetch starts: the engine, whether the kept model connection must be closed
/// first, whether that connection is reused, and the next free local TCP port.
#[derive(Clone, Copy)]
pub struct StartPlan {
    pub engine: FetchEngine,
    pub close_transport: bool,
    pub reused: bool,
    pub next_tcp_port: u16,
}

/// The engine with the per-fetch counters, flags and TLS progress cleared.
pub open spec fn fresh(m: FetchEngine, q: FetchStart) -> FetchEngine {
    FetchEngine {
        retry: 0,
        next_ms: 0,
        got_resp: false,
        tx_used: q.tx_idx,
        tx_inflight: false,
        http_sent: false,
        http_retry: 0,
        http_seq: 0,
        http_len: 0,
        deadline_ms: 0,
        rounds: 0,
        reply_sent: false,
        reply_pending: false,
        suppress_ok: false,
        peer_closed: false,
        tls_http_len: 0,
        tls_http_off: 0,
        src_port: q.src_port,
        target_port: q.target_port,
        ..m
    }
}

pub open spec fn sp_start(prev: FetchEngine, q: FetchStart) -> Result<StartPlan, Seq<u8>> {
    if q.domain_len == 0 {
        Err(seq![117u8, 114, 108, 32, 104, 111, 115, 116, 32, 109, 105, 115, 115, 105, 110, 103])
    } else if q.domain_len > FETCH_DOMAIN_MAX {
        Err(seq![117u8, 114, 108, 32, 104, 111, 115, 116, 32, 116, 111, 111, 32, 108, 111, 110, 103])
    } else if q.path_len > FETCH_PATH_MAX {
        Err(seq![117u8, 114, 108, 32, 112, 97, 116, 104, 32, 116, 111, 111, 32, 108, 111, 110, 103])
    } else {
        let use_proxy = q.proxy_socks5 && q.https;
        let reuse = use_proxy && q.reuse_candidate;
        let close = !reuse && q.openai_reusable;
        if reuse {
            Ok(StartPlan {
                engine: FetchEngine {
                    proxy: true,
                    dst_port: q.proxy_port,
                    ack_sent: true,
                    state: FETCH_TLS_HTTP,
                    ..fresh(prev, q)
                },
                close_transport: close,
                reused: true,
                next_tcp_port: q.next_tcp_port,
            })
        } else {
            let have_gw0 = q.gw_lookup is Some;
            let gw0 = match q.gw_lookup {
                Some(g) => g,
                None => prev.gw_mac,
            };
            let have_dns = q.dns_lookup is Some || have_gw0;
            let dns_mac = match q.dns_lookup {
                Some(d) => d,
                None => if have_gw0 {
                    gw0
                } else {
                    prev.dns_mac
                },
            };
            let have_gw = have_gw0 || (use_proxy && prev.have_gw);
            let cached = if !use_proxy && q.fixed_ip is None {
                q.cached_dns_ip
            } else {
                None
            };
            let next = if q.next_tcp_port == 0xffff {
                FIRST_EPHEMERAL_PORT
            } else {
                (q.next_tcp_port + 1) as u16
            };
            let base = FetchEngine {
                tcp_src_port: q.next_tcp_port,
                socks_sent: false,
                proxy: use_proxy,
                dst_port: if use_proxy {
                    q.proxy_port
                } else {
                    q.target_port
                },
                have_gw,
                gw_mac: gw0,
                have_dns,
                dns_mac,
                seq: FETCH_INITIAL_SEQ,
                ack_sent: false,
                next_ms: if q.transport_cooldown_until_ms > q.now {
                    q.transport_cooldown_until_ms
                } else {
                    0
                },
                ..fresh(prev, q)
            };
            let engine = match (q.fixed_ip, cached) {
                (Some(ip), _) if !use_proxy => FetchEngine { dst_ip: ip, state: FETCH_SYN, ..base },
                (_, Some(ip)) => FetchEngine {
                    dst_ip: ip,
                    state: if have_gw {
                        FETCH_SYN
                    } else {
                        FETCH_ARP
                    },
                    ..base
                },
                _ => if use_proxy {
                    FetchEngine { dst_ip: gateway_ip(), state: FETCH_SYN, ..base }
                } else {
                    FetchEngine {
                        state: if have_gw {
                            FETCH_DNS
                        } else {
                            FETCH_ARP
                        },
                        ..base
                    }
                },
            };
            Ok(StartPlan { engine, close_transport: close, reused: false, next_tcp_port: next })
        }
    }
}

/// A fetch that does not reuse the kept connection takes the next local port and moves
/// the counter on (back to the first ephemeral port after the last), and starts by
/// resolving the gateway, asking DNS or connecting; with an address given and no proxy it
/// connects to that address at once. A reused connection goes straight to the request.
pub proof fn lemma_start_steps(prev: FetchEngine, q: FetchStart)
    ensures
        sp_start(prev, q) matches Ok(p) ==> {
            &&& p.reused ==> p.engine.state == FETCH_TLS_HTTP && p.next_tcp_port == q.next_tcp_port
            &&& !p.reused ==> {
                &&& p.engine.tcp_src_port == q.next_tcp_port
                &&& p.next_tcp_port == (if q.next_tcp_port == 0xffff {
                    FIRST_EPHEMERAL_PORT
                } else {
                    (q.next_tcp_port + 1) as u16
                })
                &&& p.engine.state == FETCH_ARP || p.engine.state == FETCH_DNS || p.engine.state == FETCH_SYN
                &&& q.fixed_ip matches Some(ip) ==> (!(q.proxy_socks5 && q.https) ==> p.engine.dst_ip == ip
                    && p.engine.state == FETCH_SYN)
            }
            &&& p.engine.src_port == q.src_port && p.engine.target_port == q.target_port
        },
{
}

/// A fetch starts with its counters at zero, so within their limits.
pub proof fn lemma_start_bounded(prev: FetchEngine, q: FetchStart)
    ensures
        sp_start(prev, q) matches Ok(p) ==> counters_bounded(p.engine),
{
}

impl FetchEngine {
    /// An engine with nothing to do.
    pub fn new() -> (r: Self)
        ensures
            r.state == FETCH_IDLE,
            !r.have_gw,
            !r.have_dns,
    {
        FetchEngine {
            state: FETCH_IDLE,
            deadline_ms: 0,
            rounds: 0,
            retry: 0,
            next_ms: 0,
            http_sent: false,
            http_retry: 0,
            ack_sent: false,
            got_resp: false,
            socks_sent: false,
            proxy: false,
            have_gw: false,
            have_dns: false,
            gw_mac: [0u8; 6],
            dns_mac: [0u8; 6],
            dst_ip: [0u8; 4],
            target_port: 0,
            dst_port: 0,
            tcp_src_port: 0,
            tx_inflight: false,
            tx_used: 0,
            seq: 0,
            http_seq: 0,
            http_len: 0,
            tls_http_len: 0,
            tls_http_off: 0,
            reply_sent: false,
            reply_pending: false,
            suppress_ok: false,
            src_port: 0,
            peer_closed: false,
        }
    }

    /// How the fetch described by `q` starts after the fetch `prev` (see `sp_start`):
    /// refused when the host is missing or the host or path is too long; otherwise the
    /// kept model connection is reused when the proxy serves HTTPS and it fits, or the
    /// engine starts from the first step it still needs.
    pub fn fetch_start_ex(prev: &FetchEngine, q: &FetchStart) -> (r: Result<StartPlan, &'static [u8]>)
        ensures
            match (r, sp_start(*prev, *q)) {
                (Ok(p), Ok(s)) => p == s,
                (Err(e), Err(f)) => e@ == f,
                _ => false,
            },
    {
        if q.domain_len == 0 {
            let e: &'static [u8] = &[117u8, 114, 108, 32, 104, 111, 115, 116, 32, 109, 105, 115, 115, 105, 110, 103];
            assert(e@ =~= seq![117u8, 114, 108, 32, 104, 111, 115, 116, 32, 109, 105, 115, 115, 105, 110, 103]);
            return Err(e);
        }
        if q.domain_len > FETCH_DOMAIN_MAX {
            let e: &'static [u8] = &[117u8, 114, 108, 32, 104, 111, 115, 116, 32, 116, 111, 111, 32, 108, 111, 110, 103];
            assert(e@ =~= seq![117u8, 114, 108, 32, 104, 111, 115, 116, 32, 116, 111, 111, 32, 108, 111, 110, 103]);
            return Err(e);
        }
        if q.path_len > FETCH_PATH_MAX {
            let e: &'static [u8] = &[117u8, 114, 108, 32, 112, 97, 116, 104, 32, 116, 111, 111, 32, 108, 111, 110, 103];
            assert(e@ =~= seq![117u8, 114, 108, 32, 112, 97, 116, 104, 32, 116, 111, 111, 32, 108, 111, 110, 103]);
            return Err(e);
        }
        let use_proxy = q.proxy_socks5 && q.https;
        let reuse = use_proxy && q.reuse_candidate;
        let close = !reuse && q.openai_reusable;
        let mut e = *prev;
        e.retry = 0;
        e.next_ms = 0;
        e.got_resp = false;
        e.tx_used = q.tx_idx;
        e.tx_inflight = false;
        e.http_sent = false;
        e.http_retry = 0;
        e.http_seq = 0;
        e.http_len = 0;
        e.deadline_ms = 0;
        e.rounds = 0;
        e.reply_sent = false;
        e.reply_pending = false;
        e.suppress_ok = false;
        e.peer_closed = false;
        e.tls_http_len = 0;
        e.tls_http_off = 0;
        e.src_port = q.src_port;
        e.target_port = q.target_port;
        if reuse {
            e.proxy = true;
            e.dst_port = q.proxy_port;
            e.ack_sent = true;
            e.state = FETCH_TLS_HTTP;
            return Ok(StartPlan { engine: e, close_transport: close, reused: true, next_tcp_port: q.next_tcp_port });
        }
        let have_gw0 = q.gw_lookup.is_some();
        let gw0 = match q.gw_lookup {
            Some(g) => g,
            None => prev.gw_mac,
        };
        let have_dns = q.dns_lookup.is_some() || have_gw0;
        let dns_mac = match q.dns_lookup {
            Some(d) => d,
            None => if have_gw0 {
                gw0
            } else {
                prev.dns_mac
            },
        };
        let have_gw = have_gw0 || (use_proxy && prev.have_gw);
        let cached = if !use_proxy && q.fixed_ip.is_none() {
            q.cached_dns_ip
        } else {
            None
        };
        let next = if q.next_tcp_port == 0xffff {
            FIRST_EPHEMERAL_PORT
        } else {
            q.next_tcp_port + 1
        };
        e.tcp_src_port = q.next_tcp_port;
        e.socks_sent = false;
        e.proxy = use_proxy;
        e.dst_port = if use_proxy {
            q.proxy_port
        } else {
            q.target_port
        };
        e.have_gw = have_gw;
        e.gw_mac = gw0;
        e.have_dns = have_dns;
        e.dns_mac = dns_mac;
        e.seq = FETCH_INITIAL_SEQ;
        e.ack_sent = false;
        e.next_ms = if q.transport_cooldown_until_ms > q.now {
            q.transport_cooldown_until_ms
        } else {
            0
        };
        match (q.fixed_ip, cached) {
            (Some(ip), _) if !use_proxy => {
                e.dst_ip = ip;
                e.state = FETCH_SYN;
            },
            (_, Some(ip)) => {
                e.dst_ip = ip;
                e.state = if have_gw {
                    FETCH_SYN
                } else {
                    FETCH_ARP
                };
            },
            _ => {
                if use_proxy {
                    e.dst_ip = [10u8, 0, 2, 2];
                    e.state = FETCH_SYN;
                } else {
                    e.state = if have_gw {
                        FETCH_DNS
                    } else {
                        FETCH_ARP
                    };
                }
            },
        }
        Ok(StartPlan { engine: e, close_transport: close, reused: false, next_tcp_port: next })
    }
}


/// What a fetch is for, kept beside the engine: the host and path asked for, whether it
/// is HTTPS, where the request came from and goes back to, and why the last fetch failed.
pub struct FetchTarget {
    pub domain: Vec<u8>,
    pub path: Vec<u8>,
    pub https: bool,
    pub src_ip: [u8; 4],
    pub reply_ip: [u8; 4],
    pub error_reason: Vec<u8>,
}

fn copy_of(s: &[u8]) -> (r: Vec<u8>)
    ensures
        r@ == s@,
{
    let mut out: Vec<u8> = Vec::new();
    crate::bytes::append_all(&mut out, s);
    out
}

impl FetchTarget {
    /// No fetch asked for yet.
    pub fn new() -> (r: Self)
        ensures
            r.domain@.len() == 0,
            r.path@.len() == 0,
            !r.https,
            r.error_reason@.len() == 0,
    {
        FetchTarget {
            domain: Vec::new(),
            path: Vec::new(),
            https: false,
            src_ip: [0u8; 4],
            reply_ip: [0u8; 4],
            error_reason: Vec::new(),
        }
    }

    /// Starts the fetch of `domain` and `path` described by `q` (see `fetch_start_ex`):
    /// when it starts, the host, the path, the HTTPS flag and the addresses are kept and
    /// the recorded failure is cleared; when it is refused, the reason is recorded and the
    /// rest is left as it was.
    pub fn fetch_start(
        &mut self,
        prev: &FetchEngine,
        q: &FetchStart,
        domain: &[u8],
        path: &[u8],
        src_ip: [u8; 4],
        reply_ip: [u8; 4],
    ) -> (r: Result<StartPlan, &'static [u8]>)
        requires
            q.domain_len == domain.len(),
            q.path_len == path.len(),
        ensures
            match (r, sp_start(*prev, *q)) {
                (Ok(p), Ok(s)) => p == s,
                (Err(e), Err(f)) => e@ == f,
                _ => false,
            },
            r is Ok ==> final(self).domain@ == domain@ && final(self).path@ == path@ && final(self).https
                == q.https && final(self).src_ip == src_ip && final(self).reply_ip == reply_ip
                && final(self).error_reason@.len() == 0,
            r matches Err(e) ==> final(self).error_reason@ == e@ && final(self).domain@ == old(self).domain@
                && final(self).path@ == old(self).path@ && final(self).https == old(self).https
                && final(self).src_ip == old(self).src_ip && final(self).reply_ip == old(self).reply_ip,
    {
        let r = FetchEngine::fetch_start_ex(prev, q);
        match r {
            Ok(_) => {
                self.domain = copy_of(domain);
                self.path = copy_of(path);
                self.https = q.https;
                self.src_ip = src_ip;
                self.reply_ip = reply_ip;
                self.error_reason = Vec::new();
            },
            Err(e) => {
                self.error_reason = copy_of(e);
            },
        }
        r
    }
}

} // verus!

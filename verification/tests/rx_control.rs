use lib::capture::Redirect;
use lib::console::parse_control_datagram;
use lib::console::tweet_reply;
use lib::console::ControlAction;
use lib::console::EditAction;
use lib::console::LineEditor;
use lib::dns::DnsReply;
use lib::fetch::fetch_done_route;
use lib::fetch::fetch_done_text;
use lib::fetch::DoneRoute;
use lib::fetch::FETCH_ARP;
use lib::fetch::FETCH_DNS;
use lib::fetch::FETCH_DONE;
use lib::fetch::FETCH_HTTP;
use lib::fetch::FETCH_SOCKS_CONNECT;
use lib::fetch::FETCH_SOCKS_HELLO;
use lib::fetch::FETCH_SYN;
use lib::fetch::FETCH_TLS_HANDSHAKE;
use lib::fetch::FETCH_TLS_READ;
use lib::fetch_engine::FetchEngine;
use lib::fetch_rx::can_keep_open;
use lib::fetch_rx::close_plan;
use lib::fetch_rx::on_arp_learned;
use lib::fetch_rx::on_dns_datagram;
use lib::fetch_rx::on_tcp_segment;
use lib::fetch_rx::on_tls_configured;
use lib::fetch_rx::reuse_candidate;
use lib::fetch_rx::CloseAction;
use lib::fetch_rx::TcpLink;
use lib::net::TcpInfo;
use lib::net::UdpInfo;
use lib::tls::TlsRx;
use lib::virtio::find_net_slot;
use lib::virtio::negotiate_features;
use lib::virtio::slot_base;
use lib::virtio::VIRTIO_F_VERSION_1;

const PEER: [u8; 4] = [93, 184, 216, 34];

fn engine(state: u8) -> FetchEngine {
    let mut e = FetchEngine::new();
    e.state = state;
    e.dst_ip = PEER;
    e.dst_port = 80;
    e.tcp_src_port = 40001;
    e.seq = 0x1000;
    e
}

fn segment(seq: u32, flags: u8, off: usize, len: usize) -> TcpInfo {
    TcpInfo { src_ip: PEER, src_port: 80, dst_port: 40001, seq, ack: 0, flags, payload_off: off, payload_len: len }
}

#[test]
fn syn_ack_completes_the_handshake() {
    let mut e = engine(FETCH_SYN);
    let mut l = TcpLink::new();
    let mut t = TlsRx::new(0);
    let r = on_tcp_segment(&mut e, &mut l, &mut t, &segment(500, 0x12, 0, 0), &[], false, 100, 3);
    assert_eq!(r.acks, vec![501]);
    assert_eq!(l.ack, 501);
    assert!(l.established);
    assert_eq!(e.seq, 0x1001);
    assert_eq!(e.state, FETCH_HTTP);
    assert!(e.ack_sent && e.tx_inflight);
    assert_eq!(e.tx_used, 3);
    assert_eq!(e.next_ms, 150);
    assert!(!r.configure_tls);
}

#[test]
fn syn_ack_over_tls_asks_for_setup() {
    let mut e = engine(FETCH_SYN);
    let mut l = TcpLink::new();
    let mut t = TlsRx::new(0);
    let r = on_tcp_segment(&mut e, &mut l, &mut t, &segment(9, 0x12, 0, 0), &[], true, 0, 1);
    assert!(r.configure_tls);
    assert_eq!(e.state, FETCH_SYN);
    assert_eq!(on_tls_configured(&mut e, true), None);
    assert_eq!(e.state, FETCH_TLS_HANDSHAKE);
    let mut e2 = engine(FETCH_SYN);
    assert_eq!(on_tls_configured(&mut e2, false), Some(&b"tls configure failed"[..]));
    assert_eq!(e2.state, FETCH_DONE);
}

#[test]
fn foreign_segment_changes_nothing() {
    let mut e = engine(FETCH_SYN);
    let mut l = TcpLink::new();
    let mut t = TlsRx::new(0);
    let mut s = segment(500, 0x12, 0, 0);
    s.dst_port = 40002;
    let r = on_tcp_segment(&mut e, &mut l, &mut t, &s, &[], false, 0, 1);
    assert!(r.acks.is_empty());
    assert_eq!(e.state, FETCH_SYN);
    assert_eq!(l.ack, 0);
}

#[test]
fn socks_replies() {
    let mut e = engine(FETCH_SOCKS_HELLO);
    let mut l = TcpLink::new();
    let mut t = TlsRx::new(0);
    let frame = [5u8, 0];
    let r = on_tcp_segment(&mut e, &mut l, &mut t, &segment(10, 0x18, 0, 2), &frame, false, 0, 1);
    assert_eq!(r.acks, vec![12]);
    assert_eq!(e.state, FETCH_SOCKS_CONNECT);
    let frame = [5u8, 1, 0, 1, 0];
    let r = on_tcp_segment(&mut e, &mut l, &mut t, &segment(12, 0x18, 0, 5), &frame, false, 0, 1);
    assert_eq!(r.fail, Some(&b"proxy connect rejected"[..]));
    assert_eq!(e.state, FETCH_DONE);
    assert_eq!(l.ack, 17);
}

#[test]
fn http_bytes_in_order_duplicate_and_fin() {
    let mut e = engine(FETCH_HTTP);
    let mut l = TcpLink { ack: 100, established: true };
    let mut t = TlsRx::new(0);
    let frame = b"xxHELLOworld";
    let r = on_tcp_segment(&mut e, &mut l, &mut t, &segment(100, 0x18, 2, 5), frame, false, 0, 1);
    assert_eq!((r.feed_start, r.feed_len), (2, 5));
    assert_eq!(l.ack, 105);
    assert_eq!(r.acks, vec![105]);
    let r = on_tcp_segment(&mut e, &mut l, &mut t, &segment(100, 0x18, 2, 5), frame, false, 0, 1);
    assert_eq!(r.feed_len, 0);
    assert_eq!(l.ack, 105);
    assert_eq!(r.acks, vec![105]);
    let r = on_tcp_segment(&mut e, &mut l, &mut t, &segment(103, 0x18, 2, 10), frame, false, 0, 1);
    assert_eq!((r.feed_start, r.feed_len), (4, 8));
    assert_eq!(l.ack, 113);
    let r = on_tcp_segment(&mut e, &mut l, &mut t, &segment(200, 0x18, 2, 5), frame, false, 0, 1);
    assert_eq!(r.feed_len, 0);
    assert_eq!(l.ack, 113);
    let r = on_tcp_segment(&mut e, &mut l, &mut t, &segment(113, 0x11, 0, 0), frame, false, 0, 1);
    assert_eq!(r.acks, vec![114]);
    assert_eq!(e.state, FETCH_DONE);
}

#[test]
fn tls_segments_and_fin() {
    let mut e = engine(FETCH_TLS_READ);
    let mut l = TcpLink { ack: 7, established: true };
    let mut t = TlsRx::new(1000);
    let frame = b"abcdef";
    let r = on_tcp_segment(&mut e, &mut l, &mut t, &segment(1003, 0x18, 3, 3), frame, true, 0, 1);
    assert!(r.tls_ack);
    assert_eq!(t.expected_ack(), 1000);
    let r = on_tcp_segment(&mut e, &mut l, &mut t, &segment(1000, 0x18, 0, 3), frame, true, 0, 1);
    assert!(r.tls_ack);
    assert_eq!(t.expected_ack(), 1006);
    assert_eq!(t.recv(16), Ok(b"abcdef".to_vec()));
    let r = on_tcp_segment(&mut e, &mut l, &mut t, &segment(1006, 0x11, 0, 0), frame, true, 0, 1);
    assert!(r.tls_ack);
    assert_eq!(t.expected_ack(), 1007);
    assert_eq!(l.ack, 7);
}

#[test]
fn arp_answer_moves_on() {
    let mut e = FetchEngine::new();
    e.state = FETCH_ARP;
    on_arp_learned(&mut e, Some([1, 1, 1, 1, 1, 1]), None);
    assert_eq!(e.state, FETCH_DNS);
    assert!(e.have_gw);
    assert_eq!(e.gw_mac, [1, 1, 1, 1, 1, 1]);
    let mut p = FetchEngine::new();
    p.state = FETCH_ARP;
    p.dst_ip = [1, 2, 3, 4];
    on_arp_learned(&mut p, Some([1, 1, 1, 1, 1, 1]), Some([2, 2, 2, 2, 2, 2]));
    assert_eq!(p.state, FETCH_SYN);
    assert!(p.have_dns);
    let mut q = FetchEngine::new();
    q.state = FETCH_DNS;
    on_arp_learned(&mut q, Some([1, 1, 1, 1, 1, 1]), None);
    assert!(!q.have_gw);
}

#[test]
fn dns_answer_moves_on() {
    let mut e = FetchEngine::new();
    e.state = FETCH_DNS;
    let mut frame = vec![0u8; 4];
    frame.extend_from_slice(&[0x12, 0x34, 0x81, 0x80, 0, 1, 0, 1, 0, 0, 0, 0]);
    frame.extend_from_slice(&[1, b'a', 0, 0, 1, 0, 1]);
    frame.extend_from_slice(&[0xc0, 0x0c, 0, 1, 0, 1, 0, 0, 0, 60, 0, 4, 9, 8, 7, 6]);
    let u = UdpInfo { src_ip: [10, 0, 2, 3], src_port: 53, dst_port: 53000, payload_off: 4, payload_len: frame.len() - 4 };
    assert_eq!(on_dns_datagram(&mut e, &u, &frame), Some(DnsReply::Address([9, 8, 7, 6])));
    assert_eq!(e.state, FETCH_SYN);
    assert_eq!(e.dst_ip, [9, 8, 7, 6]);
    let mut other = u;
    other.dst_port = 5555;
    let mut e2 = FetchEngine::new();
    e2.state = FETCH_DNS;
    assert_eq!(on_dns_datagram(&mut e2, &other, &frame), None);
    assert_eq!(e2.state, FETCH_DNS);
}

fn reply(p: &[u8], busy: bool) -> (Vec<u8>, ControlAction) {
    let r = parse_control_datagram(p, [0x02, 0, 0, 0, 0, 0xab], busy);
    (r.reply, r.action)
}

#[test]
fn control_datagrams() {
    assert_eq!(reply(b"ping", false).0, b"pong".to_vec());
    assert_eq!(reply(b"mac", false).0, b"mac=02:00:00:00:00:ab".to_vec());
    assert_eq!(reply(b"echo hi there", false).0, b"hi there".to_vec());
    let (r, a) = reply(b"sync", false);
    assert_eq!(r, b"syncing".to_vec());
    assert!(matches!(a, ControlAction::Sync));
    assert_eq!(reply(b"sync", true).0, b"busy".to_vec());
    let (r, a) = reply(b"time 1700000000", false);
    assert_eq!(r, b"time set".to_vec());
    assert!(matches!(a, ControlAction::SetTime(1700000000)));
    match reply(b"tweet  hello", false).1 {
        ControlAction::Tweet(t) => assert_eq!(t, b"hello".to_vec()),
        _ => panic!("expected a tweet"),
    }
    assert_eq!(tweet_reply(false), b"tweet setup failed");
    let (r, a) = reply(b"post http://h.example/p {\"k\":1}", false);
    assert_eq!(r, b"fetching h.example/p".to_vec());
    match a {
        ControlAction::Post { https, domain, path, body } => {
            assert!(!https);
            assert_eq!(domain, b"h.example".to_vec());
            assert_eq!(path, b"/p".to_vec());
            assert_eq!(body, b"{\"k\":1}".to_vec());
        }
        _ => panic!("expected a post"),
    }
    let (r, a) = reply(b"https://x.example", false);
    assert_eq!(r, b"fetching x.example".to_vec());
    assert!(matches!(a, ControlAction::Fetch { https: true, .. }));
    assert_eq!(reply(b"https://x.example", true).0, b"busy".to_vec());
    assert_eq!(reply(b"yo", false).0, b"Hello, I am WalleOS. yo".to_vec());
}

#[test]
fn typing_a_line() {
    let mut ed = LineEditor::new();
    for b in "añb".bytes() {
        assert!(matches!(ed.on_byte(b), EditAction::Echo(_)));
    }
    assert!(matches!(ed.on_byte(0x7f), EditAction::Redraw));
    assert!(matches!(ed.on_byte(0x7f), EditAction::Redraw));
    assert_eq!(ed.line, b"a".to_vec());
    assert!(matches!(ed.on_byte(0x1b), EditAction::Nothing));
    assert!(ed.escape);
    assert!(matches!(ed.on_byte(b'1'), EditAction::Nothing));
    assert!(matches!(ed.on_byte(b'['), EditAction::Nothing));
    assert!(!ed.escape);
    assert!(matches!(ed.on_byte(b'z'), EditAction::Echo(b'z')));
    match ed.on_byte(b'\r') {
        EditAction::Submit(l) => assert_eq!(l, b"az".to_vec()),
        _ => panic!("expected the line"),
    }
    assert!(ed.line.is_empty());
}

#[test]
fn fetch_end_reports() {
    assert_eq!(fetch_done_text(true, b"a.example"), b"http ok a.example".to_vec());
    assert_eq!(fetch_done_text(false, b"a.example"), b"http fail a.example".to_vec());
    assert!(fetch_done_route(5555, false, false) == DoneRoute::Peer);
    assert!(fetch_done_route(5555, false, true) == DoneRoute::AlreadyReplied);
    assert!(fetch_done_route(5555, true, false) == DoneRoute::Console);
    assert!(fetch_done_route(0, false, false) == DoneRoute::Console);
}

#[test]
fn redirect_is_taken_once() {
    let mut r = Redirect::new();
    let h = b"HTTP/1.1 301 Moved\r\nLocation: http://b.example/x\r\n\r\n";
    let _ = r.capture_redirect(false, h, h.len());
    assert!(r.suppress_ok);
    let (d, p, https) = r.take_pending().unwrap();
    assert_eq!(d, b"b.example".to_vec());
    assert_eq!(p, b"/x".to_vec());
    assert!(!https);
    assert!(r.take_pending().is_none());
    assert!(!r.suppress_ok);
    r.on_fetch_start(true);
    assert_eq!(r.redirects, 1);
    r.on_fetch_start(false);
    assert_eq!(r.redirects, 0);
}

#[test]
fn virtio_slots_and_features() {
    assert_eq!(slot_base(3), 0x0a00_0600);
    assert_eq!(find_net_slot(&[None, Some(2), Some(1), Some(0), Some(1), None]), Some(4));
    assert_eq!(find_net_slot(&[None, Some(2)]), None);
    assert_eq!(negotiate_features(0xffff_ffff_ffff_ffff, true), 32 | VIRTIO_F_VERSION_1);
    assert_eq!(negotiate_features(0x10, false), 0);
}

#[test]
fn closing_and_keeping_the_connection() {
    assert!(can_keep_open(true, true, true, false, false, 10, true, false));
    assert!(!can_keep_open(true, true, true, false, true, 10, true, false));
    assert!(!can_keep_open(true, true, true, false, false, 0, true, false));
    let mut e = engine(FETCH_DONE);
    let up = TcpLink { ack: 1, established: true };
    let (until, act) = close_plan(&e, &up, true, 1000, 0, false);
    assert_eq!(until, 1800);
    assert!(act == CloseAction::Close);
    let (until, act) = close_plan(&e, &up, false, 1000, 5000, true);
    assert_eq!(until, 5000);
    assert!(act == CloseAction::Keep);
    let down = TcpLink::new();
    assert!(close_plan(&e, &down, false, 0, 0, false).1 == CloseAction::Forget);
    e.proxy = true;
    e.dst_ip = [10, 0, 2, 2];
    e.dst_port = 7897;
    e.target_port = 443;
    assert!(reuse_candidate(&e, &up, true, true, true, 7897, b"api.openai.com", b"/v1/responses", true, 443));
    assert!(!reuse_candidate(&e, &up, true, true, true, 7897, b"api.openai.com", b"/v1/other", true, 443));
    assert!(!reuse_candidate(&e, &down, true, true, true, 7897, b"api.openai.com", b"/v1/responses", true, 443));
    assert!(!reuse_candidate(&e, &up, false, true, true, 7897, b"api.openai.com", b"/v1/responses", true, 443));
}

#[test]
fn where_to_answer_a_host() {
    let mut arp = lib::cache::ArpCache::new();
    let mut e = FetchEngine::new();
    let host = [10, 0, 2, 100];
    let peer = Some((host, [7u8; 6]));
    assert_eq!(lib::fetch_rx::peer_mac_for(host, peer, &mut arp, 0, &e), Some([7u8; 6]));
    assert_eq!(lib::fetch_rx::peer_mac_for(host, None, &mut arp, 0, &e), None);
    arp.arp_cache_store([8u8; 6], host, 0);
    assert_eq!(lib::fetch_rx::peer_mac_for(host, None, &mut arp, 1, &e), Some([8u8; 6]));
    e.have_gw = true;
    e.gw_mac = [9u8; 6];
    assert_eq!(lib::fetch_rx::peer_mac_for([10, 0, 2, 2], None, &mut arp, 1, &e), Some([9u8; 6]));
    assert_eq!(lib::fetch_rx::peer_mac_for([10, 0, 2, 3], None, &mut arp, 1, &e), None);
}

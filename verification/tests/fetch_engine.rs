use lib::fetch::FETCH_ARP;
use lib::fetch::FETCH_DNS;
use lib::fetch::FETCH_DONE;
use lib::fetch::FETCH_SYN;
use lib::fetch::FETCH_TLS_HTTP;
use lib::fetch_engine::FetchEngine;
use lib::fetch_engine::FetchStart;
use lib::fetch_engine::FetchTarget;
use lib::fetch_engine::TickAction;

fn request() -> FetchStart {
    FetchStart {
        domain_len: 11,
        path_len: 1,
        https: false,
        target_port: 80,
        fixed_ip: None,
        src_port: 40000,
        proxy_socks5: false,
        proxy_port: 0,
        reuse_candidate: false,
        openai_reusable: false,
        gw_lookup: None,
        dns_lookup: None,
        cached_dns_ip: None,
        transport_cooldown_until_ms: 0,
        next_tcp_port: 49152,
        tx_idx: 0,
        now: 0,
    }
}

#[test]
fn start_refuses_bad_hosts() {
    let prev = FetchEngine::new();
    let mut q = request();
    q.domain_len = 0;
    assert!(matches!(FetchEngine::fetch_start_ex(&prev, &q), Err(e) if e == b"url host missing"));
    q.domain_len = 10_000;
    assert!(matches!(FetchEngine::fetch_start_ex(&prev, &q), Err(e) if e == b"url host too long"));
    q.domain_len = 11;
    q.path_len = 100_000;
    assert!(matches!(FetchEngine::fetch_start_ex(&prev, &q), Err(e) if e == b"url path too long"));
}

#[test]
fn start_picks_the_first_needed_step() {
    let prev = FetchEngine::new();
    let q = request();
    let plan = FetchEngine::fetch_start_ex(&prev, &q).ok().unwrap();
    assert_eq!(plan.engine.state, FETCH_ARP);
    assert_eq!(plan.next_tcp_port, 49153);
    assert_eq!(plan.engine.tcp_src_port, 49152);
    assert!(!plan.reused);

    let mut q2 = request();
    q2.gw_lookup = Some([2, 2, 2, 2, 2, 2]);
    let plan = FetchEngine::fetch_start_ex(&prev, &q2).ok().unwrap();
    assert_eq!(plan.engine.state, FETCH_DNS);
    assert!(plan.engine.have_gw && plan.engine.have_dns);
    assert_eq!(plan.engine.dns_mac, [2, 2, 2, 2, 2, 2]);

    q2.cached_dns_ip = Some([93, 184, 216, 34]);
    let plan = FetchEngine::fetch_start_ex(&prev, &q2).ok().unwrap();
    assert_eq!(plan.engine.state, FETCH_SYN);
    assert_eq!(plan.engine.dst_ip, [93, 184, 216, 34]);
    assert_eq!(plan.engine.dst_port, 80);

    let mut q3 = request();
    q3.next_tcp_port = 0xffff;
    let plan = FetchEngine::fetch_start_ex(&prev, &q3).ok().unwrap();
    assert_eq!(plan.next_tcp_port, 40000);
}

#[test]
fn kept_proxy_connection_is_reused() {
    let prev = FetchEngine::new();
    let mut q = request();
    q.https = true;
    q.target_port = 443;
    q.proxy_socks5 = true;
    q.proxy_port = 1080;
    q.reuse_candidate = true;
    q.openai_reusable = true;
    let plan = FetchEngine::fetch_start_ex(&prev, &q).ok().unwrap();
    assert!(plan.reused);
    assert!(!plan.close_transport);
    assert_eq!(plan.engine.state, FETCH_TLS_HTTP);
    assert_eq!(plan.engine.dst_port, 1080);
}

#[test]
fn idle_engine_does_nothing() {
    let mut e = FetchEngine::new();
    assert!(matches!(e.fetch_tick(5, 1, b"example.com", 0, false), TickAction::Nothing));
    assert_eq!(e.deadline_ms, 0);
}

#[test]
fn unanswered_arp_gives_up_after_all_rounds() {
    let prev = FetchEngine::new();
    let mut e = FetchEngine::fetch_start_ex(&prev, &request()).ok().unwrap().engine;
    let mut arps = 0;
    let mut reason: Option<&'static [u8]> = None;
    for i in 0..200u64 {
        match e.fetch_tick(i * 200, (i + 1) as u16, b"example.com", 0, false) {
            TickAction::SendArp { target } => {
                assert_eq!(target, [10, 0, 2, 2]);
                arps += 1;
            }
            TickAction::Fail { reason: r, only_if_empty } => {
                assert!(only_if_empty);
                reason = Some(r);
                break;
            }
            TickAction::Nothing => {}
            _ => panic!("unexpected action"),
        }
    }
    assert_eq!(arps, 15);
    assert_eq!(reason, Some(&b"gateway arp timed out"[..]));
    assert_eq!(e.state, FETCH_DONE);
}

#[test]
fn same_transmit_index_waits() {
    let prev = FetchEngine::new();
    let mut e = FetchEngine::fetch_start_ex(&prev, &request()).ok().unwrap().engine;
    assert!(matches!(e.fetch_tick(0, 7, b"example.com", 0, false), TickAction::SendArp { .. }));
    assert!(matches!(e.fetch_tick(1000, 7, b"example.com", 0, false), TickAction::Nothing));
    assert!(matches!(e.fetch_tick(1000, 8, b"example.com", 0, false), TickAction::SendArp { .. }));
}

#[test]
fn dns_query_goes_out_once_gateway_known() {
    let prev = FetchEngine::new();
    let mut q = request();
    q.gw_lookup = Some([2, 2, 2, 2, 2, 2]);
    let mut e = FetchEngine::fetch_start_ex(&prev, &q).ok().unwrap().engine;
    match e.fetch_tick(0, 1, b"example.com", 0, false) {
        TickAction::SendDnsQuery { query } => {
            assert_eq!(&query[0..2], &[0x12, 0x34]);
            assert!(query.windows(7).any(|w| w == b"example"));
        }
        _ => panic!("expected a DNS query"),
    }
}

#[test]
fn start_keeps_the_target_and_clears_the_failure() {
    let prev = FetchEngine::new();
    let mut target = FetchTarget::new();
    let mut bad = request();
    bad.domain_len = 0;
    assert!(target.fetch_start(&prev, &bad, b"", b"/", [10, 0, 2, 15], [0, 0, 0, 0]).is_err());
    assert_eq!(target.error_reason, b"url host missing".to_vec());
    assert!(target.domain.is_empty());
    let mut q = request();
    q.https = true;
    q.target_port = 443;
    let plan = target.fetch_start(&prev, &q, b"example.com", b"/", [10, 0, 2, 15], [1, 2, 3, 4]).ok().unwrap();
    assert_eq!(plan.engine.tcp_src_port, 49152);
    assert_eq!(target.domain, b"example.com".to_vec());
    assert_eq!(target.path, b"/".to_vec());
    assert!(target.https);
    assert_eq!(target.src_ip, [10, 0, 2, 15]);
    assert_eq!(target.reply_ip, [1, 2, 3, 4]);
    assert!(target.error_reason.is_empty());
}

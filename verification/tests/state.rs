use lib::allocator::align_up;
use lib::allocator::BumpAllocator;
use lib::allocator::HEAP_SIZE;
use lib::cache::ArpCache;
use lib::cache::DnsCache;
use lib::cache::TtlCache;
use lib::cache::DNS_CACHE_TTL_MS;
use lib::session::Session;
use lib::tls::RxStream;
use lib::tls::TlsRx;
use lib::tls::MBEDTLS_ERR_SSL_WANT_READ;
use lib::timer::ticks_to_ms;
use lib::uart::write_u64_dec;
use lib::uart::write_u64_hex;

#[test]
fn allocations_are_aligned_and_disjoint() {
    let heap = 0x8000_0000usize;
    let mut a = BumpAllocator::new();
    let p = a.allocate(heap, 10, 8).unwrap();
    assert_eq!(p, heap);
    let q = a.allocate(heap, 16, 16).unwrap();
    assert_eq!(q, heap + 16);
    assert!(q >= p + 10);
    assert_eq!(a.allocate(heap, HEAP_SIZE, 8), None);
    assert_eq!(align_up(17, 8), 24);
    assert_eq!(align_up(24, 8), 24);
}

#[test]
fn session_state_read_after_write() {
    let mut s = Session::new();
    assert!(!s.session_started());
    assert!(s.write_session_state(b"city", b"Paris"));
    assert!(s.write_session_state(b"lang", b"fr"));
    assert_eq!(s.read_session_state(b"city", 64), b"Paris".to_vec());
    assert!(s.write_session_state(b"city", b"Lyon"));
    assert_eq!(s.read_session_state(b"city", 64), b"Lyon".to_vec());
    assert_eq!(s.read_session_state(b"lang", 64), b"fr".to_vec());
    assert_eq!(s.read_session_state(b"none", 64), Vec::<u8>::new());
    assert!(!s.write_session_state(b"", b"x"));
    let long_key = [b'k'; 40];
    assert!(!s.write_session_state(&long_key, b"x"));
}

#[test]
fn session_history_and_reset() {
    let mut s = Session::new();
    s.ensure_session_started();
    assert!(s.session_started());
    s.append_user_turn(b"hello");
    let h = s.history_bytes(4096);
    assert!(!h.is_empty());
    assert!(h.windows(5).any(|w| w == b"hello"));
    s.write_session_state(b"k", b"v");
    s.session_reset();
    assert!(s.session_started());
    assert_eq!(s.read_session_state(b"k", 64), Vec::<u8>::new());
    assert!(s.history_bytes(4096).is_empty());
}

#[test]
fn ttl_cache_store_then_lookup() {
    let mut c = TtlCache::new(100);
    c.store(b"a", b"1", 0);
    assert_eq!(c.lookup(b"a", 50), Some(b"1".to_vec()));
    assert_eq!(c.lookup(b"b", 50), None);
    assert_eq!(c.lookup(b"a", 100), None);
    assert_eq!(c.lookup(b"a", 10), None);
}

#[test]
fn dns_cache_ignores_case() {
    let mut c = DnsCache::new();
    c.dns_cache_store(b"Example.COM", [1, 2, 3, 4], 5);
    assert_eq!(c.dns_cache_lookup(b"example.com", 6), Some([1, 2, 3, 4]));
    assert_eq!(c.dns_cache_lookup(b"example.com", 5 + DNS_CACHE_TTL_MS), None);
    assert_eq!(c.dns_cache_lookup(b"", 6), None);
}

#[test]
fn arp_cache_store_then_lookup() {
    let mut c = ArpCache::new();
    c.arp_cache_store([1, 2, 3, 4, 5, 6], [10, 0, 2, 2], 0);
    assert_eq!(c.lookup_arp_peer([10, 0, 2, 2], 1), Some([1, 2, 3, 4, 5, 6]));
    assert_eq!(c.lookup_arp_peer([10, 0, 2, 3], 1), None);
}

#[test]
fn rx_stream_reads_back_in_order() {
    let mut r = RxStream::new();
    assert_eq!(r.recv(4), Err(MBEDTLS_ERR_SSL_WANT_READ));
    r.push(b"hello ");
    r.push(b"world");
    assert_eq!(r.recv(4), Ok(b"hell".to_vec()));
    assert_eq!(r.recv(100), Ok(b"o world".to_vec()));
    assert_eq!(r.recv(1), Err(MBEDTLS_ERR_SSL_WANT_READ));
}

#[test]
fn tls_segments_reordered() {
    let mut t = TlsRx::new(1000);
    assert!(!t.push_rx_payload_seq(1003, b"def"));
    assert_eq!(t.recv(10), Err(MBEDTLS_ERR_SSL_WANT_READ));
    assert!(t.push_rx_payload_seq(1000, b"abc"));
    assert_eq!(t.expected_ack(), 1006);
    assert_eq!(t.recv(10), Ok(b"abcdef".to_vec()));
    // a duplicate of data already taken changes nothing
    assert!(!t.push_rx_payload_seq(1000, b"abc"));
    assert_eq!(t.expected_ack(), 1006);
}

#[test]
fn timer_and_uart_numbers() {
    assert_eq!(ticks_to_ms(62_500_000, 62_500_000), 1000);
    assert_eq!(ticks_to_ms(5, 0), 0);
    let mut tx = Vec::new();
    write_u64_dec(&mut tx, 1234);
    assert_eq!(tx, b"1234".to_vec());
    let mut hx = Vec::new();
    write_u64_hex(&mut hx, 255);
    assert_eq!(hx, b"00000000000000ff".to_vec());
}

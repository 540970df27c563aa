use vstd::prelude::*;
use crate::bytes::append_all;
use crate::bytes::append_bytes;
use crate::bytes::bounded_append;
use crate::bytes::dec_digits;
use crate::bytes::matches_at;
use crate::bytes::trimmed;

verus! {

pub const FETCH_IDLE: u8 = 0;
pub const FETCH_ARP: u8 = 1;
pub const FETCH_DNS: u8 = 2;
pub const FETCH_SYN: u8 = 3;
pub const FETCH_HTTP: u8 = 4;
pub const FETCH_TLS_HANDSHAKE: u8 = 5;
pub const FETCH_TLS_HTTP: u8 = 6;
pub const FETCH_TLS_READ: u8 = 7;
pub const FETCH_DONE: u8 = 8;
pub const FETCH_SOCKS_HELLO: u8 = 9;
pub const FETCH_SOCKS_CONNECT: u8 = 10;
pub const FETCH_ERROR_REASON_MAX: usize = 160;
pub const FETCH_TRANSPORT_COOLDOWN_MS: u64 = 1_500;
pub const FETCH_MAX_REPLY_BYTES: usize = 4096;
pub const FETCH_CHUNK_BYTES: usize = 900;
pub const UDP_REPLY_BUF_LEN: usize = 1600;
pub const UART_LINE_MAX: usize = 2048;

// ---------------------------------------------------------------------------
// Requests
// ---------------------------------------------------------------------------

pub open spec fn request_mid() -> Seq<u8> {
    seq![32u8, 72, 84, 84, 80, 47, 49, 46, 49, 13, 10, 72, 111, 115, 116, 58, 32]
}

pub open spec fn request_tail_get() -> Seq<u8> {
    seq![85u8, 115, 101, 114, 45, 65, 103, 101, 110, 116, 58, 32, 109, 105, 110, 105, 111, 115, 13, 10, 65, 99, 99, 101, 112, 116, 58, 32, 42, 47, 42, 13, 10, 65, 99, 99, 101, 112, 116, 45, 69, 110, 99, 111, 100, 105, 110, 103, 58, 32, 105, 100, 101, 110, 116, 105, 116, 121, 13, 10, 67, 111, 110, 110, 101, 99, 116, 105, 111, 110, 58, 32, 99, 108, 111, 115, 101, 13, 10]
}

pub open spec fn request_tail_post() -> Seq<u8> {
    seq![85u8, 115, 101, 114, 45, 65, 103, 101, 110, 116, 58, 32, 109, 105, 110, 105, 111, 115, 13, 10, 65, 99, 99, 101, 112, 116, 58, 32, 42, 47, 42, 13, 10, 65, 99, 99, 101, 112, 116, 45, 69, 110, 99, 111, 100, 105, 110, 103, 58, 32, 105, 100, 101, 110, 116, 105, 116, 121, 13, 10, 67, 111, 110, 116, 101, 110, 116, 45, 84, 121, 112, 101, 58, 32, 97, 112, 112, 108, 105, 99, 97, 116, 105, 111, 110, 47, 106, 115, 111, 110, 13, 10, 67, 111, 110, 116, 101, 110, 116, 45, 76, 101, 110, 103, 116, 104, 58, 32]
}

pub open spec fn crlf() -> Seq<u8> {
    seq![13u8, 10]
}

/// An HTTP/1.1 request: `GET` (or `POST` with a JSON `body` and its length) of `path`
/// (`/` when empty) on `domain`, the extra header lines `extra` after `Host`.
pub open spec fn http_request(post: bool, domain: Seq<u8>, path: Seq<u8>, extra: Seq<u8>, body: Seq<u8>) -> Seq<u8> {
    let method = if post {
        seq![80u8, 79, 83, 84, 32]
    } else {
        seq![71u8, 69, 84, 32]
    };
    let p = if path.len() == 0 {
        seq![47u8]
    } else {
        path
    };
    let head = method + p + request_mid() + domain + crlf() + extra;
    if post {
        head + request_tail_post() + dec_digits(body.len()) + crlf() + crlf() + body
    } else {
        head + request_tail_get() + crlf()
    }
}

/// The request of `http_request`, or nothing when `domain` is empty or the request exceeds
/// `cap` bytes.
pub fn build_http_request(
    post: bool,
    domain: &[u8],
    path: &[u8],
    extra: &[u8],
    body: &[u8],
    cap: usize,
) -> (r: Vec<u8>)
    ensures
        r@ == (if domain.len() == 0 || http_request(post, domain@, path@, extra@, body@).len() > cap {
            Seq::<u8>::empty()
        } else {
            http_request(post, domain@, path@, extra@, body@)
        }),
{
    if domain.len() == 0 {
        return Vec::new();
    }
    let method: &[u8] = if post {
        &[80u8, 79, 83, 84, 32]
    } else {
        &[71u8, 69, 84, 32]
    };
    let root: &[u8] = &[47u8];
    let p: &[u8] = if path.len() == 0 {
        root
    } else {
        path
    };
    let mid: &[u8] = &[32u8, 72, 84, 84, 80, 47, 49, 46, 49, 13, 10, 72, 111, 115, 116, 58, 32];
    let nl: &[u8] = &[13u8, 10];
    assert(mid@ =~= request_mid());
    assert(nl@ =~= crlf());
    assert(root@ =~= seq![47u8]);
    assert(method@ =~= (if post {
        seq![80u8, 79, 83, 84, 32]
    } else {
        seq![71u8, 69, 84, 32]
    }));
    let mut out: Vec<u8> = Vec::new();
    append_all(&mut out, method);
    append_all(&mut out, p);
    append_all(&mut out, mid);
    append_all(&mut out, domain);
    append_all(&mut out, nl);
    append_all(&mut out, extra);
    if post {
        let tail: &[u8] = &[85u8, 115, 101, 114, 45, 65, 103, 101, 110, 116, 58, 32, 109, 105, 110, 105, 111, 115, 13, 10, 65, 99, 99, 101, 112, 116, 58, 32, 42, 47, 42, 13, 10, 65, 99, 99, 101, 112, 116, 45, 69, 110, 99, 111, 100, 105, 110, 103, 58, 32, 105, 100, 101, 110, 116, 105, 116, 121, 13, 10, 67, 111, 110, 116, 101, 110, 116, 45, 84, 121, 112, 101, 58, 32, 97, 112, 112, 108, 105, 99, 97, 116, 105, 111, 110, 47, 106, 115, 111, 110, 13, 10, 67, 111, 110, 116, 101, 110, 116, 45, 76, 101, 110, 103, 116, 104, 58, 32];
        assert(tail@ =~= request_tail_post());
        append_all(&mut out, tail);
        let digits = crate::bytes::u64_to_dec(body.len() as u64);
        append_all(&mut out, digits.as_slice());
        append_all(&mut out, nl);
        append_all(&mut out, nl);
        append_all(&mut out, body);
    } else {
        let tail: &[u8] = &[85u8, 115, 101, 114, 45, 65, 103, 101, 110, 116, 58, 32, 109, 105, 110, 105, 111, 115, 13, 10, 65, 99, 99, 101, 112, 116, 58, 32, 42, 47, 42, 13, 10, 65, 99, 99, 101, 112, 116, 45, 69, 110, 99, 111, 100, 105, 110, 103, 58, 32, 105, 100, 101, 110, 116, 105, 116, 121, 13, 10, 67, 111, 110, 110, 101, 99, 116, 105, 111, 110, 58, 32, 99, 108, 111, 115, 101, 13, 10];
        assert(tail@ =~= request_tail_get());
        append_all(&mut out, tail);
        append_all(&mut out, nl);
    }
    assert(out@ =~= http_request(post, domain@, path@, extra@, body@));
    if out.len() > cap {
        return Vec::new();
    }
    out
}

/// One byte of a tweet's text as a JSON string escapes it.
pub open spec fn tweet_escape(b: u8) -> Seq<u8> {
    if b == 34 || b == 92 {
        seq![92u8, b]
    } else if b == 10 {
        seq![92u8, 110]
    } else if b == 13 {
        seq![92u8, 114]
    } else if b == 9 {
        seq![92u8, 116]
    } else {
        seq![b]
    }
}

/// The escaped text from byte `k` on, written after `out` while two bytes of room stay
/// below `cap`.
pub open spec fn tweet_text_from(text: Seq<u8>, k: int, out: Seq<u8>, cap: int) -> Seq<u8>
    decreases text.len() - k,
{
    if k < 0 || k >= text.len() || out.len() + 2 >= cap {
        out
    } else {
        tweet_text_from(text, k + 1, out + tweet_escape(text[k]), cap)
    }
}

/// The body of a post: `{"text":"`, the escaped text while it fits, `"}`, all within
/// `cap` bytes.
pub open spec fn tweet_body(text: Seq<u8>, cap: int) -> Seq<u8> {
    let head = bounded_append(Seq::empty(), cap, seq![123u8, 34, 116, 101, 120, 116, 34, 58, 34]);
    bounded_append(tweet_text_from(text, 0, head, cap), cap, seq![34u8, 125])
}

pub fn build_tweet_body(text: &[u8], cap: usize) -> (r: Vec<u8>)
    ensures
        r@ == tweet_body(text@, cap as int),
{
    let head: &[u8] = &[123u8, 34, 116, 101, 120, 116, 34, 58, 34];
    let tail: &[u8] = &[34u8, 125];
    assert(head@ =~= seq![123u8, 34, 116, 101, 120, 116, 34, 58, 34]);
    assert(tail@ =~= seq![34u8, 125]);
    let mut out: Vec<u8> = Vec::new();
    append_bytes(&mut out, cap, head);
    let mut k = 0usize;
    while k < text.len() && out.len() < cap && cap - out.len() > 2
        invariant
            k <= text.len(),
            tweet_text_from(text@, k as int, out@, cap as int) == tweet_text_from(
                text@,
                0,
                bounded_append(Seq::empty(), cap as int, head@),
                cap as int,
            ),
        decreases text.len() - k,
    {
        let b = text[k];
        let ghost before = out@;
        if b == 34u8 || b == 92u8 {
            out.push(92u8);
            out.push(b);
        } else if b == 10u8 {
            out.push(92u8);
            out.push(110u8);
        } else if b == 13u8 {
            out.push(92u8);
            out.push(114u8);
        } else if b == 9u8 {
            out.push(92u8);
            out.push(116u8);
        } else {
            out.push(b);
        }
        assert(out@ =~= before + tweet_escape(b));
        k += 1;
    }
    append_bytes(&mut out, cap, tail);
    out
}

// ---------------------------------------------------------------------------
// Replies to the host that asked for a fetch
// ---------------------------------------------------------------------------

pub open spec fn reply_prefix(ms: u64, count: u64, cap: int) -> Seq<u8> {
    let a = bounded_append(Seq::empty(), cap, seq![87u8, 97, 108, 108, 101, 79, 83, 32, 116, 61]);
    let b = bounded_append(bounded_append(a, cap, dec_digits(ms as nat)), cap, seq![32u8]);
    let c = bounded_append(bounded_append(b, cap, seq![99u8, 61]), cap, dec_digits(count as nat));
    bounded_append(c, cap, seq![32u8])
}

/// `WalleOS t=<ms> c=<count> `, within `cap` bytes.
pub fn udp_reply_prefix(cap: usize, ms: u64, count: u64) -> (r: Vec<u8>)
    ensures
        r@ == reply_prefix(ms, count, cap as int),
{
    let tag: &[u8] = &[87u8, 97, 108, 108, 101, 79, 83, 32, 116, 61];
    let c: &[u8] = &[99u8, 61];
    let sp: &[u8] = &[32u8];
    assert(tag@ =~= seq![87u8, 97, 108, 108, 101, 79, 83, 32, 116, 61]);
    assert(c@ =~= seq![99u8, 61]);
    assert(sp@ =~= seq![32u8]);
    let mut out: Vec<u8> = Vec::new();
    append_bytes(&mut out, cap, tag);
    crate::bytes::append_u64_dec(&mut out, cap, ms);
    append_bytes(&mut out, cap, sp);
    append_bytes(&mut out, cap, c);
    crate::bytes::append_u64_dec(&mut out, cap, count);
    append_bytes(&mut out, cap, sp);
    out
}

/// One reply datagram: the prefix, `<label> <index> `, then `data`, within `cap` bytes.
pub open spec fn reply_chunk(ms: u64, count: u64, label: Seq<u8>, index: u16, data: Seq<u8>, cap: int) -> Seq<u8> {
    let a = bounded_append(reply_prefix(ms, count, cap), cap, label);
    let b = bounded_append(bounded_append(a, cap, dec_digits(index as nat)), cap, seq![32u8]);
    bounded_append(b, cap, data)
}

pub fn build_reply_chunk(ms: u64, count: u64, label: &[u8], index: u16, data: &[u8], cap: usize) -> (r: Vec<u8>)
    ensures
        r@ == reply_chunk(ms, count, label@, index, data@, cap as int),
{
    let sp: &[u8] = &[32u8];
    assert(sp@ =~= seq![32u8]);
    let mut out = udp_reply_prefix(cap, ms, count);
    append_bytes(&mut out, cap, label);
    crate::bytes::append_u64_dec(&mut out, cap, index as u64);
    append_bytes(&mut out, cap, sp);
    append_bytes(&mut out, cap, data);
    out
}

/// How many bytes the next reply datagram carries: what is left of the data, of the
/// reply budget, and of one datagram's share.
pub fn reply_chunk_len(left: usize, sent: usize) -> (r: usize)
    ensures
        r == crate::bytes::min_int(
            crate::bytes::min_int(left as int, crate::bytes::room(sent as int, FETCH_MAX_REPLY_BYTES as int)),
            FETCH_CHUNK_BYTES as int,
        ),
{
    let remaining = if sent < FETCH_MAX_REPLY_BYTES {
        FETCH_MAX_REPLY_BYTES - sent
    } else {
        0
    };
    let mut n = left;
    if n > remaining {
        n = remaining;
    }
    if n > FETCH_CHUNK_BYTES {
        n = FETCH_CHUNK_BYTES;
    }
    n
}

/// The reply datagrams that carry `data_len` bytes of a body from `offset` on, when
/// `sent` body bytes have gone out already and the next datagram is number `index`:
/// (offset, length, number) each, as long as data and the reply budget last, each
/// datagram taking the most that `reply_chunk_len` allows.
pub open spec fn chunk_plan(data_len: int, offset: int, sent: int, index: u16) -> Seq<(usize, usize, u16)>
    decreases data_len - offset,
{
    let n = crate::bytes::min_int(
        crate::bytes::min_int(data_len - offset, crate::bytes::room(sent, FETCH_MAX_REPLY_BYTES as int)),
        FETCH_CHUNK_BYTES as int,
    );
    if offset >= data_len || n <= 0 {
        Seq::empty()
    } else {
        seq![(offset as usize, n as usize, index)] + chunk_plan(
            data_len,
            offset + n,
            sent + n,
            vstd::wrapping::u16_specs::wrapping_add(index, 1),
        )
    }
}

/// The bytes a plan carries.
pub open spec fn plan_bytes(p: Seq<(usize, usize, u16)>) -> int
    decreases p.len(),
{
    if p.len() == 0 {
        0
    } else {
        p[0].1 + plan_bytes(p.drop_first())
    }
}

/// Each datagram of a plan carries at least one and at most `FETCH_CHUNK_BYTES` bytes of
/// the data, in order, and all of them together no more than the reply budget left.
pub proof fn lemma_chunk_plan_bounds(data_len: int, offset: int, sent: int, index: u16)
    requires
        0 <= offset <= data_len <= usize::MAX,
        0 <= sent,
    ensures
        plan_bytes(chunk_plan(data_len, offset, sent, index)) <= crate::bytes::room(sent, FETCH_MAX_REPLY_BYTES as int),
        plan_bytes(chunk_plan(data_len, offset, sent, index)) <= data_len - offset,
        forall|k: int|
            0 <= k < chunk_plan(data_len, offset, sent, index).len() ==> 0 < (#[trigger] chunk_plan(
                data_len,
                offset,
                sent,
                index,
            )[k]).1 <= FETCH_CHUNK_BYTES && offset <= chunk_plan(data_len, offset, sent, index)[k].0 && chunk_plan(
                data_len,
                offset,
                sent,
                index,
            )[k].0 + chunk_plan(data_len, offset, sent, index)[k].1 <= data_len,
    decreases data_len - offset,
{
    let p = chunk_plan(data_len, offset, sent, index);
    let n = crate::bytes::min_int(
        crate::bytes::min_int(data_len - offset, crate::bytes::room(sent, FETCH_MAX_REPLY_BYTES as int)),
        FETCH_CHUNK_BYTES as int,
    );
    if offset < data_len && n > 0 {
        let next = vstd::wrapping::u16_specs::wrapping_add(index, 1);
        lemma_chunk_plan_bounds(data_len, offset + n, sent + n, next);
        let rest = chunk_plan(data_len, offset + n, sent + n, next);
        assert(p.drop_first() =~= rest);
        assert forall|k: int| 0 <= k < p.len() implies 0 < (#[trigger] p[k]).1 <= FETCH_CHUNK_BYTES && offset <= p[k].0
            && p[k].0 + p[k].1 <= data_len by {
            if k > 0 {
                assert(p[k] == rest[k - 1]);
            }
        }
    }
}

/// The reply datagrams for `data_len` bytes of a body (see `chunk_plan`); none when the
/// request came with no source port to answer.
pub fn plan_body_chunks(data_len: usize, sent: usize, index: u16, src_port: u16) -> (r: Vec<(usize, usize, u16)>)
    ensures
        r@ == (if src_port == 0 {
            Seq::empty()
        } else {
            chunk_plan(data_len as int, 0, sent as int, index)
        }),
        plan_bytes(r@) <= crate::bytes::room(sent as int, FETCH_MAX_REPLY_BYTES as int),
        forall|k: int| 0 <= k < r.len() ==> 0 < (#[trigger] r[k]).1 <= FETCH_CHUNK_BYTES && r[k].0 + r[k].1 <= data_len,
{
    let mut r: Vec<(usize, usize, u16)> = Vec::new();
    if src_port == 0 {
        assert(r@ =~= Seq::<(usize, usize, u16)>::empty());
        assert(plan_bytes(r@) == 0);
        return r;
    }
    let mut offset = 0usize;
    let mut done = sent;
    let mut idx = index;
    while offset < data_len
        invariant
            src_port != 0,
            offset <= data_len,
            r@ + chunk_plan(data_len as int, offset as int, done as int, idx) == chunk_plan(data_len as int, 0, sent as int, index),
        decreases data_len - offset,
    {
        let n = reply_chunk_len(data_len - offset, done);
        if n == 0 {
            assert(chunk_plan(data_len as int, offset as int, done as int, idx) =~= Seq::<(usize, usize, u16)>::empty());
            assert(r@ + Seq::<(usize, usize, u16)>::empty() =~= r@);
            proof {
                lemma_chunk_plan_bounds(data_len as int, 0, sent as int, index);
            }
            return r;
        }
        let ghost before = r@;
        r.push((offset, n, idx));
        assert(before + chunk_plan(data_len as int, offset as int, done as int, idx) =~= r@ + chunk_plan(
            data_len as int,
            (offset + n) as int,
            (done + n) as int,
            vstd::wrapping::u16_specs::wrapping_add(idx, 1),
        ));
        offset = offset + n;
        done = done + n;
        idx = idx.wrapping_add(1);
    }
    assert(chunk_plan(data_len as int, offset as int, done as int, idx) =~= Seq::<(usize, usize, u16)>::empty());
    assert(r@ + Seq::<(usize, usize, u16)>::empty() =~= r@);
    proof {
        lemma_chunk_plan_bounds(data_len as int, 0, sent as int, index);
    }
    r
}

/// How a fetch ended, as reported: `http ok <domain>` or `http fail <domain>`.
pub open spec fn done_text(ok: bool, domain: Seq<u8>) -> Seq<u8> {
    (if ok { seq![104u8, 116, 116, 112, 32, 111, 107, 32] } else { seq![104u8, 116, 116, 112, 32, 102, 97, 105, 108, 32] }) + domain
}

pub fn fetch_done_text(ok: bool, domain: &[u8]) -> (r: Vec<u8>)
    ensures
        r@ == done_text(ok, domain@),
{
    let head: &[u8] = if ok {
        &[104u8, 116, 116, 112, 32, 111, 107, 32]
    } else {
        &[104u8, 116, 116, 112, 32, 102, 97, 105, 108, 32]
    };
    assert(head@ =~= (if ok { seq![104u8, 116, 116, 112, 32, 111, 107, 32] } else { seq![104u8, 116, 116, 112, 32, 102, 97, 105, 108, 32] }));
    let mut out: Vec<u8> = Vec::new();
    crate::bytes::append_all(&mut out, head);
    crate::bytes::append_all(&mut out, domain);
    out
}

/// Where the end of a fetch is reported.
#[derive(Clone, Copy, PartialEq, Eq, Structural)]
pub enum DoneRoute {
    /// To the host that asked over UDP.
    Peer,
    /// The host already got its answer.
    AlreadyReplied,
    /// On the console.
    Console,
}

/// A fetch asked for over UDP (a source port is known) and not hidden behind a redirect
/// reports to that host, once; any other fetch reports on the console.
pub fn fetch_done_route(src_port: u16, suppress_ok: bool, reply_sent: bool) -> (r: DoneRoute)
    ensures
        r == (if src_port != 0 && !suppress_ok {
            if reply_sent {
                DoneRoute::AlreadyReplied
            } else {
                DoneRoute::Peer
            }
        } else {
            DoneRoute::Console
        }),
{
    if src_port != 0 && !suppress_ok {
        if reply_sent {
            DoneRoute::AlreadyReplied
        } else {
            DoneRoute::Peer
        }
    } else {
        DoneRoute::Console
    }
}

// ---------------------------------------------------------------------------
// Failure reasons and states
// ---------------------------------------------------------------------------

pub open spec fn transport_reasons() -> Seq<Seq<u8>> {
    seq![
        seq![110u8, 101, 116, 119, 111, 114, 107, 32, 114, 101, 113, 117, 101, 115, 116, 32, 116, 105, 109, 101, 100, 32, 111, 117, 116],
        seq![103u8, 97, 116, 101, 119, 97, 121, 32, 97, 114, 112, 32, 116, 105, 109, 101, 100, 32, 111, 117, 116],
        seq![100u8, 110, 115, 32, 108, 111, 111, 107, 117, 112, 32, 116, 105, 109, 101, 100, 32, 111, 117, 116],
        seq![116u8, 99, 112, 32, 99, 111, 110, 110, 101, 99, 116, 32, 116, 105, 109, 101, 100, 32, 111, 117, 116],
        seq![112u8, 114, 111, 120, 121, 32, 104, 97, 110, 100, 115, 104, 97, 107, 101, 32, 116, 105, 109, 101, 100, 32, 111, 117, 116],
        seq![112u8, 114, 111, 120, 121, 32, 99, 111, 110, 110, 101, 99, 116, 32, 116, 105, 109, 101, 100, 32, 111, 117, 116],
        seq![104u8, 116, 116, 112, 32, 114, 101, 115, 112, 111, 110, 115, 101, 32, 116, 105, 109, 101, 100, 32, 111, 117, 116],
        seq![116u8, 108, 115, 32, 104, 97, 110, 100, 115, 104, 97, 107, 101, 32, 102, 97, 105, 108, 101, 100],
        seq![116u8, 108, 115, 32, 119, 114, 105, 116, 101, 32, 102, 97, 105, 108, 101, 100],
        seq![116u8, 108, 115, 32, 114, 101, 97, 100, 32, 102, 97, 105, 108, 101, 100],
    ]
}

/// The reason names a transport failure worth retrying: it starts with one of
/// `transport_reasons`.
pub open spec fn spec_transport_retryable(reason: Seq<u8>) -> bool {
    exists|k: int|
        0 <= k < transport_reasons().len() && #[trigger] matches_at(reason, 0, transport_reasons()[k])
}

pub fn fetch_reason_is_transport_retryable(reason: &[u8]) -> (r: bool)
    ensures
        r == spec_transport_retryable(reason@),
{
    let pats: [&[u8]; 10] = [
        &[110u8, 101, 116, 119, 111, 114, 107, 32, 114, 101, 113, 117, 101, 115, 116, 32, 116, 105, 109, 101, 100, 32, 111, 117, 116],
        &[103u8, 97, 116, 101, 119, 97, 121, 32, 97, 114, 112, 32, 116, 105, 109, 101, 100, 32, 111, 117, 116],
        &[100u8, 110, 115, 32, 108, 111, 111, 107, 117, 112, 32, 116, 105, 109, 101, 100, 32, 111, 117, 116],
        &[116u8, 99, 112, 32, 99, 111, 110, 110, 101, 99, 116, 32, 116, 105, 109, 101, 100, 32, 111, 117, 116],
        &[112u8, 114, 111, 120, 121, 32, 104, 97, 110, 100, 115, 104, 97, 107, 101, 32, 116, 105, 109, 101, 100, 32, 111, 117, 116],
        &[112u8, 114, 111, 120, 121, 32, 99, 111, 110, 110, 101, 99, 116, 32, 116, 105, 109, 101, 100, 32, 111, 117, 116],
        &[104u8, 116, 116, 112, 32, 114, 101, 115, 112, 111, 110, 115, 101, 32, 116, 105, 109, 101, 100, 32, 111, 117, 116],
        &[116u8, 108, 115, 32, 104, 97, 110, 100, 115, 104, 97, 107, 101, 32, 102, 97, 105, 108, 101, 100],
        &[116u8, 108, 115, 32, 119, 114, 105, 116, 101, 32, 102, 97, 105, 108, 101, 100],
        &[116u8, 108, 115, 32, 114, 101, 97, 100, 32, 102, 97, 105, 108, 101, 100],
    ];
    assert(pats@.map_values(|p: &[u8]| p@) =~= transport_reasons());
    let mut k = 0usize;
    while k < 10
        invariant
            k <= 10,
            pats@.map_values(|p: &[u8]| p@) == transport_reasons(),
            forall|j: int| 0 <= j < k ==> !#[trigger] matches_at(reason@, 0, transport_reasons()[j]),
        decreases 10 - k,
    {
        assert(pats[k as int]@ == transport_reasons()[k as int]);
        if crate::bytes::starts_with(reason, reason.len(), pats[k]) {
            return true;
        }
        k += 1;
    }
    false
}

/// The reason of the last failed fetch and until when transport retries pause.
pub struct FetchError {
    pub reason: Vec<u8>,
    pub cooldown_until_ms: u64,
}

impl FetchError {
    pub fn new() -> (r: Self)
        ensures
            r.reason@ == Seq::<u8>::empty(),
            r.cooldown_until_ms == 0,
    {
        FetchError { reason: Vec::new(), cooldown_until_ms: 0 }
    }

    /// Forgets the reason.
    pub fn clear_fetch_error_reason(&mut self)
        ensures
            final(self).reason@ == Seq::<u8>::empty(),
            final(self).cooldown_until_ms == old(self).cooldown_until_ms,
    {
        self.reason = Vec::new();
    }

    /// Records `reason` (cut to `FETCH_ERROR_REASON_MAX` bytes) at time `now`; a transport
    /// failure pushes the pause to `now + FETCH_TRANSPORT_COOLDOWN_MS` unless it already
    /// lasts longer.
    pub fn set_fetch_error_reason(&mut self, reason: &[u8], now: u64)
        ensures
            final(self).reason@ == reason@.take(
                crate::bytes::min_int(reason.len() as int, FETCH_ERROR_REASON_MAX as int),
            ),
            final(self).cooldown_until_ms == (if spec_transport_retryable(final(self).reason@)
                && crate::http::sat_add(now, FETCH_TRANSPORT_COOLDOWN_MS as int)
                > old(self).cooldown_until_ms {
                crate::http::sat_add(now, FETCH_TRANSPORT_COOLDOWN_MS as int)
            } else {
                old(self).cooldown_until_ms
            }),
    {
        self.reason = crate::bytes::copy_bytes(FETCH_ERROR_REASON_MAX, reason);
        if fetch_reason_is_transport_retryable(self.reason.as_slice()) {
            let until = now.saturating_add(FETCH_TRANSPORT_COOLDOWN_MS);
            if until > self.cooldown_until_ms {
                self.cooldown_until_ms = until;
            }
        }
    }

    /// Records `reason` unless one is recorded already.
    pub fn set_fetch_error_reason_if_empty(&mut self, reason: &[u8], now: u64)
        ensures
            old(self).reason@.len() != 0 ==> final(self).reason@ == old(self).reason@
                && final(self).cooldown_until_ms == old(self).cooldown_until_ms,
            old(self).reason@.len() == 0 ==> final(self).reason@ == reason@.take(
                crate::bytes::min_int(reason.len() as int, FETCH_ERROR_REASON_MAX as int),
            ),
    {
        if self.reason.len() == 0 {
            self.set_fetch_error_reason(reason, now);
        }
    }
}

pub open spec fn spec_fetch_state_name(state: u8) -> Seq<u8> {
    if state == FETCH_IDLE {
        seq![105u8, 100, 108, 101]
    } else if state == FETCH_ARP {
        seq![97u8, 114, 112]
    } else if state == FETCH_DNS {
        seq![100u8, 110, 115]
    } else if state == FETCH_SYN {
        seq![116u8, 99, 112, 95, 99, 111, 110, 110, 101, 99, 116]
    } else if state == FETCH_HTTP {
        seq![104u8, 116, 116, 112, 95, 114, 101, 113, 117, 101, 115, 116]
    } else if state == FETCH_TLS_HANDSHAKE {
        seq![116u8, 108, 115, 95, 104, 97, 110, 100, 115, 104, 97, 107, 101]
    } else if state == FETCH_TLS_HTTP {
        seq![104u8, 116, 116, 112, 115, 95, 114, 101, 113, 117, 101, 115, 116]
    } else if state == FETCH_TLS_READ {
        seq![104u8, 116, 116, 112, 115, 95, 114, 101, 97, 100]
    } else if state == FETCH_DONE {
        seq![100u8, 111, 110, 101]
    } else if state == FETCH_SOCKS_HELLO {
        seq![112u8, 114, 111, 120, 121, 95, 104, 101, 108, 108, 111]
    } else if state == FETCH_SOCKS_CONNECT {
        seq![112u8, 114, 111, 120, 121, 95, 99, 111, 110, 110, 101, 99, 116]
    } else {
        seq![117u8, 110, 107, 110, 111, 119, 110]
    }
}

/// The name a fetch state is traced under.
pub fn fetch_state_name(state: u8) -> (r: &'static [u8])
    ensures
        r@ == spec_fetch_state_name(state),
{
    let r: &'static [u8] = if state == FETCH_IDLE {
        &[105u8, 100, 108, 101]
    } else if state == FETCH_ARP {
        &[97u8, 114, 112]
    } else if state == FETCH_DNS {
        &[100u8, 110, 115]
    } else if state == FETCH_SYN {
        &[116u8, 99, 112, 95, 99, 111, 110, 110, 101, 99, 116]
    } else if state == FETCH_HTTP {
        &[104u8, 116, 116, 112, 95, 114, 101, 113, 117, 101, 115, 116]
    } else if state == FETCH_TLS_HANDSHAKE {
        &[116u8, 108, 115, 95, 104, 97, 110, 100, 115, 104, 97, 107, 101]
    } else if state == FETCH_TLS_HTTP {
        &[104u8, 116, 116, 112, 115, 95, 114, 101, 113, 117, 101, 115, 116]
    } else if state == FETCH_TLS_READ {
        &[104u8, 116, 116, 112, 115, 95, 114, 101, 97, 100]
    } else if state == FETCH_DONE {
        &[100u8, 111, 110, 101]
    } else if state == FETCH_SOCKS_HELLO {
        &[112u8, 114, 111, 120, 121, 95, 104, 101, 108, 108, 111]
    } else if state == FETCH_SOCKS_CONNECT {
        &[112u8, 114, 111, 120, 121, 95, 99, 111, 110, 110, 101, 99, 116]
    } else {
        &[117u8, 110, 107, 110, 111, 119, 110]
    };
    assert(r@ =~= spec_fetch_state_name(state));
    r
}

// ---------------------------------------------------------------------------
// Console input lines
// ---------------------------------------------------------------------------

/// The line from byte `i` on with terminal escape sequences dropped (from ESC up to and
/// including a byte in `0x40..=0x7e`), tabs turned into spaces, other control bytes
/// dropped, written after `out` while it is shorter than `UART_LINE_MAX`.
pub open spec fn clean_from(line: Seq<u8>, i: int, len: int, skip: bool, out: Seq<u8>) -> Seq<u8>
    decreases len - i,
{
    if i < 0 || i >= len || out.len() >= UART_LINE_MAX {
        out
    } else {
        let b = line[i];
        if skip {
            clean_from(line, i + 1, len, !(0x40 <= b <= 0x7e), out)
        } else if b == 0x1b {
            clean_from(line, i + 1, len, true, out)
        } else if b < 0x20 || b == 0x7f {
            clean_from(
                line,
                i + 1,
                len,
                false,
                if b == 9 {
                    out.push(32u8)
                } else {
                    out
                },
            )
        } else {
            clean_from(line, i + 1, len, false, out.push(b))
        }
    }
}

/// The first `len` bytes of a console line cleaned (see `clean_from`) and trimmed.
pub fn sanitize_uart_line(line: &[u8], len: usize) -> (r: Vec<u8>)
    requires
        len <= line.len(),
    ensures
        r@ == trimmed(
            clean_from(line@, 0, len as int, false, Seq::empty()),
            clean_from(line@, 0, len as int, false, Seq::empty()).len() as int,
        ),
{
    let mut out: Vec<u8> = Vec::new();
    let mut skip = false;
    let mut i = 0usize;
    while i < len && out.len() < UART_LINE_MAX
        invariant
            i <= len <= line.len(),
            clean_from(line@, i as int, len as int, skip, out@) == clean_from(
                line@,
                0,
                len as int,
                false,
                Seq::empty(),
            ),
        decreases len - i,
    {
        let b = line[i];
        if skip {
            if 0x40u8 <= b && b <= 0x7eu8 {
                skip = false;
            }
        } else if b == 0x1bu8 {
            skip = true;
        } else if b < 0x20u8 || b == 0x7fu8 {
            if b == 9u8 {
                out.push(32u8);
            }
        } else {
            out.push(b);
        }
        i += 1;
    }
    let n = out.len();
    crate::bytes::trim_ascii_in_place(&mut out, n);
    out
}

} // verus!

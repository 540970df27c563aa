use vstd::prelude::*;
use crate::bytes::append_all;
use crate::net::be16;

verus! {

pub const DNS_HEADER_LEN: usize = 12;
pub const DNS_MAX_LABEL: usize = 63;
pub const DNS_MAX_LABELS: u32 = 128;

pub open spec fn label_char(b: u8) -> bool {
    (65 <= b <= 90) || (97 <= b <= 122) || (48 <= b <= 57) || b == 45
}

/// First `.` at or after `i`, or the length.
pub open spec fn dot_from(name: Seq<u8>, i: int) -> int
    decreases name.len() - i,
{
    if i >= name.len() {
        name.len() as int
    } else if name[i] == 46 {
        i
    } else {
        dot_from(name, i + 1)
    }
}

pub proof fn lemma_dot_from(name: Seq<u8>, i: int)
    requires
        0 <= i <= name.len(),
    ensures
        i <= dot_from(name, i) <= name.len(),
        dot_from(name, i) < name.len() ==> name[dot_from(name, i)] == 46,
    decreases name.len() - i,
{
    if i < name.len() && name[i] != 46 {
        lemma_dot_from(name, i + 1);
    }
}

/// The wire form of the labels of `name` from `start` on: each label as its length and
/// its bytes; `None` when a label is empty, longer than 63 bytes, or holds a byte other
/// than a letter, a digit or `-`.
pub open spec fn qname_from(name: Seq<u8>, start: int) -> Option<Seq<u8>>
    decreases name.len() - start,
{
    if start < 0 || start > name.len() {
        None
    } else {
        let d = dot_from(name, start);
        let l = d - start;
        if l <= 0 || l > DNS_MAX_LABEL || !(forall|k: int| start <= k < d ==> #[trigger] label_char(
            name[k],
        )) {
            None
        } else if d >= name.len() {
            Some(seq![l as u8] + name.subrange(start, d))
        } else {
            match qname_from(name, d + 1) {
                Some(rest) => Some(seq![l as u8] + name.subrange(start, d) + rest),
                None => None,
            }
        }
    }
}

/// A query header: the identifier, recursion desired, one question.
pub open spec fn query_header(id: u16) -> Seq<u8> {
    seq![(id / 256) as u8, (id % 256) as u8, 1u8, 0, 0, 1, 0, 0, 0, 0, 0, 0]
}

/// The end of the name, type A, class IN.
pub open spec fn query_tail() -> Seq<u8> {
    seq![0u8, 0, 1, 0, 1]
}

/// A query for the IPv4 address of `name`, or `None` when the name is malformed or the
/// query exceeds `cap` bytes.
pub open spec fn spec_dns_query(name: Seq<u8>, id: u16, cap: int) -> Option<Seq<u8>> {
    match qname_from(name, 0) {
        Some(q) => if 12 + q.len() + 5 <= cap {
            Some(query_header(id) + q + query_tail())
        } else {
            None
        },
        None => None,
    }
}

fn find_dot(name: &[u8], start: usize) -> (d: usize)
    requires
        start <= name.len(),
    ensures
        d == dot_from(name@, start as int),
{
    let mut i = start;
    while i < name.len() && name[i] != 46u8
        invariant
            start <= i <= name.len(),
            dot_from(name@, i as int) == dot_from(name@, start as int),
        decreases name.len() - i,
    {
        i += 1;
    }
    i
}

fn all_label_chars(name: &[u8], s: usize, e: usize) -> (r: bool)
    requires
        s <= e <= name.len(),
    ensures
        r == (forall|k: int| s <= k < e ==> #[trigger] label_char(name@[k])),
{
    let mut i = s;
    while i < e
        invariant
            s <= i <= e <= name.len(),
            forall|k: int| s <= k < i ==> #[trigger] label_char(name@[k]),
        decreases e - i,
    {
        let b = name[i];
        if !((65u8 <= b && b <= 90u8) || (97u8 <= b && b <= 122u8) || (48u8 <= b && b <= 57u8) || b
            == 45u8) {
            assert(!label_char(name@[i as int]));
            return false;
        }
        i += 1;
    }
    true
}

/// Builds the query of `spec_dns_query`; empty when that is `None`.
pub fn dns_build_query(name: &[u8], id: u16, cap: usize) -> (r: Vec<u8>)
    ensures
        match spec_dns_query(name@, id, cap as int) {
            Some(q) => r@ == q,
            None => r@.len() == 0,
        },
{
    let mut q: Vec<u8> = Vec::new();
    let mut start = 0usize;
    let mut done = false;
    while !done
        invariant
            start <= name.len(),
            !done ==> qname_from(name@, 0) == match qname_from(name@, start as int) {
                Some(rest) => Some(q@ + rest),
                None => None,
            },
            done ==> qname_from(name@, 0) == Some(q@),
        decreases name.len() - start, if done { 0int } else { 1int },
    {
        let d = find_dot(name, start);
        proof {
            lemma_dot_from(name@, start as int);
        }
        let l = d - start;
        if l == 0 || l > DNS_MAX_LABEL || !all_label_chars(name, start, d) {
            return Vec::new();
        }
        let ghost q0 = q@;
        q.push(l as u8);
        append_all(&mut q, vstd::slice::slice_subrange(name, start, d));
        assert(q@ =~= q0 + (seq![l as u8] + name@.subrange(start as int, d as int)));
        if d >= name.len() {
            done = true;
        } else {
            start = d + 1;
        }
    }
    if q.len() > cap || cap - q.len() < 17 {
        return Vec::new();
    }
    let mut out: Vec<u8> = Vec::new();
    out.push((id / 256) as u8);
    out.push((id % 256) as u8);
    let rest: &[u8] = &[1u8, 0, 0, 1, 0, 0, 0, 0, 0, 0];
    append_all(&mut out, rest);
    assert(out@ =~= query_header(id));
    append_all(&mut out, q.as_slice());
    let tail: &[u8] = &[0u8, 0, 1, 0, 1];
    append_all(&mut out, tail);
    assert(out@ =~= query_header(id) + q@ + query_tail());
    out
}

/// Offset just after the name at `off` (a run of labels ending in a zero byte or in a
/// compression pointer), having read `seen` labels already; `None` when it runs past
/// `len` or holds more than 128 labels.
pub open spec fn skip_name(buf: Seq<u8>, len: int, off: int, seen: int) -> Option<int>
    decreases len - off,
{
    if off < 0 || off >= len {
        None
    } else if buf[off] == 0 {
        Some(off + 1)
    } else if buf[off] >= 192 {
        if off + 1 >= len {
            None
        } else {
            Some(off + 2)
        }
    } else if off + 1 + buf[off] > len || seen + 1 > DNS_MAX_LABELS {
        None
    } else {
        skip_name(buf, len, off + 1 + buf[off], seen + 1)
    }
}

pub proof fn lemma_skip_name(buf: Seq<u8>, len: int, off: int, seen: int)
    ensures
        skip_name(buf, len, off, seen) matches Some(o) ==> off < o <= len,
    decreases len - off,
{
    if off < 0 || off >= len {
    } else if buf[off] == 0 {
    } else if buf[off] >= 192 {
    } else if off + 1 + buf[off] > len || seen + 1 > DNS_MAX_LABELS {
    } else {
        lemma_skip_name(buf, len, off + 1 + buf[off], seen + 1);
    }
}

/// Skips the name at `off` (see `skip_name`).
pub fn dns_skip_name(buf: &[u8], len: usize, off: usize) -> (r: Option<usize>)
    requires
        len <= buf.len(),
    ensures
        match r {
            Some(o) => skip_name(buf@, len as int, off as int, 0) == Some(o as int),
            None => skip_name(buf@, len as int, off as int, 0) is None,
        },
{
    let mut pos = off;
    let mut seen: u32 = 0;
    while pos < len
        invariant
            len <= buf.len(),
            seen <= DNS_MAX_LABELS,
            skip_name(buf@, len as int, pos as int, seen as int) == skip_name(
                buf@,
                len as int,
                off as int,
                0,
            ),
        decreases len - pos,
    {
        let b = buf[pos];
        if b == 0 {
            return Some(pos + 1);
        }
        if b >= 192u8 {
            if pos + 1 >= len {
                return None;
            }
            return Some(pos + 2);
        }
        let l = b as usize;
        if len - pos - 1 < l {
            return None;
        }
        if seen + 1 > DNS_MAX_LABELS {
            return None;
        }
        pos = pos + 1 + l;
        seen += 1;
    }
    None
}

/// What a DNS response yields.
#[derive(Clone, Copy, Debug, PartialEq, Eq)]
pub enum DnsReply {
    Address([u8; 4]),
    /// The server set the truncation flag.
    TooLarge,
    NoAddress,
}

/// Offset after `n` questions from `off`.
pub open spec fn skip_questions(buf: Seq<u8>, len: int, off: int, n: nat) -> Option<int>
    decreases n,
{
    if n == 0 {
        Some(off)
    } else {
        match skip_name(buf, len, off, 0) {
            None => None,
            Some(o) => if o + 4 > len {
                None
            } else {
                skip_questions(buf, len, o + 4, (n - 1) as nat)
            },
        }
    }
}

/// The address of the first of `n` answers from `off` that is an A record of class IN
/// with four bytes of data.
pub open spec fn find_answer(buf: Seq<u8>, len: int, off: int, n: nat) -> Option<[u8; 4]>
    decreases n,
{
    if n == 0 {
        None
    } else {
        match skip_name(buf, len, off, 0) {
            None => None,
            Some(o) => if o + 10 > len {
                None
            } else {
                let rdlen = be16(buf, o + 8);
                let data = o + 10;
                if data + rdlen > len {
                    None
                } else if be16(buf, o) == 1 && be16(buf, o + 2) == 1 && rdlen == 4 {
                    Some([buf[data], buf[data + 1], buf[data + 2], buf[data + 3]])
                } else {
                    find_answer(buf, len, data + rdlen, (n - 1) as nat)
                }
            },
        }
    }
}

/// The reading of the response `buf[..len]` to the query `id`: `TooLarge` when the
/// truncation flag is set; otherwise an address only for a response with our identifier
/// that is a reply without error code and holds an A answer.
pub open spec fn spec_dns_parse_response(buf: Seq<u8>, len: int, id: u16) -> DnsReply {
    if len < 12 || be16(buf, 0) != id {
        DnsReply::NoAddress
    } else if (buf[2] / 2) % 2 == 1 {
        DnsReply::TooLarge
    } else if buf[2] < 128 || buf[3] % 16 != 0 {
        DnsReply::NoAddress
    } else {
        match skip_questions(buf, len, 12, be16(buf, 4) as nat) {
            None => DnsReply::NoAddress,
            Some(off) => match find_answer(buf, len, off, be16(buf, 6) as nat) {
                Some(ip) => DnsReply::Address(ip),
                None => DnsReply::NoAddress,
            },
        }
    }
}

/// A reply that the runtime reads: long enough, answering query `id`, not truncated, a
/// response, with no error code.
pub open spec fn good_reply_header(buf: Seq<u8>, len: int, id: u16) -> bool {
    &&& 12 <= len <= buf.len()
    &&& be16(buf, 0) == id
    &&& (buf[2] / 2) % 2 == 0
    &&& buf[2] >= 128
    &&& buf[3] % 16 == 0
}

/// A complete resource record at `off`: its name ends at `o`, then type, class, TTL and
/// data length, and `rdlen` data bytes, all within `len`.
pub open spec fn record_at(buf: Seq<u8>, len: int, off: int, o: int, rdlen: int) -> bool {
    &&& skip_name(buf, len, off, 0) == Some(o)
    &&& o + 10 <= len
    &&& rdlen == be16(buf, o + 8)
    &&& o + 10 + rdlen <= len
}

/// An address record: type A (1), class IN (1), four bytes of data.
pub open spec fn is_address_record(buf: Seq<u8>, o: int, rdlen: int) -> bool {
    be16(buf, o) == 1 && be16(buf, o + 2) == 1 && rdlen == 4
}

/// The address a reply gives is that of its first A record of class IN with four bytes
/// of data: when the first answer is one, its address; when the first answer is another
/// record (a CNAME, say) and the second is one, the second's address.
pub proof fn lemma_dns_first_address_record(
    buf: Seq<u8>,
    len: int,
    id: u16,
    q: int,
    o1: int,
    r1: int,
    o2: int,
    r2: int,
)
    requires
        good_reply_header(buf, len, id),
        skip_questions(buf, len, 12, be16(buf, 4) as nat) == Some(q),
        be16(buf, 6) >= 1,
        record_at(buf, len, q, o1, r1),
    ensures
        is_address_record(buf, o1, r1) ==> spec_dns_parse_response(buf, len, id) == DnsReply::Address(
            [buf[o1 + 10], buf[o1 + 11], buf[o1 + 12], buf[o1 + 13]],
        ),
        !is_address_record(buf, o1, r1) && be16(buf, 6) >= 2 && record_at(buf, len, o1 + 10 + r1, o2, r2)
            && is_address_record(buf, o2, r2) ==> spec_dns_parse_response(buf, len, id) == DnsReply::Address(
            [buf[o2 + 10], buf[o2 + 11], buf[o2 + 12], buf[o2 + 13]],
        ),
{
    let n = be16(buf, 6) as nat;
    assert(find_answer(buf, len, q, n) == if is_address_record(buf, o1, r1) {
        Some([buf[o1 + 10], buf[o1 + 11], buf[o1 + 12], buf[o1 + 13]])
    } else {
        find_answer(buf, len, o1 + 10 + r1, (n - 1) as nat)
    });
    if !is_address_record(buf, o1, r1) && be16(buf, 6) >= 2 && record_at(buf, len, o1 + 10 + r1, o2, r2)
        && is_address_record(buf, o2, r2) {
        assert(find_answer(buf, len, o1 + 10 + r1, (n - 1) as nat) == Some(
            [buf[o2 + 10], buf[o2 + 11], buf[o2 + 12], buf[o2 + 13]],
        ));
    }
}

/// The offset after `k` complete answer records from `off` that are none of them address
/// records (CNAME records, say); `None` when there are not that many.
pub open spec fn skip_other_records(buf: Seq<u8>, len: int, off: int, k: nat) -> Option<int>
    decreases k,
{
    if k == 0 {
        Some(off)
    } else {
        match skip_name(buf, len, off, 0) {
            Some(o) => if o + 10 <= len && o + 10 + be16(buf, o + 8) <= len && !is_address_record(
                buf,
                o,
                be16(buf, o + 8) as int,
            ) {
                skip_other_records(buf, len, o + 10 + be16(buf, o + 8), (k - 1) as nat)
            } else {
                None
            },
            None => None,
        }
    }
}

proof fn lemma_find_after_others(buf: Seq<u8>, len: int, off: int, k: nat, n: nat)
    requires
        skip_other_records(buf, len, off, k) is Some,
        n > k,
    ensures
        find_answer(buf, len, off, n) == find_answer(
            buf,
            len,
            skip_other_records(buf, len, off, k)->0,
            (n - k) as nat,
        ),
    decreases k,
{
    if k > 0 {
        let o = skip_name(buf, len, off, 0)->0;
        lemma_find_after_others(buf, len, o + 10 + be16(buf, o + 8), (k - 1) as nat, (n - 1) as nat);
    }
}

/// Whatever other records come first in the answer section, the address a reply gives is
/// that of its first A record of class IN with four bytes of data.
pub proof fn lemma_dns_address_after_other_records(
    buf: Seq<u8>,
    len: int,
    id: u16,
    q: int,
    k: nat,
    o: int,
    r: int,
)
    requires
        good_reply_header(buf, len, id),
        skip_questions(buf, len, 12, be16(buf, 4) as nat) == Some(q),
        be16(buf, 6) > k,
        skip_other_records(buf, len, q, k) is Some,
        record_at(buf, len, skip_other_records(buf, len, q, k)->0, o, r),
        is_address_record(buf, o, r),
    ensures
        spec_dns_parse_response(buf, len, id) == DnsReply::Address(
            [buf[o + 10], buf[o + 11], buf[o + 12], buf[o + 13]],
        ),
{
    lemma_find_after_others(buf, len, q, k, be16(buf, 6) as nat);
}

fn read16(buf: &[u8], i: usize) -> (r: u16)
    requires
        i + 2 <= buf.len(),
    ensures
        r == be16(buf@, i as int),
{
    (buf[i] as u16) * 256 + (buf[i + 1] as u16)
}

#[verifier::loop_isolation(false)]
pub fn dns_parse_response(buf: &[u8], len: usize, id: u16) -> (r: DnsReply)
    requires
        len <= buf.len(),
    ensures
        r == spec_dns_parse_response(buf@, len as int, id),
{
    if len < 12 {
        return DnsReply::NoAddress;
    }
    if read16(buf, 0) != id {
        return DnsReply::NoAddress;
    }
    if (buf[2] / 2) % 2 == 1 {
        return DnsReply::TooLarge;
    }
    if buf[2] < 128u8 || buf[3] % 16 != 0 {
        return DnsReply::NoAddress;
    }
    let qd = read16(buf, 4);
    let an = read16(buf, 6);
    let mut off = 12usize;
    let mut k: u16 = 0;
    while k < qd
        invariant
            len <= buf.len(),
            k <= qd,
            off <= len,
            skip_questions(buf@, len as int, 12, qd as nat) == skip_questions(
                buf@,
                len as int,
                off as int,
                (qd - k) as nat,
            ),
        decreases qd - k,
    {
        let o = match dns_skip_name(buf, len, off) {
            Some(v) => v,
            None => return DnsReply::NoAddress,
        };
        proof {
            lemma_skip_name(buf@, len as int, off as int, 0);
        }
        if len - o < 4 {
            return DnsReply::NoAddress;
        }
        off = o + 4;
        k += 1;
    }
    k = 0;
    while k < an
        invariant
            len <= buf.len(),
            k <= an,
            off <= len,
            skip_questions(buf@, len as int, 12, qd as nat) is Some,
            find_answer(
                buf@,
                len as int,
                skip_questions(buf@, len as int, 12, qd as nat).unwrap(),
                an as nat,
            ) == find_answer(buf@, len as int, off as int, (an - k) as nat),
        decreases an - k,
    {
        let o = match dns_skip_name(buf, len, off) {
            Some(v) => v,
            None => return DnsReply::NoAddress,
        };
        proof {
            lemma_skip_name(buf@, len as int, off as int, 0);
        }
        if len - o < 10 {
            return DnsReply::NoAddress;
        }
        let typ = read16(buf, o);
        let class = read16(buf, o + 2);
        let rdlen = read16(buf, o + 8) as usize;
        let data = o + 10;
        if len - data < rdlen {
            return DnsReply::NoAddress;
        }
        if typ == 1 && class == 1 && rdlen == 4 {
            return DnsReply::Address([buf[data], buf[data + 1], buf[data + 2], buf[data + 3]]);
        }
        off = data + rdlen;
        k += 1;
    }
    DnsReply::NoAddress
}

} // verus!

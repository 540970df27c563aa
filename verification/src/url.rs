use vstd::prelude::*;
use crate::bytes::{
    ascii_lower, digits_value, is_space, matches_at, skip_spaces, spec_ascii_lower, spec_is_digit,
    spec_is_space, starts_with_at, strip_trailing, trim_ascii_bounds, trim_bounds,
};

verus! {

// ---------------------------------------------------------------------------
// IPv4 literals
// ---------------------------------------------------------------------------

/// End of the run of decimal digits that starts at `i`.
pub open spec fn digit_run_end(buf: Seq<u8>, i: int) -> int
    decreases buf.len() - i,
{
    if 0 <= i < buf.len() && spec_is_digit(buf[i]) {
        digit_run_end(buf, i + 1)
    } else {
        i
    }
}

pub proof fn lemma_digit_run_end(buf: Seq<u8>, i: int)
    requires
        0 <= i <= buf.len(),
    ensures
        i <= digit_run_end(buf, i) <= buf.len(),
        forall|k: int| i <= k < digit_run_end(buf, i) ==> spec_is_digit(#[trigger] buf[k]),
    decreases buf.len() - i,
{
    if 0 <= i < buf.len() && spec_is_digit(buf[i]) {
        lemma_digit_run_end(buf, i + 1);
    }
}

/// Octets of a dotted quad starting at `idx`, as part number `part` (0 to 3): each part is
/// a non-empty run of digits of value at most 255, parts are separated by `.`, and the
/// last one ends the input.
pub open spec fn ipv4_from(buf: Seq<u8>, idx: int, part: int) -> Option<Seq<u8>>
    decreases 4 - part,
{
    let e = digit_run_end(buf, idx);
    if part < 0 || part > 3 || idx < 0 || e == idx || digits_value(buf, idx, e, 0) > 255 {
        None
    } else if part == 3 {
        if e == buf.len() {
            Some(seq![digits_value(buf, idx, e, 0) as u8])
        } else {
            None
        }
    } else if e < buf.len() && buf[e] == 46 {
        match ipv4_from(buf, e + 1, part + 1) {
            Some(rest) => Some(seq![digits_value(buf, idx, e, 0) as u8] + rest),
            None => None,
        }
    } else {
        None
    }
}

/// The octets of `buf` read as a dotted-quad IPv4 address.
pub open spec fn spec_parse_ipv4(buf: Seq<u8>) -> Option<Seq<u8>> {
    ipv4_from(buf, 0, 0)
}

/// One part of a dotted quad at `idx`: its value and where it ends.
fn parse_octet(buf: &[u8], idx: usize) -> (r: Option<(u8, usize)>)
    requires
        idx <= buf.len(),
    ensures
        r matches Some((v, e)) ==> e == digit_run_end(buf@, idx as int) && e > idx && digits_value(
            buf@,
            idx as int,
            e as int,
            0,
        ) == v,
        r is None ==> (digit_run_end(buf@, idx as int) == idx || digits_value(
            buf@,
            idx as int,
            digit_run_end(buf@, idx as int),
            0,
        ) > 255),
{
    let mut i = idx;
    let mut value: u16 = 0;
    while i < buf.len() && 48u8 <= buf[i] && buf[i] <= 57u8
        invariant
            idx <= i <= buf.len(),
            value <= 255,
            digit_run_end(buf@, i as int) == digit_run_end(buf@, idx as int),
            digits_value(buf@, idx as int, digit_run_end(buf@, idx as int), 0) == digits_value(
                buf@,
                i as int,
                digit_run_end(buf@, idx as int),
                value as nat,
            ),
        decreases buf.len() - i,
    {
        proof {
            lemma_digit_run_end(buf@, i as int);
            lemma_digit_run_end(buf@, i + 1);
        }
        value = value * 10 + (buf[i] - 48u8) as u16;
        if value > 255 {
            proof {
                lemma_digits_value_monotone(
                    buf@,
                    i + 1,
                    digit_run_end(buf@, idx as int),
                    value as nat,
                );
            }
            return None;
        }
        i += 1;
    }
    if i == idx {
        return None;
    }
    Some((value as u8, i))
}

/// Reading more digits never lowers the value.
pub proof fn lemma_digits_value_monotone(buf: Seq<u8>, from: int, to: int, acc: nat)
    ensures
        digits_value(buf, from, to, acc) >= acc || acc > u64::MAX,
    decreases to - from,
{
    if from < to && from < buf.len() && spec_is_digit(buf[from]) {
        let next = acc * 10 + (buf[from] - 48);
        lemma_digits_value_monotone(
            buf,
            from + 1,
            to,
            if next > u64::MAX { u64::MAX as nat } else { next as nat },
        );
    }
}

/// Parses a dotted-quad IPv4 address that makes up all of `buf`.
pub fn parse_ipv4_bytes(buf: &[u8]) -> (r: Option<[u8; 4]>)
    ensures
        r matches Some(a) ==> spec_parse_ipv4(buf@) == Some(a@),
        r is None ==> spec_parse_ipv4(buf@) is None,
{
    proof {
        reveal_with_fuel(ipv4_from, 5);
    }
    let (a, e0) = parse_octet(buf, 0)?;
    if e0 >= buf.len() || buf[e0] != 46u8 {
        return None;
    }
    let (b, e1) = parse_octet(buf, e0 + 1)?;
    if e1 >= buf.len() || buf[e1] != 46u8 {
        return None;
    }
    let (c, e2) = parse_octet(buf, e1 + 1)?;
    if e2 >= buf.len() || buf[e2] != 46u8 {
        return None;
    }
    let (d, e3) = parse_octet(buf, e2 + 1)?;
    if e3 != buf.len() {
        return None;
    }
    let out = [a, b, c, d];
    assert(out@ =~= seq![a] + (seq![b] + (seq![c] + seq![d])));
    Some(out)
}

/// An address in 10/8, 127/8, 0/8, 169.254/16, 172.16/12 or 192.168/16.
pub open spec fn is_private_octets(o: Seq<u8>) -> bool {
    o[0] == 10 || o[0] == 127 || o[0] == 0 || (o[0] == 169 && o[1] == 254) || (o[0] == 172 && 16
        <= o[1] && o[1] <= 31) || (o[0] == 192 && o[1] == 168)
}

/// Whether `host` is an IPv4 literal of a private, loopback, link-local or unspecified
/// network.
pub fn is_private_ipv4(host: &[u8]) -> (r: bool)
    ensures
        r == (spec_parse_ipv4(host@) matches Some(o) && is_private_octets(o)),
{
    let o = match parse_ipv4_bytes(host) {
        Some(v) => v,
        None => return false,
    };
    o[0] == 10 || o[0] == 127 || o[0] == 0 || (o[0] == 169 && o[1] == 254) || (o[0] == 172 && 16
        <= o[1] && o[1] <= 31) || (o[0] == 192 && o[1] == 168)
}

// ---------------------------------------------------------------------------
// Plain URLs: `[get ][http://|https://]host[/path]`
// ---------------------------------------------------------------------------

pub open spec fn spec_is_host_char(b: u8) -> bool {
    spec_is_digit(b) || (97 <= spec_ascii_lower(b) && spec_ascii_lower(b) <= 122) || b == 46 || b
        == 45
}

pub fn is_url_host_char(b: u8) -> (r: bool)
    ensures
        r == spec_is_host_char(b),
{
    let c = ascii_lower(b);
    (48u8 <= b && b <= 57u8) || (97u8 <= c && c <= 122u8) || b == 46u8 || b == 45u8
}

#[derive(Clone, Copy, Debug)]
pub struct UrlParts {
    pub domain_start: usize,
    pub domain_len: usize,
    pub path_start: usize,
    pub path_len: usize,
    pub https: bool,
}

/// First index in `[i, end)` holding white space or `/` (or `end`).
pub open spec fn token_end(buf: Seq<u8>, i: int, end: int) -> int
    decreases end - i,
{
    if i < end && !spec_is_space(buf[i]) && buf[i] != 47 {
        token_end(buf, i + 1, end)
    } else {
        i
    }
}

/// First index in `[i, end)` holding white space (or `end`).
pub open spec fn word_end(buf: Seq<u8>, i: int, end: int) -> int
    decreases end - i,
{
    if i < end && !spec_is_space(buf[i]) {
        word_end(buf, i + 1, end)
    } else {
        i
    }
}

/// A host name: only host characters, at least one dot, and neither starting nor ending
/// with `.` or `-`.
pub open spec fn valid_domain(d: Seq<u8>) -> bool {
    &&& d.len() > 0
    &&& forall|k: int| 0 <= k < d.len() ==> #[trigger] spec_is_host_char(d[k])
    &&& exists|k: int| 0 <= k < d.len() && #[trigger] d[k] == 46
    &&& d[0] != 46 && d[0] != 45
    &&& d[d.len() - 1] != 46 && d[d.len() - 1] != 45
}

pub open spec fn get_prefix() -> Seq<u8> {
    seq![103u8, 101, 116, 32]
}

pub open spec fn http_prefix() -> Seq<u8> {
    seq![104u8, 116, 116, 112, 58, 47, 47]
}

pub open spec fn https_prefix() -> Seq<u8> {
    seq![104u8, 116, 116, 112, 115, 58, 47, 47]
}

/// Where the host starts, after trimming, an optional `get ` and an optional scheme;
/// with whether the scheme was `https://`.
pub open spec fn url_host_start(buf: Seq<u8>, len: int) -> (int, bool) {
    let (s0, end) = trim_bounds(buf, len);
    let s1 = if s0 + 4 <= end && matches_at(buf, s0, get_prefix()) {
        skip_spaces(buf, s0 + 4, end)
    } else {
        s0
    };
    if s1 + 7 <= end && matches_at(buf, s1, http_prefix()) {
        (s1 + 7, false)
    } else if s1 + 8 <= end && matches_at(buf, s1, https_prefix()) {
        (s1 + 8, true)
    } else {
        (s1, false)
    }
}

/// Reading of a request line as a URL: host and path bounds, and the scheme.
pub open spec fn spec_parse_url(buf: Seq<u8>, len: int) -> Option<UrlParts> {
    let (s0, end) = trim_bounds(buf, len);
    let (hs, https) = url_host_start(buf, len);
    let i = token_end(buf, hs, end);
    if s0 >= end || hs >= end || i == hs || !valid_domain(buf.subrange(hs, i)) {
        None
    } else {
        let p = skip_spaces(buf, i, end);
        let (ps, pl) = if i < end && buf[i] == 47 {
            (i, word_end(buf, i, end) - i)
        } else if p < end && buf[p] == 47 {
            (p, word_end(buf, p, end) - p)
        } else {
            (0, 0)
        };
        Some(
            UrlParts {
                domain_start: hs as usize,
                domain_len: (i - hs) as usize,
                path_start: ps as usize,
                path_len: pl as usize,
                https,
            },
        )
    }
}

/// The host and path of a parsed URL lie within its first `len` bytes.
pub proof fn lemma_url_range(buf: Seq<u8>, len: int)
    requires
        0 <= len <= buf.len(),
    ensures
        spec_parse_url(buf, len) matches Some(u) ==> u.domain_start + u.domain_len <= len
            && u.path_start + u.path_len <= len,
{
    let (s0, end) = trim_bounds(buf, len);
    crate::bytes::lemma_skip_spaces_range(buf, 0, len);
    crate::bytes::lemma_strip_trailing_range(buf, s0, len);
    let s1 = if s0 + 4 <= end && matches_at(buf, s0, get_prefix()) {
        crate::bytes::lemma_skip_spaces_range(buf, s0 + 4, end);
        skip_spaces(buf, s0 + 4, end)
    } else {
        s0
    };
    let (hs, https) = url_host_start(buf, len);
    if hs < end {
        lemma_token_end(buf, hs, end);
        let i = token_end(buf, hs, end);
        crate::bytes::lemma_skip_spaces_range(buf, i, end);
        let p = skip_spaces(buf, i, end);
        if i < end {
            lemma_word_end(buf, i, end);
        }
        if p < end {
            lemma_word_end(buf, p, end);
        }
    }
}

proof fn lemma_token_end(buf: Seq<u8>, i: int, end: int)
    requires
        i <= end,
    ensures
        i <= token_end(buf, i, end) <= end,
    decreases end - i,
{
    if i < end && !spec_is_space(buf[i]) && buf[i] != 47 {
        lemma_token_end(buf, i + 1, end);
    }
}

pub proof fn lemma_word_end(buf: Seq<u8>, i: int, end: int)
    requires
        i <= end,
    ensures
        i <= word_end(buf, i, end) <= end,
    decreases end - i,
{
    if i < end && !spec_is_space(buf[i]) {
        lemma_word_end(buf, i + 1, end);
    }
}

fn find_token_end(buf: &[u8], i: usize, end: usize) -> (r: usize)
    requires
        i <= end <= buf.len(),
    ensures
        r == token_end(buf@, i as int, end as int),
        i <= r <= end,
{
    let mut k = i;
    while k < end && !is_space(buf[k]) && buf[k] != 47u8
        invariant
            i <= k <= end <= buf.len(),
            token_end(buf@, k as int, end as int) == token_end(buf@, i as int, end as int),
        decreases end - k,
    {
        k += 1;
    }
    k
}

pub(crate) fn find_word_end(buf: &[u8], i: usize, end: usize) -> (r: usize)
    requires
        i <= end <= buf.len(),
    ensures
        r == word_end(buf@, i as int, end as int),
        i <= r <= end,
{
    let mut k = i;
    while k < end && !is_space(buf[k])
        invariant
            i <= k <= end <= buf.len(),
            word_end(buf@, k as int, end as int) == word_end(buf@, i as int, end as int),
        decreases end - k,
    {
        k += 1;
    }
    k
}

fn skip_space_range(buf: &[u8], i: usize, end: usize) -> (r: usize)
    requires
        i <= end <= buf.len(),
    ensures
        r == skip_spaces(buf@, i as int, end as int),
        i <= r <= end,
{
    let mut k = i;
    while k < end && is_space(buf[k])
        invariant
            i <= k <= end <= buf.len(),
            skip_spaces(buf@, k as int, end as int) == skip_spaces(buf@, i as int, end as int),
        decreases end - k,
    {
        k += 1;
    }
    k
}

/// Checks the host name rules of `valid_domain` on `buf[start..start + n]`.
fn check_domain(buf: &[u8], start: usize, n: usize) -> (r: bool)
    requires
        start + n <= buf.len(),
    ensures
        r == valid_domain(buf@.subrange(start as int, start + n)),
{
    let ghost d = buf@.subrange(start as int, start + n);
    if n == 0 {
        return false;
    }
    let mut dot = false;
    let mut j = 0usize;
    while j < n
        invariant
            start + n <= buf.len(),
            d == buf@.subrange(start as int, start + n),
            j <= n,
            forall|k: int| 0 <= k < j ==> #[trigger] spec_is_host_char(d[k]),
            dot == exists|k: int| 0 <= k < j && #[trigger] d[k] == 46,
        decreases n - j,
    {
        let c = buf[start + j];
        if !is_url_host_char(c) {
            assert(!spec_is_host_char(d[j as int]));
            return false;
        }
        if c == 46u8 {
            dot = true;
        }
        proof {
            if !dot {
                assert forall|k: int| 0 <= k < j + 1 implies d[k] != 46 by {
                    if k < j {
                    } else {
                        assert(d[k] == c);
                    }
                }
            } else {
                assert(d[j as int] == c || exists|k: int| 0 <= k < j && #[trigger] d[k] == 46);
            }
        }
        j += 1;
    }
    let first = buf[start];
    let last = buf[start + n - 1];
    if !dot || first == 46u8 || first == 45u8 || last == 46u8 || last == 45u8 {
        return false;
    }
    true
}

/// Reads a request line as a URL (see `spec_parse_url`).
pub fn parse_url(buf: &[u8], len: usize) -> (r: Option<UrlParts>)
    requires
        len <= buf.len(),
    ensures
        r == spec_parse_url(buf@, len as int),
{
    let (s0, end) = trim_ascii_bounds(buf, len);
    if s0 >= end {
        return None;
    }
    let get: &[u8] = &[103u8, 101, 116, 32];
    let http: &[u8] = &[104u8, 116, 116, 112, 58, 47, 47];
    let https_p: &[u8] = &[104u8, 116, 116, 112, 115, 58, 47, 47];
    assert(get@ == get_prefix());
    assert(http@ == http_prefix());
    assert(https_p@ == https_prefix());
    let mut start = s0;
    if starts_with_at(buf, end, s0, get) {
        start = skip_space_range(buf, s0 + 4, end);
    }
    let mut https = false;
    if starts_with_at(buf, end, start, http) {
        start += 7;
    } else if starts_with_at(buf, end, start, https_p) {
        https = true;
        start += 8;
    }
    if start >= end {
        return None;
    }
    let i = find_token_end(buf, start, end);
    if i == start {
        return None;
    }
    if !check_domain(buf, start, i - start) {
        return None;
    }
    let mut path_start = 0usize;
    let mut path_len = 0usize;
    if i < end && buf[i] == 47u8 {
        let p = find_word_end(buf, i, end);
        path_start = i;
        path_len = p - i;
    } else {
        let p = skip_space_range(buf, i, end);
        if p < end && buf[p] == 47u8 {
            let q = find_word_end(buf, p, end);
            path_start = p;
            path_len = q - p;
        }
    }
    Some(UrlParts { domain_start: start, domain_len: i - start, path_start, path_len, https })
}

// ---------------------------------------------------------------------------
// Agent URLs: `http[s]://host[:port][/path]`
// ---------------------------------------------------------------------------

#[derive(Clone, Copy, Debug)]
pub struct AgentUrlParts {
    pub host_start: usize,
    pub host_len: usize,
    pub path_start: usize,
    pub path_len: usize,
    pub https: bool,
    pub port: u16,
    pub has_fixed_ip: bool,
    pub fixed_ip: [u8; 4],
}

/// Rightmost `:` in `[start, i)`.
pub open spec fn last_colon(buf: Seq<u8>, start: int, i: int) -> Option<int>
    decreases i - start,
{
    if i <= start {
        None
    } else if buf[i - 1] == 58 {
        Some(i - 1)
    } else {
        last_colon(buf, start, i - 1)
    }
}

/// Decimal value of `buf[from..to]` with `u16` saturating arithmetic.
pub open spec fn sat_dec16(buf: Seq<u8>, from: int, to: int, acc: nat) -> nat
    decreases to - from,
{
    if from >= to {
        acc
    } else {
        let next = acc * 10 + (buf[from] - 48);
        sat_dec16(buf, from + 1, to, if next > u16::MAX { u16::MAX as nat } else { next as nat })
    }
}

pub open spec fn all_digits(buf: Seq<u8>, from: int, to: int) -> bool {
    forall|k: int| from <= k < to ==> spec_is_digit(#[trigger] buf[k])
}

/// Host start and scheme after `http://` or `https://` at `s0`; the flag is false when
/// neither scheme is there.
pub open spec fn agent_scheme(buf: Seq<u8>, s0: int, end: int) -> (int, bool, bool) {
    if s0 + 7 <= end && matches_at(buf, s0, http_prefix()) {
        (s0 + 7, false, true)
    } else if s0 + 8 <= end && matches_at(buf, s0, https_prefix()) {
        (s0 + 8, true, true)
    } else {
        (s0, false, false)
    }
}

/// Host length and port of the authority `buf[hs..he]`: the port follows the last colon
/// (decimal, non-zero, saturating at 65535) and is 80 or 443 without one; the flag is
/// false when the port is malformed.
pub open spec fn agent_port(buf: Seq<u8>, hs: int, he: int, https: bool) -> (int, nat, bool) {
    match last_colon(buf, hs, he) {
        None => (he - hs, if https { 443nat } else { 80nat }, true),
        Some(c) => (
            c - hs,
            sat_dec16(buf, c + 1, he, 0),
            c + 1 < he && all_digits(buf, c + 1, he) && sat_dec16(buf, c + 1, he, 0) != 0,
        ),
    }
}

pub open spec fn octets_array(ip: Option<Seq<u8>>) -> [u8; 4] {
    match ip {
        Some(o) => [o[0], o[1], o[2], o[3]],
        None => [0u8, 0u8, 0u8, 0u8],
    }
}

/// Reading of a URL with an `http://` or `https://` scheme, an optional port (see
/// `agent_port`) and an optional path; the host may be an IPv4 literal.
pub open spec fn spec_parse_agent_url(buf: Seq<u8>, len: int) -> Option<AgentUrlParts> {
    let (s0, end) = trim_bounds(buf, len);
    let (hs, https, ok) = agent_scheme(buf, s0, end);
    let he = token_end(buf, hs, end);
    let (host_len, port, port_ok) = agent_port(buf, hs, he, https);
    if s0 >= end || !ok || hs >= end || he == hs || !port_ok || host_len == 0 {
        None
    } else {
        let pl = if he < end && buf[he] == 47 {
            word_end(buf, he, end) - he
        } else {
            0
        };
        let ip = spec_parse_ipv4(buf.subrange(hs, hs + host_len));
        Some(
            AgentUrlParts {
                host_start: hs as usize,
                host_len: host_len as usize,
                path_start: he as usize,
                path_len: pl as usize,
                https,
                port: port as u16,
                has_fixed_ip: ip is Some,
                fixed_ip: octets_array(ip),
            },
        )
    }
}

/// The host and path of a parsed agent URL lie within the URL.
pub proof fn lemma_agent_url_host_range(buf: Seq<u8>, len: int)
    requires
        0 <= len <= buf.len(),
    ensures
        spec_parse_agent_url(buf, len) matches Some(p) ==> p.host_start + p.host_len <= len,
        spec_parse_agent_url(buf, len) matches Some(p) ==> p.path_start + p.path_len <= len,
{
    let (s0, end) = trim_bounds(buf, len);
    crate::bytes::lemma_skip_spaces_range(buf, 0, len);
    crate::bytes::lemma_strip_trailing_range(buf, s0, len);
    let (hs, https, ok) = agent_scheme(buf, s0, end);
    if hs <= end {
        lemma_token_end(buf, hs, end);
        let he = token_end(buf, hs, end);
        lemma_last_colon(buf, hs, he);
        lemma_word_end(buf, he, end);
    }
}

proof fn lemma_no_colon(buf: Seq<u8>, start: int, i: int)
    requires
        forall|k: int| start <= k < i ==> buf[k] != 58,
    ensures
        last_colon(buf, start, i) is None,
    decreases i - start,
{
    if i > start {
        lemma_no_colon(buf, start, i - 1);
    }
}

/// An agent URL is read with the scheme it starts with, and, when its authority names no
/// port (no colon between the host and the path), with that scheme's port: 443 for
/// `https://`, 80 for `http://`; the host is then the whole authority.
pub proof fn lemma_agent_url_default_port(buf: Seq<u8>, len: int)
    requires
        0 <= len <= buf.len(),
        len <= usize::MAX,
    ensures
        spec_parse_agent_url(buf, len) matches Some(p) ==> {
            &&& p.https ==> p.host_start >= 8 && buf.subrange(p.host_start - 8, p.host_start as int)
                == https_prefix()
            &&& !p.https ==> p.host_start >= 7 && buf.subrange(p.host_start - 7, p.host_start as int)
                == http_prefix()
            &&& (forall|k: int| p.host_start <= k < p.path_start ==> buf[k] != 58) ==> p.port == (if p.https {
                443u16
            } else {
                80u16
            }) && p.host_len == p.path_start - p.host_start
        },
{
    let (s0, end) = trim_bounds(buf, len);
    crate::bytes::lemma_skip_spaces_range(buf, 0, len);
    crate::bytes::lemma_strip_trailing_range(buf, s0, len);
    let (hs, https, ok) = agent_scheme(buf, s0, end);
    if let Some(p) = spec_parse_agent_url(buf, len) {
        let he = token_end(buf, hs, end);
        lemma_token_end(buf, hs, end);
        assert(p.host_start == hs && p.path_start == he);
        if https {
            assert(matches_at(buf, s0, https_prefix()));
            assert forall|k: int| 0 <= k < 8 implies #[trigger] buf.subrange(hs - 8, hs)[k] == https_prefix()[k] by {
                assert(buf[s0 + k] == https_prefix()[k]);
            }
            assert(buf.subrange(hs - 8, hs) =~= https_prefix());
        } else {
            assert(matches_at(buf, s0, http_prefix()));
            assert forall|k: int| 0 <= k < 7 implies #[trigger] buf.subrange(hs - 7, hs)[k] == http_prefix()[k] by {
                assert(buf[s0 + k] == http_prefix()[k]);
            }
            assert(buf.subrange(hs - 7, hs) =~= http_prefix());
        }
        if forall|k: int| hs <= k < he ==> buf[k] != 58 {
            lemma_no_colon(buf, hs, he);
        }
    }
}

pub open spec fn pow10(n: nat) -> nat
    decreases n,
{
    if n == 0 {
        1
    } else {
        10 * pow10((n - 1) as nat)
    }
}

/// The number that the decimal digits `s` write, most significant first.
pub open spec fn decimal_number(s: Seq<u8>) -> nat
    decreases s.len(),
{
    if s.len() == 0 {
        0
    } else {
        ((s[0] - 48) as nat) * pow10((s.len() - 1) as nat) + decimal_number(s.drop_first())
    }
}

proof fn lemma_pow10_pos(n: nat)
    ensures
        pow10(n) >= 1,
    decreases n,
{
    if n > 0 {
        lemma_pow10_pos((n - 1) as nat);
    }
}

/// Reading digits one after the other gives the number they write, while it stays below
/// the saturation bound.
proof fn lemma_sat_dec16_value(buf: Seq<u8>, from: int, to: int, acc: nat)
    requires
        0 <= from <= to <= buf.len(),
        all_digits(buf, from, to),
        acc * pow10((to - from) as nat) + decimal_number(buf.subrange(from, to)) <= u16::MAX,
    ensures
        sat_dec16(buf, from, to, acc) == acc * pow10((to - from) as nat) + decimal_number(buf.subrange(from, to)),
    decreases to - from,
{
    let s = buf.subrange(from, to);
    if from == to {
        assert(s.len() == 0);
        assert(pow10(0) == 1);
        assert(acc * 1 == acc);
    } else {
        let n = (to - from) as nat;
        let d = (buf[from] - 48) as nat;
        assert(spec_is_digit(buf[from]));
        assert(s.drop_first() =~= buf.subrange(from + 1, to));
        assert(s[0] == buf[from]);
        let rest = decimal_number(buf.subrange(from + 1, to));
        let p = pow10((n - 1) as nat);
        lemma_pow10_pos((n - 1) as nat);
        assert(decimal_number(s) == d * p + rest);
        assert(pow10(n) == 10 * p);
        assert((acc * 10 + d) * p + rest == acc * pow10(n) + decimal_number(s)) by (nonlinear_arith)
            requires
                pow10(n) == 10 * p,
                decimal_number(s) == d * p + rest,
        ;
        assert(acc * 10 + d <= (acc * 10 + d) * p) by (nonlinear_arith)
            requires
                p >= 1,
        ;
        lemma_sat_dec16_value(buf, from + 1, to, acc * 10 + d);
        assert(acc * 10 + (buf[from] - 48) == acc * 10 + d);
        assert(sat_dec16(buf, from, to, acc) == sat_dec16(buf, from + 1, to, (acc * 10 + d) as nat));
    }
}

proof fn lemma_colon_last(buf: Seq<u8>, start: int, c: int, i: int)
    requires
        start <= c < i,
        buf[c] == 58,
        forall|k: int| c < k < i ==> buf[k] != 58,
    ensures
        last_colon(buf, start, i) == Some(c),
    decreases i - c,
{
    if i - 1 > c {
        lemma_colon_last(buf, start, c, i - 1);
    }
}

/// An agent URL whose authority ends in `:` and one to four digits is read with the port
/// those digits write, and the host is what comes before the colon.
pub proof fn lemma_agent_url_explicit_port(buf: Seq<u8>, len: int, c: int)
    requires
        0 <= len <= buf.len(),
        len <= usize::MAX,
    ensures
        spec_parse_agent_url(buf, len) matches Some(p) ==> (p.host_start <= c < p.path_start && buf[c] == 58
            && 1 <= p.path_start - c - 1 <= 4 && (forall|k: int| c < k < p.path_start ==> spec_is_digit(
            #[trigger] buf[k],
        )) ==> p.port as nat == decimal_number(buf.subrange(c + 1, p.path_start as int)) && p.host_len == c
            - p.host_start),
{
    let (s0, end) = trim_bounds(buf, len);
    crate::bytes::lemma_skip_spaces_range(buf, 0, len);
    crate::bytes::lemma_strip_trailing_range(buf, s0, len);
    let (hs, https, ok) = agent_scheme(buf, s0, end);
    if let Some(p) = spec_parse_agent_url(buf, len) {
        let he = token_end(buf, hs, end);
        lemma_token_end(buf, hs, end);
        assert(p.host_start == hs && p.path_start == he);
        if hs <= c < he && buf[c] == 58 && 1 <= he - c - 1 <= 4 && (forall|k: int| c < k < he ==> spec_is_digit(
            #[trigger] buf[k],
        )) {
            assert forall|k: int| c < k < he implies buf[k] != 58 by {
                assert(spec_is_digit(buf[k]));
            }
            lemma_colon_last(buf, hs, c, he);
            let s = buf.subrange(c + 1, he);
            assert forall|k: int| 0 <= k < s.len() implies spec_is_digit(#[trigger] s[k]) by {
                assert(s[k] == buf[c + 1 + k]);
            }
            lemma_decimal_bound(s);
            reveal_with_fuel(pow10, 5);
            lemma_pow10_mono(s.len(), 4);
            lemma_sat_dec16_value(buf, c + 1, he, 0);
        }
    }
}

proof fn lemma_pow10_mono(a: nat, b: nat)
    requires
        a <= b,
    ensures
        pow10(a) <= pow10(b),
    decreases b,
{
    if a < b {
        lemma_pow10_mono(a, (b - 1) as nat);
    }
}

proof fn lemma_decimal_bound(s: Seq<u8>)
    requires
        forall|k: int| 0 <= k < s.len() ==> spec_is_digit(#[trigger] s[k]),
    ensures
        decimal_number(s) < pow10(s.len()),
    decreases s.len(),
{
    if s.len() > 0 {
        let t = s.drop_first();
        assert forall|k: int| 0 <= k < t.len() implies spec_is_digit(#[trigger] t[k]) by {
            assert(t[k] == s[k + 1]);
        }
        lemma_decimal_bound(t);
        assert(spec_is_digit(s[0]));
        let d = (s[0] - 48) as nat;
        let p = pow10((s.len() - 1) as nat);
        assert(d * p + decimal_number(t) < 10 * p) by (nonlinear_arith)
            requires
                d <= 9,
                decimal_number(t) < p,
        ;
    }
}

/// Where an agent URL sends a request: host, path, scheme, port, and the address when the
/// host is an IPv4 literal.
pub struct AgentRequest {
    pub host: Vec<u8>,
    pub path: Vec<u8>,
    pub https: bool,
    pub port: u16,
    pub fixed_ip: Option<[u8; 4]>,
}

pub open spec fn invalid_url_reason() -> Seq<u8> {
    seq![105u8, 110, 118, 97, 108, 105, 100, 32, 117, 114, 108]
}

/// The request an agent URL makes (see `spec_parse_agent_url`), or `invalid url`.
pub fn agent_url_request(url: &[u8]) -> (r: Result<AgentRequest, &'static [u8]>)
    ensures
        match (r, spec_parse_agent_url(url@, url@.len() as int)) {
            (Ok(q), Some(p)) => q.host@ == url@.subrange(p.host_start as int, p.host_start + p.host_len)
                && q.path@ == url@.subrange(p.path_start as int, p.path_start + p.path_len) && q.https == p.https
                && q.port == p.port && q.fixed_ip == (if p.has_fixed_ip { Some(p.fixed_ip) } else { None }),
            (Err(e), None) => e@ == invalid_url_reason(),
            _ => false,
        },
{
    match parse_agent_url(url, url.len()) {
        Some(p) => {
            proof {
                lemma_agent_url_host_range(url@, url@.len() as int);
            }
            let mut host: Vec<u8> = Vec::new();
            crate::bytes::append_all(&mut host, vstd::slice::slice_subrange(url, p.host_start, p.host_start + p.host_len));
            let mut path: Vec<u8> = Vec::new();
            crate::bytes::append_all(&mut path, vstd::slice::slice_subrange(url, p.path_start, p.path_start + p.path_len));
            let fixed_ip = if p.has_fixed_ip {
                Some(p.fixed_ip)
            } else {
                None
            };
            Ok(AgentRequest { host, path, https: p.https, port: p.port, fixed_ip })
        },
        None => {
            let e: &'static [u8] = &[105u8, 110, 118, 97, 108, 105, 100, 32, 117, 114, 108];
            assert(e@ =~= invalid_url_reason());
            Err(e)
        },
    }
}

proof fn lemma_last_colon(buf: Seq<u8>, start: int, i: int)
    ensures
        last_colon(buf, start, i) matches Some(c) ==> start <= c < i,
    decreases i - start,
{
    if i <= start {
    } else if buf[i - 1] == 58 {
    } else {
        lemma_last_colon(buf, start, i - 1);
    }
}

/// Position of the last colon in `buf[start..end]`.
fn find_last_colon(buf: &[u8], start: usize, end: usize) -> (r: Option<usize>)
    requires
        start <= end <= buf.len(),
    ensures
        r matches Some(c) ==> last_colon(buf@, start as int, end as int) == Some(c as int),
        r is None ==> last_colon(buf@, start as int, end as int) is None,
{
    let mut i = end;
    while i > start
        invariant
            start <= i <= end <= buf.len(),
            last_colon(buf@, start as int, i as int) == last_colon(buf@, start as int, end as int),
        decreases i,
    {
        if buf[i - 1] == 58u8 {
            return Some(i - 1);
        }
        i -= 1;
    }
    None
}

/// Host length and port (see `agent_port`); `None` when the port is malformed.
fn parse_authority(buf: &[u8], hs: usize, he: usize, https: bool) -> (r: Option<(usize, u16)>)
    requires
        hs <= he <= buf.len(),
    ensures
        r matches Some((hl, p)) ==> agent_port(buf@, hs as int, he as int, https) == (
            hl as int,
            p as nat,
            true,
        ),
        r is None ==> !agent_port(buf@, hs as int, he as int, https).2,
{
    match find_last_colon(buf, hs, he) {
        None => {
            let p: u16 = if https {
                443
            } else {
                80
            };
            Some((he - hs, p))
        },
        Some(c) => {
            proof {
                lemma_last_colon(buf@, hs as int, he as int);
            }
            if c + 1 >= he {
                return None;
            }
            let mut parsed: u16 = 0;
            let mut i = c + 1;
            while i < he
                invariant
                    last_colon(buf@, hs as int, he as int) == Some(c as int),
                    c + 1 <= i <= he <= buf.len(),
                    all_digits(buf@, c + 1, i as int),
                    sat_dec16(buf@, c + 1, he as int, 0) == sat_dec16(
                        buf@,
                        i as int,
                        he as int,
                        parsed as nat,
                    ),
                decreases he - i,
            {
                let b = buf[i];
                if !(48u8 <= b && b <= 57u8) {
                    assert(!spec_is_digit(buf@[i as int]));
                    return None;
                }
                let d = (b - 48u8) as u16;
                if parsed > (u16::MAX - d) / 10 {
                    parsed = u16::MAX;
                } else {
                    parsed = parsed * 10 + d;
                }
                i += 1;
            }
            if parsed == 0 {
                return None;
            }
            Some((c - hs, parsed))
        },
    }
}

/// Reads an agent URL (see `spec_parse_agent_url`).
pub fn parse_agent_url(buf: &[u8], len: usize) -> (r: Option<AgentUrlParts>)
    requires
        len <= buf.len(),
    ensures
        r == spec_parse_agent_url(buf@, len as int),
{
    let (s0, end) = trim_ascii_bounds(buf, len);
    if s0 >= end {
        return None;
    }
    let http: &[u8] = &[104u8, 116, 116, 112, 58, 47, 47];
    let https_p: &[u8] = &[104u8, 116, 116, 112, 115, 58, 47, 47];
    assert(http@ == http_prefix());
    assert(https_p@ == https_prefix());
    let (start, https) = if starts_with_at(buf, end, s0, http) {
        (s0 + 7, false)
    } else if starts_with_at(buf, end, s0, https_p) {
        (s0 + 8, true)
    } else {
        return None;
    };
    if start >= end {
        return None;
    }
    let host_end = find_token_end(buf, start, end);
    if host_end == start {
        return None;
    }
    let (host_len, port) = match parse_authority(buf, start, host_end, https) {
        Some(v) => v,
        None => return None,
    };
    if host_len == 0 {
        return None;
    }
    let mut path_len = 0usize;
    if host_end < end && buf[host_end] == 47u8 {
        let p = find_word_end(buf, host_end, end);
        path_len = p - host_end;
    }
    let host = vstd::slice::slice_subrange(buf, start, start + host_len);
    let fixed_ip = parse_ipv4_bytes(host);
    let has_fixed_ip = fixed_ip.is_some();
    let ip = match fixed_ip {
        Some(v) => v,
        None => [0u8; 4],
    };
    proof {
        let sp = spec_parse_ipv4(buf@.subrange(start as int, start + host_len));
        if let Some(o) = sp {
            assert(ip@ == o);
            assert(ip =~= octets_array(sp));
        } else {
            assert(ip =~= octets_array(sp));
        }
    }
    Some(
        AgentUrlParts {
            host_start: start,
            host_len,
            path_start: host_end,
            path_len,
            https,
            port,
            has_fixed_ip,
            fixed_ip: ip,
        },
    )
}

} // verus!

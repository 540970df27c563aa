use vstd::prelude::*;

verus! {

// ---------------------------------------------------------------------------
// Byte classes
// ---------------------------------------------------------------------------

pub open spec fn spec_ascii_lower(b: u8) -> u8 {
    if 65 <= b && b <= 90 {
        (b + 32) as u8
    } else {
        b
    }
}

pub open spec fn spec_is_space(b: u8) -> bool {
    b == 32 || b == 9 || b == 13 || b == 10
}

pub open spec fn spec_is_digit(b: u8) -> bool {
    48 <= b && b <= 57
}

pub open spec fn spec_is_hex(b: u8) -> bool {
    spec_is_digit(b) || (97 <= spec_ascii_lower(b) && spec_ascii_lower(b) <= 102)
}

/// Value of a hexadecimal digit, either case.
pub open spec fn spec_hex_digit_value(b: u8) -> u8 {
    if spec_is_digit(b) {
        (b - 48) as u8
    } else {
        (spec_ascii_lower(b) - 97 + 10) as u8
    }
}

/// Lower-cases an ASCII upper-case letter; every other byte is unchanged.
pub fn ascii_lower(b: u8) -> (r: u8)
    ensures
        r == spec_ascii_lower(b),
{
    if 65u8 <= b && b <= 90u8 {
        b + 32
    } else {
        b
    }
}

/// True for space, tab, carriage return and line feed.
pub fn is_space(b: u8) -> (r: bool)
    ensures
        r == spec_is_space(b),
{
    b == 32u8 || b == 9u8 || b == 13u8 || b == 10u8
}

/// True for `0-9`, `a-f` and `A-F`.
pub fn is_hex(b: u8) -> (r: bool)
    ensures
        r == spec_is_hex(b),
{
    let c = ascii_lower(b);
    (48u8 <= b && b <= 57u8) || (97u8 <= c && c <= 102u8)
}

/// Value of a hexadecimal digit.
pub fn hex_val(b: u8) -> (r: u8)
    requires
        spec_is_hex(b),
    ensures
        r == spec_hex_digit_value(b),
        r < 16,
{
    let c = ascii_lower(b);
    if 48u8 <= b && b <= 57u8 {
        b - 48u8
    } else {
        c - 97u8 + 10
    }
}

/// Value of a hexadecimal digit, `None` for any other byte.
pub fn hex_nibble(b: u8) -> (r: Option<u8>)
    ensures
        r == (if spec_is_hex(b) { Some(spec_hex_digit_value(b)) } else { None::<u8> }),
{
    if 48u8 <= b && b <= 57u8 {
        Some(b - 48u8)
    } else if 97u8 <= b && b <= 102u8 {
        Some(10 + (b - 97u8))
    } else if 65u8 <= b && b <= 70u8 {
        Some(10 + (b - 65u8))
    } else {
        None
    }
}

/// Characters that RFC 3986 leaves unencoded.
pub open spec fn spec_is_url_unreserved(b: u8) -> bool {
    (65 <= b && b <= 90) || (97 <= b && b <= 122) || spec_is_digit(b) || b == 45 || b == 46 || b
        == 95 || b == 126
}

pub fn is_url_unreserved(b: u8) -> (r: bool)
    ensures
        r == spec_is_url_unreserved(b),
{
    (65u8 <= b && b <= 90u8) || (97u8 <= b && b <= 122u8) || (48u8 <= b && b <= 57u8) || b == 45u8
        || b == 46u8 || b == 95u8 || b == 126u8
}

// ---------------------------------------------------------------------------
// Matching
// ---------------------------------------------------------------------------

/// `pat` occurs in `buf` at `off`.
pub open spec fn matches_at(buf: Seq<u8>, off: int, pat: Seq<u8>) -> bool {
    &&& 0 <= off
    &&& off + pat.len() <= buf.len()
    &&& forall|k: int| 0 <= k < pat.len() ==> #[trigger] buf[off + k] == pat[k]
}

/// `pat` occurs in `buf` at `off`, comparing ASCII letters without case.
pub open spec fn matches_at_ci(buf: Seq<u8>, off: int, pat: Seq<u8>) -> bool {
    &&& 0 <= off
    &&& off + pat.len() <= buf.len()
    &&& forall|k: int|
        0 <= k < pat.len() ==> spec_ascii_lower(#[trigger] buf[off + k]) == spec_ascii_lower(
            pat[k],
        )
}

/// A non-empty `pat` occurs somewhere in the first `len` bytes of `buf`.
pub open spec fn contains_ci(buf: Seq<u8>, len: int, pat: Seq<u8>) -> bool {
    pat.len() > 0 && exists|i: int|
        0 <= i && i + pat.len() <= len && #[trigger] matches_at_ci(buf, i, pat)
}

pub open spec fn contains_exact(buf: Seq<u8>, len: int, pat: Seq<u8>) -> bool {
    pat.len() > 0 && exists|i: int| 0 <= i && i + pat.len() <= len && #[trigger] matches_at(buf, i, pat)
}

/// Whether `pat` appears at `off` in `buf`, the match ending by `len`.
pub fn starts_with_at(buf: &[u8], len: usize, off: usize, pat: &[u8]) -> (r: bool)
    requires
        len <= buf.len(),
    ensures
        r == (off + pat.len() <= len && matches_at(buf@, off as int, pat@)),
{
    if off > len || pat.len() > len - off {
        return false;
    }
    let mut i = 0usize;
    while i < pat.len()
        invariant
            off + pat.len() <= len,
            len <= buf.len(),
            i <= pat.len(),
            forall|k: int| 0 <= k < i ==> buf@[off + k] == pat@[k],
        decreases pat.len() - i,
    {
        if buf[off + i] != pat[i] {
            return false;
        }
        i += 1;
    }
    true
}

/// Whether the first `len` bytes of `buf` begin with `pat`.
pub fn starts_with(buf: &[u8], len: usize, pat: &[u8]) -> (r: bool)
    requires
        len <= buf.len(),
    ensures
        r == (pat.len() <= len && matches_at(buf@, 0, pat@)),
{
    starts_with_at(buf, len, 0, pat)
}

/// Whether `a` and `b` hold the same bytes.
pub fn bytes_eq(a: &[u8], b: &[u8]) -> (r: bool)
    ensures
        r == (a@ == b@),
{
    if a.len() != b.len() {
        return false;
    }
    let mut i = 0usize;
    while i < a.len()
        invariant
            a.len() == b.len(),
            i <= a.len(),
            forall|k: int| 0 <= k < i ==> a@[k] == b@[k],
        decreases a.len() - i,
    {
        if a[i] != b[i] {
            return false;
        }
        i += 1;
    }
    assert(a@ =~= b@);
    true
}

/// Case-insensitive comparison of two ASCII bytes.
pub fn ascii_eq_ignore_case(a: u8, b: u8) -> (r: bool)
    ensures
        r == (spec_ascii_lower(a) == spec_ascii_lower(b)),
{
    ascii_lower(a) == ascii_lower(b)
}

/// Whether `pat` appears at `off` in `buf`, ignoring ASCII case, the match ending by `len`.
pub fn starts_with_at_ci(buf: &[u8], len: usize, off: usize, pat: &[u8]) -> (r: bool)
    requires
        len <= buf.len(),
    ensures
        r == (off + pat.len() <= len && matches_at_ci(buf@, off as int, pat@)),
{
    if off > len || pat.len() > len - off {
        return false;
    }
    let mut i = 0usize;
    while i < pat.len()
        invariant
            off + pat.len() <= len,
            len <= buf.len(),
            i <= pat.len(),
            forall|k: int|
                0 <= k < i ==> spec_ascii_lower(#[trigger] buf@[off + k]) == spec_ascii_lower(
                    pat@[k],
                ),
        decreases pat.len() - i,
    {
        if !ascii_eq_ignore_case(buf[off + i], pat[i]) {
            return false;
        }
        i += 1;
    }
    true
}

/// Whether a non-empty `pat` occurs, ignoring ASCII case, in the first `len` bytes of `buf`.
pub fn contains_ascii_phrase(buf: &[u8], len: usize, pat: &[u8]) -> (r: bool)
    requires
        len <= buf.len(),
    ensures
        r == contains_ci(buf@, len as int, pat@),
{
    if pat.len() == 0 || len < pat.len() {
        return false;
    }
    let mut i = 0usize;
    while i <= len - pat.len()
        invariant
            0 < pat.len() <= len <= buf.len(),
            i <= len - pat.len() + 1,
            forall|p: int| 0 <= p < i ==> !matches_at_ci(buf@, p, pat@),
        decreases len - i,
    {
        if starts_with_at_ci(buf, len, i, pat) {
            return true;
        }
        i += 1;
    }
    false
}

/// Whether a non-empty `pat` occurs byte for byte in the first `len` bytes of `buf`.
pub fn contains_bytes_phrase(buf: &[u8], len: usize, pat: &[u8]) -> (r: bool)
    requires
        len <= buf.len(),
    ensures
        r == contains_exact(buf@, len as int, pat@),
{
    if pat.len() == 0 || len < pat.len() {
        return false;
    }
    let mut i = 0usize;
    while i <= len - pat.len()
        invariant
            0 < pat.len() <= len <= buf.len(),
            i <= len - pat.len() + 1,
            forall|p: int| 0 <= p < i ==> !matches_at(buf@, p, pat@),
        decreases len - i,
    {
        if starts_with_at(buf, len, i, pat) {
            return true;
        }
        i += 1;
    }
    false
}

/// Number of non-overlapping occurrences of `pat`, scanning left to right.
pub open spec fn count_occurrences(buf: Seq<u8>, pat: Seq<u8>, from: int) -> nat
    decreases buf.len() - from,
{
    if pat.len() == 0 || from < 0 || from + pat.len() > buf.len() {
        0
    } else if matches_at(buf, from, pat) {
        1 + count_occurrences(buf, pat, from + pat.len())
    } else {
        count_occurrences(buf, pat, from + 1)
    }
}

pub fn count_occurrences_local(buf: &[u8], pat: &[u8]) -> (r: usize)
    ensures
        r == count_occurrences(buf@, pat@, 0),
{
    if pat.len() == 0 || buf.len() < pat.len() {
        return 0;
    }
    let mut count = 0usize;
    let mut i = 0usize;
    while i <= buf.len() - pat.len()
        invariant
            0 < pat.len() <= buf.len(),
            i <= buf.len(),
            count <= i,
            count + count_occurrences(buf@, pat@, i as int) == count_occurrences(buf@, pat@, 0),
        decreases buf.len() - i,
    {
        if starts_with_at(buf, buf.len(), i, pat) {
            count += 1;
            i += pat.len();
        } else {
            i += 1;
        }
    }
    count
}

pub fn contains_bytes_local(buf: &[u8], pat: &[u8]) -> (r: bool)
    ensures
        r == (count_occurrences(buf@, pat@, 0) != 0),
{
    count_occurrences_local(buf, pat) != 0
}

/// Whether some byte has its high bit set.
pub fn contains_non_ascii(buf: &[u8]) -> (r: bool)
    ensures
        r == exists|k: int| 0 <= k < buf.len() && #[trigger] buf@[k] >= 128,
{
    let mut i = 0usize;
    while i < buf.len()
        invariant
            i <= buf.len(),
            forall|k: int| 0 <= k < i ==> buf@[k] < 128,
        decreases buf.len() - i,
    {
        if buf[i] >= 0x80 {
            return true;
        }
        i += 1;
    }
    false
}

// ---------------------------------------------------------------------------
// Bounded output buffers
// ---------------------------------------------------------------------------

/// Free room left in a buffer of capacity `cap` that holds `len` bytes.
pub open spec fn room(len: int, cap: int) -> int {
    if len < cap {
        cap - len
    } else {
        0
    }
}

pub open spec fn min_int(a: int, b: int) -> int {
    if a < b {
        a
    } else {
        b
    }
}

/// What a bounded append of `src` to `out` (capacity `cap`) leaves.
pub open spec fn bounded_append(out: Seq<u8>, cap: int, src: Seq<u8>) -> Seq<u8> {
    out + src.take(min_int(src.len() as int, room(out.len() as int, cap)))
}

/// Appends as much of `src` as fits below `cap`; returns the number of bytes written.
pub fn append_bytes(out: &mut Vec<u8>, cap: usize, src: &[u8]) -> (n: usize)
    ensures
        final(out)@ == bounded_append(old(out)@, cap as int, src@),
        n == min_int(src.len() as int, room(old(out).len() as int, cap as int)),
{
    let ghost start = out@;
    let mut i = 0usize;
    while i < src.len() && out.len() < cap
        invariant
            out@ == start + src@.take(i as int),
            i <= src.len(),
            start.len() + i == out.len(),
            i == 0 || out.len() <= cap,
        decreases src.len() - i,
    {
        out.push(src[i]);
        i += 1;
        assert(src@.take(i as int) == src@.take(i - 1).push(src@[i - 1]));
    }
    i
}

/// Appends all of `src` to `out`.
pub fn append_all(out: &mut Vec<u8>, src: &[u8])
    ensures
        final(out)@ == old(out)@ + src@,
{
    let ghost start = out@;
    let mut i = 0usize;
    while i < src.len()
        invariant
            i <= src.len(),
            out@ == start + src@.take(i as int),
        decreases src.len() - i,
    {
        out.push(src[i]);
        i += 1;
        assert(src@.take(i as int) == src@.take(i - 1).push(src@[i - 1]));
    }
    assert(src@.take(src.len() as int) == src@);
}

/// The first `min(dst_cap, src.len())` bytes of `src`, as a new buffer.
pub fn copy_bytes(dst_cap: usize, src: &[u8]) -> (out: Vec<u8>)
    ensures
        out@ == src@.take(min_int(src.len() as int, dst_cap as int)),
{
    let mut out: Vec<u8> = Vec::new();
    append_bytes(&mut out, dst_cap, src);
    out
}

// ---------------------------------------------------------------------------
// Trimming
// ---------------------------------------------------------------------------

/// Index of the first non-space byte at or after `start` and before `end`.
pub open spec fn skip_spaces(buf: Seq<u8>, start: int, end: int) -> int
    decreases end - start,
{
    if start < end && spec_is_space(buf[start]) {
        skip_spaces(buf, start + 1, end)
    } else {
        start
    }
}

/// First index at or after `start` and before `end` that holds no ` `.
pub open spec fn skip_spaces_only(buf: Seq<u8>, start: int, end: int) -> int
    decreases end - start,
{
    if start < end && buf[start] == 32 {
        skip_spaces_only(buf, start + 1, end)
    } else {
        start
    }
}

/// End of `buf[start..end]` with trailing spaces removed.
pub open spec fn strip_trailing(buf: Seq<u8>, start: int, end: int) -> int
    decreases end - start,
{
    if end > start && spec_is_space(buf[end - 1]) {
        strip_trailing(buf, start, end - 1)
    } else {
        end
    }
}

/// Bounds of the first `len` bytes with ASCII white space removed from both ends.
pub open spec fn trim_bounds(buf: Seq<u8>, len: int) -> (int, int) {
    let s = skip_spaces(buf, 0, len);
    (s, strip_trailing(buf, s, len))
}

pub proof fn lemma_skip_spaces_range(buf: Seq<u8>, start: int, end: int)
    requires
        start <= end,
    ensures
        start <= skip_spaces(buf, start, end) <= end,
    decreases end - start,
{
    if start < end && spec_is_space(buf[start]) {
        lemma_skip_spaces_range(buf, start + 1, end);
    }
}

pub proof fn lemma_strip_trailing_range(buf: Seq<u8>, start: int, end: int)
    requires
        start <= end,
    ensures
        start <= strip_trailing(buf, start, end) <= end,
    decreases end - start,
{
    if end > start && spec_is_space(buf[end - 1]) {
        lemma_strip_trailing_range(buf, start, end - 1);
    }
}

/// Finds the bounds that `trim_bounds` describes.
pub fn trim_ascii_bounds(buf: &[u8], len: usize) -> (r: (usize, usize))
    requires
        len <= buf.len(),
    ensures
        r.0 as int == trim_bounds(buf@, len as int).0,
        r.1 as int == trim_bounds(buf@, len as int).1,
        r.0 <= r.1 <= len,
{
    let mut start = 0usize;
    let mut end = len;
    while start < end && is_space(buf[start])
        invariant
            start <= end == len <= buf.len(),
            skip_spaces(buf@, start as int, len as int) == skip_spaces(buf@, 0, len as int),
        decreases end - start,
    {
        start += 1;
    }
    while end > start && is_space(buf[end - 1])
        invariant
            start <= end <= len <= buf.len(),
            start == skip_spaces(buf@, 0, len as int),
            strip_trailing(buf@, start as int, end as int) == strip_trailing(
                buf@,
                start as int,
                len as int,
            ),
        decreases end - start,
    {
        end -= 1;
    }
    (start, end)
}

/// The first `len` bytes with ASCII white space removed from both ends.
pub open spec fn trimmed(buf: Seq<u8>, len: int) -> Seq<u8> {
    buf.subrange(trim_bounds(buf, len).0, trim_bounds(buf, len).1)
}

/// Replaces the buffer by its first `len` bytes, trimmed; returns the new length.
pub fn trim_ascii_in_place(buf: &mut Vec<u8>, len: usize) -> (n: usize)
    requires
        len <= old(buf).len(),
    ensures
        final(buf)@ == trimmed(old(buf)@, len as int),
        n == final(buf).len(),
{
    let (start, end) = trim_ascii_bounds(buf.as_slice(), len);
    let mut out: Vec<u8> = Vec::new();
    let mut i = start;
    while i < end
        invariant
            start <= i <= end <= len <= buf.len(),
            out@ == buf@.subrange(start as int, i as int),
        decreases end - i,
    {
        out.push(buf[i]);
        i += 1;
    }
    *buf = out;
    end - start
}

/// Copies `src` with leading and trailing white space removed, bounded by `cap`.
pub fn copy_trimmed_text(cap: usize, src: &[u8]) -> (out: Vec<u8>)
    ensures
        out@ == trimmed(src@, src.len() as int).take(
            min_int(trimmed(src@, src.len() as int).len() as int, cap as int),
        ),
{
    let (start, end) = trim_ascii_bounds(src, src.len());
    let part = vstd::slice::slice_subrange(src, start, end);
    copy_bytes(cap, part)
}

/// Length of `buf[..len]` once trailing spaces, tabs and line breaks are dropped.
pub fn trimmed_len_local(buf: &[u8], len: usize) -> (n: usize)
    requires
        len <= buf.len(),
    ensures
        n == strip_trailing(buf@, 0, len as int),
{
    let mut n = len;
    while n != 0 && is_space(buf[n - 1])
        invariant
            n <= len <= buf.len(),
            strip_trailing(buf@, 0, n as int) == strip_trailing(buf@, 0, len as int),
        decreases n,
    {
        n -= 1;
    }
    n
}

/// Whether `pat` follows the leading white space of `line[..len]`.
pub fn starts_with_ignore_leading_space(line: &[u8], len: usize, pat: &[u8]) -> (r: bool)
    requires
        len <= line.len(),
    ensures
        r == ({
            let s = skip_spaces(line@, 0, len as int);
            s + pat.len() <= len && matches_at(line@, s, pat@)
        }),
{
    let mut i = 0usize;
    while i < len && is_space(line[i])
        invariant
            i <= len <= line.len(),
            skip_spaces(line@, i as int, len as int) == skip_spaces(line@, 0, len as int),
        decreases len - i,
    {
        i += 1;
    }
    starts_with_at(line, len, i, pat)
}

// ---------------------------------------------------------------------------
// Decimal numbers
// ---------------------------------------------------------------------------

/// Decimal digits of `n`, most significant first, with `0` written as one digit.
pub open spec fn dec_digits(n: nat) -> Seq<u8>
    decreases n,
{
    if n < 10 {
        seq![(48 + n) as u8]
    } else {
        dec_digits(n / 10).push((48 + n % 10) as u8)
    }
}

/// Decimal representation of `v`.
pub fn u64_to_dec(v: u64) -> (out: Vec<u8>)
    ensures
        out@ == dec_digits(v as nat),
    decreases v,
{
    if v < 10 {
        let mut out: Vec<u8> = Vec::new();
        out.push(48u8 + v as u8);
        out
    } else {
        let mut out = u64_to_dec(v / 10);
        out.push(48u8 + (v % 10) as u8);
        out
    }
}

/// Appends the decimal form of `n`, truncated to the room below `cap`.
pub fn append_u64_dec(out: &mut Vec<u8>, cap: usize, n: u64) -> (written: usize)
    ensures
        final(out)@ == bounded_append(old(out)@, cap as int, dec_digits(n as nat)),
        written == final(out).len() - old(out).len(),
{
    let digits = u64_to_dec(n);
    append_bytes(out, cap, digits.as_slice())
}

/// The decimal digits of `value` that fit in a buffer of capacity `cap`.
pub fn u64_to_dec_local(cap: usize, value: u64) -> (out: Vec<u8>)
    ensures
        out@ == dec_digits(value as nat).take(
            min_int(dec_digits(value as nat).len() as int, cap as int),
        ),
{
    let digits = u64_to_dec(value);
    copy_bytes(cap, digits.as_slice())
}

/// Value of the run of decimal digits at `from`, saturating at `u64::MAX`.
pub open spec fn digits_value(buf: Seq<u8>, from: int, to: int, acc: nat) -> nat
    decreases to - from,
{
    if from < to && from < buf.len() && spec_is_digit(buf[from]) {
        let next = acc * 10 + (buf[from] - 48);
        digits_value(buf, from + 1, to, if next > u64::MAX { u64::MAX as nat } else { next as nat })
    } else {
        acc
    }
}

/// After leading white space, a decimal number whose value saturates at `u64::MAX`;
/// `None` when no digit follows the white space.
pub open spec fn spec_parse_u64(buf: Seq<u8>, len: int) -> Option<u64> {
    let s = skip_spaces(buf, 0, len);
    if s < len && spec_is_digit(buf[s]) {
        Some(digits_value(buf, s, len, 0) as u64)
    } else {
        None
    }
}

pub proof fn lemma_digits_value_bound(buf: Seq<u8>, from: int, to: int, acc: nat)
    requires
        acc <= u64::MAX,
    ensures
        digits_value(buf, from, to, acc) <= u64::MAX,
    decreases to - from,
{
    if from < to && from < buf.len() && spec_is_digit(buf[from]) {
        let next = acc * 10 + (buf[from] - 48);
        lemma_digits_value_bound(
            buf,
            from + 1,
            to,
            if next > u64::MAX { u64::MAX as nat } else { next as nat },
        );
    }
}

/// Parses a decimal number after leading white space.
pub fn parse_u64(buf: &[u8], len: usize) -> (r: Option<u64>)
    requires
        len <= buf.len(),
    ensures
        r == spec_parse_u64(buf@, len as int),
{
    let mut i = 0usize;
    while i < len && is_space(buf[i])
        invariant
            i <= len <= buf.len(),
            skip_spaces(buf@, i as int, len as int) == skip_spaces(buf@, 0, len as int),
        decreases len - i,
    {
        i += 1;
    }
    if i >= len {
        return None;
    }
    let ghost s = i as int;
    let mut v = 0u64;
    let mut saw = false;
    while i < len && 48u8 <= buf[i] && buf[i] <= 57u8
        invariant
            s <= i <= len <= buf.len(),
            s == skip_spaces(buf@, 0, len as int),
            saw == (i > s),
            i > s ==> spec_is_digit(buf@[s]),
            digits_value(buf@, s, len as int, 0) == digits_value(buf@, i as int, len as int, v as nat),
        decreases len - i,
    {
        let d = (buf[i] - 48u8) as u64;
        if v > (u64::MAX - d) / 10 {
            v = u64::MAX;
        } else {
            v = v * 10 + d;
        }
        saw = true;
        i += 1;
    }
    assert(digits_value(buf@, i as int, len as int, v as nat) == v);
    if saw {
        Some(v)
    } else {
        None
    }
}

// ---------------------------------------------------------------------------
// Escapes and encodings
// ---------------------------------------------------------------------------

/// Value of a backslash escape in a shell-style argument.
pub open spec fn shell_escape_value(e: u8) -> u8 {
    if e == 110 {
        10
    } else if e == 114 {
        13
    } else if e == 116 {
        9
    } else {
        e
    }
}

/// Decoding of backslash escapes, from offset `i` onward, emitting at most `room` bytes.
pub open spec fn shell_decode(src: Seq<u8>, i: int, room: int) -> Seq<u8>
    decreases src.len() - i,
{
    if i < 0 || i >= src.len() || room <= 0 {
        Seq::empty()
    } else if src[i] != 92 || i + 1 >= src.len() {
        seq![src[i]] + shell_decode(src, i + 1, room - 1)
    } else {
        seq![shell_escape_value(src[i + 1])] + shell_decode(src, i + 2, room - 1)
    }
}

/// Decodes `\n`, `\r`, `\t`, `\\` and `\"` (any other escaped byte stands for itself).
pub fn decode_shell_escapes(src: &[u8], cap: usize) -> (out: Vec<u8>)
    ensures
        out@ == shell_decode(src@, 0, cap as int),
{
    let mut out: Vec<u8> = Vec::new();
    let mut i = 0usize;
    while i < src.len() && out.len() < cap
        invariant
            i <= src.len(),
            out.len() <= cap,
            out@ + shell_decode(src@, i as int, cap - out.len()) == shell_decode(src@, 0, cap as int),
        decreases src.len() - i,
    {
        if src[i] != 92u8 || i + 1 >= src.len() {
            out.push(src[i]);
            i += 1;
            continue;
        }
        let esc = src[i + 1];
        i += 2;
        let v = if esc == 110u8 {
            10u8
        } else if esc == 114u8 {
            13u8
        } else if esc == 116u8 {
            9u8
        } else {
            esc
        };
        out.push(v);
    }
    proof {
        assert(shell_decode(src@, i as int, cap - out.len()) =~= Seq::<u8>::empty());
    }
    out
}

/// Upper-case hexadecimal digit for a value below 16.
pub open spec fn hex_upper_digit(v: u8) -> u8 {
    if v < 10 {
        (48 + v) as u8
    } else {
        (65 + v - 10) as u8
    }
}

/// Percent encoding of one byte: itself when unreserved, `%XY` otherwise.
pub open spec fn percent_byte(b: u8) -> Seq<u8> {
    if spec_is_url_unreserved(b) {
        seq![b]
    } else {
        seq![37u8, hex_upper_digit(b / 16), hex_upper_digit(b % 16)]
    }
}

/// Percent encoding of `src[i..]` into `room` bytes: stops before the first byte whose
/// encoding does not fit.
pub open spec fn percent_encode_from(src: Seq<u8>, i: int, room: int) -> Seq<u8>
    decreases src.len() - i,
{
    if i < 0 || i >= src.len() || room <= 0 || percent_byte(src[i]).len() > room {
        Seq::empty()
    } else {
        percent_byte(src[i]) + percent_encode_from(src, i + 1, room - percent_byte(src[i]).len())
    }
}

/// Upper-case hexadecimal digit.
pub fn hex_upper(v: u8) -> (r: u8)
    requires
        v < 16,
    ensures
        r == hex_upper_digit(v),
{
    if v < 10 {
        48u8 + v
    } else {
        65u8 + (v - 10)
    }
}

/// Appends the percent encoding of `src` that fits below `cap`.
pub fn append_urlencoded(out: &mut Vec<u8>, cap: usize, src: &[u8])
    ensures
        final(out)@ == old(out)@ + percent_encode_from(src@, 0, room(old(out).len() as int, cap as int)),
{
    let ghost start = out@;
    let mut i = 0usize;
    while i < src.len() && out.len() < cap
        invariant
            start == old(out)@,
            i <= src.len(),
            start.len() <= out.len(),
            out.len() < cap ==> out.len() <= cap,
            out@ + percent_encode_from(src@, i as int, room(out.len() as int, cap as int)) == start
                + percent_encode_from(src@, 0, room(start.len() as int, cap as int)),
        decreases src.len() - i,
    {
        let b = src[i];
        if is_url_unreserved(b) {
            out.push(b);
        } else if cap - out.len() >= 3 {
            assert(b >> 4 == b / 16 && b & 0x0f == b % 16 && b / 16 < 16) by (bit_vector);
            out.push(37u8);
            out.push(hex_upper(b >> 4));
            out.push(hex_upper(b & 0x0f));
        } else {
            assert(percent_encode_from(src@, i as int, room(out.len() as int, cap as int))
                =~= Seq::<u8>::empty());
            assert(out@ + Seq::<u8>::empty() =~= out@);
            return;
        }
        proof {
            assert(out@ =~= out@);
        }
        i += 1;
    }
    proof {
        assert(percent_encode_from(src@, i as int, room(out.len() as int, cap as int)) =~= Seq::<
            u8,
        >::empty());
    }
}

/// Percent encoding of `input` into a buffer of capacity `cap` (OAuth variant).
pub fn percent_encode(input: &[u8], cap: usize) -> (out: Vec<u8>)
    ensures
        out@ == percent_encode_from(input@, 0, cap as int),
{
    let mut out: Vec<u8> = Vec::new();
    append_urlencoded(&mut out, cap, input);
    out
}

} // verus!

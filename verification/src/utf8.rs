use vstd::prelude::*;
use crate::bytes::{copy_bytes, min_int, room};

verus! {

/// A UTF-8 continuation byte, `10xxxxxx`.
pub open spec fn spec_is_cont(b: u8) -> bool {
    128 <= b && b <= 191
}

pub open spec fn in_range(b: u8, lo: u8, hi: u8) -> bool {
    lo <= b && b <= hi
}

/// Length of the well-formed UTF-8 sequence (RFC 3629, table 3-7 of Unicode) that starts
/// at `idx`, or 0 when no complete, well-formed sequence starts there.
pub open spec fn seq_len_at(s: Seq<u8>, idx: int) -> int {
    if idx < 0 || idx >= s.len() {
        0
    } else {
        let b0 = s[idx];
        if b0 <= 0x7f {
            1
        } else if in_range(b0, 0xc2, 0xdf) {
            if idx + 1 < s.len() && spec_is_cont(s[idx + 1]) {
                2
            } else {
                0
            }
        } else if b0 == 0xe0 || in_range(b0, 0xe1, 0xec) || in_range(b0, 0xee, 0xef) || b0 == 0xed {
            let (lo, hi) = if b0 == 0xe0 {
                (0xa0u8, 0xbfu8)
            } else if b0 == 0xed {
                (0x80u8, 0x9fu8)
            } else {
                (0x80u8, 0xbfu8)
            };
            if idx + 2 < s.len() && in_range(s[idx + 1], lo, hi) && spec_is_cont(s[idx + 2]) {
                3
            } else {
                0
            }
        } else if b0 == 0xf0 || in_range(b0, 0xf1, 0xf3) || b0 == 0xf4 {
            let (lo, hi) = if b0 == 0xf0 {
                (0x90u8, 0xbfu8)
            } else if b0 == 0xf4 {
                (0x80u8, 0x8fu8)
            } else {
                (0x80u8, 0xbfu8)
            };
            if idx + 3 < s.len() && in_range(s[idx + 1], lo, hi) && spec_is_cont(s[idx + 2])
                && spec_is_cont(s[idx + 3]) {
                4
            } else {
                0
            }
        } else {
            0
        }
    }
}

/// End of the longest run of complete, well-formed sequences that starts at `idx` and
/// stays within `limit`.
pub open spec fn valid_prefix_end(s: Seq<u8>, idx: int, limit: int) -> int
    decreases limit - idx,
{
    if idx >= limit || seq_len_at(s, idx) == 0 || idx + seq_len_at(s, idx) > limit {
        idx
    } else {
        valid_prefix_end(s, idx + seq_len_at(s, idx), limit)
    }
}

/// `s` is, as a whole, well-formed UTF-8.
pub open spec fn is_valid_utf8(s: Seq<u8>) -> bool {
    valid_prefix_end(s, 0, s.len() as int) == s.len()
}

pub proof fn lemma_valid_prefix_end_range(s: Seq<u8>, idx: int, limit: int)
    requires
        0 <= idx <= limit,
    ensures
        idx <= valid_prefix_end(s, idx, limit) <= limit,
    decreases limit - idx,
{
    if !(idx >= limit || seq_len_at(s, idx) == 0 || idx + seq_len_at(s, idx) > limit) {
        lemma_valid_prefix_end_range(s, idx + seq_len_at(s, idx), limit);
    }
}

/// Whether `b` is a continuation byte.
pub fn is_utf8_continuation(b: u8) -> (r: bool)
    ensures
        r == spec_is_cont(b),
{
    let r = (b & 0b1100_0000u8) == 0b1000_0000u8;
    assert(((b & 0xc0u8) == 0x80u8) == (128 <= b && b <= 191)) by (bit_vector);
    r
}

/// Length of the well-formed sequence at `idx` (0 when there is none).
pub fn utf8_seq_len_at(src: &[u8], idx: usize) -> (r: usize)
    ensures
        r == seq_len_at(src@, idx as int),
        r <= 4,
{
    if idx >= src.len() {
        return 0;
    }
    let b0 = src[idx];
    if b0 <= 0x7f {
        return 1;
    }
    if 0xc2 <= b0 && b0 <= 0xdf {
        if idx + 1 < src.len() && is_utf8_continuation(src[idx + 1]) {
            return 2;
        }
        return 0;
    }
    if b0 == 0xe0 || (0xe1 <= b0 && b0 <= 0xec) || (0xee <= b0 && b0 <= 0xef) || b0 == 0xed {
        let lo: u8 = if b0 == 0xe0 {
            0xa0
        } else {
            0x80
        };
        let hi: u8 = if b0 == 0xed {
            0x9f
        } else {
            0xbf
        };
        if src.len() - idx > 2 && lo <= src[idx + 1] && src[idx + 1] <= hi && is_utf8_continuation(
            src[idx + 2],
        ) {
            return 3;
        }
        return 0;
    }
    if b0 == 0xf0 || (0xf1 <= b0 && b0 <= 0xf3) || b0 == 0xf4 {
        let lo: u8 = if b0 == 0xf0 {
            0x90
        } else {
            0x80
        };
        let hi: u8 = if b0 == 0xf4 {
            0x8f
        } else {
            0xbf
        };
        if src.len() - idx > 3 && lo <= src[idx + 1] && src[idx + 1] <= hi && is_utf8_continuation(
            src[idx + 2],
        ) && is_utf8_continuation(src[idx + 3]) {
            return 4;
        }
        return 0;
    }
    0
}

/// Length of the longest prefix of `src`, at most `max_len` bytes, made of complete,
/// well-formed UTF-8 sequences.
pub fn utf8_safe_prefix_len(src: &[u8], max_len: usize) -> (n: usize)
    ensures
        n == valid_prefix_end(src@, 0, min_int(max_len as int, src.len() as int)),
        n <= max_len,
        n <= src.len(),
{
    let limit = if max_len > src.len() {
        src.len()
    } else {
        max_len
    };
    let mut idx = 0usize;
    let mut done = false;
    while idx < limit && !done
        invariant
            idx <= limit <= src.len(),
            limit == min_int(max_len as int, src.len() as int),
            done ==> valid_prefix_end(src@, idx as int, limit as int) == idx,
            valid_prefix_end(src@, idx as int, limit as int) == valid_prefix_end(
                src@,
                0,
                limit as int,
            ),
        decreases limit - idx, if done { 0int } else { 1int },
    {
        let seq_len = utf8_seq_len_at(src, idx);
        if seq_len == 0 || seq_len > limit - idx {
            done = true;
        } else {
            idx += seq_len;
        }
    }
    idx
}

/// The longest well-formed prefix of `src` that fits in `cap` bytes.
pub fn copy_utf8_prefix(cap: usize, src: &[u8]) -> (out: Vec<u8>)
    ensures
        out@ == src@.take(valid_prefix_end(src@, 0, min_int(cap as int, src.len() as int))),
{
    let n = utf8_safe_prefix_len(src, cap);
    copy_bytes(n, src)
}

/// UTF-8 encoding of a code point; empty above U+10FFFF.
pub open spec fn utf8_encode(cp: u32) -> Seq<u8> {
    if cp <= 0x7f {
        seq![cp as u8]
    } else if cp <= 0x7ff {
        seq![(0xc0 + cp / 64) as u8, (0x80 + cp % 64) as u8]
    } else if cp <= 0xffff {
        seq![(0xe0 + cp / 4096) as u8, (0x80 + (cp / 64) % 64) as u8, (0x80 + cp % 64) as u8]
    } else if cp <= 0x10ffff {
        seq![
            (0xf0 + cp / 262144) as u8,
            (0x80 + (cp / 4096) % 64) as u8,
            (0x80 + (cp / 64) % 64) as u8,
            (0x80 + cp % 64) as u8,
        ]
    } else {
        Seq::empty()
    }
}

/// Appends the encoding of `cp` when all of it fits below `cap`; otherwise nothing.
pub fn append_utf8_codepoint(out: &mut Vec<u8>, cap: usize, cp: u32)
    ensures
        final(out)@ == (if utf8_encode(cp).len() <= room(old(out).len() as int, cap as int) {
            old(out)@ + utf8_encode(cp)
        } else {
            old(out)@
        }),
{
    let r = if out.len() < cap {
        cap - out.len()
    } else {
        0
    };
    if cp <= 0x7f {
        if r >= 1 {
            out.push(cp as u8);
        }
        return;
    }
    if cp <= 0x7ff {
        if r >= 2 {
            assert((0xc0u32 | (cp >> 6u32)) as u8 == (0xc0 + cp / 64) as u8
                && (0x80u32 | (cp & 0x3fu32)) as u8 == (0x80 + cp % 64) as u8) by (bit_vector)
                requires
                    cp <= 0x7ff,
            ;
            out.push((0xc0u32 | (cp >> 6u32)) as u8);
            out.push((0x80u32 | (cp & 0x3fu32)) as u8);
        }
        return;
    }
    if cp <= 0xffff {
        if r >= 3 {
            assert((0xe0u32 | (cp >> 12u32)) as u8 == (0xe0 + cp / 4096) as u8 && (0x80u32 | ((cp
                >> 6u32) & 0x3fu32)) as u8 == (0x80 + (cp / 64) % 64) as u8 && (0x80u32 | (cp
                & 0x3fu32)) as u8 == (0x80 + cp % 64) as u8) by (bit_vector)
                requires
                    cp <= 0xffff,
            ;
            out.push((0xe0u32 | (cp >> 12u32)) as u8);
            out.push((0x80u32 | ((cp >> 6u32) & 0x3fu32)) as u8);
            out.push((0x80u32 | (cp & 0x3fu32)) as u8);
        }
        return;
    }
    if cp <= 0x10ffff && r >= 4 {
        assert((0xf0u32 | (cp >> 18u32)) as u8 == (0xf0 + cp / 262144) as u8 && (0x80u32 | ((cp
            >> 12u32) & 0x3fu32)) as u8 == (0x80 + (cp / 4096) % 64) as u8 && (0x80u32 | ((cp
            >> 6u32) & 0x3fu32)) as u8 == (0x80 + (cp / 64) % 64) as u8 && (0x80u32 | (cp
            & 0x3fu32)) as u8 == (0x80 + cp % 64) as u8) by (bit_vector)
            requires
                cp <= 0x10ffff,
        ;
        out.push((0xf0u32 | (cp >> 18u32)) as u8);
        out.push((0x80u32 | ((cp >> 12u32) & 0x3fu32)) as u8);
        out.push((0x80u32 | ((cp >> 6u32) & 0x3fu32)) as u8);
        out.push((0x80u32 | (cp & 0x3fu32)) as u8);
    }
}

/// First index at or after `i` that does not hold a continuation byte (or `s.len()`).
pub open spec fn skip_cont(s: Seq<u8>, i: int) -> int
    decreases s.len() - i,
{
    if 0 <= i < s.len() && spec_is_cont(s[i]) {
        skip_cont(s, i + 1)
    } else {
        i
    }
}

/// Start of a suffix of at most `keep` bytes that does not begin inside a sequence.
pub open spec fn safe_suffix_start(s: Seq<u8>, keep: int) -> int {
    if s.len() <= keep {
        0
    } else {
        skip_cont(s, s.len() - keep)
    }
}

pub fn utf8_safe_suffix_start(buf: &[u8], keep: usize) -> (start: usize)
    ensures
        start == safe_suffix_start(buf@, keep as int),
        start <= buf.len(),
{
    if buf.len() <= keep {
        return 0;
    }
    let mut start = buf.len() - keep;
    while start < buf.len() && is_utf8_continuation(buf[start])
        invariant
            start <= buf.len(),
            skip_cont(buf@, start as int) == skip_cont(buf@, buf.len() - keep),
        decreases buf.len() - start,
    {
        start += 1;
    }
    if start >= buf.len() {
        buf.len()
    } else {
        start
    }
}

/// Going back from `idx` over continuation bytes, the first index that holds none (or 0).
pub open spec fn back_over_cont(s: Seq<u8>, idx: int) -> int
    decreases idx,
{
    if idx > 0 && spec_is_cont(s[idx]) {
        back_over_cont(s, idx - 1)
    } else {
        idx
    }
}

/// Start of the character that ends the first `len` bytes (0 when `len` is 0).
pub fn utf8_previous_boundary(buf: &[u8], len: usize) -> (r: usize)
    requires
        len <= buf.len(),
    ensures
        r == (if len == 0 {
            0
        } else {
            back_over_cont(buf@, len - 1)
        }),
{
    if len == 0 {
        return 0;
    }
    let mut idx = len - 1;
    while idx > 0 && is_utf8_continuation(buf[idx])
        invariant
            idx < len <= buf.len(),
            back_over_cont(buf@, idx as int) == back_over_cont(buf@, len - 1),
        decreases idx,
    {
        idx -= 1;
    }
    idx
}

} // verus!

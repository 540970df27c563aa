use vstd::prelude::*;
use crate::bytes::{
    append_bytes, bounded_append, hex_nibble, is_space, matches_at, room, shell_escape_value,
    skip_spaces, spec_hex_digit_value, spec_is_hex, spec_is_space, spec_parse_u64, parse_u64,
    starts_with_at,
};
use crate::utf8::{append_utf8_codepoint, seq_len_at, utf8_encode, utf8_seq_len_at};

verus! {

// ---------------------------------------------------------------------------
// Finding keys
// ---------------------------------------------------------------------------

/// At `i` stands `"key"`, followed (after white space) by `:` within the first `len` bytes.
pub open spec fn key_hit(buf: Seq<u8>, len: int, key: Seq<u8>, i: int) -> bool {
    &&& buf[i] == 34
    &&& matches_at(buf, i + 1, key)
    &&& buf[i + 1 + key.len()] == 34
    &&& skip_spaces(buf, i + key.len() + 2, len) < len
    &&& buf[skip_spaces(buf, i + key.len() + 2, len)] == 58
}

/// Offset just after the colon of the first key hit at or after `i`, scanning while a
/// quoted key and one more byte still fit before `len`.
pub open spec fn find_key_from(buf: Seq<u8>, len: int, key: Seq<u8>, i: int) -> Option<int>
    decreases len - i,
{
    if i < 0 || i + key.len() + 2 >= len {
        None
    } else if key_hit(buf, len, key, i) {
        Some(skip_spaces(buf, i + key.len() + 2, len) + 1)
    } else {
        find_key_from(buf, len, key, i + 1)
    }
}

pub proof fn lemma_find_key_range(buf: Seq<u8>, len: int, key: Seq<u8>, i: int)
    ensures
        find_key_from(buf, len, key, i) matches Some(v) ==> i < v <= len,
    decreases len - i,
{
    if i < 0 || i + key.len() + 2 >= len {
    } else if key_hit(buf, len, key, i) {
        crate::bytes::lemma_skip_spaces_range(buf, i + key.len() + 2, len);
    } else {
        lemma_find_key_range(buf, len, key, i + 1);
    }
}

/// Skips white space from `off`; the result is at most `len`.
pub(crate) fn skip_space_from(buf: &[u8], len: usize, off: usize) -> (r: usize)
    requires
        len <= buf.len(),
        off <= len,
    ensures
        r == skip_spaces(buf@, off as int, len as int),
        off <= r <= len,
{
    let mut o = off;
    while o < len && is_space(buf[o])
        invariant
            off <= o <= len <= buf.len(),
            skip_spaces(buf@, o as int, len as int) == skip_spaces(buf@, off as int, len as int),
        decreases len - o,
    {
        o += 1;
    }
    o
}

/// Offset after the colon that follows the first `"key"` at or after `start`.
pub fn json_find_key_from(buf: &[u8], len: usize, key: &[u8], start: usize) -> (r: Option<usize>)
    requires
        len <= buf.len(),
    ensures
        r matches Some(v) ==> find_key_from(buf@, len as int, key@, start as int) == Some(v as int),
        r is None ==> find_key_from(buf@, len as int, key@, start as int) is None,
{
    if key.len() >= len || len - key.len() <= 2 {
        return None;
    }
    let bound = len - key.len() - 2;
    let mut i = start;
    while i < bound
        invariant
            len <= buf.len(),
            bound + key.len() + 2 == len,
            start <= i,
            find_key_from(buf@, len as int, key@, i as int) == find_key_from(
                buf@,
                len as int,
                key@,
                start as int,
            ),
        decreases bound - i,
    {
        if buf[i] == 34u8 && starts_with_at(buf, len, i + 1, key) && buf[i + 1 + key.len()] == 34u8 {
            let off = skip_space_from(buf, len, i + key.len() + 2);
            if off < len && buf[off] == 58u8 {
                return Some(off + 1);
            }
        }
        i += 1;
    }
    None
}

/// Offset after the colon that follows the first `"key"`.
pub fn json_find_key(buf: &[u8], len: usize, key: &[u8]) -> (r: Option<usize>)
    requires
        len <= buf.len(),
    ensures
        r matches Some(v) ==> find_key_from(buf@, len as int, key@, 0) == Some(v as int),
        r is None ==> find_key_from(buf@, len as int, key@, 0) is None,
{
    json_find_key_from(buf, len, key, 0)
}

// ---------------------------------------------------------------------------
// String values
// ---------------------------------------------------------------------------

/// Appends `v` when there is room below `cap`.
pub open spec fn push_bounded(out: Seq<u8>, cap: int, v: u8) -> Seq<u8> {
    if out.len() < cap {
        out.push(v)
    } else {
        out
    }
}

/// Appends the encoding of `cp` when all of it fits below `cap`.
pub open spec fn append_cp(out: Seq<u8>, cap: int, cp: u32) -> Seq<u8> {
    if utf8_encode(cp).len() <= room(out.len() as int, cap) {
        out + utf8_encode(cp)
    } else {
        out
    }
}

/// The four hexadecimal digits at `at` all are hexadecimal.
pub open spec fn hex4_ok(buf: Seq<u8>, at: int) -> bool {
    spec_is_hex(buf[at]) && spec_is_hex(buf[at + 1]) && spec_is_hex(buf[at + 2]) && spec_is_hex(
        buf[at + 3],
    )
}

/// Code point written by the four hexadecimal digits at `at`.
pub open spec fn hex4_value(buf: Seq<u8>, at: int) -> u32 {
    (spec_hex_digit_value(buf[at]) as int * 4096 + spec_hex_digit_value(buf[at + 1]) as int * 256
        + spec_hex_digit_value(buf[at + 2]) as int * 16 + spec_hex_digit_value(
        buf[at + 3],
    ) as int) as u32
}

/// Decodes the body of a JSON string from `off` up to its closing quote, writing into a
/// buffer of capacity `cap` that already holds `out`: escapes `\n \r \t \" \\` and
/// `\uXXXX` are decoded, any other escaped byte stands for itself, and bytes that do not
/// fit are dropped while the scan goes on. `None` when the string is not closed before
/// `len` or an escape is cut short or malformed.
pub open spec fn decode_str(buf: Seq<u8>, len: int, off: int, out: Seq<u8>, cap: int) -> Option<
    Seq<u8>,
>
    decreases len - off,
{
    if off < 0 || off >= len {
        None
    } else if buf[off] == 34 {
        Some(out)
    } else if buf[off] == 92 {
        if off + 1 >= len {
            None
        } else if buf[off + 1] == 117 {
            if off + 5 >= len || !hex4_ok(buf, off + 2) {
                None
            } else {
                decode_str(buf, len, off + 6, append_cp(out, cap, hex4_value(buf, off + 2)), cap)
            }
        } else {
            decode_str(buf, len, off + 2, push_bounded(out, cap, shell_escape_value(buf[off + 1])), cap)
        }
    } else {
        decode_str(buf, len, off + 1, push_bounded(out, cap, buf[off]), cap)
    }
}

/// The decoded string value of the first `"key"` (see `decode_str`), truncated to `cap`.
pub open spec fn extract_string_from(buf: Seq<u8>, len: int, key: Seq<u8>, start: int, cap: int) -> Option<
    (int, Seq<u8>),
> {
    match find_key_from(buf, len, key, start) {
        None => None,
        Some(v) => {
            let off = skip_spaces(buf, v, len);
            if off >= len || buf[off] != 34 {
                None
            } else {
                match decode_str(buf, len, off + 1, Seq::empty(), cap) {
                    None => None,
                    Some(s) => Some((off, s)),
                }
            }
        },
    }
}

/// A string found from `start` opens after `start` and within `len`.
pub proof fn lemma_extract_string_from_range(buf: Seq<u8>, len: int, key: Seq<u8>, start: int, cap: int)
    ensures
        extract_string_from(buf, len, key, start, cap) matches Some((p, v)) ==> start < p < len,
{
    lemma_find_key_range(buf, len, key, start);
    if let Some(v) = find_key_from(buf, len, key, start) {
        crate::bytes::lemma_skip_spaces_range(buf, v, len);
    }
}

/// Decodes four hexadecimal digits at `at`.
pub(crate) fn hex4(buf: &[u8], at: usize) -> (r: Option<u32>)
    requires
        at + 4 <= buf.len(),
    ensures
        r == (if hex4_ok(buf@, at as int) {
            Some(hex4_value(buf@, at as int))
        } else {
            None::<u32>
        }),
{
    let d0 = hex_nibble(buf[at])?;
    let d1 = hex_nibble(buf[at + 1])?;
    let d2 = hex_nibble(buf[at + 2])?;
    let d3 = hex_nibble(buf[at + 3])?;
    Some((d0 as u32) * 4096 + (d1 as u32) * 256 + (d2 as u32) * 16 + (d3 as u32))
}

/// Decodes a JSON string body starting at `off` (just after the opening quote).
fn decode_string_body(buf: &[u8], len: usize, off: usize, cap: usize) -> (r: Option<Vec<u8>>)
    requires
        len <= buf.len(),
    ensures
        r matches Some(v) ==> decode_str(buf@, len as int, off as int, Seq::empty(), cap as int)
            == Some(v@),
        r is None ==> decode_str(buf@, len as int, off as int, Seq::empty(), cap as int) is None,
{
    let mut out: Vec<u8> = Vec::new();
    let mut o = off;
    while o < len
        invariant
            len <= buf.len(),
            decode_str(buf@, len as int, o as int, out@, cap as int) == decode_str(
                buf@,
                len as int,
                off as int,
                Seq::empty(),
                cap as int,
            ),
        decreases len - o,
    {
        let b = buf[o];
        if b == 34u8 {
            return Some(out);
        }
        if b == 92u8 {
            if o + 1 >= len {
                return None;
            }
            let e = buf[o + 1];
            if e == 117u8 {
                if len - o <= 5 {
                    return None;
                }
                match hex4(buf, o + 2) {
                    None => {
                        return None;
                    },
                    Some(cp) => {
                        append_utf8_codepoint(&mut out, cap, cp);
                        o += 6;
                    },
                }
            } else {
                let v = if e == 110u8 {
                    10u8
                } else if e == 114u8 {
                    13u8
                } else if e == 116u8 {
                    9u8
                } else {
                    e
                };
                if out.len() < cap {
                    out.push(v);
                }
                o += 2;
            }
        } else {
            if out.len() < cap {
                out.push(b);
            }
            o += 1;
        }
    }
    None
}

/// The string value of the first `"key"` at or after `start`, with the offset of its
/// opening quote.
pub fn json_extract_string_from(buf: &[u8], len: usize, key: &[u8], cap: usize, start: usize) -> (r:
    Option<(usize, Vec<u8>)>)
    requires
        len <= buf.len(),
    ensures
        r matches Some((p, v)) ==> extract_string_from(buf@, len as int, key@, start as int, cap as int)
            == Some((p as int, v@)),
        r is None ==> extract_string_from(buf@, len as int, key@, start as int, cap as int) is None,
{
    let v = json_find_key_from(buf, len, key, start)?;
    proof {
        lemma_find_key_range(buf@, len as int, key@, start as int);
    }
    let off = skip_space_from(buf, len, v);
    if off >= len || buf[off] != 34u8 {
        return None;
    }
    let s = decode_string_body(buf, len, off + 1, cap)?;
    Some((off, s))
}

/// The string value of the first `"key"`.
pub fn json_extract_string(buf: &[u8], len: usize, key: &[u8], cap: usize) -> (r: Option<Vec<u8>>)
    requires
        len <= buf.len(),
    ensures
        r matches Some(v) ==> extract_string_from(buf@, len as int, key@, 0, cap as int) matches Some(
            (p, s),
        ) && s == v@,
        r is None ==> extract_string_from(buf@, len as int, key@, 0, cap as int) is None,
{
    match json_extract_string_from(buf, len, key, cap, 0) {
        Some((_, v)) => Some(v),
        None => None,
    }
}

/// The string value of `"key"` in all of `buf`, or empty when there is none.
pub fn json_extract_string_local(buf: &[u8], key: &[u8], cap: usize) -> (r: Vec<u8>)
    ensures
        r@ == (match extract_string_from(buf@, buf.len() as int, key@, 0, cap as int) {
            Some((_, s)) => s,
            None => Seq::empty(),
        }),
{
    match json_extract_string(buf, buf.len(), key, cap) {
        Some(v) => v,
        None => Vec::new(),
    }
}

/// The number after the first `"key":` (see `spec_parse_u64`).
pub open spec fn extract_u64(buf: Seq<u8>, len: int, key: Seq<u8>) -> Option<u64> {
    match find_key_from(buf, len, key, 0) {
        None => None,
        Some(v) => {
            let off = skip_spaces(buf, v, len);
            spec_parse_u64(buf.subrange(off, len), len - off)
        },
    }
}

pub fn json_extract_u64(buf: &[u8], len: usize, key: &[u8]) -> (r: Option<u64>)
    requires
        len <= buf.len(),
    ensures
        r == extract_u64(buf@, len as int, key@),
{
    let v = json_find_key(buf, len, key)?;
    proof {
        lemma_find_key_range(buf@, len as int, key@, 0);
    }
    let off = skip_space_from(buf, len, v);
    let rest = vstd::slice::slice_subrange(buf, off, len);
    parse_u64(rest, len - off)
}

/// `true` or `false` after the first `"key":`.
pub open spec fn extract_bool(buf: Seq<u8>, len: int, key: Seq<u8>) -> Option<bool> {
    match find_key_from(buf, len, key, 0) {
        None => None,
        Some(v) => {
            let off = skip_spaces(buf, v, len);
            if off + 4 <= len && matches_at(buf, off, seq![116u8, 114, 117, 101]) {
                Some(true)
            } else if off + 5 <= len && matches_at(buf, off, seq![102u8, 97, 108, 115, 101]) {
                Some(false)
            } else {
                None
            }
        },
    }
}

pub fn json_extract_bool(buf: &[u8], len: usize, key: &[u8]) -> (r: Option<bool>)
    requires
        len <= buf.len(),
    ensures
        r == extract_bool(buf@, len as int, key@),
{
    let v = json_find_key(buf, len, key)?;
    proof {
        lemma_find_key_range(buf@, len as int, key@, 0);
    }
    let off = skip_space_from(buf, len, v);
    let t: &[u8] = &[116u8, 114, 117, 101];
    let f: &[u8] = &[102u8, 97, 108, 115, 101];
    assert(t@ == seq![116u8, 114, 117, 101]);
    assert(f@ == seq![102u8, 97, 108, 115, 101]);
    if starts_with_at(buf, len, off, t) {
        return Some(true);
    }
    if starts_with_at(buf, len, off, f) {
        return Some(false);
    }
    None
}

// ---------------------------------------------------------------------------
// String arrays
// ---------------------------------------------------------------------------

/// Skips white space and commas.
pub open spec fn skip_sep(buf: Seq<u8>, off: int, len: int) -> int
    decreases len - off,
{
    if 0 <= off < len && (spec_is_space(buf[off]) || buf[off] == 44) {
        skip_sep(buf, off + 1, len)
    } else {
        off
    }
}

/// Scans one string element from `off` (after its opening quote); the result is the
/// offset of the closing quote and whether the element equals `want` (an escaped byte
/// standing for itself).
pub open spec fn elem_scan(buf: Seq<u8>, len: int, off: int, want: Seq<u8>, idx: int, matched: bool) -> Option<
    (int, bool),
>
    decreases len - off,
{
    if off < 0 || off >= len {
        None
    } else if buf[off] == 34 {
        Some((off, matched && idx == want.len()))
    } else if buf[off] == 92 && off + 1 >= len {
        None
    } else {
        let b = if buf[off] == 92 {
            buf[off + 1]
        } else {
            buf[off]
        };
        let next = if buf[off] == 92 {
            off + 2
        } else {
            off + 1
        };
        elem_scan(
            buf,
            len,
            next,
            want,
            idx + 1,
            matched && 0 <= idx < want.len() && b == want[idx],
        )
    }
}

/// Scans the elements of a string array from `off`: `Some(true)` at the first element
/// equal to `want`, `Some(false)` at `]`, `None` on anything malformed.
pub open spec fn array_scan(buf: Seq<u8>, len: int, off: int, want: Seq<u8>) -> Option<bool>
    decreases len - off,
{
    let o = skip_sep(buf, off, len);
    if off < 0 || o >= len || o < off {
        None
    } else if buf[o] == 93 {
        Some(false)
    } else if buf[o] != 34 {
        None
    } else {
        match elem_scan(buf, len, o + 1, want, 0, true) {
            None => None,
            Some((end, m)) => if m {
                Some(true)
            } else if end + 1 <= off || end >= len {
                None
            } else {
                array_scan(buf, len, end + 1, want)
            },
        }
    }
}

/// Whether the string array under the first `"key"` holds `want`.
pub open spec fn array_contains(buf: Seq<u8>, len: int, key: Seq<u8>, want: Seq<u8>) -> Option<bool> {
    match find_key_from(buf, len, key, 0) {
        None => None,
        Some(v) => {
            let off = skip_spaces(buf, v, len);
            if off >= len || buf[off] != 91 {
                None
            } else {
                array_scan(buf, len, off + 1, want)
            }
        },
    }
}

/// An empty buffer holds no array under any key.
pub proof fn lemma_array_contains_empty(key: Seq<u8>, want: Seq<u8>)
    ensures
        array_contains(Seq::empty(), 0, key, want) is None,
{
}

pub proof fn lemma_skip_sep_range(buf: Seq<u8>, off: int, len: int)
    requires
        0 <= off,
    ensures
        off <= skip_sep(buf, off, len),
        off <= len ==> skip_sep(buf, off, len) <= len,
    decreases len - off,
{
    if 0 <= off < len && (spec_is_space(buf[off]) || buf[off] == 44) {
        lemma_skip_sep_range(buf, off + 1, len);
    }
}

pub proof fn lemma_elem_scan_range(buf: Seq<u8>, len: int, off: int, want: Seq<u8>, idx: int, matched: bool)
    ensures
        elem_scan(buf, len, off, want, idx, matched) matches Some((e, _)) ==> off <= e < len,
    decreases len - off,
{
    if off < 0 || off >= len {
    } else if buf[off] == 34 {
    } else if buf[off] == 92 && off + 1 >= len {
    } else {
        let b = if buf[off] == 92 {
            buf[off + 1]
        } else {
            buf[off]
        };
        let next = if buf[off] == 92 {
            off + 2
        } else {
            off + 1
        };
        lemma_elem_scan_range(buf, len, next, want, idx + 1, matched && 0 <= idx < want.len() && b == want[idx]);
    }
}

#[verifier::loop_isolation(false)]
pub fn json_string_array_contains(buf: &[u8], len: usize, key: &[u8], want: &[u8]) -> (r: Option<bool>)
    requires
        len <= buf.len(),
    ensures
        r == array_contains(buf@, len as int, key@, want@),
{
    let v = json_find_key(buf, len, key)?;
    proof {
        lemma_find_key_range(buf@, len as int, key@, 0);
    }
    let mut off = skip_space_from(buf, len, v);
    if off >= len || buf[off] != 91u8 {
        return None;
    }
    off += 1;
    loop
        invariant
            len <= buf.len(),
            off <= len,
            array_scan(buf@, len as int, off as int, want@) == array_contains(buf@, len as int, key@, want@),
        decreases len - off,
    {
        let ghost start = off as int;
        while off < len && (is_space(buf[off]) || buf[off] == 44u8)
            invariant
                start <= off <= len <= buf.len(),
                skip_sep(buf@, off as int, len as int) == skip_sep(buf@, start, len as int),
            decreases len - off,
        {
            off += 1;
        }
        proof {
            lemma_skip_sep_range(buf@, start, len as int);
        }
        if off >= len {
            return None;
        }
        if buf[off] == 93u8 {
            return Some(false);
        }
        if buf[off] != 34u8 {
            return None;
        }
        off += 1;
        let mut idx = 0usize;
        let mut matched = true;
        let ghost elem_start = off as int;
        while off < len && buf[off] != 34u8
            invariant
                0 <= elem_start <= off <= len <= buf.len(),
                idx <= off - elem_start,
                elem_scan(buf@, len as int, off as int, want@, idx as int, matched) == elem_scan(
                    buf@,
                    len as int,
                    elem_start,
                    want@,
                    0,
                    true,
                ),
            decreases len - off,
        {
            let mut b = buf[off];
            if b == 92u8 {
                if len - off <= 1 {
                    return None;
                }
                off += 1;
                b = buf[off];
            }
            if idx >= want.len() || b != want[idx] {
                matched = false;
            }
            idx += 1;
            off += 1;
        }
        proof {
            lemma_elem_scan_range(buf@, len as int, elem_start, want@, 0, true);
        }
        if off >= len {
            return None;
        }
        if matched && idx == want.len() {
            return Some(true);
        }
        off += 1;
    }
}

// ---------------------------------------------------------------------------
// Escaping
// ---------------------------------------------------------------------------

/// Lower-case hexadecimal digit.
pub open spec fn hex_lower_digit(v: u8) -> u8 {
    if v < 10 {
        (48 + v) as u8
    } else {
        (97 + v - 10) as u8
    }
}

pub open spec fn hex_digit(v: u8, upper: bool) -> u8 {
    if upper {
        crate::bytes::hex_upper_digit(v)
    } else {
        hex_lower_digit(v)
    }
}

pub open spec fn is_ctrl(b: u8) -> bool {
    b <= 0x1f || b == 0x7f
}

/// JSON escape of one byte: `\"`, `\\`, `\n`, `\r`, `\t`, `\u00XX` for other control
/// bytes, the byte itself otherwise.
pub open spec fn escape_byte(b: u8, upper: bool) -> Seq<u8> {
    if b == 34 || b == 92 {
        seq![92u8, b]
    } else if b == 10 {
        seq![92u8, 110]
    } else if b == 13 {
        seq![92u8, 114]
    } else if b == 9 {
        seq![92u8, 116]
    } else if is_ctrl(b) {
        seq![92u8, 117, 48, 48, hex_digit(b / 16, upper), hex_digit(b % 16, upper)]
    } else {
        seq![b]
    }
}

/// Byte-wise escape of `src[i..]` into `room` bytes, stopping before the first escape
/// that does not fit.
pub open spec fn escape_bytes_from(src: Seq<u8>, i: int, room: int, upper: bool) -> Seq<u8>
    decreases src.len() - i,
{
    if i < 0 || i >= src.len() || escape_byte(src[i], upper).len() > room {
        Seq::empty()
    } else {
        escape_byte(src[i], upper) + escape_bytes_from(
            src,
            i + 1,
            room - escape_byte(src[i], upper).len(),
            upper,
        )
    }
}

/// Byte-wise escape of all of `src[i..]`.
pub open spec fn escape_all_from(src: Seq<u8>, i: int, upper: bool) -> Seq<u8>
    decreases src.len() - i,
{
    if i < 0 || i >= src.len() {
        Seq::empty()
    } else {
        escape_byte(src[i], upper) + escape_all_from(src, i + 1, upper)
    }
}

/// The escape of one byte, as an exec value.
fn escape_one(b: u8, upper: bool) -> (r: Vec<u8>)
    ensures
        r@ == escape_byte(b, upper),
{
    let mut r: Vec<u8> = Vec::new();
    if b == 34u8 || b == 92u8 {
        r.push(92u8);
        r.push(b);
    } else if b == 10u8 {
        r.push(92u8);
        r.push(110u8);
    } else if b == 13u8 {
        r.push(92u8);
        r.push(114u8);
    } else if b == 9u8 {
        r.push(92u8);
        r.push(116u8);
    } else if b <= 0x1f || b == 0x7f {
        let hi = b / 16;
        let lo = b % 16;
        let (h, l) = if upper {
            (crate::bytes::hex_upper(hi), crate::bytes::hex_upper(lo))
        } else {
            (hex_lower(hi), hex_lower(lo))
        };
        r.push(92u8);
        r.push(117u8);
        r.push(48u8);
        r.push(48u8);
        r.push(h);
        r.push(l);
    } else {
        r.push(b);
    }
    assert(r@ =~= escape_byte(b, upper));
    r
}

/// Lower-case hexadecimal digit.
pub fn hex_lower(v: u8) -> (r: u8)
    requires
        v < 16,
    ensures
        r == hex_lower_digit(v),
{
    if v < 10 {
        48u8 + v
    } else {
        97u8 + (v - 10)
    }
}

/// Appends the byte-wise JSON escape of `src` (upper-case hex) that fits below `cap`.
pub fn append_json_escaped(out: &mut Vec<u8>, cap: usize, src: &[u8])
    ensures
        final(out)@ == old(out)@ + escape_bytes_from(src@, 0, room(old(out).len() as int, cap as int), true),
{
    let ghost start = out@;
    let mut i = 0usize;
    while i < src.len() && out.len() < cap
        invariant
            start == old(out)@,
            i <= src.len(),
            out@ + escape_bytes_from(src@, i as int, room(out.len() as int, cap as int), true)
                == start + escape_bytes_from(src@, 0, room(start.len() as int, cap as int), true),
        decreases src.len() - i,
    {
        let e = escape_one(src[i], true);
        if e.len() > cap - out.len() {
            assert(escape_bytes_from(src@, i as int, room(out.len() as int, cap as int), true)
                =~= Seq::<u8>::empty());
            assert(out@ + Seq::<u8>::empty() =~= out@);
            return;
        }
        let ghost before = out@;
        append_bytes(out, cap, e.as_slice());
        assert(out@ =~= before + escape_byte(src@[i as int], true));
        i += 1;
    }
    assert(escape_bytes_from(src@, i as int, room(out.len() as int, cap as int), true) =~= Seq::<
        u8,
    >::empty());
    assert(out@ + Seq::<u8>::empty() =~= out@);
}

/// The byte-wise JSON escape of all of `value` (lower-case hex), as a trace line writes it.
pub fn trace_json_escaped(value: &[u8]) -> (out: Vec<u8>)
    ensures
        out@ == escape_all_from(value@, 0, false),
{
    let mut out: Vec<u8> = Vec::new();
    let mut i = 0usize;
    while i < value.len()
        invariant
            i <= value.len(),
            out@ + escape_all_from(value@, i as int, false) == escape_all_from(value@, 0, false),
        decreases value.len() - i,
    {
        let e = escape_one(value[i], false);
        let ghost before = out@;
        let mut k = 0usize;
        while k < e.len()
            invariant
                k <= e.len(),
                out@ == before + e@.take(k as int),
            decreases e.len() - k,
        {
            out.push(e[k]);
            k += 1;
            assert(e@.take(k as int) =~= e@.take(k - 1).push(e@[k - 1]));
        }
        assert(e@.take(e.len() as int) =~= e@);
        assert(before + escape_all_from(value@, i as int, false) =~= out@ + escape_all_from(
            value@,
            i + 1,
            false,
        ));
        i += 1;
    }
    assert(escape_all_from(value@, i as int, false) =~= Seq::<u8>::empty());
    assert(out@ + Seq::<u8>::empty() =~= out@);
    out
}

/// UTF-8 aware escape of `src[i..]` into `room` bytes: control bytes and quotes as in
/// `escape_byte` (lower-case hex), well-formed multi-byte sequences copied whole, and each
/// byte that starts no well-formed sequence replaced by U+FFFD (skipped when that does not
/// fit); stops before the first escape or sequence that does not fit.
pub open spec fn escape_utf8_from(src: Seq<u8>, i: int, room: int) -> Seq<u8>
    decreases src.len() - i,
{
    if i < 0 || i >= src.len() || room <= 0 {
        Seq::empty()
    } else {
        let b = src[i];
        if b == 34 || b == 92 || b == 10 || b == 13 || b == 9 || is_ctrl(b) {
            if escape_byte(b, false).len() > room {
                Seq::empty()
            } else {
                escape_byte(b, false) + escape_utf8_from(src, i + 1, room - escape_byte(b, false).len())
            }
        } else if seq_len_at(src, i) == 0 {
            if 3 <= room {
                utf8_encode(0xfffd) + escape_utf8_from(src, i + 1, room - 3)
            } else {
                escape_utf8_from(src, i + 1, room)
            }
        } else if seq_len_at(src, i) > room {
            Seq::empty()
        } else {
            src.subrange(i, i + seq_len_at(src, i)) + escape_utf8_from(
                src,
                i + seq_len_at(src, i),
                room - seq_len_at(src, i),
            )
        }
    }
}

pub proof fn lemma_seq_len_bound(s: Seq<u8>, i: int)
    ensures
        seq_len_at(s, i) > 0 ==> 0 <= i && i + seq_len_at(s, i) <= s.len(),
        0 <= seq_len_at(s, i) <= 4,
{
}

/// Appends the UTF-8 aware JSON escape of `src` that fits below `cap`.
pub fn json_escape_append(out: &mut Vec<u8>, cap: usize, src: &[u8])
    ensures
        final(out)@ == old(out)@ + escape_utf8_from(src@, 0, room(old(out).len() as int, cap as int)),
{
    let ghost start = out@;
    let mut i = 0usize;
    while i < src.len() && out.len() < cap
        invariant
            start == old(out)@,
            i <= src.len(),
            out@ + escape_utf8_from(src@, i as int, room(out.len() as int, cap as int)) == start
                + escape_utf8_from(src@, 0, room(start.len() as int, cap as int)),
        decreases src.len() - i,
    {
        let b = src[i];
        if b == 34u8 || b == 92u8 || b == 10u8 || b == 13u8 || b == 9u8 || b <= 0x1f || b == 0x7f {
            let e = escape_one(b, false);
            if e.len() > cap - out.len() {
                assert(escape_utf8_from(src@, i as int, room(out.len() as int, cap as int))
                    =~= Seq::<u8>::empty());
                assert(out@ + Seq::<u8>::empty() =~= out@);
                return;
            }
            let ghost before = out@;
            append_bytes(out, cap, e.as_slice());
            assert(out@ =~= before + escape_byte(b, false));
            i += 1;
        } else {
            let seq_len = utf8_seq_len_at(src, i);
            proof {
                lemma_seq_len_bound(src@, i as int);
            }
            if seq_len == 0 {
                let ghost before = out@;
                append_utf8_codepoint(out, cap, 0xfffd);
                proof {
                    assert(utf8_encode(0xfffd).len() == 3);
                }
                i += 1;
            } else {
                if seq_len > cap - out.len() {
                    assert(escape_utf8_from(src@, i as int, room(out.len() as int, cap as int))
                        =~= Seq::<u8>::empty());
                    assert(out@ + Seq::<u8>::empty() =~= out@);
                    return;
                }
                let ghost before = out@;
                let part = vstd::slice::slice_subrange(src, i, i + seq_len);
                append_bytes(out, cap, part);
                assert(out@ =~= before + src@.subrange(i as int, i + seq_len));
                i += seq_len;
            }
        }
    }
    assert(escape_utf8_from(src@, i as int, room(out.len() as int, cap as int)) =~= Seq::<
        u8,
    >::empty());
    assert(out@ + Seq::<u8>::empty() =~= out@);
}


// ---------------------------------------------------------------------------
// Escaping, then reading back
// ---------------------------------------------------------------------------

/// `s[i..]` is well-formed UTF-8: each position starts a complete sequence.
pub open spec fn utf8_valid_from(s: Seq<u8>, i: int) -> bool
    decreases s.len() - i,
{
    if i < 0 || i >= s.len() {
        true
    } else if seq_len_at(s, i) <= 0 {
        false
    } else {
        proof {
            lemma_seq_len_bound(s, i);
        }
        utf8_valid_from(s, i + seq_len_at(s, i))
    }
}

proof fn lemma_decode_step_plain(buf: Seq<u8>, len: int, off: int, out: Seq<u8>, cap: int)
    requires
        0 <= off < len,
        buf[off] != 34,
        buf[off] != 92,
    ensures
        decode_str(buf, len, off, out, cap) == decode_str(buf, len, off + 1, push_bounded(out, cap, buf[off]), cap),
{
}

proof fn lemma_decode_step_escape(buf: Seq<u8>, len: int, off: int, out: Seq<u8>, cap: int)
    requires
        0 <= off,
        off + 1 < len,
        buf[off] == 92,
        buf[off + 1] != 117,
    ensures
        decode_str(buf, len, off, out, cap) == decode_str(
            buf,
            len,
            off + 2,
            push_bounded(out, cap, shell_escape_value(buf[off + 1])),
            cap,
        ),
{
}

proof fn lemma_decode_step_unicode(buf: Seq<u8>, len: int, off: int, out: Seq<u8>, cap: int)
    requires
        0 <= off,
        off + 5 < len,
        buf[off] == 92,
        buf[off + 1] == 117,
        hex4_ok(buf, off + 2),
    ensures
        decode_str(buf, len, off, out, cap) == decode_str(
            buf,
            len,
            off + 6,
            append_cp(out, cap, hex4_value(buf, off + 2)),
            cap,
        ),
{
}

/// Plain bytes (no quote, no backslash) are copied by the string decoder as they are.
proof fn lemma_decode_plain(buf: Seq<u8>, len: int, off: int, out: Seq<u8>, cap: int, t: Seq<u8>)
    requires
        0 <= off,
        off + t.len() < len,
        len <= buf.len(),
        buf.subrange(off, off + t.len()) == t,
        forall|j: int| 0 <= j < t.len() ==> #[trigger] t[j] != 34 && t[j] != 92,
        out.len() + t.len() <= cap,
    ensures
        decode_str(buf, len, off, out, cap) == decode_str(buf, len, off + t.len(), out + t, cap),
    decreases t.len(),
{
    if t.len() == 0 {
        assert(out + t =~= out);
    } else {
        assert(buf.subrange(off, off + t.len())[0] == t[0]);
        lemma_decode_step_plain(buf, len, off, out, cap);
        let t2 = t.drop_first();
        assert(buf.subrange(off + 1, off + 1 + t2.len()) =~= t2) by {
            assert forall|j: int| 0 <= j < t2.len() implies #[trigger] buf.subrange(off + 1, off + 1 + t2.len())[j]
                == t2[j] by {
                assert(buf.subrange(off, off + t.len())[j + 1] == t[j + 1]);
            }
        }
        assert forall|j: int| 0 <= j < t2.len() implies #[trigger] t2[j] != 34 && t2[j] != 92 by {
            assert(t[j + 1] != 34 && t[j + 1] != 92);
        }
        lemma_decode_plain(buf, len, off + 1, out.push(t[0]), cap, t2);
        assert(out.push(t[0]) + t2 =~= out + t);
    }
}

proof fn lemma_hex_digit_read(v: u8)
    requires
        v < 16,
    ensures
        spec_is_hex(hex_lower_digit(v)),
        spec_hex_digit_value(hex_lower_digit(v)) == v,
{
}

pub open spec fn is_escaped(b: u8) -> bool {
    b == 34 || b == 92 || b == 10 || b == 13 || b == 9 || is_ctrl(b)
}

/// The escape of one byte decodes back to the byte.
#[verifier::rlimit(30)]
proof fn lemma_decode_escape_byte(buf: Seq<u8>, len: int, off: int, b: u8, out: Seq<u8>, cap: int)
    requires
        is_escaped(b),
        0 <= off,
        off + escape_byte(b, false).len() < len,
        len <= buf.len(),
        buf.subrange(off, off + escape_byte(b, false).len()) == escape_byte(b, false),
        out.len() < cap,
    ensures
        decode_str(buf, len, off, out, cap) == decode_str(buf, len, off + escape_byte(b, false).len(), out.push(b), cap),
{
    let esc = escape_byte(b, false);
    assert forall|j: int| 0 <= j < esc.len() implies #[trigger] buf[off + j] == esc[j] by {
        assert(buf.subrange(off, off + esc.len())[j] == esc[j]);
    }
    if b == 34 || b == 92 || b == 10 || b == 13 || b == 9 {
        assert(buf[off] == 92u8);
        assert(buf[off + 1] == esc[1]);
        lemma_decode_step_escape(buf, len, off, out, cap);
    } else {
        assert(buf[off] == 92u8);
        assert(buf[off + 1] == 117u8);
        lemma_hex_digit_read(b / 16);
        lemma_hex_digit_read(b % 16);
        assert(buf[off + 2] == 48u8);
        assert(buf[off + 3] == 48u8);
        assert(buf[off + 4] == hex_lower_digit(b / 16));
        assert(buf[off + 5] == hex_lower_digit(b % 16));
        assert(hex4_ok(buf, off + 2));
        assert(hex4_value(buf, off + 2) == b as u32);
        assert(utf8_encode(b as u32) =~= seq![b]);
        lemma_decode_step_unicode(buf, len, off, out, cap);
        assert(append_cp(out, cap, b as u32) =~= out.push(b));
    }
}

/// The escape of valid UTF-8 `s[i..]` (with room for every escape), followed by a quote,
/// decodes back to `s[i..]`.
proof fn lemma_decode_escaped(
    buf: Seq<u8>,
    len: int,
    off: int,
    s: Seq<u8>,
    i: int,
    room: int,
    out: Seq<u8>,
    cap: int,
)
    requires
        0 <= i <= s.len(),
        utf8_valid_from(s, i),
        room >= 6 * (s.len() - i),
        0 <= off,
        off + escape_utf8_from(s, i, room).len() < len <= buf.len(),
        buf.subrange(off, off + escape_utf8_from(s, i, room).len()) == escape_utf8_from(s, i, room),
        buf[off + escape_utf8_from(s, i, room).len()] == 34,
        out.len() + (s.len() - i) <= cap,
    ensures
        decode_str(buf, len, off, out, cap) == Some(out + s.subrange(i, s.len() as int)),
    decreases s.len() - i,
{
    let e = escape_utf8_from(s, i, room);
    if i == s.len() {
        assert(out + s.subrange(i, s.len() as int) =~= out);
        return;
    }
    let b = s[i];
    lemma_seq_len_bound(s, i);
    let (head, k) = if is_escaped(b) {
        (escape_byte(b, false), 1int)
    } else {
        (s.subrange(i, i + seq_len_at(s, i)), seq_len_at(s, i))
    };
    let rest = escape_utf8_from(s, i + k, room - head.len());
    assert(e == head + rest);
    assert(buf.subrange(off, off + head.len()) =~= head) by {
        assert forall|j: int| 0 <= j < head.len() implies #[trigger] buf.subrange(off, off + head.len())[j] == head[j] by {
            assert(buf.subrange(off, off + e.len())[j] == e[j]);
        }
    }
    assert(buf.subrange(off + head.len(), off + head.len() + rest.len()) =~= rest) by {
        assert forall|j: int| 0 <= j < rest.len() implies #[trigger] buf.subrange(
            off + head.len(),
            off + head.len() + rest.len(),
        )[j] == rest[j] by {
            assert(buf.subrange(off, off + e.len())[head.len() + j] == e[head.len() + j]);
        }
    }
    if is_escaped(b) {
        lemma_decode_escape_byte(buf, len, off, b, out, cap);
        lemma_decode_escaped(buf, len, off + head.len(), s, i + 1, room - head.len(), out.push(b), cap);
        assert(out.push(b) + s.subrange(i + 1, s.len() as int) =~= out + s.subrange(i, s.len() as int));
    } else {
        assert forall|j: int| 0 <= j < head.len() implies #[trigger] head[j] != 34 && head[j] != 92 by {
            assert(head[j] == s[i + j]);
        }
        lemma_decode_plain(buf, len, off, out, cap, head);
        lemma_decode_escaped(buf, len, off + k, s, i + k, room - k, out + head, cap);
        assert(out + head + s.subrange(i + k, s.len() as int) =~= out + s.subrange(i, s.len() as int));
    }
}

/// Escaping, then extracting, gives the bytes back: when `json_escape_append` writes
/// well-formed UTF-8 `s` into an empty buffer of capacity `room` of at least six bytes a
/// byte (it appends `escape_utf8_from(s, 0, room)`), `json_extract_string` with a
/// capacity of at least `s.len()` reads `s` back from `{"key":"<that escape>"}` (its
/// result is the value of `extract_string_from`).
pub proof fn lemma_escape_then_extract(s: Seq<u8>, key: Seq<u8>, room: int, cap: int)
    requires
        utf8_valid_from(s, 0),
        room >= 6 * s.len(),
        cap >= s.len(),
    ensures
        ({
            let buf = seq![123u8, 34] + key + seq![34u8, 58, 34] + escape_utf8_from(s, 0, room) + seq![34u8, 125];
            extract_string_from(buf, buf.len() as int, key, 0, cap) == Some((key.len() + 4int, s))
        }),
{
    let e = escape_utf8_from(s, 0, room);
    let buf = seq![123u8, 34] + key + seq![34u8, 58, 34] + e + seq![34u8, 125];
    let len = buf.len() as int;
    let kl = key.len() as int;
    assert(buf[0] == 123u8);
    assert(!key_hit(buf, len, key, 0));
    assert(buf[1] == 34u8);
    assert(buf[kl + 2] == 34u8);
    assert(buf[kl + 3] == 58u8);
    assert(buf[kl + 4] == 34u8);
    assert(matches_at(buf, 2, key)) by {
        assert forall|k: int| 0 <= k < key.len() implies #[trigger] buf[2 + k] == key[k] by {}
    }
    assert(skip_spaces(buf, kl + 3, len) == kl + 3);
    assert(key_hit(buf, len, key, 1));
    assert(find_key_from(buf, len, key, 1) == Some(kl + 4));
    assert(find_key_from(buf, len, key, 0) == Some(kl + 4));
    assert(skip_spaces(buf, kl + 4, len) == kl + 4);
    assert(buf.subrange(kl + 5, kl + 5 + e.len()) =~= e);
    assert(buf[kl + 5 + e.len()] == 34u8);
    lemma_decode_escaped(buf, len, kl + 5, s, 0, room, Seq::empty(), cap);
    assert(Seq::<u8>::empty() + s.subrange(0, s.len() as int) =~= s);
}

} // verus!

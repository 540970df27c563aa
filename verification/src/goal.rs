use vstd::prelude::*;
use crate::bytes::bounded_append;
use crate::bytes::contains_ci;
use crate::bytes::contains_ascii_phrase;
use crate::bytes::matches_at;
use crate::bytes::matches_at_ci;
use crate::bytes::spec_is_digit;
use crate::bytes::spec_is_space;
use crate::json::extract_string_from;
use crate::url::spec_parse_agent_url;
use crate::url::word_end;

verus! {

pub const GOAL_DEFAULT_MAX_STEPS: usize = 6;
pub const GOAL_URL_SLOTS: usize = 4;
pub const AGENT_URL_MAX: usize = 256;
pub const OUTPUT_TAG_MAX: usize = 16;

pub open spec fn default_model_url() -> Seq<u8> {
    seq![104u8, 116, 116, 112, 58, 47, 47, 49, 48, 46, 48, 46, 50, 46, 50, 58, 56, 48, 56, 51, 47, 115, 117, 109, 109, 97, 114, 105, 122, 101]
}

// ---------------------------------------------------------------------------
// URLs in goal text
// ---------------------------------------------------------------------------

pub open spec fn url_punct(b: u8) -> bool {
    b == 46 || b == 44 || b == 59 || b == 41
}

/// `end` moved back over trailing `.`, `,`, `;` and `)` while it stays after `start`.
pub open spec fn strip_punct(buf: Seq<u8>, start: int, end: int) -> int
    decreases end - start,
{
    if end > start && url_punct(buf[end - 1]) {
        strip_punct(buf, start, end - 1)
    } else {
        end
    }
}

pub proof fn lemma_strip_punct(buf: Seq<u8>, start: int, end: int)
    requires
        start <= end,
    ensures
        start <= strip_punct(buf, start, end) <= end,
    decreases end - start,
{
    if end > start && url_punct(buf[end - 1]) {
        lemma_strip_punct(buf, start, end - 1);
    }
}

/// An `http://` or `https://` URL starts at `i`.
pub open spec fn scheme_at(buf: Seq<u8>, len: int, i: int) -> bool {
    (i + 7 <= len && matches_at(buf, i, seq![104u8, 116, 116, 112, 58, 47, 47])) || (i + 8 <= len && matches_at(
        buf,
        i,
        seq![104u8, 116, 116, 112, 115, 58, 47, 47],
    ))
}

/// The URL that starts at `i`: up to white space, trailing punctuation dropped.
pub open spec fn url_end_at(buf: Seq<u8>, len: int, i: int) -> int {
    strip_punct(buf, i, word_end(buf, i, len))
}

/// Start and length of up to `max` URLs found from `i` on, each one that reads as an
/// agent URL (see `spec_parse_agent_url`); the scan goes on after each URL found.
pub open spec fn urls_from(buf: Seq<u8>, len: int, i: int, max: nat) -> Seq<(int, int)>
    decreases len - i,
{
    if i < 0 || i >= len || max == 0 {
        Seq::empty()
    } else if scheme_at(buf, len, i) && url_end_at(buf, len, i) > i && spec_parse_agent_url(
        buf.subrange(i, url_end_at(buf, len, i)),
        url_end_at(buf, len, i) - i,
    ) is Some {
        proof {
            crate::url::lemma_word_end(buf, i, len);
            lemma_strip_punct(buf, i, word_end(buf, i, len));
        }
        seq![(i, url_end_at(buf, len, i) - i)] + urls_from(
            buf,
            len,
            url_end_at(buf, len, i),
            (max - 1) as nat,
        )
    } else {
        urls_from(buf, len, i + 1, max)
    }
}

pub proof fn lemma_urls_from(buf: Seq<u8>, len: int, i: int, max: nat)
    requires
        0 <= i,
        len <= buf.len(),
    ensures
        urls_from(buf, len, i, max).len() <= max,
        forall|k: int|
            0 <= k < urls_from(buf, len, i, max).len() ==> i <= (#[trigger] urls_from(buf, len, i, max)[k]).0
                && urls_from(buf, len, i, max)[k].0 + urls_from(buf, len, i, max)[k].1 <= len
                && urls_from(buf, len, i, max)[k].1 > 0,
    decreases len - i,
{
    if i < 0 || i >= len || max == 0 {
    } else {
        crate::url::lemma_word_end(buf, i, len);
        lemma_strip_punct(buf, i, word_end(buf, i, len));
        if scheme_at(buf, len, i) && url_end_at(buf, len, i) > i && spec_parse_agent_url(
            buf.subrange(i, url_end_at(buf, len, i)),
            url_end_at(buf, len, i) - i,
        ) is Some {
            lemma_urls_from(buf, len, url_end_at(buf, len, i), (max - 1) as nat);
        } else {
            lemma_urls_from(buf, len, i + 1, max);
        }
    }
}

/// Finds up to `max` URLs in the first `len` bytes of `buf` (see `urls_from`).
pub fn extract_urls(buf: &[u8], len: usize, max: usize) -> (r: Vec<(usize, usize)>)
    requires
        len <= buf.len(),
    ensures
        r@.len() == urls_from(buf@, len as int, 0, max as nat).len(),
        forall|k: int|
            0 <= k < r@.len() ==> (#[trigger] r@[k]).0 == urls_from(buf@, len as int, 0, max as nat)[k].0
                && r@[k].1 == urls_from(buf@, len as int, 0, max as nat)[k].1,
{
    let http: &[u8] = &[104u8, 116, 116, 112, 58, 47, 47];
    let https: &[u8] = &[104u8, 116, 116, 112, 115, 58, 47, 47];
    assert(http@ =~= seq![104u8, 116, 116, 112, 58, 47, 47]);
    assert(https@ =~= seq![104u8, 116, 116, 112, 115, 58, 47, 47]);
    let mut out: Vec<(usize, usize)> = Vec::new();
    let mut i = 0usize;
    while i < len && out.len() < max
        invariant
            len <= buf.len(),
            i <= len,
            out.len() <= max,
            http@ == seq![104u8, 116, 116, 112, 58, 47, 47],
            https@ == seq![104u8, 116, 116, 112, 115, 58, 47, 47],
            urls_from(buf@, len as int, 0, max as nat) == out@.map_values(|p: (usize, usize)| (p.0 as int, p.1 as int))
                + urls_from(buf@, len as int, i as int, (max - out.len()) as nat),
        decreases len - i,
    {
        let is_url = crate::bytes::starts_with_at(buf, len, i, http) || crate::bytes::starts_with_at(
            buf,
            len,
            i,
            https,
        );
        let mut advanced = false;
        if is_url {
            let mut end = i;
            while end < len && !crate::bytes::is_space(buf[end])
                invariant
                    i <= end <= len <= buf.len(),
                    word_end(buf@, end as int, len as int) == word_end(buf@, i as int, len as int),
                decreases len - end,
            {
                end += 1;
            }
            while end > i && (buf[end - 1] == 46u8 || buf[end - 1] == 44u8 || buf[end - 1] == 59u8 || buf[end - 1] == 41u8)
                invariant
                    i <= end <= len <= buf.len(),
                    strip_punct(buf@, i as int, end as int) == url_end_at(buf@, len as int, i as int),
                decreases end - i,
            {
                end -= 1;
            }
            if end > i {
                let cand = vstd::slice::slice_subrange(buf, i, end);
                if crate::url::parse_agent_url(cand, end - i).is_some() {
                    let ghost before = out@;
                    out.push((i, end - i));
                    assert(out@.map_values(|p: (usize, usize)| (p.0 as int, p.1 as int)) =~= before.map_values(
                        |p: (usize, usize)| (p.0 as int, p.1 as int),
                    ).push((i as int, end - i)));
                    i = end;
                    advanced = true;
                }
            }
        }
        if !advanced {
            i += 1;
        }
    }
    proof {
        assert forall|k: int| 0 <= k < out@.len() implies (#[trigger] out@[k]).0 == urls_from(buf@, len as int, 0, max as nat)[k].0
            && out@[k].1 == urls_from(buf@, len as int, 0, max as nat)[k].1 by {
            assert(out@.map_values(|p: (usize, usize)| (p.0 as int, p.1 as int))[k] == (out@[k].0 as int, out@[k].1 as int));
        }
    }
    out
}

// ---------------------------------------------------------------------------
// How many items a summary should have
// ---------------------------------------------------------------------------

/// Value of the digits of `buf[from..to]`, saturating at `usize::MAX`.
pub open spec fn sat_decimal(buf: Seq<u8>, from: int, to: int, acc: nat) -> nat
    decreases to - from,
{
    if from >= to {
        acc
    } else {
        let m = if acc * 10 > usize::MAX {
            usize::MAX as nat
        } else {
            acc * 10
        };
        let v = if m + (buf[from] - 48) > usize::MAX {
            usize::MAX as nat
        } else {
            (m + (buf[from] - 48)) as nat
        };
        sat_decimal(buf, from + 1, to, v)
    }
}

/// End of the run of digits at `i` within `len`.
pub open spec fn digits_end(buf: Seq<u8>, i: int, len: int) -> int
    decreases len - i,
{
    if i < len && spec_is_digit(buf[i]) {
        digits_end(buf, i + 1, len)
    } else {
        i
    }
}

/// The last non-zero number written in `buf[i..len]`, or `out` when there is none.
pub open spec fn last_number(buf: Seq<u8>, len: int, i: int, out: nat) -> nat
    decreases len - i,
{
    if i < 0 || i >= len {
        out
    } else if spec_is_digit(buf[i]) {
        let e = digits_end(buf, i, len);
        let v = sat_decimal(buf, i, e, 0);
        proof {
            lemma_digits_end(buf, i, len);
        }
        last_number(
            buf,
            len,
            e,
            if v != 0 {
                v
            } else {
                out
            },
        )
    } else {
        last_number(buf, len, i + 1, out)
    }
}

pub proof fn lemma_digits_end(buf: Seq<u8>, i: int, len: int)
    requires
        0 <= i <= len,
    ensures
        i <= digits_end(buf, i, len) <= len,
        i < len && spec_is_digit(buf[i]) ==> i < digits_end(buf, i, len),
    decreases len - i,
{
    if i < len && spec_is_digit(buf[i]) {
        lemma_digits_end(buf, i + 1, len);
    }
}

pub open spec fn word_count(buf: Seq<u8>, len: int, word: Seq<u8>) -> bool {
    contains_ci(buf, len, word + seq![32u8, 98, 117, 108, 108, 101, 116]) || contains_ci(buf, len, word + seq![32u8, 112, 111, 105, 110, 116])
        || contains_ci(buf, len, word + seq![32u8, 105, 116, 101, 109])
}

/// The number of items a goal asks for: `one` to `six` followed by `bullet`, `point` or
/// `item` win, else the last non-zero number written, else 3; at most 8.
pub open spec fn spec_goal_max_items(buf: Seq<u8>, len: int) -> nat {
    let n = if word_count(buf, len, seq![111u8, 110, 101]) {
        1
    } else if word_count(buf, len, seq![116u8, 119, 111]) {
        2
    } else if word_count(buf, len, seq![116u8, 104, 114, 101, 101]) {
        3
    } else if word_count(buf, len, seq![102u8, 111, 117, 114]) {
        4
    } else if word_count(buf, len, seq![102u8, 105, 118, 101]) {
        5
    } else if word_count(buf, len, seq![115u8, 105, 120]) {
        6
    } else {
        last_number(buf, len, 0, 3)
    };
    if n == 0 {
        3
    } else if n > 8 {
        8
    } else {
        n
    }
}

fn word_count_in(buf: &[u8], len: usize, word: &[u8]) -> (r: bool)
    requires
        len <= buf.len(),
    ensures
        r == word_count(buf@, len as int, word@),
{
    let bullet: &[u8] = &[32u8, 98, 117, 108, 108, 101, 116];
    let point: &[u8] = &[32u8, 112, 111, 105, 110, 116];
    let item: &[u8] = &[32u8, 105, 116, 101, 109];
    let mut a: Vec<u8> = Vec::new();
    crate::bytes::append_all(&mut a, word);
    crate::bytes::append_all(&mut a, bullet);
    let mut b: Vec<u8> = Vec::new();
    crate::bytes::append_all(&mut b, word);
    crate::bytes::append_all(&mut b, point);
    let mut c: Vec<u8> = Vec::new();
    crate::bytes::append_all(&mut c, word);
    crate::bytes::append_all(&mut c, item);
    assert(bullet@ =~= seq![32u8, 98, 117, 108, 108, 101, 116]);
    assert(point@ =~= seq![32u8, 112, 111, 105, 110, 116]);
    assert(item@ =~= seq![32u8, 105, 116, 101, 109]);
    contains_ascii_phrase(buf, len, a.as_slice()) || contains_ascii_phrase(buf, len, b.as_slice())
        || contains_ascii_phrase(buf, len, c.as_slice())
}

pub fn detect_goal_max_items(buf: &[u8], len: usize) -> (r: usize)
    requires
        len <= buf.len(),
    ensures
        r == spec_goal_max_items(buf@, len as int),
{
    let mut out: usize = 3;
    let mut i = 0usize;
    while i < len
        invariant
            i <= len <= buf.len(),
            last_number(buf@, len as int, i as int, out as nat) == last_number(buf@, len as int, 0, 3),
        decreases len - i,
    {
        if 48u8 <= buf[i] && buf[i] <= 57u8 {
            let start = i;
            let mut value: usize = 0;
            proof {
                lemma_digits_end(buf@, i as int, len as int);
            }
            while i < len && 48u8 <= buf[i] && buf[i] <= 57u8
                invariant
                    start <= i <= len <= buf.len(),
                    digits_end(buf@, i as int, len as int) == digits_end(buf@, start as int, len as int),
                    sat_decimal(buf@, i as int, digits_end(buf@, start as int, len as int), value as nat)
                        == sat_decimal(buf@, start as int, digits_end(buf@, start as int, len as int), 0),
                decreases len - i,
            {
                proof {
                    lemma_digits_end(buf@, i as int, len as int);
                }
                assert((value > usize::MAX / 10) == (value * 10 > usize::MAX)) by (nonlinear_arith);
                let m: usize = if value > usize::MAX / 10 {
                    usize::MAX
                } else {
                    value * 10
                };
                value = m.saturating_add((buf[i] - 48u8) as usize);
                i += 1;
            }
            if value != 0 {
                out = value;
            }
        } else {
            i += 1;
        }
    }
    let one: &[u8] = &[111u8, 110, 101];
    let two: &[u8] = &[116u8, 119, 111];
    let three: &[u8] = &[116u8, 104, 114, 101, 101];
    let four: &[u8] = &[102u8, 111, 117, 114];
    let five: &[u8] = &[102u8, 105, 118, 101];
    let six: &[u8] = &[115u8, 105, 120];
    assert(one@ =~= seq![111u8, 110, 101]);
    assert(two@ =~= seq![116u8, 119, 111]);
    assert(three@ =~= seq![116u8, 104, 114, 101, 101]);
    assert(four@ =~= seq![102u8, 111, 117, 114]);
    assert(five@ =~= seq![102u8, 105, 118, 101]);
    assert(six@ =~= seq![115u8, 105, 120]);
    if word_count_in(buf, len, one) {
        out = 1;
    } else if word_count_in(buf, len, two) {
        out = 2;
    } else if word_count_in(buf, len, three) {
        out = 3;
    } else if word_count_in(buf, len, four) {
        out = 4;
    } else if word_count_in(buf, len, five) {
        out = 5;
    } else if word_count_in(buf, len, six) {
        out = 6;
    }
    if out == 0 {
        3
    } else if out > 8 {
        8
    } else {
        out
    }
}

// ---------------------------------------------------------------------------
// Output language and style
// ---------------------------------------------------------------------------

/// `zh` for Chinese, `default` when unspecified or asked to stay the same, else the
/// request itself; within `cap` bytes.
pub open spec fn spec_output_language(src: Seq<u8>, cap: int) -> Seq<u8> {
    let n = src.len() as int;
    bounded_append(
        Seq::empty(),
        cap,
        if n == 0 {
            seq![100u8, 101, 102, 97, 117, 108, 116]
        } else if contains_ci(src, n, seq![122u8, 104]) || contains_ci(src, n, seq![99u8, 104, 105, 110, 101, 115, 101]) {
            seq![122u8, 104]
        } else if contains_ci(src, n, seq![100u8, 101, 102, 97, 117, 108, 116]) || contains_ci(src, n, seq![115u8, 97, 109, 101])
            || contains_ci(src, n, seq![97u8, 117, 116, 111]) {
            seq![100u8, 101, 102, 97, 117, 108, 116]
        } else {
            src
        },
    )
}

pub fn normalize_output_language(src: &[u8], cap: usize) -> (r: Vec<u8>)
    ensures
        r@ == spec_output_language(src@, cap as int),
{
    let n = src.len();
    let dflt: &[u8] = &[100u8, 101, 102, 97, 117, 108, 116];
    let zh: &[u8] = &[122u8, 104];
    let chinese: &[u8] = &[99u8, 104, 105, 110, 101, 115, 101];
    let same: &[u8] = &[115u8, 97, 109, 101];
    let auto: &[u8] = &[97u8, 117, 116, 111];
    assert(dflt@ =~= seq![100u8, 101, 102, 97, 117, 108, 116]);
    assert(zh@ =~= seq![122u8, 104]);
    assert(chinese@ =~= seq![99u8, 104, 105, 110, 101, 115, 101]);
    assert(same@ =~= seq![115u8, 97, 109, 101]);
    assert(auto@ =~= seq![97u8, 117, 116, 111]);
    let pick: &[u8] = if n == 0 {
        dflt
    } else if contains_ascii_phrase(src, n, zh) || contains_ascii_phrase(src, n, chinese) {
        zh
    } else if contains_ascii_phrase(src, n, dflt) || contains_ascii_phrase(src, n, same)
        || contains_ascii_phrase(src, n, auto) {
        dflt
    } else {
        src
    };
    let mut out: Vec<u8> = Vec::new();
    crate::bytes::append_bytes(&mut out, cap, pick);
    out
}

/// `bullet` when unspecified or asking for bullets, points or a list, `paragraph` when
/// asking for one, else the request itself; within `cap` bytes.
pub open spec fn spec_output_style(src: Seq<u8>, cap: int) -> Seq<u8> {
    let n = src.len() as int;
    bounded_append(
        Seq::empty(),
        cap,
        if n == 0 {
            seq![98u8, 117, 108, 108, 101, 116]
        } else if contains_ci(src, n, seq![98u8, 117, 108, 108, 101, 116]) || contains_ci(src, n, seq![112u8, 111, 105, 110, 116])
            || contains_ci(src, n, seq![108u8, 105, 115, 116]) {
            seq![98u8, 117, 108, 108, 101, 116]
        } else if contains_ci(src, n, seq![112u8, 97, 114, 97, 103, 114, 97, 112, 104]) {
            seq![112u8, 97, 114, 97, 103, 114, 97, 112, 104]
        } else {
            src
        },
    )
}

pub fn normalize_output_style(src: &[u8], cap: usize) -> (r: Vec<u8>)
    ensures
        r@ == spec_output_style(src@, cap as int),
{
    let n = src.len();
    let bullet: &[u8] = &[98u8, 117, 108, 108, 101, 116];
    let point: &[u8] = &[112u8, 111, 105, 110, 116];
    let list: &[u8] = &[108u8, 105, 115, 116];
    let paragraph: &[u8] = &[112u8, 97, 114, 97, 103, 114, 97, 112, 104];
    assert(bullet@ =~= seq![98u8, 117, 108, 108, 101, 116]);
    assert(point@ =~= seq![112u8, 111, 105, 110, 116]);
    assert(list@ =~= seq![108u8, 105, 115, 116]);
    assert(paragraph@ =~= seq![112u8, 97, 114, 97, 103, 114, 97, 112, 104]);
    let pick: &[u8] = if n == 0 {
        bullet
    } else if contains_ascii_phrase(src, n, bullet) || contains_ascii_phrase(src, n, point)
        || contains_ascii_phrase(src, n, list) {
        bullet
    } else if contains_ascii_phrase(src, n, paragraph) {
        paragraph
    } else {
        src
    };
    let mut out: Vec<u8> = Vec::new();
    crate::bytes::append_bytes(&mut out, cap, pick);
    out
}

// ---------------------------------------------------------------------------
// Goals compiled inside the runtime
// ---------------------------------------------------------------------------

/// Whether a line starts, after white space, with `fetch ` in any case.
pub open spec fn spec_starts_with_fetch_goal(line: Seq<u8>, len: int) -> bool {
    let i = crate::bytes::skip_spaces(line, 0, len);
    i + 6 <= len && matches_at_ci(line, i, seq![102u8, 101, 116, 99, 104, 32])
}

pub fn starts_with_fetch_goal(line: &[u8], len: usize) -> (r: bool)
    requires
        len <= line.len(),
    ensures
        r == spec_starts_with_fetch_goal(line@, len as int),
{
    let mut i = 0usize;
    while i < len && crate::bytes::is_space(line[i])
        invariant
            i <= len <= line.len(),
            crate::bytes::skip_spaces(line@, i as int, len as int) == crate::bytes::skip_spaces(
                line@,
                0,
                len as int,
            ),
        decreases len - i,
    {
        i += 1;
    }
    let needle: &[u8] = &[102u8, 101, 116, 99, 104, 32];
    assert(needle@ =~= seq![102u8, 101, 116, 99, 104, 32]);
    crate::bytes::starts_with_at_ci(line, len, i, needle)
}

/// Why a goal could not be compiled locally.
#[derive(Clone, Copy, PartialEq, Eq, Structural)]
pub enum GoalError {
    CompilationFailed,
    Unsupported,
}

pub open spec fn goal_error_reason(e: GoalError) -> Seq<u8> {
    match e {
        GoalError::CompilationFailed => seq![103u8, 111, 97, 108, 32, 99, 111, 109, 112, 105, 108, 97, 116, 105, 111, 110, 32, 102, 97, 105, 108, 101, 100],
        GoalError::Unsupported => seq![117u8, 110, 115, 117, 112, 112, 111, 114, 116, 101, 100, 32, 103, 111, 97, 108],
    }
}

impl GoalError {
    pub fn reason(&self) -> (r: &'static [u8])
        ensures
            r@ == goal_error_reason(*self),
    {
        match self {
            GoalError::CompilationFailed => {
                let r: &'static [u8] = &[103u8, 111, 97, 108, 32, 99, 111, 109, 112, 105, 108, 97, 116, 105, 111, 110, 32, 102, 97, 105, 108, 101, 100];
                assert(r@ =~= goal_error_reason(*self));
                r
            },
            GoalError::Unsupported => {
                let r: &'static [u8] = &[117u8, 110, 115, 117, 112, 112, 111, 114, 116, 101, 100, 32, 103, 111, 97, 108];
                assert(r@ =~= goal_error_reason(*self));
                r
            },
        }
    }
}

/// A goal compiled in the runtime: where to fetch, where to post (with the model
/// gateway) when it asks for posting, and how many items to keep.
pub struct GoalPlan {
    pub source_url: Vec<u8>,
    pub model_url: Vec<u8>,
    pub sink_url: Vec<u8>,
    pub max_items: usize,
    pub post: bool,
}

pub open spec fn url_at(goal: Seq<u8>, u: (int, int)) -> Seq<u8> {
    goal.subrange(u.0, u.0 + u.1)
}

pub open spec fn capped(s: Seq<u8>) -> Seq<u8> {
    bounded_append(Seq::empty(), AGENT_URL_MAX as int, s)
}

/// The local reading of a goal: `summarize`/`summary` with `fetch` or `post` and a URL
/// (two for a post: source then sink, or three: source, model gateway, sink).
pub open spec fn spec_compile_goal(goal: Seq<u8>) -> Result<(Seq<u8>, Seq<u8>, Seq<u8>, nat, bool), GoalError> {
    let n = goal.len() as int;
    let has_fetch = contains_ci(goal, n, seq![102u8, 101, 116, 99, 104]);
    let has_post = contains_ci(goal, n, seq![112u8, 111, 115, 116]);
    let has_summary = contains_ci(goal, n, seq![115u8, 117, 109, 109, 97, 114, 105, 122, 101]) || contains_ci(goal, n, seq![115u8, 117, 109, 109, 97, 114, 121]);
    let urls = urls_from(goal, n, 0, GOAL_URL_SLOTS as nat);
    if contains_ci(goal, n, seq![99u8, 111, 109, 112, 105, 108, 97, 116, 105, 111, 110, 32, 101, 114, 114, 111, 114]) || contains_ci(goal, n, seq![97u8, 109, 98, 105, 103, 117, 111, 117, 115, 32, 103, 111, 97, 108]) {
        Err(GoalError::CompilationFailed)
    } else if !has_summary || (!has_fetch && !has_post) || urls.len() == 0 || (has_post && urls.len() < 2) {
        Err(GoalError::Unsupported)
    } else {
        let source = capped(url_at(goal, urls[0]));
        let model = if has_post {
            if urls.len() >= 3 {
                capped(url_at(goal, urls[1]))
            } else {
                default_model_url()
            }
        } else {
            Seq::empty()
        };
        let sink = if has_post {
            if urls.len() >= 3 {
                capped(url_at(goal, urls[2]))
            } else {
                capped(url_at(goal, urls[1]))
            }
        } else {
            Seq::empty()
        };
        Ok((source, model, sink, spec_goal_max_items(goal, n), has_post))
    }
}

/// The URLs of a goal are found in the order they are named, none overlapping the next.
pub proof fn lemma_urls_in_order(buf: Seq<u8>, len: int, i: int, max: nat)
    requires
        0 <= i,
        len <= buf.len(),
    ensures
        forall|a: int, b: int|
            0 <= a < b < urls_from(buf, len, i, max).len() ==> (#[trigger] urls_from(buf, len, i, max)[a]).0
                + urls_from(buf, len, i, max)[a].1 <= (#[trigger] urls_from(buf, len, i, max)[b]).0,
    decreases len - i,
{
    if i < 0 || i >= len || max == 0 {
    } else {
        crate::url::lemma_word_end(buf, i, len);
        lemma_strip_punct(buf, i, word_end(buf, i, len));
        if scheme_at(buf, len, i) && url_end_at(buf, len, i) > i && spec_parse_agent_url(
            buf.subrange(i, url_end_at(buf, len, i)),
            url_end_at(buf, len, i) - i,
        ) is Some {
            let e = url_end_at(buf, len, i);
            lemma_urls_in_order(buf, len, e, (max - 1) as nat);
            lemma_urls_from(buf, len, e, (max - 1) as nat);
            let rest = urls_from(buf, len, e, (max - 1) as nat);
            let all = urls_from(buf, len, i, max);
            assert(all == seq![(i, e - i)] + rest);
            assert forall|a: int, b: int| 0 <= a < b < all.len() implies (#[trigger] all[a]).0 + all[a].1
                <= (#[trigger] all[b]).0 by {
                if a == 0 {
                    assert(all[b] == rest[b - 1]);
                    assert(e <= rest[b - 1].0);
                } else {
                    assert(all[a] == rest[a - 1] && all[b] == rest[b - 1]);
                }
            }
        } else {
            lemma_urls_in_order(buf, len, i + 1, max);
            assert(urls_from(buf, len, i, max) == urls_from(buf, len, i + 1, max));
        }
    }
}

/// A goal that posts its summary reads its URLs in the order they are named: with three
/// (or more), the first is the source, the second the model gateway and the third the
/// sink; with two, the first is the source and the second the sink, the summary going
/// through the default gateway.
pub proof fn lemma_post_goal_urls(goal: Seq<u8>)
    ensures
        spec_compile_goal(goal) matches Ok((s, m, k, items, post)) ==> {
            let u = urls_from(goal, goal.len() as int, 0, GOAL_URL_SLOTS as nat);
            &&& post ==> u.len() >= 2
            &&& post && u.len() >= 3 ==> {
                &&& u[0].0 + u[0].1 <= u[1].0 && u[1].0 + u[1].1 <= u[2].0
                &&& s == capped(goal.subrange(u[0].0, u[0].0 + u[0].1))
                &&& m == capped(goal.subrange(u[1].0, u[1].0 + u[1].1))
                &&& k == capped(goal.subrange(u[2].0, u[2].0 + u[2].1))
            }
            &&& post && u.len() == 2 ==> {
                &&& u[0].0 + u[0].1 <= u[1].0
                &&& s == capped(goal.subrange(u[0].0, u[0].0 + u[0].1))
                &&& m == default_model_url()
                &&& k == capped(goal.subrange(u[1].0, u[1].0 + u[1].1))
            }
            &&& !post ==> u.len() >= 1 && s == capped(goal.subrange(u[0].0, u[0].0 + u[0].1)) && m.len() == 0
                && k.len() == 0
        },
{
    let u = urls_from(goal, goal.len() as int, 0, GOAL_URL_SLOTS as nat);
    lemma_urls_in_order(goal, goal.len() as int, 0, GOAL_URL_SLOTS as nat);
    if u.len() >= 3 {
        assert(u[0].0 + u[0].1 <= u[1].0);
        assert(u[1].0 + u[1].1 <= u[2].0);
    }
    if u.len() >= 2 {
        assert(u[0].0 + u[0].1 <= u[1].0);
    }
}

fn url_bytes(goal: &[u8], start: usize, len: usize) -> (r: Vec<u8>)
    requires
        start + len <= goal.len(),
    ensures
        r@ == capped(goal@.subrange(start as int, start + len)),
{
    let mut out: Vec<u8> = Vec::new();
    crate::bytes::append_bytes(&mut out, AGENT_URL_MAX, vstd::slice::slice_subrange(goal, start, start + len));
    out
}

pub fn compile_goal_locally(goal: &[u8]) -> (r: Result<GoalPlan, GoalError>)
    ensures
        match (r, spec_compile_goal(goal@)) {
            (Ok(p), Ok((s, m, k, items, post))) => p.source_url@ == s && p.model_url@ == m
                && p.sink_url@ == k && p.max_items == items && p.post == post,
            (Err(e1), Err(e2)) => e1 == e2,
            _ => false,
        },
{
    let n = goal.len();
    let ce: &[u8] = &[99u8, 111, 109, 112, 105, 108, 97, 116, 105, 111, 110, 32, 101, 114, 114, 111, 114];
    let ag: &[u8] = &[97u8, 109, 98, 105, 103, 117, 111, 117, 115, 32, 103, 111, 97, 108];
    let fetch: &[u8] = &[102u8, 101, 116, 99, 104];
    let post: &[u8] = &[112u8, 111, 115, 116];
    let summarize: &[u8] = &[115u8, 117, 109, 109, 97, 114, 105, 122, 101];
    let summary: &[u8] = &[115u8, 117, 109, 109, 97, 114, 121];
    assert(ce@ =~= seq![99u8, 111, 109, 112, 105, 108, 97, 116, 105, 111, 110, 32, 101, 114, 114, 111, 114]);
    assert(ag@ =~= seq![97u8, 109, 98, 105, 103, 117, 111, 117, 115, 32, 103, 111, 97, 108]);
    assert(fetch@ =~= seq![102u8, 101, 116, 99, 104]);
    assert(post@ =~= seq![112u8, 111, 115, 116]);
    assert(summarize@ =~= seq![115u8, 117, 109, 109, 97, 114, 105, 122, 101]);
    assert(summary@ =~= seq![115u8, 117, 109, 109, 97, 114, 121]);
    if contains_ascii_phrase(goal, n, ce) || contains_ascii_phrase(goal, n, ag) {
        return Err(GoalError::CompilationFailed);
    }
    let has_fetch = contains_ascii_phrase(goal, n, fetch);
    let has_post = contains_ascii_phrase(goal, n, post);
    let has_summary = contains_ascii_phrase(goal, n, summarize) || contains_ascii_phrase(goal, n, summary);
    if !has_summary || (!has_fetch && !has_post) {
        return Err(GoalError::Unsupported);
    }
    let urls = extract_urls(goal, n, GOAL_URL_SLOTS);
    proof {
        lemma_urls_from(goal@, n as int, 0, GOAL_URL_SLOTS as nat);
    }
    let count = urls.len();
    if count == 0 || (has_post && count < 2) {
        return Err(GoalError::Unsupported);
    }
    let source = url_bytes(goal, urls[0].0, urls[0].1);
    let mut model_url: Vec<u8> = Vec::new();
    let mut sink_url: Vec<u8> = Vec::new();
    if has_post {
        if count >= 3 {
            model_url = url_bytes(goal, urls[1].0, urls[1].1);
            sink_url = url_bytes(goal, urls[2].0, urls[2].1);
        } else {
            let dm: &[u8] = &[104u8, 116, 116, 112, 58, 47, 47, 49, 48, 46, 48, 46, 50, 46, 50, 58, 56, 48, 56, 51, 47, 115, 117, 109, 109, 97, 114, 105, 122, 101];
            assert(dm@ =~= default_model_url());
            crate::bytes::append_all(&mut model_url, dm);
            sink_url = url_bytes(goal, urls[1].0, urls[1].1);
        }
    }
    let max_items = detect_goal_max_items(goal, n);
    Ok(GoalPlan { source_url: source, model_url, sink_url, max_items, post: has_post })
}

/// The sink a goal names when it asks to post: its last URL, when it has at least two.
pub open spec fn spec_sink_hint(goal: Seq<u8>) -> Option<Seq<u8>> {
    let n = goal.len() as int;
    let urls = urls_from(goal, n, 0, GOAL_URL_SLOTS as nat);
    if !contains_ci(goal, n, seq![112u8, 111, 115, 116]) || urls.len() < 2 {
        None
    } else {
        Some(capped(url_at(goal, urls[urls.len() - 1])))
    }
}

pub fn copy_sink_hint_from_goal(goal: &[u8]) -> (r: Option<Vec<u8>>)
    ensures
        match r {
            Some(v) => spec_sink_hint(goal@) == Some(v@),
            None => spec_sink_hint(goal@) is None,
        },
{
    let post: &[u8] = &[112u8, 111, 115, 116];
    assert(post@ =~= seq![112u8, 111, 115, 116]);
    if !contains_ascii_phrase(goal, goal.len(), post) {
        return None;
    }
    let urls = extract_urls(goal, goal.len(), GOAL_URL_SLOTS);
    proof {
        lemma_urls_from(goal@, goal.len() as int, 0, GOAL_URL_SLOTS as nat);
    }
    let count = urls.len();
    if count < 2 {
        return None;
    }
    Some(url_bytes(goal, urls[count - 1].0, urls[count - 1].1))
}

// ---------------------------------------------------------------------------
// How a failed goal ends
// ---------------------------------------------------------------------------

/// A goal that fails with `reason` is refused (rather than failed) when the reason says
/// it is unsupported.
pub open spec fn spec_compilation_refused(reason: Seq<u8>) -> bool {
    contains_ci(reason, reason.len() as int, seq![117u8, 110, 115, 117, 112, 112, 111, 114, 116, 101, 100])
}

pub fn compilation_failure_refused(reason: &[u8]) -> (r: bool)
    ensures
        r == spec_compilation_refused(reason@),
{
    let u: &[u8] = &[117u8, 110, 115, 117, 112, 112, 111, 114, 116, 101, 100];
    assert(u@ =~= seq![117u8, 110, 115, 117, 112, 112, 111, 114, 116, 101, 100]);
    contains_ascii_phrase(reason, reason.len(), u)
}

/// A goal whose interpretation fails with `reason` is refused when it is unsupported or
/// no OpenAI key is set.
pub open spec fn spec_interpretation_refused(reason: Seq<u8>) -> bool {
    let n = reason.len() as int;
    contains_ci(reason, n, seq![117u8, 110, 115, 117, 112, 112, 111, 114, 116, 101, 100]) || contains_ci(reason, n, seq![109u8, 105, 115, 115, 105, 110, 103, 32, 111, 112, 101, 110, 97, 105, 32, 107, 101, 121])
        || contains_ci(reason, n, seq![114u8, 117, 110, 32, 111, 112, 101, 110, 97, 105, 45, 107, 101, 121])
}

pub fn interpretation_failure_refused(reason: &[u8]) -> (r: bool)
    ensures
        r == spec_interpretation_refused(reason@),
{
    let u: &[u8] = &[117u8, 110, 115, 117, 112, 112, 111, 114, 116, 101, 100];
    let m: &[u8] = &[109u8, 105, 115, 115, 105, 110, 103, 32, 111, 112, 101, 110, 97, 105, 32, 107, 101, 121];
    let k: &[u8] = &[114u8, 117, 110, 32, 111, 112, 101, 110, 97, 105, 45, 107, 101, 121];
    assert(u@ =~= seq![117u8, 110, 115, 117, 112, 112, 111, 114, 116, 101, 100]);
    assert(m@ =~= seq![109u8, 105, 115, 115, 105, 110, 103, 32, 111, 112, 101, 110, 97, 105, 32, 107, 101, 121]);
    assert(k@ =~= seq![114u8, 117, 110, 32, 111, 112, 101, 110, 97, 105, 45, 107, 101, 121]);
    let n = reason.len();
    contains_ascii_phrase(reason, n, u) || contains_ascii_phrase(reason, n, m) || contains_ascii_phrase(reason, n, k)
}

/// The result status recorded for a failure: `refused` or `error`.
pub fn failure_status(refused: bool) -> (r: &'static [u8])
    ensures
        r@ == (if refused {
            seq![114u8, 101, 102, 117, 115, 101, 100]
        } else {
            seq![101u8, 114, 114, 111, 114]
        }),
{
    let r: &'static [u8] = if refused {
        &[114u8, 101, 102, 117, 115, 101, 100]
    } else {
        &[101u8, 114, 114, 111, 114]
    };
    assert(r@ =~= (if refused {
        seq![114u8, 101, 102, 117, 115, 101, 100]
    } else {
        seq![101u8, 114, 114, 111, 114]
    }));
    r
}


// ---------------------------------------------------------------------------
// Goals read by the model
// ---------------------------------------------------------------------------

/// Why a model's reading of a goal was not used.
#[derive(Clone, Copy, PartialEq, Eq, Structural)]
pub enum InterpretError {
    InvalidResponse,
    UnsupportedGoal,
    BackendUnavailable,
    Failed,
    MissingAction,
    MissingSource,
    MissingSink,
    UnsupportedAction,
}

pub open spec fn interpret_error_reason(e: InterpretError) -> Seq<u8> {
    match e {
        InterpretError::InvalidResponse => seq![105u8, 110, 118, 97, 108, 105, 100, 32, 105, 110, 116, 101, 114, 112, 114, 101, 116, 97, 116, 105, 111, 110, 32, 114, 101, 115, 112, 111, 110, 115, 101],
        InterpretError::UnsupportedGoal => seq![117u8, 110, 115, 117, 112, 112, 111, 114, 116, 101, 100, 32, 103, 111, 97, 108],
        InterpretError::BackendUnavailable => seq![105u8, 110, 116, 101, 114, 112, 114, 101, 116, 97, 116, 105, 111, 110, 32, 98, 97, 99, 107, 101, 110, 100, 32, 117, 110, 97, 118, 97, 105, 108, 97, 98, 108, 101],
        InterpretError::Failed => seq![105u8, 110, 116, 101, 114, 112, 114, 101, 116, 97, 116, 105, 111, 110, 32, 102, 97, 105, 108, 101, 100],
        InterpretError::MissingAction => seq![109u8, 105, 115, 115, 105, 110, 103, 32, 105, 110, 116, 101, 114, 112, 114, 101, 116, 97, 116, 105, 111, 110, 32, 97, 99, 116, 105, 111, 110],
        InterpretError::MissingSource => seq![109u8, 105, 115, 115, 105, 110, 103, 32, 105, 110, 116, 101, 114, 112, 114, 101, 116, 101, 100, 32, 115, 111, 117, 114, 99, 101, 95, 117, 114, 108],
        InterpretError::MissingSink => seq![109u8, 105, 115, 115, 105, 110, 103, 32, 105, 110, 116, 101, 114, 112, 114, 101, 116, 101, 100, 32, 115, 105, 110, 107, 95, 117, 114, 108],
        InterpretError::UnsupportedAction => seq![117u8, 110, 115, 117, 112, 112, 111, 114, 116, 101, 100, 32, 105, 110, 116, 101, 114, 112, 114, 101, 116, 101, 100, 32, 97, 99, 116, 105, 111, 110],
    }
}

impl InterpretError {
    pub fn reason(&self) -> (r: &'static [u8])
        ensures
            r@ == interpret_error_reason(*self),
    {
        let r: &'static [u8] = match self {
            InterpretError::InvalidResponse => &[105u8, 110, 118, 97, 108, 105, 100, 32, 105, 110, 116, 101, 114, 112, 114, 101, 116, 97, 116, 105, 111, 110, 32, 114, 101, 115, 112, 111, 110, 115, 101],
            InterpretError::UnsupportedGoal => &[117u8, 110, 115, 117, 112, 112, 111, 114, 116, 101, 100, 32, 103, 111, 97, 108],
            InterpretError::BackendUnavailable => &[105u8, 110, 116, 101, 114, 112, 114, 101, 116, 97, 116, 105, 111, 110, 32, 98, 97, 99, 107, 101, 110, 100, 32, 117, 110, 97, 118, 97, 105, 108, 97, 98, 108, 101],
            InterpretError::Failed => &[105u8, 110, 116, 101, 114, 112, 114, 101, 116, 97, 116, 105, 111, 110, 32, 102, 97, 105, 108, 101, 100],
            InterpretError::MissingAction => &[109u8, 105, 115, 115, 105, 110, 103, 32, 105, 110, 116, 101, 114, 112, 114, 101, 116, 97, 116, 105, 111, 110, 32, 97, 99, 116, 105, 111, 110],
            InterpretError::MissingSource => &[109u8, 105, 115, 115, 105, 110, 103, 32, 105, 110, 116, 101, 114, 112, 114, 101, 116, 101, 100, 32, 115, 111, 117, 114, 99, 101, 95, 117, 114, 108],
            InterpretError::MissingSink => &[109u8, 105, 115, 115, 105, 110, 103, 32, 105, 110, 116, 101, 114, 112, 114, 101, 116, 101, 100, 32, 115, 105, 110, 107, 95, 117, 114, 108],
            InterpretError::UnsupportedAction => &[117u8, 110, 115, 117, 112, 112, 111, 114, 116, 101, 100, 32, 105, 110, 116, 101, 114, 112, 114, 101, 116, 101, 100, 32, 97, 99, 116, 105, 111, 110],
        };
        assert(r@ =~= interpret_error_reason(*self));
        r
    }
}

/// A goal as the model read it.
pub struct Interpretation {
    pub post: bool,
    pub source_url: Vec<u8>,
    pub sink_url: Vec<u8>,
    pub max_items: usize,
    pub language: Vec<u8>,
    pub style: Vec<u8>,
}

pub open spec fn str_field(r: Seq<u8>, key: Seq<u8>, cap: int) -> Option<Seq<u8>> {
    match extract_string_from(r, r.len() as int, key, 0, cap) {
        Some((_, s)) => Some(s),
        None => None,
    }
}

pub open spec fn begins(s: Seq<u8>, p: Seq<u8>) -> bool {
    p.len() <= s.len() && matches_at(s, 0, p)
}

pub open spec fn error_kind(reason: Seq<u8>) -> InterpretError {
    if reason.len() == 0 {
        InterpretError::Failed
    } else if begins(reason, seq![117u8, 110, 115, 117, 112, 112, 111, 114, 116, 101, 100, 32, 103, 111, 97, 108]) {
        InterpretError::UnsupportedGoal
    } else if begins(reason, seq![116u8, 114, 97, 110, 115, 108, 97, 116, 105, 111, 110, 32, 98, 97, 99, 107, 101, 110, 100, 32, 117, 110, 97, 118, 97, 105, 108, 97, 98, 108, 101]) || begins(
        reason,
        seq![105u8, 110, 116, 101, 114, 112, 114, 101, 116, 97, 116, 105, 111, 110, 32, 98, 97, 99, 107, 101, 110, 100, 32, 117, 110, 97, 118, 97, 105, 108, 97, 98, 108, 101],
    ) {
        InterpretError::BackendUnavailable
    } else {
        InterpretError::Failed
    }
}

pub open spec fn clamp_items(v: u64) -> nat {
    if v == 0 {
        1
    } else if v > 8 {
        8
    } else {
        v as nat
    }
}

/// The reading of the model's JSON answer `r`: an error status maps its reason to an
/// error; otherwise an action (`post_summary`, which needs a sink, or `local_summary`),
/// a source URL, and the optional sink, item count (3, kept within 1 to 8), language
/// (`default`) and style (`bullet`).
pub open spec fn spec_interpretation(r: Seq<u8>) -> Result<(bool, Seq<u8>, Seq<u8>, nat, Seq<u8>, Seq<u8>), InterpretError> {
    match str_field(r, seq![115u8, 116, 97, 116, 117, 115], 16) {
        None => Err(InterpretError::InvalidResponse),
        Some(status) => if begins(status, seq![101u8, 114, 114, 111, 114]) {
            Err(
                error_kind(
                    match str_field(r, seq![114u8, 101, 97, 115, 111, 110], 128) {
                        Some(x) => x,
                        None => Seq::empty(),
                    },
                ),
            )
        } else {
            match str_field(r, seq![97u8, 99, 116, 105, 111, 110], 32) {
                None => Err(InterpretError::MissingAction),
                Some(action) => match str_field(r, seq![115u8, 111, 117, 114, 99, 101, 95, 117, 114, 108], AGENT_URL_MAX as int) {
                    None => Err(InterpretError::MissingSource),
                    Some(source) => {
                        let sink = match str_field(r, seq![115u8, 105, 110, 107, 95, 117, 114, 108], AGENT_URL_MAX as int) {
                            Some(x) => x,
                            None => Seq::empty(),
                        };
                        let items = clamp_items(
                            match crate::json::extract_u64(r, r.len() as int, seq![109u8, 97, 120, 95, 105, 116, 101, 109, 115]) {
                                Some(v) => v,
                                None => 3,
                            },
                        );
                        let lang = match str_field(r, seq![111u8, 117, 116, 112, 117, 116, 95, 108, 97, 110, 103, 117, 97, 103, 101], OUTPUT_TAG_MAX as int) {
                            Some(x) => x,
                            None => Seq::empty(),
                        };
                        let style = match str_field(r, seq![115u8, 116, 121, 108, 101], OUTPUT_TAG_MAX as int) {
                            Some(x) => x,
                            None => Seq::empty(),
                        };
                        let language = if lang.len() != 0 {
                            spec_output_language(lang, OUTPUT_TAG_MAX as int)
                        } else {
                            seq![100u8, 101, 102, 97, 117, 108, 116]
                        };
                        let st = if style.len() != 0 {
                            spec_output_style(style, OUTPUT_TAG_MAX as int)
                        } else {
                            seq![98u8, 117, 108, 108, 101, 116]
                        };
                        if begins(action, seq![112u8, 111, 115, 116, 95, 115, 117, 109, 109, 97, 114, 121]) {
                            if sink.len() == 0 {
                                Err(InterpretError::MissingSink)
                            } else {
                                Ok((true, source, sink, items, language, st))
                            }
                        } else if begins(action, seq![108u8, 111, 99, 97, 108, 95, 115, 117, 109, 109, 97, 114, 121]) {
                            Ok((false, source, sink, items, language, st))
                        } else {
                            Err(InterpretError::UnsupportedAction)
                        }
                    },
                },
            }
        },
    }
}

fn field(r: &[u8], key: &[u8], cap: usize) -> (out: Option<Vec<u8>>)
    ensures
        match out {
            Some(v) => str_field(r@, key@, cap as int) == Some(v@),
            None => str_field(r@, key@, cap as int) is None,
        },
{
    crate::json::json_extract_string(r, r.len(), key, cap)
}

fn field_or_empty(r: &[u8], key: &[u8], cap: usize) -> (out: Vec<u8>)
    ensures
        out@ == (match str_field(r@, key@, cap as int) {
            Some(x) => x,
            None => Seq::empty(),
        }),
{
    match field(r, key, cap) {
        Some(v) => v,
        None => Vec::new(),
    }
}

pub fn apply_interpretation_response(response: &[u8]) -> (r: Result<Interpretation, InterpretError>)
    ensures
        match (r, spec_interpretation(response@)) {
            (Ok(i), Ok((post, s, k, items, lang, style))) => i.post == post && i.source_url@ == s
                && i.sink_url@ == k && i.max_items == items && i.language@ == lang && i.style@ == style,
            (Err(e1), Err(e2)) => e1 == e2,
            _ => false,
        },
{
    let k_status: &[u8] = &[115u8, 116, 97, 116, 117, 115];
    let k_reason: &[u8] = &[114u8, 101, 97, 115, 111, 110];
    let k_action: &[u8] = &[97u8, 99, 116, 105, 111, 110];
    let k_source: &[u8] = &[115u8, 111, 117, 114, 99, 101, 95, 117, 114, 108];
    let k_sink: &[u8] = &[115u8, 105, 110, 107, 95, 117, 114, 108];
    let k_items: &[u8] = &[109u8, 97, 120, 95, 105, 116, 101, 109, 115];
    let k_lang: &[u8] = &[111u8, 117, 116, 112, 117, 116, 95, 108, 97, 110, 103, 117, 97, 103, 101];
    let k_style: &[u8] = &[115u8, 116, 121, 108, 101];
    let w_error: &[u8] = &[101u8, 114, 114, 111, 114];
    let w_unsup: &[u8] = &[117u8, 110, 115, 117, 112, 112, 111, 114, 116, 101, 100, 32, 103, 111, 97, 108];
    let w_trans: &[u8] = &[116u8, 114, 97, 110, 115, 108, 97, 116, 105, 111, 110, 32, 98, 97, 99, 107, 101, 110, 100, 32, 117, 110, 97, 118, 97, 105, 108, 97, 98, 108, 101];
    let w_interp: &[u8] = &[105u8, 110, 116, 101, 114, 112, 114, 101, 116, 97, 116, 105, 111, 110, 32, 98, 97, 99, 107, 101, 110, 100, 32, 117, 110, 97, 118, 97, 105, 108, 97, 98, 108, 101];
    let w_post: &[u8] = &[112u8, 111, 115, 116, 95, 115, 117, 109, 109, 97, 114, 121];
    let w_local: &[u8] = &[108u8, 111, 99, 97, 108, 95, 115, 117, 109, 109, 97, 114, 121];
    let w_default: &[u8] = &[100u8, 101, 102, 97, 117, 108, 116];
    let w_bullet: &[u8] = &[98u8, 117, 108, 108, 101, 116];
    assert(k_status@ =~= seq![115u8, 116, 97, 116, 117, 115]);
    assert(k_reason@ =~= seq![114u8, 101, 97, 115, 111, 110]);
    assert(k_action@ =~= seq![97u8, 99, 116, 105, 111, 110]);
    assert(k_source@ =~= seq![115u8, 111, 117, 114, 99, 101, 95, 117, 114, 108]);
    assert(k_sink@ =~= seq![115u8, 105, 110, 107, 95, 117, 114, 108]);
    assert(k_items@ =~= seq![109u8, 97, 120, 95, 105, 116, 101, 109, 115]);
    assert(k_lang@ =~= seq![111u8, 117, 116, 112, 117, 116, 95, 108, 97, 110, 103, 117, 97, 103, 101]);
    assert(k_style@ =~= seq![115u8, 116, 121, 108, 101]);
    assert(w_error@ =~= seq![101u8, 114, 114, 111, 114]);
    assert(w_unsup@ =~= seq![117u8, 110, 115, 117, 112, 112, 111, 114, 116, 101, 100, 32, 103, 111, 97, 108]);
    assert(w_trans@ =~= seq![116u8, 114, 97, 110, 115, 108, 97, 116, 105, 111, 110, 32, 98, 97, 99, 107, 101, 110, 100, 32, 117, 110, 97, 118, 97, 105, 108, 97, 98, 108, 101]);
    assert(w_interp@ =~= seq![105u8, 110, 116, 101, 114, 112, 114, 101, 116, 97, 116, 105, 111, 110, 32, 98, 97, 99, 107, 101, 110, 100, 32, 117, 110, 97, 118, 97, 105, 108, 97, 98, 108, 101]);
    assert(w_post@ =~= seq![112u8, 111, 115, 116, 95, 115, 117, 109, 109, 97, 114, 121]);
    assert(w_local@ =~= seq![108u8, 111, 99, 97, 108, 95, 115, 117, 109, 109, 97, 114, 121]);
    assert(w_default@ =~= seq![100u8, 101, 102, 97, 117, 108, 116]);
    assert(w_bullet@ =~= seq![98u8, 117, 108, 108, 101, 116]);
    let status = match field(response, k_status, 16) {
        Some(v) => v,
        None => return Err(InterpretError::InvalidResponse),
    };
    if crate::bytes::starts_with(status.as_slice(), status.len(), w_error) {
        let reason = field_or_empty(response, k_reason, 128);
        let n = reason.len();
        let e = if n == 0 {
            InterpretError::Failed
        } else if crate::bytes::starts_with(reason.as_slice(), n, w_unsup) {
            InterpretError::UnsupportedGoal
        } else if crate::bytes::starts_with(reason.as_slice(), n, w_trans) || crate::bytes::starts_with(
            reason.as_slice(),
            n,
            w_interp,
        ) {
            InterpretError::BackendUnavailable
        } else {
            InterpretError::Failed
        };
        return Err(e);
    }
    let action = match field(response, k_action, 32) {
        Some(v) => v,
        None => return Err(InterpretError::MissingAction),
    };
    let source = match field(response, k_source, AGENT_URL_MAX) {
        Some(v) => v,
        None => return Err(InterpretError::MissingSource),
    };
    let sink = field_or_empty(response, k_sink, AGENT_URL_MAX);
    let mi = match crate::json::json_extract_u64(response, response.len(), k_items) {
        Some(v) => v,
        None => 3,
    };
    let items: usize = if mi == 0 {
        1
    } else if mi > 8 {
        8
    } else {
        mi as usize
    };
    let lang = field_or_empty(response, k_lang, OUTPUT_TAG_MAX);
    let style = field_or_empty(response, k_style, OUTPUT_TAG_MAX);
    let mut language: Vec<u8> = Vec::new();
    if lang.len() != 0 {
        language = normalize_output_language(lang.as_slice(), OUTPUT_TAG_MAX);
    } else {
        crate::bytes::append_all(&mut language, w_default);
    }
    let mut st: Vec<u8> = Vec::new();
    if style.len() != 0 {
        st = normalize_output_style(style.as_slice(), OUTPUT_TAG_MAX);
    } else {
        crate::bytes::append_all(&mut st, w_bullet);
    }
    if crate::bytes::starts_with(action.as_slice(), action.len(), w_post) {
        if sink.len() == 0 {
            return Err(InterpretError::MissingSink);
        }
        Ok(Interpretation { post: true, source_url: source, sink_url: sink, max_items: items, language, style: st })
    } else if crate::bytes::starts_with(action.as_slice(), action.len(), w_local) {
        Ok(Interpretation { post: false, source_url: source, sink_url: sink, max_items: items, language, style: st })
    } else {
        Err(InterpretError::UnsupportedAction)
    }
}

} // verus!

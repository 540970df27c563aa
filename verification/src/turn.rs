use vstd::prelude::*;
use crate::bytes::bounded_append;
use crate::bytes::contains_ci;
use crate::bytes::contains_exact;
use crate::bytes::matches_at;
use crate::bytes::min_int;
use crate::bytes::room;
use crate::bytes::skip_spaces;
use crate::http::sat_add;
use crate::http::sat_sub;
use crate::json::append_cp;
use crate::json::hex4_ok;
use crate::json::hex4_value;

verus! {

/// Tool calls allowed in one session turn.
pub const M4_LOOP_MAX_STEPS: u8 = 4;
/// Model requests retried after a retryable failure.
pub const M4_OPENAI_MAX_RETRIES: u8 = 4;
pub const M4_USER_TURN_COOLDOWN_MS: u64 = 3000;
pub const M4_USER_TURN_FAILURE_COOLDOWN_MS: u64 = 10000;
pub const M4_MODEL_INPUT_LIMIT: usize = 8192;
pub const M4_TOOL_RESULT_LIMIT: usize = 8192;
pub const M4_PROMPT_BUF_LIMIT: usize = 16384;
pub const M4_CURRENT_REQUEST_LIMIT: usize = 1024;
pub const M4_LATEST_TOOL_RESULT_LIMIT: usize = 2048;
pub const M4_STATE_SNAPSHOT_LIMIT: usize = 1536;
pub const M4_RECENT_CONVERSATION_LIMIT: usize = 3072;
pub const M4_FETCH_PREVIEW_LIMIT: usize = 900;

/// The first `n` bytes of `s`, or all of it when shorter.
pub open spec fn cap_to(s: Seq<u8>, n: int) -> Seq<u8> {
    s.take(min_int(s.len() as int, n))
}

// ---------------------------------------------------------------------------
// String values of possibly cut-off JSON
// ---------------------------------------------------------------------------

/// Where the value of `"key"` starts when `"key"`, optional white space, `:`, optional
/// white space and an opening quote begin at `i`: the offset just after that quote.
pub open spec fn partial_header_at(buf: Seq<u8>, key: Seq<u8>, i: int) -> Option<int> {
    let len = buf.len() as int;
    if 0 <= i && i + key.len() + 2 < len && buf[i] == 34 && matches_at(buf, i + 1, key) && buf[i
        + 1 + key.len()] == 34 {
        let c = skip_spaces(buf, i + key.len() + 2, len);
        if c < len && buf[c] == 58 {
            let q = skip_spaces(buf, c + 1, len);
            if q < len && buf[q] == 34 {
                Some(q + 1)
            } else {
                None
            }
        } else {
            None
        }
    } else {
        None
    }
}

/// The first value start (see `partial_header_at`) found scanning from `i`.
pub open spec fn find_partial_from(buf: Seq<u8>, key: Seq<u8>, i: int) -> Option<int>
    decreases buf.len() - i,
{
    if 0 <= i && i + key.len() + 2 < buf.len() {
        match partial_header_at(buf, key, i) {
            Some(o) => Some(o),
            None => find_partial_from(buf, key, i + 1),
        }
    } else {
        None
    }
}

/// The byte that `\e` stands for: `\b \f \n \r \t` are control bytes, any other escaped
/// byte stands for itself.
pub open spec fn partial_escape(e: u8) -> u8 {
    if e == 98 {
        8
    } else if e == 102 {
        12
    } else if e == 110 {
        10
    } else if e == 114 {
        13
    } else if e == 116 {
        9
    } else {
        e
    }
}

/// Decodes a string body from `off` into `out` (capacity `cap`), stopping at the closing
/// quote, at the end of the buffer, when `out` is full, or at an escape that is cut short
/// or malformed; what was decoded so far is kept.
pub open spec fn decode_partial(buf: Seq<u8>, off: int, out: Seq<u8>, cap: int) -> Seq<u8>
    decreases buf.len() - off,
{
    if off < 0 || off >= buf.len() || out.len() >= cap {
        out
    } else if buf[off] == 34 {
        out
    } else if buf[off] != 92 {
        decode_partial(buf, off + 1, out.push(buf[off]), cap)
    } else if off + 1 >= buf.len() {
        out
    } else if buf[off + 1] == 117 {
        if off + 6 <= buf.len() && hex4_ok(buf, off + 2) {
            decode_partial(buf, off + 6, append_cp(out, cap, hex4_value(buf, off + 2)), cap)
        } else {
            out
        }
    } else {
        decode_partial(buf, off + 2, out.push(partial_escape(buf[off + 1])), cap)
    }
}

/// The value of the first `"key"` whose string opens, decoded as far as it goes.
pub open spec fn partial_string(buf: Seq<u8>, key: Seq<u8>, cap: int) -> Seq<u8> {
    match find_partial_from(buf, key, 0) {
        None => Seq::empty(),
        Some(o) => decode_partial(buf, o, Seq::empty(), cap),
    }
}

fn partial_header(buf: &[u8], key: &[u8], i: usize) -> (r: Option<usize>)
    requires
        i < buf.len(),
        key.len() + 2 < buf.len() - i,
    ensures
        match r {
            Some(o) => partial_header_at(buf@, key@, i as int) == Some(o as int),
            None => partial_header_at(buf@, key@, i as int) is None,
        },
{
    if buf[i] != 34u8 {
        return None;
    }
    if !crate::bytes::starts_with_at(buf, buf.len(), i + 1, key) {
        return None;
    }
    if buf[i + 1 + key.len()] != 34u8 {
        return None;
    }
    let c = crate::json::skip_space_from(buf, buf.len(), i + key.len() + 2);
    if c >= buf.len() || buf[c] != 58u8 {
        return None;
    }
    let q = crate::json::skip_space_from(buf, buf.len(), c + 1);
    if q >= buf.len() || buf[q] != 34u8 {
        return None;
    }
    Some(q + 1)
}

fn decode_partial_value(buf: &[u8], start: usize, cap: usize) -> (out: Vec<u8>)
    requires
        start <= buf.len(),
    ensures
        out@ == decode_partial(buf@, start as int, Seq::empty(), cap as int),
{
    let mut out: Vec<u8> = Vec::new();
    let mut off = start;
    while off < buf.len() && out.len() < cap
        invariant
            off <= buf.len(),
            decode_partial(buf@, off as int, out@, cap as int) == decode_partial(
                buf@,
                start as int,
                Seq::empty(),
                cap as int,
            ),
        decreases buf.len() - off,
    {
        let b = buf[off];
        if b == 34u8 {
            return out;
        }
        if b != 92u8 {
            out.push(b);
            off += 1;
        } else {
            if off + 1 >= buf.len() {
                return out;
            }
            let e = buf[off + 1];
            if e == 117u8 {
                if buf.len() - off < 6 {
                    return out;
                }
                match crate::json::hex4(buf, off + 2) {
                    None => {
                        return out;
                    },
                    Some(cp) => {
                        crate::utf8::append_utf8_codepoint(&mut out, cap, cp);
                        off += 6;
                    },
                }
            } else {
                let v = if e == 98u8 {
                    8u8
                } else if e == 102u8 {
                    12u8
                } else if e == 110u8 {
                    10u8
                } else if e == 114u8 {
                    13u8
                } else if e == 116u8 {
                    9u8
                } else {
                    e
                };
                out.push(v);
                off += 2;
            }
        }
    }
    out
}

/// The value of `"key"` in a reply that may be cut off: decoded up to its closing quote,
/// the end of the reply, or `cap` bytes, whichever comes first; empty when no
/// `"key": "` occurs.
pub fn json_extract_string_partial_local(buf: &[u8], key: &[u8], cap: usize) -> (r: Vec<u8>)
    ensures
        r@ == partial_string(buf@, key@, cap as int),
{
    let mut i = 0usize;
    while i < buf.len() && key.len() < buf.len() - i && buf.len() - i - key.len() > 2
        invariant
            i <= buf.len(),
            find_partial_from(buf@, key@, i as int) == find_partial_from(buf@, key@, 0),
        decreases buf.len() - i,
    {
        match partial_header(buf, key, i) {
            Some(o) => {
                proof {
                    crate::bytes::lemma_skip_spaces_range(buf@, i + key.len() + 2, buf.len() as int);
                }
                return decode_partial_value(buf, o, cap);
            },
            None => {
                i += 1;
            },
        }
    }
    Vec::new()
}

// ---------------------------------------------------------------------------
// Retry and cool-down timing
// ---------------------------------------------------------------------------

/// Milliseconds to wait before retry number `attempt`.
pub open spec fn retry_backoff(attempt: u8) -> u64 {
    if attempt <= 1 {
        700
    } else if attempt == 2 {
        1600
    } else if attempt == 3 {
        3200
    } else {
        5000
    }
}

pub fn m4_retry_backoff_ms(attempt: u8) -> (r: u64)
    ensures
        r == retry_backoff(attempt),
{
    match attempt {
        0 | 1 => 700,
        2 => 1600,
        3 => 3200,
        _ => 5000,
    }
}

/// Deadlines (in milliseconds of the monotonic clock) before which no model request and
/// no new user turn may start; zero when there is none.
pub struct TurnCooldown {
    pub openai_until_ms: u64,
    pub user_turn_until_ms: u64,
}

pub open spec fn max_u64(a: u64, b: u64) -> u64 {
    if a < b {
        b
    } else {
        a
    }
}

impl TurnCooldown {
    pub fn new() -> (r: Self)
        ensures
            r.openai_until_ms == 0,
            r.user_turn_until_ms == 0,
    {
        TurnCooldown { openai_until_ms: 0, user_turn_until_ms: 0 }
    }

    /// Clears the model cool-down and returns how long is left of it at `now`.
    pub fn m4_apply_openai_cooldown(&mut self, now: u64) -> (wait: u64)
        ensures
            wait == sat_sub(old(self).openai_until_ms, now as int),
            final(self).openai_until_ms == 0,
            final(self).user_turn_until_ms == old(self).user_turn_until_ms,
    {
        let wait = self.openai_until_ms.saturating_sub(now);
        self.openai_until_ms = 0;
        wait
    }

    /// Before a model request: the cool-down left at `now` (then cleared) and the back-off
    /// for the `retries` failed attempts so far (none before the first retry).
    pub fn m4_prepare_openai_attempt(&mut self, retries: u8, now: u64) -> (r: (u64, u64))
        ensures
            r.0 == sat_sub(old(self).openai_until_ms, now as int),
            r.1 == (if retries == 0 {
                0
            } else {
                retry_backoff(retries)
            }),
            final(self).openai_until_ms == 0,
            final(self).user_turn_until_ms == old(self).user_turn_until_ms,
    {
        let backoff = if retries == 0 {
            0
        } else {
            m4_retry_backoff_ms(retries)
        };
        let wait = self.m4_apply_openai_cooldown(now);
        (wait, backoff)
    }

    /// After a turn ends: no new turn before `now + M4_USER_TURN_COOLDOWN_MS`.
    pub fn m4_schedule_user_turn_cooldown(&mut self, now: u64)
        ensures
            final(self).user_turn_until_ms == sat_add(now, M4_USER_TURN_COOLDOWN_MS as int),
            final(self).openai_until_ms == old(self).openai_until_ms,
    {
        self.user_turn_until_ms = now.saturating_add(M4_USER_TURN_COOLDOWN_MS);
    }

    /// After a failure: the turn cool-down runs at least until
    /// `now + M4_USER_TURN_FAILURE_COOLDOWN_MS`.
    pub fn m4_schedule_user_turn_failure_cooldown(&mut self, now: u64)
        ensures
            final(self).user_turn_until_ms == max_u64(
                old(self).user_turn_until_ms,
                sat_add(now, M4_USER_TURN_FAILURE_COOLDOWN_MS as int),
            ),
            final(self).openai_until_ms == old(self).openai_until_ms,
    {
        let until = now.saturating_add(M4_USER_TURN_FAILURE_COOLDOWN_MS);
        if until > self.user_turn_until_ms {
            self.user_turn_until_ms = until;
        }
    }

    /// Clears the turn cool-down and returns how long is left of it at `now`.
    pub fn m4_apply_user_turn_cooldown(&mut self, now: u64) -> (wait: u64)
        ensures
            wait == sat_sub(old(self).user_turn_until_ms, now as int),
            final(self).user_turn_until_ms == 0,
            final(self).openai_until_ms == old(self).openai_until_ms,
    {
        let wait = self.user_turn_until_ms.saturating_sub(now);
        self.user_turn_until_ms = 0;
        wait
    }

    /// After a retryable model failure that used up its retries: no model request for the
    /// longest back-off, and the failure cool-down for the next turn.
    pub fn m4_mark_retryable_openai_failure(&mut self, now: u64)
        ensures
            final(self).openai_until_ms == sat_add(now, retry_backoff((M4_OPENAI_MAX_RETRIES + 1) as u8) as int),
            final(self).user_turn_until_ms == max_u64(
                old(self).user_turn_until_ms,
                sat_add(now, M4_USER_TURN_FAILURE_COOLDOWN_MS as int),
            ),
    {
        let cooldown_ms = m4_retry_backoff_ms(M4_OPENAI_MAX_RETRIES.wrapping_add(1));
        self.openai_until_ms = now.saturating_add(cooldown_ms);
        self.m4_schedule_user_turn_failure_cooldown(now);
    }
}

// ---------------------------------------------------------------------------
// Which lines start a session turn
// ---------------------------------------------------------------------------

/// A non-empty line that is neither a `goal ` nor an `m3 ` command.
pub fn is_m4_candidate(line: &[u8], len: usize) -> (r: bool)
    requires
        len <= line.len(),
    ensures
        r == (len != 0 && !(5 <= len && matches_at(line@, 0, seq![103u8, 111, 97, 108, 32])) && !(3 <= len
            && matches_at(line@, 0, seq![109u8, 51, 32]))),
{
    let g: &[u8] = &[103u8, 111, 97, 108, 32];
    let m: &[u8] = &[109u8, 51, 32];
    assert(g@ =~= seq![103u8, 111, 97, 108, 32]);
    assert(m@ =~= seq![109u8, 51, 32]);
    len != 0 && !crate::bytes::starts_with(line, len, g) && !crate::bytes::starts_with(line, len, m)
}

/// Whether the request asks which tools the agent has.
pub open spec fn tool_inventory_request(goal: Seq<u8>) -> bool {
    let n = goal.len() as int;
    ||| contains_ci(goal, n, seq![119u8, 104, 97, 116, 32, 116, 111, 111, 108, 115])
    ||| contains_ci(goal, n, seq![119u8, 104, 105, 99, 104, 32, 116, 111, 111, 108, 115])
    ||| contains_ci(goal, n, seq![97u8, 118, 97, 105, 108, 97, 98, 108, 101, 32, 116, 111, 111, 108, 115])
    ||| contains_ci(goal, n, seq![116u8, 111, 111, 108, 32, 108, 105, 115, 116])
    ||| contains_ci(goal, n, seq![119u8, 104, 97, 116, 32, 99, 97, 110, 32, 121, 111, 117, 32, 100, 111])
    ||| contains_ci(goal, n, seq![121u8, 111, 117, 114, 32, 99, 97, 112, 97, 98, 105, 108, 105, 116, 105, 101, 115])
    ||| contains_ci(goal, n, seq![119u8, 104, 97, 116, 32, 97, 114, 101, 32, 121, 111, 117, 114, 32, 99, 97, 112, 97, 98, 105, 108, 105, 116, 105, 101, 115])
    ||| contains_exact(goal, n, seq![228u8, 187, 128, 228, 185, 136, 229, 183, 165, 229, 133, 183])
    ||| contains_exact(goal, n, seq![229u8, 147, 170, 228, 186, 155, 229, 183, 165, 229, 133, 183])
    ||| contains_exact(goal, n, seq![230u8, 156, 137, 228, 187, 128, 228, 185, 136, 229, 183, 165, 229, 133, 183])
    ||| contains_exact(goal, n, seq![228u8, 189, 160, 233, 131, 189, 230, 156, 137, 228, 187, 128, 228, 185, 136, 229, 183, 165, 229, 133, 183])
    ||| contains_exact(goal, n, seq![229u8, 183, 165, 229, 133, 183, 229, 143, 175, 232, 162, 171, 232, 176, 131, 231, 148, 168])
    ||| contains_exact(goal, n, seq![229u8, 143, 175, 228, 187, 165, 232, 176, 131, 231, 148, 168])
    ||| contains_exact(goal, n, seq![232u8, 131, 189, 232, 176, 131, 231, 148, 168, 229, 147, 170, 228, 186, 155, 229, 183, 165, 229, 133, 183])
    ||| contains_exact(goal, n, seq![233u8, 131, 189, 230, 156, 137, 228, 187, 128, 228, 185, 136, 232, 131, 189, 229, 138, 155])
}

pub fn looks_like_tool_inventory_request(goal: &[u8]) -> (r: bool)
    ensures
        r == tool_inventory_request(goal@),
{
    let n = goal.len();
    let a1: &[u8] = &[119u8, 104, 97, 116, 32, 116, 111, 111, 108, 115];
    let a2: &[u8] = &[119u8, 104, 105, 99, 104, 32, 116, 111, 111, 108, 115];
    let a3: &[u8] = &[97u8, 118, 97, 105, 108, 97, 98, 108, 101, 32, 116, 111, 111, 108, 115];
    let a4: &[u8] = &[116u8, 111, 111, 108, 32, 108, 105, 115, 116];
    let a5: &[u8] = &[119u8, 104, 97, 116, 32, 99, 97, 110, 32, 121, 111, 117, 32, 100, 111];
    let a6: &[u8] = &[121u8, 111, 117, 114, 32, 99, 97, 112, 97, 98, 105, 108, 105, 116, 105, 101, 115];
    let a7: &[u8] = &[119u8, 104, 97, 116, 32, 97, 114, 101, 32, 121, 111, 117, 114, 32, 99, 97, 112, 97, 98, 105, 108, 105, 116, 105, 101, 115];
    let z1: &[u8] = &[228u8, 187, 128, 228, 185, 136, 229, 183, 165, 229, 133, 183];
    let z2: &[u8] = &[229u8, 147, 170, 228, 186, 155, 229, 183, 165, 229, 133, 183];
    let z3: &[u8] = &[230u8, 156, 137, 228, 187, 128, 228, 185, 136, 229, 183, 165, 229, 133, 183];
    let z4: &[u8] = &[228u8, 189, 160, 233, 131, 189, 230, 156, 137, 228, 187, 128, 228, 185, 136, 229, 183, 165, 229, 133, 183];
    let z5: &[u8] = &[229u8, 183, 165, 229, 133, 183, 229, 143, 175, 232, 162, 171, 232, 176, 131, 231, 148, 168];
    let z6: &[u8] = &[229u8, 143, 175, 228, 187, 165, 232, 176, 131, 231, 148, 168];
    let z7: &[u8] = &[232u8, 131, 189, 232, 176, 131, 231, 148, 168, 229, 147, 170, 228, 186, 155, 229, 183, 165, 229, 133, 183];
    let z8: &[u8] = &[233u8, 131, 189, 230, 156, 137, 228, 187, 128, 228, 185, 136, 232, 131, 189, 229, 138, 155];
    assert(a1@ =~= seq![119u8, 104, 97, 116, 32, 116, 111, 111, 108, 115]);
    assert(a2@ =~= seq![119u8, 104, 105, 99, 104, 32, 116, 111, 111, 108, 115]);
    assert(a3@ =~= seq![97u8, 118, 97, 105, 108, 97, 98, 108, 101, 32, 116, 111, 111, 108, 115]);
    assert(a4@ =~= seq![116u8, 111, 111, 108, 32, 108, 105, 115, 116]);
    assert(a5@ =~= seq![119u8, 104, 97, 116, 32, 99, 97, 110, 32, 121, 111, 117, 32, 100, 111]);
    assert(a6@ =~= seq![121u8, 111, 117, 114, 32, 99, 97, 112, 97, 98, 105, 108, 105, 116, 105, 101, 115]);
    assert(a7@ =~= seq![119u8, 104, 97, 116, 32, 97, 114, 101, 32, 121, 111, 117, 114, 32, 99, 97, 112, 97, 98, 105, 108, 105, 116, 105, 101, 115]);
    assert(z1@ =~= seq![228u8, 187, 128, 228, 185, 136, 229, 183, 165, 229, 133, 183]);
    assert(z2@ =~= seq![229u8, 147, 170, 228, 186, 155, 229, 183, 165, 229, 133, 183]);
    assert(z3@ =~= seq![230u8, 156, 137, 228, 187, 128, 228, 185, 136, 229, 183, 165, 229, 133, 183]);
    assert(z4@ =~= seq![228u8, 189, 160, 233, 131, 189, 230, 156, 137, 228, 187, 128, 228, 185, 136, 229, 183, 165, 229, 133, 183]);
    assert(z5@ =~= seq![229u8, 183, 165, 229, 133, 183, 229, 143, 175, 232, 162, 171, 232, 176, 131, 231, 148, 168]);
    assert(z6@ =~= seq![229u8, 143, 175, 228, 187, 165, 232, 176, 131, 231, 148, 168]);
    assert(z7@ =~= seq![232u8, 131, 189, 232, 176, 131, 231, 148, 168, 229, 147, 170, 228, 186, 155, 229, 183, 165, 229, 133, 183]);
    assert(z8@ =~= seq![233u8, 131, 189, 230, 156, 137, 228, 187, 128, 228, 185, 136, 232, 131, 189, 229, 138, 155]);
    crate::bytes::contains_ascii_phrase(goal, n, a1) || crate::bytes::contains_ascii_phrase(goal, n, a2)
        || crate::bytes::contains_ascii_phrase(goal, n, a3) || crate::bytes::contains_ascii_phrase(
        goal,
        n,
        a4,
    ) || crate::bytes::contains_ascii_phrase(goal, n, a5) || crate::bytes::contains_ascii_phrase(
        goal,
        n,
        a6,
    ) || crate::bytes::contains_ascii_phrase(goal, n, a7) || crate::bytes::contains_bytes_phrase(
        goal,
        n,
        z1,
    ) || crate::bytes::contains_bytes_phrase(goal, n, z2) || crate::bytes::contains_bytes_phrase(
        goal,
        n,
        z3,
    ) || crate::bytes::contains_bytes_phrase(goal, n, z4) || crate::bytes::contains_bytes_phrase(
        goal,
        n,
        z5,
    ) || crate::bytes::contains_bytes_phrase(goal, n, z6) || crate::bytes::contains_bytes_phrase(
        goal,
        n,
        z7,
    ) || crate::bytes::contains_bytes_phrase(goal, n, z8)
}

pub open spec fn inventory_text_zh() -> Seq<u8> {
    seq![230u8, 136, 145, 229, 189, 147, 229, 137, 141, 229, 143, 175, 232, 176, 131, 231, 148, 168, 231, 154, 132, 229, 183, 165, 229, 133, 183, 230, 156, 137, 239, 188, 154, 102, 101, 116, 99, 104, 95, 117, 114, 108, 239, 188, 136, 230, 138, 147, 229, 143, 150, 228, 184, 128, 228, 184, 170, 32, 85, 82, 76, 239, 188, 137, 227, 128, 129, 112, 111, 115, 116, 95, 117, 114, 108, 239, 188, 136, 229, 144, 145, 229, 133, 129, 232, 174, 184, 231, 154, 132, 231, 171, 175, 231, 130, 185, 229, 143, 145, 233, 128, 129, 32, 74, 83, 79, 78, 32, 80, 79, 83, 84, 239, 188, 137, 227, 128, 129, 112, 111, 115, 116, 95, 116, 119, 101, 101, 116, 239, 188, 136, 229, 143, 145, 229, 184, 131, 228, 184, 128, 230, 157, 161, 230, 142, 168, 230, 150, 135, 239, 188, 137, 227, 128, 129, 115, 101, 97, 114, 99, 104, 95, 114, 101, 99, 101, 110, 116, 95, 112, 111, 115, 116, 115, 239, 188, 136, 230, 144, 156, 231, 180, 162, 232, 191, 145, 230, 156, 159, 230, 142, 168, 230, 150, 135, 239, 188, 137, 227, 128, 129, 103, 101, 116, 95, 117, 115, 101, 114, 95, 112, 111, 115, 116, 115, 239, 188, 136, 232, 175, 187, 229, 143, 150, 230, 159, 144, 228, 184, 170, 232, 180, 166, 229, 143, 183, 231, 154, 132, 232, 191, 145, 230, 156, 159, 230, 142, 168, 230, 150, 135, 239, 188, 137, 227, 128, 129, 114, 101, 97, 100, 95, 115, 101, 115, 115, 105, 111, 110, 95, 115, 116, 97, 116, 101, 239, 188, 136, 232, 175, 187, 229, 143, 150, 228, 188, 154, 232, 175, 157, 231, 138, 182, 230, 128, 129, 239, 188, 137, 227, 128, 129, 119, 114, 105, 116, 101, 95, 115, 101, 115, 115, 105, 111, 110, 95, 115, 116, 97, 116, 101, 239, 188, 136, 229, 134, 153, 229, 133, 165, 228, 188, 154, 232, 175, 157, 231, 138, 182, 230, 128, 129, 239, 188, 137, 227, 128, 130]
}

pub open spec fn inventory_text_en() -> Seq<u8> {
    seq![77u8, 121, 32, 99, 97, 108, 108, 97, 98, 108, 101, 32, 116, 111, 111, 108, 115, 32, 97, 114, 101, 58, 32, 102, 101, 116, 99, 104, 95, 117, 114, 108, 32, 40, 102, 101, 116, 99, 104, 32, 111, 110, 101, 32, 85, 82, 76, 41, 44, 32, 112, 111, 115, 116, 95, 117, 114, 108, 32, 40, 115, 101, 110, 100, 32, 111, 110, 101, 32, 97, 108, 108, 111, 119, 101, 100, 32, 74, 83, 79, 78, 32, 80, 79, 83, 84, 41, 44, 32, 112, 111, 115, 116, 95, 116, 119, 101, 101, 116, 32, 40, 112, 117, 98, 108, 105, 115, 104, 32, 111, 110, 101, 32, 116, 119, 101, 101, 116, 41, 44, 32, 115, 101, 97, 114, 99, 104, 95, 114, 101, 99, 101, 110, 116, 95, 112, 111, 115, 116, 115, 32, 40, 115, 101, 97, 114, 99, 104, 32, 114, 101, 99, 101, 110, 116, 32, 112, 111, 115, 116, 115, 41, 44, 32, 103, 101, 116, 95, 117, 115, 101, 114, 95, 112, 111, 115, 116, 115, 32, 40, 114, 101, 97, 100, 32, 111, 110, 101, 32, 97, 99, 99, 111, 117, 110, 116, 39, 115, 32, 114, 101, 99, 101, 110, 116, 32, 112, 111, 115, 116, 115, 41, 44, 32, 114, 101, 97, 100, 95, 115, 101, 115, 115, 105, 111, 110, 95, 115, 116, 97, 116, 101, 32, 40, 114, 101, 97, 100, 32, 115, 101, 115, 115, 105, 111, 110, 32, 115, 116, 97, 116, 101, 41, 44, 32, 97, 110, 100, 32, 119, 114, 105, 116, 101, 95, 115, 101, 115, 115, 105, 111, 110, 95, 115, 116, 97, 116, 101, 32, 40, 119, 114, 105, 116, 101, 32, 115, 101, 115, 115, 105, 111, 110, 32, 115, 116, 97, 116, 101, 41, 46]
}

/// The tool list, in Chinese when the request holds any non-ASCII byte.
pub open spec fn inventory_text(goal: Seq<u8>) -> Seq<u8> {
    if exists|k: int| 0 <= k < goal.len() && #[trigger] goal[k] >= 128 {
        inventory_text_zh()
    } else {
        inventory_text_en()
    }
}

/// The tool list for `goal`, cut to `cap` bytes.
pub fn build_tool_inventory_response(goal: &[u8], cap: usize) -> (r: Vec<u8>)
    ensures
        r@ == inventory_text(goal@).take(min_int(inventory_text(goal@).len() as int, cap as int)),
        cap > 0 ==> r.len() > 0,
{
    if crate::bytes::contains_non_ascii(goal) {
        let t: &[u8] = &[230u8, 136, 145, 229, 189, 147, 229, 137, 141, 229, 143, 175, 232, 176, 131, 231, 148, 168, 231, 154, 132, 229, 183, 165, 229, 133, 183, 230, 156, 137, 239, 188, 154, 102, 101, 116, 99, 104, 95, 117, 114, 108, 239, 188, 136, 230, 138, 147, 229, 143, 150, 228, 184, 128, 228, 184, 170, 32, 85, 82, 76, 239, 188, 137, 227, 128, 129, 112, 111, 115, 116, 95, 117, 114, 108, 239, 188, 136, 229, 144, 145, 229, 133, 129, 232, 174, 184, 231, 154, 132, 231, 171, 175, 231, 130, 185, 229, 143, 145, 233, 128, 129, 32, 74, 83, 79, 78, 32, 80, 79, 83, 84, 239, 188, 137, 227, 128, 129, 112, 111, 115, 116, 95, 116, 119, 101, 101, 116, 239, 188, 136, 229, 143, 145, 229, 184, 131, 228, 184, 128, 230, 157, 161, 230, 142, 168, 230, 150, 135, 239, 188, 137, 227, 128, 129, 115, 101, 97, 114, 99, 104, 95, 114, 101, 99, 101, 110, 116, 95, 112, 111, 115, 116, 115, 239, 188, 136, 230, 144, 156, 231, 180, 162, 232, 191, 145, 230, 156, 159, 230, 142, 168, 230, 150, 135, 239, 188, 137, 227, 128, 129, 103, 101, 116, 95, 117, 115, 101, 114, 95, 112, 111, 115, 116, 115, 239, 188, 136, 232, 175, 187, 229, 143, 150, 230, 159, 144, 228, 184, 170, 232, 180, 166, 229, 143, 183, 231, 154, 132, 232, 191, 145, 230, 156, 159, 230, 142, 168, 230, 150, 135, 239, 188, 137, 227, 128, 129, 114, 101, 97, 100, 95, 115, 101, 115, 115, 105, 111, 110, 95, 115, 116, 97, 116, 101, 239, 188, 136, 232, 175, 187, 229, 143, 150, 228, 188, 154, 232, 175, 157, 231, 138, 182, 230, 128, 129, 239, 188, 137, 227, 128, 129, 119, 114, 105, 116, 101, 95, 115, 101, 115, 115, 105, 111, 110, 95, 115, 116, 97, 116, 101, 239, 188, 136, 229, 134, 153, 229, 133, 165, 228, 188, 154, 232, 175, 157, 231, 138, 182, 230, 128, 129, 239, 188, 137, 227, 128, 130];
        assert(t@ =~= inventory_text_zh());
        crate::bytes::copy_bytes(cap, t)
    } else {
        let t: &[u8] = &[77u8, 121, 32, 99, 97, 108, 108, 97, 98, 108, 101, 32, 116, 111, 111, 108, 115, 32, 97, 114, 101, 58, 32, 102, 101, 116, 99, 104, 95, 117, 114, 108, 32, 40, 102, 101, 116, 99, 104, 32, 111, 110, 101, 32, 85, 82, 76, 41, 44, 32, 112, 111, 115, 116, 95, 117, 114, 108, 32, 40, 115, 101, 110, 100, 32, 111, 110, 101, 32, 97, 108, 108, 111, 119, 101, 100, 32, 74, 83, 79, 78, 32, 80, 79, 83, 84, 41, 44, 32, 112, 111, 115, 116, 95, 116, 119, 101, 101, 116, 32, 40, 112, 117, 98, 108, 105, 115, 104, 32, 111, 110, 101, 32, 116, 119, 101, 101, 116, 41, 44, 32, 115, 101, 97, 114, 99, 104, 95, 114, 101, 99, 101, 110, 116, 95, 112, 111, 115, 116, 115, 32, 40, 115, 101, 97, 114, 99, 104, 32, 114, 101, 99, 101, 110, 116, 32, 112, 111, 115, 116, 115, 41, 44, 32, 103, 101, 116, 95, 117, 115, 101, 114, 95, 112, 111, 115, 116, 115, 32, 40, 114, 101, 97, 100, 32, 111, 110, 101, 32, 97, 99, 99, 111, 117, 110, 116, 39, 115, 32, 114, 101, 99, 101, 110, 116, 32, 112, 111, 115, 116, 115, 41, 44, 32, 114, 101, 97, 100, 95, 115, 101, 115, 115, 105, 111, 110, 95, 115, 116, 97, 116, 101, 32, 40, 114, 101, 97, 100, 32, 115, 101, 115, 115, 105, 111, 110, 32, 115, 116, 97, 116, 101, 41, 44, 32, 97, 110, 100, 32, 119, 114, 105, 116, 101, 95, 115, 101, 115, 115, 105, 111, 110, 95, 115, 116, 97, 116, 101, 32, 40, 119, 114, 105, 116, 101, 32, 115, 101, 115, 115, 105, 111, 110, 32, 115, 116, 97, 116, 101, 41, 46];
        assert(t@ =~= inventory_text_en());
        crate::bytes::copy_bytes(cap, t)
    }
}

/// The answer given without asking the model: the tool list (at most 768 bytes) when the
/// request asks for it.
pub fn try_handle_local_meta_request(goal: &[u8]) -> (r: Option<Vec<u8>>)
    ensures
        r is Some <==> tool_inventory_request(goal@),
        r matches Some(v) ==> v@ == inventory_text(goal@).take(
            min_int(inventory_text(goal@).len() as int, 768),
        ),
{
    if !looks_like_tool_inventory_request(goal) {
        return None;
    }
    let response = build_tool_inventory_response(goal, 768);
    if response.len() == 0 {
        return None;
    }
    Some(response)
}

// ---------------------------------------------------------------------------
// Session commands
// ---------------------------------------------------------------------------

/// A `session ...` command typed at the prompt.
#[derive(Clone, Copy, PartialEq, Eq, Structural)]
pub enum SessionCommand {
    /// `session new`, `session reset` or `session clear`.
    Reset,
    /// `session status`.
    Status,
}

/// `pat` begins the first `len` bytes of `line` once leading white space is skipped.
pub open spec fn leads_with(line: Seq<u8>, len: int, pat: Seq<u8>) -> bool {
    let s = skip_spaces(line, 0, len);
    s + pat.len() <= len && matches_at(line, s, pat)
}

pub open spec fn session_command(line: Seq<u8>, len: int) -> Option<SessionCommand> {
    if leads_with(line, len, seq![115u8, 101, 115, 115, 105, 111, 110, 32, 110, 101, 119]) || leads_with(line, len, seq![115u8, 101, 115, 115, 105, 111, 110, 32, 114, 101, 115, 101, 116])
        || leads_with(line, len, seq![115u8, 101, 115, 115, 105, 111, 110, 32, 99, 108, 101, 97, 114]) {
        Some(SessionCommand::Reset)
    } else if leads_with(line, len, seq![115u8, 101, 115, 115, 105, 111, 110, 32, 115, 116, 97, 116, 117, 115]) {
        Some(SessionCommand::Status)
    } else {
        None
    }
}

/// Which session command, if any, the first `len` bytes of `line` hold.
pub fn handle_session_command(line: &[u8], len: usize) -> (r: Option<SessionCommand>)
    requires
        len <= line.len(),
    ensures
        r == session_command(line@, len as int),
{
    let a: &[u8] = &[115u8, 101, 115, 115, 105, 111, 110, 32, 110, 101, 119];
    let b: &[u8] = &[115u8, 101, 115, 115, 105, 111, 110, 32, 114, 101, 115, 101, 116];
    let c: &[u8] = &[115u8, 101, 115, 115, 105, 111, 110, 32, 99, 108, 101, 97, 114];
    let d: &[u8] = &[115u8, 101, 115, 115, 105, 111, 110, 32, 115, 116, 97, 116, 117, 115];
    assert(a@ =~= seq![115u8, 101, 115, 115, 105, 111, 110, 32, 110, 101, 119]);
    assert(b@ =~= seq![115u8, 101, 115, 115, 105, 111, 110, 32, 114, 101, 115, 101, 116]);
    assert(c@ =~= seq![115u8, 101, 115, 115, 105, 111, 110, 32, 99, 108, 101, 97, 114]);
    assert(d@ =~= seq![115u8, 101, 115, 115, 105, 111, 110, 32, 115, 116, 97, 116, 117, 115]);
    if crate::bytes::starts_with_ignore_leading_space(line, len, a)
        || crate::bytes::starts_with_ignore_leading_space(line, len, b)
        || crate::bytes::starts_with_ignore_leading_space(line, len, c) {
        return Some(SessionCommand::Reset);
    }
    if crate::bytes::starts_with_ignore_leading_space(line, len, d) {
        return Some(SessionCommand::Status);
    }
    None
}

// ---------------------------------------------------------------------------
// X API request paths
// ---------------------------------------------------------------------------

pub open spec fn search_path_prefix() -> Seq<u8> {
    seq![47u8, 50, 47, 116, 119, 101, 101, 116, 115, 47, 115, 101, 97, 114, 99, 104, 47, 114, 101, 99, 101, 110, 116, 63, 113, 117, 101, 114, 121, 61]
}

pub open spec fn search_path_suffix() -> Seq<u8> {
    seq![38u8, 109, 97, 120, 95, 114, 101, 115, 117, 108, 116, 115, 61, 49, 48, 38, 116, 119, 101, 101, 116, 46, 102, 105, 101, 108, 100, 115, 61, 99, 114, 101, 97, 116, 101, 100, 95, 97, 116, 44, 112, 117, 98, 108, 105, 99, 95, 109, 101, 116, 114, 105, 99, 115]
}

/// The recent-search path for `query`, percent-encoded, bounded by `cap`.
pub open spec fn search_path(query: Seq<u8>, cap: int) -> Seq<u8> {
    let a = bounded_append(Seq::empty(), cap, search_path_prefix());
    let b = a + crate::bytes::percent_encode_from(query, 0, room(a.len() as int, cap));
    bounded_append(b, cap, search_path_suffix())
}

pub fn build_search_path(query: &[u8], cap: usize) -> (r: Vec<u8>)
    ensures
        r@ == search_path(query@, cap as int),
{
    let p: &[u8] = &[47u8, 50, 47, 116, 119, 101, 101, 116, 115, 47, 115, 101, 97, 114, 99, 104, 47, 114, 101, 99, 101, 110, 116, 63, 113, 117, 101, 114, 121, 61];
    let s: &[u8] = &[38u8, 109, 97, 120, 95, 114, 101, 115, 117, 108, 116, 115, 61, 49, 48, 38, 116, 119, 101, 101, 116, 46, 102, 105, 101, 108, 100, 115, 61, 99, 114, 101, 97, 116, 101, 100, 95, 97, 116, 44, 112, 117, 98, 108, 105, 99, 95, 109, 101, 116, 114, 105, 99, 115];
    assert(p@ =~= search_path_prefix());
    assert(s@ =~= search_path_suffix());
    let mut out: Vec<u8> = Vec::new();
    crate::bytes::append_bytes(&mut out, cap, p);
    crate::bytes::append_urlencoded(&mut out, cap, query);
    crate::bytes::append_bytes(&mut out, cap, s);
    out
}

/// `from:<username> -is:retweet`, bounded by `cap`.
pub open spec fn user_posts_query(username: Seq<u8>, cap: int) -> Seq<u8> {
    bounded_append(
        bounded_append(bounded_append(Seq::empty(), cap, seq![102u8, 114, 111, 109, 58]), cap, username),
        cap,
        seq![32u8, 45, 105, 115, 58, 114, 101, 116, 119, 101, 101, 116],
    )
}

pub fn build_user_posts_query(username: &[u8], cap: usize) -> (r: Vec<u8>)
    ensures
        r@ == user_posts_query(username@, cap as int),
{
    let p: &[u8] = &[102u8, 114, 111, 109, 58];
    let s: &[u8] = &[32u8, 45, 105, 115, 58, 114, 101, 116, 119, 101, 101, 116];
    assert(p@ =~= seq![102u8, 114, 111, 109, 58]);
    assert(s@ =~= seq![32u8, 45, 105, 115, 58, 114, 101, 116, 119, 101, 101, 116]);
    let mut out: Vec<u8> = Vec::new();
    crate::bytes::append_bytes(&mut out, cap, p);
    crate::bytes::append_bytes(&mut out, cap, username);
    crate::bytes::append_bytes(&mut out, cap, s);
    out
}

// ---------------------------------------------------------------------------
// Fetched pages
// ---------------------------------------------------------------------------

pub open spec fn summary_request(goal: Seq<u8>) -> bool {
    let n = goal.len() as int;
    ||| contains_ci(goal, n, seq![115u8, 117, 109, 109, 97, 114, 105, 122, 101])
    ||| contains_ci(goal, n, seq![115u8, 117, 109, 109, 97, 114, 121])
    ||| contains_ci(goal, n, seq![98u8, 117, 108, 108, 101, 116])
    ||| contains_ci(goal, n, seq![116u8, 97, 107, 101, 97, 119, 97, 121])
    ||| contains_ci(goal, n, seq![107u8, 101, 121, 32, 112, 111, 105, 110, 116])
}

/// Whether the request asks for a summary of what is fetched.
pub fn goal_looks_like_summary_request(goal: &[u8]) -> (r: bool)
    ensures
        r == summary_request(goal@),
{
    let n = goal.len();
    let a: &[u8] = &[115u8, 117, 109, 109, 97, 114, 105, 122, 101];
    let b: &[u8] = &[115u8, 117, 109, 109, 97, 114, 121];
    let c: &[u8] = &[98u8, 117, 108, 108, 101, 116];
    let d: &[u8] = &[116u8, 97, 107, 101, 97, 119, 97, 121];
    let e: &[u8] = &[107u8, 101, 121, 32, 112, 111, 105, 110, 116];
    assert(a@ =~= seq![115u8, 117, 109, 109, 97, 114, 105, 122, 101]);
    assert(b@ =~= seq![115u8, 117, 109, 109, 97, 114, 121]);
    assert(c@ =~= seq![98u8, 117, 108, 108, 101, 116]);
    assert(d@ =~= seq![116u8, 97, 107, 101, 97, 119, 97, 121]);
    assert(e@ =~= seq![107u8, 101, 121, 32, 112, 111, 105, 110, 116]);
    crate::bytes::contains_ascii_phrase(goal, n, a) || crate::bytes::contains_ascii_phrase(goal, n, b)
        || crate::bytes::contains_ascii_phrase(goal, n, c) || crate::bytes::contains_ascii_phrase(
        goal,
        n,
        d,
    ) || crate::bytes::contains_ascii_phrase(goal, n, e)
}

/// A labelled preview of a fetched page: its first `M4_FETCH_PREVIEW_LIMIT` bytes, with a
/// marker when there was more, bounded by `cap`.
pub open spec fn fetch_preview(src: Seq<u8>, cap: int) -> Seq<u8> {
    let a = bounded_append(Seq::empty(), cap, seq![70u8, 101, 116, 99, 104, 101, 100, 32, 85, 82, 76, 32, 99, 111, 110, 116, 101, 110, 116, 32, 112, 114, 101, 118, 105, 101, 119, 58, 10]);
    let b = bounded_append(a, cap, src.take(min_int(src.len() as int, M4_FETCH_PREVIEW_LIMIT as int)));
    if src.len() > M4_FETCH_PREVIEW_LIMIT {
        bounded_append(b, cap, seq![10u8, 46, 46, 46, 40, 116, 114, 117, 110, 99, 97, 116, 101, 100, 41])
    } else {
        b
    }
}

pub fn compact_fetch_preview(src: &[u8], cap: usize) -> (r: Vec<u8>)
    ensures
        r@ == fetch_preview(src@, cap as int),
{
    let head: &[u8] = &[70u8, 101, 116, 99, 104, 101, 100, 32, 85, 82, 76, 32, 99, 111, 110, 116, 101, 110, 116, 32, 112, 114, 101, 118, 105, 101, 119, 58, 10];
    let tail: &[u8] = &[10u8, 46, 46, 46, 40, 116, 114, 117, 110, 99, 97, 116, 101, 100, 41];
    assert(head@ =~= seq![70u8, 101, 116, 99, 104, 101, 100, 32, 85, 82, 76, 32, 99, 111, 110, 116, 101, 110, 116, 32, 112, 114, 101, 118, 105, 101, 119, 58, 10]);
    assert(tail@ =~= seq![10u8, 46, 46, 46, 40, 116, 114, 117, 110, 99, 97, 116, 101, 100, 41]);
    let mut out: Vec<u8> = Vec::new();
    crate::bytes::append_bytes(&mut out, cap, head);
    let n = if src.len() > M4_FETCH_PREVIEW_LIMIT {
        M4_FETCH_PREVIEW_LIMIT
    } else {
        src.len()
    };
    let body = vstd::slice::slice_subrange(src, 0, n);
    assert(body@ =~= src@.take(min_int(src.len() as int, M4_FETCH_PREVIEW_LIMIT as int)));
    crate::bytes::append_bytes(&mut out, cap, body);
    if src.len() > n {
        crate::bytes::append_bytes(&mut out, cap, tail);
    }
    out
}

// ---------------------------------------------------------------------------
// The model prompt of a session turn
// ---------------------------------------------------------------------------

/// The longest prefix of `src` that ends on a character boundary and fits `cap` bytes.
pub open spec fn utf8_take(src: Seq<u8>, cap: int) -> Seq<u8> {
    src.take(crate::utf8::valid_prefix_end(src, 0, min_int(cap, src.len() as int)))
}

/// `title:` and a line break, added to the prompt `p`.
pub open spec fn prompt_header(p: Seq<u8>, title: Seq<u8>) -> Seq<u8> {
    bounded_append(bounded_append(p, M4_PROMPT_BUF_LIMIT as int, title), M4_PROMPT_BUF_LIMIT as int, seq![58u8, 10])
}

/// Room for a section of at most `limit` bytes after `p`.
pub open spec fn section_room(p: Seq<u8>, limit: int) -> int {
    min_int(p.len() + limit, M4_PROMPT_BUF_LIMIT as int) - p.len()
}

/// A section holding `src` cut at a character boundary to `limit` bytes, or `empty` when
/// nothing of it fits, then a blank line.
pub open spec fn prompt_bounded(p: Seq<u8>, src: Seq<u8>, limit: int, empty: Seq<u8>) -> Seq<u8> {
    let part = utf8_take(src, section_room(p, limit));
    let q = if part.len() == 0 {
        bounded_append(p, M4_PROMPT_BUF_LIMIT as int, empty)
    } else {
        p + part
    };
    bounded_append(q, M4_PROMPT_BUF_LIMIT as int, seq![10u8, 10])
}

/// The state section: the snapshot, or `(empty)`, then a blank line.
pub open spec fn prompt_state(p: Seq<u8>, snapshot: Seq<u8>) -> Seq<u8> {
    if snapshot.len() == 0 {
        bounded_append(p, M4_PROMPT_BUF_LIMIT as int, seq![40u8, 101, 109, 112, 116, 121, 41, 10, 10])
    } else {
        bounded_append(p + snapshot, M4_PROMPT_BUF_LIMIT as int, seq![10u8, 10])
    }
}

/// The conversation section: as much of `hist` as fits, ending with a line break, or
/// `(empty)`.
pub open spec fn prompt_history(p: Seq<u8>, hist: Seq<u8>) -> Seq<u8> {
    let part = hist.take(min_int(hist.len() as int, section_room(p, M4_RECENT_CONVERSATION_LIMIT as int)));
    if part.len() == 0 {
        bounded_append(p, M4_PROMPT_BUF_LIMIT as int, seq![40u8, 101, 109, 112, 116, 121, 41, 10])
    } else {
        let q = p + part;
        if q[q.len() - 1] != 10 {
            bounded_append(q, M4_PROMPT_BUF_LIMIT as int, seq![10u8])
        } else {
            q
        }
    }
}

/// The prompt of a session turn: the current request, the latest tool result, the session
/// state and the recent conversation (without the current request), each in its own
/// bounded section; the whole cut at a character boundary to `M4_MODEL_INPUT_LIMIT` bytes.
pub open spec fn m4_prompt(goal: Seq<u8>, last: Seq<u8>, slots: Seq<crate::session::StateSlot>, history: Seq<u8>) -> Seq<u8> {
    let a = prompt_bounded(prompt_header(Seq::empty(), seq![67u8, 117, 114, 114, 101, 110, 116, 32, 114, 101, 113, 117, 101, 115, 116]), goal, M4_CURRENT_REQUEST_LIMIT as int, seq![40u8, 101, 109, 112, 116, 121, 41]);
    let b = prompt_bounded(prompt_header(a, seq![76u8, 97, 116, 101, 115, 116, 32, 116, 111, 111, 108, 32, 114, 101, 115, 117, 108, 116]), last, M4_LATEST_TOOL_RESULT_LIMIT as int, seq![40u8, 110, 111, 110, 101, 41]);
    let c0 = prompt_header(b, seq![83u8, 101, 115, 115, 105, 111, 110, 32, 115, 116, 97, 116, 101]);
    let c = prompt_state(c0, crate::session::snapshot_from(slots, 0, Seq::empty(), section_room(c0, M4_STATE_SNAPSHOT_LIMIT as int)));
    let d0 = prompt_header(c, seq![82u8, 101, 99, 101, 110, 116, 32, 99, 111, 110, 118, 101, 114, 115, 97, 116, 105, 111, 110]);
    let d = prompt_history(d0, crate::session::history_suffix(history, goal, M4_RECENT_CONVERSATION_LIMIT as int));
    if d.len() > M4_MODEL_INPUT_LIMIT {
        d.take(crate::utf8::valid_prefix_end(d, 0, M4_MODEL_INPUT_LIMIT as int))
    } else {
        d
    }
}

fn append_prompt_section_header(prompt: &mut Vec<u8>, title: &[u8])
    requires
        old(prompt).len() <= M4_PROMPT_BUF_LIMIT,
    ensures
        final(prompt)@ == prompt_header(old(prompt)@, title@),
        final(prompt).len() <= M4_PROMPT_BUF_LIMIT,
{
    let colon: &[u8] = &[58u8, 10];
    assert(colon@ =~= seq![58u8, 10]);
    crate::bytes::append_bytes(prompt, M4_PROMPT_BUF_LIMIT, title);
    crate::bytes::append_bytes(prompt, M4_PROMPT_BUF_LIMIT, colon);
}

fn append_bounded_prompt_bytes(prompt: &mut Vec<u8>, src: &[u8], limit: usize, empty: &[u8])
    requires
        old(prompt).len() <= M4_PROMPT_BUF_LIMIT,
        limit <= M4_PROMPT_BUF_LIMIT,
    ensures
        final(prompt)@ == prompt_bounded(old(prompt)@, src@, limit as int, empty@),
        final(prompt).len() <= M4_PROMPT_BUF_LIMIT,
{
    let blank: &[u8] = &[10u8, 10];
    assert(blank@ =~= seq![10u8, 10]);
    let end = if prompt.len() + limit < M4_PROMPT_BUF_LIMIT {
        prompt.len() + limit
    } else {
        M4_PROMPT_BUF_LIMIT
    };
    let part = crate::utf8::copy_utf8_prefix(end - prompt.len(), src);
    proof {
        crate::utf8::lemma_valid_prefix_end_range(
            src@,
            0,
            min_int((end - prompt.len()) as int, src.len() as int),
        );
    }
    if part.len() == 0 {
        crate::bytes::append_bytes(prompt, M4_PROMPT_BUF_LIMIT, empty);
    } else {
        crate::bytes::append_all(prompt, part.as_slice());
    }
    crate::bytes::append_bytes(prompt, M4_PROMPT_BUF_LIMIT, blank);
}

/// The prompt text of `m4_prompt` for the current request `goal`.
pub fn build_m4_prompt(goal: &[u8], last_tool_result: &[u8], session: &crate::session::Session) -> (r: Vec<u8>)
    requires
        session.wf(),
    ensures
        r@ == m4_prompt(goal@, last_tool_result@, session.slots(), session.history()),
{
    let t1: &[u8] = &[67u8, 117, 114, 114, 101, 110, 116, 32, 114, 101, 113, 117, 101, 115, 116];
    let t2: &[u8] = &[76u8, 97, 116, 101, 115, 116, 32, 116, 111, 111, 108, 32, 114, 101, 115, 117, 108, 116];
    let t3: &[u8] = &[83u8, 101, 115, 115, 105, 111, 110, 32, 115, 116, 97, 116, 101];
    let t4: &[u8] = &[82u8, 101, 99, 101, 110, 116, 32, 99, 111, 110, 118, 101, 114, 115, 97, 116, 105, 111, 110];
    let e1: &[u8] = &[40u8, 101, 109, 112, 116, 121, 41];
    let e2: &[u8] = &[40u8, 110, 111, 110, 101, 41];
    let e3: &[u8] = &[40u8, 101, 109, 112, 116, 121, 41, 10, 10];
    let e4: &[u8] = &[40u8, 101, 109, 112, 116, 121, 41, 10];
    let blank: &[u8] = &[10u8, 10];
    let nl: &[u8] = &[10u8];
    assert(t1@ =~= seq![67u8, 117, 114, 114, 101, 110, 116, 32, 114, 101, 113, 117, 101, 115, 116]);
    assert(t2@ =~= seq![76u8, 97, 116, 101, 115, 116, 32, 116, 111, 111, 108, 32, 114, 101, 115, 117, 108, 116]);
    assert(t3@ =~= seq![83u8, 101, 115, 115, 105, 111, 110, 32, 115, 116, 97, 116, 101]);
    assert(t4@ =~= seq![82u8, 101, 99, 101, 110, 116, 32, 99, 111, 110, 118, 101, 114, 115, 97, 116, 105, 111, 110]);
    assert(e1@ =~= seq![40u8, 101, 109, 112, 116, 121, 41]);
    assert(e2@ =~= seq![40u8, 110, 111, 110, 101, 41]);
    assert(e3@ =~= seq![40u8, 101, 109, 112, 116, 121, 41, 10, 10]);
    assert(e4@ =~= seq![40u8, 101, 109, 112, 116, 121, 41, 10]);
    assert(blank@ =~= seq![10u8, 10]);
    assert(nl@ =~= seq![10u8]);
    let mut prompt: Vec<u8> = Vec::new();
    append_prompt_section_header(&mut prompt, t1);
    append_bounded_prompt_bytes(&mut prompt, goal, M4_CURRENT_REQUEST_LIMIT, e1);
    append_prompt_section_header(&mut prompt, t2);
    append_bounded_prompt_bytes(&mut prompt, last_tool_result, M4_LATEST_TOOL_RESULT_LIMIT, e2);
    append_prompt_section_header(&mut prompt, t3);
    let state_end = if prompt.len() + M4_STATE_SNAPSHOT_LIMIT < M4_PROMPT_BUF_LIMIT {
        prompt.len() + M4_STATE_SNAPSHOT_LIMIT
    } else {
        M4_PROMPT_BUF_LIMIT
    };
    let snapshot = session.state_snapshot(state_end - prompt.len());
    if snapshot.len() == 0 {
        crate::bytes::append_bytes(&mut prompt, M4_PROMPT_BUF_LIMIT, e3);
    } else {
        proof {
            crate::session::lemma_snapshot_len(session.slots(), 0, Seq::empty(), (state_end - prompt.len()) as int);
        }
        crate::bytes::append_all(&mut prompt, snapshot.as_slice());
        crate::bytes::append_bytes(&mut prompt, M4_PROMPT_BUF_LIMIT, blank);
    }
    append_prompt_section_header(&mut prompt, t4);
    let hist = session.history_suffix_excluding_current_user(goal, M4_RECENT_CONVERSATION_LIMIT);
    let history_end = if prompt.len() + M4_RECENT_CONVERSATION_LIMIT < M4_PROMPT_BUF_LIMIT {
        prompt.len() + M4_RECENT_CONVERSATION_LIMIT
    } else {
        M4_PROMPT_BUF_LIMIT
    };
    let part = crate::bytes::copy_bytes(history_end - prompt.len(), hist.as_slice());
    if part.len() == 0 {
        crate::bytes::append_bytes(&mut prompt, M4_PROMPT_BUF_LIMIT, e4);
    } else {
        crate::bytes::append_all(&mut prompt, part.as_slice());
        if prompt[prompt.len() - 1] != 10u8 {
            crate::bytes::append_bytes(&mut prompt, M4_PROMPT_BUF_LIMIT, nl);
        }
    }
    if prompt.len() > M4_MODEL_INPUT_LIMIT {
        let n = crate::utf8::utf8_safe_prefix_len(prompt.as_slice(), M4_MODEL_INPUT_LIMIT);
        prompt.truncate(n);
    }
    prompt
}

pub open spec fn m4_instructions() -> Seq<u8> {
    seq![89u8, 111, 117, 32, 97, 114, 101, 32, 116, 104, 101, 32, 77, 105, 110, 105, 65, 103, 101, 110, 116, 79, 83, 32, 77, 52, 32, 115, 101, 115, 115, 105, 111, 110, 32, 97, 103, 101, 110, 116, 46, 32, 65, 118, 97, 105, 108, 97, 98, 108, 101, 32, 116, 111, 111, 108, 115, 58, 32, 102, 101, 116, 99, 104, 95, 117, 114, 108, 40, 117, 114, 108, 41, 44, 32, 112, 111, 115, 116, 95, 117, 114, 108, 40, 117, 114, 108, 44, 106, 115, 111, 110, 41, 44, 32, 112, 111, 115, 116, 95, 116, 119, 101, 101, 116, 40, 116, 101, 120, 116, 41, 44, 32, 115, 101, 97, 114, 99, 104, 95, 114, 101, 99, 101, 110, 116, 95, 112, 111, 115, 116, 115, 40, 113, 117, 101, 114, 121, 41, 44, 32, 103, 101, 116, 95, 117, 115, 101, 114, 95, 112, 111, 115, 116, 115, 40, 117, 115, 101, 114, 110, 97, 109, 101, 41, 44, 32, 114, 101, 97, 100, 95, 115, 101, 115, 115, 105, 111, 110, 95, 115, 116, 97, 116, 101, 40, 107, 101, 121, 41, 44, 32, 119, 114, 105, 116, 101, 95, 115, 101, 115, 115, 105, 111, 110, 95, 115, 116, 97, 116, 101, 40, 107, 101, 121, 44, 118, 97, 108, 117, 101, 41, 46, 32, 89, 111, 117, 32, 109, 117, 115, 116, 32, 114, 101, 116, 117, 114, 110, 32, 111, 110, 108, 121, 32, 99, 111, 109, 112, 97, 99, 116, 32, 74, 83, 79, 78, 32, 119, 105, 116, 104, 32, 110, 111, 32, 109, 97, 114, 107, 100, 111, 119, 110, 46, 32, 73, 102, 32, 121, 111, 117, 32, 119, 97, 110, 116, 32, 116, 111, 32, 99, 97, 108, 108, 32, 111, 110, 101, 32, 116, 111, 111, 108, 44, 32, 114, 101, 116, 117, 114, 110, 32, 111, 110, 101, 32, 111, 102, 58, 32, 123, 34, 116, 121, 112, 101, 34, 58, 34, 116, 111, 111, 108, 34, 44, 34, 116, 111, 111, 108, 34, 58, 34, 102, 101, 116, 99, 104, 95, 117, 114, 108, 34, 44, 34, 117, 114, 108, 34, 58, 34, 46, 46, 46, 34, 125, 44, 32, 123, 34, 116, 121, 112, 101, 34, 58, 34, 116, 111, 111, 108, 34, 44, 34, 116, 111, 111, 108, 34, 58, 34, 112, 111, 115, 116, 95, 117, 114, 108, 34, 44, 34, 117, 114, 108, 34, 58, 34, 46, 46, 46, 34, 44, 34, 106, 115, 111, 110, 34, 58, 34, 123, 46, 46, 46, 125, 34, 125, 44, 32, 123, 34, 116, 121, 112, 101, 34, 58, 34, 116, 111, 111, 108, 34, 44, 34, 116, 111, 111, 108, 34, 58, 34, 112, 111, 115, 116, 95, 116, 119, 101, 101, 116, 34, 44, 34, 116, 101, 120, 116, 34, 58, 34, 46, 46, 46, 34, 125, 44, 32, 123, 34, 116, 121, 112, 101, 34, 58, 34, 116, 111, 111, 108, 34, 44, 34, 116, 111, 111, 108, 34, 58, 34, 115, 101, 97, 114, 99, 104, 95, 114, 101, 99, 101, 110, 116, 95, 112, 111, 115, 116, 115, 34, 44, 34, 113, 117, 101, 114, 121, 34, 58, 34, 46, 46, 46, 34, 125, 44, 32, 123, 34, 116, 121, 112, 101, 34, 58, 34, 116, 111, 111, 108, 34, 44, 34, 116, 111, 111, 108, 34, 58, 34, 103, 101, 116, 95, 117, 115, 101, 114, 95, 112, 111, 115, 116, 115, 34, 44, 34, 117, 115, 101, 114, 110, 97, 109, 101, 34, 58, 34, 46, 46, 46, 34, 125, 44, 32, 123, 34, 116, 121, 112, 101, 34, 58, 34, 116, 111, 111, 108, 34, 44, 34, 116, 111, 111, 108, 34, 58, 34, 114, 101, 97, 100, 95, 115, 101, 115, 115, 105, 111, 110, 95, 115, 116, 97, 116, 101, 34, 44, 34, 107, 101, 121, 34, 58, 34, 46, 46, 46, 34, 125, 44, 32, 123, 34, 116, 121, 112, 101, 34, 58, 34, 116, 111, 111, 108, 34, 44, 34, 116, 111, 111, 108, 34, 58, 34, 119, 114, 105, 116, 101, 95, 115, 101, 115, 115, 105, 111, 110, 95, 115, 116, 97, 116, 101, 34, 44, 34, 107, 101, 121, 34, 58, 34, 46, 46, 46, 34, 44, 34, 118, 97, 108, 117, 101, 34, 58, 34, 46, 46, 46, 34, 125, 46, 32, 73, 102, 32, 121, 111, 117, 32, 97, 114, 101, 32, 100, 111, 110, 101, 44, 32, 114, 101, 116, 117, 114, 110, 32, 123, 34, 116, 121, 112, 101, 34, 58, 34, 102, 105, 110, 97, 108, 34, 44, 34, 114, 101, 115, 112, 111, 110, 115, 101, 34, 58, 34, 46, 46, 46, 34, 125, 46, 32, 85, 115, 101, 32, 97, 116, 32, 109, 111, 115, 116, 32, 111, 110, 101, 32, 116, 111, 111, 108, 32, 99, 97, 108, 108, 32, 112, 101, 114, 32, 116, 117, 114, 110, 46, 32, 84, 104, 101, 32, 67, 117, 114, 114, 101, 110, 116, 32, 114, 101, 113, 117, 101, 115, 116, 32, 115, 101, 99, 116, 105, 111, 110, 32, 105, 115, 32, 97, 117, 116, 104, 111, 114, 105, 116, 97, 116, 105, 118, 101, 32, 97, 110, 100, 32, 97, 108, 119, 97, 121, 115, 32, 116, 97, 107, 101, 115, 32, 112, 114, 101, 99, 101, 100, 101, 110, 99, 101, 32, 111, 118, 101, 114, 32, 111, 108, 100, 101, 114, 32, 99, 111, 110, 118, 101, 114, 115, 97, 116, 105, 111, 110, 46, 32, 68, 111, 32, 110, 111, 116, 32, 99, 111, 110, 116, 105, 110, 117, 101, 32, 97, 32, 112, 114, 101, 118, 105, 111, 117, 115, 32, 99, 111, 109, 112, 108, 101, 116, 101, 100, 32, 111, 114, 32, 102, 97, 105, 108, 101, 100, 32, 116, 97, 115, 107, 32, 117, 110, 108, 101, 115, 115, 32, 116, 104, 101, 32, 99, 117, 114, 114, 101, 110, 116, 32, 114, 101, 113, 117, 101, 115, 116, 32, 101, 120, 112, 108, 105, 99, 105, 116, 108, 121, 32, 97, 115, 107, 115, 32, 102, 111, 114, 32, 102, 111, 108, 108, 111, 119, 45, 117, 112, 46, 32, 75, 101, 101, 112, 32, 102, 105, 110, 97, 108, 32, 114, 101, 115, 112, 111, 110, 115, 101, 115, 32, 99, 111, 110, 99, 105, 115, 101, 32, 97, 110, 100, 32, 100, 105, 114, 101, 99, 116, 108, 121, 32, 97, 110, 115, 119, 101, 114, 32, 116, 104, 101, 32, 117, 115, 101, 114, 39, 115, 32, 114, 101, 113, 117, 101, 115, 116, 59, 32, 100, 111, 32, 110, 111, 116, 32, 97, 112, 112, 101, 110, 100, 32, 103, 101, 110, 101, 114, 105, 99, 32, 102, 111, 108, 108, 111, 119, 45, 117, 112, 32, 111, 102, 102, 101, 114, 115, 32, 117, 110, 108, 101, 115, 115, 32, 116, 104, 101, 32, 117, 115, 101, 114, 32, 101, 120, 112, 108, 105, 99, 105, 116, 108, 121, 32, 97, 115, 107, 115, 32, 102, 111, 114, 32, 111, 112, 116, 105, 111, 110, 115, 46, 32, 65, 102, 116, 101, 114, 32, 102, 101, 116, 99, 104, 95, 117, 114, 108, 32, 114, 101, 116, 117, 114, 110, 115, 32, 99, 111, 110, 116, 101, 110, 116, 32, 102, 111, 114, 32, 97, 32, 115, 117, 109, 109, 97, 114, 121, 32, 114, 101, 113, 117, 101, 115, 116, 44, 32, 97, 110, 115, 119, 101, 114, 32, 119, 105, 116, 104, 32, 97, 32, 102, 105, 110, 97, 108, 32, 114, 101, 115, 112, 111, 110, 115, 101, 32, 105, 110, 115, 116, 101, 97, 100, 32, 111, 102, 32, 102, 101, 116, 99, 104, 105, 110, 103, 32, 116, 104, 101, 32, 115, 97, 109, 101, 32, 85, 82, 76, 32, 97, 103, 97, 105, 110, 32, 117, 110, 108, 101, 115, 115, 32, 116, 104, 101, 32, 117, 115, 101, 114, 32, 101, 120, 112, 108, 105, 99, 105, 116, 108, 121, 32, 97, 115, 107, 115, 32, 116, 111, 32, 114, 101, 102, 101, 116, 99, 104, 46, 32, 80, 114, 101, 102, 101, 114, 32, 117, 115, 105, 110, 103, 32, 116, 104, 101, 32, 76, 97, 116, 101, 115, 116, 32, 116, 111, 111, 108, 32, 114, 101, 115, 117, 108, 116, 32, 115, 101, 99, 116, 105, 111, 110, 32, 98, 101, 102, 111, 114, 101, 32, 114, 101, 102, 101, 116, 99, 104, 105, 110, 103, 46, 32, 70, 111, 114, 32, 102, 111, 108, 108, 111, 119, 45, 117, 112, 32, 113, 117, 101, 115, 116, 105, 111, 110, 115, 32, 97, 98, 111, 117, 116, 32, 112, 114, 105, 111, 114, 32, 112, 111, 115, 116, 115, 32, 111, 114, 32, 102, 101, 116, 99, 104, 101, 100, 32, 100, 97, 116, 97, 44, 32, 112, 114, 101, 102, 101, 114, 32, 114, 101, 97, 100, 95, 115, 101, 115, 115, 105, 111, 110, 95, 115, 116, 97, 116, 101, 46, 32, 70, 111, 114, 32, 113, 117, 101, 115, 116, 105, 111, 110, 115, 32, 97, 98, 111, 117, 116, 32, 119, 104, 97, 116, 32, 97, 32, 115, 112, 101, 99, 105, 102, 105, 99, 32, 112, 101, 114, 115, 111, 110, 32, 111, 114, 32, 97, 99, 99, 111, 117, 110, 116, 32, 112, 111, 115, 116, 101, 100, 32, 114, 101, 99, 101, 110, 116, 108, 121, 44, 32, 112, 114, 101, 102, 101, 114, 32, 103, 101, 116, 95, 117, 115, 101, 114, 95, 112, 111, 115, 116, 115, 40, 117, 115, 101, 114, 110, 97, 109, 101, 41, 46, 32, 85, 115, 101, 32, 115, 101, 97, 114, 99, 104, 95, 114, 101, 99, 101, 110, 116, 95, 112, 111, 115, 116, 115, 32, 102, 111, 114, 32, 116, 111, 112, 105, 99, 32, 115, 101, 97, 114, 99, 104, 101, 115, 44, 32, 110, 111, 116, 32, 97, 99, 99, 111, 117, 110, 116, 32, 116, 105, 109, 101, 108, 105, 110, 101, 115, 46, 32, 73, 102, 32, 116, 104, 101, 32, 117, 115, 101, 114, 32, 97, 115, 107, 115, 32, 102, 111, 114, 32, 116, 104, 101, 109, 101, 115, 44, 32, 111, 112, 105, 110, 105, 111, 110, 115, 44, 32, 111, 114, 32, 116, 97, 107, 101, 97, 119, 97, 121, 115, 32, 102, 114, 111, 109, 32, 112, 111, 115, 116, 115, 44, 32, 115, 117, 109, 109, 97, 114, 105, 122, 101, 32, 116, 104, 101, 32, 109, 97, 105, 110, 32, 116, 104, 101, 109, 101, 115, 32, 102, 114, 111, 109, 32, 116, 104, 101, 32, 116, 111, 111, 108, 32, 114, 101, 115, 117, 108, 116, 32, 105, 110, 115, 116, 101, 97, 100, 32, 111, 102, 32, 108, 105, 115, 116, 105, 110, 103, 32, 114, 97, 119, 32, 74, 83, 79, 78, 46, 32, 87, 104, 101, 110, 32, 97, 32, 115, 101, 97, 114, 99, 104, 32, 114, 101, 115, 117, 108, 116, 32, 119, 105, 108, 108, 32, 109, 97, 116, 116, 101, 114, 32, 108, 97, 116, 101, 114, 44, 32, 121, 111, 117, 32, 109, 97, 121, 32, 117, 115, 101, 32, 119, 114, 105, 116, 101, 95, 115, 101, 115, 115, 105, 111, 110, 95, 115, 116, 97, 116, 101, 46, 32, 85, 115, 101, 32, 112, 111, 115, 116, 95, 117, 114, 108, 32, 102, 111, 114, 32, 97, 108, 108, 111, 119, 101, 100, 32, 74, 83, 79, 78, 32, 80, 79, 83, 84, 32, 114, 101, 113, 117, 101, 115, 116, 115, 46, 32, 73, 102, 32, 116, 104, 101, 32, 117, 115, 101, 114, 32, 97, 115, 107, 115, 32, 115, 111, 109, 101, 116, 104, 105, 110, 103, 32, 111, 117, 116, 115, 105, 100, 101, 32, 116, 104, 101, 32, 97, 118, 97, 105, 108, 97, 98, 108, 101, 32, 116, 111, 111, 108, 115, 44, 32, 114, 101, 116, 117, 114, 110, 32, 97, 32, 98, 114, 105, 101, 102, 32, 102, 105, 110, 97, 108, 32, 114, 101, 102, 117, 115, 97, 108, 46]
}

/// The Responses API request of a session turn, bounded by `cap`.
pub open spec fn m4_request_body(model: Seq<u8>, prompt: Seq<u8>, cap: int) -> Seq<u8> {
    let a = crate::model::esc(bounded_append(Seq::empty(), cap, seq![123u8, 34, 109, 111, 100, 101, 108, 34, 58, 34]), cap, model);
    let b = crate::model::esc(bounded_append(a, cap, seq![34u8, 44, 34, 105, 110, 115, 116, 114, 117, 99, 116, 105, 111, 110, 115, 34, 58, 34]), cap, m4_instructions());
    let c = crate::model::esc(bounded_append(b, cap, seq![34u8, 44, 34, 105, 110, 112, 117, 116, 34, 58, 34]), cap, prompt);
    bounded_append(c, cap, seq![34u8, 44, 34, 114, 101, 97, 115, 111, 110, 105, 110, 103, 34, 58, 123, 34, 101, 102, 102, 111, 114, 116, 34, 58, 34, 109, 105, 110, 105, 109, 97, 108, 34, 125, 44, 34, 109, 97, 120, 95, 111, 117, 116, 112, 117, 116, 95, 116, 111, 107, 101, 110, 115, 34, 58, 50, 54, 48, 125])
}

pub fn build_m4_openai_request_body(
    goal: &[u8],
    last_tool_result: &[u8],
    session: &crate::session::Session,
    cap: usize,
) -> (r: Vec<u8>)
    requires
        session.wf(),
    ensures
        r@ == m4_request_body(
            crate::openai::spec_model_name(),
            m4_prompt(goal@, last_tool_result@, session.slots(), session.history()),
            cap as int,
        ),
{
    let prompt = build_m4_prompt(goal, last_tool_result, session);
    let p1: &[u8] = &[123u8, 34, 109, 111, 100, 101, 108, 34, 58, 34];
    let p2: &[u8] = &[34u8, 44, 34, 105, 110, 115, 116, 114, 117, 99, 116, 105, 111, 110, 115, 34, 58, 34];
    let p3: &[u8] = &[34u8, 44, 34, 105, 110, 112, 117, 116, 34, 58, 34];
    let p4: &[u8] = &[34u8, 44, 34, 114, 101, 97, 115, 111, 110, 105, 110, 103, 34, 58, 123, 34, 101, 102, 102, 111, 114, 116, 34, 58, 34, 109, 105, 110, 105, 109, 97, 108, 34, 125, 44, 34, 109, 97, 120, 95, 111, 117, 116, 112, 117, 116, 95, 116, 111, 107, 101, 110, 115, 34, 58, 50, 54, 48, 125];
    let ins: &[u8] = &[89u8, 111, 117, 32, 97, 114, 101, 32, 116, 104, 101, 32, 77, 105, 110, 105, 65, 103, 101, 110, 116, 79, 83, 32, 77, 52, 32, 115, 101, 115, 115, 105, 111, 110, 32, 97, 103, 101, 110, 116, 46, 32, 65, 118, 97, 105, 108, 97, 98, 108, 101, 32, 116, 111, 111, 108, 115, 58, 32, 102, 101, 116, 99, 104, 95, 117, 114, 108, 40, 117, 114, 108, 41, 44, 32, 112, 111, 115, 116, 95, 117, 114, 108, 40, 117, 114, 108, 44, 106, 115, 111, 110, 41, 44, 32, 112, 111, 115, 116, 95, 116, 119, 101, 101, 116, 40, 116, 101, 120, 116, 41, 44, 32, 115, 101, 97, 114, 99, 104, 95, 114, 101, 99, 101, 110, 116, 95, 112, 111, 115, 116, 115, 40, 113, 117, 101, 114, 121, 41, 44, 32, 103, 101, 116, 95, 117, 115, 101, 114, 95, 112, 111, 115, 116, 115, 40, 117, 115, 101, 114, 110, 97, 109, 101, 41, 44, 32, 114, 101, 97, 100, 95, 115, 101, 115, 115, 105, 111, 110, 95, 115, 116, 97, 116, 101, 40, 107, 101, 121, 41, 44, 32, 119, 114, 105, 116, 101, 95, 115, 101, 115, 115, 105, 111, 110, 95, 115, 116, 97, 116, 101, 40, 107, 101, 121, 44, 118, 97, 108, 117, 101, 41, 46, 32, 89, 111, 117, 32, 109, 117, 115, 116, 32, 114, 101, 116, 117, 114, 110, 32, 111, 110, 108, 121, 32, 99, 111, 109, 112, 97, 99, 116, 32, 74, 83, 79, 78, 32, 119, 105, 116, 104, 32, 110, 111, 32, 109, 97, 114, 107, 100, 111, 119, 110, 46, 32, 73, 102, 32, 121, 111, 117, 32, 119, 97, 110, 116, 32, 116, 111, 32, 99, 97, 108, 108, 32, 111, 110, 101, 32, 116, 111, 111, 108, 44, 32, 114, 101, 116, 117, 114, 110, 32, 111, 110, 101, 32, 111, 102, 58, 32, 123, 34, 116, 121, 112, 101, 34, 58, 34, 116, 111, 111, 108, 34, 44, 34, 116, 111, 111, 108, 34, 58, 34, 102, 101, 116, 99, 104, 95, 117, 114, 108, 34, 44, 34, 117, 114, 108, 34, 58, 34, 46, 46, 46, 34, 125, 44, 32, 123, 34, 116, 121, 112, 101, 34, 58, 34, 116, 111, 111, 108, 34, 44, 34, 116, 111, 111, 108, 34, 58, 34, 112, 111, 115, 116, 95, 117, 114, 108, 34, 44, 34, 117, 114, 108, 34, 58, 34, 46, 46, 46, 34, 44, 34, 106, 115, 111, 110, 34, 58, 34, 123, 46, 46, 46, 125, 34, 125, 44, 32, 123, 34, 116, 121, 112, 101, 34, 58, 34, 116, 111, 111, 108, 34, 44, 34, 116, 111, 111, 108, 34, 58, 34, 112, 111, 115, 116, 95, 116, 119, 101, 101, 116, 34, 44, 34, 116, 101, 120, 116, 34, 58, 34, 46, 46, 46, 34, 125, 44, 32, 123, 34, 116, 121, 112, 101, 34, 58, 34, 116, 111, 111, 108, 34, 44, 34, 116, 111, 111, 108, 34, 58, 34, 115, 101, 97, 114, 99, 104, 95, 114, 101, 99, 101, 110, 116, 95, 112, 111, 115, 116, 115, 34, 44, 34, 113, 117, 101, 114, 121, 34, 58, 34, 46, 46, 46, 34, 125, 44, 32, 123, 34, 116, 121, 112, 101, 34, 58, 34, 116, 111, 111, 108, 34, 44, 34, 116, 111, 111, 108, 34, 58, 34, 103, 101, 116, 95, 117, 115, 101, 114, 95, 112, 111, 115, 116, 115, 34, 44, 34, 117, 115, 101, 114, 110, 97, 109, 101, 34, 58, 34, 46, 46, 46, 34, 125, 44, 32, 123, 34, 116, 121, 112, 101, 34, 58, 34, 116, 111, 111, 108, 34, 44, 34, 116, 111, 111, 108, 34, 58, 34, 114, 101, 97, 100, 95, 115, 101, 115, 115, 105, 111, 110, 95, 115, 116, 97, 116, 101, 34, 44, 34, 107, 101, 121, 34, 58, 34, 46, 46, 46, 34, 125, 44, 32, 123, 34, 116, 121, 112, 101, 34, 58, 34, 116, 111, 111, 108, 34, 44, 34, 116, 111, 111, 108, 34, 58, 34, 119, 114, 105, 116, 101, 95, 115, 101, 115, 115, 105, 111, 110, 95, 115, 116, 97, 116, 101, 34, 44, 34, 107, 101, 121, 34, 58, 34, 46, 46, 46, 34, 44, 34, 118, 97, 108, 117, 101, 34, 58, 34, 46, 46, 46, 34, 125, 46, 32, 73, 102, 32, 121, 111, 117, 32, 97, 114, 101, 32, 100, 111, 110, 101, 44, 32, 114, 101, 116, 117, 114, 110, 32, 123, 34, 116, 121, 112, 101, 34, 58, 34, 102, 105, 110, 97, 108, 34, 44, 34, 114, 101, 115, 112, 111, 110, 115, 101, 34, 58, 34, 46, 46, 46, 34, 125, 46, 32, 85, 115, 101, 32, 97, 116, 32, 109, 111, 115, 116, 32, 111, 110, 101, 32, 116, 111, 111, 108, 32, 99, 97, 108, 108, 32, 112, 101, 114, 32, 116, 117, 114, 110, 46, 32, 84, 104, 101, 32, 67, 117, 114, 114, 101, 110, 116, 32, 114, 101, 113, 117, 101, 115, 116, 32, 115, 101, 99, 116, 105, 111, 110, 32, 105, 115, 32, 97, 117, 116, 104, 111, 114, 105, 116, 97, 116, 105, 118, 101, 32, 97, 110, 100, 32, 97, 108, 119, 97, 121, 115, 32, 116, 97, 107, 101, 115, 32, 112, 114, 101, 99, 101, 100, 101, 110, 99, 101, 32, 111, 118, 101, 114, 32, 111, 108, 100, 101, 114, 32, 99, 111, 110, 118, 101, 114, 115, 97, 116, 105, 111, 110, 46, 32, 68, 111, 32, 110, 111, 116, 32, 99, 111, 110, 116, 105, 110, 117, 101, 32, 97, 32, 112, 114, 101, 118, 105, 111, 117, 115, 32, 99, 111, 109, 112, 108, 101, 116, 101, 100, 32, 111, 114, 32, 102, 97, 105, 108, 101, 100, 32, 116, 97, 115, 107, 32, 117, 110, 108, 101, 115, 115, 32, 116, 104, 101, 32, 99, 117, 114, 114, 101, 110, 116, 32, 114, 101, 113, 117, 101, 115, 116, 32, 101, 120, 112, 108, 105, 99, 105, 116, 108, 121, 32, 97, 115, 107, 115, 32, 102, 111, 114, 32, 102, 111, 108, 108, 111, 119, 45, 117, 112, 46, 32, 75, 101, 101, 112, 32, 102, 105, 110, 97, 108, 32, 114, 101, 115, 112, 111, 110, 115, 101, 115, 32, 99, 111, 110, 99, 105, 115, 101, 32, 97, 110, 100, 32, 100, 105, 114, 101, 99, 116, 108, 121, 32, 97, 110, 115, 119, 101, 114, 32, 116, 104, 101, 32, 117, 115, 101, 114, 39, 115, 32, 114, 101, 113, 117, 101, 115, 116, 59, 32, 100, 111, 32, 110, 111, 116, 32, 97, 112, 112, 101, 110, 100, 32, 103, 101, 110, 101, 114, 105, 99, 32, 102, 111, 108, 108, 111, 119, 45, 117, 112, 32, 111, 102, 102, 101, 114, 115, 32, 117, 110, 108, 101, 115, 115, 32, 116, 104, 101, 32, 117, 115, 101, 114, 32, 101, 120, 112, 108, 105, 99, 105, 116, 108, 121, 32, 97, 115, 107, 115, 32, 102, 111, 114, 32, 111, 112, 116, 105, 111, 110, 115, 46, 32, 65, 102, 116, 101, 114, 32, 102, 101, 116, 99, 104, 95, 117, 114, 108, 32, 114, 101, 116, 117, 114, 110, 115, 32, 99, 111, 110, 116, 101, 110, 116, 32, 102, 111, 114, 32, 97, 32, 115, 117, 109, 109, 97, 114, 121, 32, 114, 101, 113, 117, 101, 115, 116, 44, 32, 97, 110, 115, 119, 101, 114, 32, 119, 105, 116, 104, 32, 97, 32, 102, 105, 110, 97, 108, 32, 114, 101, 115, 112, 111, 110, 115, 101, 32, 105, 110, 115, 116, 101, 97, 100, 32, 111, 102, 32, 102, 101, 116, 99, 104, 105, 110, 103, 32, 116, 104, 101, 32, 115, 97, 109, 101, 32, 85, 82, 76, 32, 97, 103, 97, 105, 110, 32, 117, 110, 108, 101, 115, 115, 32, 116, 104, 101, 32, 117, 115, 101, 114, 32, 101, 120, 112, 108, 105, 99, 105, 116, 108, 121, 32, 97, 115, 107, 115, 32, 116, 111, 32, 114, 101, 102, 101, 116, 99, 104, 46, 32, 80, 114, 101, 102, 101, 114, 32, 117, 115, 105, 110, 103, 32, 116, 104, 101, 32, 76, 97, 116, 101, 115, 116, 32, 116, 111, 111, 108, 32, 114, 101, 115, 117, 108, 116, 32, 115, 101, 99, 116, 105, 111, 110, 32, 98, 101, 102, 111, 114, 101, 32, 114, 101, 102, 101, 116, 99, 104, 105, 110, 103, 46, 32, 70, 111, 114, 32, 102, 111, 108, 108, 111, 119, 45, 117, 112, 32, 113, 117, 101, 115, 116, 105, 111, 110, 115, 32, 97, 98, 111, 117, 116, 32, 112, 114, 105, 111, 114, 32, 112, 111, 115, 116, 115, 32, 111, 114, 32, 102, 101, 116, 99, 104, 101, 100, 32, 100, 97, 116, 97, 44, 32, 112, 114, 101, 102, 101, 114, 32, 114, 101, 97, 100, 95, 115, 101, 115, 115, 105, 111, 110, 95, 115, 116, 97, 116, 101, 46, 32, 70, 111, 114, 32, 113, 117, 101, 115, 116, 105, 111, 110, 115, 32, 97, 98, 111, 117, 116, 32, 119, 104, 97, 116, 32, 97, 32, 115, 112, 101, 99, 105, 102, 105, 99, 32, 112, 101, 114, 115, 111, 110, 32, 111, 114, 32, 97, 99, 99, 111, 117, 110, 116, 32, 112, 111, 115, 116, 101, 100, 32, 114, 101, 99, 101, 110, 116, 108, 121, 44, 32, 112, 114, 101, 102, 101, 114, 32, 103, 101, 116, 95, 117, 115, 101, 114, 95, 112, 111, 115, 116, 115, 40, 117, 115, 101, 114, 110, 97, 109, 101, 41, 46, 32, 85, 115, 101, 32, 115, 101, 97, 114, 99, 104, 95, 114, 101, 99, 101, 110, 116, 95, 112, 111, 115, 116, 115, 32, 102, 111, 114, 32, 116, 111, 112, 105, 99, 32, 115, 101, 97, 114, 99, 104, 101, 115, 44, 32, 110, 111, 116, 32, 97, 99, 99, 111, 117, 110, 116, 32, 116, 105, 109, 101, 108, 105, 110, 101, 115, 46, 32, 73, 102, 32, 116, 104, 101, 32, 117, 115, 101, 114, 32, 97, 115, 107, 115, 32, 102, 111, 114, 32, 116, 104, 101, 109, 101, 115, 44, 32, 111, 112, 105, 110, 105, 111, 110, 115, 44, 32, 111, 114, 32, 116, 97, 107, 101, 97, 119, 97, 121, 115, 32, 102, 114, 111, 109, 32, 112, 111, 115, 116, 115, 44, 32, 115, 117, 109, 109, 97, 114, 105, 122, 101, 32, 116, 104, 101, 32, 109, 97, 105, 110, 32, 116, 104, 101, 109, 101, 115, 32, 102, 114, 111, 109, 32, 116, 104, 101, 32, 116, 111, 111, 108, 32, 114, 101, 115, 117, 108, 116, 32, 105, 110, 115, 116, 101, 97, 100, 32, 111, 102, 32, 108, 105, 115, 116, 105, 110, 103, 32, 114, 97, 119, 32, 74, 83, 79, 78, 46, 32, 87, 104, 101, 110, 32, 97, 32, 115, 101, 97, 114, 99, 104, 32, 114, 101, 115, 117, 108, 116, 32, 119, 105, 108, 108, 32, 109, 97, 116, 116, 101, 114, 32, 108, 97, 116, 101, 114, 44, 32, 121, 111, 117, 32, 109, 97, 121, 32, 117, 115, 101, 32, 119, 114, 105, 116, 101, 95, 115, 101, 115, 115, 105, 111, 110, 95, 115, 116, 97, 116, 101, 46, 32, 85, 115, 101, 32, 112, 111, 115, 116, 95, 117, 114, 108, 32, 102, 111, 114, 32, 97, 108, 108, 111, 119, 101, 100, 32, 74, 83, 79, 78, 32, 80, 79, 83, 84, 32, 114, 101, 113, 117, 101, 115, 116, 115, 46, 32, 73, 102, 32, 116, 104, 101, 32, 117, 115, 101, 114, 32, 97, 115, 107, 115, 32, 115, 111, 109, 101, 116, 104, 105, 110, 103, 32, 111, 117, 116, 115, 105, 100, 101, 32, 116, 104, 101, 32, 97, 118, 97, 105, 108, 97, 98, 108, 101, 32, 116, 111, 111, 108, 115, 44, 32, 114, 101, 116, 117, 114, 110, 32, 97, 32, 98, 114, 105, 101, 102, 32, 102, 105, 110, 97, 108, 32, 114, 101, 102, 117, 115, 97, 108, 46];
    assert(p1@ =~= seq![123u8, 34, 109, 111, 100, 101, 108, 34, 58, 34]);
    assert(p2@ =~= seq![34u8, 44, 34, 105, 110, 115, 116, 114, 117, 99, 116, 105, 111, 110, 115, 34, 58, 34]);
    assert(p3@ =~= seq![34u8, 44, 34, 105, 110, 112, 117, 116, 34, 58, 34]);
    assert(p4@ =~= seq![34u8, 44, 34, 114, 101, 97, 115, 111, 110, 105, 110, 103, 34, 58, 123, 34, 101, 102, 102, 111, 114, 116, 34, 58, 34, 109, 105, 110, 105, 109, 97, 108, 34, 125, 44, 34, 109, 97, 120, 95, 111, 117, 116, 112, 117, 116, 95, 116, 111, 107, 101, 110, 115, 34, 58, 50, 54, 48, 125]);
    assert(ins@ =~= m4_instructions());
    let mut out: Vec<u8> = Vec::new();
    crate::bytes::append_bytes(&mut out, cap, p1);
    crate::json::json_escape_append(&mut out, cap, crate::openai::model_name());
    crate::bytes::append_bytes(&mut out, cap, p2);
    crate::json::json_escape_append(&mut out, cap, ins);
    crate::bytes::append_bytes(&mut out, cap, p3);
    crate::json::json_escape_append(&mut out, cap, prompt.as_slice());
    crate::bytes::append_bytes(&mut out, cap, p4);
    out
}

// ---------------------------------------------------------------------------
// Reading the model's reply
// ---------------------------------------------------------------------------

pub const M4_TOOL_NAME_MAX: usize = 32;
pub const M4_TOOL_ARG1_MAX: usize = 512;
pub const M4_TOOL_ARG2_MAX: usize = 768;
pub const M4_KIND_MAX: usize = 16;

/// What the model asked for.
pub enum M4Reply {
    /// A final answer; `refused` when it starts with `unsupported goal`.
    Final { text: Vec<u8>, refused: bool },
    /// One tool call with up to two arguments.
    Tool { name: Vec<u8>, arg1: Vec<u8>, arg2: Vec<u8> },
}

/// Why a model reply could not be used.
#[derive(Clone, Copy, PartialEq, Eq, Structural)]
pub enum M4ReplyError {
    EmptyModelResponse,
    UnsupportedModelResponse,
    MissingTool,
    MissingFetchUrl,
    MissingPostUrl,
    MissingPostJson,
    MissingTweetText,
    MissingSearchQuery,
    MissingUsername,
    MissingSessionKey,
    UnsupportedTool,
    MissingFinalResponse,
}

pub open spec fn reply_error_reason(e: M4ReplyError) -> Seq<u8> {
    match e {
        M4ReplyError::EmptyModelResponse => seq![101u8, 109, 112, 116, 121, 32, 109, 111, 100, 101, 108, 32, 114, 101, 115, 112, 111, 110, 115, 101],
        M4ReplyError::UnsupportedModelResponse => seq![117u8, 110, 115, 117, 112, 112, 111, 114, 116, 101, 100, 32, 109, 111, 100, 101, 108, 32, 114, 101, 115, 112, 111, 110, 115, 101],
        M4ReplyError::MissingTool => seq![109u8, 105, 115, 115, 105, 110, 103, 32, 116, 111, 111, 108],
        M4ReplyError::MissingFetchUrl => seq![109u8, 105, 115, 115, 105, 110, 103, 32, 102, 101, 116, 99, 104, 32, 117, 114, 108],
        M4ReplyError::MissingPostUrl => seq![109u8, 105, 115, 115, 105, 110, 103, 32, 112, 111, 115, 116, 32, 117, 114, 108],
        M4ReplyError::MissingPostJson => seq![109u8, 105, 115, 115, 105, 110, 103, 32, 112, 111, 115, 116, 32, 106, 115, 111, 110],
        M4ReplyError::MissingTweetText => seq![109u8, 105, 115, 115, 105, 110, 103, 32, 116, 119, 101, 101, 116, 32, 116, 101, 120, 116],
        M4ReplyError::MissingSearchQuery => seq![109u8, 105, 115, 115, 105, 110, 103, 32, 115, 101, 97, 114, 99, 104, 32, 113, 117, 101, 114, 121],
        M4ReplyError::MissingUsername => seq![109u8, 105, 115, 115, 105, 110, 103, 32, 117, 115, 101, 114, 110, 97, 109, 101],
        M4ReplyError::MissingSessionKey => seq![109u8, 105, 115, 115, 105, 110, 103, 32, 115, 101, 115, 115, 105, 111, 110, 32, 107, 101, 121],
        M4ReplyError::UnsupportedTool => seq![117u8, 110, 115, 117, 112, 112, 111, 114, 116, 101, 100, 32, 116, 111, 111, 108],
        M4ReplyError::MissingFinalResponse => seq![109u8, 105, 115, 115, 105, 110, 103, 32, 102, 105, 110, 97, 108, 32, 114, 101, 115, 112, 111, 110, 115, 101],
    }
}

impl M4ReplyError {
    pub fn reason(&self) -> (r: &'static [u8])
        ensures
            r@ == reply_error_reason(*self),
    {
        let r: &'static [u8] = match self {
            M4ReplyError::EmptyModelResponse => &[101u8, 109, 112, 116, 121, 32, 109, 111, 100, 101, 108, 32, 114, 101, 115, 112, 111, 110, 115, 101],
            M4ReplyError::UnsupportedModelResponse => &[117u8, 110, 115, 117, 112, 112, 111, 114, 116, 101, 100, 32, 109, 111, 100, 101, 108, 32, 114, 101, 115, 112, 111, 110, 115, 101],
            M4ReplyError::MissingTool => &[109u8, 105, 115, 115, 105, 110, 103, 32, 116, 111, 111, 108],
            M4ReplyError::MissingFetchUrl => &[109u8, 105, 115, 115, 105, 110, 103, 32, 102, 101, 116, 99, 104, 32, 117, 114, 108],
            M4ReplyError::MissingPostUrl => &[109u8, 105, 115, 115, 105, 110, 103, 32, 112, 111, 115, 116, 32, 117, 114, 108],
            M4ReplyError::MissingPostJson => &[109u8, 105, 115, 115, 105, 110, 103, 32, 112, 111, 115, 116, 32, 106, 115, 111, 110],
            M4ReplyError::MissingTweetText => &[109u8, 105, 115, 115, 105, 110, 103, 32, 116, 119, 101, 101, 116, 32, 116, 101, 120, 116],
            M4ReplyError::MissingSearchQuery => &[109u8, 105, 115, 115, 105, 110, 103, 32, 115, 101, 97, 114, 99, 104, 32, 113, 117, 101, 114, 121],
            M4ReplyError::MissingUsername => &[109u8, 105, 115, 115, 105, 110, 103, 32, 117, 115, 101, 114, 110, 97, 109, 101],
            M4ReplyError::MissingSessionKey => &[109u8, 105, 115, 115, 105, 110, 103, 32, 115, 101, 115, 115, 105, 111, 110, 32, 107, 101, 121],
            M4ReplyError::UnsupportedTool => &[117u8, 110, 115, 117, 112, 112, 111, 114, 116, 101, 100, 32, 116, 111, 111, 108],
            M4ReplyError::MissingFinalResponse => &[109u8, 105, 115, 115, 105, 110, 103, 32, 102, 105, 110, 97, 108, 32, 114, 101, 115, 112, 111, 110, 115, 101],
        };
        assert(r@ =~= reply_error_reason(*self));
        r
    }
}

/// The string value of `"key"` read into `cap` bytes; empty when there is none.
pub open spec fn jstr(buf: Seq<u8>, key: Seq<u8>, cap: int) -> Seq<u8> {
    match crate::json::extract_string_from(buf, buf.len() as int, key, 0, cap) {
        Some((_, s)) => s,
        None => Seq::empty(),
    }
}

/// `tool` begins with `name`.
pub open spec fn tool_is(tool: Seq<u8>, name: Seq<u8>) -> bool {
    name.len() <= tool.len() && matches_at(tool, 0, name)
}

/// A tool call read from the reply: the name and its arguments, or why it cannot be made.
pub open spec fn m4_tool_reply(response: Seq<u8>, tool: Seq<u8>) -> Result<(Seq<u8>, Seq<u8>, Seq<u8>), M4ReplyError> {
    let a1 = M4_TOOL_ARG1_MAX as int;
    let a2 = M4_TOOL_ARG2_MAX as int;
    if tool_is(tool, seq![102u8, 101, 116, 99, 104, 95, 117, 114, 108]) {
        let u = jstr(response, seq![117u8, 114, 108], a1);
        if u.len() == 0 { Err(M4ReplyError::MissingFetchUrl) } else { Ok((tool, u, Seq::empty())) }
    } else if tool_is(tool, seq![112u8, 111, 115, 116, 95, 117, 114, 108]) {
        let u = jstr(response, seq![117u8, 114, 108], a1);
        let j = jstr(response, seq![106u8, 115, 111, 110], a2);
        if u.len() == 0 {
            Err(M4ReplyError::MissingPostUrl)
        } else if j.len() == 0 {
            Err(M4ReplyError::MissingPostJson)
        } else {
            Ok((tool, u, j))
        }
    } else if tool_is(tool, seq![112u8, 111, 115, 116, 95, 116, 119, 101, 101, 116]) {
        let t = jstr(response, seq![116u8, 101, 120, 116], a1);
        if t.len() == 0 { Err(M4ReplyError::MissingTweetText) } else { Ok((tool, t, Seq::empty())) }
    } else if tool_is(tool, seq![115u8, 101, 97, 114, 99, 104, 95, 114, 101, 99, 101, 110, 116, 95, 112, 111, 115, 116, 115]) {
        let q = jstr(response, seq![113u8, 117, 101, 114, 121], a1);
        if q.len() == 0 { Err(M4ReplyError::MissingSearchQuery) } else { Ok((tool, q, Seq::empty())) }
    } else if tool_is(tool, seq![103u8, 101, 116, 95, 117, 115, 101, 114, 95, 112, 111, 115, 116, 115]) {
        let u = jstr(response, seq![117u8, 115, 101, 114, 110, 97, 109, 101], a1);
        if u.len() == 0 { Err(M4ReplyError::MissingUsername) } else { Ok((tool, u, Seq::empty())) }
    } else if tool_is(tool, seq![114u8, 101, 97, 100, 95, 115, 101, 115, 115, 105, 111, 110, 95, 115, 116, 97, 116, 101]) {
        let k = jstr(response, seq![107u8, 101, 121], a1);
        if k.len() == 0 { Err(M4ReplyError::MissingSessionKey) } else { Ok((tool, k, Seq::empty())) }
    } else if tool_is(tool, seq![119u8, 114, 105, 116, 101, 95, 115, 101, 115, 115, 105, 111, 110, 95, 115, 116, 97, 116, 101]) {
        let k = jstr(response, seq![107u8, 101, 121], a1);
        let v = jstr(response, seq![118u8, 97, 108, 117, 101], a2);
        if k.len() == 0 { Err(M4ReplyError::MissingSessionKey) } else { Ok((tool, k, v)) }
    } else {
        Err(M4ReplyError::UnsupportedTool)
    }
}

/// `r` is the tool call that `m4_tool_reply` reads, or its error.
pub open spec fn tool_outcome(r: Result<M4Reply, M4ReplyError>, response: Seq<u8>, tool: Seq<u8>) -> bool {
    match (r, m4_tool_reply(response, tool)) {
        (Ok(M4Reply::Tool { name, arg1, arg2 }), Ok((n, x, y))) => name@ == n && arg1@ == x && arg2@ == y,
        (Err(e), Err(f)) => e == f,
        _ => false,
    }
}

fn jstr_local(buf: &[u8], key: &[u8], cap: usize) -> (r: Vec<u8>)
    ensures
        r@ == jstr(buf@, key@, cap as int),
{
    crate::json::json_extract_string_local(buf, key, cap)
}

fn tool_call(name: &[u8], arg1: Vec<u8>, arg2: Vec<u8>) -> (r: M4Reply)
    ensures
        r matches M4Reply::Tool { name: n, arg1: x, arg2: y } && n@ == name@ && x@ == arg1@ && y@ == arg2@,
{
    let mut n: Vec<u8> = Vec::new();
    crate::bytes::append_all(&mut n, name);
    M4Reply::Tool { name: n, arg1, arg2 }
}

/// The tool call named `tool` with its arguments read from `response`.
pub fn parse_m4_tool_from_response(response: &[u8], tool: &[u8]) -> (r: Result<M4Reply, M4ReplyError>)
    ensures
        tool_outcome(r, response@, tool@),
{
    let t = tool.len();
    let s_fetch: &[u8] = &[102u8, 101, 116, 99, 104, 95, 117, 114, 108];
    let s_post: &[u8] = &[112u8, 111, 115, 116, 95, 117, 114, 108];
    let s_tweet: &[u8] = &[112u8, 111, 115, 116, 95, 116, 119, 101, 101, 116];
    let s_search: &[u8] = &[115u8, 101, 97, 114, 99, 104, 95, 114, 101, 99, 101, 110, 116, 95, 112, 111, 115, 116, 115];
    let s_user: &[u8] = &[103u8, 101, 116, 95, 117, 115, 101, 114, 95, 112, 111, 115, 116, 115];
    let s_read: &[u8] = &[114u8, 101, 97, 100, 95, 115, 101, 115, 115, 105, 111, 110, 95, 115, 116, 97, 116, 101];
    let s_write: &[u8] = &[119u8, 114, 105, 116, 101, 95, 115, 101, 115, 115, 105, 111, 110, 95, 115, 116, 97, 116, 101];
    let k_url: &[u8] = &[117u8, 114, 108];
    let k_json: &[u8] = &[106u8, 115, 111, 110];
    let k_text: &[u8] = &[116u8, 101, 120, 116];
    let k_query: &[u8] = &[113u8, 117, 101, 114, 121];
    let k_user: &[u8] = &[117u8, 115, 101, 114, 110, 97, 109, 101];
    let k_key: &[u8] = &[107u8, 101, 121];
    let k_value: &[u8] = &[118u8, 97, 108, 117, 101];
    assert(s_fetch@ =~= seq![102u8, 101, 116, 99, 104, 95, 117, 114, 108]);
    assert(s_post@ =~= seq![112u8, 111, 115, 116, 95, 117, 114, 108]);
    assert(s_tweet@ =~= seq![112u8, 111, 115, 116, 95, 116, 119, 101, 101, 116]);
    assert(s_search@ =~= seq![115u8, 101, 97, 114, 99, 104, 95, 114, 101, 99, 101, 110, 116, 95, 112, 111, 115, 116, 115]);
    assert(s_user@ =~= seq![103u8, 101, 116, 95, 117, 115, 101, 114, 95, 112, 111, 115, 116, 115]);
    assert(s_read@ =~= seq![114u8, 101, 97, 100, 95, 115, 101, 115, 115, 105, 111, 110, 95, 115, 116, 97, 116, 101]);
    assert(s_write@ =~= seq![119u8, 114, 105, 116, 101, 95, 115, 101, 115, 115, 105, 111, 110, 95, 115, 116, 97, 116, 101]);
    assert(k_url@ =~= seq![117u8, 114, 108]);
    assert(k_json@ =~= seq![106u8, 115, 111, 110]);
    assert(k_text@ =~= seq![116u8, 101, 120, 116]);
    assert(k_query@ =~= seq![113u8, 117, 101, 114, 121]);
    assert(k_user@ =~= seq![117u8, 115, 101, 114, 110, 97, 109, 101]);
    assert(k_key@ =~= seq![107u8, 101, 121]);
    assert(k_value@ =~= seq![118u8, 97, 108, 117, 101]);
    if crate::bytes::starts_with(tool, t, s_fetch) {
        let u = jstr_local(response, k_url, M4_TOOL_ARG1_MAX);
        if u.len() == 0 {
            return Err(M4ReplyError::MissingFetchUrl);
        }
        return Ok(tool_call(tool, u, Vec::new()));
    }
    if crate::bytes::starts_with(tool, t, s_post) {
        let u = jstr_local(response, k_url, M4_TOOL_ARG1_MAX);
        let j = jstr_local(response, k_json, M4_TOOL_ARG2_MAX);
        if u.len() == 0 {
            return Err(M4ReplyError::MissingPostUrl);
        }
        if j.len() == 0 {
            return Err(M4ReplyError::MissingPostJson);
        }
        return Ok(tool_call(tool, u, j));
    }
    if crate::bytes::starts_with(tool, t, s_tweet) {
        let x = jstr_local(response, k_text, M4_TOOL_ARG1_MAX);
        if x.len() == 0 {
            return Err(M4ReplyError::MissingTweetText);
        }
        return Ok(tool_call(tool, x, Vec::new()));
    }
    if crate::bytes::starts_with(tool, t, s_search) {
        let q = jstr_local(response, k_query, M4_TOOL_ARG1_MAX);
        if q.len() == 0 {
            return Err(M4ReplyError::MissingSearchQuery);
        }
        return Ok(tool_call(tool, q, Vec::new()));
    }
    if crate::bytes::starts_with(tool, t, s_user) {
        let u = jstr_local(response, k_user, M4_TOOL_ARG1_MAX);
        if u.len() == 0 {
            return Err(M4ReplyError::MissingUsername);
        }
        return Ok(tool_call(tool, u, Vec::new()));
    }
    if crate::bytes::starts_with(tool, t, s_read) {
        let k = jstr_local(response, k_key, M4_TOOL_ARG1_MAX);
        if k.len() == 0 {
            return Err(M4ReplyError::MissingSessionKey);
        }
        return Ok(tool_call(tool, k, Vec::new()));
    }
    if crate::bytes::starts_with(tool, t, s_write) {
        let k = jstr_local(response, k_key, M4_TOOL_ARG1_MAX);
        let v = jstr_local(response, k_value, M4_TOOL_ARG2_MAX);
        if k.len() == 0 {
            return Err(M4ReplyError::MissingSessionKey);
        }
        return Ok(tool_call(tool, k, v));
    }
    Err(M4ReplyError::UnsupportedTool)
}

/// The final answer in a reply: the `"response"` string, else as much of it as the reply
/// holds when it is cut off, else the whole reply trimmed.
pub open spec fn final_text(response: Seq<u8>) -> Seq<u8> {
    let cap = M4_TOOL_RESULT_LIMIT as int;
    let full = jstr(response, seq![114u8, 101, 115, 112, 111, 110, 115, 101], cap);
    if full.len() != 0 {
        full
    } else {
        let part = partial_string(response, seq![114u8, 101, 115, 112, 111, 110, 115, 101], cap);
        if part.len() != 0 {
            part
        } else {
            let t = crate::bytes::trimmed(response, response.len() as int);
            t.take(min_int(t.len() as int, cap))
        }
    }
}

pub open spec fn refusal(text: Seq<u8>) -> bool {
    tool_is(text, seq![117u8, 110, 115, 117, 112, 112, 111, 114, 116, 101, 100, 32, 103, 111, 97, 108])
}

/// `r` is the final answer `final_text`, or `MissingFinalResponse` when that is empty.
pub open spec fn final_outcome(r: Result<M4Reply, M4ReplyError>, response: Seq<u8>) -> bool {
    let t = final_text(response);
    if t.len() == 0 {
        r == Err::<M4Reply, M4ReplyError>(M4ReplyError::MissingFinalResponse)
    } else {
        match r {
            Ok(M4Reply::Final { text, refused }) => text@ == t && refused == refusal(t),
            _ => false,
        }
    }
}

pub fn parse_m4_final_from_response(response: &[u8]) -> (r: Result<M4Reply, M4ReplyError>)
    ensures
        final_outcome(r, response@),
{
    let key: &[u8] = &[114u8, 101, 115, 112, 111, 110, 115, 101];
    let refused_word: &[u8] = &[117u8, 110, 115, 117, 112, 112, 111, 114, 116, 101, 100, 32, 103, 111, 97, 108];
    assert(key@ =~= seq![114u8, 101, 115, 112, 111, 110, 115, 101]);
    assert(refused_word@ =~= seq![117u8, 110, 115, 117, 112, 112, 111, 114, 116, 101, 100, 32, 103, 111, 97, 108]);
    let mut text = jstr_local(response, key, M4_TOOL_RESULT_LIMIT);
    if text.len() == 0 {
        text = json_extract_string_partial_local(response, key, M4_TOOL_RESULT_LIMIT);
        if text.len() == 0 {
            text = crate::bytes::copy_trimmed_text(M4_TOOL_RESULT_LIMIT, response);
            if text.len() == 0 {
                return Err(M4ReplyError::MissingFinalResponse);
            }
        }
    }
    let refused = crate::bytes::starts_with(text.as_slice(), text.len(), refused_word);
    Ok(M4Reply::Final { text, refused })
}

/// How a reply (the model's output text) is read: by its `"type"` when it has one, else
/// as a tool call when it names a `"tool"`, else as a final answer.
pub open spec fn m4_reply_kind(response: Seq<u8>) -> Option<Result<Seq<u8>, M4ReplyError>> {
    // None: a final answer; Some(Ok(tool)): a call of `tool`; Some(Err(e)): refused.
    let kind = jstr(response, seq![116u8, 121, 112, 101], M4_KIND_MAX as int);
    let tool = jstr(response, seq![116u8, 111, 111, 108], M4_TOOL_NAME_MAX as int);
    if kind.len() != 0 {
        if tool_is(kind, seq![102u8, 105, 110, 97, 108]) {
            None
        } else if !tool_is(kind, seq![116u8, 111, 111, 108]) {
            Some(Err(M4ReplyError::UnsupportedModelResponse))
        } else if tool.len() == 0 {
            Some(Err(M4ReplyError::MissingTool))
        } else {
            Some(Ok(tool))
        }
    } else if tool.len() != 0 {
        Some(Ok(tool))
    } else {
        None
    }
}

/// Reads the model's output text: an empty one is an error; otherwise see
/// `m4_reply_kind`, `m4_tool_reply` and `final_text`.
pub fn parse_m4_model_response(response: &[u8]) -> (r: Result<M4Reply, M4ReplyError>)
    ensures
        response.len() == 0 ==> r == Err::<M4Reply, M4ReplyError>(M4ReplyError::EmptyModelResponse),
        response.len() != 0 ==> match m4_reply_kind(response@) {
            None => final_outcome(r, response@),
            Some(Err(e)) => r == Err::<M4Reply, M4ReplyError>(e),
            Some(Ok(tool)) => tool_outcome(r, response@, tool),
        },
{
    if response.len() == 0 {
        return Err(M4ReplyError::EmptyModelResponse);
    }
    let k_type: &[u8] = &[116u8, 121, 112, 101];
    let k_tool: &[u8] = &[116u8, 111, 111, 108];
    let w_final: &[u8] = &[102u8, 105, 110, 97, 108];
    assert(k_type@ =~= seq![116u8, 121, 112, 101]);
    assert(k_tool@ =~= seq![116u8, 111, 111, 108]);
    assert(w_final@ =~= seq![102u8, 105, 110, 97, 108]);
    let kind = jstr_local(response, k_type, M4_KIND_MAX);
    if kind.len() != 0 {
        if crate::bytes::starts_with(kind.as_slice(), kind.len(), w_final) {
            return parse_m4_final_from_response(response);
        }
        if !crate::bytes::starts_with(kind.as_slice(), kind.len(), k_tool) {
            return Err(M4ReplyError::UnsupportedModelResponse);
        }
        let tool = jstr_local(response, k_tool, M4_TOOL_NAME_MAX);
        if tool.len() == 0 {
            return Err(M4ReplyError::MissingTool);
        }
        return parse_m4_tool_from_response(response, tool.as_slice());
    }
    let tool = jstr_local(response, k_tool, M4_TOOL_NAME_MAX);
    if tool.len() != 0 {
        return parse_m4_tool_from_response(response, tool.as_slice());
    }
    parse_m4_final_from_response(response)
}

} // verus!

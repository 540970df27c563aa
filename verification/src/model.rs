use vstd::prelude::*;
use crate::bytes::append_bytes;
use crate::bytes::bounded_append;
use crate::bytes::dec_digits;
use crate::bytes::matches_at;
use crate::bytes::room;
use crate::bytes::trimmed;
use crate::json::escape_utf8_from;
use crate::json::extract_string_from;
use crate::json::json_escape_append;

verus! {

pub const AGENT_RESPONSE_BODY_MAX: usize = 65536;
pub const AGENT_OUTPUT_TEXT_MAX: usize = 16384;
pub const AGENT_SUMMARY_MAX: usize = 4096;
pub const OUTPUT_KIND_MAX: usize = 32;
pub const FAILURE_MESSAGE_MAX: usize = 112;
pub const FAILURE_CODE_MAX: usize = 40;
pub const FAILURE_MESSAGE_SHOWN: usize = 72;
pub const SUMMARY_SOURCE_LIMIT: usize = 2200;

/// `out` with the JSON escape of `src` appended below `cap`.
pub open spec fn esc(out: Seq<u8>, cap: int, src: Seq<u8>) -> Seq<u8> {
    out + escape_utf8_from(src, 0, room(out.len() as int, cap))
}

// ---------------------------------------------------------------------------
// The text of a Responses API answer
// ---------------------------------------------------------------------------

pub open spec fn type_key() -> Seq<u8> {
    seq![116u8, 121, 112, 101]
}

pub open spec fn text_key() -> Seq<u8> {
    seq![116u8, 101, 120, 116]
}

pub open spec fn output_text_word() -> Seq<u8> {
    seq![111u8, 117, 116, 112, 117, 116, 95, 116, 101, 120, 116]
}

/// The string value of the first `"type"` at or after `scan`, read into 32 bytes.
#[verifier::opaque]
pub open spec fn type_at(body: Seq<u8>, scan: int) -> Option<(int, Seq<u8>)> {
    extract_string_from(body, body.len() as int, type_key(), scan, OUTPUT_KIND_MAX as int)
}

/// The trimmed string value of the first `"text"` at or after `from`, read into `cap`
/// bytes.
#[verifier::opaque]
pub open spec fn text_at(body: Seq<u8>, from: int, cap: int) -> Option<Seq<u8>> {
    match extract_string_from(body, body.len() as int, text_key(), from, cap) {
        None => None,
        Some((_, t)) => Some(trimmed(t, t.len() as int)),
    }
}

fn find_type(body: &[u8], scan: usize) -> (r: Option<(usize, Vec<u8>)>)
    ensures
        match r {
            Some((p, v)) => type_at(body@, scan as int) == Some((p as int, v@)) && scan < p < body.len(),
            None => type_at(body@, scan as int) is None,
        },
{
    let tkey: &[u8] = &[116u8, 121, 112, 101];
    assert(tkey@ =~= type_key());
    proof {
        reveal(type_at);
        lemma_type_at(body@, scan as int);
    }
    crate::json::json_extract_string_from(body, body.len(), tkey, OUTPUT_KIND_MAX, scan)
}

fn find_text(body: &[u8], from: usize, cap: usize) -> (r: Option<Vec<u8>>)
    ensures
        match r {
            Some(v) => text_at(body@, from as int, cap as int) == Some(v@),
            None => text_at(body@, from as int, cap as int) is None,
        },
{
    let xkey: &[u8] = &[116u8, 101, 120, 116];
    assert(xkey@ =~= text_key());
    proof {
        reveal(text_at);
    }
    match crate::json::json_extract_string_from(body, body.len(), xkey, cap, from) {
        Some((_, text)) => {
            let mut t = text;
            let n = t.len();
            crate::bytes::trim_ascii_in_place(&mut t, n);
            Some(t)
        },
        None => None,
    }
}

pub proof fn lemma_type_at(body: Seq<u8>, scan: int)
    ensures
        type_at(body, scan) matches Some((p, v)) ==> scan < p < body.len(),
{
    reveal(type_at);
    crate::json::lemma_extract_string_from_range(
        body,
        body.len() as int,
        type_key(),
        scan,
        OUTPUT_KIND_MAX as int,
    );
}

/// Scanning from `scan` for a `"type"` whose value begins with `output_text`: the trimmed
/// value of the next `"text"` after it (cut to `cap` bytes before trimming); `None` when
/// a `"type"` or that `"text"` is missing. Between two `"type"` values the scan moves on
/// by the length of the value read.
pub open spec fn nested_text_from(body: Seq<u8>, scan: int, cap: int) -> Option<Seq<u8>>
    decreases (if scan < body.len() {
        body.len() - scan
    } else {
        0
    }),
{
    if scan < 0 || scan >= body.len() {
        None
    } else {
        match type_at(body, scan) {
            None => None,
            Some((vs, kind)) => if kind.len() >= 11 && matches_at(kind, 0, output_text_word()) {
                text_at(body, vs, cap)
            } else {
                proof {
                    lemma_type_at(body, scan);
                }
                nested_text_from(body, vs + kind.len() + 1, cap)
            },
        }
    }
}

pub fn extract_openai_nested_output_text(body: &[u8], cap: usize) -> (r: Option<Vec<u8>>)
    ensures
        match r {
            Some(v) => nested_text_from(body@, 0, cap as int) == Some(v@),
            None => nested_text_from(body@, 0, cap as int) is None,
        },
{
    let word: &[u8] = &[111u8, 117, 116, 112, 117, 116, 95, 116, 101, 120, 116];
    assert(word@ =~= output_text_word());
    let len = body.len();
    let mut scan = 0usize;
    while scan < len
        invariant
            len == body.len(),
            word@ == output_text_word(),
            nested_text_from(body@, scan as int, cap as int) == nested_text_from(body@, 0, cap as int),
        decreases len - scan,
    {
        let (vs, kind) = match find_type(body, scan) {
            Some(v) => v,
            None => return None,
        };
        if crate::bytes::starts_with(kind.as_slice(), kind.len(), word) {
            return find_text(body, vs, cap);
        }
        if kind.len() >= len - vs {
            assert(nested_text_from(body@, vs + kind.len() + 1, cap as int) is None);
            return None;
        }
        scan = vs + kind.len() + 1;
    }
    None
}

pub open spec fn output_text_key() -> Seq<u8> {
    seq![111u8, 117, 116, 112, 117, 116, 95, 116, 101, 120, 116]
}

/// The answer text: the text already cut out of the stream (`cached`, to `cap` bytes)
/// when there is one, else the nested `output_text` item, else a top-level
/// `"output_text"` string, trimmed.
pub open spec fn spec_output_text(cached: Seq<u8>, body: Seq<u8>, cap: int) -> Option<Seq<u8>> {
    if cached.len() != 0 {
        Some(cached.take(crate::bytes::min_int(cached.len() as int, cap)))
    } else if nested_text_from(body, 0, cap) is Some {
        nested_text_from(body, 0, cap)
    } else {
        match extract_string_from(body, body.len() as int, output_text_key(), 0, cap) {
            None => None,
            Some((_, t)) => Some(trimmed(t, t.len() as int)),
        }
    }
}

pub fn extract_openai_output_text(cached: &[u8], body: &[u8], cap: usize) -> (r: Option<Vec<u8>>)
    ensures
        match r {
            Some(v) => spec_output_text(cached@, body@, cap as int) == Some(v@),
            None => spec_output_text(cached@, body@, cap as int) is None,
        },
{
    if cached.len() != 0 {
        return Some(crate::bytes::copy_bytes(cap, cached));
    }
    if let Some(t) = extract_openai_nested_output_text(body, cap) {
        return Some(t);
    }
    let key: &[u8] = &[111u8, 117, 116, 112, 117, 116, 95, 116, 101, 120, 116];
    assert(key@ =~= output_text_key());
    match crate::json::json_extract_string(body, body.len(), key, cap) {
        Some(v) => {
            let mut t = v;
            let n = t.len();
            crate::bytes::trim_ascii_in_place(&mut t, n);
            Some(t)
        },
        None => None,
    }
}

// ---------------------------------------------------------------------------
// Failures of model calls
// ---------------------------------------------------------------------------

/// Whether a failed model call is worth one more try: rate limiting, a server error, or
/// no response at all after a transport failure (see `spec_transport_retryable`).
pub open spec fn spec_openai_failure_retryable(status: u16, transport: Seq<u8>) -> bool {
    status == 429 || (500 <= status <= 599) || (status == 0
        && crate::fetch::spec_transport_retryable(transport))
}

pub fn openai_failure_retryable(status: u16, transport: &[u8]) -> (r: bool)
    ensures
        r == spec_openai_failure_retryable(status, transport@),
{
    if status == 429 || (500 <= status && status <= 599) {
        return true;
    }
    if status != 0 {
        return false;
    }
    crate::fetch::fetch_reason_is_transport_retryable(transport)
}

pub open spec fn status_label(status: u16) -> Seq<u8> {
    if status == 400 {
        seq![98u8, 97, 100, 32, 114, 101, 113, 117, 101, 115, 116]
    } else if status == 401 {
        seq![117u8, 110, 97, 117, 116, 104, 111, 114, 105, 122, 101, 100]
    } else if status == 403 {
        seq![102u8, 111, 114, 98, 105, 100, 100, 101, 110]
    } else if status == 404 {
        seq![110u8, 111, 116, 32, 102, 111, 117, 110, 100]
    } else if status == 408 {
        seq![114u8, 101, 113, 117, 101, 115, 116, 32, 116, 105, 109, 101, 111, 117, 116]
    } else if status == 409 {
        seq![99u8, 111, 110, 102, 108, 105, 99, 116]
    } else if status == 422 {
        seq![117u8, 110, 112, 114, 111, 99, 101, 115, 115, 97, 98, 108, 101, 32, 114, 101, 113, 117, 101, 115, 116]
    } else if status == 429 {
        seq![114u8, 97, 116, 101, 32, 108, 105, 109, 105, 116, 101, 100]
    } else if 500 <= status <= 599 {
        seq![115u8, 101, 114, 118, 101, 114, 32, 101, 114, 114, 111, 114]
    } else {
        seq![104u8, 116, 116, 112, 32, 101, 114, 114, 111, 114]
    }
}

fn status_label_bytes(status: u16) -> (r: &'static [u8])
    ensures
        r@ == status_label(status),
{
    let r: &'static [u8] = if status == 400 {
        &[98u8, 97, 100, 32, 114, 101, 113, 117, 101, 115, 116]
    } else if status == 401 {
        &[117u8, 110, 97, 117, 116, 104, 111, 114, 105, 122, 101, 100]
    } else if status == 403 {
        &[102u8, 111, 114, 98, 105, 100, 100, 101, 110]
    } else if status == 404 {
        &[110u8, 111, 116, 32, 102, 111, 117, 110, 100]
    } else if status == 408 {
        &[114u8, 101, 113, 117, 101, 115, 116, 32, 116, 105, 109, 101, 111, 117, 116]
    } else if status == 409 {
        &[99u8, 111, 110, 102, 108, 105, 99, 116]
    } else if status == 422 {
        &[117u8, 110, 112, 114, 111, 99, 101, 115, 115, 97, 98, 108, 101, 32, 114, 101, 113, 117, 101, 115, 116]
    } else if status == 429 {
        &[114u8, 97, 116, 101, 32, 108, 105, 109, 105, 116, 101, 100]
    } else if 500 <= status && status <= 599 {
        &[115u8, 101, 114, 118, 101, 114, 32, 101, 114, 114, 111, 114]
    } else {
        &[104u8, 116, 116, 112, 32, 101, 114, 114, 111, 114]
    };
    assert(r@ =~= status_label(status));
    r
}

/// The trimmed string value of `key`, read into `cap` bytes.
pub open spec fn trimmed_field(body: Seq<u8>, key: Seq<u8>, cap: int) -> Seq<u8> {
    match extract_string_from(body, body.len() as int, key, 0, cap) {
        Some((_, s)) => trimmed(s, s.len() as int),
        None => Seq::empty(),
    }
}

/// How much of a long error message is shown: up to 72 bytes, cut back to just after
/// the last space or comma when that keeps at least 32.
pub open spec fn cut_back(m: Seq<u8>, shown: int) -> int
    decreases shown,
{
    if shown <= 0 || m[shown - 1] == 32 || m[shown - 1] == 44 {
        shown
    } else {
        cut_back(m, shown - 1)
    }
}

pub open spec fn shown_len(m: Seq<u8>) -> int {
    if m.len() <= FAILURE_MESSAGE_SHOWN {
        m.len() as int
    } else if cut_back(m, FAILURE_MESSAGE_SHOWN as int) < 32 {
        FAILURE_MESSAGE_SHOWN as int
    } else {
        cut_back(m, FAILURE_MESSAGE_SHOWN as int)
    }
}

/// The reason given for a failed model call in `phase`: what the transport reported, or
/// a reading of the HTTP status with the error's code and (unless the status speaks for
/// itself) the start of its message; all within `cap` bytes.
pub open spec fn failure_reason(
    phase: Seq<u8>,
    status: u16,
    transport: Seq<u8>,
    truncated: bool,
    body: Seq<u8>,
    cap: int,
) -> Seq<u8> {
    let head = bounded_append(bounded_append(Seq::empty(), cap, phase), cap, seq![58u8, 32]);
    if status == 0 {
        bounded_append(
            head,
            cap,
            if transport.len() != 0 {
                transport
            } else {
                seq![114u8, 101, 113, 117, 101, 115, 116, 32, 102, 97, 105, 108, 101, 100]
            },
        )
    } else if 200 <= status < 300 {
        bounded_append(
            head,
            cap,
            if truncated {
                seq![114u8, 101, 115, 112, 111, 110, 115, 101, 32, 98, 111, 100, 121, 32, 116, 114, 117, 110, 99, 97, 116, 101, 100]
            } else {
                seq![105u8, 110, 118, 97, 108, 105, 100, 32, 114, 101, 115, 112, 111, 110, 115, 101, 32, 102, 111, 114, 109, 97, 116]
            },
        )
    } else if transport.len() != 0 && 300 <= status < 400 {
        bounded_append(head, cap, transport)
    } else {
        let message = trimmed_field(body, seq![109u8, 101, 115, 115, 97, 103, 101], FAILURE_MESSAGE_MAX as int);
        let code = trimmed_field(body, seq![99u8, 111, 100, 101], FAILURE_CODE_MAX as int);
        let terse = status == 401 || status == 403 || status == 429 || (500 <= status <= 599);
        let a = bounded_append(
            bounded_append(
                bounded_append(bounded_append(head, cap, status_label(status)), cap, seq![32u8, 40]),
                cap,
                dec_digits(status as nat),
            ),
            cap,
            seq![41u8],
        );
        let b = if code.len() != 0 {
            bounded_append(bounded_append(a, cap, seq![32u8]), cap, code)
        } else {
            a
        };
        if message.len() != 0 && !terse {
            let shown = shown_len(message);
            let c = bounded_append(bounded_append(b, cap, seq![58u8, 32]), cap, message.take(shown));
            if shown < message.len() {
                bounded_append(c, cap, seq![46u8, 46, 46])
            } else {
                c
            }
        } else {
            b
        }
    }
}

fn trimmed_field_bytes(body: &[u8], key: &[u8], cap: usize) -> (r: Vec<u8>)
    ensures
        r@ == trimmed_field(body@, key@, cap as int),
{
    match crate::json::json_extract_string(body, body.len(), key, cap) {
        Some(v) => {
            let mut t = v;
            let n = t.len();
            crate::bytes::trim_ascii_in_place(&mut t, n);
            t
        },
        None => Vec::new(),
    }
}

pub fn build_openai_failure_reason(
    phase: &[u8],
    status: u16,
    transport: &[u8],
    truncated: bool,
    body: &[u8],
    cap: usize,
) -> (r: Vec<u8>)
    ensures
        r@ == failure_reason(phase@, status, transport@, truncated, body@, cap as int),
{
    let colon: &[u8] = &[58u8, 32];
    assert(colon@ =~= seq![58u8, 32]);
    let mut out: Vec<u8> = Vec::new();
    append_bytes(&mut out, cap, phase);
    append_bytes(&mut out, cap, colon);
    if status == 0 {
        if transport.len() != 0 {
            append_bytes(&mut out, cap, transport);
        } else {
            let s: &[u8] = &[114u8, 101, 113, 117, 101, 115, 116, 32, 102, 97, 105, 108, 101, 100];
            assert(s@ =~= seq![114u8, 101, 113, 117, 101, 115, 116, 32, 102, 97, 105, 108, 101, 100]);
            append_bytes(&mut out, cap, s);
        }
        return out;
    }
    if 200 <= status && status < 300 {
        if truncated {
            let s: &[u8] = &[114u8, 101, 115, 112, 111, 110, 115, 101, 32, 98, 111, 100, 121, 32, 116, 114, 117, 110, 99, 97, 116, 101, 100];
            assert(s@ =~= seq![114u8, 101, 115, 112, 111, 110, 115, 101, 32, 98, 111, 100, 121, 32, 116, 114, 117, 110, 99, 97, 116, 101, 100]);
            append_bytes(&mut out, cap, s);
        } else {
            let s: &[u8] = &[105u8, 110, 118, 97, 108, 105, 100, 32, 114, 101, 115, 112, 111, 110, 115, 101, 32, 102, 111, 114, 109, 97, 116];
            assert(s@ =~= seq![105u8, 110, 118, 97, 108, 105, 100, 32, 114, 101, 115, 112, 111, 110, 115, 101, 32, 102, 111, 114, 109, 97, 116]);
            append_bytes(&mut out, cap, s);
        }
        return out;
    }
    if transport.len() != 0 && 300 <= status && status < 400 {
        append_bytes(&mut out, cap, transport);
        return out;
    }
    let mkey: &[u8] = &[109u8, 101, 115, 115, 97, 103, 101];
    let ckey: &[u8] = &[99u8, 111, 100, 101];
    assert(mkey@ =~= seq![109u8, 101, 115, 115, 97, 103, 101]);
    assert(ckey@ =~= seq![99u8, 111, 100, 101]);
    let message = trimmed_field_bytes(body, mkey, FAILURE_MESSAGE_MAX);
    let code = trimmed_field_bytes(body, ckey, FAILURE_CODE_MAX);
    let open: &[u8] = &[32u8, 40];
    let close: &[u8] = &[41u8];
    let sp: &[u8] = &[32u8];
    let dots: &[u8] = &[46u8, 46, 46];
    assert(open@ =~= seq![32u8, 40]);
    assert(close@ =~= seq![41u8]);
    assert(sp@ =~= seq![32u8]);
    assert(dots@ =~= seq![46u8, 46, 46]);
    append_bytes(&mut out, cap, status_label_bytes(status));
    append_bytes(&mut out, cap, open);
    crate::bytes::append_u64_dec(&mut out, cap, status as u64);
    append_bytes(&mut out, cap, close);
    let terse = status == 401 || status == 403 || status == 429 || (500 <= status && status <= 599);
    if code.len() != 0 {
        append_bytes(&mut out, cap, sp);
        append_bytes(&mut out, cap, code.as_slice());
    }
    if message.len() != 0 && !terse {
        let mut shown = message.len();
        if shown > FAILURE_MESSAGE_SHOWN {
            shown = FAILURE_MESSAGE_SHOWN;
            while shown > 0 && message[shown - 1] != 32u8 && message[shown - 1] != 44u8
                invariant
                    shown <= FAILURE_MESSAGE_SHOWN < message.len(),
                    cut_back(message@, shown as int) == cut_back(message@, FAILURE_MESSAGE_SHOWN as int),
                decreases shown,
            {
                shown -= 1;
            }
            if shown < 32 {
                shown = FAILURE_MESSAGE_SHOWN;
            }
        }
        append_bytes(&mut out, cap, colon);
        append_bytes(&mut out, cap, vstd::slice::slice_subrange(message.as_slice(), 0, shown));
        assert(message@.subrange(0, shown as int) =~= message@.take(shown as int));
        if shown < message.len() {
            append_bytes(&mut out, cap, dots);
        }
    }
    out
}

// ---------------------------------------------------------------------------
// Local summaries
// ---------------------------------------------------------------------------

pub open spec fn blank_to_space(b: u8) -> u8 {
    if b == 10 || b == 13 || b == 9 {
        32
    } else {
        b
    }
}

pub open spec fn ends_sentence(b: u8) -> bool {
    b == 46 || b == 33 || b == 63
}

/// The text from `i` on with runs of white space collapsed to one space, appended to
/// `out` below `cap`, stopping after the sentence that brings the count `count` to
/// `limit`.
pub open spec fn summary_from(src: Seq<u8>, i: int, cap: int, limit: int, saw_space: bool, count: int, out: Seq<u8>) -> Seq<
    u8,
>
    decreases src.len() - i,
{
    if i < 0 || i >= src.len() || out.len() >= cap {
        out
    } else {
        let b = blank_to_space(src[i]);
        if b == 32 {
            if !saw_space {
                summary_from(src, i + 1, cap, limit, true, count, out.push(32u8))
            } else {
                summary_from(src, i + 1, cap, limit, saw_space, count, out)
            }
        } else if ends_sentence(b) && count + 1 >= limit {
            out.push(b)
        } else {
            summary_from(
                src,
                i + 1,
                cap,
                limit,
                false,
                if ends_sentence(b) {
                    count + 1
                } else {
                    count
                },
                out.push(b),
            )
        }
    }
}

/// Drops trailing spaces.
pub open spec fn strip_spaces_end(s: Seq<u8>) -> Seq<u8>
    decreases s.len(),
{
    if s.len() > 0 && s.last() == 32 {
        strip_spaces_end(s.drop_last())
    } else {
        s
    }
}

/// A local summary of `src`: white space collapsed, at most `limit` sentences (at least
/// one), at most `cap` bytes, no trailing space.
pub open spec fn spec_summary(src: Seq<u8>, limit: int, cap: int) -> Seq<u8> {
    strip_spaces_end(
        summary_from(
            src,
            0,
            cap,
            if limit == 0 {
                1
            } else {
                limit
            },
            true,
            0,
            Seq::empty(),
        ),
    )
}

pub fn summarize_agent_response(src: &[u8], sentence_limit: usize, cap: usize) -> (r: Vec<u8>)
    ensures
        r@ == spec_summary(src@, sentence_limit as int, cap as int),
{
    let limit = if sentence_limit == 0 {
        1
    } else {
        sentence_limit
    };
    let mut out: Vec<u8> = Vec::new();
    let mut saw_space = true;
    let mut count = 0usize;
    let mut i = 0usize;
    let mut done = false;
    while i < src.len() && out.len() < cap && !done
        invariant
            i <= src.len(),
            !done ==> count < limit,
            !done ==> summary_from(src@, i as int, cap as int, limit as int, saw_space, count as int, out@)
                == summary_from(src@, 0, cap as int, limit as int, true, 0, Seq::empty()),
            done ==> out@ == summary_from(src@, 0, cap as int, limit as int, true, 0, Seq::empty()),
        decreases src.len() - i, if done { 0int } else { 1int },
    {
        let mut b = src[i];
        if b == 10u8 || b == 13u8 || b == 9u8 {
            b = 32u8;
        }
        if b == 32u8 {
            if !saw_space {
                out.push(b);
                saw_space = true;
            }
            i += 1;
        } else {
            out.push(b);
            saw_space = false;
            if b == 46u8 || b == 33u8 || b == 63u8 {
                count += 1;
                if count >= limit {
                    done = true;
                }
            }
            if !done {
                i += 1;
            }
        }
    }
    while out.len() > 0 && out[out.len() - 1] == 32u8
        invariant
            strip_spaces_end(out@) == spec_summary(src@, sentence_limit as int, cap as int),
        decreases out.len(),
    {
        let ghost before = out@;
        out.pop();
        assert(out@ =~= before.drop_last());
    }
    out
}

// ---------------------------------------------------------------------------
// Request and result bodies
// ---------------------------------------------------------------------------

/// The result posted to the sink: goal id and status, then the summary and the reason
/// when there are any.
pub open spec fn result_body(goal_id: Seq<u8>, status: Seq<u8>, summary: Seq<u8>, reason: Seq<u8>, cap: int) -> Seq<
    u8,
> {
    let a = esc(bounded_append(Seq::empty(), cap, seq![123u8, 34, 103, 111, 97, 108, 95, 105, 100, 34, 58, 34]), cap, goal_id);
    let b = esc(bounded_append(a, cap, seq![34u8, 44, 34, 115, 116, 97, 116, 117, 115, 34, 58, 34]), cap, status);
    let c = if summary.len() > 0 {
        esc(bounded_append(b, cap, seq![34u8, 44, 34, 115, 117, 109, 109, 97, 114, 121, 34, 58, 34]), cap, summary)
    } else {
        b
    };
    let d = if reason.len() > 0 {
        esc(bounded_append(c, cap, seq![34u8, 44, 34, 114, 101, 97, 115, 111, 110, 34, 58, 34]), cap, reason)
    } else {
        c
    };
    bounded_append(d, cap, seq![34u8, 125])
}

pub fn build_agent_result_body(goal_id: &[u8], status: &[u8], summary: &[u8], reason: &[u8], cap: usize) -> (r: Vec<
    u8,
>)
    ensures
        r@ == result_body(goal_id@, status@, summary@, reason@, cap as int),
{
    let head: &[u8] = &[123u8, 34, 103, 111, 97, 108, 95, 105, 100, 34, 58, 34];
    let mid: &[u8] = &[34u8, 44, 34, 115, 116, 97, 116, 117, 115, 34, 58, 34];
    let sh: &[u8] = &[34u8, 44, 34, 115, 117, 109, 109, 97, 114, 121, 34, 58, 34];
    let rh: &[u8] = &[34u8, 44, 34, 114, 101, 97, 115, 111, 110, 34, 58, 34];
    let tail: &[u8] = &[34u8, 125];
    assert(head@ =~= seq![123u8, 34, 103, 111, 97, 108, 95, 105, 100, 34, 58, 34]);
    assert(mid@ =~= seq![34u8, 44, 34, 115, 116, 97, 116, 117, 115, 34, 58, 34]);
    assert(sh@ =~= seq![34u8, 44, 34, 115, 117, 109, 109, 97, 114, 121, 34, 58, 34]);
    assert(rh@ =~= seq![34u8, 44, 34, 114, 101, 97, 115, 111, 110, 34, 58, 34]);
    assert(tail@ =~= seq![34u8, 125]);
    let mut out: Vec<u8> = Vec::new();
    append_bytes(&mut out, cap, head);
    json_escape_append(&mut out, cap, goal_id);
    append_bytes(&mut out, cap, mid);
    json_escape_append(&mut out, cap, status);
    if summary.len() > 0 {
        append_bytes(&mut out, cap, sh);
        json_escape_append(&mut out, cap, summary);
    }
    if reason.len() > 0 {
        append_bytes(&mut out, cap, rh);
        json_escape_append(&mut out, cap, reason);
    }
    append_bytes(&mut out, cap, tail);
    out
}

/// The body sent to a summarising model gateway.
pub open spec fn model_request_body(source: Seq<u8>, max_items: u64, cap: int) -> Seq<u8> {
    let a = esc(bounded_append(Seq::empty(), cap, seq![123u8, 34, 115, 111, 117, 114, 99, 101, 95, 116, 101, 120, 116, 34, 58, 34]), cap, source);
    let b = bounded_append(bounded_append(a, cap, seq![34u8, 44, 34, 109, 97, 120, 95, 105, 116, 101, 109, 115, 34, 58]), cap, dec_digits(max_items as nat));
    bounded_append(b, cap, seq![125u8])
}

pub fn build_model_request_body(source: &[u8], max_items: u64, cap: usize) -> (r: Vec<u8>)
    ensures
        r@ == model_request_body(source@, max_items, cap as int),
{
    let head: &[u8] = &[123u8, 34, 115, 111, 117, 114, 99, 101, 95, 116, 101, 120, 116, 34, 58, 34];
    let mid: &[u8] = &[34u8, 44, 34, 109, 97, 120, 95, 105, 116, 101, 109, 115, 34, 58];
    let tail: &[u8] = &[125u8];
    assert(head@ =~= seq![123u8, 34, 115, 111, 117, 114, 99, 101, 95, 116, 101, 120, 116, 34, 58, 34]);
    assert(mid@ =~= seq![34u8, 44, 34, 109, 97, 120, 95, 105, 116, 101, 109, 115, 34, 58]);
    assert(tail@ =~= seq![125u8]);
    let mut out: Vec<u8> = Vec::new();
    append_bytes(&mut out, cap, head);
    json_escape_append(&mut out, cap, source);
    append_bytes(&mut out, cap, mid);
    crate::bytes::append_u64_dec(&mut out, cap, max_items);
    append_bytes(&mut out, cap, tail);
    out
}

/// The body sent to a goal interpretation gateway.
pub open spec fn goal_interpretation_body(goal: Seq<u8>, cap: int) -> Seq<u8> {
    bounded_append(esc(bounded_append(Seq::empty(), cap, seq![123u8, 34, 103, 111, 97, 108, 95, 116, 101, 120, 116, 34, 58, 34]), cap, goal), cap, seq![34u8, 125])
}

pub fn build_goal_interpretation_request_body(goal: &[u8], cap: usize) -> (r: Vec<u8>)
    ensures
        r@ == goal_interpretation_body(goal@, cap as int),
{
    let head: &[u8] = &[123u8, 34, 103, 111, 97, 108, 95, 116, 101, 120, 116, 34, 58, 34];
    let tail: &[u8] = &[34u8, 125];
    assert(head@ =~= seq![123u8, 34, 103, 111, 97, 108, 95, 116, 101, 120, 116, 34, 58, 34]);
    assert(tail@ =~= seq![34u8, 125]);
    let mut out: Vec<u8> = Vec::new();
    append_bytes(&mut out, cap, head);
    json_escape_append(&mut out, cap, goal);
    append_bytes(&mut out, cap, tail);
    out
}

pub open spec fn interpretation_instructions() -> Seq<u8> {
    seq![89u8, 111, 117, 32, 97, 114, 101, 32, 116, 104, 101, 32, 105, 110, 45, 103, 117, 101, 115, 116, 32, 103, 111, 97, 108, 32, 105, 110, 116, 101, 114, 112, 114, 101, 116, 101, 114, 32, 102, 111, 114, 32, 77, 105, 110, 105, 65, 103, 101, 110, 116, 79, 83, 46, 32, 83, 117, 112, 112, 111, 114, 116, 101, 100, 32, 103, 111, 97, 108, 115, 32, 97, 114, 101, 32, 108, 105, 109, 105, 116, 101, 100, 32, 116, 111, 32, 116, 119, 111, 32, 102, 97, 109, 105, 108, 105, 101, 115, 58, 32, 40, 49, 41, 32, 115, 117, 109, 109, 97, 114, 105, 122, 101, 32, 111, 110, 101, 32, 85, 82, 76, 32, 100, 105, 114, 101, 99, 116, 108, 121, 32, 102, 111, 114, 32, 116, 104, 101, 32, 117, 115, 101, 114, 44, 32, 40, 50, 41, 32, 115, 117, 109, 109, 97, 114, 105, 122, 101, 32, 111, 110, 101, 32, 85, 82, 76, 32, 97, 110, 100, 32, 112, 111, 115, 116, 32, 116, 104, 101, 32, 114, 101, 115, 117, 108, 116, 32, 116, 111, 32, 111, 110, 101, 32, 115, 105, 110, 107, 32, 85, 82, 76, 46, 32, 82, 101, 116, 117, 114, 110, 32, 111, 110, 108, 121, 32, 99, 111, 109, 112, 97, 99, 116, 32, 74, 83, 79, 78, 46, 32, 68, 105, 114, 101, 99, 116, 32, 115, 117, 109, 109, 97, 114, 121, 32, 61, 62, 32, 123, 34, 115, 116, 97, 116, 117, 115, 34, 58, 34, 111, 107, 34, 44, 34, 97, 99, 116, 105, 111, 110, 34, 58, 34, 108, 111, 99, 97, 108, 95, 115, 117, 109, 109, 97, 114, 121, 34, 44, 34, 115, 111, 117, 114, 99, 101, 95, 117, 114, 108, 34, 58, 34, 46, 46, 46, 34, 44, 34, 109, 97, 120, 95, 105, 116, 101, 109, 115, 34, 58, 51, 44, 34, 111, 117, 116, 112, 117, 116, 95, 108, 97, 110, 103, 117, 97, 103, 101, 34, 58, 34, 122, 104, 34, 44, 34, 115, 116, 121, 108, 101, 34, 58, 34, 98, 117, 108, 108, 101, 116, 34, 125, 46, 32, 80, 111, 115, 116, 101, 100, 32, 115, 117, 109, 109, 97, 114, 121, 32, 61, 62, 32, 123, 34, 115, 116, 97, 116, 117, 115, 34, 58, 34, 111, 107, 34, 44, 34, 97, 99, 116, 105, 111, 110, 34, 58, 34, 112, 111, 115, 116, 95, 115, 117, 109, 109, 97, 114, 121, 34, 44, 34, 115, 111, 117, 114, 99, 101, 95, 117, 114, 108, 34, 58, 34, 46, 46, 46, 34, 44, 34, 115, 105, 110, 107, 95, 117, 114, 108, 34, 58, 34, 46, 46, 46, 34, 44, 34, 109, 97, 120, 95, 105, 116, 101, 109, 115, 34, 58, 51, 44, 34, 111, 117, 116, 112, 117, 116, 95, 108, 97, 110, 103, 117, 97, 103, 101, 34, 58, 34, 122, 104, 34, 44, 34, 115, 116, 121, 108, 101, 34, 58, 34, 98, 117, 108, 108, 101, 116, 34, 125, 46, 32, 73, 102, 32, 110, 111, 32, 101, 120, 112, 108, 105, 99, 105, 116, 32, 111, 117, 116, 112, 117, 116, 32, 108, 97, 110, 103, 117, 97, 103, 101, 32, 105, 115, 32, 114, 101, 113, 117, 101, 115, 116, 101, 100, 44, 32, 117, 115, 101, 32, 34, 100, 101, 102, 97, 117, 108, 116, 34, 46, 32, 73, 102, 32, 117, 110, 115, 117, 112, 112, 111, 114, 116, 101, 100, 32, 61, 62, 32, 123, 34, 115, 116, 97, 116, 117, 115, 34, 58, 34, 101, 114, 114, 111, 114, 34, 44, 34, 114, 101, 97, 115, 111, 110, 34, 58, 34, 117, 110, 115, 117, 112, 112, 111, 114, 116, 101, 100, 32, 103, 111, 97, 108, 34, 125, 46, 32, 84, 114, 101, 97, 116, 32, 98, 117, 108, 108, 101, 116, 32, 112, 111, 105, 110, 116, 32, 116, 97, 107, 101, 97, 119, 97, 121, 115, 32, 97, 110, 100, 32, 107, 101, 121, 32, 112, 111, 105, 110, 116, 115, 32, 97, 115, 32, 115, 117, 109, 109, 97, 114, 121, 32, 114, 101, 113, 117, 101, 115, 116, 115, 46, 32, 80, 114, 101, 115, 101, 114, 118, 101, 32, 101, 120, 112, 108, 105, 99, 105, 116, 32, 111, 117, 116, 112, 117, 116, 32, 108, 97, 110, 103, 117, 97, 103, 101, 32, 97, 110, 100, 32, 111, 117, 116, 112, 117, 116, 32, 115, 116, 121, 108, 101, 32, 114, 101, 113, 117, 101, 115, 116, 115, 32, 97, 115, 32, 115, 116, 114, 117, 99, 116, 117, 114, 101, 100, 32, 102, 105, 101, 108, 100, 115, 46, 32, 73, 102, 32, 116, 104, 101, 32, 117, 115, 101, 114, 32, 103, 105, 118, 101, 115, 32, 97, 32, 98, 97, 114, 101, 32, 100, 111, 109, 97, 105, 110, 32, 111, 114, 32, 104, 111, 115, 116, 32, 119, 105, 116, 104, 111, 117, 116, 32, 97, 32, 115, 99, 104, 101, 109, 101, 44, 32, 110, 111, 114, 109, 97, 108, 105, 122, 101, 32, 105, 116, 32, 116, 111, 32, 97, 110, 32, 104, 116, 116, 112, 115, 58, 47, 47, 32, 85, 82, 76, 46, 32, 84, 111, 108, 101, 114, 97, 116, 101, 32, 109, 105, 110, 111, 114, 32, 116, 121, 112, 111, 115, 32, 115, 117, 99, 104, 32, 97, 115, 32, 39, 115, 117, 109, 109, 117, 114, 121, 39, 32, 119, 104, 101, 110, 32, 116, 104, 101, 32, 105, 110, 116, 101, 110, 116, 32, 105, 115, 32, 99, 108, 101, 97, 114, 108, 121, 32, 116, 111, 32, 115, 117, 109, 109, 97, 114, 105, 122, 101, 46]
}

/// The Responses API request that asks the model to read a goal as JSON.
pub open spec fn openai_interpretation_body(model: Seq<u8>, goal: Seq<u8>, cap: int) -> Seq<u8> {
    let a = esc(bounded_append(Seq::empty(), cap, seq![123u8, 34, 109, 111, 100, 101, 108, 34, 58, 34]), cap, model);
    let b = esc(bounded_append(a, cap, seq![34u8, 44, 34, 105, 110, 115, 116, 114, 117, 99, 116, 105, 111, 110, 115, 34, 58, 34]), cap, interpretation_instructions());
    let c = esc(bounded_append(b, cap, seq![34u8, 44, 34, 105, 110, 112, 117, 116, 34, 58, 34]), cap, goal);
    bounded_append(c, cap, seq![34u8, 44, 34, 114, 101, 97, 115, 111, 110, 105, 110, 103, 34, 58, 123, 34, 101, 102, 102, 111, 114, 116, 34, 58, 34, 109, 105, 110, 105, 109, 97, 108, 34, 125, 44, 34, 109, 97, 120, 95, 111, 117, 116, 112, 117, 116, 95, 116, 111, 107, 101, 110, 115, 34, 58, 50, 52, 48, 125])
}

pub fn build_openai_interpretation_request_body(model: &[u8], goal: &[u8], cap: usize) -> (r: Vec<u8>)
    ensures
        r@ == openai_interpretation_body(model@, goal@, cap as int),
{
    let a: &[u8] = &[123u8, 34, 109, 111, 100, 101, 108, 34, 58, 34];
    let b: &[u8] = &[34u8, 44, 34, 105, 110, 115, 116, 114, 117, 99, 116, 105, 111, 110, 115, 34, 58, 34];
    let c: &[u8] = &[34u8, 44, 34, 105, 110, 112, 117, 116, 34, 58, 34];
    let d: &[u8] = &[34u8, 44, 34, 114, 101, 97, 115, 111, 110, 105, 110, 103, 34, 58, 123, 34, 101, 102, 102, 111, 114, 116, 34, 58, 34, 109, 105, 110, 105, 109, 97, 108, 34, 125, 44, 34, 109, 97, 120, 95, 111, 117, 116, 112, 117, 116, 95, 116, 111, 107, 101, 110, 115, 34, 58, 50, 52, 48, 125];
    let ins: &[u8] = &[89u8, 111, 117, 32, 97, 114, 101, 32, 116, 104, 101, 32, 105, 110, 45, 103, 117, 101, 115, 116, 32, 103, 111, 97, 108, 32, 105, 110, 116, 101, 114, 112, 114, 101, 116, 101, 114, 32, 102, 111, 114, 32, 77, 105, 110, 105, 65, 103, 101, 110, 116, 79, 83, 46, 32, 83, 117, 112, 112, 111, 114, 116, 101, 100, 32, 103, 111, 97, 108, 115, 32, 97, 114, 101, 32, 108, 105, 109, 105, 116, 101, 100, 32, 116, 111, 32, 116, 119, 111, 32, 102, 97, 109, 105, 108, 105, 101, 115, 58, 32, 40, 49, 41, 32, 115, 117, 109, 109, 97, 114, 105, 122, 101, 32, 111, 110, 101, 32, 85, 82, 76, 32, 100, 105, 114, 101, 99, 116, 108, 121, 32, 102, 111, 114, 32, 116, 104, 101, 32, 117, 115, 101, 114, 44, 32, 40, 50, 41, 32, 115, 117, 109, 109, 97, 114, 105, 122, 101, 32, 111, 110, 101, 32, 85, 82, 76, 32, 97, 110, 100, 32, 112, 111, 115, 116, 32, 116, 104, 101, 32, 114, 101, 115, 117, 108, 116, 32, 116, 111, 32, 111, 110, 101, 32, 115, 105, 110, 107, 32, 85, 82, 76, 46, 32, 82, 101, 116, 117, 114, 110, 32, 111, 110, 108, 121, 32, 99, 111, 109, 112, 97, 99, 116, 32, 74, 83, 79, 78, 46, 32, 68, 105, 114, 101, 99, 116, 32, 115, 117, 109, 109, 97, 114, 121, 32, 61, 62, 32, 123, 34, 115, 116, 97, 116, 117, 115, 34, 58, 34, 111, 107, 34, 44, 34, 97, 99, 116, 105, 111, 110, 34, 58, 34, 108, 111, 99, 97, 108, 95, 115, 117, 109, 109, 97, 114, 121, 34, 44, 34, 115, 111, 117, 114, 99, 101, 95, 117, 114, 108, 34, 58, 34, 46, 46, 46, 34, 44, 34, 109, 97, 120, 95, 105, 116, 101, 109, 115, 34, 58, 51, 44, 34, 111, 117, 116, 112, 117, 116, 95, 108, 97, 110, 103, 117, 97, 103, 101, 34, 58, 34, 122, 104, 34, 44, 34, 115, 116, 121, 108, 101, 34, 58, 34, 98, 117, 108, 108, 101, 116, 34, 125, 46, 32, 80, 111, 115, 116, 101, 100, 32, 115, 117, 109, 109, 97, 114, 121, 32, 61, 62, 32, 123, 34, 115, 116, 97, 116, 117, 115, 34, 58, 34, 111, 107, 34, 44, 34, 97, 99, 116, 105, 111, 110, 34, 58, 34, 112, 111, 115, 116, 95, 115, 117, 109, 109, 97, 114, 121, 34, 44, 34, 115, 111, 117, 114, 99, 101, 95, 117, 114, 108, 34, 58, 34, 46, 46, 46, 34, 44, 34, 115, 105, 110, 107, 95, 117, 114, 108, 34, 58, 34, 46, 46, 46, 34, 44, 34, 109, 97, 120, 95, 105, 116, 101, 109, 115, 34, 58, 51, 44, 34, 111, 117, 116, 112, 117, 116, 95, 108, 97, 110, 103, 117, 97, 103, 101, 34, 58, 34, 122, 104, 34, 44, 34, 115, 116, 121, 108, 101, 34, 58, 34, 98, 117, 108, 108, 101, 116, 34, 125, 46, 32, 73, 102, 32, 110, 111, 32, 101, 120, 112, 108, 105, 99, 105, 116, 32, 111, 117, 116, 112, 117, 116, 32, 108, 97, 110, 103, 117, 97, 103, 101, 32, 105, 115, 32, 114, 101, 113, 117, 101, 115, 116, 101, 100, 44, 32, 117, 115, 101, 32, 34, 100, 101, 102, 97, 117, 108, 116, 34, 46, 32, 73, 102, 32, 117, 110, 115, 117, 112, 112, 111, 114, 116, 101, 100, 32, 61, 62, 32, 123, 34, 115, 116, 97, 116, 117, 115, 34, 58, 34, 101, 114, 114, 111, 114, 34, 44, 34, 114, 101, 97, 115, 111, 110, 34, 58, 34, 117, 110, 115, 117, 112, 112, 111, 114, 116, 101, 100, 32, 103, 111, 97, 108, 34, 125, 46, 32, 84, 114, 101, 97, 116, 32, 98, 117, 108, 108, 101, 116, 32, 112, 111, 105, 110, 116, 32, 116, 97, 107, 101, 97, 119, 97, 121, 115, 32, 97, 110, 100, 32, 107, 101, 121, 32, 112, 111, 105, 110, 116, 115, 32, 97, 115, 32, 115, 117, 109, 109, 97, 114, 121, 32, 114, 101, 113, 117, 101, 115, 116, 115, 46, 32, 80, 114, 101, 115, 101, 114, 118, 101, 32, 101, 120, 112, 108, 105, 99, 105, 116, 32, 111, 117, 116, 112, 117, 116, 32, 108, 97, 110, 103, 117, 97, 103, 101, 32, 97, 110, 100, 32, 111, 117, 116, 112, 117, 116, 32, 115, 116, 121, 108, 101, 32, 114, 101, 113, 117, 101, 115, 116, 115, 32, 97, 115, 32, 115, 116, 114, 117, 99, 116, 117, 114, 101, 100, 32, 102, 105, 101, 108, 100, 115, 46, 32, 73, 102, 32, 116, 104, 101, 32, 117, 115, 101, 114, 32, 103, 105, 118, 101, 115, 32, 97, 32, 98, 97, 114, 101, 32, 100, 111, 109, 97, 105, 110, 32, 111, 114, 32, 104, 111, 115, 116, 32, 119, 105, 116, 104, 111, 117, 116, 32, 97, 32, 115, 99, 104, 101, 109, 101, 44, 32, 110, 111, 114, 109, 97, 108, 105, 122, 101, 32, 105, 116, 32, 116, 111, 32, 97, 110, 32, 104, 116, 116, 112, 115, 58, 47, 47, 32, 85, 82, 76, 46, 32, 84, 111, 108, 101, 114, 97, 116, 101, 32, 109, 105, 110, 111, 114, 32, 116, 121, 112, 111, 115, 32, 115, 117, 99, 104, 32, 97, 115, 32, 39, 115, 117, 109, 109, 117, 114, 121, 39, 32, 119, 104, 101, 110, 32, 116, 104, 101, 32, 105, 110, 116, 101, 110, 116, 32, 105, 115, 32, 99, 108, 101, 97, 114, 108, 121, 32, 116, 111, 32, 115, 117, 109, 109, 97, 114, 105, 122, 101, 46];
    assert(a@ =~= seq![123u8, 34, 109, 111, 100, 101, 108, 34, 58, 34]);
    assert(b@ =~= seq![34u8, 44, 34, 105, 110, 115, 116, 114, 117, 99, 116, 105, 111, 110, 115, 34, 58, 34]);
    assert(c@ =~= seq![34u8, 44, 34, 105, 110, 112, 117, 116, 34, 58, 34]);
    assert(d@ =~= seq![34u8, 44, 34, 114, 101, 97, 115, 111, 110, 105, 110, 103, 34, 58, 123, 34, 101, 102, 102, 111, 114, 116, 34, 58, 34, 109, 105, 110, 105, 109, 97, 108, 34, 125, 44, 34, 109, 97, 120, 95, 111, 117, 116, 112, 117, 116, 95, 116, 111, 107, 101, 110, 115, 34, 58, 50, 52, 48, 125]);
    assert(ins@ =~= interpretation_instructions());
    let mut out: Vec<u8> = Vec::new();
    append_bytes(&mut out, cap, a);
    json_escape_append(&mut out, cap, model);
    append_bytes(&mut out, cap, b);
    json_escape_append(&mut out, cap, ins);
    append_bytes(&mut out, cap, c);
    json_escape_append(&mut out, cap, goal);
    append_bytes(&mut out, cap, d);
    out
}

/// The Responses API request for a summary of at most `max_items` points of the first
/// `SUMMARY_SOURCE_LIMIT` bytes of `source`, in the given language and style (`default`
/// and `bullet` when empty).
pub open spec fn openai_summary_body(
    model: Seq<u8>,
    max_items: u64,
    language: Seq<u8>,
    style: Seq<u8>,
    goal: Seq<u8>,
    source: Seq<u8>,
    cap: int,
) -> Seq<u8> {
    let a = esc(bounded_append(Seq::empty(), cap, seq![123u8, 34, 109, 111, 100, 101, 108, 34, 58, 34]), cap, model);
    let b = bounded_append(
        bounded_append(a, cap, seq![34u8, 44, 34, 105, 110, 115, 116, 114, 117, 99, 116, 105, 111, 110, 115, 34, 58, 34]),
        cap,
        seq![89u8, 111, 117, 32, 97, 114, 101, 32, 116, 104, 101, 32, 105, 110, 45, 103, 117, 101, 115, 116, 32, 115, 117, 109, 109, 97, 114, 121, 32, 101, 110, 103, 105, 110, 101, 32, 102, 111, 114, 32, 77, 105, 110, 105, 65, 103, 101, 110, 116, 79, 83, 46, 32, 83, 117, 109, 109, 97, 114, 105, 122, 101, 32, 116, 104, 101, 32, 112, 114, 111, 118, 105, 100, 101, 100, 32, 115, 111, 117, 114, 99, 101, 32, 105, 110, 116, 111, 32, 97, 116, 32, 109, 111, 115, 116, 32],
    );
    let c = bounded_append(
        bounded_append(b, cap, dec_digits(max_items as nat)),
        cap,
        seq![32u8, 99, 111, 110, 99, 105, 115, 101, 32, 98, 117, 108, 108, 101, 116, 32, 112, 111, 105, 110, 116, 115, 46, 32, 85, 115, 101, 32, 116, 104, 101, 32, 115, 116, 114, 117, 99, 116, 117, 114, 101, 100, 32, 111, 117, 116, 112, 117, 116, 32, 108, 97, 110, 103, 117, 97, 103, 101, 32, 97, 110, 100, 32, 115, 116, 121, 108, 101, 32, 104, 105, 110, 116, 115, 32, 112, 114, 111, 118, 105, 100, 101, 100, 32, 98, 101, 108, 111, 119, 46, 32, 82, 101, 116, 117, 114, 110, 32, 111, 110, 108, 121, 32, 116, 104, 101, 32, 102, 105, 110, 97, 108, 32, 115, 117, 109, 109, 97, 114, 121, 32, 97, 115, 32, 112, 108, 97, 105, 110, 32, 116, 101, 120, 116, 46, 34, 44, 34, 105, 110, 112, 117, 116, 34, 58, 34],
    );
    let d = esc(
        bounded_append(c, cap, seq![79u8, 117, 116, 112, 117, 116, 32, 108, 97, 110, 103, 117, 97, 103, 101, 58, 32]),
        cap,
        if language.len() > 0 {
            language
        } else {
            seq![100u8, 101, 102, 97, 117, 108, 116]
        },
    );
    let e = esc(
        bounded_append(d, cap, seq![92u8, 110, 79, 117, 116, 112, 117, 116, 32, 115, 116, 121, 108, 101, 58, 32]),
        cap,
        if style.len() > 0 {
            style
        } else {
            seq![98u8, 117, 108, 108, 101, 116]
        },
    );
    let f = esc(bounded_append(e, cap, seq![92u8, 110, 79, 114, 105, 103, 105, 110, 97, 108, 32, 103, 111, 97, 108, 58, 32]), cap, goal);
    let g = esc(
        bounded_append(f, cap, seq![92u8, 110, 92, 110, 83, 111, 117, 114, 99, 101, 58, 92, 110]),
        cap,
        source.take(crate::bytes::min_int(source.len() as int, SUMMARY_SOURCE_LIMIT as int)),
    );
    bounded_append(g, cap, seq![34u8, 44, 34, 114, 101, 97, 115, 111, 110, 105, 110, 103, 34, 58, 123, 34, 101, 102, 102, 111, 114, 116, 34, 58, 34, 109, 105, 110, 105, 109, 97, 108, 34, 125, 44, 34, 109, 97, 120, 95, 111, 117, 116, 112, 117, 116, 95, 116, 111, 107, 101, 110, 115, 34, 58, 50, 50, 48, 125])
}

pub fn build_openai_summary_request_body(
    model: &[u8],
    max_items: u64,
    language: &[u8],
    style: &[u8],
    goal: &[u8],
    source: &[u8],
    cap: usize,
) -> (r: Vec<u8>)
    ensures
        r@ == openai_summary_body(model@, max_items, language@, style@, goal@, source@, cap as int),
{
    let p1: &[u8] = &[123u8, 34, 109, 111, 100, 101, 108, 34, 58, 34];
    let p2: &[u8] = &[34u8, 44, 34, 105, 110, 115, 116, 114, 117, 99, 116, 105, 111, 110, 115, 34, 58, 34];
    let p3: &[u8] = &[89u8, 111, 117, 32, 97, 114, 101, 32, 116, 104, 101, 32, 105, 110, 45, 103, 117, 101, 115, 116, 32, 115, 117, 109, 109, 97, 114, 121, 32, 101, 110, 103, 105, 110, 101, 32, 102, 111, 114, 32, 77, 105, 110, 105, 65, 103, 101, 110, 116, 79, 83, 46, 32, 83, 117, 109, 109, 97, 114, 105, 122, 101, 32, 116, 104, 101, 32, 112, 114, 111, 118, 105, 100, 101, 100, 32, 115, 111, 117, 114, 99, 101, 32, 105, 110, 116, 111, 32, 97, 116, 32, 109, 111, 115, 116, 32];
    let p4: &[u8] = &[32u8, 99, 111, 110, 99, 105, 115, 101, 32, 98, 117, 108, 108, 101, 116, 32, 112, 111, 105, 110, 116, 115, 46, 32, 85, 115, 101, 32, 116, 104, 101, 32, 115, 116, 114, 117, 99, 116, 117, 114, 101, 100, 32, 111, 117, 116, 112, 117, 116, 32, 108, 97, 110, 103, 117, 97, 103, 101, 32, 97, 110, 100, 32, 115, 116, 121, 108, 101, 32, 104, 105, 110, 116, 115, 32, 112, 114, 111, 118, 105, 100, 101, 100, 32, 98, 101, 108, 111, 119, 46, 32, 82, 101, 116, 117, 114, 110, 32, 111, 110, 108, 121, 32, 116, 104, 101, 32, 102, 105, 110, 97, 108, 32, 115, 117, 109, 109, 97, 114, 121, 32, 97, 115, 32, 112, 108, 97, 105, 110, 32, 116, 101, 120, 116, 46, 34, 44, 34, 105, 110, 112, 117, 116, 34, 58, 34];
    let p5: &[u8] = &[79u8, 117, 116, 112, 117, 116, 32, 108, 97, 110, 103, 117, 97, 103, 101, 58, 32];
    let p6: &[u8] = &[92u8, 110, 79, 117, 116, 112, 117, 116, 32, 115, 116, 121, 108, 101, 58, 32];
    let p7: &[u8] = &[92u8, 110, 79, 114, 105, 103, 105, 110, 97, 108, 32, 103, 111, 97, 108, 58, 32];
    let p8: &[u8] = &[92u8, 110, 92, 110, 83, 111, 117, 114, 99, 101, 58, 92, 110];
    let p9: &[u8] = &[34u8, 44, 34, 114, 101, 97, 115, 111, 110, 105, 110, 103, 34, 58, 123, 34, 101, 102, 102, 111, 114, 116, 34, 58, 34, 109, 105, 110, 105, 109, 97, 108, 34, 125, 44, 34, 109, 97, 120, 95, 111, 117, 116, 112, 117, 116, 95, 116, 111, 107, 101, 110, 115, 34, 58, 50, 50, 48, 125];
    let dl: &[u8] = &[100u8, 101, 102, 97, 117, 108, 116];
    let bs: &[u8] = &[98u8, 117, 108, 108, 101, 116];
    assert(p1@ =~= seq![123u8, 34, 109, 111, 100, 101, 108, 34, 58, 34]);
    assert(p2@ =~= seq![34u8, 44, 34, 105, 110, 115, 116, 114, 117, 99, 116, 105, 111, 110, 115, 34, 58, 34]);
    assert(p3@ =~= seq![89u8, 111, 117, 32, 97, 114, 101, 32, 116, 104, 101, 32, 105, 110, 45, 103, 117, 101, 115, 116, 32, 115, 117, 109, 109, 97, 114, 121, 32, 101, 110, 103, 105, 110, 101, 32, 102, 111, 114, 32, 77, 105, 110, 105, 65, 103, 101, 110, 116, 79, 83, 46, 32, 83, 117, 109, 109, 97, 114, 105, 122, 101, 32, 116, 104, 101, 32, 112, 114, 111, 118, 105, 100, 101, 100, 32, 115, 111, 117, 114, 99, 101, 32, 105, 110, 116, 111, 32, 97, 116, 32, 109, 111, 115, 116, 32]);
    assert(p4@ =~= seq![32u8, 99, 111, 110, 99, 105, 115, 101, 32, 98, 117, 108, 108, 101, 116, 32, 112, 111, 105, 110, 116, 115, 46, 32, 85, 115, 101, 32, 116, 104, 101, 32, 115, 116, 114, 117, 99, 116, 117, 114, 101, 100, 32, 111, 117, 116, 112, 117, 116, 32, 108, 97, 110, 103, 117, 97, 103, 101, 32, 97, 110, 100, 32, 115, 116, 121, 108, 101, 32, 104, 105, 110, 116, 115, 32, 112, 114, 111, 118, 105, 100, 101, 100, 32, 98, 101, 108, 111, 119, 46, 32, 82, 101, 116, 117, 114, 110, 32, 111, 110, 108, 121, 32, 116, 104, 101, 32, 102, 105, 110, 97, 108, 32, 115, 117, 109, 109, 97, 114, 121, 32, 97, 115, 32, 112, 108, 97, 105, 110, 32, 116, 101, 120, 116, 46, 34, 44, 34, 105, 110, 112, 117, 116, 34, 58, 34]);
    assert(p5@ =~= seq![79u8, 117, 116, 112, 117, 116, 32, 108, 97, 110, 103, 117, 97, 103, 101, 58, 32]);
    assert(p6@ =~= seq![92u8, 110, 79, 117, 116, 112, 117, 116, 32, 115, 116, 121, 108, 101, 58, 32]);
    assert(p7@ =~= seq![92u8, 110, 79, 114, 105, 103, 105, 110, 97, 108, 32, 103, 111, 97, 108, 58, 32]);
    assert(p8@ =~= seq![92u8, 110, 92, 110, 83, 111, 117, 114, 99, 101, 58, 92, 110]);
    assert(p9@ =~= seq![34u8, 44, 34, 114, 101, 97, 115, 111, 110, 105, 110, 103, 34, 58, 123, 34, 101, 102, 102, 111, 114, 116, 34, 58, 34, 109, 105, 110, 105, 109, 97, 108, 34, 125, 44, 34, 109, 97, 120, 95, 111, 117, 116, 112, 117, 116, 95, 116, 111, 107, 101, 110, 115, 34, 58, 50, 50, 48, 125]);
    assert(dl@ =~= seq![100u8, 101, 102, 97, 117, 108, 116]);
    assert(bs@ =~= seq![98u8, 117, 108, 108, 101, 116]);
    let mut out: Vec<u8> = Vec::new();
    append_bytes(&mut out, cap, p1);
    json_escape_append(&mut out, cap, model);
    append_bytes(&mut out, cap, p2);
    append_bytes(&mut out, cap, p3);
    crate::bytes::append_u64_dec(&mut out, cap, max_items);
    append_bytes(&mut out, cap, p4);
    append_bytes(&mut out, cap, p5);
    json_escape_append(&mut out, cap, if language.len() > 0 {
        language
    } else {
        dl
    });
    append_bytes(&mut out, cap, p6);
    json_escape_append(&mut out, cap, if style.len() > 0 {
        style
    } else {
        bs
    });
    append_bytes(&mut out, cap, p7);
    json_escape_append(&mut out, cap, goal);
    append_bytes(&mut out, cap, p8);
    let n = if source.len() > SUMMARY_SOURCE_LIMIT {
        SUMMARY_SOURCE_LIMIT
    } else {
        source.len()
    };
    let src = vstd::slice::slice_subrange(source, 0, n);
    assert(src@ =~= source@.take(crate::bytes::min_int(source.len() as int, SUMMARY_SOURCE_LIMIT as int)));
    json_escape_append(&mut out, cap, src);
    append_bytes(&mut out, cap, p9);
    out
}

} // verus!

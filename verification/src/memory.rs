use vstd::prelude::*;
use crate::bytes::append_bytes;
use crate::bytes::bounded_append;
use crate::bytes::dec_digits;
use crate::bytes::matches_at;
use crate::session::utf8_prefix;

verus! {

pub const MEMORY_SLOT_COUNT: usize = 5;
pub const MEMORY_ID_MAX: usize = 24;
pub const MEMORY_SUMMARY_MAX: usize = 192;
pub const MEMORY_DETAIL_MAX: usize = 512;
pub const MEMORY_SOURCE_MAX: usize = 128;
pub const COMPACTION_TRIGGER_CHARS: usize = 240;
pub const COMPACTION_EXCERPT_MAX: usize = 192;

pub const KIND_NONE: u8 = 0;
pub const KIND_TASK: u8 = 1;
pub const KIND_SOURCE: u8 = 2;
pub const KIND_WORKSPACE: u8 = 3;
pub const KIND_EXECUTION: u8 = 4;
pub const KIND_CONVERSATION: u8 = 5;

pub const STATE_NONE: u8 = 0;
pub const STATE_RAW: u8 = 1;
pub const STATE_COMPACTED: u8 = 2;
pub const STATE_DERIVED: u8 = 3;

pub const SLOT_TASK: usize = 0;
pub const SLOT_SOURCE: usize = 1;
pub const SLOT_WORKSPACE: usize = 2;
pub const SLOT_EXECUTION: usize = 3;
pub const SLOT_CONVERSATION: usize = 4;

/// Tokens a text of `chars` bytes is reckoned to take: a quarter, rounded up.
pub open spec fn spec_estimate_tokens(chars: int) -> int {
    if chars == 0 {
        0
    } else {
        (chars + 3) / 4
    }
}

pub fn estimate_tokens(chars: usize) -> (r: usize)
    ensures
        r == spec_estimate_tokens(chars as int),
{
    if chars == 0 {
        0
    } else {
        chars / 4 + if chars % 4 == 0 {
            0
        } else {
            1
        }
    }
}

pub open spec fn spec_slot_id(slot: int) -> Seq<u8> {
    if slot == SLOT_TASK {
        seq![109u8, 101, 109, 45, 116, 97, 115, 107]
    } else if slot == SLOT_SOURCE {
        seq![109u8, 101, 109, 45, 115, 111, 117, 114, 99, 101]
    } else if slot == SLOT_WORKSPACE {
        seq![109u8, 101, 109, 45, 119, 111, 114, 107, 115, 112, 97, 99, 101]
    } else if slot == SLOT_EXECUTION {
        seq![109u8, 101, 109, 45, 101, 120, 101, 99, 117, 116, 105, 111, 110]
    } else if slot == SLOT_CONVERSATION {
        seq![109u8, 101, 109, 45, 99, 111, 110, 118, 101, 114, 115, 97, 116, 105, 111, 110]
    } else {
        seq![109u8, 101, 109, 45, 117, 110, 107, 110, 111, 119, 110]
    }
}

/// The fixed identifier of a memory slot.
pub fn slot_id_bytes(slot: usize) -> (r: &'static [u8])
    ensures
        r@ == spec_slot_id(slot as int),
{
    let r: &'static [u8] = if slot == SLOT_TASK {
        &[109u8, 101, 109, 45, 116, 97, 115, 107]
    } else if slot == SLOT_SOURCE {
        &[109u8, 101, 109, 45, 115, 111, 117, 114, 99, 101]
    } else if slot == SLOT_WORKSPACE {
        &[109u8, 101, 109, 45, 119, 111, 114, 107, 115, 112, 97, 99, 101]
    } else if slot == SLOT_EXECUTION {
        &[109u8, 101, 109, 45, 101, 120, 101, 99, 117, 116, 105, 111, 110]
    } else if slot == SLOT_CONVERSATION {
        &[109u8, 101, 109, 45, 99, 111, 110, 118, 101, 114, 115, 97, 116, 105, 111, 110]
    } else {
        &[109u8, 101, 109, 45, 117, 110, 107, 110, 111, 119, 110]
    };
    assert(r@ =~= spec_slot_id(slot as int));
    r
}

pub open spec fn spec_kind_name(kind: u8) -> Seq<u8> {
    if kind == KIND_TASK {
        seq![116u8, 97, 115, 107]
    } else if kind == KIND_SOURCE {
        seq![115u8, 111, 117, 114, 99, 101]
    } else if kind == KIND_WORKSPACE {
        seq![119u8, 111, 114, 107, 115, 112, 97, 99, 101]
    } else if kind == KIND_EXECUTION {
        seq![101u8, 120, 101, 99, 117, 116, 105, 111, 110]
    } else if kind == KIND_CONVERSATION {
        seq![99u8, 111, 110, 118, 101, 114, 115, 97, 116, 105, 111, 110]
    } else {
        seq![117u8, 110, 107, 110, 111, 119, 110]
    }
}

pub fn kind_name(kind: u8) -> (r: &'static [u8])
    ensures
        r@ == spec_kind_name(kind),
{
    let r: &'static [u8] = if kind == KIND_TASK {
        &[116u8, 97, 115, 107]
    } else if kind == KIND_SOURCE {
        &[115u8, 111, 117, 114, 99, 101]
    } else if kind == KIND_WORKSPACE {
        &[119u8, 111, 114, 107, 115, 112, 97, 99, 101]
    } else if kind == KIND_EXECUTION {
        &[101u8, 120, 101, 99, 117, 116, 105, 111, 110]
    } else if kind == KIND_CONVERSATION {
        &[99u8, 111, 110, 118, 101, 114, 115, 97, 116, 105, 111, 110]
    } else {
        &[117u8, 110, 107, 110, 111, 119, 110]
    };
    assert(r@ =~= spec_kind_name(kind));
    r
}

pub open spec fn spec_state_name(state: u8) -> Seq<u8> {
    if state == STATE_RAW {
        seq![114u8, 97, 119]
    } else if state == STATE_COMPACTED {
        seq![99u8, 111, 109, 112, 97, 99, 116, 101, 100]
    } else if state == STATE_DERIVED {
        seq![100u8, 101, 114, 105, 118, 101, 100]
    } else {
        seq![117u8, 110, 107, 110, 111, 119, 110]
    }
}

pub fn state_name(state: u8) -> (r: &'static [u8])
    ensures
        r@ == spec_state_name(state),
{
    let r: &'static [u8] = if state == STATE_RAW {
        &[114u8, 97, 119]
    } else if state == STATE_COMPACTED {
        &[99u8, 111, 109, 112, 97, 99, 116, 101, 100]
    } else if state == STATE_DERIVED {
        &[100u8, 101, 114, 105, 118, 101, 100]
    } else {
        &[117u8, 110, 107, 110, 111, 119, 110]
    };
    assert(r@ =~= spec_state_name(state));
    r
}

// ---------------------------------------------------------------------------
// Excerpts and summaries
// ---------------------------------------------------------------------------

/// Drops trailing `\n` bytes.
pub open spec fn strip_newlines(s: Seq<u8>) -> Seq<u8>
    decreases s.len(),
{
    if s.len() > 0 && s.last() == 10 {
        strip_newlines(s.drop_last())
    } else {
        s
    }
}

/// A summary of `text` in `cap` bytes: its UTF-8 prefix without trailing newlines.
pub open spec fn spec_summary_from_text(text: Seq<u8>, cap: int) -> Seq<u8> {
    strip_newlines(utf8_prefix(text, cap))
}

pub fn summary_from_text(text: &[u8], cap: usize) -> (r: Vec<u8>)
    ensures
        r@ == spec_summary_from_text(text@, cap as int),
{
    let mut out = crate::utf8::copy_utf8_prefix(cap, text);
    while out.len() != 0 && out[out.len() - 1] == 10u8
        invariant
            strip_newlines(out@) == spec_summary_from_text(text@, cap as int),
        decreases out.len(),
    {
        let ghost before = out@;
        out.pop();
        assert(out@ =~= before.drop_last());
    }
    out
}

pub open spec fn is_blank(b: u8) -> bool {
    b == 10 || b == 13 || b == 9 || b == 32
}

/// `raw[i..]` with each run of blanks turned into one space (none at the start), written
/// after `out` while it is shorter than `cap`.
pub open spec fn collapse_from(raw: Seq<u8>, i: int, cap: int, last_space: bool, out: Seq<u8>) -> Seq<u8>
    decreases raw.len() - i,
{
    if i < 0 || i >= raw.len() || out.len() >= cap {
        out
    } else if is_blank(raw[i]) {
        if !last_space {
            collapse_from(raw, i + 1, cap, true, out.push(32u8))
        } else {
            collapse_from(raw, i + 1, cap, last_space, out)
        }
    } else {
        collapse_from(raw, i + 1, cap, false, out.push(raw[i]))
    }
}

/// Drops trailing spaces, tabs and line breaks.
pub open spec fn strip_blanks_end(s: Seq<u8>) -> Seq<u8>
    decreases s.len(),
{
    if s.len() > 0 && is_blank(s.last()) {
        strip_blanks_end(s.drop_last())
    } else {
        s
    }
}

/// A one-line excerpt of `src` in `cap` bytes: its first `COMPACTION_EXCERPT_MAX` bytes
/// (cut at a UTF-8 boundary) with blanks collapsed and trimmed, and `...` when `src` was
/// longer and there is room for it.
pub open spec fn spec_excerpt(src: Seq<u8>, cap: int) -> Seq<u8> {
    let raw = utf8_prefix(src, COMPACTION_EXCERPT_MAX as int);
    let body = strip_blanks_end(collapse_from(raw, 0, cap, true, Seq::empty()));
    if src.len() > raw.len() && body.len() + 3 <= cap {
        body + seq![46u8, 46, 46]
    } else {
        body
    }
}

pub fn normalized_excerpt_from(src: &[u8], cap: usize) -> (r: Vec<u8>)
    ensures
        r@ == spec_excerpt(src@, cap as int),
{
    let raw = crate::utf8::copy_utf8_prefix(COMPACTION_EXCERPT_MAX, src);
    let mut out: Vec<u8> = Vec::new();
    let mut last_space = true;
    let mut i = 0usize;
    while i < raw.len() && out.len() < cap
        invariant
            i <= raw.len(),
            collapse_from(raw@, i as int, cap as int, last_space, out@) == collapse_from(
                raw@,
                0,
                cap as int,
                true,
                Seq::empty(),
            ),
        decreases raw.len() - i,
    {
        let ch = raw[i];
        if ch == 10u8 || ch == 13u8 || ch == 9u8 || ch == 32u8 {
            if !last_space {
                out.push(32u8);
                last_space = true;
            }
        } else {
            out.push(ch);
            last_space = false;
        }
        i += 1;
    }
    while out.len() != 0 && (out[out.len() - 1] == 32u8 || out[out.len() - 1] == 10u8 || out[out.len() - 1] == 13u8
        || out[out.len() - 1] == 9u8)
        invariant
            strip_blanks_end(out@) == strip_blanks_end(
                collapse_from(raw@, 0, cap as int, true, Seq::empty()),
            ),
        decreases out.len(),
    {
        let ghost before = out@;
        out.pop();
        assert(out@ =~= before.drop_last());
    }
    if src.len() > raw.len() && out.len() <= cap && cap - out.len() >= 3 {
        out.push(46u8);
        out.push(46u8);
        out.push(46u8);
    }
    assert(out@ =~= spec_excerpt(src@, cap as int));
    out
}

/// `out` with an excerpt of `src` appended below `cap`.
pub open spec fn with_excerpt(out: Seq<u8>, cap: int, src: Seq<u8>) -> Seq<u8> {
    bounded_append(out, cap, spec_excerpt(src, COMPACTION_EXCERPT_MAX as int))
}

fn append_excerpt(out: &mut Vec<u8>, cap: usize, src: &[u8])
    ensures
        final(out)@ == with_excerpt(old(out)@, cap as int, src@),
{
    let e = normalized_excerpt_from(src, COMPACTION_EXCERPT_MAX);
    append_bytes(out, cap, e.as_slice());
}

// ---------------------------------------------------------------------------
// Compaction of large results
// ---------------------------------------------------------------------------

pub open spec fn ba(out: Seq<u8>, cap: int, s: Seq<u8>) -> Seq<u8> {
    bounded_append(out, cap, s)
}

/// `Retained <label> excerpt from <tool>: <excerpt>. Full raw result not carried
/// forward.`
pub open spec fn spec_generic_detail(tool: Seq<u8>, result: Seq<u8>, label: Seq<u8>, cap: int) -> Seq<u8> {
    let a = ba(ba(ba(ba(ba(Seq::empty(), cap, seq![82u8, 101, 116, 97, 105, 110, 101, 100, 32]), cap, label), cap, seq![32u8, 101, 120, 99, 101, 114, 112, 116, 32, 102, 114, 111, 109, 32]), cap, tool), cap, seq![58u8, 32]);
    ba(with_excerpt(a, cap, result), cap, seq![46u8, 32, 70, 117, 108, 108, 32, 114, 97, 119, 32, 114, 101, 115, 117, 108, 116, 32, 110, 111, 116, 32, 99, 97, 114, 114, 105, 101, 100, 32, 102, 111, 114, 119, 97, 114, 100, 46])
}

pub fn build_generic_compacted_detail(tool: &[u8], result: &[u8], label: &[u8], cap: usize) -> (r: Vec<u8>)
    ensures
        r.len() <= cap,
        r@ == spec_generic_detail(tool@, result@, label@, cap as int),
{
    let p1: &[u8] = &[82u8, 101, 116, 97, 105, 110, 101, 100, 32];
    let p2: &[u8] = &[32u8, 101, 120, 99, 101, 114, 112, 116, 32, 102, 114, 111, 109, 32];
    let p3: &[u8] = &[58u8, 32];
    let p4: &[u8] = &[46u8, 32, 70, 117, 108, 108, 32, 114, 97, 119, 32, 114, 101, 115, 117, 108, 116, 32, 110, 111, 116, 32, 99, 97, 114, 114, 105, 101, 100, 32, 102, 111, 114, 119, 97, 114, 100, 46];
    assert(p1@ =~= seq![82u8, 101, 116, 97, 105, 110, 101, 100, 32]);
    assert(p2@ =~= seq![32u8, 101, 120, 99, 101, 114, 112, 116, 32, 102, 114, 111, 109, 32]);
    assert(p3@ =~= seq![58u8, 32]);
    assert(p4@ =~= seq![46u8, 32, 70, 117, 108, 108, 32, 114, 97, 119, 32, 114, 101, 115, 117, 108, 116, 32, 110, 111, 116, 32, 99, 97, 114, 114, 105, 101, 100, 32, 102, 111, 114, 119, 97, 114, 100, 46]);
    let mut out: Vec<u8> = Vec::new();
    append_bytes(&mut out, cap, p1);
    append_bytes(&mut out, cap, label);
    append_bytes(&mut out, cap, p2);
    append_bytes(&mut out, cap, tool);
    append_bytes(&mut out, cap, p3);
    append_excerpt(&mut out, cap, result);
    append_bytes(&mut out, cap, p4);
    out
}

pub open spec fn str_or_empty(r: Seq<u8>, key: Seq<u8>, cap: int) -> Seq<u8> {
    match crate::json::extract_string_from(r, r.len() as int, key, 0, cap) {
        Some((_, s)) => s,
        None => Seq::empty(),
    }
}

fn string_or_empty(r: &[u8], key: &[u8], cap: usize) -> (out: Vec<u8>)
    ensures
        out@ == str_or_empty(r@, key@, cap as int),
{
    match crate::json::json_extract_string(r, r.len(), key, cap) {
        Some(v) => v,
        None => Vec::new(),
    }
}

/// Summary and detail kept of a `search_web` result: the number of results and the top
/// result's title, URL and snippet.
pub open spec fn spec_search_compacted(result: Seq<u8>) -> (Seq<u8>, Seq<u8>) {
    let sc = MEMORY_SUMMARY_MAX as int;
    let dc = MEMORY_DETAIL_MAX as int;
    let count = crate::bytes::count_occurrences(result, seq![34u8, 117, 114, 108, 34, 58, 34], 0);
    let title = str_or_empty(result, seq![116u8, 105, 116, 108, 101], 160);
    let url = str_or_empty(result, seq![117u8, 114, 108], 160);
    let snippet = str_or_empty(result, seq![115u8, 110, 105, 112, 112, 101, 116], 256);
    let s0 = ba(Seq::empty(), sc, seq![67u8, 111, 109, 112, 97, 99, 116, 101, 100, 32, 115, 101, 97, 114, 99, 104, 32, 114, 101, 115, 117, 108, 116, 115, 32, 102, 114, 111, 109, 32, 115, 101, 97, 114, 99, 104, 95, 119, 101, 98]);
    let s1 = if count != 0 {
        ba(ba(ba(s0, sc, seq![32u8, 40]), sc, dec_digits(count)), sc, seq![32u8, 114, 101, 115, 117, 108, 116, 115, 41])
    } else {
        s0
    };
    let d0 = ba(Seq::empty(), dc, seq![82u8, 101, 116, 97, 105, 110, 101, 100, 32, 116, 111, 112, 32, 114, 101, 115, 117, 108, 116]);
    let d1 = if title.len() != 0 {
        with_excerpt(ba(d0, dc, seq![58u8, 32]), dc, title)
    } else {
        d0
    };
    let d2 = if url.len() != 0 {
        with_excerpt(ba(d1, dc, seq![32u8, 124, 32]), dc, url)
    } else {
        d1
    };
    let d3 = if snippet.len() != 0 {
        with_excerpt(ba(d2, dc, seq![32u8, 124, 32]), dc, snippet)
    } else {
        d2
    };
    (ba(s1, sc, seq![46u8]), ba(d3, dc, seq![46u8, 32, 70, 117, 108, 108, 32, 114, 97, 119, 32, 115, 101, 97, 114, 99, 104, 32, 74, 83, 79, 78, 32, 110, 111, 116, 32, 99, 97, 114, 114, 105, 101, 100, 32, 102, 111, 114, 119, 97, 114, 100, 46]))
}

pub fn build_search_compacted(result: &[u8]) -> (r: (Vec<u8>, Vec<u8>))
    ensures
        r.0.len() <= MEMORY_SUMMARY_MAX,
        r.1.len() <= MEMORY_DETAIL_MAX,
        (r.0@, r.1@) == spec_search_compacted(result@),
{
    let sc = MEMORY_SUMMARY_MAX;
    let dc = MEMORY_DETAIL_MAX;
    let url_pat: &[u8] = &[34u8, 117, 114, 108, 34, 58, 34];
    let k_title: &[u8] = &[116u8, 105, 116, 108, 101];
    let k_url: &[u8] = &[117u8, 114, 108];
    let k_snippet: &[u8] = &[115u8, 110, 105, 112, 112, 101, 116];
    let s_head: &[u8] = &[67u8, 111, 109, 112, 97, 99, 116, 101, 100, 32, 115, 101, 97, 114, 99, 104, 32, 114, 101, 115, 117, 108, 116, 115, 32, 102, 114, 111, 109, 32, 115, 101, 97, 114, 99, 104, 95, 119, 101, 98];
    let s_open: &[u8] = &[32u8, 40];
    let s_close: &[u8] = &[32u8, 114, 101, 115, 117, 108, 116, 115, 41];
    let dot: &[u8] = &[46u8];
    let d_head: &[u8] = &[82u8, 101, 116, 97, 105, 110, 101, 100, 32, 116, 111, 112, 32, 114, 101, 115, 117, 108, 116];
    let colon: &[u8] = &[58u8, 32];
    let bar: &[u8] = &[32u8, 124, 32];
    let d_tail: &[u8] = &[46u8, 32, 70, 117, 108, 108, 32, 114, 97, 119, 32, 115, 101, 97, 114, 99, 104, 32, 74, 83, 79, 78, 32, 110, 111, 116, 32, 99, 97, 114, 114, 105, 101, 100, 32, 102, 111, 114, 119, 97, 114, 100, 46];
    assert(url_pat@ =~= seq![34u8, 117, 114, 108, 34, 58, 34]);
    assert(k_title@ =~= seq![116u8, 105, 116, 108, 101]);
    assert(k_url@ =~= seq![117u8, 114, 108]);
    assert(k_snippet@ =~= seq![115u8, 110, 105, 112, 112, 101, 116]);
    assert(s_head@ =~= seq![67u8, 111, 109, 112, 97, 99, 116, 101, 100, 32, 115, 101, 97, 114, 99, 104, 32, 114, 101, 115, 117, 108, 116, 115, 32, 102, 114, 111, 109, 32, 115, 101, 97, 114, 99, 104, 95, 119, 101, 98]);
    assert(s_open@ =~= seq![32u8, 40]);
    assert(s_close@ =~= seq![32u8, 114, 101, 115, 117, 108, 116, 115, 41]);
    assert(dot@ =~= seq![46u8]);
    assert(d_head@ =~= seq![82u8, 101, 116, 97, 105, 110, 101, 100, 32, 116, 111, 112, 32, 114, 101, 115, 117, 108, 116]);
    assert(colon@ =~= seq![58u8, 32]);
    assert(bar@ =~= seq![32u8, 124, 32]);
    assert(d_tail@ =~= seq![46u8, 32, 70, 117, 108, 108, 32, 114, 97, 119, 32, 115, 101, 97, 114, 99, 104, 32, 74, 83, 79, 78, 32, 110, 111, 116, 32, 99, 97, 114, 114, 105, 101, 100, 32, 102, 111, 114, 119, 97, 114, 100, 46]);
    let count = crate::bytes::count_occurrences_local(result, url_pat);
    let title = string_or_empty(result, k_title, 160);
    let url = string_or_empty(result, k_url, 160);
    let snippet = string_or_empty(result, k_snippet, 256);
    let mut s: Vec<u8> = Vec::new();
    append_bytes(&mut s, sc, s_head);
    if count != 0 {
        append_bytes(&mut s, sc, s_open);
        crate::bytes::append_u64_dec(&mut s, sc, count as u64);
        append_bytes(&mut s, sc, s_close);
    }
    append_bytes(&mut s, sc, dot);
    let mut d: Vec<u8> = Vec::new();
    append_bytes(&mut d, dc, d_head);
    if title.len() != 0 {
        append_bytes(&mut d, dc, colon);
        append_excerpt(&mut d, dc, title.as_slice());
    }
    if url.len() != 0 {
        append_bytes(&mut d, dc, bar);
        append_excerpt(&mut d, dc, url.as_slice());
    }
    if snippet.len() != 0 {
        append_bytes(&mut d, dc, bar);
        append_excerpt(&mut d, dc, snippet.as_slice());
    }
    append_bytes(&mut d, dc, d_tail);
    (s, d)
}

pub open spec fn preview_prefix() -> Seq<u8> {
    seq![70u8, 101, 116, 99, 104, 101, 100, 32, 85, 82, 76, 32, 99, 111, 110, 116, 101, 110, 116, 32, 112, 114, 101, 118, 105, 101, 119, 58, 10]
}

/// Summary and detail kept of a `fetch_url` result: an excerpt of the page, noting when
/// the preview was already cut.
pub open spec fn spec_fetch_compacted(result: Seq<u8>) -> (Seq<u8>, Seq<u8>) {
    let sc = MEMORY_SUMMARY_MAX as int;
    let dc = MEMORY_DETAIL_MAX as int;
    let body = if preview_prefix().len() <= result.len() && matches_at(result, 0, preview_prefix()) {
        result.subrange(preview_prefix().len() as int, result.len() as int)
    } else {
        result
    };
    let d0 = with_excerpt(ba(Seq::empty(), dc, seq![82u8, 101, 116, 97, 105, 110, 101, 100, 32, 101, 120, 99, 101, 114, 112, 116, 58, 32]), dc, body);
    let d1 = ba(d0, dc, seq![46u8, 32, 70, 117, 108, 108, 32, 102, 101, 116, 99, 104, 101, 100, 32, 112, 97, 103, 101, 32, 99, 111, 110, 116, 101, 110, 116, 32, 110, 111, 116, 32, 99, 97, 114, 114, 105, 101, 100, 32, 102, 111, 114, 119, 97, 114, 100, 46]);
    let d2 = if crate::bytes::count_occurrences(result, seq![46u8, 46, 46, 40, 116, 114, 117, 110, 99, 97, 116, 101, 100, 41], 0) != 0 {
        ba(d1, dc, seq![32u8, 84, 104, 101, 32, 111, 114, 105, 103, 105, 110, 97, 108, 32, 112, 114, 101, 118, 105, 101, 119, 32, 119, 97, 115, 32, 97, 108, 114, 101, 97, 100, 121, 32, 116, 114, 117, 110, 99, 97, 116, 101, 100, 32, 98, 101, 102, 111, 114, 101, 32, 114, 101, 116, 101, 110, 116, 105, 111, 110, 46])
    } else {
        d1
    };
    (ba(Seq::empty(), sc, seq![67u8, 111, 109, 112, 97, 99, 116, 101, 100, 32, 102, 101, 116, 99, 104, 101, 100, 32, 115, 111, 117, 114, 99, 101, 32, 102, 114, 111, 109, 32, 102, 101, 116, 99, 104, 95, 117, 114, 108, 46]), d2)
}

pub fn build_fetch_compacted(result: &[u8]) -> (r: (Vec<u8>, Vec<u8>))
    ensures
        r.0.len() <= MEMORY_SUMMARY_MAX,
        r.1.len() <= MEMORY_DETAIL_MAX,
        (r.0@, r.1@) == spec_fetch_compacted(result@),
{
    let sc = MEMORY_SUMMARY_MAX;
    let dc = MEMORY_DETAIL_MAX;
    let prefix: &[u8] = &[70u8, 101, 116, 99, 104, 101, 100, 32, 85, 82, 76, 32, 99, 111, 110, 116, 101, 110, 116, 32, 112, 114, 101, 118, 105, 101, 119, 58, 10];
    let s_text: &[u8] = &[67u8, 111, 109, 112, 97, 99, 116, 101, 100, 32, 102, 101, 116, 99, 104, 101, 100, 32, 115, 111, 117, 114, 99, 101, 32, 102, 114, 111, 109, 32, 102, 101, 116, 99, 104, 95, 117, 114, 108, 46];
    let d_head: &[u8] = &[82u8, 101, 116, 97, 105, 110, 101, 100, 32, 101, 120, 99, 101, 114, 112, 116, 58, 32];
    let d_tail: &[u8] = &[46u8, 32, 70, 117, 108, 108, 32, 102, 101, 116, 99, 104, 101, 100, 32, 112, 97, 103, 101, 32, 99, 111, 110, 116, 101, 110, 116, 32, 110, 111, 116, 32, 99, 97, 114, 114, 105, 101, 100, 32, 102, 111, 114, 119, 97, 114, 100, 46];
    let cut: &[u8] = &[46u8, 46, 46, 40, 116, 114, 117, 110, 99, 97, 116, 101, 100, 41];
    let note: &[u8] = &[32u8, 84, 104, 101, 32, 111, 114, 105, 103, 105, 110, 97, 108, 32, 112, 114, 101, 118, 105, 101, 119, 32, 119, 97, 115, 32, 97, 108, 114, 101, 97, 100, 121, 32, 116, 114, 117, 110, 99, 97, 116, 101, 100, 32, 98, 101, 102, 111, 114, 101, 32, 114, 101, 116, 101, 110, 116, 105, 111, 110, 46];
    assert(prefix@ =~= preview_prefix());
    assert(s_text@ =~= seq![67u8, 111, 109, 112, 97, 99, 116, 101, 100, 32, 102, 101, 116, 99, 104, 101, 100, 32, 115, 111, 117, 114, 99, 101, 32, 102, 114, 111, 109, 32, 102, 101, 116, 99, 104, 95, 117, 114, 108, 46]);
    assert(d_head@ =~= seq![82u8, 101, 116, 97, 105, 110, 101, 100, 32, 101, 120, 99, 101, 114, 112, 116, 58, 32]);
    assert(d_tail@ =~= seq![46u8, 32, 70, 117, 108, 108, 32, 102, 101, 116, 99, 104, 101, 100, 32, 112, 97, 103, 101, 32, 99, 111, 110, 116, 101, 110, 116, 32, 110, 111, 116, 32, 99, 97, 114, 114, 105, 101, 100, 32, 102, 111, 114, 119, 97, 114, 100, 46]);
    assert(cut@ =~= seq![46u8, 46, 46, 40, 116, 114, 117, 110, 99, 97, 116, 101, 100, 41]);
    assert(note@ =~= seq![32u8, 84, 104, 101, 32, 111, 114, 105, 103, 105, 110, 97, 108, 32, 112, 114, 101, 118, 105, 101, 119, 32, 119, 97, 115, 32, 97, 108, 114, 101, 97, 100, 121, 32, 116, 114, 117, 110, 99, 97, 116, 101, 100, 32, 98, 101, 102, 111, 114, 101, 32, 114, 101, 116, 101, 110, 116, 105, 111, 110, 46]);
    let body = if crate::bytes::starts_with(result, result.len(), prefix) {
        vstd::slice::slice_subrange(result, prefix.len(), result.len())
    } else {
        result
    };
    let mut s: Vec<u8> = Vec::new();
    append_bytes(&mut s, sc, s_text);
    let mut d: Vec<u8> = Vec::new();
    append_bytes(&mut d, dc, d_head);
    append_excerpt(&mut d, dc, body);
    append_bytes(&mut d, dc, d_tail);
    if crate::bytes::count_occurrences_local(result, cut) != 0 {
        append_bytes(&mut d, dc, note);
    }
    (s, d)
}

/// Summary and detail kept of a `read_process_output` result: the exit code and excerpts
/// of standard output and error.
pub open spec fn spec_execution_compacted(result: Seq<u8>) -> (Seq<u8>, Seq<u8>) {
    let sc = MEMORY_SUMMARY_MAX as int;
    let dc = MEMORY_DETAIL_MAX as int;
    let code = match crate::json::extract_u64(result, result.len() as int, seq![101u8, 120, 105, 116, 95, 99, 111, 100, 101]) {
        Some(v) => v,
        None => 0,
    };
    let stdout = str_or_empty(result, seq![115u8, 116, 100, 111, 117, 116], 256);
    let stderr = str_or_empty(result, seq![115u8, 116, 100, 101, 114, 114], 256);
    let s0 = ba(
        Seq::empty(),
        sc,
        if code == 0 {
            seq![67u8, 111, 109, 112, 97, 99, 116, 101, 100, 32, 115, 117, 99, 99, 101, 115, 115, 102, 117, 108, 32, 101, 120, 101, 99, 117, 116, 105, 111, 110, 32, 114, 101, 115, 117, 108, 116, 32, 102, 114, 111, 109, 32, 114, 101, 97, 100, 95, 112, 114, 111, 99, 101, 115, 115, 95, 111, 117, 116, 112, 117, 116, 32, 40, 101, 120, 105, 116, 95, 99, 111, 100, 101, 61]
        } else {
            seq![67u8, 111, 109, 112, 97, 99, 116, 101, 100, 32, 102, 97, 105, 108, 101, 100, 32, 101, 120, 101, 99, 117, 116, 105, 111, 110, 32, 114, 101, 115, 117, 108, 116, 32, 102, 114, 111, 109, 32, 114, 101, 97, 100, 95, 112, 114, 111, 99, 101, 115, 115, 95, 111, 117, 116, 112, 117, 116, 32, 40, 101, 120, 105, 116, 95, 99, 111, 100, 101, 61]
        },
    );
    let s1 = ba(ba(s0, sc, dec_digits(code as nat)), sc, seq![41u8, 46]);
    let d0 = ba(ba(Seq::empty(), dc, seq![82u8, 101, 116, 97, 105, 110, 101, 100, 32, 101, 120, 105, 116, 95, 99, 111, 100, 101, 61]), dc, dec_digits(code as nat));
    let d1 = if stdout.len() != 0 {
        with_excerpt(ba(d0, dc, seq![59u8, 32, 115, 116, 100, 111, 117, 116, 58, 32]), dc, stdout)
    } else {
        d0
    };
    let d2 = if stderr.len() != 0 {
        with_excerpt(ba(d1, dc, seq![59u8, 32, 115, 116, 100, 101, 114, 114, 58, 32]), dc, stderr)
    } else {
        d1
    };
    (s1, ba(d2, dc, seq![46u8, 32, 70, 117, 108, 108, 32, 114, 97, 119, 32, 112, 114, 111, 99, 101, 115, 115, 32, 111, 117, 116, 112, 117, 116, 32, 110, 111, 116, 32, 99, 97, 114, 114, 105, 101, 100, 32, 102, 111, 114, 119, 97, 114, 100, 46]))
}

pub fn build_execution_compacted(result: &[u8]) -> (r: (Vec<u8>, Vec<u8>))
    ensures
        r.0.len() <= MEMORY_SUMMARY_MAX,
        r.1.len() <= MEMORY_DETAIL_MAX,
        (r.0@, r.1@) == spec_execution_compacted(result@),
{
    let sc = MEMORY_SUMMARY_MAX;
    let dc = MEMORY_DETAIL_MAX;
    let k_code: &[u8] = &[101u8, 120, 105, 116, 95, 99, 111, 100, 101];
    let k_out: &[u8] = &[115u8, 116, 100, 111, 117, 116];
    let k_err: &[u8] = &[115u8, 116, 100, 101, 114, 114];
    let ok_head: &[u8] = &[67u8, 111, 109, 112, 97, 99, 116, 101, 100, 32, 115, 117, 99, 99, 101, 115, 115, 102, 117, 108, 32, 101, 120, 101, 99, 117, 116, 105, 111, 110, 32, 114, 101, 115, 117, 108, 116, 32, 102, 114, 111, 109, 32, 114, 101, 97, 100, 95, 112, 114, 111, 99, 101, 115, 115, 95, 111, 117, 116, 112, 117, 116, 32, 40, 101, 120, 105, 116, 95, 99, 111, 100, 101, 61];
    let bad_head: &[u8] = &[67u8, 111, 109, 112, 97, 99, 116, 101, 100, 32, 102, 97, 105, 108, 101, 100, 32, 101, 120, 101, 99, 117, 116, 105, 111, 110, 32, 114, 101, 115, 117, 108, 116, 32, 102, 114, 111, 109, 32, 114, 101, 97, 100, 95, 112, 114, 111, 99, 101, 115, 115, 95, 111, 117, 116, 112, 117, 116, 32, 40, 101, 120, 105, 116, 95, 99, 111, 100, 101, 61];
    let s_tail: &[u8] = &[41u8, 46];
    let d_head: &[u8] = &[82u8, 101, 116, 97, 105, 110, 101, 100, 32, 101, 120, 105, 116, 95, 99, 111, 100, 101, 61];
    let d_out: &[u8] = &[59u8, 32, 115, 116, 100, 111, 117, 116, 58, 32];
    let d_err: &[u8] = &[59u8, 32, 115, 116, 100, 101, 114, 114, 58, 32];
    let d_tail: &[u8] = &[46u8, 32, 70, 117, 108, 108, 32, 114, 97, 119, 32, 112, 114, 111, 99, 101, 115, 115, 32, 111, 117, 116, 112, 117, 116, 32, 110, 111, 116, 32, 99, 97, 114, 114, 105, 101, 100, 32, 102, 111, 114, 119, 97, 114, 100, 46];
    assert(k_code@ =~= seq![101u8, 120, 105, 116, 95, 99, 111, 100, 101]);
    assert(k_out@ =~= seq![115u8, 116, 100, 111, 117, 116]);
    assert(k_err@ =~= seq![115u8, 116, 100, 101, 114, 114]);
    assert(ok_head@ =~= seq![67u8, 111, 109, 112, 97, 99, 116, 101, 100, 32, 115, 117, 99, 99, 101, 115, 115, 102, 117, 108, 32, 101, 120, 101, 99, 117, 116, 105, 111, 110, 32, 114, 101, 115, 117, 108, 116, 32, 102, 114, 111, 109, 32, 114, 101, 97, 100, 95, 112, 114, 111, 99, 101, 115, 115, 95, 111, 117, 116, 112, 117, 116, 32, 40, 101, 120, 105, 116, 95, 99, 111, 100, 101, 61]);
    assert(bad_head@ =~= seq![67u8, 111, 109, 112, 97, 99, 116, 101, 100, 32, 102, 97, 105, 108, 101, 100, 32, 101, 120, 101, 99, 117, 116, 105, 111, 110, 32, 114, 101, 115, 117, 108, 116, 32, 102, 114, 111, 109, 32, 114, 101, 97, 100, 95, 112, 114, 111, 99, 101, 115, 115, 95, 111, 117, 116, 112, 117, 116, 32, 40, 101, 120, 105, 116, 95, 99, 111, 100, 101, 61]);
    assert(s_tail@ =~= seq![41u8, 46]);
    assert(d_head@ =~= seq![82u8, 101, 116, 97, 105, 110, 101, 100, 32, 101, 120, 105, 116, 95, 99, 111, 100, 101, 61]);
    assert(d_out@ =~= seq![59u8, 32, 115, 116, 100, 111, 117, 116, 58, 32]);
    assert(d_err@ =~= seq![59u8, 32, 115, 116, 100, 101, 114, 114, 58, 32]);
    assert(d_tail@ =~= seq![46u8, 32, 70, 117, 108, 108, 32, 114, 97, 119, 32, 112, 114, 111, 99, 101, 115, 115, 32, 111, 117, 116, 112, 117, 116, 32, 110, 111, 116, 32, 99, 97, 114, 114, 105, 101, 100, 32, 102, 111, 114, 119, 97, 114, 100, 46]);
    let code = match crate::json::json_extract_u64(result, result.len(), k_code) {
        Some(v) => v,
        None => 0,
    };
    let stdout = string_or_empty(result, k_out, 256);
    let stderr = string_or_empty(result, k_err, 256);
    let mut s: Vec<u8> = Vec::new();
    append_bytes(&mut s, sc, if code == 0 {
        ok_head
    } else {
        bad_head
    });
    crate::bytes::append_u64_dec(&mut s, sc, code);
    append_bytes(&mut s, sc, s_tail);
    let mut d: Vec<u8> = Vec::new();
    append_bytes(&mut d, dc, d_head);
    crate::bytes::append_u64_dec(&mut d, dc, code);
    if stdout.len() != 0 {
        append_bytes(&mut d, dc, d_out);
        append_excerpt(&mut d, dc, stdout.as_slice());
    }
    if stderr.len() != 0 {
        append_bytes(&mut d, dc, d_err);
        append_excerpt(&mut d, dc, stderr.as_slice());
    }
    append_bytes(&mut d, dc, d_tail);
    (s, d)
}

/// Summary and detail kept of a workspace tool's result.
pub open spec fn spec_workspace_compacted(tool: Seq<u8>, result: Seq<u8>) -> (Seq<u8>, Seq<u8>) {
    let sc = MEMORY_SUMMARY_MAX as int;
    (
        ba(ba(ba(Seq::empty(), sc, seq![67u8, 111, 109, 112, 97, 99, 116, 101, 100, 32, 119, 111, 114, 107, 115, 112, 97, 99, 101, 32, 114, 101, 115, 117, 108, 116, 32, 102, 114, 111, 109, 32]), sc, tool), sc, seq![46u8]),
        spec_generic_detail(tool, result, seq![119u8, 111, 114, 107, 115, 112, 97, 99, 101], MEMORY_DETAIL_MAX as int),
    )
}

pub fn build_workspace_compacted(tool: &[u8], result: &[u8]) -> (r: (Vec<u8>, Vec<u8>))
    ensures
        r.0.len() <= MEMORY_SUMMARY_MAX,
        r.1.len() <= MEMORY_DETAIL_MAX,
        (r.0@, r.1@) == spec_workspace_compacted(tool@, result@),
{
    let head: &[u8] = &[67u8, 111, 109, 112, 97, 99, 116, 101, 100, 32, 119, 111, 114, 107, 115, 112, 97, 99, 101, 32, 114, 101, 115, 117, 108, 116, 32, 102, 114, 111, 109, 32];
    let dot: &[u8] = &[46u8];
    let label: &[u8] = &[119u8, 111, 114, 107, 115, 112, 97, 99, 101];
    assert(head@ =~= seq![67u8, 111, 109, 112, 97, 99, 116, 101, 100, 32, 119, 111, 114, 107, 115, 112, 97, 99, 101, 32, 114, 101, 115, 117, 108, 116, 32, 102, 114, 111, 109, 32]);
    assert(dot@ =~= seq![46u8]);
    assert(label@ =~= seq![119u8, 111, 114, 107, 115, 112, 97, 99, 101]);
    let mut s: Vec<u8> = Vec::new();
    append_bytes(&mut s, MEMORY_SUMMARY_MAX, head);
    append_bytes(&mut s, MEMORY_SUMMARY_MAX, tool);
    append_bytes(&mut s, MEMORY_SUMMARY_MAX, dot);
    let d = build_generic_compacted_detail(tool, result, label, MEMORY_DETAIL_MAX);
    (s, d)
}

/// Summary and detail kept of a long answer.
pub open spec fn spec_conversation_compacted(text: Seq<u8>) -> (Seq<u8>, Seq<u8>) {
    let dc = MEMORY_DETAIL_MAX as int;
    (
        ba(Seq::empty(), MEMORY_SUMMARY_MAX as int, seq![67u8, 111, 109, 112, 97, 99, 116, 101, 100, 32, 97, 115, 115, 105, 115, 116, 97, 110, 116, 32, 114, 101, 115, 112, 111, 110, 115, 101, 46]),
        ba(with_excerpt(ba(Seq::empty(), dc, seq![82u8, 101, 116, 97, 105, 110, 101, 100, 32, 114, 101, 115, 112, 111, 110, 115, 101, 32, 101, 120, 99, 101, 114, 112, 116, 58, 32]), dc, text), dc, seq![46u8, 32, 70, 117, 108, 108, 32, 114, 101, 115, 112, 111, 110, 115, 101, 32, 116, 101, 120, 116, 32, 110, 111, 116, 32, 99, 97, 114, 114, 105, 101, 100, 32, 102, 111, 114, 119, 97, 114, 100, 46]),
    )
}

pub fn build_conversation_compacted(text: &[u8]) -> (r: (Vec<u8>, Vec<u8>))
    ensures
        r.0.len() <= MEMORY_SUMMARY_MAX,
        r.1.len() <= MEMORY_DETAIL_MAX,
        (r.0@, r.1@) == spec_conversation_compacted(text@),
{
    let s_text: &[u8] = &[67u8, 111, 109, 112, 97, 99, 116, 101, 100, 32, 97, 115, 115, 105, 115, 116, 97, 110, 116, 32, 114, 101, 115, 112, 111, 110, 115, 101, 46];
    let d_head: &[u8] = &[82u8, 101, 116, 97, 105, 110, 101, 100, 32, 114, 101, 115, 112, 111, 110, 115, 101, 32, 101, 120, 99, 101, 114, 112, 116, 58, 32];
    let d_tail: &[u8] = &[46u8, 32, 70, 117, 108, 108, 32, 114, 101, 115, 112, 111, 110, 115, 101, 32, 116, 101, 120, 116, 32, 110, 111, 116, 32, 99, 97, 114, 114, 105, 101, 100, 32, 102, 111, 114, 119, 97, 114, 100, 46];
    assert(s_text@ =~= seq![67u8, 111, 109, 112, 97, 99, 116, 101, 100, 32, 97, 115, 115, 105, 115, 116, 97, 110, 116, 32, 114, 101, 115, 112, 111, 110, 115, 101, 46]);
    assert(d_head@ =~= seq![82u8, 101, 116, 97, 105, 110, 101, 100, 32, 114, 101, 115, 112, 111, 110, 115, 101, 32, 101, 120, 99, 101, 114, 112, 116, 58, 32]);
    assert(d_tail@ =~= seq![46u8, 32, 70, 117, 108, 108, 32, 114, 101, 115, 112, 111, 110, 115, 101, 32, 116, 101, 120, 116, 32, 110, 111, 116, 32, 99, 97, 114, 114, 105, 101, 100, 32, 102, 111, 114, 119, 97, 114, 100, 46]);
    let mut s: Vec<u8> = Vec::new();
    append_bytes(&mut s, MEMORY_SUMMARY_MAX, s_text);
    let mut d: Vec<u8> = Vec::new();
    append_bytes(&mut d, MEMORY_DETAIL_MAX, d_head);
    append_excerpt(&mut d, MEMORY_DETAIL_MAX, text);
    append_bytes(&mut d, MEMORY_DETAIL_MAX, d_tail);
    (s, d)
}

pub open spec fn begins(s: Seq<u8>, p: Seq<u8>) -> bool {
    p.len() <= s.len() && matches_at(s, 0, p)
}

pub open spec fn workspace_tool(tool: Seq<u8>) -> bool {
    begins(tool, seq![108u8, 105, 115, 116, 95, 119, 111, 114, 107, 115, 112, 97, 99, 101]) || begins(tool, seq![114u8, 101, 97, 100, 95, 102, 105, 108, 101]) || begins(tool, seq![119u8, 114, 105, 116, 101, 95, 102, 105, 108, 101])
        || begins(tool, seq![97u8, 112, 112, 108, 121, 95, 112, 97, 116, 99, 104])
}

/// Whether a tool result is kept compacted: longer than `COMPACTION_TRIGGER_CHARS`, or
/// than 160 bytes for fetching, searching, reading process output or reading a file;
/// then the summary and detail kept, for the tools that have a compacted form.
#[verifier::opaque]
pub open spec fn spec_compact_tool_result(tool: Seq<u8>, result: Seq<u8>) -> Option<(Seq<u8>, Seq<u8>)> {
    let big = result.len() > 160;
    let compact = result.len() > COMPACTION_TRIGGER_CHARS || (begins(tool, seq![102u8, 101, 116, 99, 104, 95, 117, 114, 108]) && big)
        || (begins(tool, seq![115u8, 101, 97, 114, 99, 104, 95, 119, 101, 98]) && big) || (begins(tool, seq![114u8, 101, 97, 100, 95, 112, 114, 111, 99, 101, 115, 115, 95, 111, 117, 116, 112, 117, 116]) && big)
        || (begins(tool, seq![114u8, 101, 97, 100, 95, 102, 105, 108, 101]) && big);
    if !compact {
        None
    } else if begins(tool, seq![115u8, 101, 97, 114, 99, 104, 95, 119, 101, 98]) {
        Some(spec_search_compacted(result))
    } else if begins(tool, seq![102u8, 101, 116, 99, 104, 95, 117, 114, 108]) {
        Some(spec_fetch_compacted(result))
    } else if begins(tool, seq![114u8, 101, 97, 100, 95, 112, 114, 111, 99, 101, 115, 115, 95, 111, 117, 116, 112, 117, 116]) {
        Some(spec_execution_compacted(result))
    } else if workspace_tool(tool) {
        Some(spec_workspace_compacted(tool, result))
    } else {
        None
    }
}

fn begins_with(s: &[u8], p: &[u8]) -> (r: bool)
    ensures
        r == begins(s@, p@),
{
    crate::bytes::starts_with(s, s.len(), p)
}

fn is_workspace_tool(tool: &[u8]) -> (r: bool)
    ensures
        r == workspace_tool(tool@),
{
    let a: &[u8] = &[108u8, 105, 115, 116, 95, 119, 111, 114, 107, 115, 112, 97, 99, 101];
    let b: &[u8] = &[114u8, 101, 97, 100, 95, 102, 105, 108, 101];
    let c: &[u8] = &[119u8, 114, 105, 116, 101, 95, 102, 105, 108, 101];
    let d: &[u8] = &[97u8, 112, 112, 108, 121, 95, 112, 97, 116, 99, 104];
    assert(a@ =~= seq![108u8, 105, 115, 116, 95, 119, 111, 114, 107, 115, 112, 97, 99, 101]);
    assert(b@ =~= seq![114u8, 101, 97, 100, 95, 102, 105, 108, 101]);
    assert(c@ =~= seq![119u8, 114, 105, 116, 101, 95, 102, 105, 108, 101]);
    assert(d@ =~= seq![97u8, 112, 112, 108, 121, 95, 112, 97, 116, 99, 104]);
    begins_with(tool, a) || begins_with(tool, b) || begins_with(tool, c) || begins_with(tool, d)
}

pub fn compact_tool_result_if_needed(tool: &[u8], result: &[u8]) -> (r: Option<(Vec<u8>, Vec<u8>)>)
    ensures
        r matches Some((s, d)) ==> s.len() <= MEMORY_SUMMARY_MAX && d.len() <= MEMORY_DETAIL_MAX,
        match r {
            Some((s, d)) => spec_compact_tool_result(tool@, result@) == Some((s@, d@)),
            None => spec_compact_tool_result(tool@, result@) is None,
        },
{
    proof {
        reveal(spec_compact_tool_result);
    }
    let fetch: &[u8] = &[102u8, 101, 116, 99, 104, 95, 117, 114, 108];
    let search: &[u8] = &[115u8, 101, 97, 114, 99, 104, 95, 119, 101, 98];
    let proc_out: &[u8] = &[114u8, 101, 97, 100, 95, 112, 114, 111, 99, 101, 115, 115, 95, 111, 117, 116, 112, 117, 116];
    let read_file: &[u8] = &[114u8, 101, 97, 100, 95, 102, 105, 108, 101];
    assert(fetch@ =~= seq![102u8, 101, 116, 99, 104, 95, 117, 114, 108]);
    assert(search@ =~= seq![115u8, 101, 97, 114, 99, 104, 95, 119, 101, 98]);
    assert(proc_out@ =~= seq![114u8, 101, 97, 100, 95, 112, 114, 111, 99, 101, 115, 115, 95, 111, 117, 116, 112, 117, 116]);
    assert(read_file@ =~= seq![114u8, 101, 97, 100, 95, 102, 105, 108, 101]);
    let big = result.len() > 160;
    let compact = result.len() > COMPACTION_TRIGGER_CHARS || (begins_with(tool, fetch) && big) || (
    begins_with(tool, search) && big) || (begins_with(tool, proc_out) && big) || (begins_with(
        tool,
        read_file,
    ) && big);
    if !compact {
        return None;
    }
    if begins_with(tool, search) {
        return Some(build_search_compacted(result));
    }
    if begins_with(tool, fetch) {
        return Some(build_fetch_compacted(result));
    }
    if begins_with(tool, proc_out) {
        return Some(build_execution_compacted(result));
    }
    if is_workspace_tool(tool) {
        return Some(build_workspace_compacted(tool, result));
    }
    None
}

/// The memory slot a tool's results go to; `MEMORY_SLOT_COUNT` for none.
pub open spec fn spec_tool_kind_slot(tool: Seq<u8>) -> int {
    if begins(tool, seq![102u8, 101, 116, 99, 104, 95, 117, 114, 108]) || begins(tool, seq![115u8, 101, 97, 114, 99, 104, 95, 119, 101, 98]) {
        SLOT_SOURCE as int
    } else if workspace_tool(tool) {
        SLOT_WORKSPACE as int
    } else if begins(tool, seq![114u8, 117, 110, 95, 112, 114, 111, 99, 101, 115, 115]) || begins(tool, seq![114u8, 101, 97, 100, 95, 112, 114, 111, 99, 101, 115, 115, 95, 111, 117, 116, 112, 117, 116]) {
        SLOT_EXECUTION as int
    } else {
        MEMORY_SLOT_COUNT as int
    }
}

pub fn tool_kind_slot(tool: &[u8]) -> (r: usize)
    ensures
        r == spec_tool_kind_slot(tool@),
{
    let fetch: &[u8] = &[102u8, 101, 116, 99, 104, 95, 117, 114, 108];
    let search: &[u8] = &[115u8, 101, 97, 114, 99, 104, 95, 119, 101, 98];
    let run: &[u8] = &[114u8, 117, 110, 95, 112, 114, 111, 99, 101, 115, 115];
    let proc_out: &[u8] = &[114u8, 101, 97, 100, 95, 112, 114, 111, 99, 101, 115, 115, 95, 111, 117, 116, 112, 117, 116];
    assert(fetch@ =~= seq![102u8, 101, 116, 99, 104, 95, 117, 114, 108]);
    assert(search@ =~= seq![115u8, 101, 97, 114, 99, 104, 95, 119, 101, 98]);
    assert(run@ =~= seq![114u8, 117, 110, 95, 112, 114, 111, 99, 101, 115, 115]);
    assert(proc_out@ =~= seq![114u8, 101, 97, 100, 95, 112, 114, 111, 99, 101, 115, 115, 95, 111, 117, 116, 112, 117, 116]);
    if begins_with(tool, fetch) || begins_with(tool, search) {
        return SLOT_SOURCE;
    }
    if is_workspace_tool(tool) {
        return SLOT_WORKSPACE;
    }
    if begins_with(tool, run) || begins_with(tool, proc_out) {
        return SLOT_EXECUTION;
    }
    MEMORY_SLOT_COUNT
}

pub open spec fn spec_tool_kind_name(tool: Seq<u8>) -> Seq<u8> {
    let slot = spec_tool_kind_slot(tool);
    if slot == SLOT_SOURCE {
        seq![115u8, 111, 117, 114, 99, 101]
    } else if slot == SLOT_WORKSPACE {
        seq![119u8, 111, 114, 107, 115, 112, 97, 99, 101]
    } else if slot == SLOT_EXECUTION {
        seq![101u8, 120, 101, 99, 117, 116, 105, 111, 110]
    } else {
        Seq::empty()
    }
}

pub fn tool_kind_name(tool: &[u8]) -> (r: &'static [u8])
    ensures
        r@ == spec_tool_kind_name(tool@),
{
    let slot = tool_kind_slot(tool);
    let r: &'static [u8] = if slot == SLOT_SOURCE {
        &[115u8, 111, 117, 114, 99, 101]
    } else if slot == SLOT_WORKSPACE {
        &[119u8, 111, 114, 107, 115, 112, 97, 99, 101]
    } else if slot == SLOT_EXECUTION {
        &[101u8, 120, 101, 99, 117, 116, 105, 111, 110]
    } else {
        &[]
    };
    assert(r@ =~= spec_tool_kind_name(tool@));
    r
}

/// `Retained <kind> result from <tool>` (with a final `.` when the result is not empty).
pub open spec fn spec_tool_summary(tool: Seq<u8>, result: Seq<u8>, cap: int) -> Seq<u8> {
    let a = ba(ba(ba(ba(Seq::empty(), cap, seq![82u8, 101, 116, 97, 105, 110, 101, 100, 32]), cap, spec_tool_kind_name(tool)), cap, seq![32u8, 114, 101, 115, 117, 108, 116, 32, 102, 114, 111, 109, 32]), cap, tool);
    if result.len() != 0 {
        ba(a, cap, seq![46u8])
    } else {
        a
    }
}

pub fn build_tool_summary(tool: &[u8], result: &[u8], cap: usize) -> (r: Vec<u8>)
    ensures
        r@ == spec_tool_summary(tool@, result@, cap as int),
{
    let p1: &[u8] = &[82u8, 101, 116, 97, 105, 110, 101, 100, 32];
    let p2: &[u8] = &[32u8, 114, 101, 115, 117, 108, 116, 32, 102, 114, 111, 109, 32];
    let dot: &[u8] = &[46u8];
    assert(p1@ =~= seq![82u8, 101, 116, 97, 105, 110, 101, 100, 32]);
    assert(p2@ =~= seq![32u8, 114, 101, 115, 117, 108, 116, 32, 102, 114, 111, 109, 32]);
    assert(dot@ =~= seq![46u8]);
    let mut out: Vec<u8> = Vec::new();
    append_bytes(&mut out, cap, p1);
    append_bytes(&mut out, cap, tool_kind_name(tool));
    append_bytes(&mut out, cap, p2);
    append_bytes(&mut out, cap, tool);
    if result.len() != 0 {
        append_bytes(&mut out, cap, dot);
    }
    out
}


// ---------------------------------------------------------------------------
// The memory slots
// ---------------------------------------------------------------------------

/// One memory entry as the contracts see it.
pub struct SlotView {
    pub kind: u8,
    pub state: u8,
    pub id: Seq<u8>,
    pub summary: Seq<u8>,
    pub detail: Seq<u8>,
    pub source: Seq<u8>,
    pub created_turn: u16,
    pub updated_turn: u16,
}

pub open spec fn empty_slot() -> SlotView {
    SlotView {
        kind: KIND_NONE,
        state: STATE_NONE,
        id: Seq::empty(),
        summary: Seq::empty(),
        detail: Seq::empty(),
        source: Seq::empty(),
        created_turn: 0,
        updated_turn: 0,
    }
}

/// One memory entry.
pub struct MemorySlot {
    pub kind: u8,
    pub state: u8,
    pub id: Vec<u8>,
    pub summary: Vec<u8>,
    pub detail: Vec<u8>,
    pub source: Vec<u8>,
    pub created_turn: u16,
    pub updated_turn: u16,
}

impl MemorySlot {
    pub open spec fn view(&self) -> SlotView {
        SlotView {
            kind: self.kind,
            state: self.state,
            id: self.id@,
            summary: self.summary@,
            detail: self.detail@,
            source: self.source@,
            created_turn: self.created_turn,
            updated_turn: self.updated_turn,
        }
    }

    fn empty() -> (r: Self)
        ensures
            r.view() == empty_slot(),
    {
        MemorySlot {
            kind: KIND_NONE,
            state: STATE_NONE,
            id: Vec::new(),
            summary: Vec::new(),
            detail: Vec::new(),
            source: Vec::new(),
            created_turn: 0,
            updated_turn: 0,
        }
    }
}

/// The sizes of the parts of the last model context, in bytes, and its estimated tokens.
#[derive(Clone, Copy)]
pub struct ContextBudget {
    pub instructions_chars: usize,
    pub current_request_chars: usize,
    pub latest_tool_result_chars: usize,
    pub working_memory_chars: usize,
    pub known_sources_chars: usize,
    pub workspace_memory_chars: usize,
    pub session_state_chars: usize,
    pub recent_conversation_chars: usize,
    pub estimated_total_tokens: usize,
}

pub open spec fn zero_budget() -> ContextBudget {
    ContextBudget {
        instructions_chars: 0,
        current_request_chars: 0,
        latest_tool_result_chars: 0,
        working_memory_chars: 0,
        known_sources_chars: 0,
        workspace_memory_chars: 0,
        session_state_chars: 0,
        recent_conversation_chars: 0,
        estimated_total_tokens: 0,
    }
}

/// Entry `slot` rewritten at turn `turn`: it keeps its identifier and creation turn once
/// it has them; the texts are cut at UTF-8 boundaries to their caps.
pub open spec fn rewritten(old: SlotView, slot: int, turn: u16, kind: u8, state: u8, source: Seq<u8>, summary: Seq<u8>, detail: Seq<u8>) -> SlotView {
    let fresh = old.id.len() == 0;
    SlotView {
        kind,
        state,
        id: if fresh {
            bounded_append(Seq::empty(), MEMORY_ID_MAX as int, spec_slot_id(slot))
        } else {
            old.id
        },
        summary: utf8_prefix(summary, MEMORY_SUMMARY_MAX as int),
        detail: utf8_prefix(detail, MEMORY_DETAIL_MAX as int),
        source: utf8_prefix(source, MEMORY_SOURCE_MAX as int),
        created_turn: if fresh {
            turn
        } else {
            old.created_turn
        },
        updated_turn: turn,
    }
}

/// What a note of a tool result records for tracing a compaction: the slot, its
/// previous state, and the sizes before and after.
pub struct CompactionNote {
    pub slot: usize,
    pub previous_state: u8,
    pub source_chars: usize,
    pub retained_chars: usize,
}

/// The agent's working memory: five entries (task, source, workspace, execution,
/// conversation) and the last context budget.
pub struct AgentMemory {
    started: bool,
    turn: u16,
    slots: Vec<MemorySlot>,
    budget: ContextBudget,
}

impl AgentMemory {
    pub closed spec fn slots(&self) -> Seq<SlotView> {
        self.slots@.map_values(|s: MemorySlot| s.view())
    }

    pub closed spec fn turn(&self) -> u16 {
        self.turn
    }

    pub closed spec fn started(&self) -> bool {
        self.started
    }

    pub closed spec fn budget(&self) -> ContextBudget {
        self.budget
    }

    pub closed spec fn wf(&self) -> bool {
        &&& self.slots.len() == MEMORY_SLOT_COUNT
        &&& forall|i: int| 0 <= i < MEMORY_SLOT_COUNT ==> (#[trigger] self.slots@[i]).summary.len() <= MEMORY_SUMMARY_MAX
            && self.slots@[i].detail.len() <= MEMORY_DETAIL_MAX
    }

    pub proof fn lemma_wf(&self)
        requires
            self.wf(),
        ensures
            self.slots().len() == MEMORY_SLOT_COUNT,
    {
    }

    fn cleared_slots() -> (r: Vec<MemorySlot>)
        ensures
            r.len() == MEMORY_SLOT_COUNT,
            forall|i: int| 0 <= i < r.len() ==> (#[trigger] r@[i]).view() == empty_slot(),
    {
        let mut r: Vec<MemorySlot> = Vec::new();
        let mut i = 0usize;
        while i < MEMORY_SLOT_COUNT
            invariant
                i <= MEMORY_SLOT_COUNT,
                r.len() == i,
                forall|k: int| 0 <= k < r.len() ==> (#[trigger] r@[k]).view() == empty_slot(),
            decreases MEMORY_SLOT_COUNT - i,
        {
            r.push(MemorySlot::empty());
            i += 1;
        }
        r
    }

    /// A memory that has not started.
    pub fn new() -> (r: Self)
        ensures
            r.wf(),
            !r.started(),
            r.turn() == 0,
            forall|i: int| 0 <= i < MEMORY_SLOT_COUNT ==> #[trigger] r.slots()[i] == empty_slot(),
            r.budget() == zero_budget(),
    {
        let r = AgentMemory {
            started: false,
            turn: 0,
            slots: Self::cleared_slots(),
            budget: ContextBudget {
                instructions_chars: 0,
                current_request_chars: 0,
                latest_tool_result_chars: 0,
                working_memory_chars: 0,
                known_sources_chars: 0,
                workspace_memory_chars: 0,
                session_state_chars: 0,
                recent_conversation_chars: 0,
                estimated_total_tokens: 0,
            },
        };
        r
    }

    /// Starts afresh: turn 0, every entry empty, no budget recorded.
    pub fn memory_reset(&mut self)
        ensures
            final(self).wf(),
            final(self).started(),
            final(self).turn() == 0,
            forall|i: int| 0 <= i < MEMORY_SLOT_COUNT ==> #[trigger] final(self).slots()[i] == empty_slot(),
            final(self).budget() == zero_budget(),
    {
        self.started = true;
        self.turn = 0;
        self.slots = Self::cleared_slots();
        self.budget = ContextBudget {
            instructions_chars: 0,
            current_request_chars: 0,
            latest_tool_result_chars: 0,
            working_memory_chars: 0,
            known_sources_chars: 0,
            workspace_memory_chars: 0,
            session_state_chars: 0,
            recent_conversation_chars: 0,
            estimated_total_tokens: 0,
        };
        assert forall|i: int| 0 <= i < MEMORY_SLOT_COUNT implies #[trigger] self.slots()[i] == empty_slot() by {
            assert(self.slots()[i] == self.slots@[i].view());
        }
    }

    /// Starts the memory unless it has started already.
    pub fn ensure_started(&mut self)
        requires
            old(self).wf(),
        ensures
            final(self).wf(),
            final(self).started(),
            final(self).slots() == start_slots(old(self)),
            final(self).turn() == start_turn(old(self)),
            final(self).budget() == (if old(self).started() {
                old(self).budget()
            } else {
                zero_budget()
            }),
    {
        if !self.started {
            self.memory_reset();
            assert(self.slots() =~= start_slots(old(self)));
        }
    }

    /// Rewrites entry `slot` (see `rewritten`); returns its previous state.
    pub fn set_slot(&mut self, slot: usize, kind: u8, state: u8, source: &[u8], summary: &[u8], detail: &[u8]) -> (previous: u8)
        requires
            old(self).wf(),
            old(self).started(),
            slot < MEMORY_SLOT_COUNT,
        ensures
            final(self).wf(),
            final(self).started(),
            final(self).turn() == old(self).turn(),
            final(self).budget() == old(self).budget(),
            previous == old(self).slots()[slot as int].state,
            final(self).slots() == old(self).slots().update(
                slot as int,
                rewritten(old(self).slots()[slot as int], slot as int, old(self).turn(), kind, state, source@, summary@, detail@),
            ),
    {
        let previous = self.slots[slot].state;
        let fresh = self.slots[slot].id.len() == 0;
        let mut id: Vec<u8> = Vec::new();
        let created = if fresh {
            append_bytes(&mut id, MEMORY_ID_MAX, slot_id_bytes(slot));
            self.turn
        } else {
            crate::bytes::append_all(&mut id, self.slots[slot].id.as_slice());
            self.slots[slot].created_turn
        };
        let entry = MemorySlot {
            kind,
            state,
            id,
            summary: crate::utf8::copy_utf8_prefix(MEMORY_SUMMARY_MAX, summary),
            detail: crate::utf8::copy_utf8_prefix(MEMORY_DETAIL_MAX, detail),
            source: crate::utf8::copy_utf8_prefix(MEMORY_SOURCE_MAX, source),
            created_turn: created,
            updated_turn: self.turn,
        };
        proof {
            crate::utf8::lemma_valid_prefix_end_range(summary@, 0, crate::bytes::min_int(MEMORY_SUMMARY_MAX as int, summary.len() as int));
            crate::utf8::lemma_valid_prefix_end_range(detail@, 0, crate::bytes::min_int(MEMORY_DETAIL_MAX as int, detail.len() as int));
        }
        let ghost before = self.slots();
        self.slots.set(slot, entry);
        assert(self.slots() =~= before.update(
            slot as int,
            rewritten(before[slot as int], slot as int, self.turn, kind, state, source@, summary@, detail@),
        ));
        previous
    }

    /// Notes a user request: the turn advances and the task entry holds the request.
    pub fn note_user_request(&mut self, text: &[u8])
        requires
            old(self).wf(),
        ensures
            final(self).wf(),
            user_noted(&*old(self), text@, &*final(self)),
            final(self).started(),
            final(self).turn() == vstd::wrapping::u16_specs::wrapping_add(start_turn(old(self)), 1),
            final(self).slots() == start_slots(old(self)).update(
                SLOT_TASK as int,
                rewritten(
                    start_slots(old(self))[SLOT_TASK as int],
                    SLOT_TASK as int,
                    final(self).turn(),
                    KIND_TASK,
                    STATE_DERIVED,
                    seq![117u8, 115, 101, 114, 95, 116, 117, 114, 110],
                    spec_summary_from_text(text@, MEMORY_SUMMARY_MAX as int),
                    Seq::empty(),
                ),
            ),
    {
        self.ensure_started();
        self.turn = self.turn.wrapping_add(1);
        let summary = summary_from_text(text, MEMORY_SUMMARY_MAX);
        let src: &[u8] = &[117u8, 115, 101, 114, 95, 116, 117, 114, 110];
        assert(src@ =~= seq![117u8, 115, 101, 114, 95, 116, 117, 114, 110]);
        let empty: &[u8] = &[];
        assert(empty@ =~= Seq::<u8>::empty());
        self.set_slot(SLOT_TASK, KIND_TASK, STATE_DERIVED, src, summary.as_slice(), empty);
    }

    /// Notes a tool's result in the entry of its kind (none for other tools): compacted
    /// when `spec_compact_tool_result` says so, else a short summary and the result itself
    /// (marked derived for a search, raw otherwise). Returns what a compaction trace
    /// reports.
    pub fn note_tool_result(&mut self, tool: &[u8], result: &[u8]) -> (r: Option<CompactionNote>)
        requires
            old(self).wf(),
        ensures
            final(self).wf(),
            tool_noted(&*old(self), tool@, result@, &*final(self)),
            final(self).started(),
            final(self).turn() == start_turn(old(self)),
            spec_tool_kind_slot(tool@) >= MEMORY_SLOT_COUNT ==> final(self).slots() == start_slots(old(self))
                && r is None,
            spec_tool_kind_slot(tool@) < MEMORY_SLOT_COUNT ==> final(self).slots() == start_slots(old(self)).update(
                spec_tool_kind_slot(tool@),
                tool_entry(start_slots(old(self)), start_turn(old(self)), tool@, result@),
            ),
            r matches Some(n) ==> spec_compact_tool_result(tool@, result@) is Some && n.slot == spec_tool_kind_slot(tool@)
                && n.previous_state == start_slots(old(self))[n.slot as int].state && n.source_chars == result.len(),
            spec_tool_kind_slot(tool@) < MEMORY_SLOT_COUNT && spec_compact_tool_result(tool@, result@) is Some ==> r is Some,
    {
        self.ensure_started();
        let slot = tool_kind_slot(tool);
        if slot >= MEMORY_SLOT_COUNT {
            return None;
        }
        let kind = if slot == SLOT_SOURCE {
            KIND_SOURCE
        } else if slot == SLOT_WORKSPACE {
            KIND_WORKSPACE
        } else {
            KIND_EXECUTION
        };
        match compact_tool_result_if_needed(tool, result) {
            Some((s, d)) => {
                let retained = s.len() + d.len();
                let previous = self.set_slot(slot, kind, STATE_COMPACTED, tool, s.as_slice(), d.as_slice());
                Some(CompactionNote { slot, previous_state: previous, source_chars: result.len(), retained_chars: retained })
            },
            None => {
                let search: &[u8] = &[115u8, 101, 97, 114, 99, 104, 95, 119, 101, 98];
                assert(search@ =~= seq![115u8, 101, 97, 114, 99, 104, 95, 119, 101, 98]);
                let state = if slot == SLOT_SOURCE && begins_with(tool, search) {
                    STATE_DERIVED
                } else {
                    STATE_RAW
                };
                let s = build_tool_summary(tool, result, MEMORY_SUMMARY_MAX);
                let d = summary_from_text(result, MEMORY_DETAIL_MAX);
                self.set_slot(slot, kind, state, tool, s.as_slice(), d.as_slice());
                None
            },
        }
    }

    /// Notes an answer in the conversation entry, compacted when longer than
    /// `COMPACTION_TRIGGER_CHARS`. Returns what a compaction trace reports.
    pub fn note_assistant_response(&mut self, text: &[u8]) -> (r: Option<CompactionNote>)
        requires
            old(self).wf(),
        ensures
            final(self).wf(),
            answer_noted(&*old(self), text@, &*final(self)),
            final(self).started(),
            final(self).turn() == start_turn(old(self)),
            final(self).slots() == start_slots(old(self)).update(
                SLOT_CONVERSATION as int,
                answer_entry(start_slots(old(self)), start_turn(old(self)), text@),
            ),
            r is Some <==> text.len() > COMPACTION_TRIGGER_CHARS,
    {
        self.ensure_started();
        let src: &[u8] = &[97u8, 115, 115, 105, 115, 116, 97, 110, 116, 95, 116, 117, 114, 110];
        assert(src@ =~= seq![97u8, 115, 115, 105, 115, 116, 97, 110, 116, 95, 116, 117, 114, 110]);
        if text.len() > COMPACTION_TRIGGER_CHARS {
            let (s, d) = build_conversation_compacted(text);
            let retained = s.len() + d.len();
            let previous = self.set_slot(SLOT_CONVERSATION, KIND_CONVERSATION, STATE_COMPACTED, src, s.as_slice(), d.as_slice());
            Some(CompactionNote { slot: SLOT_CONVERSATION, previous_state: previous, source_chars: text.len(), retained_chars: retained })
        } else {
            let s = summary_from_text(text, MEMORY_SUMMARY_MAX);
            let empty: &[u8] = &[];
            assert(empty@ =~= Seq::<u8>::empty());
            self.set_slot(SLOT_CONVERSATION, KIND_CONVERSATION, STATE_DERIVED, src, s.as_slice(), empty);
            None
        }
    }

    /// Records the sizes of the parts of a model context and their estimated tokens.
    pub fn record_context_budget(&mut self, b: ContextBudget)
        requires
            b.instructions_chars + b.current_request_chars + b.latest_tool_result_chars + b.working_memory_chars
                + b.known_sources_chars + b.workspace_memory_chars + b.session_state_chars
                + b.recent_conversation_chars <= usize::MAX,
        ensures
            final(self).slots() == old(self).slots(),
            final(self).turn() == old(self).turn(),
            final(self).started() == old(self).started(),
            final(self).budget() == budget_recorded(b),
    {
        let total = b.instructions_chars + b.current_request_chars + b.latest_tool_result_chars
            + b.working_memory_chars + b.known_sources_chars + b.workspace_memory_chars
            + b.session_state_chars + b.recent_conversation_chars;
        self.budget = ContextBudget { estimated_total_tokens: estimate_tokens(total), ..b };
    }

    /// The entry whose identifier is `id`.
    pub fn slot_from_id(&self, id: &[u8]) -> (r: Option<usize>)
        requires
            self.wf(),
        ensures
            match r {
                Some(i) => i < MEMORY_SLOT_COUNT && self.slots()[i as int].id == id@ && forall|k: int| 0 <= k < i ==> self.slots()[k].id != id@,
                None => forall|k: int| 0 <= k < MEMORY_SLOT_COUNT ==> self.slots()[k].id != id@,
            },
    {
        let mut i = 0usize;
        while i < MEMORY_SLOT_COUNT
            invariant
                self.wf(),
                i <= MEMORY_SLOT_COUNT,
                forall|k: int| 0 <= k < i ==> self.slots()[k].id != id@,
            decreases MEMORY_SLOT_COUNT - i,
        {
            assert(self.slots()[i as int] == self.slots@[i as int].view());
            if crate::bytes::bytes_eq(self.slots[i].id.as_slice(), id) {
                return Some(i);
            }
            i += 1;
        }
        None
    }

    /// The entry as a JSON object (see `entry_json`), appended to `out` below `cap`.
    pub fn append_entry_json(&self, out: &mut Vec<u8>, cap: usize, slot: usize, include_detail: bool)
        requires
            self.wf(),
            slot < MEMORY_SLOT_COUNT,
        ensures
            final(out)@ == entry_json(old(out)@, cap as int, self.slots()[slot as int], include_detail),
    {
        let s = &self.slots[slot];
        assert(self.slots()[slot as int] == s.view());
        append_entry_head(out, cap, s, include_detail);
        append_entry_tail(out, cap, s);
    }
}

/// A budget with its estimated tokens computed from its parts.
pub open spec fn budget_recorded(b: ContextBudget) -> ContextBudget {
    ContextBudget {
        estimated_total_tokens: spec_estimate_tokens(
            b.instructions_chars + b.current_request_chars + b.latest_tool_result_chars
                + b.working_memory_chars + b.known_sources_chars + b.workspace_memory_chars
                + b.session_state_chars + b.recent_conversation_chars,
        ) as usize,
        ..b
    }
}

/// The memory a note starts from: the current one, or a reset one when it had not
/// started.
pub open spec fn start_slots(m: &AgentMemory) -> Seq<SlotView> {
    if m.started() {
        m.slots()
    } else {
        Seq::new(MEMORY_SLOT_COUNT as nat, |i: int| empty_slot())
    }
}

pub open spec fn start_turn(m: &AgentMemory) -> u16 {
    if m.started() {
        m.turn()
    } else {
        0
    }
}

/// The context budget of `m` once started.
pub open spec fn start_budget(m: &AgentMemory) -> ContextBudget {
    if m.started() {
        m.budget()
    } else {
        zero_budget()
    }
}

/// `m2` is `m` once the user request `text` is noted.
pub open spec fn user_noted(m: &AgentMemory, text: Seq<u8>, m2: &AgentMemory) -> bool {
    &&& m2.started()
    &&& m2.budget() == start_budget(m)
    &&& m2.turn() == vstd::wrapping::u16_specs::wrapping_add(start_turn(m), 1)
    &&& m2.slots() == start_slots(m).update(
        SLOT_TASK as int,
        rewritten(
            start_slots(m)[SLOT_TASK as int],
            SLOT_TASK as int,
            m2.turn(),
            KIND_TASK,
            STATE_DERIVED,
            seq![117u8, 115, 101, 114, 95, 116, 117, 114, 110],
            spec_summary_from_text(text, MEMORY_SUMMARY_MAX as int),
            Seq::empty(),
        ),
    )
}

/// `m2` is `m` once the result of `tool` is noted.
pub open spec fn tool_noted(m: &AgentMemory, tool: Seq<u8>, result: Seq<u8>, m2: &AgentMemory) -> bool {
    &&& m2.started()
    &&& m2.budget() == start_budget(m)
    &&& m2.turn() == start_turn(m)
    &&& m2.slots() == (if spec_tool_kind_slot(tool) >= MEMORY_SLOT_COUNT {
        start_slots(m)
    } else {
        start_slots(m).update(spec_tool_kind_slot(tool), tool_entry(start_slots(m), start_turn(m), tool, result))
    })
}

/// `m2` is `m` once the answer `text` is noted.
pub open spec fn answer_noted(m: &AgentMemory, text: Seq<u8>, m2: &AgentMemory) -> bool {
    &&& m2.started()
    &&& m2.budget() == start_budget(m)
    &&& m2.turn() == start_turn(m)
    &&& m2.slots() == start_slots(m).update(SLOT_CONVERSATION as int, answer_entry(start_slots(m), start_turn(m), text))
}

/// What the memory holds, as plain values.
#[verifier::ext_equal]
pub struct MemView {
    pub started: bool,
    pub turn: u16,
    pub slots: Seq<SlotView>,
    pub budget: ContextBudget,
}

pub open spec fn mview(m: &AgentMemory) -> MemView {
    MemView { started: m.started(), turn: m.turn(), slots: m.slots(), budget: m.budget() }
}

/// The memory once started: unchanged when it was, empty slots, turn 0 and a zero
/// budget otherwise.
pub open spec fn mem_started(v: MemView) -> MemView {
    if v.started {
        v
    } else {
        MemView {
            started: true,
            turn: 0,
            slots: Seq::new(MEMORY_SLOT_COUNT as nat, |i: int| empty_slot()),
            budget: zero_budget(),
        }
    }
}

/// The memory after noting the user request `text`: a new turn, and the task slot
/// rewritten with the request's summary.
pub open spec fn mem_user(v: MemView, text: Seq<u8>) -> MemView {
    let b = mem_started(v);
    let turn = vstd::wrapping::u16_specs::wrapping_add(b.turn, 1);
    MemView {
        turn,
        slots: b.slots.update(
            SLOT_TASK as int,
            rewritten(
                b.slots[SLOT_TASK as int],
                SLOT_TASK as int,
                turn,
                KIND_TASK,
                STATE_DERIVED,
                seq![117u8, 115, 101, 114, 95, 116, 117, 114, 110],
                spec_summary_from_text(text, MEMORY_SUMMARY_MAX as int),
                Seq::empty(),
            ),
        ),
        ..b
    }
}

/// The memory after noting the result of `tool`: the slot of the tool's kind holds it
/// (no slot changes for a tool of no kind).
pub open spec fn mem_tool(v: MemView, tool: Seq<u8>, result: Seq<u8>) -> MemView {
    let b = mem_started(v);
    MemView {
        slots: if spec_tool_kind_slot(tool) >= MEMORY_SLOT_COUNT {
            b.slots
        } else {
            b.slots.update(spec_tool_kind_slot(tool), tool_entry(b.slots, b.turn, tool, result))
        },
        ..b
    }
}

/// The memory after noting the answer `text` in the conversation slot.
pub open spec fn mem_answer(v: MemView, text: Seq<u8>) -> MemView {
    let b = mem_started(v);
    MemView { slots: b.slots.update(SLOT_CONVERSATION as int, answer_entry(b.slots, b.turn, text)), ..b }
}

pub proof fn lemma_noted_views(m: &AgentMemory, m2: &AgentMemory, text: Seq<u8>, tool: Seq<u8>)
    ensures
        user_noted(m, text, m2) ==> mview(m2) == mem_user(mview(m), text),
        tool_noted(m, tool, text, m2) ==> mview(m2) == mem_tool(mview(m), tool, text),
        answer_noted(m, text, m2) ==> mview(m2) == mem_answer(mview(m), text),
{
    assert(start_slots(m) =~= mem_started(mview(m)).slots);
    if user_noted(m, text, m2) {
        assert(mview(m2) =~= mem_user(mview(m), text));
    }
    if tool_noted(m, tool, text, m2) {
        assert(mview(m2) =~= mem_tool(mview(m), tool, text));
    }
    if answer_noted(m, text, m2) {
        assert(mview(m2) =~= mem_answer(mview(m), text));
    }
}

pub open spec fn tool_kind_code(slot: int) -> u8 {
    if slot == SLOT_SOURCE {
        KIND_SOURCE
    } else if slot == SLOT_WORKSPACE {
        KIND_WORKSPACE
    } else {
        KIND_EXECUTION
    }
}

/// The entry a tool's result leaves in its slot.
pub open spec fn tool_entry(slots: Seq<SlotView>, turn: u16, tool: Seq<u8>, result: Seq<u8>) -> SlotView {
    let slot = spec_tool_kind_slot(tool);
    let old = slots[slot];
    match spec_compact_tool_result(tool, result) {
        Some((s, d)) => rewritten(old, slot, turn, tool_kind_code(slot), STATE_COMPACTED, tool, s, d),
        None => rewritten(
            old,
            slot,
            turn,
            tool_kind_code(slot),
            if slot == SLOT_SOURCE && begins(tool, seq![115u8, 101, 97, 114, 99, 104, 95, 119, 101, 98]) {
                STATE_DERIVED
            } else {
                STATE_RAW
            },
            tool,
            spec_tool_summary(tool, result, MEMORY_SUMMARY_MAX as int),
            spec_summary_from_text(result, MEMORY_DETAIL_MAX as int),
        ),
    }
}

/// The entry an answer leaves in the conversation slot.
pub open spec fn answer_entry(slots: Seq<SlotView>, turn: u16, text: Seq<u8>) -> SlotView {
    let old = slots[SLOT_CONVERSATION as int];
    if text.len() > COMPACTION_TRIGGER_CHARS {
        rewritten(
            old,
            SLOT_CONVERSATION as int,
            turn,
            KIND_CONVERSATION,
            STATE_COMPACTED,
            seq![97u8, 115, 115, 105, 115, 116, 97, 110, 116, 95, 116, 117, 114, 110],
            spec_conversation_compacted(text).0,
            spec_conversation_compacted(text).1,
        )
    } else {
        rewritten(
            old,
            SLOT_CONVERSATION as int,
            turn,
            KIND_CONVERSATION,
            STATE_DERIVED,
            seq![97u8, 115, 115, 105, 115, 116, 97, 110, 116, 95, 116, 117, 114, 110],
            spec_summary_from_text(text, MEMORY_SUMMARY_MAX as int),
            Seq::empty(),
        )
    }
}

/// An entry as a JSON object: identifier, kind, summary, the detail when asked for,
/// source, state, turns, size and estimated tokens.
pub open spec fn entry_json(out: Seq<u8>, cap: int, s: SlotView, include_detail: bool) -> Seq<u8> {
    entry_json_tail(entry_json_head(out, cap, s, include_detail), cap, s)
}

pub open spec fn entry_json_head(out: Seq<u8>, cap: int, s: SlotView, include_detail: bool) -> Seq<u8> {
    let a = crate::model::esc(ba(out, cap, seq![123u8, 34, 105, 100, 34, 58, 34]), cap, s.id);
    let b = crate::model::esc(ba(ba(ba(a, cap, seq![34u8, 44, 34, 107, 105, 110, 100, 34, 58, 34]), cap, spec_kind_name(s.kind)), cap, seq![34u8, 44, 34, 115, 117, 109, 109, 97, 114, 121, 34, 58, 34]), cap, s.summary);
    if include_detail {
        crate::model::esc(ba(b, cap, seq![34u8, 44, 34, 100, 101, 116, 97, 105, 108, 34, 58, 34]), cap, s.detail)
    } else {
        b
    }
}

pub open spec fn entry_json_tail(out: Seq<u8>, cap: int, s: SlotView) -> Seq<u8> {
    let d = crate::model::esc(ba(out, cap, seq![34u8, 44, 34, 115, 111, 117, 114, 99, 101, 34, 58, 34]), cap, s.source);
    let e = ba(ba(d, cap, seq![34u8, 44, 34, 115, 116, 97, 116, 101, 34, 58, 34]), cap, spec_state_name(s.state));
    let f = ba(ba(e, cap, seq![34u8, 44, 34, 99, 114, 101, 97, 116, 101, 100, 95, 116, 117, 114, 110, 34, 58]), cap, dec_digits(s.created_turn as nat));
    let g = ba(ba(f, cap, seq![44u8, 34, 117, 112, 100, 97, 116, 101, 100, 95, 116, 117, 114, 110, 34, 58]), cap, dec_digits(s.updated_turn as nat));
    let chars = s.summary.len() + s.detail.len();
    let h = ba(ba(g, cap, seq![44u8, 34, 99, 104, 97, 114, 115, 34, 58]), cap, dec_digits(chars as nat));
    let i = ba(ba(h, cap, seq![44u8, 34, 101, 115, 116, 105, 109, 97, 116, 101, 100, 95, 116, 111, 107, 101, 110, 115, 34, 58]), cap, dec_digits(spec_estimate_tokens(chars as int) as nat));
    ba(i, cap, seq![125u8])
}

fn append_entry_head(out: &mut Vec<u8>, cap: usize, s: &MemorySlot, include_detail: bool)
    ensures
        final(out)@ == entry_json_head(old(out)@, cap as int, s.view(), include_detail),
{
    let p_id: &[u8] = &[123u8, 34, 105, 100, 34, 58, 34];
    let p_kind: &[u8] = &[34u8, 44, 34, 107, 105, 110, 100, 34, 58, 34];
    let p_summary: &[u8] = &[34u8, 44, 34, 115, 117, 109, 109, 97, 114, 121, 34, 58, 34];
    let p_detail: &[u8] = &[34u8, 44, 34, 100, 101, 116, 97, 105, 108, 34, 58, 34];
    assert(p_id@ =~= seq![123u8, 34, 105, 100, 34, 58, 34]);
    assert(p_kind@ =~= seq![34u8, 44, 34, 107, 105, 110, 100, 34, 58, 34]);
    assert(p_summary@ =~= seq![34u8, 44, 34, 115, 117, 109, 109, 97, 114, 121, 34, 58, 34]);
    assert(p_detail@ =~= seq![34u8, 44, 34, 100, 101, 116, 97, 105, 108, 34, 58, 34]);
    append_bytes(out, cap, p_id);
    crate::json::json_escape_append(out, cap, s.id.as_slice());
    append_bytes(out, cap, p_kind);
    append_bytes(out, cap, kind_name(s.kind));
    append_bytes(out, cap, p_summary);
    crate::json::json_escape_append(out, cap, s.summary.as_slice());
    if include_detail {
        append_bytes(out, cap, p_detail);
        crate::json::json_escape_append(out, cap, s.detail.as_slice());
    }
}

fn append_entry_tail(out: &mut Vec<u8>, cap: usize, s: &MemorySlot)
    requires
        s.summary.len() <= MEMORY_SUMMARY_MAX,
        s.detail.len() <= MEMORY_DETAIL_MAX,
    ensures
        final(out)@ == entry_json_tail(old(out)@, cap as int, s.view()),
{
    let p_source: &[u8] = &[34u8, 44, 34, 115, 111, 117, 114, 99, 101, 34, 58, 34];
    let p_state: &[u8] = &[34u8, 44, 34, 115, 116, 97, 116, 101, 34, 58, 34];
    let p_created: &[u8] = &[34u8, 44, 34, 99, 114, 101, 97, 116, 101, 100, 95, 116, 117, 114, 110, 34, 58];
    let p_updated: &[u8] = &[44u8, 34, 117, 112, 100, 97, 116, 101, 100, 95, 116, 117, 114, 110, 34, 58];
    let p_chars: &[u8] = &[44u8, 34, 99, 104, 97, 114, 115, 34, 58];
    let p_tokens: &[u8] = &[44u8, 34, 101, 115, 116, 105, 109, 97, 116, 101, 100, 95, 116, 111, 107, 101, 110, 115, 34, 58];
    let p_end: &[u8] = &[125u8];
    assert(p_source@ =~= seq![34u8, 44, 34, 115, 111, 117, 114, 99, 101, 34, 58, 34]);
    assert(p_state@ =~= seq![34u8, 44, 34, 115, 116, 97, 116, 101, 34, 58, 34]);
    assert(p_created@ =~= seq![34u8, 44, 34, 99, 114, 101, 97, 116, 101, 100, 95, 116, 117, 114, 110, 34, 58]);
    assert(p_updated@ =~= seq![44u8, 34, 117, 112, 100, 97, 116, 101, 100, 95, 116, 117, 114, 110, 34, 58]);
    assert(p_chars@ =~= seq![44u8, 34, 99, 104, 97, 114, 115, 34, 58]);
    assert(p_tokens@ =~= seq![44u8, 34, 101, 115, 116, 105, 109, 97, 116, 101, 100, 95, 116, 111, 107, 101, 110, 115, 34, 58]);
    assert(p_end@ =~= seq![125u8]);
    append_bytes(out, cap, p_source);
    crate::json::json_escape_append(out, cap, s.source.as_slice());
    append_bytes(out, cap, p_state);
    append_bytes(out, cap, state_name(s.state));
    append_bytes(out, cap, p_created);
    crate::bytes::append_u64_dec(out, cap, s.created_turn as u64);
    append_bytes(out, cap, p_updated);
    crate::bytes::append_u64_dec(out, cap, s.updated_turn as u64);
    let chars = s.summary.len() as u64 + s.detail.len() as u64;
    append_bytes(out, cap, p_chars);
    crate::bytes::append_u64_dec(out, cap, chars);
    append_bytes(out, cap, p_tokens);
    let tokens = if chars == 0 {
        0u64
    } else {
        chars / 4 + if chars % 4 == 0 {
            0u64
        } else {
            1u64
        }
    };
    crate::bytes::append_u64_dec(out, cap, tokens);
    append_bytes(out, cap, p_end);
}


// ---------------------------------------------------------------------------
// Views of the memory
// ---------------------------------------------------------------------------

/// How many entries of `kind` with a summary there are from slot `i` on.
pub open spec fn count_kind(slots: Seq<SlotView>, kind: u8, i: int) -> nat
    decreases slots.len() - i,
{
    if i < 0 || i >= slots.len() {
        0
    } else {
        count_kind(slots, kind, i + 1) + (if slots[i].kind == kind && slots[i].summary.len() != 0 {
            1nat
        } else {
            0nat
        })
    }
}

pub open spec fn dec_field(out: Seq<u8>, cap: int, name: Seq<u8>, v: nat) -> Seq<u8> {
    ba(ba(out, cap, name), cap, dec_digits(v))
}

/// The status of the memory as JSON: entries per kind and the last context budget.
pub open spec fn status_json(slots: Seq<SlotView>, b: ContextBudget, cap: int) -> Seq<u8> {
    ba(status_budget(ba(status_counts(slots, cap), cap, seq![125u8, 44, 34, 98, 117, 100, 103, 101, 116, 34, 58, 123]), b, cap), cap, seq![125u8, 44, 34, 99, 104, 101, 99, 107, 112, 111, 105, 110, 116, 95, 97, 118, 97, 105, 108, 97, 98, 108, 101, 34, 58, 102, 97, 108, 115, 101, 125])
}

pub open spec fn status_counts(slots: Seq<SlotView>, cap: int) -> Seq<u8> {
    let a = ba(Seq::empty(), cap, seq![123u8, 34, 111, 107, 34, 58, 116, 114, 117, 101, 44, 34, 99, 111, 117, 110, 116, 115, 34, 58, 123]);
    let c1 = dec_field(a, cap, seq![34u8, 116, 97, 115, 107, 34, 58], count_kind(slots, KIND_TASK, 0));
    let c2 = dec_field(c1, cap, seq![44u8, 34, 115, 111, 117, 114, 99, 101, 34, 58], count_kind(slots, KIND_SOURCE, 0));
    let c3 = dec_field(c2, cap, seq![44u8, 34, 119, 111, 114, 107, 115, 112, 97, 99, 101, 34, 58], count_kind(slots, KIND_WORKSPACE, 0));
    let c4 = dec_field(c3, cap, seq![44u8, 34, 101, 120, 101, 99, 117, 116, 105, 111, 110, 34, 58], count_kind(slots, KIND_EXECUTION, 0));
    dec_field(c4, cap, seq![44u8, 34, 99, 111, 110, 118, 101, 114, 115, 97, 116, 105, 111, 110, 34, 58], count_kind(slots, KIND_CONVERSATION, 0))
}

pub open spec fn status_budget(d: Seq<u8>, b: ContextBudget, cap: int) -> Seq<u8> {
    let b1 = dec_field(d, cap, seq![34u8, 105, 110, 115, 116, 114, 117, 99, 116, 105, 111, 110, 115, 95, 99, 104, 97, 114, 115, 34, 58], b.instructions_chars as nat);
    let b2 = dec_field(b1, cap, seq![44u8, 34, 99, 117, 114, 114, 101, 110, 116, 95, 114, 101, 113, 117, 101, 115, 116, 95, 99, 104, 97, 114, 115, 34, 58], b.current_request_chars as nat);
    let b3 = dec_field(b2, cap, seq![44u8, 34, 108, 97, 116, 101, 115, 116, 95, 116, 111, 111, 108, 95, 114, 101, 115, 117, 108, 116, 95, 99, 104, 97, 114, 115, 34, 58], b.latest_tool_result_chars as nat);
    let b4 = dec_field(b3, cap, seq![44u8, 34, 119, 111, 114, 107, 105, 110, 103, 95, 109, 101, 109, 111, 114, 121, 95, 99, 104, 97, 114, 115, 34, 58], b.working_memory_chars as nat);
    let b5 = dec_field(b4, cap, seq![44u8, 34, 107, 110, 111, 119, 110, 95, 115, 111, 117, 114, 99, 101, 115, 95, 99, 104, 97, 114, 115, 34, 58], b.known_sources_chars as nat);
    let b6 = dec_field(b5, cap, seq![44u8, 34, 119, 111, 114, 107, 115, 112, 97, 99, 101, 95, 109, 101, 109, 111, 114, 121, 95, 99, 104, 97, 114, 115, 34, 58], b.workspace_memory_chars as nat);
    let b7 = dec_field(b6, cap, seq![44u8, 34, 115, 101, 115, 115, 105, 111, 110, 95, 115, 116, 97, 116, 101, 95, 99, 104, 97, 114, 115, 34, 58], b.session_state_chars as nat);
    let b8 = dec_field(b7, cap, seq![44u8, 34, 114, 101, 99, 101, 110, 116, 95, 99, 111, 110, 118, 101, 114, 115, 97, 116, 105, 111, 110, 95, 99, 104, 97, 114, 115, 34, 58], b.recent_conversation_chars as nat);
    dec_field(b8, cap, seq![44u8, 34, 101, 115, 116, 105, 109, 97, 116, 101, 100, 95, 116, 111, 116, 97, 108, 95, 116, 111, 107, 101, 110, 115, 34, 58], b.estimated_total_tokens as nat)
}

fn append_status_budget(out: &mut Vec<u8>, cap: usize, b: ContextBudget)
    ensures
        final(out)@ == status_budget(old(out)@, b, cap as int),
{
    let q1: &[u8] = &[34u8, 105, 110, 115, 116, 114, 117, 99, 116, 105, 111, 110, 115, 95, 99, 104, 97, 114, 115, 34, 58];
    let q2: &[u8] = &[44u8, 34, 99, 117, 114, 114, 101, 110, 116, 95, 114, 101, 113, 117, 101, 115, 116, 95, 99, 104, 97, 114, 115, 34, 58];
    let q3: &[u8] = &[44u8, 34, 108, 97, 116, 101, 115, 116, 95, 116, 111, 111, 108, 95, 114, 101, 115, 117, 108, 116, 95, 99, 104, 97, 114, 115, 34, 58];
    let q4: &[u8] = &[44u8, 34, 119, 111, 114, 107, 105, 110, 103, 95, 109, 101, 109, 111, 114, 121, 95, 99, 104, 97, 114, 115, 34, 58];
    let q5: &[u8] = &[44u8, 34, 107, 110, 111, 119, 110, 95, 115, 111, 117, 114, 99, 101, 115, 95, 99, 104, 97, 114, 115, 34, 58];
    let q6: &[u8] = &[44u8, 34, 119, 111, 114, 107, 115, 112, 97, 99, 101, 95, 109, 101, 109, 111, 114, 121, 95, 99, 104, 97, 114, 115, 34, 58];
    let q7: &[u8] = &[44u8, 34, 115, 101, 115, 115, 105, 111, 110, 95, 115, 116, 97, 116, 101, 95, 99, 104, 97, 114, 115, 34, 58];
    let q8: &[u8] = &[44u8, 34, 114, 101, 99, 101, 110, 116, 95, 99, 111, 110, 118, 101, 114, 115, 97, 116, 105, 111, 110, 95, 99, 104, 97, 114, 115, 34, 58];
    let q9: &[u8] = &[44u8, 34, 101, 115, 116, 105, 109, 97, 116, 101, 100, 95, 116, 111, 116, 97, 108, 95, 116, 111, 107, 101, 110, 115, 34, 58];
    assert(q1@ =~= seq![34u8, 105, 110, 115, 116, 114, 117, 99, 116, 105, 111, 110, 115, 95, 99, 104, 97, 114, 115, 34, 58]);
    assert(q2@ =~= seq![44u8, 34, 99, 117, 114, 114, 101, 110, 116, 95, 114, 101, 113, 117, 101, 115, 116, 95, 99, 104, 97, 114, 115, 34, 58]);
    assert(q3@ =~= seq![44u8, 34, 108, 97, 116, 101, 115, 116, 95, 116, 111, 111, 108, 95, 114, 101, 115, 117, 108, 116, 95, 99, 104, 97, 114, 115, 34, 58]);
    assert(q4@ =~= seq![44u8, 34, 119, 111, 114, 107, 105, 110, 103, 95, 109, 101, 109, 111, 114, 121, 95, 99, 104, 97, 114, 115, 34, 58]);
    assert(q5@ =~= seq![44u8, 34, 107, 110, 111, 119, 110, 95, 115, 111, 117, 114, 99, 101, 115, 95, 99, 104, 97, 114, 115, 34, 58]);
    assert(q6@ =~= seq![44u8, 34, 119, 111, 114, 107, 115, 112, 97, 99, 101, 95, 109, 101, 109, 111, 114, 121, 95, 99, 104, 97, 114, 115, 34, 58]);
    assert(q7@ =~= seq![44u8, 34, 115, 101, 115, 115, 105, 111, 110, 95, 115, 116, 97, 116, 101, 95, 99, 104, 97, 114, 115, 34, 58]);
    assert(q8@ =~= seq![44u8, 34, 114, 101, 99, 101, 110, 116, 95, 99, 111, 110, 118, 101, 114, 115, 97, 116, 105, 111, 110, 95, 99, 104, 97, 114, 115, 34, 58]);
    assert(q9@ =~= seq![44u8, 34, 101, 115, 116, 105, 109, 97, 116, 101, 100, 95, 116, 111, 116, 97, 108, 95, 116, 111, 107, 101, 110, 115, 34, 58]);
    append_dec_field(out, cap, q1, b.instructions_chars as u64);
    append_dec_field(out, cap, q2, b.current_request_chars as u64);
    append_dec_field(out, cap, q3, b.latest_tool_result_chars as u64);
    append_dec_field(out, cap, q4, b.working_memory_chars as u64);
    append_dec_field(out, cap, q5, b.known_sources_chars as u64);
    append_dec_field(out, cap, q6, b.workspace_memory_chars as u64);
    append_dec_field(out, cap, q7, b.session_state_chars as u64);
    append_dec_field(out, cap, q8, b.recent_conversation_chars as u64);
    append_dec_field(out, cap, q9, b.estimated_total_tokens as u64);
}

fn append_dec_field(out: &mut Vec<u8>, cap: usize, name: &[u8], v: u64)
    ensures
        final(out)@ == dec_field(old(out)@, cap as int, name@, v as nat),
{
    append_bytes(out, cap, name);
    crate::bytes::append_u64_dec(out, cap, v);
}

/// An entry can be listed: it has a kind and a summary.
pub open spec fn listed(s: SlotView) -> bool {
    s.kind != KIND_NONE && s.summary.len() != 0
}

/// The kind filter of a listing: empty, or the entry's kind name.
pub open spec fn kind_matches(s: SlotView, kind: Seq<u8>) -> bool {
    kind.len() == 0 || spec_kind_name(s.kind) == kind
}

/// The listed entries from slot `i` on, `count` written already.
pub open spec fn list_from(slots: Seq<SlotView>, kind: Seq<u8>, i: int, count: nat, out: Seq<u8>, cap: int) -> Seq<u8>
    decreases slots.len() - i,
{
    if i < 0 || i >= slots.len() {
        out
    } else if listed(slots[i]) && kind_matches(slots[i], kind) {
        let sep = if count != 0 {
            ba(out, cap, seq![44u8])
        } else {
            out
        };
        list_from(slots, kind, i + 1, count + 1, entry_json(sep, cap, slots[i], false), cap)
    } else {
        list_from(slots, kind, i + 1, count, out, cap)
    }
}

pub open spec fn list_json(slots: Seq<SlotView>, kind: Seq<u8>, cap: int) -> Seq<u8> {
    ba(
        list_from(slots, kind, 0, 0, ba(Seq::empty(), cap, seq![123u8, 34, 111, 107, 34, 58, 116, 114, 117, 101, 44, 34, 101, 110, 116, 114, 105, 101, 115, 34, 58, 91]), cap),
        cap,
        seq![93u8, 44, 34, 116, 114, 117, 110, 99, 97, 116, 101, 100, 34, 58, 102, 97, 108, 115, 101, 125],
    )
}

pub open spec fn unknown_memory_json() -> Seq<u8> {
    seq![123u8, 34, 111, 107, 34, 58, 102, 97, 108, 115, 101, 44, 34, 101, 114, 114, 111, 114, 34, 58, 123, 34, 99, 111, 100, 101, 34, 58, 34, 117, 110, 107, 110, 111, 119, 110, 95, 109, 101, 109, 111, 114, 121, 95, 105, 100, 34, 44, 34, 109, 101, 115, 115, 97, 103, 101, 34, 58, 34, 109, 101, 109, 111, 114, 121, 32, 101, 110, 116, 114, 121, 32, 119, 97, 115, 32, 110, 111, 116, 32, 102, 111, 117, 110, 100, 34, 125, 125]
}

/// The first slot from `i` on whose identifier is `id`.
pub open spec fn slot_with_id(slots: Seq<SlotView>, id: Seq<u8>, i: int) -> int
    decreases slots.len() - i,
{
    if i < 0 || i >= slots.len() {
        slots.len() as int
    } else if slots[i].id == id {
        i
    } else {
        slot_with_id(slots, id, i + 1)
    }
}

pub open spec fn read_json(slots: Seq<SlotView>, id: Seq<u8>, cap: int) -> Seq<u8> {
    let i = slot_with_id(slots, id, 0);
    if 0 <= i < slots.len() {
        ba(entry_json(ba(Seq::empty(), cap, seq![123u8, 34, 111, 107, 34, 58, 116, 114, 117, 101, 44, 34, 101, 110, 116, 114, 121, 34, 58]), cap, slots[i], true), cap, seq![125u8])
    } else {
        ba(Seq::empty(), cap, unknown_memory_json())
    }
}

pub const PROMPT_LINE_MAX: usize = 896;

/// The prompt line of an entry: `- [kind/state] summary | detail`, built in
/// `PROMPT_LINE_MAX` bytes.
pub open spec fn prompt_line(s: SlotView) -> Seq<u8> {
    let c = PROMPT_LINE_MAX as int;
    let a = ba(ba(ba(ba(ba(Seq::empty(), c, seq![45u8, 32, 91]), c, spec_kind_name(s.kind)), c, seq![47u8]), c, spec_state_name(s.state)), c, seq![93u8, 32]);
    let b = a + utf8_prefix(s.summary, c - a.len());
    let d = if s.detail.len() != 0 {
        let b2 = ba(b, c, seq![32u8, 124, 32]);
        b2 + utf8_prefix(s.detail, c - b2.len())
    } else {
        b
    };
    ba(d, c, seq![10u8])
}

/// The prompt lines of the entries of `order` from `k` on, written after `out` while the
/// bytes written since `start` stay under `budget`; each line is cut at a UTF-8 boundary
/// to what is left of the budget.
pub open spec fn lines_from(slots: Seq<SlotView>, order: Seq<usize>, k: int, out: Seq<u8>, cap: int, start: int, budget: int) -> Seq<u8>
    decreases order.len() - k,
{
    if k < 0 || k >= order.len() || out.len() - start >= budget {
        out
    } else if 0 <= order[k] < slots.len() && listed(slots[order[k] as int]) {
        let line = prompt_line(slots[order[k] as int]);
        let left = budget - (out.len() - start);
        let take = crate::utf8::valid_prefix_end(line, 0, crate::bytes::min_int(left, line.len() as int));
        lines_from(slots, order, k + 1, ba(out, cap, line.take(take)), cap, start, budget)
    } else {
        lines_from(slots, order, k + 1, out, cap, start, budget)
    }
}

impl AgentMemory {
    /// Counts of entries per kind and the last context budget, as JSON within `cap`
    /// bytes.
    pub fn build_memory_status_json(&mut self, cap: usize) -> (r: Vec<u8>)
        requires
            old(self).wf(),
        ensures
            final(self).wf(),
            final(self).started(),
            final(self).slots() == start_slots(old(self)),
            final(self).turn() == start_turn(old(self)),
            r@ == status_json(final(self).slots(), final(self).budget(), cap as int),
    {
        self.ensure_started();
        let counts = self.count_kinds();
        let p0: &[u8] = &[123u8, 34, 111, 107, 34, 58, 116, 114, 117, 101, 44, 34, 99, 111, 117, 110, 116, 115, 34, 58, 123];
        let p1: &[u8] = &[34u8, 116, 97, 115, 107, 34, 58];
        let p2: &[u8] = &[44u8, 34, 115, 111, 117, 114, 99, 101, 34, 58];
        let p3: &[u8] = &[44u8, 34, 119, 111, 114, 107, 115, 112, 97, 99, 101, 34, 58];
        let p4: &[u8] = &[44u8, 34, 101, 120, 101, 99, 117, 116, 105, 111, 110, 34, 58];
        let p5: &[u8] = &[44u8, 34, 99, 111, 110, 118, 101, 114, 115, 97, 116, 105, 111, 110, 34, 58];
        let p6: &[u8] = &[125u8, 44, 34, 98, 117, 100, 103, 101, 116, 34, 58, 123];
        let end: &[u8] = &[125u8, 44, 34, 99, 104, 101, 99, 107, 112, 111, 105, 110, 116, 95, 97, 118, 97, 105, 108, 97, 98, 108, 101, 34, 58, 102, 97, 108, 115, 101, 125];
        assert(p0@ =~= seq![123u8, 34, 111, 107, 34, 58, 116, 114, 117, 101, 44, 34, 99, 111, 117, 110, 116, 115, 34, 58, 123]);
        assert(p1@ =~= seq![34u8, 116, 97, 115, 107, 34, 58]);
        assert(p2@ =~= seq![44u8, 34, 115, 111, 117, 114, 99, 101, 34, 58]);
        assert(p3@ =~= seq![44u8, 34, 119, 111, 114, 107, 115, 112, 97, 99, 101, 34, 58]);
        assert(p4@ =~= seq![44u8, 34, 101, 120, 101, 99, 117, 116, 105, 111, 110, 34, 58]);
        assert(p5@ =~= seq![44u8, 34, 99, 111, 110, 118, 101, 114, 115, 97, 116, 105, 111, 110, 34, 58]);
        assert(p6@ =~= seq![125u8, 44, 34, 98, 117, 100, 103, 101, 116, 34, 58, 123]);
        assert(end@ =~= seq![125u8, 44, 34, 99, 104, 101, 99, 107, 112, 111, 105, 110, 116, 95, 97, 118, 97, 105, 108, 97, 98, 108, 101, 34, 58, 102, 97, 108, 115, 101, 125]);
        let mut out: Vec<u8> = Vec::new();
        append_bytes(&mut out, cap, p0);
        append_dec_field(&mut out, cap, p1, counts[1]);
        append_dec_field(&mut out, cap, p2, counts[2]);
        append_dec_field(&mut out, cap, p3, counts[3]);
        append_dec_field(&mut out, cap, p4, counts[4]);
        append_dec_field(&mut out, cap, p5, counts[5]);
        assert(out@ == status_counts(self.slots(), cap as int));
        append_bytes(&mut out, cap, p6);
        append_status_budget(&mut out, cap, self.budget);
        append_bytes(&mut out, cap, end);
        out
    }

    fn count_kinds(&self) -> (counts: [u64; 6])
        requires
            self.wf(),
        ensures
            forall|k: int| 1 <= k <= 5 ==> counts@[k] == count_kind(self.slots(), k as u8, 0),
    {
        let mut counts: [u64; 6] = [0u64; 6];
        let mut i = 0usize;
        while i < MEMORY_SLOT_COUNT
            invariant
                self.wf(),
                i <= MEMORY_SLOT_COUNT,
                forall|k: int| 1 <= k <= 5 ==> counts@[k] + count_kind(self.slots(), k as u8, i as int) == count_kind(self.slots(), k as u8, 0),
                forall|k: int| 1 <= k <= 5 ==> counts@[k] <= i,
            decreases MEMORY_SLOT_COUNT - i,
        {
            let kind = self.slots[i].kind;
            assert(self.slots()[i as int] == self.slots@[i as int].view());
            if 1 <= kind && kind <= 5 && self.slots[i].summary.len() != 0 {
                let c = counts[kind as usize];
                counts[kind as usize] = c + 1;
            }
            i += 1;
        }
        counts
    }

    /// The listed entries (of kind `kind`, when not empty) as JSON within `cap` bytes.
    pub fn build_list_memory_json(&mut self, kind: &[u8], cap: usize) -> (r: Vec<u8>)
        requires
            old(self).wf(),
        ensures
            final(self).wf(),
            final(self).started(),
            final(self).slots() == start_slots(old(self)),
            final(self).turn() == start_turn(old(self)),
            r@ == list_json(final(self).slots(), kind@, cap as int),
    {
        self.ensure_started();
        let head: &[u8] = &[123u8, 34, 111, 107, 34, 58, 116, 114, 117, 101, 44, 34, 101, 110, 116, 114, 105, 101, 115, 34, 58, 91];
        let comma: &[u8] = &[44u8];
        let tail: &[u8] = &[93u8, 44, 34, 116, 114, 117, 110, 99, 97, 116, 101, 100, 34, 58, 102, 97, 108, 115, 101, 125];
        assert(head@ =~= seq![123u8, 34, 111, 107, 34, 58, 116, 114, 117, 101, 44, 34, 101, 110, 116, 114, 105, 101, 115, 34, 58, 91]);
        assert(comma@ =~= seq![44u8]);
        assert(tail@ =~= seq![93u8, 44, 34, 116, 114, 117, 110, 99, 97, 116, 101, 100, 34, 58, 102, 97, 108, 115, 101, 125]);
        let mut out: Vec<u8> = Vec::new();
        append_bytes(&mut out, cap, head);
        let mut count = 0usize;
        let mut i = 0usize;
        while i < MEMORY_SLOT_COUNT
            invariant
                self.wf(),
                i <= MEMORY_SLOT_COUNT,
                count <= i,
                comma@ == seq![44u8],
                list_from(self.slots(), kind@, i as int, count as nat, out@, cap as int) == list_from(
                    self.slots(),
                    kind@,
                    0,
                    0,
                    ba(Seq::empty(), cap as int, seq![123u8, 34, 111, 107, 34, 58, 116, 114, 117, 101, 44, 34, 101, 110, 116, 114, 105, 101, 115, 34, 58, 91]),
                    cap as int,
                ),
            decreases MEMORY_SLOT_COUNT - i,
        {
            let s = &self.slots[i];
            assert(self.slots()[i as int] == s.view());
            let matches = kind.len() == 0 || crate::bytes::bytes_eq(kind_name(s.kind), kind);
            if s.kind != KIND_NONE && s.summary.len() != 0 && matches {
                if count != 0 {
                    append_bytes(&mut out, cap, comma);
                }
                self.append_entry_json(&mut out, cap, i, false);
                count += 1;
            }
            i += 1;
        }
        append_bytes(&mut out, cap, tail);
        out
    }

    /// The entry `id` with its detail as JSON within `cap` bytes, or an error object.
    pub fn build_read_memory_json(&mut self, id: &[u8], cap: usize) -> (r: Vec<u8>)
        requires
            old(self).wf(),
        ensures
            final(self).wf(),
            final(self).started(),
            final(self).slots() == start_slots(old(self)),
            final(self).turn() == start_turn(old(self)),
            r@ == read_json(final(self).slots(), id@, cap as int),
    {
        self.ensure_started();
        let mut i = 0usize;
        while i < MEMORY_SLOT_COUNT && !crate::bytes::bytes_eq(self.slots[i].id.as_slice(), id)
            invariant
                self.wf(),
                i <= MEMORY_SLOT_COUNT,
                slot_with_id(self.slots(), id@, i as int) == slot_with_id(self.slots(), id@, 0),
            decreases MEMORY_SLOT_COUNT - i,
        {
            assert(self.slots()[i as int] == self.slots@[i as int].view());
            i += 1;
        }
        let mut out: Vec<u8> = Vec::new();
        if i >= MEMORY_SLOT_COUNT {
            let msg: &[u8] = &[123u8, 34, 111, 107, 34, 58, 102, 97, 108, 115, 101, 44, 34, 101, 114, 114, 111, 114, 34, 58, 123, 34, 99, 111, 100, 101, 34, 58, 34, 117, 110, 107, 110, 111, 119, 110, 95, 109, 101, 109, 111, 114, 121, 95, 105, 100, 34, 44, 34, 109, 101, 115, 115, 97, 103, 101, 34, 58, 34, 109, 101, 109, 111, 114, 121, 32, 101, 110, 116, 114, 121, 32, 119, 97, 115, 32, 110, 111, 116, 32, 102, 111, 117, 110, 100, 34, 125, 125];
            assert(msg@ =~= unknown_memory_json());
            append_bytes(&mut out, cap, msg);
            return out;
        }
        assert(self.slots()[i as int] == self.slots@[i as int].view());
        let head: &[u8] = &[123u8, 34, 111, 107, 34, 58, 116, 114, 117, 101, 44, 34, 101, 110, 116, 114, 121, 34, 58];
        let end: &[u8] = &[125u8];
        assert(head@ =~= seq![123u8, 34, 111, 107, 34, 58, 116, 114, 117, 101, 44, 34, 101, 110, 116, 114, 121, 34, 58]);
        assert(end@ =~= seq![125u8]);
        append_bytes(&mut out, cap, head);
        self.append_entry_json(&mut out, cap, i, true);
        append_bytes(&mut out, cap, end);
        out
    }

    fn prompt_line_bytes(&self, slot: usize) -> (r: Vec<u8>)
        requires
            self.wf(),
            slot < MEMORY_SLOT_COUNT,
        ensures
            r@ == prompt_line(self.slots()[slot as int]),
    {
        let s = &self.slots[slot];
        assert(self.slots()[slot as int] == s.view());
        let c = PROMPT_LINE_MAX;
        let p0: &[u8] = &[45u8, 32, 91];
        let p1: &[u8] = &[47u8];
        let p2: &[u8] = &[93u8, 32];
        let p3: &[u8] = &[32u8, 124, 32];
        let nl: &[u8] = &[10u8];
        assert(p0@ =~= seq![45u8, 32, 91]);
        assert(p1@ =~= seq![47u8]);
        assert(p2@ =~= seq![93u8, 32]);
        assert(p3@ =~= seq![32u8, 124, 32]);
        assert(nl@ =~= seq![10u8]);
        let mut line: Vec<u8> = Vec::new();
        append_bytes(&mut line, c, p0);
        append_bytes(&mut line, c, kind_name(s.kind));
        append_bytes(&mut line, c, p1);
        append_bytes(&mut line, c, state_name(s.state));
        append_bytes(&mut line, c, p2);
        let sp = crate::utf8::copy_utf8_prefix(c - line.len(), s.summary.as_slice());
        crate::bytes::append_all(&mut line, sp.as_slice());
        proof {
            crate::utf8::lemma_valid_prefix_end_range(s.summary@, 0, crate::bytes::min_int((c - (line.len() - sp.len())) as int, s.summary.len() as int));
        }
        if s.detail.len() != 0 {
            append_bytes(&mut line, c, p3);
            let dp = crate::utf8::copy_utf8_prefix(c - line.len(), s.detail.as_slice());
            crate::bytes::append_all(&mut line, dp.as_slice());
            proof {
                crate::utf8::lemma_valid_prefix_end_range(s.detail@, 0, crate::bytes::min_int((c - (line.len() - dp.len())) as int, s.detail.len() as int));
            }
        }
        append_bytes(&mut line, c, nl);
        line
    }

    /// Appends to `out` (capacity `cap`) the prompt lines of the entries in `order` while
    /// fewer than `budget` bytes have been written; returns how many were (see
    /// `lines_from`).
    pub fn append_slots_to(&self, out: &mut Vec<u8>, cap: usize, order: &[usize], budget: usize) -> (n: usize)
        requires
            self.wf(),
        ensures
            final(out)@ == lines_from(self.slots(), order@, 0, old(out)@, cap as int, old(out).len() as int, budget as int),
            n == final(out).len() - old(out).len(),
    {
        let start = out.len();
        let mut k = 0usize;
        while k < order.len() && out.len() - start < budget
            invariant
                self.wf(),
                k <= order.len(),
                start <= out.len(),
                lines_from(self.slots(), order@, k as int, out@, cap as int, start as int, budget as int)
                    == lines_from(self.slots(), order@, 0, old(out)@, cap as int, start as int, budget as int),
            decreases order.len() - k,
        {
            let slot = order[k];
            if slot < MEMORY_SLOT_COUNT {
                assert(self.slots()[slot as int] == self.slots@[slot as int].view());
                if self.slots[slot].kind != KIND_NONE && self.slots[slot].summary.len() != 0 {
                    let left = budget - (out.len() - start);
                    let line = self.prompt_line_bytes(slot);
                    let lim = if left < line.len() {
                        left
                    } else {
                        line.len()
                    };
                    let take = crate::utf8::utf8_safe_prefix_len(line.as_slice(), lim);
                    append_bytes(out, cap, vstd::slice::slice_subrange(line.as_slice(), 0, take));
                    assert(line@.subrange(0, take as int) =~= line@.take(take as int));
                }
            }
            k += 1;
        }
        out.len() - start
    }

    /// The task, execution and conversation entries as prompt lines.
    pub fn append_working_memory_to(&self, out: &mut Vec<u8>, cap: usize, budget: usize) -> (n: usize)
        requires
            self.wf(),
        ensures
            final(out)@ == lines_from(self.slots(), seq![SLOT_TASK, SLOT_EXECUTION, SLOT_CONVERSATION], 0, old(out)@, cap as int, old(out).len() as int, budget as int),
            n == final(out).len() - old(out).len(),
    {
        let order: [usize; 3] = [SLOT_TASK, SLOT_EXECUTION, SLOT_CONVERSATION];
        assert(order@ =~= seq![SLOT_TASK, SLOT_EXECUTION, SLOT_CONVERSATION]);
        self.append_slots_to(out, cap, &order, budget)
    }

    /// The source entry as a prompt line.
    pub fn append_known_sources_to(&self, out: &mut Vec<u8>, cap: usize, budget: usize) -> (n: usize)
        requires
            self.wf(),
        ensures
            final(out)@ == lines_from(self.slots(), seq![SLOT_SOURCE], 0, old(out)@, cap as int, old(out).len() as int, budget as int),
            n == final(out).len() - old(out).len(),
    {
        let order: [usize; 1] = [SLOT_SOURCE];
        assert(order@ =~= seq![SLOT_SOURCE]);
        self.append_slots_to(out, cap, &order, budget)
    }

    /// The workspace entry as a prompt line.
    pub fn append_workspace_memory_to(&self, out: &mut Vec<u8>, cap: usize, budget: usize) -> (n: usize)
        requires
            self.wf(),
        ensures
            final(out)@ == lines_from(self.slots(), seq![SLOT_WORKSPACE], 0, old(out)@, cap as int, old(out).len() as int, budget as int),
            n == final(out).len() - old(out).len(),
    {
        let order: [usize; 1] = [SLOT_WORKSPACE];
        assert(order@ =~= seq![SLOT_WORKSPACE]);
        self.append_slots_to(out, cap, &order, budget)
    }
}

} // verus!

use vstd::prelude::*;
use crate::bytes::bounded_append;
use crate::bytes::matches_at;
use crate::bytes::room;
use crate::bytes::skip_spaces;
use crate::turn::SessionCommand;
use crate::turn::cap_to;
use crate::url::word_end;

verus! {

pub const M5_LIST_PATH_MAX: usize = 512;
pub const M5_WRITE_CONTENT_MAX: usize = 1024;
pub const M5_WRITE_BODY_MAX: usize = 1536;
pub const M5_PATCH_MAX: usize = 2048;
pub const M5_PATCH_BODY_MAX: usize = 3072;
pub const M5_RUN_BODY_MAX: usize = 512;
pub const M5_OUTPUT_PATH_MAX: usize = 256;
pub const M5_PYTHON_RUN_TIMEOUT_SEC: u32 = 5;
pub const POST_BODY_MAX: usize = 65536;

// ---------------------------------------------------------------------------
// Requests to the workspace bridge
// ---------------------------------------------------------------------------

/// `prefix`, then `arg` percent-encoded, then `suffix`, bounded by `cap`.
pub open spec fn encoded_path(prefix: Seq<u8>, arg: Seq<u8>, suffix: Seq<u8>, cap: int) -> Seq<u8> {
    let a = bounded_append(Seq::empty(), cap, prefix);
    let b = a + crate::bytes::percent_encode_from(arg, 0, room(a.len() as int, cap));
    bounded_append(b, cap, suffix)
}

/// `out` with the JSON escape (upper-case hex) of `src` appended below `cap`.
pub open spec fn jesc(out: Seq<u8>, cap: int, src: Seq<u8>) -> Seq<u8> {
    out + crate::json::escape_bytes_from(src, 0, room(out.len() as int, cap), true)
}

pub open spec fn m5_list_path(path: Seq<u8>) -> Seq<u8> {
    encoded_path(seq![47u8, 119, 111, 114, 107, 115, 112, 97, 99, 101, 47, 108, 105, 115, 116, 63, 112, 97, 116, 104, 61], path, seq![38u8, 100, 101, 112, 116, 104, 61, 51], M5_LIST_PATH_MAX as int)
}

pub open spec fn m5_read_path(path: Seq<u8>) -> Seq<u8> {
    encoded_path(seq![47u8, 119, 111, 114, 107, 115, 112, 97, 99, 101, 47, 114, 101, 97, 100, 63, 112, 97, 116, 104, 61], path, seq![38u8, 111, 102, 102, 115, 101, 116, 61, 48, 38, 108, 105, 109, 105, 116, 61, 49, 48, 50, 52], M5_LIST_PATH_MAX as int)
}

pub open spec fn m5_output_path(id: Seq<u8>) -> Seq<u8> {
    let a = bounded_append(Seq::empty(), M5_OUTPUT_PATH_MAX as int, seq![47u8, 112, 114, 111, 99, 101, 115, 115, 47, 111, 117, 116, 112, 117, 116, 63, 105, 100, 61]);
    a + crate::bytes::percent_encode_from(id, 0, room(a.len() as int, M5_OUTPUT_PATH_MAX as int))
}

pub open spec fn m5_write_body(path: Seq<u8>, content: Seq<u8>) -> Seq<u8> {
    let cap = M5_WRITE_BODY_MAX as int;
    let a = jesc(bounded_append(Seq::empty(), cap, seq![123u8, 34, 112, 97, 116, 104, 34, 58, 34]), cap, path);
    let b = jesc(bounded_append(a, cap, seq![34u8, 44, 34, 99, 111, 110, 116, 101, 110, 116, 34, 58, 34]), cap, content);
    bounded_append(b, cap, seq![34u8, 44, 34, 99, 114, 101, 97, 116, 101, 34, 58, 116, 114, 117, 101, 44, 34, 111, 118, 101, 114, 119, 114, 105, 116, 101, 34, 58, 116, 114, 117, 101, 125])
}

pub open spec fn m5_patch_body(patch: Seq<u8>) -> Seq<u8> {
    let cap = M5_PATCH_BODY_MAX as int;
    bounded_append(jesc(bounded_append(Seq::empty(), cap, seq![123u8, 34, 112, 97, 116, 99, 104, 34, 58, 34]), cap, patch), cap, seq![34u8, 125])
}

pub open spec fn m5_run_body(path: Seq<u8>, timeout_sec: u32) -> Seq<u8> {
    let cap = M5_RUN_BODY_MAX as int;
    let a = jesc(bounded_append(Seq::empty(), cap, seq![123u8, 34, 112, 97, 116, 104, 34, 58, 34]), cap, path);
    let b = bounded_append(a, cap, seq![34u8, 44, 34, 116, 105, 109, 101, 111, 117, 116, 95, 115, 101, 99, 34, 58]);
    bounded_append(bounded_append(b, cap, crate::bytes::dec_digits(timeout_sec as nat)), cap, seq![125u8])
}

fn encoded(prefix: &[u8], arg: &[u8], suffix: &[u8], cap: usize) -> (r: Vec<u8>)
    ensures
        r@ == encoded_path(prefix@, arg@, suffix@, cap as int),
{
    let mut out: Vec<u8> = Vec::new();
    crate::bytes::append_bytes(&mut out, cap, prefix);
    crate::bytes::append_urlencoded(&mut out, cap, arg);
    crate::bytes::append_bytes(&mut out, cap, suffix);
    out
}

/// The bridge path that lists `path` three levels deep.
pub fn build_m5_list_path(path: &[u8]) -> (r: Vec<u8>)
    ensures
        r@ == m5_list_path(path@),
{
    let p: &[u8] = &[47u8, 119, 111, 114, 107, 115, 112, 97, 99, 101, 47, 108, 105, 115, 116, 63, 112, 97, 116, 104, 61];
    let s: &[u8] = &[38u8, 100, 101, 112, 116, 104, 61, 51];
    assert(p@ =~= seq![47u8, 119, 111, 114, 107, 115, 112, 97, 99, 101, 47, 108, 105, 115, 116, 63, 112, 97, 116, 104, 61]);
    assert(s@ =~= seq![38u8, 100, 101, 112, 116, 104, 61, 51]);
    encoded(p, path, s, M5_LIST_PATH_MAX)
}

/// The bridge path that reads the first 1024 bytes of `path`.
pub fn build_m5_read_path(path: &[u8]) -> (r: Vec<u8>)
    ensures
        r@ == m5_read_path(path@),
{
    let p: &[u8] = &[47u8, 119, 111, 114, 107, 115, 112, 97, 99, 101, 47, 114, 101, 97, 100, 63, 112, 97, 116, 104, 61];
    let s: &[u8] = &[38u8, 111, 102, 102, 115, 101, 116, 61, 48, 38, 108, 105, 109, 105, 116, 61, 49, 48, 50, 52];
    assert(p@ =~= seq![47u8, 119, 111, 114, 107, 115, 112, 97, 99, 101, 47, 114, 101, 97, 100, 63, 112, 97, 116, 104, 61]);
    assert(s@ =~= seq![38u8, 111, 102, 102, 115, 101, 116, 61, 48, 38, 108, 105, 109, 105, 116, 61, 49, 48, 50, 52]);
    encoded(p, path, s, M5_LIST_PATH_MAX)
}

/// The bridge path that reads the output of process `process_id`.
pub fn build_m5_output_path(process_id: &[u8]) -> (r: Vec<u8>)
    ensures
        r@ == m5_output_path(process_id@),
{
    let p: &[u8] = &[47u8, 112, 114, 111, 99, 101, 115, 115, 47, 111, 117, 116, 112, 117, 116, 63, 105, 100, 61];
    assert(p@ =~= seq![47u8, 112, 114, 111, 99, 101, 115, 115, 47, 111, 117, 116, 112, 117, 116, 63, 105, 100, 61]);
    let mut out: Vec<u8> = Vec::new();
    crate::bytes::append_bytes(&mut out, M5_OUTPUT_PATH_MAX, p);
    crate::bytes::append_urlencoded(&mut out, M5_OUTPUT_PATH_MAX, process_id);
    out
}

/// The JSON body that writes `content` to `path`, creating or replacing it.
pub fn build_m5_write_body(path: &[u8], content: &[u8]) -> (r: Vec<u8>)
    ensures
        r@ == m5_write_body(path@, content@),
{
    let a: &[u8] = &[123u8, 34, 112, 97, 116, 104, 34, 58, 34];
    let b: &[u8] = &[34u8, 44, 34, 99, 111, 110, 116, 101, 110, 116, 34, 58, 34];
    let c: &[u8] = &[34u8, 44, 34, 99, 114, 101, 97, 116, 101, 34, 58, 116, 114, 117, 101, 44, 34, 111, 118, 101, 114, 119, 114, 105, 116, 101, 34, 58, 116, 114, 117, 101, 125];
    assert(a@ =~= seq![123u8, 34, 112, 97, 116, 104, 34, 58, 34]);
    assert(b@ =~= seq![34u8, 44, 34, 99, 111, 110, 116, 101, 110, 116, 34, 58, 34]);
    assert(c@ =~= seq![34u8, 44, 34, 99, 114, 101, 97, 116, 101, 34, 58, 116, 114, 117, 101, 44, 34, 111, 118, 101, 114, 119, 114, 105, 116, 101, 34, 58, 116, 114, 117, 101, 125]);
    let mut out: Vec<u8> = Vec::new();
    crate::bytes::append_bytes(&mut out, M5_WRITE_BODY_MAX, a);
    crate::json::append_json_escaped(&mut out, M5_WRITE_BODY_MAX, path);
    crate::bytes::append_bytes(&mut out, M5_WRITE_BODY_MAX, b);
    crate::json::append_json_escaped(&mut out, M5_WRITE_BODY_MAX, content);
    crate::bytes::append_bytes(&mut out, M5_WRITE_BODY_MAX, c);
    out
}

/// The JSON body that applies `patch`.
pub fn build_m5_patch_body(patch: &[u8]) -> (r: Vec<u8>)
    ensures
        r@ == m5_patch_body(patch@),
{
    let a: &[u8] = &[123u8, 34, 112, 97, 116, 99, 104, 34, 58, 34];
    let b: &[u8] = &[34u8, 125];
    assert(a@ =~= seq![123u8, 34, 112, 97, 116, 99, 104, 34, 58, 34]);
    assert(b@ =~= seq![34u8, 125]);
    let mut out: Vec<u8> = Vec::new();
    crate::bytes::append_bytes(&mut out, M5_PATCH_BODY_MAX, a);
    crate::json::append_json_escaped(&mut out, M5_PATCH_BODY_MAX, patch);
    crate::bytes::append_bytes(&mut out, M5_PATCH_BODY_MAX, b);
    out
}

/// The JSON body that runs the Python file `path` for at most `timeout_sec` seconds.
pub fn build_m5_run_python_body(path: &[u8], timeout_sec: u32) -> (r: Vec<u8>)
    ensures
        r@ == m5_run_body(path@, timeout_sec),
{
    let a: &[u8] = &[123u8, 34, 112, 97, 116, 104, 34, 58, 34];
    let b: &[u8] = &[34u8, 44, 34, 116, 105, 109, 101, 111, 117, 116, 95, 115, 101, 99, 34, 58];
    let c: &[u8] = &[125u8];
    assert(a@ =~= seq![123u8, 34, 112, 97, 116, 104, 34, 58, 34]);
    assert(b@ =~= seq![34u8, 44, 34, 116, 105, 109, 101, 111, 117, 116, 95, 115, 101, 99, 34, 58]);
    assert(c@ =~= seq![125u8]);
    let mut out: Vec<u8> = Vec::new();
    crate::bytes::append_bytes(&mut out, M5_RUN_BODY_MAX, a);
    crate::json::append_json_escaped(&mut out, M5_RUN_BODY_MAX, path);
    crate::bytes::append_bytes(&mut out, M5_RUN_BODY_MAX, b);
    crate::bytes::append_u64_dec(&mut out, M5_RUN_BODY_MAX, timeout_sec as u64);
    crate::bytes::append_bytes(&mut out, M5_RUN_BODY_MAX, c);
    out
}

// ---------------------------------------------------------------------------
// Console commands
// ---------------------------------------------------------------------------

/// Commands that are one fixed word sequence.
#[derive(Clone, Copy, PartialEq, Eq, Structural)]
pub enum SimpleCommand {
    Sync,
    TraceOn,
    TraceOff,
    TraceStatus,
    DebugOn,
    DebugOff,
    DebugStatus,
    StatusInline,
    StatusPlain,
    StatusQuery,
    OpenaiClear,
    OpenaiStatus,
    TlsStatus,
    FetchStatus,
    TlsLocal,
    M5Status,
}

/// A console line read as a command.
pub enum UartCommand {
    Simple(SimpleCommand),
    /// `time <seconds>`: the Unix time now.
    SetTime(u64),
    /// `openai-key <key>`.
    OpenaiKey(Vec<u8>),
    Session(SessionCommand),
    /// A workspace bridge GET of the path.
    M5List(Vec<u8>),
    M5Read(Vec<u8>),
    M5Output(Vec<u8>),
    /// A workspace bridge POST of the body.
    M5Write(Vec<u8>),
    M5ApplyPatch(Vec<u8>),
    M5Run(Vec<u8>),
    /// A bridge command without its argument: the usage line to show.
    M5Usage(&'static [u8]),
    /// A bridge request that does not fit: the message to show.
    M5TooLarge(&'static [u8]),
    /// `tweet <text>` or `post_tweet <text>`.
    Tweet(Vec<u8>),
    /// `post <url> <json>`.
    Post { https: bool, domain: Vec<u8>, path: Vec<u8>, body: Vec<u8> },
    /// A URL to fetch.
    Fetch { https: bool, domain: Vec<u8>, path: Vec<u8> },
    /// `goal <text>` or `m3 <text>`: the text.
    Goal(Vec<u8>),
    /// Anything else: a session request, a goal, or unknown.
    Other,
}

pub enum UartView {
    Simple(SimpleCommand),
    SetTime(u64),
    OpenaiKey(Seq<u8>),
    Session(SessionCommand),
    M5List(Seq<u8>),
    M5Read(Seq<u8>),
    M5Output(Seq<u8>),
    M5Write(Seq<u8>),
    M5ApplyPatch(Seq<u8>),
    M5Run(Seq<u8>),
    M5Usage(Seq<u8>),
    M5TooLarge(Seq<u8>),
    Tweet(Seq<u8>),
    Post { https: bool, domain: Seq<u8>, path: Seq<u8>, body: Seq<u8> },
    Fetch { https: bool, domain: Seq<u8>, path: Seq<u8> },
    Goal(Seq<u8>),
    Other,
}

impl View for UartCommand {
    type V = UartView;

    open spec fn view(&self) -> UartView {
        match self {
            UartCommand::Simple(c) => UartView::Simple(*c),
            UartCommand::SetTime(t) => UartView::SetTime(*t),
            UartCommand::OpenaiKey(k) => UartView::OpenaiKey(k@),
            UartCommand::Session(c) => UartView::Session(*c),
            UartCommand::M5List(p) => UartView::M5List(p@),
            UartCommand::M5Read(p) => UartView::M5Read(p@),
            UartCommand::M5Output(p) => UartView::M5Output(p@),
            UartCommand::M5Write(b) => UartView::M5Write(b@),
            UartCommand::M5ApplyPatch(b) => UartView::M5ApplyPatch(b@),
            UartCommand::M5Run(b) => UartView::M5Run(b@),
            UartCommand::M5Usage(m) => UartView::M5Usage(m@),
            UartCommand::M5TooLarge(m) => UartView::M5TooLarge(m@),
            UartCommand::Tweet(t) => UartView::Tweet(t@),
            UartCommand::Post { https, domain, path, body } => UartView::Post {
                https: *https,
                domain: domain@,
                path: path@,
                body: body@,
            },
            UartCommand::Fetch { https, domain, path } => UartView::Fetch { https: *https, domain: domain@, path: path@ },
            UartCommand::Goal(g) => UartView::Goal(g@),
            UartCommand::Other => UartView::Other,
        }
    }
}

/// The line is exactly `w`.
pub open spec fn is_word(line: Seq<u8>, len: int, w: Seq<u8>) -> bool {
    len == w.len() && matches_at(line, 0, w)
}

/// The line is `w` followed by something.
pub open spec fn has_prefix(line: Seq<u8>, len: int, w: Seq<u8>) -> bool {
    len > w.len() && matches_at(line, 0, w)
}

/// What follows position `k` once white space is skipped.
pub open spec fn rest_after(line: Seq<u8>, len: int, k: int) -> Seq<u8> {
    let s = skip_spaces(line, k, len);
    if s < len {
        line.subrange(s, len)
    } else {
        Seq::empty()
    }
}

pub open spec fn simple_command(line: Seq<u8>, len: int) -> Option<SimpleCommand> {
    if is_word(line, len, seq![116u8, 114, 97, 99, 101, 32, 111, 110]) {
        Some(SimpleCommand::TraceOn)
    } else if is_word(line, len, seq![116u8, 114, 97, 99, 101, 32, 111, 102, 102]) {
        Some(SimpleCommand::TraceOff)
    } else if is_word(line, len, seq![116u8, 114, 97, 99, 101, 32, 115, 116, 97, 116, 117, 115]) {
        Some(SimpleCommand::TraceStatus)
    } else if is_word(line, len, seq![100u8, 101, 98, 117, 103, 32, 111, 110]) {
        Some(SimpleCommand::DebugOn)
    } else if is_word(line, len, seq![100u8, 101, 98, 117, 103, 32, 111, 102, 102]) {
        Some(SimpleCommand::DebugOff)
    } else if is_word(line, len, seq![100u8, 101, 98, 117, 103, 32, 115, 116, 97, 116, 117, 115]) {
        Some(SimpleCommand::DebugStatus)
    } else if is_word(line, len, seq![115u8, 116, 97, 116, 117, 115, 32, 105, 110, 108, 105, 110, 101]) {
        Some(SimpleCommand::StatusInline)
    } else if is_word(line, len, seq![115u8, 116, 97, 116, 117, 115, 32, 112, 108, 97, 105, 110]) {
        Some(SimpleCommand::StatusPlain)
    } else if is_word(line, len, seq![115u8, 116, 97, 116, 117, 115, 32, 115, 116, 97, 116, 117, 115]) {
        Some(SimpleCommand::StatusQuery)
    } else if is_word(line, len, seq![111u8, 112, 101, 110, 97, 105, 45, 99, 108, 101, 97, 114]) {
        Some(SimpleCommand::OpenaiClear)
    } else if is_word(line, len, seq![111u8, 112, 101, 110, 97, 105, 45, 115, 116, 97, 116, 117, 115]) {
        Some(SimpleCommand::OpenaiStatus)
    } else if is_word(line, len, seq![116u8, 108, 115, 45, 115, 116, 97, 116, 117, 115]) {
        Some(SimpleCommand::TlsStatus)
    } else if is_word(line, len, seq![102u8, 101, 116, 99, 104, 45, 115, 116, 97, 116, 117, 115]) {
        Some(SimpleCommand::FetchStatus)
    } else if is_word(line, len, seq![116u8, 108, 115, 45, 108, 111, 99, 97, 108]) {
        Some(SimpleCommand::TlsLocal)
    } else {
        None
    }
}

/// The workspace bridge commands (`m5-...`).
pub open spec fn m5_command(line: Seq<u8>, len: int) -> Option<UartView> {
    if is_word(line, len, seq![109u8, 53, 45, 115, 116, 97, 116, 117, 115]) {
        Some(UartView::Simple(SimpleCommand::M5Status))
    } else if is_word(line, len, seq![109u8, 53, 45, 108, 105, 115, 116]) || has_prefix(line, len, seq![109u8, 53, 45, 108, 105, 115, 116, 32]) {
        Some(UartView::M5List(m5_list_path(rest_after(line, len, 7))))
    } else if has_prefix(line, len, seq![109u8, 53, 45, 114, 101, 97, 100, 32]) {
        let r = rest_after(line, len, 8);
        if r.len() == 0 {
            Some(UartView::M5Usage(seq![117u8, 115, 97, 103, 101, 58, 32, 109, 53, 45, 114, 101, 97, 100, 32, 60, 112, 97, 116, 104, 62, 10]))
        } else {
            Some(UartView::M5Read(m5_read_path(r)))
        }
    } else if has_prefix(line, len, seq![109u8, 53, 45, 119, 114, 105, 116, 101, 32]) {
        let s = skip_spaces(line, 9, len);
        if s >= len {
            Some(UartView::M5Usage(seq![117u8, 115, 97, 103, 101, 58, 32, 109, 53, 45, 119, 114, 105, 116, 101, 32, 60, 112, 97, 116, 104, 62, 32, 60, 99, 111, 110, 116, 101, 110, 116, 62, 10]))
        } else {
            let pe = word_end(line, s, len);
            let content = crate::bytes::shell_decode(rest_after(line, len, pe), 0, M5_WRITE_CONTENT_MAX as int);
            let body = m5_write_body(line.subrange(s, pe), content);
            if body.len() == 0 {
                Some(UartView::M5TooLarge(seq![109u8, 53, 32, 119, 114, 105, 116, 101, 32, 98, 111, 100, 121, 32, 116, 111, 111, 32, 108, 97, 114, 103, 101, 10]))
            } else {
                Some(UartView::M5Write(body))
            }
        }
    } else if has_prefix(line, len, seq![109u8, 53, 45, 97, 112, 112, 108, 121, 45, 112, 97, 116, 99, 104, 32]) {
        let r = rest_after(line, len, 15);
        if r.len() == 0 {
            Some(UartView::M5Usage(seq![117u8, 115, 97, 103, 101, 58, 32, 109, 53, 45, 97, 112, 112, 108, 121, 45, 112, 97, 116, 99, 104, 32, 60, 101, 115, 99, 97, 112, 101, 100, 45, 112, 97, 116, 99, 104, 62, 10]))
        } else {
            let body = m5_patch_body(crate::bytes::shell_decode(r, 0, M5_PATCH_MAX as int));
            if body.len() == 0 {
                Some(UartView::M5TooLarge(seq![109u8, 53, 32, 112, 97, 116, 99, 104, 32, 98, 111, 100, 121, 32, 116, 111, 111, 32, 108, 97, 114, 103, 101, 10]))
            } else {
                Some(UartView::M5ApplyPatch(body))
            }
        }
    } else if has_prefix(line, len, seq![109u8, 53, 45, 114, 117, 110, 32]) {
        let r = rest_after(line, len, 7);
        if r.len() == 0 {
            Some(UartView::M5Usage(seq![117u8, 115, 97, 103, 101, 58, 32, 109, 53, 45, 114, 117, 110, 32, 60, 112, 97, 116, 104, 62, 10]))
        } else {
            let body = m5_run_body(r, M5_PYTHON_RUN_TIMEOUT_SEC);
            if body.len() == 0 {
                Some(UartView::M5TooLarge(seq![109u8, 53, 32, 114, 117, 110, 32, 98, 111, 100, 121, 32, 116, 111, 111, 32, 108, 97, 114, 103, 101, 10]))
            } else {
                Some(UartView::M5Run(body))
            }
        }
    } else if has_prefix(line, len, seq![109u8, 53, 45, 111, 117, 116, 112, 117, 116, 32]) {
        let r = rest_after(line, len, 10);
        if r.len() == 0 {
            Some(UartView::M5Usage(seq![117u8, 115, 97, 103, 101, 58, 32, 109, 53, 45, 111, 117, 116, 112, 117, 116, 32, 60, 112, 114, 111, 99, 101, 115, 115, 45, 105, 100, 62, 10]))
        } else {
            Some(UartView::M5Output(m5_output_path(r)))
        }
    } else {
        None
    }
}

/// `post <url> <json>` with a URL that parses.
pub open spec fn post_command(line: Seq<u8>, len: int) -> Option<UartView> {
    if has_prefix(line, len, seq![112u8, 111, 115, 116, 32]) {
        let s = skip_spaces(line, 5, len);
        let e = word_end(line, s, len);
        let u = line.subrange(s, e);
        if s < e {
            match crate::url::spec_parse_url(u, u.len() as int) {
                Some(p) => Some(
                    UartView::Post {
                        https: p.https,
                        domain: u.subrange(p.domain_start as int, p.domain_start + p.domain_len),
                        path: if p.path_len == 0 {
                            Seq::empty()
                        } else {
                            u.subrange(p.path_start as int, p.path_start + p.path_len)
                        },
                        body: cap_to(rest_after(line, len, e), POST_BODY_MAX as int),
                    },
                ),
                None => None,
            }
        } else {
            None
        }
    } else {
        None
    }
}

/// A console line (the first `len` bytes, already sanitized) read as a command, checking
/// the commands in a fixed order. A plain `fetch ...` goal that compiles here (a fetch and
/// a local summary, with no model) is a goal as typed; a line that no command claims is
/// `Other`, which goes to the model session.
pub open spec fn uart_command(line: Seq<u8>, len: int) -> UartView {
    if is_word(line, len, seq![115u8, 121, 110, 99]) {
        UartView::Simple(SimpleCommand::Sync)
    } else if has_prefix(line, len, seq![116u8, 105, 109, 101, 32]) && crate::bytes::spec_parse_u64(line.subrange(5, len), len - 5) is Some {
        UartView::SetTime(crate::bytes::spec_parse_u64(line.subrange(5, len), len - 5)->0)
    } else if simple_command(line, len) is Some {
        UartView::Simple(simple_command(line, len)->0)
    } else if has_prefix(line, len, seq![111u8, 112, 101, 110, 97, 105, 45, 107, 101, 121, 32]) {
        UartView::OpenaiKey(rest_after(line, len, 11))
    } else if crate::turn::session_command(line, len) is Some {
        UartView::Session(crate::turn::session_command(line, len)->0)
    } else if m5_command(line, len) is Some {
        m5_command(line, len)->0
    } else if has_prefix(line, len, seq![116u8, 119, 101, 101, 116, 32]) || has_prefix(line, len, seq![112u8, 111, 115, 116, 95, 116, 119, 101, 101, 116, 32]) {
        UartView::Tweet(rest_after(line, len, if has_prefix(line, len, seq![112u8, 111, 115, 116, 95, 116, 119, 101, 101, 116, 32]) { 11 } else { 6 }))
    } else if post_command(line, len) is Some {
        post_command(line, len)->0
    } else if crate::url::spec_parse_url(line, len) is Some {
        let p = crate::url::spec_parse_url(line, len)->0;
        UartView::Fetch {
            https: p.https,
            domain: line.subrange(p.domain_start as int, p.domain_start + p.domain_len),
            path: if p.path_len == 0 {
                Seq::empty()
            } else {
                line.subrange(p.path_start as int, p.path_start + p.path_len)
            },
        }
    } else if (has_prefix(line, len, seq![103u8, 111, 97, 108, 32]) || has_prefix(line, len, seq![109u8, 51, 32])) && skip_spaces(
        line,
        if has_prefix(line, len, seq![103u8, 111, 97, 108, 32]) { 5 } else { 3 },
        len,
    ) < len {
        UartView::Goal(line.subrange(skip_spaces(line, if has_prefix(line, len, seq![103u8, 111, 97, 108, 32]) { 5 } else { 3 }, len), len))
    } else if crate::goal::spec_starts_with_fetch_goal(line, len) && crate::goal::spec_compile_goal(line.take(len)) is Ok {
        UartView::Goal(line.take(len))
    } else {
        UartView::Other
    }
}

fn is_word_local(line: &[u8], len: usize, w: &[u8]) -> (r: bool)
    requires
        len <= line.len(),
    ensures
        r == is_word(line@, len as int, w@),
{
    len == w.len() && crate::bytes::starts_with(line, len, w)
}

fn has_prefix_local(line: &[u8], len: usize, w: &[u8]) -> (r: bool)
    requires
        len <= line.len(),
    ensures
        r == has_prefix(line@, len as int, w@),
{
    len > w.len() && crate::bytes::starts_with(line, len, w)
}

fn rest_local(line: &[u8], len: usize, k: usize) -> (r: Vec<u8>)
    requires
        len <= line.len(),
        k <= len,
    ensures
        r@ == rest_after(line@, len as int, k as int),
{
    let s = crate::json::skip_space_from(line, len, k);
    let mut out: Vec<u8> = Vec::new();
    if s < len {
        crate::bytes::append_all(&mut out, vstd::slice::slice_subrange(line, s, len));
    }
    out
}

fn simple_local(line: &[u8], len: usize) -> (r: Option<SimpleCommand>)
    requires
        len <= line.len(),
    ensures
        r == simple_command(line@, len as int),
{
    let w1: &[u8] = &[116u8, 114, 97, 99, 101, 32, 111, 110];
    let w2: &[u8] = &[116u8, 114, 97, 99, 101, 32, 111, 102, 102];
    let w3: &[u8] = &[116u8, 114, 97, 99, 101, 32, 115, 116, 97, 116, 117, 115];
    let w4: &[u8] = &[100u8, 101, 98, 117, 103, 32, 111, 110];
    let w5: &[u8] = &[100u8, 101, 98, 117, 103, 32, 111, 102, 102];
    let w6: &[u8] = &[100u8, 101, 98, 117, 103, 32, 115, 116, 97, 116, 117, 115];
    let w7: &[u8] = &[115u8, 116, 97, 116, 117, 115, 32, 105, 110, 108, 105, 110, 101];
    let w8: &[u8] = &[115u8, 116, 97, 116, 117, 115, 32, 112, 108, 97, 105, 110];
    let w9: &[u8] = &[115u8, 116, 97, 116, 117, 115, 32, 115, 116, 97, 116, 117, 115];
    let w10: &[u8] = &[111u8, 112, 101, 110, 97, 105, 45, 99, 108, 101, 97, 114];
    let w11: &[u8] = &[111u8, 112, 101, 110, 97, 105, 45, 115, 116, 97, 116, 117, 115];
    let w12: &[u8] = &[116u8, 108, 115, 45, 115, 116, 97, 116, 117, 115];
    let w13: &[u8] = &[102u8, 101, 116, 99, 104, 45, 115, 116, 97, 116, 117, 115];
    let w14: &[u8] = &[116u8, 108, 115, 45, 108, 111, 99, 97, 108];
    assert(w1@ =~= seq![116u8, 114, 97, 99, 101, 32, 111, 110]);
    assert(w2@ =~= seq![116u8, 114, 97, 99, 101, 32, 111, 102, 102]);
    assert(w3@ =~= seq![116u8, 114, 97, 99, 101, 32, 115, 116, 97, 116, 117, 115]);
    assert(w4@ =~= seq![100u8, 101, 98, 117, 103, 32, 111, 110]);
    assert(w5@ =~= seq![100u8, 101, 98, 117, 103, 32, 111, 102, 102]);
    assert(w6@ =~= seq![100u8, 101, 98, 117, 103, 32, 115, 116, 97, 116, 117, 115]);
    assert(w7@ =~= seq![115u8, 116, 97, 116, 117, 115, 32, 105, 110, 108, 105, 110, 101]);
    assert(w8@ =~= seq![115u8, 116, 97, 116, 117, 115, 32, 112, 108, 97, 105, 110]);
    assert(w9@ =~= seq![115u8, 116, 97, 116, 117, 115, 32, 115, 116, 97, 116, 117, 115]);
    assert(w10@ =~= seq![111u8, 112, 101, 110, 97, 105, 45, 99, 108, 101, 97, 114]);
    assert(w11@ =~= seq![111u8, 112, 101, 110, 97, 105, 45, 115, 116, 97, 116, 117, 115]);
    assert(w12@ =~= seq![116u8, 108, 115, 45, 115, 116, 97, 116, 117, 115]);
    assert(w13@ =~= seq![102u8, 101, 116, 99, 104, 45, 115, 116, 97, 116, 117, 115]);
    assert(w14@ =~= seq![116u8, 108, 115, 45, 108, 111, 99, 97, 108]);
    if is_word_local(line, len, w1) {
        Some(SimpleCommand::TraceOn)
    } else if is_word_local(line, len, w2) {
        Some(SimpleCommand::TraceOff)
    } else if is_word_local(line, len, w3) {
        Some(SimpleCommand::TraceStatus)
    } else if is_word_local(line, len, w4) {
        Some(SimpleCommand::DebugOn)
    } else if is_word_local(line, len, w5) {
        Some(SimpleCommand::DebugOff)
    } else if is_word_local(line, len, w6) {
        Some(SimpleCommand::DebugStatus)
    } else if is_word_local(line, len, w7) {
        Some(SimpleCommand::StatusInline)
    } else if is_word_local(line, len, w8) {
        Some(SimpleCommand::StatusPlain)
    } else if is_word_local(line, len, w9) {
        Some(SimpleCommand::StatusQuery)
    } else if is_word_local(line, len, w10) {
        Some(SimpleCommand::OpenaiClear)
    } else if is_word_local(line, len, w11) {
        Some(SimpleCommand::OpenaiStatus)
    } else if is_word_local(line, len, w12) {
        Some(SimpleCommand::TlsStatus)
    } else if is_word_local(line, len, w13) {
        Some(SimpleCommand::FetchStatus)
    } else if is_word_local(line, len, w14) {
        Some(SimpleCommand::TlsLocal)
    } else {
        None
    }
}

fn m5_local(line: &[u8], len: usize) -> (r: Option<UartCommand>)
    requires
        len <= line.len(),
    ensures
        match (r, m5_command(line@, len as int)) {
            (Some(c), Some(v)) => c@ == v,
            (None, None) => true,
            _ => false,
        },
{
    let w_status: &[u8] = &[109u8, 53, 45, 115, 116, 97, 116, 117, 115];
    let w_list: &[u8] = &[109u8, 53, 45, 108, 105, 115, 116];
    let p_list: &[u8] = &[109u8, 53, 45, 108, 105, 115, 116, 32];
    let p_read: &[u8] = &[109u8, 53, 45, 114, 101, 97, 100, 32];
    let p_write: &[u8] = &[109u8, 53, 45, 119, 114, 105, 116, 101, 32];
    let p_patch: &[u8] = &[109u8, 53, 45, 97, 112, 112, 108, 121, 45, 112, 97, 116, 99, 104, 32];
    let p_run: &[u8] = &[109u8, 53, 45, 114, 117, 110, 32];
    let p_output: &[u8] = &[109u8, 53, 45, 111, 117, 116, 112, 117, 116, 32];
    assert(w_status@ =~= seq![109u8, 53, 45, 115, 116, 97, 116, 117, 115]);
    assert(w_list@ =~= seq![109u8, 53, 45, 108, 105, 115, 116]);
    assert(p_list@ =~= seq![109u8, 53, 45, 108, 105, 115, 116, 32]);
    assert(p_read@ =~= seq![109u8, 53, 45, 114, 101, 97, 100, 32]);
    assert(p_write@ =~= seq![109u8, 53, 45, 119, 114, 105, 116, 101, 32]);
    assert(p_patch@ =~= seq![109u8, 53, 45, 97, 112, 112, 108, 121, 45, 112, 97, 116, 99, 104, 32]);
    assert(p_run@ =~= seq![109u8, 53, 45, 114, 117, 110, 32]);
    assert(p_output@ =~= seq![109u8, 53, 45, 111, 117, 116, 112, 117, 116, 32]);
    if is_word_local(line, len, w_status) {
        return Some(UartCommand::Simple(SimpleCommand::M5Status));
    }
    if is_word_local(line, len, w_list) || has_prefix_local(line, len, p_list) {
        let r = rest_local(line, len, 7);
        return Some(UartCommand::M5List(build_m5_list_path(r.as_slice())));
    }
    if has_prefix_local(line, len, p_read) {
        let r = rest_local(line, len, 8);
        if r.len() == 0 {
            let u: &'static [u8] = &[117u8, 115, 97, 103, 101, 58, 32, 109, 53, 45, 114, 101, 97, 100, 32, 60, 112, 97, 116, 104, 62, 10];
            assert(u@ =~= seq![117u8, 115, 97, 103, 101, 58, 32, 109, 53, 45, 114, 101, 97, 100, 32, 60, 112, 97, 116, 104, 62, 10]);
            return Some(UartCommand::M5Usage(u));
        }
        return Some(UartCommand::M5Read(build_m5_read_path(r.as_slice())));
    }
    if has_prefix_local(line, len, p_write) {
        let s = crate::json::skip_space_from(line, len, 9);
        if s >= len {
            let u: &'static [u8] = &[117u8, 115, 97, 103, 101, 58, 32, 109, 53, 45, 119, 114, 105, 116, 101, 32, 60, 112, 97, 116, 104, 62, 32, 60, 99, 111, 110, 116, 101, 110, 116, 62, 10];
            assert(u@ =~= seq![117u8, 115, 97, 103, 101, 58, 32, 109, 53, 45, 119, 114, 105, 116, 101, 32, 60, 112, 97, 116, 104, 62, 32, 60, 99, 111, 110, 116, 101, 110, 116, 62, 10]);
            return Some(UartCommand::M5Usage(u));
        }
        let pe = crate::url::find_word_end(line, s, len);
        let path = vstd::slice::slice_subrange(line, s, pe);
        let raw = rest_local(line, len, pe);
        let content = crate::bytes::decode_shell_escapes(raw.as_slice(), M5_WRITE_CONTENT_MAX);
        let body = build_m5_write_body(path, content.as_slice());
        if body.len() == 0 {
            let u: &'static [u8] = &[109u8, 53, 32, 119, 114, 105, 116, 101, 32, 98, 111, 100, 121, 32, 116, 111, 111, 32, 108, 97, 114, 103, 101, 10];
            assert(u@ =~= seq![109u8, 53, 32, 119, 114, 105, 116, 101, 32, 98, 111, 100, 121, 32, 116, 111, 111, 32, 108, 97, 114, 103, 101, 10]);
            return Some(UartCommand::M5TooLarge(u));
        }
        return Some(UartCommand::M5Write(body));
    }
    if has_prefix_local(line, len, p_patch) {
        let r = rest_local(line, len, 15);
        if r.len() == 0 {
            let u: &'static [u8] = &[117u8, 115, 97, 103, 101, 58, 32, 109, 53, 45, 97, 112, 112, 108, 121, 45, 112, 97, 116, 99, 104, 32, 60, 101, 115, 99, 97, 112, 101, 100, 45, 112, 97, 116, 99, 104, 62, 10];
            assert(u@ =~= seq![117u8, 115, 97, 103, 101, 58, 32, 109, 53, 45, 97, 112, 112, 108, 121, 45, 112, 97, 116, 99, 104, 32, 60, 101, 115, 99, 97, 112, 101, 100, 45, 112, 97, 116, 99, 104, 62, 10]);
            return Some(UartCommand::M5Usage(u));
        }
        let patch = crate::bytes::decode_shell_escapes(r.as_slice(), M5_PATCH_MAX);
        let body = build_m5_patch_body(patch.as_slice());
        if body.len() == 0 {
            let u: &'static [u8] = &[109u8, 53, 32, 112, 97, 116, 99, 104, 32, 98, 111, 100, 121, 32, 116, 111, 111, 32, 108, 97, 114, 103, 101, 10];
            assert(u@ =~= seq![109u8, 53, 32, 112, 97, 116, 99, 104, 32, 98, 111, 100, 121, 32, 116, 111, 111, 32, 108, 97, 114, 103, 101, 10]);
            return Some(UartCommand::M5TooLarge(u));
        }
        return Some(UartCommand::M5ApplyPatch(body));
    }
    if has_prefix_local(line, len, p_run) {
        let r = rest_local(line, len, 7);
        if r.len() == 0 {
            let u: &'static [u8] = &[117u8, 115, 97, 103, 101, 58, 32, 109, 53, 45, 114, 117, 110, 32, 60, 112, 97, 116, 104, 62, 10];
            assert(u@ =~= seq![117u8, 115, 97, 103, 101, 58, 32, 109, 53, 45, 114, 117, 110, 32, 60, 112, 97, 116, 104, 62, 10]);
            return Some(UartCommand::M5Usage(u));
        }
        let body = build_m5_run_python_body(r.as_slice(), M5_PYTHON_RUN_TIMEOUT_SEC);
        if body.len() == 0 {
            let u: &'static [u8] = &[109u8, 53, 32, 114, 117, 110, 32, 98, 111, 100, 121, 32, 116, 111, 111, 32, 108, 97, 114, 103, 101, 10];
            assert(u@ =~= seq![109u8, 53, 32, 114, 117, 110, 32, 98, 111, 100, 121, 32, 116, 111, 111, 32, 108, 97, 114, 103, 101, 10]);
            return Some(UartCommand::M5TooLarge(u));
        }
        return Some(UartCommand::M5Run(body));
    }
    if has_prefix_local(line, len, p_output) {
        let r = rest_local(line, len, 10);
        if r.len() == 0 {
            let u: &'static [u8] = &[117u8, 115, 97, 103, 101, 58, 32, 109, 53, 45, 111, 117, 116, 112, 117, 116, 32, 60, 112, 114, 111, 99, 101, 115, 115, 45, 105, 100, 62, 10];
            assert(u@ =~= seq![117u8, 115, 97, 103, 101, 58, 32, 109, 53, 45, 111, 117, 116, 112, 117, 116, 32, 60, 112, 114, 111, 99, 101, 115, 115, 45, 105, 100, 62, 10]);
            return Some(UartCommand::M5Usage(u));
        }
        return Some(UartCommand::M5Output(build_m5_output_path(r.as_slice())));
    }
    None
}

fn slice_copy(buf: &[u8], start: usize, n: usize) -> (r: Vec<u8>)
    requires
        start + n <= buf.len(),
    ensures
        r@ == buf@.subrange(start as int, start + n),
{
    let mut out: Vec<u8> = Vec::new();
    crate::bytes::append_all(&mut out, vstd::slice::slice_subrange(buf, start, start + n));
    out
}

fn post_local(line: &[u8], len: usize) -> (r: Option<UartCommand>)
    requires
        len <= line.len(),
    ensures
        match (r, post_command(line@, len as int)) {
            (Some(c), Some(v)) => c@ == v,
            (None, None) => true,
            _ => false,
        },
{
    let p_post: &[u8] = &[112u8, 111, 115, 116, 32];
    assert(p_post@ =~= seq![112u8, 111, 115, 116, 32]);
    if !has_prefix_local(line, len, p_post) {
        return None;
    }
    let s = crate::json::skip_space_from(line, len, 5);
    let e = crate::url::find_word_end(line, s, len);
    if s >= e {
        return None;
    }
    let u = vstd::slice::slice_subrange(line, s, e);
    match crate::url::parse_url(u, u.len()) {
        Some(p) => {
            proof {
                crate::url::lemma_url_range(u@, u.len() as int);
            }
            let domain = slice_copy(u, p.domain_start, p.domain_len);
            let path = if p.path_len == 0 {
                Vec::new()
            } else {
                slice_copy(u, p.path_start, p.path_len)
            };
            let rest = rest_local(line, len, e);
            let body = crate::bytes::copy_bytes(POST_BODY_MAX, rest.as_slice());
            Some(UartCommand::Post { https: p.https, domain, path, body })
        },
        None => None,
    }
}

/// Reads a console line (see `uart_command`).
pub fn parse_uart_command(line: &[u8], len: usize) -> (r: UartCommand)
    requires
        len <= line.len(),
    ensures
        r@ == uart_command(line@, len as int),
{
    let w_sync: &[u8] = &[115u8, 121, 110, 99];
    let p_time: &[u8] = &[116u8, 105, 109, 101, 32];
    let p_key: &[u8] = &[111u8, 112, 101, 110, 97, 105, 45, 107, 101, 121, 32];
    let p_tweet: &[u8] = &[116u8, 119, 101, 101, 116, 32];
    let p_post_tweet: &[u8] = &[112u8, 111, 115, 116, 95, 116, 119, 101, 101, 116, 32];
    let p_goal: &[u8] = &[103u8, 111, 97, 108, 32];
    let p_m3: &[u8] = &[109u8, 51, 32];
    assert(w_sync@ =~= seq![115u8, 121, 110, 99]);
    assert(p_time@ =~= seq![116u8, 105, 109, 101, 32]);
    assert(p_key@ =~= seq![111u8, 112, 101, 110, 97, 105, 45, 107, 101, 121, 32]);
    assert(p_tweet@ =~= seq![116u8, 119, 101, 101, 116, 32]);
    assert(p_post_tweet@ =~= seq![112u8, 111, 115, 116, 95, 116, 119, 101, 101, 116, 32]);
    assert(p_goal@ =~= seq![103u8, 111, 97, 108, 32]);
    assert(p_m3@ =~= seq![109u8, 51, 32]);
    if is_word_local(line, len, w_sync) {
        return UartCommand::Simple(SimpleCommand::Sync);
    }
    if has_prefix_local(line, len, p_time) {
        let tail = vstd::slice::slice_subrange(line, 5, len);
        assert(tail@ =~= line@.subrange(5, len as int));
        match crate::bytes::parse_u64(tail, len - 5) {
            Some(ts) => {
                return UartCommand::SetTime(ts);
            },
            None => {},
        }
    }
    match simple_local(line, len) {
        Some(c) => {
            return UartCommand::Simple(c);
        },
        None => {},
    }
    if has_prefix_local(line, len, p_key) {
        return UartCommand::OpenaiKey(rest_local(line, len, 11));
    }
    match crate::turn::handle_session_command(line, len) {
        Some(c) => {
            return UartCommand::Session(c);
        },
        None => {},
    }
    match m5_local(line, len) {
        Some(c) => {
            return c;
        },
        None => {},
    }
    let post_tweet = has_prefix_local(line, len, p_post_tweet);
    if has_prefix_local(line, len, p_tweet) || post_tweet {
        return UartCommand::Tweet(rest_local(line, len, if post_tweet { 11 } else { 6 }));
    }
    match post_local(line, len) {
        Some(c) => {
            return c;
        },
        None => {},
    }
    match crate::url::parse_url(line, len) {
        Some(p) => {
            proof {
                crate::url::lemma_url_range(line@, len as int);
            }
            let domain = slice_copy(line, p.domain_start, p.domain_len);
            let path = if p.path_len == 0 {
                Vec::new()
            } else {
                slice_copy(line, p.path_start, p.path_len)
            };
            return UartCommand::Fetch { https: p.https, domain, path };
        },
        None => {},
    }
    let goal = has_prefix_local(line, len, p_goal);
    if goal || has_prefix_local(line, len, p_m3) {
        let s = crate::json::skip_space_from(line, len, if goal { 5 } else { 3 });
        if s < len {
            return UartCommand::Goal(slice_copy(line, s, len - s));
        }
    }
    if crate::goal::starts_with_fetch_goal(line, len) {
        let whole = vstd::slice::slice_subrange(line, 0, len);
        assert(whole@ =~= line@.take(len as int));
        if crate::goal::compile_goal_locally(whole).is_ok() {
            return UartCommand::Goal(slice_copy(line, 0, len));
        }
    }
    UartCommand::Other
}

// ---------------------------------------------------------------------------
// The UDP control port
// ---------------------------------------------------------------------------

/// The port control datagrams come to.
pub const CONTROL_PORT: u16 = 5555;
/// How many bytes of a control datagram are read.
pub const CONTROL_PAYLOAD_MAX: usize = 128;

/// What a control datagram starts besides its answer.
pub enum ControlAction {
    Nothing,
    /// Set the clock to this Unix time.
    SetTime(u64),
    /// Start the sync fetch.
    Sync,
    /// Publish a tweet; the answer is `tweet_reply` of whether it could be prepared.
    Tweet(Vec<u8>),
    /// POST `body` to the URL.
    Post { https: bool, domain: Vec<u8>, path: Vec<u8>, body: Vec<u8> },
    /// GET the URL.
    Fetch { https: bool, domain: Vec<u8>, path: Vec<u8> },
}

pub enum ControlActionView {
    Nothing,
    SetTime(u64),
    Sync,
    Tweet(Seq<u8>),
    Post { https: bool, domain: Seq<u8>, path: Seq<u8>, body: Seq<u8> },
    Fetch { https: bool, domain: Seq<u8>, path: Seq<u8> },
}

impl View for ControlAction {
    type V = ControlActionView;

    open spec fn view(&self) -> ControlActionView {
        match self {
            ControlAction::Nothing => ControlActionView::Nothing,
            ControlAction::SetTime(t) => ControlActionView::SetTime(*t),
            ControlAction::Sync => ControlActionView::Sync,
            ControlAction::Tweet(t) => ControlActionView::Tweet(t@),
            ControlAction::Post { https, domain, path, body } => ControlActionView::Post {
                https: *https,
                domain: domain@,
                path: path@,
                body: body@,
            },
            ControlAction::Fetch { https, domain, path } => ControlActionView::Fetch {
                https: *https,
                domain: domain@,
                path: path@,
            },
        }
    }
}

/// A control datagram read: the text that follows the reply prefix in the answer, and
/// what to start (for a tweet the text comes from `tweet_reply`).
pub struct ControlRequest {
    pub reply: Vec<u8>,
    pub action: ControlAction,
}

/// Two lower-case hexadecimal digits of `b`.
pub open spec fn hex_pair(b: u8) -> Seq<u8> {
    seq![crate::json::hex_lower_digit(b / 16), crate::json::hex_lower_digit(b % 16)]
}

/// `mac=` and the address as colon-separated hexadecimal pairs.
pub open spec fn mac_text(mac: [u8; 6]) -> Seq<u8> {
    seq![109u8, 97, 99, 61] + hex_pair(mac@[0]) + seq![58u8] + hex_pair(mac@[1]) + seq![58u8] + hex_pair(mac@[2]) + seq![58u8]
        + hex_pair(mac@[3]) + seq![58u8] + hex_pair(mac@[4]) + seq![58u8] + hex_pair(mac@[5])
}

pub open spec fn fetching_text(domain: Seq<u8>, path: Seq<u8>) -> Seq<u8> {
    seq![102u8, 101, 116, 99, 104, 105, 110, 103, 32] + domain + path
}

pub open spec fn starts(p: Seq<u8>, n: int, w: Seq<u8>) -> bool {
    w.len() <= n && matches_at(p, 0, w)
}

/// The first `n` bytes of a control datagram read, checked in this order: `ping`, `mac`,
/// `echo `, `sync`, `time <seconds>`, `tweet `/`post_tweet `, `post <url> <body>`, a URL,
/// else a greeting that echoes it. A fetch or tweet while `busy` is answered `busy`.
pub open spec fn control_request(p: Seq<u8>, n: int, mac: [u8; 6], busy: bool) -> (Seq<u8>, ControlActionView) {
    if starts(p, n, seq![112u8, 105, 110, 103]) {
        (seq![112u8, 111, 110, 103], ControlActionView::Nothing)
    } else if starts(p, n, seq![109u8, 97, 99]) {
        (mac_text(mac), ControlActionView::Nothing)
    } else if starts(p, n, seq![101u8, 99, 104, 111, 32]) {
        (p.subrange(5, n), ControlActionView::Nothing)
    } else if n == 4 && starts(p, n, seq![115u8, 121, 110, 99]) {
        if busy {
            (seq![98u8, 117, 115, 121], ControlActionView::Nothing)
        } else {
            (seq![115u8, 121, 110, 99, 105, 110, 103], ControlActionView::Sync)
        }
    } else if has_prefix(p, n, seq![116u8, 105, 109, 101, 32]) {
        match crate::bytes::spec_parse_u64(p.subrange(5, n), n - 5) {
            Some(ts) => (seq![116u8, 105, 109, 101, 32, 115, 101, 116], ControlActionView::SetTime(ts)),
            None => (Seq::empty(), ControlActionView::Nothing),
        }
    } else if has_prefix(p, n, seq![116u8, 119, 101, 101, 116, 32]) || has_prefix(p, n, seq![112u8, 111, 115, 116, 95, 116, 119, 101, 101, 116, 32]) {
        if busy {
            (seq![98u8, 117, 115, 121], ControlActionView::Nothing)
        } else {
            (
                Seq::empty(),
                ControlActionView::Tweet(rest_after(p, n, if has_prefix(p, n, seq![112u8, 111, 115, 116, 95, 116, 119, 101, 101, 116, 32]) { 11 } else { 6 })),
            )
        }
    } else if has_prefix(p, n, seq![112u8, 111, 115, 116, 32]) {
        match post_command(p, n) {
            Some(UartView::Post { https, domain, path, body }) => (
                fetching_text(domain, path),
                ControlActionView::Post { https, domain, path, body },
            ),
            _ => (Seq::empty(), ControlActionView::Nothing),
        }
    } else {
        match crate::url::spec_parse_url(p, n) {
            Some(u) => if busy {
                (seq![98u8, 117, 115, 121], ControlActionView::Nothing)
            } else {
                let domain = p.subrange(u.domain_start as int, u.domain_start + u.domain_len);
                let path = if u.path_len == 0 {
                    Seq::empty()
                } else {
                    p.subrange(u.path_start as int, u.path_start + u.path_len)
                };
                (fetching_text(domain, path), ControlActionView::Fetch { https: u.https, domain, path })
            },
            None => (seq![72u8, 101, 108, 108, 111, 44, 32, 73, 32, 97, 109, 32, 87, 97, 108, 108, 101, 79, 83, 46, 32] + p.take(n), ControlActionView::Nothing),
        }
    }
}

fn lit(s: &[u8]) -> (r: Vec<u8>)
    ensures
        r@ == s@,
{
    let mut v: Vec<u8> = Vec::new();
    crate::bytes::append_all(&mut v, s);
    v
}

fn mac_reply(mac: [u8; 6]) -> (r: Vec<u8>)
    ensures
        r@ == mac_text(mac),
{
    let head: &[u8] = &[109u8, 97, 99, 61];
    let mut out = lit(head);
    let mut j = 0usize;
    while j < 6
        invariant
            j <= 6,
            out@ == if j == 0 {
                seq![109u8, 97, 99, 61]
            } else {
                mac_prefix(mac, j as int)
            },
        decreases 6 - j,
    {
        if j != 0 {
            out.push(58u8);
        }
        let b = mac[j];
        out.push(crate::json::hex_lower(b / 16));
        out.push(crate::json::hex_lower(b % 16));
        j += 1;
    }
    proof {
        reveal_with_fuel(mac_prefix, 6);
    }
    assert(out@ =~= mac_text(mac));
    out
}

/// `mac=` and the first `k` pairs of `mac`, colon-separated.
pub open spec fn mac_prefix(mac: [u8; 6], k: int) -> Seq<u8>
    decreases k,
{
    if k <= 1 {
        seq![109u8, 97, 99, 61] + hex_pair(mac@[0])
    } else {
        mac_prefix(mac, k - 1) + seq![58u8] + hex_pair(mac@[k - 1])
    }
}

fn fetching_reply(domain: &[u8], path: &[u8]) -> (r: Vec<u8>)
    ensures
        r@ == fetching_text(domain@, path@),
{
    let head: &[u8] = &[102u8, 101, 116, 99, 104, 105, 110, 103, 32];
    let mut out = lit(head);
    crate::bytes::append_all(&mut out, domain);
    crate::bytes::append_all(&mut out, path);
    out
}

fn nothing(reply: Vec<u8>) -> (r: ControlRequest)
    ensures
        r.reply@ == reply@,
        r.action@ == ControlActionView::Nothing,
{
    ControlRequest { reply, action: ControlAction::Nothing }
}

/// Reads a control datagram with payload `payload` (see `control_request`; at most
/// `CONTROL_PAYLOAD_MAX` bytes are read); `mac` is the runtime's own address and `busy`
/// whether a fetch runs.
pub fn parse_control_datagram(payload: &[u8], mac: [u8; 6], busy: bool) -> (r: ControlRequest)
    ensures
        ({
            let n = if payload.len() < CONTROL_PAYLOAD_MAX { payload.len() as int } else { CONTROL_PAYLOAD_MAX as int };
            (r.reply@, r.action@) == control_request(payload@, n, mac, busy)
        }),
{
    let n = if payload.len() < CONTROL_PAYLOAD_MAX {
        payload.len()
    } else {
        CONTROL_PAYLOAD_MAX
    };
    let w_ping: &[u8] = &[112u8, 105, 110, 103];
    let w_mac: &[u8] = &[109u8, 97, 99];
    let w_echo: &[u8] = &[101u8, 99, 104, 111, 32];
    let w_sync: &[u8] = &[115u8, 121, 110, 99];
    let w_time: &[u8] = &[116u8, 105, 109, 101, 32];
    let w_tweet: &[u8] = &[116u8, 119, 101, 101, 116, 32];
    let w_post_tweet: &[u8] = &[112u8, 111, 115, 116, 95, 116, 119, 101, 101, 116, 32];
    let w_post: &[u8] = &[112u8, 111, 115, 116, 32];
    let busy_text: &[u8] = &[98u8, 117, 115, 121];
    assert(w_ping@ =~= seq![112u8, 105, 110, 103]);
    assert(w_mac@ =~= seq![109u8, 97, 99]);
    assert(w_echo@ =~= seq![101u8, 99, 104, 111, 32]);
    assert(w_sync@ =~= seq![115u8, 121, 110, 99]);
    assert(w_time@ =~= seq![116u8, 105, 109, 101, 32]);
    assert(w_tweet@ =~= seq![116u8, 119, 101, 101, 116, 32]);
    assert(w_post_tweet@ =~= seq![112u8, 111, 115, 116, 95, 116, 119, 101, 101, 116, 32]);
    assert(w_post@ =~= seq![112u8, 111, 115, 116, 32]);
    assert(busy_text@ =~= seq![98u8, 117, 115, 121]);
    if crate::bytes::starts_with(payload, n, w_ping) {
        let t: &[u8] = &[112u8, 111, 110, 103];
        assert(t@ =~= seq![112u8, 111, 110, 103]);
        return nothing(lit(t));
    }
    if crate::bytes::starts_with(payload, n, w_mac) {
        return nothing(mac_reply(mac));
    }
    if crate::bytes::starts_with(payload, n, w_echo) {
        return nothing(slice_copy(payload, 5, n - 5));
    }
    if n == 4 && crate::bytes::starts_with(payload, n, w_sync) {
        if busy {
            return nothing(lit(busy_text));
        }
        let t: &[u8] = &[115u8, 121, 110, 99, 105, 110, 103];
        assert(t@ =~= seq![115u8, 121, 110, 99, 105, 110, 103]);
        return ControlRequest { reply: lit(t), action: ControlAction::Sync };
    }
    if has_prefix_local(payload, n, w_time) {
        let tail = vstd::slice::slice_subrange(payload, 5, n);
        assert(tail@ =~= payload@.subrange(5, n as int));
        match crate::bytes::parse_u64(tail, n - 5) {
            Some(ts) => {
                let t: &[u8] = &[116u8, 105, 109, 101, 32, 115, 101, 116];
                assert(t@ =~= seq![116u8, 105, 109, 101, 32, 115, 101, 116]);
                return ControlRequest { reply: lit(t), action: ControlAction::SetTime(ts) };
            },
            None => {
                return nothing(Vec::new());
            },
        }
    }
    let post_tweet = has_prefix_local(payload, n, w_post_tweet);
    if has_prefix_local(payload, n, w_tweet) || post_tweet {
        if busy {
            return nothing(lit(busy_text));
        }
        let text = rest_local(payload, n, if post_tweet { 11 } else { 6 });
        return ControlRequest { reply: Vec::new(), action: ControlAction::Tweet(text) };
    }
    if has_prefix_local(payload, n, w_post) {
        match post_local(payload, n) {
            Some(UartCommand::Post { https, domain, path, body }) => {
                let reply = fetching_reply(domain.as_slice(), path.as_slice());
                return ControlRequest { reply, action: ControlAction::Post { https, domain, path, body } };
            },
            _ => {
                return nothing(Vec::new());
            },
        }
    }
    match crate::url::parse_url(payload, n) {
        Some(u) => {
            if busy {
                return nothing(lit(busy_text));
            }
            proof {
                crate::url::lemma_url_range(payload@, n as int);
            }
            let domain = slice_copy(payload, u.domain_start, u.domain_len);
            let path = if u.path_len == 0 {
                Vec::new()
            } else {
                slice_copy(payload, u.path_start, u.path_len)
            };
            let reply = fetching_reply(domain.as_slice(), path.as_slice());
            ControlRequest { reply, action: ControlAction::Fetch { https: u.https, domain, path } }
        },
        None => {
            let head: &[u8] = &[72u8, 101, 108, 108, 111, 44, 32, 73, 32, 97, 109, 32, 87, 97, 108, 108, 101, 79, 83, 46, 32];
            assert(head@ =~= seq![72u8, 101, 108, 108, 111, 44, 32, 73, 32, 97, 109, 32, 87, 97, 108, 108, 101, 79, 83, 46, 32]);
            let mut out = lit(head);
            crate::bytes::append_all(&mut out, vstd::slice::slice_subrange(payload, 0, n));
            assert(payload@.subrange(0, n as int) =~= payload@.take(n as int));
            nothing(out)
        },
    }
}

/// The answer to a tweet request: whether the tweet could be prepared.
pub fn tweet_reply(prepared: bool) -> (r: &'static [u8])
    ensures
        r@ == (if prepared { seq![116u8, 119, 101, 101, 116, 105, 110, 103] } else { seq![116u8, 119, 101, 101, 116, 32, 115, 101, 116, 117, 112, 32, 102, 97, 105, 108, 101, 100] }),
{
    if prepared {
        let r: &'static [u8] = &[116u8, 119, 101, 101, 116, 105, 110, 103];
        assert(r@ =~= seq![116u8, 119, 101, 101, 116, 105, 110, 103]);
        r
    } else {
        let r: &'static [u8] = &[116u8, 119, 101, 101, 116, 32, 115, 101, 116, 117, 112, 32, 102, 97, 105, 108, 101, 100];
        assert(r@ =~= seq![116u8, 119, 101, 101, 116, 32, 115, 101, 116, 117, 112, 32, 102, 97, 105, 108, 101, 100]);
        r
    }
}

// ---------------------------------------------------------------------------
// Typing a console line
// ---------------------------------------------------------------------------

/// The console line being typed, and whether the bytes of an escape sequence are being
/// skipped.
pub struct LineEditor {
    pub line: Vec<u8>,
    pub escape: bool,
}

/// What the console shows after a typed byte.
pub enum EditAction {
    Nothing,
    /// Echo the byte.
    Echo(u8),
    /// Redraw the line after a deletion.
    Redraw,
    /// The line was entered: run it.
    Submit(Vec<u8>),
}

pub enum EditView {
    Nothing,
    Echo(u8),
    Redraw,
    Submit(Seq<u8>),
}

impl View for EditAction {
    type V = EditView;

    open spec fn view(&self) -> EditView {
        match self {
            EditAction::Nothing => EditView::Nothing,
            EditAction::Echo(b) => EditView::Echo(*b),
            EditAction::Redraw => EditView::Redraw,
            EditAction::Submit(l) => EditView::Submit(l@),
        }
    }
}

/// One typed byte: an escape sequence is skipped up to its final byte (`@` to `~`); CR or
/// LF enters the line; backspace or delete removes the last character (all its UTF-8
/// bytes); any other byte is added while the line is shorter than `UART_LINE_MAX - 1`.
pub open spec fn sp_edit(line: Seq<u8>, escape: bool, b: u8) -> (Seq<u8>, bool, EditView) {
    if escape {
        (line, !(0x40 <= b && b <= 0x7e), EditView::Nothing)
    } else if b == 0x1b {
        (line, true, EditView::Nothing)
    } else if b == 13 || b == 10 {
        (Seq::empty(), false, EditView::Submit(line))
    } else if b == 8 || b == 0x7f {
        if line.len() > 0 {
            (line.take(crate::utf8::back_over_cont(line, line.len() - 1)), false, EditView::Redraw)
        } else {
            (line, false, EditView::Nothing)
        }
    } else if line.len() + 1 < crate::fetch::UART_LINE_MAX {
        (line.push(b), false, EditView::Echo(b))
    } else {
        (line, false, EditView::Nothing)
    }
}

proof fn lemma_back_over_cont_range(s: Seq<u8>, idx: int)
    requires
        idx >= 0,
    ensures
        0 <= crate::utf8::back_over_cont(s, idx) <= idx,
    decreases idx,
{
    if idx > 0 && crate::utf8::spec_is_cont(s[idx]) {
        lemma_back_over_cont_range(s, idx - 1);
    }
}

impl LineEditor {
    pub fn new() -> (r: Self)
        ensures
            r.line@ == Seq::<u8>::empty(),
            !r.escape,
    {
        LineEditor { line: Vec::new(), escape: false }
    }

    /// Takes one typed byte (see `sp_edit`).
    pub fn on_byte(&mut self, b: u8) -> (r: EditAction)
        ensures
            (final(self).line@, final(self).escape, r@) == sp_edit(old(self).line@, old(self).escape, b),
    {
        if self.escape {
            if 0x40u8 <= b && b <= 0x7eu8 {
                self.escape = false;
            }
            return EditAction::Nothing;
        }
        if b == 0x1bu8 {
            self.escape = true;
            return EditAction::Nothing;
        }
        if b == 13u8 || b == 10u8 {
            let mut done: Vec<u8> = Vec::new();
            std::mem::swap(&mut done, &mut self.line);
            return EditAction::Submit(done);
        }
        if b == 8u8 || b == 0x7fu8 {
            let n = self.line.len();
            if n == 0 {
                return EditAction::Nothing;
            }
            let k = crate::utf8::utf8_previous_boundary(self.line.as_slice(), n);
            proof {
                lemma_back_over_cont_range(self.line@, n - 1);
            }
            self.line.truncate(k);
            return EditAction::Redraw;
        }
        if self.line.len() < crate::fetch::UART_LINE_MAX - 1 {
            self.line.push(b);
            return EditAction::Echo(b);
        }
        EditAction::Nothing
    }
}


// ---------------------------------------------------------------------------
// Console settings
// ---------------------------------------------------------------------------

/// What the console shows besides command replies: trace lines, debug lines, and
/// whether progress lines are redrawn in place.
#[derive(Clone, Copy, PartialEq, Eq, Structural)]
pub struct ConsoleSettings {
    pub trace: bool,
    pub debug: bool,
    pub status_inline: bool,
}

impl ConsoleSettings {
    /// At boot: no trace, no debug, progress redrawn in place.
    pub fn new() -> (r: Self)
        ensures
            r == (ConsoleSettings { trace: false, debug: false, status_inline: true }),
    {
        ConsoleSettings { trace: false, debug: false, status_inline: true }
    }
}

/// How a progress line is shown.
#[derive(Clone, Copy, PartialEq, Eq, Structural)]
pub enum StatusDisplay {
    /// Not at all: trace lines report progress.
    Hidden,
    /// Redrawn in place on one line.
    Inline,
    /// As a line of its own.
    Line,
}

pub open spec fn spec_status_display(s: ConsoleSettings) -> StatusDisplay {
    if s.trace {
        StatusDisplay::Hidden
    } else if s.status_inline && !s.debug {
        StatusDisplay::Inline
    } else {
        StatusDisplay::Line
    }
}

/// How a progress line is shown under `s`.
pub fn status_display(s: ConsoleSettings) -> (r: StatusDisplay)
    ensures
        r == spec_status_display(s),
{
    if s.trace {
        StatusDisplay::Hidden
    } else if s.status_inline && !s.debug {
        StatusDisplay::Inline
    } else {
        StatusDisplay::Line
    }
}

/// The settings after a command: only the trace, debug and status commands change them.
pub open spec fn settings_after(s: ConsoleSettings, cmd: UartView) -> ConsoleSettings {
    match cmd {
        UartView::Simple(SimpleCommand::TraceOn) => ConsoleSettings { trace: true, ..s },
        UartView::Simple(SimpleCommand::TraceOff) => ConsoleSettings { trace: false, ..s },
        UartView::Simple(SimpleCommand::DebugOn) => ConsoleSettings { debug: true, ..s },
        UartView::Simple(SimpleCommand::DebugOff) => ConsoleSettings { debug: false, ..s },
        UartView::Simple(SimpleCommand::StatusInline) => ConsoleSettings { status_inline: true, ..s },
        UartView::Simple(SimpleCommand::StatusPlain) => ConsoleSettings { status_inline: false, ..s },
        _ => s,
    }
}

pub open spec fn trace_word(on: bool) -> Seq<u8> {
    if on { seq![116u8, 114, 97, 99, 101, 32, 111, 110, 10] } else { seq![116u8, 114, 97, 99, 101, 32, 111, 102, 102, 10] }
}

pub open spec fn debug_word(on: bool) -> Seq<u8> {
    if on { seq![100u8, 101, 98, 117, 103, 32, 111, 110, 10] } else { seq![100u8, 101, 98, 117, 103, 32, 111, 102, 102, 10] }
}

pub open spec fn status_word(inline: bool) -> Seq<u8> {
    if inline { seq![115u8, 116, 97, 116, 117, 115, 32, 105, 110, 108, 105, 110, 101, 10] } else { seq![115u8, 116, 97, 116, 117, 115, 32, 112, 108, 97, 105, 110, 10] }
}

/// The reply to a settings, key-status or clock command: the new or current setting, the
/// key's state, `time set`.
pub open spec fn settings_reply(s: ConsoleSettings, cmd: UartView, key_ready: bool) -> Seq<u8> {
    match cmd {
        UartView::SetTime(_) => seq![116u8, 105, 109, 101, 32, 115, 101, 116, 10],
        UartView::Simple(SimpleCommand::TraceOn) => trace_word(true),
        UartView::Simple(SimpleCommand::TraceOff) => trace_word(false),
        UartView::Simple(SimpleCommand::TraceStatus) => trace_word(s.trace),
        UartView::Simple(SimpleCommand::DebugOn) => debug_word(true),
        UartView::Simple(SimpleCommand::DebugOff) => debug_word(false),
        UartView::Simple(SimpleCommand::DebugStatus) => debug_word(s.debug),
        UartView::Simple(SimpleCommand::StatusInline) => status_word(true),
        UartView::Simple(SimpleCommand::StatusPlain) => status_word(false),
        UartView::Simple(SimpleCommand::StatusQuery) => status_word(s.status_inline),
        UartView::Simple(SimpleCommand::OpenaiClear) => seq![111u8, 112, 101, 110, 97, 105, 32, 107, 101, 121, 32, 99, 108, 101, 97, 114, 101, 100, 10],
        UartView::Simple(SimpleCommand::OpenaiStatus) => if key_ready {
            seq![111u8, 112, 101, 110, 97, 105, 32, 107, 101, 121, 32, 114, 101, 97, 100, 121, 10]
        } else {
            seq![111u8, 112, 101, 110, 97, 105, 32, 107, 101, 121, 32, 109, 105, 115, 115, 105, 110, 103, 10]
        },
        _ => Seq::empty(),
    }
}

pub open spec fn busy_reply() -> Seq<u8> {
    seq![98u8, 117, 115, 121, 10]
}

/// The reply to a console command: that of a settings command (see `settings_reply`,
/// `key_ready` telling whether a key was stored before the command); `syncing...`;
/// whether a key was stored; `session reset`; `session active` with the history's
/// length (`history_len`, once started); the host fetched (with its path) or posted to;
/// `busy` for a sync, a fetch or a tweet while a transfer runs (`fetch_busy`); a tweet
/// that cannot be set up without the X credentials (`x_ready`). Empty for the commands
/// whose reply comes from their work.
pub open spec fn console_reply(
    s: ConsoleSettings,
    cmd: UartView,
    key_ready: bool,
    history_len: nat,
    fetch_busy: bool,
    x_ready: bool,
) -> Seq<u8> {
    match cmd {
        UartView::Simple(SimpleCommand::Sync) => if fetch_busy {
            busy_reply()
        } else {
            seq![115u8, 121, 110, 99, 105, 110, 103, 46, 46, 46, 10]
        },
        UartView::OpenaiKey(k) => if crate::openai::key_accepted(k) {
            seq![111u8, 112, 101, 110, 97, 105, 32, 107, 101, 121, 32, 115, 116, 111, 114, 101, 100, 10]
        } else {
            seq![111u8, 112, 101, 110, 97, 105, 32, 107, 101, 121, 32, 114, 101, 106, 101, 99, 116, 101, 100, 10]
        },
        UartView::Session(SessionCommand::Reset) => seq![115u8, 101, 115, 115, 105, 111, 110, 32, 114, 101, 115, 101, 116, 10],
        UartView::Session(SessionCommand::Status) => seq![115u8, 101, 115, 115, 105, 111, 110, 32, 97, 99, 116, 105, 118, 101, 10, 104, 105, 115, 116, 111, 114, 121, 32, 98, 121, 116, 101, 115, 58, 32] + crate::bytes::dec_digits(
            history_len,
        ) + seq![10u8],
        UartView::Fetch { domain, path, .. } => if fetch_busy {
            busy_reply()
        } else {
            seq![102u8, 101, 116, 99, 104, 105, 110, 103, 32] + domain + path + seq![10u8]
        },
        UartView::Post { domain, .. } => seq![112u8, 111, 115, 116, 32] + domain + seq![10u8],
        UartView::Tweet(_) => if fetch_busy {
            busy_reply()
        } else if !x_ready {
            seq![116u8, 119, 101, 101, 116, 32, 115, 101, 116, 117, 112, 32, 102, 97, 105, 108, 101, 100, 10]
        } else {
            Seq::empty()
        },
        _ => settings_reply(s, cmd, key_ready),
    }
}

/// What a line that no command and no session turn took up is answered.
pub open spec fn unknown_reply(len: int) -> Seq<u8> {
    if len > 0 {
        seq![117u8, 110, 107, 110, 111, 119, 110, 32, 99, 111, 109, 109, 97, 110, 100, 10]
    } else {
        Seq::empty()
    }
}

pub fn unknown_command_reply(len: usize) -> (r: Vec<u8>)
    ensures
        r@ == unknown_reply(len as int),
{
    if len > 0 {
        let w: &[u8] = &[117u8, 110, 107, 110, 111, 119, 110, 32, 99, 111, 109, 109, 97, 110, 100, 10];
        assert(w@ =~= unknown_reply(len as int));
        reply_of(w)
    } else {
        Vec::new()
    }
}

fn reply_of(w: &[u8]) -> (r: Vec<u8>)
    ensures
        r@ == w@,
{
    let mut out: Vec<u8> = Vec::new();
    crate::bytes::append_all(&mut out, w);
    out
}

fn apply_settings(s: ConsoleSettings, cmd: &UartCommand, key_ready: bool) -> (r: (ConsoleSettings, Vec<u8>))
    ensures
        r.0 == settings_after(s, cmd@),
        r.1@ == settings_reply(s, cmd@, key_ready),
{
    let w_trace_on: &[u8] = &[116u8, 114, 97, 99, 101, 32, 111, 110, 10];
    let w_trace_off: &[u8] = &[116u8, 114, 97, 99, 101, 32, 111, 102, 102, 10];
    let w_debug_on: &[u8] = &[100u8, 101, 98, 117, 103, 32, 111, 110, 10];
    let w_debug_off: &[u8] = &[100u8, 101, 98, 117, 103, 32, 111, 102, 102, 10];
    let w_inline: &[u8] = &[115u8, 116, 97, 116, 117, 115, 32, 105, 110, 108, 105, 110, 101, 10];
    let w_plain: &[u8] = &[115u8, 116, 97, 116, 117, 115, 32, 112, 108, 97, 105, 110, 10];
    assert(w_trace_on@ =~= trace_word(true));
    assert(w_trace_off@ =~= trace_word(false));
    assert(w_debug_on@ =~= debug_word(true));
    assert(w_debug_off@ =~= debug_word(false));
    assert(w_inline@ =~= status_word(true));
    assert(w_plain@ =~= status_word(false));
    match cmd {
        UartCommand::SetTime(_) => {
            let w: &[u8] = &[116u8, 105, 109, 101, 32, 115, 101, 116, 10];
            assert(w@ =~= seq![116u8, 105, 109, 101, 32, 115, 101, 116, 10]);
            (s, reply_of(w))
        },
        UartCommand::Simple(c) => match c {
            SimpleCommand::TraceOn => (ConsoleSettings { trace: true, ..s }, reply_of(w_trace_on)),
            SimpleCommand::TraceOff => (ConsoleSettings { trace: false, ..s }, reply_of(w_trace_off)),
            SimpleCommand::TraceStatus => (s, reply_of(if s.trace { w_trace_on } else { w_trace_off })),
            SimpleCommand::DebugOn => (ConsoleSettings { debug: true, ..s }, reply_of(w_debug_on)),
            SimpleCommand::DebugOff => (ConsoleSettings { debug: false, ..s }, reply_of(w_debug_off)),
            SimpleCommand::DebugStatus => (s, reply_of(if s.debug { w_debug_on } else { w_debug_off })),
            SimpleCommand::StatusInline => (ConsoleSettings { status_inline: true, ..s }, reply_of(w_inline)),
            SimpleCommand::StatusPlain => (ConsoleSettings { status_inline: false, ..s }, reply_of(w_plain)),
            SimpleCommand::StatusQuery => (s, reply_of(if s.status_inline { w_inline } else { w_plain })),
            SimpleCommand::OpenaiClear => {
                let w: &[u8] = &[111u8, 112, 101, 110, 97, 105, 32, 107, 101, 121, 32, 99, 108, 101, 97, 114, 101, 100, 10];
                assert(w@ =~= seq![111u8, 112, 101, 110, 97, 105, 32, 107, 101, 121, 32, 99, 108, 101, 97, 114, 101, 100, 10]);
                (s, reply_of(w))
            },
            SimpleCommand::OpenaiStatus => {
                let ready: &[u8] = &[111u8, 112, 101, 110, 97, 105, 32, 107, 101, 121, 32, 114, 101, 97, 100, 121, 10];
                let missing: &[u8] = &[111u8, 112, 101, 110, 97, 105, 32, 107, 101, 121, 32, 109, 105, 115, 115, 105, 110, 103, 10];
                assert(ready@ =~= seq![111u8, 112, 101, 110, 97, 105, 32, 107, 101, 121, 32, 114, 101, 97, 100, 121, 10]);
                assert(missing@ =~= seq![111u8, 112, 101, 110, 97, 105, 32, 107, 101, 121, 32, 109, 105, 115, 115, 105, 110, 103, 10]);
                (s, reply_of(if key_ready { ready } else { missing }))
            },
            _ => (s, Vec::new()),
        },
        _ => (s, Vec::new()),
    }
}


/// Applies a console command: the settings change (see `settings_after`), `openai-key`
/// stores the key and `openai-clear` forgets it, `session reset` starts the session afresh
/// and `session status` starts it when it had not; and gives the reply (see
/// `console_reply`). `fetch_busy` tells whether a transfer runs and `x_ready` whether the
/// X credentials are present.
pub fn apply_console_command(
    s: ConsoleSettings,
    cmd: &UartCommand,
    keys: &mut crate::openai::ApiKeyStore,
    session: &mut crate::session::Session,
    fetch_busy: bool,
    x_ready: bool,
) -> (r: (ConsoleSettings, Vec<u8>))
    requires
        old(keys).wf(),
        old(session).wf(),
    ensures
        r.0 == settings_after(s, cmd@),
        r.1@ == console_reply(
            s,
            cmd@,
            old(keys).key_len() != 0,
            final(session).history().len(),
            fetch_busy,
            x_ready,
        ),
        final(keys).wf(),
        final(session).wf(),
        match cmd@ {
            UartView::OpenaiKey(k) => crate::openai::set_key_step(old(keys).raw(), old(keys).key_len(), k) == (
                final(keys).raw(),
                final(keys).key_len(),
                crate::openai::key_accepted(k),
            ),
            UartView::Simple(SimpleCommand::OpenaiClear) => final(keys).key_len() == 0 && final(keys).raw()
                == Seq::new(old(keys).key_len() as nat, |i: int| 0u8) + old(keys).raw().skip(old(keys).key_len()),
            _ => final(keys).raw() == old(keys).raw() && final(keys).key_len() == old(keys).key_len(),
        },
        match cmd@ {
            UartView::Session(SessionCommand::Reset) => crate::session::fresh(&*final(session)),
            UartView::Session(SessionCommand::Status) => final(session).started() && final(session).history()
                == crate::session::start_history(&*old(session)) && final(session).slots()
                == crate::session::start_slots(&*old(session)) && crate::memory::mview(&final(session).memory())
                == crate::memory::mem_started(crate::memory::mview(&old(session).memory())),
            _ => *final(session) == *old(session),
        },
{
    let key_ready = keys.api_key_ready();
    let (s2, settled) = apply_settings(s, cmd, key_ready);
    let busy: &[u8] = &[98u8, 117, 115, 121, 10];
    assert(busy@ =~= busy_reply());
    match cmd {
        UartCommand::Simple(SimpleCommand::Sync) => {
            let w: &[u8] = &[115u8, 121, 110, 99, 105, 110, 103, 46, 46, 46, 10];
            assert(w@ =~= seq![115u8, 121, 110, 99, 105, 110, 103, 46, 46, 46, 10]);
            (s2, reply_of(if fetch_busy { busy } else { w }))
        },
        UartCommand::Simple(SimpleCommand::OpenaiClear) => {
            keys.clear_api_key();
            (s2, settled)
        },
        UartCommand::OpenaiKey(k) => {
            let stored = keys.set_api_key(k.as_slice());
            proof {
                crate::openai::lemma_key_accepted(old(keys).raw(), old(keys).key_len(), k@);
            }
            let yes: &[u8] = &[111u8, 112, 101, 110, 97, 105, 32, 107, 101, 121, 32, 115, 116, 111, 114, 101, 100, 10];
            let no: &[u8] = &[111u8, 112, 101, 110, 97, 105, 32, 107, 101, 121, 32, 114, 101, 106, 101, 99, 116, 101, 100, 10];
            assert(yes@ =~= seq![111u8, 112, 101, 110, 97, 105, 32, 107, 101, 121, 32, 115, 116, 111, 114, 101, 100, 10]);
            assert(no@ =~= seq![111u8, 112, 101, 110, 97, 105, 32, 107, 101, 121, 32, 114, 101, 106, 101, 99, 116, 101, 100, 10]);
            (s2, reply_of(if stored { yes } else { no }))
        },
        UartCommand::Session(SessionCommand::Reset) => {
            session.session_reset();
            let w: &[u8] = &[115u8, 101, 115, 115, 105, 111, 110, 32, 114, 101, 115, 101, 116, 10];
            assert(w@ =~= seq![115u8, 101, 115, 115, 105, 111, 110, 32, 114, 101, 115, 101, 116, 10]);
            (s2, reply_of(w))
        },
        UartCommand::Session(SessionCommand::Status) => {
            session.ensure_session_started();
            let n = session.history_len();
            let mut out = reply_of(&[115u8, 101, 115, 115, 105, 111, 110, 32, 97, 99, 116, 105, 118, 101, 10, 104, 105, 115, 116, 111, 114, 121, 32, 98, 121, 116, 101, 115, 58, 32]);
            let d = crate::bytes::u64_to_dec(n as u64);
            crate::bytes::append_all(&mut out, d.as_slice());
            crate::bytes::append_all(&mut out, &[10u8]);
            assert(out@ =~= seq![115u8, 101, 115, 115, 105, 111, 110, 32, 97, 99, 116, 105, 118, 101, 10, 104, 105, 115, 116, 111, 114, 121, 32, 98, 121, 116, 101, 115, 58, 32] + crate::bytes::dec_digits(n as nat) + seq![10u8]);
            (s2, out)
        },
        UartCommand::Fetch { domain, path, .. } => {
            if fetch_busy {
                (s2, reply_of(busy))
            } else {
                let mut out = reply_of(&[102u8, 101, 116, 99, 104, 105, 110, 103, 32]);
                crate::bytes::append_all(&mut out, domain.as_slice());
                crate::bytes::append_all(&mut out, path.as_slice());
                crate::bytes::append_all(&mut out, &[10u8]);
                assert(out@ =~= seq![102u8, 101, 116, 99, 104, 105, 110, 103, 32] + domain@ + path@ + seq![10u8]);
                (s2, out)
            }
        },
        UartCommand::Post { domain, .. } => {
            let mut out = reply_of(&[112u8, 111, 115, 116, 32]);
            crate::bytes::append_all(&mut out, domain.as_slice());
            crate::bytes::append_all(&mut out, &[10u8]);
            assert(out@ =~= seq![112u8, 111, 115, 116, 32] + domain@ + seq![10u8]);
            (s2, out)
        },
        UartCommand::Tweet(_) => {
            let failed: &[u8] = &[116u8, 119, 101, 101, 116, 32, 115, 101, 116, 117, 112, 32, 102, 97, 105, 108, 101, 100, 10];
            assert(failed@ =~= seq![116u8, 119, 101, 101, 116, 32, 115, 101, 116, 117, 112, 32, 102, 97, 105, 108, 101, 100, 10]);
            if fetch_busy {
                (s2, reply_of(busy))
            } else if !x_ready {
                (s2, reply_of(failed))
            } else {
                (s2, Vec::new())
            }
        },
        _ => (s2, settled),
    }
}

} // verus!

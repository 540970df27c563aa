use vstd::prelude::*;
use crate::bytes::bounded_append;
use crate::bytes::matches_at;
use crate::bytes::min_int;
use crate::bytes::skip_spaces;
use crate::http::sat_add;
use crate::http::sat_sub;
use crate::session::Session;
use crate::session::StateSlot;
use crate::session::history_append;
use crate::session::state_read;
use crate::session::state_write;
use crate::turn::M4Reply;
use crate::turn::M4ReplyError;
use crate::turn::TurnCooldown;
use crate::turn::cap_to;
use crate::turn::retry_backoff;
use crate::turn::tool_is;

verus! {

/// Size of the request body buffer.
pub const FETCH_BODY_MAX: usize = 65536;
pub const M4_GOAL_MAX: usize = 768;
pub const M4_SUMMARY_MAX: usize = 4096;
pub const M4_REASON_MAX: usize = 128;
pub const M4_FAILURE_REASON_MAX: usize = 160;
pub const M4_MODEL_TEXT_MAX: usize = 16384;
pub const M4_USER_QUERY_MAX: usize = 128;
pub const M4_PATH_MAX: usize = 512;

/// What a session turn is waiting for.
#[derive(Clone, Copy, PartialEq, Eq, Structural)]
pub enum M4Phase {
    Idle,
    Model,
    SummaryModel,
    FetchUrl,
    PostUrl,
    PostTweet,
    SearchRecent,
    GetUserPosts,
}

/// How a finished turn ended.
#[derive(Clone, Copy, PartialEq, Eq, Structural)]
pub enum M4Terminal {
    Completed,
    Refused,
    Failed,
}

/// Which credentials are configured.
#[derive(Clone, Copy)]
pub struct M4Access {
    pub api_key_ready: bool,
    pub x_secrets_ready: bool,
    pub x_bearer_ready: bool,
}

/// How an HTTP exchange of the turn ended: whether the transfer completed, the HTTP status
/// (0 when none came), the transport failure text, whether the body was cut off, the body
/// and the model output text already extracted while receiving (empty when none).
pub struct FetchOutcome {
    pub ok: bool,
    pub status: u16,
    pub transport: Vec<u8>,
    pub truncated: bool,
    pub body: Vec<u8>,
    pub cached_output: Vec<u8>,
}

/// What the runtime has to do next for the turn.
pub enum M4Step {
    /// The line or event is not for a session turn.
    NotHandled,
    /// Another task or transfer is running.
    Busy,
    /// Nothing to start.
    Pending,
    /// Wait `wait_ms` then `backoff_ms`, then send `body` to the model.
    StartModel { wait_ms: u64, backoff_ms: u64, body: Vec<u8> },
    /// Wait, then ask the model for a summary of the fetched page.
    StartSummary { wait_ms: u64, backoff_ms: u64 },
    /// Fetch `url`.
    FetchUrl { url: Vec<u8> },
    /// POST `body` to `url`.
    PostUrl { url: Vec<u8>, body: Vec<u8> },
    /// Publish a tweet.
    PostTweet { text: Vec<u8> },
    /// GET `path` from the X API with the bearer token.
    XGet { path: Vec<u8> },
    /// The turn is over.
    Finish { terminal: M4Terminal, summary: Vec<u8>, reason: Vec<u8> },
}

pub enum M4StepView {
    NotHandled,
    Busy,
    Pending,
    StartModel { wait_ms: u64, backoff_ms: u64, body: Seq<u8> },
    StartSummary { wait_ms: u64, backoff_ms: u64 },
    FetchUrl { url: Seq<u8> },
    PostUrl { url: Seq<u8>, body: Seq<u8> },
    PostTweet { text: Seq<u8> },
    XGet { path: Seq<u8> },
    Finish { terminal: M4Terminal, summary: Seq<u8>, reason: Seq<u8> },
}

impl View for M4Step {
    type V = M4StepView;

    open spec fn view(&self) -> M4StepView {
        match self {
            M4Step::NotHandled => M4StepView::NotHandled,
            M4Step::Busy => M4StepView::Busy,
            M4Step::Pending => M4StepView::Pending,
            M4Step::StartModel { wait_ms, backoff_ms, body } => M4StepView::StartModel {
                wait_ms: *wait_ms,
                backoff_ms: *backoff_ms,
                body: body@,
            },
            M4Step::StartSummary { wait_ms, backoff_ms } => M4StepView::StartSummary {
                wait_ms: *wait_ms,
                backoff_ms: *backoff_ms,
            },
            M4Step::FetchUrl { url } => M4StepView::FetchUrl { url: url@ },
            M4Step::PostUrl { url, body } => M4StepView::PostUrl { url: url@, body: body@ },
            M4Step::PostTweet { text } => M4StepView::PostTweet { text: text@ },
            M4Step::XGet { path } => M4StepView::XGet { path: path@ },
            M4Step::Finish { terminal, summary, reason } => M4StepView::Finish {
                terminal: *terminal,
                summary: summary@,
                reason: reason@,
            },
        }
    }
}

/// The state of the session turn in progress.
pub struct M4Turn {
    pub phase: M4Phase,
    pub goal: Vec<u8>,
    pub tool_name: Vec<u8>,
    pub tool_arg1: Vec<u8>,
    pub tool_arg2: Vec<u8>,
    pub loop_step: u8,
    pub model_retries: u8,
    pub last_tool_result: Vec<u8>,
    pub last_fetch_url: Vec<u8>,
    pub last_fetch_body: Vec<u8>,
}

#[verifier::ext_equal]
pub struct M4View {
    pub phase: M4Phase,
    pub goal: Seq<u8>,
    pub tool_name: Seq<u8>,
    pub tool_arg1: Seq<u8>,
    pub tool_arg2: Seq<u8>,
    pub loop_step: u8,
    pub model_retries: u8,
    pub last_tool_result: Seq<u8>,
    pub last_fetch_url: Seq<u8>,
    pub last_fetch_body: Seq<u8>,
}

impl View for M4Turn {
    type V = M4View;

    open spec fn view(&self) -> M4View {
        M4View {
            phase: self.phase,
            goal: self.goal@,
            tool_name: self.tool_name@,
            tool_arg1: self.tool_arg1@,
            tool_arg2: self.tool_arg2@,
            loop_step: self.loop_step,
            model_retries: self.model_retries,
            last_tool_result: self.last_tool_result@,
            last_fetch_url: self.last_fetch_url@,
            last_fetch_body: self.last_fetch_body@,
        }
    }
}

/// What the turn logic sees of the session.
#[verifier::ext_equal]
pub struct SessionView {
    pub started: bool,
    pub history: Seq<u8>,
    pub slots: Seq<StateSlot>,
    pub memory: crate::memory::MemView,
}

pub open spec fn sview(s: Session) -> SessionView {
    SessionView { started: s.started(), history: s.history(), slots: s.slots(), memory: crate::memory::mview(&s.memory()) }
}

/// The session once started (see `Session::ensure_session_started`).
pub open spec fn sv_start(s: SessionView) -> SessionView {
    if s.started {
        s
    } else {
        SessionView {
            started: true,
            history: Seq::empty(),
            slots: crate::session::empty_slots(),
            memory: crate::memory::mem_started(s.memory),
        }
    }
}

/// The started session with a `label text` line added to its history.
pub open spec fn sv_said(s: SessionView, label: Seq<u8>, text: Seq<u8>) -> SessionView {
    let b = sv_start(s);
    SessionView {
        history: history_append(history_append(history_append(b.history, label), text), seq![10u8]),
        ..b
    }
}

/// The session after the user request `text`: its line, and the request noted in memory.
pub open spec fn sv_user(s: SessionView, text: Seq<u8>) -> SessionView {
    SessionView {
        memory: crate::memory::mem_user(s.memory, text),
        ..sv_said(s, crate::session::user_label(), text)
    }
}

/// The session after the answer `text`: its line, and the answer noted in memory.
pub open spec fn sv_answer(s: SessionView, text: Seq<u8>) -> SessionView {
    SessionView {
        memory: crate::memory::mem_answer(s.memory, text),
        ..sv_said(s, crate::session::assistant_label(), text)
    }
}

/// The session after the result of tool `name`: a `Tool[name]: result` line, and the
/// result noted in memory.
pub open spec fn sv_tool(s: SessionView, name: Seq<u8>, result: Seq<u8>) -> SessionView {
    let b = sv_start(s);
    SessionView {
        memory: crate::memory::mem_tool(s.memory, name, result),
        history: history_append(
            history_append(
                history_append(history_append(history_append(b.history, seq![84u8, 111, 111, 108, 91]), name), seq![93u8, 58, 32]),
                result,
            ),
            seq![10u8],
        ),
        ..b
    }
}

/// The session after storing `value` under `key`, unchanged when the store is refused.
pub open spec fn sv_write(s: SessionView, key: Seq<u8>, value: Seq<u8>) -> SessionView {
    match state_write(s.slots, key, value) {
        Some(n) => SessionView { slots: n, ..s },
        None => s,
    }
}

/// Everything a step of the turn logic changes.
#[verifier::ext_equal]
pub struct M4Out {
    pub turn: M4View,
    pub cd: TurnCooldown,
    pub sess: SessionView,
    pub step: M4StepView,
}

pub open spec fn out_is(o: M4Out, t: M4View, c: TurnCooldown, s: Session, st: M4StepView) -> bool {
    o.turn == t && o.cd == c && o.sess == sview(s) && o.step == st
}

pub open spec fn wrap_inc(x: u8) -> u8 {
    if x == 255 {
        0
    } else {
        (x + 1) as u8
    }
}

/// A turn with nothing in progress.
pub open spec fn idle_turn() -> M4View {
    M4View {
        phase: M4Phase::Idle,
        goal: Seq::empty(),
        tool_name: Seq::empty(),
        tool_arg1: Seq::empty(),
        tool_arg2: Seq::empty(),
        loop_step: 0,
        model_retries: 0,
        last_tool_result: Seq::empty(),
        last_fetch_url: Seq::empty(),
        last_fetch_body: Seq::empty(),
    }
}

/// The turn with its tool call, results, retries, step count and fetch cache cleared.
pub open spec fn reset_view(t: M4View) -> M4View {
    M4View {
        tool_name: Seq::empty(),
        tool_arg1: Seq::empty(),
        tool_arg2: Seq::empty(),
        last_tool_result: Seq::empty(),
        model_retries: 0,
        loop_step: 0,
        last_fetch_url: Seq::empty(),
        last_fetch_body: Seq::empty(),
        ..t
    }
}

pub open spec fn set_tool(t: M4View, tool: Seq<u8>, arg1: Seq<u8>, arg2: Seq<u8>) -> M4View {
    M4View {
        tool_name: cap_to(tool, crate::turn::M4_TOOL_NAME_MAX as int),
        tool_arg1: cap_to(arg1, crate::turn::M4_TOOL_ARG1_MAX as int),
        tool_arg2: cap_to(arg2, crate::turn::M4_TOOL_ARG2_MAX as int),
        ..t
    }
}

pub open spec fn closed(t: M4View) -> M4View {
    M4View { phase: M4Phase::Idle, ..t }
}

/// The turn ends with an error `reason`, recorded as the answer.
pub open spec fn sp_finalize_reason(t: M4View, c: TurnCooldown, s: SessionView, now: u64, reason: Seq<u8>) -> M4Out {
    M4Out {
        turn: closed(t),
        cd: TurnCooldown { user_turn_until_ms: sat_add(now, crate::turn::M4_USER_TURN_COOLDOWN_MS as int), ..c },
        sess: sv_answer(s, reason),
        step: M4StepView::Finish {
            terminal: M4Terminal::Failed,
            summary: Seq::empty(),
            reason: cap_to(reason, M4_REASON_MAX as int),
        },
    }
}

/// The turn ends with the answer `text`.
pub open spec fn sp_finalize_response(
    t: M4View,
    c: TurnCooldown,
    s: SessionView,
    now: u64,
    text: Seq<u8>,
    refused: bool,
) -> M4Out {
    M4Out {
        turn: closed(t),
        cd: TurnCooldown { user_turn_until_ms: sat_add(now, crate::turn::M4_USER_TURN_COOLDOWN_MS as int), ..c },
        sess: sv_answer(s, text),
        step: M4StepView::Finish {
            terminal: if refused {
                M4Terminal::Refused
            } else {
                M4Terminal::Completed
            },
            summary: cap_to(text, M4_SUMMARY_MAX as int),
            reason: Seq::empty(),
        },
    }
}

pub open spec fn missing_key_reason() -> Seq<u8> {
    seq![109u8, 105, 115, 115, 105, 110, 103, 32, 111, 112, 101, 110, 97, 105, 32, 107, 101, 121, 59, 32, 114, 117, 110, 32, 111, 112, 101, 110, 97, 105, 45, 107, 101, 121, 32, 60, 107, 101, 121, 62, 32, 98, 101, 102, 111, 114, 101, 32, 77, 52, 32, 105, 110, 112, 117, 116]
}

/// A model request for the turn, or the end of the turn without an API key.
pub open spec fn sp_start_model(t: M4View, c: TurnCooldown, s: SessionView, now: u64, access: M4Access) -> M4Out {
    if !access.api_key_ready {
        sp_finalize_reason(t, c, s, now, missing_key_reason())
    } else {
        M4Out {
            turn: M4View { phase: M4Phase::Model, ..t },
            cd: TurnCooldown { openai_until_ms: 0, ..c },
            sess: s,
            step: M4StepView::StartModel {
                wait_ms: sat_sub(c.openai_until_ms, now as int),
                backoff_ms: if t.model_retries == 0 {
                    0
                } else {
                    retry_backoff(t.model_retries)
                },
                body: crate::turn::m4_request_body(
                    crate::openai::spec_model_name(),
                    crate::turn::m4_prompt(t.goal, t.last_tool_result, s.slots, s.history),
                    FETCH_BODY_MAX as int,
                ),
            },
        }
    }
}

pub open spec fn summary_step(t: M4View, c: TurnCooldown, now: u64) -> M4StepView {
    M4StepView::StartSummary {
        wait_ms: sat_sub(c.openai_until_ms, now as int),
        backoff_ms: if t.model_retries == 0 {
            0
        } else {
            retry_backoff(t.model_retries)
        },
    }
}

/// A summary request for the turn.
pub open spec fn sp_start_summary(t: M4View, c: TurnCooldown, s: SessionView, now: u64) -> M4Out {
    M4Out {
        turn: M4View { phase: M4Phase::SummaryModel, ..t },
        cd: TurnCooldown { openai_until_ms: 0, ..c },
        sess: s,
        step: summary_step(t, c, now),
    }
}

pub open spec fn empty_marker() -> Seq<u8> {
    seq![40u8, 101, 109, 112, 116, 121, 41]
}

pub open spec fn stored_marker() -> Seq<u8> {
    seq![123u8, 34, 115, 116, 111, 114, 101, 100, 34, 58, 116, 114, 117, 101, 125]
}

/// The session-state tools, which complete at once; `None` for any other tool.
pub open spec fn sp_sync_tool(t: M4View, c: TurnCooldown, s: SessionView, now: u64, access: M4Access) -> Option<M4Out> {
    if tool_is(t.tool_name, seq![114u8, 101, 97, 100, 95, 115, 101, 115, 115, 105, 111, 110, 95, 115, 116, 97, 116, 101]) {
        let v = cap_to(state_read(s.slots, t.tool_arg1), crate::turn::M4_TOOL_RESULT_LIMIT as int);
        let last = if v.len() == 0 {
            empty_marker()
        } else {
            v
        };
        Some(
            sp_start_model(
                M4View { last_tool_result: last, loop_step: wrap_inc(t.loop_step), ..t },
                c,
                sv_tool(s, t.tool_name, last),
                now,
                access,
            ),
        )
    } else if tool_is(t.tool_name, seq![119u8, 114, 105, 116, 101, 95, 115, 101, 115, 115, 105, 111, 110, 95, 115, 116, 97, 116, 101]) {
        match state_write(s.slots, t.tool_arg1, t.tool_arg2) {
            None => Some(sp_finalize_reason(t, c, s, now, seq![115u8, 101, 115, 115, 105, 111, 110, 32, 115, 116, 97, 116, 101, 32, 119, 114, 105, 116, 101, 32, 102, 97, 105, 108, 101, 100])),
            Some(n) => Some(
                sp_start_model(
                    M4View { last_tool_result: stored_marker(), loop_step: wrap_inc(t.loop_step), ..t },
                    c,
                    sv_tool(SessionView { slots: n, ..s }, t.tool_name, stored_marker()),
                    now,
                    access,
                ),
            ),
        }
    } else {
        None
    }
}

/// The tools that need a transfer: what to start, or why the turn ends.
pub open spec fn sp_async_tool(t: M4View, c: TurnCooldown, s: SessionView, now: u64, access: M4Access) -> M4Out {
    let a1 = t.tool_arg1;
    let a2 = t.tool_arg2;
    if tool_is(t.tool_name, seq![102u8, 101, 116, 99, 104, 95, 117, 114, 108]) {
        if t.last_fetch_url.len() != 0 && t.last_fetch_body.len() != 0 && t.last_fetch_url == a1 {
            let last = cap_to(t.last_fetch_body, crate::turn::M4_TOOL_RESULT_LIMIT as int);
            sp_start_model(
                M4View { last_tool_result: last, loop_step: wrap_inc(t.loop_step), ..t },
                c,
                sv_tool(s, t.tool_name, last),
                now,
                access,
            )
        } else {
            M4Out { turn: M4View { phase: M4Phase::FetchUrl, ..t }, cd: c, sess: s, step: M4StepView::FetchUrl { url: a1 } }
        }
    } else if tool_is(t.tool_name, seq![112u8, 111, 115, 116, 95, 117, 114, 108]) {
        if a2.len() == 0 {
            sp_finalize_reason(t, c, s, now, seq![112u8, 111, 115, 116, 95, 117, 114, 108, 32, 98, 111, 100, 121, 32, 109, 105, 115, 115, 105, 110, 103])
        } else if a2.len() > FETCH_BODY_MAX {
            sp_finalize_reason(t, c, s, now, seq![112u8, 111, 115, 116, 95, 117, 114, 108, 32, 98, 111, 100, 121, 32, 116, 111, 111, 32, 108, 97, 114, 103, 101])
        } else {
            M4Out {
                turn: M4View { phase: M4Phase::PostUrl, ..t },
                cd: c,
                sess: s,
                step: M4StepView::PostUrl { url: a1, body: a2 },
            }
        }
    } else if tool_is(t.tool_name, seq![112u8, 111, 115, 116, 95, 116, 119, 101, 101, 116]) {
        if !access.x_secrets_ready {
            sp_finalize_reason(t, c, s, now, seq![120u8, 32, 111, 97, 117, 116, 104, 32, 115, 101, 99, 114, 101, 116, 115, 32, 109, 105, 115, 115, 105, 110, 103])
        } else {
            M4Out { turn: M4View { phase: M4Phase::PostTweet, ..t }, cd: c, sess: s, step: M4StepView::PostTweet { text: a1 } }
        }
    } else if tool_is(t.tool_name, seq![115u8, 101, 97, 114, 99, 104, 95, 114, 101, 99, 101, 110, 116, 95, 112, 111, 115, 116, 115]) {
        if !access.x_bearer_ready {
            sp_finalize_reason(t, c, s, now, seq![120u8, 32, 98, 101, 97, 114, 101, 114, 32, 116, 111, 107, 101, 110, 32, 109, 105, 115, 115, 105, 110, 103])
        } else {
            M4Out {
                turn: M4View { phase: M4Phase::SearchRecent, ..t },
                cd: c,
                sess: s,
                step: M4StepView::XGet { path: crate::turn::search_path(a1, M4_PATH_MAX as int) },
            }
        }
    } else if tool_is(t.tool_name, seq![103u8, 101, 116, 95, 117, 115, 101, 114, 95, 112, 111, 115, 116, 115]) {
        if !access.x_bearer_ready {
            sp_finalize_reason(t, c, s, now, seq![120u8, 32, 98, 101, 97, 114, 101, 114, 32, 116, 111, 107, 101, 110, 32, 109, 105, 115, 115, 105, 110, 103])
        } else {
            M4Out {
                turn: M4View { phase: M4Phase::GetUserPosts, ..t },
                cd: c,
                sess: s,
                step: M4StepView::XGet {
                    path: crate::turn::search_path(
                        crate::turn::user_posts_query(a1, M4_USER_QUERY_MAX as int),
                        M4_PATH_MAX as int,
                    ),
                },
            }
        }
    } else {
        M4Out { turn: t, cd: c, sess: s, step: M4StepView::Pending }
    }
}

/// A tool call: the session-state tools at once, the others by a transfer.
pub open spec fn sp_run_tool(t: M4View, c: TurnCooldown, s: SessionView, now: u64, access: M4Access) -> M4Out {
    match sp_sync_tool(t, c, s, now, access) {
        Some(o) => o,
        None => sp_async_tool(t, c, s, now, access),
    }
}

pub open spec fn budget_reason() -> Seq<u8> {
    seq![109u8, 52, 32, 108, 111, 111, 112, 32, 98, 117, 100, 103, 101, 116, 32, 101, 120, 99, 101, 101, 100, 101, 100]
}

/// A tool finished: on success its result is logged (and stored under `key` when given)
/// and the model is asked again, unless the step budget is spent; on failure the turn
/// ends with the result as its reason.
pub open spec fn sp_complete(
    t: M4View,
    c: TurnCooldown,
    s: SessionView,
    now: u64,
    access: M4Access,
    ok: bool,
    key: Option<Seq<u8>>,
) -> M4Out {
    if ok {
        let s1 = match key {
            Some(k) => sv_write(s, k, t.last_tool_result),
            None => s,
        };
        let s2 = sv_tool(s1, t.tool_name, t.last_tool_result);
        let t2 = M4View { loop_step: wrap_inc(t.loop_step), ..t };
        if t2.loop_step > crate::turn::M4_LOOP_MAX_STEPS {
            sp_finalize_reason(t2, c, s2, now, budget_reason())
        } else {
            sp_start_model(t2, c, s2, now, access)
        }
    } else {
        sp_finalize_reason(t, c, s, now, t.last_tool_result)
    }
}

/// The phase name used in tool failure reasons.
pub open spec fn tool_phase_name(tool: Seq<u8>) -> Seq<u8> {
    if tool_is(tool, seq![112u8, 111, 115, 116, 95, 117, 114, 108]) {
        seq![112u8, 111, 115, 116, 95, 117, 114, 108]
    } else if tool_is(tool, seq![112u8, 111, 115, 116, 95, 116, 119, 101, 101, 116]) {
        seq![112u8, 111, 115, 116, 95, 116, 119, 101, 101, 116]
    } else if tool_is(tool, seq![115u8, 101, 97, 114, 99, 104, 95, 114, 101, 99, 101, 110, 116, 95, 112, 111, 115, 116, 115]) {
        seq![115u8, 101, 97, 114, 99, 104, 95, 114, 101, 99, 101, 110, 116, 95, 112, 111, 115, 116, 115]
    } else if tool_is(tool, seq![103u8, 101, 116, 95, 117, 115, 101, 114, 95, 112, 111, 115, 116, 115]) {
        seq![103u8, 101, 116, 95, 117, 115, 101, 114, 95, 112, 111, 115, 116, 115]
    } else {
        seq![102u8, 101, 116, 99, 104, 95, 117, 114, 108]
    }
}

/// The model's reply as data: a final answer (with its refusal flag) or a tool call.
pub enum ReplyView {
    Final(Seq<u8>, bool),
    Tool(Seq<u8>, Seq<u8>, Seq<u8>),
}

pub open spec fn reply_spec(text: Seq<u8>) -> Result<ReplyView, M4ReplyError> {
    if text.len() == 0 {
        Err(M4ReplyError::EmptyModelResponse)
    } else {
        match crate::turn::m4_reply_kind(text) {
            None => {
                let f = crate::turn::final_text(text);
                if f.len() == 0 {
                    Err(M4ReplyError::MissingFinalResponse)
                } else {
                    Ok(ReplyView::Final(f, crate::turn::refusal(f)))
                }
            },
            Some(Err(e)) => Err(e),
            Some(Ok(tool)) => match crate::turn::m4_tool_reply(text, tool) {
                Ok((n, x, y)) => Ok(ReplyView::Tool(n, x, y)),
                Err(e) => Err(e),
            },
        }
    }
}

/// The output text of a model reply, read into `cap` bytes; empty when there is none.
pub open spec fn output_or_empty(cached: Seq<u8>, body: Seq<u8>, cap: int) -> Seq<u8> {
    match crate::model::spec_output_text(cached, body, cap) {
        Some(v) => v,
        None => Seq::empty(),
    }
}

/// A completed exchange with a 2xx status.
pub open spec fn http_success(ok: bool, status: u16) -> bool {
    ok && 200 <= status < 300
}

pub open spec fn mark_failure(c: TurnCooldown, now: u64) -> TurnCooldown {
    TurnCooldown {
        openai_until_ms: sat_add(now, retry_backoff((crate::turn::M4_OPENAI_MAX_RETRIES + 1) as u8) as int),
        user_turn_until_ms: crate::turn::max_u64(
            c.user_turn_until_ms,
            sat_add(now, crate::turn::M4_USER_TURN_FAILURE_COOLDOWN_MS as int),
        ),
    }
}

/// A model request failed: retried while retries are left and the failure is retryable,
/// else the turn ends with the failure described (and, when retryable, cool-downs set).
pub open spec fn sp_model_failed(
    t: M4View,
    c: TurnCooldown,
    s: SessionView,
    now: u64,
    access: M4Access,
    ev_status: u16,
    ev_transport: Seq<u8>,
    ev_truncated: bool,
    ev_body: Seq<u8>,
    summary: bool,
) -> M4Out {
    let retry = crate::model::spec_openai_failure_retryable(ev_status, ev_transport);
    if retry && t.model_retries < crate::turn::M4_OPENAI_MAX_RETRIES {
        let t1 = M4View { model_retries: (t.model_retries + 1) as u8, ..t };
        if summary {
            sp_start_summary(t1, c, s, now)
        } else {
            sp_start_model(t1, c, s, now, access)
        }
    } else {
        let c1 = if retry {
            mark_failure(c, now)
        } else {
            c
        };
        let phase = if summary {
            seq![111u8, 112, 101, 110, 97, 105, 32, 115, 117, 109, 109, 97, 114, 121]
        } else {
            seq![111u8, 112, 101, 110, 97, 105, 32, 108, 111, 111, 112]
        };
        sp_finalize_reason(
            t,
            c1,
            s,
            now,
            crate::model::failure_reason(phase, ev_status, ev_transport, ev_truncated, ev_body, M4_FAILURE_REASON_MAX as int),
        )
    }
}

/// The result a finished tool transfer leaves: the trimmed body on success, else why it
/// failed; `{"ok":true}` for an empty successful POST.
pub open spec fn tool_result_text(t: M4View, ok: bool, status: u16, transport: Seq<u8>, truncated: bool, body: Seq<u8>) -> Seq<u8> {
    let http_ok = http_success(ok, status);
    let name = tool_phase_name(t.tool_name);
    let r = if http_ok && !truncated {
        cap_to(crate::bytes::trimmed(body, body.len() as int), crate::turn::M4_TOOL_RESULT_LIMIT as int)
    } else if http_ok && truncated {
        bounded_append(bounded_append(Seq::empty(), M4_FAILURE_REASON_MAX as int, name), M4_FAILURE_REASON_MAX as int, seq![58u8, 32, 114, 101, 115, 112, 111, 110, 115, 101, 32, 98, 111, 100, 121, 32, 116, 114, 117, 110, 99, 97, 116, 101, 100])
    } else {
        crate::model::failure_reason(name, status, transport, truncated, body, M4_FAILURE_REASON_MAX as int)
    };
    if t.phase == M4Phase::PostUrl && http_ok && !truncated && r.len() == 0 {
        seq![123u8, 34, 111, 107, 34, 58, 116, 114, 117, 101, 125]
    } else {
        r
    }
}

/// The turn's reaction to the end of a transfer.
pub open spec fn sp_fetch_done(
    t: M4View,
    c: TurnCooldown,
    s: SessionView,
    now: u64,
    access: M4Access,
    ok: bool,
    status: u16,
    transport: Seq<u8>,
    truncated: bool,
    body: Seq<u8>,
    cached: Seq<u8>,
) -> M4Out {
    let http_ok = http_success(ok, status);
    if t.phase == M4Phase::Idle {
        M4Out { turn: t, cd: c, sess: s, step: M4StepView::NotHandled }
    } else if t.phase == M4Phase::Model {
        if !http_ok {
            sp_model_failed(t, c, s, now, access, status, transport, truncated, body, false)
        } else {
            match reply_spec(output_or_empty(cached, body, M4_MODEL_TEXT_MAX as int)) {
                Ok(ReplyView::Final(f, refused)) => sp_finalize_response(
                    M4View { last_tool_result: f, ..t },
                    c,
                    s,
                    now,
                    f,
                    refused,
                ),
                Ok(ReplyView::Tool(n, x, y)) => sp_run_tool(set_tool(t, n, x, y), c, s, now, access),
                Err(_) => sp_finalize_reason(t, c, s, now, seq![105u8, 110, 118, 97, 108, 105, 100, 32, 109, 111, 100, 101, 108, 32, 114, 101, 115, 112, 111, 110, 115, 101]),
            }
        }
    } else if t.phase == M4Phase::SummaryModel {
        if http_ok && truncated && cached.len() == 0 {
            sp_finalize_reason(t, c, s, now, seq![111u8, 112, 101, 110, 97, 105, 32, 115, 117, 109, 109, 97, 114, 121, 58, 32, 114, 101, 115, 112, 111, 110, 115, 101, 32, 98, 111, 100, 121, 32, 116, 114, 117, 110, 99, 97, 116, 101, 100])
        } else if !http_ok {
            sp_model_failed(t, c, s, now, access, status, transport, truncated, body, true)
        } else {
            let v = output_or_empty(cached, body, M4_SUMMARY_MAX as int);
            if v.len() == 0 {
                sp_finalize_reason(t, c, s, now, seq![105u8, 110, 118, 97, 108, 105, 100, 32, 115, 117, 109, 109, 97, 114, 121, 32, 114, 101, 115, 112, 111, 110, 115, 101])
            } else {
                sp_finalize_response(t, c, s, now, v, false)
            }
        }
    } else {
        let ok_status = http_ok && !truncated;
        let t1 = M4View { last_tool_result: tool_result_text(t, ok, status, transport, truncated, body), ..t };
        if t.phase == M4Phase::SearchRecent || t.phase == M4Phase::GetUserPosts {
            sp_complete(t1, c, s, now, access, ok_status, Some(seq![108u8, 97, 115, 116, 95, 112, 111, 115, 116, 115]))
        } else if t.phase == M4Phase::FetchUrl && ok_status {
            let preview = crate::turn::fetch_preview(t1.last_tool_result, crate::turn::M4_TOOL_RESULT_LIMIT as int);
            let t2 = M4View {
                last_fetch_url: cap_to(t.tool_arg1, M4_PATH_MAX as int),
                last_fetch_body: preview,
                last_tool_result: preview,
                ..t1
            };
            let s1 = sv_write(s, seq![108u8, 97, 115, 116, 95, 102, 101, 116, 99, 104, 95, 117, 114, 108], t.tool_arg1);
            if crate::turn::summary_request(t.goal) {
                sp_start_summary(
                    M4View { model_retries: 0, loop_step: wrap_inc(t.loop_step), ..t2 },
                    c,
                    sv_tool(s1, t.tool_name, preview),
                    now,
                )
            } else {
                sp_complete(t2, c, s1, now, access, true, None)
            }
        } else {
            sp_complete(t1, c, s, now, access, ok_status, None)
        }
    }
}

/// The request of a goal line: the text after `m4 ` and white space when the line starts
/// with `m4 `, else the whole line.
pub open spec fn goal_text(line: Seq<u8>, len: int) -> Seq<u8> {
    let start = if 3 <= len && matches_at(line, 0, seq![109u8, 52, 32]) {
        skip_spaces(line, 3, len)
    } else {
        0
    };
    if start < len {
        line.subrange(start, len)
    } else {
        line.take(len)
    }
}

/// A new turn for `goal`, started at `now` once the turn cool-down is over: the session
/// records the request, then the tool list is answered at once or the model is asked.
#[verifier::opaque]
pub open spec fn sp_begin_turn(t: M4View, c: TurnCooldown, s: SessionView, now: u64, access: M4Access, goal: Seq<u8>) -> M4Out {
    let wait = sat_sub(c.user_turn_until_ms, now as int);
    let now2 = sat_add(now, wait as int);
    let c1 = TurnCooldown { user_turn_until_ms: 0, ..c };
    let t1 = M4View {
        phase: M4Phase::Model,
        goal: cap_to(goal, M4_GOAL_MAX as int),
        ..reset_view(t)
    };
    let s1 = sv_user(sv_start(s), goal);
    if crate::turn::tool_inventory_request(goal) {
        let text = crate::turn::inventory_text(goal);
        sp_finalize_response(t1, c1, s1, now2, cap_to(text, 768), false)
    } else {
        sp_start_model(t1, c1, s1, now2, access)
    }
}

impl M4Turn {
    pub fn new() -> (r: Self)
        ensures
            r@ == idle_turn(),
    {
        M4Turn {
            phase: M4Phase::Idle,
            goal: Vec::new(),
            tool_name: Vec::new(),
            tool_arg1: Vec::new(),
            tool_arg2: Vec::new(),
            loop_step: 0,
            model_retries: 0,
            last_tool_result: Vec::new(),
            last_fetch_url: Vec::new(),
            last_fetch_body: Vec::new(),
        }
    }

    /// Forgets the tool call, results, retries, step count and fetch cache of the turn.
    pub fn m4_reset_turn_state(&mut self)
        ensures
            final(self)@ == reset_view(old(self)@),
    {
        self.tool_name = Vec::new();
        self.tool_arg1 = Vec::new();
        self.tool_arg2 = Vec::new();
        self.last_tool_result = Vec::new();
        self.model_retries = 0;
        self.loop_step = 0;
        self.last_fetch_url = Vec::new();
        self.last_fetch_body = Vec::new();
    }

    /// Records the tool call to make, each part cut to its buffer.
    pub fn set_tool_call(&mut self, tool: &[u8], arg1: &[u8], arg2: &[u8])
        ensures
            final(self)@ == set_tool(old(self)@, tool@, arg1@, arg2@),
    {
        self.tool_name = crate::bytes::copy_bytes(crate::turn::M4_TOOL_NAME_MAX, tool);
        self.tool_arg1 = crate::bytes::copy_bytes(crate::turn::M4_TOOL_ARG1_MAX, arg1);
        self.tool_arg2 = crate::bytes::copy_bytes(crate::turn::M4_TOOL_ARG2_MAX, arg2);
    }

    /// Ends the turn with an error `reason` (see `sp_finalize_reason`).
    pub fn finalize_m4_reason(&mut self, session: &mut Session, cd: &mut TurnCooldown, now: u64, reason: &[u8]) -> (r: M4Step)
        requires
            old(session).wf(),
        ensures
            final(session).wf(),
            out_is(sp_finalize_reason(old(self)@, *old(cd), sview(*old(session)), now, reason@), final(self)@, *final(cd), *final(session), r@),
    {
        let status = crate::bytes::copy_bytes(M4_REASON_MAX, reason);
        cd.m4_schedule_user_turn_cooldown(now);
        session.append_assistant_turn(reason);
        self.phase = M4Phase::Idle;
        proof {
            assert(sview(*session) =~= sv_answer(sview(*old(session)), reason@));
        }
        M4Step::Finish { terminal: M4Terminal::Failed, summary: Vec::new(), reason: status }
    }

    /// Ends the turn with the answer `response` (see `sp_finalize_response`).
    pub fn finalize_m4_response(
        &mut self,
        session: &mut Session,
        cd: &mut TurnCooldown,
        now: u64,
        response: &[u8],
        refused: bool,
    ) -> (r: M4Step)
        requires
            old(session).wf(),
        ensures
            final(session).wf(),
            out_is(sp_finalize_response(old(self)@, *old(cd), sview(*old(session)), now, response@, refused), final(self)@, *final(cd), *final(session), r@),
    {
        let summary = crate::bytes::copy_bytes(M4_SUMMARY_MAX, response);
        cd.m4_schedule_user_turn_cooldown(now);
        session.append_assistant_turn(response);
        self.phase = M4Phase::Idle;
        proof {
            assert(sview(*session) =~= sv_answer(sview(*old(session)), response@));
        }
        M4Step::Finish {
            terminal: if refused {
                M4Terminal::Refused
            } else {
                M4Terminal::Completed
            },
            summary,
            reason: Vec::new(),
        }
    }

    /// Asks the model for the next step of the turn (see `sp_start_model`).
    pub fn start_m4_model_turn(&mut self, session: &mut Session, cd: &mut TurnCooldown, now: u64, access: M4Access) -> (r: M4Step)
        requires
            old(session).wf(),
        ensures
            final(session).wf(),
            out_is(sp_start_model(old(self)@, *old(cd), sview(*old(session)), now, access), final(self)@, *final(cd), *final(session), r@),
    {
        if !access.api_key_ready {
            let reason: &[u8] = &[109u8, 105, 115, 115, 105, 110, 103, 32, 111, 112, 101, 110, 97, 105, 32, 107, 101, 121, 59, 32, 114, 117, 110, 32, 111, 112, 101, 110, 97, 105, 45, 107, 101, 121, 32, 60, 107, 101, 121, 62, 32, 98, 101, 102, 111, 114, 101, 32, 77, 52, 32, 105, 110, 112, 117, 116];
            assert(reason@ =~= missing_key_reason());
            return self.finalize_m4_reason(session, cd, now, reason);
        }
        let (wait_ms, backoff_ms) = cd.m4_prepare_openai_attempt(self.model_retries, now);
        let body = crate::turn::build_m4_openai_request_body(
            self.goal.as_slice(),
            self.last_tool_result.as_slice(),
            session,
            FETCH_BODY_MAX,
        );
        self.phase = M4Phase::Model;
        M4Step::StartModel { wait_ms, backoff_ms, body }
    }

    /// Asks the model for a summary of the fetched page (see `sp_start_summary`).
    pub fn start_m4_summary_model_turn(&mut self, cd: &mut TurnCooldown, now: u64) -> (r: M4Step)
        ensures
            final(self)@ == (M4View { phase: M4Phase::SummaryModel, ..old(self)@ }),
            *final(cd) == (TurnCooldown { openai_until_ms: 0, ..*old(cd) }),
            r@ == summary_step(old(self)@, *old(cd), now),
    {
        let (wait_ms, backoff_ms) = cd.m4_prepare_openai_attempt(self.model_retries, now);
        self.phase = M4Phase::SummaryModel;
        M4Step::StartSummary { wait_ms, backoff_ms }
    }
}

fn dup(v: &[u8]) -> (r: Vec<u8>)
    ensures
        r@ == v@,
{
    let mut r: Vec<u8> = Vec::new();
    crate::bytes::append_all(&mut r, v);
    r
}

fn tool_phase_name_local(tool: &[u8]) -> (r: &'static [u8])
    ensures
        r@ == tool_phase_name(tool@),
{
    let a: &'static [u8] = &[112u8, 111, 115, 116, 95, 117, 114, 108];
    let b: &'static [u8] = &[112u8, 111, 115, 116, 95, 116, 119, 101, 101, 116];
    let c: &'static [u8] = &[115u8, 101, 97, 114, 99, 104, 95, 114, 101, 99, 101, 110, 116, 95, 112, 111, 115, 116, 115];
    let d: &'static [u8] = &[103u8, 101, 116, 95, 117, 115, 101, 114, 95, 112, 111, 115, 116, 115];
    let e: &'static [u8] = &[102u8, 101, 116, 99, 104, 95, 117, 114, 108];
    assert(a@ =~= seq![112u8, 111, 115, 116, 95, 117, 114, 108]);
    assert(b@ =~= seq![112u8, 111, 115, 116, 95, 116, 119, 101, 101, 116]);
    assert(c@ =~= seq![115u8, 101, 97, 114, 99, 104, 95, 114, 101, 99, 101, 110, 116, 95, 112, 111, 115, 116, 115]);
    assert(d@ =~= seq![103u8, 101, 116, 95, 117, 115, 101, 114, 95, 112, 111, 115, 116, 115]);
    assert(e@ =~= seq![102u8, 101, 116, 99, 104, 95, 117, 114, 108]);
    if crate::bytes::starts_with(tool, tool.len(), a) {
        a
    } else if crate::bytes::starts_with(tool, tool.len(), b) {
        b
    } else if crate::bytes::starts_with(tool, tool.len(), c) {
        c
    } else if crate::bytes::starts_with(tool, tool.len(), d) {
        d
    } else {
        e
    }
}

pub open spec fn key_view(key: Option<&[u8]>) -> Option<Seq<u8>> {
    match key {
        Some(k) => Some(k@),
        None => None,
    }
}

impl M4Turn {
    /// Runs a session-state tool (see `sp_sync_tool`); `None`, changing nothing, for any
    /// other tool.
    pub fn execute_sync_tool(&mut self, session: &mut Session, cd: &mut TurnCooldown, now: u64, access: M4Access) -> (r: Option<M4Step>)
        requires
            old(session).wf(),
        ensures
            final(session).wf(),
            match (r, sp_sync_tool(old(self)@, *old(cd), sview(*old(session)), now, access)) {
                (Some(st), Some(o)) => out_is(o, final(self)@, *final(cd), *final(session), st@),
                (None, None) => final(self)@ == old(self)@ && *final(cd) == *old(cd) && sview(*final(session)) == sview(*old(session)),
                _ => false,
            },
    {
        let s_read: &[u8] = &[114u8, 101, 97, 100, 95, 115, 101, 115, 115, 105, 111, 110, 95, 115, 116, 97, 116, 101];
        let s_write: &[u8] = &[119u8, 114, 105, 116, 101, 95, 115, 101, 115, 115, 105, 111, 110, 95, 115, 116, 97, 116, 101];
        assert(s_read@ =~= seq![114u8, 101, 97, 100, 95, 115, 101, 115, 115, 105, 111, 110, 95, 115, 116, 97, 116, 101]);
        assert(s_write@ =~= seq![119u8, 114, 105, 116, 101, 95, 115, 101, 115, 115, 105, 111, 110, 95, 115, 116, 97, 116, 101]);
        let n = self.tool_name.len();
        if crate::bytes::starts_with(self.tool_name.as_slice(), n, s_read) {
            let v = session.read_session_state(self.tool_arg1.as_slice(), crate::turn::M4_TOOL_RESULT_LIMIT);
            assert(v@ =~= cap_to(state_read(sview(*old(session)).slots, old(self)@.tool_arg1), crate::turn::M4_TOOL_RESULT_LIMIT as int));
            let last = if v.len() == 0 {
                let e: &[u8] = &[40u8, 101, 109, 112, 116, 121, 41];
                assert(e@ =~= empty_marker());
                dup(e)
            } else {
                v
            };
            self.last_tool_result = last;
            session.append_tool_result(self.tool_name.as_slice(), self.last_tool_result.as_slice());
            self.loop_step = self.loop_step.wrapping_add(1);
            proof {
                assert(sview(*session) =~= sv_tool(sview(*old(session)), old(self)@.tool_name, self.last_tool_result@));
            }
            return Some(self.start_m4_model_turn(session, cd, now, access));
        }
        if crate::bytes::starts_with(self.tool_name.as_slice(), n, s_write) {
            if !session.write_session_state(self.tool_arg1.as_slice(), self.tool_arg2.as_slice()) {
                let reason: &[u8] = &[115u8, 101, 115, 115, 105, 111, 110, 32, 115, 116, 97, 116, 101, 32, 119, 114, 105, 116, 101, 32, 102, 97, 105, 108, 101, 100];
                assert(reason@ =~= seq![115u8, 101, 115, 115, 105, 111, 110, 32, 115, 116, 97, 116, 101, 32, 119, 114, 105, 116, 101, 32, 102, 97, 105, 108, 101, 100]);
                return Some(self.finalize_m4_reason(session, cd, now, reason));
            }
            let ghost mid = sview(*session);
            let stored: &[u8] = &[123u8, 34, 115, 116, 111, 114, 101, 100, 34, 58, 116, 114, 117, 101, 125];
            assert(stored@ =~= stored_marker());
            self.last_tool_result = dup(stored);
            session.append_tool_result(self.tool_name.as_slice(), self.last_tool_result.as_slice());
            self.loop_step = self.loop_step.wrapping_add(1);
            proof {
                assert(sview(*session) =~= sv_tool(mid, old(self)@.tool_name, stored_marker()));
            }
            return Some(self.start_m4_model_turn(session, cd, now, access));
        }
        None
    }

    /// Starts a tool that needs a transfer (see `sp_async_tool`).
    pub fn execute_async_tool(&mut self, session: &mut Session, cd: &mut TurnCooldown, now: u64, access: M4Access) -> (r: M4Step)
        requires
            old(session).wf(),
        ensures
            final(session).wf(),
            out_is(sp_async_tool(old(self)@, *old(cd), sview(*old(session)), now, access), final(self)@, *final(cd), *final(session), r@),
    {
        let s_fetch: &[u8] = &[102u8, 101, 116, 99, 104, 95, 117, 114, 108];
        let s_post: &[u8] = &[112u8, 111, 115, 116, 95, 117, 114, 108];
        let s_tweet: &[u8] = &[112u8, 111, 115, 116, 95, 116, 119, 101, 101, 116];
        let s_search: &[u8] = &[115u8, 101, 97, 114, 99, 104, 95, 114, 101, 99, 101, 110, 116, 95, 112, 111, 115, 116, 115];
        let s_user: &[u8] = &[103u8, 101, 116, 95, 117, 115, 101, 114, 95, 112, 111, 115, 116, 115];
        assert(s_fetch@ =~= seq![102u8, 101, 116, 99, 104, 95, 117, 114, 108]);
        assert(s_post@ =~= seq![112u8, 111, 115, 116, 95, 117, 114, 108]);
        assert(s_tweet@ =~= seq![112u8, 111, 115, 116, 95, 116, 119, 101, 101, 116]);
        assert(s_search@ =~= seq![115u8, 101, 97, 114, 99, 104, 95, 114, 101, 99, 101, 110, 116, 95, 112, 111, 115, 116, 115]);
        assert(s_user@ =~= seq![103u8, 101, 116, 95, 117, 115, 101, 114, 95, 112, 111, 115, 116, 115]);
        let n = self.tool_name.len();
        if crate::bytes::starts_with(self.tool_name.as_slice(), n, s_fetch) {
            if self.last_fetch_url.len() != 0 && self.last_fetch_body.len() != 0 && crate::bytes::bytes_eq(
                self.last_fetch_url.as_slice(),
                self.tool_arg1.as_slice(),
            ) {
                self.last_tool_result = crate::bytes::copy_bytes(crate::turn::M4_TOOL_RESULT_LIMIT, self.last_fetch_body.as_slice());
                session.append_tool_result(self.tool_name.as_slice(), self.last_tool_result.as_slice());
                self.loop_step = self.loop_step.wrapping_add(1);
                proof {
                    assert(sview(*session) =~= sv_tool(sview(*old(session)), old(self)@.tool_name, self.last_tool_result@));
                }
                return self.start_m4_model_turn(session, cd, now, access);
            }
            self.phase = M4Phase::FetchUrl;
            return M4Step::FetchUrl { url: dup(self.tool_arg1.as_slice()) };
        }
        if crate::bytes::starts_with(self.tool_name.as_slice(), n, s_post) {
            if self.tool_arg2.len() == 0 {
                let reason: &[u8] = &[112u8, 111, 115, 116, 95, 117, 114, 108, 32, 98, 111, 100, 121, 32, 109, 105, 115, 115, 105, 110, 103];
                assert(reason@ =~= seq![112u8, 111, 115, 116, 95, 117, 114, 108, 32, 98, 111, 100, 121, 32, 109, 105, 115, 115, 105, 110, 103]);
                return self.finalize_m4_reason(session, cd, now, reason);
            }
            if self.tool_arg2.len() > FETCH_BODY_MAX {
                let reason: &[u8] = &[112u8, 111, 115, 116, 95, 117, 114, 108, 32, 98, 111, 100, 121, 32, 116, 111, 111, 32, 108, 97, 114, 103, 101];
                assert(reason@ =~= seq![112u8, 111, 115, 116, 95, 117, 114, 108, 32, 98, 111, 100, 121, 32, 116, 111, 111, 32, 108, 97, 114, 103, 101]);
                return self.finalize_m4_reason(session, cd, now, reason);
            }
            self.phase = M4Phase::PostUrl;
            return M4Step::PostUrl { url: dup(self.tool_arg1.as_slice()), body: dup(self.tool_arg2.as_slice()) };
        }
        if crate::bytes::starts_with(self.tool_name.as_slice(), n, s_tweet) {
            if !access.x_secrets_ready {
                let reason: &[u8] = &[120u8, 32, 111, 97, 117, 116, 104, 32, 115, 101, 99, 114, 101, 116, 115, 32, 109, 105, 115, 115, 105, 110, 103];
                assert(reason@ =~= seq![120u8, 32, 111, 97, 117, 116, 104, 32, 115, 101, 99, 114, 101, 116, 115, 32, 109, 105, 115, 115, 105, 110, 103]);
                return self.finalize_m4_reason(session, cd, now, reason);
            }
            self.phase = M4Phase::PostTweet;
            return M4Step::PostTweet { text: dup(self.tool_arg1.as_slice()) };
        }
        if crate::bytes::starts_with(self.tool_name.as_slice(), n, s_search) {
            if !access.x_bearer_ready {
                let reason: &[u8] = &[120u8, 32, 98, 101, 97, 114, 101, 114, 32, 116, 111, 107, 101, 110, 32, 109, 105, 115, 115, 105, 110, 103];
                assert(reason@ =~= seq![120u8, 32, 98, 101, 97, 114, 101, 114, 32, 116, 111, 107, 101, 110, 32, 109, 105, 115, 115, 105, 110, 103]);
                return self.finalize_m4_reason(session, cd, now, reason);
            }
            self.phase = M4Phase::SearchRecent;
            return M4Step::XGet { path: crate::turn::build_search_path(self.tool_arg1.as_slice(), M4_PATH_MAX) };
        }
        if crate::bytes::starts_with(self.tool_name.as_slice(), n, s_user) {
            if !access.x_bearer_ready {
                let reason: &[u8] = &[120u8, 32, 98, 101, 97, 114, 101, 114, 32, 116, 111, 107, 101, 110, 32, 109, 105, 115, 115, 105, 110, 103];
                assert(reason@ =~= seq![120u8, 32, 98, 101, 97, 114, 101, 114, 32, 116, 111, 107, 101, 110, 32, 109, 105, 115, 115, 105, 110, 103]);
                return self.finalize_m4_reason(session, cd, now, reason);
            }
            self.phase = M4Phase::GetUserPosts;
            let query = crate::turn::build_user_posts_query(self.tool_arg1.as_slice(), M4_USER_QUERY_MAX);
            return M4Step::XGet { path: crate::turn::build_search_path(query.as_slice(), M4_PATH_MAX) };
        }
        M4Step::Pending
    }

    fn run_tool(&mut self, session: &mut Session, cd: &mut TurnCooldown, now: u64, access: M4Access) -> (r: M4Step)
        requires
            old(session).wf(),
        ensures
            final(session).wf(),
            out_is(sp_run_tool(old(self)@, *old(cd), sview(*old(session)), now, access), final(self)@, *final(cd), *final(session), r@),
    {
        match self.execute_sync_tool(session, cd, now, access) {
            Some(st) => st,
            None => self.execute_async_tool(session, cd, now, access),
        }
    }

    /// Goes on after a tool finished (see `sp_complete`).
    pub fn complete_tool_and_continue(
        &mut self,
        session: &mut Session,
        cd: &mut TurnCooldown,
        now: u64,
        access: M4Access,
        ok: bool,
        auto_store_key: Option<&[u8]>,
    ) -> (r: M4Step)
        requires
            old(session).wf(),
        ensures
            final(session).wf(),
            out_is(
                sp_complete(old(self)@, *old(cd), sview(*old(session)), now, access, ok, key_view(auto_store_key)),
                final(self)@,
                *final(cd),
                *final(session),
                r@,
            ),
    {
        if ok {
            match auto_store_key {
                Some(k) => {
                    let _ = session.write_session_state(k, self.last_tool_result.as_slice());
                },
                None => {},
            }
            let ghost mid = sview(*session);
            proof {
                assert(mid =~= (match key_view(auto_store_key) {
                    Some(k) => sv_write(sview(*old(session)), k, old(self)@.last_tool_result),
                    None => sview(*old(session)),
                }));
            }
            session.append_tool_result(self.tool_name.as_slice(), self.last_tool_result.as_slice());
            proof {
                assert(sview(*session) =~= sv_tool(mid, old(self)@.tool_name, old(self)@.last_tool_result));
            }
            self.loop_step = self.loop_step.wrapping_add(1);
            if self.loop_step > crate::turn::M4_LOOP_MAX_STEPS {
                let reason: &[u8] = &[109u8, 52, 32, 108, 111, 111, 112, 32, 98, 117, 100, 103, 101, 116, 32, 101, 120, 99, 101, 101, 100, 101, 100];
                assert(reason@ =~= budget_reason());
                return self.finalize_m4_reason(session, cd, now, reason);
            }
            return self.start_m4_model_turn(session, cd, now, access);
        }
        let reason = dup(self.last_tool_result.as_slice());
        self.finalize_m4_reason(session, cd, now, reason.as_slice())
    }

    fn model_failed(
        &mut self,
        session: &mut Session,
        cd: &mut TurnCooldown,
        now: u64,
        access: M4Access,
        ev: &FetchOutcome,
        summary: bool,
    ) -> (r: M4Step)
        requires
            old(session).wf(),
        ensures
            final(session).wf(),
            out_is(
                sp_model_failed(old(self)@, *old(cd), sview(*old(session)), now, access, ev.status, ev.transport@, ev.truncated, ev.body@, summary),
                final(self)@,
                *final(cd),
                *final(session),
                r@,
            ),
    {
        let retry = crate::model::openai_failure_retryable(ev.status, ev.transport.as_slice());
        if retry && self.model_retries < crate::turn::M4_OPENAI_MAX_RETRIES {
            self.model_retries = self.model_retries + 1;
            if summary {
                return self.start_m4_summary_model_turn(cd, now);
            }
            return self.start_m4_model_turn(session, cd, now, access);
        }
        if retry {
            cd.m4_mark_retryable_openai_failure(now);
        }
        let loop_phase: &[u8] = &[111u8, 112, 101, 110, 97, 105, 32, 108, 111, 111, 112];
        let summary_phase: &[u8] = &[111u8, 112, 101, 110, 97, 105, 32, 115, 117, 109, 109, 97, 114, 121];
        assert(loop_phase@ =~= seq![111u8, 112, 101, 110, 97, 105, 32, 108, 111, 111, 112]);
        assert(summary_phase@ =~= seq![111u8, 112, 101, 110, 97, 105, 32, 115, 117, 109, 109, 97, 114, 121]);
        let phase = if summary {
            summary_phase
        } else {
            loop_phase
        };
        let reason = crate::model::build_openai_failure_reason(
            phase,
            ev.status,
            ev.transport.as_slice(),
            ev.truncated,
            ev.body.as_slice(),
            M4_FAILURE_REASON_MAX,
        );
        self.finalize_m4_reason(session, cd, now, reason.as_slice())
    }

    fn tool_result(&self, ev: &FetchOutcome) -> (r: Vec<u8>)
        ensures
            r@ == tool_result_text(self@, ev.ok, ev.status, ev.transport@, ev.truncated, ev.body@),
    {
        let http_ok = ev.ok && 200 <= ev.status && ev.status < 300;
        let name = tool_phase_name_local(self.tool_name.as_slice());
        let r = if http_ok && !ev.truncated {
            crate::bytes::copy_trimmed_text(crate::turn::M4_TOOL_RESULT_LIMIT, ev.body.as_slice())
        } else if http_ok && ev.truncated {
            let tail: &[u8] = &[58u8, 32, 114, 101, 115, 112, 111, 110, 115, 101, 32, 98, 111, 100, 121, 32, 116, 114, 117, 110, 99, 97, 116, 101, 100];
            assert(tail@ =~= seq![58u8, 32, 114, 101, 115, 112, 111, 110, 115, 101, 32, 98, 111, 100, 121, 32, 116, 114, 117, 110, 99, 97, 116, 101, 100]);
            let mut v: Vec<u8> = Vec::new();
            crate::bytes::append_bytes(&mut v, M4_FAILURE_REASON_MAX, name);
            crate::bytes::append_bytes(&mut v, M4_FAILURE_REASON_MAX, tail);
            v
        } else {
            crate::model::build_openai_failure_reason(
                name,
                ev.status,
                ev.transport.as_slice(),
                ev.truncated,
                ev.body.as_slice(),
                M4_FAILURE_REASON_MAX,
            )
        };
        if self.phase == M4Phase::PostUrl && http_ok && !ev.truncated && r.len() == 0 {
            let okb: &[u8] = &[123u8, 34, 111, 107, 34, 58, 116, 114, 117, 101, 125];
            assert(okb@ =~= seq![123u8, 34, 111, 107, 34, 58, 116, 114, 117, 101, 125]);
            return dup(okb);
        }
        r
    }

    fn model_reply(&mut self, session: &mut Session, cd: &mut TurnCooldown, now: u64, access: M4Access, ev: &FetchOutcome) -> (r: M4Step)
        requires
            old(session).wf(),
        ensures
            final(session).wf(),
            out_is(
                match reply_spec(output_or_empty(ev.cached_output@, ev.body@, M4_MODEL_TEXT_MAX as int)) {
                    Ok(ReplyView::Final(f, refused)) => sp_finalize_response(
                        M4View { last_tool_result: f, ..old(self)@ },
                        *old(cd),
                        sview(*old(session)),
                        now,
                        f,
                        refused,
                    ),
                    Ok(ReplyView::Tool(n, x, y)) => sp_run_tool(set_tool(old(self)@, n, x, y), *old(cd), sview(*old(session)), now, access),
                    Err(_) => sp_finalize_reason(old(self)@, *old(cd), sview(*old(session)), now, seq![105u8, 110, 118, 97, 108, 105, 100, 32, 109, 111, 100, 101, 108, 32, 114, 101, 115, 112, 111, 110, 115, 101]),
                },
                final(self)@,
                *final(cd),
                *final(session),
                r@,
            ),
    {
        let text = match crate::model::extract_openai_output_text(ev.cached_output.as_slice(), ev.body.as_slice(), M4_MODEL_TEXT_MAX) {
            Some(v) => v,
            None => Vec::new(),
        };
        match crate::turn::parse_m4_model_response(text.as_slice()) {
            Ok(M4Reply::Final { text: f, refused }) => {
                let answer = dup(f.as_slice());
                self.last_tool_result = f;
                self.finalize_m4_response(session, cd, now, answer.as_slice(), refused)
            },
            Ok(M4Reply::Tool { name, arg1, arg2 }) => {
                self.set_tool_call(name.as_slice(), arg1.as_slice(), arg2.as_slice());
                self.run_tool(session, cd, now, access)
            },
            Err(_) => {
                let reason: &[u8] = &[105u8, 110, 118, 97, 108, 105, 100, 32, 109, 111, 100, 101, 108, 32, 114, 101, 115, 112, 111, 110, 115, 101];
                assert(reason@ =~= seq![105u8, 110, 118, 97, 108, 105, 100, 32, 109, 111, 100, 101, 108, 32, 114, 101, 115, 112, 111, 110, 115, 101]);
                self.finalize_m4_reason(session, cd, now, reason)
            },
        }
    }

    /// Reacts to the end of a transfer of the turn (see `sp_fetch_done`).
    pub fn handle_m4_fetch_done(
        &mut self,
        session: &mut Session,
        cd: &mut TurnCooldown,
        now: u64,
        access: M4Access,
        ev: &FetchOutcome,
    ) -> (r: M4Step)
        requires
            old(session).wf(),
        ensures
            final(session).wf(),
            out_is(
                sp_fetch_done(
                    old(self)@,
                    *old(cd),
                    sview(*old(session)),
                    now,
                    access,
                    ev.ok,
                    ev.status,
                    ev.transport@,
                    ev.truncated,
                    ev.body@,
                    ev.cached_output@,
                ),
                final(self)@,
                *final(cd),
                *final(session),
                r@,
            ),
    {
        let http_ok = ev.ok && 200 <= ev.status && ev.status < 300;
        if self.phase == M4Phase::Idle {
            return M4Step::NotHandled;
        }
        if self.phase == M4Phase::Model {
            if !http_ok {
                return self.model_failed(session, cd, now, access, ev, false);
            }
            return self.model_reply(session, cd, now, access, ev);
        }
        if self.phase == M4Phase::SummaryModel {
            if http_ok && ev.truncated && ev.cached_output.len() == 0 {
                let reason: &[u8] = &[111u8, 112, 101, 110, 97, 105, 32, 115, 117, 109, 109, 97, 114, 121, 58, 32, 114, 101, 115, 112, 111, 110, 115, 101, 32, 98, 111, 100, 121, 32, 116, 114, 117, 110, 99, 97, 116, 101, 100];
                assert(reason@ =~= seq![111u8, 112, 101, 110, 97, 105, 32, 115, 117, 109, 109, 97, 114, 121, 58, 32, 114, 101, 115, 112, 111, 110, 115, 101, 32, 98, 111, 100, 121, 32, 116, 114, 117, 110, 99, 97, 116, 101, 100]);
                return self.finalize_m4_reason(session, cd, now, reason);
            }
            if !http_ok {
                return self.model_failed(session, cd, now, access, ev, true);
            }
            let v = match crate::model::extract_openai_output_text(ev.cached_output.as_slice(), ev.body.as_slice(), M4_SUMMARY_MAX) {
                Some(v) => v,
                None => Vec::new(),
            };
            if v.len() == 0 {
                let reason: &[u8] = &[105u8, 110, 118, 97, 108, 105, 100, 32, 115, 117, 109, 109, 97, 114, 121, 32, 114, 101, 115, 112, 111, 110, 115, 101];
                assert(reason@ =~= seq![105u8, 110, 118, 97, 108, 105, 100, 32, 115, 117, 109, 109, 97, 114, 121, 32, 114, 101, 115, 112, 111, 110, 115, 101]);
                return self.finalize_m4_reason(session, cd, now, reason);
            }
            return self.finalize_m4_response(session, cd, now, v.as_slice(), false);
        }
        let ok_status = http_ok && !ev.truncated;
        self.last_tool_result = self.tool_result(ev);
        if self.phase == M4Phase::SearchRecent || self.phase == M4Phase::GetUserPosts {
            let key: &[u8] = &[108u8, 97, 115, 116, 95, 112, 111, 115, 116, 115];
            assert(key@ =~= seq![108u8, 97, 115, 116, 95, 112, 111, 115, 116, 115]);
            return self.complete_tool_and_continue(session, cd, now, access, ok_status, Some(key));
        }
        if self.phase == M4Phase::FetchUrl && ok_status {
            let preview = crate::turn::compact_fetch_preview(self.last_tool_result.as_slice(), crate::turn::M4_TOOL_RESULT_LIMIT);
            self.last_fetch_url = crate::bytes::copy_bytes(M4_PATH_MAX, self.tool_arg1.as_slice());
            self.last_fetch_body = dup(preview.as_slice());
            self.last_tool_result = preview;
            let key: &[u8] = &[108u8, 97, 115, 116, 95, 102, 101, 116, 99, 104, 95, 117, 114, 108];
            assert(key@ =~= seq![108u8, 97, 115, 116, 95, 102, 101, 116, 99, 104, 95, 117, 114, 108]);
            let _ = session.write_session_state(key, self.tool_arg1.as_slice());
            let ghost mid = sview(*session);
            proof {
                assert(mid =~= sv_write(sview(*old(session)), seq![108u8, 97, 115, 116, 95, 102, 101, 116, 99, 104, 95, 117, 114, 108], old(self)@.tool_arg1));
            }
            if crate::turn::goal_looks_like_summary_request(self.goal.as_slice()) {
                session.append_tool_result(self.tool_name.as_slice(), self.last_tool_result.as_slice());
                proof {
                    assert(sview(*session) =~= sv_tool(mid, old(self)@.tool_name, self.last_tool_result@));
                }
                self.model_retries = 0;
                self.loop_step = self.loop_step.wrapping_add(1);
                return self.start_m4_summary_model_turn(cd, now);
            }
            return self.complete_tool_and_continue(session, cd, now, access, true, None);
        }
        self.complete_tool_and_continue(session, cd, now, access, ok_status, None)
    }

    /// A line typed at the prompt: a new turn when it is a session request and nothing else
    /// runs (see `sp_begin_turn`). Also returns how long to wait first for the turn
    /// cool-down.
    #[verifier::spinoff_prover]
    #[verifier::rlimit(40)]
    pub fn handle_m4_goal_line(
        &mut self,
        session: &mut Session,
        cd: &mut TurnCooldown,
        now: u64,
        access: M4Access,
        line: &[u8],
        len: usize,
        busy: bool,
    ) -> (r: (u64, M4Step))
        requires
            old(session).wf(),
            len <= line.len(),
        ensures
            final(session).wf(),
            !(len != 0 && !(5 <= len && matches_at(line@, 0, seq![103u8, 111, 97, 108, 32])) && !(3 <= len && matches_at(line@, 0, seq![109u8, 51, 32]))) ==> r.1@ == M4StepView::NotHandled && final(self)@ == old(self)@ && *final(cd) == *old(cd) && sview(*final(session)) == sview(*old(session)),
            (len != 0 && !(5 <= len && matches_at(line@, 0, seq![103u8, 111, 97, 108, 32])) && !(3 <= len && matches_at(line@, 0, seq![109u8, 51, 32]))) && busy ==> r.1@ == M4StepView::Busy && final(self)@ == old(self)@ && *final(cd) == *old(cd) && sview(*final(session)) == sview(*old(session)),
            (len != 0 && !(5 <= len && matches_at(line@, 0, seq![103u8, 111, 97, 108, 32])) && !(3 <= len && matches_at(line@, 0, seq![109u8, 51, 32]))) && !busy ==> r.0 == sat_sub(old(cd).user_turn_until_ms, now as int) && out_is(
                sp_begin_turn(old(self)@, *old(cd), sview(*old(session)), now, access, goal_text(line@, len as int)),
                final(self)@,
                *final(cd),
                *final(session),
                r.1@,
            ),
    {
        if !crate::turn::is_m4_candidate(line, len) {
            return (0, M4Step::NotHandled);
        }
        if busy {
            return (0, M4Step::Busy);
        }
        let m4p: &[u8] = &[109u8, 52, 32];
        assert(m4p@ =~= seq![109u8, 52, 32]);
        let mut start = 0usize;
        if crate::bytes::starts_with(line, len, m4p) {
            start = crate::json::skip_space_from(line, len, 3);
        }
        let goal = if start < len {
            dup(vstd::slice::slice_subrange(line, start, len))
        } else {
            dup(vstd::slice::slice_subrange(line, 0, len))
        };
        assert(goal@ =~= goal_text(line@, len as int));
        self.begin_turn(session, cd, now, access, goal.as_slice())
    }

    /// Starts a turn for `goal` (see `sp_begin_turn`); also returns how long to wait first.
    pub fn begin_turn(&mut self, session: &mut Session, cd: &mut TurnCooldown, now: u64, access: M4Access, goal: &[u8]) -> (r: (u64, M4Step))
        requires
            old(session).wf(),
        ensures
            final(session).wf(),
            r.0 == sat_sub(old(cd).user_turn_until_ms, now as int),
            out_is(
                sp_begin_turn(old(self)@, *old(cd), sview(*old(session)), now, access, goal@),
                final(self)@,
                *final(cd),
                *final(session),
                r.1@,
            ),
    {
        reveal(sp_begin_turn);
        let wait = cd.m4_apply_user_turn_cooldown(now);
        let now2 = now.saturating_add(wait);
        session.ensure_session_started();
        self.m4_reset_turn_state();
        self.phase = M4Phase::Model;
        self.goal = crate::bytes::copy_bytes(M4_GOAL_MAX, goal);
        let ghost started = sview(*session);
        session.append_user_turn(goal);
        proof {
            assert(started =~= sv_start(sview(*old(session))));
            assert(sview(*session) =~= sv_user(sv_start(sview(*old(session))), goal@));
        }
        match crate::turn::try_handle_local_meta_request(goal) {
            Some(resp) => (wait, self.finalize_m4_response(session, cd, now2, resp.as_slice(), false)),
            None => (wait, self.start_m4_model_turn(session, cd, now2, access)),
        }
    }
}

// ---------------------------------------------------------------------------
// Laws of a session turn
// ---------------------------------------------------------------------------

/// What every step keeps: retries within bound, and a finished turn idle with the user
/// cool-down counted from `now`.
pub open spec fn settled(o: M4Out, now: u64) -> bool {
    &&& o.turn.model_retries <= crate::turn::M4_OPENAI_MAX_RETRIES
    &&& o.step is Finish ==> o.turn.phase == M4Phase::Idle && o.cd.user_turn_until_ms == sat_add(
        now,
        crate::turn::M4_USER_TURN_COOLDOWN_MS as int,
    )
}

proof fn lemma_start_model_settled(t: M4View, c: TurnCooldown, s: SessionView, now: u64, access: M4Access)
    requires
        t.model_retries <= crate::turn::M4_OPENAI_MAX_RETRIES,
    ensures
        settled(sp_start_model(t, c, s, now, access), now),
{
}

proof fn lemma_sync_settled(t: M4View, c: TurnCooldown, s: SessionView, now: u64, access: M4Access)
    requires
        t.model_retries <= crate::turn::M4_OPENAI_MAX_RETRIES,
    ensures
        sp_sync_tool(t, c, s, now, access) matches Some(o) ==> settled(o, now),
{
    let v = cap_to(state_read(s.slots, t.tool_arg1), crate::turn::M4_TOOL_RESULT_LIMIT as int);
    let last = if v.len() == 0 {
        empty_marker()
    } else {
        v
    };
    lemma_start_model_settled(
        M4View { last_tool_result: last, loop_step: wrap_inc(t.loop_step), ..t },
        c,
        sv_tool(s, t.tool_name, last),
        now,
        access,
    );
    if let Some(n) = state_write(s.slots, t.tool_arg1, t.tool_arg2) {
        lemma_start_model_settled(
            M4View { last_tool_result: stored_marker(), loop_step: wrap_inc(t.loop_step), ..t },
            c,
            sv_tool(SessionView { slots: n, ..s }, t.tool_name, stored_marker()),
            now,
            access,
        );
    }
}

proof fn lemma_async_settled(t: M4View, c: TurnCooldown, s: SessionView, now: u64, access: M4Access)
    requires
        t.model_retries <= crate::turn::M4_OPENAI_MAX_RETRIES,
    ensures
        settled(sp_async_tool(t, c, s, now, access), now),
{
    let last = cap_to(t.last_fetch_body, crate::turn::M4_TOOL_RESULT_LIMIT as int);
    lemma_start_model_settled(
        M4View { last_tool_result: last, loop_step: wrap_inc(t.loop_step), ..t },
        c,
        sv_tool(s, t.tool_name, last),
        now,
        access,
    );
}

proof fn lemma_complete_settled(t: M4View, c: TurnCooldown, s: SessionView, now: u64, access: M4Access, ok: bool, key: Option<Seq<u8>>)
    requires
        t.model_retries <= crate::turn::M4_OPENAI_MAX_RETRIES,
    ensures
        settled(sp_complete(t, c, s, now, access, ok, key), now),
{
    let s1 = match key {
        Some(k) => sv_write(s, k, t.last_tool_result),
        None => s,
    };
    let s2 = sv_tool(s1, t.tool_name, t.last_tool_result);
    let t2 = M4View { loop_step: wrap_inc(t.loop_step), ..t };
    lemma_start_model_settled(t2, c, s2, now, access);
}

proof fn lemma_model_failed_settled(
    t: M4View,
    c: TurnCooldown,
    s: SessionView,
    now: u64,
    access: M4Access,
    status: u16,
    transport: Seq<u8>,
    truncated: bool,
    body: Seq<u8>,
    summary: bool,
)
    requires
        t.model_retries <= crate::turn::M4_OPENAI_MAX_RETRIES,
    ensures
        settled(sp_model_failed(t, c, s, now, access, status, transport, truncated, body, summary), now),
{
    if t.model_retries < crate::turn::M4_OPENAI_MAX_RETRIES {
        lemma_start_model_settled(M4View { model_retries: (t.model_retries + 1) as u8, ..t }, c, s, now, access);
    }
}

proof fn lemma_fetch_done_settled(
    t: M4View,
    c: TurnCooldown,
    s: SessionView,
    now: u64,
    access: M4Access,
    ok: bool,
    status: u16,
    transport: Seq<u8>,
    truncated: bool,
    body: Seq<u8>,
    cached: Seq<u8>,
)
    requires
        t.model_retries <= crate::turn::M4_OPENAI_MAX_RETRIES,
    ensures
        settled(sp_fetch_done(t, c, s, now, access, ok, status, transport, truncated, body, cached), now),
{
    let http_ok = http_success(ok, status);
    if t.phase == M4Phase::Model {
        if !http_ok {
            lemma_model_failed_settled(t, c, s, now, access, status, transport, truncated, body, false);
        } else {
            match reply_spec(output_or_empty(cached, body, M4_MODEL_TEXT_MAX as int)) {
                Ok(ReplyView::Tool(n, x, y)) => {
                    lemma_sync_settled(set_tool(t, n, x, y), c, s, now, access);
                    lemma_async_settled(set_tool(t, n, x, y), c, s, now, access);
                },
                _ => {},
            }
        }
    } else if t.phase == M4Phase::SummaryModel {
        lemma_model_failed_settled(t, c, s, now, access, status, transport, truncated, body, true);
    } else if t.phase != M4Phase::Idle {
        let t1 = M4View { last_tool_result: tool_result_text(t, ok, status, transport, truncated, body), ..t };
        let ok_status = http_ok && !truncated;
        lemma_complete_settled(t1, c, s, now, access, ok_status, Some(seq![108u8, 97, 115, 116, 95, 112, 111, 115, 116, 115]));
        lemma_complete_settled(t1, c, s, now, access, ok_status, None);
        let preview = crate::turn::fetch_preview(t1.last_tool_result, crate::turn::M4_TOOL_RESULT_LIMIT as int);
        let t2 = M4View {
            last_fetch_url: cap_to(t.tool_arg1, M4_PATH_MAX as int),
            last_fetch_body: preview,
            last_tool_result: preview,
            ..t1
        };
        lemma_complete_settled(t2, c, sv_write(s, seq![108u8, 97, 115, 116, 95, 102, 101, 116, 99, 104, 95, 117, 114, 108], t.tool_arg1), now, access, true, None);
    }
}

/// The reason a transfer of the turn that could not start ends it with, by the step it
/// was for, when none was recorded.
pub open spec fn start_fallback(phase: M4Phase) -> Seq<u8> {
    match phase {
        M4Phase::Model => seq![111u8, 112, 101, 110, 97, 105, 32, 108, 111, 111, 112, 32, 114, 101, 113, 117, 101, 115, 116, 32, 102, 97, 105, 108, 101, 100],
        M4Phase::SummaryModel => seq![111u8, 112, 101, 110, 97, 105, 32, 115, 117, 109, 109, 97, 114, 121, 32, 114, 101, 113, 117, 101, 115, 116, 32, 102, 97, 105, 108, 101, 100],
        M4Phase::FetchUrl => seq![102u8, 101, 116, 99, 104, 95, 117, 114, 108, 32, 115, 116, 97, 114, 116, 32, 102, 97, 105, 108, 101, 100],
        M4Phase::PostUrl => seq![112u8, 111, 115, 116, 95, 117, 114, 108, 32, 115, 116, 97, 114, 116, 32, 102, 97, 105, 108, 101, 100],
        M4Phase::PostTweet => seq![112u8, 111, 115, 116, 95, 116, 119, 101, 101, 116, 32, 115, 116, 97, 114, 116, 32, 102, 97, 105, 108, 101, 100],
        M4Phase::SearchRecent => seq![115u8, 101, 97, 114, 99, 104, 95, 114, 101, 99, 101, 110, 116, 95, 112, 111, 115, 116, 115, 32, 115, 116, 97, 114, 116, 32, 102, 97, 105, 108, 101, 100],
        M4Phase::GetUserPosts => seq![103u8, 101, 116, 95, 117, 115, 101, 114, 95, 112, 111, 115, 116, 115, 32, 115, 116, 97, 114, 116, 32, 102, 97, 105, 108, 101, 100],
        M4Phase::Idle => Seq::empty(),
    }
}

/// A transfer the turn asked for could not start: the turn ends with the recorded reason
/// `transport`, or the step's fallback when none was recorded.
pub open spec fn sp_start_failure(t: M4View, c: TurnCooldown, s: SessionView, now: u64, transport: Seq<u8>) -> M4Out {
    if t.phase == M4Phase::Idle {
        M4Out { turn: t, cd: c, sess: s, step: M4StepView::NotHandled }
    } else {
        sp_finalize_reason(t, c, s, now, if transport.len() == 0 { start_fallback(t.phase) } else { transport })
    }
}

fn start_fallback_text(phase: M4Phase) -> (r: &'static [u8])
    ensures
        r@ == start_fallback(phase),
{
    let r: &'static [u8] = match phase {
        M4Phase::Model => &[111u8, 112, 101, 110, 97, 105, 32, 108, 111, 111, 112, 32, 114, 101, 113, 117, 101, 115, 116, 32, 102, 97, 105, 108, 101, 100],
        M4Phase::SummaryModel => &[111u8, 112, 101, 110, 97, 105, 32, 115, 117, 109, 109, 97, 114, 121, 32, 114, 101, 113, 117, 101, 115, 116, 32, 102, 97, 105, 108, 101, 100],
        M4Phase::FetchUrl => &[102u8, 101, 116, 99, 104, 95, 117, 114, 108, 32, 115, 116, 97, 114, 116, 32, 102, 97, 105, 108, 101, 100],
        M4Phase::PostUrl => &[112u8, 111, 115, 116, 95, 117, 114, 108, 32, 115, 116, 97, 114, 116, 32, 102, 97, 105, 108, 101, 100],
        M4Phase::PostTweet => &[112u8, 111, 115, 116, 95, 116, 119, 101, 101, 116, 32, 115, 116, 97, 114, 116, 32, 102, 97, 105, 108, 101, 100],
        M4Phase::SearchRecent => &[115u8, 101, 97, 114, 99, 104, 95, 114, 101, 99, 101, 110, 116, 95, 112, 111, 115, 116, 115, 32, 115, 116, 97, 114, 116, 32, 102, 97, 105, 108, 101, 100],
        M4Phase::GetUserPosts => &[103u8, 101, 116, 95, 117, 115, 101, 114, 95, 112, 111, 115, 116, 115, 32, 115, 116, 97, 114, 116, 32, 102, 97, 105, 108, 101, 100],
        M4Phase::Idle => &[],
    };
    assert(r@ =~= start_fallback(phase));
    r
}

impl M4Turn {
    /// A transfer the turn asked for could not start (see `sp_start_failure`).
    pub fn handle_m4_start_failure(&mut self, session: &mut Session, cd: &mut TurnCooldown, now: u64, transport: &[u8]) -> (r: M4Step)
        requires
            old(session).wf(),
        ensures
            final(session).wf(),
            out_is(sp_start_failure(old(self)@, *old(cd), sview(*old(session)), now, transport@), final(self)@, *final(cd), *final(session), r@),
    {
        if self.phase == M4Phase::Idle {
            return M4Step::NotHandled;
        }
        let reason: &[u8] = if transport.len() == 0 {
            start_fallback_text(self.phase)
        } else {
            transport
        };
        self.finalize_m4_reason(session, cd, now, reason)
    }
}

/// The model is retried at most `M4_OPENAI_MAX_RETRIES` times in a turn: whatever a
/// transfer brings, the retry count stays within that bound.
pub proof fn lemma_retries_bounded(
    t: M4View,
    c: TurnCooldown,
    s: SessionView,
    now: u64,
    access: M4Access,
    ok: bool,
    status: u16,
    transport: Seq<u8>,
    truncated: bool,
    body: Seq<u8>,
    cached: Seq<u8>,
)
    requires
        t.model_retries <= crate::turn::M4_OPENAI_MAX_RETRIES,
    ensures
        sp_fetch_done(t, c, s, now, access, ok, status, transport, truncated, body, cached).turn.model_retries
            <= crate::turn::M4_OPENAI_MAX_RETRIES,
{
    lemma_fetch_done_settled(t, c, s, now, access, ok, status, transport, truncated, body, cached);
}

/// Whenever a transfer ends the turn, the turn is idle afterwards and the next one waits
/// out the user cool-down counted from `now`.
pub proof fn lemma_finish_closes_turn(
    t: M4View,
    c: TurnCooldown,
    s: SessionView,
    now: u64,
    access: M4Access,
    ok: bool,
    status: u16,
    transport: Seq<u8>,
    truncated: bool,
    body: Seq<u8>,
    cached: Seq<u8>,
)
    requires
        t.model_retries <= crate::turn::M4_OPENAI_MAX_RETRIES,
    ensures
        sp_fetch_done(t, c, s, now, access, ok, status, transport, truncated, body, cached).step is Finish
            ==> sp_fetch_done(t, c, s, now, access, ok, status, transport, truncated, body, cached).turn.phase
            == M4Phase::Idle && sp_fetch_done(t, c, s, now, access, ok, status, transport, truncated, body, cached).cd.user_turn_until_ms
            == sat_add(now, crate::turn::M4_USER_TURN_COOLDOWN_MS as int),
{
    lemma_fetch_done_settled(t, c, s, now, access, ok, status, transport, truncated, body, cached);
}

/// After a tool succeeds, the model is asked again only while the step count is within
/// `M4_LOOP_MAX_STEPS`; past it the turn ends.
pub proof fn lemma_step_budget(t: M4View, c: TurnCooldown, s: SessionView, now: u64, access: M4Access, key: Option<Seq<u8>>)
    ensures
        sp_complete(t, c, s, now, access, true, key).step is StartModel ==> sp_complete(t, c, s, now, access, true, key).turn.loop_step
            <= crate::turn::M4_LOOP_MAX_STEPS,
        wrap_inc(t.loop_step) > crate::turn::M4_LOOP_MAX_STEPS ==> sp_complete(t, c, s, now, access, true, key).step
            == (M4StepView::Finish {
            terminal: M4Terminal::Failed,
            summary: Seq::empty(),
            reason: cap_to(budget_reason(), M4_REASON_MAX as int),
        }),
{
}

/// A follow-up turn in a started session keeps what earlier turns stored: starting a turn
/// changes the session only by adding to its history.
pub proof fn lemma_followup_keeps_state(
    t: M4View,
    c: TurnCooldown,
    s: SessionView,
    now: u64,
    access: M4Access,
    goal: Seq<u8>,
)
    requires
        s.started,
    ensures
        sp_begin_turn(t, c, s, now, access, goal).sess.started,
        sp_begin_turn(t, c, s, now, access, goal).sess.slots == s.slots,
{
    reveal(sp_begin_turn);
}

} // verus!

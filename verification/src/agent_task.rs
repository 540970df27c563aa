use vstd::prelude::*;
use crate::bytes::bounded_append;
use crate::bytes::matches_at;
use crate::policy::PolicyDenial;
use crate::policy::denial_reason;
use crate::policy::spec_policy_check;
use crate::turn::cap_to;

verus! {

pub const AGENT_GOAL_ID_MAX: usize = 96;
pub const AGENT_GOAL_TEXT_MAX: usize = 768;
pub const AGENT_URL_BUF_MAX: usize = 256;
pub const AGENT_SUMMARY_BUF_MAX: usize = 4096;
pub const AGENT_RESULT_STATUS_MAX: usize = 16;
pub const AGENT_RESULT_REASON_MAX: usize = 128;
pub const AGENT_TASK_KIND_MAX: usize = 64;
pub const AGENT_OPENAI_MAX_RETRIES: u8 = 1;
pub const AGENT_DEFAULT_SENTENCES: usize = 3;
pub const AGENT_REQUEST_BODY_MAX: usize = 65536;
pub const AGENT_FAILURE_REASON_MAX: usize = 160;
pub const AGENT_INTERPRET_TEXT_MAX: usize = 1024;

/// Which kind of task is running.
#[derive(Clone, Copy, PartialEq, Eq, Structural)]
pub enum AgentMode {
    NoTask,
    /// A JSON `fetch_summarize_post` task.
    Summarize,
    /// A governed task: fetch, model gateway, post, under a policy.
    Governed,
    /// A goal compiled locally.
    LocalGoal,
    /// A goal read by the model.
    ModelGoal,
}

/// Which step the task waits for.
#[derive(Clone, Copy, PartialEq, Eq, Structural)]
pub enum AgentPhase {
    Idle,
    FetchSource,
    CallModel,
    PostResult,
    InterpretGoal,
}

/// How a task ended.
#[derive(Clone, Copy, PartialEq, Eq, Structural)]
pub enum AgentTerminal {
    /// Not decided yet.
    Pending,
    Completed,
    Refused,
    Failed,
}

/// The task in progress (one at a time).
pub struct AgentTask {
    pub active: bool,
    pub mode: AgentMode,
    pub phase: AgentPhase,
    pub goal_id: Vec<u8>,
    pub goal_text: Vec<u8>,
    pub source_url: Vec<u8>,
    pub sink_url: Vec<u8>,
    pub model_url: Vec<u8>,
    pub policy: crate::policy::TaskPolicy,
    pub summary: Vec<u8>,
    pub summary_sentences: usize,
    pub output_language: Vec<u8>,
    pub output_style: Vec<u8>,
    pub result_status: Vec<u8>,
    pub result_reason: Vec<u8>,
    pub terminal: AgentTerminal,
    pub interpret_retries: u8,
    pub summary_retries: u8,
}

#[verifier::ext_equal]
pub struct AgentView {
    pub active: bool,
    pub mode: AgentMode,
    pub phase: AgentPhase,
    pub goal_id: Seq<u8>,
    pub goal_text: Seq<u8>,
    pub source_url: Seq<u8>,
    pub sink_url: Seq<u8>,
    pub model_url: Seq<u8>,
    pub policy_json: Seq<u8>,
    pub max_steps: usize,
    pub summary: Seq<u8>,
    pub summary_sentences: usize,
    pub output_language: Seq<u8>,
    pub output_style: Seq<u8>,
    pub result_status: Seq<u8>,
    pub result_reason: Seq<u8>,
    pub terminal: AgentTerminal,
    pub interpret_retries: u8,
    pub summary_retries: u8,
}

impl View for AgentTask {
    type V = AgentView;

    open spec fn view(&self) -> AgentView {
        AgentView {
            active: self.active,
            mode: self.mode,
            phase: self.phase,
            goal_id: self.goal_id@,
            goal_text: self.goal_text@,
            source_url: self.source_url@,
            sink_url: self.sink_url@,
            model_url: self.model_url@,
            policy_json: self.policy.json@,
            max_steps: self.policy.max_steps,
            summary: self.summary@,
            summary_sentences: self.summary_sentences,
            output_language: self.output_language@,
            output_style: self.output_style@,
            result_status: self.result_status@,
            result_reason: self.result_reason@,
            terminal: self.terminal,
            interpret_retries: self.interpret_retries,
            summary_retries: self.summary_retries,
        }
    }
}

/// What the runtime has to do next for the task.
pub enum AgentStep {
    /// The line or event belongs to no agent goal.
    NotHandled,
    /// Show this line.
    Message(&'static [u8]),
    /// GET `url`.
    Fetch { url: Vec<u8> },
    /// POST the JSON `body` to `url`.
    Post { url: Vec<u8>, body: Vec<u8> },
    /// POST the JSON `body` to the Responses API with the API key.
    OpenAi { body: Vec<u8> },
    /// The task is over: show `print` (when not empty), emit the `event` for `step`, and
    /// go back to the prompt.
    Finish { step: u8, event: AgentTerminal, print: Vec<u8> },
}

pub enum AgentStepView {
    NotHandled,
    Message(Seq<u8>),
    Fetch { url: Seq<u8> },
    Post { url: Seq<u8>, body: Seq<u8> },
    OpenAi { body: Seq<u8> },
    Finish { step: u8, event: AgentTerminal, print: Seq<u8> },
}

impl View for AgentStep {
    type V = AgentStepView;

    open spec fn view(&self) -> AgentStepView {
        match self {
            AgentStep::NotHandled => AgentStepView::NotHandled,
            AgentStep::Message(m) => AgentStepView::Message(m@),
            AgentStep::Fetch { url } => AgentStepView::Fetch { url: url@ },
            AgentStep::Post { url, body } => AgentStepView::Post { url: url@, body: body@ },
            AgentStep::OpenAi { body } => AgentStepView::OpenAi { body: body@ },
            AgentStep::Finish { step, event, print } => AgentStepView::Finish { step: *step, event: *event, print: print@ },
        }
    }
}

#[verifier::ext_equal]
pub struct AgentOut {
    pub agent: AgentView,
    pub step: AgentStepView,
}

pub open spec fn agent_out_is(o: AgentOut, a: AgentView, st: AgentStepView) -> bool {
    o.agent == a && o.step == st
}

/// No task.
pub open spec fn reset_view() -> AgentView {
    AgentView {
        active: false,
        mode: AgentMode::NoTask,
        phase: AgentPhase::Idle,
        goal_id: Seq::empty(),
        goal_text: Seq::empty(),
        source_url: Seq::empty(),
        sink_url: Seq::empty(),
        model_url: Seq::empty(),
        policy_json: Seq::empty(),
        max_steps: 0,
        summary: Seq::empty(),
        summary_sentences: AGENT_DEFAULT_SENTENCES,
        output_language: Seq::empty(),
        output_style: Seq::empty(),
        result_status: Seq::empty(),
        result_reason: Seq::empty(),
        terminal: AgentTerminal::Pending,
        interpret_retries: 0,
        summary_retries: 0,
    }
}

pub open spec fn sp_set_result(a: AgentView, status: Seq<u8>, reason: Seq<u8>) -> AgentView {
    AgentView {
        result_status: cap_to(status, AGENT_RESULT_STATUS_MAX as int),
        result_reason: cap_to(reason, AGENT_RESULT_REASON_MAX as int),
        ..a
    }
}

pub open spec fn ok_word() -> Seq<u8> {
    seq![111u8, 107]
}

pub open spec fn error_word() -> Seq<u8> {
    seq![101u8, 114, 114, 111, 114]
}

pub open spec fn refused_word() -> Seq<u8> {
    seq![114u8, 101, 102, 117, 115, 101, 100]
}

/// What a finished task shows: its summary when it completed, else `reason: ` and its
/// reason.
pub open spec fn finish_print(a: AgentView, kind: AgentTerminal) -> Seq<u8> {
    if kind == AgentTerminal::Completed && a.summary.len() > 0 {
        a.summary
    } else if kind != AgentTerminal::Completed && a.result_reason.len() > 0 {
        seq![114u8, 101, 97, 115, 111, 110, 58, 32] + a.result_reason
    } else {
        Seq::empty()
    }
}

pub open spec fn event_of(t: AgentTerminal) -> AgentTerminal {
    match t {
        AgentTerminal::Completed => AgentTerminal::Completed,
        AgentTerminal::Refused => AgentTerminal::Refused,
        _ => AgentTerminal::Failed,
    }
}

pub open spec fn sp_finish_local(a: AgentView, step: u8, kind: AgentTerminal) -> AgentOut {
    AgentOut { agent: reset_view(), step: AgentStepView::Finish { step, event: kind, print: finish_print(a, kind) } }
}

pub open spec fn sp_finish_now(a: AgentView, step: u8) -> AgentOut {
    AgentOut { agent: reset_view(), step: AgentStepView::Finish { step, event: event_of(a.terminal), print: Seq::empty() } }
}

pub open spec fn sp_fail(a: AgentView) -> AgentOut {
    AgentOut { agent: reset_view(), step: AgentStepView::Finish { step: 3, event: AgentTerminal::Failed, print: Seq::empty() } }
}

/// A policy check: on refusal the summary is dropped and the result set to `refused`
/// with the reason.
pub open spec fn sp_gate(a: AgentView, skill: Seq<u8>, step: u8, target: Option<Seq<u8>>) -> (AgentView, bool) {
    match spec_policy_check(a.policy_json, a.max_steps as int, skill, step as int, target) {
        Ok(()) => (a, true),
        Err(d) => (sp_set_result(AgentView { summary: Seq::empty(), ..a }, refused_word(), denial_reason(d)), false),
    }
}

/// The task ends with `kind`: its result goes to the sink when it has one (a governed
/// task checks the policy first), else it finishes here.
pub open spec fn sp_terminal_post(a: AgentView, kind: AgentTerminal) -> AgentOut {
    let a1 = AgentView { terminal: kind, ..a };
    if a1.sink_url.len() == 0 {
        sp_finish_local(a1, 3, kind)
    } else if a1.mode == AgentMode::Governed && !sp_gate(a1, seq![112u8, 111, 115, 116, 95, 114, 101, 115, 117, 108, 116], 3, Some(a1.sink_url)).1 {
        sp_finish_now(sp_gate(a1, seq![112u8, 111, 115, 116, 95, 114, 101, 115, 117, 108, 116], 3, Some(a1.sink_url)).0, 3)
    } else {
        AgentOut {
            agent: AgentView { phase: AgentPhase::PostResult, ..a1 },
            step: AgentStepView::Post {
                url: a1.sink_url,
                body: crate::model::result_body(a1.goal_id, a1.result_status, a1.summary, a1.result_reason, AGENT_REQUEST_BODY_MAX as int),
            },
        }
    }
}

fn dup(v: &[u8]) -> (r: Vec<u8>)
    ensures
        r@ == v@,
{
    let mut r: Vec<u8> = Vec::new();
    crate::bytes::append_all(&mut r, v);
    r
}

impl AgentTask {
    /// No task.
    pub fn new() -> (r: Self)
        ensures
            r@ == reset_view(),
    {
        AgentTask {
            active: false,
            mode: AgentMode::NoTask,
            phase: AgentPhase::Idle,
            goal_id: Vec::new(),
            goal_text: Vec::new(),
            source_url: Vec::new(),
            sink_url: Vec::new(),
            model_url: Vec::new(),
            policy: crate::policy::TaskPolicy::new(),
            summary: Vec::new(),
            summary_sentences: AGENT_DEFAULT_SENTENCES,
            output_language: Vec::new(),
            output_style: Vec::new(),
            result_status: Vec::new(),
            result_reason: Vec::new(),
            terminal: AgentTerminal::Pending,
            interpret_retries: 0,
            summary_retries: 0,
        }
    }

    /// Forgets the task.
    pub fn agent_reset(&mut self)
        ensures
            final(self)@ == reset_view(),
    {
        *self = AgentTask::new();
    }

    /// Records the result status and reason, each cut to its buffer.
    pub fn agent_set_result(&mut self, status: &[u8], reason: &[u8])
        ensures
            final(self)@ == sp_set_result(old(self)@, status@, reason@),
    {
        self.result_status = crate::bytes::copy_bytes(AGENT_RESULT_STATUS_MAX, status);
        self.result_reason = crate::bytes::copy_bytes(AGENT_RESULT_REASON_MAX, reason);
    }

    fn set_ok(&mut self)
        ensures
            final(self)@ == sp_set_result(old(self)@, ok_word(), Seq::empty()),
    {
        let ok: &[u8] = &[111u8, 107];
        assert(ok@ =~= ok_word());
        self.agent_set_result(ok, &[]);
    }

    fn set_error(&mut self, reason: &[u8])
        ensures
            final(self)@ == sp_set_result(old(self)@, error_word(), reason@),
    {
        let e: &[u8] = &[101u8, 114, 114, 111, 114];
        assert(e@ =~= error_word());
        self.agent_set_result(e, reason);
    }

    /// Ends the task here (see `sp_finish_local`).
    pub fn agent_finish_local(&mut self, step: u8, terminal_kind: AgentTerminal) -> (r: AgentStep)
        ensures
            agent_out_is(sp_finish_local(old(self)@, step, terminal_kind), final(self)@, r@),
    {
        let mut print: Vec<u8> = Vec::new();
        if terminal_kind == AgentTerminal::Completed && self.summary.len() > 0 {
            print = dup(self.summary.as_slice());
        } else if terminal_kind != AgentTerminal::Completed && self.result_reason.len() > 0 {
            let head: &[u8] = &[114u8, 101, 97, 115, 111, 110, 58, 32];
            assert(head@ =~= seq![114u8, 101, 97, 115, 111, 110, 58, 32]);
            crate::bytes::append_all(&mut print, head);
            crate::bytes::append_all(&mut print, self.result_reason.as_slice());
        }
        self.agent_reset();
        AgentStep::Finish { step, event: terminal_kind, print }
    }

    /// Ends the task with the event of its recorded terminal kind, showing nothing.
    pub fn agent_finish_now(&mut self, step: u8) -> (r: AgentStep)
        ensures
            agent_out_is(sp_finish_now(old(self)@, step), final(self)@, r@),
    {
        let event = match self.terminal {
            AgentTerminal::Completed => AgentTerminal::Completed,
            AgentTerminal::Refused => AgentTerminal::Refused,
            _ => AgentTerminal::Failed,
        };
        self.agent_reset();
        AgentStep::Finish { step, event, print: Vec::new() }
    }

    /// Ends the task as failed, showing nothing.
    pub fn agent_fail(&mut self) -> (r: AgentStep)
        ensures
            agent_out_is(sp_fail(old(self)@), final(self)@, r@),
    {
        self.agent_reset();
        AgentStep::Finish { step: 3, event: AgentTerminal::Failed, print: Vec::new() }
    }

    /// Checks the policy for a skill call (see `sp_gate`).
    pub fn agent_policy_check(&mut self, skill: &[u8], step: u8, target_url: Option<&[u8]>) -> (r: bool)
        ensures
            (final(self)@, r) == sp_gate(
                old(self)@,
                skill@,
                step,
                match target_url {
                    Some(u) => Some(u@),
                    None => None,
                },
            ),
    {
        match self.policy.agent_policy_check(skill, step, target_url) {
            Ok(()) => true,
            Err(d) => {
                self.summary = Vec::new();
                let w: &[u8] = &[114u8, 101, 102, 117, 115, 101, 100];
                assert(w@ =~= refused_word());
                self.agent_set_result(w, d.reason());
                false
            },
        }
    }

    /// Ends the task with `terminal_kind` (see `sp_terminal_post`).
    pub fn agent_start_terminal_post(&mut self, terminal_kind: AgentTerminal) -> (r: AgentStep)
        ensures
            agent_out_is(sp_terminal_post(old(self)@, terminal_kind), final(self)@, r@),
    {
        self.terminal = terminal_kind;
        if self.sink_url.len() == 0 {
            return self.agent_finish_local(3, terminal_kind);
        }
        if self.mode == AgentMode::Governed {
            let sink = dup(self.sink_url.as_slice());
            let w: &[u8] = &[112u8, 111, 115, 116, 95, 114, 101, 115, 117, 108, 116];
            assert(w@ =~= seq![112u8, 111, 115, 116, 95, 114, 101, 115, 117, 108, 116]);
            if !self.agent_policy_check(w, 3, Some(sink.as_slice())) {
                return self.agent_finish_now(3);
            }
        }
        let body = crate::model::build_agent_result_body(
            self.goal_id.as_slice(),
            self.result_status.as_slice(),
            self.summary.as_slice(),
            self.result_reason.as_slice(),
            AGENT_REQUEST_BODY_MAX,
        );
        self.phase = AgentPhase::PostResult;
        AgentStep::Post { url: dup(self.sink_url.as_slice()), body }
    }
}

// ---------------------------------------------------------------------------
// Starting tasks
// ---------------------------------------------------------------------------

/// A governed task starts by fetching its source, when the policy allows it.
pub open spec fn sp_start_governed(a: AgentView) -> AgentOut {
    let a1 = sp_set_result(
        AgentView {
            mode: AgentMode::Governed,
            phase: AgentPhase::FetchSource,
            output_language: Seq::empty(),
            output_style: Seq::empty(),
            ..a
        },
        ok_word(),
        Seq::empty(),
    );
    let g = sp_gate(a1, seq![102u8, 101, 116, 99, 104, 95, 117, 114, 108], 1, Some(a1.source_url));
    if !g.1 {
        sp_terminal_post(g.0, AgentTerminal::Refused)
    } else {
        AgentOut { agent: g.0, step: AgentStepView::Fetch { url: a1.source_url } }
    }
}

/// A task summarized here starts by fetching its source, when the policy allows it.
pub open spec fn sp_start_local(a: AgentView, mode: AgentMode) -> AgentOut {
    let a1 = sp_set_result(AgentView { mode, phase: AgentPhase::FetchSource, ..a }, ok_word(), Seq::empty());
    let g = sp_gate(a1, seq![102u8, 101, 116, 99, 104, 95, 117, 114, 108], 1, Some(a1.source_url));
    if !g.1 {
        sp_finish_local(g.0, 1, AgentTerminal::Refused)
    } else {
        AgentOut { agent: g.0, step: AgentStepView::Fetch { url: a1.source_url } }
    }
}

/// A goal the model could not read ends the task, refused when unsupported or without
/// an API key, failed otherwise.
pub open spec fn sp_interp_failure(a: AgentView, reason: Seq<u8>) -> AgentOut {
    let refused = crate::goal::spec_interpretation_refused(reason);
    sp_finish_local(
        sp_set_result(a, if refused { refused_word() } else { error_word() }, reason),
        0,
        if refused {
            AgentTerminal::Refused
        } else {
            AgentTerminal::Failed
        },
    )
}

pub open spec fn missing_goal_key_reason() -> Seq<u8> {
    seq![109u8, 105, 115, 115, 105, 110, 103, 32, 111, 112, 101, 110, 97, 105, 32, 107, 101, 121, 59, 32, 114, 117, 110, 32, 111, 112, 101, 110, 97, 105, 45, 107, 101, 121, 32, 60, 107, 101, 121, 62, 32, 98, 101, 102, 111, 114, 101, 32, 71, 111, 97, 108, 32, 62, 32, 105, 110, 112, 117, 116]
}

/// Asks the model to read the goal.
pub open spec fn sp_interp_request(a: AgentView, api_key_ready: bool) -> AgentOut {
    if !api_key_ready {
        sp_interp_failure(a, missing_goal_key_reason())
    } else {
        let body = crate::model::openai_interpretation_body(
            crate::openai::spec_model_name(),
            a.goal_text,
            AGENT_REQUEST_BODY_MAX as int,
        );
        if body.len() == 0 {
            sp_interp_failure(a, seq![111u8, 112, 101, 110, 97, 105, 32, 105, 110, 116, 101, 114, 112, 114, 101, 116, 97, 116, 105, 111, 110, 32, 114, 101, 113, 117, 101, 115, 116, 32, 116, 111, 111, 32, 108, 97, 114, 103, 101])
        } else {
            AgentOut { agent: a, step: AgentStepView::OpenAi { body } }
        }
    }
}

/// A goal goes to the model: everything but the goal is forgotten first.
pub open spec fn sp_start_interp(a: AgentView, api_key_ready: bool) -> AgentOut {
    sp_interp_request(
        AgentView {
            mode: AgentMode::ModelGoal,
            phase: AgentPhase::InterpretGoal,
            source_url: Seq::empty(),
            sink_url: Seq::empty(),
            model_url: Seq::empty(),
            policy_json: Seq::empty(),
            max_steps: crate::goal::GOAL_DEFAULT_MAX_STEPS,
            summary: Seq::empty(),
            output_language: Seq::empty(),
            output_style: Seq::empty(),
            result_reason: Seq::empty(),
            interpret_retries: 0,
            summary_retries: 0,
            ..a
        },
        api_key_ready,
    )
}

impl AgentTask {
    /// Starts a governed task (see `sp_start_governed`).
    pub fn start_governed_m1_task(&mut self) -> (r: AgentStep)
        ensures
            agent_out_is(sp_start_governed(old(self)@), final(self)@, r@),
    {
        self.mode = AgentMode::Governed;
        self.phase = AgentPhase::FetchSource;
        self.output_language = Vec::new();
        self.output_style = Vec::new();
        self.set_ok();
        let source = dup(self.source_url.as_slice());
        let w: &[u8] = &[102u8, 101, 116, 99, 104, 95, 117, 114, 108];
        assert(w@ =~= seq![102u8, 101, 116, 99, 104, 95, 117, 114, 108]);
        if !self.agent_policy_check(w, 1, Some(source.as_slice())) {
            return self.agent_start_terminal_post(AgentTerminal::Refused);
        }
        AgentStep::Fetch { url: source }
    }

    /// Starts a task summarized here (see `sp_start_local`).
    pub fn start_local_summary_task_with_mode(&mut self, mode: AgentMode) -> (r: AgentStep)
        ensures
            agent_out_is(sp_start_local(old(self)@, mode), final(self)@, r@),
    {
        self.mode = mode;
        self.phase = AgentPhase::FetchSource;
        self.set_ok();
        let source = dup(self.source_url.as_slice());
        let w: &[u8] = &[102u8, 101, 116, 99, 104, 95, 117, 114, 108];
        assert(w@ =~= seq![102u8, 101, 116, 99, 104, 95, 117, 114, 108]);
        if !self.agent_policy_check(w, 1, Some(source.as_slice())) {
            return self.agent_finish_local(1, AgentTerminal::Refused);
        }
        AgentStep::Fetch { url: source }
    }

    pub fn start_local_summary_task(&mut self) -> (r: AgentStep)
        ensures
            agent_out_is(sp_start_local(old(self)@, AgentMode::LocalGoal), final(self)@, r@),
    {
        self.start_local_summary_task_with_mode(AgentMode::LocalGoal)
    }

    pub fn start_m3_local_summary_task(&mut self) -> (r: AgentStep)
        ensures
            agent_out_is(sp_start_local(old(self)@, AgentMode::ModelGoal), final(self)@, r@),
    {
        self.start_local_summary_task_with_mode(AgentMode::ModelGoal)
    }

    /// Ends a goal the model could not read (see `sp_interp_failure`).
    pub fn finish_goal_interpretation_failure(&mut self, reason: &[u8]) -> (r: AgentStep)
        ensures
            agent_out_is(sp_interp_failure(old(self)@, reason@), final(self)@, r@),
    {
        let refused = crate::goal::interpretation_failure_refused(reason);
        let status = crate::goal::failure_status(refused);
        assert(status@ == (if refused { refused_word() } else { error_word() }));
        self.agent_set_result(status, reason);
        self.agent_finish_local(
            0,
            if refused {
                AgentTerminal::Refused
            } else {
                AgentTerminal::Failed
            },
        )
    }

    /// Asks the model to read the goal (see `sp_interp_request`).
    pub fn start_openai_interpretation_request(&mut self, api_key_ready: bool) -> (r: AgentStep)
        ensures
            agent_out_is(sp_interp_request(old(self)@, api_key_ready), final(self)@, r@),
    {
        if !api_key_ready {
            let reason: &[u8] = &[109u8, 105, 115, 115, 105, 110, 103, 32, 111, 112, 101, 110, 97, 105, 32, 107, 101, 121, 59, 32, 114, 117, 110, 32, 111, 112, 101, 110, 97, 105, 45, 107, 101, 121, 32, 60, 107, 101, 121, 62, 32, 98, 101, 102, 111, 114, 101, 32, 71, 111, 97, 108, 32, 62, 32, 105, 110, 112, 117, 116];
            assert(reason@ =~= missing_goal_key_reason());
            return self.finish_goal_interpretation_failure(reason);
        }
        let body = crate::model::build_openai_interpretation_request_body(
            crate::openai::model_name(),
            self.goal_text.as_slice(),
            AGENT_REQUEST_BODY_MAX,
        );
        if body.len() == 0 {
            let reason: &[u8] = &[111u8, 112, 101, 110, 97, 105, 32, 105, 110, 116, 101, 114, 112, 114, 101, 116, 97, 116, 105, 111, 110, 32, 114, 101, 113, 117, 101, 115, 116, 32, 116, 111, 111, 32, 108, 97, 114, 103, 101];
            assert(reason@ =~= seq![111u8, 112, 101, 110, 97, 105, 32, 105, 110, 116, 101, 114, 112, 114, 101, 116, 97, 116, 105, 111, 110, 32, 114, 101, 113, 117, 101, 115, 116, 32, 116, 111, 111, 32, 108, 97, 114, 103, 101]);
            return self.finish_goal_interpretation_failure(reason);
        }
        AgentStep::OpenAi { body }
    }

    /// Hands the goal to the model (see `sp_start_interp`).
    pub fn start_goal_interpretation(&mut self, api_key_ready: bool) -> (r: AgentStep)
        ensures
            agent_out_is(sp_start_interp(old(self)@, api_key_ready), final(self)@, r@),
    {
        self.mode = AgentMode::ModelGoal;
        self.phase = AgentPhase::InterpretGoal;
        self.source_url = Vec::new();
        self.sink_url = Vec::new();
        self.model_url = Vec::new();
        self.policy.json = Vec::new();
        self.policy.max_steps = crate::goal::GOAL_DEFAULT_MAX_STEPS;
        self.summary = Vec::new();
        self.output_language = Vec::new();
        self.output_style = Vec::new();
        self.result_reason = Vec::new();
        self.interpret_retries = 0;
        self.summary_retries = 0;
        self.start_openai_interpretation_request(api_key_ready)
    }
}

// ---------------------------------------------------------------------------
// Task lines and goal lines
// ---------------------------------------------------------------------------

/// Why a JSON task line was not started.
#[derive(Clone, Copy, PartialEq, Eq, Structural)]
pub enum TaskLineError {
    Invalid,
    Unsupported,
    MissingGoalId,
    MissingSourceUrl,
    MissingSinkUrl,
    MissingModelUrl,
    TooLarge,
}

pub open spec fn task_error_message(e: TaskLineError) -> Seq<u8> {
    match e {
        TaskLineError::Invalid => seq![105u8, 110, 118, 97, 108, 105, 100, 32, 116, 97, 115, 107, 10],
        TaskLineError::Unsupported => seq![117u8, 110, 115, 117, 112, 112, 111, 114, 116, 101, 100, 32, 116, 97, 115, 107, 10],
        TaskLineError::MissingGoalId => seq![109u8, 105, 115, 115, 105, 110, 103, 32, 103, 111, 97, 108, 95, 105, 100, 10],
        TaskLineError::MissingSourceUrl => seq![109u8, 105, 115, 115, 105, 110, 103, 32, 115, 111, 117, 114, 99, 101, 95, 117, 114, 108, 10],
        TaskLineError::MissingSinkUrl => seq![109u8, 105, 115, 115, 105, 110, 103, 32, 115, 105, 110, 107, 95, 117, 114, 108, 10],
        TaskLineError::MissingModelUrl => seq![109u8, 105, 115, 115, 105, 110, 103, 32, 109, 111, 100, 101, 108, 95, 117, 114, 108, 10],
        TaskLineError::TooLarge => seq![116u8, 97, 115, 107, 32, 116, 111, 111, 32, 108, 97, 114, 103, 101, 10],
    }
}

impl TaskLineError {
    pub fn message(&self) -> (r: &'static [u8])
        ensures
            r@ == task_error_message(*self),
    {
        let r: &'static [u8] = match self {
            TaskLineError::Invalid => &[105u8, 110, 118, 97, 108, 105, 100, 32, 116, 97, 115, 107, 10],
            TaskLineError::Unsupported => &[117u8, 110, 115, 117, 112, 112, 111, 114, 116, 101, 100, 32, 116, 97, 115, 107, 10],
            TaskLineError::MissingGoalId => &[109u8, 105, 115, 115, 105, 110, 103, 32, 103, 111, 97, 108, 95, 105, 100, 10],
            TaskLineError::MissingSourceUrl => &[109u8, 105, 115, 115, 105, 110, 103, 32, 115, 111, 117, 114, 99, 101, 95, 117, 114, 108, 10],
            TaskLineError::MissingSinkUrl => &[109u8, 105, 115, 115, 105, 110, 103, 32, 115, 105, 110, 107, 95, 117, 114, 108, 10],
            TaskLineError::MissingModelUrl => &[109u8, 105, 115, 115, 105, 110, 103, 32, 109, 111, 100, 101, 108, 95, 117, 114, 108, 10],
            TaskLineError::TooLarge => &[116u8, 97, 115, 107, 32, 116, 111, 111, 32, 108, 97, 114, 103, 101, 10],
        };
        assert(r@ =~= task_error_message(*self));
        r
    }
}

pub open spec fn task_field(line: Seq<u8>, len: int, key: Seq<u8>, cap: int) -> Option<Seq<u8>> {
    match crate::json::extract_string_from(line, len, key, 0, cap) {
        Some((_, s)) => Some(s),
        None => None,
    }
}

pub open spec fn u64_or(line: Seq<u8>, len: int, key: Seq<u8>, d: u64) -> u64 {
    match crate::json::extract_u64(line, len, key) {
        Some(v) => v,
        None => d,
    }
}

/// An item count kept within 1 to 8.
pub open spec fn clamp_count(v: u64) -> usize {
    if v == 0 {
        1
    } else if v > 8 {
        8
    } else {
        v as usize
    }
}

pub open spec fn busy_message() -> Seq<u8> {
    seq![98u8, 117, 115, 121, 10]
}

/// A line starting with `{` is a JSON task: `fetch_summarize_post` (fetch, summarize
/// here, post) or `agent_task` (governed: fetch, model gateway, post, under the policy
/// the line itself holds), each with a goal id, a source and a sink.
pub open spec fn sp_task_line(a: AgentView, line: Seq<u8>, len: int, busy: bool) -> AgentOut {
    let err = |e: TaskLineError| AgentOut { agent: a, step: AgentStepView::Message(task_error_message(e)) };
    if len == 0 || line[0] != 123 {
        AgentOut { agent: a, step: AgentStepView::NotHandled }
    } else if busy {
        AgentOut { agent: a, step: AgentStepView::Message(busy_message()) }
    } else {
        match task_field(line, len, seq![107u8, 105, 110, 100], AGENT_TASK_KIND_MAX as int) {
            None => err(TaskLineError::Invalid),
            Some(kind) => {
                let m0 = kind == seq![102u8, 101, 116, 99, 104, 95, 115, 117, 109, 109, 97, 114, 105, 122, 101, 95, 112, 111, 115, 116];
                let m1 = kind == seq![97u8, 103, 101, 110, 116, 95, 116, 97, 115, 107];
                if !m0 && !m1 {
                    err(TaskLineError::Unsupported)
                } else {
                    match (
                        task_field(line, len, seq![103u8, 111, 97, 108, 95, 105, 100], AGENT_GOAL_ID_MAX as int),
                        task_field(line, len, seq![115u8, 111, 117, 114, 99, 101, 95, 117, 114, 108], AGENT_URL_BUF_MAX as int),
                        task_field(line, len, seq![115u8, 105, 110, 107, 95, 117, 114, 108], AGENT_URL_BUF_MAX as int),
                    ) {
                        (None, _, _) => err(TaskLineError::MissingGoalId),
                        (Some(_), None, _) => err(TaskLineError::MissingSourceUrl),
                        (Some(_), Some(_), None) => err(TaskLineError::MissingSinkUrl),
                        (Some(g), Some(s), Some(k)) => {
                            let a1 = AgentView {
                                active: true,
                                phase: AgentPhase::FetchSource,
                                goal_id: g,
                                source_url: s,
                                sink_url: k,
                                summary: Seq::empty(),
                                output_language: Seq::empty(),
                                output_style: Seq::empty(),
                                result_reason: Seq::empty(),
                                interpret_retries: 0,
                                summary_retries: 0,
                                ..a
                            };
                            if m0 {
                                AgentOut {
                                    agent: sp_set_result(
                                        AgentView {
                                            mode: AgentMode::Summarize,
                                            summary_sentences: clamp_count(u64_or(line, len, seq![115u8, 117, 109, 109, 97, 114, 121, 95, 115, 101, 110, 116, 101, 110, 99, 101, 115], 3)),
                                            ..a1
                                        },
                                        ok_word(),
                                        Seq::empty(),
                                    ),
                                    step: AgentStepView::Fetch { url: s },
                                }
                            } else {
                                match task_field(line, len, seq![109u8, 111, 100, 101, 108, 95, 117, 114, 108], AGENT_URL_BUF_MAX as int) {
                                    None => AgentOut {
                                        agent: reset_view(),
                                        step: AgentStepView::Message(task_error_message(TaskLineError::MissingModelUrl)),
                                    },
                                    Some(mu) => if len > crate::policy::AGENT_TASK_JSON_MAX {
                                        AgentOut {
                                            agent: reset_view(),
                                            step: AgentStepView::Message(task_error_message(TaskLineError::TooLarge)),
                                        }
                                    } else {
                                        let ms = u64_or(line, len, seq![109u8, 97, 120, 95, 115, 116, 101, 112, 115], 6);
                                        sp_start_governed(
                                            sp_set_result(
                                                AgentView {
                                                    policy_json: line.take(len),
                                                    mode: AgentMode::Governed,
                                                    model_url: mu,
                                                    max_steps: if ms == 0 {
                                                        6
                                                    } else {
                                                        ms as usize
                                                    },
                                                    summary_sentences: clamp_count(u64_or(line, len, seq![109u8, 97, 120, 95, 105, 116, 101, 109, 115], 3)),
                                                    ..a1
                                                },
                                                ok_word(),
                                                Seq::empty(),
                                            ),
                                        )
                                    },
                                }
                            }
                        },
                    }
                }
            },
        }
    }
}

pub open spec fn goal_shell_id() -> Seq<u8> {
    seq![103u8, 111, 97, 108, 45, 115, 104, 101, 108, 108]
}

/// A goal typed at the prompt: a `fetch ...` goal that compiles here runs at once
/// (governed when it posts to a sink); any other goal goes to the model.
pub open spec fn sp_goal_line(a: AgentView, line: Seq<u8>, len: int, busy: bool, api_key_ready: bool) -> AgentOut {
    if len == 0 {
        AgentOut { agent: a, step: AgentStepView::NotHandled }
    } else if busy {
        AgentOut { agent: a, step: AgentStepView::Message(busy_message()) }
    } else {
        let a1 = AgentView {
            active: true,
            mode: AgentMode::LocalGoal,
            phase: AgentPhase::Idle,
            goal_id: goal_shell_id(),
            goal_text: cap_to(line.take(len), AGENT_GOAL_TEXT_MAX as int),
            source_url: Seq::empty(),
            sink_url: Seq::empty(),
            model_url: Seq::empty(),
            policy_json: Seq::empty(),
            max_steps: 0,
            summary: Seq::empty(),
            output_language: Seq::empty(),
            output_style: Seq::empty(),
            result_reason: Seq::empty(),
            interpret_retries: 0,
            summary_retries: 0,
            ..a
        };
        if crate::goal::spec_starts_with_fetch_goal(line, len) {
            match crate::goal::spec_compile_goal(a1.goal_text) {
                Ok((s, m, k, items, post)) => {
                    let a2 = AgentView {
                        source_url: s,
                        model_url: m,
                        sink_url: k,
                        summary_sentences: items as usize,
                        max_steps: crate::goal::GOAL_DEFAULT_MAX_STEPS,
                        policy_json: if post {
                            crate::policy::default_goal_profile()
                        } else {
                            crate::policy::local_summary_profile()
                        },
                        ..a1
                    };
                    if k.len() > 0 {
                        sp_start_governed(a2)
                    } else {
                        sp_start_local(a2, AgentMode::LocalGoal)
                    }
                },
                Err(_) => sp_start_interp(a1, api_key_ready),
            }
        } else {
            sp_start_interp(a1, api_key_ready)
        }
    }
}

pub open spec fn opt_field(line: Seq<u8>, len: int, key: Seq<u8>, cap: int, v: Option<Vec<u8>>) -> bool {
    match (v, task_field(line, len, key, cap)) {
        (Some(x), Some(y)) => x@ == y,
        (None, None) => true,
        _ => false,
    }
}

pub(crate) fn field(line: &[u8], len: usize, key: &[u8], cap: usize) -> (r: Option<Vec<u8>>)
    requires
        len <= line.len(),
    ensures
        opt_field(line@, len as int, key@, cap as int, r),
{
    crate::json::json_extract_string(line, len, key, cap)
}

pub(crate) fn u64_or_local(line: &[u8], len: usize, key: &[u8], d: u64) -> (r: u64)
    requires
        len <= line.len(),
    ensures
        r == u64_or(line@, len as int, key@, d),
{
    match crate::json::json_extract_u64(line, len, key) {
        Some(v) => v,
        None => d,
    }
}

fn clamp_local(v: u64) -> (r: usize)
    ensures
        r == clamp_count(v),
{
    if v == 0 {
        1
    } else if v > 8 {
        8
    } else {
        v as usize
    }
}

impl AgentTask {
    /// A JSON task line (see `sp_task_line`).
    pub fn handle_agent_task_line(&mut self, line: &[u8], len: usize, busy: bool) -> (r: AgentStep)
        requires
            len <= line.len(),
        ensures
            agent_out_is(sp_task_line(old(self)@, line@, len as int, busy), final(self)@, r@),
    {
        if len == 0 || line[0] != 123u8 {
            return AgentStep::NotHandled;
        }
        if busy {
            let m: &'static [u8] = &[98u8, 117, 115, 121, 10];
            assert(m@ =~= busy_message());
            return AgentStep::Message(m);
        }
        let k_kind: &[u8] = &[107u8, 105, 110, 100];
        let k_goal: &[u8] = &[103u8, 111, 97, 108, 95, 105, 100];
        let k_source: &[u8] = &[115u8, 111, 117, 114, 99, 101, 95, 117, 114, 108];
        let k_sink: &[u8] = &[115u8, 105, 110, 107, 95, 117, 114, 108];
        let k_model: &[u8] = &[109u8, 111, 100, 101, 108, 95, 117, 114, 108];
        let k_sentences: &[u8] = &[115u8, 117, 109, 109, 97, 114, 121, 95, 115, 101, 110, 116, 101, 110, 99, 101, 115];
        let k_steps: &[u8] = &[109u8, 97, 120, 95, 115, 116, 101, 112, 115];
        let k_items: &[u8] = &[109u8, 97, 120, 95, 105, 116, 101, 109, 115];
        let w_m0: &[u8] = &[102u8, 101, 116, 99, 104, 95, 115, 117, 109, 109, 97, 114, 105, 122, 101, 95, 112, 111, 115, 116];
        let w_m1: &[u8] = &[97u8, 103, 101, 110, 116, 95, 116, 97, 115, 107];
        assert(k_kind@ =~= seq![107u8, 105, 110, 100]);
        assert(k_goal@ =~= seq![103u8, 111, 97, 108, 95, 105, 100]);
        assert(k_source@ =~= seq![115u8, 111, 117, 114, 99, 101, 95, 117, 114, 108]);
        assert(k_sink@ =~= seq![115u8, 105, 110, 107, 95, 117, 114, 108]);
        assert(k_model@ =~= seq![109u8, 111, 100, 101, 108, 95, 117, 114, 108]);
        assert(k_sentences@ =~= seq![115u8, 117, 109, 109, 97, 114, 121, 95, 115, 101, 110, 116, 101, 110, 99, 101, 115]);
        assert(k_steps@ =~= seq![109u8, 97, 120, 95, 115, 116, 101, 112, 115]);
        assert(k_items@ =~= seq![109u8, 97, 120, 95, 105, 116, 101, 109, 115]);
        assert(w_m0@ =~= seq![102u8, 101, 116, 99, 104, 95, 115, 117, 109, 109, 97, 114, 105, 122, 101, 95, 112, 111, 115, 116]);
        assert(w_m1@ =~= seq![97u8, 103, 101, 110, 116, 95, 116, 97, 115, 107]);
        let kind = match field(line, len, k_kind, AGENT_TASK_KIND_MAX) {
            Some(v) => v,
            None => {
                return AgentStep::Message(TaskLineError::Invalid.message());
            },
        };
        let m0 = crate::bytes::bytes_eq(kind.as_slice(), w_m0);
        let m1 = crate::bytes::bytes_eq(kind.as_slice(), w_m1);
        if !m0 && !m1 {
            return AgentStep::Message(TaskLineError::Unsupported.message());
        }
        let g = match field(line, len, k_goal, AGENT_GOAL_ID_MAX) {
            Some(v) => v,
            None => {
                return AgentStep::Message(TaskLineError::MissingGoalId.message());
            },
        };
        let s = match field(line, len, k_source, AGENT_URL_BUF_MAX) {
            Some(v) => v,
            None => {
                return AgentStep::Message(TaskLineError::MissingSourceUrl.message());
            },
        };
        let k = match field(line, len, k_sink, AGENT_URL_BUF_MAX) {
            Some(v) => v,
            None => {
                return AgentStep::Message(TaskLineError::MissingSinkUrl.message());
            },
        };
        self.active = true;
        self.phase = AgentPhase::FetchSource;
        self.goal_id = g;
        self.source_url = dup(s.as_slice());
        self.sink_url = k;
        self.summary = Vec::new();
        self.output_language = Vec::new();
        self.output_style = Vec::new();
        self.result_reason = Vec::new();
        self.interpret_retries = 0;
        self.summary_retries = 0;
        if m0 {
            let n = u64_or_local(line, len, k_sentences, 3);
            self.mode = AgentMode::Summarize;
            self.summary_sentences = clamp_local(n);
            self.set_ok();
            return AgentStep::Fetch { url: s };
        }
        let mu = match field(line, len, k_model, AGENT_URL_BUF_MAX) {
            Some(v) => v,
            None => {
                self.agent_reset();
                return AgentStep::Message(TaskLineError::MissingModelUrl.message());
            },
        };
        if !self.policy.agent_store_task_json(line, len) {
            self.agent_reset();
            return AgentStep::Message(TaskLineError::TooLarge.message());
        }
        let ms = u64_or_local(line, len, k_steps, 6);
        let items = u64_or_local(line, len, k_items, 3);
        self.mode = AgentMode::Governed;
        self.model_url = mu;
        self.policy.max_steps = if ms == 0 {
            6
        } else {
            ms as usize
        };
        self.summary_sentences = clamp_local(items);
        self.set_ok();
        self.start_governed_m1_task()
    }

    /// A goal line (see `sp_goal_line`).
    pub fn handle_goal_line(&mut self, line: &[u8], len: usize, busy: bool, api_key_ready: bool) -> (r: AgentStep)
        requires
            len <= line.len(),
        ensures
            agent_out_is(sp_goal_line(old(self)@, line@, len as int, busy, api_key_ready), final(self)@, r@),
    {
        if len == 0 {
            return AgentStep::NotHandled;
        }
        if busy {
            let m: &'static [u8] = &[98u8, 117, 115, 121, 10];
            assert(m@ =~= busy_message());
            return AgentStep::Message(m);
        }
        let id: &[u8] = &[103u8, 111, 97, 108, 45, 115, 104, 101, 108, 108];
        assert(id@ =~= goal_shell_id());
        self.active = true;
        self.mode = AgentMode::LocalGoal;
        self.phase = AgentPhase::Idle;
        self.goal_id = dup(id);
        self.goal_text = crate::bytes::copy_bytes(AGENT_GOAL_TEXT_MAX, vstd::slice::slice_subrange(line, 0, len));
        assert(line@.subrange(0, len as int) =~= line@.take(len as int));
        self.source_url = Vec::new();
        self.sink_url = Vec::new();
        self.model_url = Vec::new();
        self.policy.json = Vec::new();
        self.policy.max_steps = 0;
        self.summary = Vec::new();
        self.output_language = Vec::new();
        self.output_style = Vec::new();
        self.result_reason = Vec::new();
        self.interpret_retries = 0;
        self.summary_retries = 0;
        if crate::goal::starts_with_fetch_goal(line, len) {
            match crate::goal::compile_goal_locally(self.goal_text.as_slice()) {
                Ok(plan) => {
                    self.source_url = plan.source_url;
                    self.model_url = plan.model_url;
                    self.sink_url = plan.sink_url;
                    self.summary_sentences = plan.max_items;
                    self.policy.max_steps = crate::goal::GOAL_DEFAULT_MAX_STEPS;
                    if plan.post {
                        self.policy.agent_store_default_goal_policy();
                    } else {
                        self.policy.agent_store_local_summary_policy();
                    }
                    if self.sink_url.len() > 0 {
                        return self.start_governed_m1_task();
                    }
                    return self.start_local_summary_task();
                },
                Err(_) => {
                    return self.start_goal_interpretation(api_key_ready);
                },
            }
        }
        self.start_goal_interpretation(api_key_ready)
    }
}

// ---------------------------------------------------------------------------
// Transfers of a task
// ---------------------------------------------------------------------------

/// The task ends with `kind`: through the sink when it has one, else here at `step`.
pub open spec fn sp_ended(a: AgentView, kind: AgentTerminal, step: u8) -> AgentOut {
    if a.sink_url.len() > 0 {
        sp_terminal_post(a, kind)
    } else {
        sp_finish_local(a, step, kind)
    }
}

/// Asks the model for a summary of `source`, when the policy allows the call.
pub open spec fn sp_m3_summary(a: AgentView, source: Seq<u8>, api_key_ready: bool) -> AgentOut {
    let g = sp_gate(a, seq![99u8, 97, 108, 108, 95, 109, 111, 100, 101, 108], 2, Some(crate::openai::spec_responses_url()));
    if !g.1 {
        sp_ended(g.0, AgentTerminal::Refused, 2)
    } else {
        let body = crate::model::openai_summary_body(
            crate::openai::spec_model_name(),
            a.summary_sentences as u64,
            a.output_language,
            a.output_style,
            a.goal_text,
            source,
            AGENT_REQUEST_BODY_MAX as int,
        );
        if body.len() == 0 || !api_key_ready {
            sp_ended(sp_set_result(g.0, error_word(), seq![111u8, 112, 101, 110, 97, 105, 32, 114, 101, 113, 117, 101, 115, 116, 32, 98, 117, 105, 108, 100, 32, 102, 97, 105, 108, 101, 100]), AgentTerminal::Failed, 2)
        } else {
            AgentOut { agent: AgentView { phase: AgentPhase::CallModel, ..g.0 }, step: AgentStepView::OpenAi { body } }
        }
    }
}

pub open spec fn sp_interp_done(
    a: AgentView,
    ok: bool,
    status: u16,
    transport: Seq<u8>,
    truncated: bool,
    body: Seq<u8>,
    cached: Seq<u8>,
    api_key_ready: bool,
) -> AgentOut {
    if !crate::turn_state::http_success(ok, status) {
        if crate::model::spec_openai_failure_retryable(status, transport) && a.interpret_retries < AGENT_OPENAI_MAX_RETRIES {
            sp_interp_request(AgentView { interpret_retries: (a.interpret_retries + 1) as u8, ..a }, api_key_ready)
        } else if api_key_ready {
            sp_interp_failure(
                a,
                crate::model::failure_reason(seq![111u8, 112, 101, 110, 97, 105, 32, 105, 110, 116, 101, 114, 112, 114, 101, 116, 97, 116, 105, 111, 110], status, transport, truncated, body, AGENT_FAILURE_REASON_MAX as int),
            )
        } else {
            sp_interp_failure(a, seq![105u8, 110, 116, 101, 114, 112, 114, 101, 116, 97, 116, 105, 111, 110, 32, 114, 101, 113, 117, 101, 115, 116, 32, 102, 97, 105, 108, 101, 100])
        }
    } else if truncated {
        sp_interp_failure(a, seq![111u8, 112, 101, 110, 97, 105, 32, 105, 110, 116, 101, 114, 112, 114, 101, 116, 97, 116, 105, 111, 110, 58, 32, 114, 101, 115, 112, 111, 110, 115, 101, 32, 98, 111, 100, 121, 32, 116, 114, 117, 110, 99, 97, 116, 101, 100])
    } else {
        let t = crate::turn_state::output_or_empty(cached, body, AGENT_INTERPRET_TEXT_MAX as int);
        let response = if t.len() != 0 {
            t
        } else {
            body
        };
        match crate::goal::spec_interpretation(response) {
            Ok((post, s, k, items, lang, style)) => sp_start_local(
                AgentView {
                    source_url: s,
                    sink_url: k,
                    summary_sentences: items as usize,
                    model_url: Seq::empty(),
                    max_steps: crate::goal::GOAL_DEFAULT_MAX_STEPS,
                    output_style: style,
                    output_language: lang,
                    policy_json: if post {
                        crate::policy::m3_post_profile()
                    } else {
                        crate::policy::m3_summary_profile()
                    },
                    ..a
                },
                AgentMode::ModelGoal,
            ),
            Err(e) => sp_interp_failure(a, crate::goal::interpret_error_reason(e)),
        }
    }
}

/// A governed task's source arrived: the model gateway is asked next.
pub open spec fn sp_m1_fetched(a: AgentView, http_ok: bool, body: Seq<u8>) -> AgentOut {
    if !http_ok {
        sp_terminal_post(sp_set_result(AgentView { summary: Seq::empty(), ..a }, error_word(), seq![102u8, 101, 116, 99, 104, 32, 102, 97, 105, 108, 101, 100]), AgentTerminal::Failed)
    } else {
        let g = sp_gate(a, seq![99u8, 97, 108, 108, 95, 109, 111, 100, 101, 108], 2, Some(a.model_url));
        if !g.1 {
            sp_terminal_post(g.0, AgentTerminal::Refused)
        } else {
            let req = crate::model::model_request_body(body, a.summary_sentences as u64, AGENT_REQUEST_BODY_MAX as int);
            if req.len() == 0 {
                sp_terminal_post(sp_set_result(g.0, error_word(), seq![109u8, 111, 100, 101, 108, 32, 114, 101, 113, 117, 101, 115, 116, 32, 98, 117, 105, 108, 100, 32, 102, 97, 105, 108, 101, 100]), AgentTerminal::Failed)
            } else {
                AgentOut {
                    agent: AgentView { phase: AgentPhase::CallModel, ..g.0 },
                    step: AgentStepView::Post { url: a.model_url, body: req },
                }
            }
        }
    }
}

/// A governed task's model gateway answered: its `"summary"` is the result.
pub open spec fn sp_m1_model_done(a: AgentView, http_ok: bool, body: Seq<u8>) -> AgentOut {
    match task_field(body, body.len() as int, seq![115u8, 117, 109, 109, 97, 114, 121], AGENT_SUMMARY_BUF_MAX as int) {
        Some(s) if http_ok => sp_terminal_post(
            sp_set_result(AgentView { summary: s, ..a }, ok_word(), Seq::empty()),
            AgentTerminal::Completed,
        ),
        _ => sp_terminal_post(
            sp_set_result(AgentView { summary: Seq::empty(), ..a }, error_word(), seq![109u8, 111, 100, 101, 108, 32, 103, 97, 116, 101, 119, 97, 121, 32, 101, 114, 114, 111, 114]),
            AgentTerminal::Failed,
        ),
    }
}

/// The source of a task summarized here arrived: summarized here, or by the model for a
/// goal the model read when a key is set.
pub open spec fn sp_local_fetched(a: AgentView, ok: bool, body: Seq<u8>, api_key_ready: bool) -> AgentOut {
    if !ok {
        sp_ended(sp_set_result(a, error_word(), seq![102u8, 101, 116, 99, 104, 32, 102, 97, 105, 108, 101, 100]), AgentTerminal::Failed, 1)
    } else if a.mode == AgentMode::ModelGoal && api_key_ready {
        sp_m3_summary(a, body, api_key_ready)
    } else {
        let g = sp_gate(a, seq![115u8, 117, 109, 109, 97, 114, 105, 122, 101, 95, 116, 101, 120, 116], 2, None);
        if !g.1 {
            sp_ended(g.0, AgentTerminal::Refused, 2)
        } else {
            sp_ended(
                sp_set_result(
                    AgentView {
                        summary: crate::model::spec_summary(body, a.summary_sentences as int, AGENT_SUMMARY_BUF_MAX as int),
                        ..g.0
                    },
                    ok_word(),
                    Seq::empty(),
                ),
                AgentTerminal::Completed,
                2,
            )
        }
    }
}

/// The model's summary arrived (or failed: retried once when worth it).
pub open spec fn sp_m3_model_done(
    a: AgentView,
    ok: bool,
    status: u16,
    transport: Seq<u8>,
    truncated: bool,
    body: Seq<u8>,
    cached: Seq<u8>,
    api_key_ready: bool,
) -> AgentOut {
    let s = crate::turn_state::output_or_empty(cached, body, AGENT_SUMMARY_BUF_MAX as int);
    if !(crate::turn_state::http_success(ok, status) && s.len() != 0) {
        let a0 = AgentView { summary: Seq::empty(), ..a };
        if crate::model::spec_openai_failure_retryable(status, transport) && a.summary_retries < AGENT_OPENAI_MAX_RETRIES {
            sp_m3_summary(AgentView { summary_retries: (a.summary_retries + 1) as u8, ..a0 }, body, api_key_ready)
        } else {
            sp_ended(
                sp_set_result(
                    a0,
                    error_word(),
                    crate::model::failure_reason(seq![111u8, 112, 101, 110, 97, 105, 32, 115, 117, 109, 109, 97, 114, 121], status, transport, truncated, body, AGENT_FAILURE_REASON_MAX as int),
                ),
                AgentTerminal::Failed,
                2,
            )
        }
    } else {
        sp_ended(sp_set_result(AgentView { summary: s, ..a }, ok_word(), Seq::empty()), AgentTerminal::Completed, 2)
    }
}

/// The task's reaction to the end of a transfer.
pub open spec fn sp_agent_fetch_done(
    a: AgentView,
    ok: bool,
    status: u16,
    transport: Seq<u8>,
    truncated: bool,
    body: Seq<u8>,
    cached: Seq<u8>,
    api_key_ready: bool,
) -> AgentOut {
    let http_ok = crate::turn_state::http_success(ok, status);
    if !a.active {
        AgentOut { agent: a, step: AgentStepView::NotHandled }
    } else if a.mode == AgentMode::ModelGoal && a.phase == AgentPhase::InterpretGoal {
        sp_interp_done(a, ok, status, transport, truncated, body, cached, api_key_ready)
    } else if a.mode == AgentMode::Governed && a.phase == AgentPhase::FetchSource {
        sp_m1_fetched(a, http_ok, body)
    } else if a.mode == AgentMode::Governed && a.phase == AgentPhase::CallModel {
        sp_m1_model_done(a, http_ok, body)
    } else if a.mode == AgentMode::Governed && a.phase == AgentPhase::PostResult {
        sp_finish_now(a, 3)
    } else if a.phase == AgentPhase::FetchSource {
        sp_local_fetched(a, ok, body, api_key_ready)
    } else if a.mode == AgentMode::ModelGoal && a.phase == AgentPhase::CallModel {
        sp_m3_model_done(a, ok, status, transport, truncated, body, cached, api_key_ready)
    } else if a.phase == AgentPhase::PostResult {
        AgentOut {
            agent: reset_view(),
            step: AgentStepView::Finish {
                step: 3,
                event: if a.terminal != AgentTerminal::Pending {
                    event_of(a.terminal)
                } else if ok {
                    AgentTerminal::Completed
                } else {
                    AgentTerminal::Failed
                },
                print: Seq::empty(),
            },
        }
    } else {
        AgentOut { agent: a, step: AgentStepView::NotHandled }
    }
}

/// `reason`, or `fallback` when it is empty.
pub open spec fn reason_or(reason: Seq<u8>, fallback: Seq<u8>) -> Seq<u8> {
    if reason.len() == 0 {
        fallback
    } else {
        reason
    }
}

/// A transfer the task asked for could not start; `transport` is the recorded reason.
pub open spec fn sp_start_failed(a: AgentView, transport: Seq<u8>) -> AgentOut {
    if !a.active {
        AgentOut { agent: a, step: AgentStepView::NotHandled }
    } else if a.phase == AgentPhase::FetchSource {
        let r = reason_or(transport, seq![102u8, 101, 116, 99, 104, 32, 115, 116, 97, 114, 116, 32, 102, 97, 105, 108, 101, 100]);
        if a.mode == AgentMode::Summarize {
            sp_fail(sp_set_result(a, error_word(), r))
        } else if a.mode == AgentMode::Governed {
            sp_terminal_post(sp_set_result(AgentView { summary: Seq::empty(), ..a }, error_word(), r), AgentTerminal::Failed)
        } else {
            sp_finish_local(sp_set_result(AgentView { summary: Seq::empty(), ..a }, error_word(), r), 1, AgentTerminal::Failed)
        }
    } else if a.phase == AgentPhase::CallModel {
        if a.mode == AgentMode::Governed {
            sp_terminal_post(sp_set_result(a, error_word(), reason_or(transport, seq![109u8, 111, 100, 101, 108, 32, 114, 101, 113, 117, 101, 115, 116, 32, 102, 97, 105, 108, 101, 100])), AgentTerminal::Failed)
        } else {
            sp_ended(sp_set_result(a, error_word(), reason_or(transport, seq![111u8, 112, 101, 110, 97, 105, 32, 114, 101, 113, 117, 101, 115, 116, 32, 102, 97, 105, 108, 101, 100])), AgentTerminal::Failed, 2)
        }
    } else if a.phase == AgentPhase::InterpretGoal {
        sp_interp_failure(a, reason_or(transport, seq![111u8, 112, 101, 110, 97, 105, 32, 105, 110, 116, 101, 114, 112, 114, 101, 116, 97, 116, 105, 111, 110, 32, 114, 101, 113, 117, 101, 115, 116, 32, 102, 97, 105, 108, 101, 100]))
    } else if a.phase == AgentPhase::PostResult {
        sp_finish_now(sp_set_result(a, error_word(), reason_or(transport, seq![112u8, 111, 115, 116, 32, 114, 101, 115, 117, 108, 116, 32, 115, 116, 97, 114, 116, 32, 102, 97, 105, 108, 101, 100])), 3)
    } else {
        AgentOut { agent: a, step: AgentStepView::NotHandled }
    }
}

impl AgentTask {
    fn ended(&mut self, kind: AgentTerminal, step: u8) -> (r: AgentStep)
        ensures
            agent_out_is(sp_ended(old(self)@, kind, step), final(self)@, r@),
    {
        if self.sink_url.len() > 0 {
            self.agent_start_terminal_post(kind)
        } else {
            self.agent_finish_local(step, kind)
        }
    }

    /// Asks the model for a summary of `source` (see `sp_m3_summary`).
    pub fn start_m3_openai_summary_request(&mut self, source: &[u8], api_key_ready: bool) -> (r: AgentStep)
        ensures
            agent_out_is(sp_m3_summary(old(self)@, source@, api_key_ready), final(self)@, r@),
    {
        let w: &[u8] = &[99u8, 97, 108, 108, 95, 109, 111, 100, 101, 108];
        assert(w@ =~= seq![99u8, 97, 108, 108, 95, 109, 111, 100, 101, 108]);
        if !self.agent_policy_check(w, 2, Some(crate::openai::responses_url())) {
            return self.ended(AgentTerminal::Refused, 2);
        }
        let body = crate::model::build_openai_summary_request_body(
            crate::openai::model_name(),
            self.summary_sentences as u64,
            self.output_language.as_slice(),
            self.output_style.as_slice(),
            self.goal_text.as_slice(),
            source,
            AGENT_REQUEST_BODY_MAX,
        );
        if body.len() == 0 || !api_key_ready {
            let reason: &[u8] = &[111u8, 112, 101, 110, 97, 105, 32, 114, 101, 113, 117, 101, 115, 116, 32, 98, 117, 105, 108, 100, 32, 102, 97, 105, 108, 101, 100];
            assert(reason@ =~= seq![111u8, 112, 101, 110, 97, 105, 32, 114, 101, 113, 117, 101, 115, 116, 32, 98, 117, 105, 108, 100, 32, 102, 97, 105, 108, 101, 100]);
            self.set_error(reason);
            return self.ended(AgentTerminal::Failed, 2);
        }
        self.phase = AgentPhase::CallModel;
        AgentStep::OpenAi { body }
    }

    fn interp_done(&mut self, ev: &crate::turn_state::FetchOutcome, api_key_ready: bool) -> (r: AgentStep)
        ensures
            agent_out_is(
                sp_interp_done(old(self)@, ev.ok, ev.status, ev.transport@, ev.truncated, ev.body@, ev.cached_output@, api_key_ready),
                final(self)@,
                r@,
            ),
    {
        let http_ok = ev.ok && 200 <= ev.status && ev.status < 300;
        if !http_ok {
            if crate::model::openai_failure_retryable(ev.status, ev.transport.as_slice())
                && self.interpret_retries < AGENT_OPENAI_MAX_RETRIES {
                self.interpret_retries = self.interpret_retries + 1;
                return self.start_openai_interpretation_request(api_key_ready);
            }
            if api_key_ready {
                let phase: &[u8] = &[111u8, 112, 101, 110, 97, 105, 32, 105, 110, 116, 101, 114, 112, 114, 101, 116, 97, 116, 105, 111, 110];
                assert(phase@ =~= seq![111u8, 112, 101, 110, 97, 105, 32, 105, 110, 116, 101, 114, 112, 114, 101, 116, 97, 116, 105, 111, 110]);
                let reason = crate::model::build_openai_failure_reason(
                    phase,
                    ev.status,
                    ev.transport.as_slice(),
                    ev.truncated,
                    ev.body.as_slice(),
                    AGENT_FAILURE_REASON_MAX,
                );
                return self.finish_goal_interpretation_failure(reason.as_slice());
            }
            let reason: &[u8] = &[105u8, 110, 116, 101, 114, 112, 114, 101, 116, 97, 116, 105, 111, 110, 32, 114, 101, 113, 117, 101, 115, 116, 32, 102, 97, 105, 108, 101, 100];
            assert(reason@ =~= seq![105u8, 110, 116, 101, 114, 112, 114, 101, 116, 97, 116, 105, 111, 110, 32, 114, 101, 113, 117, 101, 115, 116, 32, 102, 97, 105, 108, 101, 100]);
            return self.finish_goal_interpretation_failure(reason);
        }
        if ev.truncated {
            let reason: &[u8] = &[111u8, 112, 101, 110, 97, 105, 32, 105, 110, 116, 101, 114, 112, 114, 101, 116, 97, 116, 105, 111, 110, 58, 32, 114, 101, 115, 112, 111, 110, 115, 101, 32, 98, 111, 100, 121, 32, 116, 114, 117, 110, 99, 97, 116, 101, 100];
            assert(reason@ =~= seq![111u8, 112, 101, 110, 97, 105, 32, 105, 110, 116, 101, 114, 112, 114, 101, 116, 97, 116, 105, 111, 110, 58, 32, 114, 101, 115, 112, 111, 110, 115, 101, 32, 98, 111, 100, 121, 32, 116, 114, 117, 110, 99, 97, 116, 101, 100]);
            return self.finish_goal_interpretation_failure(reason);
        }
        let text = match crate::model::extract_openai_output_text(ev.cached_output.as_slice(), ev.body.as_slice(), AGENT_INTERPRET_TEXT_MAX) {
            Some(v) => v,
            None => Vec::new(),
        };
        let response: &[u8] = if text.len() != 0 {
            text.as_slice()
        } else {
            ev.body.as_slice()
        };
        match crate::goal::apply_interpretation_response(response) {
            Ok(i) => {
                self.source_url = i.source_url;
                self.sink_url = i.sink_url;
                self.summary_sentences = i.max_items;
                self.model_url = Vec::new();
                self.policy.max_steps = crate::goal::GOAL_DEFAULT_MAX_STEPS;
                self.output_style = i.style;
                self.output_language = i.language;
                if i.post {
                    self.policy.agent_store_m3_post_policy();
                } else {
                    self.policy.agent_store_m3_summary_policy();
                }
                self.start_m3_local_summary_task()
            },
            Err(e) => self.finish_goal_interpretation_failure(e.reason()),
        }
    }

    fn m1_fetched(&mut self, http_ok: bool, body: &[u8]) -> (r: AgentStep)
        ensures
            agent_out_is(sp_m1_fetched(old(self)@, http_ok, body@), final(self)@, r@),
    {
        if !http_ok {
            self.summary = Vec::new();
            let reason: &[u8] = &[102u8, 101, 116, 99, 104, 32, 102, 97, 105, 108, 101, 100];
            assert(reason@ =~= seq![102u8, 101, 116, 99, 104, 32, 102, 97, 105, 108, 101, 100]);
            self.set_error(reason);
            return self.agent_start_terminal_post(AgentTerminal::Failed);
        }
        let model_url = dup(self.model_url.as_slice());
        let w: &[u8] = &[99u8, 97, 108, 108, 95, 109, 111, 100, 101, 108];
        assert(w@ =~= seq![99u8, 97, 108, 108, 95, 109, 111, 100, 101, 108]);
        if !self.agent_policy_check(w, 2, Some(model_url.as_slice())) {
            return self.agent_start_terminal_post(AgentTerminal::Refused);
        }
        let req = crate::model::build_model_request_body(body, self.summary_sentences as u64, AGENT_REQUEST_BODY_MAX);
        if req.len() == 0 {
            let reason: &[u8] = &[109u8, 111, 100, 101, 108, 32, 114, 101, 113, 117, 101, 115, 116, 32, 98, 117, 105, 108, 100, 32, 102, 97, 105, 108, 101, 100];
            assert(reason@ =~= seq![109u8, 111, 100, 101, 108, 32, 114, 101, 113, 117, 101, 115, 116, 32, 98, 117, 105, 108, 100, 32, 102, 97, 105, 108, 101, 100]);
            self.set_error(reason);
            return self.agent_start_terminal_post(AgentTerminal::Failed);
        }
        self.phase = AgentPhase::CallModel;
        AgentStep::Post { url: model_url, body: req }
    }

    fn m1_model_done(&mut self, http_ok: bool, body: &[u8]) -> (r: AgentStep)
        ensures
            agent_out_is(sp_m1_model_done(old(self)@, http_ok, body@), final(self)@, r@),
    {
        let key: &[u8] = &[115u8, 117, 109, 109, 97, 114, 121];
        assert(key@ =~= seq![115u8, 117, 109, 109, 97, 114, 121]);
        let s = if http_ok {
            field(body, body.len(), key, AGENT_SUMMARY_BUF_MAX)
        } else {
            None
        };
        match s {
            Some(v) => {
                self.summary = v;
                self.set_ok();
                self.agent_start_terminal_post(AgentTerminal::Completed)
            },
            None => {
                self.summary = Vec::new();
                let reason: &[u8] = &[109u8, 111, 100, 101, 108, 32, 103, 97, 116, 101, 119, 97, 121, 32, 101, 114, 114, 111, 114];
                assert(reason@ =~= seq![109u8, 111, 100, 101, 108, 32, 103, 97, 116, 101, 119, 97, 121, 32, 101, 114, 114, 111, 114]);
                self.set_error(reason);
                self.agent_start_terminal_post(AgentTerminal::Failed)
            },
        }
    }

    fn local_fetched(&mut self, ok: bool, body: &[u8], api_key_ready: bool) -> (r: AgentStep)
        ensures
            agent_out_is(sp_local_fetched(old(self)@, ok, body@, api_key_ready), final(self)@, r@),
    {
        if !ok {
            let reason: &[u8] = &[102u8, 101, 116, 99, 104, 32, 102, 97, 105, 108, 101, 100];
            assert(reason@ =~= seq![102u8, 101, 116, 99, 104, 32, 102, 97, 105, 108, 101, 100]);
            self.set_error(reason);
            return self.ended(AgentTerminal::Failed, 1);
        }
        if self.mode == AgentMode::ModelGoal && api_key_ready {
            return self.start_m3_openai_summary_request(body, api_key_ready);
        }
        let w: &[u8] = &[115u8, 117, 109, 109, 97, 114, 105, 122, 101, 95, 116, 101, 120, 116];
        assert(w@ =~= seq![115u8, 117, 109, 109, 97, 114, 105, 122, 101, 95, 116, 101, 120, 116]);
        if !self.agent_policy_check(w, 2, None) {
            return self.ended(AgentTerminal::Refused, 2);
        }
        self.summary = crate::model::summarize_agent_response(body, self.summary_sentences, AGENT_SUMMARY_BUF_MAX);
        self.set_ok();
        self.ended(AgentTerminal::Completed, 2)
    }

    fn m3_model_done(&mut self, ev: &crate::turn_state::FetchOutcome, api_key_ready: bool) -> (r: AgentStep)
        ensures
            agent_out_is(
                sp_m3_model_done(old(self)@, ev.ok, ev.status, ev.transport@, ev.truncated, ev.body@, ev.cached_output@, api_key_ready),
                final(self)@,
                r@,
            ),
    {
        let http_ok = ev.ok && 200 <= ev.status && ev.status < 300;
        let s = match crate::model::extract_openai_output_text(ev.cached_output.as_slice(), ev.body.as_slice(), AGENT_SUMMARY_BUF_MAX) {
            Some(v) => v,
            None => Vec::new(),
        };
        if !(http_ok && s.len() != 0) {
            self.summary = Vec::new();
            if crate::model::openai_failure_retryable(ev.status, ev.transport.as_slice())
                && self.summary_retries < AGENT_OPENAI_MAX_RETRIES {
                self.summary_retries = self.summary_retries + 1;
                return self.start_m3_openai_summary_request(ev.body.as_slice(), api_key_ready);
            }
            let phase: &[u8] = &[111u8, 112, 101, 110, 97, 105, 32, 115, 117, 109, 109, 97, 114, 121];
            assert(phase@ =~= seq![111u8, 112, 101, 110, 97, 105, 32, 115, 117, 109, 109, 97, 114, 121]);
            let reason = crate::model::build_openai_failure_reason(
                phase,
                ev.status,
                ev.transport.as_slice(),
                ev.truncated,
                ev.body.as_slice(),
                AGENT_FAILURE_REASON_MAX,
            );
            self.set_error(reason.as_slice());
            return self.ended(AgentTerminal::Failed, 2);
        }
        self.summary = s;
        self.set_ok();
        self.ended(AgentTerminal::Completed, 2)
    }

    /// Reacts to the end of a transfer of the task (see `sp_agent_fetch_done`).
    pub fn handle_agent_fetch_done(&mut self, ev: &crate::turn_state::FetchOutcome, api_key_ready: bool) -> (r: AgentStep)
        ensures
            agent_out_is(
                sp_agent_fetch_done(old(self)@, ev.ok, ev.status, ev.transport@, ev.truncated, ev.body@, ev.cached_output@, api_key_ready),
                final(self)@,
                r@,
            ),
    {
        let http_ok = ev.ok && 200 <= ev.status && ev.status < 300;
        if !self.active {
            return AgentStep::NotHandled;
        }
        if self.mode == AgentMode::ModelGoal && self.phase == AgentPhase::InterpretGoal {
            return self.interp_done(ev, api_key_ready);
        }
        if self.mode == AgentMode::Governed && self.phase == AgentPhase::FetchSource {
            return self.m1_fetched(http_ok, ev.body.as_slice());
        }
        if self.mode == AgentMode::Governed && self.phase == AgentPhase::CallModel {
            return self.m1_model_done(http_ok, ev.body.as_slice());
        }
        if self.mode == AgentMode::Governed && self.phase == AgentPhase::PostResult {
            return self.agent_finish_now(3);
        }
        if self.phase == AgentPhase::FetchSource {
            return self.local_fetched(ev.ok, ev.body.as_slice(), api_key_ready);
        }
        if self.mode == AgentMode::ModelGoal && self.phase == AgentPhase::CallModel {
            return self.m3_model_done(ev, api_key_ready);
        }
        if self.phase == AgentPhase::PostResult {
            let event = if self.terminal != AgentTerminal::Pending {
                match self.terminal {
                    AgentTerminal::Completed => AgentTerminal::Completed,
                    AgentTerminal::Refused => AgentTerminal::Refused,
                    _ => AgentTerminal::Failed,
                }
            } else if ev.ok {
                AgentTerminal::Completed
            } else {
                AgentTerminal::Failed
            };
            self.agent_reset();
            return AgentStep::Finish { step: 3, event, print: Vec::new() };
        }
        AgentStep::NotHandled
    }

    /// A transfer the task asked for could not start (see `sp_start_failed`).
    pub fn handle_start_failure(&mut self, transport: &[u8]) -> (r: AgentStep)
        ensures
            agent_out_is(sp_start_failed(old(self)@, transport@), final(self)@, r@),
    {
        if !self.active {
            return AgentStep::NotHandled;
        }
        if self.phase == AgentPhase::FetchSource {
            let fb: &[u8] = &[102u8, 101, 116, 99, 104, 32, 115, 116, 97, 114, 116, 32, 102, 97, 105, 108, 101, 100];
            assert(fb@ =~= seq![102u8, 101, 116, 99, 104, 32, 115, 116, 97, 114, 116, 32, 102, 97, 105, 108, 101, 100]);
            let r: &[u8] = if transport.len() == 0 {
                fb
            } else {
                transport
            };
            if self.mode == AgentMode::Summarize {
                self.set_error(r);
                return self.agent_fail();
            }
            self.summary = Vec::new();
            self.set_error(r);
            if self.mode == AgentMode::Governed {
                return self.agent_start_terminal_post(AgentTerminal::Failed);
            }
            return self.agent_finish_local(1, AgentTerminal::Failed);
        }
        if self.phase == AgentPhase::CallModel {
            if self.mode == AgentMode::Governed {
                let fb: &[u8] = &[109u8, 111, 100, 101, 108, 32, 114, 101, 113, 117, 101, 115, 116, 32, 102, 97, 105, 108, 101, 100];
                assert(fb@ =~= seq![109u8, 111, 100, 101, 108, 32, 114, 101, 113, 117, 101, 115, 116, 32, 102, 97, 105, 108, 101, 100]);
                self.set_error(if transport.len() == 0 { fb } else { transport });
                return self.agent_start_terminal_post(AgentTerminal::Failed);
            }
            let fb: &[u8] = &[111u8, 112, 101, 110, 97, 105, 32, 114, 101, 113, 117, 101, 115, 116, 32, 102, 97, 105, 108, 101, 100];
            assert(fb@ =~= seq![111u8, 112, 101, 110, 97, 105, 32, 114, 101, 113, 117, 101, 115, 116, 32, 102, 97, 105, 108, 101, 100]);
            self.set_error(if transport.len() == 0 { fb } else { transport });
            return self.ended(AgentTerminal::Failed, 2);
        }
        if self.phase == AgentPhase::InterpretGoal {
            let fb: &[u8] = &[111u8, 112, 101, 110, 97, 105, 32, 105, 110, 116, 101, 114, 112, 114, 101, 116, 97, 116, 105, 111, 110, 32, 114, 101, 113, 117, 101, 115, 116, 32, 102, 97, 105, 108, 101, 100];
            assert(fb@ =~= seq![111u8, 112, 101, 110, 97, 105, 32, 105, 110, 116, 101, 114, 112, 114, 101, 116, 97, 116, 105, 111, 110, 32, 114, 101, 113, 117, 101, 115, 116, 32, 102, 97, 105, 108, 101, 100]);
            return self.finish_goal_interpretation_failure(if transport.len() == 0 { fb } else { transport });
        }
        if self.phase == AgentPhase::PostResult {
            let fb: &[u8] = &[112u8, 111, 115, 116, 32, 114, 101, 115, 117, 108, 116, 32, 115, 116, 97, 114, 116, 32, 102, 97, 105, 108, 101, 100];
            assert(fb@ =~= seq![112u8, 111, 115, 116, 32, 114, 101, 115, 117, 108, 116, 32, 115, 116, 97, 114, 116, 32, 102, 97, 105, 108, 101, 100]);
            self.set_error(if transport.len() == 0 { fb } else { transport });
            return self.agent_finish_now(3);
        }
        AgentStep::NotHandled
    }
}

// ---------------------------------------------------------------------------
// Laws of a task
// ---------------------------------------------------------------------------

/// A step that ends the task leaves no task behind.
pub open spec fn closes(o: AgentOut) -> bool {
    o.step is Finish ==> o.agent == reset_view()
}

proof fn lemma_post_closes(a: AgentView, kind: AgentTerminal)
    ensures
        closes(sp_terminal_post(a, kind)),
        closes(sp_ended(a, kind, 1)),
        closes(sp_ended(a, kind, 2)),
{
}

proof fn lemma_starts_close(a: AgentView, mode: AgentMode, api: bool, source: Seq<u8>)
    ensures
        closes(sp_start_local(a, mode)),
        closes(sp_start_governed(a)),
        closes(sp_interp_request(a, api)),
        closes(sp_m3_summary(a, source, api)),
{
    let a1 = sp_set_result(
        AgentView {
            mode: AgentMode::Governed,
            phase: AgentPhase::FetchSource,
            output_language: Seq::empty(),
            output_style: Seq::empty(),
            ..a
        },
        ok_word(),
        Seq::empty(),
    );
    lemma_post_closes(sp_gate(a1, seq![102u8, 101, 116, 99, 104, 95, 117, 114, 108], 1, Some(a1.source_url)).0, AgentTerminal::Refused);
    let g = sp_gate(a, seq![99u8, 97, 108, 108, 95, 109, 111, 100, 101, 108], 2, Some(crate::openai::spec_responses_url()));
    lemma_post_closes(g.0, AgentTerminal::Refused);
    lemma_post_closes(sp_set_result(g.0, error_word(), seq![111u8, 112, 101, 110, 97, 105, 32, 114, 101, 113, 117, 101, 115, 116, 32, 98, 117, 105, 108, 100, 32, 102, 97, 105, 108, 101, 100]), AgentTerminal::Failed);
}

/// Whenever the end of a transfer finishes the task, the task is gone and the runtime is
/// back at the prompt with nothing left over.
pub proof fn lemma_agent_finish_resets(
    a: AgentView,
    ok: bool,
    status: u16,
    transport: Seq<u8>,
    truncated: bool,
    body: Seq<u8>,
    cached: Seq<u8>,
    api: bool,
)
    ensures
        closes(sp_agent_fetch_done(a, ok, status, transport, truncated, body, cached, api)),
{
    let http_ok = crate::turn_state::http_success(ok, status);
    if a.active && a.mode == AgentMode::ModelGoal && a.phase == AgentPhase::InterpretGoal {
        lemma_starts_close(AgentView { interpret_retries: (a.interpret_retries + 1) as u8, ..a }, AgentMode::ModelGoal, api, body);
        let t = crate::turn_state::output_or_empty(cached, body, AGENT_INTERPRET_TEXT_MAX as int);
        let response = if t.len() != 0 {
            t
        } else {
            body
        };
        if let Ok((post, s, k, items, lang, style)) = crate::goal::spec_interpretation(response) {
            lemma_starts_close(
                AgentView {
                    source_url: s,
                    sink_url: k,
                    summary_sentences: items as usize,
                    model_url: Seq::empty(),
                    max_steps: crate::goal::GOAL_DEFAULT_MAX_STEPS,
                    output_style: style,
                    output_language: lang,
                    policy_json: if post {
                        crate::policy::m3_post_profile()
                    } else {
                        crate::policy::m3_summary_profile()
                    },
                    ..a
                },
                AgentMode::ModelGoal,
                api,
                body,
            );
        }
    } else if a.active && a.mode == AgentMode::Governed && a.phase == AgentPhase::FetchSource {
        lemma_post_closes(sp_set_result(AgentView { summary: Seq::empty(), ..a }, error_word(), seq![102u8, 101, 116, 99, 104, 32, 102, 97, 105, 108, 101, 100]), AgentTerminal::Failed);
        let g = sp_gate(a, seq![99u8, 97, 108, 108, 95, 109, 111, 100, 101, 108], 2, Some(a.model_url));
        lemma_post_closes(g.0, AgentTerminal::Refused);
        lemma_post_closes(sp_set_result(g.0, error_word(), seq![109u8, 111, 100, 101, 108, 32, 114, 101, 113, 117, 101, 115, 116, 32, 98, 117, 105, 108, 100, 32, 102, 97, 105, 108, 101, 100]), AgentTerminal::Failed);
    } else if a.active && a.mode == AgentMode::Governed && a.phase == AgentPhase::CallModel {
        if let Some(s) = task_field(body, body.len() as int, seq![115u8, 117, 109, 109, 97, 114, 121], AGENT_SUMMARY_BUF_MAX as int) {
            lemma_post_closes(sp_set_result(AgentView { summary: s, ..a }, ok_word(), Seq::empty()), AgentTerminal::Completed);
        }
        lemma_post_closes(sp_set_result(AgentView { summary: Seq::empty(), ..a }, error_word(), seq![109u8, 111, 100, 101, 108, 32, 103, 97, 116, 101, 119, 97, 121, 32, 101, 114, 114, 111, 114]), AgentTerminal::Failed);
    } else if a.active && a.phase == AgentPhase::FetchSource {
        lemma_post_closes(sp_set_result(a, error_word(), seq![102u8, 101, 116, 99, 104, 32, 102, 97, 105, 108, 101, 100]), AgentTerminal::Failed);
        lemma_starts_close(a, a.mode, api, body);
        let g = sp_gate(a, seq![115u8, 117, 109, 109, 97, 114, 105, 122, 101, 95, 116, 101, 120, 116], 2, None);
        lemma_post_closes(g.0, AgentTerminal::Refused);
        lemma_post_closes(
            sp_set_result(
                AgentView {
                    summary: crate::model::spec_summary(body, a.summary_sentences as int, AGENT_SUMMARY_BUF_MAX as int),
                    ..g.0
                },
                ok_word(),
                Seq::empty(),
            ),
            AgentTerminal::Completed,
        );
    } else if a.active && a.mode == AgentMode::ModelGoal && a.phase == AgentPhase::CallModel {
        let s = crate::turn_state::output_or_empty(cached, body, AGENT_SUMMARY_BUF_MAX as int);
        let a0 = AgentView { summary: Seq::empty(), ..a };
        lemma_starts_close(AgentView { summary_retries: (a.summary_retries + 1) as u8, ..a0 }, AgentMode::ModelGoal, api, body);
        lemma_post_closes(
            sp_set_result(
                a0,
                error_word(),
                crate::model::failure_reason(seq![111u8, 112, 101, 110, 97, 105, 32, 115, 117, 109, 109, 97, 114, 121], status, transport, truncated, body, AGENT_FAILURE_REASON_MAX as int),
            ),
            AgentTerminal::Failed,
        );
        lemma_post_closes(sp_set_result(AgentView { summary: s, ..a }, ok_word(), Seq::empty()), AgentTerminal::Completed);
    }
}

/// A governed task fetches its source only when its policy allows `fetch_url` for that
/// source as step 1.
pub proof fn lemma_governed_fetch_allowed(a: AgentView)
    ensures
        sp_start_governed(a).step matches AgentStepView::Fetch { url } ==> spec_policy_check(
            a.policy_json,
            a.max_steps as int,
            seq![102u8, 101, 116, 99, 104, 95, 117, 114, 108],
            1,
            Some(url),
        ) is Ok,
{
}

} // verus!

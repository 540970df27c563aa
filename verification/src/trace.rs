use vstd::prelude::*;
use crate::bytes::dec_digits;
use crate::json::escape_all_from;
use crate::json::hex_lower_digit;
use crate::policy::TaskPolicy;
use crate::policy::denial_reason;
use crate::policy::spec_policy_check;
use crate::turn::cap_to;
use crate::turn_state::M4StepView;
use crate::turn_state::M4Terminal;
use crate::turn_state::M4View;

verus! {

// ---------------------------------------------------------------------------
// Structured trace events
//
// With tracing on, each step of a task is reported on the console as one line
// `TRACE {"event":"...","ts_ms":N,"step":N,...}` that a harness can read back.
// ---------------------------------------------------------------------------

/// The value of one trace field.
pub enum TraceValue {
    /// A string, JSON-escaped inside quotes.
    Str(Vec<u8>),
    /// A fixed name (a skill, a status) written inside quotes as it is.
    Raw(Vec<u8>),
    /// Bytes written inside quotes as lower-case hex pairs.
    Hex(Vec<u8>),
    U64(u64),
    I64(i64),
    Bool(bool),
    /// An object of string members (name, value), the values JSON-escaped.
    Args(Vec<(Vec<u8>, Vec<u8>)>),
}

/// One `"name":value` member of a trace line after the fixed members.
pub struct TraceField {
    pub name: Vec<u8>,
    pub value: TraceValue,
}

/// An event that a step emits; the console stamps it with the time when it writes it.
pub struct TraceEvent {
    pub event: Vec<u8>,
    pub step: u8,
    pub fields: Vec<TraceField>,
}

/// Lower-case hex pairs of `s[i..]`.
pub open spec fn hex_pairs_from(s: Seq<u8>, i: int) -> Seq<u8>
    decreases s.len() - i,
{
    if i < 0 || i >= s.len() {
        Seq::empty()
    } else {
        seq![hex_lower_digit(s[i] / 16), hex_lower_digit(s[i] % 16)] + hex_pairs_from(s, i + 1)
    }
}

/// A signed decimal number.
pub open spec fn signed_dec(v: i64) -> Seq<u8> {
    if v < 0 {
        seq![45u8] + dec_digits((0 - v) as nat)
    } else {
        dec_digits(v as nat)
    }
}

pub open spec fn quoted(s: Seq<u8>) -> Seq<u8> {
    seq![34u8] + s + seq![34u8]
}

/// How a field value is written.
pub open spec fn value_text(v: TraceValue) -> Seq<u8> {
    match v {
        TraceValue::Str(s) => quoted(escape_all_from(s@, 0, false)),
        TraceValue::Raw(s) => quoted(s@),
        TraceValue::Hex(s) => quoted(hex_pairs_from(s@, 0)),
        TraceValue::U64(n) => dec_digits(n as nat),
        TraceValue::I64(n) => signed_dec(n),
        TraceValue::Bool(b) => if b { seq![116u8, 114, 117, 101] } else { seq![102u8, 97, 108, 115, 101] },
        TraceValue::Args(p) => seq![123u8] + args_from(p@, 0) + seq![125u8],
    }
}

/// `"name":"value"` with the value JSON-escaped.
pub open spec fn arg_text(name: Seq<u8>, v: Seq<u8>) -> Seq<u8> {
    quoted(name) + seq![58u8] + quoted(escape_all_from(v, 0, false))
}

/// The members of `p[i..]`, separated by commas.
pub open spec fn args_from(p: Seq<(Vec<u8>, Vec<u8>)>, i: int) -> Seq<u8>
    decreases p.len() - i,
{
    if i < 0 || i >= p.len() {
        Seq::empty()
    } else {
        (if i == 0 { Seq::empty() } else { seq![44u8] }) + arg_text(p[i].0@, p[i].1@) + args_from(p, i + 1)
    }
}

/// `,"name":value`.
pub open spec fn field_text(f: TraceField) -> Seq<u8> {
    seq![44u8, 34] + f.name@ + seq![34u8, 58] + value_text(f.value)
}

/// The members written for `fields[i..]`, in order.
pub open spec fn fields_text(fields: Seq<TraceField>, i: int) -> Seq<u8>
    decreases fields.len() - i,
{
    if i < 0 || i >= fields.len() {
        Seq::empty()
    } else {
        field_text(fields[i]) + fields_text(fields, i + 1)
    }
}

/// The console line of an event: `TRACE {"event":"<event>","ts_ms":<ts>,"step":<step>`,
/// the fields in order, then `}` and a line feed.
pub open spec fn trace_line(event: Seq<u8>, ts_ms: u64, step: u8, fields: Seq<TraceField>) -> Seq<u8> {
    seq![84u8, 82, 65, 67, 69, 32, 123, 34, 101, 118, 101, 110, 116, 34, 58, 34] + event + seq![34u8, 44, 34, 116, 115, 95, 109, 115, 34, 58] + dec_digits(ts_ms as nat) + seq![44u8, 34, 115, 116, 101, 112, 34, 58]
        + dec_digits(step as nat) + fields_text(fields, 0) + seq![125u8, 10]
}

fn hex_lower(v: u8) -> (r: u8)
    requires
        v < 16,
    ensures
        r == hex_lower_digit(v),
{
    if v < 10 {
        48 + v
    } else {
        97 + (v - 10)
    }
}

fn append_value(out: &mut Vec<u8>, v: &TraceValue)
    ensures
        final(out)@ == old(out)@ + value_text(*v),
{
    match v {
        TraceValue::Str(s) => {
            let e = crate::json::trace_json_escaped(s.as_slice());
            crate::bytes::append_all(out, &[34u8]);
            crate::bytes::append_all(out, e.as_slice());
            crate::bytes::append_all(out, &[34u8]);
        },
        TraceValue::Raw(s) => {
            crate::bytes::append_all(out, &[34u8]);
            crate::bytes::append_all(out, s.as_slice());
            crate::bytes::append_all(out, &[34u8]);
        },
        TraceValue::Hex(s) => {
            crate::bytes::append_all(out, &[34u8]);
            let ghost start = out@;
            let mut i = 0usize;
            while i < s.len()
                invariant
                    i <= s.len(),
                    out@ + hex_pairs_from(s@, i as int) == start + hex_pairs_from(s@, 0),
                decreases s.len() - i,
            {
                let b = s[i];
                let ghost before = out@;
                out.push(hex_lower(b / 16));
                out.push(hex_lower(b % 16));
                assert(out@ =~= before + seq![hex_lower_digit(b / 16), hex_lower_digit(b % 16)]);
                i += 1;
            }
            assert(out@ + Seq::<u8>::empty() =~= out@);
            crate::bytes::append_all(out, &[34u8]);
        },
        TraceValue::U64(n) => {
            let d = crate::bytes::u64_to_dec(*n);
            crate::bytes::append_all(out, d.as_slice());
        },
        TraceValue::I64(n) => {
            if *n < 0 {
                let m: u64 = if *n == i64::MIN {
                    9223372036854775808u64
                } else {
                    (0 - *n) as u64
                };
                let d = crate::bytes::u64_to_dec(m);
                crate::bytes::append_all(out, &[45u8]);
                crate::bytes::append_all(out, d.as_slice());
            } else {
                let d = crate::bytes::u64_to_dec(*n as u64);
                crate::bytes::append_all(out, d.as_slice());
            }
        },
        TraceValue::Args(p) => {
            crate::bytes::append_all(out, &[123u8]);
            let ghost start = out@;
            let mut i = 0usize;
            while i < p.len()
                invariant
                    i <= p.len(),
                    out@ + args_from(p@, i as int) == start + args_from(p@, 0),
                decreases p.len() - i,
            {
                let ghost before = out@;
                if i > 0 {
                    crate::bytes::append_all(out, &[44u8]);
                }
                crate::bytes::append_all(out, &[34u8]);
                crate::bytes::append_all(out, p[i].0.as_slice());
                crate::bytes::append_all(out, &[34u8, 58, 34]);
                let e = crate::json::trace_json_escaped(p[i].1.as_slice());
                crate::bytes::append_all(out, e.as_slice());
                crate::bytes::append_all(out, &[34u8]);
                assert(out@ =~= before + (if i == 0 { Seq::<u8>::empty() } else { seq![44u8] }) + arg_text(
                    p@[i as int].0@,
                    p@[i as int].1@,
                ));
                i += 1;
            }
            assert(out@ + Seq::<u8>::empty() =~= out@);
            crate::bytes::append_all(out, &[125u8]);
        },
        TraceValue::Bool(b) => {
            if *b {
                crate::bytes::append_all(out, &[116u8, 114, 117, 101]);
            } else {
                crate::bytes::append_all(out, &[102u8, 97, 108, 115, 101]);
            }
        },
    }
}

/// The console line of an event stamped with `ts_ms` (see `trace_line`).
pub fn trace_event_line(event: &[u8], ts_ms: u64, step: u8, fields: &[TraceField]) -> (r: Vec<u8>)
    ensures
        r@ == trace_line(event@, ts_ms, step, fields@),
{
    let mut out: Vec<u8> = Vec::new();
    crate::bytes::append_all(&mut out, &[84u8, 82, 65, 67, 69, 32, 123, 34, 101, 118, 101, 110, 116, 34, 58, 34]);
    crate::bytes::append_all(&mut out, event);
    crate::bytes::append_all(&mut out, &[34u8, 44, 34, 116, 115, 95, 109, 115, 34, 58]);
    let ts = crate::bytes::u64_to_dec(ts_ms);
    crate::bytes::append_all(&mut out, ts.as_slice());
    crate::bytes::append_all(&mut out, &[44u8, 34, 115, 116, 101, 112, 34, 58]);
    let st = crate::bytes::u64_to_dec(step as u64);
    crate::bytes::append_all(&mut out, st.as_slice());
    let ghost head = out@;
    let mut i = 0usize;
    while i < fields.len()
        invariant
            i <= fields.len(),
            out@ + fields_text(fields@, i as int) == head + fields_text(fields@, 0),
        decreases fields.len() - i,
    {
        let f = &fields[i];
        let ghost before = out@;
        crate::bytes::append_all(&mut out, &[44u8, 34]);
        crate::bytes::append_all(&mut out, f.name.as_slice());
        crate::bytes::append_all(&mut out, &[34u8, 58]);
        append_value(&mut out, &f.value);
        assert(out@ =~= before + field_text(fields@[i as int]));
        i += 1;
    }
    assert(out@ + Seq::<u8>::empty() =~= out@);
    crate::bytes::append_all(&mut out, &[125u8, 10]);
    assert(out@ =~= trace_line(event@, ts_ms, step, fields@));
    out
}

impl TraceEvent {
    /// This event's console line, stamped with `ts_ms`.
    pub fn line(&self, ts_ms: u64) -> (r: Vec<u8>)
        ensures
            r@ == trace_line(self.event@, ts_ms, self.step, self.fields@),
    {
        trace_event_line(self.event.as_slice(), ts_ms, self.step, self.fields.as_slice())
    }
}

/// What a reader of the console line learns of an event: its name, its step and the
/// members after the fixed ones (the time stamp is added when it is written).
pub open spec fn ev(e: TraceEvent) -> (Seq<u8>, u8, Seq<u8>) {
    (e.event@, e.step, fields_text(e.fields@, 0))
}

pub open spec fn evs(v: Seq<TraceEvent>) -> Seq<(Seq<u8>, u8, Seq<u8>)> {
    v.map_values(|e: TraceEvent| ev(e))
}

/// `,"name":"value"` with the value as it is.
pub open spec fn raw_member(name: Seq<u8>, v: Seq<u8>) -> Seq<u8> {
    seq![44u8, 34] + name + seq![34u8, 58] + quoted(v)
}

/// `,"name":"value"` with the value JSON-escaped.
pub open spec fn str_member(name: Seq<u8>, v: Seq<u8>) -> Seq<u8> {
    seq![44u8, 34] + name + seq![34u8, 58] + quoted(escape_all_from(v, 0, false))
}

pub open spec fn plain_ev(event: Seq<u8>, step: u8) -> (Seq<u8>, u8, Seq<u8>) {
    (event, step, Seq::empty())
}

proof fn lemma_fields_text_small(fs: Seq<TraceField>)
    requires
        fs.len() <= 2,
    ensures
        fs.len() == 0 ==> fields_text(fs, 0) == Seq::<u8>::empty(),
        fs.len() == 1 ==> fields_text(fs, 0) == field_text(fs[0]),
        fs.len() == 2 ==> fields_text(fs, 0) == field_text(fs[0]) + field_text(fs[1]),
{
    reveal_with_fuel(fields_text, 3);
    if fs.len() == 1 {
        assert(field_text(fs[0]) + Seq::<u8>::empty() =~= field_text(fs[0]));
    }
    if fs.len() == 2 {
        assert(field_text(fs[0]) + (field_text(fs[1]) + Seq::<u8>::empty()) =~= field_text(fs[0])
            + field_text(fs[1]));
    }
}

fn dup(s: &[u8]) -> (r: Vec<u8>)
    ensures
        r@ == s@,
{
    let mut out: Vec<u8> = Vec::new();
    crate::bytes::append_all(&mut out, s);
    out
}

fn raw_field(name: &[u8], v: &[u8]) -> (r: TraceField)
    ensures
        field_text(r) == raw_member(name@, v@),
{
    TraceField { name: dup(name), value: TraceValue::Raw(dup(v)) }
}

fn str_field(name: &[u8], v: &[u8]) -> (r: TraceField)
    ensures
        field_text(r) == str_member(name@, v@),
{
    TraceField { name: dup(name), value: TraceValue::Str(dup(v)) }
}

fn push_event(out: &mut Vec<TraceEvent>, event: &[u8], step: u8, fields: Vec<TraceField>)
    ensures
        evs(final(out)@) == evs(old(out)@).push((event@, step, fields_text(fields@, 0))),
{
    let ghost before = out@;
    let e = TraceEvent { event: dup(event), step, fields };
    out.push(e);
    assert(evs(out@) =~= evs(before).push(ev(e)));
}

fn push_plain(out: &mut Vec<TraceEvent>, event: &[u8], step: u8)
    ensures
        evs(final(out)@) == evs(old(out)@).push(plain_ev(event@, step)),
{
    let fields: Vec<TraceField> = Vec::new();
    proof {
        lemma_fields_text_small(fields@);
    }
    push_event(out, event, step, fields);
}

fn push_one(out: &mut Vec<TraceEvent>, event: &[u8], step: u8, f: TraceField)
    ensures
        evs(final(out)@) == evs(old(out)@).push((event@, step, field_text(f))),
{
    let mut fields: Vec<TraceField> = Vec::new();
    fields.push(f);
    proof {
        lemma_fields_text_small(fields@);
    }
    push_event(out, event, step, fields);
}

fn push_two(out: &mut Vec<TraceEvent>, event: &[u8], step: u8, f: TraceField, g: TraceField)
    ensures
        evs(final(out)@) == evs(old(out)@).push((event@, step, field_text(f) + field_text(g))),
{
    let mut fields: Vec<TraceField> = Vec::new();
    fields.push(f);
    fields.push(g);
    proof {
        lemma_fields_text_small(fields@);
    }
    push_event(out, event, step, fields);
}

// ---------------------------------------------------------------------------
// The events of a goal line
// ---------------------------------------------------------------------------

/// A policy check of `skill` for `step`: `policy_checked` with its status, then
/// `skill_denied` with the reason when it is refused.
pub open spec fn gate_traces(task: Seq<u8>, max_steps: int, skill: Seq<u8>, step: u8, target: Option<Seq<u8>>) -> Seq<(Seq<u8>, u8, Seq<u8>)> {
    match spec_policy_check(task, max_steps, skill, step as int, target) {
        Ok(()) => seq![(seq![112u8, 111, 108, 105, 99, 121, 95, 99, 104, 101, 99, 107, 101, 100], step, raw_member(seq![115u8, 107, 105, 108, 108], skill) + raw_member(seq![115u8, 116, 97, 116, 117, 115], seq![111u8, 107]))],
        Err(d) => seq![
            (seq![112u8, 111, 108, 105, 99, 121, 95, 99, 104, 101, 99, 107, 101, 100], step, raw_member(seq![115u8, 107, 105, 108, 108], skill) + raw_member(seq![115u8, 116, 97, 116, 117, 115], seq![100u8, 101, 110, 105, 101, 100])),
            (seq![115u8, 107, 105, 108, 108, 95, 100, 101, 110, 105, 101, 100], step, raw_member(seq![115u8, 107, 105, 108, 108], skill) + raw_member(seq![114u8, 101, 97, 115, 111, 110], denial_reason(d))),
        ],
    }
}

/// The events of a goal handed to the model to read.
pub open spec fn interpretation_traces() -> Seq<(Seq<u8>, u8, Seq<u8>)> {
    seq![
        plain_ev(seq![103u8, 111, 97, 108, 95, 114, 101, 99, 101, 105, 118, 101, 100], 0),
        plain_ev(seq![103u8, 111, 97, 108, 95, 116, 101, 120, 116, 95, 114, 101, 99, 101, 105, 118, 101, 100], 0),
        plain_ev(seq![97u8, 103, 101, 110, 116, 95, 108, 111, 111, 112, 95, 115, 116, 97, 114, 116, 101, 100], 0),
        plain_ev(seq![109u8, 111, 100, 101, 108, 95, 105, 110, 116, 101, 114, 112, 114, 101, 116, 97, 116, 105, 111, 110, 95, 115, 116, 97, 114, 116, 101, 100], 0),
    ]
}

/// The events of a goal compiled here into a fetch (and a post when it names a sink):
/// the compilation, then those of starting the task under the goal's policy (see
/// `start_traces`).
pub open spec fn compiled_traces(source: Seq<u8>, sink: Seq<u8>, post: bool) -> Seq<(Seq<u8>, u8, Seq<u8>)> {
    let task = if post { crate::policy::default_goal_profile() } else { crate::policy::local_summary_profile() };
    seq![(seq![103u8, 111, 97, 108, 95, 99, 111, 109, 112, 105, 108, 101, 100], 0u8, raw_member(seq![107u8, 105, 110, 100], seq![97u8, 103, 101, 110, 116, 95, 116, 97, 115, 107]))]
        + start_traces(task, crate::goal::GOAL_DEFAULT_MAX_STEPS as int, source, sink)
}

/// The events of starting a task under the policy `task` with budget `steps`: the plan,
/// the policy check of fetching `source`, then the fetch call, or, when it is refused
/// and the task has a sink, the policy check of posting the refusal there and, when that
/// is allowed, the post call.
pub open spec fn start_traces(task: Seq<u8>, steps: int, source: Seq<u8>, sink: Seq<u8>) -> Seq<(Seq<u8>, u8, Seq<u8>)> {
    let fetch_ok = spec_policy_check(task, steps, seq![102u8, 101, 116, 99, 104, 95, 117, 114, 108], 1, Some(source)) is Ok;
    seq![plain_ev(seq![112u8, 108, 97, 110, 95, 99, 114, 101, 97, 116, 101, 100], 0)] + gate_traces(task, steps, seq![102u8, 101, 116, 99, 104, 95, 117, 114, 108], 1, Some(source)) + if fetch_ok {
        seq![(seq![115u8, 107, 105, 108, 108, 95, 99, 97, 108, 108, 101, 100], 1u8, raw_member(seq![115u8, 107, 105, 108, 108], seq![102u8, 101, 116, 99, 104, 95, 117, 114, 108]))]
    } else if sink.len() > 0 {
        gate_traces(task, steps, seq![112u8, 111, 115, 116, 95, 114, 101, 115, 117, 108, 116], 3, Some(sink)) + if spec_policy_check(
            task,
            steps,
            seq![112u8, 111, 115, 116, 95, 114, 101, 115, 117, 108, 116],
            3,
            Some(sink),
        ) is Ok {
            seq![(seq![115u8, 107, 105, 108, 108, 95, 99, 97, 108, 108, 101, 100], 3u8, raw_member(seq![115u8, 107, 105, 108, 108], seq![112u8, 111, 115, 116, 95, 114, 101, 115, 117, 108, 116]))]
        } else {
            Seq::empty()
        }
    } else {
        Seq::empty()
    }
}

/// The trace events that a goal typed at the prompt emits while it starts (see
/// `sp_goal_line`): none for an empty line or while busy; for a `fetch ...` goal the
/// receipt and the compilation, then either the compiled task's events or the fallback
/// with its reason and the events of handing the goal to the model; for any other goal,
/// those of handing it to the model.
pub open spec fn goal_line_traces(line: Seq<u8>, len: int, busy: bool) -> Seq<(Seq<u8>, u8, Seq<u8>)> {
    if len == 0 || busy {
        Seq::empty()
    } else if crate::goal::spec_starts_with_fetch_goal(line, len) {
        let head = seq![
            plain_ev(seq![103u8, 111, 97, 108, 95, 114, 101, 99, 101, 105, 118, 101, 100], 0),
            plain_ev(seq![103u8, 111, 97, 108, 95, 116, 101, 120, 116, 95, 114, 101, 99, 101, 105, 118, 101, 100], 0),
            plain_ev(seq![103u8, 111, 97, 108, 95, 99, 111, 109, 112, 105, 108, 97, 116, 105, 111, 110, 95, 115, 116, 97, 114, 116, 101, 100], 0),
        ];
        match crate::goal::spec_compile_goal(cap_to(line.take(len), crate::agent_task::AGENT_GOAL_TEXT_MAX as int)) {
            Ok((s, m, k, items, post)) => head + compiled_traces(s, k, post),
            Err(e) => head + seq![
                (seq![103u8, 111, 97, 108, 95, 99, 111, 109, 112, 105, 108, 97, 116, 105, 111, 110, 95, 102, 97, 108, 108, 98, 97, 99, 107], 0u8, str_member(seq![114u8, 101, 97, 115, 111, 110], crate::goal::goal_error_reason(e))),
            ] + interpretation_traces(),
        }
    } else {
        interpretation_traces()
    }
}

fn push_gate(out: &mut Vec<TraceEvent>, policy: &TaskPolicy, skill: &[u8], step: u8, target: &[u8])
    ensures
        evs(final(out)@) == evs(old(out)@) + gate_traces(policy.task(), policy.max_steps as int, skill@, step, Some(target@)),
{
    let ghost before = evs(out@);
    match policy.agent_policy_check(skill, step, Some(target)) {
        Ok(()) => {
            push_two(out, &[112u8, 111, 108, 105, 99, 121, 95, 99, 104, 101, 99, 107, 101, 100], step, raw_field(&[115u8, 107, 105, 108, 108], skill), raw_field(&[115u8, 116, 97, 116, 117, 115], &[111u8, 107]));
        },
        Err(d) => {
            push_two(out, &[112u8, 111, 108, 105, 99, 121, 95, 99, 104, 101, 99, 107, 101, 100], step, raw_field(&[115u8, 107, 105, 108, 108], skill), raw_field(&[115u8, 116, 97, 116, 117, 115], &[100u8, 101, 110, 105, 101, 100]));
            push_two(out, &[115u8, 107, 105, 108, 108, 95, 100, 101, 110, 105, 101, 100], step, raw_field(&[115u8, 107, 105, 108, 108], skill), raw_field(&[114u8, 101, 97, 115, 111, 110], d.reason()));
        },
    }
    assert(evs(out@) =~= before + gate_traces(policy.task(), policy.max_steps as int, skill@, step, Some(target@)));
}

fn push_start(out: &mut Vec<TraceEvent>, policy: &TaskPolicy, source: &[u8], sink: &[u8])
    ensures
        evs(final(out)@) == evs(old(out)@) + start_traces(policy.task(), policy.max_steps as int, source@, sink@),
{
    let ghost before = evs(out@);
    push_plain(out, &[112u8, 108, 97, 110, 95, 99, 114, 101, 97, 116, 101, 100], 0);
    push_gate(out, policy, &[102u8, 101, 116, 99, 104, 95, 117, 114, 108], 1, source);
    if policy.agent_policy_check(&[102u8, 101, 116, 99, 104, 95, 117, 114, 108], 1, Some(source)).is_ok() {
        push_one(out, &[115u8, 107, 105, 108, 108, 95, 99, 97, 108, 108, 101, 100], 1, raw_field(&[115u8, 107, 105, 108, 108], &[102u8, 101, 116, 99, 104, 95, 117, 114, 108]));
    } else if sink.len() > 0 {
        push_gate(out, policy, &[112u8, 111, 115, 116, 95, 114, 101, 115, 117, 108, 116], 3, sink);
        if policy.agent_policy_check(&[112u8, 111, 115, 116, 95, 114, 101, 115, 117, 108, 116], 3, Some(sink)).is_ok() {
            push_one(out, &[115u8, 107, 105, 108, 108, 95, 99, 97, 108, 108, 101, 100], 3, raw_field(&[115u8, 107, 105, 108, 108], &[112u8, 111, 115, 116, 95, 114, 101, 115, 117, 108, 116]));
        }
    }
    assert(evs(out@) =~= before + start_traces(policy.task(), policy.max_steps as int, source@, sink@));
}

fn push_interpretation(out: &mut Vec<TraceEvent>)
    ensures
        evs(final(out)@) == evs(old(out)@) + interpretation_traces(),
{
    let ghost before = evs(out@);
    push_plain(out, &[103u8, 111, 97, 108, 95, 114, 101, 99, 101, 105, 118, 101, 100], 0);
    push_plain(out, &[103u8, 111, 97, 108, 95, 116, 101, 120, 116, 95, 114, 101, 99, 101, 105, 118, 101, 100], 0);
    push_plain(out, &[97u8, 103, 101, 110, 116, 95, 108, 111, 111, 112, 95, 115, 116, 97, 114, 116, 101, 100], 0);
    push_plain(out, &[109u8, 111, 100, 101, 108, 95, 105, 110, 116, 101, 114, 112, 114, 101, 116, 97, 116, 105, 111, 110, 95, 115, 116, 97, 114, 116, 101, 100], 0);
    assert(evs(out@) =~= before + interpretation_traces());
}

/// The trace events of a goal line (see `goal_line_traces`); a console with tracing on
/// writes them, each stamped with the time, when it hands the line to the agent.
pub fn goal_line_trace_events(line: &[u8], len: usize, busy: bool) -> (r: Vec<TraceEvent>)
    requires
        len <= line.len(),
    ensures
        evs(r@) == goal_line_traces(line@, len as int, busy),
{
    let mut out: Vec<TraceEvent> = Vec::new();
    assert(evs(out@) =~= Seq::<(Seq<u8>, u8, Seq<u8>)>::empty());
    if len == 0 || busy {
        return out;
    }
    if !crate::goal::starts_with_fetch_goal(line, len) {
        push_interpretation(&mut out);
        assert(evs(out@) =~= goal_line_traces(line@, len as int, busy));
        return out;
    }
    push_plain(&mut out, &[103u8, 111, 97, 108, 95, 114, 101, 99, 101, 105, 118, 101, 100], 0);
    push_plain(&mut out, &[103u8, 111, 97, 108, 95, 116, 101, 120, 116, 95, 114, 101, 99, 101, 105, 118, 101, 100], 0);
    push_plain(&mut out, &[103u8, 111, 97, 108, 95, 99, 111, 109, 112, 105, 108, 97, 116, 105, 111, 110, 95, 115, 116, 97, 114, 116, 101, 100], 0);
    let ghost head = evs(out@);
    let text = crate::bytes::copy_bytes(crate::agent_task::AGENT_GOAL_TEXT_MAX, vstd::slice::slice_subrange(line, 0, len));
    assert(line@.subrange(0, len as int) =~= line@.take(len as int));
    match crate::goal::compile_goal_locally(text.as_slice()) {
        Ok(plan) => {
            push_one(&mut out, &[103u8, 111, 97, 108, 95, 99, 111, 109, 112, 105, 108, 101, 100], 0, raw_field(&[107u8, 105, 110, 100], &[97u8, 103, 101, 110, 116, 95, 116, 97, 115, 107]));
            let mut policy = TaskPolicy::new();
            policy.max_steps = crate::goal::GOAL_DEFAULT_MAX_STEPS;
            if plan.post {
                policy.agent_store_default_goal_policy();
            } else {
                policy.agent_store_local_summary_policy();
            }
            push_start(&mut out, &policy, plan.source_url.as_slice(), plan.sink_url.as_slice());
            assert(evs(out@) =~= head + compiled_traces(plan.source_url@, plan.sink_url@, plan.post));
        },
        Err(e) => {
            push_one(&mut out, &[103u8, 111, 97, 108, 95, 99, 111, 109, 112, 105, 108, 97, 116, 105, 111, 110, 95, 102, 97, 108, 108, 98, 97, 99, 107], 0, str_field(&[114u8, 101, 97, 115, 111, 110], e.reason()));
            push_interpretation(&mut out);
        },
    }
    assert(evs(out@) =~= goal_line_traces(line@, len as int, busy));
    out
}


// ---------------------------------------------------------------------------
// The events that close a step of a session turn
// ---------------------------------------------------------------------------

/// `,"name":<decimal>`.
pub open spec fn u64_member(name: Seq<u8>, v: nat) -> Seq<u8> {
    seq![44u8, 34] + name + seq![34u8, 58] + dec_digits(v)
}

fn u64_field(name: &[u8], v: u64) -> (r: TraceField)
    ensures
        field_text(r) == u64_member(name@, v as nat),
{
    TraceField { name: dup(name), value: TraceValue::U64(v) }
}

/// The events written just before a step of a session turn hands work out, the turn
/// (`t`, after the step) giving the loop step and the tool call: a model request's size
/// and start (`summary_body_len` is the size of the summary request, which the console
/// builds); a tool call requested and started with its arguments; the answer rendered and
/// why the loop stopped. Other steps write none here.
pub open spec fn m4_step_traces(t: M4View, st: M4StepView, summary_body_len: nat) -> Seq<(Seq<u8>, u8, Seq<u8>)> {
    let n = t.loop_step;
    let tool = str_member(seq![116u8, 111, 111, 108], t.tool_name);
    let one = |a: Seq<u8>, v: Seq<u8>| seq![44u8, 34, 97, 114, 103, 117, 109, 101, 110, 116, 115, 34, 58, 123] + arg_text(a, v) + seq![125u8];
    let two = |a: Seq<u8>, v: Seq<u8>, b: Seq<u8>, w: Seq<u8>| seq![44u8, 34, 97, 114, 103, 117, 109, 101, 110, 116, 115, 34, 58, 123] + arg_text(a, v) + seq![44u8] + arg_text(b, w)
        + seq![125u8];
    match st {
        M4StepView::StartModel { body, .. } => seq![
            (seq![109u8, 111, 100, 101, 108, 95, 114, 101, 113, 117, 101, 115, 116, 95, 98, 117, 105, 108, 116], n, u64_member(seq![98u8, 111, 100, 121, 95, 108, 101, 110], body.len())),
            plain_ev(seq![109u8, 111, 100, 101, 108, 95, 116, 117, 114, 110, 95, 115, 116, 97, 114, 116, 101, 100], n),
        ],
        M4StepView::StartSummary { .. } => seq![
            (seq![109u8, 111, 100, 101, 108, 95, 114, 101, 113, 117, 101, 115, 116, 95, 98, 117, 105, 108, 116], n, u64_member(seq![98u8, 111, 100, 121, 95, 108, 101, 110], summary_body_len)),
            plain_ev(seq![109u8, 111, 100, 101, 108, 95, 116, 117, 114, 110, 95, 115, 116, 97, 114, 116, 101, 100], n),
        ],
        M4StepView::FetchUrl { .. } => seq![
            (seq![116u8, 111, 111, 108, 95, 99, 97, 108, 108, 95, 114, 101, 113, 117, 101, 115, 116, 101, 100], n, tool + one(seq![117u8, 114, 108], t.tool_arg1)),
            (seq![116u8, 111, 111, 108, 95, 99, 97, 108, 108, 95, 115, 116, 97, 114, 116, 101, 100], n, tool + one(seq![117u8, 114, 108], t.tool_arg1)),
        ],
        M4StepView::PostUrl { .. } => seq![
            (seq![116u8, 111, 111, 108, 95, 99, 97, 108, 108, 95, 114, 101, 113, 117, 101, 115, 116, 101, 100], n, tool + two(seq![117u8, 114, 108], t.tool_arg1, seq![106u8, 115, 111, 110], t.tool_arg2)),
            (seq![116u8, 111, 111, 108, 95, 99, 97, 108, 108, 95, 115, 116, 97, 114, 116, 101, 100], n, tool + two(seq![117u8, 114, 108], t.tool_arg1, seq![106u8, 115, 111, 110], t.tool_arg2)),
        ],
        M4StepView::PostTweet { .. } => seq![
            (seq![116u8, 111, 111, 108, 95, 99, 97, 108, 108, 95, 114, 101, 113, 117, 101, 115, 116, 101, 100], n, tool + one(seq![116u8, 101, 120, 116], t.tool_arg1)),
            (seq![116u8, 111, 111, 108, 95, 99, 97, 108, 108, 95, 115, 116, 97, 114, 116, 101, 100], n, tool + one(seq![116u8, 101, 120, 116], t.tool_arg1)),
        ],
        M4StepView::Finish { terminal, .. } => match terminal {
            M4Terminal::Completed => seq![
                plain_ev(seq![97u8, 115, 115, 105, 115, 116, 97, 110, 116, 95, 114, 101, 115, 112, 111, 110, 115, 101, 95, 114, 101, 110, 100, 101, 114, 101, 100], n),
                (seq![108u8, 111, 111, 112, 95, 115, 116, 111, 112, 112, 101, 100], n, str_member(seq![115u8, 116, 111, 112, 95, 114, 101, 97, 115, 111, 110], seq![102u8, 105, 110, 97, 108, 95, 114, 101, 115, 112, 111, 110, 115, 101])),
            ],
            M4Terminal::Refused => seq![
                plain_ev(seq![97u8, 115, 115, 105, 115, 116, 97, 110, 116, 95, 114, 101, 115, 112, 111, 110, 115, 101, 95, 114, 101, 110, 100, 101, 114, 101, 100], n),
                (seq![108u8, 111, 111, 112, 95, 115, 116, 111, 112, 112, 101, 100], n, str_member(seq![115u8, 116, 111, 112, 95, 114, 101, 97, 115, 111, 110], seq![117u8, 110, 115, 117, 112, 112, 111, 114, 116, 101, 100])),
            ],
            M4Terminal::Failed => seq![(seq![108u8, 111, 111, 112, 95, 115, 116, 111, 112, 112, 101, 100], n, str_member(seq![115u8, 116, 111, 112, 95, 114, 101, 97, 115, 111, 110], seq![101u8, 114, 114, 111, 114]))],
        },
        _ => Seq::empty(),
    }
}

/// `,"arguments":{"name":"value"}`.
fn args_field1(name: &[u8], v: &[u8]) -> (r: TraceField)
    ensures
        field_text(r) == seq![44u8, 34, 97, 114, 103, 117, 109, 101, 110, 116, 115, 34, 58, 123] + arg_text(name@, v@) + seq![125u8],
{
    let mut p: Vec<(Vec<u8>, Vec<u8>)> = Vec::new();
    p.push((dup(name), dup(v)));
    let r = TraceField { name: dup(&[97u8, 114, 103, 117, 109, 101, 110, 116, 115]), value: TraceValue::Args(p) };
    proof {
        reveal_with_fuel(args_from, 2);
        assert(args_from(p@, 0) =~= arg_text(name@, v@));
        assert(field_text(r) =~= seq![44u8, 34, 97, 114, 103, 117, 109, 101, 110, 116, 115, 34, 58, 123] + arg_text(name@, v@) + seq![125u8]);
    }
    r
}

/// `,"arguments":{"a":"v","b":"w"}`.
fn args_field2(a: &[u8], v: &[u8], b: &[u8], w: &[u8]) -> (r: TraceField)
    ensures
        field_text(r) == seq![44u8, 34, 97, 114, 103, 117, 109, 101, 110, 116, 115, 34, 58, 123] + arg_text(a@, v@) + seq![44u8] + arg_text(b@, w@) + seq![125u8],
{
    let mut p: Vec<(Vec<u8>, Vec<u8>)> = Vec::new();
    p.push((dup(a), dup(v)));
    p.push((dup(b), dup(w)));
    let r = TraceField { name: dup(&[97u8, 114, 103, 117, 109, 101, 110, 116, 115]), value: TraceValue::Args(p) };
    proof {
        reveal_with_fuel(args_from, 3);
        assert(args_from(p@, 0) =~= arg_text(a@, v@) + seq![44u8] + arg_text(b@, w@));
        assert(field_text(r) =~= seq![44u8, 34, 97, 114, 103, 117, 109, 101, 110, 116, 115, 34, 58, 123] + arg_text(a@, v@) + seq![44u8] + arg_text(b@, w@) + seq![125u8]);
    }
    r
}

fn push_tool_pair(out: &mut Vec<TraceEvent>, step: u8, tool: &[u8], name: &[u8], arg: &[u8])
    ensures
        evs(final(out)@) == evs(old(out)@) + seq![
            (seq![116u8, 111, 111, 108, 95, 99, 97, 108, 108, 95, 114, 101, 113, 117, 101, 115, 116, 101, 100], step, str_member(seq![116u8, 111, 111, 108], tool@) + (seq![44u8, 34, 97, 114, 103, 117, 109, 101, 110, 116, 115, 34, 58, 123] + arg_text(name@, arg@) + seq![125u8])),
            (seq![116u8, 111, 111, 108, 95, 99, 97, 108, 108, 95, 115, 116, 97, 114, 116, 101, 100], step, str_member(seq![116u8, 111, 111, 108], tool@) + (seq![44u8, 34, 97, 114, 103, 117, 109, 101, 110, 116, 115, 34, 58, 123] + arg_text(name@, arg@) + seq![125u8])),
        ],
{
    let ghost before = evs(out@);
    push_two(out, &[116u8, 111, 111, 108, 95, 99, 97, 108, 108, 95, 114, 101, 113, 117, 101, 115, 116, 101, 100], step, str_field(&[116u8, 111, 111, 108], tool), args_field1(name, arg));
    push_two(out, &[116u8, 111, 111, 108, 95, 99, 97, 108, 108, 95, 115, 116, 97, 114, 116, 101, 100], step, str_field(&[116u8, 111, 111, 108], tool), args_field1(name, arg));
    assert(evs(out@) =~= before + seq![
        (seq![116u8, 111, 111, 108, 95, 99, 97, 108, 108, 95, 114, 101, 113, 117, 101, 115, 116, 101, 100], step, str_member(seq![116u8, 111, 111, 108], tool@) + (seq![44u8, 34, 97, 114, 103, 117, 109, 101, 110, 116, 115, 34, 58, 123] + arg_text(name@, arg@) + seq![125u8])),
        (seq![116u8, 111, 111, 108, 95, 99, 97, 108, 108, 95, 115, 116, 97, 114, 116, 101, 100], step, str_member(seq![116u8, 111, 111, 108], tool@) + (seq![44u8, 34, 97, 114, 103, 117, 109, 101, 110, 116, 115, 34, 58, 123] + arg_text(name@, arg@) + seq![125u8])),
    ]);
}

fn push_model_start(out: &mut Vec<TraceEvent>, step: u8, body_len: u64)
    ensures
        evs(final(out)@) == evs(old(out)@) + seq![
            (seq![109u8, 111, 100, 101, 108, 95, 114, 101, 113, 117, 101, 115, 116, 95, 98, 117, 105, 108, 116], step, u64_member(seq![98u8, 111, 100, 121, 95, 108, 101, 110], body_len as nat)),
            plain_ev(seq![109u8, 111, 100, 101, 108, 95, 116, 117, 114, 110, 95, 115, 116, 97, 114, 116, 101, 100], step),
        ],
{
    let ghost before = evs(out@);
    push_one(out, &[109u8, 111, 100, 101, 108, 95, 114, 101, 113, 117, 101, 115, 116, 95, 98, 117, 105, 108, 116], step, u64_field(&[98u8, 111, 100, 121, 95, 108, 101, 110], body_len));
    push_plain(out, &[109u8, 111, 100, 101, 108, 95, 116, 117, 114, 110, 95, 115, 116, 97, 114, 116, 101, 100], step);
    assert(evs(out@) =~= before + seq![
        (seq![109u8, 111, 100, 101, 108, 95, 114, 101, 113, 117, 101, 115, 116, 95, 98, 117, 105, 108, 116], step, u64_member(seq![98u8, 111, 100, 121, 95, 108, 101, 110], body_len as nat)),
        plain_ev(seq![109u8, 111, 100, 101, 108, 95, 116, 117, 114, 110, 95, 115, 116, 97, 114, 116, 101, 100], step),
    ]);
}

impl crate::turn_state::M4Turn {
    /// The trace events of `step`, which this turn (as the step left it) just returned
    /// (see `m4_step_traces`).
    pub fn step_trace_events(&self, step: &crate::turn_state::M4Step, summary_body_len: usize) -> (r: Vec<TraceEvent>)
        ensures
            evs(r@) == m4_step_traces(self@, step@, summary_body_len as nat),
    {
        let mut out: Vec<TraceEvent> = Vec::new();
        let ghost empty = evs(out@);
        assert(empty =~= Seq::<(Seq<u8>, u8, Seq<u8>)>::empty());
        let n = self.loop_step;
        match step {
            crate::turn_state::M4Step::StartModel { body, .. } => {
                push_model_start(&mut out, n, body.len() as u64);
            },
            crate::turn_state::M4Step::StartSummary { .. } => {
                push_model_start(&mut out, n, summary_body_len as u64);
            },
            crate::turn_state::M4Step::FetchUrl { .. } => {
                push_tool_pair(&mut out, n, self.tool_name.as_slice(), &[117u8, 114, 108], self.tool_arg1.as_slice());
            },
            crate::turn_state::M4Step::PostUrl { .. } => {
                let (u, j) = (self.tool_arg1.as_slice(), self.tool_arg2.as_slice());
                push_two(&mut out, &[116u8, 111, 111, 108, 95, 99, 97, 108, 108, 95, 114, 101, 113, 117, 101, 115, 116, 101, 100], n, str_field(&[116u8, 111, 111, 108], self.tool_name.as_slice()), args_field2(&[117u8, 114, 108], u, &[106u8, 115, 111, 110], j));
                push_two(&mut out, &[116u8, 111, 111, 108, 95, 99, 97, 108, 108, 95, 115, 116, 97, 114, 116, 101, 100], n, str_field(&[116u8, 111, 111, 108], self.tool_name.as_slice()), args_field2(&[117u8, 114, 108], u, &[106u8, 115, 111, 110], j));
            },
            crate::turn_state::M4Step::PostTweet { .. } => {
                push_tool_pair(&mut out, n, self.tool_name.as_slice(), &[116u8, 101, 120, 116], self.tool_arg1.as_slice());
            },
            crate::turn_state::M4Step::Finish { terminal, .. } => match terminal {
                M4Terminal::Completed => {
                    push_plain(&mut out, &[97u8, 115, 115, 105, 115, 116, 97, 110, 116, 95, 114, 101, 115, 112, 111, 110, 115, 101, 95, 114, 101, 110, 100, 101, 114, 101, 100], n);
                    push_one(&mut out, &[108u8, 111, 111, 112, 95, 115, 116, 111, 112, 112, 101, 100], n, str_field(&[115u8, 116, 111, 112, 95, 114, 101, 97, 115, 111, 110], &[102u8, 105, 110, 97, 108, 95, 114, 101, 115, 112, 111, 110, 115, 101]));
                },
                M4Terminal::Refused => {
                    push_plain(&mut out, &[97u8, 115, 115, 105, 115, 116, 97, 110, 116, 95, 114, 101, 115, 112, 111, 110, 115, 101, 95, 114, 101, 110, 100, 101, 114, 101, 100], n);
                    push_one(&mut out, &[108u8, 111, 111, 112, 95, 115, 116, 111, 112, 112, 101, 100], n, str_field(&[115u8, 116, 111, 112, 95, 114, 101, 97, 115, 111, 110], &[117u8, 110, 115, 117, 112, 112, 111, 114, 116, 101, 100]));
                },
                M4Terminal::Failed => {
                    push_one(&mut out, &[108u8, 111, 111, 112, 95, 115, 116, 111, 112, 112, 101, 100], n, str_field(&[115u8, 116, 111, 112, 95, 114, 101, 97, 115, 111, 110], &[101u8, 114, 114, 111, 114]));
                },
            },
            _ => {},
        }
        assert(evs(out@) =~= m4_step_traces(self@, step@, summary_body_len as nat));
        out
    }
}


/// The event of a line that a session turn took up: `user_turn_received` at step 0,
/// unless the line was not for a turn or another task was running.
pub open spec fn turn_start_traces(st: M4StepView) -> Seq<(Seq<u8>, u8, Seq<u8>)> {
    match st {
        M4StepView::NotHandled | M4StepView::Busy => Seq::empty(),
        _ => seq![plain_ev(seq![117u8, 115, 101, 114, 95, 116, 117, 114, 110, 95, 114, 101, 99, 101, 105, 118, 101, 100], 0)],
    }
}

/// The trace events of a line handed to a session turn whose first step is `step` (see
/// `turn_start_traces`); those of the step itself follow (see `m4_step_traces`).
pub fn turn_start_trace_events(step: &crate::turn_state::M4Step) -> (r: Vec<TraceEvent>)
    ensures
        evs(r@) == turn_start_traces(step@),
{
    let mut out: Vec<TraceEvent> = Vec::new();
    assert(evs(out@) =~= Seq::<(Seq<u8>, u8, Seq<u8>)>::empty());
    match step {
        crate::turn_state::M4Step::NotHandled | crate::turn_state::M4Step::Busy => {},
        _ => {
            push_plain(&mut out, &[117u8, 115, 101, 114, 95, 116, 117, 114, 110, 95, 114, 101, 99, 101, 105, 118, 101, 100], 0);
            assert(evs(out@) =~= turn_start_traces(step@));
        },
    }
    out
}


/// The event that ends a task: `goal_completed` (status `ok`), `goal_refused` (status
/// `refused`), or `goal_failed` (status `error`) for any other end, at the step the task
/// ended on.
pub open spec fn agent_step_traces(st: crate::agent_task::AgentStepView) -> Seq<(Seq<u8>, u8, Seq<u8>)> {
    match st {
        crate::agent_task::AgentStepView::Finish { step, event, .. } => match event {
            crate::agent_task::AgentTerminal::Completed => seq![(seq![103u8, 111, 97, 108, 95, 99, 111, 109, 112, 108, 101, 116, 101, 100], step, raw_member(seq![115u8, 116, 97, 116, 117, 115], seq![111u8, 107]))],
            crate::agent_task::AgentTerminal::Refused => seq![(seq![103u8, 111, 97, 108, 95, 114, 101, 102, 117, 115, 101, 100], step, raw_member(seq![115u8, 116, 97, 116, 117, 115], seq![114u8, 101, 102, 117, 115, 101, 100]))],
            _ => seq![(seq![103u8, 111, 97, 108, 95, 102, 97, 105, 108, 101, 100], step, raw_member(seq![115u8, 116, 97, 116, 117, 115], seq![101u8, 114, 114, 111, 114]))],
        },
        _ => Seq::empty(),
    }
}

/// The trace events of a task step (see `agent_step_traces`).
pub fn agent_step_trace_events(step: &crate::agent_task::AgentStep) -> (r: Vec<TraceEvent>)
    ensures
        evs(r@) == agent_step_traces(step@),
{
    let mut out: Vec<TraceEvent> = Vec::new();
    assert(evs(out@) =~= Seq::<(Seq<u8>, u8, Seq<u8>)>::empty());
    match step {
        crate::agent_task::AgentStep::Finish { step: n, event, .. } => {
            match event {
                crate::agent_task::AgentTerminal::Completed => {
                    push_one(&mut out, &[103u8, 111, 97, 108, 95, 99, 111, 109, 112, 108, 101, 116, 101, 100], *n, raw_field(&[115u8, 116, 97, 116, 117, 115], &[111u8, 107]));
                },
                crate::agent_task::AgentTerminal::Refused => {
                    push_one(&mut out, &[103u8, 111, 97, 108, 95, 114, 101, 102, 117, 115, 101, 100], *n, raw_field(&[115u8, 116, 97, 116, 117, 115], &[114u8, 101, 102, 117, 115, 101, 100]));
                },
                _ => {
                    push_one(&mut out, &[103u8, 111, 97, 108, 95, 102, 97, 105, 108, 101, 100], *n, raw_field(&[115u8, 116, 97, 116, 117, 115], &[101u8, 114, 114, 111, 114]));
                },
            }
            assert(evs(out@) =~= agent_step_traces(step@));
        },
        _ => {},
    }
    out
}


// ---------------------------------------------------------------------------
// The events of a task line
// ---------------------------------------------------------------------------

/// What a JSON task line starts (see `sp_task_line`): nothing, a `fetch_summarize_post`
/// task (`true`), or an `agent_task` (`false`) under its own policy and step budget; with
/// the source and sink URLs.
#[verifier::opaque]
pub open spec fn task_line_start(line: Seq<u8>, len: int, busy: bool) -> Option<(bool, Seq<u8>, int, Seq<u8>, Seq<u8>)> {
    if len == 0 || line[0] != 123 || busy {
        None
    } else {
        match crate::agent_task::task_field(line, len, seq![107u8, 105, 110, 100], crate::agent_task::AGENT_TASK_KIND_MAX as int) {
            None => None,
            Some(kind) => {
                let m0 = kind == seq![102u8, 101, 116, 99, 104, 95, 115, 117, 109, 109, 97, 114, 105, 122, 101, 95, 112, 111, 115, 116];
                let m1 = kind == seq![97u8, 103, 101, 110, 116, 95, 116, 97, 115, 107];
                match (
                    crate::agent_task::task_field(line, len, seq![103u8, 111, 97, 108, 95, 105, 100], crate::agent_task::AGENT_GOAL_ID_MAX as int),
                    crate::agent_task::task_field(line, len, seq![115u8, 111, 117, 114, 99, 101, 95, 117, 114, 108], crate::agent_task::AGENT_URL_BUF_MAX as int),
                    crate::agent_task::task_field(line, len, seq![115u8, 105, 110, 107, 95, 117, 114, 108], crate::agent_task::AGENT_URL_BUF_MAX as int),
                ) {
                    (Some(_), Some(s), Some(k)) => if m0 {
                        Some((true, Seq::empty(), 0, s, k))
                    } else if m1 && crate::agent_task::task_field(line, len, seq![109u8, 111, 100, 101, 108, 95, 117, 114, 108], crate::agent_task::AGENT_URL_BUF_MAX as int) is Some
                        && len <= crate::policy::AGENT_TASK_JSON_MAX {
                        let ms = crate::agent_task::u64_or(line, len, seq![109u8, 97, 120, 95, 115, 116, 101, 112, 115], 6);
                        Some((false, line.take(len), if ms == 0 { 6 } else { ms as usize as int }, s, k))
                    } else {
                        None
                    },
                    _ => None,
                }
            },
        }
    }
}

/// The trace events that a JSON task line emits while it starts (see `sp_task_line`):
/// none unless it starts a task; for a `fetch_summarize_post` task the receipt, the plan
/// and the fetch call; for an `agent_task` the receipt, then the plan and the policy
/// checks under the task's own policy and step budget (see `start_traces`).
pub open spec fn task_line_traces(line: Seq<u8>, len: int, busy: bool) -> Seq<(Seq<u8>, u8, Seq<u8>)> {
    let received = seq![plain_ev(seq![103u8, 111, 97, 108, 95, 114, 101, 99, 101, 105, 118, 101, 100], 0), plain_ev(seq![105u8, 110, 116, 101, 110, 116, 95, 112, 97, 114, 115, 101, 100], 0)];
    match task_line_start(line, len, busy) {
        None => Seq::empty(),
        Some((true, _, _, _, _)) => received + seq![
            plain_ev(seq![112u8, 108, 97, 110, 95, 99, 114, 101, 97, 116, 101, 100], 0),
            (seq![115u8, 107, 105, 108, 108, 95, 99, 97, 108, 108, 101, 100], 1u8, raw_member(seq![115u8, 107, 105, 108, 108], seq![102u8, 101, 116, 99, 104, 95, 117, 114, 108])),
        ],
        Some((false, task, steps, s, k)) => received + start_traces(task, steps, s, k),
    }
}

#[verifier::rlimit(40)]
fn task_line_start_exec(line: &[u8], len: usize, busy: bool) -> (r: Option<(bool, TaskPolicy, Vec<u8>, Vec<u8>)>)
    requires
        len <= line.len(),
    ensures
        match (r, task_line_start(line@, len as int, busy)) {
            (None, None) => true,
            (Some((m0, p, s, k)), Some((m0s, task, steps, ss, ks))) => m0 == m0s && s@ == ss && k@ == ks && (!m0
                ==> p.task() == task && p.max_steps == steps),
            _ => false,
        },
{
    reveal(task_line_start);
    if len == 0 || line[0] != 123u8 || busy {
        return None;
    }
    let kind = match crate::agent_task::field(line, len, &[107u8, 105, 110, 100], crate::agent_task::AGENT_TASK_KIND_MAX) {
        Some(v) => v,
        None => {
            return None;
        },
    };
    let m0 = crate::bytes::bytes_eq(kind.as_slice(), &[102u8, 101, 116, 99, 104, 95, 115, 117, 109, 109, 97, 114, 105, 122, 101, 95, 112, 111, 115, 116]);
    let m1 = crate::bytes::bytes_eq(kind.as_slice(), &[97u8, 103, 101, 110, 116, 95, 116, 97, 115, 107]);
    let g = crate::agent_task::field(line, len, &[103u8, 111, 97, 108, 95, 105, 100], crate::agent_task::AGENT_GOAL_ID_MAX);
    let s = crate::agent_task::field(line, len, &[115u8, 111, 117, 114, 99, 101, 95, 117, 114, 108], crate::agent_task::AGENT_URL_BUF_MAX);
    let k = crate::agent_task::field(line, len, &[115u8, 105, 110, 107, 95, 117, 114, 108], crate::agent_task::AGENT_URL_BUF_MAX);
    if g.is_none() || s.is_none() || k.is_none() {
        return None;
    }
    let s = s.unwrap();
    let k = k.unwrap();
    if m0 {
        return Some((true, TaskPolicy::new(), s, k));
    }
    if !m1 || crate::agent_task::field(line, len, &[109u8, 111, 100, 101, 108, 95, 117, 114, 108], crate::agent_task::AGENT_URL_BUF_MAX).is_none() {
        return None;
    }
    let mut policy = TaskPolicy::new();
    if !policy.agent_store_task_json(line, len) {
        return None;
    }
    let ms = crate::agent_task::u64_or_local(line, len, &[109u8, 97, 120, 95, 115, 116, 101, 112, 115], 6);
    policy.max_steps = if ms == 0 {
        6
    } else {
        ms as usize
    };
    Some((false, policy, s, k))
}

/// The trace events of a task line (see `task_line_traces`); a console with tracing on
/// writes them when it hands the line to the agent.
pub fn task_line_trace_events(line: &[u8], len: usize, busy: bool) -> (r: Vec<TraceEvent>)
    requires
        len <= line.len(),
    ensures
        evs(r@) == task_line_traces(line@, len as int, busy),
{
    let mut out: Vec<TraceEvent> = Vec::new();
    assert(evs(out@) =~= Seq::<(Seq<u8>, u8, Seq<u8>)>::empty());
    match task_line_start_exec(line, len, busy) {
        None => {},
        Some((true, _, _, _)) => {
            push_plain(&mut out, &[103u8, 111, 97, 108, 95, 114, 101, 99, 101, 105, 118, 101, 100], 0);
            push_plain(&mut out, &[105u8, 110, 116, 101, 110, 116, 95, 112, 97, 114, 115, 101, 100], 0);
            push_plain(&mut out, &[112u8, 108, 97, 110, 95, 99, 114, 101, 97, 116, 101, 100], 0);
            push_one(&mut out, &[115u8, 107, 105, 108, 108, 95, 99, 97, 108, 108, 101, 100], 1, raw_field(&[115u8, 107, 105, 108, 108], &[102u8, 101, 116, 99, 104, 95, 117, 114, 108]));
        },
        Some((false, policy, s, k)) => {
            push_plain(&mut out, &[103u8, 111, 97, 108, 95, 114, 101, 99, 101, 105, 118, 101, 100], 0);
            push_plain(&mut out, &[105u8, 110, 116, 101, 110, 116, 95, 112, 97, 114, 115, 101, 100], 0);
            push_start(&mut out, &policy, s.as_slice(), k.as_slice());
        },
    }
    assert(evs(out@) =~= task_line_traces(line@, len as int, busy));
    out
}

} // verus!

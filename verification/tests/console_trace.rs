use lib::agent_task::AgentMode;
use lib::agent_task::AgentStep;
use lib::agent_task::AgentTask;
use lib::agent_task::AgentTerminal;
use lib::console::apply_console_command;
use lib::console::parse_uart_command;
use lib::console::unknown_command_reply;
use lib::console::status_display;
use lib::console::ConsoleSettings;
use lib::console::SimpleCommand;
use lib::console::StatusDisplay;
use lib::console::UartCommand;
use lib::fetch::plan_body_chunks;
use lib::http::http_parse_headers;
use lib::oauth::OauthClock;
use lib::openai::ApiKeyStore;
use lib::session::Session;
use lib::turn::SessionCommand;
use lib::trace::agent_step_trace_events;
use lib::trace::goal_line_trace_events;
use lib::trace::task_line_trace_events;
use lib::trace::turn_start_trace_events;
use lib::turn_state::M4Step;
use lib::turn_state::M4Terminal;
use lib::turn_state::M4Turn;
use lib::trace::trace_event_line;
use lib::trace::TraceEvent;
use lib::trace::TraceField;
use lib::trace::TraceValue;
use lib::virtio::device_feature_reads;
use lib::virtio::read_device_features;
use lib::virtio::MmioAccess;
use lib::virtio::MMIO_DEVICE_FEATURES;
use lib::virtio::MMIO_DEVICE_FEATURES_SEL;

const README_GOAL: &[u8] = b"Fetch http://10.0.2.2:8082/source and summarize it in three bullet points.";

fn field(name: &[u8], value: TraceValue) -> TraceField {
    TraceField { name: name.to_vec(), value }
}

fn names(events: &[TraceEvent]) -> Vec<Vec<u8>> {
    events.iter().map(|e| e.event.clone()).collect()
}

#[test]
fn readme_fetch_goal_runs_local_summary() {
    let cmd = parse_uart_command(README_GOAL, README_GOAL.len());
    let goal = match cmd {
        UartCommand::Goal(g) => g,
        _ => panic!("the fetch goal is not read as a goal"),
    };
    assert_eq!(goal, README_GOAL.to_vec());
    let mut agent = AgentTask::new();
    let step = agent.handle_goal_line(&goal, goal.len(), false, false);
    match step {
        AgentStep::Fetch { url } => assert_eq!(url, b"http://10.0.2.2:8082/source".to_vec()),
        _ => panic!("the fetch goal does not start a fetch"),
    }
    assert!(agent.mode == AgentMode::LocalGoal);
    assert_eq!(agent.source_url, b"http://10.0.2.2:8082/source".to_vec());
    assert!(agent.sink_url.is_empty());
    assert!(agent.model_url.is_empty());
    assert_eq!(agent.summary_sentences, 3);
}

#[test]
fn other_lines_keep_their_routing() {
    match parse_uart_command(b"goal summarize the news", 23) {
        UartCommand::Goal(g) => assert_eq!(g, b"summarize the news".to_vec()),
        _ => panic!("goal prefix"),
    }
    assert!(matches!(parse_uart_command(b"fetch the weather please", 24), UartCommand::Other));
    assert!(matches!(parse_uart_command(b"what is in the workspace", 24), UartCommand::Other));
}

#[test]
fn trace_line_format() {
    let fields = vec![
        field(b"text", TraceValue::Str(b"a\"b\\c\nd\x01".to_vec())),
        field(b"skill", TraceValue::Raw(b"fetch_url".to_vec())),
        field(b"record_hex", TraceValue::Hex(vec![0x00, 0xab, 0x7f])),
        field(b"len", TraceValue::U64(42)),
        field(b"ret", TraceValue::I64(-17)),
        field(b"low", TraceValue::I64(i64::MIN)),
        field(b"pending", TraceValue::Bool(true)),
        field(b"proxy", TraceValue::Bool(false)),
    ];
    let line = trace_event_line(b"tls_io_failure", 1234, 2, &fields);
    let expected: &[u8] = b"TRACE {\"event\":\"tls_io_failure\",\"ts_ms\":1234,\"step\":2,\"text\":\"a\\\"b\\\\c\\nd\\u0001\",\"skill\":\"fetch_url\",\"record_hex\":\"00ab7f\",\"len\":42,\"ret\":-17,\"low\":-9223372036854775808,\"pending\":true,\"proxy\":false}\n";
    assert_eq!(line, expected.to_vec());
    assert_eq!(trace_event_line(b"plan_created", 0, 0, &[]), b"TRACE {\"event\":\"plan_created\",\"ts_ms\":0,\"step\":0}\n".to_vec());
}

#[test]
fn readme_goal_trace_events() {
    let events = goal_line_trace_events(README_GOAL, README_GOAL.len(), false);
    assert_eq!(
        names(&events),
        vec![
            b"goal_received".to_vec(),
            b"goal_text_received".to_vec(),
            b"goal_compilation_started".to_vec(),
            b"goal_compiled".to_vec(),
            b"plan_created".to_vec(),
            b"policy_checked".to_vec(),
            b"skill_called".to_vec(),
        ]
    );
    assert_eq!(events[3].line(5), b"TRACE {\"event\":\"goal_compiled\",\"ts_ms\":5,\"step\":0,\"kind\":\"agent_task\"}\n".to_vec());
    assert_eq!(
        events[5].line(6),
        b"TRACE {\"event\":\"policy_checked\",\"ts_ms\":6,\"step\":1,\"skill\":\"fetch_url\",\"status\":\"ok\"}\n".to_vec()
    );
    assert_eq!(
        events[6].line(7),
        b"TRACE {\"event\":\"skill_called\",\"ts_ms\":7,\"step\":1,\"skill\":\"fetch_url\"}\n".to_vec()
    );
}

#[test]
fn goal_trace_events_of_other_goals() {
    let events = goal_line_trace_events(b"summarize the news", 18, false);
    assert_eq!(
        names(&events),
        vec![
            b"goal_received".to_vec(),
            b"goal_text_received".to_vec(),
            b"agent_loop_started".to_vec(),
            b"model_interpretation_started".to_vec(),
        ]
    );
    let fallback = goal_line_trace_events(b"fetch the weather please", 24, false);
    assert_eq!(fallback.len(), 8);
    assert_eq!(
        fallback[3].line(1),
        b"TRACE {\"event\":\"goal_compilation_fallback\",\"ts_ms\":1,\"step\":0,\"reason\":\"unsupported goal\"}\n".to_vec()
    );
    let denied = goal_line_trace_events(b"fetch http://example.com/x and summarize it", 43, false);
    assert_eq!(
        names(&denied)[5..].to_vec(),
        vec![b"policy_checked".to_vec(), b"skill_denied".to_vec()]
    );
    assert_eq!(
        denied[6].line(0),
        b"TRACE {\"event\":\"skill_denied\",\"ts_ms\":0,\"step\":1,\"skill\":\"fetch_url\",\"reason\":\"host denied by policy\"}\n".to_vec()
    );
    assert!(goal_line_trace_events(README_GOAL, README_GOAL.len(), true).is_empty());
    assert!(goal_line_trace_events(README_GOAL, 0, false).is_empty());
}

fn run(s: ConsoleSettings, cmd: &UartCommand, keys: &mut ApiKeyStore, session: &mut Session) -> (ConsoleSettings, Vec<u8>) {
    apply_console_command(s, cmd, keys, session, false, false)
}

#[test]
fn console_settings_commands() {
    let mut keys = ApiKeyStore::new();
    let mut session = Session::new();
    let s = ConsoleSettings::new();
    assert!(!s.trace && !s.debug && s.status_inline);
    assert!(status_display(s) == StatusDisplay::Inline);
    let (s, reply) = run(s, &UartCommand::Simple(SimpleCommand::TraceOn), &mut keys, &mut session);
    assert!(s.trace);
    assert_eq!(reply, b"trace on\n".to_vec());
    assert!(status_display(s) == StatusDisplay::Hidden);
    let (s, reply) = run(s, &UartCommand::Simple(SimpleCommand::TraceStatus), &mut keys, &mut session);
    assert!(s.trace);
    assert_eq!(reply, b"trace on\n".to_vec());
    let (s, reply) = run(s, &UartCommand::Simple(SimpleCommand::TraceOff), &mut keys, &mut session);
    assert!(!s.trace);
    assert_eq!(reply, b"trace off\n".to_vec());
    let (s, reply) = run(s, &UartCommand::Simple(SimpleCommand::DebugOn), &mut keys, &mut session);
    assert!(s.debug);
    assert_eq!(reply, b"debug on\n".to_vec());
    assert!(status_display(s) == StatusDisplay::Line);
    let (s, reply) = run(s, &UartCommand::Simple(SimpleCommand::StatusPlain), &mut keys, &mut session);
    assert!(!s.status_inline);
    assert_eq!(reply, b"status plain\n".to_vec());
    let (s, reply) = run(s, &UartCommand::Simple(SimpleCommand::StatusQuery), &mut keys, &mut session);
    assert_eq!(reply, b"status plain\n".to_vec());
    let (_, reply) = run(s, &UartCommand::Simple(SimpleCommand::OpenaiStatus), &mut keys, &mut session);
    assert_eq!(reply, b"openai key missing\n".to_vec());
    let (s2, reply) = run(s, &UartCommand::SetTime(1700000000), &mut keys, &mut session);
    assert!(s2 == s);
    assert_eq!(reply, b"time set\n".to_vec());
    let (s3, reply) = run(s, &UartCommand::Other, &mut keys, &mut session);
    assert!(s3 == s);
    assert!(reply.is_empty());
    assert_eq!(unknown_command_reply(5), b"unknown command\n".to_vec());
    assert!(unknown_command_reply(0).is_empty());
}

#[test]
fn openai_key_command_stores_and_replies() {
    let mut keys = ApiKeyStore::new();
    let mut session = Session::new();
    let s = ConsoleSettings::new();
    let line: &[u8] = b"openai-key   sk-test";
    let cmd = parse_uart_command(line, line.len());
    let (_, reply) = run(s, &cmd, &mut keys, &mut session);
    assert_eq!(reply, b"openai key stored\n".to_vec());
    assert!(keys.api_key_ready());
    assert_eq!(keys.build_bearer_header(128), b"Authorization: Bearer sk-test\r\n".to_vec());
    let (_, reply) = run(s, &UartCommand::Simple(SimpleCommand::OpenaiStatus), &mut keys, &mut session);
    assert_eq!(reply, b"openai key ready\n".to_vec());
    let (_, reply) = run(s, &UartCommand::OpenaiKey(b"bad\rkey".to_vec()), &mut keys, &mut session);
    assert_eq!(reply, b"openai key rejected\n".to_vec());
    let (_, reply) = run(s, &UartCommand::Simple(SimpleCommand::OpenaiClear), &mut keys, &mut session);
    assert_eq!(reply, b"openai key cleared\n".to_vec());
    assert!(!keys.api_key_ready());
}

#[test]
fn session_and_transfer_command_replies() {
    let mut keys = ApiKeyStore::new();
    let mut session = Session::new();
    let s = ConsoleSettings::new();
    let (_, reply) = run(s, &UartCommand::Session(SessionCommand::Status), &mut keys, &mut session);
    assert_eq!(reply, b"session active\nhistory bytes: 0\n".to_vec());
    session.append_user_turn(b"hi");
    let (_, reply) = run(s, &UartCommand::Session(SessionCommand::Status), &mut keys, &mut session);
    assert_eq!(reply, b"session active\nhistory bytes: 9\n".to_vec());
    let (_, reply) = run(s, &UartCommand::Session(SessionCommand::Reset), &mut keys, &mut session);
    assert_eq!(reply, b"session reset\n".to_vec());
    assert_eq!(session.history_len(), 0);
    let (_, reply) = run(s, &UartCommand::Simple(SimpleCommand::Sync), &mut keys, &mut session);
    assert_eq!(reply, b"syncing...\n".to_vec());
    let fetch = parse_uart_command(b"http://example.com/x", 20);
    let (_, reply) = run(s, &fetch, &mut keys, &mut session);
    assert_eq!(reply, b"fetching example.com/x\n".to_vec());
    let (_, busy) = apply_console_command(s, &fetch, &mut keys, &mut session, true, false);
    assert_eq!(busy, b"busy\n".to_vec());
    let post = parse_uart_command(b"post http://example.com/sink hello", 34);
    let (_, reply) = run(s, &post, &mut keys, &mut session);
    assert_eq!(reply, b"post example.com\n".to_vec());
    let (_, reply) = run(s, &UartCommand::Tweet(b"hi".to_vec()), &mut keys, &mut session);
    assert_eq!(reply, b"tweet setup failed\n".to_vec());
}

#[test]
fn device_feature_access_sequence() {
    assert_eq!(
        device_feature_reads(true),
        vec![
            MmioAccess::Write(MMIO_DEVICE_FEATURES_SEL, 0),
            MmioAccess::Read(MMIO_DEVICE_FEATURES),
            MmioAccess::Write(MMIO_DEVICE_FEATURES_SEL, 1),
            MmioAccess::Read(MMIO_DEVICE_FEATURES),
        ]
    );
    assert_eq!(device_feature_reads(false), vec![MmioAccess::Read(MMIO_DEVICE_FEATURES)]);
    assert_eq!(read_device_features(0x20, 0x1, true), 0x1_0000_0020);
}

#[test]
fn escape_then_extract_gives_text_back() {
    let text: &[u8] = "say \"hi\"\\ \n\t\r \u{1} ünïcode ✓ 😀".as_bytes();
    let mut escaped: Vec<u8> = Vec::new();
    lib::json::json_escape_append(&mut escaped, 6 * text.len(), text);
    let mut doc: Vec<u8> = b"{\"k\":\"".to_vec();
    doc.extend_from_slice(&escaped);
    doc.extend_from_slice(b"\"}");
    assert_eq!(lib::json::json_extract_string(&doc, doc.len(), b"k", text.len()), Some(text.to_vec()));
}

#[test]
fn allocations_never_overlap() {
    let heap = 0x10_0000usize;
    let mut a = lib::allocator::BumpAllocator::new();
    let mut taken: Vec<(usize, usize)> = Vec::new();
    for (size, align) in [(3usize, 1usize), (16, 16), (1, 8), (100, 64), (0, 4), (7, 2)] {
        let p = a.allocate(heap, size, align).unwrap();
        assert_eq!(p % align, 0);
        assert!(p >= heap && p + size <= heap + lib::allocator::HEAP_SIZE);
        for &(q, n) in &taken {
            assert!(q + n <= p);
        }
        taken.push((p, size));
    }
    assert!(a.allocate(heap, lib::allocator::HEAP_SIZE, 1).is_none());
    let p = a.allocate(heap, 8, 8).unwrap();
    assert!(taken.iter().all(|&(q, n)| q + n <= p));
}

#[test]
fn session_turn_step_trace_events() {
    let mut turn = M4Turn::new();
    turn.loop_step = 2;
    turn.tool_name = b"fetch_url".to_vec();
    turn.tool_arg1 = b"http://10.0.2.2:8082/a\"b".to_vec();
    let fetch = turn.step_trace_events(&M4Step::FetchUrl { url: turn.tool_arg1.clone() }, 0);
    assert_eq!(
        fetch.iter().map(|e| e.line(9)).collect::<Vec<_>>(),
        vec![
            b"TRACE {\"event\":\"tool_call_requested\",\"ts_ms\":9,\"step\":2,\"tool\":\"fetch_url\",\"arguments\":{\"url\":\"http://10.0.2.2:8082/a\\\"b\"}}\n".to_vec(),
            b"TRACE {\"event\":\"tool_call_started\",\"ts_ms\":9,\"step\":2,\"tool\":\"fetch_url\",\"arguments\":{\"url\":\"http://10.0.2.2:8082/a\\\"b\"}}\n".to_vec(),
        ]
    );
    let model = turn.step_trace_events(&M4Step::StartModel { wait_ms: 0, backoff_ms: 0, body: vec![b'x'; 10] }, 0);
    assert_eq!(
        model.iter().map(|e| e.line(1)).collect::<Vec<_>>(),
        vec![
            b"TRACE {\"event\":\"model_request_built\",\"ts_ms\":1,\"step\":2,\"body_len\":10}\n".to_vec(),
            b"TRACE {\"event\":\"model_turn_started\",\"ts_ms\":1,\"step\":2}\n".to_vec(),
        ]
    );
    let summary = turn.step_trace_events(&M4Step::StartSummary { wait_ms: 0, backoff_ms: 0 }, 77);
    assert_eq!(summary[0].line(0), b"TRACE {\"event\":\"model_request_built\",\"ts_ms\":0,\"step\":2,\"body_len\":77}\n".to_vec());
    let done = turn.step_trace_events(
        &M4Step::Finish { terminal: M4Terminal::Completed, summary: b"ok".to_vec(), reason: Vec::new() },
        0,
    );
    assert_eq!(names(&done), vec![b"assistant_response_rendered".to_vec(), b"loop_stopped".to_vec()]);
    assert_eq!(done[1].line(3), b"TRACE {\"event\":\"loop_stopped\",\"ts_ms\":3,\"step\":2,\"stop_reason\":\"final_response\"}\n".to_vec());
    let failed = turn.step_trace_events(
        &M4Step::Finish { terminal: M4Terminal::Failed, summary: Vec::new(), reason: b"x".to_vec() },
        0,
    );
    assert_eq!(failed[0].line(3), b"TRACE {\"event\":\"loop_stopped\",\"ts_ms\":3,\"step\":2,\"stop_reason\":\"error\"}\n".to_vec());
    assert!(turn.step_trace_events(&M4Step::Busy, 0).is_empty());
    assert!(turn_start_trace_events(&M4Step::Busy).is_empty());
    assert!(turn_start_trace_events(&M4Step::NotHandled).is_empty());
    let started = turn_start_trace_events(&M4Step::StartModel { wait_ms: 0, backoff_ms: 0, body: Vec::new() });
    assert_eq!(started.len(), 1);
    assert_eq!(started[0].line(4), b"TRACE {\"event\":\"user_turn_received\",\"ts_ms\":4,\"step\":0}\n".to_vec());
}

#[test]
fn task_end_trace_events() {
    let done = agent_step_trace_events(&AgentStep::Finish { step: 3, event: AgentTerminal::Completed, print: Vec::new() });
    assert_eq!(done.len(), 1);
    assert_eq!(done[0].line(8), b"TRACE {\"event\":\"goal_completed\",\"ts_ms\":8,\"step\":3,\"status\":\"ok\"}\n".to_vec());
    let refused = agent_step_trace_events(&AgentStep::Finish { step: 1, event: AgentTerminal::Refused, print: Vec::new() });
    assert_eq!(refused[0].line(0), b"TRACE {\"event\":\"goal_refused\",\"ts_ms\":0,\"step\":1,\"status\":\"refused\"}\n".to_vec());
    let failed = agent_step_trace_events(&AgentStep::Finish { step: 2, event: AgentTerminal::Failed, print: Vec::new() });
    assert_eq!(failed[0].line(0), b"TRACE {\"event\":\"goal_failed\",\"ts_ms\":0,\"step\":2,\"status\":\"error\"}\n".to_vec());
    assert!(agent_step_trace_events(&AgentStep::Fetch { url: b"http://x/".to_vec() }).is_empty());
}

#[test]
fn task_line_trace_events_of_tasks() {
    let m0: &[u8] = b"{\"kind\":\"fetch_summarize_post\",\"goal_id\":\"g1\",\"source_url\":\"http://10.0.2.2:8082/source\",\"sink_url\":\"http://10.0.2.2:8081/sink\"}";
    assert_eq!(
        names(&task_line_trace_events(m0, m0.len(), false)),
        vec![b"goal_received".to_vec(), b"intent_parsed".to_vec(), b"plan_created".to_vec(), b"skill_called".to_vec()]
    );
    let ok: &[u8] = b"{\"kind\":\"agent_task\",\"goal_id\":\"g2\",\"source_url\":\"http://10.0.2.2:8080/s\",\"sink_url\":\"http://10.0.2.2:8081/k\",\"model_url\":\"http://10.0.2.2:8083/m\",\"allowed_hosts\":[\"10.0.2.2\"]}";
    assert_eq!(
        names(&task_line_trace_events(ok, ok.len(), false)),
        vec![
            b"goal_received".to_vec(),
            b"intent_parsed".to_vec(),
            b"plan_created".to_vec(),
            b"policy_checked".to_vec(),
            b"skill_called".to_vec(),
        ]
    );
    let bad: &[u8] = b"{\"kind\":\"agent_task\",\"goal_id\":\"g3\",\"source_url\":\"http://evil.example/s\",\"sink_url\":\"http://10.0.2.2:8081/k\",\"model_url\":\"http://10.0.2.2:8083/m\",\"allowed_hosts\":[\"10.0.2.2\"]}";
    let refused = task_line_trace_events(bad, bad.len(), false);
    assert_eq!(
        names(&refused),
        vec![
            b"goal_received".to_vec(),
            b"intent_parsed".to_vec(),
            b"plan_created".to_vec(),
            b"policy_checked".to_vec(),
            b"skill_denied".to_vec(),
            b"policy_checked".to_vec(),
            b"skill_called".to_vec(),
        ]
    );
    assert_eq!(
        refused[6].line(2),
        b"TRACE {\"event\":\"skill_called\",\"ts_ms\":2,\"step\":3,\"skill\":\"post_result\"}\n".to_vec()
    );
    assert_eq!(
        refused[5].line(2),
        b"TRACE {\"event\":\"policy_checked\",\"ts_ms\":2,\"step\":3,\"skill\":\"post_result\",\"status\":\"ok\"}\n".to_vec()
    );
    assert!(task_line_trace_events(b"{\"kind\":\"other\"}", 16, false).is_empty());
    assert!(task_line_trace_events(ok, ok.len(), true).is_empty());
    assert!(task_line_trace_events(b"hello", 5, false).is_empty());
}

#[test]
fn allocate_all_hands_out_disjoint_ranges() {
    let heap = 0x20_0000usize;
    let mut a = lib::allocator::BumpAllocator::new();
    let reqs = [(5usize, 4usize), (32, 32), (1, 1), (lib::allocator::HEAP_SIZE, 8), (9, 8)];
    let got = a.allocate_all(heap, &reqs);
    assert_eq!(got, vec![Some(heap), Some(heap + 32), Some(heap + 64), None, Some(heap + 72)]);
}

#[test]
fn body_reply_datagram_plan() {
    assert_eq!(plan_body_chunks(2000, 0, 0, 5555), vec![(0, 900, 0), (900, 900, 1), (1800, 200, 2)]);
    assert_eq!(
        plan_body_chunks(5000, 0, 7, 5555),
        vec![(0, 900, 7), (900, 900, 8), (1800, 900, 9), (2700, 900, 10), (3600, 496, 11)]
    );
    assert_eq!(plan_body_chunks(500, 4000, 65535, 5555), vec![(0, 96, 65535)]);
    assert!(plan_body_chunks(500, 4096, 0, 5555).is_empty());
    assert!(plan_body_chunks(2000, 0, 0, 0).is_empty());
}

#[test]
fn oauth_clock_follows_time_and_response_dates() {
    let mut clock = OauthClock::new();
    clock.set_oauth_time(1_700_000_000, 5_000);
    assert_eq!(clock.now(9_000, 1_000), 1_700_000_004);
    let with_date: &[u8] = b"HTTP/1.1 200 OK\r\nDate: Sun, 06 Nov 1994 08:49:37 GMT\r\n\r\n";
    let info = http_parse_headers(with_date, with_date.len());
    clock.on_response_headers(&info, 10_000);
    assert_eq!(clock.epoch_sec, 784111777);
    assert_eq!(clock.epoch_ticks, 10_000);
    let without: &[u8] = b"HTTP/1.1 200 OK\r\n\r\n";
    let info = http_parse_headers(without, without.len());
    clock.on_response_headers(&info, 20_000);
    assert_eq!(clock.epoch_sec, 784111777);
    assert_eq!(clock.epoch_ticks, 10_000);
}

#[test]
fn post_tool_trace_has_both_arguments() {
    let mut turn = M4Turn::new();
    turn.loop_step = 1;
    turn.tool_name = b"post_url".to_vec();
    turn.tool_arg1 = b"http://10.0.2.2:8081/k".to_vec();
    turn.tool_arg2 = b"{\"a\":1}".to_vec();
    let events = turn.step_trace_events(&M4Step::PostUrl { url: turn.tool_arg1.clone(), body: Vec::new() }, 0);
    assert_eq!(
        events[0].line(0),
        b"TRACE {\"event\":\"tool_call_requested\",\"ts_ms\":0,\"step\":1,\"tool\":\"post_url\",\"arguments\":{\"url\":\"http://10.0.2.2:8081/k\",\"json\":\"{\\\"a\\\":1}\"}}\n".to_vec()
    );
    assert_eq!(names(&events), vec![b"tool_call_requested".to_vec(), b"tool_call_started".to_vec()]);
}

fn body_of(parts: &[&[u8]]) -> Vec<u8> {
    let mut p = lib::http::HttpParser::new();
    let mut body: Vec<u8> = Vec::new();
    for part in parts {
        for piece in p.http_feed(part).body {
            body.extend_from_slice(&piece);
        }
    }
    body
}

#[test]
fn body_does_not_depend_on_how_it_arrives() {
    let whole: &[u8] = b"HTTP/1.1 200 OK\r\nContent-Length: 10\r\n\r\n0123456789trailing";
    let at_once = body_of(&[whole]);
    assert_eq!(at_once, b"0123456789".to_vec());
    let body_start = whole.windows(4).position(|w| w == b"\r\n\r\n").unwrap() + 4;
    for cut in body_start..whole.len() {
        assert_eq!(body_of(&[&whole[..cut], &whole[cut..]]), at_once);
    }
}

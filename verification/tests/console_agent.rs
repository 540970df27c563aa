use lib::agent_task::AgentMode;
use lib::agent_task::AgentStep;
use lib::agent_task::AgentTask;
use lib::agent_task::AgentTerminal;
use lib::agent_task::TaskLineError;
use lib::capture::Redirect;
use lib::capture::ResponseCapture;
use lib::console::build_m5_list_path;
use lib::console::build_m5_output_path;
use lib::console::build_m5_patch_body;
use lib::console::build_m5_read_path;
use lib::console::build_m5_run_python_body;
use lib::console::build_m5_write_body;
use lib::console::parse_uart_command;
use lib::console::SimpleCommand;
use lib::console::UartCommand;
use lib::turn::SessionCommand;
use lib::turn_state::FetchOutcome;

fn contains(hay: &[u8], needle: &[u8]) -> bool {
    hay.windows(needle.len()).any(|w| w == needle)
}

fn parse(line: &[u8]) -> UartCommand {
    parse_uart_command(line, line.len())
}

#[test]
fn bridge_requests() {
    assert_eq!(build_m5_list_path(b"src dir"), b"/workspace/list?path=src%20dir&depth=3".to_vec());
    assert_eq!(build_m5_read_path(b"a.txt"), b"/workspace/read?path=a.txt&offset=0&limit=1024".to_vec());
    assert_eq!(build_m5_output_path(b"p1"), b"/process/output?id=p1".to_vec());
    assert_eq!(
        build_m5_write_body(b"a.txt", b"say \"hi\"\n"),
        b"{\"path\":\"a.txt\",\"content\":\"say \\\"hi\\\"\\n\",\"create\":true,\"overwrite\":true}".to_vec()
    );
    assert_eq!(build_m5_patch_body(b"x"), b"{\"patch\":\"x\"}".to_vec());
    assert_eq!(build_m5_run_python_body(b"m.py", 30), b"{\"path\":\"m.py\",\"timeout_sec\":30}".to_vec());
}

#[test]
fn console_words() {
    assert!(matches!(parse(b"sync"), UartCommand::Simple(SimpleCommand::Sync)));
    assert!(matches!(parse(b"trace on"), UartCommand::Simple(SimpleCommand::TraceOn)));
    assert!(matches!(parse(b"time 1700000000"), UartCommand::SetTime(1700000000)));
    match parse(b"openai-key   sk-abc") {
        UartCommand::OpenaiKey(k) => assert_eq!(k, b"sk-abc".to_vec()),
        _ => panic!("expected a key"),
    }
    assert!(matches!(parse(b"session status"), UartCommand::Session(SessionCommand::Status)));
    assert!(matches!(parse(b"m5-status"), UartCommand::Simple(SimpleCommand::M5Status)));
    match parse(b"m5-read notes.md") {
        UartCommand::M5Read(p) => assert_eq!(p, b"/workspace/read?path=notes.md&offset=0&limit=1024".to_vec()),
        _ => panic!("expected a read"),
    }
    assert!(matches!(parse(b"m5-read  "), UartCommand::M5Usage(_)));
    match parse(b"tweet hello world") {
        UartCommand::Tweet(t) => assert_eq!(t, b"hello world".to_vec()),
        _ => panic!("expected a tweet"),
    }
    match parse(b"https://example.com/a?b=1") {
        UartCommand::Fetch { https, domain, path } => {
            assert!(https);
            assert_eq!(domain, b"example.com".to_vec());
            assert_eq!(path, b"/a?b=1".to_vec());
        }
        _ => panic!("expected a fetch"),
    }
    match parse(b"post http://h.example/p {\"a\":1}") {
        UartCommand::Post { https, domain, path, body } => {
            assert!(!https);
            assert_eq!(domain, b"h.example".to_vec());
            assert_eq!(path, b"/p".to_vec());
            assert_eq!(body, b"{\"a\":1}".to_vec());
        }
        _ => panic!("expected a post"),
    }
    match parse(b"goal   summarize https://x.example") {
        UartCommand::Goal(g) => assert_eq!(g, b"summarize https://x.example".to_vec()),
        _ => panic!("expected a goal"),
    }
    assert!(matches!(parse(b"hello there"), UartCommand::Other));
}

#[test]
fn task_line_errors() {
    let mut a = AgentTask::new();
    let m = |s: AgentStep| match s {
        AgentStep::Message(m) => m.to_vec(),
        _ => panic!("expected a message"),
    };
    let line = b"{\"kind\":\"other\"}";
    assert_eq!(m(a.handle_agent_task_line(line, line.len(), false)), b"unsupported task\n".to_vec());
    let line = b"{\"x\":1}";
    assert_eq!(m(a.handle_agent_task_line(line, line.len(), false)), b"invalid task\n".to_vec());
    let line = b"{\"kind\":\"fetch_summarize_post\"}";
    assert_eq!(m(a.handle_agent_task_line(line, line.len(), false)), b"missing goal_id\n".to_vec());
    let line = b"{\"kind\":\"fetch_summarize_post\",\"goal_id\":\"g\",\"source_url\":\"http://a/\"}";
    assert_eq!(m(a.handle_agent_task_line(line, line.len(), false)), b"missing sink_url\n".to_vec());
    assert_eq!(m(a.handle_agent_task_line(line, line.len(), true)), b"busy\n".to_vec());
    assert!(matches!(a.handle_agent_task_line(b"hello", 5, false), AgentStep::NotHandled));
    assert_eq!(TaskLineError::TooLarge.message(), b"task too large\n");
    assert!(!a.active);
}

#[test]
fn summarize_task_fetches_then_posts() {
    let mut a = AgentTask::new();
    let line = b"{\"kind\":\"fetch_summarize_post\",\"goal_id\":\"g1\",\"source_url\":\"http://a.example/src\",\"sink_url\":\"http://b.example/sink\",\"summary_sentences\":1}";
    match a.handle_agent_task_line(line, line.len(), false) {
        AgentStep::Fetch { url } => assert_eq!(url, b"http://a.example/src".to_vec()),
        _ => panic!("expected a fetch"),
    }
    assert!(a.active);
    assert!(a.mode == AgentMode::Summarize);
    assert_eq!(a.summary_sentences, 1);
    let page = FetchOutcome {
        ok: true,
        status: 200,
        transport: Vec::new(),
        truncated: false,
        body: b"First sentence here. Second one.".to_vec(),
        cached_output: Vec::new(),
    };
    match a.handle_agent_fetch_done(&page, false) {
        AgentStep::Post { url, body } => {
            assert_eq!(url, b"http://b.example/sink".to_vec());
            assert!(contains(&body, b"g1"));
        }
        _ => panic!("expected the result to be posted"),
    }
    let posted = FetchOutcome {
        ok: true,
        status: 200,
        transport: Vec::new(),
        truncated: false,
        body: Vec::new(),
        cached_output: Vec::new(),
    };
    match a.handle_agent_fetch_done(&posted, false) {
        AgentStep::Finish { step, event, .. } => {
            assert_eq!(step, 3);
            assert!(event == AgentTerminal::Completed);
        }
        _ => panic!("expected the task to finish"),
    }
    assert!(!a.active);
}

#[test]
fn start_failure_ends_the_task() {
    let mut a = AgentTask::new();
    let line = b"{\"kind\":\"fetch_summarize_post\",\"goal_id\":\"g1\",\"source_url\":\"http://a.example/\",\"sink_url\":\"\"}";
    let _ = a.handle_agent_task_line(line, line.len(), false);
    let step = a.handle_start_failure(b"dns lookup timed out");
    assert!(matches!(step, AgentStep::Finish { .. } | AgentStep::Post { .. }));
}

#[test]
fn response_capture_is_bounded() {
    let mut c = ResponseCapture::new();
    c.agent_capture_response_body(true, false, 200, b"abc");
    c.agent_capture_response_body(true, false, 200, b"def");
    assert_eq!(c.body, b"abcdef".to_vec());
    assert!(!c.truncated);
    c.agent_capture_response_body(false, false, 200, b"ignored");
    assert_eq!(c.body, b"abcdef".to_vec());
    c.clear();
    assert!(c.body.is_empty());
}

#[test]
fn redirect_is_followed_once_per_response() {
    let mut r = Redirect::new();
    let h = b"HTTP/1.1 302 Found\r\nLocation: https://new.example/next\r\n\r\n";
    assert_eq!(r.capture_redirect(false, h, h.len()), None);
    assert!(r.pending);
    assert_eq!(r.redirects, 1);
    assert_eq!(r.domain, b"new.example".to_vec());
    assert_eq!(r.path, b"/next".to_vec());
    assert!(r.https);
    let h2 = b"HTTP/1.1 302 Found\r\nLocation: http://other.example/\r\n\r\n";
    assert_eq!(r.capture_redirect(false, h2, h2.len()), None);
    assert_eq!(r.domain, b"new.example".to_vec());
    let mut o = Redirect::new();
    assert_eq!(o.capture_redirect(true, h, h.len()), None);
    assert!(!o.pending);
}

#[test]
fn governed_task_fetches_only_allowed_hosts() {
    let mut a = AgentTask::new();
    let ok = b"{\"kind\":\"agent_task\",\"goal_id\":\"g2\",\"source_url\":\"http://10.0.2.2:8080/s\",\"sink_url\":\"http://10.0.2.2:8081/k\",\"model_url\":\"http://10.0.2.2:8083/m\",\"allowed_hosts\":[\"10.0.2.2\"]}";
    match a.handle_agent_task_line(ok, ok.len(), false) {
        AgentStep::Fetch { url } => assert_eq!(url, b"http://10.0.2.2:8080/s".to_vec()),
        _ => panic!("expected the fetch"),
    }
    let mut b = AgentTask::new();
    let bad = b"{\"kind\":\"agent_task\",\"goal_id\":\"g3\",\"source_url\":\"http://evil.example/s\",\"sink_url\":\"http://10.0.2.2:8081/k\",\"model_url\":\"http://10.0.2.2:8083/m\",\"allowed_hosts\":[\"10.0.2.2\"]}";
    match b.handle_agent_task_line(bad, bad.len(), false) {
        AgentStep::Post { url, body } => {
            assert_eq!(url, b"http://10.0.2.2:8081/k".to_vec());
            assert!(contains(&body, b"refused"));
            assert!(contains(&body, b"host denied by policy"));
        }
        _ => panic!("expected the refusal to be posted"),
    }
}

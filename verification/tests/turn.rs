use lib::session::Session;
use lib::turn::build_search_path;
use lib::turn::build_user_posts_query;
use lib::turn::compact_fetch_preview;
use lib::turn::goal_looks_like_summary_request;
use lib::turn::handle_session_command;
use lib::turn::is_m4_candidate;
use lib::turn::json_extract_string_partial_local;
use lib::turn::looks_like_tool_inventory_request;
use lib::turn::m4_retry_backoff_ms;
use lib::turn::parse_m4_model_response;
use lib::turn::try_handle_local_meta_request;
use lib::turn::M4Reply;
use lib::turn::M4ReplyError;
use lib::turn::SessionCommand;
use lib::turn::TurnCooldown;
use lib::turn_state::FetchOutcome;
use lib::turn_state::M4Access;
use lib::turn_state::M4Phase;
use lib::turn_state::M4Step;
use lib::turn_state::M4Terminal;
use lib::turn_state::M4Turn;

fn all_access() -> M4Access {
    M4Access { api_key_ready: true, x_secrets_ready: true, x_bearer_ready: true }
}

fn cached(text: &[u8]) -> FetchOutcome {
    FetchOutcome {
        ok: true,
        status: 200,
        transport: Vec::new(),
        truncated: false,
        body: Vec::new(),
        cached_output: text.to_vec(),
    }
}

#[test]
fn partial_value_of_cut_reply() {
    assert_eq!(json_extract_string_partial_local(b"{\"response\": \"hel", b"response", 64), b"hel".to_vec());
    assert_eq!(json_extract_string_partial_local(b"{\"response\":\"a\\nb\"}", b"response", 64), b"a\nb".to_vec());
    assert_eq!(json_extract_string_partial_local(b"{\"other\":\"x\"}", b"response", 64), Vec::<u8>::new());
}

#[test]
fn retry_backoff_schedule() {
    assert_eq!(m4_retry_backoff_ms(0), 700);
    assert_eq!(m4_retry_backoff_ms(1), 700);
    assert_eq!(m4_retry_backoff_ms(2), 1600);
    assert_eq!(m4_retry_backoff_ms(3), 3200);
    assert_eq!(m4_retry_backoff_ms(4), 5000);
    assert_eq!(m4_retry_backoff_ms(9), 5000);
}

#[test]
fn cooldowns_are_kept_and_cleared() {
    let mut cd = TurnCooldown::new();
    cd.m4_schedule_user_turn_cooldown(1000);
    assert_eq!(cd.user_turn_until_ms, 4000);
    assert_eq!(cd.m4_apply_user_turn_cooldown(2500), 1500);
    assert_eq!(cd.user_turn_until_ms, 0);
    cd.m4_mark_retryable_openai_failure(100);
    assert_eq!(cd.openai_until_ms, 5100);
    assert_eq!(cd.user_turn_until_ms, 10100);
    assert_eq!(cd.m4_prepare_openai_attempt(2, 200), (4900, 1600));
    assert_eq!(cd.openai_until_ms, 0);
    assert_eq!(cd.m4_apply_openai_cooldown(u64::MAX), 0);
}

#[test]
fn which_lines_are_session_turns() {
    assert!(is_m4_candidate(b"hello", 5));
    assert!(!is_m4_candidate(b"goal fetch x", 12));
    assert!(!is_m4_candidate(b"m3 summarize", 12));
    assert!(!is_m4_candidate(b"", 0));
}

#[test]
fn tool_inventory_in_both_languages() {
    assert!(looks_like_tool_inventory_request(b"So, WHAT TOOLS do you have?"));
    assert!(!looks_like_tool_inventory_request(b"fetch https://example.com"));
    let en = try_handle_local_meta_request(b"what tools do you have").unwrap();
    assert!(en.starts_with(b"My callable tools are: fetch_url"));
    let zh = try_handle_local_meta_request("你有什么工具".as_bytes()).unwrap();
    assert!(zh.starts_with("我当前可调用的工具有".as_bytes()));
    assert_eq!(try_handle_local_meta_request(b"weather today"), None);
}

#[test]
fn session_commands() {
    assert!(handle_session_command(b"  session reset", 15) == Some(SessionCommand::Reset));
    assert!(handle_session_command(b"session new", 11) == Some(SessionCommand::Reset));
    assert!(handle_session_command(b"session status", 14) == Some(SessionCommand::Status));
    assert!(handle_session_command(b"session", 7).is_none());
}

#[test]
fn x_api_paths() {
    assert_eq!(
        build_search_path(b"rust lang", 512),
        b"/2/tweets/search/recent?query=rust%20lang&max_results=10&tweet.fields=created_at,public_metrics".to_vec()
    );
    assert_eq!(build_user_posts_query(b"jack", 128), b"from:jack -is:retweet".to_vec());
    assert_eq!(build_user_posts_query(b"jack", 7), b"from:ja".to_vec());
}

#[test]
fn summaries_and_previews() {
    assert!(goal_looks_like_summary_request(b"Please SUMMARIZE this page"));
    assert!(!goal_looks_like_summary_request(b"post a tweet"));
    assert_eq!(compact_fetch_preview(b"abc", 100), b"Fetched URL content preview:\nabc".to_vec());
    let big = vec![b'x'; 1000];
    let p = compact_fetch_preview(&big, 8192);
    assert!(p.ends_with(b"\n...(truncated)"));
    assert_eq!(p.len(), 29 + 900 + 15);
}

#[test]
fn model_replies_are_read() {
    match parse_m4_model_response(b"{\"type\":\"tool\",\"tool\":\"fetch_url\",\"url\":\"https://a.example/\"}") {
        Ok(M4Reply::Tool { name, arg1, arg2 }) => {
            assert_eq!(name, b"fetch_url".to_vec());
            assert_eq!(arg1, b"https://a.example/".to_vec());
            assert!(arg2.is_empty());
        }
        _ => panic!("expected a tool call"),
    }
    match parse_m4_model_response(b"{\"type\":\"final\",\"response\":\"unsupported goal: no\"}") {
        Ok(M4Reply::Final { text, refused }) => {
            assert_eq!(text, b"unsupported goal: no".to_vec());
            assert!(refused);
        }
        _ => panic!("expected a final answer"),
    }
    assert!(matches!(parse_m4_model_response(b""), Err(M4ReplyError::EmptyModelResponse)));
    assert!(matches!(
        parse_m4_model_response(b"{\"type\":\"tool\",\"tool\":\"fetch_url\"}"),
        Err(M4ReplyError::MissingFetchUrl)
    ));
    assert!(matches!(
        parse_m4_model_response(b"{\"type\":\"tool\",\"tool\":\"rm_rf\"}"),
        Err(M4ReplyError::UnsupportedTool)
    ));
    assert!(matches!(parse_m4_model_response(b"{\"type\":\"dance\"}"), Err(M4ReplyError::UnsupportedModelResponse)));
    assert_eq!(M4ReplyError::MissingTool.reason(), b"missing tool");
}

#[test]
fn inventory_turn_finishes_without_model() {
    let mut t = M4Turn::new();
    let mut s = Session::new();
    let mut cd = TurnCooldown::new();
    let (wait, step) = t.handle_m4_goal_line(&mut s, &mut cd, 0, all_access(), b"what tools do you have", 22, false);
    assert_eq!(wait, 0);
    match step {
        M4Step::Finish { terminal, summary, reason } => {
            assert!(terminal == M4Terminal::Completed);
            assert!(summary.starts_with(b"My callable tools are:"));
            assert!(reason.is_empty());
        }
        _ => panic!("expected the turn to finish"),
    }
    assert!(t.phase == M4Phase::Idle);
    assert_eq!(cd.user_turn_until_ms, 3000);
    assert!(s.session_started());
}

#[test]
fn turn_without_key_fails() {
    let mut t = M4Turn::new();
    let mut s = Session::new();
    let mut cd = TurnCooldown::new();
    let none = M4Access { api_key_ready: false, x_secrets_ready: false, x_bearer_ready: false };
    let (_, step) = t.begin_turn(&mut s, &mut cd, 0, none, b"hello there");
    match step {
        M4Step::Finish { terminal, reason, .. } => {
            assert!(terminal == M4Terminal::Failed);
            assert_eq!(reason, b"missing openai key; run openai-key <key> before M4 input".to_vec());
        }
        _ => panic!("expected a failure"),
    }
}

#[test]
fn busy_and_foreign_lines() {
    let mut t = M4Turn::new();
    let mut s = Session::new();
    let mut cd = TurnCooldown::new();
    assert!(matches!(t.handle_m4_goal_line(&mut s, &mut cd, 0, all_access(), b"hi", 2, true).1, M4Step::Busy));
    assert!(matches!(
        t.handle_m4_goal_line(&mut s, &mut cd, 0, all_access(), b"goal x", 6, false).1,
        M4Step::NotHandled
    ));
}

#[test]
fn fetch_tool_round_trip() {
    let mut t = M4Turn::new();
    let mut s = Session::new();
    let mut cd = TurnCooldown::new();
    let a = all_access();
    let (_, step) = t.begin_turn(&mut s, &mut cd, 0, a, b"read https://a.example/");
    match step {
        M4Step::StartModel { wait_ms, backoff_ms, body } => {
            assert_eq!(wait_ms, 0);
            assert_eq!(backoff_ms, 0);
            assert!(!body.is_empty());
        }
        _ => panic!("expected a model request"),
    }
    let step = t.handle_m4_fetch_done(
        &mut s,
        &mut cd,
        10,
        a,
        &cached(b"{\"type\":\"tool\",\"tool\":\"fetch_url\",\"url\":\"https://a.example/\"}"),
    );
    match step {
        M4Step::FetchUrl { url } => assert_eq!(url, b"https://a.example/".to_vec()),
        _ => panic!("expected a fetch"),
    }
    let page = FetchOutcome {
        ok: true,
        status: 200,
        transport: Vec::new(),
        truncated: false,
        body: b"page text".to_vec(),
        cached_output: Vec::new(),
    };
    let step = t.handle_m4_fetch_done(&mut s, &mut cd, 20, a, &page);
    assert!(matches!(step, M4Step::StartModel { .. }));
    assert_eq!(t.loop_step, 1);
    assert_eq!(s.read_session_state(b"last_fetch_url", 64), b"https://a.example/".to_vec());
    let step = t.handle_m4_fetch_done(&mut s, &mut cd, 30, a, &cached(b"{\"type\":\"final\",\"response\":\"done\"}"));
    match step {
        M4Step::Finish { terminal, summary, .. } => {
            assert!(terminal == M4Terminal::Completed);
            assert_eq!(summary, b"done".to_vec());
        }
        _ => panic!("expected the answer"),
    }
}

#[test]
fn server_error_is_retried_with_backoff() {
    let mut t = M4Turn::new();
    let mut s = Session::new();
    let mut cd = TurnCooldown::new();
    let a = all_access();
    let _ = t.begin_turn(&mut s, &mut cd, 0, a, b"hello");
    let err = FetchOutcome {
        ok: true,
        status: 500,
        transport: Vec::new(),
        truncated: false,
        body: Vec::new(),
        cached_output: Vec::new(),
    };
    let step = t.handle_m4_fetch_done(&mut s, &mut cd, 5, a, &err);
    match step {
        M4Step::StartModel { backoff_ms, .. } => assert_eq!(backoff_ms, 700),
        _ => panic!("expected a retry"),
    }
    assert_eq!(t.model_retries, 1);
    for _ in 0..3 {
        let _ = t.handle_m4_fetch_done(&mut s, &mut cd, 5, a, &err);
    }
    assert_eq!(t.model_retries, 4);
    let step = t.handle_m4_fetch_done(&mut s, &mut cd, 5, a, &err);
    assert!(matches!(step, M4Step::Finish { terminal: M4Terminal::Failed, .. }));
    assert_eq!(cd.openai_until_ms, 5005);
}

#[test]
fn step_budget_ends_the_turn() {
    let mut t = M4Turn::new();
    let mut s = Session::new();
    let mut cd = TurnCooldown::new();
    let a = all_access();
    let _ = t.begin_turn(&mut s, &mut cd, 0, a, b"keep posting");
    let call = cached(b"{\"type\":\"tool\",\"tool\":\"post_url\",\"url\":\"https://a.example/p\",\"json\":\"{}\"}");
    let done = FetchOutcome {
        ok: true,
        status: 200,
        transport: Vec::new(),
        truncated: false,
        body: b"{}".to_vec(),
        cached_output: Vec::new(),
    };
    let mut rounds = 0;
    let last = loop {
        match t.handle_m4_fetch_done(&mut s, &mut cd, 1, a, &call) {
            M4Step::PostUrl { url, body } => {
                assert_eq!(url, b"https://a.example/p".to_vec());
                assert_eq!(body, b"{}".to_vec());
            }
            _ => panic!("expected a POST"),
        }
        rounds += 1;
        let next = t.handle_m4_fetch_done(&mut s, &mut cd, 1, a, &done);
        if !matches!(next, M4Step::StartModel { .. }) {
            break next;
        }
        assert!(rounds < 20);
    };
    assert_eq!(rounds, 5);
    match last {
        M4Step::Finish { terminal, reason, .. } => {
            assert!(terminal == M4Terminal::Failed);
            assert_eq!(reason, b"m4 loop budget exceeded".to_vec());
        }
        _ => panic!("expected the budget to end the turn"),
    }
}

#[test]
fn follow_up_turn_reads_earlier_state() {
    let mut t = M4Turn::new();
    let mut s = Session::new();
    let mut cd = TurnCooldown::new();
    let a = all_access();
    let _ = t.begin_turn(&mut s, &mut cd, 0, a, b"remember the city");
    let step = t.handle_m4_fetch_done(
        &mut s,
        &mut cd,
        1,
        a,
        &cached(b"{\"type\":\"tool\",\"tool\":\"write_session_state\",\"key\":\"city\",\"value\":\"Paris\"}"),
    );
    assert!(matches!(step, M4Step::StartModel { .. }));
    let step = t.handle_m4_fetch_done(&mut s, &mut cd, 2, a, &cached(b"{\"type\":\"final\",\"response\":\"ok\"}"));
    assert!(matches!(step, M4Step::Finish { terminal: M4Terminal::Completed, .. }));
    let (wait, _) = t.begin_turn(&mut s, &mut cd, 10, a, b"which city?");
    assert_eq!(wait, 2992);
    let step = t.handle_m4_fetch_done(
        &mut s,
        &mut cd,
        11,
        a,
        &cached(b"{\"type\":\"tool\",\"tool\":\"read_session_state\",\"key\":\"city\"}"),
    );
    assert!(matches!(step, M4Step::StartModel { .. }));
    assert_eq!(t.last_tool_result, b"Paris".to_vec());
    let h = s.history_bytes(16384);
    assert!(h.windows(17).any(|w| w == b"remember the city"));
}

#[test]
fn transfer_that_cannot_start_ends_the_turn() {
    let mut t = M4Turn::new();
    let mut s = Session::new();
    let mut cd = TurnCooldown::new();
    let a = all_access();
    assert!(matches!(t.handle_m4_start_failure(&mut s, &mut cd, 0, b""), M4Step::NotHandled));
    let _ = t.begin_turn(&mut s, &mut cd, 0, a, b"read it");
    let _ = t.handle_m4_fetch_done(
        &mut s,
        &mut cd,
        1,
        a,
        &cached(b"{\"type\":\"tool\",\"tool\":\"fetch_url\",\"url\":\"ftp://x\"}"),
    );
    assert!(t.phase == M4Phase::FetchUrl);
    match t.handle_m4_start_failure(&mut s, &mut cd, 2, b"") {
        M4Step::Finish { terminal, reason, .. } => {
            assert!(terminal == M4Terminal::Failed);
            assert_eq!(reason, b"fetch_url start failed".to_vec());
        }
        _ => panic!("expected the turn to end"),
    }
    assert!(t.phase == M4Phase::Idle);
}

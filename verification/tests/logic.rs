use lib::bytes::decode_shell_escapes;
use lib::bytes::parse_u64;
use lib::bytes::percent_encode;
use lib::goal::compile_goal_locally;
use lib::goal::copy_sink_hint_from_goal;
use lib::goal::GoalError;
use lib::memory::estimate_tokens;
use lib::oauth::XSecrets;
use lib::openai::ApiKeyStore;
use lib::policy::PolicyDenial;
use lib::policy::TaskPolicy;
use lib::url::is_private_ipv4;
use lib::virtio::probe_mmio;
use lib::virtio::read_device_features;
use lib::virtio::write_driver_features;
use lib::virtio::MMIO_DRIVER_FEATURES;
use lib::virtio::MMIO_DRIVER_FEATURES_SEL;
use lib::virtio::VIRTIO_MAGIC;

#[test]
fn goal_compiles_to_fetch_plan() {
    let plan = compile_goal_locally(b"fetch https://a.example/x and summarize in two bullets").ok().unwrap();
    assert_eq!(plan.source_url, b"https://a.example/x".to_vec());
    assert!(!plan.post);
    assert!(plan.sink_url.is_empty());
    assert!(plan.model_url.is_empty());
    assert_eq!(plan.max_items, 2);
}

#[test]
fn goal_compiles_to_post_plan() {
    let g = b"summarize http://10.0.2.2:8080/src and post to http://10.0.2.2:8081/sink";
    let plan = compile_goal_locally(g).ok().unwrap();
    assert!(plan.post);
    assert_eq!(plan.source_url, b"http://10.0.2.2:8080/src".to_vec());
    assert_eq!(plan.model_url, b"http://10.0.2.2:8083/summarize".to_vec());
    assert_eq!(plan.sink_url, b"http://10.0.2.2:8081/sink".to_vec());
    assert_eq!(plan.max_items, 8);
    assert_eq!(copy_sink_hint_from_goal(g), Some(b"http://10.0.2.2:8081/sink".to_vec()));
}

#[test]
fn goal_errors() {
    assert!(matches!(compile_goal_locally(b"hello"), Err(GoalError::Unsupported)));
    assert!(matches!(compile_goal_locally(b"summarize with compilation error"), Err(GoalError::CompilationFailed)));
    assert!(matches!(compile_goal_locally(b"post a summary to http://a/"), Err(GoalError::Unsupported)));
    assert_eq!(GoalError::Unsupported.reason(), b"unsupported goal");
}

#[test]
fn empty_policy_allows_everything() {
    let p = TaskPolicy::new();
    assert!(p.agent_policy_check(b"anything", 9, Some(b"http://x.example/")) == Ok(()));
}

#[test]
fn local_summary_policy() {
    let mut p = TaskPolicy::new();
    assert!(p.agent_store_local_summary_policy());
    assert!(p.agent_policy_check(b"fetch_url", 1, Some(b"http://10.0.2.2:8080/x")) == Ok(()));
    assert!(p.agent_policy_check(b"call_model", 2, None) == Err(PolicyDenial::SkillDenied));
    assert!(p.agent_policy_check(b"fetch_url", 1, Some(b"http://evil.example/")) == Err(PolicyDenial::HostDenied));
    p.max_steps = 2;
    assert!(p.agent_policy_check(b"fetch_url", 3, Some(b"http://10.0.2.2/")) == Err(PolicyDenial::StepBudgetExceeded));
    assert_eq!(PolicyDenial::HostDenied.reason(), b"host denied by policy");
}

#[test]
fn public_hosts_but_no_private_ones() {
    let mut p = TaskPolicy::new();
    assert!(p.agent_store_m3_summary_policy());
    assert!(p.agent_allow_public_hosts());
    assert!(p.agent_host_allowed(b"https://example.com/page"));
    assert!(!p.agent_host_allowed(b"http://192.168.1.10/"));
    assert!(p.agent_host_allowed(b"http://10.0.2.2:8080/"));
    assert!(is_private_ipv4(b"172.16.0.1"));
    assert!(!is_private_ipv4(b"8.8.8.8"));
}

#[test]
fn api_key_store() {
    let mut k = ApiKeyStore::new();
    assert!(!k.api_key_ready());
    assert!(!k.set_api_key(b""));
    assert!(k.set_api_key(b"sk-1"));
    assert!(k.api_key_ready());
    assert_eq!(k.build_bearer_header(64), b"Authorization: Bearer sk-1\r\n".to_vec());
    k.clear_api_key();
    assert!(!k.api_key_ready());
    assert!(k.build_bearer_header(64).is_empty());
}

#[test]
fn x_bearer_header() {
    let s = XSecrets {
        bearer_token: b"tok".to_vec(),
        api_key: Vec::new(),
        api_secret: Vec::new(),
        access_token: Vec::new(),
        access_secret: Vec::new(),
    };
    assert_eq!(lib::oauth::build_bearer_header(&s, 64), b"Authorization: Bearer tok\r\n".to_vec());
    assert!(lib::oauth::bearer_token_ready(&s));
    assert!(!lib::oauth::secrets_ready(&s));
}

#[test]
fn byte_helpers() {
    assert_eq!(percent_encode(b"a b&c~", 64), b"a%20b%26c~".to_vec());
    assert_eq!(parse_u64(b"12345", 5), Some(12345));
    assert_eq!(parse_u64(b"12a", 3), Some(12));
    assert_eq!(parse_u64(b"  x", 3), None);
    assert_eq!(decode_shell_escapes(b"a\\nb\\\"c", 64), b"a\nb\"c".to_vec());
    assert_eq!(estimate_tokens(0), 0);
    assert_eq!(estimate_tokens(9), 3);
}

#[test]
fn virtio_registers() {
    assert_eq!(probe_mmio(VIRTIO_MAGIC, 1), Some(1));
    assert_eq!(probe_mmio(0, 1), None);
    assert_eq!(read_device_features(5, 1, true), 0x1_0000_0005);
    assert_eq!(read_device_features(5, 1, false), 5);
    assert_eq!(
        write_driver_features(0x1_0000_0020, true),
        vec![
            (MMIO_DRIVER_FEATURES_SEL, 0),
            (MMIO_DRIVER_FEATURES, 0x20),
            (MMIO_DRIVER_FEATURES_SEL, 1),
            (MMIO_DRIVER_FEATURES, 1)
        ]
    );
    assert_eq!(write_driver_features(0x1_0000_0020, false), vec![(MMIO_DRIVER_FEATURES, 0x20)]);
}

#[test]
fn language_and_style_stay_structured() {
    use_interpretation();
    assert_eq!(lib::goal::normalize_output_language(b"Chinese", 16), b"zh".to_vec());
    assert_eq!(lib::goal::normalize_output_language(b"", 16), b"default".to_vec());
    assert_eq!(lib::goal::normalize_output_language(b"French", 16), b"French".to_vec());
    assert_eq!(lib::goal::normalize_output_style(b"bullet points", 16), b"bullet".to_vec());
    assert_eq!(lib::goal::normalize_output_style(b"one paragraph", 16), b"paragraph".to_vec());
    assert_eq!(lib::goal::detect_goal_max_items(b"in three bullets", 16), 3);
}

fn use_interpretation() {
    let r = b"{\"status\":\"ok\",\"action\":\"local_summary\",\"source_url\":\"https://a.example/\",\"max_items\":3,\"output_language\":\"Chinese\",\"style\":\"bullet points\"}";
    let i = lib::goal::apply_interpretation_response(r).ok().unwrap();
    assert!(!i.post);
    assert_eq!(i.source_url, b"https://a.example/".to_vec());
    assert_eq!(i.max_items, 3);
    assert_eq!(i.language, b"zh".to_vec());
    assert_eq!(i.style, b"bullet".to_vec());
    let e = b"{\"status\":\"error\",\"reason\":\"unsupported goal: x\"}";
    assert!(matches!(lib::goal::apply_interpretation_response(e), Err(lib::goal::InterpretError::UnsupportedGoal)));
    let m = b"{\"status\":\"ok\",\"action\":\"post_summary\",\"source_url\":\"https://a.example/\"}";
    assert!(matches!(lib::goal::apply_interpretation_response(m), Err(lib::goal::InterpretError::MissingSink)));
}

#[test]
fn agent_url_requests() {
    let q = lib::url::agent_url_request(b"https://10.0.2.2:8443/v1/x").ok().unwrap();
    assert_eq!(q.host, b"10.0.2.2".to_vec());
    assert_eq!(q.path, b"/v1/x".to_vec());
    assert!(q.https);
    assert_eq!(q.port, 8443);
    assert_eq!(q.fixed_ip, Some([10, 0, 2, 2]));
    let q = lib::url::agent_url_request(b"http://example.com").ok().unwrap();
    assert_eq!(q.port, 80);
    assert!(q.path.is_empty());
    assert_eq!(q.fixed_ip, None);
    assert!(matches!(lib::url::agent_url_request(b"ftp://x"), Err(e) if e == b"invalid url"));
}

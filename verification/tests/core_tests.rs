use routerd::adapters::{
    adapter_kind, bearer_value, health_verdict, minimax_endpoint, ollama_chat_endpoint,
    openai_chat_endpoint, openai_models_endpoint, payload_token_limits, stream_event, AdapterKind,
    BrokerReply, HealthVerdict, StreamEvent,
};
use routerd::config::{ensure_provider_defaults, ProviderConfig};
use routerd::credentials::{
    credential_lookups, settle_credential, Found, Lookup,
    classify_credential, credential_value, join_path, provider_fallback_names,
    systemd_credential_paths, systemd_env_name, CredentialSource,
};
use routerd::error::RouterError;
use routerd::num::{parse_i32, parse_u32, parse_u64, to_decimal};
use routerd::router::{
    count_healthy, list_all_models, no_eligible_provider, routing_failure, DispatchOutcome, FailoverRun, FailoverStep,
    HealthCounters,
};
use routerd::scoring::{Assessment, CandidateProvider, Disqualification, RequestProfile, ScoringEngine};
use routerd::router::probe_verdict;
use routerd::telemetry::{pressure_reply_error, PressureLevel};
use routerd::text::{trim, eq_ignore_ascii_case, replace_char};
use routerd::varlink::{
    classify_method, frame, interface_description, method_not_found, strip_terminator, FrameReader,
    Router1Method, VarlinkMethod,
};
use serde_json::Value;

fn reply_bytes(params: Option<(&str, &str)>, error: Option<&str>, continues: Option<bool>) -> Vec<u8> {
    let mut obj = serde_json::Map::new();
    if let Some((k, v)) = params {
        let mut p = serde_json::Map::new();
        p.insert(k.to_string(), Value::String(v.to_string()));
        obj.insert("parameters".to_string(), Value::Object(p));
    }
    if let Some(e) = error {
        obj.insert("error".to_string(), Value::String(e.to_string()));
    }
    if let Some(c) = continues {
        obj.insert("continues".to_string(), Value::Bool(c));
    }
    frame(&serde_json::to_vec(&Value::Object(obj)).unwrap())
}

#[test]
fn test_varlink_framing_and_nul_terminator() {
    let bytes = reply_bytes(Some(("status", "active")), None, Some(false));
    assert_eq!(*bytes.last().unwrap(), 0u8);
    let clean = strip_terminator(&bytes);
    let parsed: Value = serde_json::from_slice(&clean).unwrap();
    assert_eq!(parsed.get("parameters").unwrap().get("status").unwrap(), "active");
}

#[test]
fn test_varlink_error_frame() {
    let bytes = reply_bytes(Some(("parameter", "interface")), Some("org.varlink.service.InvalidParameter"), None);
    assert_eq!(*bytes.last().unwrap(), 0u8);
    let parsed: Value = serde_json::from_slice(&strip_terminator(&bytes)).unwrap();
    assert_eq!(
        parsed.get("error").and_then(|e| e.as_str()),
        Some("org.varlink.service.InvalidParameter")
    );
}

#[test]
fn frame_reader_splits_a_stream() {
    let mut stream = frame(b"{\"a\":1}");
    stream.extend(frame(b"{}"));
    let mut reader = FrameReader::new();
    let mut got = Vec::new();
    for b in stream {
        if let Some(m) = reader.push_byte(b) {
            got.push(m);
        }
    }
    assert_eq!(got, vec![b"{\"a\":1}".to_vec(), b"{}".to_vec()]);
    assert_eq!(strip_terminator(b"abc"), b"abc".to_vec());
}

#[test]
fn varlink_methods() {
    assert_eq!(classify_method("org.varlink.service.GetInfo"), VarlinkMethod::GetInfo);
    assert_eq!(classify_method("io.syntrop.Router1.RouteRequest"), VarlinkMethod::Router1(Router1Method::RouteRequest));
    assert_eq!(classify_method("io.syntrop.Router1.Nope"), VarlinkMethod::NotFound);
    assert_eq!(classify_method("x"), VarlinkMethod::NotFound);
    let f = method_not_found("x.Y");
    assert_eq!(f.error, "org.varlink.service.MethodNotFound");
    assert_eq!(f.parameter_value, "x.Y");
    assert!(interface_description(Some("io.syntrop.Router1")).unwrap().starts_with("interface io.syntrop.Router1\n"));
    let missing = interface_description(Some("a.b")).err().unwrap();
    assert_eq!(missing.error, "org.varlink.service.InterfaceNotFound");
    let none = interface_description(None).err().unwrap();
    assert_eq!(none.parameter_value, "interface");
}

#[test]
fn three_failures_mark_a_provider_unhealthy() {
    let mut h = HealthCounters::new();
    h.record_failure();
    h.record_failure();
    assert!(h.is_healthy);
    h.record_failure();
    assert!(!h.is_healthy);
    assert_eq!(h.total_errors, 3);
    h.record_success();
    assert!(h.is_healthy);
    assert_eq!(h.consecutive_failures, 0);
    assert_eq!(h.total_requests, 1);
    h.record_probe(false);
    assert!(!h.is_healthy);
}

#[test]
fn failover_tries_at_most_retries_plus_one() {
    let mut run = FailoverRun::new(5, 1, false);
    assert!(matches!(run.next_step(), FailoverStep::Dispatch(0)));
    run.record(DispatchOutcome::Failed(RouterError::Timeout("t1".to_string())));
    assert!(matches!(run.next_step(), FailoverStep::Dispatch(1)));
    run.record(DispatchOutcome::Failed(RouterError::Timeout("t2".to_string())));
    match run.next_step() {
        FailoverStep::Exhausted(RouterError::Timeout(m)) => assert_eq!(m, "t2"),
        _ => panic!("expected the last error"),
    }
}

#[test]
fn failover_stops_at_first_success() {
    let mut run = FailoverRun::new(3, 2, true);
    assert!(matches!(run.next_step(), FailoverStep::Dispatch(0)));
    run.record(DispatchOutcome::ProviderMissing);
    assert!(matches!(run.next_step(), FailoverStep::Dispatch(1)));
    run.record(DispatchOutcome::Delivered);
    assert!(matches!(run.next_step(), FailoverStep::Served(1)));
}

#[test]
fn failover_without_candidates_is_exhausted() {
    let mut run = FailoverRun::new(0, 2, true);
    match run.next_step() {
        FailoverStep::Exhausted(RouterError::NoHealthyProvider(m)) => {
            assert_eq!(m, "All candidate providers failed for stream")
        }
        _ => panic!("expected exhaustion"),
    }
}

#[test]
fn model_catalogue_lists_aliases_first() {
    let ps = vec![("groq".to_string(), vec!["llama".to_string()])];
    let list = list_all_models(7, &ps);
    assert_eq!(list.object, "list");
    let ids: Vec<&str> = list.data.iter().map(|m| m.id.as_str()).collect();
    assert_eq!(ids, vec!["router:fast", "router:hard", "router:auto", "fast", "hard", "llama"]);
    assert_eq!(list.data[5].owned_by, "groq");
    assert_eq!(list.data[0].owned_by, "syntrop-routerd");
    assert_eq!(list.data[0].created, 7);
    assert_eq!(count_healthy(&vec![true, false, true]), 2);
    match no_eligible_provider("m", "fast") {
        RouterError::NoHealthyProvider(m) => assert_eq!(m, "No eligible provider found for model 'm' in tier 'fast'"),
        _ => panic!(),
    }
}

fn candidate(id: &str, kind: &str, model: &str, ctx: usize, tier: Option<&str>) -> CandidateProvider {
    CandidateProvider {
        provider_id: id.to_string(),
        provider_name: id.to_string(),
        provider_kind: kind.to_string(),
        provider_enabled: true,
        is_healthy: true,
        recent_failures: 0,
        model_name: model.to_string(),
        max_context_tokens: ctx,
        model_tier: tier.map(|t| t.to_string()),
        psi_level: PressureLevel::Normal,
    }
}

fn profile(model: &str, tier: &str, prompt: usize, output: usize) -> RequestProfile {
    RequestProfile {
        requested_model: model.to_string(),
        requested_tier: tier.to_string(),
        estimated_prompt_tokens: prompt,
        estimated_output_tokens: output,
        require_stream: false,
    }
}

#[test]
fn test_context_limit_enforcement() {
    let req = profile("router:fast", "fast", 3000, 2000);
    let c = candidate("limited", "openai", "limited-model", 4096, Some("fast"));
    match ScoringEngine::assess_candidate(&req, &c) {
        Assessment::Disqualified(Disqualification::ContextLimitExceeded { tokens, limit }) => {
            assert_eq!(tokens, 5000);
            assert_eq!(limit, 4096);
        }
        _ => panic!("expected a context-limit disqualification"),
    }
}

#[test]
fn scoring_terms() {
    let req = profile("router:hard", "hard", 100, 100);
    let hard = candidate("cloud", "openai", "big", 128000, None);
    match ScoringEngine::assess_candidate(&req, &hard) {
        Assessment::Eligible(t) => {
            assert_eq!(t.capability_score, 95);
            assert!(!t.is_local);
            assert_eq!(t.health_penalty, 0);
        }
        _ => panic!(),
    }
    let mut local = candidate("syntrop-local", "varlink", "small", 8192, None);
    local.psi_level = PressureLevel::Critical;
    local.is_healthy = false;
    local.recent_failures = 2;
    match ScoringEngine::assess_candidate(&req, &local) {
        Assessment::Eligible(t) => {
            assert_eq!(t.capability_score, 35);
            assert!(t.is_local);
            assert_eq!(t.psi_penalty, 80);
            assert_eq!(t.health_penalty, 80);
        }
        _ => panic!(),
    }
    let named = profile("other-model", "fast", 1, 1);
    assert!(matches!(
        ScoringEngine::assess_candidate(&named, &hard),
        Assessment::Disqualified(Disqualification::ModelMismatch { .. })
    ));
    let mut off = candidate("x", "openai", "m", 100000, None);
    off.provider_enabled = false;
    assert!(matches!(
        ScoringEngine::assess_candidate(&req, &off),
        Assessment::Disqualified(Disqualification::ProviderDisabled)
    ));
}

#[test]
fn adapter_endpoints() {
    assert_eq!(openai_chat_endpoint("https://api.groq.com/openai/v1"), "https://api.groq.com/openai/v1/chat/completions");
    assert_eq!(openai_chat_endpoint("https://host"), "https://host/v1/chat/completions");
    assert_eq!(openai_models_endpoint("https://host/v1"), "https://host/v1/models");
    assert_eq!(ollama_chat_endpoint("http://192.168.1.100:11434"), "http://192.168.1.100:11434/v1/chat/completions");
    assert_eq!(minimax_endpoint("https://api.minimaxi.chat/v1"), "https://api.minimaxi.chat/v1/chat/completions");
    assert_eq!(bearer_value(" k "), "Bearer k");
    assert!(matches!(adapter_kind("MiniMax"), AdapterKind::MiniMax));
    assert!(matches!(adapter_kind("syntrop"), AdapterKind::VarlinkBridge));
    assert!(matches!(adapter_kind("groq"), AdapterKind::OpenAICompatible));
    assert_eq!(payload_token_limits(AdapterKind::Ollama, None, Some(7)), (Some(7), None));
    assert_eq!(payload_token_limits(AdapterKind::OpenAICompatible, Some(3), Some(7)), (Some(3), Some(7)));
    assert!(matches!(health_verdict(AdapterKind::MiniMax, Some(405)), HealthVerdict::Healthy));
    assert!(matches!(health_verdict(AdapterKind::OpenAICompatible, None), HealthVerdict::Unhealthy));
}

#[test]
fn broker_replies_become_stream_events() {
    let chunk = BrokerReply { error: None, chunk: Some("Hel".to_string()), continues: Some(true) };
    assert!(matches!(stream_event(&chunk), StreamEvent::Chunk { ref content, last: false } if content == "Hel"));
    let fail = BrokerReply { error: Some("boom".to_string()), chunk: None, continues: None };
    assert!(matches!(stream_event(&fail), StreamEvent::Fail(RouterError::Varlink(ref m)) if m == "Varlink stream error: boom"));
}

#[test]
fn credential_settings() {
    assert!(matches!(classify_credential(Some("env:GROQ_API_KEY")), CredentialSource::Env(ref n) if n == "GROQ_API_KEY"));
    assert!(matches!(classify_credential(Some("${GROQ_API_KEY}")), CredentialSource::Env(ref n) if n == "GROQ_API_KEY"));
    assert!(matches!(classify_credential(Some("$X")), CredentialSource::Env(ref n) if n == "X"));
    assert!(matches!(classify_credential(Some("cred:groq_api_key")), CredentialSource::Systemd(ref n) if n == "groq_api_key"));
    assert!(matches!(classify_credential(Some("/etc/key")), CredentialSource::PathOrLiteral(_)));
    assert!(matches!(classify_credential(Some(" raw-secret-value ")), CredentialSource::Literal(ref n) if n == "raw-secret-value"));
    assert!(matches!(classify_credential(Some("  ")), CredentialSource::ProviderFallback));
    assert!(matches!(classify_credential(None), CredentialSource::ProviderFallback));
    assert_eq!(credential_value(" file_secret_token \n"), Some("file_secret_token".to_string()));
    assert_eq!(credential_value(" \n"), None);
}

#[test]
fn credential_names_are_case_mapped() {
    let f = provider_fallback_names("Ollama-LAN");
    assert_eq!(f.credential, "ollama_lan_api_key");
    assert_eq!(f.prefixed_env, "ROUTERD_OLLAMA_LAN_API_KEY");
    assert_eq!(f.bare_env, "OLLAMA_LAN_API_KEY");
    assert_eq!(systemd_env_name("my-key"), "MY_KEY");
    assert_eq!(join_path("/run/credentials/x", "k"), "/run/credentials/x/k");
    assert_eq!(join_path("/a/", "/abs"), "/abs");
    assert_eq!(systemd_credential_paths(None, "k"), vec!["/run/credentials/routerd.service/k".to_string()]);
    assert_eq!(systemd_credential_paths(Some("/c"), "k").len(), 2);
}

fn provider(id: &str, name: &str) -> ProviderConfig {
    ProviderConfig {
        id: id.to_string(),
        name: name.to_string(),
        kind: String::new(),
        base_url: "http://h".to_string(),
        api_key: None,
        tier: "fast".to_string(),
        enabled: true,
        timeout_ms: 30000,
        models: Vec::new(),
    }
}

#[test]
fn providers_get_an_identity() {
    let mut ps = vec![provider("", "Named"), provider("", ""), provider("", "")];
    ensure_provider_defaults(&mut ps);
    assert_eq!(ps[0].id, "Named");
    assert_eq!(ps[0].kind, "openai");
    assert!(ps[1].id.starts_with("provider-"));
    assert_eq!(ps[1].id.len(), 45);
    assert_eq!(ps[1].name, ps[1].id);
    assert_ne!(ps[1].id, ps[2].id);
    for (i, c) in ps[1].id[9..].chars().enumerate() {
        if i == 8 || i == 13 || i == 18 || i == 23 {
            assert_eq!(c, '-');
        } else {
            assert!(c.is_ascii_digit() || ('a'..='f').contains(&c));
        }
    }
}

#[test]
fn numbers_parse_and_render() {
    assert_eq!(parse_u64("18446744073709551615"), Some(u64::MAX));
    assert_eq!(parse_u64("18446744073709551616"), None);
    assert_eq!(parse_u32("+7"), Some(7));
    assert_eq!(parse_u32(""), None);
    assert_eq!(parse_i32("-2147483648"), Some(i32::MIN));
    assert_eq!(parse_i32("2147483648"), None);
    assert_eq!(to_decimal(0), "0");
    assert_eq!(to_decimal(1050), "1050");
    assert_eq!(to_decimal(u64::MAX), "18446744073709551615");
}

#[test]
fn text_helpers() {
    assert_eq!(trim("\u{3000} a b \n"), "a b");
    assert!(eq_ignore_ascii_case("ÄbC", "Äbc"));
    assert!(!eq_ignore_ascii_case("Ä", "ä"));
    assert_eq!(replace_char("a-b-c", '-', '_'), "a_b_c");
    assert_eq!(PressureLevel::Critical.name(), "Critical");
}

#[test]
fn test_context_limit_disqualification() {
    let cand = candidate("small", "openai", "small-model", 1000, Some("fast"));
    let req = profile("router:fast", "fast", 800, 400);
    match ScoringEngine::assess_candidate(&req, &cand) {
        Assessment::Disqualified(Disqualification::ContextLimitExceeded { tokens, limit }) => {
            assert_eq!(tokens, 1200);
            assert_eq!(limit, 1000);
        }
        _ => panic!("expected the context limit to disqualify the candidate"),
    }
    match ScoringEngine::assess_candidate(&req, &cand) {
        Assessment::Disqualified(d) => assert!(d.reason().contains("Context limit exceeded")),
        _ => panic!("expected a disqualification"),
    }
}

#[test]
fn refusal_reasons_read_as_shown() {
    assert_eq!(
        Disqualification::ContextLimitExceeded { tokens: 1200, limit: 1000 }.reason(),
        "Context limit exceeded (tokens: 1200, limit: 1000)"
    );
    assert_eq!(Disqualification::ProviderDisabled.reason(), "Provider disabled in configuration");
    assert_eq!(
        Disqualification::ModelMismatch { requested: "x".to_string() }.reason(),
        "Model name does not match requested 'x'"
    );
}

#[test]
fn too_large_for_every_candidate_is_a_context_error() {
    let reasons = vec![
        Disqualification::ContextLimitExceeded { tokens: 8197, limit: 4096 },
        Disqualification::ContextLimitExceeded { tokens: 8197, limit: 8000 },
    ];
    match routing_failure("router:fast", "fast", &reasons) {
        RouterError::ContextLimitExceeded { model, requested_tokens, context_limit } => {
            assert_eq!(model, "router:fast");
            assert_eq!(requested_tokens, 8197);
            assert_eq!(context_limit, 8000);
        }
        other => panic!("expected a context error, got {:?}", other),
    }
    let mixed = vec![
        Disqualification::ContextLimitExceeded { tokens: 10, limit: 5 },
        Disqualification::ProviderDisabled,
    ];
    match routing_failure("m", "fast", &mixed) {
        RouterError::NoHealthyProvider(m) => {
            assert_eq!(m, "No eligible provider found for model 'm' in tier 'fast'")
        }
        other => panic!("expected no eligible provider, got {:?}", other),
    }
    assert!(matches!(routing_failure("m", "fast", &Vec::new()), RouterError::NoHealthyProvider(_)));
}

#[test]
fn unbounded_retries_try_every_candidate() {
    let mut run = FailoverRun::new(3, usize::MAX, false);
    for k in 0..3 {
        match run.next_step() {
            FailoverStep::Dispatch(i) => assert_eq!(i, k),
            _ => panic!("expected a dispatch"),
        }
        run.record(DispatchOutcome::Failed(RouterError::Http(format!("e{}", k))));
    }
    match run.next_step() {
        FailoverStep::Exhausted(RouterError::Http(m)) => assert_eq!(m, "e2"),
        _ => panic!("expected the last error"),
    }
}

fn lookup_text(l: &Lookup) -> String {
    match l {
        Lookup::File(p) => format!("file:{}", p),
        Lookup::Env(n) => format!("env:{}", n),
    }
}

#[test]
fn fallback_lookups_come_in_order() {
    let src = classify_credential(None);
    let plan: Vec<String> = credential_lookups(&src, None, "groq").iter().map(lookup_text).collect();
    assert_eq!(
        plan,
        vec![
            "file:/run/credentials/routerd.service/groq_api_key".to_string(),
            "env:GROQ_API_KEY".to_string(),
            "env:ROUTERD_GROQ_API_KEY".to_string(),
            "env:GROQ_API_KEY".to_string(),
        ]
    );
    let found = vec![Found::Nothing, Found::Text(" k ".to_string()), Found::Nothing, Found::Text(" k ".to_string())];
    assert_eq!(settle_credential(&src, false, &found).unwrap(), Some("k".to_string()));
    // A blank or unreadable credential file passes on to the variables.
    let found = vec![
        Found::Unreadable("denied".to_string()),
        Found::Nothing,
        Found::Text("pref".to_string()),
        Found::Text("bare".to_string()),
    ];
    assert_eq!(settle_credential(&src, false, &found).unwrap(), Some("pref".to_string()));
    let none = vec![Found::Nothing, Found::Text("  ".to_string()), Found::Nothing, Found::Nothing];
    assert_eq!(settle_credential(&src, false, &none).unwrap(), None);
}

#[test]
fn named_credentials_settle_on_the_first_file_found() {
    let src = classify_credential(Some("cred:my-key"));
    let plan: Vec<String> = credential_lookups(&src, Some("/c"), "p").iter().map(lookup_text).collect();
    assert_eq!(
        plan,
        vec![
            "file:/c/my-key".to_string(),
            "file:/run/credentials/routerd.service/my-key".to_string(),
            "env:MY_KEY".to_string(),
        ]
    );
    let blank_file = vec![Found::Text(" \n".to_string()), Found::Text("x".to_string()), Found::Text("v".to_string())];
    assert_eq!(settle_credential(&src, true, &blank_file).unwrap(), None);
    let unreadable = vec![Found::Nothing, Found::Unreadable("boom".to_string()), Found::Text("v".to_string())];
    assert!(matches!(settle_credential(&src, true, &unreadable), Err(RouterError::Credential(m)) if m == "boom"));
    let env_only = vec![Found::Nothing, Found::Nothing, Found::Text(" v ".to_string())];
    assert_eq!(settle_credential(&src, true, &env_only).unwrap(), Some("v".to_string()));
    let path = classify_credential(Some("/no/such/file"));
    assert_eq!(settle_credential(&path, false, &vec![Found::Nothing]).unwrap(), Some("/no/such/file".to_string()));
    let lit = classify_credential(Some("  sk-123 "));
    assert!(credential_lookups(&lit, None, "p").is_empty());
    assert_eq!(settle_credential(&lit, false, &Vec::new()).unwrap(), Some("sk-123".to_string()));
}

#[test]
fn probe_and_pressure_replies() {
    assert_eq!(probe_verdict(Ok(true)), (true, None));
    assert_eq!(probe_verdict(Ok(false)), (false, None));
    assert_eq!(
        probe_verdict(Err(RouterError::Timeout("t".to_string()))),
        (false, Some("Operation timed out: t".to_string()))
    );
    assert!(pressure_reply_error(None).is_none());
    assert!(matches!(
        pressure_reply_error(Some("busy")),
        Some(RouterError::Varlink(m)) if m == "Inferenced error reply: busy"
    ));
}

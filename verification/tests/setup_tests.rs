use routerd::probe::{
    listed_model_ids, models_url, parse_ollama_model_ids, parse_openai_model_ids, probe_authorization,
    probe_step, tags_model_ids, tags_url, ModelListing, ProbeStep,
};
use routerd::setup::{
    add_custom_provider, configure_minimax, configure_mistral, ensure_thresholds_config, live_models,
    set_tier_default, upsert_local_models, DocEdit, FieldValue, ModelList, ProviderField,
    ProviderTable, Section, SetupDoc, ThresholdField, TierEntry,
};
use routerd::setup_steps::{
    answer_or, audit_entries, custom_base_url, is_real_model_file, is_yes, local_socket_outcome,
    pin_default_model, record_audit_result, record_custom_step, record_key_step,
    record_local_detection, split_model_list, tier_default, AuditProbe, CustomFallback, KeyAnswer,
};
use routerd::setup::HostedProvider;

fn empty_doc() -> SetupDoc {
    SetupDoc {
        providers: Section::Absent,
        tables: Vec::new(),
        thresholds: Section::Absent,
        has_min_tokens_per_second: false,
        tiers: Section::Absent,
        tier_entries: Vec::new(),
        edits: Vec::new(),
    }
}

fn table(id: &str, enabled: Option<bool>, models: ModelList) -> ProviderTable {
    ProviderTable {
        id: Some(id.to_string()),
        name: None,
        kind: None,
        base_url: None,
        api_key: None,
        enabled,
        tier: None,
        weight: None,
        timeout_ms: None,
        models,
    }
}

fn names(v: &[&str]) -> Vec<String> {
    v.iter().map(|s| s.to_string()).collect()
}

fn listed(m: &ModelList) -> Vec<String> {
    match m {
        ModelList::Names(v) | ModelList::Tables(v) => v.iter().filter_map(|o| o.clone()).collect(),
        _ => Vec::new(),
    }
}

fn with_id<'a>(doc: &'a SetupDoc, id: &str) -> Vec<&'a ProviderTable> {
    doc.tables.iter().filter(|t| t.id.as_deref() == Some(id)).collect()
}

#[test]
fn test_parse_model_shapes() {
    let openai = ModelListing {
        data: Some(vec![Some("a".to_string()), Some("b".to_string()), None]),
        models: None,
    };
    assert_eq!(parse_openai_model_ids(&openai), vec!["a".to_string(), "b".to_string()]);
    let ollama = ModelListing {
        data: None,
        models: Some(vec![Some("x".to_string()), Some("y".to_string())]),
    };
    assert_eq!(parse_ollama_model_ids(&ollama), vec!["x".to_string(), "y".to_string()]);
    let empty = ModelListing { data: None, models: None };
    assert!(parse_openai_model_ids(&empty).is_empty());
    assert!(parse_ollama_model_ids(&empty).is_empty());
}

#[test]
fn test_upsert_local_models() {
    let mut doc = empty_doc();
    doc.providers = Section::Present;
    upsert_local_models(&mut doc, &names(&["m1"]), true);
    upsert_local_models(&mut doc, &names(&["m1", "m2"]), true);
    let all: Vec<String> = doc.tables.iter().flat_map(|t| listed(&t.models)).collect();
    assert_eq!(all.iter().filter(|n| n.as_str() == "m1").count(), 1);
    assert!(all.iter().any(|n| n == "m2"));
    assert_eq!(with_id(&doc, "syntrop-local").len(), 1);
}

#[test]
fn test_minimax_mistral_custom_config_edit() {
    let mut doc = empty_doc();
    doc.providers = Section::Present;
    doc.tables.push(table("minimax", Some(false), ModelList::Names(vec![Some("abab6.5s-chat".to_string())])));
    doc.tables.push(table("mistral", Some(true), ModelList::Absent));

    configure_minimax(
        &mut doc,
        Some("unit-test-key-minimax".to_string()),
        Some(vec!["live-model-a".to_string()]),
    );
    let minimax = with_id(&doc, "minimax")[0];
    assert_eq!(minimax.api_key.as_deref(), Some("unit-test-key-minimax"));
    assert_eq!(listed(&minimax.models), names(&["live-model-a"]));

    configure_mistral(&mut doc, None, None);
    let mistral = with_id(&doc, "mistral")[0];
    assert_eq!(mistral.enabled, Some(false));

    for _ in 0..2 {
        add_custom_provider(
            &mut doc,
            "openrouter-fast",
            "OpenRouter Gateway",
            "openai",
            "https://openrouter.ai/api/v1",
            Some("sk-or-test"),
            &names(&["anthropic/sonnet-3.5"]),
            true,
        );
    }
    let custom = with_id(&doc, "openrouter-fast");
    assert_eq!(custom.len(), 1);
    assert_eq!(listed(&custom[0].models), names(&["anthropic/sonnet-3.5"]));
}

#[test]
fn test_live_models_and_tier_default() {
    let mut doc = empty_doc();
    doc.providers = Section::Present;
    doc.tables.push(table(
        "on",
        Some(true),
        ModelList::Names(vec![Some("a".to_string()), Some("b".to_string())]),
    ));
    doc.tables.push(table("detailed", Some(true), ModelList::Tables(vec![Some("d".to_string())])));
    doc.tables.push(table("off", Some(false), ModelList::Names(vec![Some("c".to_string())])));
    let live = live_models(&doc);
    assert_eq!(
        live,
        vec![
            ("on".to_string(), "a".to_string()),
            ("on".to_string(), "b".to_string()),
            ("detailed".to_string(), "d".to_string()),
        ]
    );

    set_tier_default(&mut doc, "fast", "b");
    set_tier_default(&mut doc, "hard", "b");
    assert_eq!(tier_default(&doc, "fast"), Some("b".to_string()));
    assert_eq!(tier_default(&doc, "hard"), Some("b".to_string()));
}

#[test]
fn test_ensure_thresholds_config() {
    let mut empty = empty_doc();
    ensure_thresholds_config(&mut empty);
    assert_eq!(empty.thresholds, Section::Present);
    assert!(empty.has_min_tokens_per_second);
    assert!(matches!(empty.edits[0], DocEdit::CreateThresholds));
    assert!(empty.edits.iter().any(|e| matches!(
        e,
        DocEdit::SetThreshold { key: ThresholdField::MinTokensPerSecond, value: FieldValue::Decimal(100, 1) }
    )));

    let mut existing = empty_doc();
    existing.thresholds = Section::Present;
    ensure_thresholds_config(&mut existing);
    assert!(existing.has_min_tokens_per_second);
    assert_eq!(existing.edits.len(), 1);
    assert!(matches!(
        existing.edits[0],
        DocEdit::SetThreshold { key: ThresholdField::MinTokensPerSecond, value: FieldValue::Decimal(100, 1) }
    ));

    let mut custom = empty_doc();
    custom.thresholds = Section::Present;
    custom.has_min_tokens_per_second = true;
    ensure_thresholds_config(&mut custom);
    assert!(custom.edits.is_empty());
}

#[test]
fn thresholds_settle_after_one_run() {
    let mut doc = empty_doc();
    ensure_thresholds_config(&mut doc);
    let n = doc.edits.len();
    assert_eq!(n, 6);
    ensure_thresholds_config(&mut doc);
    assert_eq!(doc.edits.len(), n);
}

#[test]
fn new_custom_provider_table_defaults() {
    let mut doc = empty_doc();
    add_custom_provider(&mut doc, "x", "", "openai", "http://h/v1", Some(""), &Vec::new(), false);
    assert_eq!(doc.providers, Section::Present);
    let t = &doc.tables[0];
    assert_eq!(t.name.as_deref(), Some("x"));
    assert_eq!(t.api_key, None);
    assert_eq!(t.tier.as_deref(), Some("fast"));
    assert_eq!(t.weight, Some((10, 1)));
    assert_eq!(t.timeout_ms, Some(30000));
    assert_eq!(t.enabled, Some(false));
    assert!(matches!(doc.edits[0], DocEdit::CreateProviders));
    assert!(matches!(doc.edits[1], DocEdit::AppendProvider));
    assert!(matches!(doc.edits[2], DocEdit::SetField { index: 0, field: ProviderField::Id, .. }));
}

#[test]
fn custom_provider_matched_by_name_keeps_its_key() {
    let mut doc = empty_doc();
    doc.providers = Section::Present;
    let mut t = table("ignored", Some(true), ModelList::Absent);
    t.id = None;
    t.name = Some("vllm".to_string());
    t.api_key = Some("old-key".to_string());
    doc.tables.push(t);
    add_custom_provider(&mut doc, "vllm", "", "openai", "http://gpu/v1", None, &names(&["m"]), true);
    assert_eq!(doc.tables.len(), 1);
    assert_eq!(doc.tables[0].api_key.as_deref(), Some("old-key"));
    assert_eq!(doc.tables[0].base_url.as_deref(), Some("http://gpu/v1"));
}

#[test]
fn providers_of_another_shape_are_left_alone() {
    let mut doc = empty_doc();
    doc.providers = Section::Other;
    add_custom_provider(&mut doc, "x", "X", "openai", "u", None, &Vec::new(), true);
    configure_minimax(&mut doc, Some("k".to_string()), None);
    upsert_local_models(&mut doc, &names(&["m"]), true);
    assert!(doc.tables.is_empty());
    assert!(doc.edits.is_empty());
}

#[test]
fn hosted_provider_without_key_and_table_is_not_added() {
    let mut doc = empty_doc();
    configure_mistral(&mut doc, None, None);
    assert!(doc.tables.is_empty());
    configure_mistral(&mut doc, Some("key".to_string()), None);
    let t = &doc.tables[0];
    assert_eq!(t.id.as_deref(), Some("mistral"));
    assert_eq!(t.name.as_deref(), Some("Mistral AI Platform"));
    assert_eq!(t.kind.as_deref(), Some("openai"));
    assert_eq!(t.base_url.as_deref(), Some("https://api.mistral.ai/v1"));
    assert_eq!(t.timeout_ms, Some(25000));
    assert_eq!(t.tier.as_deref(), Some("hard"));
    assert!(matches!(&t.models, ModelList::Names(v) if v.is_empty()));
}

#[test]
fn local_models_merge_into_table_lists() {
    let mut doc = empty_doc();
    doc.providers = Section::Present;
    let mut t = table("my-broker", Some(false), ModelList::Tables(vec![Some("a".to_string()), None]));
    t.kind = Some("varlink".to_string());
    doc.tables.push(t);
    upsert_local_models(&mut doc, &names(&["a", "b", "b"]), true);
    assert_eq!(doc.tables.len(), 1);
    assert_eq!(doc.tables[0].enabled, Some(true));
    assert!(matches!(&doc.tables[0].models, ModelList::Tables(v) if v.len() == 3));
    assert_eq!(listed(&doc.tables[0].models), names(&["a", "b"]));
    upsert_local_models(&mut doc, &Vec::new(), false);
    assert_eq!(doc.tables[0].enabled, Some(true));
}

#[test]
fn default_model_is_pinned_or_refused() {
    let mut doc = empty_doc();
    doc.providers = Section::Present;
    doc.tables.push(table("p", Some(true), ModelList::Names(vec![Some("Qwen-7B".to_string()), Some("m2".to_string())])));
    let refused = pin_default_model(&mut doc, "nope");
    assert_eq!(refused, Err("'nope' is not a connected model. Connected: Qwen-7B, m2".to_string()));
    assert_eq!(pin_default_model(&mut doc, "qwen-7b"), Ok("Qwen-7B".to_string()));
    assert_eq!(tier_default(&doc, "fast"), Some("Qwen-7B".to_string()));
    assert_eq!(tier_default(&doc, "hard"), Some("Qwen-7B".to_string()));

    let mut bare = empty_doc();
    assert_eq!(
        pin_default_model(&mut bare, "x"),
        Err("'x' is not a connected model. Run: sudo routerctl setup".to_string())
    );
}

#[test]
fn tier_defaults_are_independent() {
    let mut doc = empty_doc();
    doc.tiers = Section::Present;
    doc.tier_entries.push(TierEntry { name: "hard".to_string(), table_like: true, default_model: Some("big".to_string()) });
    set_tier_default(&mut doc, "fast", "small");
    assert_eq!(tier_default(&doc, "fast"), Some("small".to_string()));
    assert_eq!(tier_default(&doc, "hard"), Some("big".to_string()));
    assert_eq!(tier_default(&doc, "auto"), None);
}

#[test]
fn audit_reads_defaults_and_skips_disabled() {
    let mut doc = empty_doc();
    doc.providers = Section::Present;
    let mut off = table("off", Some(false), ModelList::Absent);
    off.kind = Some("varlink".to_string());
    doc.tables.push(off);
    let mut bare = table("bare", None, ModelList::Absent);
    bare.id = None;
    doc.tables.push(bare);
    let mut local = table("loc", Some(true), ModelList::Absent);
    local.kind = Some("varlink".to_string());
    local.base_url = Some("/run/x.sock".to_string());
    doc.tables.push(local);
    let entries = audit_entries(&doc);
    assert_eq!(entries.len(), 2);
    assert_eq!(entries[0].idx, 1);
    assert_eq!(entries[0].id, "?");
    assert_eq!(entries[0].kind, "openai");
    assert_eq!(entries[0].base_url, "");
    assert!(matches!(entries[0].probe(), AuditProbe::Remote));
    assert!(matches!(entries[1].probe(), AuditProbe::LocalSocket(ref p) if p == "/run/x.sock"));
}

#[test]
fn audit_results_switch_tables() {
    let mut doc = empty_doc();
    doc.providers = Section::Present;
    doc.tables.push(table("a", None, ModelList::Names(vec![Some("old".to_string())])));
    doc.tables.push(table("b", Some(true), ModelList::Absent));
    assert_eq!(record_audit_result(&mut doc, 0, Ok(names(&["x", "y"]))), Some("LIVE · 2 model(s)".to_string()));
    assert_eq!(listed(&doc.tables[0].models), names(&["x", "y"]));
    assert_eq!(doc.tables[0].enabled, Some(true));
    assert_eq!(record_audit_result(&mut doc, 1, Err("Connection failed: refused".to_string())), Some("OFF · Connection failed: refused".to_string()));
    assert_eq!(doc.tables[1].enabled, Some(false));
    assert_eq!(record_audit_result(&mut doc, 1, local_socket_outcome(true)), Some("LIVE · local".to_string()));
    assert_eq!(record_audit_result(&mut doc, 7, Ok(Vec::new())), None);
    assert!(matches!(local_socket_outcome(false), Err(ref e) if e == "local socket missing"));
}

#[test]
fn local_detection_registers_what_exists() {
    let mut doc = empty_doc();
    let found = record_local_detection(&mut doc, Some(names(&["qwen2.5-coder:7b"])), &names(&["gemma"]), false);
    assert!(found.found_any);
    assert_eq!(
        found.report,
        vec![
            ("local-ollama".to_string(), "LIVE · 1 model(s)".to_string()),
            ("syntrop-local".to_string(), "OFF · broker not running".to_string()),
        ]
    );
    let ollama = with_id(&doc, "local-ollama")[0];
    assert_eq!(ollama.base_url.as_deref(), Some("http://127.0.0.1:11434/v1"));
    assert_eq!(ollama.kind.as_deref(), Some("ollama"));
    let local = with_id(&doc, "syntrop-local")[0];
    assert_eq!(local.enabled, Some(false));
    assert_eq!(local.weight, Some((13, 1)));
    assert_eq!(local.base_url.as_deref(), Some("/run/syntrop/io.syntrop.Inference1"));

    let mut none = empty_doc();
    let nothing = record_local_detection(&mut none, None, &Vec::new(), true);
    assert!(!nothing.found_any);
    assert!(nothing.report.is_empty());
    let mut files = empty_doc();
    let r = record_local_detection(&mut files, None, &names(&["a", "b"]), true);
    assert_eq!(r.report, vec![("syntrop-local".to_string(), "LIVE · 2 file(s)".to_string())]);
}

#[test]
fn key_steps_record_their_outcome() {
    let mut doc = empty_doc();
    assert_eq!(record_key_step(&mut doc, HostedProvider::Minimax, KeyAnswer::Skipped), "OFF · skipped");
    assert!(doc.tables.is_empty());
    assert_eq!(
        record_key_step(&mut doc, HostedProvider::Minimax, KeyAnswer::Probed("k".to_string(), Ok(names(&["m1", "m2"])))),
        "LIVE · 2 model(s)"
    );
    assert_eq!(doc.tables[0].kind.as_deref(), Some("minimax"));
    assert_eq!(doc.tables[0].base_url.as_deref(), Some("https://api.minimaxi.chat/v1"));
    assert_eq!(
        record_key_step(&mut doc, HostedProvider::Minimax, KeyAnswer::Probed("k".to_string(), Err("Key rejected".to_string()))),
        "OFF · Key rejected"
    );
    assert_eq!(doc.tables[0].enabled, Some(false));
    assert_eq!(doc.tables.len(), 1);
}

#[test]
fn custom_step_answers() {
    assert!(is_yes("Y"));
    assert!(is_yes("yes"));
    assert!(is_yes("YeS"));
    assert!(!is_yes("yep"));
    assert!(!is_yes(""));
    assert_eq!(answer_or("", "custom-provider"), "custom-provider");
    assert_eq!(answer_or("vllm", "custom-provider"), "vllm");
    assert_eq!(custom_base_url(""), "https://api.openai.com/v1");
    assert_eq!(custom_base_url("http://gpu:8000/v1//"), "http://gpu:8000/v1");
    assert_eq!(split_model_list(" a, b ,,c, "), names(&["a", "b", "c"]));
    assert!(split_model_list("").is_empty());
    assert_eq!(split_model_list("solo"), names(&["solo"]));
}

#[test]
fn custom_step_outcomes() {
    let mut doc = empty_doc();
    let line = record_custom_step(&mut doc, "p", "P", "http://h", None, Err("down".to_string()), CustomFallback::NotSaved);
    assert_eq!(line, "OFF · down (not saved)");
    assert!(doc.tables.is_empty());
    let line = record_custom_step(&mut doc, "p", "P", "http://h", None, Err("down".to_string()), CustomFallback::SaveAnyway(names(&["m"])));
    assert_eq!(line, "OFF · down (saved anyway)");
    assert_eq!(doc.tables[0].enabled, Some(false));
    let line = record_custom_step(&mut doc, "p", "P", "http://h", Some("k"), Ok(names(&["a"])), CustomFallback::NotSaved);
    assert_eq!(line, "LIVE · 1 model(s)");
    assert_eq!(doc.tables.len(), 1);
    assert_eq!(doc.tables[0].enabled, Some(true));
    assert_eq!(doc.tables[0].api_key.as_deref(), Some("k"));
}

#[test]
fn model_files_must_be_real_gguf() {
    assert!(is_real_model_file(Some("gguf"), Some(1_000_001)));
    assert!(!is_real_model_file(Some("gguf"), Some(1_000_000)));
    assert!(!is_real_model_file(Some("bin"), Some(5_000_000)));
    assert!(!is_real_model_file(None, Some(5_000_000)));
    assert!(!is_real_model_file(Some("gguf"), None));
}

#[test]
fn probe_urls_and_status() {
    assert_eq!(models_url("http://127.0.0.1:11434/v1/"), "http://127.0.0.1:11434/v1/models");
    assert_eq!(tags_url("http://h:11434"), "http://h:11434/api/tags");
    assert_eq!(probe_authorization(Some("  sk-1 ")), Some("Bearer sk-1".to_string()));
    assert_eq!(probe_authorization(Some("   ")), None);
    assert_eq!(probe_authorization(None), None);
    assert_eq!(probe_step(401, "http://h/v1"), ProbeStep::KeyRejected);
    assert_eq!(probe_step(403, "http://h"), ProbeStep::KeyRejected);
    assert_eq!(probe_step(404, "http://h:11434"), ProbeStep::TryTags);
    assert_eq!(probe_step(404, "http://h/v1"), ProbeStep::Failed);
    assert_eq!(probe_step(200, "http://h"), ProbeStep::ReadBody);
    assert_eq!(probe_step(500, "http://h"), ProbeStep::Failed);
}

#[test]
fn listing_prefers_openai_shape() {
    let both = ModelListing {
        data: Some(vec![Some("a".to_string())]),
        models: Some(vec![Some("x".to_string())]),
    };
    assert_eq!(listed_model_ids(&both), Ok(names(&["a"])));
    let only_ollama = ModelListing { data: Some(Vec::new()), models: Some(vec![Some("x".to_string())]) };
    assert_eq!(listed_model_ids(&only_ollama), Ok(names(&["x"])));
    let none = ModelListing { data: None, models: None };
    assert_eq!(listed_model_ids(&none), Err("Endpoint answered but listed no models".to_string()));
    assert_eq!(tags_model_ids(&both), Ok(names(&["x"])));
    assert!(tags_model_ids(&none).is_err());
}

fn is_set(e: &DocEdit, idx: usize, f: ProviderField) -> bool {
    matches!(e, DocEdit::SetField { index, field, .. } if *index == idx && *field == f)
}

#[test]
fn mistral_without_key_records_only_its_switch() {
    let mut doc = empty_doc();
    doc.providers = Section::Present;
    doc.tables.push(table("other", Some(true), ModelList::Absent));
    doc.tables.push(table("mistral", Some(true), ModelList::Absent));
    configure_mistral(&mut doc, None, None);
    assert_eq!(doc.edits.len(), 1);
    assert!(matches!(
        &doc.edits[0],
        DocEdit::SetField { index: 1, field: ProviderField::Enabled, value: FieldValue::Flag(false) }
    ));
}

#[test]
fn new_custom_provider_edits_fill_one_new_table() {
    let mut doc = empty_doc();
    add_custom_provider(&mut doc, "vllm", "", "openai", "http://h/v1", None, &names(&["m"]), true);
    assert!(matches!(doc.edits[0], DocEdit::CreateProviders));
    assert!(matches!(doc.edits[1], DocEdit::AppendProvider));
    assert!(doc.edits[2..].iter().all(|e| matches!(e, DocEdit::SetField { index: 0, .. })));
    assert!(doc.edits.iter().any(|e| matches!(
        e,
        DocEdit::SetField { index: 0, field: ProviderField::Enabled, value: FieldValue::Flag(true) }
    )));
    assert!(doc.edits.iter().any(|e| matches!(
        e,
        DocEdit::SetField { index: 0, field: ProviderField::Id, value: FieldValue::Text(t) } if t == "vllm"
    )));
}

#[test]
fn second_local_upsert_appends_only_the_new_model() {
    let mut doc = empty_doc();
    doc.providers = Section::Present;
    upsert_local_models(&mut doc, &names(&["m1"]), true);
    let before = doc.edits.len();
    upsert_local_models(&mut doc, &names(&["m1", "m2"]), true);
    let new = &doc.edits[before..];
    assert_eq!(new.len(), 2);
    assert!(is_set(&new[0], 0, ProviderField::Enabled));
    assert!(matches!(&new[1], DocEdit::AppendModelName { index: 0, name } if name == "m2"));
    assert_eq!(listed(&doc.tables[0].models), names(&["m1", "m2"]));
}

#[test]
fn tier_default_edits_create_what_is_missing() {
    let mut doc = empty_doc();
    set_tier_default(&mut doc, "fast", "b");
    assert_eq!(doc.edits.len(), 3);
    assert!(matches!(doc.edits[0], DocEdit::CreateTiers));
    assert!(matches!(&doc.edits[1], DocEdit::CreateTier { tier } if tier == "fast"));
    assert!(matches!(&doc.edits[2], DocEdit::SetTierDefault { tier, model } if tier == "fast" && model == "b"));
    set_tier_default(&mut doc, "hard", "b");
    assert_eq!(doc.edits.len(), 5);
    assert!(matches!(&doc.edits[4], DocEdit::SetTierDefault { tier, model } if tier == "hard" && model == "b"));
    set_tier_default(&mut doc, "fast", "c");
    assert_eq!(doc.edits.len(), 6);
    assert!(matches!(&doc.edits[5], DocEdit::SetTierDefault { tier, model } if tier == "fast" && model == "c"));
}

#[test]
fn dead_audit_records_a_single_switch_off() {
    let mut doc = empty_doc();
    doc.providers = Section::Present;
    doc.tables.push(table("a", Some(true), ModelList::Absent));
    doc.tables.push(table("b", Some(true), ModelList::Absent));
    record_audit_result(&mut doc, 1, Err("HTTP 500".to_string()));
    assert_eq!(doc.edits.len(), 1);
    assert!(matches!(
        &doc.edits[0],
        DocEdit::SetField { index: 1, field: ProviderField::Enabled, value: FieldValue::Flag(false) }
    ));
}

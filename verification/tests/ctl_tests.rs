use routerd::ctl::{connected_models, find_model_ci, is_virtual_model, parse_default_pick};

#[test]
fn virtual_aliases_filtered_everywhere() {
    let all = vec![
        "router:fast".to_string(),
        "router:hard".to_string(),
        "router:auto".to_string(),
        "fast".to_string(),
        "hard".to_string(),
        "auto".to_string(),
        "MiniMax-Text-01".to_string(),
    ];
    assert_eq!(connected_models(&all), vec!["MiniMax-Text-01".to_string()]);
    assert!(connected_models(&Vec::new()).is_empty());
}

#[test]
fn test_default_pick_parsing() {
    let options = vec![
        ("prov-a".to_string(), "model-a".to_string()),
        ("prov-b".to_string(), "model-b".to_string()),
    ];
    assert_eq!(parse_default_pick("1", &options), Some("model-a".to_string()));
    assert_eq!(parse_default_pick("2", &options), Some("model-b".to_string()));
    assert_eq!(parse_default_pick("model-b", &options), Some("model-b".to_string()));
    assert_eq!(parse_default_pick("MODEL-A", &options), Some("model-a".to_string()));
    assert_eq!(parse_default_pick("", &options), None);
    assert_eq!(parse_default_pick("skip", &options), None);
    assert_eq!(parse_default_pick("0", &options), None);
    assert_eq!(parse_default_pick("9", &options), None);
    assert_eq!(parse_default_pick("nope", &options), None);
}

#[test]
fn default_pick_trims_and_accepts_no() {
    let options = vec![("p".to_string(), "Qwen".to_string())];
    assert_eq!(parse_default_pick("  1  ", &options), Some("Qwen".to_string()));
    assert_eq!(parse_default_pick("N", &options), None);
    assert_eq!(parse_default_pick("SKIP", &options), None);
    assert_eq!(parse_default_pick("+1", &options), Some("Qwen".to_string()));
    assert_eq!(parse_default_pick("qwen", &options), Some("Qwen".to_string()));
}

#[test]
fn virtual_model_names() {
    assert!(is_virtual_model("router:anything"));
    assert!(is_virtual_model("auto"));
    assert!(!is_virtual_model("Auto"));
    assert!(!is_virtual_model("gpt-4o"));
    assert!(!is_virtual_model("router"));
}

#[test]
fn model_lookup_ignores_ascii_case_and_keeps_spelling() {
    let options = vec![
        ("a".to_string(), "Llama-3".to_string()),
        ("b".to_string(), "llama-3".to_string()),
    ];
    assert_eq!(find_model_ci(&options, "LLAMA-3"), Some("Llama-3".to_string()));
    assert_eq!(find_model_ci(&options, "mistral"), None);
}

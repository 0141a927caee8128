use routerd::models::{ChatCompletionRequest, ChatMessage, MessageContent};
use routerd::scoring::RequestProfile;

fn user(role: &str, text: &str) -> ChatMessage {
    ChatMessage { role: role.to_string(), content: MessageContent::Text(text.to_string()), name: None }
}

#[test]
fn test_token_estimation_and_limits() {
    let req = ChatCompletionRequest {
        model: "router:fast".to_string(),
        messages: vec![
            user("system", "You are a helpful Linux assistant."),
            user("user", "Explain how systemd socket activation works in pure Rust."),
        ],
        max_tokens: Some(1024),
        max_completion_tokens: None,
        stream: None,
        tier: None,
    };

    let prompt_est = req.estimate_prompt_tokens();
    assert!(prompt_est > 10 && prompt_est < 60);

    let total_est = req.estimate_total_tokens();
    assert_eq!(total_est, prompt_est + 1024);
}

#[test]
fn test_zero_cross_chat_context_contamination() {
    let req1 = ChatCompletionRequest {
        model: "router:fast".to_string(),
        messages: vec![user("user", "Secret confidential prompt 1")],
        max_tokens: Some(128),
        max_completion_tokens: None,
        stream: None,
        tier: None,
    };

    let p1 = RequestProfile::from_request(&req1, "fast");
    let prompt1_len = req1.estimate_prompt_tokens();
    drop(req1);

    let req2 = ChatCompletionRequest {
        model: "router:fast".to_string(),
        messages: vec![user("user", "Public prompt 2 with different length content here")],
        max_tokens: Some(128),
        max_completion_tokens: None,
        stream: None,
        tier: None,
    };

    let p2 = RequestProfile::from_request(&req2, "fast");
    let prompt2_len = req2.estimate_prompt_tokens();

    assert_ne!(p1.estimated_prompt_tokens, 0);
    assert_ne!(p2.estimated_prompt_tokens, 0);
    assert_ne!(prompt1_len, prompt2_len);
    assert_eq!(p1.estimated_prompt_tokens, prompt1_len);
    assert_eq!(p2.estimated_prompt_tokens, prompt2_len);
}

#[test]
fn empty_request_estimates_one_prompt_token() {
    let req = ChatCompletionRequest {
        model: "m".to_string(),
        messages: Vec::new(),
        max_tokens: None,
        max_completion_tokens: None,
        stream: None,
        tier: None,
    };
    assert_eq!(req.estimate_prompt_tokens(), 1);
}

#[test]
fn prompt_tokens_follow_utf8_bytes() {
    // 4 bytes of role, 4 of framing and 38 of text: ceil(46 / 3.8) = 13.
    let req = ChatCompletionRequest {
        model: "m".to_string(),
        messages: vec![user("user", "abcdefghijklmnopqrstuvwxyz0123456789ab")],
        max_tokens: None,
        max_completion_tokens: Some(10),
        stream: Some(true),
        tier: Some("hard".to_string()),
    };
    let p = RequestProfile::from_request(&req, "fast");
    assert_eq!(p.requested_tier, "hard");
    assert!(p.require_stream);
    assert_eq!(p.estimated_output_tokens, 10);
    assert_eq!(p.estimated_prompt_tokens, 13);
    assert_eq!(req.estimate_total_tokens(), 23);
}

#[test]
fn content_parts_join_their_texts() {
    let m = ChatMessage {
        role: "user".to_string(),
        content: MessageContent::Parts(vec![Some("a".to_string()), None, Some("b".to_string())]),
        name: None,
    };
    assert_eq!(m.content_as_str(), "a b ");
}

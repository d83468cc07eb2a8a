use commit_crafter::config;
use commit_crafter::llm::openai;

#[test]
fn test_openai_request_by_no_config() {
    let cfg = config::default_config();
    let result = openai::build_openai_request(&cfg, "prompt", "diff_content", &vec![]);
    match result {
        Err(e) => assert_eq!(e, "OpenAI API key or URL is empty"),
        Ok(_) => panic!("Expected an error for an empty API key"),
    }
}

#[test]
fn test_build_openai_request() {
    let mut cfg = config::default_config();
    config::set_config_key("openai_api_key", "sk-test", &mut cfg).unwrap();
    let history = vec![
        "feat: add new feature".to_string(),
        "fix: resolve bug in authentication".to_string(),
        "docs: update README".to_string(),
    ];
    let req = openai::build_openai_request(&cfg, "the prompt", "diff_content", &history).unwrap();
    assert_eq!(req.url, "https://api.openai.com/v1/chat/completions");
    assert_eq!(req.auth_header, "Bearer sk-test");

    let body: serde_json::Value = serde_json::from_str(&req.body).unwrap();
    assert_eq!(body["model"].as_str(), Some("gpt-4o-mini"));
    assert_eq!(body["max_tokens"].as_i64(), Some(60));
    assert_eq!(body["messages"][0]["role"].as_str(), Some("system"));
    assert_eq!(body["messages"][0]["content"].as_str(), Some("the prompt"));
    assert_eq!(body["messages"][1]["role"].as_str(), Some("user"));
    let user = body["messages"][1]["content"].as_str().unwrap();
    assert_eq!(
        user,
        "Recent commit messages for reference:\n\
         1. feat: add new feature\n\
         2. fix: resolve bug in authentication\n\
         3. docs: update README\n\
         \n---\n\nGit diff content:\ndiff_content"
    );
}

#[test]
fn test_build_user_message_with_empty_history() {
    let msg = openai::build_user_message(&vec![], "diff_content");
    assert_eq!(msg, "Git diff content:\ndiff_content");
}

#[test]
fn test_build_user_message_numbering() {
    let history: Vec<String> = (0..12).map(|i| format!("commit {}", i)).collect();
    let msg = openai::build_user_message(&history, "d");
    assert!(msg.contains("1. commit 0\n"));
    assert!(msg.contains("10. commit 9\n"));
    assert!(msg.contains("12. commit 11\n"));
    assert!(msg.starts_with("Recent commit messages for reference:\n"));
    assert!(msg.ends_with("\n---\n\nGit diff content:\nd"));
}

#[test]
fn test_request_body_escapes_json() {
    let body = openai::openai_request_body("m\"x", "sys\nline", "user \\ \"quote\"\ttab");
    let parsed: serde_json::Value = serde_json::from_str(&body).unwrap();
    assert_eq!(parsed["model"].as_str(), Some("m\"x"));
    assert_eq!(parsed["messages"][0]["content"].as_str(), Some("sys\nline"));
    assert_eq!(
        parsed["messages"][1]["content"].as_str(),
        Some("user \\ \"quote\"\ttab")
    );
}

#[test]
fn test_json_string_of_control_chars() {
    let s = openai::json_string_of("a\u{1}b\u{7f}c");
    assert_eq!(s, "\"a\\u0001b\\u007Fc\"");
    let parsed: serde_json::Value = serde_json::from_str(&s).unwrap();
    assert_eq!(parsed.as_str(), Some("a\u{1}b\u{7f}c"));
}

#[test]
fn test_chat_completions_url() {
    let url = openai::chat_completions_url("http://localhost:8080");
    assert_eq!(url, "http://localhost:8080/v1/chat/completions");
}

use commit_crafter::config;

#[test]
fn test_generate_config_toml() {
    let toml_str = config::generate_config_toml();
    assert!(toml_str.contains("openai_api_key = \"\""));
    assert!(toml_str.contains("openai_url = \"https://api.openai.com\""));
    assert!(toml_str.contains("openai_model = \"gpt-4o-mini\""));
    assert!(toml_str.contains("user_language = \"en\""));
}

#[test]
fn test_set_config_key() {
    let config_str = config::generate_config_toml();
    let mut cfg = config::parse_config_toml(&config_str).unwrap();

    config::set_config_key("openai_api_key", "test_key", &mut cfg).unwrap();

    let new_config_str = config::config_to_toml(&cfg);
    assert!(new_config_str.contains("openai_api_key = \"test_key\""));
}

#[test]
fn test_get_config_key() {
    let config_str = config::generate_config_toml();
    let cfg = config::parse_config_toml(&config_str).unwrap();

    let key = "openai_api_key";
    let value = config::get_config_key(&[key], &cfg).unwrap();
    assert_eq!(value, vec![""]);
}

#[test]
fn test_list_config_keys() {
    let config_str = config::generate_config_toml();
    let cfg = config::parse_config_toml(&config_str).unwrap();

    let keys = [
        "openai_api_key",
        "openai_url",
        "openai_model",
        "user_language",
    ];
    let values = config::get_config_key(&keys, &cfg).unwrap();
    assert_eq!(
        values,
        vec!["", "https://api.openai.com", "gpt-4o-mini", "en"]
    );
}

#[test]
fn test_set_get_config_key() {
    let config_str = config::generate_config_toml();
    let mut cfg = config::parse_config_toml(&config_str).unwrap();

    let result = config::set_config_key("openai_api_key", "test_api_key", &mut cfg);
    assert!(result.is_ok());

    let result = config::get_config_key(&["openai_api_key"], &cfg);
    assert!(result.is_ok());
    assert_eq!(result.unwrap()[0], "test_api_key");
}

#[test]
fn test_set_get_config_key_error() {
    let config_str = config::generate_config_toml();
    let mut cfg = config::parse_config_toml(&config_str).unwrap();

    let result = config::set_config_key("invalid_key", "invalid_value", &mut cfg);
    assert!(result.is_err());

    let result = config::get_config_key(&["invalid_key"], &cfg);
    assert!(result.is_err());
}

#[test]
fn test_validate_config_key() {
    assert_eq!(config::validate_config_key("openai_api_key"), Ok("openai_api_key"));
    assert_eq!(config::validate_config_key("openai_url"), Ok("openai_url"));
    assert_eq!(config::validate_config_key("openai_model"), Ok("openai_model"));
    assert_eq!(config::validate_config_key("user_language"), Ok("user_language"));
    assert_eq!(
        config::validate_config_key("openai_api_keys"),
        Err("Invalid configuration key")
    );
    assert_eq!(config::validate_config_key(""), Err("Invalid configuration key"));
}

#[test]
fn test_move_prompt_toml() {
    let prompts = config::default_prompt_config();
    let prompt_toml = config::prompt_config_to_toml(&prompts);
    assert!(prompt_toml.contains("prompt_zh"));
}

#[test]
fn test_get_language() {
    let prompts = config::default_prompt_config();

    let en_prompt = config::get_language("en", &prompts);
    assert!(en_prompt.contains("English"));

    let zh_prompt = config::get_language("zh", &prompts);
    assert!(zh_prompt.contains("简体中文"));
}

#[test]
fn test_config_round_trip_plain() {
    let config_str = config::generate_config_toml();
    let cfg = config::parse_config_toml(&config_str).unwrap();
    assert_eq!(cfg.openai_api_key, "");
    assert_eq!(cfg.openai_url, "https://api.openai.com");
    assert_eq!(cfg.openai_model, "gpt-4o-mini");
    assert_eq!(cfg.user_language, "en");
}

#[test]
fn test_config_round_trip_escaped_values() {
    let mut cfg = config::default_config();
    config::set_config_key("openai_api_key", "a \"quoted\" key\\with\nnewline\tand\rmore", &mut cfg)
        .unwrap();
    config::set_config_key("openai_model", "模型\u{1}\u{7f}", &mut cfg).unwrap();
    let text = config::config_to_toml(&cfg);
    let back = config::parse_config_toml(&text).unwrap();
    assert_eq!(back.openai_api_key, "a \"quoted\" key\\with\nnewline\tand\rmore");
    assert_eq!(back.openai_url, cfg.openai_url);
    assert_eq!(back.openai_model, "模型\u{1}\u{7f}");
    assert_eq!(back.user_language, cfg.user_language);
}

#[test]
fn test_prompt_round_trip() {
    let prompts = config::default_prompt_config();
    let text = config::prompt_config_to_toml(&prompts);
    let back = config::parse_prompt_toml(&text).unwrap();
    assert_eq!(back.prompt_zh, prompts.prompt_zh);
    assert_eq!(back.prompt_en, prompts.prompt_en);
    assert_eq!(back.prompt_jp, prompts.prompt_jp);
    assert_eq!(back.prompt_zh_tw, prompts.prompt_zh_tw);
}

#[test]
fn test_parse_config_accepts_comments_and_literal_strings() {
    let text = "# settings\n\n  openai_api_key = 'abc' # key\nopenai_url=\"u\"\nopenai_model = \"m\"\nuser_language = \"en\"\n";
    let cfg = config::parse_config_toml(text).unwrap();
    assert_eq!(cfg.openai_api_key, "abc");
    assert_eq!(cfg.openai_url, "u");
    assert_eq!(cfg.openai_model, "m");
    assert_eq!(cfg.user_language, "en");
}

#[test]
fn test_parse_config_malformed() {
    let text = "openai_api_key = unquoted\n";
    match config::parse_config_toml(text) {
        Err(config::ConfigParseError::Malformed) => {}
        other => panic!("expected a malformed-line error, got {:?}", other.is_ok()),
    }
}

#[test]
fn test_parse_config_duplicate_key() {
    let text = "openai_api_key = \"a\"\nopenai_api_key = \"b\"\nopenai_url = \"u\"\nopenai_model = \"m\"\nuser_language = \"en\"\n";
    match config::parse_config_toml(text) {
        Err(config::ConfigParseError::DuplicateKey) => {}
        other => panic!("expected a duplicate-key error, got {:?}", other.is_ok()),
    }
}

#[test]
fn test_parse_config_missing_key() {
    let text = "openai_api_key = \"a\"\nopenai_url = \"u\"\nopenai_model = \"m\"\n";
    match config::parse_config_toml(text) {
        Err(config::ConfigParseError::MissingKey) => {}
        other => panic!("expected a missing-key error, got {:?}", other.is_ok()),
    }
}

#[test]
fn test_generated_config_is_valid_toml() {
    let config_str = config::generate_config_toml();
    let table: toml::Table = toml::from_str(&config_str).unwrap();
    assert_eq!(table["openai_api_key"].as_str(), Some(""));
    assert_eq!(table["openai_url"].as_str(), Some("https://api.openai.com"));
    assert_eq!(table["openai_model"].as_str(), Some("gpt-4o-mini"));
    assert_eq!(table["user_language"].as_str(), Some("en"));
}

#[test]
fn test_escaped_config_is_valid_toml() {
    let mut cfg = config::default_config();
    config::set_config_key("openai_api_key", "a \"b\"\\c\nd\te", &mut cfg).unwrap();
    let text = config::config_to_toml(&cfg);
    let table: toml::Table = toml::from_str(&text).unwrap();
    assert_eq!(table["openai_api_key"].as_str(), Some("a \"b\"\\c\nd\te"));
}

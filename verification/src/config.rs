//! The tool's configuration: four string-valued settings, stored as a flat
//! table of `key = "value"` lines, and the prompt texts the commit-message
//! request is built from.

use vstd::prelude::*;

use crate::strutil::{chars_to_string, str_eq, str_to_chars};
use crate::toml_text::{
    pairs_distinct, pairs_distinct_exec, pairs_lookup, pairs_lookup_exec, parse_doc, parse_pairs,
    push_kv_line, render_pairs, wf_key, lemma_render_pairs_parse,
};

verus! {

pub const VALID_OPENAI_API_KEY: &'static str = "openai_api_key";

pub const VALID_OPENAI_URL: &'static str = "openai_url";

pub const VALID_OPENAI_MODEL: &'static str = "openai_model";

pub const VALID_USER_LANGUAGE: &'static str = "user_language";

/// The mathematical value of a configuration: its four settings.
pub struct ConfigV {
    pub openai_api_key: Seq<char>,
    pub openai_url: Seq<char>,
    pub openai_model: Seq<char>,
    pub user_language: Seq<char>,
}

/// A configuration.
pub struct Config {
    pub openai_api_key: String,
    pub openai_url: String,
    pub openai_model: String,
    pub user_language: String,
}

impl View for Config {
    type V = ConfigV;

    open spec fn view(&self) -> ConfigV {
        ConfigV {
            openai_api_key: self.openai_api_key@,
            openai_url: self.openai_url@,
            openai_model: self.openai_model@,
            user_language: self.user_language@,
        }
    }
}

/// Whether `k` is one of the four configuration keys.
pub open spec fn is_valid_key(k: Seq<char>) -> bool {
    k == VALID_OPENAI_API_KEY@ || k == VALID_OPENAI_URL@ || k == VALID_OPENAI_MODEL@ || k
        == VALID_USER_LANGUAGE@
}

/// The setting of `c` that the key `k` names (the empty sequence for a key
/// that is none of the four).
pub open spec fn spec_config_value(c: ConfigV, k: Seq<char>) -> Seq<char> {
    if k == VALID_OPENAI_API_KEY@ {
        c.openai_api_key
    } else if k == VALID_OPENAI_URL@ {
        c.openai_url
    } else if k == VALID_OPENAI_MODEL@ {
        c.openai_model
    } else if k == VALID_USER_LANGUAGE@ {
        c.user_language
    } else {
        Seq::empty()
    }
}

/// `c` with the setting that `k` names replaced by `v`.
pub open spec fn spec_config_set(c: ConfigV, k: Seq<char>, v: Seq<char>) -> ConfigV {
    if k == VALID_OPENAI_API_KEY@ {
        ConfigV { openai_api_key: v, ..c }
    } else if k == VALID_OPENAI_URL@ {
        ConfigV { openai_url: v, ..c }
    } else if k == VALID_OPENAI_MODEL@ {
        ConfigV { openai_model: v, ..c }
    } else if k == VALID_USER_LANGUAGE@ {
        ConfigV { user_language: v, ..c }
    } else {
        c
    }
}

/// The key/value pairs of a configuration, in the order they are written.
pub open spec fn spec_config_pairs(c: ConfigV) -> Seq<(Seq<char>, Seq<char>)> {
    seq![
        (VALID_OPENAI_API_KEY@, c.openai_api_key),
        (VALID_OPENAI_URL@, c.openai_url),
        (VALID_OPENAI_MODEL@, c.openai_model),
        (VALID_USER_LANGUAGE@, c.user_language),
    ]
}

/// The text a configuration is written as.
pub open spec fn spec_config_toml(c: ConfigV) -> Seq<char> {
    render_pairs(spec_config_pairs(c))
}

/// The configuration that key/value pairs describe: every key at most
/// once, and each of the four settings present.
pub open spec fn spec_config_of_pairs(ps: Seq<(Seq<char>, Seq<char>)>) -> Option<ConfigV> {
    if !pairs_distinct(ps) {
        None
    } else {
        let key = pairs_lookup(ps, VALID_OPENAI_API_KEY@);
        let url = pairs_lookup(ps, VALID_OPENAI_URL@);
        let model = pairs_lookup(ps, VALID_OPENAI_MODEL@);
        let lang = pairs_lookup(ps, VALID_USER_LANGUAGE@);
        if key is Some && url is Some && model is Some && lang is Some {
            Some(
                ConfigV {
                    openai_api_key: key->Some_0,
                    openai_url: url->Some_0,
                    openai_model: model->Some_0,
                    user_language: lang->Some_0,
                },
            )
        } else {
            None
        }
    }
}

/// The configuration that a text describes, if any.
pub open spec fn spec_parse_config(text: Seq<char>) -> Option<ConfigV> {
    match parse_doc(text) {
        None => None,
        Some(ps) => spec_config_of_pairs(ps),
    }
}

/// The configuration the tool starts from.
pub open spec fn spec_default_config() -> ConfigV {
    ConfigV {
        openai_api_key: Seq::empty(),
        openai_url: "https://api.openai.com"@,
        openai_model: "gpt-4o-mini"@,
        user_language: "en"@,
    }
}

/// Accepts exactly the four configuration keys; an unknown key is
/// rejected.
pub fn validate_config_key<'a>(key: &'a str) -> (r: Result<&'a str, &'static str>)
    ensures
        r is Ok <==> is_valid_key(key@),
        r matches Ok(k) ==> k@ == key@,
        r matches Err(e) ==> e@ == "Invalid configuration key"@,
{
    if str_eq(key, VALID_OPENAI_API_KEY) || str_eq(key, VALID_OPENAI_URL) || str_eq(
        key,
        VALID_OPENAI_MODEL,
    ) || str_eq(key, VALID_USER_LANGUAGE) {
        Ok(key)
    } else {
        Err("Invalid configuration key")
    }
}

/// The configuration the tool starts from: an empty key, the public
/// endpoint, the small default model, English.
pub fn default_config() -> (c: Config)
    ensures
        c@ == spec_default_config(),
{
    Config {
        openai_api_key: String::new(),
        openai_url: String::from_str("https://api.openai.com"),
        openai_model: String::from_str("gpt-4o-mini"),
        user_language: String::from_str("en"),
    }
}

/// Writes a configuration as its four `key = "value"` lines.
pub fn config_to_toml(c: &Config) -> (r: String)
    ensures
        r@ == spec_config_toml(c@),
{
    let mut out: Vec<char> = Vec::new();
    let k1 = str_to_chars(VALID_OPENAI_API_KEY);
    let k2 = str_to_chars(VALID_OPENAI_URL);
    let k3 = str_to_chars(VALID_OPENAI_MODEL);
    let k4 = str_to_chars(VALID_USER_LANGUAGE);
    let v1 = str_to_chars(c.openai_api_key.as_str());
    let v2 = str_to_chars(c.openai_url.as_str());
    let v3 = str_to_chars(c.openai_model.as_str());
    let v4 = str_to_chars(c.user_language.as_str());
    push_kv_line(&mut out, &k1, &v1);
    push_kv_line(&mut out, &k2, &v2);
    push_kv_line(&mut out, &k3, &v3);
    push_kv_line(&mut out, &k4, &v4);
    proof {
        lemma_render_pairs_unfold4(spec_config_pairs(c@));
        assert(out@ =~= spec_config_toml(c@));
    }
    chars_to_string(&out)
}

/// Rendering a four-pair sequence is the concatenation of its four lines.
proof fn lemma_render_pairs_unfold4(ps: Seq<(Seq<char>, Seq<char>)>)
    requires
        ps.len() == 4,
    ensures
        render_pairs(ps) == crate::toml_text::render_kv_line(ps[0].0, ps[0].1)
            + crate::toml_text::render_kv_line(ps[1].0, ps[1].1) + crate::toml_text::render_kv_line(
            ps[2].0,
            ps[2].1,
        ) + crate::toml_text::render_kv_line(ps[3].0, ps[3].1),
{
    let p1 = ps.drop_first();
    let p2 = p1.drop_first();
    let p3 = p2.drop_first();
    let p4 = p3.drop_first();
    assert(p4.len() == 0);
    assert(render_pairs(p4) == Seq::<char>::empty());
    assert(p1[0] == ps[1] && p2[0] == ps[2] && p3[0] == ps[3]);
    assert(render_pairs(p3) == crate::toml_text::render_kv_line(ps[3].0, ps[3].1) + render_pairs(
        p4,
    ));
    assert(render_pairs(p2) == crate::toml_text::render_kv_line(ps[2].0, ps[2].1) + render_pairs(
        p3,
    ));
    assert(render_pairs(p1) == crate::toml_text::render_kv_line(ps[1].0, ps[1].1) + render_pairs(
        p2,
    ));
    assert(render_pairs(ps) == crate::toml_text::render_kv_line(ps[0].0, ps[0].1) + render_pairs(
        p1,
    ));
    assert(render_pairs(ps) =~= crate::toml_text::render_kv_line(ps[0].0, ps[0].1)
        + crate::toml_text::render_kv_line(ps[1].0, ps[1].1) + crate::toml_text::render_kv_line(
        ps[2].0,
        ps[2].1,
    ) + crate::toml_text::render_kv_line(ps[3].0, ps[3].1));
}

/// The default configuration, written as text.
pub fn generate_config_toml() -> (r: String)
    ensures
        r@ == spec_config_toml(spec_default_config()),
{
    let c = default_config();
    config_to_toml(&c)
}

/// Why a configuration text was rejected.
#[derive(Debug, PartialEq, Eq)]
pub enum ConfigParseError {
    /// Some line is not in the grammar.
    Malformed,
    /// Some key is bound twice.
    DuplicateKey,
    /// One of the four settings is missing.
    MissingKey,
}

/// Reads a configuration back from text: `Ok` exactly when the text is a
/// well-formed table that binds each of the four keys once.
pub fn parse_config_toml(text: &str) -> (r: Result<Config, ConfigParseError>)
    ensures
        match r {
            Ok(c) => spec_parse_config(text@) == Some(c@),
            Err(e) => spec_parse_config(text@) is None && match e {
                ConfigParseError::Malformed => parse_doc(text@) is None,
                ConfigParseError::DuplicateKey => parse_doc(text@) matches Some(ps)
                    && !pairs_distinct(ps),
                ConfigParseError::MissingKey => parse_doc(text@) matches Some(ps)
                    && pairs_distinct(ps),
            },
        },
{
    match parse_pairs(text) {
        None => Err(ConfigParseError::Malformed),
        Some(ps) => {
            if !pairs_distinct_exec(&ps) {
                Err(ConfigParseError::DuplicateKey)
            } else {
                let key = pairs_lookup_exec(&ps, VALID_OPENAI_API_KEY);
                let url = pairs_lookup_exec(&ps, VALID_OPENAI_URL);
                let model = pairs_lookup_exec(&ps, VALID_OPENAI_MODEL);
                let lang = pairs_lookup_exec(&ps, VALID_USER_LANGUAGE);
                match (key, url, model, lang) {
                    (Some(key), Some(url), Some(model), Some(lang)) => Ok(
                        Config {
                            openai_api_key: key,
                            openai_url: url,
                            openai_model: model,
                            user_language: lang,
                        },
                    ),
                    _ => Err(ConfigParseError::MissingKey),
                }
            }
        },
    }
}

/// Reads the settings named by `keys` out of a configuration, in order:
/// `Ok` exactly when every key is one of the four.
pub fn get_config_key(keys: &[&str], config: &Config) -> (r: Result<Vec<String>, &'static str>)
    ensures
        r is Ok <==> (forall|i: int| 0 <= i < keys@.len() ==> is_valid_key((#[trigger] keys@[i])@)),
        r matches Ok(vs) ==> vs@.len() == keys@.len() && (forall|i: int|
            0 <= i < keys@.len() ==> (#[trigger] vs@[i])@ == spec_config_value(
                config@,
                keys@[i]@,
            )),
        r matches Err(e) ==> e@ == "Invalid configuration key"@,
{
    let mut result: Vec<String> = Vec::new();
    let mut idx: usize = 0;
    while idx < keys.len()
        invariant
            idx <= keys@.len(),
            result@.len() == idx,
            forall|i: int| 0 <= i < idx ==> is_valid_key((#[trigger] keys@[i])@),
            forall|i: int|
                0 <= i < idx ==> (#[trigger] result@[i])@ == spec_config_value(
                    config@,
                    keys@[i]@,
                ),
        decreases keys@.len() - idx,
    {
        let key = keys[idx];
        if str_eq(key, VALID_OPENAI_API_KEY) {
            result.push(config.openai_api_key.clone());
        } else if str_eq(key, VALID_OPENAI_URL) {
            result.push(config.openai_url.clone());
        } else if str_eq(key, VALID_OPENAI_MODEL) {
            result.push(config.openai_model.clone());
        } else if str_eq(key, VALID_USER_LANGUAGE) {
            result.push(config.user_language.clone());
        } else {
            return Err("Invalid configuration key");
        }
        idx = idx + 1;
    }
    Ok(result)
}

/// Replaces the setting that `key` names: `Ok` exactly when the key is
/// one of the four; an unknown key is rejected and changes nothing.
pub fn set_config_key(key: &str, value: &str, config: &mut Config) -> (r: Result<
    (),
    &'static str,
>)
    ensures
        r is Ok <==> is_valid_key(key@),
        r is Ok ==> final (config)@ == spec_config_set(old(config)@, key@, value@),
        r is Err ==> final (config)@ == old(config)@,
        r matches Err(e) ==> e@ == "Invalid configuration key"@,
{
    if str_eq(key, VALID_OPENAI_API_KEY) {
        config.openai_api_key = String::from_str(value);
        Ok(())
    } else if str_eq(key, VALID_OPENAI_URL) {
        config.openai_url = String::from_str(value);
        Ok(())
    } else if str_eq(key, VALID_OPENAI_MODEL) {
        config.openai_model = String::from_str(value);
        Ok(())
    } else if str_eq(key, VALID_USER_LANGUAGE) {
        config.user_language = String::from_str(value);
        Ok(())
    } else {
        Err("Invalid configuration key")
    }
}

/// The four configuration keys are well-formed bare keys, and pairwise
/// different (their lengths already differ).
proof fn lemma_config_keys()
    ensures
        wf_key(VALID_OPENAI_API_KEY@),
        wf_key(VALID_OPENAI_URL@),
        wf_key(VALID_OPENAI_MODEL@),
        wf_key(VALID_USER_LANGUAGE@),
        VALID_OPENAI_API_KEY@.len() == 14,
        VALID_OPENAI_URL@.len() == 10,
        VALID_OPENAI_MODEL@.len() == 12,
        VALID_USER_LANGUAGE@.len() == 13,
{
    reveal_strlit("openai_api_key");
    reveal_strlit("openai_url");
    reveal_strlit("openai_model");
    reveal_strlit("user_language");
    assert(VALID_OPENAI_API_KEY@ =~= seq![
        'o',
        'p',
        'e',
        'n',
        'a',
        'i',
        '_',
        'a',
        'p',
        'i',
        '_',
        'k',
        'e',
        'y',
    ]);
    assert(VALID_OPENAI_URL@ =~= seq!['o', 'p', 'e', 'n', 'a', 'i', '_', 'u', 'r', 'l']);
    assert(VALID_OPENAI_MODEL@ =~= seq![
        'o',
        'p',
        'e',
        'n',
        'a',
        'i',
        '_',
        'm',
        'o',
        'd',
        'e',
        'l',
    ]);
    assert(VALID_USER_LANGUAGE@ =~= seq![
        'u',
        's',
        'e',
        'r',
        '_',
        'l',
        'a',
        'n',
        'g',
        'u',
        'a',
        'g',
        'e',
    ]);
}

/// Writing a configuration and reading the text back yields the same
/// configuration, whatever its settings hold.
pub proof fn lemma_config_toml_round_trip(c: ConfigV)
    ensures
        spec_parse_config(spec_config_toml(c)) == Some(c),
{
    let ps = spec_config_pairs(c);
    lemma_config_keys();
    assert(forall|i: int| 0 <= i < ps.len() ==> wf_key((#[trigger] ps[i]).0));
    lemma_render_pairs_parse(ps);
    assert(pairs_distinct(ps));
    let p1 = ps.drop_first();
    let p2 = p1.drop_first();
    let p3 = p2.drop_first();
    let p4 = p3.drop_first();
    assert(p1[0] == ps[1] && p2[0] == ps[2] && p3[0] == ps[3] && p4.len() == 0);
    assert(pairs_lookup(ps, VALID_OPENAI_API_KEY@) == Some(c.openai_api_key));
    assert(pairs_lookup(p1, VALID_OPENAI_URL@) == Some(c.openai_url));
    assert(pairs_lookup(ps, VALID_OPENAI_URL@) == Some(c.openai_url));
    assert(pairs_lookup(p2, VALID_OPENAI_MODEL@) == Some(c.openai_model));
    assert(pairs_lookup(p1, VALID_OPENAI_MODEL@) == Some(c.openai_model));
    assert(pairs_lookup(ps, VALID_OPENAI_MODEL@) == Some(c.openai_model));
    assert(pairs_lookup(p3, VALID_USER_LANGUAGE@) == Some(c.user_language));
    assert(pairs_lookup(p2, VALID_USER_LANGUAGE@) == Some(c.user_language));
    assert(pairs_lookup(p1, VALID_USER_LANGUAGE@) == Some(c.user_language));
    assert(pairs_lookup(ps, VALID_USER_LANGUAGE@) == Some(c.user_language));
}

pub const PROMPT_ZH_KEY: &'static str = "prompt_zh";

pub const PROMPT_EN_KEY: &'static str = "prompt_en";

pub const PROMPT_JP_KEY: &'static str = "prompt_jp";

pub const PROMPT_ZH_TW_KEY: &'static str = "prompt_zh_tw";

pub const PROMPT_ZH: &'static str = "请根据以下git diff内容，结合最近5条提交信息，生成一条风格一致、语言纯正的简洁Git提交信息。请仅用简体中文描述，避免中英混用。根据本次更改的性质，从以下前缀中选择一个开头：'build'（构建系统）、'chore'（杂务）、'ci'（持续集成）、'docs'（文档）、'feat'（新功能）、'fix'（修复）、'perf'（性能）、'refactor'（重构）、'style'（样式）、'test'（测试）。提交信息应重点突出本次更改的核心目的和影响，避免冗长和无关细节。示例：\n\nfeat: 支持多语言提交信息生成\nfix: 修复API密钥配置无法保存的问题\n\n请生成一条与上文风格一致的提交信息：";

pub const PROMPT_EN: &'static str = "Based on the following git diff content and the last 5 commit messages, generate a concise and stylistically consistent Git commit message. Only use English; avoid mixing languages. Start the message with one of these prefixes according to the nature of the change: 'build' (build system), 'chore' (miscellaneous), 'ci' (continuous integration), 'docs' (documentation), 'feat' (new feature), 'fix' (fix), 'perf' (performance), 'refactor' (refactor), 'style' (style), 'test' (test). The message should clearly state the main purpose and impact of this change, without unnecessary details. For example:\n\nfeat: add multi-language commit message support\nfix: resolve issue with API key configuration not saving\n\nPlease generate a message matching the above style:";

pub const PROMPT_JP: &'static str = "以下のgitの差分内容と直近5件のコミットメッセージを参考に、統一感のある簡潔なGitコミットメッセージを日本語のみで生成してください（他言語を混ぜない）。変更内容に応じて、次のいずれかの接頭辞で始めてください：'build'（ビルドシステム）、'chore'（その他）、'ci'（継続的インテグレーション）、'docs'（ドキュメント）、'feat'（新機能）、'fix'（修正）、'perf'（パフォーマンス）、'refactor'（リファクタリング）、'style'（スタイル）、'test'（テスト）。変更の主旨と影響を簡潔に伝え、冗長な説明や不要な詳細は避けてください。例：\n\nfeat: 多言語コミットメッセージ生成をサポート\nfix: APIキー設定が保存できない問題を修正\n\n上記のスタイルに合わせてコミットメッセージを生成してください：";

pub const PROMPT_ZH_TW: &'static str = "請根據以下git差異內容，以及最近5筆提交訊息，生成一條風格一致、語言純正且精簡的Git提交訊息。請只用繁體中文描述，避免中英混合。根據此次更改的性質，從下列前綴選擇一個作為開頭：'build'（構建系統）、'chore'（雜務）、'ci'（持續整合）、'docs'（文件）、'feat'（新功能）、'fix'（修復）、'perf'（效能）、'refactor'（重構）、'style'（樣式）、'test'（測試）。訊息需明確說明此更動的主要目的與影響，避免冗長或無關資訊。範例：\n\nfeat: 支援多語言提交訊息生成\nfix: 修正API金鑰設定無法儲存的問題\n\n請產生一條符合上述風格的提交訊息：";

/// The mathematical value of the prompt table: one prompt per language.
pub struct PromptConfigV {
    pub prompt_zh: Seq<char>,
    pub prompt_en: Seq<char>,
    pub prompt_jp: Seq<char>,
    pub prompt_zh_tw: Seq<char>,
}

/// The prompt texts, one per supported language.
pub struct PromptConfig {
    pub prompt_zh: String,
    pub prompt_en: String,
    pub prompt_jp: String,
    pub prompt_zh_tw: String,
}

impl View for PromptConfig {
    type V = PromptConfigV;

    open spec fn view(&self) -> PromptConfigV {
        PromptConfigV {
            prompt_zh: self.prompt_zh@,
            prompt_en: self.prompt_en@,
            prompt_jp: self.prompt_jp@,
            prompt_zh_tw: self.prompt_zh_tw@,
        }
    }
}

/// The key/value pairs of the prompt table, in the order they are written.
pub open spec fn spec_prompt_pairs(p: PromptConfigV) -> Seq<(Seq<char>, Seq<char>)> {
    seq![
        (PROMPT_ZH_KEY@, p.prompt_zh),
        (PROMPT_EN_KEY@, p.prompt_en),
        (PROMPT_JP_KEY@, p.prompt_jp),
        (PROMPT_ZH_TW_KEY@, p.prompt_zh_tw),
    ]
}

/// The text the prompt table is written as.
pub open spec fn spec_prompt_toml(p: PromptConfigV) -> Seq<char> {
    render_pairs(spec_prompt_pairs(p))
}

/// The prompt table that key/value pairs describe.
pub open spec fn spec_prompt_of_pairs(ps: Seq<(Seq<char>, Seq<char>)>) -> Option<PromptConfigV> {
    if !pairs_distinct(ps) {
        None
    } else {
        let zh = pairs_lookup(ps, PROMPT_ZH_KEY@);
        let en = pairs_lookup(ps, PROMPT_EN_KEY@);
        let jp = pairs_lookup(ps, PROMPT_JP_KEY@);
        let zh_tw = pairs_lookup(ps, PROMPT_ZH_TW_KEY@);
        if zh is Some && en is Some && jp is Some && zh_tw is Some {
            Some(
                PromptConfigV {
                    prompt_zh: zh->Some_0,
                    prompt_en: en->Some_0,
                    prompt_jp: jp->Some_0,
                    prompt_zh_tw: zh_tw->Some_0,
                },
            )
        } else {
            None
        }
    }
}

/// The prompt table that a text describes, if any.
pub open spec fn spec_parse_prompt(text: Seq<char>) -> Option<PromptConfigV> {
    match parse_doc(text) {
        None => None,
        Some(ps) => spec_prompt_of_pairs(ps),
    }
}

/// The prompt table the tool ships with.
pub fn default_prompt_config() -> (p: PromptConfig)
    ensures
        p@.prompt_zh == PROMPT_ZH@,
        p@.prompt_en == PROMPT_EN@,
        p@.prompt_jp == PROMPT_JP@,
        p@.prompt_zh_tw == PROMPT_ZH_TW@,
{
    PromptConfig {
        prompt_zh: String::from_str(PROMPT_ZH),
        prompt_en: String::from_str(PROMPT_EN),
        prompt_jp: String::from_str(PROMPT_JP),
        prompt_zh_tw: String::from_str(PROMPT_ZH_TW),
    }
}

/// Writes the prompt table as its four `key = "value"` lines.
pub fn prompt_config_to_toml(p: &PromptConfig) -> (r: String)
    ensures
        r@ == spec_prompt_toml(p@),
{
    let mut out: Vec<char> = Vec::new();
    let k1 = str_to_chars(PROMPT_ZH_KEY);
    let k2 = str_to_chars(PROMPT_EN_KEY);
    let k3 = str_to_chars(PROMPT_JP_KEY);
    let k4 = str_to_chars(PROMPT_ZH_TW_KEY);
    let v1 = str_to_chars(p.prompt_zh.as_str());
    let v2 = str_to_chars(p.prompt_en.as_str());
    let v3 = str_to_chars(p.prompt_jp.as_str());
    let v4 = str_to_chars(p.prompt_zh_tw.as_str());
    push_kv_line(&mut out, &k1, &v1);
    push_kv_line(&mut out, &k2, &v2);
    push_kv_line(&mut out, &k3, &v3);
    push_kv_line(&mut out, &k4, &v4);
    proof {
        lemma_render_pairs_unfold4(spec_prompt_pairs(p@));
        assert(out@ =~= spec_prompt_toml(p@));
    }
    chars_to_string(&out)
}

/// Reads the prompt table back from text: `Ok` exactly when the text is a
/// well-formed table that binds each of the four prompt keys once.
pub fn parse_prompt_toml(text: &str) -> (r: Result<PromptConfig, ConfigParseError>)
    ensures
        match r {
            Ok(p) => spec_parse_prompt(text@) == Some(p@),
            Err(e) => spec_parse_prompt(text@) is None && match e {
                ConfigParseError::Malformed => parse_doc(text@) is None,
                ConfigParseError::DuplicateKey => parse_doc(text@) matches Some(ps)
                    && !pairs_distinct(ps),
                ConfigParseError::MissingKey => parse_doc(text@) matches Some(ps)
                    && pairs_distinct(ps),
            },
        },
{
    match parse_pairs(text) {
        None => Err(ConfigParseError::Malformed),
        Some(ps) => {
            if !pairs_distinct_exec(&ps) {
                Err(ConfigParseError::DuplicateKey)
            } else {
                let zh = pairs_lookup_exec(&ps, PROMPT_ZH_KEY);
                let en = pairs_lookup_exec(&ps, PROMPT_EN_KEY);
                let jp = pairs_lookup_exec(&ps, PROMPT_JP_KEY);
                let zh_tw = pairs_lookup_exec(&ps, PROMPT_ZH_TW_KEY);
                match (zh, en, jp, zh_tw) {
                    (Some(zh), Some(en), Some(jp), Some(zh_tw)) => Ok(
                        PromptConfig { prompt_zh: zh, prompt_en: en, prompt_jp: jp, prompt_zh_tw: zh_tw },
                    ),
                    _ => Err(ConfigParseError::MissingKey),
                }
            }
        },
    }
}

/// The supported language codes.
pub open spec fn is_valid_language(l: Seq<char>) -> bool {
    l == "zh"@ || l == "en"@ || l == "jp"@ || l == "zh_tw"@
}

/// The prompt of `p` for the language `l` (the empty sequence for an
/// unsupported code).
pub open spec fn spec_language_prompt(p: PromptConfigV, l: Seq<char>) -> Seq<char> {
    if l == "zh"@ {
        p.prompt_zh
    } else if l == "en"@ {
        p.prompt_en
    } else if l == "jp"@ {
        p.prompt_jp
    } else if l == "zh_tw"@ {
        p.prompt_zh_tw
    } else {
        Seq::empty()
    }
}

/// The prompt for a supported language code.
pub fn get_language(user_language: &str, prompts: &PromptConfig) -> (r: String)
    requires
        is_valid_language(user_language@),
    ensures
        r@ == spec_language_prompt(prompts@, user_language@),
{
    if str_eq(user_language, "zh") {
        prompts.prompt_zh.clone()
    } else if str_eq(user_language, "en") {
        prompts.prompt_en.clone()
    } else if str_eq(user_language, "jp") {
        prompts.prompt_jp.clone()
    } else {
        prompts.prompt_zh_tw.clone()
    }
}

/// The four prompt keys are well-formed bare keys and pairwise different.
proof fn lemma_prompt_keys()
    ensures
        wf_key(PROMPT_ZH_KEY@),
        wf_key(PROMPT_EN_KEY@),
        wf_key(PROMPT_JP_KEY@),
        wf_key(PROMPT_ZH_TW_KEY@),
        PROMPT_ZH_KEY@ != PROMPT_EN_KEY@,
        PROMPT_ZH_KEY@ != PROMPT_JP_KEY@,
        PROMPT_ZH_KEY@ != PROMPT_ZH_TW_KEY@,
        PROMPT_EN_KEY@ != PROMPT_JP_KEY@,
        PROMPT_EN_KEY@ != PROMPT_ZH_TW_KEY@,
        PROMPT_JP_KEY@ != PROMPT_ZH_TW_KEY@,
{
    reveal_strlit("prompt_zh");
    reveal_strlit("prompt_en");
    reveal_strlit("prompt_jp");
    reveal_strlit("prompt_zh_tw");
    assert(PROMPT_ZH_KEY@ =~= seq!['p', 'r', 'o', 'm', 'p', 't', '_', 'z', 'h']);
    assert(PROMPT_EN_KEY@ =~= seq!['p', 'r', 'o', 'm', 'p', 't', '_', 'e', 'n']);
    assert(PROMPT_JP_KEY@ =~= seq!['p', 'r', 'o', 'm', 'p', 't', '_', 'j', 'p']);
    assert(PROMPT_ZH_TW_KEY@ =~= seq![
        'p',
        'r',
        'o',
        'm',
        'p',
        't',
        '_',
        'z',
        'h',
        '_',
        't',
        'w',
    ]);
    assert(PROMPT_ZH_KEY@[7] != PROMPT_EN_KEY@[7]);
    assert(PROMPT_ZH_KEY@[7] != PROMPT_JP_KEY@[7]);
    assert(PROMPT_EN_KEY@[7] != PROMPT_JP_KEY@[7]);
}

/// Writing the prompt table and reading the text back yields the same
/// table, whatever its prompts hold.
pub proof fn lemma_prompt_toml_round_trip(p: PromptConfigV)
    ensures
        spec_parse_prompt(spec_prompt_toml(p)) == Some(p),
{
    let ps = spec_prompt_pairs(p);
    lemma_prompt_keys();
    assert(forall|i: int| 0 <= i < ps.len() ==> wf_key((#[trigger] ps[i]).0));
    lemma_render_pairs_parse(ps);
    assert(pairs_distinct(ps));
    let p1 = ps.drop_first();
    let p2 = p1.drop_first();
    let p3 = p2.drop_first();
    let p4 = p3.drop_first();
    assert(p1[0] == ps[1] && p2[0] == ps[2] && p3[0] == ps[3] && p4.len() == 0);
    assert(pairs_lookup(ps, PROMPT_ZH_KEY@) == Some(p.prompt_zh));
    assert(pairs_lookup(p1, PROMPT_EN_KEY@) == Some(p.prompt_en));
    assert(pairs_lookup(ps, PROMPT_EN_KEY@) == Some(p.prompt_en));
    assert(pairs_lookup(p2, PROMPT_JP_KEY@) == Some(p.prompt_jp));
    assert(pairs_lookup(p1, PROMPT_JP_KEY@) == Some(p.prompt_jp));
    assert(pairs_lookup(ps, PROMPT_JP_KEY@) == Some(p.prompt_jp));
    assert(pairs_lookup(p3, PROMPT_ZH_TW_KEY@) == Some(p.prompt_zh_tw));
    assert(pairs_lookup(p2, PROMPT_ZH_TW_KEY@) == Some(p.prompt_zh_tw));
    assert(pairs_lookup(p1, PROMPT_ZH_TW_KEY@) == Some(p.prompt_zh_tw));
    assert(pairs_lookup(ps, PROMPT_ZH_TW_KEY@) == Some(p.prompt_zh_tw));
}

} // verus!

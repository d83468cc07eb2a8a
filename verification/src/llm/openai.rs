//! Building the chat-completion request that asks for a commit message:
//! the endpoint, the authorization header, the user message assembled from
//! the recent commits and the staged diff, and the JSON body.
//!
//! The JSON body is framed here, character by character, with string
//! values escaped as `escape_str` writes them (its escapes are valid JSON
//! string escapes); what comes back over the wire is read outside the
//! library.

use vstd::prelude::*;

use crate::config::Config;
use crate::numfmt::{push_dec_digits, spec_dec_digits};
use crate::strutil::{chars_to_string, str_to_chars};
use crate::toml_text::{escape_str, push_escaped};

verus! {

/// A JSON string: the escaped value between double quotes.
pub open spec fn spec_json_string(v: Seq<char>) -> Seq<char> {
    seq!['"'] + escape_str(v) + seq!['"']
}

/// The value `v` as a JSON string.
pub fn json_string_of(v: &str) -> (r: String)
    ensures
        r@ == spec_json_string(v@),
{
    let cs = str_to_chars(v);
    let mut out: Vec<char> = Vec::new();
    out.push('"');
    push_escaped(&mut out, &cs);
    out.push('"');
    proof {
        assert(out@ =~= spec_json_string(v@));
    }
    chars_to_string(&out)
}

/// One numbered line per commit subject, `1.` first, from index `i` on.
pub open spec fn spec_numbered_history(history: Seq<Seq<char>>, i: int) -> Seq<char>
    decreases history.len() - i,
{
    if i < 0 || i >= history.len() {
        Seq::empty()
    } else {
        spec_dec_digits((i + 1) as nat) + seq!['.', ' '] + history[i] + seq!['\n']
            + spec_numbered_history(history, i + 1)
    }
}

/// The user turn of the request: the numbered recent commits (when there
/// are any), a separator, and the staged diff.
pub open spec fn spec_user_message(history: Seq<Seq<char>>, diff: Seq<char>) -> Seq<char> {
    (if history.len() > 0 {
        "Recent commit messages for reference:\n"@ + spec_numbered_history(history, 0)
            + "\n---\n\n"@
    } else {
        Seq::empty()
    }) + "Git diff content:\n"@ + diff
}

/// Assembles the user turn from the recent commits and the staged diff.
pub fn build_user_message(commit_history: &Vec<String>, diff_content: &str) -> (r: String)
    ensures
        r@ == spec_user_message(commit_history.deep_view(), diff_content@),
{
    let ghost h = commit_history.deep_view();
    let mut msg = String::new();
    if commit_history.len() > 0 {
        msg.append("Recent commit messages for reference:\n");
        let mut i: usize = 0;
        while i < commit_history.len()
            invariant
                i <= commit_history@.len(),
                h == commit_history.deep_view(),
                h.len() == commit_history@.len(),
                msg@ + spec_numbered_history(h, i as int) == "Recent commit messages for reference:\n"@
                    + spec_numbered_history(h, 0),
            decreases commit_history@.len() - i,
        {
            let ghost msg0 = msg@;
            let mut num: Vec<char> = Vec::new();
            push_dec_digits((i as u64) + 1, &mut num);
            let num_s = chars_to_string(&num);
            msg.append(num_s.as_str());
            msg.append(". ");
            msg.append(commit_history[i].as_str());
            msg.append("\n");
            proof {
                reveal_strlit(". ");
                reveal_strlit("\n");
                assert(". "@ =~= seq!['.', ' ']);
                assert("\n"@ =~= seq!['\n']);
                assert(h[i as int] == commit_history@[i as int]@);
                assert(msg@ =~= msg0 + (spec_dec_digits((i + 1) as nat) + seq!['.', ' ']
                    + h[i as int] + seq!['\n']));
                assert(msg@ + spec_numbered_history(h, i + 1) =~= msg0 + spec_numbered_history(
                    h,
                    i as int,
                ));
            }
            i = i + 1;
        }
        proof {
            assert(spec_numbered_history(h, h.len() as int) == Seq::<char>::empty());
            assert(msg@ + Seq::<char>::empty() =~= msg@);
        }
        msg.append("\n---\n\n");
    }
    msg.append("Git diff content:\n");
    msg.append(diff_content);
    proof {
        assert(msg@ =~= spec_user_message(h, diff_content@));
    }
    msg
}

/// The chat-completions endpoint under a base URL.
pub fn chat_completions_url(base_url: &str) -> (r: String)
    ensures
        r@ == base_url@ + "/v1/chat/completions"@,
{
    let mut s = String::from_str(base_url);
    s.append("/v1/chat/completions");
    proof {
        assert(s@ =~= base_url@ + "/v1/chat/completions"@);
    }
    s
}

/// The authorization header value for an API key.
pub fn bearer_header(api_key: &str) -> (r: String)
    ensures
        r@ == "Bearer "@ + api_key@,
{
    let mut s = String::from_str("Bearer ");
    s.append(api_key);
    proof {
        assert(s@ =~= "Bearer "@ + api_key@);
    }
    s
}

/// The JSON body of the request: the model, a system turn holding the
/// prompt, a user turn holding `user_message`, and the token cap.
pub open spec fn spec_request_body(
    model: Seq<char>,
    system_prompt: Seq<char>,
    user_message: Seq<char>,
) -> Seq<char> {
    "{\"model\":"@ + spec_json_string(model)
        + ",\"messages\":[{\"role\":\"system\",\"content\":"@ + spec_json_string(system_prompt)
        + "},{\"role\":\"user\",\"content\":"@ + spec_json_string(user_message)
        + "}],\"max_tokens\":60}"@
}

/// Writes the JSON body of the request.
pub fn openai_request_body(model: &str, system_prompt: &str, user_message: &str) -> (r: String)
    ensures
        r@ == spec_request_body(model@, system_prompt@, user_message@),
{
    let mut body = String::from_str("{\"model\":");
    let m = json_string_of(model);
    body.append(m.as_str());
    body.append(",\"messages\":[{\"role\":\"system\",\"content\":");
    let s = json_string_of(system_prompt);
    body.append(s.as_str());
    body.append("},{\"role\":\"user\",\"content\":");
    let u = json_string_of(user_message);
    body.append(u.as_str());
    body.append("}],\"max_tokens\":60}");
    proof {
        assert(body@ =~= spec_request_body(model@, system_prompt@, user_message@));
    }
    body
}

/// Everything the one HTTP call needs: where to post, how to authorize,
/// and what to send.
pub struct OpenAiRequest {
    pub url: String,
    pub auth_header: String,
    pub body: String,
}

/// Builds the request for a commit message: `Ok` exactly when the
/// configuration holds both an API key and a URL; the body carries the
/// configured model, the given prompt as the system turn, and the numbered
/// commit history with the diff as the user turn.
pub fn build_openai_request(
    config: &Config,
    system_prompt: &str,
    diff_content: &str,
    commit_history: &Vec<String>,
) -> (r: Result<OpenAiRequest, &'static str>)
    ensures
        r is Ok <==> (config@.openai_api_key.len() > 0 && config@.openai_url.len() > 0),
        r matches Ok(req) ==> {
            &&& req.url@ == config@.openai_url + "/v1/chat/completions"@
            &&& req.auth_header@ == "Bearer "@ + config@.openai_api_key
            &&& req.body@ == spec_request_body(
                config@.openai_model,
                system_prompt@,
                spec_user_message(commit_history.deep_view(), diff_content@),
            )
        },
        r matches Err(e) ==> e@ == "OpenAI API key or URL is empty"@,
{
    if config.openai_api_key.as_str().is_empty() || config.openai_url.as_str().is_empty() {
        return Err("OpenAI API key or URL is empty");
    }
    let user_message = build_user_message(commit_history, diff_content);
    let url = chat_completions_url(config.openai_url.as_str());
    let auth_header = bearer_header(config.openai_api_key.as_str());
    let body = openai_request_body(
        config.openai_model.as_str(),
        system_prompt,
        user_message.as_str(),
    );
    Ok(OpenAiRequest { url, auth_header, body })
}

} // verus!

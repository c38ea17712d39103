//! Client side of the OpenAI-compatible endpoint: settings, the request and
//! the parts of the reply that the agent uses.
use vstd::prelude::*;
use crate::text::{trim_end_char, trim_end_matches_char};

verus! {

/// Provider settings (the `[provider]` section).
#[derive(Debug, Clone)]
pub struct ProviderConfig {
    /// Base URL of the endpoint, e.g. http://192.168.1.10:8000/v1.
    pub base_url: String,
    pub model: String,
    /// Environment variable holding the API key (OPENAI_API_KEY by default).
    pub api_key_env: String,
    pub timeout_secs: u64,
}

pub fn default_key_env() -> (r: String)
    ensures
        r@ == "OPENAI_API_KEY"@,
{
    String::from_str("OPENAI_API_KEY")
}

pub fn default_timeout() -> (r: u64)
    ensures
        r == 10,
{
    10
}

/// A chat completion reply (only the fields used).
#[derive(Debug)]
pub struct ChatResponse {
    pub choices: Vec<Choice>,
}

#[derive(Debug)]
pub struct Choice {
    pub message: Message,
}

#[derive(Debug)]
pub struct Message {
    pub content: String,
}

/// A decision request: system context and current state.
#[derive(Debug, Clone)]
pub struct DecisionRequest {
    pub system: String,
    pub user: String,
}

/// `{base_url}/chat/completions`, without doubled slashes.
pub fn chat_completions_url(cfg: &ProviderConfig) -> (r: String)
    ensures
        r@ == trim_end_char(cfg.base_url@, '/') + "/chat/completions"@,
{
    String::from_str(trim_end_matches_char(cfg.base_url.as_str(), '/')).concat("/chat/completions")
}

/// The text of the first choice; a reply without choices is an error.
pub fn first_choice(resp: &ChatResponse) -> (r: Result<String, String>)
    ensures
        resp.choices@.len() > 0 ==> (r matches Ok(t) && t@ == resp.choices@[0].message.content@),
        resp.choices@.len() == 0 ==> (r matches Err(e) && e@ == "LLM 响应无 choices"@),
{
    if resp.choices.len() > 0 {
        Ok(resp.choices[0].message.content.clone())
    } else {
        Err(String::from_str("LLM 响应无 choices"))
    }
}

} // verus!

//! Connection settings shared by the HTTP model clients, and the URLs they use.

use vstd::prelude::*;
use crate::config::Config;
use crate::utils::text::{strip_trailing, trim_end_matches_char};

verus! {

/// Model name, base URL and bearer token of an OpenAI-compatible endpoint.
pub struct EndpointSettings {
    pub model: String,
    pub base_url: String,
    pub auth_token: Option<String>,
}

pub struct EndpointView {
    pub model: Seq<char>,
    pub base_url: Seq<char>,
    pub auth_token: Option<Seq<char>>,
}

impl View for EndpointSettings {
    type V = EndpointView;

    open spec fn view(&self) -> EndpointView {
        EndpointView {
            model: self.model@,
            base_url: self.base_url@,
            auth_token: self.auth_token.deep_view(),
        }
    }
}

/// The bearer token a configuration gives: its API key, unless that is empty.
pub open spec fn token_of(api_key: Seq<char>) -> Option<Seq<char>> {
    if api_key.len() == 0 {
        None
    } else {
        Some(api_key)
    }
}

impl EndpointSettings {
    /// Settings taken from a configuration.
    pub fn from_config(config: &Config) -> (r: EndpointSettings)
        ensures
            r@ == (EndpointView {
                model: config.model@,
                base_url: config.base_url@,
                auth_token: token_of(config.api_key@),
            }),
    {
        let auth_token = if config.api_key.as_str().unicode_len() == 0 {
            None
        } else {
            Some(config.api_key.clone())
        };
        EndpointSettings { model: config.model.clone(), base_url: config.base_url.clone(), auth_token }
    }

    /// Overrides the base URL.
    pub fn with_base_url(self, base_url: String) -> (r: EndpointSettings)
        ensures
            r@ == (EndpointView { base_url: base_url@, ..self@ }),
    {
        EndpointSettings { base_url, ..self }
    }

    /// Disables authentication.
    pub fn without_auth(self) -> (r: EndpointSettings)
        ensures
            r@ == (EndpointView { auth_token: None, ..self@ }),
    {
        EndpointSettings { auth_token: None, ..self }
    }

    /// Sets the bearer token; `None` disables authentication.
    pub fn with_auth_token(self, token: Option<String>) -> (r: EndpointSettings)
        ensures
            r@ == (EndpointView { auth_token: token.deep_view(), ..self@ }),
    {
        EndpointSettings { auth_token: token, ..self }
    }
}

/// `base` followed by `path`, as given.
pub fn url_join(base: &str, path: &str) -> (r: String)
    ensures
        r@ == base@ + path@,
{
    let mut s = String::from_str(base);
    s.append(path);
    s
}

/// `base` without its trailing slashes, followed by `path`.
pub fn url_join_trimmed(base: &str, path: &str) -> (r: String)
    ensures
        r@ == strip_trailing(base@, '/') + path@,
{
    let mut s = trim_end_matches_char(base, '/');
    s.append(path);
    s
}

/// The chat-completions URL (the base URL is used as given).
pub fn chat_completions_url(base: &str) -> (r: String)
    ensures
        r@ == base@ + "/chat/completions"@,
{
    url_join(base, "/chat/completions")
}

/// The streaming chat-completions URL (trailing slashes of the base are dropped).
pub fn stream_chat_url(base: &str) -> (r: String)
    ensures
        r@ == strip_trailing(base@, '/') + "/chat/completions"@,
{
    url_join_trimmed(base, "/chat/completions")
}

/// The Responses API URL.
pub fn responses_url(base: &str) -> (r: String)
    ensures
        r@ == strip_trailing(base@, '/') + "/responses"@,
{
    url_join_trimmed(base, "/responses")
}

/// The speech-to-text URL.
pub fn transcriptions_url(base: &str) -> (r: String)
    ensures
        r@ == strip_trailing(base@, '/') + "/audio/transcriptions"@,
{
    url_join_trimmed(base, "/audio/transcriptions")
}

/// The text-to-speech URL.
pub fn speech_url(base: &str) -> (r: String)
    ensures
        r@ == strip_trailing(base@, '/') + "/audio/speech"@,
{
    url_join_trimmed(base, "/audio/speech")
}

} // verus!

verus! {

/// Trailing slashes of a base URL do not change the endpoints built from it.
pub proof fn law_trailing_slashes_ignored(base: Seq<char>)
    ensures
        strip_trailing(base.push('/'), '/') == strip_trailing(base, '/'),
{
    assert(base.push('/').drop_last() =~= base);
}

} // verus!

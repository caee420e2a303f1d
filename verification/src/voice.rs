//! Speech endpoints: settings, URLs and the text-to-speech request body.

use vstd::prelude::*;
use crate::config::Config;
use crate::json::{JsonValue, Json, text, object2};
use crate::model::endpoint::{EndpointSettings, EndpointView, token_of, transcriptions_url, speech_url};
use crate::utils::text::strip_trailing;

verus! {

/// Settings of an OpenAI-compatible speech-to-text endpoint.
pub struct OpenAiStt {
    pub endpoint: EndpointSettings,
}

/// Settings of an OpenAI-compatible text-to-speech endpoint.
pub struct OpenAiTts {
    pub endpoint: EndpointSettings,
    pub voice: Option<String>,
    pub format: Option<String>,
}

pub struct TtsView {
    pub endpoint: EndpointView,
    pub voice: Option<Seq<char>>,
    pub format: Option<Seq<char>>,
}

impl View for OpenAiTts {
    type V = TtsView;

    open spec fn view(&self) -> TtsView {
        TtsView { endpoint: self.endpoint@, voice: self.voice.deep_view(), format: self.format.deep_view() }
    }
}

pub open spec fn endpoint_of(config: &Config) -> EndpointView {
    EndpointView {
        model: config.model@,
        base_url: config.base_url@,
        auth_token: token_of(config.api_key@),
    }
}

impl OpenAiStt {
    pub fn new(config: &Config) -> (r: Self)
        ensures
            r.endpoint@ == endpoint_of(config),
    {
        OpenAiStt { endpoint: EndpointSettings::from_config(config) }
    }

    /// The transcription endpoint.
    pub fn url(&self) -> (r: String)
        ensures
            r@ == strip_trailing(self.endpoint@.base_url, '/') + "/audio/transcriptions"@,
    {
        transcriptions_url(self.endpoint.base_url.as_str())
    }
}

/// The speech request body: model and input, then the voice and format when set.
pub open spec fn tts_body_spec(t: TtsView, input: Seq<char>) -> Json {
    let base = Json::Object(seq![("model"@, Json::Text(t.endpoint.model)), ("input"@, Json::Text(input))]);
    let with_voice = match t.voice {
        Some(v) => base.with_field("voice"@, Json::Text(v)),
        None => base,
    };
    match t.format {
        Some(f) => with_voice.with_field("format"@, Json::Text(f)),
        None => with_voice,
    }
}

impl OpenAiTts {
    /// Speech with the `alloy` voice in `wav` format.
    pub fn new(config: &Config) -> (r: Self)
        ensures
            r@ == (TtsView { endpoint: endpoint_of(config), voice: Some("alloy"@), format: Some("wav"@) }),
    {
        OpenAiTts {
            endpoint: EndpointSettings::from_config(config),
            voice: Some(String::from_str("alloy")),
            format: Some(String::from_str("wav")),
        }
    }

    pub fn with_voice(self, voice: String) -> (r: Self)
        ensures
            r@ == (TtsView { voice: Some(voice@), ..self@ }),
    {
        OpenAiTts { voice: Some(voice), ..self }
    }

    pub fn with_format(self, fmt: String) -> (r: Self)
        ensures
            r@ == (TtsView { format: Some(fmt@), ..self@ }),
    {
        OpenAiTts { format: Some(fmt), ..self }
    }

    /// The speech endpoint.
    pub fn url(&self) -> (r: String)
        ensures
            r@ == strip_trailing(self@.endpoint.base_url, '/') + "/audio/speech"@,
    {
        speech_url(self.endpoint.base_url.as_str())
    }

    /// The request body for speaking `input`.
    pub fn body(&self, input: &str) -> (r: JsonValue)
        ensures
            r@ == tts_body_spec(self@, input@),
    {
        let mut body = object2("model", text(self.endpoint.model.as_str()), "input", text(input));
        if let Some(v) = &self.voice {
            body = body.with_field("voice", text(v.as_str()));
        }
        if let Some(f) = &self.format {
            body = body.with_field("format", text(f.as_str()));
        }
        body
    }
}

} // verus!

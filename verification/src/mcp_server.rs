//! The decisions of the MCP HTTP server: request and response bodies, model
//! selection and the fixed status answer.

use vstd::prelude::*;
use crate::error::{AgentError, ErrorView};
use crate::json::{JsonValue, Json, text, text_owned};
use crate::json::str_equal;

verus! {

/// Request payload of `/run`.
#[derive(Debug)]
pub struct RunRequest {
    pub model: String,
    pub prompt: String,
}

/// Response of `/run`.
#[derive(Debug)]
pub struct RunResponse {
    pub result: String,
}

/// The model backends `/run` can use.
#[derive(Debug, Clone, Copy, PartialEq, Eq)]
pub enum ModelChoice {
    OpenAiChat,
    OpenAiRealtime,
    LiteLlm,
}

/// The backend a `/run` request names, or the error for an unknown name.
pub open spec fn model_choice_spec(name: Seq<char>) -> Result<ModelChoice, ErrorView> {
    if name == "openai_chat"@ {
        Ok(ModelChoice::OpenAiChat)
    } else if name == "openai_realtime"@ {
        Ok(ModelChoice::OpenAiRealtime)
    } else if name == "litellm"@ {
        Ok(ModelChoice::LiteLlm)
    } else {
        Err(ErrorView::Other("Unknown model "@ + name))
    }
}

/// Selects the backend named by a `/run` request.
pub fn select_model(name: &str) -> (r: Result<ModelChoice, AgentError>)
    ensures
        match r {
            Ok(c) => model_choice_spec(name@) == Ok::<ModelChoice, ErrorView>(c),
            Err(e) => model_choice_spec(name@) == Err::<ModelChoice, ErrorView>(e@),
        },
{
    if str_equal(name, "openai_chat") {
        Ok(ModelChoice::OpenAiChat)
    } else if str_equal(name, "openai_realtime") {
        Ok(ModelChoice::OpenAiRealtime)
    } else if str_equal(name, "litellm") {
        Ok(ModelChoice::LiteLlm)
    } else {
        let mut msg = String::from_str("Unknown model ");
        msg.append(name);
        Err(AgentError::Other(msg))
    }
}

/// The body of `/status/:session_id`.
pub fn status_body() -> (r: JsonValue)
    ensures
        r@ == Json::Object(seq![("status"@, Json::Text("running"@))]),
{
    let mut es: Vec<(String, JsonValue)> = Vec::new();
    es.push(crate::json::member("status", text("running")));
    proof {
        crate::json::lemma_entries_view(es@);
        assert(crate::json::entries_view(es@) =~= seq![("status"@, Json::Text("running"@))]);
    }
    JsonValue::Object(es)
}

/// The body of an error answer, given the error's message.
pub fn error_body(message: String) -> (r: JsonValue)
    ensures
        r@ == Json::Object(seq![("error"@, Json::Text(message@))]),
{
    let mut es: Vec<(String, JsonValue)> = Vec::new();
    es.push(crate::json::member("error", text_owned(message)));
    proof {
        crate::json::lemma_entries_view(es@);
        assert(crate::json::entries_view(es@) =~= seq![("error"@, Json::Text(message@))]);
    }
    JsonValue::Object(es)
}

} // verus!

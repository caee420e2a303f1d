//! LiteLLM pass-through: the request payload and the strict reading of a reply.

use vstd::prelude::*;
use crate::json::{JsonValue, JsonNumber, Json, values_view, text, array, object3, object4};
use crate::model::{ModelResponse, ModelResponseView, opt_values_view};
use crate::model::openai_chat::{
    ChatCompletion, parse_chat_completion, chat_reply_spec,
    clone_values, int_json, temperature_json, opt_view,
};
use crate::agent::runner::{role_message, role_message_json};
use crate::error::{AgentError, ErrorView};

verus! {

/// The request payload: model, messages, `max_tokens`, `temperature`, and the
/// tools and tool choice when given.
pub open spec fn litellm_payload_spec(
    model: Seq<char>,
    msgs: Seq<Json>,
    tools: Option<Seq<Json>>,
    choice: Option<Json>,
) -> Json {
    let base = Json::Object(
        seq![
            ("model"@, Json::Text(model)),
            ("messages"@, Json::Array(msgs)),
            ("max_tokens"@, int_json(512)),
            ("temperature"@, temperature_json()),
        ],
    );
    let with_tools = match tools {
        Some(ts) => base.with_field("tools"@, Json::Array(ts)),
        None => base,
    };
    match choice {
        Some(c) => with_tools.with_field("tool_choice"@, c),
        None => with_tools,
    }
}

/// The rich request payload.
pub fn litellm_payload(
    model: &str,
    msgs: Vec<JsonValue>,
    tools: Option<&Vec<JsonValue>>,
    tool_choice: Option<JsonValue>,
) -> (r: JsonValue)
    ensures
        r@ == litellm_payload_spec(model@, values_view(msgs@), opt_values_view(tools), opt_view(tool_choice)),
{
    let mut payload = object4(
        "model",
        text(model),
        "messages",
        array(msgs),
        "max_tokens",
        JsonValue::Number(JsonNumber::Int(512)),
        "temperature",
        JsonValue::Number(JsonNumber::Decimal(String::from_str("0.2"))),
    );
    if let Some(t) = tools {
        payload = payload.with_field("tools", array(clone_values(t)));
    }
    if let Some(c) = tool_choice {
        payload = payload.with_field("tool_choice", c);
    }
    payload
}

/// The plain-generation payload: the prompt as the single user message, and `max_tokens`.
pub fn litellm_generate_payload(model: &str, prompt: &str) -> (r: JsonValue)
    ensures
        r@ == Json::Object(
            seq![
                ("model"@, Json::Text(model@)),
                ("messages"@, Json::Array(seq![role_message("user"@, prompt@)])),
                ("max_tokens"@, int_json(512)),
            ],
        ),
{
    let mut msgs: Vec<JsonValue> = Vec::new();
    crate::json::push_value(&mut msgs, role_message_json("user", String::from_str(prompt)));
    proof {
        assert(values_view(msgs@) =~= seq![role_message("user"@, prompt@)]);
    }
    object3("model", text(model), "messages", array(msgs), "max_tokens", JsonValue::Number(JsonNumber::Int(512)))
}

/// How a successful reply body was read.
pub enum LiteLlmReply {
    /// It is a `chat.completions` reply.
    Completion(ChatCompletion),
    /// It is not a `chat.completions` reply (not JSON, or JSON of another shape).
    NotCompletion,
}

/// The error for a reply that is not a `chat.completions` object.
pub open spec fn not_completion_message(body: Seq<char>) -> Seq<char> {
    "LiteLLM reply is not a chat completion: "@ + body
}

/// What a successful reply says: a completion is read as such; any other body
/// is an error that quotes it.
pub open spec fn litellm_reply_spec(reply: LiteLlmReply, body: Seq<char>) -> Result<ModelResponseView, ErrorView> {
    match reply {
        LiteLlmReply::Completion(c) => Ok(chat_reply_spec(c)),
        LiteLlmReply::NotCompletion => Err(ErrorView::Other(not_completion_message(body))),
    }
}

/// Reads a successful reply: only a `chat.completions` object is accepted.
pub fn litellm_response(reply: LiteLlmReply, body: String) -> (r: Result<ModelResponse, AgentError>)
    ensures
        match r {
            Ok(m) => litellm_reply_spec(reply, body@) == Ok::<ModelResponseView, ErrorView>(m@),
            Err(e) => litellm_reply_spec(reply, body@) == Err::<ModelResponseView, ErrorView>(e@),
        },
{
    match reply {
        LiteLlmReply::Completion(c) => Ok(parse_chat_completion(c)),
        LiteLlmReply::NotCompletion => {
            let mut msg = String::from_str("LiteLLM reply is not a chat completion: ");
            msg.append(body.as_str());
            Err(AgentError::Other(msg))
        },
    }
}

} // verus!

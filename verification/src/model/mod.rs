//! Model-facing data: responses, tool calls and stream events, plus the
//! request shaping and response reading of each model backend.

use vstd::prelude::*;

verus! {

/// A tool invocation requested by a model.
#[derive(Debug, Clone)]
pub struct ToolCall {
    pub id: Option<String>,
    pub name: String,
    pub arguments: String,
    pub call_id: Option<String>,
}

/// Simplified model response: an optional id, optional text and requested tool calls.
#[derive(Debug, Clone)]
pub struct ModelResponse {
    pub id: Option<String>,
    pub text: Option<String>,
    pub tool_calls: Vec<ToolCall>,
}

/// Streamed event variants.
#[derive(Debug, Clone)]
pub enum ModelStreamEvent {
    TextDelta(String),
    ToolCallDelta(ToolCall),
}

pub struct ToolCallView {
    pub id: Option<Seq<char>>,
    pub name: Seq<char>,
    pub arguments: Seq<char>,
    pub call_id: Option<Seq<char>>,
}

pub struct ModelResponseView {
    pub id: Option<Seq<char>>,
    pub text: Option<Seq<char>>,
    pub tool_calls: Seq<ToolCallView>,
}

impl View for ToolCall {
    type V = ToolCallView;

    open spec fn view(&self) -> ToolCallView {
        ToolCallView {
            id: self.id.deep_view(),
            name: self.name@,
            arguments: self.arguments@,
            call_id: self.call_id.deep_view(),
        }
    }
}

pub open spec fn calls_view(calls: Seq<ToolCall>) -> Seq<ToolCallView> {
    calls.map_values(|tc: ToolCall| tc@)
}

impl View for ModelResponse {
    type V = ModelResponseView;

    open spec fn view(&self) -> ModelResponseView {
        ModelResponseView {
            id: self.id.deep_view(),
            text: self.text.deep_view(),
            tool_calls: calls_view(self.tool_calls@),
        }
    }
}

pub fn clone_opt_string(s: &Option<String>) -> (r: Option<String>)
    ensures
        r.deep_view() == s.deep_view(),
{
    match s {
        Some(t) => Some(t.clone()),
        None => None,
    }
}

} // verus!

pub mod endpoint;
pub mod openai_chat;
pub mod litellm;
pub mod gpt_oss_responses;
pub mod openai_realtime;

verus! {

use crate::json::{JsonValue, Json, values_view, lemma_values_view};

/// The content of the last message whose role is `user` and whose content is a string.
pub open spec fn last_user_content(msgs: Seq<Json>) -> Option<Seq<char>>
    decreases msgs.len(),
{
    if msgs.len() == 0 {
        None
    } else if msgs.last().text_field("role"@) == Some("user"@) && msgs.last().text_field(
        "content"@,
    ) is Some {
        msgs.last().text_field("content"@)
    } else {
        last_user_content(msgs.drop_last())
    }
}

/// The instructions and the input collapsed into one prompt.
pub open spec fn joined_prompt(system: Option<Seq<char>>, input: Seq<char>) -> Seq<char> {
    match system {
        Some(s) => s + "\n\n"@ + input,
        None => input,
    }
}

/// The prompt a plain-generation model is given for a rich request: the last
/// user message when there is one, else the instructions and the input.
pub open spec fn default_prompt_spec(
    system: Option<Seq<char>>,
    input: Seq<char>,
    messages: Option<Seq<Json>>,
) -> Seq<char> {
    match messages {
        Some(ms) => match last_user_content(ms) {
            Some(c) => c,
            None => joined_prompt(system, input),
        },
        None => joined_prompt(system, input),
    }
}

pub open spec fn opt_values_view(m: Option<&Vec<JsonValue>>) -> Option<Seq<Json>> {
    match m {
        Some(v) => Some(values_view(v@)),
        None => None,
    }
}

pub open spec fn opt_str(s: Option<&str>) -> Option<Seq<char>> {
    match s {
        Some(t) => Some(t@),
        None => None,
    }
}

/// The instructions, a blank line, then the input.
pub fn join_prompt(system: Option<&str>, input: &str) -> (r: String)
    ensures
        r@ == joined_prompt(opt_str(system), input@),
{
    let mut s = String::new();
    if let Some(sys) = system {
        s.append(sys);
        s.append("\n\n");
    }
    s.append(input);
    s
}

/// The prompt used by a model that only supports plain generation.
#[verifier::loop_isolation(false)]
pub fn default_prompt(system: Option<&str>, input: &str, messages: Option<&Vec<JsonValue>>) -> (r:
    String)
    ensures
        r@ == default_prompt_spec(opt_str(system), input@, opt_values_view(messages)),
{
    match messages {
        Some(ms) => {
            proof {
                lemma_values_view(ms@);
            }
            let ghost vs = values_view(ms@);
            let mut i = ms.len();
            assert(vs.take(vs.len() as int) =~= vs);
            while i > 0
                invariant
                    i <= ms@.len(),
                    vs == values_view(ms@),
                    vs.len() == ms@.len(),
                    forall|k: int| 0 <= k < vs.len() ==> #[trigger] vs[k] == crate::json::json_view(ms@[k]),
                    last_user_content(vs) == last_user_content(vs.take(i as int)),
                decreases i,
            {
                let m = &ms[i - 1];
                let ghost t = vs.take(i as int);
                assert(t.last() == m@);
                assert(t.drop_last() =~= vs.take(i - 1));
                match (m.get_str("role"), m.get_str("content")) {
                    (Some(role), Some(content)) => {
                        if crate::json::str_equal(role.as_str(), "user") {
                            assert(last_user_content(t) == Some(content@));
                            return content.clone();
                        }
                    },
                    _ => {},
                }
                i = i - 1;
            }
            join_prompt(system, input)
        },
        None => join_prompt(system, input),
    }
}

/// A response carrying only generated text.
pub fn text_response(text: String) -> (r: ModelResponse)
    ensures
        r@ == (ModelResponseView { id: None, text: Some(text@), tool_calls: Seq::empty() }),
{
    let r = ModelResponse { id: None, text: Some(text), tool_calls: Vec::new() };
    assert(calls_view(r.tool_calls@) =~= Seq::<ToolCallView>::empty());
    r
}

} // verus!

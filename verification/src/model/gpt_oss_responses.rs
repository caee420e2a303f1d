//! Harmony-style Responses API (`/responses`): the request body and the
//! reading of the response object.

use vstd::prelude::*;
use crate::json::{JsonValue, JsonNumber, NumberView, Json, values_view, lemma_values_view, str_equal};
use crate::model::{ToolCall, ModelResponse, ModelResponseView, ToolCallView, calls_view, opt_str,
    opt_values_view, clone_opt_string};

verus! {

/// One item of the request input.
pub enum InputItem {
    Message { role: String, content: String },
    FunctionCall { name: String, arguments: String, id: Option<String>, call_id: Option<String> },
    FunctionCallOutput { call_id: String, output: String },
}

/// The request input: a plain string, or a list of items.
pub enum InputUnion {
    Str(String),
    Items(Vec<InputItem>),
}

/// A function tool as the Responses API describes it.
pub struct FunctionToolDefinition {
    /// The `type` member.
    pub ty: String,
    pub name: String,
    pub parameters: JsonValue,
    pub description: Option<String>,
    pub strict: Option<bool>,
}

/// A Responses API request body; absent members are left out of the request.
pub struct ResponsesRequestBody {
    pub instructions: Option<String>,
    pub input: InputUnion,
    pub model: Option<String>,
    pub tools: Option<Vec<FunctionToolDefinition>>,
    pub tool_choice: Option<String>,
    pub parallel_tool_calls: Option<bool>,
    pub max_output_tokens: Option<i32>,
    pub temperature: Option<JsonNumber>,
    pub previous_response_id: Option<String>,
    pub store: Option<bool>,
}

/// One text part of an output message.
pub struct TextPart {
    /// The `type` member.
    pub kind: String,
    pub text: String,
}

/// One item of the response output.
pub enum OutputItem {
    Message { role: String, content: Vec<TextPart> },
    FunctionCall { name: String, arguments: String, id: String, call_id: String },
    FunctionCallOutput { call_id: String, output: String },
    Other,
}

/// A Responses API response object.
pub struct ResponsesObject {
    pub output: Vec<OutputItem>,
    pub id: Option<String>,
}

pub enum InputItemView {
    Message { role: Seq<char>, content: Seq<char> },
    FunctionCall {
        name: Seq<char>,
        arguments: Seq<char>,
        id: Option<Seq<char>>,
        call_id: Option<Seq<char>>,
    },
    FunctionCallOutput { call_id: Seq<char>, output: Seq<char> },
}

pub enum InputView {
    Str(Seq<char>),
    Items(Seq<InputItemView>),
}

pub struct ToolDefinitionView {
    pub ty: Seq<char>,
    pub name: Seq<char>,
    pub parameters: Json,
    pub description: Option<Seq<char>>,
    pub strict: Option<bool>,
}

pub struct RequestView {
    pub instructions: Option<Seq<char>>,
    pub input: InputView,
    pub model: Option<Seq<char>>,
    pub tools: Option<Seq<ToolDefinitionView>>,
    pub tool_choice: Option<Seq<char>>,
    pub parallel_tool_calls: Option<bool>,
    pub max_output_tokens: Option<i32>,
    pub temperature: Option<NumberView>,
    pub previous_response_id: Option<Seq<char>>,
    pub store: Option<bool>,
}

impl View for InputItem {
    type V = InputItemView;

    open spec fn view(&self) -> InputItemView {
        match self {
            InputItem::Message { role, content } => InputItemView::Message {
                role: role@,
                content: content@,
            },
            InputItem::FunctionCall { name, arguments, id, call_id } => InputItemView::FunctionCall {
                name: name@,
                arguments: arguments@,
                id: id.deep_view(),
                call_id: call_id.deep_view(),
            },
            InputItem::FunctionCallOutput { call_id, output } => InputItemView::FunctionCallOutput {
                call_id: call_id@,
                output: output@,
            },
        }
    }
}

pub open spec fn items_view(s: Seq<InputItem>) -> Seq<InputItemView> {
    s.map_values(|i: InputItem| i@)
}

impl View for InputUnion {
    type V = InputView;

    open spec fn view(&self) -> InputView {
        match self {
            InputUnion::Str(s) => InputView::Str(s@),
            InputUnion::Items(items) => InputView::Items(items_view(items@)),
        }
    }
}

impl View for FunctionToolDefinition {
    type V = ToolDefinitionView;

    open spec fn view(&self) -> ToolDefinitionView {
        ToolDefinitionView {
            ty: self.ty@,
            name: self.name@,
            parameters: self.parameters@,
            description: self.description.deep_view(),
            strict: self.strict,
        }
    }
}

pub open spec fn defs_view(s: Seq<FunctionToolDefinition>) -> Seq<ToolDefinitionView> {
    s.map_values(|d: FunctionToolDefinition| d@)
}

impl View for ResponsesRequestBody {
    type V = RequestView;

    open spec fn view(&self) -> RequestView {
        RequestView {
            instructions: self.instructions.deep_view(),
            input: self.input@,
            model: self.model.deep_view(),
            tools: match self.tools {
                Some(ts) => Some(defs_view(ts@)),
                None => None,
            },
            tool_choice: self.tool_choice.deep_view(),
            parallel_tool_calls: self.parallel_tool_calls,
            max_output_tokens: self.max_output_tokens,
            temperature: match self.temperature {
                Some(n) => Some(n@),
                None => None,
            },
            previous_response_id: self.previous_response_id.deep_view(),
            store: self.store,
        }
    }
}

pub open spec fn text_or_empty(s: Option<Seq<char>>) -> Seq<char> {
    match s {
        Some(t) => t,
        None => Seq::empty(),
    }
}

/// The input item a chat message becomes: user, assistant and system messages
/// with string content become messages; tool messages with a call id become
/// function call outputs; anything else is dropped.
pub open spec fn item_of(m: Json) -> Option<InputItemView> {
    let role = text_or_empty(m.text_field("role"@));
    if role == "user"@ || role == "assistant"@ || role == "system"@ {
        match m.text_field("content"@) {
            Some(c) => Some(InputItemView::Message { role, content: c }),
            None => None,
        }
    } else if role == "tool"@ {
        match m.text_field("tool_call_id"@) {
            Some(id) => Some(
                InputItemView::FunctionCallOutput {
                    call_id: id,
                    output: text_or_empty(m.text_field("content"@)),
                },
            ),
            None => None,
        }
    } else {
        None
    }
}

pub open spec fn items_of(msgs: Seq<Json>) -> Seq<InputItemView>
    decreases msgs.len(),
{
    if msgs.len() == 0 {
        Seq::empty()
    } else {
        match item_of(msgs.last()) {
            Some(it) => items_of(msgs.drop_last()).push(it),
            None => items_of(msgs.drop_last()),
        }
    }
}

/// The request input for chat messages: their items, or the empty string when
/// there are none.
pub open spec fn adapt_spec(msgs: Option<Seq<Json>>) -> InputView {
    match msgs {
        Some(ms) => if items_of(ms).len() == 0 {
            InputView::Str(Seq::empty())
        } else {
            InputView::Items(items_of(ms))
        },
        None => InputView::Str(Seq::empty()),
    }
}

/// The Responses definition of an OpenAI tool spec of type `function`.
pub open spec fn def_of(t: Json) -> Option<ToolDefinitionView> {
    if t.text_field("type"@) == Some("function"@) {
        match t.field("function"@) {
            Some(f) => if f is Object {
                Some(
                    ToolDefinitionView {
                        ty: "function"@,
                        name: text_or_empty(f.text_field("name"@)),
                        parameters: match f.field("parameters"@) {
                            Some(p) => p,
                            None => Json::Object(seq![("type"@, Json::Text("object"@))]),
                        },
                        description: f.text_field("description"@),
                        strict: Some(false),
                    },
                )
            } else {
                None
            },
            None => None,
        }
    } else {
        None
    }
}

pub open spec fn defs_of(tools: Seq<Json>) -> Seq<ToolDefinitionView>
    decreases tools.len(),
{
    if tools.len() == 0 {
        Seq::empty()
    } else {
        match def_of(tools.last()) {
            Some(d) => defs_of(tools.drop_last()).push(d),
            None => defs_of(tools.drop_last()),
        }
    }
}

/// The Responses definitions of the function tool specs; `None` when there are none.
pub open spec fn map_tools_spec(tools: Option<Seq<Json>>) -> Option<Seq<ToolDefinitionView>> {
    match tools {
        Some(ts) => if defs_of(ts).len() == 0 {
            None
        } else {
            Some(defs_of(ts))
        },
        None => None,
    }
}

fn push_item(items: &mut Vec<InputItem>, it: InputItem)
    ensures
        items_view(final(items)@) == items_view(old(items)@).push(it@),
{
    items.push(it);
    assert(items_view(final(items)@) =~= items_view(old(items)@).push(it@));
}

fn push_def(defs: &mut Vec<FunctionToolDefinition>, d: FunctionToolDefinition)
    ensures
        defs_view(final(defs)@) == defs_view(old(defs)@).push(d@),
{
    defs.push(d);
    assert(defs_view(final(defs)@) =~= defs_view(old(defs)@).push(d@));
}

fn str_or_empty(s: Option<&String>) -> (r: String)
    ensures
        r@ == text_or_empty(match s {
            Some(t) => Some(t@),
            None => None,
        }),
{
    match s {
        Some(t) => t.clone(),
        None => String::new(),
    }
}

/// The input item for one chat message.
pub fn input_item(m: &JsonValue) -> (r: Option<InputItem>)
    ensures
        match r {
            Some(it) => item_of(m@) == Some(it@),
            None => item_of(m@) is None,
        },
{
    let role = str_or_empty(m.get_str("role"));
    let rs = role.as_str();
    if str_equal(rs, "user") || str_equal(rs, "assistant") || str_equal(rs, "system") {
        match m.get_str("content") {
            Some(c) => Some(InputItem::Message { role, content: c.clone() }),
            None => None,
        }
    } else if str_equal(rs, "tool") {
        match m.get_str("tool_call_id") {
            Some(id) => Some(
                InputItem::FunctionCallOutput { call_id: id.clone(), output: str_or_empty(m.get_str("content")) },
            ),
            None => None,
        }
    } else {
        None
    }
}

/// The request input for the chat messages.
pub fn adapt_messages_to_input(messages: Option<&Vec<JsonValue>>) -> (r: InputUnion)
    ensures
        r@ == adapt_spec(opt_values_view(messages)),
{
    match messages {
        Some(msgs) => {
            proof {
                lemma_values_view(msgs@);
            }
            let ghost mv = values_view(msgs@);
            let mut items: Vec<InputItem> = Vec::new();
            let mut i: usize = 0;
            while i < msgs.len()
                invariant
                    i <= msgs@.len(),
                    mv == values_view(msgs@),
                    mv.len() == msgs@.len(),
                    forall|k: int| 0 <= k < msgs@.len() ==> #[trigger] mv[k] == crate::json::json_view(msgs@[k]),
                    items_view(items@) == items_of(mv.take(i as int)),
                decreases msgs@.len() - i,
            {
                proof {
                    assert(mv.take(i + 1).drop_last() =~= mv.take(i as int));
                    assert(mv.take(i + 1).last() == msgs@[i as int]@);
                }
                match input_item(&msgs[i]) {
                    Some(it) => push_item(&mut items, it),
                    None => {},
                }
                i = i + 1;
            }
            assert(mv.take(msgs@.len() as int) =~= mv);
            if items.len() == 0 {
                InputUnion::Str(String::new())
            } else {
                InputUnion::Items(items)
            }
        },
        None => InputUnion::Str(String::new()),
    }
}

/// The Responses definition for one tool spec.
pub fn tool_definition(t: &JsonValue) -> (r: Option<FunctionToolDefinition>)
    ensures
        match r {
            Some(d) => def_of(t@) == Some(d@),
            None => def_of(t@) is None,
        },
{
    let is_function = match t.get_str("type") {
        Some(ty) => str_equal(ty.as_str(), "function"),
        None => false,
    };
    if !is_function {
        return None;
    }
    match t.get("function") {
        Some(f) => {
            if !f.is_object() {
                return None;
            }
            let parameters = match f.get("parameters") {
                Some(p) => p.deep_clone(),
                None => {
                    let v = crate::json::empty_object().with_field("type", crate::json::text("object"));
                    proof {
                        reveal_with_fuel(crate::json::entries_set, 2);
                    }
                    v
                },
            };
            let description = match f.get_str("description") {
                Some(d) => Some(d.clone()),
                None => None,
            };
            Some(
                FunctionToolDefinition {
                    ty: String::from_str("function"),
                    name: str_or_empty(f.get_str("name")),
                    parameters,
                    description,
                    strict: Some(false),
                },
            )
        },
        None => None,
    }
}

/// The Responses definitions for OpenAI tool specs.
pub fn map_openai_tools_to_oss(tools: Option<&Vec<JsonValue>>) -> (r: Option<Vec<FunctionToolDefinition>>)
    ensures
        match r {
            Some(ds) => map_tools_spec(opt_values_view(tools)) == Some(defs_view(ds@)),
            None => map_tools_spec(opt_values_view(tools)) is None,
        },
{
    let mut out: Vec<FunctionToolDefinition> = Vec::new();
    match tools {
        Some(arr) => {
            proof {
                lemma_values_view(arr@);
            }
            let ghost tv = values_view(arr@);
            let mut i: usize = 0;
            assert(defs_view(out@) =~= Seq::<ToolDefinitionView>::empty());
            while i < arr.len()
                invariant
                    i <= arr@.len(),
                    tv == values_view(arr@),
                    tv.len() == arr@.len(),
                    forall|k: int| 0 <= k < arr@.len() ==> #[trigger] tv[k] == crate::json::json_view(arr@[k]),
                    defs_view(out@) == defs_of(tv.take(i as int)),
                decreases arr@.len() - i,
            {
                proof {
                    assert(tv.take(i + 1).drop_last() =~= tv.take(i as int));
                    assert(tv.take(i + 1).last() == arr@[i as int]@);
                }
                match tool_definition(&arr[i]) {
                    Some(d) => push_def(&mut out, d),
                    None => {},
                }
                i = i + 1;
            }
            assert(tv.take(arr@.len() as int) =~= tv);
            if out.len() == 0 {
                None
            } else {
                Some(out)
            }
        },
        None => None,
    }
}

pub open spec fn opt_json_view(v: Option<&JsonValue>) -> Option<Json> {
    match v {
        Some(j) => Some(j@),
        None => None,
    }
}

/// The request body of a rich request. Previous-response chaining (and storage)
/// is dropped when `disable_previous` holds.
pub open spec fn responses_request_spec(
    system: Option<Seq<char>>,
    messages: Option<Seq<Json>>,
    tools: Option<Seq<Json>>,
    tool_choice: Option<Json>,
    previous_response_id: Option<Seq<char>>,
    disable_previous: bool,
    model: Seq<char>,
) -> RequestView {
    RequestView {
        instructions: system,
        input: adapt_spec(messages),
        model: Some(model),
        tools: map_tools_spec(tools),
        tool_choice: match tool_choice {
            Some(c) => c.as_text(),
            None => None,
        },
        parallel_tool_calls: Some(true),
        max_output_tokens: Some(512),
        temperature: Some(NumberView::Decimal("0.2"@)),
        previous_response_id: if disable_previous {
            None
        } else {
            previous_response_id
        },
        store: if disable_previous {
            None
        } else {
            Some(true)
        },
    }
}

fn opt_string_of(s: Option<&str>) -> (r: Option<String>)
    ensures
        r.deep_view() == opt_str(s),
{
    match s {
        Some(t) => Some(String::from_str(t)),
        None => None,
    }
}

/// The request body of a rich request.
pub fn responses_request(
    system: Option<&str>,
    messages: Option<&Vec<JsonValue>>,
    tools: Option<&Vec<JsonValue>>,
    tool_choice: Option<&JsonValue>,
    previous_response_id: Option<&str>,
    disable_previous: bool,
    model: &str,
) -> (r: ResponsesRequestBody)
    ensures
        r@ == responses_request_spec(
            opt_str(system),
            opt_values_view(messages),
            opt_values_view(tools),
            opt_json_view(tool_choice),
            opt_str(previous_response_id),
            disable_previous,
            model@,
        ),
{
    let tool_choice_str = match tool_choice {
        Some(v) => match v.as_str() {
            Some(s) => Some(s.clone()),
            None => None,
        },
        None => None,
    };
    ResponsesRequestBody {
        instructions: opt_string_of(system),
        input: adapt_messages_to_input(messages),
        model: Some(String::from_str(model)),
        tools: map_openai_tools_to_oss(tools),
        tool_choice: tool_choice_str,
        parallel_tool_calls: Some(true),
        max_output_tokens: Some(512),
        temperature: Some(JsonNumber::Decimal(String::from_str("0.2"))),
        previous_response_id: if disable_previous {
            None
        } else {
            opt_string_of(previous_response_id)
        },
        store: if disable_previous {
            None
        } else {
            Some(true)
        },
    }
}

/// The request body of a plain generation: the prompt as the input string.
pub fn prompt_request(model: &str, prompt: &str) -> (r: ResponsesRequestBody)
    ensures
        r@ == (RequestView {
            instructions: None,
            input: InputView::Str(prompt@),
            model: Some(model@),
            tools: None,
            tool_choice: None,
            parallel_tool_calls: None,
            max_output_tokens: Some(512),
            temperature: Some(NumberView::Decimal("0.2"@)),
            previous_response_id: None,
            store: None,
        }),
{
    ResponsesRequestBody {
        instructions: None,
        input: InputUnion::Str(String::from_str(prompt)),
        model: Some(String::from_str(model)),
        tools: None,
        tool_choice: None,
        parallel_tool_calls: None,
        max_output_tokens: Some(512),
        temperature: Some(JsonNumber::Decimal(String::from_str("0.2"))),
        previous_response_id: None,
        store: None,
    }
}

/// The text parts of a message, concatenated.
pub open spec fn parts_text(parts: Seq<TextPart>) -> Seq<char>
    decreases parts.len(),
{
    if parts.len() == 0 {
        Seq::empty()
    } else {
        parts_text(parts.drop_last()) + parts.last().text@
    }
}

/// The text of the last output message whose text is not empty.
pub open spec fn output_text(items: Seq<OutputItem>) -> Option<Seq<char>>
    decreases items.len(),
{
    if items.len() == 0 {
        None
    } else {
        match items.last() {
            OutputItem::Message { content, .. } => if parts_text(content@).len() > 0 {
                Some(parts_text(content@))
            } else {
                output_text(items.drop_last())
            },
            _ => output_text(items.drop_last()),
        }
    }
}

/// The function calls of the output, in order.
pub open spec fn output_calls(items: Seq<OutputItem>) -> Seq<ToolCallView>
    decreases items.len(),
{
    if items.len() == 0 {
        Seq::empty()
    } else {
        match items.last() {
            OutputItem::FunctionCall { name, arguments, id, call_id } => output_calls(items.drop_last()).push(
                ToolCallView { id: Some(id@), name: name@, arguments: arguments@, call_id: Some(call_id@) },
            ),
            _ => output_calls(items.drop_last()),
        }
    }
}

/// What a response object says: its id, the text of its last non-empty
/// message and its function calls.
pub open spec fn responses_reply_spec(obj: ResponsesObject) -> ModelResponseView {
    ModelResponseView {
        id: obj.id.deep_view(),
        text: output_text(obj.output@),
        tool_calls: output_calls(obj.output@),
    }
}

fn concat_parts(parts: &Vec<TextPart>) -> (r: String)
    ensures
        r@ == parts_text(parts@),
{
    let mut s = String::new();
    let mut i: usize = 0;
    while i < parts.len()
        invariant
            i <= parts@.len(),
            s@ == parts_text(parts@.take(i as int)),
        decreases parts@.len() - i,
    {
        proof {
            assert(parts@.take(i + 1).drop_last() =~= parts@.take(i as int));
        }
        s.append(parts[i].text.as_str());
        i = i + 1;
    }
    assert(parts@.take(parts@.len() as int) =~= parts@);
    s
}

/// Reads a response object into a model response.
pub fn parse_responses_output(obj: &ResponsesObject) -> (r: ModelResponse)
    ensures
        r@ == responses_reply_spec(*obj),
{
    let mut text: Option<String> = None;
    let mut tool_calls: Vec<ToolCall> = Vec::new();
    let mut i: usize = 0;
    proof {
        assert(calls_view(tool_calls@) =~= Seq::<ToolCallView>::empty());
    }
    while i < obj.output.len()
        invariant
            i <= obj.output@.len(),
            text.deep_view() == output_text(obj.output@.take(i as int)),
            calls_view(tool_calls@) == output_calls(obj.output@.take(i as int)),
        decreases obj.output@.len() - i,
    {
        proof {
            assert(obj.output@.take(i + 1).drop_last() =~= obj.output@.take(i as int));
            assert(obj.output@.take(i + 1).last() == obj.output@[i as int]);
        }
        match &obj.output[i] {
            OutputItem::Message { content, .. } => {
                let s = concat_parts(content);
                if s.as_str().unicode_len() > 0 {
                    text = Some(s);
                }
            },
            OutputItem::FunctionCall { name, arguments, id, call_id } => {
                let tc = ToolCall {
                    id: Some(id.clone()),
                    name: name.clone(),
                    arguments: arguments.clone(),
                    call_id: Some(call_id.clone()),
                };
                let ghost before = tool_calls@;
                tool_calls.push(tc);
                proof {
                    assert(calls_view(tool_calls@) =~= calls_view(before).push(tc@));
                }
            },
            _ => {},
        }
        i = i + 1;
    }
    assert(obj.output@.take(obj.output@.len() as int) =~= obj.output@);
    ModelResponse { id: clone_opt_string(&obj.id), text, tool_calls }
}

/// A chat message with role `user`, `assistant` or `system`.
pub open spec fn is_chat_turn(m: Json) -> bool {
    let r = m.text_field("role"@);
    r == Some("user"@) || r == Some("assistant"@) || r == Some("system"@)
}

/// Every chat turn with text content is carried over as a message item with
/// the same role and content; a `tool` message with a call id becomes the
/// output of that call (its content, or empty when it has none).
pub proof fn law_chat_turns_become_messages(m: Json)
    ensures
        (is_chat_turn(m) && m.text_field("content"@) is Some ==> item_of(m) == Some(
            InputItemView::Message { role: m.text_field("role"@)->0, content: m.text_field("content"@)->0 },
        )),
        (m.text_field("role"@) == Some("tool"@) && m.text_field("tool_call_id"@) is Some ==> item_of(m) == Some(
            InputItemView::FunctionCallOutput {
                call_id: m.text_field("tool_call_id"@)->0,
                output: match m.text_field("content"@) {
                    Some(c) => c,
                    None => Seq::empty(),
                },
            },
        )),
{
    reveal_strlit("user");
    reveal_strlit("assistant");
    reveal_strlit("system");
    reveal_strlit("tool");
    assert("tool"@[0] != "user"@[0]);
    assert("tool"@.len() != "assistant"@.len());
    assert("tool"@.len() != "system"@.len());
}

/// A conversation of chat turns with text content is sent whole: one message
/// item per turn, with its role and content, in order.
pub proof fn law_conversation_kept(msgs: Seq<Json>)
    requires
        msgs.len() > 0,
        (forall|i: int| 0 <= i < msgs.len() ==> is_chat_turn(#[trigger] msgs[i]) && (msgs[i].text_field("content"@) is Some)),
    ensures
        (adapt_spec(Some(msgs)) matches InputView::Items(items) && items.len() == msgs.len() && (forall|i: int|
            0 <= i < msgs.len() ==> #[trigger] items[i] == (InputItemView::Message {
                role: msgs[i].text_field("role"@)->0,
                content: msgs[i].text_field("content"@)->0,
            }))),
{
    lemma_items_of_turns(msgs);
}

proof fn lemma_items_of_turns(msgs: Seq<Json>)
    requires
        (forall|i: int| 0 <= i < msgs.len() ==> is_chat_turn(#[trigger] msgs[i]) && (msgs[i].text_field("content"@) is Some)),
    ensures
        items_of(msgs).len() == msgs.len(),
        (forall|i: int| 0 <= i < msgs.len() ==> #[trigger] items_of(msgs)[i] == (InputItemView::Message {
            role: msgs[i].text_field("role"@)->0,
            content: msgs[i].text_field("content"@)->0,
        })),
    decreases msgs.len(),
{
    if msgs.len() > 0 {
        let p = msgs.drop_last();
        assert forall|i: int| 0 <= i < p.len() implies is_chat_turn(#[trigger] p[i]) && p[i].text_field("content"@) is Some by {
            assert(p[i] == msgs[i]);
        }
        lemma_items_of_turns(p);
        law_chat_turns_become_messages(msgs.last());
        assert(msgs[msgs.len() - 1] == msgs.last());
        assert forall|i: int| 0 <= i < msgs.len() implies #[trigger] items_of(msgs)[i] == InputItemView::Message {
            role: msgs[i].text_field("role"@)->0,
            content: msgs[i].text_field("content"@)->0,
        } by {
            if i < msgs.len() - 1 {
                assert(p[i] == msgs[i]);
            }
        }
    }
}

/// The text an output item carries: a message's parts, concatenated, when that
/// is not empty; nothing for any other item.
pub open spec fn message_text(item: OutputItem) -> Option<Seq<char>> {
    match item {
        OutputItem::Message { content, .. } => if parts_text(content@).len() > 0 {
            Some(parts_text(content@))
        } else {
            None
        },
        _ => None,
    }
}

/// The text read from a response is that of its last output message with
/// non-empty text: when such a message is at index `k`, no later item is a
/// message with text, and the text read is that message's; when there is none,
/// no text is read. In particular a final message with text gives the text.
pub proof fn law_last_message_text(obj: ResponsesObject, k: int)
    ensures
        ({
            let items = obj.output@;
            &&& (0 <= k < items.len() && message_text(items[k]) is Some && (forall|j: int|
                k < j < items.len() ==> message_text(#[trigger] items[j]) is None))
                ==> responses_reply_spec(obj).text == message_text(items[k])
            &&& (forall|j: int| 0 <= j < items.len() ==> message_text(#[trigger] items[j]) is None)
                ==> responses_reply_spec(obj).text is None
            &&& (items.len() > 0 && message_text(items.last()) is Some)
                ==> responses_reply_spec(obj).text == message_text(items.last())
        }),
{
    let items = obj.output@;
    lemma_output_text_last(items, k);
    lemma_output_text_none(items);
}

proof fn lemma_output_text_last(items: Seq<OutputItem>, k: int)
    ensures
        (0 <= k < items.len() && message_text(items[k]) is Some && (forall|j: int|
            k < j < items.len() ==> message_text(#[trigger] items[j]) is None))
            ==> output_text(items) == message_text(items[k]),
    decreases items.len(),
{
    if 0 <= k < items.len() && message_text(items[k]) is Some && (forall|j: int|
        k < j < items.len() ==> message_text(#[trigger] items[j]) is None) {
        if k < items.len() - 1 {
            let p = items.drop_last();
            assert(message_text(items[items.len() - 1]) is None);
            assert(items[items.len() - 1] == items.last());
            assert forall|j: int| k < j < p.len() implies message_text(#[trigger] p[j]) is None by {
                assert(p[j] == items[j]);
            }
            assert(p[k] == items[k]);
            lemma_output_text_last(p, k);
        } else {
            assert(items[k] == items.last());
        }
    }
}

proof fn lemma_output_text_none(items: Seq<OutputItem>)
    ensures
        ((forall|j: int| 0 <= j < items.len() ==> (message_text(#[trigger] items[j]) is None)) ==> (output_text(items) is None)),
    decreases items.len(),
{
    if items.len() > 0 && (forall|j: int| 0 <= j < items.len() ==> message_text(#[trigger] items[j]) is None) {
        let p = items.drop_last();
        assert forall|j: int| 0 <= j < p.len() implies message_text(#[trigger] p[j]) is None by {
            assert(p[j] == items[j]);
        }
        assert(message_text(items[items.len() - 1]) is None);
        assert(items[items.len() - 1] == items.last());
        lemma_output_text_none(p);
    }
}

} // verus!

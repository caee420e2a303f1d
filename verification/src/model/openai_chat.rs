//! OpenAI Chat Completions: the request payload and the reading of a reply.

use vstd::prelude::*;
use crate::json::{
    JsonValue, JsonNumber, NumberView, Json, values_view, lemma_values_view, text, array,
    object2, object4, push_value,
};
use crate::model::{ToolCall, ModelResponse, ModelResponseView, ToolCallView, calls_view};
use crate::agent::runner::initial_messages;
use crate::agent::runner::role_message_json;

verus! {

/// The `arguments` of a function call as the server sent them: a JSON string,
/// or the compact JSON text of any other value.
pub enum ArgumentsValue {
    Text(String),
    Encoded(String),
}

pub struct FunctionCall {
    pub name: String,
    pub arguments: ArgumentsValue,
}

/// One entry of `message.tool_calls`.
pub struct ToolCallJson {
    /// The `type` member.
    pub kind: Option<String>,
    pub id: Option<String>,
    pub call_id: Option<String>,
    pub function: Option<FunctionCall>,
}

pub struct Message {
    pub content: Option<String>,
    pub tool_calls: Option<Vec<ToolCallJson>>,
    /// Legacy single function call (pre-`tool_calls` schema).
    pub function_call: Option<FunctionCall>,
}

pub struct Choice {
    pub message: Message,
}

/// A `chat.completions` reply.
pub struct ChatCompletion {
    pub choices: Vec<Choice>,
}

pub open spec fn arguments_text(a: ArgumentsValue) -> Seq<char> {
    match a {
        ArgumentsValue::Text(s) => s@,
        ArgumentsValue::Encoded(s) => s@,
    }
}

/// The tool calls of the `tool_calls` entries that carry a function, in order.
pub open spec fn calls_of(tcs: Seq<ToolCallJson>) -> Seq<ToolCallView>
    decreases tcs.len(),
{
    if tcs.len() == 0 {
        Seq::empty()
    } else {
        let rest = calls_of(tcs.drop_last());
        match tcs.last().function {
            Some(f) => rest.push(
                ToolCallView {
                    id: tcs.last().id.deep_view(),
                    name: f.name@,
                    arguments: arguments_text(f.arguments),
                    call_id: tcs.last().call_id.deep_view(),
                },
            ),
            None => rest,
        }
    }
}

/// What a `chat.completions` reply says: the first choice's content, and its tool
/// calls (or its legacy function call); nothing when there is no choice.
pub open spec fn chat_reply_spec(body: ChatCompletion) -> ModelResponseView {
    if body.choices@.len() == 0 {
        ModelResponseView { id: None, text: None, tool_calls: Seq::empty() }
    } else {
        let m = body.choices@[0].message;
        ModelResponseView {
            id: None,
            text: m.content.deep_view(),
            tool_calls: match m.tool_calls {
                Some(tcs) => calls_of(tcs@),
                None => match m.function_call {
                    Some(f) => seq![
                        ToolCallView { id: None, name: f.name@, arguments: arguments_text(f.arguments), call_id: None },
                    ],
                    None => Seq::empty(),
                },
            },
        }
    }
}

fn arguments_string(a: ArgumentsValue) -> (r: String)
    ensures
        r@ == arguments_text(a),
{
    match a {
        ArgumentsValue::Text(s) => s,
        ArgumentsValue::Encoded(s) => s,
    }
}

fn push_call(calls: &mut Vec<ToolCall>, tc: ToolCall)
    ensures
        calls_view(final(calls)@) == calls_view(old(calls)@).push(tc@),
{
    calls.push(tc);
    assert(calls_view(final(calls)@) =~= calls_view(old(calls)@).push(tc@));
}

/// Reads a `chat.completions` reply into a model response.
pub fn parse_chat_completion(body: ChatCompletion) -> (r: ModelResponse)
    ensures
        r@ == chat_reply_spec(body),
{
    let ghost b = body;
    let mut choices = body.choices;
    let mut tool_calls: Vec<ToolCall> = Vec::new();
    proof {
        assert(calls_view(tool_calls@) =~= Seq::<ToolCallView>::empty());
    }
    if choices.len() == 0 {
        return ModelResponse { id: None, text: None, tool_calls };
    }
    let first = choices.swap_remove(0);
    let text = first.message.content;
    match first.message.tool_calls {
        Some(tcs) => {
            let ghost all = tcs@;
            let mut rest = tcs;
            let mut k: usize = 0;
            let n = rest.len();
            assert(all.subrange(0, all.len() as int) =~= all);
            while rest.len() > 0
                invariant
                    n == all.len(),
                    rest@.len() + k == all.len(),
                    rest@ == all.subrange(k as int, all.len() as int),
                    calls_view(tool_calls@) == calls_of(all.take(k as int)),
                decreases rest@.len(),
            {
                let tc = rest.remove(0);
                proof {
                    assert(tc == all[k as int]);
                    assert(rest@ =~= all.subrange(k + 1, all.len() as int));
                    assert(all.take(k + 1).drop_last() =~= all.take(k as int));
                    assert(all.take(k + 1).last() == all[k as int]);
                }
                match tc.function {
                    Some(f) => {
                        push_call(
                            &mut tool_calls,
                            ToolCall {
                                id: tc.id,
                                name: f.name,
                                arguments: arguments_string(f.arguments),
                                call_id: tc.call_id,
                            },
                        );
                    },
                    None => {},
                }
                k = k + 1;
            }
            assert(all.take(all.len() as int) =~= all);
        },
        None => {
            if let Some(f) = first.message.function_call {
                push_call(
                    &mut tool_calls,
                    ToolCall { id: None, name: f.name, arguments: arguments_string(f.arguments), call_id: None },
                );
            }
        },
    }
    ModelResponse { id: None, text, tool_calls }
}

/// Compatibility switches of OpenAI-compatible servers.
pub struct ChatToggles {
    /// Send only the model and the messages.
    pub minimal_payload: bool,
    /// Send legacy `functions`/`function_call` instead of `tools`.
    pub force_functions: bool,
    /// Do not ask for parallel tool calls.
    pub disable_parallel: bool,
    /// `auto`, `none`, `object:auto` or `object:none`: the tool choice to send when
    /// tools are offered and the caller gave none.
    pub tool_choice_override: Option<String>,
}

pub struct ChatTogglesView {
    pub minimal_payload: bool,
    pub force_functions: bool,
    pub disable_parallel: bool,
    pub tool_choice_override: Option<Seq<char>>,
}

impl View for ChatToggles {
    type V = ChatTogglesView;

    open spec fn view(&self) -> ChatTogglesView {
        ChatTogglesView {
            minimal_payload: self.minimal_payload,
            force_functions: self.force_functions,
            disable_parallel: self.disable_parallel,
            tool_choice_override: self.tool_choice_override.deep_view(),
        }
    }
}

pub open spec fn int_json(i: int) -> Json {
    Json::Number(NumberView::Int(i))
}

/// The temperature every request is sent with.
pub open spec fn temperature_json() -> Json {
    Json::Number(NumberView::Decimal("0.2"@))
}

/// The messages of a request: the caller's when given, else the instructions
/// and the input.
pub open spec fn chat_messages_spec(
    system: Option<Seq<char>>,
    input: Seq<char>,
    provided: Option<Seq<Json>>,
) -> Seq<Json> {
    match provided {
        Some(p) => p,
        None => initial_messages(system, input),
    }
}

/// The `function` members of the tool specs of type `function`, in order.
pub open spec fn legacy_functions(tools: Seq<Json>) -> Seq<Json>
    decreases tools.len(),
{
    if tools.len() == 0 {
        Seq::empty()
    } else {
        let rest = legacy_functions(tools.drop_last());
        let t = tools.last();
        if t.text_field("type"@) == Some("function"@) && t.field("function"@) is Some {
            rest.push(t.field("function"@).unwrap())
        } else {
            rest
        }
    }
}

/// The base payload: model and messages, plus `max_tokens` and `temperature`
/// unless the payload is minimal.
pub open spec fn chat_base_payload(model: Seq<char>, msgs: Seq<Json>, minimal: bool) -> Json {
    if minimal {
        Json::Object(seq![("model"@, Json::Text(model)), ("messages"@, Json::Array(msgs))])
    } else {
        Json::Object(
            seq![
                ("model"@, Json::Text(model)),
                ("messages"@, Json::Array(msgs)),
                ("max_tokens"@, int_json(512)),
                ("temperature"@, temperature_json()),
            ],
        )
    }
}

/// The payload with the tools laid in: none in a minimal payload; the legacy
/// `functions` form when functions are forced; else `tools`, with
/// `parallel_tool_calls` unless it is disabled.
pub open spec fn with_tools_spec(p: Json, tools: Option<Seq<Json>>, t: ChatTogglesView) -> Json {
    match tools {
        Some(ts) => if t.minimal_payload {
            p
        } else if t.force_functions {
            let fs = legacy_functions(ts);
            if fs.len() > 0 {
                p.with_field("functions"@, Json::Array(fs)).with_field(
                    "function_call"@,
                    Json::Text("auto"@),
                )
            } else {
                p
            }
        } else {
            let p1 = p.with_field("tools"@, Json::Array(ts));
            if !t.disable_parallel {
                p1.with_field("parallel_tool_calls"@, Json::Bool(true))
            } else {
                p1
            }
        },
        None => p,
    }
}

/// The tool choice an override names, if it names one.
pub open spec fn override_choice(o: Seq<char>) -> Option<Json> {
    if o == "object:auto"@ {
        Some(Json::Object(seq![("type"@, Json::Text("auto"@))]))
    } else if o == "object:none"@ {
        Some(Json::Object(seq![("type"@, Json::Text("none"@))]))
    } else if o == "none"@ {
        Some(Json::Text("none"@))
    } else if o == "auto"@ {
        Some(Json::Text("auto"@))
    } else {
        None
    }
}

/// The payload with the tool choice laid in: the caller's choice, else the
/// override when tools are offered through `tools`; never in a minimal payload.
pub open spec fn with_choice_spec(
    p: Json,
    have_tools: bool,
    choice: Option<Json>,
    t: ChatTogglesView,
) -> Json {
    if t.minimal_payload {
        p
    } else {
        match choice {
            Some(c) => p.with_field("tool_choice"@, c),
            None => if have_tools && !t.force_functions {
                match t.tool_choice_override {
                    Some(o) => match override_choice(o) {
                        Some(c) => p.with_field("tool_choice"@, c),
                        None => p,
                    },
                    None => p,
                }
            } else {
                p
            },
        }
    }
}

/// The complete `chat.completions` request payload.
pub open spec fn chat_payload_spec(
    model: Seq<char>,
    msgs: Seq<Json>,
    tools: Option<Seq<Json>>,
    choice: Option<Json>,
    t: ChatTogglesView,
) -> Json {
    with_choice_spec(
        with_tools_spec(chat_base_payload(model, msgs, t.minimal_payload), tools, t),
        tools is Some,
        choice,
        t,
    )
}

pub open spec fn opt_view(c: Option<JsonValue>) -> Option<Json> {
    match c {
        Some(v) => Some(v@),
        None => None,
    }
}

/// The messages of a request.
pub fn chat_messages(system: Option<&str>, input: &str, provided: Option<&Vec<JsonValue>>) -> (r: Vec<
    JsonValue,
>)
    ensures
        values_view(r@) == chat_messages_spec(
            crate::model::opt_str(system),
            input@,
            crate::model::opt_values_view(provided),
        ),
{
    match provided {
        Some(p) => clone_values(p),
        None => {
            let mut msgs: Vec<JsonValue> = Vec::new();
            if let Some(sys) = system {
                push_value(&mut msgs, role_message_json("system", String::from_str(sys)));
            }
            push_value(&mut msgs, role_message_json("user", String::from_str(input)));
            proof {
                assert(values_view(msgs@) =~= initial_messages(crate::model::opt_str(system), input@));
            }
            msgs
        },
    }
}

/// A copy of a list of values.
pub fn clone_values(v: &Vec<JsonValue>) -> (r: Vec<JsonValue>)
    ensures
        values_view(r@) == values_view(v@),
{
    proof {
        lemma_values_view(v@);
    }
    let mut out: Vec<JsonValue> = Vec::new();
    let mut i: usize = 0;
    while i < v.len()
        invariant
            i <= v@.len(),
            values_view(v@).len() == v@.len(),
            forall|k: int| 0 <= k < v@.len() ==> #[trigger] values_view(v@)[k] == crate::json::json_view(v@[k]),
            values_view(out@) == values_view(v@).take(i as int),
        decreases v@.len() - i,
    {
        push_value(&mut out, v[i].deep_clone());
        proof {
            assert(values_view(v@).take(i + 1) =~= values_view(v@).take(i as int).push(
                crate::json::json_view(v@[i as int]),
            ));
        }
        i = i + 1;
    }
    assert(values_view(v@).take(v@.len() as int) =~= values_view(v@));
    out
}

/// The `function` members of the tool specs of type `function`.
pub fn legacy_function_list(tools: &Vec<JsonValue>) -> (r: Vec<JsonValue>)
    ensures
        values_view(r@) == legacy_functions(values_view(tools@)),
{
    proof {
        lemma_values_view(tools@);
    }
    let ghost tv = values_view(tools@);
    let mut out: Vec<JsonValue> = Vec::new();
    let mut i: usize = 0;
    while i < tools.len()
        invariant
            i <= tools@.len(),
            tv == values_view(tools@),
            tv.len() == tools@.len(),
            forall|k: int| 0 <= k < tools@.len() ==> #[trigger] tv[k] == crate::json::json_view(tools@[k]),
            values_view(out@) == legacy_functions(tv.take(i as int)),
        decreases tools@.len() - i,
    {
        let t = &tools[i];
        proof {
            assert(tv.take(i + 1).drop_last() =~= tv.take(i as int));
            assert(tv.take(i + 1).last() == t@);
        }
        let is_function = match t.get_str("type") {
            Some(ty) => crate::json::str_equal(ty.as_str(), "function"),
            None => false,
        };
        if is_function {
            match t.get("function") {
                Some(f) => {
                    push_value(&mut out, f.deep_clone());
                },
                None => {},
            }
        }
        i = i + 1;
    }
    assert(tv.take(tools@.len() as int) =~= tv);
    out
}

/// The tool choice an override names, if it names one.
pub fn override_choice_json(o: &str) -> (r: Option<JsonValue>)
    ensures
        opt_view(r) == override_choice(o@),
{
    if crate::json::str_equal(o, "object:auto") {
        let v = crate::json::empty_object().with_field("type", text("auto"));
        proof {
            reveal_with_fuel(crate::json::entries_set, 2);
        }
        Some(v)
    } else if crate::json::str_equal(o, "object:none") {
        let v = crate::json::empty_object().with_field("type", text("none"));
        proof {
            reveal_with_fuel(crate::json::entries_set, 2);
        }
        Some(v)
    } else if crate::json::str_equal(o, "none") {
        Some(text("none"))
    } else if crate::json::str_equal(o, "auto") {
        Some(text("auto"))
    } else {
        None
    }
}

/// How many bytes of a reply body an error message quotes.
pub const BODY_QUOTE_LIMIT: usize = 2000;

/// The number of bytes of the UTF-8 encoding of `c`.
pub open spec fn utf8_char_len(c: char) -> nat {
    let u = c as u32;
    if u < 0x80 {
        1
    } else if u < 0x800 {
        2
    } else if u < 0x10000 {
        3
    } else {
        4
    }
}

/// The number of bytes of the UTF-8 encoding of `s`.
pub open spec fn utf8_len(s: Seq<char>) -> nat
    decreases s.len(),
{
    if s.len() == 0 {
        0
    } else {
        utf8_len(s.drop_last()) + utf8_char_len(s.last())
    }
}

/// The number of leading characters of `s` whose UTF-8 encoding fits in
/// `limit` bytes: the longest such prefix.
pub open spec fn fitting_chars(s: Seq<char>, limit: int) -> nat
    decreases s.len(),
{
    if s.len() == 0 || utf8_char_len(s[0]) > limit {
        0
    } else {
        1 + fitting_chars(s.drop_first(), limit - utf8_char_len(s[0]))
    }
}

/// The body as an error message quotes it: a body longer than
/// `BODY_QUOTE_LIMIT` bytes is cut to its longest prefix that fits in that many
/// bytes (the cut never splits a character) and marked.
pub open spec fn truncated_body_spec(body: Seq<char>) -> Seq<char> {
    if utf8_len(body) > BODY_QUOTE_LIMIT {
        body.take(fitting_chars(body, BODY_QUOTE_LIMIT as int) as int) + "...<truncated>"@
    } else {
        body
    }
}

proof fn lemma_utf8_len_prefix(s: Seq<char>, k: int)
    requires
        0 <= k <= s.len(),
    ensures
        utf8_len(s.take(k)) <= utf8_len(s),
    decreases s.len() - k,
{
    if k < s.len() {
        lemma_utf8_len_prefix(s, k + 1);
        assert(s.take(k + 1).drop_last() =~= s.take(k));
    } else {
        assert(s.take(k) =~= s);
    }
}

fn utf8_char_len_exec(c: char) -> (r: usize)
    ensures
        r == utf8_char_len(c),
{
    let u = c as u32;
    if u < 0x80 {
        1
    } else if u < 0x800 {
        2
    } else if u < 0x10000 {
        3
    } else {
        4
    }
}

/// The body as an error message quotes it; the cut falls between characters.
pub fn truncated_body(body: &str) -> (r: String)
    ensures
        r@ == truncated_body_spec(body@),
{
    let ghost s = body@;
    let n = body.unicode_len();
    let mut i: usize = 0;
    let mut used: usize = 0;
    assert(s.skip(0) =~= s);
    assert(s.take(0) =~= Seq::<char>::empty());
    while i < n
        invariant
            n == s.len(),
            s == body@,
            i <= n,
            used == utf8_len(s.take(i as int)),
            used <= BODY_QUOTE_LIMIT,
            fitting_chars(s, BODY_QUOTE_LIMIT as int) == i + fitting_chars(
                s.skip(i as int),
                BODY_QUOTE_LIMIT - used,
            ),
        decreases n - i,
    {
        let c = body.get_char(i);
        let l = utf8_char_len_exec(c);
        assert(s.skip(i as int)[0] == c);
        assert(s.take(i + 1).drop_last() =~= s.take(i as int));
        if l > BODY_QUOTE_LIMIT - used {
            proof {
                lemma_utf8_len_prefix(s, i + 1);
            }
            let mut r = String::from_str(body.substring_char(0, i));
            r.append("...<truncated>");
            proof {
                assert(s.subrange(0, i as int) =~= s.take(i as int));
            }
            return r;
        }
        assert(s.skip(i as int).drop_first() =~= s.skip(i + 1));
        used = used + l;
        i = i + 1;
    }
    assert(s.take(n as int) =~= s);
    String::from_str(body)
}

/// The `chat.completions` request payload, and whether tools were given.
pub fn chat_payload(
    model: &str,
    msgs: Vec<JsonValue>,
    tools: Option<&Vec<JsonValue>>,
    tool_choice: Option<JsonValue>,
    toggles: &ChatToggles,
) -> (r: (JsonValue, bool))
    ensures
        r.0@ == chat_payload_spec(
            model@,
            values_view(msgs@),
            crate::model::opt_values_view(tools),
            opt_view(tool_choice),
            toggles@,
        ),
        r.1 == tools.is_some(),
{
    let mut payload = if toggles.minimal_payload {
        object2("model", text(model), "messages", array(msgs))
    } else {
        object4(
            "model",
            text(model),
            "messages",
            array(msgs),
            "max_tokens",
            JsonValue::Number(JsonNumber::Int(512)),
            "temperature",
            JsonValue::Number(JsonNumber::Decimal(String::from_str("0.2"))),
        )
    };
    let have_tools = match tools {
        Some(t) => {
            if toggles.minimal_payload {
            } else if toggles.force_functions {
                let functions = legacy_function_list(t);
                if functions.len() > 0 {
                    payload = payload.with_field("functions", array(functions));
                    payload = payload.with_field("function_call", text("auto"));
                }
            } else {
                payload = payload.with_field("tools", array(clone_values(t)));
                if !toggles.disable_parallel {
                    payload = payload.with_field("parallel_tool_calls", JsonValue::Bool(true));
                }
            }
            true
        },
        None => false,
    };
    if !toggles.minimal_payload {
        match tool_choice {
            Some(choice) => {
                payload = payload.with_field("tool_choice", choice);
            },
            None => {
                if have_tools && !toggles.force_functions {
                    if let Some(o) = &toggles.tool_choice_override {
                        if let Some(c) = override_choice_json(o.as_str()) {
                            payload = payload.with_field("tool_choice", c);
                        }
                    }
                }
            },
        }
    }
    (payload, have_tools)
}

/// `choices[0].<inner>.content`, or else `choices[0].text`, when a string.
pub open spec fn first_choice_text_spec(v: Json, inner: Seq<char>) -> Option<Seq<char>> {
    match v.field("choices"@) {
        Some(Json::Array(items)) => if items.len() > 0 {
            let c0 = items[0];
            match c0.field(inner) {
                Some(m) => match m.text_field("content"@) {
                    Some(t) => Some(t),
                    None => c0.text_field("text"@),
                },
                None => c0.text_field("text"@),
            }
        } else {
            None
        },
        _ => None,
    }
}

/// `choices[0].<inner>.content`, or else `choices[0].text`, when a string.
pub fn first_choice_text(v: &JsonValue, inner: &str) -> (r: Option<String>)
    ensures
        r.deep_view() == first_choice_text_spec(v@, inner@),
{
    match v.get("choices") {
        Some(c) => match c.as_array() {
            Some(items) => {
                proof {
                    lemma_values_view(items@);
                }
                if items.len() == 0 {
                    return None;
                }
                let c0 = &items[0];
                let from_inner = match c0.get(inner) {
                    Some(m) => m.get_str("content"),
                    None => None,
                };
                match from_inner {
                    Some(t) => Some(t.clone()),
                    None => match c0.get_str("text") {
                        Some(t) => Some(t.clone()),
                        None => None,
                    },
                }
            },
            None => None,
        },
        None => None,
    }
}

} // verus!

verus! {

/// The plain-generation payload: the model and the prompt as the single user message.
pub fn chat_generate_payload(model: &str, prompt: &str) -> (r: JsonValue)
    ensures
        r@ == Json::Object(
            seq![
                ("model"@, Json::Text(model@)),
                ("messages"@, Json::Array(seq![crate::agent::runner::role_message("user"@, prompt@)])),
            ],
        ),
{
    let mut msgs: Vec<JsonValue> = Vec::new();
    push_value(&mut msgs, role_message_json("user", String::from_str(prompt)));
    proof {
        assert(values_view(msgs@) =~= seq![crate::agent::runner::role_message("user"@, prompt@)]);
    }
    object2("model", text(model), "messages", array(msgs))
}

} // verus!

verus! {

use crate::json::{entries_lookup, law_set_then_lookup};

proof fn lemma_field_after(p: Json, key: Seq<char>, v: Json, k2: Seq<char>)
    requires
        p is Object,
        key != k2,
    ensures
        p.with_field(key, v).field(k2) == p.field(k2),
{
    law_set_then_lookup(p->Object_0, key, v, k2);
}

proof fn lemma_base_lacks(model: Seq<char>, msgs: Seq<Json>, minimal: bool, k: Seq<char>)
    requires
        k != "model"@,
        k != "messages"@,
        k != "max_tokens"@,
        k != "temperature"@,
    ensures
        chat_base_payload(model, msgs, minimal).field(k) is None,
        chat_base_payload(model, msgs, minimal) is Object,
{
    let es = chat_base_payload(model, msgs, minimal)->Object_0;
    assert(es.drop_first().drop_first().drop_first().drop_first().len() == 0 || es.len() == 2);
    if minimal {
        assert(es.drop_first().drop_first() =~= Seq::<(Seq<char>, Json)>::empty());
        assert(entries_lookup(es, k) == entries_lookup(es.drop_first(), k));
        assert(entries_lookup(es.drop_first(), k) == entries_lookup(es.drop_first().drop_first(), k));
    } else {
        let e1 = es.drop_first();
        let e2 = e1.drop_first();
        let e3 = e2.drop_first();
        assert(e3.drop_first() =~= Seq::<(Seq<char>, Json)>::empty());
        assert(entries_lookup(es, k) == entries_lookup(e1, k));
        assert(entries_lookup(e1, k) == entries_lookup(e2, k));
        assert(entries_lookup(e2, k) == entries_lookup(e3, k));
        assert(entries_lookup(e3, k) == entries_lookup(e3.drop_first(), k));
    }
}

/// The member names of a chat payload are pairwise distinct.
proof fn lemma_payload_keys_distinct()
    ensures
        "tools"@ != "model"@,
        "tools"@ != "messages"@,
        "tools"@ != "max_tokens"@,
        "tools"@ != "temperature"@,
        "tools"@ != "functions"@,
        "tools"@ != "function_call"@,
        "tools"@ != "tool_choice"@,
        "parallel_tool_calls"@ != "model"@,
        "parallel_tool_calls"@ != "messages"@,
        "parallel_tool_calls"@ != "max_tokens"@,
        "parallel_tool_calls"@ != "temperature"@,
        "parallel_tool_calls"@ != "functions"@,
        "parallel_tool_calls"@ != "function_call"@,
        "parallel_tool_calls"@ != "tool_choice"@,
        "parallel_tool_calls"@ != "tools"@,
{
    reveal_strlit("tools");
    reveal_strlit("model");
    reveal_strlit("messages");
    reveal_strlit("max_tokens");
    reveal_strlit("temperature");
    reveal_strlit("functions");
    reveal_strlit("function_call");
    reveal_strlit("tool_choice");
    reveal_strlit("parallel_tool_calls");
    assert("tools"@.len() == 5);
    assert("model"@.len() == 5);
    assert("messages"@.len() == 8);
    assert("max_tokens"@.len() == 10);
    assert("temperature"@.len() == 11);
    assert("functions"@.len() == 9);
    assert("function_call"@.len() == 13);
    assert("tool_choice"@.len() == 11);
    assert("parallel_tool_calls"@.len() == 19);
    assert("tools"@[0] != "model"@[0]);
}

/// `VLLM_MIN_PAYLOAD`: a minimal payload holds the model and the messages and
/// nothing else, whatever tools, tool choice or other toggles are given.
pub proof fn law_minimal_payload(
    model: Seq<char>,
    msgs: Seq<Json>,
    tools: Option<Seq<Json>>,
    choice: Option<Json>,
    t: ChatTogglesView,
)
    requires
        t.minimal_payload,
    ensures
        chat_payload_spec(model, msgs, tools, choice, t) == Json::Object(
            seq![("model"@, Json::Text(model)), ("messages"@, Json::Array(msgs))],
        ),
{
}

/// `VLLM_FORCE_FUNCTIONS`: the payload never carries a `tools` member.
pub proof fn law_forced_functions_send_no_tools(
    model: Seq<char>,
    msgs: Seq<Json>,
    tools: Option<Seq<Json>>,
    choice: Option<Json>,
    t: ChatTogglesView,
)
    requires
        t.force_functions,
    ensures
        chat_payload_spec(model, msgs, tools, choice, t).field("tools"@) is None,
{
    lemma_payload_keys_distinct();
    let k = "tools"@;
    let base = chat_base_payload(model, msgs, t.minimal_payload);
    lemma_base_lacks(model, msgs, t.minimal_payload, k);
    let p1 = with_tools_spec(base, tools, t);
    if let Some(ts) = tools {
        let fs = legacy_functions(ts);
        if fs.len() > 0 && !t.minimal_payload {
            let a = base.with_field("functions"@, Json::Array(fs));
            lemma_field_after(base, "functions"@, Json::Array(fs), k);
            lemma_field_after(a, "function_call"@, Json::Text("auto"@), k);
        }
    }
    assert(p1.field(k) is None);
    assert(p1 is Object);
    if !t.minimal_payload {
        if let Some(c) = choice {
            lemma_field_after(p1, "tool_choice"@, c, k);
        }
    }
}

/// `VLLM_DISABLE_PARALLEL_TOOL_CALLS`: the payload never asks for parallel tool calls.
pub proof fn law_no_parallel_when_disabled(
    model: Seq<char>,
    msgs: Seq<Json>,
    tools: Option<Seq<Json>>,
    choice: Option<Json>,
    t: ChatTogglesView,
)
    requires
        t.disable_parallel,
    ensures
        chat_payload_spec(model, msgs, tools, choice, t).field("parallel_tool_calls"@) is None,
{
    lemma_payload_keys_distinct();
    let k = "parallel_tool_calls"@;
    let base = chat_base_payload(model, msgs, t.minimal_payload);
    lemma_base_lacks(model, msgs, t.minimal_payload, k);
    let p1 = with_tools_spec(base, tools, t);
    if let Some(ts) = tools {
        if t.minimal_payload {
        } else if t.force_functions {
            let fs = legacy_functions(ts);
            if fs.len() > 0 {
                let a = base.with_field("functions"@, Json::Array(fs));
                lemma_field_after(base, "functions"@, Json::Array(fs), k);
                lemma_field_after(a, "function_call"@, Json::Text("auto"@), k);
            }
        } else {
            lemma_field_after(base, "tools"@, Json::Array(ts), k);
        }
    }
    assert(p1.field(k) is None);
    assert(p1 is Object);
    if !t.minimal_payload {
        match choice {
            Some(c) => {
                lemma_field_after(p1, "tool_choice"@, c, k);
            },
            None => {
                if tools is Some && !t.force_functions {
                    if let Some(o) = t.tool_choice_override {
                        if let Some(c) = override_choice(o) {
                            lemma_field_after(p1, "tool_choice"@, c, k);
                        }
                    }
                }
            },
        }
    }
}

proof fn lemma_calls_of_all_functions(tcs: Seq<ToolCallJson>)
    requires
        forall|i: int| 0 <= i < tcs.len() ==> (#[trigger] tcs[i]).function is Some,
    ensures
        calls_of(tcs).len() == tcs.len(),
        forall|i: int| 0 <= i < tcs.len() ==> (#[trigger] calls_of(tcs)[i]).name == tcs[i].function->0.name@
            && calls_of(tcs)[i].arguments == arguments_text(tcs[i].function->0.arguments)
            && calls_of(tcs)[i].id == tcs[i].id.deep_view()
            && calls_of(tcs)[i].call_id == tcs[i].call_id.deep_view(),
    decreases tcs.len(),
{
    if tcs.len() > 0 {
        let p = tcs.drop_last();
        assert forall|i: int| 0 <= i < p.len() implies (#[trigger] p[i]).function is Some by {
            assert(p[i] == tcs[i]);
        }
        lemma_calls_of_all_functions(p);
        assert(tcs[tcs.len() - 1] == tcs.last());
    }
}

/// Reading a reply keeps the assistant's text: with at least one choice, the
/// text read is the first choice's `message.content`, whether or not the
/// message also asks for tool calls; with no choice there is no text and no
/// call. When every `tool_calls` entry carries a function, the calls read are
/// those entries, one for one and in order.
pub proof fn law_reply_keeps_text_and_calls(body: ChatCompletion)
    ensures
        body.choices@.len() > 0 ==> chat_reply_spec(body).text == body.choices@[0].message.content.deep_view(),
        body.choices@.len() == 0 ==> chat_reply_spec(body).text is None && chat_reply_spec(body).tool_calls.len() == 0,
        ({
            let tcs = body.choices@[0].message.tool_calls->0@;
            body.choices@.len() > 0 && body.choices@[0].message.tool_calls is Some && (forall|i: int|
                0 <= i < tcs.len() ==> (#[trigger] tcs[i]).function is Some) ==> {
                &&& chat_reply_spec(body).tool_calls.len() == tcs.len()
                &&& forall|i: int| 0 <= i < tcs.len() ==> (#[trigger] chat_reply_spec(body).tool_calls[i]).name
                    == tcs[i].function->0.name@ && chat_reply_spec(body).tool_calls[i].id == tcs[i].id.deep_view()
            }
        }),
{
    if body.choices@.len() > 0 {
        if let Some(tcs) = body.choices@[0].message.tool_calls {
            if forall|i: int| 0 <= i < tcs@.len() ==> (#[trigger] tcs@[i]).function is Some {
                lemma_calls_of_all_functions(tcs@);
            }
        }
    }
}

/// The messages of a request are the caller's when given: the same messages,
/// in the same order, none added or dropped.
pub proof fn law_provided_messages_kept(system: Option<Seq<char>>, input: Seq<char>, provided: Seq<Json>)
    ensures
        chat_messages_spec(system, input, Some(provided)).len() == provided.len(),
        forall|i: int| 0 <= i < provided.len() ==> #[trigger] chat_messages_spec(system, input, Some(provided))[i]
            == provided[i],
{
}

} // verus!

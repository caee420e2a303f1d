use openai_agents_rust::json::{JsonNumber, JsonValue};
use openai_agents_rust::model::endpoint::{chat_completions_url, responses_url, EndpointSettings};
use openai_agents_rust::model::gpt_oss_responses::{
    adapt_messages_to_input, map_openai_tools_to_oss, parse_responses_output, prompt_request, responses_request,
    InputItem, InputUnion, OutputItem, ResponsesObject, TextPart,
};
use openai_agents_rust::model::litellm::{litellm_payload, litellm_response, LiteLlmReply};
use openai_agents_rust::model::openai_chat::{ChatCompletion, Choice, Message};
use openai_agents_rust::model::openai_realtime::realtime_reply;
use openai_agents_rust::model::{default_prompt, text_response};
use openai_agents_rust::config::Config;
use openai_agents_rust::error::AgentError;

fn s(x: &str) -> String {
    x.to_string()
}

fn obj(entries: Vec<(&str, JsonValue)>) -> JsonValue {
    JsonValue::Object(entries.into_iter().map(|(k, v)| (k.to_string(), v)).collect())
}

fn t(x: &str) -> JsonValue {
    JsonValue::Text(x.to_string())
}

fn msg(role: &str, content: &str) -> JsonValue {
    obj(vec![("role", t(role)), ("content", t(content))])
}

fn config(api_key: &str, base: &str) -> Config {
    Config {
        api_key: s(api_key),
        model: s("m"),
        base_url: s(base),
        log_level: s("info"),
        plugins_path: std::path::PathBuf::from("."),
        max_concurrent_requests: None,
    }
}

#[test]
fn default_prompt_picks_last_user_message() {
    let msgs = vec![msg("user", "first"), msg("assistant", "a"), msg("user", "second"), msg("system", "s")];
    assert_eq!(default_prompt(Some("sys"), "in", Some(&msgs)), "second");
    let msgs = vec![msg("assistant", "a"), obj(vec![("role", t("user")), ("content", JsonValue::Null)])];
    assert_eq!(default_prompt(Some("sys"), "in", Some(&msgs)), "sys\n\nin");
    assert_eq!(default_prompt(None, "in", None), "in");
    let r = text_response(s("x"));
    assert_eq!(r.text.as_deref(), Some("x"));
    assert!(r.id.is_none() && r.tool_calls.is_empty());
}

#[test]
fn realtime_placeholder_reply() {
    assert_eq!(realtime_reply("hi"), "Realtime response to: hi");
}

#[test]
fn endpoint_settings_and_urls() {
    let e = EndpointSettings::from_config(&config("", "http://h/v1/"));
    assert!(e.auth_token.is_none());
    assert_eq!(e.model, "m");
    let e = EndpointSettings::from_config(&config("k", "http://h/v1/"));
    assert_eq!(e.auth_token.as_deref(), Some("k"));
    let e = e.without_auth().with_base_url(s("http://x"));
    assert!(e.auth_token.is_none());
    assert_eq!(e.base_url, "http://x");
    let e = e.with_auth_token(Some(s("t")));
    assert_eq!(e.auth_token.as_deref(), Some("t"));
    assert_eq!(chat_completions_url("http://h/v1/"), "http://h/v1//chat/completions");
    assert_eq!(responses_url("http://h/v1//"), "http://h/v1/responses");
}

#[test]
fn adapt_messages_keeps_chat_and_tool_outputs() {
    let msgs = vec![
        msg("system", "s"),
        msg("user", "u"),
        obj(vec![("role", t("assistant")), ("content", JsonValue::Null)]),
        obj(vec![("role", t("tool")), ("tool_call_id", t("c1")), ("content", t("out"))]),
        obj(vec![("role", t("tool")), ("content", t("no id"))]),
        obj(vec![("role", t("tool")), ("tool_call_id", t("c2"))]),
        msg("function", "f"),
    ];
    match adapt_messages_to_input(Some(&msgs)) {
        InputUnion::Items(items) => {
            assert_eq!(items.len(), 4);
            assert!(matches!(&items[0], InputItem::Message { role, content } if role == "system" && content == "s"));
            assert!(matches!(&items[2], InputItem::FunctionCallOutput { call_id, output } if call_id == "c1" && output == "out"));
            assert!(matches!(&items[3], InputItem::FunctionCallOutput { call_id, output } if call_id == "c2" && output.is_empty()));
        }
        InputUnion::Str(_) => panic!("items expected"),
    }
    assert!(matches!(adapt_messages_to_input(Some(&vec![msg("function", "f")])), InputUnion::Str(s) if s.is_empty()));
    assert!(matches!(adapt_messages_to_input(None), InputUnion::Str(s) if s.is_empty()));
}

#[test]
fn map_tools_to_responses_definitions() {
    let tools = vec![
        obj(vec![
            ("type", t("function")),
            (
                "function",
                obj(vec![("name", t("f")), ("description", t("d")), ("parameters", obj(vec![("type", t("object")), ("x", JsonValue::Bool(true))]))]),
            ),
        ]),
        obj(vec![("type", t("function")), ("function", obj(vec![]))]),
        obj(vec![("type", t("web")), ("function", obj(vec![("name", t("w"))]))]),
        obj(vec![("type", t("function")), ("function", t("not an object"))]),
    ];
    let defs = map_openai_tools_to_oss(Some(&tools)).expect("definitions");
    assert_eq!(defs.len(), 2);
    assert_eq!(defs[0].name, "f");
    assert_eq!(defs[0].description.as_deref(), Some("d"));
    assert_eq!(defs[0].strict, Some(false));
    assert_eq!(defs[0].ty, "function");
    assert_eq!(defs[1].name, "");
    assert!(defs[1].description.is_none());
    match &defs[1].parameters {
        JsonValue::Object(es) => assert_eq!(es.len(), 1),
        _ => panic!("object parameters expected"),
    }
    assert!(map_openai_tools_to_oss(Some(&vec![tools[2].deep_clone()])).is_none());
    assert!(map_openai_tools_to_oss(None).is_none());
}

#[test]
fn responses_request_bodies() {
    let msgs = vec![msg("user", "u")];
    let choice = t("auto");
    let b = responses_request(Some("sys"), Some(&msgs), None, Some(&choice), Some("prev"), false, "m");
    assert_eq!(b.instructions.as_deref(), Some("sys"));
    assert_eq!(b.tool_choice.as_deref(), Some("auto"));
    assert_eq!(b.previous_response_id.as_deref(), Some("prev"));
    assert_eq!(b.store, Some(true));
    assert_eq!(b.parallel_tool_calls, Some(true));
    assert_eq!(b.max_output_tokens, Some(512));
    assert!(matches!(&b.temperature, Some(JsonNumber::Decimal(d)) if d == "0.2"));
    let choice = obj(vec![("type", t("auto"))]);
    let b = responses_request(None, None, None, Some(&choice), Some("prev"), true, "m");
    assert!(b.tool_choice.is_none());
    assert!(b.previous_response_id.is_none());
    assert!(b.store.is_none());
    let p = prompt_request("m", "hello");
    assert!(matches!(&p.input, InputUnion::Str(x) if x == "hello"));
    assert!(p.parallel_tool_calls.is_none());
    assert_eq!(p.model.as_deref(), Some("m"));
}

#[test]
fn responses_output_parsing() {
    let obj = ResponsesObject {
        id: Some(s("r1")),
        output: vec![
            OutputItem::Message { role: s("assistant"), content: vec![TextPart { kind: s("output_text"), text: s("Hel") }, TextPart { kind: s("output_text"), text: s("lo") }] },
            OutputItem::FunctionCall { name: s("f"), arguments: s("{}"), id: s("i1"), call_id: s("c1") },
            OutputItem::Message { role: s("assistant"), content: vec![] },
            OutputItem::Other,
        ],
    };
    let r = parse_responses_output(&obj);
    assert_eq!(r.id.as_deref(), Some("r1"));
    assert_eq!(r.text.as_deref(), Some("Hello"));
    assert_eq!(r.tool_calls.len(), 1);
    assert_eq!(r.tool_calls[0].id.as_deref(), Some("i1"));
    assert_eq!(r.tool_calls[0].call_id.as_deref(), Some("c1"));
}

#[test]
fn litellm_payload_and_strict_reading() {
    let tools = vec![t("x")];
    let p = litellm_payload("m", vec![], Some(&tools), Some(t("none")));
    assert!(matches!(p.get("tools"), Some(JsonValue::Array(a)) if a.len() == 1));
    assert!(matches!(p.get("tool_choice"), Some(JsonValue::Text(c)) if c == "none"));
    assert!(p.get("parallel_tool_calls").is_none());
    let typed = ChatCompletion { choices: vec![Choice { message: Message { content: Some(s("typed")), tool_calls: None, function_call: None } }] };
    assert_eq!(litellm_response(LiteLlmReply::Completion(typed), s("body")).unwrap().text.as_deref(), Some("typed"));
    match litellm_response(LiteLlmReply::NotCompletion, s("not json")) {
        Err(AgentError::Other(m)) => assert_eq!(m, "LiteLLM reply is not a chat completion: not json"),
        _ => panic!("a reply that is not a completion must be an error"),
    }
}

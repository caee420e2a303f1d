use openai_agents_rust::json::{JsonNumber, JsonValue};
use openai_agents_rust::model::openai_chat::{
    chat_messages, chat_payload, parse_chat_completion, ArgumentsValue, ChatCompletion, ChatToggles,
    Choice, FunctionCall, Message, ToolCallJson, truncated_body,
};

fn s(x: &str) -> String {
    x.to_string()
}

fn obj(entries: Vec<(&str, JsonValue)>) -> JsonValue {
    JsonValue::Object(entries.into_iter().map(|(k, v)| (k.to_string(), v)).collect())
}

fn field<'a>(v: &'a JsonValue, key: &str) -> Option<&'a JsonValue> {
    v.get(key)
}

fn text_of(v: Option<&JsonValue>) -> Option<String> {
    match v {
        Some(JsonValue::Text(t)) => Some(t.clone()),
        _ => None,
    }
}

#[test]
fn parse_text_only() {
    let body = ChatCompletion {
        choices: vec![Choice {
            message: Message { content: Some(s("Hello")), tool_calls: None, function_call: None },
        }],
    };
    let res = parse_chat_completion(body);
    assert_eq!(res.text.as_deref(), Some("Hello"));
    assert!(res.tool_calls.is_empty());
}

#[test]
fn parse_with_tool_calls() {
    let body = ChatCompletion {
        choices: vec![Choice {
            message: Message {
                content: None,
                tool_calls: Some(vec![
                    ToolCallJson {
                        kind: Some(s("function")),
                        id: None,
                        call_id: None,
                        function: Some(FunctionCall {
                            name: s("search"),
                            arguments: ArgumentsValue::Text(s("{\"q\":\"rust\"}")),
                        }),
                    },
                    ToolCallJson {
                        kind: Some(s("function")),
                        id: None,
                        call_id: None,
                        function: Some(FunctionCall {
                            name: s("get_weather"),
                            arguments: ArgumentsValue::Text(s("{\"city\":\"NYC\"}")),
                        }),
                    },
                ]),
                function_call: None,
            },
        }],
    };
    let res = parse_chat_completion(body);
    assert!(res.text.is_none());
    assert_eq!(res.tool_calls.len(), 2);
    assert_eq!(res.tool_calls[0].name, "search");
    assert_eq!(res.tool_calls[0].arguments, "{\"q\":\"rust\"}");
    assert_eq!(res.tool_calls[1].name, "get_weather");
}

#[test]
fn parse_legacy_function_call_and_encoded_arguments() {
    let body = ChatCompletion {
        choices: vec![Choice {
            message: Message {
                content: Some(s("")),
                tool_calls: None,
                function_call: Some(FunctionCall {
                    name: s("lookup"),
                    arguments: ArgumentsValue::Encoded(s("{\"k\":1}")),
                }),
            },
        }],
    };
    let res = parse_chat_completion(body);
    assert_eq!(res.text.as_deref(), Some(""));
    assert_eq!(res.tool_calls.len(), 1);
    assert_eq!(res.tool_calls[0].name, "lookup");
    assert_eq!(res.tool_calls[0].arguments, "{\"k\":1}");
    assert!(res.tool_calls[0].id.is_none());
    assert!(res.tool_calls[0].call_id.is_none());
}

#[test]
fn parse_skips_entries_without_function_and_keeps_ids() {
    let body = ChatCompletion {
        choices: vec![Choice {
            message: Message {
                content: None,
                tool_calls: Some(vec![
                    ToolCallJson { kind: None, id: Some(s("x")), call_id: None, function: None },
                    ToolCallJson {
                        kind: None,
                        id: Some(s("id1")),
                        call_id: Some(s("c1")),
                        function: Some(FunctionCall { name: s("f"), arguments: ArgumentsValue::Text(s("a")) }),
                    },
                ]),
                function_call: Some(FunctionCall { name: s("ignored"), arguments: ArgumentsValue::Text(s("")) }),
            },
        }],
    };
    let res = parse_chat_completion(body);
    assert_eq!(res.tool_calls.len(), 1);
    assert_eq!(res.tool_calls[0].id.as_deref(), Some("id1"));
    assert_eq!(res.tool_calls[0].call_id.as_deref(), Some("c1"));
}

#[test]
fn parse_without_choices_is_empty() {
    let res = parse_chat_completion(ChatCompletion { choices: vec![] });
    assert!(res.text.is_none());
    assert!(res.tool_calls.is_empty());
    assert!(res.id.is_none());
}

fn toggles(minimal: bool, force: bool, no_parallel: bool, choice: Option<&str>) -> ChatToggles {
    ChatToggles {
        minimal_payload: minimal,
        force_functions: force,
        disable_parallel: no_parallel,
        tool_choice_override: choice.map(|c| c.to_string()),
    }
}

fn tool_spec(name: &str) -> JsonValue {
    obj(vec![
        ("type", JsonValue::Text(s("function"))),
        ("function", obj(vec![("name", JsonValue::Text(s(name)))])),
    ])
}

#[test]
fn chat_messages_from_instructions_and_input() {
    let msgs = chat_messages(Some("sys"), "hi", None);
    assert_eq!(msgs.len(), 2);
    assert_eq!(text_of(field(&msgs[0], "role")).as_deref(), Some("system"));
    assert_eq!(text_of(field(&msgs[0], "content")).as_deref(), Some("sys"));
    assert_eq!(text_of(field(&msgs[1], "role")).as_deref(), Some("user"));
    assert_eq!(text_of(field(&msgs[1], "content")).as_deref(), Some("hi"));
    let provided = vec![obj(vec![("role", JsonValue::Text(s("user")))])];
    let msgs = chat_messages(Some("sys"), "hi", Some(&provided));
    assert_eq!(msgs.len(), 1);
}

#[test]
fn chat_payload_default_with_tools() {
    let tools = vec![tool_spec("a")];
    let (p, have) = chat_payload("m", vec![], Some(&tools), None, &toggles(false, false, false, Some("object:none")));
    assert!(have);
    assert_eq!(text_of(field(&p, "model")).as_deref(), Some("m"));
    assert!(matches!(field(&p, "max_tokens"), Some(JsonValue::Number(JsonNumber::Int(512)))));
    match field(&p, "temperature") {
        Some(JsonValue::Number(JsonNumber::Decimal(d))) => assert_eq!(d, "0.2"),
        _ => panic!("temperature missing"),
    }
    assert!(matches!(field(&p, "tools"), Some(JsonValue::Array(a)) if a.len() == 1));
    assert!(matches!(field(&p, "parallel_tool_calls"), Some(JsonValue::Bool(true))));
    let tc = field(&p, "tool_choice").expect("tool_choice");
    assert_eq!(text_of(tc.get("type")).as_deref(), Some("none"));
}

#[test]
fn chat_payload_minimal_and_forced_functions() {
    let tools = vec![tool_spec("a"), JsonValue::Text(s("not a spec"))];
    let (p, _) = chat_payload("m", vec![], Some(&tools), Some(JsonValue::Text(s("auto"))), &toggles(true, false, false, None));
    assert!(field(&p, "tools").is_none());
    assert!(field(&p, "max_tokens").is_none());
    assert!(field(&p, "tool_choice").is_none());
    let (p, _) = chat_payload("m", vec![], Some(&tools), None, &toggles(false, true, false, Some("auto")));
    assert!(field(&p, "tools").is_none());
    assert!(matches!(field(&p, "functions"), Some(JsonValue::Array(a)) if a.len() == 1));
    assert_eq!(text_of(field(&p, "function_call")).as_deref(), Some("auto"));
    assert!(field(&p, "tool_choice").is_none());
    let (p, _) = chat_payload("m", vec![], Some(&tools), None, &toggles(true, true, false, Some("auto")));
    match &p {
        JsonValue::Object(es) => {
            let keys: Vec<&str> = es.iter().map(|(k, _)| k.as_str()).collect();
            assert_eq!(keys, vec!["model", "messages"]);
        }
        _ => panic!("payload is not an object"),
    }
    let (p, have) = chat_payload("m", vec![], None, None, &toggles(false, false, true, Some("auto")));
    assert!(!have);
    assert!(field(&p, "tool_choice").is_none());
    assert!(field(&p, "parallel_tool_calls").is_none());
}

#[test]
fn chat_payload_caller_choice_wins() {
    let tools = vec![tool_spec("a")];
    let (p, _) = chat_payload("m", vec![], Some(&tools), Some(JsonValue::Text(s("required"))), &toggles(false, false, true, Some("none")));
    assert_eq!(text_of(field(&p, "tool_choice")).as_deref(), Some("required"));
    assert!(field(&p, "parallel_tool_calls").is_none());
}

#[test]
fn error_bodies_are_cut_between_characters() {
    assert_eq!(truncated_body("short"), "short");
    let exact = "a".repeat(2000);
    assert_eq!(truncated_body(&exact), exact);
    let two_byte_fit = "é".repeat(1000);
    assert_eq!(truncated_body(&two_byte_fit), two_byte_fit);
    let two_byte_over = "é".repeat(1001);
    assert_eq!(truncated_body(&two_byte_over), format!("{}...<truncated>", "é".repeat(1000)));
    let mixed = format!("a{}", "€".repeat(700));
    let cut = truncated_body(&mixed);
    assert_eq!(cut, format!("a{}...<truncated>", "€".repeat(666)));
    assert_eq!(cut.len() - "...<truncated>".len(), 1999);
}

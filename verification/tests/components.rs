use openai_agents_rust::agent::types::{effective_instructions, AgentConfig};
use openai_agents_rust::agent::runner::ToolUseBehavior;
use openai_agents_rust::config::{apply_env_overrides, load_from_env, Config, ProviderEnv};
use openai_agents_rust::error::AgentError;
use openai_agents_rust::json::JsonValue;
use openai_agents_rust::mcp_server::{error_body, select_model, status_body, ModelChoice};
use openai_agents_rust::memory::SessionStore;
use openai_agents_rust::plugin::loader::{is_plugin_library_ext, PluginRegistry};
use openai_agents_rust::plugin::traits::Plugin;
use openai_agents_rust::realtime::{classify_sse_line, classify_sse_text, delta_text, SseReader, take_line, OpenAiChatRealtime, SseLine};
use openai_agents_rust::tools::function::FunctionTool;
use openai_agents_rust::tools::registry::ToolRegistry;
use openai_agents_rust::voice::{OpenAiStt, OpenAiTts};

fn s(x: &str) -> String {
    x.to_string()
}

fn env(key: Option<&str>, base: Option<&str>, model: Option<&str>, log: Option<&str>) -> ProviderEnv {
    ProviderEnv {
        openai_api_key: key.map(s),
        openai_base_url: base.map(s),
        openai_model: model.map(s),
        rust_log: log.map(s),
    }
}

fn config() -> Config {
    Config {
        api_key: s("file-key"),
        model: s("file-model"),
        base_url: s("http://file"),
        log_level: s("warn"),
        plugins_path: std::path::PathBuf::from("/p"),
        max_concurrent_requests: Some(4),
    }
}

#[test]
fn env_overlay_replaces_only_nonblank_values() {
    let mut c = config();
    apply_env_overrides(&mut c, &env(Some("  k  "), Some(""), None, Some("  ")));
    assert_eq!(c.api_key, "k");
    assert_eq!(c.base_url, "http://file");
    assert_eq!(c.model, "file-model");
    assert_eq!(c.log_level, "warn");
    assert_eq!(c.max_concurrent_requests, Some(4));
    apply_env_overrides(&mut c, &env(None, Some("http://env"), Some("m2"), Some("debug")));
    assert_eq!(c.base_url, "http://env");
    assert_eq!(c.model, "m2");
    assert_eq!(c.log_level, "debug");
    let before = (c.api_key.clone(), c.base_url.clone(), c.model.clone(), c.log_level.clone());
    apply_env_overrides(&mut c, &env(None, Some("http://env"), Some("m2"), Some("debug")));
    assert_eq!(before, (c.api_key.clone(), c.base_url.clone(), c.model.clone(), c.log_level.clone()));
}

#[test]
fn config_from_env_has_no_provider_defaults() {
    let c = load_from_env(&env(None, None, None, None), std::path::PathBuf::from("/x"));
    assert_eq!(c.model, "");
    assert_eq!(c.base_url, "");
    assert_eq!(c.api_key, "");
    assert_eq!(c.log_level, "info");
    assert_eq!(c.plugins_path, std::path::PathBuf::from("/x"));
    let c = load_from_env(&env(Some("key"), Some(" http://b "), Some("m"), Some("")), std::path::PathBuf::from("/x"));
    assert_eq!(c.api_key, "key");
    assert_eq!(c.base_url, "http://b");
    assert_eq!(c.model, "m");
    assert_eq!(c.log_level, "");
}

#[test]
fn agent_config_defaults_and_instructions() {
    let c = AgentConfig::new(s("bot"));
    assert_eq!(c.name, "bot");
    assert!(c.reset_tool_choice);
    assert!(matches!(c.tool_use_behavior, ToolUseBehavior::RunLlmAgain));
    assert_eq!(effective_instructions(&c), "Agent: bot");
    let mut c = c;
    c.instructions = Some(s("custom"));
    assert_eq!(effective_instructions(&c), "custom");
    let d = AgentConfig::default();
    assert_eq!(d.name, "");
    assert!(d.instructions.is_none());
}

#[test]
fn tool_registry_lookup_returns_first_match() {
    let mut reg: ToolRegistry<u32> = ToolRegistry::new();
    reg.register(s("a"), 1);
    reg.register(s("b"), 2);
    reg.register(s("a"), 3);
    assert_eq!(reg.get_by_name("a"), Some(&1));
    assert_eq!(reg.get_by_name("b"), Some(&2));
    assert_eq!(reg.get_by_name("c"), None);
    assert_eq!(reg.all(), &vec![1, 2, 3]);
    assert_eq!(reg.names(), &vec![s("a"), s("b"), s("a")]);
}

#[test]
fn function_tool_calls_its_function() {
    let tool = FunctionTool::new(s("uppercase"), s("Uppercase the input string"), |x: &str| -> Result<String, AgentError> {
        Ok(x.to_uppercase())
    });
    assert!(tool.is_enabled());
    assert_eq!(tool.name(), "uppercase");
    assert_eq!(tool.call("abc").unwrap(), "ABC");
    let spec = tool.openai_tool_spec().unwrap();
    let f = spec.get("function").unwrap();
    assert!(matches!(f.get("name"), Some(JsonValue::Text(n)) if n == "uppercase"));
    assert!(matches!(f.get("parameters").and_then(|p| p.get("additionalProperties")), Some(JsonValue::Bool(false))));
    let tool = tool.disabled();
    assert!(!tool.is_enabled());
    assert_eq!(tool.description(), "Uppercase the input string");
}

struct Named(&'static str);

impl Plugin for Named {
    fn name(&self) -> &str {
        self.0
    }
    fn init(&self) {}
}

#[test]
fn plugin_registry_keeps_order() {
    let mut reg = PluginRegistry::new();
    assert_eq!(reg.len(), 0);
    reg.register(Named("one"));
    reg.register_box(Box::new(Named("two")));
    let names: Vec<&str> = reg.iter().iter().map(|p| p.0.name()).collect();
    assert_eq!(names, vec!["one", "two"]);
    assert_eq!(PluginRegistry::default().len(), 0);
    assert!(is_plugin_library_ext("so"));
    assert!(is_plugin_library_ext("dylib"));
    assert!(!is_plugin_library_ext("dll"));
    assert!(!is_plugin_library_ext("SO"));
}

#[test]
fn session_store_reads_back_writes() {
    let mut m = SessionStore::new();
    assert_eq!(m.get("k"), None);
    m.set("k", s("v1"));
    m.set("other", s("x"));
    m.set("k", s("v2"));
    assert_eq!(m.get("k").as_deref(), Some("v2"));
    assert_eq!(m.get("other").as_deref(), Some("x"));
}

#[test]
fn server_bodies_and_model_selection() {
    assert_eq!(select_model("openai_chat").unwrap(), ModelChoice::OpenAiChat);
    assert_eq!(select_model("openai_realtime").unwrap(), ModelChoice::OpenAiRealtime);
    assert_eq!(select_model("litellm").unwrap(), ModelChoice::LiteLlm);
    match select_model("gpt") {
        Err(AgentError::Other(m)) => assert_eq!(m, "Unknown model gpt"),
        _ => panic!("error expected"),
    }
    assert!(matches!(status_body().get("status"), Some(JsonValue::Text(t)) if t == "running"));
    assert!(matches!(error_body(s("boom")).get("error"), Some(JsonValue::Text(t)) if t == "boom"));
}

#[test]
fn sse_lines() {
    let mut buf = b"data: {\"a\":1}\n\ndata: [DONE]\npartial".to_vec();
    let l1 = take_line(&mut buf).unwrap();
    assert_eq!(l1, b"data: {\"a\":1}\n".to_vec());
    assert!(matches!(classify_sse_line(&l1), SseLine::Data(d) if d == "{\"a\":1}"));
    let l2 = take_line(&mut buf).unwrap();
    assert!(matches!(classify_sse_line(&l2), SseLine::Skip));
    let l3 = take_line(&mut buf).unwrap();
    assert!(matches!(classify_sse_line(&l3), SseLine::Done));
    assert!(take_line(&mut buf).is_none());
    assert_eq!(buf, b"partial".to_vec());
    assert!(matches!(classify_sse_line(b"event: x\n"), SseLine::Skip));
    assert!(matches!(classify_sse_line(b"  data:   hi  \r\n"), SseLine::Data(d) if d == "hi"));
}

#[test]
fn sse_invalid_utf8_is_replaced() {
    assert!(matches!(classify_sse_line(b"data: a\xffb\n"), SseLine::Data(d) if d == "a\u{FFFD}b"));
    assert!(matches!(classify_sse_text("data: [DONE]"), SseLine::Done));
    assert!(matches!(classify_sse_text("data:x"), SseLine::Skip));
}

#[test]
fn sse_reader_ignores_chunking() {
    let stream: &[u8] = b"data: one\n\nevent: x\ndata: two\r\ndata: thr";
    let mut whole = SseReader::new();
    let all = whole.feed(stream);
    assert_eq!(all, vec!["one".to_string(), "two".to_string()]);
    for cut in 0..stream.len() {
        let mut r = SseReader::new();
        let mut got = r.feed(&stream[..cut]);
        got.extend(r.feed(&stream[cut..]));
        assert_eq!(got, all);
    }
    let mut rest = whole.feed(b"ee\n");
    assert_eq!(rest, vec!["three".to_string()]);
    let mut d = SseReader::new();
    rest = d.feed(b"data: a\ndata: [DONE]\ndata: b\n");
    assert_eq!(rest, vec!["a".to_string()]);
    assert_eq!(d.feed(b""), vec!["b".to_string()]);
}

fn obj(entries: Vec<(&str, JsonValue)>) -> JsonValue {
    JsonValue::Object(entries.into_iter().map(|(k, v)| (k.to_string(), v)).collect())
}

#[test]
fn stream_delta_text() {
    let ev = obj(vec![("choices", JsonValue::Array(vec![obj(vec![("delta", obj(vec![("content", JsonValue::Text(s("Hi")))]))])]))]);
    assert_eq!(delta_text(&ev).as_deref(), Some("Hi"));
    let ev = obj(vec![("choices", JsonValue::Array(vec![obj(vec![("delta", obj(vec![("content", JsonValue::Text(s("")))]))])]))]);
    assert_eq!(delta_text(&ev), None);
    let ev = obj(vec![("choices", JsonValue::Array(vec![obj(vec![("text", JsonValue::Text(s("T")))])]))]);
    assert_eq!(delta_text(&ev).as_deref(), Some("T"));
}

#[test]
fn realtime_and_voice_requests() {
    let c = config();
    let r = OpenAiChatRealtime::new_simple(&c, "hello");
    assert_eq!(r.url(), "http://file/chat/completions");
    let body = r.body();
    assert!(matches!(body.get("stream"), Some(JsonValue::Bool(true))));
    assert!(body.get("max_tokens").is_some());
    assert!(matches!(body.get("messages"), Some(JsonValue::Array(m)) if m.len() == 1));
    let stt = OpenAiStt::new(&c);
    assert_eq!(stt.url(), "http://file/audio/transcriptions");
    let tts = OpenAiTts::new(&c);
    assert_eq!(tts.url(), "http://file/audio/speech");
    let b = tts.body("Hi");
    assert!(matches!(b.get("voice"), Some(JsonValue::Text(v)) if v == "alloy"));
    assert!(matches!(b.get("format"), Some(JsonValue::Text(v)) if v == "wav"));
    let tts = OpenAiTts::new(&c).with_voice(s("echo")).with_format(s("mp3"));
    let b = tts.body("Hi");
    assert!(matches!(b.get("voice"), Some(JsonValue::Text(v)) if v == "echo"));
    assert!(matches!(b.get("format"), Some(JsonValue::Text(v)) if v == "mp3"));
    assert!(matches!(b.get("input"), Some(JsonValue::Text(v)) if v == "Hi"));
}

#[test]
fn json_with_field_replaces_first_member() {
    let o = obj(vec![("a", JsonValue::Bool(true)), ("b", JsonValue::Null)]);
    let o = o.with_field("a", JsonValue::Bool(false)).with_field("c", JsonValue::Null);
    match &o {
        JsonValue::Object(es) => {
            assert_eq!(es.len(), 3);
            assert_eq!(es[0].0, "a");
        }
        _ => panic!(),
    }
    assert!(matches!(o.get("a"), Some(JsonValue::Bool(false))));
    let t = JsonValue::Text(s("x")).with_field("a", JsonValue::Null);
    assert!(matches!(t, JsonValue::Text(_)));
}

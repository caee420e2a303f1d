use openai_agents_rust::agent::runner::{
    collect_tool_output, combine_input, RunAction, RunEvent, RunMachine, RunPhase, ToolUseBehavior,
    ToolsToFinalOutputResult, MAX_TURNS,
};
use openai_agents_rust::error::AgentError;
use openai_agents_rust::json::JsonValue;
use openai_agents_rust::model::{ModelResponse, ToolCall};
use openai_agents_rust::results::RunResult;

struct ScriptTool {
    name: &'static str,
    enabled: bool,
    has_spec: bool,
}

struct Outcome {
    result: Result<RunResult, String>,
    model_calls: usize,
    offered: Vec<bool>,
    last_messages: Vec<JsonValue>,
    combined_inputs: Vec<String>,
}

fn run(
    tools: &[ScriptTool],
    behavior: ToolUseBehavior,
    instructions: Option<&str>,
    input: &str,
    mut replies: Vec<ModelResponse>,
    decision: Option<ToolsToFinalOutputResult>,
) -> Outcome {
    let names = tools.iter().map(|t| t.name.to_string()).collect();
    let specs = tools.iter().map(|t| t.has_spec).collect();
    let (mut m, mut action) = RunMachine::new(
        instructions.map(|s| s.to_string()),
        input.to_string(),
        behavior,
        names,
        specs,
        false,
    );
    let mut model_calls = 0;
    let mut offered = vec![];
    let mut combined_inputs = vec![];
    let mut decision = decision;
    replies.reverse();
    loop {
        let event = match action {
            RunAction::CheckEnabled { tool } => RunEvent::Enabled(tools[tool].enabled),
            RunAction::CallTool { tool, input } => {
                RunEvent::ToolOutput(format!("{}:{}", tools[tool].name, input))
            }
            RunAction::CallToolWithContext { tool, arguments, .. } => {
                RunEvent::ToolOutput(format!("{}({})", tools[tool].name, arguments))
            }
            RunAction::Decide => RunEvent::Decision(decision.take().expect("decision")),
            RunAction::CallModel { offer_tools } => {
                model_calls += 1;
                offered.push(offer_tools);
                combined_inputs.push(m.combined_input().clone());
                RunEvent::ModelReply(replies.pop().expect("model reply"))
            }
            RunAction::Finish(res) => {
                return Outcome { result: Ok(res), model_calls, offered, last_messages: m.messages().iter().map(|v| v.deep_clone()).collect(), combined_inputs }
            }
            RunAction::Fail(AgentError::Other(msg)) => {
                return Outcome { result: Err(msg), model_calls, offered, last_messages: m.messages().iter().map(|v| v.deep_clone()).collect(), combined_inputs }
            }
            RunAction::Fail(_) => panic!("unexpected error kind"),
        };
        action = m.step(event);
    }
}

fn text_reply(t: &str) -> ModelResponse {
    ModelResponse { id: Some("resp".to_string()), text: Some(t.to_string()), tool_calls: vec![] }
}

fn call(name: &str, id: Option<&str>, args: &str) -> ToolCall {
    ToolCall { id: id.map(|s| s.to_string()), name: name.to_string(), arguments: args.to_string(), call_id: None }
}

fn calls_reply(calls: Vec<ToolCall>) -> ModelResponse {
    ModelResponse { id: None, text: None, tool_calls: calls }
}

fn echo_tools() -> Vec<ScriptTool> {
    vec![ScriptTool { name: "echo", enabled: true, has_spec: false }]
}

#[test]
fn runner_returns_tool_outputs_on_stop_first() {
    // The echo tool returns its input unchanged.
    let names = vec!["echo".to_string()];
    let (mut m, action) = RunMachine::new(None, "hi".to_string(), ToolUseBehavior::StopOnFirstTool, names, vec![false], false);
    assert!(matches!(action, RunAction::CheckEnabled { tool: 0 }));
    let action = m.step(RunEvent::Enabled(true));
    let input = match action {
        RunAction::CallTool { tool: 0, input } => input,
        _ => panic!("expected a tool call"),
    };
    let res = match m.step(RunEvent::ToolOutput(input)) {
        RunAction::Finish(res) => res,
        _ => panic!("expected the run to finish"),
    };
    assert_eq!(res.text.as_deref(), Some("hi"));
    assert_eq!(res.tool_outputs.len(), 1);
    assert_eq!(res.tool_outputs[0].0, "echo");
    assert_eq!(res.tool_outputs[0].1, "hi");
}

#[test]
fn stop_at_tools_stops_only_on_listed_tool() {
    let tools = vec![
        ScriptTool { name: "a", enabled: true, has_spec: false },
        ScriptTool { name: "b", enabled: true, has_spec: false },
        ScriptTool { name: "c", enabled: true, has_spec: false },
    ];
    let out = run(&tools, ToolUseBehavior::StopAtTools(vec!["b".to_string()]), None, "x", vec![], None);
    let res = out.result.unwrap();
    assert_eq!(res.text.as_deref(), Some("b:x"));
    assert_eq!(res.tool_outputs, vec![("b".to_string(), "b:x".to_string())]);
    assert_eq!(out.model_calls, 0);
}

#[test]
fn run_llm_again_passes_tool_outputs_to_model() {
    let tools = vec![
        ScriptTool { name: "a", enabled: true, has_spec: true },
        ScriptTool { name: "off", enabled: false, has_spec: true },
    ];
    let out = run(&tools, ToolUseBehavior::RunLlmAgain, Some("be nice"), "q", vec![text_reply("answer")], None);
    let res = out.result.unwrap();
    assert_eq!(res.text.as_deref(), Some("answer"));
    assert_eq!(res.id.as_deref(), Some("resp"));
    assert_eq!(res.tool_outputs, vec![("a".to_string(), "a:q".to_string())]);
    assert_eq!(out.combined_inputs, vec!["q\n\nTool a output:\na:q".to_string()]);
    assert_eq!(out.offered, vec![true]);
    // system, user, assistant
    assert_eq!(out.last_messages.len(), 3);
}

#[test]
fn custom_decider_can_end_the_run() {
    let out = run(
        &echo_tools(),
        ToolUseBehavior::Custom,
        None,
        "in",
        vec![],
        Some(ToolsToFinalOutputResult { is_final_output: true, final_output: Some("decided".to_string()) }),
    );
    let res = out.result.unwrap();
    assert_eq!(res.text.as_deref(), Some("decided"));
    assert!(res.tool_outputs.is_empty());
    assert_eq!(out.model_calls, 0);
}

#[test]
fn custom_decider_can_continue() {
    let out = run(
        &echo_tools(),
        ToolUseBehavior::Custom,
        None,
        "in",
        vec![text_reply("model")],
        Some(ToolsToFinalOutputResult { is_final_output: false, final_output: None }),
    );
    let res = out.result.unwrap();
    assert_eq!(res.text.as_deref(), Some("model"));
    assert_eq!(res.tool_outputs.len(), 1);
}

#[test]
fn model_tool_calls_are_executed_and_recorded() {
    let tools = vec![ScriptTool { name: "up", enabled: false, has_spec: true }, ScriptTool { name: "t", enabled: true, has_spec: true }];
    let out = run(
        &tools,
        ToolUseBehavior::RunLlmAgain,
        None,
        "go",
        vec![calls_reply(vec![call("t", Some("c1"), "{}")]), text_reply("done")],
        None,
    );
    let res = out.result.unwrap();
    assert_eq!(res.text.as_deref(), Some("done"));
    assert_eq!(
        res.tool_outputs,
        vec![("t".to_string(), "t:go".to_string()), ("t".to_string(), "t({})".to_string())]
    );
    assert_eq!(out.model_calls, 2);
    // user, assistant(tool_calls), tool, assistant(text)
    assert_eq!(out.last_messages.len(), 4);
    match out.last_messages[2].get("role") {
        Some(JsonValue::Text(r)) => assert_eq!(r, "tool"),
        _ => panic!("tool message expected"),
    }
}

#[test]
fn unknown_tool_request_is_an_error() {
    let out = run(
        &echo_tools(),
        ToolUseBehavior::RunLlmAgain,
        None,
        "go",
        vec![calls_reply(vec![call("nope", None, "{}"), call("missing", None, "")])],
        None,
    );
    assert_eq!(out.result.unwrap_err(), "model requested unknown or disabled tools: nope, missing");
}

#[test]
fn disabled_tool_request_is_an_error() {
    let tools = vec![ScriptTool { name: "off", enabled: false, has_spec: false }];
    let out = run(&tools, ToolUseBehavior::RunLlmAgain, None, "go", vec![calls_reply(vec![call("off", None, "")])], None);
    assert_eq!(out.result.unwrap_err(), "model requested unknown or disabled tools: off");
}

#[test]
fn model_is_called_at_most_max_turns_plus_one() {
    let tools = vec![ScriptTool { name: "t", enabled: true, has_spec: false }];
    let mut replies = vec![];
    for _ in 0..MAX_TURNS {
        replies.push(calls_reply(vec![call("t", Some("id"), "a")]));
    }
    replies.push(calls_reply(vec![call("t", Some("id"), "ignored")]));
    let out = run(&tools, ToolUseBehavior::RunLlmAgain, None, "x", replies, None);
    assert_eq!(out.model_calls, MAX_TURNS + 1);
    let res = out.result.unwrap();
    assert!(res.text.is_none());
    assert_eq!(res.tool_outputs.len(), 1 + MAX_TURNS);
}

#[test]
fn finished_run_refuses_events() {
    let (mut m, _) = RunMachine::new(None, "x".to_string(), ToolUseBehavior::RunLlmAgain, vec![], vec![], false);
    assert!(matches!(m.phase(), RunPhase::AwaitModel { turn: 0 }));
    match m.step(RunEvent::ModelReply(text_reply("ok"))) {
        RunAction::Finish(r) => assert_eq!(r.text.as_deref(), Some("ok")),
        _ => panic!("expected finish"),
    }
    assert!(matches!(m.phase(), RunPhase::Finished));
    assert!(matches!(m.step(RunEvent::Enabled(true)), RunAction::Fail(AgentError::Other(_))));
}

#[test]
fn mismatched_event_fails() {
    let (mut m, _) = RunMachine::new(None, "x".to_string(), ToolUseBehavior::RunLlmAgain, vec!["t".to_string()], vec![true], false);
    assert!(matches!(m.step(RunEvent::ToolOutput("o".to_string())), RunAction::Fail(_)));
}

#[test]
fn tools_not_offered_when_disabled_for_llm() {
    let names = vec!["t".to_string()];
    let (mut m, a) = RunMachine::new(None, "x".to_string(), ToolUseBehavior::RunLlmAgain, names, vec![true], true);
    assert!(matches!(a, RunAction::CheckEnabled { tool: 0 }));
    let a = m.step(RunEvent::Enabled(false));
    assert!(matches!(a, RunAction::CheckEnabled { tool: 0 }));
    let a = m.step(RunEvent::Enabled(true));
    assert!(matches!(a, RunAction::CallModel { offer_tools: false }));
    assert_eq!(m.spec_tools(), &vec![0usize]);
}

#[test]
fn collect_tool_output_replaces_on_stop() {
    let mut results = vec![("a".to_string(), "1".to_string())];
    let stop = collect_tool_output(&ToolUseBehavior::RunLlmAgain, &mut results, "b".to_string(), "2".to_string());
    assert!(stop.is_none());
    assert_eq!(results.len(), 2);
    let stop = collect_tool_output(&ToolUseBehavior::StopOnFirstTool, &mut results, "c".to_string(), "3".to_string());
    assert_eq!(stop.as_deref(), Some("3"));
    assert_eq!(results, vec![("c".to_string(), "3".to_string())]);
}

#[test]
fn combine_input_formats_sections() {
    assert_eq!(combine_input("in", &vec![]), "in");
    let outs = vec![("a".to_string(), "x".to_string()), ("b".to_string(), "y".to_string())];
    assert_eq!(combine_input("in", &outs), "in\n\nTool a output:\nx\n\nTool b output:\ny");
}

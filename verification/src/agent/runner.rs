//! The runner's decisions. A run first offers the input to every enabled tool
//! of the registry (stopping early when the tool-use behavior says so), then
//! talks to the model for up to `MAX_TURNS` rounds of tool calls and a final
//! answer. The outside work (asking a tool whether it is enabled, calling a
//! tool, calling the model, asking a custom decider) is requested through
//! `RunAction`s; its outcome comes back as a `RunEvent`.

use vstd::prelude::*;
use crate::error::{AgentError, ErrorView};
use crate::json::{
    JsonValue, Json, values_view, text, text_owned, opt_text, object2, object3, object4,
    push_value, array, entries_lookup,
};
use crate::model::{ToolCall, ToolCallView, ModelResponse, ModelResponseView, calls_view,
    clone_opt_string};
use crate::results::{RunResult, RunResultView};
use crate::utils::text::{
    join_spec, join_strings, push_string, push_pair, index_from, find_first, contains_string,
};

verus! {

/// Rounds of tool calls the model may request before the final answer is asked for.
pub const MAX_TURNS: usize = 3;

/// How tool outputs gathered before the model is called are treated.
#[derive(Clone)]
pub enum ToolUseBehavior {
    /// Tool outputs are handed to the model, which runs again.
    RunLlmAgain,
    /// The output of the first enabled tool is the final output.
    StopOnFirstTool,
    /// The output of the first enabled tool named in the list is the final output.
    StopAtTools(Vec<String>),
    /// A caller-supplied decider looks at the tool outputs and may end the run.
    Custom,
}

pub enum BehaviorView {
    RunLlmAgain,
    StopOnFirstTool,
    StopAtTools(Seq<Seq<char>>),
    Custom,
}

impl View for ToolUseBehavior {
    type V = BehaviorView;

    open spec fn view(&self) -> BehaviorView {
        match self {
            ToolUseBehavior::RunLlmAgain => BehaviorView::RunLlmAgain,
            ToolUseBehavior::StopOnFirstTool => BehaviorView::StopOnFirstTool,
            ToolUseBehavior::StopAtTools(list) => BehaviorView::StopAtTools(list.deep_view()),
            ToolUseBehavior::Custom => BehaviorView::Custom,
        }
    }
}

/// Result of deciding whether tool outputs are final.
#[derive(Clone, Debug, Default)]
pub struct ToolsToFinalOutputResult {
    pub is_final_output: bool,
    pub final_output: Option<String>,
}

/// Orchestrates a single agent run.
pub struct Runner;

/// Where a run stands, and what outcome it waits for.
#[derive(Clone, Copy, Debug, PartialEq, Eq)]
pub enum RunPhase {
    /// Waiting to learn whether registry tool `tool` is enabled (tool pre-pass).
    Scan { tool: usize },
    /// Waiting for the output of registry tool `tool` on the input (tool pre-pass).
    ScanCall { tool: usize },
    /// Waiting for the custom decider.
    Deciding,
    /// Waiting to learn whether tool `tool`, which has a tool spec, is enabled.
    SpecScan { tool: usize },
    /// Waiting for the model's reply in round `turn` (`MAX_TURNS`: the final call).
    AwaitModel { turn: usize },
    /// Waiting to learn whether tool `tool`, requested by call `call`, is enabled.
    CheckCall { turn: usize, call: usize, tool: usize },
    /// Waiting for the output of tool `tool` for call `call`.
    RunCall { turn: usize, call: usize, tool: usize },
    /// The run has ended.
    Finished,
}

/// The outcome of a requested action.
pub enum RunEvent {
    Enabled(bool),
    ToolOutput(String),
    Decision(ToolsToFinalOutputResult),
    ModelReply(ModelResponse),
}

/// What the caller must do next.
pub enum RunAction {
    /// Ask registry tool `tool` whether it is enabled; answer with `Enabled`.
    CheckEnabled { tool: usize },
    /// Call registry tool `tool` on `input`; answer with `ToolOutput`.
    CallTool { tool: usize, input: String },
    /// Ask the custom decider about `tool_outputs()`; answer with `Decision`.
    Decide,
    /// Call the model with `instructions()`, `combined_input()`, `messages()`,
    /// the specs of `spec_tools()` when `offer_tools` holds, and
    /// `previous_response_id()`; answer with `ModelReply`.
    CallModel { offer_tools: bool },
    /// Call registry tool `tool` with the model's call id and arguments; answer with `ToolOutput`.
    CallToolWithContext { tool: usize, tool_call_id: Option<String>, arguments: String },
    /// The run ended with this result.
    Finish(RunResult),
    /// The run ended with this error.
    Fail(AgentError),
}

pub enum EventView {
    Enabled(bool),
    ToolOutput(Seq<char>),
    Decision { is_final_output: bool, final_output: Option<Seq<char>> },
    ModelReply(ModelResponseView),
}

pub enum ActionView {
    CheckEnabled { tool: usize },
    CallTool { tool: usize, input: Seq<char> },
    Decide,
    CallModel { offer_tools: bool },
    CallToolWithContext { tool: usize, tool_call_id: Option<Seq<char>>, arguments: Seq<char> },
    Finish(RunResultView),
    Fail(ErrorView),
}

impl View for RunEvent {
    type V = EventView;

    open spec fn view(&self) -> EventView {
        match self {
            RunEvent::Enabled(b) => EventView::Enabled(*b),
            RunEvent::ToolOutput(s) => EventView::ToolOutput(s@),
            RunEvent::Decision(d) => EventView::Decision {
                is_final_output: d.is_final_output,
                final_output: d.final_output.deep_view(),
            },
            RunEvent::ModelReply(r) => EventView::ModelReply(r@),
        }
    }
}

impl View for RunAction {
    type V = ActionView;

    open spec fn view(&self) -> ActionView {
        match self {
            RunAction::CheckEnabled { tool } => ActionView::CheckEnabled { tool: *tool },
            RunAction::CallTool { tool, input } => ActionView::CallTool { tool: *tool, input: input@ },
            RunAction::Decide => ActionView::Decide,
            RunAction::CallModel { offer_tools } => ActionView::CallModel { offer_tools: *offer_tools },
            RunAction::CallToolWithContext { tool, tool_call_id, arguments } =>
                ActionView::CallToolWithContext {
                    tool: *tool,
                    tool_call_id: tool_call_id.deep_view(),
                    arguments: arguments@,
                },
            RunAction::Finish(r) => ActionView::Finish(r@),
            RunAction::Fail(e) => ActionView::Fail(e@),
        }
    }
}

/// Mathematical view of a run in progress.
pub struct RunView {
    pub instructions: Option<Seq<char>>,
    pub input: Seq<char>,
    pub behavior: BehaviorView,
    pub tool_names: Seq<Seq<char>>,
    pub tool_has_spec: Seq<bool>,
    pub disable_tools_in_llm: bool,
    pub phase: RunPhase,
    /// Tool outputs gathered so far, in execution order.
    pub outputs: Seq<(Seq<char>, Seq<char>)>,
    pub combined_input: Seq<char>,
    pub messages: Seq<Json>,
    pub spec_tools: Seq<usize>,
    pub previous_response_id: Option<Seq<char>>,
    /// Tool calls of the model reply being executed.
    pub pending: Seq<ToolCallView>,
    pub missing: Seq<Seq<char>>,
    pub new_outputs: Seq<(Seq<char>, Seq<char>)>,
    pub executed: bool,
}

// ---------------------------------------------------------------------------
// The protocol, stated over views.
// ---------------------------------------------------------------------------

/// Whether a tool output named `name` ends the tool pre-pass.
pub open spec fn stops_on(b: BehaviorView, name: Seq<char>) -> bool {
    match b {
        BehaviorView::StopOnFirstTool => true,
        BehaviorView::StopAtTools(list) => list.contains(name),
        _ => false,
    }
}

/// The input followed by one "Tool <name> output:" section per tool output.
pub open spec fn combine_spec(input: Seq<char>, outs: Seq<(Seq<char>, Seq<char>)>) -> Seq<char>
    decreases outs.len(),
{
    if outs.len() == 0 {
        input
    } else {
        combine_spec(input, outs.drop_last()) + "\n\nTool "@ + outs.last().0 + " output:\n"@
            + outs.last().1
    }
}

pub open spec fn role_message(role: Seq<char>, content: Seq<char>) -> Json {
    Json::Object(seq![("role"@, Json::Text(role)), ("content"@, Json::Text(content))])
}

/// The opening chat: the system instructions when given, then the user input.
pub open spec fn initial_messages(instructions: Option<Seq<char>>, input: Seq<char>) -> Seq<Json> {
    match instructions {
        Some(s) => seq![role_message("system"@, s), role_message("user"@, input)],
        None => seq![role_message("user"@, input)],
    }
}

pub open spec fn opt_text_json(s: Option<Seq<char>>) -> Json {
    match s {
        Some(t) => Json::Text(t),
        None => Json::Null,
    }
}

pub open spec fn or_opt<A>(a: Option<A>, b: Option<A>) -> Option<A> {
    if a is Some {
        a
    } else {
        b
    }
}

pub open spec fn function_json(name: Seq<char>, arguments: Seq<char>) -> Json {
    Json::Object(seq![("name"@, Json::Text(name)), ("arguments"@, Json::Text(arguments))])
}

/// One entry of the `tool_calls` list of an assistant message.
pub open spec fn call_entry(tc: ToolCallView) -> Json {
    Json::Object(
        seq![
            ("id"@, opt_text_json(or_opt(tc.id, tc.call_id))),
            ("type"@, Json::Text("function"@)),
            ("function"@, function_json(tc.name, tc.arguments)),
            ("call_id"@, opt_text_json(tc.call_id)),
        ],
    )
}

pub open spec fn all_linked(calls: Seq<ToolCallView>) -> bool {
    forall|i: int| 0 <= i < calls.len() ==> (#[trigger] calls[i]).id is Some || calls[i].call_id is Some
}

/// The assistant message that records a model reply with tool calls: the
/// `tool_calls` schema when every call carries an id, else the legacy
/// `function_call` schema with the first call.
pub open spec fn assistant_calls_message(calls: Seq<ToolCallView>) -> Json {
    if all_linked(calls) {
        Json::Object(
            seq![
                ("role"@, Json::Text("assistant"@)),
                ("content"@, Json::Null),
                ("tool_calls"@, Json::Array(calls.map_values(|tc: ToolCallView| call_entry(tc)))),
            ],
        )
    } else {
        Json::Object(
            seq![
                ("role"@, Json::Text("assistant"@)),
                ("content"@, Json::Null),
                ("function_call"@, function_json(calls[0].name, calls[0].arguments)),
            ],
        )
    }
}

/// The message that hands a tool's output back to the model: a `tool` message
/// linked by call id when there is one, else a legacy `function` message.
pub open spec fn tool_result_message(tc: ToolCallView, out: Seq<char>) -> Json {
    match or_opt(tc.call_id, tc.id) {
        Some(link) => Json::Object(
            seq![
                ("role"@, Json::Text("tool"@)),
                ("tool_call_id"@, Json::Text(link)),
                ("content"@, Json::Text(out)),
            ],
        ),
        None => Json::Object(
            seq![
                ("role"@, Json::Text("function"@)),
                ("name"@, Json::Text(tc.name)),
                ("content"@, Json::Text(out)),
            ],
        ),
    }
}

pub open spec fn unknown_tools_message(missing: Seq<Seq<char>>) -> Seq<char> {
    "model requested unknown or disabled tools: "@ + join_spec(missing, ", "@)
}

pub open spec fn none_executed_message() -> Seq<char> {
    "model returned tool_calls but none could be executed"@
}

pub open spec fn unexpected_event_message() -> Seq<char> {
    "event does not match the state of the run"@
}

impl RunView {
    pub open spec fn offer_tools(self) -> bool {
        self.spec_tools.len() > 0 && !self.disable_tools_in_llm
    }

    pub open spec fn has_spec(self, i: int) -> bool {
        0 <= i < self.tool_has_spec.len() && self.tool_has_spec[i]
    }
}

pub open spec fn finished(v: RunView) -> RunView {
    RunView { phase: RunPhase::Finished, ..v }
}

pub open spec fn finish_with(
    v: RunView,
    id: Option<Seq<char>>,
    text: Option<Seq<char>>,
    outs: Seq<(Seq<char>, Seq<char>)>,
) -> (RunView, ActionView) {
    (finished(v), ActionView::Finish(RunResultView { id, text, tool_outputs: outs }))
}

pub open spec fn fail_with(v: RunView, msg: Seq<char>) -> (RunView, ActionView) {
    (finished(v), ActionView::Fail(ErrorView::Other(msg)))
}

pub open spec fn call_model(v: RunView, turn: usize) -> (RunView, ActionView) {
    (RunView { phase: RunPhase::AwaitModel { turn }, ..v }, ActionView::CallModel {
        offer_tools: v.offer_tools(),
    })
}

/// Looks for the next tool from `i` on that has a spec, or calls the model.
pub open spec fn spec_scan_from(v: RunView, i: int) -> (RunView, ActionView)
    decreases v.tool_names.len() - i,
{
    if i < 0 || i >= v.tool_names.len() {
        call_model(v, 0)
    } else if v.has_spec(i) {
        (RunView { phase: RunPhase::SpecScan { tool: i as usize }, ..v }, ActionView::CheckEnabled {
            tool: i as usize,
        })
    } else {
        spec_scan_from(v, i + 1)
    }
}

/// Leaves the tool pre-pass: builds the combined input and the opening chat.
pub open spec fn start_model(v: RunView) -> (RunView, ActionView) {
    spec_scan_from(
        RunView {
            combined_input: combine_spec(v.input, v.outputs),
            messages: initial_messages(v.instructions, v.input),
            spec_tools: Seq::empty(),
            previous_response_id: None,
            ..v
        },
        0,
    )
}

pub open spec fn after_collect(v: RunView) -> (RunView, ActionView) {
    if v.behavior is Custom {
        (RunView { phase: RunPhase::Deciding, ..v }, ActionView::Decide)
    } else {
        start_model(v)
    }
}

/// Offers the input to registry tool `i`, or leaves the tool pre-pass.
pub open spec fn scan_from(v: RunView, i: int) -> (RunView, ActionView) {
    if 0 <= i < v.tool_names.len() {
        (RunView { phase: RunPhase::Scan { tool: i as usize }, ..v }, ActionView::CheckEnabled {
            tool: i as usize,
        })
    } else {
        after_collect(v)
    }
}

/// Ends a round of tool calls: outputs are recorded, then the run fails on
/// missing tools or goes on with the next model call.
pub open spec fn finish_round(v: RunView, turn: usize) -> (RunView, ActionView) {
    let v1 = RunView { outputs: v.outputs + v.new_outputs, ..v };
    if v.missing.len() > 0 {
        fail_with(v1, unknown_tools_message(v.missing))
    } else if !v.executed {
        fail_with(v1, none_executed_message())
    } else {
        call_model(v1, (turn + 1) as usize)
    }
}

/// Goes on with tool call `c` of the pending calls.
pub open spec fn calls_from(v: RunView, turn: usize, c: int) -> (RunView, ActionView)
    decreases v.pending.len() - c,
{
    if c < 0 || c >= v.pending.len() {
        finish_round(v, turn)
    } else {
        match index_from(v.tool_names, v.pending[c].name, 0) {
            None => calls_from(
                RunView { missing: v.missing.push(v.pending[c].name), ..v },
                turn,
                c + 1,
            ),
            Some(j) => (
                RunView {
                    phase: RunPhase::CheckCall { turn, call: c as usize, tool: j as usize },
                    ..v
                },
                ActionView::CheckEnabled { tool: j as usize },
            ),
        }
    }
}

/// The reaction to a model reply received in round `turn`.
pub open spec fn on_model_reply(v: RunView, turn: usize, r: ModelResponseView) -> (
    RunView,
    ActionView,
) {
    if turn >= MAX_TURNS {
        finish_with(v, r.id, r.text, v.outputs)
    } else {
        let v1 = RunView {
            previous_response_id: if r.id is Some {
                r.id
            } else {
                v.previous_response_id
            },
            ..v
        };
        if r.tool_calls.len() == 0 {
            let v2 = RunView {
                messages: match r.text {
                    Some(t) => v1.messages.push(role_message("assistant"@, t)),
                    None => v1.messages,
                },
                ..v1
            };
            finish_with(v2, r.id, r.text, v.outputs)
        } else {
            calls_from(
                RunView {
                    messages: v1.messages.push(assistant_calls_message(r.tool_calls)),
                    pending: r.tool_calls,
                    missing: Seq::empty(),
                    new_outputs: Seq::empty(),
                    executed: false,
                    ..v1
                },
                turn,
                0,
            )
        }
    }
}

/// The state a run starts from, before the first tool is looked at.
pub open spec fn init_view(
    instructions: Option<Seq<char>>,
    input: Seq<char>,
    behavior: BehaviorView,
    tool_names: Seq<Seq<char>>,
    tool_has_spec: Seq<bool>,
    disable_tools_in_llm: bool,
) -> RunView {
    RunView {
        instructions,
        input,
        behavior,
        tool_names,
        tool_has_spec,
        disable_tools_in_llm,
        phase: RunPhase::Finished,
        outputs: Seq::empty(),
        combined_input: Seq::empty(),
        messages: Seq::empty(),
        spec_tools: Seq::empty(),
        previous_response_id: None,
        pending: Seq::empty(),
        missing: Seq::empty(),
        new_outputs: Seq::empty(),
        executed: false,
    }
}

/// One step of the protocol: the next state and action after event `e`.
pub open spec fn step_spec(v: RunView, e: EventView) -> (RunView, ActionView) {
    match (v.phase, e) {
        (RunPhase::Scan { tool: i }, EventView::Enabled(b)) => {
            if i >= v.tool_names.len() {
                fail_with(v, unexpected_event_message())
            } else if b {
                (RunView { phase: RunPhase::ScanCall { tool: i }, ..v }, ActionView::CallTool {
                    tool: i,
                    input: v.input,
                })
            } else {
                scan_from(v, i + 1)
            }
        },
        (RunPhase::ScanCall { tool: i }, EventView::ToolOutput(out)) => {
            if i >= v.tool_names.len() {
                fail_with(v, unexpected_event_message())
            } else if stops_on(v.behavior, v.tool_names[i as int]) {
                let outs = seq![(v.tool_names[i as int], out)];
                finish_with(RunView { outputs: outs, ..v }, None, Some(out), outs)
            } else {
                scan_from(
                    RunView { outputs: v.outputs.push((v.tool_names[i as int], out)), ..v },
                    i + 1,
                )
            }
        },
        (RunPhase::Deciding, EventView::Decision { is_final_output, final_output }) => {
            if is_final_output {
                finish_with(v, None, final_output, Seq::empty())
            } else {
                start_model(v)
            }
        },
        (RunPhase::SpecScan { tool: i }, EventView::Enabled(b)) => {
            if i >= v.tool_names.len() {
                fail_with(v, unexpected_event_message())
            } else {
                spec_scan_from(
                    RunView {
                        spec_tools: if b {
                            v.spec_tools.push(i)
                        } else {
                            v.spec_tools
                        },
                        ..v
                    },
                    i + 1,
                )
            }
        },
        (RunPhase::AwaitModel { turn }, EventView::ModelReply(r)) => {
            if turn > MAX_TURNS {
                fail_with(v, unexpected_event_message())
            } else {
                on_model_reply(v, turn, r)
            }
        },
        (RunPhase::CheckCall { turn, call, tool }, EventView::Enabled(b)) => {
            if call >= v.pending.len() || tool >= v.tool_names.len() || turn >= MAX_TURNS {
                fail_with(v, unexpected_event_message())
            } else if b {
                (RunView { phase: RunPhase::RunCall { turn, call, tool }, ..v },
                ActionView::CallToolWithContext {
                    tool,
                    tool_call_id: v.pending[call as int].id,
                    arguments: v.pending[call as int].arguments,
                })
            } else {
                calls_from(
                    RunView { missing: v.missing.push(v.pending[call as int].name), ..v },
                    turn,
                    call + 1,
                )
            }
        },
        (RunPhase::RunCall { turn, call, tool }, EventView::ToolOutput(out)) => {
            if call >= v.pending.len() || tool >= v.tool_names.len() || turn >= MAX_TURNS {
                fail_with(v, unexpected_event_message())
            } else {
                let tc = v.pending[call as int];
                calls_from(
                    RunView {
                        messages: v.messages.push(tool_result_message(tc, out)),
                        new_outputs: v.new_outputs.push((tc.name, out)),
                        executed: true,
                        ..v
                    },
                    turn,
                    call + 1,
                )
            }
        },
        _ => fail_with(v, unexpected_event_message()),
    }
}

// ---------------------------------------------------------------------------
// The tool pre-pass decision, shared with callers that collect tool outputs.
// ---------------------------------------------------------------------------

/// Records the output `out` of tool `name` in `results`. When the behavior stops
/// on this tool, `results` becomes this single output and the output is
/// returned as the final one; otherwise it is appended and `None` is returned.
pub fn collect_tool_output(
    behavior: &ToolUseBehavior,
    results: &mut Vec<(String, String)>,
    name: String,
    out: String,
) -> (stop: Option<String>)
    ensures
        stops_on(behavior@, name@) ==> stop.deep_view() == Some(out@)
            && final(results).deep_view() == seq![(name@, out@)],
        !stops_on(behavior@, name@) ==> stop is None
            && final(results).deep_view() == old(results).deep_view().push((name@, out@)),
{
    if stops_here(behavior, name.as_str()) {
        let mut single: Vec<(String, String)> = Vec::new();
        let kept = out.clone();
        push_pair(&mut single, name, kept);
        proof {
            assert(single.deep_view() =~= seq![(name@, out@)]);
        }
        *results = single;
        Some(out)
    } else {
        push_pair(results, name, out);
        None
    }
}

/// Whether the behavior ends the tool pre-pass on a tool named `name`.
pub fn stops_here(behavior: &ToolUseBehavior, name: &str) -> (r: bool)
    ensures
        r == stops_on(behavior@, name@),
{
    match behavior {
        ToolUseBehavior::StopOnFirstTool => true,
        ToolUseBehavior::StopAtTools(list) => contains_string(list, name),
        _ => false,
    }
}

/// The input followed by one section per tool output.
pub fn combine_input(input: &str, outs: &Vec<(String, String)>) -> (r: String)
    ensures
        r@ == combine_spec(input@, outs.deep_view()),
{
    let mut agg = String::from_str(input);
    let mut i: usize = 0;
    while i < outs.len()
        invariant
            i <= outs@.len(),
            agg@ == combine_spec(input@, outs.deep_view().take(i as int)),
        decreases outs@.len() - i,
    {
        let ghost prev = outs.deep_view().take(i as int);
        let ghost next = outs.deep_view().take(i + 1);
        assert(next.drop_last() =~= prev);
        assert(next.last() == outs.deep_view()[i as int]);
        agg.append("\n\nTool ");
        agg.append(outs[i].0.as_str());
        agg.append(" output:\n");
        agg.append(outs[i].1.as_str());
        i = i + 1;
    }
    assert(outs.deep_view().take(outs@.len() as int) =~= outs.deep_view());
    agg
}

/// A `{"role": role, "content": content}` message.
pub fn role_message_json(role: &str, content: String) -> (r: JsonValue)
    ensures
        r@ == role_message(role@, content@),
{
    object2("role", text(role), "content", text_owned(content))
}

fn function_value(name: String, arguments: String) -> (r: JsonValue)
    ensures
        r@ == function_json(name@, arguments@),
{
    object2("name", text_owned(name), "arguments", text_owned(arguments))
}

fn or_string(a: &Option<String>, b: &Option<String>) -> (r: Option<String>)
    ensures
        r.deep_view() == or_opt(a.deep_view(), b.deep_view()),
{
    if a.is_some() {
        clone_opt_string(a)
    } else {
        clone_opt_string(b)
    }
}

fn call_entry_json(tc: &ToolCall) -> (r: JsonValue)
    ensures
        r@ == call_entry(tc@),
{
    object4(
        "id",
        opt_text(or_string(&tc.id, &tc.call_id)),
        "type",
        text("function"),
        "function",
        function_value(tc.name.clone(), tc.arguments.clone()),
        "call_id",
        opt_text(clone_opt_string(&tc.call_id)),
    )
}

/// The assistant message recording a model reply with tool calls.
pub fn assistant_calls_json(calls: &Vec<ToolCall>) -> (r: JsonValue)
    requires
        calls@.len() > 0,
    ensures
        r@ == assistant_calls_message(calls_view(calls@)),
{
    let ghost cv = calls_view(calls@);
    let mut linked = true;
    let mut i: usize = 0;
    while i < calls.len()
        invariant
            i <= calls@.len(),
            cv == calls_view(calls@),
            linked == (forall|k: int| 0 <= k < i ==> (#[trigger] cv[k]).id is Some || cv[k].call_id is Some),
        decreases calls@.len() - i,
    {
        let ok = calls[i].id.is_some() || calls[i].call_id.is_some();
        proof {
            assert(cv[i as int] == calls@[i as int]@);
            if !ok {
                assert(!(cv[i as int].id is Some || cv[i as int].call_id is Some));
            }
        }
        linked = linked && ok;
        i = i + 1;
    }
    if linked {
        let mut entries: Vec<JsonValue> = Vec::new();
        let mut k: usize = 0;
        while k < calls.len()
            invariant
                k <= calls@.len(),
                cv == calls_view(calls@),
                values_view(entries@) == cv.take(k as int).map_values(|tc: ToolCallView| call_entry(tc)),
            decreases calls@.len() - k,
        {
            let e = call_entry_json(&calls[k]);
            push_value(&mut entries, e);
            proof {
                assert(cv[k as int] == calls@[k as int]@);
                assert(cv.take(k + 1).map_values(|tc: ToolCallView| call_entry(tc)) =~= cv.take(
                    k as int,
                ).map_values(|tc: ToolCallView| call_entry(tc)).push(call_entry(cv[k as int])));
            }
            k = k + 1;
        }
        proof {
            assert(cv.take(calls@.len() as int) =~= cv);
        }
        object3("role", text("assistant"), "content", JsonValue::Null, "tool_calls", array(entries))
    } else {
        proof {
            assert(cv[0] == calls@[0]@);
        }
        object3(
            "role",
            text("assistant"),
            "content",
            JsonValue::Null,
            "function_call",
            function_value(calls[0].name.clone(), calls[0].arguments.clone()),
        )
    }
}

/// The message handing the output of a tool call back to the model.
pub fn tool_result_json(tc: &ToolCall, out: String) -> (r: JsonValue)
    ensures
        r@ == tool_result_message(tc@, out@),
{
    match or_string(&tc.call_id, &tc.id) {
        Some(link) => object3(
            "role",
            text("tool"),
            "tool_call_id",
            text_owned(link),
            "content",
            text_owned(out),
        ),
        None => object3(
            "role",
            text("function"),
            "name",
            text_owned(tc.name.clone()),
            "content",
            text_owned(out),
        ),
    }
}

// ---------------------------------------------------------------------------
// The run state machine.
// ---------------------------------------------------------------------------

/// A run in progress: the state of `Runner::run_agent_with_model` between two
/// pieces of outside work.
pub struct RunMachine {
    instructions: Option<String>,
    input: String,
    behavior: ToolUseBehavior,
    tool_names: Vec<String>,
    tool_has_spec: Vec<bool>,
    disable_tools_in_llm: bool,
    phase: RunPhase,
    outputs: Vec<(String, String)>,
    combined_input: String,
    messages: Vec<JsonValue>,
    spec_tools: Vec<usize>,
    previous_response_id: Option<String>,
    pending: Vec<ToolCall>,
    missing: Vec<String>,
    new_outputs: Vec<(String, String)>,
    executed: bool,
}

impl View for RunMachine {
    type V = RunView;

    closed spec fn view(&self) -> RunView {
        RunView {
            instructions: self.instructions.deep_view(),
            input: self.input@,
            behavior: self.behavior@,
            tool_names: self.tool_names.deep_view(),
            tool_has_spec: self.tool_has_spec@,
            disable_tools_in_llm: self.disable_tools_in_llm,
            phase: self.phase,
            outputs: self.outputs.deep_view(),
            combined_input: self.combined_input@,
            messages: values_view(self.messages@),
            spec_tools: self.spec_tools@,
            previous_response_id: self.previous_response_id.deep_view(),
            pending: calls_view(self.pending@),
            missing: self.missing.deep_view(),
            new_outputs: self.new_outputs.deep_view(),
            executed: self.executed,
        }
    }
}

fn clone_pairs(v: &Vec<(String, String)>) -> (r: Vec<(String, String)>)
    ensures
        r.deep_view() == v.deep_view(),
{
    let mut out: Vec<(String, String)> = Vec::new();
    let mut i: usize = 0;
    while i < v.len()
        invariant
            i <= v@.len(),
            out.deep_view() == v.deep_view().take(i as int),
        decreases v@.len() - i,
    {
        push_pair(&mut out, v[i].0.clone(), v[i].1.clone());
        proof {
            assert(v.deep_view().take(i + 1) =~= v.deep_view().take(i as int).push(
                (v@[i as int].0@, v@[i as int].1@),
            ));
        }
        i = i + 1;
    }
    assert(v.deep_view().take(v@.len() as int) =~= v.deep_view());
    out
}

fn result_of(id: Option<String>, text: Option<String>, outs: Vec<(String, String)>) -> (r: RunAction)
    ensures
        r@ == ActionView::Finish(
            RunResultView { id: id.deep_view(), text: text.deep_view(), tool_outputs: outs.deep_view() },
        ),
{
    RunAction::Finish(RunResult { id, text, tool_outputs: outs })
}

impl RunMachine {
    /// Starts a run of `input` with the given instructions and behavior. The tools
    /// are those of the registry, by name and by whether they offer a tool spec,
    /// in registry order; `disable_tools_in_llm` keeps the specs from the model.
    pub fn new(
        instructions: Option<String>,
        input: String,
        behavior: ToolUseBehavior,
        tool_names: Vec<String>,
        tool_has_spec: Vec<bool>,
        disable_tools_in_llm: bool,
    ) -> (r: (RunMachine, RunAction))
        ensures
            (r.0@, r.1@) == scan_from(
                init_view(
                    instructions.deep_view(),
                    input@,
                    behavior@,
                    tool_names.deep_view(),
                    tool_has_spec@,
                    disable_tools_in_llm,
                ),
                0,
            ),
    {
        let mut m = RunMachine {
            instructions,
            input,
            behavior,
            tool_names,
            tool_has_spec,
            disable_tools_in_llm,
            phase: RunPhase::Finished,
            outputs: Vec::new(),
            combined_input: String::new(),
            messages: Vec::new(),
            spec_tools: Vec::new(),
            previous_response_id: None,
            pending: Vec::new(),
            missing: Vec::new(),
            new_outputs: Vec::new(),
            executed: false,
        };
        proof {
            assert(m.outputs.deep_view() =~= Seq::<(Seq<char>, Seq<char>)>::empty());
            assert(values_view(m.messages@) =~= Seq::<Json>::empty());
            assert(m.spec_tools@ =~= Seq::<usize>::empty());
            assert(calls_view(m.pending@) =~= Seq::<ToolCallView>::empty());
            assert(m.missing.deep_view() =~= Seq::<Seq<char>>::empty());
            assert(m.new_outputs.deep_view() =~= Seq::<(Seq<char>, Seq<char>)>::empty());
        }
        let a = m.scan_from(0);
        (m, a)
    }

    /// The phase of the run.
    pub fn phase(&self) -> (r: RunPhase)
        ensures
            r == self@.phase,
    {
        self.phase
    }

    /// The system instructions of the run.
    pub fn instructions(&self) -> (r: &Option<String>)
        ensures
            r.deep_view() == self@.instructions,
    {
        &self.instructions
    }

    /// The input followed by the outputs of the tool pre-pass.
    pub fn combined_input(&self) -> (r: &String)
        ensures
            r@ == self@.combined_input,
    {
        &self.combined_input
    }

    /// The chat messages to send to the model.
    pub fn messages(&self) -> (r: &Vec<JsonValue>)
        ensures
            values_view(r@) == self@.messages,
    {
        &self.messages
    }

    /// Registry indices of the enabled tools whose specs are offered to the model.
    pub fn spec_tools(&self) -> (r: &Vec<usize>)
        ensures
            r@ == self@.spec_tools,
    {
        &self.spec_tools
    }

    /// The id of the latest model response that carried one.
    pub fn previous_response_id(&self) -> (r: &Option<String>)
        ensures
            r.deep_view() == self@.previous_response_id,
    {
        &self.previous_response_id
    }

    /// The tool outputs gathered so far.
    pub fn tool_outputs(&self) -> (r: &Vec<(String, String)>)
        ensures
            r.deep_view() == self@.outputs,
    {
        &self.outputs
    }

    fn finish(&mut self, id: Option<String>, text: Option<String>, outs: Vec<(String, String)>) -> (r:
        RunAction)
        ensures
            (final(self)@, r@) == finish_with(old(self)@, id.deep_view(), text.deep_view(), outs.deep_view()),
    {
        self.phase = RunPhase::Finished;
        result_of(id, text, outs)
    }

    fn fail(&mut self, msg: &str) -> (r: RunAction)
        ensures
            (final(self)@, r@) == fail_with(old(self)@, msg@),
    {
        self.phase = RunPhase::Finished;
        RunAction::Fail(AgentError::Other(String::from_str(msg)))
    }

    fn call_model(&mut self, turn: usize) -> (r: RunAction)
        ensures
            (final(self)@, r@) == call_model(old(self)@, turn),
    {
        self.phase = RunPhase::AwaitModel { turn };
        RunAction::CallModel { offer_tools: self.spec_tools.len() > 0 && !self.disable_tools_in_llm }
    }

    fn spec_scan_from(&mut self, start: usize) -> (r: RunAction)
        ensures
            (final(self)@, r@) == spec_scan_from(old(self)@, start as int),
    {
        let mut i = start;
        while i < self.tool_names.len()
            invariant
                self@ == old(self)@,
                spec_scan_from(self@, i as int) == spec_scan_from(old(self)@, start as int),
            decreases self.tool_names@.len() - i,
        {
            assert(self@.tool_names.len() == self.tool_names@.len());
            if i < self.tool_has_spec.len() && self.tool_has_spec[i] {
                self.phase = RunPhase::SpecScan { tool: i };
                return RunAction::CheckEnabled { tool: i };
            }
            i = i + 1;
        }
        self.call_model(0)
    }

    fn start_model(&mut self) -> (r: RunAction)
        ensures
            (final(self)@, r@) == start_model(old(self)@),
    {
        self.combined_input = combine_input(self.input.as_str(), &self.outputs);
        let mut msgs: Vec<JsonValue> = Vec::new();
        match &self.instructions {
            Some(sys) => {
                push_value(&mut msgs, role_message_json("system", sys.clone()));
            },
            None => {},
        }
        push_value(&mut msgs, role_message_json("user", self.input.clone()));
        proof {
            assert(values_view(msgs@) =~= initial_messages(self@.instructions, self@.input));
        }
        self.messages = msgs;
        self.spec_tools = Vec::new();
        self.previous_response_id = None;
        proof {
            assert(self.spec_tools@ =~= Seq::<usize>::empty());
        }
        self.spec_scan_from(0)
    }

    fn after_collect(&mut self) -> (r: RunAction)
        ensures
            (final(self)@, r@) == after_collect(old(self)@),
    {
        match self.behavior {
            ToolUseBehavior::Custom => {
                self.phase = RunPhase::Deciding;
                RunAction::Decide
            },
            _ => self.start_model(),
        }
    }

    fn scan_from(&mut self, i: usize) -> (r: RunAction)
        ensures
            (final(self)@, r@) == scan_from(old(self)@, i as int),
    {
        if i < self.tool_names.len() {
            self.phase = RunPhase::Scan { tool: i };
            RunAction::CheckEnabled { tool: i }
        } else {
            self.after_collect()
        }
    }

    fn finish_round(&mut self, turn: usize) -> (r: RunAction)
        requires
            turn < MAX_TURNS,
        ensures
            (final(self)@, r@) == finish_round(old(self)@, turn),
    {
        let ghost before = self.outputs.deep_view();
        let mut k: usize = 0;
        while k < self.new_outputs.len()
            invariant
                k <= self.new_outputs@.len(),
                self@ == (RunView { outputs: self@.outputs, ..old(self)@ }),
                self.outputs.deep_view() == before + self.new_outputs.deep_view().take(k as int),
                before == old(self)@.outputs,
            decreases self.new_outputs@.len() - k,
        {
            let a = self.new_outputs[k].0.clone();
            let b = self.new_outputs[k].1.clone();
            push_pair(&mut self.outputs, a, b);
            proof {
                assert(self.new_outputs.deep_view().take(k + 1) =~= self.new_outputs.deep_view().take(k as int).push(
                    (self.new_outputs@[k as int].0@, self.new_outputs@[k as int].1@),
                ));
            }
            k = k + 1;
        }
        proof {
            assert(self.new_outputs.deep_view().take(self.new_outputs@.len() as int) =~= self.new_outputs.deep_view());
        }
        if self.missing.len() > 0 {
            let msg = join_strings(&self.missing, ", ");
            let mut full = String::from_str("model requested unknown or disabled tools: ");
            full.append(msg.as_str());
            self.phase = RunPhase::Finished;
            RunAction::Fail(AgentError::Other(full))
        } else if !self.executed {
            self.fail("model returned tool_calls but none could be executed")
        } else {
            self.call_model(turn + 1)
        }
    }

    fn calls_from(&mut self, turn: usize, start: usize) -> (r: RunAction)
        requires
            turn < MAX_TURNS,
        ensures
            (final(self)@, r@) == calls_from(old(self)@, turn, start as int),
    {
        let mut c = start;
        while c < self.pending.len()
            invariant
                turn < MAX_TURNS,
                calls_from(self@, turn, c as int) == calls_from(old(self)@, turn, start as int),
            decreases self.pending@.len() - c,
        {
            assert(self@.pending[c as int] == self.pending@[c as int]@);
            match find_first(&self.tool_names, self.pending[c].name.as_str()) {
                Some(j) => {
                    self.phase = RunPhase::CheckCall { turn, call: c, tool: j };
                    return RunAction::CheckEnabled { tool: j };
                },
                None => {
                    let name = self.pending[c].name.clone();
                    push_string(&mut self.missing, name);
                },
            }
            c = c + 1;
        }
        self.finish_round(turn)
    }

    fn on_model_reply(&mut self, turn: usize, resp: ModelResponse) -> (r: RunAction)
        requires
            turn <= MAX_TURNS,
        ensures
            (final(self)@, r@) == on_model_reply(old(self)@, turn, resp@),
    {
        if turn >= MAX_TURNS {
            let outs = clone_pairs(&self.outputs);
            return self.finish(resp.id, resp.text, outs);
        }
        if resp.id.is_some() {
            self.previous_response_id = clone_opt_string(&resp.id);
        }
        if resp.tool_calls.len() == 0 {
            match &resp.text {
                Some(t) => {
                    push_value(&mut self.messages, role_message_json("assistant", t.clone()));
                },
                None => {},
            }
            let outs = clone_pairs(&self.outputs);
            proof {
                assert(calls_view(resp.tool_calls@).len() == 0);
            }
            return self.finish(resp.id, resp.text, outs);
        }
        let msg = assistant_calls_json(&resp.tool_calls);
        push_value(&mut self.messages, msg);
        self.pending = resp.tool_calls;
        self.missing = Vec::new();
        self.new_outputs = Vec::new();
        self.executed = false;
        proof {
            assert(self.missing.deep_view() =~= Seq::<Seq<char>>::empty());
            assert(self.new_outputs.deep_view() =~= Seq::<(Seq<char>, Seq<char>)>::empty());
        }
        self.calls_from(turn, 0)
    }

    /// Advances the run by one event and returns the next action.
    pub fn step(&mut self, event: RunEvent) -> (r: RunAction)
        ensures
            (final(self)@, r@) == step_spec(old(self)@, event@),
    {
        match (self.phase, event) {
            (RunPhase::Scan { tool: i }, RunEvent::Enabled(b)) => {
                if i >= self.tool_names.len() {
                    self.fail("event does not match the state of the run")
                } else if b {
                    self.phase = RunPhase::ScanCall { tool: i };
                    RunAction::CallTool { tool: i, input: self.input.clone() }
                } else {
                    self.scan_from(i + 1)
                }
            },
            (RunPhase::ScanCall { tool: i }, RunEvent::ToolOutput(out)) => {
                if i >= self.tool_names.len() {
                    self.fail("event does not match the state of the run")
                } else {
                    let name = self.tool_names[i].clone();
                    match collect_tool_output(&self.behavior, &mut self.outputs, name, out) {
                        Some(fin) => {
                            let outs = clone_pairs(&self.outputs);
                            self.finish(None, Some(fin), outs)
                        },
                        None => self.scan_from(i + 1),
                    }
                }
            },
            (RunPhase::Deciding, RunEvent::Decision(d)) => {
                if d.is_final_output {
                    let none: Vec<(String, String)> = Vec::new();
                    proof {
                        assert(none.deep_view() =~= Seq::<(Seq<char>, Seq<char>)>::empty());
                    }
                    self.finish(None, d.final_output, none)
                } else {
                    self.start_model()
                }
            },
            (RunPhase::SpecScan { tool: i }, RunEvent::Enabled(b)) => {
                if i >= self.tool_names.len() {
                    self.fail("event does not match the state of the run")
                } else {
                    if b {
                        self.spec_tools.push(i);
                    }
                    self.spec_scan_from(i + 1)
                }
            },
            (RunPhase::AwaitModel { turn }, RunEvent::ModelReply(resp)) => {
                if turn > MAX_TURNS {
                    self.fail("event does not match the state of the run")
                } else {
                    self.on_model_reply(turn, resp)
                }
            },
            (RunPhase::CheckCall { turn, call, tool }, RunEvent::Enabled(b)) => {
                if call >= self.pending.len() || tool >= self.tool_names.len() || turn >= MAX_TURNS {
                    self.fail("event does not match the state of the run")
                } else if b {
                    self.phase = RunPhase::RunCall { turn, call, tool };
                    RunAction::CallToolWithContext {
                        tool,
                        tool_call_id: clone_opt_string(&self.pending[call].id),
                        arguments: self.pending[call].arguments.clone(),
                    }
                } else {
                    let name = self.pending[call].name.clone();
                    push_string(&mut self.missing, name);
                    self.calls_from(turn, call + 1)
                }
            },
            (RunPhase::RunCall { turn, call, tool }, RunEvent::ToolOutput(out)) => {
                if call >= self.pending.len() || tool >= self.tool_names.len() || turn >= MAX_TURNS {
                    self.fail("event does not match the state of the run")
                } else {
                    let msg = tool_result_json(&self.pending[call], out.clone());
                    push_value(&mut self.messages, msg);
                    let name = self.pending[call].name.clone();
                    push_pair(&mut self.new_outputs, name, out);
                    self.executed = true;
                    self.calls_from(turn, call + 1)
                }
            },
            _ => self.fail("event does not match the state of the run"),
        }
    }
}

} // verus!

verus! {

// ---------------------------------------------------------------------------
// Laws of the run protocol.
// ---------------------------------------------------------------------------

/// Number of model calls a run has asked for once it is in phase `p`.
pub open spec fn model_calls(p: RunPhase) -> int {
    match p {
        RunPhase::AwaitModel { turn } => turn + 1,
        RunPhase::CheckCall { turn, .. } => turn + 1,
        RunPhase::RunCall { turn, .. } => turn + 1,
        _ => 0,
    }
}

/// The round counters of a run are in range.
pub open spec fn turns_in_range(p: RunPhase) -> bool {
    match p {
        RunPhase::AwaitModel { turn } => turn <= MAX_TURNS,
        RunPhase::CheckCall { turn, .. } => turn < MAX_TURNS,
        RunPhase::RunCall { turn, .. } => turn < MAX_TURNS,
        _ => true,
    }
}

pub open spec fn before_model(p: RunPhase) -> bool {
    p is Scan || p is ScanCall || p is Deciding || p is SpecScan
}

/// How a step may move the model-call count: a `CallModel` action adds one
/// call, every other step that does not end the run keeps the count.
pub open spec fn counts_calls(old_phase: RunPhase, new_phase: RunPhase, a: ActionView) -> bool {
    &&& turns_in_range(new_phase)
    &&& a is CallModel ==> new_phase is AwaitModel && model_calls(new_phase) == model_calls(old_phase) + 1
    &&& !(a is CallModel) && !(new_phase is Finished) ==> model_calls(new_phase) == model_calls(old_phase)
    &&& (a is Finish || a is Fail) <==> new_phase is Finished
}

proof fn lemma_spec_scan_from(v: RunView, i: int)
    requires
        before_model(v.phase) || v.phase is Finished,
    ensures
        ({
            let (w, a) = spec_scan_from(v, i);
            &&& (w.phase is SpecScan && a is CheckEnabled) || (w.phase == RunPhase::AwaitModel { turn: 0 } && a is CallModel)
            &&& w.outputs == v.outputs
        }),
    decreases v.tool_names.len() - i,
{
    if !(i < 0 || i >= v.tool_names.len()) && !v.has_spec(i) {
        lemma_spec_scan_from(v, i + 1);
    }
}

proof fn lemma_scan_from(v: RunView, i: int)
    requires
        before_model(v.phase) || v.phase is Finished,
    ensures
        ({
            let (w, a) = scan_from(v, i);
            ||| (w.phase is Scan && a is CheckEnabled)
            ||| (w.phase is Deciding && a is Decide)
            ||| (w.phase is SpecScan && a is CheckEnabled)
            ||| (w.phase == RunPhase::AwaitModel { turn: 0 } && a is CallModel)
        }),
{
    if !(0 <= i < v.tool_names.len()) && !(v.behavior is Custom) {
        let v1 = RunView {
            combined_input: combine_spec(v.input, v.outputs),
            messages: initial_messages(v.instructions, v.input),
            spec_tools: Seq::empty(),
            previous_response_id: None,
            ..v
        };
        lemma_spec_scan_from(v1, 0);
    }
}

proof fn lemma_calls_from(v: RunView, turn: usize, c: int)
    requires
        turn < MAX_TURNS,
    ensures
        ({
            let (w, a) = calls_from(v, turn, c);
            &&& (w.phase is CheckCall && w.phase->CheckCall_turn == turn && a is CheckEnabled)
                || (w.phase is Finished && a is Fail)
                || (w.phase == RunPhase::AwaitModel { turn: (turn + 1) as usize } && a is CallModel)
            &&& v.outputs.is_prefix_of(w.outputs)
            &&& (a is Fail || a is CallModel) ==> w.outputs == v.outputs + v.new_outputs
        }),
    decreases v.pending.len() - c,
{
    if c < 0 || c >= v.pending.len() {
        assert(v.outputs.is_prefix_of(v.outputs + v.new_outputs));
    } else {
        match index_from(v.tool_names, v.pending[c].name, 0) {
            None => {
                lemma_calls_from(RunView { missing: v.missing.push(v.pending[c].name), ..v }, turn, c + 1);
            },
            Some(j) => {
                assert(v.outputs.is_prefix_of(v.outputs));
            },
        }
    }
}

/// Every step keeps the round counters in range and counts model calls: a
/// `CallModel` action raises the count by one, no other step changes it until
/// the run ends, and the count never exceeds `MAX_TURNS + 1`. So a run calls the
/// model at most `MAX_TURNS + 1` times.
pub proof fn law_model_calls_bounded(v: RunView, e: EventView)
    requires
        turns_in_range(v.phase),
    ensures
        counts_calls(v.phase, step_spec(v, e).0.phase, step_spec(v, e).1),
        model_calls(step_spec(v, e).0.phase) <= MAX_TURNS + 1,
{
    match (v.phase, e) {
        (RunPhase::Scan { tool: i }, EventView::Enabled(b)) => {
            if i < v.tool_names.len() && !b {
                lemma_scan_from(v, i + 1);
            }
        },
        (RunPhase::ScanCall { tool: i }, EventView::ToolOutput(out)) => {
            if i < v.tool_names.len() && !stops_on(v.behavior, v.tool_names[i as int]) {
                lemma_scan_from(RunView { outputs: v.outputs.push((v.tool_names[i as int], out)), ..v }, i + 1);
            }
        },
        (RunPhase::Deciding, EventView::Decision { is_final_output, final_output }) => {
            if !is_final_output {
                let v1 = RunView {
                    combined_input: combine_spec(v.input, v.outputs),
                    messages: initial_messages(v.instructions, v.input),
                    spec_tools: Seq::empty(),
                    previous_response_id: None,
                    ..v
                };
                lemma_spec_scan_from(v1, 0);
            }
        },
        (RunPhase::SpecScan { tool: i }, EventView::Enabled(b)) => {
            if i < v.tool_names.len() {
                let v1 = RunView { spec_tools: if b { v.spec_tools.push(i) } else { v.spec_tools }, ..v };
                lemma_spec_scan_from(v1, i + 1);
            }
        },
        (RunPhase::AwaitModel { turn }, EventView::ModelReply(r)) => {
            if turn < MAX_TURNS && r.tool_calls.len() > 0 {
                let v1 = RunView {
                    previous_response_id: if r.id is Some { r.id } else { v.previous_response_id },
                    ..v
                };
                lemma_calls_from(
                    RunView {
                        messages: v1.messages.push(assistant_calls_message(r.tool_calls)),
                        pending: r.tool_calls,
                        missing: Seq::empty(),
                        new_outputs: Seq::empty(),
                        executed: false,
                        ..v1
                    },
                    turn,
                    0,
                );
            }
        },
        (RunPhase::CheckCall { turn, call, tool }, EventView::Enabled(b)) => {
            if call < v.pending.len() && tool < v.tool_names.len() && turn < MAX_TURNS && !b {
                lemma_calls_from(RunView { missing: v.missing.push(v.pending[call as int].name), ..v }, turn, call + 1);
            }
        },
        (RunPhase::RunCall { turn, call, tool }, EventView::ToolOutput(out)) => {
            if call < v.pending.len() && tool < v.tool_names.len() && turn < MAX_TURNS {
                let tc = v.pending[call as int];
                lemma_calls_from(
                    RunView {
                        messages: v.messages.push(tool_result_message(tc, out)),
                        new_outputs: v.new_outputs.push((tc.name, out)),
                        executed: true,
                        ..v
                    },
                    turn,
                    call + 1,
                );
            }
        },
        _ => {},
    }
}

/// Once the model is being talked to, no tool output is lost: a step keeps the
/// recorded outputs as a prefix, and a run that finishes returns all of them.
pub proof fn law_outputs_kept(v: RunView, e: EventView)
    requires
        !before_model(v.phase),
        turns_in_range(v.phase),
    ensures
        v.outputs.is_prefix_of(step_spec(v, e).0.outputs),
        step_spec(v, e).1 matches ActionView::Finish(res) ==> res.tool_outputs == step_spec(v, e).0.outputs,
{
    match (v.phase, e) {
        (RunPhase::AwaitModel { turn }, EventView::ModelReply(r)) => {
            if turn < MAX_TURNS && r.tool_calls.len() > 0 {
                let v1 = RunView {
                    previous_response_id: if r.id is Some { r.id } else { v.previous_response_id },
                    ..v
                };
                lemma_calls_from(
                    RunView {
                        messages: v1.messages.push(assistant_calls_message(r.tool_calls)),
                        pending: r.tool_calls,
                        missing: Seq::empty(),
                        new_outputs: Seq::empty(),
                        executed: false,
                        ..v1
                    },
                    turn,
                    0,
                );
            } else {
                assert(v.outputs.is_prefix_of(v.outputs));
            }
        },
        (RunPhase::CheckCall { turn, call, tool }, EventView::Enabled(b)) => {
            if call < v.pending.len() && tool < v.tool_names.len() && turn < MAX_TURNS && !b {
                lemma_calls_from(RunView { missing: v.missing.push(v.pending[call as int].name), ..v }, turn, call + 1);
            } else {
                assert(v.outputs.is_prefix_of(v.outputs));
            }
        },
        (RunPhase::RunCall { turn, call, tool }, EventView::ToolOutput(out)) => {
            if call < v.pending.len() && tool < v.tool_names.len() && turn < MAX_TURNS {
                let tc = v.pending[call as int];
                lemma_calls_from(
                    RunView {
                        messages: v.messages.push(tool_result_message(tc, out)),
                        new_outputs: v.new_outputs.push((tc.name, out)),
                        executed: true,
                        ..v
                    },
                    turn,
                    call + 1,
                );
            } else {
                assert(v.outputs.is_prefix_of(v.outputs));
            }
        },
        _ => {
            assert(v.outputs.is_prefix_of(v.outputs));
        },
    }
}

/// With `StopOnFirstTool`, the output of the first enabled registry tool ends
/// the run: it is the final text and the only recorded tool output.
pub proof fn law_stop_on_first_tool(v: RunView, out: Seq<char>)
    requires
        v.behavior == BehaviorView::StopOnFirstTool,
        v.phase matches RunPhase::ScanCall { tool } && tool < v.tool_names.len(),
    ensures
        step_spec(v, EventView::ToolOutput(out)).0.phase is Finished,
        step_spec(v, EventView::ToolOutput(out)).1 == ActionView::Finish(
            RunResultView {
                id: None,
                text: Some(out),
                tool_outputs: seq![(v.tool_names[v.phase->ScanCall_tool as int], out)],
            },
        ),
{
}

proof fn lemma_calls_all_unknown(v: RunView, turn: usize, c: int)
    requires
        turn < MAX_TURNS,
        0 <= c <= v.pending.len(),
        forall|k: int| c <= k < v.pending.len() ==> index_from(v.tool_names, #[trigger] v.pending[k].name, 0) is None,
        v.missing.len() + v.pending.len() - c > 0,
    ensures
        calls_from(v, turn, c).1 == ActionView::Fail(
            ErrorView::Other(unknown_tools_message(v.missing + v.pending.subrange(c, v.pending.len() as int).map_values(|tc: ToolCallView| tc.name))),
        ),
    decreases v.pending.len() - c,
{
    let names = v.pending.subrange(c, v.pending.len() as int).map_values(|tc: ToolCallView| tc.name);
    if c >= v.pending.len() {
        assert(names =~= Seq::<Seq<char>>::empty());
        assert(v.missing + names =~= v.missing);
    } else {
        let v1 = RunView { missing: v.missing.push(v.pending[c].name), ..v };
        lemma_calls_all_unknown(v1, turn, c + 1);
        let names1 = v.pending.subrange(c + 1, v.pending.len() as int).map_values(|tc: ToolCallView| tc.name);
        assert(v1.missing + names1 =~= v.missing + names);
    }
}

/// Strict tool policy: when the model asks only for tools that the registry
/// does not hold, the run fails with an error naming all of them, in order.
pub proof fn law_unknown_tools_fail(v: RunView, r: ModelResponseView)
    requires
        v.phase matches RunPhase::AwaitModel { turn } && turn < MAX_TURNS,
        r.tool_calls.len() > 0,
        forall|k: int| 0 <= k < r.tool_calls.len() ==> index_from(v.tool_names, #[trigger] r.tool_calls[k].name, 0) is None,
    ensures
        step_spec(v, EventView::ModelReply(r)).0.phase is Finished,
        step_spec(v, EventView::ModelReply(r)).1 == ActionView::Fail(
            ErrorView::Other(unknown_tools_message(r.tool_calls.map_values(|tc: ToolCallView| tc.name))),
        ),
{
    let turn = v.phase->AwaitModel_turn;
    let v1 = RunView {
        previous_response_id: if r.id is Some { r.id } else { v.previous_response_id },
        ..v
    };
    let v2 = RunView {
        messages: v1.messages.push(assistant_calls_message(r.tool_calls)),
        pending: r.tool_calls,
        missing: Seq::empty(),
        new_outputs: Seq::empty(),
        executed: false,
        ..v1
    };
    lemma_calls_all_unknown(v2, turn, 0);
    lemma_calls_from(v2, turn, 0);
    assert(Seq::<Seq<char>>::empty() + r.tool_calls.subrange(0, r.tool_calls.len() as int).map_values(|tc: ToolCallView| tc.name)
        =~= r.tool_calls.map_values(|tc: ToolCallView| tc.name));
}

/// A model reply without tool calls ends the run with the reply's id and text
/// and every tool output recorded so far.
pub proof fn law_plain_reply_finishes(v: RunView, r: ModelResponseView)
    requires
        v.phase matches RunPhase::AwaitModel { turn } && turn <= MAX_TURNS,
        r.tool_calls.len() == 0,
    ensures
        step_spec(v, EventView::ModelReply(r)).0.phase is Finished,
        step_spec(v, EventView::ModelReply(r)).1 == ActionView::Finish(
            RunResultView { id: r.id, text: r.text, tool_outputs: v.outputs },
        ),
{
}

/// A finished run accepts no further event.
pub proof fn law_finished_is_final(v: RunView, e: EventView)
    requires
        v.phase is Finished,
    ensures
        step_spec(v, e).0.phase is Finished,
        step_spec(v, e).1 == ActionView::Fail(ErrorView::Other(unexpected_event_message())),
{
}

/// A step keeps the run's `disable_tools_in_llm` setting, and a `CallModel`
/// action offers tool specs only when that setting is off.
pub open spec fn keeps_tools_setting(v: RunView, s: (RunView, ActionView)) -> bool {
    &&& s.0.disable_tools_in_llm == v.disable_tools_in_llm
    &&& (s.1 matches ActionView::CallModel { offer_tools } && offer_tools) ==> !v.disable_tools_in_llm
}

proof fn lemma_spec_scan_keeps_setting(v: RunView, i: int)
    ensures
        keeps_tools_setting(v, spec_scan_from(v, i)),
    decreases v.tool_names.len() - i,
{
    if !(i < 0 || i >= v.tool_names.len()) && !v.has_spec(i) {
        lemma_spec_scan_keeps_setting(v, i + 1);
    }
}

proof fn lemma_start_keeps_setting(v: RunView)
    ensures
        keeps_tools_setting(v, start_model(v)),
{
    let v1 = RunView {
        combined_input: combine_spec(v.input, v.outputs),
        messages: initial_messages(v.instructions, v.input),
        spec_tools: Seq::empty(),
        previous_response_id: None,
        ..v
    };
    lemma_spec_scan_keeps_setting(v1, 0);
}

proof fn lemma_scan_keeps_setting(v: RunView, i: int)
    ensures
        keeps_tools_setting(v, scan_from(v, i)),
{
    lemma_start_keeps_setting(v);
}

proof fn lemma_calls_keeps_setting(v: RunView, turn: usize, c: int)
    ensures
        keeps_tools_setting(v, calls_from(v, turn, c)),
    decreases v.pending.len() - c,
{
    if !(c < 0 || c >= v.pending.len()) {
        if index_from(v.tool_names, v.pending[c].name, 0) is None {
            lemma_calls_keeps_setting(RunView { missing: v.missing.push(v.pending[c].name), ..v }, turn, c + 1);
        }
    }
}

/// With `disable_tools_in_llm` set, no tool spec ever reaches the model: the
/// first action of a run and every later step keep the setting, and no
/// `CallModel` action they produce offers tools.
pub proof fn law_disabled_tools_never_offered(v: RunView, e: EventView, start: RunView)
    requires
        v.disable_tools_in_llm,
        start.disable_tools_in_llm,
    ensures
        step_spec(v, e).0.disable_tools_in_llm,
        !(step_spec(v, e).1 matches ActionView::CallModel { offer_tools } && offer_tools),
        scan_from(start, 0).0.disable_tools_in_llm,
        !(scan_from(start, 0).1 matches ActionView::CallModel { offer_tools } && offer_tools),
{
    lemma_scan_keeps_setting(start, 0);
    match (v.phase, e) {
        (RunPhase::Scan { tool: i }, EventView::Enabled(b)) => {
            lemma_scan_keeps_setting(v, i + 1);
        },
        (RunPhase::ScanCall { tool: i }, EventView::ToolOutput(out)) => {
            if i < v.tool_names.len() {
                lemma_scan_keeps_setting(RunView { outputs: v.outputs.push((v.tool_names[i as int], out)), ..v }, i + 1);
            }
        },
        (RunPhase::Deciding, EventView::Decision { .. }) => {
            lemma_start_keeps_setting(v);
        },
        (RunPhase::SpecScan { tool: i }, EventView::Enabled(b)) => {
            if i < v.tool_names.len() {
                let v1 = RunView { spec_tools: if b { v.spec_tools.push(i) } else { v.spec_tools }, ..v };
                lemma_spec_scan_keeps_setting(v1, i + 1);
            }
        },
        (RunPhase::AwaitModel { turn }, EventView::ModelReply(r)) => {
            let v1 = RunView {
                previous_response_id: if r.id is Some { r.id } else { v.previous_response_id },
                ..v
            };
            lemma_calls_keeps_setting(
                RunView {
                    messages: v1.messages.push(assistant_calls_message(r.tool_calls)),
                    pending: r.tool_calls,
                    missing: Seq::empty(),
                    new_outputs: Seq::empty(),
                    executed: false,
                    ..v1
                },
                turn,
                0,
            );
        },
        (RunPhase::CheckCall { turn, call, tool }, EventView::Enabled(b)) => {
            if call < v.pending.len() {
                lemma_calls_keeps_setting(RunView { missing: v.missing.push(v.pending[call as int].name), ..v }, turn, call + 1);
            }
        },
        (RunPhase::RunCall { turn, call, tool }, EventView::ToolOutput(out)) => {
            if call < v.pending.len() {
                let tc = v.pending[call as int];
                lemma_calls_keeps_setting(
                    RunView {
                        messages: v.messages.push(tool_result_message(tc, out)),
                        new_outputs: v.new_outputs.push((tc.name, out)),
                        executed: true,
                        ..v
                    },
                    turn,
                    call + 1,
                );
            }
        },
        _ => {},
    }
    assert(keeps_tools_setting(v, step_spec(v, e)));
}

/// How a round goes on once a requested tool has been refused: the model is not
/// called again; the round either checks a further call or fails naming every
/// refused tool, and the refused names are kept.
pub open spec fn refused_round_step(v: RunView, s: (RunView, ActionView)) -> bool {
    &&& v.missing.is_prefix_of(s.0.missing)
    &&& !(s.1 is CallModel)
    &&& s.1 is Fail ==> (s.1 == ActionView::Fail(ErrorView::Other(unknown_tools_message(s.0.missing)))
        || s.1 == ActionView::Fail(ErrorView::Other(unexpected_event_message())))
    &&& !(s.0.phase is Finished) ==> s.0.missing.len() > 0 && (s.0.phase is CheckCall || s.0.phase is RunCall)
}

proof fn lemma_calls_with_refused(v: RunView, turn: usize, c: int)
    requires
        v.missing.len() > 0,
    ensures
        refused_round_step(v, calls_from(v, turn, c)),
    decreases v.pending.len() - c,
{
    if c < 0 || c >= v.pending.len() {
        assert(v.missing.is_prefix_of(v.missing));
    } else {
        match index_from(v.tool_names, v.pending[c].name, 0) {
            None => {
                let v1 = RunView { missing: v.missing.push(v.pending[c].name), ..v };
                lemma_calls_with_refused(v1, turn, c + 1);
                assert(v.missing.is_prefix_of(v1.missing));
            },
            Some(j) => {
                assert(v.missing.is_prefix_of(v.missing));
            },
        }
    }
}

/// Strict tool policy for disabled tools: a requested tool that reports itself
/// disabled is recorded as refused, and from then on the round never calls the
/// model again: every later step keeps the refused names and either checks the
/// next requested call, runs an enabled one, or fails with an error naming all
/// refused tools.
pub proof fn law_refused_tools_fail_round(v: RunView, e: EventView)
    requires
        v.phase is CheckCall || v.phase is RunCall,
        v.missing.len() > 0 || e == EventView::Enabled(false),
    ensures
        refused_round_step(v, step_spec(v, e)),
        (v.phase matches RunPhase::CheckCall { turn, call, tool } && call < v.pending.len()
            && tool < v.tool_names.len() && turn < MAX_TURNS && e == EventView::Enabled(false))
            ==> v.missing.push(v.pending[v.phase->CheckCall_call as int].name).is_prefix_of(
            step_spec(v, e).0.missing,
        ),
{
    match (v.phase, e) {
        (RunPhase::CheckCall { turn, call, tool }, EventView::Enabled(b)) => {
            if call < v.pending.len() && tool < v.tool_names.len() && turn < MAX_TURNS {
                if !b {
                    let v1 = RunView { missing: v.missing.push(v.pending[call as int].name), ..v };
                    lemma_calls_with_refused(v1, turn, call + 1);
                    assert(v.missing.is_prefix_of(v1.missing));
                } else {
                    assert(v.missing.is_prefix_of(v.missing));
                }
            } else {
                assert(v.missing.is_prefix_of(v.missing));
            }
        },
        (RunPhase::RunCall { turn, call, tool }, EventView::ToolOutput(out)) => {
            if call < v.pending.len() && tool < v.tool_names.len() && turn < MAX_TURNS {
                let tc = v.pending[call as int];
                lemma_calls_with_refused(
                    RunView {
                        messages: v.messages.push(tool_result_message(tc, out)),
                        new_outputs: v.new_outputs.push((tc.name, out)),
                        executed: true,
                        ..v
                    },
                    turn,
                    call + 1,
                );
            } else {
                assert(v.missing.is_prefix_of(v.missing));
            }
        },
        _ => {
            assert(v.missing.is_prefix_of(v.missing));
        },
    }
}

/// What the tool pre-pass gathers when registry tool `i` reports `en[i]` and,
/// when enabled, outputs `outs[i]`: tools are taken in registry order, and the
/// first enabled tool that the behavior stops on ends the pass with its output
/// alone; otherwise every enabled tool's output is kept, after `acc`.
pub open spec fn collect_spec(
    b: BehaviorView,
    names: Seq<Seq<char>>,
    en: Seq<bool>,
    outs: Seq<Seq<char>>,
    i: int,
    acc: Seq<(Seq<char>, Seq<char>)>,
) -> (Seq<(Seq<char>, Seq<char>)>, Option<Seq<char>>)
    decreases names.len() - i,
{
    if i < 0 || i >= names.len() {
        (acc, None)
    } else if !en[i] {
        collect_spec(b, names, en, outs, i + 1, acc)
    } else if stops_on(b, names[i]) {
        (seq![(names[i], outs[i])], Some(outs[i]))
    } else {
        collect_spec(b, names, en, outs, i + 1, acc.push((names[i], outs[i])))
    }
}

/// Runs the protocol from `v` and its pending request `a`, answering the tool
/// pre-pass's requests only: whether tool `t` is enabled with `en[t]`, and a
/// call of tool `t` with `outs[t]`. It stops at the first other request (or
/// after `fuel` answers) and gives the state and that request.
pub open spec fn drive_prepass(
    v: RunView,
    a: ActionView,
    en: Seq<bool>,
    outs: Seq<Seq<char>>,
    fuel: nat,
) -> (RunView, ActionView)
    decreases fuel,
{
    if fuel == 0 {
        (v, a)
    } else {
        match a {
            ActionView::CheckEnabled { tool } => if v.phase is Scan {
                let s = step_spec(v, EventView::Enabled(en[tool as int]));
                drive_prepass(s.0, s.1, en, outs, (fuel - 1) as nat)
            } else {
                (v, a)
            },
            ActionView::CallTool { tool, .. } => {
                let s = step_spec(v, EventView::ToolOutput(outs[tool as int]));
                drive_prepass(s.0, s.1, en, outs, (fuel - 1) as nat)
            },
            _ => (v, a),
        }
    }
}

/// The end of the pre-pass over `v`, given what it gathered: the run finishes
/// with the stopping output, or goes on as `after_collect` says.
pub open spec fn prepass_outcome(
    v: RunView,
    c: (Seq<(Seq<char>, Seq<char>)>, Option<Seq<char>>),
) -> (RunView, ActionView) {
    match c.1 {
        Some(out) => finish_with(RunView { outputs: c.0, ..v }, None, Some(out), c.0),
        None => after_collect(RunView { outputs: c.0, ..v }),
    }
}

proof fn lemma_spec_scan_phase_free(w: RunView, p: RunPhase, i: int)
    ensures
        spec_scan_from(RunView { phase: p, ..w }, i) == spec_scan_from(w, i),
    decreases w.tool_names.len() - i,
{
    if !(i < 0 || i >= w.tool_names.len()) && !w.has_spec(i) {
        lemma_spec_scan_phase_free(w, p, i + 1);
    }
}

proof fn lemma_after_collect_phase_free(w: RunView, p: RunPhase)
    ensures
        after_collect(RunView { phase: p, ..w }) == after_collect(w),
{
    let w1 = RunView {
        combined_input: combine_spec(w.input, w.outputs),
        messages: initial_messages(w.instructions, w.input),
        spec_tools: Seq::empty(),
        previous_response_id: None,
        ..w
    };
    lemma_spec_scan_phase_free(w1, p, 0);
    assert(RunView {
        combined_input: combine_spec(w.input, w.outputs),
        messages: initial_messages(w.instructions, w.input),
        spec_tools: Seq::empty(),
        previous_response_id: None,
        ..RunView { phase: p, ..w }
    } == RunView { phase: p, ..w1 });
}

proof fn lemma_prepass_outcome_phase_free(v: RunView, p: RunPhase, c: (Seq<(Seq<char>, Seq<char>)>, Option<Seq<char>>))
    ensures
        prepass_outcome(RunView { phase: p, ..v }, c) == prepass_outcome(v, c),
{
    lemma_after_collect_phase_free(RunView { outputs: c.0, ..v }, p);
    assert(RunView { outputs: c.0, ..RunView { phase: p, ..v } } == RunView { phase: p, ..RunView { outputs: c.0, ..v } });
}

proof fn lemma_after_collect_stops_drive(w: RunView, en: Seq<bool>, outs: Seq<Seq<char>>, fuel: nat)
    requires
        before_model(w.phase),
    ensures
        drive_prepass(after_collect(w).0, after_collect(w).1, en, outs, fuel) == after_collect(w),
{
    let w1 = RunView {
        combined_input: combine_spec(w.input, w.outputs),
        messages: initial_messages(w.instructions, w.input),
        spec_tools: Seq::empty(),
        previous_response_id: None,
        ..w
    };
    lemma_spec_scan_from(w1, 0);
}

proof fn lemma_drive_from(v: RunView, i: int, en: Seq<bool>, outs: Seq<Seq<char>>, fuel: nat)
    requires
        0 <= i < v.tool_names.len(),
        v.tool_names.len() <= usize::MAX,
        v.phase == (RunPhase::Scan { tool: i as usize }),
        en.len() == v.tool_names.len(),
        outs.len() == v.tool_names.len(),
        fuel >= 2 * (v.tool_names.len() - i),
    ensures
        drive_prepass(v, ActionView::CheckEnabled { tool: i as usize }, en, outs, fuel) == prepass_outcome(
            v,
            collect_spec(v.behavior, v.tool_names, en, outs, i, v.outputs),
        ),
    decreases v.tool_names.len() - i,
{
    let n = v.tool_names.len();
    let f1 = (fuel - 1) as nat;
    let c = collect_spec(v.behavior, v.tool_names, en, outs, i, v.outputs);
    let s1 = step_spec(v, EventView::Enabled(en[i]));
    assert(drive_prepass(v, ActionView::CheckEnabled { tool: i as usize }, en, outs, fuel) == drive_prepass(s1.0, s1.1, en, outs, f1));
    if !en[i] {
        assert(s1 == scan_from(v, i + 1));
        assert(c == collect_spec(v.behavior, v.tool_names, en, outs, i + 1, v.outputs));
        if i + 1 < n {
            let v1 = RunView { phase: RunPhase::Scan { tool: (i + 1) as usize }, ..v };
            lemma_drive_from(v1, i + 1, en, outs, f1);
            lemma_prepass_outcome_phase_free(v, RunPhase::Scan { tool: (i + 1) as usize }, c);
            assert(drive_prepass(s1.0, s1.1, en, outs, f1) == prepass_outcome(v, c));
        } else {
            lemma_after_collect_stops_drive(v, en, outs, f1);
            assert(RunView { outputs: c.0, ..v } == v);
            assert(drive_prepass(s1.0, s1.1, en, outs, f1) == s1);
        }
    } else {
        let vc = RunView { phase: RunPhase::ScanCall { tool: i as usize }, ..v };
        let f2 = (f1 - 1) as nat;
        let name = v.tool_names[i];
        assert(s1 == (vc, ActionView::CallTool { tool: i as usize, input: v.input }));
        let s2 = step_spec(vc, EventView::ToolOutput(outs[i]));
        assert(drive_prepass(s1.0, s1.1, en, outs, f1) == drive_prepass(s2.0, s2.1, en, outs, f2));
        if stops_on(v.behavior, name) {
            assert(c == (seq![(name, outs[i])], Some(outs[i])));
            assert(s2.1 is Finish);
        } else {
            assert(c == collect_spec(v.behavior, v.tool_names, en, outs, i + 1, v.outputs.push((name, outs[i]))));
            let w = RunView { outputs: v.outputs.push((name, outs[i])), ..vc };
            if i + 1 < n {
                let v1 = RunView { phase: RunPhase::Scan { tool: (i + 1) as usize }, ..w };
                lemma_drive_from(v1, i + 1, en, outs, f2);
                let vw = RunView { outputs: v.outputs.push((name, outs[i])), ..v };
                lemma_prepass_outcome_phase_free(vw, RunPhase::Scan { tool: (i + 1) as usize }, c);
                assert(v1 == RunView { phase: RunPhase::Scan { tool: (i + 1) as usize }, ..vw });
                assert(RunView { outputs: c.0, ..vw } == RunView { outputs: c.0, ..v });
                assert(prepass_outcome(vw, c) == prepass_outcome(v, c));
                assert(drive_prepass(s2.0, s2.1, en, outs, f2) == prepass_outcome(v, c));
            } else {
                lemma_after_collect_stops_drive(w, en, outs, f2);
                lemma_after_collect_phase_free(RunView { outputs: c.0, ..v }, vc.phase);
                assert(RunView { outputs: c.0, ..w } == RunView { phase: vc.phase, ..RunView { outputs: c.0, ..v } });
                assert(c.0 == w.outputs);
                assert(w == RunView { outputs: c.0, ..w });
                assert(drive_prepass(s2.0, s2.1, en, outs, f2) == s2);
            }
        }
    }
}

/// A run whose tool pre-pass stops ends there, as `run_tools_collect` gathers:
/// from the first request of a run, answering only the pre-pass's requests
/// (tool `t` enabled: `en[t]`; its output: `outs[t]`), the run finishes with no
/// id, the stopping output as text and the gathered outputs, before it asks for
/// anything else (no model call, no tool call with context). When the pass does
/// not stop, the run goes on as `after_collect` says, with the outputs gathered.
pub proof fn law_prepass_ends_run(
    instructions: Option<Seq<char>>,
    input: Seq<char>,
    behavior: BehaviorView,
    tool_names: Seq<Seq<char>>,
    tool_has_spec: Seq<bool>,
    disable_tools_in_llm: bool,
    en: Seq<bool>,
    outs: Seq<Seq<char>>,
)
    requires
        tool_names.len() <= usize::MAX,
        en.len() == tool_names.len(),
        outs.len() == tool_names.len(),
    ensures
        ({
            let v0 = init_view(instructions, input, behavior, tool_names, tool_has_spec, disable_tools_in_llm);
            let s = scan_from(v0, 0);
            let c = collect_spec(behavior, tool_names, en, outs, 0, Seq::empty());
            &&& drive_prepass(s.0, s.1, en, outs, (2 * tool_names.len()) as nat) == prepass_outcome(v0, c)
            &&& c.1 matches Some(out) ==> drive_prepass(s.0, s.1, en, outs, (2 * tool_names.len()) as nat).1
                == ActionView::Finish(RunResultView { id: None, text: Some(out), tool_outputs: c.0 })
        }),
{
    let v0 = init_view(instructions, input, behavior, tool_names, tool_has_spec, disable_tools_in_llm);
    let c = collect_spec(behavior, tool_names, en, outs, 0, Seq::empty());
    if tool_names.len() > 0 {
        let v = RunView { phase: RunPhase::Scan { tool: 0 }, ..v0 };
        lemma_drive_from(v, 0, en, outs, (2 * tool_names.len()) as nat);
        lemma_prepass_outcome_phase_free(v0, RunPhase::Scan { tool: 0 }, c);
    } else {
        assert(RunView { outputs: c.0, ..v0 } == v0);
    }
}

proof fn lemma_calls_keep_messages(v: RunView, turn: usize, c: int)
    ensures
        calls_from(v, turn, c).0.messages == v.messages,
        calls_from(v, turn, c).0.new_outputs == v.new_outputs,
    decreases v.pending.len() - c,
{
    if !(c < 0 || c >= v.pending.len()) {
        if index_from(v.tool_names, v.pending[c].name, 0) is None {
            lemma_calls_keep_messages(RunView { missing: v.missing.push(v.pending[c].name), ..v }, turn, c + 1);
        }
    }
}

proof fn lemma_result_keys_distinct()
    ensures
        "role"@ != "content"@,
        "tool_call_id"@ != "content"@,
        "name"@ != "content"@,
        "role"@ != "tool_call_id"@,
        "role"@ != "name"@,
{
    reveal_strlit("role");
    reveal_strlit("content");
    reveal_strlit("tool_call_id");
    reveal_strlit("name");
    assert("role"@.len() == 4);
    assert("content"@.len() == 7);
    assert("tool_call_id"@.len() == 12);
    assert("name"@.len() == 4);
    assert("role"@[0] != "name"@[0]);
}

/// A tool's output reaches the model: after the run gets the output `out` of a
/// requested tool call, exactly one message is appended to the conversation and
/// its `content` is `out`. It is a `tool` message whose `tool_call_id` is the
/// call's `call_id` (else its `id`) when the call carries one, and a `function`
/// message naming the tool otherwise. The output is also recorded under the
/// tool's name.
pub proof fn law_tool_output_reaches_model(v: RunView, out: Seq<char>)
    requires
        v.phase matches RunPhase::RunCall { turn, call, tool } && call < v.pending.len() && tool
            < v.tool_names.len() && turn < MAX_TURNS,
    ensures
        ({
            let w = step_spec(v, EventView::ToolOutput(out)).0;
            let tc = v.pending[v.phase->RunCall_call as int];
            let msg = w.messages.last();
            &&& w.messages.len() == v.messages.len() + 1
            &&& w.messages.take(v.messages.len() as int) == v.messages
            &&& msg.field("content"@) == Some(Json::Text(out))
            &&& (tc.call_id matches Some(l) ==> msg.field("role"@) == Some(Json::Text("tool"@))
                && msg.field("tool_call_id"@) == Some(Json::Text(l)))
            &&& (tc.call_id is None && tc.id is Some ==> msg.field("role"@) == Some(Json::Text("tool"@))
                && msg.field("tool_call_id"@) == Some(Json::Text(tc.id->0)))
            &&& (tc.call_id is None && tc.id is None ==> msg.field("role"@) == Some(Json::Text("function"@))
                && msg.field("name"@) == Some(Json::Text(tc.name)))
            &&& w.new_outputs == v.new_outputs.push((tc.name, out))
        }),
{
    lemma_result_keys_distinct();
    let call = v.phase->RunCall_call;
    let turn = v.phase->RunCall_turn;
    let tc = v.pending[call as int];
    let v1 = RunView {
        messages: v.messages.push(tool_result_message(tc, out)),
        new_outputs: v.new_outputs.push((tc.name, out)),
        executed: true,
        ..v
    };
    lemma_calls_keep_messages(v1, turn, call + 1);
    assert(step_spec(v, EventView::ToolOutput(out)).0 == calls_from(v1, turn, call + 1).0);
    assert(v1.messages.take(v.messages.len() as int) =~= v.messages);
    let m = tool_result_message(tc, out);
    assert(v1.messages.last() == m);
    let es = m->Object_0;
    assert(es.len() == 3);
    assert(es.drop_first().drop_first().drop_first().len() == 0);
    assert(entries_lookup(es.drop_first().drop_first(), "content"@) == Some(Json::Text(out)));
    assert(entries_lookup(es.drop_first(), "content"@) == Some(Json::Text(out)));
    assert(entries_lookup(es, "content"@) == Some(Json::Text(out)));
    assert(entries_lookup(es.drop_first(), "tool_call_id"@) == Some(es[1].1) || es[1].0 != "tool_call_id"@);
    assert(entries_lookup(es.drop_first(), "name"@) == Some(es[1].1) || es[1].0 != "name"@);
}

} // verus!

//! Agent configuration.

use vstd::prelude::*;
use crate::agent::runner::{ToolUseBehavior, BehaviorView};

verus! {

/// Configuration of an agent.
#[derive(Clone)]
pub struct AgentConfig {
    pub name: String,
    pub handoff_description: Option<String>,
    pub model_name: Option<String>,
    pub reset_tool_choice: bool,
    pub instructions: Option<String>,
    pub tool_use_behavior: ToolUseBehavior,
}

pub struct AgentConfigView {
    pub name: Seq<char>,
    pub handoff_description: Option<Seq<char>>,
    pub model_name: Option<Seq<char>>,
    pub reset_tool_choice: bool,
    pub instructions: Option<Seq<char>>,
    pub tool_use_behavior: BehaviorView,
}

impl View for AgentConfig {
    type V = AgentConfigView;

    open spec fn view(&self) -> AgentConfigView {
        AgentConfigView {
            name: self.name@,
            handoff_description: self.handoff_description.deep_view(),
            model_name: self.model_name.deep_view(),
            reset_tool_choice: self.reset_tool_choice,
            instructions: self.instructions.deep_view(),
            tool_use_behavior: self.tool_use_behavior@,
        }
    }
}

/// The configuration of an agent named `name` with every other setting at its default.
pub open spec fn named_config(name: Seq<char>) -> AgentConfigView {
    AgentConfigView {
        name,
        handoff_description: None,
        model_name: None,
        reset_tool_choice: true,
        instructions: None,
        tool_use_behavior: BehaviorView::RunLlmAgain,
    }
}

impl Default for AgentConfig {
    fn default() -> (r: AgentConfig)
        ensures
            r@ == named_config(Seq::empty()),
    {
        AgentConfig {
            name: String::new(),
            handoff_description: None,
            model_name: None,
            reset_tool_choice: true,
            instructions: None,
            tool_use_behavior: ToolUseBehavior::RunLlmAgain,
        }
    }
}

impl AgentConfig {
    /// A configuration with the given name and default settings.
    pub fn new(name: String) -> (r: AgentConfig)
        ensures
            r@ == named_config(name@),
    {
        AgentConfig {
            name,
            handoff_description: None,
            model_name: None,
            reset_tool_choice: true,
            instructions: None,
            tool_use_behavior: ToolUseBehavior::RunLlmAgain,
        }
    }
}

/// The instructions a configured agent runs with: its own, or `Agent: <name>`.
pub open spec fn instructions_spec(c: AgentConfigView) -> Seq<char> {
    match c.instructions {
        Some(i) => i,
        None => "Agent: "@ + c.name,
    }
}

/// The instructions a configured agent runs with.
pub fn effective_instructions(config: &AgentConfig) -> (r: String)
    ensures
        r@ == instructions_spec(config@),
{
    match &config.instructions {
        Some(i) => i.clone(),
        None => {
            let mut s = String::from_str("Agent: ");
            s.append(config.name.as_str());
            s
        },
    }
}

} // verus!

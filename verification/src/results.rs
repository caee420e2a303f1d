//! The structured result of a run.

use vstd::prelude::*;

verus! {

/// Result of an agent run: the response id, the final text and the outputs of the
/// tools executed during the run, as (tool name, output) pairs.
#[derive(Debug, Clone, Default)]
pub struct RunResult {
    pub id: Option<String>,
    pub text: Option<String>,
    pub tool_outputs: Vec<(String, String)>,
}

pub struct RunResultView {
    pub id: Option<Seq<char>>,
    pub text: Option<Seq<char>>,
    pub tool_outputs: Seq<(Seq<char>, Seq<char>)>,
}

impl View for RunResult {
    type V = RunResultView;

    open spec fn view(&self) -> RunResultView {
        RunResultView {
            id: self.id.deep_view(),
            text: self.text.deep_view(),
            tool_outputs: self.tool_outputs.deep_view(),
        }
    }
}

} // verus!

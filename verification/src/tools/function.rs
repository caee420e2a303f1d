//! Tools backed by a plain function.

use vstd::prelude::*;
use crate::error::AgentError;
use crate::json::{JsonValue, Json, text, object2, object4, array};

verus! {

/// A tool that runs a function on its string input.
pub struct FunctionTool<F> where F: Fn(&str) -> Result<String, AgentError> + Send + Sync + 'static {
    name: String,
    description: String,
    func: F,
    enabled: bool,
}

/// The OpenAI tool spec of a function tool taking `{"text": string}`.
pub open spec fn function_tool_spec(name: Seq<char>, description: Seq<char>) -> Json {
    Json::Object(
        seq![
            ("type"@, Json::Text("function"@)),
            (
                "function"@,
                Json::Object(
                    seq![
                        ("name"@, Json::Text(name)),
                        ("description"@, Json::Text(description)),
                        (
                            "parameters"@,
                            Json::Object(
                                seq![
                                    ("type"@, Json::Text("object"@)),
                                    (
                                        "properties"@,
                                        Json::Object(
                                            seq![
                                                (
                                                    "text"@,
                                                    Json::Object(
                                                        seq![
                                                            ("type"@, Json::Text("string"@)),
                                                            ("description"@, Json::Text("Text to transform."@)),
                                                        ],
                                                    ),
                                                ),
                                            ],
                                        ),
                                    ),
                                    ("required"@, Json::Array(seq![Json::Text("text"@)])),
                                    ("additionalProperties"@, Json::Bool(false)),
                                ],
                            ),
                        ),
                    ],
                ),
            ),
        ],
    )
}

/// The OpenAI tool spec of a function tool.
pub fn function_tool_spec_json(name: &str, description: &str) -> (r: JsonValue)
    ensures
        r@ == function_tool_spec(name@, description@),
{
    let text_prop = object2("type", text("string"), "description", text("Text to transform."));
    let mut props: Vec<(String, JsonValue)> = Vec::new();
    props.push(crate::json::member("text", text_prop));
    proof {
        crate::json::lemma_entries_view(props@);
        assert(crate::json::entries_view(props@) =~= seq![
            ("text"@, Json::Object(seq![("type"@, Json::Text("string"@)), ("description"@, Json::Text("Text to transform."@))])),
        ]);
    }
    let mut required: Vec<JsonValue> = Vec::new();
    crate::json::push_value(&mut required, text("text"));
    proof {
        assert(crate::json::values_view(required@) =~= seq![Json::Text("text"@)]);
    }
    let parameters = object4(
        "type",
        text("object"),
        "properties",
        JsonValue::Object(props),
        "required",
        array(required),
        "additionalProperties",
        JsonValue::Bool(false),
    );
    let mut fields: Vec<(String, JsonValue)> = Vec::new();
    fields.push(crate::json::member("name", text(name)));
    fields.push(crate::json::member("description", text(description)));
    fields.push(crate::json::member("parameters", parameters));
    proof {
        crate::json::lemma_entries_view(fields@);
    }
    let ghost fv = crate::json::entries_view(fields@);
    assert(fv[0] == ("name"@, Json::Text(name@)));
    assert(fv =~= seq![
        ("name"@, Json::Text(name@)),
        ("description"@, Json::Text(description@)),
        ("parameters"@, fields@[2].1@),
    ]);
    object2("type", text("function"), "function", JsonValue::Object(fields))
}

impl<F> FunctionTool<F> where F: Fn(&str) -> Result<String, AgentError> + Send + Sync + 'static {
    /// An enabled tool with the given name, description and function.
    pub fn new(name: String, description: String, func: F) -> (r: Self)
        ensures
            r.name_view() == name@,
            r.description_view() == description@,
            r.enabled_view(),
            r.func_view() == func,
    {
        FunctionTool { name, description, func, enabled: true }
    }

    pub closed spec fn name_view(&self) -> Seq<char> {
        self.name@
    }

    pub closed spec fn description_view(&self) -> Seq<char> {
        self.description@
    }

    pub closed spec fn enabled_view(&self) -> bool {
        self.enabled
    }

    pub closed spec fn func_view(&self) -> F {
        self.func
    }

    /// The same tool, disabled.
    pub fn disabled(self) -> (r: Self)
        ensures
            r.name_view() == self.name_view(),
            r.description_view() == self.description_view(),
            !r.enabled_view(),
            r.func_view() == self.func_view(),
    {
        FunctionTool { enabled: false, ..self }
    }

    pub fn name(&self) -> (r: &str)
        ensures
            r@ == self.name_view(),
    {
        self.name.as_str()
    }

    pub fn description(&self) -> (r: &str)
        ensures
            r@ == self.description_view(),
    {
        self.description.as_str()
    }

    pub fn is_enabled(&self) -> (r: bool)
        ensures
            r == self.enabled_view(),
    {
        self.enabled
    }

    /// The tool's OpenAI tool spec (a function taking `{"text": string}`).
    pub fn openai_tool_spec(&self) -> (r: Option<JsonValue>)
        ensures
            r matches Some(v) && v@ == function_tool_spec(self.name_view(), self.description_view()),
    {
        Some(function_tool_spec_json(self.name.as_str(), self.description.as_str()))
    }

    /// Runs the function on `input`.
    pub fn call(&self, input: &str) -> (r: Result<String, AgentError>)
        requires
            self.func_view().requires((input,)),
        ensures
            self.func_view().ensures((input,), r),
    {
        (self.func)(input)
    }
}

} // verus!

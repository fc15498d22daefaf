//! Calls of tools that the model asks for.

use vstd::prelude::*;

use crate::json::{json_parse, json_text, plain_within, Json, JsonView};

verus! {

/// One call of a tool.
#[derive(Debug)]
pub struct ToolCall {
    pub id: String,
    pub name: String,
    pub arguments: Json,
}

pub struct ToolCallView {
    pub id: Seq<char>,
    pub name: Seq<char>,
    pub arguments: JsonView,
}

impl DeepView for ToolCall {
    type V = ToolCallView;

    open spec fn deep_view(&self) -> ToolCallView {
        ToolCallView {
            id: self.id@,
            name: self.name@,
            arguments: self.arguments.deep_view(),
        }
    }
}

impl Clone for ToolCall {
    fn clone(&self) -> (copy: Self)
        ensures
            copy.deep_view() == self.deep_view(),
    {
        ToolCall {
            id: self.id.clone(),
            name: self.name.clone(),
            arguments: self.arguments.clone(),
        }
    }
}

/// The arguments that a text gives: the JSON value that it denotes, or else the text itself as a
/// string.
pub open spec fn arguments_of(text: Seq<char>) -> JsonView {
    arguments_from(text, json_parse(text))
}

/// The arguments that a text gives, once it is known what it reads as.
pub open spec fn arguments_from(text: Seq<char>, parsed: Option<JsonView>) -> JsonView {
    match parsed {
        Some(value) => value,
        None => JsonView::Str(text),
    }
}

/// Chooses the arguments of a call from their text and from what the text reads as.
pub fn choose_arguments(text: String, parsed: Option<Json>) -> (arguments: Json)
    ensures
        arguments.deep_view() == arguments_from(text@, parsed.deep_view()),
{
    match parsed {
        Some(value) => value,
        None => Json::Str(text),
    }
}

/// Reads the arguments of a call.
pub fn read_arguments(text: String) -> (arguments: Json)
    ensures
        arguments.deep_view() == arguments_of(text@),
{
    let parsed = Json::parse(text.as_str());
    choose_arguments(text, parsed)
}

impl ToolCall {
    /// The text of the arguments. Arguments that hold no float and do not nest deeper than a
    /// parser follows are read back from it as they are.
    pub fn arguments_text(&self) -> (text: String)
        ensures
            text@ == json_text(self.arguments.deep_view()),
            plain_within(self.arguments.deep_view(), 127) ==> arguments_of(text@)
                == self.arguments.deep_view(),
    {
        self.arguments.to_text()
    }
}

} // verus!

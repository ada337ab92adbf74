//! What tools declare about their parameters, what they are given, and what
//! they give back.

use vstd::prelude::*;
use crate::engine::executor::is_text;
use crate::error::Error;
use crate::json::JsonValue;
use crate::registry::Registry;
use crate::text::{concat, owned};

verus! {

/// The JSON type a tool parameter takes.
#[derive(Debug, Clone, Copy, PartialEq, Eq, Structural)]
pub enum ParameterType {
    String,
    Number,
    Boolean,
    Array,
    Object,
}

/// A parameter that a tool declares.
#[derive(Debug)]
pub struct ToolParameter {
    pub name: String,
    pub description: String,
    pub param_type: ParameterType,
    pub required: bool,
    pub default: Option<JsonValue>,
}

/// `p` declares the parameter `name`, with this description, type and
/// requiredness, and no default.
pub open spec fn declares(p: ToolParameter, name: Seq<char>, description: Seq<char>, ty: ParameterType, required: bool) -> bool {
    &&& p.name@ == name
    &&& p.description@ == description
    &&& p.param_type == ty
    &&& p.required == required
    &&& p.default is None
}

impl ToolParameter {
    /// A parameter without a default.
    pub fn new(name: &str, description: &str, param_type: ParameterType, required: bool) -> (p: Self)
        ensures
            declares(p, name@, description@, param_type, required),
    {
        ToolParameter { name: owned(name), description: owned(description), param_type, required, default: None }
    }

    /// The same parameter, with a default value.
    pub fn with_default(self, default: JsonValue) -> (p: Self)
        ensures
            p.name == self.name,
            p.description == self.description,
            p.param_type == self.param_type,
            p.required == self.required,
            p.default == Some(default),
    {
        ToolParameter { default: Some(default), ..self }
    }
}

/// The parameters a tool is called with, by name.
pub type ToolParams = Registry<JsonValue>;

/// The text of the parameter `key`, when it is a JSON string.
pub open spec fn text_param(params: ToolParams, key: Seq<char>) -> Option<Seq<char>> {
    if params.view().contains_key(key) {
        match params.view()[key] {
            JsonValue::String(s) => Some(s@),
            _ => None,
        }
    } else {
        None
    }
}

/// The text of the parameter `key`, when it is a JSON string.
pub fn get_text_param(params: &ToolParams, key: &str) -> (r: Option<String>)
    ensures
        match r {
            Some(s) => text_param(*params, key@) == Some(s@),
            None => text_param(*params, key@) is None,
        },
{
    match params.get(key) {
        Some(JsonValue::String(s)) => Some(s.clone()),
        _ => None,
    }
}

/// The text of a parameter that must be given, or the error `missing`.
pub fn require_text_param(params: &ToolParams, key: &str, missing: &str) -> (r: Result<String, Error>)
    ensures
        match text_param(*params, key@) {
            Some(t) => r matches Ok(s) && s@ == t,
            None => r matches Err(Error::Internal(m)) && m@ == missing@,
        },
{
    match get_text_param(params, key) {
        Some(s) => Ok(s),
        None => Err(Error::Internal(owned(missing))),
    }
}

/// What a tool gave back: success and output, or failure and an error, with
/// metadata.
#[derive(Debug)]
pub struct ToolResult {
    pub success: bool,
    pub output: JsonValue,
    pub error: Option<String>,
    pub metadata: Registry<String>,
}

impl ToolResult {
    /// A success with this output.
    pub fn success(output: JsonValue) -> (r: Self)
        ensures
            r.success,
            r.output == output,
            r.error is None,
            r.metadata.view() == Map::<Seq<char>, String>::empty(),
    {
        ToolResult { success: true, output, error: None, metadata: Registry::new() }
    }

    /// A failure with this error and a null output.
    pub fn error(error: &str) -> (r: Self)
        ensures
            !r.success,
            r.output == JsonValue::Null,
            r.error matches Some(e) && e@ == error@,
            r.metadata.view() == Map::<Seq<char>, String>::empty(),
    {
        ToolResult { success: false, output: JsonValue::Null, error: Some(owned(error)), metadata: Registry::new() }
    }

    /// The same result, with `key` set to `value` in its metadata.
    pub fn with_metadata(self, key: &str, value: &str) -> (r: Self)
        ensures
            r.success == self.success,
            r.output == self.output,
            r.error == self.error,
            r.metadata.view().dom() == self.metadata.view().dom().insert(key@),
            r.metadata.view()[key@]@ == value@,
            forall|k: Seq<char>| k != key@ && self.metadata.view().contains_key(k)
                ==> r.metadata.view()[k] == self.metadata.view()[k],
    {
        let mut metadata = self.metadata;
        metadata.set(key, owned(value));
        ToolResult { success: self.success, output: self.output, error: self.error, metadata }
    }
}

/// A JSON array of strings holding copies of `items`.
pub fn text_array(items: &Vec<String>) -> (v: JsonValue)
    ensures
        v matches JsonValue::Array(a) && a@.len() == items@.len()
            && forall|k: int| 0 <= k < items@.len() ==> is_text(#[trigger] a@[k], items@[k]@),
{
    let mut out: Vec<JsonValue> = Vec::new();
    let mut i: usize = 0;
    while i < items.len()
        invariant
            i <= items@.len(),
            out@.len() == i,
            forall|k: int| 0 <= k < i ==> is_text(#[trigger] out@[k], items@[k]@),
        decreases items@.len() - i,
    {
        out.push(JsonValue::String(items[i].clone()));
        i = i + 1;
    }
    JsonValue::Array(out)
}

/// The error when a tool name is registered twice.
pub fn duplicate_tool_error(name: &str) -> (e: Error)
    ensures
        e matches Error::Internal(m) && m@ == "Tool '"@ + name@ + "' is already registered"@,
{
    let a = concat("Tool '", name);
    Error::Internal(concat(a.as_str(), "' is already registered"))
}

/// The error when no tool has the name.
pub fn missing_tool_error(name: &str) -> (e: Error)
    ensures
        e matches Error::Internal(m) && m@ == "Tool '"@ + name@ + "' not found"@,
{
    let a = concat("Tool '", name);
    Error::Internal(concat(a.as_str(), "' not found"))
}

} // verus!

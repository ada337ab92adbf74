//! The clipboard tool: how a call is read and the results it reports.

use vstd::prelude::*;
use crate::engine::executor::is_text;
use crate::error::Error;
use crate::json::JsonValue;
use crate::tools::types::{ParameterType, ToolParameter, ToolParams, ToolResult, declares, require_text_param, text_param};
use crate::tools::web_scraper::number_is;
use crate::text::{byte_len, concat, owned, str_eq, usize_text, utf8_len};

verus! {

/// What a call to the clipboard asks for.
#[derive(Debug)]
pub enum ClipboardOperation {
    Read,
    Write { text: String },
    Clear,
}

/// Reads, writes and clears the system clipboard.
pub struct ClipboardTool;

impl ClipboardTool {
    /// The tool's name.
    pub fn name(&self) -> (s: &'static str)
        ensures
            s@ == "clipboard"@,
    {
        "clipboard"
    }

    /// What the tool does.
    pub fn description(&self) -> (s: &'static str)
        ensures
            s@ == "Read from and write to system clipboard"@,
    {
        "Read from and write to system clipboard"
    }

    /// The parameters the tool takes.
    pub fn parameters(&self) -> (ps: Vec<ToolParameter>)
        ensures
            ps@.len() == 2,
            declares(ps@[0], "operation"@, "Operation: read, write, clear"@, ParameterType::String, true),
            declares(ps@[1], "text"@, "Text to write (for write operation)"@, ParameterType::String, false),
    {
        let mut ps: Vec<ToolParameter> = Vec::new();
        ps.push(ToolParameter::new("operation", "Operation: read, write, clear", ParameterType::String, true));
        ps.push(ToolParameter::new("text", "Text to write (for write operation)", ParameterType::String, false));
        ps
    }

    /// The operation that a call asks for.
    pub fn plan(params: &ToolParams) -> (r: Result<ClipboardOperation, Error>)
        ensures
            match text_param(*params, "operation"@) {
                None => r matches Err(Error::Internal(m)) && m@ == "Missing operation parameter"@,
                Some(o) => if o == "read"@ {
                    r matches Ok(ClipboardOperation::Read)
                } else if o == "write"@ {
                    match text_param(*params, "text"@) {
                        Some(t) => r matches Ok(ClipboardOperation::Write { text }) && text@ == t,
                        None => r matches Err(Error::Internal(m)) && m@ == "Missing text parameter for write"@,
                    }
                } else if o == "clear"@ {
                    r matches Ok(ClipboardOperation::Clear)
                } else {
                    r matches Err(Error::Internal(m)) && m@ == "Unknown operation: "@ + o
                },
            },
    {
        let op = require_text_param(params, "operation", "Missing operation parameter")?;
        let o = op.as_str();
        if str_eq(o, "read") {
            Ok(ClipboardOperation::Read)
        } else if str_eq(o, "write") {
            let text = require_text_param(params, "text", "Missing text parameter for write")?;
            Ok(ClipboardOperation::Write { text })
        } else if str_eq(o, "clear") {
            Ok(ClipboardOperation::Clear)
        } else {
            Err(Error::Internal(concat("Unknown operation: ", o)))
        }
    }

    /// The result of reading or writing `text` (`written` marks a write):
    /// its byte length, the text, and for a write the flag.
    pub fn text_result(text: &str, written: bool) -> (r: ToolResult)
        ensures
            r.success && r.error is None,
            r.output matches JsonValue::Object(f)
                && f@.len() == (if written { 3int } else { 2int })
                && f@[0].0@ == "length"@ && number_is(f@[0].1, utf8_len(text@))
                && f@[1].0@ == "text"@ && is_text(f@[1].1, text@)
                && (written ==> f@[2].0@ == "written"@ && f@[2].1 == JsonValue::Bool(true)),
    {
        let mut f: Vec<(String, JsonValue)> = Vec::new();
        f.push((owned("length"), JsonValue::Number(usize_text(byte_len(text)))));
        f.push((owned("text"), JsonValue::String(owned(text))));
        if written {
            f.push((owned("written"), JsonValue::Bool(true)));
        }
        ToolResult::success(JsonValue::Object(f))
    }

    /// The result of clearing the clipboard.
    pub fn cleared_result() -> (r: ToolResult)
        ensures
            r.success && r.error is None,
            r.output matches JsonValue::Object(f) && f@.len() == 1
                && f@[0].0@ == "cleared"@ && f@[0].1 == JsonValue::Bool(true),
    {
        let mut f: Vec<(String, JsonValue)> = Vec::new();
        f.push((owned("cleared"), JsonValue::Bool(true)));
        ToolResult::success(JsonValue::Object(f))
    }
}

} // verus!

//! The PDF tool: how a call is read, and the result it reports of the text
//! that `pdf_extract` reads from a document and of the page count and
//! information fields that `lopdf` reads. Both crates run on the caller's
//! side: on malformed input they may panic or not return, which no
//! precondition here could rule out.

use vstd::prelude::*;
use vstd::utf8::{decode_utf8, valid_utf8};
use crate::engine::executor::is_text;
use crate::error::Error;
use crate::json::JsonValue;
use crate::tools::types::{ParameterType, ToolParameter, ToolParams, ToolResult, declares, require_text_param, text_param};
use crate::tools::web_scraper::number_is;
use crate::text::{byte_len, concat, owned, str_eq, usize_text, utf8_len};

verus! {

/// The entries of an information dictionary as plain values.
pub open spec fn entry_views(entries: Seq<(Vec<u8>, Option<String>)>) -> Seq<(Seq<u8>, Option<Seq<char>>)> {
    entries.map_values(|e: (Vec<u8>, Option<String>)| (e.0@, match e.1 {
        Some(t) => Some(t@),
        None => None,
    }))
}

/// `std::str::from_utf8`: the text that the bytes encode when they are valid
/// UTF-8.
#[verifier::external_body]
fn utf8_text(bytes: &[u8]) -> (r: Option<String>)
    ensures
        match r {
            Some(t) => valid_utf8(bytes@) && t@ == decode_utf8(bytes@),
            None => !valid_utf8(bytes@),
        },
{
    std::str::from_utf8(bytes).ok().map(|t| t.to_string())
}

/// The metadata fields of an information dictionary: the entries whose key
/// is UTF-8 text and whose value is a string, in order.
pub open spec fn info_fields(entries: Seq<(Seq<u8>, Option<Seq<char>>)>) -> Seq<(Seq<char>, Seq<char>)>
    decreases entries.len(),
{
    if entries.len() == 0 {
        Seq::empty()
    } else {
        let rest = info_fields(entries.drop_last());
        let e = entries.last();
        match e.1 {
            Some(t) => if valid_utf8(e.0) {
                rest.push((decode_utf8(e.0), t))
            } else {
                rest
            },
            None => rest,
        }
    }
}

/// `fields` are the JSON string fields `expected`, in order.
pub open spec fn text_fields_are(fields: Seq<(String, JsonValue)>, expected: Seq<(Seq<char>, Seq<char>)>) -> bool {
    fields.len() == expected.len() && forall|k: int| 0 <= k < fields.len()
        ==> (#[trigger] fields[k]).0@ == expected[k].0 && is_text(fields[k].1, expected[k].1)
}

/// What a call to the PDF tool asks for.
#[derive(Debug)]
pub enum PdfOperation {
    ExtractText { path: String },
    Metadata { path: String },
}

/// Extracts text and metadata from PDF files.
pub struct PdfParserTool;

impl PdfParserTool {
    /// A PDF tool.
    pub fn new() -> Self {
        PdfParserTool
    }

    /// The tool's name.
    pub fn name(&self) -> (s: &'static str)
        ensures
            s@ == "pdf_parser"@,
    {
        "pdf_parser"
    }

    /// What the tool does.
    pub fn description(&self) -> (s: &'static str)
        ensures
            s@ == "Extract text and metadata from PDF files"@,
    {
        "Extract text and metadata from PDF files"
    }

    /// The parameters the tool takes.
    pub fn parameters(&self) -> (ps: Vec<ToolParameter>)
        ensures
            ps@.len() == 2,
            declares(ps@[0], "operation"@, "Operation: extract_text, metadata"@, ParameterType::String, true),
            declares(ps@[1], "path"@, "Path to PDF file"@, ParameterType::String, true),
    {
        let mut ps: Vec<ToolParameter> = Vec::new();
        ps.push(ToolParameter::new("operation", "Operation: extract_text, metadata", ParameterType::String, true));
        ps.push(ToolParameter::new("path", "Path to PDF file", ParameterType::String, true));
        ps
    }

    /// The operation that a call asks for.
    pub fn plan(params: &ToolParams) -> (r: Result<PdfOperation, Error>)
        ensures
            match text_param(*params, "operation"@) {
                None => r matches Err(Error::Internal(m)) && m@ == "Missing operation parameter"@,
                Some(o) => match text_param(*params, "path"@) {
                    None => r matches Err(Error::Internal(m)) && m@ == "Missing path parameter"@,
                    Some(p) => if o == "extract_text"@ {
                        r matches Ok(PdfOperation::ExtractText { path }) && path@ == p
                    } else if o == "metadata"@ {
                        r matches Ok(PdfOperation::Metadata { path }) && path@ == p
                    } else {
                        r matches Err(Error::Internal(m)) && m@ == "Unknown operation: "@ + o
                    },
                },
            },
    {
        let op = require_text_param(params, "operation", "Missing operation parameter")?;
        let path = require_text_param(params, "path", "Missing path parameter")?;
        let o = op.as_str();
        if str_eq(o, "extract_text") {
            Ok(PdfOperation::ExtractText { path })
        } else if str_eq(o, "metadata") {
            Ok(PdfOperation::Metadata { path })
        } else {
            Err(Error::Internal(concat("Unknown operation: ", o)))
        }
    }

    /// The result for the text of the PDF document at `path`, given what
    /// `pdf_extract::extract_text_from_mem` gave on its bytes: the text's
    /// byte length, the path and the text; or the error, with its message.
    pub fn text_result(path: &str, text: Result<String, String>) -> (r: Result<ToolResult, Error>)
        ensures
            match text {
                Ok(t) => r matches Ok(res) && res.success && res.error is None
                    && (res.output matches JsonValue::Object(f) && f@.len() == 3
                        && f@[0].0@ == "length"@ && number_is(f@[0].1, utf8_len(t@))
                        && f@[1].0@ == "path"@ && is_text(f@[1].1, path@)
                        && f@[2].0@ == "text"@ && is_text(f@[2].1, t@)),
                Err(e) => r matches Err(Error::Internal(m))
                    && m@ == "Failed to extract text from PDF: "@ + e@,
            },
    {
        let text = match text {
            Ok(t) => t,
            Err(e) => return Err(Error::Internal(concat("Failed to extract text from PDF: ", e.as_str()))),
        };
        let mut f: Vec<(String, JsonValue)> = Vec::new();
        f.push((owned("length"), JsonValue::Number(usize_text(byte_len(text.as_str())))));
        f.push((owned("path"), JsonValue::String(owned(path))));
        f.push((owned("text"), JsonValue::String(text)));
        Ok(ToolResult::success(JsonValue::Object(f)))
    }

    /// The result for the metadata of the PDF document at `path`, given what
    /// `lopdf` read from its bytes: the page count (`get_pages`) and the
    /// entries of the `Info` dictionary in order, each key with the value's
    /// text when `as_string` reads one; or the message of the error of
    /// `Document::load_mem`. The result holds the entries whose key is UTF-8
    /// text and whose value is a string, the page count and the path.
    pub fn metadata_result(path: &str, outline: Result<(usize, Vec<(Vec<u8>, Option<String>)>), String>) -> (r: Result<ToolResult, Error>)
        ensures
            match outline {
                Ok(o) => r matches Ok(res) && res.success && res.error is None
                    && (res.output matches JsonValue::Object(f) && f@.len() == 3
                        && f@[0].0@ == "metadata"@ && (f@[0].1 matches JsonValue::Object(g)
                            && text_fields_are(g@, info_fields(entry_views(o.1@))))
                        && f@[1].0@ == "page_count"@ && number_is(f@[1].1, o.0 as nat)
                        && f@[2].0@ == "path"@ && is_text(f@[2].1, path@)),
                Err(e) => r matches Err(Error::Internal(m)) && m@ == "Failed to parse PDF: "@ + e@,
            },
    {
        let (pages, entries) = match outline {
            Ok(o) => o,
            Err(e) => return Err(Error::Internal(concat("Failed to parse PDF: ", e.as_str()))),
        };
        let ghost ev = entry_views(entries@);
        let mut fields: Vec<(String, JsonValue)> = Vec::new();
        let mut i: usize = 0;
        while i < entries.len()
            invariant
                ev == entry_views(entries@),
                i <= entries@.len(),
                text_fields_are(fields@, info_fields(ev.take(i as int))),
            decreases entries@.len() - i,
        {
            let entry = &entries[i];
            assert(ev.take(i + 1).drop_last() =~= ev.take(i as int));
            assert(ev.take(i + 1).last() == ev[i as int]);
            let ghost before = fields@;
            match &entry.1 {
                Some(t) => {
                    match utf8_text(entry.0.as_slice()) {
                        Some(k) => {
                            fields.push((k, JsonValue::String(t.clone())));
                            assert(fields@.drop_last() == before);
                            assert forall|q: int| 0 <= q < fields@.len() implies
                                (#[trigger] fields@[q]).0@ == info_fields(ev.take(i + 1))[q].0
                                && is_text(fields@[q].1, info_fields(ev.take(i + 1))[q].1) by {
                                if q < before.len() {
                                    assert(fields@[q] == before[q]);
                                }
                            }
                        },
                        None => {},
                    }
                },
                None => {},
            }
            i = i + 1;
        }
        assert(ev.take(i as int) =~= ev);
        let mut f: Vec<(String, JsonValue)> = Vec::new();
        f.push((owned("metadata"), JsonValue::Object(fields)));
        f.push((owned("page_count"), JsonValue::Number(usize_text(pages))));
        f.push((owned("path"), JsonValue::String(owned(path))));
        Ok(ToolResult::success(JsonValue::Object(f)))
    }
}

impl Default for PdfParserTool {
    fn default() -> Self {
        Self::new()
    }
}

} // verus!

//! The file system tool: which operation a call asks for, which paths it may
//! touch, and the results it reports.

use vstd::prelude::*;
use crate::engine::executor::is_text;
use crate::error::Error;
use crate::json::JsonValue;
use crate::security::isolation::{check_within, path_debug, path_debug_text, within_some};
use crate::tools::types::{ParameterType, ToolParameter, ToolParams, ToolResult, declares, get_text_param,
    require_text_param, text_array, text_param};
use crate::text::{chars_of, concat, decimal, owned, str_eq, usize_text};

verus! {

/// An operation on the file system that a call asks for.
#[derive(Debug)]
pub enum FsOperation {
    Read { path: String },
    Write { path: String, content: String },
    List { path: String },
    Delete { path: String },
    Mkdir { path: String },
    Search { path: String, pattern: String },
}

/// The operation that the parameters ask for, or the error for them.
pub open spec fn fs_plan(params: ToolParams) -> Result<(Seq<char>, Seq<char>), Seq<char>> {
    match text_param(params, "operation"@) {
        None => Err("Missing operation parameter"@),
        Some(op) => match text_param(params, "path"@) {
            None => Err("Missing path parameter"@),
            Some(path) => if op == "read"@ || op == "list"@ || op == "delete"@ || op == "mkdir"@ {
                Ok((op, path))
            } else if op == "write"@ {
                if text_param(params, "content"@) is Some { Ok((op, path)) } else { Err("Missing content parameter for write"@) }
            } else if op == "search"@ {
                if text_param(params, "pattern"@) is Some { Ok((op, path)) } else { Err("Missing pattern parameter for search"@) }
            } else {
                Err("Unknown operation: "@ + op)
            },
        },
    }
}

/// `op` is the operation named `name` on `path`, with the extra text
/// parameters it needs.
pub open spec fn fs_operation_is(op: FsOperation, name: Seq<char>, path: Seq<char>, params: ToolParams) -> bool {
    match op {
        FsOperation::Read { path: p } => name == "read"@ && p@ == path,
        FsOperation::List { path: p } => name == "list"@ && p@ == path,
        FsOperation::Delete { path: p } => name == "delete"@ && p@ == path,
        FsOperation::Mkdir { path: p } => name == "mkdir"@ && p@ == path,
        FsOperation::Write { path: p, content } => name == "write"@ && p@ == path
            && text_param(params, "content"@) == Some(content@),
        FsOperation::Search { path: p, pattern } => name == "search"@ && p@ == path
            && text_param(params, "pattern"@) == Some(pattern@),
    }
}

/// Whether `pattern` occurs in `name`.
pub open spec fn contains_text(name: Seq<char>, pattern: Seq<char>) -> bool {
    exists|i: int| 0 <= i && i + pattern.len() <= name.len() && #[trigger] name.subrange(i, i + pattern.len()) == pattern
}

/// Whether `pattern` occurs in `name` (what the search keeps).
pub fn name_contains(name: &str, pattern: &str) -> (r: bool)
    ensures
        r == contains_text(name@, pattern@),
{
    let n = chars_of(name);
    let p = chars_of(pattern);
    if p.len() > n.len() {
        return false;
    }
    let mut i: usize = 0;
    let nl = n.len();
    let last = nl - p.len();
    while i <= last
        invariant
            nl == n@.len(),
            last == n@.len() - p@.len(),
            n@ == name@,
            p@ == pattern@,
            p@.len() <= n@.len(),
            i <= n@.len() - p@.len() + 1,
            forall|j: int| 0 <= j < i ==> #[trigger] n@.subrange(j, j + p@.len()) != p@,
        decreases n@.len() - i,
    {
        let mut k: usize = 0;
        let mut same = true;
        while k < p.len()
            invariant
                n@ == name@,
                p@ == pattern@,
                nl == n@.len(),
                i + p@.len() <= n@.len(),
                k <= p@.len(),
                same == forall|q: int| 0 <= q < k ==> n@[i + q] == p@[q],
            decreases p@.len() - k,
        {
            if n[i + k] != p[k] {
                same = false;
            }
            k = k + 1;
        }
        if same {
            assert(n@.subrange(i as int, i + p@.len()) =~= p@);
            return true;
        }
        assert(n@.subrange(i as int, i + p@.len()) != p@) by {
            let q = choose|q: int| 0 <= q < p@.len() && n@[i + q] != p@[q];
            assert(n@.subrange(i as int, i + p@.len())[q] == n@[i + q]);
        }
        i = i + 1;
    }
    false
}

/// Reads, writes, lists, searches and deletes files, within the allowed
/// directories (all, when none are given).
pub struct FileSystemTool {
    allowed_paths: Vec<String>,
}

impl FileSystemTool {
    /// The directories this tool may touch (empty: any).
    pub closed spec fn allowed(&self) -> Seq<String> {
        self.allowed_paths@
    }

    /// A tool limited to the given directories.
    pub fn new(allowed_paths: Vec<String>) -> (t: Self)
        ensures
            t.allowed() == allowed_paths@,
    {
        FileSystemTool { allowed_paths }
    }

    /// A tool that may touch any path.
    pub fn unrestricted() -> (t: Self)
        ensures
            t.allowed().len() == 0,
    {
        FileSystemTool { allowed_paths: Vec::new() }
    }

    /// The directories this tool may touch.
    pub fn allowed_paths(&self) -> (r: &Vec<String>)
        ensures
            r@ == self.allowed(),
    {
        &self.allowed_paths
    }

    /// The tool's name.
    pub fn name(&self) -> (s: &'static str)
        ensures
            s@ == "file_system"@,
    {
        "file_system"
    }

    /// What the tool does.
    pub fn description(&self) -> (s: &'static str)
        ensures
            s@ == "Read, write, list, search, delete files and directories"@,
    {
        "Read, write, list, search, delete files and directories"
    }

    /// The parameters the tool takes.
    pub fn parameters(&self) -> (ps: Vec<ToolParameter>)
        ensures
            ps@.len() == 4,
            declares(ps@[0], "operation"@, "Operation: read, write, list, search, delete, mkdir"@, ParameterType::String, true),
            declares(ps@[1], "path"@, "File or directory path"@, ParameterType::String, true),
            declares(ps@[2], "content"@, "Content to write (for write operation)"@, ParameterType::String, false),
            declares(ps@[3], "pattern"@, "Search pattern (for search operation)"@, ParameterType::String, false),
    {
        let mut ps: Vec<ToolParameter> = Vec::new();
        ps.push(ToolParameter::new("operation", "Operation: read, write, list, search, delete, mkdir", ParameterType::String, true));
        ps.push(ToolParameter::new("path", "File or directory path", ParameterType::String, true));
        ps.push(ToolParameter::new("content", "Content to write (for write operation)", ParameterType::String, false));
        ps.push(ToolParameter::new("pattern", "Search pattern (for search operation)", ParameterType::String, false));
        ps
    }

    /// The operation that a call asks for (see `fs_plan`).
    pub fn plan(params: &ToolParams) -> (r: Result<FsOperation, Error>)
        ensures
            match fs_plan(*params) {
                Ok(p) => r matches Ok(op) && fs_operation_is(op, p.0, p.1, *params),
                Err(m) => r matches Err(Error::Internal(e)) && e@ == m,
            },
    {
        proof {
            reveal_strlit("read");
            reveal_strlit("write");
            reveal_strlit("list");
            reveal_strlit("delete");
            reveal_strlit("mkdir");
            reveal_strlit("search");
            assert("read"@[0] == 'r' && "write"@[0] == 'w' && "list"@[0] == 'l');
            assert("delete"@[0] == 'd' && "mkdir"@[0] == 'm' && "search"@[0] == 's');
        }
        let op = require_text_param(params, "operation", "Missing operation parameter")?;
        let path = require_text_param(params, "path", "Missing path parameter")?;
        let o = op.as_str();
        if str_eq(o, "read") {
            Ok(FsOperation::Read { path })
        } else if str_eq(o, "write") {
            let content = require_text_param(params, "content", "Missing content parameter for write")?;
            Ok(FsOperation::Write { path, content })
        } else if str_eq(o, "list") {
            Ok(FsOperation::List { path })
        } else if str_eq(o, "delete") {
            Ok(FsOperation::Delete { path })
        } else if str_eq(o, "mkdir") {
            Ok(FsOperation::Mkdir { path })
        } else if str_eq(o, "search") {
            let pattern = require_text_param(params, "pattern", "Missing pattern parameter for search")?;
            Ok(FsOperation::Search { path, pattern })
        } else {
            Err(Error::Internal(concat("Unknown operation: ", o)))
        }
    }

    /// Checks that `path` lies within an allowed directory. The caller
    /// resolves the paths: `canonical_path` is `path` resolved (or the
    /// system's message), and `canonical_allowed` holds each allowed
    /// directory resolved (`None` where it could not be).
    pub fn validate_path(
        &self,
        path: &str,
        canonical_path: Result<String, String>,
        canonical_allowed: &Vec<Option<String>>,
    ) -> (r: Result<(), Error>)
        ensures
            self.allowed().len() == 0 ==> r is Ok,
            self.allowed().len() > 0 ==> match canonical_path {
                Err(m) => r matches Err(Error::Internal(e)) && e@ == "Failed to canonicalize path: "@ + m@,
                Ok(c) => match r {
                    Ok(_) => within_some(c@, canonical_allowed@),
                    Err(e) => !within_some(c@, canonical_allowed@) && (e matches Error::Internal(m)
                        && m@ == "Access denied: path "@ + path_debug_text(path@) + " is outside allowed paths"@),
                },
            },
    {
        if self.allowed_paths.len() == 0 {
            return Ok(());
        }
        match canonical_path {
            Err(m) => Err(Error::Internal(concat("Failed to canonicalize path: ", m.as_str()))),
            Ok(c) => {
                let a = concat("Access denied: path ", path_debug(path).as_str());
                let denial = concat(a.as_str(), " is outside allowed paths");
                check_within(c.as_str(), canonical_allowed, denial)
            },
        }
    }

    /// The result of reading a file.
    pub fn read_result(path: &str, content: String) -> (r: ToolResult)
        ensures
            r.success && r.error is None,
            r.output matches JsonValue::Object(f) && f@.len() == 2
                && f@[0].0@ == "content"@ && is_text(f@[0].1, content@)
                && f@[1].0@ == "path"@ && is_text(f@[1].1, path@),
    {
        let mut f: Vec<(String, JsonValue)> = Vec::new();
        f.push((owned("content"), JsonValue::String(content)));
        f.push((owned("path"), JsonValue::String(owned(path))));
        ToolResult::success(JsonValue::Object(f))
    }

    /// The result of writing `bytes_written` bytes to a file.
    pub fn write_result(path: &str, bytes_written: usize) -> (r: ToolResult)
        ensures
            r.success && r.error is None,
            r.output matches JsonValue::Object(f) && f@.len() == 2
                && f@[0].0@ == "bytes_written"@ && (f@[0].1 matches JsonValue::Number(n) && n@ == decimal(bytes_written as nat))
                && f@[1].0@ == "path"@ && is_text(f@[1].1, path@),
    {
        let mut f: Vec<(String, JsonValue)> = Vec::new();
        f.push((owned("bytes_written"), JsonValue::Number(usize_text(bytes_written))));
        f.push((owned("path"), JsonValue::String(owned(path))));
        ToolResult::success(JsonValue::Object(f))
    }

    /// The result of listing a directory.
    pub fn list_result(path: &str, files: &Vec<String>, directories: &Vec<String>) -> (r: ToolResult)
        ensures
            r.success && r.error is None,
            r.output matches JsonValue::Object(f) && f@.len() == 3
                && f@[0].0@ == "directories"@ && (f@[0].1 matches JsonValue::Array(a) && a@.len() == directories@.len()
                    && forall|k: int| 0 <= k < a@.len() ==> is_text(#[trigger] a@[k], directories@[k]@))
                && f@[1].0@ == "files"@ && (f@[1].1 matches JsonValue::Array(a) && a@.len() == files@.len()
                    && forall|k: int| 0 <= k < a@.len() ==> is_text(#[trigger] a@[k], files@[k]@))
                && f@[2].0@ == "path"@ && is_text(f@[2].1, path@),
    {
        let mut f: Vec<(String, JsonValue)> = Vec::new();
        f.push((owned("directories"), text_array(directories)));
        f.push((owned("files"), text_array(files)));
        f.push((owned("path"), JsonValue::String(owned(path))));
        ToolResult::success(JsonValue::Object(f))
    }

    /// The result of an operation that reports a flag on a path (`deleted`
    /// or `created`).
    pub fn flag_result(flag: &str, path: &str) -> (r: ToolResult)
        ensures
            r.success && r.error is None,
            r.output matches JsonValue::Object(f) && f@.len() == 2
                && f@[0].0@ == flag@ && f@[0].1 == JsonValue::Bool(true)
                && f@[1].0@ == "path"@ && is_text(f@[1].1, path@),
    {
        let mut f: Vec<(String, JsonValue)> = Vec::new();
        f.push((owned(flag), JsonValue::Bool(true)));
        f.push((owned("path"), JsonValue::String(owned(path))));
        ToolResult::success(JsonValue::Object(f))
    }

    /// The result of a search.
    pub fn search_result(pattern: &str, matches: &Vec<String>) -> (r: ToolResult)
        ensures
            r.success && r.error is None,
            r.output matches JsonValue::Object(f) && f@.len() == 2
                && f@[0].0@ == "matches"@ && (f@[0].1 matches JsonValue::Array(a) && a@.len() == matches@.len()
                    && forall|k: int| 0 <= k < a@.len() ==> is_text(#[trigger] a@[k], matches@[k]@))
                && f@[1].0@ == "pattern"@ && is_text(f@[1].1, pattern@),
    {
        let mut f: Vec<(String, JsonValue)> = Vec::new();
        f.push((owned("matches"), text_array(matches)));
        f.push((owned("pattern"), JsonValue::String(owned(pattern))));
        ToolResult::success(JsonValue::Object(f))
    }
}

} // verus!

//! The shell tool: which commands it may run, how a call is read, and the
//! result it reports.

use vstd::prelude::*;
use std::time::Duration;
use crate::engine::executor::is_text;
use crate::error::Error;
use crate::json::JsonValue;
use crate::tools::types::{ParameterType, ToolParameter, ToolParams, ToolResult, declares, get_text_param,
    require_text_param, text_param};
use crate::text::{chars_of, concat, decimal, owned, str_eq, string_of_chars, u64_text};
use crate::time::{duration_from_secs, whole_secs};

verus! {

/// Whether `c` has the Unicode White_Space property, as `char::is_whitespace`
/// decides: U+0009 to U+000D, U+0020, U+0085, U+00A0, U+1680, U+2000 to
/// U+200A, U+2028, U+2029, U+202F, U+205F and U+3000.
pub open spec fn white_space(c: char) -> bool {
    ('\u{9}' <= c && c <= '\u{d}') || c == ' ' || c == '\u{85}' || c == '\u{a0}' || c == '\u{1680}'
        || ('\u{2000}' <= c && c <= '\u{200a}') || c == '\u{2028}' || c == '\u{2029}' || c == '\u{202f}'
        || c == '\u{205f}' || c == '\u{3000}'
}

/// Whether `c` is white space (see `white_space`).
fn is_white_space(c: char) -> (r: bool)
    ensures
        r == white_space(c),
{
    ('\u{9}' <= c && c <= '\u{d}') || c == ' ' || c == '\u{85}' || c == '\u{a0}' || c == '\u{1680}'
        || ('\u{2000}' <= c && c <= '\u{200a}') || c == '\u{2028}' || c == '\u{2029}' || c == '\u{202f}'
        || c == '\u{205f}' || c == '\u{3000}'
}

/// The first position at or after `i` that is not white space.
pub open spec fn skip_white(s: Seq<char>, i: int) -> int
    decreases s.len() - i,
{
    if i < 0 || i >= s.len() || !white_space(s[i]) {
        i
    } else {
        skip_white(s, i + 1)
    }
}

/// The first position at or after `i` that is white space (or the end).
pub open spec fn word_end(s: Seq<char>, i: int) -> int
    decreases s.len() - i,
{
    if i < 0 || i >= s.len() || white_space(s[i]) {
        i
    } else {
        word_end(s, i + 1)
    }
}

/// The first word of `s`, as `split_whitespace().next()` gives it (empty
/// when `s` holds only white space).
pub open spec fn first_word(s: Seq<char>) -> Seq<char> {
    s.subrange(skip_white(s, 0), word_end(s, skip_white(s, 0)))
}

proof fn lemma_skip_white_bounds(s: Seq<char>, i: int)
    requires
        0 <= i <= s.len(),
    ensures
        i <= skip_white(s, i) <= s.len(),
    decreases s.len() - i,
{
    if i < s.len() && white_space(s[i]) {
        lemma_skip_white_bounds(s, i + 1);
    }
}

proof fn lemma_word_end_bounds(s: Seq<char>, i: int)
    requires
        0 <= i <= s.len(),
    ensures
        i <= word_end(s, i) <= s.len(),
    decreases s.len() - i,
{
    if i < s.len() && !white_space(s[i]) {
        lemma_word_end_bounds(s, i + 1);
    }
}

/// Whether `c` lets a shell run more than one program or feed one into
/// another: `;`, `&`, `|`, a backquote, `$`, `<`, `>`, a parenthesis or a
/// line break.
pub open spec fn shell_control(c: char) -> bool {
    c == ';' || c == '&' || c == '|' || c == '`' || c == '$' || c == '<' || c == '>' || c == '('
        || c == ')' || c == '\n' || c == '\r'
}

/// Whether some character of `s` is a shell control character.
pub open spec fn has_shell_control(s: Seq<char>) -> bool {
    exists|i: int| 0 <= i < s.len() && shell_control(#[trigger] s[i])
}

/// Whether `command` holds a shell control character.
pub fn contains_shell_control(command: &str) -> (r: bool)
    ensures
        r == has_shell_control(command@),
{
    let cs = chars_of(command);
    let mut i: usize = 0;
    while i < cs.len()
        invariant
            cs@ == command@,
            i <= cs@.len(),
            forall|j: int| 0 <= j < i ==> !shell_control(#[trigger] cs@[j]),
        decreases cs@.len() - i,
    {
        let c = cs[i];
        if c == ';' || c == '&' || c == '|' || c == '`' || c == '$' || c == '<' || c == '>' || c == '('
            || c == ')' || c == '\n' || c == '\r' {
            assert(shell_control(cs@[i as int]));
            return true;
        }
        i = i + 1;
    }
    false
}

/// The first word of a command (see `first_word`).
pub fn command_name(command: &str) -> (r: String)
    ensures
        r@ == first_word(command@),
{
    let cs = chars_of(command);
    let n = cs.len();
    let mut i: usize = 0;
    proof {
        lemma_skip_white_bounds(cs@, 0);
    }
    while i < n && is_white_space(cs[i])
        invariant
            n == cs@.len(),
            cs@ == command@,
            i <= skip_white(cs@, 0),
            skip_white(cs@, i as int) == skip_white(cs@, 0),
            skip_white(cs@, 0) <= n,
        decreases n - i,
    {
        proof {
            lemma_skip_white_bounds(cs@, i + 1);
        }
        i = i + 1;
    }
    let start = i;
    proof {
        lemma_word_end_bounds(cs@, start as int);
    }
    let mut j: usize = start;
    while j < n && !is_white_space(cs[j])
        invariant
            n == cs@.len(),
            cs@ == command@,
            start == skip_white(cs@, 0),
            start <= j <= word_end(cs@, start as int),
            word_end(cs@, j as int) == word_end(cs@, start as int),
            word_end(cs@, start as int) <= n,
        decreases n - j,
    {
        proof {
            lemma_word_end_bounds(cs@, j + 1);
        }
        j = j + 1;
    }
    let mut word: Vec<char> = Vec::new();
    let mut k: usize = start;
    while k < j
        invariant
            start <= k <= j <= n,
            n == cs@.len(),
            word@ == cs@.subrange(start as int, k as int),
        decreases j - k,
    {
        word.push(cs[k]);
        k = k + 1;
        assert(word@ =~= cs@.subrange(start as int, k as int));
    }
    string_of_chars(word.as_slice())
}

/// The shell command (and working directory) that a call asks for.
#[derive(Debug)]
pub struct ShellCall {
    pub command: String,
    pub working_dir: Option<String>,
}

/// Runs shell commands, limited to the allowed command names (all, when
/// none are given), with a timeout.
pub struct ShellExecutorTool {
    allowed_commands: Vec<String>,
    timeout: Duration,
}

impl ShellExecutorTool {
    /// The command names this tool may run (empty: any).
    pub closed spec fn allowed(&self) -> Seq<String> {
        self.allowed_commands@
    }

    /// The time a command may take.
    pub closed spec fn time_limit(&self) -> Duration {
        self.timeout
    }

    /// A tool limited to the given command names.
    pub fn new(allowed_commands: Vec<String>, timeout: Duration) -> (t: Self)
        ensures
            t.allowed() == allowed_commands@,
            t.time_limit() == timeout,
    {
        ShellExecutorTool { allowed_commands, timeout }
    }

    /// A tool that may run any command.
    pub fn unrestricted(timeout: Duration) -> (t: Self)
        ensures
            t.allowed().len() == 0,
            t.time_limit() == timeout,
    {
        ShellExecutorTool { allowed_commands: Vec::new(), timeout }
    }

    /// The time a command may take.
    pub fn timeout(&self) -> (d: &Duration)
        ensures
            *d == self.time_limit(),
    {
        &self.timeout
    }

    /// The tool's name.
    pub fn name(&self) -> (s: &'static str)
        ensures
            s@ == "shell_executor"@,
    {
        "shell_executor"
    }

    /// What the tool does.
    pub fn description(&self) -> (s: &'static str)
        ensures
            s@ == "Execute shell commands with optional working directory"@,
    {
        "Execute shell commands with optional working directory"
    }

    /// The parameters the tool takes.
    pub fn parameters(&self) -> (ps: Vec<ToolParameter>)
        ensures
            ps@.len() == 2,
            declares(ps@[0], "command"@, "Shell command to execute"@, ParameterType::String, true),
            declares(ps@[1], "working_dir"@, "Working directory (optional)"@, ParameterType::String, false),
    {
        let mut ps: Vec<ToolParameter> = Vec::new();
        ps.push(ToolParameter::new("command", "Shell command to execute", ParameterType::String, true));
        ps.push(ToolParameter::new("working_dir", "Working directory (optional)", ParameterType::String, false));
        ps
    }

    /// `Ok` when no command names are given; otherwise `Ok` only when the
    /// first word of `command` is one of them and the text holds no shell
    /// control character, so that no other program can run through it.
    pub fn validate_command(&self, command: &str) -> (r: Result<(), Error>)
        ensures
            self.allowed().len() == 0 ==> r is Ok,
            self.allowed().len() > 0 ==> match r {
                Ok(_) => (exists|i: int| 0 <= i < self.allowed().len() && (#[trigger] self.allowed()[i])@ == first_word(command@))
                    && !has_shell_control(command@),
                Err(e) => if forall|i: int| 0 <= i < self.allowed().len() ==> (#[trigger] self.allowed()[i])@ != first_word(command@) {
                    e matches Error::Internal(m) && m@ == "Command '"@ + first_word(command@) + "' is not in allowed list"@
                } else {
                    has_shell_control(command@)
                        && (e matches Error::Internal(m) && m@ == "Command contains shell control characters"@)
                },
            },
    {
        if self.allowed_commands.len() == 0 {
            return Ok(());
        }
        let name = command_name(command);
        let mut i: usize = 0;
        while i < self.allowed_commands.len()
            invariant
                i <= self.allowed_commands@.len(),
                name@ == first_word(command@),
                forall|j: int| 0 <= j < i ==> (#[trigger] self.allowed_commands@[j])@ != name@,
            decreases self.allowed_commands@.len() - i,
        {
            if str_eq(name.as_str(), self.allowed_commands[i].as_str()) {
                if contains_shell_control(command) {
                    return Err(Error::Internal(owned("Command contains shell control characters")));
                }
                return Ok(());
            }
            i = i + 1;
        }
        let a = concat("Command '", name.as_str());
        Err(Error::Internal(concat(a.as_str(), "' is not in allowed list")))
    }

    /// The command a call asks for, or the error when it names none.
    pub fn plan(params: &ToolParams) -> (r: Result<ShellCall, Error>)
        ensures
            match text_param(*params, "command"@) {
                Some(c) => r matches Ok(call) && call.command@ == c
                    && match text_param(*params, "working_dir"@) {
                        Some(d) => call.working_dir matches Some(w) && w@ == d,
                        None => call.working_dir is None,
                    },
                None => r matches Err(Error::Internal(m)) && m@ == "Missing command parameter"@,
            },
    {
        let command = require_text_param(params, "command", "Missing command parameter")?;
        let working_dir = get_text_param(params, "working_dir");
        Ok(ShellCall { command, working_dir })
    }

    /// The result of running a command; a missing exit code (killed by a
    /// signal) is reported as -1.
    pub fn command_result(command: &str, exit_code: Option<i32>, stdout: String, stderr: String, succeeded: bool) -> (r: ToolResult)
        ensures
            r.success && r.error is None,
            r.output matches JsonValue::Object(f) && f@.len() == 5
                && f@[0].0@ == "command"@ && is_text(f@[0].1, command@)
                && f@[1].0@ == "exit_code"@ && (f@[1].1 matches JsonValue::Number(n) && n@ == signed_decimal(
                    match exit_code { Some(c) => c as int, None => -1 }))
                && f@[2].0@ == "stderr"@ && is_text(f@[2].1, stderr@)
                && f@[3].0@ == "stdout"@ && is_text(f@[3].1, stdout@)
                && f@[4].0@ == "success"@ && f@[4].1 == JsonValue::Bool(succeeded),
    {
        let code: i32 = match exit_code {
            Some(c) => c,
            None => -1,
        };
        let mut f: Vec<(String, JsonValue)> = Vec::new();
        f.push((owned("command"), JsonValue::String(owned(command))));
        f.push((owned("exit_code"), JsonValue::Number(i32_text(code))));
        f.push((owned("stderr"), JsonValue::String(stderr)));
        f.push((owned("stdout"), JsonValue::String(stdout)));
        f.push((owned("success"), JsonValue::Bool(succeeded)));
        ToolResult::success(JsonValue::Object(f))
    }
}

impl Default for ShellExecutorTool {
    fn default() -> (t: Self)
        ensures
            t.allowed().len() == 0,
            whole_secs(t.time_limit()) == 30,
    {
        Self::unrestricted(duration_from_secs(30))
    }
}

/// Decimal text of an integer, with a leading `-` when negative.
pub open spec fn signed_decimal(n: int) -> Seq<char> {
    if n < 0 {
        "-"@ + decimal((-n) as nat)
    } else {
        decimal(n as nat)
    }
}

/// Decimal text of an `i32`, as `to_string` prints it.
pub fn i32_text(n: i32) -> (s: String)
    ensures
        s@ == signed_decimal(n as int),
{
    if n < 0 {
        let m: u64 = (-(n as i64)) as u64;
        concat("-", u64_text(m).as_str())
    } else {
        u64_text(n as u64)
    }
}

} // verus!

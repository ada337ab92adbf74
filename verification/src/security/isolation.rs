//! Running commands in isolation: their settings, which commands and paths
//! they may use, and what a run gives back.

use vstd::prelude::*;
use std::time::Duration;
use crate::error::Error;
use crate::text::{concat, owned, str_eq, string_views};
use crate::time::{duration_from_secs, whole_secs};

verus! {

/// Limits on an isolated process (recorded, not enforced).
#[derive(Debug, Clone, Copy, PartialEq, Eq, Structural)]
pub struct ResourceLimits {
    /// Maximum memory in bytes.
    pub max_memory: Option<u64>,
    /// Maximum CPU time in seconds.
    pub max_cpu_time: Option<u64>,
}

impl Default for ResourceLimits {
    fn default() -> (l: Self)
        ensures
            l.max_memory is None,
            l.max_cpu_time is None,
    {
        ResourceLimits { max_memory: None, max_cpu_time: None }
    }
}

/// How an isolated process is started.
#[derive(Debug)]
pub struct IsolationConfig {
    /// Working directory for the process.
    pub working_dir: Option<String>,
    /// Environment variables to set, in order.
    pub env_vars: Vec<(String, String)>,
    /// Whether to start from an empty environment.
    pub clear_env: bool,
    /// Maximum execution time.
    pub timeout: Duration,
    /// Resource limits.
    pub resource_limits: ResourceLimits,
}

impl Default for IsolationConfig {
    fn default() -> (c: Self)
        ensures
            c.working_dir is None,
            c.env_vars@.len() == 0,
            !c.clear_env,
            whole_secs(c.timeout) == 300,
            c.resource_limits == (ResourceLimits { max_memory: None, max_cpu_time: None }),
    {
        IsolationConfig {
            working_dir: None,
            env_vars: Vec::new(),
            clear_env: false,
            timeout: duration_from_secs(300),
            resource_limits: ResourceLimits::default(),
        }
    }
}

/// What an isolated run gave back.
#[derive(Debug)]
pub struct IsolationResult {
    pub stdout: String,
    pub stderr: String,
    pub exit_code: Option<i32>,
    pub timed_out: bool,
}

/// How a run of a process ended, as the operating system reported it.
#[derive(Debug)]
pub enum ProcessOutcome {
    /// The process ran to its end.
    Finished { stdout: String, stderr: String, exit_code: Option<i32> },
    /// The process could not be run; the system's message.
    Failed(String),
    /// The timeout passed first.
    TimedOut,
}

/// Whether `path` lies within `base`, as `Path::starts_with` decides it
/// (whole components only).
pub uninterp spec fn path_within(path: Seq<char>, base: Seq<char>) -> bool;

/// `Path::new(path).starts_with(base)`: named by `path_within`.
#[verifier::external_body]
fn path_starts_with(path: &str, base: &str) -> (r: bool)
    ensures
        r == path_within(path@, base@),
{
    std::path::Path::new(path).starts_with(std::path::Path::new(base))
}

/// The text that `{:?}` gives for a path.
pub uninterp spec fn path_debug_text(path: Seq<char>) -> Seq<char>;

/// `format!("{:?}", Path::new(path))`: named by `path_debug_text`.
#[verifier::external_body]
pub(crate) fn path_debug(path: &str) -> (s: String)
    ensures
        s@ == path_debug_text(path@),
{
    format!("{:?}", std::path::Path::new(path))
}

/// Some allowed directory, where it could be resolved, contains `path`.
pub open spec fn within_some(path: Seq<char>, allowed: Seq<Option<String>>) -> bool {
    exists|i: int| 0 <= i < allowed.len() && (#[trigger] allowed[i] matches Some(a) && path_within(path, a@))
}

/// Checks a resolved path against the resolved allowed directories: `Ok`
/// when one of them contains it, else the error `denial`.
pub fn check_within(canonical: &str, allowed: &Vec<Option<String>>, denial: String) -> (r: Result<(), Error>)
    ensures
        match r {
            Ok(_) => within_some(canonical@, allowed@),
            Err(e) => !within_some(canonical@, allowed@) && e == Error::Internal(denial),
        },
{
    let mut i: usize = 0;
    while i < allowed.len()
        invariant
            i <= allowed@.len(),
            forall|j: int| 0 <= j < i ==> !(#[trigger] allowed@[j] matches Some(a) && path_within(canonical@, a@)),
        decreases allowed@.len() - i,
    {
        if let Some(a) = &allowed[i] {
            if path_starts_with(canonical, a.as_str()) {
                return Ok(());
            }
        }
        i = i + 1;
    }
    Err(Error::Internal(denial))
}

/// Runs processes with a timeout and a chosen environment.
pub struct ProcessIsolation;

impl ProcessIsolation {
    /// The program and arguments that run `script` through the shell.
    pub fn shell_invocation(script: &str) -> (r: (String, Vec<String>))
        ensures
            r.0@ == "sh"@,
            string_views(r.1@) == seq!["-c"@, script@],
    {
        let mut args: Vec<String> = Vec::new();
        args.push(owned("-c"));
        args.push(owned(script));
        assert(string_views(args@) =~= seq!["-c"@, script@]);
        (owned("sh"), args)
    }

    /// What a run gives back: the output of a finished process; a failure
    /// to run, as an error; or, on timeout, no output and a note on stderr.
    pub fn outcome(run: ProcessOutcome) -> (r: Result<IsolationResult, Error>)
        ensures
            match run {
                ProcessOutcome::Finished { stdout, stderr, exit_code } => r matches Ok(x)
                    && x.stdout == stdout && x.stderr == stderr && x.exit_code == exit_code && !x.timed_out,
                ProcessOutcome::Failed(m) => r matches Err(Error::Internal(e))
                    && e@ == "Process execution failed: "@ + m@,
                ProcessOutcome::TimedOut => r matches Ok(x)
                    && x.stdout@.len() == 0 && x.stderr@ == "Process execution timed out"@
                    && x.exit_code is None && x.timed_out,
            },
    {
        match run {
            ProcessOutcome::Finished { stdout, stderr, exit_code } => Ok(IsolationResult {
                stdout,
                stderr,
                exit_code,
                timed_out: false,
            }),
            ProcessOutcome::Failed(m) => Err(Error::Internal(concat("Process execution failed: ", m.as_str()))),
            ProcessOutcome::TimedOut => Ok(IsolationResult {
                stdout: String::new(),
                stderr: owned("Process execution timed out"),
                exit_code: None,
                timed_out: true,
            }),
        }
    }

    /// `Ok` when the list is empty or holds `command` exactly.
    pub fn validate_command(command: &str, allowed_commands: &[String]) -> (r: Result<(), Error>)
        ensures
            match r {
                Ok(_) => allowed_commands@.len() == 0
                    || exists|i: int| 0 <= i < allowed_commands@.len() && (#[trigger] allowed_commands@[i])@ == command@,
                Err(e) => allowed_commands@.len() > 0
                    && (forall|i: int| 0 <= i < allowed_commands@.len() ==> (#[trigger] allowed_commands@[i])@ != command@)
                    && (e matches Error::Internal(m) && m@ == "Command '"@ + command@ + "' is not in the allowed list"@),
            },
    {
        if allowed_commands.len() == 0 {
            return Ok(());
        }
        let mut i: usize = 0;
        while i < allowed_commands.len()
            invariant
                i <= allowed_commands@.len(),
                forall|j: int| 0 <= j < i ==> (#[trigger] allowed_commands@[j])@ != command@,
            decreases allowed_commands@.len() - i,
        {
            if str_eq(allowed_commands[i].as_str(), command) {
                return Ok(());
            }
            i = i + 1;
        }
        let a = concat("Command '", command);
        Err(Error::Internal(concat(a.as_str(), "' is not in the allowed list")))
    }

    /// Checks that `path` lies within one of the allowed directories. The
    /// caller resolves the paths: `canonical_path` is `path` resolved (or
    /// the system's message why it could not be), and `canonical_allowed`
    /// holds each allowed directory resolved (`None` where it could not be).
    /// An empty list allows every path.
    pub fn validate_path(
        path: &str,
        canonical_path: Result<String, String>,
        canonical_allowed: &Vec<Option<String>>,
    ) -> (r: Result<(), Error>)
        ensures
            canonical_allowed@.len() == 0 ==> r is Ok,
            canonical_allowed@.len() > 0 ==> match canonical_path {
                Err(m) => r matches Err(Error::Internal(e)) && e@ == "Failed to canonicalize path: "@ + m@,
                Ok(c) => match r {
                    Ok(_) => within_some(c@, canonical_allowed@),
                    Err(e) => !within_some(c@, canonical_allowed@) && (e matches Error::Internal(m)
                        && m@ == "Path "@ + path_debug_text(path@) + " is outside allowed directories"@),
                },
            },
    {
        if canonical_allowed.len() == 0 {
            return Ok(());
        }
        match canonical_path {
            Err(m) => Err(Error::Internal(concat("Failed to canonicalize path: ", m.as_str()))),
            Ok(c) => {
                let a = concat("Path ", path_debug(path).as_str());
                let denial = concat(a.as_str(), " is outside allowed directories");
                check_within(c.as_str(), canonical_allowed, denial)
            },
        }
    }
}

} // verus!

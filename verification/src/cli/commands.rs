//! The command line: its commands, and how arguments are read into them.
//!
//! Grammar (after the program name):
//! `init [PATH]`, `run WORKFLOW [-i|--inputs VALUE] [-r|--resume]`,
//! `validate WORKFLOW`, `list`, `config show`, `config get KEY`,
//! `config set KEY VALUE`. An argument of two or more characters starting
//! with `-` is an option; `run` also takes `--inputs=VALUE` and `-iVALUE`.

use vstd::prelude::*;
use crate::text::{chars_of, owned, str_eq, string_of_chars, string_views};

verus! {

/// What `config` does.
#[derive(Debug)]
pub enum ConfigCommands {
    /// Show the current configuration.
    Show,
    /// Print the value of a key.
    Get { key: String },
    /// Set the value of a key.
    SetValue { key: String, value: String },
}

/// A command.
#[derive(Debug)]
pub enum Commands {
    /// Create a project (in the current directory by default).
    Init { path: Option<String> },
    /// Run a workflow file, with inputs as JSON text.
    Run { workflow: String, inputs: Option<String>, resume: bool },
    /// Check a workflow file.
    Validate { workflow: String },
    /// List the workflows of the project.
    List,
    /// Show or change the configuration.
    Config { command: ConfigCommands },
}

/// A parsed command line.
#[derive(Debug)]
pub struct Cli {
    pub command: Commands,
}

/// Why a command line was refused.
#[derive(Debug)]
pub enum CliError {
    /// No command was given.
    MissingCommand,
    /// The command is not known.
    UnknownCommand(String),
    /// A required argument is missing (named like `<WORKFLOW>`).
    MissingArgument(String),
    /// An argument is one too many.
    UnexpectedArgument(String),
    /// An option that takes a value has none.
    MissingValue(String),
    /// The option is not known here.
    UnknownOption(String),
    /// The option was given twice.
    RepeatedOption(String),
}

/// Why a command line was refused, over the texts.
pub enum CliFault {
    MissingCommand,
    UnknownCommand(Seq<char>),
    MissingArgument(Seq<char>),
    UnexpectedArgument(Seq<char>),
    MissingValue(Seq<char>),
    UnknownOption(Seq<char>),
    RepeatedOption(Seq<char>),
}

/// The fault that an error reports.
pub open spec fn fault_of(e: CliError) -> CliFault {
    match e {
        CliError::MissingCommand => CliFault::MissingCommand,
        CliError::UnknownCommand(s) => CliFault::UnknownCommand(s@),
        CliError::MissingArgument(s) => CliFault::MissingArgument(s@),
        CliError::UnexpectedArgument(s) => CliFault::UnexpectedArgument(s@),
        CliError::MissingValue(s) => CliFault::MissingValue(s@),
        CliError::UnknownOption(s) => CliFault::UnknownOption(s@),
        CliError::RepeatedOption(s) => CliFault::RepeatedOption(s@),
    }
}

/// Whether an argument is an option.
pub open spec fn is_option(t: Seq<char>) -> bool {
    t.len() >= 2 && t[0] == '-'
}

/// The positional arguments of `ts` from `i` on, added to `acc`, at most
/// `max` in all; an option, or one too many, is refused.
pub open spec fn positionals(ts: Seq<Seq<char>>, i: int, max: nat, acc: Seq<Seq<char>>) -> Result<Seq<Seq<char>>, CliFault>
    decreases ts.len() - i,
{
    if i < 0 || i >= ts.len() {
        Ok(acc)
    } else if is_option(ts[i]) {
        Err(CliFault::UnknownOption(ts[i]))
    } else if acc.len() >= max {
        Err(CliFault::UnexpectedArgument(ts[i]))
    } else {
        positionals(ts, i + 1, max, acc.push(ts[i]))
    }
}

/// What `run` has read so far: the workflow, the inputs, and the flag.
pub type RunState = (Option<Seq<char>>, Option<Seq<char>>, bool);

/// The arguments of `run` from `i` on, read into `st`.
pub open spec fn run_scan(ts: Seq<Seq<char>>, i: int, st: RunState) -> Result<RunState, CliFault>
    decreases ts.len() - i,
{
    if i < 0 || i >= ts.len() {
        Ok(st)
    } else {
        let t = ts[i];
        if t == "-r"@ || t == "--resume"@ {
            if st.2 {
                Err(CliFault::RepeatedOption("--resume"@))
            } else {
                run_scan(ts, i + 1, (st.0, st.1, true))
            }
        } else if t == "-i"@ || t == "--inputs"@ {
            if st.1 is Some {
                Err(CliFault::RepeatedOption("--inputs"@))
            } else if i + 1 >= ts.len() || is_option(ts[i + 1]) {
                Err(CliFault::MissingValue("--inputs"@))
            } else {
                run_scan(ts, i + 2, (st.0, Some(ts[i + 1]), st.2))
            }
        } else if "--inputs="@.is_prefix_of(t) || ("-i"@.is_prefix_of(t) && t.len() > 2 && t[2] != '-') {
            if st.1 is Some {
                Err(CliFault::RepeatedOption("--inputs"@))
            } else {
                let start: int = if t[1] == '-' { 9 } else { 2 };
                run_scan(ts, i + 1, (st.0, Some(t.subrange(start, t.len() as int)), st.2))
            }
        } else if is_option(t) {
            Err(CliFault::UnknownOption(t))
        } else if st.0 is Some {
            Err(CliFault::UnexpectedArgument(t))
        } else {
            run_scan(ts, i + 1, (Some(t), st.1, st.2))
        }
    }
}

/// The command that the arguments after the program name denote (`Ok` as
/// a description: its name and its texts), or the fault.
pub open spec fn command_of(ts: Seq<Seq<char>>, c: Commands) -> bool {
    match c {
        Commands::Init { path } => {
            &&& ts[0] == "init"@
            &&& positionals(ts, 1, 1, Seq::empty()) matches Ok(ps)
            &&& match path { Some(p) => ps.len() == 1 && ps[0] == p@, None => ps.len() == 0 }
        },
        Commands::Run { workflow, inputs, resume } => {
            &&& ts[0] == "run"@
            &&& run_scan(ts, 1, (None, None, false)) matches Ok(st)
            &&& st.0 == Some(workflow@)
            &&& st.1 == match inputs { Some(x) => Some(x@), None => None::<Seq<char>> }
            &&& st.2 == resume
        },
        Commands::Validate { workflow } => {
            &&& ts[0] == "validate"@
            &&& positionals(ts, 1, 1, Seq::empty()) matches Ok(ps)
            &&& ps.len() == 1 && ps[0] == workflow@
        },
        Commands::List => ts[0] == "list"@ && positionals(ts, 1, 0, Seq::empty()) is Ok,
        Commands::Config { command } => {
            &&& ts[0] == "config"@
            &&& ts.len() >= 2
            &&& match command {
                ConfigCommands::Show => ts[1] == "show"@ && positionals(ts, 2, 0, Seq::empty()) is Ok,
                ConfigCommands::Get { key } => {
                    &&& ts[1] == "get"@
                    &&& positionals(ts, 2, 1, Seq::empty()) matches Ok(ps)
                    &&& ps.len() == 1 && ps[0] == key@
                },
                ConfigCommands::SetValue { key, value } => {
                    &&& ts[1] == "set"@
                    &&& positionals(ts, 2, 2, Seq::empty()) matches Ok(ps)
                    &&& ps.len() == 2 && ps[0] == key@ && ps[1] == value@
                },
            }
        },
    }
}

/// The fault of the arguments after the program name, when they denote no
/// command.
pub open spec fn fault_in(ts: Seq<Seq<char>>) -> Option<CliFault> {
    if ts.len() == 0 {
        Some(CliFault::MissingCommand)
    } else if ts[0] == "init"@ {
        match positionals(ts, 1, 1, Seq::empty()) {
            Err(f) => Some(f),
            Ok(_) => None,
        }
    } else if ts[0] == "run"@ {
        match run_scan(ts, 1, (None, None, false)) {
            Err(f) => Some(f),
            Ok(st) => if st.0 is None { Some(CliFault::MissingArgument("<WORKFLOW>"@)) } else { None },
        }
    } else if ts[0] == "validate"@ {
        match positionals(ts, 1, 1, Seq::empty()) {
            Err(f) => Some(f),
            Ok(ps) => if ps.len() == 0 { Some(CliFault::MissingArgument("<WORKFLOW>"@)) } else { None },
        }
    } else if ts[0] == "list"@ {
        match positionals(ts, 1, 0, Seq::empty()) {
            Err(f) => Some(f),
            Ok(_) => None,
        }
    } else if ts[0] == "config"@ {
        if ts.len() < 2 {
            Some(CliFault::MissingCommand)
        } else if ts[1] == "show"@ {
            match positionals(ts, 2, 0, Seq::empty()) {
                Err(f) => Some(f),
                Ok(_) => None,
            }
        } else if ts[1] == "get"@ {
            match positionals(ts, 2, 1, Seq::empty()) {
                Err(f) => Some(f),
                Ok(ps) => if ps.len() == 0 { Some(CliFault::MissingArgument("<KEY>"@)) } else { None },
            }
        } else if ts[1] == "set"@ {
            match positionals(ts, 2, 2, Seq::empty()) {
                Err(f) => Some(f),
                Ok(ps) => if ps.len() == 0 {
                    Some(CliFault::MissingArgument("<KEY>"@))
                } else if ps.len() == 1 {
                    Some(CliFault::MissingArgument("<VALUE>"@))
                } else {
                    None
                },
            }
        } else if is_option(ts[1]) {
            Some(CliFault::UnknownOption(ts[1]))
        } else {
            Some(CliFault::UnknownCommand(ts[1]))
        }
    } else if is_option(ts[0]) {
        Some(CliFault::UnknownOption(ts[0]))
    } else {
        Some(CliFault::UnknownCommand(ts[0]))
    }
}

/// The arguments after the program name.
pub open spec fn after_program(args: Seq<Seq<char>>) -> Seq<Seq<char>> {
    if args.len() == 0 {
        Seq::empty()
    } else {
        args.subrange(1, args.len() as int)
    }
}

/// What parsing the command line `args` (the program name first) gives:
/// the command it denotes, or the error for its fault.
pub open spec fn parse_outcome(args: Seq<Seq<char>>, r: Result<Cli, CliError>) -> bool {
    let ts = after_program(args);
    match r {
        Ok(cli) => fault_in(ts) is None && command_of(ts, cli.command),
        Err(e) => fault_in(ts) == Some(fault_of(e)),
    }
}

/// `init` keeps the project directory it is given: the command line
/// `prog init p`, where `p` is no option (not two or more characters
/// starting with `-`), parses as `init` with the path `p`; `prog init`
/// alone parses as `init` with no path.
pub proof fn law_init_keeps_its_path(prog: Seq<char>, p: Seq<char>, r: Result<Cli, CliError>, r0: Result<Cli, CliError>)
    requires
        !(p.len() >= 2 && p[0] == '-'),
        parse_outcome(seq![prog, "init"@, p], r),
        parse_outcome(seq![prog, "init"@], r0),
    ensures
        r matches Ok(cli) && (cli.command matches Commands::Init { path } && path matches Some(q) && q@ == p),
        r0 matches Ok(cli) && (cli.command matches Commands::Init { path } && path is None),
{
    reveal_strlit("init");
    reveal_strlit("run");
    reveal_strlit("validate");
    reveal_strlit("list");
    reveal_strlit("config");
    let args = seq![prog, "init"@, p];
    let ts = after_program(args);
    assert(ts =~= seq!["init"@, p]);
    assert(positionals(ts, 2, 1, seq![p]) == Ok::<Seq<Seq<char>>, CliFault>(seq![p]));
    assert(positionals(ts, 1, 1, Seq::empty()) == positionals(ts, 2, 1, Seq::<Seq<char>>::empty().push(p)));
    assert(Seq::<Seq<char>>::empty().push(p) =~= seq![p]);
    assert(fault_in(ts) is None);
    let ts0 = after_program(seq![prog, "init"@]);
    assert(ts0 =~= seq!["init"@]);
    assert(positionals(ts0, 1, 1, Seq::empty()) == Ok::<Seq<Seq<char>>, CliFault>(Seq::empty()));
    assert(fault_in(ts0) is None);
    assert("init"@ != "run"@ && "init"@ != "validate"@ && "init"@ != "list"@ && "init"@ != "config"@) by {
        assert("init"@[0] == 'i' && "run"@[0] == 'r' && "validate"@[0] == 'v' && "list"@[0] == 'l' && "config"@[0] == 'c');
    }
}

/// `validate` and `run` keep the workflow they are given, and `config get`
/// and `config set` their key and value: for arguments that are no options,
/// `prog validate w` parses as `validate w`, `prog run w` as `run w` with
/// no inputs and no resume, `prog config get k` as `config get k`, and
/// `prog config set k v` as `config set k v`.
pub proof fn law_commands_keep_their_arguments(
    prog: Seq<char>,
    w: Seq<char>,
    k: Seq<char>,
    v: Seq<char>,
    rv: Result<Cli, CliError>,
    rr: Result<Cli, CliError>,
    rg: Result<Cli, CliError>,
    rs: Result<Cli, CliError>,
)
    requires
        !(w.len() >= 2 && w[0] == '-'),
        !(k.len() >= 2 && k[0] == '-'),
        !(v.len() >= 2 && v[0] == '-'),
        parse_outcome(seq![prog, "validate"@, w], rv),
        parse_outcome(seq![prog, "run"@, w], rr),
        parse_outcome(seq![prog, "config"@, "get"@, k], rg),
        parse_outcome(seq![prog, "config"@, "set"@, k, v], rs),
    ensures
        rv matches Ok(cli) && (cli.command matches Commands::Validate { workflow } && workflow@ == w),
        rr matches Ok(cli) && (cli.command matches Commands::Run { workflow, inputs, resume }
            && workflow@ == w && inputs is None && !resume),
        rg matches Ok(cli) && (cli.command matches Commands::Config { command }
            && command matches ConfigCommands::Get { key } && key@ == k),
        rs matches Ok(cli) && (cli.command matches Commands::Config { command }
            && command matches ConfigCommands::SetValue { key, value } && key@ == k && value@ == v),
{
    reveal_strlit("init");
    reveal_strlit("run");
    reveal_strlit("validate");
    reveal_strlit("list");
    reveal_strlit("config");
    reveal_strlit("show");
    reveal_strlit("get");
    reveal_strlit("set");
    reveal_strlit("-r");
    reveal_strlit("--resume");
    reveal_strlit("-i");
    reveal_strlit("--inputs");
    reveal_strlit("--inputs=");
    let distinct = "init"@ != "run"@ && "init"@ != "validate"@ && "init"@ != "list"@ && "init"@ != "config"@
        && "run"@ != "validate"@ && "run"@ != "list"@ && "run"@ != "config"@ && "validate"@ != "list"@
        && "validate"@ != "config"@ && "list"@ != "config"@ && "show"@ != "get"@ && "show"@ != "set"@ && "get"@ != "set"@;
    assert(distinct) by {
        assert("init"@[0] == 'i' && "run"@[0] == 'r' && "validate"@[0] == 'v' && "list"@[0] == 'l' && "config"@[0] == 'c');
        assert("show"@[0] == 's' && "get"@[0] == 'g' && "set"@[0] == 's' && "show"@[1] == 'h' && "set"@[1] == 'e');
    }
    // validate
    let tv = after_program(seq![prog, "validate"@, w]);
    assert(tv =~= seq!["validate"@, w]);
    assert(positionals(tv, 2, 1, seq![w]) == Ok::<Seq<Seq<char>>, CliFault>(seq![w]));
    assert(Seq::<Seq<char>>::empty().push(w) =~= seq![w]);
    assert(positionals(tv, 1, 1, Seq::empty()) == Ok::<Seq<Seq<char>>, CliFault>(seq![w]));
    assert(fault_in(tv) is None);
    // run
    let tr = after_program(seq![prog, "run"@, w]);
    assert(tr =~= seq!["run"@, w]);
    assert(w != "-r"@ && w != "--resume"@ && w != "-i"@ && w != "--inputs"@);
    assert(!"--inputs="@.is_prefix_of(w)) by {
        if "--inputs="@.is_prefix_of(w) {
            assert(w[0] == "--inputs="@[0]);
        }
    }
    assert(!("-i"@.is_prefix_of(w) && w.len() > 2 && w[2] != '-')) by {
        if "-i"@.is_prefix_of(w) && w.len() > 2 {
            assert(w[0] == "-i"@[0]);
        }
    }
    assert(run_scan(tr, 2, (Some(w), None, false)) == Ok::<RunState, CliFault>((Some(w), None, false)));
    assert(run_scan(tr, 1, (None, None, false)) == Ok::<RunState, CliFault>((Some(w), None, false)));
    assert(fault_in(tr) is None);
    // config get
    let tg = after_program(seq![prog, "config"@, "get"@, k]);
    assert(tg =~= seq!["config"@, "get"@, k]);
    assert(positionals(tg, 3, 1, seq![k]) == Ok::<Seq<Seq<char>>, CliFault>(seq![k]));
    assert(Seq::<Seq<char>>::empty().push(k) =~= seq![k]);
    assert(positionals(tg, 2, 1, Seq::empty()) == Ok::<Seq<Seq<char>>, CliFault>(seq![k]));
    assert(fault_in(tg) is None);
    // config set
    let ts = after_program(seq![prog, "config"@, "set"@, k, v]);
    assert(ts =~= seq!["config"@, "set"@, k, v]);
    assert(positionals(ts, 4, 2, seq![k, v]) == Ok::<Seq<Seq<char>>, CliFault>(seq![k, v]));
    assert(seq![k].push(v) =~= seq![k, v]);
    assert(positionals(ts, 3, 2, seq![k]) == Ok::<Seq<Seq<char>>, CliFault>(seq![k, v]));
    assert(positionals(ts, 2, 2, Seq::empty()) == Ok::<Seq<Seq<char>>, CliFault>(seq![k, v]));
    assert(fault_in(ts) is None);
}

/// Whether an argument is an option.
fn is_option_exec(t: &str) -> (r: bool)
    ensures
        r == is_option(t@),
{
    let cs = chars_of(t);
    cs.len() >= 2 && cs[0] == '-'
}

/// The characters of `t` from `start` on.
fn tail_from(t: &str, start: usize) -> (r: String)
    requires
        start <= t@.len(),
    ensures
        r@ == t@.subrange(start as int, t@.len() as int),
{
    let cs = chars_of(t);
    let mut out: Vec<char> = Vec::new();
    let mut j = start;
    while j < cs.len()
        invariant
            start <= j <= cs@.len(),
            out@ == cs@.subrange(start as int, j as int),
        decreases cs@.len() - j,
    {
        out.push(cs[j]);
        j = j + 1;
        assert(out@ =~= cs@.subrange(start as int, j as int));
    }
    string_of_chars(out.as_slice())
}

/// The positional arguments from `i` on (see `positionals`).
fn read_positionals(ts: &Vec<String>, i: usize, max: usize) -> (r: Result<Vec<String>, CliError>)
    requires
        i <= ts@.len(),
    ensures
        match positionals(string_views(ts@), i as int, max as nat, Seq::empty()) {
            Ok(ps) => r matches Ok(v) && string_views(v@) == ps && v@.len() <= max,
            Err(f) => r matches Err(e) && fault_of(e) == f,
        },
{
    let ghost views = string_views(ts@);
    let mut acc: Vec<String> = Vec::new();
    let mut k = i;
    assert(string_views(acc@) =~= Seq::<Seq<char>>::empty());
    while k < ts.len()
        invariant
            views == string_views(ts@),
            i <= k <= ts@.len(),
            acc@.len() <= max,
            positionals(views, i as int, max as nat, Seq::empty())
                == positionals(views, k as int, max as nat, string_views(acc@)),
        decreases ts@.len() - k,
    {
        let t = ts[k].as_str();
        assert(views[k as int] == t@);
        if is_option_exec(t) {
            return Err(CliError::UnknownOption(owned(t)));
        }
        if acc.len() >= max {
            return Err(CliError::UnexpectedArgument(owned(t)));
        }
        let ghost before = acc@;
        acc.push(owned(t));
        assert(string_views(acc@) =~= string_views(before).push(t@));
        k = k + 1;
    }
    Ok(acc)
}

/// The arguments of `run` (see `run_scan`).
fn read_run(ts: &Vec<String>) -> (r: Result<(Option<String>, Option<String>, bool), CliError>)
    requires
        1 <= ts@.len(),
    ensures
        match run_scan(string_views(ts@), 1, (None, None, false)) {
            Ok(st) => r matches Ok(x) && st.0 == (match x.0 { Some(w) => Some(w@), None => None::<Seq<char>> })
                && st.1 == (match x.1 { Some(v) => Some(v@), None => None::<Seq<char>> }) && st.2 == x.2,
            Err(f) => r matches Err(e) && fault_of(e) == f,
        },
{
    let ghost views = string_views(ts@);
    let mut workflow: Option<String> = None;
    let mut inputs: Option<String> = None;
    let mut resume = false;
    let mut k: usize = 1;
    while k < ts.len()
        invariant
            views == string_views(ts@),
            1 <= k <= ts@.len(),
            run_scan(views, 1, (None, None, false)) == run_scan(views, k as int, (
                match workflow { Some(w) => Some(w@), None => None::<Seq<char>> },
                match inputs { Some(v) => Some(v@), None => None::<Seq<char>> },
                resume,
            )),
        decreases ts@.len() - k,
    {
        proof {
            reveal_strlit("-r");
            reveal_strlit("--resume");
            reveal_strlit("-i");
            reveal_strlit("--inputs");
            reveal_strlit("--inputs=");
        }
        let t = ts[k].as_str();
        assert(views[k as int] == t@);
        let cs = chars_of(t);
        if str_eq(t, "-r") || str_eq(t, "--resume") {
            if resume {
                return Err(CliError::RepeatedOption(owned("--resume")));
            }
            resume = true;
            k = k + 1;
        } else if str_eq(t, "-i") || str_eq(t, "--inputs") {
            if inputs.is_some() {
                return Err(CliError::RepeatedOption(owned("--inputs")));
            }
            if k + 1 >= ts.len() {
                return Err(CliError::MissingValue(owned("--inputs")));
            }
            let v = ts[k + 1].as_str();
            assert(views[k + 1] == v@);
            if is_option_exec(v) {
                return Err(CliError::MissingValue(owned("--inputs")));
            }
            inputs = Some(owned(v));
            k = k + 2;
        } else {
            let long = cs.len() >= 9 && cs[0] == '-' && cs[1] == '-' && cs[2] == 'i' && cs[3] == 'n' && cs[4] == 'p'
                && cs[5] == 'u' && cs[6] == 't' && cs[7] == 's' && cs[8] == '=';
            let short = cs.len() > 2 && cs[0] == '-' && cs[1] == 'i' && cs[2] != '-';
            proof {
                assert(long == "--inputs="@.is_prefix_of(t@)) by {
                    if long {
                        assert("--inputs="@ =~= t@.subrange(0, 9));
                    }
                    if "--inputs="@.is_prefix_of(t@) {
                        assert(t@.subrange(0, 9)[8] == t@[8]);
                        assert(t@.subrange(0, 9)[0] == t@[0] && t@.subrange(0, 9)[1] == t@[1] && t@.subrange(0, 9)[2] == t@[2]);
                        assert(t@.subrange(0, 9)[3] == t@[3] && t@.subrange(0, 9)[4] == t@[4] && t@.subrange(0, 9)[5] == t@[5]);
                        assert(t@.subrange(0, 9)[6] == t@[6] && t@.subrange(0, 9)[7] == t@[7]);
                    }
                }
                assert(short == ("-i"@.is_prefix_of(t@) && t@.len() > 2 && t@[2] != '-')) by {
                    if short {
                        assert("-i"@ =~= t@.subrange(0, 2));
                    }
                    if "-i"@.is_prefix_of(t@) && t@.len() > 2 {
                        assert(t@.subrange(0, 2)[0] == t@[0] && t@.subrange(0, 2)[1] == t@[1]);
                    }
                }
            }
            if long || short {
                if inputs.is_some() {
                    return Err(CliError::RepeatedOption(owned("--inputs")));
                }
                let start: usize = if cs[1] == '-' { 9 } else { 2 };
                inputs = Some(tail_from(t, start));
                k = k + 1;
            } else if is_option_exec(t) {
                return Err(CliError::UnknownOption(owned(t)));
            } else if workflow.is_some() {
                return Err(CliError::UnexpectedArgument(owned(t)));
            } else {
                workflow = Some(owned(t));
                k = k + 1;
            }
        }
    }
    Ok((workflow, inputs, resume))
}

impl Cli {
    /// Reads a command line; `args[0]` is the program name (see the module
    /// documentation for the grammar).
    pub fn try_parse_from(args: &Vec<String>) -> (r: Result<Cli, CliError>)
        ensures
            parse_outcome(string_views(args@), r),
    {
        if args.len() == 0 {
            return Err(CliError::MissingCommand);
        }
        let mut ts: Vec<String> = Vec::new();
        let mut k: usize = 1;
        assert(string_views(ts@) =~= string_views(args@).subrange(1, 1));
        while k < args.len()
            invariant
                1 <= k <= args@.len(),
                string_views(ts@) == string_views(args@).subrange(1, k as int),
            decreases args@.len() - k,
        {
            let ghost before = ts@;
            let item = args[k].clone();
            ts.push(item);
            assert(ts@ =~= before.push(args@[k as int]));
            assert(string_views(ts@) =~= string_views(before).push(args@[k as int]@));
            k = k + 1;
            assert(string_views(args@).subrange(1, k as int) =~= string_views(args@).subrange(1, k - 1).push(args@[k - 1]@));
        }
        let ghost views = string_views(ts@);
        assert(views =~= after_program(string_views(args@)));
        proof {
            reveal_strlit("init");
            reveal_strlit("run");
            reveal_strlit("validate");
            reveal_strlit("list");
            reveal_strlit("config");
            reveal_strlit("show");
            reveal_strlit("get");
            reveal_strlit("set");
        }
        if ts.len() == 0 {
            return Err(CliError::MissingCommand);
        }
        let c = ts[0].as_str();
        assert(views[0] == c@);
        if str_eq(c, "init") {
            let ps = read_positionals(&ts, 1, 1)?;
            let path = if ps.len() == 0 { None } else { Some(ps[0].clone()) };
            proof {
                if ps@.len() > 0 {
                    assert(string_views(ps@)[0] == ps@[0]@);
                }
            }
            Ok(Cli { command: Commands::Init { path } })
        } else if str_eq(c, "run") {
            let (workflow, inputs, resume) = read_run(&ts)?;
            match workflow {
                Some(w) => Ok(Cli { command: Commands::Run { workflow: w, inputs, resume } }),
                None => Err(CliError::MissingArgument(owned("<WORKFLOW>"))),
            }
        } else if str_eq(c, "validate") {
            let ps = read_positionals(&ts, 1, 1)?;
            if ps.len() == 0 {
                return Err(CliError::MissingArgument(owned("<WORKFLOW>")));
            }
            assert(string_views(ps@)[0] == ps@[0]@);
            Ok(Cli { command: Commands::Validate { workflow: ps[0].clone() } })
        } else if str_eq(c, "list") {
            let _ = read_positionals(&ts, 1, 0)?;
            Ok(Cli { command: Commands::List })
        } else if str_eq(c, "config") {
            if ts.len() < 2 {
                return Err(CliError::MissingCommand);
            }
            let sub = ts[1].as_str();
            assert(views[1] == sub@);
            if str_eq(sub, "show") {
                let _ = read_positionals(&ts, 2, 0)?;
                Ok(Cli { command: Commands::Config { command: ConfigCommands::Show } })
            } else if str_eq(sub, "get") {
                let ps = read_positionals(&ts, 2, 1)?;
                if ps.len() == 0 {
                    return Err(CliError::MissingArgument(owned("<KEY>")));
                }
                assert(string_views(ps@)[0] == ps@[0]@);
                Ok(Cli { command: Commands::Config { command: ConfigCommands::Get { key: ps[0].clone() } } })
            } else if str_eq(sub, "set") {
                let ps = read_positionals(&ts, 2, 2)?;
                if ps.len() == 0 {
                    return Err(CliError::MissingArgument(owned("<KEY>")));
                }
                if ps.len() == 1 {
                    return Err(CliError::MissingArgument(owned("<VALUE>")));
                }
                assert(string_views(ps@)[0] == ps@[0]@);
                assert(string_views(ps@)[1] == ps@[1]@);
                Ok(Cli { command: Commands::Config { command: ConfigCommands::SetValue { key: ps[0].clone(), value: ps[1].clone() } } })
            } else if is_option_exec(sub) {
                Err(CliError::UnknownOption(owned(sub)))
            } else {
                Err(CliError::UnknownCommand(owned(sub)))
            }
        } else if is_option_exec(c) {
            Err(CliError::UnknownOption(owned(c)))
        } else {
            Err(CliError::UnknownCommand(owned(c)))
        }
    }
}

} // verus!

//! The child process: how its program is found, what it is started with, how it
//! is brought to an end, and what is kept of its error output.

use vstd::prelude::*;
use vstd::string::*;
use vstd::utf8::{encode_utf8, valid_utf8};

use crate::acp::opt_string;
use crate::json::opt_text;
use crate::strs::{join, joined, split, split_parts, str_eq, texts};

verus! {

/// The platform that a program is looked up on.
#[derive(Debug, Clone, Copy, PartialEq, Eq, Structural)]
pub enum Os {
    /// Programs end in `.exe`.
    Windows,
    /// Linux and macOS.
    Unix,
}

/// Why no program was found.
#[derive(Debug, Clone, PartialEq, Eq)]
pub enum ResolveError {
    /// No path was given, and no program of this name is on the search path.
    NotFound { name: String },
}

impl ResolveError {
    /// What went wrong, in words.
    pub fn describe(&self) -> (r: String)
        ensures
            r@
                == "no executable found: `claude_path` not set, `CLAUDE_CODE_EXECUTABLE` not set, and `"@
                + self->name@ + "` is not on PATH"@,
    {
        match self {
            ResolveError::NotFound { name } => {
                let mut r =
                    "no executable found: `claude_path` not set, `CLAUDE_CODE_EXECUTABLE` not set, and `".to_owned();
                r.append(name.as_str());
                r.append("` is not on PATH");
                r
            },
        }
    }
}

/// The file name of a program on a platform.
pub open spec fn binary_name(program: Seq<char>, os: Os) -> Seq<char> {
    match os {
        Os::Windows => program + ".exe"@,
        Os::Unix => program,
    }
}

/// The file name of a program on a platform.
pub fn platform_binary_name(program: &str, os: Os) -> (r: String)
    ensures
        r@ == binary_name(program@, os),
{
    let mut r = program.to_owned();
    match os {
        Os::Windows => {
            r.append(".exe");
        },
        Os::Unix => {},
    }
    r
}

/// The directories of a search path that hold the program: the parts of the
/// path that are not empty and in which it was seen.
pub open spec fn is_on_path(path: Seq<char>, present: Seq<Seq<char>>) -> bool {
    exists|i: int|
        0 <= i < split_parts(path, ':').len() && (#[trigger] split_parts(path, ':')[i]).len() > 0
            && present.contains(split_parts(path, ':')[i])
}

/// The program to start: the path that was given, the path in the environment
/// unless it is empty, or the name of the program if it is on the search path.
pub open spec fn resolved(
    claude_path: Option<Seq<char>>,
    executable_env: Option<Seq<char>>,
    path: Seq<char>,
    name: Seq<char>,
    present: Seq<Seq<char>>,
) -> Option<Seq<char>> {
    if claude_path is Some {
        claude_path
    } else if executable_env matches Some(e) && e.len() > 0 {
        executable_env
    } else if is_on_path(path, present) {
        Some(name)
    } else {
        None
    }
}

/// Finds the program to start. `present` lists the directories of the search
/// path in which a file of the program's name exists.
pub fn resolve_binary(
    claude_path: Option<&str>,
    executable_env: Option<&str>,
    path: &str,
    program: &str,
    os: Os,
    present: &Vec<String>,
) -> (r: Result<String, ResolveError>)
    ensures
        r matches Ok(p) ==> resolved(
            opt_text(claude_path),
            opt_text(executable_env),
            path@,
            binary_name(program@, os),
            texts(present@),
        ) == Some(p@),
        r matches Err(e) ==> resolved(
            opt_text(claude_path),
            opt_text(executable_env),
            path@,
            binary_name(program@, os),
            texts(present@),
        ) is None && e->name@ == binary_name(program@, os),
{
    if let Some(p) = claude_path {
        return Ok(p.to_owned());
    }
    if let Some(e) = executable_env {
        if !e.is_empty() {
            return Ok(e.to_owned());
        }
    }
    let name = platform_binary_name(program, os);
    let dirs = split(path, ':');
    let mut i: usize = 0;
    while i < dirs.len()
        invariant
            i <= dirs@.len(),
            texts(dirs@) == split_parts(path@, ':'),
            claude_path is None,
            !(opt_text(executable_env) matches Some(e) && e.len() > 0),
            name@ == binary_name(program@, os),
            forall|k: int|
                0 <= k < i ==> !((#[trigger] split_parts(path@, ':')[k]).len() > 0 && texts(
                    present@,
                ).contains(split_parts(path@, ':')[k])),
        decreases dirs@.len() - i,
    {
        proof {
            assert(split_parts(path@, ':')[i as int] == dirs@[i as int]@);
        }
        if !dirs[i].as_str().is_empty() && contains_text_in(present, dirs[i].as_str()) {
            return Ok(name);
        }
        i += 1;
    }
    proof {
        assert(split_parts(path@, ':').len() == dirs@.len());
    }
    Err(ResolveError::NotFound { name })
}

/// Whether a list holds a text.
pub fn contains_text_in(list: &Vec<String>, text: &str) -> (r: bool)
    ensures
        r == texts(list@).contains(text@),
{
    let mut i: usize = 0;
    while i < list.len()
        invariant
            i <= list@.len(),
            forall|k: int| 0 <= k < i ==> #[trigger] texts(list@)[k] != text@,
        decreases list@.len() - i,
    {
        if str_eq(list[i].as_str(), text) {
            proof {
                assert(texts(list@)[i as int] == text@);
            }
            return true;
        }
        i += 1;
    }
    false
}

/// How long to wait for the child, in milliseconds.
#[derive(Debug, Clone, Copy, PartialEq, Eq, Structural)]
pub struct Timings {
    /// After its input was closed, before it is asked to end.
    pub stdin_close_wait: u64,
    /// After it was asked to end, before it is killed.
    pub term_to_kill_wait: u64,
    /// Before a cancelled turn whose stream is stuck is given up.
    pub force_cancel_grace: u64,
    /// For the rest of its error output after it ended.
    pub stderr_drain_cap: u64,
}

/// The usual waits.
pub open spec fn usual_timings() -> Timings {
    Timings {
        stdin_close_wait: 2_000,
        term_to_kill_wait: 5_000,
        force_cancel_grace: 30_000,
        stderr_drain_cap: 200,
    }
}

impl Default for Timings {
    fn default() -> (r: Timings)
        ensures
            r == usual_timings(),
    {
        Timings {
            stdin_close_wait: 2_000,
            term_to_kill_wait: 5_000,
            force_cancel_grace: 30_000,
            stderr_drain_cap: 200,
        }
    }
}

/// What the child is started with.
#[derive(Debug, Clone, PartialEq, Eq)]
pub struct SpawnOptions {
    /// The program; without one, the environment or the search path decides.
    pub claude_path: Option<String>,
    /// Variables to add to the environment.
    pub extra_env: Vec<(String, String)>,
    /// The working directory.
    pub default_cwd: Option<String>,
    /// The id of a fresh session.
    pub session_id: Option<String>,
    /// The session to go on with.
    pub resume: Option<String>,
    /// The model.
    pub model: Option<String>,
    /// The permission mode.
    pub permission_mode: Option<String>,
    /// Where settings are read from.
    pub setting_sources: Vec<String>,
    /// The tools that must not be used.
    pub disallowed_tools: Vec<String>,
    /// The tools; without a list, the flag is left out.
    pub tools: Option<Vec<String>>,
    /// Whether messages are also sent in parts.
    pub include_partial_messages: bool,
    /// Whether permission is asked over the control channel.
    pub permission_prompt_tool: bool,
    /// Whether permission checks may be skipped.
    pub allow_dangerously_skip_permissions: bool,
    /// Whether the user's messages are sent back.
    pub replay_user_messages: bool,
}

/// How the child is started.
#[verifier::ext_equal]
pub struct SpawnSpec {
    pub claude_path: Option<Seq<char>>,
    pub extra_env: Seq<(Seq<char>, Seq<char>)>,
    pub default_cwd: Option<Seq<char>>,
    pub session_id: Option<Seq<char>>,
    pub resume: Option<Seq<char>>,
    pub model: Option<Seq<char>>,
    pub permission_mode: Option<Seq<char>>,
    pub setting_sources: Seq<Seq<char>>,
    pub disallowed_tools: Seq<Seq<char>>,
    pub tools: Option<Seq<Seq<char>>>,
    pub include_partial_messages: bool,
    pub permission_prompt_tool: bool,
    pub allow_dangerously_skip_permissions: bool,
    pub replay_user_messages: bool,
}

/// The names and values of variables.
pub open spec fn env_pairs(v: Seq<(String, String)>) -> Seq<(Seq<char>, Seq<char>)> {
    Seq::new(v.len(), |i: int| (v[i].0@, v[i].1@))
}

impl SpawnOptions {
    /// How the child is started.
    pub open spec fn view(&self) -> SpawnSpec {
        SpawnSpec {
            claude_path: opt_string(self.claude_path),
            extra_env: env_pairs(self.extra_env@),
            default_cwd: opt_string(self.default_cwd),
            session_id: opt_string(self.session_id),
            resume: opt_string(self.resume),
            model: opt_string(self.model),
            permission_mode: opt_string(self.permission_mode),
            setting_sources: texts(self.setting_sources@),
            disallowed_tools: texts(self.disallowed_tools@),
            tools: match self.tools {
                Some(t) => Some(texts(t@)),
                None => None,
            },
            include_partial_messages: self.include_partial_messages,
            permission_prompt_tool: self.permission_prompt_tool,
            allow_dangerously_skip_permissions: self.allow_dangerously_skip_permissions,
            replay_user_messages: self.replay_user_messages,
        }
    }
}

/// How the child is started if nothing is asked for.
pub open spec fn usual_spawn() -> SpawnSpec {
    SpawnSpec {
        claude_path: None,
        extra_env: Seq::empty(),
        default_cwd: None,
        session_id: None,
        resume: None,
        model: None,
        permission_mode: None,
        setting_sources: seq!["user"@, "project"@, "local"@],
        disallowed_tools: Seq::empty(),
        tools: None,
        include_partial_messages: false,
        permission_prompt_tool: false,
        allow_dangerously_skip_permissions: false,
        replay_user_messages: false,
    }
}

impl Default for SpawnOptions {
    fn default() -> (r: SpawnOptions)
        ensures
            r@ == usual_spawn(),
    {
        let mut setting_sources: Vec<String> = Vec::new();
        setting_sources.push("user".to_owned());
        setting_sources.push("project".to_owned());
        setting_sources.push("local".to_owned());
        proof {
            assert(texts(setting_sources@) =~= seq!["user"@, "project"@, "local"@]);
        }
        let r = SpawnOptions {
            claude_path: None,
            extra_env: Vec::new(),
            default_cwd: None,
            session_id: None,
            resume: None,
            model: None,
            permission_mode: None,
            setting_sources,
            disallowed_tools: Vec::new(),
            tools: None,
            include_partial_messages: false,
            permission_prompt_tool: false,
            allow_dangerously_skip_permissions: false,
            replay_user_messages: false,
        };
        proof {
            assert(r@ =~= usual_spawn());
        }
        r
    }
}

/// A flag that is there or not.
pub open spec fn switch(on: bool, flag: Seq<char>) -> Seq<Seq<char>> {
    if on {
        seq![flag]
    } else {
        Seq::empty()
    }
}

/// A flag and its value, if there is one.
pub open spec fn flag_and_value(flag: Seq<char>, value: Option<Seq<char>>) -> Seq<Seq<char>> {
    match value {
        Some(v) => seq![flag, v],
        None => Seq::empty(),
    }
}

/// A flag joined with its value, if there is one.
pub open spec fn flag_with_value(flag: Seq<char>, value: Option<Seq<char>>) -> Seq<Seq<char>> {
    match value {
        Some(v) => seq![flag + v],
        None => Seq::empty(),
    }
}

/// A flag and its value, if they are wanted.
pub open spec fn pair_if(on: bool, flag: Seq<char>, value: Seq<char>) -> Seq<Seq<char>> {
    if on {
        seq![flag, value]
    } else {
        Seq::empty()
    }
}

/// The arguments that are always there.
pub open spec fn fixed_args() -> Seq<Seq<char>> {
    seq![
        "--output-format"@,
        "stream-json"@,
        "--verbose"@,
        "--input-format"@,
        "stream-json"@,
    ]
}

/// The tools as one argument, if there is a list of them.
pub open spec fn tools_arg(tools: Option<Seq<Seq<char>>>) -> Option<Seq<char>> {
    match tools {
        Some(t) => Some(joined(t, ","@)),
        None => None,
    }
}

/// The arguments of the child, in order.
pub open spec fn argv_of(o: SpawnSpec) -> Seq<Seq<char>> {
    fixed_args() + flag_and_value("--model"@, o.model) + pair_if(
        o.permission_prompt_tool,
        "--permission-prompt-tool"@,
        "stdio"@,
    ) + flag_with_value("--resume="@, o.resume) + pair_if(
        o.disallowed_tools.len() > 0,
        "--disallowedTools"@,
        joined(o.disallowed_tools, ","@),
    ) + flag_and_value("--tools"@, tools_arg(o.tools)) + switch(
        true,
        "--setting-sources="@ + joined(o.setting_sources, ","@),
    ) + flag_and_value("--permission-mode"@, o.permission_mode) + switch(
        o.allow_dangerously_skip_permissions,
        "--allow-dangerously-skip-permissions"@,
    ) + switch(o.include_partial_messages, "--include-partial-messages"@) + flag_with_value(
        "--session-id="@,
        o.session_id,
    ) + pair_if(o.replay_user_messages, "--replay-user-messages"@, Seq::empty())
}

fn add_text(argv: &mut Vec<String>, s: &str)
    ensures
        texts(final(argv)@) == texts(old(argv)@).push(s@),
{
    argv.push(s.to_owned());
    proof {
        assert(texts(argv@) =~= texts(old(argv)@).push(s@));
    }
}

fn add_switch(argv: &mut Vec<String>, on: bool, flag: &str)
    ensures
        texts(final(argv)@) == texts(old(argv)@) + switch(on, flag@),
{
    if on {
        add_text(argv, flag);
    }
    proof {
        assert(texts(argv@) =~= texts(old(argv)@) + switch(on, flag@));
    }
}

fn add_flag_and_value(argv: &mut Vec<String>, flag: &str, value: &Option<String>)
    ensures
        texts(final(argv)@) == texts(old(argv)@) + flag_and_value(flag@, opt_string(*value)),
{
    if let Some(v) = value {
        add_text(argv, flag);
        add_text(argv, v.as_str());
    }
    proof {
        assert(texts(argv@) =~= texts(old(argv)@) + flag_and_value(flag@, opt_string(*value)));
    }
}

fn add_flag_with_value(argv: &mut Vec<String>, flag: &str, value: &Option<String>)
    ensures
        texts(final(argv)@) == texts(old(argv)@) + flag_with_value(flag@, opt_string(*value)),
{
    if let Some(v) = value {
        let mut s = flag.to_owned();
        s.append(v.as_str());
        add_text(argv, s.as_str());
    }
    proof {
        assert(texts(argv@) =~= texts(old(argv)@) + flag_with_value(flag@, opt_string(*value)));
    }
}

fn add_pair(argv: &mut Vec<String>, on: bool, flag: &str, value: &str)
    ensures
        texts(final(argv)@) == texts(old(argv)@) + pair_if(on, flag@, value@),
{
    if on {
        add_text(argv, flag);
        add_text(argv, value);
    }
    proof {
        assert(texts(argv@) =~= texts(old(argv)@) + pair_if(on, flag@, value@));
    }
}

fn first_args() -> (r: Vec<String>)
    ensures
        texts(r@) == fixed_args(),
{
    let mut argv: Vec<String> = Vec::new();
    add_text(&mut argv, "--output-format");
    add_text(&mut argv, "stream-json");
    add_text(&mut argv, "--verbose");
    add_text(&mut argv, "--input-format");
    add_text(&mut argv, "stream-json");
    proof {
        assert(texts(argv@) =~= fixed_args());
    }
    argv
}

/// The arguments of the child.
pub fn build_argv(opts: &SpawnOptions) -> (r: Vec<String>)
    ensures
        texts(r@) == argv_of(opts@),
{
    let disallowed = join(&opts.disallowed_tools, ",");
    let tools = match &opts.tools {
        Some(t) => Some(join(t, ",")),
        None => None,
    };
    let mut sources = "--setting-sources=".to_owned();
    sources.append(join(&opts.setting_sources, ",").as_str());
    let nothing = String::new();
    let mut argv = first_args();
    add_flag_and_value(&mut argv, "--model", &opts.model);
    add_pair(&mut argv, opts.permission_prompt_tool, "--permission-prompt-tool", "stdio");
    add_flag_with_value(&mut argv, "--resume=", &opts.resume);
    add_pair(
        &mut argv,
        opts.disallowed_tools.len() > 0,
        "--disallowedTools",
        disallowed.as_str(),
    );
    add_flag_and_value(&mut argv, "--tools", &tools);
    add_switch(&mut argv, true, sources.as_str());
    add_flag_and_value(&mut argv, "--permission-mode", &opts.permission_mode);
    add_switch(
        &mut argv,
        opts.allow_dangerously_skip_permissions,
        "--allow-dangerously-skip-permissions",
    );
    add_switch(&mut argv, opts.include_partial_messages, "--include-partial-messages");
    add_flag_with_value(&mut argv, "--session-id=", &opts.session_id);
    add_pair(&mut argv, opts.replay_user_messages, "--replay-user-messages", nothing.as_str());
    argv
}

/// A change of the environment that the child is given.
#[derive(Debug, Clone, PartialEq, Eq)]
pub enum EnvChange {
    Put { name: String, value: String },
    Remove { name: String },
}

/// A change of the environment.
pub enum EnvChangeSpec {
    Put { name: Seq<char>, value: Seq<char> },
    Remove { name: Seq<char> },
}

impl EnvChange {
    /// What changes.
    pub open spec fn view(&self) -> EnvChangeSpec {
        match self {
            EnvChange::Put { name, value } => EnvChangeSpec::Put { name: name@, value: value@ },
            EnvChange::Remove { name } => EnvChangeSpec::Remove { name: name@ },
        }
    }
}

/// What the changes of a list are.
pub open spec fn env_changes(v: Seq<EnvChange>) -> Seq<EnvChangeSpec> {
    Seq::new(v.len(), |i: int| v[i]@)
}

/// The environment of the child: the extra variables first, then those that
/// every child is given, which win over them.
pub open spec fn env_of(extra: Seq<(String, String)>) -> Seq<EnvChangeSpec> {
    Seq::new(
        extra.len(),
        |i: int| EnvChangeSpec::Put { name: extra[i].0@, value: extra[i].1@ },
    ) + seq![
        EnvChangeSpec::Put { name: "CLAUDE_CODE_ENTRYPOINT"@, value: "sdk-ts"@ },
        EnvChangeSpec::Put { name: "CLAUDE_CODE_EMIT_SESSION_STATE_EVENTS"@, value: "1"@ },
        EnvChangeSpec::Remove { name: "NODE_OPTIONS"@ },
    ]
}

/// The changes of the environment for the child, in the order in which they are
/// made.
pub fn child_env(extra_env: &Vec<(String, String)>) -> (r: Vec<EnvChange>)
    ensures
        env_changes(r@) == env_of(extra_env@),
{
    let mut out: Vec<EnvChange> = Vec::new();
    let mut i: usize = 0;
    while i < extra_env.len()
        invariant
            i <= extra_env@.len(),
            out@.len() == i,
            forall|k: int|
                0 <= k < i ==> (#[trigger] out@[k])@ == (EnvChangeSpec::Put {
                    name: extra_env@[k].0@,
                    value: extra_env@[k].1@,
                }),
        decreases extra_env@.len() - i,
    {
        out.push(
            EnvChange::Put { name: extra_env[i].0.clone(), value: extra_env[i].1.clone() },
        );
        i += 1;
    }
    out.push(
        EnvChange::Put {
            name: "CLAUDE_CODE_ENTRYPOINT".to_owned(),
            value: "sdk-ts".to_owned(),
        },
    );
    out.push(
        EnvChange::Put {
            name: "CLAUDE_CODE_EMIT_SESSION_STATE_EVENTS".to_owned(),
            value: "1".to_owned(),
        },
    );
    out.push(EnvChange::Remove { name: "NODE_OPTIONS".to_owned() });
    proof {
        assert(env_changes(out@) =~= env_of(extra_env@));
    }
    out
}

/// Why the child could not be started or driven.
#[derive(Debug, Clone, PartialEq, Eq)]
pub enum SpawnError {
    /// It could not be started.
    Spawn { binary: String, source: String },
    /// Its input could not be written.
    Stdin(String),
    /// It could not be signalled.
    Signal(String),
    /// It ended too early.
    ExitedEarly { tail: String },
    /// Its program was not found.
    Resolve(ResolveError),
}

impl SpawnError {
    /// What went wrong, in words.
    pub open spec fn words(self) -> Seq<char> {
        match self {
            SpawnError::Spawn { binary, source } => "failed to spawn `"@ + binary@ + "`: "@
                + source@,
            SpawnError::Stdin(e) => "failed to write to child stdin: "@ + e@,
            SpawnError::Signal(e) => "failed to signal child: "@ + e@,
            SpawnError::ExitedEarly { tail } => "child exited early (no result frame): "@ + tail@,
            SpawnError::Resolve(e) => "failed to resolve the executable: "@
                + "no executable found: `claude_path` not set, `CLAUDE_CODE_EXECUTABLE` not set, and `"@
                + e->name@ + "` is not on PATH"@,
        }
    }

    /// What went wrong, in words.
    pub fn describe(&self) -> (r: String)
        ensures
            r@ == self.words(),
    {
        match self {
            SpawnError::Spawn { binary, source } => {
                let mut r = "failed to spawn `".to_owned();
                r.append(binary.as_str());
                r.append("`: ");
                r.append(source.as_str());
                r
            },
            SpawnError::Stdin(e) => {
                let mut r = "failed to write to child stdin: ".to_owned();
                r.append(e.as_str());
                r
            },
            SpawnError::Signal(e) => {
                let mut r = "failed to signal child: ".to_owned();
                r.append(e.as_str());
                r
            },
            SpawnError::ExitedEarly { tail } => {
                let mut r = "child exited early (no result frame): ".to_owned();
                r.append(tail.as_str());
                r
            },
            SpawnError::Resolve(e) => {
                let mut r = "failed to resolve the executable: ".to_owned();
                r.append(e.describe().as_str());
                proof {
                    assert(r@ =~= self.words());
                }
                r
            },
        }
    }
}

/// A way to bring the child to an end.
#[derive(Debug, Clone, Copy, PartialEq, Eq, Structural)]
pub enum Ending {
    /// Ask first: close its input, ask it to end, kill it only if it does
    /// neither.
    Shutdown,
    /// Make sure that it is gone: close its input, then kill what is left.
    Dispose,
}

/// What to do next to bring the child to an end.
#[derive(Debug, Clone, Copy, PartialEq, Eq, Structural)]
pub enum LadderAction {
    /// Close its input.
    CloseStdin,
    /// Wait so many milliseconds for it to end.
    Wait(u64),
    /// Ask its process group to end.
    Term,
    /// Kill its process group.
    Kill,
    /// Collect its exit status and the rest of its error output.
    Reap,
    /// Nothing more to do.
    Done,
    /// The last action failed: hand its error on.
    GiveUp,
}

/// What came of an action.
#[derive(Debug, Clone, Copy, PartialEq, Eq, Structural)]
pub enum LadderEvent {
    /// It was done; of a wait: the child ended.
    Happened,
    /// The child did not end in time.
    TimedOut,
    /// It failed.
    Failed,
}

/// How long to wait for a child that was killed, in milliseconds.
pub const KILL_WAIT: u64 = 5_000;

/// The next step of a shutdown. Closing the input may fail, anything else that
/// fails ends the shutdown; a child that ends needs no further step.
pub open spec fn shutdown_next(
    last: LadderAction,
    asked: bool,
    event: LadderEvent,
    t: Timings,
) -> LadderAction {
    match last {
        LadderAction::CloseStdin => LadderAction::Wait(t.stdin_close_wait),
        LadderAction::Wait(_) => match event {
            LadderEvent::Happened => LadderAction::Done,
            LadderEvent::TimedOut => if !asked {
                LadderAction::Term
            } else {
                LadderAction::Kill
            },
            LadderEvent::Failed => LadderAction::GiveUp,
        },
        LadderAction::Term => if event == LadderEvent::Failed {
            LadderAction::GiveUp
        } else {
            LadderAction::Wait(t.term_to_kill_wait)
        },
        LadderAction::Kill => if event == LadderEvent::Failed {
            LadderAction::GiveUp
        } else {
            LadderAction::Wait(KILL_WAIT)
        },
        _ => LadderAction::Done,
    }
}

/// A child that is being brought to an end.
#[derive(Debug, Clone, Copy, PartialEq, Eq, Structural)]
pub struct Ladder {
    /// How.
    pub ending: Ending,
    /// What is being done.
    pub last: LadderAction,
    /// Whether it was asked to end.
    pub asked: bool,
    /// Whether it was killed.
    pub killed: bool,
}

/// The ladder after what came of its last action. A shutdown ends as soon as
/// the child has; the kill is its last resort, and the wait after it its end
/// either way. A disposal goes on to the kill whatever happens.
pub open spec fn ladder_next(l: Ladder, event: LadderEvent, t: Timings) -> Ladder {
    let next = match l.ending {
        Ending::Shutdown => if l.killed && l.last is Wait {
            if event == LadderEvent::Failed {
                LadderAction::GiveUp
            } else {
                LadderAction::Done
            }
        } else {
            shutdown_next(l.last, l.asked, event, t)
        },
        Ending::Dispose => match l.last {
            LadderAction::CloseStdin => LadderAction::Wait(t.stdin_close_wait),
            LadderAction::Wait(_) => if l.killed {
                LadderAction::Reap
            } else {
                LadderAction::Kill
            },
            LadderAction::Kill => LadderAction::Wait(KILL_WAIT),
            _ => LadderAction::Done,
        },
    };
    Ladder {
        ending: l.ending,
        last: next,
        asked: l.asked || next == LadderAction::Term,
        killed: l.killed || next == LadderAction::Kill,
    }
}

/// Where the ladder starts: with the input of the child being closed.
pub open spec fn ladder_start(ending: Ending) -> Ladder {
    Ladder { ending, last: LadderAction::CloseStdin, asked: false, killed: false }
}

impl Ladder {
    /// The first step.
    pub fn start(ending: Ending) -> (r: Ladder)
        ensures
            r == ladder_start(ending),
    {
        Ladder { ending, last: LadderAction::CloseStdin, asked: false, killed: false }
    }

    /// The next step, after what came of the last.
    pub fn next(self, event: LadderEvent, timings: &Timings) -> (r: Ladder)
        ensures
            r == ladder_next(self, event, *timings),
    {
        let failed = matches!(event, LadderEvent::Failed);
        let next = match self.ending {
            Ending::Shutdown => match self.last {
                LadderAction::CloseStdin => LadderAction::Wait(timings.stdin_close_wait),
                LadderAction::Wait(_) => match event {
                    LadderEvent::Happened => LadderAction::Done,
                    LadderEvent::TimedOut => if self.killed {
                        LadderAction::Done
                    } else if self.asked {
                        LadderAction::Kill
                    } else {
                        LadderAction::Term
                    },
                    LadderEvent::Failed => LadderAction::GiveUp,
                },
                LadderAction::Term => if failed {
                    LadderAction::GiveUp
                } else {
                    LadderAction::Wait(timings.term_to_kill_wait)
                },
                LadderAction::Kill => if failed {
                    LadderAction::GiveUp
                } else {
                    LadderAction::Wait(KILL_WAIT)
                },
                _ => LadderAction::Done,
            },
            Ending::Dispose => match self.last {
                LadderAction::CloseStdin => LadderAction::Wait(timings.stdin_close_wait),
                LadderAction::Wait(_) => if self.killed {
                    LadderAction::Reap
                } else {
                    LadderAction::Kill
                },
                LadderAction::Kill => LadderAction::Wait(KILL_WAIT),
                _ => LadderAction::Done,
            },
        };
        let asked = self.asked || matches!(next, LadderAction::Term);
        let killed = self.killed || matches!(next, LadderAction::Kill);
        Ladder { ending: self.ending, last: next, asked, killed }
    }
}

/// The ladder after a list of events.
pub open spec fn ladder_run(l: Ladder, events: Seq<LadderEvent>, t: Timings) -> Ladder
    decreases events.len(),
{
    if events.len() == 0 {
        l
    } else {
        ladder_next(ladder_run(l, events.drop_last(), t), events.last(), t)
    }
}

/// A shutdown never kills the child straight away: whatever happens, a kill is
/// preceded by closing its input and by asking it to end, with time to do so
/// after each.
pub proof fn law_shutdown_asks_before_it_kills(events: Seq<LadderEvent>, t: Timings)
    ensures
        ({
            let l = ladder_run(ladder_start(Ending::Shutdown), events, t);
            &&& l.ending == Ending::Shutdown
            &&& l.killed ==> l.asked
            &&& l.last == LadderAction::Kill ==> l.asked && events.len() >= 4
            &&& l.last == LadderAction::Term ==> events.len() >= 2
            &&& l.asked ==> events.len() >= 2
            &&& !l.asked && l.last is Wait ==> events.len() >= 1
            &&& l.asked && l.last is Wait ==> events.len() >= 3
        }),
    decreases events.len(),
{
    if events.len() > 0 {
        law_shutdown_asks_before_it_kills(events.drop_last(), t);
    }
}

/// A child that ends on its own is neither asked nor killed: the step after a
/// wait in which it ended is the last.
pub proof fn law_ended_child_is_left_alone(l: Ladder, t: Timings)
    requires
        l.ending == Ending::Shutdown,
        l.last is Wait,
    ensures
        ladder_next(l, LadderEvent::Happened, t).last == LadderAction::Done,
        ladder_next(l, LadderEvent::Happened, t).asked == l.asked,
        ladder_next(l, LadderEvent::Happened, t).killed == l.killed,
{
}

/// Both ways come to an end: seven steps at most.
pub proof fn law_ladder_ends(ending: Ending, events: Seq<LadderEvent>, t: Timings)
    requires
        events.len() == 7,
    ensures
        ({
            let l = ladder_run(ladder_start(ending), events, t);
            l.last == LadderAction::Done || l.last == LadderAction::GiveUp
        }),
{
    reveal_with_fuel(ladder_run, 8);
}

/// How many bytes of the error output are kept.
pub const STDERR_TAIL_CAP: usize = 2048;

/// The end of a byte string, at most `cap` bytes of it.
pub open spec fn last_bytes(s: Seq<u8>, cap: nat) -> Seq<u8> {
    if s.len() <= cap {
        s
    } else {
        s.skip(s.len() - cap)
    }
}

/// The end of the child's error output.
pub struct StderrTail {
    bytes: Vec<u8>,
}

/// What `String::from_utf8_lossy` makes of these bytes: the text, with
/// replacement characters for what is not UTF-8.
pub uninterp spec fn utf8_lossy(bytes: Seq<u8>) -> Seq<char>;

/// `String::from_utf8_lossy`: the bytes as a text. Bytes that are valid UTF-8
/// are taken as they are.
#[verifier::external_body]
fn lossy_text(bytes: &[u8]) -> (r: String)
    ensures
        r@ == utf8_lossy(bytes@),
        valid_utf8(bytes@) ==> encode_utf8(r@) == bytes@,
{
    String::from_utf8_lossy(bytes).into_owned()
}

impl StderrTail {
    /// The bytes that are kept.
    pub closed spec fn view(&self) -> Seq<u8> {
        self.bytes@
    }

    #[verifier::type_invariant]
    spec fn inv(self) -> bool {
        self.bytes@.len() <= STDERR_TAIL_CAP
    }

    /// Nothing yet.
    pub fn new() -> (r: StderrTail)
        ensures
            r@ == Seq::<u8>::empty(),
    {
        StderrTail { bytes: Vec::new() }
    }

    /// Takes further output. The last bytes of all of it are kept.
    pub fn push(&mut self, chunk: &[u8])
        ensures
            final(self)@ == last_bytes(old(self)@ + chunk@, STDERR_TAIL_CAP as nat),
    {
        proof {
            use_type_invariant(&*self);
        }
        let kept: usize = self.bytes.len();
        let ghost all = self.bytes@ + chunk@;
        let keep_new: usize = if chunk.len() <= STDERR_TAIL_CAP {
            chunk.len()
        } else {
            STDERR_TAIL_CAP
        };
        let room: usize = STDERR_TAIL_CAP - keep_new;
        let keep_old: usize = if kept <= room {
            kept
        } else {
            room
        };
        let mut out: Vec<u8> = Vec::new();
        let mut i: usize = kept - keep_old;
        while i < kept
            invariant
                kept - keep_old <= i <= kept,
                kept == self.bytes@.len(),
                keep_old <= kept,
                out@ == self.bytes@.subrange(kept - keep_old, i as int),
                *self == *old(self),
            decreases kept - i,
        {
            out.push(self.bytes[i]);
            i += 1;
            proof {
                assert(out@ =~= self.bytes@.subrange(kept - keep_old, i as int));
            }
        }
        let ghost head = out@;
        let mut j: usize = chunk.len() - keep_new;
        while j < chunk.len()
            invariant
                chunk@.len() - keep_new <= j <= chunk@.len(),
                keep_new <= chunk@.len(),
                out@ == head + chunk@.subrange(chunk@.len() - keep_new, j as int),
            decreases chunk@.len() - j,
        {
            out.push(chunk[j]);
            j += 1;
            proof {
                assert(out@ =~= head + chunk@.subrange(chunk@.len() - keep_new, j as int));
            }
        }
        proof {
            assert(out@ =~= last_bytes(all, STDERR_TAIL_CAP as nat));
        }
        self.bytes = out;
    }

    /// The kept output as a text.
    pub fn text(&self) -> (r: String)
        ensures
            r@ == utf8_lossy(self@),
            valid_utf8(self@) ==> encode_utf8(r@) == self@,
    {
        lossy_text(self.bytes.as_slice())
    }
}

/// Whatever the chunks that output comes in, the end of all of it is kept.
pub proof fn law_tail_of_chunks(a: Seq<u8>, b: Seq<u8>, cap: nat)
    ensures
        last_bytes(last_bytes(a, cap) + b, cap) == last_bytes(a + b, cap),
{
    assert(last_bytes(last_bytes(a, cap) + b, cap) =~= last_bytes(a + b, cap));
}

} // verus!

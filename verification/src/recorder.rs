//! The recorder: makes the calls of a script, one after the other, and keeps every
//! frame that passes.
//!
//! Which call comes next, what to wait for and when to give up is decided here;
//! the connection to the agent is run by whoever calls.

use vstd::prelude::*;
use vstd::utf8::encode_utf8;

use crate::acp::opt_string;
use crate::agent::{invalid_params, INTERNAL_ERROR, INVALID_PARAMS, RpcError, RpcSpec};
use crate::frames::{frames, Direction, Frame, FrameSpec};
use crate::json::{json_parse, Json, JsonSpec};
use crate::process::env_pairs;
use crate::script::{steps, PermissionPolicy, Script, Step, StepSpec};
use crate::strs::{decimal, decimal_text, texts};

verus! {

/// How long to wait for updates before a cancel, in milliseconds.
pub const UPDATE_WAIT_TIMEOUT: u64 = 30_000;

/// How long to wait before updates are counted again, in milliseconds.
pub const UPDATE_POLL_INTERVAL: u64 = 10;

/// How long to pause once a session was created, in milliseconds: the agent tells
/// of its commands right after, and that has to come before the next call.
pub const POST_CREATE_SETTLE: u64 = 75;

/// Why a recording failed.
#[derive(Debug, Clone, PartialEq, Eq)]
pub enum RecordError {
    /// The agent's command is none.
    AgentCommand(String),
    /// The agent answered with an error before anything was exchanged.
    Protocol(String),
}

impl RecordError {
    /// What went wrong, in words.
    pub open spec fn words(self) -> Seq<char> {
        match self {
            RecordError::AgentCommand(e) => "failed to parse agent command: "@ + e@,
            RecordError::Protocol(e) => "ACP protocol error: "@ + e@,
        }
    }

    /// What went wrong, in words.
    pub fn describe(&self) -> (r: String)
        ensures
            r@ == self.words(),
    {
        match self {
            RecordError::AgentCommand(e) => {
                let mut r = "failed to parse agent command: ".to_owned();
                r.append(e.as_str());
                r
            },
            RecordError::Protocol(e) => {
                let mut r = "ACP protocol error: ".to_owned();
                r.append(e.as_str());
                r
            },
        }
    }
}

/// How an agent is started: its program, the arguments, and the variables that are
/// set for it.
#[derive(Debug, Clone, PartialEq, Eq)]
pub struct AgentCommand {
    pub command: String,
    pub args: Vec<String>,
    pub env: Vec<(String, String)>,
}

/// How an agent is started.
#[verifier::ext_equal]
pub struct AgentCommandSpec {
    pub command: Seq<char>,
    pub args: Seq<Seq<char>>,
    pub env: Seq<(Seq<char>, Seq<char>)>,
}

impl AgentCommand {
    /// How the agent is started.
    pub open spec fn view(&self) -> AgentCommandSpec {
        AgentCommandSpec {
            command: self.command@,
            args: texts(self.args@),
            env: env_pairs(self.env@),
        }
    }
}

/// `agent_client_protocol::Error`, carried through unread.
#[verifier::external_type_specification]
#[verifier::external_body]
pub struct ExProtocolError(agent_client_protocol::Error);

/// What an `agent_client_protocol::Error` displays.
pub uninterp spec fn protocol_error_words(e: agent_client_protocol::Error) -> Seq<char>;

/// What `AcpAgent::from_str` reads from a text: how the agent is started, or what
/// its error displays where the text is no command.
pub uninterp spec fn agent_read(cmd: Seq<char>) -> Result<AgentCommandSpec, Seq<char>>;

/// `agent_client_protocol::AcpAgent::from_str`, through `str::parse`: reads a command
/// line or a JSON object. What it read is taken from the agent's configuration: the
/// program, which is a path made of a text, the arguments in order, and the
/// variables in the order of their names.
#[verifier::external_body]
fn read_agent(cmd: &str) -> (r: Result<AgentCommand, agent_client_protocol::Error>)
    ensures
        r matches Ok(a) ==> agent_read(cmd@) is Ok && agent_read(cmd@)->Ok_0 == a@,
        r matches Err(e) ==> agent_read(cmd@) is Err && agent_read(cmd@)->Err_0
            == protocol_error_words(e),
{
    let config = cmd.parse::<agent_client_protocol::AcpAgent>()?.into_config();
    Ok(AgentCommand {
        command: config.command().to_string_lossy().into_owned(),
        args: config.arguments().to_vec(),
        env: config.environment().clone().into_iter().collect(),
    })
}

/// `agent_client_protocol::Error::to_string`: what the error displays.
#[verifier::external_body]
fn protocol_error_text(e: &agent_client_protocol::Error) -> (r: String)
    ensures
        r@ == protocol_error_words(*e),
{
    e.to_string()
}

/// What comes of reading the command of an agent.
pub open spec fn agent_parsed(
    read: Result<AgentCommandSpec, Seq<char>>,
    r: Result<AgentCommand, RecordError>,
) -> bool {
    match read {
        Ok(a) => r matches Ok(command) && command@ == a,
        Err(e) => r matches Err(RecordError::AgentCommand(why)) && why@ == e,
    }
}

/// Reads the command of an agent.
pub fn parse_agent(agent_cmd: &str) -> (r: Result<AgentCommand, RecordError>)
    ensures
        agent_parsed(agent_read(agent_cmd@), r),
{
    match read_agent(agent_cmd) {
        Ok(command) => Ok(command),
        Err(e) => Err(RecordError::AgentCommand(protocol_error_text(&e))),
    }
}

/// Where a line was seen.
#[derive(Debug, Clone, Copy, PartialEq, Eq, Structural)]
pub enum LineSource {
    /// On the agent's input.
    Stdin,
    /// On its output.
    Stdout,
    /// On its error output.
    Stderr,
}

/// The frame that a line is. A line of the error output is none, nor is one that
/// is no JSON document.
pub open spec fn captured(line: Seq<char>, source: LineSource) -> Option<FrameSpec> {
    let direction = match source {
        LineSource::Stdin => Direction::Send,
        LineSource::Stdout => Direction::Recv,
        LineSource::Stderr => Direction::Recv,
    };
    if source is Stderr {
        None
    } else {
        match json_parse(encode_utf8(line)) {
            Some(json) => Some(FrameSpec { direction, json }),
            None => None,
        }
    }
}

/// The frames that the lines are, in the order in which they were seen.
pub open spec fn all_captured(lines: Seq<(Seq<char>, LineSource)>) -> Seq<FrameSpec>
    decreases lines.len(),
{
    if lines.len() == 0 {
        Seq::empty()
    } else {
        let before = all_captured(lines.drop_last());
        match captured(lines.last().0, lines.last().1) {
            Some(f) => before.push(f),
            None => before,
        }
    }
}

/// What a recording holds: the frames so far, in order, and how many updates came.
#[verifier::ext_equal]
pub struct RecordingSpec {
    pub frames: Seq<FrameSpec>,
    pub updates: usize,
}

/// A recording.
pub struct Recording {
    frames: Vec<Frame>,
    updates: usize,
}

impl Recording {
    /// What the recording holds.
    pub closed spec fn view(&self) -> RecordingSpec {
        RecordingSpec { frames: frames(self.frames@), updates: self.updates }
    }

    /// Nothing yet.
    pub fn new() -> (r: Recording)
        ensures
            r@.frames.len() == 0,
            r@.updates == 0,
    {
        Recording { frames: Vec::new(), updates: 0 }
    }

    /// A line passed.
    pub fn on_line(&mut self, line: &str, source: LineSource)
        ensures
            final(self)@.updates == old(self)@.updates,
            final(self)@.frames == (match captured(line@, source) {
                Some(f) => old(self)@.frames.push(f),
                None => old(self)@.frames,
            }),
    {
        let direction = match source {
            LineSource::Stdin => Direction::Send,
            LineSource::Stdout => Direction::Recv,
            LineSource::Stderr => {
                return ;
            },
        };
        if let Some(json) = Json::parse_str(line) {
            let frame = Frame { direction, json };
            self.frames.push(frame);
            proof {
                assert(self@.frames =~= old(self)@.frames.push(frame@));
            }
        }
    }

    /// An update came.
    pub fn on_update(&mut self)
        ensures
            final(self)@.frames == old(self)@.frames,
            final(self)@.updates == (if old(self)@.updates == usize::MAX {
                0
            } else {
                (old(self)@.updates + 1) as usize
            }),
    {
        self.updates = self.updates.wrapping_add(1);
    }

    /// How many updates came.
    pub fn updates(&self) -> (r: usize)
        ensures
            r == self@.updates,
    {
        self.updates
    }

    /// The script was run to its end, or stopped with an error.
    pub fn finish(self, outcome: Result<(), String>) -> (r: Result<Vec<Frame>, RecordError>)
        ensures
            finished(outcome, self@.frames, r),
    {
        finish(outcome, self.frames)
    }
}

/// What a recording comes to: its frames, unless there are none and the script
/// stopped with an error.
pub open spec fn finished(
    outcome: Result<(), String>,
    recorded: Seq<FrameSpec>,
    r: Result<Vec<Frame>, RecordError>,
) -> bool {
    match outcome {
        Err(e) => if recorded.len() == 0 {
            r matches Err(RecordError::Protocol(why)) && why@ == e@
        } else {
            r matches Ok(v) && frames(v@) == recorded
        },
        Ok(_) => r matches Ok(v) && frames(v@) == recorded,
    }
}

/// What a recording comes to.
pub fn finish(outcome: Result<(), String>, recorded: Vec<Frame>) -> (r: Result<Vec<Frame>, RecordError>)
    ensures
        finished(outcome, frames(recorded@), r),
{
    match outcome {
        Ok(()) => Ok(recorded),
        Err(error) => if recorded.len() == 0 {
            Err(RecordError::Protocol(error))
        } else {
            Ok(recorded)
        },
    }
}

/// What an option of a request for permission does.
#[derive(Debug, Clone, Copy, PartialEq, Eq, Structural)]
pub enum PermissionOptionKind {
    AllowOnce,
    AllowAlways,
    RejectOnce,
    RejectAlways,
}

/// An option of a request for permission.
#[derive(Debug, Clone, PartialEq, Eq)]
pub struct PermissionOption {
    pub option_id: String,
    pub kind: PermissionOptionKind,
}

/// The answer to a request for permission.
#[derive(Debug, Clone, PartialEq, Eq)]
pub enum PermissionReply {
    /// This option.
    Selected(String),
    /// None.
    Cancelled,
}

/// Whether an option rejects.
pub open spec fn rejects(kind: PermissionOptionKind) -> bool {
    kind is RejectOnce || kind is RejectAlways
}

/// The place of the first option that rejects; the number of options if none does.
pub open spec fn first_rejecting(options: Seq<PermissionOption>) -> int
    decreases options.len(),
{
    if options.len() == 0 {
        0
    } else if rejects(options[0].kind) {
        0
    } else {
        1 + first_rejecting(options.skip(1))
    }
}

/// The option that is selected: to allow, the first one offered; to deny, the
/// first one that rejects.
pub open spec fn selected(options: Seq<PermissionOption>, policy: PermissionPolicy) -> Option<
    Seq<char>,
> {
    let i = match policy {
        PermissionPolicy::Allow => 0,
        PermissionPolicy::Deny => first_rejecting(options),
    };
    if 0 <= i < options.len() {
        Some(options[i].option_id@)
    } else {
        None
    }
}

proof fn lemma_first_rejecting(options: Seq<PermissionOption>, i: int)
    requires
        0 <= i <= options.len(),
        forall|k: int| 0 <= k < i ==> !rejects((#[trigger] options[k]).kind),
        i < options.len() ==> rejects(options[i].kind),
    ensures
        first_rejecting(options) == i,
    decreases options.len(),
{
    if i > 0 {
        assert(!rejects(options[0].kind));
        let rest = options.skip(1);
        assert forall|k: int| 0 <= k < i - 1 implies !rejects((#[trigger] rest[k]).kind) by {
            assert(rest[k] == options[k + 1]);
        }
        lemma_first_rejecting(rest, i - 1);
    }
}

fn option_rejects(kind: PermissionOptionKind) -> (r: bool)
    ensures
        r == rejects(kind),
{
    match kind {
        PermissionOptionKind::RejectOnce => true,
        PermissionOptionKind::RejectAlways => true,
        _ => false,
    }
}

/// Answers a request for permission.
pub fn reply_permission(options: &Vec<PermissionOption>, policy: PermissionPolicy) -> (r:
    PermissionReply)
    ensures
        match r {
            PermissionReply::Selected(id) => selected(options@, policy) == Some(id@),
            PermissionReply::Cancelled => selected(options@, policy) is None,
        },
{
    let mut i: usize = 0;
    match policy {
        PermissionPolicy::Allow => {},
        PermissionPolicy::Deny => {
            while i < options.len() && !option_rejects(options[i].kind)
                invariant
                    i <= options@.len(),
                    forall|k: int| 0 <= k < i ==> !rejects((#[trigger] options@[k]).kind),
                decreases options@.len() - i,
            {
                i += 1;
            }
            proof {
                lemma_first_rejecting(options@, i as int);
            }
        },
    }
    if i < options.len() {
        PermissionReply::Selected(options[i].option_id.as_str().to_owned())
    } else {
        PermissionReply::Cancelled
    }
}

/// What to do while updates are waited for: enough of them count more than the
/// time.
pub open spec fn waiting_for(count: usize, target: usize, now: u64, deadline: u64) -> Wait {
    if count >= target {
        Wait::Reached
    } else if now >= deadline {
        Wait::GaveUp
    } else {
        Wait::Again
    }
}

/// What to do while updates are waited for.
#[derive(Debug, Clone, Copy, PartialEq, Eq, Structural)]
pub enum Wait {
    /// There are enough.
    Reached,
    /// The time is up.
    GaveUp,
    /// Look again a little later.
    Again,
}

/// What to do while updates are waited for: enough of them count more than the
/// time.
pub fn wait_for_updates(count: usize, target: usize, now: u64, deadline: u64) -> (r: Wait)
    ensures
        r == waiting_for(count, target, now, deadline),
{
    if count >= target {
        Wait::Reached
    } else if now >= deadline {
        Wait::GaveUp
    } else {
        Wait::Again
    }
}

/// What is to be done for a script.
pub enum RunAction {
    /// Make the call `initialize`, and wait for its answer.
    Initialize,
    /// Make the call `session/new`, and wait for its answer.
    NewSession { cwd: String },
    /// Make the call `session/load`, and wait for its answer.
    LoadSession { session_id: String, cwd: String },
    /// Pause for [`POST_CREATE_SETTLE`].
    Settle,
    /// Make the call `session/prompt`, and do not wait yet.
    Prompt { session_id: String, text: String },
    /// Wait until so many updates came, at most for [`UPDATE_WAIT_TIMEOUT`].
    WaitUpdates { target: usize },
    /// Send `session/cancel`.
    Cancel { session_id: String },
    /// Wait for the answer to the prompt.
    AwaitAnswer,
    /// Stop: the script was run to its end.
    Done,
    /// Stop with an error.
    Fail(RpcError),
}

/// What is to be done for a script.
#[verifier::ext_equal]
pub enum RunActionSpec {
    Initialize,
    NewSession { cwd: Seq<char> },
    LoadSession { session_id: Seq<char>, cwd: Seq<char> },
    Settle,
    Prompt { session_id: Seq<char>, text: Seq<char> },
    WaitUpdates { target: usize },
    Cancel { session_id: Seq<char> },
    AwaitAnswer,
    Done,
    Fail(RpcSpec),
}

impl RunAction {
    /// What is to be done.
    pub open spec fn view(&self) -> RunActionSpec {
        match self {
            RunAction::Initialize => RunActionSpec::Initialize,
            RunAction::NewSession { cwd } => RunActionSpec::NewSession { cwd: cwd@ },
            RunAction::LoadSession { session_id, cwd } => RunActionSpec::LoadSession {
                session_id: session_id@,
                cwd: cwd@,
            },
            RunAction::Settle => RunActionSpec::Settle,
            RunAction::Prompt { session_id, text } => RunActionSpec::Prompt {
                session_id: session_id@,
                text: text@,
            },
            RunAction::WaitUpdates { target } => RunActionSpec::WaitUpdates { target: *target },
            RunAction::Cancel { session_id } => RunActionSpec::Cancel { session_id: session_id@ },
            RunAction::AwaitAnswer => RunActionSpec::AwaitAnswer,
            RunAction::Done => RunActionSpec::Done,
            RunAction::Fail(e) => RunActionSpec::Fail(e@),
        }
    }
}

/// What came of it.
pub enum RunEvent {
    /// A call was answered.
    Answered,
    /// `session/new` was answered, with this session.
    Created { session_id: String },
    /// The pause is over.
    Paused,
    /// A prompt or a cancel was sent; so many updates had come before.
    Sent { updates: usize },
    /// The updates came.
    Reached,
    /// They did not come in time.
    TimedOut,
    /// It failed.
    Failed(RpcError),
}

/// What came of it.
pub enum RunEventSpec {
    Answered,
    Created { session_id: Seq<char> },
    Paused,
    Sent { updates: usize },
    Reached,
    TimedOut,
    Failed(RpcSpec),
}

impl RunEvent {
    /// What came of it.
    pub open spec fn view(&self) -> RunEventSpec {
        match self {
            RunEvent::Answered => RunEventSpec::Answered,
            RunEvent::Created { session_id } => RunEventSpec::Created { session_id: session_id@ },
            RunEvent::Paused => RunEventSpec::Paused,
            RunEvent::Sent { updates } => RunEventSpec::Sent { updates: *updates },
            RunEvent::Reached => RunEventSpec::Reached,
            RunEvent::TimedOut => RunEventSpec::TimedOut,
            RunEvent::Failed(e) => RunEventSpec::Failed(e@),
        }
    }
}

/// How far a step is.
#[derive(Debug, Clone, Copy, PartialEq, Eq, Structural)]
pub enum Phase {
    /// `initialize` was called.
    Initializing,
    /// `session/new` was called.
    Creating,
    /// `session/load` was called.
    Loading,
    /// A session is there.
    Settling,
    /// `session/prompt` is being called.
    Prompting,
    /// Updates are waited for.
    Waiting,
    /// The prompt is being cancelled.
    Interrupting,
    /// The answer to the prompt is waited for.
    Answering,
    /// `session/cancel` is being sent.
    Cancelling,
    /// Nothing is left to do.
    Over,
}

/// How far a script is: the steps, which one it is at, the session, how far that
/// step is, and the directory for sessions that name none.
#[verifier::ext_equal]
pub struct RunSpec {
    pub steps: Seq<StepSpec>,
    pub at: nat,
    pub session: Option<Seq<char>>,
    pub phase: Phase,
    pub here: Seq<char>,
}

/// The refusal of a wait that took too long.
pub open spec fn timed_out(n: usize) -> RpcSpec {
    RpcSpec {
        code: INTERNAL_ERROR as int,
        message: "Internal error"@,
        data: Some(
            JsonSpec::Str(
                "timed out waiting for "@ + decimal(n as nat) + " updates before cancel"@,
            ),
        ),
    }
}

/// A text, or another one where there is none.
pub open spec fn text_or(o: Option<Seq<char>>, other: Seq<char>) -> Seq<char> {
    match o {
        Some(s) => s,
        None => other,
    }
}

impl RunSpec {
    /// The step that the script is at.
    pub open spec fn step(self) -> Option<StepSpec> {
        if self.at < self.steps.len() {
            Some(self.steps[self.at as int])
        } else {
            None
        }
    }

    /// After how many updates the prompt is cancelled.
    pub open spec fn count(self) -> Option<usize> {
        match self.step() {
            Some(StepSpec::Prompt { text, cancel_after_updates }) => cancel_after_updates,
            _ => None,
        }
    }

    /// In this phase, with that to do.
    pub open spec fn now(self, phase: Phase, action: RunActionSpec) -> (RunSpec, RunActionSpec) {
        (RunSpec { phase, ..self }, action)
    }

    /// The step is begun. A prompt or a cancel without a session stops the script.
    pub open spec fn begin(self) -> (RunSpec, RunActionSpec) {
        match self.step() {
            None => self.now(Phase::Over, RunActionSpec::Done),
            Some(StepSpec::Initialize) => self.now(Phase::Initializing, RunActionSpec::Initialize),
            Some(StepSpec::NewSession { cwd }) => self.now(
                Phase::Creating,
                RunActionSpec::NewSession { cwd: text_or(cwd, self.here) },
            ),
            Some(StepSpec::LoadSession { session_id, cwd }) => self.now(
                Phase::Loading,
                RunActionSpec::LoadSession { session_id, cwd: text_or(cwd, self.here) },
            ),
            Some(StepSpec::Prompt { text, cancel_after_updates }) => match self.session {
                Some(session_id) => self.now(
                    Phase::Prompting,
                    RunActionSpec::Prompt { session_id, text },
                ),
                None => self.now(
                    Phase::Over,
                    RunActionSpec::Fail(invalid_params("session/prompt before any session/new"@)),
                ),
            },
            Some(StepSpec::Cancel) => match self.session {
                Some(session_id) => self.now(
                    Phase::Cancelling,
                    RunActionSpec::Cancel { session_id },
                ),
                None => self.now(
                    Phase::Over,
                    RunActionSpec::Fail(invalid_params("session/cancel before any session/new"@)),
                ),
            },
        }
    }

    /// The step is over, and the next one is begun.
    pub open spec fn following(self) -> (RunSpec, RunActionSpec) {
        RunSpec { at: self.at + 1, ..self }.begin()
    }

    /// Whether this can come now.
    pub open spec fn expects(self, event: RunEventSpec) -> bool {
        match (self.phase, event) {
            (Phase::Over, _) => false,
            (_, RunEventSpec::Failed(_)) => true,
            (Phase::Initializing, RunEventSpec::Answered) => true,
            (Phase::Creating, RunEventSpec::Created { .. }) => true,
            (Phase::Loading, RunEventSpec::Answered) => true,
            (Phase::Settling, RunEventSpec::Paused) => true,
            (Phase::Prompting, RunEventSpec::Sent { updates }) => match self.count() {
                Some(n) => updates + n <= usize::MAX,
                None => true,
            },
            (Phase::Waiting, RunEventSpec::Reached) => true,
            (Phase::Waiting, RunEventSpec::TimedOut) => true,
            (Phase::Interrupting, RunEventSpec::Sent { .. }) => true,
            (Phase::Answering, RunEventSpec::Answered) => true,
            (Phase::Cancelling, RunEventSpec::Sent { .. }) => true,
            _ => false,
        }
    }

    /// What follows.
    pub open spec fn next(self, event: RunEventSpec) -> (RunSpec, RunActionSpec) {
        match event {
            RunEventSpec::Failed(e) => self.now(Phase::Over, RunActionSpec::Fail(e)),
            RunEventSpec::Created { session_id } => RunSpec {
                session: Some(session_id),
                ..self
            }.now(Phase::Settling, RunActionSpec::Settle),
            RunEventSpec::Answered => match (self.phase, self.step()) {
                (Phase::Loading, Some(StepSpec::LoadSession { session_id, cwd })) => RunSpec {
                    session: Some(session_id),
                    ..self
                }.now(Phase::Settling, RunActionSpec::Settle),
                _ => self.following(),
            },
            RunEventSpec::Paused => self.following(),
            RunEventSpec::Sent { updates } => match (self.phase, self.count()) {
                (Phase::Cancelling, _) => self.following(),
                (Phase::Prompting, Some(n)) => self.now(
                    Phase::Waiting,
                    RunActionSpec::WaitUpdates { target: (updates + n) as usize },
                ),
                _ => self.now(Phase::Answering, RunActionSpec::AwaitAnswer),
            },
            RunEventSpec::Reached => self.now(
                Phase::Interrupting,
                RunActionSpec::Cancel { session_id: text_or(self.session, Seq::empty()) },
            ),
            RunEventSpec::TimedOut => self.now(
                Phase::Over,
                RunActionSpec::Fail(
                    timed_out(
                        match self.count() {
                            Some(n) => n,
                            None => 0,
                        },
                    ),
                ),
            ),
        }
    }

    /// What every script that is being run keeps: it is at a step of its own until
    /// it is over, and in a phase of that step.
    pub open spec fn sound(self) -> bool {
        match (self.phase, self.step()) {
            (Phase::Over, _) => true,
            (Phase::Initializing, Some(StepSpec::Initialize)) => true,
            (Phase::Creating, Some(StepSpec::NewSession { .. })) => true,
            (Phase::Loading, Some(StepSpec::LoadSession { .. })) => true,
            (Phase::Settling, Some(StepSpec::NewSession { .. })) => self.session is Some,
            (Phase::Settling, Some(StepSpec::LoadSession { .. })) => self.session is Some,
            (Phase::Prompting, Some(StepSpec::Prompt { .. })) => self.session is Some,
            (Phase::Waiting, Some(StepSpec::Prompt { .. })) => self.session is Some
                && self.count() is Some,
            (Phase::Interrupting, Some(StepSpec::Prompt { .. })) => self.session is Some
                && self.count() is Some,
            (Phase::Answering, Some(StepSpec::Prompt { .. })) => self.session is Some,
            (Phase::Cancelling, Some(StepSpec::Cancel)) => self.session is Some,
            _ => false,
        }
    }
}

/// A script that is being run.
pub struct ScriptRun {
    steps: Vec<Step>,
    at: usize,
    session: Option<String>,
    phase: Phase,
    here: String,
}

fn copy_or(o: &Option<String>, other: &str) -> (r: String)
    ensures
        r@ == text_or(opt_string(*o), other@),
{
    match o {
        Some(s) => s.as_str().to_owned(),
        None => other.to_owned(),
    }
}

fn refusal(why: &str) -> (r: RpcError)
    ensures
        r@ == invalid_params(why@),
{
    RpcError {
        code: INVALID_PARAMS,
        message: "Invalid params".to_owned(),
        data: Some(Json::text(why)),
    }
}

fn too_late(n: usize) -> (r: RpcError)
    ensures
        r@ == timed_out(n),
{
    let mut why = "timed out waiting for ".to_owned();
    why.append(decimal_text(n as u128).as_str());
    why.append(" updates before cancel");
    RpcError {
        code: INTERNAL_ERROR,
        message: "Internal error".to_owned(),
        data: Some(Json::text(why.as_str())),
    }
}

impl ScriptRun {
    /// How far the script is.
    pub closed spec fn view(&self) -> RunSpec {
        RunSpec {
            steps: steps(self.steps@),
            at: self.at as nat,
            session: opt_string(self.session),
            phase: self.phase,
            here: self.here@,
        }
    }

    /// Begins a script. Sessions that name no directory are created in `here`.
    pub fn start(script: Script, here: String) -> (r: (ScriptRun, RunAction))
        ensures
            (r.0@, r.1@) == run_start(script.steps@, here@).begin(),
            r.0@.sound(),
    {
        let mut run = ScriptRun {
            steps: script.steps,
            at: 0,
            session: None,
            phase: Phase::Over,
            here,
        };
        let action = run.begin();
        (run, action)
    }

    fn begin(&mut self) -> (r: RunAction)
        ensures
            (final(self)@, r@) == old(self)@.begin(),
            final(self)@.sound(),
    {
        if self.at >= self.steps.len() {
            self.phase = Phase::Over;
            return RunAction::Done;
        }
        proof {
            assert(self@.steps[self.at as int] == self.steps@[self.at as int]@);
        }
        let (phase, action) = match &self.steps[self.at] {
            Step::Initialize => (Phase::Initializing, RunAction::Initialize),
            Step::NewSession { cwd } => (
                Phase::Creating,
                RunAction::NewSession { cwd: copy_or(cwd, self.here.as_str()) },
            ),
            Step::LoadSession { session_id, cwd } => (
                Phase::Loading,
                RunAction::LoadSession {
                    session_id: session_id.as_str().to_owned(),
                    cwd: copy_or(cwd, self.here.as_str()),
                },
            ),
            Step::Prompt { text, cancel_after_updates: _ } => match &self.session {
                Some(session_id) => (
                    Phase::Prompting,
                    RunAction::Prompt {
                        session_id: session_id.as_str().to_owned(),
                        text: text.as_str().to_owned(),
                    },
                ),
                None => (
                    Phase::Over,
                    RunAction::Fail(refusal("session/prompt before any session/new")),
                ),
            },
            Step::Cancel => match &self.session {
                Some(session_id) => (
                    Phase::Cancelling,
                    RunAction::Cancel { session_id: session_id.as_str().to_owned() },
                ),
                None => (
                    Phase::Over,
                    RunAction::Fail(refusal("session/cancel before any session/new")),
                ),
            },
        };
        self.phase = phase;
        action
    }

    fn following(&mut self) -> (r: RunAction)
        requires
            old(self)@.at < old(self)@.steps.len(),
        ensures
            (final(self)@, r@) == old(self)@.following(),
            final(self)@.sound(),
    {
        proof {
            assert(self.at < self.steps.len());
        }
        self.at = self.at + 1;
        self.begin()
    }

    fn count(&self) -> (r: Option<usize>)
        ensures
            r == self@.count(),
    {
        if self.at < self.steps.len() {
            proof {
                assert(self@.steps[self.at as int] == self.steps@[self.at as int]@);
            }
            match &self.steps[self.at] {
                Step::Prompt { text: _, cancel_after_updates } => *cancel_after_updates,
                _ => None,
            }
        } else {
            None
        }
    }

    fn loading(&self) -> (r: Option<String>)
        ensures
            opt_string(r) == (match (self@.phase, self@.step()) {
                (Phase::Loading, Some(StepSpec::LoadSession { session_id, cwd })) => Some(
                    session_id,
                ),
                _ => None,
            }),
    {
        if self.at < self.steps.len() {
            proof {
                assert(self@.steps[self.at as int] == self.steps@[self.at as int]@);
            }
            match (self.phase, &self.steps[self.at]) {
                (Phase::Loading, Step::LoadSession { session_id, cwd: _ }) => Some(
                    session_id.as_str().to_owned(),
                ),
                _ => None,
            }
        } else {
            None
        }
    }

    /// What follows.
    pub fn next(&mut self, event: RunEvent) -> (r: RunAction)
        requires
            old(self)@.sound(),
            old(self)@.expects(event@),
        ensures
            (final(self)@, r@) == old(self)@.next(event@),
            final(self)@.sound(),
    {
        match event {
            RunEvent::Failed(e) => {
                self.phase = Phase::Over;
                RunAction::Fail(e)
            },
            RunEvent::Created { session_id } => {
                self.session = Some(session_id);
                self.phase = Phase::Settling;
                RunAction::Settle
            },
            RunEvent::Answered => match self.loading() {
                Some(session_id) => {
                    self.session = Some(session_id);
                    self.phase = Phase::Settling;
                    RunAction::Settle
                },
                None => self.following(),
            },
            RunEvent::Paused => self.following(),
            RunEvent::Sent { updates } => match (self.phase, self.count()) {
                (Phase::Cancelling, _) => self.following(),
                (Phase::Prompting, Some(n)) => {
                    self.phase = Phase::Waiting;
                    RunAction::WaitUpdates { target: updates + n }
                },
                _ => {
                    self.phase = Phase::Answering;
                    RunAction::AwaitAnswer
                },
            },
            RunEvent::Reached => {
                self.phase = Phase::Interrupting;
                let none = String::new();
                let action = RunAction::Cancel {
                    session_id: copy_or(&self.session, none.as_str()),
                };
                action
            },
            RunEvent::TimedOut => {
                let n: usize = match self.count() {
                    Some(n) => n,
                    None => 0,
                };
                self.phase = Phase::Over;
                RunAction::Fail(too_late(n))
            },
        }
    }

    /// Whether this can come now.
    pub fn expects(&self, event: &RunEvent) -> (r: bool)
        ensures
            r == self@.expects(event@),
    {
        match (self.phase, event) {
            (Phase::Over, _) => false,
            (_, RunEvent::Failed(_)) => true,
            (Phase::Initializing, RunEvent::Answered) => true,
            (Phase::Creating, RunEvent::Created { .. }) => true,
            (Phase::Loading, RunEvent::Answered) => true,
            (Phase::Settling, RunEvent::Paused) => true,
            (Phase::Prompting, RunEvent::Sent { updates }) => match self.count() {
                Some(n) => *updates <= usize::MAX - n,
                None => true,
            },
            (Phase::Waiting, RunEvent::Reached) => true,
            (Phase::Waiting, RunEvent::TimedOut) => true,
            (Phase::Interrupting, RunEvent::Sent { .. }) => true,
            (Phase::Answering, RunEvent::Answered) => true,
            (Phase::Cancelling, RunEvent::Sent { .. }) => true,
            _ => false,
        }
    }
}

/// A script before its first step.
pub open spec fn run_start(script: Seq<Step>, here: Seq<char>) -> RunSpec {
    RunSpec { steps: steps(script), at: 0, session: None, phase: Phase::Over, here }
}

/// Whether an action is the call that a step asks for, or stops the script where
/// the step needs a session and there is none.
pub open spec fn carries_out(step: StepSpec, action: RunActionSpec, run: RunSpec) -> bool {
    match step {
        StepSpec::Initialize => action == RunActionSpec::Initialize,
        StepSpec::NewSession { cwd } => action == (RunActionSpec::NewSession {
            cwd: text_or(cwd, run.here),
        }),
        StepSpec::LoadSession { session_id, cwd } => action == (RunActionSpec::LoadSession {
            session_id,
            cwd: text_or(cwd, run.here),
        }),
        StepSpec::Prompt { text, cancel_after_updates } => match run.session {
            Some(session_id) => action == (RunActionSpec::Prompt { session_id, text }),
            None => action is Fail,
        },
        StepSpec::Cancel => match run.session {
            Some(session_id) => action == (RunActionSpec::Cancel { session_id }),
            None => action is Fail,
        },
    }
}

/// Whether each of these comes when it can.
pub open spec fn all_expected(run: RunSpec, events: Seq<RunEventSpec>) -> bool
    decreases events.len(),
{
    if events.len() == 0 {
        true
    } else {
        &&& all_expected(run, events.drop_last())
        &&& run_of(run, events.drop_last()).expects(events.last())
    }
}

/// How far the script is after these came.
pub open spec fn run_of(run: RunSpec, events: Seq<RunEventSpec>) -> RunSpec
    decreases events.len(),
{
    if events.len() == 0 {
        run.begin().0
    } else {
        run_of(run, events.drop_last()).next(events.last()).0
    }
}

/// What was done last.
pub open spec fn last_action(run: RunSpec, events: Seq<RunEventSpec>) -> RunActionSpec {
    if events.len() == 0 {
        run.begin().1
    } else {
        run_of(run, events.drop_last()).next(events.last()).1
    }
}

/// How many steps were begun.
pub open spec fn begun(run: RunSpec, events: Seq<RunEventSpec>) -> nat
    decreases events.len(),
{
    if events.len() == 0 {
        1
    } else {
        let before = run_of(run, events.drop_last());
        begun(run, events.drop_last()) + if run_of(run, events).at > before.at {
            1nat
        } else {
            0
        }
    }
}

/// A script that is being run stays sound.
pub proof fn law_run_stays_sound(script: Seq<Step>, here: Seq<char>, events: Seq<RunEventSpec>)
    requires
        all_expected(run_start(script, here), events),
    ensures
        run_of(run_start(script, here), events).sound(),
        run_of(run_start(script, here), events).steps == steps(script),
        run_of(run_start(script, here), events).at <= script.len(),
    decreases events.len(),
{
    if events.len() > 0 {
        law_run_stays_sound(script, here, events.drop_last());
    }
}

/// The steps of a script are carried out in order, each once: a step is begun when
/// the one before it is over, with the call that it asks for.
pub proof fn law_steps_in_order(script: Seq<Step>, here: Seq<char>, events: Seq<RunEventSpec>)
    requires
        all_expected(run_start(script, here), events),
    ensures
        ({
            let start = run_start(script, here);
            let run = run_of(start, events);
            &&& begun(start, events) == run.at + 1
            &&& events.len() > 0 ==> {
                let before = run_of(start, events.drop_last());
                &&& run.at == before.at || run.at == before.at + 1
                &&& run.at == before.at + 1 && run.at < script.len() ==> carries_out(
                    script[run.at as int]@,
                    last_action(start, events),
                    run,
                )
            }
        }),
    decreases events.len(),
{
    if events.len() > 0 {
        law_steps_in_order(script, here, events.drop_last());
        law_run_stays_sound(script, here, events.drop_last());
        law_run_stays_sound(script, here, events);
    }
}

/// A script that is done has carried out every step.
pub proof fn law_done_means_every_step(script: Seq<Step>, here: Seq<char>, events: Seq<RunEventSpec>)
    requires
        all_expected(run_start(script, here), events),
        last_action(run_start(script, here), events) is Done,
    ensures
        run_of(run_start(script, here), events).at == script.len(),
    decreases events.len(),
{
    law_run_stays_sound(script, here, events);
    if events.len() > 0 {
        law_run_stays_sound(script, here, events.drop_last());
    }
}

/// The lines that pass are recorded in the order in which they pass: recording
/// some and then others gives what recording all of them gives.
pub proof fn law_lines_are_recorded_in_order(
    a: Seq<(Seq<char>, LineSource)>,
    b: Seq<(Seq<char>, LineSource)>,
)
    ensures
        all_captured(a + b) == all_captured(a) + all_captured(b),
    decreases b.len(),
{
    if b.len() == 0 {
        assert(a + b =~= a);
        assert(all_captured(a) + all_captured(b) =~= all_captured(a));
    } else {
        law_lines_are_recorded_in_order(a, b.drop_last());
        assert((a + b).drop_last() =~= a + b.drop_last());
        assert((a + b).last() == b.last());
        match captured(b.last().0, b.last().1) {
            Some(f) => {
                assert(all_captured(a) + all_captured(b.drop_last()).push(f) =~= (all_captured(a)
                    + all_captured(b.drop_last())).push(f));
            },
            None => {},
        }
    }
}

} // verus!

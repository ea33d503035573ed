//! Playing a transcript back in place of the child.
//!
//! Each line of the input has to hold what the next step expects. It is answered
//! with the frames of that step, filled in from it.

use vstd::prelude::*;
use vstd::string::*;
use vstd::utf8::encode_utf8;

use crate::acp::opt_value;
use crate::dispatch::type_of;
use crate::json::{empty_object, json_read, json_pretty, json_text, jsons, opt_text, Json, JsonSpec};
use crate::map::or_null;
use crate::strs::{decimal, decimal_text, lines, str_eq, text_lines, texts, trim, trimmed};
use crate::transcript::{filled, holds, subset_match, substitute, Step, StepSpec, Transcript};

verus! {

/// Why a playback failed.
#[derive(Debug, Clone, PartialEq, Eq)]
pub enum ReplayError {
    /// A frame was not the expected one.
    Mismatch { expected: String, actual: String },
    /// The input ended too early.
    Eof { remaining: usize },
    /// A line of the input is no JSON document.
    BadFrame { frame: String, source: String },
    /// Reading or writing failed.
    Io(String),
}

/// Why a playback failed.
#[verifier::ext_equal]
pub enum ReplayErrorSpec {
    Mismatch { expected: Seq<char>, actual: Seq<char> },
    Eof { remaining: nat },
    BadFrame { frame: Seq<char>, source: Seq<char> },
    Io(Seq<char>),
}

impl ReplayErrorSpec {
    /// What went wrong, in words.
    pub open spec fn words(self) -> Seq<char> {
        match self {
            ReplayErrorSpec::Mismatch { expected, actual } =>
                "stdin frame did not match transcript step:\n  expected subset: "@ + expected
                    + "\n  actual frame:      "@ + actual,
            ReplayErrorSpec::Eof { remaining } => "stdin reached EOF with "@ + decimal(remaining)
                + " transcript steps remaining"@,
            ReplayErrorSpec::BadFrame { frame, source } => "failed to parse stdin line `"@ + frame
                + "`: "@ + source,
            ReplayErrorSpec::Io(e) => "I/O error: "@ + e,
        }
    }
}

impl ReplayError {
    /// Why the playback failed.
    pub open spec fn view(&self) -> ReplayErrorSpec {
        match self {
            ReplayError::Mismatch { expected, actual } => ReplayErrorSpec::Mismatch {
                expected: expected@,
                actual: actual@,
            },
            ReplayError::Eof { remaining } => ReplayErrorSpec::Eof { remaining: *remaining as nat },
            ReplayError::BadFrame { frame, source } => ReplayErrorSpec::BadFrame {
                frame: frame@,
                source: source@,
            },
            ReplayError::Io(e) => ReplayErrorSpec::Io(e@),
        }
    }

    /// What went wrong, in words.
    pub fn describe(&self) -> (r: String)
        ensures
            r@ == self@.words(),
    {
        match self {
            ReplayError::Mismatch { expected, actual } => {
                let mut r =
                    "stdin frame did not match transcript step:\n  expected subset: ".to_owned();
                r.append(expected.as_str());
                r.append("\n  actual frame:      ");
                r.append(actual.as_str());
                r
            },
            ReplayError::Eof { remaining } => {
                let mut r = "stdin reached EOF with ".to_owned();
                r.append(decimal_text(*remaining as u128).as_str());
                r.append(" transcript steps remaining");
                r
            },
            ReplayError::BadFrame { frame, source } => {
                let mut r = "failed to parse stdin line `".to_owned();
                r.append(frame.as_str());
                r.append("`: ");
                r.append(source.as_str());
                r
            },
            ReplayError::Io(e) => {
                let mut r = "I/O error: ".to_owned();
                r.append(e.as_str());
                r
            },
        }
    }
}

/// What a playback puts out.
#[derive(Debug, Clone, PartialEq, Eq)]
pub enum Output {
    /// A line, with its newline.
    Line(String),
    /// A pause, in milliseconds.
    Sleep(u64),
}

/// What a playback puts out.
#[verifier::ext_equal]
pub enum OutputSpec {
    Line(Seq<char>),
    Sleep(u64),
}

impl Output {
    /// What is put out.
    pub open spec fn view(&self) -> OutputSpec {
        match self {
            Output::Line(s) => OutputSpec::Line(s@),
            Output::Sleep(ms) => OutputSpec::Sleep(*ms),
        }
    }
}

/// What is put out, in order.
pub open spec fn outputs(v: Seq<Output>) -> Seq<OutputSpec> {
    Seq::new(v.len(), |i: int| v[i]@)
}

/// What a frame of a step puts out: itself, filled in, or a pause if it asks for
/// one.
pub open spec fn output_of(emit: JsonSpec, matched: JsonSpec) -> OutputSpec {
    match emit.get_u64("sleep_ms"@) {
        Some(ms) => OutputSpec::Sleep(ms),
        None => OutputSpec::Line(json_text(filled(emit, matched)).push('\n')),
    }
}

/// The line of a keep-alive.
pub open spec fn keep_alive_line() -> Seq<char> {
    "{\"type\":\"keep_alive\"}\n"@
}

/// What a step puts out for the frame that it matched.
pub open spec fn step_outputs(step: StepSpec, matched: JsonSpec) -> Seq<OutputSpec> {
    let answers = Seq::new(step.emit.len(), |i: int| output_of(step.emit[i], matched));
    if step.keep_alive {
        answers.push(OutputSpec::Line(keep_alive_line()))
    } else {
        answers
    }
}

/// Whether a frame is the `initialize` request.
pub open spec fn initializes(frame: JsonSpec) -> bool {
    type_of(frame) == "control_request"@ && or_null(frame.get("request"@)).str_or_empty("subtype"@)
        == "initialize"@
}

/// Whether a frame is the `initialize` request.
pub fn is_initialize(frame: &Json) -> (r: bool)
    ensures
        r == initializes(frame@),
{
    if !str_eq(frame.str_or_empty("type"), "control_request") {
        return false;
    }
    let subtype = match frame.get("request") {
        Some(request) => request.str_or_empty("subtype"),
        None => "",
    };
    proof {
        reveal_strlit("");
        reveal_strlit("initialize");
        assert("initialize"@.len() == 10);
        assert(or_null(None).str_or_empty("subtype"@) =~= Seq::<char>::empty());
    }
    str_eq(subtype, "initialize")
}

/// How far a playback is: which step comes next, whether the first `initialize`
/// was seen, and whether a step ended it.
#[verifier::ext_equal]
pub struct ReplaySpec {
    pub at: nat,
    pub initialized: bool,
    pub over: bool,
}

/// What a line of the input leads to.
pub struct AnsweredSpec {
    pub next: ReplaySpec,
    pub outputs: Seq<OutputSpec>,
    pub init: Option<JsonSpec>,
}

impl ReplaySpec {
    /// A playback at its start.
    pub open spec fn start() -> ReplaySpec {
        ReplaySpec { at: 0, initialized: false, over: false }
    }

    /// Nothing changes.
    pub open spec fn quiet(self) -> AnsweredSpec {
        AnsweredSpec { next: self, outputs: Seq::empty(), init: None }
    }

    /// A frame that the step expected. The first `initialize` is handed out.
    pub open spec fn matched(self, step: StepSpec, frame: JsonSpec) -> AnsweredSpec {
        AnsweredSpec {
            next: ReplaySpec {
                at: self.at + 1,
                initialized: self.initialized || initializes(frame),
                over: step.exit,
            },
            outputs: step_outputs(step, frame),
            init: if !self.initialized && initializes(frame) {
                Some(frame)
            } else {
                None
            },
        }
    }

    /// A line of the input. Once every step was played, lines are ignored; a blank
    /// line always is.
    pub open spec fn line(self, steps: Seq<StepSpec>, line: Seq<char>) -> Result<
        AnsweredSpec,
        ReplayErrorSpec,
    > {
        let text = trimmed(line);
        if self.at >= steps.len() || text.len() == 0 {
            Ok(self.quiet())
        } else {
            let step = steps[self.at as int];
            match json_read(encode_utf8(text)) {
                Err(source) => Err(ReplayErrorSpec::BadFrame { frame: text, source }),
                Ok(frame) => if holds(step.expect, frame) {
                    Ok(self.matched(step, frame))
                } else {
                    Err(
                        ReplayErrorSpec::Mismatch { expected: json_text(step.expect), actual: text },
                    )
                },
            }
        }
    }

    /// The end of the input: how many steps were played, if it was all of them.
    pub open spec fn end(self, steps: Seq<StepSpec>) -> Result<nat, ReplayErrorSpec> {
        if self.at >= steps.len() {
            Ok(self.at)
        } else {
            Err(ReplayErrorSpec::Eof { remaining: (steps.len() - self.at) as nat })
        }
    }
}

/// How far a playback is.
pub struct Replay {
    at: usize,
    initialized: bool,
    over: bool,
}

/// What a line of the input leads to.
pub struct Answered {
    /// What is put out, in order.
    pub outputs: Vec<Output>,
    /// The first `initialize`, if this is it.
    pub init: Option<Json>,
}

fn make_output(emit: &Json, matched: &Json) -> (r: Output)
    ensures
        r@ == output_of(emit@, matched@),
{
    match emit.get_u64("sleep_ms") {
        Some(ms) => Output::Sleep(ms),
        None => {
            let mut text = substitute(emit, matched).to_text();
            text.push('\n');
            Output::Line(text)
        },
    }
}

fn make_outputs(step: &Step, matched: &Json) -> (r: Vec<Output>)
    ensures
        outputs(r@) == step_outputs(step@, matched@),
{
    let ghost answers = Seq::new(step@.emit.len(), |i: int| output_of(step@.emit[i], matched@));
    let mut out: Vec<Output> = Vec::new();
    let mut i: usize = 0;
    while i < step.emit.len()
        invariant
            i <= step.emit@.len(),
            out@.len() == i,
            forall|k: int|
                0 <= k < i ==> (#[trigger] out@[k])@ == output_of(step.emit@[k]@, matched@),
        decreases step.emit@.len() - i,
    {
        out.push(make_output(&step.emit[i], matched));
        i += 1;
    }
    proof {
        assert(outputs(out@) =~= answers);
    }
    if step.keep_alive {
        let ghost before = out@;
        let line = Output::Line("{\"type\":\"keep_alive\"}\n".to_owned());
        out.push(line);
        proof {
            assert(outputs(out@) =~= outputs(before).push(line@));
        }
    }
    out
}

impl Replay {
    /// How far the playback is.
    pub closed spec fn view(&self) -> ReplaySpec {
        ReplaySpec { at: self.at as nat, initialized: self.initialized, over: self.over }
    }

    /// A playback at its start.
    pub fn new() -> (r: Replay)
        ensures
            r@ == ReplaySpec::start(),
    {
        Replay { at: 0, initialized: false, over: false }
    }

    /// Whether a step ended the playback.
    pub fn is_over(&self) -> (r: bool)
        ensures
            r == self@.over,
    {
        self.over
    }

    /// How many steps were played.
    pub fn played(&self) -> (r: usize)
        ensures
            r == self@.at,
    {
        self.at
    }

    /// A line of the input.
    pub fn on_line(&mut self, transcript: &Transcript, raw: &str) -> (r: Result<
        Answered,
        ReplayError,
    >)
        ensures
            match old(self)@.line(transcript@.steps, raw@) {
                Ok(a) => {
                    &&& final(self)@ == a.next
                    &&& r matches Ok(answered)
                    &&& outputs(answered.outputs@) == a.outputs
                    &&& opt_value(answered.init) == a.init
                },
                Err(e) => {
                    &&& final(self)@ == old(self)@
                    &&& r matches Err(error)
                    &&& error@ == e
                },
            },
    {
        let text = trim(raw);
        if self.at >= transcript.steps.len() || text.as_str().is_empty() {
            let none: Vec<Output> = Vec::new();
            proof {
                assert(outputs(none@) =~= Seq::<OutputSpec>::empty());
            }
            return Ok(Answered { outputs: none, init: None });
        }
        let step = &transcript.steps[self.at];
        proof {
            assert(transcript@.steps[self.at as int] == step@);
        }
        let frame = match Json::read_str(text.as_str()) {
            Ok(frame) => frame,
            Err(source) => {
                return Err(ReplayError::BadFrame { frame: text, source });
            },
        };
        if !subset_match(&step.expect, &frame) {
            return Err(
                ReplayError::Mismatch { expected: step.expect.to_text(), actual: text },
            );
        }
        let first = !self.initialized && is_initialize(&frame);
        let init = if first {
            Some(frame.copy())
        } else {
            None
        };
        let out = make_outputs(step, &frame);
        self.initialized = self.initialized || first;
        self.over = step.exit;
        self.at = self.at + 1;
        Ok(Answered { outputs: out, init })
    }

    /// The end of the input.
    pub fn on_eof(&self, transcript: &Transcript) -> (r: Result<usize, ReplayError>)
        ensures
            match self@.end(transcript@.steps) {
                Ok(n) => r matches Ok(m) && m == n,
                Err(e) => r matches Err(error) && error@ == e,
            },
    {
        if self.at >= transcript.steps.len() {
            Ok(self.at)
        } else {
            Err(ReplayError::Eof { remaining: transcript.steps.len() - self.at })
        }
    }
}

/// What a whole playback comes to.
pub struct PlayedSpec {
    pub outputs: Seq<OutputSpec>,
    pub init: Option<JsonSpec>,
    pub end: Result<nat, ReplayErrorSpec>,
}

/// What the lines of an input come to.
pub open spec fn played(s: ReplaySpec, steps: Seq<StepSpec>, lines: Seq<Seq<char>>) -> PlayedSpec
    decreases lines.len(),
{
    if s.over {
        PlayedSpec { outputs: Seq::empty(), init: None, end: Ok(s.at) }
    } else if lines.len() == 0 {
        PlayedSpec { outputs: Seq::empty(), init: None, end: s.end(steps) }
    } else {
        match s.line(steps, lines[0]) {
            Err(e) => PlayedSpec { outputs: Seq::empty(), init: None, end: Err(e) },
            Ok(a) => {
                let rest = played(a.next, steps, lines.skip(1));
                PlayedSpec {
                    outputs: a.outputs + rest.outputs,
                    init: if a.init is Some {
                        a.init
                    } else {
                        rest.init
                    },
                    end: rest.end,
                }
            },
        }
    }
}

/// What a whole playback comes to.
pub struct Played {
    /// What is put out, in order.
    pub outputs: Vec<Output>,
    /// The first `initialize` among the frames.
    pub init: Option<Json>,
    /// How many steps were played, or why it failed.
    pub result: Result<usize, ReplayError>,
}

impl Played {
    /// What the playback comes to.
    pub open spec fn view(&self) -> PlayedSpec {
        PlayedSpec {
            outputs: outputs(self.outputs@),
            init: opt_value(self.init),
            end: match self.result {
                Ok(n) => Ok(n as nat),
                Err(e) => Err(e@),
            },
        }
    }
}

/// The first `initialize` is handed out once: after it, none is.
pub proof fn law_initialize_is_handed_out_once(
    s: ReplaySpec,
    steps: Seq<StepSpec>,
    lines: Seq<Seq<char>>,
)
    requires
        s.initialized,
    ensures
        played(s, steps, lines).init is None,
    decreases lines.len(),
{
    if !s.over && lines.len() > 0 {
        match s.line(steps, lines[0]) {
            Ok(a) => {
                law_initialize_is_handed_out_once(a.next, steps, lines.skip(1));
            },
            Err(_) => {},
        }
    }
}

/// A playback that ends well has played every step, or ended at one that ends it.
pub proof fn law_every_step_is_played(
    s: ReplaySpec,
    steps: Seq<StepSpec>,
    lines: Seq<Seq<char>>,
)
    requires
        !s.over,
        s.at <= steps.len(),
        played(s, steps, lines).end is Ok,
    ensures
        ({
            let n = played(s, steps, lines).end->Ok_0;
            &&& s.at <= n <= steps.len()
            &&& n == steps.len() || n > 0 && steps[n - 1].exit
        }),
    decreases lines.len(),
{
    if lines.len() > 0 {
        match s.line(steps, lines[0]) {
            Ok(a) => {
                if a.next.over {
                    assert(played(a.next, steps, lines.skip(1)).end == Ok::<
                        nat,
                        ReplayErrorSpec,
                    >(a.next.at));
                } else {
                    law_every_step_is_played(a.next, steps, lines.skip(1));
                }
            },
            Err(_) => {},
        }
    }
}

/// Plays a transcript back against a whole input.
pub fn replay(transcript: &Transcript, input: &str) -> (r: Played)
    ensures
        r@ == played(ReplaySpec::start(), transcript@.steps, text_lines(input@)),
{
    let raw = lines(input);
    let ghost all = text_lines(input@);
    let ghost want = played(ReplaySpec::start(), transcript@.steps, all);
    let mut state = Replay::new();
    let mut out: Vec<Output> = Vec::new();
    let mut init: Option<Json> = None;
    let mut i: usize = 0;
    proof {
        assert(all.skip(0) =~= all);
        assert(outputs(out@) + want.outputs =~= want.outputs);
    }
    while i < raw.len() && !state.is_over()
        invariant
            i <= raw@.len(),
            texts(raw@) == all,
            all == text_lines(input@),
            want == played(ReplaySpec::start(), transcript@.steps, all),
            init is Some ==> state@.initialized,
            ({
                let rest = played(state@, transcript@.steps, all.skip(i as int));
                &&& want.outputs == outputs(out@) + rest.outputs
                &&& want.end == rest.end
                &&& want.init == (if init is Some {
                    opt_value(init)
                } else {
                    rest.init
                })
            }),
        decreases raw@.len() - i,
    {
        let ghost before = out@;
        let ghost s = state@;
        let ghost rest = all.skip(i as int);
        proof {
            assert(rest[0] == raw@[i as int]@);
            assert(rest.skip(1) =~= all.skip(i + 1));
        }
        match state.on_line(transcript, raw[i].as_str()) {
            Err(e) => {
                proof {
                    assert(want.outputs =~= outputs(out@));
                }
                return Played { outputs: out, init, result: Err(e) };
            },
            Ok(a) => {
                let mut more = a.outputs;
                let ghost added = more@;
                out.append(&mut more);
                proof {
                    let a = s.line(transcript@.steps, rest[0])->Ok_0;
                    let tail = played(a.next, transcript@.steps, rest.skip(1));
                    assert(outputs(out@) =~= outputs(before) + outputs(added));
                    assert(outputs(before) + (a.outputs + tail.outputs) =~= outputs(out@)
                        + tail.outputs);
                }
                if let Some(j) = a.init {
                    init = Some(j);
                }
            },
        }
        i += 1;
    }
    proof {
        assert(want.outputs =~= outputs(out@));
        if !state@.over {
            assert(all.skip(i as int).len() == 0);
        }
    }
    if state.is_over() {
        Played { outputs: out, init, result: Ok(state.played()) }
    } else {
        Played { outputs: out, init, result: state.on_eof(transcript) }
    }
}

/// What is written of the arguments and the environment that a child was started
/// with. Of the environment only two variables are ever named, one of them without
/// its value.
pub open spec fn start_record(
    argv: Seq<Seq<char>>,
    entrypoint: bool,
    state_events: Option<Seq<char>>,
    node_options: bool,
) -> JsonSpec {
    let none = empty_object();
    let first = if entrypoint {
        none.with("CLAUDE_CODE_ENTRYPOINT"@, JsonSpec::Str("$ENTRYPOINT"@))
    } else {
        none
    };
    let env = match state_events {
        Some(v) => first.with("CLAUDE_CODE_EMIT_SESSION_STATE_EVENTS"@, JsonSpec::Str(v)),
        None => first,
    };
    empty_object().with(
        "argv"@,
        JsonSpec::Array(Seq::new(argv.len(), |i: int| JsonSpec::Str(argv[i]))),
    ).with("env"@, env).with("node_options_present"@, JsonSpec::Bool(node_options))
}

/// What is written of the arguments and the environment that a child was started
/// with: `entrypoint` tells whether `CLAUDE_CODE_ENTRYPOINT` is set,
/// `state_events` is the value of `CLAUDE_CODE_EMIT_SESSION_STATE_EVENTS`, and
/// `node_options` tells whether `NODE_OPTIONS` is set.
pub fn record_argv_env(
    argv: &Vec<String>,
    entrypoint: bool,
    state_events: Option<&str>,
    node_options: bool,
) -> (r: String)
    ensures
        r@ == json_pretty(
            start_record(
                texts(argv@),
                entrypoint,
                opt_text(state_events),
                node_options,
            ),
        ),
{
    let mut list: Vec<Json> = Vec::new();
    let mut i: usize = 0;
    while i < argv.len()
        invariant
            i <= argv@.len(),
            list@.len() == i,
            forall|k: int| 0 <= k < i ==> (#[trigger] list@[k])@ == JsonSpec::Str(argv@[k]@),
        decreases argv@.len() - i,
    {
        list.push(Json::text(argv[i].as_str()));
        i += 1;
    }
    proof {
        assert(jsons(list@) =~= Seq::new(
            texts(argv@).len(),
            |i: int| JsonSpec::Str(texts(argv@)[i]),
        ));
    }
    let first = if entrypoint {
        Json::object().with("CLAUDE_CODE_ENTRYPOINT", Json::text("$ENTRYPOINT"))
    } else {
        Json::object()
    };
    let env = match state_events {
        Some(v) => first.with("CLAUDE_CODE_EMIT_SESSION_STATE_EVENTS", Json::text(v)),
        None => first,
    };
    Json::object().with("argv", Json::array(list)).with("env", env).with(
        "node_options_present",
        Json::Bool(node_options),
    ).to_pretty()
}

/// What is written of a frame.
pub fn record_frame(frame: &Json) -> (r: String)
    ensures
        r@ == json_pretty(frame@),
{
    frame.to_pretty()
}

} // verus!

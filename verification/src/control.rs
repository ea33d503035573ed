//! The control channel: the one writer to the child's input.
//!
//! Requests to the child wait for their response under a random id. Requests of
//! the child are handled one by one, and can be withdrawn. What to do with each
//! frame is decided here; the task that owns the child's input does it.

use vstd::prelude::*;
use vstd::string::*;

use crate::acp::opt_value;
use crate::dispatch::type_of;
use crate::json::{empty_object, jsons, opt_text, Json, JsonSpec};
use crate::map::or_null;
use crate::strmap::StrMap;
use crate::strs::str_eq;

verus! {

/// Why the control channel failed.
#[derive(Debug, Clone, PartialEq, Eq)]
pub enum ControlError {
    /// It is closed.
    Closed,
    /// A frame could not be written.
    Stdin(String),
    /// A frame could not be printed.
    Serialize(String),
}

impl ControlError {
    /// What went wrong, in words.
    pub open spec fn words(self) -> Seq<char> {
        match self {
            ControlError::Closed => "control channel closed"@,
            ControlError::Stdin(e) => "failed to write a frame to child stdin: "@ + e@,
            ControlError::Serialize(e) => "failed to serialise a frame: "@ + e@,
        }
    }

    /// What went wrong, in words.
    pub fn describe(&self) -> (r: String)
        ensures
            r@ == self.words(),
    {
        match self {
            ControlError::Closed => "control channel closed".to_owned(),
            ControlError::Stdin(e) => {
                let mut r = "failed to write a frame to child stdin: ".to_owned();
                r.append(e.as_str());
                r
            },
            ControlError::Serialize(e) => {
                let mut r = "failed to serialise a frame: ".to_owned();
                r.append(e.as_str());
                r
            },
        }
    }
}

/// What the child tells in answer to `initialize`.
pub struct InitializeInfo {
    pub commands: Vec<Json>,
    pub models: Vec<Json>,
    pub account: Option<Json>,
    /// Requests for permission that are still open.
    pub pending_permission_requests: Vec<Json>,
}

/// What the child is told with `initialize`. What is not set is left out.
pub struct InitializeOptions {
    pub system_prompt: Option<Json>,
    pub agents: Option<Json>,
    pub hooks: Option<Json>,
    pub skills: Option<Json>,
    pub tool_aliases: Option<Json>,
    pub forward_subagent_text: bool,
}

impl Default for InitializeOptions {
    fn default() -> (r: InitializeOptions)
        ensures
            r.system_prompt is None,
            r.agents is None,
            r.hooks is None,
            r.skills is None,
            r.tool_aliases is None,
            !r.forward_subagent_text,
    {
        InitializeOptions {
            system_prompt: None,
            agents: None,
            hooks: None,
            skills: None,
            tool_aliases: None,
            forward_subagent_text: false,
        }
    }
}

/// The object with the member, if there is one.
pub open spec fn with_some(j: JsonSpec, key: Seq<char>, value: Option<Json>) -> JsonSpec {
    match value {
        Some(v) => j.with(key, v@),
        None => j,
    }
}

fn put_some(j: Json, key: &str, value: &Option<Json>) -> (r: Json)
    ensures
        r@ == with_some(j@, key@, *value),
{
    match value {
        Some(v) => j.with(key, v.copy()),
        None => j,
    }
}

impl InitializeOptions {
    /// The `initialize` request.
    pub open spec fn request(self) -> JsonSpec {
        with_some(
            with_some(
                with_some(
                    with_some(
                        with_some(
                            empty_object().with("subtype"@, JsonSpec::Str("initialize"@)),
                            "hooks"@,
                            self.hooks,
                        ),
                        "systemPrompt"@,
                        self.system_prompt,
                    ),
                    "agents"@,
                    self.agents,
                ),
                "skills"@,
                self.skills,
            ),
            "toolAliases"@,
            self.tool_aliases,
        ).with("forwardSubagentText"@, JsonSpec::Bool(self.forward_subagent_text))
    }

    /// The `initialize` request. Whether subagents' text is forwarded is always
    /// said, also if it is not.
    pub fn build_request(&self) -> (r: Json)
        ensures
            r@ == self.request(),
    {
        let j = Json::object().with("subtype", Json::text("initialize"));
        let j = put_some(j, "hooks", &self.hooks);
        let j = put_some(j, "systemPrompt", &self.system_prompt);
        let j = put_some(j, "agents", &self.agents);
        let j = put_some(j, "skills", &self.skills);
        let j = put_some(j, "toolAliases", &self.tool_aliases);
        j.with("forwardSubagentText", Json::Bool(self.forward_subagent_text))
    }
}

/// The inner response of a control response, or null.
pub open spec fn inner_response(frame: JsonSpec) -> JsonSpec {
    or_null(or_null(frame.get("response"@)).get("response"@))
}

/// The list under `key`; the empty list if there is none.
pub open spec fn list_under(j: JsonSpec, key: Seq<char>) -> Seq<JsonSpec> {
    match j.get_array(key) {
        Some(a) => a,
        None => Seq::empty(),
    }
}

fn copy_list(j: &Json, key: &str) -> (r: Vec<Json>)
    ensures
        jsons(r@) == list_under(j@, key@),
{
    let mut out: Vec<Json> = Vec::new();
    if let Some(a) = j.get_array(key) {
        let mut i: usize = 0;
        while i < a.len()
            invariant
                i <= a@.len(),
                out@.len() == i,
                forall|k: int| 0 <= k < i ==> (#[trigger] out@[k])@ == a@[k]@,
            decreases a@.len() - i,
        {
            out.push(a[i].copy());
            i += 1;
        }
        proof {
            assert(jsons(out@) =~= jsons(a@));
        }
    } else {
        proof {
            assert(jsons(out@) =~= Seq::<JsonSpec>::empty());
        }
    }
    out
}

/// Reads the answer to `initialize`. What is missing is empty.
pub fn parse_initialize_response(frame: &Json) -> (r: InitializeInfo)
    ensures
        jsons(r.commands@) == list_under(inner_response(frame@), "commands"@),
        jsons(r.models@) == list_under(inner_response(frame@), "models"@),
        opt_value(r.account) == inner_response(frame@).get("account"@),
        jsons(r.pending_permission_requests@) == list_under(
            inner_response(frame@),
            "pending_permission_requests"@,
        ),
{
    let none = Json::Null;
    let outer = match frame.get("response") {
        Some(o) => o,
        None => &none,
    };
    let inner = match outer.get("response") {
        Some(i) => i,
        None => &none,
    };
    InitializeInfo {
        commands: copy_list(inner, "commands"),
        models: copy_list(inner, "models"),
        account: match inner.get("account") {
            Some(a) => Some(a.copy()),
            None => None,
        },
        pending_permission_requests: copy_list(inner, "pending_permission_requests"),
    }
}

/// How many characters a request id has.
pub const REQUEST_ID_LEN: usize = 13;

/// The character of a digit to the base 36.
pub open spec fn base36_char(d: nat) -> char {
    if d < 10 {
        (48 + d) as char
    } else {
        (87 + d) as char
    }
}

/// The last `n` digits of a number to the base 36, the last one first.
pub open spec fn base36(x: nat, n: nat) -> Seq<char>
    decreases n,
{
    if n == 0 {
        Seq::empty()
    } else {
        seq![base36_char(x % 36)] + base36(x / 36, (n - 1) as nat)
    }
}

/// The number that a request id is made of: a point in time in nanoseconds, and
/// how many ids were made before.
pub open spec fn request_seed(nanos: u128, counter: u64) -> u128 {
    nanos ^ ((counter as u128) << 40)
}

/// A request id, made from a point in time and a count.
pub fn request_id(nanos: u128, counter: u64) -> (r: String)
    ensures
        r@ == base36(request_seed(nanos, counter) as nat, REQUEST_ID_LEN as nat),
{
    let mut x: u128 = nanos ^ ((counter as u128) << 40);
    let ghost all = base36(x as nat, REQUEST_ID_LEN as nat);
    let mut out = String::new();
    let mut i: usize = 0;
    proof {
        assert(out@ + all =~= all);
    }
    while i < REQUEST_ID_LEN
        invariant
            i <= REQUEST_ID_LEN,
            out@ + base36(x as nat, (REQUEST_ID_LEN - i) as nat) == all,
        decreases REQUEST_ID_LEN - i,
    {
        let ghost before = out@;
        let d: u8 = (x % 36) as u8;
        let c = if d < 10 {
            (48u8 + d) as char
        } else {
            (87u8 + d) as char
        };
        out.push(c);
        proof {
            assert(before + base36(x as nat, (REQUEST_ID_LEN - i) as nat) =~= out@ + base36(
                (x / 36) as nat,
                (REQUEST_ID_LEN - i - 1) as nat,
            ));
        }
        x = x / 36;
        i += 1;
    }
    proof {
        assert(out@ + base36(x as nat, 0) =~= out@);
    }
    out
}

/// An id has as many characters as it should, each a digit or a small letter.
pub proof fn law_request_id_shape(x: nat, n: nat)
    ensures
        base36(x, n).len() == n,
        forall|i: int|
            0 <= i < n ==> {
                let c = #[trigger] base36(x, n)[i];
                '0' <= c <= '9' || 'a' <= c <= 'z'
            },
    decreases n,
{
    if n > 0 {
        law_request_id_shape(x / 36, (n - 1) as nat);
        let rest = base36(x / 36, (n - 1) as nat);
        assert forall|i: int| 0 <= i < n implies {
            let c = #[trigger] base36(x, n)[i];
            '0' <= c <= '9' || 'a' <= c <= 'z'
        } by {
            if i > 0 {
                assert(base36(x, n)[i] == rest[i - 1]);
            }
        }
    }
}

/// The value of the digits of a number to the base 36, the last one first.
pub open spec fn base36_value(digits: Seq<char>) -> nat
    decreases digits.len(),
{
    if digits.len() == 0 {
        0
    } else {
        let d = digits[0] as nat;
        let rest = base36_value(digits.skip(1));
        ((if d < 58 {
            d - 48
        } else {
            d - 87
        }) + 36 * rest) as nat
    }
}

/// What thirty-six to the power of `n` is.
pub open spec fn base36_bound(n: nat) -> nat
    decreases n,
{
    if n == 0 {
        1
    } else {
        36 * base36_bound((n - 1) as nat)
    }
}

proof fn lemma_base36_value(x: nat, n: nat)
    requires
        x < base36_bound(n),
    ensures
        base36_value(base36(x, n)) == x,
    decreases n,
{
    if n > 0 {
        lemma_base36_value(x / 36, (n - 1) as nat);
        assert(base36(x, n).skip(1) =~= base36(x / 36, (n - 1) as nat));
    }
}

/// Ids made at one point in time differ if the counts do, up to the year 6600
/// and a hundred million ids.
pub proof fn law_request_ids_differ(nanos: u128, a: u64, b: u64)
    requires
        nanos < 0x8_0000_0000_0000_0000,
        a < 0x800_0000,
        b < 0x800_0000,
        a != b,
    ensures
        base36(request_seed(nanos, a) as nat, REQUEST_ID_LEN as nat) != base36(
            request_seed(nanos, b) as nat,
            REQUEST_ID_LEN as nat,
        ),
{
    let x = request_seed(nanos, a);
    let y = request_seed(nanos, b);
    assert(nanos ^ ((a as u128) << 40) < 0x8_0000_0000_0000_0000) by (bit_vector)
        requires
            nanos < 0x8_0000_0000_0000_0000,
            a < 0x800_0000,
    ;
    assert(nanos ^ ((b as u128) << 40) < 0x8_0000_0000_0000_0000) by (bit_vector)
        requires
            nanos < 0x8_0000_0000_0000_0000,
            b < 0x800_0000,
    ;
    assert(nanos ^ ((a as u128) << 40) != nanos ^ ((b as u128) << 40)) by (bit_vector)
        requires
            a < 0x800_0000,
            b < 0x800_0000,
            a != b,
    ;
    assert(base36_bound(13) == 170_581_728_179_578_208_256) by {
        reveal_with_fuel(base36_bound, 14);
    }
    lemma_base36_value(x as nat, 13);
    lemma_base36_value(y as nat, 13);
}

/// A response to a request, with a subtype and nothing else.
pub open spec fn bare_response(request_id: Seq<char>, subtype: Seq<char>) -> JsonSpec {
    empty_object().with("type"@, JsonSpec::Str("control_response"@)).with(
        "response"@,
        empty_object().with("subtype"@, JsonSpec::Str(subtype)).with(
            "request_id"@,
            JsonSpec::Str(request_id),
        ),
    )
}

/// A response to a request, with a subtype and nothing else.
pub fn build_control_response(request_id: &str, subtype: &str) -> (r: Json)
    ensures
        r@ == bare_response(request_id@, subtype@),
{
    Json::object().with("type", Json::text("control_response")).with(
        "response",
        Json::object().with("subtype", Json::text(subtype)).with(
            "request_id",
            Json::text(request_id),
        ),
    )
}

/// The response to a request that nobody handles.
pub fn respond_error(request_id: &str) -> (r: Json)
    ensures
        r@ == bare_response(request_id@, "error"@),
{
    build_control_response(request_id, "error")
}

/// The id that a response is for.
pub open spec fn responded_id(frame: JsonSpec) -> Option<Seq<char>> {
    or_null(frame.get("response"@)).get_str("request_id"@)
}

fn responded<'a>(frame: &'a Json) -> (r: Option<&'a str>)
    ensures
        opt_text(r) == responded_id(frame@),
{
    match frame.get("response") {
        Some(response) => response.get_str("request_id"),
        None => None,
    }
}

/// A request as it is written.
pub open spec fn request_frame(id: Seq<char>, payload: JsonSpec) -> JsonSpec {
    empty_object().with("request_id"@, JsonSpec::Str(id)).with(
        "type"@,
        JsonSpec::Str("control_request"@),
    ).with("request"@, payload)
}

/// What the control channel is asked for.
pub enum Outbound {
    /// Write a message of the user.
    User(Json),
    /// Write a request under this id; `ticket` is who waits for the response.
    Request { id: String, payload: Json, ticket: u64 },
    /// Write a response. The request that it is for is no longer being handled.
    Response(Json),
    /// Write a withdrawal.
    Cancel(Json),
    /// Handle a request that was open before; `task` is who handles it.
    Replay { frame: Json, task: u64 },
}

/// What the task that owns the child's input has to do.
pub enum ControlAction {
    /// Nothing.
    Idle,
    /// Write this frame.
    Write(Json),
    /// Hand the response to who waits for it.
    Resolve { ticket: u64, frame: Json },
    /// Let the request be handled.
    Handle { task: u64, request_id: String, frame: Json },
    /// Stop handling a request. Nothing is written for it.
    Abort { task: u64 },
}

/// What is asked for.
pub enum OutboundSpec {
    User(JsonSpec),
    Request { id: Seq<char>, payload: JsonSpec, ticket: u64 },
    Response(JsonSpec),
    Cancel(JsonSpec),
    Replay { frame: JsonSpec, task: u64 },
}

/// What has to be done.
pub enum ActionSpec {
    Idle,
    Write(JsonSpec),
    Resolve { ticket: u64, frame: JsonSpec },
    Handle { task: u64, request_id: Seq<char>, frame: JsonSpec },
    Abort { task: u64 },
}

impl Outbound {
    /// What is asked for.
    pub open spec fn view(&self) -> OutboundSpec {
        match self {
            Outbound::User(j) => OutboundSpec::User(j@),
            Outbound::Request { id, payload, ticket } => OutboundSpec::Request {
                id: id@,
                payload: payload@,
                ticket: *ticket,
            },
            Outbound::Response(j) => OutboundSpec::Response(j@),
            Outbound::Cancel(j) => OutboundSpec::Cancel(j@),
            Outbound::Replay { frame, task } => OutboundSpec::Replay { frame: frame@, task: *task },
        }
    }
}

impl ControlAction {
    /// What has to be done.
    pub open spec fn view(&self) -> ActionSpec {
        match self {
            ControlAction::Idle => ActionSpec::Idle,
            ControlAction::Write(j) => ActionSpec::Write(j@),
            ControlAction::Resolve { ticket, frame } => ActionSpec::Resolve {
                ticket: *ticket,
                frame: frame@,
            },
            ControlAction::Handle { task, request_id, frame } => ActionSpec::Handle {
                task: *task,
                request_id: request_id@,
                frame: frame@,
            },
            ControlAction::Abort { task } => ActionSpec::Abort { task: *task },
        }
    }
}

/// What has to be done, one by one.
pub open spec fn actions(v: Seq<ControlAction>) -> Seq<ActionSpec> {
    Seq::new(v.len(), |i: int| v[i]@)
}

/// The requests in both directions that have no response yet.
pub struct Control {
    pending: StrMap<u64>,
    inflight: StrMap<u64>,
}

/// The open requests: who waits for a response, and who handles a request.
#[verifier::ext_equal]
pub struct ControlSpec {
    pub pending: Map<Seq<char>, u64>,
    pub inflight: Map<Seq<char>, u64>,
}

impl ControlSpec {
    /// No open requests.
    pub open spec fn initial() -> ControlSpec {
        ControlSpec { pending: Map::empty(), inflight: Map::empty() }
    }

    /// A request of the child is handled.
    pub open spec fn handle(self, frame: JsonSpec, task: u64) -> (ControlSpec, ActionSpec) {
        let request_id = frame.str_or_empty("request_id"@);
        (
            ControlSpec { inflight: self.inflight.insert(request_id, task), ..self },
            ActionSpec::Handle { task, request_id, frame },
        )
    }

    /// Something is to be sent. Every frame is written once; a request waits for
    /// its response from then on.
    pub open spec fn outbound(self, msg: OutboundSpec) -> (ControlSpec, ActionSpec) {
        match msg {
            OutboundSpec::User(frame) => (self, ActionSpec::Write(frame)),
            OutboundSpec::Request { id, payload, ticket } => (
                ControlSpec { pending: self.pending.insert(id, ticket), ..self },
                ActionSpec::Write(request_frame(id, payload)),
            ),
            OutboundSpec::Response(frame) => (
                match responded_id(frame) {
                    Some(id) => ControlSpec { inflight: self.inflight.remove(id), ..self },
                    None => self,
                },
                ActionSpec::Write(frame),
            ),
            OutboundSpec::Cancel(frame) => (self, ActionSpec::Write(frame)),
            OutboundSpec::Replay { frame, task } => self.handle(frame, task),
        }
    }

    /// Requests are handled that were open before, in order and each by a task of
    /// its own.
    pub open spec fn replayed(self, entries: Seq<JsonSpec>, task: u64) -> (
        ControlSpec,
        Seq<ActionSpec>,
    )
        decreases entries.len(),
    {
        if entries.len() == 0 {
            (self, Seq::empty())
        } else {
            let (next, action) = self.handle(entries[0], task);
            let (last, rest) = next.replayed(entries.skip(1), (task + 1) as u64);
            (last, seq![action] + rest)
        }
    }

    /// A frame of the child. A response goes to who waits for it, one that nobody
    /// waits for is dropped; a request is handled; a withdrawal stops its
    /// handling; anything else is dropped.
    pub open spec fn inbound(self, frame: JsonSpec, task: u64) -> (ControlSpec, ActionSpec) {
        let t = type_of(frame);
        if t == "control_response"@ {
            match responded_id(frame) {
                Some(id) => if self.pending.contains_key(id) {
                    (
                        ControlSpec { pending: self.pending.remove(id), ..self },
                        ActionSpec::Resolve { ticket: self.pending[id], frame },
                    )
                } else {
                    (self, ActionSpec::Idle)
                },
                None => (self, ActionSpec::Idle),
            }
        } else if t == "control_request"@ {
            self.handle(frame, task)
        } else if t == "control_cancel_request"@ {
            match frame.get_str("request_id"@) {
                Some(id) => if self.inflight.contains_key(id) {
                    (
                        ControlSpec { inflight: self.inflight.remove(id), ..self },
                        ActionSpec::Abort { task: self.inflight[id] },
                    )
                } else {
                    (self, ActionSpec::Idle)
                },
                None => (self, ActionSpec::Idle),
            }
        } else {
            (self, ActionSpec::Idle)
        }
    }
}

impl Control {
    /// The open requests.
    pub closed spec fn view(&self) -> ControlSpec {
        ControlSpec { pending: self.pending@, inflight: self.inflight@ }
    }

    /// No open requests.
    pub fn new() -> (r: Control)
        ensures
            r@ == ControlSpec::initial(),
    {
        Control { pending: StrMap::new(), inflight: StrMap::new() }
    }

    fn handle(&mut self, frame: Json, task: u64) -> (r: ControlAction)
        ensures
            final(self)@ == old(self)@.handle(frame@, task).0,
            r@ == old(self)@.handle(frame@, task).1,
    {
        let request_id = frame.str_or_empty("request_id").to_owned();
        self.inflight.insert(request_id.as_str(), task);
        ControlAction::Handle { task, request_id, frame }
    }

    /// Something is to be sent.
    pub fn on_outbound(&mut self, msg: Outbound) -> (r: ControlAction)
        ensures
            final(self)@ == old(self)@.outbound(msg@).0,
            r@ == old(self)@.outbound(msg@).1,
    {
        match msg {
            Outbound::User(frame) => ControlAction::Write(frame),
            Outbound::Request { id, payload, ticket } => {
                self.pending.insert(id.as_str(), ticket);
                ControlAction::Write(
                    Json::object().with("request_id", Json::text(id.as_str())).with(
                        "type",
                        Json::text("control_request"),
                    ).with("request", payload),
                )
            },
            Outbound::Response(frame) => {
                if let Some(id) = responded(&frame) {
                    self.inflight.remove(id);
                }
                ControlAction::Write(frame)
            },
            Outbound::Cancel(frame) => ControlAction::Write(frame),
            Outbound::Replay { frame, task } => self.handle(frame, task),
        }
    }

    /// Sends a message of the user.
    pub fn send_user(&mut self, frame: Json) -> (r: ControlAction)
        ensures
            final(self)@ == old(self)@.outbound(OutboundSpec::User(frame@)).0,
            r@ == old(self)@.outbound(OutboundSpec::User(frame@)).1,
    {
        self.on_outbound(Outbound::User(frame))
    }

    /// Sends a request under a fresh id. Its response goes to `ticket`.
    pub fn send_request(&mut self, payload: Json, id: String, ticket: u64) -> (r: ControlAction)
        ensures
            ({
                let msg = OutboundSpec::Request { id: id@, payload: payload@, ticket };
                &&& final(self)@ == old(self)@.outbound(msg).0
                &&& r@ == old(self)@.outbound(msg).1
            }),
    {
        self.on_outbound(Outbound::Request { id, payload, ticket })
    }

    /// Sends a response.
    pub fn send_response(&mut self, frame: Json) -> (r: ControlAction)
        ensures
            final(self)@ == old(self)@.outbound(OutboundSpec::Response(frame@)).0,
            r@ == old(self)@.outbound(OutboundSpec::Response(frame@)).1,
    {
        self.on_outbound(Outbound::Response(frame))
    }

    /// Sends a withdrawal.
    pub fn send_cancel(&mut self, frame: Json) -> (r: ControlAction)
        ensures
            final(self)@ == old(self)@.outbound(OutboundSpec::Cancel(frame@)).0,
            r@ == old(self)@.outbound(OutboundSpec::Cancel(frame@)).1,
    {
        self.on_outbound(Outbound::Cancel(frame))
    }

    /// Sends `initialize` under a fresh id. Its response goes to `ticket`, and is
    /// read with [`parse_initialize_response`].
    pub fn initialize(&mut self, opts: &InitializeOptions, id: String, ticket: u64) -> (r:
        ControlAction)
        ensures
            ({
                let msg = OutboundSpec::Request { id: id@, payload: opts.request(), ticket };
                &&& final(self)@ == old(self)@.outbound(msg).0
                &&& r@ == old(self)@.outbound(msg).1
            }),
    {
        self.send_request(opts.build_request(), id, ticket)
    }

    /// Lets requests be handled that were open before, in order. They are handled
    /// by the tasks from `first_task` on.
    pub fn replay_pending_permissions(&mut self, entries: &Vec<Json>, first_task: u64) -> (r: Vec<
        ControlAction,
    >)
        requires
            first_task + entries@.len() <= u64::MAX,
        ensures
            final(self)@ == old(self)@.replayed(jsons(entries@), first_task).0,
            actions(r@) == old(self)@.replayed(jsons(entries@), first_task).1,
    {
        let mut out: Vec<ControlAction> = Vec::new();
        let mut i: usize = 0;
        proof {
            assert(jsons(entries@).skip(0) =~= jsons(entries@));
            assert(actions(out@) + old(self)@.replayed(jsons(entries@), first_task).1
                =~= old(self)@.replayed(jsons(entries@), first_task).1);
        }
        while i < entries.len()
            invariant
                i <= entries@.len(),
                first_task + entries@.len() <= u64::MAX,
                ({
                    let rest = self@.replayed(
                        jsons(entries@).skip(i as int),
                        (first_task + i) as u64,
                    );
                    let all = old(self)@.replayed(jsons(entries@), first_task);
                    &&& rest.0 == all.0
                    &&& actions(out@) + rest.1 == all.1
                }),
            decreases entries@.len() - i,
        {
            let ghost before = out@;
            let ghost rest = jsons(entries@).skip(i as int);
            let task: u64 = first_task + i as u64;
            let ghost now = self@;
            let a = self.on_outbound(Outbound::Replay { frame: entries[i].copy(), task });
            proof {
                assert(rest[0] == entries@[i as int]@);
                assert(rest.skip(1) =~= jsons(entries@).skip(i + 1));
            }
            out.push(a);
            proof {
                let tail = now.handle(rest[0], task).0.replayed(
                    rest.skip(1),
                    (task + 1) as u64,
                );
                assert(actions(out@) =~= actions(before).push(a@));
                assert(actions(before) + (seq![a@] + tail.1) =~= actions(out@) + tail.1);
            }
            i += 1;
        }
        proof {
            assert(jsons(entries@).skip(i as int).len() == 0);
            assert(actions(out@) + Seq::<ActionSpec>::empty() =~= actions(out@));
        }
        out
    }

    /// A frame of the child. `task` is who handles it, should it be a request.
    pub fn route_inbound(&mut self, frame: Json, task: u64) -> (r: ControlAction)
        ensures
            final(self)@ == old(self)@.inbound(frame@, task).0,
            r@ == old(self)@.inbound(frame@, task).1,
    {
        let t = frame.str_or_empty("type");
        if str_eq(t, "control_response") {
            let waits = match responded(&frame) {
                Some(id) => self.pending.remove(id),
                None => None,
            };
            match waits {
                Some(ticket) => ControlAction::Resolve { ticket, frame },
                None => {
                    proof {
                        if let Some(id) = responded_id(frame@) {
                            assert(old(self)@.pending.remove(id) =~= old(self)@.pending);
                        }
                    }
                    ControlAction::Idle
                },
            }
        } else if str_eq(t, "control_request") {
            self.handle(frame, task)
        } else if str_eq(t, "control_cancel_request") {
            let handled = match frame.get_str("request_id") {
                Some(id) => self.inflight.remove(id),
                None => None,
            };
            match handled {
                Some(task) => ControlAction::Abort { task },
                None => {
                    proof {
                        if let Some(id) = frame@.get_str("request_id"@) {
                            assert(old(self)@.inflight.remove(id) =~= old(self)@.inflight);
                        }
                    }
                    ControlAction::Idle
                },
            }
        } else {
            ControlAction::Idle
        }
    }
}

/// A response resolves its request once: a second one for the same id is
/// dropped, as is one for an id that nobody asked under.
pub proof fn law_response_resolves_once(c: ControlSpec, frame: JsonSpec, again: JsonSpec, task: u64)
    requires
        type_of(frame) == "control_response"@,
        type_of(again) == "control_response"@,
        responded_id(again) == responded_id(frame),
    ensures
        ({
            let d = c.inbound(frame, task).0;
            d.inbound(again, task) == (d, ActionSpec::Idle)
        }),
{
}

/// A request is answered with the response for its id, whatever came between
/// that was not a response for it.
pub proof fn law_request_gets_its_response(
    c: ControlSpec,
    id: Seq<char>,
    payload: JsonSpec,
    ticket: u64,
    between: JsonSpec,
    frame: JsonSpec,
    task: u64,
)
    requires
        type_of(frame) == "control_response"@,
        responded_id(frame) == Some(id),
        type_of(between) == "control_response"@ ==> responded_id(between) != Some(id),
    ensures
        ({
            let d = c.outbound(OutboundSpec::Request { id, payload, ticket }).0;
            let e = d.inbound(between, task).0;
            e.inbound(frame, task).1 == ActionSpec::Resolve { ticket, frame }
        }),
{
}

/// A keep-alive is consumed without a trace.
pub proof fn law_keep_alive_is_consumed(c: ControlSpec, frame: JsonSpec, task: u64)
    requires
        type_of(frame) == "keep_alive"@,
    ensures
        c.inbound(frame, task) == (c, ActionSpec::Idle),
{
    reveal_strlit("keep_alive");
    reveal_strlit("control_response");
    reveal_strlit("control_request");
    reveal_strlit("control_cancel_request");
    assert("keep_alive"@.len() == 10 && "control_response"@.len() == 16);
    assert("control_request"@.len() == 15 && "control_cancel_request"@.len() == 22);
}

/// A withdrawn request is no longer handled, and nothing is written for it.
pub proof fn law_withdrawal_aborts_handler(
    c: ControlSpec,
    request: JsonSpec,
    cancel: JsonSpec,
    task: u64,
    other: u64,
)
    requires
        type_of(request) == "control_request"@,
        type_of(cancel) == "control_cancel_request"@,
        request.get_str("request_id"@) is Some,
        cancel.get_str("request_id"@) == request.get_str("request_id"@),
    ensures
        ({
            let d = c.inbound(request, task).0;
            let (e, a) = d.inbound(cancel, other);
            &&& a == ActionSpec::Abort { task }
            &&& !e.inflight.contains_key(request.get_str("request_id"@)->0)
        }),
{
    reveal_strlit("control_response");
    reveal_strlit("control_request");
    reveal_strlit("control_cancel_request");
    assert("control_response"@.len() == 16);
    assert("control_request"@.len() == 15 && "control_cancel_request"@.len() == 22);
}

/// Whatever is sent leads to one frame on the child's input, but for a replayed
/// request, which is handled and writes nothing itself.
pub proof fn law_one_frame_per_message(c: ControlSpec, msg: OutboundSpec)
    ensures
        msg is Replay ==> c.outbound(msg).1 is Handle,
        !(msg is Replay) ==> c.outbound(msg).1 is Write,
{
}

} // verus!

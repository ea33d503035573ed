//! From the messages on the child's output to the updates that the client is
//! sent.
//!
//! The mapping remembers which tool calls the client has seen, so that a call
//! that comes both streamed and as part of a whole message is shown once and
//! refined after that, and it collects tool input that is streamed in
//! fragments.

use vstd::prelude::*;
use vstd::string::*;
use vstd::utf8::encode_utf8;

use crate::acp::{commands, opt_string, opt_value, plan_entries, updates, AvailableCommand, BlockSpec, CommandSpec, ContentBlock, PlanEntry, PlanEntrySpec, PlanEntryStatus, SessionUpdate, ToolCall, ToolCallSpec, ToolCallStatus, ToolCallUpdate, ToolCallUpdateSpec, UpdateSpec};
use crate::json::{json_parse, jsons, member_texts, members_of, opt_json, opt_text, strings_in, strings_of, Json, JsonSpec};
use crate::stream_input::{closes, scan_of, without_lane, Slot, StreamSpec, StreamedInput, StreamedInputs};
use crate::strmap::{StrMap, StrSet};
use crate::strs::{before_suffix, from_chars, join, joined, str_eq, strip_suffix, texts};
use crate::tools::{meta_of, result_shown, shape_of, tool_meta, tool_result_content, tool_shape};

verus! {

/// Whose message it is.
#[derive(Debug, Clone, Copy, PartialEq, Eq, Structural)]
pub enum MsgRole {
    Assistant,
    User,
}

/// What the mapping remembers from one message to the next.
pub struct MapState {
    /// The tool calls that the client has seen and that have no result yet.
    emitted: StrSet,
    /// The last use of each tool call.
    tool_use_cache: StrMap<Json>,
    /// The inputs that are being streamed.
    streamed_inputs: StreamedInputs,
}

/// What the mapping remembers.
#[verifier::ext_equal]
pub struct MapSpec {
    pub emitted: Set<Seq<char>>,
    pub cache: Map<Seq<char>, JsonSpec>,
    pub streams: Map<Slot, StreamSpec>,
}

/// What the mapping remembers, and the updates that led to it.
pub type Mapped = (MapSpec, Seq<UpdateSpec>);

/// A value, or null.
pub open spec fn or_null(o: Option<JsonSpec>) -> JsonSpec {
    match o {
        Some(j) => j,
        None => JsonSpec::Null,
    }
}

/// A text, by whose it is.
pub open spec fn text_update(text: Seq<char>, role: MsgRole) -> UpdateSpec {
    match role {
        MsgRole::Assistant => UpdateSpec::AgentMessageChunk(BlockSpec::Text { text }),
        MsgRole::User => UpdateSpec::UserMessageChunk(BlockSpec::Text { text }),
    }
}

/// A text, a thought or an image. An empty text and an image without its data
/// give nothing.
pub open spec fn chunk_update(block: JsonSpec, role: MsgRole) -> Option<UpdateSpec> {
    let t = block.get_str("type"@);
    if t == Some("text"@) || t == Some("text_delta"@) {
        match block.get_str("text"@) {
            Some(s) => if s.len() > 0 {
                Some(text_update(s, role))
            } else {
                None
            },
            None => None,
        }
    } else if t == Some("thinking"@) || t == Some("thinking_delta"@) {
        match block.get_str("thinking"@) {
            Some(s) => Some(UpdateSpec::AgentThoughtChunk(BlockSpec::Text { text: s })),
            None => None,
        }
    } else if t == Some("image"@) {
        match block.get("source"@) {
            Some(source) => if source.get_str("type"@) == Some("base64"@) {
                Some(
                    UpdateSpec::AgentMessageChunk(
                        BlockSpec::Image {
                            data: source.str_or_empty("data"@),
                            mime_type: source.str_or_empty("media_type"@),
                        },
                    ),
                )
            } else {
                None
            },
            None => None,
        }
    } else {
        None
    }
}

/// The status of an entry of a to-do list.
pub open spec fn todo_status(todo: JsonSpec) -> PlanEntryStatus {
    let s = todo.get_str("status"@);
    if s == Some("in_progress"@) {
        PlanEntryStatus::InProgress
    } else if s == Some("completed"@) {
        PlanEntryStatus::Completed
    } else {
        PlanEntryStatus::Pending
    }
}

/// An entry of a to-do list. One in progress is named by what is being done, if
/// that is given.
pub open spec fn todo_entry(todo: JsonSpec) -> PlanEntrySpec {
    let doing = todo.str_or_empty("activeForm"@);
    PlanEntrySpec {
        content: if todo.get_str("status"@) == Some("in_progress"@) && doing.len() > 0 {
            doing
        } else {
            todo.str_or_empty("content"@)
        },
        status: todo_status(todo),
    }
}

/// A to-do list as a plan.
pub open spec fn plan_of(block: JsonSpec) -> Option<UpdateSpec> {
    match block.get("input"@) {
        Some(input) => match input.get_array("todos"@) {
            Some(a) => Some(UpdateSpec::Plan(Seq::new(a.len(), |i: int| todo_entry(a[i])))),
            None => None,
        },
        None => None,
    }
}

/// Whether a tool keeps a list of tasks; its uses are not shown.
pub open spec fn is_task(name: Seq<char>) -> bool {
    name == "TaskCreate"@ || name == "TaskUpdate"@ || name == "TaskList"@ || name == "TaskGet"@
}

/// Whether a block is the use of a tool.
pub open spec fn is_use(block: JsonSpec) -> bool {
    let t = block.get_str("type"@);
    t == Some("tool_use"@) || t == Some("server_tool_use"@) || t == Some("mcp_tool_use"@)
}

/// Whether a block is the result of a tool.
pub open spec fn is_result(block: JsonSpec) -> bool {
    let t = block.get_str("type"@);
    ||| t == Some("tool_result"@)
    ||| t == Some("tool_search_tool_result"@)
    ||| t == Some("web_fetch_tool_result"@)
    ||| t == Some("web_search_tool_result"@)
    ||| t == Some("code_execution_tool_result"@)
    ||| t == Some("bash_code_execution_tool_result"@)
    ||| t == Some("text_editor_code_execution_tool_result"@)
    ||| t == Some("mcp_tool_result"@)
}

/// The name of the tool in a use of it.
pub open spec fn use_name(block: JsonSpec) -> Seq<char> {
    match block.get_str("name"@) {
        Some(s) => s,
        None => "Other"@,
    }
}

/// A tool call, when it is first shown.
pub open spec fn call_of(block: JsonSpec) -> UpdateSpec {
    let name = use_name(block);
    let input = or_null(block.get("input"@));
    let shape = shape_of(name, input);
    UpdateSpec::ToolCall(
        ToolCallSpec {
            id: block.str_or_empty("id"@),
            title: shape.title,
            kind: shape.kind,
            status: ToolCallStatus::Pending,
            content: shape.content,
            locations: shape.locations,
            raw_input: block.get("input"@),
            meta: meta_of(name, input),
        },
    )
}

/// A tool call that the client knows, refined.
pub open spec fn refined(
    id: Seq<char>,
    name: Seq<char>,
    raw_input: Option<JsonSpec>,
) -> UpdateSpec {
    let input = or_null(raw_input);
    let shape = shape_of(name, input);
    UpdateSpec::ToolCallUpdate(
        ToolCallUpdateSpec {
            id,
            kind: Some(shape.kind),
            status: None,
            title: Some(shape.title),
            content: Some(shape.content),
            locations: if shape.locations.len() > 0 {
                Some(shape.locations)
            } else {
                None
            },
            raw_input,
            raw_output: None,
            meta: meta_of(name, input),
        },
    )
}

/// The name of the tool of a cached use; none if the use is not cached or has
/// no name.
pub open spec fn cached_name(m: MapSpec, id: Seq<char>) -> Option<Seq<char>> {
    if m.cache.contains_key(id) {
        m.cache[id].get_str("name"@)
    } else {
        None
    }
}

/// The end of a tool call.
pub open spec fn completed(m: MapSpec, block: JsonSpec) -> UpdateSpec {
    let id = block.str_or_empty("tool_use_id"@);
    let name = match cached_name(m, id) {
        Some(s) => s,
        None => "Other"@,
    };
    let is_error = block.get_bool("is_error"@) == Some(true);
    let content = or_null(block.get("content"@));
    UpdateSpec::ToolCallUpdate(
        ToolCallUpdateSpec {
            id,
            kind: None,
            status: Some(
                if is_error {
                    ToolCallStatus::Failed
                } else {
                    ToolCallStatus::Completed
                },
            ),
            title: None,
            content: result_shown(name, content, is_error),
            locations: None,
            raw_input: None,
            raw_output: block.get("content"@),
            meta: meta_of(name, content),
        },
    )
}

impl MapSpec {
    /// Nothing to remember.
    pub open spec fn initial() -> MapSpec {
        MapSpec { emitted: Set::empty(), cache: Map::empty(), streams: Map::empty() }
    }

    /// The use of a tool: shown as a call once, refined after that.
    pub open spec fn tool_use(self, block: JsonSpec) -> Mapped {
        let id = block.str_or_empty("id"@);
        if self.emitted.contains(id) {
            (self, seq![refined(id, use_name(block), block.get("input"@))])
        } else {
            (self.marked(id, block), seq![call_of(block)])
        }
    }

    /// A tool call that the client has now seen.
    pub open spec fn marked(self, id: Seq<char>, block: JsonSpec) -> MapSpec {
        MapSpec {
            emitted: self.emitted.insert(id),
            cache: self.cache.insert(id, block),
            ..self
        }
    }

    /// The result of a tool. That of a to-do list shows nothing, its plan was
    /// shown before.
    pub open spec fn tool_result(self, block: JsonSpec) -> Mapped {
        let id = block.str_or_empty("tool_use_id"@);
        if cached_name(self, id) == Some("TodoWrite"@) {
            (MapSpec { cache: self.cache.remove(id), ..self }, Seq::empty())
        } else {
            (
                MapSpec {
                    emitted: self.emitted.remove(id),
                    cache: self.cache.remove(id),
                    ..self
                },
                seq![completed(self, block)],
            )
        }
    }

    /// One block of a message.
    pub open spec fn block(self, block: JsonSpec, role: MsgRole) -> Mapped {
        let name = block.str_or_empty("name"@);
        if is_use(block) {
            if name == "TodoWrite"@ {
                (self, opt_one(plan_of(block)))
            } else if is_task(name) {
                (self, Seq::empty())
            } else {
                self.tool_use(block)
            }
        } else if is_result(block) {
            self.tool_result(block)
        } else {
            (self, opt_one(chunk_update(block, role)))
        }
    }

    /// The blocks of a message, one after the other.
    pub open spec fn blocks(self, a: Seq<JsonSpec>, role: MsgRole) -> Mapped
        decreases a.len(),
    {
        if a.len() == 0 {
            (self, Seq::empty())
        } else {
            let (m, u) = self.blocks(a.drop_last(), role);
            let (n, v) = m.block(a.last(), role);
            (n, u + v)
        }
    }

    /// A whole message: a text, or a list of blocks.
    pub open spec fn consolidated(self, content: JsonSpec, role: MsgRole) -> Mapped {
        match content {
            JsonSpec::Str(s) => if s.len() > 0 {
                (self, seq![text_update(s, role)])
            } else {
                (self, Seq::empty())
            },
            JsonSpec::Array(a) => self.blocks(a, role),
            _ => (self, Seq::empty()),
        }
    }

    /// The start of a streamed block. The input of a tool is collected from now
    /// on; the block itself is mapped as a message of its own.
    pub open spec fn block_start(self, lane: Seq<char>, event: JsonSpec) -> Mapped {
        let block = or_null(event.get("content_block"@));
        let m = if is_use(block) {
            MapSpec {
                streams: self.streams.insert(
                    (lane, index_of_event(event)),
                    StreamSpec {
                        id: block.str_or_empty("id"@),
                        name: block.str_or_empty("name"@),
                        json: Seq::empty(),
                        shown: -1,
                    },
                ),
                ..self
            }
        } else {
            self
        };
        m.block(block, MsgRole::Assistant)
    }

    /// A fragment of a streamed input. Once the input is complete it is dropped:
    /// the whole message will show it. Until then the call is refined each time
    /// that a further member is whole.
    pub open spec fn input_delta(self, slot: Slot, delta: JsonSpec) -> Mapped {
        if !self.streams.contains_key(slot) {
            (self, Seq::empty())
        } else {
            let was = self.streams[slot];
            let json = was.json + delta.str_or_empty("partial_json"@);
            let comma = scan_of(json).comma;
            if closes(json, was.json.len() as int) {
                (MapSpec { streams: self.streams.remove(slot), ..self }, Seq::empty())
            } else if comma <= was.shown {
                (
                    MapSpec {
                        streams: self.streams.insert(slot, StreamSpec { json, ..was }),
                        ..self
                    },
                    Seq::empty(),
                )
            } else {
                (
                    MapSpec {
                        streams: self.streams.insert(
                            slot,
                            StreamSpec { json, shown: comma, ..was },
                        ),
                        ..self
                    },
                    match recovered(json.take(comma)) {
                        Some(input) => seq![partly_refined(was.id, was.name, input, json)],
                        None => Seq::empty(),
                    },
                )
            }
        }
    }

    /// An event of the stream.
    pub open spec fn stream_event(self, message: JsonSpec) -> Mapped {
        let event = or_null(message.get("event"@));
        let lane = message.str_or_empty("parent_tool_use_id"@);
        let t = event.get_str("type"@);
        if t == Some("content_block_start"@) {
            self.block_start(lane, event)
        } else if t == Some("content_block_delta"@) {
            let delta = or_null(event.get("delta"@));
            if delta.get_str("type"@) == Some("input_json_delta"@) {
                self.input_delta((lane, index_of_event(event)), delta)
            } else {
                self.block(delta, MsgRole::Assistant)
            }
        } else if t == Some("content_block_stop"@) || t == Some("message_start"@) || t == Some(
            "message_stop"@,
        ) {
            (MapSpec { streams: without_lane(self.streams, lane), ..self }, Seq::empty())
        } else {
            (self, Seq::empty())
        }
    }
}

/// The one element, if there is one.
pub open spec fn opt_one(o: Option<UpdateSpec>) -> Seq<UpdateSpec> {
    match o {
        Some(u) => seq![u],
        None => Seq::empty(),
    }
}

/// The place of the block that an event is about.
pub open spec fn index_of_event(event: JsonSpec) -> u64 {
    match event.get_u64("index"@) {
        Some(n) => n,
        None => 0,
    }
}

/// The members that are whole, before a comma of the outermost object.
pub open spec fn recovered(prefix: Seq<char>) -> Option<JsonSpec> {
    match json_parse(encode_utf8(prefix + "}"@)) {
        Some(JsonSpec::Object(m)) => Some(JsonSpec::Object(m)),
        _ => None,
    }
}

/// A tool call whose input is still arriving, refined by the part that is whole.
/// Its content is left alone: what a part of the input shows can mislead.
pub open spec fn partly_refined(
    id: Seq<char>,
    name: Seq<char>,
    input: JsonSpec,
    so_far: Seq<char>,
) -> UpdateSpec {
    let shape = shape_of(name, input);
    UpdateSpec::ToolCallUpdate(
        ToolCallUpdateSpec {
            id,
            kind: Some(shape.kind),
            status: None,
            title: Some(shape.title),
            content: None,
            locations: if shape.locations.len() > 0 {
                Some(shape.locations)
            } else {
                None
            },
            raw_input: Some(input),
            raw_output: None,
            meta: meta_of(name, or_null(json_parse(encode_utf8(so_far)))),
        },
    )
}

/// What the values of a map hold.
pub open spec fn cached(m: Map<Seq<char>, Json>) -> Map<Seq<char>, JsonSpec> {
    m.map_values(|j: Json| j@)
}

impl MapState {
    /// What the mapping remembers.
    pub closed spec fn view(&self) -> MapSpec {
        MapSpec {
            emitted: self.emitted@,
            cache: cached(self.tool_use_cache@),
            streams: self.streamed_inputs@,
        }
    }

    /// Nothing to remember.
    pub fn new() -> (r: MapState)
        ensures
            r@ == MapSpec::initial(),
    {
        let r = MapState {
            emitted: StrSet::new(),
            tool_use_cache: StrMap::new(),
            streamed_inputs: StreamedInputs::new(),
        };
        proof {
            assert(r@ =~= MapSpec::initial());
        }
        r
    }

    /// Whether the client has seen the tool call.
    pub fn has_emitted(&self, id: &str) -> (r: bool)
        ensures
            r == self@.emitted.contains(id@),
    {
        self.emitted.contains(id)
    }

    /// The client has now seen the tool call.
    pub fn mark_emitted(&mut self, id: &str, block: Json)
        ensures
            final(self)@ == old(self)@.marked(id@, block@),
    {
        self.emitted.insert(id);
        self.tool_use_cache.insert(id, block);
        proof {
            assert(cached(self.tool_use_cache@) =~= cached(old(self).tool_use_cache@).insert(
                id@,
                block@,
            ));
        }
    }

    fn forget_cached(&mut self, id: &str)
        ensures
            final(self)@ == (MapSpec { cache: old(self)@.cache.remove(id@), ..old(self)@ }),
    {
        self.tool_use_cache.remove(id);
        proof {
            assert(cached(self.tool_use_cache@) =~= cached(old(self).tool_use_cache@).remove(id@));
        }
    }

    fn cached_name(&self, id: &str) -> (r: Option<&str>)
        ensures
            opt_text(r) == cached_name(self@, id@),
    {
        match self.tool_use_cache.get(id) {
            Some(block) => block.get_str("name"),
            None => None,
        }
    }
}

impl Default for MapState {
    fn default() -> (r: MapState)
        ensures
            r@ == MapSpec::initial(),
    {
        MapState::new()
    }
}

/// What an optional update holds.
pub open spec fn opt_update(o: Option<SessionUpdate>) -> Option<UpdateSpec> {
    match o {
        Some(u) => Some(u@),
        None => None,
    }
}

fn type_is(block: &Json, t: &str) -> (r: bool)
    ensures
        r == (block@.get_str("type"@) == Some(t@)),
{
    match block.get_str("type") {
        Some(s) => str_eq(s, t),
        None => false,
    }
}

fn text_is(o: Option<&str>, t: &str) -> (r: bool)
    ensures
        r == (opt_text(o) == Some(t@)),
{
    match o {
        Some(s) => str_eq(s, t),
        None => false,
    }
}

/// A text as an update, by whose it is.
pub fn text_chunk(text: &str, role: MsgRole) -> (r: SessionUpdate)
    ensures
        r@ == text_update(text@, role),
{
    let block = ContentBlock::Text { text: text.to_owned() };
    match role {
        MsgRole::Assistant => SessionUpdate::AgentMessageChunk(block),
        MsgRole::User => SessionUpdate::UserMessageChunk(block),
    }
}

fn chunk_from_block(block: &Json, role: MsgRole) -> (r: Option<SessionUpdate>)
    ensures
        opt_update(r) == chunk_update(block@, role),
{
    if type_is(block, "text") || type_is(block, "text_delta") {
        match block.get_str("text") {
            Some(s) => if s.is_empty() {
                None
            } else {
                Some(text_chunk(s, role))
            },
            None => None,
        }
    } else if type_is(block, "thinking") || type_is(block, "thinking_delta") {
        match block.get_str("thinking") {
            Some(s) => Some(
                SessionUpdate::AgentThoughtChunk(ContentBlock::Text { text: s.to_owned() }),
            ),
            None => None,
        }
    } else if type_is(block, "image") {
        match block.get("source") {
            Some(source) => if type_is(source, "base64") {
                Some(
                    SessionUpdate::AgentMessageChunk(
                        ContentBlock::Image {
                            data: source.str_or_empty("data").to_owned(),
                            mime_type: source.str_or_empty("media_type").to_owned(),
                        },
                    ),
                )
            } else {
                None
            },
            None => None,
        }
    } else {
        None
    }
}

fn entry_of_todo(todo: &Json) -> (r: PlanEntry)
    ensures
        r@ == todo_entry(todo@),
{
    let status = todo.get_str("status");
    let doing = todo.str_or_empty("activeForm");
    let content = if text_is(status, "in_progress") && !doing.is_empty() {
        doing.to_owned()
    } else {
        todo.str_or_empty("content").to_owned()
    };
    let status = if text_is(status, "in_progress") {
        PlanEntryStatus::InProgress
    } else if text_is(status, "completed") {
        PlanEntryStatus::Completed
    } else {
        PlanEntryStatus::Pending
    };
    PlanEntry { content, status }
}

fn plan_from_todo_write(block: &Json) -> (r: Option<SessionUpdate>)
    ensures
        opt_update(r) == plan_of(block@),
{
    match block.get("input") {
        Some(input) => match input.get_array("todos") {
            Some(a) => {
                let mut entries: Vec<PlanEntry> = Vec::new();
                let mut i: usize = 0;
                while i < a.len()
                    invariant
                        i <= a@.len(),
                        entries@.len() == i,
                        forall|k: int| 0 <= k < i ==> (#[trigger] entries@[k])@ == todo_entry(a@[k]@),
                    decreases a@.len() - i,
                {
                    entries.push(entry_of_todo(&a[i]));
                    i += 1;
                }
                proof {
                    let list = jsons(a@);
                    assert(plan_entries(entries@) =~= Seq::new(
                        list.len(),
                        |i: int| todo_entry(list[i]),
                    ));
                }
                Some(SessionUpdate::Plan(entries))
            },
            None => None,
        },
        None => None,
    }
}

fn is_task_tool(name: &str) -> (r: bool)
    ensures
        r == is_task(name@),
{
    str_eq(name, "TaskCreate") || str_eq(name, "TaskUpdate") || str_eq(name, "TaskList") || str_eq(
        name,
        "TaskGet",
    )
}

fn is_tool_use_block(block: &Json) -> (r: bool)
    ensures
        r == is_use(block@),
{
    type_is(block, "tool_use") || type_is(block, "server_tool_use") || type_is(
        block,
        "mcp_tool_use",
    )
}

fn is_tool_result_block(block: &Json) -> (r: bool)
    ensures
        r == is_result(block@),
{
    type_is(block, "tool_result") || type_is(block, "tool_search_tool_result") || type_is(
        block,
        "web_fetch_tool_result",
    ) || type_is(block, "web_search_tool_result") || type_is(
        block,
        "code_execution_tool_result",
    ) || type_is(block, "bash_code_execution_tool_result") || type_is(
        block,
        "text_editor_code_execution_tool_result",
    ) || type_is(block, "mcp_tool_result")
}

fn copied(o: Option<&Json>) -> (r: Option<Json>)
    ensures
        opt_value(r) == opt_json(o),
{
    match o {
        Some(j) => Some(j.copy()),
        None => None,
    }
}

fn copied_or_null(o: Option<&Json>) -> (r: Json)
    ensures
        r@ == or_null(opt_json(o)),
{
    match o {
        Some(j) => j.copy(),
        None => Json::Null,
    }
}

fn tool_call_update_refine(id: &str, name: &str, raw_input: Option<&Json>) -> (r: SessionUpdate)
    ensures
        r@ == refined(id@, name@, opt_json(raw_input)),
{
    let input = copied_or_null(raw_input);
    let shape = tool_shape(name, &input);
    let ghost shown = shape@;
    let locations = if shape.locations.len() > 0 {
        Some(shape.locations)
    } else {
        None
    };
    let update = ToolCallUpdate {
        tool_call_id: id.to_owned(),
        kind: Some(shape.kind),
        status: None,
        title: Some(shape.title),
        content: Some(shape.content),
        locations,
        raw_input: copied(raw_input),
        raw_output: None,
        meta: tool_meta(name, &input),
    };
    SessionUpdate::ToolCallUpdate(update)
}

fn tool_call_from_use(block: &Json, state: &mut MapState) -> (r: SessionUpdate)
    ensures
        final(state)@ == old(state)@.tool_use(block@).0,
        seq![r@] == old(state)@.tool_use(block@).1,
{
    let id = block.str_or_empty("id");
    let name = match block.get_str("name") {
        Some(s) => s,
        None => "Other",
    };
    if state.has_emitted(id) {
        return tool_call_update_refine(id, name, block.get("input"));
    }
    state.mark_emitted(id, block.copy());
    let input = copied_or_null(block.get("input"));
    let shape = tool_shape(name, &input);
    SessionUpdate::ToolCall(
        ToolCall {
            tool_call_id: id.to_owned(),
            title: shape.title,
            kind: shape.kind,
            status: ToolCallStatus::Pending,
            content: shape.content,
            locations: shape.locations,
            raw_input: copied(block.get("input")),
            meta: tool_meta(name, &input),
        },
    )
}

fn tool_update_from_result(block: &Json, state: &mut MapState) -> (r: SessionUpdate)
    requires
        cached_name(old(state)@, block@.str_or_empty("tool_use_id"@)) != Some("TodoWrite"@),
    ensures
        final(state)@ == old(state)@.tool_result(block@).0,
        seq![r@] == old(state)@.tool_result(block@).1,
{
    let id = block.str_or_empty("tool_use_id");
    let name = match state.cached_name(id) {
        Some(s) => s.to_owned(),
        None => "Other".to_owned(),
    };
    let is_error = match block.get_bool("is_error") {
        Some(b) => b,
        None => false,
    };
    let status = if is_error {
        ToolCallStatus::Failed
    } else {
        ToolCallStatus::Completed
    };
    state.emitted.remove(id);
    state.forget_cached(id);
    let content = copied_or_null(block.get("content"));
    SessionUpdate::ToolCallUpdate(
        ToolCallUpdate {
            tool_call_id: id.to_owned(),
            kind: None,
            status: Some(status),
            title: None,
            content: tool_result_content(name.as_str(), &content, is_error),
            locations: None,
            raw_input: None,
            raw_output: copied(block.get("content")),
            meta: tool_meta(name.as_str(), &content),
        },
    )
}

fn map_block(block: &Json, role: MsgRole, state: &mut MapState, out: &mut Vec<SessionUpdate>)
    ensures
        final(state)@ == old(state)@.block(block@, role).0,
        updates(final(out)@) == updates(old(out)@) + old(state)@.block(block@, role).1,
{
    let name = block.str_or_empty("name");
    if is_tool_use_block(block) {
        if str_eq(name, "TodoWrite") {
            if let Some(plan) = plan_from_todo_write(block) {
                out.push(plan);
            }
        } else if !is_task_tool(name) {
            out.push(tool_call_from_use(block, state));
        }
    } else if is_tool_result_block(block) {
        let id = block.str_or_empty("tool_use_id");
        if text_is(state.cached_name(id), "TodoWrite") {
            state.forget_cached(id);
        } else {
            out.push(tool_update_from_result(block, state));
        }
    } else if let Some(update) = chunk_from_block(block, role) {
        out.push(update);
    }
    proof {
        assert(updates(out@) =~= updates(old(out)@) + old(state)@.block(block@, role).1);
    }
}

/// Maps a whole message: a text, or a list of blocks.
pub fn map_consolidated(content: &Json, role: MsgRole, state: &mut MapState) -> (r: Vec<
    SessionUpdate,
>)
    ensures
        final(state)@ == old(state)@.consolidated(content@, role).0,
        updates(r@) == old(state)@.consolidated(content@, role).1,
{
    let mut out: Vec<SessionUpdate> = Vec::new();
    match content {
        Json::Str(s) => {
            if !s.as_str().is_empty() {
                out.push(text_chunk(s.as_str(), role));
            }
        },
        Json::Array(_) => {
            if let Some(a) = content.as_array() {
                let mut i: usize = 0;
                while i < a.len()
                    invariant
                        i <= a@.len(),
                        state@ == old(state)@.blocks(jsons(a@).take(i as int), role).0,
                        updates(out@) == old(state)@.blocks(jsons(a@).take(i as int), role).1,
                    decreases a@.len() - i,
                {
                    proof {
                        let all = jsons(a@);
                        assert(all.take(i + 1).drop_last() =~= all.take(i as int));
                        assert(all.take(i + 1).last() == a@[i as int]@);
                    }
                    map_block(&a[i], role, state, &mut out);
                    i += 1;
                }
                proof {
                    assert(jsons(a@).take(i as int) =~= jsons(a@));
                }
            }
        },
        _ => {},
    }
    proof {
        assert(updates(out@) =~= old(state)@.consolidated(content@, role).1);
    }
    out
}

/// One block as a message of its own.
fn map_one(block: &Json, state: &mut MapState) -> (r: Vec<SessionUpdate>)
    ensures
        final(state)@ == old(state)@.block(block@, MsgRole::Assistant).0,
        updates(r@) == old(state)@.block(block@, MsgRole::Assistant).1,
{
    let mut out: Vec<SessionUpdate> = Vec::new();
    map_block(block, MsgRole::Assistant, state, &mut out);
    proof {
        assert(updates(out@) =~= old(state)@.block(block@, MsgRole::Assistant).1);
    }
    out
}

fn event_index(event: &Json) -> (r: u64)
    ensures
        r == index_of_event(event@),
{
    match event.get_u64("index") {
        Some(n) => n,
        None => 0,
    }
}

/// The members that are whole, before the comma at `comma`.
fn recovered_tool_input(text: &Vec<char>, comma: usize) -> (r: Option<Json>)
    requires
        comma <= text@.len(),
    ensures
        opt_value(r) == recovered(text@.take(comma as int)),
{
    let mut candidate = from_chars(text, 0, comma);
    proof {
        assert(candidate@ =~= text@.take(comma as int));
    }
    candidate.append("}");
    match Json::parse_str(candidate.as_str()) {
        Some(j) => match &j {
            Json::Object(_) => Some(j),
            _ => None,
        },
        None => None,
    }
}

fn streamed_input_refinement(streamed: &StreamedInput, input: Json) -> (r: SessionUpdate)
    ensures
        r@ == partly_refined(streamed@.id, streamed@.name, input@, streamed@.json),
{
    let shape = tool_shape(streamed.name().as_str(), &input);
    let text = streamed.text();
    let so_far = from_chars(text, 0, text.len());
    proof {
        assert(so_far@ =~= streamed@.json);
    }
    let value = match Json::parse_str(so_far.as_str()) {
        Some(j) => j,
        None => Json::Null,
    };
    let locations = if shape.locations.len() > 0 {
        Some(shape.locations)
    } else {
        None
    };
    SessionUpdate::ToolCallUpdate(
        ToolCallUpdate {
            tool_call_id: streamed.id().clone(),
            kind: Some(shape.kind),
            status: None,
            title: Some(shape.title),
            content: None,
            locations,
            raw_input: Some(input),
            raw_output: None,
            meta: tool_meta(streamed.name().as_str(), &value),
        },
    )
}

fn input_json_delta(state: &mut MapState, lane: &str, index: u64, delta: &Json) -> (r: Vec<
    SessionUpdate,
>)
    ensures
        final(state)@ == old(state)@.input_delta((lane@, index), delta@).0,
        updates(r@) == old(state)@.input_delta((lane@, index), delta@).1,
{
    let ghost slot: Slot = (lane@, index);
    let mut out: Vec<SessionUpdate> = Vec::new();
    proof {
        assert(updates(out@) =~= Seq::<UpdateSpec>::empty());
    }
    let streamed = match state.streamed_inputs.take(lane, index) {
        Some(s) => s,
        None => {
            proof {
                assert(state@.streams =~= old(state)@.streams);
            }
            return out;
        },
    };
    let (streamed, complete) = streamed.extend(delta.str_or_empty("partial_json"));
    if complete {
        return out;
    }
    let (streamed, comma) = streamed.advance();
    if let Some(at) = comma {
        if let Some(input) = recovered_tool_input(streamed.text(), at) {
            out.push(streamed_input_refinement(&streamed, input));
        }
    }
    state.streamed_inputs.put(lane, index, streamed);
    proof {
        let was = old(state)@.streams[slot];
        assert(state@.streams =~= old(state)@.input_delta(slot, delta@).0.streams);
        assert(updates(out@) =~= old(state)@.input_delta(slot, delta@).1);
    }
    out
}

/// Maps an event of the stream.
pub fn map_stream_event(message: &Json, state: &mut MapState) -> (r: Vec<SessionUpdate>)
    ensures
        final(state)@ == old(state)@.stream_event(message@).0,
        updates(r@) == old(state)@.stream_event(message@).1,
{
    let none = Json::Null;
    let event = match message.get("event") {
        Some(e) => e,
        None => &none,
    };
    let lane = message.str_or_empty("parent_tool_use_id");
    if type_is(event, "content_block_start") {
        let block = match event.get("content_block") {
            Some(b) => b,
            None => &none,
        };
        if is_tool_use_block(block) {
            let input = StreamedInput::new(
                block.str_or_empty("id"),
                block.str_or_empty("name"),
            );
            state.streamed_inputs.put(lane, event_index(event), input);
        }
        map_one(block, state)
    } else if type_is(event, "content_block_delta") {
        let delta = match event.get("delta") {
            Some(d) => d,
            None => &none,
        };
        if type_is(delta, "input_json_delta") {
            input_json_delta(state, lane, event_index(event), delta)
        } else {
            map_one(delta, state)
        }
    } else {
        if type_is(event, "content_block_stop") || type_is(event, "message_start") || type_is(
            event,
            "message_stop",
        ) {
            state.streamed_inputs.drop_lane(lane);
        }
        let out: Vec<SessionUpdate> = Vec::new();
        proof {
            assert(updates(out@) =~= Seq::<UpdateSpec>::empty());
        }
        out
    }
}

/// A change of mode as an update.
pub fn map_mode_update(mode_id: &str) -> (r: SessionUpdate)
    ensures
        r@ == UpdateSpec::CurrentModeUpdate(mode_id@),
{
    SessionUpdate::CurrentModeUpdate(mode_id.to_owned())
}

/// Whether a command works in a terminal only.
pub open spec fn is_unsupported(name: Seq<char>) -> bool {
    ||| name == "clear"@
    ||| name == "cost"@
    ||| name == "keybindings-help"@
    ||| name == "login"@
    ||| name == "logout"@
    ||| name == "output-style:new"@
    ||| name == "release-notes"@
    ||| name == "todos"@
}

/// The name under which a command is offered.
pub open spec fn offered_name(name: Seq<char>) -> Seq<char> {
    match before_suffix(name, " (MCP)"@) {
        Some(rest) => "mcp:"@ + rest,
        None => name,
    }
}

/// What to type after a command: a text, or texts with spaces between them.
pub open spec fn hint_of(command: JsonSpec) -> Option<Seq<char>> {
    let hint = match command.get("argumentHint"@) {
        Some(JsonSpec::Array(a)) => joined(strings_in(a), " "@),
        Some(JsonSpec::Str(s)) => s,
        _ => Seq::empty(),
    };
    if hint.len() > 0 {
        Some(hint)
    } else {
        None
    }
}

/// The names of the commands that are bound to the terminal.
pub open spec fn terminal_names(terminal: JsonSpec) -> Seq<Seq<char>> {
    match terminal {
        JsonSpec::Array(a) => member_texts(a, "name"@),
        _ => Seq::empty(),
    }
}

/// A command as it is offered; none if it has no name or works in a terminal
/// only.
pub open spec fn offered(command: JsonSpec, terminal: Seq<Seq<char>>) -> Option<CommandSpec> {
    match command.get_str("name"@) {
        Some(name) => if terminal.contains(name) || is_unsupported(offered_name(name)) {
            None
        } else {
            Some(
                CommandSpec {
                    name: offered_name(name),
                    description: command.str_or_empty("description"@),
                    hint: hint_of(command),
                },
            )
        },
        None => None,
    }
}

/// The commands that are offered, in order.
pub open spec fn all_offered(list: Seq<JsonSpec>, terminal: Seq<Seq<char>>) -> Seq<CommandSpec>
    decreases list.len(),
{
    if list.len() == 0 {
        Seq::empty()
    } else {
        match offered(list.last(), terminal) {
            Some(c) => all_offered(list.drop_last(), terminal).push(c),
            None => all_offered(list.drop_last(), terminal),
        }
    }
}

fn unsupported(name: &str) -> (r: bool)
    ensures
        r == is_unsupported(name@),
{
    str_eq(name, "clear") || str_eq(name, "cost") || str_eq(name, "keybindings-help") || str_eq(
        name,
        "login",
    ) || str_eq(name, "logout") || str_eq(name, "output-style:new") || str_eq(
        name,
        "release-notes",
    ) || str_eq(name, "todos")
}

fn contains_name(names: &Vec<String>, name: &str) -> (r: bool)
    ensures
        r == texts(names@).contains(name@),
{
    let mut i: usize = 0;
    while i < names.len()
        invariant
            i <= names@.len(),
            forall|k: int| 0 <= k < i ==> #[trigger] texts(names@)[k] != name@,
        decreases names@.len() - i,
    {
        if str_eq(names[i].as_str(), name) {
            proof {
                assert(texts(names@)[i as int] == name@);
            }
            return true;
        }
        i += 1;
    }
    false
}

fn hint_of_command(command: &Json) -> (r: Option<String>)
    ensures
        opt_string(r) == hint_of(command@),
{
    let hint = match command.get("argumentHint") {
        Some(h) => match h {
            Json::Array(_) => match h.as_array() {
                Some(a) => join(&strings_of(a), " "),
                None => String::new(),
            },
            Json::Str(s) => s.clone(),
            _ => String::new(),
        },
        None => String::new(),
    };
    if hint.as_str().is_empty() {
        None
    } else {
        Some(hint)
    }
}

fn offer(command: &Json, terminal: &Vec<String>) -> (r: Option<AvailableCommand>)
    ensures
        r matches Some(c) ==> offered(command@, texts(terminal@)) == Some(c@),
        r is None ==> offered(command@, texts(terminal@)) is None,
{
    let name = match command.get_str("name") {
        Some(n) => n,
        None => {
            return None;
        },
    };
    if contains_name(terminal, name) {
        return None;
    }
    let final_name = match strip_suffix(name, " (MCP)") {
        Some(rest) => {
            let mut n = "mcp:".to_owned();
            n.append(rest.as_str());
            n
        },
        None => name.to_owned(),
    };
    if unsupported(final_name.as_str()) {
        return None;
    }
    Some(
        AvailableCommand {
            name: final_name,
            description: command.str_or_empty("description").to_owned(),
            hint: hint_of_command(command),
        },
    )
}

/// The commands that are offered, of those that the agent has.
pub fn map_commands_changed(command_list: &Json, terminal_commands: &Json) -> (r: Vec<
    AvailableCommand,
>)
    ensures
        commands(r@) == match command_list@ {
            JsonSpec::Array(a) => all_offered(a, terminal_names(terminal_commands@)),
            _ => Seq::empty(),
        },
{
    let terminal = match terminal_commands.as_array() {
        Some(a) => members_of(a, "name"),
        None => Vec::new(),
    };
    proof {
        if terminal_commands@.as_array() is None {
            assert(texts(terminal@) =~= Seq::<Seq<char>>::empty());
        }
    }
    let mut out: Vec<AvailableCommand> = Vec::new();
    proof {
        assert(commands(out@) =~= Seq::<CommandSpec>::empty());
    }
    if let Some(list) = command_list.as_array() {
        let mut i: usize = 0;
        while i < list.len()
            invariant
                i <= list@.len(),
                commands(out@) == all_offered(jsons(list@).take(i as int), texts(terminal@)),
            decreases list@.len() - i,
        {
            let ghost before = commands(out@);
            proof {
                let all = jsons(list@);
                assert(all.take(i + 1).drop_last() =~= all.take(i as int));
                assert(all.take(i + 1).last() == list@[i as int]@);
            }
            if let Some(c) = offer(&list[i], &terminal) {
                out.push(c);
                proof {
                    assert(commands(out@) =~= before.push(c@));
                }
            }
            i += 1;
        }
        proof {
            assert(jsons(list@).take(i as int) =~= jsons(list@));
        }
    }
    out
}

} // verus!

//! The parts of the Agent Client Protocol that the library builds, as plain
//! data.

use vstd::prelude::*;
use vstd::string::*;

use crate::json::{empty_object, jsons, uint, Json, JsonSpec};

verus! {

/// What a tool does.
#[derive(Debug, Clone, Copy, PartialEq, Eq, Structural)]
pub enum ToolKind {
    Read,
    Edit,
    Delete,
    Move,
    Search,
    Execute,
    Think,
    Fetch,
    SwitchMode,
    Other,
}

impl ToolKind {
    /// How the kind is spelled on the wire.
    pub open spec fn spelled(self) -> Seq<char> {
        match self {
            ToolKind::Read => "read"@,
            ToolKind::Edit => "edit"@,
            ToolKind::Delete => "delete"@,
            ToolKind::Move => "move"@,
            ToolKind::Search => "search"@,
            ToolKind::Execute => "execute"@,
            ToolKind::Think => "think"@,
            ToolKind::Fetch => "fetch"@,
            ToolKind::SwitchMode => "switch_mode"@,
            ToolKind::Other => "other"@,
        }
    }

    /// How the kind is spelled on the wire.
    pub fn as_str(self) -> (r: &'static str)
        ensures
            r@ == self.spelled(),
    {
        match self {
            ToolKind::Read => "read",
            ToolKind::Edit => "edit",
            ToolKind::Delete => "delete",
            ToolKind::Move => "move",
            ToolKind::Search => "search",
            ToolKind::Execute => "execute",
            ToolKind::Think => "think",
            ToolKind::Fetch => "fetch",
            ToolKind::SwitchMode => "switch_mode",
            ToolKind::Other => "other",
        }
    }
}

/// How far a tool call has come.
#[derive(Debug, Clone, Copy, PartialEq, Eq, Structural)]
pub enum ToolCallStatus {
    Pending,
    InProgress,
    Completed,
    Failed,
}

/// A piece of content.
#[derive(Debug, Clone, PartialEq, Eq)]
pub enum ContentBlock {
    Text { text: String },
    Image { data: String, mime_type: String },
}

/// What a piece of content holds.
pub enum BlockSpec {
    Text { text: Seq<char> },
    Image { data: Seq<char>, mime_type: Seq<char> },
}

impl ContentBlock {
    /// What the piece holds.
    pub open spec fn view(&self) -> BlockSpec {
        match self {
            ContentBlock::Text { text } => BlockSpec::Text { text: text@ },
            ContentBlock::Image { data, mime_type } => BlockSpec::Image {
                data: data@,
                mime_type: mime_type@,
            },
        }
    }
}

/// What an optional text holds.
pub open spec fn opt_string(o: Option<String>) -> Option<Seq<char>> {
    match o {
        Some(s) => Some(s@),
        None => None,
    }
}

/// What a tool call shows.
#[derive(Debug, Clone, PartialEq, Eq)]
pub enum ToolCallContent {
    /// A piece of content.
    Content { content: ContentBlock },
    /// A change to a file.
    Diff { path: String, old_text: Option<String>, new_text: String },
}

/// What a tool call shows.
pub enum ContentSpec {
    Content { content: BlockSpec },
    Diff { path: Seq<char>, old_text: Option<Seq<char>>, new_text: Seq<char> },
}

impl ToolCallContent {
    /// What it shows.
    pub open spec fn view(&self) -> ContentSpec {
        match self {
            ToolCallContent::Content { content } => ContentSpec::Content { content: content@ },
            ToolCallContent::Diff { path, old_text, new_text } => ContentSpec::Diff {
                path: path@,
                old_text: opt_string(*old_text),
                new_text: new_text@,
            },
        }
    }
}

/// A file that a tool call is about.
#[derive(Debug, Clone, PartialEq, Eq)]
pub struct ToolCallLocation {
    pub path: String,
    pub line: Option<u32>,
}

/// A file that a tool call is about.
pub struct LocationSpec {
    pub path: Seq<char>,
    pub line: Option<u32>,
}

impl ToolCallLocation {
    /// Which file, and where.
    pub open spec fn view(&self) -> LocationSpec {
        LocationSpec { path: self.path@, line: self.line }
    }
}

/// What a list of contents shows.
pub open spec fn contents(v: Seq<ToolCallContent>) -> Seq<ContentSpec> {
    Seq::new(v.len(), |i: int| v[i]@)
}

/// The files of a list.
pub open spec fn locations(v: Seq<ToolCallLocation>) -> Seq<LocationSpec> {
    Seq::new(v.len(), |i: int| v[i]@)
}

/// A text as the content of a tool call.
pub open spec fn text_shown(text: Seq<char>) -> ContentSpec {
    ContentSpec::Content { content: BlockSpec::Text { text } }
}

/// A text as the content of a tool call.
pub fn text_content(text: String) -> (r: ToolCallContent)
    ensures
        r@ == text_shown(text@),
{
    ToolCallContent::Content { content: ContentBlock::Text { text } }
}

/// A piece of content on the wire.
pub open spec fn block_json(b: BlockSpec) -> JsonSpec {
    match b {
        BlockSpec::Text { text } => empty_object().with("type"@, JsonSpec::Str("text"@)).with(
            "text"@,
            JsonSpec::Str(text),
        ),
        BlockSpec::Image { data, mime_type } => empty_object().with(
            "type"@,
            JsonSpec::Str("image"@),
        ).with("data"@, JsonSpec::Str(data)).with("mimeType"@, JsonSpec::Str(mime_type)),
    }
}

/// The content of a tool call on the wire.
pub open spec fn content_json(c: ContentSpec) -> JsonSpec {
    match c {
        ContentSpec::Content { content } => empty_object().with(
            "type"@,
            JsonSpec::Str("content"@),
        ).with("content"@, block_json(content)),
        ContentSpec::Diff { path, old_text: Some(old), new_text } => empty_object().with(
            "type"@,
            JsonSpec::Str("diff"@),
        ).with("path"@, JsonSpec::Str(path)).with("oldText"@, JsonSpec::Str(old)).with(
            "newText"@,
            JsonSpec::Str(new_text),
        ),
        ContentSpec::Diff { path, old_text: None, new_text } => empty_object().with(
            "type"@,
            JsonSpec::Str("diff"@),
        ).with("path"@, JsonSpec::Str(path)).with("newText"@, JsonSpec::Str(new_text)),
    }
}

/// A location on the wire.
pub open spec fn location_json(l: LocationSpec) -> JsonSpec {
    let path = empty_object().with("path"@, JsonSpec::Str(l.path));
    match l.line {
        Some(line) => path.with("line"@, uint(line as u64)),
        None => path,
    }
}

impl ContentBlock {
    /// The piece on the wire.
    pub fn to_json(&self) -> (r: Json)
        ensures
            r@ == block_json(self@),
    {
        match self {
            ContentBlock::Text { text } => Json::object().with("type", Json::text("text")).with(
                "text",
                Json::text(text.as_str()),
            ),
            ContentBlock::Image { data, mime_type } => Json::object().with(
                "type",
                Json::text("image"),
            ).with("data", Json::text(data.as_str())).with(
                "mimeType",
                Json::text(mime_type.as_str()),
            ),
        }
    }
}

impl ToolCallContent {
    /// The content on the wire.
    pub fn to_json(&self) -> (r: Json)
        ensures
            r@ == content_json(self@),
    {
        match self {
            ToolCallContent::Content { content } => Json::object().with(
                "type",
                Json::text("content"),
            ).with("content", content.to_json()),
            ToolCallContent::Diff { path, old_text, new_text } => {
                let j = Json::object().with("type", Json::text("diff")).with(
                    "path",
                    Json::text(path.as_str()),
                );
                let j = match old_text {
                    Some(old) => j.with("oldText", Json::text(old.as_str())),
                    None => j,
                };
                j.with("newText", Json::text(new_text.as_str()))
            },
        }
    }
}

impl ToolCallLocation {
    /// The location on the wire.
    pub fn to_json(&self) -> (r: Json)
        ensures
            r@ == location_json(self@),
    {
        let j = Json::object().with("path", Json::text(self.path.as_str()));
        match self.line {
            Some(line) => j.with("line", Json::uint(line as u64)),
            None => j,
        }
    }
}

/// A list of contents on the wire.
pub open spec fn contents_json(c: Seq<ContentSpec>) -> JsonSpec {
    JsonSpec::Array(Seq::new(c.len(), |i: int| content_json(c[i])))
}

/// A list of locations on the wire.
pub open spec fn locations_json(l: Seq<LocationSpec>) -> JsonSpec {
    JsonSpec::Array(Seq::new(l.len(), |i: int| location_json(l[i])))
}

/// A list of contents on the wire.
pub fn contents_to_json(c: &Vec<ToolCallContent>) -> (r: Json)
    ensures
        r@ == contents_json(contents(c@)),
{
    let mut out: Vec<Json> = Vec::new();
    let mut i: usize = 0;
    while i < c.len()
        invariant
            i <= c@.len(),
            out@.len() == i,
            forall|k: int| 0 <= k < i ==> (#[trigger] out@[k])@ == content_json(c@[k]@),
        decreases c@.len() - i,
    {
        out.push(c[i].to_json());
        i += 1;
    }
    proof {
        assert(jsons(out@) =~= contents_json(contents(c@))->Array_0);
    }
    Json::array(out)
}

/// A list of locations on the wire.
pub fn locations_to_json(l: &Vec<ToolCallLocation>) -> (r: Json)
    ensures
        r@ == locations_json(locations(l@)),
{
    let mut out: Vec<Json> = Vec::new();
    let mut i: usize = 0;
    while i < l.len()
        invariant
            i <= l@.len(),
            out@.len() == i,
            forall|k: int| 0 <= k < i ==> (#[trigger] out@[k])@ == location_json(l@[k]@),
        decreases l@.len() - i,
    {
        out.push(l[i].to_json());
        i += 1;
    }
    proof {
        assert(jsons(out@) =~= locations_json(locations(l@))->Array_0);
    }
    Json::array(out)
}

/// A tool call, when it is first shown.
pub struct ToolCall {
    pub tool_call_id: String,
    pub title: String,
    pub kind: ToolKind,
    pub status: ToolCallStatus,
    pub content: Vec<ToolCallContent>,
    pub locations: Vec<ToolCallLocation>,
    pub raw_input: Option<Json>,
    pub meta: Json,
}

/// What changes about a tool call; `None` leaves a field as it is.
pub struct ToolCallUpdate {
    pub tool_call_id: String,
    pub kind: Option<ToolKind>,
    pub status: Option<ToolCallStatus>,
    pub title: Option<String>,
    pub content: Option<Vec<ToolCallContent>>,
    pub locations: Option<Vec<ToolCallLocation>>,
    pub raw_input: Option<Json>,
    pub raw_output: Option<Json>,
    pub meta: Json,
}

/// How far an entry of a plan has come.
#[derive(Debug, Clone, Copy, PartialEq, Eq, Structural)]
pub enum PlanEntryStatus {
    Pending,
    InProgress,
    Completed,
}

/// An entry of a plan. Its priority is always the middle one.
#[derive(Debug, Clone, PartialEq, Eq)]
pub struct PlanEntry {
    pub content: String,
    pub status: PlanEntryStatus,
}

/// A slash command that the client can offer.
#[derive(Debug, Clone, PartialEq, Eq)]
pub struct AvailableCommand {
    pub name: String,
    pub description: String,
    /// What to type after the command.
    pub hint: Option<String>,
}

/// What the client is told about a session. These are all the kinds of update
/// there are: session information, configuration options and usage are never
/// sent.
pub enum SessionUpdate {
    UserMessageChunk(ContentBlock),
    AgentMessageChunk(ContentBlock),
    AgentThoughtChunk(ContentBlock),
    ToolCall(ToolCall),
    ToolCallUpdate(ToolCallUpdate),
    Plan(Vec<PlanEntry>),
    AvailableCommandsUpdate(Vec<AvailableCommand>),
    CurrentModeUpdate(String),
}

/// What a tool call holds.
#[verifier::ext_equal]
pub struct ToolCallSpec {
    pub id: Seq<char>,
    pub title: Seq<char>,
    pub kind: ToolKind,
    pub status: ToolCallStatus,
    pub content: Seq<ContentSpec>,
    pub locations: Seq<LocationSpec>,
    pub raw_input: Option<JsonSpec>,
    pub meta: JsonSpec,
}

/// What an update of a tool call holds.
#[verifier::ext_equal]
pub struct ToolCallUpdateSpec {
    pub id: Seq<char>,
    pub kind: Option<ToolKind>,
    pub status: Option<ToolCallStatus>,
    pub title: Option<Seq<char>>,
    pub content: Option<Seq<ContentSpec>>,
    pub locations: Option<Seq<LocationSpec>>,
    pub raw_input: Option<JsonSpec>,
    pub raw_output: Option<JsonSpec>,
    pub meta: JsonSpec,
}

/// What an entry of a plan holds.
pub struct PlanEntrySpec {
    pub content: Seq<char>,
    pub status: PlanEntryStatus,
}

/// What a slash command holds.
pub struct CommandSpec {
    pub name: Seq<char>,
    pub description: Seq<char>,
    pub hint: Option<Seq<char>>,
}

/// What an update holds.
#[verifier::ext_equal]
pub enum UpdateSpec {
    UserMessageChunk(BlockSpec),
    AgentMessageChunk(BlockSpec),
    AgentThoughtChunk(BlockSpec),
    ToolCall(ToolCallSpec),
    ToolCallUpdate(ToolCallUpdateSpec),
    Plan(Seq<PlanEntrySpec>),
    AvailableCommandsUpdate(Seq<CommandSpec>),
    CurrentModeUpdate(Seq<char>),
}

/// What an optional value holds.
pub open spec fn opt_value(o: Option<Json>) -> Option<JsonSpec> {
    match o {
        Some(j) => Some(j@),
        None => None,
    }
}

/// What an optional list of contents shows.
pub open spec fn opt_contents(o: Option<Vec<ToolCallContent>>) -> Option<Seq<ContentSpec>> {
    match o {
        Some(v) => Some(contents(v@)),
        None => None,
    }
}

/// The files of an optional list.
pub open spec fn opt_locations(o: Option<Vec<ToolCallLocation>>) -> Option<Seq<LocationSpec>> {
    match o {
        Some(v) => Some(locations(v@)),
        None => None,
    }
}

impl ToolCall {
    /// What the tool call holds.
    pub open spec fn view(&self) -> ToolCallSpec {
        ToolCallSpec {
            id: self.tool_call_id@,
            title: self.title@,
            kind: self.kind,
            status: self.status,
            content: contents(self.content@),
            locations: locations(self.locations@),
            raw_input: opt_value(self.raw_input),
            meta: self.meta@,
        }
    }
}

impl ToolCallUpdate {
    /// What the update holds.
    pub open spec fn view(&self) -> ToolCallUpdateSpec {
        ToolCallUpdateSpec {
            id: self.tool_call_id@,
            kind: self.kind,
            status: self.status,
            title: opt_string(self.title),
            content: opt_contents(self.content),
            locations: opt_locations(self.locations),
            raw_input: opt_value(self.raw_input),
            raw_output: opt_value(self.raw_output),
            meta: self.meta@,
        }
    }
}

impl PlanEntry {
    /// What the entry holds.
    pub open spec fn view(&self) -> PlanEntrySpec {
        PlanEntrySpec { content: self.content@, status: self.status }
    }
}

impl AvailableCommand {
    /// What the command holds.
    pub open spec fn view(&self) -> CommandSpec {
        CommandSpec {
            name: self.name@,
            description: self.description@,
            hint: opt_string(self.hint),
        }
    }
}

/// What the entries of a plan hold.
pub open spec fn plan_entries(v: Seq<PlanEntry>) -> Seq<PlanEntrySpec> {
    Seq::new(v.len(), |i: int| v[i]@)
}

/// What the commands of a list hold.
pub open spec fn commands(v: Seq<AvailableCommand>) -> Seq<CommandSpec> {
    Seq::new(v.len(), |i: int| v[i]@)
}

impl SessionUpdate {
    /// What the update holds.
    pub open spec fn view(&self) -> UpdateSpec {
        match self {
            SessionUpdate::UserMessageChunk(b) => UpdateSpec::UserMessageChunk(b@),
            SessionUpdate::AgentMessageChunk(b) => UpdateSpec::AgentMessageChunk(b@),
            SessionUpdate::AgentThoughtChunk(b) => UpdateSpec::AgentThoughtChunk(b@),
            SessionUpdate::ToolCall(t) => UpdateSpec::ToolCall(t@),
            SessionUpdate::ToolCallUpdate(t) => UpdateSpec::ToolCallUpdate(t@),
            SessionUpdate::Plan(p) => UpdateSpec::Plan(plan_entries(p@)),
            SessionUpdate::AvailableCommandsUpdate(c) => UpdateSpec::AvailableCommandsUpdate(
                commands(c@),
            ),
            SessionUpdate::CurrentModeUpdate(m) => UpdateSpec::CurrentModeUpdate(m@),
        }
    }
}

/// What the updates of a list hold.
pub open spec fn updates(v: Seq<SessionUpdate>) -> Seq<UpdateSpec> {
    Seq::new(v.len(), |i: int| v[i]@)
}

} // verus!

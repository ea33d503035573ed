//! What holds of the updates that a client is shown.

use vstd::prelude::*;

use crate::acp::{BlockSpec, CommandSpec, PlanEntryStatus, ToolCallSpec, ToolCallStatus, ToolCallUpdateSpec, UpdateSpec};
use crate::json::{has_text, json_parse, member_texts, JsonSpec, NumberSpec};
use crate::map::{all_offered, MapSpec, MsgRole};
use crate::stream_input::{closes, scan_of, StreamSpec};
use crate::strs::joined;
use crate::tools::{meta_of, result_shown, shape_of};
use vstd::utf8::encode_utf8;

verus! {

/// Whether a block of this type uses a tool.
pub open spec fn uses_a_tool(t: Seq<char>) -> bool {
    ||| t == "tool_use"@
    ||| t == "server_tool_use"@
    ||| t == "mcp_tool_use"@
}

/// Whether a block of this type holds what a tool returned.
pub open spec fn holds_a_result(t: Seq<char>) -> bool {
    ||| t == "tool_result"@
    ||| t == "tool_search_tool_result"@
    ||| t == "web_fetch_tool_result"@
    ||| t == "web_search_tool_result"@
    ||| t == "code_execution_tool_result"@
    ||| t == "bash_code_execution_tool_result"@
    ||| t == "text_editor_code_execution_tool_result"@
    ||| t == "mcp_tool_result"@
}

/// Whether the uses of a tool are shown as tool calls. Those of the tools that keep
/// lists of tasks are not.
pub open spec fn shown_as_a_call(name: Seq<char>) -> bool {
    &&& name != "TodoWrite"@
    &&& name != "TaskCreate"@
    &&& name != "TaskUpdate"@
    &&& name != "TaskList"@
    &&& name != "TaskGet"@
}

/// Whether a block is the use of a tool under this id, with this name and input.
pub open spec fn is_use_of(block: JsonSpec, id: Seq<char>, name: Seq<char>,
    input: JsonSpec) -> bool {
    &&& block.get("type"@) matches Some(JsonSpec::Str(t)) && uses_a_tool(t)
    &&& has_text(block, "id"@, id)
    &&& has_text(block, "name"@, name)
    &&& block.get("input"@) == Some(input)
}

/// Whether a block is what the tool returned to the call with this id.
pub open spec fn is_result_of(block: JsonSpec, id: Seq<char>, content: JsonSpec) -> bool {
    &&& block.get("type"@) matches Some(JsonSpec::Str(t)) && holds_a_result(t)
    &&& has_text(block, "tool_use_id"@, id)
    &&& block.get("content"@) == Some(content)
}

/// Tells the words apart, by their lengths and letters.
proof fn lemma_block_words()
    ensures
        "TaskCreate"@.len() == 10 && "TaskCreate"@[4] == 'C',
        "TaskGet"@.len() == 7,
        "TaskList"@.len() == 8 && "TaskList"@[1] == 'a',
        "TaskUpdate"@.len() == 10 && "TaskUpdate"@[4] == 'U',
        "TodoWrite"@.len() == 9 && "TodoWrite"@[0] == 'T',
        "assistant"@.len() == 9 && "assistant"@[0] == 'a',
        "base64"@.len() == 6 && "base64"@[0] == 'b',
        "bash_code_execution_tool_result"@.len() == 31,
        "code_execution_tool_result"@.len() == 26,
        "commands_changed"@.len() == 16 && "commands_changed"@[0] == 'c',
        "completed"@.len() == 9 && "completed"@[0] == 'c',
        "content_block_delta"@.len() == 19 && "content_block_delta"@[14] == 'd',
        "content_block_start"@.len() == 19 && "content_block_start"@[14] == 's',
        "content_block_stop"@.len() == 18,
        "image"@.len() == 5,
        "in_progress"@.len() == 11 && "in_progress"@[0] == 'i',
        "input_json_delta"@.len() == 16 && "input_json_delta"@[0] == 'i',
        "mcp_tool_result"@.len() == 15 && "mcp_tool_result"@[0] == 'm',
        "mcp_tool_use"@.len() == 12 && "mcp_tool_use"@[1] == 'c',
        "message_start"@.len() == 13,
        "message_stop"@.len() == 12 && "message_stop"@[1] == 'e',
        "server_tool_use"@.len() == 15 && "server_tool_use"@[0] == 's',
        "stream_event"@.len() == 12 && "stream_event"@[1] == 't',
        "system"@.len() == 6 && "system"@[0] == 's',
        "text"@.len() == 4 && "text"@[0] == 't',
        "text_delta"@.len() == 10 && "text_delta"@[4] == '_',
        "text_editor_code_execution_tool_result"@.len() == 38,
        "thinking"@.len() == 8 && "thinking"@[1] == 'h',
        "thinking_delta"@.len() == 14,
        "tool_result"@.len() == 11 && "tool_result"@[0] == 't',
        "tool_search_tool_result"@.len() == 23,
        "tool_use"@.len() == 8 && "tool_use"@[1] == 'o',
        "user"@.len() == 4 && "user"@[0] == 'u',
        "web_fetch_tool_result"@.len() == 21,
        "web_search_tool_result"@.len() == 22,
{
    reveal_strlit("TaskCreate");
    reveal_strlit("TaskGet");
    reveal_strlit("TaskList");
    reveal_strlit("TaskUpdate");
    reveal_strlit("TodoWrite");
    reveal_strlit("assistant");
    reveal_strlit("base64");
    reveal_strlit("bash_code_execution_tool_result");
    reveal_strlit("code_execution_tool_result");
    reveal_strlit("commands_changed");
    reveal_strlit("completed");
    reveal_strlit("content_block_delta");
    reveal_strlit("content_block_start");
    reveal_strlit("content_block_stop");
    reveal_strlit("image");
    reveal_strlit("in_progress");
    reveal_strlit("input_json_delta");
    reveal_strlit("mcp_tool_result");
    reveal_strlit("mcp_tool_use");
    reveal_strlit("message_start");
    reveal_strlit("message_stop");
    reveal_strlit("server_tool_use");
    reveal_strlit("stream_event");
    reveal_strlit("system");
    reveal_strlit("text");
    reveal_strlit("text_delta");
    reveal_strlit("text_editor_code_execution_tool_result");
    reveal_strlit("thinking");
    reveal_strlit("thinking_delta");
    reveal_strlit("tool_result");
    reveal_strlit("tool_search_tool_result");
    reveal_strlit("tool_use");
    reveal_strlit("user");
    reveal_strlit("web_fetch_tool_result");
    reveal_strlit("web_search_tool_result");
}

/// The use of a tool that the client has not seen is shown as a pending call, in
/// the shape of that tool with that input, and is known from now on.
pub proof fn law_new_call_is_shown(
    m: MapSpec,
    block: JsonSpec,
    role: MsgRole,
    id: Seq<char>,
    name: Seq<char>,
    input: JsonSpec,
)
    requires
        is_use_of(block, id, name, input),
        shown_as_a_call(name),
        !m.emitted.contains(id),
    ensures
        m.block(block, role).1 == seq![
            UpdateSpec::ToolCall(
                ToolCallSpec {
                    id,
                    title: shape_of(name, input).title,
                    kind: shape_of(name, input).kind,
                    status: ToolCallStatus::Pending,
                    content: shape_of(name, input).content,
                    locations: shape_of(name, input).locations,
                    raw_input: Some(input),
                    meta: meta_of(name, input),
                },
            ),
        ],
        m.block(block, role).0.emitted == m.emitted.insert(id),
        m.block(block, role).0.cache == m.cache.insert(id, block),
        m.block(block, role).0.streams == m.streams,
{
    lemma_block_words();
}

/// The use of a tool that is not named is shown as one of a tool without a name, and
/// one without an input as if that were nothing.
pub proof fn law_nameless_call_is_shown(m: MapSpec, block: JsonSpec, role: MsgRole, id: Seq<char>)
    requires
        block.get("type"@) matches Some(JsonSpec::Str(t)) && uses_a_tool(t),
        block.get("name"@) is None,
        block.get("input"@) is None,
        has_text(block, "id"@, id),
        !m.emitted.contains(id),
    ensures
        ({
            let updates = m.block(block, role).1;
            &&& updates.len() == 1
            &&& updates[0] matches UpdateSpec::ToolCall(t) && {
                &&& t.id == id
                &&& t.title == shape_of("Other"@, JsonSpec::Null).title
                &&& t.kind == shape_of("Other"@, JsonSpec::Null).kind
                &&& t.content == shape_of("Other"@, JsonSpec::Null).content
                &&& t.raw_input is None
                &&& t.meta == meta_of("Other"@, JsonSpec::Null)
            }
        }),
{
    lemma_block_words();
}

/// A tool call that is refined by a whole message shows the same kind, title,
/// content, locations, input and account as a first showing of the same block does;
/// where that has no locations, they are left as they were. Nothing is remembered
/// anew.
pub proof fn law_refined_as_first_shown(m: MapSpec, block: JsonSpec, role: MsgRole, id: Seq<char>)
    requires
        block.get("type"@) matches Some(JsonSpec::Str(t)) && uses_a_tool(t),
        block.get("name"@) matches Some(JsonSpec::Str(name)) ==> shown_as_a_call(name),
        has_text(block, "id"@, id),
        m.emitted.contains(id),
    ensures
        ({
            let first = MapSpec::initial().block(block, role).1;
            let again = m.block(block, role).1;
            &&& first.len() == 1
            &&& again.len() == 1
            &&& first[0] matches UpdateSpec::ToolCall(t) && again[0]
                == UpdateSpec::ToolCallUpdate(
                ToolCallUpdateSpec {
                    id: t.id,
                    kind: Some(t.kind),
                    status: None,
                    title: Some(t.title),
                    content: Some(t.content),
                    locations: if t.locations.len() > 0 {
                        Some(t.locations)
                    } else {
                        None
                    },
                    raw_input: t.raw_input,
                    raw_output: None,
                    meta: t.meta,
                },
            ) && t.id == id
            &&& m.block(block, role).0 == m
        }),
{
    lemma_block_words();
}

/// A command is shown by its own text, when it is first seen and whenever it is
/// refined.
pub proof fn law_command_is_its_title(
    m: MapSpec,
    block: JsonSpec,
    role: MsgRole,
    id: Seq<char>,
    input: JsonSpec,
    command: Seq<char>,
)
    requires
        is_use_of(block, id, "Bash"@, input),
        has_text(input, "command"@, command),
    ensures
        ({
            let updates = m.block(block, role).1;
            &&& updates.len() == 1
            &&& m.emitted.contains(id) ==> (updates[0] matches UpdateSpec::ToolCallUpdate(u)
                && u.title == Some(command) && u.raw_input == Some(input))
            &&& !m.emitted.contains(id) ==> (updates[0] matches UpdateSpec::ToolCall(t) && t.title
                == command && t.raw_input == Some(input))
        }),
{
    lemma_block_words();
    reveal_strlit("Bash");
    reveal_strlit("Agent");
    assert("Bash"@.len() == 4 && "Agent"@.len() == 5);
    reveal_strlit("Task");
    assert("Bash"@[0] != "Task"@[0]);
}

/// What a tool returned ends the call that used it: as failed exactly if it is an
/// error. It is shown as the tool shows its results, and the call is forgotten. This
/// holds of whatever the mapping knew before the call.
pub proof fn law_result_ends_its_call(
    m: MapSpec,
    used: JsonSpec,
    result: JsonSpec,
    role: MsgRole,
    id: Seq<char>,
    name: Seq<char>,
    input: JsonSpec,
    content: JsonSpec,
)
    requires
        is_use_of(used, id, name, input),
        shown_as_a_call(name),
        !m.emitted.contains(id),
        is_result_of(result, id, content),
    ensures
        ({
            let is_error = result.get("is_error"@) == Some(JsonSpec::Bool(true));
            let (after, updates) = m.block(used, role).0.block(result, role);
            &&& updates == seq![
                UpdateSpec::ToolCallUpdate(
                    ToolCallUpdateSpec {
                        id,
                        kind: None,
                        status: Some(
                            if is_error {
                                ToolCallStatus::Failed
                            } else {
                                ToolCallStatus::Completed
                            },
                        ),
                        title: None,
                        content: result_shown(name, content, is_error),
                        locations: None,
                        raw_input: None,
                        raw_output: Some(content),
                        meta: meta_of(name, content),
                    },
                ),
            ]
            &&& !after.emitted.contains(id)
            &&& !after.cache.contains_key(id)
            &&& forall|other: Seq<char>|
                other != id ==> (after.emitted.contains(other) <==> #[trigger] m.emitted.contains(
                    other,
                ))
        }),
{
    lemma_block_words();
}

/// The result of a call that is not known is told all the same, as one of a tool
/// without a name.
pub proof fn law_result_of_an_unknown_call(
    m: MapSpec,
    result: JsonSpec,
    role: MsgRole,
    id: Seq<char>,
    content: JsonSpec,
)
    requires
        is_result_of(result, id, content),
        !m.cache.contains_key(id),
    ensures
        ({
            let is_error = result.get("is_error"@) == Some(JsonSpec::Bool(true));
            let updates = m.block(result, role).1;
            &&& updates.len() == 1
            &&& updates[0] matches UpdateSpec::ToolCallUpdate(u) && {
                &&& u.id == id
                &&& u.status == Some(
                    if is_error {
                        ToolCallStatus::Failed
                    } else {
                        ToolCallStatus::Completed
                    },
                )
                &&& u.content == result_shown("Other"@, content, is_error)
                &&& u.raw_output == Some(content)
                &&& u.meta == meta_of("Other"@, content)
            }
        }),
{
    lemma_block_words();
    reveal_strlit("Other");
}

/// The result of a list of tasks is not shown: the plan was, when the list came.
pub proof fn law_result_of_a_todo_list_is_silent(
    m: MapSpec,
    result: JsonSpec,
    role: MsgRole,
    id: Seq<char>,
    content: JsonSpec,
)
    requires
        is_result_of(result, id, content),
        m.cache.contains_key(id),
        has_text(m.cache[id], "name"@, "TodoWrite"@),
    ensures
        m.block(result, role).1.len() == 0,
        !m.block(result, role).0.cache.contains_key(id),
{
    lemma_block_words();
}

/// A list of tasks is shown as a plan, an entry for each task in order, with its
/// status. A task that is being done is shown by how its doing is called, where
/// that is given.
pub proof fn law_todo_list_is_a_plan(
    m: MapSpec,
    block: JsonSpec,
    role: MsgRole,
    id: Seq<char>,
    input: JsonSpec,
    todos: Seq<JsonSpec>,
)
    requires
        is_use_of(block, id, "TodoWrite"@, input),
        input.get("todos"@) == Some(JsonSpec::Array(todos)),
    ensures
        m.block(block, role).0 == m,
        ({
            let updates = m.block(block, role).1;
            &&& updates.len() == 1
            &&& updates[0] matches UpdateSpec::Plan(entries) && {
                &&& entries.len() == todos.len()
                &&& forall|i: int, text: Seq<char>|
                    0 <= i < todos.len() && #[trigger] has_text(todos[i], "content"@, text) && !(
                    todos[i].get("activeForm"@) is Some) ==> entries[i].content == text
                &&& forall|i: int, text: Seq<char>|
                    0 <= i < todos.len() && #[trigger] has_text(todos[i], "content"@, text)
                        && !has_text(todos[i], "status"@, "in_progress"@) ==> entries[i].content
                        == text
                &&& forall|i: int, doing: Seq<char>|
                    0 <= i < todos.len() && #[trigger] has_text(todos[i], "activeForm"@, doing)
                        && doing.len() > 0 && has_text(todos[i], "status"@, "in_progress"@)
                        ==> entries[i].content == doing
                &&& forall|i: int|
                    0 <= i < todos.len() ==> #[trigger] entries[i].status == (if has_text(
                        todos[i],
                        "status"@,
                        "in_progress"@,
                    ) {
                        PlanEntryStatus::InProgress
                    } else if has_text(todos[i], "status"@, "completed"@) {
                        PlanEntryStatus::Completed
                    } else {
                        PlanEntryStatus::Pending
                    })
            }
        }),
{
    lemma_block_words();
}

/// A list of tasks that holds none shows nothing.
pub proof fn law_missing_todo_list_is_silent(m: MapSpec, block: JsonSpec, role: MsgRole)
    requires
        block.get("type"@) matches Some(JsonSpec::Str(t)) && uses_a_tool(t),
        has_text(block, "name"@, "TodoWrite"@),
        block.get("input"@) matches Some(input) ==> !(input.get("todos"@) matches Some(
            JsonSpec::Array(_),
        )),
    ensures
        m.block(block, role) == (m, Seq::<UpdateSpec>::empty()),
{
    lemma_block_words();
}

/// The other tools that keep tasks are not shown when they are used.
pub proof fn law_task_tools_are_silent(
    m: MapSpec,
    block: JsonSpec,
    role: MsgRole,
    id: Seq<char>,
    name: Seq<char>,
    input: JsonSpec,
)
    requires
        is_use_of(block, id, name, input),
        name == "TaskCreate"@ || name == "TaskUpdate"@ || name == "TaskList"@ || name
            == "TaskGet"@,
    ensures
        m.block(block, role) == (m, Seq::<UpdateSpec>::empty()),
{
    lemma_block_words();
}

/// A text is shown as it is, as a message of who wrote it, whether it comes whole
/// or in parts. An empty one is not shown.
pub proof fn law_text_is_shown(m: MapSpec, block: JsonSpec, role: MsgRole, text: Seq<char>)
    requires
        has_text(block, "type"@, "text"@) || has_text(block, "type"@, "text_delta"@),
        has_text(block, "text"@, text),
    ensures
        m.block(block, role).0 == m,
        text.len() == 0 ==> m.block(block, role).1.len() == 0,
        text.len() > 0 ==> m.block(block, role).1 == seq![
            match role {
                MsgRole::Assistant => UpdateSpec::AgentMessageChunk(BlockSpec::Text { text }),
                MsgRole::User => UpdateSpec::UserMessageChunk(BlockSpec::Text { text }),
            },
        ],
{
    lemma_block_words();
}

/// A thought is shown as one, whether it comes whole or in parts.
pub proof fn law_thought_is_shown(m: MapSpec, block: JsonSpec, role: MsgRole, text: Seq<char>)
    requires
        has_text(block, "type"@, "thinking"@) || has_text(block, "type"@, "thinking_delta"@),
        has_text(block, "thinking"@, text),
    ensures
        m.block(block, role) == (
            m,
            seq![UpdateSpec::AgentThoughtChunk(BlockSpec::Text { text })],
        ),
{
    lemma_block_words();
}

/// An image that holds its data is shown with that data and its media type; any
/// other image is not shown.
pub proof fn law_image_is_shown(
    m: MapSpec,
    block: JsonSpec,
    role: MsgRole,
    source: JsonSpec,
    data: Seq<char>,
    mime: Seq<char>,
)
    requires
        has_text(block, "type"@, "image"@),
        block.get("source"@) == Some(source),
        has_text(source, "data"@, data),
        has_text(source, "media_type"@, mime),
    ensures
        has_text(source, "type"@, "base64"@) ==> m.block(block, role) == (
            m,
            seq![UpdateSpec::AgentMessageChunk(BlockSpec::Image { data, mime_type: mime })],
        ),
        !has_text(source, "type"@, "base64"@) ==> m.block(block, role) == (
            m,
            Seq::<UpdateSpec>::empty(),
        ),
{
    lemma_block_words();
}

/// A block of a type that is none of these shows nothing and changes nothing.
pub proof fn law_other_blocks_are_silent(m: MapSpec, block: JsonSpec, role: MsgRole, t: Seq<char>)
    requires
        has_text(block, "type"@, t),
        !uses_a_tool(t),
        !holds_a_result(t),
        t != "text"@,
        t != "text_delta"@,
        t != "thinking"@,
        t != "thinking_delta"@,
        t != "image"@,
    ensures
        m.block(block, role) == (m, Seq::<UpdateSpec>::empty()),
{
}

/// A message that is a mere text is shown as a block with that text would be.
pub proof fn law_text_message_is_a_text_block(
    m: MapSpec,
    block: JsonSpec,
    role: MsgRole,
    text: Seq<char>,
)
    requires
        has_text(block, "type"@, "text"@),
        has_text(block, "text"@, text),
    ensures
        m.consolidated(JsonSpec::Str(text), role) == m.consolidated(
            JsonSpec::Array(seq![block]),
            role,
        ),
{
    lemma_block_words();
    lemma_one_block(m, block, role);
    law_text_is_shown(m, block, role, text);
    assert(m.consolidated(JsonSpec::Str(text), role).1 =~= m.block(block, role).1);
}

proof fn lemma_one_block(m: MapSpec, block: JsonSpec, role: MsgRole)
    ensures
        m.blocks(seq![block], role) == m.block(block, role),
{
    let a = seq![block];
    assert(a.drop_last() =~= Seq::<JsonSpec>::empty());
    assert(a.last() == block);
    assert(m.blocks(a.drop_last(), role) == (m, Seq::<UpdateSpec>::empty()));
    assert(Seq::<UpdateSpec>::empty() + m.block(block, role).1 =~= m.block(block, role).1);
}

/// A message of several blocks is shown block by block: what comes of two parts of
/// it, one after the other, comes of the whole.
pub proof fn law_message_is_shown_in_order(
    m: MapSpec,
    a: Seq<JsonSpec>,
    b: Seq<JsonSpec>,
    block: JsonSpec,
    role: MsgRole,
)
    ensures
        m.consolidated(JsonSpec::Array(seq![block]), role) == m.block(block, role),
        m.consolidated(JsonSpec::Array(Seq::empty()), role) == (m, Seq::<UpdateSpec>::empty()),
        ({
            let (n, first) = m.consolidated(JsonSpec::Array(a), role);
            let (o, rest) = n.consolidated(JsonSpec::Array(b), role);
            m.consolidated(JsonSpec::Array(a + b), role) == (o, first + rest)
        }),
{
    lemma_one_block(m, block, role);
    lemma_blocks_in_order(m, a, b, role);
}

proof fn lemma_blocks_in_order(m: MapSpec, a: Seq<JsonSpec>, b: Seq<JsonSpec>, role: MsgRole)
    ensures
        ({
            let (n, first) = m.blocks(a, role);
            let (o, rest) = n.blocks(b, role);
            m.blocks(a + b, role) == (o, first + rest)
        }),
    decreases b.len(),
{
    let (n, first) = m.blocks(a, role);
    if b.len() == 0 {
        assert(a + b =~= a);
        assert(first + Seq::<UpdateSpec>::empty() =~= first);
    } else {
        lemma_blocks_in_order(m, a, b.drop_last(), role);
        assert((a + b).drop_last() =~= a + b.drop_last());
        assert((a + b).last() == b.last());
        let (o, rest) = n.blocks(b.drop_last(), role);
        let (p, last) = o.block(b.last(), role);
        assert(first + rest + last =~= first + (rest + last));
    }
}

/// A block that starts in the stream is shown as the same block in a whole message
/// of the assistant would be.
pub proof fn law_streamed_block_is_shown_as_whole(
    m: MapSpec,
    message: JsonSpec,
    event: JsonSpec,
    block: JsonSpec,
)
    requires
        message.get("event"@) == Some(event),
        has_text(event, "type"@, "content_block_start"@),
        event.get("content_block"@) == Some(block),
    ensures
        m.stream_event(message).1 == m.block(block, MsgRole::Assistant).1,
        m.stream_event(message).0.emitted == m.block(block, MsgRole::Assistant).0.emitted,
        m.stream_event(message).0.cache == m.block(block, MsgRole::Assistant).0.cache,
{
    lemma_block_words();
}

/// A text that grows in the stream is shown piece by piece, as the assistant's; a
/// thought likewise.
pub proof fn law_streamed_piece_is_shown(
    m: MapSpec,
    message: JsonSpec,
    event: JsonSpec,
    delta: JsonSpec,
)
    requires
        message.get("event"@) == Some(event),
        has_text(event, "type"@, "content_block_delta"@),
        event.get("delta"@) == Some(delta),
        !has_text(delta, "type"@, "input_json_delta"@),
    ensures
        m.stream_event(message) == m.block(delta, MsgRole::Assistant),
{
    lemma_block_words();
}

/// Where in the stream a block stands: whose stream it is, and its place in it.
pub open spec fn stands_at(
    message: JsonSpec,
    event: JsonSpec,
    lane: Seq<char>,
    index: u64,
) -> bool {
    &&& message.get("event"@) == Some(event)
    &&& event.get("index"@) == Some(JsonSpec::Number(NumberSpec::Pos(index)))
    &&& has_text(message, "parent_tool_use_id"@, lane)
        || (!(message.get("parent_tool_use_id"@) matches Some(
        JsonSpec::Str(_),
    )) && lane == Seq::<char>::empty())
}

/// The use of a tool that starts in the stream is waited for at its place, with
/// nothing read of its input yet.
pub proof fn law_streamed_input_starts(
    m: MapSpec,
    message: JsonSpec,
    event: JsonSpec,
    block: JsonSpec,
    lane: Seq<char>,
    index: u64,
    id: Seq<char>,
    name: Seq<char>,
    input: JsonSpec,
)
    requires
        stands_at(message, event, lane, index),
        has_text(event, "type"@, "content_block_start"@),
        event.get("content_block"@) == Some(block),
        is_use_of(block, id, name, input),
    ensures
        m.stream_event(message).0.streams == m.streams.insert(
            (lane, index),
            StreamSpec { id, name, json: Seq::empty(), shown: -1 },
        ),
{
    lemma_block_words();
}

/// A piece of a streamed input is added to what came before it. Once a further
/// member of the input is complete, what is complete so far refines the call: the
/// shape is that of the tool with the part of the input before the last comma. When
/// the input closes, the whole message will tell it, and it is waited for no more.
pub proof fn law_streamed_input_refines(
    m: MapSpec,
    message: JsonSpec,
    event: JsonSpec,
    delta: JsonSpec,
    lane: Seq<char>,
    index: u64,
    piece: Seq<char>,
    input: JsonSpec,
)
    requires
        stands_at(message, event, lane, index),
        has_text(event, "type"@, "content_block_delta"@),
        event.get("delta"@) == Some(delta),
        has_text(delta, "type"@, "input_json_delta"@),
        has_text(delta, "partial_json"@, piece),
        m.streams.contains_key((lane, index)),
    ensures
        ({
            let was = m.streams[(lane, index)];
            let text = was.json + piece;
            let comma = scan_of(text).comma;
            let (after, updates) = m.stream_event(message);
            &&& after.emitted == m.emitted
            &&& after.cache == m.cache
            &&& closes(text, was.json.len() as int) ==> updates.len() == 0
                && !after.streams.contains_key((lane, index))
            &&& !closes(text, was.json.len() as int) ==> {
                &&& after.streams.contains_key((lane, index))
                &&& after.streams[(lane, index)].json == text
                &&& after.streams[(lane, index)].id == was.id
                &&& after.streams[(lane, index)].name == was.name
            }
            &&& !closes(text, was.json.len() as int) && comma <= was.shown ==> updates.len() == 0
            &&& !closes(text, was.json.len() as int) && comma > was.shown && !(json_parse(
                encode_utf8(text.take(comma) + "}"@),
            ) matches Some(JsonSpec::Object(_))) ==> updates.len() == 0
            &&& !closes(text, was.json.len() as int) && comma > was.shown && input is Object
                && json_parse(encode_utf8(text.take(comma) + "}"@)) == Some(input) ==> {
                &&& after.streams[(lane, index)].shown == comma
                &&& updates.len() == 1
                &&& updates[0] matches UpdateSpec::ToolCallUpdate(u) && {
                    &&& u.id == was.id
                    &&& u.title == Some(shape_of(was.name, input).title)
                    &&& u.kind == Some(shape_of(was.name, input).kind)
                    &&& u.raw_input == Some(input)
                    &&& u.content is None
                    &&& u.status is None
                    &&& u.raw_output is None
                    &&& u.locations is Some <==> shape_of(was.name, input).locations.len() > 0
                    &&& u.locations matches Some(l) ==> l == shape_of(was.name, input).locations
                    &&& json_parse(encode_utf8(text)) matches Some(all) ==> u.meta == meta_of(
                        was.name,
                        all,
                    )
                    &&& json_parse(encode_utf8(text)) is None ==> u.meta == meta_of(
                        was.name,
                        JsonSpec::Null,
                    )
                }
            }
        }),
{
    lemma_block_words();
}

/// A piece of an input that nobody waits for is passed over.
pub proof fn law_stray_piece_is_passed_over(
    m: MapSpec,
    message: JsonSpec,
    event: JsonSpec,
    delta: JsonSpec,
    lane: Seq<char>,
    index: u64,
)
    requires
        stands_at(message, event, lane, index),
        has_text(event, "type"@, "content_block_delta"@),
        event.get("delta"@) == Some(delta),
        has_text(delta, "type"@, "input_json_delta"@),
        !m.streams.contains_key((lane, index)),
    ensures
        m.stream_event(message) == (m, Seq::<UpdateSpec>::empty()),
{
    lemma_block_words();
}

/// When a block or a message ends in a stream, or a message starts, no input of that
/// stream is waited for any more; those of other streams still are.
pub proof fn law_stream_is_cleared(
    m: MapSpec,
    message: JsonSpec,
    event: JsonSpec,
    lane: Seq<char>,
    other: Seq<char>,
    index: u64,
)
    requires
        message.get("event"@) == Some(event),
        has_text(message, "parent_tool_use_id"@, lane),
        has_text(event, "type"@, "content_block_stop"@) || has_text(
            event,
            "type"@,
            "message_start"@,
        ) || has_text(event, "type"@, "message_stop"@),
    ensures
        m.stream_event(message).1.len() == 0,
        m.stream_event(message).0.emitted == m.emitted,
        m.stream_event(message).0.cache == m.cache,
        m.stream_event(message).0.streams.contains_key((other, index)) <==> m.streams.contains_key(
            (other, index),
        ) && other != lane,
{
    lemma_block_words();
}

/// Whether a text holds none of the marks that give JSON its form.
pub open spec fn is_flat(s: Seq<char>) -> bool {
    forall|i: int|
        0 <= i < s.len() ==> {
            let c = #[trigger] s[i];
            c != '"' && c != '{' && c != '}' && c != '[' && c != ']' && c != ','
        }
}

/// Whether a text can stand between two quotes as it is.
pub open spec fn is_quotable(s: Seq<char>) -> bool {
    forall|i: int| 0 <= i < s.len() ==> (#[trigger] s[i]) != '"' && s[i] != '\\'
}

proof fn lemma_flat(before: Seq<char>, s: Seq<char>)
    requires
        is_flat(s),
        !scan_of(before).in_string,
    ensures
        scan_of(before + s) == scan_of(before),
    decreases s.len(),
{
    if s.len() == 0 {
        assert(before + s =~= before);
    } else {
        assert(is_flat(s.drop_last()));
        lemma_flat(before, s.drop_last());
        assert((before + s).drop_last() =~= before + s.drop_last());
        assert((before + s).last() == s[s.len() - 1]);
    }
}

proof fn lemma_in_quotes(before: Seq<char>, s: Seq<char>)
    requires
        is_quotable(s),
        scan_of(before).in_string,
        !scan_of(before).escaped,
    ensures
        scan_of(before + s) == scan_of(before),
    decreases s.len(),
{
    if s.len() == 0 {
        assert(before + s =~= before);
    } else {
        assert(is_quotable(s.drop_last()));
        lemma_in_quotes(before, s.drop_last());
        assert((before + s).drop_last() =~= before + s.drop_last());
        assert((before + s).last() == s[s.len() - 1]);
    }
}

proof fn lemma_next(before: Seq<char>, c: char)
    ensures
        scan_of(before.push(c)) == crate::stream_input::scan_char(
            scan_of(before),
            before.len() as int,
            c,
        ),
{
    assert(before.push(c).drop_last() =~= before);
}

/// A comma between two members of an input is found where it stands. A comma inside
/// a text, behind a quote that is escaped in a text, in a list or in an object
/// within the input is none of these.
pub proof fn law_commas_between_members(a: Seq<char>, b: Seq<char>, c: Seq<char>)
    requires
        is_flat(a),
        is_flat(c),
        is_quotable(b),
    ensures
        scan_of(seq!['{'] + a + seq![','] + c).comma == 1 + a.len(),
        scan_of(seq!['{'] + a + seq!['"'] + b).comma == -1,
        scan_of(seq!['{'] + a + seq!['"'] + b + seq!['\\'] + seq!['"'] + b).comma == -1,
        scan_of(seq!['{'] + a + seq!['"'] + b + seq!['"'] + seq![','] + c).comma == 3 + a.len()
            + b.len(),
        scan_of(seq!['{'] + a + seq!['['] + c + seq![','] + c).comma == -1,
        scan_of(seq!['{'] + a + seq!['{'] + c + seq![','] + c).comma == -1,
        scan_of(seq!['{'] + a + seq!['{'] + c + seq!['}'] + seq![',']).comma == 3 + a.len()
            + c.len(),
        scan_of(seq!['{'] + a + seq!['['] + c + seq![']'] + seq![',']).comma == 3 + a.len()
            + c.len(),
{
    let none = Seq::<char>::empty();
    lemma_next(none, '{');
    let t0 = seq!['{'];
    assert(none.push('{') =~= t0);
    lemma_flat(t0, a);
    let t = t0 + a;
    assert(scan_of(t) == scan_of(t0));
    lemma_next(t, ',');
    assert(t.push(',') =~= t + seq![',']);
    lemma_flat(t + seq![','], c);
    lemma_next(t, '"');
    assert(t.push('"') =~= t + seq!['"']);
    let q = t + seq!['"'];
    lemma_in_quotes(q, b);
    lemma_next(q + b, '\\');
    assert((q + b).push('\\') =~= q + b + seq!['\\']);
    lemma_next(q + b + seq!['\\'], '"');
    assert((q + b + seq!['\\']).push('"') =~= q + b + seq!['\\'] + seq!['"']);
    lemma_in_quotes(q + b + seq!['\\'] + seq!['"'], b);
    lemma_next(q + b, '"');
    assert((q + b).push('"') =~= q + b + seq!['"']);
    lemma_next(q + b + seq!['"'], ',');
    assert((q + b + seq!['"']).push(',') =~= q + b + seq!['"'] + seq![',']);
    lemma_flat(q + b + seq!['"'] + seq![','], c);
    lemma_next(t, '[');
    assert(t.push('[') =~= t + seq!['[']);
    let l = t + seq!['['];
    lemma_flat(l, c);
    lemma_next(l + c, ',');
    assert((l + c).push(',') =~= l + c + seq![',']);
    lemma_flat(l + c + seq![','], c);
    lemma_next(l + c, ']');
    assert((l + c).push(']') =~= l + c + seq![']']);
    lemma_next(l + c + seq![']'], ',');
    assert((l + c + seq![']']).push(',') =~= l + c + seq![']'] + seq![',']);
    lemma_next(t, '{');
    assert(t.push('{') =~= t + seq!['{']);
    let o = t + seq!['{'];
    lemma_flat(o, c);
    lemma_next(o + c, ',');
    assert((o + c).push(',') =~= o + c + seq![',']);
    lemma_flat(o + c + seq![','], c);
    lemma_next(o + c, '}');
    assert((o + c).push('}') =~= o + c + seq!['}']);
    lemma_next(o + c + seq!['}'], ',');
    assert((o + c + seq!['}']).push(',') =~= o + c + seq!['}'] + seq![',']);
}

/// An input closes with the brace that ends its outermost object, and not with one
/// that stands in a text or ends an object within it.
pub proof fn law_input_closes_at_its_brace(a: Seq<char>, b: Seq<char>)
    requires
        is_flat(a),
        is_quotable(b),
    ensures
        closes(seq!['{'] + a + seq!['}'], 0),
        !closes(seq!['{'] + a, 0),
        !closes(seq!['{'] + a + seq!['"'] + b, 0),
        !closes(seq!['{'] + a + seq!['{'] + a + seq!['}'], 0),
{
    let none = Seq::<char>::empty();
    lemma_next(none, '{');
    let t0 = seq!['{'];
    assert(none.push('{') =~= t0);
    lemma_flat(t0, a);
    let t = t0 + a;
    let whole = t + seq!['}'];
    assert(whole.take(t.len() as int) =~= t);
    assert(crate::stream_input::closes_at(whole, t.len() as int));
    lemma_next(t, '"');
    assert(t.push('"') =~= t + seq!['"']);
    lemma_next(t, '{');
    assert(t.push('{') =~= t + seq!['{']);
    let q = t + seq!['"'] + b;
    assert forall|i: int| 0 <= i < t.len() implies !#[trigger] crate::stream_input::closes_at(
        t,
        i,
    ) by {
        if i > 0 {
            assert(t[i] == a[i - 1]);
        }
    }
    assert forall|i: int| 0 <= i < q.len() implies !#[trigger] crate::stream_input::closes_at(
        q,
        i,
    ) by {
        if i == 0 {
        } else if i <= a.len() {
            assert(q[i] == a[i - 1]);
        } else if i == a.len() + 1 {
        } else {
            let part = b.take(i - t.len() - 1);
            lemma_in_quotes(t + seq!['"'], part);
            assert(q.take(i) =~= t + seq!['"'] + part);
        }
    }
    let o = t + seq!['{'] + a + seq!['}'];
    assert forall|i: int| 0 <= i < o.len() implies !#[trigger] crate::stream_input::closes_at(
        o,
        i,
    ) by {
        if i == 0 {
        } else if i <= a.len() {
            assert(o[i] == a[i - 1]);
        } else if i == a.len() + 1 {
        } else if i < o.len() - 1 {
            assert(o[i] == a[i - a.len() - 2]);
        } else {
            lemma_flat(t + seq!['{'], a);
            assert(o.take(i) =~= t + seq!['{'] + a);
        }
    }
}

/// A whole message of the assistant or of the user is shown by its content; a
/// message of the user that is only repeated is not.
pub proof fn law_messages_are_shown(m: MapSpec, frame: JsonSpec, message: JsonSpec,
    content: JsonSpec)
    requires
        frame.get("message"@) == Some(message),
        message.get("content"@) == Some(content),
    ensures
        has_text(frame, "type"@, "assistant"@) ==> m.shown(frame) == m.consolidated(
            content,
            MsgRole::Assistant,
        ),
        has_text(frame, "type"@, "user"@) && frame.get("isReplay"@) != Some(JsonSpec::Bool(true))
            ==> m.shown(frame) == m.consolidated(content, MsgRole::User),
        has_text(frame, "type"@, "user"@) && frame.get("isReplay"@) == Some(JsonSpec::Bool(true))
            ==> m.shown(frame) == (m, Seq::<UpdateSpec>::empty()),
        has_text(frame, "type"@, "stream_event"@) ==> m.shown(frame) == m.stream_event(frame),
{
    lemma_block_words();
}

/// Any other frame shows nothing, and neither does any other notice of the system.
pub proof fn law_other_frames_show_nothing(m: MapSpec, frame: JsonSpec)
    requires
        !has_text(frame, "type"@, "assistant"@),
        !has_text(frame, "type"@, "user"@),
        !has_text(frame, "type"@, "stream_event"@),
        !has_text(frame, "type"@, "system"@) || !has_text(frame, "subtype"@, "commands_changed"@),
    ensures
        m.shown(frame) == (m, Seq::<UpdateSpec>::empty()),
{
    lemma_block_words();
}

/// A message without content shows nothing.
pub proof fn law_message_without_content_shows_nothing(m: MapSpec, frame: JsonSpec)
    requires
        has_text(frame, "type"@, "assistant"@) || has_text(frame, "type"@, "user"@),
        frame.get("message"@) matches Some(message) ==> !(message.get("content"@) matches Some(
            JsonSpec::Str(_),
        )) && !(message.get("content"@) matches Some(JsonSpec::Array(_))),
    ensures
        m.shown(frame) == (m, Seq::<UpdateSpec>::empty()),
{
    lemma_block_words();
}

/// When the commands change, those that can be offered are told, in order, without
/// those that only a terminal can run.
pub proof fn law_commands_are_told(
    m: MapSpec,
    frame: JsonSpec,
    list: Seq<JsonSpec>,
    terminal: Seq<JsonSpec>,
)
    requires
        has_text(frame, "type"@, "system"@),
        has_text(frame, "subtype"@, "commands_changed"@),
        frame.get("commands"@) == Some(JsonSpec::Array(list)),
        frame.get("terminal_commands"@) == Some(JsonSpec::Array(terminal)),
    ensures
        m.shown(frame) == (
            m,
            seq![
                UpdateSpec::AvailableCommandsUpdate(
                    all_offered(list, member_texts(terminal, "name"@)),
                ),
            ],
        ),
{
    lemma_block_words();
}

/// Whether a command cannot be offered to a client, whatever lists it.
pub open spec fn is_kept_back(name: Seq<char>) -> bool {
    ||| name == "clear"@
    ||| name == "cost"@
    ||| name == "keybindings-help"@
    ||| name == "login"@
    ||| name == "logout"@
    ||| name == "output-style:new"@
    ||| name == "release-notes"@
    ||| name == "todos"@
}

/// Whether a name ends in the mark of a command that a server brings.
pub open spec fn is_marked(name: Seq<char>) -> bool {
    exists|head: Seq<char>| #[trigger] (head + " (MCP)"@) == name
}

/// A command is offered under its name, with its description and a hint, behind
/// those listed before it. One that only a terminal can run, or that is kept back,
/// is not offered.
pub proof fn law_command_is_offered(
    list: Seq<JsonSpec>,
    command: JsonSpec,
    terminal: Seq<Seq<char>>,
    name: Seq<char>,
    description: Seq<char>,
    hint: Seq<char>,
)
    requires
        has_text(command, "name"@, name),
        has_text(command, "description"@, description),
        has_text(command, "argumentHint"@, hint) || (command.get("argumentHint"@) is None
            && hint.len() == 0),
        !is_marked(name),
    ensures
        terminal.contains(name) || is_kept_back(name) ==> all_offered(list.push(command), terminal)
            == all_offered(list, terminal),
        !terminal.contains(name) && !is_kept_back(name) ==> all_offered(
            list.push(command),
            terminal,
        ) == all_offered(list, terminal).push(
            CommandSpec {
                name,
                description,
                hint: if hint.len() > 0 {
                    Some(hint)
                } else {
                    None
                },
            },
        ),
        all_offered(Seq::empty(), terminal).len() == 0,
{
    assert(list.push(command).drop_last() =~= list);
    let mark = " (MCP)"@;
    if mark.len() <= name.len() && name.skip(name.len() - mark.len()) == mark {
        let head = name.take(name.len() - mark.len());
        assert(head + mark =~= name);
    }
}

/// A command that a server brings is offered under a name that says so.
pub proof fn law_server_command_is_renamed(
    list: Seq<JsonSpec>,
    command: JsonSpec,
    terminal: Seq<Seq<char>>,
    head: Seq<char>,
    description: Seq<char>,
)
    requires
        has_text(command, "name"@, head + " (MCP)"@),
        has_text(command, "description"@, description),
        command.get("argumentHint"@) is None,
        !terminal.contains(head + " (MCP)"@),
    ensures
        all_offered(list.push(command), terminal) == all_offered(list, terminal).push(
            CommandSpec { name: "mcp:"@ + head, description, hint: None },
        ),
{
    assert(list.push(command).drop_last() =~= list);
    let name = head + " (MCP)"@;
    assert(name.skip(name.len() - " (MCP)"@.len()) =~= " (MCP)"@);
    assert(name.take(name.len() - " (MCP)"@.len()) =~= head);
    let offered = "mcp:"@ + head;
    reveal_strlit("mcp:");
    reveal_strlit("clear");
    reveal_strlit("cost");
    reveal_strlit("keybindings-help");
    reveal_strlit("login");
    reveal_strlit("logout");
    reveal_strlit("output-style:new");
    reveal_strlit("release-notes");
    reveal_strlit("todos");
    assert(offered[0] == 'm');
    assert("clear"@[0] == 'c' && "cost"@[0] == 'c' && "keybindings-help"@[0] == 'k');
    assert("login"@[0] == 'l' && "logout"@[0] == 'l' && "output-style:new"@[0] == 'o');
    assert("release-notes"@[0] == 'r' && "todos"@[0] == 't');
}

/// A hint in parts is shown with spaces between them.
pub proof fn law_hint_in_parts(
    command: JsonSpec,
    parts: Seq<JsonSpec>,
    terminal: Seq<Seq<char>>,
    name: Seq<char>,
)
    requires
        has_text(command, "name"@, name),
        command.get("argumentHint"@) == Some(JsonSpec::Array(parts)),
        !terminal.contains(name),
        !is_kept_back(name),
        !is_marked(name),
    ensures
        ({
            let shown = all_offered(seq![command], terminal);
            let whole = joined(crate::json::strings_in(parts), " "@);
            &&& shown.len() == 1
            &&& shown[0].name == name
            &&& whole.len() > 0 ==> shown[0].hint == Some(whole)
            &&& whole.len() == 0 ==> shown[0].hint is None
        }),
{
    let list = seq![command];
    assert(list.drop_last() =~= Seq::<JsonSpec>::empty());
    assert(list.last() == command);
    assert(all_offered(list.drop_last(), terminal).len() == 0);
    let mark = " (MCP)"@;
    if mark.len() <= name.len() && name.skip(name.len() - mark.len()) == mark {
        let head = name.take(name.len() - mark.len());
        assert(head + mark =~= name);
    }
}

} // verus!

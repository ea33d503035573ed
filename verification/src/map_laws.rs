//! What holds of every course of messages through the mapping.

use vstd::prelude::*;

use crate::acp::UpdateSpec;
use crate::json::JsonSpec;
use crate::map::{is_result, is_task, is_use, or_null, refined, text_update, MapSpec, Mapped, MsgRole};

verus! {

/// A message for the mapping.
pub enum MapInput {
    /// A whole message.
    Whole(JsonSpec, MsgRole),
    /// An event of the stream.
    Event(JsonSpec),
}

/// The mapping of one message.
pub open spec fn map_step(m: MapSpec, input: MapInput) -> Mapped {
    match input {
        MapInput::Whole(content, role) => m.consolidated(content, role),
        MapInput::Event(message) => m.stream_event(message),
    }
}

/// The mapping of a list of messages, one after the other.
pub open spec fn map_run(m: MapSpec, inputs: Seq<MapInput>) -> Mapped
    decreases inputs.len(),
{
    if inputs.len() == 0 {
        (m, Seq::empty())
    } else {
        let (n, u) = map_run(m, inputs.drop_last());
        let (o, v) = map_step(n, inputs.last());
        (o, u + v)
    }
}

/// One if the update shows the tool call as a new one.
pub open spec fn shows(u: UpdateSpec, id: Seq<char>) -> nat {
    match u {
        UpdateSpec::ToolCall(t) => if t.id == id {
            1
        } else {
            0
        },
        _ => 0,
    }
}

/// How many of the updates show the tool call as a new one.
pub open spec fn show_count(us: Seq<UpdateSpec>, id: Seq<char>) -> nat
    decreases us.len(),
{
    if us.len() == 0 {
        0
    } else {
        show_count(us.drop_last(), id) + shows(us.last(), id)
    }
}

/// One if the client knows the tool call.
pub open spec fn known(m: MapSpec, id: Seq<char>) -> nat {
    if m.emitted.contains(id) {
        1
    } else {
        0
    }
}

/// Whether the block is the result of the tool call.
pub open spec fn ends(block: JsonSpec, id: Seq<char>) -> bool {
    is_result(block) && block.str_or_empty("tool_use_id"@) == id
}

/// Whether the message holds the result of the tool call.
pub open spec fn input_ends(input: MapInput, id: Seq<char>) -> bool {
    match input {
        MapInput::Whole(JsonSpec::Array(a), _) => exists|i: int|
            0 <= i < a.len() && ends(#[trigger] a[i], id),
        MapInput::Whole(_, _) => false,
        MapInput::Event(message) => {
            let event = or_null(message.get("event"@));
            ends(or_null(event.get("content_block"@)), id) || ends(
                or_null(event.get("delta"@)),
                id,
            )
        },
    }
}

proof fn lemma_shows_append(a: Seq<UpdateSpec>, b: Seq<UpdateSpec>, id: Seq<char>)
    ensures
        show_count(a + b, id) == show_count(a, id) + show_count(b, id),
    decreases b.len(),
{
    if b.len() == 0 {
        assert(a + b =~= a);
    } else {
        lemma_shows_append(a, b.drop_last(), id);
        assert((a + b).drop_last() =~= a + b.drop_last());
        assert((a + b).last() == b.last());
    }
}

proof fn lemma_shows_one(u: UpdateSpec, id: Seq<char>)
    ensures
        show_count(seq![u], id) == shows(u, id),
{
    assert(seq![u].drop_last() =~= Seq::<UpdateSpec>::empty());
    assert(show_count(seq![u].drop_last(), id) == 0);
}

/// A block that is not the result of the tool call shows it as a new one only if
/// the client did not know it, and then the client knows it.
pub proof fn law_block_shows_once(m: MapSpec, block: JsonSpec, role: MsgRole, id: Seq<char>)
    requires
        !ends(block, id),
    ensures
        known(m.block(block, role).0, id) == known(m, id) + show_count(
            m.block(block, role).1,
            id,
        ),
{
    let u = m.block(block, role).1;
    if u.len() > 0 {
        lemma_shows_one(u[0], id);
        assert(u =~= seq![u[0]]);
    }
}

proof fn lemma_blocks_show_once(m: MapSpec, a: Seq<JsonSpec>, role: MsgRole, id: Seq<char>)
    requires
        forall|i: int| 0 <= i < a.len() ==> !ends(#[trigger] a[i], id),
    ensures
        known(m.blocks(a, role).0, id) == known(m, id) + show_count(m.blocks(a, role).1, id),
    decreases a.len(),
{
    if a.len() > 0 {
        let rest = a.drop_last();
        assert forall|i: int| 0 <= i < rest.len() implies !ends(#[trigger] rest[i], id) by {
            assert(rest[i] == a[i]);
        }
        lemma_blocks_show_once(m, rest, role, id);
        let (n, u) = m.blocks(rest, role);
        assert(a.last() == a[a.len() - 1]);
        law_block_shows_once(n, a.last(), role, id);
        lemma_shows_append(u, n.block(a.last(), role).1, id);
    }
}

proof fn lemma_step_shows_once(m: MapSpec, input: MapInput, id: Seq<char>)
    requires
        !input_ends(input, id),
    ensures
        known(map_step(m, input).0, id) == known(m, id) + show_count(map_step(m, input).1, id),
{
    match input {
        MapInput::Whole(content, role) => match content {
            JsonSpec::Str(s) => {
                if s.len() > 0 {
                    lemma_shows_one(text_update(s, role), id);
                }
            },
            JsonSpec::Array(a) => {
                lemma_blocks_show_once(m, a, role, id);
            },
            _ => {},
        },
        MapInput::Event(message) => {
            let event = or_null(message.get("event"@));
            let lane = message.str_or_empty("parent_tool_use_id"@);
            let block = or_null(event.get("content_block"@));
            let delta = or_null(event.get("delta"@));
            let t = event.get_str("type"@);
            if t == Some("content_block_start"@) {
                let started = MapSpec {
                    streams: m.block_start(lane, event).0.streams,
                    ..m
                };
                law_block_shows_once(started, block, MsgRole::Assistant, id);
                assert(m.block_start(lane, event) == started.block(block, MsgRole::Assistant));
            } else if t == Some("content_block_delta"@) {
                if delta.get_str("type"@) == Some("input_json_delta"@) {
                    let slot = (lane, crate::map::index_of_event(event));
                    let u = m.input_delta(slot, delta).1;
                    if u.len() > 0 {
                        lemma_shows_one(u[0], id);
                        assert(u =~= seq![u[0]]);
                    }
                } else {
                    law_block_shows_once(m, delta, MsgRole::Assistant, id);
                }
            }
        },
    }
}

/// However a tool call reaches the mapping, streamed, in whole messages or both,
/// it is shown as a new one at most once before its result comes, and not at all
/// if the client knows it already. After that it is only refined.
pub proof fn law_tool_call_shown_once(m: MapSpec, inputs: Seq<MapInput>, id: Seq<char>)
    requires
        forall|i: int| 0 <= i < inputs.len() ==> !input_ends(#[trigger] inputs[i], id),
    ensures
        known(map_run(m, inputs).0, id) == known(m, id) + show_count(map_run(m, inputs).1, id),
        show_count(map_run(m, inputs).1, id) <= 1,
    decreases inputs.len(),
{
    if inputs.len() > 0 {
        let rest = inputs.drop_last();
        assert forall|i: int| 0 <= i < rest.len() implies !input_ends(#[trigger] rest[i], id) by {
            assert(rest[i] == inputs[i]);
        }
        law_tool_call_shown_once(m, rest, id);
        let (n, u) = map_run(m, rest);
        assert(inputs.last() == inputs[inputs.len() - 1]);
        lemma_step_shows_once(n, inputs.last(), id);
        lemma_shows_append(u, map_step(n, inputs.last()).1, id);
    }
}

/// A tool call that was streamed and comes again in a whole message is refined
/// there, not shown again.
pub proof fn law_streamed_then_whole_is_refined(
    m: MapSpec,
    lane: Seq<char>,
    event: JsonSpec,
    block: JsonSpec,
    role: MsgRole,
)
    requires
        event.get("content_block"@) is Some,
        is_use(event.get("content_block"@)->0),
        is_use(block),
        block.str_or_empty("id"@) == event.get("content_block"@)->0.str_or_empty("id"@),
        !is_task(event.get("content_block"@)->0.str_or_empty("name"@)),
        event.get("content_block"@)->0.str_or_empty("name"@) != "TodoWrite"@,
        !is_task(block.str_or_empty("name"@)),
        block.str_or_empty("name"@) != "TodoWrite"@,
    ensures
        ({
            let n = m.block_start(lane, event).0;
            n.block(block, role).1 == seq![
                refined(
                    block.str_or_empty("id"@),
                    crate::map::use_name(block),
                    block.get("input"@),
                ),
            ]
        }),
{
}

/// The fragments of a streamed input never show a tool call as a new one.
pub proof fn law_fragments_only_refine(m: MapSpec, slot: (Seq<char>, u64), delta: JsonSpec, i: int)
    requires
        0 <= i < m.input_delta(slot, delta).1.len(),
    ensures
        m.input_delta(slot, delta).1[i] is ToolCallUpdate,
{
}

} // verus!

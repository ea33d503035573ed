//! What holds of the prompts that are handed to the child.

use vstd::prelude::*;

use crate::agent::{content_of, context_of, given, last_segment, link, local_only, request_action, user_frame, AgentActionSpec, AgentContext};
use crate::json::{empty_object, has_text, law_empty_has_no_members, law_member_of_with, reads_text, JsonSpec};
use crate::strs::{first_word, has_prefix, is_white, trimmed_start, word_len};

verus! {

broadcast use {law_member_of_with, law_empty_has_no_members};

/// Whether a resource is written out in a block of a prompt.
pub open spec fn brings_context(chunk: JsonSpec) -> bool {
    &&& has_text(chunk, "type"@, "resource"@)
    &&& chunk.get("resource"@) matches Some(r) && r.get("text"@) matches Some(JsonSpec::Str(_))
}

/// Whether a block of a prompt is an image that can be handed on: it holds its
/// data, or says where on the web it is.
pub open spec fn brings_image(chunk: JsonSpec) -> bool {
    &&& has_text(chunk, "type"@, "image"@)
    &&& {
        ||| chunk.get("data"@) matches Some(JsonSpec::Str(_))
        ||| chunk.get("uri"@) matches Some(JsonSpec::Str(u)) && has_prefix(u, "http"@)
    }
}

/// Whether a block of a prompt brings a block of its own.
pub open spec fn brings_block(chunk: JsonSpec) -> bool {
    ||| has_text(chunk, "type"@, "text"@)
    ||| has_text(chunk, "type"@, "resource_link"@)
    ||| brings_context(chunk)
    ||| brings_image(chunk)
}

/// How many of the first `n` blocks of a prompt bring a block.
pub open spec fn blocks_before(prompt: Seq<JsonSpec>, n: int) -> int
    decreases n,
{
    if n <= 0 {
        0
    } else {
        blocks_before(prompt, n - 1) + if brings_block(prompt[n - 1]) {
            1int
        } else {
            0int
        }
    }
}

/// How many of the first `n` blocks of a prompt bring a context.
pub open spec fn contexts_before(prompt: Seq<JsonSpec>, n: int) -> int
    decreases n,
{
    if n <= 0 {
        0
    } else {
        contexts_before(prompt, n - 1) + if brings_context(prompt[n - 1]) {
            1int
        } else {
            0int
        }
    }
}

/// The blocks of the message that a prompt becomes.
pub open spec fn message_blocks(params: JsonSpec, session_id: Seq<char>, uuid: Seq<char>) -> Seq<
    JsonSpec,
> {
    match user_frame(params, session_id, uuid).get("message"@) {
        Some(message) => match message.get("content"@) {
            Some(JsonSpec::Array(a)) => a,
            _ => Seq::empty(),
        },
        None => Seq::empty(),
    }
}

/// Tells the words apart, by their lengths and letters.
proof fn lemma_prompt_words()
    ensures
        "base64"@.len() == 6 && "base64"@[0] == 'b',
        "content"@.len() == 7 && "content"@[0] == 'c',
        "data"@.len() == 4 && "data"@[1] == 'a',
        "human"@.len() == 5 && "human"@[0] == 'h',
        "image"@.len() == 5 && "image"@[0] == 'i',
        "kind"@.len() == 4 && "kind"@[1] == 'i',
        "media_type"@.len() == 10 && "media_type"@[0] == 'm',
        "message"@.len() == 7 && "message"@[0] == 'm',
        "mimeType"@.len() == 8 && "mimeType"@[0] == 'm',
        "origin"@.len() == 6 && "origin"@[0] == 'o',
        "parent_tool_use_id"@.len() == 18,
        "prompt"@.len() == 6 && "prompt"@[0] == 'p',
        "resource"@.len() == 8 && "resource"@[0] == 'r',
        "resource_link"@.len() == 13,
        "role"@.len() == 4 && "role"@[1] == 'o',
        "session_id"@.len() == 10 && "session_id"@[0] == 's',
        "source"@.len() == 6 && "source"@[0] == 's',
        "text"@.len() == 4 && "text"@[1] == 'e',
        "type"@.len() == 4 && "type"@[1] == 'y',
        "uri"@.len() == 3 && "uri"@[2] == 'i',
        "url"@.len() == 3 && "url"@[2] == 'l',
        "user"@.len() == 4 && "user"@[1] == 's',
        "uuid"@.len() == 4 && "uuid"@[1] == 'u',
{
    reveal_strlit("base64");
    reveal_strlit("content");
    reveal_strlit("data");
    reveal_strlit("human");
    reveal_strlit("image");
    reveal_strlit("kind");
    reveal_strlit("media_type");
    reveal_strlit("message");
    reveal_strlit("mimeType");
    reveal_strlit("origin");
    reveal_strlit("parent_tool_use_id");
    reveal_strlit("prompt");
    reveal_strlit("resource");
    reveal_strlit("resource_link");
    reveal_strlit("role");
    reveal_strlit("session_id");
    reveal_strlit("source");
    reveal_strlit("text");
    reveal_strlit("type");
    reveal_strlit("uri");
    reveal_strlit("url");
    reveal_strlit("user");
    reveal_strlit("uuid");
}

proof fn lemma_given(chunk: JsonSpec)
    ensures
        given(chunk).content is Some <==> brings_block(chunk),
        given(chunk).context is Some <==> brings_context(chunk),
{
    lemma_prompt_words();
}

proof fn lemma_content(prompt: Seq<JsonSpec>, n: int)
    requires
        0 <= n <= prompt.len(),
    ensures
        content_of(prompt.take(n)).len() == blocks_before(prompt, n),
        context_of(prompt.take(n)).len() == contexts_before(prompt, n),
        blocks_before(prompt, n) >= 0,
        contexts_before(prompt, n) >= 0,
    decreases n,
{
    if n > 0 {
        lemma_content(prompt, n - 1);
        lemma_given(prompt[n - 1]);
        assert(prompt.take(n).drop_last() =~= prompt.take(n - 1));
        assert(prompt.take(n).last() == prompt[n - 1]);
    }
}

proof fn lemma_content_at(prompt: Seq<JsonSpec>, n: int, i: int)
    requires
        0 <= i < n <= prompt.len(),
    ensures
        brings_block(prompt[i]) ==> 0 <= blocks_before(prompt, i) < content_of(prompt.take(n)).len()
            && content_of(prompt.take(n))[blocks_before(prompt, i)] == given(prompt[i]).content->0,
        brings_context(prompt[i]) ==> 0 <= contexts_before(prompt, i) < context_of(
            prompt.take(n),
        ).len() && context_of(prompt.take(n))[contexts_before(prompt, i)] == given(
            prompt[i],
        ).context->0,
    decreases n,
{
    lemma_content(prompt, n - 1);
    lemma_given(prompt[n - 1]);
    assert(prompt.take(n).drop_last() =~= prompt.take(n - 1));
    assert(prompt.take(n).last() == prompt[n - 1]);
    if i < n - 1 {
        lemma_content_at(prompt, n - 1, i);
    }
}

/// A prompt becomes one frame of the user, addressed to the session and known by
/// its id, that says a person sent it and that it belongs to no tool call.
pub proof fn law_prompt_is_a_user_frame(params: JsonSpec, session_id: Seq<char>, uuid: Seq<char>)
    ensures
        ({
            let frame = user_frame(params, session_id, uuid);
            &&& has_text(frame, "type"@, "user"@)
            &&& has_text(frame, "session_id"@, session_id)
            &&& has_text(frame, "uuid"@, uuid)
            &&& frame.get("parent_tool_use_id"@) == Some(JsonSpec::Null)
            &&& frame.get("origin"@) is Some && has_text(
                frame.get("origin"@)->0,
                "kind"@,
                "human"@,
            )
            &&& frame.get("message"@) is Some && has_text(
                frame.get("message"@)->0,
                "role"@,
                "user"@,
            )
            &&& frame.get("message"@)->0.get("content"@) == Some(
                JsonSpec::Array(message_blocks(params, session_id, uuid)),
            )
        }),
{
    lemma_prompt_words();
}

/// No block of a prompt that can be handed on is lost or doubled: the message
/// holds one block for each, and one more for each resource that is written out.
/// A request without a prompt gives an empty message.
pub proof fn law_prompt_is_handed_on_whole(params: JsonSpec, session_id: Seq<char>, uuid: Seq<char>)
    ensures
        params.get("prompt"@) matches Some(JsonSpec::Array(prompt)) ==> message_blocks(
            params,
            session_id,
            uuid,
        ).len() == blocks_before(prompt, prompt.len() as int) + contexts_before(
            prompt,
            prompt.len() as int,
        ),
        !(params.get("prompt"@) matches Some(JsonSpec::Array(_))) ==> message_blocks(
            params,
            session_id,
            uuid,
        ).len() == 0,
{
    lemma_prompt_words();
    if let Some(JsonSpec::Array(prompt)) = params.get("prompt"@) {
        lemma_content(prompt, prompt.len() as int);
        assert(prompt.take(prompt.len() as int) =~= prompt);
    }
}

proof fn lemma_block_at(
    params: JsonSpec,
    prompt: Seq<JsonSpec>,
    i: int,
    session_id: Seq<char>,
    uuid: Seq<char>,
)
    requires
        params.get("prompt"@) == Some(JsonSpec::Array(prompt)),
        0 <= i < prompt.len(),
    ensures
        ({
            let blocks = message_blocks(params, session_id, uuid);
            let all = blocks_before(prompt, prompt.len() as int);
            &&& brings_block(prompt[i]) ==> 0 <= blocks_before(prompt, i) < all <= blocks.len()
                && blocks[blocks_before(prompt, i)] == given(prompt[i]).content->0
            &&& brings_context(prompt[i]) ==> 0 <= contexts_before(prompt, i) && all
                + contexts_before(prompt, i) < blocks.len() && blocks[all + contexts_before(
                prompt,
                i,
            )] == given(prompt[i]).context->0
        }),
{
    lemma_prompt_words();
    lemma_content(prompt, prompt.len() as int);
    lemma_content_at(prompt, prompt.len() as int, i);
    assert(prompt.take(prompt.len() as int) =~= prompt);
    assert(message_blocks(params, session_id, uuid) == content_of(prompt) + context_of(prompt));
}

/// A text of a prompt is handed on as a text block with the same text, behind the
/// blocks of what stood before it in the prompt.
pub proof fn law_text_is_handed_on(
    params: JsonSpec,
    prompt: Seq<JsonSpec>,
    i: int,
    text: Seq<char>,
    session_id: Seq<char>,
    uuid: Seq<char>,
)
    requires
        params.get("prompt"@) == Some(JsonSpec::Array(prompt)),
        0 <= i < prompt.len(),
        has_text(prompt[i], "type"@, "text"@),
        reads_text(prompt[i], "text"@, text),
    ensures
        ({
            let blocks = message_blocks(params, session_id, uuid);
            let k = blocks_before(prompt, i);
            &&& 0 <= k < blocks.len()
            &&& has_text(blocks[k], "type"@, "text"@)
            &&& has_text(blocks[k], "text"@, text)
        }),
{
    lemma_prompt_words();
    lemma_block_at(params, prompt, i, session_id, uuid);
}

/// An image of a prompt that holds its data is handed on as one image block whose
/// source holds the same data and names the same media type.
pub proof fn law_image_is_handed_on(
    params: JsonSpec,
    prompt: Seq<JsonSpec>,
    i: int,
    data: Seq<char>,
    mime: Seq<char>,
    session_id: Seq<char>,
    uuid: Seq<char>,
)
    requires
        params.get("prompt"@) == Some(JsonSpec::Array(prompt)),
        0 <= i < prompt.len(),
        has_text(prompt[i], "type"@, "image"@),
        has_text(prompt[i], "data"@, data),
        reads_text(prompt[i], "mimeType"@, mime),
    ensures
        ({
            let blocks = message_blocks(params, session_id, uuid);
            let k = blocks_before(prompt, i);
            &&& 0 <= k < blocks.len()
            &&& has_text(blocks[k], "type"@, "image"@)
            &&& blocks[k].get("source"@) matches Some(source) && {
                &&& has_text(source, "type"@, "base64"@)
                &&& has_text(source, "data"@, data)
                &&& has_text(source, "media_type"@, mime)
            }
        }),
{
    lemma_prompt_words();
    lemma_block_at(params, prompt, i, session_id, uuid);
}

/// An image block that says `{"type":"image","data":..,"mimeType":..}` and nothing
/// else, alone in a prompt, becomes a message of one image block with that data
/// and that media type.
pub proof fn law_image_alone(
    params: JsonSpec,
    data: Seq<char>,
    mime: Seq<char>,
    session_id: Seq<char>,
    uuid: Seq<char>,
)
    requires
        params.get("prompt"@) == Some(
            JsonSpec::Array(
                seq![
                    empty_object().with("type"@, JsonSpec::Str("image"@)).with(
                        "data"@,
                        JsonSpec::Str(data),
                    ).with("mimeType"@, JsonSpec::Str(mime)),
                ],
            ),
        ),
    ensures
        message_blocks(params, session_id, uuid) == seq![
            empty_object().with("type"@, JsonSpec::Str("image"@)).with(
                "source"@,
                empty_object().with("type"@, JsonSpec::Str("base64"@)).with(
                    "data"@,
                    JsonSpec::Str(data),
                ).with("media_type"@, JsonSpec::Str(mime)),
            ),
        ],
{
    lemma_prompt_words();
    let chunk = empty_object().with("type"@, JsonSpec::Str("image"@)).with(
        "data"@,
        JsonSpec::Str(data),
    ).with("mimeType"@, JsonSpec::Str(mime));
    let prompt = seq![chunk];
    assert(has_text(prompt[0], "type"@, "image"@));
    lemma_block_at(params, prompt, 0, session_id, uuid);
    law_prompt_is_handed_on_whole(params, session_id, uuid);
    assert(contexts_before(prompt, 1) == contexts_before(prompt, 0));
    assert(blocks_before(prompt, 1) == 1 + blocks_before(prompt, 0));
}

/// An image of a prompt that only says where on the web it is, is handed on by
/// that address.
pub proof fn law_linked_image_is_handed_on(
    params: JsonSpec,
    prompt: Seq<JsonSpec>,
    i: int,
    uri: Seq<char>,
    session_id: Seq<char>,
    uuid: Seq<char>,
)
    requires
        params.get("prompt"@) == Some(JsonSpec::Array(prompt)),
        0 <= i < prompt.len(),
        has_text(prompt[i], "type"@, "image"@),
        !(prompt[i].get("data"@) matches Some(JsonSpec::Str(_))),
        has_text(prompt[i], "uri"@, uri),
        has_prefix(uri, "http"@),
    ensures
        ({
            let blocks = message_blocks(params, session_id, uuid);
            let k = blocks_before(prompt, i);
            &&& 0 <= k < blocks.len()
            &&& has_text(blocks[k], "type"@, "image"@)
            &&& blocks[k].get("source"@) matches Some(source) && {
                &&& has_text(source, "type"@, "url"@)
                &&& has_text(source, "url"@, uri)
            }
        }),
{
    lemma_prompt_words();
    lemma_block_at(params, prompt, i, session_id, uuid);
}

/// A linked resource of a prompt is handed on as a text that links to it.
pub proof fn law_link_is_handed_on(
    params: JsonSpec,
    prompt: Seq<JsonSpec>,
    i: int,
    uri: Seq<char>,
    session_id: Seq<char>,
    uuid: Seq<char>,
)
    requires
        params.get("prompt"@) == Some(JsonSpec::Array(prompt)),
        0 <= i < prompt.len(),
        has_text(prompt[i], "type"@, "resource_link"@),
        reads_text(prompt[i], "uri"@, uri),
    ensures
        ({
            let blocks = message_blocks(params, session_id, uuid);
            let k = blocks_before(prompt, i);
            &&& 0 <= k < blocks.len()
            &&& has_text(blocks[k], "type"@, "text"@)
            &&& has_text(blocks[k], "text"@, link(uri))
        }),
{
    lemma_prompt_words();
    lemma_block_at(params, prompt, i, session_id, uuid);
}

/// A resource that is written out in a prompt is handed on twice: a text that
/// links to it, in its place, and behind all such blocks its text, set between
/// the marks of a context that names it.
pub proof fn law_resource_is_handed_on(
    params: JsonSpec,
    prompt: Seq<JsonSpec>,
    i: int,
    resource: JsonSpec,
    uri: Seq<char>,
    text: Seq<char>,
    session_id: Seq<char>,
    uuid: Seq<char>,
)
    requires
        params.get("prompt"@) == Some(JsonSpec::Array(prompt)),
        0 <= i < prompt.len(),
        has_text(prompt[i], "type"@, "resource"@),
        prompt[i].get("resource"@) == Some(resource),
        reads_text(resource, "uri"@, uri),
        has_text(resource, "text"@, text),
    ensures
        ({
            let blocks = message_blocks(params, session_id, uuid);
            let k = blocks_before(prompt, i);
            let c = blocks_before(prompt, prompt.len() as int) + contexts_before(prompt, i);
            &&& 0 <= k < c < blocks.len()
            &&& has_text(blocks[k], "type"@, "text"@)
            &&& has_text(blocks[k], "text"@, link(uri))
            &&& has_text(blocks[c], "type"@, "text"@)
            &&& has_text(
                blocks[c],
                "text"@,
                "\n<context ref=\""@ + uri + "\">\n"@ + text + "\n</context>"@,
            )
        }),
{
    lemma_prompt_words();
    assert(brings_context(prompt[i]));
    lemma_block_at(params, prompt, i, session_id, uuid);
}

/// Whether no character of a text is a slash.
pub open spec fn no_slash(s: Seq<char>) -> bool {
    forall|i: int| 0 <= i < s.len() ==> s[i] != '/'
}

proof fn lemma_last_segment(s: Seq<char>)
    requires
        no_slash(s),
    ensures
        last_segment(s) == s,
    decreases s.len(),
{
    if s.len() > 0 {
        lemma_last_segment(s.drop_last());
        assert(s.drop_last().push(s.last()) =~= s);
    }
}

proof fn lemma_segment_behind(path: Seq<char>, name: Seq<char>)
    requires
        no_slash(name),
    ensures
        last_segment(path.push('/') + name) == name,
    decreases name.len(),
{
    let s = path.push('/') + name;
    if name.len() == 0 {
        assert(s.last() == '/');
        assert(name =~= Seq::<char>::empty());
    } else {
        lemma_segment_behind(path, name.drop_last());
        assert(s.drop_last() =~= path.push('/') + name.drop_last());
        assert(s.last() == name.last());
        assert(name.drop_last().push(name.last()) =~= name);
    }
}

/// A link shows the name behind the last slash of an address, and the whole
/// address where no name stands there; it leads to the whole address.
pub proof fn law_link_shows_the_name(path: Seq<char>, name: Seq<char>)
    requires
        no_slash(name),
    ensures
        name.len() > 0 ==> link(path.push('/') + name) == "["@ + name + "]("@ + (path.push('/')
            + name) + ")"@,
        link(path.push('/')) == "["@ + path.push('/') + "]("@ + path.push('/') + ")"@,
        link(name) == "["@ + name + "]("@ + name + ")"@,
{
    lemma_segment_behind(path, name);
    lemma_segment_behind(path, Seq::empty());
    lemma_last_segment(name);
    assert(path.push('/') + Seq::<char>::empty() =~= path.push('/'));
}

proof fn lemma_word(word: Seq<char>, rest: Seq<char>)
    requires
        forall|i: int| 0 <= i < word.len() ==> !is_white(#[trigger] word[i]),
        rest.len() > 0 ==> is_white(rest[0]),
    ensures
        word_len(word + rest) == word.len(),
    decreases word.len(),
{
    if word.len() > 0 {
        assert((word + rest)[0] == word[0]);
        let w = word.drop_first();
        assert forall|i: int| 0 <= i < w.len() implies !is_white(#[trigger] w[i]) by {
            assert(w[i] == word[i + 1]);
        }
        lemma_word(w, rest);
        assert((word + rest).drop_first() =~= w + rest);
    } else {
        assert(word + rest =~= rest);
    }
}

/// A prompt is answered without the model exactly when its first word is one of
/// the three commands for that; what follows the word does not matter.
pub proof fn law_local_commands(word: Seq<char>, rest: Seq<char>)
    requires
        word.len() > 0,
        forall|i: int| 0 <= i < word.len() ==> !is_white(#[trigger] word[i]),
        rest.len() > 0 ==> is_white(rest[0]),
    ensures
        local_only(word + rest) <==> (word == "/context"@ || word == "/heapdump"@ || word
            == "/extra-usage"@),
{
    reveal_strlit("/");
    reveal_strlit("/context");
    reveal_strlit("/heapdump");
    reveal_strlit("/extra-usage");
    let s = word + rest;
    assert(s[0] == word[0]);
    lemma_word(word, rest);
    assert(!is_white(word[0]));
    assert(trimmed_start(s) =~= s);
    assert(s.take(word.len() as int) =~= word);
    assert(first_word(s) == word);
    if has_prefix(s, "/"@) {
        assert(s.take(1)[0] == s[0]);
    } else {
        if word[0] == '/' {
            assert(s.take(1) =~= "/"@);
        }
    }
}

/// A prompt for a session that is there is given to that session, as the frame
/// that its blocks become, under the new id. Whether it is answered without the
/// model is told by the text of its first block.
pub proof fn law_prompt_goes_to_its_session(
    sessions: Set<Seq<char>>,
    running: Set<Seq<char>>,
    params: JsonSpec,
    cx: AgentContext,
    uuid: Seq<char>,
    session_id: Seq<char>,
)
    requires
        has_text(params, "sessionId"@, session_id),
        sessions.contains(session_id),
    ensures
        request_action(sessions, running, "session/prompt"@, params, cx, uuid) matches
            AgentActionSpec::Prompt { session_id: to, uuid: id, frame, is_local_only } && {
            &&& to == session_id
            &&& id == uuid
            &&& frame == user_frame(params, session_id, uuid)
            &&& forall|prompt: Seq<JsonSpec>, text: Seq<char>|
                params.get("prompt"@) == Some(JsonSpec::Array(prompt)) && prompt.len() > 0
                    && #[trigger] has_text(prompt[0], "text"@, text) ==> is_local_only
                    == local_only(text)
            &&& is_local_only ==> (params.get("prompt"@) matches Some(JsonSpec::Array(prompt))
                && prompt.len() > 0 && (prompt[0].get("text"@) matches Some(JsonSpec::Str(_))))
        },
{
    lemma_method_words();
    reveal_strlit("/");
    assert(!local_only(Seq::empty()));
}

/// A steering message reaches a running turn as the frame that the same
/// parameters would become as a prompt.
pub proof fn law_steering_is_handed_on_as_a_prompt(
    sessions: Set<Seq<char>>,
    running: Set<Seq<char>>,
    params: JsonSpec,
    cx: AgentContext,
    uuid: Seq<char>,
    session_id: Seq<char>,
)
    requires
        has_text(params, "sessionId"@, session_id),
        sessions.contains(session_id),
        running.contains(session_id),
        params.get("_meta"@) is None,
    ensures
        ({
            let steered = request_action(sessions, running, "_session/steering"@, params, cx, uuid);
            let prompted = request_action(sessions, running, "session/prompt"@, params, cx, uuid);
            &&& steered is Inject
            &&& prompted is Prompt
            &&& steered->Inject_session_id == session_id
            &&& steered->Inject_frame == prompted->Prompt_frame
            &&& has_text(steered->Inject_response, "outcome"@, "injected"@)
        }),
{
    lemma_method_words();
}

/// A steering message for a session without a running turn never reaches it: a
/// client that asked to be told is told to prompt, any other is refused. One that
/// asks for anything else is refused whether or not a turn runs.
pub proof fn law_steering_needs_a_running_turn(
    sessions: Set<Seq<char>>,
    running: Set<Seq<char>>,
    params: JsonSpec,
    cx: AgentContext,
    uuid: Seq<char>,
    session_id: Seq<char>,
    steering: JsonSpec,
)
    requires
        has_text(params, "sessionId"@, session_id),
        sessions.contains(session_id),
        params.get("_meta"@) matches Some(meta) && meta.get("steering"@) == Some(steering),
    ensures
        ({
            let action = request_action(sessions, running, "_session/steering"@, params, cx, uuid);
            let asked = steering.get("idleBehavior"@);
            &&& asked is Some && asked->0 != JsonSpec::Str("promptRequired"@) ==> action is Reject
                && action->Reject_0.code == -32602 && action->Reject_0.data == Some(
                JsonSpec::Str("unknown idleBehavior"@),
            )
            &&& asked is None || asked->0 == JsonSpec::Str("promptRequired"@) ==> {
                &&& action is Inject <==> running.contains(session_id)
                &&& !running.contains(session_id) && asked is Some ==> action is Respond
                    && has_text(action->Respond_0, "outcome"@, "promptRequired"@) && has_text(
                    action->Respond_0,
                    "reason"@,
                    "noRunningTurn"@,
                )
                &&& !running.contains(session_id) && asked is None ==> action is Reject
                    && action->Reject_0.code == -32601
            }
        }),
{
    lemma_method_words();
}

/// Tells the words apart, by their lengths and letters.
proof fn lemma_method_words()
    ensures
        "_session/steering"@.len() == 17,
        "initialize"@.len() == 10,
        "outcome"@.len() == 7,
        "reason"@.len() == 6,
        "session/load"@.len() == 12,
        "session/new"@.len() == 11,
        "session/prompt"@.len() == 14,
{
    reveal_strlit("_session/steering");
    reveal_strlit("initialize");
    reveal_strlit("outcome");
    reveal_strlit("reason");
    reveal_strlit("session/load");
    reveal_strlit("session/new");
    reveal_strlit("session/prompt");
}

} // verus!

//! What holds of the answers that a client gets.

use vstd::prelude::*;

use crate::agent::{initialize_answer, invalid_params, method_not_found, prompt_answer, rpc_parts, session_answer, AGENT_VERSION};
use crate::json::{empty_object, has_text, law_empty_has_no_members, law_member_of_with, uint, JsonSpec};
use crate::session::{PromptReply, SessionError};
use crate::turn::{FailureKind, StopReason};

verus! {

broadcast use {law_member_of_with, law_empty_has_no_members};

/// How each reason is spelled for the client.
pub proof fn law_stop_reasons_are_spelled()
    ensures
        StopReason::EndTurn.spelled() == "end_turn"@,
        StopReason::MaxTokens.spelled() == "max_tokens"@,
        StopReason::Refusal.spelled() == "refusal"@,
        StopReason::MaxTurnRequests.spelled() == "max_turn_requests"@,
        StopReason::Cancelled.spelled() == "cancelled"@,
{
}

/// No two reasons are spelled alike.
pub proof fn law_stop_reasons_differ(a: StopReason, b: StopReason)
    ensures
        a.spelled() == b.spelled() ==> a == b,
{
    lemma_answer_words();
}

/// The answer to a prompt gives the reason for which its turn ended, whichever it
/// is; a word that is none of the reasons is told as the normal end.
pub proof fn law_answer_gives_the_reason(reply: PromptReply, reason: StopReason)
    ensures
        reply.stop_reason@ == reason.spelled() ==> has_text(
            prompt_answer(reply),
            "stopReason"@,
            reason.spelled(),
        ),
        (forall|r: StopReason| reply.stop_reason@ != #[trigger] r.spelled()) ==> has_text(
            prompt_answer(reply),
            "stopReason"@,
            "end_turn"@,
        ),
{
    lemma_answer_words();
    assert(StopReason::EndTurn.spelled() == "end_turn"@);
    assert(StopReason::MaxTokens.spelled() == "max_tokens"@);
    assert(StopReason::Refusal.spelled() == "refusal"@);
    assert(StopReason::MaxTurnRequests.spelled() == "max_turn_requests"@);
    assert(StopReason::Cancelled.spelled() == "cancelled"@);
}

/// The answer to a prompt gives each count of tokens under its own name, and no
/// counts where none are known.
pub proof fn law_answer_gives_the_usage(reply: PromptReply)
    ensures
        reply.usage is None ==> prompt_answer(reply).get("usage"@) is None,
        reply.usage matches Some(u) ==> (prompt_answer(reply).get("usage"@) matches Some(told) && {
            &&& told.get("inputTokens"@) == Some(uint(u.input_tokens))
            &&& told.get("outputTokens"@) == Some(uint(u.output_tokens))
            &&& told.get("cachedReadTokens"@) == Some(uint(u.cached_read_tokens))
            &&& told.get("cachedWriteTokens"@) == Some(uint(u.cached_write_tokens))
            &&& told.get("totalTokens"@) == Some(uint(u.total_tokens))
        }),
{
    lemma_answer_words();
}

/// A turn that failed is refused with its message; a client tells by the data
/// which failure it was. That the user has to log in is told in the message.
pub proof fn law_failure_is_told(kind: FailureKind, message: String)
    ensures
        ({
            let (told, data) = rpc_parts(SessionError::PromptFailed { kind, message });
            &&& kind is AuthRequired ==> told == "Internal error: "@ + ("authRequired: "@
                + message@) && data is None
            &&& !(kind is AuthRequired) ==> told == "Internal error: "@ + message@
            &&& kind is ProviderError ==> data is Some && has_text(
                data->0,
                "errorKind"@,
                "provider_error"@,
            )
            &&& kind is BudgetExhausted ==> data is Some && has_text(
                data->0,
                "errorKind"@,
                "budget_exhausted"@,
            )
            &&& kind is ContextExhausted ==> data is Some && has_text(
                data->0,
                "errorKind"@,
                "context_exhausted"@,
            )
            &&& kind is NoResult ==> data is Some && has_text(data->0, "errorKind"@, "no_result"@)
            &&& kind is SessionEnded ==> data is None
        }),
{
    lemma_answer_words();
}

/// A session that could not be started is refused with the cause, as it is.
pub proof fn law_failed_start_is_told(message: String)
    ensures
        rpc_parts(SessionError::Start(message)) == (
            "Internal error: "@ + message@,
            None::<JsonSpec>,
        ),
{
}

/// What a session's error says.
pub proof fn law_session_errors_are_worded(kind: FailureKind, message: String)
    ensures
        (SessionError::PromptFailed { kind, message }).words() == message@,
        SessionError::Closed.words() == "session closed"@,
        SessionError::Start(message).words() == message@,
{
}

/// The refusals carry the codes that JSON-RPC reserves for them, and say in their
/// data what was wrong.
pub proof fn law_refusals_have_their_codes(what: Seq<char>)
    ensures
        method_not_found(what).code == -32601,
        method_not_found(what).message == "Method not found"@,
        method_not_found(what).data == Some(
            JsonSpec::Str("method "@ + what + " not found"@),
        ),
        invalid_params(what).code == -32602,
        invalid_params(what).message == "Invalid params"@,
        invalid_params(what).data == Some(JsonSpec::Str(what)),
{
}

/// The modes that a session is answered with.
pub open spec fn told_modes(session_id: Seq<char>) -> Seq<JsonSpec> {
    match session_answer(session_id).get("modes"@) {
        Some(m) => match m.get("availableModes"@) {
            Some(JsonSpec::Array(a)) => a,
            _ => Seq::empty(),
        },
        None => Seq::empty(),
    }
}

/// A session is answered with its id. It starts in a mode that is among those it
/// offers, and it offers the five permission modes once each.
pub proof fn law_session_is_told(session_id: Seq<char>)
    ensures
        has_text(session_answer(session_id), "sessionId"@, session_id),
        session_answer(session_id).get("configOptions"@) == Some(JsonSpec::Array(Seq::empty())),
        session_answer(session_id).get("modes"@) is Some && has_text(
            session_answer(session_id).get("modes"@)->0,
            "currentModeId"@,
            "default"@,
        ),
        ({
            let modes = told_modes(session_id);
            &&& modes.len() == 5
            &&& has_text(modes[0], "id"@, "default"@)
            &&& has_text(modes[0], "name"@, "Manual"@)
            &&& has_text(modes[1], "id"@, "acceptEdits"@)
            &&& has_text(modes[1], "name"@, "Accept Edits"@)
            &&& has_text(modes[2], "id"@, "plan"@)
            &&& has_text(modes[2], "name"@, "Plan Mode"@)
            &&& has_text(modes[3], "id"@, "dontAsk"@)
            &&& has_text(modes[3], "name"@, "Don't Ask"@)
            &&& has_text(modes[4], "id"@, "bypassPermissions"@)
            &&& has_text(modes[4], "name"@, "Bypass Permissions"@)
            &&& has_text(
                modes[0],
                "description"@,
                "Standard behavior, prompts for dangerous operations"@,
            )
            &&& has_text(modes[1], "description"@, "Auto-accept file edit operations"@)
            &&& has_text(modes[2], "description"@, "Planning mode, no actual tool execution"@)
            &&& has_text(
                modes[3],
                "description"@,
                "Don't prompt for permissions, deny if not pre-approved"@,
            )
            &&& has_text(modes[4], "description"@, "Bypass all permission checks"@)
        }),
{
    lemma_answer_words();
}

/// Whether a value says yes under the key.
pub open spec fn says_yes(j: JsonSpec, key: Seq<char>) -> bool {
    j.get(key) == Some(JsonSpec::Bool(true))
}

/// The answer to `initialize` speaks version 1 of the protocol and names the agent
/// as it was set up. It offers no way to log in.
pub proof fn law_initialize_names_the_agent(name: Seq<char>, title: Seq<char>)
    ensures
        ({
            let answer = initialize_answer(name, title);
            &&& answer.get("protocolVersion"@) == Some(uint(1))
            &&& answer.get("authMethods"@) == Some(JsonSpec::Array(Seq::empty()))
            &&& answer.get("agentInfo"@) matches Some(info) && {
                &&& has_text(info, "name"@, name)
                &&& has_text(info, "title"@, title)
                &&& has_text(info, "version"@, AGENT_VERSION@)
            }
        }),
{
    lemma_answer_words();
}

/// The answer to `initialize` says that sessions can be loaded and prompts be
/// queued, and that a prompt may hold images and resources: what the agent does.
pub proof fn law_initialize_tells_the_capabilities(name: Seq<char>, title: Seq<char>)
    ensures
        ({
            let answer = initialize_answer(name, title);
            &&& answer.get("agentCapabilities"@) matches Some(c) && {
                &&& says_yes(c, "loadSession"@)
                &&& c.get("promptCapabilities"@) matches Some(p) && says_yes(p, "image"@)
                    && says_yes(p, "embeddedContext"@)
                &&& c.get("mcpCapabilities"@) matches Some(m) && says_yes(m, "http"@) && says_yes(
                    m,
                    "sse"@,
                )
                &&& c.get("auth"@) matches Some(a) && a.get("logout"@) == Some(empty_object())
                &&& c.get("providers"@) == Some(empty_object())
                &&& c.get("_meta"@) matches Some(m) && m.get("claudeCode"@) matches Some(code)
                    && says_yes(code, "promptQueueing"@)
                &&& c.get("sessionCapabilities"@) matches Some(s) && {
                    &&& s.get("additionalDirectories"@) == Some(empty_object())
                    &&& s.get("close"@) == Some(empty_object())
                    &&& s.get("delete"@) == Some(empty_object())
                    &&& s.get("fork"@) == Some(empty_object())
                    &&& s.get("list"@) == Some(empty_object())
                    &&& s.get("resume"@) == Some(empty_object())
                }
            }
        }),
{
    lemma_answer_words();
}

/// The answer to `initialize` offers steering, and goals under the method that
/// controls them.
pub proof fn law_initialize_offers_extensions(name: Seq<char>, title: Seq<char>)
    ensures
        initialize_answer(name, title).get("_meta"@) matches Some(meta) && {
            &&& meta.get("steering"@) matches Some(s) && says_yes(s, "supported"@)
            &&& meta.get("goal"@) matches Some(g) && {
                &&& g.get("version"@) == Some(uint(1))
                &&& has_text(g, "controlMethod"@, "_session/goal"@)
                &&& g.get("actions"@) == Some(
                    JsonSpec::Array(seq![JsonSpec::Str("set"@), JsonSpec::Str("clear"@)]),
                )
            }
            &&& meta.get("jetbrains"@) matches Some(j) && j.get("air"@) matches Some(air) && {
                &&& air.get("version"@) == Some(uint(1))
                &&& air.get("capabilities"@) == Some(
                    JsonSpec::Array(
                        seq![
                            JsonSpec::Str("sessionFailure"@),
                            JsonSpec::Str("agentFileChangeReport"@),
                        ],
                    ),
                )
            }
        },
{
    lemma_answer_words();
}

/// Tells the words apart, by their lengths and letters.
proof fn lemma_answer_words()
    ensures
        "_meta"@.len() == 5 && "_meta"@[0] == '_',
        "acceptEdits"@.len() == 11 && "acceptEdits"@[3] == 'e',
        "actions"@.len() == 7 && "actions"@[3] == 'i',
        "additionalDirectories"@.len() == 21,
        "agentCapabilities"@.len() == 17 && "agentCapabilities"@[0] == 'a',
        "agentInfo"@.len() == 9 && "agentInfo"@[2] == 'e',
        "air"@.len() == 3 && "air"@[0] == 'a',
        "auth"@.len() == 4 && "auth"@[0] == 'a',
        "authMethods"@.len() == 11 && "authMethods"@[3] == 'h',
        "availableModes"@.len() == 14 && "availableModes"@[0] == 'a',
        "bypassPermissions"@.len() == 17 && "bypassPermissions"@[0] == 'b',
        "cachedReadTokens"@.len() == 16,
        "cachedWriteTokens"@.len() == 17 && "cachedWriteTokens"@[0] == 'c',
        "cancelled"@.len() == 9 && "cancelled"@[2] == 'n',
        "capabilities"@.len() == 12 && "capabilities"@[0] == 'c',
        "claudeCode"@.len() == 10 && "claudeCode"@[0] == 'c',
        "close"@.len() == 5 && "close"@[0] == 'c',
        "configOptions"@.len() == 13 && "configOptions"@[3] == 'f',
        "controlMethod"@.len() == 13 && "controlMethod"@[3] == 't',
        "currentModeId"@.len() == 13 && "currentModeId"@[3] == 'r',
        "default"@.len() == 7 && "default"@[3] == 'a',
        "delete"@.len() == 6 && "delete"@[0] == 'd',
        "description"@.len() == 11 && "description"@[3] == 'c',
        "dontAsk"@.len() == 7 && "dontAsk"@[3] == 't',
        "embeddedContext"@.len() == 15 && "embeddedContext"@[0] == 'e',
        "end_turn"@.len() == 8 && "end_turn"@[0] == 'e',
        "errorKind"@.len() == 9 && "errorKind"@[2] == 'r',
        "fork"@.len() == 4 && "fork"@[0] == 'f',
        "goal"@.len() == 4 && "goal"@[0] == 'g',
        "http"@.len() == 4 && "http"@[0] == 'h',
        "id"@.len() == 2,
        "image"@.len() == 5 && "image"@[0] == 'i',
        "inputTokens"@.len() == 11 && "inputTokens"@[3] == 'u',
        "jetbrains"@.len() == 9 && "jetbrains"@[2] == 't',
        "list"@.len() == 4 && "list"@[0] == 'l',
        "loadSession"@.len() == 11 && "loadSession"@[3] == 'd',
        "logout"@.len() == 6 && "logout"@[0] == 'l',
        "max_tokens"@.len() == 10 && "max_tokens"@[0] == 'm',
        "max_turn_requests"@.len() == 17 && "max_turn_requests"@[0] == 'm',
        "mcpCapabilities"@.len() == 15 && "mcpCapabilities"@[0] == 'm',
        "modes"@.len() == 5 && "modes"@[0] == 'm',
        "name"@.len() == 4 && "name"@[0] == 'n',
        "outputTokens"@.len() == 12 && "outputTokens"@[0] == 'o',
        "plan"@.len() == 4 && "plan"@[0] == 'p',
        "promptCapabilities"@.len() == 18,
        "promptQueueing"@.len() == 14 && "promptQueueing"@[0] == 'p',
        "protocolVersion"@.len() == 15 && "protocolVersion"@[0] == 'p',
        "providers"@.len() == 9 && "providers"@[2] == 'o',
        "refusal"@.len() == 7 && "refusal"@[3] == 'u',
        "resume"@.len() == 6 && "resume"@[0] == 'r',
        "sessionCapabilities"@.len() == 19,
        "sessionId"@.len() == 9 && "sessionId"@[2] == 's',
        "sse"@.len() == 3 && "sse"@[0] == 's',
        "steering"@.len() == 8 && "steering"@[0] == 's',
        "stopReason"@.len() == 10 && "stopReason"@[0] == 's',
        "supported"@.len() == 9 && "supported"@[2] == 'p',
        "title"@.len() == 5 && "title"@[0] == 't',
        "totalTokens"@.len() == 11 && "totalTokens"@[3] == 'a',
        "usage"@.len() == 5 && "usage"@[0] == 'u',
        "version"@.len() == 7 && "version"@[3] == 's',
{
    reveal_strlit("_meta");
    reveal_strlit("acceptEdits");
    reveal_strlit("actions");
    reveal_strlit("additionalDirectories");
    reveal_strlit("agentCapabilities");
    reveal_strlit("agentInfo");
    reveal_strlit("air");
    reveal_strlit("auth");
    reveal_strlit("authMethods");
    reveal_strlit("availableModes");
    reveal_strlit("bypassPermissions");
    reveal_strlit("cachedReadTokens");
    reveal_strlit("cachedWriteTokens");
    reveal_strlit("cancelled");
    reveal_strlit("capabilities");
    reveal_strlit("claudeCode");
    reveal_strlit("close");
    reveal_strlit("configOptions");
    reveal_strlit("controlMethod");
    reveal_strlit("currentModeId");
    reveal_strlit("default");
    reveal_strlit("delete");
    reveal_strlit("description");
    reveal_strlit("dontAsk");
    reveal_strlit("embeddedContext");
    reveal_strlit("end_turn");
    reveal_strlit("errorKind");
    reveal_strlit("fork");
    reveal_strlit("goal");
    reveal_strlit("http");
    reveal_strlit("id");
    reveal_strlit("image");
    reveal_strlit("inputTokens");
    reveal_strlit("jetbrains");
    reveal_strlit("list");
    reveal_strlit("loadSession");
    reveal_strlit("logout");
    reveal_strlit("max_tokens");
    reveal_strlit("max_turn_requests");
    reveal_strlit("mcpCapabilities");
    reveal_strlit("modes");
    reveal_strlit("name");
    reveal_strlit("outputTokens");
    reveal_strlit("plan");
    reveal_strlit("promptCapabilities");
    reveal_strlit("promptQueueing");
    reveal_strlit("protocolVersion");
    reveal_strlit("providers");
    reveal_strlit("refusal");
    reveal_strlit("resume");
    reveal_strlit("sessionCapabilities");
    reveal_strlit("sessionId");
    reveal_strlit("sse");
    reveal_strlit("steering");
    reveal_strlit("stopReason");
    reveal_strlit("supported");
    reveal_strlit("title");
    reveal_strlit("totalTokens");
    reveal_strlit("usage");
    reveal_strlit("version");
}

} // verus!

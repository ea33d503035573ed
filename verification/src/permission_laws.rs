//! What holds between the questions for permission and their answers.

use vstd::prelude::*;

use crate::acp::{content_json, contents_json, locations_json, location_json, BlockSpec, ContentSpec, LocationSpec, UpdateSpec};
use crate::json::{has_text, law_empty_has_no_members, law_member_of_with, uint, JsonSpec};
use crate::map::{MapSpec, MsgRole};
use crate::permission::{always_allow_meta, answer, asked_call, asks_permission, can_use_tool, lifetime, outcome_of, request_json, tool_call_json, use_block, CanUseToolSpec, Outcome};
use crate::strs::joined;
use crate::tools::{meta_of, shape_of};

verus! {

broadcast use {law_member_of_with, law_empty_has_no_members};

/// The choices that a question offers.
pub open spec fn choices(question: JsonSpec) -> Seq<JsonSpec> {
    match question.get("options"@) {
        Some(JsonSpec::Array(a)) => a,
        _ => Seq::empty(),
    }
}

/// Whether a client's answer takes this choice.
pub open spec fn takes(response: JsonSpec, choice: JsonSpec) -> bool {
    &&& has_text(response, "outcome"@, "selected"@)
    &&& response.get("optionId"@) == choice.get("optionId"@)
}

/// What a client's answer is told to the child as.
pub open spec fn told(outcome: Outcome, request: CanUseToolSpec) -> JsonSpec {
    match answer(outcome, request).get("response"@) {
        Some(outer) => match outer.get("response"@) {
            Some(inner) => inner,
            None => JsonSpec::Null,
        },
        None => JsonSpec::Null,
    }
}

/// Whoever takes a choice of a question gets what its kind says: a call that is
/// rejected is denied, one that is allowed once is allowed, and one that is always
/// allowed is so.
pub proof fn law_choice_means_its_kind(
    session_id: Seq<char>,
    tool_call: JsonSpec,
    tool_name: Seq<char>,
    suggestions: JsonSpec,
    response: JsonSpec,
    i: int,
)
    requires
        0 <= i < choices(request_json(session_id, tool_call, tool_name, suggestions)).len(),
        takes(response, choices(request_json(session_id, tool_call, tool_name, suggestions))[i]),
    ensures
        ({
            let choice = choices(request_json(session_id, tool_call, tool_name, suggestions))[i];
            &&& outcome_of(response) == Outcome::Deny <==> has_text(
                choice,
                "kind"@,
                "reject_once"@,
            )
            &&& outcome_of(response) == Outcome::Allow <==> has_text(
                choice,
                "kind"@,
                "allow_once"@,
            )
            &&& outcome_of(response) == Outcome::AllowAlways <==> has_text(
                choice,
                "kind"@,
                "allow_always"@,
            )
        }),
{
    lemma_permission_words();
    let c = choices(request_json(session_id, tool_call, tool_name, suggestions));
    assert(c.len() == 3);
    assert(i == 0 || i == 1 || i == 2);
}

/// A question offers to reject, to allow once and to allow always, each once and
/// under a name for the user.
pub proof fn law_question_offers_each_kind_once(
    session_id: Seq<char>,
    tool_call: JsonSpec,
    tool_name: Seq<char>,
    suggestions: JsonSpec,
)
    ensures
        ({
            let c = choices(request_json(session_id, tool_call, tool_name, suggestions));
            &&& c.len() == 3
            &&& has_text(c[0], "kind"@, "reject_once"@) && has_text(c[0], "name"@, "Deny"@)
            &&& has_text(c[0], "optionId"@, "reject"@) && has_text(c[1], "optionId"@, "allow"@)
            &&& has_text(c[2], "optionId"@, "allow_always"@)
            &&& has_text(c[1], "kind"@, "allow_once"@) && has_text(c[1], "name"@, "Allow Once"@)
            &&& has_text(c[2], "kind"@, "allow_always"@) && has_text(
                c[2],
                "name"@,
                "Always Allow"@,
            )
            &&& c[2].get("_meta"@) matches Some(meta) && meta.get("permission"@) == Some(
                always_allow_meta(suggestions, tool_name),
            )
        }),
{
    lemma_permission_words();
}

/// A question is put to its session, about its tool call.
pub proof fn law_question_is_about_its_call(
    session_id: Seq<char>,
    tool_call: JsonSpec,
    tool_name: Seq<char>,
    suggestions: JsonSpec,
)
    ensures
        has_text(
            request_json(session_id, tool_call, tool_name, suggestions),
            "sessionId"@,
            session_id,
        ),
        request_json(session_id, tool_call, tool_name, suggestions).get("toolCall"@) == Some(
            tool_call,
        ),
{
    lemma_permission_words();
}

/// A question that is withdrawn is told from one that is answered; an answer that
/// takes none of the choices to allow denies.
pub proof fn law_withdrawn_and_unknown_answers(response: JsonSpec)
    ensures
        has_text(response, "outcome"@, "cancelled"@) ==> outcome_of(response)
            == Outcome::Cancelled,
        outcome_of(response) == Outcome::Cancelled ==> has_text(
            response,
            "outcome"@,
            "cancelled"@,
        ),
        outcome_of(response) == Outcome::Allow || outcome_of(response) == Outcome::AllowAlways
            ==> has_text(response, "outcome"@, "selected"@),
{
    lemma_permission_words();
}

/// Whatever is chosen, the child's request is answered once, under its id, as
/// handled.
pub proof fn law_answer_is_for_its_request(outcome: Outcome, request: CanUseToolSpec)
    ensures
        has_text(answer(outcome, request), "type"@, "control_response"@),
        answer(outcome, request).get("response"@) matches Some(outer) && {
            &&& has_text(outer, "subtype"@, "success"@)
            &&& has_text(outer, "request_id"@, request.request_id)
            &&& outer.get("response"@) is Some
        },
{
    lemma_permission_words();
}

/// An allowed call runs with the input that was asked about. Rules change only if
/// the call was always allowed: then by the changes that the child suggested.
pub proof fn law_allowed_call_runs_as_asked(request: CanUseToolSpec)
    ensures
        has_text(told(Outcome::Allow, request), "behavior"@, "allow"@),
        told(Outcome::Allow, request).get("updatedInput"@) == Some(request.tool_input),
        told(Outcome::Allow, request).get("updatedPermissions"@) is None,
        has_text(told(Outcome::AllowAlways, request), "behavior"@, "allow"@),
        told(Outcome::AllowAlways, request).get("updatedInput"@) == Some(request.tool_input),
        request.suggestions matches JsonSpec::Array(a) && a.len() > 0 ==> told(
            Outcome::AllowAlways,
            request,
        ).get("updatedPermissions"@) == Some(request.suggestions),
{
    lemma_permission_words();
}

/// Where the child suggests nothing, a call that is always allowed allows its tool
/// for the session, and no other.
pub proof fn law_always_allowed_without_suggestions(request: CanUseToolSpec)
    requires
        !(request.suggestions is Array) || request.suggestions == JsonSpec::Array(Seq::empty()),
    ensures
        told(Outcome::AllowAlways, request).get("updatedPermissions"@) matches Some(
            JsonSpec::Array(changes),
        ) && {
            &&& changes.len() == 1
            &&& has_text(changes[0], "type"@, "addRules"@)
            &&& has_text(changes[0], "behavior"@, "allow"@)
            &&& has_text(changes[0], "destination"@, "session"@)
            &&& changes[0].get("rules"@) matches Some(JsonSpec::Array(rules)) && rules.len() == 1
                && has_text(rules[0], "toolName"@, request.tool_name) && rules[0].get(
                "ruleContent"@,
            ) is None
        },
{
    lemma_permission_words();
    reveal_strlit("ruleContent");
    assert("ruleContent"@.len() == 11);
}

/// A call that is denied, or whose question is withdrawn, does not run; the turn
/// goes on.
pub proof fn law_denied_call_does_not_run(request: CanUseToolSpec)
    ensures
        answer(Outcome::Cancelled, request) == answer(Outcome::Deny, request),
        has_text(told(Outcome::Deny, request), "behavior"@, "deny"@),
        has_text(
            told(Outcome::Deny, request),
            "message"@,
            "User refused permission to run tool"@,
        ),
        told(Outcome::Deny, request).get("updatedInput"@) is None,
        told(Outcome::Deny, request).get("updatedPermissions"@) is None,
        told(Outcome::Deny, request).get("interrupt"@) is None,
{
    lemma_permission_words();
    reveal_strlit("interrupt");
    assert("interrupt"@.len() == 9);
}

/// A request for permission is read by its members: the tool, its input, the call,
/// the subagent that asks, the suggestions and the id under which to answer.
pub proof fn law_request_is_read(
    frame: JsonSpec,
    request: JsonSpec,
    tool: Seq<char>,
    call: Seq<char>,
    id: Seq<char>,
)
    requires
        frame.get("request"@) == Some(request),
        has_text(frame, "request_id"@, id),
        has_text(request, "tool_name"@, tool),
        has_text(request, "tool_use_id"@, call),
    ensures
        asks_permission(frame) <==> has_text(request, "subtype"@, "can_use_tool"@),
        can_use_tool(frame).tool_name == tool,
        can_use_tool(frame).tool_use_id == call,
        can_use_tool(frame).request_id == id,
        request.get("input"@) matches Some(input) ==> can_use_tool(frame).tool_input == input,
        forall|agent: Seq<char>| #[trigger] has_text(request, "agent_id"@, agent) && agent.len() > 0
            ==> can_use_tool(frame).agent_id == Some(agent),
        request.get("agent_id"@) is None ==> can_use_tool(frame).agent_id is None,
        request.get("permission_suggestions"@) matches Some(s) ==> can_use_tool(frame).suggestions
            == s,
        request.get("permission_suggestions"@) is None ==> can_use_tool(frame).suggestions
            == JsonSpec::Array(Seq::empty()),
{
    reveal_strlit("can_use_tool");
    assert("can_use_tool"@.len() == 12);
}

/// What a request for permission lacks is read as nothing: no input, no call, no
/// subagent, and a tool without a name.
pub proof fn law_bare_request_is_read(frame: JsonSpec, request: JsonSpec)
    requires
        frame.get("request"@) == Some(request),
    ensures
        request.get("tool_name"@) is None ==> can_use_tool(frame).tool_name == "Other"@,
        request.get("input"@) is None ==> can_use_tool(frame).tool_input == JsonSpec::Null,
        request.get("tool_use_id"@) is None ==> can_use_tool(frame).tool_use_id.len() == 0,
        has_text(request, "agent_id"@, Seq::empty()) ==> can_use_tool(frame).agent_id is None,
{
}

/// The tool call that a question is about is the one that the client is shown: it
/// has the same id, input, kind, title, content and locations.
pub proof fn law_question_shows_the_call(
    tool_name: Seq<char>,
    tool_input: JsonSpec,
    tool_use_id: Seq<char>,
    parent: Option<Seq<char>>,
)
    ensures
        asked_call(tool_name, tool_input, tool_use_id, parent) matches UpdateSpec::ToolCall(t) && {
            let asked = tool_call_json(tool_name, tool_input, tool_use_id, parent);
            &&& t.id == tool_use_id
            &&& has_text(asked, "toolCallId"@, tool_use_id)
            &&& t.raw_input == Some(tool_input)
            &&& asked.get("rawInput"@) == Some(tool_input)
            &&& has_text(asked, "kind"@, t.kind.spelled())
            &&& t.kind == shape_of(tool_name, tool_input).kind
            &&& has_text(asked, "title"@, t.title)
            &&& t.title == shape_of(tool_name, tool_input).title
            &&& asked.get("content"@) == Some(contents_json(t.content))
            &&& t.content == shape_of(tool_name, tool_input).content
            &&& t.locations == shape_of(tool_name, tool_input).locations
            &&& t.locations.len() > 0 ==> asked.get("locations"@) == Some(
                locations_json(t.locations),
            )
            &&& t.locations.len() == 0 ==> asked.get("locations"@) is None
        },
{
    lemma_permission_words();
}

/// A call that the child asks about is shown before the question as the same use in
/// a whole message would be.
pub proof fn law_asked_call_is_shown_as_a_use(
    tool_name: Seq<char>,
    tool_input: JsonSpec,
    tool_use_id: Seq<char>,
    role: MsgRole,
)
    requires
        tool_name != "TodoWrite"@,
        tool_name != "TaskCreate"@,
        tool_name != "TaskUpdate"@,
        tool_name != "TaskList"@,
        tool_name != "TaskGet"@,
    ensures
        MapSpec::initial().block(use_block(tool_name, tool_input, tool_use_id), role).1 == seq![
            asked_call(tool_name, tool_input, tool_use_id, None),
        ],
{
    lemma_permission_words();
}

/// A call of a subagent names the call that started it, in the question and where
/// it is shown; any other names none.
pub proof fn law_asked_call_names_its_parent(
    tool_name: Seq<char>,
    tool_input: JsonSpec,
    tool_use_id: Seq<char>,
    parent: Seq<char>,
)
    ensures
        asked_call(tool_name, tool_input, tool_use_id, Some(parent)) matches UpdateSpec::ToolCall(t)
            && t.meta.get("claudeCode"@) matches Some(code) && has_text(
            code,
            "parentToolUseId"@,
            parent,
        ) && has_text(code, "toolName"@, tool_name),
        tool_call_json(tool_name, tool_input, tool_use_id, Some(parent)).get("_meta"@) matches Some(
            meta,
        ) && meta.get("claudeCode"@) matches Some(code) && has_text(
            code,
            "parentToolUseId"@,
            parent,
        ) && has_text(code, "toolName"@, tool_name),
        tool_call_json(tool_name, tool_input, tool_use_id, None).get("_meta"@) is None,
        asked_call(tool_name, tool_input, tool_use_id, None) matches UpdateSpec::ToolCall(t)
            && t.meta == meta_of(tool_name, tool_input),
{
    lemma_permission_words();
}

/// How the content of a tool call is written for the client.
pub proof fn law_content_is_written(
    c: Seq<ContentSpec>,
    i: int,
)
    requires
        0 <= i < c.len(),
    ensures
        contents_json(c) matches JsonSpec::Array(a) && a.len() == c.len() && a[i] == content_json(
            c[i],
        ),
        c[i] matches ContentSpec::Content { content } ==> has_text(
            content_json(c[i]),
            "type"@,
            "content"@,
        ) && (content_json(c[i]).get("content"@) matches Some(block) && {
            &&& content matches BlockSpec::Text { text } ==> has_text(block, "type"@, "text"@)
                && has_text(block, "text"@, text)
            &&& content matches BlockSpec::Image { data, mime_type } ==> has_text(
                block,
                "type"@,
                "image"@,
            ) && has_text(block, "data"@, data) && has_text(block, "mimeType"@, mime_type)
        }),
        c[i] matches ContentSpec::Diff { path, old_text, new_text } ==> {
            let diff = content_json(c[i]);
            &&& has_text(diff, "type"@, "diff"@)
            &&& has_text(diff, "path"@, path)
            &&& has_text(diff, "newText"@, new_text)
            &&& old_text matches Some(old) ==> has_text(diff, "oldText"@, old)
            &&& old_text is None ==> diff.get("oldText"@) is None
        },
{
    lemma_content_words();
}

/// How the places of a tool call are written for the client.
pub proof fn law_locations_are_written(l: Seq<LocationSpec>, i: int)
    requires
        0 <= i < l.len(),
    ensures
        locations_json(l) matches JsonSpec::Array(a) && a.len() == l.len() && {
            &&& has_text(a[i], "path"@, l[i].path)
            &&& l[i].line matches Some(n) ==> a[i].get("line"@) == Some(uint(n as u64))
            &&& l[i].line is None ==> a[i].get("line"@) is None
        },
{
    lemma_content_words();
    assert(locations_json(l)->Array_0[i] == location_json(l[i]));
}

/// The changes that come with always allowing.
pub open spec fn told_changes(suggestions: JsonSpec, tool_name: Seq<char>) -> Seq<JsonSpec> {
    match always_allow_meta(suggestions, tool_name).get("changes"@) {
        Some(JsonSpec::Array(a)) => a,
        _ => Seq::empty(),
    }
}

/// Whether a suggestion changes something that can be told.
pub open spec fn is_a_change(suggestion: JsonSpec) -> bool {
    ||| has_text(suggestion, "type"@, "addRules"@)
    ||| has_text(suggestion, "type"@, "removeRules"@)
    ||| has_text(suggestion, "type"@, "replaceRules"@)
    ||| has_text(suggestion, "type"@, "addDirectories"@)
    ||| has_text(suggestion, "type"@, "removeDirectories"@)
    ||| has_text(suggestion, "type"@, "setMode"@)
}

/// Each suggested change that can be told is told, in order, behind those of the
/// suggestions before it; any other suggestion is passed over.
pub proof fn law_changes_are_told_in_order(
    list: Seq<JsonSpec>,
    suggestion: JsonSpec,
    tool_name: Seq<char>,
)
    requires
        list.len() > 0,
    ensures
        ({
            let before = told_changes(JsonSpec::Array(list), tool_name);
            let all = told_changes(JsonSpec::Array(list.push(suggestion)), tool_name);
            let alone = told_changes(JsonSpec::Array(seq![suggestion]), tool_name);
            &&& all == before + alone
            &&& alone.len() == (if is_a_change(suggestion) {
                1nat
            } else {
                0nat
            })
        }),
        always_allow_meta(JsonSpec::Array(list), tool_name).get("version"@) == Some(uint(1)),
{
    lemma_permission_words();
    lemma_changes(list, suggestion);
    lemma_one_change(suggestion);
    let before = told_changes(JsonSpec::Array(list), tool_name);
    let all = told_changes(JsonSpec::Array(list.push(suggestion)), tool_name);
    let alone = told_changes(JsonSpec::Array(seq![suggestion]), tool_name);
    assert(all =~= before + alone);
}

proof fn lemma_changes(list: Seq<JsonSpec>, suggestion: JsonSpec)
    ensures
        crate::permission::changes_of(list.push(suggestion)) == (match crate::permission::change_of(
            suggestion,
        ) {
            Some(c) => crate::permission::changes_of(list).push(c),
            None => crate::permission::changes_of(list),
        }),
{
    assert(list.push(suggestion).drop_last() =~= list);
}

proof fn lemma_one_change(suggestion: JsonSpec)
    ensures
        crate::permission::changes_of(seq![suggestion]) == (match crate::permission::change_of(
            suggestion,
        ) {
            Some(c) => seq![c],
            None => Seq::empty(),
        }),
        crate::permission::change_of(suggestion) is Some <==> is_a_change(suggestion),
{
    lemma_permission_words();
    let none = Seq::<JsonSpec>::empty();
    assert(none.push(suggestion) =~= seq![suggestion]);
    lemma_changes(none, suggestion);
    assert(crate::permission::changes_of(none) =~= none);
}

/// The words for one rule.
pub open spec fn words_for(tool: Seq<char>, content: Option<Seq<char>>) -> Seq<char> {
    match content {
        Some(c) => tool + " calls matching "@ + c,
        None => "all "@ + tool + " calls"@,
    }
}

/// Whether a suggestion says this under the key, or says nothing and this is usual.
pub open spec fn says_or(j: JsonSpec, key: Seq<char>, text: Seq<char>, usual: Seq<char>) -> bool {
    ||| has_text(j, key, text)
    ||| !(j.get(key) matches Some(JsonSpec::Str(_))) && text == usual
}

/// Whether a rule is for this tool, and for its calls that match this alone.
pub open spec fn is_rule_for(rule: JsonSpec, tool: Seq<char>, content: Option<Seq<char>>) -> bool {
    &&& has_text(rule, "toolName"@, tool)
    &&& match content {
        Some(c) => has_text(rule, "ruleContent"@, c),
        None => !(rule.get("ruleContent"@) matches Some(JsonSpec::Str(_))),
    }
}

/// Suggested rules are told by what they do, for which calls of which tools, in order,
/// and how long they last: for the session, if they do not say.
pub proof fn law_rules_are_told(
    suggestion: JsonSpec,
    op: Seq<char>,
    behavior: Seq<char>,
    rules: Seq<JsonSpec>,
    tools: Seq<Seq<char>>,
    contents: Seq<Option<Seq<char>>>,
    destination: Seq<char>,
    tool_name: Seq<char>,
)
    requires
        op == "addRules"@ || op == "removeRules"@ || op == "replaceRules"@,
        has_text(suggestion, "type"@, op),
        says_or(suggestion, "behavior"@, behavior, "allow"@),
        says_or(suggestion, "destination"@, destination, "session"@),
        suggestion.get("rules"@) == Some(JsonSpec::Array(rules)),
        tools.len() == rules.len(),
        contents.len() == rules.len(),
        forall|i: int|
            0 <= i < rules.len() ==> is_rule_for(#[trigger] rules[i], tools[i], contents[i]),
    ensures
        ({
            let told = told_changes(JsonSpec::Array(seq![suggestion]), tool_name);
            let verb = if op == "removeRules"@ {
                "Remove "@ + behavior + " rules for"@
            } else if op == "replaceRules"@ {
                "Replace "@ + behavior + " rules with"@
            } else if behavior == "deny"@ {
                "Deny"@
            } else if behavior == "ask"@ {
                "Ask before"@
            } else {
                "Allow"@
            };
            let words = Seq::new(rules.len(), |i: int| words_for(tools[i], contents[i]));
            &&& told.len() == 1
            &&& has_text(told[0], "type"@, "policy_rule"@)
            &&& has_text(
                told[0],
                "operation"@,
                if op == "removeRules"@ {
                    "remove"@
                } else if op == "replaceRules"@ {
                    "replace"@
                } else {
                    "add"@
                },
            )
            &&& has_text(told[0], "ruleBehavior"@, behavior)
            &&& has_text(told[0], "description"@, verb + " "@ + joined(words, ", "@))
            &&& told[0].get("lifetime"@) == Some(lifetime(destination))
            &&& told[0].get("targets"@) matches Some(JsonSpec::Array(targets)) && {
                &&& targets.len() == rules.len()
                &&& forall|i: int|
                    0 <= i < rules.len() ==> is_target_for(
                        #[trigger] targets[i],
                        tools[i],
                        contents[i],
                    )
            }
        }),
{
    lemma_permission_words();
    lemma_one_change(suggestion);
    let words = Seq::new(rules.len(), |i: int| words_for(tools[i], contents[i]));
    let said = Seq::new(rules.len(), |i: int| crate::permission::rule_words(rules[i]));
    assert forall|i: int| 0 <= i < rules.len() implies said[i] == words[i] by {
        assert(is_rule_for(rules[i], tools[i], contents[i]));
    }
    assert(said =~= words);
    let targets = Seq::new(rules.len(), |i: int| crate::permission::rule_target(rules[i]));
    assert forall|i: int| 0 <= i < rules.len() implies is_target_for(
        #[trigger] targets[i],
        tools[i],
        contents[i],
    ) by {
        assert(is_rule_for(rules[i], tools[i], contents[i]));
    }
}

/// Whether the calls that a change is for are those of this tool, and of these those
/// that match this alone.
pub open spec fn is_target_for(
    target: JsonSpec,
    tool: Seq<char>,
    content: Option<Seq<char>>,
) -> bool {
    &&& has_text(target, "type"@, "tool"@)
    &&& has_text(target, "toolName"@, tool)
    &&& match content {
        Some(c) => target.get("matcher"@) matches Some(m) && {
            &&& has_text(m, "type"@, "provider_rule"@)
            &&& has_text(m, "provider"@, "claudeCode"@)
            &&& has_text(m, "value"@, c)
        },
        None => target.get("matcher"@) is None,
    }
}

/// Suggested directories are told by their paths, in order, and whether their files
/// may be reached from now on or no longer.
pub proof fn law_directories_are_told(
    suggestion: JsonSpec,
    op: Seq<char>,
    paths: Seq<Seq<char>>,
    destination: Seq<char>,
    tool_name: Seq<char>,
)
    requires
        op == "addDirectories"@ || op == "removeDirectories"@,
        has_text(suggestion, "type"@, op),
        says_or(suggestion, "destination"@, destination, "session"@),
        suggestion.get("directories"@) == Some(
            JsonSpec::Array(Seq::new(paths.len(), |i: int| JsonSpec::Str(paths[i]))),
        ),
    ensures
        ({
            let told = told_changes(JsonSpec::Array(seq![suggestion]), tool_name);
            &&& told.len() == 1
            &&& has_text(told[0], "type"@, "policy_rule"@)
            &&& has_text(told[0], "ruleBehavior"@, "allow"@)
            &&& op == "addDirectories"@ ==> has_text(told[0], "operation"@, "add"@) && has_text(
                told[0],
                "description"@,
                "Allow filesystem access under "@ + joined(paths, ", "@),
            )
            &&& op == "removeDirectories"@ ==> has_text(told[0], "operation"@, "remove"@)
                && has_text(
                told[0],
                "description"@,
                "Remove additional filesystem access under "@ + joined(paths, ", "@),
            )
            &&& told[0].get("lifetime"@) == Some(lifetime(destination))
            &&& told[0].get("targets"@) matches Some(JsonSpec::Array(targets)) && {
                &&& targets.len() == paths.len()
                &&& forall|i: int|
                    0 <= i < paths.len() ==> is_directory(#[trigger] targets[i], paths[i])
            }
        }),
{
    lemma_permission_words();
    lemma_one_change(suggestion);
    let dirs = Seq::new(paths.len(), |i: int| JsonSpec::Str(paths[i]));
    let words = Seq::new(dirs.len(), |i: int| crate::permission::text_of(dirs[i]));
    assert(words =~= paths);
    let targets = Seq::new(dirs.len(), |i: int| crate::permission::directory_target(dirs[i]));
    assert forall|i: int| 0 <= i < paths.len() implies is_directory(
        #[trigger] targets[i],
        paths[i],
    ) by {
        assert(dirs[i] == JsonSpec::Str(paths[i]));
    }
}

/// Whether the files that a change is for are those under this path.
pub open spec fn is_directory(target: JsonSpec, path: Seq<char>) -> bool {
    &&& has_text(target, "type"@, "filesystem"@)
    &&& target.get("matcher"@) matches Some(m) && has_text(m, "type"@, "directory"@) && has_text(
        m,
        "path"@,
        path,
    )
}

/// A suggested permission mode is told by its name.
pub proof fn law_mode_is_told(
    suggestion: JsonSpec,
    mode: Seq<char>,
    destination: Seq<char>,
    tool_name: Seq<char>,
)
    requires
        has_text(suggestion, "type"@, "setMode"@),
        has_text(suggestion, "mode"@, mode),
        says_or(suggestion, "destination"@, destination, "session"@),
    ensures
        ({
            let told = told_changes(JsonSpec::Array(seq![suggestion]), tool_name);
            &&& told.len() == 1
            &&& has_text(told[0], "type"@, "permission_mode"@)
            &&& has_text(told[0], "operation"@, "set"@)
            &&& has_text(told[0], "provider"@, "claudeCode"@)
            &&& has_text(told[0], "mode"@, mode)
            &&& has_text(told[0], "description"@, "Set permission mode to "@ + mode)
            &&& told[0].get("lifetime"@) == Some(lifetime(destination))
        }),
{
    lemma_permission_words();
    lemma_one_change(suggestion);
}

/// A change lasts as long as the place that it is kept in: what goes to no known
/// place lasts for the session.
pub proof fn law_changes_last(destination: Seq<char>)
    ensures
        destination == "user"@ ==> has_text(lifetime(destination), "scope"@, "user"@),
        destination == "workspace"@ ==> has_text(lifetime(destination), "scope"@, "workspace"@),
        destination == "project"@ ==> has_text(lifetime(destination), "scope"@, "persistent"@)
            && has_text(lifetime(destination), "storage"@, "project"@),
        destination == "localSettings"@ ==> has_text(
            lifetime(destination),
            "scope"@,
            "persistent"@,
        ) && has_text(lifetime(destination), "storage"@, "project_local"@),
        destination != "user"@ && destination != "workspace"@ && destination != "project"@
            && destination != "localSettings"@ ==> has_text(
            lifetime(destination),
            "scope"@,
            "session"@,
        ),
        lifetime(destination).get("storage"@) is Some ==> has_text(
            lifetime(destination),
            "scope"@,
            "persistent"@,
        ),
{
    lemma_permission_words();
}

/// Tells the words apart, by their lengths and letters.
proof fn lemma_permission_words()
    ensures
        "TaskCreate"@.len() == 10 && "TaskCreate"@[0] == 'T' && "TaskCreate"@[4] == 'C',
        "TaskGet"@.len() == 7 && "TaskGet"@[0] == 'T' && "TaskGet"@[3] == 'k',
        "TaskList"@.len() == 8 && "TaskList"@[0] == 'T' && "TaskList"@[4] == 'L',
        "TaskUpdate"@.len() == 10 && "TaskUpdate"@[0] == 'T' && "TaskUpdate"@[4] == 'U',
        "TodoWrite"@.len() == 9 && "TodoWrite"@[0] == 'T',
        "_meta"@.len() == 5 && "_meta"@[1] == 'm',
        "addDirectories"@.len() == 14,
        "addRules"@.len() == 8 && "addRules"@[0] == 'a' && "addRules"@[4] == 'u',
        "allow"@.len() == 5 && "allow"@[1] == 'l',
        "allow_always"@.len() == 12 && "allow_always"@[1] == 'l',
        "allow_once"@.len() == 10 && "allow_once"@[0] == 'a' && "allow_once"@[4] == 'w',
        "ask"@.len() == 3,
        "behavior"@.len() == 8 && "behavior"@[0] == 'b' && "behavior"@[4] == 'v',
        "cancelled"@.len() == 9 && "cancelled"@[0] == 'c',
        "changes"@.len() == 7 && "changes"@[0] == 'c' && "changes"@[3] == 'n',
        "claudeCode"@.len() == 10 && "claudeCode"@[0] == 'c' && "claudeCode"@[4] == 'd',
        "content"@.len() == 7 && "content"@[0] == 'c' && "content"@[3] == 't',
        "deny"@.len() == 4 && "deny"@[0] == 'd' && "deny"@[1] == 'e',
        "description"@.len() == 11 && "description"@[3] == 'c',
        "destination"@.len() == 11 && "destination"@[3] == 't',
        "directory"@.len() == 9 && "directory"@[0] == 'd',
        "filesystem"@.len() == 10 && "filesystem"@[0] == 'f' && "filesystem"@[4] == 's',
        "id"@.len() == 2,
        "input"@.len() == 5 && "input"@[1] == 'n',
        "kind"@.len() == 4 && "kind"@[0] == 'k' && "kind"@[1] == 'i',
        "lifetime"@.len() == 8 && "lifetime"@[0] == 'l' && "lifetime"@[4] == 't',
        "localSettings"@.len() == 13 && "localSettings"@[0] == 'l',
        "locations"@.len() == 9 && "locations"@[0] == 'l',
        "matcher"@.len() == 7 && "matcher"@[0] == 'm' && "matcher"@[3] == 'c',
        "mcp_tool_use"@.len() == 12 && "mcp_tool_use"@[1] == 'c',
        "message"@.len() == 7 && "message"@[0] == 'm' && "message"@[3] == 's',
        "mode"@.len() == 4 && "mode"@[0] == 'm' && "mode"@[1] == 'o',
        "name"@.len() == 4 && "name"@[0] == 'n' && "name"@[1] == 'a',
        "operation"@.len() == 9 && "operation"@[0] == 'o',
        "optionId"@.len() == 8 && "optionId"@[0] == 'o' && "optionId"@[4] == 'o',
        "options"@.len() == 7 && "options"@[0] == 'o' && "options"@[3] == 'i',
        "parentToolUseId"@.len() == 15 && "parentToolUseId"@[3] == 'e',
        "path"@.len() == 4 && "path"@[0] == 'p' && "path"@[1] == 'a',
        "permission"@.len() == 10 && "permission"@[0] == 'p' && "permission"@[4] == 'i',
        "permission_mode"@.len() == 15 && "permission_mode"@[3] == 'm',
        "policy_rule"@.len() == 11 && "policy_rule"@[3] == 'i',
        "project"@.len() == 7 && "project"@[0] == 'p' && "project"@[3] == 'j',
        "provider"@.len() == 8 && "provider"@[0] == 'p' && "provider"@[4] == 'i',
        "provider_rule"@.len() == 13 && "provider_rule"@[0] == 'p',
        "rawInput"@.len() == 8 && "rawInput"@[0] == 'r' && "rawInput"@[4] == 'n',
        "reject"@.len() == 6,
        "reject_once"@.len() == 11 && "reject_once"@[3] == 'e',
        "removeDirectories"@.len() == 17,
        "removeRules"@.len() == 11 && "removeRules"@[3] == 'o',
        "replaceRules"@.len() == 12 && "replaceRules"@[1] == 'e',
        "request_id"@.len() == 10 && "request_id"@[0] == 'r' && "request_id"@[4] == 'e',
        "response"@.len() == 8 && "response"@[0] == 'r' && "response"@[4] == 'o',
        "ruleBehavior"@.len() == 12 && "ruleBehavior"@[1] == 'u',
        "rules"@.len() == 5 && "rules"@[1] == 'u',
        "scope"@.len() == 5 && "scope"@[1] == 'c',
        "selected"@.len() == 8 && "selected"@[0] == 's' && "selected"@[4] == 'c',
        "server_tool_use"@.len() == 15 && "server_tool_use"@[3] == 'v',
        "session"@.len() == 7 && "session"@[0] == 's' && "session"@[3] == 's',
        "sessionId"@.len() == 9 && "sessionId"@[0] == 's',
        "setMode"@.len() == 7 && "setMode"@[0] == 's' && "setMode"@[3] == 'M',
        "skill"@.len() == 5 && "skill"@[1] == 'k',
        "storage"@.len() == 7 && "storage"@[0] == 's' && "storage"@[3] == 'r',
        "subagent"@.len() == 8 && "subagent"@[0] == 's' && "subagent"@[4] == 'g',
        "subtype"@.len() == 7 && "subtype"@[0] == 's' && "subtype"@[3] == 't',
        "targets"@.len() == 7 && "targets"@[0] == 't' && "targets"@[3] == 'g',
        "title"@.len() == 5 && "title"@[1] == 'i',
        "tool"@.len() == 4 && "tool"@[0] == 't' && "tool"@[1] == 'o',
        "toolCall"@.len() == 8 && "toolCall"@[0] == 't' && "toolCall"@[4] == 'C',
        "toolCallId"@.len() == 10 && "toolCallId"@[0] == 't' && "toolCallId"@[4] == 'C',
        "toolName"@.len() == 8 && "toolName"@[0] == 't' && "toolName"@[4] == 'N',
        "tool_use"@.len() == 8 && "tool_use"@[0] == 't' && "tool_use"@[4] == '_',
        "type"@.len() == 4 && "type"@[0] == 't' && "type"@[1] == 'y',
        "updatedInput"@.len() == 12 && "updatedInput"@[1] == 'p',
        "updatedPermissions"@.len() == 18,
        "user"@.len() == 4 && "user"@[0] == 'u' && "user"@[1] == 's',
        "value"@.len() == 5 && "value"@[1] == 'a',
        "version"@.len() == 7 && "version"@[0] == 'v' && "version"@[3] == 's',
        "workspace"@.len() == 9 && "workspace"@[0] == 'w',
{
    reveal_strlit("TaskCreate");
    reveal_strlit("TaskGet");
    reveal_strlit("TaskList");
    reveal_strlit("TaskUpdate");
    reveal_strlit("TodoWrite");
    reveal_strlit("_meta");
    reveal_strlit("addDirectories");
    reveal_strlit("addRules");
    reveal_strlit("allow");
    reveal_strlit("allow_always");
    reveal_strlit("allow_once");
    reveal_strlit("ask");
    reveal_strlit("behavior");
    reveal_strlit("cancelled");
    reveal_strlit("changes");
    reveal_strlit("claudeCode");
    reveal_strlit("content");
    reveal_strlit("deny");
    reveal_strlit("description");
    reveal_strlit("destination");
    reveal_strlit("directory");
    reveal_strlit("filesystem");
    reveal_strlit("id");
    reveal_strlit("input");
    reveal_strlit("kind");
    reveal_strlit("lifetime");
    reveal_strlit("localSettings");
    reveal_strlit("locations");
    reveal_strlit("matcher");
    reveal_strlit("mcp_tool_use");
    reveal_strlit("message");
    reveal_strlit("mode");
    reveal_strlit("name");
    reveal_strlit("operation");
    reveal_strlit("optionId");
    reveal_strlit("options");
    reveal_strlit("parentToolUseId");
    reveal_strlit("path");
    reveal_strlit("permission");
    reveal_strlit("permission_mode");
    reveal_strlit("policy_rule");
    reveal_strlit("project");
    reveal_strlit("provider");
    reveal_strlit("provider_rule");
    reveal_strlit("rawInput");
    reveal_strlit("reject");
    reveal_strlit("reject_once");
    reveal_strlit("removeDirectories");
    reveal_strlit("removeRules");
    reveal_strlit("replaceRules");
    reveal_strlit("request_id");
    reveal_strlit("response");
    reveal_strlit("ruleBehavior");
    reveal_strlit("rules");
    reveal_strlit("scope");
    reveal_strlit("selected");
    reveal_strlit("server_tool_use");
    reveal_strlit("session");
    reveal_strlit("sessionId");
    reveal_strlit("setMode");
    reveal_strlit("skill");
    reveal_strlit("storage");
    reveal_strlit("subagent");
    reveal_strlit("subtype");
    reveal_strlit("targets");
    reveal_strlit("title");
    reveal_strlit("tool");
    reveal_strlit("toolCall");
    reveal_strlit("toolCallId");
    reveal_strlit("toolName");
    reveal_strlit("tool_use");
    reveal_strlit("type");
    reveal_strlit("updatedInput");
    reveal_strlit("updatedPermissions");
    reveal_strlit("user");
    reveal_strlit("value");
    reveal_strlit("version");
    reveal_strlit("workspace");
}

/// Tells the words apart, by their lengths and letters.
proof fn lemma_content_words()
    ensures
        "content"@.len() == 7 && "content"@[0] == 'c',
        "data"@.len() == 4 && "data"@[0] == 'd' && "data"@[2] == 't',
        "diff"@.len() == 4 && "diff"@[0] == 'd' && "diff"@[2] == 'f',
        "image"@.len() == 5,
        "line"@.len() == 4 && "line"@[0] == 'l' && "line"@[2] == 'n',
        "mimeType"@.len() == 8,
        "newText"@.len() == 7 && "newText"@[0] == 'n',
        "oldText"@.len() == 7 && "oldText"@[0] == 'o',
        "path"@.len() == 4 && "path"@[0] == 'p' && "path"@[2] == 't',
        "text"@.len() == 4 && "text"@[0] == 't' && "text"@[2] == 'x',
        "type"@.len() == 4 && "type"@[0] == 't' && "type"@[2] == 'p',
{
    reveal_strlit("content");
    reveal_strlit("data");
    reveal_strlit("diff");
    reveal_strlit("image");
    reveal_strlit("line");
    reveal_strlit("mimeType");
    reveal_strlit("newText");
    reveal_strlit("oldText");
    reveal_strlit("path");
    reveal_strlit("text");
    reveal_strlit("type");
}

} // verus!

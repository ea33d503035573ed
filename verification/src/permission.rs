//! Permission to run a tool: the question to the client, made from the agent's
//! `can_use_tool` request, and the answer to the agent, made from what the
//! client chose.

use vstd::prelude::*;
use vstd::string::*;

use crate::acp::{contents_json, contents_to_json, locations, locations_json, locations_to_json, opt_string, SessionUpdate, ToolCall, ToolCallSpec, ToolCallStatus, UpdateSpec};
use crate::json::{empty_object, jsons, opt_text, uint, Json, JsonSpec};
use crate::map::{opt_update, or_null, MapSpec, MapState};
use crate::strs::{join, joined, str_eq, texts};
use crate::tools::{code_meta, meta_of, shape_of, tool_meta, tool_shape};

verus! {

/// What the agent is told when a tool must not run.
pub const DENY_MESSAGE: &'static str = "User refused permission to run tool";

/// What the client chose.
#[derive(Debug, Clone, Copy, PartialEq, Eq, Structural)]
pub enum Outcome {
    /// This call may run.
    Allow,
    /// This call may run, and calls like it from now on.
    AllowAlways,
    /// This call must not run.
    Deny,
    /// The question was withdrawn.
    Cancelled,
}

/// What an answer of the client stands for. Whatever is not understood is a
/// refusal.
pub open spec fn outcome_of(response: JsonSpec) -> Outcome {
    let kind = response.str_or_empty("outcome"@);
    let option = response.str_or_empty("optionId"@);
    if kind == "cancelled"@ {
        Outcome::Cancelled
    } else if kind == "selected"@ && option == "allow_always"@ {
        Outcome::AllowAlways
    } else if kind == "selected"@ && option == "allow"@ {
        Outcome::Allow
    } else {
        Outcome::Deny
    }
}

/// What an answer of the client stands for.
pub fn map_outcome(response: &Json) -> (r: Outcome)
    ensures
        r == outcome_of(response@),
{
    let kind = response.str_or_empty("outcome");
    if str_eq(kind, "cancelled") {
        Outcome::Cancelled
    } else if str_eq(kind, "selected") {
        let option = response.str_or_empty("optionId");
        if str_eq(option, "allow_always") {
            Outcome::AllowAlways
        } else if str_eq(option, "allow") {
            Outcome::Allow
        } else {
            Outcome::Deny
        }
    } else {
        Outcome::Deny
    }
}

/// A text member, or what stands in for it.
pub open spec fn str_or(j: JsonSpec, key: Seq<char>, default: Seq<char>) -> Seq<char> {
    match j.get_str(key) {
        Some(s) => s,
        None => default,
    }
}

fn text_or_else<'a>(j: &'a Json, key: &str, default: &'a str) -> (r: &'a str)
    ensures
        r@ == str_or(j@, key@, default@),
{
    match j.get_str(key) {
        Some(s) => s,
        None => default,
    }
}

/// How long a change of the rules lasts.
pub open spec fn lifetime(destination: Seq<char>) -> JsonSpec {
    if destination == "user"@ {
        empty_object().with("scope"@, JsonSpec::Str("user"@))
    } else if destination == "workspace"@ {
        empty_object().with("scope"@, JsonSpec::Str("workspace"@))
    } else if destination == "project"@ {
        empty_object().with("scope"@, JsonSpec::Str("persistent"@)).with(
            "storage"@,
            JsonSpec::Str("project"@),
        )
    } else if destination == "localSettings"@ {
        empty_object().with("scope"@, JsonSpec::Str("persistent"@)).with(
            "storage"@,
            JsonSpec::Str("project_local"@),
        )
    } else {
        empty_object().with("scope"@, JsonSpec::Str("session"@))
    }
}

fn permission_lifetime(destination: &str) -> (r: Json)
    ensures
        r@ == lifetime(destination@),
{
    if str_eq(destination, "user") {
        Json::object().with("scope", Json::text("user"))
    } else if str_eq(destination, "workspace") {
        Json::object().with("scope", Json::text("workspace"))
    } else if str_eq(destination, "project") {
        Json::object().with("scope", Json::text("persistent")).with(
            "storage",
            Json::text("project"),
        )
    } else if str_eq(destination, "localSettings") {
        Json::object().with("scope", Json::text("persistent")).with(
            "storage",
            Json::text("project_local"),
        )
    } else {
        Json::object().with("scope", Json::text("session"))
    }
}

/// The rule that allows a tool for the session.
pub open spec fn default_suggestion(tool_name: Seq<char>) -> JsonSpec {
    JsonSpec::Array(
        seq![
            empty_object().with("type"@, JsonSpec::Str("addRules"@)).with(
                "rules"@,
                JsonSpec::Array(
                    seq![empty_object().with("toolName"@, JsonSpec::Str(tool_name))],
                ),
            ).with("behavior"@, JsonSpec::Str("allow"@)).with(
                "destination"@,
                JsonSpec::Str("session"@),
            ),
        ],
    )
}

/// The suggested changes; without any, the rule that allows the tool for the
/// session.
pub open spec fn effective(suggestions: JsonSpec, tool_name: Seq<char>) -> JsonSpec {
    match suggestions {
        JsonSpec::Array(a) => if a.len() > 0 {
            suggestions
        } else {
            default_suggestion(tool_name)
        },
        _ => default_suggestion(tool_name),
    }
}

fn one(j: Json) -> (r: Json)
    ensures
        r@ == JsonSpec::Array(seq![j@]),
{
    let mut v: Vec<Json> = Vec::new();
    v.push(j);
    proof {
        assert(jsons(v@) =~= seq![j@]);
    }
    Json::array(v)
}

fn effective_suggestions(suggestions: &Json, tool_name: &str) -> (r: Json)
    ensures
        r@ == effective(suggestions@, tool_name@),
{
    if let Some(a) = suggestions.as_array() {
        if a.len() > 0 {
            return suggestions.copy();
        }
    }
    one(
        Json::object().with("type", Json::text("addRules")).with(
            "rules",
            one(Json::object().with("toolName", Json::text(tool_name))),
        ).with("behavior", Json::text("allow")).with("destination", Json::text("session")),
    )
}

/// What a rule is about.
pub open spec fn rule_target(rule: JsonSpec) -> JsonSpec {
    let target = empty_object().with("type"@, JsonSpec::Str("tool"@)).with(
        "toolName"@,
        or_null(rule.get("toolName"@)),
    );
    match rule.get_str("ruleContent"@) {
        Some(content) => target.with(
            "matcher"@,
            empty_object().with("type"@, JsonSpec::Str("provider_rule"@)).with(
                "provider"@,
                JsonSpec::Str("claudeCode"@),
            ).with("value"@, JsonSpec::Str(content)),
        ),
        None => target,
    }
}

/// A rule in words.
pub open spec fn rule_words(rule: JsonSpec) -> Seq<char> {
    let name = rule.str_or_empty("toolName"@);
    match rule.get_str("ruleContent"@) {
        Some(content) => name + " calls matching "@ + content,
        None => "all "@ + name + " calls"@,
    }
}

/// The list under `key`; the empty list if there is none.
pub open spec fn list_or_empty(j: JsonSpec, key: Seq<char>) -> Seq<JsonSpec> {
    match j.get_array(key) {
        Some(a) => a,
        None => Seq::empty(),
    }
}

/// What a change does to the rules.
pub open spec fn rules_operation(op: Seq<char>) -> Seq<char> {
    if op == "removeRules"@ {
        "remove"@
    } else if op == "replaceRules"@ {
        "replace"@
    } else {
        "add"@
    }
}

/// What a change does to the rules, in words.
pub open spec fn rules_verb(op: Seq<char>, behavior: Seq<char>) -> Seq<char> {
    if op == "removeRules"@ {
        "Remove "@ + behavior + " rules for"@
    } else if op == "replaceRules"@ {
        "Replace "@ + behavior + " rules with"@
    } else if behavior == "deny"@ {
        "Deny"@
    } else if behavior == "ask"@ {
        "Ask before"@
    } else {
        "Allow"@
    }
}

/// A change of the rules.
pub open spec fn rules_change(update: JsonSpec, op: Seq<char>) -> JsonSpec {
    let behavior = str_or(update, "behavior"@, "allow"@);
    let rules = list_or_empty(update, "rules"@);
    let words = joined(Seq::new(rules.len(), |i: int| rule_words(rules[i])), ", "@);
    empty_object().with("type"@, JsonSpec::Str("policy_rule"@)).with(
        "operation"@,
        JsonSpec::Str(rules_operation(op)),
    ).with("ruleBehavior"@, JsonSpec::Str(behavior)).with(
        "description"@,
        JsonSpec::Str(rules_verb(op, behavior) + " "@ + words),
    ).with("lifetime"@, lifetime(str_or(update, "destination"@, "session"@))).with(
        "targets"@,
        JsonSpec::Array(Seq::new(rules.len(), |i: int| rule_target(rules[i]))),
    )
}

/// The text of a value that is one, else the empty text.
pub open spec fn text_of(j: JsonSpec) -> Seq<char> {
    match j.as_str() {
        Some(s) => s,
        None => Seq::empty(),
    }
}

/// A directory that a change is about.
pub open spec fn directory_target(d: JsonSpec) -> JsonSpec {
    empty_object().with("type"@, JsonSpec::Str("filesystem"@)).with(
        "matcher"@,
        empty_object().with("type"@, JsonSpec::Str("directory"@)).with("path"@, d),
    )
}

/// A change of the directories.
pub open spec fn directories_change(update: JsonSpec, op: Seq<char>) -> JsonSpec {
    let removes = op == "removeDirectories"@;
    let dirs = list_or_empty(update, "directories"@);
    let words = joined(Seq::new(dirs.len(), |i: int| text_of(dirs[i])), ", "@);
    empty_object().with("type"@, JsonSpec::Str("policy_rule"@)).with(
        "operation"@,
        JsonSpec::Str(
            if removes {
                "remove"@
            } else {
                "add"@
            },
        ),
    ).with("ruleBehavior"@, JsonSpec::Str("allow"@)).with(
        "description"@,
        JsonSpec::Str(
            if removes {
                "Remove additional filesystem access under "@ + words
            } else {
                "Allow filesystem access under "@ + words
            },
        ),
    ).with("lifetime"@, lifetime(str_or(update, "destination"@, "session"@))).with(
        "targets"@,
        JsonSpec::Array(Seq::new(dirs.len(), |i: int| directory_target(dirs[i]))),
    )
}

/// A change of the mode.
pub open spec fn mode_change(update: JsonSpec) -> JsonSpec {
    empty_object().with("type"@, JsonSpec::Str("permission_mode"@)).with(
        "operation"@,
        JsonSpec::Str("set"@),
    ).with("provider"@, JsonSpec::Str("claudeCode"@)).with(
        "mode"@,
        or_null(update.get("mode"@)),
    ).with(
        "description"@,
        JsonSpec::Str("Set permission mode to "@ + update.str_or_empty("mode"@)),
    ).with("lifetime"@, lifetime(str_or(update, "destination"@, "session"@)))
}

/// A suggested change as the client is told of it; none for a change that is
/// not known.
pub open spec fn change_of(update: JsonSpec) -> Option<JsonSpec> {
    let op = update.str_or_empty("type"@);
    if op == "addRules"@ || op == "removeRules"@ || op == "replaceRules"@ {
        Some(rules_change(update, op))
    } else if op == "addDirectories"@ || op == "removeDirectories"@ {
        Some(directories_change(update, op))
    } else if op == "setMode"@ {
        Some(mode_change(update))
    } else {
        None
    }
}

/// The known changes of a list, in order.
pub open spec fn changes_of(a: Seq<JsonSpec>) -> Seq<JsonSpec>
    decreases a.len(),
{
    if a.len() == 0 {
        Seq::empty()
    } else {
        match change_of(a.last()) {
            Some(c) => changes_of(a.drop_last()).push(c),
            None => changes_of(a.drop_last()),
        }
    }
}

/// What the client is told would change if it always allowed the tool.
pub open spec fn always_allow_meta(suggestions: JsonSpec, tool_name: Seq<char>) -> JsonSpec {
    empty_object().with("version"@, uint(1)).with(
        "changes"@,
        JsonSpec::Array(changes_of(effective(suggestions, tool_name)->Array_0)),
    )
}

fn target_of_rule(rule: &Json) -> (r: Json)
    ensures
        r@ == rule_target(rule@),
{
    let name = match rule.get("toolName") {
        Some(n) => n.copy(),
        None => Json::Null,
    };
    let target = Json::object().with("type", Json::text("tool")).with("toolName", name);
    match rule.get_str("ruleContent") {
        Some(content) => target.with(
            "matcher",
            Json::object().with("type", Json::text("provider_rule")).with(
                "provider",
                Json::text("claudeCode"),
            ).with("value", Json::text(content)),
        ),
        None => target,
    }
}

fn words_of_rule(rule: &Json) -> (r: String)
    ensures
        r@ == rule_words(rule@),
{
    let name = rule.str_or_empty("toolName");
    match rule.get_str("ruleContent") {
        Some(content) => {
            let mut r = name.to_owned();
            r.append(" calls matching ");
            r.append(content);
            r
        },
        None => {
            let mut r = "all ".to_owned();
            r.append(name);
            r.append(" calls");
            r
        },
    }
}

fn verb_of_rules(op: &str, behavior: &str) -> (r: String)
    ensures
        r@ == rules_verb(op@, behavior@),
{
    if str_eq(op, "removeRules") {
        let mut r = "Remove ".to_owned();
        r.append(behavior);
        r.append(" rules for");
        r
    } else if str_eq(op, "replaceRules") {
        let mut r = "Replace ".to_owned();
        r.append(behavior);
        r.append(" rules with");
        r
    } else if str_eq(behavior, "deny") {
        "Deny".to_owned()
    } else if str_eq(behavior, "ask") {
        "Ask before".to_owned()
    } else {
        "Allow".to_owned()
    }
}

fn change_of_rules(update: &Json, op: &str) -> (r: Json)
    ensures
        r@ == rules_change(update@, op@),
{
    let behavior = text_or_else(update, "behavior", "allow");
    let mut targets: Vec<Json> = Vec::new();
    let mut words: Vec<String> = Vec::new();
    let ghost list = list_or_empty(update@, "rules"@);
    if let Some(rules) = update.get_array("rules") {
        let mut i: usize = 0;
        while i < rules.len()
            invariant
                i <= rules@.len(),
                list == jsons(rules@),
                targets@.len() == i,
                words@.len() == i,
                forall|k: int| 0 <= k < i ==> (#[trigger] targets@[k])@ == rule_target(list[k]),
                forall|k: int| 0 <= k < i ==> (#[trigger] words@[k])@ == rule_words(list[k]),
            decreases rules@.len() - i,
        {
            targets.push(target_of_rule(&rules[i]));
            words.push(words_of_rule(&rules[i]));
            i += 1;
        }
    }
    proof {
        assert(jsons(targets@) =~= Seq::new(list.len(), |i: int| rule_target(list[i])));
        assert(texts(words@) =~= Seq::new(list.len(), |i: int| rule_words(list[i])));
    }
    let operation = if str_eq(op, "removeRules") {
        "remove"
    } else if str_eq(op, "replaceRules") {
        "replace"
    } else {
        "add"
    };
    let mut description = verb_of_rules(op, behavior);
    description.append(" ");
    description.append(join(&words, ", ").as_str());
    Json::object().with("type", Json::text("policy_rule")).with(
        "operation",
        Json::text(operation),
    ).with("ruleBehavior", Json::text(behavior)).with(
        "description",
        Json::text(description.as_str()),
    ).with("lifetime", permission_lifetime(text_or_else(update, "destination", "session"))).with(
        "targets",
        Json::array(targets),
    )
}

fn change_of_directories(update: &Json, op: &str) -> (r: Json)
    ensures
        r@ == directories_change(update@, op@),
{
    let removes = str_eq(op, "removeDirectories");
    let mut targets: Vec<Json> = Vec::new();
    let mut words: Vec<String> = Vec::new();
    let ghost list = list_or_empty(update@, "directories"@);
    if let Some(dirs) = update.get_array("directories") {
        let mut i: usize = 0;
        while i < dirs.len()
            invariant
                i <= dirs@.len(),
                list == jsons(dirs@),
                targets@.len() == i,
                words@.len() == i,
                forall|k: int| 0 <= k < i ==> (#[trigger] targets@[k])@ == directory_target(list[k]),
                forall|k: int| 0 <= k < i ==> (#[trigger] words@[k])@ == text_of(list[k]),
            decreases dirs@.len() - i,
        {
            targets.push(
                Json::object().with("type", Json::text("filesystem")).with(
                    "matcher",
                    Json::object().with("type", Json::text("directory")).with(
                        "path",
                        dirs[i].copy(),
                    ),
                ),
            );
            words.push(
                match dirs[i].as_str() {
                    Some(s) => s.to_owned(),
                    None => String::new(),
                },
            );
            i += 1;
        }
    }
    proof {
        assert(jsons(targets@) =~= Seq::new(list.len(), |i: int| directory_target(list[i])));
        assert(texts(words@) =~= Seq::new(list.len(), |i: int| text_of(list[i])));
    }
    let mut description = if removes {
        "Remove additional filesystem access under ".to_owned()
    } else {
        "Allow filesystem access under ".to_owned()
    };
    description.append(join(&words, ", ").as_str());
    Json::object().with("type", Json::text("policy_rule")).with(
        "operation",
        Json::text(
            if removes {
                "remove"
            } else {
                "add"
            },
        ),
    ).with("ruleBehavior", Json::text("allow")).with(
        "description",
        Json::text(description.as_str()),
    ).with("lifetime", permission_lifetime(text_or_else(update, "destination", "session"))).with(
        "targets",
        Json::array(targets),
    )
}

fn change_of_mode(update: &Json) -> (r: Json)
    ensures
        r@ == mode_change(update@),
{
    let mode = match update.get("mode") {
        Some(m) => m.copy(),
        None => Json::Null,
    };
    let mut description = "Set permission mode to ".to_owned();
    description.append(update.str_or_empty("mode"));
    Json::object().with("type", Json::text("permission_mode")).with(
        "operation",
        Json::text("set"),
    ).with("provider", Json::text("claudeCode")).with("mode", mode).with(
        "description",
        Json::text(description.as_str()),
    ).with("lifetime", permission_lifetime(text_or_else(update, "destination", "session")))
}

fn change(update: &Json) -> (r: Option<Json>)
    ensures
        r matches Some(j) ==> change_of(update@) == Some(j@),
        r is None ==> change_of(update@) is None,
{
    let op = update.str_or_empty("type");
    if str_eq(op, "addRules") || str_eq(op, "removeRules") || str_eq(op, "replaceRules") {
        Some(change_of_rules(update, op))
    } else if str_eq(op, "addDirectories") || str_eq(op, "removeDirectories") {
        Some(change_of_directories(update, op))
    } else if str_eq(op, "setMode") {
        Some(change_of_mode(update))
    } else {
        None
    }
}

/// What the client is told would change if it always allowed the tool.
pub fn permission_metadata_for_always_allow(suggestions: &Json, tool_name: &str) -> (r: Json)
    ensures
        r@ == always_allow_meta(suggestions@, tool_name@),
{
    let all = effective_suggestions(suggestions, tool_name);
    let mut changes: Vec<Json> = Vec::new();
    proof {
        assert(jsons(changes@) =~= Seq::<JsonSpec>::empty());
    }
    if let Some(a) = all.as_array() {
        let mut i: usize = 0;
        while i < a.len()
            invariant
                i <= a@.len(),
                jsons(changes@) == changes_of(jsons(a@).take(i as int)),
            decreases a@.len() - i,
        {
            let ghost before = jsons(changes@);
            proof {
                let list = jsons(a@);
                assert(list.take(i + 1).drop_last() =~= list.take(i as int));
                assert(list.take(i + 1).last() == a@[i as int]@);
            }
            if let Some(c) = change(&a[i]) {
                changes.push(c);
                proof {
                    assert(jsons(changes@) =~= before.push(c@));
                }
            }
            i += 1;
        }
        proof {
            assert(jsons(a@).take(i as int) =~= jsons(a@));
        }
    }
    Json::object().with("version", Json::uint(1)).with("changes", Json::array(changes))
}

/// One of the answers that the client can choose.
pub open spec fn option_json(kind: Seq<char>, name: Seq<char>, id: Seq<char>) -> JsonSpec {
    empty_object().with("kind"@, JsonSpec::Str(kind)).with("name"@, JsonSpec::Str(name)).with(
        "optionId"@,
        JsonSpec::Str(id),
    )
}

fn option(kind: &str, name: &str, id: &str) -> (r: Json)
    ensures
        r@ == option_json(kind@, name@, id@),
{
    Json::object().with("kind", Json::text(kind)).with("name", Json::text(name)).with(
        "optionId",
        Json::text(id),
    )
}

/// The question to the client.
pub open spec fn request_json(
    session_id: Seq<char>,
    tool_call: JsonSpec,
    tool_name: Seq<char>,
    suggestions: JsonSpec,
) -> JsonSpec {
    empty_object().with(
        "options"@,
        JsonSpec::Array(
            seq![
                option_json("reject_once"@, "Deny"@, "reject"@),
                option_json("allow_once"@, "Allow Once"@, "allow"@),
                option_json("allow_always"@, "Always Allow"@, "allow_always"@).with(
                    "_meta"@,
                    empty_object().with("permission"@, always_allow_meta(suggestions, tool_name)),
                ),
            ],
        ),
    ).with("sessionId"@, JsonSpec::Str(session_id)).with("toolCall"@, tool_call)
}

/// The parameters of `session/request_permission`.
pub fn build_request_permission(
    session_id: &str,
    tool_call: Json,
    tool_name: &str,
    suggestions: &Json,
) -> (r: Json)
    ensures
        r@ == request_json(session_id@, tool_call@, tool_name@, suggestions@),
{
    let meta = permission_metadata_for_always_allow(suggestions, tool_name);
    let mut options: Vec<Json> = Vec::new();
    options.push(option("reject_once", "Deny", "reject"));
    options.push(option("allow_once", "Allow Once", "allow"));
    options.push(
        option("allow_always", "Always Allow", "allow_always").with(
            "_meta",
            Json::object().with("permission", meta),
        ),
    );
    proof {
        assert(jsons(options@) =~= seq![
            option_json("reject_once"@, "Deny"@, "reject"@),
            option_json("allow_once"@, "Allow Once"@, "allow"@),
            option_json("allow_always"@, "Always Allow"@, "allow_always"@).with(
                "_meta"@,
                empty_object().with("permission"@, always_allow_meta(suggestions@, tool_name@)),
            ),
        ]);
    }
    Json::object().with("options", Json::array(options)).with(
        "sessionId",
        Json::text(session_id),
    ).with("toolCall", tool_call)
}

/// The tool call that a question is about, as it is shown elsewhere. A call of a
/// subagent names the call that the subagent runs for.
pub open spec fn tool_call_json(
    tool_name: Seq<char>,
    tool_input: JsonSpec,
    tool_use_id: Seq<char>,
    parent: Option<Seq<char>>,
) -> JsonSpec {
    let shape = shape_of(tool_name, tool_input);
    let base = empty_object().with("toolCallId"@, JsonSpec::Str(tool_use_id)).with(
        "rawInput"@,
        tool_input,
    ).with("kind"@, JsonSpec::Str(shape.kind.spelled())).with(
        "title"@,
        JsonSpec::Str(shape.title),
    ).with("content"@, contents_json(shape.content));
    let located = if shape.locations.len() > 0 {
        base.with("locations"@, locations_json(shape.locations))
    } else {
        base
    };
    match parent {
        Some(p) => located.with(
            "_meta"@,
            empty_object().with(
                "claudeCode"@,
                empty_object().with("toolName"@, JsonSpec::Str(tool_name)).with(
                    "parentToolUseId"@,
                    JsonSpec::Str(p),
                ),
            ),
        ),
        None => located,
    }
}

/// The tool call that a question is about.
pub fn build_tool_call(
    tool_name: &str,
    tool_input: &Json,
    tool_use_id: &str,
    parent_tool_use_id: Option<&str>,
) -> (r: Json)
    ensures
        r@ == tool_call_json(tool_name@, tool_input@, tool_use_id@, opt_text(parent_tool_use_id)),
{
    let shape = tool_shape(tool_name, tool_input);
    let base = Json::object().with("toolCallId", Json::text(tool_use_id)).with(
        "rawInput",
        tool_input.copy(),
    ).with("kind", Json::text(shape.kind.as_str())).with(
        "title",
        Json::text(shape.title.as_str()),
    ).with("content", contents_to_json(&shape.content));
    let located = if shape.locations.len() > 0 {
        base.with("locations", locations_to_json(&shape.locations))
    } else {
        base
    };
    match parent_tool_use_id {
        Some(p) => located.with(
            "_meta",
            Json::object().with(
                "claudeCode",
                Json::object().with("toolName", Json::text(tool_name)).with(
                    "parentToolUseId",
                    Json::text(p),
                ),
            ),
        ),
        None => located,
    }
}

/// The use of a tool, as it stands in a message.
pub open spec fn use_block(
    tool_name: Seq<char>,
    tool_input: JsonSpec,
    tool_use_id: Seq<char>,
) -> JsonSpec {
    empty_object().with("type"@, JsonSpec::Str("tool_use"@)).with(
        "id"@,
        JsonSpec::Str(tool_use_id),
    ).with("name"@, JsonSpec::Str(tool_name)).with("input"@, tool_input)
}

/// The metadata of a tool call that a question is about.
pub open spec fn asked_meta(
    tool_name: Seq<char>,
    tool_input: JsonSpec,
    parent: Option<Seq<char>>,
) -> JsonSpec {
    match parent {
        Some(p) => empty_object().with(
            "claudeCode"@,
            code_meta(tool_name, tool_input).with("parentToolUseId"@, JsonSpec::Str(p)),
        ),
        None => meta_of(tool_name, tool_input),
    }
}

/// The tool call that a question is about, as the client is first shown it.
pub open spec fn asked_call(
    tool_name: Seq<char>,
    tool_input: JsonSpec,
    tool_use_id: Seq<char>,
    parent: Option<Seq<char>>,
) -> UpdateSpec {
    let shape = shape_of(tool_name, tool_input);
    UpdateSpec::ToolCall(
        ToolCallSpec {
            id: tool_use_id,
            title: shape.title,
            kind: shape.kind,
            status: ToolCallStatus::Pending,
            content: shape.content,
            locations: shape.locations,
            raw_input: Some(tool_input),
            meta: asked_meta(tool_name, tool_input, parent),
        },
    )
}

/// The tool call that a question is about, if the client has not seen it. From
/// then on it counts as seen.
pub fn ensure_tool_call_emitted(
    tool_name: &str,
    tool_input: &Json,
    tool_use_id: &str,
    parent_tool_use_id: Option<&str>,
    state: &mut MapState,
) -> (r: Option<SessionUpdate>)
    ensures
        old(state)@.emitted.contains(tool_use_id@) ==> r is None && final(state)@ == old(state)@,
        !old(state)@.emitted.contains(tool_use_id@) ==> opt_update(r) == Some(
            asked_call(tool_name@, tool_input@, tool_use_id@, opt_text(parent_tool_use_id)),
        ) && final(state)@ == old(state)@.marked(
            tool_use_id@,
            use_block(tool_name@, tool_input@, tool_use_id@),
        ),
{
    if state.has_emitted(tool_use_id) {
        return None;
    }
    state.mark_emitted(
        tool_use_id,
        Json::object().with("type", Json::text("tool_use")).with("id", Json::text(tool_use_id)).with(
            "name",
            Json::text(tool_name),
        ).with("input", tool_input.copy()),
    );
    let shape = tool_shape(tool_name, tool_input);
    let meta = match parent_tool_use_id {
        Some(p) => Json::object().with(
            "claudeCode",
            crate::tools::claude_code_meta(tool_name, tool_input).with(
                "parentToolUseId",
                Json::text(p),
            ),
        ),
        None => tool_meta(tool_name, tool_input),
    };
    Some(
        SessionUpdate::ToolCall(
            ToolCall {
                tool_call_id: tool_use_id.to_owned(),
                title: shape.title,
                kind: shape.kind,
                status: ToolCallStatus::Pending,
                content: shape.content,
                locations: shape.locations,
                raw_input: Some(tool_input.copy()),
                meta,
            },
        ),
    )
}

/// A successful answer to a control request.
pub open spec fn control_success(request_id: Seq<char>, response: JsonSpec) -> JsonSpec {
    empty_object().with("type"@, JsonSpec::Str("control_response"@)).with(
        "response"@,
        empty_object().with("subtype"@, JsonSpec::Str("success"@)).with(
            "request_id"@,
            JsonSpec::Str(request_id),
        ).with("response"@, response),
    )
}

fn success(request_id: &str, response: Json) -> (r: Json)
    ensures
        r@ == control_success(request_id@, response@),
{
    Json::object().with("type", Json::text("control_response")).with(
        "response",
        Json::object().with("subtype", Json::text("success")).with(
            "request_id",
            Json::text(request_id),
        ).with("response", response),
    )
}

/// The refusal that the agent is sent. It does not interrupt the turn.
pub open spec fn denial(request_id: Seq<char>) -> JsonSpec {
    control_success(
        request_id,
        empty_object().with("behavior"@, JsonSpec::Str("deny"@)).with(
            "message"@,
            JsonSpec::Str(DENY_MESSAGE@),
        ),
    )
}

/// The refusal that the agent is sent.
pub fn deny_control_response(request_id: &str) -> (r: Json)
    ensures
        r@ == denial(request_id@),
{
    success(
        request_id,
        Json::object().with("behavior", Json::text("deny")).with(
            "message",
            Json::text(DENY_MESSAGE),
        ),
    )
}

/// The permission for one call that the agent is sent.
pub open spec fn allowance(request_id: Seq<char>, updated_input: JsonSpec) -> JsonSpec {
    control_success(
        request_id,
        empty_object().with("behavior"@, JsonSpec::Str("allow"@)).with(
            "updatedInput"@,
            updated_input,
        ),
    )
}

/// The permission for one call that the agent is sent.
pub fn allow_control_response(request_id: &str, updated_input: &Json) -> (r: Json)
    ensures
        r@ == allowance(request_id@, updated_input@),
{
    success(
        request_id,
        Json::object().with("behavior", Json::text("allow")).with(
            "updatedInput",
            updated_input.copy(),
        ),
    )
}

/// The lasting permission that the agent is sent, with the rules to keep.
pub open spec fn lasting_allowance(
    request_id: Seq<char>,
    updated_input: JsonSpec,
    tool_name: Seq<char>,
    suggestions: JsonSpec,
) -> JsonSpec {
    control_success(
        request_id,
        empty_object().with("behavior"@, JsonSpec::Str("allow"@)).with(
            "updatedInput"@,
            updated_input,
        ).with("updatedPermissions"@, effective(suggestions, tool_name)),
    )
}

/// The lasting permission that the agent is sent.
pub fn allow_always_control_response(
    request_id: &str,
    updated_input: &Json,
    tool_name: &str,
    suggestions: &Json,
) -> (r: Json)
    ensures
        r@ == lasting_allowance(request_id@, updated_input@, tool_name@, suggestions@),
{
    success(
        request_id,
        Json::object().with("behavior", Json::text("allow")).with(
            "updatedInput",
            updated_input.copy(),
        ).with("updatedPermissions", effective_suggestions(suggestions, tool_name)),
    )
}

/// Whether a request asks for permission. Other requests are not known.
pub open spec fn asks_permission(frame: JsonSpec) -> bool {
    frame.get("request"@) matches Some(request) && request.str_or_empty("subtype"@)
        == "can_use_tool"@
}

/// Whether a request asks for permission.
pub fn is_can_use_tool(frame: &Json) -> (r: bool)
    ensures
        r == asks_permission(frame@),
{
    match frame.get("request") {
        Some(request) => str_eq(request.str_or_empty("subtype"), "can_use_tool"),
        None => false,
    }
}

/// A `can_use_tool` request of the agent.
pub struct CanUseTool {
    /// The tool.
    pub tool_name: String,
    /// Its input.
    pub tool_input: Json,
    /// The tool call that the request is about.
    pub tool_use_id: String,
    /// The subagent that asks, if one does.
    pub agent_id: Option<String>,
    /// The suggested changes of the rules.
    pub suggestions: Json,
    /// The request to answer.
    pub request_id: String,
}

/// What a `can_use_tool` request holds.
pub struct CanUseToolSpec {
    pub tool_name: Seq<char>,
    pub tool_input: JsonSpec,
    pub tool_use_id: Seq<char>,
    pub agent_id: Option<Seq<char>>,
    pub suggestions: JsonSpec,
    pub request_id: Seq<char>,
}

impl CanUseTool {
    /// What the request holds.
    pub open spec fn view(&self) -> CanUseToolSpec {
        CanUseToolSpec {
            tool_name: self.tool_name@,
            tool_input: self.tool_input@,
            tool_use_id: self.tool_use_id@,
            agent_id: opt_string(self.agent_id),
            suggestions: self.suggestions@,
            request_id: self.request_id@,
        }
    }
}

/// What a frame asks for.
pub open spec fn can_use_tool(frame: JsonSpec) -> CanUseToolSpec {
    let req = or_null(frame.get("request"@));
    CanUseToolSpec {
        tool_name: str_or(req, "tool_name"@, "Other"@),
        tool_input: or_null(req.get("input"@)),
        tool_use_id: req.str_or_empty("tool_use_id"@),
        agent_id: if req.str_or_empty("agent_id"@).len() > 0 {
            Some(req.str_or_empty("agent_id"@))
        } else {
            None
        },
        suggestions: match req.get("permission_suggestions"@) {
            Some(s) => s,
            None => JsonSpec::Array(Seq::empty()),
        },
        request_id: frame.str_or_empty("request_id"@),
    }
}

/// Reads a `can_use_tool` request.
pub fn parse_can_use_tool(frame: &Json) -> (r: CanUseTool)
    ensures
        r@ == can_use_tool(frame@),
{
    let none = Json::Null;
    let req = match frame.get("request") {
        Some(q) => q,
        None => &none,
    };
    let agent = req.str_or_empty("agent_id");
    let empty: Vec<Json> = Vec::new();
    proof {
        assert(jsons(empty@) =~= Seq::<JsonSpec>::empty());
    }
    CanUseTool {
        tool_name: text_or_else(req, "tool_name", "Other").to_owned(),
        tool_input: match req.get("input") {
            Some(i) => i.copy(),
            None => Json::Null,
        },
        tool_use_id: req.str_or_empty("tool_use_id").to_owned(),
        agent_id: if agent.is_empty() {
            None
        } else {
            Some(agent.to_owned())
        },
        suggestions: match req.get("permission_suggestions") {
            Some(s) => s.copy(),
            None => Json::array(empty),
        },
        request_id: frame.str_or_empty("request_id").to_owned(),
    }
}

/// The answer to the agent, by what the client chose: only an explicit choice to
/// allow lets the tool run.
pub open spec fn answer(outcome: Outcome, request: CanUseToolSpec) -> JsonSpec {
    match outcome {
        Outcome::Allow => allowance(request.request_id, request.tool_input),
        Outcome::AllowAlways => lasting_allowance(
            request.request_id,
            request.tool_input,
            request.tool_name,
            request.suggestions,
        ),
        Outcome::Deny => denial(request.request_id),
        Outcome::Cancelled => denial(request.request_id),
    }
}

/// The answer to the agent, by what the client chose.
pub fn control_answer(outcome: Outcome, request: &CanUseTool) -> (r: Json)
    ensures
        r@ == answer(outcome, request@),
{
    match outcome {
        Outcome::Allow => allow_control_response(
            request.request_id.as_str(),
            &request.tool_input,
        ),
        Outcome::AllowAlways => allow_always_control_response(
            request.request_id.as_str(),
            &request.tool_input,
            request.tool_name.as_str(),
            &request.suggestions,
        ),
        Outcome::Deny => deny_control_response(request.request_id.as_str()),
        Outcome::Cancelled => deny_control_response(request.request_id.as_str()),
    }
}

/// A tool runs only if the client selected one of the two answers that allow it:
/// any other answer, and any that is not understood, refuses it.
pub proof fn law_only_explicit_choice_allows(response: JsonSpec, request: CanUseToolSpec)
    requires
        !(response.str_or_empty("outcome"@) == "selected"@ && (response.str_or_empty("optionId"@)
            == "allow"@ || response.str_or_empty("optionId"@) == "allow_always"@)),
    ensures
        answer(outcome_of(response), request) == denial(request.request_id),
{
}

/// A refusal carries no interrupt: the turn goes on.
pub proof fn law_denial_does_not_interrupt(request_id: Seq<char>)
    ensures
        denial(request_id).get("response"@) is Some,
        denial(request_id).get("response"@)->0.get("response"@) is Some,
        denial(request_id).get("response"@)->0.get("response"@)->0.get("interrupt"@) is None,
        denial(request_id).get("response"@)->0.get("response"@)->0.get_str("behavior"@) == Some(
            "deny"@,
        ),
{
    reveal_strlit("type");
    reveal_strlit("response");
    reveal_strlit("subtype");
    reveal_strlit("request_id");
    reveal_strlit("behavior");
    reveal_strlit("message");
    reveal_strlit("interrupt");
    assert("type"@.len() == 4 && "response"@.len() == 8 && "subtype"@.len() == 7);
    assert("request_id"@.len() == 10 && "message"@.len() == 7 && "interrupt"@.len() == 9);
    assert("behavior"@[0] == 'b' && "response"@[0] == 'r');
    let none = Seq::<(Seq<char>, JsonSpec)>::empty();
    let deny = JsonSpec::Str("deny"@);
    let said = JsonSpec::Str(DENY_MESSAGE@);
    crate::json::law_stored_is_found(none, "behavior"@, deny);
    let one = crate::json::stored(none, "behavior"@, deny);
    crate::json::law_stored_keeps_others(one, "message"@, said, "behavior"@);
    crate::json::law_stored_keeps_others(none, "behavior"@, deny, "interrupt"@);
    crate::json::law_stored_keeps_others(one, "message"@, said, "interrupt"@);
    let inner = JsonSpec::Object(crate::json::stored(one, "message"@, said));
    let a = crate::json::stored(none, "subtype"@, JsonSpec::Str("success"@));
    let b = crate::json::stored(a, "request_id"@, JsonSpec::Str(request_id));
    crate::json::law_stored_is_found(b, "response"@, inner);
    let middle = JsonSpec::Object(crate::json::stored(b, "response"@, inner));
    let c = crate::json::stored(none, "type"@, JsonSpec::Str("control_response"@));
    crate::json::law_stored_is_found(c, "response"@, middle);
}

/// Asking about a tool call that the client knows shows nothing new, and asking
/// twice shows it once.
pub proof fn law_asking_marks_the_call(m: MapSpec, id: Seq<char>, block: JsonSpec)
    ensures
        m.marked(id, block).emitted.contains(id),
        forall|other: Seq<char>|
            other != id ==> m.marked(id, block).emitted.contains(other) == m.emitted.contains(
                other,
            ),
{
}

} // verus!

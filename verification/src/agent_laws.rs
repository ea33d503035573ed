//! What holds of the agent's answers as a whole.

use vstd::prelude::*;

use crate::agent::{cancelled_by, invalid_params, load_spawn, meta_options, method_not_found, new_spawn, request_action, value_of_flag, AgentActionSpec, AgentContext};
use crate::json::{has_text, JsonSpec};
use crate::process::{argv_of, fixed_args, flag_and_value, flag_with_value, pair_if, switch, tools_arg, SpawnSpec};
use crate::strs::{has_prefix, joined};

verus! {

/// A method that the agent does not know is refused, by its name, whatever the
/// parameters and the sessions are.
pub proof fn law_unknown_method_is_refused(
    sessions: Set<Seq<char>>,
    running: Set<Seq<char>>,
    method: Seq<char>,
    params: JsonSpec,
    cx: AgentContext,
    uuid: Seq<char>,
)
    requires
        method != "initialize"@,
        method != "session/new"@,
        method != "session/load"@,
        method != "session/prompt"@,
        method != "_session/steering"@,
    ensures
        request_action(sessions, running, method, params, cx, uuid) == AgentActionSpec::Reject(
            method_not_found(method),
        ),
{
}

/// A prompt or a steering message for a session that is not there is refused.
pub proof fn law_unknown_session_is_refused(
    sessions: Set<Seq<char>>,
    running: Set<Seq<char>>,
    method: Seq<char>,
    params: JsonSpec,
    cx: AgentContext,
    uuid: Seq<char>,
)
    requires
        method == "session/prompt"@ || method == "_session/steering"@,
        !sessions.contains(params.str_or_empty("sessionId"@)),
    ensures
        request_action(sessions, running, method, params, cx, uuid) == AgentActionSpec::Reject(
            invalid_params("no such session"@),
        ),
{
    reveal_strlit("initialize");
    reveal_strlit("session/new");
    reveal_strlit("session/load");
    reveal_strlit("session/prompt");
    reveal_strlit("_session/steering");
    assert("initialize"@.len() == 10);
    assert("session/new"@.len() == 11);
    assert("session/load"@.len() == 12);
    assert("session/prompt"@.len() == 14);
    assert("_session/steering"@.len() == 17);
}

/// Whether no argument starts with the flag.
pub open spec fn flag_absent(argv: Seq<Seq<char>>, flag: Seq<char>) -> bool {
    forall|i: int| 0 <= i < argv.len() ==> !has_prefix(#[trigger] argv[i], flag)
}

/// Whether an optional text does not start with the flag.
pub open spec fn not_the_flag(o: Option<Seq<char>>, flag: Seq<char>) -> bool {
    o matches Some(s) ==> !has_prefix(s, flag)
}

proof fn lemma_absent(argv: Seq<Seq<char>>, flag: Seq<char>)
    requires
        flag_absent(argv, flag),
    ensures
        value_of_flag(argv, flag) is None,
    decreases argv.len(),
{
    if argv.len() > 0 {
        assert(!has_prefix(argv[0], flag));
        let rest = argv.skip(1);
        assert forall|i: int| 0 <= i < rest.len() implies !has_prefix(#[trigger] rest[i], flag) by {
            assert(rest[i] == argv[i + 1]);
        }
        lemma_absent(rest, flag);
    }
}

/// Of several arguments that start with a flag the first counts, and what stands
/// behind the flag in it is its value.
pub proof fn law_first_flag_counts(
    before: Seq<Seq<char>>,
    value: Seq<char>,
    after: Seq<Seq<char>>,
    flag: Seq<char>,
)
    requires
        flag_absent(before, flag),
    ensures
        value_of_flag(before + seq![flag + value] + after, flag) == Some(value),
    decreases before.len(),
{
    let argv = before + seq![flag + value] + after;
    if before.len() == 0 {
        assert(argv[0] == flag + value);
        assert((flag + value).take(flag.len() as int) =~= flag);
        assert((flag + value).skip(flag.len() as int) =~= value);
    } else {
        assert(argv[0] == before[0]);
        assert(!has_prefix(before[0], flag));
        let rest = before.skip(1);
        assert forall|i: int| 0 <= i < rest.len() implies !has_prefix(#[trigger] rest[i], flag) by {
            assert(rest[i] == before[i + 1]);
        }
        law_first_flag_counts(rest, value, after, flag);
        assert(argv.skip(1) =~= rest + seq![flag + value] + after);
    }
}

proof fn lemma_absent_in_both(a: Seq<Seq<char>>, b: Seq<Seq<char>>, flag: Seq<char>)
    requires
        flag_absent(a, flag),
        flag_absent(b, flag),
    ensures
        flag_absent(a + b, flag),
{
    assert forall|i: int| 0 <= i < (a + b).len() implies !has_prefix(
        #[trigger] (a + b)[i],
        flag,
    ) by {
        if i < a.len() {
            assert((a + b)[i] == a[i]);
        } else {
            assert((a + b)[i] == b[i - a.len()]);
        }
    }
}

proof fn lemma_differs(s: Seq<char>, flag: Seq<char>, i: int)
    requires
        0 <= i < flag.len(),
        s.len() <= i || s[i] != flag[i],
    ensures
        !has_prefix(s, flag),
{
    if has_prefix(s, flag) {
        assert(s.take(flag.len() as int)[i] == s[i]);
    }
}

/// Whether no word that the arguments are made of starts with the flag.
spec fn words_differ(flag: Seq<char>) -> bool {
    &&& !has_prefix("--output-format"@, flag)
    &&& !has_prefix("stream-json"@, flag)
    &&& !has_prefix("--verbose"@, flag)
    &&& !has_prefix("--input-format"@, flag)
    &&& !has_prefix("--model"@, flag)
    &&& !has_prefix("--tools"@, flag)
    &&& !has_prefix("--permission-prompt-tool"@, flag)
    &&& !has_prefix("stdio"@, flag)
    &&& !has_prefix("--disallowedTools"@, flag)
    &&& !has_prefix("--allow-dangerously-skip-permissions"@, flag)
    &&& !has_prefix("--permission-mode"@, flag)
    &&& !has_prefix("--include-partial-messages"@, flag)
    &&& !has_prefix("--replay-user-messages"@, flag)
    &&& !has_prefix(Seq::<char>::empty(), flag)
    &&& forall|s: Seq<char>| !has_prefix(#[trigger] ("--setting-sources="@ + s), flag)
}

proof fn lemma_words_differ()
    ensures
        words_differ("--session-id="@),
        words_differ("--resume="@),
        forall|s: Seq<char>| !has_prefix(#[trigger] ("--session-id="@ + s), "--resume="@),
        forall|s: Seq<char>| !has_prefix(#[trigger] ("--resume="@ + s), "--session-id="@),
{
    reveal_strlit("--session-id=");
    reveal_strlit("--resume=");
    reveal_strlit("--output-format");
    reveal_strlit("stream-json");
    reveal_strlit("--verbose");
    reveal_strlit("--input-format");
    reveal_strlit("--model");
    reveal_strlit("--tools");
    reveal_strlit("--permission-prompt-tool");
    reveal_strlit("stdio");
    reveal_strlit("--disallowedTools");
    reveal_strlit("--allow-dangerously-skip-permissions");
    reveal_strlit("--permission-mode");
    reveal_strlit("--include-partial-messages");
    reveal_strlit("--replay-user-messages");
    reveal_strlit("--setting-sources=");
    let a = "--session-id="@;
    let b = "--resume="@;
    lemma_differs("--output-format"@, a, 2);
    lemma_differs("--output-format"@, b, 2);
    lemma_differs("stream-json"@, a, 0);
    lemma_differs("stream-json"@, b, 0);
    lemma_differs("--verbose"@, a, 2);
    lemma_differs("--verbose"@, b, 2);
    lemma_differs("--input-format"@, a, 2);
    lemma_differs("--input-format"@, b, 2);
    lemma_differs("--model"@, a, 2);
    lemma_differs("--model"@, b, 2);
    lemma_differs("--tools"@, a, 2);
    lemma_differs("--tools"@, b, 2);
    lemma_differs("--permission-prompt-tool"@, a, 2);
    lemma_differs("--permission-prompt-tool"@, b, 2);
    lemma_differs("stdio"@, a, 0);
    lemma_differs("stdio"@, b, 0);
    lemma_differs("--disallowedTools"@, a, 2);
    lemma_differs("--disallowedTools"@, b, 2);
    lemma_differs("--allow-dangerously-skip-permissions"@, a, 2);
    lemma_differs("--allow-dangerously-skip-permissions"@, b, 2);
    lemma_differs("--permission-mode"@, a, 2);
    lemma_differs("--permission-mode"@, b, 2);
    lemma_differs("--include-partial-messages"@, a, 2);
    lemma_differs("--include-partial-messages"@, b, 2);
    lemma_differs("--replay-user-messages"@, a, 2);
    lemma_differs("--replay-user-messages"@, b, 4);
    assert forall|s: Seq<char>| !has_prefix(#[trigger] ("--setting-sources="@ + s), a) by {
        lemma_differs("--setting-sources="@ + s, a, 4);
    }
    assert forall|s: Seq<char>| !has_prefix(#[trigger] ("--setting-sources="@ + s), b) by {
        lemma_differs("--setting-sources="@ + s, b, 2);
    }
    assert forall|s: Seq<char>| !has_prefix(#[trigger] (a + s), b) by {
        lemma_differs(a + s, b, 2);
    }
    assert forall|s: Seq<char>| !has_prefix(#[trigger] (b + s), a) by {
        lemma_differs(b + s, a, 2);
    }
}

/// The tools that must not be used as one argument, if there are any.
pub open spec fn disallowed_arg(o: SpawnSpec) -> Option<Seq<char>> {
    if o.disallowed_tools.len() > 0 {
        Some(joined(o.disallowed_tools, ","@))
    } else {
        None
    }
}

/// Whether no text behind the session to go on with that the options are free to
/// choose looks like the flag.
pub open spec fn later_texts_differ(o: SpawnSpec, flag: Seq<char>) -> bool {
    &&& not_the_flag(disallowed_arg(o), flag)
    &&& not_the_flag(tools_arg(o.tools), flag)
    &&& not_the_flag(o.permission_mode, flag)
}

/// The arguments before the session to go on with.
spec fn opening(o: SpawnSpec) -> Seq<Seq<char>> {
    fixed_args() + flag_and_value("--model"@, o.model) + pair_if(
        o.permission_prompt_tool,
        "--permission-prompt-tool"@,
        "stdio"@,
    )
}

/// The arguments between the session to go on with and the session id.
spec fn middle(o: SpawnSpec) -> Seq<Seq<char>> {
    flag_and_value("--disallowedTools"@, disallowed_arg(o)) + flag_and_value(
        "--tools"@,
        tools_arg(o.tools),
    ) + switch(true, "--setting-sources="@ + joined(o.setting_sources, ","@)) + flag_and_value(
        "--permission-mode"@,
        o.permission_mode,
    ) + switch(o.allow_dangerously_skip_permissions, "--allow-dangerously-skip-permissions"@)
        + switch(o.include_partial_messages, "--include-partial-messages"@)
}

/// The arguments behind the session id.
spec fn closing(o: SpawnSpec) -> Seq<Seq<char>> {
    pair_if(o.replay_user_messages, "--replay-user-messages"@, Seq::empty())
}

proof fn lemma_argv_parts(o: SpawnSpec)
    ensures
        argv_of(o) == opening(o) + flag_with_value("--resume="@, o.resume) + middle(o)
            + flag_with_value("--session-id="@, o.session_id) + closing(o),
{
    assert(argv_of(o) =~= opening(o) + flag_with_value("--resume="@, o.resume) + middle(o)
        + flag_with_value("--session-id="@, o.session_id) + closing(o));
}

proof fn lemma_opening_absent(o: SpawnSpec, flag: Seq<char>)
    requires
        words_differ(flag),
        not_the_flag(o.model, flag),
    ensures
        flag_absent(opening(o), flag),
{
    let model = flag_and_value("--model"@, o.model);
    let prompt = pair_if(o.permission_prompt_tool, "--permission-prompt-tool"@, "stdio"@);
    assert(flag_absent(fixed_args(), flag));
    assert(flag_absent(model, flag));
    assert(flag_absent(prompt, flag));
    lemma_absent_in_both(fixed_args(), model, flag);
    lemma_absent_in_both(fixed_args() + model, prompt, flag);
}

proof fn lemma_rest_absent(o: SpawnSpec, flag: Seq<char>)
    requires
        words_differ(flag),
        later_texts_differ(o, flag),
    ensures
        flag_absent(middle(o), flag),
        flag_absent(closing(o), flag),
{
    let a = flag_and_value("--disallowedTools"@, disallowed_arg(o));
    let b = flag_and_value("--tools"@, tools_arg(o.tools));
    let c = switch(true, "--setting-sources="@ + joined(o.setting_sources, ","@));
    let d = flag_and_value("--permission-mode"@, o.permission_mode);
    let e = switch(o.allow_dangerously_skip_permissions, "--allow-dangerously-skip-permissions"@);
    let f = switch(o.include_partial_messages, "--include-partial-messages"@);
    assert(flag_absent(a, flag));
    assert(flag_absent(b, flag));
    assert(flag_absent(c, flag));
    assert(flag_absent(d, flag));
    assert(flag_absent(e, flag));
    assert(flag_absent(f, flag));
    lemma_absent_in_both(a, b, flag);
    lemma_absent_in_both(a + b, c, flag);
    lemma_absent_in_both(a + b + c, d, flag);
    lemma_absent_in_both(a + b + c + d, e, flag);
    lemma_absent_in_both(a + b + c + d + e, f, flag);
    assert(flag_absent(closing(o), flag));
}

/// Whatever the child is started with, the session id is read back from its
/// arguments. Options with a text that itself looks like the flag are left out.
pub proof fn law_session_id_is_read_back(o: SpawnSpec)
    requires
        not_the_flag(o.model, "--session-id="@),
        later_texts_differ(o, "--session-id="@),
    ensures
        value_of_flag(argv_of(o), "--session-id="@) == o.session_id,
{
    let id = "--session-id="@;
    lemma_words_differ();
    lemma_argv_parts(o);
    lemma_opening_absent(o, id);
    lemma_rest_absent(o, id);
    let resumed = flag_with_value("--resume="@, o.resume);
    assert(flag_absent(resumed, id));
    lemma_absent_in_both(opening(o), resumed, id);
    let before = opening(o) + resumed + middle(o);
    lemma_absent_in_both(opening(o) + resumed, middle(o), id);
    match o.session_id {
        Some(session_id) => {
            law_first_flag_counts(before, session_id, closing(o), id);
        },
        None => {
            lemma_absent_in_both(before, closing(o), id);
            assert(argv_of(o) =~= before + closing(o));
            lemma_absent(argv_of(o), id);
        },
    }
}

/// Whatever the child is started with, the session to go on with is read back
/// from its arguments. Options with a text that itself looks like the flag, and
/// would be read first, are left out.
pub proof fn law_resume_is_read_back(o: SpawnSpec)
    requires
        not_the_flag(o.model, "--resume="@),
        o.resume is None ==> later_texts_differ(o, "--resume="@),
    ensures
        value_of_flag(argv_of(o), "--resume="@) == o.resume,
{
    let resume = "--resume="@;
    lemma_words_differ();
    lemma_argv_parts(o);
    lemma_opening_absent(o, resume);
    let fresh = flag_with_value("--session-id="@, o.session_id);
    match o.resume {
        Some(session_id) => {
            let after = middle(o) + fresh + closing(o);
            law_first_flag_counts(opening(o), session_id, after, resume);
            assert(argv_of(o) =~= opening(o) + seq![resume + session_id] + after);
        },
        None => {
            lemma_rest_absent(o, resume);
            assert(flag_absent(fresh, resume));
            lemma_absent_in_both(opening(o), middle(o), resume);
            lemma_absent_in_both(opening(o) + middle(o), fresh, resume);
            lemma_absent_in_both(opening(o) + middle(o) + fresh, closing(o), resume);
            assert(argv_of(o) =~= opening(o) + middle(o) + fresh + closing(o));
            lemma_absent(argv_of(o), resume);
        },
    }
}

/// A fresh session is known by the id that its child is started with, and goes on
/// with no other one. A model or a permission mode that looks like one of the two
/// flags is left out.
pub proof fn law_new_session_has_its_id(
    sessions: Set<Seq<char>>,
    running: Set<Seq<char>>,
    params: JsonSpec,
    cx: AgentContext,
    uuid: Seq<char>,
)
    requires
        not_the_flag(meta_options(params).get_str("model"@), "--session-id="@),
        not_the_flag(meta_options(params).get_str("permissionMode"@), "--session-id="@),
        not_the_flag(meta_options(params).get_str("model"@), "--resume="@),
        not_the_flag(meta_options(params).get_str("permissionMode"@), "--resume="@),
    ensures
        request_action(
            sessions,
            running,
            "session/new"@,
            params,
            cx,
            uuid,
        ) == (AgentActionSpec::Start { session_id: uuid, spawn: new_spawn(params, cx, uuid) }),
        value_of_flag(argv_of(new_spawn(params, cx, uuid)), "--session-id="@) == Some(uuid),
        value_of_flag(argv_of(new_spawn(params, cx, uuid)), "--resume="@) is None,
{
    reveal_strlit("initialize");
    reveal_strlit("session/new");
    assert("initialize"@.len() == 10 && "session/new"@.len() == 11);
    law_session_id_is_read_back(new_spawn(params, cx, uuid));
    law_resume_is_read_back(new_spawn(params, cx, uuid));
}

/// A session that is loaded goes on under the id that the client named, and its
/// child is given no fresh one. A model that looks like one of the two flags, or a
/// permission mode that looks like the flag of a fresh session, is left out.
pub proof fn law_loaded_session_is_resumed(
    sessions: Set<Seq<char>>,
    running: Set<Seq<char>>,
    params: JsonSpec,
    cx: AgentContext,
    uuid: Seq<char>,
)
    requires
        not_the_flag(meta_options(params).get_str("model"@), "--session-id="@),
        not_the_flag(meta_options(params).get_str("permissionMode"@), "--session-id="@),
        not_the_flag(meta_options(params).get_str("model"@), "--resume="@),
    ensures
        ({
            let session_id = params.str_or_empty("sessionId"@);
            let spawn = load_spawn(params, cx);
            &&& request_action(
                sessions,
                running,
                "session/load"@,
                params,
                cx,
                uuid,
            ) == (AgentActionSpec::Start { session_id, spawn })
            &&& value_of_flag(argv_of(spawn), "--resume="@) == Some(session_id)
            &&& value_of_flag(argv_of(spawn), "--session-id="@) is None
        }),
{
    reveal_strlit("initialize");
    reveal_strlit("session/new");
    reveal_strlit("session/load");
    assert("initialize"@.len() == 10 && "session/new"@.len() == 11 && "session/load"@.len() == 12);
    law_session_id_is_read_back(load_spawn(params, cx));
    law_resume_is_read_back(load_spawn(params, cx));
}

/// The working directory of a session is the one that the client named, else the
/// usual one of the agent, else that of the agent's process: for a fresh session
/// and for one that is loaded alike.
pub proof fn law_session_directory(
    sessions: Set<Seq<char>>,
    running: Set<Seq<char>>,
    method: Seq<char>,
    params: JsonSpec,
    cx: AgentContext,
    uuid: Seq<char>,
)
    requires
        method == "session/new"@ || method == "session/load"@,
    ensures
        request_action(sessions, running, method, params, cx, uuid) matches
            AgentActionSpec::Start { spawn, .. } && {
            &&& forall|cwd: Seq<char>| #[trigger] has_text(params, "cwd"@, cwd) ==> spawn.default_cwd
                == Some(cwd)
            &&& !(params.get("cwd"@) matches Some(JsonSpec::Str(_))) ==> {
                &&& cx.options.default_cwd matches Some(dir) ==> spawn.default_cwd == Some(dir@)
                &&& cx.options.default_cwd is None ==> {
                    &&& cx.process_cwd matches Some(dir) ==> spawn.default_cwd == Some(dir@)
                    &&& cx.process_cwd is None ==> spawn.default_cwd is None
                }
            }
        },
{
    lemma_method_words();
}

/// The child of a session is started with the model and the permission mode that
/// the client chose in `_meta.claudeCode.options`, and with none that it did not
/// choose; a child reports messages in part and repeats what the user sent.
pub proof fn law_session_options_are_passed(
    sessions: Set<Seq<char>>,
    running: Set<Seq<char>>,
    method: Seq<char>,
    params: JsonSpec,
    cx: AgentContext,
    uuid: Seq<char>,
    meta: JsonSpec,
    code: JsonSpec,
    options: JsonSpec,
)
    requires
        method == "session/new"@ || method == "session/load"@,
        params.get("_meta"@) == Some(meta),
        meta.get("claudeCode"@) == Some(code),
        code.get("options"@) == Some(options),
    ensures
        request_action(sessions, running, method, params, cx, uuid) matches
            AgentActionSpec::Start { spawn, .. } && {
            &&& forall|s: Seq<char>| #[trigger] has_text(options, "model"@, s) ==> spawn.model
                == Some(s)
            &&& spawn.model matches Some(s) ==> has_text(options, "model"@, s)
            &&& forall|s: Seq<char>| #[trigger] has_text(options, "permissionMode"@, s)
                ==> spawn.permission_mode == Some(s)
            &&& spawn.permission_mode matches Some(s) ==> has_text(options, "permissionMode"@, s)
            &&& spawn.include_partial_messages
            &&& spawn.replay_user_messages
        },
{
    lemma_method_words();
}

/// Without `_meta` a session is started with neither model nor permission mode.
/// Whatever the client says, the program and the variables are the agent's own, no
/// tool is taken away and no permission is skipped.
pub proof fn law_session_uses_the_agents_program(
    sessions: Set<Seq<char>>,
    running: Set<Seq<char>>,
    method: Seq<char>,
    params: JsonSpec,
    cx: AgentContext,
    uuid: Seq<char>,
)
    requires
        method == "session/new"@ || method == "session/load"@,
    ensures
        request_action(sessions, running, method, params, cx, uuid) matches
            AgentActionSpec::Start { spawn, .. } && {
            &&& params.get("_meta"@) is None ==> spawn.model is None
                && spawn.permission_mode is None
            &&& cx.options.claude_path matches Some(p) ==> spawn.claude_path == Some(p@)
            &&& cx.options.claude_path is None ==> spawn.claude_path is None
            &&& spawn.extra_env.len() == cx.options.extra_env@.len()
            &&& forall|i: int|
                0 <= i < spawn.extra_env.len() ==> (#[trigger] spawn.extra_env[i]).0
                    == cx.options.extra_env@[i].0@ && spawn.extra_env[i].1
                    == cx.options.extra_env@[i].1@
            &&& spawn.disallowed_tools.len() == 0
            &&& spawn.tools is None
            &&& spawn.setting_sources == seq!["user"@, "project"@, "local"@]
            &&& !spawn.permission_prompt_tool
            &&& !spawn.allow_dangerously_skip_permissions
        },
{
    lemma_method_words();
}

/// Loading a session starts a child as a new session with the same parameters
/// would, but for the id: a new session is given the new id and resumes none, a
/// loaded one resumes the id that the client named and is given none.
pub proof fn law_load_differs_from_new_in_the_id_alone(
    sessions: Set<Seq<char>>,
    running: Set<Seq<char>>,
    params: JsonSpec,
    cx: AgentContext,
    uuid: Seq<char>,
    named: Seq<char>,
)
    requires
        has_text(params, "sessionId"@, named),
    ensures
        ({
            let fresh = request_action(sessions, running, "session/new"@, params, cx, uuid);
            let loaded = request_action(sessions, running, "session/load"@, params, cx, uuid);
            &&& fresh is Start
            &&& loaded is Start
            &&& fresh->Start_session_id == uuid
            &&& fresh->Start_spawn.session_id == Some(uuid)
            &&& fresh->Start_spawn.resume is None
            &&& loaded->Start_session_id == named
            &&& loaded->Start_spawn == (SpawnSpec {
                session_id: None,
                resume: Some(named),
                ..fresh->Start_spawn
            })
        }),
{
    lemma_method_words();
}

/// A notification cancels a session exactly when it is `session/cancel` and names
/// a session that is there.
pub proof fn law_cancel_names_its_session(
    sessions: Set<Seq<char>>,
    method: Seq<char>,
    params: JsonSpec,
    named: Seq<char>,
)
    requires
        has_text(params, "sessionId"@, named),
    ensures
        cancelled_by(sessions, method, params) == (if method == "session/cancel"@
            && sessions.contains(named) {
            Some(named)
        } else {
            None
        }),
{
}

/// Tells the words apart, by their lengths and letters.
proof fn lemma_method_words()
    ensures
        "_session/steering"@.len() == 17,
        "initialize"@.len() == 10,
        "session/load"@.len() == 12,
        "session/new"@.len() == 11,
        "session/prompt"@.len() == 14,
{
    reveal_strlit("_session/steering");
    reveal_strlit("initialize");
    reveal_strlit("session/load");
    reveal_strlit("session/new");
    reveal_strlit("session/prompt");
}

} // verus!

//! What holds of the child: how it is started and ended, and what is said to it.

use vstd::prelude::*;

use crate::control::{bare_response, inner_response, list_under, ActionSpec, ControlError, ControlSpec, InitializeOptions, OutboundSpec};
use crate::dispatch::{route_of, Route};
use crate::json::{has_text, law_empty_has_no_members, law_member_of_with, JsonSpec};
use crate::process::{argv_of, binary_name, env_of, fixed_args, flag_and_value, flag_with_value, ladder_next, ladder_start, last_bytes, pair_if, resolved, switch, tools_arg, usual_spawn, usual_timings, Ending, EnvChangeSpec, Ladder, LadderAction, LadderEvent, Os, ResolveError, SpawnError, SpawnSpec, Timings};
use crate::strs::{index_of_char, joined, split_parts};

verus! {

broadcast use {law_member_of_with, law_empty_has_no_members};

/// Whether `more` is `few` with these arguments put in at `k`, side by side.
pub open spec fn adds_at(
    few: Seq<Seq<char>>,
    part: Seq<Seq<char>>,
    more: Seq<Seq<char>>,
    k: int,
) -> bool {
    0 <= k <= few.len() && more == few.take(k) + part + few.skip(k)
}

/// Whether `more` is `few` with these arguments put in somewhere, side by side.
pub open spec fn adds(few: Seq<Seq<char>>, part: Seq<Seq<char>>, more: Seq<Seq<char>>) -> bool {
    exists|k: int| #[trigger] adds_at(few, part, more, k)
}

/// A child that is started with nothing in particular speaks JSON in both
/// directions, tells everything and reads the usual settings.
pub proof fn law_usual_arguments()
    ensures
        argv_of(usual_spawn()) == seq![
            "--output-format"@,
            "stream-json"@,
            "--verbose"@,
            "--input-format"@,
            "stream-json"@,
            "--setting-sources="@ + ("user"@ + ","@ + "project"@ + ","@ + "local"@),
        ],
{
    let s = seq!["user"@, "project"@, "local"@];
    assert(s.drop_last() =~= seq!["user"@, "project"@]);
    assert(seq!["user"@, "project"@].drop_last() =~= seq!["user"@]);
    assert(joined(seq!["user"@], ","@) == "user"@);
    assert(joined(seq!["user"@, "project"@], ","@) == "user"@ + ","@ + "project"@);
    assert(joined(s, ","@) == "user"@ + ","@ + "project"@ + ","@ + "local"@);
}

/// Whatever else is chosen, a child speaks JSON in both directions and is told the
/// sources of its settings, with commas between them.
pub proof fn law_fixed_arguments(o: SpawnSpec)
    ensures
        argv_of(o).len() >= 6,
        argv_of(o).take(5) == seq![
            "--output-format"@,
            "stream-json"@,
            "--verbose"@,
            "--input-format"@,
            "stream-json"@,
        ],
        argv_of(o).contains("--setting-sources="@ + joined(o.setting_sources, ","@)),
{
    let pre = fixed_args() + flag_and_value("--model"@, o.model)
        + pair_if(o.permission_prompt_tool, "--permission-prompt-tool"@, "stdio"@)
        + flag_with_value("--resume="@, o.resume) + pair_if(o.disallowed_tools.len() > 0,
        "--disallowedTools"@, joined(o.disallowed_tools, ","@)) + flag_and_value("--tools"@,
        tools_arg(o.tools));
    let arg = "--setting-sources="@ + joined(o.setting_sources, ","@);
    assert(argv_of(o)[pre.len() as int] == arg);
}

/// The arguments of a child for which every choice is made, in their order.
pub proof fn law_arguments_in_order(
    o: SpawnSpec,
    model: Seq<char>,
    resume: Seq<char>,
    tools: Seq<Seq<char>>,
    mode: Seq<char>,
    session_id: Seq<char>,
)
    requires
        o.model == Some(model),
        o.permission_prompt_tool,
        o.resume == Some(resume),
        o.disallowed_tools.len() > 0,
        o.tools == Some(tools),
        o.permission_mode == Some(mode),
        o.allow_dangerously_skip_permissions,
        o.include_partial_messages,
        o.session_id == Some(session_id),
        o.replay_user_messages,
    ensures
        argv_of(o) == seq![
            "--output-format"@,
            "stream-json"@,
            "--verbose"@,
            "--input-format"@,
            "stream-json"@,
            "--model"@,
            model,
            "--permission-prompt-tool"@,
            "stdio"@,
            "--resume="@ + resume,
            "--disallowedTools"@,
            joined(o.disallowed_tools, ","@),
            "--tools"@,
            joined(tools, ","@),
            "--setting-sources="@ + joined(o.setting_sources, ","@),
            "--permission-mode"@,
            mode,
            "--allow-dangerously-skip-permissions"@,
            "--include-partial-messages"@,
            "--session-id="@ + session_id,
            "--replay-user-messages"@,
            Seq::empty(),
        ],
{
}

/// Each choice that is made for a child adds its own arguments, side by side, and
/// changes no other.
pub proof fn law_each_choice_adds_its_arguments(
    o: SpawnSpec,
    value: Seq<char>,
    list: Seq<Seq<char>>,
)
    ensures
        adds(
            argv_of(SpawnSpec { model: None, ..o }),
            seq!["--model"@, value],
            argv_of(SpawnSpec { model: Some(value), ..o }),
        ),
        adds(
            argv_of(SpawnSpec { permission_prompt_tool: false, ..o }),
            seq!["--permission-prompt-tool"@, "stdio"@],
            argv_of(SpawnSpec { permission_prompt_tool: true, ..o }),
        ),
        adds(
            argv_of(SpawnSpec { resume: None, ..o }),
            seq!["--resume="@ + value],
            argv_of(SpawnSpec { resume: Some(value), ..o }),
        ),
        list.len() > 0 ==> adds(
            argv_of(SpawnSpec { disallowed_tools: Seq::empty(), ..o }),
            seq!["--disallowedTools"@, joined(list, ","@)],
            argv_of(SpawnSpec { disallowed_tools: list, ..o }),
        ),
        adds(
            argv_of(SpawnSpec { tools: None, ..o }),
            seq!["--tools"@, joined(list, ","@)],
            argv_of(SpawnSpec { tools: Some(list), ..o }),
        ),
        adds(
            argv_of(SpawnSpec { permission_mode: None, ..o }),
            seq!["--permission-mode"@, value],
            argv_of(SpawnSpec { permission_mode: Some(value), ..o }),
        ),
        adds(
            argv_of(SpawnSpec { allow_dangerously_skip_permissions: false, ..o }),
            seq!["--allow-dangerously-skip-permissions"@],
            argv_of(SpawnSpec { allow_dangerously_skip_permissions: true, ..o }),
        ),
        adds(
            argv_of(SpawnSpec { include_partial_messages: false, ..o }),
            seq!["--include-partial-messages"@],
            argv_of(SpawnSpec { include_partial_messages: true, ..o }),
        ),
        adds(
            argv_of(SpawnSpec { session_id: None, ..o }),
            seq!["--session-id="@ + value],
            argv_of(SpawnSpec { session_id: Some(value), ..o }),
        ),
        adds(
            argv_of(SpawnSpec { replay_user_messages: false, ..o }),
            seq!["--replay-user-messages"@, Seq::empty()],
            argv_of(SpawnSpec { replay_user_messages: true, ..o }),
        ),
{
    lemma_model(o, value);
    lemma_permission_prompt_tool(o);
    lemma_resume(o, value);
    lemma_disallowed_tools(o, list);
    lemma_tools(o, list);
    lemma_permission_mode(o, value);
    lemma_allow_dangerously_skip_permissions(o);
    lemma_include_partial_messages(o);
    lemma_session_id(o, value);
    lemma_replay_user_messages(o);
}

proof fn lemma_adds_first(pre: Seq<Seq<char>>, none: Seq<Seq<char>>, part: Seq<Seq<char>>)
    requires
        none.len() == 0,
    ensures
        adds_at(pre + none, part, pre + part, pre.len() as int),
{
    let few = pre + none;
    assert(few.take(pre.len() as int) =~= pre);
    assert(few.skip(pre.len() as int) =~= none);
    assert(pre + part + none =~= pre + part);
}

proof fn lemma_adds_next(
    few: Seq<Seq<char>>,
    part: Seq<Seq<char>>,
    more: Seq<Seq<char>>,
    k: int,
    next: Seq<Seq<char>>,
)
    requires
        adds_at(few, part, more, k),
    ensures
        adds_at(few + next, part, more + next, k),
{
    assert((few + next).take(k) =~= few.take(k));
    assert((few + next).skip(k) =~= few.skip(k) + next);
    assert(more + next =~= few.take(k) + part + (few.skip(k) + next));
}

proof fn lemma_model(o: SpawnSpec, value: Seq<char>)
    ensures
        adds(
            argv_of(SpawnSpec { model: None, ..o }),
            seq!["--model"@, value],
            argv_of(SpawnSpec { model: Some(value), ..o }),
        ),
{
    let k = (fixed_args()).len() as int;
    let part = seq!["--model"@, value];
    let pre = fixed_args();
    let few = pre + Seq::<Seq<char>>::empty();
    let more = pre + part;
    lemma_adds_first(pre, Seq::empty(), part);
    let next = pair_if(o.permission_prompt_tool, "--permission-prompt-tool"@, "stdio"@);
    lemma_adds_next(few, part, more, k, next);
    let few = few + next;
    let more = more + next;
    let next = flag_with_value("--resume="@, o.resume);
    lemma_adds_next(few, part, more, k, next);
    let few = few + next;
    let more = more + next;
    let next = pair_if(o.disallowed_tools.len() > 0, "--disallowedTools"@,
        joined(o.disallowed_tools, ","@));
    lemma_adds_next(few, part, more, k, next);
    let few = few + next;
    let more = more + next;
    let next = flag_and_value("--tools"@, tools_arg(o.tools));
    lemma_adds_next(few, part, more, k, next);
    let few = few + next;
    let more = more + next;
    let next = switch(true, "--setting-sources="@ + joined(o.setting_sources, ","@));
    lemma_adds_next(few, part, more, k, next);
    let few = few + next;
    let more = more + next;
    let next = flag_and_value("--permission-mode"@, o.permission_mode);
    lemma_adds_next(few, part, more, k, next);
    let few = few + next;
    let more = more + next;
    let next = switch(o.allow_dangerously_skip_permissions,
        "--allow-dangerously-skip-permissions"@);
    lemma_adds_next(few, part, more, k, next);
    let few = few + next;
    let more = more + next;
    let next = switch(o.include_partial_messages, "--include-partial-messages"@);
    lemma_adds_next(few, part, more, k, next);
    let few = few + next;
    let more = more + next;
    let next = flag_with_value("--session-id="@, o.session_id);
    lemma_adds_next(few, part, more, k, next);
    let few = few + next;
    let more = more + next;
    let next = pair_if(o.replay_user_messages, "--replay-user-messages"@, Seq::empty());
    lemma_adds_next(few, part, more, k, next);
    let few = few + next;
    let more = more + next;
    assert(argv_of(SpawnSpec { model: None, ..o }) == few);
    assert(argv_of(SpawnSpec { model: Some(value), ..o }) == more);
}

proof fn lemma_permission_prompt_tool(o: SpawnSpec)
    ensures
        adds(
            argv_of(SpawnSpec { permission_prompt_tool: false, ..o }),
            seq!["--permission-prompt-tool"@, "stdio"@],
            argv_of(SpawnSpec { permission_prompt_tool: true, ..o }),
        ),
{
    let k = (fixed_args() + flag_and_value("--model"@, o.model)).len() as int;
    let part = seq!["--permission-prompt-tool"@, "stdio"@];
    let pre = fixed_args() + flag_and_value("--model"@, o.model);
    let few = pre + Seq::<Seq<char>>::empty();
    let more = pre + part;
    lemma_adds_first(pre, Seq::empty(), part);
    let next = flag_with_value("--resume="@, o.resume);
    lemma_adds_next(few, part, more, k, next);
    let few = few + next;
    let more = more + next;
    let next = pair_if(o.disallowed_tools.len() > 0, "--disallowedTools"@,
        joined(o.disallowed_tools, ","@));
    lemma_adds_next(few, part, more, k, next);
    let few = few + next;
    let more = more + next;
    let next = flag_and_value("--tools"@, tools_arg(o.tools));
    lemma_adds_next(few, part, more, k, next);
    let few = few + next;
    let more = more + next;
    let next = switch(true, "--setting-sources="@ + joined(o.setting_sources, ","@));
    lemma_adds_next(few, part, more, k, next);
    let few = few + next;
    let more = more + next;
    let next = flag_and_value("--permission-mode"@, o.permission_mode);
    lemma_adds_next(few, part, more, k, next);
    let few = few + next;
    let more = more + next;
    let next = switch(o.allow_dangerously_skip_permissions,
        "--allow-dangerously-skip-permissions"@);
    lemma_adds_next(few, part, more, k, next);
    let few = few + next;
    let more = more + next;
    let next = switch(o.include_partial_messages, "--include-partial-messages"@);
    lemma_adds_next(few, part, more, k, next);
    let few = few + next;
    let more = more + next;
    let next = flag_with_value("--session-id="@, o.session_id);
    lemma_adds_next(few, part, more, k, next);
    let few = few + next;
    let more = more + next;
    let next = pair_if(o.replay_user_messages, "--replay-user-messages"@, Seq::empty());
    lemma_adds_next(few, part, more, k, next);
    let few = few + next;
    let more = more + next;
    assert(argv_of(SpawnSpec { permission_prompt_tool: false, ..o }) == few);
    assert(argv_of(SpawnSpec { permission_prompt_tool: true, ..o }) == more);
}

proof fn lemma_resume(o: SpawnSpec, value: Seq<char>)
    ensures
        adds(
            argv_of(SpawnSpec { resume: None, ..o }),
            seq!["--resume="@ + value],
            argv_of(SpawnSpec { resume: Some(value), ..o }),
        ),
{
    let k = (fixed_args() + flag_and_value("--model"@, o.model)
        + pair_if(o.permission_prompt_tool, "--permission-prompt-tool"@, "stdio"@)).len() as int;
    let part = seq!["--resume="@ + value];
    let pre = fixed_args() + flag_and_value("--model"@, o.model)
        + pair_if(o.permission_prompt_tool, "--permission-prompt-tool"@, "stdio"@);
    let few = pre + Seq::<Seq<char>>::empty();
    let more = pre + part;
    lemma_adds_first(pre, Seq::empty(), part);
    let next = pair_if(o.disallowed_tools.len() > 0, "--disallowedTools"@,
        joined(o.disallowed_tools, ","@));
    lemma_adds_next(few, part, more, k, next);
    let few = few + next;
    let more = more + next;
    let next = flag_and_value("--tools"@, tools_arg(o.tools));
    lemma_adds_next(few, part, more, k, next);
    let few = few + next;
    let more = more + next;
    let next = switch(true, "--setting-sources="@ + joined(o.setting_sources, ","@));
    lemma_adds_next(few, part, more, k, next);
    let few = few + next;
    let more = more + next;
    let next = flag_and_value("--permission-mode"@, o.permission_mode);
    lemma_adds_next(few, part, more, k, next);
    let few = few + next;
    let more = more + next;
    let next = switch(o.allow_dangerously_skip_permissions,
        "--allow-dangerously-skip-permissions"@);
    lemma_adds_next(few, part, more, k, next);
    let few = few + next;
    let more = more + next;
    let next = switch(o.include_partial_messages, "--include-partial-messages"@);
    lemma_adds_next(few, part, more, k, next);
    let few = few + next;
    let more = more + next;
    let next = flag_with_value("--session-id="@, o.session_id);
    lemma_adds_next(few, part, more, k, next);
    let few = few + next;
    let more = more + next;
    let next = pair_if(o.replay_user_messages, "--replay-user-messages"@, Seq::empty());
    lemma_adds_next(few, part, more, k, next);
    let few = few + next;
    let more = more + next;
    assert(argv_of(SpawnSpec { resume: None, ..o }) == few);
    assert(argv_of(SpawnSpec { resume: Some(value), ..o }) == more);
}

proof fn lemma_disallowed_tools(o: SpawnSpec, list: Seq<Seq<char>>)
    ensures
        list.len() > 0 ==> adds(
            argv_of(SpawnSpec { disallowed_tools: Seq::empty(), ..o }),
            seq!["--disallowedTools"@, joined(list, ","@)],
            argv_of(SpawnSpec { disallowed_tools: list, ..o }),
        ),
{
    let k = (fixed_args() + flag_and_value("--model"@, o.model)
        + pair_if(o.permission_prompt_tool, "--permission-prompt-tool"@, "stdio"@)
        + flag_with_value("--resume="@, o.resume)).len() as int;
    let part = seq!["--disallowedTools"@, joined(list, ","@)];
    let pre = fixed_args() + flag_and_value("--model"@, o.model)
        + pair_if(o.permission_prompt_tool, "--permission-prompt-tool"@, "stdio"@)
        + flag_with_value("--resume="@, o.resume);
    let few = pre + Seq::<Seq<char>>::empty();
    let more = pre + part;
    lemma_adds_first(pre, Seq::empty(), part);
    let next = flag_and_value("--tools"@, tools_arg(o.tools));
    lemma_adds_next(few, part, more, k, next);
    let few = few + next;
    let more = more + next;
    let next = switch(true, "--setting-sources="@ + joined(o.setting_sources, ","@));
    lemma_adds_next(few, part, more, k, next);
    let few = few + next;
    let more = more + next;
    let next = flag_and_value("--permission-mode"@, o.permission_mode);
    lemma_adds_next(few, part, more, k, next);
    let few = few + next;
    let more = more + next;
    let next = switch(o.allow_dangerously_skip_permissions,
        "--allow-dangerously-skip-permissions"@);
    lemma_adds_next(few, part, more, k, next);
    let few = few + next;
    let more = more + next;
    let next = switch(o.include_partial_messages, "--include-partial-messages"@);
    lemma_adds_next(few, part, more, k, next);
    let few = few + next;
    let more = more + next;
    let next = flag_with_value("--session-id="@, o.session_id);
    lemma_adds_next(few, part, more, k, next);
    let few = few + next;
    let more = more + next;
    let next = pair_if(o.replay_user_messages, "--replay-user-messages"@, Seq::empty());
    lemma_adds_next(few, part, more, k, next);
    let few = few + next;
    let more = more + next;
    assert(argv_of(SpawnSpec { disallowed_tools: Seq::empty(), ..o }) == few);
    if list.len() > 0 {
        assert(argv_of(SpawnSpec { disallowed_tools: list, ..o }) == more);
    }
}

proof fn lemma_tools(o: SpawnSpec, list: Seq<Seq<char>>)
    ensures
        adds(
            argv_of(SpawnSpec { tools: None, ..o }),
            seq!["--tools"@, joined(list, ","@)],
            argv_of(SpawnSpec { tools: Some(list), ..o }),
        ),
{
    let k = (fixed_args() + flag_and_value("--model"@, o.model)
        + pair_if(o.permission_prompt_tool, "--permission-prompt-tool"@, "stdio"@)
        + flag_with_value("--resume="@, o.resume) + pair_if(o.disallowed_tools.len() > 0,
        "--disallowedTools"@, joined(o.disallowed_tools, ","@))).len() as int;
    let part = seq!["--tools"@, joined(list, ","@)];
    let pre = fixed_args() + flag_and_value("--model"@, o.model)
        + pair_if(o.permission_prompt_tool, "--permission-prompt-tool"@, "stdio"@)
        + flag_with_value("--resume="@, o.resume) + pair_if(o.disallowed_tools.len() > 0,
        "--disallowedTools"@, joined(o.disallowed_tools, ","@));
    let few = pre + Seq::<Seq<char>>::empty();
    let more = pre + part;
    lemma_adds_first(pre, Seq::empty(), part);
    let next = switch(true, "--setting-sources="@ + joined(o.setting_sources, ","@));
    lemma_adds_next(few, part, more, k, next);
    let few = few + next;
    let more = more + next;
    let next = flag_and_value("--permission-mode"@, o.permission_mode);
    lemma_adds_next(few, part, more, k, next);
    let few = few + next;
    let more = more + next;
    let next = switch(o.allow_dangerously_skip_permissions,
        "--allow-dangerously-skip-permissions"@);
    lemma_adds_next(few, part, more, k, next);
    let few = few + next;
    let more = more + next;
    let next = switch(o.include_partial_messages, "--include-partial-messages"@);
    lemma_adds_next(few, part, more, k, next);
    let few = few + next;
    let more = more + next;
    let next = flag_with_value("--session-id="@, o.session_id);
    lemma_adds_next(few, part, more, k, next);
    let few = few + next;
    let more = more + next;
    let next = pair_if(o.replay_user_messages, "--replay-user-messages"@, Seq::empty());
    lemma_adds_next(few, part, more, k, next);
    let few = few + next;
    let more = more + next;
    assert(argv_of(SpawnSpec { tools: None, ..o }) == few);
    assert(argv_of(SpawnSpec { tools: Some(list), ..o }) == more);
}

proof fn lemma_permission_mode(o: SpawnSpec, value: Seq<char>)
    ensures
        adds(
            argv_of(SpawnSpec { permission_mode: None, ..o }),
            seq!["--permission-mode"@, value],
            argv_of(SpawnSpec { permission_mode: Some(value), ..o }),
        ),
{
    let k = (fixed_args() + flag_and_value("--model"@, o.model)
        + pair_if(o.permission_prompt_tool, "--permission-prompt-tool"@, "stdio"@)
        + flag_with_value("--resume="@, o.resume) + pair_if(o.disallowed_tools.len() > 0,
        "--disallowedTools"@, joined(o.disallowed_tools, ","@)) + flag_and_value("--tools"@,
        tools_arg(o.tools)) + switch(true, "--setting-sources="@ + joined(o.setting_sources,
        ","@))).len() as int;
    let part = seq!["--permission-mode"@, value];
    let pre = fixed_args() + flag_and_value("--model"@, o.model)
        + pair_if(o.permission_prompt_tool, "--permission-prompt-tool"@, "stdio"@)
        + flag_with_value("--resume="@, o.resume) + pair_if(o.disallowed_tools.len() > 0,
        "--disallowedTools"@, joined(o.disallowed_tools, ","@)) + flag_and_value("--tools"@,
        tools_arg(o.tools)) + switch(true, "--setting-sources="@ + joined(o.setting_sources,
        ","@));
    let few = pre + Seq::<Seq<char>>::empty();
    let more = pre + part;
    lemma_adds_first(pre, Seq::empty(), part);
    let next = switch(o.allow_dangerously_skip_permissions,
        "--allow-dangerously-skip-permissions"@);
    lemma_adds_next(few, part, more, k, next);
    let few = few + next;
    let more = more + next;
    let next = switch(o.include_partial_messages, "--include-partial-messages"@);
    lemma_adds_next(few, part, more, k, next);
    let few = few + next;
    let more = more + next;
    let next = flag_with_value("--session-id="@, o.session_id);
    lemma_adds_next(few, part, more, k, next);
    let few = few + next;
    let more = more + next;
    let next = pair_if(o.replay_user_messages, "--replay-user-messages"@, Seq::empty());
    lemma_adds_next(few, part, more, k, next);
    let few = few + next;
    let more = more + next;
    assert(argv_of(SpawnSpec { permission_mode: None, ..o }) == few);
    assert(argv_of(SpawnSpec { permission_mode: Some(value), ..o }) == more);
}

proof fn lemma_allow_dangerously_skip_permissions(o: SpawnSpec)
    ensures
        adds(
            argv_of(SpawnSpec { allow_dangerously_skip_permissions: false, ..o }),
            seq!["--allow-dangerously-skip-permissions"@],
            argv_of(SpawnSpec { allow_dangerously_skip_permissions: true, ..o }),
        ),
{
    let k = (fixed_args() + flag_and_value("--model"@, o.model)
        + pair_if(o.permission_prompt_tool, "--permission-prompt-tool"@, "stdio"@)
        + flag_with_value("--resume="@, o.resume) + pair_if(o.disallowed_tools.len() > 0,
        "--disallowedTools"@, joined(o.disallowed_tools, ","@)) + flag_and_value("--tools"@,
        tools_arg(o.tools)) + switch(true, "--setting-sources="@ + joined(o.setting_sources,
        ","@)) + flag_and_value("--permission-mode"@, o.permission_mode)).len() as int;
    let part = seq!["--allow-dangerously-skip-permissions"@];
    let pre = fixed_args() + flag_and_value("--model"@, o.model)
        + pair_if(o.permission_prompt_tool, "--permission-prompt-tool"@, "stdio"@)
        + flag_with_value("--resume="@, o.resume) + pair_if(o.disallowed_tools.len() > 0,
        "--disallowedTools"@, joined(o.disallowed_tools, ","@)) + flag_and_value("--tools"@,
        tools_arg(o.tools)) + switch(true, "--setting-sources="@ + joined(o.setting_sources,
        ","@)) + flag_and_value("--permission-mode"@, o.permission_mode);
    let few = pre + Seq::<Seq<char>>::empty();
    let more = pre + part;
    lemma_adds_first(pre, Seq::empty(), part);
    let next = switch(o.include_partial_messages, "--include-partial-messages"@);
    lemma_adds_next(few, part, more, k, next);
    let few = few + next;
    let more = more + next;
    let next = flag_with_value("--session-id="@, o.session_id);
    lemma_adds_next(few, part, more, k, next);
    let few = few + next;
    let more = more + next;
    let next = pair_if(o.replay_user_messages, "--replay-user-messages"@, Seq::empty());
    lemma_adds_next(few, part, more, k, next);
    let few = few + next;
    let more = more + next;
    assert(argv_of(SpawnSpec { allow_dangerously_skip_permissions: false, ..o }) == few);
    assert(argv_of(SpawnSpec { allow_dangerously_skip_permissions: true, ..o }) == more);
}

proof fn lemma_include_partial_messages(o: SpawnSpec)
    ensures
        adds(
            argv_of(SpawnSpec { include_partial_messages: false, ..o }),
            seq!["--include-partial-messages"@],
            argv_of(SpawnSpec { include_partial_messages: true, ..o }),
        ),
{
    let k = (fixed_args() + flag_and_value("--model"@, o.model)
        + pair_if(o.permission_prompt_tool, "--permission-prompt-tool"@, "stdio"@)
        + flag_with_value("--resume="@, o.resume) + pair_if(o.disallowed_tools.len() > 0,
        "--disallowedTools"@, joined(o.disallowed_tools, ","@)) + flag_and_value("--tools"@,
        tools_arg(o.tools)) + switch(true, "--setting-sources="@ + joined(o.setting_sources,
        ","@)) + flag_and_value("--permission-mode"@, o.permission_mode)
        + switch(o.allow_dangerously_skip_permissions,
        "--allow-dangerously-skip-permissions"@)).len() as int;
    let part = seq!["--include-partial-messages"@];
    let pre = fixed_args() + flag_and_value("--model"@, o.model)
        + pair_if(o.permission_prompt_tool, "--permission-prompt-tool"@, "stdio"@)
        + flag_with_value("--resume="@, o.resume) + pair_if(o.disallowed_tools.len() > 0,
        "--disallowedTools"@, joined(o.disallowed_tools, ","@)) + flag_and_value("--tools"@,
        tools_arg(o.tools)) + switch(true, "--setting-sources="@ + joined(o.setting_sources,
        ","@)) + flag_and_value("--permission-mode"@, o.permission_mode)
        + switch(o.allow_dangerously_skip_permissions, "--allow-dangerously-skip-permissions"@);
    let few = pre + Seq::<Seq<char>>::empty();
    let more = pre + part;
    lemma_adds_first(pre, Seq::empty(), part);
    let next = flag_with_value("--session-id="@, o.session_id);
    lemma_adds_next(few, part, more, k, next);
    let few = few + next;
    let more = more + next;
    let next = pair_if(o.replay_user_messages, "--replay-user-messages"@, Seq::empty());
    lemma_adds_next(few, part, more, k, next);
    let few = few + next;
    let more = more + next;
    assert(argv_of(SpawnSpec { include_partial_messages: false, ..o }) == few);
    assert(argv_of(SpawnSpec { include_partial_messages: true, ..o }) == more);
}

proof fn lemma_session_id(o: SpawnSpec, value: Seq<char>)
    ensures
        adds(
            argv_of(SpawnSpec { session_id: None, ..o }),
            seq!["--session-id="@ + value],
            argv_of(SpawnSpec { session_id: Some(value), ..o }),
        ),
{
    let k = (fixed_args() + flag_and_value("--model"@, o.model)
        + pair_if(o.permission_prompt_tool, "--permission-prompt-tool"@, "stdio"@)
        + flag_with_value("--resume="@, o.resume) + pair_if(o.disallowed_tools.len() > 0,
        "--disallowedTools"@, joined(o.disallowed_tools, ","@)) + flag_and_value("--tools"@,
        tools_arg(o.tools)) + switch(true, "--setting-sources="@ + joined(o.setting_sources,
        ","@)) + flag_and_value("--permission-mode"@, o.permission_mode)
        + switch(o.allow_dangerously_skip_permissions, "--allow-dangerously-skip-permissions"@)
        + switch(o.include_partial_messages, "--include-partial-messages"@)).len() as int;
    let part = seq!["--session-id="@ + value];
    let pre = fixed_args() + flag_and_value("--model"@, o.model)
        + pair_if(o.permission_prompt_tool, "--permission-prompt-tool"@, "stdio"@)
        + flag_with_value("--resume="@, o.resume) + pair_if(o.disallowed_tools.len() > 0,
        "--disallowedTools"@, joined(o.disallowed_tools, ","@)) + flag_and_value("--tools"@,
        tools_arg(o.tools)) + switch(true, "--setting-sources="@ + joined(o.setting_sources,
        ","@)) + flag_and_value("--permission-mode"@, o.permission_mode)
        + switch(o.allow_dangerously_skip_permissions, "--allow-dangerously-skip-permissions"@)
        + switch(o.include_partial_messages, "--include-partial-messages"@);
    let few = pre + Seq::<Seq<char>>::empty();
    let more = pre + part;
    lemma_adds_first(pre, Seq::empty(), part);
    let next = pair_if(o.replay_user_messages, "--replay-user-messages"@, Seq::empty());
    lemma_adds_next(few, part, more, k, next);
    let few = few + next;
    let more = more + next;
    assert(argv_of(SpawnSpec { session_id: None, ..o }) == few);
    assert(argv_of(SpawnSpec { session_id: Some(value), ..o }) == more);
}

proof fn lemma_replay_user_messages(o: SpawnSpec)
    ensures
        adds(
            argv_of(SpawnSpec { replay_user_messages: false, ..o }),
            seq!["--replay-user-messages"@, Seq::empty()],
            argv_of(SpawnSpec { replay_user_messages: true, ..o }),
        ),
{
    let k = (fixed_args() + flag_and_value("--model"@, o.model)
        + pair_if(o.permission_prompt_tool, "--permission-prompt-tool"@, "stdio"@)
        + flag_with_value("--resume="@, o.resume) + pair_if(o.disallowed_tools.len() > 0,
        "--disallowedTools"@, joined(o.disallowed_tools, ","@)) + flag_and_value("--tools"@,
        tools_arg(o.tools)) + switch(true, "--setting-sources="@ + joined(o.setting_sources,
        ","@)) + flag_and_value("--permission-mode"@, o.permission_mode)
        + switch(o.allow_dangerously_skip_permissions, "--allow-dangerously-skip-permissions"@)
        + switch(o.include_partial_messages, "--include-partial-messages"@)
        + flag_with_value("--session-id="@, o.session_id)).len() as int;
    let part = seq!["--replay-user-messages"@, Seq::empty()];
    let pre = fixed_args() + flag_and_value("--model"@, o.model)
        + pair_if(o.permission_prompt_tool, "--permission-prompt-tool"@, "stdio"@)
        + flag_with_value("--resume="@, o.resume) + pair_if(o.disallowed_tools.len() > 0,
        "--disallowedTools"@, joined(o.disallowed_tools, ","@)) + flag_and_value("--tools"@,
        tools_arg(o.tools)) + switch(true, "--setting-sources="@ + joined(o.setting_sources,
        ","@)) + flag_and_value("--permission-mode"@, o.permission_mode)
        + switch(o.allow_dangerously_skip_permissions, "--allow-dangerously-skip-permissions"@)
        + switch(o.include_partial_messages, "--include-partial-messages"@)
        + flag_with_value("--session-id="@, o.session_id);
    let few = pre + Seq::<Seq<char>>::empty();
    let more = pre + part;
    lemma_adds_first(pre, Seq::empty(), part);
    assert(argv_of(SpawnSpec { replay_user_messages: false, ..o }) == few);
    assert(argv_of(SpawnSpec { replay_user_messages: true, ..o }) == more);
}

/// The variables of the child are those that were added, in order, and behind them
/// what marks it as driven by this agent, so that none of these can be replaced.
/// Options for the runtime are taken away.
pub proof fn law_environment_of_the_child(extra: Seq<(String, String)>)
    ensures
        env_of(extra).len() == extra.len() + 3,
        forall|i: int|
            0 <= i < extra.len() ==> #[trigger] env_of(extra)[i] == (EnvChangeSpec::Put {
                name: extra[i].0@,
                value: extra[i].1@,
            }),
        env_of(extra)[extra.len() as int] == (EnvChangeSpec::Put {
            name: "CLAUDE_CODE_ENTRYPOINT"@,
            value: "sdk-ts"@,
        }),
        env_of(extra)[extra.len() as int + 1] == (EnvChangeSpec::Put {
            name: "CLAUDE_CODE_EMIT_SESSION_STATE_EVENTS"@,
            value: "1"@,
        }),
        env_of(extra)[extra.len() as int + 2] == (EnvChangeSpec::Remove { name: "NODE_OPTIONS"@ }),
{
}

/// A program that was chosen is taken before one that the environment names, and
/// that before one on the search path. Without any of these there is none.
pub proof fn law_program_is_chosen(
    chosen: Option<Seq<char>>,
    named: Option<Seq<char>>,
    dir: Seq<char>,
    name: Seq<char>,
    present: Seq<Seq<char>>,
)
    requires
        forall|i: int| 0 <= i < dir.len() ==> dir[i] != ':',
    ensures
        chosen is Some ==> resolved(chosen, named, dir, name, present) == chosen,
        chosen is None && named is Some && named->0.len() > 0 ==> resolved(
            chosen,
            named,
            dir,
            name,
            present,
        ) == named,
        chosen is None && (named is None || named->0.len() == 0) ==> resolved(
            chosen,
            named,
            dir,
            name,
            present,
        ) == (if dir.len() > 0 && present.contains(dir) {
            Some(name)
        } else {
            None
        }),
{
    lemma_no_char(dir, ':');
    assert(split_parts(dir, ':') == seq![dir]);
    assert(split_parts(dir, ':')[0] == dir);
}

proof fn lemma_no_char(s: Seq<char>, c: char)
    requires
        forall|i: int| 0 <= i < s.len() ==> s[i] != c,
    ensures
        index_of_char(s, c) == s.len(),
{
    crate::strs::lemma_index_of_char(s, c, s.len() as int);
}

/// A search path is taken apart at its colons: what stands before the first is one
/// directory, and what stands behind it is taken apart in turn.
pub proof fn law_search_path_is_taken_apart(dir: Seq<char>, rest: Seq<char>)
    requires
        forall|i: int| 0 <= i < dir.len() ==> dir[i] != ':',
    ensures
        split_parts(dir.push(':') + rest, ':') == seq![dir] + split_parts(rest, ':'),
        split_parts(dir, ':') == seq![dir],
{
    let s = dir.push(':') + rest;
    crate::strs::lemma_index_of_char(s, ':', dir.len() as int);
    assert(s.take(dir.len() as int) =~= dir);
    assert(s.skip(dir.len() as int + 1) =~= rest);
    lemma_no_char(dir, ':');
}

/// Programs end in `.exe` where the system wants it, and nowhere else.
pub proof fn law_program_name(program: Seq<char>)
    ensures
        binary_name(program, Os::Windows) == program + ".exe"@,
        binary_name(program, Os::Unix) == program,
{
}

/// How long the child is waited for, in milliseconds.
pub proof fn law_usual_timings()
    ensures
        usual_timings() == (Timings {
            stdin_close_wait: 2_000,
            term_to_kill_wait: 5_000,
            force_cancel_grace: 30_000,
            stderr_drain_cap: 200,
        }),
{
}

/// Every step of a shutdown of a child that does not end: its input is closed, it is
/// waited for, asked to end, waited for, killed and waited for.
pub proof fn law_stubborn_child_is_shut_down(t: Timings)
    ensures
        ({
            let done = LadderEvent::Happened;
            let late = LadderEvent::TimedOut;
            let s0 = ladder_start(Ending::Shutdown);
            let s1 = ladder_next(s0, done, t);
            let s2 = ladder_next(s1, late, t);
            let s3 = ladder_next(s2, done, t);
            let s4 = ladder_next(s3, late, t);
            let s5 = ladder_next(s4, done, t);
            let s6 = ladder_next(s5, late, t);
            &&& s0.last == LadderAction::CloseStdin
            &&& s1.last == LadderAction::Wait(t.stdin_close_wait)
            &&& s2.last == LadderAction::Term
            &&& s3.last == LadderAction::Wait(t.term_to_kill_wait)
            &&& s4.last == LadderAction::Kill
            &&& s5.last == LadderAction::Wait(5_000)
            &&& s6.last == LadderAction::Done
        }),
{
}

/// A child that is to be gone is killed after its input was closed and it was waited
/// for, whether or not it ended by then, and what is left of it is collected.
pub proof fn law_child_is_disposed_of(
    t: Timings,
    a: LadderEvent,
    b: LadderEvent,
    c: LadderEvent,
    d: LadderEvent,
    e: LadderEvent,
)
    ensures
        ({
            let s0 = ladder_start(Ending::Dispose);
            let s1 = ladder_next(s0, a, t);
            let s2 = ladder_next(s1, b, t);
            let s3 = ladder_next(s2, c, t);
            let s4 = ladder_next(s3, d, t);
            let s5 = ladder_next(s4, e, t);
            &&& s0.last == LadderAction::CloseStdin
            &&& s1.last == LadderAction::Wait(t.stdin_close_wait)
            &&& s2.last == LadderAction::Kill
            &&& s3.last == LadderAction::Wait(5_000)
            &&& s4.last == LadderAction::Reap
            &&& s5.last == LadderAction::Done
            &&& !s5.asked
        }),
{
}

/// A shutdown hands on the error of a wait or of a signal that failed; an input that
/// could not be closed is passed over.
pub proof fn law_failed_step_ends_the_shutdown(l: Ladder, t: Timings)
    requires
        l.ending == Ending::Shutdown,
    ensures
        l.last is Wait || l.last == LadderAction::Term || l.last == LadderAction::Kill
            ==> ladder_next(l, LadderEvent::Failed, t).last == LadderAction::GiveUp,
        l.last == LadderAction::CloseStdin ==> !l.killed ==> ladder_next(
            l,
            LadderEvent::Failed,
            t,
        ).last == LadderAction::Wait(t.stdin_close_wait),
{
}

/// Of the error output the end is kept: as much as there is, up to the bound.
pub proof fn law_end_of_the_output_is_kept(s: Seq<u8>, cap: nat)
    ensures
        last_bytes(s, cap).len() == (if s.len() < cap {
            s.len()
        } else {
            cap
        }),
        forall|i: int|
            0 <= i < last_bytes(s, cap).len() ==> #[trigger] last_bytes(s, cap)[i] == s[s.len()
                - last_bytes(s, cap).len() + i],
{
}

/// Where the lines of a child go: control messages to the control channel, messages
/// and events to the session, and what is not known nowhere.
pub proof fn law_lines_are_routed(line: JsonSpec, t: Seq<char>)
    requires
        has_text(line, "type"@, t),
    ensures
        route_of(line) == Route::Control <==> t == "keep_alive"@ || t == "control_response"@ || t
            == "control_request"@ || t == "control_cancel_request"@,
        route_of(line) == Route::Session <==> t == "user"@ || t == "assistant"@ || t == "result"@
            || t == "system"@ || t == "stream_event"@,
{
    lemma_child_words();
}

/// A line without a type goes nowhere.
pub proof fn law_line_without_type_goes_nowhere(line: JsonSpec)
    requires
        !(line.get("type"@) matches Some(JsonSpec::Str(_))),
    ensures
        route_of(line) == Route::Ignore,
{
    lemma_child_words();
}

/// A request to the child is written under its id, as a control request.
pub proof fn law_request_is_written(
    c: ControlSpec,
    id: Seq<char>,
    payload: JsonSpec,
    ticket: u64,
)
    ensures
        c.outbound(OutboundSpec::Request { id, payload, ticket }).1 matches ActionSpec::Write(frame)
            && {
            &&& has_text(frame, "request_id"@, id)
            &&& has_text(frame, "type"@, "control_request"@)
            &&& frame.get("request"@) == Some(payload)
        },
{
    lemma_child_words();
}

/// What the user says, a response and a withdrawal are written as they are.
pub proof fn law_frames_are_written_as_they_are(c: ControlSpec, frame: JsonSpec)
    ensures
        c.outbound(OutboundSpec::User(frame)) == (c, ActionSpec::Write(frame)),
        c.outbound(OutboundSpec::Cancel(frame)) == (c, ActionSpec::Write(frame)),
        c.outbound(OutboundSpec::Response(frame)).1 == ActionSpec::Write(frame),
        c.outbound(OutboundSpec::Response(frame)).0.pending == c.pending,
{
}

/// A response resolves the request whose id it names, if somebody waits for it, and
/// no other; it reaches who asked as it came.
pub proof fn law_response_reaches_who_asked(
    c: ControlSpec,
    frame: JsonSpec,
    response: JsonSpec,
    id: Seq<char>,
    task: u64,
)
    requires
        has_text(frame, "type"@, "control_response"@),
        frame.get("response"@) == Some(response),
        has_text(response, "request_id"@, id),
    ensures
        c.pending.contains_key(id) ==> c.inbound(frame, task) == (
            ControlSpec { pending: c.pending.remove(id), inflight: c.inflight },
            ActionSpec::Resolve { ticket: c.pending[id], frame },
        ),
        !c.pending.contains_key(id) ==> c.inbound(frame, task) == (c, ActionSpec::Idle),
{
    lemma_child_words();
}

/// A request of the child is handled under its id, until it is answered: then it is
/// handled no longer, and a withdrawal of it has no effect.
pub proof fn law_request_is_handled_until_answered(
    c: ControlSpec,
    frame: JsonSpec,
    id: Seq<char>,
    task: u64,
    answer: JsonSpec,
    response: JsonSpec,
    withdrawal: JsonSpec,
    other: u64,
)
    requires
        has_text(frame, "type"@, "control_request"@),
        has_text(frame, "request_id"@, id),
        answer.get("response"@) == Some(response),
        has_text(response, "request_id"@, id),
        has_text(withdrawal, "type"@, "control_cancel_request"@),
        has_text(withdrawal, "request_id"@, id),
    ensures
        ({
            let (handling, action) = c.inbound(frame, task);
            let (answered, written) = handling.outbound(OutboundSpec::Response(answer));
            &&& action == (ActionSpec::Handle { task, request_id: id, frame })
            &&& handling.inflight == c.inflight.insert(id, task)
            &&& handling.pending == c.pending
            &&& handling.inbound(withdrawal, other).1 == (ActionSpec::Abort { task })
            &&& written == ActionSpec::Write(answer)
            &&& !answered.inflight.contains_key(id)
            &&& answered.inbound(withdrawal, other) == (answered, ActionSpec::Idle)
        }),
{
    lemma_child_words();
}

/// Requests that were open before are handled again as if they came now, in order,
/// each by its own handler.
pub proof fn law_open_requests_are_handled_again(
    c: ControlSpec,
    first: JsonSpec,
    rest: Seq<JsonSpec>,
    task: u64,
)
    requires
        has_text(first, "type"@, "control_request"@),
        task < u64::MAX,
    ensures
        ({
            let (next, action) = c.inbound(first, task);
            let (last, others) = next.replayed(rest, (task + 1) as u64);
            c.replayed(seq![first] + rest, task) == (last, seq![action] + others)
        }),
        c.replayed(Seq::empty(), task) == (c, Seq::<ActionSpec>::empty()),
{
    lemma_child_words();
    let all = seq![first] + rest;
    assert(all[0] == first);
    assert(all.skip(1) =~= rest);
}

/// The first request to a child asks it to initialize. It holds each choice under
/// its own name, and none that was not made.
pub proof fn law_initialize_request(o: InitializeOptions)
    ensures
        ({
            let r = o.request();
            &&& has_text(r, "subtype"@, "initialize"@)
            &&& r.get("forwardSubagentText"@) == Some(JsonSpec::Bool(o.forward_subagent_text))
            &&& o.hooks matches Some(v) ==> r.get("hooks"@) == Some(v@)
            &&& o.hooks is None ==> r.get("hooks"@) is None
            &&& o.system_prompt matches Some(v) ==> r.get("systemPrompt"@) == Some(v@)
            &&& o.system_prompt is None ==> r.get("systemPrompt"@) is None
            &&& o.agents matches Some(v) ==> r.get("agents"@) == Some(v@)
            &&& o.agents is None ==> r.get("agents"@) is None
            &&& o.skills matches Some(v) ==> r.get("skills"@) == Some(v@)
            &&& o.skills is None ==> r.get("skills"@) is None
            &&& o.tool_aliases matches Some(v) ==> r.get("toolAliases"@) == Some(v@)
            &&& o.tool_aliases is None ==> r.get("toolAliases"@) is None
        }),
{
    lemma_child_words();
}

/// The answer to it is read from `response.response`, and a list that it lacks is
/// empty.
pub proof fn law_initialize_response_is_read(
    frame: JsonSpec,
    outer: JsonSpec,
    inner: JsonSpec,
    key: Seq<char>,
    list: Seq<JsonSpec>,
)
    requires
        frame.get("response"@) == Some(outer),
        outer.get("response"@) == Some(inner),
    ensures
        inner_response(frame) == inner,
        inner.get(key) == Some(JsonSpec::Array(list)) ==> list_under(inner_response(frame), key)
            == list,
        !(inner.get(key) matches Some(JsonSpec::Array(_))) ==> list_under(
            inner_response(frame),
            key,
        ).len() == 0,
{
}

/// What a child that could not be started, or reached, says.
pub proof fn law_child_errors_are_worded(a: String, b: String)
    ensures
        (SpawnError::Spawn { binary: a, source: b }).words() == "failed to spawn `"@ + a@ + "`: "@
            + b@,
        SpawnError::Stdin(a).words() == "failed to write to child stdin: "@ + a@,
        SpawnError::Signal(a).words() == "failed to signal child: "@ + a@,
        (SpawnError::ExitedEarly { tail: a }).words() == "child exited early (no result frame): "@
            + a@,
        SpawnError::Resolve(ResolveError::NotFound { name: a }).words()
            == "failed to resolve the executable: "@
            + "no executable found: `claude_path` not set, `CLAUDE_CODE_EXECUTABLE` not set, and `"@
            + a@ + "` is not on PATH"@,
        ControlError::Closed.words() == "control channel closed"@,
        ControlError::Stdin(a).words() == "failed to write a frame to child stdin: "@ + a@,
        ControlError::Serialize(a).words() == "failed to serialise a frame: "@ + a@,
{
}

/// A bare response names its request and says how it went.
pub proof fn law_bare_response(id: Seq<char>, subtype: Seq<char>)
    ensures
        has_text(bare_response(id, subtype), "type"@, "control_response"@),
        bare_response(id, subtype).get("response"@) matches Some(r) && has_text(
            r,
            "request_id"@,
            id,
        ) && has_text(r, "subtype"@, subtype),
{
    lemma_child_words();
}

/// Tells the words apart, by their lengths and letters.
proof fn lemma_child_words()
    ensures
        "agents"@.len() == 6 && "agents"@[1] == 'g',
        "assistant"@.len() == 9,
        "control_cancel_request"@.len() == 22,
        "control_request"@.len() == 15,
        "control_response"@.len() == 16,
        "forwardSubagentText"@.len() == 19,
        "hooks"@.len() == 5,
        "keep_alive"@.len() == 10 && "keep_alive"@[0] == 'k',
        "request"@.len() == 7 && "request"@[0] == 'r',
        "request_id"@.len() == 10 && "request_id"@[0] == 'r',
        "response"@.len() == 8,
        "result"@.len() == 6 && "result"@[1] == 'e',
        "skills"@.len() == 6 && "skills"@[1] == 'k',
        "stream_event"@.len() == 12 && "stream_event"@[1] == 't',
        "subtype"@.len() == 7 && "subtype"@[0] == 's',
        "system"@.len() == 6 && "system"@[1] == 'y',
        "systemPrompt"@.len() == 12 && "systemPrompt"@[1] == 'y',
        "toolAliases"@.len() == 11,
        "type"@.len() == 4 && "type"@[0] == 't',
        "user"@.len() == 4 && "user"@[0] == 'u',
{
    reveal_strlit("agents");
    reveal_strlit("assistant");
    reveal_strlit("control_cancel_request");
    reveal_strlit("control_request");
    reveal_strlit("control_response");
    reveal_strlit("forwardSubagentText");
    reveal_strlit("hooks");
    reveal_strlit("keep_alive");
    reveal_strlit("request");
    reveal_strlit("request_id");
    reveal_strlit("response");
    reveal_strlit("result");
    reveal_strlit("skills");
    reveal_strlit("stream_event");
    reveal_strlit("subtype");
    reveal_strlit("system");
    reveal_strlit("systemPrompt");
    reveal_strlit("toolAliases");
    reveal_strlit("type");
    reveal_strlit("user");
}

} // verus!

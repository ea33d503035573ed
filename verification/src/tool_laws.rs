//! What holds of the ways in which tool calls and their results are shown.

use vstd::prelude::*;

use crate::acp::{BlockSpec, ContentSpec, LocationSpec, ToolKind};
use crate::json::{has_text, json_pretty, json_text, law_empty_has_no_members, law_member_of_with, member_texts, strings_in, uint, JsonSpec};
use crate::strs::{decimal, joined, text_lines, trimmed_end, trimmed_start};
use crate::tools::{fence, fence_len, meta_of, result_shown, shape_of, ticks, ShapeSpec};

verus! {

broadcast use {law_member_of_with, law_empty_has_no_members};

/// Whether a value has this text under the key, or none at all.
pub open spec fn may_have(j: JsonSpec, key: Seq<char>, o: Option<Seq<char>>) -> bool {
    match o {
        Some(s) => has_text(j, key, s),
        None => !(j.get(key) matches Some(JsonSpec::Str(_))),
    }
}

/// Whether a value asks for what stands under the key.
pub open spec fn asks(j: JsonSpec, key: Seq<char>) -> bool {
    j.get(key) == Some(JsonSpec::Bool(true))
}

/// Whether a value has this list under the key. An empty one may be left out.
pub open spec fn lists(j: JsonSpec, key: Seq<char>, list: Seq<JsonSpec>) -> bool {
    ||| j.get(key) == Some(JsonSpec::Array(list))
    ||| j.get(key) is None && list == Seq::<JsonSpec>::empty()
}

/// A piece of text.
pub open spec fn plain(text: Seq<char>) -> ContentSpec {
    ContentSpec::Content { content: BlockSpec::Text { text } }
}

/// A text between ticks, behind a space; nothing without one.
pub open spec fn quoted(o: Option<Seq<char>>) -> Seq<char> {
    match o {
        Some(s) => " `"@ + s + "`"@,
        None => Seq::empty(),
    }
}

/// A text under a condition; nothing without it.
pub open spec fn given(on: bool, text: Seq<char>) -> Seq<char> {
    if on {
        text
    } else {
        Seq::empty()
    }
}

/// A command is shown as itself, and what it is for below it.
pub proof fn law_command_is_shown(
    input: JsonSpec,
    command: Option<Seq<char>>,
    description: Option<Seq<char>>,
)
    requires
        may_have(input, "command"@, command),
        may_have(input, "description"@, description),
    ensures
        shape_of("Bash"@, input) == (ShapeSpec {
            kind: ToolKind::Execute,
            title: if command is Some { command->0 } else { "Terminal"@ },
            locations: Seq::empty(),
            content: match description {
                Some(s) => seq![plain(s)],
                None => Seq::empty(),
            },
        }),
{
    lemma_tool_words();
}

/// A subagent is shown by what it is for, and its prompt below it, under either name.
pub proof fn law_subagent_is_shown(
    input: JsonSpec,
    name: Seq<char>,
    description: Option<Seq<char>>,
    prompt: Option<Seq<char>>,
)
    requires
        name == "Agent"@ || name == "Task"@,
        may_have(input, "description"@, description),
        may_have(input, "prompt"@, prompt),
    ensures
        shape_of(name, input) == (ShapeSpec {
            kind: ToolKind::Think,
            title: if description is Some { description->0 } else { "Task"@ },
            locations: Seq::empty(),
            content: match prompt {
                Some(s) => seq![plain(s)],
                None => Seq::empty(),
            },
        }),
{
    lemma_tool_words();
}

/// A read leads to the file, at the line it starts with: the first if none is named.
pub proof fn law_read_leads_to_the_line(input: JsonSpec, path: Seq<char>, from: u64)
    requires
        has_text(input, "file_path"@, path),
        input.get("offset"@) == Some(uint(from)) || (input.get("offset"@) is None && from == 1),
        from <= u32::MAX,
    ensures
        shape_of("Read"@, input).kind == ToolKind::Read,
        shape_of("Read"@, input).content.len() == 0,
        shape_of("Read"@, input).locations == seq![LocationSpec { path, line: Some(from as u32) }],
{
    lemma_tool_words();
}

/// A read is titled by the file and by the lines that it reads: as many as its limit,
/// from the line it starts with. Without a limit the file alone is named.
pub proof fn law_read_is_titled(input: JsonSpec, path: Seq<char>, from: u64, limit: u64)
    requires
        has_text(input, "file_path"@, path),
        input.get("offset"@) == Some(uint(from)) || (input.get("offset"@) is None && from == 1),
    ensures
        input.get("limit"@) is None ==> shape_of("Read"@, input).title == "Read "@ + path,
        input.get("limit"@) == Some(uint(limit)) && limit > 0 ==> exists|to: nat| from + limit
            == to + 1 && shape_of("Read"@, input).title == "Read "@ + path + " ("@
            + #[trigger] decimal(from as nat) + " - "@ + #[trigger] decimal(to) + ")"@,
        input.get("limit"@) == Some(uint(0)) ==> shape_of("Read"@, input).title == "Read "@ + path
            + " (from line "@ + decimal(from as nat) + ")"@,
{
    lemma_tool_words();
    if input.get("limit"@) == Some(uint(limit)) && limit > 0 {
        let to = (from + limit - 1) as nat;
        assert(shape_of("Read"@, input).title == "Read "@ + path + " ("@ + decimal(from as nat)
            + " - "@ + decimal(to) + ")"@);
    }
}

/// A read that names no file yet leads nowhere.
pub proof fn law_read_without_a_file(input: JsonSpec)
    requires
        may_have(input, "file_path"@, None),
        input.get("limit"@) is None,
    ensures
        shape_of("Read"@, input).title == "Read "@ + "File"@,
        shape_of("Read"@, input).kind == ToolKind::Read,
        shape_of("Read"@, input).locations.len() == 0,
{
    lemma_tool_words();
}

/// A write is shown as the new text of its file, and leads to it.
pub proof fn law_write_is_a_change(input: JsonSpec, path: Seq<char>, text: Seq<char>)
    requires
        has_text(input, "file_path"@, path),
        has_text(input, "content"@, text),
    ensures
        shape_of("Write"@, input) == (ShapeSpec {
            kind: ToolKind::Edit,
            title: "Write "@ + path,
            locations: seq![LocationSpec { path, line: None }],
            content: seq![ContentSpec::Diff { path, old_text: None, new_text: text }],
        }),
{
    lemma_tool_words();
}

/// A write that names no file yet shows its text as it is.
pub proof fn law_write_without_a_file(input: JsonSpec, text: Option<Seq<char>>)
    requires
        may_have(input, "file_path"@, None),
        may_have(input, "content"@, text),
    ensures
        shape_of("Write"@, input).title == "Preparing file…"@,
        shape_of("Write"@, input).kind == ToolKind::Edit,
        shape_of("Write"@, input).locations.len() == 0,
        shape_of("Write"@, input).content == match text {
                Some(s) => seq![plain(s)],
                None => Seq::empty(),
            },
{
    lemma_tool_words();
}

/// An edit is shown as the change from the old text to the new in its file, and leads
/// to it. One that neither takes nor gives a text shows no change.
pub proof fn law_edit_is_a_change(
    input: JsonSpec,
    path: Seq<char>,
    old_text: Option<Seq<char>>,
    new_text: Option<Seq<char>>,
)
    requires
        has_text(input, "file_path"@, path),
        may_have(input, "old_string"@, old_text),
        may_have(input, "new_string"@, new_text),
    ensures
        shape_of("Edit"@, input).kind == ToolKind::Edit,
        shape_of("Edit"@, input).title == "Edit "@ + path,
        shape_of("Edit"@, input).locations == seq![LocationSpec { path, line: None }],
        (old_text is Some && old_text->0.len() > 0) || (new_text is Some && new_text->0.len() > 0)
            ==> shape_of("Edit"@, input).content == seq![ContentSpec::Diff { path, old_text,
            new_text: if new_text is Some { new_text->0 } else { Seq::empty() } }],
        !((old_text is Some && old_text->0.len() > 0) || (new_text is Some
            && new_text->0.len() > 0)) ==> shape_of("Edit"@, input).content.len() == 0,
{
    lemma_tool_words();
}

/// A search for files is titled by where and what it looks for, and leads there.
pub proof fn law_glob_is_shown(input: JsonSpec, path: Option<Seq<char>>, pattern: Option<Seq<char>>)
    requires
        may_have(input, "path"@, path),
        may_have(input, "pattern"@, pattern),
    ensures
        shape_of("Glob"@, input) == (ShapeSpec {
            kind: ToolKind::Search,
            title: "Find"@ + quoted(path) + quoted(pattern),
            locations: match path {
                Some(path) => seq![LocationSpec { path, line: None }],
                None => Seq::empty(),
            },
            content: Seq::empty(),
        }),
{
    lemma_tool_words();
}

/// A search in files is titled as the command line that does it: each option that it
/// asks for, in a fixed order, then the pattern and the path.
pub proof fn law_grep_is_a_command_line(
    input: JsonSpec,
    ignore_case: bool,
    numbers: bool,
    multiline: bool,
    after: Option<JsonSpec>,
    before: Option<JsonSpec>,
    around: Option<JsonSpec>,
    limit: Option<JsonSpec>,
    mode: Option<Seq<char>>,
    files: Option<Seq<char>>,
    kind: Option<Seq<char>>,
    pattern: Option<Seq<char>>,
    path: Option<Seq<char>>,
)
    requires
        asks(input, "-i"@) == ignore_case,
        asks(input, "-n"@) == numbers,
        asks(input, "multiline"@) == multiline,
        input.get("-A"@) == after,
        input.get("-B"@) == before,
        input.get("-C"@) == around,
        input.get("head_limit"@) == limit,
        may_have(input, "output_mode"@, mode),
        may_have(input, "glob"@, files),
        may_have(input, "type"@, kind),
        may_have(input, "pattern"@, pattern),
        may_have(input, "path"@, path),
    ensures
        shape_of("Grep"@, input).kind == ToolKind::Search,
        shape_of("Grep"@, input).locations.len() == 0,
        shape_of("Grep"@, input).content.len() == 0,
        shape_of("Grep"@, input).title == "grep"@
            + given(ignore_case, " -i"@)
            + given(numbers, " -n"@)
            + given(after is Some, " -A "@ + json_text(after->0))
            + given(before is Some, " -B "@ + json_text(before->0))
            + given(around is Some, " -C "@ + json_text(around->0))
            + (if mode == Some("files_with_matches"@) {
                " -l"@
            } else {
                given(mode == Some("count"@), " -c"@)
            })
            + given(limit is Some, " | head -"@ + json_text(limit->0))
            + given(files is Some, " --include=\""@ + files->0 + "\""@)
            + given(kind is Some, " --type="@ + kind->0)
            + given(multiline, " -P"@)
            + given(pattern is Some, " \""@ + pattern->0 + "\""@)
            + given(path is Some, " "@ + path->0),
{
    lemma_tool_words();
    assert(" --type="@ + kind->0 + Seq::<char>::empty() =~= " --type="@ + kind->0);
    assert(" "@ + path->0 + Seq::<char>::empty() =~= " "@ + path->0);
}

/// A fetch is titled by its address and shows what is asked of the page.
pub proof fn law_fetch_is_shown(input: JsonSpec, url: Option<Seq<char>>, prompt: Option<Seq<char>>)
    requires
        may_have(input, "url"@, url),
        may_have(input, "prompt"@, prompt),
    ensures
        shape_of("WebFetch"@, input) == (ShapeSpec {
            kind: ToolKind::Fetch,
            title: if url is Some { "Fetch "@ + url->0 } else { "Fetch"@ },
            locations: Seq::empty(),
            content: match prompt {
                Some(s) => seq![plain(s)],
                None => Seq::empty(),
            },
        }),
{
    lemma_tool_words();
}

/// A search of the web is titled by its query, in quotes, and by the domains that it
/// keeps to or leaves out.
pub proof fn law_web_search_is_shown(
    input: JsonSpec,
    query: Option<Seq<char>>,
    allowed: Seq<JsonSpec>,
    blocked: Seq<JsonSpec>,
)
    requires
        may_have(input, "query"@, query),
        lists(input, "allowed_domains"@, allowed),
        lists(input, "blocked_domains"@, blocked),
    ensures
        shape_of("WebSearch"@, input) == (ShapeSpec {
            kind: ToolKind::Fetch,
            title: (if query is Some { "\""@ + query->0 + "\""@ } else { "Web search"@ })
                + (if allowed.len() > 0 { " (allowed: "@ + joined(strings_in(allowed), ", "@)
                + ")"@ } else { Seq::empty() }) + (if blocked.len() > 0 { " (blocked: "@
                + joined(strings_in(blocked), ", "@) + ")"@ } else { Seq::empty() }),
            locations: Seq::empty(),
            content: Seq::empty(),
        }),
{
    lemma_tool_words();
}

/// A list of tasks is titled by the tasks on it.
pub proof fn law_todo_list_is_titled(input: JsonSpec, todos: Seq<JsonSpec>)
    requires
        lists(input, "todos"@, todos),
    ensures
        shape_of("TodoWrite"@, input) == (ShapeSpec {
            kind: ToolKind::Think,
            title: if todos.len() > 0 { "Update TODOs: "@ + joined(member_texts(todos,
                "content"@), ", "@) } else { "Update TODOs"@ },
            locations: Seq::empty(),
            content: Seq::empty(),
        }),
{
    lemma_tool_words();
}

/// The texts under a key of a list of objects are read in order; an object without one
/// is passed over.
pub proof fn law_member_texts(list: Seq<JsonSpec>, value: JsonSpec, key: Seq<char>, text: Seq<char>)
    ensures
        member_texts(Seq::empty(), key).len() == 0,
        has_text(value, key, text) ==> member_texts(list.push(value), key) == member_texts(list,
            key).push(text),
        !(value.get(key) matches Some(JsonSpec::Str(_))) ==> member_texts(list.push(value), key)
            == member_texts(list, key),
{
    assert(list.push(value).drop_last() =~= list);
}

/// A report of findings is titled by how many there are.
pub proof fn law_findings_are_counted(input: JsonSpec, findings: Seq<JsonSpec>)
    requires
        lists(input, "findings"@, findings),
    ensures
        shape_of("ReportFindings"@, input).kind == ToolKind::Think,
        shape_of("ReportFindings"@, input).locations.len() == 0,
        shape_of("ReportFindings"@, input).title == (if findings.len()
            == 0 { "Report findings: none found"@ } else if findings.len() == 1 { "Report "@
            + decimal(findings.len()) + " finding"@ } else { "Report "@ + decimal(findings.len())
            + " findings"@ }),
{
    lemma_tool_words();
}

/// Each finding that names its file is shown, in order, by the file, its line where it
/// has one, and its summary; one that names no file is passed over.
pub proof fn law_findings_are_shown(
    findings: Seq<JsonSpec>,
    finding: JsonSpec,
    file: Seq<char>,
    line: u64,
    summary: Seq<char>,
    before: JsonSpec,
    after: JsonSpec,
)
    requires
        before.get("findings"@) == Some(JsonSpec::Array(findings)),
        after.get("findings"@) == Some(JsonSpec::Array(findings.push(finding))),
        has_text(finding, "summary"@, summary),
    ensures
        ({
            let was = shape_of("ReportFindings"@, before).content;
            let now = shape_of("ReportFindings"@, after).content;
            &&& has_text(finding, "file"@, file) && finding.get("line"@) == Some(uint(line))
                ==> now == was.push(plain("**"@ + file + ":"@ + decimal(line as nat) + "** — "@
                + summary))
            &&& has_text(finding, "file"@, file) && finding.get("line"@) is None ==> now
                == was.push(plain("**"@ + file + "** — "@ + summary))
            &&& finding.get("file"@) is None ==> now == was
        }),
{
    lemma_tool_words();
    assert(findings.push(finding).drop_last() =~= findings);
}

/// The tools that keep tasks are titled by what they do, and by the subject of the task
/// where they have one.
pub proof fn law_task_tools_are_titled(input: JsonSpec, subject: Option<Seq<char>>)
    requires
        may_have(input, "subject"@, subject),
    ensures
        shape_of("TaskCreate"@, input) == (ShapeSpec {
            kind: ToolKind::Think,
            title: if subject is Some { "Create task: "@ + subject->0 } else { "Create task"@ },
            locations: Seq::empty(),
            content: Seq::empty(),
        }),
        shape_of("TaskUpdate"@, input) == (ShapeSpec {
            kind: ToolKind::Think,
            title: if subject is Some { "Update task: "@ + subject->0 } else { "Update task"@ },
            locations: Seq::empty(),
            content: Seq::empty(),
        }),
        shape_of("TaskList"@, input) == (ShapeSpec {
            kind: ToolKind::Think,
            title: "List tasks"@,
            locations: Seq::empty(),
            content: Seq::empty(),
        }),
        shape_of("TaskGet"@, input) == (ShapeSpec {
            kind: ToolKind::Think,
            title: "Get task"@,
            locations: Seq::empty(),
            content: Seq::empty(),
        }),
{
    lemma_tool_words();
}

/// The end of planning shows the plan; a skill is titled by its name.
pub proof fn law_plan_and_skill_are_shown(
    input: JsonSpec,
    plan: Option<Seq<char>>,
    skill: Option<Seq<char>>,
)
    requires
        may_have(input, "plan"@, plan),
        may_have(input, "skill"@, skill),
    ensures
        shape_of("ExitPlanMode"@, input) == (ShapeSpec {
            kind: ToolKind::SwitchMode,
            title: "Ready to code?"@,
            locations: Seq::empty(),
            content: match plan {
                Some(s) => seq![plain(s)],
                None => Seq::empty(),
            },
        }),
        shape_of("Skill"@, input) == (ShapeSpec {
            kind: ToolKind::Other,
            title: if skill is Some { "Load skill: "@ + skill->0 } else { "Load skill"@ },
            locations: Seq::empty(),
            content: Seq::empty(),
        }),
{
    lemma_tool_words();
}

/// A single question to the user is its own title; of several, each is shown.
pub proof fn law_questions_are_shown(input: JsonSpec, questions: Seq<JsonSpec>, first: Seq<char>)
    requires
        lists(input, "questions"@, questions),
    ensures
        questions.len() == 1 && has_text(questions[0], "question"@, first)
            ==> shape_of("AskUserQuestion"@, input).title == first,
        questions.len() != 1 ==> shape_of("AskUserQuestion"@, input).title
            == "Asking for your input"@,
        shape_of("AskUserQuestion"@, input).kind == ToolKind::Other,
        shape_of("AskUserQuestion"@, input).locations.len() == 0,
        ({
            let texts = member_texts(questions, "question"@);
            let shown = shape_of("AskUserQuestion"@, input).content;
            &&& shown.len() == texts.len()
            &&& forall|i: int| 0 <= i < texts.len() ==> #[trigger] shown[i] == plain(texts[i])
        }),
{
    lemma_tool_words();
    assert(member_texts(Seq::empty(), "question"@).len() == 0);
}

/// A tool that is not known is shown by its name alone.
pub proof fn law_unknown_tool_is_shown_by_name(input: JsonSpec, name: Seq<char>)
    requires
        name != "Agent"@ && name != "Task"@ && name != "Bash"@ && name != "Read"@
            && name != "Write"@ && name != "Edit"@ && name != "Glob"@ && name != "Grep"@
            && name != "WebFetch"@ && name != "WebSearch"@ && name != "TodoWrite"@
            && name != "ReportFindings"@ && name != "TaskCreate"@ && name != "TaskUpdate"@
            && name != "TaskList"@ && name != "TaskGet"@ && name != "ExitPlanMode"@
            && name != "Skill"@ && name != "AskUserQuestion"@ && name != "Other"@,
    ensures
        shape_of(name, input) == (ShapeSpec {
            kind: ToolKind::Other,
            title: name,
            locations: Seq::empty(),
            content: Seq::empty(),
        }),
{
}

/// A tool without a name of its own shows its input as it was written down.
pub proof fn law_nameless_tool_shows_its_input(input: JsonSpec)
    ensures
        shape_of("Other"@, input).kind == ToolKind::Other,
        shape_of("Other"@, input).title == "Other"@,
        input is Object || input is Array ==> shape_of("Other"@, input).content
            == seq![plain("```json\n"@ + json_pretty(input) + "\n```"@)],
        !(input is Object || input is Array) ==> shape_of("Other"@, input).content
            == seq![plain("```json\n"@ + "{}"@ + "\n```"@)],
{
    lemma_tool_words();
}

/// What is told of a tool call beside its shape names the tool, whichever it is; what a
/// command is for, which skill is loaded and that a subagent works are told too, and
/// each of the right tool alone.
pub proof fn law_tool_is_named(name: Seq<char>, input: JsonSpec, said: JsonSpec)
    requires
        meta_of(name, input).get("claudeCode"@) == Some(said),
    ensures
        has_text(said, "toolName"@, name),
        forall|s: Seq<char>| #[trigger] has_text(said, "title"@, s) <==> name == "Bash"@
            && has_text(input, "description"@, s),
        said.get("subagent"@) == (if name == "Agent"@ || name
            == "Task"@ { Some(JsonSpec::Bool(true)) } else { None }),
        forall|s: Seq<char>| #[trigger] has_text(said, "skill"@, s) <==> name == "Skill"@
            && has_text(input, "skill"@, s),
{
    lemma_tool_words();
}

/// Every tool call has that account.
pub proof fn law_tool_has_an_account(name: Seq<char>, input: JsonSpec)
    ensures
        meta_of(name, input).get("claudeCode"@) is Some,
{
    lemma_tool_words();
}

/// The output of a command is shown as a console shows it, without the white space at
/// its end; no output, nothing.
pub proof fn law_command_output_is_shown(text: Seq<char>, is_error: bool)
    ensures
        trimmed_end(text).len() > 0 ==> result_shown("Bash"@, JsonSpec::Str(text), is_error)
            == Some(seq![plain("```console\n"@ + trimmed_end(text) + "\n```"@)]),
        trimmed_end(text).len() == 0 ==> result_shown("Bash"@, JsonSpec::Str(text),
            is_error) is None,
{
    lemma_tool_words();
}

/// What was read is shown whole, inside a fence of ticks; an empty file shows nothing.
pub proof fn law_read_text_is_shown(text: Seq<char>, is_error: bool)
    ensures
        text.len() == 0 ==> result_shown("Read"@, JsonSpec::Str(text), is_error) is None,
        text.len() > 0 ==> ({
            let f = fence(fence_len(text_lines(text)));
            let end = if text.last() == '\n' {
                Seq::empty()
            } else {
                "\n"@
            };
            result_shown("Read"@, JsonSpec::Str(text), is_error) == Some(
                seq![plain(f + "\n"@ + text + end + f)],
            )
        }),
{
    lemma_tool_words();
}

/// A fence is made of ticks, three or one more than the longest run of three or more
/// that starts a line of the text: long enough, and no longer.
pub proof fn law_fence_is_just_long_enough(lines: Seq<Seq<char>>)
    ensures
        fence(fence_len(lines)).len() == fence_len(lines),
        forall|i: int| 0 <= i < fence_len(lines) ==> #[trigger] fence(fence_len(lines))[i] == '`',
        fence_len(lines) >= 3,
        fence_len(lines) > 3 ==> exists|i: int|
            0 <= i < lines.len() && ticks(trimmed_start(#[trigger] lines[i])) + 1 == fence_len(
                lines,
            ),
    decreases lines.len(),
{
    if lines.len() > 0 {
        let before = lines.drop_last();
        law_fence_is_just_long_enough(before);
        assert(lines[lines.len() - 1] == lines.last());
        if fence_len(lines) > 3 && fence_len(lines) == fence_len(before) {
            let i = choose|i: int|
                0 <= i < before.len() && ticks(trimmed_start(#[trigger] before[i])) + 1
                    == fence_len(before);
            assert(lines[i] == before[i]);
        }
    }
}

/// The run of ticks that a text starts with is counted to its end.
pub proof fn law_ticks_are_counted(n: nat, rest: Seq<char>)
    requires
        rest.len() > 0 ==> rest[0] != '`',
    ensures
        ticks(fence(n) + rest) == n,
    decreases n,
{
    let s = fence(n) + rest;
    if n > 0 {
        law_ticks_are_counted((n - 1) as nat, rest);
        assert(s.drop_first() =~= fence((n - 1) as nat) + rest);
    } else {
        assert(s =~= rest);
    }
}

/// What a skill, a change to a file and the end of planning return is not shown.
pub proof fn law_silent_results(name: Seq<char>, content: JsonSpec, is_error: bool)
    requires
        name == "Skill"@ || name == "Edit"@ || name == "Write"@ || name == "ExitPlanMode"@,
    ensures
        result_shown(name, content, is_error) is None,
{
    lemma_tool_words();
}

/// The text that any other tool returns is shown as it is, and set apart where it is an
/// error; an empty one is not shown.
pub proof fn law_other_results_are_shown(name: Seq<char>, text: Seq<char>)
    requires
        name != "Read"@ && name != "Bash"@ && name != "Skill"@ && name != "Edit"@
            && name != "Write"@ && name != "ExitPlanMode"@,
    ensures
        text.len() > 0 ==> result_shown(name, JsonSpec::Str(text), false)
            == Some(seq![plain(text)]),
        text.len() > 0 ==> result_shown(name, JsonSpec::Str(text), true)
            == Some(seq![plain("```\n"@ + text + "\n```"@)]),
        text.len() == 0 ==> result_shown(name, JsonSpec::Str(text), false) is None
            && result_shown(name, JsonSpec::Str(text), true) is None,
{
}

/// Of a list that any other tool returns, each text and each image is shown, in order:
/// an image that holds its data with it, any other by a word for it.
pub proof fn law_listed_results_are_shown(
    name: Seq<char>,
    list: Seq<JsonSpec>,
    piece: JsonSpec,
    text: Seq<char>,
    source: JsonSpec,
    data: Seq<char>,
    mime: Seq<char>,
)
    requires
        name != "Read"@ && name != "Bash"@ && name != "Skill"@ && name != "Edit"@
            && name != "Write"@ && name != "ExitPlanMode"@,
        list.len() > 0,
    ensures
        ({
            let was = result_shown(name, JsonSpec::Array(list), false);
            let now = result_shown(name, JsonSpec::Array(list.push(piece)), false);
            &&& was is Some && now is Some
            &&& has_text(piece, "text"@, text) ==> now->0 == was->0.push(plain(text))
            &&& has_text(piece, "type"@, "image"@) && piece.get("text"@) is None
                && piece.get("source"@) == Some(source) ==> {
                &&& has_text(source, "type"@, "base64"@) && has_text(source, "data"@, data)
                    && has_text(source, "media_type"@, mime) ==> now->0
                    == was->0.push(ContentSpec::Content { content: BlockSpec::Image { data,
                    mime_type: mime } })
                &&& has_text(source, "type"@, "url"@) ==> now->0
                    == was->0.push(plain("[image: url]"@))
                &&& !has_text(source, "type"@, "url"@) && !has_text(source, "type"@, "base64"@)
                    ==> now->0 == was->0.push(plain("[image: file reference]"@))
            }
            &&& piece.get("text"@) is None && !has_text(piece, "type"@, "image"@) ==> now->0
                == was->0
        }),
{
    lemma_tool_words();
    assert(list.push(piece).drop_last() =~= list);
}

/// A list whose first piece is a text is shown from that text on; an empty list is not
/// shown.
pub proof fn law_listed_result_starts(name: Seq<char>, piece: JsonSpec, text: Seq<char>)
    requires
        name != "Read"@ && name != "Bash"@ && name != "Skill"@ && name != "Edit"@
            && name != "Write"@ && name != "ExitPlanMode"@,
        has_text(piece, "text"@, text),
    ensures
        result_shown(name, JsonSpec::Array(seq![piece]), false) == Some(seq![plain(text)]),
        result_shown(name, JsonSpec::Array(seq![piece]), true) == Some(seq![plain("```\n"@ + text
            + "\n```"@)]),
        result_shown(name, JsonSpec::Array(Seq::empty()), false) is None,
{
    let list = seq![piece];
    assert(list.drop_last() =~= Seq::<JsonSpec>::empty());
    assert(list.last() == piece);
    assert(crate::tools::pieces_shown(list.drop_last(), false) =~= Seq::<ContentSpec>::empty());
    assert(crate::tools::pieces_shown(list.drop_last(), true) =~= Seq::<ContentSpec>::empty());
}

/// A list of texts that a command or a read returns is shown as one text, its parts on
/// lines of their own.
pub proof fn law_listed_texts_are_one(list: Seq<JsonSpec>, is_error: bool)
    requires
        member_texts(list, "text"@).len() > 0,
    ensures
        ({
            let whole = JsonSpec::Str(joined(member_texts(list, "text"@), "\n"@));
            &&& result_shown("Bash"@, JsonSpec::Array(list), is_error) == result_shown("Bash"@,
                whole, is_error)
            &&& result_shown("Read"@, JsonSpec::Array(list), is_error) == result_shown("Read"@,
                whole, is_error)
        }),
{
    lemma_tool_words();
}

/// How the kind of a tool call is spelled for the client.
pub proof fn law_kinds_are_spelled()
    ensures
        ToolKind::Read.spelled() == "read"@,
        ToolKind::Edit.spelled() == "edit"@,
        ToolKind::Delete.spelled() == "delete"@,
        ToolKind::Move.spelled() == "move"@,
        ToolKind::Search.spelled() == "search"@,
        ToolKind::Execute.spelled() == "execute"@,
        ToolKind::Think.spelled() == "think"@,
        ToolKind::Fetch.spelled() == "fetch"@,
        ToolKind::SwitchMode.spelled() == "switch_mode"@,
        ToolKind::Other.spelled() == "other"@,
{
}

/// Tells the words apart, by their lengths and letters.
proof fn lemma_tool_words()
    ensures
        "Agent"@.len() == 5 && "Agent"@[0] == 'A',
        "AskUserQuestion"@.len() == 15,
        "Bash"@.len() == 4 && "Bash"@[3] == 'h',
        "Edit"@.len() == 4 && "Edit"@[3] == 't',
        "ExitPlanMode"@.len() == 12,
        "Glob"@.len() == 4 && "Glob"@[3] == 'b',
        "Grep"@.len() == 4 && "Grep"@[3] == 'p',
        "Other"@.len() == 5 && "Other"@[0] == 'O',
        "Read"@.len() == 4 && "Read"@[3] == 'd',
        "ReportFindings"@.len() == 14,
        "Skill"@.len() == 5 && "Skill"@[0] == 'S',
        "Task"@.len() == 4 && "Task"@[3] == 'k',
        "TaskCreate"@.len() == 10 && "TaskCreate"@[4] == 'C',
        "TaskGet"@.len() == 7,
        "TaskList"@.len() == 8 && "TaskList"@[0] == 'T',
        "TaskUpdate"@.len() == 10 && "TaskUpdate"@[4] == 'U',
        "TodoWrite"@.len() == 9 && "TodoWrite"@[0] == 'T',
        "WebFetch"@.len() == 8 && "WebFetch"@[0] == 'W',
        "WebSearch"@.len() == 9 && "WebSearch"@[0] == 'W',
        "Write"@.len() == 5 && "Write"@[0] == 'W',
        "base64"@.len() == 6,
        "claudeCode"@.len() == 10 && "claudeCode"@[4] == 'd',
        "skill"@.len() == 5 && "skill"@[0] == 's',
        "subagent"@.len() == 8 && "subagent"@[0] == 's',
        "title"@.len() == 5 && "title"@[0] == 't',
        "toolName"@.len() == 8 && "toolName"@[0] == 't',
        "url"@.len() == 3,
{
    reveal_strlit("Agent");
    reveal_strlit("AskUserQuestion");
    reveal_strlit("Bash");
    reveal_strlit("Edit");
    reveal_strlit("ExitPlanMode");
    reveal_strlit("Glob");
    reveal_strlit("Grep");
    reveal_strlit("Other");
    reveal_strlit("Read");
    reveal_strlit("ReportFindings");
    reveal_strlit("Skill");
    reveal_strlit("Task");
    reveal_strlit("TaskCreate");
    reveal_strlit("TaskGet");
    reveal_strlit("TaskList");
    reveal_strlit("TaskUpdate");
    reveal_strlit("TodoWrite");
    reveal_strlit("WebFetch");
    reveal_strlit("WebSearch");
    reveal_strlit("Write");
    reveal_strlit("base64");
    reveal_strlit("claudeCode");
    reveal_strlit("skill");
    reveal_strlit("subagent");
    reveal_strlit("title");
    reveal_strlit("toolName");
    reveal_strlit("url");
}

} // verus!

//! How a tool call is shown: its kind, title, files and content, from the name
//! of the tool and its input, and the content of its result.

use vstd::prelude::*;
use vstd::string::*;

use crate::acp::{contents, locations, opt_contents, opt_string, text_content, text_shown, BlockSpec, ContentBlock, ContentSpec, LocationSpec, ToolCallContent, ToolCallLocation, ToolKind};
use crate::json::{empty_object, json_pretty, json_text, jsons, member_texts, members_of, opt_text, strings_in, strings_of, Json, JsonSpec};
use crate::strs::{count_white, decimal, decimal_text, join, joined, lines, str_eq, text_lines, texts, to_chars, trim_end, trimmed_end, trimmed_start};

verus! {

/// How a tool call is shown.
#[derive(Debug, Clone, PartialEq, Eq)]
pub struct ToolShape {
    pub kind: ToolKind,
    pub title: String,
    pub locations: Vec<ToolCallLocation>,
    pub content: Vec<ToolCallContent>,
}

/// How a tool call is shown.
#[verifier::ext_equal]
pub struct ShapeSpec {
    pub kind: ToolKind,
    pub title: Seq<char>,
    pub locations: Seq<LocationSpec>,
    pub content: Seq<ContentSpec>,
}

impl ToolShape {
    /// What the shape holds.
    pub open spec fn view(&self) -> ShapeSpec {
        ShapeSpec {
            kind: self.kind,
            title: self.title@,
            locations: locations(self.locations@),
            content: contents(self.content@),
        }
    }
}

/// A shape with a title and nothing else.
pub open spec fn titled(kind: ToolKind, title: Seq<char>) -> ShapeSpec {
    ShapeSpec { kind, title, locations: Seq::empty(), content: Seq::empty() }
}

impl ShapeSpec {
    /// The shape with this text as its content, if there is one.
    pub open spec fn showing(self, text: Option<Seq<char>>) -> ShapeSpec {
        match text {
            Some(t) => ShapeSpec { content: seq![text_shown(t)], ..self },
            None => self,
        }
    }

    /// The shape with this file as its location, if there is one.
    pub open spec fn at(self, path: Option<Seq<char>>, line: Option<u32>) -> ShapeSpec {
        match path {
            Some(path) => ShapeSpec { locations: seq![LocationSpec { path, line }], ..self },
            None => self,
        }
    }
}

/// The text, or what stands in for it.
pub open spec fn text_or(o: Option<Seq<char>>, default: Seq<char>) -> Seq<char> {
    match o {
        Some(s) => s,
        None => default,
    }
}

/// `prefix` and the text, or `default` if there is none.
pub open spec fn prefixed_or(
    prefix: Seq<char>,
    o: Option<Seq<char>>,
    default: Seq<char>,
) -> Seq<char> {
    match o {
        Some(s) => prefix + s,
        None => default,
    }
}

/// `open`, the text and `close`; nothing if there is no text.
pub open spec fn wrapped(open_: Seq<char>, o: Option<Seq<char>>, close: Seq<char>) -> Seq<char> {
    match o {
        Some(s) => open_ + s + close,
        None => Seq::empty(),
    }
}

/// The flag if the member under `key` is true.
pub open spec fn flag(input: JsonSpec, key: Seq<char>, text: Seq<char>) -> Seq<char> {
    if input.get_bool(key) == Some(true) {
        text
    } else {
        Seq::empty()
    }
}

/// The flag and the member under `key`, printed as JSON.
pub open spec fn flag_value(input: JsonSpec, key: Seq<char>, text: Seq<char>) -> Seq<char> {
    match input.get(key) {
        Some(v) => text + json_text(v),
        None => Seq::empty(),
    }
}

/// Line one, unless an offset is given.
pub open spec fn first_line(input: JsonSpec) -> u64 {
    match input.get_u64("offset"@) {
        Some(n) => n,
        None => 1,
    }
}

/// The title of a read: the file, and the lines if a limit is given.
pub open spec fn read_title(input: JsonSpec) -> Seq<char> {
    let file = text_or(input.get_str("file_path"@), "File"@);
    let from = first_line(input);
    match input.get_u64("limit"@) {
        Some(limit) => if limit > 0 {
            "Read "@ + file + " ("@ + decimal(from as nat) + " - "@ + decimal(
                (from + limit - 1) as nat,
            ) + ")"@
        } else {
            "Read "@ + file + " (from line "@ + decimal(from as nat) + ")"@
        },
        None => "Read "@ + file,
    }
}

pub open spec fn read_shape(input: JsonSpec) -> ShapeSpec {
    titled(ToolKind::Read, read_title(input)).at(
        input.get_str("file_path"@),
        Some(first_line(input) as u32),
    )
}

/// A written file: the whole new text as a change, or as a text if no file is
/// named.
pub open spec fn write_shape(input: JsonSpec) -> ShapeSpec {
    let path = input.get_str("file_path"@);
    let text = input.get_str("content"@);
    let shape = titled(ToolKind::Edit, prefixed_or("Write "@, path, "Preparing file…"@)).at(
        path,
        None,
    );
    match path {
        Some(path) => ShapeSpec {
            content: seq![
                ContentSpec::Diff { path, old_text: None, new_text: text_or(text, Seq::empty()) },
            ],
            ..shape
        },
        None => shape.showing(text),
    }
}

/// An edited file: the change, unless both sides of it are empty.
pub open spec fn edit_shape(input: JsonSpec) -> ShapeSpec {
    let path = input.get_str("file_path"@);
    let old_text = input.get_str("old_string"@);
    let new_text = input.str_or_empty("new_string"@);
    let shape = titled(ToolKind::Edit, prefixed_or("Edit "@, path, "Edit"@)).at(path, None);
    if path is Some && (text_or(old_text, Seq::empty()).len() > 0 || new_text.len() > 0) {
        ShapeSpec {
            content: seq![ContentSpec::Diff { path: path->0, old_text, new_text }],
            ..shape
        }
    } else {
        shape
    }
}

pub open spec fn glob_shape(input: JsonSpec) -> ShapeSpec {
    let path = input.get_str("path"@);
    titled(
        ToolKind::Search,
        "Find"@ + wrapped(" `"@, path, "`"@) + wrapped(" `"@, input.get_str("pattern"@), "`"@),
    ).at(path, None)
}

/// The short form of an output mode.
pub open spec fn mode_flag(mode: Option<Seq<char>>) -> Seq<char> {
    if mode == Some("files_with_matches"@) {
        " -l"@
    } else if mode == Some("count"@) {
        " -c"@
    } else {
        Seq::empty()
    }
}

/// A search, written as a command line.
pub open spec fn grep_title(input: JsonSpec) -> Seq<char> {
    "grep"@ + flag(input, "-i"@, " -i"@) + flag(input, "-n"@, " -n"@) + flag_value(
        input,
        "-A"@,
        " -A "@,
    ) + flag_value(input, "-B"@, " -B "@) + flag_value(input, "-C"@, " -C "@) + mode_flag(
        input.get_str("output_mode"@),
    ) + flag_value(input, "head_limit"@, " | head -"@) + wrapped(
        " --include=\""@,
        input.get_str("glob"@),
        "\""@,
    ) + wrapped(" --type="@, input.get_str("type"@), Seq::empty()) + flag(
        input,
        "multiline"@,
        " -P"@,
    ) + wrapped(" \""@, input.get_str("pattern"@), "\""@) + wrapped(
        " "@,
        input.get_str("path"@),
        Seq::empty(),
    )
}

/// The names of a list of domains, in brackets; nothing for an empty list.
pub open spec fn domains(input: JsonSpec, key: Seq<char>, label: Seq<char>) -> Seq<char> {
    match input.get_array(key) {
        Some(a) => if a.len() > 0 {
            label + joined(strings_in(a), ", "@) + ")"@
        } else {
            Seq::empty()
        },
        None => Seq::empty(),
    }
}

pub open spec fn web_search_title(input: JsonSpec) -> Seq<char> {
    let query = match input.get_str("query"@) {
        Some(q) => "\""@ + q + "\""@,
        None => "Web search"@,
    };
    query + domains(input, "allowed_domains"@, " (allowed: "@) + domains(
        input,
        "blocked_domains"@,
        " (blocked: "@,
    )
}

pub open spec fn todo_title(input: JsonSpec) -> Seq<char> {
    match input.get_array("todos"@) {
        Some(a) => if a.len() > 0 {
            "Update TODOs: "@ + joined(member_texts(a, "content"@), ", "@)
        } else {
            "Update TODOs"@
        },
        None => "Update TODOs"@,
    }
}

/// The number of elements of the list under `key`; zero if there is no list.
pub open spec fn list_len(input: JsonSpec, key: Seq<char>) -> nat {
    match input.get_array(key) {
        Some(a) => a.len(),
        None => 0,
    }
}

/// One finding: the file, the line if there is one, and the summary.
pub open spec fn finding_text(f: JsonSpec) -> Option<Seq<char>> {
    match f.get_str("file"@) {
        Some(file) => match f.get_u64("line"@) {
            Some(line) => Some(
                "**"@ + file + ":"@ + decimal(line as nat) + "** — "@ + f.str_or_empty("summary"@),
            ),
            None => Some("**"@ + file + "** — "@ + f.str_or_empty("summary"@)),
        },
        None => None,
    }
}

/// The findings that name a file, in order.
pub open spec fn findings_shown(a: Seq<JsonSpec>) -> Seq<ContentSpec>
    decreases a.len(),
{
    if a.len() == 0 {
        Seq::empty()
    } else {
        match finding_text(a.last()) {
            Some(t) => findings_shown(a.drop_last()).push(text_shown(t)),
            None => findings_shown(a.drop_last()),
        }
    }
}

pub open spec fn findings_shape(input: JsonSpec) -> ShapeSpec {
    let n = list_len(input, "findings"@);
    let title = if n == 0 {
        "Report findings: none found"@
    } else if n == 1 {
        "Report "@ + decimal(n) + " finding"@
    } else {
        "Report "@ + decimal(n) + " findings"@
    };
    let shape = titled(ToolKind::Think, title);
    match input.get_array("findings"@) {
        Some(a) => ShapeSpec { content: findings_shown(a), ..shape },
        None => shape,
    }
}

/// The questions as texts to show.
pub open spec fn texts_shown(t: Seq<Seq<char>>) -> Seq<ContentSpec> {
    Seq::new(t.len(), |i: int| text_shown(t[i]))
}

/// A question to the user. A single one is the title.
pub open spec fn question_shape(input: JsonSpec) -> ShapeSpec {
    match input.get_array("questions"@) {
        Some(a) => ShapeSpec {
            kind: ToolKind::Other,
            title: if a.len() == 1 {
                text_or(a[0].get_str("question"@), "Asking for your input"@)
            } else {
                "Asking for your input"@
            },
            locations: Seq::empty(),
            content: texts_shown(member_texts(a, "question"@)),
        },
        None => titled(ToolKind::Other, "Asking for your input"@),
    }
}

/// The input printed over several lines; `{}` for what is neither a list nor an
/// object.
pub open spec fn pretty(input: JsonSpec) -> Seq<char> {
    match input {
        JsonSpec::Array(_) => json_pretty(input),
        JsonSpec::Object(_) => json_pretty(input),
        _ => "{}"@,
    }
}

/// How a tool call is shown.
pub open spec fn shape_of(name: Seq<char>, input: JsonSpec) -> ShapeSpec {
    if name == "Agent"@ || name == "Task"@ {
        titled(ToolKind::Think, text_or(input.get_str("description"@), "Task"@)).showing(
            input.get_str("prompt"@),
        )
    } else if name == "Bash"@ {
        titled(ToolKind::Execute, text_or(input.get_str("command"@), "Terminal"@)).showing(
            input.get_str("description"@),
        )
    } else if name == "Read"@ {
        read_shape(input)
    } else if name == "Write"@ {
        write_shape(input)
    } else if name == "Edit"@ {
        edit_shape(input)
    } else if name == "Glob"@ {
        glob_shape(input)
    } else if name == "Grep"@ {
        titled(ToolKind::Search, grep_title(input))
    } else if name == "WebFetch"@ {
        titled(ToolKind::Fetch, prefixed_or("Fetch "@, input.get_str("url"@), "Fetch"@)).showing(
            input.get_str("prompt"@),
        )
    } else if name == "WebSearch"@ {
        titled(ToolKind::Fetch, web_search_title(input))
    } else if name == "TodoWrite"@ {
        titled(ToolKind::Think, todo_title(input))
    } else if name == "ReportFindings"@ {
        findings_shape(input)
    } else if name == "TaskCreate"@ {
        titled(
            ToolKind::Think,
            prefixed_or("Create task: "@, input.get_str("subject"@), "Create task"@),
        )
    } else if name == "TaskUpdate"@ {
        titled(
            ToolKind::Think,
            prefixed_or("Update task: "@, input.get_str("subject"@), "Update task"@),
        )
    } else if name == "TaskList"@ {
        titled(ToolKind::Think, "List tasks"@)
    } else if name == "TaskGet"@ {
        titled(ToolKind::Think, "Get task"@)
    } else if name == "ExitPlanMode"@ {
        titled(ToolKind::SwitchMode, "Ready to code?"@).showing(input.get_str("plan"@))
    } else if name == "Skill"@ {
        titled(
            ToolKind::Other,
            prefixed_or("Load skill: "@, input.get_str("skill"@), "Load skill"@),
        )
    } else if name == "AskUserQuestion"@ {
        question_shape(input)
    } else if name == "Other"@ {
        titled(ToolKind::Other, name).showing(Some("```json\n"@ + pretty(input) + "\n```"@))
    } else {
        titled(ToolKind::Other, name)
    }
}

impl ToolShape {
    fn titled(kind: ToolKind, title: String) -> (r: ToolShape)
        ensures
            r@ == titled(kind, title@),
    {
        let r = ToolShape { kind, title, locations: Vec::new(), content: Vec::new() };
        proof {
            assert(r@ =~= titled(kind, title@));
        }
        r
    }

    fn showing(self, text: Option<&str>) -> (r: ToolShape)
        ensures
            r@ == self@.showing(opt_text(text)),
    {
        match text {
            Some(t) => {
                let mut content: Vec<ToolCallContent> = Vec::new();
                content.push(text_content(t.to_owned()));
                let r = ToolShape {
                    kind: self.kind,
                    title: self.title,
                    locations: self.locations,
                    content,
                };
                proof {
                    assert(r@ =~= self@.showing(opt_text(text)));
                }
                r
            },
            None => self,
        }
    }

    fn at(self, path: Option<&str>, line: Option<u32>) -> (r: ToolShape)
        ensures
            r@ == self@.at(opt_text(path), line),
    {
        match path {
            Some(p) => {
                let mut locations: Vec<ToolCallLocation> = Vec::new();
                locations.push(ToolCallLocation { path: p.to_owned(), line });
                let r = ToolShape {
                    kind: self.kind,
                    title: self.title,
                    locations,
                    content: self.content,
                };
                proof {
                    assert(r@ =~= self@.at(opt_text(path), line));
                }
                r
            },
            None => self,
        }
    }

    fn changing(self, path: &str, old_text: Option<&str>, new_text: &str) -> (r: ToolShape)
        ensures
            r@ == (ShapeSpec {
                content: seq![
                    ContentSpec::Diff {
                        path: path@,
                        old_text: opt_text(old_text),
                        new_text: new_text@,
                    },
                ],
                ..self@
            }),
    {
        let mut content: Vec<ToolCallContent> = Vec::new();
        let old = match old_text {
            Some(s) => Some(s.to_owned()),
            None => None,
        };
        content.push(
            ToolCallContent::Diff {
                path: path.to_owned(),
                old_text: old,
                new_text: new_text.to_owned(),
            },
        );
        let r = ToolShape {
            kind: self.kind,
            title: self.title,
            locations: self.locations,
            content,
        };
        proof {
            assert(r@.content =~= seq![
                ContentSpec::Diff {
                    path: path@,
                    old_text: opt_text(old_text),
                    new_text: new_text@,
                },
            ]);
        }
        r
    }
}

fn or_default(o: Option<&str>, default: &str) -> (r: String)
    ensures
        r@ == text_or(opt_text(o), default@),
{
    match o {
        Some(s) => s.to_owned(),
        None => default.to_owned(),
    }
}

fn prefixed(prefix: &str, o: Option<&str>, default: &str) -> (r: String)
    ensures
        r@ == prefixed_or(prefix@, opt_text(o), default@),
{
    match o {
        Some(s) => {
            let mut r = prefix.to_owned();
            r.append(s);
            r
        },
        None => default.to_owned(),
    }
}

fn append_wrapped(label: &mut String, open_: &str, o: Option<&str>, close: &str)
    ensures
        final(label)@ == old(label)@ + wrapped(open_@, opt_text(o), close@),
{
    if let Some(s) = o {
        label.append(open_);
        label.append(s);
        label.append(close);
    }
    proof {
        assert(label@ =~= old(label)@ + wrapped(open_@, opt_text(o), close@));
    }
}

fn append_flag(label: &mut String, input: &Json, key: &str, text: &str)
    ensures
        final(label)@ == old(label)@ + flag(input@, key@, text@),
{
    if let Some(b) = input.get_bool(key) {
        if b {
            label.append(text);
        }
    }
    proof {
        assert(label@ =~= old(label)@ + flag(input@, key@, text@));
    }
}

fn append_value(label: &mut String, input: &Json, key: &str, text: &str)
    ensures
        final(label)@ == old(label)@ + flag_value(input@, key@, text@),
{
    if let Some(v) = input.get(key) {
        label.append(text);
        label.append(v.to_text().as_str());
    }
    proof {
        assert(label@ =~= old(label)@ + flag_value(input@, key@, text@));
    }
}

fn first_line_of(input: &Json) -> (r: u64)
    ensures
        r == first_line(input@),
{
    match input.get_u64("offset") {
        Some(n) => n,
        None => 1,
    }
}

fn title_of_read(input: &Json) -> (r: String)
    ensures
        r@ == read_title(input@),
{
    let mut r = "Read ".to_owned();
    let from = first_line_of(input);
    r.append(or_default(input.get_str("file_path"), "File").as_str());
    if let Some(limit) = input.get_u64("limit") {
        if limit > 0 {
            let to: u128 = from as u128 + limit as u128 - 1;
            r.append(" (");
            r.append(decimal_text(from as u128).as_str());
            r.append(" - ");
            r.append(decimal_text(to).as_str());
            r.append(")");
        } else {
            r.append(" (from line ");
            r.append(decimal_text(from as u128).as_str());
            r.append(")");
        }
    }
    r
}

fn shape_of_read(input: &Json) -> (r: ToolShape)
    ensures
        r@ == read_shape(input@),
{
    let line: u32 = #[verifier::truncate]
    (first_line_of(input) as u32);
    ToolShape::titled(ToolKind::Read, title_of_read(input)).at(
        input.get_str("file_path"),
        Some(line),
    )
}

fn shape_of_write(input: &Json) -> (r: ToolShape)
    ensures
        r@ == write_shape(input@),
{
    let path = input.get_str("file_path");
    let text = input.get_str("content");
    let shape = ToolShape::titled(
        ToolKind::Edit,
        prefixed("Write ", path, "Preparing file…"),
    ).at(path, None);
    match path {
        Some(p) => {
            let new_text = input.str_or_empty("content");
            shape.changing(p, None, new_text)
        },
        None => shape.showing(text),
    }
}

fn shape_of_edit(input: &Json) -> (r: ToolShape)
    ensures
        r@ == edit_shape(input@),
{
    let path = input.get_str("file_path");
    let old_text = input.get_str("old_string");
    let new_text = input.str_or_empty("new_string");
    let shape = ToolShape::titled(ToolKind::Edit, prefixed("Edit ", path, "Edit")).at(path, None);
    let has_old = match old_text {
        Some(s) => !s.is_empty(),
        None => false,
    };
    match path {
        Some(p) => if has_old || !new_text.is_empty() {
            shape.changing(p, old_text, new_text)
        } else {
            shape
        },
        None => shape,
    }
}

fn shape_of_glob(input: &Json) -> (r: ToolShape)
    ensures
        r@ == glob_shape(input@),
{
    let path = input.get_str("path");
    let mut label = "Find".to_owned();
    append_wrapped(&mut label, " `", path, "`");
    append_wrapped(&mut label, " `", input.get_str("pattern"), "`");
    ToolShape::titled(ToolKind::Search, label).at(path, None)
}

fn title_of_grep(input: &Json) -> (r: String)
    ensures
        r@ == grep_title(input@),
{
    proof {
        reveal_strlit("");
    }
    let mut label = "grep".to_owned();
    append_flag(&mut label, input, "-i", " -i");
    append_flag(&mut label, input, "-n", " -n");
    append_value(&mut label, input, "-A", " -A ");
    append_value(&mut label, input, "-B", " -B ");
    append_value(&mut label, input, "-C", " -C ");
    let ghost before = label@;
    if let Some(mode) = input.get_str("output_mode") {
        if str_eq(mode, "files_with_matches") {
            label.append(" -l");
        } else if str_eq(mode, "count") {
            label.append(" -c");
        }
    }
    proof {
        assert(label@ =~= before + mode_flag(input@.get_str("output_mode"@)));
        assert(""@ =~= Seq::<char>::empty());
    }
    append_value(&mut label, input, "head_limit", " | head -");
    append_wrapped(&mut label, " --include=\"", input.get_str("glob"), "\"");
    append_wrapped(&mut label, " --type=", input.get_str("type"), "");
    append_flag(&mut label, input, "multiline", " -P");
    append_wrapped(&mut label, " \"", input.get_str("pattern"), "\"");
    append_wrapped(&mut label, " ", input.get_str("path"), "");
    label
}

fn append_domains(label: &mut String, input: &Json, key: &str, open_: &str)
    ensures
        final(label)@ == old(label)@ + domains(input@, key@, open_@),
{
    if let Some(a) = input.get_array(key) {
        if a.len() > 0 {
            label.append(open_);
            label.append(join(&strings_of(a), ", ").as_str());
            label.append(")");
        }
    }
    proof {
        assert(label@ =~= old(label)@ + domains(input@, key@, open_@));
    }
}

fn title_of_web_search(input: &Json) -> (r: String)
    ensures
        r@ == web_search_title(input@),
{
    let mut label = match input.get_str("query") {
        Some(q) => {
            let mut l = "\"".to_owned();
            l.append(q);
            l.append("\"");
            l
        },
        None => "Web search".to_owned(),
    };
    append_domains(&mut label, input, "allowed_domains", " (allowed: ");
    append_domains(&mut label, input, "blocked_domains", " (blocked: ");
    label
}

fn title_of_todos(input: &Json) -> (r: String)
    ensures
        r@ == todo_title(input@),
{
    if let Some(a) = input.get_array("todos") {
        if a.len() > 0 {
            let mut r = "Update TODOs: ".to_owned();
            r.append(join(&members_of(a, "content"), ", ").as_str());
            return r;
        }
    }
    "Update TODOs".to_owned()
}

fn text_of_finding(f: &Json) -> (r: Option<String>)
    ensures
        opt_string(r) == finding_text(f@),
{
    match f.get_str("file") {
        Some(file) => {
            let mut r = "**".to_owned();
            r.append(file);
            if let Some(line) = f.get_u64("line") {
                r.append(":");
                r.append(decimal_text(line as u128).as_str());
            }
            r.append("** — ");
            r.append(f.str_or_empty("summary"));
            Some(r)
        },
        None => None,
    }
}

fn shape_of_findings(input: &Json) -> (r: ToolShape)
    ensures
        r@ == findings_shape(input@),
{
    let found = input.get_array("findings");
    let count: usize = match found {
        Some(a) => a.len(),
        None => 0,
    };
    let title = if count == 0 {
        "Report findings: none found".to_owned()
    } else {
        let mut t = "Report ".to_owned();
        t.append(decimal_text(count as u128).as_str());
        if count == 1 {
            t.append(" finding");
        } else {
            t.append(" findings");
        }
        t
    };
    let shape = ToolShape::titled(ToolKind::Think, title);
    match found {
        Some(a) => {
            let mut content: Vec<ToolCallContent> = Vec::new();
            let mut i: usize = 0;
            while i < a.len()
                invariant
                    i <= a@.len(),
                    contents(content@) == findings_shown(jsons(a@).take(i as int)),
                decreases a@.len() - i,
            {
                let ghost before = contents(content@);
                proof {
                    let all = jsons(a@);
                    assert(all.take(i + 1).drop_last() =~= all.take(i as int));
                    assert(all.take(i + 1).last() == a@[i as int]@);
                }
                if let Some(t) = text_of_finding(&a[i]) {
                    content.push(text_content(t));
                    proof {
                        assert(contents(content@) =~= before.push(text_shown(t@)));
                    }
                }
                i += 1;
            }
            proof {
                assert(jsons(a@).take(i as int) =~= jsons(a@));
            }
            ToolShape {
                kind: shape.kind,
                title: shape.title,
                locations: shape.locations,
                content,
            }
        },
        None => shape,
    }
}

fn shape_of_question(input: &Json) -> (r: ToolShape)
    ensures
        r@ == question_shape(input@),
{
    match input.get_array("questions") {
        Some(a) => {
            let title = if a.len() == 1 {
                or_default(a[0].get_str("question"), "Asking for your input")
            } else {
                "Asking for your input".to_owned()
            };
            let shape = ToolShape::titled(ToolKind::Other, title);
            let asked = members_of(a, "question");
            let mut content: Vec<ToolCallContent> = Vec::new();
            let mut i: usize = 0;
            while i < asked.len()
                invariant
                    i <= asked@.len(),
                    content@.len() == i,
                    forall|k: int| 0 <= k < i ==> (#[trigger] content@[k])@ == text_shown(asked@[k]@),
                decreases asked@.len() - i,
            {
                content.push(text_content(asked[i].clone()));
                i += 1;
            }
            let r = ToolShape {
                kind: shape.kind,
                title: shape.title,
                locations: shape.locations,
                content,
            };
            proof {
                assert(r@.content =~= texts_shown(texts(asked@)));
            }
            r
        },
        None => ToolShape::titled(ToolKind::Other, "Asking for your input".to_owned()),
    }
}

fn pretty_json(input: &Json) -> (r: String)
    ensures
        r@ == pretty(input@),
{
    match input {
        Json::Array(_) => input.to_pretty(),
        Json::Object(_) => input.to_pretty(),
        _ => "{}".to_owned(),
    }
}

/// How a tool call is shown. A tool that is not known is shown by its name.
pub fn tool_shape(name: &str, input: &Json) -> (r: ToolShape)
    ensures
        r@ == shape_of(name@, input@),
{
    if str_eq(name, "Agent") || str_eq(name, "Task") {
        ToolShape::titled(
            ToolKind::Think,
            or_default(input.get_str("description"), "Task"),
        ).showing(input.get_str("prompt"))
    } else if str_eq(name, "Bash") {
        ToolShape::titled(
            ToolKind::Execute,
            or_default(input.get_str("command"), "Terminal"),
        ).showing(input.get_str("description"))
    } else if str_eq(name, "Read") {
        shape_of_read(input)
    } else if str_eq(name, "Write") {
        shape_of_write(input)
    } else if str_eq(name, "Edit") {
        shape_of_edit(input)
    } else if str_eq(name, "Glob") {
        shape_of_glob(input)
    } else if str_eq(name, "Grep") {
        ToolShape::titled(ToolKind::Search, title_of_grep(input))
    } else if str_eq(name, "WebFetch") {
        ToolShape::titled(
            ToolKind::Fetch,
            prefixed("Fetch ", input.get_str("url"), "Fetch"),
        ).showing(input.get_str("prompt"))
    } else if str_eq(name, "WebSearch") {
        ToolShape::titled(ToolKind::Fetch, title_of_web_search(input))
    } else if str_eq(name, "TodoWrite") {
        ToolShape::titled(ToolKind::Think, title_of_todos(input))
    } else if str_eq(name, "ReportFindings") {
        shape_of_findings(input)
    } else if str_eq(name, "TaskCreate") {
        ToolShape::titled(
            ToolKind::Think,
            prefixed("Create task: ", input.get_str("subject"), "Create task"),
        )
    } else if str_eq(name, "TaskUpdate") {
        ToolShape::titled(
            ToolKind::Think,
            prefixed("Update task: ", input.get_str("subject"), "Update task"),
        )
    } else if str_eq(name, "TaskList") {
        ToolShape::titled(ToolKind::Think, "List tasks".to_owned())
    } else if str_eq(name, "TaskGet") {
        ToolShape::titled(ToolKind::Think, "Get task".to_owned())
    } else if str_eq(name, "ExitPlanMode") {
        ToolShape::titled(ToolKind::SwitchMode, "Ready to code?".to_owned()).showing(
            input.get_str("plan"),
        )
    } else if str_eq(name, "Skill") {
        ToolShape::titled(
            ToolKind::Other,
            prefixed("Load skill: ", input.get_str("skill"), "Load skill"),
        )
    } else if str_eq(name, "AskUserQuestion") {
        shape_of_question(input)
    } else if str_eq(name, "Other") {
        let mut text = "```json\n".to_owned();
        text.append(pretty_json(input).as_str());
        text.append("\n```");
        ToolShape::titled(ToolKind::Other, name.to_owned()).showing(Some(text.as_str()))
    } else {
        ToolShape::titled(ToolKind::Other, name.to_owned())
    }
}

/// The details that a tool call carries about its tool.
pub open spec fn code_meta(name: Seq<char>, input: JsonSpec) -> JsonSpec {
    let base = empty_object().with("toolName"@, JsonSpec::Str(name));
    if name == "Bash"@ && input.get_str("description"@) is Some {
        base.with("title"@, JsonSpec::Str(input.get_str("description"@)->0))
    } else if name == "Agent"@ || name == "Task"@ {
        base.with("subagent"@, JsonSpec::Bool(true))
    } else if name == "Skill"@ && input.get_str("skill"@) is Some {
        base.with("skill"@, JsonSpec::Str(input.get_str("skill"@)->0))
    } else {
        base
    }
}

/// The details that a tool call carries about its tool.
pub fn claude_code_meta(name: &str, input: &Json) -> (r: Json)
    ensures
        r@ == code_meta(name@, input@),
{
    proof {
        reveal_strlit("Bash");
        reveal_strlit("Agent");
        reveal_strlit("Task");
        reveal_strlit("Skill");
        assert("Bash"@[0] == 'B' && "Agent"@[0] == 'A' && "Task"@[0] == 'T' && "Skill"@[0] == 'S');
    }
    let mut map = Json::object().with("toolName", Json::text(name));
    if str_eq(name, "Bash") {
        if let Some(d) = input.get_str("description") {
            map = map.with("title", Json::text(d));
        }
    }
    if str_eq(name, "Agent") || str_eq(name, "Task") {
        map = map.with("subagent", Json::Bool(true));
    }
    if str_eq(name, "Skill") {
        if let Some(d) = input.get_str("skill") {
            map = map.with("skill", Json::text(d));
        }
    }
    map
}

/// The metadata of a tool call.
pub open spec fn meta_of(name: Seq<char>, input: JsonSpec) -> JsonSpec {
    empty_object().with("claudeCode"@, code_meta(name, input))
}

/// The metadata of a tool call.
pub fn tool_meta(name: &str, input: &Json) -> (r: Json)
    ensures
        r@ == meta_of(name@, input@),
{
    Json::object().with("claudeCode", claude_code_meta(name, input))
}

/// How many backticks a text starts with.
pub open spec fn ticks(s: Seq<char>) -> nat
    decreases s.len(),
{
    if s.len() > 0 && s[0] == '`' {
        1 + ticks(s.drop_first())
    } else {
        0
    }
}

/// How many backticks fence these lines in: at least three, and more than any
/// line that could itself be a fence starts with.
pub open spec fn fence_len(lines: Seq<Seq<char>>) -> nat
    decreases lines.len(),
{
    if lines.len() == 0 {
        3
    } else {
        let before = fence_len(lines.drop_last());
        let run = ticks(trimmed_start(lines.last()));
        if run >= 3 && run >= before {
            run + 1
        } else {
            before
        }
    }
}

/// So many backticks.
pub open spec fn fence(n: nat) -> Seq<char> {
    Seq::new(n, |i: int| '`')
}

/// The text between two fences, each on a line of its own.
pub open spec fn fenced(text: Seq<char>) -> Seq<char> {
    let f = fence(fence_len(text_lines(text)));
    f + "\n"@ + text + if text.len() > 0 && text.last() == '\n' {
        Seq::empty()
    } else {
        "\n"@
    } + f
}

/// No line of a fenced text can be taken for the end of its fence: a line that
/// starts with three backticks or more starts with fewer than the fence has.
pub proof fn law_fence_is_longer(lines: Seq<Seq<char>>, i: int)
    requires
        0 <= i < lines.len(),
    ensures
        ticks(trimmed_start(lines[i])) < fence_len(lines),
        fence_len(lines) >= 3,
    decreases lines.len(),
{
    lemma_fence_at_least_three(lines);
    if i < lines.len() - 1 {
        law_fence_is_longer(lines.drop_last(), i);
        assert(lines.drop_last()[i] == lines[i]);
    } else {
        lemma_fence_at_least_three(lines.drop_last());
    }
}

proof fn lemma_fence_at_least_three(lines: Seq<Seq<char>>)
    ensures
        fence_len(lines) >= 3,
    decreases lines.len(),
{
    if lines.len() > 0 {
        lemma_fence_at_least_three(lines.drop_last());
    }
}

proof fn lemma_ticks(s: Seq<char>, i: int)
    requires
        0 <= i <= s.len(),
        forall|j: int| 0 <= j < i ==> s[j] == '`',
        i < s.len() ==> s[i] != '`',
    ensures
        ticks(s) == i,
    decreases s.len(),
{
    if i > 0 {
        lemma_ticks(s.drop_first(), i - 1);
    }
}

/// How many backticks a line starts with, white space at its start left out.
fn count_ticks(line: &str) -> (r: usize)
    ensures
        r == ticks(trimmed_start(line@)),
{
    let cs = to_chars(line);
    let from = count_white(&cs);
    let ghost t = trimmed_start(line@);
    let mut to: usize = from;
    while to < cs.len() && cs[to] == '`'
        invariant
            from <= to <= cs@.len(),
            forall|j: int| from <= j < to ==> cs@[j] == '`',
        decreases cs@.len() - to,
    {
        to += 1;
    }
    proof {
        assert(t.len() == cs@.len() - from);
        assert forall|j: int| 0 <= j < to - from implies t[j] == '`' by {
            assert(t[j] == cs@[from + j]);
        }
        lemma_ticks(t, to - from);
    }
    to - from
}

/// The text between two fences that nothing in it can be taken for.
pub fn markdown_escape(text: &str) -> (r: String)
    ensures
        r@ == fenced(text@),
{
    let ls = lines(text);
    let mut f = "```".to_owned();
    let mut n: u128 = 3;
    proof {
        reveal_strlit("```");
        assert(f@ =~= fence(3));
    }
    let mut i: usize = 0;
    while i < ls.len()
        invariant
            i <= ls@.len(),
            n == fence_len(texts(ls@).take(i as int)),
            n >= 3,
            f@ == fence(n as nat),
        decreases ls@.len() - i,
    {
        let run = count_ticks(ls[i].as_str());
        proof {
            let all = texts(ls@);
            assert(all.take(i + 1).drop_last() =~= all.take(i as int));
            assert(all.take(i + 1).last() == ls@[i as int]@);
        }
        let ghost before = n;
        while run >= 3 && n <= run as u128
            invariant
                n >= 3,
                f@ == fence(n as nat),
                n == before || (run >= 3 && before < n <= run + 1),
            decreases run + 1 - n,
        {
            f.push('`');
            n = n + 1;
            proof {
                assert(f@ =~= fence(n as nat));
            }
        }
        i += 1;
    }
    proof {
        assert(texts(ls@).take(i as int) =~= texts(ls@));
    }
    let cs = to_chars(text);
    let mut r = f.clone();
    r.append("\n");
    r.append(text);
    if !(cs.len() > 0 && cs[cs.len() - 1] == '\n') {
        r.append("\n");
    }
    r.append(f.as_str());
    proof {
        assert(r@ =~= fenced(text@));
    }
    r
}

/// The text of a result: a text, or the texts of its pieces, one per line.
pub open spec fn result_text(content: JsonSpec) -> Option<Seq<char>> {
    match content {
        JsonSpec::Str(s) => Some(s),
        JsonSpec::Array(a) => {
            let t = member_texts(a, "text"@);
            if t.len() == 0 {
                None
            } else {
                Some(joined(t, "\n"@))
            }
        },
        _ => None,
    }
}

/// The text, in a code block if it tells of an error.
pub open spec fn plain_or_error(text: Seq<char>, is_error: bool) -> Seq<char> {
    if is_error {
        "```\n"@ + text + "\n```"@
    } else {
        text
    }
}

/// An image of a result: as it is if its data is there, else a note.
pub open spec fn image_shown(block: JsonSpec) -> ContentSpec {
    match block.get("source"@) {
        Some(source) => if source.get_str("type"@) == Some("base64"@) {
            ContentSpec::Content {
                content: BlockSpec::Image {
                    data: source.str_or_empty("data"@),
                    mime_type: source.str_or_empty("media_type"@),
                },
            }
        } else if source.get_str("type"@) == Some("url"@) {
            text_shown("[image: url]"@)
        } else {
            text_shown("[image: file reference]"@)
        },
        None => text_shown("[image: file reference]"@),
    }
}

/// A piece of a result: its text, or its image.
pub open spec fn piece_shown(block: JsonSpec, is_error: bool) -> Option<ContentSpec> {
    match block.get_str("text"@) {
        Some(t) => Some(text_shown(plain_or_error(t, is_error))),
        None => if block.get_str("type"@) == Some("image"@) {
            Some(image_shown(block))
        } else {
            None
        },
    }
}

/// The pieces of a result that can be shown, in order.
pub open spec fn pieces_shown(a: Seq<JsonSpec>, is_error: bool) -> Seq<ContentSpec>
    decreases a.len(),
{
    if a.len() == 0 {
        Seq::empty()
    } else {
        match piece_shown(a.last(), is_error) {
            Some(c) => pieces_shown(a.drop_last(), is_error).push(c),
            None => pieces_shown(a.drop_last(), is_error),
        }
    }
}

/// A result as it is.
pub open spec fn generic_shown(content: JsonSpec, is_error: bool) -> Option<Seq<ContentSpec>> {
    match content {
        JsonSpec::Str(s) => if s.len() > 0 {
            Some(seq![text_shown(plain_or_error(s, is_error))])
        } else {
            None
        },
        JsonSpec::Array(a) => if a.len() > 0 {
            Some(pieces_shown(a, is_error))
        } else {
            None
        },
        _ => None,
    }
}

/// What a result shows; `None` if it shows nothing.
pub open spec fn result_shown(name: Seq<char>, content: JsonSpec, is_error: bool) -> Option<
    Seq<ContentSpec>,
> {
    if name == "Read"@ {
        match result_text(content) {
            Some(t) => if t.len() > 0 {
                Some(seq![text_shown(fenced(t))])
            } else {
                None
            },
            None => None,
        }
    } else if name == "Bash"@ {
        let t = trimmed_end(text_or(result_text(content), Seq::empty()));
        if t.len() > 0 {
            Some(seq![text_shown("```console\n"@ + t + "\n```"@)])
        } else {
            None
        }
    } else if name == "Skill"@ || name == "Edit"@ || name == "Write"@ || name == "ExitPlanMode"@ {
        None
    } else {
        generic_shown(content, is_error)
    }
}

fn text_of_result(content: &Json) -> (r: Option<String>)
    ensures
        opt_string(r) == result_text(content@),
{
    match content {
        Json::Str(s) => Some(s.clone()),
        Json::Array(_) => match content.as_array() {
            Some(a) => {
                let t = members_of(a, "text");
                if t.len() == 0 {
                    None
                } else {
                    Some(join(&t, "\n"))
                }
            },
            None => None,
        },
        _ => None,
    }
}

fn text_or_error(text: &str, is_error: bool) -> (r: String)
    ensures
        r@ == plain_or_error(text@, is_error),
{
    if is_error {
        let mut r = "```\n".to_owned();
        r.append(text);
        r.append("\n```");
        r
    } else {
        text.to_owned()
    }
}

fn image_content(block: &Json) -> (r: ToolCallContent)
    ensures
        r@ == image_shown(block@),
{
    if let Some(source) = block.get("source") {
        if let Some(t) = source.get_str("type") {
            if str_eq(t, "base64") {
                return ToolCallContent::Content {
                    content: ContentBlock::Image {
                        data: source.str_or_empty("data").to_owned(),
                        mime_type: source.str_or_empty("media_type").to_owned(),
                    },
                };
            }
            if str_eq(t, "url") {
                return text_content("[image: url]".to_owned());
            }
        }
    }
    text_content("[image: file reference]".to_owned())
}

fn content_of_piece(block: &Json, is_error: bool) -> (r: Option<ToolCallContent>)
    ensures
        r matches Some(c) ==> piece_shown(block@, is_error) == Some(c@),
        r is None ==> piece_shown(block@, is_error) is None,
{
    if let Some(t) = block.get_str("text") {
        return Some(text_content(text_or_error(t, is_error)));
    }
    if let Some(t) = block.get_str("type") {
        if str_eq(t, "image") {
            return Some(image_content(block));
        }
    }
    None
}

fn single(c: ToolCallContent) -> (r: Vec<ToolCallContent>)
    ensures
        contents(r@) == seq![c@],
{
    let mut r: Vec<ToolCallContent> = Vec::new();
    r.push(c);
    proof {
        assert(contents(r@) =~= seq![c@]);
    }
    r
}

fn generic_content(content: &Json, is_error: bool) -> (r: Option<Vec<ToolCallContent>>)
    ensures
        opt_contents(r) == generic_shown(content@, is_error),
{
    match content {
        Json::Str(s) => if s.as_str().is_empty() {
            None
        } else {
            Some(single(text_content(text_or_error(s.as_str(), is_error))))
        },
        Json::Array(_) => match content.as_array() {
            Some(a) => {
                if a.len() == 0 {
                    return None;
                }
                let mut out: Vec<ToolCallContent> = Vec::new();
                let mut i: usize = 0;
                while i < a.len()
                    invariant
                        i <= a@.len(),
                        contents(out@) == pieces_shown(jsons(a@).take(i as int), is_error),
                    decreases a@.len() - i,
                {
                    let ghost before = contents(out@);
                    proof {
                        let all = jsons(a@);
                        assert(all.take(i + 1).drop_last() =~= all.take(i as int));
                        assert(all.take(i + 1).last() == a@[i as int]@);
                    }
                    if let Some(c) = content_of_piece(&a[i], is_error) {
                        out.push(c);
                        proof {
                            assert(contents(out@) =~= before.push(c@));
                        }
                    }
                    i += 1;
                }
                proof {
                    assert(jsons(a@).take(i as int) =~= jsons(a@));
                }
                Some(out)
            },
            None => None,
        },
        _ => None,
    }
}

/// What the result of a tool shows; `None` if it shows nothing.
pub fn tool_result_content(name: &str, result_content: &Json, is_error: bool) -> (r: Option<
    Vec<ToolCallContent>,
>)
    ensures
        opt_contents(r) == result_shown(name@, result_content@, is_error),
{
    if str_eq(name, "Read") {
        match text_of_result(result_content) {
            Some(t) => if t.as_str().is_empty() {
                None
            } else {
                Some(single(text_content(markdown_escape(t.as_str()))))
            },
            None => None,
        }
    } else if str_eq(name, "Bash") {
        let text = match text_of_result(result_content) {
            Some(t) => t,
            None => String::new(),
        };
        let trimmed = trim_end(text.as_str());
        if trimmed.as_str().is_empty() {
            None
        } else {
            let mut shown = "```console\n".to_owned();
            shown.append(trimmed.as_str());
            shown.append("\n```");
            Some(single(text_content(shown)))
        }
    } else if str_eq(name, "Skill") || str_eq(name, "Edit") || str_eq(name, "Write") || str_eq(
        name,
        "ExitPlanMode",
    ) {
        None
    } else {
        generic_content(result_content, is_error)
    }
}

} // verus!

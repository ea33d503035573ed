//! The script that a recording follows: calls to make, in order, and how requests
//! for permission are answered.
//!
//! A script is a JSON document. Fields that it does not know are ignored; one that
//! it knows must not be given twice. A record can also be written as the list of
//! its fields, in order.

use vstd::prelude::*;
use vstd::utf8::encode_utf8;

use crate::acp::opt_string;
use crate::json::{json_parse, jsons, opt_json, Json, JsonSpec};
use crate::members::{byte_texts, find_text, is_named_twice, items, items_of_text, member_views, members, members_of_text, named_twice, opt_bytes, text_under};
use crate::strs::str_eq;

verus! {

/// How requests for permission are answered.
#[derive(Debug, Clone, Copy, PartialEq, Eq, Structural)]
pub enum PermissionPolicy {
    /// With the first option offered.
    Allow,
    /// With the first option that rejects, else not at all.
    Deny,
}

/// A call to make.
#[derive(Debug, Clone, PartialEq, Eq)]
pub enum Step {
    /// `initialize`.
    Initialize,
    /// `session/new`.
    NewSession { cwd: Option<String> },
    /// `session/load`.
    LoadSession { session_id: String, cwd: Option<String> },
    /// `session/prompt` with a text. It is cancelled after so many updates.
    Prompt { text: String, cancel_after_updates: Option<usize> },
    /// `session/cancel`.
    Cancel,
}

/// A call to make.
#[verifier::ext_equal]
pub enum StepSpec {
    Initialize,
    NewSession { cwd: Option<Seq<char>> },
    LoadSession { session_id: Seq<char>, cwd: Option<Seq<char>> },
    Prompt { text: Seq<char>, cancel_after_updates: Option<usize> },
    Cancel,
}

impl Step {
    /// What the step is.
    pub open spec fn view(&self) -> StepSpec {
        match self {
            Step::Initialize => StepSpec::Initialize,
            Step::NewSession { cwd } => StepSpec::NewSession { cwd: opt_string(*cwd) },
            Step::LoadSession { session_id, cwd } => StepSpec::LoadSession {
                session_id: session_id@,
                cwd: opt_string(*cwd),
            },
            Step::Prompt { text, cancel_after_updates } => StepSpec::Prompt {
                text: text@,
                cancel_after_updates: *cancel_after_updates,
            },
            Step::Cancel => StepSpec::Cancel,
        }
    }
}

/// What the steps of a list are.
pub open spec fn steps(v: Seq<Step>) -> Seq<StepSpec> {
    Seq::new(v.len(), |i: int| v[i]@)
}

/// A script.
#[derive(Debug, Clone, PartialEq, Eq)]
pub struct Script {
    /// How requests for permission are answered.
    pub permission: PermissionPolicy,
    /// The calls to make, in order.
    pub steps: Vec<Step>,
}

/// A script.
#[verifier::ext_equal]
pub struct ScriptSpec {
    pub permission: PermissionPolicy,
    pub steps: Seq<StepSpec>,
}

impl Script {
    /// What the script is.
    pub open spec fn view(&self) -> ScriptSpec {
        ScriptSpec { permission: self.permission, steps: steps(self.steps@) }
    }
}

/// Why a text is no script.
#[derive(Debug, Clone, Copy, PartialEq, Eq, Structural)]
pub enum ScriptError {
    /// It is no JSON document.
    NotJson,
    /// It is a JSON document of another shape, or one that gives a field twice.
    NotScript,
}

/// The policy of a name.
pub open spec fn policy_named(name: Seq<char>) -> Option<PermissionPolicy> {
    if name == "allow"@ {
        Some(PermissionPolicy::Allow)
    } else if name == "deny"@ {
        Some(PermissionPolicy::Deny)
    } else {
        None
    }
}

/// A policy: its name, or an object with its name and null.
pub open spec fn policy_of(j: JsonSpec) -> Option<PermissionPolicy> {
    match j {
        JsonSpec::Str(name) => policy_named(name),
        JsonSpec::Object(m) => if m.len() == 1 && m[0].1 is Null {
            policy_named(m[0].0)
        } else {
            None
        },
        _ => None,
    }
}

/// A field that holds a text or nothing: the text, or `None` where the field is of
/// another kind.
pub open spec fn text_field(o: Option<JsonSpec>) -> Option<Option<Seq<char>>> {
    match o {
        None => Some(None),
        Some(JsonSpec::Null) => Some(None),
        Some(JsonSpec::Str(s)) => Some(Some(s)),
        Some(_) => None,
    }
}

/// A field that holds a count or nothing: the count, or `None` where the field is
/// of another kind.
pub open spec fn count_field(o: Option<JsonSpec>) -> Option<Option<usize>> {
    match o {
        None => Some(None),
        Some(JsonSpec::Null) => Some(None),
        Some(j) => match j.as_u64() {
            Some(n) => if n <= usize::MAX {
                Some(Some(n as usize))
            } else {
                None
            },
            None => None,
        },
    }
}

/// `session/new` with a directory.
pub open spec fn new_step(cwd: Option<JsonSpec>) -> Option<StepSpec> {
    match text_field(cwd) {
        Some(cwd) => Some(StepSpec::NewSession { cwd }),
        None => None,
    }
}

/// `session/load` with a session and a directory.
pub open spec fn load_step(session_id: Option<JsonSpec>, cwd: Option<JsonSpec>) -> Option<StepSpec> {
    match session_id {
        Some(JsonSpec::Str(session_id)) => match text_field(cwd) {
            Some(cwd) => Some(StepSpec::LoadSession { session_id, cwd }),
            None => None,
        },
        _ => None,
    }
}

/// `session/prompt` with a text and a count.
pub open spec fn prompt_step(text: Option<JsonSpec>, count: Option<JsonSpec>) -> Option<StepSpec> {
    match text {
        Some(JsonSpec::Str(text)) => match count_field(count) {
            Some(cancel_after_updates) => Some(StepSpec::Prompt { text, cancel_after_updates }),
            None => None,
        },
        _ => None,
    }
}

/// A step that is written as an object: what is called stands under `call`.
pub open spec fn object_step(j: JsonSpec) -> Option<StepSpec> {
    match j.get_str("call"@) {
        None => None,
        Some(call) => if call == "initialize"@ {
            Some(StepSpec::Initialize)
        } else if call == "session/new"@ {
            new_step(j.get("cwd"@))
        } else if call == "session/load"@ {
            load_step(j.get("session_id"@), j.get("cwd"@))
        } else if call == "session/prompt"@ {
            prompt_step(j.get("text"@), j.get("cancel_after_updates"@))
        } else if call == "session/cancel"@ {
            Some(StepSpec::Cancel)
        } else {
            None
        },
    }
}

/// The item at a place, if the list is that long.
pub open spec fn item(a: Seq<JsonSpec>, i: int) -> Option<JsonSpec> {
    if 0 <= i < a.len() {
        Some(a[i])
    } else {
        None
    }
}

/// A step that is written as a list: what is called stands first.
pub open spec fn list_step(a: Seq<JsonSpec>) -> Option<StepSpec> {
    match item(a, 0) {
        Some(JsonSpec::Str(call)) => if call == "initialize"@ && a.len() == 1 {
            Some(StepSpec::Initialize)
        } else if call == "session/new"@ && a.len() <= 2 {
            new_step(item(a, 1))
        } else if call == "session/load"@ && a.len() <= 3 {
            load_step(item(a, 1), item(a, 2))
        } else if call == "session/prompt"@ && a.len() <= 3 {
            prompt_step(item(a, 1), item(a, 2))
        } else if call == "session/cancel"@ && a.len() == 1 {
            Some(StepSpec::Cancel)
        } else {
            None
        },
        _ => None,
    }
}

/// A step.
pub open spec fn step_of(j: JsonSpec) -> Option<StepSpec> {
    match j {
        JsonSpec::Object(_) => object_step(j),
        JsonSpec::Array(a) => list_step(a),
        _ => None,
    }
}

/// The steps of a list, if each is one.
pub open spec fn steps_of(a: Seq<JsonSpec>) -> Option<Seq<StepSpec>>
    decreases a.len(),
{
    if a.len() == 0 {
        Some(Seq::empty())
    } else {
        match (steps_of(a.drop_last()), step_of(a.last())) {
            (Some(before), Some(last)) => Some(before.push(last)),
            _ => None,
        }
    }
}

/// A script with a policy, which may be left out, and steps.
pub open spec fn script_with(permission: Option<JsonSpec>, list: Option<JsonSpec>) -> Option<
    ScriptSpec,
> {
    let policy = match permission {
        Some(p) => policy_of(p),
        None => Some(PermissionPolicy::Allow),
    };
    match (policy, list) {
        (Some(permission), Some(JsonSpec::Array(a))) => match steps_of(a) {
            Some(steps) => Some(ScriptSpec { permission, steps }),
            None => None,
        },
        _ => None,
    }
}

/// The script that a JSON value is.
pub open spec fn script_of(j: JsonSpec) -> Option<ScriptSpec> {
    match j {
        JsonSpec::Object(_) => script_with(j.get("permission"@), j.get("steps"@)),
        JsonSpec::Array(a) => if a.len() == 2 {
            script_with(Some(a[0]), Some(a[1]))
        } else {
            None
        },
        _ => None,
    }
}

/// The fields of a step, besides what is called.
pub open spec fn fields_of(step: StepSpec) -> Seq<Seq<char>> {
    match step {
        StepSpec::Initialize => Seq::empty(),
        StepSpec::NewSession { .. } => seq!["cwd"@],
        StepSpec::LoadSession { .. } => seq!["session_id"@, "cwd"@],
        StepSpec::Prompt { .. } => seq!["text"@, "cancel_after_updates"@],
        StepSpec::Cancel => Seq::empty(),
    }
}

/// Whether the text of a step gives one of its fields twice.
pub open spec fn step_repeats(step: StepSpec, text: Seq<u8>) -> bool {
    ||| named_twice(members(text), "call"@)
    ||| exists|k: int|
        0 <= k < fields_of(step).len() && named_twice(members(text), #[trigger] fields_of(step)[k])
}

/// The text of a field of a record: under its name, or at its place.
pub open spec fn part(text: Seq<u8>, name: Seq<char>, place: int) -> Option<Seq<u8>> {
    if members(text).len() > 0 {
        text_under(members(text), name)
    } else if 0 <= place < items(text).len() {
        Some(items(text)[place])
    } else {
        None
    }
}

/// Whether the text of the steps gives a field of one of them twice.
pub open spec fn steps_repeat(all: Seq<StepSpec>, text: Seq<u8>) -> bool {
    exists|i: int|
        0 <= i < all.len() && i < items(text).len() && step_repeats(
            #[trigger] all[i],
            items(text)[i],
        )
}

/// Whether the text of a script gives a field twice: one of its own, the name of
/// its policy, or one of a step.
pub open spec fn repeats(script: ScriptSpec, text: Seq<u8>) -> bool {
    ||| named_twice(members(text), "permission"@)
    ||| named_twice(members(text), "steps"@)
    ||| part(text, "permission"@, 0) matches Some(policy) && members(policy).len() > 1
    ||| part(text, "steps"@, 1) matches Some(list) && steps_repeat(script.steps, list)
}

fn step_gives_twice(step: &Step, text: &[u8]) -> (r: bool)
    ensures
        r == step_repeats(step@, text@),
{
    let m = members_of_text(text);
    if is_named_twice(&m, "call") {
        return true;
    }
    let ghost known = fields_of(step@);
    match step {
        Step::Initialize => false,
        Step::NewSession { .. } => {
            let r = is_named_twice(&m, "cwd");
            proof {
                assert(known[0] == "cwd"@);
            }
            r
        },
        Step::LoadSession { .. } => {
            let r = is_named_twice(&m, "session_id") || is_named_twice(&m, "cwd");
            proof {
                assert(known[0] == "session_id"@);
                assert(known[1] == "cwd"@);
            }
            r
        },
        Step::Prompt { .. } => {
            let r = is_named_twice(&m, "text") || is_named_twice(&m, "cancel_after_updates");
            proof {
                assert(known[0] == "text"@);
                assert(known[1] == "cancel_after_updates"@);
            }
            r
        },
        Step::Cancel => false,
    }
}

fn part_of_text<'a>(text: &'a [u8], name: &str, place: usize) -> (r: Option<&'a [u8]>)
    ensures
        opt_bytes(r) == part(text@, name@, place as int),
{
    let m = members_of_text(text);
    proof {
        assert(member_views(m@).len() == m@.len());
    }
    if m.len() > 0 {
        find_text(&m, name)
    } else {
        let list = items_of_text(text);
        proof {
            assert(byte_texts(list@).len() == list@.len());
        }
        if place < list.len() {
            Some(list[place])
        } else {
            None
        }
    }
}

fn steps_give_twice(all: &Vec<Step>, text: &[u8]) -> (r: bool)
    ensures
        r == steps_repeat(steps(all@), text@),
{
    let list = items_of_text(text);
    proof {
        assert(byte_texts(list@).len() == list@.len());
    }
    let mut i: usize = 0;
    while i < all.len() && i < list.len()
        invariant
            i <= all@.len(),
            byte_texts(list@) == items(text@),
            list@.len() == items(text@).len(),
            forall|k: int|
                0 <= k < i && k < items(text@).len() ==> !step_repeats(
                    #[trigger] steps(all@)[k],
                    items(text@)[k],
                ),
        decreases all@.len() - i,
    {
        proof {
            assert(steps(all@)[i as int] == all@[i as int]@);
            assert(items(text@)[i as int] == list@[i as int]@);
        }
        if step_gives_twice(&all[i], list[i]) {
            return true;
        }
        i += 1;
    }
    false
}

impl Script {
    /// Whether a text that this script was read from gives a field twice.
    fn gives_twice(&self, text: &[u8]) -> (r: bool)
        ensures
            r == repeats(self@, text@),
    {
        let m = members_of_text(text);
        if is_named_twice(&m, "permission") || is_named_twice(&m, "steps") {
            return true;
        }
        if let Some(policy) = part_of_text(text, "permission", 0) {
            let names = members_of_text(policy);
            proof {
                assert(member_views(names@).len() == names@.len());
            }
            if names.len() > 1 {
                return true;
            }
        }
        match part_of_text(text, "steps", 1) {
            Some(list) => steps_give_twice(&self.steps, list),
            None => false,
        }
    }
}

fn named_policy(name: &str) -> (r: Option<PermissionPolicy>)
    ensures
        r == policy_named(name@),
{
    if str_eq(name, "allow") {
        Some(PermissionPolicy::Allow)
    } else if str_eq(name, "deny") {
        Some(PermissionPolicy::Deny)
    } else {
        None
    }
}

fn read_policy(j: &Json) -> (r: Option<PermissionPolicy>)
    ensures
        r == policy_of(j@),
{
    match j {
        Json::Str(name) => named_policy(name.as_str()),
        Json::Object(m) => if m.len() == 1 && m.value_at(0).is_null() {
            named_policy(m.key_at(0).as_str())
        } else {
            None
        },
        _ => None,
    }
}

fn read_text(o: Option<&Json>) -> (r: Option<Option<String>>)
    ensures
        match r {
            Some(t) => text_field(opt_json(o)) == Some(opt_string(t)),
            None => text_field(opt_json(o)) is None,
        },
{
    match o {
        None => Some(None),
        Some(Json::Null) => Some(None),
        Some(Json::Str(s)) => Some(Some(s.as_str().to_owned())),
        Some(_) => None,
    }
}

fn read_count(o: Option<&Json>) -> (r: Option<Option<usize>>)
    ensures
        r == count_field(opt_json(o)),
{
    match o {
        None => Some(None),
        Some(Json::Null) => Some(None),
        Some(j) => match j.as_u64() {
            Some(n) => if n <= usize::MAX as u64 {
                Some(Some(n as usize))
            } else {
                None
            },
            None => None,
        },
    }
}

/// What a step is, if it is one.
pub open spec fn opt_step(o: Option<Step>) -> Option<StepSpec> {
    match o {
        Some(s) => Some(s@),
        None => None,
    }
}

fn read_new(cwd: Option<&Json>) -> (r: Option<Step>)
    ensures
        opt_step(r) == new_step(opt_json(cwd)),
{
    match read_text(cwd) {
        Some(cwd) => Some(Step::NewSession { cwd }),
        None => None,
    }
}

fn read_load(session_id: Option<&Json>, cwd: Option<&Json>) -> (r: Option<Step>)
    ensures
        opt_step(r) == load_step(opt_json(session_id), opt_json(cwd)),
{
    match session_id {
        Some(Json::Str(s)) => match read_text(cwd) {
            Some(cwd) => Some(Step::LoadSession { session_id: s.as_str().to_owned(), cwd }),
            None => None,
        },
        _ => None,
    }
}

fn read_prompt(text: Option<&Json>, count: Option<&Json>) -> (r: Option<Step>)
    ensures
        opt_step(r) == prompt_step(opt_json(text), opt_json(count)),
{
    match text {
        Some(Json::Str(s)) => match read_count(count) {
            Some(cancel_after_updates) => Some(
                Step::Prompt { text: s.as_str().to_owned(), cancel_after_updates },
            ),
            None => None,
        },
        _ => None,
    }
}

fn read_object_step(j: &Json) -> (r: Option<Step>)
    ensures
        opt_step(r) == object_step(j@),
{
    match j.get_str("call") {
        None => None,
        Some(call) => if str_eq(call, "initialize") {
            Some(Step::Initialize)
        } else if str_eq(call, "session/new") {
            read_new(j.get("cwd"))
        } else if str_eq(call, "session/load") {
            read_load(j.get("session_id"), j.get("cwd"))
        } else if str_eq(call, "session/prompt") {
            read_prompt(j.get("text"), j.get("cancel_after_updates"))
        } else if str_eq(call, "session/cancel") {
            Some(Step::Cancel)
        } else {
            None
        },
    }
}

fn nth(a: &Vec<Json>, i: usize) -> (r: Option<&Json>)
    ensures
        opt_json(r) == item(jsons(a@), i as int),
{
    if i < a.len() {
        Some(&a[i])
    } else {
        None
    }
}

fn read_list_step(a: &Vec<Json>) -> (r: Option<Step>)
    ensures
        opt_step(r) == list_step(jsons(a@)),
{
    match nth(a, 0) {
        Some(Json::Str(name)) => {
            let call = name.as_str();
            if str_eq(call, "initialize") && a.len() == 1 {
                Some(Step::Initialize)
            } else if str_eq(call, "session/new") && a.len() <= 2 {
                read_new(nth(a, 1))
            } else if str_eq(call, "session/load") && a.len() <= 3 {
                read_load(nth(a, 1), nth(a, 2))
            } else if str_eq(call, "session/prompt") && a.len() <= 3 {
                read_prompt(nth(a, 1), nth(a, 2))
            } else if str_eq(call, "session/cancel") && a.len() == 1 {
                Some(Step::Cancel)
            } else {
                None
            }
        },
        _ => None,
    }
}

fn read_step(j: &Json) -> (r: Option<Step>)
    ensures
        opt_step(r) == step_of(j@),
{
    match j {
        Json::Object(_) => read_object_step(j),
        Json::Array(a) => {
            proof {
                assert(jsons(a@) =~= j@->Array_0);
            }
            read_list_step(a)
        },
        _ => None,
    }
}

proof fn lemma_steps_prefix(a: Seq<JsonSpec>, n: int)
    requires
        0 <= n <= a.len(),
        steps_of(a) is Some,
    ensures
        steps_of(a.take(n)) is Some,
    decreases a.len(),
{
    if n < a.len() {
        lemma_steps_prefix(a.drop_last(), n);
        assert(a.drop_last().take(n) =~= a.take(n));
    } else {
        assert(a.take(n) =~= a);
    }
}

fn read_steps(a: &Vec<Json>) -> (r: Option<Vec<Step>>)
    ensures
        match r {
            Some(v) => steps_of(jsons(a@)) == Some(steps(v@)),
            None => steps_of(jsons(a@)) is None,
        },
{
    let ghost all = jsons(a@);
    let mut out: Vec<Step> = Vec::new();
    let mut i: usize = 0;
    proof {
        assert(steps(out@) =~= Seq::<StepSpec>::empty());
        assert(all.take(0).len() == 0);
    }
    while i < a.len()
        invariant
            i <= a@.len(),
            all == jsons(a@),
            steps_of(all.take(i as int)) == Some(steps(out@)),
        decreases a@.len() - i,
    {
        let ghost before = out@;
        proof {
            assert(all.take(i + 1).drop_last() =~= all.take(i as int));
            assert(all.take(i + 1).last() == a@[i as int]@);
        }
        match read_step(&a[i]) {
            Some(step) => {
                out.push(step);
                proof {
                    assert(steps(out@) =~= steps(before).push(step@));
                }
            },
            None => {
                proof {
                    if steps_of(all) is Some {
                        lemma_steps_prefix(all, i + 1);
                    }
                }
                return None;
            },
        }
        i += 1;
    }
    proof {
        assert(all.take(i as int) =~= all);
    }
    Some(out)
}

/// What a script is, if it is one.
pub open spec fn opt_script(o: Option<Script>) -> Option<ScriptSpec> {
    match o {
        Some(s) => Some(s@),
        None => None,
    }
}

fn read_script(permission: Option<&Json>, list: Option<&Json>) -> (r: Option<Script>)
    ensures
        opt_script(r) == script_with(
            opt_json(permission),
            opt_json(list),
        ),
{
    let policy = match permission {
        Some(p) => read_policy(p),
        None => Some(PermissionPolicy::Allow),
    };
    match (policy, list) {
        (Some(permission), Some(Json::Array(a))) => {
            proof {
                assert(jsons(a@) =~= list->0@->Array_0);
            }
            match read_steps(a) {
                Some(steps) => Some(Script { permission, steps }),
                None => None,
            }
        },
        _ => None,
    }
}

impl Script {
    /// The script that a JSON value is.
    pub fn from_json(j: &Json) -> (r: Option<Script>)
        ensures
            opt_script(r) == script_of(j@),
    {
        match j {
            Json::Object(_) => read_script(j.get("permission"), j.get("steps")),
            Json::Array(a) => if a.len() == 2 {
                proof {
                    assert(jsons(a@) =~= j@->Array_0);
                }
                read_script(Some(&a[0]), Some(&a[1]))
            } else {
                None
            },
            _ => None,
        }
    }

    /// Reads a script.
    pub fn parse(input: &str) -> (r: Result<Script, ScriptError>)
        ensures
            match json_parse(encode_utf8(input@)) {
                None => r == Err::<Script, ScriptError>(ScriptError::NotJson),
                Some(j) => match script_of(j) {
                    None => r == Err::<Script, ScriptError>(ScriptError::NotScript),
                    Some(s) => if repeats(s, encode_utf8(input@)) {
                        r == Err::<Script, ScriptError>(ScriptError::NotScript)
                    } else {
                        r matches Ok(script) && script@ == s
                    },
                },
            },
    {
        match Json::parse_str(input) {
            None => Err(ScriptError::NotJson),
            Some(j) => match Script::from_json(&j) {
                None => Err(ScriptError::NotScript),
                Some(script) => if script.gives_twice(input.as_bytes()) {
                    Err(ScriptError::NotScript)
                } else {
                    Ok(script)
                },
            },
        }
    }
}

} // verus!

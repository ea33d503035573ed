//! The agent: what each request of the client leads to.
//!
//! The agent answers `initialize`, `session/new`, `session/load`,
//! `session/prompt` and `_session/steering`. Anything else is refused. What a
//! request leads to is decided here; the connection and the sessions are run by
//! whoever calls.

use vstd::prelude::*;

use crate::acp::{commands, opt_string, opt_value, AvailableCommand};
use crate::control::InitializeInfo;
use crate::json::{empty_object, jsons, opt_text, uint, Json, JsonSpec};
use crate::map::{all_offered, map_commands_changed, or_null};
use crate::process::{env_pairs, usual_spawn, usual_timings, SpawnOptions, SpawnSpec, Timings};
use crate::session::{PromptReply, ReplyUsage, SessionError};
use crate::strmap::StrSet;
use crate::strs::{behind, first_word, from_chars, has_prefix, starts_with, str_eq, strip_prefix, texts, to_chars, word};
use crate::turn::{FailureKind, SESSION_ENDED_MESSAGE};

verus! {

/// The commands that run without a turn of the model, so that the child does not
/// repeat them.
pub open spec fn is_local_command(head: Seq<char>) -> bool {
    head == "/context"@ || head == "/heapdump"@ || head == "/extra-usage"@
}

/// Whether a prompt is such a command.
pub open spec fn local_only(text: Seq<char>) -> bool {
    has_prefix(text, "/"@) && is_local_command(first_word(text))
}

/// Whether a prompt is a command that the child does not repeat.
pub fn is_local_only_command(text: &str) -> (r: bool)
    ensures
        r == local_only(text@),
{
    if !starts_with(text, "/") {
        return false;
    }
    let head = word(text);
    str_eq(head.as_str(), "/context") || str_eq(head.as_str(), "/heapdump") || str_eq(
        head.as_str(),
        "/extra-usage",
    )
}

/// What stands behind the last slash of a text; all of it if there is none.
pub open spec fn last_segment(s: Seq<char>) -> Seq<char>
    decreases s.len(),
{
    if s.len() == 0 || s.last() == '/' {
        Seq::empty()
    } else {
        last_segment(s.drop_last()).push(s.last())
    }
}

/// A link to a URI: its last segment, or all of it where that is empty, and then
/// the URI.
pub open spec fn link(uri: Seq<char>) -> Seq<char> {
    let name = if last_segment(uri).len() > 0 {
        last_segment(uri)
    } else {
        uri
    };
    "["@ + name + "]("@ + uri + ")"@
}

proof fn lemma_last_segment(s: Seq<char>, i: int)
    requires
        0 <= i <= s.len(),
        forall|j: int| i <= j < s.len() ==> #[trigger] s[j] != '/',
        i > 0 ==> s[i - 1] == '/',
    ensures
        last_segment(s) == s.skip(i),
    decreases s.len() - i,
{
    if i < s.len() {
        let t = s.drop_last();
        assert(s.last() == s[s.len() - 1]);
        assert forall|j: int| i <= j < t.len() implies #[trigger] t[j] != '/' by {
            assert(t[j] == s[j]);
        }
        lemma_last_segment(t, i);
        assert(t.skip(i).push(s.last()) =~= s.skip(i));
    } else {
        assert(s.skip(i) =~= Seq::empty());
    }
}

/// A link to a URI.
pub fn format_uri_as_link(uri: &str) -> (r: String)
    ensures
        r@ == link(uri@),
{
    let cs = to_chars(uri);
    let mut from: usize = cs.len();
    while from > 0 && cs[from - 1] != '/'
        invariant
            from <= cs@.len(),
            cs@ == uri@,
            forall|j: int| from <= j < cs@.len() ==> #[trigger] cs@[j] != '/',
        decreases from,
    {
        from -= 1;
    }
    proof {
        lemma_last_segment(uri@, from as int);
        assert(cs@.subrange(from as int, cs@.len() as int) =~= cs@.skip(from as int));
    }
    let mut r = "[".to_owned();
    if from < cs.len() {
        r.append(from_chars(&cs, from, cs.len()).as_str());
    } else {
        r.append(uri);
    }
    r.append("](");
    r.append(uri);
    r.append(")");
    r
}

/// A block of text.
pub open spec fn text_block(text: Seq<char>) -> JsonSpec {
    empty_object().with("type"@, JsonSpec::Str("text"@)).with("text"@, JsonSpec::Str(text))
}

fn make_text_block(text: &str) -> (r: Json)
    ensures
        r@ == text_block(text@),
{
    Json::object().with("type", Json::text("text")).with("text", Json::text(text))
}

/// An image with a source.
pub open spec fn image_block(source: JsonSpec) -> JsonSpec {
    empty_object().with("type"@, JsonSpec::Str("image"@)).with("source"@, source)
}

/// An image that is carried along.
pub open spec fn inline_source(data: Seq<char>, mime: Seq<char>) -> JsonSpec {
    empty_object().with("type"@, JsonSpec::Str("base64"@)).with("data"@, JsonSpec::Str(data)).with(
        "media_type"@,
        JsonSpec::Str(mime),
    )
}

/// An image that is referred to.
pub open spec fn url_source(uri: Seq<char>) -> JsonSpec {
    empty_object().with("type"@, JsonSpec::Str("url"@)).with("url"@, JsonSpec::Str(uri))
}

/// A text that belongs to a URI.
pub open spec fn context_text(uri: Seq<char>, text: Seq<char>) -> Seq<char> {
    "\n<context ref=\""@ + uri + "\">\n"@ + text + "\n</context>"@
}

/// What a block of a prompt gives: a block for the child, and a block that goes
/// behind all of these.
pub struct Given {
    pub content: Option<JsonSpec>,
    pub context: Option<JsonSpec>,
}

/// Nothing.
pub open spec fn nothing_given() -> Given {
    Given { content: None, context: None }
}

/// What an image of a prompt gives.
pub open spec fn given_image(chunk: JsonSpec) -> Given {
    match chunk.get_str("data"@) {
        Some(data) => Given {
            content: Some(image_block(inline_source(data, chunk.str_or_empty("mimeType"@)))),
            context: None,
        },
        None => match chunk.get_str("uri"@) {
            Some(uri) => if has_prefix(uri, "http"@) {
                Given { content: Some(image_block(url_source(uri))), context: None }
            } else {
                nothing_given()
            },
            None => nothing_given(),
        },
    }
}

/// What an embedded resource of a prompt gives. Only text is taken.
pub open spec fn given_resource(chunk: JsonSpec) -> Given {
    let resource = or_null(chunk.get("resource"@));
    let uri = resource.str_or_empty("uri"@);
    match resource.get_str("text"@) {
        Some(text) => Given {
            content: Some(text_block(link(uri))),
            context: Some(text_block(context_text(uri, text))),
        },
        None => nothing_given(),
    }
}

/// What a block of a prompt gives.
pub open spec fn given(chunk: JsonSpec) -> Given {
    let t = chunk.str_or_empty("type"@);
    if t == "text"@ {
        Given { content: Some(text_block(chunk.str_or_empty("text"@))), context: None }
    } else if t == "resource_link"@ {
        Given { content: Some(text_block(link(chunk.str_or_empty("uri"@)))), context: None }
    } else if t == "resource"@ {
        given_resource(chunk)
    } else if t == "image"@ {
        given_image(chunk)
    } else {
        nothing_given()
    }
}

/// A list with one more item, if there is one.
pub open spec fn with_next(s: Seq<JsonSpec>, o: Option<JsonSpec>) -> Seq<JsonSpec> {
    match o {
        Some(j) => s.push(j),
        None => s,
    }
}

/// The blocks for the child, in the order of the prompt.
pub open spec fn content_of(prompt: Seq<JsonSpec>) -> Seq<JsonSpec>
    decreases prompt.len(),
{
    if prompt.len() == 0 {
        Seq::empty()
    } else {
        with_next(content_of(prompt.drop_last()), given(prompt.last()).content)
    }
}

/// The blocks that go behind these, in the order of the prompt.
pub open spec fn context_of(prompt: Seq<JsonSpec>) -> Seq<JsonSpec>
    decreases prompt.len(),
{
    if prompt.len() == 0 {
        Seq::empty()
    } else {
        with_next(context_of(prompt.drop_last()), given(prompt.last()).context)
    }
}

/// The blocks of a prompt's parameters.
pub open spec fn prompt_blocks(params: JsonSpec) -> Seq<JsonSpec> {
    match params.get_array("prompt"@) {
        Some(a) => a,
        None => Seq::empty(),
    }
}

/// The frame that a prompt is fed to the child with.
pub open spec fn user_frame(params: JsonSpec, session_id: Seq<char>, uuid: Seq<char>) -> JsonSpec {
    let prompt = prompt_blocks(params);
    empty_object().with("type"@, JsonSpec::Str("user"@)).with(
        "session_id"@,
        JsonSpec::Str(session_id),
    ).with("uuid"@, JsonSpec::Str(uuid)).with(
        "message"@,
        empty_object().with("role"@, JsonSpec::Str("user"@)).with(
            "content"@,
            JsonSpec::Array(content_of(prompt) + context_of(prompt)),
        ),
    ).with("parent_tool_use_id"@, JsonSpec::Null).with(
        "origin"@,
        empty_object().with("kind"@, JsonSpec::Str("human"@)),
    )
}

fn give_image(chunk: &Json) -> (r: (Option<Json>, Option<Json>))
    ensures
        opt_value(r.0) == given_image(chunk@).content,
        opt_value(r.1) == given_image(chunk@).context,
{
    match chunk.get_str("data") {
        Some(data) => {
            let source = Json::object().with("type", Json::text("base64")).with(
                "data",
                Json::text(data),
            ).with("media_type", Json::text(chunk.str_or_empty("mimeType")));
            (Some(Json::object().with("type", Json::text("image")).with("source", source)), None)
        },
        None => match chunk.get_str("uri") {
            Some(uri) => if starts_with(uri, "http") {
                let source = Json::object().with("type", Json::text("url")).with(
                    "url",
                    Json::text(uri),
                );
                (Some(Json::object().with("type", Json::text("image")).with("source", source)), None)
            } else {
                (None, None)
            },
            None => (None, None),
        },
    }
}

fn give_resource(chunk: &Json) -> (r: (Option<Json>, Option<Json>))
    ensures
        opt_value(r.0) == given_resource(chunk@).content,
        opt_value(r.1) == given_resource(chunk@).context,
{
    let none = Json::Null;
    let resource = match chunk.get("resource") {
        Some(j) => j,
        None => &none,
    };
    match resource.get_str("text") {
        Some(text) => {
            let uri = resource.str_or_empty("uri");
            let mut context = "\n<context ref=\"".to_owned();
            context.append(uri);
            context.append("\">\n");
            context.append(text);
            context.append("\n</context>");
            (
                Some(make_text_block(format_uri_as_link(uri).as_str())),
                Some(make_text_block(context.as_str())),
            )
        },
        None => (None, None),
    }
}

fn give(chunk: &Json) -> (r: (Option<Json>, Option<Json>))
    ensures
        opt_value(r.0) == given(chunk@).content,
        opt_value(r.1) == given(chunk@).context,
{
    let t = chunk.str_or_empty("type");
    if str_eq(t, "text") {
        (Some(make_text_block(chunk.str_or_empty("text"))), None)
    } else if str_eq(t, "resource_link") {
        let text = format_uri_as_link(chunk.str_or_empty("uri"));
        (Some(make_text_block(text.as_str())), None)
    } else if str_eq(t, "resource") {
        give_resource(chunk)
    } else if str_eq(t, "image") {
        give_image(chunk)
    } else {
        (None, None)
    }
}

fn push_some(list: &mut Vec<Json>, item: Option<Json>)
    ensures
        jsons(final(list)@) == with_next(jsons(old(list)@), opt_value(item)),
{
    if let Some(j) = item {
        list.push(j);
        proof {
            assert(jsons(list@) =~= jsons(old(list)@).push(j@));
        }
    }
}

fn blocks_for_child(prompt: &Vec<Json>) -> (r: Vec<Json>)
    ensures
        jsons(r@) == content_of(jsons(prompt@)) + context_of(jsons(prompt@)),
{
    let ghost all = jsons(prompt@);
    let mut content: Vec<Json> = Vec::new();
    let mut context: Vec<Json> = Vec::new();
    let mut i: usize = 0;
    proof {
        assert(jsons(content@) =~= content_of(all.take(0)));
        assert(jsons(context@) =~= context_of(all.take(0)));
    }
    while i < prompt.len()
        invariant
            i <= prompt@.len(),
            all == jsons(prompt@),
            jsons(content@) == content_of(all.take(i as int)),
            jsons(context@) == context_of(all.take(i as int)),
        decreases prompt@.len() - i,
    {
        let (block, behind) = give(&prompt[i]);
        proof {
            assert(all.take(i + 1).drop_last() =~= all.take(i as int));
            assert(all.take(i + 1).last() == prompt@[i as int]@);
        }
        push_some(&mut content, block);
        push_some(&mut context, behind);
        i += 1;
    }
    let ghost first = content@;
    let ghost second = context@;
    content.append(&mut context);
    proof {
        assert(all.take(prompt@.len() as int) =~= all);
        assert(jsons(content@) =~= jsons(first) + jsons(second));
    }
    content
}

/// The frame that a prompt is fed to the child with.
pub fn prompt_to_claude(params: &Json, session_id: &str, uuid: &str) -> (r: Json)
    ensures
        r@ == user_frame(params@, session_id@, uuid@),
{
    let content = match params.get_array("prompt") {
        Some(prompt) => blocks_for_child(prompt),
        None => {
            let none: Vec<Json> = Vec::new();
            proof {
                assert(jsons(none@) =~= Seq::<JsonSpec>::empty());
                assert(content_of(Seq::empty()) + context_of(Seq::empty()) =~= Seq::empty());
            }
            none
        },
    };
    Json::object().with("type", Json::text("user")).with("session_id", Json::text(session_id)).with(
        "uuid",
        Json::text(uuid),
    ).with(
        "message",
        Json::object().with("role", Json::text("user")).with("content", Json::array(content)),
    ).with("parent_tool_use_id", Json::Null).with(
        "origin",
        Json::object().with("kind", Json::text("human")),
    )
}

/// How the agent serves.
pub struct ServeOptions {
    /// The program; without one, the environment or the search path decides.
    pub claude_path: Option<String>,
    /// Variables to add to the child's environment.
    pub extra_env: Vec<(String, String)>,
    /// The working directory of a session that names none.
    pub default_cwd: Option<String>,
    /// How long to wait for the child.
    pub timings: Timings,
}

impl Default for ServeOptions {
    fn default() -> (r: ServeOptions)
        ensures
            r.claude_path is None,
            r.extra_env@.len() == 0,
            r.default_cwd is None,
            r.timings == usual_timings(),
    {
        ServeOptions {
            claude_path: None,
            extra_env: Vec::new(),
            default_cwd: None,
            timings: Timings::default(),
        }
    }
}

impl ServeOptions {
    /// Options from two variables of the environment, `CLAUDE_CODE_EXECUTABLE` and
    /// `CLAUDE_CODE_DEFAULT_CWD`.
    pub fn from_env(executable: Option<String>, default_cwd: Option<String>) -> (r: ServeOptions)
        ensures
            r.claude_path == executable,
            r.extra_env@.len() == 0,
            r.default_cwd == default_cwd,
            r.timings == usual_timings(),
    {
        ServeOptions {
            claude_path: executable,
            extra_env: Vec::new(),
            default_cwd,
            timings: Timings::default(),
        }
    }
}

fn copy_text(o: &Option<String>) -> (r: Option<String>)
    ensures
        opt_string(r) == opt_string(*o),
{
    match o {
        Some(s) => Some(s.as_str().to_owned()),
        None => None,
    }
}

fn copy_env(env: &Vec<(String, String)>) -> (r: Vec<(String, String)>)
    ensures
        env_pairs(r@) == env_pairs(env@),
{
    let mut out: Vec<(String, String)> = Vec::new();
    let mut i: usize = 0;
    while i < env.len()
        invariant
            i <= env@.len(),
            out@.len() == i,
            forall|k: int|
                0 <= k < i ==> (#[trigger] out@[k]).0@ == env@[k].0@ && out@[k].1@ == env@[k].1@,
        decreases env@.len() - i,
    {
        out.push((env[i].0.as_str().to_owned(), env[i].1.as_str().to_owned()));
        i += 1;
    }
    proof {
        assert(env_pairs(out@) =~= env_pairs(env@));
    }
    out
}

/// The first that there is.
pub open spec fn first_of(
    a: Option<Seq<char>>,
    b: Option<Seq<char>>,
    c: Option<Seq<char>>,
) -> Option<Seq<char>> {
    if a is Some {
        a
    } else if b is Some {
        b
    } else {
        c
    }
}

/// How the child of a session is started. The working directory is that of the
/// request, else that of the options, else that of the process.
pub open spec fn session_spawn(
    serve: ServeOptions,
    cwd: Option<Seq<char>>,
    session_id: Seq<char>,
    model: Option<Seq<char>>,
    permission_mode: Option<Seq<char>>,
    process_cwd: Option<Seq<char>>,
) -> SpawnSpec {
    SpawnSpec {
        claude_path: opt_string(serve.claude_path),
        extra_env: env_pairs(serve.extra_env@),
        default_cwd: first_of(cwd, opt_string(serve.default_cwd), process_cwd),
        session_id: Some(session_id),
        model,
        permission_mode,
        include_partial_messages: true,
        replay_user_messages: true,
        ..usual_spawn()
    }
}

/// How the child of a session is started.
pub fn session_spawn_options(
    serve: &ServeOptions,
    cwd: Option<String>,
    session_id: String,
    model: Option<String>,
    permission_mode: Option<String>,
    process_cwd: Option<String>,
) -> (r: SpawnOptions)
    ensures
        r@ == session_spawn(
            *serve,
            opt_string(cwd),
            session_id@,
            opt_string(model),
            opt_string(permission_mode),
            opt_string(process_cwd),
        ),
{
    let cwd = match cwd {
        Some(d) => Some(d),
        None => match copy_text(&serve.default_cwd) {
            Some(d) => Some(d),
            None => process_cwd,
        },
    };
    let usual = SpawnOptions::default();
    SpawnOptions {
        claude_path: copy_text(&serve.claude_path),
        extra_env: copy_env(&serve.extra_env),
        default_cwd: cwd,
        session_id: Some(session_id),
        resume: usual.resume,
        model,
        permission_mode,
        setting_sources: usual.setting_sources,
        disallowed_tools: usual.disallowed_tools,
        tools: usual.tools,
        include_partial_messages: true,
        permission_prompt_tool: usual.permission_prompt_tool,
        allow_dangerously_skip_permissions: usual.allow_dangerously_skip_permissions,
        replay_user_messages: true,
    }
}

/// The options that a request carries for the child.
pub open spec fn meta_options(params: JsonSpec) -> JsonSpec {
    or_null(
        or_null(or_null(params.get("_meta"@)).get("claudeCode"@)).get("options"@),
    )
}

fn text_of(o: Option<&str>) -> (r: Option<String>)
    ensures
        opt_string(r) == opt_text(o),
{
    match o {
        Some(s) => Some(s.to_owned()),
        None => None,
    }
}

/// The model and the permission mode that a request asks for.
pub fn options_from_meta(params: &Json) -> (r: (Option<String>, Option<String>))
    ensures
        opt_string(r.0) == meta_options(params@).get_str("model"@),
        opt_string(r.1) == meta_options(params@).get_str("permissionMode"@),
{
    let none = Json::Null;
    let meta = match params.get("_meta") {
        Some(j) => j,
        None => &none,
    };
    let code = match meta.get("claudeCode") {
        Some(j) => j,
        None => &none,
    };
    let options = match code.get("options") {
        Some(j) => j,
        None => &none,
    };
    (text_of(options.get_str("model")), text_of(options.get_str("permissionMode")))
}

/// A refusal.
pub struct RpcError {
    pub code: i32,
    pub message: String,
    pub data: Option<Json>,
}

/// A refusal.
#[verifier::ext_equal]
pub struct RpcSpec {
    pub code: int,
    pub message: Seq<char>,
    pub data: Option<JsonSpec>,
}

impl RpcError {
    /// What the refusal says.
    pub open spec fn view(&self) -> RpcSpec {
        RpcSpec { code: self.code as int, message: self.message@, data: opt_value(self.data) }
    }
}

/// The method is not handled.
pub const METHOD_NOT_FOUND: i32 = -32601;

/// The parameters do not fit.
pub const INVALID_PARAMS: i32 = -32602;

/// Anything else that went wrong.
pub const INTERNAL_ERROR: i32 = -32603;

/// The refusal of a method that is not handled.
pub open spec fn method_not_found(method: Seq<char>) -> RpcSpec {
    RpcSpec {
        code: METHOD_NOT_FOUND as int,
        message: "Method not found"@,
        data: Some(JsonSpec::Str("method "@ + method + " not found"@)),
    }
}

/// The refusal of parameters, with what is wrong with them.
pub open spec fn invalid_params(why: Seq<char>) -> RpcSpec {
    RpcSpec {
        code: INVALID_PARAMS as int,
        message: "Invalid params"@,
        data: Some(JsonSpec::Str(why)),
    }
}

fn refuse_method(method: &str) -> (r: RpcError)
    ensures
        r@ == method_not_found(method@),
{
    let mut data = "method ".to_owned();
    data.append(method);
    data.append(" not found");
    RpcError {
        code: METHOD_NOT_FOUND,
        message: "Method not found".to_owned(),
        data: Some(Json::text(data.as_str())),
    }
}

fn refuse_params(why: &str) -> (r: RpcError)
    ensures
        r@ == invalid_params(why@),
{
    RpcError {
        code: INVALID_PARAMS,
        message: "Invalid params".to_owned(),
        data: Some(Json::text(why)),
    }
}

/// How a failure is called in the data of a refusal. A failure that the user has
/// to act on, and the end of the session, are not named there.
pub open spec fn error_kind(kind: FailureKind) -> Option<Seq<char>> {
    match kind {
        FailureKind::AuthRequired => None,
        FailureKind::ProviderError => Some("provider_error"@),
        FailureKind::BudgetExhausted => Some("budget_exhausted"@),
        FailureKind::ContextExhausted => Some("context_exhausted"@),
        FailureKind::NoResult => Some("no_result"@),
        FailureKind::SessionEnded => None,
    }
}

/// What a session's error is refused with: a message and data.
pub open spec fn rpc_parts(err: SessionError) -> (Seq<char>, Option<JsonSpec>) {
    match err {
        SessionError::PromptFailed { kind, message } => (
            if kind is AuthRequired {
                "Internal error: "@ + ("authRequired: "@ + message@)
            } else {
                "Internal error: "@ + message@
            },
            match error_kind(kind) {
                Some(name) => Some(empty_object().with("errorKind"@, JsonSpec::Str(name))),
                None => None,
            },
        ),
        SessionError::Closed => ("Internal error: "@ + SESSION_ENDED_MESSAGE@, None),
        SessionError::Start(m) => ("Internal error: "@ + m@, None),
    }
}

/// How a failure is called in the data of a refusal.
pub fn error_kind_name(kind: FailureKind) -> (r: Option<&'static str>)
    ensures
        opt_text(r) == error_kind(kind),
{
    match kind {
        FailureKind::AuthRequired => None,
        FailureKind::ProviderError => Some("provider_error"),
        FailureKind::BudgetExhausted => Some("budget_exhausted"),
        FailureKind::ContextExhausted => Some("context_exhausted"),
        FailureKind::NoResult => Some("no_result"),
        FailureKind::SessionEnded => None,
    }
}

/// What a session's error is refused with: a message and data.
pub fn session_error_to_rpc(err: &SessionError) -> (r: (String, Option<Json>))
    ensures
        (r.0@, opt_value(r.1)) == rpc_parts(*err),
{
    let mut message = "Internal error: ".to_owned();
    match err {
        SessionError::PromptFailed { kind, message: detail } => {
            if matches!(kind, FailureKind::AuthRequired) {
                let mut prefixed = "authRequired: ".to_owned();
                prefixed.append(detail.as_str());
                message.append(prefixed.as_str());
            } else {
                message.append(detail.as_str());
            }
            let data = match error_kind_name(*kind) {
                Some(name) => Some(Json::object().with("errorKind", Json::text(name))),
                None => None,
            };
            (message, data)
        },
        SessionError::Closed => {
            message.append(SESSION_ENDED_MESSAGE);
            (message, None)
        },
        SessionError::Start(m) => {
            message.append(m.as_str());
            (message, None)
        },
    }
}

/// A refusal with a message and data, flat.
pub fn rpc_error(rpc: (String, Option<Json>)) -> (r: RpcError)
    ensures
        r.code == INTERNAL_ERROR,
        r.message == rpc.0,
        r.data == rpc.1,
{
    RpcError { code: INTERNAL_ERROR, message: rpc.0, data: rpc.1 }
}

/// What the agent can do.
pub open spec fn capabilities() -> JsonSpec {
    let none = empty_object();
    let yes = JsonSpec::Bool(true);
    none.with("_meta"@, none.with("claudeCode"@, none.with("promptQueueing"@, yes))).with(
        "promptCapabilities"@,
        none.with("image"@, yes).with("embeddedContext"@, yes),
    ).with("mcpCapabilities"@, none.with("http"@, yes).with("sse"@, yes)).with(
        "auth"@,
        none.with("logout"@, none),
    ).with("providers"@, none).with("loadSession"@, yes).with(
        "sessionCapabilities"@,
        none.with("additionalDirectories"@, none).with("close"@, none).with("delete"@, none).with(
            "fork"@,
            none,
        ).with("list"@, none).with("resume"@, none),
    )
}

/// The extensions that the agent has.
pub open spec fn extensions() -> JsonSpec {
    let none = empty_object();
    none.with(
        "jetbrains"@,
        none.with(
            "air"@,
            none.with("version"@, uint(1)).with(
                "capabilities"@,
                JsonSpec::Array(
                    seq![JsonSpec::Str("sessionFailure"@), JsonSpec::Str("agentFileChangeReport"@)],
                ),
            ),
        ),
    ).with("steering"@, none.with("supported"@, JsonSpec::Bool(true))).with(
        "goal"@,
        none.with("version"@, uint(1)).with("controlMethod"@, JsonSpec::Str("_session/goal"@)).with(
            "actions"@,
            JsonSpec::Array(seq![JsonSpec::Str("set"@), JsonSpec::Str("clear"@)]),
        ),
    )
}

/// The version that the agent tells the client.
pub const AGENT_VERSION: &'static str = "0.70.0";

/// Who the agent is.
pub open spec fn agent_info(name: Seq<char>, title: Seq<char>) -> JsonSpec {
    empty_object().with("name"@, JsonSpec::Str(name)).with("title"@, JsonSpec::Str(title)).with(
        "version"@,
        JsonSpec::Str(AGENT_VERSION@),
    )
}

/// The answer to `initialize`.
pub open spec fn initialize_answer(name: Seq<char>, title: Seq<char>) -> JsonSpec {
    empty_object().with("protocolVersion"@, uint(1)).with("agentCapabilities"@, capabilities()).with(
        "agentInfo"@,
        agent_info(name, title),
    ).with("authMethods"@, JsonSpec::Array(Seq::empty())).with("_meta"@, extensions())
}

fn make_capabilities() -> (r: Json)
    ensures
        r@ == capabilities(),
{
    let code = Json::object().with("promptQueueing", Json::Bool(true));
    let session = Json::object().with("additionalDirectories", Json::object()).with(
        "close",
        Json::object(),
    ).with("delete", Json::object()).with("fork", Json::object()).with(
        "list",
        Json::object(),
    ).with("resume", Json::object());
    Json::object().with("_meta", Json::object().with("claudeCode", code)).with(
        "promptCapabilities",
        Json::object().with("image", Json::Bool(true)).with("embeddedContext", Json::Bool(true)),
    ).with(
        "mcpCapabilities",
        Json::object().with("http", Json::Bool(true)).with("sse", Json::Bool(true)),
    ).with("auth", Json::object().with("logout", Json::object())).with(
        "providers",
        Json::object(),
    ).with("loadSession", Json::Bool(true)).with("sessionCapabilities", session)
}

fn two_texts(a: &str, b: &str) -> (r: Json)
    ensures
        r@ == JsonSpec::Array(seq![JsonSpec::Str(a@), JsonSpec::Str(b@)]),
{
    let mut v: Vec<Json> = Vec::new();
    v.push(Json::text(a));
    v.push(Json::text(b));
    proof {
        assert(jsons(v@) =~= seq![JsonSpec::Str(a@), JsonSpec::Str(b@)]);
    }
    Json::array(v)
}

fn empty_list() -> (r: Json)
    ensures
        r@ == JsonSpec::Array(Seq::empty()),
{
    let v: Vec<Json> = Vec::new();
    proof {
        assert(jsons(v@) =~= Seq::<JsonSpec>::empty());
    }
    Json::array(v)
}

fn make_extensions() -> (r: Json)
    ensures
        r@ == extensions(),
{
    let air = Json::object().with("version", Json::uint(1)).with(
        "capabilities",
        two_texts("sessionFailure", "agentFileChangeReport"),
    );
    let goal = Json::object().with("version", Json::uint(1)).with(
        "controlMethod",
        Json::text("_session/goal"),
    ).with("actions", two_texts("set", "clear"));
    Json::object().with("jetbrains", Json::object().with("air", air)).with(
        "steering",
        Json::object().with("supported", Json::Bool(true)),
    ).with("goal", goal)
}

/// The answer to `initialize` of an agent with this name and title.
pub fn initialize_response(name: &str, title: &str) -> (r: Json)
    ensures
        r@ == initialize_answer(name@, title@),
{
    let info = Json::object().with("name", Json::text(name)).with("title", Json::text(title)).with(
        "version",
        Json::text(AGENT_VERSION),
    );
    Json::object().with("protocolVersion", Json::uint(1)).with(
        "agentCapabilities",
        make_capabilities(),
    ).with("agentInfo", info).with("authMethods", empty_list()).with(
        "_meta",
        make_extensions(),
    )
}

/// A permission mode that a session offers.
pub open spec fn mode(id: Seq<char>, name: Seq<char>, description: Seq<char>) -> JsonSpec {
    empty_object().with("id"@, JsonSpec::Str(id)).with("name"@, JsonSpec::Str(name)).with(
        "description"@,
        JsonSpec::Str(description),
    )
}

/// The permission modes that a session offers.
pub open spec fn modes() -> Seq<JsonSpec> {
    seq![
        mode("default"@, "Manual"@, "Standard behavior, prompts for dangerous operations"@),
        mode("acceptEdits"@, "Accept Edits"@, "Auto-accept file edit operations"@),
        mode("plan"@, "Plan Mode"@, "Planning mode, no actual tool execution"@),
        mode("dontAsk"@, "Don't Ask"@, "Don't prompt for permissions, deny if not pre-approved"@),
        mode("bypassPermissions"@, "Bypass Permissions"@, "Bypass all permission checks"@),
    ]
}

/// The answer to `session/new` and `session/load`.
pub open spec fn session_answer(session_id: Seq<char>) -> JsonSpec {
    empty_object().with("sessionId"@, JsonSpec::Str(session_id)).with(
        "modes"@,
        empty_object().with("currentModeId"@, JsonSpec::Str("default"@)).with(
            "availableModes"@,
            JsonSpec::Array(modes()),
        ),
    ).with("configOptions"@, JsonSpec::Array(Seq::empty()))
}

fn make_mode(id: &str, name: &str, description: &str) -> (r: Json)
    ensures
        r@ == mode(id@, name@, description@),
{
    Json::object().with("id", Json::text(id)).with("name", Json::text(name)).with(
        "description",
        Json::text(description),
    )
}

fn make_modes() -> (r: Vec<Json>)
    ensures
        jsons(r@) == modes(),
{
    let mut v: Vec<Json> = Vec::new();
    v.push(make_mode("default", "Manual", "Standard behavior, prompts for dangerous operations"));
    v.push(make_mode("acceptEdits", "Accept Edits", "Auto-accept file edit operations"));
    v.push(make_mode("plan", "Plan Mode", "Planning mode, no actual tool execution"));
    v.push(
        make_mode(
            "dontAsk",
            "Don't Ask",
            "Don't prompt for permissions, deny if not pre-approved",
        ),
    );
    v.push(make_mode("bypassPermissions", "Bypass Permissions", "Bypass all permission checks"));
    proof {
        assert(jsons(v@) =~= modes());
    }
    v
}

/// The answer to `session/new` and `session/load`.
pub fn session_response(session_id: &str) -> (r: Json)
    ensures
        r@ == session_answer(session_id@),
{
    Json::object().with("sessionId", Json::text(session_id)).with(
        "modes",
        Json::object().with("currentModeId", Json::text("default")).with(
            "availableModes",
            Json::array(make_modes()),
        ),
    ).with("configOptions", empty_list())
}

/// A stop reason as the client knows it. One that it does not know is the usual
/// one.
pub open spec fn known_stop_reason(s: Seq<char>) -> Seq<char> {
    if s == "max_tokens"@ || s == "refusal"@ || s == "max_turn_requests"@ || s == "cancelled"@ {
        s
    } else {
        "end_turn"@
    }
}

/// What a turn used, as the client is told.
pub open spec fn usage_json(u: ReplyUsage) -> JsonSpec {
    empty_object().with("inputTokens"@, uint(u.input_tokens)).with(
        "outputTokens"@,
        uint(u.output_tokens),
    ).with("cachedReadTokens"@, uint(u.cached_read_tokens)).with(
        "cachedWriteTokens"@,
        uint(u.cached_write_tokens),
    ).with("totalTokens"@, uint(u.total_tokens))
}

/// The answer to `session/prompt`.
pub open spec fn prompt_answer(reply: PromptReply) -> JsonSpec {
    let result = empty_object().with(
        "stopReason"@,
        JsonSpec::Str(known_stop_reason(reply.stop_reason@)),
    );
    match reply.usage {
        Some(u) => result.with("usage"@, usage_json(u)),
        None => result,
    }
}

fn make_usage(u: &ReplyUsage) -> (r: Json)
    ensures
        r@ == usage_json(*u),
{
    Json::object().with("inputTokens", Json::uint(u.input_tokens)).with(
        "outputTokens",
        Json::uint(u.output_tokens),
    ).with("cachedReadTokens", Json::uint(u.cached_read_tokens)).with(
        "cachedWriteTokens",
        Json::uint(u.cached_write_tokens),
    ).with("totalTokens", Json::uint(u.total_tokens))
}

/// The answer to `session/prompt`.
pub fn prompt_response(reply: &PromptReply) -> (r: Json)
    ensures
        r@ == prompt_answer(*reply),
{
    let s = reply.stop_reason.as_str();
    let known = str_eq(s, "max_tokens") || str_eq(s, "refusal") || str_eq(s, "max_turn_requests")
        || str_eq(s, "cancelled");
    let result = Json::object().with(
        "stopReason",
        Json::text(
            if known {
                s
            } else {
                "end_turn"
            },
        ),
    );
    match &reply.usage {
        Some(u) => result.with("usage", make_usage(u)),
        None => result,
    }
}

/// What a request leads to.
pub enum AgentAction {
    /// Answer it.
    Respond(Json),
    /// Refuse it.
    Reject(RpcError),
    /// Start a session. Whether it could be started decides the answer.
    Start { session_id: String, spawn: SpawnOptions },
    /// Give a prompt to a session. How its turn ends decides the answer.
    Prompt { session_id: String, uuid: String, frame: Json, is_local_only: bool },
    /// Feed a frame to the child of a session, and answer.
    Inject { session_id: String, frame: Json, response: Json },
}

/// What a request leads to.
#[verifier::ext_equal]
pub enum AgentActionSpec {
    Respond(JsonSpec),
    Reject(RpcSpec),
    Start { session_id: Seq<char>, spawn: SpawnSpec },
    Prompt { session_id: Seq<char>, uuid: Seq<char>, frame: JsonSpec, is_local_only: bool },
    Inject { session_id: Seq<char>, frame: JsonSpec, response: JsonSpec },
}

impl AgentAction {
    /// What the request leads to.
    pub open spec fn view(&self) -> AgentActionSpec {
        match self {
            AgentAction::Respond(j) => AgentActionSpec::Respond(j@),
            AgentAction::Reject(e) => AgentActionSpec::Reject(e@),
            AgentAction::Start { session_id, spawn } => AgentActionSpec::Start {
                session_id: session_id@,
                spawn: spawn@,
            },
            AgentAction::Prompt { session_id, uuid, frame, is_local_only } =>
                AgentActionSpec::Prompt {
                session_id: session_id@,
                uuid: uuid@,
                frame: frame@,
                is_local_only: *is_local_only,
            },
            AgentAction::Inject { session_id, frame, response } => AgentActionSpec::Inject {
                session_id: session_id@,
                frame: frame@,
                response: response@,
            },
        }
    }
}

/// What the agent knows when a request comes.
pub struct AgentContext {
    /// How it serves.
    pub options: ServeOptions,
    /// Its name.
    pub agent_name: String,
    /// Its title.
    pub agent_title: String,
    /// The working directory of its process, where there is one.
    pub process_cwd: Option<String>,
}

/// How the child is started for `session/new`.
pub open spec fn new_spawn(params: JsonSpec, cx: AgentContext, uuid: Seq<char>) -> SpawnSpec {
    session_spawn(
        cx.options,
        params.get_str("cwd"@),
        uuid,
        meta_options(params).get_str("model"@),
        meta_options(params).get_str("permissionMode"@),
        opt_string(cx.process_cwd),
    )
}

/// How the child is started for `session/load`: it goes on with a session.
pub open spec fn load_spawn(params: JsonSpec, cx: AgentContext) -> SpawnSpec {
    let session_id = params.str_or_empty("sessionId"@);
    SpawnSpec {
        resume: Some(session_id),
        session_id: None,
        ..new_spawn(params, cx, session_id)
    }
}

/// The text of the first block of a prompt, or the empty text.
pub open spec fn first_text(params: JsonSpec) -> Seq<char> {
    let prompt = prompt_blocks(params);
    if prompt.len() > 0 {
        prompt[0].str_or_empty("text"@)
    } else {
        Seq::empty()
    }
}

/// What `session/prompt` leads to.
pub open spec fn prompt_action(
    sessions: Set<Seq<char>>,
    params: JsonSpec,
    uuid: Seq<char>,
) -> AgentActionSpec {
    let session_id = params.str_or_empty("sessionId"@);
    if sessions.contains(session_id) {
        AgentActionSpec::Prompt {
            session_id,
            uuid,
            frame: user_frame(params, session_id, uuid),
            is_local_only: local_only(first_text(params)),
        }
    } else {
        AgentActionSpec::Reject(invalid_params("no such session"@))
    }
}

/// What a client wants to happen to a steering message if no turn runs.
pub open spec fn idle_behavior(params: JsonSpec) -> Option<JsonSpec> {
    or_null(or_null(params.get("_meta"@)).get("steering"@)).get("idleBehavior"@)
}

/// What `_session/steering` leads to. A message for a turn that runs is fed to the
/// child at once. If no turn runs, a client that asked for it is told to send a
/// prompt; for any other the method is not there.
pub open spec fn steering_action(
    sessions: Set<Seq<char>>,
    running: Set<Seq<char>>,
    params: JsonSpec,
    uuid: Seq<char>,
) -> AgentActionSpec {
    let session_id = params.str_or_empty("sessionId"@);
    let idle = idle_behavior(params);
    if !sessions.contains(session_id) {
        AgentActionSpec::Reject(invalid_params("no such session"@))
    } else if idle is Some && idle->0 != JsonSpec::Str("promptRequired"@) {
        AgentActionSpec::Reject(invalid_params("unknown idleBehavior"@))
    } else if running.contains(session_id) {
        AgentActionSpec::Inject {
            session_id,
            frame: user_frame(params, session_id, uuid),
            response: empty_object().with("outcome"@, JsonSpec::Str("injected"@)),
        }
    } else if idle is Some {
        AgentActionSpec::Respond(
            empty_object().with("outcome"@, JsonSpec::Str("promptRequired"@)).with(
                "reason"@,
                JsonSpec::Str("noRunningTurn"@),
            ),
        )
    } else {
        AgentActionSpec::Reject(method_not_found("_session/steering"@))
    }
}

/// What a request leads to. `sessions` are the sessions that there are, `running`
/// those with a turn in flight; `uuid` is a fresh id.
pub open spec fn request_action(
    sessions: Set<Seq<char>>,
    running: Set<Seq<char>>,
    method: Seq<char>,
    params: JsonSpec,
    cx: AgentContext,
    uuid: Seq<char>,
) -> AgentActionSpec {
    if method == "initialize"@ {
        AgentActionSpec::Respond(initialize_answer(cx.agent_name@, cx.agent_title@))
    } else if method == "session/new"@ {
        AgentActionSpec::Start { session_id: uuid, spawn: new_spawn(params, cx, uuid) }
    } else if method == "session/load"@ {
        AgentActionSpec::Start {
            session_id: params.str_or_empty("sessionId"@),
            spawn: load_spawn(params, cx),
        }
    } else if method == "session/prompt"@ {
        prompt_action(sessions, params, uuid)
    } else if method == "_session/steering"@ {
        steering_action(sessions, running, params, uuid)
    } else {
        AgentActionSpec::Reject(method_not_found(method))
    }
}

fn start_new(params: &Json, cx: &AgentContext, session_id: String) -> (r: SpawnOptions)
    ensures
        r@ == new_spawn(params@, *cx, session_id@),
{
    let (model, permission_mode) = options_from_meta(params);
    session_spawn_options(
        &cx.options,
        text_of(params.get_str("cwd")),
        session_id,
        model,
        permission_mode,
        copy_text(&cx.process_cwd),
    )
}

fn handle_prompt(sessions: &StrSet, params: &Json, uuid: String) -> (r: AgentAction)
    ensures
        r@ == prompt_action(sessions@, params@, uuid@),
{
    let session_id = params.str_or_empty("sessionId");
    if !sessions.contains(session_id) {
        return AgentAction::Reject(refuse_params("no such session"));
    }
    let first = match params.get_array("prompt") {
        Some(prompt) => if prompt.len() > 0 {
            prompt[0].str_or_empty("text")
        } else {
            ""
        },
        None => "",
    };
    proof {
        reveal_strlit("");
        assert(""@ =~= Seq::<char>::empty());
    }
    let is_local_only = is_local_only_command(first);
    let frame = prompt_to_claude(params, session_id, uuid.as_str());
    AgentAction::Prompt { session_id: session_id.to_owned(), uuid, frame, is_local_only }
}

fn handle_steering(sessions: &StrSet, running: &StrSet, params: &Json, uuid: String) -> (r:
    AgentAction)
    ensures
        r@ == steering_action(sessions@, running@, params@, uuid@),
{
    let session_id = params.str_or_empty("sessionId");
    if !sessions.contains(session_id) {
        return AgentAction::Reject(refuse_params("no such session"));
    }
    let none = Json::Null;
    let meta = match params.get("_meta") {
        Some(j) => j,
        None => &none,
    };
    let steering = match meta.get("steering") {
        Some(j) => j,
        None => &none,
    };
    let idle = steering.get("idleBehavior");
    if let Some(wanted) = idle {
        let known = match wanted.as_str() {
            Some(s) => str_eq(s, "promptRequired"),
            None => false,
        };
        if !known {
            return AgentAction::Reject(refuse_params("unknown idleBehavior"));
        }
    }
    if running.contains(session_id) {
        AgentAction::Inject {
            session_id: session_id.to_owned(),
            frame: prompt_to_claude(params, session_id, uuid.as_str()),
            response: Json::object().with("outcome", Json::text("injected")),
        }
    } else if idle.is_some() {
        AgentAction::Respond(
            Json::object().with("outcome", Json::text("promptRequired")).with(
                "reason",
                Json::text("noRunningTurn"),
            ),
        )
    } else {
        AgentAction::Reject(refuse_method("_session/steering"))
    }
}

/// What a request leads to. `sessions` are the sessions that there are, `running`
/// those with a turn in flight; `uuid` is a fresh id.
pub fn handle_request(
    sessions: &StrSet,
    running: &StrSet,
    method: &str,
    params: &Json,
    cx: &AgentContext,
    uuid: String,
) -> (r: AgentAction)
    ensures
        r@ == request_action(sessions@, running@, method@, params@, *cx, uuid@),
{
    if str_eq(method, "initialize") {
        AgentAction::Respond(initialize_response(cx.agent_name.as_str(), cx.agent_title.as_str()))
    } else if str_eq(method, "session/new") {
        let spawn = start_new(params, cx, uuid.as_str().to_owned());
        AgentAction::Start { session_id: uuid, spawn }
    } else if str_eq(method, "session/load") {
        let session_id = params.str_or_empty("sessionId");
        let mut spawn = start_new(params, cx, session_id.to_owned());
        spawn.resume = Some(session_id.to_owned());
        spawn.session_id = None;
        AgentAction::Start { session_id: session_id.to_owned(), spawn }
    } else if str_eq(method, "session/prompt") {
        handle_prompt(sessions, params, uuid)
    } else if str_eq(method, "_session/steering") {
        handle_steering(sessions, running, params, uuid)
    } else {
        AgentAction::Reject(refuse_method(method))
    }
}

/// What follows once a session was started: the answer, and the commands that the
/// client is told of right behind it.
pub fn session_started(session_id: &str, info: &InitializeInfo) -> (r: (
    Json,
    Vec<AvailableCommand>,
))
    ensures
        r.0@ == session_answer(session_id@),
        commands(r.1@) == all_offered(jsons(info.commands@), Seq::empty()),
{
    let mut list: Vec<Json> = Vec::new();
    let mut i: usize = 0;
    while i < info.commands.len()
        invariant
            i <= info.commands@.len(),
            list@.len() == i,
            forall|k: int| 0 <= k < i ==> (#[trigger] list@[k])@ == info.commands@[k]@,
        decreases info.commands@.len() - i,
    {
        list.push(info.commands[i].copy());
        i += 1;
    }
    proof {
        assert(jsons(list@) =~= jsons(info.commands@));
    }
    let offered = map_commands_changed(&Json::array(list), &Json::Null);
    (session_response(session_id), offered)
}

/// What follows if a session could not be started, or a prompt not be answered.
pub fn session_failed(err: &SessionError) -> (r: RpcError)
    ensures
        r@ == (RpcSpec {
            code: INTERNAL_ERROR as int,
            message: rpc_parts(*err).0,
            data: rpc_parts(*err).1,
        }),
{
    rpc_error(session_error_to_rpc(err))
}

/// The session that a notification cancels: `session/cancel` of a session that
/// there is. Any other notification is ignored.
pub open spec fn cancelled_by(sessions: Set<Seq<char>>, method: Seq<char>, params: JsonSpec) -> Option<
    Seq<char>,
> {
    let session_id = params.str_or_empty("sessionId"@);
    if method == "session/cancel"@ && sessions.contains(session_id) {
        Some(session_id)
    } else {
        None
    }
}

/// The session that a notification cancels.
pub fn handle_notification(sessions: &StrSet, method: &str, params: &Json) -> (r: Option<String>)
    ensures
        opt_string(r) == cancelled_by(sessions@, method@, params@),
{
    let session_id = params.str_or_empty("sessionId");
    if str_eq(method, "session/cancel") && sessions.contains(session_id) {
        Some(session_id.to_owned())
    } else {
        None
    }
}

/// What stands behind a flag in the first argument that starts with it.
pub open spec fn value_of_flag(argv: Seq<Seq<char>>, flag: Seq<char>) -> Option<Seq<char>>
    decreases argv.len(),
{
    if argv.len() == 0 {
        None
    } else if has_prefix(argv[0], flag) {
        behind(argv[0], flag)
    } else {
        value_of_flag(argv.skip(1), flag)
    }
}

fn find_flag(argv: &Vec<String>, flag: &str) -> (r: Option<String>)
    ensures
        opt_string(r) == value_of_flag(texts(argv@), flag@),
{
    let mut i: usize = 0;
    proof {
        assert(texts(argv@).skip(0) =~= texts(argv@));
    }
    while i < argv.len()
        invariant
            i <= argv@.len(),
            value_of_flag(texts(argv@), flag@) == value_of_flag(texts(argv@).skip(i as int), flag@),
        decreases argv@.len() - i,
    {
        proof {
            assert(texts(argv@).skip(i as int)[0] == argv@[i as int]@);
            assert(texts(argv@).skip(i as int).skip(1) =~= texts(argv@).skip(i + 1));
        }
        if let Some(value) = strip_prefix(argv[i].as_str(), flag) {
            return Some(value);
        }
        i += 1;
    }
    None
}

/// The session id among the arguments of the child.
pub fn session_id_from_argv(argv: &Vec<String>) -> (r: Option<String>)
    ensures
        opt_string(r) == value_of_flag(texts(argv@), "--session-id="@),
{
    find_flag(argv, "--session-id=")
}

/// The session to go on with among the arguments of the child.
pub fn resume_from_argv(argv: &Vec<String>) -> (r: Option<String>)
    ensures
        opt_string(r) == value_of_flag(texts(argv@), "--resume="@),
{
    find_flag(argv, "--resume=")
}

} // verus!

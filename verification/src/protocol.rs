//! The JSON-RPC side of the MCP server: reading a request line, deciding
//! what it asks for, and writing the replies that need no repository.
//!
//! A line is parsed with `serde_json` into a `Json` of plain values; what
//! the decisions read of it is a `RequestView`, and `decide` maps that view
//! to a reply, to silence (a notification) or to work that needs the
//! repository (a tool call or a resource read), which the host performs.
//! Replies are built as `Json` values in the JSON-RPC envelope.
use vstd::prelude::*;

use serde_json::Value;

use crate::mcp::{
    pack_guide_markdown, resource_route, route_of, unsupported_resource_message, ResourceRoute,
    IMPLEMENTED_MCP_TOOL_NAMES,
};
use crate::model::opt_view;
use crate::schemas::{
    INITIALIZE_RESULT_JSON, PROMPTS_LIST_RESULT_JSON, RESOURCES_LIST_RESULT_JSON,
    TOOLS_LIST_RESULT_JSON,
};
use crate::text::{chars_of, eq_str, extend_chars, extend_str, string_of, trim, trim_vec};

verus! {

#[verifier::external_type_specification]
#[verifier::external_body]
pub struct ExJsonValue(serde_json::Value);

// ---------------------------------------------------------------------
// The JSON layer
// ---------------------------------------------------------------------
/// A JSON value as plain values: a number keeps the text that `serde_json`
/// writes for it, an object its members in order.
#[derive(Debug)]
pub enum Json {
    Null,
    Bool(bool),
    Number(String),
    Text(String),
    Array(Vec<Json>),
    Object(Vec<(String, Json)>),
}

/// What `serde_json` makes of a text: the JSON value it holds, or the
/// parser's complaint about a text that is not one JSON value.
pub uninterp spec fn json_parse(text: Seq<char>) -> Result<Json, Seq<char>>;

/// The complaint about a text that is not JSON, `None` for one that is.
pub open spec fn json_syntax_error(text: Seq<char>) -> Option<Seq<char>> {
    match json_parse(text) {
        Ok(_) => None,
        Err(m) => Some(m),
    }
}

/// The JSON value a text holds (`null` for a text that is not JSON).
pub open spec fn json_value(text: Seq<char>) -> Json {
    match json_parse(text) {
        Ok(v) => v,
        Err(_) => Json::Null,
    }
}

/// Converts a `serde_json::Value` into a `Json`, variant for variant; a
/// number is kept as the text `serde_json` writes for it.
#[verifier::external_body]
fn json_of(value: Value) -> (r: Json) {
    match value {
        Value::Null => Json::Null,
        Value::Bool(b) => Json::Bool(b),
        Value::Number(n) => Json::Number(n.to_string()),
        Value::String(s) => Json::Text(s),
        Value::Array(items) => Json::Array(items.into_iter().map(json_of).collect()),
        Value::Object(map) => Json::Object(map.into_iter().map(|(k, v)| (k, json_of(v))).collect()),
    }
}

/// Calls `serde_json::from_str::<Value>` and converts what it gives: the
/// value, or the message of its error. Both are named `json_parse`, a
/// function of the text alone.
#[verifier::external_body]
fn parse_json(text: &str) -> (r: Result<Json, String>)
    ensures
        match json_parse(text@) {
            Ok(v) => r == Ok::<Json, String>(v),
            Err(m) => r matches Err(e) && e@ == m,
        },
{
    match serde_json::from_str::<Value>(text) {
        Ok(value) => Ok(json_of(value)),
        Err(error) => Err(error.to_string()),
    }
}

/// The first member of an object's members under `key`.
pub open spec fn first_member(es: Seq<(String, Json)>, key: Seq<char>) -> Option<Json>
    decreases es.len(),
{
    if es.len() == 0 {
        None
    } else if es[0].0@ == key {
        Some(es[0].1)
    } else {
        first_member(es.drop_first(), key)
    }
}

/// The member of a JSON value under `key`: `None` when it is missing or
/// the value is not an object.
pub open spec fn member(j: Json, key: Seq<char>) -> Option<Json> {
    match j {
        Json::Object(es) => first_member(es@, key),
        _ => None,
    }
}

/// A member, `null` when it is missing.
pub open spec fn member_or_null(j: Json, key: Seq<char>) -> Json {
    match member(j, key) {
        Some(m) => m,
        None => Json::Null,
    }
}

/// The kind of a JSON value, with the text of a string and the length of an
/// array: what the decisions read of a member.
#[derive(Debug, Clone)]
pub enum JsonShape {
    Null,
    Bool(bool),
    Number,
    Text(String),
    Array(usize),
    Object,
}

/// The shape of a JSON value.
pub open spec fn shape_of(j: Json) -> JsonShape {
    match j {
        Json::Null => JsonShape::Null,
        Json::Bool(b) => JsonShape::Bool(b),
        Json::Number(_) => JsonShape::Number,
        Json::Text(s) => JsonShape::Text(s),
        Json::Array(items) => JsonShape::Array(items@.len() as usize),
        Json::Object(_) => JsonShape::Object,
    }
}

/// The shape of a member, `None` when it is missing.
pub open spec fn member_shape_of(j: Json, key: Seq<char>) -> Option<JsonShape> {
    match member(j, key) {
        Some(m) => Some(shape_of(m)),
        None => None,
    }
}

/// Executable `member`.
fn find_member<'a>(j: &'a Json, key: &str) -> (r: Option<&'a Json>)
    ensures
        match member(*j, key@) {
            Some(m) => r matches Some(x) && *x == m,
            None => r is None,
        },
{
    match j {
        Json::Object(es) => {
            let k = chars_of(key);
            let mut i: usize = 0;
            assert(es@.skip(0) =~= es@);
            assert(member(*j, key@) == first_member(es@, key@));
            while i < es.len()
                invariant
                    i <= es@.len(),
                    k@ == key@,
                    member(*j, key@) == first_member(es@, key@),
                    first_member(es@, key@) == first_member(es@.skip(i as int), key@),
                decreases es.len() - i,
            {
                assert(es@.skip(i as int)[0] == es@[i as int]);
                assert(es@.skip(i as int).drop_first() =~= es@.skip(i + 1));
                if crate::text::eq_chars(&chars_of(es[i].0.as_str()), &k) {
                    assert(first_member(es@.skip(i as int), key@) == Some(es@[i as int].1));
                    let found = &es[i].1;
                    assert(*found == es@[i as int].1);
                    return Some(found);
                }
                i += 1;
            }
            None
        },
        _ => None,
    }
}

/// Executable `shape_of`.
fn json_shape(j: &Json) -> (r: JsonShape)
    ensures
        r == shape_of(*j),
{
    match j {
        Json::Null => JsonShape::Null,
        Json::Bool(b) => JsonShape::Bool(*b),
        Json::Number(_) => JsonShape::Number,
        Json::Text(s) => JsonShape::Text(s.clone()),
        Json::Array(items) => JsonShape::Array(items.len()),
        Json::Object(_) => JsonShape::Object,
    }
}

/// Executable `member_shape_of`.
fn member_shape(j: &Json, key: &str) -> (r: Option<JsonShape>)
    ensures
        r == member_shape_of(*j, key@),
{
    match find_member(j, key) {
        Some(m) => Some(json_shape(m)),
        None => None,
    }
}

/// Takes two members out of a JSON value, each `null` when it is missing.
fn take_members(j: Json, k1: &str, k2: &str) -> (r: (Json, Json))
    requires
        k1@ != k2@,
    ensures
        r.0 == member_or_null(j, k1@),
        r.1 == member_or_null(j, k2@),
{
    match j {
        Json::Object(es) => {
            let ghost e0 = es@;
            let a = chars_of(k1);
            let b = chars_of(k2);
            let mut first: Option<Json> = None;
            let mut second: Option<Json> = None;
            let mut rest = es;
            let n = rest.len();
            let mut i: usize = 0;
            assert(e0.skip(0) =~= e0);
            while i < n
                invariant
                    n == e0.len(),
                    i <= n,
                    rest@ == e0.skip(i as int),
                    a@ == k1@,
                    b@ == k2@,
                    k1@ != k2@,
                    match first {
                        Some(x) => first_member(e0, k1@) == Some(x),
                        None => first_member(e0, k1@) == first_member(e0.skip(i as int), k1@),
                    },
                    match second {
                        Some(x) => first_member(e0, k2@) == Some(x),
                        None => first_member(e0, k2@) == first_member(e0.skip(i as int), k2@),
                    },
                decreases n - i,
            {
                let ghost old_rest = rest@;
                assert(e0.skip(i as int)[0] == e0[i as int]);
                assert(e0.skip(i as int).drop_first() =~= e0.skip(i + 1));
                let (key, value) = rest.remove(0);
                assert(rest@ =~= old_rest.drop_first());
                let kc = chars_of(key.as_str());
                if crate::text::eq_chars(&kc, &a) {
                    if first.is_none() {
                        first = Some(value);
                    }
                } else if crate::text::eq_chars(&kc, &b) {
                    if second.is_none() {
                        second = Some(value);
                    }
                }
                i += 1;
            }
            assert(e0.skip(n as int) =~= Seq::<(String, Json)>::empty());
            let x = match first {
                Some(v) => v,
                None => Json::Null,
            };
            let y = match second {
                Some(v) => v,
                None => Json::Null,
            };
            (x, y)
        },
        _ => (Json::Null, Json::Null),
    }
}

// ---------------------------------------------------------------------
// What a request asks for
// ---------------------------------------------------------------------
/// JSON-RPC: the text is not JSON.
pub const PARSE_ERROR: i64 = -32700;
/// JSON-RPC: the request has no method name.
pub const INVALID_REQUEST: i64 = -32600;
/// JSON-RPC: the server has no such method.
pub const METHOD_NOT_FOUND: i64 = -32601;
/// JSON-RPC: the method's parameters are wrong.
pub const INVALID_PARAMS: i64 = -32602;
/// JSON-RPC: the server failed on its own.
pub const INTERNAL_ERROR: i64 = -32603;

/// The methods the server knows.
#[derive(Debug, Clone, Copy, PartialEq, Eq, Structural)]
pub enum Method {
    Initialize,
    ToolsList,
    ToolsCall,
    ResourcesList,
    ResourcesRead,
    PromptsList,
    PromptsGet,
    Unknown,
}

/// The method a name calls.
pub open spec fn method_of(name: Seq<char>) -> Method {
    if name == "initialize"@ {
        Method::Initialize
    } else if name == "tools/list"@ {
        Method::ToolsList
    } else if name == "tools/call"@ {
        Method::ToolsCall
    } else if name == "resources/list"@ {
        Method::ResourcesList
    } else if name == "resources/read"@ {
        Method::ResourcesRead
    } else if name == "prompts/list"@ {
        Method::PromptsList
    } else if name == "prompts/get"@ {
        Method::PromptsGet
    } else {
        Method::Unknown
    }
}

/// Executable `method_of`.
pub fn rpc_method(name: &str) -> (r: Method)
    ensures
        r == method_of(name@),
{
    let n = chars_of(name);
    if eq_str(&n, "initialize") {
        Method::Initialize
    } else if eq_str(&n, "tools/list") {
        Method::ToolsList
    } else if eq_str(&n, "tools/call") {
        Method::ToolsCall
    } else if eq_str(&n, "resources/list") {
        Method::ResourcesList
    } else if eq_str(&n, "resources/read") {
        Method::ResourcesRead
    } else if eq_str(&n, "prompts/list") {
        Method::PromptsList
    } else if eq_str(&n, "prompts/get") {
        Method::PromptsGet
    } else {
        Method::Unknown
    }
}

/// The tools the server offers.
#[derive(Debug, Clone, Copy, PartialEq, Eq, Structural)]
pub enum ToolName {
    PrepareTask,
    Search,
    Related,
    GetPack,
    RelatedTests,
    CurrentDiff,
}

/// The tool a name calls, if the server offers it.
pub open spec fn tool_of(name: Seq<char>) -> Option<ToolName> {
    if name == "prepare_task"@ {
        Some(ToolName::PrepareTask)
    } else if name == "search"@ {
        Some(ToolName::Search)
    } else if name == "related"@ {
        Some(ToolName::Related)
    } else if name == "get_pack"@ {
        Some(ToolName::GetPack)
    } else if name == "related_tests"@ {
        Some(ToolName::RelatedTests)
    } else if name == "current_diff"@ {
        Some(ToolName::CurrentDiff)
    } else {
        None
    }
}

/// Executable `tool_of`.
pub fn tool_by_name(name: &str) -> (r: Option<ToolName>)
    ensures
        r == tool_of(name@),
{
    let n = chars_of(name);
    if eq_str(&n, "prepare_task") {
        Some(ToolName::PrepareTask)
    } else if eq_str(&n, "search") {
        Some(ToolName::Search)
    } else if eq_str(&n, "related") {
        Some(ToolName::Related)
    } else if eq_str(&n, "get_pack") {
        Some(ToolName::GetPack)
    } else if eq_str(&n, "related_tests") {
        Some(ToolName::RelatedTests)
    } else if eq_str(&n, "current_diff") {
        Some(ToolName::CurrentDiff)
    } else {
        None
    }
}

/// The workflow prompts the server offers.
#[derive(Debug, Clone, Copy, PartialEq, Eq, Structural)]
pub enum PromptKind {
    Bugfix,
    Feature,
    Refactor,
    ReviewDiff,
    WriteTests,
    ExplainArea,
}

/// The prompt a name asks for, if the server offers it.
pub open spec fn prompt_of(name: Seq<char>) -> Option<PromptKind> {
    if name == "bugfix"@ {
        Some(PromptKind::Bugfix)
    } else if name == "feature"@ {
        Some(PromptKind::Feature)
    } else if name == "refactor"@ {
        Some(PromptKind::Refactor)
    } else if name == "review_diff"@ {
        Some(PromptKind::ReviewDiff)
    } else if name == "write_tests"@ {
        Some(PromptKind::WriteTests)
    } else if name == "explain_area"@ {
        Some(PromptKind::ExplainArea)
    } else {
        None
    }
}

/// Executable `prompt_of`.
pub fn prompt_by_name(name: &str) -> (r: Option<PromptKind>)
    ensures
        r == prompt_of(name@),
{
    let n = chars_of(name);
    if eq_str(&n, "bugfix") {
        Some(PromptKind::Bugfix)
    } else if eq_str(&n, "feature") {
        Some(PromptKind::Feature)
    } else if eq_str(&n, "refactor") {
        Some(PromptKind::Refactor)
    } else if eq_str(&n, "review_diff") {
        Some(PromptKind::ReviewDiff)
    } else if eq_str(&n, "write_tests") {
        Some(PromptKind::WriteTests)
    } else if eq_str(&n, "explain_area") {
        Some(PromptKind::ExplainArea)
    } else {
        None
    }
}

/// What the decisions read of one request: whether it has an id, its
/// method name, and the shapes of the parameters they look at. Members of
/// `params` and of `params.arguments` that are missing are `None`.
#[derive(Debug, Clone)]
pub struct RequestView {
    pub has_id: bool,
    pub method: Option<String>,
    pub params_object: bool,
    pub name: Option<JsonShape>,
    pub uri: Option<JsonShape>,
    pub arguments_object: bool,
    pub task: Option<JsonShape>,
    pub query: Option<JsonShape>,
    pub paths: Option<JsonShape>,
    pub path: Option<JsonShape>,
    pub symbol: Option<JsonShape>,
    pub include_current_diff: Option<JsonShape>,
}

/// A reply the server writes itself.
#[derive(Debug, Clone)]
pub enum Reply {
    Initialize,
    ToolsList,
    ResourcesList,
    PromptsList,
    PackGuide { uri: String },
    Prompt { kind: PromptKind, task: String },
    Error { code: i64, message: String },
}

/// A reply, with its texts as character sequences.
pub enum ReplyV {
    Initialize,
    ToolsList,
    ResourcesList,
    PromptsList,
    PackGuide(Seq<char>),
    Prompt(PromptKind, Seq<char>),
    Error(i64, Seq<char>),
}

impl View for Reply {
    type V = ReplyV;

    open spec fn view(&self) -> ReplyV {
        match self {
            Reply::Initialize => ReplyV::Initialize,
            Reply::ToolsList => ReplyV::ToolsList,
            Reply::ResourcesList => ReplyV::ResourcesList,
            Reply::PromptsList => ReplyV::PromptsList,
            Reply::PackGuide { uri } => ReplyV::PackGuide(uri@),
            Reply::Prompt { kind, task } => ReplyV::Prompt(*kind, task@),
            Reply::Error { code, message } => ReplyV::Error(*code, message@),
        }
    }
}

/// Work the host performs on the repository before it replies: a tool call
/// whose arguments passed the checks made here, a tool call whose
/// parameters only the host's typed reading can judge, a resource read, or
/// a resource read whose parameters only the host can judge.
#[derive(Debug, Clone)]
pub enum Work {
    Tool(ToolName),
    ToolParams,
    Resource { route: ResourceRoute, uri: String },
    ResourceParams,
}

/// Work, with its address as a character sequence.
pub enum WorkV {
    Tool(ToolName),
    ToolParams,
    Resource(ResourceRoute, Seq<char>),
    ResourceParams,
}

impl View for Work {
    type V = WorkV;

    open spec fn view(&self) -> WorkV {
        match self {
            Work::Tool(t) => WorkV::Tool(*t),
            Work::ToolParams => WorkV::ToolParams,
            Work::Resource { route, uri } => WorkV::Resource(*route, uri@),
            Work::ResourceParams => WorkV::ResourceParams,
        }
    }
}

/// What the server does with a request.
#[derive(Debug, Clone)]
pub enum Decision {
    Silent,
    Reply(Reply),
    Work(Work),
}

/// A decision over views.
pub enum DecisionV {
    Silent,
    Reply(ReplyV),
    Work(WorkV),
}

impl View for Decision {
    type V = DecisionV;

    open spec fn view(&self) -> DecisionV {
        match self {
            Decision::Silent => DecisionV::Silent,
            Decision::Reply(r) => DecisionV::Reply(r@),
            Decision::Work(w) => DecisionV::Work(w@),
        }
    }
}

/// An error reply.
pub open spec fn error_reply(code: i64, message: Seq<char>) -> DecisionV {
    DecisionV::Reply(ReplyV::Error(code, message))
}

/// The message of a missing required argument, as the typed reading of the
/// arguments words it.
pub open spec fn missing_field(tool: Seq<char>, field: Seq<char>) -> Seq<char> {
    "invalid "@ + tool + " arguments: missing field `"@ + field + "`"@
}

/// The complaint about a required text argument: missing, or blank.
/// Arguments of another type are left to the typed reading.
pub open spec fn required_text(tool: Seq<char>, field: Seq<char>, v: Option<JsonShape>) -> Option<
    Seq<char>,
> {
    match v {
        None => Some(missing_field(tool, field)),
        Some(JsonShape::Text(s)) => if trim(s@).len() == 0 {
            Some(field + " must not be empty"@)
        } else {
            None
        },
        Some(_) => None,
    }
}

/// An optional text anchor that names nothing: missing, null or blank.
pub open spec fn empty_anchor(v: Option<JsonShape>) -> bool {
    match v {
        None => true,
        Some(JsonShape::Null) => true,
        Some(JsonShape::Text(s)) => trim(s@).len() == 0,
        Some(_) => false,
    }
}

/// A current-diff flag that is off: missing or `false`.
pub open spec fn diff_flag_off(v: Option<JsonShape>) -> bool {
    match v {
        None => true,
        Some(JsonShape::Bool(b)) => !b,
        Some(_) => false,
    }
}

/// The complaint about a related call with no anchor at all.
pub open spec fn no_anchor_message() -> Seq<char> {
    "related requires a non-empty path, symbol, or current diff anchor"@
}

/// The complaint about the arguments of a tool call that can be told
/// without the repository, when its arguments form an object.
pub open spec fn tool_argument_error(tool: ToolName, r: RequestView) -> Option<Seq<char>> {
    if !r.arguments_object {
        None
    } else {
        match tool {
            ToolName::PrepareTask => required_text("prepare_task"@, "task"@, r.task),
            ToolName::GetPack => required_text("get_pack"@, "task"@, r.task),
            ToolName::Search => required_text("search"@, "query"@, r.query),
            ToolName::RelatedTests => match r.paths {
                None => Some(missing_field("related_tests"@, "paths"@)),
                Some(JsonShape::Array(n)) => if n == 0 {
                    Some("paths must not be empty"@)
                } else {
                    None
                },
                Some(_) => None,
            },
            ToolName::Related => if empty_anchor(r.path) && empty_anchor(r.symbol)
                && diff_flag_off(r.include_current_diff) {
                Some(no_anchor_message())
            } else {
                None
            },
            ToolName::CurrentDiff => None,
        }
    }
}

/// What a `tools/call` request comes to.
pub open spec fn tool_decision(r: RequestView) -> DecisionV {
    if !r.params_object {
        DecisionV::Work(WorkV::ToolParams)
    } else {
        match r.name {
            None => error_reply(INVALID_PARAMS, "invalid tools/call params: missing field `name`"@),
            Some(JsonShape::Text(n)) => match tool_of(n@) {
                None => error_reply(INVALID_PARAMS, "tool is not implemented: "@ + n@),
                Some(t) => match tool_argument_error(t, r) {
                    Some(m) => error_reply(INVALID_PARAMS, m),
                    None => DecisionV::Work(WorkV::Tool(t)),
                },
            },
            Some(_) => DecisionV::Work(WorkV::ToolParams),
        }
    }
}

/// What a `resources/read` request comes to.
pub open spec fn resource_decision(r: RequestView) -> DecisionV {
    if !r.params_object {
        DecisionV::Work(WorkV::ResourceParams)
    } else {
        match r.uri {
            None => error_reply(
                INVALID_PARAMS,
                "invalid resources/read params: missing field `uri`"@,
            ),
            Some(JsonShape::Text(u)) => match route_of(u@) {
                ResourceRoute::Unsupported => error_reply(
                    INVALID_PARAMS,
                    "unsupported resource URI: "@ + u@,
                ),
                ResourceRoute::PackGuide => DecisionV::Reply(ReplyV::PackGuide(u@)),
                route => DecisionV::Work(WorkV::Resource(route, u@)),
            },
            Some(_) => DecisionV::Work(WorkV::ResourceParams),
        }
    }
}

/// The task text of a prompt request: the trimmed `task` argument, empty
/// when there is none.
pub open spec fn prompt_task(v: Option<JsonShape>) -> Seq<char> {
    match v {
        Some(JsonShape::Text(s)) => trim(s@),
        _ => Seq::empty(),
    }
}

/// What a `prompts/get` request comes to.
pub open spec fn prompt_decision(r: RequestView) -> DecisionV {
    match r.name {
        Some(JsonShape::Text(n)) => if r.params_object {
            match prompt_of(n@) {
                Some(k) => DecisionV::Reply(ReplyV::Prompt(k, prompt_task(r.task))),
                None => error_reply(INVALID_PARAMS, "unknown prompt: "@ + n@),
            }
        } else {
            error_reply(INVALID_PARAMS, "prompts/get requires a prompt name"@)
        },
        _ => error_reply(INVALID_PARAMS, "prompts/get requires a prompt name"@),
    }
}

/// What the server does with a request: nothing for a notification (a
/// request without an id), else the reply or work its method calls for.
pub open spec fn decide(r: RequestView) -> DecisionV {
    if !r.has_id {
        DecisionV::Silent
    } else {
        match r.method {
            None => error_reply(INVALID_REQUEST, "invalid request: method must be a string"@),
            Some(m) => match method_of(m@) {
                Method::Initialize => DecisionV::Reply(ReplyV::Initialize),
                Method::ToolsList => DecisionV::Reply(ReplyV::ToolsList),
                Method::ResourcesList => DecisionV::Reply(ReplyV::ResourcesList),
                Method::PromptsList => DecisionV::Reply(ReplyV::PromptsList),
                Method::ToolsCall => tool_decision(r),
                Method::ResourcesRead => resource_decision(r),
                Method::PromptsGet => prompt_decision(r),
                Method::Unknown => error_reply(METHOD_NOT_FOUND, "method not found: "@ + m@),
            },
        }
    }
}

// ---------------------------------------------------------------------
// Executable decisions
// ---------------------------------------------------------------------
/// Whether a text is empty once trimmed.
fn blank(s: &String) -> (r: bool)
    ensures
        r == (trim(s@).len() == 0),
{
    let c = chars_of(s.as_str());
    let t = trim_vec(&c);
    t.len() == 0
}

/// A string of the given characters followed by those of a `&str`.
fn joined(head: &str, tail: &str) -> (r: String)
    ensures
        r@ == head@ + tail@,
{
    let mut v: Vec<char> = Vec::new();
    extend_str(&mut v, head);
    extend_str(&mut v, tail);
    string_of(&v)
}

/// Executable `missing_field`.
fn missing_field_message(tool: &str, field: &str) -> (r: String)
    ensures
        r@ == missing_field(tool@, field@),
{
    let mut v: Vec<char> = Vec::new();
    extend_str(&mut v, "invalid ");
    extend_str(&mut v, tool);
    extend_str(&mut v, " arguments: missing field `");
    extend_str(&mut v, field);
    extend_str(&mut v, "`");
    string_of(&v)
}

/// Executable `required_text`.
fn required_text_error(tool: &str, field: &str, v: &Option<JsonShape>) -> (r: Option<String>)
    ensures
        opt_view(r) == required_text(tool@, field@, *v),
{
    match v {
        None => Some(missing_field_message(tool, field)),
        Some(JsonShape::Text(s)) => {
            if blank(s) {
                Some(joined(field, " must not be empty"))
            } else {
                None
            }
        },
        Some(_) => None,
    }
}

/// Executable `empty_anchor`.
fn anchor_empty(v: &Option<JsonShape>) -> (r: bool)
    ensures
        r == empty_anchor(*v),
{
    match v {
        None => true,
        Some(JsonShape::Null) => true,
        Some(JsonShape::Text(s)) => blank(s),
        Some(_) => false,
    }
}

/// Executable `diff_flag_off`.
fn diff_off(v: &Option<JsonShape>) -> (r: bool)
    ensures
        r == diff_flag_off(*v),
{
    match v {
        None => true,
        Some(JsonShape::Bool(b)) => !*b,
        Some(_) => false,
    }
}

/// Executable `tool_argument_error`.
pub fn tool_arguments_error(tool: ToolName, r: &RequestView) -> (e: Option<String>)
    ensures
        opt_view(e) == tool_argument_error(tool, *r),
{
    if !r.arguments_object {
        return None;
    }
    match tool {
        ToolName::PrepareTask => required_text_error("prepare_task", "task", &r.task),
        ToolName::GetPack => required_text_error("get_pack", "task", &r.task),
        ToolName::Search => required_text_error("search", "query", &r.query),
        ToolName::RelatedTests => match &r.paths {
            None => Some(missing_field_message("related_tests", "paths")),
            Some(JsonShape::Array(n)) => {
                if *n == 0 {
                    Some(String::from_str("paths must not be empty"))
                } else {
                    None
                }
            },
            Some(_) => None,
        },
        ToolName::Related => {
            if anchor_empty(&r.path) && anchor_empty(&r.symbol) && diff_off(
                &r.include_current_diff,
            ) {
                Some(
                    String::from_str(
                        "related requires a non-empty path, symbol, or current diff anchor",
                    ),
                )
            } else {
                None
            }
        },
        ToolName::CurrentDiff => None,
    }
}

/// An error decision.
fn error_decision(code: i64, message: String) -> (d: Decision)
    ensures
        d@ == error_reply(code, message@),
{
    Decision::Reply(Reply::Error { code, message })
}

/// Executable `tool_decision`.
fn decide_tool_call(r: &RequestView) -> (d: Decision)
    ensures
        d@ == tool_decision(*r),
{
    if !r.params_object {
        return Decision::Work(Work::ToolParams);
    }
    match &r.name {
        None => error_decision(
            INVALID_PARAMS,
            String::from_str("invalid tools/call params: missing field `name`"),
        ),
        Some(JsonShape::Text(n)) => match tool_by_name(n.as_str()) {
            None => error_decision(INVALID_PARAMS, joined("tool is not implemented: ", n.as_str())),
            Some(t) => match tool_arguments_error(t, r) {
                Some(m) => error_decision(INVALID_PARAMS, m),
                None => Decision::Work(Work::Tool(t)),
            },
        },
        Some(_) => Decision::Work(Work::ToolParams),
    }
}

/// Executable `resource_decision`.
fn decide_resource_read(r: &RequestView) -> (d: Decision)
    ensures
        d@ == resource_decision(*r),
{
    if !r.params_object {
        return Decision::Work(Work::ResourceParams);
    }
    match &r.uri {
        None => error_decision(
            INVALID_PARAMS,
            String::from_str("invalid resources/read params: missing field `uri`"),
        ),
        Some(JsonShape::Text(u)) => {
            let route = resource_route(u.as_str());
            match route {
                ResourceRoute::Unsupported => error_decision(
                    INVALID_PARAMS,
                    unsupported_resource_message(u.as_str()),
                ),
                ResourceRoute::PackGuide => Decision::Reply(Reply::PackGuide { uri: u.clone() }),
                _ => Decision::Work(Work::Resource { route, uri: u.clone() }),
            }
        },
        Some(_) => Decision::Work(Work::ResourceParams),
    }
}

/// Executable `prompt_task`.
fn prompt_task_text(v: &Option<JsonShape>) -> (t: String)
    ensures
        t@ == prompt_task(*v),
{
    match v {
        Some(JsonShape::Text(s)) => {
            let c = chars_of(s.as_str());
            string_of(&trim_vec(&c))
        },
        _ => String::new(),
    }
}

/// Executable `prompt_decision`.
fn decide_prompt_get(r: &RequestView) -> (d: Decision)
    ensures
        d@ == prompt_decision(*r),
{
    match &r.name {
        Some(JsonShape::Text(n)) => {
            if r.params_object {
                match prompt_by_name(n.as_str()) {
                    Some(k) => Decision::Reply(Reply::Prompt { kind: k, task: prompt_task_text(&r.task) }),
                    None => error_decision(INVALID_PARAMS, joined("unknown prompt: ", n.as_str())),
                }
            } else {
                error_decision(INVALID_PARAMS, String::from_str("prompts/get requires a prompt name"))
            }
        },
        _ => error_decision(INVALID_PARAMS, String::from_str("prompts/get requires a prompt name")),
    }
}

/// Executable `decide`.
pub fn decide_request(r: &RequestView) -> (d: Decision)
    ensures
        d@ == decide(*r),
{
    if !r.has_id {
        return Decision::Silent;
    }
    match &r.method {
        None => error_decision(
            INVALID_REQUEST,
            String::from_str("invalid request: method must be a string"),
        ),
        Some(m) => match rpc_method(m.as_str()) {
            Method::Initialize => Decision::Reply(Reply::Initialize),
            Method::ToolsList => Decision::Reply(Reply::ToolsList),
            Method::ResourcesList => Decision::Reply(Reply::ResourcesList),
            Method::PromptsList => Decision::Reply(Reply::PromptsList),
            Method::ToolsCall => decide_tool_call(r),
            Method::ResourcesRead => decide_resource_read(r),
            Method::PromptsGet => decide_prompt_get(r),
            Method::Unknown => error_decision(METHOD_NOT_FOUND, joined("method not found: ", m.as_str())),
        },
    }
}

// ---------------------------------------------------------------------
// Prompts
// ---------------------------------------------------------------------
/// What a prompt is for, as the prompt list describes it.
pub open spec fn prompt_description(k: PromptKind) -> Seq<char> {
    match k {
        PromptKind::Bugfix => "Prepare and solve a bug fix with targeted repo context."@,
        PromptKind::Feature => "Prepare and implement a feature using analogous repo context."@,
        PromptKind::Refactor => "Plan a refactor using callers, tests, and constraints."@,
        PromptKind::ReviewDiff => "Review the current diff with repo-aware context."@,
        PromptKind::WriteTests => "Find source context and write focused tests."@,
        PromptKind::ExplainArea => "Explain an area of the codebase with grounded files."@,
    }
}

/// The workflow a prompt tells the agent to follow.
pub open spec fn prompt_workflow(k: PromptKind) -> Seq<char> {
    match k {
        PromptKind::Bugfix => "Call ctxpack.prepare_task with the task and mode bug_fix to get the target files, related tests and constraints. Read and edit the files with the host agent's native tools, then run the targeted test commands from the plan."@,
        PromptKind::Feature => "Call ctxpack.prepare_task with the task and mode feature to find analogous code, target files and tests. Implement the change with the host agent's native tools and add focused tests."@,
        PromptKind::Refactor => "Call ctxpack.prepare_task with the task and mode refactor, then ctxpack.related on the files you will change to see their callers, tests and dependency edges. Make the change with the host agent's native tools and keep the related tests passing."@,
        PromptKind::ReviewDiff => "Call ctxpack.current_diff to list the changed files, then ctxpack.prepare_task with the task, mode review and includeCurrentDiff set to true. Review the changes with the host agent's native tools against the returned constraints and related tests."@,
        PromptKind::WriteTests => "Call ctxpack.prepare_task with the task and mode test, then ctxpack.related_tests on the target files to find existing tests and their commands. Write the tests with the host agent's native tools and run them."@,
        PromptKind::ExplainArea => "Call ctxpack.prepare_task with the task and mode explain, then ctxpack.get_pack for a compact pack of the area. Read the grounded files with the host agent's native tools and explain the area with file references."@,
    }
}

/// The user message of a prompt: the task, then the workflow.
pub open spec fn prompt_text(k: PromptKind, task: Seq<char>) -> Seq<char> {
    "Task: "@ + task + "\n\n"@ + prompt_workflow(k)
}

/// Executable `prompt_description`.
pub fn prompt_description_text(k: PromptKind) -> (r: String)
    ensures
        r@ == prompt_description(k),
{
    match k {
        PromptKind::Bugfix => String::from_str("Prepare and solve a bug fix with targeted repo context."),
        PromptKind::Feature => String::from_str("Prepare and implement a feature using analogous repo context."),
        PromptKind::Refactor => String::from_str("Plan a refactor using callers, tests, and constraints."),
        PromptKind::ReviewDiff => String::from_str("Review the current diff with repo-aware context."),
        PromptKind::WriteTests => String::from_str("Find source context and write focused tests."),
        PromptKind::ExplainArea => String::from_str("Explain an area of the codebase with grounded files."),
    }
}

/// Executable `prompt_text`.
pub fn prompt_message(k: PromptKind, task: &str) -> (r: String)
    ensures
        r@ == prompt_text(k, task@),
{
    let mut v: Vec<char> = Vec::new();
    extend_str(&mut v, "Task: ");
    extend_str(&mut v, task);
    extend_str(&mut v, "\n\n");
    match k {
        PromptKind::Bugfix => extend_str(&mut v, "Call ctxpack.prepare_task with the task and mode bug_fix to get the target files, related tests and constraints. Read and edit the files with the host agent's native tools, then run the targeted test commands from the plan."),
        PromptKind::Feature => extend_str(&mut v, "Call ctxpack.prepare_task with the task and mode feature to find analogous code, target files and tests. Implement the change with the host agent's native tools and add focused tests."),
        PromptKind::Refactor => extend_str(&mut v, "Call ctxpack.prepare_task with the task and mode refactor, then ctxpack.related on the files you will change to see their callers, tests and dependency edges. Make the change with the host agent's native tools and keep the related tests passing."),
        PromptKind::ReviewDiff => extend_str(&mut v, "Call ctxpack.current_diff to list the changed files, then ctxpack.prepare_task with the task, mode review and includeCurrentDiff set to true. Review the changes with the host agent's native tools against the returned constraints and related tests."),
        PromptKind::WriteTests => extend_str(&mut v, "Call ctxpack.prepare_task with the task and mode test, then ctxpack.related_tests on the target files to find existing tests and their commands. Write the tests with the host agent's native tools and run them."),
        PromptKind::ExplainArea => extend_str(&mut v, "Call ctxpack.prepare_task with the task and mode explain, then ctxpack.get_pack for a compact pack of the area. Read the grounded files with the host agent's native tools and explain the area with file references."),
    }
    string_of(&v)
}

// ---------------------------------------------------------------------
// Reading a request and writing a reply
// ---------------------------------------------------------------------
/// What the decisions read of a parsed request.
pub open spec fn request_of(j: Json) -> RequestView {
    let params = member_or_null(j, "params"@);
    let arguments = member_or_null(params, "arguments"@);
    RequestView {
        has_id: member(j, "id"@) is Some,
        method: match member(j, "method"@) {
            Some(Json::Text(m)) => Some(m),
            _ => None,
        },
        params_object: params is Object,
        name: member_shape_of(params, "name"@),
        uri: member_shape_of(params, "uri"@),
        arguments_object: arguments is Object,
        task: member_shape_of(arguments, "task"@),
        query: member_shape_of(arguments, "query"@),
        paths: member_shape_of(arguments, "paths"@),
        path: member_shape_of(arguments, "path"@),
        symbol: member_shape_of(arguments, "symbol"@),
        include_current_diff: member_shape_of(arguments, "includeCurrentDiff"@),
    }
}

/// Reads what the decisions look at from a parsed request.
pub fn read_request(value: &Json) -> (r: RequestView)
    ensures
        r == request_of(*value),
{
    let null = Json::Null;
    let has_id = find_member(value, "id").is_some();
    let method = match find_member(value, "method") {
        Some(Json::Text(m)) => Some(m.clone()),
        _ => None,
    };
    let params: &Json = match find_member(value, "params") {
        Some(p) => p,
        None => &null,
    };
    let null2 = Json::Null;
    let arguments: &Json = match find_member(params, "arguments") {
        Some(a) => a,
        None => &null2,
    };
    let params_object = match params {
        Json::Object(_) => true,
        _ => false,
    };
    let arguments_object = match arguments {
        Json::Object(_) => true,
        _ => false,
    };
    RequestView {
        has_id,
        method,
        params_object,
        name: member_shape(params, "name"),
        uri: member_shape(params, "uri"),
        arguments_object,
        task: member_shape(arguments, "task"),
        query: member_shape(arguments, "query"),
        paths: member_shape(arguments, "paths"),
        path: member_shape(arguments, "path"),
        symbol: member_shape(arguments, "symbol"),
        include_current_diff: member_shape(arguments, "includeCurrentDiff"),
    }
}

/// A JSON string with the given text.
pub open spec fn text_is(j: Json, t: Seq<char>) -> bool {
    j matches Json::Text(s) && s@ == t
}

/// The JSON text of an integer.
pub open spec fn int_text(n: i64) -> Seq<char> {
    if n < 0 {
        "-"@ + crate::text::decimal((-n) as nat)
    } else {
        crate::text::decimal(n as nat)
    }
}

/// A JSON number with the given integer value.
pub open spec fn int_is(j: Json, n: i64) -> bool {
    j matches Json::Number(s) && s@ == int_text(n)
}

/// Member `i` of a JSON object is `key`.
pub open spec fn key_at(j: Json, i: int, key: Seq<char>) -> bool {
    j matches Json::Object(es) && 0 <= i < es@.len() && es@[i].0@ == key
}

/// The value of member `i` of a JSON object (`null` out of range).
pub open spec fn value_at(j: Json, i: int) -> Json {
    match j {
        Json::Object(es) => if 0 <= i < es@.len() {
            es@[i].1
        } else {
            Json::Null
        },
        _ => Json::Null,
    }
}

/// The number of members of an object (0 for any other value).
pub open spec fn member_count(j: Json) -> nat {
    match j {
        Json::Object(es) => es@.len(),
        _ => 0,
    }
}

/// A JSON-RPC success reply: `{"jsonrpc": "2.0", "id": id, "result": result}`.
pub open spec fn result_envelope_of(r: Json, id: Json, result: Json) -> bool {
    &&& member_count(r) == 3
    &&& key_at(r, 0, "jsonrpc"@) && text_is(value_at(r, 0), "2.0"@)
    &&& key_at(r, 1, "id"@) && value_at(r, 1) == id
    &&& key_at(r, 2, "result"@) && value_at(r, 2) == result
}

/// A JSON-RPC error reply: `{"jsonrpc": "2.0", "id": id, "error": {"code":
/// code, "message": message}}`.
pub open spec fn error_envelope_of(r: Json, id: Json, code: i64, message: Seq<char>) -> bool {
    &&& member_count(r) == 3
    &&& key_at(r, 0, "jsonrpc"@) && text_is(value_at(r, 0), "2.0"@)
    &&& key_at(r, 1, "id"@) && value_at(r, 1) == id
    &&& key_at(r, 2, "error"@)
    &&& member_count(value_at(r, 2)) == 2
    &&& key_at(value_at(r, 2), 0, "code"@) && int_is(value_at(value_at(r, 2), 0), code)
    &&& key_at(value_at(r, 2), 1, "message"@) && text_is(value_at(value_at(r, 2), 1), message)
}

/// The `contents` of a resource read: `{"contents": [{"uri": uri,
/// "mimeType": mime_type, "text": text}]}`.
pub open spec fn contents_of(r: Json, uri: Seq<char>, mime_type: Seq<char>, text: Seq<char>) -> bool {
    &&& member_count(r) == 1
    &&& key_at(r, 0, "contents"@)
    &&& value_at(r, 0) matches Json::Array(items) && items@.len() == 1 && {
        let item = items@[0];
        &&& member_count(item) == 3
        &&& key_at(item, 0, "uri"@) && text_is(value_at(item, 0), uri)
        &&& key_at(item, 1, "mimeType"@) && text_is(value_at(item, 1), mime_type)
        &&& key_at(item, 2, "text"@) && text_is(value_at(item, 2), text)
    }
}

/// The answer to `prompts/get`: `{"description": ..., "messages": [{"role":
/// "user", "content": {"type": "text", "text": ...}}]}`.
pub open spec fn prompt_result_of(r: Json, kind: PromptKind, task: Seq<char>) -> bool {
    &&& member_count(r) == 2
    &&& key_at(r, 0, "description"@) && text_is(value_at(r, 0), prompt_description(kind))
    &&& key_at(r, 1, "messages"@)
    &&& value_at(r, 1) matches Json::Array(items) && items@.len() == 1 && {
        let message = items@[0];
        &&& member_count(message) == 2
        &&& key_at(message, 0, "role"@) && text_is(value_at(message, 0), "user"@)
        &&& key_at(message, 1, "content"@)
        &&& member_count(value_at(message, 1)) == 2
        &&& key_at(value_at(message, 1), 0, "type"@) && text_is(value_at(value_at(message, 1), 0), "text"@)
        &&& key_at(value_at(message, 1), 1, "text"@) && text_is(
            value_at(value_at(message, 1), 1),
            prompt_text(kind, task),
        )
    }
}

/// A JSON string.
fn json_text(s: String) -> (r: Json)
    ensures
        text_is(r, s@),
{
    Json::Text(s)
}

/// A JSON number with an integer value.
fn json_int(n: i64) -> (r: Json)
    ensures
        int_is(r, n),
{
    let mut v: Vec<char> = Vec::new();
    if n < 0 {
        let m: u64 = ((-(n + 1)) as u64) + 1;
        v.push('-');
        extend_chars(&mut v, &crate::text::decimal_chars(m));
        assert(v@ =~= "-"@ + crate::text::decimal((-n) as nat)) by {
            reveal_strlit("-");
        }
    } else {
        extend_chars(&mut v, &crate::text::decimal_chars(n as u64));
        assert(v@ =~= crate::text::decimal(n as nat));
    }
    Json::Number(string_of(&v))
}

/// A key and a value for a JSON object.
fn entry(key: &str, value: Json) -> (r: (String, Json))
    ensures
        r.0@ == key@,
        r.1 == value,
{
    (String::from_str(key), value)
}

/// A JSON-RPC success reply.
pub fn result_envelope(id: Json, result: Json) -> (r: Json)
    ensures
        result_envelope_of(r, id, result),
{
    Json::Object(vec![entry("jsonrpc", json_text(String::from_str("2.0"))), entry("id", id), entry("result", result)])
}

/// A JSON-RPC error reply.
pub fn error_envelope(id: Json, code: i64, message: String) -> (r: Json)
    ensures
        error_envelope_of(r, id, code, message@),
{
    let error = Json::Object(vec![entry("code", json_int(code)), entry("message", json_text(message))]);
    Json::Object(vec![entry("jsonrpc", json_text(String::from_str("2.0"))), entry("id", id), entry("error", error)])
}

/// The `contents` of a resource read: one text with its address and media
/// type.
pub fn resource_contents(uri: String, mime_type: String, text: String) -> (r: Json)
    ensures
        contents_of(r, uri@, mime_type@, text@),
{
    let item = Json::Object(vec![entry("uri", json_text(uri)), entry("mimeType", json_text(mime_type)), entry("text", json_text(text))]);
    Json::Object(vec![entry("contents", Json::Array(vec![item]))])
}

/// The answer to `prompts/get`: the prompt's description and one user
/// message.
fn prompt_result(kind: PromptKind, task: &str) -> (r: Json)
    ensures
        prompt_result_of(r, kind, task@),
{
    let content = Json::Object(vec![entry("type", json_text(String::from_str("text"))), entry("text", json_text(prompt_message(kind, task)))]);
    let message = Json::Object(vec![entry("role", json_text(String::from_str("user"))), entry("content", content)]);
    Json::Object(vec![entry("description", json_text(prompt_description_text(kind))), entry("messages", Json::Array(vec![message]))])
}

/// The JSON text of the fixed answers.
pub open spec fn static_text(reply: ReplyV) -> Seq<char> {
    match reply {
        ReplyV::Initialize => INITIALIZE_RESULT_JSON@,
        ReplyV::ToolsList => TOOLS_LIST_RESULT_JSON@,
        ReplyV::ResourcesList => RESOURCES_LIST_RESULT_JSON@,
        _ => PROMPTS_LIST_RESULT_JSON@,
    }
}

/// The `result` of a success reply (`null` for anything else).
pub open spec fn envelope_result(r: Json) -> Json {
    value_at(r, 2)
}

/// The JSON a reply is written as, under the request's id: a fixed answer
/// is its JSON text parsed, or an internal error with the parser's
/// complaint when that text is not JSON; the pack guide is its resource
/// contents; a prompt its prompt result; an error reply the error.
pub open spec fn reply_json_of(r: Json, id: Json, reply: ReplyV) -> bool {
    match reply {
        ReplyV::Error(code, message) => error_envelope_of(r, id, code, message),
        ReplyV::PackGuide(uri) => result_envelope_of(r, id, envelope_result(r)) && contents_of(
            envelope_result(r),
            uri,
            "text/markdown"@,
            crate::mcp::pack_guide(),
        ),
        ReplyV::Prompt(kind, task) => result_envelope_of(r, id, envelope_result(r)) && prompt_result_of(
            envelope_result(r),
            kind,
            task,
        ),
        _ => match json_parse(static_text(reply)) {
            Ok(v) => result_envelope_of(r, id, v),
            Err(m) => error_envelope_of(r, id, INTERNAL_ERROR, m),
        },
    }
}

/// The JSON a reply is written as, under the request's id. A fixed answer
/// whose text does not parse is written as an internal error.
pub fn reply_json(id: Json, reply: &Reply) -> (r: Json)
    ensures
        reply_json_of(r, id, reply@),
{
    let fixed = match reply {
        Reply::Initialize => Some(INITIALIZE_RESULT_JSON),
        Reply::ToolsList => Some(TOOLS_LIST_RESULT_JSON),
        Reply::ResourcesList => Some(RESOURCES_LIST_RESULT_JSON),
        Reply::PromptsList => Some(PROMPTS_LIST_RESULT_JSON),
        _ => None,
    };
    match fixed {
        Some(text) => {
            assert(text@ == static_text(reply@));
            match parse_json(text) {
                Ok(v) => result_envelope(id, v),
                Err(m) => error_envelope(id, INTERNAL_ERROR, m),
            }
        },
        None => match reply {
            Reply::Error { code, message } => error_envelope(id, *code, message.clone()),
            Reply::PackGuide { uri } => {
                let guide = pack_guide_markdown();
                result_envelope(id, resource_contents(uri.clone(), guide.mime_type, guide.text))
            },
            Reply::Prompt { kind, task } => result_envelope(id, prompt_result(*kind, task.as_str())),
            _ => Json::Null,
        },
    }
}

/// The reply to a read of a session pack resource under the request's id:
/// the stored media type and text as resource contents, or, when this
/// session holds no resource at `uri`, an invalid-params error saying that
/// pack resources are session-scoped.
pub fn pack_resource_reply(cache: &crate::mcp::PackResourceCache, id: Json, uri: &str) -> (r: Json)
    ensures
        match crate::mcp::lookup(cache.entries_view(), uri@) {
            Some(v) => result_envelope_of(r, id, envelope_result(r)) && contents_of(
                envelope_result(r),
                uri@,
                v.0,
                v.1,
            ),
            None => error_envelope_of(r, id, INVALID_PARAMS, crate::mcp::missing_pack_text(uri@)),
        },
{
    match crate::mcp::read_pack_resource(cache, uri) {
        Ok(found) => result_envelope(id, resource_contents(String::from_str(uri), found.mime_type, found.text)),
        Err(message) => error_envelope(id, INVALID_PARAMS, message),
    }
}

/// What comes of one request line: a reply to write, nothing, or work the
/// host performs before it replies to `id`.
pub enum LineOutcome {
    Reply { reply: Reply, json: Json },
    Silent,
    Work { work: Work, id: Json, params: Json },
}

impl LineOutcome {
    /// The decision the outcome carries out.
    pub open spec fn decision(&self) -> DecisionV {
        match self {
            LineOutcome::Reply { reply, .. } => DecisionV::Reply(reply@),
            LineOutcome::Silent => DecisionV::Silent,
            LineOutcome::Work { work, .. } => DecisionV::Work(work@),
        }
    }

    /// The JSON to write, when the outcome is a reply.
    pub fn reply(self) -> (r: Option<Json>)
        ensures
            match self {
                LineOutcome::Reply { json, .. } => r == Some(json),
                _ => r is None,
            },
    {
        match self {
            LineOutcome::Reply { json, .. } => Some(json),
            _ => None,
        }
    }
}

/// Whether a decision is the answer to a line that is not JSON.
pub open spec fn is_parse_error(d: DecisionV) -> bool {
    d matches DecisionV::Reply(ReplyV::Error(code, _)) && code == PARSE_ERROR
}

/// The id a line's reply goes to: the request's `id` (`null` when it has
/// none), and `null` for a line that is not JSON.
pub open spec fn line_id(line: Seq<char>) -> Json {
    match json_parse(line) {
        Ok(v) => member_or_null(v, "id"@),
        Err(_) => Json::Null,
    }
}

/// Handles one request line: a parse error for a line that is not JSON,
/// else the decision for the request read from it. A reply is written
/// under the line's id; work carries the request's id and `params`.
pub fn handle_line(line: &str) -> (r: LineOutcome)
    ensures
        json_syntax_error(line@) matches Some(m) ==> r.decision() == error_reply(
            PARSE_ERROR,
            "parse error: "@ + m,
        ),
        json_syntax_error(line@) is None ==> r.decision() == decide(request_of(json_value(line@))),
        r matches LineOutcome::Reply { reply, json } ==> reply_json_of(json, line_id(line@), reply@),
        r matches LineOutcome::Work { id, params, .. } ==> id == line_id(line@) && params
            == member_or_null(json_value(line@), "params"@),
{
    match parse_json(line) {
        Err(m) => {
            let reply = Reply::Error { code: PARSE_ERROR, message: joined("parse error: ", m.as_str()) };
            let json = reply_json(Json::Null, &reply);
            LineOutcome::Reply { reply, json }
        },
        Ok(value) => {
            let request = read_request(&value);
            let d = decide_request(&request);
            proof {
                reveal_strlit("id");
                reveal_strlit("params");
                assert("id"@.len() != "params"@.len());
            }
            let (id, params) = take_members(value, "id", "params");
            match d {
                Decision::Silent => LineOutcome::Silent,
                Decision::Reply(reply) => {
                    let json = reply_json(id, &reply);
                    LineOutcome::Reply { reply, json }
                },
                Decision::Work(work) => LineOutcome::Work { work, id, params },
            }
        },
    }
}

// ---------------------------------------------------------------------
// Laws
// ---------------------------------------------------------------------
/// A tool call reaches a tool exactly when it names one of the implemented
/// tools.
pub proof fn lemma_tool_surface(n: Seq<char>)
    ensures
        tool_of(n) is Some <==> exists|i: int|
            0 <= i < 6 && (#[trigger] IMPLEMENTED_MCP_TOOL_NAMES@[i])@ == n,
{
}

/// A request gets no answer exactly when it is a notification (it has no
/// id); every other request gets a reply or work.
pub proof fn lemma_only_notifications_are_silent(q: RequestView)
    ensures
        decide(q) is Silent <==> !q.has_id,
{
}

/// No request that parsed is answered with a parse error.
pub proof fn lemma_decide_no_parse_error(q: RequestView)
    ensures
        !is_parse_error(decide(q)),
{
}

/// How a tool call is routed: without a `name` it is refused as invalid
/// params; a `name` that is not a string goes to the host's typed reading;
/// a name the server does not offer is refused as not implemented (the
/// offered names are exactly the implemented tools, `lemma_tool_surface`);
/// an offered tool is refused with its argument complaint, if any, and
/// otherwise becomes work for that tool.
pub proof fn lemma_tool_calls_route_by_name(q: RequestView)
    requires
        q.has_id,
        q.method matches Some(m) && m@ == "tools/call"@,
        q.params_object,
    ensures
        q.name is None ==> decide(q) == error_reply(
            INVALID_PARAMS,
            "invalid tools/call params: missing field `name`"@,
        ),
        q.name matches Some(s) && !(s is Text) ==> decide(q) == DecisionV::Work(WorkV::ToolParams),
        q.name matches Some(JsonShape::Text(n)) ==> (tool_of(n@) is None ==> decide(q) == error_reply(
            INVALID_PARAMS,
            "tool is not implemented: "@ + n@,
        )),
        q.name matches Some(JsonShape::Text(n)) ==> (tool_of(n@) matches Some(t) ==> decide(q) == match tool_argument_error(t, q) {
            Some(m) => error_reply(INVALID_PARAMS, m),
            None => DecisionV::Work(WorkV::Tool(t)),
        }),
{
    reveal_strlit("initialize");
    reveal_strlit("tools/list");
    reveal_strlit("tools/call");
    assert("tools/call"@[0] != "initialize"@[0]);
    assert("tools/call"@[6] != "tools/list"@[6]);
    assert(method_of("tools/call"@) == Method::ToolsCall);
}

} // verus!

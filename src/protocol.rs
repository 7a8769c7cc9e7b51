//! Method dispatch: every request is answered with exactly one response that
//! carries the request's identifier.
use crate::json::{find_key, get_member, has_key, lookup, first_key, JsonValue};
use crate::tools::{finish_call, not_found_message, McpTool, RegistryError, ToolOutcome, ToolRegistry};
use crate::types::{
    json_of_opt, json_of_opt_bool, json_of_opt_object, json_of_opt_str, members, member_is, obj1, obj2, obj3, obj4, obj5, opt_bool_json,
    opt_json, opt_object_json, opt_str_json, CallToolResponse, Content, McpError, McpRequest,
    McpResponse, RequestId, Resource, ServerCapabilities, ServerInfo, Tool, INTERNAL_ERROR,
    INVALID_PARAMS, INVALID_REQUEST, METHOD_NOT_FOUND,
};
use vstd::prelude::*;

verus! {

/// The one protocol version this server speaks.
pub open spec fn supported_version() -> Seq<char> {
    "2024-11-05"@
}

pub open spec fn str_is(v: JsonValue, s: Seq<char>) -> bool {
    v matches JsonValue::Str(x) && x@ == s
}

pub open spec fn empty_object(v: JsonValue) -> bool {
    v is Object && members(v).len() == 0
}

/// Whether member `i` of `v` has key `k`.
pub open spec fn key_at(v: JsonValue, i: int, k: Seq<char>) -> bool {
    members(v)[i].0@ == k
}

pub open spec fn field(v: JsonValue, i: int) -> JsonValue {
    members(v)[i].1
}

pub open spec fn tool_json_ok(v: JsonValue, t: Tool) -> bool {
    &&& v is Object
    &&& members(v).len() == 5
    &&& member_is(v, 0, "name"@, JsonValue::Str(t.name))
    &&& member_is(v, 1, "description"@, JsonValue::Str(t.description))
    &&& member_is(v, 2, "input_schema"@, t.input_schema)
    &&& member_is(v, 3, "output_schema"@, opt_json(t.output_schema))
    &&& member_is(v, 4, "metadata"@, opt_object_json(t.metadata))
}

pub open spec fn resource_json_ok(v: JsonValue, r: Resource) -> bool {
    &&& v is Object
    &&& members(v).len() == 5
    &&& member_is(v, 0, "uri"@, JsonValue::Str(r.uri))
    &&& member_is(v, 1, "name"@, JsonValue::Str(r.name))
    &&& member_is(v, 2, "description"@, opt_str_json(r.description))
    &&& member_is(v, 3, "mime_type"@, opt_str_json(r.mime_type))
    &&& member_is(v, 4, "metadata"@, opt_object_json(r.metadata))
}

/// A content block is an object tagged by its `type` member.
pub open spec fn content_json_ok(v: JsonValue, c: Content) -> bool {
    &&& v is Object
    &&& key_at(v, 0, "type"@)
    &&& match c {
        Content::Text { text } => {
            &&& members(v).len() == 2
            &&& str_is(field(v, 0), "text"@)
            &&& member_is(v, 1, "text"@, JsonValue::Str(text))
        },
        Content::Image { data, mime_type } => {
            &&& members(v).len() == 3
            &&& str_is(field(v, 0), "image"@)
            &&& member_is(v, 1, "data"@, JsonValue::Str(data))
            &&& member_is(v, 2, "mime_type"@, JsonValue::Str(mime_type))
        },
        Content::Resource { resource, text } => {
            &&& members(v).len() == 3
            &&& str_is(field(v, 0), "resource"@)
            &&& key_at(v, 1, "resource"@)
            &&& resource_json_ok(field(v, 1), resource)
            &&& member_is(v, 2, "text"@, opt_str_json(text))
        },
    }
}

pub open spec fn items(v: JsonValue) -> Seq<JsonValue> {
    match v {
        JsonValue::Array(a) => a@,
        _ => Seq::empty(),
    }
}

pub open spec fn contents_json_ok(v: JsonValue, cs: Seq<Content>) -> bool {
    &&& v is Array
    &&& items(v).len() == cs.len()
    &&& forall|i: int| 0 <= i < cs.len() ==> content_json_ok(#[trigger] items(v)[i], cs[i])
}

pub open spec fn call_json_ok(v: JsonValue, c: CallToolResponse) -> bool {
    &&& v is Object
    &&& members(v).len() == 2
    &&& key_at(v, 0, "content"@)
    &&& contents_json_ok(field(v, 0), c.content@)
    &&& member_is(v, 1, "is_progress"@, opt_bool_json(c.is_progress))
}

pub open spec fn caps_json_ok(v: JsonValue, c: ServerCapabilities) -> bool {
    &&& v is Object
    &&& members(v).len() == 4
    &&& key_at(v, 0, "tools"@)
    &&& key_at(v, 1, "resources"@)
    &&& key_at(v, 2, "prompts"@)
    &&& key_at(v, 3, "logging"@)
    &&& match c.tools {
        None => field(v, 0) is Null,
        Some(t) => field(v, 0) is Object && members(field(v, 0)).len() == 1 && member_is(
            field(v, 0),
            0,
            "list_changed"@,
            opt_bool_json(t.list_changed),
        ),
    }
    &&& match c.resources {
        None => field(v, 1) is Null,
        Some(r) => field(v, 1) is Object && members(field(v, 1)).len() == 2 && member_is(
            field(v, 1),
            0,
            "subscribe"@,
            opt_bool_json(r.subscribe),
        ) && member_is(field(v, 1), 1, "list_changed"@, opt_bool_json(r.list_changed)),
    }
    &&& match c.prompts {
        None => field(v, 2) is Null,
        Some(p) => field(v, 2) is Object && members(field(v, 2)).len() == 1 && member_is(
            field(v, 2),
            0,
            "list_changed"@,
            opt_bool_json(p.list_changed),
        ),
    }
    &&& match c.logging {
        None => field(v, 3) is Null,
        Some(l) => field(v, 3) is Object && members(field(v, 3)).len() == 1 && member_is(
            field(v, 3),
            0,
            "level"@,
            opt_str_json(l.level),
        ),
    }
}

pub open spec fn extra_json_ok(v: JsonValue, e: Option<Vec<(String, String)>>) -> bool {
    match e {
        None => v is Null,
        Some(x) => v is Object && members(v).len() == x@.len() && forall|j: int|
            0 <= j < x@.len() ==> #[trigger] members(v)[j] == (x@[j].0, JsonValue::Str(x@[j].1)),
    }
}

pub open spec fn server_info_json_ok(v: JsonValue, i: ServerInfo) -> bool {
    &&& v is Object
    &&& members(v).len() == 5
    &&& member_is(v, 0, "name"@, JsonValue::Str(i.name))
    &&& member_is(v, 1, "version"@, JsonValue::Str(i.version))
    &&& member_is(v, 2, "protocol_version"@, JsonValue::Str(i.protocol_version))
    &&& key_at(v, 3, "capabilities"@)
    &&& caps_json_ok(field(v, 3), i.capabilities)
    &&& key_at(v, 4, "server_info"@)
    &&& extra_json_ok(field(v, 4), i.server_info)
}

/// The answer to `initialize`: the supported version, the capabilities and
/// the server's description.
pub open spec fn init_json_ok(v: JsonValue, i: ServerInfo) -> bool {
    &&& v is Object
    &&& members(v).len() == 3
    &&& key_at(v, 0, "protocol_version"@)
    &&& str_is(field(v, 0), supported_version())
    &&& key_at(v, 1, "capabilities"@)
    &&& caps_json_ok(field(v, 1), i.capabilities)
    &&& key_at(v, 2, "server_info"@)
    &&& server_info_json_ok(field(v, 2), i)
}

fn key_str(k: &str) -> (r: String)
    ensures
        r@ == k@,
{
    k.to_string()
}

fn clone_opt_str(o: &Option<String>) -> (r: Option<String>)
    ensures
        r == *o,
{
    match o {
        Some(s) => Some(s.clone()),
        None => None,
    }
}

impl Tool {
    /// The wire form of the description.
    pub fn into_json(self) -> (r: JsonValue)
        ensures
            tool_json_ok(r, self),
    {
        obj5(
            "name",
            JsonValue::Str(self.name),
            "description",
            JsonValue::Str(self.description),
            "input_schema",
            self.input_schema,
            "output_schema",
            json_of_opt(self.output_schema),
            "metadata",
            json_of_opt_object(self.metadata),
        )
    }
}

impl Resource {
    pub fn into_json(self) -> (r: JsonValue)
        ensures
            resource_json_ok(r, self),
    {
        obj5(
            "uri",
            JsonValue::Str(self.uri),
            "name",
            JsonValue::Str(self.name),
            "description",
            json_of_opt_str(self.description),
            "mime_type",
            json_of_opt_str(self.mime_type),
            "metadata",
            json_of_opt_object(self.metadata),
        )
    }
}

impl Content {
    pub fn into_json(self) -> (r: JsonValue)
        ensures
            content_json_ok(r, self),
    {
        match self {
            Content::Text { text } => obj2(
                "type",
                JsonValue::Str(key_str("text")),
                "text",
                JsonValue::Str(text),
            ),
            Content::Image { data, mime_type } => obj3(
                "type",
                JsonValue::Str(key_str("image")),
                "data",
                JsonValue::Str(data),
                "mime_type",
                JsonValue::Str(mime_type),
            ),
            Content::Resource { resource, text } => obj3(
                "type",
                JsonValue::Str(key_str("resource")),
                "resource",
                resource.into_json(),
                "text",
                json_of_opt_str(text),
            ),
        }
    }
}

/// Encodes content blocks, keeping their order.
pub fn contents_json(cs: Vec<Content>) -> (r: JsonValue)
    ensures
        contents_json_ok(r, cs@),
{
    let ghost g = cs@;
    let n = cs.len();
    let mut cs = cs;
    let mut rev: Vec<JsonValue> = Vec::new();
    while cs.len() > 0
        invariant
            cs@.len() + rev@.len() == n,
            g.len() == n,
            cs@ == g.subrange(0, cs@.len() as int),
            forall|j: int| 0 <= j < rev@.len() ==> content_json_ok(#[trigger] rev@[j], g[n - 1 - j]),
        decreases cs@.len(),
    {
        let c = cs.pop().unwrap();
        rev.push(c.into_json());
    }
    let mut out: Vec<JsonValue> = Vec::new();
    while rev.len() > 0
        invariant
            out@.len() + rev@.len() == n,
            g.len() == n,
            forall|j: int| 0 <= j < rev@.len() ==> content_json_ok(#[trigger] rev@[j], g[n - 1 - j]),
            forall|j: int| 0 <= j < out@.len() ==> content_json_ok(#[trigger] out@[j], g[j]),
        decreases rev@.len(),
    {
        let v = rev.pop().unwrap();
        out.push(v);
    }
    JsonValue::Array(out)
}

impl CallToolResponse {
    pub fn into_json(self) -> (r: JsonValue)
        ensures
            call_json_ok(r, self),
    {
        obj2(
            "content",
            contents_json(self.content),
            "is_progress",
            json_of_opt_bool(self.is_progress),
        )
    }
}

impl ServerCapabilities {
    pub fn to_json(&self) -> (r: JsonValue)
        ensures
            caps_json_ok(r, *self),
    {
        let tools = match self.tools {
            None => JsonValue::Null,
            Some(t) => obj1("list_changed", json_of_opt_bool(t.list_changed)),
        };
        let resources = match self.resources {
            None => JsonValue::Null,
            Some(r) => obj2(
                "subscribe",
                json_of_opt_bool(r.subscribe),
                "list_changed",
                json_of_opt_bool(r.list_changed),
            ),
        };
        let prompts = match self.prompts {
            None => JsonValue::Null,
            Some(p) => obj1("list_changed", json_of_opt_bool(p.list_changed)),
        };
        let logging = match &self.logging {
            None => JsonValue::Null,
            Some(l) => obj1("level", json_of_opt_str(clone_opt_str(&l.level))),
        };
        obj4("tools", tools, "resources", resources, "prompts", prompts, "logging", logging)
    }
}

fn extra_json(e: &Option<Vec<(String, String)>>) -> (r: JsonValue)
    ensures
        extra_json_ok(r, *e),
{
    match e {
        None => JsonValue::Null,
        Some(x) => {
            let mut m: Vec<(String, JsonValue)> = Vec::new();
            let mut i: usize = 0;
            while i < x.len()
                invariant
                    i <= x@.len(),
                    m@.len() == i,
                    forall|j: int|
                        0 <= j < i ==> #[trigger] m@[j] == (x@[j].0, JsonValue::Str(x@[j].1)),
                decreases x@.len() - i,
            {
                m.push((x[i].0.clone(), JsonValue::Str(x[i].1.clone())));
                i = i + 1;
            }
            JsonValue::Object(m)
        },
    }
}

impl ServerInfo {
    /// The description this server gives of itself, for a given build version.
    pub fn standard(version: String) -> (r: ServerInfo)
        ensures
            r.name@ == "Loco MCP Server"@,
            r.version == version,
            r.protocol_version@ == supported_version(),
            r.capabilities.tools == Some(crate::types::ToolCapabilities { list_changed: Some(false) }),
            r.capabilities.resources == Some(
                crate::types::ResourceCapabilities { subscribe: Some(false), list_changed: Some(false) },
            ),
            r.capabilities.prompts == Some(crate::types::PromptCapabilities { list_changed: Some(false) }),
            r.capabilities.logging is Some,
            r.capabilities.logging.unwrap().level is Some,
            r.capabilities.logging.unwrap().level.unwrap()@ == "info"@,
            r.server_info is Some,
            r.server_info.unwrap()@.len() == 2,
            r.server_info.unwrap()@[0].0@ == "framework"@,
            r.server_info.unwrap()@[0].1@ == "Loco"@,
            r.server_info.unwrap()@[1].0@ == "version"@,
            r.server_info.unwrap()@[1].1@ == version@,
    {
        let mut extra: Vec<(String, String)> = Vec::new();
        extra.push(("framework".to_string(), "Loco".to_string()));
        extra.push(("version".to_string(), version.clone()));
        ServerInfo {
            name: "Loco MCP Server".to_string(),
            version,
            protocol_version: "2024-11-05".to_string(),
            capabilities: ServerCapabilities {
                tools: Some(crate::types::ToolCapabilities { list_changed: Some(false) }),
                resources: Some(
                    crate::types::ResourceCapabilities {
                        subscribe: Some(false),
                        list_changed: Some(false),
                    },
                ),
                prompts: Some(crate::types::PromptCapabilities { list_changed: Some(false) }),
                logging: Some(crate::types::LoggingCapabilities { level: Some("info".to_string()) }),
            },
            server_info: Some(extra),
        }
    }

    pub fn to_json(&self) -> (r: JsonValue)
        ensures
            server_info_json_ok(r, *self),
    {
        obj5(
            "name",
            JsonValue::Str(self.name.clone()),
            "version",
            JsonValue::Str(self.version.clone()),
            "protocol_version",
            JsonValue::Str(self.protocol_version.clone()),
            "capabilities",
            self.capabilities.to_json(),
            "server_info",
            extra_json(&self.server_info),
        )
    }
}


// Reading request parameters.

pub open spec fn opt_member(v: JsonValue, k: Seq<char>) -> Option<JsonValue> {
    lookup(members(v), k)
}

pub open spec fn str_member(v: JsonValue, k: Seq<char>) -> bool {
    opt_member(v, k) is Some && opt_member(v, k).unwrap() is Str
}

/// An optional member that may be absent, null, or of the given shape.
pub open spec fn absent_null_or_object(v: JsonValue, k: Seq<char>) -> bool {
    opt_member(v, k) is Some ==> (opt_member(v, k).unwrap() is Null || opt_member(v, k).unwrap() is Object)
}

/// `initialize` takes a protocol version, the client's capabilities and
/// the client's name and version.
pub open spec fn init_params_ok(p: Option<JsonValue>) -> bool {
    &&& p is Some
    &&& p.unwrap() is Object
    &&& str_member(p.unwrap(), "protocol_version"@)
    &&& opt_member(p.unwrap(), "capabilities"@) is Some
    &&& opt_member(p.unwrap(), "capabilities"@).unwrap() is Object
    &&& absent_null_or_object(opt_member(p.unwrap(), "capabilities"@).unwrap(), "experimental"@)
    &&& opt_member(p.unwrap(), "client_info"@) is Some
    &&& opt_member(p.unwrap(), "client_info"@).unwrap() is Object
    &&& str_member(opt_member(p.unwrap(), "client_info"@).unwrap(), "name"@)
    &&& str_member(opt_member(p.unwrap(), "client_info"@).unwrap(), "version"@)
}

pub open spec fn init_version(p: Option<JsonValue>) -> Seq<char> {
    opt_member(p.unwrap(), "protocol_version"@).unwrap()->Str_0@
}

/// `tools/call` takes a tool name and optional arguments.
pub open spec fn call_params_ok(p: Option<JsonValue>) -> bool {
    &&& p is Some
    &&& p.unwrap() is Object
    &&& str_member(p.unwrap(), "name"@)
    &&& absent_null_or_object(p.unwrap(), "arguments"@)
}

pub open spec fn call_name(p: Option<JsonValue>) -> Seq<char> {
    opt_member(p.unwrap(), "name"@).unwrap()->Str_0@
}

pub open spec fn call_args(p: Option<JsonValue>) -> Seq<(String, JsonValue)> {
    match opt_member(p.unwrap(), "arguments"@) {
        Some(JsonValue::Object(a)) => a@,
        _ => Seq::empty(),
    }
}

/// The listing methods take nothing, or an object with an optional cursor.
pub open spec fn list_params_ok(p: Option<JsonValue>) -> bool {
    p is Some ==> {
        &&& p.unwrap() is Object
        &&& opt_member(p.unwrap(), "cursor"@) is Some ==> (opt_member(p.unwrap(), "cursor"@).unwrap() is Null
            || opt_member(p.unwrap(), "cursor"@).unwrap() is Str)
    }
}

fn member_of<'a>(v: &'a JsonValue, k: &str) -> (r: Option<&'a JsonValue>)
    ensures
        match r {
            Some(x) => opt_member(*v, k@) == Some(*x),
            None => opt_member(*v, k@) is None,
        },
{
    match v {
        JsonValue::Object(m) => get_member(m, k),
        _ => {
            proof {
                crate::json::lemma_has_key_exists(members(*v), k@);
            }
            None
        },
    }
}

fn has_str_member(v: &JsonValue, k: &str) -> (r: bool)
    ensures
        r == str_member(*v, k@),
{
    match member_of(v, k) {
        Some(x) => x.is_string(),
        None => false,
    }
}

fn null_or_object_member(v: &JsonValue, k: &str) -> (r: bool)
    ensures
        r == absent_null_or_object(*v, k@),
{
    match member_of(v, k) {
        Some(JsonValue::Null) => true,
        Some(JsonValue::Object(_)) => true,
        Some(_) => false,
        None => true,
    }
}

fn concat(a: &str, b: &str) -> (r: String)
    ensures
        r@ == a@ + b@,
{
    let mut s = a.to_string();
    s.append(b);
    s
}

/// Checks the parameters of `initialize` and gives the requested version.
pub fn check_initialize(params: &Option<JsonValue>) -> (r: Result<String, String>)
    ensures
        r is Ok <==> init_params_ok(*params),
        r is Ok ==> r->Ok_0@ == init_version(*params),
{
    let p = match params {
        None => return Err("Missing parameters".to_string()),
        Some(p) => p,
    };
    if !p.is_object() {
        return Err("expected an object".to_string());
    }
    let version = match member_of(p, "protocol_version") {
        Some(JsonValue::Str(v)) => v.clone(),
        _ => return Err("missing or invalid field `protocol_version`".to_string()),
    };
    match member_of(p, "capabilities") {
        Some(c) => {
            if !c.is_object() || !null_or_object_member(c, "experimental") {
                return Err("invalid field `capabilities`".to_string());
            }
        },
        None => return Err("missing field `capabilities`".to_string()),
    }
    match member_of(p, "client_info") {
        Some(ci) => {
            if !ci.is_object() || !has_str_member(ci, "name") || !has_str_member(ci, "version") {
                return Err("invalid field `client_info`".to_string());
            }
        },
        None => return Err("missing field `client_info`".to_string()),
    }
    Ok(version)
}

/// Splits the parameters of `tools/call` into the tool name and its arguments.
pub fn parse_call(params: Option<JsonValue>) -> (r: Result<(String, Vec<(String, JsonValue)>), String>)
    ensures
        r is Ok <==> call_params_ok(params),
        r is Ok ==> r->Ok_0.0@ == call_name(params) && r->Ok_0.1@ == call_args(params),
{
    let ghost p0 = params;
    let mut m = match params {
        Some(JsonValue::Object(m)) => m,
        _ => return Err("expected an object with a `name`".to_string()),
    };
    let name = match get_member(&m, "name") {
        Some(JsonValue::Str(s)) => s.clone(),
        _ => return Err("missing or invalid field `name`".to_string()),
    };
    match find_key(&m, "arguments") {
        None => Ok((name, Vec::new())),
        Some(i) => {
            let (_, v) = m.remove(i);
            match v {
                JsonValue::Null => Ok((name, Vec::new())),
                JsonValue::Object(a) => Ok((name, a)),
                _ => Err("invalid field `arguments`".to_string()),
            }
        },
    }
}

/// Checks the parameters of a listing method.
pub fn check_list_params(params: &Option<JsonValue>) -> (r: Result<(), String>)
    ensures
        r is Ok <==> list_params_ok(*params),
{
    match params {
        None => Ok(()),
        Some(p) => {
            if !p.is_object() {
                return Err("expected an object".to_string());
            }
            match member_of(p, "cursor") {
                None => Ok(()),
                Some(JsonValue::Null) => Ok(()),
                Some(JsonValue::Str(_)) => Ok(()),
                Some(_) => Err("invalid field `cursor`".to_string()),
            }
        },
    }
}


// Dispatch.

/// What the handler decided for a request: an immediate response, or a tool
/// run whose end is turned into the response by `finish_tool_call`.
#[derive(Debug)]
pub enum Dispatch {
    Respond(McpResponse),
    Execute { id: RequestId, name: String, args: Vec<(String, JsonValue)>, timeout_secs: u64 },
}

pub open spec fn response_of(d: Dispatch) -> McpResponse {
    d->Respond_0
}

pub open spec fn result_of(d: Dispatch) -> JsonValue {
    d->Respond_0.result.unwrap()
}

pub open spec fn responds_ok(d: Dispatch) -> bool {
    d is Respond && response_of(d).result is Some
}

pub open spec fn responds_error(d: Dispatch, code: i32) -> bool {
    d is Respond && response_of(d).error is Some && response_of(d).error.unwrap().code == code
}

pub open spec fn responds_error_msg(d: Dispatch, code: i32, msg: Seq<char>) -> bool {
    responds_error(d, code) && response_of(d).error.unwrap().message@ == msg
}

pub open spec fn tool_failed_message(detail: Seq<char>) -> Seq<char> {
    "Tool execution failed: "@ + detail
}

/// `json` is the wire form of some description that `tool` gives of itself.
pub open spec fn lists<T: McpTool>(json: JsonValue, tool: T) -> bool {
    exists|t: Tool| tool.spec_def_ok(t) && #[trigger] tool_json_ok(json, t)
}

/// The `tools/list` result: every registered tool, in order, and no cursor.
pub open spec fn tools_list_ok<T: McpTool>(v: JsonValue, entries: Seq<(String, T)>) -> bool {
    &&& v is Object
    &&& members(v).len() == 2
    &&& key_at(v, 0, "tools"@)
    &&& field(v, 0) is Array
    &&& items(field(v, 0)).len() == entries.len()
    &&& forall|i: int| 0 <= i < entries.len() ==> lists(#[trigger] items(field(v, 0))[i], entries[i].1)
    &&& member_is(v, 1, "next_cursor"@, JsonValue::Null)
}

/// A listing result with no entries under `key`, and no cursor.
pub open spec fn empty_list_ok(v: JsonValue, key: Seq<char>) -> bool {
    &&& v is Object
    &&& members(v).len() == 2
    &&& key_at(v, 0, key)
    &&& field(v, 0) is Array
    &&& items(field(v, 0)).len() == 0
    &&& member_is(v, 1, "next_cursor"@, JsonValue::Null)
}

pub open spec fn tools_call_ok<T: McpTool>(
    entries: Seq<(String, T)>,
    p: Option<JsonValue>,
    d: Dispatch,
) -> bool {
    if !call_params_ok(p) {
        responds_error(d, INVALID_PARAMS)
    } else if !has_key(entries, call_name(p)) {
        responds_error_msg(d, INTERNAL_ERROR, tool_failed_message(not_found_message(call_name(p))))
    } else if !lookup(entries, call_name(p)).unwrap().spec_accepts(call_args(p)) {
        responds_error_msg(
            d,
            INVALID_PARAMS,
            lookup(entries, call_name(p)).unwrap().spec_rejection(call_args(p)),
        )
    } else {
        &&& d is Execute
        &&& d->Execute_name@ == call_name(p)
        &&& d->Execute_args@ == call_args(p)
        &&& d->Execute_timeout_secs == lookup(entries, call_name(p)).unwrap().spec_timeout()
    }
}

/// The answer for each way a tool's run can end.
pub open spec fn tool_response_ok(r: McpResponse, name: Seq<char>, secs: u64, outcome: ToolOutcome) -> bool {
    match outcome {
        ToolOutcome::Completed(Ok(c)) => r.error is None && r.result is Some && call_json_ok(
            r.result.unwrap(),
            c,
        ),
        ToolOutcome::Completed(Err(m)) => r.error is Some && r.error.unwrap().code == INTERNAL_ERROR
            && r.error.unwrap().message@ == tool_failed_message(
            crate::tools::failure_message(name, m@),
        ),
        ToolOutcome::TimedOut => r.error is Some && r.error.unwrap().code == INTERNAL_ERROR
            && r.error.unwrap().message@ == tool_failed_message(
            crate::tools::timeout_message(name, secs),
        ),
    }
}

/// Maps the registry's answer to a response: a result, invalid parameters,
/// or an internal error that describes the failure.
pub fn registry_response(id: RequestId, res: Result<CallToolResponse, RegistryError>) -> (r: McpResponse)
    ensures
        r.id == id,
        r.wf(),
        match res {
            Ok(c) => r.error is None && call_json_ok(r.result.unwrap(), c),
            Err(RegistryError::InvalidParams { message }) => r.error is Some && r.error.unwrap().code
                == INVALID_PARAMS && r.error.unwrap().message == message,
            Err(e) => r.error is Some && r.error.unwrap().code == INTERNAL_ERROR
                && r.error.unwrap().message@ == tool_failed_message(e.spec_message()),
        },
{
    match res {
        Ok(c) => McpResponse::success(id, c.into_json()),
        Err(RegistryError::InvalidParams { message }) => McpResponse::error(
            id,
            McpError::invalid_params(message),
        ),
        Err(e) => {
            let msg = e.message();
            McpResponse::error(id, McpError::internal_error(concat("Tool execution failed: ", msg.as_str())))
        },
    }
}

/// The response to a tool call, once the tool's run has ended.
pub fn finish_tool_call(id: RequestId, name: &str, timeout_secs: u64, outcome: ToolOutcome) -> (r:
    McpResponse)
    ensures
        r.id == id,
        r.wf(),
        tool_response_ok(r, name@, timeout_secs, outcome),
{
    let res = finish_call(name, timeout_secs, outcome);
    registry_response(id, res)
}

fn method_is(m: &String, lit: &str) -> (r: bool)
    ensures
        r == (m@ == lit@),
{
    *m == lit.to_string()
}

/// Serves requests against a set of tools and the server's own description.
pub struct ProtocolHandler<T> {
    pub server_info: ServerInfo,
    pub registry: ToolRegistry<T>,
}

impl<T: McpTool> ProtocolHandler<T> {
    pub fn new(server_info: ServerInfo, registry: ToolRegistry<T>) -> (r: Self)
        ensures
            r.server_info == server_info,
            r.registry == registry,
    {
        ProtocolHandler { server_info, registry }
    }

    /// What `dispatch` decides for `req`, by method.
    pub open spec fn dispatch_ok(&self, req: McpRequest, d: Dispatch) -> bool {
        let m = req.method@;
        let p = req.params;
        &&& d is Respond ==> response_of(d).wf() && response_of(d).id == req.id
        &&& d is Execute ==> d->Execute_id == req.id
        &&& if m == "initialize"@ {
            if !init_params_ok(p) {
                responds_error(d, INVALID_PARAMS)
            } else if init_version(p) != supported_version() {
                responds_error_msg(d, INVALID_REQUEST, "Unsupported protocol version"@)
            } else {
                responds_ok(d) && init_json_ok(result_of(d), self.server_info)
            }
        } else if m == "initialized"@ || m == "ping"@ {
            responds_ok(d) && empty_object(result_of(d))
        } else if m == "tools/list"@ {
            if !list_params_ok(p) {
                responds_error(d, INVALID_PARAMS)
            } else {
                responds_ok(d) && tools_list_ok(result_of(d), self.registry.entries())
            }
        } else if m == "tools/call"@ {
            tools_call_ok(self.registry.entries(), p, d)
        } else if m == "resources/list"@ || m == "prompts/list"@ {
            if !list_params_ok(p) {
                responds_error(d, INVALID_PARAMS)
            } else {
                responds_ok(d) && empty_list_ok(
                    result_of(d),
                    if m == "resources/list"@ {
                        "resources"@
                    } else {
                        "prompts"@
                    },
                )
            }
        } else if m == "resources/read"@ {
            responds_error_msg(d, METHOD_NOT_FOUND, "Resource reading not implemented"@)
        } else if m == "prompts/get"@ {
            responds_error_msg(d, METHOD_NOT_FOUND, "Prompt generation not implemented"@)
        } else {
            responds_error_msg(d, METHOD_NOT_FOUND, "Method '"@ + m + "' not found"@)
        }
    }

    /// Routes a request by its method name.
    pub fn dispatch(&self, req: McpRequest) -> (d: Dispatch)
        ensures
            self.dispatch_ok(req, d),
    {
        let McpRequest { id, method, params, meta: _ } = req;
        if method_is(&method, "initialize") {
            match check_initialize(&params) {
                Err(e) => Dispatch::Respond(
                    McpResponse::error(
                        id,
                        McpError::invalid_params(concat("Invalid initialize request: ", e.as_str())),
                    ),
                ),
                Ok(v) => {
                    if !method_is(&v, "2024-11-05") {
                        Dispatch::Respond(
                            McpResponse::error(
                                id,
                                McpError::invalid_request("Unsupported protocol version".to_string()),
                            ),
                        )
                    } else {
                        let caps = self.server_info.capabilities.to_json();
                        let info = self.server_info.to_json();
                        let body = obj3(
                            "protocol_version",
                            JsonValue::Str("2024-11-05".to_string()),
                            "capabilities",
                            caps,
                            "server_info",
                            info,
                        );
                        Dispatch::Respond(McpResponse::success(id, body))
                    }
                },
            }
        } else if method_is(&method, "initialized") || method_is(&method, "ping") {
            Dispatch::Respond(McpResponse::success(id, JsonValue::empty_object()))
        } else if method_is(&method, "tools/list") {
            match check_list_params(&params) {
                Err(e) => Dispatch::Respond(
                    McpResponse::error(
                        id,
                        McpError::invalid_params(concat("Invalid list tools request: ", e.as_str())),
                    ),
                ),
                Ok(()) => {
                    let defs = self.registry.list_tools();
                    let listed = tools_json(defs);
                    proof {
                        assert forall|i: int| 0 <= i < self.registry.entries().len() implies lists(
                            #[trigger] items(listed.0)[i],
                            self.registry.entries()[i].1,
                        ) by {
                            let t = listed.1@[i];
                            assert(self.registry.entries()[i].1.spec_def_ok(t));
                            assert(tool_json_ok(items(listed.0)[i], t));
                        }
                    }
                    let body = obj2("tools", listed.0, "next_cursor", JsonValue::Null);
                    Dispatch::Respond(McpResponse::success(id, body))
                },
            }
        } else if method_is(&method, "tools/call") {
            match parse_call(params) {
                Err(e) => Dispatch::Respond(
                    McpResponse::error(
                        id,
                        McpError::invalid_params(concat("Invalid call tool request: ", e.as_str())),
                    ),
                ),
                Ok((name, args)) => match self.registry.prepare_call(name.as_str(), &args) {
                    Err(e) => Dispatch::Respond(registry_response(id, Err(e))),
                    Ok(secs) => Dispatch::Execute { id, name, args, timeout_secs: secs },
                },
            }
        } else if method_is(&method, "resources/list") || method_is(&method, "prompts/list") {
            let is_resources = method_is(&method, "resources/list");
            match check_list_params(&params) {
                Err(e) => Dispatch::Respond(
                    McpResponse::error(id, McpError::invalid_params(concat("Invalid list request: ", e.as_str()))),
                ),
                Ok(()) => {
                    let key = if is_resources {
                        "resources"
                    } else {
                        "prompts"
                    };
                    let body = obj2(key, JsonValue::Array(Vec::new()), "next_cursor", JsonValue::Null);
                    Dispatch::Respond(McpResponse::success(id, body))
                },
            }
        } else if method_is(&method, "resources/read") {
            Dispatch::Respond(
                McpResponse::error(
                    id,
                    McpError::method_not_found("Resource reading not implemented".to_string()),
                ),
            )
        } else if method_is(&method, "prompts/get") {
            Dispatch::Respond(
                McpResponse::error(
                    id,
                    McpError::method_not_found("Prompt generation not implemented".to_string()),
                ),
            )
        } else {
            let mut msg = "Method '".to_string();
            msg.append(method.as_str());
            msg.append("' not found");
            Dispatch::Respond(McpResponse::error(id, McpError::method_not_found(msg)))
        }
    }

    /// Answers a request, running a called tool to completion in place.
    pub fn handle_request(&self, req: McpRequest) -> (r: McpResponse)
        ensures
            r.id == req.id,
            r.wf(),
            exists|d: Dispatch|
                #[trigger] self.dispatch_ok(req, d) && (d is Respond ==> r == response_of(d)) && (
                d is Execute ==> exists|res: Result<CallToolResponse, String>|
                    lookup(self.registry.entries(), d->Execute_name@).unwrap().spec_result(
                        d->Execute_args@,
                        res,
                    ) && #[trigger] tool_response_ok(
                        r,
                        d->Execute_name@,
                        d->Execute_timeout_secs,
                        ToolOutcome::Completed(res),
                    )),
    {
        let ghost req0 = req;
        let d = self.dispatch(req);
        let ghost d0 = d;
        match d {
            Dispatch::Respond(r) => r,
            Dispatch::Execute { id, name, args, timeout_secs } => {
                proof {
                    assert(has_key(self.registry.entries(), name@));
                }
                let res = self.registry.run(name.as_str(), &args);
                let ghost g = res;
                let r = finish_tool_call(id, name.as_str(), timeout_secs, ToolOutcome::Completed(res));
                proof {
                    assert(tool_response_ok(
                        r,
                        d0->Execute_name@,
                        d0->Execute_timeout_secs,
                        ToolOutcome::Completed(g),
                    ));
                }
                r
            },
        }
    }
}

/// Encodes tool descriptions, keeping their order; also gives back the
/// descriptions that were encoded, as a ghost.
fn tools_json(defs: Vec<Tool>) -> (r: (JsonValue, Ghost<Seq<Tool>>))
    ensures
        r.1@ == defs@,
        r.0 is Array,
        items(r.0).len() == defs@.len(),
        forall|i: int| 0 <= i < defs@.len() ==> tool_json_ok(#[trigger] items(r.0)[i], defs@[i]),
{
    let ghost g = defs@;
    let n = defs.len();
    let mut defs = defs;
    let mut rev: Vec<JsonValue> = Vec::new();
    while defs.len() > 0
        invariant
            defs@.len() + rev@.len() == n,
            g.len() == n,
            defs@ == g.subrange(0, defs@.len() as int),
            forall|j: int| 0 <= j < rev@.len() ==> tool_json_ok(#[trigger] rev@[j], g[n - 1 - j]),
        decreases defs@.len(),
    {
        let t = defs.pop().unwrap();
        rev.push(t.into_json());
    }
    let mut out: Vec<JsonValue> = Vec::new();
    while rev.len() > 0
        invariant
            out@.len() + rev@.len() == n,
            g.len() == n,
            forall|j: int| 0 <= j < rev@.len() ==> tool_json_ok(#[trigger] rev@[j], g[n - 1 - j]),
            forall|j: int| 0 <= j < out@.len() ==> tool_json_ok(#[trigger] out@[j], g[j]),
        decreases rev@.len(),
    {
        let v = rev.pop().unwrap();
        out.push(v);
    }
    (JsonValue::Array(out), Ghost(g))
}


/// `sub` occurs in `s` as a contiguous run.
pub open spec fn contains(s: Seq<char>, sub: Seq<char>) -> bool {
    exists|i: int| 0 <= i <= s.len() - sub.len() && #[trigger] s.subrange(i, i + sub.len()) == sub
}

/// Calling a tool that is not registered, with well-formed parameters, is
/// answered with an error whose message says "not found".
pub proof fn lemma_unknown_tool_call<T: McpTool>(h: &ProtocolHandler<T>, req: McpRequest, d: Dispatch)
    requires
        req.method@ == "tools/call"@,
        call_params_ok(req.params),
        !has_key(h.registry.entries(), call_name(req.params)),
        h.dispatch_ok(req, d),
    ensures
        d is Respond,
        response_of(d).id == req.id,
        response_of(d).error is Some,
        contains(response_of(d).error.unwrap().message@, "not found"@),
{
    reveal_strlit("tools/call");
    reveal_strlit("initialize");
    reveal_strlit("initialized");
    reveal_strlit("ping");
    reveal_strlit("tools/list");
    reveal_strlit("Tool execution failed: ");
    reveal_strlit("Tool '");
    reveal_strlit("' not found");
    reveal_strlit("not found");
    let m = req.method@;
    assert(m != "initialize"@) by {
        assert(m[0] != "initialize"@[0]);
    }
    assert(m != "initialized"@) by {
        assert(m.len() != "initialized"@.len());
    }
    assert(m != "ping"@) by {
        assert(m.len() != "ping"@.len());
    }
    assert(m != "tools/list"@) by {
        assert(m[6] != "tools/list"@[6]);
    }
    assert(tools_call_ok(h.registry.entries(), req.params, d));
    let s = tool_failed_message(not_found_message(call_name(req.params)));
    assert(responds_error_msg(d, INTERNAL_ERROR, s));
    let i = s.len() - 9;
    assert(s.subrange(i, i + 9) =~= "not found"@);
}

} // verus!

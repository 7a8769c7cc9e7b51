//! Wire-level envelopes of the protocol: requests, responses, errors, and
//! the descriptions of tools, resources and server capabilities.
use crate::json::JsonValue;
use vstd::prelude::*;

verus! {

pub const PARSE_ERROR: i32 = -32700;

pub const INVALID_REQUEST: i32 = -32600;

pub const METHOD_NOT_FOUND: i32 = -32601;

pub const INVALID_PARAMS: i32 = -32602;

pub const INTERNAL_ERROR: i32 = -32603;

pub open spec fn opt_json(o: Option<JsonValue>) -> JsonValue {
    match o {
        Some(v) => v,
        None => JsonValue::Null,
    }
}

pub open spec fn opt_str_json(o: Option<String>) -> JsonValue {
    match o {
        Some(s) => JsonValue::Str(s),
        None => JsonValue::Null,
    }
}

pub open spec fn opt_bool_json(o: Option<bool>) -> JsonValue {
    match o {
        Some(b) => JsonValue::Bool(b),
        None => JsonValue::Null,
    }
}

pub open spec fn opt_object_json(o: Option<Vec<(String, JsonValue)>>) -> JsonValue {
    match o {
        Some(m) => JsonValue::Object(m),
        None => JsonValue::Null,
    }
}

pub fn json_of_opt(o: Option<JsonValue>) -> (r: JsonValue)
    ensures
        r == opt_json(o),
{
    match o {
        Some(v) => v,
        None => JsonValue::Null,
    }
}

pub fn json_of_opt_str(o: Option<String>) -> (r: JsonValue)
    ensures
        r == opt_str_json(o),
{
    match o {
        Some(s) => JsonValue::Str(s),
        None => JsonValue::Null,
    }
}

pub fn json_of_opt_bool(o: Option<bool>) -> (r: JsonValue)
    ensures
        r == opt_bool_json(o),
{
    match o {
        Some(b) => JsonValue::Bool(b),
        None => JsonValue::Null,
    }
}

pub fn json_of_opt_object(o: Option<Vec<(String, JsonValue)>>) -> (r: JsonValue)
    ensures
        r == opt_object_json(o),
{
    match o {
        Some(m) => JsonValue::Object(m),
        None => JsonValue::Null,
    }
}

/// The members of `v`, when it is an object.
pub open spec fn members(v: JsonValue) -> Seq<(String, JsonValue)> {
    match v {
        JsonValue::Object(m) => m@,
        _ => Seq::empty(),
    }
}

/// Whether member `i` of `v` has key `k` and value `x`.
pub open spec fn member_is(v: JsonValue, i: int, k: Seq<char>, x: JsonValue) -> bool {
    members(v)[i].0@ == k && members(v)[i].1 == x
}

/// `v` is the JSON string `s`.
pub open spec fn str_json(v: JsonValue, s: Seq<char>) -> bool {
    v matches JsonValue::Str(x) && x@ == s
}

/// `v` is the JSON number written `s`.
pub open spec fn num_json(v: JsonValue, s: Seq<char>) -> bool {
    v matches JsonValue::Number(x) && x@ == s
}

/// The value of member `i` of `v`.
pub open spec fn member_value(v: JsonValue, i: int) -> JsonValue {
    members(v)[i].1
}

/// Whether member `i` of `v` has key `k`.
pub open spec fn member_key(v: JsonValue, i: int, k: Seq<char>) -> bool {
    members(v)[i].0@ == k
}

/// Whether member `i` of `v` has key `k` and the string value `s`.
pub open spec fn member_str(v: JsonValue, i: int, k: Seq<char>, s: Seq<char>) -> bool {
    member_key(v, i, k) && str_json(member_value(v, i), s)
}

/// The elements of `v`, when it is an array.
pub open spec fn elements(v: JsonValue) -> Seq<JsonValue> {
    match v {
        JsonValue::Array(a) => a@,
        _ => Seq::empty(),
    }
}

fn entry(k: &str, v: JsonValue) -> (r: (String, JsonValue))
    ensures
        r.0@ == k@,
        r.1 == v,
{
    (k.to_string(), v)
}

/// An object with one member.
pub fn obj1(k0: &str, v0: JsonValue) -> (r: JsonValue)
    ensures
        r is Object,
        members(r).len() == 1,
        member_is(r, 0, k0@, v0),
{
    let mut m: Vec<(String, JsonValue)> = Vec::new();
    m.push(entry(k0, v0));
    JsonValue::Object(m)
}

/// An object with two members, in order.
pub fn obj2(k0: &str, v0: JsonValue, k1: &str, v1: JsonValue) -> (r: JsonValue)
    ensures
        r is Object,
        members(r).len() == 2,
        member_is(r, 0, k0@, v0),
        member_is(r, 1, k1@, v1),
{
    let mut m: Vec<(String, JsonValue)> = Vec::new();
    m.push(entry(k0, v0));
    m.push(entry(k1, v1));
    JsonValue::Object(m)
}

/// An object with three members, in order.
pub fn obj3(k0: &str, v0: JsonValue, k1: &str, v1: JsonValue, k2: &str, v2: JsonValue) -> (r:
    JsonValue)
    ensures
        r is Object,
        members(r).len() == 3,
        member_is(r, 0, k0@, v0),
        member_is(r, 1, k1@, v1),
        member_is(r, 2, k2@, v2),
{
    let mut m: Vec<(String, JsonValue)> = Vec::new();
    m.push(entry(k0, v0));
    m.push(entry(k1, v1));
    m.push(entry(k2, v2));
    JsonValue::Object(m)
}

/// An object with four members, in order.
pub fn obj4(
    k0: &str,
    v0: JsonValue,
    k1: &str,
    v1: JsonValue,
    k2: &str,
    v2: JsonValue,
    k3: &str,
    v3: JsonValue,
) -> (r: JsonValue)
    ensures
        r is Object,
        members(r).len() == 4,
        member_is(r, 0, k0@, v0),
        member_is(r, 1, k1@, v1),
        member_is(r, 2, k2@, v2),
        member_is(r, 3, k3@, v3),
{
    let mut m: Vec<(String, JsonValue)> = Vec::new();
    m.push(entry(k0, v0));
    m.push(entry(k1, v1));
    m.push(entry(k2, v2));
    m.push(entry(k3, v3));
    JsonValue::Object(m)
}

/// An object with five members, in order.
pub fn obj5(
    k0: &str,
    v0: JsonValue,
    k1: &str,
    v1: JsonValue,
    k2: &str,
    v2: JsonValue,
    k3: &str,
    v3: JsonValue,
    k4: &str,
    v4: JsonValue,
) -> (r: JsonValue)
    ensures
        r is Object,
        members(r).len() == 5,
        member_is(r, 0, k0@, v0),
        member_is(r, 1, k1@, v1),
        member_is(r, 2, k2@, v2),
        member_is(r, 3, k3@, v3),
        member_is(r, 4, k4@, v4),
{
    let mut m: Vec<(String, JsonValue)> = Vec::new();
    m.push(entry(k0, v0));
    m.push(entry(k1, v1));
    m.push(entry(k2, v2));
    m.push(entry(k3, v3));
    m.push(entry(k4, v4));
    JsonValue::Object(m)
}

/// Identifier of a request, echoed in its response. `Null` marks a notification.
#[derive(Debug)]
pub enum RequestId {
    String(String),
    Number(u64),
    Null,
}

#[derive(Debug)]
pub struct McpError {
    pub code: i32,
    pub message: String,
    pub data: Option<JsonValue>,
}

#[derive(Debug)]
pub struct McpRequest {
    pub id: RequestId,
    pub method: String,
    pub params: Option<JsonValue>,
    pub meta: Option<Vec<(String, JsonValue)>>,
}

#[derive(Debug)]
pub struct McpResponse {
    pub id: RequestId,
    pub result: Option<JsonValue>,
    pub error: Option<McpError>,
    pub meta: Option<Vec<(String, JsonValue)>>,
}

/// Description of an invokable tool.
#[derive(Debug)]
pub struct Tool {
    pub name: String,
    pub description: String,
    pub input_schema: JsonValue,
    pub output_schema: Option<JsonValue>,
    pub metadata: Option<Vec<(String, JsonValue)>>,
}

#[derive(Debug)]
pub struct Resource {
    pub uri: String,
    pub name: String,
    pub description: Option<String>,
    pub mime_type: Option<String>,
    pub metadata: Option<Vec<(String, JsonValue)>>,
}

#[derive(Debug)]
pub struct PromptArgument {
    pub name: String,
    pub description: String,
    pub required: bool,
    pub default: Option<JsonValue>,
}

#[derive(Debug)]
pub struct Prompt {
    pub name: String,
    pub description: String,
    pub arguments: Vec<PromptArgument>,
    pub metadata: Option<Vec<(String, JsonValue)>>,
}

#[derive(Debug, Clone, Copy, PartialEq, Eq)]
pub struct ToolCapabilities {
    pub list_changed: Option<bool>,
}

#[derive(Debug, Clone, Copy, PartialEq, Eq)]
pub struct ResourceCapabilities {
    pub subscribe: Option<bool>,
    pub list_changed: Option<bool>,
}

#[derive(Debug, Clone, Copy, PartialEq, Eq)]
pub struct PromptCapabilities {
    pub list_changed: Option<bool>,
}

#[derive(Debug)]
pub struct LoggingCapabilities {
    pub level: Option<String>,
}

/// What a server offers, announced at `initialize`.
#[derive(Debug)]
pub struct ServerCapabilities {
    pub tools: Option<ToolCapabilities>,
    pub resources: Option<ResourceCapabilities>,
    pub prompts: Option<PromptCapabilities>,
    pub logging: Option<LoggingCapabilities>,
}

#[derive(Debug)]
pub struct ServerInfo {
    pub name: String,
    pub version: String,
    pub protocol_version: String,
    pub capabilities: ServerCapabilities,
    /// Extra descriptive entries, such as the framework's name.
    pub server_info: Option<Vec<(String, String)>>,
}

#[derive(Debug)]
pub struct ClientCapabilities {
    pub experimental: Option<Vec<(String, JsonValue)>>,
}

#[derive(Debug)]
pub struct ClientInfo {
    pub name: String,
    pub version: String,
}

#[derive(Debug)]
pub struct InitializeRequest {
    pub protocol_version: String,
    pub capabilities: ClientCapabilities,
    pub client_info: ClientInfo,
}

#[derive(Debug)]
pub struct CallToolRequest {
    pub name: String,
    pub arguments: Option<Vec<(String, JsonValue)>>,
}

#[allow(inconsistent_fields)]
#[derive(Debug)]
pub enum Content {
    Text { text: String },
    Image { data: String, mime_type: String },
    Resource { resource: Resource, text: Option<String> },
}

#[derive(Debug)]
pub struct CallToolResponse {
    pub content: Vec<Content>,
    pub is_progress: Option<bool>,
}

#[derive(Debug)]
pub struct ListResourcesRequest {
    pub cursor: Option<String>,
}

#[derive(Debug)]
pub struct ListToolsRequest {
    pub cursor: Option<String>,
}

#[derive(Debug)]
pub struct ListPromptsRequest {
    pub cursor: Option<String>,
}

impl McpError {
    pub fn new(code: i32, message: String) -> (r: McpError)
        ensures
            r.code == code,
            r.message == message,
            r.data is None,
    {
        McpError { code, message, data: None }
    }

    pub fn with_data(code: i32, message: String, data: JsonValue) -> (r: McpError)
        ensures
            r.code == code,
            r.message == message,
            r.data == Some(data),
    {
        McpError { code, message, data: Some(data) }
    }

    pub fn parse_error(message: String) -> (r: McpError)
        ensures
            r.code == PARSE_ERROR,
            r.message == message,
            r.data is None,
    {
        McpError::new(PARSE_ERROR, message)
    }

    pub fn invalid_request(message: String) -> (r: McpError)
        ensures
            r.code == INVALID_REQUEST,
            r.message == message,
            r.data is None,
    {
        McpError::new(INVALID_REQUEST, message)
    }

    pub fn method_not_found(message: String) -> (r: McpError)
        ensures
            r.code == METHOD_NOT_FOUND,
            r.message == message,
            r.data is None,
    {
        McpError::new(METHOD_NOT_FOUND, message)
    }

    pub fn invalid_params(message: String) -> (r: McpError)
        ensures
            r.code == INVALID_PARAMS,
            r.message == message,
            r.data is None,
    {
        McpError::new(INVALID_PARAMS, message)
    }

    pub fn internal_error(message: String) -> (r: McpError)
        ensures
            r.code == INTERNAL_ERROR,
            r.message == message,
            r.data is None,
    {
        McpError::new(INTERNAL_ERROR, message)
    }
}

impl McpRequest {
    /// A request with a freshly drawn string identifier.
    pub fn new(method: String, params: Option<JsonValue>) -> (r: McpRequest)
        ensures
            r.id is String,
            r.method == method,
            r.params == params,
            r.meta is None,
    {
        McpRequest { id: RequestId::String(fresh_request_id()), method, params, meta: None }
    }

    /// A request that carries no identifier.
    pub fn notification(method: String, params: Option<JsonValue>) -> (r: McpRequest)
        ensures
            r.id is Null,
            r.method == method,
            r.params == params,
            r.meta is None,
    {
        McpRequest { id: RequestId::Null, method, params, meta: None }
    }

    pub fn is_notification(&self) -> (r: bool)
        ensures
            r == (self.id is Null),
    {
        match self.id {
            RequestId::Null => true,
            _ => false,
        }
    }
}

impl McpResponse {
    /// Exactly one of `result` and `error` is present.
    pub open spec fn wf(&self) -> bool {
        self.result.is_some() != self.error.is_some()
    }

    pub fn success(id: RequestId, result: JsonValue) -> (r: McpResponse)
        ensures
            r.id == id,
            r.result == Some(result),
            r.error is None,
            r.meta is None,
            r.wf(),
    {
        McpResponse { id, result: Some(result), error: None, meta: None }
    }

    pub fn error(id: RequestId, error: McpError) -> (r: McpResponse)
        ensures
            r.id == id,
            r.result is None,
            r.error == Some(error),
            r.meta is None,
            r.wf(),
    {
        McpResponse { id, result: None, error: Some(error), meta: None }
    }
}

/// Relies on uuid's `Uuid::new_v4` and its hyphenated text form, which is
/// 36 characters long.
#[verifier::external_body]
fn fresh_request_id() -> (r: String)
    ensures
        r@.len() == 36,
{
    uuid::Uuid::new_v4().to_string()
}

} // verus!

//! What the two transports decide, apart from moving bytes: how a frame is
//! treated, and what answers a body that could not be decoded.
use crate::json::JsonValue;
use crate::protocol::{Dispatch, ProtocolHandler};
use crate::tools::McpTool;
use crate::types::{McpError, McpRequest, McpResponse, RequestId, PARSE_ERROR};
use vstd::prelude::*;

verus! {

/// The kinds of WebSocket events a connection sees.
#[derive(Debug, Clone, Copy, PartialEq, Eq)]
pub enum FrameKind {
    Text,
    Binary,
    Close,
    Failed,
}

/// What a connection does next.
#[derive(Debug, Clone, Copy, PartialEq, Eq)]
pub enum ConnectionStep {
    /// Decode the frame, answer it, and keep reading.
    Handle,
    /// Ignore the frame and keep reading.
    Skip,
    /// Stop serving the connection.
    Stop,
}

/// Text frames carry requests; binary frames have no meaning here; a close
/// or a transport failure ends the connection.
pub fn next_step(kind: FrameKind) -> (r: ConnectionStep)
    ensures
        kind == FrameKind::Text ==> r == ConnectionStep::Handle,
        kind == FrameKind::Binary ==> r == ConnectionStep::Skip,
        (kind == FrameKind::Close || kind == FrameKind::Failed) ==> r == ConnectionStep::Stop,
{
    match kind {
        FrameKind::Text => ConnectionStep::Handle,
        FrameKind::Binary => ConnectionStep::Skip,
        FrameKind::Close => ConnectionStep::Stop,
        FrameKind::Failed => ConnectionStep::Stop,
    }
}

pub open spec fn parse_failure_ok(r: McpResponse, detail: Seq<char>) -> bool {
    &&& r.id is Null
    &&& r.wf()
    &&& r.error is Some
    &&& r.error.unwrap().code == PARSE_ERROR
    &&& r.error.unwrap().message@ == "Invalid JSON: "@ + detail
}

/// The answer to a body or frame that is not a request: a parse error with
/// no identifier.
pub fn parse_failure_response(detail: &str) -> (r: McpResponse)
    ensures
        parse_failure_ok(r, detail@),
{
    let mut msg = "Invalid JSON: ".to_string();
    msg.append(detail);
    McpResponse::error(RequestId::Null, McpError::parse_error(msg))
}

/// Handles one decoded body or text frame. A decoding failure is answered
/// with a parse error and never reaches the handler; the connection stays
/// open either way.
pub fn handle_decoded<T: McpTool>(handler: &ProtocolHandler<T>, decoded: Result<McpRequest, String>) -> (r:
    Dispatch)
    ensures
        match decoded {
            Err(detail) => r is Respond && parse_failure_ok(r->Respond_0, detail@),
            Ok(req) => handler.dispatch_ok(req, r),
        },
{
    match decoded {
        Err(detail) => Dispatch::Respond(parse_failure_response(detail.as_str())),
        Ok(req) => handler.dispatch(req),
    }
}

/// Client side of the WebSocket transport: where to connect.
#[derive(Debug)]
pub struct McpWebSocketClient {
    pub url: String,
}

impl McpWebSocketClient {
    pub fn new(url: String) -> (r: Self)
        ensures
            r.url == url,
    {
        McpWebSocketClient { url }
    }
}

/// Client side of the HTTP transport: the server's base address.
#[derive(Debug)]
pub struct McpHttpClient {
    pub base_url: String,
}

impl McpHttpClient {
    pub fn new(base_url: String) -> (r: Self)
        ensures
            r.base_url == base_url,
    {
        McpHttpClient { base_url }
    }

    /// The endpoint that requests are posted to.
    pub fn endpoint(&self) -> (r: String)
        ensures
            r@ == self.base_url@ + "/mcp"@,
    {
        let mut s = self.base_url.clone();
        s.append("/mcp");
        s
    }
}

/// What came back on a client's connection after it sent a request.
#[derive(Debug)]
pub enum ReplyFrame {
    Text,
    Binary,
    Close,
    Other,
    Missing,
    Failed(String),
}

/// A text reply is to be decoded; every other reply is a failure, described.
pub fn reply_failure(frame: ReplyFrame) -> (r: Option<String>)
    ensures
        frame is Text <==> r is None,
        frame is Binary ==> r->Some_0@ == "Binary messages not supported"@,
        (frame is Close || frame is Missing) ==> r->Some_0@ == "Connection closed"@,
        frame is Other ==> r->Some_0@ == "Unexpected message type"@,
        frame is Failed ==> r->Some_0@ == "WebSocket error: "@ + frame->Failed_0@,
{
    match frame {
        ReplyFrame::Text => None,
        ReplyFrame::Binary => Some("Binary messages not supported".to_string()),
        ReplyFrame::Close => Some("Connection closed".to_string()),
        ReplyFrame::Missing => Some("Connection closed".to_string()),
        ReplyFrame::Other => Some("Unexpected message type".to_string()),
        ReplyFrame::Failed(e) => {
            let mut s = "WebSocket error: ".to_string();
            s.append(e.as_str());
            Some(s)
        },
    }
}

} // verus!

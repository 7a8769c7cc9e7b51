use loco_mcp::json::JsonValue;
use loco_mcp::protocol::{finish_tool_call, Dispatch, ProtocolHandler};
use loco_mcp::server::McpServerBuilder;
use loco_mcp::tools::{finish_call, EchoTool, McpTool, RegistryError, ToolOutcome, ToolRegistry};
use loco_mcp::transport::{
    handle_decoded, next_step, parse_failure_response, ConnectionStep, FrameKind, McpHttpClient,
    McpWebSocketClient,
};
use loco_mcp::types::{
    CallToolResponse, Content, McpError, McpRequest, McpResponse, Prompt, RequestId, Resource,
    ServerInfo, Tool,
};

fn s(x: &str) -> String {
    x.to_string()
}

fn obj(members: Vec<(&str, JsonValue)>) -> JsonValue {
    JsonValue::Object(members.into_iter().map(|(k, v)| (k.to_string(), v)).collect())
}

fn member<'a>(v: &'a JsonValue, k: &str) -> &'a JsonValue {
    match v {
        JsonValue::Object(m) => &m.iter().find(|(key, _)| key == k).expect("member").1,
        other => panic!("not an object: {:?}", other),
    }
}

fn handler() -> ProtocolHandler<EchoTool> {
    let mut reg = ToolRegistry::new();
    reg.register_tool(s("echo"), EchoTool).unwrap();
    ProtocolHandler::new(ServerInfo::standard(s("0.1.0")), reg)
}

fn request(id: RequestId, method: &str, params: Option<JsonValue>) -> McpRequest {
    McpRequest { id, method: s(method), params, meta: None }
}

fn error_of(r: &McpResponse) -> &McpError {
    assert!(r.result.is_none());
    r.error.as_ref().expect("error")
}

#[test]
fn scenario_tools_list_has_the_echo_tool() {
    let h = handler();
    let r = h.handle_request(request(RequestId::Number(1), "tools/list", None));
    let result = r.result.expect("result");
    match member(&result, "tools") {
        JsonValue::Array(tools) => {
            assert_eq!(tools.len(), 1);
            assert!(matches!(member(&tools[0], "name"), JsonValue::Str(n) if n == "echo"));
            let schema = member(&tools[0], "input_schema");
            assert!(matches!(member(schema, "type"), JsonValue::Str(t) if t == "object"));
            match member(schema, "required") {
                JsonValue::Array(req) => {
                    assert_eq!(req.len(), 1);
                    assert!(matches!(&req[0], JsonValue::Str(t) if t == "text"));
                }
                other => panic!("{:?}", other),
            }
        }
        other => panic!("{:?}", other),
    }
    assert!(matches!(member(&result, "next_cursor"), JsonValue::Null));
}

#[test]
fn scenario_echo_call_returns_text_block() {
    let h = handler();
    let params = obj(vec![
        ("name", JsonValue::Str(s("echo"))),
        ("arguments", obj(vec![("text", JsonValue::Str(s("hi")))])),
    ]);
    let r = h.handle_request(request(RequestId::Number(2), "tools/call", Some(params)));
    assert!(r.error.is_none());
    let result = r.result.expect("result");
    match member(&result, "content") {
        JsonValue::Array(blocks) => {
            assert_eq!(blocks.len(), 1);
            assert!(matches!(member(&blocks[0], "type"), JsonValue::Str(t) if t == "text"));
            assert!(matches!(member(&blocks[0], "text"), JsonValue::Str(t) if t == "hi"));
        }
        other => panic!("{:?}", other),
    }
}

#[test]
fn scenario_missing_text_argument_is_invalid_params() {
    let h = handler();
    let params = obj(vec![("name", JsonValue::Str(s("echo")))]);
    let r = h.handle_request(request(RequestId::Number(3), "tools/call", Some(params)));
    let e = error_of(&r);
    assert_eq!(e.code, -32602);
    assert!(e.message.contains("text"));
}

#[test]
fn scenario_unsupported_protocol_version() {
    let h = handler();
    let params = obj(vec![
        ("protocol_version", JsonValue::Str(s("1.0.0"))),
        ("capabilities", obj(vec![])),
        ("client_info", obj(vec![("name", JsonValue::Str(s("c"))), ("version", JsonValue::Str(s("1")))])),
    ]);
    let r = h.handle_request(request(RequestId::Number(4), "initialize", Some(params)));
    let e = error_of(&r);
    assert_eq!(e.code, -32600);
    assert_eq!(e.message, "Unsupported protocol version");
}

#[test]
fn scenario_ping_returns_empty_object() {
    let h = handler();
    let r = h.handle_request(request(RequestId::Number(5), "ping", None));
    assert!(r.error.is_none());
    assert!(matches!(r.result, Some(JsonValue::Object(ref m)) if m.is_empty()));
}

#[test]
fn scenario_malformed_frame_keeps_connection_open() {
    let h = handler();
    assert_eq!(next_step(FrameKind::Text), ConnectionStep::Handle);
    match handle_decoded(&h, Err(s("expected value at line 1 column 1"))) {
        Dispatch::Respond(r) => {
            assert!(matches!(r.id, RequestId::Null));
            let e = error_of(&r);
            assert_eq!(e.code, -32700);
            assert_eq!(e.message, "Invalid JSON: expected value at line 1 column 1");
        }
        other => panic!("{:?}", other),
    }
    // The next frame on the same connection is served as usual.
    assert_eq!(next_step(FrameKind::Text), ConnectionStep::Handle);
    match handle_decoded(&h, Ok(request(RequestId::Number(6), "ping", None))) {
        Dispatch::Respond(r) => {
            assert!(matches!(r.id, RequestId::Number(6)));
            assert!(r.result.is_some());
        }
        other => panic!("{:?}", other),
    }
}

#[test]
fn frame_kinds() {
    assert_eq!(next_step(FrameKind::Binary), ConnectionStep::Skip);
    assert_eq!(next_step(FrameKind::Close), ConnectionStep::Stop);
    assert_eq!(next_step(FrameKind::Failed), ConnectionStep::Stop);
    let r = parse_failure_response("eof");
    assert_eq!(error_of(&r).message, "Invalid JSON: eof");
}

#[test]
fn responses_echo_the_id_and_have_one_outcome() {
    let h = handler();
    for (i, method) in ["ping", "initialized", "tools/list", "resources/list", "prompts/list", "resources/read", "prompts/get", "nope", "tools/call", "initialize"].iter().enumerate() {
        let r = h.handle_request(request(RequestId::Number(i as u64), method, None));
        assert!(matches!(r.id, RequestId::Number(n) if n == i as u64));
        assert!(r.result.is_some() != r.error.is_some());
        let r = h.handle_request(request(RequestId::String(format!("req-{}", i)), method, None));
        assert!(matches!(r.id, RequestId::String(ref t) if *t == format!("req-{}", i)));
        assert!(r.result.is_some() != r.error.is_some());
    }
    let r = h.handle_request(request(RequestId::Null, "initialized", None));
    assert!(matches!(r.id, RequestId::Null));
}

#[test]
fn unknown_methods_and_stubs() {
    let h = handler();
    let r = h.handle_request(request(RequestId::Number(1), "tools/explode", None));
    let e = error_of(&r);
    assert_eq!(e.code, -32601);
    assert_eq!(e.message, "Method 'tools/explode' not found");
    let r = h.handle_request(request(RequestId::Number(2), "resources/read", None));
    assert_eq!(error_of(&r).message, "Resource reading not implemented");
    let r = h.handle_request(request(RequestId::Number(3), "prompts/get", None));
    assert_eq!(error_of(&r).message, "Prompt generation not implemented");
    let r = h.handle_request(request(RequestId::Number(4), "resources/list", None));
    let result = r.result.expect("result");
    assert!(matches!(member(&result, "resources"), JsonValue::Array(a) if a.is_empty()));
    let r = h.handle_request(request(RequestId::Number(5), "tools/list", Some(JsonValue::Bool(true))));
    assert_eq!(error_of(&r).code, -32602);
}

#[test]
fn initialize_with_supported_version() {
    let h = handler();
    let params = obj(vec![
        ("protocol_version", JsonValue::Str(s("2024-11-05"))),
        ("capabilities", obj(vec![("experimental", JsonValue::Null)])),
        ("client_info", obj(vec![("name", JsonValue::Str(s("c"))), ("version", JsonValue::Str(s("1")))])),
    ]);
    let r = h.handle_request(request(RequestId::Number(1), "initialize", Some(params)));
    let result = r.result.expect("result");
    assert!(matches!(member(&result, "protocol_version"), JsonValue::Str(v) if v == "2024-11-05"));
    let info = member(&result, "server_info");
    assert!(matches!(member(info, "name"), JsonValue::Str(v) if v == "Loco MCP Server"));
    assert!(matches!(member(info, "version"), JsonValue::Str(v) if v == "0.1.0"));
    let caps = member(&result, "capabilities");
    assert!(matches!(member(member(caps, "tools"), "list_changed"), JsonValue::Bool(false)));
    assert!(matches!(member(member(caps, "logging"), "level"), JsonValue::Str(v) if v == "info"));
    let missing = obj(vec![("protocol_version", JsonValue::Str(s("2024-11-05")))]);
    let r = h.handle_request(request(RequestId::Number(2), "initialize", Some(missing)));
    let e = error_of(&r);
    assert_eq!(e.code, -32602);
    assert!(e.message.starts_with("Invalid initialize request: "));
}

#[test]
fn duplicate_registration_keeps_the_first_tool() {
    let mut reg = ToolRegistry::new();
    assert!(reg.register_tool(s("echo"), EchoTool).is_ok());
    match reg.register_tool(s("echo"), EchoTool) {
        Err(e @ RegistryError::Conflict { .. }) => assert_eq!(e.message(), "Tool 'echo' already registered"),
        other => panic!("{:?}", other),
    }
    let listed = reg.list_tools();
    assert_eq!(listed.len(), 1);
    assert_eq!(listed[0].name, "echo");
    assert_eq!(reg.tool_count(), 1);
}

#[test]
fn distinct_registrations_are_all_kept() {
    let mut reg = ToolRegistry::new();
    for name in ["a", "b", "c", "d"] {
        reg.register_tool(s(name), EchoTool).unwrap();
    }
    assert_eq!(reg.tool_count(), 4);
    for name in ["a", "b", "c", "d"] {
        assert!(reg.has_tool(name));
    }
    assert!(reg.unregister_tool("b"));
    assert!(!reg.unregister_tool("b"));
    assert!(!reg.has_tool("b"));
    assert_eq!(reg.list_tools().len(), 3);
}

#[test]
fn unknown_tool_call_says_not_found() {
    let h = handler();
    let params = obj(vec![("name", JsonValue::Str(s("missing")))]);
    let r = h.handle_request(request(RequestId::Number(9), "tools/call", Some(params)));
    let e = error_of(&r);
    assert_eq!(e.code, -32603);
    assert_eq!(e.message, "Tool execution failed: Tool 'missing' not found");
    assert!(e.message.contains("not found"));
    let reg: ToolRegistry<EchoTool> = ToolRegistry::new();
    assert!(matches!(reg.execute_tool("missing", &Vec::new()), Err(RegistryError::NotFound { .. })));
}

#[test]
fn timed_out_call_names_tool_and_bound() {
    let r = finish_tool_call(RequestId::Number(7), "slow", 30, ToolOutcome::TimedOut);
    assert!(matches!(r.id, RequestId::Number(7)));
    let e = error_of(&r);
    assert_eq!(e.code, -32603);
    assert_eq!(e.message, "Tool execution failed: Tool 'slow' execution timed out after 30s");
    let e = finish_call("calc", 10, ToolOutcome::TimedOut).unwrap_err();
    assert_eq!(e.message(), "Tool 'calc' execution timed out after 10s");
    let failed = finish_tool_call(RequestId::Null, "x", 5, ToolOutcome::Completed(Err(s("boom"))));
    assert_eq!(error_of(&failed).message, "Tool execution failed: Tool 'x' failed: boom");
    let done = CallToolResponse { content: vec![Content::Text { text: s("ok") }], is_progress: Some(true) };
    let r = finish_tool_call(RequestId::Null, "x", 5, ToolOutcome::Completed(Ok(done)));
    let result = r.result.expect("result");
    assert!(matches!(member(&result, "is_progress"), JsonValue::Bool(true)));
}

#[test]
fn dispatch_hands_out_tool_runs() {
    let h = handler();
    let params = obj(vec![
        ("name", JsonValue::Str(s("echo"))),
        ("arguments", obj(vec![("text", JsonValue::Str(s("x"))), ("uppercase", JsonValue::Bool(true))])),
    ]);
    match h.dispatch(request(RequestId::Number(1), "tools/call", Some(params))) {
        Dispatch::Execute { id, name, args, timeout_secs } => {
            assert!(matches!(id, RequestId::Number(1)));
            assert_eq!(name, "echo");
            assert_eq!(args.len(), 2);
            assert_eq!(timeout_secs, 30);
        }
        other => panic!("{:?}", other),
    }
}

#[test]
fn echo_upper_cases_on_request() {
    let args = vec![(s("text"), JsonValue::Str(s("hi there"))), (s("uppercase"), JsonValue::Bool(true))];
    let out = EchoTool.execute(&args).unwrap();
    assert!(matches!(&out.content[0], Content::Text { text } if text == "HI THERE"));
    let args = vec![(s("text"), JsonValue::Str(s("hi"))), (s("uppercase"), JsonValue::Str(s("yes")))];
    assert_eq!(EchoTool.validate_args(&args).unwrap_err(), "'uppercase' must be a boolean");
    let args = vec![(s("text"), JsonValue::Number(s("3")))];
    assert_eq!(EchoTool.validate_args(&args).unwrap_err(), "'text' must be a string");
    assert_eq!(EchoTool.timeout_secs(), 30);
    let def: Tool = EchoTool.tool_def();
    assert_eq!(def.description, "Echo back the input text");
}

#[test]
fn request_and_error_constructors() {
    let r = McpRequest::new(s("ping"), None);
    assert!(matches!(r.id, RequestId::String(ref id) if id.len() == 36));
    assert!(!r.is_notification());
    assert!(McpRequest::notification(s("initialized"), None).is_notification());
    assert_eq!(McpError::parse_error(s("x")).code, -32700);
    assert_eq!(McpError::invalid_request(s("x")).code, -32600);
    assert_eq!(McpError::method_not_found(s("x")).code, -32601);
    assert_eq!(McpError::invalid_params(s("x")).code, -32602);
    assert_eq!(McpError::internal_error(s("x")).code, -32603);
    assert!(McpError::with_data(1, s("x"), JsonValue::Null).data.is_some());
    let ok = McpResponse::success(RequestId::Null, JsonValue::Null);
    assert!(ok.result.is_some() && ok.error.is_none());
}

#[test]
fn builder_and_clients() {
    let b: McpServerBuilder<u32> = McpServerBuilder::new();
    assert_eq!(b.build().unwrap_err(), "Configuration is required");
    let tool = Tool {
        name: s("hello"),
        description: s("Say hello"),
        input_schema: obj(vec![]),
        output_schema: None,
        metadata: None,
    };
    let setup = McpServerBuilder::new().with_config(7u32).with_tool(tool).build().unwrap();
    assert_eq!(setup.config, 7);
    assert_eq!(setup.environment, "development");
    assert_eq!(setup.custom_tools.len(), 1);
    let setup = McpServerBuilder::new().with_config(1u32).with_environment(s("production")).build().unwrap();
    assert_eq!(setup.environment, "production");
    let resource = Resource {
        uri: s("file:///readme"),
        name: s("readme"),
        description: None,
        mime_type: Some(s("text/plain")),
        metadata: None,
    };
    let prompt = Prompt { name: s("greet"), description: s("Greets"), arguments: vec![], metadata: None };
    let setup = McpServerBuilder::new().with_config(2u32).with_resource(resource).with_prompt(prompt).build().unwrap();
    assert_eq!(setup.custom_resources.len(), 1);
    assert_eq!(setup.custom_prompts[0].name, "greet");
    assert_eq!(McpWebSocketClient::new(s("ws://localhost/mcp/ws")).url, "ws://localhost/mcp/ws");
    assert_eq!(McpHttpClient::new(s("http://localhost:3000")).endpoint(), "http://localhost:3000/mcp");
}

use loco_mcp::calc::evaluate;
use loco_mcp::tools::{builtin_registry, is_u64_text, BuiltinTool, CalculateTool};
use loco_mcp::transport::{reply_failure, ReplyFrame};

#[test]
fn calculator_checks_arguments() {
    let calc = CalculateTool;
    assert_eq!(calc.timeout_secs(), 10);
    assert_eq!(calc.tool_def().name, "calculate");
    assert_eq!(calc.validate_args(&vec![]).unwrap_err(), "Missing required 'expression' argument");
    let bad = vec![(s("expression"), JsonValue::Bool(true))];
    assert_eq!(calc.validate_args(&bad).unwrap_err(), "'expression' must be a string");
    let neg = vec![(s("expression"), JsonValue::Str(s("2+3"))), (s("precision"), JsonValue::Number(s("-1")))];
    assert_eq!(calc.validate_args(&neg).unwrap_err(), "'precision' must be a positive integer");
    let ok = vec![(s("expression"), JsonValue::Str(s("2 + 3"))), (s("precision"), JsonValue::Number(s("3")))];
    assert!(calc.validate_args(&ok).is_ok());
    let out = calc.execute(&ok).unwrap();
    assert!(matches!(&out.content[0], Content::Text { text } if text == "Result: 5"));
    let zero = vec![(s("expression"), JsonValue::Str(s("1/0")))];
    assert_eq!(calc.execute(&zero).unwrap_err(), "Division by zero");
    assert_eq!(calc.execute(&vec![]).unwrap_err(), "Missing 'expression' argument");
}

#[test]
fn calculator_arithmetic() {
    assert_eq!(evaluate("2 + 3").unwrap(), "5");
    assert_eq!(evaluate("10/3").unwrap(), "3.33");
    assert_eq!(evaluate("2/3").unwrap(), "0.67");
    assert_eq!(evaluate("1/8").unwrap(), "0.13");
    assert_eq!(evaluate("0.1+0.2").unwrap(), "0.3");
    assert_eq!(evaluate("7-10").unwrap(), "-3");
    assert_eq!(evaluate("2+-3.5").unwrap(), "-1.5");
    assert_eq!(evaluate("1.5*4").unwrap(), "6");
    assert_eq!(evaluate("  3.140 ").unwrap(), "3.14");
    assert_eq!(evaluate("007").unwrap(), "7");
    assert_eq!(evaluate("-1/3").unwrap_err(), "Invalid left operand");
    assert_eq!(evaluate("2*x").unwrap_err(), "Invalid right operand");
    assert_eq!(evaluate("1/0.0").unwrap_err(), "Division by zero");
    assert_eq!(evaluate("abc").unwrap_err(), "Invalid expression format");
    assert_eq!(evaluate("1+2+3").unwrap_err(), "Invalid expression format");
    assert_eq!(evaluate("1234567890123456").unwrap_err(), "Invalid expression format");
}

#[test]
fn u64_texts() {
    assert!(is_u64_text("0"));
    assert!(is_u64_text("18446744073709551615"));
    assert!(!is_u64_text("18446744073709551616"));
    assert!(!is_u64_text("184467440737095516150"));
    assert!(!is_u64_text(""));
    assert!(!is_u64_text("2.5"));
}

#[test]
fn builtin_tools_are_listed_and_served() {
    let h = ProtocolHandler::new(ServerInfo::standard(s("0.1.0")), builtin_registry());
    let r = h.handle_request(request(RequestId::Number(1), "tools/list", None));
    match member(&r.result.unwrap(), "tools") {
        JsonValue::Array(tools) => {
            assert_eq!(tools.len(), 2);
            assert!(matches!(member(&tools[1], "name"), JsonValue::Str(n) if n == "calculate"));
        }
        other => panic!("{:?}", other),
    }
    let params = obj(vec![
        ("name", JsonValue::Str(s("calculate"))),
        ("arguments", obj(vec![("expression", JsonValue::Str(s("2+3")))])),
    ]);
    match h.dispatch(request(RequestId::Number(2), "tools/call", Some(params))) {
        Dispatch::Execute { timeout_secs, .. } => assert_eq!(timeout_secs, 10),
        other => panic!("{:?}", other),
    }
    let params = obj(vec![
        ("name", JsonValue::Str(s("calculate"))),
        ("arguments", obj(vec![("expression", JsonValue::Str(s("6 * 7")))])),
    ]);
    let r = h.handle_request(request(RequestId::Number(3), "tools/call", Some(params)));
    match member(&r.result.unwrap(), "content") {
        JsonValue::Array(blocks) => {
            assert!(matches!(member(&blocks[0], "text"), JsonValue::Str(t) if t == "Result: 42"));
        }
        other => panic!("{:?}", other),
    }
    let _: Option<&BuiltinTool> = None;
}

#[test]
fn reply_frames() {
    assert_eq!(reply_failure(ReplyFrame::Text), None);
    assert_eq!(reply_failure(ReplyFrame::Binary).unwrap(), "Binary messages not supported");
    assert_eq!(reply_failure(ReplyFrame::Close).unwrap(), "Connection closed");
    assert_eq!(reply_failure(ReplyFrame::Missing).unwrap(), "Connection closed");
    assert_eq!(reply_failure(ReplyFrame::Other).unwrap(), "Unexpected message type");
    assert_eq!(reply_failure(ReplyFrame::Failed(s("reset"))).unwrap(), "WebSocket error: reset");
}

#[test]
fn missing_text_message_reaches_the_response() {
    let h = handler();
    let params = obj(vec![("name", JsonValue::Str(s("echo"))), ("arguments", obj(vec![]))]);
    let r = h.handle_request(request(RequestId::Number(3), "tools/call", Some(params)));
    assert_eq!(error_of(&r).message, "Missing required 'text' argument");
}

#[test]
fn failures_name_the_tool() {
    let e = finish_call("calc", 10, ToolOutcome::Completed(Err(s("Division by zero")))).unwrap_err();
    assert_eq!(e.message(), "Tool 'calc' failed: Division by zero");
}

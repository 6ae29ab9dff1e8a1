//! The server for agents.

use iroh_drop_core::frame::{ApiError, Envelope, Role};
use iroh_drop_core::json::Json;
use iroh_drop_core::mcp::{
    answer_line, call_tool, dispatch, holds_message, parse_error, reply_line, server_hello,
    tool_err, tool_ok, tool_text, tools, wait_task, RpcStep, ToolError, ToolRun, ToolStep,
};

const TICKET: &str = "drop2aimfofis3yfxv6oqyama7tbogzvqj2fkxfgrqkcpjnnrgsj5q";

fn request(id: u64, method: &str) -> Json {
    Json::object().with("id", Json::Unsigned(id)).with("method", Json::text(method))
}

fn reply(msg: &Json) -> Json {
    match dispatch(msg, "0.4.0") {
        RpcStep::Reply(v) => v,
        other => panic!("{other:?}"),
    }
}

fn code(v: &Json) -> i64 {
    match v.get("error").unwrap().get("code") {
        Some(Json::Negative(code)) => *code,
        other => panic!("{other:?}"),
    }
}

fn called(step: ToolStep) -> (String, Json, ToolRun) {
    match step {
        ToolStep::Call { method, params, run } => (method, params, run),
        other => panic!("{other:?}"),
    }
}

fn failed(step: ToolStep) -> String {
    match step {
        ToolStep::Failed(ToolError::Daemon(msg)) => msg,
        other => panic!("{other:?}"),
    }
}

fn done(step: ToolStep) -> Json {
    match step {
        ToolStep::Done(v) => v,
        other => panic!("{other:?}"),
    }
}

#[test]
fn the_server_introduces_itself() {
    let v = reply(&request(1, "initialize"));
    let result = v.get("result").unwrap();
    assert_eq!(result.get("serverInfo").unwrap().text_at("name"), Some("iroh-drop-mcp"));
    assert_eq!(result.get("serverInfo").unwrap().text_at("version"), Some("0.4.0"));
    assert_eq!(result.text_at("protocolVersion"), Some("2025-03-26"));
    assert!(result.text_at("instructions").unwrap().starts_with("iroh-drop is a consent-based"));
    assert_eq!(v.number_at("id"), Some(1));
    assert_eq!(v.text_at("jsonrpc"), Some("2.0"));
    assert!(reply(&request(2, "ping")).get("result").is_some());
}

#[test]
fn notifications_are_not_answered() {
    let note = Json::object().with("method", Json::text("notifications/initialized"));
    assert!(matches!(dispatch(&note, "0"), RpcStep::Ignore));
    assert!(holds_message(" {} "));
    assert!(!holds_message("  "));
}

#[test]
fn errors_have_their_codes() {
    let v = reply(&request(3, "nope"));
    assert_eq!(code(&v), -32601);
    assert_eq!(v.get("error").unwrap().text_at("message"), Some("no such method nope"));
    let v = parse_error("eof");
    assert_eq!(code(&v), -32700);
    assert_eq!(v.get("error").unwrap().text_at("message"), Some("parse error: eof"));
    assert!(matches!(v.get("id"), Some(Json::Null)));
    let v = tool_err(Json::Unsigned(1), "frobnicate", ToolError::UnknownTool);
    assert_eq!(code(&v), -32602);
    assert_eq!(v.get("error").unwrap().text_at("message"), Some("unknown tool frobnicate"));
    let v = tool_err(Json::Unsigned(1), "fetch", ToolError::Daemon("x: y".into()));
    let result = v.get("result").unwrap();
    assert_eq!(result.flag_at("isError"), Some(true));
    assert_eq!(result.list_at("content").unwrap()[0].text_at("text"), Some("x: y"));
    let v = tool_text(Json::Unsigned(1), "{}");
    assert!(v.get("result").unwrap().flag_at("isError").is_none());
    let told = Json::object()
        .with("task", Json::text("t1"))
        .with("n", Json::list(vec![Json::Unsigned(3), Json::Negative(-4), Json::Null]));
    let v = tool_ok(Json::Unsigned(1), &told);
    assert_eq!(
        v.get("result").unwrap().list_at("content").unwrap()[0].text_at("text"),
        Some("{\n  \"n\": [\n    3,\n    -4,\n    null\n  ],\n  \"task\": \"t1\"\n}")
    );
}

#[test]
fn a_line_is_parsed_and_answered() {
    let line = "  {\"jsonrpc\":\"2.0\",\"id\":\"x\",\"method\":\"ping\",\"params\":[true,1.5,-2]} \n";
    match answer_line(line, "0.4.0") {
        RpcStep::Reply(v) => {
            assert_eq!(v.text_at("id"), Some("x"));
            assert_eq!(
                reply_line(&v),
                "{\"id\":\"x\",\"jsonrpc\":\"2.0\",\"result\":{}}\n"
            );
        }
        other => panic!("{other:?}"),
    }
    let call = "{\"id\":7,\"method\":\"tools/call\",\"params\":{\"name\":\"list_drops\"}}";
    match answer_line(call, "0.4.0") {
        RpcStep::Tool { id, name, step } => {
            assert!(matches!(id, Json::Unsigned(7)));
            assert_eq!(name, "list_drops");
            assert_eq!(called(step).0, "drop.list");
        }
        other => panic!("{other:?}"),
    }
    match answer_line("{oops", "0.4.0") {
        RpcStep::Reply(v) => {
            assert_eq!(code(&v), -32700);
            assert!(matches!(v.get("id"), Some(Json::Null)));
            assert_eq!(
                v.get("error").unwrap().text_at("message"),
                Some("parse error: key must be a string at line 1 column 2")
            );
        }
        other => panic!("{other:?}"),
    }
    assert!(matches!(answer_line(" \n", "0.4.0"), RpcStep::Ignore));
    assert!(matches!(answer_line("{\"method\":\"ping\"}", "0.4.0"), RpcStep::Ignore));
    let odd = Json::list(vec![Json::Decimal("1.5".into()), Json::Decimal("odd".into())]);
    assert_eq!(reply_line(&odd), "[1.5,null]\n");
}

#[test]
fn every_listed_tool_is_known() {
    let list = tools();
    let listed = match &list {
        Json::List(tools) => tools,
        other => panic!("{other:?}"),
    };
    assert_eq!(listed.len(), 8);
    for tool in listed {
        let step = call_tool(tool.text_at("name").unwrap(), &Json::object());
        assert!(!matches!(step, ToolStep::Failed(ToolError::UnknownTool)));
        assert!(tool.get("inputSchema").is_some());
    }
    assert!(matches!(
        call_tool("frobnicate", &Json::object()),
        ToolStep::Failed(ToolError::UnknownTool)
    ));
}

#[test]
fn an_agent_is_never_asked() {
    let hello = server_hello();
    assert_eq!(hello.roles, [Role::Control]);
    assert_eq!(hello.client, "iroh-drop-mcp");
}

#[test]
fn links_are_joined_by_their_ticket() {
    let link = Json::object()
        .with("ticket_or_link", Json::text(&format!("iroh-drop://receive/{TICKET}")));
    let msg = request(1, "tools/call").with(
        "params",
        Json::object().with("name", Json::text("join_drop")).with("arguments", link),
    );
    match dispatch(&msg, "0") {
        RpcStep::Tool { name, step, .. } => {
            assert_eq!(name, "join_drop");
            let (method, params, run) = called(step);
            assert_eq!((method.as_str(), params.text_at("ticket")), ("drop.join", Some(TICKET)));
            let joined = Json::object().with("drop", Json::text("d1"));
            assert_eq!(done(run.on_reply(Ok(joined))).text_at("drop"), Some("d1"));
        }
        other => panic!("{other:?}"),
    }
    let odd = Json::object().with("ticket_or_link", Json::text("hello"));
    assert_eq!(failed(call_tool("join_drop", &odd)), "no drop ticket found in the input");
    assert_eq!(
        failed(call_tool("join_drop", &Json::object())),
        "ticket_or_link is required"
    );
}

#[test]
fn a_created_drop_comes_with_a_link() {
    let (_, params, run) = called(call_tool("create_drop", &Json::object()));
    assert!(matches!(params.get("name"), Some(Json::Null)));
    let v = done(run.on_reply(Ok(Json::object().with("ticket", Json::text("drop2x")))));
    assert_eq!(v.text_at("link"), Some("iroh-drop://receive/drop2x"));
    let (_, _, run) = called(call_tool("create_drop", &Json::object()));
    let said = Json::object().with("ticket", Json::text("t")).with("link", Json::text("own"));
    assert_eq!(done(run.on_reply(Ok(said))).text_at("link"), Some("own"));
    let (_, _, run) = called(call_tool("list_drops", &Json::object()));
    assert_eq!(failed(run.on_reply(Err(ApiError::new("internal", "x")))), "internal: x");
}

#[test]
fn files_are_shared_one_by_one() {
    let args = Json::object()
        .with("drop", Json::text("d1"))
        .with("paths", Json::list(vec![Json::text("/a"), Json::text("/b")]));
    let (method, params, run) = called(call_tool("share_files", &args));
    assert_eq!((method.as_str(), params.text_at("path")), ("offer.publish", Some("/a")));
    let started = || Json::object().with("task", Json::text("t1"));
    let run = match run.on_reply(Ok(started())) {
        ToolStep::Wait { task, run } => {
            assert_eq!(task, "t1");
            run
        }
        other => panic!("{other:?}"),
    };
    let (_, params, run) = called(run.on_task(Ok(Json::text("first"))));
    assert_eq!(params.text_at("path"), Some("/b"));
    let run = match run.on_reply(Ok(started())) {
        ToolStep::Wait { run, .. } => run,
        other => panic!("{other:?}"),
    };
    let v = done(run.on_task(Ok(Json::text("second"))));
    let published = v.list_at("published").unwrap();
    assert_eq!(published.len(), 2);
    assert_eq!(published[1].text_at("path"), Some("/b"));
    assert_eq!(published[1].text_at("outcome"), Some("second"));

    let named = args.set("name", Json::text("n"));
    assert_eq!(
        failed(call_tool("share_files", &named)),
        "name only makes sense for a single file"
    );
    let odd = Json::object()
        .with("drop", Json::text("d1"))
        .with("paths", Json::list(vec![Json::Null]));
    assert_eq!(failed(call_tool("share_files", &odd)), "paths must be strings");
    let none = Json::object().with("drop", Json::text("d1"));
    assert_eq!(failed(call_tool("share_files", &none)), "paths (array) is required");
    assert_eq!(failed(call_tool("share_files", &Json::object())), "drop is required");
}

#[test]
fn a_fetch_waits_for_its_task() {
    let args = Json::object().with("drop", Json::text("d1")).with("pick", Json::text("1"));
    let (method, params, run) = called(call_tool("fetch", &args));
    assert_eq!(method, "offer.fetch");
    assert!(matches!(params.get("out"), Some(Json::Null)));
    let run = match run.on_reply(Ok(Json::object().with("task", Json::text("t1")))) {
        ToolStep::Wait { run, .. } => run,
        other => panic!("{other:?}"),
    };
    let p = Json::object().with("state", Json::text("done"));
    let outcome = wait_task(Ok(Envelope { seq: 1, e: "task.state".into(), p }));
    let v = done(run.on_task(outcome));
    assert_eq!(v.text_at("task"), Some("t1"));
    assert_eq!(v.get("outcome").unwrap().text_at("state"), Some("done"));

    let late = wait_task(Err(ApiError::new("timeout", "no matching event"))).unwrap();
    assert_eq!(late.text_at("state"), Some("running"));
    match wait_task(Err(ApiError::new("disconnected", "x"))) {
        Err(ToolError::Daemon(msg)) => assert_eq!(msg, "disconnected: x"),
        other => panic!("{other:?}"),
    }
    let no_pick = Json::object().with("drop", Json::text("d1"));
    assert_eq!(failed(call_tool("fetch", &no_pick)), "pick is required");
}

#[test]
fn the_event_tail_is_bounded() {
    let tail = |args: &Json, n: u64| {
        let (_, _, run) = called(call_tool("drop_events", args));
        let events = (0..n).map(Json::Unsigned).collect();
        let v = done(run.on_reply(Ok(Json::object().with("events", Json::list(events)))));
        v.list_at("events").unwrap().len()
    };
    let limit = |n: u64| Json::object().with("limit", Json::Unsigned(n));
    assert_eq!(tail(&Json::object(), 300), 50);
    assert_eq!(tail(&limit(1_000), 300), 200);
    assert_eq!(tail(&limit(0), 3), 0);
    assert_eq!(tail(&limit(5), 3), 3);
    let from = Json::object().with("from", Json::Unsigned(7));
    let (method, params, _) = called(call_tool("drop_events", &from));
    assert_eq!((method.as_str(), params.number_at("from")), ("events.replay", Some(7)));
    let gone = Json::object().with("drop", Json::text("d1"));
    let (_, params, _) = called(call_tool("leave_drop", &gone));
    assert_eq!(params.flag_at("forget"), Some(false));
    let (method, _, _) = called(call_tool("list_offers", &gone));
    assert_eq!(method, "offer.list");
}

//! Clients of the control API, and the pipe they speak through.

use iroh_drop_core::client::{
    accept_all, answer, handler_answer, hello_frame, task_ended, wait_for, went_away, Arrival,
    Client, ClientStep, WaitStep,
};
use iroh_drop_core::config::Environment;
use iroh_drop_core::frame::{reply, ApiError, Envelope, Frame, Hello, Role, MAX_FRAME_BYTES};
use iroh_drop_core::json::Json;
use iroh_drop_core::transport::{
    bind, cannot_restrict, default_socket_path, no_daemon, read_line, socket_dir, BindStep,
    LineStep, SocketState,
};

fn event(e: &str, p: Json) -> Envelope {
    Envelope { seq: 5, e: e.to_string(), p }
}

#[test]
fn calls_and_replies_are_matched() {
    let hello = Json::object().with("endpoint_id", Json::text("me"));
    let mut client = Client::start(Some(Frame::Res { id: 0, p: hello })).unwrap();
    assert_eq!(client.hello.text_at("endpoint_id"), Some("me"));
    match client.call("drop.list", Json::object()) {
        Frame::Req { id, m, .. } => assert_eq!((id, m.as_str()), (1, "drop.list")),
        other => panic!("{other:?}"),
    }
    match client.on_frame(Frame::Res { id: 1, p: Json::Bool(true) }) {
        ClientStep::Resolve { id, result } => assert_eq!((id, result.is_ok()), (1, true)),
        other => panic!("{other:?}"),
    }
    // A second reply finds nobody waiting.
    assert!(matches!(
        client.on_frame(Frame::Res { id: 1, p: Json::Null }),
        ClientStep::Ignore
    ));
    let _ = client.call("x", Json::Null);
    let failed = Frame::Failure { id: 2, code: "not_found".into(), msg: "no".into() };
    match client.on_frame(failed) {
        ClientStep::Resolve { result, .. } => {
            assert_eq!(result.unwrap_err().message(), "not_found: no");
        }
        other => panic!("{other:?}"),
    }
    match client.on_frame(Frame::Ask { id: 9, q: "offer.accept".into(), p: Json::Null }) {
        ClientStep::Ask(ask) => assert_eq!((ask.id, ask.q.as_str()), (9, "offer.accept")),
        other => panic!("{other:?}"),
    }
    match client.on_frame(Frame::Req { id: 3, m: "x".into(), p: Json::Null }) {
        ClientStep::Send(Frame::Failure { id, code, .. }) => {
            assert_eq!((id, code.as_str()), (3, "unsupported"));
        }
        other => panic!("{other:?}"),
    }
    match client.on_frame(event("peer.joined", Json::Null).to_frame()) {
        ClientStep::Event(env) => assert_eq!((env.seq, env.e.as_str()), (5, "peer.joined")),
        other => panic!("{other:?}"),
    }
}

#[test]
fn a_handshake_can_fail() {
    let refused = Frame::Failure { id: 0, code: "api_version".into(), msg: "old".into() };
    assert_eq!(Client::start(Some(refused)).unwrap_err().code, "api_version");
    for first in [None, Some(Frame::Ev { seq: 1, e: "x".into(), p: Json::Null })] {
        let e = Client::start(first).unwrap_err();
        assert_eq!(e.message(), "disconnected: daemon closed during handshake");
    }
    match hello_frame(Json::Null) {
        Frame::Req { m, .. } => assert_eq!(m, "hello"),
        other => panic!("{other:?}"),
    }
    assert_eq!(went_away().code, "disconnected");
}

#[test]
fn questions_are_answered_or_declined() {
    match answer(4, Some(accept_all())) {
        Frame::Res { id, p } => assert_eq!((id, p.flag_at("accept")), (4, Some(true))),
        other => panic!("{other:?}"),
    }
    assert!(matches!(answer(4, None), Frame::Failure { id: 4, .. }));
    assert!(matches!(handler_answer(4, "offer.accept", None), Frame::Failure { id: 4, .. }));
    match handler_answer(4, "offer.accept", Some(accept_all())) {
        Frame::Res { id, .. } => assert_eq!(id, 4),
        other => panic!("{other:?}"),
    }
}

#[test]
fn waiting_ends_with_a_match_or_an_error() {
    assert!(matches!(
        wait_for(Arrival::Event(event("x", Json::Null), true)),
        WaitStep::Found(_)
    ));
    assert!(matches!(
        wait_for(Arrival::Event(event("x", Json::Null), false)),
        WaitStep::On
    ));
    assert!(matches!(wait_for(Arrival::Lagged), WaitStep::On));
    let failed = |a: Arrival| match wait_for(a) {
        WaitStep::Failed(e) => e.message(),
        other => panic!("{other:?}"),
    };
    assert_eq!(failed(Arrival::Closed), "disconnected: event stream closed");
    assert_eq!(failed(Arrival::TimedOut), "timeout: no matching event");
}

#[test]
fn a_task_ends_when_it_no_longer_runs() {
    let state = |task: &str, state: &str| {
        event(
            "task.state",
            Json::object().with("task", Json::text(task)).with("state", Json::text(state)),
        )
    };
    assert!(task_ended(&state("t1", "done"), "t1"));
    assert!(task_ended(&state("t1", "failed"), "t1"));
    assert!(!task_ended(&state("t1", "running"), "t1"));
    assert!(!task_ended(&state("t2", "done"), "t1"));
    assert!(!task_ended(&event("peer.joined", Json::Null), "t1"));
}

#[test]
fn roles_are_what_a_client_declares() {
    assert_eq!(Hello::observer("x").roles, [Role::Observer]);
    assert_eq!(Hello::ui("x").roles, [Role::Ui, Role::Control]);
    assert_eq!(Hello::control("x").roles, [Role::Control]);
    assert!(Hello::ui("x").has_role(Role::Ui));
    assert!(!Hello::control("x").has_role(Role::Ui));
    assert!(matches!(reply(2, Ok(Json::Null)), Frame::Res { id: 2, .. }));
    assert!(matches!(reply(2, Err(ApiError::new("a", "b"))), Frame::Failure { id: 2, .. }));
}

#[test]
fn garbage_and_empty_lines_do_not_end_a_connection() {
    assert_eq!(read_line(""), LineStep::Skip);
    assert_eq!(read_line("  \r\n"), LineStep::Skip);
    assert_eq!(read_line("not json"), LineStep::Parse);
    assert_eq!(read_line(&"x".repeat(MAX_FRAME_BYTES)), LineStep::Parse);
    assert_eq!(read_line(&"x".repeat(MAX_FRAME_BYTES + 1)), LineStep::Close);
}

#[test]
fn a_second_daemon_is_refused_and_a_leftover_reclaimed() {
    assert_eq!(bind("/run/x.sock", SocketState::Absent).unwrap(), BindStep::Bind);
    assert_eq!(bind("/run/x.sock", SocketState::Stale).unwrap(), BindStep::Reclaim);
    assert_eq!(
        bind("/run/x.sock", SocketState::Live).unwrap_err().message(),
        "already_running: a daemon is already listening on /run/x.sock"
    );
    assert_eq!(socket_dir("/run/x.sock").unwrap(), "/run");
    assert_eq!(socket_dir("/").unwrap_err().code, "bad_path");
    assert_eq!(cannot_restrict("/p", "why").message(), "io: cannot restrict /p: why");
    assert_eq!(
        no_daemon("/p", "refused").message(),
        "no_daemon: cannot reach a daemon at /p: refused"
    );
}

#[test]
fn the_socket_has_a_usual_place() {
    let mut env = Environment {
        home: Some("/home/me".into()),
        data_home: None,
        config_home: None,
        runtime_dir: Some("/run/user/1".into()),
    };
    assert_eq!(default_socket_path(&env), "/run/user/1/iroh-drop/control.sock");
    env.runtime_dir = None;
    assert_eq!(default_socket_path(&env), "/home/me/.local/share/iroh-drop/control.sock");
    env.home = None;
    assert_eq!(default_socket_path(&env), "iroh-drop-control.sock");
}

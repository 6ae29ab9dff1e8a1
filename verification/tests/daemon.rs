//! The daemon's methods, events, and consent.

use std::collections::HashSet;

use iroh_drop_core::asks::{AskOutcome, AskRouter};
use iroh_drop_core::bridge::Worker;
use iroh_drop_core::bus::{lagged, EventBus, EVENT_RING};
use iroh_drop_core::collections::{Published, PublishedBlob};
use iroh_drop_core::config::DropPolicy;
use iroh_drop_core::frame::{ApiError, Frame, Hello, API_VERSION};
use iroh_drop_core::ids::{BlobHash, PeerId};
use iroh_drop_core::inventory::{inventory, LocalBlobStatus, OfferRecord};
use iroh_drop_core::json::Json;
use iroh_drop_core::persist::PersistedDrop;
use iroh_drop_core::service::{
    drop_not_found, offer_list, status_str, tally, task_reply, Action, ConsentStep, DropEvent,
    DropFacts, FrameStep, Greeting, Offer, Service, ServiceOptions, WarningKind, CONSENT_TIMEOUT,
    PROGRESS_INTERVAL,
};

fn service() -> Service {
    Service::new(ServiceOptions::default(), "me".into(), "0.4.0".into(), 2)
}

fn peer(id: &str) -> PeerId {
    PeerId { id: id.to_string(), short: id.chars().take(3).collect() }
}

fn hash(hex: &str) -> BlobHash {
    BlobHash { hex: hex.to_string(), short: hex.chars().take(4).collect() }
}

fn offer(hex: &str, name: &str, size: u64) -> Offer {
    Offer {
        blob_hash: hash(hex),
        name: name.to_string(),
        size,
        media_type: None,
        metadata: Vec::new(),
    }
}

fn drop_param(handle: &str) -> Json {
    Json::object().with("drop", Json::text(handle))
}

fn last_event(s: &Service) -> (String, Json) {
    let (events, _) = s.bus.replay(0);
    let last = events.into_iter().last().unwrap();
    (last.e, last.p)
}

fn error(r: Result<Action, ApiError>) -> (String, String) {
    let e = r.unwrap_err();
    (e.code, e.msg)
}

#[test]
fn hello_comes_first() {
    let mut s = service();
    let first = Some(Frame::Req { id: 7, m: "hello".into(), p: Json::Null });
    match s.greet(&first, Ok(Hello::ui("gui"))) {
        Greeting::Welcome { reply: Frame::Res { id, p }, ui_token } => {
            assert_eq!(id, 7);
            assert_eq!(ui_token, Some(1));
            assert_eq!(p.number_at("api"), Some(API_VERSION as u64));
            assert_eq!(p.text_at("daemon"), Some("0.4.0"));
            assert_eq!(p.number_at("wire"), Some(2));
            assert_eq!(p.text_at("endpoint_id"), Some("me"));
            assert_eq!(p.number_at("events_from"), Some(1));
            let methods = p.list_at("methods").unwrap();
            assert!(methods.iter().any(|m| m.as_str() == Some("offer.fetch")));
            assert_eq!(methods.len(), Service::methods().len());
        }
        other => panic!("{other:?}"),
    }
    match s.greet(&first, Ok(Hello::control("cli"))) {
        Greeting::Welcome { ui_token, .. } => assert_eq!(ui_token, None),
        other => panic!("{other:?}"),
    }
}

#[test]
fn other_greetings_are_refused() {
    let mut s = service();
    let first = Some(Frame::Req { id: 7, m: "hello".into(), p: Json::Null });
    let mut old = Hello::observer("old");
    old.api = 9;
    match s.greet(&first, Ok(old)) {
        Greeting::Refused { reply: Frame::Failure { id, code, msg } } => {
            assert_eq!((id, code.as_str()), (7, "api_version"));
            assert_eq!(msg, "daemon speaks api 1, client speaks 9");
        }
        other => panic!("{other:?}"),
    }
    match s.greet(&first, Err("missing field".into())) {
        Greeting::Refused { reply: Frame::Failure { code, msg, .. } } => {
            assert_eq!((code.as_str(), msg.as_str()), ("bad_params", "missing field"));
        }
        other => panic!("{other:?}"),
    }
    let early = Some(Frame::Req { id: 1, m: "drop.list".into(), p: Json::Null });
    assert!(matches!(s.greet(&early, Ok(Hello::observer("x"))), Greeting::Ignored));
    assert!(matches!(s.greet(&None, Ok(Hello::observer("x"))), Greeting::Ignored));
}

#[test]
fn unknown_methods_are_survivable() {
    let mut s = service();
    assert_eq!(
        error(s.dispatch("drop.teleport", &Json::object())),
        ("unsupported".to_string(), "no method drop.teleport".to_string())
    );
    assert_eq!(error(s.dispatch("hello", &Json::object())).0, "already_hello");
    match s.dispatch("daemon.status", &Json::object()).unwrap() {
        Action::Reply(p) => {
            assert_eq!(p.flag_at("offline"), Some(false));
            assert_eq!(p.flag_at("mdns"), Some(true));
            assert_eq!(p.flag_at("persistent_store"), Some(false));
            assert_eq!(p.text_at("download_dir"), Some("."));
            assert_eq!(p.number_at("drops"), Some(0));
            assert_eq!(p.number_at("seq"), Some(1));
        }
        other => panic!("{other:?}"),
    }
}

#[test]
fn drops_are_created_joined_and_left() {
    let mut s = service();
    let named = Json::object().with("name", Json::text("slides"));
    match s.dispatch("drop.create", &named).unwrap() {
        Action::Create { name } => assert_eq!(name.as_deref(), Some("slides")),
        other => panic!("{other:?}"),
    }
    let reply = s.created(Some("slides".into()), "t0", "drop2short");
    assert_eq!(reply.text_at("drop"), Some("d1"));
    assert_eq!(reply.text_at("topic"), Some("t0"));
    assert_eq!(reply.text_at("ticket"), Some("drop2short"));
    assert_eq!(last_event(&s).0, "drop.joined");

    assert_eq!(
        error(s.dispatch("drop.join", &Json::object())),
        ("bad_params".to_string(), "ticket is required".to_string())
    );
    let ticket = Json::object().with("ticket", Json::text("drop2abc"));
    match s.dispatch("drop.join", &ticket).unwrap() {
        Action::Join { ticket } => assert_eq!(ticket, "drop2abc"),
        other => panic!("{other:?}"),
    }
    assert_eq!(s.joined("t1").text_at("drop"), Some("d2"));
    assert_eq!(s.handles(), ["d1", "d2"]);
    let e = Service::bad_ticket("too short");
    assert_eq!((e.code.as_str(), e.msg.as_str()), ("bad_params", "bad ticket: too short"));

    assert_eq!(
        error(s.dispatch("drop.leave", &Json::object())),
        ("bad_params".to_string(), "drop is required".to_string())
    );
    assert_eq!(
        error(s.dispatch("drop.leave", &drop_param("d9"))),
        ("not_found".to_string(), "no drop d9".to_string())
    );
    match s.dispatch("drop.leave", &drop_param("d1")).unwrap() {
        Action::Leave { drop } => assert_eq!(drop, "d1"),
        other => panic!("{other:?}"),
    }
    assert!(matches!(s.left("d1"), Json::Object(fields) if fields.is_empty()));
    assert_eq!(last_event(&s).0, "drop.left");
    assert_eq!(s.handles(), ["d2"]);
    assert_eq!(s.drain(), ["d2"]);
    assert!(s.handles().is_empty());
    s.stopping();
    assert_eq!(last_event(&s).0, "daemon.stopping");
}

#[test]
fn drops_are_listed_by_handle() {
    let mut s = service();
    let _ = s.created(Some("b".into()), "t", "x");
    let _ = s.joined("t");
    let fact = |drop: &str, bytes: u64| DropFacts {
        drop: drop.to_string(),
        topic: "t".into(),
        peers: 2,
        offers: 1,
        files: 400,
        bytes,
    };
    let listed = s.drop_list(vec![fact("d2", 0), fact("d1", 2048)]);
    let rows = listed.list_at("drops").unwrap();
    assert_eq!(rows[0].text_at("drop"), Some("d1"));
    assert_eq!(rows[0].text_at("name"), Some("b"));
    assert_eq!(rows[0].number_at("files"), Some(400));
    assert_eq!(rows[0].number_at("peers"), Some(2));
    assert_eq!(rows[0].text_at("human_size"), Some("2.0 KiB"));
    assert_eq!(rows[0].flag_at("mine"), Some(true));
    assert_eq!(rows[1].text_at("drop"), Some("d2"));
    assert!(matches!(rows[1].get("name"), Some(Json::Null)));
    assert_eq!(rows[1].flag_at("mine"), Some(false));
}

#[test]
fn the_window_tells_created_from_joined() {
    let mut s = service();
    let _ = s.created(Some("album".into()), "t", "x");
    let _ = s.joined("t");
    let facts = |s: &Service| -> Vec<DropFacts> {
        s.handles()
            .into_iter()
            .map(|drop| DropFacts {
                drop,
                topic: "t".into(),
                peers: 0,
                offers: 0,
                files: 0,
                bytes: 0,
            })
            .collect()
    };
    let mut worker = Worker::new();
    worker.apply_status(&None, &Some(s.drop_list(facts(&s))));
    let rows = &worker.state.drops;
    assert_eq!((rows[0].handle.as_str(), rows[0].mine), ("d1", true));
    assert_eq!((rows[1].handle.as_str(), rows[1].mine), ("d2", false));

    // A restart changes nothing about it.
    let mut after = service();
    for handle in s.handles() {
        after.restore(s.persisted(&handle, "full").unwrap(), "t");
    }
    worker.apply_status(&None, &Some(after.drop_list(facts(&after))));
    let rows = &worker.state.drops;
    assert_eq!((rows[0].mine, rows[1].mine), (true, false));
}

#[test]
fn a_configured_base_gives_a_web_link() {
    let mut s = service();
    let plain = s.drop_ticket("drop2abc");
    assert_eq!(plain.text_at("link"), Some("iroh-drop://receive/drop2abc"));
    assert!(plain.get("web_link").is_none());
    s.options.link_base = Some("https://drop.example/".into());
    let both = s.drop_ticket("drop2abc");
    assert_eq!(both.text_at("web_link"), Some("https://drop.example/#drop2abc"));
    assert_eq!(both.text_at("ticket"), Some("drop2abc"));

    let _ = s.joined("t");
    let full = drop_param("d1").with("full", Json::Bool(true));
    match s.dispatch("drop.ticket", &full).unwrap() {
        Action::Ticket { drop, full } => assert_eq!((drop.as_str(), full), ("d1", true)),
        other => panic!("{other:?}"),
    }
}

#[test]
fn offers_are_listed() {
    let records = vec![OfferRecord {
        blob_hash: hash("abcd"),
        name: "note.txt".into(),
        size: 12,
        media_type: None,
        metadata: Vec::new(),
        aliases: Vec::new(),
        local_status: LocalBlobStatus::Missing,
    }];
    let items = inventory(&records);
    assert_eq!(tally(&items), Some((1, 12)));
    let listed = offer_list(&items);
    let item = &listed.list_at("items").unwrap()[0];
    assert_eq!(item.number_at("n"), Some(1));
    assert_eq!(item.text_at("hash"), Some("abcd"));
    assert_eq!(item.text_at("kind"), Some("file"));
    assert_eq!(item.text_at("status"), Some("missing"));
    assert!(matches!(item.get("members"), Some(Json::Null)));
    assert_eq!(status_str(&LocalBlobStatus::Complete), "available");
    assert_eq!(
        status_str(&LocalBlobStatus::Fetching { downloaded: 1, total: None }),
        "fetching"
    );
    assert_eq!(status_str(&LocalBlobStatus::Other("timed out".into())), "failed");
}

#[test]
fn tasks_run_end_and_can_be_cancelled() {
    let mut s = service();
    let _ = s.joined("t");
    assert_eq!(
        error(s.dispatch("offer.publish", &drop_param("d1"))),
        ("bad_params".to_string(), "path is required".to_string())
    );
    let params = drop_param("d1").with("path", Json::text("/x"));
    let task = match s.dispatch("offer.publish", &params).unwrap() {
        Action::Publish { task, drop, path, name } => {
            assert_eq!((drop.as_str(), path.as_str(), name), ("d1", "/x", None));
            task
        }
        other => panic!("{other:?}"),
    };
    assert_eq!(task, "t1");
    assert_eq!(task_reply(&task).text_at("task"), Some("t1"));
    let (e, p) = last_event(&s);
    assert_eq!((e.as_str(), p.text_at("state")), ("task.state", Some("running")));

    let blob = PublishedBlob { hash: hash("abcd"), name: "x".into(), size: 3 };
    let published = Published { blob, members: 1, total_size: 3, is_collection: false };
    s.publish_done(&task, Ok(published));
    let (events, truncated) = s.bus.replay(0);
    assert!(!truncated);
    let names: Vec<&str> = events.iter().map(|e| e.e.as_str()).collect();
    assert_eq!(names, ["drop.joined", "task.state", "publish.completed", "task.state"]);
    assert_eq!(events[3].p.text_at("state"), Some("done"));

    let t2 = s.start_fetch("d1", &hash("abcd"));
    s.fetch_done(&t2, &hash("abcd"), Err("no route".into()));
    let (_, p) = last_event(&s);
    assert_eq!((p.text_at("state"), p.text_at("error")), (Some("failed"), Some("no route")));
    let t3 = s.start_fetch("d1", &hash("abcd"));
    s.fetch_done(&t3, &hash("abcd"), Ok(vec!["/out/x".into()]));
    let (events, _) = s.bus.replay(0);
    let saved = events.iter().find(|e| e.e == "fetch.materialized").unwrap();
    assert_eq!(saved.p.list_at("paths").unwrap()[0].as_str(), Some("/out/x"));

    let t4 = s.start_fetch("d1", &hash("ee"));
    let cancel = Json::object().with("task", Json::text(&t4));
    match s.dispatch("task.cancel", &cancel).unwrap() {
        Action::Cancel { task, abort } => assert_eq!((task.as_str(), abort), ("t4", true)),
        other => panic!("{other:?}"),
    }
    match s.dispatch("task.cancel", &cancel).unwrap() {
        Action::Cancel { abort, .. } => assert!(!abort),
        other => panic!("{other:?}"),
    }
    let missing = Json::object().with("task", Json::text("t9"));
    assert_eq!(error(s.dispatch("task.cancel", &missing)).1, "no task t9");
    assert_eq!(error(s.dispatch("task.cancel", &Json::object())).1, "task is required");
    match s.dispatch("task.list", &Json::object()).unwrap() {
        Action::Reply(p) => {
            let rows = p.list_at("tasks").unwrap();
            let states: Vec<_> = rows.iter().map(|r| r.text_at("state").unwrap()).collect();
            assert_eq!(states, ["done", "failed", "done", "cancelled"]);
            assert_eq!(rows[3].text_at("hash"), Some("ee"));
        }
        other => panic!("{other:?}"),
    }
}

#[test]
fn a_fetch_names_its_pick_and_place() {
    let mut s = service();
    let _ = s.joined("t");
    assert_eq!(error(s.dispatch("offer.fetch", &drop_param("d1"))).1, "pick is required");
    let pick = drop_param("d1").with("pick", Json::text("2"));
    match s.dispatch("offer.fetch", &pick).unwrap() {
        Action::Fetch { drop, pick, out } => {
            assert_eq!((drop.as_str(), pick.as_str(), out.as_str()), ("d1", "2", "."));
        }
        other => panic!("{other:?}"),
    }
    let placed = drop_param("d1").with("pick", Json::text("2")).with("out", Json::text("/dl"));
    match s.dispatch("offer.fetch", &placed).unwrap() {
        Action::Fetch { out, .. } => assert_eq!(out, "/dl"),
        other => panic!("{other:?}"),
    }
}

#[test]
fn a_pick_starts_a_task_or_nothing() {
    let mut s = service();
    let _ = s.joined("t");
    let record = |hex: &str, name: &str| OfferRecord {
        blob_hash: hash(hex),
        name: name.to_string(),
        size: 12,
        media_type: None,
        metadata: Vec::new(),
        aliases: Vec::new(),
        local_status: LocalBlobStatus::Missing,
    };
    let records = vec![record("abcd", "a.txt"), record("ef01", "b.txt")];
    let (task, found) = s.fetch_picked("d1", &records, "2", None).unwrap();
    assert_eq!((task.as_str(), found.hex.as_str()), ("t1", "ef01"));
    let (e, p) = last_event(&s);
    assert_eq!((e.as_str(), p.text_at("state")), ("task.state", Some("running")));

    let e = s.fetch_picked("d1", &records, "zzz", None).unwrap_err();
    assert_eq!(
        (e.code.as_str(), e.msg.as_str()),
        ("not_found", "nothing here matches \"zzz\"; try `list`")
    );
    // The next task has the next number: none was started.
    assert_eq!(s.fetch_picked("d1", &records, "1", None).unwrap().0, "t2");
    let e = drop_not_found("d9");
    assert_eq!((e.code.as_str(), e.msg.as_str()), ("not_found", "no drop d9"));
}

#[test]
fn an_offer_without_a_ui_is_not_taken() {
    let mut s = service();
    let _ = s.joined("t");
    let event = DropEvent::OfferReceived { from: peer("them"), offer: offer("ab", "x", 9) };
    let (from, offer) = s.on_session_event("d1", &peer("me"), event, 0).unwrap();
    match s.seek_consent("d1", &from, &offer, &HashSet::new()) {
        ConsentStep::Settled(None) => {}
        other => panic!("{other:?}"),
    }
    assert!(s.conclude_consent("d1", &offer.blob_hash, None).is_none());
    let (e, p) = last_event(&s);
    assert_eq!((e.as_str(), p.text_at("reason")), ("offer.declined", Some("no consent")));
}

#[test]
fn our_own_offers_need_no_consent() {
    let mut s = service();
    let event = DropEvent::OfferReceived { from: peer("me"), offer: offer("ab", "x", 9) };
    assert!(s.on_session_event("d1", &peer("me"), event, 0).is_none());
    assert_eq!(last_event(&s).0, "offer.received");
}

#[test]
fn accepting_unasked_does_not_bypass_a_live_ui() {
    let mut s = service();
    s.options.auto_accept = true;
    let o = offer("ab", "x", 9);
    match s.seek_consent("d1", &peer("them"), &o, &HashSet::new()) {
        ConsentStep::Settled(Some(answer)) => assert_eq!(answer.flag_at("accept"), Some(true)),
        other => panic!("{other:?}"),
    }
    let first = Some(Frame::Req { id: 1, m: "hello".into(), p: Json::Null });
    let _ = s.greet(&first, Ok(Hello::ui("gui")));
    match s.seek_consent("d1", &peer("them"), &o, &HashSet::new()) {
        ConsentStep::Ask { token, frame: Frame::Ask { id, q, p } } => {
            assert_eq!((token, id, q.as_str()), (1, 1, "offer.accept"));
            assert_eq!(p.text_at("from"), Some("them"));
            assert_eq!(p.text_at("human_size"), Some("9 B"));
            assert_eq!(p.number_at("expires_in_ms"), Some(CONSENT_TIMEOUT));
            assert_eq!(p.flag_at("known"), Some(false));
        }
        other => panic!("{other:?}"),
    }
    let no = Some(Json::object().with("accept", Json::Bool(false)));
    assert!(s.conclude_consent("d1", &hash("ab"), no).is_none());
    assert_eq!(last_event(&s).1.text_at("reason"), Some("declined"));
    let yes = Some(Json::object().with("accept", Json::Bool(true)));
    let order = s.conclude_consent("d1", &hash("ab"), yes).unwrap();
    assert_eq!((order.task.as_str(), order.out.as_str()), ("t1", "."));
    let there = Json::object().with("accept", Json::Bool(true)).with("out", Json::text("/dl"));
    assert_eq!(s.conclude_consent("d1", &hash("ab"), Some(there)).unwrap().out, "/dl");
}

#[test]
fn a_departed_ui_is_not_asked_again() {
    let mut s = service();
    let first = Some(Frame::Req { id: 1, m: "hello".into(), p: Json::Null });
    let _ = s.greet(&first, Ok(Hello::ui("ghost")));
    let _ = s.greet(&first, Ok(Hello::ui("live")));
    let asked = |s: &mut Service, closed: &HashSet<u64>| match s.seek_consent(
        "d1",
        &peer("them"),
        &offer("ab", "x", 9),
        closed,
    ) {
        ConsentStep::Ask { token, .. } => Some(token),
        ConsentStep::Settled(_) => None,
    };
    // The latest one wins, and the one before takes over when it leaves.
    assert_eq!(asked(&mut s, &HashSet::new()), Some(2));
    s.detach(Some(2), &HashSet::new());
    assert_eq!(asked(&mut s, &HashSet::new()), Some(1));
    assert_eq!(asked(&mut s, &HashSet::from([1])), None);
    assert_eq!(asked(&mut s, &HashSet::new()), None);
}

#[test]
fn answers_reach_the_question() {
    let mut s = service();
    let first = Some(Frame::Req { id: 1, m: "hello".into(), p: Json::Null });
    let _ = s.greet(&first, Ok(Hello::ui("gui")));
    let _ = s.seek_consent("d1", &peer("them"), &offer("ab", "x", 9), &HashSet::new());
    match s.on_frame(Frame::Res { id: 1, p: Json::Null }) {
        FrameStep::Answer { id, result, waiting } => {
            assert_eq!((id, result.is_ok(), waiting), (1, true, true));
        }
        other => panic!("{other:?}"),
    }
    match s.on_frame(Frame::Failure { id: 1, code: "declined".into(), msg: "no".into() }) {
        FrameStep::Answer { result, waiting, .. } => {
            assert_eq!(result.unwrap_err().message(), "declined: no");
            assert!(!waiting);
        }
        other => panic!("{other:?}"),
    }
    match s.on_frame(Frame::Req { id: 4, m: "drop.list".into(), p: Json::Null }) {
        FrameStep::Call { id, m, .. } => assert_eq!((id, m.as_str()), (4, "drop.list")),
        other => panic!("{other:?}"),
    }
    let ev = Frame::Ev { seq: 1, e: "x".into(), p: Json::Null };
    assert!(matches!(s.on_frame(ev), FrameStep::Ignore));
}

#[test]
fn silence_and_errors_are_not_consent() {
    let mut asks = AskRouter::new();
    assert!(!asks.has_live_ui(&HashSet::new()));
    assert!(asks.ask("q", Json::Null, &HashSet::new()).is_none());
    let ui = asks.register_ui();
    assert!(asks.has_live_ui(&HashSet::new()));
    assert!(!asks.has_live_ui(&HashSet::from([ui])));
    for outcome in [
        AskOutcome::TimedOut,
        AskOutcome::Undelivered,
        AskOutcome::Refused(ApiError::new("declined", "no")),
    ] {
        assert!(asks.settle(1, outcome).is_none());
    }
    assert!(asks.settle(1, AskOutcome::Answered(Json::Bool(true))).is_some());
    asks.unregister_ui(ui);
    assert!(!asks.has_live_ui(&HashSet::new()));
}

#[test]
fn progress_is_thinned_out_but_never_sticks() {
    let mut s = service();
    let event = |downloaded: u64| DropEvent::FetchProgress {
        hash: hash("ab"),
        downloaded,
        total: Some(100),
    };
    let count = |s: &Service| s.bus.replay(0).0.len();
    let me = peer("me");
    let _ = s.on_session_event("d1", &me, event(1), 0);
    assert_eq!(count(&s), 1);
    let _ = s.on_session_event("d1", &me, event(2), PROGRESS_INTERVAL - 1);
    assert_eq!(count(&s), 1);
    let _ = s.on_session_event("d1", &me, event(100), PROGRESS_INTERVAL - 1);
    assert_eq!(count(&s), 2);
    let _ = s.on_session_event("d1", &me, event(3), PROGRESS_INTERVAL);
    assert_eq!(count(&s), 3);
    let done = DropEvent::FetchCompleted { hash: hash("ab"), provider: peer("them") };
    let _ = s.on_session_event("d1", &me, done, PROGRESS_INTERVAL);
    assert_eq!(last_event(&s).0, "fetch.completed");
    let _ = s.on_session_event("d1", &me, event(4), PROGRESS_INTERVAL);
    assert_eq!(count(&s), 5);
}

#[test]
fn session_events_have_names() {
    let mut s = service();
    let me = peer("me");
    let (h, them) = (|| hash("ab"), || peer("them"));
    let events = vec![
        (DropEvent::PeerJoined { peer: them() }, "peer.joined"),
        (DropEvent::PeerLeft { peer: them() }, "peer.left"),
        (DropEvent::OfferRejected { from: them(), reason: "r".into() }, "offer.rejected"),
        (DropEvent::FetchStarted { hash: h(), provider: them() }, "fetch.started"),
        (DropEvent::FetchFailed { hash: h(), error: "e".into() }, "fetch.failed"),
        (DropEvent::ProviderAvailable { hash: h(), peer: them() }, "provider.available"),
        (DropEvent::ProviderUnavailable { hash: h(), peer: them() }, "provider.unavailable"),
        (
            DropEvent::ProtocolWarning { source: None, warning: "w".into(), kind: WarningKind::Other },
            "protocol.warning",
        ),
    ];
    for (event, name) in events {
        let _ = s.on_session_event("d1", &me, event, 0);
        let (e, p) = last_event(&s);
        assert_eq!((e.as_str(), p.text_at("drop")), (name, Some("d1")));
    }
    let before = s.bus.current();
    let _ = s.on_session_event("d1", &me, DropEvent::Other { shown: "new".into() }, 0);
    assert_eq!(s.bus.current(), before);
}

#[test]
fn the_log_is_complete_or_says_so() {
    let mut bus = EventBus::new();
    assert_eq!(bus.current(), 1);
    for i in 0..EVENT_RING as u64 + 2 {
        assert_eq!(bus.emit("e", Json::Unsigned(i)), i + 1);
    }
    let (events, truncated) = bus.replay(0);
    assert_eq!(events.len(), EVENT_RING);
    assert!(truncated);
    assert_eq!(events[0].seq, 3);
    let (events, truncated) = bus.replay(4_000);
    assert!(!truncated);
    assert_eq!(events[0].seq, 4_000);
    assert_eq!(events.len(), EVENT_RING + 3 - 4_000);
    match lagged(12) {
        Frame::Ev { seq, e, p } => {
            assert_eq!((seq, e.as_str(), p.number_at("missed")), (0, "events.truncated", Some(12)));
        }
        other => panic!("{other:?}"),
    }
}

#[test]
fn replay_is_a_method() {
    let mut s = service();
    let _ = s.joined("t");
    match s.dispatch("events.replay", &Json::object().with("from", Json::Unsigned(0))).unwrap() {
        Action::Reply(p) => {
            assert_eq!(p.flag_at("truncated"), Some(false));
            let events = p.list_at("events").unwrap();
            assert_eq!(events.len(), 1);
            assert_eq!(events[0].text_at("e"), Some("drop.joined"));
        }
        other => panic!("{other:?}"),
    }
}

#[test]
fn nothing_is_fetched_before_somebody_says_yes() {
    let base = DropPolicy {
        auto_fetch: true,
        max_blob_size: 5,
        max_total_auto_fetch_bytes: 6,
        output_directory: "elsewhere".into(),
    };
    let (stack, policy) = ServiceOptions::default().protocol_setup(base);
    assert!(!policy.auto_fetch);
    assert_eq!(policy.output_directory, ".");
    assert_eq!((policy.max_blob_size, policy.max_total_auto_fetch_bytes), (5, 6));
    assert!(stack.mdns && !stack.offline);
}

#[test]
fn drops_come_back_after_a_restart() {
    let mut before = service();
    let _ = before.created(Some("slides".into()), "t0", "x");
    let _ = before.joined("t1");
    let kept: Vec<PersistedDrop> = before
        .handles()
        .iter()
        .map(|handle| before.persisted(handle, "drop2full").unwrap())
        .collect();
    assert!(before.persisted("d9", "drop2full").is_none());
    assert_eq!(kept[0].name.as_deref(), Some("slides"));
    assert_eq!((kept[0].mine, kept[1].mine), (true, false));
    assert_eq!(kept[1].ticket, "drop2full");

    let mut after = service();
    for row in kept {
        after.restore(row, "t");
        assert_eq!(last_event(&after).0, "drop.joined");
    }
    assert_eq!(after.handles(), ["d1", "d2"]);
    // A new drop does not take an old handle.
    assert_eq!(after.joined("t3").text_at("drop"), Some("d3"));
    let odd = PersistedDrop {
        handle: "mine".into(),
        name: None,
        mine: false,
        ticket: "t".into(),
    };
    after.restore(odd, "t");
    assert_eq!(after.joined("t4").text_at("drop"), Some("d4"));
}

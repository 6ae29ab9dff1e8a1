//! The desktop app's state, and what its window says.

use iroh_drop_core::bridge::{
    available_in, dirs_download, embedded_options, helper_args, next_tier, parse_app_args,
    send_label, tier_failure, Cmd, SendPath, Tier, TierStep, Transfer, UiRun, UiStep, Worker,
    MAX_NOTES, RECEIVE_GRACE, RECEIVE_WAIT,
};
use iroh_drop_core::client::AskRequest;
use iroh_drop_core::frame::{ApiError, Envelope};
use iroh_drop_core::json::Json;
use iroh_drop_core::qr::{place, print_qr, printed, show, Modules};
use iroh_drop_core::size::human_parts;
use iroh_drop_core::window::{
    any_finished, available_line, can_receive, card_context, card_title, copy_label, error_line,
    get_label, group_line, key_of, leave_label, nothing_yet, progress_label, recently_copied,
    send_hint, share_heading, status_tip, still_getting, transfer_rows, TransferRow,
};

const FIRST: &str = "drop1aimfofis3yfxv6oqyama7hct5hgil7ozmrwh4u7ryd6ihbtadeesuaitapjhbfsnoh";

fn path(p: &str) -> SendPath {
    SendPath { text: Some(p.to_string()), shown: p.to_string() }
}

fn event(e: &str, p: Json) -> Envelope {
    Envelope { seq: 1, e: e.to_string(), p }
}

fn ask(id: u64, drop: &str) -> AskRequest {
    let p = Json::object()
        .with("drop", Json::text(drop))
        .with("name", Json::text("x.txt"))
        .with("human_size", Json::text("1 B"))
        .with("from", Json::text("0123456789abcdef"))
        .with("expires_in_ms", Json::Unsigned(10_000));
    AskRequest { id, q: "offer.accept".into(), p }
}

fn call(step: UiStep) -> (String, Json, UiRun) {
    match step {
        UiStep::Call { method, params, run } => (method, params, run),
        other => panic!("{other:?}"),
    }
}

#[test]
fn falls_back_to_hosting_in_process() {
    let mut worker = Worker::new();
    let mut tier = Tier::Running;
    let hosting = loop {
        // No daemon answers and there is no helper to start.
        match next_tier(tier, tier == Tier::Embedded) {
            TierStep::Try(next) => tier = next,
            TierStep::Connected { hosting, .. } => break hosting,
            other => panic!("{other:?}"),
        }
    };
    assert!(hosting);
    worker.on_hosting();
    worker.on_connected(&Json::object(), false);
    let state = &worker.state;
    assert!(state.connected);
    assert!(state.error.is_none(), "fallback must not surface an error");
    assert!(
        state.log.iter().any(|line| line.contains("hosting")),
        "the user must be told the window is doing the hosting: {:?}",
        state.log
    );
}

#[test]
fn a_helper_is_started_before_hosting() {
    assert_eq!(next_tier(Tier::Running, false), TierStep::Try(Tier::Start));
    assert_eq!(next_tier(Tier::Start, true), TierStep::Try(Tier::Started));
    assert_eq!(
        next_tier(Tier::Started, true),
        TierStep::Connected { started_helper: true, hosting: false }
    );
    assert_eq!(next_tier(Tier::Started, false), TierStep::HelperSilent);
    assert_eq!(next_tier(Tier::Embedded, false), TierStep::CannotStart);
    assert_eq!(
        tier_failure(TierStep::HelperSilent, "x").as_deref(),
        Some("the background helper did not answer: x")
    );
    assert_eq!(tier_failure(TierStep::CannotStart, "x").as_deref(), Some("cannot start: x"));
    assert_eq!(tier_failure(TierStep::Try(Tier::Start), "x"), None);
    assert_eq!(helper_args(&None, false), ["--accept-when-no-ui"]);
    assert_eq!(
        helper_args(&Some("/s".into()), true),
        ["--accept-when-no-ui", "--lan-only", "--socket", "/s"]
    );
    assert_eq!(dirs_download(&Some("/h".into()), true), "/h/Downloads/iroh-drop");
    assert_eq!(dirs_download(&Some("/h".into()), false), "iroh-drop-downloads");
    let options = embedded_options("/dl".into(), true);
    assert!(options.offline && options.mdns && !options.auto_accept);
    assert!(options.store_path.is_none());
}

#[test]
fn the_app_understands_its_arguments() {
    let parse = |args: &[&str]| {
        let args = parse_app_args(&args.iter().map(|a| a.to_string()).collect());
        (args.socket, args.lan_only)
    };
    assert_eq!(parse(&[]), (None, false));
    assert_eq!(parse(&["--lan-only", "x", "--socket", "/s"]), (Some("/s".into()), true));
    assert_eq!(parse(&["--socket", "/s", "--socket"]), (None, false));
    assert_eq!(parse(&["--socket", "--lan-only"]), (Some("--lan-only".into()), false));
}

#[test]
fn sending_ends_with_a_link() {
    let mut worker = Worker::new();
    let step = worker.begin(Cmd::Send(vec![path("/x/a.txt"), path("/x/b.txt")]));
    assert_eq!(worker.state.busy.as_deref(), Some("Preparing…"));
    let (method, params, run) = call(step);
    assert_eq!((method.as_str(), params.text_at("name")), ("drop.create", Some("a.txt +1")));
    let created = Json::object().with("drop", Json::text("d1"));
    let (method, params, run) = call(worker.on_reply(run, Ok(created), 0));
    assert_eq!((method.as_str(), params.text_at("path")), ("offer.publish", Some("/x/a.txt")));
    let (_, params, run) = call(worker.on_reply(run, Ok(Json::object()), 0));
    assert_eq!(params.text_at("path"), Some("/x/b.txt"));
    let (method, params, run) = call(worker.on_reply(run, Ok(Json::object()), 0));
    assert_eq!((method.as_str(), params.text_at("drop")), ("drop.ticket", Some("d1")));
    let ticket = Json::object().with("link", Json::text("iroh-drop://receive/x"));
    assert!(matches!(worker.on_reply(run, Ok(ticket), 0), UiStep::Done));
    assert_eq!(worker.state.share_link.as_deref(), Some("iroh-drop://receive/x"));
    assert_eq!(worker.state.busy, None);
    assert_eq!(worker.state.log.last().unwrap(), "Ready to share 2 item(s).");
}

#[test]
fn sending_can_fail() {
    let mut worker = Worker::new();
    let odd = SendPath { text: None, shown: "?".into() };
    let (_, _, run) = call(worker.begin(Cmd::Send(vec![odd])));
    assert!(matches!(worker.on_reply(run, Ok(Json::object()), 0), UiStep::Done));
    assert_eq!(worker.state.error.as_deref(), Some("that path is not valid text"));
    let (_, _, run) = call(worker.begin(Cmd::Send(vec![path("/a")])));
    assert_eq!(worker.state.error, None);
    let _ = worker.on_reply(run, Err(ApiError::new("internal", "no disk")), 0);
    assert_eq!(worker.state.error.as_deref(), Some("no disk"));
    assert_eq!(worker.state.busy, None);
    assert_eq!(send_label(&vec![path("/x/a")]), "a");
    assert_eq!(send_label(&vec![path("/")]), "files");
    assert_eq!(send_label(&Vec::new()), "files");
}

#[test]
fn asking_for_a_drop_is_consent_for_a_while() {
    let mut worker = Worker::new();
    let pasted = format!("here you go: {FIRST}");
    let (method, params, run) = call(worker.begin(Cmd::Receive(pasted)));
    assert_eq!((method.as_str(), params.text_at("ticket")), ("drop.join", Some(FIRST)));
    let joined = Json::object().with("drop", Json::text("d1"));
    let (method, _, run) = call(worker.on_reply(run, Ok(joined), 1_000));
    assert_eq!(method, "offer.list");
    let nothing = Json::object().with("items", Json::list(Vec::new()));
    let run = match worker.on_reply(run, Ok(nothing), 1_000) {
        UiStep::Pause { run } => run,
        other => panic!("{other:?}"),
    };
    let (_, _, run) = call(Worker::look_again(run));
    let items = Json::object().with("items", Json::list(vec![Json::Null]));
    assert!(matches!(worker.on_reply(run, Ok(items), 2_000), UiStep::Done));

    match worker.on_ask(ask(5, "d1"), 2_000 + RECEIVE_GRACE - 1) {
        UiStep::Answer { id, answer } => {
            assert_eq!((id, answer.unwrap().flag_at("accept")), (5, Some(true)));
        }
        other => panic!("{other:?}"),
    }
    assert!(worker.state.incoming.is_empty());
    // Later, and for any other drop, a person is asked.
    assert!(matches!(worker.on_ask(ask(6, "d1"), 2_000 + RECEIVE_GRACE), UiStep::Done));
    assert!(matches!(worker.on_ask(ask(7, "d2"), 2_000), UiStep::Done));
    assert_eq!(worker.state.incoming.len(), 2);
}

#[test]
fn receiving_can_fail() {
    let mut worker = Worker::new();
    assert!(matches!(worker.begin(Cmd::Receive("hello".into())), UiStep::Done));
    assert_eq!(
        worker.state.error.as_deref(),
        Some("that does not look like an iroh-drop link")
    );
    let (_, _, run) = call(worker.begin(Cmd::Receive(FIRST.into())));
    let joined = Json::object().with("drop", Json::text("d1"));
    let (_, _, run) = call(worker.on_reply(run, Ok(joined), 0));
    let step = worker.on_reply(run, Ok(Json::object()), RECEIVE_WAIT + 1);
    assert!(matches!(step, UiStep::Done));
    assert_eq!(
        worker.state.error.as_deref(),
        Some("nobody offered anything in that drop")
    );
    let _ = worker.begin(Cmd::DismissError);
    assert_eq!(worker.state.error, None);
    worker.on_lost();
    assert_eq!(worker.state.error.as_deref(), Some("the daemon went away"));
    assert!(!worker.state.connected);
    worker.fail("odd".into());
    assert_eq!(worker.state.error.as_deref(), Some("odd"));
}

#[test]
fn cards_go_when_they_are_answered_or_expire() {
    let mut worker = Worker::new();
    let _ = worker.on_ask(ask(1, "d1"), 1_000);
    let _ = worker.on_ask(ask(2, "d1"), 1_000);
    let card = &worker.state.incoming[0];
    assert_eq!(card.from, "0123456789");
    // Two seconds less than the daemon says.
    assert_eq!(card.expires_at, 9_000);
    assert_eq!(card_title(card), "\"x.txt\"   1 B");
    assert_eq!(card_context(card, &Vec::new(), 1_500), "from 0123456789  •  expires in 0:07");
    match worker.begin(Cmd::Answer { id: 1, accept: false }) {
        UiStep::Answer { id, answer } => assert!(id == 1 && answer.is_none()),
        other => panic!("{other:?}"),
    }
    assert_eq!(worker.state.log.last().unwrap(), "Declined.");
    assert_eq!(worker.state.incoming.len(), 1);
    assert!(!worker.state.prune(8_999));
    assert!(worker.state.prune(9_000));
    assert!(worker.state.incoming.is_empty());
    assert_eq!(
        worker.state.log.last().unwrap(),
        "An offer expired before anyone answered it."
    );
}

#[test]
fn transfers_follow_the_events() {
    let mut worker = Worker::new();
    let hash = || Json::object().with("hash", Json::text("ab"));
    worker.apply_event(&event("offer.received", hash().with("name", Json::text("dog.jpg"))));
    worker.apply_event(&event(
        "fetch.progress",
        hash()
            .with("drop", Json::text("d1"))
            .with("downloaded", Json::Unsigned(512))
            .with("total", Json::Unsigned(2048)),
    ));
    assert_eq!(worker.state.transfers.len(), 1);
    assert_eq!(
        progress_label(&worker.state.transfers[0]).as_deref(),
        Some("512 B of 2.0 KiB")
    );
    match &transfer_rows(&worker.state.transfers)[0] {
        TransferRow::Running { label, progress } => {
            assert_eq!(label, "\"dog.jpg\"");
            assert_eq!(progress.as_deref(), Some("512 B of 2.0 KiB"));
        }
        other => panic!("{other:?}"),
    }
    let saved = hash().with("paths", Json::list(vec![Json::text("/dl/dog.jpg"), Json::Null]));
    worker.apply_event(&event("fetch.materialized", saved));
    assert_eq!(worker.state.transfers[0].saved_to, ["/dl/dog.jpg"]);
    assert!(any_finished(&worker.state.transfers));
    match &transfer_rows(&worker.state.transfers)[0] {
        TransferRow::Finished { label, folder } => {
            assert_eq!((label.as_str(), folder.as_deref()), ("✓ \"dog.jpg\"", Some("/dl")));
        }
        other => panic!("{other:?}"),
    }
    // The same name again is another transfer.
    worker.apply_event(&event("fetch.progress", hash()));
    let failed = hash().with("error", Json::text(&"x".repeat(41)));
    worker.apply_event(&event("fetch.failed", failed));
    match &transfer_rows(&worker.state.transfers)[0] {
        TransferRow::Failed { label, why, retry } => {
            assert_eq!(label, "⚠ \"dog.jpg\"");
            assert_eq!(why, &format!("{}…", "x".repeat(39)));
            assert!(!retry);
        }
        other => panic!("{other:?}"),
    }
    let _ = worker.begin(Cmd::ClearFinished);
    assert!(worker.state.transfers.is_empty());
    worker.apply_event(&event("fetch.failed", hash().with("error", Json::text("e"))));
    assert_eq!(worker.state.log.last().unwrap(), "Could not get dog.jpg: e");
    worker.apply_event(&event("offer.declined", Json::object()));
    worker.apply_event(&event("peer.joined", Json::object()));
    assert_eq!(worker.state.log.last().unwrap(), "Someone connected.");
}

#[test]
fn notes_do_not_pile_up() {
    let mut worker = Worker::new();
    for i in 0..MAX_NOTES + 5 {
        worker.state.note(&i.to_string());
    }
    assert_eq!(worker.state.log.len(), MAX_NOTES);
    assert_eq!(worker.state.log[0], "5");
}

#[test]
fn progress_names_a_common_unit_once() {
    let transfer = |done: u64, total: Option<u64>| Transfer {
        drop: String::new(),
        name: "a".into(),
        done,
        total,
        finished: false,
        failed: None,
        saved_to: vec![],
    };
    let said = |done, total| progress_label(&transfer(done, total));
    assert_eq!(said(1_572_864, Some(3_145_728)).as_deref(), Some("1.5 of 3.0 MiB"));
    assert_eq!(said(0, Some(12)).as_deref(), Some("0 of 12 B"));
    assert_eq!(said(1000, Some(3_145_728)).as_deref(), Some("1000 B of 3.0 MiB"));
    assert_eq!(said(1_572_864, None), None);
    assert_eq!(said(1_572_864, Some(0)), None);
    assert_eq!(human_parts(1_572_864), ("1.5".to_string(), " MiB"));
}

#[test]
fn the_listing_shows_groups_and_what_is_missing() {
    let mut worker = Worker::new();
    assert!(nothing_yet(&worker.state));
    let status = Json::object()
        .with("offline", Json::Bool(true))
        .with("download_dir", Json::text("/dl"));
    let drop = Json::object()
        .with("drop", Json::text("d1"))
        .with("name", Json::text("album"))
        .with("offers", Json::Unsigned(3))
        .with("peers", Json::Unsigned(0));
    let listed = Json::object().with("drops", Json::list(vec![drop]));
    worker.apply_status(&Some(status), &Some(listed));
    assert!(worker.state.lan_only);
    assert_eq!(group_line(&worker.state.drops[0]), "album  — 3 file(s), waiting");
    assert!(worker.state.drops[0].mine);
    assert!(!nothing_yet(&worker.state));

    let item = |n: u64, status: &str| {
        Json::object()
            .with("n", Json::Unsigned(n))
            .with("status", Json::text(status))
            .with("name", Json::text("a.txt"))
            .with("human_size", Json::text("3 B"))
    };
    let items = Json::list(vec![item(1, "available"), item(2, "missing"), item(3, "fetching")]);
    let rows = available_in(&Json::object().with("items", items), "d1", "album");
    assert_eq!(rows.len(), 1);
    // What could not be fetched can be tried again.
    let failed = Json::list(vec![item(4, "failed")]);
    let again = available_in(&Json::object().with("items", failed), "d1", "album");
    assert_eq!(again[0].pick, "4");
    assert_eq!(available_line(&rows[0]), "\"a.txt\"  — 3 B in album");
    assert_eq!(key_of(&rows[0]), "d1/2");
    let asked = vec!["d1/2".to_string(), "d1/9".to_string()];
    assert_eq!(still_getting(&asked, &rows), ["d1/2"]);
    worker.apply_available(rows);
    let (method, params, run) = call(worker.begin(Cmd::Fetch {
        drop: "d1".into(),
        pick: "2".into(),
        name: "a.txt".into(),
    }));
    assert_eq!((method.as_str(), params.text_at("pick")), ("offer.fetch", Some("2")));
    let _ = worker.on_reply(run, Err(ApiError::new("not_found", "gone")), 0);
    assert_eq!(worker.state.error.as_deref(), Some("gone"));
}

#[test]
fn groups_can_be_shared_again_and_left() {
    let mut worker = Worker::new();
    let (method, _, run) =
        call(worker.begin(Cmd::Ticket { handle: "d1".into(), name: "album".into() }));
    assert_eq!(method, "drop.ticket");
    let ticket = Json::object().with("link", Json::text("L"));
    let _ = worker.on_reply(run, Ok(ticket), 0);
    assert_eq!(worker.state.share_link.as_deref(), Some("L"));
    assert_eq!(share_heading(&worker.state.share_link_name), "Ready to send — \"album\"");
    assert_eq!(share_heading(&None), "Ready to send");
    let (method, params, run) = call(worker.begin(Cmd::Forget("d1".into())));
    assert_eq!((method.as_str(), params.text_at("drop")), ("drop.leave", Some("d1")));
    let _ = worker.on_reply(run, Err(ApiError::new("x", "y")), 0);
    assert_eq!(worker.state.error, None);
    let (_, params, _) =
        call(worker.begin(Cmd::Retry { drop: "d1".into(), name: "a".into() }));
    assert_eq!(params.text_at("pick"), Some("a"));
}

#[test]
fn the_window_uses_few_words() {
    assert_eq!((status_tip(true), status_tip(false)), ("Ready", "Not connected"));
    assert_eq!(error_line("x"), "⚠ x");
    assert_eq!(send_hint(true), "Release to send");
    assert_eq!((copy_label(true), copy_label(false)), ("Copied ✓", "Copy link"));
    assert_eq!((get_label(true), get_label(false)), ("Getting…", "Get"));
    assert_eq!((leave_label(true), leave_label(false)), ("Stop", "Leave"));
    assert!(recently_copied(Some(1_000), 2_999));
    assert!(!recently_copied(Some(1_000), 3_000));
    assert!(!recently_copied(None, 0));
    assert!(can_receive(FIRST));
    assert!(!can_receive("drop1short"));
}

#[test]
fn a_code_has_a_light_border() {
    let m = Modules { dark: vec![true, false, false, true], width: 2 };
    let painting = place(&m);
    assert_eq!(painting.side, 6);
    assert_eq!(painting.cells, [(2, 2), (3, 3)]);

    let shown = show("iroh-drop://receive/x").unwrap();
    let code = qrcode::QrCode::with_error_correction_level(
        "iroh-drop://receive/x".as_bytes(),
        qrcode::EcLevel::L,
    )
    .unwrap();
    assert_eq!(shown.side, code.width() + 4);
    let dark = code.to_colors().iter().filter(|c| **c == qrcode::Color::Dark).count();
    assert_eq!(shown.cells.len(), dark);
    assert!(shown.cells.iter().all(|(x, y)| {
        (2..shown.side - 2).contains(x) && (2..shown.side - 2).contains(y)
    }));
    assert!(show(&"x".repeat(10_000)).is_none());
}

#[test]
fn a_terminal_shows_codes_too() {
    let drawn = print_qr("drop2abc");
    assert!(drawn.starts_with('\n'));
    assert!(drawn.contains('█'));
    assert!(print_qr(&"x".repeat(10_000)).starts_with("! could not render a QR code: "));
    assert_eq!(printed(Ok("x".into())), "\nx");
}

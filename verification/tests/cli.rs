//! What the command line does and says.

use iroh_drop_core::cli::{
    browse_options, command, config_lines, describe_published, forget_room, found_line,
    kept_ticket, nearby_lines, no_files, parse_add, parse_get, pick_nearby, qr_source,
    read_ticket, receive_dir, report_member, report_saved, resolve_source, room_line,
    room_to_remember, rooms_lines, start, still_serving, ticket_file, ticket_kept,
    ticket_written, typed, unknown_command, unread_ticket, wanted, who, Awaiting, CommonArgs,
    Look, PromptCommand, Remembered, Source,
};
use iroh_drop_core::collections::{MemberProgress, Published, PublishedBlob};
use iroh_drop_core::commands::{
    attach_failed, consent, drops_counted, drops_listed, join_call, join_done, missed,
    print_event, prompt, socket_arg, watch_begins, watch_hello, DropsQuery, Getting, Leaving,
    Located, Next, OutDir, Sending, Shown, Step,
};
use iroh_drop_core::config::{Config, DropPolicy, Environment};
use iroh_drop_core::frame::{ApiError, Role};
use iroh_drop_core::ids::{BlobHash, PeerId};
use iroh_drop_core::inventory::{inventory, InventoryItem, LocalBlobStatus, OfferRecord};
use iroh_drop_core::json::Json;
use iroh_drop_core::nearby::NearbyDrop;
use iroh_drop_core::rooms::Rooms;
use iroh_drop_core::service::{DropEvent, Offer, WarningKind};
use iroh_drop_core::terminal::{banner, describe_status, print_listing, EventLog};
use iroh_drop_core::ticket::app_link;

const TICKET: &str = "drop2aimfofis3yfxv6oqyama7hct5hgil7ozmrwh4u7ryd6ihbtadeesuaitapjhbfsnoh";

fn hash(hex: &str) -> BlobHash {
    BlobHash { hex: hex.to_string(), short: hex.chars().take(4).collect() }
}

fn peer(id: &str) -> PeerId {
    PeerId { id: id.to_string(), short: id.chars().take(4).collect() }
}

fn strings(texts: &[&str]) -> Vec<String> {
    texts.iter().map(|t| t.to_string()).collect()
}

fn record(hex: &str, name: &str, size: u64, status: LocalBlobStatus) -> OfferRecord {
    OfferRecord {
        blob_hash: hash(hex),
        name: name.to_string(),
        size,
        media_type: None,
        metadata: Vec::new(),
        aliases: Vec::new(),
        local_status: status,
    }
}

fn items() -> Vec<InventoryItem> {
    inventory(&vec![
        record("abcd00", "note.txt", 12, LocalBlobStatus::Missing),
        record("ef0000", "ef0000", 300, LocalBlobStatus::Complete),
    ])
}

fn args() -> CommonArgs {
    CommonArgs {
        dir: None,
        store: None,
        identity: None,
        ephemeral: false,
        offline: false,
        mdns: false,
        full_ticket: false,
        auto: false,
        name: Some("mine".into()),
        verbose: false,
    }
}

fn limits() -> DropPolicy {
    DropPolicy {
        auto_fetch: true,
        max_blob_size: 1,
        max_total_auto_fetch_bytes: 1,
        output_directory: "x".into(),
    }
}

fn environment() -> Environment {
    Environment {
        home: Some("/home/me".into()),
        data_home: None,
        config_home: None,
        runtime_dir: None,
    }
}

fn config() -> Config {
    let mut config = Config::default_for(&environment(), &limits());
    config.max_auto_blob_size = 1024;
    config.max_auto_total_bytes = 2048;
    config
}

fn call(step: &Step) -> (&str, &Json) {
    match &step.next {
        Next::Call { method, params } => (method, params),
        other => panic!("{other:?}"),
    }
}

fn failure(step: &Step) -> &str {
    match &step.next {
        Next::Fail { message, .. } => message,
        other => panic!("{other:?}"),
    }
}

fn refusal() -> Result<Json, ApiError> {
    Err(ApiError::new("not_found", "gone"))
}

#[test]
fn the_banner_shows_the_one_string_needed() {
    let lines = banner(&peer("abcdef"), TICKET, "relays", &None, "/dl");
    assert_eq!(lines.len(), 13);
    assert_eq!(lines[0], "─".repeat(66));
    assert_eq!(lines[1], "  you      abcd");
    assert_eq!(lines[3], "  keeping  memory only (nothing survives exit)");
    assert_eq!(lines[9], format!("    {TICKET}"));
    let lines = banner(&peer("abcdef"), TICKET, "relays", &Some("/store".into()), "/dl");
    assert_eq!(lines[3], "  keeping  /store");
}

#[test]
fn the_listing_is_numbered() {
    let lines = print_listing(&items());
    assert_eq!(lines[0], "  #  name                                   size  status");
    assert_eq!(lines[1], "  1  note.txt                               12 B  file, available");
    assert_eq!(lines[4], "Fetch with:  get <#>   (or a name)");
    assert_eq!(
        print_listing(&Vec::new()),
        ["Nothing here yet. Files show up as peers offer them."]
    );
    let status = |status: LocalBlobStatus| {
        describe_status(&inventory(&vec![record("ab", "x", 1, status)])[0])
    };
    assert_eq!(status(LocalBlobStatus::Complete), "file, have it");
    assert_eq!(
        status(LocalBlobStatus::Fetching { downloaded: 1, total: Some(3) }),
        "file, getting 33%"
    );
    assert_eq!(
        status(LocalBlobStatus::Fetching { downloaded: 1, total: Some(0) }),
        "file, getting"
    );
    assert_eq!(status(LocalBlobStatus::Other("odd".into())), "file, odd");
}

#[test]
fn the_log_speaks_of_names() {
    let mut log = EventLog::new();
    let mut line = |event: DropEvent, verbose: bool| log.print_event(&event, &items(), verbose);
    let them = || peer("themselves");
    assert_eq!(line(DropEvent::PeerJoined { peer: them() }, false).unwrap(), "· them joined");
    assert_eq!(line(DropEvent::PeerLeft { peer: them() }, false).unwrap(), "· them left");
    let offer = Offer {
        blob_hash: hash("abcd00"),
        name: "note.txt".into(),
        size: 12,
        media_type: None,
        metadata: Vec::new(),
    };
    assert_eq!(
        line(DropEvent::OfferReceived { from: them(), offer }, false).unwrap(),
        "· them offers \"note.txt\" (file, 12 B)"
    );
    let started = |hex: &str| DropEvent::FetchStarted { hash: hash(hex), provider: them() };
    assert_eq!(line(started("abcd00"), false).unwrap(), "↓ getting \"note.txt\" from them");
    // A blob without a name of its own is a collection member.
    assert_eq!(line(started("ef0000"), false), None);
    assert_eq!(line(started("ef0000"), true).unwrap(), "↓ getting ef00 from them");
    let done = DropEvent::FetchCompleted { hash: hash("abcd00"), provider: them() };
    assert_eq!(line(done, false).unwrap(), "✔ got \"note.txt\" from them");
    let failed = DropEvent::FetchFailed { hash: hash("abcd00"), error: "e".into() };
    assert_eq!(line(failed, false).unwrap(), "✗ \"note.txt\" failed: e");
    let serves = || DropEvent::ProviderAvailable { hash: hash("abcd00"), peer: them() };
    assert_eq!(line(serves(), false), None);
    assert_eq!(line(serves(), true).unwrap(), "· them also serves \"note.txt\"");
    let stops = DropEvent::ProviderUnavailable { hash: hash("99"), peer: them() };
    assert_eq!(line(stops, true).unwrap(), "· them stopped serving 99");
    let rejected = DropEvent::OfferRejected { from: them(), reason: "big".into() };
    assert_eq!(line(rejected, false).unwrap(), "! ignored a message from them: big");
    let warning = |kind: WarningKind| DropEvent::ProtocolWarning {
        source: Some(them()),
        warning: "slow down".into(),
        kind,
    };
    assert_eq!(line(warning(WarningKind::Other), false), None);
    assert_eq!(line(warning(WarningKind::Other), true).unwrap(), "! slow down (from them)");
    for kind in [WarningKind::RateLimited, WarningKind::InventoryEvicted] {
        assert_eq!(line(warning(kind), false).unwrap(), "! slow down (from them)");
    }
    let other = || DropEvent::Other { shown: "New".into() };
    assert_eq!(line(other(), false), None);
    assert_eq!(line(other(), true).unwrap(), "· New");
}

#[test]
fn progress_is_mentioned_every_quarter() {
    let mut log = EventLog::new();
    let mut line = |downloaded: u64, total: u64| {
        let event = DropEvent::FetchProgress {
            hash: hash("abcd00"),
            downloaded,
            total: Some(total),
        };
        log.print_event(&event, &items(), false)
    };
    let total = 4 * 1_048_576;
    assert_eq!(line(1_048_575, total), None);
    assert_eq!(
        line(1_048_576, total).unwrap(),
        "↓ \"note.txt\" 25% (1.0 MiB of 4.0 MiB)"
    );
    assert_eq!(line(1_048_577, total), None);
    assert!(line(3 * 1_048_576, total).is_some());
    assert_eq!(line(3 * 1_048_576 + 1, total), None);
    assert!(line(total, total).is_some());
    // Small transfers are not worth a line.
    assert_eq!(line(1_048_576, 1_048_576), None);
    assert_eq!(line(0, 0), None);
}

#[test]
fn a_session_is_set_up_from_arguments_and_config() {
    let plan = start(&args(), &config(), limits(), false, true);
    assert_eq!(plan.dirs.len(), 3);
    assert_eq!(plan.options.store_path, Some(config().store_path));
    assert!(!plan.options.mdns && plan.wait_online);
    assert!(!plan.policy.auto_fetch);
    assert_eq!(plan.policy.max_blob_size, 1024);
    let create = plan.create.unwrap();
    assert_eq!(create.display_name.as_deref(), Some("mine"));
    assert!(create.private && !create.auto_fetch_recommended);
    assert_eq!(plan.ctx.out_dir, config().download_dir);
    assert_eq!(plan.ctx.mode, "relays + public lookup");
    assert!(plan.ctx.short_tickets && !plan.ctx.joined);

    let mut offline = args();
    offline.offline = true;
    offline.ephemeral = true;
    offline.full_ticket = true;
    offline.dir = Some("/here".into());
    offline.store = Some("/s".into());
    let plan = start(&offline, &config(), limits(), true, false);
    assert!(plan.dirs.is_empty());
    assert_eq!(plan.options.store_path.as_deref(), Some("/s"));
    assert_eq!(plan.options.identity_path, None);
    assert!(plan.options.mdns && plan.options.offline && !plan.wait_online);
    assert!(plan.create.is_none() && plan.ctx.joined && !plan.ctx.short_tickets);
    assert_eq!(plan.policy.output_directory, "/here");
    assert_eq!(plan.ctx.mode, "direct only (no relays)");
    assert!(browse_options(&offline).mdns && browse_options(&offline).offline);
}

#[test]
fn a_drop_is_found_by_ticket_room_or_number() {
    let some = |s: &str| Some(s.to_string());
    assert!(matches!(
        resolve_source(some("t"), some("r"), Some(1)).unwrap(),
        Source::Ticket(t) if t == "t"
    ));
    assert!(matches!(
        resolve_source(None, some("r"), Some(1)).unwrap(),
        Source::Room(r) if r == "r"
    ));
    assert!(matches!(resolve_source(None, None, Some(4)).unwrap(), Source::Nearby(4)));
    assert_eq!(
        resolve_source(None, None, None).unwrap_err(),
        "give a ticket, --room <name>, or --nearby <#>"
    );
    assert_eq!(qr_source(None, None).unwrap_err(), "give a ticket, @file, or --room <name>");
    assert!(matches!(qr_source(None, some("r")).unwrap(), Source::Room(_)));
    let drops = vec![NearbyDrop {
        index: 1,
        peer: peer("abcdef"),
        ticket: "t1".into(),
        label: Some("laptop".into()),
    }];
    assert_eq!(pick_nearby(&drops, 1).unwrap(), "t1");
    assert_eq!(
        pick_nearby(&drops, 2).unwrap_err(),
        "no drop 2 nearby; try `iroh-drop nearby`"
    );
    assert_eq!(
        nearby_lines(&drops),
        [
            "  #  what                         who",
            "  1  laptop                       abcd",
            "",
            "Receive with:  iroh-drop receive --nearby <#>",
        ]
    );
    assert_eq!(nearby_lines(&Vec::new())[0], "Nothing is being shared nearby.");
}

#[test]
fn tickets_are_read_from_links_and_files() {
    assert_eq!(ticket_file("@./ticket").as_deref(), Some("./ticket"));
    assert_eq!(ticket_file("drop2x"), None);
    assert_eq!(ticket_file(""), None);
    assert_eq!(unread_ticket("x"), "reading ticket file x");
    assert_eq!(read_ticket(&format!(" {TICKET}\n")), TICKET);
    assert_eq!(read_ticket(&app_link(TICKET)), TICKET);
    assert_eq!(read_ticket(" what? "), "what?");
    assert_eq!(kept_ticket(&Some("/s".into())).as_deref(), Some("/s/ticket"));
    assert_eq!(kept_ticket(&None), None);
    assert_eq!(ticket_kept(&None), None);
    assert_eq!(
        ticket_kept(&Some("full".into())).as_deref(),
        Some("! could not save the ticket: full")
    );
    assert_eq!(ticket_written("/t", &None), "ticket written to /t");
    assert_eq!(ticket_written("/t", &Some("full".into())), "! could not write /t: full");
}

#[test]
fn the_prompt_understands_commands() {
    assert_eq!(typed("  # note"), None);
    assert_eq!(typed("   "), None);
    assert_eq!(typed(" ls "), Some("ls"));
    assert!(matches!(command("").unwrap(), PromptCommand::Nothing));
    match command("add ./a as b").unwrap() {
        PromptCommand::Add { path, name } => {
            assert_eq!((path.as_str(), name.as_deref()), ("./a", Some("b")));
        }
        other => panic!("{other:?}"),
    }
    match command("get 2 to ./dl").unwrap() {
        PromptCommand::Get { what, out } => {
            assert_eq!((what.as_str(), out.as_deref()), ("2", Some("./dl")));
        }
        other => panic!("{other:?}"),
    }
    assert!(matches!(command("share x").unwrap(), PromptCommand::Add { name: None, .. }));
    assert!(matches!(command("list").unwrap(), PromptCommand::List));
    assert!(matches!(command("peers").unwrap(), PromptCommand::Who));
    assert!(matches!(command("ticket").unwrap(), PromptCommand::Ticket));
    assert!(matches!(command("help").unwrap(), PromptCommand::Help));
    for quit in ["quit", "exit", "q"] {
        assert!(matches!(command(quit).unwrap(), PromptCommand::Quit));
    }
    match command("dance now").unwrap() {
        PromptCommand::Unknown { said } => {
            assert_eq!(unknown_command(&said), "Unknown command `dance`. Try `help`.");
        }
        other => panic!("{other:?}"),
    }
    for bad in [&["a", "as"][..], &["a", "b", "c"], &[], &["a", "as", "b", "c"]] {
        assert_eq!(parse_add(&strings(bad)).unwrap_err(), "usage: add <path> [as <name>]");
    }
    assert_eq!(
        parse_get(&strings(&["all", "out", "x"])).unwrap(),
        ("all".to_string(), Some("x".to_string()))
    );
    assert_eq!(
        parse_get(&strings(&["1", "x"])).unwrap_err(),
        "usage: get <#|name|all> [to <path>]"
    );
}

#[test]
fn all_means_everything_listed() {
    let records = vec![
        record("ab11", "one", 1, LocalBlobStatus::Missing),
        record("cd22", "two", 1, LocalBlobStatus::Missing),
    ];
    let listed = inventory(&records);
    let hexes = |what: &str| {
        wanted(&listed, &records, what, None)
            .map(|hashes| hashes.into_iter().map(|h| h.hex).collect::<Vec<_>>())
            .map_err(|e| e.message())
    };
    assert_eq!(hexes("all").unwrap(), ["ab11", "cd22"]);
    assert_eq!(hexes("two").unwrap(), ["cd22"]);
    assert!(hexes("three").is_err());
}

#[test]
fn what_was_done_is_said() {
    let blob = |name: &str| PublishedBlob { hash: hash("ab"), name: name.into(), size: 9 };
    let published = |members: usize, is_collection: bool| Published {
        blob: blob("x"),
        members,
        total_size: 2048,
        is_collection,
    };
    assert_eq!(describe_published(&published(1, false)), "\"x\" (2.0 KiB)");
    assert_eq!(describe_published(&published(1, true)), "\"x\" (1 file, 2.0 KiB)");
    assert_eq!(describe_published(&published(2, true)), "\"x\" (2 files, 2.0 KiB)");
    let progress =
        MemberProgress { index: 3, total: 120, path: "a/b".into(), collection: "c".into() };
    assert_eq!(report_member(&progress), "↓ c 3/120  a/b");
    assert_eq!(found_line(1), "Found 1 item in this drop.");
    assert_eq!(found_line(2), "Found 2 items in this drop.");
    assert_eq!(receive_dir(None), ".");
    assert_eq!(receive_dir(Some("/x".into())), "/x");
    assert_eq!(report_saved(&Vec::new(), "."), ["", "Nothing was saved."]);
    assert_eq!(
        report_saved(&strings(&["./a"]), "."),
        ["", "Saved 1 file(s) to .:", "  ./a"]
    );
    let many: Vec<String> = (0..23).map(|i| i.to_string()).collect();
    let lines = report_saved(&many, "/d");
    assert_eq!(lines.len(), 23);
    assert_eq!(lines[22], "  ... and 3 more");
    assert_eq!(still_serving("T")[5], "    T");
    assert_eq!(
        no_files(),
        "no files appeared within 60s — is the sharing peer still running?"
    );
    assert_eq!(who(&Vec::new()), ["Nobody else is connected right now."]);
    assert_eq!(who(&vec![peer("abcdef")]), ["abcd"]);
}

#[test]
fn waiting_nudges_once() {
    let mut waiting = Awaiting::new();
    assert_eq!(waiting.looked(false, false, false), Look::Again);
    assert_eq!(waiting.looked(false, false, true), Look::Nudge);
    assert_eq!(waiting.looked(false, false, true), Look::Again);
    assert_eq!(waiting.looked(true, false, true), Look::Done);
    assert_eq!(waiting.looked(false, true, true), Look::Done);
}

#[test]
fn rooms_are_remembered_and_forgotten() {
    let some = |s: &str| Some(s.to_string());
    assert_eq!(room_to_remember(&some("a"), &some("b")).as_deref(), Some("a"));
    assert_eq!(room_to_remember(&None, &some("b")).as_deref(), Some("b"));
    assert_eq!(room_to_remember(&None, &None), None);
    assert_eq!(
        room_line("team", Remembered::Sharing),
        "Saved as room \"team\" — next time: iroh-drop share --room team <paths>"
    );
    assert_eq!(
        room_line("team", Remembered::Receiving),
        "Saved as room \"team\" — next time: iroh-drop receive --room team"
    );
    assert_eq!(room_line("team", Remembered::Talking), "Saved as room \"team\".");
    let mut rooms = Rooms::new();
    assert_eq!(rooms_lines(&rooms.list())[0], "No saved rooms yet.");
    rooms.set("team", TICKET, &some("ours"), 1);
    rooms.set("x", TICKET, &None, 0);
    let lines = rooms_lines(&rooms.list());
    assert_eq!(lines[0], "room                 note");
    assert_eq!(lines[1], "team                 ours");
    assert_eq!(lines[2], "x                    -");
    assert_eq!(forget_room(&mut rooms, "x"), (true, "Forgot room \"x\".".to_string()));
    assert_eq!(forget_room(&mut rooms, "x"), (false, "No room named \"x\".".to_string()));
}

#[test]
fn the_config_is_shown() {
    let lines = config_lines(&config(), &environment());
    assert_eq!(lines[0], "config file   /home/me/.config/iroh-drop/config.toml");
    assert_eq!(lines[4], "auto fetch    false");
    assert_eq!(lines[5], "auto limits   1.0 KiB per file, 2.0 KiB per session");
}

#[test]
fn sending_through_the_daemon_returns() {
    let (mut sending, step) = Sending::begin(strings(&["./a", "./b"]), &None, true);
    assert_eq!(Sending::hello().roles, [Role::Control]);
    assert_eq!(call(&step).0, "drop.create");
    let created = Json::object().with("drop", Json::text("d1"));
    let step = sending.created(Ok(created));
    assert!(matches!(&step.next, Next::Locate { path } if path == "./a"));
    let found = |p: &str| Located::Found { shown: p.into(), text: Some(p.into()) };
    let step = sending.located(found("/x/a"));
    assert_eq!(call(&step).1.text_at("path"), Some("/x/a"));
    let step = sending.started(Ok(Json::object().with("task", Json::text("t1"))));
    assert!(matches!(&step.next, Next::Wait { task } if task == "t1"));
    let done = || Json::object().with("state", Json::text("done"));
    let step = sending.ended(Ok(done()));
    assert_eq!(step.lines, ["  added /x/a"]);
    let _ = sending.located(found("/x/b"));
    let step = sending.ended(Ok(done()));
    assert_eq!(call(&step).0, "drop.ticket");
    let ticket = || {
        Json::object().with("link", Json::text("L")).with("web_link", Json::text("W"))
    };
    let step = sending.ticketed(Ok(ticket()));
    assert_eq!(
        step.lines,
        [
            "",
            "Send this to whoever should get the files:",
            "",
            "  L",
            "",
            "Or, for anyone without the app:",
            "",
            "  W",
            "",
        ]
    );
    assert!(matches!(&step.next, Next::Qr { link } if link == "L"));
    assert_eq!(
        sending.farewell().lines,
        [
            "The daemon keeps serving these files. Stop with:",
            "  iroh-drop drops --forget d1",
        ]
    );
    sending.qr = false;
    let step = sending.ticketed(Ok(Json::object().with("link", Json::text("L"))));
    assert_eq!(step.lines.len(), 7);
    assert!(matches!(step.next, Next::Finish));
}

#[test]
fn sending_through_the_daemon_can_fail() {
    let (mut sending, _) = Sending::begin(strings(&["./a"]), &None, false);
    assert_eq!(failure(&sending.created(refusal())), "not_found: gone");
    let step = sending.located(Located::Missing { why: "no such file".into() });
    match &step.next {
        Next::Fail { message, cause } => {
            assert_eq!(message, "cannot find ./a");
            assert_eq!(cause.as_deref(), Some("no such file"));
        }
        other => panic!("{other:?}"),
    }
    let step = sending.located(Located::Found { shown: "/x/a".into(), text: None });
    assert_eq!(failure(&step), "path is not UTF-8");
    assert_eq!(failure(&sending.started(refusal())), "not_found: gone");
    assert_eq!(failure(&sending.ended(refusal())), "publishing /x/a: not_found: gone");
    let failed = Json::object()
        .with("state", Json::text("failed"))
        .with("error", Json::text("no disk"));
    assert_eq!(failure(&sending.ended(Ok(failed))), "could not share /x/a: no disk");
    assert_eq!(failure(&sending.ticketed(refusal())), "not_found: gone");
}

#[test]
fn getting_through_the_daemon_takes_everything() {
    let (mut getting, step) = Getting::begin(TICKET, None, OutDir::Path("/dl".into()));
    assert_eq!(Getting::hello().roles, [Role::Control]);
    assert_eq!(call(&step).1.text_at("ticket"), Some(TICKET));
    let step = getting.joined(Ok(Json::object().with("drop", Json::text("d1"))));
    assert_eq!(step.lines, ["Joined. Looking for files…"]);
    let step = getting.listed(Ok(Json::object()), false);
    assert!(matches!(step.next, Next::Pause));
    assert_eq!(call(&getting.look_again()).0, "offer.list");
    let step = getting.listed(Ok(Json::object()), true);
    assert_eq!(failure(&step), "nothing was offered in this drop after 60s");
    let item = |n: u64, name: &str| {
        Json::object()
            .with("n", Json::Unsigned(n))
            .with("name", Json::text(name))
            .with("human_size", Json::text("3 B"))
            .with("kind", Json::text("file"))
    };
    let items = || {
        Ok(Json::object().with("items", Json::list(vec![item(1, "a.txt"), item(2, "b.txt")])))
    };
    let step = getting.listed(items(), false);
    assert_eq!(
        step.lines,
        [
            "",
            "  1  a.txt                                   3 B  file",
            "  2  b.txt                                   3 B  file",
            "",
        ]
    );
    let (method, params) = call(&step);
    assert_eq!(method, "offer.fetch");
    assert_eq!((params.text_at("pick"), params.text_at("out")), (Some("1"), Some("/dl")));
    let done = Json::object().with("state", Json::text("done"));
    let step = getting.ended(Ok(done));
    assert_eq!(step.lines, ["  ✔ got item 1"]);
    let failed = Json::object().with("state", Json::text("failed")).with("error", Json::text("e"));
    let step = getting.ended(Ok(failed));
    assert_eq!(step.lines[0], "  ✗ item 2: e");
    assert_eq!(
        step.lines[2],
        "You are now also serving these files, so others can get them from you."
    );
    assert!(matches!(step.next, Next::Finish));

    let (mut one, _) = Getting::begin(TICKET, Some("b.txt".into()), OutDir::Usual);
    let step = one.listed(items(), false);
    assert_eq!(call(&step).1.text_at("pick"), Some("b.txt"));
    assert!(call(&step).1.get("out").is_none());
    assert_eq!(failure(&one.ended(refusal())), "not_found: gone");
    let (mut odd, _) = Getting::begin(TICKET, None, OutDir::NotText);
    let step = odd.listed(items(), false);
    assert_eq!(failure(&step), "output path is not UTF-8");
    let (mut named, _) = Getting::begin(TICKET, None, OutDir::Usual);
    let step = named.listed_by(items(), &strings(&["x", "y"]), false);
    assert_eq!(call(&step).1.text_at("pick"), Some("x"));
    assert_eq!(failure(&odd.joined(refusal())), "not_found: gone");
    assert_eq!(failure(&odd.started(refusal())), "not_found: gone");
}

#[test]
fn joining_is_one_membership() {
    let (hello, step) = join_call(TICKET);
    assert_eq!(hello.roles, [Role::Control]);
    assert_eq!(call(&step).0, "drop.join");
    let joined = Json::object().with("drop", Json::text("d1"));
    assert_eq!(
        join_done(Ok(joined)).lines,
        [
            "Joined as d1. You stay in the group until you leave it (`iroh-drop leave d1`); ",
            "anything offered shows up in the app, or with `iroh-drop watch`.",
        ]
    );
    let again =
        Json::object().with("drop", Json::text("d1")).with("already", Json::Bool(true));
    assert_eq!(
        join_done(Ok(again)).lines,
        ["Already in that group as d1 — one membership, however many times you join."]
    );
    assert_eq!(failure(&join_done(refusal())), "not_found: gone");
}

#[test]
fn groups_are_left_one_by_one() {
    let row = |drop: &str, name: Json| {
        Json::object().with("drop", Json::text(drop)).with("name", name)
    };
    let listed = || {
        let rows = vec![row("d1", Json::text("album")), Json::Null, row("d2", Json::Null)];
        Ok(Json::object().with("drops", Json::list(rows)))
    };
    let (mut all, step) = Leaving::begin("all");
    assert_eq!(call(&step).0, "drop.list");
    let step = all.listed(listed());
    assert_eq!(call(&step).1.text_at("drop"), Some("d1"));
    let step = all.left(Ok(Json::object()));
    assert_eq!(step.lines, ["Left d1."]);
    assert_eq!(call(&step).1.text_at("drop"), Some("d2"));
    let step = all.left(Ok(Json::object()));
    assert!(matches!(step.next, Next::Finish));
    let (mut none, _) = Leaving::begin("all");
    assert_eq!(none.listed(Ok(Json::object())).lines, ["Nothing to leave."]);

    let (mut one, _) = Leaving::begin("d1");
    let _ = one.listed(listed());
    assert_eq!(
        one.left(Ok(Json::object())).lines,
        ["Left d1 (album). The group keeps going without you."]
    );
    let (mut unnamed, _) = Leaving::begin("d2");
    let _ = unnamed.listed(listed());
    assert_eq!(failure(&unnamed.left(refusal())), "not_found: gone");
    assert_eq!(
        unnamed.left(Ok(Json::object())).lines,
        ["Left d2 (received files). The group keeps going without you."]
    );
    assert_eq!(Leaving::hello().roles, [Role::Control]);
}

#[test]
fn the_daemon_lists_its_drops() {
    let status = DropsQuery::new(None, None);
    assert_eq!(status.hello().roles, [Role::Observer]);
    assert_eq!(call(&status.begin()).0, "daemon.status");
    let said = Json::object()
        .with("endpoint_id", Json::text("me"))
        .with("offline", Json::Bool(true))
        .with("download_dir", Json::text("/dl"));
    let step = status.answered(Ok(said));
    assert_eq!(step.lines, ["daemon me  LAN only (no relays)  downloads: /dl"]);
    assert_eq!(call(&step).0, "drop.list");
    let row = Json::object()
        .with("drop", Json::text("d1"))
        .with("human_size", Json::text("3 B"))
        .with("files", Json::Unsigned(4));
    let whole = row.copy().with("peers", Json::Unsigned(2));
    let listed = || Json::object().with("drops", Json::list(vec![whole.copy(), row.copy()]));
    assert_eq!(
        drops_counted(Ok(listed()), &strings(&["1", "2"]), &strings(&["3", "4"])).lines[2],
        "  d1  received             2 file(s), 3 B, 4 peer(s)"
    );
    assert_eq!(
        drops_listed(Ok(listed())).lines,
        [
            "",
            "  d1  received             4 file(s), 3 B, 2 peer(s)",
            "  d1  received             4 file(s), 3 B, null peer(s)",
            "",
            "Drops persist across restarts. Leave one with:  iroh-drop leave <id>",
        ]
    );
    assert_eq!(
        drops_listed(Ok(Json::object())).lines[1],
        "No drops. Share something with:  iroh-drop send <file>"
    );

    let forget = DropsQuery::new(Some("d1".into()), None);
    assert_eq!(forget.hello().roles, [Role::Control]);
    assert_eq!(call(&forget.begin()).0, "drop.leave");
    assert_eq!(forget.answered(Ok(Json::object())).lines, ["Stopped hosting d1."]);
    let ticket = DropsQuery::new(Some("d1".into()), Some("d2".into()));
    assert_eq!(call(&ticket.begin()).1.text_at("drop"), Some("d2"));
    let link = Json::object().with("link", Json::text("L"));
    assert_eq!(ticket.answered(Ok(link)).lines, ["L"]);
    assert_eq!(failure(&ticket.answered(refusal())), "not_found: gone");
}

#[test]
fn only_a_yes_is_consent() {
    let said = |s: &str| consent(&Some(s.to_string())).is_some();
    assert!(said("y\n") && said(" YES ") && said("Yes"));
    assert!(!said("") && !said("yeah") && !said("n"));
    assert!(consent(&None).is_none());
    assert_eq!(consent(&Some("y".into())).unwrap().flag_at("accept"), Some(true));
    let offer = Json::object()
        .with("name", Json::text("a\u{1b}[2J\"b"))
        .with("human_size", Json::text("3 B"))
        .with("from", Json::text("0123456789abc"));
    assert_eq!(
        prompt(&offer),
        [
            "",
            "  Incoming file: \"a\\u{1b}[2J\\\"b\"  (3 B)",
            "  From peer:     0123456789",
            "  Accept? [y/N] ",
        ]
    );
    assert!(watch_hello().has_role(Role::Ui));
}

#[test]
fn watching_shows_what_happens() {
    let status = || Ok(Json::object().with("download_dir", Json::text("/dl")));
    assert_eq!(
        watch_begins(status(), false).unwrap(),
        ["Watching. Files land in /dl", "Ctrl-C to stop.", ""]
    );
    assert!(watch_begins(status(), true).unwrap()[1].starts_with("⚠ --yes is on"));
    assert_eq!(watch_begins(refusal(), true).unwrap_err(), "not_found: gone");
    let lines = |name: &str, p: Json| match print_event(name, &p) {
        Shown::Lines(lines) => lines,
        other => panic!("{other:?}"),
    };
    let offer = Json::object().with("name", Json::text("a")).with("human_size", Json::text("3 B"));
    assert_eq!(lines("offer.received", offer), ["  offered  \"a\"  (3 B)"]);
    let reason = Json::object().with("reason", Json::text("declined"));
    assert_eq!(lines("offer.declined", reason), ["  declined declined "]);
    let paths = Json::list(vec![Json::text("/dl/a"), Json::Null]);
    assert_eq!(
        lines("fetch.materialized", Json::object().with("paths", paths)),
        ["\r  ✔ saved 2 file(s)", "      /dl/a"]
    );
    let e = Json::object().with("error", Json::text("e"));
    assert_eq!(lines("fetch.failed", e), ["\r  ✗ failed: e"]);
    assert_eq!(lines("peer.joined", Json::Null), ["  a peer joined"]);
    let progress = Json::object()
        .with("downloaded", Json::Unsigned(1))
        .with("total", Json::Unsigned(4));
    assert!(matches!(
        print_event("fetch.progress", &progress),
        Shown::Over(line) if line == "\r  receiving… 25%"
    ));
    assert!(matches!(print_event("fetch.progress", &Json::Null), Shown::Nothing));
    assert!(matches!(print_event("task.state", &Json::Null), Shown::Nothing));
    assert_eq!(missed(3), "  (missed 3 events)");
}

#[test]
fn attaching_explains_itself() {
    assert_eq!(socket_arg(Some("/run".into()), true).as_deref(), Some("/run/control.sock"));
    assert_eq!(socket_arg(Some("/s".into()), false).as_deref(), Some("/s"));
    assert_eq!(socket_arg(None, false), None);
    let e = ApiError::new("no_daemon", "refused");
    assert_eq!(
        attach_failed("/s", &e),
        "no daemon at /s.\n  start one with:  iroh-dropd\n  (no_daemon: refused)"
    );
    assert_eq!(attach_failed("/s", &ApiError::new("io", "x")), "io: x");
}

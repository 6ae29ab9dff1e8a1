//! Where things are kept, and what is kept.

use iroh_drop_core::config::{Config, DropPolicy, Environment, FileRead};
use iroh_drop_core::dropd::{
    default_data_dir, default_download_dir, parse_args, service_options, Invocation,
};
use iroh_drop_core::persist::{DropStore, PersistedDrop};
use iroh_drop_core::rooms::{Room, Rooms};
use iroh_drop_core::service::ServiceOptions;

const TICKET: &str = "drop2aimfofis3yfxv6oqyama7hct5hgil7ozmrwh4u7ryd6ihbtadeesuaitapjhbfsnoh";

fn env() -> Environment {
    Environment {
        home: Some("/home/me".into()),
        data_home: None,
        config_home: None,
        runtime_dir: None,
    }
}

fn text(text: &str) -> FileRead {
    FileRead::Text(text.to_string())
}

fn limits() -> DropPolicy {
    DropPolicy {
        auto_fetch: false,
        max_blob_size: 10,
        max_total_auto_fetch_bytes: 20,
        output_directory: "out".into(),
    }
}

#[test]
fn defaults_are_under_one_directory() {
    let config = Config::default_for(&env(), &limits());
    let data = env().data_dir();
    assert!(config.store_path.starts_with(&data));
    assert!(config.identity_path.starts_with(&data));
    assert!(config.download_dir.starts_with(&data));
    assert!(!config.auto_fetch, "manual fetch stays the default");
}

#[test]
fn defaults_follow_the_environment() {
    let config = Config::default_for(&env(), &limits());
    assert_eq!(config.identity_path, "/home/me/.local/share/iroh-drop/identity.key");
    assert_eq!(config.store_path, "/home/me/.local/share/iroh-drop/blobs");
    assert_eq!(config.download_dir, "/home/me/.local/share/iroh-drop/received");
    assert_eq!((config.max_auto_blob_size, config.max_auto_total_bytes), (10, 20));
    assert_eq!(Config::default_path(&env()), "/home/me/.config/iroh-drop/config.toml");
    let mut xdg = env();
    xdg.data_home = Some("/data".into());
    xdg.config_home = Some("/config".into());
    assert_eq!(xdg.data_dir(), "/data/iroh-drop");
    assert_eq!(Config::default_path(&xdg), "/config/iroh-drop/config.toml");
    assert_eq!(Rooms::default_path(&xdg), "/data/iroh-drop/rooms.toml");
    xdg.home = None;
    assert_eq!(xdg.home_dir(), ".");
}

#[test]
fn a_config_is_read_where_there_is_one() {
    let read = Config::load(&env(), &limits(), &FileRead::Missing).unwrap();
    assert_eq!(read.store_path, "/home/me/.local/share/iroh-drop/blobs");
    let read = Config::load(&env(), &limits(), &text("store_path = \"/s\"\nnew = 1")).unwrap();
    assert_eq!(read.store_path, "/s");
    assert_eq!(read.download_dir, "/home/me/.local/share/iroh-drop/received");
    assert_eq!((read.max_auto_blob_size, read.link_base), (10, None));
    for (line, key) in [
        ("identity_path = 1", "identity_path"),
        ("store_path = []", "store_path"),
        ("download_dir = {}", "download_dir"),
        ("auto_fetch = \"yes\"", "auto_fetch"),
        ("max_auto_blob_size = -1", "max_auto_blob_size"),
        ("max_auto_total_bytes = 1.5", "max_auto_total_bytes"),
        ("link_base = 1979-05-27", "link_base"),
    ] {
        let e = Config::load_from("/c.toml", &env(), &limits(), &text(line)).unwrap_err();
        assert_eq!(e.message(), format!("config error: /c.toml: invalid `{key}`"));
    }
    let e = Config::load_from("/c.toml", &env(), &limits(), &text("a = ")).unwrap_err();
    assert!(e.message().starts_with("config error: /c.toml: TOML parse error at line 1"));
    let failed = FileRead::Failed("denied".into());
    let e = Config::load_from("/c.toml", &env(), &limits(), &failed).unwrap_err();
    assert_eq!(e.message(), "config error: /c.toml: denied");
    let file = Config::default_for(&env(), &limits()).save(&env()).unwrap();
    assert_eq!(file.path, "/home/me/.config/iroh-drop/config.toml");
    assert_eq!(file.dir.as_deref(), Some("/home/me/.config/iroh-drop"));
}

#[test]
fn a_config_describes_a_stack_and_a_policy() {
    let config = Config::default_for(&env(), &limits());
    let stack = config.stack_options(true, false);
    assert_eq!(stack.store_path.as_deref(), Some(config.store_path.as_str()));
    assert!(stack.offline && !stack.mdns);
    let fresh = Config::ephemeral_stack_options(false, true);
    assert!(fresh.store_path.is_none() && fresh.identity_path.is_none() && fresh.mdns);
    let policy = config.policy(limits());
    assert_eq!(policy.output_directory, "out");
    assert_eq!(policy.max_blob_size, 10);
    assert_eq!(
        config.prepare_dirs(),
        [
            config.store_path.clone(),
            config.download_dir.clone(),
            "/home/me/.local/share/iroh-drop".to_string(),
        ]
    );
}

#[test]
fn roundtrips_through_toml() {
    let config = Config::default_for(&env(), &limits());
    let file = config.save(&env()).unwrap();
    let parsed = Config::load(&env(), &limits(), &FileRead::Text(file.text)).unwrap();
    assert_eq!(parsed.store_path, config.store_path);
    assert_eq!(parsed.max_auto_blob_size, config.max_auto_blob_size);
}

#[test]
fn every_setting_comes_back() {
    let config = Config {
        identity_path: "/id \"1\"".into(),
        store_path: "C:\\data".into(),
        download_dir: "/d\n\u{27}\u{27}\u{27}\t\u{7f}".into(),
        auto_fetch: true,
        max_auto_blob_size: i64::MAX as u64,
        max_auto_total_bytes: 0,
        link_base: Some("https://drop.example/\u{e9}".into()),
    };
    assert!(config.writable());
    let file = config.save(&env()).unwrap();
    let back = Config::load(&env(), &limits(), &FileRead::Text(file.text)).unwrap();
    assert_eq!(back.identity_path, config.identity_path);
    assert_eq!(back.store_path, config.store_path);
    assert_eq!(back.download_dir, config.download_dir);
    assert!(back.auto_fetch);
    assert_eq!(back.max_auto_blob_size, config.max_auto_blob_size);
    assert_eq!(back.max_auto_total_bytes, 0);
    assert_eq!(back.link_base, config.link_base);

    let mut large = Config::default_for(&env(), &limits());
    large.max_auto_total_bytes = i64::MAX as u64 + 1;
    assert_eq!(
        large.save(&env()).unwrap_err().message(),
        "config error: out-of-range value for u64 type"
    );
    large.link_base = Some("\"".repeat(256));
    assert!(!large.writable());
    large.link_base = Some("\"".repeat(255));
    assert!(large.writable());
}

#[test]
fn refreshing_a_room_keeps_its_history() {
    let mut rooms = Rooms::new();
    rooms.set("team", TICKET, &None, 1);
    let created = rooms.get("team").unwrap().created_at;

    // A later, richer ticket for the same room replaces the string but not the room's
    // identity.
    rooms.set("team", TICKET, &Some("richer".into()), 9);
    assert_eq!(rooms.get("team").unwrap().created_at, created);
    assert_eq!(rooms.len(), 1);
    let room = rooms.get("team").unwrap();
    assert_eq!((room.last_used, room.note.as_deref()), (9, Some("richer")));
    rooms.set("team", "drop2other", &Some("another".into()), 12);
    assert_eq!(rooms.get("team").unwrap().note.as_deref(), Some("richer"));
    assert_eq!(rooms.ticket("team").unwrap(), "drop2other");
}

#[test]
fn missing_file_is_an_empty_book() {
    let rooms = Rooms::load_from("/nonexistent/rooms.toml", &FileRead::Missing).unwrap();
    assert!(rooms.is_empty());
}

#[test]
fn saves_and_reloads_rooms() {
    let mut rooms = Rooms::new();
    rooms.set("team", TICKET, &None, 1);

    let file = rooms.save_to("rooms.toml").unwrap();
    let reloaded = Rooms::load_from(&file.path, &FileRead::Text(file.text)).unwrap();
    assert_eq!(reloaded.len(), 1);
    assert_eq!(reloaded.ticket("team").unwrap(), TICKET);
    assert!(reloaded.ticket("nope").is_err());
}

#[test]
fn rooms_are_listed_by_last_use() {
    let mut rooms = Rooms::new();
    rooms.set("b", "t", &None, 5);
    rooms.set("a", "t", &None, 5);
    rooms.set("c", "t", &None, 9);
    let names: Vec<&str> = rooms.list().iter().map(|row| row.name.as_str()).collect();
    assert_eq!(names, ["c", "a", "b"]);
    assert_eq!(rooms.list().len(), rooms.len());
    for row in rooms.list() {
        assert_eq!(rooms.get(row.name).unwrap().last_used, row.room.last_used);
    }
    assert!(rooms.remove("a"));
    assert!(!rooms.remove("a"));
    assert_eq!(rooms.len(), 2);
    let names: Vec<&str> = rooms.list().iter().map(|row| row.name.as_str()).collect();
    assert_eq!(names, ["c", "b"]);
    assert_eq!(rooms.ticket("x").unwrap_err().message(), "no room named \"x\"; try `rooms`");
    assert_eq!(
        Rooms::unusable_ticket("x", "too short").message(),
        "config error: room \"x\" has an unusable ticket: too short"
    );
}

#[test]
fn an_unreadable_book_is_an_error() {
    let e = Rooms::load(&env(), &FileRead::Failed("odd".into())).unwrap_err();
    assert!(e.message().ends_with("rooms.toml: odd"), "{}", e.message());
    let why = |line: &str| Rooms::load_from("r", &text(line)).unwrap_err().message();
    assert!(why("[rooms").starts_with("config error: r: TOML parse error at line 1"));
    assert_eq!(why("rooms = 3"), "config error: r: `rooms` is not a table");
    let room = |fields: &str| why(&format!("[rooms.\"a b\"]\n{fields}"));
    let bad = |key: &str| format!("config error: r: room \"a b\": missing or invalid `{key}`");
    assert_eq!(room("created_at = 1\nlast_used = 1"), bad("ticket"));
    assert_eq!(room("ticket = \"t\"\ncreated_at = -1\nlast_used = 1"), bad("created_at"));
    assert_eq!(room("ticket = \"t\"\ncreated_at = 1"), bad("last_used"));
    assert_eq!(room("ticket = \"t\"\ncreated_at = 1\nlast_used = 1\nnote = 1"), bad("note"));
    assert!(Rooms::load_from("r", &text("other = 1")).unwrap().is_empty());
    let file = Rooms::new().save(&env()).unwrap();
    assert_eq!(file.path, "/home/me/.local/share/iroh-drop/rooms.toml");
    assert_eq!(file.dir.as_deref(), Some("/home/me/.local/share/iroh-drop"));
    assert_eq!(file.text, "[rooms]\n");
    assert!(Rooms::load(&env(), &FileRead::Text(file.text)).unwrap().is_empty());
}

#[test]
fn every_room_comes_back() {
    let odd = [
        "team",
        "a.b",
        "with space",
        "\"quoted\" and 'quoted'",
        "line\nbreak\r\n",
        "tab\tbell\u{7}\u{7f}",
        "back\\slash",
        "$__toml_private_datetime",
        "\u{e9}\u{1f600}",
        "\u{27}\u{27}\u{27}",
        "\"\"\"\"",
        "\\\n\"\"\"",
        "",
    ];
    let mut rooms = Rooms::new();
    for (i, name) in odd.iter().enumerate() {
        let room = Room {
            ticket: format!("{name}-{name}"),
            created_at: i as u64,
            last_used: i64::MAX as u64 - i as u64,
            note: if i % 2 == 0 { Some(name.to_string()) } else { None },
        };
        rooms.put(name, room);
    }
    assert!(rooms.writable());
    let file = rooms.save(&env()).unwrap();
    let back = Rooms::load(&env(), &FileRead::Text(file.text)).unwrap();
    assert_eq!(back.len(), odd.len());
    for name in odd {
        let (was, is) = (rooms.get(name).unwrap(), back.get(name).unwrap());
        assert_eq!(is.ticket, was.ticket);
        assert_eq!((is.created_at, is.last_used), (was.created_at, was.last_used));
        assert_eq!(is.note, was.note);
    }

    rooms.set("late", TICKET, &None, u64::MAX);
    assert_eq!(
        rooms.save(&env()).unwrap_err().message(),
        "config error: out-of-range value for u64 type"
    );
    rooms.set("late", &"'".repeat(300), &None, 1);
    assert!(!rooms.writable());
}

#[test]
fn the_daemon_understands_its_arguments() {
    let parse = |args: &[&str]| parse_args(&args.iter().map(|a| a.to_string()).collect());
    match parse(&["--lan-only", "--socket", "/s", "--accept-when-no-ui", "--link-base", "b"]) {
        Invocation::Run(args) => {
            assert!(args.lan_only && args.accept_when_no_ui);
            assert_eq!(args.socket.as_deref(), Some("/s"));
            let options = service_options(&args, "/data", "/dl");
            assert_eq!(options.store_path.as_deref(), Some("/data/blobs"));
            assert_eq!(options.identity_path.as_deref(), Some("/data/identity"));
            assert!(options.offline && options.mdns && options.auto_accept);
            assert_eq!(options.download_dir, "/dl");
            assert_eq!(options.link_base.as_deref(), Some("b"));
        }
        other => panic!("{other:?}"),
    }
    match parse(&["--data-dir", "/d", "--downloads"]) {
        Invocation::Run(args) => {
            assert_eq!(args.data_dir.as_deref(), Some("/d"));
            assert_eq!(args.download_dir, None);
        }
        other => panic!("{other:?}"),
    }
    assert!(matches!(parse(&["-h"]), Invocation::Help));
    match parse(&["--what"]) {
        Invocation::Bad(why) => assert_eq!(why, "unknown argument: --what"),
        other => panic!("{other:?}"),
    }
    assert_eq!(default_data_dir(&env()), "/home/me/.local/share/iroh-drop");
    assert_eq!(default_download_dir(&Some("/h".into()), true), "/h/Downloads/iroh-drop");
    assert_eq!(default_download_dir(&Some("/h".into()), false), "/h/iroh-drop");
    assert_eq!(default_download_dir(&None, true), "iroh-drop-downloads");
}

fn store() -> DropStore {
    let mut options = ServiceOptions::default();
    assert!(DropStore::for_options(&options).is_none());
    options.store_path = Some("/data/blobs".into());
    DropStore::for_options(&options).unwrap()
}

#[test]
fn state_is_kept_beside_the_blobs() {
    let store = store();
    assert_eq!(store.dir, "/data/blobs-daemon");
    assert_eq!(store.table_path(), "/data/blobs-daemon/drops.json");
    assert_eq!(store.frames_path("ab"), "/data/blobs-daemon/frames-ab.bin");
    assert_eq!(store.remove_drop("ab"), "/data/blobs-daemon/frames-ab.bin");
    let (write, rows) = store.save_table(&Vec::new());
    assert_eq!(rows, "[]");
    assert_eq!(write.tmp, "/data/blobs-daemon/drops.tmp");
    assert_eq!(write.path, "/data/blobs-daemon/drops.json");
}

#[test]
fn frames_come_back_as_they_were_saved() {
    let frames = vec![vec![1u8, 2, 3], Vec::new(), vec![255; 200]];
    let saved = store().save(&Vec::new(), "ab", &frames);
    let bytes = saved.bytes;
    assert_eq!(saved.frames.tmp, "/data/blobs-daemon/frames-ab.tmp");
    assert_eq!(saved.frames.path, "/data/blobs-daemon/frames-ab.bin");
    let mut expected = vec![3u8, 3, 1, 2, 3, 0, 200, 1];
    expected.extend(vec![255; 200]);
    assert_eq!(bytes, expected);
    assert_eq!(bytes, postcard::to_stdvec(&frames).unwrap());
    assert_eq!(DropStore::load_frames(&Some(bytes)), frames);
}

#[test]
fn what_cannot_be_read_is_as_if_it_were_not_there() {
    assert!(DropStore::load_frames(&None).is_empty());
    assert!(DropStore::load_frames(&Some(vec![9, 9])).is_empty());
    assert!(DropStore::load_table(&None).is_empty());
    let rows = |text: &str| DropStore::load_table(&Some(text.to_string()));
    assert!(rows("[{").is_empty());
    assert!(rows("{}").is_empty());
    let whole = "{\"handle\":\"d3\",\"name\":\"n\",\"ticket\":\"t\"}";
    assert_eq!(rows(&format!("[{whole}]"))[0].handle, "d3");
    // One row that cannot be read is enough.
    for odd in [
        "{\"handle\":\"d3\"}",
        "{\"handle\":1,\"ticket\":\"t\"}",
        "{\"handle\":\"d3\",\"name\":1,\"ticket\":\"t\"}",
        "{\"handle\":\"d3\",\"mine\":1,\"ticket\":\"t\"}",
        "3",
    ] {
        assert!(rows(&format!("[{whole},{odd}]")).is_empty(), "{odd}");
    }
    // A table from before it was kept who created a drop.
    let old = rows(&format!("[{whole},{{\"handle\":\"d4\",\"name\":null,\"ticket\":\"u\"}}]"));
    assert_eq!((old[0].mine, old[1].mine), (true, false));
}

#[test]
fn the_table_comes_back_as_it_was_saved() {
    let drop = |handle: &str, name: Option<&str>, mine: bool| PersistedDrop {
        handle: handle.into(),
        name: name.map(str::to_string),
        mine,
        ticket: TICKET.into(),
    };
    let drops = vec![drop("d3", Some("a \"b\"\n"), false), drop("d1", None, true)];
    let saved = store().save(&drops, "ab", &Vec::new());
    assert_eq!(saved.table.path, "/data/blobs-daemon/drops.json");
    assert!(saved.rows.starts_with("[\n  {\n    \"handle\": \"d3\",\n    \"mine\": false,\n"));
    let back = DropStore::load_table(&Some(saved.rows));
    assert_eq!(back.len(), 2);
    for (is, was) in back.iter().zip(&drops) {
        assert_eq!((&is.handle, &is.name), (&was.handle, &was.name));
        assert_eq!((is.mine, &is.ticket), (was.mine, &was.ticket));
    }
}

#[test]
fn other_topics_keep_their_files() {
    let store = store();
    let saved = store.save(&Vec::new(), "a", &vec![vec![1]]);
    for other in ["b", "", "a.bin", "aa"] {
        let kept = store.frames_path(other);
        for path in [&saved.frames.path, &saved.frames.tmp, &saved.table.path, &saved.table.tmp] {
            assert_ne!(path, &kept);
        }
    }
}

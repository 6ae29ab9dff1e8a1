//! Directory trees: what is shared, what a manifest may say, and where it goes.

use iroh_drop_core::collections::{
    build_manifest, check_manifest_size, fetch_any_reporting, offer_metadata, publish_path,
    published_file, published_tree, read_manifest, sanitize_component, sanitize_relative,
    FetchPlan, Manifest, ManifestCheck, ManifestEntry, PathKind, PublishPlan, PublishedBlob,
    TreeFetch, Walk, COLLECTION_MEDIA_TYPE, MAX_MANIFEST_BYTES, MAX_MEMBERS,
};
use iroh_drop_core::error::SdkError;
use iroh_drop_core::ids::BlobHash;
use iroh_drop_core::size::human_bytes;

fn hash(hex: &str) -> BlobHash {
    BlobHash { hex: hex.to_string(), short: hex.chars().take(4).collect() }
}

fn manifest(name: &str, entries: &[(&str, u64)]) -> Manifest {
    Manifest {
        iroh_drop_collection: 1,
        name: name.to_string(),
        entries: entries
            .iter()
            .map(|(path, size)| ManifestEntry {
                path: path.to_string(),
                hash: "ab".to_string(),
                size: *size,
            })
            .collect(),
    }
}

#[test]
fn rejects_path_traversal() {
    for bad in ["../escape", "/etc/passwd", "a/../../b", "", "."] {
        assert!(
            sanitize_relative(bad).is_err(),
            "{bad:?} should be rejected"
        );
    }
}

#[test]
fn accepts_nested_relative_paths() {
    let ok = sanitize_relative("docs/img/logo.png").unwrap();
    assert_eq!(ok, "docs/img/logo.png");
}

#[test]
fn formats_sizes() {
    assert_eq!(human_bytes(0), "0 B");
    assert_eq!(human_bytes(512), "512 B");
    assert_eq!(human_bytes(1024), "1.0 KiB");
    assert_eq!(human_bytes(1_572_864), "1.5 MiB");
}

#[test]
fn unsafe_names_are_quoted_in_the_error() {
    let e = sanitize_component("a/b").unwrap_err();
    assert_eq!(
        e.message(),
        "invalid collection manifest: unsafe name \"a/b\""
    );
}

#[test]
fn names_from_manifests_are_checked() {
    for bad in ["", ".", "..", "a/b", "a\\b"] {
        assert!(sanitize_component(bad).is_err(), "{bad:?}");
    }
    assert!(sanitize_component(&"x".repeat(255)).is_ok());
    assert!(sanitize_component(&"x".repeat(256)).is_err());
    assert_eq!(
        sanitize_relative("../x").unwrap_err().message(),
        "invalid collection manifest: unsafe member path \"../x\""
    );
    assert_eq!(
        sanitize_relative("").unwrap_err().message(),
        "invalid collection manifest: empty member path"
    );
    assert_eq!(
        sanitize_relative(&"a/".repeat(513)).unwrap_err().message(),
        "invalid collection manifest: member path too long"
    );
}

#[test]
fn empty_components_are_refused() {
    for bad in ["a//b", "a/b/", "a//"] {
        let e = sanitize_relative(bad).unwrap_err();
        assert!(matches!(e, SdkError::Manifest(_)));
        assert_eq!(
            e.message(),
            format!("invalid collection manifest: unsafe member path {bad:?}")
        );
    }
}

#[test]
fn sanitizing_twice_changes_nothing() {
    let once = sanitize_relative("a/b/./c").unwrap();
    assert_eq!(once, "a/b/c");
    assert_eq!(sanitize_relative(&once).unwrap(), once);
}

#[test]
fn files_and_directories_are_published_differently() {
    match publish_path("/x/note.txt", PathKind::File, Some("n".into())).unwrap() {
        PublishPlan::File { given } => assert_eq!(given.as_deref(), Some("n")),
        other => panic!("{other:?}"),
    }
    match publish_path("/x/project", PathKind::Directory, None).unwrap() {
        PublishPlan::Tree { name } => assert_eq!(name, "project"),
        other => panic!("{other:?}"),
    }
    match publish_path("/", PathKind::Directory, None).unwrap() {
        PublishPlan::Tree { name } => assert_eq!(name, "collection"),
        other => panic!("{other:?}"),
    }
    assert_eq!(
        publish_path("/dev/null", PathKind::Other, None).unwrap_err().message(),
        "io error: /dev/null is neither a file nor a directory"
    );
}

#[test]
fn hidden_entries_stay_home() {
    let mut walk = Walk::new();
    let root = walk.next_dir().unwrap();
    walk.found(&root, "docs", PathKind::Directory);
    walk.found(&root, ".git", PathKind::Directory);
    walk.found(&root, "README.md", PathKind::File);
    walk.found(&root, ".secret", PathKind::File);
    walk.found(&root, "link", PathKind::Other);
    let docs = walk.next_dir().unwrap();
    assert_eq!(docs.names, ["docs"]);
    walk.found(&docs, "guide.md", PathKind::File);
    walk.found(&docs, "img", PathKind::Directory);
    let img = walk.next_dir().unwrap();
    walk.found(&img, "logo.bin", PathKind::File);
    assert!(walk.next_dir().is_none());

    let members = walk.members("project").unwrap();
    let imported = vec![(hash("a1"), 8), (hash("b2"), 15), (hash("c3"), 4096)];
    let m = build_manifest("project", &members, &imported);
    let listed: Vec<_> = m.entries.iter().map(|e| (e.path.as_str(), e.size)).collect();
    assert_eq!(
        listed,
        [("README.md", 8), ("docs/guide.md", 15), ("docs/img/logo.bin", 4096)]
    );
    assert_eq!(m.iroh_drop_collection, 1);
    assert_eq!(m.total_size(), 4119);
    assert_eq!(m.checked_total_size(), Some(4119));
    assert_eq!(
        offer_metadata(&m),
        [
            ("collection.members".to_string(), "3".to_string()),
            ("collection.total_bytes".to_string(), "4119".to_string()),
        ]
    );

    let blob = PublishedBlob { hash: hash("ff"), name: "project".into(), size: 500 };
    let published = published_tree(blob, &m);
    assert_eq!((published.members, published.total_size), (3, 4119));
    assert!(published.is_collection);
    let blob = PublishedBlob { hash: hash("ff"), name: "note".into(), size: 11 };
    let published = published_file(blob);
    assert_eq!((published.members, published.total_size), (1, 11));
    assert!(!published.is_collection);
}

#[test]
fn a_whole_walk_takes_up_every_visible_file_once() {
    // Directories by path, with what stands in them.
    let entries = |dir: &str| -> Vec<(&str, PathKind)> {
        match dir {
            "" => vec![
                ("b", PathKind::Directory),
                (".git", PathKind::Directory),
                ("z.txt", PathKind::File),
                ("a", PathKind::Directory),
                ("socket", PathKind::Other),
            ],
            "a" => vec![("x", PathKind::File), (".x", PathKind::File), ("y", PathKind::File)],
            "b" => vec![("c", PathKind::Directory)],
            "b/c" => vec![("x", PathKind::File)],
            other => panic!("{other} is not to be read"),
        }
    };
    let mut walk = Walk::new();
    while let Some(dir) = walk.next_dir() {
        for (name, kind) in entries(&dir.names.join("/")) {
            walk.found(&dir, name, kind);
        }
    }
    let members = walk.members("p").unwrap();
    let paths: Vec<String> = members.iter().map(|m| m.names.join("/")).collect();
    assert_eq!(paths, ["a/x", "a/y", "b/c/x", "z.txt"]);
}

#[test]
fn a_whole_fetch_goes_through_the_manifest() {
    let m = manifest("p", &[("b", 1), ("a/c", 2), ("a/b", 3)]);
    let sizes: Vec<u64> = m.entries.iter().map(|e| e.size).collect();
    let mut fetch = tree(fetch_any_reporting("/out", Some(m)).unwrap());
    while let Some(step) = fetch.next_member() {
        let size = sizes[fetch.written.len()];
        fetch.landed(step.unwrap(), size, None).unwrap();
    }
    assert_eq!(fetch.written, ["/out/p/b", "/out/p/a/c", "/out/p/a/b"]);
}

#[test]
fn an_empty_directory_is_not_shared() {
    let mut walk = Walk::new();
    let _ = walk.next_dir();
    assert_eq!(walk.members("empty").unwrap_err().message(), "io error: empty is empty");
}

#[test]
fn too_many_members_are_refused() {
    let mut walk = Walk::new();
    let root = walk.next_dir().unwrap();
    for i in 0..=MAX_MEMBERS {
        walk.found(&root, &i.to_string(), PathKind::File);
    }
    assert_eq!(
        walk.members("big").unwrap_err().message(),
        "invalid collection manifest: 20001 files exceeds the 20000 member limit"
    );
}

#[test]
fn sizes_that_do_not_fit_are_noticed() {
    let m = manifest("m", &[("a", u64::MAX), ("b", 1)]);
    assert_eq!(m.checked_total_size(), None);
}

fn tree(plan: FetchPlan) -> TreeFetch {
    match plan {
        FetchPlan::Tree(fetch) => fetch,
        FetchPlan::Plain => panic!("a collection was expected"),
    }
}

#[test]
fn members_land_below_the_destination() {
    let m = manifest("project", &[("README.md", 8), ("docs/a.txt", 5)]);
    let mut fetch = tree(fetch_any_reporting("/out", Some(m)).unwrap());
    assert_eq!(fetch.root, "/out/project");

    let step = fetch.next_member().unwrap().unwrap();
    assert_eq!(step.target, "/out/project/README.md");
    assert_eq!(step.parent.as_deref(), Some("/out/project"));
    let progress = fetch.landed(step, 8, None).unwrap();
    assert_eq!((progress.index, progress.total), (1, 2));
    assert_eq!(progress.path, "README.md");
    assert_eq!(progress.collection, "project");

    let step = fetch.next_member().unwrap().unwrap();
    assert_eq!(step.target, "/out/project/docs/a.txt");
    assert_eq!(
        fetch.landed(step, 6, None).unwrap_err().message(),
        "invalid collection manifest: member docs/a.txt is 6 bytes, manifest says 5"
    );
    let step = fetch.next_member().unwrap().unwrap();
    fetch.landed(step, 5, Some("/elsewhere".into())).unwrap();
    assert!(fetch.next_member().is_none());
    assert_eq!(fetch.written, ["/out/project/README.md", "/elsewhere"]);
    assert_eq!(
        TreeFetch::bad_hash("odd").message(),
        "invalid collection manifest: bad member hash: odd"
    );
}

#[test]
fn a_manifest_cannot_lead_out_of_the_destination() {
    assert!(fetch_any_reporting("/out", Some(manifest("..", &[]))).is_err());
    let fetch = tree(fetch_any_reporting("/out", Some(manifest("m", &[("../x", 1)]))).unwrap());
    assert!(fetch.next_member().unwrap().is_err());
    assert!(matches!(fetch_any_reporting("/out", None).unwrap(), FetchPlan::Plain));
}

#[test]
fn manifests_are_told_from_other_blobs() {
    let collection = Some(COLLECTION_MEDIA_TYPE.to_string());
    let other = Some("text/plain".to_string());
    assert!(matches!(
        check_manifest_size(&collection, MAX_MANIFEST_BYTES).unwrap(),
        ManifestCheck::Read
    ));
    assert!(matches!(
        check_manifest_size(&None, MAX_MANIFEST_BYTES + 1).unwrap(),
        ManifestCheck::Blob
    ));
    assert!(matches!(check_manifest_size(&None, 100).unwrap(), ManifestCheck::Read));
    assert_eq!(
        check_manifest_size(&collection, MAX_MANIFEST_BYTES + 1).unwrap_err().message(),
        "invalid collection manifest: manifest of 8388609 bytes exceeds the 8388608 byte limit"
    );

    // Self-describing: the media type does not have to be known.
    assert!(read_manifest(&None, Ok(manifest("m", &[]))).unwrap().is_some());
    assert!(read_manifest(&None, Err("eof".into())).unwrap().is_none());
    // Where it is known, it counts.
    assert!(matches!(check_manifest_size(&other, 100).unwrap(), ManifestCheck::Blob));
    assert!(read_manifest(&other, Ok(manifest("m", &[]))).unwrap().is_none());
    assert!(read_manifest(&other, Err("eof".into())).unwrap().is_none());
    assert!(read_manifest(&collection, Ok(manifest("m", &[]))).unwrap().is_some());
    assert_eq!(
        read_manifest(&collection, Err("eof".into())).unwrap_err().message(),
        "invalid collection manifest: eof"
    );
    let mut newer = manifest("m", &[]);
    newer.iroh_drop_collection = 2;
    assert_eq!(
        read_manifest(&None, Ok(newer)).unwrap_err().message(),
        "invalid collection manifest: unsupported collection version 2"
    );
    let many: Vec<(&str, u64)> = vec![("x", 1); MAX_MEMBERS + 1];
    assert_eq!(
        read_manifest(&None, Ok(manifest("m", &many))).unwrap_err().message(),
        "invalid collection manifest: manifest lists 20001 members, over the 20000 limit"
    );
}

#[test]
fn a_tree_arrives_as_it_was() {
    let mut walk = Walk::new();
    let root = walk.next_dir().unwrap();
    walk.found(&root, "docs", PathKind::Directory);
    walk.found(&root, "README.md", PathKind::File);
    let docs = walk.next_dir().unwrap();
    walk.found(&docs, "guide.md", PathKind::File);
    assert!(walk.next_dir().is_none());
    let members = walk.members("./project").unwrap();
    let imported = members.iter().map(|_| (hash("ab"), 7)).collect();
    let manifest = build_manifest("project", &members, &imported);
    let mut fetch = tree(fetch_any_reporting("/out", Some(manifest)).unwrap());
    while let Some(step) = fetch.next_member() {
        fetch.landed(step.unwrap(), 7, None).unwrap();
    }
    assert_eq!(fetch.written, ["/out/project/README.md", "/out/project/docs/guide.md"]);
}

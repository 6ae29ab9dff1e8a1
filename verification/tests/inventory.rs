//! Listings and picks.

use iroh_drop_core::collections::{COLLECTION_MEDIA_TYPE, META_MEMBERS, META_TOTAL_BYTES};
use iroh_drop_core::error::SdkError;
use iroh_drop_core::ids::BlobHash;
use iroh_drop_core::inventory::{
    advertised_type, inventory, pick_from, resolve_pick, LocalBlobStatus, OfferRecord,
};

fn hash(hex: &str) -> BlobHash {
    BlobHash { hex: hex.to_string(), short: hex.chars().take(4).collect() }
}

fn record(hex: &str, name: &str, size: u64) -> OfferRecord {
    OfferRecord {
        blob_hash: hash(hex),
        name: name.to_string(),
        size,
        media_type: None,
        metadata: Vec::new(),
        aliases: vec![name.to_string()],
        local_status: LocalBlobStatus::Missing,
    }
}

fn folder(hex: &str, name: &str, members: &str, total: &str) -> OfferRecord {
    let mut r = record(hex, name, 300);
    r.media_type = Some(COLLECTION_MEDIA_TYPE.to_string());
    r.metadata = vec![
        (META_MEMBERS.to_string(), members.to_string()),
        (META_TOTAL_BYTES.to_string(), total.to_string()),
    ];
    r
}

fn said(r: Result<BlobHash, SdkError>) -> String {
    match r {
        Ok(hash) => hash.hex,
        Err(e) => e.message(),
    }
}

#[test]
fn a_folder_lists_what_it_holds() {
    let items = inventory(&vec![
        record("aa01", "note.txt", 12),
        folder("bb02", "project", "3", "300032"),
        folder("cc03", "one", "1", "2048"),
        folder("dd04", "bogus", "many", "-1"),
    ]);
    assert_eq!(items[0].kind(), "file");
    assert_eq!(items[0].human_size(), "12 B");
    assert_eq!(items[1].kind(), "folder, 3 files");
    assert_eq!(items[1].human_size(), "293.0 KiB");
    assert_eq!(items[1].size, 300);
    assert_eq!(items[2].kind(), "folder, 1 file");
    // Metadata that does not parse is as if it were not there.
    assert_eq!(items[3].kind(), "folder");
    assert_eq!(items[3].content_size, 300);
    assert_eq!(items.iter().map(|i| i.index).collect::<Vec<_>>(), [1, 2, 3, 4]);
}

#[test]
fn metadata_of_a_plain_file_is_ignored() {
    let mut r = record("aa01", "note.txt", 12);
    r.metadata = vec![(META_TOTAL_BYTES.to_string(), "99".to_string())];
    assert_eq!(inventory(&vec![r])[0].content_size, 12);
}

#[test]
fn aliases_are_sorted_and_leave_out_the_name() {
    let mut r = record("aa01", "b", 1);
    r.aliases = vec!["c".into(), "b".into(), "a".into()];
    assert_eq!(inventory(&vec![r])[0].aliases, ["a", "c"]);
}

#[test]
fn picks_go_by_number_name_and_prefix() {
    let mut second = record("ab22", "two", 2);
    second.aliases = vec!["two".into(), "zwei".into()];
    let records = vec![record("ab11", "one", 1), second, record("cd33", "three", 3)];
    let pick = |input: &str| said(resolve_pick(&records, input, None));
    assert_eq!(pick("1"), "ab11");
    assert_eq!(pick(" 3 "), "cd33");
    assert_eq!(pick("two"), "ab22");
    assert_eq!(pick("zwei"), "ab22");
    assert_eq!(pick("cd"), "cd33");
    assert_eq!(pick(""), "nothing to pick");
    assert_eq!(pick("  "), "nothing to pick");
    assert_eq!(pick("4"), "no item 4 in this drop (3 known)");
    assert_eq!(pick("0"), "no item 0 in this drop (3 known)");
    assert_eq!(pick("four"), "nothing here matches \"four\"; try `list`");
    assert_eq!(pick("ab"), "\"ab\" matches 2 hashes; use more characters");
}

#[test]
fn two_of_a_name_are_ambiguous() {
    let records = vec![record("ab11", "same", 1), record("cd22", "same", 2)];
    assert_eq!(
        said(resolve_pick(&records, "same", Some(hash("ee55")))),
        "\"same\" matches 2 items; pick by number instead"
    );
}

#[test]
fn what_the_protocol_resolves_comes_before_prefixes() {
    let items = inventory(&vec![record("ab11", "one", 1)]);
    assert_eq!(said(pick_from(&items, "ab", Some(hash("ee55")))), "ee55");
    assert_eq!(said(pick_from(&items, "one", Some(hash("ee55")))), "ab11");
    assert_eq!(said(pick_from(&items, "ab", None)), "ab11");
}

#[test]
fn the_first_offer_of_a_blob_says_its_type() {
    let mut later = record("aa01", "other", 1);
    later.media_type = Some("text/plain".into());
    let records = vec![folder("aa01", "tree", "2", "4"), later, record("bb02", "x", 1)];
    assert_eq!(
        advertised_type(&records, &hash("aa01")).as_deref(),
        Some(COLLECTION_MEDIA_TYPE)
    );
    assert_eq!(advertised_type(&records, &hash("bb02")), None);
    assert_eq!(advertised_type(&records, &hash("cc03")), None);
}

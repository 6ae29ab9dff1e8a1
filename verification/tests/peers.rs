//! Presence, nearby drops, and what a browser sees.

use iroh_drop_core::ids::{BlobHash, PeerId};
use iroh_drop_core::inventory::{LocalBlobStatus, OfferRecord};
use iroh_drop_core::json::Json;
use iroh_drop_core::nearby::{discovery_is_off, Browsing, Discovery};
use iroh_drop_core::presence::{
    announce, decode, ExtensionFrame, PRESENCE_KIND_STATUS, PRESENCE_NAMESPACE,
};
use iroh_drop_core::service::{DropEvent, Offer, WarningKind};
use iroh_drop_core::web::{check_identity, check_publish, show_event, show_offer};

fn peer(id: &str) -> PeerId {
    PeerId { id: id.to_string(), short: id.chars().take(2).collect() }
}

fn hash(hex: &str) -> BlobHash {
    BlobHash { hex: hex.to_string(), short: hex.chars().take(4).collect() }
}

fn frame(payload: Vec<u8>) -> ExtensionFrame {
    ExtensionFrame {
        namespace: PRESENCE_NAMESPACE,
        local_kind: PRESENCE_KIND_STATUS,
        author: peer("them"),
        payload,
    }
}

#[test]
fn a_status_travels() {
    let beacon = announce("héllo from A").unwrap();
    assert_eq!(beacon.payload, "héllo from A".as_bytes());
    let seen = decode(frame(beacon.payload)).unwrap();
    assert_eq!(seen.status, "héllo from A");
    assert_eq!(seen.author.id, "them");
}

#[test]
fn statuses_are_short_and_not_empty() {
    assert_eq!(
        announce("").unwrap_err(),
        "presence status must be 1..=140 bytes, got 0"
    );
    assert!(announce(&"x".repeat(140)).is_ok());
    assert_eq!(
        announce(&"é".repeat(71)).unwrap_err(),
        "presence status must be 1..=140 bytes, got 142"
    );
}

#[test]
fn other_frames_are_not_presence() {
    assert!(decode(frame(Vec::new())).is_none());
    assert!(decode(frame(vec![0xff, 0xfe])).is_none());
    assert!(decode(frame(vec![b'x'; 141])).is_none());
    let mut other = frame(b"x".to_vec());
    other.local_kind = 2;
    assert!(decode(other).is_none());
    let mut other = frame(b"x".to_vec());
    other.namespace[15] ^= 1;
    assert!(decode(other).is_none());
}

#[test]
fn the_latest_advert_of_a_peer_is_listed() {
    let mut found = Browsing::new();
    let advert = |ticket: &str, label: Option<&str>| {
        Some((ticket.to_string(), label.map(str::to_string)))
    };
    found.hear(Discovery::Discovered { peer: peer("bbb"), advert: advert("t1", None) });
    found.hear(Discovery::Discovered { peer: peer("aaa"), advert: advert("t2", Some("mine")) });
    found.hear(Discovery::Discovered { peer: peer("bbb"), advert: advert("t3", None) });
    found.hear(Discovery::Discovered { peer: peer("ccc"), advert: None });
    found.hear(Discovery::Discovered { peer: peer("ddd"), advert: advert("t4", None) });
    found.hear(Discovery::Expired { peer: peer("ddd") });
    found.hear(Discovery::Other);
    let listing = found.listing();
    let rows: Vec<_> = listing.iter().map(|d| (d.index, d.ticket.as_str())).collect();
    assert_eq!(rows, [(1, "t2"), (2, "t3")]);
    assert_eq!(listing[0].display(), "mine");
    assert_eq!(listing[1].display(), "drop from bb");
}

#[test]
fn browsing_without_discovery_explains_itself() {
    assert!(discovery_is_off().message().contains("mdns"));
}

#[test]
fn a_browser_has_limits() {
    assert!(check_identity(&None).is_ok());
    assert!(check_identity(&Some(vec![0; 32])).is_ok());
    assert_eq!(check_identity(&Some(vec![0; 31])).unwrap_err(), "identity must be 32 bytes");
    assert!(check_publish(2_147_483_648).is_ok());
    assert_eq!(
        check_publish(2_147_483_649).unwrap_err(),
        "blob exceeds 2 GiB in-memory limit"
    );
}

#[test]
fn a_browser_sees_offers_and_events() {
    let record = OfferRecord {
        blob_hash: hash("abcd"),
        name: "raw".into(),
        size: 7,
        media_type: Some("text/plain".into()),
        metadata: Vec::new(),
        aliases: Vec::new(),
        local_status: LocalBlobStatus::Complete,
    };
    let shown = show_offer(&record, "note", "them");
    assert_eq!(shown.text_at("name"), Some("note"));
    assert_eq!(shown.text_at("mediaType"), Some("text/plain"));
    assert_eq!(shown.flag_at("have"), Some(true));
    let them = || peer("them");
    let offer = Offer {
        blob_hash: hash("ab"),
        name: "x".into(),
        size: 1,
        media_type: None,
        metadata: Vec::new(),
    };
    let kinds = vec![
        (DropEvent::PeerJoined { peer: them() }, "peerJoined"),
        (DropEvent::PeerLeft { peer: them() }, "peerLeft"),
        (DropEvent::OfferReceived { from: them(), offer }, "offerReceived"),
        (DropEvent::OfferRejected { from: them(), reason: "r".into() }, "offerRejected"),
        (DropEvent::FetchStarted { hash: hash("a"), provider: them() }, "fetchStarted"),
        (
            DropEvent::FetchProgress { hash: hash("a"), downloaded: 1, total: None },
            "fetchProgress",
        ),
        (DropEvent::FetchCompleted { hash: hash("a"), provider: them() }, "fetchCompleted"),
        (DropEvent::FetchFailed { hash: hash("a"), error: "e".into() }, "fetchFailed"),
        (DropEvent::ProviderAvailable { hash: hash("a"), peer: them() }, "providerAvailable"),
        (
            DropEvent::ProviderUnavailable { hash: hash("a"), peer: them() },
            "providerUnavailable",
        ),
        (
            DropEvent::ProtocolWarning { source: None, warning: "w".into(), kind: WarningKind::RateLimited },
            "protocolWarning",
        ),
        (DropEvent::Other { shown: "new".into() }, "unknown"),
    ];
    for (event, kind) in kinds {
        assert_eq!(show_event(&event).text_at("kind"), Some(kind));
    }
    let event = DropEvent::FetchProgress { hash: hash("a"), downloaded: 1, total: None };
    assert!(matches!(show_event(&event).get("total"), Some(Json::Null)));
}

//! What a browser is shown.
//!
//! The browser node is relay-only and keeps blobs in memory, so it is a *leaf*: it can
//! share and receive, but it is not a long-lived provider.

use crate::inventory::{LocalBlobStatus, OfferRecord};
use crate::json::{number_or_null, object, text_or_null, Json, JsonView};
use crate::service::DropEvent;
use crate::text::opt_text;
use vstd::prelude::*;

verus! {

/// Upper bound on a single fetch or publish. The store is in-memory anyway; this just fails
/// fast on absurd sizes.
pub const MAX_BLOB_BYTES: u64 = 2_147_483_648;

/// How many bytes an identity has.
pub const IDENTITY_BYTES: usize = 32;

/// Checks the identity of a previous run, where there is one.
pub fn check_identity(identity: &Option<Vec<u8>>) -> (r: Result<(), String>)
    ensures
        match r {
            Ok(_) => identity matches Some(bytes) ==> bytes@.len() == IDENTITY_BYTES,
            Err(why) => identity is Some && identity->0@.len() != IDENTITY_BYTES && why@
                == "identity must be 32 bytes"@,
        },
{
    match identity {
        Some(bytes) => if bytes.len() == IDENTITY_BYTES {
            Ok(())
        } else {
            Err("identity must be 32 bytes".to_owned())
        },
        None => Ok(()),
    }
}

/// Checks the size of what is to be published.
pub fn check_publish(size: u64) -> (r: Result<(), String>)
    ensures
        match r {
            Ok(_) => size <= MAX_BLOB_BYTES,
            Err(why) => size > MAX_BLOB_BYTES && why@ == "blob exceeds 2 GiB in-memory limit"@,
        },
{
    if size > MAX_BLOB_BYTES {
        return Err("blob exceeds 2 GiB in-memory limit".to_owned());
    }
    Ok(())
}

/// An offer, as a script sees it. `name` is the name it is shown under, and `from` the id of
/// the peer it was first seen from.
pub open spec fn offer_json(record: OfferRecord, name: Seq<char>, from: Seq<char>) -> JsonView {
    object().with("hash"@, JsonView::Text(record.blob_hash.hex@)).with(
        "name"@,
        JsonView::Text(name),
    ).with("size"@, JsonView::Unsigned(record.size)).with(
        "mediaType"@,
        text_or_null(opt_text(record.media_type)),
    ).with("from"@, JsonView::Text(from)).with(
        "have"@,
        JsonView::Bool(record.local_status is Complete),
    )
}

/// An offer, as a script sees it.
pub fn show_offer(record: &OfferRecord, name: &str, from: &str) -> (r: Json)
    ensures
        r@ == offer_json(*record, name@, from@),
{
    let have = match &record.local_status {
        LocalBlobStatus::Complete => true,
        _ => false,
    };
    Json::object().with("hash", Json::text(record.blob_hash.hex.as_str())).with(
        "name",
        Json::text(name),
    ).with("size", Json::Unsigned(record.size)).with(
        "mediaType",
        Json::text_or_null(&record.media_type),
    ).with("from", Json::text(from)).with("have", Json::Bool(have))
}

/// The name and the fields of a session event, as a script sees it.
pub open spec fn event_json(event: DropEvent) -> JsonView {
    match event {
        DropEvent::PeerJoined { peer } => object().with(
            "kind"@,
            JsonView::Text("peerJoined"@),
        ).with("peer"@, JsonView::Text(peer.id@)),
        DropEvent::PeerLeft { peer } => object().with("kind"@, JsonView::Text("peerLeft"@)).with(
            "peer"@,
            JsonView::Text(peer.id@),
        ),
        DropEvent::OfferReceived { from, offer } => object().with(
            "kind"@,
            JsonView::Text("offerReceived"@),
        ).with("from"@, JsonView::Text(from.id@)).with(
            "hash"@,
            JsonView::Text(offer.blob_hash.hex@),
        ).with("name"@, JsonView::Text(offer.name@)).with(
            "size"@,
            JsonView::Unsigned(offer.size),
        ).with("media_type"@, text_or_null(opt_text(offer.media_type))),
        DropEvent::OfferRejected { from, reason } => object().with(
            "kind"@,
            JsonView::Text("offerRejected"@),
        ).with("from"@, JsonView::Text(from.id@)).with("reason"@, JsonView::Text(reason@)),
        DropEvent::FetchStarted { hash, provider } => object().with(
            "kind"@,
            JsonView::Text("fetchStarted"@),
        ).with("hash"@, JsonView::Text(hash.hex@)).with("provider"@, JsonView::Text(provider.id@)),
        DropEvent::FetchProgress { hash, downloaded, total } => object().with(
            "kind"@,
            JsonView::Text("fetchProgress"@),
        ).with("hash"@, JsonView::Text(hash.hex@)).with(
            "downloaded"@,
            JsonView::Unsigned(downloaded),
        ).with("total"@, number_or_null(total)),
        DropEvent::FetchCompleted { hash, provider } => object().with(
            "kind"@,
            JsonView::Text("fetchCompleted"@),
        ).with("hash"@, JsonView::Text(hash.hex@)).with("provider"@, JsonView::Text(provider.id@)),
        DropEvent::FetchFailed { hash, error } => object().with(
            "kind"@,
            JsonView::Text("fetchFailed"@),
        ).with("hash"@, JsonView::Text(hash.hex@)).with("error"@, JsonView::Text(error@)),
        DropEvent::ProviderAvailable { hash, peer } => object().with(
            "kind"@,
            JsonView::Text("providerAvailable"@),
        ).with("hash"@, JsonView::Text(hash.hex@)).with("peer"@, JsonView::Text(peer.id@)),
        DropEvent::ProviderUnavailable { hash, peer } => object().with(
            "kind"@,
            JsonView::Text("providerUnavailable"@),
        ).with("hash"@, JsonView::Text(hash.hex@)).with("peer"@, JsonView::Text(peer.id@)),
        DropEvent::ProtocolWarning { source, warning, kind } => object().with(
            "kind"@,
            JsonView::Text("protocolWarning"@),
        ).with(
            "from"@,
            match source {
                Some(peer) => JsonView::Text(peer.id@),
                None => JsonView::Null,
            },
        ).with("warning"@, JsonView::Text(warning@)),
        DropEvent::Other { shown } => object().with("kind"@, JsonView::Text("unknown"@)).with(
            "debug"@,
            JsonView::Text(shown@),
        ),
    }
}

/// A session event, as a script sees it: its kind and its fields.
pub fn show_event(event: &DropEvent) -> (r: Json)
    ensures
        r@ == event_json(*event),
{
    match event {
        DropEvent::PeerJoined { peer } => Json::object().with(
            "kind",
            Json::text("peerJoined"),
        ).with("peer", Json::text(peer.id.as_str())),
        DropEvent::PeerLeft { peer } => Json::object().with("kind", Json::text("peerLeft")).with(
            "peer",
            Json::text(peer.id.as_str()),
        ),
        DropEvent::OfferReceived { from, offer } => Json::object().with(
            "kind",
            Json::text("offerReceived"),
        ).with("from", Json::text(from.id.as_str())).with(
            "hash",
            Json::text(offer.blob_hash.hex.as_str()),
        ).with("name", Json::text(offer.name.as_str())).with(
            "size",
            Json::Unsigned(offer.size),
        ).with("media_type", Json::text_or_null(&offer.media_type)),
        DropEvent::OfferRejected { from, reason } => Json::object().with(
            "kind",
            Json::text("offerRejected"),
        ).with("from", Json::text(from.id.as_str())).with("reason", Json::text(reason.as_str())),
        DropEvent::FetchStarted { hash, provider } => Json::object().with(
            "kind",
            Json::text("fetchStarted"),
        ).with("hash", Json::text(hash.hex.as_str())).with(
            "provider",
            Json::text(provider.id.as_str()),
        ),
        DropEvent::FetchProgress { hash, downloaded, total } => Json::object().with(
            "kind",
            Json::text("fetchProgress"),
        ).with("hash", Json::text(hash.hex.as_str())).with(
            "downloaded",
            Json::Unsigned(*downloaded),
        ).with("total", Json::number_or_null(*total)),
        DropEvent::FetchCompleted { hash, provider } => Json::object().with(
            "kind",
            Json::text("fetchCompleted"),
        ).with("hash", Json::text(hash.hex.as_str())).with(
            "provider",
            Json::text(provider.id.as_str()),
        ),
        DropEvent::FetchFailed { hash, error } => Json::object().with(
            "kind",
            Json::text("fetchFailed"),
        ).with("hash", Json::text(hash.hex.as_str())).with("error", Json::text(error.as_str())),
        DropEvent::ProviderAvailable { hash, peer } => Json::object().with(
            "kind",
            Json::text("providerAvailable"),
        ).with("hash", Json::text(hash.hex.as_str())).with("peer", Json::text(peer.id.as_str())),
        DropEvent::ProviderUnavailable { hash, peer } => Json::object().with(
            "kind",
            Json::text("providerUnavailable"),
        ).with("hash", Json::text(hash.hex.as_str())).with("peer", Json::text(peer.id.as_str())),
        DropEvent::ProtocolWarning { source, warning, kind } => {
            let from = match source {
                Some(peer) => Json::text(peer.id.as_str()),
                None => Json::Null,
            };
            Json::object().with("kind", Json::text("protocolWarning")).with("from", from).with(
                "warning",
                Json::text(warning.as_str()),
            )
        },
        DropEvent::Other { shown } => Json::object().with("kind", Json::text("unknown")).with(
            "debug",
            Json::text(shown.as_str()),
        ),
    }
}

} // verus!

//! What holds of offers and events as a web page sees them.

use crate::inventory::OfferRecord;
use crate::json::{added_value_is_found, nothing_is_in_an_empty_object, Json};
use crate::service::DropEvent;
use crate::text::opt_text;
use crate::web::{check_identity, check_publish, show_event, show_offer};
use vstd::prelude::*;

verus! {

/// An offer is told with its hash, its size and its type, the name and sender that go with it, and
/// whether all of it is here.
pub proof fn offers_are_told(record: &OfferRecord, name: &str, from: &str, r: Json)
    requires
        call_ensures(show_offer, (record, name, from), r),
    ensures
        r@.text_at("hash"@) == Some(record.blob_hash.hex@),
        r@.text_at("name"@) == Some(name@),
        r@.number_at("size"@) == Some(record.size),
        r@.text_at("mediaType"@) == opt_text(record.media_type),
        r@.text_at("from"@) == Some(from@),
        r@.flag_at("have"@) == Some(record.local_status is Complete),
{
    broadcast use {added_value_is_found, nothing_is_in_an_empty_object};

    reveal_strlit("hash");
    reveal_strlit("name");
    reveal_strlit("size");
    reveal_strlit("mediaType");
    reveal_strlit("from");
    reveal_strlit("have");
    assert("hash"@.len() == 4 && "name"@.len() == 4 && "size"@.len() == 4
        && "mediaType"@.len() == 9 && "from"@.len() == 4 && "have"@.len() == 4);
    assert("hash"@[2] == 's' && "name"@[2] == 'm' && "size"@[2] == 'z' && "from"@[2] == 'o'
        && "have"@[2] == 'v');
    assert(r@.get("hash"@) is Some);
    assert(r@.get("name"@) is Some);
    assert(r@.get("size"@) is Some);
    assert(r@.get("mediaType"@) is Some);
    assert(r@.get("from"@) is Some);
    assert(r@.get("have"@) is Some);
}

/// An offer that arrives is told with its sender, hash, name, size and type.
pub proof fn received_offers_are_told(event: &DropEvent, r: Json)
    requires
        call_ensures(show_event, (event,), r),
        event is OfferReceived,
    ensures
        r@.text_at("kind"@) == Some("offerReceived"@),
        r@.text_at("from"@) == Some(event->OfferReceived_from.id@),
        r@.text_at("hash"@) == Some(event->OfferReceived_offer.blob_hash.hex@),
        r@.text_at("name"@) == Some(event->OfferReceived_offer.name@),
        r@.number_at("size"@) == Some(event->OfferReceived_offer.size),
        r@.text_at("media_type"@) == opt_text(event->OfferReceived_offer.media_type),
{
    broadcast use {added_value_is_found, nothing_is_in_an_empty_object};

    reveal_strlit("kind");
    reveal_strlit("from");
    reveal_strlit("hash");
    reveal_strlit("name");
    reveal_strlit("size");
    reveal_strlit("media_type");
    assert("kind"@.len() == 4 && "from"@.len() == 4 && "hash"@.len() == 4 && "name"@.len() == 4
        && "size"@.len() == 4 && "media_type"@.len() == 10);
    assert("kind"@[0] == 'k' && "from"@[0] == 'f' && "hash"@[0] == 'h' && "name"@[0] == 'n'
        && "size"@[0] == 's');
    assert(r@.get("kind"@) is Some);
    assert(r@.get("from"@) is Some);
    assert(r@.get("hash"@) is Some);
    assert(r@.get("name"@) is Some);
    assert(r@.get("size"@) is Some);
    assert(r@.get("media_type"@) is Some);
}

/// Every other event is told under a word of its own, with the peer, the hash and the reason that
/// it has.
pub proof fn events_are_told(event: &DropEvent, r: Json)
    requires
        call_ensures(show_event, (event,), r),
    ensures
        match event {
            DropEvent::PeerJoined { peer } => r@.text_at("kind"@) == Some("peerJoined"@)
                && r@.text_at("peer"@) == Some(peer.id@),
            DropEvent::PeerLeft { peer } => r@.text_at("kind"@) == Some("peerLeft"@) && r@.text_at(
                "peer"@,
            ) == Some(peer.id@),
            DropEvent::OfferReceived { .. } => true,
            DropEvent::OfferRejected { from, reason } => r@.text_at("kind"@) == Some(
                "offerRejected"@,
            ) && r@.text_at("from"@) == Some(from.id@) && r@.text_at("reason"@) == Some(reason@),
            DropEvent::FetchStarted { hash, provider } => r@.text_at("kind"@) == Some(
                "fetchStarted"@,
            ) && r@.text_at("hash"@) == Some(hash.hex@) && r@.text_at("provider"@) == Some(
                provider.id@,
            ),
            DropEvent::FetchProgress { hash, downloaded, total } => r@.text_at("kind"@) == Some(
                "fetchProgress"@,
            ) && r@.text_at("hash"@) == Some(hash.hex@) && r@.number_at("downloaded"@) == Some(
                *downloaded,
            ) && r@.number_at("total"@) == *total,
            DropEvent::FetchCompleted { hash, provider } => r@.text_at("kind"@) == Some(
                "fetchCompleted"@,
            ) && r@.text_at("hash"@) == Some(hash.hex@) && r@.text_at("provider"@) == Some(
                provider.id@,
            ),
            DropEvent::FetchFailed { hash, error } => r@.text_at("kind"@) == Some("fetchFailed"@)
                && r@.text_at("hash"@) == Some(hash.hex@) && r@.text_at("error"@) == Some(error@),
            DropEvent::ProviderAvailable { hash, peer } => r@.text_at("kind"@) == Some(
                "providerAvailable"@,
            ) && r@.text_at("hash"@) == Some(hash.hex@) && r@.text_at("peer"@) == Some(peer.id@),
            DropEvent::ProviderUnavailable { hash, peer } => r@.text_at("kind"@) == Some(
                "providerUnavailable"@,
            ) && r@.text_at("hash"@) == Some(hash.hex@) && r@.text_at("peer"@) == Some(peer.id@),
            DropEvent::ProtocolWarning { source, warning, kind } => r@.text_at("kind"@) == Some(
                "protocolWarning"@,
            ) && r@.text_at("warning"@) == Some(warning@) && r@.text_at("from"@) == match source {
                Some(peer) => Some(peer.id@),
                None => None,
            },
            DropEvent::Other { shown } => r@.text_at("kind"@) == Some("unknown"@) && r@.text_at(
                "debug"@,
            ) == Some(shown@),
        },
{
    broadcast use {added_value_is_found, nothing_is_in_an_empty_object};

    reveal_strlit("kind");
    reveal_strlit("peer");
    reveal_strlit("from");
    reveal_strlit("reason");
    reveal_strlit("hash");
    reveal_strlit("provider");
    reveal_strlit("downloaded");
    reveal_strlit("total");
    reveal_strlit("error");
    reveal_strlit("warning");
    reveal_strlit("debug");
    assert("kind"@.len() == 4 && "peer"@.len() == 4 && "from"@.len() == 4
        && "reason"@.len() == 6 && "hash"@.len() == 4 && "provider"@.len() == 8
        && "downloaded"@.len() == 10 && "total"@.len() == 5 && "error"@.len() == 5
        && "warning"@.len() == 7 && "debug"@.len() == 5);
    assert("kind"@[0] == 'k' && "peer"@[0] == 'p' && "from"@[0] == 'f' && "hash"@[0] == 'h');
    assert("total"@[0] == 't' && "error"@[0] == 'e' && "debug"@[0] == 'd');
    assert(r@.get("kind"@) is Some);
    match event {
        DropEvent::PeerJoined { peer } => {
            assert(r@.get("peer"@) is Some);
        },
        DropEvent::PeerLeft { peer } => {
            assert(r@.get("peer"@) is Some);
        },
        DropEvent::OfferReceived { .. } => {},
        DropEvent::OfferRejected { from, reason } => {
            assert(r@.get("from"@) is Some && r@.get("reason"@) is Some);
        },
        DropEvent::FetchStarted { hash, provider } => {
            assert(r@.get("hash"@) is Some && r@.get("provider"@) is Some);
        },
        DropEvent::FetchProgress { hash, downloaded, total } => {
            assert(r@.get("hash"@) is Some && r@.get("downloaded"@) is Some);
            assert(r@.get("total"@) is Some);
        },
        DropEvent::FetchCompleted { hash, provider } => {
            assert(r@.get("hash"@) is Some && r@.get("provider"@) is Some);
        },
        DropEvent::FetchFailed { hash, error } => {
            assert(r@.get("hash"@) is Some && r@.get("error"@) is Some);
        },
        DropEvent::ProviderAvailable { hash, peer } => {
            assert(r@.get("hash"@) is Some && r@.get("peer"@) is Some);
        },
        DropEvent::ProviderUnavailable { hash, peer } => {
            assert(r@.get("hash"@) is Some && r@.get("peer"@) is Some);
        },
        DropEvent::ProtocolWarning { source, warning, kind } => {
            assert(r@.get("from"@) is Some && r@.get("warning"@) is Some);
        },
        DropEvent::Other { shown } => {
            assert(r@.get("debug"@) is Some);
        },
    }
}

/// An identity has 32 bytes, and what is published at most two gibibytes.
pub proof fn limits_are_kept(
    identity: &Option<Vec<u8>>,
    checked: Result<(), String>,
    size: u64,
    r: Result<(), String>,
)
    requires
        call_ensures(check_identity, (identity,), checked),
        call_ensures(check_publish, (size,), r),
    ensures
        checked is Err <==> identity is Some && identity->0@.len() != 32,
        r is Ok <==> size <= 2 * 1024 * 1024 * 1024,
{
}

} // verus!

//! What holds of drops that are found on the local network.

use crate::cli::{pick_nearby, resolve_source, Source};
use crate::ids::PeerId;
use crate::nearby::{Browsing, Discovery, NearbyDrop};
use crate::table::{map_of, rows_are_the_map};
use crate::text::opt_text;
use vstd::prelude::*;

verus! {

/// A peer that advertises a ticket is listed with that ticket and its label under some number, and
/// that number picks that ticket; the numbers count from one.
pub proof fn advertised_drops_can_be_picked(
    browsing: &mut Browsing,
    peer: PeerId,
    ticket: String,
    label: Option<String>,
    after: &Browsing,
    listed: Vec<NearbyDrop>,
)
    requires
        call_ensures(
            Browsing::hear,
            (browsing, Discovery::Discovered { peer, advert: Some((ticket, label)) }),
            (),
        ),
        *after == *final(browsing),
        call_ensures(Browsing::listing, (after,), listed),
    ensures
        exists|i: int|
            0 <= i < listed@.len() && (#[trigger] listed@[i]).index == i + 1 && listed@[i].peer.id@
                == peer.id@ && listed@[i].ticket@ == ticket@ && opt_text(listed@[i].label)
                == opt_text(label) && forall|index: usize, r: Result<String, String>|
                index == i + 1 && #[trigger] call_ensures(pick_nearby, (&listed, index), r) ==> r
                    is Ok && r->Ok_0@ == ticket@,
{
    let rows = after.found.entries();
    rows_are_the_map(rows);
    assert(map_of(rows).contains_key(peer.id@));
    let i = choose|i: int| 0 <= i < rows.len() && (#[trigger] rows[i]).0@ == peer.id@;
    assert(map_of(rows)[rows[i].0@] == rows[i].1);
    assert(listed@[i].index == i + 1);
    assert forall|index: usize, r: Result<String, String>|
        index == i + 1 && #[trigger] call_ensures(pick_nearby, (&listed, index), r) implies r is Ok
        && r->Ok_0@ == ticket@ by {
        assert(listed@[i].index == index);
        if r is Ok {
            let k = choose|k: int|
                {
                    &&& 0 <= k < listed@.len()
                    &&& (#[trigger] listed@[k]).index == index
                    &&& listed@[k].ticket@ == r->Ok_0@
                    &&& forall|j: int| 0 <= j < k ==> (#[trigger] listed@[j]).index != index
                };
            assert(listed@[k].index == k + 1);
        }
    }
}

/// A peer that is gone is listed no more, and the others stay.
pub proof fn peers_that_are_gone_are_not_listed(
    browsing: &mut Browsing,
    peer: PeerId,
    after: &Browsing,
    listed: Vec<NearbyDrop>,
    other: Seq<char>,
)
    requires
        call_ensures(Browsing::hear, (browsing, Discovery::Expired { peer }), ()),
        *after == *final(browsing),
        call_ensures(Browsing::listing, (after,), listed),
        other != peer.id@,
    ensures
        forall|i: int| 0 <= i < listed@.len() ==> (#[trigger] listed@[i]).peer.id@ != peer.id@,
        final(browsing).found@.contains_key(other) <==> old(browsing).found@.contains_key(other),
        old(browsing).found@.contains_key(other) ==> final(browsing).found@[other]
            == old(browsing).found@[other],
{
    let rows = after.found.entries();
    rows_are_the_map(rows);
    assert forall|i: int| 0 <= i < listed@.len() implies (#[trigger] listed@[i]).peer.id@
        != peer.id@ by {
        assert(map_of(rows).contains_key(rows[i].0@));
    }
}

/// Every peer is listed once, with the latest ticket that it advertised.
pub proof fn each_peer_is_listed_once(browsing: &Browsing, listed: Vec<NearbyDrop>, i: int, j: int)
    requires
        call_ensures(Browsing::listing, (browsing,), listed),
        0 <= i < j < listed@.len(),
    ensures
        listed@[i].peer.id@ != listed@[j].peer.id@,
        listed@[i].index == i + 1,
        listed@[i].ticket@ == browsing.found@[listed@[i].peer.id@].ticket@,
{
    let rows = browsing.found.entries();
    rows_are_the_map(rows);
    assert(map_of(rows)[rows[i].0@] == rows[i].1);
    let a = listed@[i];
    let b = listed@[j];
    assert(crate::order::text_before(rows[i].0@, rows[j].0@));
    crate::order::text_before_irreflexive(rows[i].0@);
}

/// Where to receive from: the ticket that is given, else the room, else the number of something
/// nearby, and an error where nothing is given.
pub proof fn the_ticket_comes_before_the_room(
    ticket: Option<String>,
    room: Option<String>,
    nearby: Option<usize>,
    r: Result<Source, String>,
)
    requires
        call_ensures(resolve_source, (ticket, room, nearby), r),
    ensures
        r is Ok && r->Ok_0 is Ticket <==> ticket is Some,
        ticket is Some ==> r->Ok_0->Ticket_0 == ticket->0,
        r is Ok && r->Ok_0 is Room <==> ticket is None && room is Some,
        ticket is None && room is Some ==> r->Ok_0->Room_0 == room->0,
        r is Ok && r->Ok_0 is Nearby <==> ticket is None && room is None && nearby is Some,
        ticket is None && room is None && nearby is Some ==> r->Ok_0->Nearby_0 == nearby->0,
        r is Err <==> ticket is None && room is None && nearby is None,
{
}

} // verus!

//! What is being shared in this room, on this network, right now.
//!
//! When a peer opts into local advertising, it puts a short ticket into its discovery
//! record. Anyone else on the network can then list what is on offer and join it.
//!
//! **This is a broadcast.** Advertising a drop hands its capability to everyone who can see
//! discovery traffic there.

use crate::error::{SdkError, SdkErrorView};
use crate::ids::PeerId;
use crate::table::{keys_ascend, Table};
use crate::text::{copy_text, opt_text};
use vstd::prelude::*;

verus! {

/// A drop advertised by a peer on the local network.
#[derive(Debug)]
pub struct NearbyDrop {
    /// 1-based position in the listing; what the user types.
    pub index: usize,
    /// The advertising peer.
    pub peer: PeerId,
    /// The ticket they advertised, ready to join.
    pub ticket: String,
    /// Whatever name the sharer put in the ticket, if any.
    pub label: Option<String>,
}

/// How a nearby drop is shown.
pub open spec fn shown_as(label: Option<Seq<char>>, peer: Seq<char>) -> Seq<char> {
    match label {
        Some(label) => label,
        None => "drop from "@ + peer,
    }
}

impl NearbyDrop {
    /// Best available display name for a listing.
    pub fn display(&self) -> (r: String)
        ensures
            r@ == shown_as(opt_text(self.label), self.peer.short@),
    {
        match &self.label {
            Some(label) => label.clone(),
            None => "drop from ".to_owned().concat(self.peer.short.as_str()),
        }
    }
}

/// A ticket that somebody advertises.
#[derive(Debug)]
pub struct Advert {
    /// The short form of the advertising peer.
    pub short: String,
    /// The ticket.
    pub ticket: String,
    /// The name in the ticket, if any.
    pub label: Option<String>,
}

/// The error for a stack that cannot listen on the local network.
pub fn discovery_is_off() -> (r: SdkError)
    ensures
        r@ == SdkErrorView::Config(
            "local network discovery is off; build the stack with `mdns: true`"@,
        ),
{
    SdkError::Config("local network discovery is off; build the stack with `mdns: true`".to_owned())
}

/// Something that is heard on the local network.
#[derive(Debug)]
pub enum Discovery {
    /// A peer shows itself. It may advertise something, and that may be a ticket and the
    /// name in it.
    Discovered {
        /// The peer.
        peer: PeerId,
        /// The ticket it advertises and the name in it.
        advert: Option<(String, Option<String>)>,
    },
    /// A peer is gone.
    Expired {
        /// The peer.
        peer: PeerId,
    },
    /// Anything else.
    Other,
}

/// What has been found on the local network: the latest ticket of each peer.
#[derive(Debug)]
pub struct Browsing {
    /// By the peer's id.
    pub found: Table<Advert>,
}

impl Browsing {
    /// Nothing has been found yet.
    pub fn new() -> (r: Browsing)
        ensures
            r.found@ == Map::<Seq<char>, Advert>::empty(),
    {
        Browsing { found: Table::new() }
    }

    /// Takes note of what was heard. Peers that advertise something which is not a drop
    /// ticket are ignored, and a peer that advertises repeatedly is kept once, with its
    /// latest ticket.
    pub fn hear(&mut self, event: Discovery)
        ensures
            match event {
                Discovery::Discovered { peer, advert } => match advert {
                    Some((ticket, label)) => final(self).found@ == old(self).found@.insert(
                        peer.id@,
                        Advert { short: peer.short, ticket, label },
                    ),
                    None => *final(self) == *old(self),
                },
                Discovery::Expired { peer } => final(self).found@ == old(self).found@.remove(
                    peer.id@,
                ),
                Discovery::Other => *final(self) == *old(self),
            },
    {
        match event {
            Discovery::Discovered { peer, advert } => match advert {
                Some((ticket, label)) => {
                    let advert = Advert { short: peer.short, ticket, label };
                    self.found.insert(peer.id.as_str(), advert);
                },
                None => {},
            },
            Discovery::Expired { peer } => {
                let _ = self.found.remove(peer.id.as_str());
            },
            Discovery::Other => {},
        }
    }

    /// What was found, as a numbered listing in the order of the peers' ids.
    pub fn listing(&self) -> (r: Vec<NearbyDrop>)
        ensures
            keys_ascend(self.found.entries()),
            r@.len() == self.found.entries().len(),
            forall|i: int|
                0 <= i < r@.len() ==> {
                    let row = self.found.entries()[i];
                    &&& (#[trigger] r@[i]).index == i + 1
                    &&& r@[i].peer.id@ == row.0@
                    &&& r@[i].peer.short@ == row.1.short@
                    &&& r@[i].ticket@ == row.1.ticket@
                    &&& opt_text(r@[i].label) == opt_text(row.1.label)
                },
    {
        let count: usize = self.found.len();
        let mut out: Vec<NearbyDrop> = Vec::new();
        let mut i: usize = 0;
        while i < count
            invariant
                i <= count == self.found.entries().len(),
                out@.len() == i,
                forall|k: int|
                    0 <= k < i ==> {
                        let row = self.found.entries()[k];
                        &&& (#[trigger] out@[k]).index == k + 1
                        &&& out@[k].peer.id@ == row.0@
                        &&& out@[k].peer.short@ == row.1.short@
                        &&& out@[k].ticket@ == row.1.ticket@
                        &&& opt_text(out@[k].label) == opt_text(row.1.label)
                    },
            decreases count - i,
        {
            let row = self.found.row(i);
            let peer = PeerId { id: row.0.clone(), short: row.1.short.clone() };
            let drop = NearbyDrop {
                index: i + 1,
                peer,
                ticket: row.1.ticket.clone(),
                label: copy_text(&row.1.label),
            };
            out.push(drop);
            i += 1;
        }
        out
    }
}

} // verus!

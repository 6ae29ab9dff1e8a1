//! Everything the user sees in a terminal.
//!
//! Rule of thumb: a person should be able to use this without ever reading a hash. Names
//! come from offers, positions come from the listing, and hashes only appear when there is
//! nothing better to show.

use crate::ids::{BlobHash, PeerId};
use crate::inventory::{kind_text, InventoryItem, LocalBlobStatus};
use crate::service::{DropEvent, Offer, WarningKind};
use crate::size::{human_bytes, human_size};
use crate::table::Table;
use crate::text::{
    add_line, decimal, left_aligned, no_lines, number, one_line, opt_text, pad_left, pad_right,
    percent, percent_of, right_aligned, same, shorten, shortened, texts, wide_number,
};
use vstd::prelude::*;

verus! {

/// How wide a name is shown in a listing.
pub const NAME_WIDTH: usize = 32;

/// Below this many bytes, progress of a transfer is not worth a line.
pub const SIZABLE: u64 = 1_048_576;

/// By how many percent progress must have grown to be worth another line.
pub const PROGRESS_STEP: u128 = 25;

/// The rule above and below the header: sixty-six dashes.
pub const RULE: &'static str = "──────────────────────────────────────────────────────────────────";

/// The session header: who we are, where things go, and the one string the user actually
/// needs.
pub fn banner(
    self_id: &PeerId,
    ticket: &str,
    mode: &str,
    store: &Option<String>,
    out: &str,
) -> (r: Vec<String>)
    ensures
        texts(r@) == seq![
            RULE@,
            "  you      "@ + self_id.short@,
            "  network  "@ + mode@,
            "  keeping  "@ + match store {
                Some(path) => path@,
                None => "memory only (nothing survives exit)"@,
            },
            "  saving   "@ + out@,
            RULE@,
            ""@,
            "  Share this ticket with whoever should get the files:"@,
            ""@,
            "    "@ + ticket@,
            ""@,
            "  They run:  iroh-drop receive <ticket>"@,
            RULE@,
        ],
{
    let keeping = match store {
        Some(path) => path.clone(),
        None => "memory only (nothing survives exit)".to_owned(),
    };
    let mut lines = no_lines();
    add_line(&mut lines, RULE.to_owned());
    add_line(&mut lines, "  you      ".to_owned().concat(self_id.short.as_str()));
    add_line(&mut lines, "  network  ".to_owned().concat(mode));
    add_line(&mut lines, "  keeping  ".to_owned().concat(keeping.as_str()));
    add_line(&mut lines, "  saving   ".to_owned().concat(out));
    add_line(&mut lines, RULE.to_owned());
    add_line(&mut lines, "".to_owned());
    add_line(
        &mut lines,
        "  Share this ticket with whoever should get the files:".to_owned(),
    );
    add_line(&mut lines, "".to_owned());
    add_line(&mut lines, "    ".to_owned().concat(ticket));
    add_line(&mut lines, "".to_owned());
    add_line(&mut lines, "  They run:  iroh-drop receive <ticket>".to_owned());
    add_line(&mut lines, RULE.to_owned());
    assert(texts(lines@) =~= seq![
        RULE@,
        "  you      "@ + self_id.short@,
        "  network  "@ + mode@,
        "  keeping  "@ + keeping@,
        "  saving   "@ + out@,
        RULE@,
        ""@,
        "  Share this ticket with whoever should get the files:"@,
        ""@,
        "    "@ + ticket@,
        ""@,
        "  They run:  iroh-drop receive <ticket>"@,
        RULE@,
    ]);
    lines
}

/// What a listing says of where an item is.
pub open spec fn local_text(status: LocalBlobStatus) -> Seq<char> {
    match status {
        LocalBlobStatus::Complete => "have it"@,
        LocalBlobStatus::Fetching { downloaded, total } => match total {
            Some(total) => if total > 0 {
                "getting "@ + decimal(percent_of(downloaded as nat, total as nat)) + "%"@
            } else {
                "getting"@
            },
            None => "getting"@,
        },
        LocalBlobStatus::Missing => "available"@,
        LocalBlobStatus::Other(shown) => shown@,
    }
}

/// What an item is, and where.
pub fn describe_status(item: &InventoryItem) -> (r: String)
    ensures
        r@ == kind_text(item.is_collection, item.members) + ", "@ + local_text(item.status),
{
    let local = match &item.status {
        LocalBlobStatus::Complete => "have it".to_owned(),
        LocalBlobStatus::Fetching { downloaded, total } => match total {
            Some(total) => if *total > 0 {
                "getting ".to_owned().concat(
                    wide_number(percent(*downloaded, *total)).as_str(),
                ).concat("%")
            } else {
                "getting".to_owned()
            },
            None => "getting".to_owned(),
        },
        LocalBlobStatus::Missing => "available".to_owned(),
        LocalBlobStatus::Other(shown) => shown.clone(),
    };
    item.kind().concat(", ").concat(local.as_str())
}

/// A line of the listing.
pub open spec fn listing_line(
    index: Seq<char>,
    name: Seq<char>,
    size: Seq<char>,
    status: Seq<char>,
) -> Seq<char> {
    right_aligned(index, 3) + "  "@ + left_aligned(name, NAME_WIDTH as nat) + " "@ + right_aligned(
        size,
        10,
    ) + "  "@ + status
}

fn list_line(index: &str, name: &str, size: &str, status: &str) -> (r: String)
    ensures
        r@ == listing_line(index@, name@, size@, status@),
{
    pad_left(index, 3).concat("  ").concat(pad_right(name, NAME_WIDTH).as_str()).concat(
        " ",
    ).concat(pad_left(size, 10).as_str()).concat("  ").concat(status)
}

/// The line of an item.
pub open spec fn item_line(item: InventoryItem) -> Seq<char> {
    listing_line(
        decimal(item.index as nat),
        shortened(item.name@, NAME_WIDTH as nat),
        human_size(item.content_size as nat),
        kind_text(item.is_collection, item.members) + ", "@ + local_text(item.status),
    )
}

/// The numbered listing users pick from.
pub fn print_listing(items: &Vec<InventoryItem>) -> (r: Vec<String>)
    ensures
        texts(r@) == if items@.len() == 0 {
            seq!["Nothing here yet. Files show up as peers offer them."@]
        } else {
            seq![listing_line("#"@, "name"@, "size"@, "status"@)] + Seq::new(
                items@.len(),
                |i: int| item_line(items@[i]),
            ) + seq![""@, "Fetch with:  get <#>   (or a name)"@]
        },
{
    if items.len() == 0 {
        return one_line("Nothing here yet. Files show up as peers offer them.".to_owned());
    }
    let mut lines = one_line(list_line("#", "name", "size", "status"));
    let ghost head = seq![listing_line("#"@, "name"@, "size"@, "status"@)];
    let mut i: usize = 0;
    assert(head + Seq::new(0, |k: int| item_line(items@[k])) =~= head);
    while i < items.len()
        invariant
            i <= items@.len(),
            texts(lines@) == head + Seq::new(i as nat, |k: int| item_line(items@[k])),
        decreases items@.len() - i,
    {
        let item = &items[i];
        let name = shorten(item.name.as_str(), NAME_WIDTH);
        let line = list_line(
            number(item.index as u64).as_str(),
            name.as_str(),
            item.human_size().as_str(),
            describe_status(item).as_str(),
        );
        add_line(&mut lines, line);
        assert(texts(lines@) =~= head + Seq::new((i + 1) as nat, |k: int| item_line(items@[k])));
        i += 1;
    }
    let ghost before = texts(lines@);
    add_line(&mut lines, "".to_owned());
    add_line(&mut lines, "Fetch with:  get <#>   (or a name)".to_owned());
    assert(texts(lines@) =~= before + seq![""@, "Fetch with:  get <#>   (or a name)"@]);
    lines
}

/// What the log of events remembers: names by hash, and how far a transfer was when it was
/// last mentioned.
#[derive(Debug)]
pub struct EventLog {
    /// Names by hash.
    pub names: Table<String>,
    /// Percent by hash.
    pub progress: Table<u128>,
}

/// The first item with this hash.
pub open spec fn item_of(items: Seq<InventoryItem>, hash: Seq<char>) -> Option<InventoryItem>
    decreases items.len(),
{
    if items.len() == 0 {
        None
    } else if items[0].hash.hex@ == hash {
        Some(items[0])
    } else {
        item_of(items.drop_first(), hash)
    }
}

fn find_item(items: &Vec<InventoryItem>, hash: &BlobHash) -> (r: Option<usize>)
    ensures
        match r {
            Some(i) => i < items@.len() && item_of(items@, hash.hex@) == Some(items@[i as int]),
            None => item_of(items@, hash.hex@) is None,
        },
{
    let mut i: usize = 0;
    assert(items@.skip(0) =~= items@);
    while i < items.len()
        invariant
            i <= items@.len(),
            item_of(items@, hash.hex@) == item_of(items@.skip(i as int), hash.hex@),
        decreases items@.len() - i,
    {
        assert(items@.skip(i as int).drop_first() =~= items@.skip(i + 1));
        if items[i].hash.is(hash) {
            return Some(i);
        }
        i += 1;
    }
    None
}

/// Whether some item with this hash has a real name, not just the hash for one.
pub open spec fn named_in(items: Seq<InventoryItem>, hash: Seq<char>) -> bool {
    exists|i: int|
        0 <= i < items.len() && (#[trigger] items[i]).hash.hex@ == hash && items[i].name@ != hash
}

/// Whether a blob has a real (non-hash) name in the listing.
pub fn is_named(items: &Vec<InventoryItem>, hash: &BlobHash) -> (r: bool)
    ensures
        r == named_in(items@, hash.hex@),
{
    let mut i: usize = 0;
    while i < items.len()
        invariant
            i <= items@.len(),
            forall|k: int|
                0 <= k < i ==> !((#[trigger] items@[k]).hash.hex@ == hash.hex@ && items@[k].name@
                    != hash.hex@),
        decreases items@.len() - i,
    {
        if items[i].hash.is(hash) && !same(items[i].name.as_str(), hash.hex.as_str()) {
            return true;
        }
        i += 1;
    }
    false
}

/// What a blob is called: its remembered name, else the name in the listing unless that is
/// just its hash, else its hash in short.
pub open spec fn label_text(
    names: Map<Seq<char>, String>,
    items: Seq<InventoryItem>,
    hash: BlobHash,
) -> Seq<char> {
    if names.contains_key(hash.hex@) {
        "\""@ + names[hash.hex@]@ + "\""@
    } else {
        match item_of(items, hash.hex@) {
            Some(item) => if item.name@ != hash.hex@ {
                "\""@ + item.name@ + "\""@
            } else {
                hash.short@
            },
            None => hash.short@,
        }
    }
}

/// The name that a label brings to mind.
pub open spec fn learned(
    names: Map<Seq<char>, String>,
    items: Seq<InventoryItem>,
    hash: BlobHash,
) -> Map<Seq<char>, String> {
    match item_of(items, hash.hex@) {
        Some(item) => if !names.contains_key(hash.hex@) && item.name@ != hash.hex@ {
            names.insert(hash.hex@, item.name)
        } else {
            names
        },
        None => names,
    }
}

/// What an offer is, for the log: what the user will actually receive, where the listing
/// knows it.
pub open spec fn shape_text(items: Seq<InventoryItem>, offer: Offer) -> Seq<char> {
    match item_of(items, offer.blob_hash.hex@) {
        Some(item) => kind_text(item.is_collection, item.members) + ", "@ + human_size(
            item.content_size as nat,
        ),
        None => human_size(offer.size as nat),
    }
}

/// Whether progress is worth a line: only every so often, and only for sizable transfers.
pub open spec fn worth_a_line(mark: nat, downloaded: u64, total: u64) -> bool {
    total > SIZABLE && (percent_of(downloaded as nat, total as nat) >= mark + PROGRESS_STEP
        || downloaded == total)
}

/// How far a transfer was when it was last mentioned.
pub open spec fn mark_of(progress: Map<Seq<char>, u128>, hash: Seq<char>) -> nat {
    if progress.contains_key(hash) {
        progress[hash] as nat
    } else {
        0
    }
}

/// Whether a warning is for people who did not ask for details: something was slowed down or
/// forgotten.
pub open spec fn is_loud(kind: WarningKind) -> bool {
    kind is RateLimited || kind is InventoryEvicted
}

fn loud(kind: &WarningKind) -> (r: bool)
    ensures
        r == is_loud(*kind),
{
    match kind {
        WarningKind::RateLimited | WarningKind::InventoryEvicted => true,
        WarningKind::Other => false,
    }
}

/// The log line for an event, if it gets one. `verbose` adds protocol chatter.
pub open spec fn event_line(
    names: Map<Seq<char>, String>,
    progress: Map<Seq<char>, u128>,
    items: Seq<InventoryItem>,
    event: DropEvent,
    verbose: bool,
) -> Option<Seq<char>> {
    match event {
        DropEvent::PeerJoined { peer } => Some("\u{b7} "@ + peer.short@ + " joined"@),
        DropEvent::PeerLeft { peer } => Some("\u{b7} "@ + peer.short@ + " left"@),
        DropEvent::OfferReceived { from, offer } => Some(
            "\u{b7} "@ + from.short@ + " offers \""@ + offer.name@ + "\" ("@ + shape_text(
                items,
                offer,
            ) + ")"@,
        ),
        DropEvent::FetchStarted { hash, provider } => if verbose || named_in(items, hash.hex@) {
            Some(
                "\u{2193} getting "@ + label_text(names, items, hash) + " from "@ + provider.short@,
            )
        } else {
            None
        },
        DropEvent::FetchProgress { hash, downloaded, total } => match total {
            Some(total) => if total > 0 && worth_a_line(
                mark_of(progress, hash.hex@),
                downloaded,
                total,
            ) {
                Some(
                    "\u{2193} "@ + label_text(names, items, hash) + " "@ + decimal(
                        percent_of(downloaded as nat, total as nat),
                    ) + "% ("@ + human_size(downloaded as nat) + " of "@ + human_size(total as nat)
                        + ")"@,
                )
            } else {
                None
            },
            None => None,
        },
        DropEvent::FetchCompleted { hash, provider } => if verbose || named_in(items, hash.hex@) {
            Some("\u{2714} got "@ + label_text(names, items, hash) + " from "@ + provider.short@)
        } else {
            None
        },
        DropEvent::FetchFailed { hash, error } => Some(
            "\u{2717} "@ + label_text(names, items, hash) + " failed: "@ + error@,
        ),
        DropEvent::ProviderAvailable { hash, peer } => if verbose {
            Some("\u{b7} "@ + peer.short@ + " also serves "@ + label_text(names, items, hash))
        } else {
            None
        },
        DropEvent::ProviderUnavailable { hash, peer } => if verbose {
            Some("\u{b7} "@ + peer.short@ + " stopped serving "@ + label_text(names, items, hash))
        } else {
            None
        },
        DropEvent::OfferRejected { from, reason } => Some(
            "! ignored a message from "@ + from.short@ + ": "@ + reason@,
        ),
        DropEvent::ProtocolWarning { source, warning, kind } => if verbose || is_loud(kind) {
            Some(
                "! "@ + warning@ + match source {
                    Some(peer) => " (from "@ + peer.short@ + ")"@,
                    None => ""@,
                },
            )
        } else {
            None
        },
        DropEvent::Other { shown } => if verbose {
            Some("\u{b7} "@ + shown@)
        } else {
            None
        },
    }
}

/// The blob that an event's line calls by name.
pub open spec fn labelled(event: DropEvent) -> Option<BlobHash> {
    match event {
        DropEvent::FetchStarted { hash, provider } => Some(hash),
        DropEvent::FetchProgress { hash, downloaded, total } => Some(hash),
        DropEvent::FetchCompleted { hash, provider } => Some(hash),
        DropEvent::FetchFailed { hash, error } => Some(hash),
        DropEvent::ProviderAvailable { hash, peer } => Some(hash),
        DropEvent::ProviderUnavailable { hash, peer } => Some(hash),
        _ => None,
    }
}

/// The names that are remembered after an event.
pub open spec fn names_after(
    names: Map<Seq<char>, String>,
    progress: Map<Seq<char>, u128>,
    items: Seq<InventoryItem>,
    event: DropEvent,
    verbose: bool,
) -> Map<Seq<char>, String> {
    match event {
        DropEvent::OfferReceived { from, offer } => names.insert(
            offer.blob_hash.hex@,
            offer.name,
        ),
        _ => if event_line(names, progress, items, event, verbose) is Some && labelled(
            event,
        ) is Some {
            learned(names, items, labelled(event)->0)
        } else {
            names
        },
    }
}

/// The progress that is remembered after an event.
pub open spec fn marks_after(progress: Map<Seq<char>, u128>, event: DropEvent) -> Map<
    Seq<char>,
    u128,
> {
    match event {
        DropEvent::FetchProgress { hash, downloaded, total } => match total {
            Some(total) => if total > 0 {
                let mark = mark_of(progress, hash.hex@);
                progress.insert(
                    hash.hex@,
                    if worth_a_line(mark, downloaded, total) {
                        percent_of(downloaded as nat, total as nat) as u128
                    } else {
                        mark as u128
                    },
                )
            } else {
                progress
            },
            None => progress,
        },
        DropEvent::FetchCompleted { hash, provider } => progress.remove(hash.hex@),
        DropEvent::FetchFailed { hash, error } => progress.remove(hash.hex@),
        _ => progress,
    }
}

impl EventLog {
    /// Nothing is remembered yet.
    pub fn new() -> (r: EventLog)
        ensures
            r.names@ == Map::<Seq<char>, String>::empty(),
            r.progress@ == Map::<Seq<char>, u128>::empty(),
    {
        EventLog { names: Table::new(), progress: Table::new() }
    }

    /// Best available human label for a blob.
    pub fn label(&mut self, items: &Vec<InventoryItem>, hash: &BlobHash) -> (r: String)
        ensures
            r@ == label_text(old(self).names@, items@, *hash),
            final(self).names@ == learned(old(self).names@, items@, *hash),
            final(self).progress == old(self).progress,
    {
        if let Some(name) = self.names.get(hash.hex.as_str()) {
            return "\"".to_owned().concat(name.as_str()).concat("\"");
        }
        if let Some(i) = find_item(items, hash) {
            if !same(items[i].name.as_str(), hash.hex.as_str()) {
                self.names.insert(hash.hex.as_str(), items[i].name.clone());
                return "\"".to_owned().concat(items[i].name.as_str()).concat("\"");
            }
        }
        hash.fmt_short()
    }

    /// The log line for an event, if it gets one. Lines about a collection's members are
    /// left to the fetcher, which reports them by path.
    pub fn print_event(
        &mut self,
        event: &DropEvent,
        items: &Vec<InventoryItem>,
        verbose: bool,
    ) -> (r: Option<String>)
        ensures
            opt_text(r) == event_line(
                old(self).names@,
                old(self).progress@,
                items@,
                *event,
                verbose,
            ),
            final(self).names@ == names_after(
                old(self).names@,
                old(self).progress@,
                items@,
                *event,
                verbose,
            ),
            final(self).progress@ == marks_after(old(self).progress@, *event),
    {
        match event {
            DropEvent::PeerJoined { peer } => Some(
                "\u{b7} ".to_owned().concat(peer.short.as_str()).concat(" joined"),
            ),
            DropEvent::PeerLeft { peer } => Some(
                "\u{b7} ".to_owned().concat(peer.short.as_str()).concat(" left"),
            ),
            DropEvent::OfferReceived { from, offer } => {
                self.names.insert(offer.blob_hash.hex.as_str(), offer.name.clone());
                let shape = match find_item(items, &offer.blob_hash) {
                    Some(i) => items[i].kind().concat(", ").concat(items[i].human_size().as_str()),
                    None => human_bytes(offer.size),
                };
                Some(
                    "\u{b7} ".to_owned().concat(from.short.as_str()).concat(" offers \"").concat(
                        offer.name.as_str(),
                    ).concat("\" (").concat(shape.as_str()).concat(")"),
                )
            },
            DropEvent::FetchStarted { hash, provider } => {
                if !verbose && !is_named(items, hash) {
                    return None;
                }
                let label = self.label(items, hash);
                Some(
                    "\u{2193} getting ".to_owned().concat(label.as_str()).concat(" from ").concat(
                        provider.short.as_str(),
                    ),
                )
            },
            DropEvent::FetchProgress { hash, downloaded, total } => {
                let total: u64 = match total {
                    Some(total) => *total,
                    None => {
                        return None;
                    },
                };
                if total == 0 {
                    return None;
                }
                let done: u128 = percent(*downloaded, total);
                let mark: u128 = match self.progress.get(hash.hex.as_str()) {
                    Some(mark) => *mark,
                    None => 0,
                };
                let grown = done >= PROGRESS_STEP && done - PROGRESS_STEP >= mark;
                if total > SIZABLE && (grown || *downloaded == total) {
                    self.progress.insert(hash.hex.as_str(), done);
                    let label = self.label(items, hash);
                    Some(
                        "\u{2193} ".to_owned().concat(label.as_str()).concat(" ").concat(
                            wide_number(done).as_str(),
                        ).concat("% (").concat(human_bytes(*downloaded).as_str()).concat(
                            " of ",
                        ).concat(human_bytes(total).as_str()).concat(")"),
                    )
                } else {
                    self.progress.insert(hash.hex.as_str(), mark);
                    None
                }
            },
            DropEvent::FetchCompleted { hash, provider } => {
                let _ = self.progress.remove(hash.hex.as_str());
                if !verbose && !is_named(items, hash) {
                    return None;
                }
                let label = self.label(items, hash);
                Some(
                    "\u{2714} got ".to_owned().concat(label.as_str()).concat(" from ").concat(
                        provider.short.as_str(),
                    ),
                )
            },
            DropEvent::FetchFailed { hash, error } => {
                let _ = self.progress.remove(hash.hex.as_str());
                let label = self.label(items, hash);
                Some(
                    "\u{2717} ".to_owned().concat(label.as_str()).concat(" failed: ").concat(
                        error.as_str(),
                    ),
                )
            },
            DropEvent::ProviderAvailable { hash, peer } => {
                if !verbose {
                    return None;
                }
                let label = self.label(items, hash);
                Some(
                    "\u{b7} ".to_owned().concat(peer.short.as_str()).concat(
                        " also serves ",
                    ).concat(label.as_str()),
                )
            },
            DropEvent::ProviderUnavailable { hash, peer } => {
                if !verbose {
                    return None;
                }
                let label = self.label(items, hash);
                Some(
                    "\u{b7} ".to_owned().concat(peer.short.as_str()).concat(
                        " stopped serving ",
                    ).concat(label.as_str()),
                )
            },
            DropEvent::OfferRejected { from, reason } => Some(
                "! ignored a message from ".to_owned().concat(from.short.as_str()).concat(
                    ": ",
                ).concat(reason.as_str()),
            ),
            DropEvent::ProtocolWarning { source, warning, kind } => {
                if !verbose && !loud(kind) {
                    return None;
                }
                let tail = match source {
                    Some(peer) => " (from ".to_owned().concat(peer.short.as_str()).concat(")"),
                    None => "".to_owned(),
                };
                Some("! ".to_owned().concat(warning.as_str()).concat(tail.as_str()))
            },
            DropEvent::Other { shown } => if verbose {
                Some("\u{b7} ".to_owned().concat(shown.as_str()))
            } else {
                None
            },
        }
    }
}

/// A transfer that reaches its end gets a line, however recently one was printed, if it is
/// sizable at all.
pub proof fn the_end_is_worth_a_line(mark: nat, total: u64)
    requires
        total > SIZABLE,
    ensures
        worth_a_line(mark, total, total),
{
}

/// A warning that something was slowed down or forgotten is shown even to people who did not
/// ask for details; of the others they see nothing.
pub proof fn loud_warnings_are_shown(
    names: Map<Seq<char>, String>,
    progress: Map<Seq<char>, u128>,
    items: Seq<InventoryItem>,
    source: Option<PeerId>,
    warning: String,
    kind: WarningKind,
    verbose: bool,
)
    ensures
        event_line(
            names,
            progress,
            items,
            DropEvent::ProtocolWarning { source, warning, kind },
            verbose,
        ) is Some <==> verbose || kind is RateLimited || kind is InventoryEvicted,
{
}

} // verus!

//! What the window says about the state.
//!
//! There are no peer ids, hashes, tickets-as-jargon, or protocol words in the window. The
//! only string a person sees is the link, and the only decision they make is yes or no.
//! Names that somebody else chose are always shown quoted, so that they can never look like
//! our own text.

use crate::bridge::{AvailableRow, DropRow, Incoming, Transfer, UiState};
use crate::path::{before_last_slash, parent_of};
use crate::size::{human_amount, human_parts, human_size, human_unit};
use crate::text::{
    decimal, number, opt_text, quote, quoted, same, shorten, shortened, texts, wide_number,
};
use crate::ticket::extract_ticket;
use vstd::prelude::*;

verus! {

/// How long the copy button says that it copied, in milliseconds.
pub const COPIED_FOR: u64 = 2_000;

/// How many transfers are shown.
pub const SHOWN_TRANSFERS: usize = 8;

/// How much of an error a row shows, in characters.
pub const SHOWN_ERROR: usize = 40;

/// What the dot in the corner means.
pub fn status_tip(connected: bool) -> (r: &'static str)
    ensures
        r@ == if connected {
            "Ready"@
        } else {
            "Not connected"@
        },
{
    if connected {
        "Ready"
    } else {
        "Not connected"
    }
}

/// The line for the last error.
pub fn error_line(error: &str) -> (r: String)
    ensures
        r@ == "\u{26a0} "@ + error@,
{
    "\u{26a0} ".to_owned().concat(error)
}

/// The line of a card that names the offer.
pub fn card_title(incoming: &Incoming) -> (r: String)
    ensures
        r@ == quoted(incoming.name@) + "   "@ + incoming.size@,
{
    quote(incoming.name.as_str()).concat("   ").concat(incoming.size.as_str())
}

/// The name of the first hosted drop with this handle, or nothing.
pub open spec fn group_name(drops: Seq<DropRow>, handle: Seq<char>) -> Seq<char>
    decreases drops.len(),
{
    if drops.len() == 0 {
        ""@
    } else if drops[0].handle@ == handle {
        drops[0].name@
    } else {
        group_name(drops.drop_first(), handle)
    }
}

fn find_group(drops: &Vec<DropRow>, handle: &str) -> (r: String)
    ensures
        r@ == group_name(drops@, handle@),
{
    let mut i: usize = 0;
    assert(drops@.skip(0) =~= drops@);
    while i < drops.len()
        invariant
            i <= drops@.len(),
            group_name(drops@, handle@) == group_name(drops@.skip(i as int), handle@),
        decreases drops@.len() - i,
    {
        assert(drops@.skip(i as int).drop_first() =~= drops@.skip(i + 1));
        if same(drops[i].handle.as_str(), handle) {
            return drops[i].name.clone();
        }
        i += 1;
    }
    "".to_owned()
}

/// How many whole seconds are left until a time.
pub open spec fn seconds_left(until: u128, now: u64) -> nat {
    if until <= now {
        0
    } else {
        ((until - now) / 1000) as nat
    }
}

/// A number of seconds as minutes and seconds.
pub open spec fn clock(seconds: nat) -> Seq<char> {
    decimal(seconds / 60) + ":"@ + (if seconds % 60 < 10 {
        "0"@ + decimal(seconds % 60)
    } else {
        decimal(seconds % 60)
    })
}

/// Who a card is from, in which group, and how long it can be answered.
pub open spec fn context_text(
    from: Seq<char>,
    group: Seq<char>,
    seconds: nat,
) -> Seq<char> {
    (if group.len() == 0 {
        "from "@ + from
    } else {
        "from "@ + from + "  \u{2022}  in "@ + group
    }) + "  \u{2022}  expires in "@ + clock(seconds)
}

fn show_clock(seconds: u128) -> (r: String)
    ensures
        r@ == clock(seconds as nat),
{
    let minutes = wide_number(seconds / 60).concat(":");
    let rest: u128 = seconds % 60;
    if rest < 10 {
        let r = minutes.concat("0").concat(wide_number(rest).as_str());
        assert(r@ =~= clock(seconds as nat));
        r
    } else {
        minutes.concat(wide_number(rest).as_str())
    }
}

/// The small print of a card. `now` is in milliseconds.
pub fn card_context(incoming: &Incoming, drops: &Vec<DropRow>, now: u64) -> (r: String)
    ensures
        r@ == context_text(
            incoming.from@,
            group_name(drops@, incoming.drop@),
            seconds_left(incoming.expires_at, now),
        ),
{
    let until: u128 = incoming.expires_at;
    let left: u128 = if until <= now as u128 {
        0
    } else {
        (until - now as u128) / 1000
    };
    let group = find_group(drops, incoming.drop.as_str());
    let context = "from ".to_owned().concat(incoming.from.as_str());
    let context = if group.as_str().unicode_len() == 0 {
        context
    } else {
        context.concat("  \u{2022}  in ").concat(group.as_str())
    };
    context.concat("  \u{2022}  expires in ").concat(show_clock(left).as_str())
}

/// What the send box says.
pub fn send_hint(hovering: bool) -> (r: &'static str)
    ensures
        r@ == if hovering {
            "Release to send"@
        } else {
            "Drag files onto this window, or:"@
        },
{
    if hovering {
        "Release to send"
    } else {
        "Drag files onto this window, or:"
    }
}

/// What stands above the link.
pub fn share_heading(name: &Option<String>) -> (r: String)
    ensures
        r@ == match name {
            Some(name) => "Ready to send \u{2014} "@ + quoted(name@),
            None => "Ready to send"@,
        },
{
    match name {
        Some(name) => "Ready to send \u{2014} ".to_owned().concat(quote(name.as_str()).as_str()),
        None => "Ready to send".to_owned(),
    }
}

/// Whether the link was copied a moment ago.
pub fn recently_copied(copied_at: Option<u64>, now: u64) -> (r: bool)
    ensures
        r == (copied_at is Some && now - copied_at->0 < COPIED_FOR),
{
    match copied_at {
        Some(at) => now < at || now - at < COPIED_FOR,
        None => false,
    }
}

/// What the copy button says.
pub fn copy_label(recently: bool) -> (r: &'static str)
    ensures
        r@ == if recently {
            "Copied \u{2713}"@
        } else {
            "Copy link"@
        },
{
    if recently {
        "Copied \u{2713}"
    } else {
        "Copy link"
    }
}

/// Whether what was pasted can be received.
pub fn can_receive(input: &str) -> (r: bool)
    ensures
        r == (crate::bridge::pasted_ticket(input@) is Some),
{
    extract_ticket(input).is_some()
}

/// "1.2 of 3.4 MiB", when the total is known.
pub fn progress_label(transfer: &Transfer) -> (r: Option<String>)
    ensures
        opt_text(r) == progress_text(*transfer),
{
    match transfer.total {
        Some(total) => if total > 0 {
            let (done, done_unit) = human_parts(transfer.done);
            let (all, unit) = human_parts(total);
            let done = if same(done_unit, unit) {
                done
            } else {
                done.concat(done_unit)
            };
            Some(done.concat(" of ").concat(all.concat(unit).as_str()))
        } else {
            None
        },
        None => None,
    }
}

/// "1.2 of 3.4 MiB", when the total is known: a unit that both counts are written in stands
/// once, behind the total.
pub open spec fn progress_text(transfer: Transfer) -> Option<Seq<char>> {
    match transfer.total {
        Some(total) => if total > 0 {
            let done = if human_unit(transfer.done as nat) == human_unit(total as nat) {
                human_amount(transfer.done as nat)
            } else {
                human_size(transfer.done as nat)
            };
            Some(done + " of "@ + human_size(total as nat))
        } else {
            None
        },
        None => None,
    }
}

/// A row for a transfer.
#[derive(Debug)]
pub enum TransferRow {
    /// It failed.
    Failed {
        /// What failed.
        label: String,
        /// Why, in short.
        why: String,
        /// Whether it can be tried again.
        retry: bool,
    },
    /// It finished.
    Finished {
        /// What.
        label: String,
        /// The folder to show.
        folder: Option<String>,
    },
    /// It is under way.
    Running {
        /// What.
        label: String,
        /// How far, in words.
        progress: Option<String>,
    },
}

/// The model of a [`TransferRow`].
#[verifier::ext_equal]
pub enum TransferRowView {
    /// It failed.
    Failed {
        /// What failed.
        label: Seq<char>,
        /// Why, in short.
        why: Seq<char>,
        /// Whether it can be tried again.
        retry: bool,
    },
    /// It finished.
    Finished {
        /// What.
        label: Seq<char>,
        /// The folder to show.
        folder: Option<Seq<char>>,
    },
    /// It is under way.
    Running {
        /// What.
        label: Seq<char>,
        /// How far, in words.
        progress: Option<Seq<char>>,
    },
}

impl View for TransferRow {
    type V = TransferRowView;

    open spec fn view(&self) -> TransferRowView {
        match self {
            TransferRow::Failed { label, why, retry } => TransferRowView::Failed {
                label: label@,
                why: why@,
                retry: *retry,
            },
            TransferRow::Finished { label, folder } => TransferRowView::Finished {
                label: label@,
                folder: opt_text(*folder),
            },
            TransferRow::Running { label, progress } => TransferRowView::Running {
                label: label@,
                progress: opt_text(*progress),
            },
        }
    }
}

/// The row for a transfer.
pub open spec fn transfer_row(t: Transfer) -> TransferRowView {
    match t.failed {
        Some(error) => TransferRowView::Failed {
            label: "\u{26a0} "@ + quoted(t.name@),
            why: shortened(error@, SHOWN_ERROR as nat),
            retry: t.drop@.len() > 0,
        },
        None => if t.finished {
            TransferRowView::Finished {
                label: "\u{2713} "@ + quoted(t.name@),
                folder: if t.saved_to@.len() > 0 {
                    Some(before_last_slash(t.saved_to@[0]@))
                } else {
                    None
                },
            }
        } else {
            TransferRowView::Running { label: quoted(t.name@), progress: progress_text(t) }
        },
    }
}

fn show_transfer(t: &Transfer) -> (r: TransferRow)
    ensures
        r@ == transfer_row(*t),
{
    match &t.failed {
        Some(error) => TransferRow::Failed {
            label: "\u{26a0} ".to_owned().concat(quote(t.name.as_str()).as_str()),
            why: shorten(error.as_str(), SHOWN_ERROR),
            retry: t.drop.as_str().unicode_len() > 0,
        },
        None => if t.finished {
            let folder = if t.saved_to.len() > 0 {
                Some(parent_of(t.saved_to[0].as_str()).to_owned())
            } else {
                None
            };
            TransferRow::Finished {
                label: "\u{2713} ".to_owned().concat(quote(t.name.as_str()).as_str()),
                folder,
            }
        } else {
            TransferRow::Running { label: quote(t.name.as_str()), progress: progress_label(t) }
        },
    }
}

/// How many rows there are for so many transfers.
pub open spec fn rows_shown(transfers: nat) -> nat {
    if transfers < SHOWN_TRANSFERS {
        transfers
    } else {
        SHOWN_TRANSFERS as nat
    }
}

/// The rows for the latest transfers, the latest first.
pub fn transfer_rows(transfers: &Vec<Transfer>) -> (r: Vec<TransferRow>)
    ensures
        r@.len() == rows_shown(transfers@.len()),
        forall|i: int|
            0 <= i < r@.len() ==> (#[trigger] r@[i])@ == transfer_row(
                transfers@[transfers@.len() - 1 - i],
            ),
{
    let n: usize = transfers.len();
    let shown: usize = if n < SHOWN_TRANSFERS {
        n
    } else {
        SHOWN_TRANSFERS
    };
    let mut out: Vec<TransferRow> = Vec::new();
    let mut i: usize = 0;
    while i < shown
        invariant
            i <= shown <= n == transfers@.len(),
            out@.len() == i,
            forall|k: int|
                0 <= k < i ==> (#[trigger] out@[k])@ == transfer_row(transfers@[n - 1 - k]),
        decreases shown - i,
    {
        out.push(show_transfer(&transfers[n - 1 - i]));
        i += 1;
    }
    out
}

/// Whether there is anything to clear.
pub fn any_finished(transfers: &Vec<Transfer>) -> (r: bool)
    ensures
        r == exists|i: int| 0 <= i < transfers@.len() && (#[trigger] transfers@[i]).finished,
{
    let mut i: usize = 0;
    while i < transfers.len()
        invariant
            i <= transfers@.len(),
            forall|k: int| 0 <= k < i ==> !(#[trigger] transfers@[k]).finished,
        decreases transfers@.len() - i,
    {
        if transfers[i].finished {
            return true;
        }
        i += 1;
    }
    false
}

/// The line for something that is on offer.
pub fn available_line(row: &AvailableRow) -> (r: String)
    ensures
        r@ == quoted(row.name@) + "  \u{2014} "@ + row.size@ + " in "@ + row.group@,
{
    quote(row.name.as_str()).concat("  \u{2014} ").concat(row.size.as_str()).concat(
        " in ",
    ).concat(row.group.as_str())
}

/// What tells an offer from every other: its drop and its number there.
pub open spec fn offer_key(row: AvailableRow) -> Seq<char> {
    row.drop@ + "/"@ + row.pick@
}

/// What tells an offer from every other.
pub fn key_of(row: &AvailableRow) -> (r: String)
    ensures
        r@ == offer_key(*row),
{
    row.drop.clone().concat("/").concat(row.pick.as_str())
}

/// Whether one of the offers has the key `key`.
pub open spec fn is_listed(available: Seq<AvailableRow>, key: Seq<char>) -> bool {
    exists|i: int| 0 <= i < available.len() && offer_key(#[trigger] available[i]) == key
}

/// The keys that are still listed.
pub open spec fn listed_keys(keys: Seq<Seq<char>>, available: Seq<AvailableRow>) -> Seq<Seq<char>>
    decreases keys.len(),
{
    if keys.len() == 0 {
        Seq::empty()
    } else {
        let front = listed_keys(keys.drop_last(), available);
        if is_listed(available, keys.last()) {
            front.push(keys.last())
        } else {
            front
        }
    }
}

/// Of the offers that were asked for, those that are still listed: one whose row has left
/// the list (the transfer started) may be asked for again.
pub fn still_getting(keys: &Vec<String>, available: &Vec<AvailableRow>) -> (r: Vec<String>)
    ensures
        texts(r@) == listed_keys(texts(keys@), available@),
{
    let mut out: Vec<String> = Vec::new();
    let ghost all = texts(keys@);
    let mut i: usize = 0;
    assert(texts(out@) =~= Seq::<Seq<char>>::empty());
    assert(all.take(0) =~= Seq::<Seq<char>>::empty());
    while i < keys.len()
        invariant
            i <= keys@.len(),
            all == texts(keys@),
            texts(out@) == listed_keys(all.take(i as int), available@),
        decreases keys@.len() - i,
    {
        assert(all.take(i + 1).drop_last() =~= all.take(i as int));
        assert(all.take(i + 1).last() == keys@[i as int]@);
        let mut listed = false;
        let mut k: usize = 0;
        while k < available.len() && !listed
            invariant
                k <= available@.len(),
                i < keys@.len(),
                listed ==> is_listed(available@, keys@[i as int]@),
                !listed ==> forall|j: int|
                    0 <= j < k ==> offer_key(#[trigger] available@[j]) != keys@[i as int]@,
            decreases available@.len() - k,
        {
            if same(key_of(&available[k]).as_str(), keys[i].as_str()) {
                assert(offer_key(available@[k as int]) == keys@[i as int]@);
                listed = true;
            }
            k += 1;
        }
        if listed {
            let ghost before = out@;
            let key = keys[i].clone();
            out.push(key);
            assert(texts(out@) =~= texts(before).push(key@));
        }
        i += 1;
    }
    assert(all.take(i as int) =~= all);
    out
}

/// What the button of an offer says.
pub fn get_label(pending: bool) -> (r: &'static str)
    ensures
        r@ == if pending {
            "Getting\u{2026}"@
        } else {
            "Get"@
        },
{
    if pending {
        "Getting\u{2026}"
    } else {
        "Get"
    }
}

/// The line for a hosted drop.
pub fn group_line(row: &DropRow) -> (r: String)
    ensures
        r@ == row.name@ + "  \u{2014} "@ + decimal(row.files as nat) + " file(s), "@ + (if row.peers
            == 0 {
            "waiting"@
        } else {
            decimal(row.peers as nat) + " connected"@
        }),
{
    let peers = if row.peers == 0 {
        "waiting".to_owned()
    } else {
        number(row.peers).concat(" connected")
    };
    row.name.clone().concat("  \u{2014} ").concat(number(row.files).as_str()).concat(
        " file(s), ",
    ).concat(peers.as_str())
}

/// What the button that leaves a hosted drop says.
pub fn leave_label(mine: bool) -> (r: &'static str)
    ensures
        r@ == if mine {
            "Stop"@
        } else {
            "Leave"@
        },
{
    if mine {
        "Stop"
    } else {
        "Leave"
    }
}

/// Whether there is nothing to show yet.
pub fn nothing_yet(state: &UiState) -> (r: bool)
    ensures
        r == (state.drops@.len() == 0 && state.transfers@.len() == 0 && state.available@.len() == 0
            && state.incoming@.len() == 0 && state.share_link is None),
{
    state.drops.len() == 0 && state.transfers.len() == 0 && state.available.len() == 0
        && state.incoming.len() == 0 && state.share_link.is_none()
}

} // verus!

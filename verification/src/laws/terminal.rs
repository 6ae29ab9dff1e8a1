//! What holds of what a terminal and a window show.

use crate::bridge::{AvailableRow, DropRow, Incoming, Transfer, UiState};
use crate::ids::BlobHash;
use crate::inventory::InventoryItem;
use crate::laws::collections::lemma_last_slash;
use crate::service::DropEvent;
use crate::size::{human_amount, human_size, human_unit};
use crate::terminal::{describe_status, print_listing, EventLog};
use crate::text::{decimal, opt_text, percent_of, quoted, texts};
use crate::window::{
    card_context, group_name, listed_keys, nothing_yet, progress_label, recently_copied,
    still_getting, transfer_rows, TransferRow, TransferRowView,
};
use vstd::prelude::*;

verus! {

/// A listing has a line for each item between its heading and its hint: the number at the right of
/// three columns, the name at the left of thirty-two, then the size and the status.
pub proof fn each_item_has_its_line(items: &Vec<InventoryItem>, r: Vec<String>, i: int)
    requires
        call_ensures(print_listing, (items,), r),
        0 <= i < items@.len(),
        decimal(items@[i].index as nat).len() <= 3,
        items@[i].name@.len() <= 32,
        human_size(items@[i].content_size as nat).len() <= 10,
    ensures
        r@.len() == items@.len() + 3,
        ({
            let line = r@[i + 1]@;
            let number = decimal(items@[i].index as nat);
            let name = items@[i].name@;
            let size = human_size(items@[i].content_size as nat);
            &&& line.subrange(3 - number.len(), 3) == number
            &&& line.subrange(5, 5 + name.len() as int) == name
            &&& line.subrange(48 - size.len(), 48) == size
        }),
{
    let told = texts(r@);
    assert(told.len() == items@.len() + 3);
    assert(told[i + 1] == r@[i + 1]@);
    let line = r@[i + 1]@;
    let number = decimal(items@[i].index as nat);
    let name = items@[i].name@;
    let size = human_size(items@[i].content_size as nat);
    reveal_strlit("  ");
    reveal_strlit(" ");
    assert(line == crate::terminal::item_line(items@[i]));
    assert(line.subrange(3 - number.len(), 3) =~= number);
    assert(line.subrange(5, 5 + name.len() as int) =~= name);
    assert(line.subrange(48 - size.len(), 48) =~= size);
}

/// What is said of an item's whereabouts: that it is here, that it is available, or how much of it
/// has arrived, in percent and rounded down.
pub proof fn whereabouts_are_told(item: &InventoryItem, r: String)
    requires
        call_ensures(describe_status, (item,), r),
        !item.is_collection,
    ensures
        item.status is Missing ==> r@ == "file, available"@,
        item.status is Complete ==> r@ == "file, have it"@,
        item.status is Fetching && item.status->total is Some && item.status->total->0 > 0
            ==> exists|percent: nat|
            percent * item.status->total->0 <= 100 * item.status->downloaded < (percent + 1)
                * item.status->total->0 && r@ == "file, getting "@ + #[trigger] decimal(percent)
                + "%"@,
{
    reveal_strlit("file");
    reveal_strlit(", ");
    reveal_strlit("available");
    reveal_strlit("have it");
    reveal_strlit("getting ");
    reveal_strlit("file, available");
    reveal_strlit("file, have it");
    reveal_strlit("file, getting ");
    if item.status is Missing {
        assert(r@ =~= "file, available"@);
    }
    if item.status is Complete {
        assert(r@ =~= "file, have it"@);
    }
    if item.status is Fetching && item.status->total is Some && item.status->total->0 > 0 {
        let part = item.status->downloaded as nat;
        let whole = item.status->total->0 as nat;
        let percent = percent_of(part, whole);
        assert(percent * whole <= part * 100 < (percent + 1) * whole) by (nonlinear_arith)
            requires
                percent == part * 100 / whole,
                whole > 0,
        ;
        assert(r@ =~= "file, getting "@ + decimal(percent) + "%"@);
    }
}

/// An offer is told with who offers it and its name; from then on its hash is called by that name.
pub proof fn offered_names_are_used(
    log: &mut EventLog,
    event: &DropEvent,
    items: &Vec<InventoryItem>,
    verbose: bool,
    r: Option<String>,
    later: &mut EventLog,
    others: &Vec<InventoryItem>,
    hash: &BlobHash,
    label: String,
)
    requires
        call_ensures(EventLog::print_event, (log, event, items, verbose), r),
        event is OfferReceived,
        *old(later) == *final(log),
        call_ensures(EventLog::label, (later, others, hash), label),
        hash.hex@ == event->OfferReceived_offer.blob_hash.hex@,
    ensures
        r is Some,
        ("\u{b7} "@ + event->OfferReceived_from.short@ + " offers \""@
            + event->OfferReceived_offer.name@ + "\" ("@).is_prefix_of(r->0@),
        label@ == "\""@ + event->OfferReceived_offer.name@ + "\""@,
{
    let front = "\u{b7} "@ + event->OfferReceived_from.short@ + " offers \""@
        + event->OfferReceived_offer.name@ + "\" ("@;
    assert(opt_text(r) is Some);
    assert(r->0@.subrange(0, front.len() as int) =~= front);
}

/// A failure is always told, with its reason; peers are told as they come and go; who else serves
/// something is told only on demand.
pub proof fn failures_are_always_told(
    log: &mut EventLog,
    event: &DropEvent,
    items: &Vec<InventoryItem>,
    verbose: bool,
    r: Option<String>,
)
    requires
        call_ensures(EventLog::print_event, (log, event, items, verbose), r),
    ensures
        event is FetchFailed ==> r is Some && (" failed: "@
            + event->FetchFailed_error@).is_suffix_of(r->0@),
        event is PeerJoined ==> r is Some && r->0@ == "\u{b7} "@ + event->PeerJoined_peer.short@
            + " joined"@,
        event is PeerLeft ==> r is Some && r->0@ == "\u{b7} "@ + event->PeerLeft_peer.short@
            + " left"@,
        event is ProviderAvailable || event is ProviderUnavailable || event is Other ==> (r is Some
            <==> verbose),
        event is ProtocolWarning ==> (r is Some <==> verbose || event->kind is RateLimited
            || event->kind is InventoryEvicted),
        event is OfferRejected ==> r is Some,
{
    assert(opt_text(r) is Some <==> r is Some);
    if event is FetchFailed {
        let tail = " failed: "@ + event->FetchFailed_error@;
        let line = r->0@;
        assert(line.subrange(line.len() - tail.len(), line.len() as int) =~= tail);
    }
}

/// Progress of more than a mebibyte is told in steps of at least a quarter, and at the end; of less
/// it is not told at all.
pub proof fn progress_is_told_in_quarters(
    log: &mut EventLog,
    event: &DropEvent,
    items: &Vec<InventoryItem>,
    verbose: bool,
    r: Option<String>,
    total: u64,
)
    requires
        call_ensures(EventLog::print_event, (log, event, items, verbose), r),
        event is FetchProgress,
        event->total == Some(total),
        total > 0,
    ensures
        ({
            let hex = event->FetchProgress_hash.hex@;
            let before: int = if old(log).progress@.contains_key(hex) {
                old(log).progress@[hex] as int
            } else {
                0
            };
            let now = event->downloaded as int * 100 / total as int;
            &&& r is Some <==> total > 1_048_576 && (now >= before + 25 || event->downloaded
                == total)
            &&& final(log).progress@.contains_key(hex)
            &&& r is None ==> final(log).progress@[hex] == before
            &&& r is Some && now <= u64::MAX ==> final(log).progress@[hex] == now
        }),
{
    assert(opt_text(r) is Some <==> r is Some);
    let part = event->downloaded as int;
    let whole = total as int;
    assert(part * 100 / whole >= 0) by (nonlinear_arith)
        requires
            part >= 0,
            whole > 0,
    ;
}

/// A card says from whom it is, in which group, and how long it can still be answered, in minutes
/// and seconds.
pub proof fn cards_say_how_long_they_last(
    incoming: &Incoming,
    drops: &Vec<DropRow>,
    now: u64,
    r: String,
    minutes: nat,
    seconds: nat,
)
    requires
        call_ensures(card_context, (incoming, drops, now), r),
        seconds < 60,
        incoming.expires_at == now + 1000 * (60 * minutes + seconds),
    ensures
        ("from "@ + incoming.from@).is_prefix_of(r@),
        (":"@ + (if seconds < 10 {
            "0"@
        } else {
            ""@
        }) + decimal(seconds)).is_suffix_of(r@),
        ("expires in "@ + decimal(minutes) + ":"@ + (if seconds < 10 {
            "0"@
        } else {
            ""@
        }) + decimal(seconds)).is_suffix_of(r@),
{
    let left = 60 * minutes + seconds;
    assert((1000 * left) / 1000 == left);
    assert(left / 60 == minutes && left % 60 == seconds) by (nonlinear_arith)
        requires
            left == 60 * minutes + seconds,
            seconds < 60,
    ;
    reveal_strlit("");
    reveal_strlit("  \u{2022}  expires in ");
    reveal_strlit("expires in ");
    let zero = if seconds < 10 {
        "0"@
    } else {
        ""@
    };
    assert(zero + decimal(seconds) =~= if seconds < 10 {
        "0"@ + decimal(seconds)
    } else {
        decimal(seconds)
    });
    let short = ":"@ + zero + decimal(seconds);
    let long = "expires in "@ + decimal(minutes) + ":"@ + zero + decimal(seconds);
    let front = "from "@ + incoming.from@;
    let text = r@;
    assert(text.subrange(0, front.len() as int) =~= front);
    let head = if group_name(drops@, incoming.drop@).len() == 0 {
        front
    } else {
        front + "  \u{2022}  in "@ + group_name(drops@, incoming.drop@)
    };
    assert("  \u{2022}  expires in "@.subrange(5, 16) =~= "expires in "@);
    assert(text =~= head + "  \u{2022}  expires in "@.subrange(0, 5) + long);
    assert(text.subrange(text.len() - long.len(), text.len() as int) =~= long);
    assert(text.subrange(text.len() - short.len(), text.len() as int) =~= short);
}

/// The group of a card is the name of the first row with its handle.
pub proof fn a_group_is_called_by_its_row(drops: Seq<DropRow>, k: int)
    requires
        0 <= k < drops.len(),
        forall|j: int| 0 <= j < k ==> (#[trigger] drops[j]).handle@ != drops[k].handle@,
    ensures
        group_name(drops, drops[k].handle@) == drops[k].name@,
    decreases drops.len(),
{
    if k > 0 {
        let rest = drops.drop_first();
        assert(drops[0].handle@ != drops[k].handle@);
        assert forall|j: int| 0 <= j < k - 1 implies (#[trigger] rest[j]).handle@ != rest[k
            - 1].handle@ by {
            assert(rest[j] == drops[j + 1]);
        }
        a_group_is_called_by_its_row(rest, k - 1);
    }
}

/// The transfers are shown latest first, eight at most. One that failed says why, and can be tried
/// again where its drop is known; one that is finished leads to the folder it was saved in; any
/// other is running.
pub proof fn the_latest_transfers_are_shown_first(
    transfers: &Vec<Transfer>,
    r: Vec<TransferRow>,
    i: int,
)
    requires
        call_ensures(transfer_rows, (transfers,), r),
        0 <= i < r@.len(),
    ensures
        r@.len() == if transfers@.len() < 8 {
            transfers@.len()
        } else {
            8
        },
        ({
            let t = transfers@[transfers@.len() - 1 - i];
            let row = r@[i]@;
            &&& row is Failed <==> t.failed is Some
            &&& row is Finished <==> t.failed is None && t.finished
            &&& row is Running <==> t.failed is None && !t.finished
            &&& row is Failed ==> {
                &&& row->retry <==> t.drop@.len() > 0
                &&& t.failed->0@.len() <= 40 ==> row->why == t.failed->0@
                &&& row->why.len() <= 40
            }
            &&& row is Finished ==> (row->folder is Some <==> t.saved_to@.len() > 0)
        }),
{
}

/// A running transfer tells how much of it has arrived and of how much, where that is known; the
/// unit is said once where it is the same.
pub proof fn running_transfers_tell_how_far_they_are(transfer: &Transfer, r: Option<String>)
    requires
        call_ensures(progress_label, (transfer,), r),
    ensures
        r is Some <==> transfer.total is Some && transfer.total->0 > 0,
        r is Some ==> {
            let done = transfer.done as nat;
            let total = transfer.total->0 as nat;
            &&& human_unit(done) == human_unit(total) ==> r->0@ == human_amount(done) + " of "@
                + human_amount(total) + human_unit(total)
            &&& human_unit(done) != human_unit(total) ==> r->0@ == human_amount(done) + human_unit(
                done,
            ) + " of "@ + human_amount(total) + human_unit(total)
        },
{
    assert(opt_text(r) is Some <==> r is Some);
    if r is Some {
        let done = transfer.done as nat;
        let total = transfer.total->0 as nat;
        assert(human_amount(done) + " of "@ + human_size(total) =~= human_amount(done) + " of "@
            + human_amount(total) + human_unit(total));
        assert(human_size(done) + " of "@ + human_size(total) =~= human_amount(done) + human_unit(
            done,
        ) + " of "@ + human_amount(total) + human_unit(total));
    }
}

/// What is being got is kept in mind as long as it is still on offer.
pub proof fn what_is_no_longer_offered_is_forgotten(
    keys: &Vec<String>,
    available: &Vec<AvailableRow>,
    r: Vec<String>,
    key: Seq<char>,
)
    requires
        call_ensures(still_getting, (keys, available), r),
    ensures
        texts(r@).contains(key) <==> texts(keys@).contains(key) && exists|i: int|
            0 <= i < available@.len() && (#[trigger] available@[i]).drop@ + "/"@
                + available@[i].pick@ == key,
{
    lemma_listed_keys(texts(keys@), available@);
}

proof fn lemma_listed_keys(keys: Seq<Seq<char>>, available: Seq<AvailableRow>)
    ensures
        forall|key: Seq<char>| #[trigger]
            listed_keys(keys, available).contains(key) <==> keys.contains(key)
                && crate::window::is_listed(available, key),
    decreases keys.len(),
{
    if keys.len() > 0 {
        let front = keys.drop_last();
        lemma_listed_keys(front, available);
        let a = listed_keys(front, available);
        let b = listed_keys(keys, available);
        assert forall|key: Seq<char>| #[trigger]
            b.contains(key) <==> keys.contains(key) && crate::window::is_listed(available, key) by {
            if b.contains(key) {
                let i = choose|i: int| 0 <= i < b.len() && b[i] == key;
                if i < a.len() {
                    assert(a[i] == key);
                    assert(a.contains(key));
                    let k = choose|k: int| 0 <= k < front.len() && front[k] == key;
                    assert(keys[k] == key);
                } else {
                    assert(keys[keys.len() - 1] == key);
                }
            }
            if keys.contains(key) && crate::window::is_listed(available, key) {
                let k = choose|k: int| 0 <= k < keys.len() && keys[k] == key;
                if k < front.len() {
                    assert(front[k] == key);
                    assert(a.contains(key));
                    let i = choose|i: int| 0 <= i < a.len() && a[i] == key;
                    assert(b[i] == key);
                } else {
                    assert(b[b.len() - 1] == key);
                }
            }
        }
    }
}

/// A link counts as just copied for two seconds.
pub proof fn a_copy_is_recent_for_two_seconds(copied_at: Option<u64>, now: u64, r: bool)
    requires
        call_ensures(recently_copied, (copied_at, now), r),
    ensures
        r <==> copied_at is Some && now < copied_at->0 + 2000,
{
}

/// There is nothing to show exactly when there is no drop, no transfer, nothing to get, no card and
/// no link.
pub proof fn an_empty_window_says_so(state: &UiState, r: bool)
    requires
        call_ensures(nothing_yet, (state,), r),
    ensures
        r <==> state.drops@.len() + state.transfers@.len() + state.available@.len()
            + state.incoming@.len() == 0 && state.share_link is None,
{
}

/// What is said of an offer behind its name: what the listing knows of it, its kind and the bytes
/// that are received for it, else the size that it is offered with.
pub proof fn offers_are_told_as_they_are_listed(
    log: &mut EventLog,
    event: &DropEvent,
    items: &Vec<InventoryItem>,
    verbose: bool,
    r: Option<String>,
    kind: String,
)
    requires
        call_ensures(EventLog::print_event, (log, event, items, verbose), r),
        event is OfferReceived,
        items@.len() > 0 ==> call_ensures(InventoryItem::kind, (&items@[0],), kind),
    ensures
        r is Some,
        items@.len() == 0 ==> (" ("@ + human_size(event->OfferReceived_offer.size as nat)
            + ")"@).is_suffix_of(r->0@),
        items@.len() > 0 && items@[0].hash.hex@ == event->OfferReceived_offer.blob_hash.hex@ ==> (
        kind@ + ", "@ + human_size(items@[0].content_size as nat) + ")"@).is_suffix_of(r->0@),
{
    assert(opt_text(r) is Some);
    let offer = event->OfferReceived_offer;
    let front = "\u{b7} "@ + event->OfferReceived_from.short@ + " offers \""@ + offer.name@;
    reveal_strlit("\" (");
    reveal_strlit(" (");
    reveal_strlit("\"");
    assert("\" ("@ =~= "\""@ + " ("@);
    let shape = crate::terminal::shape_text(items@, offer);
    let line = r->0@;
    assert(line == front + "\" ("@ + shape + ")"@);
    if items@.len() == 0 {
        let tail = " ("@ + human_size(offer.size as nat) + ")"@;
        assert(line.subrange(line.len() - tail.len(), line.len() as int) =~= tail);
    } else if items@[0].hash.hex@ == offer.blob_hash.hex@ {
        let tail = kind@ + ", "@ + human_size(items@[0].content_size as nat) + ")"@;
        assert(line.subrange(line.len() - tail.len(), line.len() as int) =~= tail);
    }
}

/// A hash that no name is known for is called by the name of its item, where that has one, and
/// otherwise by its short form.
pub proof fn unknown_hashes_are_called_by_their_item(
    log: &mut EventLog,
    items: &Vec<InventoryItem>,
    hash: &BlobHash,
    r: String,
)
    requires
        call_ensures(EventLog::label, (log, items, hash), r),
        !old(log).names@.contains_key(hash.hex@),
    ensures
        items@.len() == 0 ==> r@ == hash.short@,
        items@.len() > 0 && items@[0].hash.hex@ == hash.hex@ && items@[0].name@ != hash.hex@ ==> {
            &&& r@ == "\""@ + items@[0].name@ + "\""@
            &&& final(log).names@.contains_key(hash.hex@)
            &&& final(log).names@[hash.hex@]@ == items@[0].name@
        },
        items@.len() > 0 && items@[0].hash.hex@ == hash.hex@ && items@[0].name@ == hash.hex@ ==> r@
            == hash.short@,
{
}

/// A fetch is told when it starts and when it is complete, with who serves it: always on demand,
/// and otherwise where the blob has a name.
pub proof fn named_fetches_are_told(
    log: &mut EventLog,
    event: &DropEvent,
    items: &Vec<InventoryItem>,
    verbose: bool,
    r: Option<String>,
)
    requires
        call_ensures(EventLog::print_event, (log, event, items, verbose), r),
        event is FetchStarted || event is FetchCompleted,
    ensures
        ({
            let hash = if event is FetchStarted {
                event->FetchStarted_hash
            } else {
                event->FetchCompleted_hash
            };
            let provider = if event is FetchStarted {
                event->FetchStarted_provider
            } else {
                event->FetchCompleted_provider
            };
            &&& r is Some <==> verbose || exists|i: int|
                0 <= i < items@.len() && (#[trigger] items@[i]).hash.hex@ == hash.hex@
                    && items@[i].name@ != hash.hex@
            &&& r is Some ==> (" from "@ + provider.short@).is_suffix_of(r->0@)
            &&& event is FetchCompleted ==> !final(log).progress@.contains_key(hash.hex@)
        }),
{
    assert(opt_text(r) is Some <==> r is Some);
    if r is Some {
        let provider = if event is FetchStarted {
            event->FetchStarted_provider
        } else {
            event->FetchCompleted_provider
        };
        let tail = " from "@ + provider.short@;
        let line = r->0@;
        assert(line.subrange(line.len() - tail.len(), line.len() as int) =~= tail);
    }
}

/// A finished transfer leads to the folder of its first file, and every row has the name of its
/// transfer.
pub proof fn finished_transfers_lead_to_their_folder(
    transfers: &Vec<Transfer>,
    r: Vec<TransferRow>,
    i: int,
    dir: Seq<char>,
    own: Seq<char>,
)
    requires
        call_ensures(transfer_rows, (transfers,), r),
        0 <= i < r@.len(),
        ({
            let t = transfers@[transfers@.len() - 1 - i];
            &&& t.saved_to@.len() > 0
            &&& t.saved_to@[0]@ == dir + seq!['/'] + own
            &&& !own.contains('/')
        }),
    ensures
        ({
            let t = transfers@[transfers@.len() - 1 - i];
            match r@[i]@ {
                TransferRowView::Finished { label, folder } => folder == Some(dir) && quoted(
                    t.name@,
                ).is_suffix_of(label),
                TransferRowView::Failed { label, why, retry } => quoted(t.name@).is_suffix_of(
                    label,
                ),
                TransferRowView::Running { label, progress } => label == quoted(t.name@),
            }
        }),
{
    let t = transfers@[transfers@.len() - 1 - i];
    lemma_last_slash(dir, own);
    let path = t.saved_to@[0]@;
    assert(path[dir.len() as int] == '/');
    assert(path.contains('/'));
    assert(path.take(dir.len() as int) =~= dir);
    let name = quoted(t.name@);
    let done = "\u{2713} "@ + name;
    let failed = "\u{26a0} "@ + name;
    assert(done.subrange(done.len() - name.len(), done.len() as int) =~= name);
    assert(failed.subrange(failed.len() - name.len(), failed.len() as int) =~= name);
}

/// A card whose time is over lasts no longer.
pub proof fn expired_cards_say_so(
    incoming: &Incoming,
    drops: &Vec<DropRow>,
    now: u64,
    r: String,
)
    requires
        call_ensures(card_context, (incoming, drops, now), r),
        incoming.expires_at <= now,
    ensures
        (decimal(0) + ":"@ + "0"@ + decimal(0)).is_suffix_of(r@),
{
    let tail = decimal(0) + ":"@ + "0"@ + decimal(0);
    let line = r@;
    assert(crate::window::clock(0) =~= tail);
    assert(line.subrange(line.len() - tail.len(), line.len() as int) =~= tail);
}

} // verus!

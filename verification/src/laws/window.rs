//! What the window promises of what it shows and asks for, told by what goes in and what comes out.

use crate::bridge::{
    available_in, name_for, open_transfer, other_questions, texts_among, unexpired, unfinished,
    AvailableRow, AvailableView, Cmd, IncomingView, TransferView, UiRun, UiState, UiStep, Worker,
};
use crate::client::AskRequest;
use crate::frame::{ApiError, Envelope};
use crate::ids::PeerId;
use crate::inventory::InventoryItem;
use crate::json::{added_value_is_found, nothing_is_in_an_empty_object, Json, JsonView};
use crate::laws::service::{listed_items_are_told, tells_item};
use crate::service::{offer_list, the_question_tells_the_offer, ConsentStep, Offer, Service};
use crate::size::human_size;
use crate::text::{decimal, opt_text};
use crate::ticket::{app_link_text, pasted_app_link_gives_ticket_back, Prefixes};
use std::collections::HashSet;
use vstd::prelude::*;

verus! {

/// From the daemon's question to the card: where the drop was not asked for in the last minute, the
/// card that appears has the offer's name and size, the drop it is in, the first characters of its
/// sender, and the number of the question; it can be answered until two seconds before the
/// daemon's deadline of five minutes.
pub proof fn the_card_tells_the_offer(
    service: &mut Service,
    handle: &str,
    from: &PeerId,
    offer: &Offer,
    closed: &HashSet<u64>,
    step: ConsentStep,
    worker: &mut Worker,
    ask: AskRequest,
    now: u64,
    r: UiStep,
)
    requires
        call_ensures(Service::seek_consent, (service, handle, from, offer, closed), step),
        step is Ask,
        step->frame@ is Ask,
        ask.id == step->frame@->Ask_id,
        ask.p@ == step->frame@->Ask_p,
        call_ensures(Worker::on_ask, (worker, ask, now), r),
        old(worker).requested@.contains_key(handle@) ==> now >= old(worker).requested@[handle@]
            + 60_000,
    ensures
        r is Done,
        final(worker).state@.incoming.len() == old(worker).state@.incoming.len() + 1,
        final(worker).state@.incoming.drop_last() == old(worker).state@.incoming,
        ({
            let card = final(worker).state@.incoming.last();
            &&& card.id == ask.id
            &&& card.drop == handle@
            &&& card.name == offer.name@
            &&& card.size == human_size(offer.size as nat)
            &&& card.from == if from.id@.len() <= 10 {
                from.id@
            } else {
                from.id@.take(10)
            }
            &&& card.expires_at == now + 298_000
        }),
{
    the_question_tells_the_offer(handle@, from.id@, *offer);
    assert(final(worker).state@.incoming.drop_last() =~= old(worker).state@.incoming);
}

/// Asking is consent: an offer in a drop that was asked for less than a minute ago is accepted at
/// once, and no card appears.
pub proof fn what_was_asked_for_is_accepted(
    worker: &mut Worker,
    ask: AskRequest,
    now: u64,
    r: UiStep,
    drop: Seq<char>,
)
    requires
        call_ensures(Worker::on_ask, (worker, ask, now), r),
        ask.p@.text_at("drop"@) == Some(drop),
        old(worker).requested@.contains_key(drop),
        now < old(worker).requested@[drop] + 60_000,
    ensures
        r is Answer,
        r->Answer_id == ask.id,
        r->answer is Some,
        r->answer->0@.flag_at("accept"@) == Some(true),
        final(worker).state == old(worker).state,
{
    broadcast use {added_value_is_found, nothing_is_in_an_empty_object};

    assert(r->answer->0@.get("accept"@) is Some);
}

proof fn lemma_other_questions(s: Seq<IncomingView>, id: u64)
    ensures
        other_questions(s, id).len() <= s.len(),
        forall|x: IncomingView| #[trigger]
            other_questions(s, id).contains(x) <==> s.contains(x) && x.id != id,
    decreases s.len(),
{
    if s.len() > 0 {
        let front = s.drop_last();
        lemma_other_questions(front, id);
        let a = other_questions(front, id);
        let b = other_questions(s, id);
        assert forall|x: IncomingView| #[trigger]
            b.contains(x) <==> s.contains(x) && x.id != id by {
            if b.contains(x) {
                let i = choose|i: int| 0 <= i < b.len() && b[i] == x;
                if i < a.len() {
                    assert(a[i] == x);
                    assert(a.contains(x));
                    let k = choose|k: int| 0 <= k < front.len() && front[k] == x;
                    assert(s[k] == x);
                } else {
                    assert(s[s.len() - 1] == x);
                }
            }
            if s.contains(x) && x.id != id {
                let k = choose|k: int| 0 <= k < s.len() && s[k] == x;
                if k < front.len() {
                    assert(front[k] == x);
                    assert(a.contains(x));
                    let i = choose|i: int| 0 <= i < a.len() && a[i] == x;
                    assert(b[i] == x);
                } else {
                    assert(b[b.len() - 1] == x);
                }
            }
        }
    }
}

proof fn lemma_unexpired(s: Seq<IncomingView>, now: nat)
    ensures
        unexpired(s, now).len() <= s.len(),
        forall|x: IncomingView| #[trigger]
            unexpired(s, now).contains(x) <==> s.contains(x) && x.expires_at > now,
    decreases s.len(),
{
    if s.len() > 0 {
        let front = s.drop_last();
        lemma_unexpired(front, now);
        let a = unexpired(front, now);
        let b = unexpired(s, now);
        assert forall|x: IncomingView| #[trigger]
            b.contains(x) <==> s.contains(x) && x.expires_at > now by {
            if b.contains(x) {
                let i = choose|i: int| 0 <= i < b.len() && b[i] == x;
                if i < a.len() {
                    assert(a[i] == x);
                    assert(a.contains(x));
                    let k = choose|k: int| 0 <= k < front.len() && front[k] == x;
                    assert(s[k] == x);
                } else {
                    assert(s[s.len() - 1] == x);
                }
            }
            if s.contains(x) && x.expires_at > now {
                let k = choose|k: int| 0 <= k < s.len() && s[k] == x;
                if k < front.len() {
                    assert(front[k] == x);
                    assert(a.contains(x));
                    let i = choose|i: int| 0 <= i < a.len() && a[i] == x;
                    assert(b[i] == x);
                } else {
                    assert(b[b.len() - 1] == x);
                }
            }
        }
    }
}

proof fn lemma_unfinished(s: Seq<TransferView>)
    ensures
        unfinished(s).len() <= s.len(),
        forall|x: TransferView| #[trigger]
            unfinished(s).contains(x) <==> s.contains(x) && !x.finished,
    decreases s.len(),
{
    if s.len() > 0 {
        let front = s.drop_last();
        lemma_unfinished(front);
        let a = unfinished(front);
        let b = unfinished(s);
        assert forall|x: TransferView| #[trigger]
            b.contains(x) <==> s.contains(x) && !x.finished by {
            if b.contains(x) {
                let i = choose|i: int| 0 <= i < b.len() && b[i] == x;
                if i < a.len() {
                    assert(a[i] == x);
                    assert(a.contains(x));
                    let k = choose|k: int| 0 <= k < front.len() && front[k] == x;
                    assert(s[k] == x);
                } else {
                    assert(s[s.len() - 1] == x);
                }
            }
            if s.contains(x) && !x.finished {
                let k = choose|k: int| 0 <= k < s.len() && s[k] == x;
                if k < front.len() {
                    assert(front[k] == x);
                    assert(a.contains(x));
                    let i = choose|i: int| 0 <= i < a.len() && a[i] == x;
                    assert(b[i] == x);
                } else {
                    assert(b[b.len() - 1] == x);
                }
            }
        }
    }
}

/// Answering a card sends the answer to its question, yes or none at all, and takes exactly the
/// cards of that question away.
pub proof fn an_answer_goes_to_its_question(
    worker: &mut Worker,
    cmd: Cmd,
    r: UiStep,
    other: IncomingView,
)
    requires
        call_ensures(Worker::begin, (worker, cmd), r),
        cmd is Answer,
    ensures
        r is Answer,
        r->Answer_id == cmd->Answer_id,
        r->answer is Some <==> cmd->accept,
        r->answer is Some ==> r->answer->0@.flag_at("accept"@) == Some(true),
        final(worker).state@.incoming.contains(other) <==> {
            &&& old(worker).state@.incoming.contains(other)
            &&& other.id != cmd->Answer_id
        },
        final(worker).state@.transfers == old(worker).state@.transfers,
        final(worker).state@.drops == old(worker).state@.drops,
{
    broadcast use {added_value_is_found, nothing_is_in_an_empty_object};

    lemma_other_questions(old(worker).state@.incoming, cmd->Answer_id);
    if r->answer is Some {
        assert(r->answer->0@.get("accept"@) is Some);
    }
    assert(final(worker).state@.incoming == other_questions(
        old(worker).state@.incoming,
        cmd->Answer_id,
    ));
}

/// A card stays exactly as long as it can still be answered in time, and that a card has gone is
/// noted.
pub proof fn cards_stay_while_they_can_be_answered(
    state: &mut UiState,
    now: u64,
    r: bool,
    card: IncomingView,
)
    requires
        call_ensures(UiState::prune, (state, now), r),
    ensures
        final(state)@.incoming.contains(card) <==> old(state)@.incoming.contains(card)
            && card.expires_at > now,
        r <==> final(state)@.incoming.len() < old(state)@.incoming.len(),
        !r ==> final(state)@.log == old(state)@.log,
        final(state)@.transfers == old(state)@.transfers,
{
    lemma_unexpired(old(state)@.incoming, now as nat);
    assert(final(state)@.incoming == unexpired(old(state)@.incoming, now as nat));
}

/// Clearing what is finished takes away exactly the finished transfers.
pub proof fn only_finished_transfers_are_cleared(
    worker: &mut Worker,
    cmd: Cmd,
    r: UiStep,
    transfer: TransferView,
)
    requires
        call_ensures(Worker::begin, (worker, cmd), r),
        cmd is ClearFinished,
    ensures
        r is Done,
        final(worker).state@.transfers.contains(transfer) <==> {
            &&& old(worker).state@.transfers.contains(transfer)
            &&& !transfer.finished
        },
        final(worker).state@.incoming == old(worker).state@.incoming,
{
    lemma_unfinished(old(worker).state@.transfers);
}

proof fn lemma_open_transfer(transfers: Seq<TransferView>, name: Seq<char>)
    ensures
        match open_transfer(transfers, name) {
            Some(i) => 0 <= i < transfers.len() && transfers[i].name == name
                && !transfers[i].finished,
            None => forall|i: int|
                0 <= i < transfers.len() ==> (#[trigger] transfers[i]).name != name
                    || transfers[i].finished,
        },
    decreases transfers.len(),
{
    if transfers.len() > 0 {
        let front = transfers.drop_last();
        lemma_open_transfer(front, name);
        match open_transfer(front, name) {
            Some(i) => {
                assert(front[i] == transfers[i]);
            },
            None => {
                if open_transfer(transfers, name) is None {
                    assert forall|i: int| 0 <= i < transfers.len() implies (
                    #[trigger] transfers[i]).name != name || transfers[i].finished by {
                        if i < front.len() {
                            assert(front[i] == transfers[i]);
                        }
                    }
                }
            },
        }
    }
}

proof fn lemma_events_differ()
    ensures
        "offer.received"@ != "fetch.progress"@,
        "offer.received"@ != "fetch.materialized"@,
        "offer.received"@ != "fetch.failed"@,
        "fetch.progress"@ != "fetch.materialized"@,
        "fetch.progress"@ != "fetch.failed"@,
        "fetch.materialized"@ != "fetch.failed"@,
        "offer.declined"@ != "offer.received"@,
        "offer.declined"@ != "fetch.progress"@,
        "offer.declined"@ != "fetch.materialized"@,
        "offer.declined"@ != "fetch.failed"@,
        "peer.joined"@ != "offer.received"@,
        "peer.joined"@ != "fetch.progress"@,
        "peer.joined"@ != "fetch.materialized"@,
        "peer.joined"@ != "fetch.failed"@,
        "peer.joined"@ != "offer.declined"@,
{
    reveal_strlit("offer.received");
    reveal_strlit("fetch.progress");
    reveal_strlit("fetch.materialized");
    reveal_strlit("fetch.failed");
    reveal_strlit("offer.declined");
    reveal_strlit("peer.joined");
    assert("offer.received"@.len() == 14 && "fetch.progress"@.len() == 14
        && "fetch.materialized"@.len() == 18 && "fetch.failed"@.len() == 12
        && "offer.declined"@.len() == 14 && "peer.joined"@.len() == 11);
    assert("offer.received"@[6] == 'r' && "fetch.progress"@[6] == 'p'
        && "offer.declined"@[6] == 'd');
}

/// Progress shows under the name that the blob was offered under: after the event there is an open
/// transfer of that name with as many bytes as have arrived. At most one transfer is new, and what
/// is finished stays as it was.
pub proof fn progress_is_shown_under_the_name(
    worker: &mut Worker,
    env: &Envelope,
    hash: Seq<char>,
    downloaded: u64,
)
    requires
        call_ensures(Worker::apply_event, (worker, env), ()),
        env.e@ == "fetch.progress"@,
        env.p@.text_at("hash"@) == Some(hash),
        env.p@.number_at("downloaded"@) == Some(downloaded),
        old(worker).names@.contains_key(hash),
    ensures
        exists|i: int|
            0 <= i < final(worker).state@.transfers.len() && {
                let t = #[trigger] final(worker).state@.transfers[i];
                &&& t.name == old(worker).names@[hash]@
                &&& t.done == downloaded
                &&& t.total == env.p@.number_at("total"@)
                &&& !t.finished
            },
        old(worker).state@.transfers.len() <= final(worker).state@.transfers.len(),
        final(worker).state@.transfers.len() <= old(worker).state@.transfers.len() + 1,
        forall|i: int|
            0 <= i < old(worker).state@.transfers.len() && (
            #[trigger] old(worker).state@.transfers[i]).finished
                ==> final(worker).state@.transfers[i] == old(worker).state@.transfers[i],
        final(worker).state@.incoming == old(worker).state@.incoming,
        final(worker).state@.log == old(worker).state@.log,
{
    lemma_events_differ();
    let name = name_for(old(worker).names@, hash);
    let before = old(worker).state@.transfers;
    let after = final(worker).state@.transfers;
    lemma_open_transfer(before, name);
    match open_transfer(before, name) {
        Some(i) => {
            assert(after[i].name == old(worker).names@[hash]@);
        },
        None => {
            assert(after[after.len() - 1].name == old(worker).names@[hash]@);
        },
    }
}

/// When a fetch is written, its transfer is finished, says where the files are, and has not failed
/// because of it; that it was saved is noted.
pub proof fn a_finished_fetch_says_where_it_is(
    worker: &mut Worker,
    env: &Envelope,
    hash: Seq<char>,
    paths: Seq<Seq<char>>,
)
    requires
        call_ensures(Worker::apply_event, (worker, env), ()),
        env.e@ == "fetch.materialized"@,
        env.p@.text_at("hash"@) == Some(hash),
        env.p@.list_at("paths"@) == Some(
            Seq::new(paths.len(), |i: int| JsonView::Text(paths[i])),
        ),
        old(worker).names@.contains_key(hash),
    ensures
        exists|i: int|
            0 <= i < final(worker).state@.transfers.len() && {
                let t = #[trigger] final(worker).state@.transfers[i];
                &&& t.name == old(worker).names@[hash]@
                &&& t.finished
                &&& t.saved_to == paths
            },
        old(worker).state@.transfers.len() <= final(worker).state@.transfers.len(),
        final(worker).state@.transfers.len() <= old(worker).state@.transfers.len() + 1,
        final(worker).state@.log.len() > 0,
        final(worker).state@.log.last() == "Saved."@,
        final(worker).state@.incoming == old(worker).state@.incoming,
{
    lemma_events_differ();
    let name = name_for(old(worker).names@, hash);
    let before = old(worker).state@.transfers;
    let after = final(worker).state@.transfers;
    let listed = Seq::new(paths.len(), |i: int| JsonView::Text(paths[i]));
    lemma_texts_among(listed, paths);
    lemma_open_transfer(before, name);
    match open_transfer(before, name) {
        Some(i) => {
            assert(after[i].finished);
        },
        None => {
            assert(after[after.len() - 1].finished);
        },
    }
}

proof fn lemma_texts_among(listed: Seq<JsonView>, paths: Seq<Seq<char>>)
    requires
        listed.len() == paths.len(),
        forall|i: int| 0 <= i < paths.len() ==> #[trigger] listed[i] == JsonView::Text(paths[i]),
    ensures
        texts_among(listed) == paths,
    decreases paths.len(),
{
    if paths.len() > 0 {
        let front = listed.drop_last();
        assert forall|i: int| 0 <= i < front.len() implies #[trigger] front[i] == JsonView::Text(
            paths.drop_last()[i],
        ) by {
            assert(front[i] == listed[i]);
        }
        lemma_texts_among(front, paths.drop_last());
        assert(listed.last() == listed[listed.len() - 1]);
        assert(paths.drop_last().push(paths.last()) =~= paths);
    } else {
        assert(texts_among(listed) =~= paths);
    }
}

/// A failed fetch finishes its transfer with the reason, where one is shown.
pub proof fn a_failed_fetch_says_why(
    worker: &mut Worker,
    env: &Envelope,
    hash: Seq<char>,
    error: Seq<char>,
    k: int,
)
    requires
        call_ensures(Worker::apply_event, (worker, env), ()),
        env.e@ == "fetch.failed"@,
        env.p@.text_at("hash"@) == Some(hash),
        env.p@.text_at("error"@) == Some(error),
        old(worker).names@.contains_key(hash),
        0 <= k < old(worker).state@.transfers.len(),
        old(worker).state@.transfers[k].name == old(worker).names@[hash]@,
        !old(worker).state@.transfers[k].finished,
    ensures
        final(worker).state@.transfers.len() == old(worker).state@.transfers.len(),
        exists|i: int|
            0 <= i < final(worker).state@.transfers.len() && {
                let t = #[trigger] final(worker).state@.transfers[i];
                &&& t.name == old(worker).names@[hash]@
                &&& t.finished
                &&& t.failed == Some(error)
                &&& t.done == old(worker).state@.transfers[i].done
            },
{
    lemma_events_differ();
    let name = name_for(old(worker).names@, hash);
    let before = old(worker).state@.transfers;
    let after = final(worker).state@.transfers;
    lemma_open_transfer(before, name);
    assert(open_transfer(before, name) is Some) by {
        if open_transfer(before, name) is None {
            assert(before[k].name != name || before[k].finished);
        }
    }
    assert(after[open_transfer(before, name)->0].finished);
}

/// An offer that arrives is remembered: the name it has goes with its hash, and the names of other
/// hashes stay.
pub proof fn offered_names_are_remembered(
    worker: &mut Worker,
    env: &Envelope,
    hash: Seq<char>,
    name: Seq<char>,
    other: Seq<char>,
)
    requires
        call_ensures(Worker::apply_event, (worker, env), ()),
        env.e@ == "offer.received"@,
        env.p@.text_at("hash"@) == Some(hash),
        env.p@.text_at("name"@) == Some(name),
        other != hash,
    ensures
        final(worker).names@.contains_key(hash),
        final(worker).names@[hash]@ == name,
        final(worker).names@.contains_key(other) <==> old(worker).names@.contains_key(other),
        old(worker).names@.contains_key(other) ==> final(worker).names@[other]
            == old(worker).names@[other],
        final(worker).state@ == old(worker).state@,
{
    lemma_events_differ();
}

/// Pasting the link of a ticket joins the drop of that ticket.
pub proof fn a_pasted_link_is_joined(worker: &mut Worker, cmd: Cmd, r: UiStep, ticket: Seq<char>)
    requires
        call_ensures(Worker::begin, (worker, cmd), r),
        cmd is Receive,
        "drop1"@.is_prefix_of(ticket),
        ticket.len() > 32,
        forall|i: int|
            0 <= i < ticket.len() ==> 'a' <= #[trigger] ticket[i] <= 'z' || '0' <= ticket[i] <= '9',
        cmd->Receive_0@ == app_link_text(ticket),
    ensures
        r is Call,
        r->method@ == "drop.join"@,
        r->params@.text_at("ticket"@) == Some(ticket),
        r->Call_run is ReceiveJoin,
        final(worker).state@.error is None,
        final(worker).state@.busy is Some,
{
    broadcast use {added_value_is_found, nothing_is_in_an_empty_object};

    reveal_strlit("drop1");
    assert(ticket.subrange(0, 5) =~= "drop1"@);
    pasted_app_link_gives_ticket_back(ticket, Prefixes::First);
    assert(r->params@.get("ticket"@) is Some);
}

/// Every other button calls the method it stands for, about the drop and the item it stands by.
pub proof fn buttons_call_their_method(worker: &mut Worker, cmd: Cmd, r: UiStep)
    requires
        call_ensures(Worker::begin, (worker, cmd), r),
        cmd is Forget || cmd is Fetch || cmd is Retry || cmd is Ticket,
    ensures
        r is Call,
        final(worker).state@.incoming == old(worker).state@.incoming,
        final(worker).state@.transfers == old(worker).state@.transfers,
        match cmd {
            Cmd::Forget(handle) => {
                &&& r->method@ == "drop.leave"@
                &&& r->params@.text_at("drop"@) == Some(handle@)
            },
            Cmd::Fetch { drop, pick, name } => {
                &&& r->method@ == "offer.fetch"@
                &&& r->params@.text_at("drop"@) == Some(drop@)
                &&& r->params@.text_at("pick"@) == Some(pick@)
            },
            Cmd::Retry { drop, name } => {
                &&& r->method@ == "offer.fetch"@
                &&& r->params@.text_at("drop"@) == Some(drop@)
                &&& r->params@.text_at("pick"@) == Some(name@)
            },
            Cmd::Ticket { handle, name } => {
                &&& r->method@ == "drop.ticket"@
                &&& r->params@.text_at("drop"@) == Some(handle@)
                &&& r->Call_run is ShowTicket
                &&& r->Call_run->ShowTicket_name@ == name@
            },
            _ => true,
        },
{
    broadcast use {added_value_is_found, nothing_is_in_an_empty_object};

    reveal_strlit("drop");
    reveal_strlit("pick");
    assert("drop"@[0] == 'd' && "pick"@[0] == 'p');
    assert(r->params@.get("drop"@) is Some);
    assert(r->params@.get("pick"@) is Some <==> cmd is Fetch || cmd is Retry);
}

/// What is sent is sent into the drop that was created for it, path after path, and when none is
/// left the link of that drop is asked for.
pub proof fn paths_go_into_the_new_drop(
    worker: &mut Worker,
    run: UiRun,
    reply: Result<Json, ApiError>,
    now: u64,
    r: UiStep,
    handle: Seq<char>,
)
    requires
        call_ensures(Worker::on_reply, (worker, run, reply, now), r),
        reply is Ok,
        run is SendCreate || run is SendPublish,
        run is SendCreate ==> reply->Ok_0@.get("drop"@) == Some(JsonView::Text(handle)),
        run is SendPublish ==> run->target@ == JsonView::Text(handle),
    ensures
        ({
            let paths = match run {
                UiRun::SendCreate { paths } => paths@,
                UiRun::SendPublish { paths, .. } => paths@,
                _ => arbitrary(),
            };
            let at: int = if run is SendPublish {
                run->at as int
            } else {
                0
            };
            if at >= paths.len() {
                &&& r is Call
                &&& r->method@ == "drop.ticket"@
                &&& r->params@.text_at("drop"@) == Some(handle)
                &&& r->Call_run is SendTicket
                &&& r->Call_run->count == paths.len()
            } else if paths[at].text is Some {
                &&& r is Call
                &&& r->method@ == "offer.publish"@
                &&& r->params@.text_at("drop"@) == Some(handle)
                &&& r->params@.text_at("path"@) == opt_text(paths[at].text)
                &&& r->Call_run is SendPublish
                &&& r->Call_run->at == at + 1
                &&& r->Call_run->target@ == JsonView::Text(handle)
                &&& r->Call_run->SendPublish_paths@ == paths
            } else {
                r is Done && final(worker).state@.error is Some
            }
        }),
{
    broadcast use {added_value_is_found, nothing_is_in_an_empty_object};

    reveal_strlit("drop");
    reveal_strlit("path");
    assert("drop"@[0] == 'd' && "path"@[0] == 'p');
    if r is Call {
        assert(r->params@.get("drop"@) is Some);
        assert(r->params@.get("path"@) is Some <==> r->method@ == "offer.publish"@) by {
            reveal_strlit("offer.publish");
            reveal_strlit("drop.ticket");
            assert("offer.publish"@.len() == 13 && "drop.ticket"@.len() == 11);
        }
    }
}

/// The link that the daemon gives is the link that is shown.
pub proof fn the_daemons_link_is_shown(
    worker: &mut Worker,
    run: UiRun,
    reply: Result<Json, ApiError>,
    now: u64,
    r: UiStep,
    link: Seq<char>,
)
    requires
        call_ensures(Worker::on_reply, (worker, run, reply, now), r),
        reply is Ok,
        run is SendTicket || run is ShowTicket,
        reply->Ok_0@.text_at("link"@) == Some(link),
    ensures
        r is Done,
        final(worker).state@.share_link == Some(link),
        run is ShowTicket ==> final(worker).state@.share_link_name == Some(run->ShowTicket_name@),
        run is SendTicket ==> final(worker).state@.busy is None,
{
}

/// A drop that was joined is looked into for a minute: until something is on offer there, which
/// counts as asked for from then on, or until the minute is over, which is an error.
pub proof fn a_joined_drop_is_looked_into(
    worker: &mut Worker,
    run: UiRun,
    reply: Result<Json, ApiError>,
    now: u64,
    r: UiStep,
)
    requires
        call_ensures(Worker::on_reply, (worker, run, reply, now), r),
        reply is Ok,
        run is ReceiveJoin || run is ReceiveList,
    ensures
        match run {
            UiRun::ReceiveList { handle, deadline } => {
                let items = reply->Ok_0@.list_at("items"@);
                if items is Some && items->0.len() > 0 {
                    &&& r is Done
                    &&& final(worker).requested@.contains_key(handle@)
                    &&& final(worker).requested@[handle@] == now
                    &&& final(worker).state@.busy is None
                    &&& final(worker).state@.error == old(worker).state@.error
                } else if now > deadline {
                    &&& r is Done
                    &&& final(worker).state@.error is Some
                    &&& final(worker).state@.busy is None
                    &&& final(worker).requested == old(worker).requested
                } else {
                    &&& r is Pause
                    &&& final(worker).state@ == old(worker).state@
                    &&& final(worker).requested == old(worker).requested
                }
            },
            _ => reply->Ok_0@.text_at("drop"@) is Some ==> {
                &&& r is Call
                &&& r->method@ == "offer.list"@
                &&& r->params@.text_at("drop"@) == reply->Ok_0@.text_at("drop"@)
                &&& r->Call_run is ReceiveList
                &&& r->Call_run->handle@ == reply->Ok_0@.text_at("drop"@)->0
                &&& r->Call_run->deadline == now + 60_000
            },
        },
{
    broadcast use {added_value_is_found, nothing_is_in_an_empty_object};

    if run is ReceiveJoin {
        assert(r->params@.get("drop"@) is Some);
    }
}

/// A call that fails says why, whatever it was for but leaving a drop.
pub proof fn failures_are_shown(
    worker: &mut Worker,
    run: UiRun,
    reply: Result<Json, ApiError>,
    now: u64,
    r: UiStep,
)
    requires
        call_ensures(Worker::on_reply, (worker, run, reply, now), r),
        reply is Err,
        !(run is Forget),
    ensures
        r is Done,
        final(worker).state@.error == Some(reply->Err_0.msg@),
        final(worker).state@.transfers == old(worker).state@.transfers,
{
}

/// The status and the drops that the daemon tells are the ones that are shown.
pub proof fn told_drops_are_shown(
    worker: &mut Worker,
    status: &Option<Json>,
    listed: &Option<Json>,
    i: int,
)
    requires
        call_ensures(Worker::apply_status, (worker, status, listed), ()),
        status is Some,
        listed is Some,
        listed->0@.list_at("drops"@) is Some,
        0 <= i < listed->0@.list_at("drops"@)->0.len(),
    ensures
        final(worker).state@.lan_only <==> status->0@.flag_at("offline"@) == Some(true),
        status->0@.text_at("download_dir"@) is Some ==> final(worker).state@.download_dir
            == status->0@.text_at("download_dir"@)->0,
        final(worker).state@.drops.len() == listed->0@.list_at("drops"@)->0.len(),
        ({
            let d = listed->0@.list_at("drops"@)->0[i];
            let row = final(worker).state@.drops[i];
            &&& d.text_at("drop"@) is Some ==> row.handle == d.text_at("drop"@)->0
            &&& d.text_at("name"@) is Some ==> row.name == d.text_at("name"@)->0
            &&& d.text_at("name"@) is None ==> row.name == "files"@
            &&& d.number_at("offers"@) is Some ==> row.files == d.number_at("offers"@)->0
            &&& d.number_at("peers"@) is Some ==> row.peers == d.number_at("peers"@)->0
            &&& d.flag_at("mine"@) is Some ==> row.mine == d.flag_at("mine"@)->0
        }),
{
}

/// What is offered and not here can be got: an item of a listing has a row exactly when nothing of
/// it is here or the last fetch of it failed, and the row's pick is the item's number, so that a
/// fetch of it picks that line.
pub proof fn missing_items_can_be_got(
    items: &Vec<InventoryItem>,
    listed: Json,
    drop: &str,
    group: &str,
    rows: Vec<AvailableRow>,
    i: int,
)
    requires
        call_ensures(offer_list, (items,), listed),
        call_ensures(available_in, (&listed, drop, group), rows),
        0 <= i < items@.len(),
        items@[i].status is Missing || items@[i].status is Other,
        items@[i].index == i + 1,
    ensures
        exists|k: int|
            0 <= k < rows@.len() && {
                let row = #[trigger] rows@[k];
                &&& row.drop@ == drop@
                &&& row.group@ == group@
                &&& row.pick@ == decimal((i + 1) as nat)
                &&& row.name@ == items@[i].name@
                &&& row.size@ == human_size(items@[i].content_size as nat)
            },
{
    listed_items_are_told(items, listed);
    let list = listed@.list_at("items"@)->0;
    let item = list[i];
    assert(tells_item(item, items@[i]));
    lemma_missing_in(list, drop@, group@, i);
    let found = crate::bridge::missing_in(list, drop@, group@);
    let row = crate::bridge::AvailableView {
        drop: drop@,
        group: group@,
        pick: decimal((i + 1) as nat),
        name: items@[i].name@,
        size: human_size(items@[i].content_size as nat),
    };
    assert(found.contains(row));
    let k = choose|k: int| 0 <= k < found.len() && found[k] == row;
    assert(crate::bridge::available_views(rows@)[k] == rows@[k]@);
}

proof fn lemma_missing_in(list: Seq<JsonView>, drop: Seq<char>, group: Seq<char>, i: int)
    requires
        0 <= i < list.len(),
        list[i].text_at("status"@) == Some("missing"@) || list[i].text_at("status"@) == Some(
            "failed"@,
        ),
        list[i].number_at("n"@) is Some,
        list[i].text_at("name"@) is Some,
        list[i].text_at("human_size"@) is Some,
    ensures
        crate::bridge::missing_in(list, drop, group).contains(
            crate::bridge::AvailableView {
                drop,
                group,
                pick: decimal(list[i].number_at("n"@)->0 as nat),
                name: list[i].text_at("name"@)->0,
                size: list[i].text_at("human_size"@)->0,
            },
        ),
    decreases list.len(),
{
    let row = crate::bridge::AvailableView {
        drop,
        group,
        pick: decimal(list[i].number_at("n"@)->0 as nat),
        name: list[i].text_at("name"@)->0,
        size: list[i].text_at("human_size"@)->0,
    };
    let b = crate::bridge::missing_in(list, drop, group);
    if i < list.len() - 1 {
        let front = list.drop_last();
        assert(front[i] == list[i]);
        lemma_missing_in(front, drop, group, i);
        let a = crate::bridge::missing_in(front, drop, group);
        let k = choose|k: int| 0 <= k < a.len() && a[k] == row;
        assert(b[k] == row);
    } else {
        assert(b[b.len() - 1] == row);
    }
}

/// Nothing that is here or on its way is offered to be got.
pub proof fn what_is_here_is_not_offered_again(
    listed: &Json,
    drop: &str,
    group: &str,
    rows: Vec<AvailableRow>,
)
    requires
        call_ensures(available_in, (listed, drop, group), rows),
        listed@.list_at("items"@) is Some,
        forall|i: int|
            0 <= i < listed@.list_at("items"@)->0.len() ==> {
                let status = (#[trigger] listed@.list_at("items"@)->0[i]).text_at("status"@);
                status == Some("available"@) || status == Some("fetching"@)
            },
    ensures
        rows@.len() == 0,
{
    reveal_strlit("missing");
    reveal_strlit("failed");
    reveal_strlit("available");
    reveal_strlit("fetching");
    assert("missing"@.len() == 7 && "failed"@.len() == 6 && "available"@.len() == 9
        && "fetching"@.len() == 8);
    lemma_none_missing(listed@.list_at("items"@)->0, drop@, group@);
    assert(crate::bridge::available_views(rows@).len() == rows@.len());
}

proof fn lemma_none_missing(list: Seq<JsonView>, drop: Seq<char>, group: Seq<char>)
    requires
        forall|i: int|
            0 <= i < list.len() ==> (#[trigger] list[i]).text_at("status"@) != Some("missing"@)
                && list[i].text_at("status"@) != Some("failed"@),
    ensures
        crate::bridge::missing_in(list, drop, group).len() == 0,
    decreases list.len(),
{
    if list.len() > 0 {
        assert(list.last() == list[list.len() - 1]);
        assert forall|i: int| 0 <= i < list.drop_last().len() implies (
        #[trigger] list.drop_last()[i]).text_at("status"@) != Some("missing"@)
            && list.drop_last()[i].text_at("status"@) != Some("failed"@) by {
            assert(list.drop_last()[i] == list[i]);
        }
        lemma_none_missing(list.drop_last(), drop, group);
    }
}

/// A blob that no name is known for is shown as a file; a transfer that is new is shown with its
/// drop.
pub proof fn nameless_transfers_are_files(
    worker: &mut Worker,
    env: &Envelope,
    hash: Seq<char>,
    drop: Seq<char>,
)
    requires
        call_ensures(Worker::apply_event, (worker, env), ()),
        env.e@ == "fetch.progress"@,
        env.p@.text_at("hash"@) == Some(hash),
        env.p@.text_at("drop"@) == Some(drop),
        !old(worker).names@.contains_key(hash),
        old(worker).state@.transfers.len() == 0,
    ensures
        final(worker).state@.transfers.len() == 1,
        final(worker).state@.transfers[0].name == "file"@,
        final(worker).state@.transfers[0].drop == drop,
        !final(worker).state@.transfers[0].finished,
        final(worker).state@.transfers[0].failed is None,
{
    lemma_events_differ();
}

/// That an offer was declined and that somebody connected is noted; nothing else changes.
pub proof fn comings_and_refusals_are_noted(worker: &mut Worker, env: &Envelope)
    requires
        call_ensures(Worker::apply_event, (worker, env), ()),
        env.e@ == "offer.declined"@ || env.e@ == "peer.joined"@,
    ensures
        final(worker).state@.log.len() > 0,
        final(worker).state@.log.last() == if env.e@ == "offer.declined"@ {
            "Declined an offer."@
        } else {
            "Someone connected."@
        },
        final(worker).state@.transfers == old(worker).state@.transfers,
        final(worker).state@.incoming == old(worker).state@.incoming,
        final(worker).names == old(worker).names,
{
    lemma_events_differ();
}

} // verus!

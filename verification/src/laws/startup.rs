//! What holds of beginnings and ends: how programs start, connect, give up and stop.

use crate::asks::AskRouter;
use crate::bridge::{
    embedded_options, next_tier, AvailableRow, Tier, TierStep, UiRun, UiState, UiStep, Worker,
};
use crate::bus::EventBus;
use crate::cli::{
    kept_ticket, qr_source, read_ticket, receive_dir, room_to_remember, ticket_file, Source,
};
use crate::commands::{join_call, Getting, Leaving, OutDir, Sending, Step};
use crate::frame::{ApiError, Envelope, Hello, Role};
use crate::json::{added_value_is_found, nothing_is_in_an_empty_object, Json};
use crate::laws::service::{lemma_staying, lemma_wanted_events};
use crate::mcp::{answer_line, server_hello, RpcStep};
use crate::path::{a_name_below_adds_a_part, parts, plain_name, PartView};
use crate::persist::{DropStore, PersistedDrop};
use crate::rooms::{Room, Rooms};
use crate::service::{HostedDrop, Service, ServiceOptions};
use crate::table::{map_of, rows_are_the_map};
use crate::text::{opt_text, texts, trimmed};
use crate::ticket::{app_link_text, pasted_app_link_gives_ticket_back, Prefixes};
use crate::window::can_receive;
use std::collections::HashSet;
use vstd::prelude::*;

verus! {

/// A window looks for a daemon that runs, starts a helper where there is none, and hosts itself
/// where none can be started; a helper that does not answer, and hosting that fails, is the end.
pub proof fn a_window_finds_a_daemon_or_hosts(tier: Tier, worked: bool, r: TierStep)
    requires
        call_ensures(next_tier, (tier, worked), r),
    ensures
        tier is Running && !worked ==> r == TierStep::Try(Tier::Start),
        tier is Start && worked ==> r == TierStep::Try(Tier::Started),
        tier is Start && !worked ==> r == TierStep::Try(Tier::Embedded),
        r is Connected <==> worked && !(tier is Start),
        r is Connected ==> (r->started_helper <==> tier is Started) && (r->hosting <==> tier
            is Embedded),
        r is HelperSilent <==> tier is Started && !worked,
        r is CannotStart <==> tier is Embedded && !worked,
{
}

/// A window that hosts keeps nothing, asks before it takes anything, and stays on the local network
/// where that was said.
pub proof fn a_hosting_window_asks_first(downloads: String, lan_only: bool, r: ServiceOptions)
    requires
        call_ensures(embedded_options, (downloads, lan_only), r),
    ensures
        !r.auto_accept,
        r.offline == lan_only,
        r.download_dir == downloads,
        r.store_path is None && r.identity_path is None,
{
}

/// A connection shows who the daemon is; a lost one shows that it is lost; neither takes anything
/// else away.
pub proof fn connections_are_shown(
    worker: &mut Worker,
    hello: &Json,
    started: bool,
    losing: &mut Worker,
)
    requires
        call_ensures(Worker::on_connected, (worker, hello, started), ()),
        call_ensures(Worker::on_lost, (losing,), ()),
    ensures
        final(worker).state@.connected,
        hello@.text_at("endpoint_id"@) is Some ==> final(worker).state@.endpoint_id
            == hello@.text_at("endpoint_id"@)->0,
        !started ==> final(worker).state@.log == old(worker).state@.log,
        final(worker).state@.transfers == old(worker).state@.transfers,
        !final(losing).state@.connected,
        final(losing).state@.error is Some,
        final(losing).state@.transfers == old(losing).state@.transfers,
        final(losing).state@.incoming == old(losing).state@.incoming,
        final(losing).requested == old(losing).requested,
{
}

/// A note is the last line of the log, of which the latest two hundred stay.
pub proof fn the_latest_notes_stay(state: &mut UiState, line: &str)
    requires
        call_ensures(UiState::note, (state, line), ()),
    ensures
        final(state)@.log.len() > 0,
        final(state)@.log.last() == line@,
        old(state)@.log.len() < 200 ==> final(state)@.log == old(state)@.log.push(line@),
        old(state)@.log.len() == 200 ==> final(state)@.log == old(state)@.log.drop_first().push(
            line@,
        ),
        final(state)@.incoming == old(state)@.incoming,
{
    let all = old(state)@.log.push(line@);
    if old(state)@.log.len() == 200 {
        assert(all.drop_first() =~= old(state)@.log.drop_first().push(line@));
    }
}

/// A failure is shown as it is said, and nothing else changes.
pub proof fn failures_are_shown_as_said(worker: &mut Worker, why: String)
    requires
        call_ensures(Worker::fail, (worker, why), ()),
    ensures
        final(worker).state@.error == Some(why@),
        final(worker).state@.transfers == old(worker).state@.transfers,
        final(worker).state@.incoming == old(worker).state@.incoming,
        final(worker).state@.drops == old(worker).state@.drops,
{
}

/// What can be got is what was found, in its order.
pub proof fn what_can_be_got_is_what_was_found(
    worker: &mut Worker,
    rows: Vec<AvailableRow>,
    i: int,
)
    requires
        call_ensures(Worker::apply_available, (worker, rows), ()),
        0 <= i < rows@.len(),
    ensures
        final(worker).state@.available.len() == rows@.len(),
        final(worker).state@.available[i].drop == rows@[i].drop@,
        final(worker).state@.available[i].group == rows@[i].group@,
        final(worker).state@.available[i].pick == rows@[i].pick@,
        final(worker).state@.available[i].name == rows@[i].name@,
        final(worker).state@.available[i].size == rows@[i].size@,
{
}

/// Looking again asks for the offers of the drop that is awaited, until the same time.
pub proof fn looking_again_asks_the_same(run: UiRun, r: UiStep)
    requires
        call_ensures(Worker::look_again, (run,), r),
        run is ReceiveList,
    ensures
        r is Call,
        r->method@ == "offer.list"@,
        r->params@.text_at("drop"@) == Some(run->handle@),
        r->Call_run is ReceiveList,
        r->Call_run->handle@ == run->handle@,
        r->Call_run->deadline == run->deadline,
{
    broadcast use {added_value_is_found, nothing_is_in_an_empty_object};

    assert(r->params@.get("drop"@) is Some);
}

/// What is pasted can be received where a link of ours, or the ticket alone, is pasted.
pub proof fn links_can_be_received(input: &str, r: bool, ticket: Seq<char>)
    requires
        call_ensures(can_receive, (input,), r),
        "drop1"@.is_prefix_of(ticket),
        ticket.len() > 32,
        forall|i: int|
            0 <= i < ticket.len() ==> 'a' <= #[trigger] ticket[i] <= 'z' || '0' <= ticket[i]
                <= '9',
        input@ == app_link_text(ticket) || input@ == ticket,
    ensures
        r,
{
    reveal_strlit("drop1");
    assert(ticket.subrange(0, 5) =~= "drop1"@);
    pasted_app_link_gives_ticket_back(ticket, Prefixes::First);
}

/// A link that is given in place of a ticket is read as its ticket.
pub proof fn links_stand_for_tickets(text: &str, r: String, ticket: Seq<char>)
    requires
        call_ensures(read_ticket, (text,), r),
        "drop1"@.is_prefix_of(ticket) || "drop2"@.is_prefix_of(ticket),
        ticket.len() > 32,
        forall|i: int|
            0 <= i < ticket.len() ==> 'a' <= #[trigger] ticket[i] <= 'z' || '0' <= ticket[i]
                <= '9',
        text@ == app_link_text(ticket) || text@ == ticket,
    ensures
        r@ == ticket,
{
    reveal_strlit("drop1");
    reveal_strlit("drop2");
    if "drop1"@.is_prefix_of(ticket) {
        assert(ticket.subrange(0, 5) =~= "drop1"@);
    } else {
        assert(ticket.subrange(0, 5) =~= "drop2"@);
    }
    pasted_app_link_gives_ticket_back(ticket, Prefixes::Any);
}

/// An `@` in front names a file that holds the ticket; the place for what is received is the one
/// that is given, else here; a room is remembered under the name that is given, else under its own.
pub proof fn what_is_given_comes_first(
    arg: &str,
    file: Option<String>,
    out: Option<String>,
    dir: String,
    save_as: &Option<String>,
    room: &Option<String>,
    kept: Option<String>,
    ticket: Option<String>,
    named: Option<String>,
    source: Result<Source, String>,
)
    requires
        call_ensures(ticket_file, (arg,), file),
        call_ensures(receive_dir, (out,), dir),
        call_ensures(room_to_remember, (save_as, room), kept),
        call_ensures(qr_source, (ticket, named), source),
    ensures
        file is Some <==> arg@.len() > 0 && arg@[0] == '@',
        file is Some ==> seq!['@'] + file->0@ == arg@,
        out is Some ==> dir@ == out->0@,
        out is None ==> dir@ == "."@,
        save_as is Some ==> opt_text(kept) == Some(save_as->0@),
        save_as is None ==> opt_text(kept) == opt_text(*room),
        ticket is Some ==> source is Ok && source->Ok_0 is Ticket && source->Ok_0->Ticket_0
            == ticket->0,
        ticket is None && named is Some ==> source is Ok && source->Ok_0 is Room
            && source->Ok_0->Room_0 == named->0,
        ticket is None && named is None ==> source is Err,
{
    if file is Some {
        assert(seq!['@'] + file->0@ =~= arg@);
    }
}

/// A ticket is kept in the store's directory, where there is a store.
pub proof fn tickets_are_kept_in_the_store(store: &Option<String>, r: Option<String>)
    requires
        call_ensures(kept_ticket, (store,), r),
    ensures
        r is Some <==> store is Some,
        store is Some ==> parts(r->0@) == parts(store->0@).push(PartView::Name("ticket"@)),
{
    reveal_strlit("ticket");
    reveal_strlit(".");
    reveal_strlit("..");
    assert("ticket"@.len() == 6 && "."@.len() == 1 && ".."@.len() == 2);
    assert(opt_text(r) is Some <==> r is Some);
    if store is Some {
        assert(plain_name("ticket"@));
        a_name_below_adds_a_part(store->0@, "ticket"@);
    }
}

/// The commands introduce themselves as ones that control, and none of them is asked anything; they
/// begin with the ticket, the pick and the place that they were given.
pub proof fn commands_begin_with_what_they_were_given(
    sending: Hello,
    getting: Hello,
    leaving: Hello,
    server: Hello,
    ticket: &str,
    pick: Option<String>,
    out: OutDir,
    get: (Getting, Step),
    join: (Hello, Step),
    drop: &str,
    leave: (Leaving, Step),
)
    requires
        call_ensures(Sending::hello, (), sending),
        call_ensures(Getting::hello, (), getting),
        call_ensures(Leaving::hello, (), leaving),
        call_ensures(server_hello, (), server),
        call_ensures(Getting::begin, (ticket, pick, out), get),
        call_ensures(join_call, (ticket,), join),
        call_ensures(Leaving::begin, (drop,), leave),
    ensures
        !sending.roles@.contains(Role::Ui) && sending.roles@.contains(Role::Control),
        !getting.roles@.contains(Role::Ui) && getting.roles@.contains(Role::Control),
        !leaving.roles@.contains(Role::Ui) && leaving.roles@.contains(Role::Control),
        !server.roles@.contains(Role::Ui) && server.roles@.contains(Role::Control),
        get.0@.pick == opt_text(pick),
        get.0@.out == out,
        get.1@.next is Call,
        get.1@.next->method == "drop.join"@,
        get.1@.next->params.text_at("ticket"@) == Some(ticket@),
        join.1@.next is Call,
        join.1@.next->method == "drop.join"@,
        join.1@.next->params.text_at("ticket"@) == Some(ticket@),
        leave.0@.drop == drop@,
        leave.1@.next is Call,
        leave.1@.next->method == "drop.list"@,
{
    broadcast use {added_value_is_found, nothing_is_in_an_empty_object};

    assert(sending.roles@[0] == Role::Control && getting.roles@[0] == Role::Control);
    assert(leaving.roles@[0] == Role::Control && server.roles@[0] == Role::Control);
    assert(get.1@.next->params.get("ticket"@) is Some);
    assert(join.1@.next->params.get("ticket"@) is Some);
}

/// A command waits for the very task that the daemon started for it, and fails where it started
/// none.
pub proof fn commands_wait_for_their_task(
    sending: &Sending,
    getting: &Getting,
    reply: Result<Json, ApiError>,
    first: Step,
    second: Step,
)
    requires
        call_ensures(Sending::started, (sending, reply), first),
        call_ensures(Getting::started, (getting, reply), second),
    ensures
        reply is Err ==> first@.next is Fail && second@.next is Fail,
        reply is Ok && reply->Ok_0@.text_at("task"@) is Some ==> {
            &&& first@.next is Wait
            &&& first@.next->task == reply->Ok_0@.text_at("task"@)->0
            &&& second@ == first@
        },
{
}

/// A blank line gets no answer from the tools for agents.
pub proof fn blank_lines_are_not_answered(line: &str, version: &str, r: RpcStep)
    requires
        call_ensures(answer_line, (line, version), r),
        trimmed(line@).len() == 0,
    ensures
        r is Ignore,
{
}

/// Progress is due for a blob that was not reported yet, and again a tenth of a second after it
/// was; when it is due, that is noted, and nothing is noted for other blobs.
pub proof fn progress_is_due_after_a_while(
    service: &mut Service,
    hash: &str,
    now: u64,
    r: bool,
    other: Seq<char>,
)
    requires
        call_ensures(Service::progress_due, (service, hash, now), r),
        other != hash@,
    ensures
        r <==> !old(service).progress_seen@.contains_key(hash@) || now
            >= old(service).progress_seen@[hash@] + 100_000_000,
        r ==> final(service).progress_seen@.contains_key(hash@),
        r ==> final(service).progress_seen@[hash@] == now,
        !r ==> final(service).progress_seen@ == old(service).progress_seen@,
        final(service).progress_seen@.contains_key(other)
            <==> old(service).progress_seen@.contains_key(other),
{
}

/// Every drop that is hosted is named once, both when they are listed and when they are shut down,
/// after which none is hosted.
pub proof fn every_hosted_drop_is_named(
    service: &Service,
    named: Vec<String>,
    stopping: &mut Service,
    taken: Vec<String>,
    handle: Seq<char>,
)
    requires
        call_ensures(Service::handles, (service,), named),
        call_ensures(Service::drain, (stopping,), taken),
        crate::table::keys_ascend(service.drops.entries()),
        crate::table::keys_ascend(old(stopping).drops.entries()),
    ensures
        texts(named@).contains(handle) <==> service.drops@.contains_key(handle),
        texts(taken@).contains(handle) <==> old(stopping).drops@.contains_key(handle),
        !final(stopping).drops@.contains_key(handle),
{
    lemma_named(service.drops.entries(), named@, handle);
    lemma_named(old(stopping).drops.entries(), taken@, handle);
}

proof fn lemma_named(rows: Seq<(String, HostedDrop)>, named: Seq<String>, handle: Seq<char>)
    requires
        crate::table::keys_ascend(rows),
        named.len() == rows.len(),
        forall|i: int| 0 <= i < named.len() ==> (#[trigger] named[i])@ == rows[i].0@,
    ensures
        texts(named).contains(handle) <==> map_of(rows).contains_key(handle),
{
    rows_are_the_map(rows);
    if texts(named).contains(handle) {
        let i = choose|i: int| 0 <= i < named.len() && texts(named)[i] == handle;
        assert(named[i]@ == rows[i].0@);
        assert(map_of(rows).contains_key(rows[i].0@));
    }
    if map_of(rows).contains_key(handle) {
        let i = choose|i: int| 0 <= i < rows.len() && (#[trigger] rows[i]).0@ == handle;
        assert(named[i]@ == handle);
        assert(texts(named)[i] == handle);
    }
}

/// A replay holds exactly the recorded events with the wanted number or a later one, and says
/// whether older ones that were wanted are gone.
pub proof fn a_replay_holds_the_wanted_events(
    bus: &EventBus,
    from: u64,
    r: (Vec<Envelope>, bool),
    event: crate::frame::EnvelopeView,
)
    requires
        call_ensures(EventBus::replay, (bus, from), r),
    ensures
        crate::frame::envelope_views(r.0@).contains(event) <==> bus@.ring.contains(event)
            && event.seq >= from && event.seq >= 1,
        r.1 <==> bus@.ring.len() > 0 && bus@.ring[0].seq > from && bus@.ring[0].seq > 1,
{
    let wanted = crate::bus::first_wanted(from);
    let ring = bus@.ring;
    let got = crate::bus::events_from(ring, wanted);
    lemma_wanted_events(ring, wanted);
    if got.contains(event) {
        let i = choose|i: int| 0 <= i < got.len() && got[i] == event;
        assert(ring.contains(got[i]));
    }
    if ring.contains(event) && event.seq >= wanted {
        let k = choose|k: int| 0 <= k < ring.len() && ring[k] == event;
        assert(got.contains(ring[k]));
    }
}

/// Somebody can be asked exactly when somebody who has come is still there.
pub proof fn somebody_can_be_asked_while_there(router: &AskRouter, closed: &HashSet<u64>, r: bool)
    requires
        call_ensures(AskRouter::has_live_ui, (router, closed), r),
    ensures
        r <==> exists|i: int|
            0 <= i < router@.uis.len() && !closed@.contains(#[trigger] router@.uis[i]),
{
    let uis = router@.uis;
    let open = crate::asks::staying(uis, closed@);
    lemma_staying(uis, closed@);
    if open.len() > 0 {
        assert(open.contains(open.last()));
        let i = choose|i: int| 0 <= i < uis.len() && uis[i] == open.last();
        assert(!closed@.contains(uis[i]));
    }
    if exists|i: int| 0 <= i < uis.len() && !closed@.contains(#[trigger] uis[i]) {
        let i = choose|i: int| 0 <= i < uis.len() && !closed@.contains(#[trigger] uis[i]);
        assert(open.contains(uis[i]));
    }
}

/// What is put into a room book is there as it is, and what is not there is not found.
pub proof fn rooms_are_found_as_they_were_put(
    rooms: &mut Rooms,
    name: &str,
    room: Room,
    after: &Rooms,
    found: Option<&Room>,
    other: &str,
    second: Option<&Room>,
)
    requires
        call_ensures(Rooms::put, (rooms, name, room), ()),
        *after == *final(rooms),
        call_ensures(Rooms::get, (after, name), found),
        call_ensures(Rooms::get, (after, other), second),
        other@ != name@,
    ensures
        found is Some,
        found->0@ == room@,
        second is Some <==> old(rooms).book().contains_key(other@),
        second is Some ==> second->0@ == old(rooms).book()[other@],
{
}

/// A daemon that finds no table of drops, and no frames of one, begins with none.
pub proof fn without_files_there_are_no_drops(rows: Vec<PersistedDrop>, frames: Vec<Vec<u8>>)
    requires
        call_ensures(DropStore::load_table, (&None::<String>,), rows),
        call_ensures(DropStore::load_frames, (&None::<Vec<u8>>,), frames),
    ensures
        rows@.len() == 0,
        frames@.len() == 0,
{
    assert(crate::persist::persisted_views(rows@).len() == rows@.len());
    assert(crate::persist::frame_views(frames@).len() == frames@.len());
}

/// The drops that are saved are the drops that are loaded, in their order, each with its handle,
/// name, owner and ticket.
pub proof fn saved_drops_are_loaded(
    store: &DropStore,
    drops: &Vec<PersistedDrop>,
    written: (crate::persist::FileWrite, String),
    text: &Option<String>,
    rows: Vec<PersistedDrop>,
    i: int,
)
    requires
        call_ensures(DropStore::save_table, (store, drops), written),
        text is Some,
        text->0@ == written.1@,
        call_ensures(DropStore::load_table, (text,), rows),
        0 <= i < drops@.len(),
    ensures
        rows@.len() == drops@.len(),
        rows@[i].handle@ == drops@[i].handle@,
        opt_text(rows@[i].name) == opt_text(drops@[i].name),
        rows@[i].mine == drops@[i].mine,
        rows@[i].ticket@ == drops@[i].ticket@,
{
    let a = crate::persist::persisted_views(rows@);
    let b = crate::persist::persisted_views(drops@);
    assert(a == b);
    assert(a.len() == rows@.len() && b.len() == drops@.len());
    assert(a[i] == rows@[i]@ && b[i] == drops@[i]@);
}

} // verus!

//! What the daemon promises of its calls, told by what goes in and what comes out.

use crate::collections::Published;
use crate::frame::{ApiError, ApiErrorView, Frame, Hello, Role};
use crate::ids::{BlobHash, PeerId};
use crate::inventory::{inventory, InventoryItem, LocalBlobStatus, OfferRecord};
use crate::json::{added_value_is_found, nothing_is_in_an_empty_object, object, Json, JsonView};
use crate::order::{arranged, arranged_has_the_same, arranged_is_in_order, text_before};
use crate::persist::PersistedDrop;
use crate::service::{
    offer_list, status_str, task_reply, the_question_tells_the_offer, Action, ConsentStep,
    DropEvent, DropFacts, FetchOrder, Greeting, HostedDrop, Offer, Service, TaskState,
};
use crate::size::human_size;
use crate::text::{decimal, opt_text, texts};
use crate::ticket::{app_link_text, web_link_text};
use std::collections::HashSet;
use vstd::prelude::*;

verus! {

/// How an item is spelled in a listing: its position, name, hash, the bytes that are received for
/// it, whether it is a collection and of how many files, and how much of it is here.
pub open spec fn tells_item(v: JsonView, item: InventoryItem) -> bool {
    &&& v.number_at("n"@) == Some(item.index as u64)
    &&& v.text_at("name"@) == Some(item.name@)
    &&& v.text_at("hash"@) == Some(item.hash.hex@)
    &&& v.number_at("size"@) == Some(item.content_size)
    &&& v.text_at("human_size"@) == Some(human_size(item.content_size as nat))
    &&& v.flag_at("is_collection"@) == Some(item.is_collection)
    &&& v.number_at("members"@) == match item.members {
        Some(n) => Some(n as u64),
        None => None,
    }
    &&& v.text_at("kind"@) == Some(
        match (item.is_collection, item.members) {
            (false, _) => "file"@,
            (true, None) => "folder"@,
            (true, Some(n)) => if n == 1 {
                "folder, 1 file"@
            } else {
                "folder, "@ + decimal(n as nat) + " files"@
            },
        },
    )
    &&& v.text_at("status"@) == Some(
        match item.status {
            LocalBlobStatus::Missing => "missing"@,
            LocalBlobStatus::Fetching { .. } => "fetching"@,
            LocalBlobStatus::Complete => "available"@,
            LocalBlobStatus::Other(_) => "failed"@,
        },
    )
}

proof fn lemma_item(item: InventoryItem)
    ensures
        tells_item(crate::service::item_json(item), item),
{
    let v = crate::service::item_json(item);
    broadcast use {added_value_is_found, nothing_is_in_an_empty_object};

    reveal_strlit("n");
    reveal_strlit("name");
    reveal_strlit("hash");
    reveal_strlit("size");
    reveal_strlit("human_size");
    reveal_strlit("kind");
    reveal_strlit("is_collection");
    reveal_strlit("members");
    reveal_strlit("status");
    assert("n"@.len() == 1 && "name"@.len() == 4 && "hash"@.len() == 4 && "size"@.len() == 4
        && "human_size"@.len() == 10 && "kind"@.len() == 4 && "is_collection"@.len() == 13
        && "members"@.len() == 7 && "status"@.len() == 6);
    assert("name"@[0] == 'n' && "hash"@[0] == 'h' && "size"@[0] == 's' && "kind"@[0] == 'k');
    assert(v.get("n"@) is Some);
    assert(v.get("name"@) is Some);
    assert(v.get("hash"@) is Some);
    assert(v.get("size"@) is Some);
    assert(v.get("human_size"@) is Some);
    assert(v.get("kind"@) is Some);
    assert(v.get("is_collection"@) is Some);
    assert(v.get("members"@) is Some);
    assert(v.get("status"@) is Some);
}

/// A listing holds one entry for each item, in the same order, and each entry tells its item.
pub proof fn listed_items_are_told(items: &Vec<InventoryItem>, r: Json)
    requires
        call_ensures(offer_list, (items,), r),
    ensures
        r@.list_at("items"@) is Some,
        r@.list_at("items"@)->0.len() == items@.len(),
        forall|i: int|
            0 <= i < items@.len() ==> tells_item(
                #[trigger] r@.list_at("items"@)->0[i],
                items@[i],
            ),
{
    broadcast use {added_value_is_found, nothing_is_in_an_empty_object};

    assert(r@.get("items"@) is Some);
    assert forall|i: int| 0 <= i < items@.len() implies tells_item(
        #[trigger] r@.list_at("items"@)->0[i],
        items@[i],
    ) by {
        lemma_item(items@[i]);
    }
}

/// How a drop is spelled in a listing.
pub open spec fn tells_drop(v: JsonView, facts: DropFacts, hosted: HostedDrop) -> bool {
    &&& v.text_at("drop"@) == Some(facts.drop@)
    &&& v.text_at("name"@) == opt_text(hosted.name)
    &&& v.text_at("topic"@) == Some(facts.topic@)
    &&& v.number_at("peers"@) == Some(facts.peers as u64)
    &&& v.number_at("offers"@) == Some(facts.offers as u64)
    &&& v.number_at("files"@) == Some(facts.files)
    &&& v.number_at("bytes"@) == Some(facts.bytes)
    &&& v.text_at("human_size"@) == Some(human_size(facts.bytes as nat))
    &&& v.flag_at("mine"@) == Some(hosted.mine)
}

proof fn lemma_drop(facts: DropFacts, hosted: HostedDrop)
    ensures
        tells_drop(crate::service::drop_json(facts, hosted@), facts, hosted),
{
    let v = crate::service::drop_json(facts, hosted@);
    broadcast use {added_value_is_found, nothing_is_in_an_empty_object};

    reveal_strlit("drop");
    reveal_strlit("name");
    reveal_strlit("topic");
    reveal_strlit("peers");
    reveal_strlit("offers");
    reveal_strlit("files");
    reveal_strlit("bytes");
    reveal_strlit("human_size");
    reveal_strlit("mine");
    assert("drop"@.len() == 4 && "name"@.len() == 4 && "topic"@.len() == 5
        && "peers"@.len() == 5 && "offers"@.len() == 6 && "files"@.len() == 5
        && "bytes"@.len() == 5 && "human_size"@.len() == 10 && "mine"@.len() == 4);
    assert("drop"@[0] == 'd' && "name"@[0] == 'n' && "mine"@[0] == 'm');
    assert("topic"@[0] == 't' && "peers"@[0] == 'p' && "files"@[0] == 'f' && "bytes"@[0] == 'b');
    assert(v.get("drop"@) is Some);
    assert(v.get("name"@) is Some);
    assert(v.get("topic"@) is Some);
    assert(v.get("peers"@) is Some);
    assert(v.get("offers"@) is Some);
    assert(v.get("files"@) is Some);
    assert(v.get("bytes"@) is Some);
    assert(v.get("human_size"@) is Some);
    assert(v.get("mine"@) is Some);
}

/// Every drop that was looked at is listed, and nothing else; each entry tells what was seen of the
/// drop and what was recorded when it was taken up, and the entries stand in the order of their
/// handles.
pub proof fn listed_drops_are_told(service: &Service, facts: Vec<DropFacts>, r: Json)
    requires
        call_ensures(Service::drop_list, (service, facts), r),
    ensures
        r@.list_at("drops"@) is Some,
        r@.list_at("drops"@)->0.len() == facts@.len(),
        forall|i: int|
            0 <= i < facts@.len() ==> exists|k: int|
                0 <= k < facts@.len() && tells_drop(
                    #[trigger] r@.list_at("drops"@)->0[i],
                    #[trigger] facts@[k],
                    service.drops@[facts@[k].drop@],
                ),
        forall|k: int|
            0 <= k < facts@.len() ==> exists|i: int|
                0 <= i < facts@.len() && tells_drop(
                    #[trigger] r@.list_at("drops"@)->0[i],
                    #[trigger] facts@[k],
                    service.drops@[facts@[k].drop@],
                ),
        forall|i: int, j: int|
            0 <= i < j < facts@.len() ==> !text_before(
                (#[trigger] r@.list_at("drops"@)->0[j]).text_at("drop"@)->0,
                (#[trigger] r@.list_at("drops"@)->0[i]).text_at("drop"@)->0,
            ),
{
    broadcast use {added_value_is_found, nothing_is_in_an_empty_object};

    assert(r@.get("drops"@) is Some);
    let listed = r@.list_at("drops"@)->0;
    let sorted = arranged(facts@);
    arranged_has_the_same(facts@);
    arranged_is_in_order(facts@);
    assert forall|i: int| 0 <= i < facts@.len() implies tells_drop(
        #[trigger] listed[i],
        sorted[i],
        service.drops@[sorted[i].drop@],
    ) by {
        lemma_drop(sorted[i], service.drops@[sorted[i].drop@]);
    }
    assert forall|i: int| 0 <= i < facts@.len() implies exists|k: int|
        0 <= k < facts@.len() && tells_drop(
            #[trigger] listed[i],
            #[trigger] facts@[k],
            service.drops@[facts@[k].drop@],
        ) by {
        assert(facts@.contains(sorted[i]));
        let k = choose|k: int| 0 <= k < facts@.len() && facts@[k] == sorted[i];
        assert(tells_drop(listed[i], facts@[k], service.drops@[facts@[k].drop@]));
    }
    assert forall|k: int| 0 <= k < facts@.len() implies exists|i: int|
        0 <= i < facts@.len() && tells_drop(
            #[trigger] listed[i],
            #[trigger] facts@[k],
            service.drops@[facts@[k].drop@],
        ) by {
        assert(sorted.contains(facts@[k]));
        let i = choose|i: int| 0 <= i < sorted.len() && sorted[i] == facts@[k];
        assert(tells_drop(listed[i], facts@[k], service.drops@[facts@[k].drop@]));
    }
    assert forall|i: int, j: int| 0 <= i < j < facts@.len() implies !text_before(
        (#[trigger] listed[j]).text_at("drop"@)->0,
        (#[trigger] listed[i]).text_at("drop"@)->0,
    ) by {
        assert(tells_drop(listed[i], sorted[i], service.drops@[sorted[i].drop@]));
        assert(tells_drop(listed[j], sorted[j], service.drops@[sorted[j].drop@]));
    }
}

/// The daemon's status tells its id, how it was brought up, how many drops it hosts and which event
/// comes next; asking for it changes nothing.
pub proof fn the_status_is_told(
    service: &mut Service,
    method: &str,
    params: &Json,
    r: Result<Action, ApiError>,
)
    requires
        call_ensures(Service::dispatch, (service, method, params), r),
        method@ == "daemon.status"@,
    ensures
        *final(service) == *old(service),
        r is Ok,
        r->Ok_0 is Reply,
        ({
            let status = r->Ok_0->Reply_0@;
            &&& status.text_at("endpoint_id"@) == Some(old(service).endpoint_id@)
            &&& status.flag_at("offline"@) == Some(old(service).options.offline)
            &&& status.flag_at("mdns"@) == Some(old(service).options.mdns)
            &&& status.flag_at("persistent_store"@) == Some(old(service).options.store_path is Some)
            &&& status.text_at("download_dir"@) == Some(old(service).options.download_dir@)
            &&& status.number_at("drops"@) == Some(old(service).drops@.dom().len() as u64)
            &&& status.number_at("seq"@) == Some(old(service).bus@.seq)
        }),
{
    broadcast use {added_value_is_found, nothing_is_in_an_empty_object};

    reveal_strlit("hello");
    reveal_strlit("daemon.status");
    assert("hello"@.len() == 5 && "daemon.status"@.len() == 13);
    reveal_strlit("endpoint_id");
    reveal_strlit("offline");
    reveal_strlit("mdns");
    reveal_strlit("persistent_store");
    reveal_strlit("download_dir");
    reveal_strlit("drops");
    reveal_strlit("seq");
    assert("endpoint_id"@.len() == 11 && "offline"@.len() == 7 && "mdns"@.len() == 4
        && "persistent_store"@.len() == 16 && "download_dir"@.len() == 12 && "drops"@.len() == 5
        && "seq"@.len() == 3);
    let status = r->Ok_0->Reply_0@;
    assert(status == old(service).status_json());
    assert(status.get("endpoint_id"@) is Some && status.get("offline"@) is Some);
    assert(status.get("mdns"@) is Some && status.get("persistent_store"@) is Some);
    assert(status.get("download_dir"@) is Some && status.get("drops"@) is Some);
    assert(status.get("seq"@) is Some);
}

/// A client is welcomed exactly when its first frame is a `hello` that can be read and that speaks
/// the first version of the interface; the reply then goes to that frame and tells the daemon's id,
/// its version and which event comes next. Only a client that wants to be asked is put among those
/// that can be.
pub proof fn only_a_readable_hello_is_welcome(
    service: &mut Service,
    first: &Option<Frame>,
    hello: Result<Hello, String>,
    r: Greeting,
)
    requires
        call_ensures(Service::greet, (service, first, hello), r),
    ensures
        r is Welcome <==> {
            &&& first is Some
            &&& first->0 is Req
            &&& first->0->m@ == "hello"@
            &&& hello is Ok
            &&& hello->Ok_0.api == 1
        },
        r is Ignored <==> !(first is Some && first->0 is Req && first->0->m@ == "hello"@),
        r is Refused ==> *final(service) == *old(service),
        r is Welcome ==> {
            let reply = r->Welcome_reply@;
            &&& reply is Res
            &&& reply->Res_id == first->0->Req_id
            &&& reply->Res_p.number_at("api"@) == Some(1u64)
            &&& reply->Res_p.text_at("daemon"@) == Some(old(service).version@)
            &&& reply->Res_p.number_at("wire"@) == Some(old(service).wire)
            &&& reply->Res_p.text_at("endpoint_id"@) == Some(old(service).endpoint_id@)
            &&& reply->Res_p.number_at("events_from"@) == Some(old(service).bus@.seq)
            &&& final(service).drops == old(service).drops
            &&& final(service).bus == old(service).bus
            &&& hello->Ok_0.roles@.contains(Role::Ui) <==> final(service).asks@.uis.len()
                == old(service).asks@.uis.len() + 1
            &&& hello->Ok_0.roles@.contains(Role::Ui) ==> final(service).asks@.uis.last()
                == old(service).asks@.next_ui
        },
{
    broadcast use {added_value_is_found, nothing_is_in_an_empty_object};

    reveal_strlit("api");
    reveal_strlit("daemon");
    reveal_strlit("wire");
    reveal_strlit("endpoint_id");
    reveal_strlit("methods");
    reveal_strlit("events_from");
    assert("api"@.len() == 3 && "daemon"@.len() == 6 && "wire"@.len() == 4
        && "endpoint_id"@.len() == 11 && "methods"@.len() == 7 && "events_from"@.len() == 11);
    assert("endpoint_id"@[1] == 'n' && "events_from"@[1] == 'v');
    let p = old(service).hello_json();
    assert(p.get("api"@) is Some && p.get("daemon"@) is Some && p.get("wire"@) is Some);
    assert(p.get("endpoint_id"@) is Some && p.get("events_from"@) is Some);
}

proof fn lemma_methods_differ()
    ensures
        "daemon.status"@ != "hello"@,
        "drop.create"@ != "hello"@,
        "drop.create"@ != "daemon.status"@,
        "drop.join"@ != "hello"@,
        "drop.join"@ != "daemon.status"@,
        "drop.join"@ != "drop.create"@,
        "drop.list"@ != "hello"@,
        "drop.list"@ != "daemon.status"@,
        "drop.list"@ != "drop.create"@,
        "drop.list"@ != "drop.join"@,
        "drop.ticket"@ != "hello"@,
        "drop.ticket"@ != "daemon.status"@,
        "drop.ticket"@ != "drop.create"@,
        "drop.ticket"@ != "drop.join"@,
        "drop.ticket"@ != "drop.list"@,
        "drop.leave"@ != "hello"@,
        "drop.leave"@ != "daemon.status"@,
        "drop.leave"@ != "drop.create"@,
        "drop.leave"@ != "drop.join"@,
        "drop.leave"@ != "drop.list"@,
        "drop.leave"@ != "drop.ticket"@,
        "offer.list"@ != "hello"@,
        "offer.list"@ != "daemon.status"@,
        "offer.list"@ != "drop.create"@,
        "offer.list"@ != "drop.join"@,
        "offer.list"@ != "drop.list"@,
        "offer.list"@ != "drop.ticket"@,
        "offer.list"@ != "drop.leave"@,
        "offer.publish"@ != "hello"@,
        "offer.publish"@ != "daemon.status"@,
        "offer.publish"@ != "drop.create"@,
        "offer.publish"@ != "drop.join"@,
        "offer.publish"@ != "drop.list"@,
        "offer.publish"@ != "drop.ticket"@,
        "offer.publish"@ != "drop.leave"@,
        "offer.publish"@ != "offer.list"@,
        "offer.fetch"@ != "hello"@,
        "offer.fetch"@ != "daemon.status"@,
        "offer.fetch"@ != "drop.create"@,
        "offer.fetch"@ != "drop.join"@,
        "offer.fetch"@ != "drop.list"@,
        "offer.fetch"@ != "drop.ticket"@,
        "offer.fetch"@ != "drop.leave"@,
        "offer.fetch"@ != "offer.list"@,
        "offer.fetch"@ != "offer.publish"@,
        "task.list"@ != "hello"@,
        "task.list"@ != "daemon.status"@,
        "task.list"@ != "drop.create"@,
        "task.list"@ != "drop.join"@,
        "task.list"@ != "drop.list"@,
        "task.list"@ != "drop.ticket"@,
        "task.list"@ != "drop.leave"@,
        "task.list"@ != "offer.list"@,
        "task.list"@ != "offer.publish"@,
        "task.list"@ != "offer.fetch"@,
        "task.cancel"@ != "hello"@,
        "task.cancel"@ != "daemon.status"@,
        "task.cancel"@ != "drop.create"@,
        "task.cancel"@ != "drop.join"@,
        "task.cancel"@ != "drop.list"@,
        "task.cancel"@ != "drop.ticket"@,
        "task.cancel"@ != "drop.leave"@,
        "task.cancel"@ != "offer.list"@,
        "task.cancel"@ != "offer.publish"@,
        "task.cancel"@ != "offer.fetch"@,
        "task.cancel"@ != "task.list"@,
        "events.replay"@ != "hello"@,
        "events.replay"@ != "daemon.status"@,
        "events.replay"@ != "drop.create"@,
        "events.replay"@ != "drop.join"@,
        "events.replay"@ != "drop.list"@,
        "events.replay"@ != "drop.ticket"@,
        "events.replay"@ != "drop.leave"@,
        "events.replay"@ != "offer.list"@,
        "events.replay"@ != "offer.publish"@,
        "events.replay"@ != "offer.fetch"@,
        "events.replay"@ != "task.list"@,
        "events.replay"@ != "task.cancel"@,
{
    reveal_strlit("hello");
    reveal_strlit("daemon.status");
    reveal_strlit("drop.create");
    reveal_strlit("drop.join");
    reveal_strlit("drop.list");
    reveal_strlit("drop.ticket");
    reveal_strlit("drop.leave");
    reveal_strlit("offer.list");
    reveal_strlit("offer.publish");
    reveal_strlit("offer.fetch");
    reveal_strlit("task.list");
    reveal_strlit("task.cancel");
    reveal_strlit("events.replay");
    assert("hello"@.len() == 5 && "daemon.status"@.len() == 13 && "drop.create"@.len() == 11
        && "drop.join"@.len() == 9 && "drop.list"@.len() == 9 && "drop.ticket"@.len() == 11
        && "drop.leave"@.len() == 10 && "offer.list"@.len() == 10
        && "offer.publish"@.len() == 13 && "offer.fetch"@.len() == 11 && "task.list"@.len() == 9
        && "task.cancel"@.len() == 11 && "events.replay"@.len() == 13);
    assert("daemon.status"@[0] == 'd' && "offer.publish"@[0] == 'o' && "events.replay"@[0] == 'e');
    assert("drop.create"@[6] == 'r' && "drop.ticket"@[6] == 'i' && "offer.fetch"@[6] == 'f'
        && "task.cancel"@[6] == 'a');
    assert("drop.join"@[0] == 'd' && "drop.join"@[5] == 'j' && "drop.list"@[0] == 'd'
        && "drop.list"@[5] == 'l' && "task.list"@[0] == 't' && "task.list"@[5] == 'l');
    assert("drop.leave"@[0] == 'd' && "offer.list"@[0] == 'o');
}

/// Creating and joining are asked for with what the caller gave: a drop is created under the name
/// in the parameters if there is one, and a ticket is joined as it was given. A join without a
/// ticket is refused as malformed. Neither changes anything yet.
pub proof fn drops_are_created_and_joined_as_asked(
    service: &mut Service,
    method: &str,
    params: &Json,
    r: Result<Action, ApiError>,
)
    requires
        call_ensures(Service::dispatch, (service, method, params), r),
        method@ == "drop.create"@ || method@ == "drop.join"@ || method@ == "drop.list"@,
    ensures
        *final(service) == *old(service),
        method@ == "drop.create"@ ==> r is Ok && r->Ok_0 is Create && opt_text(r->Ok_0->Create_name)
            == params@.text_at("name"@),
        method@ == "drop.join"@ ==> match params@.text_at("ticket"@) {
            Some(ticket) => r is Ok && r->Ok_0 is Join && r->Ok_0->ticket@ == ticket,
            None => r is Err && r->Err_0.code@ == "bad_params"@,
        },
        method@ == "drop.list"@ ==> r is Ok && r->Ok_0 is ListDrops,
{
    lemma_methods_differ();
}

/// A method about a drop fails with `bad_params` where the parameters name none, and with
/// `not_found` where they name one that is not hosted; nothing changes. Otherwise it is about the
/// drop that they name.
pub proof fn methods_are_about_the_drop_they_name(
    service: &mut Service,
    method: &str,
    params: &Json,
    r: Result<Action, ApiError>,
)
    requires
        call_ensures(Service::dispatch, (service, method, params), r),
        ({
            ||| method@ == "drop.ticket"@
            ||| method@ == "drop.leave"@
            ||| method@ == "offer.list"@
            ||| method@ == "offer.publish"@
            ||| method@ == "offer.fetch"@
        }),
    ensures
        match params@.text_at("drop"@) {
            None => {
                &&& r is Err
                &&& r->Err_0.code@ == "bad_params"@
                &&& *final(service) == *old(service)
            },
            Some(handle) => if !old(service).drops@.contains_key(handle) {
                &&& r is Err
                &&& r->Err_0.code@ == "not_found"@
                &&& *final(service) == *old(service)
            } else {
                match r {
                    Ok(Action::Ticket { drop, full }) => {
                        &&& method@ == "drop.ticket"@
                        &&& drop@ == handle
                        &&& full <==> params@.flag_at("full"@) == Some(true)
                        &&& *final(service) == *old(service)
                    },
                    Ok(Action::Leave { drop }) => {
                        &&& method@ == "drop.leave"@
                        &&& drop@ == handle
                        &&& !final(service).drops@.contains_key(handle)
                        &&& forall|other: Seq<char>|
                            other != handle ==> (#[trigger] final(service).drops@.contains_key(
                                other,
                            ) <==> old(service).drops@.contains_key(other))
                        &&& forall|other: Seq<char>|
                            other != handle && old(service).drops@.contains_key(other)
                                ==> #[trigger] final(service).drops@[other]
                                == old(service).drops@[other]
                        &&& final(service).tasks == old(service).tasks
                        &&& final(service).bus == old(service).bus
                    },
                    Ok(Action::ListOffers { drop }) => {
                        &&& method@ == "offer.list"@
                        &&& drop@ == handle
                        &&& *final(service) == *old(service)
                    },
                    Ok(Action::Publish { task, drop, path, name }) => {
                        &&& method@ == "offer.publish"@
                        &&& drop@ == handle
                        &&& Some(path@) == params@.text_at("path"@)
                        &&& opt_text(name) == params@.text_at("name"@)
                        &&& final(service).tasks@.contains_key(task@)
                        &&& final(service).tasks@[task@].kind@ == "publish"@
                        &&& final(service).tasks@[task@].drop@ == handle
                        &&& final(service).tasks@[task@].state is Running
                        &&& final(service).tasks@[task@].abortable
                        &&& final(service).drops == old(service).drops
                    },
                    Ok(Action::Fetch { drop, pick, out }) => {
                        &&& method@ == "offer.fetch"@
                        &&& drop@ == handle
                        &&& Some(pick@) == params@.text_at("pick"@)
                        &&& out@ == match params@.text_at("out"@) {
                            Some(dir) => dir,
                            None => old(service).options.download_dir@,
                        }
                        &&& *final(service) == *old(service)
                    },
                    Ok(_) => false,
                    Err(e) => {
                        &&& e.code@ == "bad_params"@
                        &&& *final(service) == *old(service)
                        &&& (method@ == "offer.publish"@ && params@.text_at("path"@) is None) || (
                        method@ == "offer.fetch"@ && params@.text_at("pick"@) is None)
                    },
                }
            },
        },
{
    lemma_methods_differ();
}

/// A cancelled task is said to be cancelled, can no longer be aborted and is otherwise as it was;
/// no other task is touched. A task that is not there cannot be cancelled.
pub proof fn one_task_is_cancelled(
    service: &mut Service,
    method: &str,
    params: &Json,
    r: Result<Action, ApiError>,
    other: Seq<char>,
)
    requires
        call_ensures(Service::dispatch, (service, method, params), r),
        method@ == "task.cancel"@,
        params@.text_at("task"@) != Some(other),
    ensures
        final(service).tasks@.contains_key(other) <==> old(service).tasks@.contains_key(other),
        old(service).tasks@.contains_key(other) ==> final(service).tasks@[other]
            == old(service).tasks@[other],
        match params@.text_at("task"@) {
            None => r is Err && r->Err_0.code@ == "bad_params"@ && *final(service) == *old(service),
            Some(id) => if old(service).tasks@.contains_key(id) {
                &&& r is Ok
                &&& r->Ok_0 is Cancel
                &&& r->Ok_0->Cancel_task@ == id
                &&& r->Ok_0->abort == old(service).tasks@[id].abortable
                &&& final(service).tasks@[id].state is Cancelled
                &&& !final(service).tasks@[id].abortable
                &&& final(service).tasks@[id].kind@ == old(service).tasks@[id].kind@
                &&& final(service).tasks@[id].drop@ == old(service).tasks@[id].drop@
                &&& final(service).bus@.ring.last().e == "task.state"@
                &&& final(service).bus@.ring.last().p.text_at("task"@) == Some(id)
                &&& final(service).bus@.ring.last().p.text_at("state"@) == Some("cancelled"@)
                &&& final(service).drops == old(service).drops
            } else {
                &&& r is Err
                &&& r->Err_0.code@ == "not_found"@
                &&& *final(service) == *old(service)
            },
        },
{
    broadcast use {added_value_is_found, nothing_is_in_an_empty_object};

    lemma_methods_differ();
    reveal_strlit("task");
    reveal_strlit("state");
    assert("task"@.len() == 4 && "state"@.len() == 5);
    if r is Ok {
        let p = final(service).bus@.ring.last().p;
        let id = params@.text_at("task"@)->0;
        assert(final(service).tasks@[id]@.state is Cancelled);
        assert(p.get("task"@) is Some && p.get("state"@) is Some);
    }
}

/// The list of tasks holds each task under its id with its kind, its drop, its hash and its state.
pub proof fn tasks_are_told(
    service: &mut Service,
    method: &str,
    params: &Json,
    r: Result<Action, ApiError>,
    i: int,
)
    requires
        call_ensures(Service::dispatch, (service, method, params), r),
        method@ == "task.list"@,
        0 <= i < old(service).tasks.entries().len(),
    ensures
        *final(service) == *old(service),
        r is Ok,
        r->Ok_0 is Reply,
        r->Ok_0->Reply_0@.list_at("tasks"@) is Some,
        r->Ok_0->Reply_0@.list_at("tasks"@)->0.len() == old(service).tasks.entries().len(),
        ({
            let (id, task) = old(service).tasks.entries()[i];
            let told = r->Ok_0->Reply_0@.list_at("tasks"@)->0[i];
            &&& told.text_at("task"@) == Some(id@)
            &&& told.text_at("kind"@) == Some(task.kind@)
            &&& told.text_at("drop"@) == Some(task.drop@)
            &&& told.text_at("hash"@) == opt_text(task.hash)
            &&& told.text_at("state"@) == Some(
                match task.state {
                    TaskState::Running => "running"@,
                    TaskState::Done => "done"@,
                    TaskState::Failed => "failed"@,
                    TaskState::Cancelled => "cancelled"@,
                },
            )
        }),
{
    broadcast use {added_value_is_found, nothing_is_in_an_empty_object};

    lemma_methods_differ();
    reveal_strlit("task");
    reveal_strlit("kind");
    reveal_strlit("drop");
    reveal_strlit("hash");
    reveal_strlit("state");
    assert("task"@.len() == 4 && "kind"@.len() == 4 && "drop"@.len() == 4 && "hash"@.len() == 4
        && "state"@.len() == 5);
    assert("task"@[0] == 't' && "kind"@[0] == 'k' && "drop"@[0] == 'd' && "hash"@[0] == 'h');
    assert(r->Ok_0->Reply_0@.get("tasks"@) is Some);
    let told = r->Ok_0->Reply_0@.list_at("tasks"@)->0[i];
    let (id, task) = old(service).tasks.entries()[i];
    assert(told == crate::service::task_json(id@, task@));
    assert(told.get("task"@) is Some && told.get("kind"@) is Some && told.get("drop"@) is Some);
    assert(told.get("hash"@) is Some && told.get("state"@) is Some);
}

/// A replay from a number on gives the recorded events with that number or a later one, each as it
/// was recorded, and says that it is truncated exactly when the oldest recorded event is later than
/// the one that was wanted. The first number is one, also where none or zero was wanted.
pub proof fn a_replay_tells_what_was_recorded(
    service: &mut Service,
    method: &str,
    params: &Json,
    r: Result<Action, ApiError>,
)
    requires
        call_ensures(Service::dispatch, (service, method, params), r),
        method@ == "events.replay"@,
    ensures
        *final(service) == *old(service),
        r is Ok,
        r->Ok_0 is Reply,
        ({
            let wanted: int = match params@.number_at("from"@) {
                Some(n) => if n == 0 {
                    1
                } else {
                    n as int
                },
                None => 1,
            };
            let ring = old(service).bus@.ring;
            let told = r->Ok_0->Reply_0@;
            &&& told.list_at("events"@) is Some
            &&& told.flag_at("truncated"@) == Some(ring.len() > 0 && ring[0].seq > wanted)
            &&& forall|i: int|
                0 <= i < told.list_at("events"@)->0.len() ==> exists|k: int|
                    0 <= k < ring.len() && (#[trigger] ring[k]).seq >= wanted && (
                    #[trigger] told.list_at("events"@)->0[i]).number_at("seq"@) == Some(ring[k].seq)
                        && told.list_at("events"@)->0[i].text_at("e"@) == Some(ring[k].e)
                        && told.list_at("events"@)->0[i].get("p"@) == Some(ring[k].p)
            &&& forall|k: int|
                0 <= k < ring.len() && (#[trigger] ring[k]).seq >= wanted ==> exists|i: int|
                    0 <= i < told.list_at("events"@)->0.len() && (
                    #[trigger] told.list_at("events"@)->0[i]).number_at("seq"@) == Some(ring[k].seq)
                        && told.list_at("events"@)->0[i].text_at("e"@) == Some(ring[k].e)
                        && told.list_at("events"@)->0[i].get("p"@) == Some(ring[k].p)
        }),
{
    broadcast use {added_value_is_found, nothing_is_in_an_empty_object};

    lemma_methods_differ();
    reveal_strlit("events");
    reveal_strlit("truncated");
    reveal_strlit("seq");
    reveal_strlit("e");
    reveal_strlit("p");
    assert("events"@.len() == 6 && "truncated"@.len() == 9 && "seq"@.len() == 3
        && "e"@.len() == 1 && "p"@.len() == 1);
    assert("e"@[0] == 'e' && "p"@[0] == 'p');
    let from = match params@.number_at("from"@) {
        Some(n) => n,
        None => 0u64,
    };
    let wanted = crate::bus::first_wanted(from);
    let ring = old(service).bus@.ring;
    let told = r->Ok_0->Reply_0@;
    assert(told.get("events"@) is Some && told.get("truncated"@) is Some);
    let got = crate::bus::events_from(ring, wanted);
    let list = told.list_at("events"@)->0;
    assert forall|i: int| 0 <= i < list.len() implies {
        &&& (#[trigger] list[i]).number_at("seq"@) == Some(got[i].seq)
        &&& list[i].text_at("e"@) == Some(got[i].e)
        &&& list[i].get("p"@) == Some(got[i].p)
    } by {
        assert(list[i] == got[i].json());
        assert(list[i].get("seq"@) is Some && list[i].get("e"@) is Some);
        assert(list[i].get("p"@) is Some);
    }
    lemma_wanted_events(ring, wanted);
    assert forall|i: int| 0 <= i < list.len() implies exists|k: int|
        0 <= k < ring.len() && (#[trigger] ring[k]).seq >= wanted && (
        #[trigger] list[i]).number_at("seq"@) == Some(ring[k].seq) && list[i].text_at("e"@)
            == Some(ring[k].e) && list[i].get("p"@) == Some(ring[k].p) by {
        let _ = list[i];
        assert(ring.contains(got[i]));
        let k = choose|k: int| 0 <= k < ring.len() && ring[k] == got[i];
        assert(ring[k].seq >= wanted);
    }
    assert forall|k: int|
        0 <= k < ring.len() && (#[trigger] ring[k]).seq >= wanted implies exists|i: int|
        0 <= i < list.len() && (#[trigger] list[i]).number_at("seq"@) == Some(ring[k].seq)
            && list[i].text_at("e"@) == Some(ring[k].e) && list[i].get("p"@) == Some(ring[k].p) by {
        assert(got.contains(ring[k]));
        let i = choose|i: int| 0 <= i < got.len() && got[i] == ring[k];
        let _ = list[i];
        assert(list[i].number_at("seq"@) == Some(ring[k].seq));
    }
}

/// The events that are wanted are those of the ring that are numbered from the wanted one on.
pub proof fn lemma_wanted_events(ring: Seq<crate::frame::EnvelopeView>, wanted: u64)
    ensures
        forall|i: int|
            0 <= i < crate::bus::events_from(ring, wanted).len() ==> ring.contains(
                #[trigger] crate::bus::events_from(ring, wanted)[i],
            ) && crate::bus::events_from(ring, wanted)[i].seq >= wanted,
        forall|k: int|
            0 <= k < ring.len() && (#[trigger] ring[k]).seq >= wanted ==> crate::bus::events_from(
                ring,
                wanted,
            ).contains(ring[k]),
    decreases ring.len(),
{
    if ring.len() > 0 {
        let front = ring.drop_last();
        lemma_wanted_events(front, wanted);
        let a = crate::bus::events_from(front, wanted);
        let b = crate::bus::events_from(ring, wanted);
        assert forall|i: int| 0 <= i < b.len() implies ring.contains(#[trigger] b[i]) && b[i].seq
            >= wanted by {
            if i < a.len() {
                assert(a[i] == b[i]);
                let k = choose|k: int| 0 <= k < front.len() && front[k] == a[i];
                assert(ring[k] == a[i]);
            } else {
                assert(ring[ring.len() - 1] == b[i]);
            }
        }
        assert forall|k: int|
            0 <= k < ring.len() && (#[trigger] ring[k]).seq >= wanted implies b.contains(
            ring[k],
        ) by {
            if k < front.len() {
                assert(front[k] == ring[k]);
                let i = choose|i: int| 0 <= i < a.len() && a[i] == ring[k];
                assert(b[i] == ring[k]);
            } else {
                assert(b[b.len() - 1] == ring[k]);
            }
        }
    }
}

/// A drop that was created is hosted under the handle in the reply, is our own and has the name
/// that was given; one that was joined is somebody else's and has none. The reply tells the
/// topic, and for a created drop the ticket. Both are announced with the handle and the topic,
/// and no drop that was there is touched.
pub proof fn new_drops_are_hosted(
    service: &mut Service,
    name: Option<String>,
    topic: &str,
    ticket: &str,
    r: Json,
    other: Seq<char>,
)
    requires
        call_ensures(Service::created, (service, name, topic, ticket), r),
        r@.text_at("drop"@) != Some(other),
    ensures
        r@.text_at("drop"@) is Some,
        r@.text_at("topic"@) == Some(topic@),
        r@.text_at("ticket"@) == Some(ticket@),
        final(service).drops@.contains_key(r@.text_at("drop"@)->0),
        final(service).drops@[r@.text_at("drop"@)->0].mine,
        opt_text(final(service).drops@[r@.text_at("drop"@)->0].name) == opt_text(name),
        final(service).drops@.contains_key(other) <==> old(service).drops@.contains_key(other),
        old(service).drops@.contains_key(other) ==> final(service).drops@[other]
            == old(service).drops@[other],
        final(service).bus@.ring.last().e == "drop.joined"@,
        final(service).bus@.ring.last().p.text_at("drop"@) == r@.text_at("drop"@),
        final(service).bus@.ring.last().p.text_at("topic"@) == Some(topic@),
        old(service).next_drop < u64::MAX ==> final(service).next_drop
            == old(service).next_drop + 1,
{
    broadcast use {added_value_is_found, nothing_is_in_an_empty_object};

    reveal_strlit("drop");
    reveal_strlit("topic");
    reveal_strlit("ticket");
    assert("drop"@.len() == 4 && "topic"@.len() == 5 && "ticket"@.len() == 6);
    assert(r@.get("drop"@) is Some);
    assert(r@.get("topic"@) is Some);
    assert(r@.get("ticket"@) is Some);
    let p = final(service).bus@.ring.last().p;
    let handle = r@.text_at("drop"@)->0;
    assert(final(service).drops@[handle]@.mine);
    assert(p.get("drop"@) is Some);
    assert(p.get("topic"@) is Some);
}

/// A drop that was joined is hosted under the handle in the reply, is somebody else's and has no
/// name; no drop that was there is touched.
pub proof fn joined_drops_are_hosted(service: &mut Service, topic: &str, r: Json, other: Seq<char>)
    requires
        call_ensures(Service::joined, (service, topic), r),
        r@.text_at("drop"@) != Some(other),
    ensures
        r@.text_at("drop"@) is Some,
        r@.text_at("topic"@) == Some(topic@),
        final(service).drops@.contains_key(r@.text_at("drop"@)->0),
        !final(service).drops@[r@.text_at("drop"@)->0].mine,
        final(service).drops@[r@.text_at("drop"@)->0].name is None,
        final(service).drops@.contains_key(other) <==> old(service).drops@.contains_key(other),
        old(service).drops@.contains_key(other) ==> final(service).drops@[other]
            == old(service).drops@[other],
        final(service).bus@.ring.last().e == "drop.joined"@,
        final(service).bus@.ring.last().p.text_at("drop"@) == r@.text_at("drop"@),
        final(service).bus@.ring.last().p.text_at("topic"@) == Some(topic@),
        old(service).next_drop < u64::MAX ==> final(service).next_drop
            == old(service).next_drop + 1,
{
    broadcast use {added_value_is_found, nothing_is_in_an_empty_object};

    reveal_strlit("drop");
    reveal_strlit("topic");
    assert("drop"@.len() == 4 && "topic"@.len() == 5);
    assert(r@.get("drop"@) is Some);
    assert(r@.get("topic"@) is Some);
    let p = final(service).bus@.ring.last().p;
    let handle = r@.text_at("drop"@)->0;
    assert(!final(service).drops@[handle]@.mine);
    assert(final(service).drops@[handle]@.name is None);
    assert(p.get("drop"@) is Some);
    assert(p.get("topic"@) is Some);
}

/// Two drops that are taken up one after the other get different handles.
pub proof fn new_handles_differ(
    service: &mut Service,
    topic: &str,
    first: Json,
    later: &mut Service,
    name: Option<String>,
    other: &str,
    ticket: &str,
    second: Json,
)
    requires
        call_ensures(Service::joined, (service, topic), first),
        *old(later) == *final(service),
        call_ensures(Service::created, (later, name, other, ticket), second),
        old(service).next_drop < u64::MAX,
    ensures
        first@.text_at("drop"@) != second@.text_at("drop"@),
{
    broadcast use {added_value_is_found, nothing_is_in_an_empty_object};

    reveal_strlit("drop");
    reveal_strlit("topic");
    reveal_strlit("ticket");
    assert("drop"@.len() == 4 && "topic"@.len() == 5 && "ticket"@.len() == 6);
    assert(first@.get("drop"@) is Some);
    assert(second@.get("drop"@) is Some);
    crate::service::handles_are_distinct(
        old(service).next_drop as nat,
        old(later).next_drop as nat,
    );
}

/// What is kept of a drop is what brings it back: the row of a drop that is hosted tells its
/// handle, its name, whether it is ours and its ticket, and a daemon that restores it hosts it
/// under the same handle as before.
pub proof fn a_kept_drop_comes_back(
    service: &Service,
    handle: &str,
    ticket: &str,
    row: Option<PersistedDrop>,
    fresh: &mut Service,
    topic: &str,
)
    requires
        call_ensures(Service::persisted, (service, handle, ticket), row),
        row is Some ==> call_ensures(Service::restore, (fresh, row->0, topic), ()),
    ensures
        row is Some <==> service.drops@.contains_key(handle@),
        row is Some ==> {
            let before = service.drops@[handle@];
            let after = final(fresh).drops@[handle@];
            &&& row->0.handle@ == handle@
            &&& row->0.ticket@ == ticket@
            &&& row->0.mine == before.mine
            &&& opt_text(row->0.name) == opt_text(before.name)
            &&& final(fresh).drops@.contains_key(handle@)
            &&& after.mine == before.mine
            &&& opt_text(after.name) == opt_text(before.name)
        },
{
    if row is Some {
        assert(final(fresh).drops@[handle@]@ == service.drops@[handle@]@);
    }
}

/// The reply to a request for a ticket holds the ticket itself, the link of its own scheme, and a
/// link to a web page exactly where one is set up.
pub proof fn ticket_replies_hold_the_links(service: &Service, ticket: &str, r: Json)
    requires
        call_ensures(Service::drop_ticket, (service, ticket), r),
    ensures
        r@.text_at("ticket"@) == Some(ticket@),
        r@.text_at("link"@) == Some("iroh-drop://receive/"@ + ticket@),
        r@.text_at("web_link"@) == match service.options.link_base {
            Some(base) => Some(web_link_text(base@, ticket@)),
            None => None,
        },
{
    broadcast use {added_value_is_found, nothing_is_in_an_empty_object};

    reveal_strlit("link");
    reveal_strlit("web_link");
    reveal_strlit("ticket");
    assert("link"@.len() == 4 && "web_link"@.len() == 8 && "ticket"@.len() == 6);
    assert(r@.get("link"@) is Some);
    assert(r@.get("ticket"@) is Some);
    assert(r@.get("web_link"@) is Some <==> service.options.link_base is Some);
    reveal_strlit("iroh-drop://receive/");
    reveal_strlit("iroh-drop");
    reveal_strlit("://receive/");
    assert(app_link_text(ticket@) =~= "iroh-drop://receive/"@ + ticket@);
}

/// Leaving is announced with the handle of the drop.
pub proof fn leaving_is_announced(service: &mut Service, drop: &str, r: Json)
    requires
        call_ensures(Service::left, (service, drop), r),
    ensures
        final(service).bus@.ring.last().e == "drop.left"@,
        final(service).bus@.ring.last().p.text_at("drop"@) == Some(drop@),
        final(service).drops == old(service).drops,
        final(service).tasks == old(service).tasks,
{
    broadcast use {added_value_is_found, nothing_is_in_an_empty_object};

    let p = final(service).bus@.ring.last().p;
    assert(p.get("drop"@) is Some);
}

/// A fetch that is started runs as a task of its own, for that drop and that hash, and is announced
/// as running; the tasks that were there are not touched.
pub proof fn a_started_fetch_is_a_running_task(
    service: &mut Service,
    drop: &str,
    hash: &BlobHash,
    r: String,
    other: Seq<char>,
)
    requires
        call_ensures(Service::start_fetch, (service, drop, hash), r),
        r@ != other,
    ensures
        final(service).tasks@.contains_key(r@),
        final(service).tasks@[r@].kind@ == "fetch"@,
        final(service).tasks@[r@].drop@ == drop@,
        opt_text(final(service).tasks@[r@].hash) == Some(hash.hex@),
        final(service).tasks@[r@].state is Running,
        final(service).tasks@[r@].abortable,
        final(service).tasks@.contains_key(other) <==> old(service).tasks@.contains_key(other),
        old(service).tasks@.contains_key(other) ==> final(service).tasks@[other]
            == old(service).tasks@[other],
        final(service).bus@.ring.last().e == "task.state"@,
        final(service).bus@.ring.last().p.text_at("task"@) == Some(r@),
        final(service).bus@.ring.last().p.text_at("kind"@) == Some("fetch"@),
        final(service).bus@.ring.last().p.text_at("drop"@) == Some(drop@),
        final(service).bus@.ring.last().p.text_at("state"@) == Some("running"@),
        old(service).next_task < u64::MAX ==> final(service).next_task
            == old(service).next_task + 1,
        r@ == "t"@ + decimal(old(service).next_task as nat),
{
    broadcast use {added_value_is_found, nothing_is_in_an_empty_object};

    reveal_strlit("task");
    reveal_strlit("kind");
    reveal_strlit("drop");
    reveal_strlit("state");
    assert("task"@.len() == 4 && "kind"@.len() == 4 && "drop"@.len() == 4 && "state"@.len() == 5);
    assert("task"@[0] == 't' && "kind"@[0] == 'k' && "drop"@[0] == 'd');
    let p = final(service).bus@.ring.last().p;
    assert(final(service).tasks@[r@]@.state is Running);
    assert(p.get("task"@) is Some);
    assert(p.get("kind"@) is Some);
    assert(p.get("drop"@) is Some);
    assert(p.get("state"@) is Some);
}

/// A pick by its number fetches that line of the listing: the hash that is fetched is the one that
/// was offered there, and a task runs for it.
pub proof fn a_number_fetches_its_line(
    service: &mut Service,
    drop: &str,
    records: &Vec<OfferRecord>,
    pick: &str,
    resolved: Option<BlobHash>,
    r: Result<(String, BlobHash), ApiError>,
    n: nat,
)
    requires
        call_ensures(Service::fetch_picked, (service, drop, records, pick, resolved), r),
        1 <= n <= records@.len() <= usize::MAX,
        pick@ == decimal(n),
    ensures
        r is Ok,
        r->Ok_0.1.hex@ == records@[n - 1].blob_hash.hex@,
        final(service).tasks@.contains_key(r->Ok_0.0@),
        final(service).tasks@[r->Ok_0.0@].drop@ == drop@,
        opt_text(final(service).tasks@[r->Ok_0.0@].hash) == Some(records@[n - 1].blob_hash.hex@),
        final(service).tasks@[r->Ok_0.0@].state is Running,
{
    let items = choose|items: Seq<InventoryItem>| #[trigger]
        crate::inventory::listing_of(items, records@) && match crate::inventory::picked(
            items,
            pick@,
            crate::inventory::opt_hash(resolved),
        ) {
            Ok(found) => {
                &&& r matches Ok((task, hash))
                &&& hash@ == found
                &&& final(service).started(
                    *old(service),
                    task@,
                    "fetch"@,
                    drop@,
                    Some(hash.hex@),
                )
            },
            Err(e) => {
                &&& r is Err
                &&& r->Err_0@ == ApiErrorView::of("not_found"@, e.message())
                &&& *final(service) == *old(service)
            },
        };
    crate::inventory::a_number_picks_its_line(items, n, crate::inventory::opt_hash(resolved));
    assert(crate::inventory::lists(items[n - 1], records@[n - 1], n as int));
    assert(final(service).tasks@[r->Ok_0.0@]@.state is Running);
}

/// A task that was to publish ends as done with a report of what was published, or as failed with
/// the reason; both are announced last with the task and its state.
pub proof fn a_publish_ends_with_its_outcome(
    service: &mut Service,
    task: &str,
    outcome: Result<Published, String>,
)
    requires
        call_ensures(Service::publish_done, (service, task, outcome), ()),
    ensures
        ({
            let ring = final(service).bus@.ring;
            let told = ring.last().p;
            &&& ring.last().e == "task.state"@
            &&& told.text_at("task"@) == Some(task@)
            &&& told.text_at("state"@) == Some(
                if outcome is Ok {
                    "done"@
                } else {
                    "failed"@
                },
            )
            &&& told.text_at("error"@) == match outcome {
                Ok(_) => None,
                Err(why) => Some(why@),
            }
            &&& match outcome {
                Ok(published) => {
                    let report = ring[ring.len() - 2];
                    &&& ring.len() >= 2
                    &&& report.e == "publish.completed"@
                    &&& report.p.text_at("task"@) == Some(task@)
                    &&& report.p.text_at("hash"@) == Some(published.blob.hash.hex@)
                    &&& report.p.text_at("name"@) == Some(published.blob.name@)
                    &&& report.p.number_at("size"@) == Some(published.total_size)
                    &&& report.p.text_at("human_size"@) == Some(
                        human_size(published.total_size as nat),
                    )
                    &&& report.p.number_at("members"@) == Some(published.members as u64)
                    &&& report.p.flag_at("is_collection"@) == Some(published.is_collection)
                },
                Err(_) => true,
            }
        }),
        old(service).tasks@.contains_key(task@) ==> {
            let before = old(service).tasks@[task@];
            let after = final(service).tasks@[task@];
            &&& final(service).tasks@.contains_key(task@)
            &&& after.state is Done <==> outcome is Ok
            &&& after.state is Failed <==> outcome is Err
            &&& !after.abortable
            &&& after.kind@ == before.kind@
            &&& after.drop@ == before.drop@
        },
        final(service).drops == old(service).drops,
{
    broadcast use {added_value_is_found, nothing_is_in_an_empty_object};

    reveal_strlit("task");
    reveal_strlit("state");
    reveal_strlit("error");
    assert("task"@.len() == 4 && "state"@.len() == 5 && "error"@.len() == 5);
    assert("state"@[0] == 's' && "error"@[0] == 'e');
    reveal_strlit("task");
    reveal_strlit("hash");
    reveal_strlit("name");
    reveal_strlit("size");
    reveal_strlit("human_size");
    reveal_strlit("members");
    reveal_strlit("is_collection");
    assert("task"@.len() == 4 && "hash"@.len() == 4 && "name"@.len() == 4 && "size"@.len() == 4
        && "human_size"@.len() == 10 && "members"@.len() == 7 && "is_collection"@.len() == 13);
    assert("task"@[0] == 't' && "hash"@[0] == 'h' && "name"@[0] == 'n' && "size"@[0] == 's');
    let ring = final(service).bus@.ring;
    let told = ring.last().p;
    assert(told.get("task"@) is Some);
    assert(told.get("state"@) is Some);
    assert(told.get("error"@) is Some);
    match outcome {
        Ok(published) => {
            let p = Service::publish_report(task@, published);
            assert(p.get("task"@) is Some);
            assert(p.get("hash"@) is Some);
            assert(p.get("name"@) is Some);
            assert(p.get("size"@) is Some);
            assert(p.get("human_size"@) is Some);
            assert(p.get("members"@) is Some);
            assert(p.get("is_collection"@) is Some);
            assert(ring[ring.len() - 2].p == p);
        },
        Err(_) => {},
    }
    if old(service).tasks@.contains_key(task@) {
        assert(final(service).tasks@[task@]@.kind == old(service).tasks@[task@]@.kind);
    }
}

/// A fetch ends as done with a report of the paths that were written, in their order, or as failed
/// with the reason.
pub proof fn a_fetch_ends_with_its_outcome(
    service: &mut Service,
    task: &str,
    hash: &BlobHash,
    outcome: Result<Vec<String>, String>,
)
    requires
        call_ensures(Service::fetch_done, (service, task, hash, outcome), ()),
    ensures
        ({
            let ring = final(service).bus@.ring;
            let told = ring.last().p;
            &&& ring.last().e == "task.state"@
            &&& told.text_at("task"@) == Some(task@)
            &&& told.text_at("state"@) == Some(
                if outcome is Ok {
                    "done"@
                } else {
                    "failed"@
                },
            )
            &&& told.text_at("error"@) == match outcome {
                Ok(_) => None,
                Err(why) => Some(why@),
            }
            &&& match outcome {
                Ok(paths) => {
                    let report = ring[ring.len() - 2];
                    &&& ring.len() >= 2
                    &&& report.e == "fetch.materialized"@
                    &&& report.p.text_at("task"@) == Some(task@)
                    &&& report.p.text_at("hash"@) == Some(hash.hex@)
                    &&& report.p.list_at("paths"@) is Some
                    &&& report.p.list_at("paths"@)->0.len() == paths@.len()
                    &&& forall|i: int|
                        0 <= i < paths@.len() ==> #[trigger] report.p.list_at("paths"@)->0[i]
                            == JsonView::Text(paths@[i]@)
                },
                Err(_) => true,
            }
        }),
        old(service).tasks@.contains_key(task@) ==> {
            let after = final(service).tasks@[task@];
            &&& final(service).tasks@.contains_key(task@)
            &&& after.state is Done <==> outcome is Ok
            &&& after.state is Failed <==> outcome is Err
            &&& !after.abortable
        },
        final(service).drops == old(service).drops,
{
    broadcast use {added_value_is_found, nothing_is_in_an_empty_object};

    reveal_strlit("task");
    reveal_strlit("state");
    reveal_strlit("error");
    assert("task"@.len() == 4 && "state"@.len() == 5 && "error"@.len() == 5);
    assert("state"@[0] == 's' && "error"@[0] == 'e');
    reveal_strlit("task");
    reveal_strlit("hash");
    reveal_strlit("paths");
    assert("task"@.len() == 4 && "hash"@.len() == 4 && "paths"@.len() == 5);
    assert("task"@[0] == 't' && "hash"@[0] == 'h');
    let ring = final(service).bus@.ring;
    let told = ring.last().p;
    assert(told.get("task"@) is Some);
    assert(told.get("state"@) is Some);
    assert(told.get("error"@) is Some);
    match outcome {
        Ok(paths) => {
            let p = Service::fetch_report(task@, hash.hex@, texts(paths@));
            assert(p.get("task"@) is Some);
            assert(p.get("hash"@) is Some);
            assert(p.get("paths"@) is Some);
            assert(ring[ring.len() - 2].p == p);
        },
        Err(_) => {},
    }
    if old(service).tasks@.contains_key(task@) {
        assert(final(service).tasks@[task@]@.state is Done <==> outcome is Ok);
    }
}

/// An offer is put to somebody exactly when it comes from somebody else; either way it is announced
/// with the drop, its sender, its hash, its name and its size.
pub proof fn offers_of_others_are_taken_up(
    service: &mut Service,
    handle: &str,
    self_id: &PeerId,
    event: DropEvent,
    now: u64,
    r: Option<(PeerId, Offer)>,
)
    requires
        call_ensures(Service::on_session_event, (service, handle, self_id, event, now), r),
        event is OfferReceived,
    ensures
        r is Some <==> event->OfferReceived_from.id@ != self_id.id@,
        r is Some ==> (r->0).0 == event->OfferReceived_from && (r->0).1
            == event->OfferReceived_offer,
        ({
            let told = final(service).bus@.ring.last();
            let offer = event->OfferReceived_offer;
            &&& told.e == "offer.received"@
            &&& told.p.text_at("drop"@) == Some(handle@)
            &&& told.p.text_at("from"@) == Some(event->OfferReceived_from.id@)
            &&& told.p.text_at("hash"@) == Some(offer.blob_hash.hex@)
            &&& told.p.text_at("name"@) == Some(offer.name@)
            &&& told.p.number_at("size"@) == Some(offer.size)
            &&& told.p.text_at("human_size"@) == Some(human_size(offer.size as nat))
            &&& told.p.text_at("media_type"@) == opt_text(offer.media_type)
        }),
{
    broadcast use {added_value_is_found, nothing_is_in_an_empty_object};

    reveal_strlit("drop");
    reveal_strlit("from");
    reveal_strlit("hash");
    reveal_strlit("name");
    reveal_strlit("size");
    reveal_strlit("human_size");
    reveal_strlit("media_type");
    assert("drop"@.len() == 4 && "from"@.len() == 4 && "hash"@.len() == 4 && "name"@.len() == 4
        && "size"@.len() == 4 && "human_size"@.len() == 10 && "media_type"@.len() == 10);
    assert("drop"@[0] == 'd' && "from"@[0] == 'f' && "hash"@[0] == 'h' && "name"@[0] == 'n'
        && "size"@[0] == 's');
    assert("human_size"@[0] == 'h' && "media_type"@[0] == 'm');
    let p = final(service).bus@.ring.last().p;
    assert(p.get("drop"@) is Some);
    assert(p.get("from"@) is Some);
    assert(p.get("hash"@) is Some);
    assert(p.get("name"@) is Some);
    assert(p.get("size"@) is Some);
    assert(p.get("human_size"@) is Some);
    assert(p.get("media_type"@) is Some);
}

/// Peers that come and go are announced under different names, each with the drop and the peer.
pub proof fn peers_are_announced(
    service: &mut Service,
    handle: &str,
    self_id: &PeerId,
    event: DropEvent,
    now: u64,
    r: Option<(PeerId, Offer)>,
)
    requires
        call_ensures(Service::on_session_event, (service, handle, self_id, event, now), r),
        event is PeerJoined || event is PeerLeft,
    ensures
        r is None,
        ({
            let told = final(service).bus@.ring.last();
            &&& told.e == if event is PeerJoined {
                "peer.joined"@
            } else {
                "peer.left"@
            }
            &&& told.p.text_at("drop"@) == Some(handle@)
            &&& told.p.text_at("peer"@) == Some(
                if event is PeerJoined {
                    event->PeerJoined_peer.id@
                } else {
                    event->PeerLeft_peer.id@
                },
            )
        }),
{
    broadcast use {added_value_is_found, nothing_is_in_an_empty_object};

    reveal_strlit("drop");
    reveal_strlit("peer");
    assert("drop"@[0] == 'd' && "peer"@[0] == 'p');
    let p = final(service).bus@.ring.last().p;
    assert(p.get("drop"@) is Some);
    assert(p.get("peer"@) is Some);
}

/// How a fetch goes is announced with the drop and the hash: who serves it when it starts and when
/// it is complete, and why when it fails.
pub proof fn fetches_are_announced(
    service: &mut Service,
    handle: &str,
    self_id: &PeerId,
    event: DropEvent,
    now: u64,
    r: Option<(PeerId, Offer)>,
)
    requires
        call_ensures(Service::on_session_event, (service, handle, self_id, event, now), r),
        event is FetchStarted || event is FetchCompleted || event is FetchFailed,
    ensures
        r is None,
        ({
            let told = final(service).bus@.ring.last();
            &&& told.p.text_at("drop"@) == Some(handle@)
            &&& match event {
                DropEvent::FetchStarted { hash, provider } => {
                    &&& told.e == "fetch.started"@
                    &&& told.p.text_at("hash"@) == Some(hash.hex@)
                    &&& told.p.text_at("provider"@) == Some(provider.id@)
                },
                DropEvent::FetchCompleted { hash, provider } => {
                    &&& told.e == "fetch.completed"@
                    &&& told.p.text_at("hash"@) == Some(hash.hex@)
                    &&& told.p.text_at("provider"@) == Some(provider.id@)
                },
                DropEvent::FetchFailed { hash, error } => {
                    &&& told.e == "fetch.failed"@
                    &&& told.p.text_at("hash"@) == Some(hash.hex@)
                    &&& told.p.text_at("error"@) == Some(error@)
                },
                _ => true,
            }
        }),
{
    broadcast use {added_value_is_found, nothing_is_in_an_empty_object};

    reveal_strlit("drop");
    reveal_strlit("hash");
    reveal_strlit("provider");
    reveal_strlit("error");
    assert("drop"@.len() == 4 && "hash"@.len() == 4 && "provider"@.len() == 8
        && "error"@.len() == 5);
    assert("drop"@[0] == 'd' && "hash"@[0] == 'h');
    let p = final(service).bus@.ring.last().p;
    assert(p.get("drop"@) is Some);
    assert(p.get("hash"@) is Some);
    assert(p.get("provider"@) is Some <==> !(event is FetchFailed));
    assert(p.get("error"@) is Some <==> event is FetchFailed);
}

/// Progress is announced when the last byte is there, when nothing was announced for the blob so
/// far, and otherwise when a tenth of a second has gone by since; what is announced is how much has
/// arrived, and of how much.
pub proof fn progress_is_announced_now_and_again(
    service: &mut Service,
    handle: &str,
    self_id: &PeerId,
    event: DropEvent,
    now: u64,
    r: Option<(PeerId, Offer)>,
)
    requires
        call_ensures(Service::on_session_event, (service, handle, self_id, event, now), r),
        event is FetchProgress,
    ensures
        r is None,
        ({
            let hex = event->FetchProgress_hash.hex@;
            let seen = old(service).progress_seen@;
            let due = {
                ||| event->total is Some && event->downloaded >= event->total->0
                ||| !seen.contains_key(hex)
                ||| now >= seen[hex] + 100_000_000
            };
            let told = final(service).bus@.ring.last();
            &&& !due ==> final(service).bus == old(service).bus || final(service).bus@
                == old(service).bus@
            &&& due && !(event->total is Some && event->downloaded >= event->total->0) ==> {
                &&& final(service).progress_seen@.contains_key(hex)
                &&& final(service).progress_seen@[hex] == now
            }
            &&& !due ==> final(service).progress_seen@ == seen
            &&& due ==> {
                &&& told.e == "fetch.progress"@
                &&& told.seq == old(service).bus@.seq
                &&& told.p.text_at("drop"@) == Some(handle@)
                &&& told.p.text_at("hash"@) == Some(hex)
                &&& told.p.number_at("downloaded"@) == Some(event->downloaded)
                &&& told.p.number_at("total"@) == event->total
            }
        }),
{
    broadcast use {added_value_is_found, nothing_is_in_an_empty_object};

    reveal_strlit("drop");
    reveal_strlit("hash");
    reveal_strlit("downloaded");
    reveal_strlit("total");
    assert("drop"@.len() == 4 && "hash"@.len() == 4 && "downloaded"@.len() == 10
        && "total"@.len() == 5);
    assert("drop"@[0] == 'd' && "hash"@[0] == 'h');
    let p = object().with("drop"@, JsonView::Text(handle@)).with(
        "hash"@,
        JsonView::Text(event->FetchProgress_hash.hex@),
    ).with("downloaded"@, JsonView::Unsigned(event->downloaded)).with(
        "total"@,
        crate::json::number_or_null(event->total),
    );
    assert(p.get("drop"@) is Some);
    assert(p.get("hash"@) is Some);
    assert(p.get("downloaded"@) is Some);
    assert(p.get("total"@) is Some);
}

/// Who serves a blob, and who does so no more, is announced with the drop, the hash and the peer; a
/// warning and a rejected offer are announced with whose doing it is and what it is about.
pub proof fn providers_and_warnings_are_announced(
    service: &mut Service,
    handle: &str,
    self_id: &PeerId,
    event: DropEvent,
    now: u64,
    r: Option<(PeerId, Offer)>,
)
    requires
        call_ensures(Service::on_session_event, (service, handle, self_id, event, now), r),
        event is ProviderAvailable || event is ProviderUnavailable || event is ProtocolWarning
            || event is OfferRejected,
    ensures
        r is None,
        ({
            let told = final(service).bus@.ring.last();
            &&& told.p.text_at("drop"@) == Some(handle@)
            &&& match event {
                DropEvent::ProviderAvailable { hash, peer } => {
                    &&& told.e == "provider.available"@
                    &&& told.p.text_at("hash"@) == Some(hash.hex@)
                    &&& told.p.text_at("peer"@) == Some(peer.id@)
                },
                DropEvent::ProviderUnavailable { hash, peer } => {
                    &&& told.e == "provider.unavailable"@
                    &&& told.p.text_at("hash"@) == Some(hash.hex@)
                    &&& told.p.text_at("peer"@) == Some(peer.id@)
                },
                DropEvent::ProtocolWarning { source, warning, kind } => {
                    &&& told.e == "protocol.warning"@
                    &&& told.p.text_at("from"@) == match source {
                        Some(peer) => Some(peer.id@),
                        None => None,
                    }
                    &&& told.p.text_at("warning"@) == Some(warning@)
                },
                DropEvent::OfferRejected { from, reason } => {
                    &&& told.e == "offer.rejected"@
                    &&& told.p.text_at("from"@) == Some(from.id@)
                    &&& told.p.text_at("reason"@) == Some(reason@)
                },
                _ => true,
            }
        }),
{
    broadcast use {added_value_is_found, nothing_is_in_an_empty_object};

    reveal_strlit("drop");
    reveal_strlit("hash");
    reveal_strlit("peer");
    reveal_strlit("from");
    reveal_strlit("warning");
    reveal_strlit("reason");
    assert("drop"@.len() == 4 && "hash"@.len() == 4 && "peer"@.len() == 4 && "from"@.len() == 4
        && "warning"@.len() == 7 && "reason"@.len() == 6);
    assert("drop"@[0] == 'd' && "hash"@[0] == 'h' && "peer"@[0] == 'p' && "from"@[0] == 'f');
    let p = final(service).bus@.ring.last().p;
    assert(p.get("drop"@) is Some);
    assert(p.get("hash"@) is Some <==> event is ProviderAvailable || event is ProviderUnavailable);
    assert(p.get("peer"@) is Some <==> event is ProviderAvailable || event is ProviderUnavailable);
    assert(p.get("from"@) is Some <==> event is ProtocolWarning || event is OfferRejected);
    assert(p.get("warning"@) is Some <==> event is ProtocolWarning);
    assert(p.get("reason"@) is Some <==> event is OfferRejected);
}

/// Where somebody can be asked, they are asked, whatever the daemon is set to; where nobody can be,
/// the answer is yes exactly when it is set to accept. The question that is sent tells the offer.
pub proof fn consent_is_sought_from_people_first(
    service: &mut Service,
    handle: &str,
    from: &PeerId,
    offer: &Offer,
    closed: &HashSet<u64>,
    r: ConsentStep,
)
    requires
        call_ensures(Service::seek_consent, (service, handle, from, offer, closed), r),
    ensures
        r is Ask <==> exists|i: int|
            0 <= i < old(service).asks@.uis.len() && !closed@.contains(
                #[trigger] old(service).asks@.uis[i],
            ),
        match r {
            ConsentStep::Ask { token, frame } => {
                &&& old(service).asks@.uis.contains(token)
                &&& !closed@.contains(token)
                &&& frame@ is Ask
                &&& frame@->q == "offer.accept"@
                &&& final(service).asks@.pending.contains(frame@->Ask_id)
                &&& frame@->Ask_p.text_at("drop"@) == Some(handle@)
                &&& frame@->Ask_p.text_at("from"@) == Some(from.id@)
                &&& frame@->Ask_p.text_at("name"@) == Some(offer.name@)
                &&& frame@->Ask_p.text_at("hash"@) == Some(offer.blob_hash.hex@)
                &&& frame@->Ask_p.number_at("size"@) == Some(offer.size)
                &&& frame@->Ask_p.text_at("human_size"@) == Some(human_size(offer.size as nat))
                &&& frame@->Ask_p.number_at("expires_in_ms"@) == Some(300_000u64)
            },
            ConsentStep::Settled(answer) => {
                &&& answer is Some <==> old(service).options.auto_accept
                &&& answer is Some ==> answer->0@.flag_at("accept"@) == Some(true)
            },
        },
        final(service).drops == old(service).drops,
        final(service).tasks == old(service).tasks,
        final(service).bus == old(service).bus,
{
    broadcast use {added_value_is_found, nothing_is_in_an_empty_object};

    the_question_tells_the_offer(handle@, from.id@, *offer);
    lemma_staying(old(service).asks@.uis, closed@);
    let open = crate::asks::staying(old(service).asks@.uis, closed@);
    if open.len() > 0 {
        assert(open.contains(open.last()));
        let uis = old(service).asks@.uis;
        let i = choose|i: int| 0 <= i < uis.len() && uis[i] == open.last();
        assert(!closed@.contains(uis[i]));
    } else if exists|i: int|
        0 <= i < old(service).asks@.uis.len() && !closed@.contains(
            #[trigger] old(service).asks@.uis[i],
        ) {
        let i = choose|i: int|
            0 <= i < old(service).asks@.uis.len() && !closed@.contains(
                #[trigger] old(service).asks@.uis[i],
            );
        assert(open.contains(old(service).asks@.uis[i]));
    }
    if r is Settled && r->Settled_0 is Some {
        assert(r->Settled_0->0@.get("accept"@) is Some);
    }
}

/// The windows that stay are those that have not gone.
pub proof fn lemma_staying(uis: Seq<u64>, gone: Set<u64>)
    ensures
        forall|t: u64| #[trigger]
            crate::asks::staying(uis, gone).contains(t) <==> uis.contains(t) && !gone.contains(t),
    decreases uis.len(),
{
    if uis.len() > 0 {
        let front = uis.drop_last();
        lemma_staying(front, gone);
        let a = crate::asks::staying(front, gone);
        let b = crate::asks::staying(uis, gone);
        assert forall|t: u64| #[trigger]
            b.contains(t) <==> uis.contains(t) && !gone.contains(t) by {
            if b.contains(t) {
                let i = choose|i: int| 0 <= i < b.len() && b[i] == t;
                if i < a.len() {
                    assert(a[i] == t);
                    assert(a.contains(t));
                    let k = choose|k: int| 0 <= k < front.len() && front[k] == t;
                    assert(uis[k] == t);
                } else {
                    assert(uis[uis.len() - 1] == t);
                }
            }
            if uis.contains(t) && !gone.contains(t) {
                let k = choose|k: int| 0 <= k < uis.len() && uis[k] == t;
                if k < front.len() {
                    assert(front[k] == t);
                    assert(a.contains(t));
                    let i = choose|i: int| 0 <= i < a.len() && a[i] == t;
                    assert(b[i] == t);
                } else {
                    assert(b[b.len() - 1] == t);
                }
            }
        }
    }
}

/// Only an explicit yes starts a fetch: of that hash, for that drop, into the directory that the
/// answer names, or the usual one. Anything else declines, with `no consent` where nobody answered.
pub proof fn only_a_yes_starts_a_fetch(
    service: &mut Service,
    handle: &str,
    hash: &BlobHash,
    answer: Option<Json>,
    r: Option<FetchOrder>,
)
    requires
        call_ensures(Service::conclude_consent, (service, handle, hash, answer), r),
    ensures
        r is Some <==> answer is Some && answer->0@.flag_at("accept"@) == Some(true),
        match r {
            Some(order) => {
                &&& order.out@ == match answer->0@.text_at("out"@) {
                    Some(out) => out,
                    None => old(service).options.download_dir@,
                }
                &&& final(service).tasks@.contains_key(order.task@)
                &&& final(service).tasks@[order.task@].kind@ == "fetch"@
                &&& final(service).tasks@[order.task@].drop@ == handle@
                &&& opt_text(final(service).tasks@[order.task@].hash) == Some(hash.hex@)
                &&& final(service).tasks@[order.task@].state is Running
            },
            None => {
                let told = final(service).bus@.ring.last();
                &&& final(service).tasks == old(service).tasks
                &&& told.e == "offer.declined"@
                &&& told.p.text_at("drop"@) == Some(handle@)
                &&& told.p.text_at("hash"@) == Some(hash.hex@)
                &&& told.p.text_at("reason"@) == Some(
                    if answer is None {
                        "no consent"@
                    } else {
                        "declined"@
                    },
                )
            },
        },
        final(service).drops == old(service).drops,
{
    broadcast use {added_value_is_found, nothing_is_in_an_empty_object};

    reveal_strlit("drop");
    reveal_strlit("hash");
    reveal_strlit("reason");
    assert("drop"@.len() == 4 && "hash"@.len() == 4 && "reason"@.len() == 6);
    assert("drop"@[0] == 'd' && "hash"@[0] == 'h');
    match r {
        Some(order) => {
            assert(final(service).tasks@[order.task@]@.state is Running);
        },
        None => {
            let p = final(service).bus@.ring.last().p;
            assert(p.get("drop"@) is Some);
            assert(p.get("hash"@) is Some);
            assert(p.get("reason"@) is Some);
        },
    }
}

/// The reply that names a task names that task.
pub proof fn task_replies_name_the_task(task: &str, r: Json)
    requires
        call_ensures(task_reply, (task,), r),
    ensures
        r@.text_at("task"@) == Some(task@),
{
    broadcast use {added_value_is_found, nothing_is_in_an_empty_object};

    assert(r@.get("task"@) is Some);
}

/// How much of a blob is here is spelled in four words, one for each.
pub proof fn each_status_has_its_word(status: &LocalBlobStatus, r: &'static str)
    requires
        call_ensures(status_str, (status,), r),
    ensures
        r@ == "missing"@ <==> status is Missing,
        r@ == "fetching"@ <==> status is Fetching,
        r@ == "available"@ <==> status is Complete,
        r@ == "failed"@ <==> status is Other,
{
    reveal_strlit("missing");
    reveal_strlit("fetching");
    reveal_strlit("available");
    reveal_strlit("failed");
    assert("missing"@.len() == 7 && "fetching"@.len() == 8 && "available"@.len() == 9
        && "failed"@.len() == 6);
}

/// When a blob is complete, its progress is forgotten, and that of no other.
pub proof fn complete_blobs_have_no_progress(
    service: &mut Service,
    handle: &str,
    self_id: &PeerId,
    event: DropEvent,
    now: u64,
    r: Option<(PeerId, Offer)>,
    other: Seq<char>,
)
    requires
        call_ensures(Service::on_session_event, (service, handle, self_id, event, now), r),
        event is FetchCompleted,
        event->FetchCompleted_hash.hex@ != other,
    ensures
        !final(service).progress_seen@.contains_key(event->FetchCompleted_hash.hex@),
        final(service).progress_seen@.contains_key(other)
            <==> old(service).progress_seen@.contains_key(other),
{
}

/// A drop that is brought back is announced with its handle and its topic, and no other is touched.
pub proof fn restored_drops_are_announced(
    service: &mut Service,
    row: PersistedDrop,
    topic: &str,
    other: Seq<char>,
)
    requires
        call_ensures(Service::restore, (service, row, topic), ()),
        row.handle@ != other,
    ensures
        final(service).bus@.ring.last().e == "drop.joined"@,
        final(service).bus@.ring.last().p.text_at("drop"@) == Some(row.handle@),
        final(service).bus@.ring.last().p.text_at("topic"@) == Some(topic@),
        final(service).drops@.contains_key(other) <==> old(service).drops@.contains_key(other),
        old(service).drops@.contains_key(other) ==> final(service).drops@[other]
            == old(service).drops@[other],
        final(service).tasks == old(service).tasks,
{
    broadcast use {added_value_is_found, nothing_is_in_an_empty_object};

    reveal_strlit("drop");
    reveal_strlit("topic");
    assert("drop"@.len() == 4 && "topic"@.len() == 5);
    let p = final(service).bus@.ring.last().p;
    assert(p.get("drop"@) is Some && p.get("topic"@) is Some);
}

/// Where a task stands is spelled in four words, one for each.
pub proof fn each_task_state_has_its_word(state: &TaskState, r: &'static str)
    requires
        call_ensures(TaskState::text, (state,), r),
    ensures
        r@ == "running"@ <==> state is Running,
        r@ == "done"@ <==> state is Done,
        r@ == "failed"@ <==> state is Failed,
        r@ == "cancelled"@ <==> state is Cancelled,
{
    reveal_strlit("running");
    reveal_strlit("done");
    reveal_strlit("failed");
    reveal_strlit("cancelled");
    assert("running"@.len() == 7 && "done"@.len() == 4 && "failed"@.len() == 6
        && "cancelled"@.len() == 9);
}

/// What was missing is said: no drop of that handle, under the code for what is not found.
pub proof fn missing_drops_are_not_found(handle: &str, r: ApiError)
    requires
        call_ensures(crate::service::drop_not_found, (handle,), r),
    ensures
        r.code@ == "not_found"@,
        handle@.is_suffix_of(r.msg@),
{
    let line = "no drop "@ + handle@;
    assert(line.subrange(line.len() - handle@.len(), line.len() as int) =~= handle@);
}

} // verus!

//! What holds of the lines that are printed, the labels that are shown and the places that are
//! used where none is given.

use crate::bridge::{
    dirs_download, send_label, tier_failure, AvailableRow, Cmd, DropRow, Incoming, SendPath,
    TierStep, UiStep, Worker,
};
use crate::cli::{
    config_lines, describe_published, forget_room, found_line, nearby_lines, report_member,
    room_line, rooms_lines, still_serving, ticket_kept, ticket_written, who, Remembered,
};
use crate::client::{hello_frame, Client};
use crate::collections::{MemberProgress, Published};
use crate::commands::{attach_failed, drops_listed, prompt, socket_arg, watch_begins, Sending, Step};
use crate::config::{Config, DropPolicy, Environment, FileRead, StackOptions};
use crate::dropd::{default_data_dir, default_download_dir};
use crate::error::SdkError;
use crate::frame::{reply, ApiError, Frame, Hello};
use crate::ids::PeerId;
use crate::json::{
    added_value_is_found, nothing_is_in_an_empty_object, shown_fields, Json, JsonView,
};
use crate::laws::service::lemma_staying;
use crate::nearby::NearbyDrop;
use crate::path::{a_name_below_adds_a_part, below, parts, plain_name, PartView};
use crate::persist::DropStore;
use crate::rooms::{ListedRoom, Rooms};
use crate::service::{Greeting, Service, ServiceOptions};
use crate::size::{human_bytes, human_parts, human_size};
use crate::terminal::banner;
use crate::text::{decimal, joined, opt_text, quoted, texts};
use crate::transport::default_socket_path;
use crate::window::{available_line, card_title, group_line, key_of, share_heading};
use std::collections::HashSet;
use vstd::prelude::*;

verus! {

proof fn lemma_ends(front: Seq<char>, back: Seq<char>)
    ensures
        front.is_prefix_of(front + back),
        back.is_suffix_of(front + back),
{
    let all = front + back;
    assert(all.subrange(0, front.len() as int) =~= front);
    assert(all.subrange(all.len() - back.len(), all.len() as int) =~= back);
}

/// Each room has its line, which begins with its name and ends with its note.
pub proof fn each_room_has_its_line(rows: &Vec<ListedRoom<'_>>, r: Vec<String>, i: int)
    requires
        call_ensures(rooms_lines, (rows,), r),
        0 <= i < rows@.len(),
    ensures
        r@.len() == rows@.len() + 3,
        rows@[i].name@.is_prefix_of(r@[i + 1]@),
        match rows@[i].room.note {
            Some(note) => (" "@ + note@).is_suffix_of(r@[i + 1]@),
            None => " -"@.is_suffix_of(r@[i + 1]@),
        },
{
    let told = texts(r@);
    assert(told.len() == r@.len());
    assert(told[i + 1] == r@[i + 1]@);
    reveal_strlit(" -");
    reveal_strlit(" ");
    reveal_strlit("-");
    let row = rows@[i];
    let note = match row.room.note {
        Some(note) => note@,
        None => "-"@,
    };
    let name = crate::text::left_aligned(row.name@, 20);
    let line = crate::cli::room_row(row);
    assert(line =~= name + (" "@ + note));
    assert(line =~= row.name@ + (crate::text::fill(row.name@.len(), 20) + " "@ + note));
    lemma_ends(name, " "@ + note);
    lemma_ends(row.name@, crate::text::fill(row.name@.len(), 20) + " "@ + note);
    assert(" "@ + "-"@ =~= " -"@);
}

/// Each drop that is found nearby has its line: its number at the right of three columns, what it
/// is called, and who shares it.
pub proof fn each_nearby_drop_has_its_line(drops: &Vec<NearbyDrop>, r: Vec<String>, i: int)
    requires
        call_ensures(nearby_lines, (drops,), r),
        0 <= i < drops@.len(),
        decimal(drops@[i].index as nat).len() <= 3,
    ensures
        r@.len() == drops@.len() + 3,
        ({
            let line = r@[i + 1]@;
            let number = decimal(drops@[i].index as nat);
            let label = match drops@[i].label {
                Some(label) => label@,
                None => "drop from "@ + drops@[i].peer.short@,
            };
            &&& line.subrange(3 - number.len(), 3) == number
            &&& line.subrange(5, 5 + label.len() as int) == label
            &&& (" "@ + drops@[i].peer.short@).is_suffix_of(line)
        }),
{
    let told = texts(r@);
    assert(told.len() == r@.len());
    assert(told[i + 1] == r@[i + 1]@);
    let line = r@[i + 1]@;
    assert(line == crate::cli::nearby_line(drops@[i]));
    let number = decimal(drops@[i].index as nat);
    let label = match drops@[i].label {
        Some(label) => label@,
        None => "drop from "@ + drops@[i].peer.short@,
    };
    reveal_strlit("  ");
    reveal_strlit(" ");
    assert(line.subrange(3 - number.len(), 3) =~= number);
    assert(line.subrange(5, 5 + label.len() as int) =~= label);
    let front = crate::text::right_aligned(number, 3) + "  "@ + crate::text::left_aligned(
        label,
        28,
    );
    assert(line =~= front + (" "@ + drops@[i].peer.short@));
    lemma_ends(front, " "@ + drops@[i].peer.short@);
}

/// The settings are shown line by line: the identity, the store, the place for downloads, whether
/// anything is fetched unasked, and the two limits.
pub proof fn settings_are_shown(config: &Config, env: &Environment, r: Vec<String>)
    requires
        call_ensures(config_lines, (config, env), r),
    ensures
        r@.len() == 6,
        config.identity_path@.is_suffix_of(r@[1]@),
        config.store_path@.is_suffix_of(r@[2]@),
        config.download_dir@.is_suffix_of(r@[3]@),
        config.auto_fetch ==> "true"@.is_suffix_of(r@[4]@),
        !config.auto_fetch ==> "false"@.is_suffix_of(r@[4]@),
        r@[5]@ == "auto limits   "@ + human_size(config.max_auto_blob_size as nat)
            + " per file, "@ + human_size(config.max_auto_total_bytes as nat) + " per session"@,
{
    let told = texts(r@);
    assert(told.len() == r@.len());
    assert(told[1] == r@[1]@ && told[2] == r@[2]@ && told[3] == r@[3]@);
    assert(told[4] == r@[4]@ && told[5] == r@[5]@);
    lemma_ends("identity      "@, config.identity_path@);
    lemma_ends("blob store    "@, config.store_path@);
    lemma_ends("downloads     "@, config.download_dir@);
    lemma_ends("auto fetch    "@, "true"@);
    lemma_ends("auto fetch    "@, "false"@);
}

/// Everybody who is connected is named, one line each.
pub proof fn everybody_is_named(peers: &Vec<PeerId>, r: Vec<String>, i: int)
    requires
        call_ensures(who, (peers,), r),
        0 <= i < peers@.len(),
    ensures
        r@.len() == peers@.len(),
        r@[i]@ == peers@[i].short@,
{
    let told = texts(r@);
    assert(told.len() == r@.len());
    assert(told[i] == r@[i]@);
}

/// The banner says who we are, how we are connected, where things are kept and saved, and gives the
/// ticket on a line of its own.
pub proof fn the_banner_gives_the_ticket(
    self_id: &PeerId,
    ticket: &str,
    mode: &str,
    store: &Option<String>,
    out: &str,
    r: Vec<String>,
)
    requires
        call_ensures(banner, (self_id, ticket, mode, store, out), r),
    ensures
        r@.len() > 9,
        self_id.short@.is_suffix_of(r@[1]@),
        mode@.is_suffix_of(r@[2]@),
        store is Some ==> store->0@.is_suffix_of(r@[3]@),
        out@.is_suffix_of(r@[4]@),
        r@[9]@ == "    "@ + ticket@,
{
    let told = texts(r@);
    assert(told.len() == r@.len());
    assert(told[1] == r@[1]@ && told[2] == r@[2]@ && told[3] == r@[3]@ && told[4] == r@[4]@);
    assert(told[9] == r@[9]@);
    lemma_ends("  you      "@, self_id.short@);
    lemma_ends("  network  "@, mode@);
    lemma_ends("  saving   "@, out@);
    if store is Some {
        lemma_ends("  keeping  "@, store->0@);
    }
}

/// What was published is described by its name and its size, and a folder by how many files it has.
pub proof fn published_things_are_described(published: &Published, r: String)
    requires
        call_ensures(describe_published, (published,), r),
    ensures
        ("\""@ + published.blob.name@ + "\" ("@).is_prefix_of(r@),
        (human_size(published.total_size as nat) + ")"@).is_suffix_of(r@),
        published.is_collection ==> ("\""@ + published.blob.name@ + "\" ("@ + decimal(
            published.members as nat,
        ) + " file"@).is_prefix_of(r@),
{
    let name = "\""@ + published.blob.name@ + "\" ("@;
    let size = human_size(published.total_size as nat) + ")"@;
    if published.is_collection {
        let count = decimal(published.members as nat);
        let many = name + count + " file"@;
        let ending = crate::cli::ending(published.members as nat);
        let front = many + ending + ", "@;
        lemma_grouped(front, human_size(published.total_size as nat), ")"@);
        lemma_ends(front, size);
        lemma_grouped(many, ending, ", "@);
        lemma_grouped(many, ending + ", "@, size);
        lemma_ends(many, ending + ", "@ + size);
        lemma_grouped(name, count, " file"@);
        lemma_grouped(name, count + " file"@, ending + ", "@ + size);
        lemma_ends(name, count + " file"@ + (ending + ", "@ + size));
    } else {
        lemma_grouped(name, human_size(published.total_size as nat), ")"@);
        lemma_ends(name, size);
    }
}

proof fn lemma_grouped(a: Seq<char>, b: Seq<char>, c: Seq<char>)
    ensures
        a + b + c == a + (b + c),
{
    assert(a + b + c =~= a + (b + c));
}

/// A member that arrived is told with which one of how many it is, and its path.
pub proof fn members_are_told_as_they_arrive(progress: &MemberProgress, r: String)
    requires
        call_ensures(report_member, (progress,), r),
    ensures
        r@ == "\u{2193} "@ + progress.collection@ + " "@ + decimal(progress.index as nat) + "/"@
            + decimal(progress.total as nat) + "  "@ + progress.path@,
        progress.path@.is_suffix_of(r@),
{
    let front = "\u{2193} "@ + progress.collection@ + " "@ + decimal(progress.index as nat)
        + "/"@ + decimal(progress.total as nat) + "  "@;
    lemma_ends(front, progress.path@);
}

/// A card is headed by the name and the size of what is offered, an item that can be got by its
/// name, its size and its group, and a group by its name, its files and who is connected.
pub proof fn rows_are_headed_by_their_names(
    incoming: &Incoming,
    title: String,
    row: &AvailableRow,
    line: String,
    drop: &DropRow,
    group: String,
)
    requires
        call_ensures(card_title, (incoming,), title),
        call_ensures(available_line, (row,), line),
        call_ensures(group_line, (drop,), group),
    ensures
        quoted(incoming.name@).is_prefix_of(title@),
        incoming.size@.is_suffix_of(title@),
        quoted(row.name@).is_prefix_of(line@),
        (row.size@ + " in "@ + row.group@).is_suffix_of(line@),
        drop.name@.is_prefix_of(group@),
        (drop.name@ + "  \u{2014} "@ + decimal(drop.files as nat) + " file(s), "@).is_prefix_of(
            group@,
        ),
        drop.peers == 0 ==> "waiting"@.is_suffix_of(group@),
        drop.peers > 0 ==> (decimal(drop.peers as nat) + " connected"@).is_suffix_of(group@),
{
    assert(title@ =~= quoted(incoming.name@) + ("   "@ + incoming.size@));
    lemma_ends(quoted(incoming.name@), "   "@ + incoming.size@);
    lemma_ends(quoted(incoming.name@) + "   "@, incoming.size@);
    let tail = row.size@ + " in "@ + row.group@;
    assert(line@ =~= quoted(row.name@) + ("  \u{2014} "@ + tail));
    assert(line@ =~= quoted(row.name@) + "  \u{2014} "@ + tail);
    lemma_ends(quoted(row.name@), "  \u{2014} "@ + tail);
    lemma_ends(quoted(row.name@) + "  \u{2014} "@, tail);
    let files = "  \u{2014} "@ + decimal(drop.files as nat) + " file(s), "@;
    let peers = if drop.peers == 0 {
        "waiting"@
    } else {
        decimal(drop.peers as nat) + " connected"@
    };
    let front = drop.name@ + "  \u{2014} "@ + decimal(drop.files as nat) + " file(s), "@;
    assert(group@ =~= drop.name@ + (files + peers));
    assert(group@ =~= front + peers);
    lemma_ends(drop.name@, files + peers);
    lemma_ends(front, peers);
}

/// What is sent is called by the name of its first file, and by how many more there are.
pub proof fn sent_files_are_called_by_the_first(
    paths: &Vec<SendPath>,
    r: String,
    dir: Seq<char>,
    own: Seq<char>,
)
    requires
        call_ensures(send_label, (paths,), r),
        paths@.len() > 0,
        paths@[0].shown@ == below(dir, own),
        own.len() > 0,
        !own.contains('/'),
        own != "."@,
        own != ".."@,
    ensures
        paths@.len() == 1 ==> r@ == own,
        paths@.len() > 1 ==> r@ == own + " +"@ + decimal((paths@.len() - 1) as nat),
{
    a_name_below_adds_a_part(dir, own);
    assert(parts(below(dir, own)).last() == PartView::Name(own));
}

/// Sending creates a drop that is called by what is sent, keeps the paths for it, and takes away
/// the link and the error of what was before.
pub proof fn sending_from_the_window_creates_a_drop(
    worker: &mut Worker,
    cmd: Cmd,
    r: UiStep,
    label: String,
)
    requires
        call_ensures(Worker::begin, (worker, cmd), r),
        cmd is Send,
        call_ensures(send_label, (&cmd->Send_0,), label),
    ensures
        r is Call,
        r->method@ == "drop.create"@,
        r->params@.text_at("name"@) == Some(label@),
        r->Call_run is SendCreate,
        r->Call_run->SendCreate_paths == cmd->Send_0,
        final(worker).state@.share_link is None,
        final(worker).state@.error is None,
        final(worker).state@.busy is Some,
        final(worker).state@.incoming == old(worker).state@.incoming,
{
    broadcast use {added_value_is_found, nothing_is_in_an_empty_object};

    assert(r->params@.get("name"@) is Some);
}

proof fn lemma_place(dir: Seq<char>, name: Seq<char>)
    requires
        name.len() > 2,
        forall|i: int| 0 <= i < name.len() ==> name[i] != '/',
    ensures
        parts(below(dir, name)) == parts(dir).push(PartView::Name(name)),
{
    reveal_strlit(".");
    reveal_strlit("..");
    assert("."@.len() == 1 && ".."@.len() == 2);
    a_name_below_adds_a_part(dir, name);
}

/// The socket stands below the runtime directory, else below `.local/share` in the home directory.
pub proof fn the_socket_has_its_place(env: &Environment, r: String)
    requires
        call_ensures(default_socket_path, (env,), r),
    ensures
        env.runtime_dir is Some ==> parts(r@) == parts(env.runtime_dir->0@).push(
            PartView::Name("iroh-drop"@),
        ).push(PartView::Name("control.sock"@)),
        env.runtime_dir is None && env.home is Some ==> parts(r@) == parts(env.home->0@).push(
            PartView::Name(".local"@),
        ).push(PartView::Name("share"@)).push(PartView::Name("iroh-drop"@)).push(
            PartView::Name("control.sock"@),
        ),
{
    reveal_strlit("iroh-drop");
    reveal_strlit("control.sock");
    reveal_strlit(".local");
    reveal_strlit("share");
    if env.runtime_dir is Some {
        let dir = env.runtime_dir->0@;
        lemma_place(dir, "iroh-drop"@);
        lemma_place(below(dir, "iroh-drop"@), "control.sock"@);
    } else if env.home is Some {
        let home = env.home->0@;
        let local = below(home, ".local"@);
        let share = below(local, "share"@);
        lemma_place(home, ".local"@);
        lemma_place(local, "share"@);
        lemma_place(share, "iroh-drop"@);
        lemma_place(below(share, "iroh-drop"@), "control.sock"@);
    }
}

/// Where a daemon keeps its data and puts what it downloads: below the data directory of the
/// environment, and in a directory of its own where downloads go.
pub proof fn the_daemon_has_its_places(
    env: &Environment,
    data: String,
    has_downloads: bool,
    downloads: String,
    shown: String,
)
    requires
        call_ensures(default_data_dir, (env,), data),
        call_ensures(default_download_dir, (&env.home, has_downloads), downloads),
        call_ensures(dirs_download, (&env.home, has_downloads), shown),
    ensures
        env.data_home is Some ==> parts(data@) == parts(env.data_home->0@).push(
            PartView::Name("iroh-drop"@),
        ),
        env.data_home is None && env.home is Some ==> parts(data@) == parts(env.home->0@).push(
            PartView::Name(".local"@),
        ).push(PartView::Name("share"@)).push(PartView::Name("iroh-drop"@)),
        env.home is Some && has_downloads ==> {
            &&& parts(downloads@) == parts(env.home->0@).push(PartView::Name("Downloads"@)).push(
                PartView::Name("iroh-drop"@),
            )
            &&& shown@ == downloads@
        },
        env.home is Some && !has_downloads ==> parts(downloads@) == parts(env.home->0@).push(
            PartView::Name("iroh-drop"@),
        ),
{
    reveal_strlit("iroh-drop");
    reveal_strlit("Downloads");
    reveal_strlit(".local");
    reveal_strlit("share");
    if env.data_home is Some {
        lemma_place(env.data_home->0@, "iroh-drop"@);
    }
    if env.home is Some {
        let home = env.home->0@;
        let local = below(home, ".local"@);
        let share = below(local, "share"@);
        lemma_place(home, ".local"@);
        lemma_place(local, "share"@);
        lemma_place(share, "iroh-drop"@);
        lemma_place(home, "Downloads"@);
        lemma_place(below(home, "Downloads"@), "iroh-drop"@);
        lemma_place(home, "iroh-drop"@);
    }
}

/// A directory that is given for the socket means the socket in it; anything else is the socket.
pub proof fn a_directory_means_the_socket_in_it(
    value: Option<String>,
    is_dir: bool,
    r: Option<String>,
)
    requires
        call_ensures(socket_arg, (value, is_dir), r),
    ensures
        r is Some <==> value is Some,
        value is Some && !is_dir ==> r->0@ == value->0@,
        value is Some && is_dir ==> parts(r->0@) == parts(value->0@).push(
            PartView::Name("control.sock"@),
        ),
{
    reveal_strlit("control.sock");
    assert(opt_text(r) is Some <==> r is Some);
    if value is Some {
        lemma_place(value->0@, "control.sock"@);
    }
}

/// Everything that the daemon does is announced.
pub proof fn every_method_is_announced(r: Vec<String>)
    requires
        call_ensures(Service::methods, (), r),
    ensures
        r@.len() == 13,
        texts(r@).contains("hello"@),
        texts(r@).contains("daemon.status"@),
        texts(r@).contains("drop.create"@),
        texts(r@).contains("drop.join"@),
        texts(r@).contains("drop.list"@),
        texts(r@).contains("drop.ticket"@),
        texts(r@).contains("drop.leave"@),
        texts(r@).contains("offer.list"@),
        texts(r@).contains("offer.publish"@),
        texts(r@).contains("offer.fetch"@),
        texts(r@).contains("task.list"@),
        texts(r@).contains("task.cancel"@),
        texts(r@).contains("events.replay"@),
{
    let told = texts(r@);
    assert(told.len() == r@.len());
    assert(told[0] == "hello"@);
    assert(told[1] == "daemon.status"@);
    assert(told[2] == "drop.create"@);
    assert(told[3] == "drop.join"@);
    assert(told[4] == "drop.list"@);
    assert(told[5] == "drop.ticket"@);
    assert(told[6] == "drop.leave"@);
    assert(told[7] == "offer.list"@);
    assert(told[8] == "offer.publish"@);
    assert(told[9] == "offer.fetch"@);
    assert(told[10] == "task.list"@);
    assert(told[11] == "task.cancel"@);
    assert(told[12] == "events.replay"@);
}

/// A service sets up the protocol as it was told to, and never lets it fetch anything unasked.
pub proof fn nothing_is_fetched_unasked(
    options: &ServiceOptions,
    base: DropPolicy,
    r: (StackOptions, DropPolicy),
)
    requires
        call_ensures(ServiceOptions::protocol_setup, (options, base), r),
    ensures
        !r.1.auto_fetch,
        r.1.output_directory@ == options.download_dir@,
        opt_text(r.0.store_path) == opt_text(options.store_path),
        opt_text(r.0.identity_path) == opt_text(options.identity_path),
        r.0.offline == options.offline,
        r.0.mdns == options.mdns,
{
}

/// A client that says an unknown version is told so, and one whose introduction cannot be read is
/// told why; both under the number of their request.
pub proof fn refusals_say_why(
    service: &mut Service,
    first: &Option<Frame>,
    hello: Result<Hello, String>,
    r: Greeting,
)
    requires
        call_ensures(Service::greet, (service, first, hello), r),
        r is Refused,
    ensures
        r->Refused_reply@ is Failure,
        r->Refused_reply@->Failure_id == first->0->Req_id,
        hello is Ok ==> r->Refused_reply@->code == "api_version"@,
        hello is Err ==> r->Refused_reply@->code == "bad_params"@ && r->Refused_reply@->msg
            == hello->Err_0@,
{
}

/// A client that goes is no longer asked, nor is one whose connection is closed; the others are.
pub proof fn those_who_go_are_not_asked(
    service: &mut Service,
    token: Option<u64>,
    closed: &HashSet<u64>,
    other: u64,
)
    requires
        call_ensures(Service::detach, (service, token, closed), ()),
    ensures
        final(service).asks@.uis.contains(other) <==> {
            &&& old(service).asks@.uis.contains(other)
            &&& token != Some(other)
            &&& !closed@.contains(other)
        },
        final(service).drops == old(service).drops,
{
    let uis = old(service).asks@.uis;
    match token {
        Some(token) => {
            lemma_staying(uis, set![token]);
            lemma_staying(crate::asks::staying(uis, set![token]), closed@);
            assert(set![token].contains(other) <==> other == token);
        },
        None => {
            lemma_staying(uis, closed@);
        },
    }
}

/// A reply goes out under the number of its request: what was asked for, or the code and the words
/// of what went wrong.
pub proof fn replies_go_out_under_their_number(id: u64, r: Result<Json, ApiError>, frame: Frame)
    requires
        call_ensures(reply, (id, r), frame),
    ensures
        match r {
            Ok(p) => frame@ is Res && frame@->Res_id == id && frame@->Res_p == p@,
            Err(e) => frame@ is Failure && frame@->Failure_id == id && frame@->code == e.code@
                && frame@->msg == e.msg@,
        },
{
}

/// A message ends with what went wrong.
pub proof fn messages_end_with_what_went_wrong(
    e: &SdkError,
    r: String,
    refusal: &ApiError,
    told: String,
)
    requires
        call_ensures(SdkError::message, (e,), r),
        call_ensures(ApiError::message, (refusal,), told),
    ensures
        match e {
            SdkError::Drop(s) => r@ == s@,
            SdkError::Pick(s) => r@ == s@,
            SdkError::Io(s) => s@.is_suffix_of(r@),
            SdkError::Manifest(s) => s@.is_suffix_of(r@),
            SdkError::Config(s) => s@.is_suffix_of(r@),
        },
        told@ == refusal.code@ + ": "@ + refusal.msg@,
{
    match e {
        SdkError::Io(s) => {
            lemma_ends("io error: "@, s@);
        },
        SdkError::Manifest(s) => {
            lemma_ends("invalid collection manifest: "@, s@);
        },
        SdkError::Config(s) => {
            lemma_ends("config error: "@, s@);
        },
        _ => {},
    }
}

/// The question that is printed says what is offered, how large it is and from whom.
pub proof fn printed_questions_tell_the_offer(offer: &Json, r: Vec<String>)
    requires
        call_ensures(prompt, (offer,), r),
        offer@.text_at("name"@) is Some,
        offer@.text_at("human_size"@) is Some,
        offer@.text_at("from"@) is Some,
    ensures
        r@.len() == 4,
        r@[1]@ == "  Incoming file: "@ + quoted(offer@.text_at("name"@)->0) + "  ("@
            + offer@.text_at("human_size"@)->0 + ")"@,
        offer@.text_at("from"@)->0.len() <= 10 ==> offer@.text_at("from"@)->0.is_suffix_of(r@[2]@),
        offer@.text_at("from"@)->0.len() > 10 ==> offer@.text_at("from"@)->0.take(10).is_suffix_of(
            r@[2]@,
        ),
{
    let told = texts(r@);
    assert(told.len() == r@.len());
    assert(told[1] == r@[1]@ && told[2] == r@[2]@);
    lemma_ends(
        "  From peer:     "@,
        crate::text::first_chars(offer@.text_at("from"@)->0, 10),
    );
}

/// Watching says where files go, and warns exactly where everything is taken without asking.
pub proof fn watching_warns_where_nothing_is_asked(
    status: Result<Json, ApiError>,
    all: bool,
    r: Result<Vec<String>, String>,
)
    requires
        call_ensures(watch_begins, (status, all), r),
    ensures
        r is Ok <==> status is Ok,
        r is Ok && status->Ok_0@.text_at("download_dir"@) is Some ==> {
            &&& r->Ok_0@.len() > 0
            &&& status->Ok_0@.text_at("download_dir"@)->0.is_suffix_of(r->Ok_0@[0]@)
        },
        r is Ok ==> r->Ok_0@.len() == if all {
            4int
        } else {
            3
        },
{
    if r is Ok {
        let told = texts(r->Ok_0@);
        assert(told.len() == r->Ok_0@.len());
        assert(told[0] == r->Ok_0@[0]@);
        if status->Ok_0@.text_at("download_dir"@) is Some {
            lemma_ends("Watching. Files land in "@, status->Ok_0@.text_at("download_dir"@)->0);
        }
    }
}

/// Each drop of the daemon has its line: its handle in front, and how many peers at the end.
pub proof fn each_drop_has_its_line(reply: Result<Json, ApiError>, r: Step, i: int)
    requires
        call_ensures(drops_listed, (reply,), r),
        reply is Ok,
        reply->Ok_0@.list_at("drops"@) is Some,
        0 <= i < reply->Ok_0@.list_at("drops"@)->0.len(),
        reply->Ok_0@.list_at("drops"@)->0[i].text_at("drop"@) is Some,
        reply->Ok_0@.list_at("drops"@)->0[i].number_at("peers"@) is Some,
        reply->Ok_0@.list_at("drops"@)->0[i].number_at("files"@) is Some,
        reply->Ok_0@.list_at("drops"@)->0[i].text_at("human_size"@) is Some,
    ensures
        ({
            let d = reply->Ok_0@.list_at("drops"@)->0[i];
            let line = r@.lines[i + 1];
            &&& r@.lines.len() == reply->Ok_0@.list_at("drops"@)->0.len() + 3
            &&& ("  "@ + d.text_at("drop"@)->0).is_prefix_of(line)
            &&& (" "@ + decimal(d.number_at("files"@)->0 as nat) + " file(s), "@ + d.text_at(
                "human_size"@,
            )->0 + ", "@ + decimal(d.number_at("peers"@)->0 as nat) + " peer(s)"@).is_suffix_of(
                line,
            )
        }),
{
    let rows = reply->Ok_0@.list_at("drops"@)->0;
    let d = rows[i];
    let files = decimal(d.number_at("files"@)->0 as nat);
    let peers = decimal(d.number_at("peers"@)->0 as nat);
    assert(shown_fields(rows, "files"@)[i] == files);
    assert(shown_fields(rows, "peers"@)[i] == peers);
    let line = r@.lines[i + 1];
    assert(line == crate::commands::drop_row(d, files, peers));
    let name = crate::text::left_aligned(
        match d.text_at("name"@) {
            Some(name) => name,
            None => "received"@,
        },
        20,
    );
    let front = "  "@ + d.text_at("drop"@)->0;
    let back = " "@ + files + " file(s), "@ + d.text_at("human_size"@)->0 + ", "@ + peers
        + " peer(s)"@;
    assert(line =~= front + ("  "@ + name + back));
    assert(line =~= (front + "  "@ + name) + back);
    lemma_ends(front, "  "@ + name + back);
    lemma_ends(front + "  "@ + name, back);
}

/// The drops of a daemon are kept beside its blobs, in a directory whose name says so.
pub proof fn drops_are_kept_beside_the_blobs(
    options: &ServiceOptions,
    r: Option<DropStore>,
    names: Seq<Seq<char>>,
)
    requires
        call_ensures(DropStore::for_options, (options,), r),
        options.store_path is Some,
        names.len() > 1,
        forall|i: int| 0 <= i < names.len() ==> plain_name(#[trigger] names[i]),
        options.store_path->0@ == joined(names, "/"@),
    ensures
        r is Some,
        r->0.dir@ == joined(names.drop_last(), "/"@) + "/"@ + names.last() + "-daemon"@,
{
    let store = options.store_path->0@;
    let front = names.drop_last();
    crate::path::joined_names_are_parts(names);
    let named = Seq::new(names.len(), |i: int| PartView::Name(names[i]));
    let p = named.drop_last();
    assert(crate::path::part_texts(p) =~= front);
    assert(p[0] is Name);
    assert(p != seq![PartView::Root]) by {
        if p == seq![PartView::Root] {
            assert(p[0] is Root);
        }
    }
    let dir = joined(front, "/"@);
    assert(crate::path::parent_text(store) == Some(dir));
    assert(named.last() == PartView::Name(names.last()));
    let last = front.last();
    assert(plain_name(names[names.len() - 2]));
    assert(plain_name(names[names.len() - 1]));
    assert(dir.len() > 0 && dir.last() == last.last()) by {
        if front.len() > 1 {
            assert(dir == joined(front.drop_last(), "/"@) + "/"@ + last);
        }
    }
    assert(last.contains(last.last()));
    assert(names.last().contains(names.last()[0]));
    let name = names.last() + "-daemon"@;
    assert(name[0] == names.last()[0]);
    assert(below(dir, name) =~= dir + "/"@ + names.last() + "-daemon"@);
}

/// A room book that is not there is empty, and one that cannot be read is an error.
pub proof fn a_missing_book_is_empty(
    path: &str,
    read: &FileRead,
    r: Result<Rooms, SdkError>,
    name: Seq<char>,
)
    requires
        call_ensures(Rooms::load_from, (path, read), r),
        read is Missing || read is Failed,
    ensures
        read is Missing ==> r is Ok && !r->Ok_0.book().contains_key(name),
        read is Failed ==> r is Err,
{
}

/// A room that is forgotten is gone, and what is said tells whether it was there.
pub proof fn forgotten_rooms_are_gone(
    rooms: &mut Rooms,
    name: &str,
    r: (bool, String),
    other: Seq<char>,
)
    requires
        call_ensures(forget_room, (rooms, name), r),
        other != name@,
    ensures
        r.0 <==> old(rooms).book().contains_key(name@),
        !final(rooms).book().contains_key(name@),
        final(rooms).book().contains_key(other) <==> old(rooms).book().contains_key(other),
        r.0 ==> r.1@ == "Forgot room \""@ + name@ + "\"."@,
        !r.0 ==> r.1@ == "No room named \""@ + name@ + "\"."@,
{
}

/// A drop that is found nearby is called by its label, else by who shares it.
pub proof fn nearby_drops_are_called_by_their_label(drop: &NearbyDrop, r: String)
    requires
        call_ensures(NearbyDrop::display, (drop,), r),
    ensures
        drop.label is Some ==> r@ == drop.label->0@,
        drop.label is None ==> drop.peer.short@.is_suffix_of(r@),
{
    lemma_ends("drop from "@, drop.peer.short@);
}

/// A room book has as many rooms as it has names, and is empty when it has none.
pub proof fn rooms_are_counted(rooms: &Rooms, n: usize, empty: bool, listed: Vec<ListedRoom<'_>>)
    requires
        call_ensures(Rooms::len, (rooms,), n),
        call_ensures(Rooms::is_empty, (rooms,), empty),
        call_ensures(Rooms::list, (rooms,), listed),
    ensures
        n == listed@.len(),
        empty <==> n == 0,
{
    if n == 0 {
        assert(rooms.book().dom() =~= Set::empty());
        assert(rooms.book() =~= Map::<Seq<char>, crate::rooms::RoomView>::empty());
    }
    if empty {
        assert(rooms.book().dom() =~= Set::empty());
    }
}

/// The room book and the settings have their files below the directories that the environment
/// gives.
pub proof fn books_and_settings_have_their_files(
    env: &Environment,
    data: String,
    config: String,
    book: String,
    settings: String,
)
    requires
        call_ensures(Environment::data_dir, (env,), data),
        call_ensures(Environment::config_dir, (env,), config),
        call_ensures(Rooms::default_path, (env,), book),
        call_ensures(Config::default_path, (env,), settings),
    ensures
        parts(book@) == parts(data@).push(PartView::Name("rooms.toml"@)),
        parts(settings@) == parts(config@).push(PartView::Name("config.toml"@)),
{
    reveal_strlit("rooms.toml");
    reveal_strlit("config.toml");
    lemma_place(data@, "rooms.toml"@);
    lemma_place(config@, "config.toml"@);
}

/// The parts of a size are the size.
pub proof fn sizes_are_their_amount_and_unit(
    bytes: u64,
    whole: String,
    split: (String, &'static str),
)
    requires
        call_ensures(human_bytes, (bytes,), whole),
        call_ensures(human_parts, (bytes,), split),
    ensures
        whole@ == split.0@ + split.1@,
{
}

/// What is said of how a connection failed ends with the reason.
pub proof fn connection_failures_say_why(step: TierStep, why: &str, r: Option<String>)
    requires
        call_ensures(tier_failure, (step, why), r),
    ensures
        r is Some <==> step is HelperSilent || step is CannotStart,
        r is Some ==> why@.is_suffix_of(r->0@),
{
    assert(opt_text(r) is Some <==> r is Some);
    lemma_ends("the background helper did not answer: "@, why@);
    lemma_ends("cannot start: "@, why@);
}

/// The heading over a link says what the link is for.
pub proof fn link_headings_say_what_for(name: &Option<String>, r: String)
    requires
        call_ensures(share_heading, (name,), r),
    ensures
        "Ready to send"@.is_prefix_of(r@),
        name is Some ==> quoted(name->0@).is_suffix_of(r@),
{
    reveal_strlit("Ready to send");
    reveal_strlit("Ready to send \u{2014} ");
    if name is Some {
        lemma_ends("Ready to send \u{2014} "@, quoted(name->0@));
        assert(r@.subrange(0, 13) =~= "Ready to send"@);
    } else {
        assert(r@.subrange(0, 13) =~= "Ready to send"@);
    }
}

/// What is being got is known by its drop and its pick.
pub proof fn rows_are_known_by_drop_and_pick(row: &AvailableRow, r: String)
    requires
        call_ensures(key_of, (row,), r),
    ensures
        r@ == row.drop@ + "/"@ + row.pick@,
{
}

/// How many items were found is said, one of them not in the plural.
pub proof fn found_items_are_counted(count: usize, r: String)
    requires
        call_ensures(found_line, (count,), r),
    ensures
        ("Found "@ + decimal(count as nat) + " item"@).is_prefix_of(r@),
        count == 1 ==> r@ == "Found "@ + decimal(1) + " item in this drop."@,
        count != 1 ==> r@ == "Found "@ + decimal(count as nat) + " items in this drop."@,
{
    reveal_strlit("");
    reveal_strlit("s");
    reveal_strlit(" item");
    reveal_strlit(" in this drop.");
    reveal_strlit(" item in this drop.");
    reveal_strlit(" items in this drop.");
    let front = "Found "@ + decimal(count as nat);
    assert(" item"@ + ""@ + " in this drop."@ =~= " item in this drop."@);
    assert(" item"@ + "s"@ + " in this drop."@ =~= " items in this drop."@);
    let tail = crate::cli::ending(count as nat);
    assert(r@ =~= front + (" item"@ + tail + " in this drop."@));
    assert(r@ =~= (front + " item"@) + (tail + " in this drop."@));
    lemma_ends(front + " item"@, tail + " in this drop."@);
}

/// While files are served their ticket is printed on a line of its own.
pub proof fn served_files_have_their_ticket(ticket: &str, r: Vec<String>)
    requires
        call_ensures(still_serving, (ticket,), r),
    ensures
        r@.len() == 6,
        r@[5]@ == "    "@ + ticket@,
{
    let told = texts(r@);
    assert(told.len() == r@.len());
    assert(told[5] == r@[5]@);
}

/// The end of a sending says how to stop hosting the drop that was created.
pub proof fn sending_ends_with_how_to_stop(sending: &Sending, r: Step, handle: Seq<char>)
    requires
        call_ensures(Sending::farewell, (sending,), r),
        sending@.drop == JsonView::Text(handle),
    ensures
        r@.next is Finish,
        r@.lines.len() == 2,
        (" --forget "@ + handle).is_suffix_of(r@.lines[1]),
{
    reveal_strlit("  iroh-drop drops --forget ");
    reveal_strlit(" --forget ");
    let line = r@.lines[1];
    let tail = " --forget "@ + handle;
    assert(line == "  iroh-drop drops --forget "@ + handle);
    assert(line.subrange(line.len() - tail.len(), line.len() as int) =~= tail);
}

/// The first frame of a client is its introduction, under the number zero.
pub proof fn clients_begin_with_their_introduction(hello: Json, r: Frame)
    requires
        call_ensures(hello_frame, (hello,), r),
    ensures
        r@ is Req,
        r@->Req_id == 0,
        r@->m == "hello"@,
        r@->Req_p == hello@,
{
}

/// A client is connected when its introduction is answered, with what the daemon said; a refusal is
/// passed on as it is.
pub proof fn answered_introductions_connect(first: Option<Frame>, r: Result<Client, ApiError>)
    requires
        call_ensures(Client::start, (first,), r),
    ensures
        r is Ok <==> first is Some && first->0 is Res,
        r is Ok ==> r->Ok_0.hello == first->0->Res_p && r->Ok_0.pending@ == Set::<u64>::empty(),
        first is Some && first->0 is Failure ==> r->Err_0.code == first->0->code && r->Err_0.msg
            == first->0->msg,
        first is None ==> r->Err_0.code@ == "disconnected"@,
{
}

/// What could not be attached to is named, with how to start a daemon where none is there.
pub proof fn missing_daemons_are_named(path: &str, e: &ApiError, r: String)
    requires
        call_ensures(attach_failed, (path, e), r),
    ensures
        e.code@ != "no_daemon"@ ==> r@ == e.code@ + ": "@ + e.msg@,
        e.code@ == "no_daemon"@ ==> ("no daemon at "@ + path@).is_prefix_of(r@),
{
    if e.code@ == "no_daemon"@ {
        let front = "no daemon at "@ + path@;
        assert(r@.subrange(0, front.len() as int) =~= front);
    }
}

/// A saved room is named, with how to use it again.
pub proof fn saved_rooms_are_named(name: &str, by: Remembered, r: String)
    requires
        call_ensures(room_line, (name, by), r),
    ensures
        ("Saved as room \""@ + name@ + "\""@).is_prefix_of(r@),
        by is Receiving ==> ("receive --room "@ + name@).is_suffix_of(r@),
        by is Sharing ==> ("share --room "@ + name@ + " <paths>"@).is_suffix_of(r@),
{
    reveal_strlit("\"");
    reveal_strlit("\".");
    reveal_strlit("\" \u{2014} next time: iroh-drop share --room ");
    reveal_strlit("\" \u{2014} next time: iroh-drop receive --room ");
    reveal_strlit("receive --room ");
    reveal_strlit("share --room ");
    let line = r@;
    let front = "Saved as room \""@ + name@ + "\""@;
    assert(line.subrange(0, front.len() as int) =~= front);
    if by is Receiving {
        let tail = "receive --room "@ + name@;
        assert(line.subrange(line.len() - tail.len(), line.len() as int) =~= tail);
    }
    if by is Sharing {
        let tail = "share --room "@ + name@ + " <paths>"@;
        assert(line.subrange(line.len() - tail.len(), line.len() as int) =~= tail);
    }
}

/// A ticket that was written is said to be where it is, and one that was not with the reason.
pub proof fn written_tickets_are_told(
    path: &str,
    failure: &Option<String>,
    r: String,
    kept: Option<String>,
)
    requires
        call_ensures(ticket_written, (path, failure), r),
        call_ensures(ticket_kept, (failure,), kept),
    ensures
        failure is None ==> path@.is_suffix_of(r@) && kept is None,
        failure is Some ==> failure->0@.is_suffix_of(r@) && kept is Some
            && failure->0@.is_suffix_of(kept->0@),
{
    assert(opt_text(kept) is Some <==> kept is Some);
    lemma_ends("ticket written to "@, path@);
    if failure is Some {
        lemma_ends("! could not write "@ + path@ + ": "@, failure->0@);
        lemma_ends("! could not save the ticket: "@, failure->0@);
    }
}

} // verus!

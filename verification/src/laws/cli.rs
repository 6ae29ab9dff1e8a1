//! What holds of what is typed: command lines, prompts and what they ask for.

use crate::bridge::{helper_args, parse_app_args, AppArgs};
use crate::cli::{
    command, hash_views, listed_hashes, report_saved, saved_report, start, typed, wanted, who,
    Awaiting, CommonArgs, Look, PromptCommand, PromptView, Startup,
};
use crate::config::{Config, DropPolicy};
use crate::dropd::{nothing_said, parse_args, service_options, understood, DaemonArgs, Invocation};
use crate::error::{SdkError, SdkErrorView};
use crate::ids::BlobHash;
use crate::inventory::{InventoryItem, OfferRecord};
use crate::path::{a_name_below_adds_a_part, parts, plain_name, PartView};
use crate::service::ServiceOptions;
use crate::text::{decimal, opt_text, texts, trimmed, words};
use vstd::prelude::*;

verus! {

proof fn lemma_prompts_differ()
    ensures
        "share"@ != "add"@,
        "get"@ != "add"@,
        "get"@ != "share"@,
        "ls"@ != "add"@,
        "ls"@ != "share"@,
        "ls"@ != "get"@,
        "list"@ != "add"@,
        "list"@ != "share"@,
        "list"@ != "get"@,
        "list"@ != "ls"@,
        "who"@ != "add"@,
        "who"@ != "share"@,
        "who"@ != "get"@,
        "who"@ != "ls"@,
        "who"@ != "list"@,
        "peers"@ != "add"@,
        "peers"@ != "share"@,
        "peers"@ != "get"@,
        "peers"@ != "ls"@,
        "peers"@ != "list"@,
        "peers"@ != "who"@,
        "ticket"@ != "add"@,
        "ticket"@ != "share"@,
        "ticket"@ != "get"@,
        "ticket"@ != "ls"@,
        "ticket"@ != "list"@,
        "ticket"@ != "who"@,
        "ticket"@ != "peers"@,
        "help"@ != "add"@,
        "help"@ != "share"@,
        "help"@ != "get"@,
        "help"@ != "ls"@,
        "help"@ != "list"@,
        "help"@ != "who"@,
        "help"@ != "peers"@,
        "help"@ != "ticket"@,
        "quit"@ != "add"@,
        "quit"@ != "share"@,
        "quit"@ != "get"@,
        "quit"@ != "ls"@,
        "quit"@ != "list"@,
        "quit"@ != "who"@,
        "quit"@ != "peers"@,
        "quit"@ != "ticket"@,
        "quit"@ != "help"@,
        "exit"@ != "add"@,
        "exit"@ != "share"@,
        "exit"@ != "get"@,
        "exit"@ != "ls"@,
        "exit"@ != "list"@,
        "exit"@ != "who"@,
        "exit"@ != "peers"@,
        "exit"@ != "ticket"@,
        "exit"@ != "help"@,
        "exit"@ != "quit"@,
        "q"@ != "add"@,
        "q"@ != "share"@,
        "q"@ != "get"@,
        "q"@ != "ls"@,
        "q"@ != "list"@,
        "q"@ != "who"@,
        "q"@ != "peers"@,
        "q"@ != "ticket"@,
        "q"@ != "help"@,
        "q"@ != "quit"@,
        "q"@ != "exit"@,
{
    reveal_strlit("add");
    reveal_strlit("share");
    reveal_strlit("get");
    reveal_strlit("ls");
    reveal_strlit("list");
    reveal_strlit("who");
    reveal_strlit("peers");
    reveal_strlit("ticket");
    reveal_strlit("help");
    reveal_strlit("quit");
    reveal_strlit("exit");
    reveal_strlit("q");
    assert("add"@.len() == 3 && "share"@.len() == 5 && "get"@.len() == 3 && "ls"@.len() == 2
        && "list"@.len() == 4 && "who"@.len() == 3 && "peers"@.len() == 5
        && "ticket"@.len() == 6 && "help"@.len() == 4 && "quit"@.len() == 4
        && "exit"@.len() == 4 && "q"@.len() == 1);
    assert("add"@[0] == 'a' && "get"@[0] == 'g' && "who"@[0] == 'w');
    assert("share"@[0] == 's' && "peers"@[0] == 'p');
    assert("list"@[0] == 'l' && "help"@[0] == 'h' && "quit"@[0] == 'q' && "exit"@[0] == 'e');
}

/// What is typed at the prompt asks for what its first word says: `add` and `share` for a path
/// and the name behind `as`, `get` for an item and the place behind `to` or `out`; the other
/// words stand alone, and a word that is none of these is unknown.
pub proof fn prompts_ask_for_what_they_say(line: &str, r: Result<PromptCommand, String>)
    requires
        call_ensures(command, (line,), r),
    ensures
        ({
            let said = words(line@);
            &&& said.len() == 0 ==> r is Ok && r->Ok_0 is Nothing
            &&& said.len() > 0 && (said[0] == "add"@ || said[0] == "share"@) ==> {
                &&& said.len() == 2 ==> r is Ok && r->Ok_0@ == (PromptView::Add {
                    path: said[1],
                    name: None,
                })
                &&& said.len() == 4 && said[2] == "as"@ ==> r is Ok && r->Ok_0@ == (
                PromptView::Add { path: said[1], name: Some(said[3]) })
                &&& said.len() != 2 && !(said.len() == 4 && said[2] == "as"@) ==> r is Err
            }
            &&& said.len() > 0 && said[0] == "get"@ ==> {
                &&& said.len() == 2 ==> r is Ok && r->Ok_0@ == (PromptView::Get {
                    what: said[1],
                    out: None,
                })
                &&& said.len() == 4 && (said[2] == "to"@ || said[2] == "out"@) ==> r is Ok
                    && r->Ok_0@ == (PromptView::Get { what: said[1], out: Some(said[3]) })
                &&& said.len() != 2 && !(said.len() == 4 && (said[2] == "to"@ || said[2]
                    == "out"@)) ==> r is Err
            }
            &&& said.len() > 0 && (said[0] == "ls"@ || said[0] == "list"@) ==> r is Ok && r->Ok_0
                is List
            &&& said.len() > 0 && (said[0] == "who"@ || said[0] == "peers"@) ==> r is Ok && r->Ok_0
                is Who
            &&& said.len() > 0 && said[0] == "ticket"@ ==> r is Ok && r->Ok_0 is Ticket
            &&& said.len() > 0 && said[0] == "help"@ ==> r is Ok && r->Ok_0 is Help
            &&& said.len() > 0 && (said[0] == "quit"@ || said[0] == "exit"@ || said[0] == "q"@)
                ==> r is Ok && r->Ok_0 is Quit
            &&& r is Ok && r->Ok_0 is Unknown ==> said.len() > 0 && r->Ok_0->said@ == said[0]
            &&& said.len() > 0 && said[0] != "add"@ && said[0] != "share"@ && said[0] != "get"@
                && said[0] != "ls"@ && said[0] != "list"@ && said[0] != "who"@ && said[0]
                != "peers"@ && said[0] != "ticket"@ && said[0] != "help"@ && said[0] != "quit"@
                && said[0] != "exit"@ && said[0] != "q"@ ==> r is Ok && r->Ok_0 is Unknown
        }),
{
    lemma_prompts_differ();
    let said = words(line@);
    if said.len() > 0 {
        let rest = said.skip(1);
        if said.len() >= 2 {
            assert(rest[0] == said[1]);
        }
        if said.len() >= 4 {
            assert(rest[1] == said[2] && rest[2] == said[3]);
        }
    }
}

/// A line is run without the white space around it, unless it is blank or begins with `#`.
pub proof fn remarks_and_blank_lines_are_not_run(line: &str, r: Option<&str>)
    requires
        call_ensures(typed, (line,), r),
    ensures
        r is None <==> trimmed(line@).len() == 0 || trimmed(line@)[0] == '#',
        r is Some ==> r->0@ == trimmed(line@),
{
}

/// `all` wants everything that is listed, in the order of the listing; a number wants the one item
/// that was offered there.
pub proof fn everything_or_one_is_wanted(
    items: &Vec<InventoryItem>,
    records: &Vec<OfferRecord>,
    what: &str,
    resolved: Option<BlobHash>,
    r: Result<Vec<BlobHash>, SdkError>,
    n: nat,
)
    requires
        call_ensures(wanted, (items, records, what, resolved), r),
        what@ == "all"@ || (1 <= n <= records@.len() <= usize::MAX && what@ == decimal(n)),
    ensures
        r is Ok,
        what@ == "all"@ ==> {
            &&& r->Ok_0@.len() == items@.len()
            &&& forall|i: int|
                0 <= i < items@.len() ==> (#[trigger] r->Ok_0@[i]).hex@ == items@[i].hash.hex@
        },
        what@ != "all"@ ==> r->Ok_0@.len() == 1 && r->Ok_0@[0].hex@
            == records@[n - 1].blob_hash.hex@,
{
    if what@ == "all"@ {
        let got = hash_views(r->Ok_0@);
        assert(got.len() == r->Ok_0@.len());
        assert forall|i: int| 0 <= i < items@.len() implies (#[trigger] r->Ok_0@[i]).hex@
            == items@[i].hash.hex@ by {
            assert(got[i] == listed_hashes(items@)[i]);
        }
    } else {
        let listing = choose|listing: Seq<InventoryItem>| #[trigger]
            crate::inventory::listing_of(listing, records@) && match r {
                Ok(hashes) => hashes@.len() == 1 && crate::inventory::picked(
                    listing,
                    what@,
                    crate::inventory::opt_hash(resolved),
                ) == Ok::<(Seq<char>, Seq<char>), SdkErrorView>(hashes@[0]@),
                Err(e) => crate::inventory::picked(
                    listing,
                    what@,
                    crate::inventory::opt_hash(resolved),
                ) == Err::<(Seq<char>, Seq<char>), SdkErrorView>(e@),
            };
        crate::inventory::a_number_picks_its_line(
            listing,
            n,
            crate::inventory::opt_hash(resolved),
        );
        assert(crate::inventory::lists(listing[n - 1], records@[n - 1], n as int));
    }
}

/// What was saved is reported with how many files there are and where they went; the first twenty
/// are named, and of the others there is said how many.
pub proof fn saved_files_are_reported(saved: &Vec<String>, out_dir: &str, r: Vec<String>, i: int)
    requires
        call_ensures(report_saved, (saved, out_dir), r),
        0 <= i < saved@.len(),
    ensures
        r@.len() > 2,
        r@[1]@ == "Saved "@ + decimal(saved@.len()) + " file(s) to "@ + out_dir@ + ":"@,
        i < 20 ==> r@[i + 2]@ == "  "@ + saved@[i]@,
        saved@.len() <= 20 ==> r@.len() == saved@.len() + 2,
        saved@.len() > 20 ==> r@.len() == 23 && r@[22]@ == "  ... and "@ + decimal(
            (saved@.len() - 20) as nat,
        ) + " more"@,
{
    let told = texts(r@);
    assert(told == saved_report(texts(saved@), out_dir@));
    assert(told[1] == r@[1]@);
    if i < 20 {
        assert(told[i + 2] == r@[i + 2]@);
        assert(texts(saved@)[i] == saved@[i]@);
    }
    if saved@.len() > 20 {
        assert(told[22] == r@[22]@);
    }
}

/// Waiting for files ends when some are there or it is too late; while nobody is there, that is
/// said once.
pub proof fn waiting_alone_is_said_once(
    awaiting: &mut Awaiting,
    found: bool,
    late: bool,
    alone: bool,
    r: Look,
)
    requires
        call_ensures(Awaiting::looked, (awaiting, found, late, alone), r),
    ensures
        r is Done <==> found || late,
        r is Nudge <==> !found && !late && alone && !old(awaiting).nudged,
        final(awaiting).nudged <==> old(awaiting).nudged || r is Nudge,
{
}

/// What a session starts with: nothing is kept where it is ephemeral, unless a place is given; no
/// relay is used offline, where others are looked for on the local network; what is received goes
/// where it is said, else to the usual place.
pub proof fn sessions_start_as_asked(
    args: &CommonArgs,
    config: &Config,
    limits: DropPolicy,
    joining: bool,
    private: bool,
    r: Startup,
)
    requires
        call_ensures(start, (args, config, limits, joining, private), r),
    ensures
        args.store is Some ==> opt_text(r.options.store_path) == Some(args.store->0@),
        args.store is None ==> (r.options.store_path is None <==> args.ephemeral),
        args.store is None && !args.ephemeral ==> opt_text(r.options.store_path) == Some(
            config.store_path@,
        ),
        args.identity is Some ==> opt_text(r.options.identity_path) == Some(args.identity->0@),
        args.identity is None ==> (r.options.identity_path is None <==> args.ephemeral),
        args.identity is None && !args.ephemeral ==> opt_text(r.options.identity_path) == Some(
            config.identity_path@,
        ),
        r.options.offline == args.offline,
        args.offline ==> r.options.mdns && !r.wait_online,
        !args.offline ==> r.wait_online && r.options.mdns == args.mdns,
        r.policy.auto_fetch == args.auto,
        r.policy.max_blob_size == config.max_auto_blob_size,
        r.policy.max_total_auto_fetch_bytes == config.max_auto_total_bytes,
        r.ctx.short_tickets == !args.full_ticket,
        r.ctx.joined == joining,
        r.ctx.verbose == args.verbose,
        r.create is Some ==> r.create->0.auto_fetch_recommended == args.auto,
        r.create is Some <==> !joining,
        r.create is Some ==> r.create->0.private == private && opt_text(r.create->0.display_name)
            == opt_text(args.name),
        args.dir is Some ==> r.ctx.out_dir@ == args.dir->0@,
        args.dir is None ==> r.ctx.out_dir@ == config.download_dir@,
        r.policy.output_directory@ == r.ctx.out_dir@,
        args.ephemeral ==> r.dirs@.len() == 0,
        !args.ephemeral ==> r.dirs@.len() >= 2 && r.dirs@[0]@ == config.store_path@ && r.dirs@[1]@
            == config.download_dir@,
{
    if !args.ephemeral {
        let dirs = texts(r.dirs@);
        assert(dirs.len() == r.dirs@.len());
        assert(dirs.len() >= 2);
        assert(dirs[0] == r.dirs@[0]@);
        assert(dirs[1] == r.dirs@[1]@);
    } else {
        assert(texts(r.dirs@).len() == 0);
    }
}

proof fn lemma_flags_differ()
    ensures
        "--socket"@ != "--lan-only"@,
        "--data-dir"@ != "--lan-only"@,
        "--data-dir"@ != "--socket"@,
        "--downloads"@ != "--lan-only"@,
        "--downloads"@ != "--socket"@,
        "--downloads"@ != "--data-dir"@,
        "--accept-when-no-ui"@ != "--lan-only"@,
        "--accept-when-no-ui"@ != "--socket"@,
        "--accept-when-no-ui"@ != "--data-dir"@,
        "--accept-when-no-ui"@ != "--downloads"@,
        "--link-base"@ != "--lan-only"@,
        "--link-base"@ != "--socket"@,
        "--link-base"@ != "--data-dir"@,
        "--link-base"@ != "--downloads"@,
        "--link-base"@ != "--accept-when-no-ui"@,
        "-h"@ != "--lan-only"@,
        "-h"@ != "--socket"@,
        "-h"@ != "--data-dir"@,
        "-h"@ != "--downloads"@,
        "-h"@ != "--accept-when-no-ui"@,
        "-h"@ != "--link-base"@,
        "--help"@ != "--lan-only"@,
        "--help"@ != "--socket"@,
        "--help"@ != "--data-dir"@,
        "--help"@ != "--downloads"@,
        "--help"@ != "--accept-when-no-ui"@,
        "--help"@ != "--link-base"@,
        "--help"@ != "-h"@,
{
    reveal_strlit("--lan-only");
    reveal_strlit("--socket");
    reveal_strlit("--data-dir");
    reveal_strlit("--downloads");
    reveal_strlit("--accept-when-no-ui");
    reveal_strlit("--link-base");
    reveal_strlit("-h");
    reveal_strlit("--help");
    assert("--lan-only"@.len() == 10 && "--socket"@.len() == 8 && "--data-dir"@.len() == 10
        && "--downloads"@.len() == 11 && "--accept-when-no-ui"@.len() == 19
        && "--link-base"@.len() == 11 && "-h"@.len() == 2 && "--help"@.len() == 6);
    assert("--lan-only"@[2] == 'l' && "--data-dir"@[2] == 'd');
    assert("--downloads"@[2] == 'd' && "--link-base"@[2] == 'l');
}

/// Each option of the daemon says its own thing and nothing else: alone with its value it gives
/// that value to that option and leaves the others as they are where nothing is said.
pub proof fn daemon_options_say_their_own_thing(args: &Vec<String>, r: Invocation)
    requires
        call_ensures(parse_args, (args,), r),
    ensures
        args@.len() == 0 ==> r is Run && r->Run_0@ == nothing_said(),
        args@.len() == 1 && args@[0]@ == "--lan-only"@ ==> {
            &&& r is Run
            &&& r->Run_0.lan_only
            &&& !r->Run_0.accept_when_no_ui
            &&& r->Run_0.socket is None && r->Run_0.data_dir is None
            &&& r->Run_0.download_dir is None && r->Run_0.link_base is None
        },
        args@.len() == 1 && args@[0]@ == "--accept-when-no-ui"@ ==> {
            &&& r is Run
            &&& r->Run_0.accept_when_no_ui
            &&& !r->Run_0.lan_only
            &&& r->Run_0.socket is None && r->Run_0.data_dir is None
            &&& r->Run_0.download_dir is None && r->Run_0.link_base is None
        },
        args@.len() == 2 && (args@[0]@ == "--socket"@ || args@[0]@ == "--data-dir"@ || args@[0]@
            == "--downloads"@ || args@[0]@ == "--link-base"@) ==> {
            let said = |flag: Seq<char>| if args@[0]@ == flag { Some(args@[1]@) } else { None };
            &&& r is Run
            &&& !r->Run_0.lan_only && !r->Run_0.accept_when_no_ui
            &&& opt_text(r->Run_0.socket) == said("--socket"@)
            &&& opt_text(r->Run_0.data_dir) == said("--data-dir"@)
            &&& opt_text(r->Run_0.download_dir) == said("--downloads"@)
            &&& opt_text(r->Run_0.link_base) == said("--link-base"@)
        },
        args@.len() > 0 && (args@[0]@ == "-h"@ || args@[0]@ == "--help"@) ==> r is Help,
        args@.len() > 0 && args@[0]@ != "--lan-only"@ && args@[0]@ != "--socket"@ && args@[0]@
            != "--data-dir"@ && args@[0]@ != "--downloads"@ && args@[0]@ != "--accept-when-no-ui"@
            && args@[0]@ != "--link-base"@ && args@[0]@ != "-h"@ && args@[0]@ != "--help"@ ==> r
            is Bad,
{
    lemma_flags_differ();
    reveal_with_fuel(understood, 2);
    let given = texts(args@);
    assert(given.len() == args@.len());
    if args@.len() > 0 {
        assert(given[0] == args@[0]@);
        if args@.len() == 1 {
            assert(given.skip(1) =~= Seq::<Seq<char>>::empty());
        }
        if args@.len() == 2 {
            assert(given[1] == args@[1]@);
            assert(given.skip(2) =~= Seq::<Seq<char>>::empty());
        }
    }
    if r is Run {
        let run = r->Run_0@;
        assert(run.lan_only == r->Run_0.lan_only);
    }
}

/// The options of the daemon add up: what one says and what is said behind it both hold, unless the
/// same is said again.
pub proof fn daemon_options_add_up(value: Seq<char>, rest: Seq<Seq<char>>)
    ensures
        understood(seq!["--lan-only"@] + rest, nothing_said()) == understood(
            rest,
            (crate::dropd::DaemonArgsView { lan_only: true, ..nothing_said() }),
        ),
        understood(seq!["--accept-when-no-ui"@] + rest, nothing_said()) == understood(
            rest,
            (crate::dropd::DaemonArgsView { accept_when_no_ui: true, ..nothing_said() }),
        ),
        understood(seq!["--socket"@, value] + rest, nothing_said()) == understood(
            rest,
            (crate::dropd::DaemonArgsView { socket: Some(value), ..nothing_said() }),
        ),
        understood(seq!["--data-dir"@, value] + rest, nothing_said()) == understood(
            rest,
            (crate::dropd::DaemonArgsView { data_dir: Some(value), ..nothing_said() }),
        ),
        understood(seq!["--downloads"@, value] + rest, nothing_said()) == understood(
            rest,
            (crate::dropd::DaemonArgsView { download_dir: Some(value), ..nothing_said() }),
        ),
        understood(seq!["--link-base"@, value] + rest, nothing_said()) == understood(
            rest,
            (crate::dropd::DaemonArgsView { link_base: Some(value), ..nothing_said() }),
        ),
{
    lemma_flags_differ();
    assert((seq!["--lan-only"@] + rest).skip(1) =~= rest);
    assert((seq!["--accept-when-no-ui"@] + rest).skip(1) =~= rest);
    assert((seq!["--socket"@, value] + rest).skip(2) =~= rest);
    assert((seq!["--data-dir"@, value] + rest).skip(2) =~= rest);
    assert((seq!["--downloads"@, value] + rest).skip(2) =~= rest);
    assert((seq!["--link-base"@, value] + rest).skip(2) =~= rest);
}

/// What is said to the daemon reaches its service: the blobs and the identity go below the data
/// directory, and offers are taken without asking only where that was said.
pub proof fn daemon_options_reach_the_service(
    args: &DaemonArgs,
    data_dir: &str,
    download_dir: &str,
    r: ServiceOptions,
)
    requires
        call_ensures(service_options, (args, data_dir, download_dir), r),
    ensures
        r.store_path is Some,
        parts(r.store_path->0@) == parts(data_dir@).push(PartView::Name("blobs"@)),
        r.identity_path is Some,
        parts(r.identity_path->0@) == parts(data_dir@).push(PartView::Name("identity"@)),
        r.offline <==> args.lan_only,
        r.auto_accept <==> args.accept_when_no_ui,
        r.download_dir@ == download_dir@,
        opt_text(r.link_base) == opt_text(args.link_base),
{
    reveal_strlit("blobs");
    reveal_strlit("identity");
    reveal_strlit(".");
    reveal_strlit("..");
    assert("blobs"@.len() == 5 && "identity"@.len() == 8 && "."@.len() == 1 && ".."@.len() == 2);
    assert(plain_name("blobs"@));
    assert(plain_name("identity"@));
    a_name_below_adds_a_part(data_dir@, "blobs"@);
    a_name_below_adds_a_part(data_dir@, "identity"@);
}

/// The helper is started with what the window was told: it takes offers without asking while no
/// window is there, stays on the local network where that was said, and listens where it was said.
pub proof fn the_helper_is_told_what_the_window_was(
    socket: &Option<String>,
    lan_only: bool,
    args: Vec<String>,
    r: Invocation,
)
    requires
        call_ensures(helper_args, (socket, lan_only), args),
        call_ensures(parse_args, (&args,), r),
    ensures
        r is Run,
        r->Run_0.accept_when_no_ui,
        r->Run_0.lan_only == lan_only,
        opt_text(r->Run_0.socket) == opt_text(*socket),
        r->Run_0.data_dir is None,
        r->Run_0.download_dir is None,
        r->Run_0.link_base is None,
{
    lemma_flags_differ();
    reveal_with_fuel(understood, 5);
    let given = texts(args@);
    let second = if lan_only {
        seq!["--lan-only"@]
    } else {
        Seq::empty()
    };
    let third = match socket {
        Some(path) => seq!["--socket"@, path@],
        None => Seq::empty(),
    };
    assert(given.skip(1) =~= second + third);
    if lan_only {
        assert((second + third).skip(1) =~= third);
    } else {
        assert(second + third =~= third);
    }
    if socket is Some {
        assert(third.skip(2) =~= Seq::<Seq<char>>::empty());
    }
    let run = r->Run_0@;
    assert(run.lan_only == r->Run_0.lan_only);
}

/// The window is told where to connect and whether to stay on the local network.
pub proof fn window_options_say_their_own_thing(args: &Vec<String>, r: AppArgs)
    requires
        call_ensures(parse_app_args, (args,), r),
    ensures
        args@.len() == 0 ==> r.socket is None && !r.lan_only,
        args@.len() == 1 && args@[0]@ == "--lan-only"@ ==> r.socket is None && r.lan_only,
        args@.len() == 2 && args@[0]@ == "--socket"@ ==> opt_text(r.socket) == Some(args@[1]@)
            && !r.lan_only,
        args@.len() == 3 && args@[0]@ == "--lan-only"@ && args@[1]@ == "--socket"@ ==> opt_text(
            r.socket,
        ) == Some(args@[2]@) && r.lan_only,
{
    lemma_flags_differ();
    reveal_with_fuel(crate::bridge::app_args_said, 3);
    let given = texts(args@);
    assert(given.len() == args@.len());
    if args@.len() > 0 {
        assert(given[0] == args@[0]@);
    }
    if args@.len() == 1 {
        assert(given.skip(1) =~= Seq::<Seq<char>>::empty());
    }
    if args@.len() == 2 {
        assert(given[1] == args@[1]@);
        assert(given.skip(2) =~= Seq::<Seq<char>>::empty());
    }
    if args@.len() == 3 {
        assert(given[1] == args@[1]@ && given[2] == args@[2]@);
        assert(given.skip(1) =~= seq![given[1], given[2]]);
        assert(given.skip(1).skip(2) =~= Seq::<Seq<char>>::empty());
    }
}

} // verus!

//! What the commands promise of the calls they make and the lines they print.

use crate::commands::{
    consent, handles_of, join_done, print_event, DropsQuery, Getting, Leaving, Located, NextView,
    OutDir, Sending, Shown, Step,
};
use crate::frame::ApiError;
use crate::json::{
    added_value_is_found, nothing_is_in_an_empty_object, shown_fields, Json, JsonView,
};
use crate::text::{decimal, opt_text, quoted, texts, trimmed};
use vstd::prelude::*;

verus! {

/// Sending begins with a drop under the name that was given, if one was.
pub proof fn sending_creates_a_drop(
    paths: Vec<String>,
    name: &Option<String>,
    qr: bool,
    r: (Sending, Step),
)
    requires
        call_ensures(Sending::begin, (paths, name, qr), r),
    ensures
        r.0@.paths == texts(paths@),
        r.0@.at == 0,
        r.0@.qr == qr,
        r.1@.next is Call,
        r.1@.next->method == "drop.create"@,
        r.1@.next->params.text_at("name"@) == opt_text(*name),
{
    broadcast use {added_value_is_found, nothing_is_in_an_empty_object};

    assert(r.1@.next->params.get("name"@) is Some);
}

/// Once the drop is there its handle is kept, and the first path is looked for; with no paths its
/// link is asked for.
pub proof fn the_new_drop_is_kept(
    sending: &mut Sending,
    reply: Result<Json, ApiError>,
    r: Step,
    handle: Seq<char>,
)
    requires
        call_ensures(Sending::created, (sending, reply), r),
        reply is Ok,
        reply->Ok_0@.text_at("drop"@) == Some(handle),
    ensures
        final(sending)@.drop == JsonView::Text(handle),
        final(sending)@.paths == old(sending)@.paths,
        final(sending)@.at == old(sending)@.at,
        0 <= old(sending)@.at < old(sending)@.paths.len() ==> r@.next == (NextView::Locate {
            path: old(sending)@.paths[old(sending)@.at],
        }),
        old(sending)@.at >= old(sending)@.paths.len() ==> {
            &&& r@.next is Call
            &&& r@.next->method == "drop.ticket"@
            &&& r@.next->params.text_at("drop"@) == Some(handle)
        },
{
    broadcast use {added_value_is_found, nothing_is_in_an_empty_object};

    if old(sending)@.at >= old(sending)@.paths.len() {
        assert(r@.next->params.get("drop"@) is Some);
    }
}

/// A path that was found is published into the kept drop, as it was found.
pub proof fn found_paths_are_published(
    sending: &mut Sending,
    found: Located,
    r: Step,
    handle: Seq<char>,
)
    requires
        call_ensures(Sending::located, (sending, found), r),
        found is Found,
        found->text is Some,
        old(sending)@.drop == JsonView::Text(handle),
    ensures
        r@.next is Call,
        r@.next->method == "offer.publish"@,
        r@.next->params.text_at("drop"@) == Some(handle),
        r@.next->params.text_at("path"@) == Some(found->text->0@),
        final(sending)@.drop == old(sending)@.drop,
        final(sending)@.at == old(sending)@.at,
{
    broadcast use {added_value_is_found, nothing_is_in_an_empty_object};

    reveal_strlit("drop");
    reveal_strlit("path");
    assert("drop"@[0] == 'd' && "path"@[0] == 'p');
    assert(r@.next->params.get("drop"@) is Some && r@.next->params.get("path"@) is Some);
}

/// Each path that is published is followed by the next, and the last by the request for the link of
/// the kept drop; a path that could not be published ends the command.
pub proof fn paths_follow_one_another(
    sending: &mut Sending,
    outcome: Result<Json, ApiError>,
    r: Step,
    handle: Seq<char>,
)
    requires
        call_ensures(Sending::ended, (sending, outcome), r),
        outcome is Ok,
        0 <= old(sending)@.at < old(sending)@.paths.len(),
        old(sending)@.drop == JsonView::Text(handle),
    ensures
        outcome->Ok_0@.text_at("state"@) != Some("done"@) ==> r@.next is Fail && final(sending)@
            == old(sending)@,
        outcome->Ok_0@.text_at("state"@) == Some("done"@) ==> {
            &&& final(sending)@.at == old(sending)@.at + 1
            &&& final(sending)@.drop == old(sending)@.drop
            &&& if old(sending)@.at + 1 < old(sending)@.paths.len() {
                r@.next == (NextView::Locate { path: old(sending)@.paths[old(sending)@.at + 1] })
            } else {
                &&& r@.next is Call
                &&& r@.next->method == "drop.ticket"@
                &&& r@.next->params.text_at("drop"@) == Some(handle)
            }
        },
{
    broadcast use {added_value_is_found, nothing_is_in_an_empty_object};

    if r@.next is Call {
        assert(r@.next->params.get("drop"@) is Some);
    }
}

/// The link that the daemon gives is printed, also as a code where one was asked for.
pub proof fn the_link_is_printed(
    sending: &Sending,
    reply: Result<Json, ApiError>,
    r: Step,
    link: Seq<char>,
)
    requires
        call_ensures(Sending::ticketed, (sending, reply), r),
        reply is Ok,
        reply->Ok_0@.text_at("link"@) == Some(link),
    ensures
        r@.lines.contains("  "@ + link),
        reply->Ok_0@.text_at("web_link"@) is Some ==> r@.lines.contains(
            "  "@ + reply->Ok_0@.text_at("web_link"@)->0,
        ),
        r@.next == if sending.qr {
            NextView::Qr { link }
        } else {
            NextView::Finish
        },
{
    assert(r@.lines[3] == "  "@ + link);
    if reply->Ok_0@.text_at("web_link"@) is Some {
        assert(r@.lines[7] == "  "@ + reply->Ok_0@.text_at("web_link"@)->0);
    }
}

/// Getting joins the drop of the ticket, keeps its handle and looks for what is offered there.
pub proof fn getting_joins_and_looks(
    getting: &mut Getting,
    reply: Result<Json, ApiError>,
    r: Step,
    handle: Seq<char>,
)
    requires
        call_ensures(Getting::joined, (getting, reply), r),
        reply is Ok,
        reply->Ok_0@.text_at("drop"@) == Some(handle),
    ensures
        final(getting)@.drop == JsonView::Text(handle),
        final(getting)@.pick == old(getting)@.pick,
        r@.next is Call,
        r@.next->method == "offer.list"@,
        r@.next->params.text_at("drop"@) == Some(handle),
{
    broadcast use {added_value_is_found, nothing_is_in_an_empty_object};

    assert(r@.next->params.get("drop"@) is Some);
}

/// What is fetched is what was picked, and everything in the order of the listing where nothing
/// was; the first fetch is asked for at once, in the kept drop and into the directory that was
/// given. While nothing is offered there is a pause, until it is too late.
pub proof fn picks_or_everything_is_fetched(
    getting: &mut Getting,
    reply: Result<Json, ApiError>,
    late: bool,
    r: Step,
    handle: Seq<char>,
)
    requires
        call_ensures(Getting::listed, (getting, reply, late), r),
        reply is Ok,
        reply->Ok_0@.list_at("items"@) is Some,
        forall|i: int|
            0 <= i < reply->Ok_0@.list_at("items"@)->0.len() ==> (
            #[trigger] reply->Ok_0@.list_at("items"@)->0[i]).number_at("n"@) is Some,
        old(getting)@.drop == JsonView::Text(handle),
    ensures
        ({
            let items = reply->Ok_0@.list_at("items"@)->0;
            let params = r@.next->params;
            if items.len() == 0 {
                &&& final(getting)@ == old(getting)@
                &&& r@.next is Pause <==> !late
                &&& r@.next is Fail <==> late
            } else {
                &&& final(getting)@.at == 0
                &&& match old(getting)@.pick {
                    Some(pick) => final(getting)@.picks == seq![pick],
                    None => {
                        &&& final(getting)@.picks.len() == items.len()
                        &&& forall|i: int|
                            0 <= i < items.len() ==> #[trigger] final(getting)@.picks[i] == decimal(
                                items[i].number_at("n"@)->0 as nat,
                            )
                    },
                }
                &&& old(getting)@.out is NotText ==> r@.next is Fail
                &&& !(old(getting)@.out is NotText) ==> {
                    &&& r@.next is Call
                    &&& r@.next->method == "offer.fetch"@
                    &&& params.text_at("drop"@) == Some(handle)
                    &&& params.text_at("pick"@) == Some(final(getting)@.picks[0])
                    &&& params.text_at("out"@) == match old(getting)@.out {
                        OutDir::Path(out) => Some(out@),
                        _ => None,
                    }
                }
            }
        }),
{
    broadcast use {added_value_is_found, nothing_is_in_an_empty_object};

    reveal_strlit("drop");
    reveal_strlit("pick");
    reveal_strlit("out");
    assert("drop"@.len() == 4 && "pick"@.len() == 4 && "out"@.len() == 3);
    assert("drop"@[0] == 'd' && "pick"@[0] == 'p');
    let items = reply->Ok_0@.list_at("items"@)->0;
    if items.len() > 0 {
        assert forall|i: int| 0 <= i < items.len() implies #[trigger] shown_fields(items, "n"@)[i]
            == decimal(items[i].number_at("n"@)->0 as nat) by {
            assert(items[i].number_at("n"@) is Some);
        }
        if r@.next is Call {
            let params = r@.next->params;
            assert(params.get("drop"@) is Some && params.get("pick"@) is Some);
            assert(params.get("out"@) is Some <==> old(getting)@.out is Path);
        }
    }
}

/// After each fetch comes the next pick, whether or not the fetch succeeded, and after the last the
/// end; what failed is said with its reason.
pub proof fn picks_follow_one_another(
    getting: &mut Getting,
    outcome: Result<Json, ApiError>,
    r: Step,
    handle: Seq<char>,
)
    requires
        call_ensures(Getting::ended, (getting, outcome), r),
        outcome is Ok,
        0 <= old(getting)@.at < old(getting)@.picks.len(),
        old(getting)@.drop == JsonView::Text(handle),
        old(getting)@.out is Usual,
    ensures
        final(getting)@.at == old(getting)@.at + 1,
        final(getting)@.picks == old(getting)@.picks,
        outcome->Ok_0@.text_at("state"@) != Some("done"@) && outcome->Ok_0@.text_at("error"@)
            is Some ==> r@.lines[0] == "  \u{2717} item "@ + old(getting)@.picks[old(getting)@.at]
            + ": "@ + outcome->Ok_0@.text_at("error"@)->0,
        old(getting)@.at + 1 == old(getting)@.picks.len() ==> r@.next is Finish,
        old(getting)@.at + 1 < old(getting)@.picks.len() ==> {
            &&& r@.next is Call
            &&& r@.next->method == "offer.fetch"@
            &&& r@.next->params.text_at("drop"@) == Some(handle)
            &&& r@.next->params.text_at("pick"@) == Some(
                old(getting)@.picks[old(getting)@.at + 1],
            )
        },
{
    broadcast use {added_value_is_found, nothing_is_in_an_empty_object};

    reveal_strlit("drop");
    reveal_strlit("pick");
    assert("drop"@[0] == 'd' && "pick"@[0] == 'p');
    if r@.next is Call {
        assert(r@.next->params.get("drop"@) is Some && r@.next->params.get("pick"@) is Some);
    }
}

proof fn lemma_handles(rows: Seq<JsonView>)
    requires
        forall|i: int| 0 <= i < rows.len() ==> (#[trigger] rows[i]).text_at("drop"@) is Some,
    ensures
        handles_of(rows) == Seq::new(rows.len(), |i: int| rows[i].text_at("drop"@)->0),
    decreases rows.len(),
{
    let told = Seq::new(rows.len(), |i: int| rows[i].text_at("drop"@)->0);
    if rows.len() > 0 {
        let front = rows.drop_last();
        assert forall|i: int| 0 <= i < front.len() implies (#[trigger] front[i]).text_at("drop"@)
            is Some by {
            assert(front[i] == rows[i]);
        }
        lemma_handles(front);
        assert(rows.last() == rows[rows.len() - 1]);
        assert(handles_of(rows) =~= told);
    } else {
        assert(handles_of(rows) =~= told);
    }
}

/// Leaving everything leaves each drop that is listed, one after the other; leaving one leaves that
/// one, listed or not.
pub proof fn what_is_named_is_left(leaving: &mut Leaving, reply: Result<Json, ApiError>, r: Step)
    requires
        call_ensures(Leaving::listed, (leaving, reply), r),
        reply is Ok,
        reply->Ok_0@.list_at("drops"@) is Some,
        forall|i: int|
            0 <= i < reply->Ok_0@.list_at("drops"@)->0.len() ==> (
            #[trigger] reply->Ok_0@.list_at("drops"@)->0[i]).text_at("drop"@) is Some,
    ensures
        ({
            let rows = reply->Ok_0@.list_at("drops"@)->0;
            let handles = final(leaving)@.handles;
            &&& if old(leaving)@.drop == "all"@ {
                &&& handles.len() == rows.len()
                &&& forall|i: int|
                    0 <= i < rows.len() ==> #[trigger] handles[i] == rows[i].text_at("drop"@)->0
            } else {
                handles == seq![old(leaving)@.drop]
            }
            &&& final(leaving)@.at == 0
            &&& handles.len() == 0 ==> r@.next is Finish
            &&& handles.len() > 0 ==> {
                &&& r@.next is Call
                &&& r@.next->method == "drop.leave"@
                &&& r@.next->params.text_at("drop"@) == Some(handles[0])
            }
        }),
{
    broadcast use {added_value_is_found, nothing_is_in_an_empty_object};

    lemma_handles(reply->Ok_0@.list_at("drops"@)->0);
    if r@.next is Call {
        assert(r@.next->params.get("drop"@) is Some);
    }
}

/// After a drop was left comes the next, and after the last the end.
pub proof fn drops_are_left_one_after_the_other(
    leaving: &mut Leaving,
    reply: Result<Json, ApiError>,
    r: Step,
)
    requires
        call_ensures(Leaving::left, (leaving, reply), r),
        reply is Ok,
        0 <= old(leaving)@.at < old(leaving)@.handles.len(),
    ensures
        final(leaving)@.at == old(leaving)@.at + 1,
        final(leaving)@.handles == old(leaving)@.handles,
        old(leaving)@.at + 1 == old(leaving)@.handles.len() ==> r@.next is Finish,
        old(leaving)@.at + 1 < old(leaving)@.handles.len() ==> {
            &&& r@.next is Call
            &&& r@.next->method == "drop.leave"@
            &&& r@.next->params.text_at("drop"@) == Some(
                old(leaving)@.handles[old(leaving)@.at + 1],
            )
        },
{
    broadcast use {added_value_is_found, nothing_is_in_an_empty_object};

    if r@.next is Call {
        assert(r@.next->params.get("drop"@) is Some);
    }
}

/// Asking about drops asks for the link of the one that is named, stops hosting the one that is
/// named, or asks for the status; the link that comes back is printed as it is.
pub proof fn drops_are_asked_about(
    forget: Option<String>,
    ticket: Option<String>,
    query: DropsQuery,
    first: Step,
    reply: Result<Json, ApiError>,
    after: Step,
)
    requires
        call_ensures(DropsQuery::new, (forget, ticket), query),
        call_ensures(DropsQuery::begin, (&query,), first),
        call_ensures(DropsQuery::answered, (&query, reply), after),
    ensures
        first@.next is Call,
        match (ticket, forget) {
            (Some(handle), _) => {
                &&& first@.next->method == "drop.ticket"@
                &&& first@.next->params.text_at("drop"@) == Some(handle@)
                &&& reply is Ok && reply->Ok_0@.text_at("link"@) is Some ==> after@.lines == seq![
                    reply->Ok_0@.text_at("link"@)->0,
                ]
            },
            (None, Some(handle)) => {
                &&& first@.next->method == "drop.leave"@
                &&& first@.next->params.text_at("drop"@) == Some(handle@)
            },
            (None, None) => first@.next->method == "daemon.status"@ && (reply is Ok ==> after@.next
                is Call && after@.next->method == "drop.list"@),
        },
        reply is Err ==> after@.next is Fail,
{
    broadcast use {added_value_is_found, nothing_is_in_an_empty_object};

    assert(first@.next->params.get("drop"@) is Some <==> ticket is Some || forget is Some);
}

/// Only `y` and `yes`, in large or small letters and with white space around them, are a yes; any
/// other line, and no line at all, is a no.
pub proof fn only_y_and_yes_are_a_yes(typed: &Option<String>, r: Option<Json>)
    requires
        call_ensures(consent, (typed,), r),
    ensures
        r is Some <==> typed is Some && {
            let said = trimmed(typed->0@);
            ||| said.len() == 1 && (said[0] == 'y' || said[0] == 'Y')
            ||| {
                &&& said.len() == 3
                &&& said[0] == 'y' || said[0] == 'Y'
                &&& said[1] == 'e' || said[1] == 'E'
                &&& said[2] == 's' || said[2] == 'S'
            }
        },
        r is Some ==> r->0@.flag_at("accept"@) == Some(true),
{
    broadcast use {added_value_is_found, nothing_is_in_an_empty_object};

    reveal_strlit("y");
    reveal_strlit("yes");
    if typed is Some {
        let said = trimmed(typed->0@);
        let low = crate::text::lowered(said);
        if said.len() == 1 {
            if low == "y"@ {
                assert(low[0] == 'y');
            } else if said[0] == 'y' || said[0] == 'Y' {
                assert(low =~= "y"@);
            }
            assert("yes"@.len() == 3);
        } else if said.len() == 3 {
            assert("y"@.len() == 1);
            if low == "yes"@ {
                assert(low[0] == 'y' && low[1] == 'e' && low[2] == 's');
            } else if (said[0] == 'y' || said[0] == 'Y') && (said[1] == 'e' || said[1] == 'E') && (
            said[2] == 's' || said[2] == 'S') {
                assert(low =~= "yes"@);
            }
        } else {
            assert("y"@.len() == 1 && "yes"@.len() == 3);
        }
    }
    if r is Some {
        assert(r->0@.get("accept"@) is Some);
    }
}

/// What is watched is told: the name and size of what is offered, how far a fetch is, how many
/// files were saved and where each is, and why a fetch failed.
pub proof fn watched_events_are_told(name: &str, p: &Json, r: Shown)
    requires
        call_ensures(print_event, (name, p), r),
    ensures
        name@ == "fetch.progress"@ && p@.number_at("total"@) is Some && p@.number_at("total"@)->0
            > 0 && p@.number_at("downloaded"@) is Some ==> r@ is Over && exists|percent: nat| {
            &&& r@->Over_0 == "\r  receiving\u{2026} "@ + #[trigger] decimal(percent) + "%"@
            &&& percent * p@.number_at("total"@)->0 <= 100 * p@.number_at("downloaded"@)->0
            &&& 100 * p@.number_at("downloaded"@)->0 < (percent + 1) * p@.number_at("total"@)->0
        },
        name@ == "offer.received"@ && p@.text_at("name"@) is Some && p@.text_at("human_size"@)
            is Some ==> r@ is Lines && r@->Lines_0 == seq![
            "  offered  "@ + quoted(p@.text_at("name"@)->0) + "  ("@ + p@.text_at("human_size"@)->0
                + ")"@,
        ],
        name@ == "offer.declined"@ && p@.text_at("reason"@) is Some ==> r@ is Lines && r@->Lines_0
            == seq!["  declined "@ + p@.text_at("reason"@)->0 + " "@],
        name@ == "fetch.failed"@ && p@.text_at("error"@) is Some ==> r@ is Lines && r@->Lines_0
            == seq!["\r  \u{2717} failed: "@ + p@.text_at("error"@)->0],
        name@ == "fetch.materialized"@ && p@.list_at("paths"@) is Some ==> {
            let paths = p@.list_at("paths"@)->0;
            &&& r@ is Lines
            &&& r@->Lines_0.len() > 0
            &&& r@->Lines_0[0] == "\r  \u{2714} saved "@ + decimal(paths.len()) + " file(s)"@
            &&& forall|i: int|
                0 <= i < paths.len() && (#[trigger] paths[i]) is Text ==> r@->Lines_0.contains(
                    "      "@ + paths[i]->Text_0,
                )
        },
{
    reveal_strlit("offer.received");
    reveal_strlit("offer.declined");
    reveal_strlit("fetch.progress");
    reveal_strlit("fetch.materialized");
    reveal_strlit("fetch.failed");
    reveal_strlit("peer.joined");
    assert("offer.received"@.len() == 14 && "offer.declined"@.len() == 14
        && "fetch.progress"@.len() == 14 && "fetch.materialized"@.len() == 18
        && "fetch.failed"@.len() == 12 && "peer.joined"@.len() == 11);
    assert("offer.received"@[6] == 'r' && "offer.declined"@[6] == 'd'
        && "fetch.progress"@[6] == 'p');
    if name@ == "fetch.progress"@ && p@.number_at("total"@) is Some && p@.number_at("total"@)->0
        > 0 && p@.number_at("downloaded"@) is Some {
        let part = p@.number_at("downloaded"@)->0 as nat;
        let whole = p@.number_at("total"@)->0 as nat;
        let percent = crate::text::percent_of(part, whole);
        assert(percent * whole <= part * 100 < (percent + 1) * whole) by (nonlinear_arith)
            requires
                percent == part * 100 / whole,
                whole > 0,
        ;
        assert(r@->Over_0 == "\r  receiving\u{2026} "@ + decimal(percent) + "%"@);
    }
    if name@ == "fetch.materialized"@ && p@.list_at("paths"@) is Some {
        let paths = p@.list_at("paths"@)->0;
        let told = crate::commands::path_lines(paths);
        lemma_path_lines(paths);
        assert forall|i: int|
            0 <= i < paths.len() && (#[trigger] paths[i]) is Text implies r@->Lines_0.contains(
            "      "@ + paths[i]->Text_0,
        ) by {
            let line = "      "@ + paths[i]->Text_0;
            assert(told.contains(line));
            let k = choose|k: int| 0 <= k < told.len() && told[k] == line;
            assert(r@->Lines_0[k + 1] == line);
        }
    }
}

proof fn lemma_path_lines(paths: Seq<JsonView>)
    ensures
        forall|i: int|
            0 <= i < paths.len() && (#[trigger] paths[i]) is Text ==> crate::commands::path_lines(
                paths,
            ).contains("      "@ + paths[i]->Text_0),
    decreases paths.len(),
{
    if paths.len() > 0 {
        let front = paths.drop_last();
        lemma_path_lines(front);
        let a = crate::commands::path_lines(front);
        let b = crate::commands::path_lines(paths);
        assert forall|i: int|
            0 <= i < paths.len() && (#[trigger] paths[i]) is Text implies b.contains(
            "      "@ + paths[i]->Text_0,
        ) by {
            let line = "      "@ + paths[i]->Text_0;
            if i < front.len() {
                assert(front[i] == paths[i]);
                let k = choose|k: int| 0 <= k < a.len() && a[k] == line;
                assert(b[k] == line);
            } else {
                assert(b[b.len() - 1] == line);
            }
        }
    }
}

/// What is on offer is printed item by item, with its number, its name, its size and what it is.
pub proof fn offered_items_are_printed(
    getting: &mut Getting,
    reply: Result<Json, ApiError>,
    late: bool,
    r: Step,
    i: int,
)
    requires
        call_ensures(Getting::listed, (getting, reply, late), r),
        reply is Ok,
        reply->Ok_0@.list_at("items"@) is Some,
        0 <= i < reply->Ok_0@.list_at("items"@)->0.len(),
        ({
            let item = reply->Ok_0@.list_at("items"@)->0[i];
            &&& item.number_at("n"@) is Some
            &&& item.text_at("name"@) is Some
            &&& item.text_at("human_size"@) is Some
            &&& item.text_at("kind"@) is Some
        }),
        old(getting)@.out is Usual,
    ensures
        ({
            let item = reply->Ok_0@.list_at("items"@)->0[i];
            let line = r@.lines[i + 1];
            &&& ("  "@ + decimal(item.number_at("n"@)->0 as nat) + "  "@ + item.text_at(
                "name"@,
            )->0).is_prefix_of(line)
            &&& (item.text_at("human_size"@)->0 + "  "@ + item.text_at("kind"@)->0).is_suffix_of(
                line,
            )
        }),
{
    let items = reply->Ok_0@.list_at("items"@)->0;
    let item = items[i];
    let number = decimal(item.number_at("n"@)->0 as nat);
    let name = item.text_at("name"@)->0;
    let size = item.text_at("human_size"@)->0;
    let kind = item.text_at("kind"@)->0;
    assert(shown_fields(items, "n"@)[i] == number);
    let line = r@.lines[i + 1];
    assert(line == crate::commands::item_row(item, number));
    let front = "  "@ + number + "  "@ + name;
    let back = size + "  "@ + kind;
    assert(line.subrange(0, front.len() as int) =~= front);
    assert(line.subrange(line.len() - back.len(), line.len() as int) =~= back);
}

/// The daemon is told by its id, its network and where its downloads go.
pub proof fn the_daemon_is_told(query: &DropsQuery, reply: Result<Json, ApiError>, r: Step)
    requires
        call_ensures(DropsQuery::answered, (query, reply), r),
        query is Status,
        reply is Ok,
        reply->Ok_0@.text_at("endpoint_id"@) is Some,
        reply->Ok_0@.text_at("download_dir"@) is Some,
    ensures
        r@.lines.len() == 1,
        ("daemon "@ + reply->Ok_0@.text_at("endpoint_id"@)->0 + "  "@ + (if reply->Ok_0@.flag_at(
            "offline"@,
        ) == Some(true) {
            "LAN only (no relays)"@
        } else {
            "internet + LAN"@
        })).is_prefix_of(r@.lines[0]),
        reply->Ok_0@.text_at("download_dir"@)->0.is_suffix_of(r@.lines[0]),
{
    let line = r@.lines[0];
    let front = "daemon "@ + reply->Ok_0@.text_at("endpoint_id"@)->0 + "  "@ + (
    if reply->Ok_0@.flag_at("offline"@) == Some(true) {
        "LAN only (no relays)"@
    } else {
        "internet + LAN"@
    });
    let back = reply->Ok_0@.text_at("download_dir"@)->0;
    assert(line.subrange(0, front.len() as int) =~= front);
    assert(line.subrange(line.len() - back.len(), line.len() as int) =~= back);
}

/// Joining says under which handle, and whether the group had been joined before.
pub proof fn joining_says_under_which_handle(
    reply: Result<Json, ApiError>,
    r: Step,
    handle: Seq<char>,
)
    requires
        call_ensures(join_done, (reply,), r),
        reply is Ok,
        reply->Ok_0@.text_at("drop"@) == Some(handle),
    ensures
        r@.next is Finish,
        r@.lines.len() > 0,
        reply->Ok_0@.flag_at("already"@) == Some(true) ==> ("Already in that group as "@
            + handle).is_prefix_of(r@.lines[0]),
        reply->Ok_0@.flag_at("already"@) != Some(true) ==> ("Joined as "@ + handle
            + "."@).is_prefix_of(r@.lines[0]),
{
    let line = r@.lines[0];
    if reply->Ok_0@.flag_at("already"@) == Some(true) {
        let front = "Already in that group as "@ + handle;
        assert(line.subrange(0, front.len() as int) =~= front);
    } else {
        let front = "Joined as "@ + handle + "."@;
        reveal_strlit(".");
        reveal_strlit(". You stay in the group until you leave it (`iroh-drop leave ");
        assert(line.subrange(0, front.len() as int) =~= front);
    }
}

/// Items that are listed with numbers of their own are fetched by those numbers.
pub proof fn numbered_items_are_fetched_by_number(
    getting: &mut Getting,
    reply: Result<Json, ApiError>,
    numbers: &Vec<String>,
    late: bool,
    r: Step,
    handle: Seq<char>,
)
    requires
        call_ensures(Getting::listed_by, (getting, reply, numbers, late), r),
        reply is Ok,
        reply->Ok_0@.list_at("items"@) is Some,
        reply->Ok_0@.list_at("items"@)->0.len() > 0,
        numbers@.len() == reply->Ok_0@.list_at("items"@)->0.len(),
        old(getting)@.drop == JsonView::Text(handle),
        old(getting)@.out is Usual,
    ensures
        match old(getting)@.pick {
            Some(pick) => final(getting)@.picks == seq![pick],
            None => final(getting)@.picks == texts(numbers@),
        },
        r@.next is Call,
        r@.next->method == "offer.fetch"@,
        r@.next->params.text_at("drop"@) == Some(handle),
        r@.next->params.text_at("pick"@) == Some(final(getting)@.picks[0]),
{
    broadcast use {added_value_is_found, nothing_is_in_an_empty_object};

    reveal_strlit("drop");
    reveal_strlit("pick");
    assert("drop"@[0] == 'd' && "pick"@[0] == 'p');
    let params = r@.next->params;
    assert(texts(numbers@).len() == numbers@.len());
    assert(params.get("drop"@) is Some && params.get("pick"@) is Some);
}

} // verus!

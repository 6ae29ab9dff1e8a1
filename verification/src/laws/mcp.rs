//! What the tools for agents promise of the calls they make and the replies they give.

use crate::frame::{ApiError, Envelope};
use crate::json::{
    added_value_is_found, nothing_is_in_an_empty_object, object, set_value_is_there, Json, JsonView,
};
use crate::mcp::{
    call_tool, dispatch, last_of, tool_err, tool_text, tools, tools_json, wait_task, RpcStep,
    ToolError, ToolErrorView, ToolRun, ToolRunView, ToolStep, ToolStepView,
};
use crate::ticket::{app_link_gives_ticket_back, app_link_text, Prefixes};
use vstd::prelude::*;

verus! {

proof fn lemma_tools_differ()
    ensures
        "create_drop"@ != "list_drops"@,
        "join_drop"@ != "list_drops"@,
        "join_drop"@ != "create_drop"@,
        "leave_drop"@ != "list_drops"@,
        "leave_drop"@ != "create_drop"@,
        "leave_drop"@ != "join_drop"@,
        "list_offers"@ != "list_drops"@,
        "list_offers"@ != "create_drop"@,
        "list_offers"@ != "join_drop"@,
        "list_offers"@ != "leave_drop"@,
        "share_files"@ != "list_drops"@,
        "share_files"@ != "create_drop"@,
        "share_files"@ != "join_drop"@,
        "share_files"@ != "leave_drop"@,
        "share_files"@ != "list_offers"@,
        "fetch"@ != "list_drops"@,
        "fetch"@ != "create_drop"@,
        "fetch"@ != "join_drop"@,
        "fetch"@ != "leave_drop"@,
        "fetch"@ != "list_offers"@,
        "fetch"@ != "share_files"@,
        "drop_events"@ != "list_drops"@,
        "drop_events"@ != "create_drop"@,
        "drop_events"@ != "join_drop"@,
        "drop_events"@ != "leave_drop"@,
        "drop_events"@ != "list_offers"@,
        "drop_events"@ != "share_files"@,
        "drop_events"@ != "fetch"@,
{
    reveal_strlit("list_drops");
    reveal_strlit("create_drop");
    reveal_strlit("join_drop");
    reveal_strlit("leave_drop");
    reveal_strlit("list_offers");
    reveal_strlit("share_files");
    reveal_strlit("fetch");
    reveal_strlit("drop_events");
    assert("list_drops"@.len() == 10 && "create_drop"@.len() == 11 && "join_drop"@.len() == 9
        && "leave_drop"@.len() == 10 && "list_offers"@.len() == 11 && "share_files"@.len() == 11
        && "fetch"@.len() == 5 && "drop_events"@.len() == 11);
    assert("list_drops"@[1] == 'i' && "leave_drop"@[1] == 'e');
    assert("create_drop"@[0] == 'c' && "list_offers"@[0] == 'l' && "share_files"@[0] == 's'
        && "drop_events"@[0] == 'd');
}

/// A tool about a drop asks the daemon about the drop that its arguments name, and fails without
/// asking where they name none.
pub proof fn tools_ask_about_the_drop_they_name(name: &str, args: &Json, r: ToolStep)
    requires
        call_ensures(call_tool, (name, args), r),
        name@ == "leave_drop"@ || name@ == "list_offers"@ || name@ == "fetch"@ || name@
            == "share_files"@,
    ensures
        args@.text_at("drop"@) is None ==> r@ is Failed && r@->Failed_0 is Daemon,
        r@ is Call ==> {
            let params = r@->params;
            &&& params.text_at("drop"@) == args@.text_at("drop"@)
            &&& name@ == "leave_drop"@ ==> r@->method == "drop.leave"@ && params.get("forget"@)
                == Some(
                match args@.get("forget"@) {
                    Some(forget) => forget,
                    None => JsonView::Bool(false),
                },
            )
            &&& name@ == "list_offers"@ ==> r@->method == "offer.list"@
            &&& name@ == "fetch"@ ==> {
                &&& r@->method == "offer.fetch"@
                &&& params.text_at("pick"@) == args@.text_at("pick"@)
                &&& params.text_at("out"@) == args@.text_at("out"@)
            }
            &&& name@ == "share_files"@ ==> {
                &&& r@->method == "offer.publish"@
                &&& args@.list_at("paths"@) is Some
                &&& args@.list_at("paths"@)->0.len() > 0
                &&& params.text_at("path"@) == args@.list_at("paths"@)->0[0].text()
                &&& params.text_at("name"@) == args@.text_at("name"@)
            }
        },
        args@.text_at("drop"@) is Some ==> {
            &&& name@ == "leave_drop"@ || name@ == "list_offers"@ ==> r@ is Call
            &&& name@ == "fetch"@ ==> (r@ is Call <==> args@.text_at("pick"@) is Some)
        },
{
    broadcast use {added_value_is_found, nothing_is_in_an_empty_object};

    lemma_tools_differ();
    reveal_strlit("drop");
    reveal_strlit("forget");
    reveal_strlit("pick");
    reveal_strlit("out");
    reveal_strlit("path");
    reveal_strlit("name");
    assert("drop"@.len() == 4 && "forget"@.len() == 6 && "pick"@.len() == 4 && "out"@.len() == 3
        && "path"@.len() == 4 && "name"@.len() == 4);
    assert("drop"@[2] == 'o' && "pick"@[2] == 'c' && "path"@[2] == 't' && "name"@[2] == 'm');
    if r@ is Call {
        let params = r@->params;
        assert(params.get("drop"@) is Some);
        assert(params.get("forget"@) is Some <==> name@ == "leave_drop"@);
        assert(params.get("pick"@) is Some <==> name@ == "fetch"@);
        assert(params.get("out"@) is Some <==> name@ == "fetch"@);
        assert(params.get("path"@) is Some <==> name@ == "share_files"@);
        assert(params.get("name"@) is Some <==> name@ == "share_files"@);
    }
}

/// The other tools ask for what they are named after: the drops, a new drop under the given name,
/// and the events from the given number on, of which at most 200 are wanted and 50 where nothing is
/// said. A name that no tool has is unknown.
pub proof fn tools_ask_for_what_they_are_named_after(name: &str, args: &Json, r: ToolStep)
    requires
        call_ensures(call_tool, (name, args), r),
    ensures
        name@ == "list_drops"@ ==> r@ is Call && r@->method == "drop.list"@,
        name@ == "create_drop"@ ==> {
            &&& r@ is Call
            &&& r@->method == "drop.create"@
            &&& r@->params.text_at("name"@) == args@.text_at("name"@)
            &&& r@->Call_run is Create
        },
        name@ == "drop_events"@ ==> {
            &&& r@ is Call
            &&& r@->method == "events.replay"@
            &&& r@->params.number_at("from"@) == Some(
                match args@.number_at("from"@) {
                    Some(n) => n,
                    None => 0,
                },
            )
            &&& r@->Call_run is Events
            &&& r@->Call_run->limit <= 200
            &&& match args@.number_at("limit"@) {
                Some(n) => n <= 200 ==> r@->Call_run->limit == n,
                None => r@->Call_run->limit == 50,
            }
            &&& args@.number_at("limit"@) is Some && args@.number_at("limit"@)->0 > 200
                ==> r@->Call_run->limit == 200
        },
        r@ == ToolStepView::Failed(ToolErrorView::UnknownTool) <==> {
            &&& name@ != "list_drops"@
            &&& name@ != "create_drop"@
            &&& name@ != "join_drop"@
            &&& name@ != "leave_drop"@
            &&& name@ != "list_offers"@
            &&& name@ != "share_files"@
            &&& name@ != "fetch"@
            &&& name@ != "drop_events"@
        },
{
    broadcast use {added_value_is_found, nothing_is_in_an_empty_object};

    lemma_tools_differ();
    if name@ == "create_drop"@ {
        assert(r@->params.get("name"@) is Some);
    }
    if name@ == "drop_events"@ {
        assert(r@->params.get("from"@) is Some);
    }
}

/// Joining takes a ticket or a link to one, and joins the drop of that ticket.
pub proof fn joining_takes_tickets_and_links(
    name: &str,
    args: &Json,
    r: ToolStep,
    ticket: Seq<char>,
)
    requires
        call_ensures(call_tool, (name, args), r),
        name@ == "join_drop"@,
        "drop1"@.is_prefix_of(ticket),
        ticket.len() > 32,
        forall|i: int|
            0 <= i < ticket.len() ==> 'a' <= #[trigger] ticket[i] <= 'z' || '0' <= ticket[i]
                <= '9',
        args@.text_at("ticket_or_link"@) == Some(app_link_text(ticket)),
    ensures
        r@ is Call,
        r@->method == "drop.join"@,
        r@->params.text_at("ticket"@) == Some(ticket),
{
    broadcast use {added_value_is_found, nothing_is_in_an_empty_object};

    lemma_tools_differ();
    reveal_strlit("drop1");
    assert(ticket.subrange(0, 5) =~= "drop1"@);
    app_link_gives_ticket_back(ticket, Prefixes::Any);
    assert(r@->params.get("ticket"@) is Some);
}

/// What the daemon says is what a plain tool gives back; a new drop is given back with a link to
/// its ticket, the daemon's own where it gave one; what the daemon refuses fails with its reason.
pub proof fn replies_are_given_back(run: ToolRun, reply: Result<Json, ApiError>, r: ToolStep)
    requires
        call_ensures(ToolRun::on_reply, (run, reply), r),
    ensures
        reply is Err ==> r@ == ToolStepView::Failed(
            ToolErrorView::Daemon(reply->Err_0.code@ + ": "@ + reply->Err_0.msg@),
        ),
        reply is Ok && run is Plain ==> r@ == ToolStepView::Done(reply->Ok_0@),
        reply is Ok && run is Create && reply->Ok_0@.text_at("ticket"@) is Some ==> {
            let ticket = reply->Ok_0@.text_at("ticket"@)->0;
            &&& r@ is Done
            &&& r@->Done_0.text_at("ticket"@) == Some(ticket)
            &&& r@->Done_0.text_at("link"@) == match reply->Ok_0@.text_at("link"@) {
                Some(link) => Some(link),
                None => Some("iroh-drop://receive/"@ + ticket),
            }
            &&& r@->Done_0.text_at("drop"@) == reply->Ok_0@.text_at("drop"@)
        },
        reply is Ok && (run is Fetch || run is Share) && reply->Ok_0@.text_at("task"@) is Some
            ==> r@ is Wait && r@->Wait_task == reply->Ok_0@.text_at("task"@)->0,
{
    reveal_strlit("ticket");
    reveal_strlit("link");
    reveal_strlit("drop");
    assert("ticket"@.len() == 6 && "link"@.len() == 4 && "drop"@.len() == 4);
    assert("link"@[0] == 'l' && "drop"@[0] == 'd');
    if reply is Ok && run is Create && reply->Ok_0@.text_at("ticket"@) is Some {
        let v = reply->Ok_0@;
        let link = JsonView::Text(
            match v.text_at("link"@) {
                Some(link) => link,
                None => "iroh-drop://receive/"@ + v.text_at("ticket"@)->0,
            },
        );
        set_value_is_there(v, "link"@, link, "ticket"@);
        set_value_is_there(v, "link"@, link, "drop"@);
    }
}

/// Of the events that come back the last ones are kept, in their order and as many as were wanted.
pub proof fn the_last_events_are_kept(
    run: ToolRun,
    reply: Result<Json, ApiError>,
    r: ToolStep,
    i: int,
)
    requires
        call_ensures(ToolRun::on_reply, (run, reply), r),
        run is Events,
        reply is Ok,
        reply->Ok_0@.list_at("events"@) is Some,
    ensures
        r@ is Done,
        r@->Done_0.list_at("events"@) is Some,
        ({
            let all = reply->Ok_0@.list_at("events"@)->0;
            let kept = r@->Done_0.list_at("events"@)->0;
            &&& kept.len() == if all.len() < run->limit {
                all.len()
            } else {
                run->limit as nat
            }
            &&& 0 <= i < kept.len() ==> kept[i] == all[all.len() - kept.len() + i]
        }),
        r@->Done_0.get("truncated"@) == reply->Ok_0@.get("truncated"@),
{
    reveal_strlit("events");
    reveal_strlit("truncated");
    assert("events"@.len() == 6 && "truncated"@.len() == 9);
    let v = reply->Ok_0@;
    let all = v.list_at("events"@)->0;
    let limit = run->limit as nat;
    set_value_is_there(v, "events"@, JsonView::List(last_of(all, limit)), "truncated"@);
}

/// A fetch ends with its task and how that came out; a file that was shared is noted with its path,
/// its task and how that came out, and then comes the next; when all are shared all the notes are
/// given back.
pub proof fn outcomes_are_noted(run: ToolRun, outcome: Result<Json, ToolError>, r: ToolStep)
    requires
        call_ensures(ToolRun::on_task, (run, outcome), r),
        outcome is Ok,
        run is Fetch || run is Share,
        run is Share ==> run->Share_0@.published.len() < run->Share_0@.paths.len(),
        run is Share ==> run->Share_0@.name is None,
    ensures
        run is Fetch ==> {
            &&& r@ is Done
            &&& r@->Done_0.text_at("task"@) == Some(run->Fetch_task@)
            &&& r@->Done_0.get("outcome"@) == Some(outcome->Ok_0@)
        },
        run is Share ==> {
            let s = run->Share_0@;
            let at = s.published.len() as int;
            let noted = match r@ {
                ToolStepView::Call { run: ToolRunView::Share(next), .. } => next.published,
                ToolStepView::Done(v) => v.list_at("published"@)->0,
                _ => arbitrary(),
            };
            let told = {
                &&& noted.len() == at + 1
                &&& noted.drop_last() == s.published
                &&& noted.last().get("path"@) == Some(s.paths[at])
                &&& noted.last().text_at("task"@) == Some(s.task)
                &&& noted.last().get("outcome"@) == Some(outcome->Ok_0@)
            };
            &&& at + 1 == s.paths.len() ==> r@ is Done && told
            &&& at + 1 < s.paths.len() && s.paths[at + 1] is Text ==> {
                &&& r@ is Call
                &&& r@->method == "offer.publish"@
                &&& r@->params.text_at("drop"@) == Some(s.drop)
                &&& r@->params.text_at("path"@) == Some(s.paths[at + 1]->Text_0)
                &&& r@->Call_run is Share
                &&& told
            }
        },
{
    broadcast use {added_value_is_found, nothing_is_in_an_empty_object};

    reveal_strlit("task");
    reveal_strlit("outcome");
    reveal_strlit("path");
    reveal_strlit("drop");
    reveal_strlit("name");
    reveal_strlit("published");
    assert("task"@.len() == 4 && "outcome"@.len() == 7 && "path"@.len() == 4
        && "drop"@.len() == 4 && "name"@.len() == 4 && "published"@.len() == 9);
    assert("task"@[0] == 't' && "path"@[0] == 'p' && "drop"@[0] == 'd' && "name"@[0] == 'n');
    if run is Fetch {
        assert(r@->Done_0.get("task"@) is Some && r@->Done_0.get("outcome"@) is Some);
    } else {
        let s = run->Share_0@;
        let at = s.published.len() as int;
        let note = object().with("path"@, s.paths[at]).with("task"@, JsonView::Text(s.task)).with(
            "outcome"@,
            outcome->Ok_0@,
        );
        assert(note.get("path"@) is Some);
        assert(note.get("task"@) is Some);
        assert(note.get("outcome"@) is Some);
        assert(s.published.push(note).drop_last() =~= s.published);
        if at + 1 == s.paths.len() {
            assert(r@->Done_0.get("published"@) is Some);
        } else if s.paths[at + 1] is Text {
            assert(r@->params.get("drop"@) is Some && r@->params.get("path"@) is Some);
        }
    }
}

/// A task that is waited for tells its state and its error, as the event says them; one that takes
/// too long is said to be running, and any other failure is a failure.
pub proof fn awaited_tasks_are_told(waited: Result<Envelope, ApiError>, r: Result<Json, ToolError>)
    requires
        call_ensures(wait_task, (waited,), r),
    ensures
        waited is Ok ==> {
            &&& r is Ok
            &&& waited->Ok_0.p@.text_at("state"@) is Some ==> r->Ok_0@.text_at("state"@)
                == waited->Ok_0.p@.text_at("state"@)
            &&& r->Ok_0@.text_at("error"@) == waited->Ok_0.p@.text_at("error"@)
        },
        waited is Err && waited->Err_0.code@ == "timeout"@ ==> r is Ok && r->Ok_0@.text_at(
            "state"@,
        ) == Some("running"@),
        waited is Err && waited->Err_0.code@ != "timeout"@ ==> r is Err,
{
    broadcast use {added_value_is_found, nothing_is_in_an_empty_object};

    reveal_strlit("state");
    reveal_strlit("error");
    reveal_strlit("note");
    assert("state"@.len() == 5 && "error"@.len() == 5 && "note"@.len() == 4);
    assert("state"@[0] == 's' && "error"@[0] == 'e');
    if r is Ok {
        assert(r->Ok_0@.get("state"@) is Some);
        assert(r->Ok_0@.get("error"@) is Some <==> waited is Ok);
    }
}

/// Every reply carries the number of its request and the version of the protocol; a message without
/// a number gets none. A method that is not there is an error of its own kind.
pub proof fn replies_carry_the_number_of_their_request(msg: &Json, version: &str, r: RpcStep)
    requires
        call_ensures(dispatch, (msg, version), r),
    ensures
        r is Ignore <==> msg@.get("id"@) is None,
        r is Reply ==> {
            &&& r->Reply_0@.get("id"@) == msg@.get("id"@)
            &&& r->Reply_0@.text_at("jsonrpc"@) == Some("2.0"@)
        },
        r is Tool ==> Some(r->Tool_id@) == msg@.get("id"@),
        msg@.get("id"@) is Some ==> {
            let method = msg@.text_at("method"@);
            &&& r is Tool <==> method == Some("tools/call"@)
            &&& method == Some("initialize"@) ==> {
                let told = r->Reply_0@.get("result"@);
                &&& told is Some
                &&& told->0.text_at("protocolVersion"@) == Some("2025-03-26"@)
                &&& told->0.get("serverInfo"@) is Some
                &&& told->0.get("serverInfo"@)->0.text_at("name"@) == Some("iroh-drop-mcp"@)
                &&& told->0.get("serverInfo"@)->0.text_at("version"@) == Some(version@)
            }
            &&& method == Some("ping"@) ==> r->Reply_0@.get("result"@) == Some(object())
            &&& r->Reply_0@.get("error"@) is Some && r is Reply <==> {
                &&& method != Some("initialize"@)
                &&& method != Some("ping"@)
                &&& method != Some("tools/list"@)
                &&& method != Some("tools/call"@)
            }
            &&& r is Reply && r->Reply_0@.get("error"@) is Some ==> r->Reply_0@.get(
                "error"@,
            )->0.get("code"@) == Some(JsonView::Negative((-32601int) as i64))
        },
{
    broadcast use {added_value_is_found, nothing_is_in_an_empty_object};

    reveal_strlit("initialize");
    reveal_strlit("ping");
    reveal_strlit("tools/list");
    reveal_strlit("tools/call");
    assert("initialize"@.len() == 10 && "ping"@.len() == 4 && "tools/list"@.len() == 10
        && "tools/call"@.len() == 10);
    assert("initialize"@[8] == 'z' && "tools/list"@[8] == 's' && "tools/call"@[8] == 'l');
    reveal_strlit("jsonrpc");
    reveal_strlit("id");
    reveal_strlit("result");
    reveal_strlit("error");
    assert("jsonrpc"@.len() == 7 && "id"@.len() == 2 && "result"@.len() == 6
        && "error"@.len() == 5);
    reveal_strlit("code");
    reveal_strlit("message");
    assert("code"@.len() == 4 && "message"@.len() == 7);
    reveal_strlit("protocolVersion");
    reveal_strlit("capabilities");
    reveal_strlit("serverInfo");
    reveal_strlit("instructions");
    assert("protocolVersion"@.len() == 15 && "capabilities"@.len() == 12
        && "serverInfo"@.len() == 10 && "instructions"@.len() == 12);
    assert("capabilities"@[0] == 'c' && "instructions"@[0] == 'i');
    reveal_strlit("name");
    reveal_strlit("version");
    assert("name"@.len() == 4 && "version"@.len() == 7);
    reveal_strlit("");
    if r is Reply {
        let v = r->Reply_0@;
        assert(v.get("id"@) is Some && v.get("jsonrpc"@) is Some);
        assert(v.get("error"@) is Some || v.get("result"@) is Some);
        assert(!(v.get("error"@) is Some && v.get("result"@) is Some));
        if v.get("error"@) is Some {
            assert(v.get("error"@)->0.get("code"@) is Some);
        }
        if msg@.text_at("method"@) == Some("initialize"@) {
            let told = v.get("result"@)->0;
            assert(told == crate::mcp::introduction(version@));
            assert(told.get("protocolVersion"@) is Some && told.get("serverInfo"@) is Some);
            let info = told.get("serverInfo"@)->0;
            assert(info.get("name"@) is Some && info.get("version"@) is Some);
        }
    }
}

/// What a tool says is its reply's text; a failure says that it is one, and an unknown tool is an
/// error of the request.
pub proof fn failures_say_that_they_are(id: Json, name: &str, e: ToolError, r: Json)
    requires
        call_ensures(tool_err, (id, name, e), r),
    ensures
        r@.get("id"@) == Some(id@),
        e is UnknownTool ==> r@.get("result"@) is None && r@.get("error"@) is Some && r@.get(
            "error"@,
        )->0.get("code"@) == Some(JsonView::Negative((-32602int) as i64)),
        e is Daemon ==> {
            let told = r@.get("result"@);
            &&& told is Some
            &&& told->0.flag_at("isError"@) == Some(true)
            &&& told->0.list_at("content"@) is Some
            &&& told->0.list_at("content"@)->0.len() == 1
            &&& told->0.list_at("content"@)->0[0].text_at("text"@) == Some(e->Daemon_0@)
        },
{
    broadcast use {added_value_is_found, nothing_is_in_an_empty_object};

    reveal_strlit("jsonrpc");
    reveal_strlit("id");
    reveal_strlit("result");
    reveal_strlit("error");
    assert("jsonrpc"@.len() == 7 && "id"@.len() == 2 && "result"@.len() == 6
        && "error"@.len() == 5);
    reveal_strlit("code");
    reveal_strlit("message");
    assert("code"@.len() == 4 && "message"@.len() == 7);
    reveal_strlit("content");
    reveal_strlit("isError");
    assert("content"@[0] == 'c' && "isError"@[0] == 'i');
    reveal_strlit("type");
    reveal_strlit("text");
    assert("type"@[1] == 'y' && "text"@[1] == 'e');
    assert(r@.get("id"@) is Some);
    assert(r@.get("error"@) is Some <==> e is UnknownTool);
    assert(r@.get("result"@) is Some <==> e is Daemon);
    if e is UnknownTool {
        assert(r@.get("error"@)->0.get("code"@) is Some);
    } else {
        let told = r@.get("result"@)->0;
        assert(told.get("isError"@) is Some && told.get("content"@) is Some);
        let said = told.list_at("content"@)->0[0];
        assert(said.get("text"@) is Some);
    }
}

/// A text that a tool gives back is its reply's text, and not a failure.
pub proof fn texts_are_given_back(id: Json, text: &str, r: Json)
    requires
        call_ensures(tool_text, (id, text), r),
    ensures
        r@.get("id"@) == Some(id@),
        r@.get("error"@) is None,
        r@.get("result"@) is Some,
        r@.get("result"@)->0.flag_at("isError"@) is None,
        r@.get("result"@)->0.list_at("content"@) is Some,
        r@.get("result"@)->0.list_at("content"@)->0.len() == 1,
        r@.get("result"@)->0.list_at("content"@)->0[0].text_at("text"@) == Some(text@),
{
    broadcast use {added_value_is_found, nothing_is_in_an_empty_object};

    reveal_strlit("jsonrpc");
    reveal_strlit("id");
    reveal_strlit("result");
    reveal_strlit("error");
    assert("jsonrpc"@.len() == 7 && "id"@.len() == 2 && "result"@.len() == 6
        && "error"@.len() == 5);
    reveal_strlit("content");
    reveal_strlit("isError");
    assert("content"@[0] == 'c' && "isError"@[0] == 'i');
    reveal_strlit("type");
    reveal_strlit("text");
    assert("type"@[1] == 'y' && "text"@[1] == 'e');
    assert(r@.get("id"@) is Some && r@.get("error"@) is None && r@.get("result"@) is Some);
    let told = r@.get("result"@)->0;
    assert(told.get("isError"@) is None && told.get("content"@) is Some);
    let said = told.list_at("content"@)->0[0];
    assert(said.get("text"@) is Some);
}

/// What a tool says that it needs is what it fails without.
pub proof fn tools_fail_without_what_they_need(
    i: int,
    key: Seq<char>,
    name: &str,
    args: &Json,
    r: ToolStep,
)
    requires
        0 <= i < tools_json()->List_0.len(),
        tools_json()->List_0[i].text_at("name"@) == Some(name@),
        tools_json()->List_0[i].get("inputSchema"@) is Some,
        tools_json()->List_0[i].get("inputSchema"@)->0.list_at("required"@) is Some,
        tools_json()->List_0[i].get("inputSchema"@)->0.list_at("required"@)->0.contains(
            JsonView::Text(key),
        ),
        args@.get(key) is None,
        call_ensures(call_tool, (name, args), r),
    ensures
        r@ is Failed,
        r@ != ToolStepView::Failed(ToolErrorView::UnknownTool),
{
    broadcast use {added_value_is_found, nothing_is_in_an_empty_object};

    reveal_strlit("name");
    reveal_strlit("description");
    reveal_strlit("inputSchema");
    assert("name"@.len() == 4 && "description"@.len() == 11 && "inputSchema"@.len() == 11);
    assert("description"@[0] == 'd' && "inputSchema"@[0] == 'i');
    reveal_strlit("type");
    reveal_strlit("properties");
    reveal_strlit("required");
    assert("type"@.len() == 4 && "properties"@.len() == 10 && "required"@.len() == 8);
    lemma_tools_differ();
    let t = tools_json()->List_0[i];
    assert(t.get("name"@) is Some && t.get("inputSchema"@) is Some);
    let s = t.get("inputSchema"@)->0;
    let needed = s.list_at("required"@)->0;
    assert(s.get("required"@) is Some);
    let k = choose|k: int| 0 <= k < needed.len() && needed[k] == JsonView::Text(key);
    if i == 2 {
        assert(needed =~= seq![JsonView::Text("ticket_or_link"@)]);
    } else if i == 3 || i == 4 {
        assert(needed =~= seq![JsonView::Text("drop"@)]);
    } else if i == 5 {
        assert(needed =~= seq![JsonView::Text("drop"@), JsonView::Text("paths"@)]);
    } else if i == 6 {
        assert(needed =~= seq![JsonView::Text("drop"@), JsonView::Text("pick"@)]);
    }
}

/// The tools that are listed say what they need: a drop where they are about one, what to join,
/// what to share and what to fetch.
pub proof fn tools_say_what_they_need(r: Json)
    requires
        call_ensures(tools, (), r),
    ensures
        r@ is List,
        r@->List_0.len() == 8,
        ({
            let needs = |i: int| r@->List_0[i].get("inputSchema"@)->0.list_at("required"@);
            &&& r@->List_0[0].text_at("name"@) == Some("list_drops"@) && needs(0) is None
            &&& r@->List_0[1].text_at("name"@) == Some("create_drop"@) && needs(1) is None
            &&& r@->List_0[2].text_at("name"@) == Some("join_drop"@) && needs(2) == Some(
                seq![JsonView::Text("ticket_or_link"@)],
            )
            &&& r@->List_0[3].text_at("name"@) == Some("leave_drop"@) && needs(3) == Some(
                seq![JsonView::Text("drop"@)],
            )
            &&& r@->List_0[4].text_at("name"@) == Some("list_offers"@) && needs(4) == Some(
                seq![JsonView::Text("drop"@)],
            )
            &&& r@->List_0[5].text_at("name"@) == Some("share_files"@) && needs(5) == Some(
                seq![JsonView::Text("drop"@), JsonView::Text("paths"@)],
            )
            &&& r@->List_0[6].text_at("name"@) == Some("fetch"@) && needs(6) == Some(
                seq![JsonView::Text("drop"@), JsonView::Text("pick"@)],
            )
            &&& r@->List_0[7].text_at("name"@) == Some("drop_events"@) && needs(7) is None
        }),
{
    broadcast use {added_value_is_found, nothing_is_in_an_empty_object};

    reveal_strlit("name");
    reveal_strlit("description");
    reveal_strlit("inputSchema");
    assert("name"@.len() == 4 && "description"@.len() == 11 && "inputSchema"@.len() == 11);
    assert("description"@[0] == 'd' && "inputSchema"@[0] == 'i');
    reveal_strlit("type");
    reveal_strlit("properties");
    reveal_strlit("required");
    assert("type"@.len() == 4 && "properties"@.len() == 10 && "required"@.len() == 8);
    assert(r@ == tools_json());
    assert forall|i: int| 0 <= i < 8 implies {
        let t = #[trigger] r@->List_0[i];
        t.get("name"@) is Some && t.get("inputSchema"@) is Some
    } by {
        let t = r@->List_0[i];
        assert(t.get("name"@) is Some && t.get("inputSchema"@) is Some);
    }
    lemma_needs(r@->List_0[0].get("inputSchema"@)->0, object(), Seq::empty());
    let a = r@->List_0[1].get("inputSchema"@)->0;
    lemma_needs(a, a.get("properties"@)->0, Seq::empty());
    let b = r@->List_0[2].get("inputSchema"@)->0;
    lemma_needs(b, b.get("properties"@)->0, seq!["ticket_or_link"@]);
    let c = r@->List_0[3].get("inputSchema"@)->0;
    lemma_needs(c, c.get("properties"@)->0, seq!["drop"@]);
    let d = r@->List_0[4].get("inputSchema"@)->0;
    lemma_needs(d, d.get("properties"@)->0, seq!["drop"@]);
    let e = r@->List_0[5].get("inputSchema"@)->0;
    lemma_needs(e, e.get("properties"@)->0, seq!["drop"@, "paths"@]);
    let f = r@->List_0[6].get("inputSchema"@)->0;
    lemma_needs(f, f.get("properties"@)->0, seq!["drop"@, "pick"@]);
    let g = r@->List_0[7].get("inputSchema"@)->0;
    lemma_needs(g, g.get("properties"@)->0, Seq::empty());
    assert(crate::json::text_list(seq!["drop"@])->List_0 =~= seq![JsonView::Text("drop"@)]);
    assert(crate::json::text_list(seq!["ticket_or_link"@])->List_0 =~= seq![
        JsonView::Text("ticket_or_link"@),
    ]);
    assert(crate::json::text_list(seq!["drop"@, "paths"@])->List_0 =~= seq![
        JsonView::Text("drop"@),
        JsonView::Text("paths"@),
    ]);
    assert(crate::json::text_list(seq!["drop"@, "pick"@])->List_0 =~= seq![
        JsonView::Text("drop"@),
        JsonView::Text("pick"@),
    ]);
}

proof fn lemma_needs(v: JsonView, properties: JsonView, needed: Seq<Seq<char>>)
    ensures
        v == crate::mcp::schema(properties, needed) ==> {
            &&& v.get("properties"@) == Some(properties)
            &&& needed.len() == 0 ==> v.list_at("required"@) is None
            &&& needed.len() > 0 ==> v.list_at("required"@) == Some(
                crate::json::text_list(needed)->List_0,
            )
        },
{
    broadcast use {added_value_is_found, nothing_is_in_an_empty_object};

    reveal_strlit("type");
    reveal_strlit("properties");
    reveal_strlit("required");
    assert("type"@.len() == 4 && "properties"@.len() == 10 && "required"@.len() == 8);
    let s = crate::mcp::schema(properties, needed);
    assert(s.get("properties"@) is Some);
    assert(s.get("required"@) is Some <==> needed.len() > 0);
}

} // verus!

//! A server of the Model Context Protocol in front of a running daemon.
//!
//! It gets **no privileged hooks**: everything an agent can do here is a method any client
//! can call. The messages are JSON-RPC, one to a line.
//!
//! Consent rule for agents: the server connects with the **control** role, never the ui
//! role, so the daemon will not route consent questions to it; unsolicited offers keep
//! waiting for a human. The agent's own `fetch` call *is* the ask-and-answer in one step,
//! for the requested item only.
//!
//! A tool that needs the daemon comes back as a [`ToolStep`] with what remains to be done;
//! the daemon's reply is handed in again.

use crate::frame::{
    ApiError, ApiErrorView, Envelope, EnvelopeView, Hello, Role, API_VERSION,
};
use crate::json::{
    json_in, json_text, json_views, object, parse_json, pretty_text, take_or, text_list,
    text_or_null, value_or, write_json, write_pretty, Json, JsonView,
};
use crate::text::{opt_text, same, texts, trim, trimmed};
use crate::ticket::{ticket_from_text, ticket_in, Prefixes};
use vstd::prelude::*;

verus! {

/// Protocol revision this server speaks.
pub const PROTOCOL_VERSION: &'static str = "2025-03-26";

/// Server identity reported in the `initialize` handshake.
pub const SERVER_NAME: &'static str = "iroh-drop-mcp";

/// How long `fetch` and `share_files` wait for a task to finish before handing the task id
/// back for polling, in seconds.
pub const TASK_WAIT: u64 = 300;

/// JSON-RPC: the message does not parse.
pub const PARSE_ERROR: i64 = -32700;

/// JSON-RPC: there is no such method.
pub const METHOD_NOT_FOUND: i64 = -32601;

/// JSON-RPC: the parameters do not fit.
pub const INVALID_PARAMS: i64 = -32602;

/// Instructions handed to the agent in `initialize`, so the consent rule travels with the
/// server instead of depending on the prompt.
pub const INSTRUCTIONS: &'static str = "iroh-drop is a consent-based file-sharing network. You may list drops and offers freely, and you may publish or fetch ONLY what the user asked for: a fetch call is treated as the user's explicit consent for that one item. Never fetch unsolicited offers, and never join a drop the user did not give you a ticket for.";

/// How the server introduces itself to the daemon: it may act, and is never asked.
pub fn server_hello() -> (r: Hello)
    ensures
        r.client@ == SERVER_NAME@,
        r.api == API_VERSION,
        r.roles@ == seq![Role::Control],
        !r.roles@.contains(Role::Ui),
{
    Hello::control(SERVER_NAME)
}

/// A successful reply.
pub open spec fn result_json(id: JsonView, r: JsonView) -> JsonView {
    object().with("jsonrpc"@, JsonView::Text("2.0"@)).with("id"@, id).with("result"@, r)
}

/// A failed reply.
pub open spec fn error_json(id: JsonView, code: i64, message: Seq<char>) -> JsonView {
    object().with("jsonrpc"@, JsonView::Text("2.0"@)).with("id"@, id).with(
        "error"@,
        object().with("code"@, JsonView::Negative(code)).with("message"@, JsonView::Text(message)),
    )
}

fn result(id: Json, r: Json) -> (out: Json)
    ensures
        out@ == result_json(id@, r@),
{
    Json::object().with("jsonrpc", Json::text("2.0")).with("id", id).with("result", r)
}

fn error(id: Json, code: i64, message: &str) -> (out: Json)
    ensures
        out@ == error_json(id@, code, message@),
{
    Json::object().with("jsonrpc", Json::text("2.0")).with("id", id).with(
        "error",
        Json::object().with("code", Json::Negative(code)).with("message", Json::text(message)),
    )
}

/// One piece of text content.
pub open spec fn text_content(text: Seq<char>) -> JsonView {
    JsonView::List(
        seq![object().with("type"@, JsonView::Text("text"@)).with("text"@, JsonView::Text(text))],
    )
}

fn content(text: &str) -> (r: Json)
    ensures
        r@ == text_content(text@),
{
    let piece = Json::object().with("type", Json::text("text")).with("text", Json::text(text));
    let mut items: Vec<Json> = Vec::new();
    items.push(piece);
    assert(json_views(items@) =~= seq![piece@]);
    Json::list(items)
}

/// A tool call that worked, with this text as its content.
pub fn tool_text(id: Json, text: &str) -> (r: Json)
    ensures
        r@ == result_json(id@, object().with("content"@, text_content(text@))),
{
    result(id, Json::object().with("content", content(text)))
}

/// A tool call that worked: content is the daemon's reply, as text.
pub fn tool_ok(id: Json, reply: &Json) -> (r: Json)
    ensures
        r@ == result_json(id@, object().with("content"@, text_content(pretty_text(reply@)))),
{
    tool_text(id, write_pretty(reply).as_str())
}

/// The reply to a tool call that failed: an unknown tool is an error of the request, and
/// everything else one that the agent is told about.
pub open spec fn tool_failure(id: JsonView, name: Seq<char>, e: ToolErrorView) -> JsonView {
    match e {
        ToolErrorView::UnknownTool => error_json(id, INVALID_PARAMS, "unknown tool "@ + name),
        ToolErrorView::Daemon(msg) => result_json(
            id,
            object().with("content"@, text_content(msg)).with("isError"@, JsonView::Bool(true)),
        ),
    }
}

/// The reply to a tool call that failed.
pub fn tool_err(id: Json, name: &str, e: ToolError) -> (r: Json)
    ensures
        r@ == tool_failure(id@, name@, e@),
{
    match e {
        ToolError::UnknownTool => error(
            id,
            INVALID_PARAMS,
            "unknown tool ".to_owned().concat(name).as_str(),
        ),
        ToolError::Daemon(msg) => result(
            id,
            Json::object().with("content", content(msg.as_str())).with(
                "isError",
                Json::Bool(true),
            ),
        ),
    }
}

/// Why a tool call failed.
#[derive(Debug)]
pub enum ToolError {
    /// There is no such tool.
    UnknownTool,
    /// What the agent is told.
    Daemon(String),
}

/// The model of a [`ToolError`].
#[verifier::ext_equal]
pub enum ToolErrorView {
    /// There is no such tool.
    UnknownTool,
    /// What the agent is told.
    Daemon(Seq<char>),
}

impl View for ToolError {
    type V = ToolErrorView;

    open spec fn view(&self) -> ToolErrorView {
        match self {
            ToolError::UnknownTool => ToolErrorView::UnknownTool,
            ToolError::Daemon(msg) => ToolErrorView::Daemon(msg@),
        }
    }
}

/// What the agent is told of a daemon's error.
pub open spec fn daemon_said(e: ApiErrorView) -> ToolErrorView {
    ToolErrorView::Daemon(e.code + ": "@ + e.msg)
}

fn daemon_error(e: ApiError) -> (r: ToolError)
    ensures
        r@ == daemon_said(e@),
{
    ToolError::Daemon(e.message())
}

/// What remains of a tool call while the daemon is at work.
#[derive(Debug)]
pub enum ToolRun {
    /// The reply is the result.
    Plain,
    /// The reply names a drop; a link is to be added.
    Create,
    /// Of the reply's events, only the last so many are wanted.
    Events {
        /// How many.
        limit: usize,
    },
    /// A fetch was asked for.
    Fetch {
        /// Its task, once it is known.
        task: String,
    },
    /// Paths are being published one by one.
    Share(Sharing),
}

/// A `share_files` call under way.
#[derive(Debug)]
pub struct Sharing {
    /// The drop.
    pub drop: String,
    /// What was given as paths.
    pub paths: Vec<Json>,
    /// The name for a single file.
    pub name: Option<String>,
    /// What has been published so far.
    pub published: Vec<Json>,
    /// The task of the path at hand, once it is known.
    pub task: String,
}

/// The model of a [`ToolRun`].
#[verifier::ext_equal]
pub enum ToolRunView {
    /// The reply is the result.
    Plain,
    /// A link is to be added.
    Create,
    /// Only the last so many events are wanted.
    Events {
        /// How many.
        limit: nat,
    },
    /// A fetch was asked for.
    Fetch {
        /// Its task.
        task: Seq<char>,
    },
    /// Paths are being published.
    Share(SharingView),
}

/// The model of a [`Sharing`].
#[verifier::ext_equal]
pub struct SharingView {
    /// The drop.
    pub drop: Seq<char>,
    /// What was given as paths.
    pub paths: Seq<JsonView>,
    /// The name for a single file.
    pub name: Option<Seq<char>>,
    /// What has been published so far.
    pub published: Seq<JsonView>,
    /// The task of the path at hand.
    pub task: Seq<char>,
}

impl View for Sharing {
    type V = SharingView;

    open spec fn view(&self) -> SharingView {
        SharingView {
            drop: self.drop@,
            paths: json_views(self.paths@),
            name: opt_text(self.name),
            published: json_views(self.published@),
            task: self.task@,
        }
    }
}

impl View for ToolRun {
    type V = ToolRunView;

    open spec fn view(&self) -> ToolRunView {
        match self {
            ToolRun::Plain => ToolRunView::Plain,
            ToolRun::Create => ToolRunView::Create,
            ToolRun::Events { limit } => ToolRunView::Events { limit: *limit as nat },
            ToolRun::Fetch { task } => ToolRunView::Fetch { task: task@ },
            ToolRun::Share(sharing) => ToolRunView::Share(sharing@),
        }
    }
}

/// What a tool call does next.
#[derive(Debug)]
pub enum ToolStep {
    /// Call a method of the daemon; then [`ToolRun::on_reply`].
    Call {
        /// The method.
        method: String,
        /// Its parameters.
        params: Json,
        /// What remains.
        run: ToolRun,
    },
    /// Wait for a task to end; then [`ToolRun::on_task`].
    Wait {
        /// The task.
        task: String,
        /// What remains.
        run: ToolRun,
    },
    /// It worked, with this result.
    Done(Json),
    /// It failed.
    Failed(ToolError),
}

/// The model of a [`ToolStep`].
#[verifier::ext_equal]
pub enum ToolStepView {
    /// Call a method of the daemon.
    Call {
        /// The method.
        method: Seq<char>,
        /// Its parameters.
        params: JsonView,
        /// What remains.
        run: ToolRunView,
    },
    /// Wait for a task to end.
    Wait {
        /// The task.
        task: Seq<char>,
        /// What remains.
        run: ToolRunView,
    },
    /// It worked.
    Done(JsonView),
    /// It failed.
    Failed(ToolErrorView),
}

impl View for ToolStep {
    type V = ToolStepView;

    open spec fn view(&self) -> ToolStepView {
        match self {
            ToolStep::Call { method, params, run } => ToolStepView::Call {
                method: method@,
                params: params@,
                run: run@,
            },
            ToolStep::Wait { task, run } => ToolStepView::Wait { task: task@, run: run@ },
            ToolStep::Done(v) => ToolStepView::Done(v@),
            ToolStep::Failed(e) => ToolStepView::Failed(e@),
        }
    }
}

/// The names of the tools.
pub open spec fn tool_names() -> Seq<Seq<char>> {
    seq![
        "list_drops"@,
        "create_drop"@,
        "join_drop"@,
        "leave_drop"@,
        "list_offers"@,
        "share_files"@,
        "fetch"@,
        "drop_events"@,
    ]
}

/// A call of a method.
pub open spec fn calls(method: Seq<char>, params: JsonView, run: ToolRunView) -> ToolStepView {
    ToolStepView::Call { method, params, run }
}

/// The failure for an argument that is missing.
pub open spec fn lacks(key: Seq<char>) -> ToolStepView {
    ToolStepView::Failed(ToolErrorView::Daemon(key + " is required"@))
}

/// How many events a call of `drop_events` wants at most.
pub open spec fn wanted_events(args: JsonView) -> nat {
    let n = match args.number_at("limit"@) {
        Some(n) => n as nat,
        None => 50,
    };
    if n < 200 {
        n
    } else {
        200
    }
}

/// The next step of publishing paths: the first that has not been published yet.
pub open spec fn share_next(s: SharingView) -> ToolStepView {
    let at = s.published.len() as int;
    if at >= s.paths.len() {
        ToolStepView::Done(object().with("published"@, JsonView::List(s.published)))
    } else {
        match s.paths[at].text() {
            None => ToolStepView::Failed(ToolErrorView::Daemon("paths must be strings"@)),
            Some(path) => if s.name is Some && s.paths.len() > 1 {
                ToolStepView::Failed(
                    ToolErrorView::Daemon("name only makes sense for a single file"@),
                )
            } else {
                calls(
                    "offer.publish"@,
                    object().with("drop"@, JsonView::Text(s.drop)).with(
                        "path"@,
                        JsonView::Text(path),
                    ).with("name"@, text_or_null(s.name)),
                    ToolRunView::Share(s),
                )
            },
        }
    }
}

/// The first step of a tool.
pub open spec fn tool_begins(name: Seq<char>, args: JsonView) -> ToolStepView {
    if name == "list_drops"@ {
        calls("drop.list"@, object(), ToolRunView::Plain)
    } else if name == "create_drop"@ {
        calls(
            "drop.create"@,
            object().with("name"@, value_or(args, "name"@, JsonView::Null)),
            ToolRunView::Create,
        )
    } else if name == "join_drop"@ {
        match args.text_at("ticket_or_link"@) {
            None => lacks("ticket_or_link"@),
            Some(text) => match ticket_in(text, Prefixes::Any) {
                None => ToolStepView::Failed(
                    ToolErrorView::Daemon("no drop ticket found in the input"@),
                ),
                Some(ticket) => calls(
                    "drop.join"@,
                    object().with("ticket"@, JsonView::Text(ticket)),
                    ToolRunView::Plain,
                ),
            },
        }
    } else if name == "leave_drop"@ {
        match args.text_at("drop"@) {
            None => lacks("drop"@),
            Some(drop) => calls(
                "drop.leave"@,
                object().with("drop"@, JsonView::Text(drop)).with(
                    "forget"@,
                    value_or(args, "forget"@, JsonView::Bool(false)),
                ),
                ToolRunView::Plain,
            ),
        }
    } else if name == "list_offers"@ {
        match args.text_at("drop"@) {
            None => lacks("drop"@),
            Some(drop) => calls(
                "offer.list"@,
                object().with("drop"@, JsonView::Text(drop)),
                ToolRunView::Plain,
            ),
        }
    } else if name == "share_files"@ {
        match args.text_at("drop"@) {
            None => lacks("drop"@),
            Some(drop) => match args.list_at("paths"@) {
                None => lacks("paths (array)"@),
                Some(paths) => share_next(
                    SharingView {
                        drop,
                        paths,
                        name: args.text_at("name"@),
                        published: Seq::empty(),
                        task: ""@,
                    },
                ),
            },
        }
    } else if name == "fetch"@ {
        match args.text_at("drop"@) {
            None => lacks("drop"@),
            Some(drop) => match args.text_at("pick"@) {
                None => lacks("pick"@),
                Some(pick) => calls(
                    "offer.fetch"@,
                    object().with("drop"@, JsonView::Text(drop)).with(
                        "pick"@,
                        JsonView::Text(pick),
                    ).with("out"@, text_or_null(args.text_at("out"@))),
                    ToolRunView::Fetch { task: ""@ },
                ),
            },
        }
    } else if name == "drop_events"@ {
        calls(
            "events.replay"@,
            object().with(
                "from"@,
                JsonView::Unsigned(
                    match args.number_at("from"@) {
                        Some(from) => from,
                        None => 0,
                    },
                ),
            ),
            ToolRunView::Events { limit: wanted_events(args) },
        )
    } else {
        ToolStepView::Failed(ToolErrorView::UnknownTool)
    }
}

fn lacking(key: &str) -> (r: ToolStep)
    ensures
        r@ == lacks(key@),
{
    ToolStep::Failed(ToolError::Daemon(key.to_owned().concat(" is required")))
}

fn copies(items: &Vec<Json>) -> (r: Vec<Json>)
    ensures
        json_views(r@) == json_views(items@),
{
    let mut out: Vec<Json> = Vec::new();
    let mut i: usize = 0;
    while i < items.len()
        invariant
            i <= items@.len(),
            out@.len() == i,
            forall|k: int| 0 <= k < i ==> (#[trigger] out@[k])@ == items@[k]@,
        decreases items@.len() - i,
    {
        out.push(items[i].copy());
        i += 1;
    }
    assert(json_views(out@) =~= json_views(items@));
    out
}

/// Begins a tool call.
pub fn call_tool(name: &str, args: &Json) -> (r: ToolStep)
    ensures
        r@ == tool_begins(name@, args@),
{
    if same(name, "list_drops") {
        ToolStep::Call {
            method: "drop.list".to_owned(),
            params: Json::object(),
            run: ToolRun::Plain,
        }
    } else if same(name, "create_drop") {
        ToolStep::Call {
            method: "drop.create".to_owned(),
            params: Json::object().with("name", take_or(args, "name", Json::Null)),
            run: ToolRun::Create,
        }
    } else if same(name, "join_drop") {
        match args.text_at("ticket_or_link") {
            None => lacking("ticket_or_link"),
            Some(text) => match ticket_from_text(text) {
                None => ToolStep::Failed(
                    ToolError::Daemon("no drop ticket found in the input".to_owned()),
                ),
                Some(ticket) => ToolStep::Call {
                    method: "drop.join".to_owned(),
                    params: Json::object().with("ticket", Json::text(ticket)),
                    run: ToolRun::Plain,
                },
            },
        }
    } else if same(name, "leave_drop") {
        match args.text_at("drop") {
            None => lacking("drop"),
            Some(drop) => ToolStep::Call {
                method: "drop.leave".to_owned(),
                params: Json::object().with("drop", Json::text(drop)).with(
                    "forget",
                    take_or(args, "forget", Json::Bool(false)),
                ),
                run: ToolRun::Plain,
            },
        }
    } else if same(name, "list_offers") {
        match args.text_at("drop") {
            None => lacking("drop"),
            Some(drop) => ToolStep::Call {
                method: "offer.list".to_owned(),
                params: Json::object().with("drop", Json::text(drop)),
                run: ToolRun::Plain,
            },
        }
    } else if same(name, "share_files") {
        match args.text_at("drop") {
            None => lacking("drop"),
            Some(drop) => match args.list_at("paths") {
                None => lacking("paths (array)"),
                Some(paths) => {
                    let sharing = Sharing {
                        drop: drop.to_owned(),
                        paths: copies(paths),
                        name: args.own_text_at("name"),
                        published: Vec::new(),
                        task: "".to_owned(),
                    };
                    assert(sharing@.published =~= Seq::<JsonView>::empty());
                    sharing.next()
                },
            },
        }
    } else if same(name, "fetch") {
        match args.text_at("drop") {
            None => lacking("drop"),
            Some(drop) => match args.text_at("pick") {
                None => lacking("pick"),
                Some(pick) => ToolStep::Call {
                    method: "offer.fetch".to_owned(),
                    params: Json::object().with("drop", Json::text(drop)).with(
                        "pick",
                        Json::text(pick),
                    ).with("out", Json::text_or_null(&args.own_text_at("out"))),
                    run: ToolRun::Fetch { task: "".to_owned() },
                },
            },
        }
    } else if same(name, "drop_events") {
        let from: u64 = match args.number_at("from") {
            Some(from) => from,
            None => 0,
        };
        let limit: u64 = match args.number_at("limit") {
            Some(n) => n,
            None => 50,
        };
        let limit: usize = if limit < 200 {
            limit as usize
        } else {
            200
        };
        ToolStep::Call {
            method: "events.replay".to_owned(),
            params: Json::object().with("from", Json::Unsigned(from)),
            run: ToolRun::Events { limit },
        }
    } else {
        ToolStep::Failed(ToolError::UnknownTool)
    }
}

impl Sharing {
    /// The next step: the first path that has not been published yet.
    fn next(self) -> (r: ToolStep)
        ensures
            r@ == share_next(self@),
    {
        let at: usize = self.published.len();
        assert(self@.published.len() == at);
        assert(self@.paths.len() == self.paths@.len());
        if at >= self.paths.len() {
            return ToolStep::Done(Json::object().with("published", Json::list(self.published)));
        }
        assert(self@.paths[at as int] == self.paths@[at as int]@);
        match self.paths[at].as_str() {
            None => ToolStep::Failed(ToolError::Daemon("paths must be strings".to_owned())),
            Some(path) => {
                if self.name.is_some() && self.paths.len() > 1 {
                    return ToolStep::Failed(
                        ToolError::Daemon("name only makes sense for a single file".to_owned()),
                    );
                }
                let params = Json::object().with("drop", Json::text(self.drop.as_str())).with(
                    "path",
                    Json::text(path),
                ).with("name", Json::text_or_null(&self.name));
                ToolStep::Call {
                    method: "offer.publish".to_owned(),
                    params,
                    run: ToolRun::Share(self),
                }
            },
        }
    }
}

/// The task that a reply names.
pub open spec fn task_of(reply: JsonView) -> Seq<char> {
    match reply.text_at("task"@) {
        Some(task) => task,
        None => ""@,
    }
}

fn find_task(reply: &Json) -> (r: String)
    ensures
        r@ == task_of(reply@),
{
    match reply.text_at("task") {
        Some(task) => task.to_owned(),
        None => "".to_owned(),
    }
}

/// A reply that names a drop, with a link that can be shared. The link is what an agent
/// wants.
pub open spec fn with_link(v: JsonView) -> JsonView {
    match v.text_at("ticket"@) {
        Some(ticket) => v.set(
            "link"@,
            JsonView::Text(
                match v.text_at("link"@) {
                    Some(link) => link,
                    None => "iroh-drop://receive/"@ + ticket,
                },
            ),
        ),
        None => v,
    }
}

/// The last `limit` of a list.
pub open spec fn last_of(items: Seq<JsonView>, limit: nat) -> Seq<JsonView> {
    if items.len() > limit {
        items.skip(items.len() - limit)
    } else {
        items
    }
}

/// A reply that lists events, with no more than the last `limit` of them.
pub open spec fn bounded_events(v: JsonView, limit: nat) -> JsonView {
    match v.list_at("events"@) {
        Some(events) => if events.len() > limit {
            v.set("events"@, JsonView::List(last_of(events, limit)))
        } else {
            v
        },
        None => v,
    }
}

/// What a tool call does when the daemon has replied.
pub open spec fn tool_continues(run: ToolRunView, reply: Result<JsonView, ApiErrorView>) -> ToolStepView {
    match reply {
        Err(e) => ToolStepView::Failed(daemon_said(e)),
        Ok(v) => match run {
            ToolRunView::Plain => ToolStepView::Done(v),
            ToolRunView::Create => ToolStepView::Done(with_link(v)),
            ToolRunView::Events { limit } => ToolStepView::Done(bounded_events(v, limit)),
            ToolRunView::Fetch { task } => ToolStepView::Wait {
                task: task_of(v),
                run: ToolRunView::Fetch { task: task_of(v) },
            },
            ToolRunView::Share(s) => ToolStepView::Wait {
                task: task_of(v),
                run: ToolRunView::Share(SharingView { task: task_of(v), ..s }),
            },
        },
    }
}

/// What a tool call does when its task has ended, or is not waited for any longer.
pub open spec fn tool_ends(run: ToolRunView, outcome: Result<JsonView, ToolErrorView>) -> ToolStepView {
    match outcome {
        Err(e) => ToolStepView::Failed(e),
        Ok(outcome) => match run {
            ToolRunView::Fetch { task } => ToolStepView::Done(
                object().with("task"@, JsonView::Text(task)).with("outcome"@, outcome),
            ),
            ToolRunView::Share(s) => share_next(
                SharingView {
                    published: s.published.push(
                        object().with("path"@, s.paths[s.published.len() as int]).with(
                            "task"@,
                            JsonView::Text(s.task),
                        ).with("outcome"@, outcome),
                    ),
                    ..s
                },
            ),
            _ => ToolStepView::Done(outcome),
        },
    }
}

/// The model of a daemon's reply.
pub open spec fn reply_view(reply: Result<Json, ApiError>) -> Result<JsonView, ApiErrorView> {
    match reply {
        Ok(v) => Ok(v@),
        Err(e) => Err(e@),
    }
}

/// The model of what came of a task.
pub open spec fn outcome_view(r: Result<Json, ToolError>) -> Result<JsonView, ToolErrorView> {
    match r {
        Ok(v) => Ok(v@),
        Err(e) => Err(e@),
    }
}

fn add_link(v: Json) -> (r: Json)
    ensures
        r@ == with_link(v@),
{
    let link = match v.text_at("ticket") {
        Some(ticket) => match v.text_at("link") {
            Some(link) => link.to_owned(),
            None => "iroh-drop://receive/".to_owned().concat(ticket),
        },
        None => {
            return v;
        },
    };
    v.set("link", Json::Text(link))
}

fn bound_events(v: Json, limit: usize) -> (r: Json)
    ensures
        r@ == bounded_events(v@, limit as nat),
{
    let kept = match v.list_at("events") {
        Some(events) => {
            let n: usize = events.len();
            assert(json_views(events@).len() == n);
            if n <= limit {
                None
            } else {
                let mut out: Vec<Json> = Vec::new();
                let from: usize = n - limit;
                let mut i: usize = from;
                while i < n
                    invariant
                        from <= i <= n == events@.len(),
                        out@.len() == i - from,
                        forall|k: int|
                            0 <= k < out@.len() ==> (#[trigger] out@[k])@ == events@[from + k]@,
                    decreases n - i,
                {
                    out.push(events[i].copy());
                    i += 1;
                }
                assert(json_views(out@) =~= last_of(json_views(events@), limit as nat));
                Some(out)
            }
        },
        None => None,
    };
    match kept {
        Some(out) => v.set("events", Json::list(out)),
        None => v,
    }
}

impl ToolRun {
    /// Continues a tool call with the daemon's reply.
    pub fn on_reply(self, reply: Result<Json, ApiError>) -> (r: ToolStep)
        ensures
            r@ == tool_continues(self@, reply_view(reply)),
    {
        match reply {
            Err(e) => ToolStep::Failed(daemon_error(e)),
            Ok(v) => match self {
                ToolRun::Plain => ToolStep::Done(v),
                ToolRun::Create => ToolStep::Done(add_link(v)),
                ToolRun::Events { limit } => ToolStep::Done(bound_events(v, limit)),
                ToolRun::Fetch { task } => {
                    let task = find_task(&v);
                    ToolStep::Wait { task: task.clone(), run: ToolRun::Fetch { task } }
                },
                ToolRun::Share(sharing) => {
                    let task = find_task(&v);
                    let sharing = Sharing {
                        drop: sharing.drop,
                        paths: sharing.paths,
                        name: sharing.name,
                        published: sharing.published,
                        task: task.clone(),
                    };
                    ToolStep::Wait { task, run: ToolRun::Share(sharing) }
                },
            },
        }
    }

    /// Continues a tool call with what came of its task.
    pub fn on_task(self, outcome: Result<Json, ToolError>) -> (r: ToolStep)
        requires
            self matches ToolRun::Share(s) ==> s.published@.len() < s.paths@.len(),
        ensures
            r@ == tool_ends(self@, outcome_view(outcome)),
    {
        match outcome {
            Err(e) => ToolStep::Failed(e),
            Ok(outcome) => match self {
                ToolRun::Fetch { task } => ToolStep::Done(
                    Json::object().with("task", Json::text(task.as_str())).with(
                        "outcome",
                        outcome,
                    ),
                ),
                ToolRun::Share(sharing) => {
                    let mut sharing = sharing;
                    let at: usize = sharing.published.len();
                    let ghost before = sharing@;
                    assert(before.paths[at as int] == sharing.paths@[at as int]@);
                    let entry = Json::object().with("path", sharing.paths[at].copy()).with(
                        "task",
                        Json::text(sharing.task.as_str()),
                    ).with("outcome", outcome);
                    let ghost was = sharing.published@;
                    sharing.published.push(entry);
                    assert(json_views(sharing.published@) =~= json_views(was).push(entry@));
                    sharing.next()
                },
                _ => ToolStep::Done(outcome),
            },
        }
    }
}

/// What came of waiting for a task: its last known state. A timeout is not an error: the
/// agent gets the task id back and can poll.
pub open spec fn task_outcome(waited: Result<EnvelopeView, ApiErrorView>) -> Result<
    JsonView,
    ToolErrorView,
> {
    match waited {
        Ok(env) => Ok(
            object().with("state"@, value_or(env.p, "state"@, JsonView::Text("unknown"@))).with(
                "error"@,
                value_or(env.p, "error"@, JsonView::Null),
            ),
        ),
        Err(e) => if e.code == "timeout"@ {
            Ok(
                object().with("state"@, JsonView::Text("running"@)).with(
                    "note"@,
                    JsonView::Text(
                        "still working after 5 minutes; poll drop_events for task.state"@,
                    ),
                ),
            )
        } else {
            Err(daemon_said(e))
        },
    }
}

/// What came of waiting for a task.
pub fn wait_task(waited: Result<Envelope, ApiError>) -> (r: Result<Json, ToolError>)
    ensures
        outcome_view(r) == task_outcome(
            match waited {
                Ok(env) => Ok(env@),
                Err(e) => Err(e@),
            },
        ),
{
    match waited {
        Ok(env) => Ok(
            Json::object().with("state", take_or(&env.p, "state", Json::text("unknown"))).with(
                "error",
                take_or(&env.p, "error", Json::Null),
            ),
        ),
        Err(e) => if same(e.code.as_str(), "timeout") {
            Ok(
                Json::object().with("state", Json::text("running")).with(
                    "note",
                    Json::text("still working after 5 minutes; poll drop_events for task.state"),
                ),
            )
        } else {
            Err(daemon_error(e))
        },
    }
}

/// What a message asks for.
#[derive(Debug)]
pub enum RpcStep {
    /// Nothing: notifications are never answered.
    Ignore,
    /// This reply.
    Reply(Json),
    /// A tool call; the reply is [`tool_ok`] or [`tool_err`].
    Tool {
        /// The id of the request.
        id: Json,
        /// The tool.
        name: String,
        /// Its first step.
        step: ToolStep,
    },
}

/// What is said in the `initialize` handshake.
pub open spec fn introduction(version: Seq<char>) -> JsonView {
    object().with("protocolVersion"@, JsonView::Text(PROTOCOL_VERSION@)).with(
        "capabilities"@,
        object().with("tools"@, object().with("listChanged"@, JsonView::Bool(false))),
    ).with(
        "serverInfo"@,
        object().with("name"@, JsonView::Text(SERVER_NAME@)).with(
            "version"@,
            JsonView::Text(version),
        ),
    ).with("instructions"@, JsonView::Text(INSTRUCTIONS@))
}

/// What a message asks for, and the answer where it has one.
pub open spec fn answers(msg: JsonView, version: Seq<char>, r: RpcStep) -> bool {
    let method = match msg.text_at("method"@) {
        Some(method) => method,
        None => ""@,
    };
    let params = value_or(msg, "params"@, JsonView::Null);
    match msg.get("id"@) {
        None => r is Ignore,
        Some(asked) => if method == "initialize"@ {
            r matches RpcStep::Reply(v) && v@ == result_json(asked, introduction(version))
        } else if method == "ping"@ {
            r matches RpcStep::Reply(v) && v@ == result_json(asked, object())
        } else if method == "tools/list"@ {
            r matches RpcStep::Reply(v) && v@ == result_json(
                asked,
                object().with("tools"@, tools_json()),
            )
        } else if method == "tools/call"@ {
            let called = match params.text_at("name"@) {
                Some(called) => called,
                None => ""@,
            };
            &&& r matches RpcStep::Tool { id, name, step }
            &&& id@ == asked
            &&& name@ == called
            &&& step@ == tool_begins(called, value_or(params, "arguments"@, object()))
        } else {
            r matches RpcStep::Reply(v) && v@ == error_json(
                asked,
                METHOD_NOT_FOUND,
                "no such method "@ + method,
            )
        },
    }
}

/// Whether a line holds a message at all.
pub fn holds_message(line: &str) -> (r: bool)
    ensures
        r == (trimmed(line@).len() > 0),
{
    trim(line).unicode_len() > 0
}

/// The reply to a line that does not parse.
pub fn parse_error(why: &str) -> (r: Json)
    ensures
        r@ == error_json(JsonView::Null, PARSE_ERROR, "parse error: "@ + why@),
{
    error(Json::Null, PARSE_ERROR, "parse error: ".to_owned().concat(why).as_str())
}

/// Answers a message, or begins to.
pub fn dispatch(msg: &Json, version: &str) -> (r: RpcStep)
    ensures
        answers(msg@, version@, r),
{
    let id = match msg.get("id") {
        Some(id) => id.copy(),
        None => {
            return RpcStep::Ignore;
        },
    };
    let method = match msg.text_at("method") {
        Some(method) => method,
        None => "",
    };
    let params = take_or(msg, "params", Json::Null);
    if same(method, "initialize") {
        let said = Json::object().with("protocolVersion", Json::text(PROTOCOL_VERSION)).with(
            "capabilities",
            Json::object().with("tools", Json::object().with("listChanged", Json::Bool(false))),
        ).with(
            "serverInfo",
            Json::object().with("name", Json::text(SERVER_NAME)).with(
                "version",
                Json::text(version),
            ),
        ).with("instructions", Json::text(INSTRUCTIONS));
        RpcStep::Reply(result(id, said))
    } else if same(method, "ping") {
        RpcStep::Reply(result(id, Json::object()))
    } else if same(method, "tools/list") {
        RpcStep::Reply(result(id, Json::object().with("tools", tools())))
    } else if same(method, "tools/call") {
        let name = match params.text_at("name") {
            Some(name) => name.to_owned(),
            None => "".to_owned(),
        };
        let args = take_or(&params, "arguments", Json::object());
        let step = call_tool(name.as_str(), &args);
        RpcStep::Tool { id, name, step }
    } else {
        RpcStep::Reply(error(id, METHOD_NOT_FOUND, "no such method ".to_owned().concat(method).as_str()))
    }
}

/// Answers a line of input, or begins to: a line that holds nothing is ignored, and one that
/// does not parse is answered with the reason.
pub fn answer_line(line: &str, version: &str) -> (r: RpcStep)
    ensures
        if trimmed(line@).len() == 0 {
            r is Ignore
        } else {
            match json_in(trimmed(line@)) {
                Ok(msg) => answers(msg, version@, r),
                Err(why) => r matches RpcStep::Reply(v) && v@ == error_json(
                    JsonView::Null,
                    PARSE_ERROR,
                    "parse error: "@ + why,
                ),
            }
        },
{
    if !holds_message(line) {
        return RpcStep::Ignore;
    }
    match parse_json(trim(line)) {
        Ok(msg) => dispatch(&msg, version),
        Err(why) => RpcStep::Reply(parse_error(why.as_str())),
    }
}

/// A reply as it goes out: one line of JSON.
pub fn reply_line(reply: &Json) -> (r: String)
    ensures
        r@ == json_text(reply@) + "\n"@,
{
    write_json(reply).concat("\n")
}

/// A property of a tool's input.
pub open spec fn property(kind: Seq<char>, description: Seq<char>) -> JsonView {
    object().with("type"@, JsonView::Text(kind)).with(
        "description"@,
        JsonView::Text(description),
    )
}

fn describe(kind: &str, description: &str) -> (r: Json)
    ensures
        r@ == property(kind@, description@),
{
    Json::object().with("type", Json::text(kind)).with("description", Json::text(description))
}

/// A drop handle among a tool's inputs.
pub open spec fn drop_property() -> JsonView {
    property(
        "string"@,
        "Daemon-local drop handle (e.g. \"d3\") from list_drops, create_drop, or join_drop"@,
    )
}

fn describe_drop() -> (r: Json)
    ensures
        r@ == drop_property(),
{
    describe(
        "string",
        "Daemon-local drop handle (e.g. \"d3\") from list_drops, create_drop, or join_drop",
    )
}

/// What a tool takes.
pub open spec fn schema(properties: JsonView, needed: Seq<Seq<char>>) -> JsonView {
    let plain = object().with("type"@, JsonView::Text("object"@)).with("properties"@, properties);
    if needed.len() == 0 {
        plain
    } else {
        plain.with("required"@, text_list(needed))
    }
}

/// A tool as it is listed.
pub open spec fn tool(name: Seq<char>, description: Seq<char>, input: JsonView) -> JsonView {
    object().with("name"@, JsonView::Text(name)).with(
        "description"@,
        JsonView::Text(description),
    ).with("inputSchema"@, input)
}

fn make_schema(properties: Json, needed: Vec<String>) -> (r: Json)
    ensures
        r@ == schema(properties@, texts(needed@)),
{
    let plain = Json::object().with("type", Json::text("object")).with("properties", properties);
    if needed.len() == 0 {
        plain
    } else {
        plain.with("required", Json::text_list(&needed))
    }
}

fn make_tool(name: &str, description: &str, input: Json) -> (r: Json)
    ensures
        r@ == tool(name@, description@, input@),
{
    Json::object().with("name", Json::text(name)).with(
        "description",
        Json::text(description),
    ).with("inputSchema", input)
}

fn none_needed() -> (r: Vec<String>)
    ensures
        texts(r@) == Seq::<Seq<char>>::empty(),
{
    let r: Vec<String> = Vec::new();
    assert(texts(r@) =~= Seq::<Seq<char>>::empty());
    r
}

fn one_needed(a: &str) -> (r: Vec<String>)
    ensures
        texts(r@) == seq![a@],
{
    let mut r: Vec<String> = Vec::new();
    r.push(a.to_owned());
    assert(texts(r@) =~= seq![a@]);
    r
}

fn two_needed(a: &str, b: &str) -> (r: Vec<String>)
    ensures
        texts(r@) == seq![a@, b@],
{
    let mut r: Vec<String> = Vec::new();
    r.push(a.to_owned());
    r.push(b.to_owned());
    assert(texts(r@) =~= seq![a@, b@]);
    r
}

/// Every tool, as they are listed.
pub open spec fn tools_json() -> JsonView {
    JsonView::List(
        seq![
            tool(
                "list_drops"@,
                "List drops this daemon participates in: handle, name, peer count, offer count."@,
                schema(object(), Seq::empty()),
            ),
            tool(
                "create_drop"@,
                "Create a new drop. Returns the handle, the bearer ticket, and a shareable link."@,
                schema(
                    object().with("name"@, property("string"@, "Display name for the drop"@)),
                    Seq::empty(),
                ),
            ),
            tool(
                "join_drop"@,
                "Join a drop. Accepts a bare drop2… ticket, an iroh-drop:// link, an https://…#drop2… link, or text containing one."@,
                schema(
                    object().with(
                        "ticket_or_link"@,
                        object().with("type"@, JsonView::Text("string"@)),
                    ),
                    seq!["ticket_or_link"@],
                ),
            ),
            tool(
                "leave_drop"@,
                "Leave a drop. With forget=true also stops serving its content."@,
                schema(
                    object().with("drop"@, drop_property()).with(
                        "forget"@,
                        property("boolean"@, "Also forget local state (default false)"@),
                    ),
                    seq!["drop"@],
                ),
            ),
            tool(
                "list_offers"@,
                "List what a drop offers: numbered items with name, hash, size, and status (missing / fetching / failed / available)."@,
                schema(object().with("drop"@, drop_property()), seq!["drop"@]),
            ),
            tool(
                "share_files"@,
                "Publish local files into a drop so its members can fetch them. Waits for each publish and reports the outcome."@,
                schema(
                    object().with("drop"@, drop_property()).with(
                        "paths"@,
                        object().with("type"@, JsonView::Text("array"@)).with(
                            "items"@,
                            object().with("type"@, JsonView::Text("string"@)),
                        ).with("description"@, JsonView::Text("Absolute paths to publish"@)),
                    ).with("name"@, property("string"@, "Display name (single file only)"@)),
                    seq!["drop"@, "paths"@],
                ),
            ),
            tool(
                "fetch"@,
                "Fetch one offered item by number, name, or hash prefix. This call IS the user's consent for that item; unsolicited offers are never fetched automatically. Waits for completion (up to 5 minutes) and reports the outcome."@,
                schema(
                    object().with("drop"@, drop_property()).with(
                        "pick"@,
                        property(
                            "string"@,
                            "Item number, file name, or hash prefix from list_offers"@,
                        ),
                    ).with(
                        "out"@,
                        property(
                            "string"@,
                            "Output directory (default: the daemon's download dir)"@,
                        ),
                    ),
                    seq!["drop"@, "pick"@],
                ),
            ),
            tool(
                "drop_events"@,
                "Bounded tail of the daemon's event log (peer joins, offers, progress, completions)."@,
                schema(
                    object().with(
                        "from"@,
                        property("integer"@, "Replay events with seq >= from (default 0)"@),
                    ).with(
                        "limit"@,
                        property("integer"@, "Max events to return (default 50, max 200)"@),
                    ),
                    Seq::empty(),
                ),
            ),
        ],
    )
}

/// Every tool, as they are listed.
pub fn tools() -> (r: Json)
    ensures
        r@ == tools_json(),
{
    let mut out: Vec<Json> = Vec::new();
    out.push(
        make_tool(
            "list_drops",
            "List drops this daemon participates in: handle, name, peer count, offer count.",
            make_schema(Json::object(), none_needed()),
        ),
    );
    out.push(
        make_tool(
            "create_drop",
            "Create a new drop. Returns the handle, the bearer ticket, and a shareable link.",
            make_schema(
                Json::object().with("name", describe("string", "Display name for the drop")),
                none_needed(),
            ),
        ),
    );
    out.push(
        make_tool(
            "join_drop",
            "Join a drop. Accepts a bare drop2… ticket, an iroh-drop:// link, an https://…#drop2… link, or text containing one.",
            make_schema(
                Json::object().with(
                    "ticket_or_link",
                    Json::object().with("type", Json::text("string")),
                ),
                one_needed("ticket_or_link"),
            ),
        ),
    );
    out.push(
        make_tool(
            "leave_drop",
            "Leave a drop. With forget=true also stops serving its content.",
            make_schema(
                Json::object().with("drop", describe_drop()).with(
                    "forget",
                    describe("boolean", "Also forget local state (default false)"),
                ),
                one_needed("drop"),
            ),
        ),
    );
    out.push(
        make_tool(
            "list_offers",
            "List what a drop offers: numbered items with name, hash, size, and status (missing / fetching / failed / available).",
            make_schema(Json::object().with("drop", describe_drop()), one_needed("drop")),
        ),
    );
    out.push(
        make_tool(
            "share_files",
            "Publish local files into a drop so its members can fetch them. Waits for each publish and reports the outcome.",
            make_schema(
                Json::object().with("drop", describe_drop()).with(
                    "paths",
                    Json::object().with("type", Json::text("array")).with(
                        "items",
                        Json::object().with("type", Json::text("string")),
                    ).with("description", Json::text("Absolute paths to publish")),
                ).with("name", describe("string", "Display name (single file only)")),
                two_needed("drop", "paths"),
            ),
        ),
    );
    out.push(
        make_tool(
            "fetch",
            "Fetch one offered item by number, name, or hash prefix. This call IS the user's consent for that item; unsolicited offers are never fetched automatically. Waits for completion (up to 5 minutes) and reports the outcome.",
            make_schema(
                Json::object().with("drop", describe_drop()).with(
                    "pick",
                    describe("string", "Item number, file name, or hash prefix from list_offers"),
                ).with(
                    "out",
                    describe("string", "Output directory (default: the daemon's download dir)"),
                ),
                two_needed("drop", "pick"),
            ),
        ),
    );
    out.push(
        make_tool(
            "drop_events",
            "Bounded tail of the daemon's event log (peer joins, offers, progress, completions).",
            make_schema(
                Json::object().with(
                    "from",
                    describe("integer", "Replay events with seq >= from (default 0)"),
                ).with("limit", describe("integer", "Max events to return (default 50, max 200)")),
                none_needed(),
            ),
        ),
    );
    assert(json_views(out@) =~= tools_json()->List_0);
    Json::list(out)
}

/// The listed tools are the tools there are: each is listed under its name, and a call is
/// refused as unknown exactly when its tool is not listed.
pub proof fn listed_tools_are_the_known_ones(name: Seq<char>, args: JsonView)
    ensures
        tools_json()->List_0.len() == tool_names().len(),
        forall|i: int|
            0 <= i < tool_names().len() ==> (#[trigger] tools_json()->List_0[i]).text_at("name"@)
                == Some(tool_names()[i]),
        tool_begins(name, args) == ToolStepView::Failed(ToolErrorView::UnknownTool)
            <==> !tool_names().contains(name),
{
    let n = tool_names();
    assert(n[0] == "list_drops"@ && n[1] == "create_drop"@ && n[2] == "join_drop"@);
    assert(n[3] == "leave_drop"@ && n[4] == "list_offers"@ && n[5] == "share_files"@);
    assert(n[6] == "fetch"@ && n[7] == "drop_events"@);
    assert forall|i: int| 0 <= i < n.len() implies (
    #[trigger] tools_json()->List_0[i]).text_at("name"@) == Some(n[i]) by {
        let t = tools_json()->List_0[i];
        assert(t is Object);
        assert(t->Object_0[0].0 == "name"@);
    }
}

/// No call of `drop_events` hands out more than 200 events, and those that it hands out are
/// the latest.
pub proof fn event_tail_is_bounded(v: JsonView, args: JsonView)
    requires
        v.list_at("events"@) is Some,
    ensures
        ({
            let all = v.list_at("events"@)->0;
            let shown = bounded_events(v, wanted_events(args)).list_at("events"@);
            &&& shown is Some
            &&& shown->0.len() <= 200
            &&& shown->0.len() <= all.len()
            &&& shown->0 == all.skip(all.len() - shown->0.len())
        }),
{
    let limit = wanted_events(args);
    let all = v.list_at("events"@)->0;
    if all.len() > limit {
        crate::json::set_value_is_there(
            v,
            "events"@,
            JsonView::List(last_of(all, limit)),
            "events"@,
        );
    } else {
        assert(all.skip(0) =~= all);
    }
}

} // verus!

//! Commands that talk to a running daemon instead of owning a session.
//!
//! The difference users feel: `send` **returns**. The daemon keeps the drop alive and keeps
//! serving the bytes, so closing the terminal is no longer the same as withdrawing the file.
//!
//! Each command is a sequence of [`Step`]s: what to print, and what to do next. What came of
//! it is handed in again, and gives the next step.

use crate::client::accept_all;
use crate::frame::{ApiError, Hello, Role, API_VERSION};
use crate::json::{
    json_views, object, show_fields, shown_fields, str_of, take_or, text_or_empty, text_or_null,
    value_or, Json, JsonView,
};
use crate::path::{below, join_path};
use crate::text::{
    add_line, decimal, first_chars, left_aligned, lower, lowered, no_lines, number, one_line,
    opt_text, pad_left, pad_right, percent, percent_of, quote, quoted, right_aligned, same,
    take_chars, texts, trim, trimmed, wide_number,
};
use vstd::prelude::*;

verus! {

/// How long a task is waited for, in seconds.
pub const TASK_WAIT: u64 = 3600;

/// How long a drop may stay empty after it was joined, in seconds.
pub const OFFER_WAIT: u64 = 60;

/// How long to pause before looking for offers again, in milliseconds.
pub const OFFER_PAUSE: u64 = 500;

/// What a command does next.
#[derive(Debug)]
pub enum Next {
    /// Call a method of the daemon.
    Call {
        /// Its name.
        method: String,
        /// Its parameters.
        params: Json,
    },
    /// Find out where a path really leads.
    Locate {
        /// The path as it was given.
        path: String,
    },
    /// Wait until a task has ended.
    Wait {
        /// The task.
        task: String,
    },
    /// Pause, and look again.
    Pause,
    /// Show a QR code.
    Qr {
        /// What it carries.
        link: String,
    },
    /// The command is over.
    Finish,
    /// The command has failed.
    Fail {
        /// Why.
        message: String,
        /// What lies behind it.
        cause: Option<String>,
    },
}

/// The model of a [`Next`].
pub enum NextView {
    /// Call a method of the daemon.
    Call {
        /// Its name.
        method: Seq<char>,
        /// Its parameters.
        params: JsonView,
    },
    /// Find out where a path really leads.
    Locate {
        /// The path as it was given.
        path: Seq<char>,
    },
    /// Wait until a task has ended.
    Wait {
        /// The task.
        task: Seq<char>,
    },
    /// Pause, and look again.
    Pause,
    /// Show a QR code.
    Qr {
        /// What it carries.
        link: Seq<char>,
    },
    /// The command is over.
    Finish,
    /// The command has failed.
    Fail {
        /// Why.
        message: Seq<char>,
        /// What lies behind it.
        cause: Option<Seq<char>>,
    },
}

impl View for Next {
    type V = NextView;

    open spec fn view(&self) -> NextView {
        match self {
            Next::Call { method, params } => NextView::Call { method: method@, params: params@ },
            Next::Locate { path } => NextView::Locate { path: path@ },
            Next::Wait { task } => NextView::Wait { task: task@ },
            Next::Pause => NextView::Pause,
            Next::Qr { link } => NextView::Qr { link: link@ },
            Next::Finish => NextView::Finish,
            Next::Fail { message, cause } => NextView::Fail {
                message: message@,
                cause: opt_text(*cause),
            },
        }
    }
}

/// What to print, and what to do next.
#[derive(Debug)]
pub struct Step {
    /// The lines to print.
    pub lines: Vec<String>,
    /// What to do next.
    pub next: Next,
}

/// The model of a [`Step`].
pub struct StepView {
    /// The lines to print.
    pub lines: Seq<Seq<char>>,
    /// What to do next.
    pub next: NextView,
}

impl View for Step {
    type V = StepView;

    open spec fn view(&self) -> StepView {
        StepView { lines: texts(self.lines@), next: self.next@ }
    }
}

/// Prints, and calls a method.
pub open spec fn calls(lines: Seq<Seq<char>>, method: Seq<char>, params: JsonView) -> StepView {
    StepView { lines, next: NextView::Call { method, params } }
}

/// Prints, and ends.
pub open spec fn finishes(lines: Seq<Seq<char>>) -> StepView {
    StepView { lines, next: NextView::Finish }
}

/// Fails, and says why.
pub open spec fn fails(message: Seq<char>) -> StepView {
    StepView { lines: Seq::empty(), next: NextView::Fail { message, cause: None } }
}

/// Waits for the task that a reply names.
pub open spec fn waits(started: Result<Json, ApiError>) -> StepView {
    match started {
        Ok(v) => StepView {
            lines: Seq::empty(),
            next: NextView::Wait { task: text_or_empty(v@, "task"@) },
        },
        Err(e) => fails(e@.message()),
    }
}

fn call(lines: Vec<String>, method: &str, params: Json) -> (r: Step)
    ensures
        r@ == calls(texts(lines@), method@, params@),
{
    Step { lines, next: Next::Call { method: method.to_owned(), params } }
}

fn finish(lines: Vec<String>) -> (r: Step)
    ensures
        r@ == finishes(texts(lines@)),
{
    Step { lines, next: Next::Finish }
}

fn fail(message: String) -> (r: Step)
    ensures
        r@ == fails(message@),
{
    Step { lines: no_lines(), next: Next::Fail { message, cause: None } }
}

fn refused(e: &ApiError) -> (r: Step)
    ensures
        r@ == fails(e@.message()),
{
    fail(e.message())
}

fn wait(started: Result<Json, ApiError>) -> (r: Step)
    ensures
        r@ == waits(started),
{
    match started {
        Ok(v) => Step { lines: no_lines(), next: Next::Wait { task: str_of(&v, "task") } },
        Err(e) => refused(&e),
    }
}

/// Where the daemon is looked for: a directory means the usual socket in it.
pub fn socket_arg(value: Option<String>, is_dir: bool) -> (r: Option<String>)
    ensures
        opt_text(r) == match value {
            Some(path) => Some(
                if is_dir {
                    below(path@, "control.sock"@)
                } else {
                    path@
                },
            ),
            None => None,
        },
{
    match value {
        Some(path) => if is_dir {
            Some(join_path(path.as_str(), "control.sock"))
        } else {
            Some(path)
        },
        None => None,
    }
}

/// Why there is no connection to the daemon, with a word on how to start one.
pub fn attach_failed(path: &str, e: &ApiError) -> (r: String)
    ensures
        r@ == if e.code@ == "no_daemon"@ {
            "no daemon at "@ + path@ + ".\n  start one with:  iroh-dropd\n  ("@ + e@.message()
                + ")"@
        } else {
            e@.message()
        },
{
    if same(e.code.as_str(), "no_daemon") {
        "no daemon at ".to_owned().concat(path).concat(
            ".\n  start one with:  iroh-dropd\n  (",
        ).concat(e.message().as_str()).concat(")")
    } else {
        e.message()
    }
}

/// Where a path really leads.
#[derive(Debug)]
pub enum Located {
    /// There.
    Found {
        /// The place, for people.
        shown: String,
        /// The place as text, if it is text.
        text: Option<String>,
    },
    /// Nowhere.
    Missing {
        /// Why.
        why: String,
    },
}

/// Sending files through the daemon.
#[derive(Debug)]
pub struct Sending {
    /// The paths as they were given.
    pub paths: Vec<String>,
    /// How many of them are published.
    pub at: usize,
    /// Whether to show a QR code.
    pub qr: bool,
    /// The drop.
    pub drop: Json,
    /// The place that is being published, for people.
    pub shown: String,
}

/// The model of a [`Sending`].
pub struct SendingView {
    /// The paths as they were given.
    pub paths: Seq<Seq<char>>,
    /// How many of them are published.
    pub at: int,
    /// Whether to show a QR code.
    pub qr: bool,
    /// The drop.
    pub drop: JsonView,
    /// The place that is being published, for people.
    pub shown: Seq<char>,
}

impl View for Sending {
    type V = SendingView;

    open spec fn view(&self) -> SendingView {
        SendingView {
            paths: texts(self.paths@),
            at: self.at as int,
            qr: self.qr,
            drop: self.drop@,
            shown: self.shown@,
        }
    }
}

/// What is sent next: the next path, or a request for the link.
pub open spec fn send_next(s: SendingView, lines: Seq<Seq<char>>) -> StepView {
    if s.at < s.paths.len() {
        StepView { lines, next: NextView::Locate { path: s.paths[s.at] } }
    } else {
        calls(lines, "drop.ticket"@, object().with("drop"@, s.drop))
    }
}

/// What is said last: the daemon goes on, and how to stop it.
pub open spec fn send_farewell(drop: JsonView) -> Seq<Seq<char>> {
    seq![
        "The daemon keeps serving these files. Stop with:"@,
        "  iroh-drop drops --forget "@ + match drop.text() {
            Some(handle) => handle,
            None => ""@,
        },
    ]
}

/// How the link is presented. A link, not a ticket: it opens the app when clicked, and
/// nobody has to learn a new noun.
pub open spec fn link_lines(ticket: JsonView) -> Seq<Seq<char>> {
    let plain = seq![
        ""@,
        "Send this to whoever should get the files:"@,
        ""@,
        "  "@ + text_or_empty(ticket, "link"@),
        ""@,
    ];
    match ticket.text_at("web_link"@) {
        Some(web) => plain + seq![
            "Or, for anyone without the app:"@,
            ""@,
            "  "@ + web,
            ""@,
        ],
        None => plain,
    }
}

impl Sending {
    /// Who asks: a command that acts, and is never asked.
    pub fn hello() -> (r: Hello)
        ensures
            r.client@ == "iroh-drop send"@,
            r.api == API_VERSION,
            r.roles@ == seq![Role::Control],
    {
        Hello::control("iroh-drop send")
    }

    /// Sends `paths` in a new drop.
    pub fn begin(paths: Vec<String>, name: &Option<String>, qr: bool) -> (r: (Sending, Step))
        ensures
            r.0@ == (SendingView {
                paths: texts(paths@),
                at: 0,
                qr,
                drop: JsonView::Null,
                shown: ""@,
            }),
            r.1@ == calls(
                Seq::empty(),
                "drop.create"@,
                object().with("name"@, text_or_null(opt_text(*name))),
            ),
    {
        let sending = Sending { paths, at: 0, qr, drop: Json::Null, shown: "".to_owned() };
        let params = Json::object().with("name", Json::text_or_null(name));
        (sending, call(no_lines(), "drop.create", params))
    }

    fn next(&self, lines: Vec<String>) -> (r: Step)
        ensures
            r@ == send_next(self@, texts(lines@)),
    {
        if self.at < self.paths.len() {
            Step { lines, next: Next::Locate { path: self.paths[self.at].clone() } }
        } else {
            call(lines, "drop.ticket", Json::object().with("drop", self.drop.copy()))
        }
    }

    /// The drop was created, or not.
    pub fn created(&mut self, reply: Result<Json, ApiError>) -> (r: Step)
        ensures
            match reply {
                Ok(v) => {
                    &&& final(self)@ == (SendingView {
                        drop: value_or(v@, "drop"@, JsonView::Null),
                        ..old(self)@
                    })
                    &&& r@ == send_next(final(self)@, Seq::empty())
                },
                Err(e) => *final(self) == *old(self) && r@ == fails(e@.message()),
            },
    {
        match reply {
            Ok(v) => {
                self.drop = take_or(&v, "drop", Json::Null);
                self.next(no_lines())
            },
            Err(e) => refused(&e),
        }
    }

    /// The next path leads somewhere, or not.
    pub fn located(&mut self, found: Located) -> (r: Step)
        requires
            old(self).at < old(self).paths@.len(),
        ensures
            match found {
                Located::Found { shown, text } => {
                    &&& final(self)@ == (SendingView { shown: shown@, ..old(self)@ })
                    &&& r@ == match text {
                        Some(text) => calls(
                            Seq::empty(),
                            "offer.publish"@,
                            object().with("drop"@, old(self)@.drop).with(
                                "path"@,
                                JsonView::Text(text@),
                            ),
                        ),
                        None => fails("path is not UTF-8"@),
                    }
                },
                Located::Missing { why } => {
                    &&& *final(self) == *old(self)
                    &&& r@.lines == Seq::<Seq<char>>::empty()
                    &&& r@.next == (NextView::Fail {
                        message: "cannot find "@ + old(self)@.paths[old(self)@.at],
                        cause: Some(why@),
                    })
                },
            },
    {
        match found {
            Located::Found { shown, text } => {
                self.shown = shown;
                match text {
                    Some(text) => call(
                        no_lines(),
                        "offer.publish",
                        Json::object().with("drop", self.drop.copy()).with(
                            "path",
                            Json::Text(text),
                        ),
                    ),
                    None => fail("path is not UTF-8".to_owned()),
                }
            },
            Located::Missing { why } => Step {
                lines: no_lines(),
                next: Next::Fail {
                    message: "cannot find ".to_owned().concat(self.paths[self.at].as_str()),
                    cause: Some(why),
                },
            },
        }
    }

    /// The daemon started to publish, or refused.
    pub fn started(&self, reply: Result<Json, ApiError>) -> (r: Step)
        ensures
            r@ == waits(reply),
    {
        wait(reply)
    }

    /// The task ended with this state, or waiting for it failed. The next file is started
    /// only now: importing and hashing is not instant for a big tree.
    pub fn ended(&mut self, outcome: Result<Json, ApiError>) -> (r: Step)
        requires
            old(self).at < old(self).paths@.len(),
        ensures
            match outcome {
                Ok(p) => if p@.text_at("state"@) == Some("done"@) {
                    &&& final(self)@ == (SendingView { at: old(self)@.at + 1, ..old(self)@ })
                    &&& r@ == send_next(final(self)@, seq!["  added "@ + old(self)@.shown])
                } else {
                    &&& *final(self) == *old(self)
                    &&& r@ == fails(
                        "could not share "@ + old(self)@.shown + ": "@ + text_or_empty(
                            p@,
                            "error"@,
                        ),
                    )
                },
                Err(e) => {
                    &&& *final(self) == *old(self)
                    &&& r@ == fails("publishing "@ + old(self)@.shown + ": "@ + e@.message())
                },
            },
    {
        match outcome {
            Ok(p) => {
                if is_done(&p) {
                    let line = "  added ".to_owned().concat(self.shown.as_str());
                    assert(self.at < self.paths.len());
                    self.at = self.at + 1;
                    self.next(one_line(line))
                } else {
                    let error = str_of(&p, "error");
                    fail(
                        "could not share ".to_owned().concat(self.shown.as_str()).concat(
                            ": ",
                        ).concat(error.as_str()),
                    )
                }
            },
            Err(e) => fail(
                "publishing ".to_owned().concat(self.shown.as_str()).concat(": ").concat(
                    e.message().as_str(),
                ),
            ),
        }
    }

    /// The link is there, or not.
    pub fn ticketed(&self, reply: Result<Json, ApiError>) -> (r: Step)
        ensures
            r@ == match reply {
                Ok(ticket) => if self.qr {
                    StepView {
                        lines: link_lines(ticket@),
                        next: NextView::Qr { link: text_or_empty(ticket@, "link"@) },
                    }
                } else {
                    finishes(link_lines(ticket@) + send_farewell(self@.drop))
                },
                Err(e) => fails(e@.message()),
            },
    {
        match reply {
            Ok(ticket) => {
                let link = str_of(&ticket, "link");
                let mut lines = no_lines();
                add_line(&mut lines, "".to_owned());
                add_line(&mut lines, "Send this to whoever should get the files:".to_owned());
                add_line(&mut lines, "".to_owned());
                add_line(&mut lines, "  ".to_owned().concat(link.as_str()));
                add_line(&mut lines, "".to_owned());
                if let Some(web) = ticket.text_at("web_link") {
                    add_line(&mut lines, "Or, for anyone without the app:".to_owned());
                    add_line(&mut lines, "".to_owned());
                    add_line(&mut lines, "  ".to_owned().concat(web));
                    add_line(&mut lines, "".to_owned());
                }
                assert(texts(lines@) =~= link_lines(ticket@));
                if self.qr {
                    Step { lines, next: Next::Qr { link } }
                } else {
                    self.say_farewell(&mut lines);
                    finish(lines)
                }
            },
            Err(e) => refused(&e),
        }
    }

    fn say_farewell(&self, lines: &mut Vec<String>)
        ensures
            texts(final(lines)@) == texts(old(lines)@) + send_farewell(self@.drop),
    {
        let handle = match self.drop.as_str() {
            Some(handle) => handle.to_owned(),
            None => "".to_owned(),
        };
        add_line(lines, "The daemon keeps serving these files. Stop with:".to_owned());
        add_line(lines, "  iroh-drop drops --forget ".to_owned().concat(handle.as_str()));
        assert(texts(lines@) =~= texts(old(lines)@) + send_farewell(self@.drop));
    }

    /// The QR code has been shown.
    pub fn farewell(&self) -> (r: Step)
        ensures
            r@ == finishes(send_farewell(self@.drop)),
    {
        let mut lines = no_lines();
        self.say_farewell(&mut lines);
        assert(texts(lines@) =~= send_farewell(self@.drop));
        finish(lines)
    }
}

fn is_done(p: &Json) -> (r: bool)
    ensures
        r == (p@.text_at("state"@) == Some("done"@)),
{
    match p.text_at("state") {
        Some(state) => same(state, "done"),
        None => false,
    }
}

/// Where received files go.
#[derive(Debug)]
pub enum OutDir {
    /// Wherever the daemon puts them.
    Usual,
    /// To this place.
    Path(String),
    /// To a place whose name is not text.
    NotText,
}

/// Receiving files through the daemon.
#[derive(Debug)]
pub struct Getting {
    /// What to fetch; everything if this is not said.
    pub pick: Option<String>,
    /// Where it goes.
    pub out: OutDir,
    /// The drop.
    pub drop: Json,
    /// What is fetched, one by one.
    pub picks: Vec<String>,
    /// How many of those are dealt with.
    pub at: usize,
}

/// The model of a [`Getting`].
pub struct GettingView {
    /// What to fetch; everything if this is not said.
    pub pick: Option<Seq<char>>,
    /// Where it goes.
    pub out: OutDir,
    /// The drop.
    pub drop: JsonView,
    /// What is fetched, one by one.
    pub picks: Seq<Seq<char>>,
    /// How many of those are dealt with.
    pub at: int,
}

impl View for Getting {
    type V = GettingView;

    open spec fn view(&self) -> GettingView {
        GettingView {
            pick: opt_text(self.pick),
            out: self.out,
            drop: self.drop@,
            picks: texts(self.picks@),
            at: self.at as int,
        }
    }
}

/// How an item is listed. `number` is its number as JSON text.
pub open spec fn item_row(item: JsonView, number: Seq<char>) -> Seq<char> {
    "  "@ + number + "  "@ + left_aligned(text_or_empty(item, "name"@), 32) + " "@ + right_aligned(
        text_or_empty(item, "human_size"@),
        10,
    ) + "  "@ + text_or_empty(item, "kind"@)
}

fn show_item(item: &Json, number: &str) -> (r: String)
    ensures
        r@ == item_row(item@, number@),
{
    "  ".to_owned().concat(number).concat("  ").concat(
        pad_right(str_of(item, "name").as_str(), 32).as_str(),
    ).concat(" ").concat(pad_left(str_of(item, "human_size").as_str(), 10).as_str()).concat(
        "  ",
    ).concat(str_of(item, "kind").as_str())
}

/// The items in a reply.
pub open spec fn listed_items(reply: JsonView, key: Seq<char>) -> Seq<JsonView> {
    match reply.list_at(key) {
        Some(items) => items,
        None => Seq::empty(),
    }
}

/// How the values named `field` are shown, of each item in the list named `key`.
fn fields_of(reply: &Json, key: &str, field: &str) -> (r: Vec<String>)
    ensures
        texts(r@) == shown_fields(listed_items(reply@, key@), field@),
        r@.len() == listed_items(reply@, key@).len(),
{
    let r = match reply.list_at(key) {
        Some(items) => show_fields(items, field),
        None => no_lines(),
    };
    assert(texts(r@) =~= shown_fields(listed_items(reply@, key@), field@));
    assert(texts(r@).len() == r@.len());
    r
}

/// What is fetched next, or the end.
pub open spec fn get_next(s: GettingView, lines: Seq<Seq<char>>) -> StepView {
    if s.at < s.picks.len() {
        let params = object().with("drop"@, s.drop).with("pick"@, JsonView::Text(s.picks[s.at]));
        match s.out {
            OutDir::Usual => calls(lines, "offer.fetch"@, params),
            OutDir::Path(out) => calls(
                lines,
                "offer.fetch"@,
                params.with("out"@, JsonView::Text(out@)),
            ),
            OutDir::NotText => StepView {
                lines,
                next: NextView::Fail { message: "output path is not UTF-8"@, cause: None },
            },
        }
    } else {
        finishes(
            lines + seq![
                ""@,
                "You are now also serving these files, so others can get them from you."@,
            ],
        )
    }
}

/// The listing of what a drop offers.
pub open spec fn offer_rows(items: Seq<JsonView>, numbers: Seq<Seq<char>>) -> Seq<Seq<char>> {
    seq![""@] + Seq::new(items.len(), |i: int| item_row(items[i], numbers[i])) + seq![""@]
}

impl Getting {
    /// Who asks: a command that acts, and is never asked. Asking for a file *is* the
    /// consent; being asked too would download it a second time.
    pub fn hello() -> (r: Hello)
        ensures
            r.client@ == "iroh-drop get"@,
            r.api == API_VERSION,
            r.roles@ == seq![Role::Control],
    {
        Hello::control("iroh-drop get")
    }

    /// Joins a drop to fetch from it.
    pub fn begin(ticket: &str, pick: Option<String>, out: OutDir) -> (r: (Getting, Step))
        ensures
            r.0@ == (GettingView {
                pick: opt_text(pick),
                out,
                drop: JsonView::Null,
                picks: Seq::empty(),
                at: 0,
            }),
            r.1@ == calls(
                Seq::empty(),
                "drop.join"@,
                object().with("ticket"@, JsonView::Text(ticket@)),
            ),
    {
        let getting = Getting { pick, out, drop: Json::Null, picks: no_lines(), at: 0 };
        let params = Json::object().with("ticket", Json::text(ticket));
        (getting, call(no_lines(), "drop.join", params))
    }

    /// We are in the drop, or not.
    pub fn joined(&mut self, reply: Result<Json, ApiError>) -> (r: Step)
        ensures
            match reply {
                Ok(v) => {
                    &&& final(self)@ == (GettingView {
                        drop: value_or(v@, "drop"@, JsonView::Null),
                        ..old(self)@
                    })
                    &&& r@ == calls(
                        seq!["Joined. Looking for files\u{2026}"@],
                        "offer.list"@,
                        object().with("drop"@, final(self)@.drop),
                    )
                },
                Err(e) => *final(self) == *old(self) && r@ == fails(e@.message()),
            },
    {
        match reply {
            Ok(v) => {
                self.drop = take_or(&v, "drop", Json::Null);
                call(
                    one_line("Joined. Looking for files\u{2026}".to_owned()),
                    "offer.list",
                    Json::object().with("drop", self.drop.copy()),
                )
            },
            Err(e) => refused(&e),
        }
    }

    /// Looks once more, after a pause.
    pub fn look_again(&self) -> (r: Step)
        ensures
            r@ == calls(Seq::empty(), "offer.list"@, object().with("drop"@, self@.drop)),
    {
        call(no_lines(), "offer.list", Json::object().with("drop", self.drop.copy()))
    }

    /// What the drop offers. `late` says whether we have waited long enough: contents may
    /// arrive by catch-up or by a live announcement. Unless something was picked, everything
    /// is fetched, by the numbers that the reply gives.
    pub fn listed(&mut self, reply: Result<Json, ApiError>, late: bool) -> (r: Step)
        ensures
            match reply {
                Ok(v) => {
                    let items = listed_items(v@, "items"@);
                    let numbers = shown_fields(items, "n"@);
                    if items.len() > 0 {
                        &&& final(self)@ == (GettingView {
                            picks: match old(self)@.pick {
                                Some(pick) => seq![pick],
                                None => numbers,
                            },
                            at: 0,
                            ..old(self)@
                        })
                        &&& r@ == get_next(final(self)@, offer_rows(items, numbers))
                    } else {
                        &&& *final(self) == *old(self)
                        &&& r@ == if late {
                            fails("nothing was offered in this drop after 60s"@)
                        } else {
                            StepView { lines: Seq::empty(), next: NextView::Pause }
                        }
                    }
                },
                Err(e) => *final(self) == *old(self) && r@ == fails(e@.message()),
            },
    {
        let numbers = match &reply {
            Ok(v) => fields_of(v, "items", "n"),
            Err(_) => no_lines(),
        };
        self.listed_by(reply, &numbers, late)
    }

    /// What the drop offers, where `numbers` are the items' numbers as text.
    pub fn listed_by(
        &mut self,
        reply: Result<Json, ApiError>,
        numbers: &Vec<String>,
        late: bool,
    ) -> (r: Step)
        requires
            reply matches Ok(v) ==> numbers@.len() == listed_items(v@, "items"@).len(),
        ensures
            match reply {
                Ok(v) => {
                    let items = listed_items(v@, "items"@);
                    if items.len() > 0 {
                        &&& final(self)@ == (GettingView {
                            picks: match old(self)@.pick {
                                Some(pick) => seq![pick],
                                None => texts(numbers@),
                            },
                            at: 0,
                            ..old(self)@
                        })
                        &&& r@ == get_next(final(self)@, offer_rows(items, texts(numbers@)))
                    } else {
                        &&& *final(self) == *old(self)
                        &&& r@ == if late {
                            fails("nothing was offered in this drop after 60s"@)
                        } else {
                            StepView { lines: Seq::empty(), next: NextView::Pause }
                        }
                    }
                },
                Err(e) => *final(self) == *old(self) && r@ == fails(e@.message()),
            },
    {
        let v = match reply {
            Ok(v) => v,
            Err(e) => {
                return refused(&e);
            },
        };
        let nothing: Vec<Json> = Vec::new();
        let items = match v.list_at("items") {
            Some(items) => items,
            None => &nothing,
        };
        assert(json_views(items@) =~= listed_items(v@, "items"@));
        if items.len() == 0 {
            return if late {
                fail("nothing was offered in this drop after 60s".to_owned())
            } else {
                Step { lines: no_lines(), next: Next::Pause }
            };
        }
        let mut lines = one_line("".to_owned());
        let mut picks = no_lines();
        let mut i: usize = 0;
        let ghost views = json_views(items@);
        let ghost shown = texts(numbers@);
        assert(seq![""@] + Seq::new(0, |k: int| item_row(views[k], shown[k])) =~= seq![""@]);
        while i < items.len()
            invariant
                i <= items@.len() == numbers@.len(),
                views == json_views(items@),
                shown == texts(numbers@),
                texts(lines@) == seq![""@] + Seq::new(
                    i as nat,
                    |k: int| item_row(views[k], shown[k]),
                ),
                texts(picks@) == shown.take(i as int),
            decreases items@.len() - i,
        {
            assert(views[i as int] == items@[i as int]@);
            add_line(&mut lines, show_item(&items[i], numbers[i].as_str()));
            add_line(&mut picks, numbers[i].clone());
            assert(texts(lines@) =~= seq![""@] + Seq::new(
                (i + 1) as nat,
                |k: int| item_row(views[k], shown[k]),
            ));
            assert(shown.take(i + 1) =~= shown.take(i as int).push(shown[i as int]));
            i += 1;
        }
        assert(shown.take(i as int) =~= shown);
        add_line(&mut lines, "".to_owned());
        assert(texts(lines@) =~= offer_rows(views, shown));
        self.picks = match &self.pick {
            Some(pick) => one_line(pick.clone()),
            None => picks,
        };
        self.at = 0;
        self.next(lines)
    }

    fn next(&self, lines: Vec<String>) -> (r: Step)
        ensures
            r@ == get_next(self@, texts(lines@)),
    {
        if self.at < self.picks.len() {
            let params = Json::object().with("drop", self.drop.copy()).with(
                "pick",
                Json::text(self.picks[self.at].as_str()),
            );
            match &self.out {
                OutDir::Usual => call(lines, "offer.fetch", params),
                OutDir::Path(out) => call(
                    lines,
                    "offer.fetch",
                    params.with("out", Json::text(out.as_str())),
                ),
                OutDir::NotText => Step {
                    lines,
                    next: Next::Fail {
                        message: "output path is not UTF-8".to_owned(),
                        cause: None,
                    },
                },
            }
        } else {
            let ghost before = texts(lines@);
            let mut lines = lines;
            add_line(&mut lines, "".to_owned());
            add_line(
                &mut lines,
                "You are now also serving these files, so others can get them from you.".to_owned(),
            );
            assert(texts(lines@) =~= before + seq![
                ""@,
                "You are now also serving these files, so others can get them from you."@,
            ]);
            finish(lines)
        }
    }

    /// The daemon started to fetch, or refused.
    pub fn started(&self, reply: Result<Json, ApiError>) -> (r: Step)
        ensures
            r@ == waits(reply),
    {
        wait(reply)
    }

    /// The task ended with this state, or waiting for it failed. An item that failed does
    /// not keep the others from being fetched.
    pub fn ended(&mut self, outcome: Result<Json, ApiError>) -> (r: Step)
        requires
            old(self).at < old(self).picks@.len(),
        ensures
            match outcome {
                Ok(p) => {
                    let pick = old(self)@.picks[old(self)@.at];
                    &&& final(self)@ == (GettingView { at: old(self)@.at + 1, ..old(self)@ })
                    &&& r@ == get_next(
                        final(self)@,
                        seq![
                            if p@.text_at("state"@) == Some("done"@) {
                                "  \u{2714} got item "@ + pick
                            } else {
                                "  \u{2717} item "@ + pick + ": "@ + text_or_empty(p@, "error"@)
                            },
                        ],
                    )
                },
                Err(e) => *final(self) == *old(self) && r@ == fails(e@.message()),
            },
    {
        match outcome {
            Ok(p) => {
                let pick = self.picks[self.at].as_str();
                let line = if is_done(&p) {
                    "  \u{2714} got item ".to_owned().concat(pick)
                } else {
                    "  \u{2717} item ".to_owned().concat(pick).concat(": ").concat(
                        str_of(&p, "error").as_str(),
                    )
                };
                assert(self.at < self.picks.len());
                self.at = self.at + 1;
                self.next(one_line(line))
            },
            Err(e) => refused(&e),
        }
    }
}

/// Joins a drop without fetching anything.
pub fn join_call(ticket: &str) -> (r: (Hello, Step))
    ensures
        r.0.client@ == "iroh-drop join"@,
        r.0.api == API_VERSION,
        r.0.roles@ == seq![Role::Control],
        r.1@ == calls(
            Seq::empty(),
            "drop.join"@,
            object().with("ticket"@, JsonView::Text(ticket@)),
        ),
{
    (
        Hello::control("iroh-drop join"),
        call(no_lines(), "drop.join", Json::object().with("ticket", Json::text(ticket))),
    )
}

/// What is said of having joined.
pub open spec fn join_lines(joined: JsonView) -> Seq<Seq<char>> {
    let drop = text_or_empty(joined, "drop"@);
    if joined.flag_at("already"@) == Some(true) {
        seq![
            "Already in that group as "@ + drop
                + " \u{2014} one membership, however many times you join."@,
        ]
    } else {
        seq![
            "Joined as "@ + drop + ". You stay in the group until you leave it (`iroh-drop leave "@
                + drop + "`); "@,
            "anything offered shows up in the app, or with `iroh-drop watch`."@,
        ]
    }
}

/// We are in the drop, or not.
pub fn join_done(reply: Result<Json, ApiError>) -> (r: Step)
    ensures
        r@ == match reply {
            Ok(v) => finishes(join_lines(v@)),
            Err(e) => fails(e@.message()),
        },
{
    match reply {
        Ok(v) => {
            let drop = str_of(&v, "drop");
            let already = match v.flag_at("already") {
                Some(already) => already,
                None => false,
            };
            let mut lines = no_lines();
            if already {
                add_line(
                    &mut lines,
                    "Already in that group as ".to_owned().concat(drop.as_str()).concat(
                        " \u{2014} one membership, however many times you join.",
                    ),
                );
            } else {
                add_line(
                    &mut lines,
                    "Joined as ".to_owned().concat(drop.as_str()).concat(
                        ". You stay in the group until you leave it (`iroh-drop leave ",
                    ).concat(drop.as_str()).concat("`); "),
                );
                add_line(
                    &mut lines,
                    "anything offered shows up in the app, or with `iroh-drop watch`.".to_owned(),
                );
            }
            assert(texts(lines@) =~= join_lines(v@));
            finish(lines)
        },
        Err(e) => refused(&e),
    }
}

/// The handles in a list of drops.
pub open spec fn handles_of(rows: Seq<JsonView>) -> Seq<Seq<char>>
    decreases rows.len(),
{
    if rows.len() == 0 {
        Seq::empty()
    } else {
        let before = handles_of(rows.drop_last());
        match rows.last().text_at("drop"@) {
            Some(handle) => before.push(handle),
            None => before,
        }
    }
}

fn handles(rows: &Vec<Json>) -> (r: Vec<String>)
    ensures
        texts(r@) == handles_of(json_views(rows@)),
{
    let mut out = no_lines();
    let mut i: usize = 0;
    let ghost views = json_views(rows@);
    assert(views.take(0) =~= Seq::<JsonView>::empty());
    while i < rows.len()
        invariant
            i <= rows@.len(),
            views == json_views(rows@),
            texts(out@) == handles_of(views.take(i as int)),
        decreases rows@.len() - i,
    {
        assert(views.take(i + 1).drop_last() =~= views.take(i as int));
        assert(views.take(i + 1).last() == rows@[i as int]@);
        if let Some(handle) = rows[i].text_at("drop") {
            add_line(&mut out, handle.to_owned());
        }
        i += 1;
    }
    assert(views.take(i as int) =~= views);
    out
}

/// What the first drop with this handle is called.
pub open spec fn name_in(rows: Seq<JsonView>, drop: Seq<char>) -> Seq<char>
    decreases rows.len(),
{
    if rows.len() == 0 {
        "received files"@
    } else if rows[0].text_at("drop"@) == Some(drop) {
        match rows[0].text_at("name"@) {
            Some(name) => name,
            None => "received files"@,
        }
    } else {
        name_in(rows.drop_first(), drop)
    }
}

fn find_name(rows: &Vec<Json>, drop: &str) -> (r: String)
    ensures
        r@ == name_in(json_views(rows@), drop@),
{
    let mut i: usize = 0;
    let ghost views = json_views(rows@);
    assert(views.skip(0) =~= views);
    while i < rows.len()
        invariant
            i <= rows@.len(),
            views == json_views(rows@),
            name_in(views, drop@) == name_in(views.skip(i as int), drop@),
        decreases rows@.len() - i,
    {
        assert(views.skip(i as int)[0] == rows@[i as int]@);
        assert(views.skip(i as int).drop_first() =~= views.skip(i + 1));
        if let Some(handle) = rows[i].text_at("drop") {
            if same(handle, drop) {
                return match rows[i].text_at("name") {
                    Some(name) => name.to_owned(),
                    None => "received files".to_owned(),
                };
            }
        }
        i += 1;
    }
    "received files".to_owned()
}

/// Leaving a drop, or all of them: the explicit end of membership. Everything before this is
/// sticky: joining once means staying, across restarts.
#[derive(Debug)]
pub struct Leaving {
    /// What to leave: a handle, or `all`.
    pub drop: String,
    /// The handles that are left, one by one.
    pub handles: Vec<String>,
    /// How many of those are dealt with.
    pub at: usize,
    /// What the drop is called.
    pub name: String,
}

/// The model of a [`Leaving`].
pub struct LeavingView {
    /// What to leave: a handle, or `all`.
    pub drop: Seq<char>,
    /// The handles that are left, one by one.
    pub handles: Seq<Seq<char>>,
    /// How many of those are dealt with.
    pub at: int,
    /// What the drop is called.
    pub name: Seq<char>,
}

impl View for Leaving {
    type V = LeavingView;

    open spec fn view(&self) -> LeavingView {
        LeavingView {
            drop: self.drop@,
            handles: texts(self.handles@),
            at: self.at as int,
            name: self.name@,
        }
    }
}

/// What is left next, or the end.
pub open spec fn leave_next(s: LeavingView, lines: Seq<Seq<char>>) -> StepView {
    if s.at < s.handles.len() {
        calls(lines, "drop.leave"@, object().with("drop"@, JsonView::Text(s.handles[s.at])))
    } else {
        finishes(lines)
    }
}

impl Leaving {
    /// Who asks: a command that acts, and is never asked.
    pub fn hello() -> (r: Hello)
        ensures
            r.client@ == "iroh-drop leave"@,
            r.api == API_VERSION,
            r.roles@ == seq![Role::Control],
    {
        Hello::control("iroh-drop leave")
    }

    /// Leaves `drop`, or everything if that is `all`.
    pub fn begin(drop: &str) -> (r: (Leaving, Step))
        ensures
            r.0@ == (LeavingView { drop: drop@, handles: Seq::empty(), at: 0, name: ""@ }),
            r.1@ == calls(Seq::empty(), "drop.list"@, object()),
    {
        let leaving = Leaving {
            drop: drop.to_owned(),
            handles: no_lines(),
            at: 0,
            name: "".to_owned(),
        };
        (leaving, call(no_lines(), "drop.list", Json::object()))
    }

    fn next(&self, lines: Vec<String>) -> (r: Step)
        ensures
            r@ == leave_next(self@, texts(lines@)),
    {
        if self.at < self.handles.len() {
            call(
                lines,
                "drop.leave",
                Json::object().with("drop", Json::text(self.handles[self.at].as_str())),
            )
        } else {
            finish(lines)
        }
    }

    /// What there is to leave. A handle is left whether or not it is listed; the daemon
    /// says if there is no such drop.
    pub fn listed(&mut self, reply: Result<Json, ApiError>) -> (r: Step)
        ensures
            match reply {
                Ok(v) => {
                    let rows = listed_items(v@, "drops"@);
                    if old(self)@.drop == "all"@ {
                        &&& final(self)@ == (LeavingView {
                            handles: handles_of(rows),
                            at: 0,
                            ..old(self)@
                        })
                        &&& r@ == if handles_of(rows).len() == 0 {
                            finishes(seq!["Nothing to leave."@])
                        } else {
                            leave_next(final(self)@, Seq::empty())
                        }
                    } else {
                        &&& final(self)@ == (LeavingView {
                            handles: seq![old(self)@.drop],
                            at: 0,
                            name: name_in(rows, old(self)@.drop),
                            ..old(self)@
                        })
                        &&& r@ == leave_next(final(self)@, Seq::empty())
                    }
                },
                Err(e) => *final(self) == *old(self) && r@ == fails(e@.message()),
            },
    {
        let v = match reply {
            Ok(v) => v,
            Err(e) => {
                return refused(&e);
            },
        };
        let nothing: Vec<Json> = Vec::new();
        let rows = match v.list_at("drops") {
            Some(rows) => rows,
            None => &nothing,
        };
        assert(json_views(rows@) =~= listed_items(v@, "drops"@));
        self.at = 0;
        if same(self.drop.as_str(), "all") {
            self.handles = handles(rows);
            assert(texts(self.handles@).len() == self.handles@.len());
            if self.handles.len() == 0 {
                return finish(one_line("Nothing to leave.".to_owned()));
            }
        } else {
            self.name = find_name(rows, self.drop.as_str());
            self.handles = one_line(self.drop.clone());
        }
        self.next(no_lines())
    }

    /// The drop has been left, or not.
    pub fn left(&mut self, reply: Result<Json, ApiError>) -> (r: Step)
        requires
            old(self).at < old(self).handles@.len(),
        ensures
            match reply {
                Ok(v) => {
                    let handle = old(self)@.handles[old(self)@.at];
                    &&& final(self)@ == (LeavingView { at: old(self)@.at + 1, ..old(self)@ })
                    &&& r@ == leave_next(
                        final(self)@,
                        seq![
                            if old(self)@.drop == "all"@ {
                                "Left "@ + handle + "."@
                            } else {
                                "Left "@ + handle + " ("@ + old(self)@.name
                                    + "). The group keeps going without you."@
                            },
                        ],
                    )
                },
                Err(e) => *final(self) == *old(self) && r@ == fails(e@.message()),
            },
    {
        match reply {
            Ok(_) => {
                let handle = self.handles[self.at].as_str();
                let line = if same(self.drop.as_str(), "all") {
                    "Left ".to_owned().concat(handle).concat(".")
                } else {
                    "Left ".to_owned().concat(handle).concat(" (").concat(
                        self.name.as_str(),
                    ).concat("). The group keeps going without you.")
                };
                assert(self.at < self.handles.len());
                self.at = self.at + 1;
                self.next(one_line(line))
            },
            Err(e) => refused(&e),
        }
    }
}

/// What `drops` is asked for.
#[derive(Debug)]
pub enum DropsQuery {
    /// What the daemon hosts.
    Status,
    /// A fresh link for a drop.
    Ticket(String),
    /// To stop hosting a drop.
    Forget(String),
}

/// How a drop is listed.
pub open spec fn drop_row(d: JsonView, files: Seq<char>, peers: Seq<char>) -> Seq<char> {
    "  "@ + text_or_empty(d, "drop"@) + "  "@ + left_aligned(
        match d.text_at("name"@) {
            Some(name) => name,
            None => "received"@,
        },
        20,
    ) + " "@ + files + " file(s), "@ + text_or_empty(d, "human_size"@) + ", "@
        + peers + " peer(s)"@
}

fn show_drop(d: &Json, files: &str, peers: &str) -> (r: String)
    ensures
        r@ == drop_row(d@, files@, peers@),
{
    let name = match d.text_at("name") {
        Some(name) => name.to_owned(),
        None => "received".to_owned(),
    };
    "  ".to_owned().concat(str_of(d, "drop").as_str()).concat("  ").concat(
        pad_right(name.as_str(), 20).as_str(),
    ).concat(" ").concat(files).concat(" file(s), ").concat(
        str_of(d, "human_size").as_str(),
    ).concat(", ").concat(peers).concat(" peer(s)")
}

/// The line about the daemon itself.
pub open spec fn daemon_line(status: JsonView) -> Seq<char> {
    "daemon "@ + text_or_empty(status, "endpoint_id"@) + "  "@ + if status.flag_at("offline"@)
        == Some(true) {
        "LAN only (no relays)"@
    } else {
        "internet + LAN"@
    } + "  downloads: "@ + text_or_empty(status, "download_dir"@)
}

impl DropsQuery {
    /// What is asked for: a link before anything else, and a listing unless there is more.
    pub fn new(forget: Option<String>, ticket: Option<String>) -> (r: DropsQuery)
        ensures
            r == match ticket {
                Some(handle) => DropsQuery::Ticket(handle),
                None => match forget {
                    Some(handle) => DropsQuery::Forget(handle),
                    None => DropsQuery::Status,
                },
            },
    {
        match ticket {
            Some(handle) => DropsQuery::Ticket(handle),
            None => match forget {
                Some(handle) => DropsQuery::Forget(handle),
                None => DropsQuery::Status,
            },
        }
    }

    /// Who asks: whoever changes something or reveals a capability needs the control role; a
    /// plain listing stays an observer.
    pub fn hello(&self) -> (r: Hello)
        ensures
            r.client@ == "iroh-drop drops"@,
            r.api == API_VERSION,
            r.roles@ == if self is Status {
                seq![Role::Observer]
            } else {
                seq![Role::Control]
            },
    {
        match self {
            DropsQuery::Status => Hello::observer("iroh-drop drops"),
            _ => Hello::control("iroh-drop drops"),
        }
    }

    /// The call to start with.
    pub fn begin(&self) -> (r: Step)
        ensures
            r@ == match self {
                DropsQuery::Status => calls(Seq::empty(), "daemon.status"@, object()),
                DropsQuery::Ticket(handle) => calls(
                    Seq::empty(),
                    "drop.ticket"@,
                    object().with("drop"@, JsonView::Text(handle@)),
                ),
                DropsQuery::Forget(handle) => calls(
                    Seq::empty(),
                    "drop.leave"@,
                    object().with("drop"@, JsonView::Text(handle@)),
                ),
            },
    {
        match self {
            DropsQuery::Status => call(no_lines(), "daemon.status", Json::object()),
            DropsQuery::Ticket(handle) => call(
                no_lines(),
                "drop.ticket",
                Json::object().with("drop", Json::text(handle.as_str())),
            ),
            DropsQuery::Forget(handle) => call(
                no_lines(),
                "drop.leave",
                Json::object().with("drop", Json::text(handle.as_str())),
            ),
        }
    }

    /// The reply to that call.
    pub fn answered(&self, reply: Result<Json, ApiError>) -> (r: Step)
        ensures
            r@ == match reply {
                Ok(v) => match self {
                    DropsQuery::Status => calls(seq![daemon_line(v@)], "drop.list"@, object()),
                    DropsQuery::Ticket(handle) => finishes(seq![text_or_empty(v@, "link"@)]),
                    DropsQuery::Forget(handle) => finishes(
                        seq!["Stopped hosting "@ + handle@ + "."@],
                    ),
                },
                Err(e) => fails(e@.message()),
            },
    {
        match reply {
            Ok(v) => match self {
                DropsQuery::Status => {
                    let offline = match v.flag_at("offline") {
                        Some(offline) => offline,
                        None => false,
                    };
                    let net = if offline {
                        "LAN only (no relays)"
                    } else {
                        "internet + LAN"
                    };
                    let line = "daemon ".to_owned().concat(
                        str_of(&v, "endpoint_id").as_str(),
                    ).concat("  ").concat(net).concat("  downloads: ").concat(
                        str_of(&v, "download_dir").as_str(),
                    );
                    call(one_line(line), "drop.list", Json::object())
                },
                DropsQuery::Ticket(_) => finish(one_line(str_of(&v, "link"))),
                DropsQuery::Forget(handle) => finish(
                    one_line("Stopped hosting ".to_owned().concat(handle.as_str()).concat(".")),
                ),
            },
            Err(e) => refused(&e),
        }
    }
}

/// The listing of the daemon's drops.
pub open spec fn drop_rows(
    rows: Seq<JsonView>,
    files: Seq<Seq<char>>,
    peers: Seq<Seq<char>>,
) -> Seq<Seq<char>> {
    if rows.len() == 0 {
        seq![""@, "No drops. Share something with:  iroh-drop send <file>"@]
    } else {
        seq![""@] + Seq::new(rows.len(), |i: int| drop_row(rows[i], files[i], peers[i])) + seq![
            ""@,
            "Drops persist across restarts. Leave one with:  iroh-drop leave <id>"@,
        ]
    }
}

/// The drops that the daemon hosts, with as many files and peers as the reply says.
pub fn drops_listed(reply: Result<Json, ApiError>) -> (r: Step)
    ensures
        r@ == match reply {
            Ok(v) => {
                let rows = listed_items(v@, "drops"@);
                finishes(
                    drop_rows(rows, shown_fields(rows, "files"@), shown_fields(rows, "peers"@)),
                )
            },
            Err(e) => fails(e@.message()),
        },
{
    let (files, peers) = match &reply {
        Ok(v) => (fields_of(v, "drops", "files"), fields_of(v, "drops", "peers")),
        Err(_) => (no_lines(), no_lines()),
    };
    drops_counted(reply, &files, &peers)
}

/// The drops that the daemon hosts, where `files` and `peers` say how many each has.
pub fn drops_counted(
    reply: Result<Json, ApiError>,
    files: &Vec<String>,
    peers: &Vec<String>,
) -> (r: Step)
    requires
        reply matches Ok(v) ==> files@.len() == peers@.len() == listed_items(v@, "drops"@).len(),
    ensures
        r@ == match reply {
            Ok(v) => finishes(
                drop_rows(listed_items(v@, "drops"@), texts(files@), texts(peers@)),
            ),
            Err(e) => fails(e@.message()),
        },
{
    let v = match reply {
        Ok(v) => v,
        Err(e) => {
            return refused(&e);
        },
    };
    let nothing: Vec<Json> = Vec::new();
    let rows = match v.list_at("drops") {
        Some(rows) => rows,
        None => &nothing,
    };
    let ghost views = json_views(rows@);
    let ghost fs = texts(files@);
    let ghost ps = texts(peers@);
    assert(views =~= listed_items(v@, "drops"@));
    let mut lines = one_line("".to_owned());
    if rows.len() == 0 {
        add_line(
            &mut lines,
            "No drops. Share something with:  iroh-drop send <file>".to_owned(),
        );
        assert(texts(lines@) =~= drop_rows(views, fs, ps));
        return finish(lines);
    }
    let mut i: usize = 0;
    assert(seq![""@] + Seq::new(0, |k: int| drop_row(views[k], fs[k], ps[k])) =~= seq![""@]);
    while i < rows.len()
        invariant
            i <= rows@.len(),
            files@.len() == peers@.len() == rows@.len(),
            views == json_views(rows@),
            fs == texts(files@),
            ps == texts(peers@),
            texts(lines@) == seq![""@] + Seq::new(
                i as nat,
                |k: int| drop_row(views[k], fs[k], ps[k]),
            ),
        decreases rows@.len() - i,
    {
        assert(views[i as int] == rows@[i as int]@);
        add_line(&mut lines, show_drop(&rows[i], files[i].as_str(), peers[i].as_str()));
        assert(texts(lines@) =~= seq![""@] + Seq::new(
            (i + 1) as nat,
            |k: int| drop_row(views[k], fs[k], ps[k]),
        ));
        i += 1;
    }
    add_line(&mut lines, "".to_owned());
    add_line(
        &mut lines,
        "Drops persist across restarts. Leave one with:  iroh-drop leave <id>".to_owned(),
    );
    assert(texts(lines@) =~= drop_rows(views, fs, ps));
    finish(lines)
}

/// Who watches: a client that is asked for consent.
///
/// Only `watch` is one. The daemon routes each consent question to a client with this role,
/// so a one-shot command that had it without a prompt would silently decline offers meant
/// for somebody's `watch` in another terminal.
pub fn watch_hello() -> (r: Hello)
    ensures
        r.client@ == "iroh-drop watch"@,
        r.api == API_VERSION,
        r.roles@ == seq![Role::Ui, Role::Control],
{
    Hello::ui("iroh-drop watch")
}

/// What is said when watching begins, or why it does not.
pub fn watch_begins(status: Result<Json, ApiError>, all: bool) -> (r: Result<Vec<String>, String>)
    ensures
        match status {
            Ok(v) => {
                let first = seq!["Watching. Files land in "@ + text_or_empty(v@, "download_dir"@)];
                let last = seq!["Ctrl-C to stop."@, ""@];
                &&& r matches Ok(lines)
                &&& texts(lines@) == if all {
                    first
                        + seq!["\u{26a0} --yes is on: anything offered will be downloaded without asking."@]
                        + last
                } else {
                    first + last
                }
            },
            Err(e) => r is Err && r->Err_0@ == e@.message(),
        },
{
    match status {
        Ok(v) => {
            let dir = str_of(&v, "download_dir");
            let ghost first = seq!["Watching. Files land in "@ + dir@];
            let ghost last = seq!["Ctrl-C to stop."@, ""@];
            let mut lines = one_line("Watching. Files land in ".to_owned().concat(dir.as_str()));
            if all {
                add_line(
                    &mut lines,
                    "\u{26a0} --yes is on: anything offered will be downloaded without asking.".to_owned(),
                );
            }
            add_line(&mut lines, "Ctrl-C to stop.".to_owned());
            add_line(&mut lines, "".to_owned());
            assert(all ==> texts(lines@) =~= first
                + seq!["\u{26a0} --yes is on: anything offered will be downloaded without asking."@]
                + last);
            assert(!all ==> texts(lines@) =~= first + last);
            Ok(lines)
        },
        Err(e) => Err(e.message()),
    }
}

/// How a person is asked. Everything in an offer is untrusted display metadata: the name is
/// quoted, so that a filename cannot impersonate our own output.
pub fn prompt(offer: &Json) -> (r: Vec<String>)
    ensures
        texts(r@) == seq![
            ""@,
            "  Incoming file: "@ + quoted(text_or_empty(offer@, "name"@)) + "  ("@ + text_or_empty(
                offer@,
                "human_size"@,
            ) + ")"@,
            "  From peer:     "@ + first_chars(text_or_empty(offer@, "from"@), 10),
            "  Accept? [y/N] "@,
        ],
{
    let name = quote(str_of(offer, "name").as_str());
    let from = take_chars(str_of(offer, "from").as_str(), 10);
    let mut lines = one_line("".to_owned());
    add_line(
        &mut lines,
        "  Incoming file: ".to_owned().concat(name.as_str()).concat("  (").concat(
            str_of(offer, "human_size").as_str(),
        ).concat(")"),
    );
    add_line(&mut lines, "  From peer:     ".to_owned().concat(from.as_str()));
    add_line(&mut lines, "  Accept? [y/N] ".to_owned());
    assert(texts(lines@) =~= seq![
        ""@,
        "  Incoming file: "@ + quoted(text_or_empty(offer@, "name"@)) + "  ("@ + text_or_empty(
            offer@,
            "human_size"@,
        ) + ")"@,
        "  From peer:     "@ + first_chars(text_or_empty(offer@, "from"@), 10),
        "  Accept? [y/N] "@,
    ]);
    lines
}

/// Whether a person said yes.
pub open spec fn means_yes(line: Seq<char>) -> bool {
    let said = lowered(trimmed(line));
    said == "y"@ || said == "yes"@
}

/// What the daemon is told, given what a person typed. Whatever is not a yes, a failure to
/// read it too, is left unanswered: silence is never consent.
pub fn consent(typed: &Option<String>) -> (r: Option<Json>)
    ensures
        match r {
            Some(answer) => {
                &&& *typed matches Some(line)
                &&& means_yes(line@)
                &&& answer@ == object().with("accept"@, JsonView::Bool(true))
            },
            None => *typed matches Some(line) ==> !means_yes(line@),
        },
{
    match typed {
        Some(line) => {
            let said = lower(trim(line.as_str()));
            if same(said.as_str(), "y") || same(said.as_str(), "yes") {
                Some(accept_all())
            } else {
                None
            }
        },
        None => None,
    }
}

/// What somebody who watches sees.
#[derive(Debug)]
pub enum Shown {
    /// Lines.
    Lines(Vec<String>),
    /// Something that overwrites the current line and leaves it open.
    Over(String),
    /// Nothing.
    Nothing,
}

/// The model of a [`Shown`].
pub enum ShownView {
    /// Lines.
    Lines(Seq<Seq<char>>),
    /// Something that overwrites the current line and leaves it open.
    Over(Seq<char>),
    /// Nothing.
    Nothing,
}

impl View for Shown {
    type V = ShownView;

    open spec fn view(&self) -> ShownView {
        match self {
            Shown::Lines(lines) => ShownView::Lines(texts(lines@)),
            Shown::Over(line) => ShownView::Over(line@),
            Shown::Nothing => ShownView::Nothing,
        }
    }
}

/// The lines for the texts in a list of paths.
pub open spec fn path_lines(paths: Seq<JsonView>) -> Seq<Seq<char>>
    decreases paths.len(),
{
    if paths.len() == 0 {
        Seq::empty()
    } else {
        let before = path_lines(paths.drop_last());
        match paths.last().text() {
            Some(path) => before.push("      "@ + path),
            None => before,
        }
    }
}

/// What somebody who watches sees of an event.
pub open spec fn watched(name: Seq<char>, p: JsonView) -> ShownView {
    if name == "offer.received"@ {
        ShownView::Lines(
            seq![
                "  offered  "@ + quoted(text_or_empty(p, "name"@)) + "  ("@ + text_or_empty(
                    p,
                    "human_size"@,
                ) + ")"@,
            ],
        )
    } else if name == "offer.declined"@ {
        ShownView::Lines(seq!["  declined "@ + text_or_empty(p, "reason"@) + " "@])
    } else if name == "fetch.progress"@ {
        let done: u64 = match p.number_at("downloaded"@) {
            Some(done) => done,
            None => 0,
        };
        match p.number_at("total"@) {
            Some(total) => if total > 0 {
                ShownView::Over(
                    "\r  receiving\u{2026} "@ + decimal(percent_of(done as nat, total as nat))
                        + "%"@,
                )
            } else {
                ShownView::Nothing
            },
            None => ShownView::Nothing,
        }
    } else if name == "fetch.materialized"@ {
        let paths = listed_items(p, "paths"@);
        ShownView::Lines(
            seq!["\r  \u{2714} saved "@ + decimal(paths.len()) + " file(s)"@] + path_lines(paths),
        )
    } else if name == "fetch.failed"@ {
        ShownView::Lines(seq!["\r  \u{2717} failed: "@ + text_or_empty(p, "error"@)])
    } else if name == "peer.joined"@ {
        ShownView::Lines(seq!["  a peer joined"@])
    } else {
        ShownView::Nothing
    }
}

/// What somebody who watches sees of an event.
pub fn print_event(name: &str, p: &Json) -> (r: Shown)
    ensures
        r@ == watched(name@, p@),
{
    if same(name, "offer.received") {
        let quoted_name = quote(str_of(p, "name").as_str());
        Shown::Lines(
            one_line(
                "  offered  ".to_owned().concat(quoted_name.as_str()).concat("  (").concat(
                    str_of(p, "human_size").as_str(),
                ).concat(")"),
            ),
        )
    } else if same(name, "offer.declined") {
        Shown::Lines(
            one_line("  declined ".to_owned().concat(str_of(p, "reason").as_str()).concat(" ")),
        )
    } else if same(name, "fetch.progress") {
        let done: u64 = match p.number_at("downloaded") {
            Some(done) => done,
            None => 0,
        };
        match p.number_at("total") {
            Some(total) => if total > 0 {
                Shown::Over(
                    "\r  receiving\u{2026} ".to_owned().concat(
                        wide_number(percent(done, total)).as_str(),
                    ).concat("%"),
                )
            } else {
                Shown::Nothing
            },
            None => Shown::Nothing,
        }
    } else if same(name, "fetch.materialized") {
        saved_lines(p)
    } else if same(name, "fetch.failed") {
        Shown::Lines(
            one_line("\r  \u{2717} failed: ".to_owned().concat(str_of(p, "error").as_str())),
        )
    } else if same(name, "peer.joined") {
        Shown::Lines(one_line("  a peer joined".to_owned()))
    } else {
        Shown::Nothing
    }
}

fn saved_lines(p: &Json) -> (r: Shown)
    ensures
        r@ == ShownView::Lines(
            seq![
                "\r  \u{2714} saved "@ + decimal(listed_items(p@, "paths"@).len()) + " file(s)"@,
            ] + path_lines(listed_items(p@, "paths"@)),
        ),
{
    let nothing: Vec<Json> = Vec::new();
    let paths = match p.list_at("paths") {
        Some(paths) => paths,
        None => &nothing,
    };
    let ghost views = json_views(paths@);
    assert(views =~= listed_items(p@, "paths"@));
    let ghost head = seq!["\r  \u{2714} saved "@ + decimal(views.len()) + " file(s)"@];
    let mut lines = one_line(
        "\r  \u{2714} saved ".to_owned().concat(number(paths.len() as u64).as_str()).concat(
            " file(s)",
        ),
    );
    let mut i: usize = 0;
    assert(views.take(0) =~= Seq::<JsonView>::empty());
    assert(head + Seq::<Seq<char>>::empty() =~= head);
    while i < paths.len()
        invariant
            i <= paths@.len(),
            views == json_views(paths@),
            texts(lines@) == head + path_lines(views.take(i as int)),
        decreases paths@.len() - i,
    {
        assert(views.take(i + 1).drop_last() =~= views.take(i as int));
        assert(views.take(i + 1).last() == paths@[i as int]@);
        if let Some(path) = paths[i].as_str() {
            add_line(&mut lines, "      ".to_owned().concat(path));
        }
        assert(texts(lines@) =~= head + path_lines(views.take(i + 1)));
        i += 1;
    }
    assert(views.take(i as int) =~= views);
    Shown::Lines(lines)
}

/// How it is said that some events were missed.
pub fn missed(n: u64) -> (r: String)
    ensures
        r@ == "  (missed "@ + decimal(n as nat) + " events)"@,
{
    "  (missed ".to_owned().concat(number(n).as_str()).concat(" events)")
}

} // verus!

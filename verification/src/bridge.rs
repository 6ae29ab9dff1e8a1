//! What the desktop app knows, and how it changes.
//!
//! The window never waits for anything. It hands over [`Cmd`]s and shows [`UiState`]; the
//! worker behind it talks to the daemon. What the worker decides is here: a command that
//! needs the daemon comes back as a [`UiStep`] with what remains to be done.

use crate::client::AskRequest;
use crate::frame::{ApiError, Envelope, EnvelopeView};
use crate::json::{field, json_views, object, str_of, text_or_empty, Json, JsonView};
use crate::order::arranged;
use crate::path::{below, file_name, file_name_text, join_path};
use crate::service::{drop_json, DropFacts, HostedView, Service, ServiceOptions};
use crate::table::Table;
use crate::text::{
    add_line, copy_text, decimal, first_chars, number, one_line, opt_text, same, take_chars, texts,
    trimmed,
};
use crate::ticket::{extract_ticket, ticket_in, Prefixes};
use vstd::prelude::*;

verus! {

/// How long after asking for a drop's contents we treat its offers as already consented to,
/// in milliseconds.
///
/// Pasting a link *is* consent for what is in that drop. But a drop you joined last month
/// suddenly pushing you a large file is a different question, so the grace is short.
pub const RECEIVE_GRACE: u64 = 60_000;

/// How long an answer is waited for when the daemon does not say, in milliseconds.
pub const DEFAULT_TTL: u64 = 60_000;

/// What is taken off a question's deadline for the round trip, in milliseconds.
pub const ROUND_TRIP: u64 = 2_000;

/// How long a drop may stay empty after it was joined, in milliseconds.
pub const RECEIVE_WAIT: u64 = 60_000;

/// How many notes are kept.
pub const MAX_NOTES: usize = 200;

/// A path to send.
#[derive(Debug)]
pub struct SendPath {
    /// The path, where it is valid text.
    pub text: Option<String>,
    /// How it is shown.
    pub shown: String,
}

/// What the UI asks the daemon to do.
#[derive(Debug)]
pub enum Cmd {
    /// Share these paths as one new drop.
    Send(Vec<SendPath>),
    /// Join a drop from a ticket or a link, and fetch everything in it.
    Receive(String),
    /// Answer a consent question.
    Answer {
        /// The question's correlation id.
        id: u64,
        /// Whether the human said yes.
        accept: bool,
    },
    /// Stop hosting a drop.
    Forget(String),
    /// Fetch an offer sitting in one of our groups. Asking is consent.
    Fetch {
        /// The drop the offer lives in.
        drop: String,
        /// The listing number that the daemon expects.
        pick: String,
        /// Display name, for the log line.
        name: String,
    },
    /// Fetch again what could not be fetched, by its name.
    Retry {
        /// The drop the offer lives in.
        drop: String,
        /// The name.
        name: String,
    },
    /// Show the link of a drop.
    Ticket {
        /// The drop.
        handle: String,
        /// Its display name.
        name: String,
    },
    /// Take the last error off the window.
    DismissError,
    /// Take finished transfers off the window.
    ClearFinished,
}

/// One thing being sent or received.
#[derive(Debug)]
pub struct Transfer {
    /// The drop it belongs to, where that is known.
    pub drop: String,
    /// Display name, from untrusted offer metadata.
    pub name: String,
    /// Bytes transferred so far.
    pub done: u64,
    /// Advertised total, when known.
    pub total: Option<u64>,
    /// Whether it finished, successfully or not.
    pub finished: bool,
    /// Why it failed, if it did.
    pub failed: Option<String>,
    /// Where the bytes landed.
    pub saved_to: Vec<String>,
}

/// The model of a [`Transfer`].
#[verifier::ext_equal]
pub struct TransferView {
    /// The drop it belongs to.
    pub drop: Seq<char>,
    /// Display name.
    pub name: Seq<char>,
    /// Bytes transferred so far.
    pub done: u64,
    /// Advertised total.
    pub total: Option<u64>,
    /// Whether it finished.
    pub finished: bool,
    /// Why it failed.
    pub failed: Option<Seq<char>>,
    /// Where the bytes landed.
    pub saved_to: Seq<Seq<char>>,
}

impl View for Transfer {
    type V = TransferView;

    open spec fn view(&self) -> TransferView {
        TransferView {
            drop: self.drop@,
            name: self.name@,
            done: self.done,
            total: self.total,
            finished: self.finished,
            failed: opt_text(self.failed),
            saved_to: texts(self.saved_to@),
        }
    }
}

/// A pending "shall I accept this?" question.
#[derive(Debug)]
pub struct Incoming {
    /// Correlation id to answer with.
    pub id: u64,
    /// The drop it is about.
    pub drop: String,
    /// Offered name. Untrusted; always shown quoted.
    pub name: String,
    /// Human-readable size.
    pub size: String,
    /// Shortened sender id.
    pub from: String,
    /// When the daemon stops accepting an answer, in milliseconds. After this the card must
    /// go: an Accept button that cannot work is worse than no button.
    pub expires_at: u128,
}

/// The model of an [`Incoming`].
#[verifier::ext_equal]
pub struct IncomingView {
    /// Correlation id.
    pub id: u64,
    /// The drop it is about.
    pub drop: Seq<char>,
    /// Offered name.
    pub name: Seq<char>,
    /// Human-readable size.
    pub size: Seq<char>,
    /// Shortened sender id.
    pub from: Seq<char>,
    /// When the daemon stops accepting an answer.
    pub expires_at: nat,
}

impl View for Incoming {
    type V = IncomingView;

    open spec fn view(&self) -> IncomingView {
        IncomingView {
            id: self.id,
            drop: self.drop@,
            name: self.name@,
            size: self.size@,
            from: self.from@,
            expires_at: self.expires_at as nat,
        }
    }
}

/// One drop this daemon is hosting.
#[derive(Debug)]
pub struct DropRow {
    /// Daemon-local handle, e.g. `d1`.
    pub handle: String,
    /// Display name.
    pub name: String,
    /// How many items are offered.
    pub files: u64,
    /// How many peers are connected.
    pub peers: u64,
    /// True when we created the drop; false for a group we joined.
    pub mine: bool,
}

/// The model of a [`DropRow`].
#[verifier::ext_equal]
pub struct DropRowView {
    /// Daemon-local handle.
    pub handle: Seq<char>,
    /// Display name.
    pub name: Seq<char>,
    /// How many items are offered.
    pub files: u64,
    /// How many peers are connected.
    pub peers: u64,
    /// Whether we created the drop.
    pub mine: bool,
}

impl View for DropRow {
    type V = DropRowView;

    open spec fn view(&self) -> DropRowView {
        DropRowView {
            handle: self.handle@,
            name: self.name@,
            files: self.files,
            peers: self.peers,
            mine: self.mine,
        }
    }
}

/// A file offered in one of our groups that we have not fetched. Membership is sticky, so
/// this row is too: it stays, fetchable, until fetched or until we leave the group.
#[derive(Debug)]
pub struct AvailableRow {
    /// The drop the offer lives in.
    pub drop: String,
    /// The group's display name.
    pub group: String,
    /// The listing number that the daemon expects.
    pub pick: String,
    /// Display name, from untrusted offer metadata.
    pub name: String,
    /// Human-readable size.
    pub size: String,
}

/// The model of an [`AvailableRow`].
#[verifier::ext_equal]
pub struct AvailableView {
    /// The drop the offer lives in.
    pub drop: Seq<char>,
    /// The group's display name.
    pub group: Seq<char>,
    /// The listing number.
    pub pick: Seq<char>,
    /// Display name.
    pub name: Seq<char>,
    /// Human-readable size.
    pub size: Seq<char>,
}

impl View for AvailableRow {
    type V = AvailableView;

    open spec fn view(&self) -> AvailableView {
        AvailableView {
            drop: self.drop@,
            group: self.group@,
            pick: self.pick@,
            name: self.name@,
            size: self.size@,
        }
    }
}

/// Everything the window renders.
#[derive(Debug)]
pub struct UiState {
    /// Whether the daemon connection is up.
    pub connected: bool,
    /// Whether the daemon refuses relays and public lookup.
    pub lan_only: bool,
    /// Our own stable endpoint id.
    pub endpoint_id: String,
    /// Where accepted files land.
    pub download_dir: String,
    /// The link for the most recent send, ready to hand out.
    pub share_link: Option<String>,
    /// What that link is for.
    pub share_link_name: Option<String>,
    /// A short label while something is in flight.
    pub busy: Option<String>,
    /// The last thing that went wrong, in plain language.
    pub error: Option<String>,
    /// Consent questions awaiting an answer.
    pub incoming: Vec<Incoming>,
    /// Transfers, oldest first.
    pub transfers: Vec<Transfer>,
    /// Drops this daemon hosts.
    pub drops: Vec<DropRow>,
    /// Offered in our groups, not yet fetched.
    pub available: Vec<AvailableRow>,
    /// Human-readable notes.
    pub log: Vec<String>,
}

/// The model of [`UiState`].
#[verifier::ext_equal]
pub struct UiView {
    /// Whether the daemon connection is up.
    pub connected: bool,
    /// Whether the daemon refuses relays and public lookup.
    pub lan_only: bool,
    /// Our own stable endpoint id.
    pub endpoint_id: Seq<char>,
    /// Where accepted files land.
    pub download_dir: Seq<char>,
    /// The link for the most recent send.
    pub share_link: Option<Seq<char>>,
    /// What that link is for.
    pub share_link_name: Option<Seq<char>>,
    /// A short label while something is in flight.
    pub busy: Option<Seq<char>>,
    /// The last thing that went wrong.
    pub error: Option<Seq<char>>,
    /// Consent questions awaiting an answer.
    pub incoming: Seq<IncomingView>,
    /// Transfers, oldest first.
    pub transfers: Seq<TransferView>,
    /// Drops this daemon hosts.
    pub drops: Seq<DropRowView>,
    /// Offered in our groups, not yet fetched.
    pub available: Seq<AvailableView>,
    /// Human-readable notes.
    pub log: Seq<Seq<char>>,
}

/// The models of questions.
pub open spec fn incoming_views(s: Seq<Incoming>) -> Seq<IncomingView> {
    Seq::new(s.len(), |i: int| s[i]@)
}

/// The models of transfers.
pub open spec fn transfer_views(s: Seq<Transfer>) -> Seq<TransferView> {
    Seq::new(s.len(), |i: int| s[i]@)
}

/// The models of hosted drops.
pub open spec fn row_views(s: Seq<DropRow>) -> Seq<DropRowView> {
    Seq::new(s.len(), |i: int| s[i]@)
}

/// The models of available offers.
pub open spec fn available_views(s: Seq<AvailableRow>) -> Seq<AvailableView> {
    Seq::new(s.len(), |i: int| s[i]@)
}

impl View for UiState {
    type V = UiView;

    open spec fn view(&self) -> UiView {
        UiView {
            connected: self.connected,
            lan_only: self.lan_only,
            endpoint_id: self.endpoint_id@,
            download_dir: self.download_dir@,
            share_link: opt_text(self.share_link),
            share_link_name: opt_text(self.share_link_name),
            busy: opt_text(self.busy),
            error: opt_text(self.error),
            incoming: incoming_views(self.incoming@),
            transfers: transfer_views(self.transfers@),
            drops: row_views(self.drops@),
            available: available_views(self.available@),
            log: texts(self.log@),
        }
    }
}

/// The number named `key`, or zero.
pub open spec fn number_or_zero(v: JsonView, key: Seq<char>) -> u64 {
    match v.number_at(key) {
        Some(n) => n,
        None => 0,
    }
}

fn number_of(v: &Json, key: &str) -> (r: u64)
    ensures
        r == number_or_zero(v@, key@),
{
    match v.number_at(key) {
        Some(n) => n,
        None => 0,
    }
}

/// Where the first unfinished transfer called `name` stands.
pub open spec fn open_transfer(transfers: Seq<TransferView>, name: Seq<char>) -> Option<int>
    decreases transfers.len(),
{
    if transfers.len() == 0 {
        None
    } else {
        match open_transfer(transfers.drop_last(), name) {
            Some(i) => Some(i),
            None => if transfers.last().name == name && !transfers.last().finished {
                Some(transfers.len() - 1)
            } else {
                None
            },
        }
    }
}

proof fn lemma_open_transfer(transfers: Seq<TransferView>, name: Seq<char>)
    ensures
        match open_transfer(transfers, name) {
            Some(i) => 0 <= i < transfers.len() && transfers[i].name == name
                && !transfers[i].finished,
            None => true,
        },
    decreases transfers.len(),
{
    if transfers.len() > 0 {
        lemma_open_transfer(transfers.drop_last(), name);
    }
}

/// The questions that can still be answered at `now`.
pub open spec fn unexpired(s: Seq<IncomingView>, now: nat) -> Seq<IncomingView>
    decreases s.len(),
{
    if s.len() == 0 {
        Seq::empty()
    } else {
        let front = unexpired(s.drop_last(), now);
        if s.last().expires_at > now {
            front.push(s.last())
        } else {
            front
        }
    }
}

/// The questions other than `id`.
pub open spec fn other_questions(s: Seq<IncomingView>, id: u64) -> Seq<IncomingView>
    decreases s.len(),
{
    if s.len() == 0 {
        Seq::empty()
    } else {
        let front = other_questions(s.drop_last(), id);
        if s.last().id != id {
            front.push(s.last())
        } else {
            front
        }
    }
}

/// The transfers that are not finished.
pub open spec fn unfinished(s: Seq<TransferView>) -> Seq<TransferView>
    decreases s.len(),
{
    if s.len() == 0 {
        Seq::empty()
    } else {
        let front = unfinished(s.drop_last());
        if s.last().finished {
            front
        } else {
            front.push(s.last())
        }
    }
}

/// The display name of a blob.
pub open spec fn name_for(names: Map<Seq<char>, String>, hash: Seq<char>) -> Seq<char> {
    if names.contains_key(hash) {
        names[hash]@
    } else {
        "file"@
    }
}

/// The texts among values.
pub open spec fn texts_among(s: Seq<JsonView>) -> Seq<Seq<char>>
    decreases s.len(),
{
    if s.len() == 0 {
        Seq::empty()
    } else {
        match s.last().text() {
            Some(t) => texts_among(s.drop_last()).push(t),
            None => texts_among(s.drop_last()),
        }
    }
}

/// The texts in the list named `key`.
pub open spec fn texts_at(v: JsonView, key: Seq<char>) -> Seq<Seq<char>> {
    match v.list_at(key) {
        Some(items) => texts_among(items),
        None => Seq::empty(),
    }
}

fn list_texts(v: &Json, key: &str) -> (r: Vec<String>)
    ensures
        texts(r@) == texts_at(v@, key@),
{
    let mut out: Vec<String> = Vec::new();
    assert(texts(out@) =~= Seq::<Seq<char>>::empty());
    match v.list_at(key) {
        Some(items) => {
            let ghost all = json_views(items@);
            let mut i: usize = 0;
            assert(all.take(0) =~= Seq::<JsonView>::empty());
            while i < items.len()
                invariant
                    i <= items@.len(),
                    all == json_views(items@),
                    texts(out@) == texts_among(all.take(i as int)),
                decreases items@.len() - i,
            {
                assert(all.take(i + 1).drop_last() =~= all.take(i as int));
                assert(all.take(i + 1).last() == items@[i as int]@);
                if let Some(t) = items[i].as_str() {
                    let ghost before = out@;
                    let t = t.to_owned();
                    out.push(t);
                    assert(texts(out@) =~= texts(before).push(t@));
                }
                i += 1;
            }
            assert(all.take(i as int) =~= all);
            out
        },
        None => out,
    }
}

impl UiView {
    /// The state before anything is known.
    pub open spec fn blank() -> UiView {
        UiView {
            connected: false,
            lan_only: false,
            endpoint_id: ""@,
            download_dir: ""@,
            share_link: None,
            share_link_name: None,
            busy: None,
            error: None,
            incoming: Seq::empty(),
            transfers: Seq::empty(),
            drops: Seq::empty(),
            available: Seq::empty(),
            log: Seq::empty(),
        }
    }

    /// The state with one more note; the oldest gives way when there are too many.
    pub open spec fn note(self, line: Seq<char>) -> UiView {
        let all = self.log.push(line);
        UiView {
            log: if all.len() > MAX_NOTES {
                all.drop_first()
            } else {
                all
            },
            ..self
        }
    }

    /// The state after a daemon event.
    pub open spec fn event(self, names: Map<Seq<char>, String>, env: EnvelopeView) -> UiView {
        let name = name_for(names, text_or_empty(env.p, "hash"@));
        let drop = text_or_empty(env.p, "drop"@);
        let at = open_transfer(self.transfers, name);
        if env.e == "offer.received"@ {
            self
        } else if env.e == "fetch.progress"@ {
            let done = number_or_zero(env.p, "downloaded"@);
            let total = env.p.number_at("total"@);
            UiView {
                transfers: match at {
                    Some(i) => self.transfers.update(
                        i,
                        TransferView { done, total, ..self.transfers[i] },
                    ),
                    None => self.transfers.push(
                        TransferView {
                            drop,
                            name,
                            done,
                            total,
                            finished: false,
                            failed: None,
                            saved_to: Seq::empty(),
                        },
                    ),
                },
                ..self
            }
        } else if env.e == "fetch.materialized"@ {
            let saved_to = texts_at(env.p, "paths"@);
            (UiView {
                transfers: match at {
                    Some(i) => self.transfers.update(
                        i,
                        TransferView { finished: true, saved_to, ..self.transfers[i] },
                    ),
                    None => self.transfers.push(
                        TransferView {
                            drop,
                            name,
                            done: 0,
                            total: None,
                            finished: true,
                            failed: None,
                            saved_to,
                        },
                    ),
                },
                ..self
            }).note("Saved."@)
        } else if env.e == "fetch.failed"@ {
            let error = text_or_empty(env.p, "error"@);
            match at {
                Some(i) => UiView {
                    transfers: self.transfers.update(
                        i,
                        TransferView { finished: true, failed: Some(error), ..self.transfers[i] },
                    ),
                    ..self
                },
                None => self.note("Could not get "@ + name + ": "@ + error),
            }
        } else if env.e == "offer.declined"@ {
            self.note("Declined an offer."@)
        } else if env.e == "peer.joined"@ {
            self.note("Someone connected."@)
        } else {
            self
        }
    }
}

impl UiState {
    /// Nothing is known yet.
    pub fn new() -> (r: UiState)
        ensures
            r@ == UiView::blank(),
    {
        let r = UiState {
            connected: false,
            lan_only: false,
            endpoint_id: "".to_owned(),
            download_dir: "".to_owned(),
            share_link: None,
            share_link_name: None,
            busy: None,
            error: None,
            incoming: Vec::new(),
            transfers: Vec::new(),
            drops: Vec::new(),
            available: Vec::new(),
            log: Vec::new(),
        };
        assert(r@.incoming =~= Seq::<IncomingView>::empty());
        assert(r@.transfers =~= Seq::<TransferView>::empty());
        assert(r@.drops =~= Seq::<DropRowView>::empty());
        assert(r@.available =~= Seq::<AvailableView>::empty());
        assert(r@.log =~= Seq::<Seq<char>>::empty());
        r
    }

    /// Adds a note.
    pub fn note(&mut self, line: &str)
        ensures
            final(self)@ == old(self)@.note(line@),
    {
        let ghost before = self.log@;
        let line = line.to_owned();
        self.log.push(line);
        assert(texts(self.log@) =~= texts(before).push(line@));
        if self.log.len() > MAX_NOTES {
            let ghost full = self.log@;
            let _ = self.log.remove(0);
            assert(texts(self.log@) =~= texts(full).drop_first());
        }
    }

    fn find_open(&self, name: &str) -> (r: Option<usize>)
        ensures
            match r {
                Some(i) => open_transfer(self@.transfers, name@) == Some(i as int) && i
                    < self.transfers@.len(),
                None => open_transfer(self@.transfers, name@) is None,
            },
    {
        let ghost all = self@.transfers;
        let mut i: usize = 0;
        assert(all.take(0) =~= Seq::<TransferView>::empty());
        while i < self.transfers.len()
            invariant
                i <= self.transfers@.len(),
                all == transfer_views(self.transfers@),
                open_transfer(all.take(i as int), name@) is None,
            decreases self.transfers@.len() - i,
        {
            assert(all.take(i + 1).drop_last() =~= all.take(i as int));
            assert(all.take(i + 1).last() == self.transfers@[i as int]@);
            if same(self.transfers[i].name.as_str(), name) && !self.transfers[i].finished {
                proof {
                    lemma_open_stays(all, i + 1, name@);
                }
                return Some(i);
            }
            i += 1;
        }
        assert(all.take(i as int) =~= all);
        None
    }

    fn replace_transfer(&mut self, i: usize, t: Transfer)
        requires
            i < old(self).transfers@.len(),
        ensures
            final(self)@ == (UiView {
                transfers: old(self)@.transfers.update(i as int, t@),
                ..old(self)@
            }),
    {
        let ghost before = self.transfers@;
        self.transfers.set(i, t);
        assert(transfer_views(self.transfers@) =~= transfer_views(before).update(i as int, t@));
    }

    fn add_transfer(&mut self, t: Transfer)
        ensures
            final(self)@ == (UiView {
                transfers: old(self)@.transfers.push(t@),
                ..old(self)@
            }),
    {
        let ghost before = self.transfers@;
        self.transfers.push(t);
        assert(transfer_views(self.transfers@) =~= transfer_views(before).push(t@));
    }

    fn copy_transfer(&self, i: usize) -> (r: Transfer)
        requires
            i < self.transfers@.len(),
        ensures
            r@ == self@.transfers[i as int],
    {
        let t = &self.transfers[i];
        let mut saved_to: Vec<String> = Vec::new();
        let mut k: usize = 0;
        while k < t.saved_to.len()
            invariant
                k <= t.saved_to@.len(),
                texts(saved_to@) == texts(t.saved_to@).take(k as int),
            decreases t.saved_to@.len() - k,
        {
            let ghost before = saved_to@;
            let path = t.saved_to[k].clone();
            saved_to.push(path);
            assert(texts(saved_to@) =~= texts(before).push(path@));
            assert(texts(saved_to@) =~= texts(t.saved_to@).take(k + 1));
            k += 1;
        }
        assert(texts(saved_to@) =~= texts(t.saved_to@));
        Transfer {
            drop: t.drop.clone(),
            name: t.name.clone(),
            done: t.done,
            total: t.total,
            finished: t.finished,
            failed: copy_text(&t.failed),
            saved_to,
        }
    }

    /// Takes off the questions that can no longer be answered at `now`, with a note if there
    /// were any.
    pub fn prune(&mut self, now: u64) -> (r: bool)
        ensures
            ({
                let left = unexpired(old(self)@.incoming, now as nat);
                let kept = UiView { incoming: left, ..old(self)@ };
                &&& r == (left.len() != old(self)@.incoming.len())
                &&& final(self)@ == if r {
                    kept.note("An offer expired before anyone answered it."@)
                } else {
                    kept
                }
            }),
    {
        let before: usize = self.incoming.len();
        let mut rest: Vec<Incoming> = Vec::new();
        std::mem::swap(&mut rest, &mut self.incoming);
        let mut kept: Vec<Incoming> = Vec::new();
        let ghost all = incoming_views(rest@);
        let ghost mut done: int = 0;
        assert(all.take(0) =~= Seq::<IncomingView>::empty());
        assert(incoming_views(kept@) =~= Seq::<IncomingView>::empty());
        assert(incoming_views(rest@) =~= all.skip(0));
        while rest.len() > 0
            invariant
                0 <= done <= all.len(),
                incoming_views(rest@) == all.skip(done),
                incoming_views(kept@) == unexpired(all.take(done), now as nat),
            decreases rest@.len(),
        {
            let ghost was = rest@;
            assert(incoming_views(was).len() == was.len());
            assert(all.skip(done)[0] == all[done]);
            let i = rest.remove(0);
            assert(incoming_views(rest@) =~= incoming_views(was).drop_first());
            assert(all.skip(done).drop_first() =~= all.skip(done + 1));
            assert(all.take(done + 1).drop_last() =~= all.take(done));
            if i.expires_at > now as u128 {
                let ghost had = kept@;
                kept.push(i);
                assert(incoming_views(kept@) =~= incoming_views(had).push(i@));
            }
            proof {
                done = done + 1;
            }
        }
        assert(all.skip(done).len() == 0);
        assert(all.take(done) =~= all);
        let after: usize = kept.len();
        assert(incoming_views(kept@).len() == after);
        self.incoming = kept;
        if after != before {
            self.note("An offer expired before anyone answered it.");
            true
        } else {
            false
        }
    }

    fn drop_question(&mut self, id: u64)
        ensures
            final(self)@ == (UiView {
                incoming: other_questions(old(self)@.incoming, id),
                ..old(self)@
            }),
    {
        let mut rest: Vec<Incoming> = Vec::new();
        std::mem::swap(&mut rest, &mut self.incoming);
        let mut kept: Vec<Incoming> = Vec::new();
        let ghost all = incoming_views(rest@);
        let ghost mut done: int = 0;
        assert(all.take(0) =~= Seq::<IncomingView>::empty());
        assert(incoming_views(kept@) =~= Seq::<IncomingView>::empty());
        assert(incoming_views(rest@) =~= all.skip(0));
        while rest.len() > 0
            invariant
                0 <= done <= all.len(),
                incoming_views(rest@) == all.skip(done),
                incoming_views(kept@) == other_questions(all.take(done), id),
            decreases rest@.len(),
        {
            let ghost was = rest@;
            assert(incoming_views(was).len() == was.len());
            assert(all.skip(done)[0] == all[done]);
            let i = rest.remove(0);
            assert(incoming_views(rest@) =~= incoming_views(was).drop_first());
            assert(all.skip(done).drop_first() =~= all.skip(done + 1));
            assert(all.take(done + 1).drop_last() =~= all.take(done));
            if i.id != id {
                let ghost had = kept@;
                kept.push(i);
                assert(incoming_views(kept@) =~= incoming_views(had).push(i@));
            }
            proof {
                done = done + 1;
            }
        }
        assert(all.skip(done).len() == 0);
        assert(all.take(done) =~= all);
        self.incoming = kept;
    }

    fn clear_finished(&mut self)
        ensures
            final(self)@ == (UiView {
                transfers: unfinished(old(self)@.transfers),
                ..old(self)@
            }),
    {
        let mut rest: Vec<Transfer> = Vec::new();
        std::mem::swap(&mut rest, &mut self.transfers);
        let mut kept: Vec<Transfer> = Vec::new();
        let ghost all = transfer_views(rest@);
        let ghost mut done: int = 0;
        assert(all.take(0) =~= Seq::<TransferView>::empty());
        assert(transfer_views(kept@) =~= Seq::<TransferView>::empty());
        assert(transfer_views(rest@) =~= all.skip(0));
        while rest.len() > 0
            invariant
                0 <= done <= all.len(),
                transfer_views(rest@) == all.skip(done),
                transfer_views(kept@) == unfinished(all.take(done)),
            decreases rest@.len(),
        {
            let ghost was = rest@;
            assert(transfer_views(was).len() == was.len());
            assert(all.skip(done)[0] == all[done]);
            let t = rest.remove(0);
            assert(transfer_views(rest@) =~= transfer_views(was).drop_first());
            assert(all.skip(done).drop_first() =~= all.skip(done + 1));
            assert(all.take(done + 1).drop_last() =~= all.take(done));
            if !t.finished {
                let ghost had = kept@;
                kept.push(t);
                assert(transfer_views(kept@) =~= transfer_views(had).push(t@));
            }
            proof {
                done = done + 1;
            }
        }
        assert(all.skip(done).len() == 0);
        assert(all.take(done) =~= all);
        self.transfers = kept;
    }
}

proof fn lemma_open_stays(all: Seq<TransferView>, n: int, name: Seq<char>)
    requires
        0 <= n <= all.len(),
        open_transfer(all.take(n), name) is Some,
    ensures
        open_transfer(all, name) == open_transfer(all.take(n), name),
    decreases all.len() - n,
{
    if n < all.len() {
        assert(all.take(n + 1).drop_last() =~= all.take(n));
        lemma_open_stays(all, n + 1, name);
    } else {
        assert(all.take(n) =~= all);
    }
}

/// The worker behind the window.
#[derive(Debug)]
pub struct Worker {
    /// What the window shows.
    pub state: UiState,
    /// Display names by hash, so progress can be labelled.
    pub names: Table<String>,
    /// Drops the user explicitly asked to receive, and when, in milliseconds.
    pub requested: Table<u64>,
}

/// Whether the user asked for a drop a moment ago.
pub open spec fn solicited(requested: Map<Seq<char>, u64>, drop: Seq<char>, now: u64) -> bool {
    requested.contains_key(drop) && now - requested[drop] < RECEIVE_GRACE
}

/// How long a question can be answered: by the daemon's own deadline, minus a slice for the
/// round trip.
pub open spec fn time_to_answer(p: JsonView) -> nat {
    let ttl = match p.number_at("expires_in_ms"@) {
        Some(ms) => ms as nat,
        None => DEFAULT_TTL as nat,
    };
    if ttl < ROUND_TRIP {
        0
    } else {
        (ttl - ROUND_TRIP) as nat
    }
}

/// The card for a question.
pub open spec fn card(id: u64, p: JsonView, now: u64) -> IncomingView {
    IncomingView {
        id,
        drop: text_or_empty(p, "drop"@),
        name: text_or_empty(p, "name"@),
        size: text_or_empty(p, "human_size"@),
        from: first_chars(text_or_empty(p, "from"@), 10),
        expires_at: now as nat + time_to_answer(p),
    }
}

/// What remains of a command while the daemon is at work.
#[derive(Debug)]
pub enum UiRun {
    /// A drop for these paths is being created.
    SendCreate {
        /// The paths.
        paths: Vec<SendPath>,
    },
    /// The paths are being published one by one.
    SendPublish {
        /// The paths.
        paths: Vec<SendPath>,
        /// How many were handed over.
        at: usize,
        /// The drop.
        target: Json,
    },
    /// The link of the new drop is awaited.
    SendTicket {
        /// How many paths were sent.
        count: usize,
    },
    /// A drop is being joined.
    ReceiveJoin,
    /// The contents of a joined drop are awaited.
    ReceiveList {
        /// The drop.
        handle: String,
        /// Until when, in milliseconds.
        deadline: u128,
    },
    /// The link of a drop is awaited.
    ShowTicket {
        /// The drop's display name.
        name: String,
    },
    /// A fetch was asked for.
    Fetch,
    /// Nothing depends on the reply.
    Forget,
}

/// What the worker does next.
#[derive(Debug)]
pub enum UiStep {
    /// Call a method of the daemon; then [`Worker::on_reply`].
    Call {
        /// The method.
        method: String,
        /// Its parameters.
        params: Json,
        /// What remains.
        run: UiRun,
    },
    /// Answer a question, and be done.
    Answer {
        /// The question.
        id: u64,
        /// The answer; none declines.
        answer: Option<Json>,
    },
    /// Wait a little; then [`Worker::look_again`].
    Pause {
        /// What remains.
        run: UiRun,
    },
    /// The command is done; bring the listing up to date.
    Done,
}

/// The label of what is sent: the first name, and how many more.
pub open spec fn label_for(first: Option<Seq<char>>, count: nat) -> Seq<char> {
    match first {
        Some(first) => if count > 1 {
            first + " +"@ + decimal((count - 1) as nat)
        } else {
            first
        },
        None => "files"@,
    }
}

/// The label of paths.
pub open spec fn send_label_text(paths: Seq<SendPath>) -> Seq<char> {
    label_for(
        if paths.len() > 0 {
            file_name_text(paths[0].shown@)
        } else {
            None
        },
        paths.len(),
    )
}

/// The label of paths.
pub fn send_label(paths: &Vec<SendPath>) -> (r: String)
    ensures
        r@ == send_label_text(paths@),
{
    if paths.len() == 0 {
        return "files".to_owned();
    }
    match file_name(paths[0].shown.as_str()) {
        Some(first) => if paths.len() > 1 {
            first.concat(" +").concat(number((paths.len() - 1) as u64).as_str())
        } else {
            first
        },
        None => "files".to_owned(),
    }
}

impl Worker {
    /// A worker that is not connected yet.
    pub fn new() -> (r: Worker)
        ensures
            r.state@ == UiView::blank(),
            r.names@ == Map::<Seq<char>, String>::empty(),
            r.requested@ == Map::<Seq<char>, u64>::empty(),
    {
        Worker { state: UiState::new(), names: Table::new(), requested: Table::new() }
    }

    /// Takes note of a daemon event.
    pub fn apply_event(&mut self, env: &Envelope)
        ensures
            final(self).state@ == old(self).state@.event(old(self).names@, env@),
            final(self).requested == old(self).requested,
            if env.e@ == "offer.received"@ {
                let hash = text_or_empty(env.p@, "hash"@);
                &&& final(self).names@ == old(self).names@.insert(hash, final(self).names@[hash])
                &&& final(self).names@[hash]@ == text_or_empty(env.p@, "name"@)
            } else {
                final(self).names == old(self).names
            },
    {
        let hash = str_of(&env.p, "hash");
        if env.is("offer.received") {
            self.names.insert(hash.as_str(), str_of(&env.p, "name"));
            return ;
        }
        let name = match self.names.get(hash.as_str()) {
            Some(name) => name.clone(),
            None => "file".to_owned(),
        };
        let drop = str_of(&env.p, "drop");
        let at = self.state.find_open(name.as_str());
        if env.is("fetch.progress") {
            let done: u64 = number_of(&env.p, "downloaded");
            let total = env.p.number_at("total");
            match at {
                Some(i) => {
                    let t = self.state.copy_transfer(i);
                    let t = Transfer { done, total, ..t };
                    self.state.replace_transfer(i, t);
                },
                None => {
                    let t = Transfer {
                        drop,
                        name,
                        done,
                        total,
                        finished: false,
                        failed: None,
                        saved_to: Vec::new(),
                    };
                    assert(t@.saved_to =~= Seq::<Seq<char>>::empty());
                    self.state.add_transfer(t);
                },
            }
        } else if env.is("fetch.materialized") {
            let saved_to = list_texts(&env.p, "paths");
            match at {
                Some(i) => {
                    let t = self.state.copy_transfer(i);
                    let t = Transfer { finished: true, saved_to, ..t };
                    self.state.replace_transfer(i, t);
                },
                None => {
                    let t = Transfer {
                        drop,
                        name,
                        done: 0,
                        total: None,
                        finished: true,
                        failed: None,
                        saved_to,
                    };
                    self.state.add_transfer(t);
                },
            }
            self.state.note("Saved.");
        } else if env.is("fetch.failed") {
            let error = str_of(&env.p, "error");
            match at {
                Some(i) => {
                    let t = self.state.copy_transfer(i);
                    let t = Transfer { finished: true, failed: Some(error), ..t };
                    self.state.replace_transfer(i, t);
                },
                None => {
                    let line = "Could not get ".to_owned().concat(name.as_str()).concat(
                        ": ",
                    ).concat(error.as_str());
                    self.state.note(line.as_str());
                },
            }
        } else if env.is("offer.declined") {
            self.state.note("Declined an offer.");
        } else if env.is("peer.joined") {
            self.state.note("Someone connected.");
        }
    }

    /// Takes up a question. One about a drop that the user asked for a moment ago is answered
    /// at once: asking was consent, and answering is the *only* thing that starts the
    /// transfer. Any other becomes a card.
    pub fn on_ask(&mut self, ask: AskRequest, now: u64) -> (r: UiStep)
        ensures
            final(self).names == old(self).names,
            final(self).requested == old(self).requested,
            if solicited(old(self).requested@, text_or_empty(ask.p@, "drop"@), now) {
                &&& r matches UiStep::Answer { id, answer: Some(answer) }
                &&& id == ask.id
                &&& answer@ == object().with("accept"@, JsonView::Bool(true))
                &&& final(self).state == old(self).state
            } else {
                &&& r is Done
                &&& final(self).state@ == (UiView {
                    incoming: old(self).state@.incoming.push(card(ask.id, ask.p@, now)),
                    ..old(self).state@
                })
            },
    {
        let drop = str_of(&ask.p, "drop");
        let asked_for = match self.requested.get(drop.as_str()) {
            Some(at) => now < *at || now - *at < RECEIVE_GRACE,
            None => false,
        };
        if asked_for {
            return UiStep::Answer {
                id: ask.id,
                answer: Some(Json::object().with("accept", Json::Bool(true))),
            };
        }
        let ttl: u64 = match ask.p.number_at("expires_in_ms") {
            Some(ms) => ms,
            None => DEFAULT_TTL,
        };
        let ttl: u64 = if ttl < ROUND_TRIP {
            0
        } else {
            ttl - ROUND_TRIP
        };
        let from = str_of(&ask.p, "from");
        let incoming = Incoming {
            id: ask.id,
            drop,
            name: str_of(&ask.p, "name"),
            size: str_of(&ask.p, "human_size"),
            from: take_chars(from.as_str(), 10),
            expires_at: now as u128 + ttl as u128,
        };
        let ghost before = self.state.incoming@;
        self.state.incoming.push(incoming);
        assert(incoming_views(self.state.incoming@) =~= incoming_views(before).push(incoming@));
        UiStep::Done
    }

    /// Takes note that the daemon is gone.
    pub fn on_lost(&mut self)
        ensures
            final(self).state@ == (UiView {
                connected: false,
                error: Some("the daemon went away"@),
                ..old(self).state@
            }),
            final(self).names == old(self).names,
            final(self).requested == old(self).requested,
    {
        self.state.connected = false;
        self.state.error = Some("the daemon went away".to_owned());
    }

    /// Takes note of the connection: `hello` is what the daemon said.
    pub fn on_connected(&mut self, hello: &Json, started_helper: bool)
        ensures
            ({
                let noted = if started_helper {
                    old(self).state@.note(
                        "Started the background helper, so shared files stay available."@,
                    )
                } else {
                    old(self).state@
                };
                final(self).state@ == (UiView {
                    connected: true,
                    endpoint_id: text_or_empty(hello@, "endpoint_id"@),
                    ..noted
                })
            }),
            final(self).names == old(self).names,
            final(self).requested == old(self).requested,
    {
        if started_helper {
            self.state.note("Started the background helper, so shared files stay available.");
        }
        self.state.connected = true;
        self.state.endpoint_id = str_of(hello, "endpoint_id");
    }

    /// Takes note that this window is hosting.
    pub fn on_hosting(&mut self)
        ensures
            final(self).state@ == old(self).state@.note(
                "No background daemon found, so this window is hosting. Files stop being available when you close it."@,
            ),
            final(self).names == old(self).names,
            final(self).requested == old(self).requested,
    {
        self.state.note(
            "No background daemon found, so this window is hosting. Files stop being available when you close it.",
        );
    }

    /// Takes note that something went wrong.
    pub fn fail(&mut self, why: String)
        ensures
            final(self).state@ == (UiView { error: Some(why@), ..old(self).state@ }),
            final(self).names == old(self).names,
            final(self).requested == old(self).requested,
    {
        self.state.error = Some(why);
    }
}

/// Whether a step publishes the path `at`, or asks for the link when all are published, or
/// fails because the path is not valid text.
pub open spec fn sends_on(
    before: UiView,
    after: UiView,
    paths: Seq<SendPath>,
    at: int,
    drop: JsonView,
    r: UiStep,
) -> bool {
    if at >= paths.len() {
        &&& after == before
        &&& r matches UiStep::Call { method, params, run }
        &&& method@ == "drop.ticket"@
        &&& params@ == object().with("drop"@, drop)
        &&& run matches UiRun::SendTicket { count }
        &&& count == paths.len()
    } else {
        match opt_text(paths[at].text) {
            None => {
                &&& r is Done
                &&& after == (UiView {
                    busy: None,
                    error: Some("that path is not valid text"@),
                    ..before
                })
            },
            Some(path) => {
                &&& after == before
                &&& r matches UiStep::Call { method, params, run }
                &&& method@ == "offer.publish"@
                &&& params@ == object().with("drop"@, drop).with("path"@, JsonView::Text(path))
                &&& run matches UiRun::SendPublish { paths: left, at: next, target }
                &&& left@ == paths
                &&& next == at + 1
                &&& target@ == drop
            },
        }
    }
}

/// The link that somebody pasted, taken apart.
pub open spec fn pasted_ticket(input: Seq<char>) -> Option<Seq<char>> {
    ticket_in(trimmed(input), Prefixes::First)
}

/// What a command does at first.
pub open spec fn begun(before: Worker, after: Worker, cmd: Cmd, r: UiStep) -> bool {
    let state = before.state@;
    &&& after.names == before.names
    &&& after.requested == before.requested
    &&& match cmd {
        Cmd::Answer { id: asked, accept } => {
            let left = UiView { incoming: other_questions(state.incoming, asked), ..state };
            &&& r matches UiStep::Answer { id, answer }
            &&& id == asked
            &&& crate::service::answer_view(answer) == if accept {
                Some(object().with("accept"@, JsonView::Bool(true)))
            } else {
                None
            }
            &&& after.state@ == if accept {
                left
            } else {
                left.note("Declined."@)
            }
        },
        Cmd::Send(given) => {
            &&& after.state@ == (UiView {
                busy: Some("Preparing\u{2026}"@),
                error: None,
                share_link: None,
                share_link_name: None,
                ..state
            })
            &&& r matches UiStep::Call { method, params, run }
            &&& method@ == "drop.create"@
            &&& params@ == object().with("name"@, JsonView::Text(send_label_text(given@)))
            &&& run == (UiRun::SendCreate { paths: given })
        },
        Cmd::Receive(input) => match pasted_ticket(input@) {
            Some(ticket) => {
                &&& after.state@ == (UiView {
                    busy: Some("Connecting\u{2026}"@),
                    error: None,
                    ..state
                })
                &&& r matches UiStep::Call { method, params, run }
                &&& method@ == "drop.join"@
                &&& params@ == object().with("ticket"@, JsonView::Text(ticket))
                &&& run is ReceiveJoin
            },
            None => {
                &&& r is Done
                &&& after.state@ == (UiView {
                    busy: None,
                    error: Some("that does not look like an iroh-drop link"@),
                    ..state
                })
            },
        },
        Cmd::Forget(handle) => {
            &&& after.state@ == state
            &&& r matches UiStep::Call { method, params, run }
            &&& method@ == "drop.leave"@
            &&& params@ == object().with("drop"@, JsonView::Text(handle@))
            &&& run is Forget
        },
        Cmd::Fetch { drop, pick, name } => {
            &&& after.state@ == state.note("getting "@ + name@)
            &&& r matches UiStep::Call { method, params, run }
            &&& method@ == "offer.fetch"@
            &&& params@ == object().with("drop"@, JsonView::Text(drop@)).with(
                "pick"@,
                JsonView::Text(pick@),
            )
            &&& run is Fetch
        },
        Cmd::Retry { drop, name } => {
            &&& after.state@ == state.note("getting "@ + name@)
            &&& r matches UiStep::Call { method, params, run }
            &&& method@ == "offer.fetch"@
            &&& params@ == object().with("drop"@, JsonView::Text(drop@)).with(
                "pick"@,
                JsonView::Text(name@),
            )
            &&& run is Fetch
        },
        Cmd::Ticket { handle, name: shown } => {
            &&& after.state@ == state
            &&& r matches UiStep::Call { method, params, run }
            &&& method@ == "drop.ticket"@
            &&& params@ == object().with("drop"@, JsonView::Text(handle@))
            &&& run == (UiRun::ShowTicket { name: shown })
        },
        Cmd::DismissError => r is Done && after.state@ == (UiView { error: None, ..state }),
        Cmd::ClearFinished => r is Done && after.state@ == (UiView {
            transfers: unfinished(state.transfers),
            ..state
        }),
    }
}

/// Whether a listing has anything in it.
pub open spec fn lists_something(listed: JsonView) -> bool {
    match listed.list_at("items"@) {
        Some(items) => items.len() > 0,
        None => false,
    }
}

/// The call that looks into a joined drop.
pub open spec fn looks_into(r: UiStep, drop: Seq<char>, until: nat) -> bool {
    &&& r matches UiStep::Call { method, params, run }
    &&& method@ == "offer.list"@
    &&& params@ == object().with("drop"@, JsonView::Text(drop))
    &&& run matches UiRun::ReceiveList { handle, deadline }
    &&& handle@ == drop
    &&& deadline as nat == until
}

/// What a command does when the daemon has replied.
pub open spec fn continued(
    before: Worker,
    after: Worker,
    run: UiRun,
    reply: Result<Json, ApiError>,
    now: u64,
    r: UiStep,
) -> bool {
    let state = before.state@;
    &&& after.names == before.names
    &&& (!(run is ReceiveList) ==> after.requested == before.requested)
    &&& match (run, reply) {
        (UiRun::SendCreate { paths }, Ok(created)) => sends_on(
            state,
            after.state@,
            paths@,
            0,
            match created@.get("drop"@) {
                Some(drop) => drop,
                None => JsonView::Null,
            },
            r,
        ),
        (UiRun::SendPublish { paths, at, target }, Ok(_)) => sends_on(
            state,
            after.state@,
            paths@,
            at as int,
            target@,
            r,
        ),
        (UiRun::SendTicket { count }, Ok(ticket)) => {
            &&& r is Done
            &&& after.state@ == (UiView {
                share_link: Some(text_or_empty(ticket@, "link"@)),
                ..(UiView { busy: None, ..state }).note(
                    "Ready to share "@ + decimal(count as nat) + " item(s)."@,
                )
            })
        },
        (UiRun::ReceiveJoin, Ok(joined)) => {
            &&& after.state@ == state
            &&& looks_into(r, text_or_empty(joined@, "drop"@), (now + RECEIVE_WAIT) as nat)
        },
        (UiRun::ReceiveList { handle, deadline }, Ok(listed)) => if lists_something(listed@) {
            &&& r is Done
            &&& after.state@ == (UiView { busy: None, ..state })
            &&& after.requested@ == before.requested@.insert(handle@, now)
        } else if now > deadline {
            &&& r is Done
            &&& after.state@ == (UiView {
                busy: None,
                error: Some("nobody offered anything in that drop"@),
                ..state
            })
            &&& after.requested == before.requested
        } else {
            &&& r == (UiStep::Pause { run })
            &&& after.state@ == state
            &&& after.requested == before.requested
        },
        (UiRun::ShowTicket { name }, Ok(ticket)) => {
            &&& r is Done
            &&& after.state@ == (UiView {
                share_link: Some(text_or_empty(ticket@, "link"@)),
                share_link_name: Some(name@),
                ..state
            })
        },
        (UiRun::Fetch, Ok(_)) => r is Done && after.state@ == state,
        (UiRun::Forget, _) => r is Done && after.state@ == state,
        (UiRun::Fetch, Err(e)) => {
            &&& r is Done
            &&& after.state@ == (UiView { error: Some(e.msg@), ..state })
        },
        (UiRun::ShowTicket { name }, Err(e)) => {
            &&& r is Done
            &&& after.state@ == (UiView { error: Some(e.msg@), ..state })
        },
        (_, Err(e)) => {
            &&& r is Done
            &&& after.state@ == (UiView { busy: None, error: Some(e.msg@), ..state })
            &&& after.requested == before.requested
        },
    }
}

impl Worker {
    /// Begins a command of the window.
    pub fn begin(&mut self, cmd: Cmd) -> (r: UiStep)
        ensures
            begun(*old(self), *final(self), cmd, r),
    {
        match cmd {
            Cmd::Answer { id, accept } => {
                self.state.drop_question(id);
                if accept {
                    UiStep::Answer {
                        id,
                        answer: Some(Json::object().with("accept", Json::Bool(true))),
                    }
                } else {
                    self.state.note("Declined.");
                    UiStep::Answer { id, answer: None }
                }
            },
            Cmd::Send(paths) => {
                self.state.busy = Some("Preparing\u{2026}".to_owned());
                self.state.error = None;
                self.state.share_link = None;
                self.state.share_link_name = None;
                let label = send_label(&paths);
                UiStep::Call {
                    method: "drop.create".to_owned(),
                    params: Json::object().with("name", Json::text(label.as_str())),
                    run: UiRun::SendCreate { paths },
                }
            },
            Cmd::Receive(input) => {
                match extract_ticket(input.as_str()) {
                    Some(ticket) => {
                        self.state.busy = Some("Connecting\u{2026}".to_owned());
                        self.state.error = None;
                        UiStep::Call {
                            method: "drop.join".to_owned(),
                            params: Json::object().with("ticket", Json::text(ticket.as_str())),
                            run: UiRun::ReceiveJoin,
                        }
                    },
                    None => {
                        self.state.busy = None;
                        self.state.error = Some(
                            "that does not look like an iroh-drop link".to_owned(),
                        );
                        UiStep::Done
                    },
                }
            },
            Cmd::Forget(handle) => UiStep::Call {
                method: "drop.leave".to_owned(),
                params: Json::object().with("drop", Json::text(handle.as_str())),
                run: UiRun::Forget,
            },
            Cmd::Fetch { drop, pick, name } => {
                self.state.note("getting ".to_owned().concat(name.as_str()).as_str());
                UiStep::Call {
                    method: "offer.fetch".to_owned(),
                    params: Json::object().with("drop", Json::text(drop.as_str())).with(
                        "pick",
                        Json::text(pick.as_str()),
                    ),
                    run: UiRun::Fetch,
                }
            },
            Cmd::Retry { drop, name } => {
                self.state.note("getting ".to_owned().concat(name.as_str()).as_str());
                UiStep::Call {
                    method: "offer.fetch".to_owned(),
                    params: Json::object().with("drop", Json::text(drop.as_str())).with(
                        "pick",
                        Json::text(name.as_str()),
                    ),
                    run: UiRun::Fetch,
                }
            },
            Cmd::Ticket { handle, name } => UiStep::Call {
                method: "drop.ticket".to_owned(),
                params: Json::object().with("drop", Json::text(handle.as_str())),
                run: UiRun::ShowTicket { name },
            },
            Cmd::DismissError => {
                self.state.error = None;
                UiStep::Done
            },
            Cmd::ClearFinished => {
                self.state.clear_finished();
                UiStep::Done
            },
        }
    }

    fn send_on(&mut self, paths: Vec<SendPath>, at: usize, target: Json) -> (r: UiStep)
        ensures
            sends_on(old(self).state@, final(self).state@, paths@, at as int, target@, r),
            final(self).names == old(self).names,
            final(self).requested == old(self).requested,
    {
        if at >= paths.len() {
            return UiStep::Call {
                method: "drop.ticket".to_owned(),
                params: Json::object().with("drop", target),
                run: UiRun::SendTicket { count: paths.len() },
            };
        }
        match copy_text(&paths[at].text) {
            None => {
                self.state.busy = None;
                self.state.error = Some("that path is not valid text".to_owned());
                UiStep::Done
            },
            Some(path) => {
                let params = Json::object().with("drop", target.copy()).with(
                    "path",
                    Json::text(path.as_str()),
                );
                UiStep::Call {
                    method: "offer.publish".to_owned(),
                    params,
                    run: UiRun::SendPublish { paths, at: at + 1, target },
                }
            },
        }
    }

    /// Looks into a joined drop again, after a pause.
    pub fn look_again(run: UiRun) -> (r: UiStep)
        ensures
            match run {
                UiRun::ReceiveList { handle, deadline } => looks_into(r, handle@, deadline as nat),
                _ => r is Done,
            },
    {
        match run {
            UiRun::ReceiveList { handle, deadline } => UiStep::Call {
                method: "offer.list".to_owned(),
                params: Json::object().with("drop", Json::text(handle.as_str())),
                run: UiRun::ReceiveList { handle, deadline },
            },
            _ => UiStep::Done,
        }
    }

    /// Continues a command with the daemon's reply.
    ///
    /// Note what receiving does **not** do: fetch. Every offer already produces a consent
    /// question, and the answer to that question is what starts the transfer.
    pub fn on_reply(&mut self, run: UiRun, reply: Result<Json, ApiError>, now: u64) -> (r: UiStep)
        ensures
            continued(*old(self), *final(self), run, reply, now, r),
    {
        match run {
            UiRun::Forget => UiStep::Done,
            UiRun::Fetch => {
                if let Err(e) = reply {
                    self.state.error = Some(e.msg);
                }
                UiStep::Done
            },
            UiRun::ShowTicket { name } => {
                match reply {
                    Ok(ticket) => {
                        self.state.share_link = Some(str_of(&ticket, "link"));
                        self.state.share_link_name = Some(name);
                    },
                    Err(e) => {
                        self.state.error = Some(e.msg);
                    },
                }
                UiStep::Done
            },
            UiRun::SendCreate { paths } => match reply {
                Ok(created) => {
                    let target = match created.get("drop") {
                        Some(drop) => drop.copy(),
                        None => Json::Null,
                    };
                    self.send_on(paths, 0, target)
                },
                Err(e) => self.give_up(e),
            },
            UiRun::SendPublish { paths, at, target } => match reply {
                Ok(_) => self.send_on(paths, at, target),
                Err(e) => self.give_up(e),
            },
            UiRun::SendTicket { count } => match reply {
                Ok(ticket) => {
                    self.state.busy = None;
                    let line = "Ready to share ".to_owned().concat(
                        number(count as u64).as_str(),
                    ).concat(" item(s).");
                    self.state.note(line.as_str());
                    self.state.share_link = Some(str_of(&ticket, "link"));
                    UiStep::Done
                },
                Err(e) => self.give_up(e),
            },
            UiRun::ReceiveJoin => match reply {
                Ok(joined) => Self::look_again(
                    UiRun::ReceiveList {
                        handle: str_of(&joined, "drop"),
                        deadline: now as u128 + RECEIVE_WAIT as u128,
                    },
                ),
                Err(e) => self.give_up(e),
            },
            UiRun::ReceiveList { handle, deadline } => match reply {
                Ok(listed) => {
                    let something = match listed.list_at("items") {
                        Some(items) => items.len() > 0,
                        None => false,
                    };
                    if something {
                        self.state.busy = None;
                        self.requested.insert(handle.as_str(), now);
                        UiStep::Done
                    } else if now as u128 > deadline {
                        self.state.busy = None;
                        self.state.error = Some(
                            "nobody offered anything in that drop".to_owned(),
                        );
                        UiStep::Done
                    } else {
                        UiStep::Pause { run: UiRun::ReceiveList { handle, deadline } }
                    }
                },
                Err(e) => self.give_up(e),
            },
        }
    }

    fn give_up(&mut self, e: ApiError) -> (r: UiStep)
        ensures
            r is Done,
            final(self).state@ == (UiView {
                busy: None,
                error: Some(e.msg@),
                ..old(self).state@
            }),
            final(self).names == old(self).names,
            final(self).requested == old(self).requested,
    {
        self.state.busy = None;
        self.state.error = Some(e.msg);
        UiStep::Done
    }
}

/// One hosted drop, from the daemon's listing.
pub open spec fn row_of(d: JsonView) -> DropRowView {
    DropRowView {
        handle: text_or_empty(d, "drop"@),
        name: match d.text_at("name"@) {
            Some(name) => name,
            None => "files"@,
        },
        files: number_or_zero(d, "offers"@),
        peers: number_or_zero(d, "peers"@),
        mine: match d.flag_at("mine"@) {
            Some(mine) => mine,
            None => true,
        },
    }
}

/// The row of a drop says whether we created it or joined it: what the daemon recorded when it
/// took the drop up.
pub proof fn rows_tell_created_from_joined(facts: DropFacts, hosted: HostedView)
    ensures
        row_of(drop_json(facts, hosted)).handle == facts.drop@,
        row_of(drop_json(facts, hosted)).mine == hosted.mine,
{
    reveal_with_fuel(field, 10);
    reveal_strlit("drop");
    reveal_strlit("name");
    reveal_strlit("topic");
    reveal_strlit("peers");
    reveal_strlit("offers");
    reveal_strlit("files");
    reveal_strlit("bytes");
    reveal_strlit("human_size");
    reveal_strlit("mine");
    assert("mine"@[0] != "drop"@[0] && "mine"@[0] != "name"@[0]);
}

/// The hosted drops of a listing.
pub open spec fn rows_of(listed: JsonView) -> Seq<DropRowView> {
    match listed.list_at("drops"@) {
        Some(drops) => Seq::new(drops.len(), |i: int| row_of(drops[i])),
        None => Seq::empty(),
    }
}

/// Whether an item of a listing is not here and not on its way: nobody fetched it, or the
/// last fetch failed.
pub open spec fn wanting(item: JsonView) -> bool {
    item.text_at("status"@) == Some("missing"@) || item.text_at("status"@) == Some("failed"@)
}

/// What the daemon lists, the window shows: a row for each drop, which says whether we created
/// it or joined it.
pub proof fn listed_drops_are_shown(service: Service, facts: Seq<DropFacts>)
    ensures
        rows_of(service.drops_json(facts)).len() == arranged(facts).len(),
        forall|i: int|
            0 <= i < arranged(facts).len() ==> {
                let row = #[trigger] rows_of(service.drops_json(facts))[i];
                let drop = arranged(facts)[i].drop@;
                &&& row.handle == drop
                &&& row.mine == service.drops@[drop]@.mine
            },
{
    let listed = service.drops_json(facts);
    reveal_with_fuel(field, 2);
    assert(listed->Object_0[0].0 == "drops"@);
    assert(listed.list_at("drops"@) is Some);
    assert forall|i: int| 0 <= i < arranged(facts).len() implies {
        let row = #[trigger] rows_of(listed)[i];
        let drop = arranged(facts)[i].drop@;
        &&& row.handle == drop
        &&& row.mine == service.drops@[drop]@.mine
    } by {
        rows_tell_created_from_joined(
            arranged(facts)[i],
            service.drops@[arranged(facts)[i].drop@]@,
        );
    }
}

/// What is on offer in a drop and not here yet.
pub open spec fn missing_in(items: Seq<JsonView>, drop: Seq<char>, group: Seq<char>) -> Seq<
    AvailableView,
>
    decreases items.len(),
{
    if items.len() == 0 {
        Seq::empty()
    } else {
        let front = missing_in(items.drop_last(), drop, group);
        let item = items.last();
        if wanting(item) {
            front.push(
                AvailableView {
                    drop,
                    group,
                    pick: decimal(number_or_zero(item, "n"@) as nat),
                    name: text_or_empty(item, "name"@),
                    size: text_or_empty(item, "human_size"@),
                },
            )
        } else {
            front
        }
    }
}

/// What is on offer in a drop and not here yet: the durable half of "you see anything offered
/// until you leave".
pub fn available_in(listed: &Json, drop: &str, group: &str) -> (r: Vec<AvailableRow>)
    ensures
        available_views(r@) == match listed@.list_at("items"@) {
            Some(items) => missing_in(items, drop@, group@),
            None => Seq::empty(),
        },
{
    let mut out: Vec<AvailableRow> = Vec::new();
    assert(available_views(out@) =~= Seq::<AvailableView>::empty());
    match listed.list_at("items") {
        Some(items) => {
            let ghost all = json_views(items@);
            let mut i: usize = 0;
            assert(all.take(0) =~= Seq::<JsonView>::empty());
            while i < items.len()
                invariant
                    i <= items@.len(),
                    all == json_views(items@),
                    available_views(out@) == missing_in(all.take(i as int), drop@, group@),
                decreases items@.len() - i,
            {
                assert(all.take(i + 1).drop_last() =~= all.take(i as int));
                assert(all.take(i + 1).last() == items@[i as int]@);
                let item = &items[i];
                let missing = match item.text_at("status") {
                    Some(status) => same(status, "missing") || same(status, "failed"),
                    None => false,
                };
                if missing {
                    let row = AvailableRow {
                        drop: drop.to_owned(),
                        group: group.to_owned(),
                        pick: number(number_of(item, "n")),
                        name: str_of(item, "name"),
                        size: str_of(item, "human_size"),
                    };
                    let ghost before = out@;
                    out.push(row);
                    assert(available_views(out@) =~= available_views(before).push(row@));
                }
                i += 1;
            }
            assert(all.take(i as int) =~= all);
            out
        },
        None => out,
    }
}

impl Worker {
    /// Takes note of the daemon's status and of its drops, where it told them.
    pub fn apply_status(&mut self, status: &Option<Json>, listed: &Option<Json>)
        ensures
            final(self).names == old(self).names,
            final(self).requested == old(self).requested,
            ({
                let told = match status {
                    Some(status) => UiView {
                        lan_only: status@.flag_at("offline"@) == Some(true),
                        download_dir: text_or_empty(status@, "download_dir"@),
                        ..old(self).state@
                    },
                    None => old(self).state@,
                };
                final(self).state@ == match listed {
                    Some(listed) => UiView { drops: rows_of(listed@), ..told },
                    None => told,
                }
            }),
    {
        if let Some(status) = status {
            self.state.lan_only = match status.flag_at("offline") {
                Some(offline) => offline,
                None => false,
            };
            self.state.download_dir = str_of(status, "download_dir");
        }
        if let Some(listed) = listed {
            let mut rows: Vec<DropRow> = Vec::new();
            assert(row_views(rows@) =~= Seq::<DropRowView>::empty());
            if let Some(drops) = listed.list_at("drops") {
                let mut i: usize = 0;
                while i < drops.len()
                    invariant
                        i <= drops@.len(),
                        rows@.len() == i,
                        forall|k: int| 0 <= k < i ==> (#[trigger] rows@[k])@ == row_of(drops@[k]@),
                    decreases drops@.len() - i,
                {
                    let d = &drops[i];
                    let name = match d.text_at("name") {
                        Some(name) => name.to_owned(),
                        None => "files".to_owned(),
                    };
                    let mine = match d.flag_at("mine") {
                        Some(mine) => mine,
                        None => true,
                    };
                    let row = DropRow {
                        handle: str_of(d, "drop"),
                        name,
                        files: number_of(d, "offers"),
                        peers: number_of(d, "peers"),
                        mine,
                    };
                    rows.push(row);
                    i += 1;
                }
                let ghost all = json_views(drops@);
                assert(row_views(rows@) =~= Seq::new(all.len(), |i: int| row_of(all[i])));
            }
            self.state.drops = rows;
        }
    }

    /// Takes note of everything that is on offer and not here yet.
    pub fn apply_available(&mut self, rows: Vec<AvailableRow>)
        ensures
            final(self).names == old(self).names,
            final(self).requested == old(self).requested,
            final(self).state@ == (UiView {
                available: available_views(rows@),
                ..old(self).state@
            }),
    {
        self.state.available = rows;
    }
}

/// A way to reach a daemon, most useful first.
#[derive(Clone, Copy, Debug, PartialEq, Eq, Structural)]
pub enum Tier {
    /// An already-running helper.
    Running,
    /// A helper that we start ourselves, so that files outlive this window.
    Start,
    /// The helper that we started.
    Started,
    /// Hosting in this process.
    Embedded,
}

/// What follows an attempt to reach a daemon.
#[derive(Clone, Copy, Debug, PartialEq, Eq, Structural)]
pub enum TierStep {
    /// It is reached.
    Connected {
        /// Whether we started the helper.
        started_helper: bool,
        /// Whether this window is hosting.
        hosting: bool,
    },
    /// Try another way.
    Try(Tier),
    /// The helper that we started does not answer.
    HelperSilent,
    /// Nothing worked.
    CannotStart,
}

/// What follows an attempt to reach a daemon: with no daemon to connect to and no helper to
/// start, the window hosts rather than failing.
pub open spec fn after_tier(tier: Tier, worked: bool) -> TierStep {
    match (tier, worked) {
        (Tier::Running, true) => TierStep::Connected { started_helper: false, hosting: false },
        (Tier::Running, false) => TierStep::Try(Tier::Start),
        (Tier::Start, true) => TierStep::Try(Tier::Started),
        (Tier::Start, false) => TierStep::Try(Tier::Embedded),
        (Tier::Started, true) => TierStep::Connected { started_helper: true, hosting: false },
        (Tier::Started, false) => TierStep::HelperSilent,
        (Tier::Embedded, true) => TierStep::Connected { started_helper: false, hosting: true },
        (Tier::Embedded, false) => TierStep::CannotStart,
    }
}

/// What follows an attempt to reach a daemon.
pub fn next_tier(tier: Tier, worked: bool) -> (r: TierStep)
    ensures
        r == after_tier(tier, worked),
{
    match (tier, worked) {
        (Tier::Running, true) => TierStep::Connected { started_helper: false, hosting: false },
        (Tier::Running, false) => TierStep::Try(Tier::Start),
        (Tier::Start, true) => TierStep::Try(Tier::Started),
        (Tier::Start, false) => TierStep::Try(Tier::Embedded),
        (Tier::Started, true) => TierStep::Connected { started_helper: true, hosting: false },
        (Tier::Started, false) => TierStep::HelperSilent,
        (Tier::Embedded, true) => TierStep::Connected { started_helper: false, hosting: true },
        (Tier::Embedded, false) => TierStep::CannotStart,
    }
}

/// The arguments that a helper is started with. It answers consent while no window is open:
/// keeping on sharing is what it is for.
pub fn helper_args(socket: &Option<String>, lan_only: bool) -> (r: Vec<String>)
    ensures
        texts(r@) == seq!["--accept-when-no-ui"@] + (if lan_only {
            seq!["--lan-only"@]
        } else {
            Seq::empty()
        }) + match socket {
            Some(path) => seq!["--socket"@, path@],
            None => Seq::empty(),
        },
{
    let mut out = one_line("--accept-when-no-ui".to_owned());
    if lan_only {
        add_line(&mut out, "--lan-only".to_owned());
    }
    let ghost first = texts(out@);
    assert(first =~= seq!["--accept-when-no-ui"@] + (if lan_only {
        seq!["--lan-only"@]
    } else {
        Seq::empty()
    }));
    if let Some(path) = socket {
        add_line(&mut out, "--socket".to_owned());
        add_line(&mut out, path.clone());
        assert(texts(out@) =~= first + seq!["--socket"@, path@]);
    } else {
        assert(texts(out@) =~= first + Seq::<Seq<char>>::empty());
    }
    out
}

/// Where files land when this window hosts: in the user's `Downloads` where there is one
/// (`has_downloads`), else in the current directory.
pub fn dirs_download(home: &Option<String>, has_downloads: bool) -> (r: String)
    ensures
        r@ == match home {
            Some(home) => if has_downloads {
                below(below(home@, "Downloads"@), "iroh-drop"@)
            } else {
                "iroh-drop-downloads"@
            },
            None => "iroh-drop-downloads"@,
        },
{
    match home {
        Some(home) => if has_downloads {
            join_path(join_path(home.as_str(), "Downloads").as_str(), "iroh-drop")
        } else {
            "iroh-drop-downloads".to_owned()
        },
        None => "iroh-drop-downloads".to_owned(),
    }
}

/// What is said when no daemon is reached: `why` is what the last attempt said.
pub fn tier_failure(step: TierStep, why: &str) -> (r: Option<String>)
    ensures
        opt_text(r) == match step {
            TierStep::HelperSilent => Some("the background helper did not answer: "@ + why@),
            TierStep::CannotStart => Some("cannot start: "@ + why@),
            _ => None,
        },
{
    match step {
        TierStep::HelperSilent => Some(
            "the background helper did not answer: ".to_owned().concat(why),
        ),
        TierStep::CannotStart => Some("cannot start: ".to_owned().concat(why)),
        _ => None,
    }
}

/// How this window hosts, where it has to: in memory, asking before anything is written.
pub fn embedded_options(downloads: String, lan_only: bool) -> (r: ServiceOptions)
    ensures
        r == (ServiceOptions {
            store_path: None,
            identity_path: None,
            offline: lan_only,
            mdns: true,
            download_dir: downloads,
            auto_accept: false,
            link_base: None,
        }),
{
    ServiceOptions {
        store_path: None,
        identity_path: None,
        offline: lan_only,
        mdns: true,
        download_dir: downloads,
        auto_accept: false,
        link_base: None,
    }
}

/// What the window is started with.
#[derive(Debug)]
pub struct AppArgs {
    /// The daemon's socket, unless it is the usual one.
    pub socket: Option<String>,
    /// Whether nothing may leave the local network.
    pub lan_only: bool,
}

/// What arguments say, given what was said before. The last word counts, and what is not
/// known is passed over.
pub open spec fn app_args_said(
    args: Seq<Seq<char>>,
    socket: Option<Seq<char>>,
    lan_only: bool,
) -> (Option<Seq<char>>, bool)
    decreases args.len(),
{
    if args.len() == 0 {
        (socket, lan_only)
    } else if args[0] == "--socket"@ {
        if args.len() > 1 {
            app_args_said(args.skip(2), Some(args[1]), lan_only)
        } else {
            (None, lan_only)
        }
    } else {
        app_args_said(args.skip(1), socket, lan_only || args[0] == "--lan-only"@)
    }
}

/// What the window is started with.
pub fn parse_app_args(args: &Vec<String>) -> (r: AppArgs)
    ensures
        (opt_text(r.socket), r.lan_only) == app_args_said(texts(args@), None, false),
{
    let mut socket: Option<String> = None;
    let mut lan_only = false;
    let mut i: usize = 0;
    let ghost all = texts(args@);
    assert(all.skip(0) =~= all);
    while i < args.len()
        invariant
            i <= args@.len(),
            all == texts(args@),
            app_args_said(all, None, false) == app_args_said(
                all.skip(i as int),
                opt_text(socket),
                lan_only,
            ),
        decreases args@.len() - i,
    {
        assert(all.skip(i as int)[0] == args@[i as int]@);
        if same(args[i].as_str(), "--socket") {
            if i + 1 < args.len() {
                assert(all.skip(i as int)[1] == args@[i + 1]@);
                assert(all.skip(i as int).skip(2) =~= all.skip(i + 2));
                socket = Some(args[i + 1].clone());
                i += 2;
            } else {
                return AppArgs { socket: None, lan_only };
            }
        } else {
            assert(all.skip(i as int).skip(1) =~= all.skip(i + 1));
            lan_only = lan_only || same(args[i].as_str(), "--lan-only");
            i += 1;
        }
    }
    AppArgs { socket, lan_only }
}

/// There are never more notes than are kept.
pub proof fn notes_are_bounded(state: UiView, line: Seq<char>)
    requires
        state.log.len() <= MAX_NOTES,
    ensures
        state.note(line).log.len() <= MAX_NOTES,
        state.note(line).log.last() == line,
{
}

/// A card that is left on the window can still be answered, and every card that can still be
/// answered is left.
pub proof fn cards_go_when_they_expire(s: Seq<IncomingView>, now: nat)
    ensures
        forall|i: int|
            0 <= i < unexpired(s, now).len() ==> (#[trigger] unexpired(s, now)[i]).expires_at > now
                && s.contains(unexpired(s, now)[i]),
        forall|i: int|
            0 <= i < s.len() && (#[trigger] s[i]).expires_at > now ==> unexpired(s, now).contains(
                s[i],
            ),
    decreases s.len(),
{
    if s.len() > 0 {
        let front = s.drop_last();
        cards_go_when_they_expire(front, now);
        let left = unexpired(s, now);
        assert forall|i: int| 0 <= i < left.len() implies (#[trigger] left[i]).expires_at > now
            && s.contains(left[i]) by {
            if i < unexpired(front, now).len() {
                assert(left[i] == unexpired(front, now)[i]);
                let j = choose|j: int| 0 <= j < front.len() && front[j] == left[i];
                assert(s[j] == left[i]);
            } else {
                assert(s[s.len() - 1] == left[i]);
            }
        }
        assert forall|i: int| 0 <= i < s.len() && (#[trigger] s[i]).expires_at > now implies left.contains(
            s[i],
        ) by {
            if i < front.len() {
                assert(front[i] == s[i]);
                let j = choose|j: int|
                    0 <= j < unexpired(front, now).len() && unexpired(front, now)[j] == s[i];
                assert(left[j] == s[i]);
            } else {
                assert(left[left.len() - 1] == s[i]);
            }
        }
    }
}

/// Without a daemon and without a helper to start, the window ends up hosting: nothing but a
/// failure of hosting itself is reported as one.
pub proof fn falling_back_to_hosting()
    ensures
        after_tier(Tier::Running, false) == TierStep::Try(Tier::Start),
        after_tier(Tier::Start, false) == TierStep::Try(Tier::Embedded),
        after_tier(Tier::Embedded, true) == (TierStep::Connected {
            started_helper: false,
            hosting: true,
        }),
{
}

} // verus!

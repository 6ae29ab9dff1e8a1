//! A client of the control API, over any frame pipe.

use crate::bus::{count_on, next_count};
use crate::frame::{ApiError, ApiErrorView, Envelope, EnvelopeView, Frame, FrameView};
use crate::json::{object, Json, JsonView};
use crate::text::same;
use std::collections::HashSet;
use vstd::prelude::*;

verus! {

broadcast use vstd::std_specs::hash::group_hash_axioms;

/// A question from the daemon, for clients that answer asynchronously.
#[derive(Debug)]
pub struct AskRequest {
    /// Correlation id of the answer.
    pub id: u64,
    /// Question name, e.g. `offer.accept`.
    pub q: String,
    /// Context for the decision. Untrusted display metadata.
    pub p: Json,
}

/// A connected client: which calls are under way.
#[derive(Debug)]
pub struct Client {
    /// The id of the next call.
    pub next_id: u64,
    /// The calls that wait for a reply.
    pub pending: HashSet<u64>,
    /// What the daemon told us at handshake time.
    pub hello: Json,
}

/// What a frame from the daemon asks for.
#[derive(Debug)]
pub enum ClientStep {
    /// Hand a reply to the caller that waits for it.
    Resolve {
        /// The call.
        id: u64,
        /// Its reply.
        result: Result<Json, ApiError>,
    },
    /// Tell everybody who watches events.
    Event(Envelope),
    /// Tell whoever answers questions.
    Ask(AskRequest),
    /// Send this back.
    Send(Frame),
    /// Nothing: the reply is to a call that nobody waits for.
    Ignore,
}

/// The first frame of a connection.
pub fn hello_frame(hello: Json) -> (r: Frame)
    ensures
        r@ == (FrameView::Req { id: 0, m: "hello"@, p: hello@ }),
{
    Frame::Req { id: 0, m: "hello".to_owned(), p: hello }
}

/// The error for a daemon that went away.
pub fn went_away() -> (r: ApiError)
    ensures
        r@ == ApiErrorView::of("disconnected"@, "daemon went away"@),
{
    ApiError::new("disconnected", "daemon went away")
}

/// The answer to a question: nothing declines it.
pub open spec fn answer_to(id: u64, answer: Option<JsonView>, refusal: Seq<char>) -> FrameView {
    match answer {
        Some(p) => FrameView::Res { id, p },
        None => FrameView::Failure { id, code: "declined"@, msg: refusal },
    }
}

/// The answer to a question; none declines it. Not answering is also a refusal: the daemon
/// times out and denies.
pub fn answer(id: u64, given: Option<Json>) -> (r: Frame)
    ensures
        r@ == answer_to(id, crate::service::answer_view(given), "declined"@),
{
    match given {
        Some(p) => Frame::Res { id, p },
        None => Frame::Failure { id, code: "declined".to_owned(), msg: "declined".to_owned() },
    }
}

/// The answer of a handler to the question `q`; none declines it.
pub fn handler_answer(id: u64, q: &str, answer: Option<Json>) -> (r: Frame)
    ensures
        r@ == answer_to(id, crate::service::answer_view(answer), q@ + " declined"@),
{
    match answer {
        Some(p) => Frame::Res { id, p },
        None => Frame::Failure {
            id,
            code: "declined".to_owned(),
            msg: q.to_owned().concat(" declined"),
        },
    }
}

/// An answer that accepts whatever was asked, for headless seeding. Never ship this as a UI
/// default.
pub fn accept_all() -> (r: Json)
    ensures
        r@ == object().with("accept"@, JsonView::Bool(true)),
        crate::service::accepts(r@),
{
    Json::object().with("accept", Json::Bool(true))
}

impl Client {
    /// Becomes a client by the daemon's first frame.
    pub fn start(first: Option<Frame>) -> (r: Result<Client, ApiError>)
        ensures
            match first {
                Some(Frame::Res { id, p }) => {
                    &&& r matches Ok(client)
                    &&& client.hello == p
                    &&& client.next_id == 1
                    &&& client.pending@ == Set::<u64>::empty()
                },
                Some(Frame::Failure { id, code, msg }) => r is Err && r->Err_0
                    == (ApiError { code, msg }),
                _ => r is Err && r->Err_0@ == ApiErrorView::of(
                    "disconnected"@,
                    "daemon closed during handshake"@,
                ),
            },
    {
        match first {
            Some(Frame::Res { id, p }) => Ok(
                Client { next_id: 1, pending: HashSet::new(), hello: p },
            ),
            Some(Frame::Failure { id, code, msg }) => Err(ApiError { code, msg }),
            _ => Err(ApiError::new("disconnected", "daemon closed during handshake")),
        }
    }

    /// The frame that invokes a method; the call now waits for its reply.
    pub fn call(&mut self, method: &str, params: Json) -> (r: Frame)
        ensures
            r@ == (FrameView::Req { id: old(self).next_id, m: method@, p: params@ }),
            final(self).next_id == next_count(old(self).next_id),
            final(self).pending@ == old(self).pending@.insert(old(self).next_id),
            final(self).hello == old(self).hello,
    {
        let id: u64 = self.next_id;
        self.next_id = count_on(id);
        self.pending.insert(id);
        Frame::Req { id, m: method.to_owned(), p: params }
    }

    fn resolve(&mut self, id: u64, result: Result<Json, ApiError>) -> (r: ClientStep)
        ensures
            r == if old(self).pending@.contains(id) {
                ClientStep::Resolve { id, result }
            } else {
                ClientStep::Ignore
            },
            final(self).pending@ == old(self).pending@.remove(id),
            final(self).next_id == old(self).next_id,
            final(self).hello == old(self).hello,
    {
        let waited = self.pending.remove(&id);
        assert(self.pending@ =~= old(self).pending@.remove(id));
        if waited {
            ClientStep::Resolve { id, result }
        } else {
            ClientStep::Ignore
        }
    }

    /// Sorts a frame from the daemon.
    pub fn on_frame(&mut self, frame: Frame) -> (r: ClientStep)
        ensures
            final(self).next_id == old(self).next_id,
            final(self).hello == old(self).hello,
            final(self).pending@ == match frame {
                Frame::Res { id, p } => old(self).pending@.remove(id),
                Frame::Failure { id, code, msg } => old(self).pending@.remove(id),
                _ => old(self).pending@,
            },
            match frame {
                Frame::Res { id, p } => r == if old(self).pending@.contains(id) {
                    ClientStep::Resolve { id, result: Ok(p) }
                } else {
                    ClientStep::Ignore
                },
                Frame::Failure { id, code, msg } => r == if old(self).pending@.contains(id) {
                    ClientStep::Resolve { id, result: Err(ApiError { code, msg }) }
                } else {
                    ClientStep::Ignore
                },
                Frame::Ev { seq, e, p } => r == ClientStep::Event(Envelope { seq, e, p }),
                Frame::Ask { id, q, p } => r == ClientStep::Ask(AskRequest { id, q, p }),
                Frame::Req { id, m, p } => {
                    &&& r matches ClientStep::Send(reply)
                    &&& reply@ == ApiErrorView::of(
                        "unsupported"@,
                        "clients do not serve methods"@,
                    ).reply(id)
                },
            },
    {
        match frame {
            Frame::Res { id, p } => self.resolve(id, Ok(p)),
            Frame::Failure { id, code, msg } => self.resolve(id, Err(ApiError { code, msg })),
            Frame::Ev { seq, e, p } => ClientStep::Event(Envelope { seq, e, p }),
            Frame::Ask { id, q, p } => ClientStep::Ask(AskRequest { id, q, p }),
            Frame::Req { id, m, p } => ClientStep::Send(
                ApiError::new("unsupported", "clients do not serve methods").reply(id),
            ),
        }
    }
}

/// What somebody who waits for an event does next.
#[derive(Debug)]
pub enum WaitStep {
    /// This is the event.
    Found(Envelope),
    /// Wait on.
    On,
    /// Give up.
    Failed(ApiError),
}

/// What became of waiting for the next event.
#[derive(Debug)]
pub enum Arrival {
    /// An event, and whether it is one that was waited for.
    Event(Envelope, bool),
    /// Some events were missed.
    Lagged,
    /// There will be no more.
    Closed,
    /// Time is up.
    TimedOut,
}

/// Waits for the first event that matches.
pub fn wait_for(arrival: Arrival) -> (r: WaitStep)
    ensures
        match arrival {
            Arrival::Event(env, matching) => r == if matching {
                WaitStep::Found(env)
            } else {
                WaitStep::On
            },
            Arrival::Lagged => r is On,
            Arrival::Closed => r is Failed && r->Failed_0@ == ApiErrorView::of(
                "disconnected"@,
                "event stream closed"@,
            ),
            Arrival::TimedOut => r is Failed && r->Failed_0@ == ApiErrorView::of(
                "timeout"@,
                "no matching event"@,
            ),
        },
{
    match arrival {
        Arrival::Event(env, matching) => if matching {
            WaitStep::Found(env)
        } else {
            WaitStep::On
        },
        Arrival::Lagged => WaitStep::On,
        Arrival::Closed => WaitStep::Failed(
            ApiError::new("disconnected", "event stream closed"),
        ),
        Arrival::TimedOut => WaitStep::Failed(ApiError::new("timeout", "no matching event")),
    }
}

/// Whether an event says that a task has ended.
pub open spec fn ends_task(env: EnvelopeView, task: Seq<char>) -> bool {
    &&& env.e == "task.state"@
    &&& env.p.text_at("task"@) == Some(task)
    &&& env.p.text_at("state"@) != Some("running"@)
}

/// Whether an event says that a task has ended.
pub fn task_ended(env: &Envelope, task: &str) -> (r: bool)
    ensures
        r == ends_task(env@, task@),
{
    if !env.is("task.state") {
        return false;
    }
    match env.p.text_at("task") {
        Some(named) => if !same(named, task) {
            return false;
        },
        None => {
            return false;
        },
    }
    match env.p.text_at("state") {
        Some(state) => !same(state, "running"),
        None => true,
    }
}

} // verus!

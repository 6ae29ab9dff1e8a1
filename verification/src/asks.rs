//! Routing consent questions to UI clients and matching their answers.
//!
//! Silence is never consent: nobody listening, nobody answering in time and an error all
//! mean **deny**.

use crate::bus::{count_on, next_count};
use crate::frame::{ApiError, Frame, FrameView};
use crate::json::{Json, JsonView};
use std::collections::HashSet;
use vstd::prelude::*;

verus! {

broadcast use vstd::std_specs::hash::group_hash_axioms;

/// Routes `Ask` frames to UI clients and matches their answers.
///
/// Registered UIs stand oldest first, each under a token so that a disconnecting connection
/// can remove *itself*: a channel can look perfectly healthy while nothing is listening,
/// and a question handed to that ghost would be lost silently.
#[derive(Debug)]
pub struct AskRouter {
    next_id: u64,
    pending: HashSet<u64>,
    uis: Vec<u64>,
    next_ui: u64,
}

/// The model of an [`AskRouter`].
#[verifier::ext_equal]
pub struct AsksView {
    /// The id of the next question.
    pub next_id: u64,
    /// The questions waiting for an answer.
    pub pending: Set<u64>,
    /// The tokens of the registered UIs, oldest first.
    pub uis: Seq<u64>,
    /// The token of the next UI.
    pub next_ui: u64,
}

impl View for AskRouter {
    type V = AsksView;

    closed spec fn view(&self) -> AsksView {
        AsksView {
            next_id: self.next_id,
            pending: self.pending@,
            uis: self.uis@,
            next_ui: self.next_ui,
        }
    }
}

/// The tokens that are not `gone`, in their order.
pub open spec fn staying(uis: Seq<u64>, gone: Set<u64>) -> Seq<u64>
    decreases uis.len(),
{
    if uis.len() == 0 {
        Seq::empty()
    } else {
        let front = staying(uis.drop_last(), gone);
        if gone.contains(uis.last()) {
            front
        } else {
            front.push(uis.last())
        }
    }
}

fn without(uis: &Vec<u64>, gone: &HashSet<u64>) -> (r: Vec<u64>)
    ensures
        r@ == staying(uis@, gone@),
{
    let mut out: Vec<u64> = Vec::new();
    let mut i: usize = 0;
    assert(uis@.take(0) =~= Seq::<u64>::empty());
    while i < uis.len()
        invariant
            i <= uis@.len(),
            out@ == staying(uis@.take(i as int), gone@),
        decreases uis@.len() - i,
    {
        assert(uis@.take(i + 1).drop_last() =~= uis@.take(i as int));
        assert(uis@.take(i + 1).last() == uis@[i as int]);
        let token: u64 = uis[i];
        if !gone.contains(&token) {
            out.push(token);
        }
        i += 1;
    }
    assert(uis@.take(i as int) =~= uis@);
    out
}

/// What came of a question.
#[derive(Debug)]
pub enum AskOutcome {
    /// The client answered.
    Answered(Json),
    /// The client reported an error.
    Refused(ApiError),
    /// The question could not be handed over.
    Undelivered,
    /// Nobody answered in time.
    TimedOut,
}

/// What an outcome amounts to: only an answer is one.
pub open spec fn given_answer(outcome: AskOutcome) -> Option<JsonView> {
    match outcome {
        AskOutcome::Answered(value) => Some(value@),
        _ => None,
    }
}

impl AsksView {
    /// The UI to ask: the most recently attached one whose connection is open. That is the
    /// window the person is actually looking at.
    pub open spec fn target(self, closed: Set<u64>) -> Option<u64> {
        let open = staying(self.uis, closed);
        if open.len() == 0 {
            None
        } else {
            Some(open.last())
        }
    }
}

impl AskRouter {
    /// A router that knows no UI.
    pub fn new() -> (r: AskRouter)
        ensures
            r@ == (AsksView { next_id: 1, pending: Set::empty(), uis: Seq::empty(), next_ui: 1 }),
    {
        AskRouter { next_id: 1, pending: HashSet::new(), uis: Vec::new(), next_ui: 1 }
    }

    /// Takes up a UI and returns its token.
    pub fn register_ui(&mut self) -> (r: u64)
        ensures
            r == old(self)@.next_ui,
            final(self)@ == (AsksView {
                uis: old(self)@.uis.push(r),
                next_ui: next_count(r),
                ..old(self)@
            }),
    {
        let token: u64 = self.next_ui;
        self.next_ui = count_on(token);
        self.uis.push(token);
        token
    }

    /// Forgets a UI.
    pub fn unregister_ui(&mut self, token: u64)
        ensures
            final(self)@ == (AsksView {
                uis: staying(old(self)@.uis, set![token]),
                ..old(self)@
            }),
    {
        let mut gone: HashSet<u64> = HashSet::new();
        gone.insert(token);
        assert(gone@ =~= set![token]);
        self.uis = without(&self.uis, &gone);
    }

    /// Forgets every UI whose connection is closed.
    pub fn forget_closed(&mut self, closed: &HashSet<u64>)
        ensures
            final(self)@ == (AsksView { uis: staying(old(self)@.uis, closed@), ..old(self)@ }),
    {
        self.uis = without(&self.uis, closed);
    }

    /// Is there a UI we could actually ask right now?
    pub fn has_live_ui(&self, closed: &HashSet<u64>) -> (r: bool)
        ensures
            r == (self@.target(closed@) is Some),
    {
        without(&self.uis, closed).len() > 0
    }

    /// Forms a question for the most recently attached open UI; none when nobody is
    /// listening.
    pub fn ask(&mut self, q: &str, p: Json, closed: &HashSet<u64>) -> (r: Option<(u64, Frame)>)
        ensures
            ({
                let id = old(self)@.next_id;
                &&& final(self)@ == (AsksView {
                    next_id: next_count(id),
                    pending: if r is Some {
                        old(self)@.pending.insert(id)
                    } else {
                        old(self)@.pending
                    },
                    uis: staying(old(self)@.uis, closed@),
                    next_ui: old(self)@.next_ui,
                })
                &&& match r {
                    Some((token, frame)) => {
                        &&& old(self)@.target(closed@) == Some(token)
                        &&& frame@ == (FrameView::Ask { id, q: q@, p: p@ })
                    },
                    None => old(self)@.target(closed@) is None,
                }
            }),
    {
        self.forget_closed(closed);
        let id: u64 = self.next_id;
        self.next_id = count_on(id);
        let n: usize = self.uis.len();
        if n == 0 {
            return None;
        }
        let token: u64 = self.uis[n - 1];
        self.pending.insert(id);
        Some((token, Frame::Ask { id, q: q.to_owned(), p }))
    }

    /// Whether a reply with this id answers a question; the question is then settled.
    pub fn answer(&mut self, id: u64) -> (r: bool)
        ensures
            r == old(self)@.pending.contains(id),
            final(self)@ == (AsksView { pending: old(self)@.pending.remove(id), ..old(self)@ }),
    {
        let r = self.pending.remove(&id);
        assert(self@.pending =~= old(self)@.pending.remove(id));
        r
    }

    /// Settles a question by its outcome.
    pub fn settle(&mut self, id: u64, outcome: AskOutcome) -> (r: Option<Json>)
        ensures
            match r {
                Some(value) => given_answer(outcome) == Some(value@) && final(self)@ == old(self)@,
                None => given_answer(outcome) is None && final(self)@ == (AsksView {
                    pending: old(self)@.pending.remove(id),
                    ..old(self)@
                }),
            },
    {
        match outcome {
            AskOutcome::Answered(value) => Some(value),
            _ => {
                let _ = self.pending.remove(&id);
                assert(self@.pending =~= old(self)@.pending.remove(id));
                None
            },
        }
    }
}

proof fn lemma_staying(uis: Seq<u64>, gone: Set<u64>)
    ensures
        forall|token: u64| #[trigger]
            staying(uis, gone).contains(token) ==> uis.contains(token) && !gone.contains(token),
    decreases uis.len(),
{
    if uis.len() > 0 {
        lemma_staying(uis.drop_last(), gone);
        assert forall|token: u64| #[trigger] staying(uis, gone).contains(token) implies uis.contains(
            token,
        ) && !gone.contains(token) by {
            let front = staying(uis.drop_last(), gone);
            let i = choose|i: int|
                0 <= i < staying(uis, gone).len() && staying(uis, gone)[i] == token;
            if i < front.len() {
                assert(front[i] == token);
                assert(front.contains(token));
                let j = choose|j: int| 0 <= j < uis.drop_last().len() && uis.drop_last()[j] == token;
                assert(uis[j] == token);
            } else {
                assert(uis[uis.len() - 1] == token);
            }
        }
    }
}

/// Nobody is asked who is not registered, or whose connection is closed.
pub proof fn only_open_uis_are_asked(asks: AsksView, closed: Set<u64>)
    requires
        asks.target(closed) is Some,
    ensures
        asks.uis.contains(asks.target(closed)->0),
        !closed.contains(asks.target(closed)->0),
{
    lemma_staying(asks.uis, closed);
    let open = staying(asks.uis, closed);
    assert(open.contains(open[open.len() - 1]));
}

/// The UI that attached last is the one that is asked, while its connection is open.
pub proof fn the_latest_ui_is_asked(asks: AsksView, token: u64, closed: Set<u64>)
    requires
        !closed.contains(token),
    ensures
        (AsksView { uis: asks.uis.push(token), ..asks }).target(closed) == Some(token),
{
    assert(asks.uis.push(token).drop_last() =~= asks.uis);
}

/// A UI that has left is never asked again.
pub proof fn a_departed_ui_is_not_asked(asks: AsksView, token: u64, closed: Set<u64>)
    ensures
        (AsksView { uis: staying(asks.uis, set![token]), ..asks }).target(closed) != Some(token),
{
    let left = AsksView { uis: staying(asks.uis, set![token]), ..asks };
    lemma_staying(asks.uis, set![token]);
    if left.target(closed) is Some {
        only_open_uis_are_asked(left, closed);
    }
}

} // verus!

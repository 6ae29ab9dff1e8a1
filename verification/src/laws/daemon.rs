//! What holds of the daemon's parts: events, questions, presence and codes.

use crate::asks::{AskOutcome, AskRouter};
use crate::bus::{lagged, EventBus};
use crate::frame::{Envelope, Frame};
use crate::json::{added_value_is_found, nothing_is_in_an_empty_object, Json};
use crate::laws::service::lemma_staying;
use crate::presence::{
    announce, announced_status_is_decoded, decode, Beacon, ExtensionFrame, Presence,
};
use crate::qr::{is_dark, place, Modules, Painting};
use std::collections::HashSet;
use vstd::prelude::*;
use vstd::utf8::encode_utf8;

verus! {

/// An event that is emitted is recorded last, under the number that comes back, and the next number
/// is one higher; what was recorded stays, but for the oldest once there are 4096.
pub proof fn emitted_events_are_recorded(bus: &mut EventBus, e: &str, p: Json, r: u64)
    requires
        call_ensures(EventBus::emit, (bus, e, p), r),
    ensures
        r == old(bus)@.seq,
        old(bus)@.seq < u64::MAX ==> final(bus)@.seq == old(bus)@.seq + 1,
        final(bus)@.ring.len() > 0,
        final(bus)@.ring.last().seq == r,
        final(bus)@.ring.last().e == e@,
        final(bus)@.ring.last().p == p@,
        old(bus)@.ring.len() < 4096 ==> final(bus)@.ring.drop_last() == old(bus)@.ring,
        old(bus)@.ring.len() == 4096 ==> final(bus)@.ring.drop_last()
            == old(bus)@.ring.drop_first(),
{
    let after = final(bus)@.ring.drop_last();
    if old(bus)@.ring.len() < 4096 {
        assert(after =~= old(bus)@.ring);
    }
    if old(bus)@.ring.len() == 4096 {
        assert(after =~= old(bus)@.ring.drop_first());
    }
}

/// An event goes out as it was recorded.
pub proof fn recorded_events_go_out_as_they_are(env: &Envelope, frame: Frame, same: bool, e: &str)
    requires
        call_ensures(Envelope::to_frame, (env,), frame),
        call_ensures(Envelope::is, (env, e), same),
    ensures
        frame@ is Ev,
        frame@->seq == env.seq,
        frame@->e == env.e@,
        frame@->Ev_p == env.p@,
        same <==> env.e@ == e@,
{
}

/// A client that fell behind is told how many events it missed.
pub proof fn missed_events_are_counted(missed: u64, r: Frame)
    requires
        call_ensures(lagged, (missed,), r),
    ensures
        r@ is Ev,
        r@->e == "events.truncated"@,
        r@->Ev_p.number_at("missed"@) == Some(missed),
{
    broadcast use {added_value_is_found, nothing_is_in_an_empty_object};

    assert(r@->Ev_p.get("missed"@) is Some);
}

/// Somebody who has just come is the one who is asked, with the question as it is; once they have
/// gone they are not.
pub proof fn the_latest_is_asked_while_there(
    router: &mut AskRouter,
    token: u64,
    asking: &mut AskRouter,
    q: &str,
    p: Json,
    closed: &HashSet<u64>,
    r: Option<(u64, Frame)>,
)
    requires
        call_ensures(AskRouter::register_ui, (router,), token),
        *old(asking) == *final(router),
        call_ensures(AskRouter::ask, (asking, q, p, closed), r),
    ensures
        !closed@.contains(token) ==> {
            &&& r is Some
            &&& (r->0).0 == token
            &&& (r->0).1@ is Ask
            &&& (r->0).1@->q == q@
            &&& (r->0).1@->Ask_p == p@
            &&& final(asking)@.pending.contains((r->0).1@->Ask_id)
        },
        r is Some ==> !closed@.contains((r->0).0),
        r is None ==> final(asking)@.pending == old(asking)@.pending,
{
    if !closed@.contains(token) {
        crate::asks::the_latest_ui_is_asked(old(router)@, token, closed@);
    }
    let uis = old(asking)@.uis;
    lemma_staying(uis, closed@);
    let open = crate::asks::staying(uis, closed@);
    if open.len() > 0 {
        assert(open.contains(open.last()));
    }
    assert(uis.last() == token);
    assert(uis.drop_last() =~= old(router)@.uis);
}

/// A question is answered once.
pub proof fn a_question_is_answered_once(
    router: &mut AskRouter,
    id: u64,
    first: bool,
    later: &mut AskRouter,
    second: bool,
    other: u64,
)
    requires
        call_ensures(AskRouter::answer, (router, id), first),
        *old(later) == *final(router),
        call_ensures(AskRouter::answer, (later, id), second),
        other != id,
    ensures
        first <==> old(router)@.pending.contains(id),
        !second,
        final(later)@.pending.contains(other) <==> old(router)@.pending.contains(other),
{
}

/// Only an answer that was given is one: a refusal, a silence and a departure are none, and the
/// question is then no longer open.
pub proof fn only_given_answers_count(
    router: &mut AskRouter,
    id: u64,
    outcome: AskOutcome,
    r: Option<Json>,
)
    requires
        call_ensures(AskRouter::settle, (router, id, outcome), r),
    ensures
        r is Some <==> outcome is Answered,
        r is Some ==> r->0@ == outcome->Answered_0@,
        r is None ==> !final(router)@.pending.contains(id),
{
}

/// Somebody who has left is not among those who can be asked, and the others are.
pub proof fn those_who_left_are_not_asked(router: &mut AskRouter, token: u64, other: u64)
    requires
        call_ensures(AskRouter::unregister_ui, (router, token), ()),
        other != token,
    ensures
        !final(router)@.uis.contains(token),
        final(router)@.uis.contains(other) <==> old(router)@.uis.contains(other),
{
    lemma_staying(old(router)@.uis, set![token]);
    assert(set![token].contains(token));
    assert(!set![token].contains(other));
}

/// A status of one to 140 bytes is announced, and is read back as it is by whoever gets it, with
/// its author; any other is not announced.
pub proof fn announced_statuses_are_read(
    status: &str,
    r: Result<Beacon, String>,
    frame: ExtensionFrame,
    seen: Option<Presence>,
)
    requires
        call_ensures(announce, (status,), r),
        r is Ok ==> frame.namespace == r->Ok_0.namespace && frame.local_kind
            == r->Ok_0.local_kind && frame.payload@ == r->Ok_0.payload@,
        call_ensures(decode, (frame,), seen),
    ensures
        r is Ok <==> 1 <= encode_utf8(status@).len() <= 140,
        r is Ok ==> seen is Some && seen->0.status@ == status@ && seen->0.author == frame.author
            && r->Ok_0.schema == 1 && r->Ok_0.local_kind == 1,
{
    if r is Ok {
        announced_status_is_decoded(status@, frame);
    }
}

/// A dark module of a code is a dark cell two columns to the right and two rows down, a light one
/// is not, and the field is four modules wider than the code.
pub proof fn modules_stand_inside_a_light_border(m: &Modules, r: Painting, x: int, y: int)
    requires
        m.width <= 177,
        m.dark@.len() == m.width * m.width,
        call_ensures(place, (m,), r),
        0 <= x < m.width,
        0 <= y < m.width,
    ensures
        r.side == m.width + 4,
        m.dark@[y * m.width + x] <==> exists|k: int|
            0 <= k < r.cells@.len() && (#[trigger] r.cells@[k]).0 == x + 2 && r.cells@[k].1 == y
                + 2,
{
    assert(is_dark(m.dark@, m.width as int, x + 2, y + 2) <==> m.dark@[y * m.width + x]);
}

/// Counting goes on by one.
pub proof fn counting_goes_on_by_one(n: u64, r: u64)
    requires
        call_ensures(crate::bus::count_on, (n,), r),
        n < u64::MAX,
    ensures
        r == n + 1,
{
}

} // verus!

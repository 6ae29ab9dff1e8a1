//! What holds between a client and its daemon.

use crate::client::{
    accept_all, answer, handler_answer, task_ended, wait_for, Arrival, Client, ClientStep, WaitStep,
};
use crate::frame::{Envelope, Frame, Hello, Role};
use crate::json::{added_value_is_found, nothing_is_in_an_empty_object, Json};
use crate::service::{FrameStep, Service};
use crate::text::trimmed;
use crate::transport::{bind, read_line, BindStep, LineStep, SocketState};
use vstd::prelude::*;
use vstd::utf8::encode_utf8;

verus! {

/// A call is answered once: the reply with its number resolves it with what the daemon says, a
/// second reply with that number is ignored, and no other call is touched by either.
pub proof fn a_call_is_answered_once(
    client: &mut Client,
    method: &str,
    params: Json,
    sent: Frame,
    waiting: &mut Client,
    reply: Frame,
    step: ClientStep,
    answered: &mut Client,
    again: Frame,
    second: ClientStep,
    other: u64,
)
    requires
        call_ensures(Client::call, (client, method, params), sent),
        *old(waiting) == *final(client),
        reply is Res,
        reply->Res_id == sent@->Req_id,
        call_ensures(Client::on_frame, (waiting, reply), step),
        *old(answered) == *final(waiting),
        again is Res,
        again->Res_id == sent@->Req_id,
        call_ensures(Client::on_frame, (answered, again), second),
        other != sent@->Req_id,
    ensures
        sent@ is Req,
        sent@->m == method@,
        sent@->Req_p == params@,
        step is Resolve,
        step->id == sent@->Req_id,
        step->result is Ok,
        step->result->Ok_0 == reply->Res_p,
        second is Ignore,
        final(answered).pending@.contains(other) <==> old(client).pending@.contains(other),
{
}

/// Two calls that follow one another have different numbers.
pub proof fn calls_have_numbers_of_their_own(
    client: &mut Client,
    method: &str,
    params: Json,
    first: Frame,
    later: &mut Client,
    other: &str,
    given: Json,
    second: Frame,
)
    requires
        call_ensures(Client::call, (client, method, params), first),
        *old(later) == *final(client),
        call_ensures(Client::call, (later, other, given), second),
    ensures
        first@->Req_id != second@->Req_id,
        final(later).pending@.contains(first@->Req_id),
        final(later).pending@.contains(second@->Req_id),
{
}

/// What the daemon asks and what it tells reach the client as they are; a failure resolves its call
/// with the daemon's code and words.
pub proof fn frames_reach_the_client_as_they_are(
    client: &mut Client,
    frame: Frame,
    r: ClientStep,
)
    requires
        call_ensures(Client::on_frame, (client, frame), r),
    ensures
        frame is Ev ==> r is Event && r->Event_0.seq == frame->seq && r->Event_0.e == frame->e
            && r->Event_0.p == frame->Ev_p,
        frame is Ask ==> r is Ask && r->Ask_0.id == frame->Ask_id && r->Ask_0.q == frame->q
            && r->Ask_0.p == frame->Ask_p,
        frame is Failure && old(client).pending@.contains(frame->Failure_id) ==> {
            &&& r is Resolve
            &&& r->id == frame->Failure_id
            &&& r->result is Err
            &&& r->result->Err_0.code == frame->code
            &&& r->result->Err_0.msg == frame->msg
        },
        frame is Ev || frame is Ask || frame is Req ==> final(client).pending@
            == old(client).pending@,
{
}

/// An answer goes out under the number of its question: what was answered, or that it was declined.
pub proof fn answers_carry_the_number_of_their_question(
    id: u64,
    given: Option<Json>,
    r: Frame,
    q: &str,
    handled: Frame,
)
    requires
        call_ensures(answer, (id, given), r),
        call_ensures(handler_answer, (id, q, given), handled),
    ensures
        match given {
            Some(p) => {
                &&& r@ is Res
                &&& r@->Res_id == id
                &&& r@->Res_p == p@
                &&& handled@ == r@
            },
            None => {
                &&& r@ is Failure
                &&& r@->Failure_id == id
                &&& r@->code == "declined"@
                &&& handled@ is Failure
                &&& handled@->Failure_id == id
                &&& handled@->code == "declined"@
            },
        },
{
}

/// Accepting everything is an explicit yes.
pub proof fn accepting_all_is_a_yes(r: Json)
    requires
        call_ensures(accept_all, (), r),
    ensures
        r@.flag_at("accept"@) == Some(true),
{
    broadcast use {added_value_is_found, nothing_is_in_an_empty_object};

    assert(r@.get("accept"@) is Some);
}

/// A task has ended when an event about that very task says a state other than running.
pub proof fn tasks_end_when_they_no_longer_run(env: &Envelope, task: &str, r: bool)
    requires
        call_ensures(task_ended, (env, task), r),
    ensures
        env.e@ != "task.state"@ ==> !r,
        env.p@.text_at("task"@) != Some(task@) ==> !r,
        env.p@.text_at("state"@) == Some("running"@) ==> !r,
        env.e@ == "task.state"@ && env.p@.text_at("task"@) == Some(task@) && (env.p@.text_at(
            "state"@,
        ) == Some("done"@) || env.p@.text_at("state"@) == Some("failed"@) || env.p@.text_at(
            "state"@,
        ) == Some("cancelled"@)) ==> r,
{
    reveal_strlit("running");
    reveal_strlit("done");
    reveal_strlit("failed");
    reveal_strlit("cancelled");
    assert("running"@.len() == 7 && "done"@.len() == 4 && "failed"@.len() == 6
        && "cancelled"@.len() == 9);
}

/// The daemon hands a request on as it came, and an answer to whoever asked, once.
pub proof fn the_daemon_hands_frames_on(
    service: &mut Service,
    frame: Frame,
    r: FrameStep,
    other: u64,
)
    requires
        call_ensures(Service::on_frame, (service, frame), r),
        frame is Res ==> frame->Res_id != other,
        frame is Failure ==> frame->Failure_id != other,
    ensures
        frame is Req ==> r is Call && r->Call_id == frame->Req_id && r->Call_m == frame->m
            && r->Call_p == frame->Req_p,
        frame is Res ==> {
            &&& r is Answer
            &&& r->Answer_id == frame->Res_id
            &&& r->result is Ok
            &&& r->result->Ok_0 == frame->Res_p
            &&& r->waiting <==> old(service).asks@.pending.contains(frame->Res_id)
            &&& !final(service).asks@.pending.contains(frame->Res_id)
        },
        frame is Failure ==> {
            &&& r is Answer
            &&& r->Answer_id == frame->Failure_id
            &&& r->result is Err
            &&& r->result->Err_0.code == frame->code
            &&& r->result->Err_0.msg == frame->msg
            &&& r->waiting <==> old(service).asks@.pending.contains(frame->Failure_id)
            &&& !final(service).asks@.pending.contains(frame->Failure_id)
        },
        final(service).asks@.pending.contains(other) <==> old(service).asks@.pending.contains(
            other,
        ),
        final(service).drops == old(service).drops,
        final(service).tasks == old(service).tasks,
{
}

/// What a client introduces itself as: it gives its name and the first version of the interface;
/// only the one with a person in front of it is asked, and only an observer does not control.
pub proof fn clients_introduce_themselves(
    name: &str,
    observer: Hello,
    ui: Hello,
    control: Hello,
)
    requires
        call_ensures(Hello::observer, (name,), observer),
        call_ensures(Hello::ui, (name,), ui),
        call_ensures(Hello::control, (name,), control),
    ensures
        observer.client@ == name@ && ui.client@ == name@ && control.client@ == name@,
        observer.api == 1 && ui.api == 1 && control.api == 1,
        ui.roles@.contains(Role::Ui) && !observer.roles@.contains(Role::Ui)
            && !control.roles@.contains(Role::Ui),
        ui.roles@.contains(Role::Control) && control.roles@.contains(Role::Control)
            && !observer.roles@.contains(Role::Control),
        observer.roles@.contains(Role::Observer),
{
    assert(ui.roles@[0] == Role::Ui && ui.roles@[1] == Role::Control);
    assert(control.roles@[0] == Role::Control);
    assert(observer.roles@[0] == Role::Observer);
}

/// A line of more than a mebibyte ends the connection, a blank one is passed over, and any other is
/// read.
pub proof fn long_lines_end_the_connection(line: &str, r: LineStep)
    requires
        call_ensures(read_line, (line,), r),
    ensures
        r is Close <==> encode_utf8(line@).len() > 1_048_576,
        r is Parse <==> encode_utf8(line@).len() <= 1_048_576 && trimmed(line@).len() > 0,
{
}

/// Where a daemon listens no second one starts; a socket that nobody listens on is taken over.
pub proof fn one_daemon_listens(
    path: &str,
    state: SocketState,
    r: Result<BindStep, crate::frame::ApiError>,
)
    requires
        call_ensures(bind, (path, state), r),
    ensures
        r is Err <==> state is Live,
        r is Err ==> r->Err_0.code@ == "already_running"@,
        r is Ok && r->Ok_0 is Reclaim <==> state is Stale,
        r is Ok && r->Ok_0 is Bind <==> state is Absent,
{
}

/// Waiting ends with the first event that matches; one that does not match, and events that were
/// missed, are waited through; the end of the stream and of the time are failures of their own.
pub proof fn waiting_ends_with_what_matches(arrival: Arrival, r: WaitStep)
    requires
        call_ensures(wait_for, (arrival,), r),
    ensures
        r is Found <==> arrival is Event && arrival->Event_1,
        r is Found ==> r->Found_0 == arrival->Event_0,
        r is Failed <==> arrival is Closed || arrival is TimedOut,
        arrival is TimedOut ==> r->Failed_0.code@ == "timeout"@,
        arrival is Closed ==> r->Failed_0.code@ == "disconnected"@,
{
}

} // verus!

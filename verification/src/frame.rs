//! The shape of the control API: five frames.
//!
//! Payloads are plain structured values on purpose. The transport should not know what a
//! method means, which keeps this module stable while methods come and go.

use crate::json::{object, Json, JsonView};
use crate::text::same;
use vstd::prelude::*;

verus! {

/// Control API version, independent of the protocol's own.
pub const API_VERSION: u32 = 1;

/// Largest single frame we will read, in bytes.
pub const MAX_FRAME_BYTES: usize = 1_048_576;

/// One line on the control socket.
///
/// Requests flow in *both* directions: the daemon asks connected UIs for consent (`Ask`),
/// because deciding about an offer must never block on a human.
#[derive(Debug)]
pub enum Frame {
    /// Client to daemon: invoke a method.
    Req {
        /// Client-scoped correlation id.
        id: u64,
        /// Method name, `noun.verb`.
        m: String,
        /// Parameters; always an object.
        p: Json,
    },
    /// A successful reply, in either direction.
    Res {
        /// The id of the `Req` or `Ask` being answered.
        id: u64,
        /// Result; always an object.
        p: Json,
    },
    /// A failed reply, in either direction.
    Failure {
        /// The id being answered.
        id: u64,
        /// Stable machine-readable code.
        code: String,
        /// Human-readable detail. Never parse this.
        msg: String,
    },
    /// Daemon to client: a question that needs a `Res`.
    Ask {
        /// Daemon-scoped correlation id (a separate space from `Req` ids).
        id: u64,
        /// Question name, e.g. `offer.accept`.
        q: String,
        /// Context for the decision.
        p: Json,
    },
    /// Daemon to every client: something happened.
    Ev {
        /// Monotonic sequence number, for replay after a reconnect.
        seq: u64,
        /// Event name.
        e: String,
        /// Event payload.
        p: Json,
    },
}

/// The model of a [`Frame`].
#[verifier::ext_equal]
pub enum FrameView {
    /// Client to daemon: invoke a method.
    Req {
        /// Correlation id.
        id: u64,
        /// Method name.
        m: Seq<char>,
        /// Parameters.
        p: JsonView,
    },
    /// A successful reply.
    Res {
        /// The id being answered.
        id: u64,
        /// Result.
        p: JsonView,
    },
    /// A failed reply.
    Failure {
        /// The id being answered.
        id: u64,
        /// Stable machine-readable code.
        code: Seq<char>,
        /// Human-readable detail.
        msg: Seq<char>,
    },
    /// A question.
    Ask {
        /// Correlation id.
        id: u64,
        /// Question name.
        q: Seq<char>,
        /// Context.
        p: JsonView,
    },
    /// Something happened.
    Ev {
        /// Sequence number.
        seq: u64,
        /// Event name.
        e: Seq<char>,
        /// Event payload.
        p: JsonView,
    },
}

impl View for Frame {
    type V = FrameView;

    open spec fn view(&self) -> FrameView {
        match self {
            Frame::Req { id, m, p } => FrameView::Req { id: *id, m: m@, p: p@ },
            Frame::Res { id, p } => FrameView::Res { id: *id, p: p@ },
            Frame::Failure { id, code, msg } => FrameView::Failure { id: *id, code: code@, msg: msg@ },
            Frame::Ask { id, q, p } => FrameView::Ask { id: *id, q: q@, p: p@ },
            Frame::Ev { seq, e, p } => FrameView::Ev { seq: *seq, e: e@, p: p@ },
        }
    }
}

/// A method or question failure.
#[derive(Debug)]
pub struct ApiError {
    /// Stable machine-readable code.
    pub code: String,
    /// Human-readable detail.
    pub msg: String,
}

/// The model of an [`ApiError`].
#[verifier::ext_equal]
pub struct ApiErrorView {
    /// Stable machine-readable code.
    pub code: Seq<char>,
    /// Human-readable detail.
    pub msg: Seq<char>,
}

impl View for ApiError {
    type V = ApiErrorView;

    open spec fn view(&self) -> ApiErrorView {
        ApiErrorView { code: self.code@, msg: self.msg@ }
    }
}

impl ApiErrorView {
    /// The failure with this code and detail.
    pub open spec fn of(code: Seq<char>, msg: Seq<char>) -> ApiErrorView {
        ApiErrorView { code, msg }
    }

    /// What a person reads.
    pub open spec fn message(self) -> Seq<char> {
        self.code + ": "@ + self.msg
    }

    /// The failed reply to a request.
    pub open spec fn reply(self, id: u64) -> FrameView {
        FrameView::Failure { id, code: self.code, msg: self.msg }
    }
}

impl ApiError {
    /// Build an error with an explicit code.
    pub fn new(code: &str, msg: &str) -> (r: ApiError)
        ensures
            r@ == ApiErrorView::of(code@, msg@),
    {
        ApiError { code: code.to_owned(), msg: msg.to_owned() }
    }

    /// What a person reads.
    pub fn message(&self) -> (r: String)
        ensures
            r@ == self@.message(),
    {
        self.code.clone().concat(": ").concat(self.msg.as_str())
    }

    /// The failed reply to a request.
    pub fn reply(self, id: u64) -> (r: Frame)
        ensures
            r@ == self@.reply(id),
    {
        Frame::Failure { id, code: self.code, msg: self.msg }
    }
}

/// The reply to a request.
pub open spec fn reply_to(id: u64, r: Result<JsonView, ApiErrorView>) -> FrameView {
    match r {
        Ok(p) => FrameView::Res { id, p },
        Err(e) => e.reply(id),
    }
}

/// The model of a result.
pub open spec fn api_result(r: Result<Json, ApiError>) -> Result<JsonView, ApiErrorView> {
    match r {
        Ok(p) => Ok(p@),
        Err(e) => Err(e@),
    }
}

/// The reply to a request.
pub fn reply(id: u64, r: Result<Json, ApiError>) -> (frame: Frame)
    ensures
        frame@ == reply_to(id, api_result(r)),
{
    match r {
        Ok(p) => Frame::Res { id, p },
        Err(e) => e.reply(id),
    }
}

/// A client's declared capabilities.
#[derive(Clone, Copy, Debug, PartialEq, Eq, Structural)]
pub enum Role {
    /// Receives events. Implied by every other role.
    Observer,
    /// May be sent `Ask` frames.
    Ui,
    /// May publish, fetch, and leave drops.
    Control,
}

/// What a client tells the daemon on connect.
#[derive(Debug)]
pub struct Hello {
    /// Free-form client identification, for logs only.
    pub client: String,
    /// Control API version the client speaks.
    pub api: u32,
    /// What the client is willing to do.
    pub roles: Vec<Role>,
}

impl Hello {
    /// A client that only watches.
    pub fn observer(client: &str) -> (r: Hello)
        ensures
            r.client@ == client@,
            r.api == API_VERSION,
            r.roles@ == seq![Role::Observer],
    {
        Hello { client: client.to_owned(), api: API_VERSION, roles: vec![Role::Observer] }
    }

    /// A client that drives transfers and answers consent questions.
    pub fn ui(client: &str) -> (r: Hello)
        ensures
            r.client@ == client@,
            r.api == API_VERSION,
            r.roles@ == seq![Role::Ui, Role::Control],
    {
        Hello { client: client.to_owned(), api: API_VERSION, roles: vec![Role::Ui, Role::Control] }
    }

    /// A client that drives transfers but is never asked anything.
    pub fn control(client: &str) -> (r: Hello)
        ensures
            r.client@ == client@,
            r.api == API_VERSION,
            r.roles@ == seq![Role::Control],
    {
        Hello { client: client.to_owned(), api: API_VERSION, roles: vec![Role::Control] }
    }

    /// Whether the client is willing to act in a role.
    pub fn has_role(&self, role: Role) -> (r: bool)
        ensures
            r == self.roles@.contains(role),
    {
        let mut i: usize = 0;
        while i < self.roles.len()
            invariant
                i <= self.roles@.len(),
                forall|k: int| 0 <= k < i ==> self.roles@[k] != role,
            decreases self.roles@.len() - i,
        {
            if self.roles[i] == role {
                return true;
            }
            i += 1;
        }
        false
    }
}

/// An event as recorded in the replay ring.
#[derive(Debug)]
pub struct Envelope {
    /// Monotonic sequence number.
    pub seq: u64,
    /// Event name.
    pub e: String,
    /// Event payload.
    pub p: Json,
}

/// The model of an [`Envelope`].
#[verifier::ext_equal]
pub struct EnvelopeView {
    /// Sequence number.
    pub seq: u64,
    /// Event name.
    pub e: Seq<char>,
    /// Event payload.
    pub p: JsonView,
}

impl View for Envelope {
    type V = EnvelopeView;

    open spec fn view(&self) -> EnvelopeView {
        EnvelopeView { seq: self.seq, e: self.e@, p: self.p@ }
    }
}

/// The models of recorded events.
pub open spec fn envelope_views(s: Seq<Envelope>) -> Seq<EnvelopeView> {
    Seq::new(s.len(), |i: int| s[i]@)
}

impl EnvelopeView {
    /// The recorded event as a structured value.
    pub open spec fn json(self) -> JsonView {
        object().with("seq"@, JsonView::Unsigned(self.seq)).with("e"@, JsonView::Text(self.e)).with(
            "p"@,
            self.p,
        )
    }
}

impl Envelope {
    /// Turn a recorded event back into a frame.
    pub fn to_frame(&self) -> (r: Frame)
        ensures
            r@ == (FrameView::Ev { seq: self.seq, e: self.e@, p: self.p@ }),
    {
        Frame::Ev { seq: self.seq, e: self.e.clone(), p: self.p.copy() }
    }

    /// The same event again.
    pub fn copy(&self) -> (r: Envelope)
        ensures
            r@ == self@,
    {
        Envelope { seq: self.seq, e: self.e.clone(), p: self.p.copy() }
    }

    /// The recorded event as a structured value.
    pub fn to_json(&self) -> (r: Json)
        ensures
            r@ == self@.json(),
    {
        Json::object().with("seq", Json::Unsigned(self.seq)).with(
            "e",
            Json::text(self.e.as_str()),
        ).with("p", self.p.copy())
    }

    /// Whether this event has the name `e`.
    pub fn is(&self, e: &str) -> (r: bool)
        ensures
            r == (self.e@ == e@),
    {
        same(self.e.as_str(), e)
    }
}

} // verus!

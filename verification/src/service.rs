//! The daemon: one endpoint, N sessions, many clients.
//!
//! The service owns lifetime. Clients come and go; transfers do not stop when a window
//! closes, and content you received keeps being served.
//!
//! What the daemon knows and decides is here. Opening sessions, moving bytes and waiting
//! for people happen outside: a method that needs such work comes back as an [`Action`],
//! and the outcome is handed in again.

use crate::asks::{staying, AskRouter, AsksView};
use crate::bus::{count_on, events_from, first_wanted, next_count, BusView, EventBus};
use crate::collections::{Published, META_MEMBERS};
use crate::config::{DropPolicy, StackOptions};
use crate::frame::{
    envelope_views, ApiError, ApiErrorView, Frame, FrameView, Hello, Role, API_VERSION,
};
use crate::ids::{BlobHash, PeerId};
use crate::inventory::{
    find_meta, kind_text, listing_of, meta_value, opt_hash, picked, resolve_pick, InventoryItem,
    LocalBlobStatus, OfferRecord,
};
use crate::json::{
    added_value_is_found, json_views, nothing_is_in_an_empty_object, number_or_null, object,
    text_list, text_or_null, Json, JsonView,
};
use crate::order::{arrange, arranged, comes_before, text_before, Ranked};
use crate::persist::PersistedDrop;
use crate::size::{human_bytes, human_size};
use crate::table::Table;
use crate::text::{
    copy_text, decimal, number, opt_text, parse_unsigned, parsed, same, texts,
};
use crate::ticket::{app_link, app_link_text, web_link, web_link_text};
use std::collections::HashSet;
use vstd::prelude::*;

verus! {

/// How long a consent question waits before defaulting to deny, in milliseconds.
///
/// Long enough that stepping away from the desk does not lose a transfer, short enough that
/// a forgotten prompt cannot be clicked days later by somebody else at the same machine.
pub const CONSENT_TIMEOUT: u64 = 300_000;

/// Minimum gap between `fetch.progress` events for the same blob, in nanoseconds.
pub const PROGRESS_INTERVAL: u64 = 100_000_000;

/// How to bring up the daemon.
#[derive(Debug)]
pub struct ServiceOptions {
    /// Persistent blob store. `None` means in-memory (nothing survives).
    pub store_path: Option<String>,
    /// Persistent identity, so peers can recognise you across restarts.
    pub identity_path: Option<String>,
    /// No relays, no lookups outside the local network.
    pub offline: bool,
    /// Announce and resolve peers on the local network.
    pub mdns: bool,
    /// Where accepted transfers land by default.
    pub download_dir: String,
    /// Accept offers when there is no live UI to ask.
    pub auto_accept: bool,
    /// Base URL of a static page that can hand a ticket to the app. When set, share
    /// results also carry a plain `https` link with the ticket in the **fragment**, which
    /// browsers never send to the server.
    pub link_base: Option<String>,
}

impl Default for ServiceOptions {
    fn default() -> (r: ServiceOptions)
        ensures
            r.store_path is None,
            r.identity_path is None,
            !r.offline,
            r.mdns,
            r.download_dir@ == "."@,
            !r.auto_accept,
            r.link_base is None,
    {
        ServiceOptions {
            store_path: None,
            identity_path: None,
            offline: false,
            mdns: true,
            download_dir: ".".to_owned(),
            auto_accept: false,
            link_base: None,
        }
    }
}

impl ServiceOptions {
    /// How the endpoint is brought up, and the protocol's policy. Auto-fetch stays off: an
    /// offer must never consume disk before a human (or an explicit policy) says yes.
    pub fn protocol_setup(&self, base: DropPolicy) -> (r: (StackOptions, DropPolicy))
        ensures
            opt_text(r.0.store_path) == opt_text(self.store_path),
            opt_text(r.0.identity_path) == opt_text(self.identity_path),
            r.0.offline == self.offline,
            r.0.mdns == self.mdns,
            r.0.secret_key is None,
            r.0.relay_url is None,
            !r.1.auto_fetch,
            r.1.output_directory@ == self.download_dir@,
            r.1.max_blob_size == base.max_blob_size,
            r.1.max_total_auto_fetch_bytes == base.max_total_auto_fetch_bytes,
    {
        (
            StackOptions {
                store_path: copy_text(&self.store_path),
                offline: self.offline,
                identity_path: copy_text(&self.identity_path),
                secret_key: None,
                relay_url: None,
                mdns: self.mdns,
            },
            DropPolicy {
                auto_fetch: false,
                max_blob_size: base.max_blob_size,
                max_total_auto_fetch_bytes: base.max_total_auto_fetch_bytes,
                output_directory: self.download_dir.clone(),
            },
        )
    }
}

/// Where a task stands.
#[derive(Clone, Copy, Debug, PartialEq, Eq, Structural)]
pub enum TaskState {
    /// At work.
    Running,
    /// It succeeded.
    Done,
    /// It failed.
    Failed,
    /// Somebody stopped it.
    Cancelled,
}

impl TaskState {
    /// How the API spells the state.
    pub open spec fn spelling(self) -> Seq<char> {
        match self {
            TaskState::Running => "running"@,
            TaskState::Done => "done"@,
            TaskState::Failed => "failed"@,
            TaskState::Cancelled => "cancelled"@,
        }
    }

    /// How the API spells the state.
    pub fn text(&self) -> (r: &'static str)
        ensures
            r@ == self.spelling(),
    {
        match self {
            TaskState::Running => "running",
            TaskState::Done => "done",
            TaskState::Failed => "failed",
            TaskState::Cancelled => "cancelled",
        }
    }
}

/// A piece of long work.
#[derive(Debug)]
pub struct TaskEntry {
    /// `publish` or `fetch`.
    pub kind: String,
    /// The drop it is for.
    pub drop: String,
    /// The blob it is about, where that is known.
    pub hash: Option<String>,
    /// Where it stands.
    pub state: TaskState,
    /// Whether it can still be aborted.
    pub abortable: bool,
}

/// The model of a [`TaskEntry`].
#[verifier::ext_equal]
pub struct TaskView {
    /// `publish` or `fetch`.
    pub kind: Seq<char>,
    /// The drop it is for.
    pub drop: Seq<char>,
    /// The blob it is about.
    pub hash: Option<Seq<char>>,
    /// Where it stands.
    pub state: TaskState,
    /// Whether it can still be aborted.
    pub abortable: bool,
}

impl View for TaskEntry {
    type V = TaskView;

    open spec fn view(&self) -> TaskView {
        TaskView {
            kind: self.kind@,
            drop: self.drop@,
            hash: opt_text(self.hash),
            state: self.state,
            abortable: self.abortable,
        }
    }
}

/// An offer as it arrives from a peer. All of it is untrusted.
#[derive(Debug)]
pub struct Offer {
    /// Content hash.
    pub blob_hash: BlobHash,
    /// The name it is offered under.
    pub name: String,
    /// Advertised size in bytes.
    pub size: u64,
    /// Advertised media type, if any.
    pub media_type: Option<String>,
    /// Metadata: keys and values.
    pub metadata: Vec<(String, String)>,
}

/// What a protocol warning is about.
#[derive(Debug)]
pub enum WarningKind {
    /// A peer sends more than it may.
    RateLimited,
    /// The inventory is full, and something was dropped from it.
    InventoryEvicted,
    /// Anything else.
    Other,
}

/// Something that happened in a drop.
#[derive(Debug)]
pub enum DropEvent {
    /// A peer came.
    PeerJoined {
        /// Who.
        peer: PeerId,
    },
    /// A peer went.
    PeerLeft {
        /// Who.
        peer: PeerId,
    },
    /// Somebody offers a blob.
    OfferReceived {
        /// Who.
        from: PeerId,
        /// What.
        offer: Offer,
    },
    /// An offer was not taken up.
    OfferRejected {
        /// Whose.
        from: PeerId,
        /// Why.
        reason: String,
    },
    /// A fetch began.
    FetchStarted {
        /// Of what.
        hash: BlobHash,
        /// From whom.
        provider: PeerId,
    },
    /// Bytes arrived.
    FetchProgress {
        /// Of what.
        hash: BlobHash,
        /// How many so far.
        downloaded: u64,
        /// Of how many, where that is known.
        total: Option<u64>,
    },
    /// A fetch succeeded.
    FetchCompleted {
        /// Of what.
        hash: BlobHash,
        /// From whom.
        provider: PeerId,
    },
    /// A fetch failed.
    FetchFailed {
        /// Of what.
        hash: BlobHash,
        /// Why.
        error: String,
    },
    /// A peer serves a blob now.
    ProviderAvailable {
        /// Which.
        hash: BlobHash,
        /// Who.
        peer: PeerId,
    },
    /// A peer serves a blob no more.
    ProviderUnavailable {
        /// Which.
        hash: BlobHash,
        /// Who.
        peer: PeerId,
    },
    /// Something is odd.
    ProtocolWarning {
        /// Whose doing it is, where that is known.
        source: Option<PeerId>,
        /// What.
        warning: String,
        /// Of which kind.
        kind: WarningKind,
    },
    /// Anything else, in the protocol's own words.
    Other {
        /// The words.
        shown: String,
    },
}

/// The daemon's state.
#[derive(Debug)]
pub struct Service {
    /// How it was brought up.
    pub options: ServiceOptions,
    /// Its stable endpoint id.
    pub endpoint_id: String,
    /// The version of this build.
    pub version: String,
    /// The version of the protocol's wire format.
    pub wire: u64,
    /// The hosted drops by handle.
    pub drops: Table<HostedDrop>,
    /// The number in the next handle.
    pub next_drop: u64,
    /// The tasks by id.
    pub tasks: Table<TaskEntry>,
    /// The number in the next task id.
    pub next_task: u64,
    /// Everything that happened.
    pub bus: EventBus,
    /// Questions under way.
    pub asks: AskRouter,
    /// When progress was last reported for a blob, in nanoseconds.
    pub progress_seen: Table<u64>,
}

/// Every method this build supports.
pub open spec fn method_names() -> Seq<Seq<char>> {
    seq![
        "hello"@,
        "daemon.status"@,
        "drop.create"@,
        "drop.join"@,
        "drop.list"@,
        "drop.ticket"@,
        "drop.leave"@,
        "offer.list"@,
        "offer.publish"@,
        "offer.fetch"@,
        "task.list"@,
        "task.cancel"@,
        "events.replay"@,
    ]
}

/// What a method asks for.
#[derive(Debug)]
pub enum Action {
    /// Nothing but this reply.
    Reply(Json),
    /// Create a drop; then [`Service::created`].
    Create {
        /// Its display name.
        name: Option<String>,
    },
    /// Join the drop of a ticket; then [`Service::joined`].
    Join {
        /// The ticket, as it was given.
        ticket: String,
    },
    /// Look at every drop; then [`Service::drop_list`].
    ListDrops,
    /// Make a ticket for a drop; then [`Service::drop_ticket`].
    Ticket {
        /// The drop.
        drop: String,
        /// With every bootstrap address.
        full: bool,
    },
    /// Leave a drop, which is no longer listed; then [`Service::left`].
    Leave {
        /// The drop.
        drop: String,
    },
    /// Look at the offers of a drop; then [`offer_list`].
    ListOffers {
        /// The drop.
        drop: String,
    },
    /// Publish a path in the course of a task; then [`Service::publish_done`]. The reply
    /// is [`task_reply`].
    Publish {
        /// The task.
        task: String,
        /// The drop.
        drop: String,
        /// What to publish.
        path: String,
        /// Under which name.
        name: Option<String>,
    },
    /// Resolve a pick among the offers of a drop; then [`Service::start_fetch`].
    Fetch {
        /// The drop.
        drop: String,
        /// What was picked.
        pick: String,
        /// Where it goes.
        out: String,
    },
    /// Abort a task if it can be; the reply is an empty object.
    Cancel {
        /// The task.
        task: String,
        /// Whether it can still be aborted.
        abort: bool,
    },
}

/// A missing parameter.
pub open spec fn missing(what: Seq<char>) -> ApiErrorView {
    ApiErrorView::of("bad_params"@, what + " is required"@)
}

/// A drop that is not there.
pub open spec fn no_drop(handle: Seq<char>) -> ApiErrorView {
    ApiErrorView::of("not_found"@, "no drop "@ + handle)
}

/// The error for a drop that is not there.
pub fn drop_not_found(handle: &str) -> (r: ApiError)
    ensures
        r@ == no_drop(handle@),
{
    ApiError::new("not_found", "no drop ".to_owned().concat(handle).as_str())
}

fn missing_param(what: &str) -> (r: ApiError)
    ensures
        r@ == missing(what@),
{
    ApiError::new("bad_params", what.to_owned().concat(" is required").as_str())
}

/// The drop that a request names.
pub open spec fn handle_of(params: JsonView) -> Result<Seq<char>, ApiErrorView> {
    match params.text_at("drop"@) {
        Some(handle) => Ok(handle),
        None => Err(missing("drop"@)),
    }
}

/// A required text among the parameters.
pub open spec fn required(params: JsonView, key: Seq<char>) -> Result<Seq<char>, ApiErrorView> {
    match params.text_at(key) {
        Some(v) => Ok(v),
        None => Err(missing(key)),
    }
}

fn require(params: &Json, key: &str) -> (r: Result<String, ApiError>)
    ensures
        match r {
            Ok(v) => required(params@, key@) == Ok::<Seq<char>, ApiErrorView>(v@),
            Err(e) => required(params@, key@) == Err::<Seq<char>, ApiErrorView>(e@),
        },
{
    match params.text_at(key) {
        Some(v) => Ok(v.to_owned()),
        None => Err(missing_param(key)),
    }
}

/// The reply that names a task.
pub open spec fn task_named(task: Seq<char>) -> JsonView {
    object().with("task"@, JsonView::Text(task))
}

/// The reply that names a task.
pub fn task_reply(task: &str) -> (r: Json)
    ensures
        r@ == task_named(task@),
{
    Json::object().with("task", Json::text(task))
}

/// How the API spells a blob's local status: missing, fetching, available or failed.
pub open spec fn status_spelling(status: LocalBlobStatus) -> Seq<char> {
    match status {
        LocalBlobStatus::Missing => "missing"@,
        LocalBlobStatus::Fetching { .. } => "fetching"@,
        LocalBlobStatus::Complete => "available"@,
        LocalBlobStatus::Other(_) => "failed"@,
    }
}

/// How the API spells a blob's local status: missing, fetching, available or failed.
pub fn status_str(status: &LocalBlobStatus) -> (r: &'static str)
    ensures
        r@ == status_spelling(*status),
{
    match status {
        LocalBlobStatus::Missing => "missing",
        LocalBlobStatus::Fetching { .. } => "fetching",
        LocalBlobStatus::Complete => "available",
        LocalBlobStatus::Other(_) => "failed",
    }
}

/// A number of members, as a value.
pub open spec fn members_or_null(n: Option<usize>) -> JsonView {
    match n {
        Some(n) => JsonView::Unsigned(n as u64),
        None => JsonView::Null,
    }
}

/// One item of a drop, as the API shows it.
pub open spec fn item_json(item: InventoryItem) -> JsonView {
    object().with("n"@, JsonView::Unsigned(item.index as u64)).with(
        "name"@,
        JsonView::Text(item.name@),
    ).with("hash"@, JsonView::Text(item.hash.hex@)).with(
        "size"@,
        JsonView::Unsigned(item.content_size),
    ).with("human_size"@, JsonView::Text(human_size(item.content_size as nat))).with(
        "kind"@,
        JsonView::Text(kind_text(item.is_collection, item.members)),
    ).with("is_collection"@, JsonView::Bool(item.is_collection)).with(
        "members"@,
        members_or_null(item.members),
    ).with("status"@, JsonView::Text(status_spelling(item.status)))
}

fn show_item(item: &InventoryItem) -> (r: Json)
    ensures
        r@ == item_json(*item),
{
    let members = match item.members {
        Some(n) => Json::Unsigned(n as u64),
        None => Json::Null,
    };
    Json::object().with("n", Json::Unsigned(item.index as u64)).with(
        "name",
        Json::text(item.name.as_str()),
    ).with("hash", Json::text(item.hash.hex.as_str())).with(
        "size",
        Json::Unsigned(item.content_size),
    ).with("human_size", Json::text(item.human_size().as_str())).with(
        "kind",
        Json::text(item.kind().as_str()),
    ).with("is_collection", Json::Bool(item.is_collection)).with("members", members).with(
        "status",
        Json::text(status_str(&item.status)),
    )
}

/// The reply to `offer.list`: every item of a drop.
pub fn offer_list(items: &Vec<InventoryItem>) -> (r: Json)
    ensures
        r@ == object().with(
            "items"@,
            JsonView::List(Seq::new(items@.len(), |i: int| item_json(items@[i]))),
        ),
{
    let mut out: Vec<Json> = Vec::new();
    let mut i: usize = 0;
    while i < items.len()
        invariant
            i <= items@.len(),
            out@.len() == i,
            forall|k: int| 0 <= k < i ==> (#[trigger] out@[k])@ == item_json(items@[k]),
        decreases items@.len() - i,
    {
        out.push(show_item(&items[i]));
        i += 1;
    }
    assert(json_views(out@) =~= Seq::new(items@.len(), |i: int| item_json(items@[i])));
    Json::object().with("items", Json::list(out))
}

/// What the service itself knows about a hosted drop.
#[derive(Debug)]
pub struct HostedDrop {
    /// Display name for drops we created; joined drops have none.
    pub name: Option<String>,
    /// Whether we created it; false for a drop we joined.
    pub mine: bool,
}

/// The model of a [`HostedDrop`].
#[verifier::ext_equal]
pub struct HostedView {
    /// Display name.
    pub name: Option<Seq<char>>,
    /// Whether we created it.
    pub mine: bool,
}

impl View for HostedDrop {
    type V = HostedView;

    open spec fn view(&self) -> HostedView {
        HostedView { name: opt_text(self.name), mine: self.mine }
    }
}

/// What a session says about its drop.
#[derive(Debug)]
pub struct DropFacts {
    /// The handle.
    pub drop: String,
    /// The topic.
    pub topic: String,
    /// How many peers are there.
    pub peers: usize,
    /// How many things were announced.
    pub offers: usize,
    /// How many files a person would count: a folder is one offer and many files.
    pub files: u64,
    /// What they take together, in bytes.
    pub bytes: u64,
}

impl Ranked for DropFacts {
    open spec fn ranks_before(&self, other: &Self) -> bool {
        text_before(self.drop@, other.drop@)
    }

    fn precedes(&self, other: &Self) -> (r: bool) {
        comes_before(self.drop.as_str(), other.drop.as_str())
    }

    proof fn rank_is_asymmetric(a: Self, b: Self) {
        crate::order::text_before_asymmetric(a.drop@, b.drop@);
    }

    proof fn rank_is_total(a: Self, b: Self, c: Self) {
        crate::order::text_not_before_transitive(a.drop@, b.drop@, c.drop@);
    }
}

/// How many files a person would count in a listing.
pub open spec fn files_in(items: Seq<InventoryItem>) -> nat
    decreases items.len(),
{
    if items.len() == 0 {
        0
    } else {
        files_in(items.drop_last()) + match items.last().members {
            Some(n) => n as nat,
            None => 1,
        }
    }
}

/// How many bytes a listing stands for.
pub open spec fn bytes_in(items: Seq<InventoryItem>) -> nat
    decreases items.len(),
{
    if items.len() == 0 {
        0
    } else {
        bytes_in(items.drop_last()) + items.last().content_size as nat
    }
}

proof fn lemma_totals_grow(items: Seq<InventoryItem>, k: int)
    requires
        0 <= k <= items.len(),
    ensures
        files_in(items.take(k)) <= files_in(items),
        bytes_in(items.take(k)) <= bytes_in(items),
    decreases items.len(),
{
    if k < items.len() {
        lemma_totals_grow(items.drop_last(), k);
        assert(items.drop_last().take(k) =~= items.take(k));
    } else {
        assert(items.take(k) =~= items);
    }
}

/// How many files a listing stands for and how many bytes, where both fit their types.
pub fn tally(items: &Vec<InventoryItem>) -> (r: Option<(usize, u64)>)
    ensures
        match r {
            Some((files, bytes)) => files == files_in(items@) && bytes == bytes_in(items@),
            None => files_in(items@) > usize::MAX || bytes_in(items@) > u64::MAX,
        },
{
    let mut files: usize = 0;
    let mut bytes: u64 = 0;
    let mut i: usize = 0;
    assert(items@.take(0) =~= Seq::<InventoryItem>::empty());
    while i < items.len()
        invariant
            i <= items@.len(),
            files == files_in(items@.take(i as int)),
            bytes == bytes_in(items@.take(i as int)),
        decreases items@.len() - i,
    {
        proof {
            lemma_totals_grow(items@, i + 1);
            assert(items@.take(i + 1).drop_last() =~= items@.take(i as int));
            assert(items@.take(i + 1).last() == items@[i as int]);
        }
        let more: usize = match items[i].members {
            Some(n) => n,
            None => 1,
        };
        let size: u64 = items[i].content_size;
        if more > usize::MAX - files || size > u64::MAX - bytes {
            return None;
        }
        files += more;
        bytes += size;
        i += 1;
    }
    assert(items@.take(i as int) =~= items@);
    Some((files, bytes))
}

proof fn lemma_tallies_add_up(a: Seq<InventoryItem>, b: Seq<InventoryItem>)
    ensures
        files_in(a + b) == files_in(a) + files_in(b),
        bytes_in(a + b) == bytes_in(a) + bytes_in(b),
    decreases b.len(),
{
    if b.len() == 0 {
        assert(a + b =~= a);
    } else {
        assert((a + b).drop_last() =~= a + b.drop_last());
        lemma_tallies_add_up(a, b.drop_last());
    }
}

/// The tally of a listing of one item: as many files as the item says that it has members, or one
/// where it says nothing, and the bytes that are received for it.
pub proof fn one_item_counts_its_members(items: &Vec<InventoryItem>, r: Option<(usize, u64)>)
    requires
        call_ensures(tally, (items,), r),
        items@.len() == 1,
    ensures
        r == Some(
            (
                match items@[0].members {
                    Some(n) => n,
                    None => 1,
                },
                items@[0].content_size,
            ),
        ),
        files_in(items@) == match items@[0].members {
            Some(n) => n as nat,
            None => 1,
        },
        bytes_in(items@) == items@[0].content_size,
{
    assert(items@.drop_last() =~= Seq::<InventoryItem>::empty());
    assert(files_in(items@.drop_last()) == 0);
    assert(bytes_in(items@.drop_last()) == 0);
}

/// The tally of a listing is the sum of the tallies of its parts.
pub proof fn tallies_add_up(
    whole: &Vec<InventoryItem>,
    front: &Vec<InventoryItem>,
    back: &Vec<InventoryItem>,
    all: Option<(usize, u64)>,
    of_front: Option<(usize, u64)>,
    of_back: Option<(usize, u64)>,
)
    requires
        call_ensures(tally, (whole,), all),
        call_ensures(tally, (front,), of_front),
        call_ensures(tally, (back,), of_back),
        whole@ == front@ + back@,
    ensures
        files_in(whole@) == files_in(front@) + files_in(back@),
        bytes_in(whole@) == bytes_in(front@) + bytes_in(back@),
        whole@.len() == 0 ==> all == Some((0usize, 0u64)),
        match (of_front, of_back) {
            (Some(a), Some(b)) => all == if a.0 + b.0 <= usize::MAX && a.1 + b.1 <= u64::MAX {
                Some(((a.0 + b.0) as usize, (a.1 + b.1) as u64))
            } else {
                None
            },
            _ => all is None,
        },
{
    lemma_tallies_add_up(front@, back@);
}

/// One drop, as the API shows it.
pub open spec fn drop_json(facts: DropFacts, hosted: HostedView) -> JsonView {
    object().with("drop"@, JsonView::Text(facts.drop@)).with(
        "name"@,
        text_or_null(hosted.name),
    ).with(
        "topic"@,
        JsonView::Text(facts.topic@),
    ).with("peers"@, JsonView::Unsigned(facts.peers as u64)).with(
        "offers"@,
        JsonView::Unsigned(facts.offers as u64),
    ).with("files"@, JsonView::Unsigned(facts.files)).with(
        "bytes"@,
        JsonView::Unsigned(facts.bytes),
    ).with("human_size"@, JsonView::Text(human_size(facts.bytes as nat))).with(
        "mine"@,
        JsonView::Bool(hosted.mine),
    )
}

/// One task, as the API shows it.
pub open spec fn task_json(id: Seq<char>, task: TaskView) -> JsonView {
    object().with("task"@, JsonView::Text(id)).with("kind"@, JsonView::Text(task.kind)).with(
        "drop"@,
        JsonView::Text(task.drop),
    ).with("hash"@, text_or_null(task.hash)).with("state"@, JsonView::Text(task.state.spelling()))
}

/// The event that says that a task runs.
pub open spec fn task_started(id: Seq<char>, kind: Seq<char>, drop: Seq<char>) -> JsonView {
    object().with("task"@, JsonView::Text(id)).with("kind"@, JsonView::Text(kind)).with(
        "drop"@,
        JsonView::Text(drop),
    ).with("state"@, JsonView::Text("running"@))
}

/// The event that says how a task ended.
pub open spec fn task_ended(id: Seq<char>, state: Seq<char>, error: Option<Seq<char>>) -> JsonView {
    object().with("task"@, JsonView::Text(id)).with("state"@, JsonView::Text(state)).with(
        "error"@,
        text_or_null(error),
    )
}

/// What a new connection is told, and whether it becomes a client.
#[derive(Debug)]
pub enum Greeting {
    /// It is a client now. A UI gets a token, by which it is forgotten when it leaves.
    Welcome {
        /// The answer to its hello.
        reply: Frame,
        /// The token of a UI.
        ui_token: Option<u64>,
    },
    /// It said hello in a way we cannot take; close it after the answer.
    Refused {
        /// The answer.
        reply: Frame,
    },
    /// It did not say hello first; close it.
    Ignored,
}

/// What a frame from a client asks for.
#[derive(Debug)]
pub enum FrameStep {
    /// Run a method and reply under this id.
    Call {
        /// The id.
        id: u64,
        /// The method.
        m: String,
        /// Its parameters.
        p: Json,
    },
    /// Hand an answer to whoever waits for it; nobody does where `waiting` is false.
    Answer {
        /// The question.
        id: u64,
        /// The answer.
        result: Result<Json, ApiError>,
        /// Whether the question is still open.
        waiting: bool,
    },
    /// Nothing.
    Ignore,
}

/// How consent for an offer is sought.
#[derive(Debug)]
pub enum ConsentStep {
    /// Nobody needs to be asked; this is the answer.
    Settled(Option<Json>),
    /// Send this question to the UI with this token, and wait.
    Ask {
        /// The UI.
        token: u64,
        /// The question.
        frame: Frame,
    },
}

/// A fetch that is to be carried out.
#[derive(Debug)]
pub struct FetchOrder {
    /// In the course of which task.
    pub task: String,
    /// Where it goes.
    pub out: String,
}

/// The question about an offer. Everything about the offer is untrusted display metadata.
pub open spec fn question(drop: Seq<char>, from: Seq<char>, offer: Offer) -> JsonView {
    object().with("drop"@, JsonView::Text(drop)).with("from"@, JsonView::Text(from)).with(
        "name"@,
        JsonView::Text(offer.name@),
    ).with("size"@, JsonView::Unsigned(offer.size)).with(
        "human_size"@,
        JsonView::Text(human_size(offer.size as nat)),
    ).with("media_type"@, text_or_null(opt_text(offer.media_type))).with(
        "members"@,
        text_or_null(meta_value(offer.metadata@, META_MEMBERS@)),
    ).with("known"@, JsonView::Bool(false)).with(
        "hash"@,
        JsonView::Text(offer.blob_hash.hex@),
    ).with("expires_in_ms"@, JsonView::Unsigned(CONSENT_TIMEOUT))
}

/// The question about an offer says what is offered and by whom: under each name stands what the
/// offer itself says, and the deadline is five minutes.
pub proof fn the_question_tells_the_offer(drop: Seq<char>, from: Seq<char>, offer: Offer)
    ensures
        question(drop, from, offer).text_at("drop"@) == Some(drop),
        question(drop, from, offer).text_at("from"@) == Some(from),
        question(drop, from, offer).text_at("name"@) == Some(offer.name@),
        question(drop, from, offer).text_at("hash"@) == Some(offer.blob_hash.hex@),
        question(drop, from, offer).number_at("size"@) == Some(offer.size),
        question(drop, from, offer).text_at("human_size"@) == Some(human_size(offer.size as nat)),
        question(drop, from, offer).text_at("media_type"@) == opt_text(offer.media_type),
        question(drop, from, offer).text_at("members"@) == meta_value(
            offer.metadata@,
            "collection.members"@,
        ),
        question(drop, from, offer).flag_at("known"@) == Some(false),
        question(drop, from, offer).number_at("expires_in_ms"@) == Some(300_000u64),
{
    broadcast use {added_value_is_found, nothing_is_in_an_empty_object};

    reveal_strlit("drop");
    reveal_strlit("from");
    reveal_strlit("name");
    reveal_strlit("size");
    reveal_strlit("human_size");
    reveal_strlit("media_type");
    reveal_strlit("members");
    reveal_strlit("known");
    reveal_strlit("hash");
    reveal_strlit("expires_in_ms");
    assert("drop"@.len() == 4 && "from"@.len() == 4 && "name"@.len() == 4 && "size"@.len() == 4
        && "human_size"@.len() == 10 && "media_type"@.len() == 10 && "members"@.len() == 7
        && "known"@.len() == 5 && "hash"@.len() == 4 && "expires_in_ms"@.len() == 13);
    assert("drop"@[0] == 'd' && "from"@[0] == 'f' && "name"@[0] == 'n' && "size"@[0] == 's'
        && "hash"@[0] == 'h');
    assert("human_size"@[0] == 'h' && "media_type"@[0] == 'm');
    let q = question(drop, from, offer);
    assert(q.get("drop"@) is Some);
    assert(q.get("from"@) is Some);
    assert(q.get("name"@) is Some);
    assert(q.get("size"@) is Some);
    assert(q.get("human_size"@) is Some);
    assert(q.get("media_type"@) is Some);
    assert(q.get("members"@) is Some);
    assert(q.get("known"@) is Some);
    assert(q.get("hash"@) is Some);
    assert(q.get("expires_in_ms"@) is Some);
}

/// The event that says that an offer was declined.
pub open spec fn declined(drop: Seq<char>, hash: Seq<char>, reason: Seq<char>) -> JsonView {
    object().with("drop"@, JsonView::Text(drop)).with("hash"@, JsonView::Text(hash)).with(
        "reason"@,
        JsonView::Text(reason),
    )
}

/// Whether an answer is an explicit yes.
pub open spec fn accepts(answer: JsonView) -> bool {
    answer.flag_at("accept"@) == Some(true)
}

/// Whether there is consent: an answer, and one that is an explicit yes.
pub open spec fn consents(answer: Option<JsonView>) -> bool {
    match answer {
        Some(answer) => accepts(answer),
        None => false,
    }
}

/// The model of an answer.
pub open spec fn answer_view(answer: Option<Json>) -> Option<JsonView> {
    match answer {
        Some(answer) => Some(answer@),
        None => None,
    }
}

/// The API event for a session event of the drop `d`, where it has one. Progress has one
/// only when it is `due`.
pub open spec fn api_event(d: Seq<char>, event: DropEvent, due: bool) -> Option<
    (Seq<char>, JsonView),
> {
    let base = object().with("drop"@, JsonView::Text(d));
    match event {
        DropEvent::PeerJoined { peer } => Some(
            ("peer.joined"@, base.with("peer"@, JsonView::Text(peer.id@))),
        ),
        DropEvent::PeerLeft { peer } => Some(
            ("peer.left"@, base.with("peer"@, JsonView::Text(peer.id@))),
        ),
        DropEvent::OfferReceived { from, offer } => Some(
            (
                "offer.received"@,
                base.with("from"@, JsonView::Text(from.id@)).with(
                    "hash"@,
                    JsonView::Text(offer.blob_hash.hex@),
                ).with("name"@, JsonView::Text(offer.name@)).with(
                    "size"@,
                    JsonView::Unsigned(offer.size),
                ).with("human_size"@, JsonView::Text(human_size(offer.size as nat))).with(
                    "media_type"@,
                    text_or_null(opt_text(offer.media_type)),
                ),
            ),
        ),
        DropEvent::OfferRejected { from, reason } => Some(
            (
                "offer.rejected"@,
                base.with("from"@, JsonView::Text(from.id@)).with(
                    "reason"@,
                    JsonView::Text(reason@),
                ),
            ),
        ),
        DropEvent::FetchStarted { hash, provider } => Some(
            (
                "fetch.started"@,
                base.with("hash"@, JsonView::Text(hash.hex@)).with(
                    "provider"@,
                    JsonView::Text(provider.id@),
                ),
            ),
        ),
        DropEvent::FetchProgress { hash, downloaded, total } => if due {
            Some(
                (
                    "fetch.progress"@,
                    base.with("hash"@, JsonView::Text(hash.hex@)).with(
                        "downloaded"@,
                        JsonView::Unsigned(downloaded),
                    ).with("total"@, number_or_null(total)),
                ),
            )
        } else {
            None
        },
        DropEvent::FetchCompleted { hash, provider } => Some(
            (
                "fetch.completed"@,
                base.with("hash"@, JsonView::Text(hash.hex@)).with(
                    "provider"@,
                    JsonView::Text(provider.id@),
                ),
            ),
        ),
        DropEvent::FetchFailed { hash, error } => Some(
            (
                "fetch.failed"@,
                base.with("hash"@, JsonView::Text(hash.hex@)).with(
                    "error"@,
                    JsonView::Text(error@),
                ),
            ),
        ),
        DropEvent::ProviderAvailable { hash, peer } => Some(
            (
                "provider.available"@,
                base.with("hash"@, JsonView::Text(hash.hex@)).with(
                    "peer"@,
                    JsonView::Text(peer.id@),
                ),
            ),
        ),
        DropEvent::ProviderUnavailable { hash, peer } => Some(
            (
                "provider.unavailable"@,
                base.with("hash"@, JsonView::Text(hash.hex@)).with(
                    "peer"@,
                    JsonView::Text(peer.id@),
                ),
            ),
        ),
        DropEvent::ProtocolWarning { source, warning, kind } => Some(
            (
                "protocol.warning"@,
                base.with(
                    "from"@,
                    match source {
                        Some(peer) => JsonView::Text(peer.id@),
                        None => JsonView::Null,
                    },
                ).with("warning"@, JsonView::Text(warning@)),
            ),
        ),
        DropEvent::Other { .. } => None,
    }
}

/// Whether a progress report is the last one.
pub open spec fn is_final(downloaded: u64, total: Option<u64>) -> bool {
    match total {
        Some(total) => downloaded >= total,
        None => false,
    }
}

/// Whether progress for a blob is due at `now`: it has not been reported within the
/// interval before.
pub open spec fn progress_is_due(seen: Map<Seq<char>, u64>, hash: Seq<char>, now: u64) -> bool {
    !seen.contains_key(hash) || now - seen[hash] >= PROGRESS_INTERVAL
}

/// What the daemon remembers about progress after a session event.
pub open spec fn progress_after(seen: Map<Seq<char>, u64>, event: DropEvent, now: u64) -> Map<
    Seq<char>,
    u64,
> {
    match event {
        DropEvent::FetchProgress { hash, downloaded, total } => if !is_final(downloaded, total)
            && progress_is_due(seen, hash.hex@, now) {
            seen.insert(hash.hex@, now)
        } else {
            seen
        },
        DropEvent::FetchCompleted { hash, provider } => seen.remove(hash.hex@),
        _ => seen,
    }
}

/// Whether a session event is reported at all.
pub open spec fn reported(seen: Map<Seq<char>, u64>, event: DropEvent, now: u64) -> bool {
    match event {
        DropEvent::FetchProgress { hash, downloaded, total } => is_final(downloaded, total)
            || progress_is_due(seen, hash.hex@, now),
        _ => true,
    }
}

/// The number in a handle.
pub open spec fn handle_number(handle: Seq<char>) -> Option<nat> {
    if handle.len() > 0 && handle[0] == 'd' {
        parsed(handle.skip(1), u64::MAX as nat)
    } else {
        None
    }
}

fn number_of_handle(handle: &str) -> (r: Option<u64>)
    ensures
        match r {
            Some(n) => handle_number(handle@) == Some(n as nat),
            None => handle_number(handle@) is None,
        },
{
    let len: usize = handle.unicode_len();
    if len > 0 && handle.get_char(0) == 'd' {
        let digits = handle.substring_char(1, len);
        assert(digits@ =~= handle@.skip(1));
        parse_unsigned(digits, u64::MAX)
    } else {
        None
    }
}

impl Service {
    /// Whether everything but the tasks and the event log is as before.
    pub open spec fn same_but_tasks(self, before: Service) -> bool {
        self == (Service {
            tasks: self.tasks,
            next_task: self.next_task,
            bus: self.bus,
            ..before
        })
    }

    /// Whether this is the state after a task was started.
    pub open spec fn started(
        self,
        before: Service,
        task: Seq<char>,
        kind: Seq<char>,
        drop: Seq<char>,
        hash: Option<Seq<char>>,
    ) -> bool {
        &&& self.same_but_tasks(before)
        &&& task == "t"@ + decimal(before.next_task as nat)
        &&& self.next_task == next_count(before.next_task)
        &&& self.tasks@ == before.tasks@.insert(task, self.tasks@[task])
        &&& self.tasks@[task]@ == (TaskView {
            kind,
            drop,
            hash,
            state: TaskState::Running,
            abortable: true,
        })
        &&& self.bus@ == before.bus@.emit("task.state"@, task_started(task, kind, drop))
    }

    /// What the daemon says about itself.
    pub open spec fn status_json(self) -> JsonView {
        object().with("endpoint_id"@, JsonView::Text(self.endpoint_id@)).with(
            "offline"@,
            JsonView::Bool(self.options.offline),
        ).with("mdns"@, JsonView::Bool(self.options.mdns)).with(
            "persistent_store"@,
            JsonView::Bool(self.options.store_path is Some),
        ).with("download_dir"@, JsonView::Text(self.options.download_dir@)).with(
            "drops"@,
            JsonView::Unsigned(self.drops@.dom().len() as u64),
        ).with("seq"@, JsonView::Unsigned(self.bus@.seq))
    }

    /// What the daemon answers to a hello.
    pub open spec fn hello_json(self) -> JsonView {
        object().with("api"@, JsonView::Unsigned(API_VERSION as u64)).with(
            "daemon"@,
            JsonView::Text(self.version@),
        ).with("wire"@, JsonView::Unsigned(self.wire)).with(
            "endpoint_id"@,
            JsonView::Text(self.endpoint_id@),
        ).with("methods"@, text_list(method_names())).with(
            "events_from"@,
            JsonView::Unsigned(self.bus@.seq),
        )
    }

    /// Every task, as the API shows them.
    pub open spec fn tasks_json(self) -> JsonView {
        object().with(
            "tasks"@,
            JsonView::List(
                Seq::new(
                    self.tasks.entries().len(),
                    |i: int|
                        task_json(self.tasks.entries()[i].0@, self.tasks.entries()[i].1@),
                ),
            ),
        )
    }

    /// The drop that a request names, where we host it.
    pub open spec fn known_drop(self, params: JsonView) -> Result<Seq<char>, ApiErrorView> {
        match handle_of(params) {
            Ok(handle) => if self.drops@.contains_key(handle) {
                Ok(handle)
            } else {
                Err(no_drop(handle))
            },
            Err(e) => Err(e),
        }
    }

    /// A service that hosts nothing yet.
    pub fn new(options: ServiceOptions, endpoint_id: String, version: String, wire: u64) -> (r:
        Service)
        ensures
            r.options == options,
            r.endpoint_id == endpoint_id,
            r.version == version,
            r.wire == wire,
            r.drops@ == Map::<Seq<char>, HostedDrop>::empty(),
            r.next_drop == 1,
            r.tasks@ == Map::<Seq<char>, TaskEntry>::empty(),
            r.next_task == 1,
            r.bus@ == (BusView { seq: 1, ring: Seq::empty() }),
            r.asks@ == (AsksView {
                next_id: 1,
                pending: Set::empty(),
                uis: Seq::empty(),
                next_ui: 1,
            }),
            r.progress_seen@ == Map::<Seq<char>, u64>::empty(),
    {
        Service {
            options,
            endpoint_id,
            version,
            wire,
            drops: Table::new(),
            next_drop: 1,
            tasks: Table::new(),
            next_task: 1,
            bus: EventBus::new(),
            asks: AskRouter::new(),
            progress_seen: Table::new(),
        }
    }

    /// This daemon's stable endpoint id.
    pub fn endpoint_id(&self) -> (r: String)
        ensures
            r@ == self.endpoint_id@,
    {
        self.endpoint_id.clone()
    }

    /// Every method this build supports, for capability discovery.
    pub fn methods() -> (r: Vec<String>)
        ensures
            texts(r@) == method_names(),
    {
        let mut out: Vec<String> = Vec::new();
        out.push("hello".to_owned());
        out.push("daemon.status".to_owned());
        out.push("drop.create".to_owned());
        out.push("drop.join".to_owned());
        out.push("drop.list".to_owned());
        out.push("drop.ticket".to_owned());
        out.push("drop.leave".to_owned());
        out.push("offer.list".to_owned());
        out.push("offer.publish".to_owned());
        out.push("offer.fetch".to_owned());
        out.push("task.list".to_owned());
        out.push("task.cancel".to_owned());
        out.push("events.replay".to_owned());
        assert(texts(out@) =~= method_names());
        out
    }

    /// Meets a new connection by its first frame; `hello` is what its parameters say, or
    /// why they say nothing. A connection is not a client until it says hello.
    pub fn greet(&mut self, first: &Option<Frame>, hello: Result<Hello, String>) -> (r: Greeting)
        ensures
            match first {
                Some(Frame::Req { id, m, p }) if m@ == "hello"@ => match hello {
                    Ok(hello) if hello.api == API_VERSION => {
                        &&& r is Welcome
                        &&& r->Welcome_reply@ == (FrameView::Res {
                            id: *id,
                            p: old(self).hello_json(),
                        })
                        &&& r->ui_token == if hello.roles@.contains(Role::Ui) {
                            Some(old(self).asks@.next_ui)
                        } else {
                            None
                        }
                        &&& final(self).asks@ == if hello.roles@.contains(Role::Ui) {
                            AsksView {
                                uis: old(self).asks@.uis.push(old(self).asks@.next_ui),
                                next_ui: next_count(old(self).asks@.next_ui),
                                ..old(self).asks@
                            }
                        } else {
                            old(self).asks@
                        }
                        &&& *final(self) == (Service { asks: final(self).asks, ..*old(self) })
                    },
                    Ok(hello) => {
                        &&& r is Refused
                        &&& r->Refused_reply@ == ApiErrorView::of(
                            "api_version"@,
                            "daemon speaks api "@ + decimal(API_VERSION as nat)
                                + ", client speaks "@ + decimal(hello.api as nat),
                        ).reply(*id)
                        &&& *final(self) == *old(self)
                    },
                    Err(why) => {
                        &&& r is Refused
                        &&& r->Refused_reply@ == ApiErrorView::of("bad_params"@, why@).reply(*id)
                        &&& *final(self) == *old(self)
                    },
                },
                _ => r is Ignored && *final(self) == *old(self),
            },
    {
        match first {
            Some(Frame::Req { id, m, p }) => {
                if !same(m.as_str(), "hello") {
                    return Greeting::Ignored;
                }
                match hello {
                    Ok(hello) => {
                        if hello.api != API_VERSION {
                            let e = ApiError::new(
                                "api_version",
                                "daemon speaks api ".to_owned().concat(
                                    number(API_VERSION as u64).as_str(),
                                ).concat(", client speaks ").concat(
                                    number(hello.api as u64).as_str(),
                                ).as_str(),
                            );
                            return Greeting::Refused { reply: e.reply(*id) };
                        }
                        let answer = Json::object().with(
                            "api",
                            Json::Unsigned(API_VERSION as u64),
                        ).with("daemon", Json::text(self.version.as_str())).with(
                            "wire",
                            Json::Unsigned(self.wire),
                        ).with("endpoint_id", Json::text(self.endpoint_id.as_str())).with(
                            "methods",
                            Json::text_list(&Self::methods()),
                        ).with("events_from", Json::Unsigned(self.bus.current()));
                        let ui_token = if hello.has_role(Role::Ui) {
                            Some(self.asks.register_ui())
                        } else {
                            None
                        };
                        Greeting::Welcome { reply: Frame::Res { id: *id, p: answer }, ui_token }
                    },
                    Err(why) => Greeting::Refused {
                        reply: ApiError::new("bad_params", why.as_str()).reply(*id),
                    },
                }
            },
            _ => Greeting::Ignored,
        }
    }

    /// Sorts a frame from a client: a call, an answer to a question of ours, or nothing
    /// that we take from clients.
    pub fn on_frame(&mut self, frame: Frame) -> (r: FrameStep)
        ensures
            match frame {
                Frame::Req { id, m, p } => r == (FrameStep::Call { id, m, p }) && *final(self)
                    == *old(self),
                Frame::Res { id, p } => {
                    &&& r == (FrameStep::Answer {
                        id,
                        result: Ok(p),
                        waiting: old(self).asks@.pending.contains(id),
                    })
                    &&& *final(self) == (Service { asks: final(self).asks, ..*old(self) })
                    &&& final(self).asks@ == (AsksView {
                        pending: old(self).asks@.pending.remove(id),
                        ..old(self).asks@
                    })
                },
                Frame::Failure { id, code, msg } => {
                    &&& r == (FrameStep::Answer {
                        id,
                        result: Err(ApiError { code, msg }),
                        waiting: old(self).asks@.pending.contains(id),
                    })
                    &&& *final(self) == (Service { asks: final(self).asks, ..*old(self) })
                    &&& final(self).asks@ == (AsksView {
                        pending: old(self).asks@.pending.remove(id),
                        ..old(self).asks@
                    })
                },
                _ => r is Ignore && *final(self) == *old(self),
            },
    {
        match frame {
            Frame::Req { id, m, p } => FrameStep::Call { id, m, p },
            Frame::Res { id, p } => {
                let waiting = self.asks.answer(id);
                FrameStep::Answer { id, result: Ok(p), waiting }
            },
            Frame::Failure { id, code, msg } => {
                let waiting = self.asks.answer(id);
                FrameStep::Answer { id, result: Err(ApiError { code, msg }), waiting }
            },
            _ => FrameStep::Ignore,
        }
    }

    /// Takes leave of a connection: by its token, not by guessing from the state of its
    /// channel.
    pub fn detach(&mut self, ui_token: Option<u64>, closed: &HashSet<u64>)
        ensures
            *final(self) == (Service { asks: final(self).asks, ..*old(self) }),
            final(self).asks@ == (AsksView {
                uis: staying(
                    match ui_token {
                        Some(token) => staying(old(self).asks@.uis, set![token]),
                        None => old(self).asks@.uis,
                    },
                    closed@,
                ),
                ..old(self).asks@
            }),
    {
        if let Some(token) = ui_token {
            self.asks.unregister_ui(token);
        }
        self.asks.forget_closed(closed);
    }

    fn daemon_status(&self) -> (r: Json)
        ensures
            r@ == self.status_json(),
    {
        Json::object().with("endpoint_id", Json::text(self.endpoint_id.as_str())).with(
            "offline",
            Json::Bool(self.options.offline),
        ).with("mdns", Json::Bool(self.options.mdns)).with(
            "persistent_store",
            Json::Bool(self.options.store_path.is_some()),
        ).with("download_dir", Json::text(self.options.download_dir.as_str())).with(
            "drops",
            Json::Unsigned(self.drops.len() as u64),
        ).with("seq", Json::Unsigned(self.bus.current()))
    }

    fn find_drop(&self, params: &Json) -> (r: Result<String, ApiError>)
        ensures
            match r {
                Ok(handle) => self.known_drop(params@) == Ok::<Seq<char>, ApiErrorView>(handle@),
                Err(e) => self.known_drop(params@) == Err::<Seq<char>, ApiErrorView>(e@),
            },
    {
        match params.text_at("drop") {
            Some(handle) => if self.drops.contains(handle) {
                Ok(handle.to_owned())
            } else {
                Err(drop_not_found(handle))
            },
            None => Err(missing_param("drop")),
        }
    }

    /// Starts a task: gives it an id and says so.
    fn spawn_task(&mut self, kind: &str, drop: &str, hash: Option<String>) -> (r: String)
        ensures
            final(self).started(*old(self), r@, kind@, drop@, opt_text(hash)),
    {
        let id = "t".to_owned().concat(number(self.next_task).as_str());
        self.next_task = count_on(self.next_task);
        let entry = TaskEntry {
            kind: kind.to_owned(),
            drop: drop.to_owned(),
            hash,
            state: TaskState::Running,
            abortable: true,
        };
        self.tasks.insert(id.as_str(), entry);
        let p = Json::object().with("task", Json::text(id.as_str())).with(
            "kind",
            Json::text(kind),
        ).with("drop", Json::text(drop)).with("state", Json::text("running"));
        let _ = self.bus.emit("task.state", p);
        id
    }

    fn task_list(&self) -> (r: Json)
        ensures
            r@ == self.tasks_json(),
    {
        let count: usize = self.tasks.len();
        let mut out: Vec<Json> = Vec::new();
        let mut i: usize = 0;
        while i < count
            invariant
                i <= count == self.tasks.entries().len(),
                out@.len() == i,
                forall|k: int|
                    0 <= k < i ==> (#[trigger] out@[k])@ == task_json(
                        self.tasks.entries()[k].0@,
                        self.tasks.entries()[k].1@,
                    ),
            decreases count - i,
        {
            let row = self.tasks.row(i);
            let shown = Json::object().with("task", Json::text(row.0.as_str())).with(
                "kind",
                Json::text(row.1.kind.as_str()),
            ).with("drop", Json::text(row.1.drop.as_str())).with(
                "hash",
                Json::text_or_null(&row.1.hash),
            ).with("state", Json::text(row.1.state.text()));
            out.push(shown);
            i += 1;
        }
        assert(json_views(out@) =~= Seq::new(
            self.tasks.entries().len(),
            |i: int| task_json(self.tasks.entries()[i].0@, self.tasks.entries()[i].1@),
        ));
        Json::object().with("tasks", Json::list(out))
    }

    /// Sets the state of a task that there is; it can then no longer be aborted.
    fn set_task_state(&mut self, id: &str, state: TaskState)
        ensures
            *final(self) == (Service { tasks: final(self).tasks, ..*old(self) }),
            if old(self).tasks@.contains_key(id@) {
                &&& final(self).tasks@ == old(self).tasks@.insert(id@, final(self).tasks@[id@])
                &&& final(self).tasks@[id@]@ == (TaskView {
                    state,
                    abortable: false,
                    ..old(self).tasks@[id@]@
                })
            } else {
                final(self).tasks@ == old(self).tasks@
            },
    {
        let ghost before = self.tasks@;
        match self.tasks.remove(id) {
            Some(entry) => {
                let entry = TaskEntry {
                    kind: entry.kind,
                    drop: entry.drop,
                    hash: entry.hash,
                    state,
                    abortable: false,
                };
                self.tasks.insert(id, entry);
                assert(self.tasks@ =~= before.insert(id@, self.tasks@[id@]));
            },
            None => {
                assert(self.tasks@ =~= before);
            },
        }
    }

    fn task_cancel(&mut self, params: &Json) -> (r: Result<Action, ApiError>)
        ensures
            match required(params@, "task"@) {
                Err(e) => r is Err && r->Err_0@ == e && *final(self) == *old(self),
                Ok(id) => if !old(self).tasks@.contains_key(id) {
                    &&& r is Err
                    &&& r->Err_0@ == ApiErrorView::of("not_found"@, "no task "@ + id)
                    &&& *final(self) == *old(self)
                } else {
                    &&& r matches Ok(Action::Cancel { task, abort })
                    &&& task@ == id
                    &&& abort == old(self).tasks@[id].abortable
                    &&& final(self).same_but_tasks(*old(self))
                    &&& final(self).next_task == old(self).next_task
                    &&& final(self).tasks@ == old(self).tasks@.insert(id, final(self).tasks@[id])
                    &&& final(self).tasks@[id]@ == (TaskView {
                        state: TaskState::Cancelled,
                        abortable: false,
                        ..old(self).tasks@[id]@
                    })
                    &&& final(self).bus@ == old(self).bus@.emit(
                        "task.state"@,
                        object().with("task"@, JsonView::Text(id)).with(
                            "state"@,
                            JsonView::Text("cancelled"@),
                        ),
                    )
                },
            },
    {
        let id = match require(params, "task") {
            Ok(id) => id,
            Err(e) => {
                return Err(e);
            },
        };
        let abort = match self.tasks.get(id.as_str()) {
            Some(entry) => entry.abortable,
            None => {
                return Err(
                    ApiError::new("not_found", "no task ".to_owned().concat(id.as_str()).as_str()),
                );
            },
        };
        self.set_task_state(id.as_str(), TaskState::Cancelled);
        let p = Json::object().with("task", Json::text(id.as_str())).with(
            "state",
            Json::text("cancelled"),
        );
        let _ = self.bus.emit("task.state", p);
        Ok(Action::Cancel { task: id, abort })
    }

    /// The reply to `events.replay`.
    pub open spec fn replay_json(self, from: u64) -> JsonView {
        let events = events_from(self.bus@.ring, first_wanted(from));
        object().with(
            "events"@,
            JsonView::List(Seq::new(events.len(), |i: int| events[i].json())),
        ).with(
            "truncated"@,
            JsonView::Bool(
                self.bus@.ring.len() > 0 && self.bus@.ring[0].seq > first_wanted(from),
            ),
        )
    }

    fn events_replay(&self, params: &Json) -> (r: Json)
        ensures
            r@ == self.replay_json(
                match params@.number_at("from"@) {
                    Some(from) => from,
                    None => 0,
                },
            ),
    {
        let from: u64 = match params.number_at("from") {
            Some(from) => from,
            None => 0,
        };
        let (events, truncated) = self.bus.replay(from);
        let mut out: Vec<Json> = Vec::new();
        let mut i: usize = 0;
        while i < events.len()
            invariant
                i <= events@.len(),
                out@.len() == i,
                forall|k: int| 0 <= k < i ==> (#[trigger] out@[k])@ == events@[k]@.json(),
            decreases events@.len() - i,
        {
            out.push(events[i].to_json());
            i += 1;
        }
        let ghost shown = envelope_views(events@);
        assert(json_views(out@) =~= Seq::new(shown.len(), |i: int| shown[i].json()));
        Json::object().with("events", Json::list(out)).with("truncated", Json::Bool(truncated))
    }

    /// Begins one method. Unknown names get a clean `unsupported`, never a dropped
    /// connection.
    pub fn dispatch(&mut self, method: &str, params: &Json) -> (r: Result<Action, ApiError>)
        ensures
            old(self).dispatched(*final(self), method@, params@, r),
    {
        if same(method, "hello") {
            return Err(ApiError::new("already_hello", "hello was already sent"));
        }
        if same(method, "daemon.status") {
            return Ok(Action::Reply(self.daemon_status()));
        }
        if same(method, "drop.create") {
            return Ok(Action::Create { name: params.own_text_at("name") });
        }
        if same(method, "drop.join") {
            return match require(params, "ticket") {
                Ok(ticket) => Ok(Action::Join { ticket }),
                Err(e) => Err(e),
            };
        }
        if same(method, "drop.list") {
            return Ok(Action::ListDrops);
        }
        if same(method, "drop.ticket") {
            return match self.find_drop(params) {
                Ok(drop) => {
                    let full = match params.flag_at("full") {
                        Some(full) => full,
                        None => false,
                    };
                    Ok(Action::Ticket { drop, full })
                },
                Err(e) => Err(e),
            };
        }
        if same(method, "drop.leave") {
            return match self.find_drop(params) {
                Ok(drop) => {
                    let _ = self.drops.remove(drop.as_str());
                    Ok(Action::Leave { drop })
                },
                Err(e) => Err(e),
            };
        }
        if same(method, "offer.list") {
            return match self.find_drop(params) {
                Ok(drop) => Ok(Action::ListOffers { drop }),
                Err(e) => Err(e),
            };
        }
        if same(method, "offer.publish") {
            return self.offer_publish(params);
        }
        if same(method, "offer.fetch") {
            return self.offer_fetch(params);
        }
        if same(method, "task.list") {
            return Ok(Action::Reply(self.task_list()));
        }
        if same(method, "task.cancel") {
            return self.task_cancel(params);
        }
        if same(method, "events.replay") {
            return Ok(Action::Reply(self.events_replay(params)));
        }
        Err(ApiError::new("unsupported", "no method ".to_owned().concat(method).as_str()))
    }

    fn offer_publish(&mut self, params: &Json) -> (r: Result<Action, ApiError>)
        ensures
            old(self).publish_dispatched(*final(self), params@, r),
    {
        let drop = match self.find_drop(params) {
            Ok(drop) => drop,
            Err(e) => {
                return Err(e);
            },
        };
        let path = match require(params, "path") {
            Ok(path) => path,
            Err(e) => {
                return Err(e);
            },
        };
        let name = params.own_text_at("name");
        let task = self.spawn_task("publish", drop.as_str(), None);
        Ok(Action::Publish { task, drop, path, name })
    }

    fn offer_fetch(&self, params: &Json) -> (r: Result<Action, ApiError>)
        ensures
            self.fetch_dispatched(params@, r),
    {
        let drop = match self.find_drop(params) {
            Ok(drop) => drop,
            Err(e) => {
                return Err(e);
            },
        };
        let pick = match require(params, "pick") {
            Ok(pick) => pick,
            Err(e) => {
                return Err(e);
            },
        };
        let out = match params.text_at("out") {
            Some(out) => out.to_owned(),
            None => self.options.download_dir.clone(),
        };
        Ok(Action::Fetch { drop, pick, out })
    }

    /// What `offer.publish` does.
    pub open spec fn publish_dispatched(
        self,
        after: Service,
        params: JsonView,
        r: Result<Action, ApiError>,
    ) -> bool {
        match self.known_drop(params) {
            Err(e) => r is Err && r->Err_0@ == e && after == self,
            Ok(handle) => match required(params, "path"@) {
                Err(e) => r is Err && r->Err_0@ == e && after == self,
                Ok(given) => {
                    &&& r matches Ok(Action::Publish { task, drop, path, name })
                    &&& drop@ == handle
                    &&& path@ == given
                    &&& opt_text(name) == params.text_at("name"@)
                    &&& after.started(self, task@, "publish"@, handle, None)
                },
            },
        }
    }

    /// What `offer.fetch` does first.
    pub open spec fn fetch_dispatched(self, params: JsonView, r: Result<Action, ApiError>) -> bool {
        match self.known_drop(params) {
            Err(e) => r is Err && r->Err_0@ == e,
            Ok(handle) => match required(params, "pick"@) {
                Err(e) => r is Err && r->Err_0@ == e,
                Ok(given) => {
                    &&& r matches Ok(Action::Fetch { drop, pick, out })
                    &&& drop@ == handle
                    &&& pick@ == given
                    &&& out@ == match params.text_at("out"@) {
                        Some(dir) => dir,
                        None => self.options.download_dir@,
                    }
                },
            },
        }
    }

    /// What a method does: the state after it, and what it comes to.
    pub open spec fn dispatched(
        self,
        after: Service,
        method: Seq<char>,
        params: JsonView,
        r: Result<Action, ApiError>,
    ) -> bool {
        if method == "hello"@ {
            &&& r is Err
            &&& r->Err_0@ == ApiErrorView::of("already_hello"@, "hello was already sent"@)
            &&& after == self
        } else if method == "daemon.status"@ {
            &&& r matches Ok(Action::Reply(p))
            &&& p@ == self.status_json()
            &&& after == self
        } else if method == "drop.create"@ {
            &&& r matches Ok(Action::Create { name })
            &&& opt_text(name) == params.text_at("name"@)
            &&& after == self
        } else if method == "drop.join"@ {
            &&& after == self
            &&& match required(params, "ticket"@) {
                Ok(given) => r matches Ok(Action::Join { ticket }) && ticket@ == given,
                Err(e) => r is Err && r->Err_0@ == e,
            }
        } else if method == "drop.list"@ {
            r == Ok::<Action, ApiError>(Action::ListDrops) && after == self
        } else if method == "drop.ticket"@ {
            &&& after == self
            &&& match self.known_drop(params) {
                Ok(handle) => {
                    &&& r matches Ok(Action::Ticket { drop, full })
                    &&& drop@ == handle
                    &&& full == (params.flag_at("full"@) == Some(true))
                },
                Err(e) => r is Err && r->Err_0@ == e,
            }
        } else if method == "drop.leave"@ {
            match self.known_drop(params) {
                Ok(handle) => {
                    &&& r matches Ok(Action::Leave { drop })
                    &&& drop@ == handle
                    &&& after == (Service { drops: after.drops, ..self })
                    &&& after.drops@ == self.drops@.remove(handle)
                },
                Err(e) => r is Err && r->Err_0@ == e && after == self,
            }
        } else if method == "offer.list"@ {
            &&& after == self
            &&& match self.known_drop(params) {
                Ok(handle) => r matches Ok(Action::ListOffers { drop }) && drop@ == handle,
                Err(e) => r is Err && r->Err_0@ == e,
            }
        } else if method == "offer.publish"@ {
            self.publish_dispatched(after, params, r)
        } else if method == "offer.fetch"@ {
            self.fetch_dispatched(params, r) && after == self
        } else if method == "task.list"@ {
            &&& r matches Ok(Action::Reply(p))
            &&& p@ == self.tasks_json()
            &&& after == self
        } else if method == "task.cancel"@ {
            match required(params, "task"@) {
                Err(e) => r is Err && r->Err_0@ == e && after == self,
                Ok(id) => if !self.tasks@.contains_key(id) {
                    &&& r is Err
                    &&& r->Err_0@ == ApiErrorView::of("not_found"@, "no task "@ + id)
                    &&& after == self
                } else {
                    &&& r matches Ok(Action::Cancel { task, abort })
                    &&& task@ == id
                    &&& abort == self.tasks@[id].abortable
                    &&& after.same_but_tasks(self)
                    &&& after.next_task == self.next_task
                    &&& after.tasks@ == self.tasks@.insert(id, after.tasks@[id])
                    &&& after.tasks@[id]@ == (TaskView {
                        state: TaskState::Cancelled,
                        abortable: false,
                        ..self.tasks@[id]@
                    })
                    &&& after.bus@ == self.bus@.emit(
                        "task.state"@,
                        object().with("task"@, JsonView::Text(id)).with(
                            "state"@,
                            JsonView::Text("cancelled"@),
                        ),
                    )
                },
            }
        } else if method == "events.replay"@ {
            &&& r matches Ok(Action::Reply(p))
            &&& p@ == self.replay_json(
                match params.number_at("from"@) {
                    Some(from) => from,
                    None => 0,
                },
            )
            &&& after == self
        } else {
            &&& r is Err
            &&& r->Err_0@ == ApiErrorView::of("unsupported"@, "no method "@ + method)
            &&& after == self
        }
    }
}

impl Service {
    /// Whether this is the state after a drop was taken up.
    pub open spec fn registered(
        self,
        before: Service,
        handle: Seq<char>,
        hosted: HostedView,
        topic: Seq<char>,
    ) -> bool {
        &&& self == (Service {
            drops: self.drops,
            next_drop: self.next_drop,
            bus: self.bus,
            ..before
        })
        &&& handle == "d"@ + decimal(before.next_drop as nat)
        &&& self.next_drop == next_count(before.next_drop)
        &&& self.drops@ == before.drops@.insert(handle, self.drops@[handle])
        &&& self.drops@[handle]@ == hosted
        &&& self.bus@ == before.bus@.emit(
            "drop.joined"@,
            object().with("drop"@, JsonView::Text(handle)).with("topic"@, JsonView::Text(topic)),
        )
    }

    /// Takes up a session: gives it a short handle and says so.
    pub fn register(&mut self, hosted: HostedDrop, topic: &str) -> (r: String)
        ensures
            final(self).registered(*old(self), r@, hosted@, topic@),
    {
        let handle = "d".to_owned().concat(number(self.next_drop).as_str());
        self.next_drop = count_on(self.next_drop);
        self.drops.insert(handle.as_str(), hosted);
        let p = Json::object().with("drop", Json::text(handle.as_str())).with(
            "topic",
            Json::text(topic),
        );
        let _ = self.bus.emit("drop.joined", p);
        handle
    }

    /// The reply to `drop.create`, once the drop exists; `ticket` is its short ticket.
    pub fn created(&mut self, name: Option<String>, topic: &str, ticket: &str) -> (r: Json)
        ensures
            ({
                let handle = "d"@ + decimal(old(self).next_drop as nat);
                &&& final(self).registered(
                    *old(self),
                    handle,
                    (HostedView { name: opt_text(name), mine: true }),
                    topic@,
                )
                &&& r@ == object().with("drop"@, JsonView::Text(handle)).with(
                    "topic"@,
                    JsonView::Text(topic@),
                ).with("ticket"@, JsonView::Text(ticket@))
            }),
    {
        let handle = self.register(HostedDrop { name, mine: true }, topic);
        Json::object().with("drop", Json::text(handle.as_str())).with(
            "topic",
            Json::text(topic),
        ).with("ticket", Json::text(ticket))
    }

    /// The reply to `drop.join`, once the drop is joined.
    pub fn joined(&mut self, topic: &str) -> (r: Json)
        ensures
            ({
                let handle = "d"@ + decimal(old(self).next_drop as nat);
                &&& final(self).registered(
                    *old(self),
                    handle,
                    (HostedView { name: None, mine: false }),
                    topic@,
                )
                &&& r@ == object().with("drop"@, JsonView::Text(handle)).with(
                    "topic"@,
                    JsonView::Text(topic@),
                )
            }),
    {
        let handle = self.register(HostedDrop { name: None, mine: false }, topic);
        Json::object().with("drop", Json::text(handle.as_str())).with("topic", Json::text(topic))
    }

    /// What is kept of a hosted drop, so that it survives a restart; `ticket` is its full
    /// ticket.
    pub fn persisted(&self, handle: &str, ticket: &str) -> (r: Option<PersistedDrop>)
        ensures
            match r {
                Some(row) => self.keeps(handle@, ticket@, row),
                None => !self.drops@.contains_key(handle@),
            },
    {
        match self.drops.get(handle) {
            Some(hosted) => Some(
                PersistedDrop {
                    handle: handle.to_owned(),
                    name: copy_text(&hosted.name),
                    mine: hosted.mine,
                    ticket: ticket.to_owned(),
                },
            ),
            None => None,
        }
    }

    /// Whether `row` is what is kept of a hosted drop.
    pub open spec fn keeps(self, handle: Seq<char>, ticket: Seq<char>, row: PersistedDrop) -> bool {
        &&& self.drops@.contains_key(handle)
        &&& row.handle@ == handle
        &&& (HostedView { name: opt_text(row.name), mine: row.mine }) == self.drops@[handle]@
        &&& row.ticket@ == ticket
    }

    /// Whether this is the state after a drop that was hosted before a restart was taken up
    /// again.
    pub open spec fn restored(self, before: Service, row: PersistedDrop, topic: Seq<char>) -> bool {
        &&& self == (Service {
            drops: self.drops,
            next_drop: self.next_drop,
            bus: self.bus,
            ..before
        })
        &&& self.drops@ == before.drops@.insert(row.handle@, self.drops@[row.handle@])
        &&& self.drops@[row.handle@]@ == (HostedView {
            name: opt_text(row.name),
            mine: row.mine,
        })
        &&& self.next_drop == match handle_number(row.handle@) {
            Some(n) => if n >= before.next_drop {
                next_count(n as u64)
            } else {
                before.next_drop
            },
            None => before.next_drop,
        }
        &&& self.bus@ == before.bus@.emit(
            "drop.joined"@,
            object().with("drop"@, JsonView::Text(row.handle@)).with(
                "topic"@,
                JsonView::Text(topic),
            ),
        )
    }

    /// Takes up a drop again that was hosted before a restart, under the handle it had, so
    /// that scripts and UIs do not see drops rename themselves. New drops get handles behind
    /// it.
    pub fn restore(&mut self, row: PersistedDrop, topic: &str)
        ensures
            final(self).restored(*old(self), row, topic@),
    {
        if let Some(n) = number_of_handle(row.handle.as_str()) {
            if n >= self.next_drop {
                self.next_drop = count_on(n);
            }
        }
        let p = Json::object().with("drop", Json::text(row.handle.as_str())).with(
            "topic",
            Json::text(topic),
        );
        self.drops.insert(row.handle.as_str(), HostedDrop { name: row.name, mine: row.mine });
        let _ = self.bus.emit("drop.joined", p);
    }

    /// The error for a ticket that cannot be read.
    pub fn bad_ticket(why: &str) -> (r: ApiError)
        ensures
            r@ == ApiErrorView::of("bad_params"@, "bad ticket: "@ + why@),
    {
        ApiError::new("bad_params", "bad ticket: ".to_owned().concat(why).as_str())
    }

    /// The handles of the hosted drops, in order.
    pub fn handles(&self) -> (r: Vec<String>)
        ensures
            r@.len() == self.drops.entries().len(),
            forall|i: int|
                0 <= i < r@.len() ==> (#[trigger] r@[i])@ == self.drops.entries()[i].0@,
            forall|i: int| 0 <= i < r@.len() ==> self.drops@.contains_key((#[trigger] r@[i])@),
    {
        let count: usize = self.drops.len();
        let mut out: Vec<String> = Vec::new();
        let mut i: usize = 0;
        while i < count
            invariant
                i <= count == self.drops.entries().len(),
                out@.len() == i,
                forall|k: int|
                    0 <= k < i ==> (#[trigger] out@[k])@ == self.drops.entries()[k].0@,
                forall|k: int| 0 <= k < i ==> self.drops@.contains_key((#[trigger] out@[k])@),
            decreases count - i,
        {
            let row = self.drops.row(i);
            out.push(row.0.clone());
            i += 1;
        }
        out
    }

    /// The hosted drops, as the API shows them: in the order of their handles.
    pub open spec fn drops_json(self, facts: Seq<DropFacts>) -> JsonView {
        object().with(
            "drops"@,
            JsonView::List(
                Seq::new(
                    arranged(facts).len(),
                    |i: int|
                        drop_json(arranged(facts)[i], self.drops@[arranged(facts)[i].drop@]@),
                ),
            ),
        )
    }

    /// The reply to `drop.list`, from what the sessions say: drops in the order of their
    /// handles.
    pub fn drop_list(&self, facts: Vec<DropFacts>) -> (r: Json)
        requires
            forall|i: int|
                0 <= i < facts@.len() ==> self.drops@.contains_key((#[trigger] facts@[i]).drop@),
        ensures
            r@ == self.drops_json(facts@),
    {
        let ghost given = facts@;
        let sorted = arrange(facts);
        let mut out: Vec<Json> = Vec::new();
        let mut i: usize = 0;
        proof {
            lemma_arranged_members(given);
        }
        while i < sorted.len()
            invariant
                i <= sorted@.len(),
                forall|k: int|
                    0 <= k < sorted@.len() ==> self.drops@.contains_key(
                        (#[trigger] sorted@[k]).drop@,
                    ),
                out@.len() == i,
                forall|k: int|
                    0 <= k < i ==> (#[trigger] out@[k])@ == drop_json(
                        sorted@[k],
                        self.drops@[sorted@[k].drop@]@,
                    ),
            decreases sorted@.len() - i,
        {
            let f = &sorted[i];
            let (name, mine) = match self.drops.get(f.drop.as_str()) {
                Some(hosted) => (Json::text_or_null(&hosted.name), hosted.mine),
                None => (Json::Null, false),
            };
            let shown = Json::object().with("drop", Json::text(f.drop.as_str())).with(
                "name",
                name,
            ).with("topic", Json::text(f.topic.as_str())).with(
                "peers",
                Json::Unsigned(f.peers as u64),
            ).with("offers", Json::Unsigned(f.offers as u64)).with(
                "files",
                Json::Unsigned(f.files),
            ).with("bytes", Json::Unsigned(f.bytes)).with(
                "human_size",
                Json::text(human_bytes(f.bytes).as_str()),
            ).with("mine", Json::Bool(mine));
            out.push(shown);
            i += 1;
        }
        assert(json_views(out@) =~= Seq::new(
            arranged(given).len(),
            |i: int|
                drop_json(arranged(given)[i], self.drops@[arranged(given)[i].drop@]@),
        ));
        Json::object().with("drops", Json::list(out))
    }

    /// The reply to `drop.ticket`: `link` is what a UI shows and a person sends, `ticket`
    /// the underlying capability, for tooling that needs it. `web_link` is there where a base
    /// for such links is configured.
    pub fn drop_ticket(&self, ticket: &str) -> (r: Json)
        ensures
            ({
                let linked = object().with("link"@, JsonView::Text(app_link_text(ticket@)));
                let shown = match self.options.link_base {
                    Some(base) => linked.with(
                        "web_link"@,
                        JsonView::Text(web_link_text(base@, ticket@)),
                    ),
                    None => linked,
                };
                r@ == shown.with("ticket"@, JsonView::Text(ticket@))
            }),
    {
        let linked = Json::object().with("link", Json::text(app_link(ticket).as_str()));
        let shown = match &self.options.link_base {
            Some(base) => {
                linked.with("web_link", Json::text(web_link(base.as_str(), ticket).as_str()))
            },
            None => linked,
        };
        shown.with("ticket", Json::text(ticket))
    }

    /// The reply to `drop.leave`, once the session is shut down.
    pub fn left(&mut self, drop: &str) -> (r: Json)
        ensures
            r@ == object(),
            *final(self) == (Service { bus: final(self).bus, ..*old(self) }),
            final(self).bus@ == old(self).bus@.emit(
                "drop.left"@,
                object().with("drop"@, JsonView::Text(drop@)),
            ),
    {
        let p = Json::object().with("drop", Json::text(drop));
        let _ = self.bus.emit("drop.left", p);
        Json::object()
    }

    /// Starts the task of a fetch and returns its id.
    pub fn start_fetch(&mut self, drop: &str, hash: &BlobHash) -> (r: String)
        ensures
            final(self).started(*old(self), r@, "fetch"@, drop@, Some(hash.hex@)),
    {
        self.spawn_task("fetch", drop, Some(hash.to_hex()))
    }

    /// Begins to fetch what a client picked from the offers of a drop: the task and what it
    /// fetches. `resolved` is what the drop itself makes of the words. A pick that fits
    /// nothing, or more than one thing, starts no task.
    pub fn fetch_picked(
        &mut self,
        drop: &str,
        records: &Vec<OfferRecord>,
        pick: &str,
        resolved: Option<BlobHash>,
    ) -> (r: Result<(String, BlobHash), ApiError>)
        ensures
            exists|items: Seq<InventoryItem>| #[trigger]
                listing_of(items, records@) && match picked(items, pick@, opt_hash(resolved)) {
                    Ok(found) => {
                        &&& r matches Ok((task, hash))
                        &&& hash@ == found
                        &&& final(self).started(
                            *old(self),
                            task@,
                            "fetch"@,
                            drop@,
                            Some(hash.hex@),
                        )
                    },
                    Err(e) => {
                        &&& r is Err
                        &&& r->Err_0@ == ApiErrorView::of("not_found"@, e.message())
                        &&& *final(self) == *old(self)
                    },
                },
    {
        match resolve_pick(records, pick, resolved) {
            Ok(hash) => {
                let task = self.start_fetch(drop, &hash);
                Ok((task, hash))
            },
            Err(e) => Err(ApiError::new("not_found", e.message().as_str())),
        }
    }

    /// Whether this is the state after a task ended, where `report` is what it had to say.
    pub open spec fn ended(
        self,
        before: Service,
        task: Seq<char>,
        report: Option<(Seq<char>, JsonView)>,
        error: Option<Seq<char>>,
    ) -> bool {
        let state = if error is None {
            TaskState::Done
        } else {
            TaskState::Failed
        };
        let told = match report {
            Some((e, p)) => before.bus@.emit(e, p),
            None => before.bus@,
        };
        &&& self.same_but_tasks(before)
        &&& self.next_task == before.next_task
        &&& self.bus@ == told.emit("task.state"@, task_ended(task, state.spelling(), error))
        &&& if before.tasks@.contains_key(task) {
            &&& self.tasks@ == before.tasks@.insert(task, self.tasks@[task])
            &&& self.tasks@[task]@ == (TaskView {
                state,
                abortable: false,
                ..before.tasks@[task]@
            })
        } else {
            self.tasks@ == before.tasks@
        }
    }

    fn finish_task(&mut self, task: &str, error: Option<String>)
        ensures
            final(self).ended(*old(self), task@, None, opt_text(error)),
    {
        let state = if error.is_none() {
            TaskState::Done
        } else {
            TaskState::Failed
        };
        self.set_task_state(task, state);
        let p = Json::object().with("task", Json::text(task)).with(
            "state",
            Json::text(state.text()),
        ).with("error", Json::text_or_null(&error));
        let _ = self.bus.emit("task.state", p);
    }

    /// What a publish has to say when it succeeded.
    pub open spec fn publish_report(task: Seq<char>, published: Published) -> JsonView {
        object().with("task"@, JsonView::Text(task)).with(
            "hash"@,
            JsonView::Text(published.blob.hash.hex@),
        ).with("name"@, JsonView::Text(published.blob.name@)).with(
            "size"@,
            JsonView::Unsigned(published.total_size),
        ).with("human_size"@, JsonView::Text(human_size(published.total_size as nat))).with(
            "members"@,
            JsonView::Unsigned(published.members as u64),
        ).with("is_collection"@, JsonView::Bool(published.is_collection))
    }

    /// Takes note of how a publish ended.
    pub fn publish_done(&mut self, task: &str, outcome: Result<Published, String>)
        ensures
            match outcome {
                Ok(published) => final(self).ended(
                    *old(self),
                    task@,
                    Some(("publish.completed"@, Self::publish_report(task@, published))),
                    None,
                ),
                Err(why) => final(self).ended(*old(self), task@, None, Some(why@)),
            },
    {
        match outcome {
            Ok(published) => {
                let p = Json::object().with("task", Json::text(task)).with(
                    "hash",
                    Json::text(published.blob.hash.hex.as_str()),
                ).with("name", Json::text(published.blob.name.as_str())).with(
                    "size",
                    Json::Unsigned(published.total_size),
                ).with(
                    "human_size",
                    Json::text(human_bytes(published.total_size).as_str()),
                ).with("members", Json::Unsigned(published.members as u64)).with(
                    "is_collection",
                    Json::Bool(published.is_collection),
                );
                let _ = self.bus.emit("publish.completed", p);
                self.finish_task(task, None);
            },
            Err(why) => self.finish_task(task, Some(why)),
        }
    }

    /// What a fetch has to say when it succeeded.
    pub open spec fn fetch_report(task: Seq<char>, hash: Seq<char>, paths: Seq<Seq<char>>) -> JsonView {
        object().with("task"@, JsonView::Text(task)).with("hash"@, JsonView::Text(hash)).with(
            "paths"@,
            text_list(paths),
        )
    }

    /// Takes note of how a fetch ended: the paths it wrote, or why it failed.
    pub fn fetch_done(&mut self, task: &str, hash: &BlobHash, outcome: Result<Vec<String>, String>)
        ensures
            match outcome {
                Ok(paths) => final(self).ended(
                    *old(self),
                    task@,
                    Some(
                        (
                            "fetch.materialized"@,
                            Self::fetch_report(task@, hash.hex@, texts(paths@)),
                        ),
                    ),
                    None,
                ),
                Err(why) => final(self).ended(*old(self), task@, None, Some(why@)),
            },
    {
        match outcome {
            Ok(paths) => {
                let p = Json::object().with("task", Json::text(task)).with(
                    "hash",
                    Json::text(hash.hex.as_str()),
                ).with("paths", Json::text_list(&paths));
                let _ = self.bus.emit("fetch.materialized", p);
                self.finish_task(task, None);
            },
            Err(why) => self.finish_task(task, Some(why)),
        }
    }

    /// Whether enough time has passed to report progress for this blob again; if so, it
    /// counts as reported at `now`.
    pub fn progress_due(&mut self, hash: &str, now: u64) -> (r: bool)
        ensures
            r == progress_is_due(old(self).progress_seen@, hash@, now),
            *final(self) == (Service { progress_seen: final(self).progress_seen, ..*old(self) }),
            final(self).progress_seen@ == if r {
                old(self).progress_seen@.insert(hash@, now)
            } else {
                old(self).progress_seen@
            },
    {
        if let Some(last) = self.progress_seen.get(hash) {
            let last: u64 = *last;
            if now < last || now - last < PROGRESS_INTERVAL {
                return false;
            }
        }
        self.progress_seen.insert(hash, now);
        true
    }

    /// Turns one session event into an API event. An offer that did not come from ourselves
    /// comes back, for the consent flow.
    pub fn on_session_event(
        &mut self,
        handle: &str,
        self_id: &PeerId,
        event: DropEvent,
        now: u64,
    ) -> (r: Option<(PeerId, Offer)>)
        ensures
            *final(self) == (Service {
                bus: final(self).bus,
                progress_seen: final(self).progress_seen,
                ..*old(self)
            }),
            final(self).bus@ == match api_event(
                handle@,
                event,
                reported(old(self).progress_seen@, event, now),
            ) {
                Some((e, p)) => old(self).bus@.emit(e, p),
                None => old(self).bus@,
            },
            final(self).progress_seen@ == progress_after(old(self).progress_seen@, event, now),
            match event {
                DropEvent::OfferReceived { from, offer } => r == if from.id@ != self_id.id@ {
                    Some((from, offer))
                } else {
                    None
                },
                _ => r is None,
            },
    {
        let base = Json::object().with("drop", Json::text(handle));
        match event {
            DropEvent::PeerJoined { peer } => {
                let p = base.with("peer", Json::text(peer.id.as_str()));
                let _ = self.bus.emit("peer.joined", p);
                None
            },
            DropEvent::PeerLeft { peer } => {
                let p = base.with("peer", Json::text(peer.id.as_str()));
                let _ = self.bus.emit("peer.left", p);
                None
            },
            DropEvent::OfferReceived { from, offer } => {
                let p = base.with("from", Json::text(from.id.as_str())).with(
                    "hash",
                    Json::text(offer.blob_hash.hex.as_str()),
                ).with("name", Json::text(offer.name.as_str())).with(
                    "size",
                    Json::Unsigned(offer.size),
                ).with("human_size", Json::text(human_bytes(offer.size).as_str())).with(
                    "media_type",
                    Json::text_or_null(&offer.media_type),
                );
                let _ = self.bus.emit("offer.received", p);
                if from.is(self_id) {
                    None
                } else {
                    Some((from, offer))
                }
            },
            DropEvent::OfferRejected { from, reason } => {
                let p = base.with("from", Json::text(from.id.as_str())).with(
                    "reason",
                    Json::text(reason.as_str()),
                );
                let _ = self.bus.emit("offer.rejected", p);
                None
            },
            DropEvent::FetchStarted { hash, provider } => {
                let p = base.with("hash", Json::text(hash.hex.as_str())).with(
                    "provider",
                    Json::text(provider.id.as_str()),
                );
                let _ = self.bus.emit("fetch.started", p);
                None
            },
            DropEvent::FetchProgress { hash, downloaded, total } => {
                let last = match total {
                    Some(total) => downloaded >= total,
                    None => false,
                };
                // Always let the last one through, so a UI never sticks at 97%.
                if last || self.progress_due(hash.hex.as_str(), now) {
                    let p = base.with("hash", Json::text(hash.hex.as_str())).with(
                        "downloaded",
                        Json::Unsigned(downloaded),
                    ).with("total", Json::number_or_null(total));
                    let _ = self.bus.emit("fetch.progress", p);
                }
                None
            },
            DropEvent::FetchCompleted { hash, provider } => {
                let _ = self.progress_seen.remove(hash.hex.as_str());
                let p = base.with("hash", Json::text(hash.hex.as_str())).with(
                    "provider",
                    Json::text(provider.id.as_str()),
                );
                let _ = self.bus.emit("fetch.completed", p);
                None
            },
            DropEvent::FetchFailed { hash, error } => {
                let p = base.with("hash", Json::text(hash.hex.as_str())).with(
                    "error",
                    Json::text(error.as_str()),
                );
                let _ = self.bus.emit("fetch.failed", p);
                None
            },
            DropEvent::ProviderAvailable { hash, peer } => {
                let p = base.with("hash", Json::text(hash.hex.as_str())).with(
                    "peer",
                    Json::text(peer.id.as_str()),
                );
                let _ = self.bus.emit("provider.available", p);
                None
            },
            DropEvent::ProviderUnavailable { hash, peer } => {
                let p = base.with("hash", Json::text(hash.hex.as_str())).with(
                    "peer",
                    Json::text(peer.id.as_str()),
                );
                let _ = self.bus.emit("provider.unavailable", p);
                None
            },
            DropEvent::ProtocolWarning { source, warning, kind } => {
                let from = match source {
                    Some(peer) => Json::Text(peer.id),
                    None => Json::Null,
                };
                let p = base.with("from", from).with("warning", Json::text(warning.as_str()));
                let _ = self.bus.emit("protocol.warning", p);
                None
            },
            DropEvent::Other { shown } => None,
        }
    }

    /// Seeks consent for an offer. Being set to accept counts only when there is no live UI:
    /// a person looking at a card is a better judge than a flag.
    pub fn seek_consent(
        &mut self,
        handle: &str,
        from: &PeerId,
        offer: &Offer,
        closed: &HashSet<u64>,
    ) -> (r: ConsentStep)
        ensures
            *final(self) == (Service { asks: final(self).asks, ..*old(self) }),
            match (old(self).asks@.target(closed@), old(self).options.auto_accept) {
                (Some(ui), _) => {
                    &&& r matches ConsentStep::Ask { token, frame }
                    &&& token == ui
                    &&& frame@ == (FrameView::Ask {
                        id: old(self).asks@.next_id,
                        q: "offer.accept"@,
                        p: question(handle@, from.id@, *offer),
                    })
                    &&& final(self).asks@ == (AsksView {
                        next_id: next_count(old(self).asks@.next_id),
                        pending: old(self).asks@.pending.insert(old(self).asks@.next_id),
                        uis: staying(old(self).asks@.uis, closed@),
                        next_ui: old(self).asks@.next_ui,
                    })
                },
                (None, true) => {
                    &&& r matches ConsentStep::Settled(Some(answer))
                    &&& answer@ == object().with("accept"@, JsonView::Bool(true))
                    &&& *final(self) == *old(self)
                },
                (None, false) => {
                    &&& r == ConsentStep::Settled(None)
                    &&& final(self).asks@ == (AsksView {
                        next_id: next_count(old(self).asks@.next_id),
                        uis: staying(old(self).asks@.uis, closed@),
                        ..old(self).asks@
                    })
                },
            },
    {
        if self.options.auto_accept && !self.asks.has_live_ui(closed) {
            return ConsentStep::Settled(Some(Json::object().with("accept", Json::Bool(true))));
        }
        let members = find_meta(&offer.metadata, META_MEMBERS);
        let p = Json::object().with("drop", Json::text(handle)).with(
            "from",
            Json::text(from.id.as_str()),
        ).with("name", Json::text(offer.name.as_str())).with(
            "size",
            Json::Unsigned(offer.size),
        ).with("human_size", Json::text(human_bytes(offer.size).as_str())).with(
            "media_type",
            Json::text_or_null(&offer.media_type),
        ).with("members", Json::text_or_null(&members)).with("known", Json::Bool(false)).with(
            "hash",
            Json::text(offer.blob_hash.hex.as_str()),
        ).with("expires_in_ms", Json::Unsigned(CONSENT_TIMEOUT));
        match self.asks.ask("offer.accept", p, closed) {
            Some((token, frame)) => ConsentStep::Ask { token, frame },
            None => ConsentStep::Settled(None),
        }
    }

    /// Concludes the consent flow for an offer: only an explicit yes turns into a fetch.
    pub fn conclude_consent(&mut self, handle: &str, hash: &BlobHash, answer: Option<Json>) -> (r:
        Option<FetchOrder>)
        ensures
            r is Some <==> consents(answer_view(answer)),
            match r {
                None => {
                    &&& *final(self) == (Service { bus: final(self).bus, ..*old(self) })
                    &&& final(self).bus@ == old(self).bus@.emit(
                        "offer.declined"@,
                        declined(
                            handle@,
                            hash.hex@,
                            if answer is None {
                                "no consent"@
                            } else {
                                "declined"@
                            },
                        ),
                    )
                },
                Some(order) => {
                    &&& final(self).started(
                        *old(self),
                        order.task@,
                        "fetch"@,
                        handle@,
                        Some(hash.hex@),
                    )
                    &&& order.out@ == match answer->0@.text_at("out"@) {
                        Some(out) => out,
                        None => old(self).options.download_dir@,
                    }
                },
            },
    {
        let (reason, answer) = match answer {
            None => ("no consent", None),
            Some(answer) => {
                let yes = match answer.flag_at("accept") {
                    Some(yes) => yes,
                    None => false,
                };
                if yes {
                    ("", Some(answer))
                } else {
                    ("declined", None)
                }
            },
        };
        match answer {
            None => {
                let p = Json::object().with("drop", Json::text(handle)).with(
                    "hash",
                    Json::text(hash.hex.as_str()),
                ).with("reason", Json::text(reason));
                let _ = self.bus.emit("offer.declined", p);
                None
            },
            Some(answer) => {
                let out = match answer.text_at("out") {
                    Some(out) => out.to_owned(),
                    None => self.options.download_dir.clone(),
                };
                let task = self.start_fetch(handle, hash);
                Some(FetchOrder { task, out })
            },
        }
    }

    /// Takes every drop out of the table, for shutting them down; what is left hosts
    /// nothing.
    pub fn drain(&mut self) -> (r: Vec<String>)
        ensures
            *final(self) == (Service { drops: final(self).drops, ..*old(self) }),
            final(self).drops@ == Map::<Seq<char>, HostedDrop>::empty(),
            r@.len() == old(self).drops.entries().len(),
            forall|i: int|
                0 <= i < r@.len() ==> (#[trigger] r@[i])@ == old(self).drops.entries()[i].0@,
    {
        let handles = self.handles();
        self.drops = Table::new();
        handles
    }

    /// Says that the daemon is stopping.
    pub fn stopping(&mut self)
        ensures
            *final(self) == (Service { bus: final(self).bus, ..*old(self) }),
            final(self).bus@ == old(self).bus@.emit("daemon.stopping"@, object()),
    {
        let _ = self.bus.emit("daemon.stopping", Json::object());
    }
}

proof fn lemma_arranged_members<T: Ranked>(s: Seq<T>)
    ensures
        forall|k: int| 0 <= k < arranged(s).len() ==> s.contains(#[trigger] arranged(s)[k]),
        arranged(s).len() == s.len(),
{
    broadcast use vstd::seq_lib::group_to_multiset_ensures;

    crate::order::arranged_keeps_elements(s);
    assert forall|k: int| 0 <= k < arranged(s).len() implies s.contains(
        #[trigger] arranged(s)[k],
    ) by {
        assert(arranged(s).contains(arranged(s)[k]));
        assert(arranged(s).to_multiset().count(arranged(s)[k]) > 0);
    }
}

/// A method that is not listed is refused as unsupported, changes nothing, and a listed one
/// never is.
pub proof fn only_listed_methods_are_supported(
    before: Service,
    after: Service,
    method: Seq<char>,
    params: JsonView,
    r: Result<Action, ApiError>,
)
    requires
        before.dispatched(after, method, params, r),
    ensures
        !method_names().contains(method) ==> {
            &&& r is Err
            &&& r->Err_0@ == ApiErrorView::of("unsupported"@, "no method "@ + method)
            &&& after == before
        },
        method_names().contains(method) ==> (r is Err ==> r->Err_0@.code != "unsupported"@),
{
    let m = method_names();
    assert(m[0] == "hello"@ && m[1] == "daemon.status"@ && m[2] == "drop.create"@);
    assert(m[3] == "drop.join"@ && m[4] == "drop.list"@ && m[5] == "drop.ticket"@);
    assert(m[6] == "drop.leave"@ && m[7] == "offer.list"@ && m[8] == "offer.publish"@);
    assert(m[9] == "offer.fetch"@ && m[10] == "task.list"@ && m[11] == "task.cancel"@);
    assert(m[12] == "events.replay"@);
    reveal_strlit("unsupported");
    reveal_strlit("already_hello");
    reveal_strlit("bad_params");
    reveal_strlit("not_found");
    assert("unsupported"@.len() != "already_hello"@.len());
    assert("unsupported"@.len() != "bad_params"@.len());
    assert("unsupported"@.len() != "not_found"@.len());
}

/// Silence is never consent, and neither is an error: there is consent only where somebody
/// answered, and said yes in so many words.
pub proof fn silence_is_never_consent(outcome: crate::asks::AskOutcome)
    ensures
        consents(crate::asks::given_answer(outcome)) <==> (outcome is Answered
            && outcome->Answered_0@.flag_at("accept"@) == Some(true)),
{
}

/// A fetch whose last bytes arrive is always reported, however recently progress was
/// reported before.
pub proof fn final_progress_is_reported(
    seen: Map<Seq<char>, u64>,
    d: Seq<char>,
    hash: BlobHash,
    downloaded: u64,
    total: u64,
    now: u64,
)
    requires
        downloaded >= total,
    ensures
        ({
            let event = DropEvent::FetchProgress { hash, downloaded, total: Some(total) };
            &&& reported(seen, event, now)
            &&& api_event(d, event, reported(seen, event, now)) is Some
        }),
{
}

/// Progress that is reported is not reported again within the interval, unless it is the
/// last.
pub proof fn progress_keeps_its_distance(
    seen: Map<Seq<char>, u64>,
    first: DropEvent,
    second: DropEvent,
    now: u64,
    later: u64,
)
    requires
        first is FetchProgress,
        second is FetchProgress,
        first->FetchProgress_hash.hex@ == second->FetchProgress_hash.hex@,
        !is_final(first->downloaded, first->total),
        !is_final(second->downloaded, second->total),
        reported(seen, first, now),
        now <= later < now + PROGRESS_INTERVAL,
    ensures
        !reported(progress_after(seen, first, now), second, later),
{
}

proof fn lemma_decimal_differs(a: nat, b: nat)
    requires
        decimal(a) == decimal(b),
    ensures
        a == b,
{
    let max = if a < b {
        b
    } else {
        a
    };
    crate::text::decimal_reads_back(a, max);
    crate::text::decimal_reads_back(b, max);
}

/// Handles are short, and no two drops ever share one: what a handle is made of is counted
/// on with every drop.
pub proof fn handles_are_distinct(a: nat, b: nat)
    requires
        a != b,
    ensures
        "d"@ + decimal(a) != "d"@ + decimal(b),
        "t"@ + decimal(a) != "t"@ + decimal(b),
{
    reveal_strlit("d");
    reveal_strlit("t");
    let x = decimal(a);
    let y = decimal(b);
    if "d"@ + x == "d"@ + y {
        assert(("d"@ + x).skip(1) =~= x);
        assert(("d"@ + y).skip(1) =~= y);
        lemma_decimal_differs(a, b);
    }
    if "t"@ + x == "t"@ + y {
        assert(("t"@ + x).skip(1) =~= x);
        assert(("t"@ + y).skip(1) =~= y);
        lemma_decimal_differs(a, b);
    }
}

/// A drop survives a restart: what was kept of it and is taken up again is hosted under the
/// same handle and the same name, and is still ours if we created it and not if we joined it,
/// whatever else the new service hosts.
pub proof fn drops_survive_a_restart(
    before: Service,
    fresh: Service,
    after: Service,
    handle: Seq<char>,
    ticket: Seq<char>,
    row: PersistedDrop,
    topic: Seq<char>,
)
    requires
        before.keeps(handle, ticket, row),
        after.restored(fresh, row, topic),
    ensures
        after.drops@.contains_key(handle),
        after.drops@[handle]@ == before.drops@[handle]@,
        forall|other: Seq<char>|
            other != handle && fresh.drops@.contains_key(other)
                ==> #[trigger] after.drops@.contains_key(other) && after.drops@[other]
                == fresh.drops@[other],
{
}

/// A handle that was taken up again is not given to a new drop.
pub proof fn restored_handles_are_not_given_again(
    fresh: Service,
    after: Service,
    n: nat,
    row: PersistedDrop,
    topic: Seq<char>,
)
    requires
        n < u64::MAX,
        row.handle@ == "d"@ + decimal(n),
        after.restored(fresh, row, topic),
    ensures
        after.next_drop > n,
        "d"@ + decimal(after.next_drop as nat) != row.handle@,
{
    reveal_strlit("d");
    assert(row.handle@.skip(1) =~= decimal(n));
    crate::text::decimal_reads_back(n, u64::MAX as nat);
    handles_are_distinct(n, after.next_drop as nat);
}

} // verus!

//! `iroh-drop`: hand files to people with one string, and keep them alive together.
//!
//! `share` publishes and keeps serving, `receive` fetches and exits; `open` and `new` are the
//! same session with a prompt, where files are picked by number or name. Hashes are a detail
//! the user never has to type.

use crate::collections::{MemberProgress, Published};
use crate::config::{Config, DropPolicy, Environment, StackOptions};
use crate::error::{SdkError, SdkErrorView};
use crate::ids::{BlobHash, PeerId};
use crate::inventory::{
    listing_of, opt_hash, picked, resolve_pick, InventoryItem, OfferRecord,
};
use crate::nearby::{shown_as, NearbyDrop};
use crate::path::{below, join_path, parent_text};
use crate::rooms::{ListedRoom, Rooms};
use crate::size::{human_bytes, human_size};
use crate::text::{
    add_line, copy_text, decimal, left_aligned, no_lines, number, one_line, opt_text, pad_left,
    pad_right, right_aligned, same, split_words, texts, trim, trimmed, words,
};
use crate::ticket::{
    app_link_text, pasted_app_link_gives_ticket_back, ticket_from_text, ticket_in,
    well_formed_ticket, Prefixes,
};
use vstd::prelude::*;

verus! {

/// How long `receive` waits for a drop's contents to appear, in seconds.
pub const RECEIVE_WAIT: u64 = 60;

/// How long the prompt waits for a drop's contents to appear, in seconds.
pub const OPEN_WAIT: u64 = 10;

/// How long `receive --nearby` listens for advertisements, in seconds.
pub const NEARBY_WINDOW: u64 = 3;

/// How long to sleep between two looks at a drop, in milliseconds.
pub const LOOK_PAUSE: u64 = 250;

/// How many saved files are named.
pub const NAMED_FILES: usize = 20;

/// Said of something that cannot be read as a ticket.
pub const NOT_A_LINK: &'static str = "that does not look like an iroh-drop link";

/// How to share from the prompt.
pub const ADD_USAGE: &'static str = "usage: add <path> [as <name>]";

/// How to fetch from the prompt.
pub const GET_USAGE: &'static str = "usage: get <#|name|all> [to <path>]";

/// What the prompt understands.
pub const HELP: &'static str = "commands
  ls                       list what is in this drop, numbered
  get <#|name|all> [to <path>]
                           fetch an item (folders come out as folders)
  add <path> [as <name>]    share a file or folder
  who                      who is connected
  ticket                   print the ticket for new joiners
  quit                     leave the drop";

/// What every command that opens a session accepts.
#[derive(Debug)]
pub struct CommonArgs {
    /// Where to save received files.
    pub dir: Option<String>,
    /// Blob store directory (defaults to the configured store).
    pub store: Option<String>,
    /// Identity file, so peers recognize you across restarts.
    pub identity: Option<String>,
    /// Forget everything on exit: fresh identity, memory-only store.
    pub ephemeral: bool,
    /// Direct connections only: no relays, no public address lookup.
    pub offline: bool,
    /// Find peers on the local network (implied by being offline).
    pub mdns: bool,
    /// Print the full ticket with socket addresses instead of the short one.
    pub full_ticket: bool,
    /// Fetch everything offered, automatically.
    pub auto: bool,
    /// Display name embedded in the ticket (untrusted metadata).
    pub name: Option<String>,
    /// Show hashes and protocol chatter.
    pub verbose: bool,
}

/// How to create a drop.
#[derive(Debug)]
pub struct CreateOptions {
    /// Display name embedded in the ticket.
    pub display_name: Option<String>,
    /// Whether joiners are advised to fetch automatically.
    pub auto_fetch_recommended: bool,
    /// Whether the ticket carries a key and every frame is sealed.
    pub private: bool,
}

/// Resolved runtime settings for one command.
#[derive(Debug)]
pub struct Ctx {
    /// Whether tickets we hand out can name peers by id alone.
    pub short_tickets: bool,
    /// Where received files go.
    pub out_dir: String,
    /// The blob store; none means memory.
    pub store: Option<String>,
    /// The network, for people.
    pub mode: String,
    /// Whether to show protocol chatter.
    pub verbose: bool,
    /// Whether we joined someone else's drop (so there may be contents to catch up on)
    /// rather than starting our own.
    pub joined: bool,
}

/// How a session is brought up.
#[derive(Debug)]
pub struct Startup {
    /// The directories that must exist first, besides the one for received files.
    pub dirs: Vec<String>,
    /// How to bring up the endpoint.
    pub options: StackOptions,
    /// What to fetch without being asked.
    pub policy: DropPolicy,
    /// Whether to wait until our address is published: a short ticket names us by id, and
    /// printing it earlier hands out a string that fails for the first few seconds.
    pub wait_online: bool,
    /// How to create the drop, unless one is joined.
    pub create: Option<CreateOptions>,
    /// The settings for the rest of the command.
    pub ctx: Ctx,
}

/// A text, or another where it is missing.
pub open spec fn text_or(s: Option<Seq<char>>, other: Option<Seq<char>>) -> Option<Seq<char>> {
    match s {
        Some(s) => Some(s),
        None => other,
    }
}

fn either(s: &Option<String>, other: Option<String>) -> (r: Option<String>)
    ensures
        opt_text(r) == text_or(opt_text(*s), opt_text(other)),
{
    match s {
        Some(s) => Some(s.clone()),
        None => other,
    }
}

/// Works out how to bring up a session. `limits` says what a policy is where neither the
/// arguments nor the config speak of it.
///
/// Without relays there is no lookup either, so discovery on the local network is the only
/// way to reach a peer by id: it is turned on there.
pub fn start(
    args: &CommonArgs,
    config: &Config,
    limits: DropPolicy,
    joining: bool,
    private: bool,
) -> (r: Startup)
    ensures
        texts(r.dirs@) == if args.ephemeral {
            Seq::empty()
        } else {
            match parent_text(config.identity_path@) {
                Some(dir) => seq![config.store_path@, config.download_dir@, dir],
                None => seq![config.store_path@, config.download_dir@],
            }
        },
        opt_text(r.options.store_path) == text_or(
            opt_text(args.store),
            if args.ephemeral {
                None
            } else {
                Some(config.store_path@)
            },
        ),
        opt_text(r.options.identity_path) == text_or(
            opt_text(args.identity),
            if args.ephemeral {
                None
            } else {
                Some(config.identity_path@)
            },
        ),
        r.options.offline == args.offline,
        r.options.mdns == (args.mdns || args.offline),
        r.options.secret_key is None,
        r.options.relay_url is None,
        r.policy.auto_fetch == args.auto,
        r.policy.max_blob_size == config.max_auto_blob_size,
        r.policy.max_total_auto_fetch_bytes == config.max_auto_total_bytes,
        r.policy.output_directory@ == r.ctx.out_dir@,
        r.wait_online == !args.offline,
        match r.create {
            Some(create) => {
                &&& !joining
                &&& opt_text(create.display_name) == opt_text(args.name)
                &&& create.auto_fetch_recommended == args.auto
                &&& create.private == private
            },
            None => joining,
        },
        r.ctx.joined == joining,
        r.ctx.short_tickets == !args.full_ticket,
        Some(r.ctx.out_dir@) == text_or(opt_text(args.dir), Some(config.download_dir@)),
        opt_text(r.ctx.store) == opt_text(r.options.store_path),
        r.ctx.mode@ == if args.offline {
            "direct only (no relays)"@
        } else {
            "relays + public lookup"@
        },
        r.ctx.verbose == args.verbose,
{
    let mdns = args.mdns || args.offline;
    let (dirs, plain) = if args.ephemeral {
        (no_lines(), Config::ephemeral_stack_options(args.offline, mdns))
    } else {
        (config.prepare_dirs(), config.stack_options(args.offline, mdns))
    };
    let options = StackOptions {
        store_path: either(&args.store, plain.store_path),
        offline: plain.offline,
        identity_path: either(&args.identity, plain.identity_path),
        secret_key: plain.secret_key,
        relay_url: plain.relay_url,
        mdns: plain.mdns,
    };
    let out_dir = match &args.dir {
        Some(dir) => dir.clone(),
        None => config.download_dir.clone(),
    };
    let usual = config.policy(limits);
    let policy = DropPolicy {
        auto_fetch: args.auto,
        max_blob_size: usual.max_blob_size,
        max_total_auto_fetch_bytes: usual.max_total_auto_fetch_bytes,
        output_directory: out_dir.clone(),
    };
    let create = if joining {
        None
    } else {
        Some(
            CreateOptions {
                display_name: copy_text(&args.name),
                auto_fetch_recommended: args.auto,
                private,
            },
        )
    };
    let ctx = Ctx {
        joined: joining,
        // A short ticket needs the joiner to be able to resolve an id: online by lookup,
        // offline by local discovery.
        short_tickets: !args.full_ticket && (!args.offline || mdns),
        out_dir,
        store: copy_text(&options.store_path),
        mode: if args.offline {
            "direct only (no relays)".to_owned()
        } else {
            "relays + public lookup".to_owned()
        },
        verbose: args.verbose,
    };
    Startup { dirs, wait_online: !options.offline, options, policy, create, ctx }
}

/// The options of a throwaway endpoint that only listens for local advertisements.
pub fn browse_options(args: &CommonArgs) -> (r: StackOptions)
    ensures
        r == (StackOptions {
            store_path: None,
            offline: args.offline,
            identity_path: None,
            secret_key: None,
            relay_url: None,
            mdns: true,
        }),
{
    Config::ephemeral_stack_options(args.offline, true)
}

/// Which drop to join.
#[derive(Debug)]
pub enum Source {
    /// The one of a ticket, as it was typed.
    Ticket(String),
    /// A saved room.
    Room(String),
    /// One advertised on the local network, by number.
    Nearby(usize),
}

/// Works out which drop to join: an explicit ticket, a saved room, or one advertised on the
/// local network.
pub fn resolve_source(ticket: Option<String>, room: Option<String>, nearby: Option<usize>) -> (r:
    Result<Source, String>)
    ensures
        match ticket {
            Some(ticket) => r == Ok::<Source, String>(Source::Ticket(ticket)),
            None => match room {
                Some(room) => r == Ok::<Source, String>(Source::Room(room)),
                None => match nearby {
                    Some(index) => r == Ok::<Source, String>(Source::Nearby(index)),
                    None => r is Err && r->Err_0@
                        == "give a ticket, --room <name>, or --nearby <#>"@,
                },
            },
        },
{
    match ticket {
        Some(ticket) => Ok(Source::Ticket(ticket)),
        None => match room {
            Some(room) => Ok(Source::Room(room)),
            None => match nearby {
                Some(index) => Ok(Source::Nearby(index)),
                None => Err("give a ticket, --room <name>, or --nearby <#>".to_owned()),
            },
        },
    }
}

/// Works out whose ticket to show as a code.
pub fn qr_source(ticket: Option<String>, room: Option<String>) -> (r: Result<Source, String>)
    ensures
        match ticket {
            Some(ticket) => r == Ok::<Source, String>(Source::Ticket(ticket)),
            None => match room {
                Some(room) => r == Ok::<Source, String>(Source::Room(room)),
                None => r is Err && r->Err_0@ == "give a ticket, @file, or --room <name>"@,
            },
        },
{
    match ticket {
        Some(ticket) => Ok(Source::Ticket(ticket)),
        None => match room {
            Some(room) => Ok(Source::Room(room)),
            None => Err("give a ticket, @file, or --room <name>".to_owned()),
        },
    }
}

/// The ticket of the drop with this number.
pub fn pick_nearby(drops: &Vec<NearbyDrop>, index: usize) -> (r: Result<String, String>)
    ensures
        match r {
            Ok(ticket) => exists|i: int|
                {
                    &&& 0 <= i < drops@.len()
                    &&& (#[trigger] drops@[i]).index == index
                    &&& drops@[i].ticket@ == ticket@
                    &&& forall|k: int| 0 <= k < i ==> (#[trigger] drops@[k]).index != index
                },
            Err(why) => {
                &&& forall|i: int| 0 <= i < drops@.len() ==> (#[trigger] drops@[i]).index != index
                &&& why@ == "no drop "@ + decimal(index as nat)
                    + " nearby; try `iroh-drop nearby`"@
            },
        },
{
    let mut i: usize = 0;
    while i < drops.len()
        invariant
            i <= drops@.len(),
            forall|k: int| 0 <= k < i ==> (#[trigger] drops@[k]).index != index,
        decreases drops@.len() - i,
    {
        if drops[i].index == index {
            return Ok(drops[i].ticket.clone());
        }
        i += 1;
    }
    Err(
        "no drop ".to_owned().concat(number(index as u64).as_str()).concat(
            " nearby; try `iroh-drop nearby`",
        ),
    )
}

/// The file that a ticket is to be read from, where the argument names one with `@`.
pub fn ticket_file(arg: &str) -> (r: Option<String>)
    ensures
        match r {
            Some(path) => arg@.len() > 0 && arg@[0] == '@' && path@ == arg@.skip(1),
            None => arg@.len() == 0 || arg@[0] != '@',
        },
{
    let len: usize = arg.unicode_len();
    if len > 0 && arg.get_char(0) == '@' {
        let rest = arg.substring_char(1, len);
        assert(rest@ =~= arg@.skip(1));
        Some(rest.to_owned())
    } else {
        None
    }
}

/// What is said of a ticket file that cannot be read.
pub fn unread_ticket(path: &str) -> (r: String)
    ensures
        r@ == "reading ticket file "@ + path@,
{
    "reading ticket file ".to_owned().concat(path)
}

/// What is read as a ticket: the one found in the text, or all of it.
pub open spec fn ticket_read(text: Seq<char>) -> Seq<char> {
    match ticket_in(trimmed(text), Prefixes::Any) {
        Some(ticket) => ticket,
        None => trimmed(text),
    }
}

/// What to read as a ticket. A link is accepted as readily as a bare ticket, because a link
/// is what people are actually given.
pub fn read_ticket(text: &str) -> (r: String)
    ensures
        r@ == ticket_read(text@),
{
    let text = trim(text);
    match ticket_from_text(text) {
        Some(ticket) => ticket.to_owned(),
        None => text.to_owned(),
    }
}

/// A line typed at the prompt, if there is anything to do about it: neither an empty line
/// nor a comment.
pub open spec fn to_run(line: Seq<char>) -> Option<Seq<char>> {
    let said = trimmed(line);
    if said.len() == 0 || said[0] == '#' {
        None
    } else {
        Some(said)
    }
}

/// A line typed at the prompt, if there is anything to do about it.
pub fn typed(line: &str) -> (r: Option<&str>)
    ensures
        match r {
            Some(said) => to_run(line@) == Some(said@),
            None => to_run(line@) is None,
        },
{
    let said = trim(line);
    if said.unicode_len() == 0 || said.get_char(0) == '#' {
        None
    } else {
        Some(said)
    }
}

/// What a person wants at the prompt.
#[derive(Debug)]
pub enum PromptCommand {
    /// Nothing.
    Nothing,
    /// To share something.
    Add {
        /// Where it is.
        path: String,
        /// What to call it.
        name: Option<String>,
    },
    /// To fetch something.
    Get {
        /// A number, a name, or `all`.
        what: String,
        /// Where to put it.
        out: Option<String>,
    },
    /// To see what there is.
    List,
    /// To see who is there.
    Who,
    /// To see the ticket.
    Ticket,
    /// To be told what can be said.
    Help,
    /// To leave.
    Quit,
    /// Something else.
    Unknown {
        /// What was said.
        said: String,
    },
}

/// The model of a [`PromptCommand`].
pub enum PromptView {
    /// Nothing.
    Nothing,
    /// To share something.
    Add {
        /// Where it is.
        path: Seq<char>,
        /// What to call it.
        name: Option<Seq<char>>,
    },
    /// To fetch something.
    Get {
        /// A number, a name, or `all`.
        what: Seq<char>,
        /// Where to put it.
        out: Option<Seq<char>>,
    },
    /// To see what there is.
    List,
    /// To see who is there.
    Who,
    /// To see the ticket.
    Ticket,
    /// To be told what can be said.
    Help,
    /// To leave.
    Quit,
    /// Something else.
    Unknown {
        /// What was said.
        said: Seq<char>,
    },
}

impl View for PromptCommand {
    type V = PromptView;

    open spec fn view(&self) -> PromptView {
        match self {
            PromptCommand::Nothing => PromptView::Nothing,
            PromptCommand::Add { path, name } => PromptView::Add {
                path: path@,
                name: opt_text(*name),
            },
            PromptCommand::Get { what, out } => PromptView::Get {
                what: what@,
                out: opt_text(*out),
            },
            PromptCommand::List => PromptView::List,
            PromptCommand::Who => PromptView::Who,
            PromptCommand::Ticket => PromptView::Ticket,
            PromptCommand::Help => PromptView::Help,
            PromptCommand::Quit => PromptView::Quit,
            PromptCommand::Unknown { said } => PromptView::Unknown { said: said@ },
        }
    }
}

/// What to share, and under which name.
pub open spec fn add_request(args: Seq<Seq<char>>) -> Result<
    (Seq<char>, Option<Seq<char>>),
    Seq<char>,
> {
    if args.len() == 1 {
        Ok((args[0], None))
    } else if args.len() == 3 && args[1] == "as"@ {
        Ok((args[0], Some(args[2])))
    } else {
        Err(ADD_USAGE@)
    }
}

/// What to fetch, and to where.
pub open spec fn get_request(args: Seq<Seq<char>>) -> Result<
    (Seq<char>, Option<Seq<char>>),
    Seq<char>,
> {
    if args.len() == 1 {
        Ok((args[0], None))
    } else if args.len() == 3 && (args[1] == "to"@ || args[1] == "out"@) {
        Ok((args[0], Some(args[2])))
    } else {
        Err(GET_USAGE@)
    }
}

/// The model of what was asked for.
pub open spec fn request_view(r: Result<(String, Option<String>), String>) -> Result<
    (Seq<char>, Option<Seq<char>>),
    Seq<char>,
> {
    match r {
        Ok((first, second)) => Ok((first@, opt_text(second))),
        Err(why) => Err(why@),
    }
}

/// What to share, and under which name: `<path> [as <name>]`.
pub fn parse_add(args: &Vec<String>) -> (r: Result<(String, Option<String>), String>)
    ensures
        request_view(r) == add_request(texts(args@)),
{
    if args.len() == 1 {
        Ok((args[0].clone(), None))
    } else if args.len() == 3 && same(args[1].as_str(), "as") {
        Ok((args[0].clone(), Some(args[2].clone())))
    } else {
        Err(ADD_USAGE.to_owned())
    }
}

/// What to fetch, and to where: `<#|name|all> [to <path>]`.
pub fn parse_get(args: &Vec<String>) -> (r: Result<(String, Option<String>), String>)
    ensures
        request_view(r) == get_request(texts(args@)),
{
    if args.len() == 1 {
        Ok((args[0].clone(), None))
    } else if args.len() == 3 && (same(args[1].as_str(), "to") || same(args[1].as_str(), "out")) {
        Ok((args[0].clone(), Some(args[2].clone())))
    } else {
        Err(GET_USAGE.to_owned())
    }
}

/// What the words of a line ask for.
pub open spec fn understood(said: Seq<Seq<char>>) -> Result<PromptView, Seq<char>> {
    if said.len() == 0 {
        Ok(PromptView::Nothing)
    } else {
        let cmd = said[0];
        let rest = said.skip(1);
        if cmd == "add"@ || cmd == "share"@ {
            match add_request(rest) {
                Ok((path, name)) => Ok(PromptView::Add { path, name }),
                Err(why) => Err(why),
            }
        } else if cmd == "get"@ {
            match get_request(rest) {
                Ok((what, out)) => Ok(PromptView::Get { what, out }),
                Err(why) => Err(why),
            }
        } else if cmd == "ls"@ || cmd == "list"@ {
            Ok(PromptView::List)
        } else if cmd == "who"@ || cmd == "peers"@ {
            Ok(PromptView::Who)
        } else if cmd == "ticket"@ {
            Ok(PromptView::Ticket)
        } else if cmd == "help"@ {
            Ok(PromptView::Help)
        } else if cmd == "quit"@ || cmd == "exit"@ || cmd == "q"@ {
            Ok(PromptView::Quit)
        } else {
            Ok(PromptView::Unknown { said: cmd })
        }
    }
}

fn rest_of(words: &Vec<String>) -> (r: Vec<String>)
    requires
        words@.len() > 0,
    ensures
        texts(r@) == texts(words@).skip(1),
{
    let mut rest = no_lines();
    let mut i: usize = 1;
    assert(texts(words@).subrange(1, 1) =~= Seq::<Seq<char>>::empty());
    while i < words.len()
        invariant
            1 <= i <= words@.len(),
            texts(rest@) == texts(words@).subrange(1, i as int),
        decreases words@.len() - i,
    {
        add_line(&mut rest, words[i].clone());
        assert(texts(words@).subrange(1, i + 1) =~= texts(words@).subrange(1, i as int).push(
            words@[i as int]@,
        ));
        i += 1;
    }
    assert(texts(words@).subrange(1, i as int) =~= texts(words@).skip(1));
    rest
}

/// What a line asks for.
pub fn command(line: &str) -> (r: Result<PromptCommand, String>)
    ensures
        match r {
            Ok(cmd) => understood(words(line@)) == Ok::<PromptView, Seq<char>>(cmd@),
            Err(why) => understood(words(line@)) == Err::<PromptView, Seq<char>>(why@),
        },
{
    let said = split_words(line);
    assert(texts(said@).len() == said@.len());
    if said.len() == 0 {
        return Ok(PromptCommand::Nothing);
    }
    let cmd = said[0].as_str();
    let rest = rest_of(&said);
    if same(cmd, "add") || same(cmd, "share") {
        match parse_add(&rest) {
            Ok((path, name)) => Ok(PromptCommand::Add { path, name }),
            Err(why) => Err(why),
        }
    } else if same(cmd, "get") {
        match parse_get(&rest) {
            Ok((what, out)) => Ok(PromptCommand::Get { what, out }),
            Err(why) => Err(why),
        }
    } else if same(cmd, "ls") || same(cmd, "list") {
        Ok(PromptCommand::List)
    } else if same(cmd, "who") || same(cmd, "peers") {
        Ok(PromptCommand::Who)
    } else if same(cmd, "ticket") {
        Ok(PromptCommand::Ticket)
    } else if same(cmd, "help") {
        Ok(PromptCommand::Help)
    } else if same(cmd, "quit") || same(cmd, "exit") || same(cmd, "q") {
        Ok(PromptCommand::Quit)
    } else {
        Ok(PromptCommand::Unknown { said: cmd.to_owned() })
    }
}

/// What is said of a command that is none.
pub fn unknown_command(said: &str) -> (r: String)
    ensures
        r@ == "Unknown command `"@ + said@ + "`. Try `help`."@,
{
    "Unknown command `".to_owned().concat(said).concat("`. Try `help`.")
}

/// The models of hashes.
pub open spec fn hash_views(s: Seq<BlobHash>) -> Seq<(Seq<char>, Seq<char>)> {
    Seq::new(s.len(), |i: int| s[i]@)
}

/// The hashes of a listing.
pub open spec fn listed_hashes(items: Seq<InventoryItem>) -> Seq<(Seq<char>, Seq<char>)> {
    Seq::new(items.len(), |i: int| items[i].hash@)
}

/// The blobs that are asked for: everything that is listed, or one that is picked from the
/// offers.
pub fn wanted(
    items: &Vec<InventoryItem>,
    records: &Vec<OfferRecord>,
    what: &str,
    resolved: Option<BlobHash>,
) -> (r: Result<Vec<BlobHash>, SdkError>)
    ensures
        if what@ == "all"@ {
            r is Ok && hash_views(r->Ok_0@) == listed_hashes(items@)
        } else {
            exists|listing: Seq<InventoryItem>| #[trigger]
                listing_of(listing, records@) && match r {
                    Ok(hashes) => hashes@.len() == 1 && picked(listing, what@, opt_hash(resolved))
                        == Ok::<(Seq<char>, Seq<char>), SdkErrorView>(hashes@[0]@),
                    Err(e) => picked(listing, what@, opt_hash(resolved)) == Err::<
                        (Seq<char>, Seq<char>),
                        SdkErrorView,
                    >(e@),
                }
        },
{
    let mut hashes: Vec<BlobHash> = Vec::new();
    if same(what, "all") {
        let mut i: usize = 0;
        while i < items.len()
            invariant
                i <= items@.len(),
                hash_views(hashes@) =~= listed_hashes(items@).take(i as int),
            decreases items@.len() - i,
        {
            hashes.push(items[i].hash.copy());
            assert(hash_views(hashes@) =~= listed_hashes(items@).take(i as int).push(
                items@[i as int].hash@,
            ));
            i += 1;
        }
        assert(listed_hashes(items@).take(i as int) =~= listed_hashes(items@));
        Ok(hashes)
    } else {
        match resolve_pick(records, what, resolved) {
            Ok(hash) => {
                hashes.push(hash);
                assert(hashes@[0] == hash);
                Ok(hashes)
            },
            Err(e) => Err(e),
        }
    }
}

/// Plural endings.
pub open spec fn ending(n: nat) -> Seq<char> {
    if n == 1 {
        ""@
    } else {
        "s"@
    }
}

fn plural(n: usize) -> (r: &'static str)
    ensures
        r@ == ending(n as nat),
{
    if n == 1 {
        ""
    } else {
        "s"
    }
}

/// One line describing what was just shared.
pub fn describe_published(published: &Published) -> (r: String)
    ensures
        r@ == if published.is_collection {
            "\""@ + published.blob.name@ + "\" ("@ + decimal(published.members as nat) + " file"@
                + ending(published.members as nat) + ", "@ + human_size(
                published.total_size as nat,
            ) + ")"@
        } else {
            "\""@ + published.blob.name@ + "\" ("@ + human_size(published.total_size as nat)
                + ")"@
        },
{
    let size = human_bytes(published.total_size);
    let front = "\"".to_owned().concat(published.blob.name.as_str()).concat("\" (");
    if published.is_collection {
        front.concat(number(published.members as u64).as_str()).concat(" file").concat(
            plural(published.members),
        ).concat(", ").concat(size.as_str()).concat(")")
    } else {
        front.concat(size.as_str()).concat(")")
    }
}

/// Progress line for collection members, so a folder of many files does not print as many
/// hashes.
pub fn report_member(progress: &MemberProgress) -> (r: String)
    ensures
        r@ == "\u{2193} "@ + progress.collection@ + " "@ + decimal(progress.index as nat) + "/"@
            + decimal(progress.total as nat) + "  "@ + progress.path@,
{
    "\u{2193} ".to_owned().concat(progress.collection.as_str()).concat(" ").concat(
        number(progress.index as u64).as_str(),
    ).concat("/").concat(number(progress.total as u64).as_str()).concat("  ").concat(
        progress.path.as_str(),
    )
}

/// Where `receive` saves: the current directory unless told otherwise.
pub fn receive_dir(out: Option<String>) -> (r: String)
    ensures
        Some(r@) == text_or(opt_text(out), Some("."@)),
{
    match out {
        Some(out) => out,
        None => ".".to_owned(),
    }
}

/// What was found.
pub fn found_line(count: usize) -> (r: String)
    ensures
        r@ == "Found "@ + decimal(count as nat) + " item"@ + ending(count as nat)
            + " in this drop."@,
{
    "Found ".to_owned().concat(number(count as u64).as_str()).concat(" item").concat(
        plural(count),
    ).concat(" in this drop.")
}

/// What was saved, and where: the first few files by name.
pub open spec fn saved_report(saved: Seq<Seq<char>>, out_dir: Seq<char>) -> Seq<Seq<char>> {
    if saved.len() == 0 {
        seq![""@, "Nothing was saved."@]
    } else {
        let named: nat = if saved.len() > NAMED_FILES {
            NAMED_FILES as nat
        } else {
            saved.len()
        };
        let lines = seq![
            ""@,
            "Saved "@ + decimal(saved.len()) + " file(s) to "@ + out_dir + ":"@,
        ] + Seq::new(named, |i: int| "  "@ + saved[i]);
        if saved.len() > NAMED_FILES {
            lines.push("  ... and "@ + decimal((saved.len() - NAMED_FILES) as nat) + " more"@)
        } else {
            lines
        }
    }
}

/// What was saved, and where.
pub fn report_saved(saved: &Vec<String>, out_dir: &str) -> (r: Vec<String>)
    ensures
        texts(r@) == saved_report(texts(saved@), out_dir@),
{
    let mut lines = one_line("".to_owned());
    let count: usize = saved.len();
    if count == 0 {
        add_line(&mut lines, "Nothing was saved.".to_owned());
        assert(texts(lines@) =~= saved_report(texts(saved@), out_dir@));
        return lines;
    }
    add_line(
        &mut lines,
        "Saved ".to_owned().concat(number(count as u64).as_str()).concat(
            " file(s) to ",
        ).concat(out_dir).concat(":"),
    );
    let ghost head = seq![
        ""@,
        "Saved "@ + decimal(count as nat) + " file(s) to "@ + out_dir@ + ":"@,
    ];
    let ghost paths = texts(saved@);
    assert(texts(lines@) =~= head + Seq::new(0, |k: int| "  "@ + paths[k]));
    let named: usize = if count > NAMED_FILES {
        NAMED_FILES
    } else {
        count
    };
    let mut i: usize = 0;
    while i < named
        invariant
            i <= named <= saved@.len(),
            paths == texts(saved@),
            texts(lines@) == head + Seq::new(i as nat, |k: int| "  "@ + paths[k]),
        decreases named - i,
    {
        add_line(&mut lines, "  ".to_owned().concat(saved[i].as_str()));
        assert(texts(lines@) =~= head + Seq::new((i + 1) as nat, |k: int| "  "@ + paths[k]));
        i += 1;
    }
    if count > NAMED_FILES {
        add_line(
            &mut lines,
            "  ... and ".to_owned().concat(number((count - NAMED_FILES) as u64).as_str()).concat(
                " more",
            ),
        );
    }
    assert(texts(lines@) =~= saved_report(paths, out_dir@));
    lines
}

/// Which room a drop is remembered as: the one it is saved as, else the one it came from.
pub fn room_to_remember(save_as: &Option<String>, room: &Option<String>) -> (r: Option<String>)
    ensures
        opt_text(r) == text_or(opt_text(*save_as), opt_text(*room)),
{
    match save_as {
        Some(name) => Some(name.clone()),
        None => copy_text(room),
    }
}

/// Which command remembered a drop.
#[derive(Clone, Copy, Debug, PartialEq, Eq, Structural)]
pub enum Remembered {
    /// `share`.
    Sharing,
    /// `receive`.
    Receiving,
    /// The prompt.
    Talking,
}

/// How it is announced that a drop is saved as a room.
pub fn room_line(name: &str, by: Remembered) -> (r: String)
    ensures
        r@ == "Saved as room \""@ + name@ + match by {
            Remembered::Sharing => "\" \u{2014} next time: iroh-drop share --room "@ + name@
                + " <paths>"@,
            Remembered::Receiving => "\" \u{2014} next time: iroh-drop receive --room "@ + name@,
            Remembered::Talking => "\"."@,
        },
{
    let tail = match by {
        Remembered::Sharing => "\" \u{2014} next time: iroh-drop share --room ".to_owned().concat(
            name,
        ).concat(" <paths>"),
        Remembered::Receiving => "\" \u{2014} next time: iroh-drop receive --room ".to_owned().concat(
            name,
        ),
        Remembered::Talking => "\".".to_owned(),
    };
    "Saved as room \"".to_owned().concat(name).concat(tail.as_str())
}

/// What is said when the received files are still served.
pub fn still_serving(ticket: &str) -> (r: Vec<String>)
    ensures
        texts(r@) == seq![
            ""@,
            "Still serving these files. Press Ctrl-C to stop."@,
            ""@,
            "Others can get them from you with this ticket:"@,
            ""@,
            "    "@ + ticket@,
        ],
{
    let mut lines = one_line("".to_owned());
    add_line(&mut lines, "Still serving these files. Press Ctrl-C to stop.".to_owned());
    add_line(&mut lines, "".to_owned());
    add_line(&mut lines, "Others can get them from you with this ticket:".to_owned());
    add_line(&mut lines, "".to_owned());
    add_line(&mut lines, "    ".to_owned().concat(ticket));
    assert(texts(lines@) =~= seq![
        ""@,
        "Still serving these files. Press Ctrl-C to stop."@,
        ""@,
        "Others can get them from you with this ticket:"@,
        ""@,
        "    "@ + ticket@,
    ]);
    lines
}

/// What to do while a drop's contents have not appeared.
#[derive(Clone, Copy, Debug, PartialEq, Eq, Structural)]
pub enum Look {
    /// Stop looking.
    Done,
    /// Say that nobody has answered yet, and look again.
    Nudge,
    /// Look again.
    Again,
}

/// Waiting for a drop's contents to appear.
#[derive(Debug)]
pub struct Awaiting {
    /// Whether the user was told that nobody has answered.
    pub nudged: bool,
}

impl Awaiting {
    /// Nothing has been said yet.
    pub fn new() -> (r: Awaiting)
        ensures
            !r.nudged,
    {
        Awaiting { nudged: false }
    }

    /// What to do after a look: whether there are contents, whether time is up, and whether
    /// there is anybody else. The user is told once at most.
    pub fn looked(&mut self, found: bool, late: bool, alone: bool) -> (r: Look)
        ensures
            r == if found || late {
                Look::Done
            } else if !old(self).nudged && alone {
                Look::Nudge
            } else {
                Look::Again
            },
            final(self).nudged == (old(self).nudged || r is Nudge),
    {
        if found || late {
            Look::Done
        } else if !self.nudged && alone {
            self.nudged = true;
            Look::Nudge
        } else {
            Look::Again
        }
    }
}

/// Why `receive` fails on a drop with nothing in it.
pub fn no_files() -> (r: String)
    ensures
        r@ == "no files appeared within "@ + decimal(RECEIVE_WAIT as nat)
            + "s \u{2014} is the sharing peer still running?"@,
{
    "no files appeared within ".to_owned().concat(number(RECEIVE_WAIT).as_str()).concat(
        "s \u{2014} is the sharing peer still running?",
    )
}

/// Who is there.
pub fn who(peers: &Vec<PeerId>) -> (r: Vec<String>)
    ensures
        texts(r@) == if peers@.len() == 0 {
            seq!["Nobody else is connected right now."@]
        } else {
            Seq::new(peers@.len(), |i: int| peers@[i].short@)
        },
{
    if peers.len() == 0 {
        return one_line("Nobody else is connected right now.".to_owned());
    }
    let mut lines = no_lines();
    let mut i: usize = 0;
    assert(texts(lines@) =~= Seq::new(0, |k: int| peers@[k].short@));
    while i < peers.len()
        invariant
            i <= peers@.len(),
            texts(lines@) == Seq::new(i as nat, |k: int| peers@[k].short@),
        decreases peers@.len() - i,
    {
        add_line(&mut lines, peers[i].fmt_short());
        assert(texts(lines@) =~= Seq::new((i + 1) as nat, |k: int| peers@[k].short@));
        i += 1;
    }
    lines
}

/// A line of the listing of nearby drops.
pub open spec fn nearby_row(index: Seq<char>, what: Seq<char>, who: Seq<char>) -> Seq<char> {
    right_aligned(index, 3) + "  "@ + left_aligned(what, 28) + " "@ + who
}

fn show_nearby(index: &str, what: &str, who: &str) -> (r: String)
    ensures
        r@ == nearby_row(index@, what@, who@),
{
    pad_left(index, 3).concat("  ").concat(pad_right(what, 28).as_str()).concat(" ").concat(who)
}

/// The line of a nearby drop.
pub open spec fn nearby_line(drop: NearbyDrop) -> Seq<char> {
    nearby_row(
        decimal(drop.index as nat),
        shown_as(opt_text(drop.label), drop.peer.short@),
        drop.peer.short@,
    )
}

/// What is being shared on the local network.
pub fn nearby_lines(drops: &Vec<NearbyDrop>) -> (r: Vec<String>)
    ensures
        texts(r@) == if drops@.len() == 0 {
            seq![
                "Nothing is being shared nearby."@,
                "(The sharer needs to run `iroh-drop share --lan <paths>`.)"@,
            ]
        } else {
            seq![nearby_row("#"@, "what"@, "who"@)] + Seq::new(
                drops@.len(),
                |i: int| nearby_line(drops@[i]),
            ) + seq![""@, "Receive with:  iroh-drop receive --nearby <#>"@]
        },
{
    if drops.len() == 0 {
        let mut lines = one_line("Nothing is being shared nearby.".to_owned());
        add_line(
            &mut lines,
            "(The sharer needs to run `iroh-drop share --lan <paths>`.)".to_owned(),
        );
        assert(texts(lines@) =~= seq![
            "Nothing is being shared nearby."@,
            "(The sharer needs to run `iroh-drop share --lan <paths>`.)"@,
        ]);
        return lines;
    }
    let mut lines = one_line(show_nearby("#", "what", "who"));
    let ghost head = seq![nearby_row("#"@, "what"@, "who"@)];
    let mut i: usize = 0;
    assert(texts(lines@) =~= head + Seq::new(0, |k: int| nearby_line(drops@[k])));
    while i < drops.len()
        invariant
            i <= drops@.len(),
            texts(lines@) == head + Seq::new(i as nat, |k: int| nearby_line(drops@[k])),
        decreases drops@.len() - i,
    {
        let drop = &drops[i];
        add_line(
            &mut lines,
            show_nearby(
                number(drop.index as u64).as_str(),
                drop.display().as_str(),
                drop.peer.short.as_str(),
            ),
        );
        assert(texts(lines@) =~= head + Seq::new((i + 1) as nat, |k: int| nearby_line(drops@[k])));
        i += 1;
    }
    let ghost before = texts(lines@);
    add_line(&mut lines, "".to_owned());
    add_line(&mut lines, "Receive with:  iroh-drop receive --nearby <#>".to_owned());
    assert(texts(lines@) =~= before + seq![
        ""@,
        "Receive with:  iroh-drop receive --nearby <#>"@,
    ]);
    lines
}

/// A line of the listing of rooms.
pub open spec fn room_row(row: ListedRoom<'_>) -> Seq<char> {
    left_aligned(row.name@, 20) + " "@ + match row.room.note {
        Some(note) => note@,
        None => "-"@,
    }
}

/// The saved rooms.
pub fn rooms_lines(rows: &Vec<ListedRoom<'_>>) -> (r: Vec<String>)
    ensures
        texts(r@) == if rows@.len() == 0 {
            seq![
                "No saved rooms yet."@,
                "(Add one with `share --room <name>` or `receive ... --save-as <name>`.)"@,
            ]
        } else {
            seq![left_aligned("room"@, 20) + " note"@] + Seq::new(
                rows@.len(),
                |i: int| room_row(rows@[i]),
            ) + seq![
                ""@,
                "Use with:  iroh-drop share --room <name> <paths>   |   receive --room <name>"@,
            ]
        },
{
    if rows.len() == 0 {
        let mut lines = one_line("No saved rooms yet.".to_owned());
        add_line(
            &mut lines,
            "(Add one with `share --room <name>` or `receive ... --save-as <name>`.)".to_owned(),
        );
        assert(texts(lines@) =~= seq![
            "No saved rooms yet."@,
            "(Add one with `share --room <name>` or `receive ... --save-as <name>`.)"@,
        ]);
        return lines;
    }
    let mut lines = one_line(pad_right("room", 20).concat(" note"));
    let ghost head = seq![left_aligned("room"@, 20) + " note"@];
    let mut i: usize = 0;
    assert(texts(lines@) =~= head + Seq::new(0, |k: int| room_row(rows@[k])));
    while i < rows.len()
        invariant
            i <= rows@.len(),
            texts(lines@) == head + Seq::new(i as nat, |k: int| room_row(rows@[k])),
        decreases rows@.len() - i,
    {
        let row = &rows[i];
        let note = match &row.room.note {
            Some(note) => note.clone(),
            None => "-".to_owned(),
        };
        add_line(
            &mut lines,
            pad_right(row.name.as_str(), 20).concat(" ").concat(note.as_str()),
        );
        assert(texts(lines@) =~= head + Seq::new((i + 1) as nat, |k: int| room_row(rows@[k])));
        i += 1;
    }
    let ghost before = texts(lines@);
    add_line(&mut lines, "".to_owned());
    add_line(
        &mut lines,
        "Use with:  iroh-drop share --room <name> <paths>   |   receive --room <name>".to_owned(),
    );
    assert(texts(lines@) =~= before + seq![
        ""@,
        "Use with:  iroh-drop share --room <name> <paths>   |   receive --room <name>"@,
    ]);
    lines
}

/// Forgets a room. Says what came of it, and whether the book has changed and must be saved.
pub fn forget_room(rooms: &mut Rooms, name: &str) -> (r: (bool, String))
    ensures
        r.0 == old(rooms).book().contains_key(name@),
        final(rooms).book() == old(rooms).book().remove(name@),
        r.1@ == if r.0 {
            "Forgot room \""@ + name@ + "\"."@
        } else {
            "No room named \""@ + name@ + "\"."@
        },
{
    if rooms.remove(name) {
        (true, "Forgot room \"".to_owned().concat(name).concat("\"."))
    } else {
        (false, "No room named \"".to_owned().concat(name).concat("\"."))
    }
}

/// Where things are kept, for people.
pub fn config_lines(config: &Config, env: &Environment) -> (r: Vec<String>)
    ensures
        texts(r@) == seq![
            "config file   "@ + below(env.config_text(), "config.toml"@),
            "identity      "@ + config.identity_path@,
            "blob store    "@ + config.store_path@,
            "downloads     "@ + config.download_dir@,
            "auto fetch    "@ + if config.auto_fetch {
                "true"@
            } else {
                "false"@
            },
            "auto limits   "@ + human_size(config.max_auto_blob_size as nat) + " per file, "@
                + human_size(config.max_auto_total_bytes as nat) + " per session"@,
        ],
{
    let auto = if config.auto_fetch {
        "true"
    } else {
        "false"
    };
    let mut lines = one_line(
        "config file   ".to_owned().concat(Config::default_path(env).as_str()),
    );
    add_line(&mut lines, "identity      ".to_owned().concat(config.identity_path.as_str()));
    add_line(&mut lines, "blob store    ".to_owned().concat(config.store_path.as_str()));
    add_line(&mut lines, "downloads     ".to_owned().concat(config.download_dir.as_str()));
    add_line(&mut lines, "auto fetch    ".to_owned().concat(auto));
    add_line(
        &mut lines,
        "auto limits   ".to_owned().concat(human_bytes(config.max_auto_blob_size).as_str()).concat(
            " per file, ",
        ).concat(human_bytes(config.max_auto_total_bytes).as_str()).concat(" per session"),
    );
    assert(texts(lines@) =~= seq![
        "config file   "@ + below(env.config_text(), "config.toml"@),
        "identity      "@ + config.identity_path@,
        "blob store    "@ + config.store_path@,
        "downloads     "@ + config.download_dir@,
        "auto fetch    "@ + auto@,
        "auto limits   "@ + human_size(config.max_auto_blob_size as nat) + " per file, "@
            + human_size(config.max_auto_total_bytes as nat) + " per session"@,
    ]);
    lines
}

/// Where the ticket is kept so that the user finds it again: beside the blobs.
pub fn kept_ticket(store: &Option<String>) -> (r: Option<String>)
    ensures
        opt_text(r) == match store {
            Some(dir) => Some(below(dir@, "ticket"@)),
            None => None,
        },
{
    match store {
        Some(dir) => Some(join_path(dir.as_str(), "ticket")),
        None => None,
    }
}

/// What is said of the ticket beside the blobs: nothing, unless it could not be saved.
pub fn ticket_kept(failure: &Option<String>) -> (r: Option<String>)
    ensures
        opt_text(r) == match failure {
            Some(why) => Some("! could not save the ticket: "@ + why@),
            None => None,
        },
{
    match failure {
        Some(why) => Some("! could not save the ticket: ".to_owned().concat(why.as_str())),
        None => None,
    }
}

/// What is said of the ticket in a file that was asked for.
pub fn ticket_written(path: &str, failure: &Option<String>) -> (r: String)
    ensures
        r@ == match failure {
            Some(why) => "! could not write "@ + path@ + ": "@ + why@,
            None => "ticket written to "@ + path@,
        },
{
    match failure {
        Some(why) => "! could not write ".to_owned().concat(path).concat(": ").concat(why.as_str()),
        None => "ticket written to ".to_owned().concat(path),
    }
}

/// A link is read as the ticket it was made of, and a ticket as itself: what is joined does
/// not depend on which of the two was pasted.
pub proof fn links_are_read_as_their_tickets(ticket: Seq<char>)
    requires
        well_formed_ticket(ticket, Prefixes::Any),
    ensures
        ticket_read(app_link_text(ticket)) == ticket,
        ticket_read(ticket) == ticket,
{
    pasted_app_link_gives_ticket_back(ticket, Prefixes::Any);
}

} // verus!

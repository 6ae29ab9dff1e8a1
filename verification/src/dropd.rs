//! What the daemon process is told on its command line, and what it makes of it.

use crate::config::Environment;
use crate::path::{below, join_path};
use crate::service::ServiceOptions;
use crate::text::{copy_text, opt_text, same, texts};
use vstd::prelude::*;

verus! {

/// What the daemon's command line looks like.
pub const USAGE: &'static str = "iroh-dropd [--lan-only] [--socket PATH] [--data-dir PATH] [--downloads PATH]
           [--link-base https://your.page]";

/// The settings of the daemon process.
#[derive(Debug)]
pub struct DaemonArgs {
    /// No relay, no lookups: nothing leaves the network.
    pub lan_only: bool,
    /// Where to listen.
    pub socket: Option<String>,
    /// Where to keep things.
    pub data_dir: Option<String>,
    /// Where accepted transfers go.
    pub download_dir: Option<String>,
    /// Answer consent that arrives while no window is open.
    pub accept_when_no_ui: bool,
    /// Base URL for web links.
    pub link_base: Option<String>,
}

/// The model of [`DaemonArgs`].
#[verifier::ext_equal]
pub struct DaemonArgsView {
    /// Nothing leaves the network.
    pub lan_only: bool,
    /// Where to listen.
    pub socket: Option<Seq<char>>,
    /// Where to keep things.
    pub data_dir: Option<Seq<char>>,
    /// Where accepted transfers go.
    pub download_dir: Option<Seq<char>>,
    /// Answer consent that arrives while no window is open.
    pub accept_when_no_ui: bool,
    /// Base URL for web links.
    pub link_base: Option<Seq<char>>,
}

impl View for DaemonArgs {
    type V = DaemonArgsView;

    open spec fn view(&self) -> DaemonArgsView {
        DaemonArgsView {
            lan_only: self.lan_only,
            socket: opt_text(self.socket),
            data_dir: opt_text(self.data_dir),
            download_dir: opt_text(self.download_dir),
            accept_when_no_ui: self.accept_when_no_ui,
            link_base: opt_text(self.link_base),
        }
    }
}

/// What a command line asks for.
#[derive(Debug)]
pub enum Invocation {
    /// Run with these settings.
    Run(DaemonArgs),
    /// Show how it is used.
    Help,
    /// It cannot be understood, for this reason.
    Bad(String),
}

/// The model of an [`Invocation`].
#[verifier::ext_equal]
pub enum InvocationView {
    /// Run with these settings.
    Run(DaemonArgsView),
    /// Show how it is used.
    Help,
    /// It cannot be understood.
    Bad(Seq<char>),
}

impl View for Invocation {
    type V = InvocationView;

    open spec fn view(&self) -> InvocationView {
        match self {
            Invocation::Run(args) => InvocationView::Run(args@),
            Invocation::Help => InvocationView::Help,
            Invocation::Bad(why) => InvocationView::Bad(why@),
        }
    }
}

/// The argument behind the first, where there is one.
pub open spec fn value_of(args: Seq<Seq<char>>) -> Option<Seq<char>> {
    if args.len() > 1 {
        Some(args[1])
    } else {
        None
    }
}

/// What is left behind an option and its value.
pub open spec fn past_value(args: Seq<Seq<char>>) -> Seq<Seq<char>> {
    if args.len() > 1 {
        args.skip(2)
    } else {
        Seq::empty()
    }
}

/// What the arguments `args` make of the settings `so_far`.
pub open spec fn understood(args: Seq<Seq<char>>, so_far: DaemonArgsView) -> InvocationView
    decreases args.len(),
{
    if args.len() == 0 {
        InvocationView::Run(so_far)
    } else if args[0] == "--lan-only"@ {
        understood(args.skip(1), DaemonArgsView { lan_only: true, ..so_far })
    } else if args[0] == "--socket"@ {
        understood(past_value(args), DaemonArgsView { socket: value_of(args), ..so_far })
    } else if args[0] == "--data-dir"@ {
        understood(past_value(args), DaemonArgsView { data_dir: value_of(args), ..so_far })
    } else if args[0] == "--downloads"@ {
        understood(past_value(args), DaemonArgsView { download_dir: value_of(args), ..so_far })
    } else if args[0] == "--accept-when-no-ui"@ {
        understood(args.skip(1), DaemonArgsView { accept_when_no_ui: true, ..so_far })
    } else if args[0] == "--link-base"@ {
        understood(past_value(args), DaemonArgsView { link_base: value_of(args), ..so_far })
    } else if args[0] == "-h"@ || args[0] == "--help"@ {
        InvocationView::Help
    } else {
        InvocationView::Bad("unknown argument: "@ + args[0])
    }
}

/// The settings when nothing is said.
pub open spec fn nothing_said() -> DaemonArgsView {
    DaemonArgsView {
        lan_only: false,
        socket: None,
        data_dir: None,
        download_dir: None,
        accept_when_no_ui: false,
        link_base: None,
    }
}

fn value_at(args: &Vec<String>, at: usize) -> (r: Option<String>)
    ensures
        opt_text(r) == if at < args@.len() {
            Some(args@[at as int]@)
        } else {
            None
        },
{
    if at < args.len() {
        Some(args[at].clone())
    } else {
        None
    }
}

/// Understands a command line, without the program's name.
pub fn parse_args(args: &Vec<String>) -> (r: Invocation)
    ensures
        r@ == understood(texts(args@), nothing_said()),
{
    let mut out = DaemonArgs {
        lan_only: false,
        socket: None,
        data_dir: None,
        download_dir: None,
        accept_when_no_ui: false,
        link_base: None,
    };
    let ghost all = texts(args@);
    let mut i: usize = 0;
    assert(all.skip(0) =~= all);
    while i < args.len()
        invariant
            i <= args@.len(),
            all == texts(args@),
            understood(all, nothing_said()) == understood(all.skip(i as int), out@),
        decreases args@.len() - i,
    {
        let arg = args[i].as_str();
        let ghost rest = all.skip(i as int);
        assert(rest[0] == arg@);
        assert(rest.skip(1) =~= all.skip(i + 1));
        let value = value_at(args, i + 1);
        assert(opt_text(value) == value_of(rest));
        let past: usize = if i + 1 < args.len() {
            i + 2
        } else {
            i + 1
        };
        assert(past_value(rest) =~= all.skip(past as int));
        if same(arg, "--lan-only") {
            out.lan_only = true;
            i += 1;
        } else if same(arg, "--socket") {
            out.socket = value;
            i = past;
        } else if same(arg, "--data-dir") {
            out.data_dir = value;
            i = past;
        } else if same(arg, "--downloads") {
            out.download_dir = value;
            i = past;
        } else if same(arg, "--accept-when-no-ui") {
            out.accept_when_no_ui = true;
            i += 1;
        } else if same(arg, "--link-base") {
            out.link_base = value;
            i = past;
        } else if same(arg, "-h") || same(arg, "--help") {
            return Invocation::Help;
        } else {
            return Invocation::Bad("unknown argument: ".to_owned().concat(arg));
        }
    }
    assert(all.skip(i as int).len() == 0);
    Invocation::Run(out)
}

/// Where the daemon keeps things when it is not told.
pub open spec fn data_home(env: Environment) -> Seq<char> {
    match (env.data_home, env.home) {
        (Some(dir), _) => below(dir@, "iroh-drop"@),
        (None, Some(home)) => below(below(below(home@, ".local"@), "share"@), "iroh-drop"@),
        (None, None) => ".iroh-drop"@,
    }
}

/// Where the daemon keeps things when it is not told.
pub fn default_data_dir(env: &Environment) -> (r: String)
    ensures
        r@ == data_home(*env),
{
    match &env.data_home {
        Some(dir) => join_path(dir.as_str(), "iroh-drop"),
        None => match &env.home {
            Some(home) => {
                let local = join_path(home.as_str(), ".local");
                let share = join_path(local.as_str(), "share");
                join_path(share.as_str(), "iroh-drop")
            },
            None => ".iroh-drop".to_owned(),
        },
    }
}

/// Where transfers go when nobody says: into the user's `Downloads` where there is one
/// (`has_downloads`), else into their home, else into the current directory.
pub open spec fn download_home(home: Option<Seq<char>>, has_downloads: bool) -> Seq<char> {
    match home {
        Some(home) => if has_downloads {
            below(below(home, "Downloads"@), "iroh-drop"@)
        } else {
            below(home, "iroh-drop"@)
        },
        None => "iroh-drop-downloads"@,
    }
}

/// Where transfers go when nobody says.
pub fn default_download_dir(home: &Option<String>, has_downloads: bool) -> (r: String)
    ensures
        r@ == download_home(opt_text(*home), has_downloads),
{
    match home {
        Some(home) => if has_downloads {
            let downloads = join_path(home.as_str(), "Downloads");
            join_path(downloads.as_str(), "iroh-drop")
        } else {
            join_path(home.as_str(), "iroh-drop")
        },
        None => "iroh-drop-downloads".to_owned(),
    }
}

/// How the service is brought up. Persistent: the point of a daemon is to still be here
/// later.
pub fn service_options(args: &DaemonArgs, data_dir: &str, download_dir: &str) -> (r:
    ServiceOptions)
    ensures
        opt_text(r.store_path) == Some(below(data_dir@, "blobs"@)),
        opt_text(r.identity_path) == Some(below(data_dir@, "identity"@)),
        r.offline == args.lan_only,
        r.mdns,
        r.download_dir@ == download_dir@,
        r.auto_accept == args.accept_when_no_ui,
        opt_text(r.link_base) == opt_text(args.link_base),
{
    ServiceOptions {
        store_path: Some(join_path(data_dir, "blobs")),
        identity_path: Some(join_path(data_dir, "identity")),
        offline: args.lan_only,
        mdns: true,
        download_dir: download_dir.to_owned(),
        auto_accept: args.accept_when_no_ui,
        link_base: copy_text(&args.link_base),
    }
}

} // verus!

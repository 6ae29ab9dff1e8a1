//! Newline-delimited frames over a local, user-private channel.
//!
//! Deliberately **not** a localhost TCP port: a port is reachable by every process on the
//! machine and by any web page the user visits. The socket lives in a directory that only
//! its owner can enter, and that is the whole authorization model.

use crate::config::Environment;
use crate::frame::{ApiError, ApiErrorView, MAX_FRAME_BYTES};
use crate::path::{below, join_path, parent, parent_text};
use crate::text::{byte_len, trim, trimmed, utf8_len};
use vstd::prelude::*;

verus! {

/// Where the daemon listens by default: in the runtime directory, else below the user's
/// data directory (macOS has no runtime directory), else in the current directory.
pub open spec fn socket_text(env: Environment) -> Seq<char> {
    match (env.runtime_dir, env.home) {
        (Some(dir), _) => below(below(dir@, "iroh-drop"@), "control.sock"@),
        (None, Some(home)) => below(
            below(below(below(home@, ".local"@), "share"@), "iroh-drop"@),
            "control.sock"@,
        ),
        (None, None) => "iroh-drop-control.sock"@,
    }
}

/// Where the daemon listens by default.
pub fn default_socket_path(env: &Environment) -> (r: String)
    ensures
        r@ == socket_text(*env),
{
    match &env.runtime_dir {
        Some(dir) => {
            let own = join_path(dir.as_str(), "iroh-drop");
            join_path(own.as_str(), "control.sock")
        },
        None => match &env.home {
            Some(home) => {
                let local = join_path(home.as_str(), ".local");
                let share = join_path(local.as_str(), "share");
                let own = join_path(share.as_str(), "iroh-drop");
                join_path(own.as_str(), "control.sock")
            },
            None => "iroh-drop-control.sock".to_owned(),
        },
    }
}

/// What to do with a line from the other side.
#[derive(Clone, Copy, Debug, PartialEq, Eq, Structural)]
pub enum LineStep {
    /// It is longer than any frame may be: close the connection.
    Close,
    /// It holds nothing.
    Skip,
    /// Parse it. A line that does not parse is the other side's bug, not a reason to drop
    /// a working connection.
    Parse,
}

/// What to do with a line from the other side.
pub open spec fn step_for(line: Seq<char>) -> LineStep {
    if utf8_len(line) > MAX_FRAME_BYTES {
        LineStep::Close
    } else if trimmed(line).len() == 0 {
        LineStep::Skip
    } else {
        LineStep::Parse
    }
}

/// What to do with a line from the other side.
pub fn read_line(line: &str) -> (r: LineStep)
    ensures
        r == step_for(line@),
{
    if byte_len(line) > MAX_FRAME_BYTES {
        return LineStep::Close;
    }
    if trim(line).unicode_len() == 0 {
        LineStep::Skip
    } else {
        LineStep::Parse
    }
}

/// What stands at a socket's path.
#[derive(Clone, Copy, Debug, PartialEq, Eq, Structural)]
pub enum SocketState {
    /// Nothing.
    Absent,
    /// Somebody answers.
    Live,
    /// A leftover: nobody answers.
    Stale,
}

/// How to bind a socket.
#[derive(Clone, Copy, Debug, PartialEq, Eq, Structural)]
pub enum BindStep {
    /// Just bind it.
    Bind,
    /// Remove the leftover, then bind.
    Reclaim,
}

/// The directory that a socket stands in, which is to be created for its owner only.
pub fn socket_dir(path: &str) -> (r: Result<String, ApiError>)
    ensures
        match r {
            Ok(dir) => parent_text(path@) == Some(dir@),
            Err(e) => parent_text(path@) is None && e@ == ApiErrorView::of(
                "bad_path"@,
                "socket path has no parent"@,
            ),
        },
{
    match parent(path) {
        Some(dir) => Ok(dir),
        None => Err(ApiError::new("bad_path", "socket path has no parent")),
    }
}

/// Decides how to bind the control socket: a stale one is replaced, a live one means that a
/// daemon is already running.
pub fn bind(path: &str, state: SocketState) -> (r: Result<BindStep, ApiError>)
    ensures
        match state {
            SocketState::Absent => r == Ok::<BindStep, ApiError>(BindStep::Bind),
            SocketState::Stale => r == Ok::<BindStep, ApiError>(BindStep::Reclaim),
            SocketState::Live => r is Err && r->Err_0@ == ApiErrorView::of(
                "already_running"@,
                "a daemon is already listening on "@ + path@,
            ),
        },
{
    match state {
        SocketState::Absent => Ok(BindStep::Bind),
        SocketState::Stale => Ok(BindStep::Reclaim),
        SocketState::Live => Err(
            ApiError::new(
                "already_running",
                "a daemon is already listening on ".to_owned().concat(path).as_str(),
            ),
        ),
    }
}

/// The error for a path whose permissions cannot be set.
pub fn cannot_restrict(path: &str, why: &str) -> (r: ApiError)
    ensures
        r@ == ApiErrorView::of("io"@, "cannot restrict "@ + path@ + ": "@ + why@),
{
    ApiError::new(
        "io",
        "cannot restrict ".to_owned().concat(path).concat(": ").concat(why).as_str(),
    )
}

/// The error for a daemon that does not answer.
pub fn no_daemon(path: &str, why: &str) -> (r: ApiError)
    ensures
        r@ == ApiErrorView::of(
            "no_daemon"@,
            "cannot reach a daemon at "@ + path@ + ": "@ + why@,
        ),
{
    ApiError::new(
        "no_daemon",
        "cannot reach a daemon at ".to_owned().concat(path).concat(": ").concat(why).as_str(),
    )
}

} // verus!

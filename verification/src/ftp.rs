//! The FTP connection test as a session state machine.
//!
//! The test logs in with the given credentials and, when a path was
//! given, changes into it. The application owns the socket: it reads each
//! server reply and hands it here; this module decides what to send next,
//! or how the session ends. A reply's meaning is decided by its leading
//! reply code: `220` greets, `230` accepts a login, `250` accepts a
//! directory change.

use vstd::prelude::*;
use crate::text::{starts_with, starts_with_str};

verus! {

/// Where the session stands: which reply is awaited next.
#[derive(Clone, Copy, Debug, PartialEq, Eq, Structural)]
pub enum FtpState {
    /// Connected; the server's greeting has not arrived yet.
    AwaitBanner,
    /// The USER command was sent; its reply has not arrived yet.
    AwaitUserReply,
    /// The PASS command was sent; its reply has not arrived yet.
    AwaitPassReply,
    /// The CWD command was sent; its reply has not arrived yet.
    AwaitCwdReply,
}

/// What the session sends next.
#[derive(Clone, Copy, Debug, PartialEq, Eq, Structural)]
pub enum FtpCommand {
    User,
    Pass,
    Cwd,
}

/// Why the session failed.
#[derive(Clone, Copy, Debug, PartialEq, Eq, Structural)]
pub enum FtpError {
    /// The greeting did not carry reply code 220.
    Banner,
    /// The login reply did not carry reply code 230.
    Auth,
    /// The directory-change reply did not carry reply code 250.
    Path,
}

/// What one step of the session decides: go on with a command, or end.
#[derive(Clone, Copy, Debug, PartialEq, Eq, Structural)]
pub enum FtpOutcome {
    Continue(FtpState, FtpCommand),
    Success,
    Failure(FtpError),
}

/// Decides the next step of the connection test from the awaited reply.
/// `has_path` says whether a directory to change into was given.
pub fn ftp_step(state: FtpState, reply: &str, has_path: bool) -> (r: FtpOutcome)
    ensures
        state is AwaitBanner ==> r == if starts_with(reply@, "220"@) {
            FtpOutcome::Continue(FtpState::AwaitUserReply, FtpCommand::User)
        } else {
            FtpOutcome::Failure(FtpError::Banner)
        },
        state is AwaitUserReply ==> r == FtpOutcome::Continue(
            FtpState::AwaitPassReply,
            FtpCommand::Pass,
        ),
        state is AwaitPassReply ==> r == if !starts_with(reply@, "230"@) {
            FtpOutcome::Failure(FtpError::Auth)
        } else if has_path {
            FtpOutcome::Continue(FtpState::AwaitCwdReply, FtpCommand::Cwd)
        } else {
            FtpOutcome::Success
        },
        state is AwaitCwdReply ==> r == if starts_with(reply@, "250"@) {
            FtpOutcome::Success
        } else {
            FtpOutcome::Failure(FtpError::Path)
        },
{
    match state {
        FtpState::AwaitBanner => {
            if starts_with_str(reply, "220") {
                FtpOutcome::Continue(FtpState::AwaitUserReply, FtpCommand::User)
            } else {
                FtpOutcome::Failure(FtpError::Banner)
            }
        },
        FtpState::AwaitUserReply => {
            FtpOutcome::Continue(FtpState::AwaitPassReply, FtpCommand::Pass)
        },
        FtpState::AwaitPassReply => {
            if !starts_with_str(reply, "230") {
                FtpOutcome::Failure(FtpError::Auth)
            } else if has_path {
                FtpOutcome::Continue(FtpState::AwaitCwdReply, FtpCommand::Cwd)
            } else {
                FtpOutcome::Success
            }
        },
        FtpState::AwaitCwdReply => {
            if starts_with_str(reply, "250") {
                FtpOutcome::Success
            } else {
                FtpOutcome::Failure(FtpError::Path)
            }
        },
    }
}

} // verus!

//! The command executor: what a classified command asks of the hardware
//! control surface, and the response owed once that access has succeeded or
//! failed.
//!
//! The executor itself touches no file and no port.  `plan` says which
//! attribute access a command needs; the surrounding binary performs it and
//! hands the outcome back; `respond` turns command and outcome into the one
//! framed peer response or local diagnostic notice the command produces.
//! Every command's failure stays its own: no outcome ever asks the read loop
//! to stop.

use vstd::prelude::*;
use crate::matcher::{Command, CommandView};
use crate::text::{dec_rep, trim_spec, trim_str};

verus! {

/// One of the three addressable hardware attributes.
#[derive(Clone, Copy, Debug, PartialEq, Eq, Structural)]
pub enum AttrKind {
    /// The current power limit, readable and writable.
    CurrentLimit,
    /// The highest settable limit, read-only.
    MaxLimit,
    /// The lowest settable limit, read-only.
    MinLimit,
}

/// The attribute access a command calls for, before any response is owed.
#[derive(Clone, Copy, Debug, PartialEq, Eq, Structural)]
pub enum Action {
    /// Write the value, as decimal text, to the current-limit attribute.
    WriteCurrentLimit(u32),
    /// Read the named attribute as text.
    ReadAttr(AttrKind),
    /// Touch nothing: the command is diagnostic or unknown.
    NoAccess,
}

/// Why an attribute access failed.  A missing path is distinct from an
/// existing but unreadable or unwritable one, and each carries the path and
/// the underlying cause so the failure can be diagnosed without a retry.
#[derive(Debug, PartialEq, Eq)]
pub enum AttrError {
    PathNotFound { path: String },
    OpenFailed { path: String, cause: String },
    ReadFailed { path: String, cause: String },
    WriteFailed { path: String, cause: String },
}

/// Ghost image of an `AttrError`.
pub enum AttrErrorView {
    PathNotFound { path: Seq<char> },
    OpenFailed { path: Seq<char>, cause: Seq<char> },
    ReadFailed { path: Seq<char>, cause: Seq<char> },
    WriteFailed { path: Seq<char>, cause: Seq<char> },
}

impl View for AttrError {
    type V = AttrErrorView;

    open spec fn view(&self) -> AttrErrorView {
        match self {
            AttrError::PathNotFound { path } => AttrErrorView::PathNotFound { path: path@ },
            AttrError::OpenFailed { path, cause } => AttrErrorView::OpenFailed {
                path: path@,
                cause: cause@,
            },
            AttrError::ReadFailed { path, cause } => AttrErrorView::ReadFailed {
                path: path@,
                cause: cause@,
            },
            AttrError::WriteFailed { path, cause } => AttrErrorView::WriteFailed {
                path: path@,
                cause: cause@,
            },
        }
    }
}

/// The human-readable sentence an attribute failure is reported with.  An
/// open failure hints at privilege escalation, the likely remedy.
pub open spec fn spec_error_message(e: AttrErrorView) -> Seq<char> {
    match e {
        AttrErrorView::PathNotFound { path } => "Path not found: "@ + path,
        AttrErrorView::OpenFailed { path, cause } => "Failed to open "@ + path + ": "@ + cause
            + " (try running as root with sudo)"@,
        AttrErrorView::ReadFailed { path, cause } => "Failed to read "@ + path + ": "@ + cause,
        AttrErrorView::WriteFailed { path, cause } => "Failed to write "@ + path + ": "@ + cause,
    }
}

impl AttrError {
    /// Render the failure sentence, exactly as `spec_error_message` says.
    pub fn message(&self) -> (r: String)
        ensures
            r@ == spec_error_message(self@),
    {
        match self {
            AttrError::PathNotFound { path } => {
                String::from_str("Path not found: ").concat(path.as_str())
            },
            AttrError::OpenFailed { path, cause } => {
                String::from_str("Failed to open ").concat(path.as_str()).concat(": ").concat(
                    cause.as_str(),
                ).concat(" (try running as root with sudo)")
            },
            AttrError::ReadFailed { path, cause } => {
                String::from_str("Failed to read ").concat(path.as_str()).concat(": ").concat(
                    cause.as_str(),
                )
            },
            AttrError::WriteFailed { path, cause } => {
                String::from_str("Failed to write ").concat(path.as_str()).concat(": ").concat(
                    cause.as_str(),
                )
            },
        }
    }
}

/// The outcome the binary hands back after performing a command's attribute
/// access: nothing for commands that touch nothing, a write result for a
/// set, a read result for a get.
#[derive(Debug, PartialEq, Eq)]
pub enum AttrOutcome {
    Skipped,
    Wrote(Result<(), AttrError>),
    ReadBack(Result<String, AttrError>),
}

/// Ghost image of an `AttrOutcome`.
pub enum AttrOutcomeView {
    Skipped,
    Wrote(Result<(), AttrErrorView>),
    ReadBack(Result<Seq<char>, AttrErrorView>),
}

impl View for AttrOutcome {
    type V = AttrOutcomeView;

    open spec fn view(&self) -> AttrOutcomeView {
        match self {
            AttrOutcome::Skipped => AttrOutcomeView::Skipped,
            AttrOutcome::Wrote(r) => AttrOutcomeView::Wrote(
                match r {
                    Result::Ok(u) => Result::Ok(*u),
                    Result::Err(e) => Result::Err(e@),
                },
            ),
            AttrOutcome::ReadBack(r) => AttrOutcomeView::ReadBack(
                match r {
                    Result::Ok(s) => Result::Ok(s@),
                    Result::Err(e) => Result::Err(e@),
                },
            ),
        }
    }
}

/// What one command sends where: at most one CR/LF-framed line to the serial
/// peer, at most one notice to local diagnostics.
#[derive(Debug, PartialEq, Eq)]
pub struct Output {
    pub peer: Option<String>,
    pub local: Option<String>,
}

/// Ghost image of an `Output`.
pub struct OutputView {
    pub peer: Option<Seq<char>>,
    pub local: Option<Seq<char>>,
}

impl View for Output {
    type V = OutputView;

    open spec fn view(&self) -> OutputView {
        OutputView {
            peer: match &self.peer {
                Option::Some(s) => Option::Some(s@),
                Option::None => Option::None,
            },
            local: match &self.local {
                Option::Some(s) => Option::Some(s@),
                Option::None => Option::None,
            },
        }
    }
}

/// Which attribute access each command variant calls for.
pub open spec fn spec_plan(c: CommandView) -> Action {
    match c {
        CommandView::SetPowerLimit(v) => Action::WriteCurrentLimit(v),
        CommandView::GetPowerLimit => Action::ReadAttr(AttrKind::CurrentLimit),
        CommandView::GetPowerMax => Action::ReadAttr(AttrKind::MaxLimit),
        CommandView::GetPowerMin => Action::ReadAttr(AttrKind::MinLimit),
        CommandView::Test(_) => Action::NoAccess,
        CommandView::Unknown(_) => Action::NoAccess,
    }
}

/// The outcome shape that fits a command: a write result answers a set, a
/// read result answers a get, and nothing answers the rest.
pub open spec fn outcome_fits(c: CommandView, o: AttrOutcomeView) -> bool {
    match spec_plan(c) {
        Action::WriteCurrentLimit(_) => o is Wrote,
        Action::ReadAttr(_) => o is ReadBack,
        Action::NoAccess => o is Skipped,
    }
}

/// The one response a command and its outcome produce.
///
/// A successful get answers the peer with the attribute text, trimmed and
/// CR/LF framed; a failed get answers the peer with the failure sentence in
/// the same framing.  A set reports success or failure locally only.  A test
/// command logs its argument locally; an unknown line is mirrored locally
/// verbatim.  No command does both.
pub open spec fn spec_respond(c: CommandView, o: AttrOutcomeView) -> OutputView {
    match c {
        CommandView::SetPowerLimit(_) => match o {
            AttrOutcomeView::Wrote(Result::Ok(_)) => OutputView {
                peer: Option::None,
                local: Option::Some("Successfully set GPU power limit."@),
            },
            AttrOutcomeView::Wrote(Result::Err(e)) => OutputView {
                peer: Option::None,
                local: Option::Some("Failed to set GPU power limit: "@ + spec_error_message(e)),
            },
            _ => OutputView { peer: Option::None, local: Option::None },
        },
        CommandView::GetPowerLimit | CommandView::GetPowerMax | CommandView::GetPowerMin => match o {
            AttrOutcomeView::ReadBack(Result::Ok(s)) => OutputView {
                peer: Option::Some(trim_spec(s) + "\r\n"@),
                local: Option::None,
            },
            AttrOutcomeView::ReadBack(Result::Err(e)) => OutputView {
                peer: Option::Some("Failed to read power_cap ("@ + spec_error_message(e) + ")\r\n"@),
                local: Option::None,
            },
            _ => OutputView { peer: Option::None, local: Option::None },
        },
        CommandView::Test(arg) => OutputView {
            peer: Option::None,
            local: Option::Some("Received test argument: "@ + arg),
        },
        CommandView::Unknown(raw) => OutputView { peer: Option::None, local: Option::Some(raw) },
    }
}

/// The attribute access this command needs, exactly as `spec_plan` says.
pub fn plan(cmd: &Command) -> (a: Action)
    ensures
        a == spec_plan(cmd@),
{
    match cmd {
        Command::SetPowerLimit(v) => Action::WriteCurrentLimit(*v),
        Command::GetPowerLimit => Action::ReadAttr(AttrKind::CurrentLimit),
        Command::GetPowerMax => Action::ReadAttr(AttrKind::MaxLimit),
        Command::GetPowerMin => Action::ReadAttr(AttrKind::MinLimit),
        Command::Test(_) => Action::NoAccess,
        Command::Unknown(_) => Action::NoAccess,
    }
}

/// Turn a command and the outcome of its attribute access into the response
/// it owes, exactly as `spec_respond` says.
pub fn respond(cmd: Command, outcome: AttrOutcome) -> (out: Output)
    requires
        outcome_fits(cmd@, outcome@),
    ensures
        out@ == spec_respond(cmd@, outcome@),
{
    match cmd {
        Command::SetPowerLimit(_) => match outcome {
            AttrOutcome::Wrote(Result::Ok(_)) => Output {
                peer: Option::None,
                local: Option::Some(String::from_str("Successfully set GPU power limit.")),
            },
            AttrOutcome::Wrote(Result::Err(e)) => {
                let m = e.message();
                Output {
                    peer: Option::None,
                    local: Option::Some(
                        String::from_str("Failed to set GPU power limit: ").concat(m.as_str()),
                    ),
                }
            },
            _ => vstd::pervasive::unreached(),
        },
        Command::GetPowerLimit | Command::GetPowerMax | Command::GetPowerMin => match outcome {
            AttrOutcome::ReadBack(Result::Ok(s)) => Output {
                peer: Option::Some(trim_str(s.as_str()).concat("\r\n")),
                local: Option::None,
            },
            AttrOutcome::ReadBack(Result::Err(e)) => {
                let m = e.message();
                Output {
                    peer: Option::Some(
                        String::from_str("Failed to read power_cap (").concat(m.as_str()).concat(
                            ")\r\n",
                        ),
                    ),
                    local: Option::None,
                }
            },
            _ => vstd::pervasive::unreached(),
        },
        Command::Test(arg) => Output {
            peer: Option::None,
            local: Option::Some(
                String::from_str("Received test argument: ").concat(arg.as_str()),
            ),
        },
        Command::Unknown(raw) => Output { peer: Option::None, local: Option::Some(raw) },
    }
}

/// An abstract image of the hardware control surface: the text each of the
/// three attributes holds.  It stands in for the real attribute files when
/// the executor's behaviour across commands is stated and tested.
pub struct StoreModel {
    pub current: Seq<char>,
    pub max_limit: Seq<char>,
    pub min_limit: Seq<char>,
}

/// The text a read of one attribute returns.
pub open spec fn store_read(s: StoreModel, k: AttrKind) -> Seq<char> {
    match k {
        AttrKind::CurrentLimit => s.current,
        AttrKind::MaxLimit => s.max_limit,
        AttrKind::MinLimit => s.min_limit,
    }
}

/// What a fulfilled action means for the attributes: a set writes the
/// decimal text of its value to the current limit; reads and access-free
/// commands change nothing.
pub open spec fn store_apply(s: StoreModel, a: Action) -> StoreModel {
    match a {
        Action::WriteCurrentLimit(v) => StoreModel {
            current: dec_rep(v as nat),
            max_limit: s.max_limit,
            min_limit: s.min_limit,
        },
        Action::ReadAttr(_) => s,
        Action::NoAccess => s,
    }
}

} // verus!

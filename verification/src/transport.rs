//! The read-loop side of the bridge: what one transport read attempt means
//! for the protocol engine.
//!
//! The binary performs the bounded-wait read on the serial port and reports
//! it as a `ReadEvent`; `poll_step` decides what the loop does with it.  A
//! timeout is the expected idle case and asks for nothing; a real read
//! failure is reported locally and the loop goes on; received bytes are
//! decoded as one lossy UTF-8 line and classified.  Chunks are not
//! reassembled across reads: each read's bytes are one decodable unit.

use vstd::prelude::*;
use crate::matcher::{parse_command, spec_parse, Command, CommandView};

verus! {

/// What one bounded-wait read attempt on the transport came to.
pub enum ReadEvent {
    /// The bytes one successful read returned.
    Data(Vec<u8>),
    /// No data arrived within the timeout: the idle case, not an error.
    TimedOut,
    /// A real input failure, with its description.
    Failed(String),
}

/// Ghost image of a `ReadEvent`.
pub enum ReadEventView {
    Data(Seq<u8>),
    TimedOut,
    Failed(Seq<char>),
}

impl View for ReadEvent {
    type V = ReadEventView;

    open spec fn view(&self) -> ReadEventView {
        match self {
            ReadEvent::Data(bytes) => ReadEventView::Data(bytes@),
            ReadEvent::TimedOut => ReadEventView::TimedOut,
            ReadEvent::Failed(m) => ReadEventView::Failed(m@),
        }
    }
}

/// What the loop does with one read attempt.
#[derive(Debug, PartialEq, Eq)]
pub enum PollStep {
    /// Execute this classified command, then return to reading.
    Dispatch(Command),
    /// Do nothing this turn: no decode, no match, no response.
    Idle,
    /// Mirror this failure to local diagnostics, then return to reading.
    Report(String),
}

/// Ghost image of a `PollStep`.
pub enum PollStepView {
    Dispatch(CommandView),
    Idle,
    Report(Seq<char>),
}

impl View for PollStep {
    type V = PollStepView;

    open spec fn view(&self) -> PollStepView {
        match self {
            PollStep::Dispatch(c) => PollStepView::Dispatch(c@),
            PollStep::Idle => PollStepView::Idle,
            PollStep::Report(m) => PollStepView::Report(m@),
        }
    }
}

/// The characters that best-effort UTF-8 decoding makes of a byte chunk,
/// invalid sequences replaced.
pub uninterp spec fn lossy_utf8(bytes: Seq<u8>) -> Seq<char>;

/// Relies on `String::from_utf8_lossy`: the decode never fails, depends on
/// the bytes alone, and passes ASCII bytes through unchanged.
#[verifier::external_body]
fn utf8_lossy(chunk: &[u8]) -> (r: String)
    ensures
        r@ == lossy_utf8(chunk@),
        (forall|i: int| 0 <= i < chunk@.len() ==> chunk@[i] < 0x80) ==> r@ == chunk@.map_values(
            |b: u8| b as char,
        ),
{
    String::from_utf8_lossy(chunk).into_owned()
}

/// What one read event asks of the loop.
pub open spec fn spec_poll(e: ReadEventView) -> PollStepView {
    match e {
        ReadEventView::Data(bytes) => PollStepView::Dispatch(spec_parse(lossy_utf8(bytes))),
        ReadEventView::TimedOut => PollStepView::Idle,
        ReadEventView::Failed(m) => PollStepView::Report(m),
    }
}

/// Decide one loop turn, exactly as `spec_poll` says: decode and classify
/// received bytes, stay idle on a timeout, report a real failure.
pub fn poll_step(event: ReadEvent) -> (step: PollStep)
    ensures
        step@ == spec_poll(event@),
{
    match event {
        ReadEvent::Data(chunk) => {
            let line = utf8_lossy(chunk.as_slice());
            PollStep::Dispatch(parse_command(line.as_str()))
        },
        ReadEvent::TimedOut => PollStep::Idle,
        ReadEvent::Failed(m) => PollStep::Report(m),
    }
}

} // verus!

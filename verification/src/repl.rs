//! The interactive session's state machine.
//!
//! The session reads one line per iteration, accumulates partial statements
//! in a buffer, and submits the buffer to the collaborator's incremental
//! compiler. The compiler's outcome — success, failure, or "needs more
//! input" — and the read-side signals (interrupt, end of input) drive the
//! two states: `Fresh` (no pending partial input, primary prompt) and
//! `Continuation` (the buffer holds an incomplete statement, secondary
//! prompt).

use vstd::prelude::*;

verus! {

/// The session's mutable state: the accumulated input buffer and whether
/// the session is continuing an incomplete statement.
pub struct ReplState {
    /// Accumulated source text, cleared on each terminal outcome.
    pub buffer: String,
    /// True in state `Continuation`, false in state `Fresh`.
    pub continuing: bool,
}

/// What to do with a line once absorbed.
pub enum LineDisposition {
    /// Keep reading: the line extends an incomplete statement.
    Gather,
    /// Submit the buffer to the compiler. `forced` says an empty line ended
    /// a continuation, so an incomplete-input outcome is surfaced instead of
    /// waiting for more input.
    Submit { forced: bool },
}

/// How submitting the buffer to the collaborator went: the compile either
/// succeeded and the unit ran (to success or to an uncaught exception), or
/// failed outright, or signalled incomplete input at end of stream.
pub enum ExecStatus {
    /// Compiled and ran to completion.
    Success,
    /// A syntax error other than incomplete input, or an uncaught exception
    /// while running.
    Failure,
    /// The buffer is a valid prefix of a larger statement.
    NeedsMore,
}

impl ReplState {
    /// A session starts `Fresh` with an empty buffer.
    pub fn new() -> (s: ReplState)
        ensures
            s.buffer@ == Seq::<char>::empty(),
            !s.continuing,
    {
        ReplState { buffer: String::new(), continuing: false }
    }

    /// Absorb one read line: the line plus a newline is appended to the
    /// buffer, and the line decides whether to keep reading or to submit.
    /// An empty line during a continuation forces the state back to `Fresh`
    /// before the compile attempt; any line in `Fresh` submits at once.
    pub fn absorb_line(&mut self, line: &str) -> (d: LineDisposition)
        ensures
            final(self).buffer@ == old(self).buffer@ + line@ + "\n"@,
            old(self).continuing && line@.len() > 0 ==> d == LineDisposition::Gather
                && final(self).continuing,
            old(self).continuing && line@.len() == 0 ==> d == (LineDisposition::Submit {
                forced: true,
            }) && !final(self).continuing,
            !old(self).continuing ==> d == (LineDisposition::Submit { forced: false })
                && !final(self).continuing,
    {
        self.buffer.append(line);
        self.buffer.append("\n");
        if self.continuing {
            if line.unicode_len() == 0 {
                self.continuing = false;
                LineDisposition::Submit { forced: true }
            } else {
                LineDisposition::Gather
            }
        } else {
            LineDisposition::Submit { forced: false }
        }
    }

    /// Settle the submitted buffer against the collaborator's outcome.
    /// Returns whether a failure is to be reported this iteration.
    ///
    /// An incomplete-input signal keeps the buffer and enters `Continuation`
    /// — unless the submission was forced by an empty line, in which case it
    /// is surfaced like any other compile failure. Every other outcome
    /// clears the buffer and returns to `Fresh`; only failures are reported.
    pub fn settle(&mut self, forced: bool, status: ExecStatus) -> (report: bool)
        ensures
            status is NeedsMore && !forced ==> final(self).continuing && final(self).buffer@ == old(
                self,
            ).buffer@ && !report,
            status is NeedsMore && forced ==> !final(self).continuing && final(self).buffer@
                == Seq::<char>::empty() && report,
            status is Success ==> !final(self).continuing && final(self).buffer@
                == Seq::<char>::empty() && !report,
            status is Failure ==> !final(self).continuing && final(self).buffer@
                == Seq::<char>::empty() && report,
    {
        match status {
            ExecStatus::NeedsMore => {
                if forced {
                    self.buffer = String::new();
                    self.continuing = false;
                    true
                } else {
                    self.continuing = true;
                    false
                }
            },
            ExecStatus::Success => {
                self.buffer = String::new();
                self.continuing = false;
                false
            },
            ExecStatus::Failure => {
                self.buffer = String::new();
                self.continuing = false;
                true
            },
        }
    }

    /// An interrupt during the blocking read: the pending buffer is
    /// abandoned and the session returns to `Fresh`; the loop goes on.
    pub fn interrupt(&mut self)
        ensures
            final(self).buffer@ == Seq::<char>::empty(),
            !final(self).continuing,
    {
        self.buffer = String::new();
        self.continuing = false;
    }
}

/// One blocking read's outcome, as the line editor reports it.
pub enum ReadEvent {
    /// A line was read.
    Line(String),
    /// The read was interrupted.
    Interrupted,
    /// End of input: no more lines will come.
    EndOfInput,
    /// Any other read failure.
    Failed,
}

/// What the session does after one read.
pub enum SessionAction {
    /// Keep reading: the line extends an incomplete statement.
    ReadMore,
    /// Submit the buffer to the compiler; see [`LineDisposition::Submit`].
    Submit { forced: bool },
    /// Report the synthesized interrupt condition, then keep reading.
    ReportInterrupt,
    /// End the loop and go to shutdown, where history is persisted.
    Shutdown,
}

impl ReplState {
    /// Drive the session by one read event. A line is absorbed as in
    /// [`ReplState::absorb_line`]; an interrupt abandons the buffer, is
    /// reported, and the loop goes on; end of input and any other read
    /// failure end the session.
    pub fn handle_read(&mut self, event: &ReadEvent) -> (a: SessionAction)
        ensures
            *event is Line ==> final(self).buffer@ == old(self).buffer@ + (*event)->Line_0@
                + "\n"@,
            *event is Line && old(self).continuing && (*event)->Line_0@.len() > 0 ==> a
                == SessionAction::ReadMore && final(self).continuing,
            *event is Line && old(self).continuing && (*event)->Line_0@.len() == 0 ==> a
                == (SessionAction::Submit { forced: true }) && !final(self).continuing,
            *event is Line && !old(self).continuing ==> a == (SessionAction::Submit {
                forced: false,
            }) && !final(self).continuing,
            *event is Interrupted ==> a == SessionAction::ReportInterrupt && final(self).buffer@
                == Seq::<char>::empty() && !final(self).continuing,
            *event is EndOfInput ==> a == SessionAction::Shutdown && *final(self) == *old(self),
            *event is Failed ==> a == SessionAction::Shutdown && *final(self) == *old(self),
    {
        match event {
            ReadEvent::Line(l) => match self.absorb_line(l.as_str()) {
                LineDisposition::Gather => SessionAction::ReadMore,
                LineDisposition::Submit { forced } => SessionAction::Submit { forced },
            },
            ReadEvent::Interrupted => {
                self.interrupt();
                SessionAction::ReportInterrupt
            },
            ReadEvent::EndOfInput => SessionAction::Shutdown,
            ReadEvent::Failed => SessionAction::Shutdown,
        }
    }
}

/// The prompt the session shows: the secondary prompt while continuing, the
/// primary one otherwise; an absent prompt is the empty text.
pub open spec fn prompt_spec(
    continuing: bool,
    primary: Option<String>,
    secondary: Option<String>,
) -> Seq<char> {
    let chosen = if continuing {
        secondary
    } else {
        primary
    };
    match chosen {
        Some(p) => p@,
        None => Seq::<char>::empty(),
    }
}

/// Choose the prompt for the current state from the session-global lookups,
/// which may be absent.
pub fn prompt_text(continuing: bool, primary: Option<String>, secondary: Option<String>) -> (p:
    String)
    ensures
        p@ == prompt_spec(continuing, primary, secondary),
{
    let chosen = if continuing {
        secondary
    } else {
        primary
    };
    match chosen {
        Some(p) => p,
        None => String::new(),
    }
}

} // verus!

//! Sessions: one per connected client.
//!
//! A session is `Connecting` until the connection is accepted, `Syncing` while the full state
//! is on its way to the client, `Streaming` while the client receives what is new, and
//! `Closed` for ever after the client has left or the connection has failed. Whoever owns the
//! connection tells the session what happened; the session answers what to do, and `serve`
//! does it against the state of the process. Only a streaming session can change that state,
//! and only by a command that the state accepts.

use crate::chart::Cursor;
use crate::error::Error;
use crate::msg::{Command, Message, MessageView, SessionCursor};
use crate::state::{Model, State};
use vstd::prelude::*;

verus! {

/// Where a session is in its life.
#[derive(Debug, Clone, Copy, PartialEq, Eq, Structural, Hash)]
pub enum Phase {
    /// The connection is not accepted yet.
    Connecting,
    /// The full state is being sent.
    Syncing,
    /// The client has the full state and receives what is new.
    Streaming,
    /// The session is over.
    Closed,
}

/// What happened on a connection.
#[derive(Debug, PartialEq, Eq)]
pub enum Input {
    /// The connection was accepted.
    Accepted,
    /// The full state has been written to the client.
    Synced,
    /// The state of the process may have changed.
    Wake,
    /// The client sent a command.
    Request(Command),
    /// The client sent something that is no command.
    Garbled,
    /// Reading from or writing to the client failed.
    Failed,
    /// The client left.
    Left,
}

/// What a session wants done.
#[derive(Debug, PartialEq, Eq)]
pub enum Output {
    /// Nothing.
    Nothing,
    /// Send the full state to the client.
    SendFullSync,
    /// Send the client what is new since its cursor.
    SendUpdates,
    /// Hand the command to the state of the process.
    Submit(Command),
    /// Tell the client that its command is rejected.
    Reject(Error),
    /// Forget the session and its cursor.
    Discard,
}

/// The phase after `input` arrives in `phase`, and what is to be done.
///
/// Commands are taken from a streaming session only; before that they are rejected, as is at
/// any time what is no command. A failure or a departure closes the session, whatever its
/// phase. Nothing happens to a closed session any more.
pub open spec fn next(phase: Phase, input: Input) -> (Phase, Output) {
    match phase {
        Phase::Closed => (Phase::Closed, Output::Nothing),
        _ => match input {
            Input::Failed => (Phase::Closed, Output::Discard),
            Input::Left => (Phase::Closed, Output::Discard),
            Input::Accepted => if phase == Phase::Connecting {
                (Phase::Syncing, Output::SendFullSync)
            } else {
                (phase, Output::Nothing)
            },
            Input::Synced => if phase == Phase::Syncing {
                (Phase::Streaming, Output::SendUpdates)
            } else {
                (phase, Output::Nothing)
            },
            Input::Wake => if phase == Phase::Streaming {
                (phase, Output::SendUpdates)
            } else {
                (phase, Output::Nothing)
            },
            Input::Request(command) => if phase == Phase::Streaming {
                (phase, Output::Submit(command))
            } else {
                (phase, Output::Reject(Error::InvalidClientCommand))
            },
            Input::Garbled => (phase, Output::Reject(Error::InvalidClientCommand)),
        },
    }
}

/// A session.
#[derive(Debug, Clone, Copy, PartialEq, Eq, Structural, Hash)]
pub struct Session {
    /// Where the session is in its life.
    pub phase: Phase,
    /// What the client has received.
    pub cursor: SessionCursor,
}

/// What serving `input` leaves behind: the session, the state of the process, and the messages
/// for the client.
pub open spec fn served(session: Session, model: Model, input: Input) -> (
    Session,
    Model,
    Seq<MessageView>,
) {
    let (phase, output) = next(session.phase, input);
    match output {
        Output::Nothing => (Session { phase, ..session }, model, Seq::empty()),
        Output::Discard => (Session { phase, ..session }, model, Seq::empty()),
        Output::SendFullSync => (
            Session { phase, cursor: model.cursor() },
            model,
            seq![model.full_sync()],
        ),
        Output::SendUpdates => (
            Session { phase, cursor: model.cursor() },
            model,
            model.pending(session.cursor),
        ),
        Output::Submit(command) => match model.commanded(command) {
            Some(after) => (Session { phase, ..session }, after, Seq::empty()),
            None => (
                Session { phase, ..session },
                model,
                seq![MessageView::Rejected { error: Error::InvalidClientCommand }],
            ),
        },
        Output::Reject(error) => (
            Session { phase, ..session },
            model,
            seq![MessageView::Rejected { error }],
        ),
    }
}

impl Session {
    /// A session for a connection that is not accepted yet.
    pub fn new() -> (res: Self)
        ensures
            res == (Session {
                phase: Phase::Connecting,
                cursor: SessionCursor { chart: Cursor { epoch: 0, seq: 0 }, notices: 0 },
            }),
    {
        Session { phase: Phase::Connecting, cursor: SessionCursor::start() }
    }

    /// True once the session is over.
    pub fn is_closed(&self) -> (res: bool)
        ensures
            res == (self.phase == Phase::Closed),
    {
        self.phase == Phase::Closed
    }

    /// Takes in what happened on the connection, moves to the next phase, and says what is to
    /// be done.
    pub fn step(&mut self, input: Input) -> (res: Output)
        ensures
            (final(self).phase, res) == next(old(self).phase, input),
            final(self).cursor == old(self).cursor,
    {
        let (phase, output) = match self.phase {
            Phase::Closed => (Phase::Closed, Output::Nothing),
            phase => match input {
                Input::Failed => (Phase::Closed, Output::Discard),
                Input::Left => (Phase::Closed, Output::Discard),
                Input::Accepted => if phase == Phase::Connecting {
                    (Phase::Syncing, Output::SendFullSync)
                } else {
                    (phase, Output::Nothing)
                },
                Input::Synced => if phase == Phase::Syncing {
                    (Phase::Streaming, Output::SendUpdates)
                } else {
                    (phase, Output::Nothing)
                },
                Input::Wake => if phase == Phase::Streaming {
                    (phase, Output::SendUpdates)
                } else {
                    (phase, Output::Nothing)
                },
                Input::Request(command) => if phase == Phase::Streaming {
                    (phase, Output::Submit(command))
                } else {
                    (phase, Output::Reject(Error::InvalidClientCommand))
                },
                Input::Garbled => (phase, Output::Reject(Error::InvalidClientCommand)),
            },
        };
        self.phase = phase;
        output
    }

    /// Takes in what happened on the connection and does what is to be done: returns the
    /// messages for the client, moves the cursor past them, and hands a command to the state.
    pub fn serve(&mut self, state: &mut State, input: Input) -> (res: Vec<Message>)
        requires
            old(state).wf(),
        ensures
            final(state).wf(),
            (*final(self), final(state)@, res@.map_values(|message: Message| message@)) == served(
                *old(self),
                old(state)@,
                input,
            ),
    {
        let mut res: Vec<Message> = Vec::new();
        assert(res@.map_values(|message: Message| message@) =~= Seq::empty());
        match self.step(input) {
            Output::Nothing => {},
            Output::Discard => {},
            Output::SendFullSync => {
                let (message, cursor) = state.full_sync();
                self.cursor = cursor;
                res.push(message);
                assert(res@.map_values(|message: Message| message@) =~= seq![
                    old(state)@.full_sync(),
                ]);
            },
            Output::SendUpdates => {
                let mut cursor = self.cursor;
                res = state.drain(&mut cursor);
                self.cursor = cursor;
            },
            Output::Submit(command) => match state.command(command) {
                Ok(_) => {},
                Err(error) => {
                    res.push(Message::Rejected { error });
                    assert(res@.map_values(|message: Message| message@) =~= seq![
                        MessageView::Rejected { error: Error::InvalidClientCommand },
                    ]);
                },
            },
            Output::Reject(error) => {
                res.push(Message::Rejected { error });
                assert(res@.map_values(|message: Message| message@) =~= seq![
                    MessageView::Rejected { error },
                ]);
            },
        }
        res
    }
}

/// A closed session stays closed, says nothing and changes nothing.
pub proof fn lemma_closed_is_final(session: Session, model: Model, input: Input)
    requires
        session.phase == Phase::Closed,
    ensures
        served(session, model, input) == (session, model, Seq::<MessageView>::empty()),
{
}

/// Only a streaming session that sends a command can change the state of the process.
pub proof fn lemma_only_commands_change_state(session: Session, model: Model, input: Input)
    requires
        !(session.phase == Phase::Streaming && input is Request),
    ensures
        served(session, model, input).1 == model,
{
}

/// A session never goes back to an earlier phase.
pub proof fn lemma_phase_advances(phase: Phase, input: Input)
    ensures
        phase_rank(phase) <= phase_rank(next(phase, input).0),
{
}

/// Rank of a phase in the life of a session.
pub open spec fn phase_rank(phase: Phase) -> int {
    match phase {
        Phase::Connecting => 0,
        Phase::Syncing => 1,
        Phase::Streaming => 2,
        Phase::Closed => 3,
    }
}

} // verus!

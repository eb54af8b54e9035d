//! Messages between the server and its clients.
//!
//! Every message stands alone. A `Delta` names the position in its series at which its points
//! begin, so deltas are applied in the order they arrive.

use crate::chart::{Cursor, Delta, DeltaView};
use crate::color::Color;
use crate::error::Error;
use crate::filter::pred::Predicate;
use crate::filter::spec::{FilterSpec, FilterSpecView};
use crate::filter::Mutation;
use crate::uid::{FilterUid, LineUid};
use vstd::prelude::*;

verus! {

/// What a client may ask the server to do.
#[derive(Debug, PartialEq, Eq)]
pub enum Command {
    /// Create a user filter with this color and predicate.
    Add {
        /// Color of the new filter.
        color: Color,
        /// Predicate of the new filter.
        pred: Predicate,
    },
    /// Remove a user filter.
    Remove {
        /// Identifier of the filter.
        filter: FilterUid,
    },
    /// Change one line.
    Edit {
        /// Identity of the line.
        uid: LineUid,
        /// The change.
        mutation: Mutation,
    },
}

/// A message on the wire.
#[derive(Debug, PartialEq, Eq)]
pub enum Message {
    /// The whole state, sent once when a client connects.
    FullSync {
        /// The specifications of all lines, in the order they are shown.
        filters: Vec<FilterSpec>,
        /// Every series, whole.
        series: Vec<Delta>,
    },
    /// New points of one series.
    Delta(Delta),
    /// A line was created or changed.
    FilterChanged {
        /// The specification of the line as it is now.
        spec: FilterSpec,
    },
    /// A user filter was removed.
    FilterRemoved {
        /// Identifier of the filter.
        uid: FilterUid,
    },
    /// A client asks for a change.
    ClientEdit(Command),
    /// The server could not do what the client asked.
    Rejected {
        /// Why.
        error: Error,
    },
}

/// A message as the contracts see it; a client's request is seen as it is.
pub enum MessageView {
    /// The whole state.
    FullSync {
        /// The specifications of all lines, in the order they are shown.
        filters: Seq<FilterSpecView>,
        /// Every series, whole.
        series: Seq<DeltaView>,
    },
    /// New points of one series.
    Delta(DeltaView),
    /// A line was created or changed.
    FilterChanged {
        /// The specification of the line as it is now.
        spec: FilterSpecView,
    },
    /// A user filter was removed.
    FilterRemoved {
        /// Identifier of the filter.
        uid: FilterUid,
    },
    /// A client asks for a change.
    ClientEdit(Command),
    /// The server could not do what the client asked.
    Rejected {
        /// Why.
        error: Error,
    },
}

impl View for Message {
    type V = MessageView;

    open spec fn view(&self) -> MessageView {
        match *self {
            Message::FullSync { filters, series } => MessageView::FullSync {
                filters: filters@.map_values(|spec: FilterSpec| spec@),
                series: series@.map_values(|delta: Delta| delta@),
            },
            Message::Delta(delta) => MessageView::Delta(delta@),
            Message::FilterChanged { spec } => MessageView::FilterChanged { spec: spec@ },
            Message::FilterRemoved { uid } => MessageView::FilterRemoved { uid },
            Message::ClientEdit(command) => MessageView::ClientEdit(command),
            Message::Rejected { error } => MessageView::Rejected { error },
        }
    }
}

/// The position of a session in what the server has to say.
#[derive(Debug, Clone, Copy, PartialEq, Eq, Structural, Hash)]
pub struct SessionCursor {
    /// Position in the charts.
    pub chart: Cursor,
    /// Number of changes of lines that the session has received.
    pub notices: usize,
}

impl SessionCursor {
    /// The cursor of a session that has received nothing.
    pub fn start() -> (res: Self)
        ensures
            res == (SessionCursor { chart: Cursor { epoch: 0, seq: 0 }, notices: 0 }),
    {
        SessionCursor { chart: Cursor::start(), notices: 0 }
    }
}

} // verus!

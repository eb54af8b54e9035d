//! Identities of the lines a chart can draw.

use vstd::prelude::*;

verus! {

/// Identifier of a user-defined filter.
///
/// Identifiers are handed out in increasing order and never reused.
#[derive(Debug, Clone, Copy, PartialEq, Eq, Structural, Hash)]
pub struct FilterUid {
    /// Rank of the filter among all the filters ever created.
    pub uid: u64,
}

impl FilterUid {
    /// The identifier of rank `uid`.
    pub fn new(uid: u64) -> (res: Self)
        ensures
            res.uid == uid,
    {
        FilterUid { uid }
    }

    /// Rank of the filter among all the filters ever created.
    pub fn get(&self) -> (res: u64)
        ensures
            res == self.uid,
    {
        self.uid
    }
}

/// Identity of a line: a user filter or one of the two built-in lines.
#[derive(Debug, Clone, Copy, PartialEq, Eq, Structural, Hash)]
pub enum LineUid {
    /// A user-defined filter.
    Filter(FilterUid),
    /// The line made of whatever all user filters miss.
    CatchAll,
    /// The line made of every allocation.
    Everything,
}

impl LineUid {
    /// The filter identifier behind this line, if it is a user filter.
    pub fn filter_uid(&self) -> (res: Option<FilterUid>)
        ensures
            res == match *self {
                LineUid::Filter(uid) => Some(uid),
                _ => None,
            },
    {
        match self {
            LineUid::Filter(uid) => Some(*uid),
            _ => None,
        }
    }

    /// True for the two built-in lines, which carry no predicate.
    pub fn is_builtin(&self) -> (res: bool)
        ensures
            res == !(*self is Filter),
    {
        match self {
            LineUid::Filter(_) => false,
            _ => true,
        }
    }
}

} // verus!

//! Filter specification.

use crate::color::Color;
use crate::decimal::{decimal, decimal_text};
use crate::uid::{FilterUid, LineUid};
use vstd::prelude::*;
use vstd::string::StringExecFns;

verus! {

/// A filter specification as the contracts see it.
pub struct FilterSpecView {
    /// Identity of the line.
    pub uid: LineUid,
    /// Name of the filter.
    pub name: Seq<char>,
    /// Color of the filter.
    pub color: Color,
    /// True if the filter has been edited.
    pub edited: bool,
}

/// A filter specification.
///
/// Contains the following:
///
/// - the identity of the line it describes;
/// - a name;
/// - a color;
/// - a flag that tells whether a client has edited it, which classification never reads.
#[derive(Debug, Clone, PartialEq, Eq)]
pub struct FilterSpec {
    uid: LineUid,
    name: String,
    color: Color,
    edited: bool,
}

impl View for FilterSpec {
    type V = FilterSpecView;

    closed spec fn view(&self) -> FilterSpecView {
        FilterSpecView { uid: self.uid, name: self.name@, color: self.color, edited: self.edited }
    }
}

/// The name a user filter has until someone renames it.
pub open spec fn default_name(uid: FilterUid) -> Seq<char> {
    "filter "@ + decimal(uid.uid as nat)
}

/// The specification of the catch-all line at the start of a session.
pub open spec fn catch_all_view() -> FilterSpecView {
    FilterSpecView {
        uid: LineUid::CatchAll,
        name: "catch all"@,
        color: Color { r: 0x01, g: 0x93, b: 0xff },
        edited: false,
    }
}

/// The specification of the everything line at the start of a session.
pub open spec fn everything_view() -> FilterSpecView {
    FilterSpecView {
        uid: LineUid::Everything,
        name: "everything"@,
        color: Color { r: 0xff, g: 0x66, b: 0x00 },
        edited: false,
    }
}

impl FilterSpec {
    /// Constructor for user-defined filters.
    pub fn new(uid: FilterUid, color: Color) -> (res: Self)
        ensures
            res@ == (FilterSpecView {
                uid: LineUid::Filter(uid),
                name: default_name(uid),
                color,
                edited: false,
            }),
    {
        let name = String::from_str("filter ").concat(decimal_text(uid.uid).as_str());
        FilterSpec { uid: LineUid::Filter(uid), name, color, edited: false }
    }

    /// Constructs a specification for the catch-all filter.
    pub fn new_catch_all() -> (res: Self)
        ensures
            res@ == catch_all_view(),
    {
        FilterSpec {
            uid: LineUid::CatchAll,
            name: String::from_str("catch all"),
            color: Color::new(0x01, 0x93, 0xff),
            edited: false,
        }
    }

    /// Constructs a specification for the everything filter.
    pub fn new_everything() -> (res: Self)
        ensures
            res@ == everything_view(),
    {
        FilterSpec {
            uid: LineUid::Everything,
            name: String::from_str("everything"),
            color: Color::new(0xff, 0x66, 0x00),
            edited: false,
        }
    }

    /// UID accessor.
    pub fn uid(&self) -> (res: LineUid)
        ensures
            res == self@.uid,
    {
        self.uid
    }

    /// Value of the `edited` flag.
    pub fn edited(&self) -> (res: bool)
        ensures
            res == self@.edited,
    {
        self.edited
    }

    /// Sets the `edited` flag to true.
    pub fn set_edited(&mut self)
        ensures
            final(self)@ == (FilterSpecView { edited: true, ..old(self)@ }),
    {
        self.edited = true
    }

    /// Sets the `edited` flag to false.
    pub fn unset_edited(&mut self)
        ensures
            final(self)@ == (FilterSpecView { edited: false, ..old(self)@ }),
    {
        self.edited = false
    }

    /// Name accessor.
    pub fn name(&self) -> (res: &str)
        ensures
            res@ == self@.name,
    {
        self.name.as_str()
    }

    /// Name setter.
    pub fn set_name(&mut self, name: String)
        ensures
            final(self)@ == (FilterSpecView { name: name@, ..old(self)@ }),
    {
        self.name = name
    }

    /// Color accessor.
    pub fn color(&self) -> (res: &Color)
        ensures
            *res == self@.color,
    {
        &self.color
    }

    /// Color setter.
    pub fn set_color(&mut self, color: Color)
        ensures
            final(self)@ == (FilterSpecView { color, ..old(self)@ }),
    {
        self.color = color
    }

    /// A specification equal to this one.
    pub fn duplicate(&self) -> (res: Self)
        ensures
            res@ == self@,
    {
        FilterSpec {
            uid: self.uid,
            name: self.name.clone(),
            color: self.color,
            edited: self.edited,
        }
    }
}

} // verus!

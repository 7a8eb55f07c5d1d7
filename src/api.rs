//! Records as the remote time-tracking service sends and receives them.
//!
//! Identifiers and durations travel as JSON numbers, which may be unsigned,
//! negative or fractional; `WireNumber` keeps which of these a number was, so
//! that narrowing it to a fixed-width integer is a decision of the library.
use vstd::prelude::*;

verus! {

/// A JSON number as the service sent it.
#[derive(Clone, Copy, Debug, PartialEq, Eq, Structural)]
pub enum WireNumber {
    /// A whole number of zero or more.
    PosInt(u64),
    /// A whole number below zero.
    NegInt(i64),
    /// A number with a fractional part or an exponent, by its IEEE-754 bits.
    Float(u64),
}

impl WireNumber {
    /// The number as a 64-bit signed integer, when it is a whole number that fits.
    pub open spec fn as_i64_spec(self) -> Option<i64> {
        match self {
            WireNumber::PosInt(u) => if u <= i64::MAX as u64 {
                Some(u as i64)
            } else {
                None
            },
            WireNumber::NegInt(i) => Some(i),
            WireNumber::Float(_) => None,
        }
    }

    pub fn as_i64(&self) -> (r: Option<i64>)
        ensures
            r == self.as_i64_spec(),
    {
        match self {
            WireNumber::PosInt(u) => if *u <= i64::MAX as u64 {
                Some(*u as i64)
            } else {
                None
            },
            WireNumber::NegInt(i) => Some(*i),
            WireNumber::Float(_) => None,
        }
    }

    /// The number that stands for a 64-bit signed integer on the wire.
    pub open spec fn from_i64_spec(i: i64) -> WireNumber {
        if i >= 0 {
            WireNumber::PosInt(i as u64)
        } else {
            WireNumber::NegInt(i)
        }
    }
}

impl From<i64> for WireNumber {
    fn from(i: i64) -> (r: WireNumber)
        ensures
            r == WireNumber::from_i64_spec(i),
    {
        if i >= 0 {
            WireNumber::PosInt(i as u64)
        } else {
            WireNumber::NegInt(i)
        }
    }
}

impl vstd::std_specs::convert::FromSpecImpl<i64> for WireNumber {
    open spec fn obeys_from_spec() -> bool {
        true
    }

    open spec fn from_spec(i: i64) -> WireNumber {
        WireNumber::from_i64_spec(i)
    }
}

/// A time entry as the service reports it.
#[derive(Clone, Debug)]
pub struct TimeEntry {
    pub description: Option<String>,
    /// Elapsed seconds of a stopped entry, or minus the epoch second at which a
    /// running entry started.
    pub duration: WireNumber,
    pub id: WireNumber,
    pub project_id: Option<WireNumber>,
    pub start: Option<String>,
    pub stop: Option<String>,
    pub task_id: Option<WireNumber>,
    pub workspace_id: WireNumber,
}

/// A time entry to create, as the service expects it.
#[derive(Clone, Debug)]
pub struct NewTimeEntry {
    pub created_with: String,
    pub description: Option<String>,
    pub duration: WireNumber,
    pub project_id: Option<WireNumber>,
    pub start: String,
    pub stop: Option<String>,
    pub task_id: Option<WireNumber>,
    pub workspace_id: WireNumber,
}

/// A project as the service reports it.
#[derive(Clone, Debug)]
pub struct Project {
    pub active: bool,
    pub client_id: Option<WireNumber>,
    pub id: WireNumber,
    pub name: String,
    pub workspace_id: WireNumber,
}

/// A workspace as the service reports it.
#[derive(Clone, Debug)]
pub struct Workspace {
    pub id: WireNumber,
    pub name: String,
}

} // verus!

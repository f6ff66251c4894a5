//! Readings of the system clock.
//!
//! What the clock says cannot be stated, but whether a value came from it can.
//! The two predicates below mark the values that a reading of the clock gave.
//! Any instant may be read, so each holds of every value; their definitions are
//! kept to this module, and elsewhere a predicate is known only of the values
//! that the wrappers reading the clock hand out. A contract that asks for one
//! thus says that a result was taken from the clock, not from a time that the
//! code picked itself.
use vstd::prelude::*;

verus! {

/// `t` is a Unix time, in seconds, that a reading of the system clock gave.
pub closed spec fn unix_time_reading(t: int) -> bool {
    true
}

/// `day` is the day number of a date that a reading of the clock in the
/// machine's time zone gave.
pub closed spec fn local_date_reading(day: int) -> bool {
    true
}

} // verus!

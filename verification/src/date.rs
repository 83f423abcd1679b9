//! Calendar dates: the day on which a price was observed. The library
//! reads no clock: the caller says which day it is.

use vstd::prelude::*;

verus! {

/// A day of the calendar, without a time of day.
#[derive(Clone, Copy, Debug, PartialEq, Eq, Structural)]
pub struct Date {
    pub year: i32,
    pub month: u32,
    pub day: u32,
}

} // verus!

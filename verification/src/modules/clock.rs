//! The clock of the bar.

use vstd::prelude::*;
use vstd::string::*;

use crate::calendar::{clock_text, date_text, formatted_time, is_time, time_text, LocalTime};

verus! {

/// The text of the clock, kept until it is updated.
pub struct Clock {
    value: String,
}

impl View for Clock {
    type V = Seq<char>;

    closed spec fn view(&self) -> Seq<char> {
        self.value@
    }
}

/// Whether a text is that of a time.
pub open spec fn shows(text: Seq<char>, now: LocalTime) -> bool {
    &&& text == formatted_time(now, "%Y-%m-%d %H:%M:%S"@)
    &&& 0 <= now.year <= 9999 ==> text == date_text(now) + " "@ + time_text(now, ":"@)
}

impl Clock {
    /// A clock that shows a time.
    pub fn new(now: &LocalTime) -> (r: Self)
        requires
            is_time(*now),
        ensures
            shows(r@, *now),
    {
        Clock { value: clock_text(now) }
    }

    /// Updates the clock.
    pub fn tick(&mut self, now: &LocalTime)
        requires
            is_time(*now),
        ensures
            shows(final(self)@, *now),
    {
        self.value = clock_text(now);
    }

    /// What the clock shows.
    pub fn value(&self) -> (r: &str)
        ensures
            r@ == self@,
    {
        self.value.as_str()
    }
}

} // verus!

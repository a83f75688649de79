//! Dates as clients write them.

use crate::refusal::Refusal;
use crate::time::{calendar_day, parsed_day, Date};
use vstd::prelude::*;

verus! {

/// The day that a client's text names: year, month and day.
pub open spec fn named_day(text: Seq<char>) -> Option<(int, int, int)> {
    parsed_day(text, "%Y-%m-%d"@)
}

/// The result of reading a client's date.
pub open spec fn reads_date(text: Seq<char>, r: Result<Date, Refusal>) -> bool {
    match r {
        Ok(date) => named_day(text) == Some(date.ymd()),
        Err(why) => named_day(text) is None && why is InvalidDate,
    }
}

/// A text that prints a day names that day.
pub open spec fn reads_back(text: Seq<char>) -> bool {
    forall|d: Date|
        #![trigger d.text()]
        calendar_day(d.ymd().0, d.ymd().1, d.ymd().2) && text == d.text() ==> named_day(text)
            == Some(d.ymd())
}

/// Reads a date of the form `YYYY-MM-DD`.
pub fn parse_date(value: &str) -> (r: Result<Date, Refusal>)
    ensures
        reads_date(value@, r),
        reads_back(value@),
        r matches Ok(d) ==> calendar_day(d.ymd().0, d.ymd().1, d.ymd().2),
        forall|d: Date|
            #![trigger d.text()]
            calendar_day(d.ymd().0, d.ymd().1, d.ymd().2) && value@ == d.text() ==> r == Ok::<
                Date,
                Refusal,
            >(d),
{
    match Date::parse(value) {
        Some(date) => Ok(date),
        None => Err(Refusal::InvalidDate),
    }
}

} // verus!

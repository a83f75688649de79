//! Days, points in time, texts and replies: what the rest is said in.

use crate::controllers::calendar_controller::{parse_date_range, parse_one_date};
use crate::controllers::dates::{named_day, parse_date};
use crate::refusal::{Refusal, StatusCode};
use crate::text::{is_text_before, text_lt};
use crate::time::{day_text, parsed_day, rfc3339_text, Date, Timestamp};
use vstd::prelude::*;

verus! {

/// A date can be made of a year, a month and a day of the proleptic Gregorian calendar,
/// and of nothing else; it is the date of those three.
pub proof fn which_days_exist(year: i32, month: u32, day: u32, r: Option<Date>)
    requires
        call_ensures(Date::new, (year, month, day), r),
    ensures
        r is Some <==> -262143 <= year <= 262142 && 1 <= day && match month {
            1 | 3 | 5 | 7 | 8 | 10 | 12 => day <= 31,
            4 | 6 | 9 | 11 => day <= 30,
            2 => day <= 28 || day == 29 && (year as int) % 4 == 0 && ((year as int) % 100 != 0 || (
            year as int) % 400 == 0),
            _ => false,
        },
        r matches Some(d) ==> d.ymd() == (year as int, month as int, day as int),
{
}

/// A day comes before another exactly if it is nearer to the beginning, as months of
/// thirty-one days count.
pub proof fn when_a_day_comes_before(a: Date, b: Date, r: bool)
    requires
        1 <= a.ymd().1 <= 12,
        1 <= a.ymd().2 <= 31,
        1 <= b.ymd().1 <= 12,
        1 <= b.ymd().2 <= 31,
        call_ensures(Date::is_before, (&a, &b), r),
    ensures
        r <==> 372 * a.ymd().0 + 31 * a.ymd().1 + a.ymd().2 < 372 * b.ymd().0 + 31 * b.ymd().1
            + b.ymd().2,
{
}

/// A text is read as a date exactly if it names a day as `YYYY-MM-DD`, and the date is
/// that day; any other text is refused as no date.
pub proof fn which_texts_are_dates(
    text: &str,
    r: Option<Date>,
    s: Result<Date, Refusal>,
    u: Result<Date, Refusal>,
)
    requires
        call_ensures(Date::parse, (text,), r),
        call_ensures(parse_date, (text,), s),
        call_ensures(parse_one_date, (text,), u),
    ensures
        match parsed_day(text@, "%Y-%m-%d"@) {
            Some(day) => {
                &&& r matches Some(d) && d.ymd() == day
                &&& s matches Ok(d) && d.ymd() == day
                &&& u matches Ok(d) && d.ymd() == day
                &&& named_day(text@) == Some(day)
            },
            None => {
                &&& r is None
                &&& s matches Err(why) && why is InvalidDate
                &&& u matches Err(why) && why is InvalidDate
                &&& named_day(text@) is None
            },
        },
{
}

/// Two texts are read as a range of days exactly if both name a day, and the last is not
/// before the first.
pub proof fn which_texts_are_ranges(from: &str, to: &str, r: Result<(Date, Date), Refusal>)
    requires
        call_ensures(parse_date_range, (from, to), r),
    ensures
        match (parsed_day(from@, "%Y-%m-%d"@), parsed_day(to@, "%Y-%m-%d"@)) {
            (Some(a), Some(b)) => {
                let inverted = b.0 < a.0 || b.0 == a.0 && (b.1 < a.1 || b.1 == a.1 && b.2 < a.2);
                match r {
                    Ok(range) => !inverted && range.0.ymd() == a && range.1.ymd() == b,
                    Err(why) => inverted && why is StartAfterEnd,
                }
            },
            _ => r matches Err(why) && why is InvalidDate,
        },
{
}

/// A date is printed as `YYYY-MM-DD`, a point in time as RFC 3339 writes it under its
/// own offset.
pub proof fn how_time_is_printed(a: Date, day: String, b: Timestamp, time: String)
    requires
        call_ensures(Date::to_string, (&a,), day),
        call_ensures(Timestamp::to_rfc3339, (&b,), time),
    ensures
        day@ == day_text(a.ymd().0, a.ymd().1, a.ymd().2),
        time@ == rfc3339_text(b.instant().0, b.instant().1, b.offset()),
{
}

/// A date that is printed and read again is the same date.
pub proof fn dates_are_read_as_they_are_printed(
    a: Date,
    printed: String,
    text: &str,
    r: Option<Date>,
)
    requires
        call_ensures(Date::to_string, (&a,), printed),
        call_ensures(Date::parse, (text,), r),
        text@ == printed@,
    ensures
        r == Some(a),
{
    assert(text@ == a.text());
}

/// A point in time can be made of seconds, nanoseconds and an offset within a day that
/// stand for one, and of nothing else. A second that is longer than others is the last
/// of its minute.
pub proof fn which_points_in_time_exist(
    seconds: i64,
    nanos: u32,
    offset: i32,
    r: Option<Timestamp>,
)
    requires
        call_ensures(Timestamp::new, (seconds, nanos, offset), r),
    ensures
        r is Some <==> -8_334_601_228_800 <= seconds <= 8_210_266_876_799 && (nanos < 1_000_000_000
            || nanos < 2_000_000_000 && (seconds as int) % 60 == 59) && -24 * 60 * 60 < offset < 24
            * 60 * 60,
        r matches Some(t) ==> t.instant() == (seconds as int, nanos as int) && t.offset()
            == offset,
{
}

/// Where two texts part, after `n` characters that they share.
proof fn order_from(a: Seq<char>, b: Seq<char>, n: int)
    requires
        0 <= n <= a.len(),
        n <= b.len(),
        forall|i: int| 0 <= i < n ==> #[trigger] a[i] == b[i],
        n < a.len() && n < b.len() ==> a[n] != b[n],
    ensures
        text_lt(a, b) <==> n < b.len() && (n < a.len() ==> (a[n] as u32) < (b[n] as u32)),
    decreases n,
{
    if n > 0 {
        let x = a.drop_first();
        let y = b.drop_first();
        assert(a[0] == b[0]);
        assert forall|i: int| 0 <= i < n - 1 implies #[trigger] x[i] == y[i] by {
            assert(a[i + 1] == b[i + 1]);
        }
        order_from(x, y, n - 1);
    }
}

/// A text comes before another exactly if, after the characters that they share, it ends
/// and the other goes on, or its next character has the smaller code.
pub proof fn when_a_text_comes_before(a: &str, b: &str, n: int, r: bool)
    requires
        call_ensures(is_text_before, (a, b), r),
        0 <= n <= a@.len(),
        n <= b@.len(),
        forall|i: int| 0 <= i < n ==> #[trigger] a@[i] == b@[i],
        n < a@.len() && n < b@.len() ==> a@[n] != b@[n],
    ensures
        r <==> n < b@.len() && (n < a@.len() ==> (a@[n] as u32) < (b@[n] as u32)),
{
    order_from(a@, b@, n);
}

/// With which status a refusal is answered: what is wrong with the request itself, what
/// the user may not see or do, what does not exist, what is in the way, and what has
/// failed.
pub proof fn how_refusals_are_answered(why: Refusal, code: StatusCode)
    requires
        call_ensures(Refusal::status, (&why,), code),
    ensures
        code is BadRequest <==> (why is InvalidDate || why is StartAfterEnd || why
            is EventTitleMissing || why is MemoryImageMissing || why is BefriendSelf || why
            is RemoveSelf || why is AcceptSelf || why is RejectSelf || why is SearchTextMissing
            || why is WishPlaceTitleMissing || why is WishPlaceTitleEmpty || why
            is NothingToUpdate),
        code is Forbidden <==> (why is GuestNotFriend || why is EventForbidden || why
            is AvailabilityForbidden || why is CalendarForbidden || why is WishPlacesForbidden
            || why is VisitForbidden),
        code is NotFound <==> (why is EventNotFound || why is EventMissing || why
            is NotEventCreator || why is NoPendingInvitation || why is NotParticipant || why
            is FriendshipMissing || why is FriendRequestMissing || why is OwnProfileMissing || why
            is ProfileMissing || why is WishPlaceMissing),
        code is Conflict <==> (why is DayReserved || why is GuestBusy || why
            is InvitationAnswered || why is EventClosed || why is EventInFuture || why
            is EventCompleted),
        code is InternalServerError <==> (why is Internal || why is OwnProfileUnavailable || why
            is OwnProfileNotUpdated || why is ProfileUnavailable || why is SearchFailed),
        !(code is Created) && !(code is NoContent),
{
}

} // verus!

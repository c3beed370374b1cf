//! Hours of the day in which nothing is pulled.

use crate::config::{QuietHoursConfig, QuietHoursView, RepositoryConfig};
use crate::text::{
    decimal, decimals_are_read_back, is_digit, is_number, number_value, split_once,
    splits_are_at_the_first, trim_start, white_space,
};
use vstd::prelude::*;

verus! {

/// Why `chrono` could not read a time.
#[verifier::external_type_specification]
#[verifier::external_body]
pub struct ExParseError(chrono::ParseError);

/// A number of one or two digits below `limit`, after white space or not.
pub open spec fn clock_number(s: Seq<char>, limit: nat) -> Option<nat> {
    let digits = trim_start(s);
    if is_number(digits) && digits.len() <= 2 && number_value(digits) < limit {
        Some(number_value(digits))
    } else {
        None
    }
}

/// The seconds from midnight to a time written as hours, a colon and minutes.
pub open spec fn clock_time(s: Seq<char>) -> Option<nat> {
    match split_once(s, ':') {
        None => None,
        Some((hours, minutes)) => match (clock_number(hours, 24), clock_number(minutes, 60)) {
            (Some(h), Some(m)) => Some(h * 3600 + m * 60),
            _ => None,
        },
    }
}

/// `chrono::NaiveTime::parse_from_str` with the format `%H:%M`, and the whole
/// seconds from midnight to the time that it reads. It reads hours and minutes
/// around a colon, each of one or two digits and with white space before it or
/// not, and nothing else. Which of its errors `chrono` gives is not said.
#[verifier::external_body]
fn parse_clock(value: &str, format: &str) -> (seconds: Result<u32, chrono::ParseError>)
    requires
        format@ == "%H:%M"@,
    ensures
        match seconds {
            Ok(seconds) => clock_time(value@) == Some(seconds as nat),
            Err(_) => clock_time(value@) is None,
        },
{
    chrono::NaiveTime::parse_from_str(value, format).map(
        |time| chrono::Timelike::num_seconds_from_midnight(&time),
    )
}

/// A text that is not a time of the day.
#[derive(Debug)]
pub struct QuietTimeError {
    pub value: String,
    pub cause: chrono::ParseError,
}

impl QuietTimeError {
    /// The words in which the error is reported.
    pub fn message(&self) -> (message: String)
        ensures
            message@ == "expected HH:MM, got "@ + self.value@,
    {
        "expected HH:MM, got ".to_owned().concat(self.value.as_str())
    }
}

/// The seconds from midnight to a time written as hours and minutes.
pub fn parse_quiet_time(value: &str) -> (seconds: Result<u32, QuietTimeError>)
    ensures
        match seconds {
            Ok(seconds) => clock_time(value@) == Some(seconds as nat),
            Err(error) => clock_time(value@) is None && error.value@ == value@,
        },
{
    match parse_clock(value, "%H:%M") {
        Ok(seconds) => Ok(seconds),
        Err(cause) => Err(QuietTimeError { value: value.to_owned(), cause }),
    }
}

/// Whether a time is in a window of the day that starts at `start` and ends
/// before `end`, on the next day if `end` is not after `start`.
pub open spec fn in_window(start: nat, end: nat, now: nat) -> bool {
    if start < end {
        start <= now < end
    } else {
        start <= now || now < end
    }
}

/// The quiet hours that a time falls into, or the text that is not a time.
pub open spec fn quiet_window(
    hours: Option<QuietHoursView>,
    now: nat,
) -> Result<Option<Seq<char>>, Seq<char>> {
    match hours {
        None => Ok(None),
        Some(hours) => match clock_time(hours.start) {
            None => Err(hours.start),
            Some(start) => match clock_time(hours.end) {
                None => Err(hours.end),
                Some(end) => if in_window(start, end, now) {
                    Ok(Some(hours.start + "-"@ + hours.end))
                } else {
                    Ok(None)
                },
            },
        },
    }
}

/// The quiet hours of a repository that a time falls into, if it falls into
/// any; `now` is in seconds from midnight.
pub fn in_quiet_hours(config: &RepositoryConfig, now: u32) -> (window: Result<
    Option<String>,
    QuietTimeError,
>)
    ensures
        match window {
            Ok(Some(window)) => quiet_window(config@.quiet_hours, now as nat) == Ok::<
                Option<Seq<char>>,
                Seq<char>,
            >(Some(window@)),
            Ok(None) => quiet_window(config@.quiet_hours, now as nat) == Ok::<
                Option<Seq<char>>,
                Seq<char>,
            >(None),
            Err(error) => quiet_window(config@.quiet_hours, now as nat) == Err::<
                Option<Seq<char>>,
                Seq<char>,
            >(error.value@),
        },
{
    let hours: &QuietHoursConfig = match &config.quiet_hours {
        Some(hours) => hours,
        None => return Ok(None),
    };
    let start: u32 = match parse_quiet_time(hours.start.as_str()) {
        Ok(start) => start,
        Err(error) => return Err(error),
    };
    let end: u32 = match parse_quiet_time(hours.end.as_str()) {
        Ok(end) => end,
        Err(error) => return Err(error),
    };
    let inside = if start < end {
        now >= start && now < end
    } else {
        now >= start || now < end
    };
    if inside {
        Ok(Some(hours.start.clone().concat("-").concat(hours.end.as_str())))
    } else {
        Ok(None)
    }
}

/// A window takes in its start and leaves out its end, and what it leaves out
/// is the window from its end to its start.
pub proof fn windows_share_the_day(start: nat, end: nat, now: nat)
    requires
        start != end,
    ensures
        in_window(start, end, start),
        !in_window(start, end, end),
        in_window(start, end, now) <==> !in_window(end, start, now),
{
}

/// A time that is read is a whole minute of the day.
pub proof fn clock_times_are_minutes(s: Seq<char>)
    requires
        clock_time(s) is Some,
    ensures
        clock_time(s)->0 < 86400,
        clock_time(s)->0 % 60 == 0,
{
}

/// A time falls into quiet hours that start at `s` and end at `e`, to the
/// second: from `s` on and before `e`, or from `s` on into the next day and
/// before `e` where `e` is not later; what they are called names both ends.
pub proof fn quiet_hours_hold_to_the_second(hours: QuietHoursView, s: nat, e: nat, now: nat)
    requires
        clock_time(hours.start) == Some(s),
        clock_time(hours.end) == Some(e),
    ensures
        quiet_window(Some(hours), now) is Ok,
        quiet_window(Some(hours), now) matches Ok(Some(window)) ==> window == hours.start + "-"@
            + hours.end,
        s < e ==> (quiet_window(Some(hours), now) matches Ok(Some(_)) <==> s <= now && now < e),
        s >= e ==> (quiet_window(Some(hours), now) matches Ok(Some(_)) <==> now >= s || now < e),
{
}

/// Without quiet hours no time is quiet, and with hours that are no times the
/// first text that is not one is what is told.
pub proof fn unreadable_hours_are_told(hours: QuietHoursView, now: nat)
    ensures
        quiet_window(None, now) == Ok::<Option<Seq<char>>, Seq<char>>(None),
        clock_time(hours.start) is None ==> quiet_window(Some(hours), now) == Err::<
            Option<Seq<char>>,
            Seq<char>,
        >(hours.start),
        clock_time(hours.start) is Some && clock_time(hours.end) is None ==> quiet_window(
            Some(hours),
            now,
        ) == Err::<Option<Seq<char>>, Seq<char>>(hours.end),
        quiet_window(Some(hours), now) is Err ==> clock_time(hours.start) is None || clock_time(
            hours.end,
        ) is None,
{
}

/// Hours and minutes around a colon, with a zero before them or not, are the
/// time that many hours and minutes after midnight, as long as the day and the
/// hour have so many.
pub proof fn clock_times_are_hours_and_minutes(hours: nat, minutes: nat)
    requires
        hours < 100,
        minutes < 100,
    ensures
        clock_time(decimal(hours) + seq![':'] + decimal(minutes)) == if hours < 24 && minutes < 60 {
            Some(3600 * hours + 60 * minutes)
        } else {
            None
        },
        hours < 10 && minutes < 60 ==> clock_time(
            (seq!['0'] + decimal(hours)) + seq![':'] + decimal(minutes),
        ) == Some(3600 * hours + 60 * minutes),
        hours < 24 && minutes < 10 ==> clock_time(
            decimal(hours) + seq![':'] + (seq!['0'] + decimal(minutes)),
        ) == Some(3600 * hours + 60 * minutes),
{
    lemma_clock_number(hours);
    lemma_clock_number(minutes);
    let h = decimal(hours);
    let m = decimal(minutes);
    splits_are_at_the_first(h, ':', m);
    splits_are_at_the_first(seq!['0'] + h, ':', m);
    splits_are_at_the_first(h, ':', seq!['0'] + m);
}

proof fn lemma_clock_number(n: nat)
    requires
        n < 100,
    ensures
        !decimal(n).contains(':'),
        !(seq!['0'] + decimal(n)).contains(':'),
        forall|limit: nat|
            #![trigger clock_number(decimal(n), limit)]
            clock_number(decimal(n), limit) == if n < limit {
                Some(n)
            } else {
                None
            },
        forall|limit: nat|
            #![trigger clock_number(seq!['0'] + decimal(n), limit)]
            n < 10 && n < limit ==> clock_number(seq!['0'] + decimal(n), limit) == Some(n),
{
    let s = decimal(n);
    decimals_are_read_back(n);
    decimals_are_read_back(n / 10);
    assert forall|i: int| 0 <= i < s.len() implies s[i] != ':' && !white_space(#[trigger] s[i]) by {
        assert(is_digit(s[i]));
    }
    if n >= 10 {
        assert(decimal(n / 10).len() == 1);
    }
    assert(trim_start(s) == s);
    let padded = seq!['0'] + s;
    assert(trim_start(padded) == padded);
    if n < 10 {
        assert(padded.drop_last() =~= seq!['0']);
        assert(seq!['0'].drop_last() =~= Seq::<char>::empty());
        assert(number_value(Seq::<char>::empty()) == 0);
        assert(number_value(seq!['0']) == 0) by {
            assert(seq!['0'].last() == '0');
        }
        assert(s.drop_last() =~= Seq::<char>::empty());
        assert(padded.last() == s.last());
        assert(number_value(padded) == number_value(s));
        assert forall|i: int| 0 <= i < padded.len() implies is_digit(#[trigger] padded[i]) by {
            if i > 0 {
                assert(padded[i] == s[i - 1]);
            }
        }
        assert(is_number(padded));
    }
    assert forall|i: int| 0 <= i < padded.len() implies padded[i] != ':' by {
        if i > 0 {
            assert(padded[i] == s[i - 1]);
        }
    }
}

} // verus!

//! Dates and times as axis values. A date counts in days, a time of day
//! and a date with time in milliseconds. Which dates exist, and the writing
//! of a date or a time, is left to the `chrono` crate.
use chrono::NaiveDate;
use chrono::NaiveDateTime;
use chrono::NaiveTime;
use vstd::prelude::*;

use crate::chart::line::data::spacing::spaced_count;
use crate::chart::line::data::spacing::spaced_offsets;
use crate::chart::line::data::text::three_digits;
use crate::chart::line::data::text::two_digits;
use crate::chart::line::data::AxisData;
use crate::chart::line::data::AxisValue;
use crate::chart::line::data::Order;

verus! {

/// The greatest day number that can be handed to `chrono`.
pub const LAST_DAY_NUMBER: i32 = 2147483282;

/// The greatest number of seconds before or after the epoch that can be
/// handed to `chrono`.
pub const LAST_SECOND: i64 = 100_000_000_000_000;

/// The milliseconds of a day.
pub const DAY_MILLIS: u32 = 86_400_000;

/// Whether `chrono` has a date with this number of days since the last day
/// of the year before the year 1.
pub uninterp spec fn chrono_has_date(days: i32) -> bool;

/// What `chrono` writes for the date with this day number.
pub uninterp spec fn chrono_date_text(days: i32) -> Seq<char>;

/// Whether `chrono` has a date and time this many seconds and nanoseconds
/// after the first second of the year 1970.
pub uninterp spec fn chrono_has_datetime(seconds: i64, nanos: u32) -> bool;

/// What `chrono` writes for the date and time that many seconds and
/// nanoseconds after the first second of the year 1970.
pub uninterp spec fn chrono_datetime_text(seconds: i64, nanos: u32) -> Seq<char>;

/// The text of the time of day `seconds` whole seconds and `millis`
/// milliseconds after midnight: hours, minutes and seconds in two digits
/// each, with colons between them, and the milliseconds after a point
/// where there are any.
pub open spec fn time_text(seconds: int, millis: int) -> Seq<char> {
    two_digits(seconds / 3600) + seq![':'] + two_digits((seconds / 60) % 60) + seq![':']
        + two_digits(seconds % 60) + if millis == 0 {
        Seq::<char>::empty()
    } else {
        seq!['.'] + three_digits(millis)
    }
}

/// `NaiveDate::from_num_days_from_ce_opt`: whether it finds a date for the
/// day number. The dates that `chrono` has form one range, so a day number
/// between two that it has is one that it has.
#[verifier::external_body]
fn date_exists(days: i32) -> (found: bool)
    requires
        days <= LAST_DAY_NUMBER,
    ensures
        found == chrono_has_date(days),
        forall|before: i32, after: i32|
            before <= days <= after && chrono_has_date(before) && chrono_has_date(after)
                ==> found,
{
    NaiveDate::from_num_days_from_ce_opt(days).is_some()
}

/// The `Debug` text of the `NaiveDate` with the given day number: year,
/// month and day.
#[verifier::external_body]
fn date_debug_string(days: i32) -> (text: String)
    requires
        days <= LAST_DAY_NUMBER,
        chrono_has_date(days),
    ensures
        text@ == chrono_date_text(days),
{
    match NaiveDate::from_num_days_from_ce_opt(days) {
        Some(date) => format!("{:?}", date),
        None => String::new(),
    }
}

/// `NaiveDateTime::from_timestamp_opt`: whether it finds a date and time
/// for the seconds and nanoseconds. The dates that `chrono` has form one
/// range, so with a second between two that it has, and nanoseconds within
/// a second, it has this one too.
#[verifier::external_body]
fn datetime_exists(seconds: i64, nanos: u32) -> (found: bool)
    requires
        -LAST_SECOND <= seconds <= LAST_SECOND,
    ensures
        found == chrono_has_datetime(seconds, nanos),
        forall|before: i64, before_nanos: u32, after: i64, after_nanos: u32|
            before <= seconds <= after && nanos < 1_000_000_000 && chrono_has_datetime(
                before,
                before_nanos,
            ) && chrono_has_datetime(after, after_nanos) ==> found,
{
    NaiveDateTime::from_timestamp_opt(seconds, nanos).is_some()
}

/// The `Debug` text of the `NaiveDateTime` with the given seconds and
/// nanoseconds: date, the letter T, and time.
#[verifier::external_body]
fn datetime_debug_string(seconds: i64, nanos: u32) -> (text: String)
    requires
        -LAST_SECOND <= seconds <= LAST_SECOND,
        chrono_has_datetime(seconds, nanos),
    ensures
        text@ == chrono_datetime_text(seconds, nanos),
{
    match NaiveDateTime::from_timestamp_opt(seconds, nanos) {
        Some(moment) => format!("{:?}", moment),
        None => String::new(),
    }
}

/// The `Debug` text of the `NaiveTime` that
/// `NaiveTime::from_num_seconds_from_midnight_opt` makes, for nanoseconds
/// that are whole milliseconds: hours, minutes and seconds in two digits
/// each, then a point and the milliseconds in three digits unless they are
/// zero.
#[verifier::external_body]
fn time_debug_string(seconds: u32, nanos: u32) -> (text: String)
    requires
        seconds < 86_400,
        nanos < 1_000_000_000,
        nanos % 1_000_000 == 0,
    ensures
        text@ == time_text(seconds as int, nanos as int / 1_000_000),
{
    match NaiveTime::from_num_seconds_from_midnight_opt(seconds, nanos) {
        Some(time) => format!("{:?}", time),
        None => String::new(),
    }
}

/// A calendar date, held as the number of its day.
#[derive(Clone, Copy, Debug, PartialEq, Eq, Structural)]
pub struct Date {
    days: i32,
}

impl Date {
    #[verifier::type_invariant]
    spec fn is_a_date(self) -> bool {
        self.days <= LAST_DAY_NUMBER && chrono_has_date(self.days)
    }

    /// The number of the day, counted from the last day of the year before
    /// the year 1.
    pub closed spec fn day_number(self) -> i32 {
        self.days
    }

    /// Whether there is a date with this day number.
    pub open spec fn has(days: i32) -> bool {
        days <= LAST_DAY_NUMBER && chrono_has_date(days)
    }

    /// The date with this day number.
    pub closed spec fn at(days: i32) -> Date {
        Date { days }
    }

    /// A date is the date at its day number, and no other.
    pub proof fn lemma_at(self, days: i32)
        ensures
            Date::at(days).day_number() == days,
            Date::at(self.day_number()) == self,
    {
    }

    /// The date with the given day number, if there is one.
    pub fn from_num_days_from_ce(days: i32) -> (date: Option<Date>)
        ensures
            date == if Date::has(days) {
                Some(Date::at(days))
            } else {
                None
            },
            date matches Some(d) ==> d.day_number() == days,
    {
        if days <= LAST_DAY_NUMBER && date_exists(days) {
            Some(Date { days })
        } else {
            None
        }
    }

    pub fn num_days_from_ce(&self) -> (days: i32)
        ensures
            days == self.day_number(),
            Date::has(days),
    {
        proof {
            use_type_invariant(self);
        }
        self.days
    }
}

impl AxisValue for Date {
    open spec fn position(&self) -> int {
        self.day_number() as int
    }

    open spec fn step(&self, delta: u128) -> Option<Self> {
        if self.day_number() + delta <= LAST_DAY_NUMBER && chrono_has_date(
            (self.day_number() + delta) as i32,
        ) {
            Some(Date::at((self.day_number() + delta) as i32))
        } else {
            None
        }
    }

    open spec fn between(&self, other: &Self, min_distance: u128, optimal_distance: u128) -> Seq<
        Self,
    > {
        Seq::new(
            spaced_count(
                other.day_number() - self.day_number(),
                min_distance as int,
                optimal_distance as int,
            ),
            |k: int| Date::at((self.day_number() + (k + 1) * optimal_distance) as i32),
        )
    }

    fn compare_value(&self, other: &Self) -> (order: Order) {
        if self.days < other.days {
            Order::Less
        } else if self.days == other.days {
            Order::Equal
        } else {
            Order::Greater
        }
    }

    fn distance_to(&self, other: &Self) -> (distance: u128) {
        (other.days as i64 - self.days as i64) as u128
    }

    fn add(&self, value: u128) -> (next: Option<Self>)
        ensures
            forall|before: i32, after: i32|
                before <= self.position() + value <= after <= LAST_DAY_NUMBER && chrono_has_date(
                    before,
                ) && chrono_has_date(after) ==> next.is_some(),
    {
        if value > 0xffff_ffff {
            return None;
        }
        let sum: i64 = self.days as i64 + value as i64;
        if sum > LAST_DAY_NUMBER as i64 {
            return None;
        }
        if date_exists(sum as i32) {
            Some(Date { days: sum as i32 })
        } else {
            None
        }
    }

    fn get_values_in_between(
        &self,
        other: &Self,
        min_distance: u128,
        optimal_distance: u128,
    ) -> (values: Vec<Self>) {
        proof {
            use_type_invariant(self);
            use_type_invariant(other);
        }
        let span = self.distance_to(other);
        let offsets = spaced_offsets(span, min_distance, optimal_distance);
        let mut values: Vec<Date> = Vec::new();
        let mut i: usize = 0;
        while i < offsets.len()
            invariant
                i <= offsets.len(),
                values.len() == i,
                span == other.days - self.days,
                chrono_has_date(self.days),
                chrono_has_date(other.days),
                other.days <= LAST_DAY_NUMBER,
                forall|k: int|
                    0 <= k < offsets.len() ==> 0 < #[trigger] offsets[k] == (k + 1)
                        * optimal_distance && offsets[k] + min_distance < span,
                forall|j: int, k: int|
                    0 <= j < k < offsets.len() ==> #[trigger] offsets[j] < #[trigger] offsets[k],
                forall|k: int| 0 <= k < i ==> (#[trigger] values[k]).days == self.days + offsets[k],
            decreases offsets.len() - i,
        {
            if let Some(value) = self.add(offsets[i]) {
                values.push(value);
            }
            i = i + 1;
        }
        assert(values@ =~= self.between(other, min_distance, optimal_distance));
        values
    }
}

impl AxisData<Date> for Date {
    open spec fn axis_value(&self) -> Date {
        *self
    }

    open spec fn display_text(value: &Date) -> Seq<char> {
        chrono_date_text(value.day_number())
    }

    open spec fn description_text(&self) -> Seq<char> {
        chrono_date_text(self.day_number())
    }

    fn value(&self) -> (v: &Date) {
        self
    }

    fn display_value(value: &Date) -> (text: String) {
        proof {
            use_type_invariant(value);
        }
        date_debug_string(value.days)
    }

    fn description(&self) -> (text: String) {
        proof {
            use_type_invariant(self);
        }
        date_debug_string(self.days)
    }
}

/// The whole seconds of a count of milliseconds, rounded down.
pub open spec fn seconds_of(millis: int) -> int {
    millis / 1000
}

/// The nanoseconds that a count of milliseconds has beyond its whole
/// seconds.
pub open spec fn nanos_of(millis: int) -> int {
    (millis % 1000) * 1_000_000
}

/// Seconds and nanoseconds of a count of milliseconds.
pub fn split_millis(millis: i64) -> (parts: (i64, u32))
    ensures
        parts.0 == seconds_of(millis as int),
        parts.1 == nanos_of(millis as int),
        parts.1 < 1_000_000_000,
{
    if millis >= 0 {
        (millis / 1000, ((millis % 1000) as u32) * 1_000_000)
    } else {
        let back: i64 = -(millis + 1);
        let whole: i64 = back / 1000;
        let rest: i64 = back % 1000;
        proof {
            vstd::arithmetic::div_mod::lemma_fundamental_div_mod_converse(
                millis as int,
                1000,
                -whole - 1,
                999 - rest,
            );
        }
        (-whole - 1, ((999 - rest) as u32) * 1_000_000)
    }
}

/// A date with a time of day, held as the milliseconds since the first
/// moment of the year 1970.
#[derive(Clone, Copy, Debug, PartialEq, Eq, Structural)]
pub struct DateTime {
    millis: i64,
}

impl DateTime {
    #[verifier::type_invariant]
    spec fn is_a_moment(self) -> bool {
        DateTime::has(self.millis)
    }

    /// The milliseconds since the first moment of the year 1970.
    pub closed spec fn millis(self) -> i64 {
        self.millis
    }

    /// The date and time at this count of milliseconds.
    pub closed spec fn at(millis: i64) -> DateTime {
        DateTime { millis }
    }

    /// A date and time is the one at its count of milliseconds, and no
    /// other.
    pub proof fn lemma_at(self, millis: i64)
        ensures
            DateTime::at(millis).millis() == millis,
            DateTime::at(self.millis()) == self,
    {
    }

    /// Whether there is a date and time at this count of milliseconds.
    pub open spec fn has(millis: i64) -> bool {
        &&& -LAST_SECOND <= seconds_of(millis as int) <= LAST_SECOND
        &&& chrono_has_datetime(seconds_of(millis as int) as i64, nanos_of(millis as int) as u32)
    }

    /// The date and time at the given count of milliseconds, if there is
    /// one.
    pub fn from_timestamp_millis(millis: i64) -> (moment: Option<DateTime>)
        ensures
            moment == if DateTime::has(millis) {
                Some(DateTime::at(millis))
            } else {
                None
            },
            moment matches Some(m) ==> m.millis() == millis,
    {
        let (seconds, nanos) = split_millis(millis);
        if -LAST_SECOND <= seconds && seconds <= LAST_SECOND && datetime_exists(seconds, nanos) {
            Some(DateTime { millis })
        } else {
            None
        }
    }

    pub fn timestamp_millis(&self) -> (millis: i64)
        ensures
            millis == self.millis(),
            DateTime::has(millis),
    {
        proof {
            use_type_invariant(self);
        }
        self.millis
    }
}

impl AxisValue for DateTime {
    open spec fn position(&self) -> int {
        self.millis() as int
    }

    open spec fn step(&self, delta: u128) -> Option<Self> {
        if self.millis() + delta <= i64::MAX && DateTime::has((self.millis() + delta) as i64) {
            Some(DateTime::at((self.millis() + delta) as i64))
        } else {
            None
        }
    }

    open spec fn between(&self, other: &Self, min_distance: u128, optimal_distance: u128) -> Seq<
        Self,
    > {
        Seq::new(
            spaced_count(
                other.millis() - self.millis(),
                min_distance as int,
                optimal_distance as int,
            ),
            |k: int| DateTime::at((self.millis() + (k + 1) * optimal_distance) as i64),
        )
    }

    fn compare_value(&self, other: &Self) -> (order: Order) {
        if self.millis < other.millis {
            Order::Less
        } else if self.millis == other.millis {
            Order::Equal
        } else {
            Order::Greater
        }
    }

    fn distance_to(&self, other: &Self) -> (distance: u128) {
        (other.millis as i128 - self.millis as i128) as u128
    }

    fn add(&self, value: u128) -> (next: Option<Self>)
        ensures
            forall|after: i64|
                self.position() + value <= after && DateTime::has(after) ==> next.is_some(),
    {
        proof {
            use_type_invariant(self);
        }
        if value > 0xffff_ffff_ffff_ffff {
            return None;
        }
        let sum: i128 = self.millis as i128 + value as i128;
        if sum > i64::MAX as i128 {
            return None;
        }
        let (seconds, nanos) = split_millis(sum as i64);
        proof {
            assert(seconds_of(self.millis as int) <= seconds) by {
                vstd::arithmetic::div_mod::lemma_div_is_ordered(self.millis as int, sum as int, 1000);
            }
            assert forall|after: i64| sum <= after && DateTime::has(after) implies seconds
                <= seconds_of(after as int) by {
                vstd::arithmetic::div_mod::lemma_div_is_ordered(sum as int, after as int, 1000);
            }
        }
        if seconds <= LAST_SECOND && datetime_exists(seconds, nanos) {
            Some(DateTime { millis: sum as i64 })
        } else {
            None
        }
    }

    fn get_values_in_between(
        &self,
        other: &Self,
        min_distance: u128,
        optimal_distance: u128,
    ) -> (values: Vec<Self>) {
        proof {
            use_type_invariant(self);
            use_type_invariant(other);
        }
        let span = self.distance_to(other);
        let offsets = spaced_offsets(span, min_distance, optimal_distance);
        let mut values: Vec<DateTime> = Vec::new();
        let mut i: usize = 0;
        while i < offsets.len()
            invariant
                i <= offsets.len(),
                values.len() == i,
                span == other.millis - self.millis,
                DateTime::has(other.millis),
                forall|k: int|
                    0 <= k < offsets.len() ==> 0 < #[trigger] offsets[k] == (k + 1)
                        * optimal_distance && offsets[k] + min_distance < span,
                forall|j: int, k: int|
                    0 <= j < k < offsets.len() ==> #[trigger] offsets[j] < #[trigger] offsets[k],
                forall|k: int|
                    0 <= k < i ==> (#[trigger] values[k]).millis == self.millis + offsets[k],
            decreases offsets.len() - i,
        {
            if let Some(value) = self.add(offsets[i]) {
                values.push(value);
            }
            i = i + 1;
        }
        assert(values@ =~= self.between(other, min_distance, optimal_distance));
        values
    }
}

impl AxisData<DateTime> for DateTime {
    open spec fn axis_value(&self) -> DateTime {
        *self
    }

    open spec fn display_text(value: &DateTime) -> Seq<char> {
        chrono_datetime_text(
            seconds_of(value.millis() as int) as i64,
            nanos_of(value.millis() as int) as u32,
        )
    }

    open spec fn description_text(&self) -> Seq<char> {
        chrono_datetime_text(
            seconds_of(self.millis() as int) as i64,
            nanos_of(self.millis() as int) as u32,
        )
    }

    fn value(&self) -> (v: &DateTime) {
        self
    }

    fn display_value(value: &DateTime) -> (text: String) {
        proof {
            use_type_invariant(value);
        }
        let (seconds, nanos) = split_millis(value.millis);
        datetime_debug_string(seconds, nanos)
    }

    fn description(&self) -> (text: String) {
        proof {
            use_type_invariant(self);
        }
        let (seconds, nanos) = split_millis(self.millis);
        datetime_debug_string(seconds, nanos)
    }
}

/// A time of day, held as the milliseconds since midnight. It does not
/// run over into the next day: there is no time after the last
/// millisecond of the day.
#[derive(Clone, Copy, Debug, PartialEq, Eq, Structural)]
pub struct Time {
    millis: u32,
}

impl Time {
    #[verifier::type_invariant]
    spec fn within_day(self) -> bool {
        self.millis < DAY_MILLIS
    }

    /// The milliseconds since midnight.
    pub closed spec fn millis(self) -> u32 {
        self.millis
    }

    /// The time of day at this count of milliseconds.
    pub closed spec fn at(millis: u32) -> Time {
        Time { millis }
    }

    /// A time of day is the one at its count of milliseconds, and no other.
    pub proof fn lemma_at(self, millis: u32)
        ensures
            Time::at(millis).millis() == millis,
            Time::at(self.millis()) == self,
    {
    }

    /// The time of day that many milliseconds after midnight, if the day
    /// is that long.
    pub fn from_millis_from_midnight(millis: u32) -> (time: Option<Time>)
        ensures
            time == if millis < DAY_MILLIS {
                Some(Time::at(millis))
            } else {
                None
            },
            time matches Some(t) ==> t.millis() == millis,
    {
        if millis < DAY_MILLIS {
            Some(Time { millis })
        } else {
            None
        }
    }

    pub fn millis_from_midnight(&self) -> (millis: u32)
        ensures
            millis == self.millis(),
            millis < DAY_MILLIS,
    {
        proof {
            use_type_invariant(self);
        }
        self.millis
    }
}

impl AxisValue for Time {
    open spec fn position(&self) -> int {
        self.millis() as int
    }

    open spec fn step(&self, delta: u128) -> Option<Self> {
        if self.millis() + delta < DAY_MILLIS {
            Some(Time::at((self.millis() + delta) as u32))
        } else {
            None
        }
    }

    open spec fn between(&self, other: &Self, min_distance: u128, optimal_distance: u128) -> Seq<
        Self,
    > {
        Seq::new(
            spaced_count(
                other.millis() - self.millis(),
                min_distance as int,
                optimal_distance as int,
            ),
            |k: int| Time::at((self.millis() + (k + 1) * optimal_distance) as u32),
        )
    }

    fn compare_value(&self, other: &Self) -> (order: Order) {
        if self.millis < other.millis {
            Order::Less
        } else if self.millis == other.millis {
            Order::Equal
        } else {
            Order::Greater
        }
    }

    fn distance_to(&self, other: &Self) -> (distance: u128) {
        (other.millis - self.millis) as u128
    }

    fn add(&self, value: u128) -> (next: Option<Self>) {
        if value < DAY_MILLIS as u128 && self.millis as u64 + (value as u64) < DAY_MILLIS as u64 {
            Some(Time { millis: self.millis + value as u32 })
        } else {
            None
        }
    }

    fn get_values_in_between(
        &self,
        other: &Self,
        min_distance: u128,
        optimal_distance: u128,
    ) -> (values: Vec<Self>) {
        proof {
            use_type_invariant(self);
            use_type_invariant(other);
        }
        let span = self.distance_to(other);
        let offsets = spaced_offsets(span, min_distance, optimal_distance);
        let mut values: Vec<Time> = Vec::new();
        let mut i: usize = 0;
        while i < offsets.len()
            invariant
                i <= offsets.len(),
                values.len() == i,
                span == other.millis - self.millis,
                other.millis < DAY_MILLIS,
                forall|k: int|
                    0 <= k < offsets.len() ==> 0 < #[trigger] offsets[k] == (k + 1)
                        * optimal_distance && offsets[k] + min_distance < span,
                forall|j: int, k: int|
                    0 <= j < k < offsets.len() ==> #[trigger] offsets[j] < #[trigger] offsets[k],
                forall|k: int|
                    0 <= k < i ==> (#[trigger] values[k]).millis == self.millis + offsets[k],
            decreases offsets.len() - i,
        {
            if let Some(value) = self.add(offsets[i]) {
                values.push(value);
            }
            i = i + 1;
        }
        assert(values@ =~= self.between(other, min_distance, optimal_distance));
        values
    }
}

impl AxisData<Time> for Time {
    open spec fn axis_value(&self) -> Time {
        *self
    }

    open spec fn display_text(value: &Time) -> Seq<char> {
        time_text(value.millis() as int / 1000, value.millis() as int % 1000)
    }

    open spec fn description_text(&self) -> Seq<char> {
        time_text(self.millis() as int / 1000, self.millis() as int % 1000)
    }

    fn value(&self) -> (v: &Time) {
        self
    }

    fn display_value(value: &Time) -> (text: String) {
        proof {
            use_type_invariant(value);
        }
        time_debug_string(value.millis / 1000, (value.millis % 1000) * 1_000_000)
    }

    fn description(&self) -> (text: String) {
        proof {
            use_type_invariant(self);
        }
        time_debug_string(self.millis / 1000, (self.millis % 1000) * 1_000_000)
    }
}

} // verus!

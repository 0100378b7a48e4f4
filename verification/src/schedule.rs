//! Timeslots and calendars.
//!
//! All instants are milliseconds since the Unix epoch and all durations are
//! milliseconds.

use crate::groups::{insert_by, lemma_insert_by, sort_by};
use crate::text::{chars_of, concat_chars, join, matches_at, matches_at_exec, join_exec, split_nonempty, split_nonempty_exec, str_eq, string_from_chars, views};
use vstd::prelude::*;
use vstd::string::*;
use iso8601_duration::Duration as Iso8601Duration;
use rrule::{RRuleSet, Tz};
use chrono::TimeZone;
use std::str::FromStr;

verus! {

/// The largest magnitude of an instant (in ms) that a calendar date can have.
pub const MAX_TIME_MS: i64 = 8_000_000_000_000_000;

/// An instant (or a duration) that a calendar date can represent.
pub open spec fn valid_time(t: int) -> bool {
    -MAX_TIME_MS <= t <= MAX_TIME_MS
}

/// A span of time, from `time_start` (inclusive) to `time_end` (exclusive).
#[derive(Debug, Copy, Clone, PartialEq, Eq, Structural)]
pub struct Timeslot {
    pub time_start: i64,
    pub time_end: i64,
}

/// Errors on building or combining timeslots.
#[derive(Debug, Copy, Clone, PartialEq, Eq, Structural)]
pub enum TimeslotError {
    /// The two timeslots do not overlap.
    NoOverlap,
    /// The start of the timeslot is not before its end.
    InvalidTimes,
}

impl Timeslot {
    /// Both ends are instants a calendar date can represent.
    pub open spec fn valid(self) -> bool {
        valid_time(self.time_start as int) && valid_time(self.time_end as int)
    }

    /// Whether the instant `t` lies within the timeslot.
    pub open spec fn contains(self, t: int) -> bool {
        self.time_start <= t < self.time_end
    }

    /// Whether both ends of the timeslot lie within `[lo, hi]`.
    pub open spec fn within(self, lo: int, hi: int) -> bool {
        lo <= self.time_start <= hi && lo <= self.time_end <= hi
    }

    pub fn new(time_start: i64, time_end: i64) -> (r: Result<Timeslot, TimeslotError>)
        ensures
            time_start < time_end ==> r == Ok::<Timeslot, TimeslotError>(Timeslot { time_start, time_end }),
            time_start >= time_end ==> r == Err::<Timeslot, TimeslotError>(TimeslotError::InvalidTimes),
    {
        if time_start >= time_end {
            return Err(TimeslotError::InvalidTimes);
        }
        Ok(Timeslot { time_start, time_end })
    }

    pub fn time_start(&self) -> (r: i64)
        ensures
            r == self.time_start,
    {
        self.time_start
    }

    pub fn time_end(&self) -> (r: i64)
        ensures
            r == self.time_end,
    {
        self.time_end
    }

    pub fn duration(&self) -> (r: i64)
        requires
            self.valid(),
        ensures
            r == self.time_end - self.time_start,
    {
        self.time_end - self.time_start
    }

    /// Cuts the timeslot into consecutive pieces of at most `max_duration`,
    /// keeping only the pieces that last at least `min_duration`.
    pub fn split(&self, min_duration: &i64, max_duration: &i64) -> (r: Vec<Timeslot>)
        requires
            self.valid(),
            0 < *max_duration <= MAX_TIME_MS,
        ensures
            r@ == split_pieces(self.time_start, self.time_end, *min_duration, *max_duration),
    {
        let mut slots: Vec<Timeslot> = Vec::new();
        let mut current_time: i64 = self.time_start;
        while current_time < self.time_end
            invariant
                self.valid(),
                0 < *max_duration <= MAX_TIME_MS,
                self.time_start <= current_time,
                current_time <= self.time_end || current_time == self.time_start,
                slots@ + split_pieces(current_time, self.time_end, *min_duration, *max_duration)
                    == split_pieces(self.time_start, self.time_end, *min_duration, *max_duration),
            decreases self.time_end - current_time,
        {
            let next_time: i64 = if current_time + *max_duration < self.time_end {
                current_time + *max_duration
            } else {
                self.time_end
            };
            let timeslot = Timeslot { time_start: current_time, time_end: next_time };
            proof {
                assert(split_pieces(current_time, self.time_end, *min_duration, *max_duration)
                    == (if next_time - current_time >= *min_duration {
                        seq![timeslot].add(split_pieces(next_time, self.time_end, *min_duration, *max_duration))
                    } else {
                        split_pieces(next_time, self.time_end, *min_duration, *max_duration)
                    }));
            }
            if timeslot.duration() >= *min_duration {
                slots.push(timeslot);
                proof {
                    assert(slots@ + split_pieces(next_time, self.time_end, *min_duration, *max_duration)
                        =~= (slots@.drop_last() + seq![timeslot]) + split_pieces(next_time, self.time_end, *min_duration, *max_duration));
                }
            }
            current_time = next_time;
        }
        proof {
            assert(split_pieces(current_time, self.time_end, *min_duration, *max_duration) =~= Seq::<Timeslot>::empty());
            assert(slots@ + Seq::<Timeslot>::empty() =~= slots@);
        }
        slots
    }

    /// The common part of two timeslots.
    pub fn overlap(&self, other: &Self) -> (r: Result<Self, TimeslotError>)
        ensures
            r == timeslot_overlap(*self, *other),
    {
        let slot = Self {
            time_start: if self.time_start >= other.time_start { self.time_start } else { other.time_start },
            time_end: if self.time_end <= other.time_end { self.time_end } else { other.time_end },
        };
        if slot.time_start >= slot.time_end {
            return Err(TimeslotError::NoOverlap);
        }
        Ok(slot)
    }
}

/// The later of two instants.
pub open spec fn later(a: i64, b: i64) -> i64 {
    if a >= b { a } else { b }
}

/// The earlier of two instants.
pub open spec fn earlier(a: i64, b: i64) -> i64 {
    if a <= b { a } else { b }
}

/// The common part of two timeslots, or `NoOverlap` when it would be empty.
pub open spec fn timeslot_overlap(a: Timeslot, b: Timeslot) -> Result<Timeslot, TimeslotError> {
    let start = later(a.time_start, b.time_start);
    let end = earlier(a.time_end, b.time_end);
    if start < end {
        Ok(Timeslot { time_start: start, time_end: end })
    } else {
        Err(TimeslotError::NoOverlap)
    }
}

/// The consecutive pieces of `[start, end)` of length `max_duration` (the last
/// one possibly shorter), without those shorter than `min_duration`.
pub open spec fn split_pieces(start: i64, end: i64, min_duration: i64, max_duration: i64) -> Seq<Timeslot>
    decreases end - start,
{
    if start >= end || max_duration <= 0 {
        Seq::empty()
    } else {
        let next: i64 = if start + max_duration < end { (start + max_duration) as i64 } else { end };
        let rest = split_pieces(next, end, min_duration, max_duration);
        if next - start >= min_duration {
            seq![Timeslot { time_start: start, time_end: next }].add(rest)
        } else {
            rest
        }
    }
}

/// The parts of `a` that are not covered by `b`, in order.
pub open spec fn timeslot_difference(a: Timeslot, b: Timeslot) -> Seq<Timeslot> {
    if a.time_end <= b.time_start || a.time_start >= b.time_end {
        seq![a]
    } else {
        let left = if a.time_start < b.time_start {
            seq![Timeslot { time_start: a.time_start, time_end: b.time_start }]
        } else {
            Seq::<Timeslot>::empty()
        };
        let right = if a.time_end > b.time_end {
            seq![Timeslot { time_start: b.time_end, time_end: a.time_end }]
        } else {
            Seq::<Timeslot>::empty()
        };
        left + right
    }
}

impl core::ops::Sub for Timeslot {
    type Output = Vec<Timeslot>;

    fn sub(self, other: Self) -> (r: Vec<Timeslot>)
        ensures
            r@ == timeslot_difference(self, other),
    {
        if self.time_end <= other.time_start || self.time_start >= other.time_end {
            return vec![self];
        }
        let mut r = Vec::new();
        if self.time_start < other.time_start {
            r.push(Timeslot { time_start: self.time_start, time_end: other.time_start });
        }
        if self.time_end > other.time_end {
            r.push(Timeslot { time_start: other.time_end, time_end: self.time_end });
        }
        r
    }
}

impl vstd::std_specs::ops::SubSpecImpl for Timeslot {
    /// The generic operator contract is not used: `sub` states its result itself.
    open spec fn obeys_sub_spec() -> bool {
        false
    }

    open spec fn sub_req(self, other: Timeslot) -> bool {
        true
    }

    open spec fn sub_spec(self, other: Timeslot) -> Vec<Timeslot> {
        arbitrary()
    }
}


/// Subtracting `b` from a non-empty `a` leaves exactly the instants of `a` that are
/// not in `b`, as at most two non-empty, ordered and disjoint pieces.
pub proof fn lemma_difference_is_set_difference(a: Timeslot, b: Timeslot)
    requires
        a.time_start < a.time_end,
        b.time_start <= b.time_end,
    ensures
        timeslot_difference(a, b).len() <= 2,
        forall|i: int| 0 <= i < timeslot_difference(a, b).len()
            ==> (#[trigger] timeslot_difference(a, b)[i]).time_start < timeslot_difference(a, b)[i].time_end,
        forall|i: int, j: int| 0 <= i < j < timeslot_difference(a, b).len()
            ==> (#[trigger] timeslot_difference(a, b)[i]).time_end <= (#[trigger] timeslot_difference(a, b)[j]).time_start,
        forall|t: int| (exists|i: int| 0 <= i < timeslot_difference(a, b).len()
            && (#[trigger] timeslot_difference(a, b)[i]).contains(t))
            <==> (a.contains(t) && !b.contains(t)),
{
    let d = timeslot_difference(a, b);
    assert forall|t: int| (exists|i: int| 0 <= i < d.len() && (#[trigger] d[i]).contains(t))
        <==> (a.contains(t) && !b.contains(t)) by {
        if a.contains(t) && !b.contains(t) {
            if a.time_end <= b.time_start || a.time_start >= b.time_end {
                assert(d[0].contains(t));
            } else if t < b.time_start {
                assert(d[0].contains(t));
            } else {
                assert(d[d.len() - 1].contains(t));
            }
        }
    }
}

/// The overlap of two timeslots holds exactly the instants that are in both.
pub proof fn lemma_overlap_is_intersection(a: Timeslot, b: Timeslot)
    ensures
        timeslot_overlap(a, b) is Ok ==> forall|t: int|
            #[trigger] timeslot_overlap(a, b)->Ok_0.contains(t) <==> (a.contains(t) && b.contains(t)),
        timeslot_overlap(a, b) is Err ==> forall|t: int| !(#[trigger] a.contains(t) && b.contains(t)),
{
}

/// Every piece of a split lies within the split span, lasts between the minimum
/// and the maximum duration, and the pieces are in order without overlap.
pub proof fn lemma_split_pieces_bounded(start: i64, end: i64, min_duration: i64, max_duration: i64)
    ensures
        forall|i: int| 0 <= i < split_pieces(start, end, min_duration, max_duration).len() ==> {
            let p = #[trigger] split_pieces(start, end, min_duration, max_duration)[i];
            &&& start <= p.time_start < p.time_end <= end
            &&& min_duration <= p.time_end - p.time_start <= max_duration
        },
        forall|i: int, j: int| 0 <= i < j < split_pieces(start, end, min_duration, max_duration).len()
            ==> (#[trigger] split_pieces(start, end, min_duration, max_duration)[i]).time_end
                <= (#[trigger] split_pieces(start, end, min_duration, max_duration)[j]).time_start,
    decreases end - start,
{
    if start < end && max_duration > 0 {
        let next: i64 = if start + max_duration < end { (start + max_duration) as i64 } else { end };
        lemma_split_pieces_bounded(next, end, min_duration, max_duration);
        let rest = split_pieces(next, end, min_duration, max_duration);
        let all = split_pieces(start, end, min_duration, max_duration);
        if next - start >= min_duration {
            assert forall|i: int| 1 <= i < all.len() implies #[trigger] all[i] == rest[i - 1] by {}
        }
    }
}


/// Errors on reading a calendar.
#[derive(Debug, Copy, Clone, PartialEq, Eq, Structural)]
pub enum CalendarError {
    Rrule,
    RruleSet,
    HeaderPartsLength,
    Duration,
    Internal,
}

impl CalendarError {
    /// The message describing the error.
    pub fn to_string(&self) -> (r: String)
        ensures
            r@ == self.message(),
    {
        match self {
            CalendarError::Rrule => "Invalid rrule".to_string(),
            CalendarError::RruleSet => "Invalid rrule set".to_string(),
            CalendarError::HeaderPartsLength => "Invalid header parts length".to_string(),
            CalendarError::Duration => "Invalid duration".to_string(),
            CalendarError::Internal => "Internal error".to_string(),
        }
    }

    pub open spec fn message(&self) -> Seq<char> {
        match self {
            CalendarError::Rrule => "Invalid rrule"@,
            CalendarError::RruleSet => "Invalid rrule set"@,
            CalendarError::HeaderPartsLength => "Invalid header parts length"@,
            CalendarError::Duration => "Invalid duration"@,
            CalendarError::Internal => "Internal error"@,
        }
    }
}


/// The number of milliseconds in a day.
pub const DAY_MS: i64 = 86_400_000;

/// The largest number of occurrences taken from one recurrence rule set.
pub const MAX_EVENT_COUNT: u16 = 100;

/// A character of a plain duration text: a designator (`P`, `Y`, `M`, `W`,
/// `D`, `T`, `H`, `S`), a decimal digit, or a decimal point or comma; no
/// sign, exponent or named value (`inf`, `nan`).
pub open spec fn duration_char(c: char) -> bool {
    c == 'P' || c == 'Y' || c == 'M' || c == 'W' || c == 'D' || c == 'T' || c == 'H' || c == 'S' || c == '.'
        || c == ',' || ('0' <= c && c <= '9')
}

/// A duration text made of plain characters only (see [`duration_char`]).
pub open spec fn plain_duration(text: Seq<char>) -> bool {
    forall|i: int| 0 <= i < text.len() ==> duration_char(#[trigger] text[i])
}

fn is_plain_duration(text: &Vec<char>) -> (r: bool)
    ensures
        r == plain_duration(text@),
{
    let mut i: usize = 0;
    while i < text.len()
        invariant
            i <= text@.len(),
            forall|k: int| 0 <= k < i ==> duration_char(#[trigger] text@[k]),
        decreases text@.len() - i,
    {
        let c = text[i];
        if !(c == 'P' || c == 'Y' || c == 'M' || c == 'W' || c == 'D' || c == 'T' || c == 'H' || c == 'S' || c == '.'
            || c == ',' || ('0' <= c && c <= '9')) {
            return false;
        }
        i = i + 1;
    }
    true
}

pub open spec fn is_digit(c: char) -> bool {
    '0' <= c && c <= '9'
}

/// The largest sum of numbers a duration text may hold to be read (see
/// [`number_total`]): in weeks, the longest unit, it stays within the seconds
/// that `chrono::TimeDelta::seconds` takes.
pub const MAX_DURATION_NUMBERS: u64 = 14_000_000_000;

/// The sum, over the digit runs of `s` from `i` on, of each run's value plus
/// one, `cur` being the value of the run in progress (-1 for none) and `sum`
/// what the runs before it add up to. A decimal number counts as two runs,
/// so the sum bounds the numbers from above.
pub open spec fn number_total(s: Seq<char>, i: int, cur: int, sum: int) -> int
    decreases s.len() - i,
{
    if i < 0 || i >= s.len() {
        if cur >= 0 { sum + cur + 1 } else { sum }
    } else if is_digit(s[i]) {
        let d = s[i] as int - '0' as int;
        number_total(s, i + 1, if cur >= 0 { cur * 10 + d } else { d }, sum)
    } else {
        number_total(s, i + 1, -1, if cur >= 0 { sum + cur + 1 } else { sum })
    }
}

/// The numbers of a duration text are small enough to be read (see
/// [`MAX_DURATION_NUMBERS`]).
pub open spec fn duration_numbers_small(s: Seq<char>) -> bool {
    number_total(s, 0, -1, 0) <= MAX_DURATION_NUMBERS
}

proof fn lemma_number_total_grows(s: Seq<char>, i: int, cur: int, sum: int)
    requires
        0 <= i,
        cur >= -1,
        sum >= 0,
    ensures
        number_total(s, i, cur, sum) >= sum + (if cur >= 0 { cur + 1 } else { 0 }),
    decreases s.len() - i,
{
    if i < s.len() {
        if is_digit(s[i]) {
            let d = s[i] as int - '0' as int;
            let next = if cur >= 0 { cur * 10 + d } else { d };
            assert(next >= cur) by (nonlinear_arith)
                requires
                    cur >= -1,
                    0 <= d,
                    next == if cur >= 0 { cur * 10 + d } else { d },
            ;
            lemma_number_total_grows(s, i + 1, next, sum);
        } else {
            lemma_number_total_grows(s, i + 1, -1, if cur >= 0 { sum + cur + 1 } else { sum });
        }
    }
}

fn check_duration_numbers(s: &Vec<char>) -> (r: bool)
    ensures
        r == duration_numbers_small(s@),
{
    let mut cur: i64 = -1;
    let mut sum: i64 = 0;
    let mut i: usize = 0;
    while i < s.len()
        invariant
            i <= s@.len(),
            -1 <= cur <= MAX_DURATION_NUMBERS,
            0 <= sum <= MAX_DURATION_NUMBERS,
            cur >= 0 ==> sum + cur + 1 <= MAX_DURATION_NUMBERS,
            number_total(s@, 0, -1, 0) == number_total(s@, i as int, cur as int, sum as int),
        decreases s@.len() - i,
    {
        let c = s[i];
        if '0' <= c && c <= '9' {
            let d = (c as u32 - '0' as u32) as i64;
            proof {
                assert(d == s@[i as int] as int - '0' as int);
            }
            let next: i64 = if cur >= 0 { cur * 10 + d } else { d };
            if sum + next + 1 > MAX_DURATION_NUMBERS as i64 {
                proof {
                    lemma_number_total_grows(s@, i + 1, next as int, sum as int);
                }
                return false;
            }
            cur = next;
        } else {
            if cur >= 0 {
                sum = sum + cur + 1;
            }
            cur = -1;
        }
        i = i + 1;
    }
    let total = if cur >= 0 { sum + cur + 1 } else { sum };
    total <= MAX_DURATION_NUMBERS as i64
}

/// The position where the line holding position `j` starts.
pub open spec fn line_start(s: Seq<char>, j: int) -> int
    decreases j,
{
    if j <= 0 {
        0
    } else if s[j - 1] == '\n' {
        j
    } else {
        line_start(s, j - 1)
    }
}

/// The line holding position `j` names the time zone of its dates: it is an
/// `RDATE` or `EXDATE` line with a `TZID` parameter.
pub open spec fn zoned_line(s: Seq<char>, j: int) -> bool {
    matches_at(s, "RDATE;TZID="@, line_start(s, j)) || matches_at(s, "EXDATE;TZID="@, line_start(s, j))
}

/// The digit run that ends at `j` (six digits or more) is ended by `T` (the
/// date part of a date and time) or `Z` (a time in UTC), or stands on a line
/// that names its time zone.
pub open spec fn run_end_ok(s: Seq<char>, j: int) -> bool {
    (5 <= j < s.len() && (forall|k: int| j - 5 <= k <= j ==> is_digit(#[trigger] s[k]))
        && (j + 1 == s.len() || !is_digit(s[j + 1])))
        ==> (j + 1 < s.len() && (s[j + 1] == 'T' || s[j + 1] == 'Z')) || zoned_line(s, j)
}

/// Every date and time of a rule set text is in UTC or in a named time zone:
/// each run of six or more digits is the date before a `T`, a time followed
/// by `Z`, or on an `RDATE` or `EXDATE` line with a `TZID`. Any other date or
/// time would be read in the time zone of the machine.
pub open spec fn zulu_times(s: Seq<char>) -> bool {
    forall|j: int| 0 <= j < s.len() ==> #[trigger] run_end_ok(s, j)
}

fn check_zulu_times(s: &Vec<char>) -> (r: bool)
    ensures
        r == zulu_times(s@),
{
    let rdate = chars_of("RDATE;TZID=");
    let exdate = chars_of("EXDATE;TZID=");
    proof {
        reveal_strlit("RDATE;TZID=");
        reveal_strlit("EXDATE;TZID=");
    }
    let n = s.len();
    let mut run: usize = 0;
    let mut ls: usize = 0;
    let mut zoned = matches_at_exec(s, &rdate, 0) || matches_at_exec(s, &exdate, 0);
    let mut i: usize = 0;
    while i < n
        invariant
            n == s@.len(),
            i <= n,
            run <= i,
            rdate@ == "RDATE;TZID="@,
            exdate@ == "EXDATE;TZID="@,
            ls == line_start(s@, i as int),
            zoned == (matches_at(s@, rdate@, ls as int) || matches_at(s@, exdate@, ls as int)),
            forall|k: int| i - run <= k < i ==> is_digit(#[trigger] s@[k]),
            run < i ==> !is_digit(s@[i - run - 1]),
            forall|j: int| 0 <= j < i - 1 ==> #[trigger] run_end_ok(s@, j),
        decreases n - i,
    {
        let c = s[i];
        if '0' <= c && c <= '9' {
            proof {
                if i >= 1 {
                    assert(run_end_ok(s@, i - 1));
                }
            }
            run = run + 1;
        } else {
            proof {
                if i >= 1 && run >= 1 {
                    assert(line_start(s@, i as int) == line_start(s@, i - 1));
                }
            }
            if run >= 6 && c != 'T' && c != 'Z' && !zoned {
                proof {
                    assert(!run_end_ok(s@, i - 1));
                }
                return false;
            }
            proof {
                if i >= 1 {
                    if run < 6 && run < i {
                        assert(!is_digit(s@[i - run - 1]));
                    }
                    assert(run_end_ok(s@, i - 1));
                }
            }
            run = 0;
        }
        if c == '\n' {
            ls = i + 1;
            zoned = matches_at_exec(s, &rdate, ls) || matches_at_exec(s, &exdate, ls);
        }
        i = i + 1;
    }
    if run >= 6 && !zoned {
        proof {
            assert(line_start(s@, n as int) == line_start(s@, n - 1));
            assert(!run_end_ok(s@, n - 1));
        }
        return false;
    }
    proof {
        assert forall|j: int| 0 <= j < s@.len() implies #[trigger] run_end_ok(s@, j) by {
            if j == n - 1 {
                if run >= 1 {
                    assert(line_start(s@, n as int) == line_start(s@, n - 1));
                }
                if run < n {
                    assert(!is_digit(s@[n - run - 1]));
                }
            }
        }
    }
    true
}

/// The length in milliseconds of an ISO 8601 duration text (such as `PT1H`),
/// or `None` when the text is not such a duration or names years or months.
pub uninterp spec fn iso8601_duration_ms(text: Seq<char>) -> Option<i64>;

/// Whether the iCalendar text (a DTSTART line followed by RRULE/RDATE/EXDATE
/// lines), all of whose dates and times are in UTC or in a named time zone
/// (see [`zulu_times`]), is a valid recurrence rule set.
pub uninterp spec fn rrule_set_valid(text: Seq<char>) -> bool;

/// The start instants (ms) of the occurrences of the recurrence rule set given
/// by `text` (all of whose dates and times are in UTC or in a named time
/// zone), restricted to `[after_ms, before_ms]`, at most `limit` of them, in
/// the order the rule set yields them.
pub uninterp spec fn rrule_occurrences(text: Seq<char>, after_ms: i64, before_ms: i64, limit: u16) -> Seq<i64>;

/// Reads an ISO 8601 duration with `iso8601_duration::Duration::from_str` and
/// converts it with `Duration::to_chrono`; the result is named by
/// [`iso8601_duration_ms`]. Only plain texts whose numbers add up to at most
/// the bound are admitted: the seconds that `to_chrono` passes to
/// `chrono::TimeDelta::seconds` then stay within its range. With larger
/// numbers, an exponent (`1e20`) or `inf`, that call panics.
#[verifier::external_body]
fn parse_iso8601_duration_ms(text: &str) -> (r: Option<i64>)
    requires
        plain_duration(text@),
        duration_numbers_small(text@),
    ensures
        r == iso8601_duration_ms(text@),
{
    match text.parse::<Iso8601Duration>() {
        Ok(d) => match d.to_chrono() {
            Some(c) => Some(c.num_milliseconds()),
            None => None,
        },
        Err(_) => None,
    }
}

/// Whether `rrule::RRuleSet::from_str` accepts the text. Texts with a date
/// or time that is neither in UTC nor in a named time zone are left out:
/// rrule reads those in the machine's time zone.
#[verifier::external_body]
fn check_rrule_set(text: &str) -> (r: bool)
    requires
        zulu_times(text@),
    ensures
        r == rrule_set_valid(text@),
{
    RRuleSet::from_str(text).is_ok()
}

/// Expands a recurrence rule set with `RRuleSet::after`, `RRuleSet::before` and
/// `RRuleSet::all`, in UTC. Every occurrence is a date, so its instant is
/// within the range of calendar dates. `all` walks the rule set's
/// occurrences, which do not depend on the window, keeps those within the
/// window (both ends included) up to `limit`, and stops at the first one past
/// the window's end: so, with a window whose ends are calendar dates and a
/// `limit` of at least one, nothing is found only where no window within it
/// holds an occurrence.
#[verifier::external_body]
fn expand_rrule_set(text: &str, after_ms: i64, before_ms: i64, limit: u16) -> (r: Vec<i64>)
    requires
        zulu_times(text@),
        rrule_set_valid(text@),
    ensures
        r@ == rrule_occurrences(text@, after_ms, before_ms, limit),
        forall|i: int| 0 <= i < r@.len() ==> valid_time(#[trigger] r@[i] as int),
        valid_time(after_ms as int) && valid_time(before_ms as int) && limit >= 1 && r@.len() == 0
            ==> forall|a: i64, b: i64, l: u16| after_ms <= a && b <= before_ms
                ==> #[trigger] rrule_occurrences(text@, a, b, l).len() == 0,
{
    let Ok(set) = RRuleSet::from_str(text) else {
        return Vec::new();
    };
    let (Some(after), Some(before)) = (
        rrule::Tz::UTC.timestamp_millis_opt(after_ms).single(),
        rrule::Tz::UTC.timestamp_millis_opt(before_ms).single(),
    ) else {
        return Vec::new();
    };
    set.after(after).before(before).all(limit).dates.iter().map(|d| d.timestamp_millis()).collect()
}

/// One recurring event of a calendar.
#[derive(Debug, Clone)]
pub struct RecurrentEvent {
    /// The iCalendar text of the recurrence rule set: the DTSTART line, then
    /// the rule lines.
    pub rrule_set: String,
    /// How long each occurrence lasts (ms).
    pub duration: i64,
}

impl View for RecurrentEvent {
    type V = (Seq<char>, i64);

    open spec fn view(&self) -> (Seq<char>, i64) {
        (self.rrule_set@, self.duration)
    }
}

/// A calendar of recurring events, read from the multiline text format
/// `DTSTART:<start>;DURATION:<iso8601>` followed by rule lines, per event.
#[derive(Debug, Clone)]
pub struct Calendar {
    pub events: Vec<RecurrentEvent>,
}

impl View for Calendar {
    type V = Seq<(Seq<char>, i64)>;

    open spec fn view(&self) -> Seq<(Seq<char>, i64)> {
        self.events@.map_values(|e: RecurrentEvent| e@)
    }
}

/// Reads one event block (the text after a `DTSTART:`).
pub open spec fn parse_event(block: Seq<char>) -> Result<(Seq<char>, i64), CalendarError> {
    let lines = split_nonempty(block, seq!['\n']);
    if lines.len() < 2 {
        Err(CalendarError::Rrule)
    } else {
        let header_parts = split_nonempty(lines[0], ";DURATION:"@);
        if header_parts.len() != 2 {
            Err(CalendarError::HeaderPartsLength)
        } else if !plain_duration(header_parts[1]) || !duration_numbers_small(header_parts[1]) {
            Err(CalendarError::Duration)
        } else {
            match iso8601_duration_ms(header_parts[1]) {
                None => Err(CalendarError::Duration),
                Some(duration) => {
                    if !valid_time(duration as int) {
                        Err(CalendarError::Duration)
                    } else {
                        let text = "DTSTART:"@ + header_parts[0] + seq!['\n'] + join(lines.skip(1), seq!['\n']);
                        if zulu_times(text) && rrule_set_valid(text) {
                            Ok((text, duration))
                        } else {
                            Err(CalendarError::RruleSet)
                        }
                    }
                },
            }
        }
    }
}

/// Reads event blocks in order; the first error is returned.
pub open spec fn parse_events(blocks: Seq<Seq<char>>) -> Result<Seq<(Seq<char>, i64)>, CalendarError>
    decreases blocks.len(),
{
    if blocks.len() == 0 {
        Ok(Seq::empty())
    } else {
        match parse_event(blocks[0]) {
            Err(e) => Err(e),
            Ok(event) => match parse_events(blocks.drop_first()) {
                Err(e) => Err(e),
                Ok(rest) => Ok(seq![event] + rest),
            },
        }
    }
}

/// Reads a calendar text.
pub open spec fn parse_calendar(text: Seq<char>) -> Result<Seq<(Seq<char>, i64)>, CalendarError> {
    parse_events(split_nonempty(text, "DTSTART:"@))
}

pub proof fn lemma_parse_events_step(blocks: Seq<Seq<char>>, i: int)
    requires
        0 <= i < blocks.len(),
    ensures
        parse_events(blocks.skip(i)) == match parse_event(blocks[i]) {
            Err(e) => Err(e),
            Ok(event) => match parse_events(blocks.skip(i + 1)) {
                Err(e) => Err(e),
                Ok(rest) => Ok(seq![event] + rest),
            },
        },
{
    assert(blocks.skip(i).drop_first() =~= blocks.skip(i + 1));
    assert(blocks.skip(i)[0] == blocks[i]);
}

impl Calendar {
    /// Reads one event block.
    fn parse_event_exec(block: &Vec<char>) -> (r: Result<RecurrentEvent, CalendarError>)
        ensures
            match r {
                Ok(e) => parse_event(block@) == Ok::<(Seq<char>, i64), CalendarError>(e@),
                Err(e) => parse_event(block@) == Err::<(Seq<char>, i64), CalendarError>(e),
            },
    {
        let newline: Vec<char> = vec!['\n'];
        proof {
            assert(newline@ =~= seq!['\n']);
        }
        let lines = split_nonempty_exec(block, &newline);
        proof {
            assert(views(lines@).len() == lines@.len());
        }
        if lines.len() < 2 {
            return Err(CalendarError::Rrule);
        }
        let duration_sep = chars_of(";DURATION:");
        proof {
            reveal_strlit(";DURATION:");
        }
        let header_parts = split_nonempty_exec(&lines[0], &duration_sep);
        if header_parts.len() != 2 {
            return Err(CalendarError::HeaderPartsLength);
        }
        if !is_plain_duration(&header_parts[1]) || !check_duration_numbers(&header_parts[1]) {
            return Err(CalendarError::Duration);
        }
        let duration_text = string_from_chars(&header_parts[1]);
        let duration = match parse_iso8601_duration_ms(duration_text.as_str()) {
            None => return Err(CalendarError::Duration),
            Some(d) => d,
        };
        if duration < -MAX_TIME_MS || duration > MAX_TIME_MS {
            return Err(CalendarError::Duration);
        }
        let prefix = chars_of("DTSTART:");
        let rules = join_exec(&lines, 1, &newline);
        let text = concat_chars(&concat_chars(&concat_chars(&prefix, &header_parts[0]), &newline), &rules);
        proof {
            assert(views(lines@).skip(1) =~= split_nonempty(block@, seq!['\n']).skip(1));
            assert(lines@[0]@ == split_nonempty(block@, seq!['\n'])[0]);
            assert(header_parts@[0]@ == split_nonempty(lines@[0]@, ";DURATION:"@)[0]);
            assert(header_parts@[1]@ == split_nonempty(lines@[0]@, ";DURATION:"@)[1]);
        }
        if !check_zulu_times(&text) {
            return Err(CalendarError::RruleSet);
        }
        let text = string_from_chars(&text);
        if !check_rrule_set(text.as_str()) {
            return Err(CalendarError::RruleSet);
        }
        Ok(RecurrentEvent { rrule_set: text, duration })
    }

    /// Reads a calendar text: one event per `DTSTART:`, each with a
    /// `;DURATION:` header part and at least one rule line.
    pub fn parse(calendar_str: &str) -> (r: Result<Calendar, CalendarError>)
        ensures
            match r {
                Ok(c) => parse_calendar(calendar_str@) == Ok::<Seq<(Seq<char>, i64)>, CalendarError>(c@) && c.wf(),
                Err(e) => parse_calendar(calendar_str@) == Err::<Seq<(Seq<char>, i64)>, CalendarError>(e),
            },
    {
        let text = chars_of(calendar_str);
        let sep = chars_of("DTSTART:");
        proof {
            reveal_strlit("DTSTART:");
        }
        let blocks = split_nonempty_exec(&text, &sep);
        let ghost all = views(blocks@);
        let mut events: Vec<RecurrentEvent> = Vec::new();
        let mut i: usize = 0;
        proof {
            assert(all.skip(0) =~= all);
        }
        while i < blocks.len()
            invariant
                i <= blocks@.len(),
                all == views(blocks@),
                all == split_nonempty(calendar_str@, "DTSTART:"@),
                parse_events(all) == match parse_events(all.skip(i as int)) {
                    Err(e) => Err(e),
                    Ok(rest) => Ok(events@.map_values(|e: RecurrentEvent| e@) + rest),
                },
            decreases blocks@.len() - i,
        {
            proof {
                lemma_parse_events_step(all, i as int);
                assert(all[i as int] == blocks@[i as int]@);
            }
            let event = match Calendar::parse_event_exec(&blocks[i]) {
                Err(e) => return Err(e),
                Ok(e) => e,
            };
            let ghost old_events = events@;
            events.push(event);
            proof {
                assert(events@.map_values(|e: RecurrentEvent| e@)
                    =~= old_events.map_values(|e: RecurrentEvent| e@).push(event@));
                match parse_events(all.skip(i + 1)) {
                    Err(e) => {},
                    Ok(rest) => {
                        assert(old_events.map_values(|e: RecurrentEvent| e@) + (seq![event@] + rest)
                            =~= events@.map_values(|e: RecurrentEvent| e@) + rest);
                    },
                }
            }
            i = i + 1;
        }
        proof {
            lemma_parsed_events_wf(all);
            assert(all.skip(i as int) =~= Seq::<Seq<char>>::empty());
            assert(events@.map_values(|e: RecurrentEvent| e@) + Seq::<(Seq<char>, i64)>::empty()
                =~= events@.map_values(|e: RecurrentEvent| e@));
        }
        Ok(Calendar { events })
    }
}

/// The parts of the occurrences `[d, d + duration)` that fall within
/// `[start, end)`, in order.
pub open spec fn crop_occurrences(dates: Seq<i64>, duration: i64, start: i64, end: i64) -> Seq<Timeslot>
    decreases dates.len(),
{
    if dates.len() == 0 {
        Seq::empty()
    } else {
        let slot_start = dates[0];
        let slot_end = slot_start + duration;
        let rest = crop_occurrences(dates.drop_first(), duration, start, end);
        if slot_start >= end || slot_end <= start {
            rest
        } else {
            seq![Timeslot { time_start: later(slot_start, start), time_end: earlier((slot_start + duration) as i64, end) }].add(rest)
        }
    }
}

/// The timeslots of a calendar's events within `[start, end)`, event by
/// event: for each event in order, its occurrences from a day before `start`
/// to a day after `end`.
pub open spec fn event_timeslots(events: Seq<(Seq<char>, i64)>, start: i64, end: i64) -> Seq<Timeslot>
    decreases events.len(),
{
    if events.len() == 0 {
        Seq::empty()
    } else {
        crop_occurrences(
            rrule_occurrences(events[0].0, (start - DAY_MS) as i64, (end + DAY_MS) as i64, MAX_EVENT_COUNT),
            events[0].1,
            start,
            end,
        ) + event_timeslots(events.drop_first(), start, end)
    }
}

/// The start of a timeslot, as the order of timeslots.
pub open spec fn timeslot_start_key() -> spec_fn(Timeslot) -> int {
    |t: Timeslot| t.time_start as int
}

/// The timeslots of a calendar's events within `[start, end)`, sorted by
/// their start (timeslots with the same start in the order of the events).
pub open spec fn calendar_timeslots(events: Seq<(Seq<char>, i64)>, start: i64, end: i64) -> Seq<Timeslot> {
    sort_by(event_timeslots(events, start, end), timeslot_start_key())
}

/// Inserts a timeslot after the last one that starts no later; returns where.
fn insert_timeslot_by_start(v: &mut Vec<Timeslot>, x: Timeslot) -> (j: usize)
    ensures
        j <= old(v)@.len(),
        final(v)@ == old(v)@.insert(j as int, x),
        final(v)@ == insert_by(old(v)@, x, timeslot_start_key()),
{
    let ghost vs = v@;
    let mut j: usize = v.len();
    while j > 0
        invariant
            vs == v@,
            j <= v@.len(),
            forall|k: int| j <= k < vs.len() ==> timeslot_start_key()(#[trigger] vs[k]) > timeslot_start_key()(x),
        ensures
            j == 0 || vs[j - 1].time_start <= x.time_start,
        decreases j,
    {
        if v[j - 1].time_start <= x.time_start {
            break;
        }
        j = j - 1;
    }
    proof {
        lemma_insert_by(vs, x, timeslot_start_key(), j as int);
    }
    v.insert(j, x);
    proof {
        assert(v@ =~= vs.take(j as int).push(x) + vs.skip(j as int));
    }
    j
}

/// The events of a calendar that was read successfully have valid rule sets and
/// durations within range.
pub open spec fn events_wf(events: Seq<(Seq<char>, i64)>) -> bool {
    forall|i: int| 0 <= i < events.len() ==> zulu_times(#[trigger] events[i].0) && rrule_set_valid(events[i].0)
        && valid_time(events[i].1 as int)
}

pub proof fn lemma_parsed_events_wf(blocks: Seq<Seq<char>>)
    ensures
        parse_events(blocks) matches Ok(events) ==> events_wf(events),
    decreases blocks.len(),
{
    if blocks.len() > 0 {
        lemma_parsed_events_wf(blocks.drop_first());
        if let Ok(events) = parse_events(blocks) {
            let rest = parse_events(blocks.drop_first())->Ok_0;
            assert forall|i: int| 0 <= i < events.len() implies zulu_times(#[trigger] events[i].0) && rrule_set_valid(events[i].0)
                && valid_time(events[i].1 as int) by {
                if i > 0 {
                    assert(events[i] == rest[i - 1]);
                }
            }
        }
    }
}

impl Calendar {
    /// The calendar's events have valid rule sets and durations within range.
    pub open spec fn wf(&self) -> bool {
        events_wf(self@)
    }

    /// The available timeslots within `[time_start, time_end)`, in order of
    /// their start (see [`calendar_timeslots`]).
    pub fn to_timeslots(&self, time_start: &i64, time_end: &i64) -> (r: Result<Vec<Timeslot>, CalendarError>)
        requires
            self.wf(),
            i64::MIN + DAY_MS <= *time_start,
            *time_end <= i64::MAX - DAY_MS,
        ensures
            r matches Ok(v) && v@ == calendar_timeslots(self@, *time_start, *time_end),
            r matches Ok(v) && forall|i: int| 0 <= i < v@.len()
                ==> (#[trigger] v@[i]).within(earlier(*time_start, *time_end) as int, later(*time_start, *time_end) as int),
    {
        let start: i64 = *time_start - DAY_MS;
        let end: i64 = *time_end + DAY_MS;
        let mut timeslots: Vec<Timeslot> = Vec::new();
        let mut k: usize = 0;
        proof {
            assert(self@.skip(0) =~= self@);
            assert(timeslots@ + event_timeslots(self@, *time_start, *time_end) =~= event_timeslots(self@, *time_start, *time_end));
        }
        while k < self.events.len()
            invariant
                self.wf(),
                start == *time_start - DAY_MS,
                end == *time_end + DAY_MS,
                k <= self.events@.len(),
                timeslots@ + event_timeslots(self@.skip(k as int), *time_start, *time_end)
                    == event_timeslots(self@, *time_start, *time_end),
                forall|i: int| 0 <= i < timeslots@.len()
                    ==> (#[trigger] timeslots@[i]).within(earlier(*time_start, *time_end) as int, later(*time_start, *time_end) as int),
            decreases self.events@.len() - k,
        {
            let event = &self.events[k];
            proof {
                assert(self@[k as int] == event@);
                assert(self@.skip(k as int).drop_first() =~= self@.skip(k + 1));
                assert(self@.skip(k as int)[0] == event@);
            }
            let dates = expand_rrule_set(event.rrule_set.as_str(), start, end, MAX_EVENT_COUNT);
            let ghost dates_all = dates@;
            let ghost base = timeslots@;
            let mut j: usize = 0;
            proof {
                assert(dates_all.skip(0) =~= dates_all);
                assert(timeslots@ =~= base + Seq::<Timeslot>::empty());
            }
            while j < dates.len()
                invariant
                    valid_time(event.duration as int),
                    dates@ == dates_all,
                    forall|i: int| 0 <= i < dates_all.len() ==> valid_time(#[trigger] dates_all[i] as int),
                    j <= dates@.len(),
                    timeslots@ + crop_occurrences(dates_all.skip(j as int), event.duration, *time_start, *time_end)
                        == base + crop_occurrences(dates_all, event.duration, *time_start, *time_end),
                    forall|i: int| 0 <= i < timeslots@.len()
                        ==> (#[trigger] timeslots@[i]).within(earlier(*time_start, *time_end) as int, later(*time_start, *time_end) as int),
                decreases dates@.len() - j,
            {
                let slot_start = dates[j];
                let slot_end = slot_start + event.duration;
                proof {
                    assert(dates_all.skip(j as int).drop_first() =~= dates_all.skip(j + 1));
                    assert(dates_all.skip(j as int)[0] == slot_start);
                }
                if !(slot_start >= *time_end || slot_end <= *time_start) {
                    let timeslot = Timeslot {
                        time_start: if slot_start >= *time_start { slot_start } else { *time_start },
                        time_end: if slot_end <= *time_end { slot_end } else { *time_end },
                    };
                    let ghost before_push = timeslots@;
                    timeslots.push(timeslot);
                    proof {
                        assert(timeslots@ + crop_occurrences(dates_all.skip(j + 1), event.duration, *time_start, *time_end)
                            =~= before_push + crop_occurrences(dates_all.skip(j as int), event.duration, *time_start, *time_end));
                    }
                }
                j = j + 1;
            }
            proof {
                assert(dates_all.skip(j as int) =~= Seq::<i64>::empty());
                assert(timeslots@ =~= base + crop_occurrences(dates_all, event.duration, *time_start, *time_end));
                assert(base + event_timeslots(self@.skip(k as int), *time_start, *time_end)
                    =~= timeslots@ + event_timeslots(self@.skip(k + 1), *time_start, *time_end));
            }
            k = k + 1;
        }
        proof {
            assert(self@.skip(k as int) =~= Seq::<(Seq<char>, i64)>::empty());
            assert(timeslots@ + Seq::<Timeslot>::empty() =~= timeslots@);
        }
        let ghost all = timeslots@;
        let mut sorted: Vec<Timeslot> = Vec::new();
        let mut i: usize = 0;
        proof {
            assert(all.take(0) =~= Seq::<Timeslot>::empty());
        }
        while i < timeslots.len()
            invariant
                all == timeslots@,
                i <= all.len(),
                sorted@ == sort_by(all.take(i as int), timeslot_start_key()),
                forall|m: int| 0 <= m < all.len()
                    ==> (#[trigger] all[m]).within(earlier(*time_start, *time_end) as int, later(*time_start, *time_end) as int),
                forall|m: int| 0 <= m < sorted@.len()
                    ==> (#[trigger] sorted@[m]).within(earlier(*time_start, *time_end) as int, later(*time_start, *time_end) as int),
            decreases all.len() - i,
        {
            let x = timeslots[i];
            proof {
                assert(all.take(i + 1).drop_last() =~= all.take(i as int));
                assert(all.take(i + 1).last() == x);
            }
            let ghost before = sorted@;
            let j = insert_timeslot_by_start(&mut sorted, x);
            proof {
                assert forall|m: int| 0 <= m < sorted@.len()
                    implies (#[trigger] sorted@[m]).within(earlier(*time_start, *time_end) as int, later(*time_start, *time_end) as int) by {
                    if m < j {
                        assert(sorted@[m] == before[m]);
                    } else if m > j {
                        assert(sorted@[m] == before[m - 1]);
                    } else {
                        assert(sorted@[m] == all[i as int]);
                    }
                }
            }
            i = i + 1;
        }
        proof {
            assert(all.take(i as int) =~= all);
        }
        Ok(sorted)
    }
}

/// Whether an event blocks `[start, end]`: one of its occurrences starts
/// within it, or starts early enough to still last into it.
pub open spec fn event_blocks(event: (Seq<char>, i64), start: i64, end: i64) -> bool {
    rrule_occurrences(event.0, start, end, 1).len() > 0
        || rrule_occurrences(event.0, (start - event.1) as i64, end, 10).len() > 0
}

/// Whether no event of the calendar blocks the span from a second after
/// `start_ms` to a second before `end_ms` (so that touching events leave it
/// free).
pub open spec fn available_between(events: Seq<(Seq<char>, i64)>, start_ms: i64, end_ms: i64) -> bool {
    forall|i: int| 0 <= i < events.len() ==> !event_blocks(#[trigger] events[i], (start_ms + 1000) as i64, (end_ms - 1000) as i64)
}

/// No window within `[start, end]` holds an occurrence of the event, nor one
/// that starts early enough to last into it.
pub open spec fn free_within(event: (Seq<char>, i64), start: i64, end: i64) -> bool {
    &&& forall|a: i64, b: i64, l: u16| start <= a && b <= end ==> #[trigger] rrule_occurrences(event.0, a, b, l).len() == 0
    &&& forall|a: i64, b: i64, l: u16| (start - event.1) as i64 <= a && b <= end
        ==> #[trigger] rrule_occurrences(event.0, a, b, l).len() == 0
}

/// The instants that checking the span from `start_ms` to `end_ms` looks
/// from and to are calendar dates (see [`available_between`]).
pub open spec fn window_in_range(events: Seq<(Seq<char>, i64)>, start_ms: i64, end_ms: i64) -> bool {
    &&& valid_time(start_ms + 1000)
    &&& valid_time(end_ms - 1000)
    &&& forall|i: int| 0 <= i < events.len() ==> valid_time(start_ms + 1000 - (#[trigger] events[i]).1)
}

impl Calendar {
    /// Whether the calendar leaves the span from `start_ms` to `end_ms` free
    /// (see [`available_between`]). A free span stays free when shrunk.
    pub fn is_available_between(&self, start_ms: i64, end_ms: i64) -> (r: bool)
        requires
            self.wf(),
            valid_time(start_ms as int),
            valid_time(end_ms as int),
        ensures
            r == available_between(self@, start_ms, end_ms),
            r && window_in_range(self@, start_ms, end_ms) ==> forall|s2: i64, e2: i64|
                start_ms <= s2 <= e2 <= end_ms ==> #[trigger] available_between(self@, s2, e2),
    {
        let start = start_ms + 1000;
        let end = end_ms - 1000;
        let mut i: usize = 0;
        while i < self.events.len()
            invariant
                self.wf(),
                start == start_ms + 1000,
                end == end_ms - 1000,
                valid_time(start_ms as int),
                i <= self.events@.len(),
                forall|k: int| 0 <= k < i ==> !event_blocks(#[trigger] self@[k], start, end),
                forall|k: int| 0 <= k < i && window_in_range(self@, start_ms, end_ms) ==> free_within(#[trigger] self@[k], start, end),
            decreases self.events@.len() - i,
        {
            let event = &self.events[i];
            proof {
                assert(self@[i as int] == event@);
                let ghost ev = self@;
                assert(events_wf(ev));
                assert(0 <= i < ev.len());
                assert(zulu_times(ev[i as int].0));
                assert(rrule_set_valid(ev[i as int].0));
                assert(valid_time(ev[i as int].1 as int));
            }
            let first = expand_rrule_set(event.rrule_set.as_str(), start, end, 1);
            if first.len() > 0 {
                return false;
            }
            let lasting = expand_rrule_set(event.rrule_set.as_str(), start - event.duration, end, 10);
            if lasting.len() > 0 {
                return false;
            }
            proof {
                if window_in_range(self@, start_ms, end_ms) {
                    assert(valid_time(start_ms + 1000 - self@[i as int].1));
                }
            }
            i = i + 1;
        }
        proof {
            if window_in_range(self@, start_ms, end_ms) {
                assert forall|s2: i64, e2: i64| start_ms <= s2 <= e2 <= end_ms implies #[trigger] available_between(self@, s2, e2) by {
                    assert forall|k: int| 0 <= k < self@.len() implies !event_blocks(#[trigger] self@[k], (s2 + 1000) as i64, (e2 - 1000) as i64) by {
                        assert(free_within(self@[k], start, end));
                        let a = (s2 + 1000) as i64;
                        let b = (e2 - 1000) as i64;
                        let a2 = (a - self@[k].1) as i64;
                        assert(rrule_occurrences(self@[k].0, a, b, 1).len() == 0);
                        assert(rrule_occurrences(self@[k].0, a2, b, 10).len() == 0);
                    }
                }
            }
        }
        true
    }
}

impl FromStr for Calendar {
    type Err = CalendarError;

    fn from_str(calendar_str: &str) -> (r: Result<Self, Self::Err>)
        ensures
            match r {
                Ok(c) => parse_calendar(calendar_str@) == Ok::<Seq<(Seq<char>, i64)>, CalendarError>(c@) && c.wf(),
                Err(e) => parse_calendar(calendar_str@) == Err::<Seq<(Seq<char>, i64)>, CalendarError>(e),
            },
    {
        Calendar::parse(calendar_str)
    }
}


/// The start of a recurrence rule set: the name of its time zone (`None` for
/// the local zone) and its local date and time as `YYYYMMDDThhmmss`.
pub uninterp spec fn rrule_start(text: Seq<char>) -> (Option<Seq<char>>, Seq<char>);

/// The texts of the recurrence rules of a rule set, as `rrule` prints them.
pub uninterp spec fn rrule_rules(text: Seq<char>) -> Seq<Seq<char>>;

/// The extra dates of a rule set (its RDATEs), each as its zone name and
/// local date and time, as for [`rrule_start`].
pub uninterp spec fn rrule_dates(text: Seq<char>) -> Seq<(Option<Seq<char>>, Seq<char>)>;

/// The ISO 8601 text that `chrono` gives for a duration (ms), such as
/// `PT50400S`.
pub uninterp spec fn duration_text(ms: i64) -> Seq<char>;

pub open spec fn opt_view(s: Option<String>) -> Option<Seq<char>> {
    match s {
        None => None,
        Some(t) => Some(t@),
    }
}

pub open spec fn dated_views(v: Seq<(Option<String>, String)>) -> Seq<(Option<Seq<char>>, Seq<char>)> {
    v.map_values(|d: (Option<String>, String)| (opt_view(d.0), d.1@))
}

/// Reads the rule set with `RRuleSet::from_str` and gives the zone name
/// (`Tz::name`, none for `Tz::Local`) and the `%Y%m%dT%H%M%S` text of its
/// start (`RRuleSet::get_dt_start`); named by [`rrule_start`].
#[verifier::external_body]
fn rrule_set_start(text: &str) -> (r: (Option<String>, String))
    requires
        zulu_times(text@),
        rrule_set_valid(text@),
    ensures
        (opt_view(r.0), r.1@) == rrule_start(text@),
{
    let Ok(set) = RRuleSet::from_str(text) else {
        return (None, String::new());
    };
    let start = set.get_dt_start();
    let zone = match start.timezone() {
        Tz::Local(_) => None,
        tz => Some(tz.name().to_string()),
    };
    (zone, start.format("%Y%m%dT%H%M%S").to_string())
}

/// Reads the rule set with `RRuleSet::from_str` and prints each of its rules
/// (`RRuleSet::get_rrule`, `RRule`'s `Display`); named by [`rrule_rules`].
#[verifier::external_body]
fn rrule_set_rules(text: &str) -> (r: Vec<String>)
    requires
        zulu_times(text@),
        rrule_set_valid(text@),
    ensures
        r@.map_values(|t: String| t@) == rrule_rules(text@),
{
    let Ok(set) = RRuleSet::from_str(text) else {
        return Vec::new();
    };
    set.get_rrule().iter().map(|rule| rule.to_string()).collect()
}

/// Reads the rule set with `RRuleSet::from_str` and gives each of its extra
/// dates (`RRuleSet::get_rdate`) as its zone name and `%Y%m%dT%H%M%S` text;
/// named by [`rrule_dates`].
#[verifier::external_body]
fn rrule_set_dates(text: &str) -> (r: Vec<(Option<String>, String)>)
    requires
        zulu_times(text@),
        rrule_set_valid(text@),
    ensures
        dated_views(r@) == rrule_dates(text@),
{
    let Ok(set) = RRuleSet::from_str(text) else {
        return Vec::new();
    };
    let mut dates = Vec::new();
    for date in set.get_rdate() {
        let zone = match date.timezone() {
            Tz::Local(_) => None,
            tz => Some(tz.name().to_string()),
        };
        dates.push((zone, date.format("%Y%m%dT%H%M%S").to_string()));
    }
    dates
}

/// Prints a duration (ms) with `chrono::TimeDelta::milliseconds` and its
/// `Display`; named by [`duration_text`].
#[verifier::external_body]
fn format_duration(ms: i64) -> (r: String)
    requires
        valid_time(ms as int),
    ensures
        r@ == duration_text(ms),
{
    chrono::TimeDelta::milliseconds(ms).to_string()
}

/// A date in iCalendar form: `YYYYMMDDThhmmssZ` in UTC,
/// `;TZID=<zone>:YYYYMMDDThhmmss` in another named zone, and the bare local
/// date and time in the local zone.
pub open spec fn ical_date(zone: Option<Seq<char>>, local: Seq<char>) -> Seq<char> {
    match zone {
        None => local,
        Some(name) => if name == "UTC"@ {
            local + "Z"@
        } else {
            ";TZID="@ + name + ":"@ + local
        },
    }
}

/// Formats a date in iCalendar form (see [`ical_date`]).
pub fn datetime_to_ical_format(zone: &Option<String>, local: &String) -> (r: String)
    ensures
        r@ == ical_date(opt_view(*zone), local@),
{
    match zone {
        None => local.clone(),
        Some(name) => {
            if str_eq(name.as_str(), "UTC") {
                let mut s = local.clone();
                s.append("Z");
                s
            } else {
                let mut s = ";TZID=".to_owned();
                s.append(name.as_str());
                s.append(":");
                s.append(local.as_str());
                s
            }
        },
    }
}

/// The lines `<prefix><item>` of the items, each ended by a newline.
pub open spec fn prefixed_lines(prefix: Seq<char>, items: Seq<Seq<char>>) -> Seq<char>
    decreases items.len(),
{
    if items.len() == 0 {
        Seq::empty()
    } else {
        prefixed_lines(prefix, items.drop_last()) + prefix + items.last() + "\n"@
    }
}

/// The text of one event: its start and duration, then its rules and its
/// extra dates, a line each.
pub open spec fn event_text(event: (Seq<char>, i64)) -> Seq<char> {
    "DTSTART:"@ + ical_date(rrule_start(event.0).0, rrule_start(event.0).1) + ";DURATION:"@ + duration_text(event.1) + "\n"@
        + prefixed_lines("RRULE:"@, rrule_rules(event.0))
        + prefixed_lines("RDATE:"@, rrule_dates(event.0).map_values(|d: (Option<Seq<char>>, Seq<char>)| ical_date(d.0, d.1)))
}

/// The text of a calendar, event after event, in the form it is read from.
pub open spec fn calendar_text(events: Seq<(Seq<char>, i64)>) -> Seq<char>
    decreases events.len(),
{
    if events.len() == 0 {
        Seq::empty()
    } else {
        calendar_text(events.drop_last()) + event_text(events.last())
    }
}

/// Appends the lines `<prefix><item>`.
fn append_lines(out: &mut String, prefix: &str, items: &Vec<String>)
    ensures
        final(out)@ == old(out)@ + prefixed_lines(prefix@, items@.map_values(|t: String| t@)),
{
    let ghost base = out@;
    let ghost all = items@.map_values(|t: String| t@);
    let mut i: usize = 0;
    proof {
        assert(all.take(0) =~= Seq::<Seq<char>>::empty());
        assert(out@ =~= base + prefixed_lines(prefix@, all.take(0)));
    }
    while i < items.len()
        invariant
            all == items@.map_values(|t: String| t@),
            i <= items@.len(),
            out@ == base + prefixed_lines(prefix@, all.take(i as int)),
        decreases items@.len() - i,
    {
        out.append(prefix);
        out.append(items[i].as_str());
        out.append("\n");
        proof {
            reveal_strlit("\n");
            assert(all.take(i + 1).drop_last() =~= all.take(i as int));
            assert(all.take(i + 1).last() == items@[i as int]@);
            assert(out@ =~= base + prefixed_lines(prefix@, all.take(i + 1)));
        }
        i = i + 1;
    }
    proof {
        assert(all.take(i as int) =~= all);
    }
}

impl Calendar {
    /// The calendar in the text form it is read from (see
    /// [`calendar_text`]).
    pub fn to_string(&self) -> (r: String)
        requires
            self.wf(),
        ensures
            r@ == calendar_text(self@),
    {
        let mut out = String::new();
        let mut k: usize = 0;
        proof {
            assert(self@.take(0) =~= Seq::<(Seq<char>, i64)>::empty());
        }
        while k < self.events.len()
            invariant
                self.wf(),
                k <= self.events@.len(),
                out@ == calendar_text(self@.take(k as int)),
            decreases self.events@.len() - k,
        {
            let event = &self.events[k];
            proof {
                assert(self@.len() == self.events@.len());
                assert(self@[k as int] == event@);
                let ghost ev = self@;
                assert(events_wf(ev));
                assert(0 <= k < ev.len());
                assert(zulu_times(ev[k as int].0));
                assert(rrule_set_valid(ev[k as int].0));
                assert(valid_time(ev[k as int].1 as int));
            }
            let (zone, local) = rrule_set_start(event.rrule_set.as_str());
            let ghost before = out@;
            out.append("DTSTART:");
            let start = datetime_to_ical_format(&zone, &local);
            out.append(start.as_str());
            out.append(";DURATION:");
            let duration = format_duration(event.duration);
            out.append(duration.as_str());
            out.append("\n");
            let rules = rrule_set_rules(event.rrule_set.as_str());
            append_lines(&mut out, "RRULE:", &rules);
            let dates = rrule_set_dates(event.rrule_set.as_str());
            let mut date_texts: Vec<String> = Vec::new();
            let mut j: usize = 0;
            while j < dates.len()
                invariant
                    j <= dates@.len(),
                    date_texts@.len() == j,
                    forall|m: int| 0 <= m < j ==> (#[trigger] date_texts@[m])@
                        == ical_date(opt_view(dates@[m].0), dates@[m].1@),
                decreases dates@.len() - j,
            {
                let t = datetime_to_ical_format(&dates[j].0, &dates[j].1);
                date_texts.push(t);
                j = j + 1;
            }
            append_lines(&mut out, "RDATE:", &date_texts);
            proof {
                reveal_strlit("\n");
                let ghost lhs = date_texts@.map_values(|t: String| t@);
                let ghost rhs = rrule_dates(event@.0).map_values(|d: (Option<Seq<char>>, Seq<char>)| ical_date(d.0, d.1));
                assert(dated_views(dates@) == rrule_dates(event@.0));
                assert forall|m: int| 0 <= m < lhs.len() implies #[trigger] lhs[m] == rhs[m] by {
                    assert(dated_views(dates@)[m] == (opt_view(dates@[m].0), dates@[m].1@));
                }
                assert(lhs =~= rhs);
                assert(rules@.map_values(|t: String| t@) == rrule_rules(event@.0));
                assert(out@ =~= before + event_text(event@));
                assert(self@.take(k + 1).drop_last() =~= self@.take(k as int));
                assert(self@.take(k + 1).last() == event@);
            }
            k = k + 1;
        }
        proof {
            assert(self@.take(k as int) =~= self@);
        }
        out
    }
}

} // verus!

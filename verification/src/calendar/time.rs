//! The world clock.

use vstd::prelude::*;

use crate::calendar::date::{Date, Season, date_of_day};
use crate::text::{push_two_digits, two_digits};

verus! {

/// Real seconds that one game minute lasts.
pub const SECONDS_PER_GAME_MINUTE: u64 = 1;

/// Hour on the wall clock when every day begins.
pub const DAWN_HOUR: u16 = 6;

/// Hours from dawn until the day ends at 02:00 for everyone still awake.
pub const DAY_HOURS: u16 = 20;

/// Hours from dawn until players may go to sleep, at 18:00.
pub const HOURS_UNTIL_BEDTIME: u16 = 12;

/// Game minutes in a day, from 06:00 until 02:00.
pub const MINUTES_PER_DAY: u16 = 1200;

/// A moment in the world: which day, and how far into it.
#[derive(Clone, Copy, Debug, PartialEq, Eq, PartialOrd, Ord, Hash, Structural)]
pub struct WorldTime {
    /// Days since the world began; day 0 is the first of spring, year one.
    day: u32,
    /// Game minutes since 06:00 on that day, below [`MINUTES_PER_DAY`].
    minute: u16,
}

/// A time of day as shown on a 24-hour clock.
#[derive(Clone, Copy, Debug, PartialEq, Eq, Structural)]
pub struct ClockTime {
    pub hour: u8,
    pub minute: u8,
}

/// Text that is not a time on a 24-hour clock.
#[derive(Clone, Copy, Debug, PartialEq, Eq, Structural)]
pub struct ParseClockTimeError;

/// Minutes since midnight that a wall clock showing `clock` stands at.
pub open spec fn clock_minutes(clock: ClockTime) -> nat {
    (clock.hour as nat) * 60 + clock.minute as nat
}

/// Game minutes since dawn that a wall clock showing `clock` stands at, on
/// a day that runs from 06:00 round to 06:00 again.
pub open spec fn minutes_since_dawn_at(clock: ClockTime) -> nat {
    ((clock_minutes(clock) as int + 1440int - (DAWN_HOUR as int) * 60) % 1440int) as nat
}

/// The wall clock `minute` game minutes after dawn.
pub open spec fn clock_after_dawn(minute: nat) -> ClockTime {
    let minutes: int = ((DAWN_HOUR as int) * 60 + minute as int) % 1440int;
    ClockTime { hour: (minutes / 60) as u8, minute: (minutes % 60) as u8 }
}

/// Whether `clock` is a time a 24-hour clock can show.
pub open spec fn is_clock_time(clock: ClockTime) -> bool {
    clock.hour < 24 && clock.minute < 60
}

/// The text a clock shows, such as `06:00`.
pub open spec fn clock_text(clock: ClockTime) -> Seq<char> {
    two_digits(clock.hour as nat) + seq![':'] + two_digits(clock.minute as nat)
}

impl WorldTime {
    /// Days since the world began.
    pub closed spec fn spec_day(self) -> u32 {
        self.day
    }

    /// Game minutes since 06:00.
    pub closed spec fn spec_minute(self) -> u16 {
        self.minute
    }

    #[verifier::type_invariant]
    spec fn within_the_day(self) -> bool {
        self.minute < MINUTES_PER_DAY
    }

    /// Times are told apart by their day and minute alone.
    pub proof fn same_moment(self, other: Self)
        requires
            self.spec_day() == other.spec_day(),
            self.spec_minute() == other.spec_minute(),
        ensures
            self == other,
    {
    }

    /// The moment the world began: dawn of its first day.
    pub fn first_dawn() -> (time: Self)
        ensures
            time.spec_day() == 0,
            time.spec_minute() == 0,
    {
        WorldTime { day: 0, minute: 0 }
    }

    /// `minute` game minutes after dawn on `day`, or `None` past the end of the day.
    pub fn new(day: u32, minute: u16) -> (time: Option<Self>)
        ensures
            time is Some <==> minute < MINUTES_PER_DAY,
            time matches Some(t) ==> t.spec_day() == day && t.spec_minute() == minute,
    {
        if minute < MINUTES_PER_DAY {
            Some(WorldTime { day, minute })
        } else {
            None
        }
    }

    /// The moment `clock` shows on `day`, or `None` between 02:00 and 06:00,
    /// when no day is running.
    pub fn at(day: u32, clock: ClockTime) -> (time: Option<Self>)
        ensures
            time is Some <==> minutes_since_dawn_at(clock) < MINUTES_PER_DAY,
            time matches Some(t) ==> t.spec_day() == day && t.spec_minute()
                == minutes_since_dawn_at(clock),
    {
        let minutes: u16 = (clock.hour as u16) * 60 + (clock.minute as u16);
        let since_dawn: u16 = (minutes + 24 * 60 - DAWN_HOUR * 60) % (24 * 60);
        Self::new(day, since_dawn)
    }

    /// Days since the world began.
    pub fn day(self) -> (day: u32)
        ensures
            day == self.spec_day(),
    {
        self.day
    }

    /// Game minutes since 06:00.
    pub fn minutes_since_dawn(self) -> (minute: u16)
        ensures
            minute == self.spec_minute(),
            minute < MINUTES_PER_DAY,
    {
        proof { use_type_invariant(&self); }
        self.minute
    }

    /// The calendar date of this moment's day.
    pub fn date(self) -> (date: Date)
        ensures
            date == date_of_day(self.spec_day() as nat),
    {
        Date::from_day(self.day)
    }

    /// The season of this moment's day.
    pub fn season(self) -> (season: Season)
        ensures
            season == date_of_day(self.spec_day() as nat).season,
    {
        self.date().season
    }

    /// The time shown on a wall clock.
    pub fn clock(self) -> (clock: ClockTime)
        ensures
            clock == clock_after_dawn(self.spec_minute() as nat),
            is_clock_time(clock),
    {
        proof { use_type_invariant(&self); }
        let minutes: u16 = (DAWN_HOUR * 60 + self.minute) % (24 * 60);
        ClockTime { hour: (minutes / 60) as u8, minute: (minutes % 60) as u8 }
    }

    /// One game minute later, or `None` if the day is over.
    pub fn next_minute(self) -> (next: Option<Self>)
        ensures
            next is Some <==> self.spec_minute() + 1 < MINUTES_PER_DAY,
            next matches Some(t) ==> t.spec_day() == self.spec_day() && t.spec_minute()
                == self.spec_minute() + 1,
    {
        proof { use_type_invariant(&self); }
        Self::new(self.day, self.minute + 1)
    }

    /// Dawn of the following day.
    pub fn next_dawn(self) -> (dawn: Self)
        requires
            self.spec_day() < u32::MAX,
        ensures
            dawn.spec_day() == self.spec_day() + 1,
            dawn.spec_minute() == 0,
    {
        WorldTime { day: self.day + 1, minute: 0 }
    }

    /// Whether players may go to sleep, which they can from 18:00 on.
    pub fn is_bedtime(self) -> (bedtime: bool)
        ensures
            bedtime == (self.spec_minute() >= HOURS_UNTIL_BEDTIME * 60),
    {
        self.minute >= HOURS_UNTIL_BEDTIME * 60
    }
}

/// Whether `c` is an ASCII decimal digit.
pub open spec fn is_digit(c: char) -> bool {
    '0' <= c && c <= '9'
}

/// The value of a decimal digit.
pub open spec fn digit_value(c: char) -> nat {
    (c as nat - '0' as nat) as nat
}

/// The number that the digits `digits` write, most significant first.
pub open spec fn digits_value(digits: Seq<char>) -> nat
    decreases digits.len(),
{
    if digits.len() == 0 {
        0
    } else {
        digits_value(digits.drop_last()) * 10 + digit_value(digits.last())
    }
}

/// Whether every character of `text` is a decimal digit.
pub open spec fn all_digits(text: Seq<char>) -> bool {
    forall|i: int| 0 <= i < text.len() ==> is_digit(#[trigger] text[i])
}

/// A byte written in decimal, as the standard library reads one: an optional
/// `+`, then one or more digits worth at most 255.
pub open spec fn parsed_byte(text: Seq<char>) -> Option<u8> {
    let digits = if text.len() > 0 && text[0] == '+' { text.drop_first() } else { text };
    if digits.len() > 0 && all_digits(digits) && digits_value(digits) <= 255 {
        Some(digits_value(digits) as u8)
    } else {
        None
    }
}

/// Index of the first `:` in `text` from `from` on.
pub open spec fn colon_from(text: Seq<char>, from: nat) -> Option<nat>
    decreases text.len() - from,
{
    if from >= text.len() {
        None
    } else if text[from as int] == ':' {
        Some(from)
    } else {
        colon_from(text, from + 1)
    }
}

/// The clock time that `text` writes as `HH:MM`, if it writes one.
pub open spec fn parsed_clock(text: Seq<char>) -> Option<ClockTime> {
    match colon_from(text, 0) {
        None => None,
        Some(colon) => match (
            parsed_byte(text.take(colon as int)),
            parsed_byte(text.skip(colon as int + 1)),
        ) {
            (Some(hour), Some(minute)) => if hour < 24 && minute < 60 {
                Some(ClockTime { hour, minute })
            } else {
                None
            },
            _ => None,
        },
    }
}

proof fn digits_value_push(digits: Seq<char>, c: char)
    ensures
        digits_value(digits.push(c)) == digits_value(digits) * 10 + digit_value(c),
{
    assert(digits.push(c).drop_last() =~= digits);
}

/// Reads a byte written in decimal from characters `from` to `to` of `text`.
fn parse_byte(text: &str, from: usize, to: usize) -> (byte: Option<u8>)
    requires
        from <= to <= text@.len(),
    ensures
        byte == parsed_byte(text@.subrange(from as int, to as int)),
{
    let ghost part = text@.subrange(from as int, to as int);
    let mut start = from;
    if from < to && text.get_char(from) == '+' {
        start = from + 1;
    }
    let ghost digits = text@.subrange(start as int, to as int);
    assert(digits =~= (if part.len() > 0 && part[0] == '+' { part.drop_first() } else { part }));
    if start == to {
        return None;
    }
    let mut i = start;
    let mut capped: u32 = 0;
    while i < to
        invariant
            start <= i <= to <= text@.len(),
            digits == text@.subrange(start as int, to as int),
            part == text@.subrange(from as int, to as int),
            digits == (if part.len() > 0 && part[0] == '+' { part.drop_first() } else { part }),
            start < to,
            all_digits(text@.subrange(start as int, i as int)),
            capped == (if digits_value(text@.subrange(start as int, i as int)) < 256 {
                digits_value(text@.subrange(start as int, i as int))
            } else {
                256
            }),
        decreases to - i,
    {
        let c = text.get_char(i);
        if !('0' <= c && c <= '9') {
            assert(digits[i - start] == c);
            assert(!is_digit(digits[i - start]));
            assert(!all_digits(digits));
            return None;
        }
        let d: u32 = (c as u32) - ('0' as u32);
        proof {
            let before = text@.subrange(start as int, i as int);
            assert(text@.subrange(start as int, i + 1) =~= before.push(c));
            digits_value_push(before, c);
        }
        if capped >= 256 {
            capped = 256;
        } else {
            capped = capped * 10 + d;
            if capped > 256 {
                capped = 256;
            }
        }
        i = i + 1;
    }
    if capped <= 255 {
        Some(capped as u8)
    } else {
        None
    }
}

impl ClockTime {
    /// Reads `HH:MM` on a 24-hour clock.
    pub fn parse(text: &str) -> (clock: Result<Self, ParseClockTimeError>)
        ensures
            clock matches Ok(c) ==> parsed_clock(text@) == Some(c),
            clock is Err <==> parsed_clock(text@) is None,
    {
        let len = text.unicode_len();
        let mut i: usize = 0;
        while i < len
            invariant
                len == text@.len(),
                i <= len,
                colon_from(text@, 0) == colon_from(text@, i as nat),
            ensures
                i <= len,
                colon_from(text@, 0) == colon_from(text@, i as nat),
                i < len ==> text@[i as int] == ':',
            decreases len - i,
        {
            if text.get_char(i) == ':' {
                break;
            }
            i = i + 1;
        }
        if i == len {
            return Err(ParseClockTimeError);
        }
        assert(colon_from(text@, 0) == Some(i as nat));
        assert(text@.subrange(0, i as int) =~= text@.take(i as int));
        assert(text@.subrange(i + 1, len as int) =~= text@.skip(i + 1));
        let hour = match parse_byte(text, 0, i) {
            Some(hour) => hour,
            None => return Err(ParseClockTimeError),
        };
        let minute = match parse_byte(text, i + 1, len) {
            Some(minute) => minute,
            None => return Err(ParseClockTimeError),
        };
        if hour >= 24 || minute >= 60 {
            return Err(ParseClockTimeError);
        }
        Ok(ClockTime { hour, minute })
    }

    /// The time as the clock shows it, such as `06:00`.
    pub fn to_string(&self) -> (text: String)
        ensures
            text@ == clock_text(*self),
    {
        let mut text = String::new();
        push_two_digits(&mut text, self.hour as u32);
        text.append(":");
        push_two_digits(&mut text, self.minute as u32);
        proof {
            reveal_strlit(":");
            assert(text@ =~= clock_text(*self));
        }
        text
    }
}

impl core::str::FromStr for ClockTime {
    type Err = ParseClockTimeError;

    fn from_str(text: &str) -> (clock: Result<Self, Self::Err>)
        ensures
            clock matches Ok(c) ==> parsed_clock(text@) == Some(c),
            clock is Err <==> parsed_clock(text@) is None,
    {
        ClockTime::parse(text)
    }
}

/// Reading a wall clock's time on a day and then looking at the clock gives
/// the same moment back, and every moment of a day has a time on the clock.
pub proof fn clock_times_name_moments(minute: nat)
    requires
        minute < MINUTES_PER_DAY,
    ensures
        is_clock_time(clock_after_dawn(minute)),
        minutes_since_dawn_at(clock_after_dawn(minute)) == minute,
{
}

/// A clock time that falls within the day names a moment whose clock shows
/// that time again.
pub proof fn moments_show_their_clock_time(clock: ClockTime)
    requires
        is_clock_time(clock),
        minutes_since_dawn_at(clock) < MINUTES_PER_DAY,
    ensures
        clock_after_dawn(minutes_since_dawn_at(clock)) == clock,
{
}

/// A day runs from 06:00 to 02:00: the clock times from 02:00 up to 06:00
/// name no moment, and every other clock time names one.
pub proof fn no_day_runs_before_dawn(clock: ClockTime)
    requires
        is_clock_time(clock),
    ensures
        minutes_since_dawn_at(clock) < MINUTES_PER_DAY <==> !(2 <= clock.hour < 6),
{
}

/// Bedtime begins at 18:00 and lasts until the day ends.
pub proof fn bedtime_is_from_six_in_the_evening(minute: nat)
    requires
        minute < MINUTES_PER_DAY,
    ensures
        minute >= HOURS_UNTIL_BEDTIME * 60 <==> (clock_after_dawn(minute).hour >= 18
            || clock_after_dawn(minute).hour < 2),
{
}

/// Parsing the text a valid clock shows gives that clock back.
pub proof fn clock_text_reads_back(clock: ClockTime)
    requires
        is_clock_time(clock),
    ensures
        parsed_clock(clock_text(clock)) == Some(clock),
{
    let text = clock_text(clock);
    let h = two_digits(clock.hour as nat);
    let m = two_digits(clock.minute as nat);
    two_digits_read_back(clock.hour as nat);
    two_digits_read_back(clock.minute as nat);
    assert(h.len() == 2);
    assert(m.len() == 2);
    assert(text[2] == ':');
    assert(text[0] != ':' && text[1] != ':');
    assert(colon_from(text, 2) == Some(2nat));
    assert(colon_from(text, 1) == Some(2nat));
    assert(colon_from(text, 0) == Some(2nat));
    assert(text.take(2) =~= h);
    assert(text.skip(3) =~= m);
    two_digits_read_back(clock.hour as nat);
    two_digits_read_back(clock.minute as nat);
}

proof fn two_digits_read_back(n: nat)
    requires
        n < 100,
    ensures
        two_digits(n).len() == 2,
        two_digits(n)[0] != '+',
        all_digits(two_digits(n)),
        digits_value(two_digits(n)) == n,
{
    reveal_with_fuel(crate::text::decimal, 2);
    let s = two_digits(n);
    let tens = n / 10;
    let ones = n % 10;
    assert(s =~= seq![crate::text::digit_char(tens), crate::text::digit_char(ones)]);
    assert(s.drop_last() =~= seq![s[0]]);
    assert(seq![s[0]].drop_last() =~= Seq::<char>::empty());
    assert(digit_value(crate::text::digit_char(tens)) == tens);
    assert(digit_value(crate::text::digit_char(ones)) == ones);
    assert(digits_value(seq![s[0]]) == tens) by {
        reveal_with_fuel(digits_value, 2);
    }
    assert(digits_value(s) == tens * 10 + ones);
}

/// A day, from dawn until 02:00, lasts twenty real minutes.
pub proof fn a_day_lasts_twenty_real_minutes()
    ensures
        SECONDS_PER_GAME_MINUTE * MINUTES_PER_DAY == 20 * 60,
        MINUTES_PER_DAY == DAY_HOURS * 60,
{
}

} // verus!

//! Dates and seasons.

use vstd::prelude::*;

use crate::text::{decimal, push_decimal};

verus! {

/// Days in a year.
pub const DAYS_PER_YEAR: u32 = 365;

#[derive(Clone, Copy, Debug, PartialEq, Eq, Hash, Structural)]
pub enum Season {
    Spring,
    Summer,
    Autumn,
    Winter,
}

/// A day of the week. The world's first day is a Monday.
#[derive(Clone, Copy, Debug, PartialEq, Eq, Hash, Structural)]
pub enum Weekday {
    Monday,
    Tuesday,
    Wednesday,
    Thursday,
    Friday,
    Saturday,
    Sunday,
}

/// The day of the week `day` days after the world began.
pub open spec fn weekday_of_day(day: nat) -> Weekday {
    let n = day % 7;
    if n == 0 {
        Weekday::Monday
    } else if n == 1 {
        Weekday::Tuesday
    } else if n == 2 {
        Weekday::Wednesday
    } else if n == 3 {
        Weekday::Thursday
    } else if n == 4 {
        Weekday::Friday
    } else if n == 5 {
        Weekday::Saturday
    } else {
        Weekday::Sunday
    }
}

/// Length of each season in days. They add up to a year.
pub open spec fn season_length(season: Season) -> nat {
    match season {
        Season::Winter => 92,
        _ => 91,
    }
}

/// Days of the year before `season` begins.
pub open spec fn season_start(season: Season) -> nat {
    match season {
        Season::Spring => 0,
        Season::Summer => 91,
        Season::Autumn => 182,
        Season::Winter => 273,
    }
}

/// The season that day `day_of_year` of a year falls in, counting from 0.
pub open spec fn season_of_day_of_year(day_of_year: nat) -> Season {
    if day_of_year < 91 {
        Season::Spring
    } else if day_of_year < 182 {
        Season::Summer
    } else if day_of_year < 273 {
        Season::Autumn
    } else {
        Season::Winter
    }
}

/// The name of `season`, as players read it.
pub open spec fn season_name(season: Season) -> Seq<char> {
    match season {
        Season::Spring => seq!['S', 'p', 'r', 'i', 'n', 'g'],
        Season::Summer => seq!['S', 'u', 'm', 'm', 'e', 'r'],
        Season::Autumn => seq!['A', 'u', 't', 'u', 'm', 'n'],
        Season::Winter => seq!['W', 'i', 'n', 't', 'e', 'r'],
    }
}

impl Season {
    /// The name of the season, as players read it.
    pub fn name(self) -> (name: &'static str)
        ensures
            name@ == season_name(self),
    {
        match self {
            Season::Spring => {
                proof { reveal_strlit("Spring"); }
                "Spring"
            },
            Season::Summer => {
                proof { reveal_strlit("Summer"); }
                "Summer"
            },
            Season::Autumn => {
                proof { reveal_strlit("Autumn"); }
                "Autumn"
            },
            Season::Winter => {
                proof { reveal_strlit("Winter"); }
                "Winter"
            },
        }
    }
}

/// A calendar date.
#[derive(Clone, Copy, Debug, PartialEq, Eq, Hash, Structural)]
pub struct Date {
    /// Starting at 1.
    pub year: u32,
    pub season: Season,
    /// Day within the season, starting at 1.
    pub day: u16,
    pub weekday: Weekday,
}

/// The date `day` days after the world began.
pub open spec fn date_of_day(day: nat) -> Date {
    let day_of_year = day % 365;
    let season = season_of_day_of_year(day_of_year);
    Date {
        year: (day / 365 + 1) as u32,
        season,
        day: (day_of_year - season_start(season) + 1) as u16,
        weekday: weekday_of_day(day),
    }
}

/// The text of a date, such as `Spring 1, year 1`.
pub open spec fn date_text(date: Date) -> Seq<char> {
    season_name(date.season) + seq![' '] + decimal(date.day as nat) + seq![',', ' ', 'y', 'e', 'a',
        'r', ' '] + decimal(date.year as nat)
}

impl Date {
    /// Days from the world's first day to this date.
    pub open spec fn day_number(self) -> int {
        (self.year - 1) * 365 + season_start(self.season) + self.day - 1
    }

    /// Whether this date is on the calendar: a year from 1 on, and a day
    /// within its season.
    pub open spec fn is_on_calendar(self) -> bool {
        &&& self.year >= 1
        &&& 1 <= self.day <= season_length(self.season)
    }

    /// The date `day` days after the world began.
    pub fn from_day(day: u32) -> (date: Self)
        ensures
            date == date_of_day(day as nat),
    {
        let year = day / DAYS_PER_YEAR + 1;
        let remaining = day % DAYS_PER_YEAR;
        let (season, start) = if remaining < 91 {
            (Season::Spring, 0)
        } else if remaining < 182 {
            (Season::Summer, 91)
        } else if remaining < 273 {
            (Season::Autumn, 182)
        } else {
            (Season::Winter, 273)
        };
        let weekday = match day % 7 {
            0 => Weekday::Monday,
            1 => Weekday::Tuesday,
            2 => Weekday::Wednesday,
            3 => Weekday::Thursday,
            4 => Weekday::Friday,
            5 => Weekday::Saturday,
            _ => Weekday::Sunday,
        };
        Date { year, season, day: (remaining - start + 1) as u16, weekday }
    }

    /// The date as players read it, such as `Spring 1, year 1`.
    pub fn to_string(&self) -> (text: String)
        ensures
            text@ == date_text(*self),
    {
        let mut text = String::from_str(self.season.name());
        text.append(" ");
        push_decimal(&mut text, self.day as u32);
        text.append(", year ");
        push_decimal(&mut text, self.year);
        proof {
            reveal_strlit(" ");
            reveal_strlit(", year ");
        }
        text
    }
}

/// The four seasons fill the year exactly, each starting where the one
/// before it ends.
pub proof fn seasons_fill_the_year()
    ensures
        season_start(Season::Spring) == 0,
        season_start(Season::Summer) == season_start(Season::Spring) + season_length(Season::Spring),
        season_start(Season::Autumn) == season_start(Season::Summer) + season_length(Season::Summer),
        season_start(Season::Winter) == season_start(Season::Autumn) + season_length(Season::Autumn),
        season_start(Season::Winter) + season_length(Season::Winter) == DAYS_PER_YEAR,
{
}

/// Every day of the world falls on exactly one calendar date, and counting
/// the days up to that date gives the day back.
pub proof fn every_day_has_its_date(day: nat)
    requires
        day <= u32::MAX,
    ensures
        date_of_day(day).is_on_calendar(),
        date_of_day(day).day_number() == day,
{
    let d = date_of_day(day);
    assert(day == (day / 365) * 365 + day % 365);
}

/// Weeks have seven days: the day seven days later falls on the same day of
/// the week.
pub proof fn weeks_have_seven_days(day: nat)
    ensures
        weekday_of_day(day + 7) == weekday_of_day(day),
{
    assert((day + 7) % 7 == day % 7);
}

/// Two days of the world fall on the same date only if they are the same
/// day.
pub proof fn dates_tell_days_apart(a: nat, b: nat)
    requires
        a <= u32::MAX,
        b <= u32::MAX,
        date_of_day(a) == date_of_day(b),
    ensures
        a == b,
{
    every_day_has_its_date(a);
    every_day_has_its_date(b);
}

/// The day after the last day of a season is the first day of the next
/// season, and the day after the last of winter starts the next year.
pub proof fn seasons_follow_each_other(day: nat)
    requires
        day < u32::MAX,
        date_of_day(day).day == season_length(date_of_day(day).season),
    ensures
        date_of_day(day + 1).day == 1,
        date_of_day(day).season == Season::Spring ==> date_of_day(day + 1).season == Season::Summer,
        date_of_day(day).season == Season::Summer ==> date_of_day(day + 1).season == Season::Autumn,
        date_of_day(day).season == Season::Autumn ==> date_of_day(day + 1).season == Season::Winter,
        date_of_day(day).season == Season::Winter ==> {
            &&& date_of_day(day + 1).season == Season::Spring
            &&& date_of_day(day + 1).year == date_of_day(day).year + 1
        },
{
    assert(day == (day / 365) * 365 + day % 365);
    assert((day + 1) == ((day + 1) / 365) * 365 + (day + 1) % 365);
    if day % 365 == 364 {
        assert((day + 1) % 365 == 0);
        assert((day + 1) / 365 == day / 365 + 1);
    } else {
        assert((day + 1) % 365 == day % 365 + 1);
        assert((day + 1) / 365 == day / 365);
    }
}

} // verus!

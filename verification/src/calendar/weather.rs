//! Weather, decided for each day from the world's seed, so a world's weather
//! is the same however often it is replayed.

use vstd::prelude::*;

use crate::calendar::date::{Date, Season, date_of_day};

verus! {

#[derive(Clone, Copy, Debug, PartialEq, Eq, Hash, Structural)]
pub enum Weather {
    Clear,
    /// Waters every field.
    Rain,
    Snow,
}

impl Default for Weather {
    fn default() -> (weather: Self)
        ensures
            weather == Weather::Clear,
    {
        Weather::Clear
    }
}

/// The bits of `value` spread so that neighboring days get unrelated
/// weather: the `SplitMix64` finalizer.
pub open spec fn scrambled(value: u64) -> u64 {
    let first = (value ^ (value >> 30u64)).wrapping_mul(0xbf58_476d_1ce4_e5b9u64);
    let second = (first ^ (first >> 27u64)).wrapping_mul(0x94d0_49bb_1331_11ebu64);
    second ^ (second >> 31u64)
}

/// The chance, in percent, that a day of `season` has rain or snow.
pub open spec fn percent_chance(season: Season) -> u64 {
    match season {
        Season::Spring => 25,
        Season::Summer => 15,
        Season::Autumn => 30,
        Season::Winter => 30,
    }
}

/// The weather on `day` of the world grown from `seed`.
pub open spec fn weather_on(seed: u64, day: u32) -> Weather {
    if day == 0 {
        Weather::Clear
    } else {
        let season = date_of_day(day as nat).season;
        if scrambled(seed ^ (day as u64)) % 100 >= percent_chance(season) {
            Weather::Clear
        } else if season == Season::Winter {
            Weather::Snow
        } else {
            Weather::Rain
        }
    }
}

/// Spreads the bits of `value` so that neighboring days get unrelated
/// weather (the `SplitMix64` finalizer).
fn scramble(value: u64) -> (scrambled_value: u64)
    ensures
        scrambled_value == scrambled(value),
{
    let mut value = value;
    value = (value ^ (value >> 30u64)).wrapping_mul(0xbf58_476d_1ce4_e5b9u64);
    value = (value ^ (value >> 27u64)).wrapping_mul(0x94d0_49bb_1331_11ebu64);
    value ^ (value >> 31u64)
}

impl Weather {
    /// The weather on `day` of the world grown from `seed`. The first day is
    /// always clear, so new players start dry; it snows only in winter, and
    /// rains only outside it.
    pub fn on(seed: u64, day: u32) -> (weather: Self)
        ensures
            weather == weather_on(seed, day),
            day == 0 ==> weather == Weather::Clear,
            weather == Weather::Snow ==> date_of_day(day as nat).season == Season::Winter,
            weather == Weather::Rain ==> date_of_day(day as nat).season != Season::Winter,
    {
        if day == 0 {
            return Weather::Clear;
        }
        let season = Date::from_day(day).season;
        let percent_chance: u64 = match season {
            Season::Spring => 25,
            Season::Summer => 15,
            Season::Autumn | Season::Winter => 30,
        };
        if scramble(seed ^ (day as u64)) % 100 >= percent_chance {
            Weather::Clear
        } else if season == Season::Winter {
            Weather::Snow
        } else {
            Weather::Rain
        }
    }

    /// Whether this weather waters every field for the day.
    pub fn waters_fields(self) -> (waters: bool)
        ensures
            waters == (self == Weather::Rain),
    {
        self == Weather::Rain
    }
}

} // verus!

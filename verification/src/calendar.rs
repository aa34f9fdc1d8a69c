//! In-game time, dates and seasons, and the rules for ending a day.
//!
//! Seasons last thirteen weeks, near enough: winter has one extra day. A day
//! runs from 06:00 until 02:00 the next morning. It ends early when enough
//! players go to sleep, and at 02:00 for anyone still awake. Each day has its
//! weather, decided from the world's seed.

pub mod date;

pub use date::{DAYS_PER_YEAR, Date, Season, Weekday};
pub mod sleep;

pub use sleep::SleepRule;
pub mod time;

pub use time::{ClockTime, MINUTES_PER_DAY, ParseClockTimeError, WorldTime};
pub mod weather;

pub use weather::Weather;

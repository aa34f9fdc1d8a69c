use messoria::calendar::time::{DAWN_HOUR, HOURS_UNTIL_BEDTIME, SECONDS_PER_GAME_MINUTE};
use std::time::Duration;
use messoria::{
    ClockTime, DAYS_PER_YEAR, Date, MINUTES_PER_DAY, ParseClockTimeError, Season, SleepRule,
    Weather, Weekday, WorldTime,
};

fn at(minute: u16) -> WorldTime {
    WorldTime::new(0, minute).unwrap()
}

#[test]
fn seasons_fill_the_year() {
    let last_days = [90, 181, 272, 364];
    let total: u32 = last_days
        .iter()
        .map(|&day| u32::from(Date::from_day(day).day))
        .sum();
    assert_eq!(total, DAYS_PER_YEAR);
    assert_eq!(Date::from_day(365).day, 1);
}

#[test]
fn days_map_to_seasons() {
    let date = |day| Date::from_day(day).to_string();
    assert_eq!(date(0), "Spring 1, year 1");
    assert_eq!(date(90), "Spring 91, year 1");
    assert_eq!(date(91), "Summer 1, year 1");
    assert_eq!(date(273), "Winter 1, year 1");
    assert_eq!(date(364), "Winter 92, year 1");
    assert_eq!(date(365), "Spring 1, year 2");
}

#[test]
fn the_first_day_is_a_monday_and_weeks_repeat() {
    assert_eq!(Date::from_day(0).weekday, Weekday::Monday);
    assert_eq!(Date::from_day(6).weekday, Weekday::Sunday);
    assert_eq!(Date::from_day(7).weekday, Weekday::Monday);
    for day in 0..100 {
        assert_eq!(Date::from_day(day).weekday, Date::from_day(day + 7).weekday);
    }
}

#[test]
fn the_last_day_of_the_world_has_a_date() {
    let last = Date::from_day(u32::MAX);
    assert_eq!(last.year, u32::MAX / DAYS_PER_YEAR + 1);
    assert!(last.day >= 1 && last.day <= 92);
}

#[test]
fn seasons_are_named() {
    assert_eq!(Season::Spring.name(), "Spring");
    assert_eq!(Season::Summer.name(), "Summer");
    assert_eq!(Season::Autumn.name(), "Autumn");
    assert_eq!(Season::Winter.name(), "Winter");
}

#[test]
fn everyone_must_sleep_by_default() {
    let rule = SleepRule::Everyone;
    assert!(rule.ends_day(1, 1));
    assert!(!rule.ends_day(2, 3));
    assert!(rule.ends_day(3, 3));
}

#[test]
fn a_share_rounds_up() {
    let half = SleepRule::Share { percent: 50 };
    assert_eq!(half.required(3), 2);
    assert!(!half.ends_day(1, 3));
    assert!(half.ends_day(2, 3));
    assert!(half.ends_day(25, 50));
}

#[test]
fn a_share_needs_at_least_one_sleeper() {
    let rule = SleepRule::Share { percent: 1 };
    assert_eq!(rule.required(10), 1);
    assert!(!rule.ends_day(0, 10));
}

#[test]
fn an_empty_world_does_not_skip_its_day() {
    assert!(!SleepRule::Everyone.ends_day(0, 0));
    assert!(!SleepRule::Share { percent: 50 }.ends_day(0, 0));
}

#[test]
fn a_share_above_everyone_asks_for_everyone() {
    let rule = SleepRule::Share { percent: 250 };
    assert_eq!(rule.required(7), 7);
    assert_eq!(SleepRule::Share { percent: 100 }.required(7), 7);
    assert_eq!(SleepRule::Share { percent: 0 }.required(7), 1);
    assert_eq!(SleepRule::Everyone.required(7), 7);
}

#[test]
fn more_sleepers_never_undo_the_end_of_a_day() {
    let rule = SleepRule::Share { percent: 60 };
    for online in 1..20 {
        let needed = rule.required(online);
        for asleep in 0..=online {
            assert_eq!(rule.ends_day(asleep, online), asleep >= needed);
        }
    }
}

#[test]
fn a_day_runs_from_dawn_to_two_in_the_morning() {
    assert_eq!(at(0).clock().to_string(), "06:00");
    assert_eq!(at(18 * 60).clock().to_string(), "00:00");
    assert_eq!(at(MINUTES_PER_DAY - 1).clock().to_string(), "01:59");
    assert_eq!(at(MINUTES_PER_DAY - 1).next_minute(), None);
    assert_eq!(WorldTime::new(0, MINUTES_PER_DAY), None);
}

#[test]
fn a_day_lasts_twenty_real_minutes() {
    let game_minute = Duration::from_secs(SECONDS_PER_GAME_MINUTE);
    assert_eq!(game_minute * u32::from(MINUTES_PER_DAY), Duration::from_secs(20 * 60));
}

#[test]
fn bedtime_starts_at_six_in_the_evening() {
    assert!(!at(12 * 60 - 1).is_bedtime());
    assert!(at(12 * 60).is_bedtime());
    assert_eq!(at(12 * 60).clock().to_string(), "18:00");
}

#[test]
fn the_constants_describe_the_day() {
    assert_eq!(DAWN_HOUR, 6);
    assert_eq!(HOURS_UNTIL_BEDTIME, 12);
    assert_eq!(MINUTES_PER_DAY, 20 * 60);
}

#[test]
fn wall_clock_times_map_into_the_day() {
    let clock = |text: &str| text.parse::<ClockTime>().unwrap();
    assert_eq!(WorldTime::at(0, clock("06:00")), Some(at(0)));
    assert_eq!(WorldTime::at(0, clock("21:15")), Some(at(15 * 60 + 15)));
    assert_eq!(
        WorldTime::at(0, clock("01:59")),
        Some(at(MINUTES_PER_DAY - 1))
    );
    assert_eq!(WorldTime::at(0, clock("04:00")), None);
}

#[test]
fn malformed_clock_times_are_rejected() {
    for text in ["", "18", "24:00", "12:60", "ab:cd", "-1:00"] {
        assert_eq!(
            text.parse::<ClockTime>(),
            Err(ParseClockTimeError),
            "{text:?}"
        );
    }
}

#[test]
fn clock_times_read_back_as_written() {
    for text in ["00:00", "06:00", "09:30", "17:05", "23:59"] {
        assert_eq!(ClockTime::parse(text).unwrap().to_string(), text);
    }
    assert_eq!(
        ClockTime::parse("07:45"),
        Ok(ClockTime { hour: 7, minute: 45 })
    );
}

#[test]
fn the_next_dawn_is_the_start_of_the_next_day() {
    let late = at(1000);
    assert_eq!(late.next_dawn(), WorldTime::new(1, 0).unwrap());
}

#[test]
fn a_moment_knows_its_day_and_date() {
    let time = WorldTime::new(91, 30).unwrap();
    assert_eq!(time.day(), 91);
    assert_eq!(time.minutes_since_dawn(), 30);
    assert_eq!(time.season(), Season::Summer);
    assert_eq!(time.date().to_string(), "Summer 1, year 1");
    assert_eq!(time.clock().to_string(), "06:30");
    assert_eq!(time.next_minute(), WorldTime::new(91, 31));
    assert_eq!(WorldTime::first_dawn(), at(0));
}

#[test]
fn weather_is_the_same_every_time() {
    for day in 0..400 {
        assert_eq!(Weather::on(7, day), Weather::on(7, day));
    }
}

#[test]
fn the_first_day_is_clear() {
    for seed in 0..50 {
        assert_eq!(Weather::on(seed, 0), Weather::Clear);
    }
}

#[test]
fn it_rains_now_and_then_in_spring_and_snows_in_winter() {
    let spring: Vec<_> = (1..91).map(|day| Weather::on(3, day)).collect();
    let rainy = spring
        .iter()
        .filter(|&&weather| weather == Weather::Rain)
        .count();
    assert!((10..40).contains(&rainy), "{rainy} rainy days in spring");
    assert!(!spring.contains(&Weather::Snow));

    let winter: Vec<_> = (273..365).map(|day| Weather::on(3, day)).collect();
    assert!(winter.contains(&Weather::Snow));
    assert!(!winter.contains(&Weather::Rain));
}

#[test]
fn only_rain_waters_the_fields() {
    assert!(Weather::Rain.waters_fields());
    assert!(!Weather::Snow.waters_fields());
    assert!(!Weather::Clear.waters_fields());
    assert_eq!(Weather::default(), Weather::Clear);
}

#[test]
fn weather_follows_the_seed() {
    assert_eq!(Weather::on(3, 3), Weather::Rain);
    assert_eq!(Weather::on(3, 4), Weather::Rain);
    assert_eq!(Weather::on(3, 5), Weather::Clear);
    assert_eq!(Weather::on(3, 274), Weather::Snow);
    assert_eq!(Weather::on(3, 275), Weather::Clear);
    assert_eq!(Weather::on(7, 7), Weather::Rain);
    assert_eq!(Weather::on(7, 6), Weather::Clear);
    assert_eq!(Weather::on(7, 273), Weather::Snow);
}

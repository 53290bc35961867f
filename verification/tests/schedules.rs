use shocs_lc::device::Power;
use shocs_lc::schedule::{
    boundary_wait, desired_power_at, desired_power_now, next_occurrence, next_power_boundary,
    next_power_boundary_at, resolve_local_datetime, Moment, TimeOfDay, Timezone,
};

fn zone(name: &str) -> Timezone {
    Timezone::parse(name).unwrap()
}

fn time(text: &str) -> TimeOfDay {
    TimeOfDay::parse(text).unwrap()
}

fn utc(name: &str, secs: i64) -> Moment {
    Moment::new(zone(name), secs, 0).unwrap()
}

fn day(date: &str) -> i64 {
    let date: chrono::NaiveDate = date.parse().unwrap();
    i64::from(date.to_epoch_days())
}

fn stamp(text: &str) -> i64 {
    let at: chrono::DateTime<chrono::Utc> = text.parse().unwrap();
    at.timestamp()
}

#[test]
fn zones_are_found_by_their_exact_names() {
    assert_eq!(zone("America/New_York").name(), "America/New_York");
    assert!(Timezone::parse("america/new_york").is_none());
    assert!(Timezone::parse("Nowhere/Special").is_none());
    assert!(Timezone::parse("").is_none());
}

#[test]
fn times_are_read_as_hours_and_minutes() {
    assert_eq!(time("02:00").hours_and_minutes(), "02:00");
    assert_eq!(time("7:15").hours_and_minutes(), "07:15");
    assert_eq!(time("23:59").hours_and_minutes(), "23:59");
    assert!(TimeOfDay::parse("24:00").is_err());
    assert!(TimeOfDay::parse("17:60").is_err());
    assert_eq!(
        TimeOfDay::parse("noon").unwrap_err(),
        chrono::NaiveTime::parse_from_str("noon", "%H:%M").unwrap_err().to_string()
    );
    assert!(TimeOfDay::new(86_400, 0).is_none());
    assert!(TimeOfDay::new(0, 1_000_000_000).is_none());
    assert!(time("09:59").is_before(&time("10:00")));
    assert!(!time("10:00").is_before(&time("10:00")));
}

#[test]
fn a_moment_shows_the_local_time() {
    // 2024-01-15 12:30:45 UTC is 07:30:45 in New York.
    let now = utc("America/New_York", stamp("2024-01-15T12:30:45Z"));
    assert_eq!(now.time().hours_and_minutes(), "07:30");
    assert!(now.time().is_before(&TimeOfDay::new(7 * 3600 + 30 * 60 + 46, 0).unwrap()));
    assert!(!now.time().is_before(&TimeOfDay::new(7 * 3600 + 30 * 60 + 45, 0).unwrap()));
    let before_epoch = utc("Asia/Kolkata", -1);
    assert_eq!(before_epoch.time().hours_and_minutes(), "05:29");
    assert!(Moment::new(zone("UTC"), 8_210_266_876_800, 0).is_none());
    assert!(Moment::new(zone("UTC"), 0, 1_000_000_000).is_none());
    assert!(Moment::new(zone("UTC"), -8_334_601_228_800, 0).is_some());
}

#[test]
fn darkness_lies_between_off_and_on() {
    let at = |hm: &str| utc("UTC", day("2024-01-15") * 86_400 + stamp(&format!("1970-01-01T{hm}:00Z")));
    for (hm, power) in [
        ("01:59", Power::On),
        ("02:00", Power::Off),
        ("09:59", Power::Off),
        ("10:00", Power::On),
    ] {
        assert_eq!(desired_power_at(&at(hm), time("02:00"), time("10:00")), power, "{hm}");
        assert_ne!(desired_power_at(&at(hm), time("10:00"), time("02:00")), power, "{hm}");
    }
    for (hm, power) in [("22:59", Power::On), ("23:00", Power::Off), ("06:59", Power::Off), ("07:00", Power::On)] {
        assert_eq!(desired_power_at(&at(hm), time("23:00"), time("07:00")), power, "{hm}");
    }
    assert_eq!(desired_power_at(&at("08:00"), time("08:00"), time("08:00")), Power::On);
}

#[test]
fn the_present_power_is_one_of_the_schedule() {
    assert_eq!(desired_power_now(&zone("UTC"), time("08:00"), time("08:00")), Power::On);
}

#[test]
fn a_skipped_time_stands_for_the_next_valid_one() {
    // New York skips from 02:00 to 03:00 on 2024-03-10.
    let moment =
        resolve_local_datetime(&zone("America/New_York"), day("2024-03-10"), time("02:30")).unwrap();
    assert_eq!(moment.utc_seconds(), stamp("2024-03-10T07:00:00Z"));
    assert_eq!(moment.time().hours_and_minutes(), "03:00");
}

#[test]
fn a_repeated_time_means_its_first_occurrence() {
    // New York goes through 01:00 to 02:00 twice on 2024-11-03.
    let moment =
        resolve_local_datetime(&zone("America/New_York"), day("2024-11-03"), time("01:30")).unwrap();
    assert_eq!(moment.utc_seconds(), stamp("2024-11-03T05:30:00Z"));
    assert_eq!(moment.subsec_nanos(), 0);
}

#[test]
fn a_day_that_a_zone_skips_cannot_be_resolved() {
    // Samoa left out the whole of 2011-12-30.
    let err =
        resolve_local_datetime(&zone("Pacific/Apia"), day("2011-12-30"), time("08:00")).unwrap_err();
    assert_eq!(
        err,
        "could not resolve local schedule time 2011-12-30 08:00:00 in Pacific/Apia"
    );
}

#[test]
fn a_time_is_written_as_exactly_as_it_is() {
    for (nanos, text) in [
        (0, "08:00:05"),
        (250_000_000, "08:00:05.250"),
        (1_000, "08:00:05.000001"),
        (7, "08:00:05.000000007"),
    ] {
        let time = TimeOfDay::new(8 * 3_600 + 5, nanos).unwrap();
        assert_eq!(
            resolve_local_datetime(&zone("Pacific/Apia"), day("2011-12-30"), time).unwrap_err(),
            format!("could not resolve local schedule time 2011-12-30 {text} in Pacific/Apia")
        );
    }
}

#[test]
fn the_next_occurrence_is_today_or_tomorrow() {
    let now = utc("America/New_York", stamp("2024-01-15T17:00:00Z"));
    let later = next_occurrence(&now, time("13:00")).unwrap();
    assert_eq!(later.utc_seconds(), stamp("2024-01-15T18:00:00Z"));
    let tomorrow = next_occurrence(&now, time("12:00")).unwrap();
    assert_eq!(tomorrow.utc_seconds(), stamp("2024-01-16T17:00:00Z"));
}

#[test]
fn a_clock_set_back_across_midnight_repeats_the_evening() {
    // St. John's went from 00:01 back to 23:01 on 2006-10-29: at the second 23:30 of the evening
    // the midnight of the next day has already passed once.
    let now = utc("America/St_Johns", stamp("2006-10-29T03:00:00Z"));
    assert_eq!(now.time().hours_and_minutes(), "23:30");
    let next = next_occurrence(&now, time("00:00")).unwrap();
    assert!(next.utc_seconds() < now.utc_seconds());
}

#[test]
fn the_calendar_ends() {
    let now = utc("UTC", 8_210_266_876_799);
    assert_eq!(
        next_occurrence(&now, time("00:00")).unwrap_err(),
        "could not advance schedule date"
    );
    let abroad = utc("Asia/Tokyo", 8_210_266_876_799);
    assert_eq!(
        next_power_boundary_at(&abroad, time("02:00"), time("10:00")).unwrap_err(),
        "could not advance schedule date"
    );
}

#[test]
fn the_earlier_boundary_comes_next() {
    let now = utc("America/New_York", stamp("2024-01-15T17:00:00Z"));
    let (at, power) = next_power_boundary_at(&now, time("02:00"), time("10:00")).unwrap();
    assert_eq!((at.utc_seconds(), power), (stamp("2024-01-16T07:00:00Z"), Power::Off));
    let (at, power) = next_power_boundary_at(&at, time("02:00"), time("10:00")).unwrap();
    assert_eq!((at.utc_seconds(), power), (stamp("2024-01-16T15:00:00Z"), Power::On));
    assert_eq!(desired_power_at(&at, time("02:00"), time("10:00")), Power::On);
    let (_, power) = next_power_boundary_at(&now, time("05:00"), time("05:00")).unwrap();
    assert_eq!(power, Power::Off);
}

#[test]
fn in_a_zone_of_fixed_offset_a_boundary_comes_within_a_day() {
    for name in ["UTC", "Etc/GMT+5", "Asia/Kolkata"] {
        for (off, on) in [("02:00", "10:00"), ("22:30", "06:15")] {
            for hour in 0..24 {
                let now = utc(name, stamp("2024-05-05T00:10:00Z") + hour * 3_600);
                let (at, power) = next_power_boundary_at(&now, time(off), time(on)).unwrap();
                assert!(at.utc_seconds() > now.utc_seconds());
                assert!(at.utc_seconds() <= now.utc_seconds() + 86_400);
                let shown = at.time().hours_and_minutes();
                assert_eq!(shown, if power == Power::Off { off } else { on });
                assert_eq!(desired_power_at(&at, time(off), time(on)), power);
                assert_ne!(desired_power_at(&now, time(off), time(on)), power);
            }
        }
    }
}

#[test]
fn the_next_boundary_of_today_lies_ahead() {
    let before = chrono::Utc::now().timestamp();
    let now = Moment::now(zone("UTC"));
    assert!(now.utc_seconds() >= before);
    let (at, _) = next_power_boundary(&zone("UTC"), time("02:00"), time("10:00")).unwrap();
    assert!(at.utc_seconds() > before);
    assert!(at.utc_seconds() <= before + 86_460);
}

#[test]
fn a_boundary_is_awaited_but_not_one_that_has_passed() {
    let at = |secs, nanos| Moment::new(zone("UTC"), secs, nanos).unwrap();
    assert_eq!(boundary_wait(&at(10, 500), &at(7, 200)).as_nanos(), 3_000_000_300);
    assert_eq!(boundary_wait(&at(10, 200), &at(7, 500)).as_nanos(), 2_999_999_700);
    assert!(boundary_wait(&at(7, 200), &at(7, 200)).is_zero());
    assert!(boundary_wait(&at(7, 200), &at(10, 0)).is_zero());
}

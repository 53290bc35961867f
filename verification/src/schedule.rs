//! Daily power schedules in civil time.
//!
//! Offsets, local times and the clock come from `chrono` and `chrono-tz`; which power a schedule
//! asks for and when it next changes is decided here.
use chrono::{Offset, TimeZone};
use vstd::prelude::*;

use crate::clock::Duration;
use crate::device::Power;
#[allow(unused_imports)]
use crate::text::hex_digit;

verus! {

/// The first second of the calendar, counted from 1970-01-01 00:00:00.
pub const FIRST_SECOND: i64 = -8_334_601_228_800;

/// The last second of the calendar.
pub const LAST_SECOND: i64 = 8_210_266_876_799;

/// The last day of the calendar, counted from 1970-01-01.
pub const LAST_DAY: i64 = 95_026_236;

pub const SECONDS_PER_DAY: i64 = 86_400;

/// How many one-minute steps are tried to leave a gap in local time.
pub const GAP_STEPS: u32 = 180;

pub open spec fn in_calendar(secs: int) -> bool {
    FIRST_SECOND <= secs <= LAST_SECOND
}

/// `name` is the name of a time zone.
pub uninterp spec fn zone_exists(name: Seq<char>) -> bool;

/// The offset from UTC, in seconds, that a zone has at a UTC second.
pub uninterp spec fn zone_offset(zone: Seq<char>, utc: int) -> int;

/// The UTC seconds at which a zone's clock shows a local second: none in a gap, two where the
/// clock is set back over it.
pub uninterp spec fn zone_instants(zone: Seq<char>, local: int) -> Seq<i64>;

/// How a day is written.
pub uninterp spec fn date_text(day: int) -> Seq<char>;

/// Reads hours and minutes: the second of the day, or why it cannot be read.
pub uninterp spec fn clock_reading(text: Seq<char>) -> Result<u32, Seq<char>>;

/// `chrono_tz::Tz::from_str`: whether there is a zone of that name. Names are matched exactly, and
/// a zone is displayed by the name it is found under.
#[verifier::external_body]
fn zone_known(name: &str) -> (r: bool)
    ensures
        r == zone_exists(name@),
{
    name.parse::<chrono_tz::Tz>().is_ok()
}

/// `chrono::TimeZone::offset_from_utc_datetime` of `chrono_tz::Tz`: the offset at a UTC second. An
/// offset is less than a day.
#[verifier::external_body]
fn utc_offset(zone: &str, utc: i64) -> (r: i64)
    requires
        zone_exists(zone@),
        in_calendar(utc as int),
    ensures
        r == zone_offset(zone@, utc as int),
        -SECONDS_PER_DAY < r < SECONDS_PER_DAY,
{
    let tz: chrono_tz::Tz = zone.parse().unwrap();
    let utc = chrono::DateTime::from_timestamp(utc, 0).unwrap().naive_utc();
    i64::from(tz.offset_from_utc_datetime(&utc).fix().local_minus_utc())
}

/// `chrono::TimeZone::from_local_datetime` of `chrono_tz::Tz`: the UTC seconds that a local second
/// stands for, none, one or two, all inside the calendar. At each of them the zone's offset is the
/// difference to the local second.
#[verifier::external_body]
fn local_instants(zone: &str, local: i64) -> (r: Vec<i64>)
    requires
        zone_exists(zone@),
        in_calendar(local as int),
    ensures
        r@ == zone_instants(zone@, local as int),
        r@.len() <= 2,
        forall|i: int|
            0 <= i < r@.len() ==> in_calendar(#[trigger] r@[i] as int) && zone_offset(
                zone@,
                r@[i] as int,
            ) == local - r@[i],
{
    let tz: chrono_tz::Tz = zone.parse().unwrap();
    let local = chrono::DateTime::from_timestamp(local, 0).unwrap().naive_utc();
    match tz.from_local_datetime(&local) {
        chrono::LocalResult::None => vec![],
        chrono::LocalResult::Single(value) => vec![value.timestamp()],
        chrono::LocalResult::Ambiguous(first, second) => {
            vec![first.timestamp(), second.timestamp()]
        },
    }
}

/// `chrono::Utc::now`: the UTC second and the nanoseconds into it. The clock does not show a time
/// before 1970, nor one past the end of the calendar.
#[verifier::external_body]
fn utc_now() -> (r: (i64, u32))
    ensures
        0 <= r.0 <= LAST_SECOND,
        r.1 < 1_000_000_000,
{
    let now = chrono::Utc::now();
    (now.timestamp(), now.timestamp_subsec_nanos())
}

/// The `Display` text of a `chrono::NaiveDate`.
#[verifier::external_body]
fn format_date(day: i32) -> (r: String)
    requires
        in_calendar(day * SECONDS_PER_DAY),
    ensures
        r@ == date_text(day as int),
{
    chrono::NaiveDate::from_epoch_days(day).unwrap().to_string()
}

/// The `Display` text of a `chrono::NaiveTime`: two digits each for the hour, the minute and the
/// second, and as many groups of three decimals as the fraction needs.
#[verifier::external_body]
fn format_time(secs: u32, nanos: u32) -> (r: String)
    requires
        secs < SECONDS_PER_DAY,
        nanos < 1_000_000_000,
    ensures
        r@ == time_text(secs as int, nanos as int),
{
    chrono::NaiveTime::from_num_seconds_from_midnight_opt(secs, nanos).unwrap().to_string()
}

/// `chrono::NaiveTime::format` with the format `%H:%M`: two digits each for the hour and the
/// minute.
#[verifier::external_body]
fn format_clock(secs: u32) -> (r: String)
    requires
        secs < SECONDS_PER_DAY,
    ensures
        r@ == clock_text(secs as int),
{
    let time = chrono::NaiveTime::from_num_seconds_from_midnight_opt(secs, 0).unwrap();
    time.format("%H:%M").to_string()
}

/// `chrono::NaiveTime::parse_from_str` with the format `%H:%M`: a whole minute of the day, or the
/// `Display` text of the error.
#[verifier::external_body]
fn parse_clock(text: &str) -> (r: Result<u32, String>)
    ensures
        match (r, clock_reading(text@)) {
            (Ok(secs), Ok(named)) => secs == named && secs < SECONDS_PER_DAY && secs % 60 == 0,
            (Err(err), Err(named)) => err@ == named,
            _ => false,
        },
{
    match chrono::NaiveTime::parse_from_str(text, "%H:%M") {
        Ok(time) => Ok(chrono::Timelike::num_seconds_from_midnight(&time)),
        Err(err) => Err(err.to_string()),
    }
}

/// The lowest `width` decimal digits of `n`, most significant first.
pub open spec fn digits(n: int, width: nat) -> Seq<char>
    decreases width,
{
    if width == 0 {
        Seq::empty()
    } else {
        digits(n / 10, (width - 1) as nat).push(hex_digit(n % 10))
    }
}

/// The decimals of a second; none for a whole second.
pub open spec fn fraction_text(nanos: int) -> Seq<char> {
    if nanos == 0 {
        Seq::empty()
    } else if nanos % 1_000_000 == 0 {
        seq!['.'] + digits(nanos / 1_000_000, 3)
    } else if nanos % 1_000 == 0 {
        seq!['.'] + digits(nanos / 1_000, 6)
    } else {
        seq!['.'] + digits(nanos, 9)
    }
}

/// How a time of day is written.
pub open spec fn time_text(secs: int, nanos: int) -> Seq<char> {
    clock_text(secs) + seq![':'] + digits(secs % 60, 2) + fraction_text(nanos)
}

/// The hour and minute of a second of the day, as `hh:mm`.
pub open spec fn clock_text(secs: int) -> Seq<char> {
    digits(secs / 3600, 2) + seq![':'] + digits(secs / 60 % 60, 2)
}

/// A time zone, by its name.
#[derive(Debug)]
pub struct Timezone {
    name: String,
}

impl Timezone {
    #[verifier::type_invariant]
    spec fn is_zone(self) -> bool {
        zone_exists(self.name@)
    }

    pub closed spec fn text(self) -> Seq<char> {
        self.name@
    }

    pub fn parse(name: &str) -> (r: Option<Timezone>)
        ensures
            match r {
                Some(zone) => zone_exists(name@) && zone.text() == name@,
                None => !zone_exists(name@),
            },
    {
        if zone_known(name) {
            Some(Timezone { name: name.to_string() })
        } else {
            None
        }
    }

    pub fn name(&self) -> (r: &str)
        ensures
            r@ == self.text(),
    {
        self.name.as_str()
    }

    /// The offset at a UTC second.
    fn offset_at(&self, utc: i64) -> (r: i64)
        requires
            in_calendar(utc as int),
        ensures
            r == zone_offset(self.text(), utc as int),
            -SECONDS_PER_DAY < r < SECONDS_PER_DAY,
    {
        proof {
            use_type_invariant(self);
        }
        utc_offset(self.name.as_str(), utc)
    }

    /// The earliest UTC second at which the zone's clock shows a local second.
    fn earliest_instant(&self, local: i64) -> (r: Option<i64>)
        requires
            in_calendar(local as int),
        ensures
            r == earliest(zone_instants(self.text(), local as int)),
            r matches Some(utc) ==> in_calendar(utc as int) && zone_offset(
                self.text(),
                utc as int,
            ) == local - utc,
    {
        proof {
            use_type_invariant(self);
        }
        let instants = local_instants(self.name.as_str(), local);
        if instants.len() == 0 {
            None
        } else if instants.len() == 1 || instants[0] <= instants[1] {
            Some(instants[0])
        } else {
            Some(instants[1])
        }
    }
}

impl Clone for Timezone {
    fn clone(&self) -> (r: Timezone)
        ensures
            r == *self,
    {
        proof {
            use_type_invariant(self);
        }
        Timezone { name: self.name.clone() }
    }
}

/// A time of day to the nanosecond.
#[derive(Clone, Copy, Debug)]
pub struct TimeOfDay {
    secs: u32,
    nanos: u32,
}

impl TimeOfDay {
    #[verifier::type_invariant]
    spec fn in_day(self) -> bool {
        self.secs < SECONDS_PER_DAY && self.nanos < 1_000_000_000
    }

    /// Seconds since midnight.
    pub closed spec fn secs(self) -> int {
        self.secs as int
    }

    pub closed spec fn nanos(self) -> int {
        self.nanos as int
    }

    /// Nanoseconds since midnight.
    pub open spec fn since_midnight(self) -> int {
        self.secs() * 1_000_000_000 + self.nanos()
    }

    pub fn new(secs: u32, nanos: u32) -> (r: Option<TimeOfDay>)
        ensures
            match r {
                Some(time) => {
                    &&& secs < SECONDS_PER_DAY && nanos < 1_000_000_000
                    &&& time.secs() == secs && time.nanos() == nanos
                },
                None => secs >= SECONDS_PER_DAY || nanos >= 1_000_000_000,
            },
    {
        if secs < 86_400 && nanos < 1_000_000_000 {
            Some(TimeOfDay { secs, nanos })
        } else {
            None
        }
    }

    /// Reads a time given as hours and minutes.
    pub fn parse(text: &str) -> (r: Result<TimeOfDay, String>)
        ensures
            match (r, clock_reading(text@)) {
                (Ok(time), Ok(secs)) => time.secs() == secs && time.nanos() == 0,
                (Err(err), Err(named)) => err@ == named,
                _ => false,
            },
    {
        match parse_clock(text) {
            Ok(secs) => Ok(TimeOfDay { secs, nanos: 0 }),
            Err(err) => Err(err),
        }
    }

    /// The hour and minute.
    pub fn hours_and_minutes(&self) -> (r: String)
        ensures
            r@ == clock_text(self.secs()),
    {
        proof {
            use_type_invariant(self);
        }
        format_clock(self.secs)
    }

    pub fn is_before(&self, other: &TimeOfDay) -> (r: bool)
        ensures
            r == (self.since_midnight() < other.since_midnight()),
    {
        proof {
            use_type_invariant(self);
            use_type_invariant(other);
        }
        self.secs < other.secs || (self.secs == other.secs && self.nanos < other.nanos)
    }
}

/// An instant as a time zone shows it.
#[derive(Debug)]
pub struct Moment {
    zone: Timezone,
    secs: i64,
    nanos: u32,
}

impl Moment {
    #[verifier::type_invariant]
    spec fn in_range(self) -> bool {
        in_calendar(self.secs as int) && self.nanos < 1_000_000_000
    }

    pub closed spec fn zone(self) -> Seq<char> {
        self.zone.text()
    }

    /// UTC seconds since 1970-01-01 00:00:00.
    pub closed spec fn secs(self) -> int {
        self.secs as int
    }

    pub closed spec fn nanos(self) -> int {
        self.nanos as int
    }

    /// UTC nanoseconds since 1970-01-01 00:00:00.
    pub open spec fn instant(self) -> int {
        self.secs() * 1_000_000_000 + self.nanos()
    }

    /// The local second that the zone's clock shows.
    pub open spec fn local(self) -> int {
        self.secs() + zone_offset(self.zone(), self.secs())
    }

    /// The local day, counted from 1970-01-01.
    pub open spec fn day(self) -> int {
        self.local() / 86_400
    }

    /// Nanoseconds since local midnight.
    pub open spec fn since_midnight(self) -> int {
        self.local() % 86_400 * 1_000_000_000 + self.nanos()
    }

    pub fn new(zone: Timezone, secs: i64, nanos: u32) -> (r: Option<Moment>)
        ensures
            match r {
                Some(moment) => {
                    &&& in_calendar(secs as int) && nanos < 1_000_000_000
                    &&& moment.zone() == zone.text()
                    &&& moment.secs() == secs && moment.nanos() == nanos
                },
                None => !in_calendar(secs as int) || nanos >= 1_000_000_000,
            },
    {
        if FIRST_SECOND <= secs && secs <= LAST_SECOND && nanos < 1_000_000_000 {
            Some(Moment { zone, secs, nanos })
        } else {
            None
        }
    }

    /// The present moment.
    pub fn now(zone: Timezone) -> (r: Moment)
        ensures
            r.zone() == zone.text(),
            0 <= r.secs() <= LAST_SECOND,
    {
        let (secs, nanos): (i64, u32) = utc_now();
        Moment { zone, secs, nanos }
    }

    pub fn utc_seconds(&self) -> (r: i64)
        ensures
            r == self.secs(),
    {
        self.secs
    }

    pub fn subsec_nanos(&self) -> (r: u32)
        ensures
            r == self.nanos(),
    {
        self.nanos
    }

    fn local_second(&self) -> (r: i64)
        ensures
            r == self.local(),
            FIRST_SECOND - SECONDS_PER_DAY < r < LAST_SECOND + SECONDS_PER_DAY,
    {
        proof {
            use_type_invariant(self);
        }
        self.secs + self.zone.offset_at(self.secs)
    }

    /// The local time of day.
    pub fn time(&self) -> (r: TimeOfDay)
        ensures
            r.since_midnight() == self.since_midnight(),
    {
        proof {
            use_type_invariant(self);
        }
        let local: i64 = self.local_second();
        let secs: i64 = second_of_day(local);
        TimeOfDay { secs: secs as u32, nanos: self.nanos }
    }

    fn is_after(&self, other: &Moment) -> (r: bool)
        ensures
            r == (self.instant() > other.instant()),
    {
        proof {
            use_type_invariant(self);
            use_type_invariant(other);
        }
        self.secs > other.secs || (self.secs == other.secs && self.nanos > other.nanos)
    }
}

fn day_of(local: i64) -> (r: i64)
    requires
        FIRST_SECOND - SECONDS_PER_DAY < local < LAST_SECOND + SECONDS_PER_DAY,
    ensures
        r == local as int / 86_400,
{
    if local >= 0 {
        local / 86_400
    } else {
        -1 - (-1 - local) / 86_400
    }
}

fn second_of_day(local: i64) -> (r: i64)
    requires
        FIRST_SECOND - SECONDS_PER_DAY < local < LAST_SECOND + SECONDS_PER_DAY,
    ensures
        r == local as int % 86_400,
{
    local - 86_400 * day_of(local)
}

/// Between the off time and the on time a schedule asks for darkness, across midnight where the
/// off time is the later one. Where the two agree there is no dark time.
pub open spec fn dark_at(time: int, off_time: int, on_time: int) -> bool {
    if off_time < on_time {
        off_time <= time < on_time
    } else if off_time > on_time {
        time >= off_time || time < on_time
    } else {
        false
    }
}

/// The power that a schedule asks for at a time of day.
pub open spec fn scheduled_power(time: int, off_time: int, on_time: int) -> Power {
    if dark_at(time, off_time, on_time) {
        Power::Off
    } else {
        Power::On
    }
}

/// The power that a schedule asks for at a moment.
pub fn desired_power_at(now: &Moment, off_time: TimeOfDay, on_time: TimeOfDay) -> (r: Power)
    ensures
        off_time.since_midnight() == on_time.since_midnight() ==> r == Power::On,
        off_time.since_midnight() != on_time.since_midnight() && now.since_midnight()
            == off_time.since_midnight() ==> r == Power::Off,
        now.since_midnight() == on_time.since_midnight() ==> r == Power::On,
        r == scheduled_power(
            now.since_midnight(),
            off_time.since_midnight(),
            on_time.since_midnight(),
        ),
{
    let time = now.time();
    let is_off = if off_time.is_before(&on_time) {
        !time.is_before(&off_time) && time.is_before(&on_time)
    } else if on_time.is_before(&off_time) {
        !time.is_before(&off_time) || time.is_before(&on_time)
    } else {
        false
    };
    if is_off {
        Power::Off
    } else {
        Power::On
    }
}

/// The power that a schedule asks for at the present moment.
pub fn desired_power_now(zone: &Timezone, off_time: TimeOfDay, on_time: TimeOfDay) -> (r: Power)
    ensures
        exists|now: Moment|
            {
                &&& now.zone() == zone.text()
                &&& 0 <= now.secs() <= LAST_SECOND
                &&& r == scheduled_power(
                    #[trigger] now.since_midnight(),
                    off_time.since_midnight(),
                    on_time.since_midnight(),
                )
            },
{
    let now = Moment::now(zone.clone());
    let power = desired_power_at(&now, off_time, on_time);
    assert(now.zone() == zone.text() && power == scheduled_power(
        now.since_midnight(),
        off_time.since_midnight(),
        on_time.since_midnight(),
    ));
    power
}

/// The earlier of at most two instants.
pub open spec fn earliest(instants: Seq<i64>) -> Option<i64> {
    if instants.len() == 0 {
        None
    } else if instants.len() == 1 || instants[0] <= instants[1] {
        Some(instants[0])
    } else {
        Some(instants[1])
    }
}

/// What becomes of a local time.
pub ghost enum Resolution {
    /// The UTC second that it stands for.
    At(i64),
    /// The zone's clock skips it and everything tried after it.
    Gap,
    /// The calendar ends before a valid time is found.
    Beyond,
}

/// The first local second that exists, among `local` and the following ones in steps of a minute;
/// of two instants that show it, the earlier one.
pub open spec fn first_valid(zone: Seq<char>, local: int, steps: nat) -> Resolution
    decreases steps,
{
    if steps == 0 {
        Resolution::Gap
    } else if local > LAST_SECOND {
        Resolution::Beyond
    } else {
        match earliest(zone_instants(zone, local)) {
            Some(utc) => Resolution::At(utc),
            None => first_valid(zone, local + 60, (steps - 1) as nat),
        }
    }
}

/// What becomes of a time of day on a day.
pub open spec fn resolution(zone: Seq<char>, day: int, time: TimeOfDay) -> Resolution {
    first_valid(zone, day * 86_400 + time.secs(), GAP_STEPS as nat)
}

pub open spec fn unresolved_text(zone: Seq<char>, day: int, time: TimeOfDay) -> Seq<char> {
    "could not resolve local schedule time "@ + date_text(day) + " "@ + time_text(
        time.secs(),
        time.nanos(),
    ) + " in "@ + zone
}

pub open spec fn no_next_day_text() -> Seq<char> {
    "could not advance schedule date"@
}

/// The UTC second of a time of day on a day, or what to say where there is none.
pub open spec fn resolved(zone: Seq<char>, day: int, time: TimeOfDay) -> Result<i64, Seq<char>> {
    match resolution(zone, day, time) {
        Resolution::At(utc) => Ok(utc),
        Resolution::Gap => Err(unresolved_text(zone, day, time)),
        Resolution::Beyond => Err(no_next_day_text()),
    }
}

/// The UTC second at which a time of day comes next after a moment: today if it is still to come,
/// else tomorrow. A moment whose local day lies outside the calendar has no next day.
pub open spec fn occurrence(now: Moment, time: TimeOfDay) -> Result<i64, Seq<char>> {
    if !in_calendar(now.local()) {
        Err(no_next_day_text())
    } else {
        match resolved(now.zone(), now.day(), time) {
            Err(text) => Err(text),
            Ok(utc) => if utc * 1_000_000_000 + time.nanos() > now.instant() {
                Ok(utc)
            } else if now.day() >= LAST_DAY {
                Err(no_next_day_text())
            } else {
                resolved(now.zone(), now.day() + 1, time)
            },
        }
    }
}

/// The next boundary of a schedule, and the power that it brings.
pub open spec fn boundary(now: Moment, off_time: TimeOfDay, on_time: TimeOfDay) -> Result<
    (i64, int, Power),
    Seq<char>,
> {
    match (occurrence(now, off_time), occurrence(now, on_time)) {
        (Err(text), _) => Err(text),
        (Ok(_), Err(text)) => Err(text),
        (Ok(off), Ok(on)) => if off * 1_000_000_000 + off_time.nanos() <= on * 1_000_000_000
            + on_time.nanos() {
            Ok((off, off_time.nanos(), Power::Off))
        } else {
            Ok((on, on_time.nanos(), Power::On))
        },
    }
}

/// `r` is the moment or the message that `expected` describes.
pub open spec fn is_occurrence(
    r: Result<Moment, String>,
    zone: Seq<char>,
    nanos: int,
    expected: Result<i64, Seq<char>>,
) -> bool {
    match (r, expected) {
        (Ok(moment), Ok(utc)) => {
            &&& moment.zone() == zone
            &&& moment.secs() == utc
            &&& moment.nanos() == nanos
        },
        (Err(err), Err(text)) => err@ == text,
        _ => false,
    }
}

/// `r` is the boundary or the message that `expected` describes.
pub open spec fn is_boundary(
    r: Result<(Moment, Power), String>,
    zone: Seq<char>,
    expected: Result<(i64, int, Power), Seq<char>>,
) -> bool {
    match (r, expected) {
        (Ok((moment, power)), Ok((utc, nanos, change))) => {
            &&& moment.zone() == zone
            &&& moment.secs() == utc
            &&& moment.nanos() == nanos
            &&& power == change
        },
        (Err(err), Err(text)) => err@ == text,
        _ => false,
    }
}

/// The zone's clock shows the time of day on that day at `moment`, or a time that is a whole
/// number of minutes later where the clock skips the time itself.
pub open spec fn shows(moment: Moment, day: int, time: TimeOfDay) -> bool {
    exists|step: int|
        0 <= step < GAP_STEPS && moment.local() == #[trigger] stepped(day, time, step)
            && forall|earlier: int|
            0 <= earlier < step ==> zone_instants(
                moment.zone(),
                #[trigger] stepped(day, time, earlier),
            ).len() == 0
}

/// The local second that is `step` minutes after a time of day on a day.
pub open spec fn stepped(day: int, time: TimeOfDay, step: int) -> int {
    day * 86_400 + time.secs() + 60 * step
}

/// `later` lies after `now`, or the zone is further ahead of UTC at `later` than at `now`: where a
/// clock is set back across midnight, a time of the next day may already have passed.
pub open spec fn comes_after(later: Moment, now: Moment) -> bool {
    later.instant() > now.instant() || zone_offset(later.zone(), later.secs()) > zone_offset(
        now.zone(),
        now.secs(),
    )
}

fn no_next_day() -> (r: String)
    ensures
        r@ == no_next_day_text(),
{
    "could not advance schedule date".to_string()
}

/// The moment at which the zone's clock shows a time of day on a day. A time that the clock skips
/// stands for the first valid one after it, in steps of a minute; of a time that comes twice, the
/// earlier one is meant.
pub fn resolve_local_datetime(zone: &Timezone, day: i64, time: TimeOfDay) -> (r: Result<
    Moment,
    String,
>)
    requires
        in_calendar(day * 86_400),
    ensures
        is_occurrence(r, zone.text(), time.nanos(), resolved(zone.text(), day as int, time)),
        r matches Ok(moment) ==> shows(moment, day as int, time),
{
    proof {
        use_type_invariant(&time);
    }
    let mut local: i64 = day * 86_400 + time.secs as i64;
    let mut step: u32 = 0;
    while step < GAP_STEPS
        invariant
            step <= GAP_STEPS,
            in_calendar(day * 86_400),
            0 <= time.secs < SECONDS_PER_DAY,
            time.nanos < 1_000_000_000,
            local == day * 86_400 + time.secs + 60 * step,
            resolution(zone.text(), day as int, time) == first_valid(
                zone.text(),
                local as int,
                (GAP_STEPS - step) as nat,
            ),
            forall|earlier: int|
                0 <= earlier < step ==> zone_instants(
                    zone.text(),
                    #[trigger] stepped(day as int, time, earlier),
                ).len() == 0,
        decreases GAP_STEPS - step,
    {
        if local > LAST_SECOND {
            return Err(no_next_day());
        }
        match zone.earliest_instant(local) {
            Some(utc) => {
                let moment = Moment { zone: zone.clone(), secs: utc, nanos: time.nanos };
                assert(moment.local() == stepped(day as int, time, step as int));
                return Ok(moment);
            },
            None => {
                local += 60;
                step += 1;
            },
        }
    }
    let text = "could not resolve local schedule time ".to_string().concat(
        format_date(day as i32).as_str(),
    ).concat(" ").concat(format_time(time.secs, time.nanos).as_str()).concat(" in ").concat(
        zone.name(),
    );
    Err(text)
}

/// The next moment at which the zone's clock shows a time of day.
pub fn next_occurrence(now: &Moment, time: TimeOfDay) -> (r: Result<Moment, String>)
    ensures
        is_occurrence(r, now.zone(), time.nanos(), occurrence(*now, time)),
        r matches Ok(moment) ==> comes_after(moment, *now) && (shows(moment, now.day(), time)
            || shows(moment, now.day() + 1, time)),
{
    proof {
        use_type_invariant(now);
    }
    let local: i64 = now.local_second();
    if local < FIRST_SECOND || local > LAST_SECOND {
        return Err(no_next_day());
    }
    let day: i64 = day_of(local);
    let candidate = match resolve_local_datetime(&now.zone, day, time) {
        Ok(candidate) => candidate,
        Err(err) => return Err(err),
    };
    if candidate.is_after(now) {
        return Ok(candidate);
    }
    if day >= LAST_DAY {
        return Err(no_next_day());
    }
    let candidate = resolve_local_datetime(&now.zone, day + 1, time);
    proof {
        use_type_invariant(&time);
    }
    candidate
}

/// The next boundary of a schedule after a moment, and the power that it brings. Where both
/// boundaries fall on one instant, the off boundary counts.
pub fn next_power_boundary_at(now: &Moment, off_time: TimeOfDay, on_time: TimeOfDay) -> (r: Result<
    (Moment, Power),
    String,
>)
    ensures
        is_boundary(r, now.zone(), boundary(*now, off_time, on_time)),
        r matches Ok((moment, _)) ==> comes_after(moment, *now),
{
    let next_off = match next_occurrence(now, off_time) {
        Ok(moment) => moment,
        Err(err) => return Err(err),
    };
    let next_on = match next_occurrence(now, on_time) {
        Ok(moment) => moment,
        Err(err) => return Err(err),
    };
    if next_off.is_after(&next_on) {
        Ok((next_on, Power::On))
    } else {
        Ok((next_off, Power::Off))
    }
}

/// The next boundary of a schedule after the present moment, and the power that it brings.
pub fn next_power_boundary(zone: &Timezone, off_time: TimeOfDay, on_time: TimeOfDay) -> (r: Result<
    (Moment, Power),
    String,
>)
    ensures
        exists|now: Moment|
            {
                &&& now.zone() == zone.text()
                &&& 0 <= now.secs() <= LAST_SECOND
                &&& is_boundary(r, zone.text(), #[trigger] boundary(now, off_time, on_time))
                &&& r matches Ok((moment, _)) ==> comes_after(moment, now)
            },
{
    let now = Moment::now(zone.clone());
    let next = next_power_boundary_at(&now, off_time, on_time);
    assert(is_boundary(next, zone.text(), boundary(now, off_time, on_time)));
    next
}

/// How long to wait at `now` for a boundary; not at all for one that has passed.
pub fn boundary_wait(boundary: &Moment, now: &Moment) -> (r: Duration)
    ensures
        r@ == if boundary.instant() > now.instant() {
            (boundary.instant() - now.instant()) as nat
        } else {
            0
        },
{
    proof {
        use_type_invariant(boundary);
        use_type_invariant(now);
    }
    if !boundary.is_after(now) {
        return Duration::new(0, 0);
    }
    if boundary.nanos >= now.nanos {
        Duration::new((boundary.secs - now.secs) as u64, boundary.nanos - now.nanos)
    } else {
        Duration::new(
            (boundary.secs - now.secs - 1) as u64,
            boundary.nanos + (1_000_000_000 - now.nanos),
        )
    }
}

/// Where the off time and the on time agree, a schedule asks for light at all times.
pub proof fn equal_times_mean_on(time: int, at: int)
    ensures
        scheduled_power(time, at, at) == Power::On,
{
}

/// A schedule is dark from its off time on and lit from its on time on.
pub proof fn boundaries_take_effect(off_time: int, on_time: int)
    requires
        off_time != on_time,
    ensures
        scheduled_power(off_time, off_time, on_time) == Power::Off,
        scheduled_power(on_time, off_time, on_time) == Power::On,
{
}

/// Swapping the two times of a schedule inverts it.
pub proof fn swapped_times_invert(time: int, off_time: int, on_time: int)
    requires
        off_time != on_time,
    ensures
        scheduled_power(time, off_time, on_time) != scheduled_power(time, on_time, off_time),
{
}

/// Between two times of day the scheduled power changes only at a boundary.
pub proof fn power_changes_at_boundaries(a: int, b: int, off_time: int, on_time: int)
    requires
        a <= b,
        !(a < off_time <= b),
        !(a < on_time <= b),
    ensures
        scheduled_power(a, off_time, on_time) == scheduled_power(b, off_time, on_time),
{
}

/// A time that the zone's clock does not skip on a day is met exactly, and at it the schedule asks
/// for the power that its boundary brings.
pub proof fn valid_times_are_met(
    moment: Moment,
    day: int,
    time: TimeOfDay,
    off_time: TimeOfDay,
    on_time: TimeOfDay,
)
    requires
        shows(moment, day, time),
        moment.nanos() == time.nanos(),
        0 <= time.secs() < 86_400,
        zone_instants(moment.zone(), stepped(day, time, 0)).len() > 0,
        off_time.since_midnight() != on_time.since_midnight(),
    ensures
        moment.day() == day,
        moment.since_midnight() == time.since_midnight(),
        time == off_time ==> scheduled_power(
            moment.since_midnight(),
            off_time.since_midnight(),
            on_time.since_midnight(),
        ) == Power::Off,
        time == on_time ==> scheduled_power(
            moment.since_midnight(),
            off_time.since_midnight(),
            on_time.since_midnight(),
        ) == Power::On,
{
    let step = choose|step: int|
        0 <= step < GAP_STEPS && moment.local() == #[trigger] stepped(day, time, step)
            && forall|earlier: int|
            0 <= earlier < step ==> zone_instants(
                moment.zone(),
                #[trigger] stepped(day, time, earlier),
            ).len() == 0;
    if step > 0 {
        assert(zone_instants(moment.zone(), stepped(day, time, 0)).len() == 0);
    }
    assert(moment.local() == day * 86_400 + time.secs());
}

/// A zone whose clock is always `offset` seconds ahead of UTC: each local second stands for one UTC
/// second, as far as the calendar reaches.
pub open spec fn has_fixed_offset(zone: Seq<char>, offset: int) -> bool {
    &&& -86_400 < offset < 86_400
    &&& forall|utc: int| in_calendar(utc) ==> #[trigger] zone_offset(zone, utc) == offset
    &&& forall|local: int|
        in_calendar(local) ==> #[trigger] zone_instants(zone, local) == if in_calendar(
            local - offset,
        ) {
            seq![(local - offset) as i64]
        } else {
            Seq::empty()
        }
}

/// A time of day lies within the day.
pub open spec fn is_time_of_day(time: TimeOfDay) -> bool {
    0 <= time.secs() < 86_400 && 0 <= time.nanos() < 1_000_000_000
}

/// A moment lies within the calendar.
pub open spec fn is_moment(moment: Moment) -> bool {
    in_calendar(moment.secs()) && 0 <= moment.nanos() < 1_000_000_000
}

proof fn fixed_time_resolves(zone: Seq<char>, offset: int, day: int, time: TimeOfDay)
    requires
        has_fixed_offset(zone, offset),
        is_time_of_day(time),
        in_calendar(day * 86_400),
        in_calendar(day * 86_400 - offset),
    ensures
        resolution(zone, day, time) matches Resolution::At(utc) ==> utc == day * 86_400
            + time.secs() - offset,
        in_calendar(day * 86_400 + 86_399) && in_calendar(day * 86_400 + 86_399 - offset)
            ==> resolution(zone, day, time) is At,
{
    let local = day * 86_400 + time.secs();
    if in_calendar(local) && in_calendar(local - offset) {
        assert(zone_instants(zone, local) == seq![(local - offset) as i64]);
    } else {
        past_the_end_stays_past(zone, offset, local, GAP_STEPS as nat);
    }
}

proof fn past_the_end_stays_past(zone: Seq<char>, offset: int, local: int, steps: nat)
    requires
        has_fixed_offset(zone, offset),
        local >= FIRST_SECOND,
        local > LAST_SECOND || local - offset > LAST_SECOND,
    ensures
        !(first_valid(zone, local, steps) is At),
    decreases steps,
{
    if steps > 0 && local <= LAST_SECOND {
        assert(zone_instants(zone, local) == Seq::<i64>::empty());
        past_the_end_stays_past(zone, offset, local + 60, (steps - 1) as nat);
    }
}

/// The next time of day in a zone of fixed offset, as far as the calendar reaches: at the time of
/// day, after now and within a day, with no such time between.
proof fn fixed_occurrence(now: Moment, time: TimeOfDay, offset: int)
    requires
        has_fixed_offset(now.zone(), offset),
        is_moment(now),
        is_time_of_day(time),
        in_calendar(now.local()),
        in_calendar(now.day() * 86_400 - offset),
    ensures
        occurrence(now, time) matches Ok(utc) ==> {
            let ahead = utc * 1_000_000_000 + time.nanos() - now.instant();
            ahead == if time.since_midnight() > now.since_midnight() {
                time.since_midnight() - now.since_midnight()
            } else {
                time.since_midnight() - now.since_midnight() + 86_400_000_000_000
            }
        },
        now.day() < LAST_DAY && in_calendar((now.day() + 1) * 86_400 + 86_399 - offset)
            ==> occurrence(now, time) is Ok,
{
    let zone = now.zone();
    let day = now.day();
    assert(zone_offset(zone, now.secs()) == offset);
    assert(now.local() == day * 86_400 + now.local() % 86_400);
    fixed_time_resolves(zone, offset, day, time);
    if day < LAST_DAY {
        fixed_time_resolves(zone, offset, day + 1, time);
    }
}

/// In a zone of fixed offset the next boundary of a schedule lies ahead, within a day, at the time
/// of day that it is for. No boundary lies between now and then. The power that it brings is the
/// one that the schedule asks for from then on, and not the one that it asks for now. There is such
/// a boundary as long as the calendar has a whole day left.
pub proof fn fixed_offset_boundary(
    now: Moment,
    off_time: TimeOfDay,
    on_time: TimeOfDay,
    offset: int,
    at: Moment,
    power: Power,
    other: Moment,
)
    requires
        has_fixed_offset(now.zone(), offset),
        is_moment(now),
        is_moment(at),
        is_moment(other),
        is_time_of_day(off_time),
        is_time_of_day(on_time),
        off_time.since_midnight() != on_time.since_midnight(),
        in_calendar(now.local()),
        in_calendar(now.day() * 86_400 - offset),
        at.zone() == now.zone(),
        other.zone() == now.zone(),
    ensures
        now.day() < LAST_DAY && in_calendar((now.day() + 1) * 86_400 + 86_399 - offset)
            ==> boundary(now, off_time, on_time) is Ok,
        boundary(now, off_time, on_time) == Ok::<(i64, int, Power), Seq<char>>(
            (at.secs() as i64, at.nanos(), power),
        ) ==> {
            let off = off_time.since_midnight();
            let on = on_time.since_midnight();
            &&& now.instant() < at.instant() <= now.instant() + 86_400_000_000_000
            &&& at.since_midnight() == if power == Power::Off {
                off
            } else {
                on
            }
            &&& now.instant() < other.instant() < at.instant() ==> other.since_midnight() != off
                && other.since_midnight() != on
            &&& scheduled_power(at.since_midnight(), off, on) == power
            &&& scheduled_power(now.since_midnight(), off, on) != power
        },
{
    fixed_occurrence(now, off_time, offset);
    fixed_occurrence(now, on_time, offset);
    local_time_advances(now, at, offset);
    local_time_advances(now, other, offset);
}

/// In a zone of fixed offset the time of day goes on with the time that passes.
proof fn local_time_advances(now: Moment, later: Moment, offset: int)
    requires
        has_fixed_offset(now.zone(), offset),
        is_moment(now),
        is_moment(later),
        later.zone() == now.zone(),
    ensures
        ({
            let passed = later.instant() - now.instant();
            &&& 0 <= now.since_midnight() < 86_400_000_000_000
            &&& 0 <= later.since_midnight() < 86_400_000_000_000
            &&& 0 <= passed <= 86_400_000_000_000 ==> later.since_midnight()
                == if now.since_midnight() + passed < 86_400_000_000_000 {
                now.since_midnight() + passed
            } else if now.since_midnight() + passed < 172_800_000_000_000 {
                now.since_midnight() + passed - 86_400_000_000_000
            } else {
                now.since_midnight() + passed - 172_800_000_000_000
            }
        }),
{
    assert(zone_offset(now.zone(), now.secs()) == offset);
    assert(zone_offset(now.zone(), later.secs()) == offset);
}

} // verus!

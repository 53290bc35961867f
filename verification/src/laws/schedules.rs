//! Laws on schedules: what a moment shows, which instant a civil time stands for, when a time of
//! day comes next, and which power holds.
use vstd::prelude::*;

#[allow(unused_imports)]
use crate::device::{Color, Power};
#[allow(unused_imports)]
use crate::schedule::{
    boundary, clock_text, digits, earliest, first_valid, in_calendar, is_boundary, is_occurrence,
    occurrence, resolved, scheduled_power, zone_instants, zone_offset, Moment, Resolution,
    TimeOfDay, LAST_DAY, LAST_SECOND,
};
#[allow(unused_imports)]
use crate::test_mode::{colors, next_place, TestModeState};

verus! {

/// The local day and the local time of day together are the instant, shifted by the zone's offset.
pub proof fn local_time_is_shifted_utc(moment: Moment)
    requires
        0 <= moment.nanos() < 1_000_000_000,
    ensures
        moment.day() * 86_400_000_000_000 + moment.since_midnight() == moment.secs() * 1_000_000_000
            + moment.nanos() + zone_offset(moment.zone(), moment.secs()) * 1_000_000_000,
        0 <= moment.since_midnight() < 86_400_000_000_000,
        moment.instant() == moment.secs() * 1_000_000_000 + moment.nanos(),
        moment.local() == moment.secs() + zone_offset(moment.zone(), moment.secs()),
{
}

/// A time of day is counted from midnight.
pub proof fn time_counts_from_midnight(time: TimeOfDay)
    ensures
        time.since_midnight() == time.secs() * 1_000_000_000 + time.nanos(),
{
}

/// A schedule is dark just where, going back round the clock, its off time is met before its on
/// time, and where the two differ at all.
pub proof fn darkness_follows_the_off_time(time: int, off_time: int, on_time: int, day: int)
    requires
        0 <= time < day,
        0 <= off_time < day,
        0 <= on_time < day,
    ensures
        ({
            let since_off = if time >= off_time {
                time - off_time
            } else {
                time - off_time + day
            };
            let since_on = if time >= on_time {
                time - on_time
            } else {
                time - on_time + day
            };
            scheduled_power(time, off_time, on_time) == Power::Off <==> since_off < since_on
        }),
{
}

/// Of the instants that a local time stands for, the earliest is meant.
pub proof fn earliest_is_least(instants: Seq<i64>)
    ensures
        earliest(instants) is None <==> instants.len() == 0,
        instants.len() == 1 ==> earliest(instants) == Some(instants[0]),
        instants.len() == 2 ==> {
            &&& earliest(instants) is Some
            &&& earliest(instants)->0 <= instants[0]
            &&& earliest(instants)->0 <= instants[1]
            &&& earliest(instants)->0 == instants[0] || earliest(instants)->0 == instants[1]
        },
{
}

/// The local second that lies `step` minutes after a time of day on a day.
pub open spec fn minute_after(day: int, secs: int, step: int) -> int {
    day * 86_400 + secs + 60 * step
}

/// The first of the following minutes, from the time itself on, that the zone's clock shows; it
/// stands for `utc`, the earliest instant that shows it.
pub open spec fn first_shown(zone: Seq<char>, day: int, secs: int, step: int, utc: i64) -> bool {
    let instants = zone_instants(zone, minute_after(day, secs, step));
    &&& minute_after(day, secs, step) <= LAST_SECOND
    &&& instants.len() > 0
    &&& instants.contains(utc)
    &&& instants.len() == 1 ==> utc == instants[0]
    &&& instants.len() == 2 ==> utc <= instants[0] && utc <= instants[1]
    &&& forall|earlier: int|
        0 <= earlier < step ==> zone_instants(
            zone,
            #[trigger] minute_after(day, secs, earlier),
        ).len() == 0
}

/// A civil time stands for the first minute from it on, of three hours, that the zone's clock
/// shows; where there is none, it stands for nothing.
pub proof fn civil_time_is_first_shown(zone: Seq<char>, day: int, time: TimeOfDay)
    ensures
        resolved(zone, day, time) matches Ok(utc) ==> exists|step: int|
            0 <= step < 180 && #[trigger] first_shown(zone, day, time.secs(), step, utc),
        forall|step: int, utc: i64|
            0 <= step < 180 && #[trigger] first_shown(zone, day, time.secs(), step, utc)
                && zone_instants(zone, minute_after(day, time.secs(), step)).len() <= 2 ==> resolved(
                zone,
                day,
                time,
            ) == Ok::<i64, Seq<char>>(utc),
{
    assert(minute_after(day, time.secs(), 0) == day * 86_400 + time.secs());
    if let Ok(utc) = resolved(zone, day, time) {
        let step = walk_is_first_shown(zone, day, time.secs(), 0, utc);
        assert(first_shown(zone, day, time.secs(), step, utc));
    }
    assert forall|step: int, utc: i64|
        0 <= step < 180 && #[trigger] first_shown(zone, day, time.secs(), step, utc)
            && zone_instants(zone, minute_after(day, time.secs(), step)).len() <= 2 implies resolved(
        zone,
        day,
        time,
    ) == Ok::<i64, Seq<char>>(utc) by {
        walk_reaches(zone, day, time.secs(), 0, step, utc);
    }
}

proof fn walk_is_first_shown(zone: Seq<char>, day: int, secs: int, from: int, utc: i64) -> (step:
    int)
    requires
        0 <= from <= 180,
        forall|earlier: int|
            0 <= earlier < from ==> zone_instants(
                zone,
                #[trigger] minute_after(day, secs, earlier),
            ).len() == 0,
        first_valid(zone, minute_after(day, secs, from), (180 - from) as nat) == Resolution::At(
            utc,
        ),
    ensures
        0 <= step < 180,
        first_shown(zone, day, secs, step, utc),
    decreases 180 - from,
{
    let local = minute_after(day, secs, from);
    if earliest(zone_instants(zone, local)) is Some {
        let instants = zone_instants(zone, local);
        assert(instants[0] == utc || instants[1] == utc);
        assert(instants.contains(utc));
        from
    } else {
        assert(minute_after(day, secs, from + 1) == local + 60);
        walk_is_first_shown(zone, day, secs, from + 1, utc)
    }
}

proof fn walk_reaches(zone: Seq<char>, day: int, secs: int, from: int, step: int, utc: i64)
    requires
        0 <= from <= step < 180,
        first_shown(zone, day, secs, step, utc),
        zone_instants(zone, minute_after(day, secs, step)).len() <= 2,
    ensures
        first_valid(zone, minute_after(day, secs, from), (180 - from) as nat) == Resolution::At(utc),
    decreases step - from,
{
    if from < step {
        assert(zone_instants(zone, minute_after(day, secs, from)).len() == 0);
        walk_reaches(zone, day, secs, from + 1, step, utc);
    } else {
        let instants = zone_instants(zone, minute_after(day, secs, step));
        let k = choose|k: int| 0 <= k < instants.len() && instants[k] == utc;
    }
}

/// A time of day does not come earlier on the next day than on this one, where it comes on both.
pub open spec fn days_follow(zone: Seq<char>, day: int, time: TimeOfDay) -> bool {
    match (resolved(zone, day, time), resolved(zone, day + 1, time)) {
        (Ok(today), Ok(tomorrow)) => today <= tomorrow,
        _ => true,
    }
}

/// In every zone, at every moment: a time of day that is still to come today comes next today. One
/// that has passed comes next tomorrow. As long as the days follow one another, no instant at which
/// the time comes, today or tomorrow, lies between now and the one that is given.
pub proof fn next_occurrence_is_the_first(now: Moment, time: TimeOfDay, r: Result<Moment, String>)
    requires
        in_calendar(now.secs() + zone_offset(now.zone(), now.secs())),
        is_occurrence(r, now.zone(), time.nanos(), occurrence(now, time)),
    ensures
        ({
            let zone = now.zone();
            let day = (now.secs() + zone_offset(zone, now.secs())) / 86_400;
            let present = now.secs() * 1_000_000_000 + now.nanos();
            let today = resolved(zone, day, time);
            let tomorrow = resolved(zone, day + 1, time);
            &&& today is Ok && today->Ok_0 * 1_000_000_000 + time.nanos() > present ==> {
                &&& r is Ok
                &&& r->Ok_0.zone() == zone
                &&& r->Ok_0.secs() == today->Ok_0
                &&& r->Ok_0.nanos() == time.nanos()
            }
            &&& today is Ok && today->Ok_0 * 1_000_000_000 + time.nanos() <= present && day
                < LAST_DAY && tomorrow is Ok ==> {
                &&& r is Ok
                &&& r->Ok_0.zone() == zone
                &&& r->Ok_0.secs() == tomorrow->Ok_0
                &&& r->Ok_0.nanos() == time.nanos()
            }
            &&& today is Err ==> r is Err
            &&& r is Ok ==> {
                let at = r->Ok_0.secs() * 1_000_000_000 + r->Ok_0.nanos();
                &&& (today is Ok && today->Ok_0 == r->Ok_0.secs()) || (tomorrow is Ok
                    && tomorrow->Ok_0 == r->Ok_0.secs())
                &&& today is Ok ==> !(present < today->Ok_0 * 1_000_000_000 + time.nanos() < at)
                &&& tomorrow is Ok && days_follow(zone, day, time) ==> !(present < tomorrow->Ok_0
                    * 1_000_000_000 + time.nanos() < at)
            }
        }),
{
}

/// In every zone, at every moment: the next boundary of a schedule is the earliest instant after
/// now at which one of its two times comes, today or tomorrow, as long as the days follow one
/// another. It brings darkness just where it is the off time's, also where both fall together.
pub proof fn next_boundary_is_the_first(
    now: Moment,
    off_time: TimeOfDay,
    on_time: TimeOfDay,
    r: Result<(Moment, Power), String>,
)
    requires
        in_calendar(now.secs() + zone_offset(now.zone(), now.secs())),
        is_boundary(r, now.zone(), boundary(now, off_time, on_time)),
    ensures
        ({
            let zone = now.zone();
            let day = (now.secs() + zone_offset(zone, now.secs())) / 86_400;
            let present = now.secs() * 1_000_000_000 + now.nanos();
            let off_today = resolved(zone, day, off_time);
            let off_tomorrow = resolved(zone, day + 1, off_time);
            let on_today = resolved(zone, day, on_time);
            let on_tomorrow = resolved(zone, day + 1, on_time);
            &&& day < LAST_DAY && off_today is Ok && off_tomorrow is Ok && on_today is Ok
                && on_tomorrow is Ok ==> r is Ok
            &&& r is Ok ==> {
                let (at, power) = r->Ok_0;
                let instant = at.secs() * 1_000_000_000 + at.nanos();
                &&& at.zone() == zone
                &&& power == Power::Off ==> {
                    &&& at.nanos() == off_time.nanos()
                    &&& (off_today is Ok && off_today->Ok_0 == at.secs()) || (off_tomorrow is Ok
                        && off_tomorrow->Ok_0 == at.secs())
                }
                &&& power == Power::On ==> {
                    &&& at.nanos() == on_time.nanos()
                    &&& (on_today is Ok && on_today->Ok_0 == at.secs()) || (on_tomorrow is Ok
                        && on_tomorrow->Ok_0 == at.secs())
                }
                &&& off_today is Ok ==> !(present < off_today->Ok_0 * 1_000_000_000
                    + off_time.nanos() < instant)
                &&& on_today is Ok ==> !(present < on_today->Ok_0 * 1_000_000_000 + on_time.nanos()
                    < instant)
                &&& off_tomorrow is Ok && days_follow(zone, day, off_time) ==> !(present
                    < off_tomorrow->Ok_0 * 1_000_000_000 + off_time.nanos() < instant)
                &&& on_tomorrow is Ok && days_follow(zone, day, on_time) ==> !(present
                    < on_tomorrow->Ok_0 * 1_000_000_000 + on_time.nanos() < instant)
                &&& power == Power::On && off_today is Ok && off_today->Ok_0 * 1_000_000_000
                    + off_time.nanos() > present ==> off_today->Ok_0 * 1_000_000_000
                    + off_time.nanos() > instant
            }
        }),
{
    next_occurrence_is_either(now, off_time);
    next_occurrence_is_either(now, on_time);
}

proof fn next_occurrence_is_either(now: Moment, time: TimeOfDay)
    requires
        in_calendar(now.local()),
    ensures
        ({
            let today = resolved(now.zone(), now.day(), time);
            let tomorrow = resolved(now.zone(), now.day() + 1, time);
            occurrence(now, time) matches Ok(utc) ==> (today is Ok && today->Ok_0 == utc) || (
            tomorrow is Ok && tomorrow->Ok_0 == utc)
        }),
{
}

/// A moment outside the calendar has no next boundary, and no time of day that is not shown today
/// is looked for tomorrow.
pub proof fn no_boundary_outside_the_calendar(now: Moment, time: TimeOfDay)
    ensures
        !in_calendar(now.secs() + zone_offset(now.zone(), now.secs())) ==> occurrence(now, time)
            is Err,
{
}

/// Hours and minutes are written in full, so that different minutes look different.
pub proof fn clock_text_tells_minutes(a: int, b: int)
    requires
        0 <= a < 86_400,
        0 <= b < 86_400,
    ensures
        clock_text(a).len() == 5,
        clock_text(a) == clock_text(b) <==> a / 60 == b / 60,
{
    two_digits_are_two(a / 3600);
    two_digits_are_two(b / 3600);
    two_digits_are_two(a / 60 % 60);
    two_digits_are_two(b / 60 % 60);
    let x = clock_text(a);
    let y = clock_text(b);
    if x == y {
        assert(x[0] == digits(a / 3600, 2)[0] && y[0] == digits(b / 3600, 2)[0]);
        assert(x[1] == digits(a / 3600, 2)[1] && y[1] == digits(b / 3600, 2)[1]);
        assert(x[3] == digits(a / 60 % 60, 2)[0] && y[3] == digits(b / 60 % 60, 2)[0]);
        assert(x[4] == digits(a / 60 % 60, 2)[1] && y[4] == digits(b / 60 % 60, 2)[1]);
    }
}

proof fn two_digits_are_two(n: int)
    requires
        0 <= n < 100,
    ensures
        digits(n, 2).len() == 2,
        digits(n, 2)[0] as int == 0x30 + n / 10,
        digits(n, 2)[1] as int == 0x30 + n % 10,
{
    reveal_with_fuel(digits, 3);
}

/// The colours that Test Mode walks through, one by one: nine of them, the same brightness, and
/// a walk that goes from each to the next and from the last to the first.
pub proof fn colours_of_the_walk(test_mode: TestModeState)
    ensures
        colors().len() == 9,
        colors()[0].1 == (Color { hue: 0, saturation: 0, brightness: 55_000, kelvin: 2_700 }),
        colors()[1].1 == (Color {
            hue: 7_500,
            saturation: 50_000,
            brightness: 55_000,
            kelvin: 3_500,
        }),
        colors()[2].1 == (Color {
            hue: 10_500,
            saturation: 48_000,
            brightness: 55_000,
            kelvin: 3_500,
        }),
        colors()[3].1 == (Color {
            hue: 21_845,
            saturation: 52_000,
            brightness: 55_000,
            kelvin: 3_500,
        }),
        colors()[4].1 == (Color {
            hue: 27_500,
            saturation: 50_000,
            brightness: 55_000,
            kelvin: 3_500,
        }),
        colors()[5].1 == (Color {
            hue: 32_768,
            saturation: 50_000,
            brightness: 55_000,
            kelvin: 3_500,
        }),
        colors()[6].1 == (Color {
            hue: 38_229,
            saturation: 52_000,
            brightness: 55_000,
            kelvin: 3_500,
        }),
        colors()[7].1 == (Color {
            hue: 43_690,
            saturation: 52_000,
            brightness: 55_000,
            kelvin: 3_500,
        }),
        colors()[8].1 == (Color {
            hue: 49_151,
            saturation: 48_000,
            brightness: 55_000,
            kelvin: 3_500,
        }),
        forall|place: nat| place < 8 ==> #[trigger] next_place(place) == place + 1,
        next_place(8) == 0,
        test_mode.joining().color == colors()[test_mode.place() as int].1,
        test_mode.joining().power == test_mode.scheduled(),
{
    assert(colors().len() == 9);
}

} // verus!

//! Laws on timers: which lights they act on, what they send, and what they notice.
use vstd::prelude::*;

#[allow(unused_imports)]
use crate::controller::{known_among, ControllerModel};
#[allow(unused_imports)]
use crate::device::{LifxId, Power};
#[allow(unused_imports)]
use crate::laws::schedules::clock_text_tells_minutes;
#[allow(unused_imports)]
use crate::registry::ManagedLight;
#[allow(unused_imports)]
use crate::schedule::clock_text;
#[allow(unused_imports)]
use crate::text::{decimal_text, hex_text, signed_text};
#[allow(unused_imports)]
use crate::timers::{
    by_id, candidates, effect, enabled, fingerprint, is_active, is_changed, light_run,
    passed_boundary, placed, power_text, run_start, sorted, target_text, targeted, timer_run,
    TimerEffect, TimerLight, TimerRun, TimerSchedule, TimerTarget,
};

verus! {

/// A timer for a light goes through that light where it is known; one for a group goes through the
/// known lights of the group. A light is left to timers just where it is named as such.
pub proof fn targets_lead_to_known_lights(
    model: ControllerModel,
    target: TimerTarget,
    timer_ids: Seq<LifxId>,
    i: int,
)
    ensures
        target matches TimerTarget::Light(id) ==> {
            &&& model.lights.contains_key(id) ==> targeted(model, target) == seq![model.lights[id]]
            &&& !model.lights.contains_key(id) ==> targeted(model, target).len() == 0
        },
        target matches TimerTarget::Group(id) ==> {
            &&& model.groups.contains_key(id) ==> targeted(model, target) == known_among(
                model.groups[id].member_ids,
                model.lights,
            )
            &&& !model.groups.contains_key(id) ==> targeted(model, target).len() == 0
        },
        candidates(model, target, timer_ids).len() == targeted(model, target).len(),
        0 <= i < targeted(model, target).len() ==> {
            let light = targeted(model, target)[i];
            let candidate = candidates(model, target, timer_ids)[i];
            candidate.light == light && (candidate.timer_mode <==> timer_ids.contains(
                light.device.id,
            ))
        },
{
}

/// What a timer does with a known light that is left to timers, under control and not claimed yet.
/// Only a boundary ends the manual choice. The light is due the choice, else the timer's power. The
/// power is sent where the timer has changed, and else just where the light was not told it, or not
/// seen with it. What is sent is what the light is told; nothing else of it changes.
pub proof fn timer_acts_on_its_lights(
    run: TimerRun,
    candidate: TimerLight,
    desired: Power,
    changed: bool,
    boundary: bool,
)
    requires
        run.model.wf(),
        candidate.timer_mode,
        candidate.light.control_enabled,
        !run.claimed.contains(candidate.light.device.id),
        run.model.lights.contains_key(candidate.light.device.id),
    ensures
        ({
            let id = candidate.light.device.id;
            let before = run.model.lights[id];
            let after = light_run(run, candidate, desired, changed, boundary);
            let light = after.model.lights[id];
            let choice = if boundary {
                None
            } else {
                before.power_override
            };
            let due = if choice is Some {
                choice->0
            } else {
                desired
            };
            let settled = before.desired_power == Some(due) && before.observed is Some
                && before.observed->0.power == due;
            let sends = changed || !settled;
            &&& after.claimed == run.claimed.insert(id)
            &&& light == ManagedLight {
                power_override: choice,
                desired_power: if sends {
                    Some(due)
                } else {
                    before.desired_power
                },
                ..before
            }
            &&& after.off == if sends && due == Power::Off {
                run.off.push(before.device)
            } else {
                run.off
            }
            &&& after.on == if sends && due == Power::On {
                run.on.push(before.device)
            } else {
                run.on
            }
            &&& after.model.lights.dom() == run.model.lights.dom()
            &&& forall|other: LifxId|
                other != id ==> #[trigger] after.model.known(other) == run.model.known(other)
            &&& after.model.stored == run.model.stored
            &&& after.model.groups == run.model.groups
        }),
{
    let id = candidate.light.device.id;
    let after = light_run(run, candidate, desired, changed, boundary);
    assert(after.model.lights.dom() =~= run.model.lights.dom());
}

/// A light that is not left to timers, not under control, or claimed already is passed over.
pub proof fn timer_passes_over_others(
    run: TimerRun,
    candidate: TimerLight,
    desired: Power,
    changed: bool,
    boundary: bool,
)
    requires
        !candidate.timer_mode || !candidate.light.control_enabled || run.claimed.contains(
            candidate.light.device.id,
        ),
    ensures
        light_run(run, candidate, desired, changed, boundary) == run,
{
}

/// A timer goes through its lights one after the other, and leaves every light alone that is not
/// among them.
pub proof fn timer_leaves_others_alone(
    run: TimerRun,
    lights: Seq<TimerLight>,
    desired: Power,
    changed: bool,
    boundary: bool,
    id: LifxId,
)
    requires
        run.model.wf(),
        forall|i: int| 0 <= i < lights.len() ==> (#[trigger] lights[i]).light.device.id != id,
    ensures
        ({
            let after = timer_run(run, lights, desired, changed, boundary);
            &&& after.model.wf()
            &&& after.model.known(id) == run.model.known(id)
            &&& after.claimed.contains(id) <==> run.claimed.contains(id)
            &&& after.model.stored == run.model.stored
            &&& after.model.groups == run.model.groups
        }),
        lights.len() > 0 ==> timer_run(run, lights, desired, changed, boundary) == light_run(
            timer_run(run, lights.drop_last(), desired, changed, boundary),
            lights.last(),
            desired,
            changed,
            boundary,
        ),
        lights.len() == 0 ==> timer_run(run, lights, desired, changed, boundary) == run,
    decreases lights.len(),
{
    if lights.len() > 0 {
        let fewer = lights.drop_last();
        assert forall|i: int| 0 <= i < fewer.len() implies (#[trigger] fewer[i]).light.device.id
            != id by {
            assert(lights[i] == fewer[i]);
        }
        timer_leaves_others_alone(run, fewer, desired, changed, boundary, id);
        assert(lights[lights.len() - 1] == lights.last());
    }
}

/// Every light of a timer that is left to timers and under control is claimed, and so had its turn
/// with this timer or with one before it in the round.
pub proof fn timer_claims_its_lights(
    run: TimerRun,
    lights: Seq<TimerLight>,
    desired: Power,
    changed: bool,
    boundary: bool,
    i: int,
)
    requires
        0 <= i < lights.len(),
    ensures
        ({
            let after = timer_run(run, lights, desired, changed, boundary);
            let candidate = lights[i];
            &&& candidate.timer_mode && candidate.light.control_enabled ==> after.claimed.contains(
                candidate.light.device.id,
            )
            &&& run.claimed.subset_of(after.claimed)
        }),
    decreases lights.len(),
{
    let fewer = lights.drop_last();
    let before = timer_run(run, fewer, desired, changed, boundary);
    if fewer.len() > 0 {
        let inner = if i < fewer.len() {
            i
        } else {
            0
        };
        timer_claims_its_lights(run, fewer, desired, changed, boundary, inner);
    }
}

/// A timer has changed just where it was not in effect, or asks for another power, or its settings
/// are others; it has passed a boundary just where it was not in effect or asks for another power.
pub proof fn changes_are_noticed(
    register: Map<i64, TimerEffect>,
    schedule: TimerSchedule,
    desired: Power,
)
    ensures
        ({
            let known = register.contains_key(schedule.id);
            let last = register[schedule.id];
            &&& passed_boundary(register, schedule, desired) <==> !known || last.power != desired
            &&& is_changed(register, schedule, desired) <==> !known || last.power != desired
                || last.fingerprint != fingerprint(schedule, desired)
            &&& effect(schedule, desired).power == desired
            &&& effect(schedule, desired).fingerprint == fingerprint(schedule, desired)
        }),
{
}

/// An edit is noticed: two timers for one target that are remembered alike have the same times to
/// the minute, the same zone, and ask for the same power.
pub proof fn edits_are_noticed(a: TimerSchedule, b: TimerSchedule, x: Power, y: Power)
    requires
        a.target == b.target,
        0 <= a.on_time.secs() < 86_400,
        0 <= b.on_time.secs() < 86_400,
        0 <= a.off_time.secs() < 86_400,
        0 <= b.off_time.secs() < 86_400,
        fingerprint(a, x) == fingerprint(b, y),
        x == y,
    ensures
        a.on_time.secs() / 60 == b.on_time.secs() / 60,
        a.off_time.secs() / 60 == b.off_time.secs() / 60,
        a.timezone.text() == b.timezone.text(),
{
    let p = fingerprint(a, x);
    let q = fingerprint(b, y);
    let t = target_text(a.target);
    reveal_strlit("|");
    let n = t.len() as int;
    clock_text_tells_minutes(a.on_time.secs(), b.on_time.secs());
    clock_text_tells_minutes(a.off_time.secs(), b.off_time.secs());
    clock_text_tells_minutes(b.on_time.secs(), a.on_time.secs());
    clock_text_tells_minutes(b.off_time.secs(), a.off_time.secs());
    assert(p.subrange(n + 1, n + 6) =~= clock_text(a.on_time.secs()));
    assert(q.subrange(n + 1, n + 6) =~= clock_text(b.on_time.secs()));
    assert(p.subrange(n + 7, n + 12) =~= clock_text(a.off_time.secs()));
    assert(q.subrange(n + 7, n + 12) =~= clock_text(b.off_time.secs()));
    let m = power_text(x).len() as int;
    assert(p.subrange(n + 13, p.len() - 1 - m) =~= a.timezone.text());
    assert(q.subrange(n + 13, q.len() - 1 - m) =~= b.timezone.text());
}

/// The enabled timers are kept, each where it stands, and no other is.
pub proof fn enabled_timers_are_kept(schedules: Seq<TimerSchedule>, schedule: TimerSchedule)
    ensures
        enabled(schedules).contains(schedule) <==> schedules.contains(schedule) && schedule.enabled,
        by_id(schedules) ==> by_id(enabled(schedules)),
    decreases schedules.len(),
{
    if schedules.len() == 0 {
        assert(!schedules.contains(schedule));
    } else {
        let fewer = schedules.drop_last();
        let last = schedules.last();
        let before = enabled(fewer);
        enabled_timers_are_kept(fewer, schedule);
        if before.contains(schedule) {
            let k = choose|k: int| 0 <= k < before.len() && before[k] == schedule;
            assert(enabled(schedules)[k] == schedule);
            let j = choose|j: int| 0 <= j < fewer.len() && fewer[j] == schedule;
            assert(schedules[j] == schedule);
        }
        if schedules.contains(schedule) {
            let j = choose|j: int| 0 <= j < schedules.len() && schedules[j] == schedule;
            if j < fewer.len() {
                assert(fewer[j] == schedule);
            } else if schedule.enabled {
                assert(enabled(schedules)[before.len() as int] == schedule);
            }
        }
        if enabled(schedules).contains(schedule) {
            let k = choose|k: int|
                0 <= k < enabled(schedules).len() && enabled(schedules)[k] == schedule;
            if k < before.len() {
                assert(before[k] == schedule);
            } else {
                assert(schedules[schedules.len() - 1] == schedule);
            }
        }
        if by_id(schedules) {
            assert(by_id(fewer)) by {
                assert forall|i: int, j: int| 0 <= i < j < fewer.len() implies fewer[i].id
                    <= fewer[j].id by {
                    assert(schedules[i].id <= schedules[j].id);
                }
            }
            enabled_are_not_later(fewer, last.id);
        }
    }
}

proof fn enabled_are_not_later(schedules: Seq<TimerSchedule>, id: i64)
    ensures
        (forall|i: int| 0 <= i < schedules.len() ==> (#[trigger] schedules[i]).id <= id) ==> (
        forall|i: int|
            0 <= i < enabled(schedules).len() ==> (#[trigger] enabled(schedules)[i]).id <= id),
    decreases schedules.len(),
{
    if schedules.len() > 0 {
        let fewer = schedules.drop_last();
        enabled_are_not_later(fewer, id);
        if forall|i: int| 0 <= i < schedules.len() ==> (#[trigger] schedules[i]).id <= id {
            assert forall|i: int| 0 <= i < fewer.len() implies (#[trigger] fewer[i]).id <= id by {
                assert(schedules[i].id <= id);
            }
            assert(schedules[schedules.len() - 1].id <= id);
        }
    }
}

/// A timer's target is written first, and different targets are written differently.
pub proof fn targets_are_told_apart(a: TimerSchedule, b: TimerTarget, power: Power)
    ensures
        ({
            let text = target_text(a.target);
            let n = text.len() as int;
            &&& n < fingerprint(a, power).len()
            &&& fingerprint(a, power).take(n) == text
            &&& fingerprint(a, power)[n] == '|'
        }),
        target_text(a.target) == target_text(b) ==> a.target == b,
{
    reveal_strlit("|");
    reveal_strlit("light:");
    reveal_strlit("group:");
    let text = target_text(a.target);
    let n = text.len() as int;
    assert(fingerprint(a, power).take(n) =~= text);
    if text == target_text(b) {
        assert(text[0] == target_text(b)[0]);
        let x = text.skip(6);
        let y = target_text(b).skip(6);
        match (a.target, b) {
            (TimerTarget::Light(i), TimerTarget::Light(j)) => {
                assert(x =~= hex_text(i as int, 16));
                assert(y =~= hex_text(j as int, 16));
                crate::text::hex16_reads_back(i);
                crate::text::hex16_reads_back(j);
            },
            (TimerTarget::Group(i), TimerTarget::Group(j)) => {
                assert(x =~= signed_text(i as int));
                assert(y =~= signed_text(j as int));
                signed_texts_differ(i as int, j as int);
            },
            _ => {},
        }
    }
}

proof fn decimal_texts_differ(a: nat, b: nat)
    requires
        decimal_text(a) == decimal_text(b),
    ensures
        a == b,
    decreases a,
{
    decimal_text_is_digits(a);
    decimal_text_is_digits(b);
    let x = decimal_text(a);
    let y = decimal_text(b);
    assert(x.last() as int == 0x30 + a % 10);
    assert(y.last() as int == 0x30 + b % 10);
    assert(x.last() == y.last());
    if a >= 10 && b >= 10 {
        assert(x.drop_last() =~= decimal_text(a / 10));
        assert(y.drop_last() =~= decimal_text(b / 10));
        decimal_texts_differ(a / 10, b / 10);
    } else if a >= 10 {
        decimal_text_is_digits(a / 10);
    } else if b >= 10 {
        decimal_text_is_digits(b / 10);
    }
}

proof fn decimal_text_is_digits(n: nat)
    ensures
        decimal_text(n).len() > 0,
        forall|i: int|
            0 <= i < decimal_text(n).len() ==> '0' <= #[trigger] decimal_text(n)[i] <= '9',
    decreases n,
{
    if n >= 10 {
        decimal_text_is_digits(n / 10);
    }
}

proof fn signed_texts_differ(a: int, b: int)
    requires
        signed_text(a) == signed_text(b),
    ensures
        a == b,
{
    let x = signed_text(a);
    let y = signed_text(b);
    if a < 0 {
        decimal_text_is_digits((-a) as nat);
    } else {
        decimal_text_is_digits(a as nat);
    }
    if b < 0 {
        decimal_text_is_digits((-b) as nat);
    } else {
        decimal_text_is_digits(b as nat);
    }
    assert(x[0] == y[0]);
    if a < 0 && b >= 0 {
        assert(x[0] == '-');
        assert(y[0] == decimal_text(b as nat)[0]);
    }
    if b < 0 && a >= 0 {
        assert(y[0] == '-');
        assert(x[0] == decimal_text(a as nat)[0]);
    }
    if a < 0 && b < 0 {
        assert(x.skip(1) =~= decimal_text((-a) as nat));
        assert(y.skip(1) =~= decimal_text((-b) as nat));
        decimal_texts_differ((-a) as nat, (-b) as nat);
    } else if a >= 0 && b >= 0 {
        decimal_texts_differ(a as nat, b as nat);
    }
}

/// A timer starts with what is known and claimed, and with nothing to send. A timer is active just
/// where one of its identifier is enabled.
pub proof fn timers_start_afresh(
    model: ControllerModel,
    claimed: Set<LifxId>,
    schedules: Seq<TimerSchedule>,
    i: int,
    id: i64,
)
    ensures
        run_start(model, claimed).model == model,
        run_start(model, claimed).claimed == claimed,
        run_start(model, claimed).off.len() == 0,
        run_start(model, claimed).on.len() == 0,
        0 <= i < schedules.len() && schedules[i].enabled ==> is_active(schedules, schedules[i].id),
        is_active(schedules, id) ==> exists|k: int|
            0 <= k < schedules.len() && (#[trigger] schedules[k]).id == id && schedules[k].enabled,
{
}

/// Sorting puts no timer before one of a lower identifier, and keeps those of one identifier in the
/// order in which they were given.
pub proof fn sorting_is_stable(schedules: Seq<TimerSchedule>, id: i64)
    ensures
        of_id(sorted(schedules), id) == of_id(schedules, id),
    decreases schedules.len(),
{
    if schedules.len() > 0 {
        let fewer = schedules.drop_last();
        sorting_is_stable(fewer, id);
        crate::timers::sorting_orders(fewer);
        placing_is_stable(sorted(fewer), schedules.last(), id);
    }
}

/// The timers of an identifier, in their order.
pub open spec fn of_id(schedules: Seq<TimerSchedule>, id: i64) -> Seq<TimerSchedule>
    decreases schedules.len(),
{
    if schedules.len() == 0 {
        Seq::empty()
    } else {
        let before = of_id(schedules.drop_last(), id);
        if schedules.last().id == id {
            before.push(schedules.last())
        } else {
            before
        }
    }
}

proof fn placing_is_stable(before: Seq<TimerSchedule>, schedule: TimerSchedule, id: i64)
    requires
        by_id(before),
    ensures
        of_id(placed(before, schedule), id) == if schedule.id == id {
            of_id(before, id).push(schedule)
        } else {
            of_id(before, id)
        },
    decreases before.len(),
{
    if before.len() == 0 || before.last().id <= schedule.id {
        assert(before.push(schedule).drop_last() =~= before);
    } else {
        let shorter = before.drop_last();
        placing_is_stable(shorter, schedule, id);
        let after = placed(shorter, schedule);
        assert(after.push(before.last()).drop_last() =~= after);
    }
}

} // verus!

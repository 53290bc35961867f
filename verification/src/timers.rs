//! Timers: daily schedules for single lights or groups.
//!
//! A timer takes effect whenever its boundary is passed or its settings change. A manual power
//! choice is honoured until the next boundary, also where settings change before it. In one round
//! no light is commanded by two timers: the timer with the lowest identifier wins.
use std::collections::{HashMap, HashSet};

use vstd::prelude::*;

use crate::controller::ControllerState;
use crate::device::{LifxDevice, LifxId, Power};
use crate::registry::ManagedLight;
use crate::schedule::{TimeOfDay, Timezone};
use crate::tasks::{batches_of, PowerBatch};
use crate::text::{format_hex16, push_signed};
#[allow(unused_imports)]
use crate::controller::{known_among, ControllerModel};
#[allow(unused_imports)]
use crate::schedule::clock_text;
#[allow(unused_imports)]
use crate::tasks::{batch, batch_models};
#[allow(unused_imports)]
use crate::text::{hex_text, signed_text};

verus! {

broadcast use vstd::std_specs::hash::group_hash_axioms;

/// How often the timers are gone through, in seconds.
pub const ROUND_SECS: u64 = 1;

/// What a timer governs.
#[derive(Clone, Copy, Debug, PartialEq, Eq, Structural)]
pub enum TimerTarget {
    Light(LifxId),
    Group(i64),
}

/// A timer.
#[derive(Debug)]
pub struct TimerSchedule {
    pub id: i64,
    pub enabled: bool,
    pub timezone: Timezone,
    pub off_time: TimeOfDay,
    pub on_time: TimeOfDay,
    pub target: TimerTarget,
}

impl Clone for TimerSchedule {
    fn clone(&self) -> (r: TimerSchedule)
        ensures
            r == *self,
    {
        TimerSchedule {
            id: self.id,
            enabled: self.enabled,
            timezone: self.timezone.clone(),
            off_time: self.off_time,
            on_time: self.on_time,
            target: self.target,
        }
    }
}

/// A light that a timer's target leads to.
#[derive(Debug)]
pub struct TimerLight {
    pub light: ManagedLight,
    /// Whether the light is left to timers.
    pub timer_mode: bool,
}

pub open spec fn target_text(target: TimerTarget) -> Seq<char> {
    match target {
        TimerTarget::Light(id) => "light:"@ + hex_text(id as int, 16),
        TimerTarget::Group(id) => "group:"@ + signed_text(id as int),
    }
}

/// How a timer's target is written.
pub fn timer_target_log(target: TimerTarget) -> (r: String)
    ensures
        r@ == target_text(target),
{
    match target {
        TimerTarget::Light(id) => "light:".to_string().concat(format_hex16(id).as_str()),
        TimerTarget::Group(id) => {
            let mut text = "group:".to_string();
            push_signed(&mut text, id);
            text
        },
    }
}

pub open spec fn power_text(power: Power) -> Seq<char> {
    match power {
        Power::On => "On"@,
        Power::Off => "Off"@,
    }
}

/// The known lights that a target leads to: the light itself, or the lights of the group.
pub open spec fn targeted(model: ControllerModel, target: TimerTarget) -> Seq<ManagedLight> {
    match target {
        TimerTarget::Light(id) => match model.known(id) {
            Some(light) => seq![light],
            None => Seq::empty(),
        },
        TimerTarget::Group(id) => if model.groups.contains_key(id) {
            known_among(model.groups[id].member_ids, model.lights)
        } else {
            Seq::empty()
        },
    }
}

pub fn timer_target_lights(state: &ControllerState, target: TimerTarget) -> (r: Vec<ManagedLight>)
    ensures
        r@ == targeted(state@, target),
{
    let mut lights: Vec<ManagedLight> = Vec::new();
    match target {
        TimerTarget::Light(id) => {
            if let Some(light) = state.light(id) {
                lights.push(light);
            }
        },
        TimerTarget::Group(id) => {
            if let Some(members) = state.lights_in_group(id) {
                lights = members;
            }
        },
    }
    assert(lights@ =~= targeted(state@, target));
    lights
}

/// The lights that a target leads to, each with whether it is left to timers.
pub open spec fn candidates(
    model: ControllerModel,
    target: TimerTarget,
    timer_ids: Seq<LifxId>,
) -> Seq<TimerLight> {
    targeted(model, target).map_values(
        |light: ManagedLight|
            TimerLight { light, timer_mode: timer_ids.contains(light.device.id) },
    )
}

/// The lights to go through for a target; `timer_ids` names the lights that are left to timers.
pub fn timer_candidates(
    state: &ControllerState,
    target: TimerTarget,
    timer_ids: &Vec<LifxId>,
) -> (r: Vec<TimerLight>)
    ensures
        r@ == candidates(state@, target, timer_ids@),
{
    let lights = timer_target_lights(state, target);
    let mut found: Vec<TimerLight> = Vec::new();
    for light in it: lights
        invariant
            it.seq() == lights@,
            lights@ == targeted(state@, target),
            found@ == candidates(state@, target, timer_ids@).take(it.index() as int),
    {
        let timer_mode = names(timer_ids, light.device.id);
        found.push(TimerLight { light, timer_mode });
        assert(found@ =~= candidates(state@, target, timer_ids@).take(it.index() + 1));
    }
    assert(found@ =~= candidates(state@, target, timer_ids@));
    found
}

fn names(ids: &Vec<LifxId>, id: LifxId) -> (r: bool)
    ensures
        r == ids@.contains(id),
{
    for i in 0..ids.len()
        invariant
            forall|j: int| 0 <= j < i ==> #[trigger] ids@[j] != id,
    {
        if ids[i] == id {
            assert(ids@[i as int] == id);
            return true;
        }
    }
    false
}

/// Everything on which a timer's effect depends: its settings and the power it asks for now.
pub open spec fn fingerprint(schedule: TimerSchedule, desired: Power) -> Seq<char> {
    target_text(schedule.target) + "|"@ + clock_text(schedule.on_time.secs()) + "|"@ + clock_text(
        schedule.off_time.secs(),
    ) + "|"@ + schedule.timezone.text() + "|"@ + power_text(desired)
}

pub fn timer_fingerprint(schedule: &TimerSchedule, desired: Power) -> (r: String)
    ensures
        r@ == fingerprint(*schedule, desired),
{
    let power = match desired {
        Power::On => "On",
        Power::Off => "Off",
    };
    timer_target_log(schedule.target).concat("|").concat(
        schedule.on_time.hours_and_minutes().as_str(),
    ).concat("|").concat(schedule.off_time.hours_and_minutes().as_str()).concat("|").concat(
        schedule.timezone.name(),
    ).concat("|").concat(power)
}

/// The timers that are enabled, in their order.
pub open spec fn enabled(schedules: Seq<TimerSchedule>) -> Seq<TimerSchedule>
    decreases schedules.len(),
{
    if schedules.len() == 0 {
        Seq::empty()
    } else {
        let before = enabled(schedules.drop_last());
        if schedules.last().enabled {
            before.push(schedules.last())
        } else {
            before
        }
    }
}

/// Timers in the order of their identifiers.
pub open spec fn by_id(schedules: Seq<TimerSchedule>) -> bool {
    forall|i: int, j: int| 0 <= i < j < schedules.len() ==> schedules[i].id <= schedules[j].id
}

/// Inserts a timer behind all timers whose identifiers are not greater.
pub open spec fn placed(sorted: Seq<TimerSchedule>, schedule: TimerSchedule) -> Seq<TimerSchedule>
    decreases sorted.len(),
{
    if sorted.len() == 0 || sorted.last().id <= schedule.id {
        sorted.push(schedule)
    } else {
        placed(sorted.drop_last(), schedule).push(sorted.last())
    }
}

/// The timers in the order of their identifiers; timers of one identifier stay in the order given.
pub open spec fn sorted(schedules: Seq<TimerSchedule>) -> Seq<TimerSchedule>
    decreases schedules.len(),
{
    if schedules.len() == 0 {
        Seq::empty()
    } else {
        placed(sorted(schedules.drop_last()), schedules.last())
    }
}

proof fn placing_keeps_order(before: Seq<TimerSchedule>, schedule: TimerSchedule)
    requires
        by_id(before),
    ensures
        by_id(placed(before, schedule)),
        placed(before, schedule).to_multiset() =~= before.to_multiset().insert(schedule),
        forall|k: int|
            0 <= k < placed(before, schedule).len() ==> (#[trigger] placed(before, schedule)[k]).id
                <= schedule.id || before.contains(placed(before, schedule)[k]),
    decreases before.len(),
{
    broadcast use vstd::seq_lib::group_to_multiset_ensures;

    if before.len() == 0 || before.last().id <= schedule.id {
        assert forall|k: int| 0 <= k < placed(before, schedule).len() implies (
        #[trigger] placed(before, schedule)[k]).id <= schedule.id || before.contains(
            placed(before, schedule)[k],
        ) by {}
    } else {
        let shorter = before.drop_last();
        placing_keeps_order(shorter, schedule);
        let after = placed(shorter, schedule);
        assert(before =~= shorter.push(before.last()));
        assert forall|k: int| 0 <= k < after.len() implies (#[trigger] after[k]).id
            <= before.last().id by {
            if shorter.contains(after[k]) {
                let j = choose|j: int| 0 <= j < shorter.len() && shorter[j] == after[k];
                assert(before[j].id <= before[before.len() - 1].id);
            }
        }
        assert forall|k: int| 0 <= k < placed(before, schedule).len() implies (
        #[trigger] placed(before, schedule)[k]).id <= schedule.id || before.contains(
            placed(before, schedule)[k],
        ) by {
            if k < after.len() {
                assert(placed(before, schedule)[k] == after[k]);
                if shorter.contains(after[k]) {
                    let j = choose|j: int| 0 <= j < shorter.len() && shorter[j] == after[k];
                    assert(before[j] == after[k]);
                }
            } else {
                assert(before[before.len() - 1] == before.last());
            }
        }
    }
}

/// Sorting orders the timers by identifier and neither adds nor loses one.
pub proof fn sorting_orders(schedules: Seq<TimerSchedule>)
    ensures
        by_id(sorted(schedules)),
        sorted(schedules).to_multiset() =~= schedules.to_multiset(),
    decreases schedules.len(),
{
    broadcast use vstd::seq_lib::group_to_multiset_ensures;

    if schedules.len() > 0 {
        let shorter = schedules.drop_last();
        sorting_orders(shorter);
        placing_keeps_order(sorted(shorter), schedules.last());
        assert(schedules =~= shorter.push(schedules.last()));
    }
}

fn place(before: Vec<TimerSchedule>, schedule: TimerSchedule) -> (r: Vec<TimerSchedule>)
    ensures
        r@ == placed(before@, schedule),
{
    let ghost all = before@;
    let mut head = before;
    let mut tail: Vec<TimerSchedule> = Vec::new();
    assert(all =~= head@ + reversed(tail@));
    while head.len() > 0 && head[head.len() - 1].id > schedule.id
        invariant
            placed(all, schedule) == placed(head@, schedule) + reversed(tail@),
        decreases head.len(),
    {
        let ghost longer = head@;
        let ghost behind = tail@;
        if let Some(last) = head.pop() {
            tail.push(last);
            assert(reversed(tail@) =~= seq![last] + reversed(behind));
            assert(head@ =~= longer.drop_last());
            assert(placed(longer, schedule) + reversed(behind) =~= placed(head@, schedule)
                + reversed(tail@));
        }
    }
    head.push(schedule);
    while tail.len() > 0
        invariant
            placed(all, schedule) == head@ + reversed(tail@),
        decreases tail.len(),
    {
        let ghost shorter = head@;
        let ghost behind = tail@;
        if let Some(next) = tail.pop() {
            head.push(next);
            assert(behind =~= tail@.push(next));
            assert(reversed(behind) =~= seq![next] + reversed(tail@));
            assert(shorter + reversed(behind) =~= head@ + reversed(tail@));
        }
    }
    assert(head@ + reversed(tail@) =~= head@);
    head
}

spec fn reversed(schedules: Seq<TimerSchedule>) -> Seq<TimerSchedule> {
    Seq::new(schedules.len(), |i: int| schedules[schedules.len() - 1 - i])
}

/// What was in effect for a timer when it was last seen.
struct AppliedTimer {
    fingerprint: String,
    power: Power,
}

/// What was in effect for a timer, apart from how it is held in memory.
pub ghost struct TimerEffect {
    pub fingerprint: Seq<char>,
    pub power: Power,
}

impl View for AppliedTimer {
    type V = TimerEffect;

    closed spec fn view(&self) -> TimerEffect {
        TimerEffect { fingerprint: self.fingerprint@, power: self.power }
    }
}

/// What was in effect for each timer when it was last seen.
pub struct TimerRegister {
    applied: HashMap<i64, AppliedTimer>,
}

impl View for TimerRegister {
    type V = Map<i64, TimerEffect>;

    closed spec fn view(&self) -> Map<i64, TimerEffect> {
        self.applied@.map_values(|applied: AppliedTimer| applied@)
    }
}

/// What a timer brings into effect when it asks for `desired`.
pub open spec fn effect(schedule: TimerSchedule, desired: Power) -> TimerEffect {
    TimerEffect { fingerprint: fingerprint(schedule, desired), power: desired }
}

/// Whether anything of a timer is new: its settings, or the power that it asks for.
pub open spec fn is_changed(
    register: Map<i64, TimerEffect>,
    schedule: TimerSchedule,
    desired: Power,
) -> bool {
    !(register.contains_key(schedule.id) && register[schedule.id] == effect(schedule, desired))
}

/// Whether a timer has passed a boundary: the power that it last brought into effect is not the one
/// that it asks for now. A timer that was not in effect before starts at a boundary.
pub open spec fn passed_boundary(
    register: Map<i64, TimerEffect>,
    schedule: TimerSchedule,
    desired: Power,
) -> bool {
    !(register.contains_key(schedule.id) && register[schedule.id].power == desired)
}

/// One round through the timers: the lights that a timer has claimed so far.
pub struct TimerRound {
    claimed: HashSet<LifxId>,
}

impl View for TimerRound {
    type V = Set<LifxId>;

    closed spec fn view(&self) -> Set<LifxId> {
        self.claimed@
    }
}

/// Where a round stands while a timer's lights are gone through.
pub ghost struct TimerRun {
    pub model: ControllerModel,
    pub claimed: Set<LifxId>,
    /// The devices to turn off.
    pub off: Seq<LifxDevice>,
    /// The devices to turn on.
    pub on: Seq<LifxDevice>,
}

/// Whether a light's power is not what it should be, or not known to be.
pub open spec fn unsettled(light: ManagedLight, power: Power) -> bool {
    light.desired_power != Some(power) || match light.observed {
        Some(state) => state.power != power,
        None => true,
    }
}

/// One light of a timer. A light that is not left to timers, not controlled, or claimed already is
/// passed over. A boundary ends its manual choice; nothing else does. The power is sent where the
/// timer has changed, and else only where the light needs it.
pub open spec fn light_run(
    run: TimerRun,
    candidate: TimerLight,
    desired: Power,
    changed: bool,
    boundary: bool,
) -> TimerRun {
    let id = candidate.light.device.id;
    if !candidate.timer_mode || !candidate.light.control_enabled || run.claimed.contains(id) {
        run
    } else {
        let model = if boundary {
            run.model.with_power_override(id, None)
        } else {
            run.model
        };
        let light = match model.known(id) {
            Some(light) => light,
            None => candidate.light,
        };
        let power = light.effective_power(desired);
        if !changed && !unsettled(light, power) {
            TimerRun { model, claimed: run.claimed.insert(id), ..run }
        } else {
            TimerRun {
                model: model.with_desired_power(light.device.id, Some(power)),
                claimed: run.claimed.insert(id),
                off: if power == Power::Off {
                    run.off.push(light.device)
                } else {
                    run.off
                },
                on: if power == Power::On {
                    run.on.push(light.device)
                } else {
                    run.on
                },
            }
        }
    }
}

/// All lights of a timer, in their order.
pub open spec fn timer_run(
    run: TimerRun,
    lights: Seq<TimerLight>,
    desired: Power,
    changed: bool,
    boundary: bool,
) -> TimerRun
    decreases lights.len(),
{
    if lights.len() == 0 {
        run
    } else {
        light_run(
            timer_run(run, lights.drop_last(), desired, changed, boundary),
            lights.last(),
            desired,
            changed,
            boundary,
        )
    }
}

/// Where a timer starts.
pub open spec fn run_start(model: ControllerModel, claimed: Set<LifxId>) -> TimerRun {
    TimerRun { model, claimed, off: Seq::empty(), on: Seq::empty() }
}

/// Some timer of that identifier is enabled.
pub open spec fn is_active(schedules: Seq<TimerSchedule>, id: i64) -> bool {
    exists|i: int| 0 <= i < schedules.len() && (#[trigger] schedules[i]).enabled && schedules[i].id
        == id
}

/// What a timer calls for.
#[derive(Debug)]
pub struct TimerCommand {
    pub batches: Vec<PowerBatch>,
    /// Whether a boundary or a change of settings brought the timer into effect.
    pub changed: bool,
    /// Whether it was a boundary, which ends manual choices.
    pub boundary: bool,
}

impl TimerRegister {
    pub fn new() -> (r: TimerRegister)
        ensures
            r@ == Map::<i64, TimerEffect>::empty(),
    {
        let r = TimerRegister { applied: HashMap::new() };
        assert(r@ =~= Map::<i64, TimerEffect>::empty());
        r
    }

    /// Starts a round: the enabled timers in the order of their identifiers. Of the others nothing
    /// is remembered.
    pub fn begin_round(&mut self, schedules: &Vec<TimerSchedule>) -> (r: (
        Vec<TimerSchedule>,
        TimerRound,
    ))
        ensures
            forall|i: int| 0 <= i < r.0@.len() ==> (#[trigger] r.0@[i]).enabled,
            r.0@ == enabled(sorted(schedules@)),
            r.1@ == Set::<LifxId>::empty(),
            forall|id: i64| #[trigger]
                final(self)@.contains_key(id) <==> old(self)@.contains_key(id) && is_active(
                    schedules@,
                    id,
                ),
            forall|id: i64| #[trigger]
                final(self)@.contains_key(id) ==> final(self)@[id] == old(self)@[id],
    {
        let mut ordered: Vec<TimerSchedule> = Vec::new();
        assert(schedules@.take(0) =~= Seq::empty());
        for i in 0..schedules.len()
            invariant
                ordered@ == sorted(schedules@.take(i as int)),
        {
            assert(schedules@.take(i + 1).drop_last() =~= schedules@.take(i as int));
            ordered = place(ordered, schedules[i].clone());
        }
        assert(schedules@.take(schedules@.len() as int) =~= schedules@);
        let mut active: Vec<TimerSchedule> = Vec::new();
        assert(ordered@.take(0) =~= Seq::empty());
        for i in 0..ordered.len()
            invariant
                active@ == enabled(ordered@.take(i as int)),
                forall|k: int| 0 <= k < active@.len() ==> (#[trigger] active@[k]).enabled,
        {
            assert(ordered@.take(i + 1).drop_last() =~= ordered@.take(i as int));
            if ordered[i].enabled {
                active.push(ordered[i].clone());
            }
        }
        assert(ordered@.take(ordered@.len() as int) =~= ordered@);
        let ghost before = self.applied@;
        let mut kept: HashMap<i64, AppliedTimer> = HashMap::new();
        for i in 0..schedules.len()
            invariant
                forall|id: i64| #[trigger]
                    kept@.contains_key(id) <==> before.contains_key(id) && is_active(
                        schedules@.take(i as int),
                        id,
                    ),
                forall|id: i64| #[trigger] kept@.contains_key(id) ==> kept@[id] == before[id],
                forall|id: i64| #[trigger]
                    self.applied@.contains_key(id) <==> before.contains_key(id)
                        && !kept@.contains_key(id),
                forall|id: i64| #[trigger]
                    self.applied@.contains_key(id) ==> self.applied@[id] == before[id],
        {
            let ghost shorter = schedules@.take(i as int);
            let ghost longer = schedules@.take(i + 1);
            assert forall|id: i64| #[trigger]
                is_active(longer, id) <==> is_active(shorter, id) || (schedules@[i as int].enabled
                    && schedules@[i as int].id == id) by {
                if is_active(shorter, id) {
                    let k = choose|k: int|
                        0 <= k < shorter.len() && (#[trigger] shorter[k]).enabled && shorter[k].id
                            == id;
                    assert(longer[k] == shorter[k]);
                }
                if is_active(longer, id) {
                    let k = choose|k: int|
                        0 <= k < longer.len() && (#[trigger] longer[k]).enabled && longer[k].id
                            == id;
                    assert(k < i ==> shorter[k] == longer[k]);
                }
                assert(longer[i as int] == schedules@[i as int]);
            }
            if schedules[i].enabled {
                let id: i64 = schedules[i].id;
                if let Some(applied) = self.applied.remove(&id) {
                    kept.insert(id, applied);
                }
            }
        }
        assert(schedules@.take(schedules@.len() as int) =~= schedules@);
        self.applied = kept;
        (active, TimerRound { claimed: HashSet::new() })
    }

    /// Goes through the lights of a timer that asks for `desired` now, and says what to send.
    pub fn run_timer(
        &mut self,
        round: &mut TimerRound,
        state: &mut ControllerState,
        schedule: &TimerSchedule,
        desired: Power,
        lights: &Vec<TimerLight>,
    ) -> (r: TimerCommand)
        requires
            old(state)@.wf(),
        ensures
            final(state)@.wf(),
            r.changed == is_changed(old(self)@, *schedule, desired),
            r.boundary == passed_boundary(old(self)@, *schedule, desired),
            final(self)@ == old(self)@.insert(schedule.id, effect(*schedule, desired)),
            ({
                let run = timer_run(
                    run_start(old(state)@, old(round)@),
                    lights@,
                    desired,
                    r.changed,
                    r.boundary,
                );
                &&& final(state)@ == run.model
                &&& final(round)@ == run.claimed
                &&& batch_models(r.batches@) == batch(run.off, Power::Off) + batch(
                    run.on,
                    Power::On,
                )
            }),
    {
        let text = timer_fingerprint(schedule, desired);
        let (changed, boundary): (bool, bool) = match self.applied.get(&schedule.id) {
            Some(applied) => {
                let boundary = applied.power != desired;
                (boundary || !(applied.fingerprint == text), boundary)
            },
            None => (true, true),
        };
        let ghost start = run_start(state@, round@);
        let mut off: Vec<LifxDevice> = Vec::new();
        let mut on: Vec<LifxDevice> = Vec::new();
        assert(lights@.take(0) =~= Seq::empty());
        assert(off@ =~= start.off && on@ =~= start.on);
        for i in 0..lights.len()
            invariant
                state@.wf(),
                start == run_start(old(state)@, old(round)@),
                timer_run(start, lights@.take(i as int), desired, changed, boundary) == (TimerRun {
                    model: state@,
                    claimed: round@,
                    off: off@,
                    on: on@,
                }),
        {
            assert(lights@.take(i + 1).drop_last() =~= lights@.take(i as int));
            let candidate = &lights[i];
            let id: LifxId = candidate.light.device.id;
            if candidate.timer_mode && candidate.light.control_enabled && !round.claimed.contains(
                &id,
            ) {
                round.claimed.insert(id);
                if boundary {
                    let _ = state.set_power_override(id, None);
                }
                let light = match state.light(id) {
                    Some(light) => light,
                    None => candidate.light.clone(),
                };
                let power = match light.power_override {
                    Some(power) => power,
                    None => desired,
                };
                let unsettled = match light.desired_power {
                    Some(told) => told != power,
                    None => true,
                } || match light.observed {
                    Some(observed) => observed.power != power,
                    None => true,
                };
                if changed || unsettled {
                    let _ = state.set_desired_power(light.device.id, Some(power));
                    match power {
                        Power::On => on.push(light.device),
                        Power::Off => off.push(light.device),
                    }
                }
            }
        }
        assert(lights@.take(lights@.len() as int) =~= lights@);
        let batches = batches_of(off, on);
        let ghost before = self@;
        self.applied.insert(schedule.id, AppliedTimer { fingerprint: text, power: desired });
        assert(self@ =~= before.insert(schedule.id, effect(*schedule, desired)));
        TimerCommand { batches, changed, boundary }
    }
}

/// The devices that a run commands.
pub open spec fn commanded_ids(run: TimerRun) -> Seq<LifxId> {
    (run.off + run.on).map_values(|device: LifxDevice| device.id)
}

/// A timer claims every light that it commands, commands none that was claimed before it, and none
/// twice: in one round no light gets two commands.
pub proof fn no_light_gets_two_commands(
    model: ControllerModel,
    claimed: Set<LifxId>,
    lights: Seq<TimerLight>,
    desired: Power,
    changed: bool,
    boundary: bool,
)
    requires
        model.wf(),
    ensures
        ({
            let run = timer_run(run_start(model, claimed), lights, desired, changed, boundary);
            &&& commanded_ids(run).no_duplicates()
            &&& forall|id: LifxId| #[trigger]
                commanded_ids(run).contains(id) ==> run.claimed.contains(id) && !claimed.contains(
                    id,
                )
            &&& claimed.subset_of(run.claimed)
            &&& run.model.wf()
        }),
    decreases lights.len(),
{
    let start = run_start(model, claimed);
    let run = timer_run(start, lights, desired, changed, boundary);
    if lights.len() == 0 {
        assert(commanded_ids(run) =~= Seq::empty());
    } else {
        let before = timer_run(start, lights.drop_last(), desired, changed, boundary);
        no_light_gets_two_commands(model, claimed, lights.drop_last(), desired, changed, boundary);
        one_more_command(before, lights.last(), desired, changed, boundary);
        assert(run == light_run(before, lights.last(), desired, changed, boundary));
        let id = lights.last().light.device.id;
        assert forall|other: LifxId| #[trigger]
            commanded_ids(run).contains(other) implies run.claimed.contains(other)
            && !claimed.contains(other) by {
            if commanded_ids(before).contains(other) {
                assert(before.claimed.contains(other) && !claimed.contains(other));
            } else {
                assert(other == id && !before.claimed.contains(id));
            }
        }
    }
}

proof fn one_more_command(
    run: TimerRun,
    candidate: TimerLight,
    desired: Power,
    changed: bool,
    boundary: bool,
)
    requires
        run.model.wf(),
        commanded_ids(run).no_duplicates(),
        forall|id: LifxId| #[trigger] commanded_ids(run).contains(id) ==> run.claimed.contains(id),
    ensures
        ({
            let after = light_run(run, candidate, desired, changed, boundary);
            let id = candidate.light.device.id;
            &&& after.model.wf()
            &&& run.claimed.subset_of(after.claimed)
            &&& commanded_ids(after).no_duplicates()
            &&& forall|other: LifxId| #[trigger]
                commanded_ids(after).contains(other) ==> commanded_ids(run).contains(other) || (
                other == id && !run.claimed.contains(id) && after.claimed.contains(id))
        }),
{
    let after = light_run(run, candidate, desired, changed, boundary);
    let id = candidate.light.device.id;
    if candidate.timer_mode && candidate.light.control_enabled && !run.claimed.contains(id) {
        let base = if boundary {
            run.model.with_power_override(id, None)
        } else {
            run.model
        };
        assert(base.wf());
        let light = match base.known(id) {
            Some(light) => light,
            None => candidate.light,
        };
        assert(light.device.id == id);
        let power = light.effective_power(desired);
        let ids = commanded_ids(run);
        assert(!ids.contains(id));
        if changed || unsettled(light, power) {
            let at = if power == Power::Off {
                run.off.len() as int
            } else {
                ids.len() as int
            };
            assert(commanded_ids(after) =~= ids.insert(at, id));
            inserting_keeps_distinct(ids, at, id);
        }
    }
}

proof fn inserting_keeps_distinct(ids: Seq<LifxId>, at: int, id: LifxId)
    requires
        ids.no_duplicates(),
        0 <= at <= ids.len(),
        !ids.contains(id),
    ensures
        ids.insert(at, id).no_duplicates(),
        forall|other: LifxId| #[trigger]
            ids.insert(at, id).contains(other) ==> ids.contains(other) || other == id,
{
    let longer = ids.insert(at, id);
    assert forall|other: LifxId| #[trigger] longer.contains(other) implies ids.contains(other)
        || other == id by {
        let k = choose|k: int| 0 <= k < longer.len() && longer[k] == other;
        if k < at {
            assert(ids[k] == other);
        } else if k > at {
            assert(ids[k - 1] == other);
        }
    }
    assert forall|j: int, k: int|
        0 <= j < longer.len() && 0 <= k < longer.len() && j != k implies longer[j]
        != longer[k] by {
        let j_old = if j < at {
            j
        } else {
            j - 1
        };
        let k_old = if k < at {
            k
        } else {
            k - 1
        };
        if j == at {
            assert(ids.contains(ids[k_old]));
        } else if k == at {
            assert(ids.contains(ids[j_old]));
        } else {
            assert(ids[j_old] != ids[k_old]);
        }
    }
}

/// While nothing of a timer is new, it sends nothing to a light that was told and observed to have
/// the power it should have.
pub proof fn settled_light_is_left_alone(run: TimerRun, candidate: TimerLight, desired: Power)
    requires
        run.model.wf(),
        run.model.known(candidate.light.device.id) matches Some(light) && !unsettled(
            light,
            light.effective_power(desired),
        ),
    ensures
        ({
            let after = light_run(run, candidate, desired, false, false);
            &&& after.model == run.model
            &&& after.off == run.off
            &&& after.on == run.on
        }),
{
}

/// At a boundary, every light that a timer claims loses its manual choice and is told the timer's
/// power.
pub proof fn boundary_resets_light(run: TimerRun, candidate: TimerLight, desired: Power)
    requires
        run.model.wf(),
        run.model.lights.contains_key(candidate.light.device.id),
        candidate.timer_mode,
        candidate.light.control_enabled,
        !run.claimed.contains(candidate.light.device.id),
    ensures
        ({
            let id = candidate.light.device.id;
            let after = light_run(run, candidate, desired, true, true);
            let light = run.model.lights[id];
            &&& after.model.lights[id] == (ManagedLight {
                power_override: None,
                desired_power: Some(desired),
                ..light
            })
            &&& match desired {
                Power::Off => after.off == run.off.push(light.device) && after.on == run.on,
                Power::On => after.on == run.on.push(light.device) && after.off == run.off,
            }
        }),
{
}

/// Between boundaries a manual choice stands, even where a timer's settings change: the timer
/// leaves it in place, and a light that it claims is told the power that was chosen.
pub proof fn manual_choice_is_honoured(
    model: ControllerModel,
    claimed: Set<LifxId>,
    lights: Seq<TimerLight>,
    desired: Power,
    changed: bool,
    id: LifxId,
)
    requires
        model.wf(),
        model.known(id) matches Some(light) && light.power_override is Some,
    ensures
        ({
            let run = timer_run(run_start(model, claimed), lights, desired, changed, false);
            let chosen = model.lights[id].power_override;
            &&& run.model.wf()
            &&& run.model.known(id) is Some
            &&& run.model.lights[id].power_override == chosen
            &&& run.claimed.contains(id) && !claimed.contains(id)
                ==> run.model.lights[id].desired_power == chosen
        }),
    decreases lights.len(),
{
    if lights.len() > 0 {
        let start = run_start(model, claimed);
        let before = timer_run(start, lights.drop_last(), desired, changed, false);
        manual_choice_is_honoured(model, claimed, lights.drop_last(), desired, changed, id);
        let run = light_run(before, lights.last(), desired, changed, false);
        assert(run == timer_run(start, lights, desired, changed, false));
    }
}

/// An edited timer that asks for the power it asked for before passes no boundary.
pub proof fn editing_passes_no_boundary(
    register: Map<i64, TimerEffect>,
    schedule: TimerSchedule,
    edited: TimerSchedule,
    desired: Power,
)
    requires
        edited.id == schedule.id,
    ensures
        !passed_boundary(
            register.insert(schedule.id, effect(schedule, desired)),
            edited,
            desired,
        ),
{
}

/// A boundary is a change, whatever else stays as it was.
pub proof fn boundary_is_a_change(
    register: Map<i64, TimerEffect>,
    schedule: TimerSchedule,
    desired: Power,
)
    ensures
        passed_boundary(register, schedule, desired) ==> is_changed(register, schedule, desired),
{
}

/// A boundary is never missed: what a timer remembers of one power is not what it remembers of the
/// other.
pub proof fn boundary_changes_fingerprint(schedule: TimerSchedule)
    ensures
        fingerprint(schedule, Power::On) != fingerprint(schedule, Power::Off),
{
    reveal_strlit("On");
    reveal_strlit("Off");
    assert(fingerprint(schedule, Power::On).len() + 1 == fingerprint(schedule, Power::Off).len());
}

} // verus!

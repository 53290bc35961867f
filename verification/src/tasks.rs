//! The decisions of the background tasks that keep Test Mode going.
use vstd::prelude::*;

use crate::clock::{Duration, Instant};
use crate::controller::ControllerState;
use crate::device::{Color, LifxDevice, LifxId, LightState, Power};
use crate::enrollment::begin_test_mode_sync;
use crate::registry::{Interpolation, LightMode, ManagedLight};
use crate::schedule::{boundary_wait, Moment};
use crate::test_mode::{SyncTarget, TestModeState};
#[allow(unused_imports)]
use crate::clock::{at_most_max, MAX_NANOS};
#[allow(unused_imports)]
use crate::controller::{lists, lists_devices, ControllerModel};
#[allow(unused_imports)]
use crate::enrollment::synchronizing;
#[allow(unused_imports)]
use crate::registry::{color_target, is_interpolator};
#[allow(unused_imports)]
use crate::test_mode::colors;

verus! {

/// How long past the transition a newly enrolled light is given, in milliseconds.
pub const TEST_SYNC_SETTLE_MARGIN_MS: u64 = 400;

/// How often a newly enrolled light is checked.
pub const TEST_SYNC_MAX_ATTEMPTS: usize = 2;

/// How far hue, saturation and brightness may be off.
pub const TEST_SYNC_COLOR_TOLERANCE: u16 = 512;

/// How far the colour temperature may be off.
pub const TEST_SYNC_KELVIN_TOLERANCE: u16 = 50;

/// The distance of two levels.
pub open spec fn distance(a: u16, b: u16) -> int {
    if a >= b {
        a - b
    } else {
        b - a
    }
}

fn abs_diff(a: u16, b: u16) -> (r: u16)
    ensures
        r == distance(a, b),
{
    if a >= b {
        a - b
    } else {
        b - a
    }
}

/// The light has the power and, within the tolerances, the colour; the hue of a colour with hardly
/// any saturation does not matter.
pub open spec fn matches_target(observed: LightState, desired: Color, power: Power) -> bool {
    &&& observed.power == power
    &&& desired.saturation <= TEST_SYNC_COLOR_TOLERANCE || distance(observed.hue, desired.hue)
        <= TEST_SYNC_COLOR_TOLERANCE
    &&& distance(observed.saturation, desired.saturation) <= TEST_SYNC_COLOR_TOLERANCE
    &&& distance(observed.brightness, desired.brightness) <= TEST_SYNC_COLOR_TOLERANCE
    &&& distance(observed.kelvin, desired.kelvin) <= TEST_SYNC_KELVIN_TOLERANCE
}

pub fn test_state_matches(observed: LightState, desired: Color, power: Power) -> (r: bool)
    ensures
        r == matches_target(observed, desired, power),
{
    let hue_matches = desired.saturation <= TEST_SYNC_COLOR_TOLERANCE || abs_diff(
        observed.hue,
        desired.hue,
    ) <= TEST_SYNC_COLOR_TOLERANCE;
    observed.power == power && hue_matches && abs_diff(observed.saturation, desired.saturation)
        <= TEST_SYNC_COLOR_TOLERANCE && abs_diff(observed.brightness, desired.brightness)
        <= TEST_SYNC_COLOR_TOLERANCE && abs_diff(observed.kelvin, desired.kelvin)
        <= TEST_SYNC_KELVIN_TOLERANCE
}

/// A light that has exactly the target's state matches it.
pub proof fn exact_state_matches(desired: Color, power: Power)
    ensures
        matches_target(
            LightState {
                hue: desired.hue,
                saturation: desired.saturation,
                brightness: desired.brightness,
                kelvin: desired.kelvin,
                power,
            },
            desired,
            power,
        ),
{
}

/// The state once Test Mode's lights are told to have `power`.
pub open spec fn test_powered(model: ControllerModel, power: Power) -> ControllerModel {
    model.with_mode_changed(
        LightMode::Test,
        |light: ManagedLight| ManagedLight { desired_power: Some(power), ..light },
    )
}

/// Tells Test Mode's lights to have `power`; the devices to command, if there are any.
pub fn apply_test_power(state: &mut ControllerState, power: Power) -> (r: Option<Vec<LifxDevice>>)
    requires
        old(state)@.wf(),
    ensures
        final(state)@.wf(),
        final(state)@ == test_powered(old(state)@, power),
        commands_governed(r, old(state)@),
{
    let devices = state.devices_in_mode(LightMode::Test);
    state.set_desired_power_for_mode(LightMode::Test, power);
    some_devices(devices, Ghost(old(state)@))
}

/// The devices of all lights that Test Mode governs; nothing where there are none.
pub open spec fn commands_governed(
    devices: Option<Vec<LifxDevice>>,
    model: ControllerModel,
) -> bool {
    match devices {
        Some(devices) => {
            &&& lists_devices(devices@, model.lights, model.governed(LightMode::Test))
            &&& devices@.len() > 0
        },
        None => model.governed(LightMode::Test) =~= Set::<LifxId>::empty(),
    }
}

fn some_devices(devices: Vec<LifxDevice>, Ghost(model): Ghost<ControllerModel>) -> (r: Option<
    Vec<LifxDevice>,
>)
    requires
        lists_devices(devices@, model.lights, model.governed(LightMode::Test)),
    ensures
        commands_governed(r, model),
{
    if devices.len() == 0 {
        proof {
            let ids = devices@.map_values(|device: LifxDevice| device.id);
            assert forall|id: LifxId| !model.governed(LightMode::Test).contains(id) by {
                assert(!ids.contains(id));
            }
        }
        None
    } else {
        Some(devices)
    }
}

/// What the checks of a newly enrolled light came to.
#[derive(Clone, Copy, Debug, PartialEq, Eq, Structural)]
pub enum SyncOutcome {
    /// The light shows Test Mode's state.
    Confirmed,
    /// The light has left Test Mode, so that the checks are no longer called for.
    Left,
    /// The light did not accept the state that was sent once more.
    Unreachable,
    /// The light could not be confirmed, and is left to the regular tasks.
    Unconfirmed,
}

/// What the checks of a newly enrolled light need next.
#[derive(Clone, Copy, Debug)]
pub enum SyncStep {
    /// The light is to be read.
    ReadLight(AwaitCheck),
    /// The colour and the power are to be sent to the light once more.
    Resend(AwaitResend),
    /// The light needs time to settle before the next check.
    Settle(SyncConfirmation),
    Done(SyncOutcome),
}

/// The checks that follow a light's enrolment in Test Mode.
#[derive(Clone, Copy, Debug)]
pub struct SyncConfirmation {
    id: LifxId,
    attempt: usize,
}

/// A check that waits for the light's state.
#[derive(Clone, Copy, Debug)]
pub struct AwaitCheck {
    pub confirmation: SyncConfirmation,
    pub target: SyncTarget,
}

/// A repeated command that waits for the light to accept it.
#[derive(Clone, Copy, Debug)]
pub struct AwaitResend {
    pub confirmation: SyncConfirmation,
    pub target: SyncTarget,
}

/// How long to wait before a check: the transition and a margin.
pub fn settle_time(transition: Duration) -> (r: Duration)
    ensures
        r@ == at_most_max(transition@ + 400_000_000),
{
    transition.saturating_add(Duration::from_millis(TEST_SYNC_SETTLE_MARGIN_MS))
}

impl SyncConfirmation {
    #[verifier::type_invariant]
    spec fn in_attempts(self) -> bool {
        1 <= self.attempt <= TEST_SYNC_MAX_ATTEMPTS
    }

    pub closed spec fn light_id(self) -> LifxId {
        self.id
    }

    /// The number of the check that comes next.
    pub closed spec fn attempts(self) -> nat {
        self.attempt as nat
    }

    pub fn new(id: LifxId) -> (r: SyncConfirmation)
        ensures
            r.light_id() == id,
            r.attempts() == 1,
    {
        SyncConfirmation { id, attempt: 1 }
    }

    /// Makes a check, once the light had time to settle. It should show Test Mode's current colour,
    /// and the mode's power unless there is a manual choice. A light that has left the mode is not
    /// fought.
    pub fn check(self, state: &ControllerState, test_mode: &TestModeState) -> (r: SyncStep)
        ensures
            r is ReadLight <==> state@.known(self.light_id()) is Some && state@.lights[self.light_id()].mode
                == LightMode::Test,
            r matches SyncStep::ReadLight(next) ==> {
                let chosen = state@.lights[self.light_id()].power_override;
                &&& chosen is Some ==> next.target.power == chosen->0
                &&& chosen is None ==> next.target.power == test_mode.scheduled()
                &&& next.confirmation == self
            },
            r == match state@.known(self.light_id()) {
                Some(light) if light.mode == LightMode::Test => SyncStep::ReadLight(
                    AwaitCheck {
                        confirmation: self,
                        target: SyncTarget {
                            color: colors()[test_mode.place() as int].1,
                            power: light.effective_power(test_mode.scheduled()),
                        },
                    },
                ),
                _ => SyncStep::Done(SyncOutcome::Left),
            },
    {
        match state.light(self.id) {
            Some(light) => if light.mode == LightMode::Test {
                let (_, color): (&'static str, Color) = test_mode.current_color();
                let power = match light.power_override {
                    Some(power) => power,
                    None => test_mode.power(),
                };
                SyncStep::ReadLight(
                    AwaitCheck { confirmation: self, target: SyncTarget { color, power } },
                )
            } else {
                SyncStep::Done(SyncOutcome::Left)
            },
            None => SyncStep::Done(SyncOutcome::Left),
        }
    }
}

impl AwaitCheck {
    /// Whether the light was read and shows what it should.
    pub open spec fn confirmed(self, observed: Option<LightState>) -> bool {
        observed matches Some(seen) && matches_target(seen, self.target.color, self.target.power)
    }

    /// The state once the light was read, if it could be: a confirmed light is in no transition
    /// any more.
    pub open spec fn checked(
        self,
        model: ControllerModel,
        observed: Option<LightState>,
        now: Instant,
    ) -> ControllerModel {
        let id = self.confirmation.light_id();
        match observed {
            Some(seen) => if self.confirmed(observed) {
                model.with_observation(id, seen, now).without_transition(id)
            } else {
                model.with_observation(id, seen, now)
            },
            None => model,
        }
    }

    /// Takes the light's state, if it could be read. Where it is not what it should be, the state
    /// is sent once more, with the colour that Test Mode has by now; but only once, and not to a
    /// light that has left the mode meanwhile.
    pub fn read<F: Fn(Interpolation) -> u16>(
        self,
        state: &mut ControllerState,
        observed: Option<LightState>,
        test_mode: &TestModeState,
        transition: Duration,
        now: Instant,
        interpolate: &F,
    ) -> (r: SyncStep)
        requires
            old(state)@.wf(),
            is_interpolator(*interpolate),
        ensures
            ({
                let id = self.confirmation.light_id();
                let known = old(state)@.known(id) is Some;
                let light = final(state)@.lights[id];
                &&& known && observed is Some ==> light.observed == observed && light.last_observed == Some(
                    now,
                )
                &&& known ==> light.mode == old(state)@.lights[id].mode
                &&& r is Resend ==> known && light.mode == LightMode::Test && light.desired_power == Some(
                    self.target.power,
                ) && self.confirmation.attempts() < TEST_SYNC_MAX_ATTEMPTS
                &&& known && !(r is Resend) ==> {
                    &&& light.desired_power == old(state)@.lights[id].desired_power
                    &&& light.desired_color == old(state)@.lights[id].desired_color
                    &&& light.desired_brightness == old(state)@.lights[id].desired_brightness
                }
                &&& r is Resend || r is Done
            }),
            final(state)@.wf(),
            ({
                let checked = self.checked(old(state)@, observed, now);
                if self.confirmed(observed) {
                    &&& r == SyncStep::Done(SyncOutcome::Confirmed)
                    &&& final(state)@ == checked
                } else if self.confirmation.attempts() == TEST_SYNC_MAX_ATTEMPTS {
                    &&& r == SyncStep::Done(SyncOutcome::Unconfirmed)
                    &&& final(state)@ == checked
                } else if !(checked.known(self.confirmation.light_id()) matches Some(light)
                    && light.mode == LightMode::Test) {
                    &&& r == SyncStep::Done(SyncOutcome::Left)
                    &&& final(state)@ == checked
                } else {
                    let color = colors()[test_mode.place() as int].1;
                    &&& r matches SyncStep::Resend(next)
                    &&& next.confirmation.light_id() == self.confirmation.light_id()
                    &&& next.confirmation.attempts() == self.confirmation.attempts() + 1
                    &&& next.confirmation.attempts() <= TEST_SYNC_MAX_ATTEMPTS
                    &&& next.target == SyncTarget { color, power: self.target.power }
                    &&& final(state)@ == synchronizing(
                        checked,
                        self.confirmation.light_id(),
                        next.target,
                        transition,
                        now,
                        *interpolate,
                    )
                }
            }),
    {
        let confirmation = self.confirmation;
        proof {
            use_type_invariant(&confirmation);
        }
        if let Some(seen) = observed {
            let _ = state.record_observation(confirmation.id, seen, now);
            if test_state_matches(seen, self.target.color, self.target.power) {
                state.clear_brightness_transition(confirmation.id);
                return SyncStep::Done(SyncOutcome::Confirmed);
            }
        }
        if confirmation.attempt == TEST_SYNC_MAX_ATTEMPTS {
            return SyncStep::Done(SyncOutcome::Unconfirmed);
        }
        let enrolled = match state.light(confirmation.id) {
            Some(light) => light.mode == LightMode::Test,
            None => false,
        };
        if !enrolled {
            return SyncStep::Done(SyncOutcome::Left);
        }
        let (_, color): (&'static str, Color) = test_mode.current_color();
        let target = SyncTarget { color, power: self.target.power };
        begin_test_mode_sync(state, confirmation.id, target, transition, now, interpolate);
        SyncStep::Resend(
            AwaitResend {
                confirmation: SyncConfirmation {
                    id: confirmation.id,
                    attempt: confirmation.attempt + 1,
                },
                target,
            },
        )
    }
}

impl AwaitResend {
    /// Takes the light's answer.
    pub fn sent(self, state: &mut ControllerState, accepted: bool) -> (r: SyncStep)
        requires
            old(state)@.wf(),
        ensures
            r is Settle <==> accepted,
            !accepted && old(state)@.known(self.confirmation.light_id()) is Some
                ==> final(state)@.lights[self.confirmation.light_id()].brightness_transition is None,
            final(state)@.wf(),
            if accepted {
                &&& r == SyncStep::Settle(self.confirmation)
                &&& final(state)@ == old(state)@
            } else {
                &&& r == SyncStep::Done(SyncOutcome::Unreachable)
                &&& final(state)@ == old(state)@.without_transition(self.confirmation.light_id())
            },
    {
        if accepted {
            SyncStep::Settle(self.confirmation)
        } else {
            state.clear_brightness_transition(self.confirmation.id);
            SyncStep::Done(SyncOutcome::Unreachable)
        }
    }
}

/// One round of reading every light.
#[derive(Clone, Copy, Debug)]
pub struct StatePoll {
    /// How many known lights were read so far.
    pub updated: usize,
}

impl StatePoll {
    pub fn new() -> (r: StatePoll)
        ensures
            r.updated == 0,
    {
        StatePoll { updated: 0 }
    }

    /// Records what was read of a light, if it could be read. `Some(true)` when the visible state
    /// changed, `Some(false)` when it is unchanged, `None` when nothing was recorded.
    pub fn record(
        &mut self,
        state: &mut ControllerState,
        id: LifxId,
        observed: Option<LightState>,
        now: Instant,
    ) -> (r: Option<bool>)
        requires
            old(state)@.wf(),
            old(self).updated < usize::MAX,
        ensures
            observed is Some && old(state)@.known(id) is Some ==> {
                &&& final(state)@.lights[id].observed == observed
                &&& final(state)@.lights[id].last_observed == Some(now)
                &&& final(self).updated == old(self).updated + 1
            },
            observed is None || old(state)@.known(id) is None ==> {
                &&& final(state)@ == old(state)@
                &&& final(self).updated == old(self).updated
            },
            final(state)@.wf(),
            match observed {
                Some(seen) => {
                    &&& final(state)@ == old(state)@.with_observation(id, seen, now)
                    &&& r == old(state)@.observation_change(id, seen)
                },
                None => r is None && final(state)@ == old(state)@,
            },
            final(self).updated == old(self).updated + if r is Some {
                1int
            } else {
                0
            },
    {
        match observed {
            Some(seen) => {
                let recorded = state.record_observation(id, seen, now);
                if recorded.is_some() {
                    self.updated = self.updated + 1;
                }
                recorded
            },
            None => None,
        }
    }
}

/// How long to wait between reconciliations: a second longer than between polls, so that a fresh
/// observation is there.
pub fn reconcile_interval(poll_interval: Duration) -> (r: Duration)
    requires
        poll_interval@ + 1_000_000_000 <= MAX_NANOS,
    ensures
        r@ == poll_interval@ + 1_000_000_000,
{
    poll_interval.saturating_add(Duration::from_secs(1))
}

/// One power command for several devices.
#[derive(Debug)]
pub struct PowerBatch {
    pub power: Power,
    pub devices: Vec<LifxDevice>,
}

/// The devices that should have `power`, in their order.
pub open spec fn wanting(pairs: Seq<(LifxDevice, Power)>, power: Power) -> Seq<LifxDevice>
    decreases pairs.len(),
{
    if pairs.len() == 0 {
        Seq::empty()
    } else {
        let before = wanting(pairs.drop_last(), power);
        if pairs.last().1 == power {
            before.push(pairs.last().0)
        } else {
            before
        }
    }
}

/// A command for the devices, unless there are none.
pub open spec fn batch(devices: Seq<LifxDevice>, power: Power) -> Seq<(Power, Seq<LifxDevice>)> {
    if devices.len() == 0 {
        Seq::empty()
    } else {
        seq![(power, devices)]
    }
}

/// The commands that bring the devices to their powers: off first, then on.
pub open spec fn batches(pairs: Seq<(LifxDevice, Power)>) -> Seq<(Power, Seq<LifxDevice>)> {
    batch(wanting(pairs, Power::Off), Power::Off) + batch(wanting(pairs, Power::On), Power::On)
}

pub open spec fn batch_model(b: PowerBatch) -> (Power, Seq<LifxDevice>) {
    (b.power, b.devices@)
}

pub open spec fn batch_models(batches: Seq<PowerBatch>) -> Seq<(Power, Seq<LifxDevice>)> {
    batches.map_values(|b: PowerBatch| batch_model(b))
}

fn devices_wanting(pairs: &Vec<(LifxDevice, Power)>, power: Power) -> (r: Vec<LifxDevice>)
    ensures
        r@ == wanting(pairs@, power),
{
    let mut devices: Vec<LifxDevice> = Vec::new();
    assert(pairs@.take(0) =~= Seq::empty());
    for i in 0..pairs.len()
        invariant
            devices@ == wanting(pairs@.take(i as int), power),
    {
        assert(pairs@.take(i + 1).drop_last() =~= pairs@.take(i as int));
        if pairs[i].1 == power {
            devices.push(pairs[i].0.clone());
        }
    }
    assert(pairs@.take(pairs@.len() as int) =~= pairs@);
    devices
}

/// The commands for two lists of devices: off first, then on, and none for an empty list.
pub(crate) fn batches_of(off: Vec<LifxDevice>, on: Vec<LifxDevice>) -> (r: Vec<PowerBatch>)
    ensures
        batch_models(r@) == batch(off@, Power::Off) + batch(on@, Power::On),
{
    let mut r: Vec<PowerBatch> = Vec::new();
    if off.len() > 0 {
        r.push(PowerBatch { power: Power::Off, devices: off });
    }
    assert(batch_models(r@) =~= batch(off@, Power::Off));
    if on.len() > 0 {
        r.push(PowerBatch { power: Power::On, devices: on });
    }
    assert(batch_models(r@) =~= batch(off@, Power::Off) + batch(on@, Power::On));
    r
}

/// The commands that bring devices to their powers.
pub fn power_batches(pairs: &Vec<(LifxDevice, Power)>) -> (r: Vec<PowerBatch>)
    ensures
        batch_models(r@) == batches(pairs@),
{
    batches_of(devices_wanting(pairs, Power::Off), devices_wanting(pairs, Power::On))
}

/// `pairs` names the lights whose observed power is not the one they should have, each with the
/// power that it should have.
pub open spec fn is_mismatch_list(
    pairs: Seq<(LifxDevice, Power)>,
    model: ControllerModel,
    mode_power: Power,
) -> bool {
    &&& lists_devices(
        pairs.map_values(|pair: (LifxDevice, Power)| pair.0),
        model.lights,
        model.mismatched(LightMode::Test, mode_power),
    )
    &&& forall|i: int|
        0 <= i < pairs.len() ==> (#[trigger] pairs[i]).1
            == model.lights[pairs[i].0.id].effective_power(mode_power)
}

/// The commands that bring Test Mode's lights to the power they should have, for those that were
/// observed with another one.
pub fn reconcile(state: &ControllerState, test_mode: &TestModeState) -> (r: Vec<PowerBatch>)
    requires
        state@.wf(),
    ensures
        exists|pairs: Seq<(LifxDevice, Power)>|
            is_mismatch_list(pairs, state@, test_mode.scheduled()) && batch_models(r@)
                == #[trigger] batches(pairs),
{
    let mode_power = test_mode.power();
    let mismatches = state.devices_with_power_mismatch(LightMode::Test, mode_power);
    let r = power_batches(&mismatches);
    assert(is_mismatch_list(mismatches@, state@, test_mode.scheduled()));
    assert(batch_models(r@) == batches(mismatches@));
    r
}

/// One round of Test Mode's colour.
#[derive(Debug)]
pub struct Heartbeat {
    pub devices: Vec<LifxDevice>,
    pub name: &'static str,
    pub color: Color,
}

/// The colour to send now, and where to; nothing where no light is enrolled.
pub fn heartbeat(state: &ControllerState, test_mode: &TestModeState) -> (r: Option<Heartbeat>)
    requires
        state@.wf(),
    ensures
        r is None <==> forall|id: LifxId| #[trigger]
            state@.lights.contains_key(id) ==> !(state@.lights[id].mode == LightMode::Test
                && state@.lights[id].control_enabled),
        match r {
            Some(beat) => {
                &&& commands_governed(Some(beat.devices), state@)
                &&& (beat.name@, beat.color) == colors()[test_mode.place() as int]
            },
            None => commands_governed(None, state@),
        },
{
    let devices = state.devices_in_mode(LightMode::Test);
    let (name, color): (&'static str, Color) = test_mode.current_color();
    match some_devices(devices, Ghost(state@)) {
        Some(devices) => {
            proof {
                let ids = devices@.map_values(|device: LifxDevice| device.id);
                assert(ids[0] == devices@[0].id);
                assert(ids.contains(devices@[0].id));
                assert(state@.governed(LightMode::Test).contains(devices@[0].id));
                assert(state@.lights.contains_key(devices@[0].id));
            }
            Some(Heartbeat { devices, name, color })
        },
        None => {
            assert forall|id: LifxId| #[trigger]
                state@.lights.contains_key(id) implies !(state@.lights[id].mode == LightMode::Test
                && state@.lights[id].control_enabled) by {
                assert(!state@.governed(LightMode::Test).contains(id));
            }
            None
        },
    }
}

/// The state after Test Mode's lights accepted a colour.
pub open spec fn test_coloured<F: Fn(Interpolation) -> u16>(
    model: ControllerModel,
    color: Color,
    transition: Duration,
    started: Instant,
    f: F,
) -> ControllerModel {
    model.with_mode_changed(
        LightMode::Test,
        |light: ManagedLight| ManagedLight { desired_color: Some(color_target(color)), ..light },
    ).with_mode_changed(
        LightMode::Test,
        |light: ManagedLight| light.heading_for(color.brightness, transition, started, f),
    )
}

/// Remembers a colour that Test Mode's lights accepted.
pub fn heartbeat_applied<F: Fn(Interpolation) -> u16>(
    state: &mut ControllerState,
    color: Color,
    transition: Duration,
    started: Instant,
    interpolate: &F,
)
    requires
        old(state)@.wf(),
        is_interpolator(*interpolate),
    ensures
        final(state)@.wf(),
        final(state)@ == test_coloured(old(state)@, color, transition, started, *interpolate),
{
    state.set_desired_color_for_mode(LightMode::Test, color);
    state.begin_brightness_transition_for_mode(
        LightMode::Test,
        color.brightness,
        transition,
        started,
        interpolate,
    );
}

/// How long to wait before the schedule is asked again where it has no next boundary, in seconds.
pub const SCHEDULE_RETRY_SECS: u64 = 60;

/// How long to wait at `now`: until the next boundary, or a while where there is none.
pub fn schedule_wait(next: &Result<(Moment, Power), String>, now: &Moment) -> (r: Duration)
    ensures
        r@ == match *next {
            Ok((boundary, _)) => if boundary.instant() > now.instant() {
                (boundary.instant() - now.instant()) as nat
            } else {
                0
            },
            Err(_) => 60_000_000_000,
        },
{
    match next {
        Ok((boundary, _)) => boundary_wait(boundary, now),
        Err(_) => Duration::from_secs(SCHEDULE_RETRY_SECS),
    }
}

/// What a boundary of the schedule calls for.
#[derive(Debug)]
pub struct BoundaryCommand {
    /// How many manual power choices the boundary ended.
    pub cleared: usize,
    pub devices: Option<Vec<LifxDevice>>,
}

/// The state at a boundary of the schedule: manual choices end, and the new power holds.
pub open spec fn at_boundary(model: ControllerModel, power: Power) -> ControllerModel {
    test_powered(model.without_overrides(LightMode::Test), power)
}

/// Passes a boundary of the schedule.
pub fn boundary_reached(
    state: &mut ControllerState,
    test_mode: &mut TestModeState,
    power: Power,
) -> (r: BoundaryCommand)
    requires
        old(state)@.wf(),
    ensures
        final(state)@.wf(),
        final(state)@ == at_boundary(old(state)@, power),
        final(test_mode).scheduled() == power,
        final(test_mode).place() == old(test_mode).place(),
        r.cleared == old(state)@.overridden(LightMode::Test).len(),
        commands_governed(r.devices, old(state)@),
{
    test_mode.set_power(power);
    let cleared: usize = state.clear_power_overrides_in_mode(LightMode::Test);
    assert(state@.governed(LightMode::Test) =~= old(state)@.governed(LightMode::Test));
    let ghost before = state@;
    let devices = apply_test_power(state, power);
    proof {
        if devices is Some {
            governed_devices_are_known(devices->0@, before);
        }
    }
    BoundaryCommand { cleared, devices }
}

proof fn governed_devices_are_known(devices: Seq<LifxDevice>, model: ControllerModel)
    requires
        lists_devices(devices, model.lights, model.governed(LightMode::Test)),
    ensures
        forall|i: int|
            0 <= i < devices.len() ==> model.lights.contains_key((#[trigger] devices[i]).id),
{
    let ids = devices.map_values(|device: LifxDevice| device.id);
    assert forall|i: int| 0 <= i < devices.len() implies model.lights.contains_key(
        (#[trigger] devices[i]).id,
    ) by {
        assert(ids[i] == devices[i].id);
        assert(ids.contains(devices[i].id));
    }
}

/// What a boundary does to a light: none in Test Mode has a manual choice any more, and one that is
/// also controlled is told the new power; a light in another mode is as it was.
pub proof fn boundary_ends_overrides(model: ControllerModel, power: Power, id: LifxId)
    requires
        model.lights.contains_key(id),
    ensures
        ({
            let light = model.lights[id];
            let after = at_boundary(model, power).lights[id];
            &&& light.governed_by(LightMode::Test) ==> after == (ManagedLight {
                power_override: None,
                desired_power: Some(power),
                ..light
            })
            &&& light.mode == LightMode::Test && !light.control_enabled ==> after == (
            ManagedLight { power_override: None, ..light })
            &&& light.mode == LightMode::Test ==> after.effective_power(power) == power
            &&& light.mode != LightMode::Test ==> after == light
        }),
{
}

/// Whatever Test Mode does, a light in another mode is left alone, and one whose control is
/// disabled is neither commanded nor told anything: all it can lose is a manual choice, at a
/// boundary.
pub proof fn test_mode_spares_others<F: Fn(Interpolation) -> u16>(
    model: ControllerModel,
    id: LifxId,
    power: Power,
    color: Color,
    transition: Duration,
    started: Instant,
    f: F,
)
    requires
        model.lights.contains_key(id),
        !model.lights[id].governed_by(LightMode::Test),
    ensures
        !model.governed(LightMode::Test).contains(id),
        !model.mismatched(LightMode::Test, power).contains(id),
        test_powered(model, power).lights[id] == model.lights[id],
        test_coloured(model, color, transition, started, f).lights[id] == model.lights[id],
        model.lights[id].mode != LightMode::Test ==> {
            &&& !model.overridden(LightMode::Test).contains(id)
            &&& at_boundary(model, power).lights[id] == model.lights[id]
        },
        at_boundary(model, power).lights[id] == (ManagedLight {
            power_override: at_boundary(model, power).lights[id].power_override,
            ..model.lights[id]
        }),
{
}

/// A manual choice wins over the schedule until the next boundary: a light that shows its manual
/// power is not reconciled, whatever the schedule says.
pub proof fn override_wins(model: ControllerModel, id: LifxId, mode_power: Power)
    requires
        model.lights.contains_key(id),
        model.lights[id].power_override is Some,
        model.lights[id].observed matches Some(state) && Some(state.power)
            == model.lights[id].power_override,
    ensures
        !model.mismatched(LightMode::Test, mode_power).contains(id),
{
}

} // verus!

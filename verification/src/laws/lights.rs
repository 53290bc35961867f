//! Laws on lights: what a command, an observation or a mode changes of a light, and what it leaves.
use vstd::prelude::*;

#[allow(unused_imports)]
use crate::clock::{at_most_max, span_since, Duration, Instant, MAX_NANOS};
#[allow(unused_imports)]
use crate::controller::{
    groups_by_id, known_among, lights_by_id, planned_mode, planned_persist, ControllerModel,
    ModeChange, PersistPlan,
};
#[allow(unused_imports)]
use crate::device::{Color, LifxDevice, LifxId, LightState, Power};
#[allow(unused_imports)]
use crate::registry::{
    is_interpolator, BrightnessTransition, ColorTarget, Interpolation, LightMode, ManagedLight,
};
#[allow(unused_imports)]
use crate::store::{GroupModel, StoredGroup, StoredLight};
#[allow(unused_imports)]
use crate::tasks::{
    at_boundary, batch_models, batches, commands_governed, is_mismatch_list, matches_target,
    test_coloured, test_powered, wanting, AwaitCheck, PowerBatch,
};
#[allow(unused_imports)]
use crate::views::{online, shows_light, shows_managed, window, LightView, ManagedLightView};

verus! {

/// Spans never run backwards, and the longest span caps every sum.
pub proof fn spans_are_clamped(later: nat, earlier: nat, nanos: nat)
    ensures
        later >= earlier ==> span_since(later, earlier) + earlier == later,
        later < earlier ==> span_since(later, earlier) == 0,
        at_most_max(nanos) <= MAX_NANOS,
        at_most_max(nanos) <= nanos,
        nanos <= MAX_NANOS ==> at_most_max(nanos) == nanos,
        nanos > MAX_NANOS ==> at_most_max(nanos) == MAX_NANOS,
{
}

/// A command to a known light changes what it commands and nothing else: not the other lights, not
/// the stored configuration, not the groups.
pub proof fn commands_change_what_they_command(
    model: ControllerModel,
    id: LifxId,
    power: Option<Power>,
    color: Color,
    brightness: u16,
)
    requires
        model.lights.contains_key(id),
    ensures
        ({
            let light = model.lights[id];
            &&& model.with_desired_power(id, power) == (ControllerModel {
                lights: model.lights.insert(
                    id,
                    ManagedLight { desired_power: power, ..light },
                ),
                ..model
            })
            &&& model.with_power_override(id, power) == (ControllerModel {
                lights: model.lights.insert(
                    id,
                    ManagedLight { power_override: power, ..light },
                ),
                ..model
            })
            &&& model.with_desired_color(id, color) == (ControllerModel {
                lights: model.lights.insert(
                    id,
                    ManagedLight {
                        desired_color: Some(
                            ColorTarget {
                                hue: color.hue,
                                saturation: color.saturation,
                                kelvin: color.kelvin,
                            },
                        ),
                        ..light
                    },
                ),
                ..model
            })
            &&& model.with_desired_brightness(id, brightness) == (ControllerModel {
                lights: model.lights.insert(
                    id,
                    ManagedLight {
                        desired_brightness: Some(brightness),
                        brightness_transition: None,
                        ..light
                    },
                ),
                ..model
            })
            &&& model.without_transition(id) == (ControllerModel {
                lights: model.lights.insert(
                    id,
                    ManagedLight { brightness_transition: None, ..light },
                ),
                ..model
            })
        }),
{
}

/// A command to a light that is not known changes nothing at all.
pub proof fn commands_to_unknown_lights_change_nothing(
    model: ControllerModel,
    id: LifxId,
    power: Option<Power>,
    color: Color,
    brightness: u16,
    observed: LightState,
    now: Instant,
)
    requires
        !model.lights.contains_key(id),
    ensures
        model.with_desired_power(id, power) == model,
        model.with_power_override(id, power) == model,
        model.with_desired_color(id, color) == model,
        model.with_desired_brightness(id, brightness) == model,
        model.without_transition(id) == model,
        model.with_observation(id, observed, now) == model,
        model.observation_change(id, observed) is None,
        model.known(id) is None,
{
}

/// A change of configuration reaches the light as it is known and as it is stored, wherever there
/// is one, and changes nothing else.
pub proof fn configuration_reaches_both_sides(
    model: ControllerModel,
    id: LifxId,
    mode: LightMode,
    name: Option<String>,
    enabled: bool,
)
    ensures
        ({
            let light = model.lights[id];
            let stored = model.stored[id];
            let known = model.lights.contains_key(id);
            let kept = model.stored.contains_key(id);
            let moved = model.with_mode(id, mode);
            let named = model.with_friendly_name(id, name);
            let labelled = model.with_device_label(id, name);
            let controlled = model.with_control_enabled(id, enabled);
            &&& known ==> {
                &&& moved.lights == model.lights.insert(id, ManagedLight { mode, ..light })
                &&& named.lights == model.lights.insert(
                    id,
                    ManagedLight { friendly_name: name, ..light },
                )
                &&& labelled.lights == model.lights.insert(id, ManagedLight { label: name, ..light })
                &&& controlled.lights.dom() == model.lights.dom().insert(id)
                &&& controlled.lights[id].control_enabled == enabled
                &&& enabled ==> controlled.lights[id] == (ManagedLight {
                    control_enabled: true,
                    ..light
                })
                &&& !enabled ==> controlled.lights[id] == (ManagedLight {
                    control_enabled: false,
                    power_override: None,
                    ..light
                })
                &&& controlled.lights == model.lights.insert(id, controlled.lights[id])
            }
            &&& !known ==> moved.lights == model.lights && named.lights == model.lights
                && labelled.lights == model.lights && controlled.lights == model.lights
            &&& kept ==> {
                &&& moved.stored == model.stored.insert(id, StoredLight { mode, ..stored })
                &&& named.stored == model.stored.insert(
                    id,
                    StoredLight { friendly_name: name, ..stored },
                )
                &&& labelled.stored == model.stored.insert(
                    id,
                    StoredLight { device_label: name, ..stored },
                )
                &&& controlled.stored == model.stored.insert(
                    id,
                    StoredLight { control_enabled: enabled, ..stored },
                )
            }
            &&& !kept ==> moved.stored == model.stored && named.stored == model.stored
                && labelled.stored == model.stored && controlled.stored == model.stored
            &&& moved.groups == model.groups && named.groups == model.groups
            &&& labelled.groups == model.groups && controlled.groups == model.groups
            &&& moved.test_ids == model.test_ids && named.test_ids == model.test_ids
            &&& labelled.test_ids == model.test_ids && controlled.test_ids == model.test_ids
        }),
{
    let controlled = model.with_control_enabled(id, enabled);
    if model.lights.contains_key(id) {
        assert(controlled.lights.dom() =~= model.lights.dom().insert(id));
        assert(controlled.lights =~= model.lights.insert(id, controlled.lights[id]));
    }
}

/// An observation of a known light is what is known of it from then on, and its time is the time
/// of the observation, whatever was observed before. A transition goes on just as long as it runs.
/// Nothing else changes, of this light or of any other.
pub proof fn observation_is_the_latest(
    model: ControllerModel,
    id: LifxId,
    observed: LightState,
    now: Instant,
)
    requires
        model.lights.contains_key(id),
    ensures
        ({
            let before = model.lights[id];
            let after = model.with_observation(id, observed, now);
            let light = after.lights[id];
            &&& light.observed == Some(observed)
            &&& light.last_observed == Some(now)
            &&& light.brightness_transition == match before.brightness_transition {
                Some(t) => if t.duration@ > 0 && now@ < t.started@ + t.duration@ {
                    Some(t)
                } else {
                    None
                },
                None => None,
            }
            &&& light == ManagedLight {
                observed: light.observed,
                last_observed: light.last_observed,
                brightness_transition: light.brightness_transition,
                ..before
            }
            &&& after == ControllerModel { lights: model.lights.insert(id, light), ..model }
            &&& model.observation_change(id, observed) == Some(
                before.observed is None || before.observed != Some(observed),
            )
        }),
{
}

/// A light that was observed counts as online, on every page, for as long as the window, and then
/// no longer, whatever was observed of it before.
pub proof fn observed_light_is_online<F: Fn(Interpolation) -> u16>(
    model: ControllerModel,
    id: LifxId,
    observed: LightState,
    now: Instant,
    later: Instant,
    span: nat,
    stored: StoredLight,
    view: LightView,
    managed: ManagedLightView,
    f: F,
)
    requires
        model.lights.contains_key(id),
        now@ <= later@,
        ({
            let light = model.with_observation(id, observed, now).lights[id];
            &&& shows_light(view, light, span, later, f)
            &&& shows_managed(managed, stored, Some(light), span, later)
        }),
    ensures
        view.online <==> later@ - now@ <= span,
        managed.online <==> later@ - now@ <= span,
{
}

/// A light is online just where it was observed, and no longer ago than the window. The window is
/// three polls long.
pub proof fn online_goes_by_the_last_observation(
    last: Option<Instant>,
    span: nat,
    now: Instant,
    poll: Duration,
)
    ensures
        online(last, span, now) <==> last is Some && now@ <= last->0@ + span,
        window(poll) == if 3 * poll@ <= MAX_NANOS {
            3 * poll@
        } else {
            MAX_NANOS as nat
        },
{
}

/// What a mode governs: the lights in it that are under control. A change for a mode reaches each
/// of those, and no other.
pub proof fn modes_govern_controlled_lights(
    model: ControllerModel,
    mode: LightMode,
    id: LifxId,
    change: spec_fn(ManagedLight) -> ManagedLight,
)
    ensures
        model.governed(mode).contains(id) <==> model.lights.contains_key(id)
            && model.lights[id].mode == mode && model.lights[id].control_enabled,
        model.overridden(mode).contains(id) <==> model.lights.contains_key(id)
            && model.lights[id].mode == mode && model.lights[id].power_override is Some,
        ({
            let after = model.with_mode_changed(mode, change);
            let light = model.lights[id];
            &&& after.lights.dom() == model.lights.dom()
            &&& model.lights.contains_key(id) && light.mode == mode && light.control_enabled
                ==> after.lights[id] == change(light)
            &&& model.lights.contains_key(id) && !(light.mode == mode && light.control_enabled)
                ==> after.lights[id] == light
            &&& after.stored == model.stored
            &&& after.groups == model.groups
            &&& after.test_ids == model.test_ids
        }),
{
    assert(model.with_mode_changed(mode, change).lights.dom() =~= model.lights.dom());
}

/// A light is reconciled just where it is in the mode and under control, and was observed with a
/// power other than its manual choice, or other than the mode's where it has none. What it was told
/// before does not matter.
pub proof fn mismatch_goes_by_observation(
    model: ControllerModel,
    mode: LightMode,
    mode_power: Power,
    id: LifxId,
)
    ensures
        model.mismatched(mode, mode_power).contains(id) <==> {
            let light = model.lights[id];
            &&& model.lights.contains_key(id)
            &&& light.mode == mode
            &&& light.control_enabled
            &&& light.observed is Some
            &&& light.power_override is Some ==> light.observed->0.power
                != light.power_override->0
            &&& light.power_override is None ==> light.observed->0.power != mode_power
        },
{
}

/// A light that is told a power and then seen with the other one is reconciled, however often it
/// was told.
pub proof fn told_light_is_brought_back(
    model: ControllerModel,
    mode: LightMode,
    power: Power,
    id: LifxId,
    seen: LightState,
    now: Instant,
)
    requires
        model.lights.contains_key(id),
        model.lights[id].mode == mode,
        model.lights[id].control_enabled,
        model.lights[id].power_override is None,
        seen.power != power,
    ensures
        model.with_desired_power(id, Some(power)).with_observation(id, seen, now).mismatched(
            mode,
            power,
        ).contains(id),
{
}

proof fn wanting_holds_exactly(pairs: Seq<(LifxDevice, Power)>, power: Power, device: LifxDevice)
    ensures
        wanting(pairs, power).contains(device) <==> pairs.contains((device, power)),
    decreases pairs.len(),
{
    if pairs.len() == 0 {
        assert(!pairs.contains((device, power)));
    } else {
        let fewer = pairs.drop_last();
        wanting_holds_exactly(fewer, power, device);
        let before = wanting(fewer, power);
        if before.contains(device) {
            let k = choose|k: int| 0 <= k < before.len() && before[k] == device;
            assert(wanting(pairs, power)[k] == device);
            let j = choose|j: int| 0 <= j < fewer.len() && fewer[j] == (device, power);
            assert(pairs[j] == (device, power));
        }
        if pairs.contains((device, power)) {
            let j = choose|j: int| 0 <= j < pairs.len() && pairs[j] == (device, power);
            if j < fewer.len() {
                assert(fewer[j] == (device, power));
            } else {
                assert(wanting(pairs, power)[before.len() as int] == device);
            }
        }
        if wanting(pairs, power).contains(device) {
            let k = choose|k: int|
                0 <= k < wanting(pairs, power).len() && wanting(pairs, power)[k] == device;
            if k < before.len() {
                assert(before[k] == device);
            } else {
                assert(pairs[pairs.len() - 1] == (device, power));
            }
        }
    }
}

/// The commands of a reconciliation name every pair of device and power, each under its power, and
/// nothing else. There are at most two commands, none without devices, and the lights that go off
/// come first.
pub proof fn batches_cover_pairs(pairs: Seq<(LifxDevice, Power)>, device: LifxDevice, power: Power)
    ensures
        pairs.contains((device, power)) <==> exists|k: int|
            0 <= k < batches(pairs).len() && (#[trigger] batches(pairs)[k]).0 == power
                && batches(pairs)[k].1.contains(device),
        batches(pairs).len() <= 2,
        forall|k: int| 0 <= k < batches(pairs).len() ==> (#[trigger] batches(pairs)[k]).1.len() > 0,
        batches(pairs).len() == 2 ==> batches(pairs)[0].0 == Power::Off && batches(pairs)[1].0
            == Power::On,
        pairs.len() > 0 ==> batches(pairs).len() > 0,
{
    wanting_holds_exactly(pairs, power, device);
    let all = batches(pairs);
    let off = wanting(pairs, Power::Off);
    let on = wanting(pairs, Power::On);
    if pairs.contains((device, power)) {
        if power == Power::Off {
            assert(all[0].1 == off);
        } else {
            assert(all[all.len() - 1].1 == on);
        }
    }
    if pairs.len() > 0 {
        let last = pairs.last();
        assert(pairs[pairs.len() - 1] == last);
        wanting_holds_exactly(pairs, last.1, last.0);
    }
}

/// A reconciliation reaches every light in Test Mode that is under control and was seen with
/// another power than it should have, with the power that it should have, and no other light.
pub proof fn reconciliation_reaches_the_mismatched(
    model: ControllerModel,
    mode_power: Power,
    pairs: Seq<(LifxDevice, Power)>,
    id: LifxId,
)
    requires
        model.wf(),
        is_mismatch_list(pairs, model, mode_power),
        model.lights.contains_key(id),
    ensures
        ({
            let light = model.lights[id];
            let due = match light.power_override {
                Some(power) => power,
                None => mode_power,
            };
            let wrong = light.mode == LightMode::Test && light.control_enabled
                && light.observed is Some && light.observed->0.power != due;
            &&& wrong <==> pairs.contains((light.device, due))
            &&& wrong <==> exists|k: int|
                0 <= k < batches(pairs).len() && (#[trigger] batches(pairs)[k]).0 == due
                    && batches(pairs)[k].1.contains(light.device)
        }),
{
    let light = model.lights[id];
    let due = match light.power_override {
        Some(power) => power,
        None => mode_power,
    };
    let devices = pairs.map_values(|pair: (LifxDevice, Power)| pair.0);
    let ids = devices.map_values(|device: LifxDevice| device.id);
    mismatch_goes_by_observation(model, LightMode::Test, mode_power, id);
    if model.mismatched(LightMode::Test, mode_power).contains(id) {
        assert(ids.contains(id));
        let i = choose|i: int| 0 <= i < ids.len() && ids[i] == id;
        assert(devices[i].id == id);
        assert(pairs[i].0 == devices[i]);
        assert(pairs[i] == (light.device, due));
    }
    if pairs.contains((light.device, due)) {
        let i = choose|i: int| 0 <= i < pairs.len() && pairs[i] == (light.device, due);
        assert(devices[i] == light.device);
        assert(ids[i] == id);
        assert(ids.contains(id));
    }
    batches_cover_pairs(pairs, light.device, due);
}

/// What Test Mode tells its lights, light by light: the power, or the colour and the way to its
/// brightness; at a boundary the power once more, with every manual choice in the mode ended.
pub proof fn test_mode_tells_its_lights<F: Fn(Interpolation) -> u16>(
    model: ControllerModel,
    id: LifxId,
    power: Power,
    color: Color,
    transition: Duration,
    started: Instant,
    f: F,
)
    requires
        model.lights.contains_key(id),
        model.lights[id].mode == LightMode::Test,
        model.lights[id].control_enabled,
    ensures
        ({
            let light = model.lights[id];
            let coloured = test_coloured(model, color, transition, started, f).lights[id];
            &&& test_powered(model, power).lights[id] == (ManagedLight {
                desired_power: Some(power),
                ..light
            })
            &&& at_boundary(model, power).lights[id] == (ManagedLight {
                desired_power: Some(power),
                power_override: None,
                ..light
            })
            &&& coloured == ManagedLight {
                desired_color: Some(
                    ColorTarget {
                        hue: color.hue,
                        saturation: color.saturation,
                        kelvin: color.kelvin,
                    },
                ),
                desired_brightness: Some(color.brightness),
                brightness_transition: coloured.brightness_transition,
                ..light
            }
            &&& coloured.brightness_transition matches Some(t) ==> t.to == color.brightness
                && t.started == started && t.duration == transition && t.from != t.to
        }),
{
}

/// A light shows Test Mode's state where its power is the one it should have and hue, saturation
/// and brightness are at most 512 off, and the temperature at most 50; but the hue of a colour with
/// hardly any saturation does not count.
pub proof fn matching_goes_by_tolerances(seen: LightState, color: Color, power: Power)
    ensures
        matches_target(seen, color, power) <==> {
            &&& seen.power == power
            &&& -512 <= seen.saturation - color.saturation <= 512
            &&& -512 <= seen.brightness - color.brightness <= 512
            &&& -50 <= seen.kelvin - color.kelvin <= 50
            &&& color.saturation > 512 ==> -512 <= seen.hue - color.hue <= 512
        },
{
}

/// A check records what was read of the light, and changes nothing else but the transition of a
/// light that has arrived.
pub proof fn check_records_the_reading(
    waiting: AwaitCheck,
    model: ControllerModel,
    seen: LightState,
    now: Instant,
)
    requires
        model.lights.contains_key(waiting.confirmation.light_id()),
    ensures
        ({
            let id = waiting.confirmation.light_id();
            let before = model.lights[id];
            let after = waiting.checked(model, Some(seen), now);
            let light = after.lights[id];
            &&& waiting.confirmed(Some(seen)) <==> matches_target(
                seen,
                waiting.target.color,
                waiting.target.power,
            )
            &&& !waiting.confirmed(None)
            &&& waiting.checked(model, None, now) == model
            &&& light.observed == Some(seen)
            &&& light.last_observed == Some(now)
            &&& waiting.confirmed(Some(seen)) ==> light.brightness_transition is None
            &&& light == ManagedLight {
                observed: light.observed,
                last_observed: light.last_observed,
                brightness_transition: light.brightness_transition,
                ..before
            }
            &&& light.brightness_transition is Some ==> light.brightness_transition
                == before.brightness_transition
            &&& after.stored == model.stored
            &&& after.groups == model.groups
            &&& forall|other: LifxId| other != id ==> #[trigger] after.known(other)
                == model.known(other)
        }),
{
}

/// A transition runs from its start until its duration has passed, and is at its target from then
/// on.
pub proof fn transition_runs_its_time<F: Fn(Interpolation) -> u16>(
    t: BrightnessTransition,
    now: Instant,
    f: F,
    level: u16,
)
    requires
        t.gives(now, f, level),
        t.duration@ <= MAX_NANOS,
        is_interpolator(f),
    ensures
        t.active(now) <==> t.duration@ > 0 && now@ < t.started@ + t.duration@,
        now@ >= t.started@ + t.duration@ ==> level == t.to,
        t.started@ <= now@ < t.started@ + t.duration@ ==> {
            let d = t.duration@ as int;
            let passed = now@ - t.started@;
            let off = 2 * d * (level - t.from) - 2 * (t.to - t.from) * passed;
            1_000_000 * off <= 1_000_001 * d && -1_000_000 * off <= 1_000_001 * d
        },
        t.duration@ > 0 && now@ <= t.started@ ==> level == t.from,
{
    if t.active(now) {
        assert(t.point(now).on_the_way());
        assert(crate::registry::near_line(t.point(now), level));
    }
}

/// A transition starts where the light is: at the point of a running transition, else at the level
/// last observed, else at the level last commanded, else at the target itself. It leads to the
/// target in the given time, and there is none that would lead nowhere or take no time.
pub proof fn transition_starts_where_the_light_is<F: Fn(Interpolation) -> u16>(
    light: ManagedLight,
    target: u16,
    duration: Duration,
    started: Instant,
    f: F,
)
    ensures
        ({
            let after = light.heading_for(target, duration, started, f);
            let running = light.brightness_transition is Some
                && light.brightness_transition->0.duration@ > 0 && started@
                < light.brightness_transition->0.started@
                + light.brightness_transition->0.duration@;
            let from = if running {
                light.brightness_transition->0.value(started, f)
            } else if light.observed is Some {
                light.observed->0.brightness
            } else if light.desired_brightness is Some {
                light.desired_brightness->0
            } else {
                target
            };
            &&& after.desired_brightness == Some(target)
            &&& after.brightness_transition is Some <==> duration@ > 0 && from != target
            &&& after.brightness_transition matches Some(t) ==> t.from == from && t.to == target
                && t.started == started && t.duration == duration
            &&& after == ManagedLight {
                desired_brightness: after.desired_brightness,
                brightness_transition: after.brightness_transition,
                ..light
            }
        }),
{
}

/// What is shown of a light's power and what holds of it in a mode: a command is shown before an
/// observation, and a manual choice holds before the mode's power.
pub proof fn power_shown_and_due(light: ManagedLight, mode_power: Power)
    ensures
        light.desired_power is Some ==> light.shown_power() == light.desired_power,
        light.desired_power is None && light.observed is Some ==> light.shown_power() == Some(
            light.observed->0.power,
        ),
        light.desired_power is None && light.observed is None ==> light.shown_power() is None,
        light.power_override is Some ==> light.effective_power(mode_power)
            == light.power_override->0,
        light.power_override is None ==> light.effective_power(mode_power) == mode_power,
{
}

/// A change of mode is stored just where the light is known and in another mode.
pub proof fn mode_is_stored_where_it_changes(model: ControllerModel, id: LifxId, mode: LightMode)
    ensures
        planned_mode(model, id, mode) is Unknown <==> !model.lights.contains_key(id),
        planned_mode(model, id, mode) is Unchanged <==> model.lights.contains_key(id)
            && model.lights[id].mode == mode,
        planned_mode(model, id, mode) matches ModeChange::Unchanged(kept) ==> kept == mode,
        planned_mode(model, id, mode) matches ModeChange::Persist { previous }
            ==> model.lights.contains_key(id) && previous == model.lights[id].mode && previous
            != mode,
{
}

/// A device is stored just where it is new, or where a label was read that is not the stored one.
pub proof fn device_is_stored_where_it_is_new(
    model: ControllerModel,
    id: LifxId,
    label: Option<String>,
)
    ensures
        planned_persist(model, id, label) is Keep <==> model.stored.contains_key(id) && (label
            is None || (model.stored[id].device_label is Some && model.stored[id].device_label->0@
            == label->0@)),
        !model.stored.contains_key(id) ==> planned_persist(model, id, label)
            == (PersistPlan::Upsert {
            mode: if model.test_ids.contains(id) {
                LightMode::Test
            } else {
                LightMode::Custom
            },
        }),
{
}

/// The place of the light of `ids[k]` among the known lights of a list.
pub open spec fn known_before(ids: Seq<LifxId>, lights: Map<LifxId, ManagedLight>, k: int) -> nat
    decreases k,
{
    if k <= 0 {
        0
    } else {
        known_before(ids, lights, k - 1) + if lights.contains_key(ids[k - 1]) {
            1nat
        } else {
            0
        }
    }
}

/// Resolving identifiers gives every known light among them, each at its place in their order, and
/// nothing else.
pub proof fn known_lights_keep_their_order(
    ids: Seq<LifxId>,
    lights: Map<LifxId, ManagedLight>,
    k: int,
)
    requires
        0 <= k < ids.len(),
    ensures
        known_among(ids, lights).len() == known_before(ids, lights, ids.len() as int),
        lights.contains_key(ids[k]) ==> {
            let place = known_before(ids, lights, k) as int;
            &&& 0 <= place < known_among(ids, lights).len()
            &&& known_among(ids, lights)[place] == lights[ids[k]]
        },
    decreases ids.len(),
{
    let fewer = ids.drop_last();
    known_before_of_prefix(ids, lights, fewer.len() as int);
    known_before_grows(ids, lights, k, fewer.len() as int);
    if fewer.len() == 0 {
        assert(known_among(fewer, lights).len() == 0);
    } else {
        let inner = if k < fewer.len() {
            k
        } else {
            0
        };
        known_lights_keep_their_order(fewer, lights, inner);
        known_before_of_prefix(ids, lights, inner);
    }
}

proof fn known_before_of_prefix(ids: Seq<LifxId>, lights: Map<LifxId, ManagedLight>, k: int)
    requires
        0 <= k < ids.len(),
    ensures
        known_before(ids.drop_last(), lights, k) == known_before(ids, lights, k),
    decreases k,
{
    if k > 0 {
        known_before_of_prefix(ids, lights, k - 1);
    }
}

/// Places follow the order.
pub proof fn known_before_grows(ids: Seq<LifxId>, lights: Map<LifxId, ManagedLight>, j: int, k: int)
    requires
        0 <= j <= k <= ids.len(),
    ensures
        known_before(ids, lights, j) <= known_before(ids, lights, k),
        j < k && lights.contains_key(ids[j]) ==> known_before(ids, lights, j) < known_before(
            ids,
            lights,
            k,
        ),
    decreases k,
{
    if j < k {
        known_before_grows(ids, lights, j, k - 1);
    }
}

/// Stored rows are filed under their identifiers and nowhere else, and the last row of an
/// identifier is the one that counts.
pub proof fn rows_are_filed_by_id(
    lights: Seq<StoredLight>,
    groups: Seq<StoredGroup>,
    id: LifxId,
    group: i64,
)
    ensures
        lights_by_id(lights).contains_key(id) <==> exists|i: int|
            0 <= i < lights.len() && (#[trigger] lights[i]).id == id,
        groups_by_id(groups).contains_key(group) <==> exists|i: int|
            0 <= i < groups.len() && (#[trigger] groups[i]).id == group,
    decreases lights.len() + groups.len(),
{
    if lights.len() > 0 {
        let fewer = lights.drop_last();
        rows_are_filed_by_id(fewer, Seq::empty(), id, group);
        if exists|i: int| 0 <= i < fewer.len() && (#[trigger] fewer[i]).id == id {
            let i = choose|i: int| 0 <= i < fewer.len() && (#[trigger] fewer[i]).id == id;
            assert(lights[i].id == id);
        }
        if exists|i: int| 0 <= i < lights.len() && (#[trigger] lights[i]).id == id {
            let i = choose|i: int| 0 <= i < lights.len() && (#[trigger] lights[i]).id == id;
            if i < fewer.len() {
                assert(fewer[i].id == id);
            }
        }
        if lights.last().id == id {
            assert(lights[lights.len() - 1].id == id);
        }
    }
    if groups.len() > 0 {
        let fewer = groups.drop_last();
        rows_are_filed_by_id(Seq::empty(), fewer, id, group);
        if exists|i: int| 0 <= i < fewer.len() && (#[trigger] fewer[i]).id == group {
            let i = choose|i: int| 0 <= i < fewer.len() && (#[trigger] fewer[i]).id == group;
            assert(groups[i].id == group);
        }
        if exists|i: int| 0 <= i < groups.len() && (#[trigger] groups[i]).id == group {
            let i = choose|i: int| 0 <= i < groups.len() && (#[trigger] groups[i]).id == group;
            if i < fewer.len() {
                assert(fewer[i].id == group);
            }
        }
        if groups.last().id == group {
            assert(groups[groups.len() - 1].id == group);
        }
    }
}

/// What holds of the state at all times: a light and a group are filed under their own identifiers,
/// and a transition leads in some time from another level to the one that was commanded.
pub proof fn state_is_kept_in_order(model: ControllerModel, id: LifxId, group: i64)
    ensures
        model.wf() ==> {
            &&& model.lights.contains_key(id) ==> model.lights[id].device.id == id
            &&& model.lights.contains_key(id) && model.lights[id].brightness_transition is Some ==> {
                let t = model.lights[id].brightness_transition->0;
                &&& model.lights[id].desired_brightness == Some(t.to)
                &&& t.from != t.to
                &&& t.duration@ > 0
            }
            &&& model.groups.contains_key(group) ==> model.groups[group].id == group
        },
        (forall|k: LifxId| #[trigger]
            model.lights.contains_key(k) ==> model.lights[k].device.id == k
                && model.lights[k].brightness_transition is None) && (forall|k: i64| #[trigger]
            model.groups.contains_key(k) ==> model.groups[k].id == k) ==> model.wf(),
{
}

/// Storing a light or a group changes that one alone.
pub proof fn storing_changes_one(
    model: ControllerModel,
    id: LifxId,
    stored: StoredLight,
    group: i64,
    gathered: GroupModel,
)
    ensures
        model.with_stored(id, stored) == (ControllerModel {
            stored: model.stored.insert(id, stored),
            ..model
        }),
        model.with_group(group, gathered) == (ControllerModel {
            groups: model.groups.insert(group, gathered),
            ..model
        }),
        model.lights.contains_key(id) ==> model.known(id) == Some(model.lights[id]),
{
}

/// A command for Test Mode goes to every light in it that is under control, once, and to no other;
/// there is none just where there is no such light.
pub proof fn test_mode_commands_its_lights(
    devices: Option<Vec<LifxDevice>>,
    model: ControllerModel,
    id: LifxId,
)
    requires
        model.wf(),
        commands_governed(devices, model),
    ensures
        ({
            let due = model.lights.contains_key(id) && model.lights[id].mode == LightMode::Test
                && model.lights[id].control_enabled;
            &&& due ==> devices is Some && devices->0@.contains(model.lights[id].device)
            &&& devices is Some && model.lights.contains_key(id) && !due
                ==> !devices->0@.contains(model.lights[id].device)
            &&& devices is Some ==> devices->0@.len() > 0
        }),
{
    modes_govern_controlled_lights(model, LightMode::Test, id, |light: ManagedLight| light);
    if devices is Some {
        let list = devices->0@;
        let ids = list.map_values(|device: LifxDevice| device.id);
        if model.governed(LightMode::Test).contains(id) {
            assert(ids.contains(id));
            let i = choose|i: int| 0 <= i < ids.len() && ids[i] == id;
            assert(list[i].id == id);
            assert(list[i] == model.lights[id].device);
        }
        if model.lights.contains_key(id) && list.contains(model.lights[id].device) {
            let i = choose|i: int| 0 <= i < list.len() && list[i] == model.lights[id].device;
            assert(ids[i] == id);
            assert(ids.contains(id));
        }
    }
}

/// A command is what it holds: a power, and the devices that it is for.
pub proof fn commands_are_what_they_hold(list: Seq<PowerBatch>, i: int)
    requires
        0 <= i < list.len(),
    ensures
        batch_models(list).len() == list.len(),
        batch_models(list)[i].0 == list[i].power,
        batch_models(list)[i].1 == list[i].devices@,
{
}

} // verus!

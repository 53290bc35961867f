//! Laws on manual control and on changes of mode: whom a command reaches, what it sends, and what
//! it leaves of a light.
use vstd::prelude::*;

#[allow(unused_imports)]
use crate::clock::{Duration, Instant};
#[allow(unused_imports)]
use crate::control::{
    accepted, all_powered, asked_power, brightness_level, commanded, commanded_group, commands,
    gesture_color, hands_out, powered, taken_over, tint_level, tinted, Gesture, GroupControl,
    LiveControl, PowerCommand, Tint,
};
#[allow(unused_imports)]
use crate::controller::{known_among, ControllerModel};
#[allow(unused_imports)]
use crate::device::{Color, LifxId, LightState, Power};
#[allow(unused_imports)]
use crate::enrollment::{
    asked_mode, switched, synchronizing, AwaitSync, ModeCommand, ModeStep, ModeSwitch,
};
#[allow(unused_imports)]
use crate::laws::lights::{known_before, known_before_grows, known_lights_keep_their_order};
#[allow(unused_imports)]
use crate::registry::{ColorTarget, Interpolation, LightMode, ManagedLight};
#[allow(unused_imports)]
use crate::store::StoredLight;
#[allow(unused_imports)]
use crate::test_mode::SyncTarget;
#[allow(unused_imports)]
use crate::views::controllable;
#[allow(unused_imports)]
use crate::web::requested_id;

verus! {

/// A request commands a light just where it names one that is known and under control; what is
/// wrong decides the answer, in that order.
pub proof fn command_needs_a_controlled_light(model: ControllerModel, text: Seq<char>)
    ensures
        ({
            let named = requested_id(text);
            let known = named is Some && model.lights.contains_key(named->0);
            let controlled = known && model.lights[named->0].control_enabled;
            &&& commanded(model, text) is Ok <==> controlled
            &&& controlled ==> commanded(model, text)->Ok_0 == named->0
            &&& named is None ==> commanded(model, text)->Err_0.status == 400
            &&& named is Some && !known ==> commanded(model, text)->Err_0.status == 404
            &&& known && !controlled ==> commanded(model, text)->Err_0.status == 409
        }),
{
}

/// A power command is shown at once, keeps the light in its mode, is a manual choice just in Test
/// Mode, and changes nothing else.
pub proof fn power_command_sets_power(model: ControllerModel, id: LifxId, power: Power, on: bool)
    requires
        model.lights.contains_key(id),
    ensures
        ({
            let before = model.lights[id];
            let after = powered(model, id, power);
            let light = after.lights[id];
            &&& light.desired_power == Some(power)
            &&& before.mode == LightMode::Test ==> light.power_override == Some(power)
            &&& before.mode != LightMode::Test ==> light.power_override == before.power_override
            &&& light == ManagedLight {
                desired_power: light.desired_power,
                power_override: light.power_override,
                ..before
            }
            &&& after.lights == model.lights.insert(id, light)
            &&& after.stored == model.stored
            &&& after.groups == model.groups
            &&& after.test_ids == model.test_ids
        }),
        asked_power(on) == Power::On <==> on,
{
    let after = powered(model, id, power);
    assert(after.lights =~= model.lights.insert(id, after.lights[id]));
}

/// Taking back a power command gives the light the power that it was told before, and in Test Mode
/// its manual choice, and changes nothing else.
pub proof fn undoing_power_restores_power(command: PowerCommand, model: ControllerModel)
    requires
        model.lights.contains_key(command.id),
    ensures
        ({
            let before = model.lights[command.id];
            let after = command.undone(model);
            let light = after.lights[command.id];
            &&& light.desired_power == command.previous_desired
            &&& light.power_override == if command.overrides {
                command.previous_override
            } else {
                before.power_override
            }
            &&& light == ManagedLight {
                desired_power: light.desired_power,
                power_override: light.power_override,
                ..before
            }
            &&& after.lights == model.lights.insert(command.id, light)
            &&& after.stored == model.stored
            &&& after.groups == model.groups
        }),
{
    let after = command.undone(model);
    assert(after.lights =~= model.lights.insert(command.id, after.lights[command.id]));
}

/// A light that is taken over is in Custom Mode, in memory and as stored. It loses a manual choice
/// only where it comes from Test Mode, and nothing else.
pub proof fn takeover_changes_the_mode(model: ControllerModel, id: LifxId, previous: LightMode)
    requires
        model.lights.contains_key(id),
    ensures
        ({
            let before = model.lights[id];
            let after = taken_over(model, id, previous);
            let light = after.lights[id];
            &&& light.mode == LightMode::Custom
            &&& light.power_override == if previous == LightMode::Test {
                None
            } else {
                before.power_override
            }
            &&& light == ManagedLight {
                mode: light.mode,
                power_override: light.power_override,
                ..before
            }
            &&& after.lights == model.lights.insert(id, light)
            &&& model.stored.contains_key(id) ==> after.stored == model.stored.insert(
                id,
                StoredLight { mode: LightMode::Custom, ..model.stored[id] },
            )
            &&& !model.stored.contains_key(id) ==> after.stored == model.stored
            &&& after.groups == model.groups
        }),
{
    let after = taken_over(model, id, previous);
    assert(after.lights =~= model.lights.insert(id, after.lights[id]));
}

/// A colour command sends the hue and the saturation that were asked for, and keeps the rest: the
/// temperature is the one commanded last, else the one read; the brightness is the one shown, else
/// the one read.
pub proof fn colour_command_keeps_temperature<F: Fn(Interpolation) -> u16>(
    light: ManagedLight,
    read: LightState,
    tint: Tint,
    now: Instant,
    f: F,
)
    ensures
        ({
            let sent = gesture_color(light, read, Gesture::Tint(tint), now, f);
            &&& sent.hue == tint.hue
            &&& sent.saturation == tint.saturation
            &&& light.desired_color is Some ==> sent.kelvin == light.desired_color->0.kelvin
            &&& light.desired_color is None ==> sent.kelvin == read.kelvin
            &&& light.shown_brightness(now, f) is Some ==> sent.brightness
                == light.shown_brightness(now, f)->0
            &&& light.shown_brightness(now, f) is None ==> sent.brightness == read.brightness
        }),
{
}

/// A brightness command sends the level that was asked for, and keeps the rest: hue, saturation and
/// temperature are those commanded last, else those read.
pub proof fn brightness_command_keeps_colour<F: Fn(Interpolation) -> u16>(
    light: ManagedLight,
    read: LightState,
    level: u16,
    now: Instant,
    f: F,
)
    ensures
        ({
            let sent = gesture_color(light, read, Gesture::Brightness(level), now, f);
            &&& sent.brightness == level
            &&& light.desired_color is Some ==> sent.hue == light.desired_color->0.hue
                && sent.saturation == light.desired_color->0.saturation && sent.kelvin
                == light.desired_color->0.kelvin
            &&& light.desired_color is None ==> sent.hue == read.hue && sent.saturation
                == read.saturation && sent.kelvin == read.kelvin
        }),
{
}

/// What is shown of a light after it accepted a colour: the hue and saturation asked for, and the
/// temperature that was shown before, where one was; it is the temperature that was sent.
pub proof fn accepted_colour_shows_same_temperature<F: Fn(Interpolation) -> u16>(
    model: ControllerModel,
    id: LifxId,
    read: LightState,
    tint: Tint,
    now: Instant,
    f: F,
)
    requires
        model.lights.contains_key(id),
        model.lights[id].observed is Some ==> read == model.lights[id].observed->0,
    ensures
        ({
            let before = model.lights[id];
            let sent = gesture_color(before, read, Gesture::Tint(tint), now, f);
            let light = accepted(model, id, Gesture::Tint(tint), sent).lights[id];
            &&& light.shown_hue() == Some(tint.hue)
            &&& light.shown_saturation() == Some(tint.saturation)
            &&& light.shown_kelvin() == Some(sent.kelvin)
            &&& before.shown_kelvin() is Some ==> light.shown_kelvin() == before.shown_kelvin()
            &&& before.shown_kelvin() is None ==> sent.kelvin == read.kelvin
        }),
{
}

/// What a light that accepted a colour is known to be told: the level, or the colour with its
/// level; a transition ends, and nothing else changes.
pub proof fn acceptance_is_remembered(
    model: ControllerModel,
    id: LifxId,
    level: u16,
    tint: Tint,
    color: Color,
)
    requires
        model.lights.contains_key(id),
    ensures
        ({
            let before = model.lights[id];
            let brighter = accepted(model, id, Gesture::Brightness(level), color);
            let tinted = accepted(model, id, Gesture::Tint(tint), color);
            &&& brighter.lights[id] == (ManagedLight {
                desired_brightness: Some(level),
                brightness_transition: None,
                ..before
            })
            &&& tinted.lights[id] == (ManagedLight {
                desired_color: Some(
                    ColorTarget {
                        hue: color.hue,
                        saturation: color.saturation,
                        kelvin: color.kelvin,
                    },
                ),
                desired_brightness: Some(color.brightness),
                brightness_transition: None,
                ..before
            })
            &&& brighter.lights == model.lights.insert(id, brighter.lights[id])
            &&& tinted.lights == model.lights.insert(id, tinted.lights[id])
            &&& brighter.stored == model.stored && tinted.stored == model.stored
            &&& brighter.groups == model.groups && tinted.groups == model.groups
        }),
{
    let tinted = accepted(model, id, Gesture::Tint(tint), color);
    assert(tinted.lights =~= model.lights.insert(id, tinted.lights[id]));
}

/// A light is read before a command just where it was never observed; else the colour is sent at
/// once.
pub proof fn light_is_read_where_unobserved<F: Fn(Interpolation) -> u16>(
    control: LiveControl,
    now: Instant,
    f: F,
)
    ensures
        control.light.observed is None ==> control.command(now, f) is ReadLight
            && control.command(now, f)->ReadLight_0.control == control,
        control.light.observed is Some ==> control.command(now, f) is SendColor
            && control.command(now, f)->SendColor_0.control == control && control.command(
            now,
            f,
        )->SendColor_0.color == gesture_color(
            control.light,
            control.light.observed->0,
            control.gesture,
            now,
            f,
        ),
{
}

/// Requests within range are granted at the nearest level, and others are refused.
pub proof fn requests_in_range_are_granted(percent: u8, degrees: u16, saturation: u8)
    ensures
        brightness_level(percent) is Ok <==> percent <= 100,
        brightness_level(percent) is Err ==> brightness_level(percent)->Err_0.status == 400,
        brightness_level(percent) matches Ok(level) ==> -50 <= level * 100 - percent * 65_535 <= 50,
        tint_level(degrees, saturation) is Ok <==> degrees <= 360 && saturation <= 100,
        tint_level(degrees, saturation) is Err ==> tint_level(degrees, saturation)->Err_0.status
            == 400,
        tint_level(degrees, saturation) matches Ok(tint) ==> {
            &&& -50 <= tint.saturation * 100 - saturation * 65_535 <= 50
            &&& -180 <= tint.hue * 360 - (degrees % 360) * 65_535 <= 180
        },
{
}

/// Whether a member of a group is known and under control.
pub open spec fn can_be_commanded(model: ControllerModel, id: LifxId) -> bool {
    model.lights.contains_key(id) && model.lights[id].control_enabled
}

/// How many of the first `k` lights are under control.
pub open spec fn controlled_before(lights: Seq<ManagedLight>, k: int) -> nat
    decreases k,
{
    if k <= 0 {
        0
    } else {
        controlled_before(lights, k - 1) + if lights[k - 1].control_enabled {
            1nat
        } else {
            0
        }
    }
}

proof fn controlled_before_of_prefix(lights: Seq<ManagedLight>, k: int)
    requires
        0 <= k < lights.len(),
    ensures
        controlled_before(lights.drop_last(), k) == controlled_before(lights, k),
    decreases k,
{
    if k > 0 {
        controlled_before_of_prefix(lights, k - 1);
    }
}

proof fn controlled_before_grows(lights: Seq<ManagedLight>, j: int, k: int)
    requires
        0 <= j <= k <= lights.len(),
    ensures
        controlled_before(lights, j) <= controlled_before(lights, k),
        j < k && lights[j].control_enabled ==> controlled_before(lights, j) < controlled_before(
            lights,
            k,
        ),
    decreases k,
{
    if j < k {
        controlled_before_grows(lights, j, k - 1);
    }
}

/// Every light that is under control is kept, at its place in the order, and no other is.
pub proof fn controllable_keeps_the_controlled(lights: Seq<ManagedLight>, k: int)
    requires
        0 <= k < lights.len(),
    ensures
        controllable(lights).len() == controlled_before(lights, lights.len() as int),
        lights[k].control_enabled ==> {
            let place = controlled_before(lights, k) as int;
            &&& 0 <= place < controllable(lights).len()
            &&& controllable(lights)[place] == lights[k]
        },
    decreases lights.len(),
{
    let fewer = lights.drop_last();
    controlled_before_of_prefix(lights, fewer.len() as int);
    controlled_before_grows(lights, k, fewer.len() as int);
    if fewer.len() == 0 {
        assert(controllable(fewer).len() == 0);
    } else {
        let inner = if k < fewer.len() {
            k
        } else {
            0
        };
        controllable_keeps_the_controlled(fewer, inner);
        controlled_before_of_prefix(lights, inner);
    }
}

/// The place of a member's light among the lights that a group command reaches.
pub open spec fn place_in_group(model: ControllerModel, ids: Seq<LifxId>, k: int) -> int {
    controlled_before(
        known_among(ids, model.lights),
        known_before(ids, model.lights, k) as int,
    ) as int
}

/// A group command reaches every member that is known and under control, whatever else is known of
/// it, and in the order of membership.
pub proof fn group_command_reaches_every_member(model: ControllerModel, group: i64, j: int, k: int)
    requires
        model.groups.contains_key(group),
        0 <= j <= k < model.groups[group].member_ids.len(),
        can_be_commanded(model, model.groups[group].member_ids[j]),
        can_be_commanded(model, model.groups[group].member_ids[k]),
    ensures
        commanded_group(model, group) is Ok,
        ({
            let ids = model.groups[group].member_ids;
            let lights = commanded_group(model, group)->Ok_0;
            let first = place_in_group(model, ids, j);
            let second = place_in_group(model, ids, k);
            &&& 0 <= first <= second < lights.len()
            &&& j < k ==> first < second
            &&& lights[first] == model.lights[ids[j]]
            &&& lights[second] == model.lights[ids[k]]
            &&& lights.contains(model.lights[ids[k]])
        }),
{
    let ids = model.groups[group].member_ids;
    let members = known_among(ids, model.lights);
    known_lights_keep_their_order(ids, model.lights, j);
    known_lights_keep_their_order(ids, model.lights, k);
    known_before_grows(ids, model.lights, j, k);
    let a = known_before(ids, model.lights, j) as int;
    let b = known_before(ids, model.lights, k) as int;
    controllable_keeps_the_controlled(members, a);
    controllable_keeps_the_controlled(members, b);
    controlled_before_grows(members, a, b);
}

/// A group command is refused as a conflict just where no member is known and under control, and as
/// unknown just where there is no such group.
pub proof fn group_command_is_refused_where_none_can_be_reached(model: ControllerModel, group: i64)
    ensures
        !model.groups.contains_key(group) ==> commanded_group(model, group) is Err
            && commanded_group(model, group)->Err_0.status == 404,
        model.groups.contains_key(group) ==> {
            let ids = model.groups[group].member_ids;
            &&& commanded_group(model, group) is Ok <==> exists|k: int|
                0 <= k < ids.len() && can_be_commanded(model, #[trigger] ids[k])
            &&& commanded_group(model, group) is Err ==> commanded_group(model, group)->Err_0.status
                == 409
        },
{
    if model.groups.contains_key(group) {
        let ids = model.groups[group].member_ids;
        if exists|k: int| 0 <= k < ids.len() && can_be_commanded(model, #[trigger] ids[k]) {
            let k = choose|k: int| 0 <= k < ids.len() && can_be_commanded(model, #[trigger] ids[k]);
            group_command_reaches_every_member(model, group, k, k);
        }
        let members = known_among(ids, model.lights);
        if controllable(members).len() > 0 {
            let i = some_controlled(members);
            let k = some_member(ids, model.lights, i);
            assert(can_be_commanded(model, ids[k]));
        }
    }
}

proof fn some_controlled(lights: Seq<ManagedLight>) -> (i: int)
    requires
        controllable(lights).len() > 0,
    ensures
        0 <= i < lights.len(),
        lights[i].control_enabled,
    decreases lights.len(),
{
    if lights.last().control_enabled {
        lights.len() - 1
    } else {
        some_controlled(lights.drop_last())
    }
}

proof fn some_member(ids: Seq<LifxId>, lights: Map<LifxId, ManagedLight>, i: int) -> (k: int)
    requires
        0 <= i < known_among(ids, lights).len(),
    ensures
        0 <= k < ids.len(),
        lights.contains_key(ids[k]),
        known_among(ids, lights)[i] == lights[ids[k]],
    decreases ids.len(),
{
    let before = known_among(ids.drop_last(), lights);
    if i < before.len() {
        some_member(ids.drop_last(), lights, i)
    } else {
        ids.len() - 1
    }
}

/// Each light of a group request gets one command of its own, in order, for the gesture that was
/// asked for, and none of them is read back. The first is handed out, the rest follow.
pub proof fn group_request_commands_each_light(
    lights: Seq<ManagedLight>,
    gesture: Gesture,
    first: LiveControl,
    rest: GroupControl,
    i: int,
)
    requires
        hands_out(commands(lights, gesture), first, rest),
        0 <= i < lights.len(),
    ensures
        rest.left@.len() + 1 == lights.len(),
        ({
            let control = if i == 0 {
                first
            } else {
                rest.left@[i - 1]
            };
            &&& control.light == lights[i]
            &&& control.id == lights[i].device.id
            &&& control.gesture == gesture
            &&& !control.confirm
        }),
{
}

/// What a group power command does to a known light: one that it reached is told the power, and has
/// it as a manual choice where it was in Test Mode; nothing else changes, of it or of any other.
pub proof fn group_power_changes_power_only(
    model: ControllerModel,
    lights: Seq<ManagedLight>,
    power: Power,
    id: LifxId,
)
    requires
        model.lights.contains_key(id),
    ensures
        ({
            let before = model.lights[id];
            let after = all_powered(model, lights, power);
            let light = after.lights[id];
            let reached = exists|i: int|
                0 <= i < lights.len() && (#[trigger] lights[i]).device.id == id;
            let chosen = exists|i: int|
                0 <= i < lights.len() && (#[trigger] lights[i]).device.id == id && lights[i].mode
                    == LightMode::Test;
            &&& light.desired_power == if reached {
                Some(power)
            } else {
                before.desired_power
            }
            &&& light.power_override == if chosen {
                Some(power)
            } else {
                before.power_override
            }
            &&& light == ManagedLight {
                desired_power: light.desired_power,
                power_override: light.power_override,
                ..before
            }
            &&& after.lights.dom() == model.lights.dom()
            &&& after.stored == model.stored
            &&& after.groups == model.groups
            &&& after.test_ids == model.test_ids
        }),
    decreases lights.len(),
{
    let after = all_powered(model, lights, power);
    if lights.len() > 0 {
        let fewer = lights.drop_last();
        let last = lights.last();
        group_power_changes_power_only(model, fewer, power, id);
        assert(after.lights.dom() =~= model.lights.dom());
        assert(lights[lights.len() - 1] == last);
        if exists|i: int| 0 <= i < fewer.len() && (#[trigger] fewer[i]).device.id == id {
            let i = choose|i: int| 0 <= i < fewer.len() && (#[trigger] fewer[i]).device.id == id;
            assert(lights[i].device.id == id);
        }
        if exists|i: int| 0 <= i < lights.len() && (#[trigger] lights[i]).device.id == id {
            let i = choose|i: int| 0 <= i < lights.len() && (#[trigger] lights[i]).device.id == id;
            if i < fewer.len() {
                assert(fewer[i].device.id == id);
            }
        }
        if exists|i: int|
            0 <= i < fewer.len() && (#[trigger] fewer[i]).device.id == id && fewer[i].mode
                == LightMode::Test {
            let i = choose|i: int|
                0 <= i < fewer.len() && (#[trigger] fewer[i]).device.id == id && fewer[i].mode
                    == LightMode::Test;
            assert(lights[i].device.id == id && lights[i].mode == LightMode::Test);
        }
        if exists|i: int|
            0 <= i < lights.len() && (#[trigger] lights[i]).device.id == id && lights[i].mode
                == LightMode::Test {
            let i = choose|i: int|
                0 <= i < lights.len() && (#[trigger] lights[i]).device.id == id && lights[i].mode
                    == LightMode::Test;
            if i < fewer.len() {
                assert(fewer[i].device.id == id && fewer[i].mode == LightMode::Test);
            }
        }
    }
}

/// A change of mode moves the light, in memory and as stored, ends its manual choice, and changes
/// nothing else.
pub proof fn mode_switch_moves_the_light(
    model: ControllerModel,
    id: LifxId,
    mode: LightMode,
    test: bool,
)
    requires
        model.lights.contains_key(id),
    ensures
        ({
            let after = switched(model, id, mode);
            &&& after.lights == model.lights.insert(
                id,
                ManagedLight { mode, power_override: None, ..model.lights[id] },
            )
            &&& model.stored.contains_key(id) ==> after.stored == model.stored.insert(
                id,
                StoredLight { mode, ..model.stored[id] },
            )
            &&& !model.stored.contains_key(id) ==> after.stored == model.stored
            &&& after.groups == model.groups
        }),
        asked_mode(test) == LightMode::Test <==> test,
{
    assert(switched(model, id, mode).lights =~= model.lights.insert(
        id,
        ManagedLight { mode, power_override: None, ..model.lights[id] },
    ));
}

/// A light that joins Test Mode is sent the mode's colour and power, and one that leaves it is sent
/// nothing. A switch remembers where the light came from and what was chosen for it.
pub proof fn joining_light_is_synchronized(
    command: ModeCommand,
    model: ControllerModel,
    previous: LightMode,
    target: SyncTarget,
)
    requires
        model.lights.contains_key(command.id),
    ensures
        ({
            let switch = command.switch_from(model, previous);
            &&& switch.id == command.id
            &&& switch.device == command.device
            &&& switch.mode == command.mode
            &&& switch.previous == previous
            &&& switch.previous_override == model.lights[command.id].power_override
            &&& command.mode == LightMode::Test ==> switch.follow_up(target)
                == ModeStep::Synchronize(AwaitSync { switch, target })
            &&& command.mode == LightMode::Custom ==> switch.follow_up(target) == ModeStep::Done
        }),
{
}

/// Undoing a switch gives the light its manual choice back, and its mode where the store took it;
/// nothing else changes.
pub proof fn undoing_a_switch_moves_back(switch: ModeSwitch, model: ControllerModel)
    requires
        model.lights.contains_key(switch.id),
    ensures
        ({
            let before = model.lights[switch.id];
            let back = switch.undone(model, true);
            let stuck = switch.undone(model, false);
            &&& back.lights == model.lights.insert(
                switch.id,
                ManagedLight {
                    mode: switch.previous,
                    power_override: switch.previous_override,
                    ..before
                },
            )
            &&& stuck.lights == model.lights.insert(
                switch.id,
                ManagedLight { power_override: switch.previous_override, ..before },
            )
            &&& stuck.stored == model.stored
            &&& model.stored.contains_key(switch.id) ==> back.stored == model.stored.insert(
                switch.id,
                StoredLight { mode: switch.previous, ..model.stored[switch.id] },
            )
            &&& back.groups == model.groups && stuck.groups == model.groups
        }),
{
    let before = model.lights[switch.id];
    assert(switch.undone(model, true).lights =~= model.lights.insert(
        switch.id,
        ManagedLight {
            mode: switch.previous,
            power_override: switch.previous_override,
            ..before
        },
    ));
}

/// A light that accepted Test Mode's state is told its colour and power, and heads for the colour's
/// brightness from where it is; nothing else changes.
pub proof fn synchronized_light_heads_for_the_target<F: Fn(Interpolation) -> u16>(
    model: ControllerModel,
    id: LifxId,
    target: SyncTarget,
    transition: Duration,
    started: Instant,
    f: F,
)
    requires
        model.lights.contains_key(id),
    ensures
        ({
            let before = model.lights[id];
            let after = synchronizing(model, id, target, transition, started, f);
            let light = after.lights[id];
            &&& light == ManagedLight {
                desired_color: Some(
                    ColorTarget {
                        hue: target.color.hue,
                        saturation: target.color.saturation,
                        kelvin: target.color.kelvin,
                    },
                ),
                desired_power: Some(target.power),
                desired_brightness: Some(target.color.brightness),
                brightness_transition: light.brightness_transition,
                ..before
            }
            &&& light.brightness_transition matches Some(t) ==> t.to == target.color.brightness
                && t.started == started && t.duration == transition
            &&& light.brightness_transition == before.heading_for(
                target.color.brightness,
                transition,
                started,
                f,
            ).brightness_transition
            &&& after.lights == model.lights.insert(id, light)
            &&& after.stored == model.stored
            &&& after.groups == model.groups
        }),
{
    let after = synchronizing(model, id, target, transition, started, f);
    assert(after.lights =~= model.lights.insert(id, after.lights[id]));
}

} // verus!

//! Laws on pages: what is shown of a light, of a group and of their order.
use vstd::prelude::*;

#[allow(unused_imports)]
use crate::clock::Instant;
#[allow(unused_imports)]
use crate::controller::{known_among, lists_devices, stored_in, ControllerModel};
#[allow(unused_imports)]
use crate::device::{LifxDevice, LifxId, Power};
#[allow(unused_imports)]
use crate::laws::commands::{controllable_keeps_the_controlled, controlled_before};
#[allow(unused_imports)]
use crate::order::{before, every_position_occurs, is_stable_order, text_lt, text_lt_total};
#[allow(unused_imports)]
use crate::registry::{
    mode_name_reads_back, mode_named, Interpolation, LightGroup, ManagedLight,
};
#[allow(unused_imports)]
use crate::store::{GroupModel, StoredLight};
#[allow(unused_imports)]
use crate::text::{lowered, shown_id, texts};
#[allow(unused_imports)]
use crate::views::{
    controllable, group_keys, offers, offers_configured, online_among, shown_levels, shown_powers,
    shows_configured, shows_group, shows_groups, shows_light, shows_lights, shows_managed, sort_key,
    sort_keys, stored_keys, total, GroupLightOption, GroupView, LightView, ManagedLightView,
};
#[allow(unused_imports)]
use crate::web::{requested_id, shown_id_reads_back};

verus! {

/// `percent` is `level` in whole percent, rounded to the nearest.
pub open spec fn is_percent_of(percent: u8, level: u16) -> bool {
    -32_767 <= percent * 65_535 - level * 100 <= 32_767
}

/// `degrees` is `level` in whole degrees of a turn, rounded to the nearest.
pub open spec fn is_degrees_of(degrees: u16, level: u16) -> bool {
    &&& degrees < 360
    &&& (-32_767 <= degrees * 65_535 - level * 360 <= 32_767) || (degrees == 0 && level * 360
        + 32_767 >= 360 * 65_535)
}

/// Whether a transition of the light runs at a moment.
pub open spec fn runs(light: ManagedLight, now: Instant) -> bool {
    &&& light.brightness_transition is Some
    &&& light.brightness_transition->0.duration@ > 0
    &&& now@ < light.brightness_transition->0.started@ + light.brightness_transition->0.duration@
}

/// What is shown of a light: what was commanded last, else what was observed last, else nothing.
pub proof fn light_page_shows_the_light<F: Fn(Interpolation) -> u16>(
    view: LightView,
    light: ManagedLight,
    window: nat,
    now: Instant,
    f: F,
)
    requires
        shows_light(view, light, window, now, f),
    ensures
        requested_id(view.id@) == Some(light.device.id),
        mode_named(view.mode@) == Some(light.mode),
        view.address@ == light.device.addr@,
        view.control_enabled == light.control_enabled,
        view.online <==> light.last_observed is Some && now@ <= light.last_observed->0@ + window,
        light.friendly_name is Some ==> view.label@ == light.friendly_name->0@,
        light.friendly_name is None && light.label is Some ==> view.label@ == light.label->0@,
        light.desired_power is Some ==> view.power_on == Some(light.desired_power->0 == Power::On),
        light.desired_power is None && light.observed is Some ==> view.power_on == Some(
            light.observed->0.power == Power::On,
        ),
        light.desired_power is None && light.observed is None ==> view.power_on is None,
        light.desired_color is Some ==> {
            &&& view.kelvin == Some(light.desired_color->0.kelvin)
            &&& view.hue_degrees is Some && is_degrees_of(
                view.hue_degrees->0,
                light.desired_color->0.hue,
            )
            &&& view.saturation_percent is Some && is_percent_of(
                view.saturation_percent->0,
                light.desired_color->0.saturation,
            )
        },
        light.desired_color is None && light.observed is Some ==> {
            &&& view.kelvin == Some(light.observed->0.kelvin)
            &&& view.hue_degrees is Some && is_degrees_of(
                view.hue_degrees->0,
                light.observed->0.hue,
            )
            &&& view.saturation_percent is Some && is_percent_of(
                view.saturation_percent->0,
                light.observed->0.saturation,
            )
        },
        light.desired_color is None && light.observed is None ==> view.kelvin is None
            && view.hue_degrees is None && view.saturation_percent is None,
        runs(light, now) ==> view.brightness_percent is Some && is_percent_of(
            view.brightness_percent->0,
            light.brightness_transition->0.value(now, f),
        ),
        !runs(light, now) && light.desired_brightness is Some ==> view.brightness_percent is Some
            && is_percent_of(view.brightness_percent->0, light.desired_brightness->0),
        !runs(light, now) && light.desired_brightness is None && light.observed is Some
            ==> view.brightness_percent is Some && is_percent_of(
            view.brightness_percent->0,
            light.observed->0.brightness,
        ),
        !runs(light, now) && light.desired_brightness is None && light.observed is None
            ==> view.brightness_percent is None,
        view.brightness_transition is Some <==> runs(light, now),
        runs(light, now) ==> {
            let t = light.brightness_transition->0;
            let shown = view.brightness_transition->0;
            let left = if now@ >= t.started@ {
                t.started@ + t.duration@ - now@
            } else {
                t.duration@ as int
            };
            &&& is_percent_of(shown.to_percent, t.to)
            &&& shown.remaining_ms == left / 1_000_000 || (shown.remaining_ms == u64::MAX && left
                / 1_000_000 > u64::MAX)
        },
{
    shown_id_reads_back(light.device.id);
    mode_name_reads_back(light.mode);
}

/// A light without a name and without a label is named by its identifier, and no two of them alike.
pub proof fn nameless_lights_are_told_apart(a: LifxId, b: LifxId)
    ensures
        crate::views::display_text(None, None, a) == crate::views::display_text(None, None, b)
            <==> a == b,
{
    let x = "LIFX "@ + shown_id(a);
    let y = "LIFX "@ + shown_id(b);
    if x == y {
        assert(x.skip("LIFX "@.len() as int) =~= shown_id(a));
        assert(y.skip("LIFX "@.len() as int) =~= shown_id(b));
        shown_id_reads_back(a);
        shown_id_reads_back(b);
    }
}

/// What the management page and the list of candidates show of a stored light: its configuration,
/// and whether and where it was met.
pub proof fn configured_light_is_shown(
    view: ManagedLightView,
    option: GroupLightOption,
    stored: StoredLight,
    known: Option<ManagedLight>,
    window: nat,
    now: Instant,
)
    requires
        shows_managed(view, stored, known, window, now),
        offers(option, stored, known, window, now),
    ensures
        requested_id(view.id@) == Some(stored.id),
        requested_id(option.id@) == Some(stored.id),
        view.display_name@ == option.display_name@,
        stored.friendly_name is Some ==> view.display_name@ == stored.friendly_name->0@,
        stored.friendly_name is None && stored.device_label is Some ==> view.display_name@
            == stored.device_label->0@,
        view.friendly_name == stored.friendly_name,
        view.device_label == stored.device_label,
        view.control_enabled == stored.control_enabled,
        option.control_enabled == stored.control_enabled,
        mode_named(view.mode@) == Some(stored.mode),
        known is None ==> !view.online && !option.online && view.address is None,
        known is Some ==> {
            &&& view.address == Some(known->0.device.addr)
            &&& view.online <==> known->0.last_observed is Some && now@
                <= known->0.last_observed->0@ + window
            &&& option.online == view.online
        },
{
    shown_id_reads_back(stored.id);
    mode_name_reads_back(stored.mode);
}

/// How many of the lights satisfy a condition.
pub open spec fn how_many(
    lights: Seq<ManagedLight>,
    condition: spec_fn(ManagedLight) -> bool,
) -> nat
    decreases lights.len(),
{
    if lights.len() == 0 {
        0
    } else {
        how_many(lights.drop_last(), condition) + if condition(lights.last()) {
            1nat
        } else {
            0
        }
    }
}

/// The power that is shown of a light: the commanded one, else the observed one.
pub open spec fn has_power(light: ManagedLight, power: Power) -> bool {
    light.desired_power == Some(power) || (light.desired_power is None && light.observed is Some
        && light.observed->0.power == power)
}

/// Some member that is under control has the power.
pub open spec fn some_have(members: Seq<ManagedLight>, power: Power) -> bool {
    exists|i: int|
        0 <= i < members.len() && (#[trigger] members[i]).control_enabled && has_power(
            members[i],
            power,
        )
}

proof fn powers_come_from_members(members: Seq<ManagedLight>, power: Power)
    ensures
        shown_powers(controllable(members)).contains(power) <==> some_have(members, power),
    decreases members.len(),
{
    if members.len() > 0 {
        let fewer = members.drop_last();
        let last = members.last();
        powers_come_from_members(fewer, power);
        let before = shown_powers(controllable(fewer));
        let after = shown_powers(controllable(members));
        if last.control_enabled {
            assert(controllable(members).drop_last() =~= controllable(fewer));
        }
        if before.contains(power) {
            let k = choose|k: int| 0 <= k < before.len() && before[k] == power;
            assert(after[k] == power);
        }
        if some_have(fewer, power) {
            let i = choose|i: int|
                0 <= i < fewer.len() && (#[trigger] fewer[i]).control_enabled && has_power(
                    fewer[i],
                    power,
                );
            assert(members[i].control_enabled && has_power(members[i], power));
        }
        if some_have(members, power) {
            let i = choose|i: int|
                0 <= i < members.len() && (#[trigger] members[i]).control_enabled && has_power(
                    members[i],
                    power,
                );
            if i < fewer.len() {
                assert(fewer[i].control_enabled && has_power(fewer[i], power));
            } else {
                assert(after[before.len() as int] == power);
            }
        }
        if after.contains(power) {
            let k = choose|k: int| 0 <= k < after.len() && after[k] == power;
            if k < before.len() {
                assert(before[k] == power);
            } else {
                assert(members[members.len() - 1] == last);
                assert(last.control_enabled && has_power(last, power));
            }
        }
    } else {
        assert(controllable(members).len() == 0);
        assert(shown_powers(controllable(members)).len() == 0);
    }
}

/// One word for the power of a group: on where some member under control is on and none is off, off
/// where some is off and none is on, mixed where both occur, nothing where none has a power.
pub proof fn group_power_sums_up<F: Fn(Interpolation) -> u16>(
    view: GroupView,
    group: GroupModel,
    members: Seq<ManagedLight>,
    window: nat,
    now: Instant,
    f: F,
)
    requires
        shows_group(view, group, members, window, now, f),
    ensures
        ({
            let on = some_have(members, Power::On);
            let off = some_have(members, Power::Off);
            &&& view.power_state is None <==> !on && !off
            &&& on && !off ==> view.power_state is Some && view.power_state->0@ == "on"@
            &&& off && !on ==> view.power_state is Some && view.power_state->0@ == "off"@
            &&& on && off ==> view.power_state is Some && view.power_state->0@ == "mixed"@
        }),
{
    let powers = shown_powers(controllable(members));
    powers_come_from_members(members, Power::On);
    powers_come_from_members(members, Power::Off);
    if powers.len() > 0 {
        assert(powers.contains(powers[0]));
        if powers.contains(Power::On) && powers.contains(Power::Off) {
            let i = choose|i: int| 0 <= i < powers.len() && powers[i] == Power::On;
            let j = choose|j: int| 0 <= j < powers.len() && powers[j] == Power::Off;
            assert(powers[i] != powers[j]);
        } else {
            assert forall|i: int| 0 <= i < powers.len() implies #[trigger] powers[i]
                == powers[0] by {
                assert(powers.contains(powers[i]));
            }
        }
    }
}

/// The level that is shown of a light.
pub open spec fn level_of<F: Fn(Interpolation) -> u16>(
    light: ManagedLight,
    now: Instant,
    f: F,
) -> Option<u16> {
    if runs(light, now) {
        Some(light.brightness_transition->0.value(now, f))
    } else if light.desired_brightness is Some {
        light.desired_brightness
    } else if light.observed is Some {
        Some(light.observed->0.brightness)
    } else {
        None
    }
}

/// The sum of the levels of the members that are under control and have one.
pub open spec fn level_sum<F: Fn(Interpolation) -> u16>(
    members: Seq<ManagedLight>,
    now: Instant,
    f: F,
) -> nat
    decreases members.len(),
{
    if members.len() == 0 {
        0
    } else {
        let last = members.last();
        level_sum(members.drop_last(), now, f) + if last.control_enabled {
            match level_of(last, now, f) {
                Some(level) => level as nat,
                None => 0,
            }
        } else {
            0
        }
    }
}

proof fn levels_come_from_members<F: Fn(Interpolation) -> u16>(
    members: Seq<ManagedLight>,
    now: Instant,
    f: F,
)
    ensures
        total(shown_levels(controllable(members), now, f)) == level_sum(members, now, f),
        shown_levels(controllable(members), now, f).len() == how_many(
            members,
            |light: ManagedLight| light.control_enabled && level_of(light, now, f) is Some,
        ),
    decreases members.len(),
{
    if members.len() > 0 {
        let fewer = members.drop_last();
        let last = members.last();
        levels_come_from_members(fewer, now, f);
        let before = shown_levels(controllable(fewer), now, f);
        if last.control_enabled {
            assert(controllable(members).drop_last() =~= controllable(fewer));
            if level_of(last, now, f) is Some {
                let level = level_of(last, now, f)->0;
                assert(last.shown_brightness(now, f) == Some(level));
                assert(before.push(level).drop_last() =~= before);
            }
        }
    } else {
        assert(controllable(members).len() == 0);
    }
}

/// The brightness of a group is the average of the levels of its members under control, in whole
/// percent; there is none where no such member has a level.
pub proof fn group_brightness_is_the_average<F: Fn(Interpolation) -> u16>(
    view: GroupView,
    group: GroupModel,
    members: Seq<ManagedLight>,
    window: nat,
    now: Instant,
    f: F,
)
    requires
        shows_group(view, group, members, window, now, f),
    ensures
        ({
            let count = how_many(
                members,
                |light: ManagedLight| light.control_enabled && level_of(light, now, f) is Some,
            );
            &&& view.brightness_percent is None <==> count == 0
            &&& count > 0 ==> level_sum(members, now, f) / count <= 65_535 && is_percent_of(
                view.brightness_percent->0,
                (level_sum(members, now, f) / count) as u16,
            )
        }),
{
    levels_come_from_members(members, now, f);
    let levels = shown_levels(controllable(members), now, f);
    sums_are_bounded(levels);
    if levels.len() > 0 {
        let sum = total(levels);
        let count = levels.len();
        assert(sum / count <= 65_535) by (nonlinear_arith)
            requires
                sum <= 65_535 * count,
                count > 0,
        ;
    }
}

proof fn sums_are_bounded(levels: Seq<u16>)
    ensures
        total(levels) <= 65_535 * levels.len(),
    decreases levels.len(),
{
    if levels.len() > 0 {
        sums_are_bounded(levels.drop_last());
    }
}

proof fn counts_agree(members: Seq<ManagedLight>, window: nat, now: Instant)
    ensures
        controllable(members).len() == how_many(
            members,
            |light: ManagedLight| light.control_enabled,
        ),
        online_among(members, window, now) == how_many(
            members,
            |light: ManagedLight|
                light.last_observed is Some && now@ <= light.last_observed->0@ + window,
        ),
    decreases members.len(),
{
    if members.len() > 0 {
        counts_agree(members.drop_last(), window, now);
    }
}

/// What else is shown of a group: its name, all its members by their identifiers, how many there
/// are, how many of the known ones are under control, and how many are online.
pub proof fn group_page_counts_members<F: Fn(Interpolation) -> u16>(
    view: GroupView,
    group: GroupModel,
    members: Seq<ManagedLight>,
    window: nat,
    now: Instant,
    f: F,
    i: int,
)
    requires
        shows_group(view, group, members, window, now, f),
        0 <= i < group.member_ids.len(),
    ensures
        view.id == group.id,
        view.name@ == group.name,
        view.member_count == group.member_ids.len(),
        view.member_ids@.len() == group.member_ids.len(),
        requested_id(view.member_ids@[i]@) == Some(group.member_ids[i]),
        view.control_enabled_count == how_many(
            members,
            |light: ManagedLight| light.control_enabled,
        ),
        view.online_count == how_many(
            members,
            |light: ManagedLight|
                light.last_observed is Some && now@ <= light.last_observed->0@ + window,
        ),
{
    counts_agree(members, window, now);
    let shown = texts(view.member_ids@);
    assert(shown.len() == view.member_ids@.len());
    assert(shown[i] == view.member_ids@[i]@);
    shown_id_reads_back(group.member_ids[i]);
}

/// The colour of a group is that of the first member under control: the commanded one, else the
/// observed one. A group without such a member has none.
pub proof fn group_colour_is_the_first_members<F: Fn(Interpolation) -> u16>(
    view: GroupView,
    group: GroupModel,
    members: Seq<ManagedLight>,
    window: nat,
    now: Instant,
    f: F,
    i: int,
)
    requires
        shows_group(view, group, members, window, now, f),
    ensures
        0 <= i < members.len() && members[i].control_enabled && (forall|j: int|
            0 <= j < i ==> !(#[trigger] members[j]).control_enabled) ==> {
            let light = members[i];
            &&& light.desired_color is Some ==> {
                &&& view.kelvin == Some(light.desired_color->0.kelvin)
                &&& view.hue_degrees is Some && is_degrees_of(
                    view.hue_degrees->0,
                    light.desired_color->0.hue,
                )
                &&& view.saturation_percent is Some && is_percent_of(
                    view.saturation_percent->0,
                    light.desired_color->0.saturation,
                )
            }
            &&& light.desired_color is None && light.observed is Some ==> {
                &&& view.kelvin == Some(light.observed->0.kelvin)
                &&& view.hue_degrees is Some && is_degrees_of(
                    view.hue_degrees->0,
                    light.observed->0.hue,
                )
                &&& view.saturation_percent is Some && is_percent_of(
                    view.saturation_percent->0,
                    light.observed->0.saturation,
                )
            }
            &&& light.desired_color is None && light.observed is None ==> view.kelvin is None
                && view.hue_degrees is None && view.saturation_percent is None
        },
        (forall|j: int| 0 <= j < members.len() ==> !(#[trigger] members[j]).control_enabled)
            ==> view.kelvin is None && view.hue_degrees is None && view.saturation_percent is None,
{
    if 0 <= i < members.len() && members[i].control_enabled && (forall|j: int|
        0 <= j < i ==> !(#[trigger] members[j]).control_enabled) {
        controllable_keeps_the_controlled(members, i);
        none_controlled_before(members, i);
    }
    if forall|j: int| 0 <= j < members.len() ==> !(#[trigger] members[j]).control_enabled {
        if members.len() > 0 {
            controllable_keeps_the_controlled(members, 0);
            none_controlled_before(members, members.len() as int);
        } else {
            assert(controllable(members).len() == 0);
        }
    }
}

proof fn none_controlled_before(members: Seq<ManagedLight>, k: int)
    requires
        0 <= k <= members.len(),
        forall|j: int| 0 <= j < k ==> !(#[trigger] members[j]).control_enabled,
    ensures
        controlled_before(members, k) == 0,
    decreases k,
{
    if k > 0 {
        none_controlled_before(members, k - 1);
        assert(!members[k - 1].control_enabled);
    }
}

/// A text comes before another just where, at the first place at which they differ, it has the
/// lower character, or has ended.
pub proof fn texts_are_ordered_by_first_difference(a: Seq<char>, b: Seq<char>, at: int)
    requires
        0 <= at <= a.len(),
        at <= b.len(),
        forall|i: int| 0 <= i < at ==> #[trigger] a[i] == b[i],
        at < a.len() && at < b.len() ==> a[at] != b[at],
    ensures
        at < a.len() && at < b.len() ==> (text_lt(a, b) <==> a[at] < b[at]),
        at == a.len() && at < b.len() ==> text_lt(a, b),
        at == b.len() ==> !text_lt(a, b),
    decreases at,
{
    if at > 0 {
        let x = a.subrange(1, a.len() as int);
        let y = b.subrange(1, b.len() as int);
        assert(a[0] == b[0]);
        assert forall|i: int| 0 <= i < at - 1 implies #[trigger] x[i] == y[i] by {
            assert(a[i + 1] == b[i + 1]);
        }
        texts_are_ordered_by_first_difference(x, y, at - 1);
    }
}

/// Names are compared without regard to the case of ASCII letters, and of those only.
pub proof fn case_of_letters_does_not_count(text: Seq<char>, i: int)
    requires
        0 <= i < text.len(),
    ensures
        lowered(text).len() == text.len(),
        'A' <= text[i] <= 'Z' ==> lowered(text)[i] as int == text[i] as int + 32,
        !('A' <= text[i] <= 'Z') ==> lowered(text)[i] == text[i],
{
}

/// The control page shows every light once, and the lights in the order of their names: of the
/// friendly name, else of the label, else of nothing, without regard to case.
pub proof fn lights_are_shown_in_order<F: Fn(Interpolation) -> u16>(
    views: Seq<LightView>,
    lights: Seq<ManagedLight>,
    window: nat,
    now: Instant,
    f: F,
    k: int,
)
    requires
        shows_lights(views, lights, window, now, f),
        0 <= k < lights.len(),
    ensures
        views.len() == lights.len(),
        exists|i: int|
            0 <= i < views.len() && shows_light(#[trigger] views[i], lights[k], window, now, f),
        lights[k].friendly_name is Some ==> sort_key(lights[k]) == lowered(
            lights[k].friendly_name->0@,
        ),
        lights[k].friendly_name is None && lights[k].label is Some ==> sort_key(lights[k])
            == lowered(lights[k].label->0@),
        lights[k].friendly_name is None && lights[k].label is None ==> sort_key(lights[k]).len()
            == 0,
        exists|order: Seq<usize>|
            {
                &&& order.len() == lights.len()
                &&& #[trigger] orders_by_name(lights, order)
                &&& forall|i: int|
                    0 <= i < views.len() ==> shows_light(
                        #[trigger] views[i],
                        lights[order[i] as int],
                        window,
                        now,
                        f,
                    )
            },
{
    let keys = sort_keys(lights);
    let order = choose|order: Seq<usize>|
        {
            &&& #[trigger] is_stable_order(keys, order)
            &&& views.len() == order.len()
            &&& forall|i: int|
                0 <= i < views.len() ==> shows_light(
                    #[trigger] views[i],
                    lights[order[i] as int],
                    window,
                    now,
                    f,
                )
        };
    let n = order.len();
    assert(keys.len() == lights.len());
    if k < n {
        orders_fit(keys, order);
        every_position_occurs(keys, order, k as usize);
        let i = choose|i: int| 0 <= i < order.len() && order[i] == k as usize;
        assert(shows_light(views[i], lights[order[i] as int], window, now, f));
    }
    assert forall|i: int, j: int|
        #![trigger order[i], order[j]]
        0 <= i < j < order.len() implies !text_lt(
        sort_key(lights[order[j] as int]),
        sort_key(lights[order[i] as int]),
    ) && order[i] < lights.len() && order[j] < lights.len() && order[i] != order[j] by {
        assert(before(keys, order[i] as int, order[j] as int));
        assert(keys[order[i] as int] == sort_key(lights[order[i] as int]));
        assert(keys[order[j] as int] == sort_key(lights[order[j] as int]));
        text_lt_total(keys[order[i] as int], keys[order[j] as int]);
    }
    assert(orders_by_name(lights, order));
}

/// Later places hold no earlier names, and no place holds the same light as another.
pub open spec fn orders_by_name(lights: Seq<ManagedLight>, order: Seq<usize>) -> bool {
    forall|i: int, j: int|
        #![trigger order[i], order[j]]
        0 <= i < j < order.len() ==> {
            &&& order[i] < lights.len() && order[j] < lights.len()
            &&& order[i] != order[j]
            &&& !text_lt(sort_key(lights[order[j] as int]), sort_key(lights[order[i] as int]))
        }
}

proof fn orders_fit(keys: Seq<Seq<char>>, order: Seq<usize>)
    requires
        is_stable_order(keys, order),
    ensures
        order.len() <= usize::MAX + 1,
{
    order.unique_seq_to_set();
    let positions = order.map_values(|p: usize| p as int);
    positions.unique_seq_to_set();
    let all = vstd::set_lib::set_int_range(0, usize::MAX + 1);
    vstd::set_lib::lemma_int_range(0, usize::MAX + 1);
    assert forall|p: int| positions.to_set().contains(p) implies all.contains(p) by {
        let i = choose|i: int| 0 <= i < positions.len() && positions[i] == p;
        assert(order[i] == p);
    }
    vstd::set_lib::lemma_len_subset(positions.to_set(), all);
}

/// A listing names everything that it is to list, once, and nothing else.
pub proof fn listings_are_complete(
    devices: Seq<LifxDevice>,
    lights: Map<LifxId, ManagedLight>,
    set: Set<LifxId>,
    id: LifxId,
)
    requires
        lists_devices(devices, lights, set),
    ensures
        set.contains(id) <==> exists|i: int| 0 <= i < devices.len() && (#[trigger] devices[i]).id
            == id,
        forall|i: int, j: int|
            0 <= i < devices.len() && 0 <= j < devices.len() && i != j ==> (#[trigger] devices[i]).id
                != (#[trigger] devices[j]).id,
        forall|i: int|
            0 <= i < devices.len() ==> #[trigger] devices[i] == lights[devices[i].id].device,
{
    let ids = devices.map_values(|device: LifxDevice| device.id);
    assert forall|i: int| 0 <= i < devices.len() implies ids[i] == (#[trigger] devices[i]).id by {}
    if set.contains(id) {
        assert(ids.contains(id));
        let i = choose|i: int| 0 <= i < ids.len() && ids[i] == id;
        assert(devices[i].id == id);
    }
    if exists|i: int| 0 <= i < devices.len() && (#[trigger] devices[i]).id == id {
        let i = choose|i: int| 0 <= i < devices.len() && (#[trigger] devices[i]).id == id;
        assert(ids[i] == id);
        assert(ids.contains(id));
    }
    assert forall|i: int, j: int|
        0 <= i < devices.len() && 0 <= j < devices.len() && i != j implies (#[trigger] devices[i]).id
        != (#[trigger] devices[j]).id by {
        assert(ids[i] != ids[j]);
    }
}

/// A stable order lists every position once; later places hold no lower keys, and of equal keys the
/// earlier position comes first.
pub proof fn stable_orders_list_and_sort(keys: Seq<Seq<char>>, order: Seq<usize>, k: int)
    requires
        is_stable_order(keys, order),
        0 <= k < keys.len(),
    ensures
        order.len() == keys.len(),
        exists|i: int| 0 <= i < order.len() && #[trigger] order[i] == k,
        forall|i: int, j: int|
            #![trigger order[i], order[j]]
            0 <= i < j < order.len() ==> {
                &&& order[i] < keys.len() && order[j] < keys.len()
                &&& !text_lt(keys[order[j] as int], keys[order[i] as int])
                &&& keys[order[i] as int] == keys[order[j] as int] ==> order[i] < order[j]
            },
{
    orders_fit(keys, order);
    every_position_occurs(keys, order, k as usize);
    let i = choose|i: int| 0 <= i < order.len() && order[i] == k as usize;
    assert(order[i] == k);
    assert forall|i: int, j: int|
        #![trigger order[i], order[j]]
        0 <= i < j < order.len() implies {
        &&& order[i] < keys.len() && order[j] < keys.len()
        &&& !text_lt(keys[order[j] as int], keys[order[i] as int])
        &&& keys[order[i] as int] == keys[order[j] as int] ==> order[i] < order[j]
    } by {
        assert(before(keys, order[i] as int, order[j] as int));
        text_lt_total(keys[order[i] as int], keys[order[j] as int]);
    }
}

/// The management page, the list of candidates and the list of groups show everything once. They
/// are ordered by name without regard to case; a stored light's name is its friendly name, else its
/// label.
pub proof fn lists_are_shown_whole<F: Fn(Interpolation) -> u16>(
    views: Seq<ManagedLightView>,
    options: Seq<GroupLightOption>,
    configured: Seq<StoredLight>,
    groups: Seq<LightGroup>,
    group_views: Seq<GroupView>,
    model: ControllerModel,
    window: nat,
    now: Instant,
    f: F,
    k: int,
    g: int,
)
    requires
        shows_configured(views, configured, model, window, now),
        offers_configured(options, configured, model, window, now),
        shows_groups(group_views, groups, model, window, now, f),
        0 <= k < configured.len(),
        0 <= g < groups.len(),
    ensures
        views.len() == configured.len(),
        options.len() == configured.len(),
        group_views.len() == groups.len(),
        ({
            let stored = configured[k];
            let known = if model.lights.contains_key(stored.id) {
                Some(model.lights[stored.id])
            } else {
                None
            };
            &&& exists|i: int|
                0 <= i < views.len() && shows_managed(#[trigger] views[i], stored, known, window, now)
            &&& exists|i: int|
                0 <= i < options.len() && offers(#[trigger] options[i], stored, known, window, now)
        }),
        exists|i: int|
            0 <= i < group_views.len() && shows_group(
                #[trigger] group_views[i],
                groups[g]@,
                known_among(groups[g].member_ids@, model.lights),
                window,
                now,
                f,
            ),
        stored_keys(configured)[k] == lowered(
            if configured[k].friendly_name is Some {
                configured[k].friendly_name->0@
            } else if configured[k].device_label is Some {
                configured[k].device_label->0@
            } else {
                "LIFX "@ + shown_id(configured[k].id)
            },
        ),
        group_keys(groups)[g] == lowered(groups[g].name@),
{
    let by_view = choose|order: Seq<usize>|
        {
            &&& #[trigger] is_stable_order(stored_keys(configured), order)
            &&& views.len() == order.len()
            &&& forall|i: int|
                0 <= i < views.len() ==> shows_managed(
                    #[trigger] views[i],
                    configured[order[i] as int],
                    model.known(configured[order[i] as int].id),
                    window,
                    now,
                )
        };
    stable_orders_list_and_sort(stored_keys(configured), by_view, k);
    let i = choose|i: int| 0 <= i < by_view.len() && #[trigger] by_view[i] == k;
    assert(shows_managed(views[i], configured[k], model.known(configured[k].id), window, now));
    let by_option = choose|order: Seq<usize>|
        {
            &&& #[trigger] is_stable_order(stored_keys(configured), order)
            &&& options.len() == order.len()
            &&& forall|i: int|
                0 <= i < options.len() ==> offers(
                    #[trigger] options[i],
                    configured[order[i] as int],
                    model.known(configured[order[i] as int].id),
                    window,
                    now,
                )
        };
    stable_orders_list_and_sort(stored_keys(configured), by_option, k);
    let j = choose|j: int| 0 <= j < by_option.len() && #[trigger] by_option[j] == k;
    assert(offers(options[j], configured[k], model.known(configured[k].id), window, now));
    let by_group = choose|order: Seq<usize>|
        {
            &&& #[trigger] is_stable_order(group_keys(groups), order)
            &&& group_views.len() == order.len()
            &&& forall|i: int|
                0 <= i < group_views.len() ==> shows_group(
                    #[trigger] group_views[i],
                    groups[order[i] as int]@,
                    known_among(groups[order[i] as int].member_ids@, model.lights),
                    window,
                    now,
                    f,
                )
        };
    stable_orders_list_and_sort(group_keys(groups), by_group, g);
    let h = choose|h: int| 0 <= h < by_group.len() && #[trigger] by_group[h] == g;
    assert(shows_group(
        group_views[h],
        groups[g]@,
        known_among(groups[g].member_ids@, model.lights),
        window,
        now,
        f,
    ));
}

/// Stored lights are looked up by their identifiers, and texts are taken one by one.
pub proof fn lookups_go_one_by_one(
    model: ControllerModel,
    ids: Seq<LifxId>,
    list: Seq<String>,
    i: int,
)
    ensures
        stored_in(model, ids).len() == ids.len(),
        0 <= i < ids.len() ==> stored_in(model, ids)[i] == model.stored[ids[i]],
        texts(list).len() == list.len(),
        0 <= i < list.len() ==> texts(list)[i] == list[i]@,
{
}

} // verus!

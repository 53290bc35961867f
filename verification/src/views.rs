//! What the web interface shows of lights and groups.
//!
//! Controls show what was last commanded while the physical observation catches up.
use vstd::prelude::*;

use crate::clock::{Duration, Instant};
use crate::controller::ControllerState;
use crate::device::Power;
use crate::order::stable_order;
use crate::registry::{Interpolation, LightGroup, ManagedLight};
use crate::store::StoredLight;
use crate::text::{clone_optional, format_shown_id, to_ascii_lowercase};
use crate::web::{u16_to_hue_degrees, u16_to_percent};
#[allow(unused_imports)]
use crate::clock::{at_most_max, span_since};
#[allow(unused_imports)]
use crate::controller::{known_among, lists, stored_in, ControllerModel};
#[allow(unused_imports)]
use crate::device::LifxId;
#[allow(unused_imports)]
use crate::order::{char_seqs, is_stable_order};
#[allow(unused_imports)]
use crate::registry::{is_interpolator, mode_name};
#[allow(unused_imports)]
use crate::store::GroupModel;
#[allow(unused_imports)]
use crate::text::{lowered, shown_id, texts};
#[allow(unused_imports)]
use crate::web::{hue_degrees, level_percent};

verus! {

/// How many poll intervals a light may stay silent and still count as online.
pub const ONLINE_POLLS: u32 = 3;

/// A light as it is shown on the control page.
#[derive(Debug)]
pub struct LightView {
    pub id: String,
    pub label: String,
    pub address: String,
    pub online: bool,
    pub control_enabled: bool,
    pub mode: &'static str,
    pub power_on: Option<bool>,
    pub brightness_percent: Option<u8>,
    pub brightness_transition: Option<BrightnessTransitionView>,
    pub hue_degrees: Option<u16>,
    pub saturation_percent: Option<u8>,
    pub kelvin: Option<u16>,
}

/// A brightness change in progress as it is shown.
#[derive(Clone, Copy, Debug, PartialEq, Eq, Structural)]
pub struct BrightnessTransitionView {
    pub to_percent: u8,
    pub remaining_ms: u64,
}

/// A light as it is shown on the management page.
#[derive(Debug)]
pub struct ManagedLightView {
    pub id: String,
    pub display_name: String,
    pub device_label: Option<String>,
    pub friendly_name: Option<String>,
    pub control_enabled: bool,
    pub mode: &'static str,
    pub online: bool,
    pub address: Option<String>,
}

/// A light that can be made a member of a group.
#[derive(Debug)]
pub struct GroupLightOption {
    pub id: String,
    pub display_name: String,
    pub control_enabled: bool,
    pub online: bool,
}

/// A group as it is shown.
#[derive(Debug)]
pub struct GroupView {
    pub id: i64,
    pub name: String,
    pub member_ids: Vec<String>,
    pub member_count: usize,
    pub control_enabled_count: usize,
    pub online_count: usize,
    pub power_state: Option<&'static str>,
    pub brightness_percent: Option<u8>,
    pub hue_degrees: Option<u16>,
    pub saturation_percent: Option<u8>,
    pub kelvin: Option<u16>,
}

/// The group page.
#[derive(Debug)]
pub struct GroupsView {
    pub groups: Vec<GroupView>,
    pub lights: Vec<GroupLightOption>,
}

/// How long a light may stay silent and still count as online.
pub open spec fn window(poll_interval: Duration) -> nat {
    at_most_max(poll_interval@ * ONLINE_POLLS as nat)
}

pub fn online_window(poll_interval: Duration) -> (r: Duration)
    ensures
        r@ == window(poll_interval),
{
    poll_interval.saturating_mul(ONLINE_POLLS)
}

/// Whether a light was observed no longer ago than the window.
pub open spec fn online(last_observed: Option<Instant>, window: nat, now: Instant) -> bool {
    last_observed matches Some(seen) && span_since(now@, seen@) <= window
}

pub fn is_online(last_observed: Option<Instant>, window: Duration, now: Instant) -> (r: bool)
    ensures
        r == online(last_observed, window@, now),
{
    match last_observed {
        Some(seen) => !window.is_less_than(now.saturating_duration_since(seen)),
        None => false,
    }
}

/// The name of a light: its friendly name, else the label that it carries, else its identifier.
pub open spec fn display_text(
    friendly_name: Option<String>,
    label: Option<String>,
    id: LifxId,
) -> Seq<char> {
    match (friendly_name, label) {
        (Some(name), _) => name@,
        (None, Some(label)) => label@,
        (None, None) => "LIFX "@ + shown_id(id),
    }
}

pub fn display_name(friendly_name: &Option<String>, label: &Option<String>, id: LifxId) -> (r:
    String)
    ensures
        r@ == display_text(*friendly_name, *label, id),
{
    match (friendly_name, label) {
        (Some(name), _) => name.clone(),
        (None, Some(label)) => label.clone(),
        (None, None) => "LIFX ".to_string().concat(format_shown_id(id).as_str()),
    }
}

/// What lights are ordered by: the friendly name, else the label, else nothing, without regard to
/// ASCII case.
pub open spec fn sort_key(light: ManagedLight) -> Seq<char> {
    match (light.friendly_name, light.label) {
        (Some(name), _) => lowered(name@),
        (None, Some(label)) => lowered(label@),
        (None, None) => Seq::empty(),
    }
}

/// The keys by which lights are ordered.
pub open spec fn sort_keys(lights: Seq<ManagedLight>) -> Seq<Seq<char>> {
    lights.map_values(|light: ManagedLight| sort_key(light))
}

pub fn sort_name(light: &ManagedLight) -> (r: Vec<char>)
    ensures
        r@ == sort_key(*light),
{
    match (&light.friendly_name, &light.label) {
        (Some(name), _) => to_ascii_lowercase(name.as_str()),
        (None, Some(label)) => to_ascii_lowercase(label.as_str()),
        (None, None) => Vec::new(),
    }
}

impl ManagedLight {
    /// The hue to show: the commanded one, else the observed one.
    pub open spec fn shown_hue(self) -> Option<u16> {
        match (self.desired_color, self.observed) {
            (Some(color), _) => Some(color.hue),
            (None, Some(state)) => Some(state.hue),
            (None, None) => None,
        }
    }

    pub open spec fn shown_saturation(self) -> Option<u16> {
        match (self.desired_color, self.observed) {
            (Some(color), _) => Some(color.saturation),
            (None, Some(state)) => Some(state.saturation),
            (None, None) => None,
        }
    }

    pub open spec fn shown_kelvin(self) -> Option<u16> {
        match (self.desired_color, self.observed) {
            (Some(color), _) => Some(color.kelvin),
            (None, Some(state)) => Some(state.kelvin),
            (None, None) => None,
        }
    }

    fn power_to_show(&self) -> (r: Option<Power>)
        ensures
            r == self.shown_power(),
    {
        match (self.desired_power, self.observed) {
            (Some(power), _) => Some(power),
            (None, Some(state)) => Some(state.power),
            (None, None) => None,
        }
    }

    fn hue_to_show(&self) -> (r: Option<u16>)
        ensures
            r == self.shown_hue(),
    {
        match (self.desired_color, self.observed) {
            (Some(color), _) => Some(color.hue),
            (None, Some(state)) => Some(state.hue),
            (None, None) => None,
        }
    }

    fn saturation_to_show(&self) -> (r: Option<u16>)
        ensures
            r == self.shown_saturation(),
    {
        match (self.desired_color, self.observed) {
            (Some(color), _) => Some(color.saturation),
            (None, Some(state)) => Some(state.saturation),
            (None, None) => None,
        }
    }

    fn kelvin_to_show(&self) -> (r: Option<u16>)
        ensures
            r == self.shown_kelvin(),
    {
        match (self.desired_color, self.observed) {
            (Some(color), _) => Some(color.kelvin),
            (None, Some(state)) => Some(state.kelvin),
            (None, None) => None,
        }
    }
}

pub open spec fn as_percent(level: Option<u16>) -> Option<u8> {
    match level {
        Some(level) => Some(level_percent(level as int) as u8),
        None => None,
    }
}

pub open spec fn as_degrees(level: Option<u16>) -> Option<u16> {
    match level {
        Some(level) => Some(hue_degrees(level as int) as u16),
        None => None,
    }
}

fn to_percent(level: Option<u16>) -> (r: Option<u8>)
    ensures
        r == as_percent(level),
{
    match level {
        Some(level) => Some(u16_to_percent(level)),
        None => None,
    }
}

fn to_degrees(level: Option<u16>) -> (r: Option<u16>)
    ensures
        r == as_degrees(level),
{
    match level {
        Some(level) => Some(u16_to_hue_degrees(level)),
        None => None,
    }
}

/// The transition that is shown: only one that is still running.
pub open spec fn transition_shown(light: ManagedLight, now: Instant) -> Option<
    BrightnessTransitionView,
> {
    match light.brightness_transition {
        Some(t) if t.active(now) => Some(
            BrightnessTransitionView {
                to_percent: level_percent(t.to as int) as u8,
                remaining_ms: {
                    let ms = span_since(t.duration@, t.elapsed(now)) / 1_000_000;
                    if ms <= u64::MAX {
                        ms as u64
                    } else {
                        u64::MAX
                    }
                },
            },
        ),
        _ => None,
    }
}

/// `view` shows `light`.
pub open spec fn shows_light<F: Fn(Interpolation) -> u16>(
    view: LightView,
    light: ManagedLight,
    window: nat,
    now: Instant,
    f: F,
) -> bool {
    &&& view.id@ == shown_id(light.device.id)
    &&& view.label@ == display_text(light.friendly_name, light.label, light.device.id)
    &&& view.address@ == light.device.addr@
    &&& view.online == online(light.last_observed, window, now)
    &&& view.control_enabled == light.control_enabled
    &&& view.mode@ == mode_name(light.mode)
    &&& view.power_on == match light.shown_power() {
        Some(power) => Some(power == Power::On),
        None => None,
    }
    &&& view.brightness_percent == as_percent(light.shown_brightness(now, f))
    &&& view.brightness_transition == transition_shown(light, now)
    &&& view.hue_degrees == as_degrees(light.shown_hue())
    &&& view.saturation_percent == as_percent(light.shown_saturation())
    &&& view.kelvin == light.shown_kelvin()
}

pub fn to_light_view<F: Fn(Interpolation) -> u16>(
    light: &ManagedLight,
    online_window: Duration,
    now: Instant,
    interpolate: &F,
) -> (r: LightView)
    requires
        is_interpolator(*interpolate),
    ensures
        shows_light(r, *light, online_window@, now, *interpolate),
{
    let power_on = match light.power_to_show() {
        Some(power) => Some(matches!(power, Power::On)),
        None => None,
    };
    let brightness_transition = match &light.brightness_transition {
        Some(transition) => if transition.is_active(now) {
            let ms: u128 = transition.remaining(now).as_millis();
            let remaining_ms: u64 = if ms <= u64::MAX as u128 {
                ms as u64
            } else {
                u64::MAX
            };
            Some(
                BrightnessTransitionView {
                    to_percent: u16_to_percent(transition.to),
                    remaining_ms,
                },
            )
        } else {
            None
        },
        None => None,
    };
    LightView {
        id: format_shown_id(light.device.id),
        label: display_name(&light.friendly_name, &light.label, light.device.id),
        address: light.device.addr.clone(),
        online: is_online(light.last_observed, online_window, now),
        control_enabled: light.control_enabled,
        mode: light.mode.as_str(),
        power_on,
        brightness_percent: to_percent(light.projected_brightness(now, interpolate)),
        brightness_transition,
        hue_degrees: to_degrees(light.hue_to_show()),
        saturation_percent: to_percent(light.saturation_to_show()),
        kelvin: light.kelvin_to_show(),
    }
}

/// `views` show `lights` in the order of their names.
pub open spec fn shows_lights<F: Fn(Interpolation) -> u16>(
    views: Seq<LightView>,
    lights: Seq<ManagedLight>,
    window: nat,
    now: Instant,
    f: F,
) -> bool {
    exists|order: Seq<usize>|
        {
            &&& #[trigger] is_stable_order(sort_keys(lights), order)
            &&& views.len() == order.len()
            &&& forall|i: int|
                0 <= i < views.len() ==> shows_light(
                    #[trigger] views[i],
                    lights[order[i] as int],
                    window,
                    now,
                    f,
                )
        }
}

/// The lights in the order of their names; lights of one name stay in the order given.
pub fn view_lights<F: Fn(Interpolation) -> u16>(
    lights: &Vec<ManagedLight>,
    online_window: Duration,
    now: Instant,
    interpolate: &F,
) -> (r: Vec<LightView>)
    requires
        is_interpolator(*interpolate),
    ensures
        shows_lights(r@, lights@, online_window@, now, *interpolate),
{
    let mut keys: Vec<Vec<char>> = Vec::new();
    for i in 0..lights.len()
        invariant
            keys@.len() == i,
            forall|j: int| 0 <= j < i ==> (#[trigger] keys@[j])@ == sort_key(lights@[j]),
    {
        keys.push(sort_name(&lights[i]));
    }
    assert(char_seqs(keys@) =~= sort_keys(lights@));
    let order = stable_order(&keys);
    let mut views: Vec<LightView> = Vec::new();
    for i in 0..order.len()
        invariant
            is_interpolator(*interpolate),
            is_stable_order(sort_keys(lights@), order@),
            views@.len() == i,
            forall|j: int|
                0 <= j < i ==> shows_light(
                    #[trigger] views@[j],
                    lights@[order@[j] as int],
                    online_window@,
                    now,
                    *interpolate,
                ),
    {
        let at: usize = order[i];
        views.push(to_light_view(&lights[at], online_window, now, interpolate));
    }
    views
}

/// Every known light, as the control page shows it.
pub fn list_lights<F: Fn(Interpolation) -> u16>(
    state: &ControllerState,
    poll_interval: Duration,
    now: Instant,
    interpolate: &F,
) -> (r: Vec<LightView>)
    requires
        state@.wf(),
        is_interpolator(*interpolate),
    ensures
        exists|lights: Seq<ManagedLight>|
            {
                &&& lists(
                    lights.map_values(|light: ManagedLight| light.device.id),
                    state@.lights.dom(),
                )
                &&& forall|i: int|
                    0 <= i < lights.len() ==> state@.lights[(#[trigger] lights[i]).device.id]
                        == lights[i]
                &&& #[trigger] shows_lights(
                    r@,
                    lights,
                    window(poll_interval),
                    now,
                    *interpolate,
                )
            },
{
    let lights = state.lights();
    let views = view_lights(&lights, online_window(poll_interval), now, interpolate);
    assert(shows_lights(views@, lights@, window(poll_interval), now, *interpolate));
    views
}

pub open spec fn stored_name(stored: StoredLight) -> Seq<char> {
    display_text(stored.friendly_name, stored.device_label, stored.id)
}

/// `view` shows `stored`, and `known` of it where it was met.
pub open spec fn shows_managed(
    view: ManagedLightView,
    stored: StoredLight,
    known: Option<ManagedLight>,
    window: nat,
    now: Instant,
) -> bool {
    &&& view.id@ == shown_id(stored.id)
    &&& view.display_name@ == stored_name(stored)
    &&& view.device_label == stored.device_label
    &&& view.friendly_name == stored.friendly_name
    &&& view.control_enabled == stored.control_enabled
    &&& view.mode@ == mode_name(stored.mode)
    &&& view.online == (known matches Some(light) && online(light.last_observed, window, now))
    &&& match known {
        Some(light) => view.address == Some(light.device.addr),
        None => view.address is None,
    }
}

fn to_managed_view(
    stored: &StoredLight,
    known: Option<ManagedLight>,
    online_window: Duration,
    now: Instant,
) -> (r: ManagedLightView)
    ensures
        shows_managed(r, *stored, known, online_window@, now),
{
    let online = match &known {
        Some(light) => is_online(light.last_observed, online_window, now),
        None => false,
    };
    let address = match known {
        Some(light) => Some(light.device.addr),
        None => None,
    };
    ManagedLightView {
        id: format_shown_id(stored.id),
        display_name: display_name(&stored.friendly_name, &stored.device_label, stored.id),
        device_label: clone_optional(&stored.device_label),
        friendly_name: clone_optional(&stored.friendly_name),
        control_enabled: stored.control_enabled,
        mode: stored.mode.as_str(),
        online,
        address,
    }
}

/// The keys by which stored lights are ordered.
pub open spec fn stored_keys(configured: Seq<StoredLight>) -> Seq<Seq<char>> {
    configured.map_values(|stored: StoredLight| lowered(stored_name(stored)))
}

fn name_order(configured: &Vec<StoredLight>) -> (r: Vec<usize>)
    ensures
        is_stable_order(stored_keys(configured@), r@),
{
    let mut keys: Vec<Vec<char>> = Vec::new();
    for i in 0..configured.len()
        invariant
            keys@.len() == i,
            forall|j: int|
                0 <= j < i ==> (#[trigger] keys@[j])@ == lowered(stored_name(configured@[j])),
    {
        let name = display_name(
            &configured[i].friendly_name,
            &configured[i].device_label,
            configured[i].id,
        );
        keys.push(to_ascii_lowercase(name.as_str()));
    }
    assert(char_seqs(keys@) =~= stored_keys(configured@));
    stable_order(&keys)
}

/// `views` show `configured` in the order of their names.
pub open spec fn shows_configured(
    views: Seq<ManagedLightView>,
    configured: Seq<StoredLight>,
    model: ControllerModel,
    window: nat,
    now: Instant,
) -> bool {
    exists|order: Seq<usize>|
        {
            &&& #[trigger] is_stable_order(stored_keys(configured), order)
            &&& views.len() == order.len()
            &&& forall|i: int|
                0 <= i < views.len() ==> shows_managed(
                    #[trigger] views[i],
                    configured[order[i] as int],
                    model.known(configured[order[i] as int].id),
                    window,
                    now,
                )
        }
}

/// Stored lights in the order of their names; lights of one name stay in the order given.
pub fn view_managed_lights(
    configured: &Vec<StoredLight>,
    state: &ControllerState,
    online_window: Duration,
    now: Instant,
) -> (r: Vec<ManagedLightView>)
    ensures
        shows_configured(r@, configured@, state@, online_window@, now),
{
    let order = name_order(configured);
    let mut views: Vec<ManagedLightView> = Vec::new();
    for i in 0..order.len()
        invariant
            is_stable_order(stored_keys(configured@), order@),
            views@.len() == i,
            forall|j: int|
                0 <= j < i ==> shows_managed(
                    #[trigger] views@[j],
                    configured@[order@[j] as int],
                    state@.known(configured@[order@[j] as int].id),
                    online_window@,
                    now,
                ),
    {
        let at: usize = order[i];
        let known = state.light(configured[at].id);
        views.push(to_managed_view(&configured[at], known, online_window, now));
    }
    views
}

/// Every stored light, as the management page shows it.
pub fn list_managed_lights(state: &ControllerState, poll_interval: Duration, now: Instant) -> (r:
    Vec<ManagedLightView>)
    ensures
        exists|ids: Seq<LifxId>|
            {
                &&& lists(ids, state@.stored.dom())
                &&& #[trigger] shows_configured(
                    r@,
                    stored_in(state@, ids),
                    state@,
                    window(poll_interval),
                    now,
                )
            },
{
    let configured = state.configured_lights();
    view_managed_lights(&configured, state, online_window(poll_interval), now)
}

/// `option` offers `stored`, with `known` of it where it was met.
pub open spec fn offers(
    option: GroupLightOption,
    stored: StoredLight,
    known: Option<ManagedLight>,
    window: nat,
    now: Instant,
) -> bool {
    &&& option.id@ == shown_id(stored.id)
    &&& option.display_name@ == stored_name(stored)
    &&& option.control_enabled == stored.control_enabled
    &&& option.online == (known matches Some(light) && online(light.last_observed, window, now))
}

/// `options` offer `configured` in the order of their names.
pub open spec fn offers_configured(
    options: Seq<GroupLightOption>,
    configured: Seq<StoredLight>,
    model: ControllerModel,
    window: nat,
    now: Instant,
) -> bool {
    exists|order: Seq<usize>|
        {
            &&& #[trigger] is_stable_order(stored_keys(configured), order)
            &&& options.len() == order.len()
            &&& forall|i: int|
                0 <= i < options.len() ==> offers(
                    #[trigger] options[i],
                    configured[order[i] as int],
                    model.known(configured[order[i] as int].id),
                    window,
                    now,
                )
        }
}

/// The stored lights that a group can be made of, in the order of their names.
pub fn view_group_options(
    configured: &Vec<StoredLight>,
    state: &ControllerState,
    online_window: Duration,
    now: Instant,
) -> (r: Vec<GroupLightOption>)
    ensures
        offers_configured(r@, configured@, state@, online_window@, now),
{
    let order = name_order(configured);
    let mut options: Vec<GroupLightOption> = Vec::new();
    for i in 0..order.len()
        invariant
            is_stable_order(stored_keys(configured@), order@),
            options@.len() == i,
            forall|j: int|
                0 <= j < i ==> offers(
                    #[trigger] options@[j],
                    configured@[order@[j] as int],
                    state@.known(configured@[order@[j] as int].id),
                    online_window@,
                    now,
                ),
    {
        let at: usize = order[i];
        let online = match state.light(configured[at].id) {
            Some(light) => is_online(light.last_observed, online_window, now),
            None => false,
        };
        options.push(
            GroupLightOption {
                id: format_shown_id(configured[at].id),
                display_name: display_name(
                    &configured[at].friendly_name,
                    &configured[at].device_label,
                    configured[at].id,
                ),
                control_enabled: configured[at].control_enabled,
                online,
            },
        );
    }
    options
}

/// The lights whose control is enabled, in their order.
pub open spec fn controllable(lights: Seq<ManagedLight>) -> Seq<ManagedLight>
    decreases lights.len(),
{
    if lights.len() == 0 {
        Seq::empty()
    } else {
        let before = controllable(lights.drop_last());
        if lights.last().control_enabled {
            before.push(lights.last())
        } else {
            before
        }
    }
}

/// How many of the lights are online.
pub open spec fn online_among(lights: Seq<ManagedLight>, window: nat, now: Instant) -> nat
    decreases lights.len(),
{
    if lights.len() == 0 {
        0
    } else {
        online_among(lights.drop_last(), window, now) + if online(
            lights.last().last_observed,
            window,
            now,
        ) {
            1nat
        } else {
            0
        }
    }
}

/// The powers to show of those lights that have one.
pub open spec fn shown_powers(lights: Seq<ManagedLight>) -> Seq<Power>
    decreases lights.len(),
{
    if lights.len() == 0 {
        Seq::empty()
    } else {
        let before = shown_powers(lights.drop_last());
        match lights.last().shown_power() {
            Some(power) => before.push(power),
            None => before,
        }
    }
}

/// The levels to show of those lights that have one.
pub open spec fn shown_levels<F: Fn(Interpolation) -> u16>(
    lights: Seq<ManagedLight>,
    now: Instant,
    f: F,
) -> Seq<u16>
    decreases lights.len(),
{
    if lights.len() == 0 {
        Seq::empty()
    } else {
        let before = shown_levels(lights.drop_last(), now, f);
        match lights.last().shown_brightness(now, f) {
            Some(level) => before.push(level),
            None => before,
        }
    }
}

pub open spec fn total(levels: Seq<u16>) -> nat
    decreases levels.len(),
{
    if levels.len() == 0 {
        0
    } else {
        total(levels.drop_last()) + levels.last() as nat
    }
}

/// One word for the power of several lights; nothing where no light has one.
pub open spec fn common_power(powers: Seq<Power>) -> Option<Seq<char>> {
    if powers.len() == 0 {
        None
    } else if forall|i: int| 0 <= i < powers.len() ==> #[trigger] powers[i] == powers[0] {
        Some(
            match powers[0] {
                Power::On => "on"@,
                Power::Off => "off"@,
            },
        )
    } else {
        Some("mixed"@)
    }
}

/// The average level in whole percent; nothing where no light has a level.
pub open spec fn average_percent(levels: Seq<u16>) -> Option<u8> {
    if levels.len() == 0 {
        None
    } else {
        Some(level_percent((total(levels) / levels.len()) as int) as u8)
    }
}

/// `view` shows `group`, whose members among the known lights are `members`. The first member
/// whose control is enabled gives the colour.
pub open spec fn shows_group<F: Fn(Interpolation) -> u16>(
    view: GroupView,
    group: GroupModel,
    members: Seq<ManagedLight>,
    window: nat,
    now: Instant,
    f: F,
) -> bool {
    let lights = controllable(members);
    &&& view.id == group.id
    &&& view.name@ == group.name
    &&& texts(view.member_ids@) == group.member_ids.map_values(|id: LifxId| shown_id(id))
    &&& view.member_count == group.member_ids.len()
    &&& view.control_enabled_count == lights.len()
    &&& view.online_count == online_among(members, window, now)
    &&& match (view.power_state, common_power(shown_powers(lights))) {
        (Some(word), Some(text)) => word@ == text,
        (None, None) => true,
        _ => false,
    }
    &&& view.brightness_percent == average_percent(shown_levels(lights, now, f))
    &&& lights.len() == 0 ==> view.hue_degrees is None && view.saturation_percent is None
        && view.kelvin is None
    &&& lights.len() > 0 ==> {
        &&& view.hue_degrees == as_degrees(lights[0].shown_hue())
        &&& view.saturation_percent == as_percent(lights[0].shown_saturation())
        &&& view.kelvin == lights[0].shown_kelvin()
    }
}

pub(crate) fn keep_controllable(lights: &Vec<ManagedLight>) -> (r: Vec<ManagedLight>)
    ensures
        r@ == controllable(lights@),
{
    let mut kept: Vec<ManagedLight> = Vec::new();
    assert(lights@.take(0) =~= Seq::empty());
    for i in 0..lights.len()
        invariant
            kept@ == controllable(lights@.take(i as int)),
    {
        assert(lights@.take(i + 1).drop_last() =~= lights@.take(i as int));
        if lights[i].control_enabled {
            kept.push(lights[i].clone());
        }
    }
    assert(lights@.take(lights@.len() as int) =~= lights@);
    kept
}

fn count_online(lights: &Vec<ManagedLight>, online_window: Duration, now: Instant) -> (r: usize)
    ensures
        r == online_among(lights@, online_window@, now),
{
    let mut count: usize = 0;
    assert(lights@.take(0) =~= Seq::empty());
    for i in 0..lights.len()
        invariant
            count <= i,
            count == online_among(lights@.take(i as int), online_window@, now),
    {
        assert(lights@.take(i + 1).drop_last() =~= lights@.take(i as int));
        if is_online(lights[i].last_observed, online_window, now) {
            count += 1;
        }
    }
    assert(lights@.take(lights@.len() as int) =~= lights@);
    count
}

fn power_word(lights: &Vec<ManagedLight>) -> (r: Option<&'static str>)
    ensures
        match (r, common_power(shown_powers(lights@))) {
            (Some(word), Some(text)) => word@ == text,
            (None, None) => true,
            _ => false,
        },
{
    let mut powers: Vec<Power> = Vec::new();
    assert(lights@.take(0) =~= Seq::empty());
    for i in 0..lights.len()
        invariant
            powers@ == shown_powers(lights@.take(i as int)),
    {
        assert(lights@.take(i + 1).drop_last() =~= lights@.take(i as int));
        if let Some(power) = lights[i].power_to_show() {
            powers.push(power);
        }
    }
    assert(lights@.take(lights@.len() as int) =~= lights@);
    if powers.len() == 0 {
        return None;
    }
    let first = powers[0];
    for i in 1..powers.len()
        invariant
            powers@.len() > 0,
            powers@ == shown_powers(lights@),
            first == powers@[0],
            forall|j: int| 0 <= j < i ==> #[trigger] powers@[j] == powers@[0],
    {
        if powers[i] != first {
            assert(powers@[i as int] != powers@[0]);
            return Some("mixed");
        }
    }
    match first {
        Power::On => Some("on"),
        Power::Off => Some("off"),
    }
}

proof fn total_is_bounded(levels: Seq<u16>)
    ensures
        total(levels) <= 65_535 * levels.len(),
    decreases levels.len(),
{
    if levels.len() > 0 {
        total_is_bounded(levels.drop_last());
    }
}

fn average<F: Fn(Interpolation) -> u16>(
    lights: &Vec<ManagedLight>,
    now: Instant,
    interpolate: &F,
) -> (r: Option<u8>)
    requires
        is_interpolator(*interpolate),
    ensures
        r == average_percent(shown_levels(lights@, now, *interpolate)),
{
    let mut sum: u128 = 0;
    let mut count: u128 = 0;
    assert(lights@.take(0) =~= Seq::empty());
    for i in 0..lights.len()
        invariant
            is_interpolator(*interpolate),
            count <= i,
            count == shown_levels(lights@.take(i as int), now, *interpolate).len(),
            sum == total(shown_levels(lights@.take(i as int), now, *interpolate)),
    {
        let ghost before = shown_levels(lights@.take(i as int), now, *interpolate);
        assert(lights@.take(i + 1).drop_last() =~= lights@.take(i as int));
        proof {
            total_is_bounded(before);
        }
        if let Some(level) = lights[i].projected_brightness(now, interpolate) {
            assert(before.push(level).drop_last() =~= before);
            sum += level as u128;
            count += 1;
        }
    }
    assert(lights@.take(lights@.len() as int) =~= lights@);
    let ghost levels = shown_levels(lights@, now, *interpolate);
    if count == 0 {
        return None;
    }
    proof {
        total_is_bounded(levels);
        assert(sum / count <= 65_535) by (nonlinear_arith)
            requires
                sum <= 65_535 * count,
                count > 0,
        ;
    }
    let average: u16 = (sum / count) as u16;
    Some(u16_to_percent(average))
}

fn show_ids(ids: &Vec<LifxId>) -> (r: Vec<String>)
    ensures
        texts(r@) == ids@.map_values(|id: LifxId| shown_id(id)),
{
    let mut shown: Vec<String> = Vec::new();
    for i in 0..ids.len()
        invariant
            shown@.len() == i,
            forall|j: int| 0 <= j < i ==> (#[trigger] shown@[j])@ == shown_id(ids@[j]),
    {
        shown.push(format_shown_id(ids[i]));
    }
    assert(texts(shown@) =~= ids@.map_values(|id: LifxId| shown_id(id)));
    shown
}

/// A group with what its known members say of it.
pub fn to_group_view<F: Fn(Interpolation) -> u16>(
    group: &LightGroup,
    members: &Vec<ManagedLight>,
    online_window: Duration,
    now: Instant,
    interpolate: &F,
) -> (r: GroupView)
    requires
        is_interpolator(*interpolate),
    ensures
        shows_group(r, group@, members@, online_window@, now, *interpolate),
{
    let lights = keep_controllable(members);
    let (hue, saturation, kelvin): (Option<u16>, Option<u16>, Option<u16>) = if lights.len() > 0 {
        (lights[0].hue_to_show(), lights[0].saturation_to_show(), lights[0].kelvin_to_show())
    } else {
        (None, None, None)
    };
    GroupView {
        id: group.id,
        name: group.name.clone(),
        member_ids: show_ids(&group.member_ids),
        member_count: group.member_ids.len(),
        control_enabled_count: lights.len(),
        online_count: count_online(members, online_window, now),
        power_state: power_word(&lights),
        brightness_percent: average(&lights, now, interpolate),
        hue_degrees: to_degrees(hue),
        saturation_percent: to_percent(saturation),
        kelvin,
    }
}

/// The keys by which groups are ordered.
pub open spec fn group_keys(groups: Seq<LightGroup>) -> Seq<Seq<char>> {
    groups.map_values(|group: LightGroup| lowered(group.name@))
}

/// `views` show `groups` in the order of their names.
pub open spec fn shows_groups<F: Fn(Interpolation) -> u16>(
    views: Seq<GroupView>,
    groups: Seq<LightGroup>,
    model: ControllerModel,
    window: nat,
    now: Instant,
    f: F,
) -> bool {
    exists|order: Seq<usize>|
        {
            &&& #[trigger] is_stable_order(group_keys(groups), order)
            &&& views.len() == order.len()
            &&& forall|i: int|
                0 <= i < views.len() ==> shows_group(
                    #[trigger] views[i],
                    groups[order[i] as int]@,
                    known_among(groups[order[i] as int].member_ids@, model.lights),
                    window,
                    now,
                    f,
                )
        }
}

/// Groups in the order of their names; groups of one name stay in the order given.
pub fn view_groups<F: Fn(Interpolation) -> u16>(
    groups: &Vec<LightGroup>,
    state: &ControllerState,
    online_window: Duration,
    now: Instant,
    interpolate: &F,
) -> (r: Vec<GroupView>)
    requires
        is_interpolator(*interpolate),
    ensures
        shows_groups(r@, groups@, state@, online_window@, now, *interpolate),
{
    let mut keys: Vec<Vec<char>> = Vec::new();
    for i in 0..groups.len()
        invariant
            keys@.len() == i,
            forall|j: int| 0 <= j < i ==> (#[trigger] keys@[j])@ == lowered(groups@[j].name@),
    {
        keys.push(to_ascii_lowercase(groups[i].name.as_str()));
    }
    assert(char_seqs(keys@) =~= group_keys(groups@));
    let order = stable_order(&keys);
    let mut views: Vec<GroupView> = Vec::new();
    for i in 0..order.len()
        invariant
            is_interpolator(*interpolate),
            is_stable_order(group_keys(groups@), order@),
            views@.len() == i,
            forall|j: int|
                0 <= j < i ==> shows_group(
                    #[trigger] views@[j],
                    groups@[order@[j] as int]@,
                    known_among(groups@[order@[j] as int].member_ids@, state@.lights),
                    online_window@,
                    now,
                    *interpolate,
                ),
    {
        let at: usize = order[i];
        let members = state.known_lights(&groups[at].member_ids);
        views.push(to_group_view(&groups[at], &members, online_window, now, interpolate));
    }
    views
}

/// Every group, and every stored light that a group can be made of.
pub fn list_groups<F: Fn(Interpolation) -> u16>(
    state: &ControllerState,
    poll_interval: Duration,
    now: Instant,
    interpolate: &F,
) -> (r: GroupsView)
    requires
        state@.wf(),
        is_interpolator(*interpolate),
    ensures
        exists|groups: Seq<LightGroup>|
            {
                &&& groups.map_values(|group: LightGroup| group.id).no_duplicates()
                &&& groups.map_values(|group: LightGroup| group.id).to_set() == state@.groups.dom()
                &&& forall|i: int|
                    0 <= i < groups.len() ==> state@.groups[(#[trigger] groups[i]).id]
                        == groups[i]@
                &&& #[trigger] shows_groups(
                    r.groups@,
                    groups,
                    state@,
                    window(poll_interval),
                    now,
                    *interpolate,
                )
            },
        exists|ids: Seq<LifxId>|
            {
                &&& lists(ids, state@.stored.dom())
                &&& #[trigger] offers_configured(
                    r.lights@,
                    stored_in(state@, ids),
                    state@,
                    window(poll_interval),
                    now,
                )
            },
{
    let span = online_window(poll_interval);
    let configured = state.configured_lights();
    let ghost ids = choose|ids: Seq<LifxId>|
        lists(ids, state@.stored.dom()) && configured@ == #[trigger] stored_in(state@, ids);
    let lights = view_group_options(&configured, state, span, now);
    let groups = state.groups();
    let views = view_groups(&groups, state, span, now, interpolate);
    let r = GroupsView { groups: views, lights };
    assert(shows_groups(r.groups@, groups@, state@, window(poll_interval), now, *interpolate));
    assert(offers_configured(
        r.lights@,
        stored_in(state@, ids),
        state@,
        window(poll_interval),
        now,
    ));
    r
}

} // verus!

//! Manual control of lights and groups over the web, one step per outside reply.
//!
//! Power leaves a light in its mode: in Test Mode a manual command is a temporary choice over the
//! mode's schedule. Brightness and colour take a light out of its mode first.
use vstd::prelude::*;

use crate::clock::{Duration, Instant};
use crate::controller::{ControllerState, ModeChange};
use crate::device::{Color, LifxDevice, LifxId, LightState, Power};
use crate::registry::{Interpolation, LightMode, ManagedLight};
use crate::store::StoreError;
use crate::views::keep_controllable;
use crate::web::{
    hue_degrees_to_u16, parse_lifx_id, percent_to_u16, require_control_enabled, ApiError,
};
#[allow(unused_imports)]
use crate::controller::{known_among, planned_mode, ControllerModel};
#[allow(unused_imports)]
use crate::laws::commands::group_power_changes_power_only;
#[allow(unused_imports)]
use crate::registry::{color_target, is_interpolator};
#[allow(unused_imports)]
use crate::views::{as_degrees, as_percent, controllable};
#[allow(unused_imports)]
use crate::web::{
    control_disabled, hue_level, hue_reads_back, invalid_id, lifx_answer, percent_level,
    percent_reads_back, refused, requested_id, store_answer, unknown_group, unknown_light,
    ApiErrorModel, BAD_REQUEST, CONFLICT,
};

verus! {

/// How long a manual power command fades, in milliseconds.
pub const MANUAL_TRANSITION_MS: u64 = 250;

/// How long a live brightness or colour command fades, in milliseconds.
pub const LIVE_CONTROL_TRANSITION_MS: u64 = 100;

/// How long after a manual command the light is read back, in milliseconds.
pub const MANUAL_CONFIRM_DELAY_MS: u64 = 350;

pub fn manual_transition() -> (r: Duration)
    ensures
        r@ == 250_000_000,
{
    Duration::from_millis(MANUAL_TRANSITION_MS)
}

pub fn live_control_transition() -> (r: Duration)
    ensures
        r@ == 100_000_000,
{
    Duration::from_millis(LIVE_CONTROL_TRANSITION_MS)
}

pub fn manual_confirm_delay() -> (r: Duration)
    ensures
        r@ == 350_000_000,
{
    Duration::from_millis(MANUAL_CONFIRM_DELAY_MS)
}

pub open spec fn asked_power(on: bool) -> Power {
    if on {
        Power::On
    } else {
        Power::Off
    }
}

fn requested_power(on: bool) -> (r: Power)
    ensures
        r == asked_power(on),
{
    if on {
        Power::On
    } else {
        Power::Off
    }
}

/// The light that a request may command: it is named properly, known, and under control.
pub open spec fn commanded(model: ControllerModel, id_text: Seq<char>) -> Result<
    LifxId,
    ApiErrorModel,
> {
    match requested_id(id_text) {
        None => Err(invalid_id()),
        Some(id) => if !model.lights.contains_key(id) {
            Err(unknown_light())
        } else if !model.lights[id].control_enabled {
            Err(control_disabled())
        } else {
            Ok(id)
        },
    }
}

/// The light that a request may command, as it is now.
pub fn commanded_light(state: &ControllerState, id_text: &str) -> (r: Result<
    (LifxId, ManagedLight),
    ApiError,
>)
    ensures
        r matches Ok((id, light)) ==> requested_id(id_text@) == Some(id) && state@.lights.contains_key(id)
            && light == state@.lights[id] && light.control_enabled,
        match (r, commanded(state@, id_text@)) {
            (Ok((id, light)), Ok(named)) => id == named && light == state@.lights[id],
            (Err(err), Err(answer)) => err@ == answer,
            _ => false,
        },
{
    let id: LifxId = match parse_lifx_id(id_text) {
        Ok(id) => id,
        Err(err) => return Err(err),
    };
    let light = match state.light(id) {
        Some(light) => light,
        None => return Err(ApiError::not_found("unknown light")),
    };
    match require_control_enabled(&light) {
        Ok(_) => Ok((id, light)),
        Err(err) => Err(err),
    }
}

/// A manual power command that is on its way to a light.
#[derive(Debug)]
pub struct PowerCommand {
    pub id: LifxId,
    pub device: LifxDevice,
    pub power: Power,
    /// Whether the light was in Test Mode, where the command is a temporary choice.
    pub overrides: bool,
    pub previous_override: Option<Power>,
    pub previous_desired: Option<Power>,
}

/// A light told to have `power`; in Test Mode this is also a manual choice.
pub open spec fn powered(model: ControllerModel, id: LifxId, power: Power) -> ControllerModel {
    if model.lights[id].mode == LightMode::Test {
        model.with_power_override(id, Some(power)).with_desired_power(id, Some(power))
    } else {
        model.with_desired_power(id, Some(power))
    }
}

impl PowerCommand {
    /// Remembers what a light was told before, and tells it `on`.
    pub fn begin(state: &mut ControllerState, id_text: &str, on: bool) -> (r: Result<
        PowerCommand,
        ApiError,
    >)
        requires
            old(state)@.wf(),
        ensures
            r is Err ==> final(state)@ == old(state)@,
            r matches Ok(command) ==> {
                &&& requested_id(id_text@) == Some(command.id)
                &&& old(state)@.known(command.id) is Some
                &&& command.device == old(state)@.lights[command.id].device
                &&& command.power == Power::On <==> on
                &&& command.previous_desired == old(state)@.lights[command.id].desired_power
                &&& command.previous_override == old(state)@.lights[command.id].power_override
                &&& final(state)@.lights[command.id].desired_power == Some(command.power)
                &&& final(state)@.lights[command.id].mode == old(state)@.lights[command.id].mode
            },
            final(state)@.wf(),
            match (r, commanded(old(state)@, id_text@)) {
                (Ok(command), Ok(id)) => {
                    let light = old(state)@.lights[id];
                    &&& command == PowerCommand {
                        id,
                        device: light.device,
                        power: asked_power(on),
                        overrides: light.mode == LightMode::Test,
                        previous_override: light.power_override,
                        previous_desired: light.desired_power,
                    }
                    &&& final(state)@ == powered(old(state)@, id, asked_power(on))
                },
                (Err(err), Err(answer)) => err@ == answer && final(state)@ == old(state)@,
                _ => false,
            },
    {
        let (id, light): (LifxId, ManagedLight) = match commanded_light(state, id_text) {
            Ok(found) => found,
            Err(err) => return Err(err),
        };
        let power = requested_power(on);
        let overrides = light.mode == LightMode::Test;
        let previous_override = if overrides {
            match state.set_power_override(id, Some(power)) {
                Some(previous) => previous,
                None => None,
            }
        } else {
            light.power_override
        };
        let previous_desired = match state.set_desired_power(id, Some(power)) {
            Some(previous) => previous,
            None => None,
        };
        Ok(
            PowerCommand {
                id,
                device: light.device,
                power,
                overrides,
                previous_override,
                previous_desired,
            },
        )
    }

    /// The state after a failed command: what the light was told before is back.
    pub open spec fn undone(self, model: ControllerModel) -> ControllerModel {
        let restored = model.with_desired_power(self.id, self.previous_desired);
        if self.overrides {
            restored.with_power_override(self.id, self.previous_override)
        } else {
            restored
        }
    }

    /// Takes the light's answer: a command that it accepted is confirmed by reading the light
    /// back, and one that it did not accept is taken back.
    pub fn sent(self, state: &mut ControllerState, reply: Result<(), String>) -> (r: Result<
        AwaitConfirm,
        ApiError,
    >)
        requires
            old(state)@.wf(),
        ensures
            r is Ok <==> reply is Ok,
            r matches Ok(waiting) ==> waiting.id == self.id && waiting.device == self.device,
            reply is Err && old(state)@.known(self.id) is Some ==> final(state)@.lights[self.id].desired_power
                == self.previous_desired,
            final(state)@.wf(),
            match reply {
                Ok(_) => {
                    &&& r == Ok::<AwaitConfirm, ApiError>(
                        AwaitConfirm { id: self.id, device: self.device },
                    )
                    &&& final(state)@ == old(state)@
                },
                Err(error) => {
                    &&& r matches Err(err)
                    &&& err@ == lifx_answer(error@)
                    &&& final(state)@ == self.undone(old(state)@)
                },
            },
    {
        match reply {
            Ok(_) => Ok(AwaitConfirm { id: self.id, device: self.device }),
            Err(error) => {
                let _ = state.set_desired_power(self.id, self.previous_desired);
                if self.overrides {
                    let _ = state.set_power_override(self.id, self.previous_override);
                }
                Err(ApiError::lifx(error.as_str()))
            },
        }
    }
}

/// A manual command that the light accepted: after a moment the light is to be read back.
#[derive(Debug)]
pub struct AwaitConfirm {
    pub id: LifxId,
    pub device: LifxDevice,
}

impl AwaitConfirm {
    /// Records what was read back, if the light could be read.
    pub fn read(self, state: &mut ControllerState, observed: Option<LightState>, now: Instant)
        requires
            old(state)@.wf(),
        ensures
            observed is Some && old(state)@.known(self.id) is Some ==> {
                &&& final(state)@.lights[self.id].observed == observed
                &&& final(state)@.lights[self.id].last_observed == Some(now)
            },
            final(state)@.wf(),
            final(state)@ == match observed {
                Some(seen) => old(state)@.with_observation(self.id, seen, now),
                None => old(state)@,
            },
    {
        if let Some(seen) = observed {
            let _ = state.record_observation(self.id, seen, now);
        }
    }
}

/// A power command that fails leaves everything as it was before it.
pub proof fn failed_power_changes_nothing(model: ControllerModel, id: LifxId, power: Power)
    requires
        model.lights.contains_key(id),
    ensures
        ({
            let light = model.lights[id];
            let command = PowerCommand {
                id,
                device: light.device,
                power,
                overrides: light.mode == LightMode::Test,
                previous_override: light.power_override,
                previous_desired: light.desired_power,
            };
            command.undone(powered(model, id, power)) == model
        }),
{
    let light = model.lights[id];
    let command = PowerCommand {
        id,
        device: light.device,
        power,
        overrides: light.mode == LightMode::Test,
        previous_override: light.power_override,
        previous_desired: light.desired_power,
    };
    let after = command.undone(powered(model, id, power));
    assert(after.lights[id] == light);
    assert(after.lights =~= model.lights);
    assert(after =~= model);
}

/// A manual power command never takes a light out of its mode.
pub proof fn power_keeps_mode(model: ControllerModel, id: LifxId, power: Power, other: LifxId)
    requires
        model.lights.contains_key(id),
        model.lights.contains_key(other),
    ensures
        powered(model, id, power).lights[other].mode == model.lights[other].mode,
        powered(model, id, power).stored == model.stored,
        other != id ==> powered(model, id, power).lights[other] == model.lights[other],
        powered(model, id, power).lights[id].shown_power() == Some(power),
        model.lights[id].mode == LightMode::Test ==> powered(model, id, power).lights[id]
            .power_override == Some(power),
{
}

/// A tint: hue and saturation on a bulb's scale.
#[derive(Clone, Copy, Debug, PartialEq, Eq, Structural)]
pub struct Tint {
    pub hue: u16,
    pub saturation: u16,
}

/// What a live control changes.
#[derive(Clone, Copy, Debug, PartialEq, Eq, Structural)]
pub enum Gesture {
    Brightness(u16),
    Tint(Tint),
}

/// A brightness or colour command for one light, which it takes out of its mode.
#[derive(Debug)]
pub struct LiveControl {
    pub id: LifxId,
    /// The light as it was when the command came.
    pub light: ManagedLight,
    pub gesture: Gesture,
    /// Whether the light is to be read back once it has accepted the command.
    pub confirm: bool,
}

/// What a live control needs next.
#[derive(Debug)]
pub enum LiveStep {
    /// Custom Mode is to be stored for the light.
    StoreMode(AwaitMode),
    /// The light is to be read.
    ReadLight(AwaitLight),
    /// The colour is to be sent to the light.
    SendColor(AwaitColor),
    /// After a moment the light is to be read back.
    Confirm(AwaitConfirm),
    Done,
    Refused(ApiError),
}

/// A live control that waits for the store.
#[derive(Debug)]
pub struct AwaitMode {
    pub control: LiveControl,
    pub previous: LightMode,
}

/// A live control that waits for the light's state.
#[derive(Debug)]
pub struct AwaitLight {
    pub control: LiveControl,
}

/// A live control that waits for the light to accept a colour.
#[derive(Debug)]
pub struct AwaitColor {
    pub control: LiveControl,
    pub color: Color,
}

/// The state once a light has left its mode: leaving Test Mode drops a manual power choice.
pub open spec fn taken_over(
    model: ControllerModel,
    id: LifxId,
    previous: LightMode,
) -> ControllerModel {
    let left = model.with_mode(id, LightMode::Custom);
    if previous == LightMode::Test {
        left.with_power_override(id, None)
    } else {
        left
    }
}

/// The colour that keeps a light's hue, saturation and temperature: those commanded last, else
/// those observed.
pub open spec fn recoloured(light: ManagedLight, observed: LightState, brightness: u16) -> Color {
    match light.desired_color {
        Some(color) => Color {
            hue: color.hue,
            saturation: color.saturation,
            brightness,
            kelvin: color.kelvin,
        },
        None => Color {
            hue: observed.hue,
            saturation: observed.saturation,
            brightness,
            kelvin: observed.kelvin,
        },
    }
}

/// The colour that keeps a light's brightness and temperature: what is shown of them, else what
/// was observed.
pub open spec fn tinted<F: Fn(Interpolation) -> u16>(
    light: ManagedLight,
    observed: LightState,
    tint: Tint,
    now: Instant,
    f: F,
) -> Color {
    Color {
        hue: tint.hue,
        saturation: tint.saturation,
        brightness: match light.shown_brightness(now, f) {
            Some(level) => level,
            None => observed.brightness,
        },
        kelvin: match light.desired_color {
            Some(color) => color.kelvin,
            None => observed.kelvin,
        },
    }
}

/// The colour to send for a gesture.
pub open spec fn gesture_color<F: Fn(Interpolation) -> u16>(
    light: ManagedLight,
    observed: LightState,
    gesture: Gesture,
    now: Instant,
    f: F,
) -> Color {
    match gesture {
        Gesture::Brightness(level) => recoloured(light, observed, level),
        Gesture::Tint(tint) => tinted(light, observed, tint, now, f),
    }
}

/// The state after a light accepted the colour of a gesture. A tint freezes the brightness at the
/// level that was sent along, so that a colour never makes the brightness jump.
pub open spec fn accepted(
    model: ControllerModel,
    id: LifxId,
    gesture: Gesture,
    color: Color,
) -> ControllerModel {
    match gesture {
        Gesture::Brightness(level) => model.with_desired_brightness(id, level),
        Gesture::Tint(_) => coloured(model, id, color),
    }
}

impl LiveControl {
    /// What comes once the light is out of its mode: the last observation serves as long as there
    /// is one, since reading the light before every command would hold up a live control.
    pub open spec fn command<F: Fn(Interpolation) -> u16>(self, now: Instant, f: F) -> LiveStep {
        match self.light.observed {
            Some(observed) => LiveStep::SendColor(
                AwaitColor {
                    control: self,
                    color: gesture_color(self.light, observed, self.gesture, now, f),
                },
            ),
            None => LiveStep::ReadLight(AwaitLight { control: self }),
        }
    }

    fn color_for<F: Fn(Interpolation) -> u16>(
        &self,
        observed: LightState,
        now: Instant,
        interpolate: &F,
    ) -> (r: Color)
        requires
            is_interpolator(*interpolate),
        ensures
            r == gesture_color(self.light, observed, self.gesture, now, *interpolate),
    {
        match self.gesture {
            Gesture::Brightness(brightness) => match self.light.desired_color {
                Some(color) => Color {
                    hue: color.hue,
                    saturation: color.saturation,
                    brightness,
                    kelvin: color.kelvin,
                },
                None => Color {
                    hue: observed.hue,
                    saturation: observed.saturation,
                    brightness,
                    kelvin: observed.kelvin,
                },
            },
            Gesture::Tint(tint) => {
                let brightness: u16 = match self.light.projected_brightness(now, interpolate) {
                    Some(level) => level,
                    None => observed.brightness,
                };
                let kelvin: u16 = match self.light.desired_color {
                    Some(color) => color.kelvin,
                    None => observed.kelvin,
                };
                Color { hue: tint.hue, saturation: tint.saturation, brightness, kelvin }
            },
        }
    }

    fn next<F: Fn(Interpolation) -> u16>(self, now: Instant, interpolate: &F) -> (r: LiveStep)
        requires
            is_interpolator(*interpolate),
        ensures
            r == self.command(now, *interpolate),
    {
        match self.light.observed {
            Some(observed) => {
                let color = self.color_for(observed, now, interpolate);
                LiveStep::SendColor(AwaitColor { control: self, color })
            },
            None => LiveStep::ReadLight(AwaitLight { control: self }),
        }
    }

    /// Where a live control starts: with the store, unless the light is in Custom Mode already.
    pub fn start<F: Fn(Interpolation) -> u16>(
        self,
        state: &ControllerState,
        now: Instant,
        interpolate: &F,
    ) -> (r: LiveStep)
        requires
            is_interpolator(*interpolate),
        ensures
            r is StoreMode <==> state@.known(self.id) is Some && state@.lights[self.id].mode
                != LightMode::Custom,
            !(r is StoreMode) ==> (r is ReadLight <==> self.light.observed is None),
            !(r is Refused) && !(r is Done) && !(r is Confirm),
            r == match planned_mode(state@, self.id, LightMode::Custom) {
                ModeChange::Persist { previous } => LiveStep::StoreMode(
                    AwaitMode { control: self, previous },
                ),
                _ => self.command(now, *interpolate),
            },
    {
        match state.plan_mode(self.id, LightMode::Custom) {
            ModeChange::Persist { previous } => LiveStep::StoreMode(
                AwaitMode { control: self, previous },
            ),
            _ => self.next(now, interpolate),
        }
    }
}

impl AwaitMode {
    /// Takes the store's reply; where it refuses, nothing is sent to the light.
    pub fn stored<F: Fn(Interpolation) -> u16>(
        self,
        state: &mut ControllerState,
        reply: Result<(), StoreError>,
        now: Instant,
        interpolate: &F,
    ) -> (r: LiveStep)
        requires
            old(state)@.wf(),
            is_interpolator(*interpolate),
        ensures
            r is Refused <==> reply is Err,
            reply is Err ==> final(state)@ == old(state)@,
            reply is Ok ==> (r is ReadLight <==> self.control.light.observed is None),
            reply is Ok && old(state)@.known(self.control.id) is Some
                ==> final(state)@.lights[self.control.id].mode == LightMode::Custom,
            final(state)@.wf(),
            match reply {
                Ok(_) => {
                    &&& r == self.control.command(now, *interpolate)
                    &&& final(state)@ == taken_over(old(state)@, self.control.id, self.previous)
                },
                Err(err) => {
                    &&& r matches LiveStep::Refused(answer)
                    &&& answer@ == store_answer(err)
                    &&& final(state)@ == old(state)@
                },
            },
    {
        match state.set_mode(self.control.id, LightMode::Custom, self.previous, reply) {
            Ok(_) => {},
            Err(err) => return LiveStep::Refused(ApiError::store(err)),
        }
        if self.previous == LightMode::Test {
            let _ = state.set_power_override(self.control.id, None);
        }
        self.control.next(now, interpolate)
    }
}

impl AwaitLight {
    /// Takes the light's state, or what its client said where it could not be read.
    pub fn read<F: Fn(Interpolation) -> u16>(
        self,
        reply: Result<LightState, String>,
        now: Instant,
        interpolate: &F,
    ) -> (r: LiveStep)
        requires
            is_interpolator(*interpolate),
        ensures
            r is SendColor <==> reply is Ok,
            r is Refused <==> reply is Err,
            match reply {
                Ok(observed) => r == LiveStep::SendColor(
                    AwaitColor {
                        control: self.control,
                        color: gesture_color(
                            self.control.light,
                            observed,
                            self.control.gesture,
                            now,
                            *interpolate,
                        ),
                    },
                ),
                Err(error) => r matches LiveStep::Refused(answer) && answer@ == lifx_answer(error@),
            },
    {
        match reply {
            Ok(observed) => {
                let color = self.control.color_for(observed, now, interpolate);
                LiveStep::SendColor(AwaitColor { control: self.control, color })
            },
            Err(error) => LiveStep::Refused(ApiError::lifx(error.as_str())),
        }
    }
}

impl AwaitColor {
    /// Takes the light's answer. Only what it accepted is remembered.
    pub fn sent(self, state: &mut ControllerState, reply: Result<(), String>) -> (r: LiveStep)
        requires
            old(state)@.wf(),
        ensures
            r is Refused <==> reply is Err,
            r is Confirm <==> reply is Ok && self.control.confirm,
            r is Done <==> reply is Ok && !self.control.confirm,
            reply is Err ==> final(state)@ == old(state)@,
            reply is Ok && old(state)@.known(self.control.id) is Some ==> {
                let light = final(state)@.lights[self.control.id];
                &&& light.brightness_transition is None
                &&& self.control.gesture matches Gesture::Brightness(level) ==> light.desired_brightness
                    == Some(level)
                &&& self.control.gesture is Tint ==> light.desired_brightness == Some(
                    self.color.brightness,
                ) && light.desired_color is Some && light.desired_color->0.hue == self.color.hue
            },
            final(state)@.wf(),
            match reply {
                Ok(_) => {
                    &&& r == if self.control.confirm {
                        LiveStep::Confirm(
                            AwaitConfirm {
                                id: self.control.id,
                                device: self.control.light.device,
                            },
                        )
                    } else {
                        LiveStep::Done
                    }
                    &&& final(state)@ == accepted(
                        old(state)@,
                        self.control.id,
                        self.control.gesture,
                        self.color,
                    )
                },
                Err(error) => {
                    &&& r matches LiveStep::Refused(answer)
                    &&& answer@ == lifx_answer(error@)
                    &&& final(state)@ == old(state)@
                },
            },
    {
        if let Err(error) = reply {
            return LiveStep::Refused(ApiError::lifx(error.as_str()));
        }
        let id: LifxId = self.control.id;
        match self.control.gesture {
            Gesture::Brightness(level) => {
                let _ = state.set_desired_brightness(id, level);
            },
            Gesture::Tint(_) => {
                let _ = state.set_desired_color(id, self.color);
                let _ = state.set_desired_brightness(id, self.color.brightness);
            },
        }
        if self.control.confirm {
            LiveStep::Confirm(AwaitConfirm { id, device: self.control.light.device })
        } else {
            LiveStep::Done
        }
    }
}

/// The state after a light accepted a colour.
pub open spec fn coloured(model: ControllerModel, id: LifxId, color: Color) -> ControllerModel {
    model.with_desired_color(id, color).with_desired_brightness(id, color.brightness)
}

/// A colour command keeps the brightness: at any later time the light shows the level that was
/// shown when the command was made, even if a transition was under way.
pub proof fn color_keeps_brightness<F: Fn(Interpolation) -> u16>(
    model: ControllerModel,
    id: LifxId,
    observed: LightState,
    tint: Tint,
    now: Instant,
    later: Instant,
    f: F,
)
    requires
        model.lights.contains_key(id),
        model.lights[id].shown_brightness(now, f) is Some,
    ensures
        ({
            let light = model.lights[id];
            let color = tinted(light, observed, tint, now, f);
            accepted(model, id, Gesture::Tint(tint), color).lights[id].shown_brightness(later, f)
                == light.shown_brightness(now, f)
        }),
{
}

/// A brightness command keeps the colour that was commanded, and is shown at once.
pub proof fn brightness_keeps_color<F: Fn(Interpolation) -> u16>(
    model: ControllerModel,
    id: LifxId,
    observed: LightState,
    brightness: u16,
    later: Instant,
    f: F,
)
    requires
        model.lights.contains_key(id),
    ensures
        ({
            let light = model.lights[id];
            let color = recoloured(light, observed, brightness);
            let after = accepted(model, id, Gesture::Brightness(brightness), color).lights[id];
            &&& after.desired_color == light.desired_color
            &&& light.desired_color matches Some(target) ==> color_target(color) == target
            &&& after.shown_brightness(later, f) == Some(brightness)
        }),
{
}

/// Once a light has been taken over, it is in Custom Mode in memory and as stored, and no manual
/// power choice is left from Test Mode.
pub proof fn takeover_leaves_mode(model: ControllerModel, id: LifxId)
    requires
        model.lights.contains_key(id),
    ensures
        ({
            let previous = model.lights[id].mode;
            let after = taken_over(model, id, previous);
            &&& after.lights[id].mode == LightMode::Custom
            &&& after.stored.contains_key(id) ==> after.stored[id].mode == LightMode::Custom
            &&& previous == LightMode::Test ==> after.lights[id].power_override is None
        }),
{
}

pub open spec fn brightness_level(percent: u8) -> Result<u16, ApiErrorModel> {
    if percent > 100 {
        Err(refused(BAD_REQUEST, "brightness percent must be 0-100"@))
    } else {
        Ok(percent_level(percent as int) as u16)
    }
}

/// The level of a requested brightness.
pub fn requested_brightness(percent: u8) -> (r: Result<u16, ApiError>)
    ensures
        match (r, brightness_level(percent)) {
            (Ok(level), Ok(asked)) => level == asked,
            (Err(err), Err(answer)) => err@ == answer,
            _ => false,
        },
{
    if percent > 100 {
        return Err(ApiError::bad_request("brightness percent must be 0-100"));
    }
    Ok(percent_to_u16(percent))
}

pub open spec fn tint_level(degrees: u16, saturation_percent: u8) -> Result<Tint, ApiErrorModel> {
    if degrees > 360 {
        Err(refused(BAD_REQUEST, "hue must be 0-360 degrees"@))
    } else if saturation_percent > 100 {
        Err(refused(BAD_REQUEST, "saturation percent must be 0-100"@))
    } else {
        Ok(
            Tint {
                hue: hue_level(degrees as int) as u16,
                saturation: percent_level(saturation_percent as int) as u16,
            },
        )
    }
}

/// The levels of a requested hue and saturation.
pub fn requested_tint(degrees: u16, saturation_percent: u8) -> (r: Result<Tint, ApiError>)
    ensures
        match (r, tint_level(degrees, saturation_percent)) {
            (Ok(tint), Ok(asked)) => tint == asked,
            (Err(err), Err(answer)) => err@ == answer,
            _ => false,
        },
{
    if degrees > 360 {
        return Err(ApiError::bad_request("hue must be 0-360 degrees"));
    }
    if saturation_percent > 100 {
        return Err(ApiError::bad_request("saturation percent must be 0-100"));
    }
    Ok(Tint { hue: hue_degrees_to_u16(degrees), saturation: percent_to_u16(saturation_percent) })
}

/// A brightness request for one light. The last one of a gesture is confirmed.
pub fn begin_brightness(
    state: &ControllerState,
    id_text: &str,
    percent: u8,
    final_update: bool,
) -> (r: Result<LiveControl, ApiError>)
    ensures
        r matches Ok(control) ==> {
            &&& percent <= 100
            &&& requested_id(id_text@) == Some(control.id)
            &&& state@.known(control.id) == Some(control.light)
            &&& control.light.control_enabled
            &&& control.confirm == final_update
            &&& control.gesture is Brightness
        },
        match (r, brightness_level(percent), commanded(state@, id_text@)) {
            (Ok(control), Ok(level), Ok(id)) => control == (LiveControl {
                id,
                light: state@.lights[id],
                gesture: Gesture::Brightness(level),
                confirm: final_update,
            }),
            (Err(err), Err(answer), _) => err@ == answer,
            (Err(err), Ok(_), Err(answer)) => err@ == answer,
            _ => false,
        },
{
    let gesture = match requested_brightness(percent) {
        Ok(level) => Gesture::Brightness(level),
        Err(err) => return Err(err),
    };
    match commanded_light(state, id_text) {
        Ok((id, light)) => Ok(LiveControl { id, light, gesture, confirm: final_update }),
        Err(err) => Err(err),
    }
}

/// A colour request for one light. The last one of a gesture is confirmed.
pub fn begin_color(
    state: &ControllerState,
    id_text: &str,
    degrees: u16,
    saturation_percent: u8,
    final_update: bool,
) -> (r: Result<LiveControl, ApiError>)
    ensures
        r matches Ok(control) ==> {
            &&& degrees <= 360 && saturation_percent <= 100
            &&& requested_id(id_text@) == Some(control.id)
            &&& state@.known(control.id) == Some(control.light)
            &&& control.light.control_enabled
            &&& control.confirm == final_update
            &&& control.gesture is Tint
        },
        match (r, tint_level(degrees, saturation_percent), commanded(state@, id_text@)) {
            (Ok(control), Ok(tint), Ok(id)) => control == (LiveControl {
                id,
                light: state@.lights[id],
                gesture: Gesture::Tint(tint),
                confirm: final_update,
            }),
            (Err(err), Err(answer), _) => err@ == answer,
            (Err(err), Ok(_), Err(answer)) => err@ == answer,
            _ => false,
        },
{
    let gesture = match requested_tint(degrees, saturation_percent) {
        Ok(tint) => Gesture::Tint(tint),
        Err(err) => return Err(err),
    };
    match commanded_light(state, id_text) {
        Ok((id, light)) => Ok(LiveControl { id, light, gesture, confirm: final_update }),
        Err(err) => Err(err),
    }
}

/// The lights of a group that may be commanded: at least one.
pub open spec fn commanded_group(model: ControllerModel, group: i64) -> Result<
    Seq<ManagedLight>,
    ApiErrorModel,
> {
    if !model.groups.contains_key(group) {
        Err(unknown_group())
    } else {
        let lights = controllable(known_among(model.groups[group].member_ids, model.lights));
        if lights.len() == 0 {
            Err(refused(CONFLICT, "group has no currently controllable lights"@))
        } else {
            Ok(lights)
        }
    }
}

pub fn controlled_group_lights(state: &ControllerState, group: i64) -> (r: Result<
    Vec<ManagedLight>,
    ApiError,
>)
    ensures
        match (r, commanded_group(state@, group)) {
            (Ok(lights), Ok(named)) => lights@ == named,
            (Err(err), Err(answer)) => err@ == answer,
            _ => false,
        },
{
    let members = match state.lights_in_group(group) {
        Some(members) => members,
        None => return Err(ApiError::not_found("unknown light group")),
    };
    let lights = keep_controllable(&members);
    if lights.len() == 0 {
        return Err(ApiError::conflict("group has no currently controllable lights"));
    }
    Ok(lights)
}

/// A manual power command on its way to the lights of a group.
#[derive(Debug)]
pub struct GroupPowerCommand {
    pub lights: Vec<ManagedLight>,
    pub power: Power,
}

/// The state after the lights, as they were when the command came, accepted a power: those that
/// were in Test Mode have it as a manual choice.
pub open spec fn all_powered(
    model: ControllerModel,
    lights: Seq<ManagedLight>,
    power: Power,
) -> ControllerModel
    decreases lights.len(),
{
    if lights.len() == 0 {
        model
    } else {
        let before = all_powered(model, lights.drop_last(), power);
        let id = lights.last().device.id;
        if lights.last().mode == LightMode::Test {
            before.with_power_override(id, Some(power)).with_desired_power(id, Some(power))
        } else {
            before.with_desired_power(id, Some(power))
        }
    }
}

impl GroupPowerCommand {
    pub fn begin(state: &ControllerState, group: i64, on: bool) -> (r: Result<
        GroupPowerCommand,
        ApiError,
    >)
        ensures
            r matches Ok(command) ==> (command.power == Power::On <==> on) && command.lights@.len() > 0
                && forall|i: int|
                    0 <= i < command.lights@.len() ==> (
                    #[trigger] command.lights@[i]).control_enabled,
            match (r, commanded_group(state@, group)) {
                (Ok(command), Ok(lights)) => {
                    &&& command.lights@ == lights
                    &&& command.power == asked_power(on)
                },
                (Err(err), Err(answer)) => err@ == answer,
                _ => false,
            },
    {
        match controlled_group_lights(state, group) {
            Ok(lights) => {
                proof {
                    controllable_are_controlled(
                        known_among(state@.groups[group].member_ids, state@.lights),
                    );
                }
                Ok(GroupPowerCommand { lights, power: requested_power(on) })
            },
            Err(err) => Err(err),
        }
    }

    /// The devices to command.
    pub fn devices(&self) -> (r: Vec<LifxDevice>)
        ensures
            r@.len() == self.lights@.len(),
            forall|i: int| 0 <= i < r@.len() ==> #[trigger] r@[i] == self.lights@[i].device,
            r@ == self.lights@.map_values(|light: ManagedLight| light.device),
    {
        let mut devices: Vec<LifxDevice> = Vec::new();
        for i in 0..self.lights.len()
            invariant
                devices@ == self.lights@.take(i as int).map_values(
                    |light: ManagedLight| light.device,
                ),
        {
            devices.push(self.lights[i].device.clone());
            assert(devices@ =~= self.lights@.take(i + 1).map_values(
                |light: ManagedLight| light.device,
            ));
        }
        assert(self.lights@.take(self.lights@.len() as int) =~= self.lights@);
        devices
    }

    /// Takes the lights' answer. Only what they accepted is remembered.
    pub fn sent(self, state: &mut ControllerState, reply: Result<(), String>) -> (r: Result<
        (),
        ApiError,
    >)
        requires
            old(state)@.wf(),
        ensures
            r is Ok <==> reply is Ok,
            reply is Err ==> final(state)@ == old(state)@,
            reply is Ok ==> forall|i: int|
                0 <= i < self.lights@.len() && old(state)@.lights.contains_key(
                    (#[trigger] self.lights@[i]).device.id,
                ) ==> final(state)@.lights[self.lights@[i].device.id].desired_power == Some(self.power),
            final(state)@.wf(),
            match reply {
                Ok(_) => {
                    &&& r is Ok
                    &&& final(state)@ == all_powered(old(state)@, self.lights@, self.power)
                },
                Err(error) => {
                    &&& r matches Err(err)
                    &&& err@ == lifx_answer(error@)
                    &&& final(state)@ == old(state)@
                },
            },
    {
        if let Err(error) = reply {
            return Err(ApiError::lifx(error.as_str()));
        }
        assert(self.lights@.take(0) =~= Seq::empty());
        for i in 0..self.lights.len()
            invariant
                state@.wf(),
                state@ == all_powered(old(state)@, self.lights@.take(i as int), self.power),
        {
            assert(self.lights@.take(i + 1).drop_last() =~= self.lights@.take(i as int));
            let id: LifxId = self.lights[i].device.id;
            if self.lights[i].mode == LightMode::Test {
                let _ = state.set_power_override(id, Some(self.power));
            }
            let _ = state.set_desired_power(id, Some(self.power));
        }
        assert(self.lights@.take(self.lights@.len() as int) =~= self.lights@);
        assert forall|i: int|
            0 <= i < self.lights@.len() && old(state)@.lights.contains_key(
                (#[trigger] self.lights@[i]).device.id,
            ) implies final(state)@.lights[self.lights@[i].device.id].desired_power == Some(
            self.power,
        ) by {
            group_power_changes_power_only(
                old(state)@,
                self.lights@,
                self.power,
                self.lights@[i].device.id,
            );
        }
        Ok(())
    }
}

/// One command for each light, in their order.
pub open spec fn commands(lights: Seq<ManagedLight>, gesture: Gesture) -> Seq<LiveControl> {
    lights.map_values(
        |light: ManagedLight|
            LiveControl { id: light.device.id, light, gesture, confirm: false },
    )
}

fn control_first(lights: Vec<ManagedLight>, gesture: Gesture) -> (r: (LiveControl, GroupControl))
    requires
        lights@.len() > 0,
    ensures
        hands_out(commands(lights@, gesture), r.0, r.1),
{
    let mut controls: Vec<LiveControl> = Vec::new();
    for light in it: lights
        invariant
            it.seq() == lights@,
            controls@ == commands(lights@.take(it.index() as int), gesture),
    {
        controls.push(LiveControl { id: light.device.id, light, gesture, confirm: false });
        assert(controls@ =~= commands(lights@.take(it.index() + 1), gesture));
    }
    assert(lights@.take(lights@.len() as int) =~= lights@);
    let first = controls.remove(0);
    assert(controls@ =~= commands(lights@, gesture).drop_first());
    (first, GroupControl { left: controls })
}

/// The commands of a group request that are still to come.
#[derive(Debug)]
pub struct GroupControl {
    pub left: Vec<LiveControl>,
}

/// The first of `all` is handed out, and `rest` holds the others in their order.
pub open spec fn hands_out(
    all: Seq<LiveControl>,
    first: LiveControl,
    rest: GroupControl,
) -> bool {
    &&& all.len() > 0
    &&& first == all[0]
    &&& rest.left@ == all.drop_first()
}

impl GroupControl {
    fn next(self) -> (r: Option<(LiveControl, GroupControl)>)
        ensures
            match r {
                Some((first, rest)) => hands_out(self.left@, first, rest),
                None => self.left@.len() == 0,
            },
    {
        let mut left = self.left;
        if left.len() == 0 {
            return None;
        }
        let first = left.remove(0);
        assert(left@ =~= self.left@.drop_first());
        Some((first, GroupControl { left }))
    }

    /// Takes what became of the command that was handed out last. A failure ends the request, and
    /// is its answer; else the next command is handed out, until there is none.
    pub fn after(self, outcome: Result<(), ApiError>) -> (r: Result<
        Option<(LiveControl, GroupControl)>,
        ApiError,
    >)
        ensures
            match outcome {
                Err(err) => r == Err::<Option<(LiveControl, GroupControl)>, ApiError>(err),
                Ok(_) => match r {
                    Ok(Some((next, rest))) => hands_out(self.left@, next, rest),
                    Ok(None) => self.left@.len() == 0,
                    Err(_) => false,
                },
            },
    {
        match outcome {
            Err(err) => Err(err),
            Ok(_) => Ok(self.next()),
        }
    }
}

/// The commands that are still to come after `done` of them have succeeded.
pub open spec fn left_after(all: Seq<LiveControl>, done: nat) -> Seq<LiveControl>
    decreases done,
{
    if done == 0 {
        all
    } else {
        left_after(all, (done - 1) as nat).drop_first()
    }
}

/// Every light of a group gets its command in turn, as long as none fails: once `done` commands
/// have succeeded, the next one is for the light at that place, and after the last there is none.
pub proof fn group_commands_in_turn(all: Seq<LiveControl>, done: nat)
    requires
        done <= all.len(),
    ensures
        left_after(all, done) == all.skip(done as int),
        done < all.len() ==> left_after(all, done)[0] == all[done as int],
        left_after(all, done).len() == 0 <==> done == all.len(),
    decreases done,
{
    if done > 0 {
        group_commands_in_turn(all, (done - 1) as nat);
        assert(all.skip(done - 1).drop_first() =~= all.skip(done as int));
    } else {
        assert(all.skip(0) =~= all);
    }
}

/// A brightness request for a group: a command for each light. The first one is handed out, and
/// the others follow it.
pub fn begin_group_brightness(state: &ControllerState, group: i64, percent: u8) -> (r: Result<
    (LiveControl, GroupControl),
    ApiError,
>)
    ensures
        match (r, brightness_level(percent), commanded_group(state@, group)) {
            (Ok((first, rest)), Ok(level), Ok(lights)) => hands_out(
                commands(lights, Gesture::Brightness(level)),
                first,
                rest,
            ),
            (Err(err), Err(answer), _) => err@ == answer,
            (Err(err), Ok(_), Err(answer)) => err@ == answer,
            _ => false,
        },
{
    let gesture = match requested_brightness(percent) {
        Ok(level) => Gesture::Brightness(level),
        Err(err) => return Err(err),
    };
    match controlled_group_lights(state, group) {
        Ok(lights) => Ok(control_first(lights, gesture)),
        Err(err) => Err(err),
    }
}

/// A colour request for a group: a command for each light. The first one is handed out, and the
/// others follow it.
pub fn begin_group_color(
    state: &ControllerState,
    group: i64,
    degrees: u16,
    saturation_percent: u8,
) -> (r: Result<(LiveControl, GroupControl), ApiError>)
    ensures
        match (r, tint_level(degrees, saturation_percent), commanded_group(state@, group)) {
            (Ok((first, rest)), Ok(tint), Ok(lights)) => hands_out(
                commands(lights, Gesture::Tint(tint)),
                first,
                rest,
            ),
            (Err(err), Err(answer), _) => err@ == answer,
            (Err(err), Ok(_), Err(answer)) => err@ == answer,
            _ => false,
        },
{
    let gesture = match requested_tint(degrees, saturation_percent) {
        Ok(tint) => Gesture::Tint(tint),
        Err(err) => return Err(err),
    };
    match controlled_group_lights(state, group) {
        Ok(lights) => Ok(control_first(lights, gesture)),
        Err(err) => Err(err),
    }
}

/// A group command reaches only lights that are under control, each as it is known.
pub proof fn group_commands_spare_uncontrolled(model: ControllerModel, group: i64)
    requires
        model.wf(),
    ensures
        commanded_group(model, group) matches Ok(lights) ==> forall|i: int|
            0 <= i < lights.len() ==> {
                let light = #[trigger] lights[i];
                &&& light.control_enabled
                &&& model.known(light.device.id) == Some(light)
            },
{
    if model.groups.contains_key(group) {
        let members = known_among(model.groups[group].member_ids, model.lights);
        members_are_known(model, model.groups[group].member_ids);
        controllable_are_controlled(members);
        let lights = controllable(members);
        assert forall|i: int| 0 <= i < lights.len() implies {
            let light = #[trigger] lights[i];
            &&& light.control_enabled
            &&& model.known(light.device.id) == Some(light)
        } by {
            assert(members.contains(lights[i]));
        }
    }
}

proof fn members_are_known(model: ControllerModel, ids: Seq<LifxId>)
    requires
        model.wf(),
    ensures
        forall|i: int|
            0 <= i < known_among(ids, model.lights).len() ==> model.known(
                (#[trigger] known_among(ids, model.lights)[i]).device.id,
            ) == Some(known_among(ids, model.lights)[i]),
    decreases ids.len(),
{
    if ids.len() > 0 {
        members_are_known(model, ids.drop_last());
    }
}

proof fn controllable_are_controlled(lights: Seq<ManagedLight>)
    ensures
        forall|i: int|
            0 <= i < controllable(lights).len() ==> {
                &&& (#[trigger] controllable(lights)[i]).control_enabled
                &&& lights.contains(controllable(lights)[i])
            },
    decreases lights.len(),
{
    if lights.len() > 0 {
        let before = controllable(lights.drop_last());
        controllable_are_controlled(lights.drop_last());
        assert forall|i: int| 0 <= i < controllable(lights).len() implies {
            &&& (#[trigger] controllable(lights)[i]).control_enabled
            &&& lights.contains(controllable(lights)[i])
        } by {
            if i < before.len() {
                assert(controllable(lights)[i] == before[i]);
                let k = choose|k: int|
                    0 <= k < lights.drop_last().len() && lights.drop_last()[k] == before[i];
                assert(lights[k] == before[i]);
            } else {
                assert(lights[lights.len() - 1] == lights.last());
            }
        }
    }
}

/// After a group power command every commanded light that is known shows that power, with a
/// manual choice where it was in Test Mode, and every other light is as it was.
pub proof fn group_power_reaches_members(
    model: ControllerModel,
    lights: Seq<ManagedLight>,
    power: Power,
    id: LifxId,
)
    ensures
        ({
            let after = all_powered(model, lights, power);
            &&& after.lights.dom() == model.lights.dom()
            &&& (forall|i: int| 0 <= i < lights.len() ==> (#[trigger] lights[i]).device.id != id)
                ==> after.known(id) == model.known(id)
            &&& model.lights.contains_key(id) && (exists|i: int|
                0 <= i < lights.len() && (#[trigger] lights[i]).device.id == id)
                ==> after.lights[id].shown_power() == Some(power)
            &&& model.lights.contains_key(id) && (exists|i: int|
                0 <= i < lights.len() && (#[trigger] lights[i]).device.id == id && lights[i].mode
                    == LightMode::Test) ==> after.lights[id].power_override == Some(power)
        }),
    decreases lights.len(),
{
    let after = all_powered(model, lights, power);
    if lights.len() == 0 {
        assert(after.lights.dom() =~= model.lights.dom());
    } else {
        let rest = lights.drop_last();
        let last = lights.last();
        group_power_reaches_members(model, rest, power, id);
        assert(after.lights.dom() =~= model.lights.dom());
        assert(lights[lights.len() - 1] == last);
        assert(forall|i: int| 0 <= i < rest.len() ==> #[trigger] rest[i] == lights[i]);
        if exists|i: int| 0 <= i < lights.len() && (#[trigger] lights[i]).device.id == id {
            let i = choose|i: int| 0 <= i < lights.len() && (#[trigger] lights[i]).device.id == id;
            if i < rest.len() {
                assert(rest[i].device.id == id);
            }
        }
        if exists|i: int|
            0 <= i < lights.len() && (#[trigger] lights[i]).device.id == id && lights[i].mode
                == LightMode::Test {
            let i = choose|i: int|
                0 <= i < lights.len() && (#[trigger] lights[i]).device.id == id && lights[i].mode
                    == LightMode::Test;
            if i < rest.len() {
                assert(rest[i].device.id == id && rest[i].mode == LightMode::Test);
            }
        }
    }
}

/// What was asked for is what is shown: after a brightness or colour command that the light
/// accepted, its page shows the requested percent and degrees, a full turn as none.
pub proof fn requests_are_shown<F: Fn(Interpolation) -> u16>(
    model: ControllerModel,
    id: LifxId,
    percent: u8,
    degrees: u16,
    saturation_percent: u8,
    observed: LightState,
    now: Instant,
    later: Instant,
    f: F,
)
    requires
        model.lights.contains_key(id),
    ensures
        brightness_level(percent) matches Ok(level) ==> {
            let color = recoloured(model.lights[id], observed, level);
            let after = accepted(model, id, Gesture::Brightness(level), color).lights[id];
            as_percent(after.shown_brightness(later, f)) == Some(percent)
        },
        tint_level(degrees, saturation_percent) matches Ok(tint) ==> {
            let color = tinted(model.lights[id], observed, tint, now, f);
            let after = accepted(model, id, Gesture::Tint(tint), color).lights[id];
            &&& as_degrees(after.shown_hue()) == Some((degrees % 360) as u16)
            &&& as_percent(after.shown_saturation()) == Some(saturation_percent)
        },
{
    if percent <= 100 {
        percent_reads_back(percent as int);
    }
    if degrees <= 360 && saturation_percent <= 100 {
        hue_reads_back(degrees as int);
        percent_reads_back(saturation_percent as int);
    }
}

} // verus!

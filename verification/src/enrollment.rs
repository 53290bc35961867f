//! Moving a light into or out of Test Mode, one step per outside reply.
use vstd::prelude::*;

use crate::clock::{Duration, Instant};
use crate::control::commanded_light;
use crate::controller::{ControllerState, ModeChange};
use crate::device::{LifxDevice, LifxId, Power};
use crate::registry::{Interpolation, LightMode};
use crate::store::StoreError;
use crate::test_mode::{enrolment_target, SyncTarget, TestModeState};
use crate::web::ApiError;
#[allow(unused_imports)]
use crate::control::commanded;
#[allow(unused_imports)]
use crate::controller::{planned_mode, ControllerModel};
#[allow(unused_imports)]
use crate::registry::is_interpolator;
#[allow(unused_imports)]
use crate::web::{lifx_answer, requested_id, store_answer, unknown_light};

verus! {

/// A request to move a light into a mode.
#[derive(Debug)]
pub struct ModeCommand {
    pub id: LifxId,
    pub device: LifxDevice,
    pub mode: LightMode,
}

/// A light that was moved into a mode, with what it takes to move it back.
#[derive(Debug)]
pub struct ModeSwitch {
    pub id: LifxId,
    pub device: LifxDevice,
    pub mode: LightMode,
    pub previous: LightMode,
    pub previous_override: Option<Power>,
}

pub open spec fn asked_mode(test: bool) -> LightMode {
    if test {
        LightMode::Test
    } else {
        LightMode::Custom
    }
}

/// The state after a light changed its mode: a manual power choice does not outlive the mode it
/// was made in.
pub open spec fn switched(model: ControllerModel, id: LifxId, mode: LightMode) -> ControllerModel {
    model.with_mode(id, mode).with_power_override(id, None)
}

impl ModeCommand {
    pub fn begin(state: &ControllerState, id_text: &str, test: bool) -> (r: Result<
        ModeCommand,
        ApiError,
    >)
        ensures
            r matches Ok(command) ==> {
                &&& requested_id(id_text@) == Some(command.id)
                &&& state@.known(command.id) is Some
                &&& state@.lights[command.id].control_enabled
                &&& command.device == state@.lights[command.id].device
                &&& command.mode == LightMode::Test <==> test
            },
            match (r, commanded(state@, id_text@)) {
                (Ok(command), Ok(id)) => command == (ModeCommand {
                    id,
                    device: state@.lights[id].device,
                    mode: asked_mode(test),
                }),
                (Err(err), Err(answer)) => err@ == answer,
                _ => false,
            },
    {
        let mode = if test {
            LightMode::Test
        } else {
            LightMode::Custom
        };
        match commanded_light(state, id_text) {
            Ok((id, light)) => Ok(ModeCommand { id, device: light.device, mode }),
            Err(err) => Err(err),
        }
    }

    /// The switch from `previous`, with the manual power choice that it ends.
    pub open spec fn switch_from(self, model: ControllerModel, previous: LightMode) -> ModeSwitch {
        ModeSwitch {
            id: self.id,
            device: self.device,
            mode: self.mode,
            previous,
            previous_override: match model.known(self.id) {
                Some(light) => light.power_override,
                None => None,
            },
        }
    }

    fn begin_switch(
        self,
        state: &mut ControllerState,
        previous: LightMode,
        test_mode: &TestModeState,
    ) -> (r: ModeStep)
        requires
            old(state)@.wf(),
        ensures
            final(state)@.wf(),
            r == self.switch_from(old(state)@, previous).follow_up(test_mode.joining()),
            final(state)@ == old(state)@.with_power_override(self.id, None),
    {
        let previous_override = match state.set_power_override(self.id, None) {
            Some(previous_override) => previous_override,
            None => None,
        };
        let switch = ModeSwitch {
            id: self.id,
            device: self.device,
            mode: self.mode,
            previous,
            previous_override,
        };
        if switch.mode == LightMode::Test {
            ModeStep::Synchronize(AwaitSync { switch, target: enrolment_target(test_mode) })
        } else {
            ModeStep::Done
        }
    }

    /// Where a change of mode starts: with the store, unless the light is in that mode already.
    pub fn start(self, state: &mut ControllerState, test_mode: &TestModeState) -> (r: ModeStep)
        requires
            old(state)@.wf(),
        ensures
            r is Refused <==> !old(state)@.lights.contains_key(self.id),
            r is StoreMode <==> old(state)@.lights.contains_key(self.id) && old(state)@.lights[self.id].mode
                != self.mode,
            r is StoreMode || r is Refused ==> final(state)@ == old(state)@,
            r is Synchronize || r is Done ==> final(state)@.lights[self.id].power_override is None,
            final(state)@.wf(),
            match planned_mode(old(state)@, self.id, self.mode) {
                ModeChange::Unknown => {
                    &&& r matches ModeStep::Refused(err)
                    &&& err@ == unknown_light()
                    &&& final(state)@ == old(state)@
                },
                ModeChange::Unchanged(previous) => {
                    &&& r == self.switch_from(old(state)@, previous).follow_up(test_mode.joining())
                    &&& final(state)@ == old(state)@.with_power_override(self.id, None)
                },
                ModeChange::Persist { previous } => {
                    &&& r == ModeStep::StoreMode(AwaitSwitch { command: self, previous })
                    &&& final(state)@ == old(state)@
                },
            },
    {
        match state.plan_mode(self.id, self.mode) {
            ModeChange::Unknown => ModeStep::Refused(ApiError::not_found("unknown light")),
            ModeChange::Unchanged(previous) => self.begin_switch(state, previous, test_mode),
            ModeChange::Persist { previous } => ModeStep::StoreMode(
                AwaitSwitch { command: self, previous },
            ),
        }
    }
}

/// What a change of mode needs next.
#[derive(Debug)]
pub enum ModeStep {
    /// The mode is to be stored for the light.
    StoreMode(AwaitSwitch),
    /// Test Mode's colour and power are to be sent to the light.
    Synchronize(AwaitSync),
    /// The mode that the light comes from is to be stored again.
    StoreRollback(AwaitRollback),
    Done,
    Refused(ApiError),
}

/// A change of mode that waits for the store.
#[derive(Debug)]
pub struct AwaitSwitch {
    pub command: ModeCommand,
    pub previous: LightMode,
}

/// A change of mode that waits for the light to accept Test Mode's state.
#[derive(Debug)]
pub struct AwaitSync {
    pub switch: ModeSwitch,
    /// What is to be sent to the light.
    pub target: SyncTarget,
}

/// A change of mode that is undone and waits for the store.
#[derive(Debug)]
pub struct AwaitRollback {
    pub switch: ModeSwitch,
    /// Why the light could not follow.
    pub error: String,
}

impl AwaitSwitch {
    /// Takes the store's reply; a refusal changes nothing.
    pub fn stored(
        self,
        state: &mut ControllerState,
        reply: Result<(), StoreError>,
        test_mode: &TestModeState,
    ) -> (r: ModeStep)
        requires
            old(state)@.wf(),
        ensures
            r is Refused <==> reply is Err,
            reply is Err ==> final(state)@ == old(state)@,
            reply is Ok && old(state)@.known(self.command.id) is Some ==> {
                &&& final(state)@.lights[self.command.id].mode == self.command.mode
                &&& final(state)@.lights[self.command.id].power_override is None
            },
            reply is Ok ==> (r is Synchronize <==> self.command.mode == LightMode::Test),
            final(state)@.wf(),
            match reply {
                Ok(_) => {
                    &&& r == self.command.switch_from(old(state)@, self.previous).follow_up(
                        test_mode.joining(),
                    )
                    &&& final(state)@ == switched(old(state)@, self.command.id, self.command.mode)
                },
                Err(err) => {
                    &&& r matches ModeStep::Refused(answer)
                    &&& answer@ == store_answer(err)
                    &&& final(state)@ == old(state)@
                },
            },
    {
        match state.set_mode(self.command.id, self.command.mode, self.previous, reply) {
            Ok(_) => self.command.begin_switch(state, self.previous, test_mode),
            Err(err) => ModeStep::Refused(ApiError::store(err)),
        }
    }
}

impl ModeSwitch {
    /// What a switch calls for: a light that joins Test Mode is brought to its state.
    pub open spec fn follow_up(self, target: SyncTarget) -> ModeStep {
        if self.mode == LightMode::Test {
            ModeStep::Synchronize(AwaitSync { switch: self, target })
        } else {
            ModeStep::Done
        }
    }

    /// The state after moving the light back: the mode only where it was stored, the manual power
    /// choice either way.
    pub open spec fn undone(self, model: ControllerModel, stored: bool) -> ControllerModel {
        let moved = if stored {
            model.with_mode(self.id, self.previous)
        } else {
            model
        };
        moved.with_power_override(self.id, self.previous_override)
    }
}

impl AwaitSync {
    /// The light accepted Test Mode's state at `started`; it is to be checked once it had time to
    /// get there.
    pub fn accepted<F: Fn(Interpolation) -> u16>(
        self,
        state: &mut ControllerState,
        transition: Duration,
        started: Instant,
        interpolate: &F,
    ) -> (r: ModeStep)
        requires
            old(state)@.wf(),
            is_interpolator(*interpolate),
        ensures
            old(state)@.known(self.switch.id) is Some ==> {
                let light = final(state)@.lights[self.switch.id];
                &&& light.desired_power == Some(self.target.power)
                &&& light.desired_brightness == Some(self.target.color.brightness)
                &&& light.mode == old(state)@.lights[self.switch.id].mode
            },
            final(state)@.wf(),
            r == ModeStep::Done,
            final(state)@ == synchronizing(
                old(state)@,
                self.switch.id,
                self.target,
                transition,
                started,
                *interpolate,
            ),
    {
        begin_test_mode_sync(
            state,
            self.switch.id,
            self.target,
            transition,
            started,
            interpolate,
        );
        ModeStep::Done
    }

    /// The light did not accept Test Mode's state: it is moved back where it came from.
    pub fn failed(self, state: &mut ControllerState, error: String) -> (r: ModeStep)
        requires
            old(state)@.wf(),
        ensures
            r is StoreRollback || r is Refused,
            r is StoreRollback <==> old(state)@.known(self.switch.id) is Some
                && old(state)@.lights[self.switch.id].mode != self.switch.previous,
            final(state)@.wf(),
            match planned_mode(old(state)@, self.switch.id, self.switch.previous) {
                ModeChange::Persist { .. } => {
                    &&& r == ModeStep::StoreRollback(AwaitRollback { switch: self.switch, error })
                    &&& final(state)@ == old(state)@
                },
                _ => {
                    &&& r matches ModeStep::Refused(answer)
                    &&& answer@ == lifx_answer(error@)
                    &&& final(state)@ == self.switch.undone(old(state)@, false)
                },
            },
    {
        match state.plan_mode(self.switch.id, self.switch.previous) {
            ModeChange::Persist { .. } => ModeStep::StoreRollback(
                AwaitRollback { switch: self.switch, error },
            ),
            _ => {
                let _ = state.set_power_override(self.switch.id, self.switch.previous_override);
                ModeStep::Refused(ApiError::lifx(error.as_str()))
            },
        }
    }
}

impl AwaitRollback {
    /// Takes the store's reply. Where it refuses, the light stays in its new mode, and the refusal
    /// comes along for the log; the request has failed either way.
    pub fn stored(self, state: &mut ControllerState, reply: Result<(), StoreError>) -> (r: (
        ApiError,
        Option<StoreError>,
    ))
        requires
            old(state)@.wf(),
        ensures
            old(state)@.known(self.switch.id) is Some ==> {
                let light = final(state)@.lights[self.switch.id];
                &&& light.power_override == self.switch.previous_override
                &&& reply is Ok ==> light.mode == self.switch.previous
                &&& reply is Err ==> light.mode == old(state)@.lights[self.switch.id].mode
            },
            r.1 is Some <==> reply is Err,
            final(state)@.wf(),
            final(state)@ == self.switch.undone(old(state)@, reply is Ok),
            r.0@ == lifx_answer(self.error@),
            r.1 == match reply {
                Ok(_) => None,
                Err(err) => Some(err),
            },
    {
        let switch = self.switch;
        let complaint = match state.set_mode(switch.id, switch.previous, switch.mode, reply) {
            Ok(_) => None,
            Err(err) => Some(err),
        };
        let _ = state.set_power_override(switch.id, switch.previous_override);
        (ApiError::lifx(self.error.as_str()), complaint)
    }
}

/// A light that is moved into a mode and back again is as it was, in memory and, where the stored
/// mode was the light's, as stored.
pub proof fn rollback_restores(model: ControllerModel, id: LifxId, mode: LightMode)
    requires
        model.lights.contains_key(id),
        model.lights[id].mode != mode,
        model.stored.contains_key(id) ==> model.stored[id].mode == model.lights[id].mode,
    ensures
        ({
            let light = model.lights[id];
            let command = ModeCommand { id, device: light.device, mode };
            let change = planned_mode(model, id, mode);
            let after = switched(model, id, mode);
            let back = planned_mode(after, id, light.mode);
            &&& change == ModeChange::Persist { previous: light.mode }
            &&& back == ModeChange::Persist { previous: mode }
            &&& command.switch_from(model, light.mode).undone(after, true) == model
        }),
{
    let light = model.lights[id];
    let command = ModeCommand { id, device: light.device, mode };
    let after = switched(model, id, mode);
    let restored = command.switch_from(model, light.mode).undone(after, true);
    assert(restored.lights[id] == light);
    assert(restored.lights =~= model.lights);
    assert(restored.stored =~= model.stored);
    assert(restored =~= model);
}

/// The state after a light accepted Test Mode's colour and power: it heads for the colour's
/// brightness.
pub open spec fn synchronizing<F: Fn(Interpolation) -> u16>(
    model: ControllerModel,
    id: LifxId,
    target: SyncTarget,
    transition: Duration,
    started: Instant,
    f: F,
) -> ControllerModel {
    model.with_desired_color(id, target.color).with_desired_power(
        id,
        Some(target.power),
    ).with_transition(
        id,
        target.color.brightness,
        transition,
        started,
        f,
    )
}

/// Remembers that a light heads for Test Mode's state since `started`.
pub fn begin_test_mode_sync<F: Fn(Interpolation) -> u16>(
    state: &mut ControllerState,
    id: LifxId,
    target: SyncTarget,
    transition: Duration,
    started: Instant,
    interpolate: &F,
)
    requires
        old(state)@.wf(),
        is_interpolator(*interpolate),
    ensures
        final(state)@.wf(),
        final(state)@ == synchronizing(
            old(state)@,
            id,
            target,
            transition,
            started,
            *interpolate,
        ),
{
    let _ = state.set_desired_color(id, target.color);
    let _ = state.set_desired_power(id, Some(target.power));
    let _ = state.begin_brightness_transition(
        id,
        target.color.brightness,
        transition,
        started,
        interpolate,
    );
}

} // verus!

//! Taking a discovered device into the registry, one step per outside reply.
//!
//! A device is matched with its stored configuration, given its friendly name where it does not
//! carry it yet, and last filed among the known lights.
use vstd::prelude::*;

use crate::clock::Instant;
use crate::controller::{ControllerState, PersistPlan};
use crate::device::{LifxDevice, LifxId};
use crate::registry::{LightMode, ManagedLight};
use crate::store::{StoreError, StoredLight};
use crate::text::{clone_optional, same_optional};
#[allow(unused_imports)]
use crate::controller::{planned_persist, ControllerModel};
#[allow(unused_imports)]
use crate::text::optional_text;

verus! {

/// The label that was read, else the one the light is known by.
pub open spec fn read_or_known(
    model: ControllerModel,
    id: LifxId,
    read: Option<String>,
) -> Option<String> {
    if read is Some {
        read
    } else if model.lights.contains_key(id) {
        model.lights[id].label
    } else {
        None
    }
}

/// A device that answered a discovery, together with its stored configuration.
#[derive(Debug)]
pub struct Sighting {
    pub device: LifxDevice,
    /// The label that the device itself carries, as far as it is known.
    pub label: Option<String>,
    pub stored: StoredLight,
}

impl Sighting {
    /// A controlled device is to carry its friendly name, where it has one and another label.
    pub open spec fn wanted_label(self) -> Option<String> {
        if self.stored.control_enabled && self.stored.friendly_name is Some && optional_text(
            self.label,
        ) != optional_text(self.stored.friendly_name) {
            self.stored.friendly_name
        } else {
            None
        }
    }

    /// The sighting after the device has confirmed `confirmed` as its label.
    pub open spec fn relabelled(self, confirmed: String, recorded: bool) -> Sighting {
        Sighting {
            label: Some(confirmed),
            stored: if recorded {
                StoredLight { device_label: Some(confirmed), ..self.stored }
            } else {
                self.stored
            },
            ..self
        }
    }

    /// The light as it is filed: configuration and address come from the sighting; what is known
    /// of the light's state and of what it was told to do stays.
    pub open spec fn filed(self, known: Option<ManagedLight>, now: Instant) -> ManagedLight {
        let label = if self.label is Some {
            self.label
        } else {
            self.stored.device_label
        };
        match known {
            Some(light) => ManagedLight {
                device: self.device,
                label,
                friendly_name: self.stored.friendly_name,
                control_enabled: self.stored.control_enabled,
                mode: self.stored.mode,
                last_discovered: now,
                ..light
            },
            None => ManagedLight {
                device: self.device,
                label,
                friendly_name: self.stored.friendly_name,
                control_enabled: self.stored.control_enabled,
                mode: self.stored.mode,
                observed: None,
                desired_power: None,
                desired_color: None,
                desired_brightness: None,
                brightness_transition: None,
                power_override: None,
                last_discovered: now,
                last_observed: None,
            },
        }
    }

    fn label_to_write(&self) -> (r: Option<String>)
        ensures
            r == self.wanted_label(),
    {
        if self.stored.control_enabled && self.stored.friendly_name.is_some() && !same_optional(
            &self.label,
            &self.stored.friendly_name,
        ) {
            clone_optional(&self.stored.friendly_name)
        } else {
            None
        }
    }

    /// The state once the device is filed among the known lights.
    pub open spec fn filed_in(self, model: ControllerModel, now: Instant) -> ControllerModel {
        model.with_light(self.device.id, self.filed(model.known(self.device.id), now))
    }

    fn file(self, state: &mut ControllerState, now: Instant) -> (r: bool)
        requires
            old(state)@.wf(),
        ensures
            final(state)@.wf(),
            final(state)@ == self.filed_in(old(state)@, now),
            r == !old(state)@.lights.contains_key(self.device.id),
    {
        let id: LifxId = self.device.id;
        let label = match self.label {
            Some(label) => Some(label),
            None => self.stored.device_label,
        };
        match state.light(id) {
            Some(light) => {
                let mut light = light;
                light.device = self.device;
                light.last_discovered = now;
                light.label = label;
                light.friendly_name = self.stored.friendly_name;
                light.control_enabled = self.stored.control_enabled;
                light.mode = self.stored.mode;
                state.put_light(id, light);
                false
            },
            None => {
                state.put_light(
                    id,
                    ManagedLight {
                        device: self.device,
                        label,
                        friendly_name: self.stored.friendly_name,
                        control_enabled: self.stored.control_enabled,
                        mode: self.stored.mode,
                        observed: None,
                        desired_power: None,
                        desired_color: None,
                        desired_brightness: None,
                        brightness_transition: None,
                        power_override: None,
                        last_discovered: now,
                        last_observed: None,
                    },
                );
                true
            },
        }
    }

    /// What follows once the configuration is known: a label is written where one is wanted, else
    /// the device is filed.
    pub open spec fn goes_on(
        self,
        r: RefreshStep,
        before: ControllerModel,
        after: ControllerModel,
        now: Instant,
    ) -> bool {
        match self.wanted_label() {
            Some(name) => {
                &&& r == RefreshStep::WriteLabel(AwaitLabelWrite { sighting: self, name })
                &&& after == before
            },
            None => {
                &&& r == RefreshStep::Filed {
                    first: !before.lights.contains_key(self.device.id),
                    unrecorded: None,
                }
                &&& after == self.filed_in(before, now)
            },
        }
    }

    fn go_on(self, state: &mut ControllerState, now: Instant) -> (r: RefreshStep)
        requires
            old(state)@.wf(),
        ensures
            final(state)@.wf(),
            self.goes_on(r, old(state)@, final(state)@, now),
    {
        match self.label_to_write() {
            Some(name) => RefreshStep::WriteLabel(AwaitLabelWrite { sighting: self, name }),
            None => RefreshStep::Filed { first: self.file(state, now), unrecorded: None },
        }
    }
}

/// What a discovered device needs next.
#[derive(Debug)]
pub enum RefreshStep {
    /// The device is to be stored, with its label and, where it is new, its mode.
    Upsert(AwaitUpsert),
    /// The friendly name is to be written to the device as its label.
    WriteLabel(AwaitLabelWrite),
    /// The label that the device confirmed is to be stored.
    RecordLabel(AwaitLabelRecord),
    /// The device is among the known lights now, for the first time or again. A label that the
    /// device confirmed but the store did not take is complained of.
    Filed { first: bool, unrecorded: Option<StoreError> },
    /// The store did not take the device; a later discovery tries again.
    Skipped(StoreError),
}

/// A device that waits for the store to take it.
#[derive(Debug)]
pub struct AwaitUpsert {
    pub device: LifxDevice,
    pub label: Option<String>,
    pub mode: LightMode,
}

/// A device that is to take its friendly name as its label.
#[derive(Debug)]
pub struct AwaitLabelWrite {
    pub sighting: Sighting,
    pub name: String,
}

/// A device whose new label waits for the store to take it.
#[derive(Debug)]
pub struct AwaitLabelRecord {
    pub sighting: Sighting,
    pub confirmed: String,
}

/// Where a discovered device starts: with the store, unless its configuration is up to date.
/// `read` is the label that was read from the device, if it could be read; else the label it is
/// known by stands in.
pub fn refresh_device(
    state: &mut ControllerState,
    device: LifxDevice,
    read: Option<String>,
    now: Instant,
) -> (r: RefreshStep)
    requires
        old(state)@.wf(),
    ensures
        r is Upsert || r is WriteLabel ==> final(state)@ == old(state)@,
        r is Upsert || r is WriteLabel || r is Filed,
        !old(state)@.stored.contains_key(device.id) ==> r is Upsert,
        r matches RefreshStep::Upsert(waiting) ==> waiting.device == device && (read is Some
            ==> waiting.label == read),
        r is Filed ==> final(state)@.lights.contains_key(device.id)
            && final(state)@.lights[device.id].device == device
            && final(state)@.lights[device.id].last_discovered == now,
        final(state)@.wf(),
        ({
            let label = read_or_known(old(state)@, device.id, read);
            match planned_persist(old(state)@, device.id, label) {
                PersistPlan::Keep(stored) => (Sighting { device, label, stored }).goes_on(
                    r,
                    old(state)@,
                    final(state)@,
                    now,
                ),
                PersistPlan::Upsert { mode } => {
                    &&& r == RefreshStep::Upsert(AwaitUpsert { device, label, mode })
                    &&& final(state)@ == old(state)@
                },
            }
        }),
{
    let label = match read {
        Some(label) => Some(label),
        None => match state.light(device.id) {
            Some(light) => light.label,
            None => None,
        },
    };
    match state.plan_persisted(device.id, &label) {
        PersistPlan::Keep(stored) => (Sighting { device, label, stored }).go_on(state, now),
        PersistPlan::Upsert { mode } => RefreshStep::Upsert(AwaitUpsert { device, label, mode }),
    }
}

impl AwaitUpsert {
    /// Takes the configuration that the store has for the device now; where it refuses, nothing
    /// changes.
    pub fn stored(
        self,
        state: &mut ControllerState,
        reply: Result<StoredLight, StoreError>,
        now: Instant,
    ) -> (r: RefreshStep)
        requires
            old(state)@.wf(),
        ensures
            r is Skipped <==> reply is Err,
            reply is Err ==> final(state)@ == old(state)@,
            reply matches Ok(stored) ==> final(state)@.stored == old(state)@.stored.insert(
                self.device.id,
                stored,
            ),
            r is Filed ==> final(state)@.lights.contains_key(self.device.id),
            final(state)@.wf(),
            match reply {
                Ok(stored) => (Sighting { device: self.device, label: self.label, stored }).goes_on(
                    r,
                    old(state)@.with_stored(self.device.id, stored),
                    final(state)@,
                    now,
                ),
                Err(err) => r == RefreshStep::Skipped(err) && final(state)@ == old(state)@,
            },
    {
        match state.ensure_persisted_light(self.device.id, reply) {
            Ok(stored) => {
                let sighting = Sighting { device: self.device, label: self.label, stored };
                sighting.go_on(state, now)
            },
            Err(err) => RefreshStep::Skipped(err),
        }
    }
}

impl AwaitLabelWrite {
    /// Takes the label that the device confirmed. A device that could not take it is filed with
    /// the label it has; a later discovery tries again.
    pub fn written(
        self,
        state: &mut ControllerState,
        reply: Result<String, String>,
        now: Instant,
    ) -> (r: RefreshStep)
        requires
            old(state)@.wf(),
        ensures
            r is RecordLabel <==> reply is Ok,
            r is Filed <==> reply is Err,
            r is Filed ==> final(state)@.lights.contains_key(self.sighting.device.id),
            r is RecordLabel ==> final(state)@ == old(state)@,
            final(state)@.wf(),
            match reply {
                Ok(confirmed) => {
                    &&& r == RefreshStep::RecordLabel(
                        AwaitLabelRecord { sighting: self.sighting, confirmed },
                    )
                    &&& final(state)@ == old(state)@
                },
                Err(_) => {
                    &&& r == RefreshStep::Filed {
                        first: !old(state)@.lights.contains_key(self.sighting.device.id),
                        unrecorded: None,
                    }
                    &&& final(state)@ == self.sighting.filed_in(old(state)@, now)
                },
            },
    {
        match reply {
            Ok(confirmed) => RefreshStep::RecordLabel(
                AwaitLabelRecord { sighting: self.sighting, confirmed },
            ),
            Err(_) => RefreshStep::Filed {
                first: self.sighting.file(state, now),
                unrecorded: None,
            },
        }
    }
}

impl AwaitLabelRecord {
    /// The state once the device is filed under the label that it confirmed.
    pub open spec fn filed_in(
        self,
        model: ControllerModel,
        recorded: bool,
        now: Instant,
    ) -> ControllerModel {
        let stored = if recorded {
            model.with_device_label(self.sighting.device.id, Some(self.confirmed))
        } else {
            model
        };
        self.sighting.relabelled(self.confirmed, recorded).filed_in(stored, now)
    }

    /// Takes the store's reply to the label, and files the device.
    pub fn recorded(
        self,
        state: &mut ControllerState,
        reply: Result<(), StoreError>,
        now: Instant,
    ) -> (r: RefreshStep)
        requires
            old(state)@.wf(),
        ensures
            final(state)@.lights.contains_key(self.sighting.device.id),
            final(state)@.lights[self.sighting.device.id].label == Some(self.confirmed),
            final(state)@.wf(),
            final(state)@ == self.filed_in(old(state)@, reply is Ok, now),
            r == (RefreshStep::Filed {
                first: !old(state)@.lights.contains_key(self.sighting.device.id),
                unrecorded: match reply {
                    Ok(_) => None,
                    Err(err) => Some(err),
                },
            }),
    {
        let mut sighting = self.sighting;
        let id: LifxId = sighting.device.id;
        let unrecorded = match state.record_device_label(id, Some(self.confirmed.clone()), reply) {
            Ok(_) => {
                sighting.stored.device_label = Some(self.confirmed.clone());
                None
            },
            Err(err) => Some(err),
        };
        sighting.label = Some(self.confirmed);
        RefreshStep::Filed { first: sighting.file(state, now), unrecorded }
    }
}

/// One pass through the devices that answered a discovery. Each gets its turn, whatever becomes of
/// the others.
#[derive(Debug)]
pub struct DiscoveryPass {
    left: Vec<LifxDevice>,
    found: usize,
}

impl DiscoveryPass {
    /// The devices that have not had their turn.
    pub closed spec fn left(self) -> Seq<LifxDevice> {
        self.left@
    }

    /// How many devices answered.
    pub closed spec fn found(self) -> nat {
        self.found as nat
    }

    pub fn new(discovered: Vec<LifxDevice>) -> (r: DiscoveryPass)
        ensures
            r.left() == discovered@,
            r.found() == discovered@.len(),
    {
        let found: usize = discovered.len();
        DiscoveryPass { left: discovered, found }
    }

    /// The device whose turn it is, until each had its own.
    pub fn next(&mut self) -> (r: Option<LifxDevice>)
        ensures
            final(self).found() == old(self).found(),
            if old(self).left().len() == 0 {
                r is None && final(self).left() == old(self).left()
            } else {
                &&& r == Some(old(self).left()[0])
                &&& final(self).left() == old(self).left().drop_first()
            },
    {
        if self.left.len() == 0 {
            return None;
        }
        let device = self.left.remove(0);
        assert(self.left() =~= old(self).left().drop_first());
        Some(device)
    }

    /// What the pass answers: how many devices were found.
    pub fn count(&self) -> (r: usize)
        ensures
            r == self.found(),
    {
        self.found
    }
}

/// The devices that are left after some turns.
pub open spec fn left_after(found: Seq<LifxDevice>, turns: nat) -> Seq<LifxDevice>
    decreases turns,
{
    if turns == 0 {
        found
    } else {
        left_after(found, (turns - 1) as nat).drop_first()
    }
}

/// Every device that was found gets exactly one turn, in the order of the list; then the pass is
/// over.
pub proof fn every_device_gets_its_turn(found: Seq<LifxDevice>, turns: nat)
    requires
        turns <= found.len(),
    ensures
        left_after(found, turns) == found.skip(turns as int),
        turns < found.len() ==> left_after(found, turns)[0] == found[turns as int],
        left_after(found, turns).len() == 0 <==> turns == found.len(),
    decreases turns,
{
    if turns > 0 {
        every_device_gets_its_turn(found, (turns - 1) as nat);
        assert(found.skip(turns - 1).drop_first() =~= found.skip(turns as int));
    } else {
        assert(found.skip(0) =~= found);
    }
}

/// Filing a device that is known keeps everything observed of the light and everything it was
/// told: a discovery never undoes a command, a manual choice or a transition.
pub proof fn filing_keeps_state(sighting: Sighting, light: ManagedLight, now: Instant)
    ensures
        ({
            let filed = sighting.filed(Some(light), now);
            &&& filed.observed == light.observed
            &&& filed.last_observed == light.last_observed
            &&& filed.desired_power == light.desired_power
            &&& filed.desired_color == light.desired_color
            &&& filed.desired_brightness == light.desired_brightness
            &&& filed.brightness_transition == light.brightness_transition
            &&& filed.power_override == light.power_override
        }),
{
}

/// The same holds where a label was written on the way, whether or not the store took it.
pub proof fn relabelling_keeps_state(
    model: ControllerModel,
    waiting: AwaitLabelRecord,
    recorded: bool,
    now: Instant,
)
    requires
        model.lights.contains_key(waiting.sighting.device.id),
    ensures
        ({
            let id = waiting.sighting.device.id;
            let light = model.lights[id];
            let after = waiting.filed_in(model, recorded, now);
            let filed = after.lights[id];
            &&& filed.label == Some(waiting.confirmed)
            &&& filed.observed == light.observed
            &&& filed.desired_power == light.desired_power
            &&& filed.desired_color == light.desired_color
            &&& filed.desired_brightness == light.desired_brightness
            &&& filed.brightness_transition == light.brightness_transition
            &&& filed.power_override == light.power_override
        }),
{
}

/// Filing a device leaves every other light, the stored configuration and the groups as they
/// were.
pub proof fn filing_leaves_others(
    model: ControllerModel,
    sighting: Sighting,
    other: LifxId,
    now: Instant,
)
    requires
        other != sighting.device.id,
    ensures
        ({
            let after = sighting.filed_in(model, now);
            &&& after.known(other) == model.known(other)
            &&& after.stored == model.stored
            &&& after.groups == model.groups
        }),
{
}

/// A friendly name is written until the device confirms it, and not again after that, whether or
/// not the store could record it.
pub proof fn confirmed_name_settles(sighting: Sighting, confirmed: String, recorded: bool)
    requires
        sighting.wanted_label() matches Some(name) && name@ == confirmed@,
    ensures
        sighting.relabelled(confirmed, recorded).wanted_label() is None,
{
}

/// A device whose control is disabled is never relabelled.
pub proof fn uncontrolled_keeps_label(sighting: Sighting)
    requires
        !sighting.stored.control_enabled,
    ensures
        sighting.wanted_label() is None,
{
}

} // verus!

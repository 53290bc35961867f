//! The controller's shared state: known lights, stored configuration and groups.
//!
//! Operations that a durable store must accept first take the store's reply as an argument, so
//! that a refused write leaves the in-memory configuration as it was.
use std::collections::{HashMap, HashSet};

use vstd::prelude::*;

use crate::clock::{Duration, Instant};
use crate::device::{Color, LifxDevice, LifxId, LightState, Power};
use crate::order::sorted_unique;
use crate::registry::{ColorTarget, Interpolation, LightGroup, LightMode, ManagedLight};
use crate::store::{StoreError, StoredGroup, StoredLight};
use crate::text::{clone_optional, same_optional};
#[allow(unused_imports)]
use crate::clock::{span_since, MAX_NANOS};
#[allow(unused_imports)]
use crate::order::{is_canonical, strictly_ascending};
#[allow(unused_imports)]
use crate::registry::{color_target, is_interpolator, new_transition_does_not_jump};
#[allow(unused_imports)]
use crate::store::GroupModel;
#[allow(unused_imports)]
use crate::text::optional_text;

verus! {

broadcast use vstd::std_specs::hash::group_hash_axioms;

/// What the controller's state says, apart from how it is held in memory.
#[verifier::ext_equal]
pub struct ControllerModel {
    /// The lights met on the network.
    pub lights: Map<LifxId, ManagedLight>,
    /// The stored configuration of lights, met or not.
    pub stored: Map<LifxId, StoredLight>,
    pub groups: Map<i64, GroupModel>,
    /// The lights that start in Test Mode when they are first met.
    pub test_ids: Set<LifxId>,
}

impl ControllerModel {
    /// A light is filed under its own identifier and its transition leads somewhere; a group is
    /// filed under its own identifier.
    pub open spec fn wf(self) -> bool {
        &&& forall|id: LifxId| #[trigger]
            self.lights.contains_key(id) ==> self.lights[id].device.id == id
                && self.lights[id].transition_ok()
        &&& forall|id: i64| #[trigger]
            self.groups.contains_key(id) ==> self.groups[id].id == id
    }

    /// The light known under `id`, if any.
    pub open spec fn known(self, id: LifxId) -> Option<ManagedLight> {
        if self.lights.contains_key(id) {
            Some(self.lights[id])
        } else {
            None
        }
    }

    pub open spec fn with_light(self, id: LifxId, light: ManagedLight) -> ControllerModel {
        ControllerModel { lights: self.lights.insert(id, light), ..self }
    }

    pub open spec fn with_stored(self, id: LifxId, light: StoredLight) -> ControllerModel {
        ControllerModel { stored: self.stored.insert(id, light), ..self }
    }

    pub open spec fn with_group(self, id: i64, group: GroupModel) -> ControllerModel {
        ControllerModel { groups: self.groups.insert(id, group), ..self }
    }

    /// A known light changed by `change`; nothing where the light is unknown.
    pub open spec fn with_light_changed(
        self,
        id: LifxId,
        change: spec_fn(ManagedLight) -> ManagedLight,
    ) -> ControllerModel {
        if self.lights.contains_key(id) {
            self.with_light(id, change(self.lights[id]))
        } else {
            self
        }
    }

    /// A stored light changed by `change`; nothing where the light is not stored.
    pub open spec fn with_stored_changed(
        self,
        id: LifxId,
        change: spec_fn(StoredLight) -> StoredLight,
    ) -> ControllerModel {
        if self.stored.contains_key(id) {
            self.with_stored(id, change(self.stored[id]))
        } else {
            self
        }
    }

    /// Every known light changed by `change`.
    pub open spec fn with_each_changed(
        self,
        change: spec_fn(ManagedLight) -> ManagedLight,
    ) -> ControllerModel {
        ControllerModel { lights: self.lights.map_values(change), ..self }
    }

    /// Every light that `mode` governs changed by `change`, and no other.
    pub open spec fn with_mode_changed(
        self,
        mode: LightMode,
        change: spec_fn(ManagedLight) -> ManagedLight,
    ) -> ControllerModel {
        self.with_each_changed(
            |light: ManagedLight|
                if light.governed_by(mode) {
                    change(light)
                } else {
                    light
                },
        )
    }

    /// Every light in `mode`, controlled or not, without its manual power choice.
    pub open spec fn without_overrides(self, mode: LightMode) -> ControllerModel {
        self.with_each_changed(
            |light: ManagedLight|
                if light.mode == mode {
                    ManagedLight { power_override: None, ..light }
                } else {
                    light
                },
        )
    }

    /// A light in another mode, in memory and as stored.
    pub open spec fn with_mode(self, id: LifxId, mode: LightMode) -> ControllerModel {
        self.with_light_changed(
            id,
            |light: ManagedLight| ManagedLight { mode, ..light },
        ).with_stored_changed(id, |light: StoredLight| StoredLight { mode, ..light })
    }

    /// A light under another friendly name, in memory and as stored.
    pub open spec fn with_friendly_name(
        self,
        id: LifxId,
        friendly_name: Option<String>,
    ) -> ControllerModel {
        self.with_stored_changed(
            id,
            |light: StoredLight| StoredLight { friendly_name, ..light },
        ).with_light_changed(id, |light: ManagedLight| ManagedLight { friendly_name, ..light })
    }

    /// A light with control enabled or disabled, in memory and as stored; a disabled light has no
    /// manual power choice.
    pub open spec fn with_control_enabled(
        self,
        id: LifxId,
        control_enabled: bool,
    ) -> ControllerModel {
        self.with_stored_changed(
            id,
            |light: StoredLight| StoredLight { control_enabled, ..light },
        ).with_light_changed(
            id,
            |light: ManagedLight|
                ManagedLight {
                    control_enabled,
                    power_override: if control_enabled {
                        light.power_override
                    } else {
                        None
                    },
                    ..light
                },
        )
    }

    /// A light with another device label, in memory and as stored.
    pub open spec fn with_device_label(
        self,
        id: LifxId,
        device_label: Option<String>,
    ) -> ControllerModel {
        self.with_stored_changed(
            id,
            |light: StoredLight| StoredLight { device_label, ..light },
        ).with_light_changed(
            id,
            |light: ManagedLight| ManagedLight { label: device_label, ..light },
        )
    }

    pub open spec fn with_desired_power(
        self,
        id: LifxId,
        power: Option<Power>,
    ) -> ControllerModel {
        self.with_light_changed(
            id,
            |light: ManagedLight| ManagedLight { desired_power: power, ..light },
        )
    }

    pub open spec fn with_desired_color(self, id: LifxId, color: Color) -> ControllerModel {
        self.with_light_changed(
            id,
            |light: ManagedLight|
                ManagedLight { desired_color: Some(color_target(color)), ..light },
        )
    }

    /// A commanded brightness ends any transition.
    pub open spec fn with_desired_brightness(
        self,
        id: LifxId,
        brightness: u16,
    ) -> ControllerModel {
        self.with_light_changed(
            id,
            |light: ManagedLight|
                ManagedLight {
                    desired_brightness: Some(brightness),
                    brightness_transition: None,
                    ..light
                },
        )
    }

    pub open spec fn with_transition<F: Fn(Interpolation) -> u16>(
        self,
        id: LifxId,
        target: u16,
        duration: Duration,
        started: Instant,
        f: F,
    ) -> ControllerModel {
        self.with_light_changed(
            id,
            |light: ManagedLight| light.heading_for(target, duration, started, f),
        )
    }

    pub open spec fn without_transition(self, id: LifxId) -> ControllerModel {
        self.with_light_changed(
            id,
            |light: ManagedLight| ManagedLight { brightness_transition: None, ..light },
        )
    }

    pub open spec fn with_power_override(
        self,
        id: LifxId,
        power: Option<Power>,
    ) -> ControllerModel {
        self.with_light_changed(
            id,
            |light: ManagedLight| ManagedLight { power_override: power, ..light },
        )
    }

    pub open spec fn with_observation(
        self,
        id: LifxId,
        observed: LightState,
        now: Instant,
    ) -> ControllerModel {
        self.with_light_changed(id, |light: ManagedLight| light.seen(observed, now))
    }

    /// Whether an observation differs from the last one; nothing for an unknown light.
    pub open spec fn observation_change(self, id: LifxId, observed: LightState) -> Option<bool> {
        match self.known(id) {
            Some(light) => Some(light.observed != Some(observed)),
            None => None,
        }
    }

    /// The lights that `mode` governs.
    pub open spec fn governed(self, mode: LightMode) -> Set<LifxId> {
        self.lights.dom().filter(|id: LifxId| self.lights[id].governed_by(mode))
    }

    /// The lights in `mode`, controlled or not, that have a manual power choice.
    pub open spec fn overridden(self, mode: LightMode) -> Set<LifxId> {
        self.lights.dom().filter(
            |id: LifxId| self.lights[id].mode == mode && self.lights[id].power_override is Some,
        )
    }

    /// The mode a light starts in when it is first met.
    pub open spec fn first_mode(self, id: LifxId) -> LightMode {
        if self.test_ids.contains(id) {
            LightMode::Test
        } else {
            LightMode::Custom
        }
    }

    /// The governed lights whose observed power is not the one they should have.
    pub open spec fn mismatched(self, mode: LightMode, mode_power: Power) -> Set<LifxId> {
        self.lights.dom().filter(
            |id: LifxId|
                {
                    let light = self.lights[id];
                    &&& light.governed_by(mode)
                    &&& light.observed matches Some(state)
                    &&& state.power != light.effective_power(mode_power)
                },
        )
    }
}

/// `ids` names every element of `set` exactly once.
pub open spec fn lists(ids: Seq<LifxId>, set: Set<LifxId>) -> bool {
    &&& ids.no_duplicates()
    &&& forall|id: LifxId| ids.contains(id) <==> set.contains(id)
}

/// `devices` names the devices of `set` exactly once, each as it is known.
pub open spec fn lists_devices(
    devices: Seq<LifxDevice>,
    lights: Map<LifxId, ManagedLight>,
    set: Set<LifxId>,
) -> bool {
    &&& lists(devices.map_values(|device: LifxDevice| device.id), set)
    &&& forall|i: int|
        0 <= i < devices.len() ==> lights[(#[trigger] devices[i]).id].device == devices[i]
}

/// `kept` names the elements of `set` that occur in `ids` exactly once.
spec fn picked(kept: Seq<LifxId>, ids: Seq<LifxId>, set: Set<LifxId>) -> bool {
    &&& kept.no_duplicates()
    &&& forall|id: LifxId| kept.contains(id) <==> ids.contains(id) && set.contains(id)
}

proof fn picks_next(kept: Seq<LifxId>, ids: Seq<LifxId>, i: int, set: Set<LifxId>)
    requires
        ids.no_duplicates(),
        0 <= i < ids.len(),
        picked(kept, ids.take(i), set),
    ensures
        set.contains(ids[i]) ==> picked(kept.push(ids[i]), ids.take(i + 1), set),
        !set.contains(ids[i]) ==> picked(kept, ids.take(i + 1), set),
{
    let id = ids[i];
    let seen = ids.take(i);
    assert(ids.take(i + 1) =~= seen.push(id));
    assert(!seen.contains(id));
    pushed_contains(seen, id);
    pushed_contains(kept, id);
    let longer = kept.push(id);
    assert forall|j: int, k: int| 0 <= j < longer.len() && 0 <= k < longer.len() && j
        != k implies longer[j] != longer[k] by {
        assert(!kept.contains(id));
        if j < kept.len() {
            assert(kept.contains(kept[j]));
        }
        if k < kept.len() {
            assert(kept.contains(kept[k]));
        }
    }
}

proof fn pushed_contains(ids: Seq<LifxId>, id: LifxId)
    ensures
        forall|other: LifxId| #[trigger]
            ids.push(id).contains(other) <==> ids.contains(other) || other == id,
{
    assert forall|other: LifxId| #[trigger]
        ids.push(id).contains(other) <==> ids.contains(other) || other == id by {
        assert(ids.push(id)[ids.len() as int] == id);
        if ids.contains(other) {
            let k = choose|k: int| 0 <= k < ids.len() && ids[k] == other;
            assert(ids.push(id)[k] == other);
        }
    }
}

/// The lights among `ids` that are known, in the order of `ids`.
pub open spec fn known_among(ids: Seq<LifxId>, lights: Map<LifxId, ManagedLight>) -> Seq<
    ManagedLight,
>
    decreases ids.len(),
{
    if ids.len() == 0 {
        Seq::empty()
    } else {
        let before = known_among(ids.drop_last(), lights);
        if lights.contains_key(ids.last()) {
            before.push(lights[ids.last()])
        } else {
            before
        }
    }
}

/// The stored lights that `ids` name.
pub open spec fn stored_in(model: ControllerModel, ids: Seq<LifxId>) -> Seq<StoredLight> {
    ids.map_values(|id: LifxId| model.stored[id])
}

/// Rows filed by identifier; a later row replaces an earlier one of the same identifier.
pub open spec fn lights_by_id(rows: Seq<StoredLight>) -> Map<LifxId, StoredLight>
    decreases rows.len(),
{
    if rows.len() == 0 {
        Map::empty()
    } else {
        lights_by_id(rows.drop_last()).insert(rows.last().id, rows.last())
    }
}

/// Rows filed by identifier; a later row replaces an earlier one of the same identifier.
pub open spec fn groups_by_id(rows: Seq<StoredGroup>) -> Map<i64, GroupModel>
    decreases rows.len(),
{
    if rows.len() == 0 {
        Map::empty()
    } else {
        groups_by_id(rows.drop_last()).insert(rows.last().id, rows.last()@)
    }
}

/// Rows of distinct identifiers are all filed, each under its own.
pub proof fn distinct_rows_are_kept(lights: Seq<StoredLight>, groups: Seq<StoredGroup>)
    ensures
        forall|i: int|
            0 <= i < lights.len() && (forall|j: int|
                i < j < lights.len() ==> (#[trigger] lights[j]).id != lights[i].id)
                ==> lights_by_id(lights).contains_key((#[trigger] lights[i]).id) && lights_by_id(
                lights,
            )[lights[i].id] == lights[i],
        forall|i: int|
            0 <= i < groups.len() && (forall|j: int|
                i < j < groups.len() ==> (#[trigger] groups[j]).id != groups[i].id)
                ==> groups_by_id(groups).contains_key((#[trigger] groups[i]).id) && groups_by_id(
                groups,
            )[groups[i].id] == groups[i]@,
    decreases lights.len() + groups.len(),
{
    if lights.len() > 0 {
        let fewer = lights.drop_last();
        distinct_rows_are_kept(fewer, Seq::empty());
        assert forall|i: int|
            0 <= i < lights.len() && (forall|j: int|
                i < j < lights.len() ==> (#[trigger] lights[j]).id != lights[i].id)
            implies lights_by_id(lights).contains_key((#[trigger] lights[i]).id)
            && lights_by_id(lights)[lights[i].id] == lights[i] by {
            if i < fewer.len() {
                assert(fewer[i] == lights[i]);
                assert(lights[lights.len() - 1].id != lights[i].id);
                assert(forall|j: int| i < j < fewer.len() ==> fewer[j] == lights[j]);
            }
        }
    }
    if groups.len() > 0 {
        let fewer = groups.drop_last();
        distinct_rows_are_kept(Seq::empty(), fewer);
        assert forall|i: int|
            0 <= i < groups.len() && (forall|j: int|
                i < j < groups.len() ==> (#[trigger] groups[j]).id != groups[i].id)
            implies groups_by_id(groups).contains_key((#[trigger] groups[i]).id)
            && groups_by_id(groups)[groups[i].id] == groups[i]@ by {
            if i < fewer.len() {
                assert(fewer[i] == groups[i]);
                assert(groups[groups.len() - 1].id != groups[i].id);
                assert(forall|j: int| i < j < fewer.len() ==> fewer[j] == groups[j]);
            }
        }
    }
}

/// What a request for another mode comes to before anything is stored.
#[derive(Clone, Copy, Debug, PartialEq, Eq, Structural)]
pub enum ModeChange {
    /// The light is not known.
    Unknown,
    /// The light is in that mode already.
    Unchanged(LightMode),
    /// The new mode is to be stored; the light is in `previous` until then.
    Persist { previous: LightMode },
}

/// What a newly seen light needs of the store.
#[derive(Debug)]
pub enum PersistPlan {
    /// The stored configuration is up to date.
    Keep(StoredLight),
    /// The label is to be stored, and the mode where the light is new.
    Upsert { mode: LightMode },
}

pub open spec fn planned_mode(model: ControllerModel, id: LifxId, mode: LightMode) -> ModeChange {
    if !model.lights.contains_key(id) {
        ModeChange::Unknown
    } else if model.lights[id].mode == mode {
        ModeChange::Unchanged(mode)
    } else {
        ModeChange::Persist { previous: model.lights[id].mode }
    }
}

/// A stored light is kept unless a label was read that differs from the stored one; an unknown
/// light is stored in its first mode.
pub open spec fn planned_persist(
    model: ControllerModel,
    id: LifxId,
    label: Option<String>,
) -> PersistPlan {
    if model.stored.contains_key(id) {
        let existing = model.stored[id];
        if label is Some && optional_text(existing.device_label) != optional_text(label) {
            PersistPlan::Upsert { mode: existing.mode }
        } else {
            PersistPlan::Keep(existing)
        }
    } else {
        PersistPlan::Upsert { mode: model.first_mode(id) }
    }
}

/// A stored configuration wins over the defaults: only a light that is not stored yet gets its
/// first mode, and a stored light keeps the mode it has.
pub proof fn stored_mode_wins(model: ControllerModel, id: LifxId, label: Option<String>)
    ensures
        match planned_persist(model, id, label) {
            PersistPlan::Keep(light) => model.stored.contains_key(id) && light == model.stored[id],
            PersistPlan::Upsert { mode } => mode == if model.stored.contains_key(id) {
                model.stored[id].mode
            } else {
                model.first_mode(id)
            },
        },
{
}

/// A known light that is observed again in the same state has not changed.
pub proof fn repeated_observation_is_unchanged(
    model: ControllerModel,
    id: LifxId,
    observed: LightState,
    now: Instant,
)
    requires
        model.lights.contains_key(id),
    ensures
        model.with_observation(id, observed, now).observation_change(id, observed) == Some(false),
{
}

/// Once the manual choices in a mode are cleared, no light in it has one, and there is nothing left
/// to clear.
pub proof fn cleared_overrides_are_gone(model: ControllerModel, mode: LightMode, id: LifxId)
    requires
        model.lights.contains_key(id),
    ensures
        ({
            let after = model.without_overrides(mode);
            let light = model.lights[id];
            &&& after.overridden(mode) =~= Set::<LifxId>::empty()
            &&& light.mode == mode ==> after.lights[id] == (ManagedLight {
                power_override: None,
                ..light
            })
            &&& light.mode != mode ==> after.lights[id] == light
        }),
{
}

/// A transition that begins while another one runs picks up where that one is: the level shown does
/// not jump. It ends at its target, and of the lights nothing else changes.
pub proof fn transition_picks_up<F: Fn(Interpolation) -> u16>(
    model: ControllerModel,
    id: LifxId,
    target: u16,
    duration: Duration,
    started: Instant,
    later: Instant,
    f: F,
)
    requires
        is_interpolator(f),
        model.known(id) matches Some(light) && light.brightness_transition is Some
            && light.brightness_transition->0.active(started),
        0 < duration@ <= MAX_NANOS,
        span_since(later@, started@) >= duration@,
    ensures
        ({
            let before = model.lights[id];
            let after = model.with_transition(id, target, duration, started, f);
            let light = after.lights[id];
            &&& light.shown_brightness(started, f) == before.shown_brightness(started, f)
            &&& light.shown_brightness(later, f) == Some(target)
            &&& light == ManagedLight {
                desired_brightness: Some(target),
                brightness_transition: light.brightness_transition,
                ..before
            }
            &&& after == model.with_light(id, light)
        }),
{
    new_transition_does_not_jump(model.lights[id], target, duration, started, later, f);
}

/// A light whose control is disabled is governed by no mode, and has no manual power choice that
/// could come back when control is enabled again.
pub proof fn disabled_light_is_ungoverned(model: ControllerModel, id: LifxId, mode: LightMode)
    requires
        model.lights.contains_key(id),
    ensures
        !model.with_control_enabled(id, false).governed(mode).contains(id),
        model.with_control_enabled(id, false).with_control_enabled(id, true).lights[id]
            .power_override is None,
{
}

/// Shared in-memory controller state.
pub struct ControllerState {
    lights: HashMap<LifxId, ManagedLight>,
    persisted_lights: HashMap<LifxId, StoredLight>,
    groups: HashMap<i64, LightGroup>,
    initial_test_ids: HashSet<LifxId>,
}

impl View for ControllerState {
    type V = ControllerModel;

    closed spec fn view(&self) -> ControllerModel {
        ControllerModel {
            lights: self.lights@,
            stored: self.persisted_lights@,
            groups: self.groups@.map_values(|group: LightGroup| group@),
            test_ids: self.initial_test_ids@,
        }
    }
}

impl ControllerState {
    pub fn new(
        initial_test_ids: &Vec<LifxId>,
        persisted_lights: Vec<StoredLight>,
        persisted_groups: Vec<StoredGroup>,
    ) -> (r: ControllerState)
        ensures
            r@.wf(),
            r@.lights == Map::<LifxId, ManagedLight>::empty(),
            r@.stored == lights_by_id(persisted_lights@),
            r@.groups == groups_by_id(persisted_groups@),
            r@.test_ids == initial_test_ids@.to_set(),
    {
        let mut stored: HashMap<LifxId, StoredLight> = HashMap::new();
        assert(stored@ =~= lights_by_id(persisted_lights@.take(0)));
        for light in it: persisted_lights
            invariant
                it.seq() == persisted_lights@,
                stored@ == lights_by_id(persisted_lights@.take(it.index() as int)),
        {
            assert(persisted_lights@.take(it.index() + 1).drop_last() =~= persisted_lights@.take(
                it.index() as int,
            ));
            stored.insert(light.id, light);
        }
        assert(persisted_lights@.take(persisted_lights@.len() as int) =~= persisted_lights@);
        let mut groups: HashMap<i64, LightGroup> = HashMap::new();
        assert(groups@.map_values(|group: LightGroup| group@) =~= groups_by_id(
            persisted_groups@.take(0),
        ));
        for row in it: persisted_groups
            invariant
                it.seq() == persisted_groups@,
                groups@.map_values(|group: LightGroup| group@) == groups_by_id(
                    persisted_groups@.take(it.index() as int),
                ),
                forall|id: i64| #[trigger] groups@.contains_key(id) ==> groups@[id].id == id,
        {
            assert(persisted_groups@.take(it.index() + 1).drop_last() =~= persisted_groups@.take(
                it.index() as int,
            ));
            let group = LightGroup::from(row);
            let ghost before = groups@;
            let ghost added = group;
            groups.insert(group.id, group);
            assert(groups@.map_values(|group: LightGroup| group@) =~= before.map_values(
                |group: LightGroup| group@,
            ).insert(added.id, added@));
        }
        assert(persisted_groups@.take(persisted_groups@.len() as int) =~= persisted_groups@);
        let mut ids: HashSet<LifxId> = HashSet::new();
        assert(ids@ =~= initial_test_ids@.take(0).to_set());
        for i in 0..initial_test_ids.len()
            invariant
                ids@ == initial_test_ids@.take(i as int).to_set(),
        {
            let ghost seen = initial_test_ids@.take(i as int);
            let id: LifxId = initial_test_ids[i];
            ids.insert(id);
            assert(initial_test_ids@.take(i + 1) =~= seen.push(id));
            assert forall|x: LifxId| seen.push(id).to_set().contains(x) <==> ids@.contains(x) by {
                if x == id {
                    assert(seen.push(id)[seen.len() as int] == id);
                }
                if seen.contains(x) {
                    let k = choose|k: int| 0 <= k < seen.len() && seen[k] == x;
                    assert(seen.push(id)[k] == x);
                }
            }
            assert(ids@ =~= seen.push(id).to_set());
        }
        assert(initial_test_ids@.take(initial_test_ids@.len() as int) =~= initial_test_ids@);
        ControllerState {
            lights: HashMap::new(),
            persisted_lights: stored,
            groups,
            initial_test_ids: ids,
        }
    }

    fn bootstrap_mode(&self, id: LifxId) -> (r: LightMode)
        ensures
            r == self@.first_mode(id),
            r == LightMode::Test <==> self@.test_ids.contains(id),
            r == LightMode::Custom <==> !self@.test_ids.contains(id),
    {
        if self.initial_test_ids.contains(&id) {
            LightMode::Test
        } else {
            LightMode::Custom
        }
    }

    /// What the store is to be asked when a light with this label is seen.
    pub fn plan_persisted(&self, id: LifxId, device_label: &Option<String>) -> (r: PersistPlan)
        ensures
            r == planned_persist(self@, id, *device_label),
    {
        match self.persisted_lights.get(&id) {
            Some(existing) => {
                if device_label.is_some() && !same_optional(&existing.device_label, device_label) {
                    PersistPlan::Upsert { mode: existing.mode }
                } else {
                    PersistPlan::Keep(existing.clone())
                }
            },
            None => PersistPlan::Upsert { mode: self.bootstrap_mode(id) },
        }
    }

    /// Takes the store's reply to an upsert; a refusal changes nothing.
    pub fn ensure_persisted_light(
        &mut self,
        id: LifxId,
        stored: Result<StoredLight, StoreError>,
    ) -> (r: Result<StoredLight, StoreError>)
        requires
            old(self)@.wf(),
        ensures
            final(self)@.wf(),
            r == stored,
            final(self)@ == match stored {
                Ok(light) => old(self)@.with_stored(id, light),
                Err(_) => old(self)@,
            },
    {
        match stored {
            Ok(light) => {
                self.persisted_lights.insert(id, light.clone());
                assert(self@ =~= old(self)@.with_stored(id, light));
                Ok(light)
            },
            Err(err) => Err(err),
        }
    }

    fn light_ids(&self) -> (r: Vec<LifxId>)
        ensures
            lists(r@, self@.lights.dom()),
            r@.len() == self@.lights.len(),
    {
        let mut r: Vec<LifxId> = Vec::new();
        for id in it: self.lights.keys()
            invariant
                r@ == it.seq().unref().take(it.index() as int),
                it.seq().no_duplicates(),
                it.seq().unref().to_set() == self.lights@.dom(),
                it.seq().len() == self.lights@.len(),
                it.index() == it.seq().len() ==> r@.to_set() == self.lights@.dom(),
                it.index() <= it.seq().len(),
        {
            r.push(*id);
            assert(r@ =~= it.seq().unref().take(it.index() + 1));
            assert(it.index() + 1 == it.seq().len() ==> r@ =~= it.seq().unref());
        }
        assert forall|id: LifxId| r@.contains(id) <==> self@.lights.dom().contains(id) by {
            assert(r@.to_set().contains(id) <==> r@.contains(id));
        }
        r
    }

    /// Every known light, in no particular order.
    pub fn lights(&self) -> (r: Vec<ManagedLight>)
        requires
            self@.wf(),
        ensures
            lists(r@.map_values(|light: ManagedLight| light.device.id), self@.lights.dom()),
            forall|i: int|
                0 <= i < r@.len() ==> self@.lights[(#[trigger] r@[i]).device.id] == r@[i],
    {
        let ids = self.light_ids();
        let mut r: Vec<ManagedLight> = Vec::new();
        for i in 0..ids.len()
            invariant
                self@.wf(),
                lists(ids@, self@.lights.dom()),
                r@.len() == i,
                forall|j: int|
                    0 <= j < i ==> (#[trigger] r@[j]) == self@.lights[ids@[j]]
                        && self@.lights.contains_key(ids@[j]),
        {
            let id: LifxId = ids[i];
            assert(ids@.contains(id));
            if let Some(light) = self.lights.get(&id) {
                r.push(light.clone());
            }
        }
        assert(r@.map_values(|light: ManagedLight| light.device.id) =~= ids@);
        r
    }

    /// Every stored light, in no particular order.
    pub fn configured_lights(&self) -> (r: Vec<StoredLight>)
        ensures
            exists|ids: Seq<LifxId>|
                lists(ids, self@.stored.dom()) && r@ == #[trigger] stored_in(self@, ids),
    {
        let mut ids: Vec<LifxId> = Vec::new();
        for id in it: self.persisted_lights.keys()
            invariant
                ids@ == it.seq().unref().take(it.index() as int),
                it.seq().no_duplicates(),
                it.seq().unref().to_set() == self.persisted_lights@.dom(),
                it.index() == it.seq().len() ==> ids@.to_set() == self.persisted_lights@.dom(),
                it.index() <= it.seq().len(),
        {
            ids.push(*id);
            assert(ids@ =~= it.seq().unref().take(it.index() + 1));
            assert(it.index() + 1 == it.seq().len() ==> ids@ =~= it.seq().unref());
        }
        assert forall|id: LifxId| ids@.contains(id) <==> self@.stored.dom().contains(id) by {
            assert(ids@.to_set().contains(id) <==> ids@.contains(id));
        }
        let mut r: Vec<StoredLight> = Vec::new();
        for i in 0..ids.len()
            invariant
                lists(ids@, self@.stored.dom()),
                r@.len() == i,
                forall|j: int| 0 <= j < i ==> (#[trigger] r@[j]) == self@.stored[ids@[j]],
        {
            let id: LifxId = ids[i];
            assert(ids@.contains(id));
            if let Some(light) = self.persisted_lights.get(&id) {
                r.push(light.clone());
            }
        }
        assert(r@ =~= stored_in(self@, ids@));
        r
    }

    /// Every group, in no particular order.
    pub fn groups(&self) -> (r: Vec<LightGroup>)
        requires
            self@.wf(),
        ensures
            r@.map_values(|group: LightGroup| group.id).no_duplicates(),
            r@.map_values(|group: LightGroup| group.id).to_set() == self@.groups.dom(),
            forall|i: int| 0 <= i < r@.len() ==> self@.groups[(#[trigger] r@[i]).id] == r@[i]@,
    {
        let mut ids: Vec<i64> = Vec::new();
        for id in it: self.groups.keys()
            invariant
                ids@ == it.seq().unref().take(it.index() as int),
                it.seq().no_duplicates(),
                it.seq().unref().to_set() == self.groups@.dom(),
                it.index() == it.seq().len() ==> ids@.to_set() == self.groups@.dom(),
                it.index() <= it.seq().len(),
        {
            ids.push(*id);
            assert(ids@ =~= it.seq().unref().take(it.index() + 1));
            assert(it.index() + 1 == it.seq().len() ==> ids@ =~= it.seq().unref());
        }
        let mut r: Vec<LightGroup> = Vec::new();
        assert(self@.groups.dom() =~= self.groups@.dom());
        for i in 0..ids.len()
            invariant
                self@.wf(),
                ids@.no_duplicates(),
                ids@.to_set() == self.groups@.dom(),
                self@.groups.dom() == self.groups@.dom(),
                r@.len() == i,
                forall|j: int|
                    0 <= j < i ==> (#[trigger] r@[j])@ == self@.groups[ids@[j]] && r@[j].id
                        == ids@[j],
        {
            let id: i64 = ids[i];
            assert(ids@.to_set().contains(id));
            assert(self@.groups.contains_key(id));
            if let Some(group) = self.groups.get(&id) {
                r.push(group.clone());
                assert(r@[i as int]@.id == self@.groups[id].id);
            }
        }
        assert(r@.map_values(|group: LightGroup| group.id) =~= ids@);
        r
    }

    pub fn group(&self, id: i64) -> (r: Option<LightGroup>)
        ensures
            match r {
                Some(group) => self@.groups.contains_key(id) && group@ == self@.groups[id],
                None => !self@.groups.contains_key(id),
            },
    {
        match self.groups.get(&id) {
            Some(group) => Some(group.clone()),
            None => None,
        }
    }

    pub fn light(&self, id: LifxId) -> (r: Option<ManagedLight>)
        ensures
            r == self@.known(id),
    {
        match self.lights.get(&id) {
            Some(light) => Some(light.clone()),
            None => None,
        }
    }

    pub fn known_count(&self) -> (r: usize)
        ensures
            r == self@.lights.len(),
    {
        self.lights.len()
    }

    fn put_group(&mut self, group: LightGroup)
        requires
            old(self)@.wf(),
        ensures
            final(self)@ == old(self)@.with_group(group.id, group@),
            final(self)@.wf(),
    {
        let ghost before = self.groups@;
        let ghost added = group;
        self.groups.insert(group.id, group);
        assert(self.groups@.map_values(|group: LightGroup| group@) =~= before.map_values(
            |group: LightGroup| group@,
        ).insert(added.id, added@));
        assert(self@ =~= old(self)@.with_group(added.id, added@));
    }

    /// Takes the store's reply to a new group; a refusal changes nothing.
    pub fn create_group(&mut self, stored: Result<StoredGroup, StoreError>) -> (r: Result<
        LightGroup,
        StoreError,
    >)
        requires
            old(self)@.wf(),
        ensures
            final(self)@.wf(),
            match stored {
                Ok(group) => {
                    &&& r matches Ok(made)
                    &&& made@ == group@
                    &&& final(self)@ == old(self)@.with_group(group.id, group@)
                },
                Err(err) => r == Err::<LightGroup, StoreError>(err) && final(self)@ == old(self)@,
            },
    {
        match stored {
            Ok(row) => {
                let group = LightGroup::from(row);
                let copy = group.clone();
                self.put_group(copy);
                Ok(group)
            },
            Err(err) => Err(err),
        }
    }

    /// Takes the store's reply to a new name; a refusal changes nothing.
    pub fn rename_group(&mut self, id: i64, name: String, stored: Result<(), StoreError>) -> (r:
        Result<(), StoreError>)
        requires
            old(self)@.wf(),
        ensures
            final(self)@.wf(),
            match stored {
                Err(err) => r == Err::<(), StoreError>(err) && final(self)@ == old(self)@,
                Ok(_) => if old(self)@.groups.contains_key(id) {
                    &&& r == Ok::<(), StoreError>(())
                    &&& final(self)@ == old(self)@.with_group(
                        id,
                        GroupModel { name: name@, ..old(self)@.groups[id] },
                    )
                } else {
                    &&& r == Err::<(), StoreError>(StoreError::UnknownGroup(id))
                    &&& final(self)@ == old(self)@
                },
            },
    {
        if let Err(err) = stored {
            return Err(err);
        }
        match self.group(id) {
            Some(group) => {
                let renamed = LightGroup { id: group.id, name, member_ids: group.member_ids };
                self.put_group(renamed);
                Ok(())
            },
            None => Err(StoreError::UnknownGroup(id)),
        }
    }

    /// Takes the store's reply to a deletion; a refusal changes nothing.
    pub fn delete_group(&mut self, id: i64, stored: Result<(), StoreError>) -> (r: Result<
        (),
        StoreError,
    >)
        requires
            old(self)@.wf(),
        ensures
            final(self)@.wf(),
            r == stored,
            final(self)@ == match stored {
                Ok(_) => ControllerModel {
                    groups: old(self)@.groups.remove(id),
                    ..old(self)@
                },
                Err(_) => old(self)@,
            },
    {
        if stored.is_ok() {
            let ghost before = self.groups@;
            self.groups.remove(&id);
            assert(self.groups@.map_values(|group: LightGroup| group@) =~= before.map_values(
                |group: LightGroup| group@,
            ).remove(id));
            assert(self@ =~= (ControllerModel {
                groups: old(self)@.groups.remove(id),
                ..old(self)@
            }));
        }
        stored
    }

    /// The membership to store: ascending, without repetition, and of stored lights only. The
    /// lowest identifier that is not stored is the one complained of.
    pub fn plan_group_members(&self, member_ids: &Vec<LifxId>) -> (r: Result<
        Vec<LifxId>,
        StoreError,
    >)
        ensures
            match r {
                Ok(ids) => {
                    &&& is_canonical(member_ids@, ids@)
                    &&& forall|id: LifxId| member_ids@.contains(id) ==> #[trigger]
                        self@.stored.contains_key(id)
                },
                Err(err) => {
                    &&& err matches StoreError::UnknownLight(unknown)
                    &&& member_ids@.contains(unknown)
                    &&& !self@.stored.contains_key(unknown)
                    &&& forall|id: LifxId|
                        member_ids@.contains(id) && id < unknown ==> #[trigger]
                        self@.stored.contains_key(id)
                },
            },
    {
        let ids = sorted_unique(member_ids);
        for i in 0..ids.len()
            invariant
                is_canonical(member_ids@, ids@),
                forall|j: int| 0 <= j < i ==> self@.stored.contains_key(#[trigger] ids@[j]),
        {
            let id: LifxId = ids[i];
            if !self.persisted_lights.contains_key(&id) {
                assert(ids@.contains(id));
                assert forall|x: LifxId|
                    member_ids@.contains(x) && x < id implies #[trigger] self@.stored.contains_key(
                    x,
                ) by {
                    assert(ids@.contains(x));
                    let k = choose|k: int| 0 <= k < ids@.len() && ids@[k] == x;
                    if k >= i {
                        assert(ids@[i as int] <= ids@[k]);
                    }
                    assert(self@.stored.contains_key(ids@[k]));
                }
                return Err(StoreError::UnknownLight(id));
            }
        }
        assert forall|id: LifxId| member_ids@.contains(id) implies #[trigger]
            self@.stored.contains_key(id) by {
            assert(ids@.contains(id));
            let k = choose|k: int| 0 <= k < ids@.len() && ids@[k] == id;
            assert(self@.stored.contains_key(ids@[k]));
        }
        Ok(ids)
    }

    /// Takes the store's reply to a planned membership; a refusal changes nothing.
    pub fn set_group_members(
        &mut self,
        id: i64,
        member_ids: Vec<LifxId>,
        stored: Result<(), StoreError>,
    ) -> (r: Result<(), StoreError>)
        requires
            old(self)@.wf(),
            strictly_ascending(member_ids@),
        ensures
            final(self)@.wf(),
            match stored {
                Err(err) => r == Err::<(), StoreError>(err) && final(self)@ == old(self)@,
                Ok(_) => if old(self)@.groups.contains_key(id) {
                    &&& r == Ok::<(), StoreError>(())
                    &&& final(self)@ == old(self)@.with_group(
                        id,
                        GroupModel { member_ids: member_ids@, ..old(self)@.groups[id] },
                    )
                } else {
                    &&& r == Err::<(), StoreError>(StoreError::UnknownGroup(id))
                    &&& final(self)@ == old(self)@
                },
            },
    {
        if let Err(err) = stored {
            return Err(err);
        }
        match self.group(id) {
            Some(group) => {
                let changed = LightGroup { id: group.id, name: group.name, member_ids };
                self.put_group(changed);
                Ok(())
            },
            None => Err(StoreError::UnknownGroup(id)),
        }
    }

    /// The lights among `ids` that are known, in the order of `ids`.
    pub(crate) fn known_lights(&self, ids: &Vec<LifxId>) -> (r: Vec<ManagedLight>)
        ensures
            r@ == known_among(ids@, self@.lights),
    {
        let mut lights: Vec<ManagedLight> = Vec::new();
        for i in 0..ids.len()
            invariant
                lights@ == known_among(ids@.take(i as int), self@.lights),
        {
            assert(ids@.take(i + 1).drop_last() =~= ids@.take(i as int));
            if let Some(light) = self.lights.get(&ids[i]) {
                lights.push(light.clone());
            }
        }
        assert(ids@.take(ids@.len() as int) =~= ids@);
        lights
    }

    /// The known lights of a group, in the order of its membership. Membership survives while
    /// bulbs are offline; only lights that are known now are returned.
    pub fn lights_in_group(&self, id: i64) -> (r: Option<Vec<ManagedLight>>)
        ensures
            match r {
                Some(lights) => {
                    &&& self@.groups.contains_key(id)
                    &&& lights@ == known_among(self@.groups[id].member_ids, self@.lights)
                },
                None => !self@.groups.contains_key(id),
            },
    {
        match self.groups.get(&id) {
            None => None,
            Some(group) => Some(self.known_lights(&group.member_ids)),
        }
    }

    pub(crate) fn put_light(&mut self, id: LifxId, light: ManagedLight)
        requires
            old(self)@.wf(),
            light.device.id == id,
            light.transition_ok(),
        ensures
            final(self)@ == old(self)@.with_light(id, light),
            final(self)@.wf(),
    {
        self.lights.insert(id, light);
        assert(self@ =~= old(self)@.with_light(id, light));
    }

    /// What a request for `mode` comes to, before anything is stored.
    pub fn plan_mode(&self, id: LifxId, mode: LightMode) -> (r: ModeChange)
        ensures
            r == planned_mode(self@, id, mode),
    {
        match self.lights.get(&id) {
            None => ModeChange::Unknown,
            Some(light) => if light.mode == mode {
                ModeChange::Unchanged(light.mode)
            } else {
                ModeChange::Persist { previous: light.mode }
            },
        }
    }

    /// Takes the store's reply to a planned mode; a refusal changes nothing.
    pub fn set_mode(
        &mut self,
        id: LifxId,
        mode: LightMode,
        previous: LightMode,
        stored: Result<(), StoreError>,
    ) -> (r: Result<Option<LightMode>, StoreError>)
        requires
            old(self)@.wf(),
        ensures
            final(self)@.wf(),
            match stored {
                Ok(_) => {
                    &&& r == Ok::<Option<LightMode>, StoreError>(Some(previous))
                    &&& final(self)@ == old(self)@.with_mode(id, mode)
                },
                Err(err) => {
                    &&& r == Err::<Option<LightMode>, StoreError>(err)
                    &&& final(self)@ == old(self)@
                },
            },
    {
        if let Err(err) = stored {
            return Err(err);
        }
        if let Some(light) = self.light(id) {
            let mut light = light;
            light.mode = mode;
            self.put_light(id, light);
        }
        if let Some(light) = self.persisted_lights.remove(&id) {
            let mut light = light;
            light.mode = mode;
            self.persisted_lights.insert(id, light);
        }
        assert(self@ =~= old(self)@.with_mode(id, mode));
        Ok(Some(previous))
    }

    /// The stored friendly name that a new one replaces.
    pub fn friendly_name(&self, id: LifxId) -> (r: Option<String>)
        ensures
            r == (if self@.stored.contains_key(id) {
                self@.stored[id].friendly_name
            } else {
                None
            }),
    {
        match self.persisted_lights.get(&id) {
            Some(light) => clone_optional(&light.friendly_name),
            None => None,
        }
    }

    /// Takes the store's reply to a new friendly name that replaces `previous`; a refusal changes
    /// nothing.
    pub fn set_friendly_name(
        &mut self,
        id: LifxId,
        friendly_name: Option<String>,
        previous: Option<String>,
        stored: Result<(), StoreError>,
    ) -> (r: Result<Option<String>, StoreError>)
        requires
            old(self)@.wf(),
        ensures
            final(self)@.wf(),
            match stored {
                Ok(_) => {
                    &&& r == Ok::<Option<String>, StoreError>(previous)
                    &&& final(self)@ == old(self)@.with_friendly_name(id, friendly_name)
                },
                Err(err) => {
                    &&& r == Err::<Option<String>, StoreError>(err)
                    &&& final(self)@ == old(self)@
                },
            },
    {
        if let Err(err) = stored {
            return Err(err);
        }
        if let Some(light) = self.persisted_lights.remove(&id) {
            let mut light = light;
            light.friendly_name = clone_optional(&friendly_name);
            self.persisted_lights.insert(id, light);
        }
        assert(self@ =~= old(self)@.with_stored_changed(
            id,
            |light: StoredLight| StoredLight { friendly_name, ..light },
        ));
        if let Some(light) = self.light(id) {
            let mut light = light;
            light.friendly_name = friendly_name;
            self.put_light(id, light);
        }
        assert(self@ =~= old(self)@.with_friendly_name(id, friendly_name));
        Ok(previous)
    }

    /// Whether control is enabled in the stored configuration.
    pub fn control_enabled(&self, id: LifxId) -> (r: Option<bool>)
        ensures
            r == (if self@.stored.contains_key(id) {
                Some(self@.stored[id].control_enabled)
            } else {
                None
            }),
    {
        match self.persisted_lights.get(&id) {
            Some(light) => Some(light.control_enabled),
            None => None,
        }
    }

    /// Takes the store's reply to enabling or disabling control; a refusal changes nothing.
    /// Disabling drops a manual power choice.
    pub fn set_control_enabled(
        &mut self,
        id: LifxId,
        control_enabled: bool,
        previous: Option<bool>,
        stored: Result<(), StoreError>,
    ) -> (r: Result<Option<bool>, StoreError>)
        requires
            old(self)@.wf(),
        ensures
            final(self)@.wf(),
            match stored {
                Ok(_) => {
                    &&& r == Ok::<Option<bool>, StoreError>(previous)
                    &&& final(self)@ == old(self)@.with_control_enabled(id, control_enabled)
                },
                Err(err) => {
                    &&& r == Err::<Option<bool>, StoreError>(err)
                    &&& final(self)@ == old(self)@
                },
            },
    {
        if let Err(err) = stored {
            return Err(err);
        }
        if let Some(light) = self.persisted_lights.remove(&id) {
            let mut light = light;
            light.control_enabled = control_enabled;
            self.persisted_lights.insert(id, light);
        }
        assert(self@ =~= old(self)@.with_stored_changed(
            id,
            |light: StoredLight| StoredLight { control_enabled, ..light },
        ));
        if let Some(light) = self.light(id) {
            let mut light = light;
            light.control_enabled = control_enabled;
            if !control_enabled {
                light.power_override = None;
            }
            self.put_light(id, light);
        }
        assert(self@ =~= old(self)@.with_control_enabled(id, control_enabled));
        Ok(previous)
    }

    /// Takes the store's reply to a new device label; a refusal changes nothing.
    pub fn record_device_label(
        &mut self,
        id: LifxId,
        device_label: Option<String>,
        stored: Result<(), StoreError>,
    ) -> (r: Result<(), StoreError>)
        requires
            old(self)@.wf(),
        ensures
            final(self)@.wf(),
            r == stored,
            final(self)@ == match stored {
                Ok(_) => old(self)@.with_device_label(id, device_label),
                Err(_) => old(self)@,
            },
    {
        if stored.is_ok() {
            if let Some(light) = self.persisted_lights.remove(&id) {
                let mut light = light;
                light.device_label = clone_optional(&device_label);
                self.persisted_lights.insert(id, light);
            }
            assert(self@ =~= old(self)@.with_stored_changed(
                id,
                |light: StoredLight| StoredLight { device_label, ..light },
            ));
            if let Some(light) = self.light(id) {
                let mut light = light;
                light.label = device_label;
                self.put_light(id, light);
            }
            assert(self@ =~= old(self)@.with_device_label(id, device_label));
        }
        stored
    }

    /// Remembers the commanded power and gives back the one it replaces.
    pub fn set_desired_power(&mut self, id: LifxId, power: Option<Power>) -> (r: Option<
        Option<Power>,
    >)
        requires
            old(self)@.wf(),
        ensures
            final(self)@.wf(),
            final(self)@ == old(self)@.with_desired_power(id, power),
            r == (if old(self)@.lights.contains_key(id) {
                Some(old(self)@.lights[id].desired_power)
            } else {
                None
            }),
    {
        match self.light(id) {
            None => None,
            Some(light) => {
                let mut light = light;
                let previous = light.desired_power;
                light.desired_power = power;
                self.put_light(id, light);
                Some(previous)
            },
        }
    }

    /// Remembers the commanded colour and gives back the one it replaces.
    pub fn set_desired_color(&mut self, id: LifxId, color: Color) -> (r: Option<ColorTarget>)
        requires
            old(self)@.wf(),
        ensures
            final(self)@.wf(),
            final(self)@ == old(self)@.with_desired_color(id, color),
            r == (if old(self)@.lights.contains_key(id) {
                old(self)@.lights[id].desired_color
            } else {
                None
            }),
    {
        match self.light(id) {
            None => None,
            Some(light) => {
                let mut light = light;
                let previous = light.desired_color;
                light.desired_color = Some(ColorTarget::from(color));
                self.put_light(id, light);
                previous
            },
        }
    }

    /// Remembers the commanded brightness, ends any transition, and gives back the brightness that
    /// was commanded before, or the new one where none was.
    pub fn set_desired_brightness(&mut self, id: LifxId, brightness: u16) -> (r: Option<u16>)
        requires
            old(self)@.wf(),
        ensures
            final(self)@.wf(),
            final(self)@ == old(self)@.with_desired_brightness(id, brightness),
            r == (if old(self)@.lights.contains_key(id) {
                Some(old(self)@.lights[id].desired_brightness.unwrap_or(brightness))
            } else {
                None
            }),
    {
        match self.light(id) {
            None => None,
            Some(light) => {
                let mut light = light;
                let previous: u16 = match light.desired_brightness {
                    Some(level) => level,
                    None => brightness,
                };
                light.desired_brightness = Some(brightness);
                light.brightness_transition = None;
                self.put_light(id, light);
                Some(previous)
            },
        }
    }

    /// Starts a brightness change; says whether the light is known.
    pub fn begin_brightness_transition<F: Fn(Interpolation) -> u16>(
        &mut self,
        id: LifxId,
        target: u16,
        duration: Duration,
        started: Instant,
        interpolate: &F,
    ) -> (r: bool)
        requires
            old(self)@.wf(),
            is_interpolator(*interpolate),
        ensures
            final(self)@.wf(),
            final(self)@ == old(self)@.with_transition(
                id,
                target,
                duration,
                started,
                *interpolate,
            ),
            r == old(self)@.lights.contains_key(id),
    {
        match self.light(id) {
            None => false,
            Some(light) => {
                let light = light.begin_transition(target, duration, started, interpolate);
                self.put_light(id, light);
                true
            },
        }
    }

    pub fn clear_brightness_transition(&mut self, id: LifxId)
        requires
            old(self)@.wf(),
        ensures
            final(self)@.wf(),
            final(self)@ == old(self)@.without_transition(id),
    {
        if let Some(light) = self.light(id) {
            let mut light = light;
            light.brightness_transition = None;
            self.put_light(id, light);
        }
    }

    /// Sets or drops the manual power choice and gives back the one it replaces.
    pub fn set_power_override(&mut self, id: LifxId, power: Option<Power>) -> (r: Option<
        Option<Power>,
    >)
        requires
            old(self)@.wf(),
        ensures
            final(self)@.wf(),
            final(self)@ == old(self)@.with_power_override(id, power),
            r == (if old(self)@.lights.contains_key(id) {
                Some(old(self)@.lights[id].power_override)
            } else {
                None
            }),
    {
        match self.light(id) {
            None => None,
            Some(light) => {
                let mut light = light;
                let previous = light.power_override;
                light.power_override = power;
                self.put_light(id, light);
                Some(previous)
            },
        }
    }

    /// Records a physical observation. `Some(true)` when the visible state changed, `Some(false)`
    /// when it is unchanged, `None` for an unknown light.
    pub fn record_observation(&mut self, id: LifxId, observed: LightState, now: Instant) -> (r:
        Option<bool>)
        requires
            old(self)@.wf(),
        ensures
            final(self)@.wf(),
            final(self)@ == old(self)@.with_observation(id, observed, now),
            r == old(self)@.observation_change(id, observed),
    {
        match self.light(id) {
            None => None,
            Some(light) => {
                let mut light = light;
                let changed = match light.observed {
                    Some(before) => before != observed,
                    None => true,
                };
                light.observed = Some(observed);
                light.last_observed = Some(now);
                let over = match &light.brightness_transition {
                    Some(transition) => !transition.is_active(now),
                    None => false,
                };
                if over {
                    light.brightness_transition = None;
                }
                self.put_light(id, light);
                Some(changed)
            },
        }
    }

    /// Applies `change` to every known light.
    fn change_each<G: Fn(ManagedLight) -> ManagedLight>(
        &mut self,
        change: &G,
        Ghost(changed): Ghost<spec_fn(ManagedLight) -> ManagedLight>,
    )
        requires
            old(self)@.wf(),
            forall|light: ManagedLight| #[trigger] change.requires((light,)),
            forall|light: ManagedLight, r: ManagedLight|
                change.ensures((light,), r) ==> r == changed(light),
            forall|light: ManagedLight|
                light.transition_ok() ==> (#[trigger] changed(light)).transition_ok()
                    && changed(light).device.id == light.device.id,
        ensures
            final(self)@.wf(),
            final(self)@ == old(self)@.with_each_changed(changed),
    {
        let ids = self.light_ids();
        let ghost before = self@.lights;
        let ghost after = self@.with_each_changed(changed).lights;
        for i in 0..ids.len()
            invariant
                old(self)@.wf(),
                before == old(self)@.lights,
                after == old(self)@.with_each_changed(changed).lights,
                lists(ids@, before.dom()),
                self@ == (ControllerModel { lights: self@.lights, ..old(self)@ }),
                self@.lights.dom() == before.dom(),
                forall|j: int| 0 <= j < i ==> self@.lights[#[trigger] ids@[j]] == after[ids@[j]],
                forall|j: int|
                    i <= j < ids@.len() ==> self@.lights[#[trigger] ids@[j]] == before[ids@[j]],
                forall|light: ManagedLight| #[trigger] change.requires((light,)),
                forall|light: ManagedLight, r: ManagedLight|
                    change.ensures((light,), r) ==> r == changed(light),
        {
            let id: LifxId = ids[i];
            assert(ids@.contains(id));
            let ghost current = self@;
            if let Some(light) = self.lights.remove(&id) {
                self.lights.insert(id, change(light));
            }
            assert(self@ =~= current.with_light(id, after[id]));
            assert(self@.lights.dom() =~= before.dom());
        }
        assert forall|id: LifxId| before.contains_key(id) implies self@.lights[id] == after[id] by {
            assert(ids@.contains(id));
            let j = choose|j: int| 0 <= j < ids@.len() && ids@[j] == id;
            assert(self@.lights[ids@[j]] == after[ids@[j]]);
        }
        assert(self@.lights =~= after);
        assert(self@ =~= old(self)@.with_each_changed(changed));
    }

    /// Applies `change` to every light that `mode` governs.
    fn change_governed<G: Fn(ManagedLight) -> ManagedLight>(
        &mut self,
        mode: LightMode,
        change: &G,
        Ghost(changed): Ghost<spec_fn(ManagedLight) -> ManagedLight>,
    )
        requires
            old(self)@.wf(),
            forall|light: ManagedLight| #[trigger] change.requires((light,)),
            forall|light: ManagedLight, r: ManagedLight|
                change.ensures((light,), r) ==> r == changed(light),
            forall|light: ManagedLight|
                light.transition_ok() ==> (#[trigger] changed(light)).transition_ok()
                    && changed(light).device.id == light.device.id,
        ensures
            final(self)@.wf(),
            final(self)@ == old(self)@.with_mode_changed(mode, changed),
    {
        let ghost governed_changed = |light: ManagedLight|
            if light.governed_by(mode) {
                changed(light)
            } else {
                light
            };
        let change_if_governed = |light: ManagedLight| -> (r: ManagedLight)
            ensures
                r == governed_changed(light),
            {
                if light.mode == mode && light.control_enabled {
                    change(light)
                } else {
                    light
                }
            };
        self.change_each(&change_if_governed, Ghost(governed_changed));
    }

    pub fn set_desired_power_for_mode(&mut self, mode: LightMode, power: Power)
        requires
            old(self)@.wf(),
        ensures
            final(self)@.wf(),
            final(self)@ == old(self)@.with_mode_changed(
                mode,
                |light: ManagedLight| ManagedLight { desired_power: Some(power), ..light },
            ),
    {
        let change = |light: ManagedLight| -> (r: ManagedLight)
            ensures
                r == (ManagedLight { desired_power: Some(power), ..light }),
            {
                let mut light = light;
                light.desired_power = Some(power);
                light
            };
        self.change_governed(
            mode,
            &change,
            Ghost(|light: ManagedLight| ManagedLight { desired_power: Some(power), ..light }),
        );
    }

    pub fn set_desired_color_for_mode(&mut self, mode: LightMode, color: Color)
        requires
            old(self)@.wf(),
        ensures
            final(self)@.wf(),
            final(self)@ == old(self)@.with_mode_changed(
                mode,
                |light: ManagedLight|
                    ManagedLight { desired_color: Some(color_target(color)), ..light },
            ),
    {
        let target = ColorTarget::from(color);
        let change = |light: ManagedLight| -> (r: ManagedLight)
            ensures
                r == (ManagedLight { desired_color: Some(target), ..light }),
            {
                let mut light = light;
                light.desired_color = Some(target);
                light
            };
        self.change_governed(
            mode,
            &change,
            Ghost(
                |light: ManagedLight|
                    ManagedLight { desired_color: Some(color_target(color)), ..light },
            ),
        );
    }

    pub fn begin_brightness_transition_for_mode<F: Fn(Interpolation) -> u16>(
        &mut self,
        mode: LightMode,
        target: u16,
        duration: Duration,
        started: Instant,
        interpolate: &F,
    )
        requires
            old(self)@.wf(),
            is_interpolator(*interpolate),
        ensures
            final(self)@.wf(),
            final(self)@ == old(self)@.with_mode_changed(
                mode,
                |light: ManagedLight| light.heading_for(target, duration, started, *interpolate),
            ),
    {
        let change = |light: ManagedLight| -> (r: ManagedLight)
            ensures
                r == light.heading_for(target, duration, started, *interpolate),
            { light.begin_transition(target, duration, started, interpolate) };
        self.change_governed(
            mode,
            &change,
            Ghost(
                |light: ManagedLight| light.heading_for(target, duration, started, *interpolate),
            ),
        );
    }

    /// Drops the manual power choice of every light in `mode`, controlled or not, and says how many
    /// there were.
    pub fn clear_power_overrides_in_mode(&mut self, mode: LightMode) -> (r: usize)
        requires
            old(self)@.wf(),
        ensures
            final(self)@.wf(),
            final(self)@ == old(self)@.without_overrides(mode),
            r == old(self)@.overridden(mode).len(),
    {
        let ids = self.light_ids();
        let mut cleared: usize = 0;
        let ghost mut counted: Set<LifxId> = Set::empty();
        for i in 0..ids.len()
            invariant
                lists(ids@, self@.lights.dom()),
                cleared <= i,
                cleared == counted.len(),
                counted.finite(),
                forall|id: LifxId|
                    counted.contains(id) <==> self@.overridden(mode).contains(id)
                        && ids@.take(i as int).contains(id),
        {
            let id: LifxId = ids[i];
            assert(ids@.contains(id));
            let ghost seen = ids@.take(i as int);
            assert(ids@.take(i + 1) =~= seen.push(id));
            assert(!seen.contains(id));
            proof {
                pushed_contains(seen, id);
            }
            if let Some(light) = self.lights.get(&id) {
                if light.mode == mode && light.power_override.is_some() {
                    cleared += 1;
                    proof {
                        counted = counted.insert(id);
                    }
                }
            }
        }
        assert(ids@.take(ids@.len() as int) =~= ids@);
        assert(counted =~= self@.overridden(mode));
        let ghost cleared_in_mode = |light: ManagedLight|
            if light.mode == mode {
                ManagedLight { power_override: None, ..light }
            } else {
                light
            };
        let change = |light: ManagedLight| -> (r: ManagedLight)
            ensures
                r == cleared_in_mode(light),
            {
                let mut light = light;
                if light.mode == mode {
                    light.power_override = None;
                }
                light
            };
        self.change_each(&change, Ghost(cleared_in_mode));
        cleared
    }

    /// Every known device, in no particular order.
    pub fn known_devices(&self) -> (r: Vec<LifxDevice>)
        requires
            self@.wf(),
        ensures
            lists_devices(r@, self@.lights, self@.lights.dom()),
    {
        let lights = self.lights();
        let mut r: Vec<LifxDevice> = Vec::new();
        for i in 0..lights.len()
            invariant
                r@ == lights@.take(i as int).map_values(|light: ManagedLight| light.device),
        {
            r.push(lights[i].device.clone());
            assert(r@ =~= lights@.take(i + 1).map_values(|light: ManagedLight| light.device));
        }
        assert(r@.map_values(|device: LifxDevice| device.id) =~= lights@.map_values(
            |light: ManagedLight| light.device.id,
        ));
        r
    }

    /// The devices that `mode` governs, in no particular order.
    pub fn devices_in_mode(&self, mode: LightMode) -> (r: Vec<LifxDevice>)
        requires
            self@.wf(),
        ensures
            lists_devices(r@, self@.lights, self@.governed(mode)),
    {
        let ids = self.light_ids();
        let mut r: Vec<LifxDevice> = Vec::new();
        let ghost mut kept: Seq<LifxId> = Seq::empty();
        for i in 0..ids.len()
            invariant
                self@.wf(),
                lists(ids@, self@.lights.dom()),
                picked(kept, ids@.take(i as int), self@.governed(mode)),
                r@ == kept.map_values(|id: LifxId| self@.lights[id].device),
        {
            let id: LifxId = ids[i];
            assert(ids@.contains(id));
            proof {
                picks_next(kept, ids@, i as int, self@.governed(mode));
            }
            if let Some(light) = self.lights.get(&id) {
                if light.mode == mode && light.control_enabled {
                    r.push(light.device.clone());
                    proof {
                        kept = kept.push(id);
                    }
                    assert(r@ =~= kept.map_values(|id: LifxId| self@.lights[id].device));
                }
            }
        }
        assert(ids@.take(ids@.len() as int) =~= ids@);
        assert(forall|i: int| 0 <= i < kept.len() ==> kept.contains(#[trigger] kept[i]));
        assert(r@.map_values(|device: LifxDevice| device.id) =~= kept);
        r
    }

    /// The governed devices whose observed power differs from the one they should have, each with
    /// that power, in no particular order. A manual choice wins over the mode's default.
    pub fn devices_with_power_mismatch(&self, mode: LightMode, mode_power: Power) -> (r: Vec<
        (LifxDevice, Power),
    >)
        requires
            self@.wf(),
        ensures
            lists_devices(
                r@.map_values(|pair: (LifxDevice, Power)| pair.0),
                self@.lights,
                self@.mismatched(mode, mode_power),
            ),
            forall|i: int|
                0 <= i < r@.len() ==> (#[trigger] r@[i]).1
                    == self@.lights[r@[i].0.id].effective_power(mode_power),
    {
        let ids = self.light_ids();
        let mut r: Vec<(LifxDevice, Power)> = Vec::new();
        let ghost mut kept: Seq<LifxId> = Seq::empty();
        let ghost wanted = |id: LifxId|
            (self@.lights[id].device, self@.lights[id].effective_power(mode_power));
        for i in 0..ids.len()
            invariant
                self@.wf(),
                lists(ids@, self@.lights.dom()),
                picked(kept, ids@.take(i as int), self@.mismatched(mode, mode_power)),
                wanted == (|id: LifxId|
                    (self@.lights[id].device, self@.lights[id].effective_power(mode_power))),
                r@ == kept.map_values(wanted),
        {
            let id: LifxId = ids[i];
            assert(ids@.contains(id));
            proof {
                picks_next(kept, ids@, i as int, self@.mismatched(mode, mode_power));
            }
            if let Some(light) = self.lights.get(&id) {
                if light.mode == mode && light.control_enabled {
                    let desired = match light.power_override {
                        Some(power) => power,
                        None => mode_power,
                    };
                    if let Some(observed) = light.observed {
                        if observed.power != desired {
                            r.push((light.device.clone(), desired));
                            proof {
                                kept = kept.push(id);
                            }
                            assert(r@ =~= kept.map_values(wanted));
                        }
                    }
                }
            }
        }
        assert(ids@.take(ids@.len() as int) =~= ids@);
        assert(forall|i: int| 0 <= i < kept.len() ==> kept.contains(#[trigger] kept[i]));
        let ghost devices = r@.map_values(|pair: (LifxDevice, Power)| pair.0);
        assert(devices.map_values(|device: LifxDevice| device.id) =~= kept);
        r
    }
}

} // verus!

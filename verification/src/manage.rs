//! Changes to stored configuration over the web, one step per outside reply: names, control, and
//! groups.
use vstd::prelude::*;

use crate::clock::{Duration, Instant};
use crate::controller::ControllerState;
use crate::device::{LifxDevice, LifxId};
use crate::enrollment::begin_test_mode_sync;
use crate::registry::{Interpolation, LightMode, ManagedLight};
use crate::store::{StoreError, StoredGroup};
use crate::test_mode::{enrolment_target, SyncTarget, TestModeState};
use crate::text::{clone_optional, same_optional};
use crate::web::{normalize_friendly_name, normalize_group_name, parse_lifx_id, ApiError};
#[allow(unused_imports)]
use crate::controller::ControllerModel;
#[allow(unused_imports)]
use crate::enrollment::synchronizing;
#[allow(unused_imports)]
use crate::order::{is_canonical, strictly_ascending};
#[allow(unused_imports)]
use crate::registry::is_interpolator;
#[allow(unused_imports)]
use crate::store::GroupModel;
#[allow(unused_imports)]
use crate::text::{optional_text, shown_id, texts, trimmed};
#[allow(unused_imports)]
use crate::web::{
    friendly_name_complaint, friendly_name_in, group_name_complaint, invalid_id, refused,
    requested_id, shown_id_reads_back, store_answer, unknown_group, ApiErrorModel,
    BAD_REQUEST,
};

verus! {

/// A request to change a light's configuration: a friendly name, whether the light is controlled,
/// or both. A blank friendly name removes the name.
#[derive(Debug)]
pub struct ManagedLightUpdate {
    pub friendly_name: Option<String>,
    pub control_enabled: Option<bool>,
}

/// What became of a request: whether the bulb carries the name, and whether it follows Test Mode.
#[derive(Clone, Copy, Debug, PartialEq, Eq, Structural)]
pub struct ManagedLightUpdateResult {
    pub saved: bool,
    pub label_synced: Option<bool>,
    pub test_state_synced: Option<bool>,
}

/// A change of configuration under way.
#[derive(Clone, Copy, Debug, PartialEq, Eq, Structural)]
pub struct ManagedUpdate {
    pub id: LifxId,
    /// Whether the light is to be controlled, where that was asked for.
    pub control_enabled: Option<bool>,
    pub label_synced: Option<bool>,
    pub test_state_synced: Option<bool>,
}

/// What a change of configuration needs next.
#[derive(Debug)]
pub enum UpdateStep {
    /// The friendly name is to be stored.
    StoreName(AwaitName),
    /// The name is to be written to the bulb as its label.
    WriteLabel(AwaitLabel),
    /// The label that the bulb confirmed is to be stored.
    RecordLabel(AwaitRecord),
    /// Whether the light is controlled is to be stored.
    StoreControl(AwaitControl),
    /// Test Mode's colour and power are to be sent to the light.
    Synchronize(AwaitTestState),
    Done(ManagedLightUpdateResult),
    Refused(ApiError),
}

/// What follows once a label is dealt with.
#[derive(Debug)]
pub enum AfterLabel {
    /// The rest of the request.
    Control,
    /// The light, if it is to be brought to Test Mode's state.
    TestState(Option<ManagedLight>),
}

/// A change that waits for the store to take a friendly name.
#[derive(Debug)]
pub struct AwaitName {
    pub update: ManagedUpdate,
    pub name: Option<String>,
    pub previous: Option<String>,
}

/// A change that waits for a bulb to take a label.
#[derive(Debug)]
pub struct AwaitLabel {
    pub update: ManagedUpdate,
    pub device: LifxDevice,
    pub label: String,
    pub after: AfterLabel,
}

/// A change that waits for the store to take a label.
#[derive(Debug)]
pub struct AwaitRecord {
    pub update: ManagedUpdate,
    pub label: String,
    pub after: AfterLabel,
}

/// A change that waits for the store to take whether the light is controlled.
#[derive(Debug)]
pub struct AwaitControl {
    pub update: ManagedUpdate,
    pub control_enabled: bool,
    pub previous: Option<bool>,
}

/// A change that waits for a light to accept Test Mode's state.
#[derive(Debug)]
pub struct AwaitTestState {
    pub update: ManagedUpdate,
    pub light: ManagedLight,
    /// What is to be sent to the light.
    pub target: SyncTarget,
}

/// Why a change of configuration is refused before anything is stored.
pub open spec fn update_complaint(
    id_text: Seq<char>,
    friendly_name: Option<Seq<char>>,
    control_enabled: Option<bool>,
) -> Option<ApiErrorModel> {
    if requested_id(id_text) is None {
        Some(invalid_id())
    } else if friendly_name is None && control_enabled is None {
        Some(refused(BAD_REQUEST, "no device-management fields were supplied"@))
    } else {
        match friendly_name {
            Some(name) => match friendly_name_complaint(name) {
                Some(text) => Some(refused(BAD_REQUEST, text)),
                None => None,
            },
            None => None,
        }
    }
}

/// A name is written to a bulb that is known and controlled.
pub open spec fn label_after_rename(
    model: ControllerModel,
    id: LifxId,
    name: Option<String>,
) -> bool {
    &&& name is Some
    &&& model.known(id) matches Some(light)
    &&& light.control_enabled
}

/// When control is enabled, a name is written to a bulb that does not carry it.
pub open spec fn label_after_enabling(light: ManagedLight) -> bool {
    light.friendly_name is Some && optional_text(light.label) != optional_text(light.friendly_name)
}

impl ManagedUpdate {
    pub open spec fn outcome(self) -> ManagedLightUpdateResult {
        ManagedLightUpdateResult {
            saved: true,
            label_synced: self.label_synced,
            test_state_synced: self.test_state_synced,
        }
    }

    /// What follows a friendly name: whether the light is controlled, where that was asked for.
    pub open spec fn control_step(self, model: ControllerModel) -> UpdateStep {
        match self.control_enabled {
            Some(control_enabled) => UpdateStep::StoreControl(
                AwaitControl {
                    update: self,
                    control_enabled,
                    previous: if model.stored.contains_key(self.id) {
                        Some(model.stored[self.id].control_enabled)
                    } else {
                        None
                    },
                },
            ),
            None => UpdateStep::Done(self.outcome()),
        }
    }

    /// What follows a label; a light is brought to Test Mode's state as `target` has it.
    pub open spec fn step_after(
        self,
        after: AfterLabel,
        model: ControllerModel,
        target: SyncTarget,
    ) -> UpdateStep {
        match after {
            AfterLabel::Control => self.control_step(model),
            AfterLabel::TestState(Some(light)) => UpdateStep::Synchronize(
                AwaitTestState { update: self, light, target },
            ),
            AfterLabel::TestState(None) => UpdateStep::Done(self.outcome()),
        }
    }

    fn result(self) -> (r: ManagedLightUpdateResult)
        ensures
            r == self.outcome(),
    {
        ManagedLightUpdateResult {
            saved: true,
            label_synced: self.label_synced,
            test_state_synced: self.test_state_synced,
        }
    }

    fn store_control(self, state: &ControllerState) -> (r: UpdateStep)
        ensures
            r == self.control_step(state@),
    {
        match self.control_enabled {
            Some(control_enabled) => UpdateStep::StoreControl(
                AwaitControl {
                    update: self,
                    control_enabled,
                    previous: state.control_enabled(self.id),
                },
            ),
            None => UpdateStep::Done(self.result()),
        }
    }

    fn go_on(self, after: AfterLabel, state: &ControllerState, test_mode: &TestModeState) -> (r:
        UpdateStep)
        ensures
            r == self.step_after(after, state@, test_mode.joining()),
    {
        match after {
            AfterLabel::Control => self.store_control(state),
            AfterLabel::TestState(Some(light)) => UpdateStep::Synchronize(
                AwaitTestState { update: self, light, target: enrolment_target(test_mode) },
            ),
            AfterLabel::TestState(None) => UpdateStep::Done(self.result()),
        }
    }
}

/// Where a change of a light's configuration starts: with the name, where one was asked for.
pub fn update_managed_light(
    state: &ControllerState,
    id_text: &str,
    request: ManagedLightUpdate,
) -> (r: UpdateStep)
    ensures
        match update_complaint(
            id_text@,
            optional_text(request.friendly_name),
            request.control_enabled,
        ) {
            Some(answer) => r matches UpdateStep::Refused(err) && err@ == answer,
            None => {
                let update = ManagedUpdate {
                    id: requested_id(id_text@)->0,
                    control_enabled: request.control_enabled,
                    label_synced: None,
                    test_state_synced: None,
                };
                match request.friendly_name {
                    Some(asked) => {
                        &&& r matches UpdateStep::StoreName(next)
                        &&& next.update == update
                        &&& optional_text(next.name) == friendly_name_in(asked@)
                        &&& next.previous == if state@.stored.contains_key(update.id) {
                            state@.stored[update.id].friendly_name
                        } else {
                            None
                        }
                    },
                    None => r == update.control_step(state@),
                }
            },
        },
{
    let id: LifxId = match parse_lifx_id(id_text) {
        Ok(id) => id,
        Err(err) => return UpdateStep::Refused(err),
    };
    if request.friendly_name.is_none() && request.control_enabled.is_none() {
        return UpdateStep::Refused(
            ApiError::bad_request("no device-management fields were supplied"),
        );
    }
    let update = ManagedUpdate {
        id,
        control_enabled: request.control_enabled,
        label_synced: None,
        test_state_synced: None,
    };
    match request.friendly_name {
        None => update.store_control(state),
        Some(name) => match normalize_friendly_name(Some(name)) {
            Ok(name) => UpdateStep::StoreName(
                AwaitName { update, name, previous: state.friendly_name(id) },
            ),
            Err(err) => UpdateStep::Refused(err),
        },
    }
}

impl AwaitName {
    /// The change once its name is stored: the bulb's label is behind until the bulb confirms it.
    pub open spec fn named(self) -> ManagedUpdate {
        ManagedUpdate {
            label_synced: if self.name is Some {
                Some(false)
            } else {
                self.update.label_synced
            },
            ..self.update
        }
    }

    /// Takes the store's reply. What is stored counts, whether or not the bulb can be reached.
    pub fn stored(self, state: &mut ControllerState, reply: Result<(), StoreError>) -> (r:
        UpdateStep)
        requires
            old(state)@.wf(),
        ensures
            r is Refused <==> reply is Err,
            reply is Err ==> final(state)@ == old(state)@,
            reply is Ok && old(state)@.known(self.update.id) is Some
                ==> final(state)@.lights[self.update.id].friendly_name == self.name,
            reply is Ok && old(state)@.stored.contains_key(self.update.id)
                ==> final(state)@.stored[self.update.id].friendly_name == self.name,
            r matches UpdateStep::WriteLabel(next) ==> Some(next.label) == self.name
                && final(state)@.lights[self.update.id].control_enabled && next.device
                == final(state)@.lights[self.update.id].device,
            final(state)@.wf(),
            match reply {
                Err(err) => {
                    &&& r matches UpdateStep::Refused(answer)
                    &&& answer@ == store_answer(err)
                    &&& final(state)@ == old(state)@
                },
                Ok(_) => {
                    let id = self.update.id;
                    &&& final(state)@ == old(state)@.with_friendly_name(id, self.name)
                    &&& if label_after_rename(final(state)@, id, self.name) {
                        r == UpdateStep::WriteLabel(
                            AwaitLabel {
                                update: self.named(),
                                device: final(state)@.lights[id].device,
                                label: self.name->0,
                                after: AfterLabel::Control,
                            },
                        )
                    } else {
                        r == self.named().control_step(final(state)@)
                    }
                },
            },
    {
        let id: LifxId = self.update.id;
        match state.set_friendly_name(id, clone_optional(&self.name), self.previous, reply) {
            Ok(_) => {},
            Err(err) => return UpdateStep::Refused(ApiError::store(err)),
        }
        let mut update = self.update;
        if let Some(label) = self.name {
            update.label_synced = Some(false);
            if let Some(light) = state.light(id) {
                if light.control_enabled {
                    return UpdateStep::WriteLabel(
                        AwaitLabel {
                            update,
                            device: light.device,
                            label,
                            after: AfterLabel::Control,
                        },
                    );
                }
            }
        }
        update.store_control(state)
    }
}

impl AwaitLabel {
    /// Takes the label that the bulb confirmed; where it did not take the label, a later discovery
    /// tries again.
    pub fn written(
        self,
        state: &ControllerState,
        reply: Result<String, String>,
        test_mode: &TestModeState,
    ) -> (r: UpdateStep)
        ensures
            r is RecordLabel <==> reply is Ok,
            r == match reply {
                Ok(confirmed) => UpdateStep::RecordLabel(
                    AwaitRecord { update: self.update, label: confirmed, after: self.after },
                ),
                Err(_) => (ManagedUpdate { label_synced: Some(false), ..self.update }).step_after(
                    self.after,
                    state@,
                    test_mode.joining(),
                ),
            },
    {
        match reply {
            Ok(confirmed) => UpdateStep::RecordLabel(
                AwaitRecord { update: self.update, label: confirmed, after: self.after },
            ),
            Err(_) => {
                let mut update = self.update;
                update.label_synced = Some(false);
                update.go_on(self.after, state, test_mode)
            },
        }
    }
}

impl AwaitRecord {
    /// Takes the store's reply to the label that the bulb confirmed.
    pub fn recorded(
        self,
        state: &mut ControllerState,
        reply: Result<(), StoreError>,
        test_mode: &TestModeState,
    ) -> (r: UpdateStep)
        requires
            old(state)@.wf(),
        ensures
            r is Refused <==> reply is Err,
            reply is Err ==> final(state)@ == old(state)@,
            reply is Ok && old(state)@.known(self.update.id) is Some
                ==> final(state)@.lights[self.update.id].label == Some(self.label),
            final(state)@.wf(),
            match reply {
                Err(err) => {
                    &&& r matches UpdateStep::Refused(answer)
                    &&& answer@ == store_answer(err)
                    &&& final(state)@ == old(state)@
                },
                Ok(_) => {
                    &&& final(state)@ == old(state)@.with_device_label(
                        self.update.id,
                        Some(self.label),
                    )
                    &&& r == (ManagedUpdate { label_synced: Some(true), ..self.update }).step_after(
                        self.after,
                        final(state)@,
                        test_mode.joining(),
                    )
                },
            },
    {
        match state.record_device_label(self.update.id, Some(self.label), reply) {
            Ok(_) => {},
            Err(err) => return UpdateStep::Refused(ApiError::store(err)),
        }
        let mut update = self.update;
        update.label_synced = Some(true);
        update.go_on(self.after, state, test_mode)
    }
}

impl AwaitControl {
    /// What enabling control calls for: the bulb's name, then Test Mode's state where the light is
    /// in that mode.
    pub open spec fn enabled_step(self, light: ManagedLight, target: SyncTarget) -> UpdateStep {
        let test_state = AfterLabel::TestState(
            if light.mode == LightMode::Test {
                Some(light)
            } else {
                None
            },
        );
        if label_after_enabling(light) {
            UpdateStep::WriteLabel(
                AwaitLabel {
                    update: self.update,
                    device: light.device,
                    label: light.friendly_name->0,
                    after: test_state,
                },
            )
        } else {
            match test_state {
                AfterLabel::TestState(Some(light)) => UpdateStep::Synchronize(
                    AwaitTestState { update: self.update, light, target },
                ),
                _ => UpdateStep::Done(self.update.outcome()),
            }
        }
    }

    /// Takes the store's reply. A light that comes under control again is brought up to date.
    pub fn stored(
        self,
        state: &mut ControllerState,
        reply: Result<(), StoreError>,
        test_mode: &TestModeState,
    ) -> (r: UpdateStep)
        requires
            old(state)@.wf(),
        ensures
            r is Refused <==> reply is Err,
            reply is Err ==> final(state)@ == old(state)@,
            reply is Ok && old(state)@.known(self.update.id) is Some
                ==> final(state)@.lights[self.update.id].control_enabled == self.control_enabled,
            reply is Ok && old(state)@.stored.contains_key(self.update.id)
                ==> final(state)@.stored[self.update.id].control_enabled == self.control_enabled,
            reply is Ok && !self.control_enabled ==> r is Done,
            final(state)@.wf(),
            match reply {
                Err(err) => {
                    &&& r matches UpdateStep::Refused(answer)
                    &&& answer@ == store_answer(err)
                    &&& final(state)@ == old(state)@
                },
                Ok(_) => {
                    let id = self.update.id;
                    &&& final(state)@ == old(state)@.with_control_enabled(id, self.control_enabled)
                    &&& r == match final(state)@.known(id) {
                        Some(light) if self.control_enabled => self.enabled_step(
                            light,
                            test_mode.joining(),
                        ),
                        _ => UpdateStep::Done(self.update.outcome()),
                    }
                },
            },
    {
        let update = self.update;
        match state.set_control_enabled(update.id, self.control_enabled, self.previous, reply) {
            Ok(_) => {},
            Err(err) => return UpdateStep::Refused(ApiError::store(err)),
        }
        if !self.control_enabled {
            return UpdateStep::Done(update.result());
        }
        let light = match state.light(update.id) {
            Some(light) => light,
            None => return UpdateStep::Done(update.result()),
        };
        let carried = same_optional(&light.label, &light.friendly_name);
        let name = clone_optional(&light.friendly_name);
        let device = light.device.clone();
        let after = if light.mode == LightMode::Test {
            AfterLabel::TestState(Some(light))
        } else {
            AfterLabel::TestState(None)
        };
        match name {
            Some(label) if !carried => UpdateStep::WriteLabel(
                AwaitLabel { update, device, label, after },
            ),
            _ => update.go_on(after, state, test_mode),
        }
    }
}

impl AwaitTestState {
    /// The light accepted Test Mode's state at `started`; it is to be checked once it had time to
    /// get there.
    pub fn accepted<F: Fn(Interpolation) -> u16>(
        self,
        state: &mut ControllerState,
        transition: Duration,
        started: Instant,
        interpolate: &F,
    ) -> (r: ManagedLightUpdateResult)
        requires
            old(state)@.wf(),
            is_interpolator(*interpolate),
        ensures
            r.saved && r.test_state_synced == Some(true) && r.label_synced == self.update.label_synced,
            old(state)@.known(self.update.id) is Some ==> final(state)@.lights[self.update.id].desired_power
                == Some(self.target.power),
            final(state)@.wf(),
            r == (ManagedLightUpdateResult {
                test_state_synced: Some(true),
                ..self.update.outcome()
            }),
            final(state)@ == synchronizing(
                old(state)@,
                self.update.id,
                self.target,
                transition,
                started,
                *interpolate,
            ),
    {
        begin_test_mode_sync(
            state,
            self.update.id,
            self.target,
            transition,
            started,
            interpolate,
        );
        let mut result = self.update.result();
        result.test_state_synced = Some(true);
        result
    }

    /// The light did not accept Test Mode's state; the regular tasks try again.
    pub fn failed(self) -> (r: ManagedLightUpdateResult)
        ensures
            r == (ManagedLightUpdateResult {
                test_state_synced: Some(false),
                ..self.update.outcome()
            }),
    {
        let mut result = self.update.result();
        result.test_state_synced = Some(false);
        result
    }
}

/// A newly made group.
#[derive(Debug)]
pub struct CreateGroupResult {
    pub id: i64,
    pub name: String,
}

/// Takes the store's reply to a new group.
pub fn create_group(state: &mut ControllerState, stored: Result<StoredGroup, StoreError>) -> (r:
    Result<CreateGroupResult, ApiError>)
    requires
        old(state)@.wf(),
    ensures
        final(state)@.wf(),
        match (r, stored) {
            (Ok(made), Ok(group)) => {
                &&& made.id == group.id && made.name@ == group.name@
                &&& final(state)@ == old(state)@.with_group(group.id, group@)
            },
            (Err(answer), Err(err)) => {
                &&& answer@ == store_answer(err)
                &&& final(state)@ == old(state)@
            },
            _ => false,
        },
{
    match state.create_group(stored) {
        Ok(group) => Ok(CreateGroupResult { id: group.id, name: group.name }),
        Err(err) => Err(ApiError::store(err)),
    }
}

/// Takes the store's reply to the deletion of a group.
pub fn delete_group(state: &mut ControllerState, id: i64, stored: Result<(), StoreError>) -> (r:
    Result<(), ApiError>)
    requires
        old(state)@.wf(),
    ensures
        final(state)@.wf(),
        match stored {
            Ok(_) => {
                &&& r is Ok
                &&& final(state)@ == (ControllerModel {
                    groups: old(state)@.groups.remove(id),
                    ..old(state)@
                })
            },
            Err(err) => {
                &&& r matches Err(answer)
                &&& answer@ == store_answer(err)
                &&& final(state)@ == old(state)@
            },
        },
{
    match state.delete_group(id, stored) {
        Ok(_) => Ok(()),
        Err(err) => Err(ApiError::store(err)),
    }
}

/// A request to change a group: its name, its members, or both.
#[derive(Debug)]
pub struct UpdateGroupRequest {
    pub name: Option<String>,
    pub member_ids: Option<Vec<String>>,
}

/// What a change of a group needs next.
#[derive(Debug)]
pub enum GroupStep {
    /// The name is to be stored.
    StoreName(AwaitGroupName),
    /// The membership is to be stored.
    StoreMembers(AwaitMembers),
    Done,
    Refused(ApiError),
}

/// A change of a group that waits for the store to take a name.
#[derive(Debug)]
pub struct AwaitGroupName {
    pub id: i64,
    pub name: String,
    /// The members to come, where they were asked for.
    pub member_ids: Option<Vec<String>>,
}

/// A change of a group that waits for the store to take a membership.
#[derive(Debug)]
pub struct AwaitMembers {
    pub id: i64,
    /// Ascending and without repetition.
    pub member_ids: Vec<LifxId>,
}

/// Why a change of a group is refused before anything is stored.
pub open spec fn group_update_complaint(
    model: ControllerModel,
    id: i64,
    request: UpdateGroupRequest,
) -> Option<ApiErrorModel> {
    if request.name is None && request.member_ids is None {
        Some(refused(BAD_REQUEST, "no group-management fields were supplied"@))
    } else if !model.groups.contains_key(id) {
        Some(unknown_group())
    } else {
        match request.name {
            Some(name) => match group_name_complaint(name@) {
                Some(text) => Some(refused(BAD_REQUEST, text)),
                None => None,
            },
            None => None,
        }
    }
}

/// The identifiers that texts name; nothing where one of them names none.
pub open spec fn requested_ids(texts: Seq<Seq<char>>) -> Option<Seq<LifxId>>
    decreases texts.len(),
{
    if texts.len() == 0 {
        Some(Seq::empty())
    } else {
        match (requested_ids(texts.drop_last()), requested_id(texts.last())) {
            (Some(ids), Some(id)) => Some(ids.push(id)),
            _ => None,
        }
    }
}

/// A membership can be stored where every text names a stored light.
pub open spec fn are_stored(model: ControllerModel, ids: Seq<LifxId>) -> bool {
    forall|id: LifxId| ids.contains(id) ==> #[trigger] model.stored.contains_key(id)
}

/// The lowest of the identifiers that is not stored.
pub open spec fn is_first_unknown(
    model: ControllerModel,
    ids: Seq<LifxId>,
    unknown: LifxId,
) -> bool {
    &&& ids.contains(unknown)
    &&& !model.stored.contains_key(unknown)
    &&& forall|id: LifxId|
        ids.contains(id) && id < unknown ==> #[trigger] model.stored.contains_key(id)
}

proof fn one_bad_text_decides(texts: Seq<Seq<char>>, i: int)
    requires
        0 <= i <= texts.len(),
        requested_ids(texts.take(i)) is None,
    ensures
        requested_ids(texts) is None,
    decreases texts.len(),
{
    if i == texts.len() {
        assert(texts.take(i) =~= texts);
    } else {
        assert(texts.drop_last().take(i) =~= texts.take(i));
        one_bad_text_decides(texts.drop_last(), i);
    }
}

fn parse_ids(member_ids: &Vec<String>) -> (r: Result<Vec<LifxId>, ApiError>)
    ensures
        match (r, requested_ids(texts(member_ids@))) {
            (Ok(ids), Some(named)) => ids@ == named,
            (Err(err), None) => err@ == invalid_id(),
            _ => false,
        },
{
    let ghost all = texts(member_ids@);
    let mut ids: Vec<LifxId> = Vec::new();
    assert(all.take(0) =~= Seq::empty());
    for i in 0..member_ids.len()
        invariant
            all == texts(member_ids@),
            requested_ids(all.take(i as int)) == Some(ids@),
    {
        assert(all.take(i + 1).drop_last() =~= all.take(i as int));
        assert(all.take(i + 1).last() == member_ids@[i as int]@);
        match parse_lifx_id(member_ids[i].as_str()) {
            Ok(id) => ids.push(id),
            Err(err) => {
                proof {
                    one_bad_text_decides(all, i + 1);
                }
                return Err(err);
            },
        }
    }
    assert(all.take(all.len() as int) =~= all);
    Ok(ids)
}

/// `r` is what a request for members comes to: every member must be named properly and be stored.
pub open spec fn is_members_step(
    r: GroupStep,
    model: ControllerModel,
    id: i64,
    member_ids: Option<Vec<String>>,
) -> bool {
    match member_ids {
        None => r == GroupStep::Done,
        Some(member_ids) => match requested_ids(texts(member_ids@)) {
            None => r matches GroupStep::Refused(err) && err@ == invalid_id(),
            Some(named) => if are_stored(model, named) {
                r matches GroupStep::StoreMembers(next) && next.id == id && is_canonical(
                    named,
                    next.member_ids@,
                )
            } else {
                r matches GroupStep::Refused(err) && exists|unknown: LifxId|
                    {
                        &&& #[trigger] is_first_unknown(model, named, unknown)
                        &&& err@ == store_answer(StoreError::UnknownLight(unknown))
                    }
            },
        },
    }
}

fn members_step(state: &ControllerState, id: i64, member_ids: Option<Vec<String>>) -> (r: GroupStep)
    ensures
        is_members_step(r, state@, id, member_ids),
{
    let member_ids = match member_ids {
        None => return GroupStep::Done,
        Some(member_ids) => member_ids,
    };
    let named = match parse_ids(&member_ids) {
        Ok(named) => named,
        Err(err) => return GroupStep::Refused(err),
    };
    match state.plan_group_members(&named) {
        Ok(member_ids) => GroupStep::StoreMembers(AwaitMembers { id, member_ids }),
        Err(err) => {
            assert(is_first_unknown(state@, named@, err->UnknownLight_0));
            GroupStep::Refused(ApiError::store(err))
        },
    }
}

/// Where a change of a group starts: with the name, where one was asked for.
pub fn update_group(state: &ControllerState, id: i64, request: UpdateGroupRequest) -> (r: GroupStep)
    ensures
        match group_update_complaint(state@, id, request) {
            Some(answer) => r matches GroupStep::Refused(err) && err@ == answer,
            None => match request.name {
                Some(asked) => {
                    &&& r matches GroupStep::StoreName(next)
                    &&& next.id == id
                    &&& next.name@ == trimmed(asked@)
                    &&& next.member_ids == request.member_ids
                },
                None => is_members_step(r, state@, id, request.member_ids),
            },
        },
{
    if request.name.is_none() && request.member_ids.is_none() {
        return GroupStep::Refused(
            ApiError::bad_request("no group-management fields were supplied"),
        );
    }
    if state.group(id).is_none() {
        return GroupStep::Refused(ApiError::not_found("unknown light group"));
    }
    match request.name {
        None => members_step(state, id, request.member_ids),
        Some(name) => match normalize_group_name(name) {
            Ok(name) => GroupStep::StoreName(
                AwaitGroupName { id, name, member_ids: request.member_ids },
            ),
            Err(err) => GroupStep::Refused(err),
        },
    }
}

impl AwaitGroupName {
    /// Takes the store's reply to the name.
    pub fn stored(self, state: &mut ControllerState, reply: Result<(), StoreError>) -> (r:
        GroupStep)
        requires
            old(state)@.wf(),
        ensures
            reply is Err ==> r is Refused && final(state)@ == old(state)@,
            reply is Ok && old(state)@.groups.contains_key(self.id) ==> final(state)@.groups[self.id].name
                == self.name@ && final(state)@.groups[self.id].member_ids
                == old(state)@.groups[self.id].member_ids,
            final(state)@.wf(),
            match reply {
                Err(err) => {
                    &&& r matches GroupStep::Refused(answer)
                    &&& answer@ == store_answer(err)
                    &&& final(state)@ == old(state)@
                },
                Ok(_) => if old(state)@.groups.contains_key(self.id) {
                    &&& final(state)@ == old(state)@.with_group(
                        self.id,
                        GroupModel { name: self.name@, ..old(state)@.groups[self.id] },
                    )
                    &&& is_members_step(r, final(state)@, self.id, self.member_ids)
                } else {
                    &&& r matches GroupStep::Refused(answer)
                    &&& answer@ == unknown_group()
                    &&& final(state)@ == old(state)@
                },
            },
    {
        match state.rename_group(self.id, self.name, reply) {
            Ok(_) => members_step(state, self.id, self.member_ids),
            Err(err) => GroupStep::Refused(ApiError::store(err)),
        }
    }
}

impl AwaitMembers {
    /// Takes the store's reply to the membership.
    pub fn stored(self, state: &mut ControllerState, reply: Result<(), StoreError>) -> (r:
        GroupStep)
        requires
            old(state)@.wf(),
            strictly_ascending(self.member_ids@),
        ensures
            r is Done <==> reply is Ok && old(state)@.groups.contains_key(self.id),
            !(r is Done) ==> r is Refused && final(state)@ == old(state)@,
            r is Done ==> final(state)@.groups[self.id].member_ids == self.member_ids@
                && final(state)@.groups[self.id].name == old(state)@.groups[self.id].name,
            final(state)@.wf(),
            match reply {
                Err(err) => {
                    &&& r matches GroupStep::Refused(answer)
                    &&& answer@ == store_answer(err)
                    &&& final(state)@ == old(state)@
                },
                Ok(_) => if old(state)@.groups.contains_key(self.id) {
                    &&& r == GroupStep::Done
                    &&& final(state)@ == old(state)@.with_group(
                        self.id,
                        GroupModel { member_ids: self.member_ids@, ..old(state)@.groups[self.id] },
                    )
                } else {
                    &&& r matches GroupStep::Refused(answer)
                    &&& answer@ == unknown_group()
                    &&& final(state)@ == old(state)@
                },
            },
    {
        match state.set_group_members(self.id, self.member_ids, reply) {
            Ok(_) => GroupStep::Done,
            Err(err) => GroupStep::Refused(ApiError::store(err)),
        }
    }
}

/// A membership that is sent back as it is shown names the same lights.
pub proof fn shown_members_read_back(ids: Seq<LifxId>)
    ensures
        requested_ids(ids.map_values(|id: LifxId| shown_id(id))) == Some(ids),
    decreases ids.len(),
{
    let shown = ids.map_values(|id: LifxId| shown_id(id));
    if ids.len() == 0 {
        assert(requested_ids(shown)->0 =~= ids);
    } else {
        shown_members_read_back(ids.drop_last());
        assert(shown.drop_last() =~= ids.drop_last().map_values(|id: LifxId| shown_id(id)));
        shown_id_reads_back(ids.last());
        assert(ids.drop_last().push(ids.last()) =~= ids);
    }
}

} // verus!

use shocs_lc::clock::{Duration, Instant};
use shocs_lc::controller::ControllerState;
use shocs_lc::device::{Color, LifxDevice, Power};
use shocs_lc::discovery::refresh_device;
use shocs_lc::manage::{
    create_group, delete_group, update_group, update_managed_light, GroupStep, ManagedLightUpdate,
    ManagedLightUpdateResult, UpdateGroupRequest, UpdateStep,
};
use shocs_lc::registry::{Interpolation, LightMode};
use shocs_lc::store::{StoreError, StoredGroup, StoredLight};
use shocs_lc::test_mode::{SyncTarget, TestModeState};
use shocs_lc::text::format_shown_id;

fn at(ms: u64) -> Instant {
    Instant::at(Duration::from_millis(ms))
}

fn linear(point: Interpolation) -> u16 {
    let progress = point.elapsed_nanos as f64 / point.duration_nanos as f64;
    let from = f64::from(point.from);
    (from + (f64::from(point.to) - from) * progress).round() as u16
}

fn test_mode() -> TestModeState {
    TestModeState::new(Power::On)
}

fn refusal() -> StoreError {
    StoreError::Sqlx(sqlx::Error::PoolTimedOut)
}

/// Light 1 is known and in Test Mode; light 2 is stored only.
fn house(control_enabled: bool) -> ControllerState {
    let stored = |id: u64| StoredLight {
        id,
        device_label: Some("bulb".to_string()),
        friendly_name: None,
        control_enabled,
        mode: LightMode::Test,
    };
    let mut state = ControllerState::new(
        &vec![],
        vec![stored(1), stored(2)],
        vec![StoredGroup { id: 5, name: "hall".to_string(), member_ids: vec![] }],
    );
    let device = LifxDevice { id: 1, addr: "10.0.0.1:56700".to_string() };
    refresh_device(&mut state, device, None, at(0));
    state
}

fn request(name: Option<&str>, control_enabled: Option<bool>) -> ManagedLightUpdate {
    ManagedLightUpdate { friendly_name: name.map(str::to_string), control_enabled }
}

fn answer(step: UpdateStep) -> (u16, String) {
    match step {
        UpdateStep::Refused(err) => (err.status, err.message),
        other => panic!("{other:?}"),
    }
}

fn outcome(step: UpdateStep) -> (Option<bool>, Option<bool>) {
    match step {
        UpdateStep::Done(result) => {
            assert!(result.saved);
            (result.label_synced, result.test_state_synced)
        }
        other => panic!("{other:?}"),
    }
}

#[test]
fn an_update_must_ask_for_something() {
    let state = house(true);
    let refused = |id: &str, request: ManagedLightUpdate| {
        answer(update_managed_light(&state, id, request))
    };
    assert_eq!(refused("x", request(None, None)), (400, "invalid LIFX ID".to_string()));
    assert_eq!(
        refused("1", request(None, None)),
        (400, "no device-management fields were supplied".to_string())
    );
    assert_eq!(
        refused("1", request(Some("a\nb"), Some(true))),
        (400, "friendly name cannot contain control characters".to_string())
    );
    let UpdateStep::StoreName(step) = update_managed_light(&state, "0x1", request(Some("  "), None))
    else {
        panic!("the name is to be stored");
    };
    assert_eq!((step.update.id, step.name), (1, None));
    let UpdateStep::StoreControl(step) = update_managed_light(&state, "1", request(None, Some(false)))
    else {
        panic!("control is to be stored");
    };
    assert_eq!((step.control_enabled, step.previous), (false, Some(true)));
}

#[test]
fn a_name_is_stored_first_and_mirrored_to_the_bulb() {
    let mut state = house(true);
    let begin = |state: &ControllerState| {
        match update_managed_light(state, "1", request(Some(" Desk "), None)) {
            UpdateStep::StoreName(step) => step,
            other => panic!("{other:?}"),
        }
    };
    assert_eq!(answer(begin(&state).stored(&mut state, Err(refusal()))).0, 503);
    assert_eq!(state.light(1).unwrap().friendly_name, None);

    let UpdateStep::WriteLabel(step) = begin(&state).stored(&mut state, Ok(())) else {
        panic!("the label is to be written");
    };
    assert_eq!((step.device.id, step.label.as_str()), (1, "Desk"));
    assert_eq!(state.light(1).unwrap().friendly_name.as_deref(), Some("Desk"));
    let UpdateStep::RecordLabel(step) = step.written(&state, Ok("Desk".to_string()), &test_mode()) else {
        panic!("the label is to be stored");
    };
    assert_eq!(outcome(step.recorded(&mut state, Ok(()), &test_mode())), (Some(true), None));
    assert_eq!(state.light(1).unwrap().label.as_deref(), Some("Desk"));
}

#[test]
fn a_bulb_that_does_not_answer_gets_its_name_later() {
    let mut state = house(true);
    let UpdateStep::StoreName(step) = update_managed_light(&state, "1", request(Some("Desk"), None))
    else {
        panic!("the name is to be stored");
    };
    let UpdateStep::WriteLabel(step) = step.stored(&mut state, Ok(())) else {
        panic!("the label is to be written");
    };
    assert_eq!(outcome(step.written(&state, Err("silent".to_string()), &test_mode())), (Some(false), None));
    assert_eq!(state.light(1).unwrap().label.as_deref(), Some("bulb"));
}

#[test]
fn a_confirmed_label_that_cannot_be_stored_fails_the_request() {
    let mut state = house(true);
    let UpdateStep::StoreName(step) = update_managed_light(&state, "1", request(Some("Desk"), Some(false)))
    else {
        panic!("the name is to be stored");
    };
    let UpdateStep::WriteLabel(step) = step.stored(&mut state, Ok(())) else {
        panic!("the label is to be written");
    };
    let UpdateStep::RecordLabel(step) = step.written(&state, Ok("Desk".to_string()), &test_mode()) else {
        panic!("the label is to be stored");
    };
    assert_eq!(answer(step.recorded(&mut state, Err(refusal()), &test_mode())).0, 503);
    assert!(state.light(1).unwrap().control_enabled);
}

#[test]
fn a_name_reaches_only_known_controlled_bulbs() {
    let mut state = house(false);
    let UpdateStep::StoreName(step) = update_managed_light(&state, "1", request(Some("Desk"), None))
    else {
        panic!("the name is to be stored");
    };
    assert_eq!(outcome(step.stored(&mut state, Ok(()))), (Some(false), None));

    let mut state = house(true);
    let UpdateStep::StoreName(step) = update_managed_light(&state, "2", request(Some("Desk"), None))
    else {
        panic!("the name is to be stored");
    };
    assert_eq!(outcome(step.stored(&mut state, Ok(()))), (Some(false), None));

    let UpdateStep::StoreName(step) = update_managed_light(&state, "1", request(Some(""), None)) else {
        panic!("the name is to be removed");
    };
    assert_eq!(outcome(step.stored(&mut state, Ok(()))), (None, None));
}

#[test]
fn enabling_control_brings_name_and_mode_along() {
    let mut state = house(false);
    state.set_friendly_name(1, Some("Desk".to_string()), None, Ok(())).unwrap();
    let enable = |state: &ControllerState| {
        match update_managed_light(state, "1", request(None, Some(true))) {
            UpdateStep::StoreControl(step) => step,
            other => panic!("{other:?}"),
        }
    };
    assert_eq!(answer(enable(&state).stored(&mut state, Err(refusal()), &test_mode())).0, 503);
    assert!(!state.light(1).unwrap().control_enabled);

    let UpdateStep::WriteLabel(step) = enable(&state).stored(&mut state, Ok(()), &test_mode()) else {
        panic!("the label is to be written");
    };
    assert_eq!(step.label, "Desk");
    assert!(state.light(1).unwrap().control_enabled);
    let UpdateStep::RecordLabel(step) = step.written(&state, Ok("Desk".to_string()), &test_mode()) else {
        panic!("the label is to be stored");
    };
    let UpdateStep::Synchronize(step) = step.recorded(&mut state, Ok(()), &test_mode()) else {
        panic!("the light is in Test Mode");
    };
    assert_eq!(step.light.device.id, 1);
    let white = Color::white(2_700, 55_000);
    assert_eq!(step.target, SyncTarget { color: white, power: Power::On });
    let result = step.accepted(&mut state, Duration::from_secs(5), at(1), &linear);
    assert_eq!(
        result,
        ManagedLightUpdateResult {
            saved: true,
            label_synced: Some(true),
            test_state_synced: Some(true),
        }
    );
    assert_eq!(state.light(1).unwrap().desired_power, Some(Power::On));

    // The bulb carries its name already.
    let UpdateStep::Synchronize(step) = enable(&state).stored(&mut state, Ok(()), &test_mode()) else {
        panic!("the light is in Test Mode");
    };
    assert_eq!(
        step.failed(),
        ManagedLightUpdateResult { saved: true, label_synced: None, test_state_synced: Some(false) }
    );
}

#[test]
fn disabling_control_sends_nothing() {
    let mut state = house(true);
    state.set_friendly_name(1, Some("Desk".to_string()), None, Ok(())).unwrap();
    let UpdateStep::StoreControl(step) = update_managed_light(&state, "1", request(None, Some(false)))
    else {
        panic!("control is to be stored");
    };
    assert_eq!(outcome(step.stored(&mut state, Ok(()), &test_mode())), (None, None));
    let UpdateStep::StoreControl(step) = update_managed_light(&state, "2", request(None, Some(true)))
    else {
        panic!("control is to be stored");
    };
    assert_eq!(outcome(step.stored(&mut state, Ok(()), &test_mode())), (None, None));
}

#[test]
fn groups_are_made_and_deleted_with_the_store() {
    let mut state = house(true);
    let row = StoredGroup { id: 7, name: "den".to_string(), member_ids: vec![] };
    let made = create_group(&mut state, Ok(row)).unwrap();
    assert_eq!((made.id, made.name.as_str()), (7, "den"));
    let err = create_group(&mut state, Err(StoreError::GroupNameConflict("den".into()))).unwrap_err();
    assert_eq!(err.status, 409);
    assert_eq!(delete_group(&mut state, 7, Err(StoreError::UnknownGroup(7))).unwrap_err().status, 404);
    assert!(state.group(7).is_some());
    assert!(delete_group(&mut state, 7, Ok(())).is_ok());
    assert!(state.group(7).is_none());
}

fn group_answer(step: GroupStep) -> (u16, String) {
    match step {
        GroupStep::Refused(err) => (err.status, err.message),
        other => panic!("{other:?}"),
    }
}

fn change(name: Option<&str>, members: Option<Vec<&str>>) -> UpdateGroupRequest {
    UpdateGroupRequest {
        name: name.map(str::to_string),
        member_ids: members.map(|ids| ids.into_iter().map(str::to_string).collect()),
    }
}

#[test]
fn a_group_update_must_make_sense() {
    let state = house(true);
    let refused = |id: i64, request: UpdateGroupRequest| group_answer(update_group(&state, id, request));
    assert_eq!(
        refused(5, change(None, None)),
        (400, "no group-management fields were supplied".to_string())
    );
    assert_eq!(refused(6, change(Some(""), None)), (404, "unknown light group".to_string()));
    assert_eq!(refused(5, change(Some(""), None)), (400, "group name cannot be empty".to_string()));
    assert_eq!(refused(5, change(None, Some(vec!["1", "lamp"]))), (400, "invalid LIFX ID".to_string()));
    let GroupStep::Refused(err) = update_group(&state, 5, change(None, Some(vec!["99", "77"])))
    else {
        panic!("not stored");
    };
    assert_eq!(err.cause.as_deref(), Some("unknown persisted light 0x0000000000000077"));
    assert_eq!(
        refused(5, change(None, Some(vec!["1", "77"]))),
        (503, "persistent configuration is temporarily unavailable".to_string())
    );
}

#[test]
fn group_names_and_members_change_in_turn() {
    let mut state = house(true);
    let begin = |state: &ControllerState| {
        match update_group(state, 5, change(Some(" attic "), Some(vec!["0x2", "1", "2"]))) {
            GroupStep::StoreName(step) => step,
            other => panic!("{other:?}"),
        }
    };
    assert_eq!(group_answer(begin(&state).stored(&mut state, Err(refusal()))).0, 503);
    assert_eq!(state.group(5).unwrap().name, "hall");
    let GroupStep::StoreMembers(step) = begin(&state).stored(&mut state, Ok(())) else {
        panic!("the members are to be stored");
    };
    assert_eq!(state.group(5).unwrap().name, "attic");
    assert_eq!(step.member_ids, vec![1, 2]);
    assert_eq!(group_answer(step.stored(&mut state, Err(refusal()))).0, 503);
    assert!(state.group(5).unwrap().member_ids.is_empty());
    let GroupStep::StoreMembers(step) = update_group(&state, 5, change(None, Some(vec!["2", "1"]))) else {
        panic!("the members are to be stored");
    };
    assert!(matches!(step.stored(&mut state, Ok(())), GroupStep::Done));
    assert_eq!(state.group(5).unwrap().member_ids, vec![1, 2]);
    // A new name stands even where the members are refused.
    let GroupStep::StoreName(step) = update_group(&state, 5, change(Some("den"), Some(vec!["?"]))) else {
        panic!("the name is to be stored");
    };
    assert_eq!(group_answer(step.stored(&mut state, Ok(()))).0, 400);
    assert_eq!(state.group(5).unwrap().name, "den");
}

#[test]
fn a_group_that_is_gone_is_reported() {
    let mut state = house(true);
    let GroupStep::StoreName(name) = update_group(&state, 5, change(Some("den"), None)) else {
        panic!("the name is to be stored");
    };
    let GroupStep::StoreMembers(members) = update_group(&state, 5, change(None, Some(vec![]))) else {
        panic!("the members are to be stored");
    };
    delete_group(&mut state, 5, Ok(())).unwrap();
    assert_eq!(group_answer(name.stored(&mut state, Ok(()))).0, 404);
    assert_eq!(group_answer(members.stored(&mut state, Ok(()))).0, 404);
}

#[test]
fn a_shown_membership_can_be_sent_back() {
    let state = house(true);
    let shown: Vec<String> = [1u64, 2].iter().map(|id| format_shown_id(*id)).collect();
    let request = UpdateGroupRequest { name: None, member_ids: Some(shown) };
    let GroupStep::StoreMembers(step) = update_group(&state, 5, request) else {
        panic!("the members are to be stored");
    };
    assert_eq!(step.member_ids, vec![1, 2]);
}

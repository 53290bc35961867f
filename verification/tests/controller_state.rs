use shocs_lc::clock::{Duration, Instant};
use shocs_lc::controller::{ControllerState, ModeChange, PersistPlan};
use shocs_lc::device::{Color, LifxDevice, LightState, Power};
use shocs_lc::discovery::{refresh_device, RefreshStep};
use shocs_lc::registry::{ColorTarget, Interpolation, LightMode};
use shocs_lc::store::{StoreError, StoredGroup, StoredLight};

fn at(ms: u64) -> Instant {
    Instant::at(Duration::from_millis(ms))
}

fn linear(point: Interpolation) -> u16 {
    let progress = point.elapsed_nanos as f64 / point.duration_nanos as f64;
    let from = f64::from(point.from);
    (from + (f64::from(point.to) - from) * progress).round() as u16
}

fn stored(id: u64, mode: LightMode) -> StoredLight {
    StoredLight {
        id,
        device_label: Some(format!("bulb {id}")),
        friendly_name: None,
        control_enabled: true,
        mode,
    }
}

fn device(id: u64) -> LifxDevice {
    LifxDevice { id, addr: format!("10.0.0.{id}:56700") }
}

fn refusal() -> StoreError {
    StoreError::Sqlx(sqlx::Error::PoolTimedOut)
}

/// Lights 1 and 2 in Test Mode, 3 in Custom Mode, all met; light 4 stored only.
fn house() -> ControllerState {
    let mut state = ControllerState::new(
        &vec![1, 9],
        vec![
            stored(1, LightMode::Test),
            stored(2, LightMode::Test),
            stored(3, LightMode::Custom),
            stored(4, LightMode::Test),
        ],
        vec![StoredGroup { id: 5, name: "hall".to_string(), member_ids: vec![1, 4, 3] }],
    );
    for id in 1..=3 {
        let step = refresh_device(&mut state, device(id), None, at(0));
        assert!(matches!(step, RefreshStep::Filed { first: true, unrecorded: None }));
    }
    state
}

fn seen(brightness: u16, power: Power) -> LightState {
    LightState { hue: 1, saturation: 2, brightness, kelvin: 3_000, power }
}

fn sorted(mut ids: Vec<u64>) -> Vec<u64> {
    ids.sort_unstable();
    ids
}

fn ids_of(devices: Vec<LifxDevice>) -> Vec<u64> {
    sorted(devices.into_iter().map(|device| device.id).collect())
}

#[test]
fn later_rows_replace_earlier_ones() {
    let state = ControllerState::new(
        &vec![],
        vec![stored(1, LightMode::Test), stored(1, LightMode::Custom)],
        vec![
            StoredGroup { id: 1, name: "a".to_string(), member_ids: vec![1] },
            StoredGroup { id: 1, name: "b".to_string(), member_ids: vec![] },
        ],
    );
    assert_eq!(state.configured_lights().len(), 1);
    assert_eq!(state.configured_lights()[0].mode, LightMode::Custom);
    assert_eq!(state.group(1).unwrap().name, "b");
    assert_eq!(state.groups().len(), 1);
    assert!(state.lights().is_empty());
    assert_eq!(state.known_count(), 0);
}

#[test]
fn only_new_lights_and_new_labels_are_stored() {
    let state = house();
    assert!(matches!(state.plan_persisted(9, &None), PersistPlan::Upsert { mode: LightMode::Test }));
    assert!(matches!(state.plan_persisted(8, &None), PersistPlan::Upsert { mode: LightMode::Custom }));
    assert!(matches!(state.plan_persisted(1, &None), PersistPlan::Keep(light) if light.id == 1));
    assert!(matches!(
        state.plan_persisted(1, &Some("bulb 1".to_string())),
        PersistPlan::Keep(_)
    ));
    assert!(matches!(
        state.plan_persisted(3, &Some("new".to_string())),
        PersistPlan::Upsert { mode: LightMode::Custom }
    ));
}

#[test]
fn a_stored_light_is_remembered_and_a_refusal_is_not() {
    let mut state = house();
    assert!(state.ensure_persisted_light(8, Err(refusal())).is_err());
    assert_eq!(state.configured_lights().len(), 4);
    let light = state.ensure_persisted_light(8, Ok(stored(8, LightMode::Custom))).unwrap();
    assert_eq!(light.id, 8);
    assert_eq!(state.configured_lights().len(), 5);
}

#[test]
fn lights_and_groups_are_listed() {
    let state = house();
    assert_eq!(state.known_count(), 3);
    assert_eq!(sorted(state.lights().iter().map(|l| l.device.id).collect()), vec![1, 2, 3]);
    assert_eq!(ids_of(state.known_devices()), vec![1, 2, 3]);
    assert_eq!(ids_of(state.devices_in_mode(LightMode::Test)), vec![1, 2]);
    assert!(state.light(4).is_none());
    assert_eq!(state.light(2).unwrap().device.addr, "10.0.0.2:56700");
    let members: Vec<u64> =
        state.lights_in_group(5).unwrap().iter().map(|light| light.device.id).collect();
    assert_eq!(members, vec![1, 3]);
    assert!(state.lights_in_group(6).is_none());
    assert!(state.group(6).is_none());
}

#[test]
fn groups_change_only_when_the_store_agrees() {
    let mut state = house();
    let row = StoredGroup { id: 7, name: "den".to_string(), member_ids: vec![] };
    assert_eq!(state.create_group(Ok(row)).unwrap().name, "den");
    assert!(state.create_group(Err(refusal())).is_err());
    assert_eq!(state.groups().len(), 2);

    assert!(state.rename_group(7, "study".to_string(), Err(refusal())).is_err());
    assert_eq!(state.group(7).unwrap().name, "den");
    assert!(state.rename_group(7, "study".to_string(), Ok(())).is_ok());
    assert_eq!(state.group(7).unwrap().name, "study");
    assert!(matches!(
        state.rename_group(8, "x".to_string(), Ok(())),
        Err(StoreError::UnknownGroup(8))
    ));

    assert!(state.delete_group(7, Err(refusal())).is_err());
    assert!(state.group(7).is_some());
    assert!(state.delete_group(7, Ok(())).is_ok());
    assert!(state.group(7).is_none());
}

#[test]
fn members_are_canonical_and_stored() {
    let mut state = house();
    assert_eq!(state.plan_group_members(&vec![4, 1, 4]).unwrap(), vec![1, 4]);
    assert!(matches!(
        state.plan_group_members(&vec![1, 99, 42]),
        Err(StoreError::UnknownLight(42))
    ));
    assert!(state.set_group_members(5, vec![2], Err(refusal())).is_err());
    assert_eq!(state.group(5).unwrap().member_ids, vec![1, 4, 3]);
    assert!(state.set_group_members(5, vec![2], Ok(())).is_ok());
    assert_eq!(state.group(5).unwrap().member_ids, vec![2]);
    assert!(matches!(
        state.set_group_members(6, vec![2], Ok(())),
        Err(StoreError::UnknownGroup(6))
    ));
}

#[test]
fn modes_are_planned_then_stored() {
    let mut state = house();
    assert_eq!(state.plan_mode(77, LightMode::Test), ModeChange::Unknown);
    assert_eq!(state.plan_mode(1, LightMode::Test), ModeChange::Unchanged(LightMode::Test));
    assert_eq!(
        state.plan_mode(1, LightMode::Custom),
        ModeChange::Persist { previous: LightMode::Test }
    );
    assert!(state.set_mode(1, LightMode::Custom, LightMode::Test, Err(refusal())).is_err());
    assert_eq!(state.light(1).unwrap().mode, LightMode::Test);
    let previous = state.set_mode(1, LightMode::Custom, LightMode::Test, Ok(())).unwrap();
    assert_eq!(previous, Some(LightMode::Test));
    assert_eq!(state.light(1).unwrap().mode, LightMode::Custom);
    let kept = state.configured_lights().into_iter().find(|light| light.id == 1).unwrap();
    assert_eq!(kept.mode, LightMode::Custom);
}

#[test]
fn names_and_labels_follow_the_store() {
    let mut state = house();
    let name = Some("Desk".to_string());
    assert_eq!(state.friendly_name(1), None);
    assert!(state.set_friendly_name(1, name.clone(), None, Err(refusal())).is_err());
    assert_eq!(state.light(1).unwrap().friendly_name, None);
    assert_eq!(state.set_friendly_name(1, name.clone(), None, Ok(())).unwrap(), None);
    assert_eq!(state.friendly_name(1), name);
    assert_eq!(state.light(1).unwrap().friendly_name, name);
    assert_eq!(state.set_friendly_name(1, None, name.clone(), Ok(())).unwrap(), name);
    assert_eq!(state.friendly_name(1), None);

    assert!(state.record_device_label(1, Some("L".to_string()), Err(refusal())).is_err());
    assert_eq!(state.light(1).unwrap().label.as_deref(), Some("bulb 1"));
    assert!(state.record_device_label(1, Some("L".to_string()), Ok(())).is_ok());
    assert_eq!(state.light(1).unwrap().label.as_deref(), Some("L"));
}

#[test]
fn disabling_control_drops_the_manual_choice() {
    let mut state = house();
    assert_eq!(state.set_power_override(1, Some(Power::Off)), Some(None));
    assert_eq!(state.control_enabled(1), Some(true));
    assert_eq!(state.control_enabled(77), None);
    assert!(state.set_control_enabled(1, false, Some(true), Err(refusal())).is_err());
    assert_eq!(state.light(1).unwrap().power_override, Some(Power::Off));
    assert_eq!(state.set_control_enabled(1, false, Some(true), Ok(())).unwrap(), Some(true));
    assert_eq!(state.light(1).unwrap().power_override, None);
    assert_eq!(state.control_enabled(1), Some(false));
    assert_eq!(ids_of(state.devices_in_mode(LightMode::Test)), vec![2]);
    assert_eq!(state.set_control_enabled(1, true, Some(false), Ok(())).unwrap(), Some(false));
    assert_eq!(state.light(1).unwrap().power_override, None);
}

#[test]
fn commands_are_remembered_with_what_they_replace() {
    let mut state = house();
    assert_eq!(state.set_desired_power(1, Some(Power::On)), Some(None));
    assert_eq!(state.set_desired_power(1, None), Some(Some(Power::On)));
    assert_eq!(state.set_desired_power(77, Some(Power::On)), None);
    assert_eq!(state.set_desired_color(1, Color::new(1, 2, 3, 4)), None);
    assert_eq!(
        state.set_desired_color(1, Color::new(9, 9, 9, 9)),
        Some(ColorTarget { hue: 1, saturation: 2, kelvin: 4 })
    );
    assert_eq!(state.set_desired_brightness(1, 500), Some(500));
    assert_eq!(state.set_desired_brightness(1, 700), Some(500));
    assert_eq!(state.set_desired_brightness(77, 700), None);
    assert_eq!(state.set_power_override(77, None), None);
}

#[test]
fn transitions_start_from_what_was_observed() {
    let mut state = house();
    let span = Duration::from_millis(100);
    assert!(!state.begin_brightness_transition(77, 9, span, at(0), &linear));
    state.set_desired_brightness(1, 100);
    assert_eq!(state.record_observation(1, seen(300, Power::On), at(1)), Some(true));
    assert!(state.begin_brightness_transition(1, 900, span, at(10), &linear));
    let transition = state.light(1).unwrap().brightness_transition.unwrap();
    assert_eq!((transition.from, transition.to), (300, 900));
    // A second one starts from where the first one is.
    assert!(state.begin_brightness_transition(1, 0, span, at(20), &linear));
    assert_eq!(state.light(1).unwrap().brightness_transition.unwrap().from, 360);
    assert_eq!(state.light(1).unwrap().projected_brightness(at(20), &linear), Some(360));
    assert_eq!(state.light(1).unwrap().projected_brightness(at(120), &linear), Some(0));
    state.clear_brightness_transition(1);
    assert!(state.light(1).unwrap().brightness_transition.is_none());
    assert!(state.begin_brightness_transition(1, 300, span, at(30), &linear));
    assert!(state.light(1).unwrap().brightness_transition.is_none());
    assert!(state.begin_brightness_transition(1, 400, Duration::from_secs(0), at(30), &linear));
    assert!(state.light(1).unwrap().brightness_transition.is_none());
    assert_eq!(state.light(1).unwrap().desired_brightness, Some(400));
}

#[test]
fn mode_wide_commands_spare_other_lights() {
    let mut state = house();
    state.set_control_enabled(2, false, Some(true), Ok(())).unwrap();
    state.set_desired_power_for_mode(LightMode::Test, Power::Off);
    state.set_desired_color_for_mode(LightMode::Test, Color::new(1, 2, 3, 4));
    state.begin_brightness_transition_for_mode(
        LightMode::Test,
        50,
        Duration::from_secs(1),
        at(0),
        &linear,
    );
    let one = state.light(1).unwrap();
    assert_eq!(one.desired_power, Some(Power::Off));
    assert_eq!(one.desired_color, Some(ColorTarget { hue: 1, saturation: 2, kelvin: 4 }));
    assert_eq!(one.desired_brightness, Some(50));
    for id in [2, 3] {
        let other = state.light(id).unwrap();
        assert_eq!(other.desired_power, None);
        assert_eq!(other.desired_color, None);
        assert_eq!(other.desired_brightness, None);
    }
}

#[test]
fn overrides_are_cleared_per_mode_and_counted() {
    let mut state = house();
    for id in 1..=3 {
        state.set_power_override(id, Some(Power::On));
    }
    // A light whose control is disabled is still in its mode.
    state.set_control_enabled(2, false, Some(true), Ok(())).unwrap();
    state.set_power_override(2, Some(Power::On));
    assert_eq!(state.clear_power_overrides_in_mode(LightMode::Test), 2);
    assert_eq!(state.light(2).unwrap().power_override, None);
    assert_eq!(state.clear_power_overrides_in_mode(LightMode::Test), 0);
    assert_eq!(state.light(1).unwrap().power_override, None);
    assert_eq!(state.light(3).unwrap().power_override, Some(Power::On));
}

#[test]
fn mismatches_go_by_the_manual_choice_first() {
    let mut state = house();
    state.record_observation(1, seen(1, Power::On), at(0));
    state.record_observation(2, seen(1, Power::On), at(0));
    state.record_observation(3, seen(1, Power::On), at(0));
    state.set_power_override(2, Some(Power::On));
    let off: Vec<(u64, Power)> = state
        .devices_with_power_mismatch(LightMode::Test, Power::Off)
        .into_iter()
        .map(|(device, power)| (device.id, power))
        .collect();
    assert_eq!(off, vec![(1, Power::Off)]);
    state.set_power_override(2, Some(Power::Off));
    let on: Vec<(u64, Power)> = state
        .devices_with_power_mismatch(LightMode::Test, Power::On)
        .into_iter()
        .map(|(device, power)| (device.id, power))
        .collect();
    assert_eq!(on, vec![(2, Power::Off)]);
}

#[test]
fn observations_report_change_and_end_old_transitions() {
    let mut state = house();
    assert_eq!(state.record_observation(77, seen(1, Power::On), at(0)), None);
    assert_eq!(state.record_observation(1, seen(1, Power::On), at(0)), Some(true));
    assert_eq!(state.record_observation(1, seen(1, Power::On), at(5)), Some(false));
    assert_eq!(state.record_observation(1, seen(2, Power::On), at(6)), Some(true));
    state.begin_brightness_transition(1, 9, Duration::from_millis(10), at(10), &linear);
    state.record_observation(1, seen(3, Power::On), at(19));
    assert!(state.light(1).unwrap().brightness_transition.is_some());
    state.record_observation(1, seen(3, Power::On), at(20));
    assert!(state.light(1).unwrap().brightness_transition.is_none());
}

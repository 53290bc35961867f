use shocs_lc::clock::{Duration, Instant};
use shocs_lc::controller::ControllerState;
use shocs_lc::device::{LifxDevice, Power};
use shocs_lc::discovery::{refresh_device, DiscoveryPass, RefreshStep};
use shocs_lc::registry::LightMode;
use shocs_lc::store::{StoreError, StoredLight};

fn at(ms: u64) -> Instant {
    Instant::at(Duration::from_millis(ms))
}

fn device(addr: &str) -> LifxDevice {
    LifxDevice { id: 1, addr: addr.to_string() }
}

fn some(text: &str) -> Option<String> {
    Some(text.to_string())
}

fn configuration(name: Option<&str>, control_enabled: bool) -> StoredLight {
    StoredLight {
        id: 1,
        device_label: some("stored"),
        friendly_name: name.map(str::to_string),
        control_enabled,
        mode: LightMode::Custom,
    }
}

fn state(light: StoredLight) -> ControllerState {
    ControllerState::new(&vec![1], vec![light], vec![])
}

#[test]
fn a_new_device_is_filed_with_its_configuration() {
    // Control is disabled, so the bulb keeps its label.
    let mut state = state(configuration(Some("Desk"), false));
    let step = refresh_device(&mut state, device("a"), None, at(3));
    assert!(matches!(step, RefreshStep::Filed { first: true, unrecorded: None }));
    let light = state.light(1).unwrap();
    assert_eq!(light.label.as_deref(), Some("stored"));
    assert_eq!(light.friendly_name.as_deref(), Some("Desk"));
    assert!(!light.control_enabled);
    assert_eq!(light.mode, LightMode::Custom);
    assert_eq!(light.desired_power, None);
}

#[test]
fn a_known_device_keeps_its_state() {
    let mut state = state(configuration(None, true));
    refresh_device(&mut state, device("a"), some("stored"), at(1));
    state.set_desired_power(1, Some(Power::Off));
    state.set_power_override(1, Some(Power::On));
    state.set_control_enabled(1, false, Some(true), Ok(())).unwrap();
    state.set_power_override(1, Some(Power::On));
    // The label cannot be read this time: the known one stands in.
    let step = refresh_device(&mut state, device("b"), None, at(2));
    assert!(matches!(step, RefreshStep::Filed { first: false, unrecorded: None }));
    let light = state.light(1).unwrap();
    assert_eq!(light.device.addr, "b");
    assert_eq!(light.label.as_deref(), Some("stored"));
    assert_eq!(light.desired_power, Some(Power::Off));
    assert_eq!(light.power_override, Some(Power::On));
}

#[test]
fn an_unknown_device_is_stored_in_its_first_mode() {
    for (ids, mode) in [(vec![1], LightMode::Test), (vec![2], LightMode::Custom)] {
        let mut state = ControllerState::new(&ids, vec![], vec![]);
        let RefreshStep::Upsert(step) = refresh_device(&mut state, device("a"), some("L"), at(0))
        else {
            panic!("the device is new");
        };
        assert_eq!((step.device.id, step.label.as_deref(), step.mode), (1, Some("L"), mode));
        assert!(matches!(
            step.stored(&mut state, Err(StoreError::UnknownLight(1)), at(0)),
            RefreshStep::Skipped(StoreError::UnknownLight(1))
        ));
        assert!(state.light(1).is_none());
        assert!(state.configured_lights().is_empty());
    }
}

#[test]
fn a_friendly_name_is_written_and_recorded() {
    let mut state = state(configuration(Some("Desk"), true));
    let RefreshStep::WriteLabel(step) = refresh_device(&mut state, device("a"), None, at(0)) else {
        panic!("the name is to be written");
    };
    assert_eq!(step.name, "Desk");
    let RefreshStep::RecordLabel(step) = step.written(&mut state, Ok("Desk".to_string()), at(0))
    else {
        panic!("the label is to be stored");
    };
    let step = step.recorded(&mut state, Ok(()), at(1));
    assert!(matches!(step, RefreshStep::Filed { first: true, unrecorded: None }));
    assert_eq!(state.configured_lights()[0].device_label.as_deref(), Some("Desk"));
    assert_eq!(state.light(1).unwrap().label.as_deref(), Some("Desk"));
    // The bulb carries its name now.
    let step = refresh_device(&mut state, device("a"), some("Desk"), at(2));
    assert!(matches!(step, RefreshStep::Filed { first: false, unrecorded: None }));
}

#[test]
fn a_label_that_cannot_be_recorded_still_counts() {
    let mut state = state(configuration(Some("Desk"), true));
    let RefreshStep::WriteLabel(step) = refresh_device(&mut state, device("a"), None, at(0)) else {
        panic!("the name is to be written");
    };
    let RefreshStep::RecordLabel(step) = step.written(&mut state, Ok("Desk".to_string()), at(0))
    else {
        panic!("the label is to be stored");
    };
    let step = step.recorded(&mut state, Err(StoreError::UnknownLight(1)), at(1));
    assert!(matches!(
        step,
        RefreshStep::Filed { first: true, unrecorded: Some(StoreError::UnknownLight(1)) }
    ));
    assert_eq!(state.configured_lights()[0].device_label.as_deref(), Some("stored"));
    assert_eq!(state.light(1).unwrap().label.as_deref(), Some("Desk"));
}

#[test]
fn a_device_that_does_not_answer_is_filed_with_its_label() {
    let mut state = state(configuration(Some("Desk"), true));
    let RefreshStep::WriteLabel(step) =
        refresh_device(&mut state, device("a"), some("stored"), at(0))
    else {
        panic!("the name is to be written");
    };
    let step = step.written(&mut state, Err("no answer".to_string()), at(1));
    assert!(matches!(step, RefreshStep::Filed { first: true, unrecorded: None }));
    assert_eq!(state.light(1).unwrap().label.as_deref(), Some("stored"));
}

#[test]
fn a_changed_label_is_stored_in_the_mode_the_light_has() {
    let mut state = state(configuration(None, true));
    let RefreshStep::Upsert(step) = refresh_device(&mut state, device("a"), some("renamed"), at(0))
    else {
        panic!("the label has changed");
    };
    assert_eq!(step.mode, LightMode::Custom);
    let mut row = configuration(None, true);
    row.device_label = some("renamed");
    step.stored(&mut state, Ok(row), at(1));
    assert_eq!(state.light(1).unwrap().label.as_deref(), Some("renamed"));
    assert_eq!(state.configured_lights()[0].device_label.as_deref(), Some("renamed"));
}

#[test]
fn every_discovered_device_gets_its_turn() {
    let found = vec![device("a"), device("b"), device("c")];
    let mut pass = DiscoveryPass::new(found);
    let mut turns = Vec::new();
    while let Some(device) = pass.next() {
        turns.push(device.addr);
    }
    assert_eq!(turns, vec!["a", "b", "c"]);
    assert!(pass.next().is_none());
    assert_eq!(pass.count(), 3);
    assert_eq!(DiscoveryPass::new(vec![]).count(), 0);
}

use shocs_lc::clock::{Duration, Instant};
use shocs_lc::control::{
    begin_brightness, begin_color, begin_group_brightness, begin_group_color, commanded_light,
    controlled_group_lights, live_control_transition, manual_confirm_delay, manual_transition,
    Gesture, GroupPowerCommand, LiveStep, PowerCommand, Tint,
};
use shocs_lc::controller::ControllerState;
use shocs_lc::device::{Color, LifxDevice, LightState, Power};
use shocs_lc::discovery::refresh_device;
use shocs_lc::enrollment::{ModeCommand, ModeStep};
use shocs_lc::registry::{ColorTarget, Interpolation, LightMode};
use shocs_lc::store::{StoreError, StoredGroup, StoredLight};
use shocs_lc::test_mode::{enrolment_target, TestModeState};
use shocs_lc::views::to_light_view;
use shocs_lc::web::ApiError;

fn at(ms: u64) -> Instant {
    Instant::at(Duration::from_millis(ms))
}

fn linear(point: Interpolation) -> u16 {
    let progress = point.elapsed_nanos as f64 / point.duration_nanos as f64;
    let from = f64::from(point.from);
    (from + (f64::from(point.to) - from) * progress).round() as u16
}

fn test_mode() -> TestModeState {
    TestModeState::new(Power::On)
}

fn refusal() -> StoreError {
    StoreError::Sqlx(sqlx::Error::PoolTimedOut)
}

/// Light 1 in Test Mode, 2 in Custom Mode, 3 in Test Mode with control disabled.
fn house() -> ControllerState {
    let lights: Vec<StoredLight> = [(1, LightMode::Test, true), (2, LightMode::Custom, true), (3, LightMode::Test, false)]
        .into_iter()
        .map(|(id, mode, control_enabled)| StoredLight {
            id,
            device_label: None,
            friendly_name: None,
            control_enabled,
            mode,
        })
        .collect();
    let mut state = ControllerState::new(
        &vec![],
        lights.clone(),
        vec![
            StoredGroup { id: 5, name: "all".to_string(), member_ids: vec![1, 2, 3] },
            StoredGroup { id: 6, name: "dark".to_string(), member_ids: vec![3] },
        ],
    );
    for light in lights {
        let device = LifxDevice { id: light.id, addr: format!("10.0.0.{}:56700", light.id) };
        refresh_device(&mut state, device, None, at(0));
    }
    state
}

fn seen() -> LightState {
    LightState { hue: 10, saturation: 20, brightness: 30, kelvin: 2_700, power: Power::On }
}

#[test]
fn manual_commands_are_quick() {
    assert_eq!(manual_transition().as_millis(), 250);
    assert_eq!(live_control_transition().as_millis(), 100);
    assert_eq!(manual_confirm_delay().as_millis(), 350);
}

#[test]
fn only_known_controlled_lights_are_commanded() {
    let state = house();
    let refused = |text: &str| {
        let err = commanded_light(&state, text).err().unwrap();
        (err.status, err.message)
    };
    assert_eq!(commanded_light(&state, "0x2").unwrap().0, 2);
    assert_eq!(refused("two"), (400, "invalid LIFX ID".to_string()));
    assert_eq!(refused("77"), (404, "unknown light".to_string()));
    assert_eq!(refused("3").0, 409);
}

#[test]
fn power_in_test_mode_is_a_manual_choice() {
    let mut state = house();
    let command = PowerCommand::begin(&mut state, "1", true).unwrap();
    assert_eq!((command.power, command.overrides), (Power::On, true));
    let light = state.light(1).unwrap();
    assert_eq!(light.mode, LightMode::Test);
    assert_eq!(light.power_override, Some(Power::On));
    assert_eq!(light.desired_power, Some(Power::On));

    let command = PowerCommand::begin(&mut state, "2", false).unwrap();
    assert!(!command.overrides);
    assert_eq!(state.light(2).unwrap().power_override, None);
    assert_eq!(state.light(2).unwrap().desired_power, Some(Power::Off));
    assert!(PowerCommand::begin(&mut state, "3", false).is_err());
    assert_eq!(state.light(3).unwrap().desired_power, None);
}

#[test]
fn a_failed_power_command_is_taken_back() {
    let mut state = house();
    state.set_power_override(1, Some(Power::Off));
    state.set_desired_power(1, Some(Power::Off));
    let command = PowerCommand::begin(&mut state, "1", true).unwrap();
    let err = command.sent(&mut state, Err("no answer".to_string())).unwrap_err();
    assert_eq!((err.status, err.message.as_str()), (502, "LIFX command failed: no answer"));
    assert_eq!(state.light(1).unwrap().power_override, Some(Power::Off));
    assert_eq!(state.light(1).unwrap().desired_power, Some(Power::Off));
}

#[test]
fn an_accepted_power_command_is_read_back() {
    let mut state = house();
    let command = PowerCommand::begin(&mut state, "1", true).unwrap();
    let confirm = command.sent(&mut state, Ok(())).unwrap();
    assert_eq!((confirm.id, confirm.device.addr.as_str()), (1, "10.0.0.1:56700"));
    confirm.read(&mut state, Some(seen()), at(1));
    assert_eq!(state.light(1).unwrap().observed, Some(seen()));
    let command = PowerCommand::begin(&mut state, "2", true).unwrap();
    command.sent(&mut state, Ok(())).unwrap().read(&mut state, None, at(2));
    assert_eq!(state.light(2).unwrap().observed, None);
}

#[test]
fn brightness_takes_a_light_out_of_test_mode() {
    let mut state = house();
    state.set_power_override(1, Some(Power::On));
    let control = begin_brightness(&state, "1", 50, true).unwrap();
    assert_eq!(control.gesture, Gesture::Brightness(32_768));
    let LiveStep::StoreMode(step) = control.start(&state, at(0), &linear) else {
        panic!("the mode is to be stored");
    };
    assert_eq!(step.previous, LightMode::Test);
    let LiveStep::ReadLight(step) = step.stored(&mut state, Ok(()), at(0), &linear) else {
        panic!("the light was never observed");
    };
    assert_eq!(state.light(1).unwrap().mode, LightMode::Custom);
    assert_eq!(state.light(1).unwrap().power_override, None);
    let LiveStep::SendColor(step) = step.read(Ok(seen()), at(0), &linear) else {
        panic!("the colour is to be sent");
    };
    assert_eq!(step.color, Color::new(10, 20, 32_768, 2_700));
    let LiveStep::Confirm(step) = step.sent(&mut state, Ok(())) else {
        panic!("the last update is confirmed");
    };
    assert_eq!(step.id, 1);
    assert_eq!(state.light(1).unwrap().desired_brightness, Some(32_768));
}

#[test]
fn a_live_control_that_fails_stops_where_it_is() {
    let answer = |step: LiveStep| match step {
        LiveStep::Refused(err) => (err.status, err.message),
        _ => panic!("refused"),
    };
    let mut state = house();
    let start = |state: &ControllerState| begin_brightness(state, "1", 1, false).unwrap();
    let LiveStep::StoreMode(step) = start(&state).start(&state, at(0), &linear) else {
        panic!("the mode is to be stored");
    };
    assert_eq!(answer(step.stored(&mut state, Err(refusal()), at(0), &linear)).0, 503);
    assert_eq!(state.light(1).unwrap().mode, LightMode::Test);

    let control = begin_brightness(&state, "2", 1, false).unwrap();
    let LiveStep::ReadLight(step) = control.start(&state, at(0), &linear) else {
        panic!("the light was never observed");
    };
    assert_eq!(
        answer(step.read(Err("silent".to_string()), at(0), &linear)),
        (502, "LIFX command failed: silent".to_string())
    );

    state.record_observation(2, seen(), at(0));
    let control = begin_brightness(&state, "2", 1, false).unwrap();
    let LiveStep::SendColor(step) = control.start(&state, at(0), &linear) else {
        panic!("the colour is to be sent");
    };
    assert_eq!(answer(step.sent(&mut state, Err("silent".to_string()))).0, 502);
    assert_eq!(state.light(2).unwrap().desired_brightness, None);
}

#[test]
fn brightness_keeps_the_commanded_colour() {
    let mut state = house();
    state.set_desired_color(2, Color::new(1, 2, 3, 4));
    state.record_observation(2, seen(), at(0));
    let control = begin_brightness(&state, "2", 100, false).unwrap();
    let LiveStep::SendColor(step) = control.start(&state, at(0), &linear) else {
        panic!("the colour is to be sent");
    };
    assert_eq!(step.color, Color::new(1, 2, 65_535, 4));
    assert!(matches!(step.sent(&mut state, Ok(())), LiveStep::Done));
}

#[test]
fn requests_out_of_range_are_refused_first() {
    let state = house();
    let text = |err: ApiError| (err.status, err.message);
    assert_eq!(
        text(begin_brightness(&state, "two", 101, true).err().unwrap()),
        (400, "brightness percent must be 0-100".to_string())
    );
    assert_eq!(
        text(begin_color(&state, "two", 361, 101, true).err().unwrap()),
        (400, "hue must be 0-360 degrees".to_string())
    );
    assert_eq!(
        text(begin_color(&state, "two", 360, 101, true).err().unwrap()),
        (400, "saturation percent must be 0-100".to_string())
    );
    assert_eq!(
        text(begin_color(&state, "two", 360, 100, true).err().unwrap()),
        (400, "invalid LIFX ID".to_string())
    );
    assert_eq!(
        text(begin_group_brightness(&state, 77, 101).err().unwrap()),
        (400, "brightness percent must be 0-100".to_string())
    );
    assert_eq!(
        text(begin_group_color(&state, 77, 1, 1).err().unwrap()),
        (404, "unknown light group".to_string())
    );
    assert_eq!(
        text(controlled_group_lights(&state, 6).err().unwrap()),
        (409, "group has no currently controllable lights".to_string())
    );
}

#[test]
fn a_colour_freezes_the_brightness() {
    let mut state = house();
    state.record_observation(2, seen(), at(0));
    state.begin_brightness_transition(2, 1_030, Duration::from_millis(100), at(0), &linear);
    let control = begin_color(&state, "2", 180, 100, false).unwrap();
    assert_eq!(control.gesture, Gesture::Tint(Tint { hue: 32_768, saturation: 65_535 }));
    let LiveStep::SendColor(step) = control.start(&state, at(50), &linear) else {
        panic!("the colour is to be sent");
    };
    assert_eq!(step.color, Color::new(32_768, 65_535, 530, 2_700));
    assert!(matches!(step.sent(&mut state, Ok(())), LiveStep::Done));
    let light = state.light(2).unwrap();
    assert_eq!(
        light.desired_color,
        Some(ColorTarget { hue: 32_768, saturation: 65_535, kelvin: 2_700 })
    );
    assert_eq!(light.projected_brightness(at(50), &linear), Some(530));
    assert_eq!(light.projected_brightness(at(5_000), &linear), Some(530));
}

#[test]
fn a_group_is_commanded_light_by_light() {
    let mut state = house();
    let command = GroupPowerCommand::begin(&state, 5, true).unwrap();
    let ids: Vec<u64> = command.devices().iter().map(|device| device.id).collect();
    assert_eq!(ids, vec![1, 2]);
    assert_eq!(command.sent(&mut state, Err("silent".to_string())).unwrap_err().status, 502);
    assert_eq!(state.light(2).unwrap().desired_power, None);
    let command = GroupPowerCommand::begin(&state, 5, true).unwrap();
    command.sent(&mut state, Ok(())).unwrap();
    assert_eq!(state.light(1).unwrap().power_override, Some(Power::On));
    assert_eq!(state.light(2).unwrap().power_override, None);
    assert_eq!(state.light(2).unwrap().desired_power, Some(Power::On));
    assert_eq!(state.light(3).unwrap().desired_power, None);

    let (first, rest) = begin_group_brightness(&state, 5, 0).unwrap();
    assert_eq!((first.id, first.gesture, first.confirm), (1, Gesture::Brightness(0), false));
    let (second, rest) = rest.after(Ok(())).unwrap().unwrap();
    assert_eq!((second.id, second.gesture, second.confirm), (2, Gesture::Brightness(0), false));
    assert!(rest.after(Ok(())).unwrap().is_none());
    let (first, rest) = begin_group_color(&state, 5, 0, 0).unwrap();
    assert_eq!((first.id, rest.left.len()), (1, 1));
    assert_eq!(rest.left[0].gesture, Gesture::Tint(Tint { hue: 0, saturation: 0 }));
}

#[test]
fn a_group_request_ends_at_its_first_failure() {
    let state = house();
    let (_, rest) = begin_group_color(&state, 5, 120, 50).unwrap();
    assert_eq!(rest.left.len(), 1);
    let err = rest.after(Err(ApiError::lifx("silent"))).unwrap_err();
    assert_eq!((err.status, err.message.as_str()), (502, "LIFX command failed: silent"));
    // The last command's failure is the answer too.
    let (_, rest) = begin_group_color(&state, 5, 120, 50).unwrap();
    let (_, rest) = rest.after(Ok(())).unwrap().unwrap();
    assert_eq!(rest.after(Err(ApiError::lifx("silent"))).unwrap_err().status, 502);
}

#[test]
fn a_mode_switch_starts_without_a_manual_choice() {
    let mut state = house();
    state.set_power_override(1, Some(Power::Off));
    let command = ModeCommand::begin(&state, "1", false).unwrap();
    let ModeStep::StoreMode(step) = command.start(&mut state, &test_mode()) else {
        panic!("the mode is to be stored");
    };
    assert_eq!(step.previous, LightMode::Test);
    assert!(matches!(step.stored(&mut state, Ok(()), &test_mode()), ModeStep::Done));
    assert_eq!(state.light(1).unwrap().mode, LightMode::Custom);
    assert_eq!(state.light(1).unwrap().power_override, None);
}

#[test]
fn a_refused_mode_switch_changes_nothing() {
    let mut state = house();
    state.set_power_override(1, Some(Power::Off));
    let ModeStep::StoreMode(step) = ModeCommand::begin(&state, "1", false).unwrap().start(&mut state, &test_mode())
    else {
        panic!("the mode is to be stored");
    };
    assert!(matches!(
        step.stored(&mut state, Err(refusal()), &test_mode()),
        ModeStep::Refused(err) if err.status == 503
    ));
    assert_eq!(state.light(1).unwrap().mode, LightMode::Test);
    assert_eq!(state.light(1).unwrap().power_override, Some(Power::Off));
    assert_eq!(ModeCommand::begin(&state, "3", true).unwrap_err().status, 409);
    let gone = ModeCommand {
        id: 77,
        device: LifxDevice { id: 77, addr: String::new() },
        mode: LightMode::Test,
    };
    assert!(matches!(
        gone.start(&mut state, &test_mode()),
        ModeStep::Refused(err) if err.status == 404 && err.message == "unknown light"
    ));
}

#[test]
fn a_light_that_cannot_follow_test_mode_is_moved_back() {
    let mut state = house();
    state.set_power_override(2, Some(Power::On));
    let ModeStep::StoreMode(step) = ModeCommand::begin(&state, "2", true).unwrap().start(&mut state, &test_mode())
    else {
        panic!("the mode is to be stored");
    };
    let ModeStep::Synchronize(step) = step.stored(&mut state, Ok(()), &test_mode()) else {
        panic!("the light is to follow");
    };
    assert_eq!(state.light(2).unwrap().mode, LightMode::Test);
    assert_eq!(state.light(2).unwrap().power_override, None);
    let ModeStep::StoreRollback(step) = step.failed(&mut state, "no answer".to_string()) else {
        panic!("the old mode is to be stored");
    };
    let (err, complaint) = step.stored(&mut state, Ok(()));
    assert_eq!((err.status, err.message.as_str()), (502, "LIFX command failed: no answer"));
    assert!(complaint.is_none());
    assert_eq!(state.light(2).unwrap().mode, LightMode::Custom);
    assert_eq!(state.light(2).unwrap().power_override, Some(Power::On));
    let kept = state.configured_lights().into_iter().find(|light| light.id == 2).unwrap();
    assert_eq!(kept.mode, LightMode::Custom);
}

#[test]
fn a_rollback_that_cannot_be_stored_leaves_the_new_mode() {
    let mut state = house();
    let ModeStep::StoreMode(step) = ModeCommand::begin(&state, "2", true).unwrap().start(&mut state, &test_mode())
    else {
        panic!("the mode is to be stored");
    };
    let ModeStep::Synchronize(step) = step.stored(&mut state, Ok(()), &test_mode()) else {
        panic!("the light is to follow");
    };
    let ModeStep::StoreRollback(step) = step.failed(&mut state, "no answer".to_string()) else {
        panic!("the old mode is to be stored");
    };
    let (_, complaint) = step.stored(&mut state, Err(refusal()));
    assert!(matches!(complaint, Some(StoreError::Sqlx(_))));
    assert_eq!(state.light(2).unwrap().mode, LightMode::Test);
}

#[test]
fn enrolling_an_enrolled_light_needs_no_store() {
    let mut state = house();
    state.set_power_override(1, Some(Power::Off));
    let ModeStep::Synchronize(step) =
        ModeCommand::begin(&state, "1", true).unwrap().start(&mut state, &test_mode())
    else {
        panic!("the light is to follow");
    };
    assert_eq!(state.light(1).unwrap().power_override, None);
    assert!(matches!(
        step.failed(&mut state, "no answer".to_string()),
        ModeStep::Refused(err) if err.status == 502
    ));
    assert_eq!(state.light(1).unwrap().power_override, Some(Power::Off));
    assert_eq!(state.light(1).unwrap().mode, LightMode::Test);
}

#[test]
fn an_enrolled_light_heads_for_the_modes_state() {
    let mut state = house();
    state.record_observation(1, seen(), at(0));
    let ModeStep::Synchronize(step) =
        ModeCommand::begin(&state, "1", true).unwrap().start(&mut state, &test_mode())
    else {
        panic!("the light is to follow");
    };
    assert_eq!(step.target, enrolment_target(&test_mode()));
    let span = Duration::from_secs(5);
    assert!(matches!(step.accepted(&mut state, span, at(7), &linear), ModeStep::Done));
    let light = state.light(1).unwrap();
    assert_eq!(light.desired_power, Some(Power::On));
    assert_eq!(light.desired_color, Some(ColorTarget { hue: 0, saturation: 0, kelvin: 2_700 }));
    let transition = light.brightness_transition.unwrap();
    assert_eq!((transition.from, transition.to), (30, 55_000));
}

#[test]
fn requests_are_shown_as_they_were_made() {
    let mut state = house();
    state.record_observation(2, seen(), at(0));
    let span = Duration::from_secs(30);
    for percent in [0, 1, 37, 99, 100] {
        let control = begin_brightness(&state, "2", percent, false).unwrap();
        let LiveStep::SendColor(step) = control.start(&state, at(0), &linear) else {
            panic!("the colour is to be sent");
        };
        step.sent(&mut state, Ok(()));
        let view = to_light_view(&state.light(2).unwrap(), span, at(0), &linear);
        assert_eq!(view.brightness_percent, Some(percent));
    }
    for (degrees, percent) in [(0, 0), (1, 50), (359, 99), (360, 100)] {
        let control = begin_color(&state, "2", degrees, percent, false).unwrap();
        let LiveStep::SendColor(step) = control.start(&state, at(0), &linear) else {
            panic!("the colour is to be sent");
        };
        step.sent(&mut state, Ok(()));
        let view = to_light_view(&state.light(2).unwrap(), span, at(0), &linear);
        assert_eq!(view.hue_degrees, Some(degrees % 360));
        assert_eq!(view.saturation_percent, Some(percent));
    }
}

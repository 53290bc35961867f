use shocs_lc::clock::{Duration, Instant};
use shocs_lc::controller::ControllerState;
use shocs_lc::device::{Color, LifxDevice, LightState, Power};
use shocs_lc::discovery::{refresh_device, RefreshStep};
use shocs_lc::registry::{Interpolation, LightMode};
use shocs_lc::schedule::{Moment, TimeOfDay, Timezone};
use shocs_lc::store::{StoredGroup, StoredLight};
use shocs_lc::tasks::{
    apply_test_power, boundary_reached, heartbeat, heartbeat_applied, power_batches, reconcile,
    reconcile_interval, schedule_wait, settle_time, test_state_matches, PowerBatch, StatePoll, SyncConfirmation,
    SyncOutcome, SyncStep,
};
use shocs_lc::test_mode::{enrolment_target, SyncTarget, TestModeState};
use shocs_lc::timers::{
    timer_candidates, timer_fingerprint, timer_target_lights, timer_target_log, TimerLight, TimerRegister, TimerSchedule, TimerTarget,
};

fn at(ms: u64) -> Instant {
    Instant::at(Duration::from_millis(ms))
}

fn linear(point: Interpolation) -> u16 {
    let progress = point.elapsed_nanos as f64 / point.duration_nanos as f64;
    let from = f64::from(point.from);
    (from + (f64::from(point.to) - from) * progress).round() as u16
}

fn house(lights: &[(u64, LightMode)]) -> ControllerState {
    let mut state = ControllerState::new(&vec![], vec![], vec![]);
    for (id, mode) in lights {
        let stored = StoredLight {
            id: *id,
            device_label: None,
            friendly_name: None,
            control_enabled: true,
            mode: *mode,
        };
        let RefreshStep::Upsert(step) = refresh_device(&mut state, device(*id), None, at(0)) else {
            panic!("the light is new");
        };
        step.stored(&mut state, Ok(stored), at(0));
    }
    state
}

fn device(id: u64) -> LifxDevice {
    LifxDevice { id, addr: format!("10.0.0.{id}:56700") }
}

fn seen(color: Color, power: Power) -> LightState {
    LightState {
        hue: color.hue,
        saturation: color.saturation,
        brightness: color.brightness,
        kelvin: color.kelvin,
        power,
    }
}

fn shape(batches: &[PowerBatch]) -> Vec<(Power, Vec<u64>)> {
    batches
        .iter()
        .map(|batch| (batch.power, batch.devices.iter().map(|device| device.id).collect()))
        .collect()
}

#[test]
fn a_state_matches_within_the_tolerances() {
    let target = Color::new(1_000, 40_000, 30_000, 3_500);
    let near = LightState { hue: 1_512, saturation: 39_488, brightness: 30_512, kelvin: 3_450, power: Power::On };
    assert!(test_state_matches(near, target, Power::On));
    assert!(!test_state_matches(near, target, Power::Off));
    assert!(!test_state_matches(LightState { hue: 1_513, ..near }, target, Power::On));
    assert!(!test_state_matches(LightState { saturation: 39_487, ..near }, target, Power::On));
    assert!(!test_state_matches(LightState { brightness: 30_513, ..near }, target, Power::On));
    assert!(!test_state_matches(LightState { kelvin: 3_449, ..near }, target, Power::On));
    // The hue of white does not matter.
    let white = Color::white(3_500, 30_000);
    assert!(test_state_matches(
        LightState { hue: 60_000, saturation: 512, ..near },
        white,
        Power::On
    ));
    assert!(test_state_matches(seen(target, Power::Off), target, Power::Off));
}

#[test]
fn power_is_applied_to_enrolled_lights() {
    let mut state = house(&[(1, LightMode::Test), (2, LightMode::Custom)]);
    let devices = apply_test_power(&mut state, Power::Off).unwrap();
    assert_eq!(devices.iter().map(|d| d.id).collect::<Vec<_>>(), vec![1]);
    assert_eq!(state.light(1).unwrap().desired_power, Some(Power::Off));
    assert_eq!(state.light(2).unwrap().desired_power, None);
    assert!(apply_test_power(&mut house(&[(2, LightMode::Custom)]), Power::On).is_none());
}

#[test]
fn a_new_light_is_checked_twice_at_most() {
    assert_eq!(settle_time(Duration::from_secs(5)).as_millis(), 5_400);
    let mut state = house(&[(1, LightMode::Test)]);
    let mut test_mode = TestModeState::new(Power::On);
    let second = Duration::from_secs(1);
    let SyncStep::ReadLight(check) = SyncConfirmation::new(1).check(&state, &test_mode) else {
        panic!("the light is in Test Mode");
    };
    assert_eq!(check.target, SyncTarget { color: Color::white(2_700, 55_000), power: Power::On });
    // The colour that Test Mode has by the time of the retry is the one that is sent.
    test_mode.advance_color();
    let amber = Color::new(7_500, 50_000, 55_000, 3_500);
    let SyncStep::Resend(resend) =
        check.read(&mut state, None, &test_mode, second, at(1), &linear)
    else {
        panic!("a retry is due");
    };
    assert_eq!(resend.target, SyncTarget { color: amber, power: Power::On });
    assert_eq!(state.light(1).unwrap().desired_brightness, Some(55_000));
    let SyncStep::Settle(confirmation) = resend.sent(&mut state, true) else {
        panic!("the light needs time");
    };
    let SyncStep::ReadLight(check) = confirmation.check(&state, &test_mode) else {
        panic!("the light is in Test Mode");
    };
    let off = seen(amber, Power::Off);
    assert!(matches!(
        check.read(&mut state, Some(off), &test_mode, second, at(2), &linear),
        SyncStep::Done(SyncOutcome::Unconfirmed)
    ));
    assert_eq!(state.light(1).unwrap().observed, Some(off));
}

#[test]
fn a_confirmed_light_is_in_no_transition() {
    let mut state = house(&[(1, LightMode::Test)]);
    let test_mode = TestModeState::new(Power::On);
    let second = Duration::from_secs(1);
    state.set_power_override(1, Some(Power::Off));
    state.record_observation(1, seen(Color::white(2_700, 0), Power::On), at(0));
    state.begin_brightness_transition(1, 55_000, Duration::from_secs(60), at(0), &linear);
    let SyncStep::ReadLight(check) = SyncConfirmation::new(1).check(&state, &test_mode) else {
        panic!("the light is in Test Mode");
    };
    assert_eq!(check.target.power, Power::Off);
    let there = seen(check.target.color, Power::Off);
    assert!(matches!(
        check.read(&mut state, Some(there), &test_mode, second, at(1), &linear),
        SyncStep::Done(SyncOutcome::Confirmed)
    ));
    assert!(state.light(1).unwrap().brightness_transition.is_none());
}

#[test]
fn a_light_that_cannot_be_reached_again_is_in_no_transition() {
    let mut state = house(&[(1, LightMode::Test)]);
    let test_mode = TestModeState::new(Power::On);
    let SyncStep::ReadLight(check) = SyncConfirmation::new(1).check(&state, &test_mode) else {
        panic!("the light is in Test Mode");
    };
    let dark = seen(Color::white(2_700, 0), Power::On);
    let step = check.read(&mut state, Some(dark), &test_mode, Duration::from_secs(60), at(1), &linear);
    assert!(state.light(1).unwrap().brightness_transition.is_some());
    let SyncStep::Resend(resend) = step else { panic!("a retry is due") };
    assert!(matches!(resend.sent(&mut state, false), SyncStep::Done(SyncOutcome::Unreachable)));
    assert!(state.light(1).unwrap().brightness_transition.is_none());
}

#[test]
fn a_light_that_left_is_not_fought() {
    let state = house(&[(1, LightMode::Custom)]);
    let test_mode = TestModeState::new(Power::On);
    for id in [1, 77] {
        assert!(matches!(
            SyncConfirmation::new(id).check(&state, &test_mode),
            SyncStep::Done(SyncOutcome::Left)
        ));
    }
}

#[test]
fn a_light_that_leaves_during_a_check_is_not_fought() {
    let mut state = house(&[(1, LightMode::Test)]);
    let test_mode = TestModeState::new(Power::On);
    let SyncStep::ReadLight(check) = SyncConfirmation::new(1).check(&state, &test_mode) else {
        panic!("the light is in Test Mode");
    };
    state.set_mode(1, LightMode::Custom, LightMode::Test, Ok(())).unwrap();
    let dark = seen(Color::white(2_700, 0), Power::Off);
    let step = check.read(&mut state, Some(dark), &test_mode, Duration::from_secs(1), at(1), &linear);
    assert!(matches!(step, SyncStep::Done(SyncOutcome::Left)));
    let light = state.light(1).unwrap();
    assert_eq!(light.observed, Some(dark));
    assert_eq!(light.desired_color, None);
    assert_eq!(light.desired_power, None);
    assert_eq!(light.desired_brightness, None);
    assert!(light.brightness_transition.is_none());
}

#[test]
fn a_light_that_leaves_during_the_last_check_is_unconfirmed() {
    let mut state = house(&[(1, LightMode::Test)]);
    let test_mode = TestModeState::new(Power::On);
    let second = Duration::from_secs(1);
    let SyncStep::ReadLight(check) = SyncConfirmation::new(1).check(&state, &test_mode) else {
        panic!("the light is in Test Mode");
    };
    let SyncStep::Resend(resend) = check.read(&mut state, None, &test_mode, second, at(1), &linear)
    else {
        panic!("a retry is due");
    };
    let SyncStep::Settle(confirmation) = resend.sent(&mut state, true) else {
        panic!("the light needs time");
    };
    let SyncStep::ReadLight(check) = confirmation.check(&state, &test_mode) else {
        panic!("the light is in Test Mode");
    };
    state.set_mode(1, LightMode::Custom, LightMode::Test, Ok(())).unwrap();
    assert!(matches!(
        check.read(&mut state, None, &test_mode, second, at(2), &linear),
        SyncStep::Done(SyncOutcome::Unconfirmed)
    ));
}

#[test]
fn the_schedule_is_awaited_or_asked_again() {
    let at = |secs| Moment::new(Timezone::parse("UTC").unwrap(), secs, 0).unwrap();
    assert_eq!(schedule_wait(&Ok((at(9), Power::On)), &at(7)).as_secs(), 2);
    assert!(schedule_wait(&Ok((at(7), Power::On)), &at(9)).is_zero());
    assert_eq!(schedule_wait(&Err("no boundary".to_string()), &at(9)).as_secs(), 60);
}

#[test]
fn a_joining_light_is_sent_the_current_state() {
    let mut test_mode = TestModeState::new(Power::Off);
    test_mode.advance_color();
    assert_eq!(
        enrolment_target(&test_mode),
        SyncTarget { color: Color::new(7_500, 50_000, 55_000, 3_500), power: Power::Off }
    );
}

#[test]
fn a_poll_counts_the_lights_it_read() {
    let mut state = house(&[(1, LightMode::Test), (2, LightMode::Custom)]);
    let mut poll = StatePoll::new();
    let white = seen(Color::white(2_700, 1), Power::On);
    assert_eq!(poll.record(&mut state, 1, Some(white), at(0)), Some(true));
    assert_eq!(poll.record(&mut state, 1, Some(white), at(1)), Some(false));
    assert_eq!(poll.record(&mut state, 2, None, at(1)), None);
    assert_eq!(poll.record(&mut state, 77, Some(white), at(1)), None);
    assert_eq!(poll.updated, 2);
}

#[test]
fn reconciliation_turns_off_before_it_turns_on() {
    assert_eq!(reconcile_interval(Duration::from_secs(10)).as_secs(), 11);
    let pairs = vec![(device(1), Power::On), (device(2), Power::Off), (device(3), Power::On)];
    assert_eq!(
        shape(&power_batches(&pairs)),
        vec![(Power::Off, vec![2]), (Power::On, vec![1, 3])]
    );
    assert_eq!(shape(&power_batches(&vec![(device(1), Power::On)])), vec![(Power::On, vec![1])]);

    let mut state = house(&[(1, LightMode::Test), (2, LightMode::Test), (3, LightMode::Custom)]);
    let test_mode = TestModeState::new(Power::On);
    assert!(reconcile(&state, &test_mode).is_empty());
    for id in 1..=3 {
        state.record_observation(id, seen(Color::white(2_700, 1), Power::Off), at(0));
    }
    state.set_power_override(2, Some(Power::Off));
    assert_eq!(shape(&reconcile(&state, &test_mode)), vec![(Power::On, vec![1])]);
}

#[test]
fn the_heartbeat_carries_the_current_colour() {
    let mut state = house(&[(1, LightMode::Test), (2, LightMode::Custom)]);
    let mut test_mode = TestModeState::new(Power::On);
    test_mode.advance_color();
    let beat = heartbeat(&state, &test_mode).unwrap();
    assert_eq!((beat.name, beat.devices.len()), ("Amber", 1));
    heartbeat_applied(&mut state, beat.color, Duration::from_secs(5), at(0), &linear);
    let light = state.light(1).unwrap();
    assert_eq!(light.desired_brightness, Some(55_000));
    assert_eq!(light.desired_color.unwrap().hue, 7_500);
    assert_eq!(state.light(2).unwrap().desired_color, None);
    assert!(heartbeat(&house(&[(2, LightMode::Custom)]), &test_mode).is_none());
}

#[test]
fn a_boundary_ends_manual_choices() {
    let mut state = house(&[(1, LightMode::Test), (2, LightMode::Custom)]);
    let mut test_mode = TestModeState::new(Power::On);
    test_mode.advance_color();
    state.set_power_override(1, Some(Power::On));
    state.set_power_override(2, Some(Power::On));
    let command = boundary_reached(&mut state, &mut test_mode, Power::Off);
    assert_eq!(command.cleared, 1);
    assert_eq!(command.devices.unwrap().len(), 1);
    assert_eq!(test_mode.power(), Power::Off);
    assert_eq!(test_mode.current_color().0, "Amber");
    assert_eq!(state.light(1).unwrap().power_override, None);
    assert_eq!(state.light(1).unwrap().desired_power, Some(Power::Off));
    assert_eq!(state.light(2).unwrap().power_override, Some(Power::On));

    // A disabled light in Test Mode is not commanded, but its manual choice ends too.
    let mut state = house(&[(1, LightMode::Test)]);
    state.set_control_enabled(1, false, None, Ok(())).unwrap();
    state.set_power_override(1, Some(Power::On));
    let command = boundary_reached(&mut state, &mut test_mode, Power::On);
    assert_eq!(command.cleared, 1);
    assert!(command.devices.is_none());
    assert_eq!(state.light(1).unwrap().power_override, None);
    assert_eq!(state.light(1).unwrap().desired_power, None);
}

fn timer(id: i64, enabled: bool) -> TimerSchedule {
    TimerSchedule {
        id,
        enabled,
        timezone: Timezone::parse("UTC").unwrap(),
        off_time: TimeOfDay::parse("22:00").unwrap(),
        on_time: TimeOfDay::parse("6:30").unwrap(),
        target: TimerTarget::Group(-3),
    }
}

fn candidates(state: &ControllerState, ids: &[u64]) -> Vec<TimerLight> {
    ids.iter()
        .map(|id| TimerLight { light: state.light(*id).unwrap(), timer_mode: true })
        .collect()
}

#[test]
fn timers_are_written_down() {
    assert_eq!(timer_target_log(TimerTarget::Light(0xd0)), "light:00000000000000d0");
    assert_eq!(timer_target_log(TimerTarget::Group(-3)), "group:-3");
    assert_eq!(timer_fingerprint(&timer(1, true), Power::On), "group:-3|06:30|22:00|UTC|On");
    assert_eq!(timer_fingerprint(&timer(1, true), Power::Off), "group:-3|06:30|22:00|UTC|Off");
}

#[test]
fn rounds_go_through_enabled_timers_by_identifier() {
    let mut register = TimerRegister::new();
    let (round, _) =
        register.begin_round(&vec![timer(9, true), timer(2, false), timer(-4, true), timer(5, true)]);
    assert_eq!(round.iter().map(|timer| timer.id).collect::<Vec<_>>(), vec![-4, 5, 9]);
    assert!(register.begin_round(&vec![]).0.is_empty());
}

#[test]
fn a_timer_takes_effect_and_then_only_corrects() {
    let mut state = house(&[(1, LightMode::Custom), (2, LightMode::Custom)]);
    state.set_power_override(1, Some(Power::Off));
    let mut register = TimerRegister::new();
    let timers = vec![timer(1, true)];

    let (_, mut round) = register.begin_round(&timers);
    let lights = candidates(&state, &[1, 2]);
    let command = register.run_timer(&mut round, &mut state, &timers[0], Power::On, &lights);
    assert!(command.changed);
    assert_eq!(shape(&command.batches), vec![(Power::On, vec![1, 2])]);
    assert_eq!(state.light(1).unwrap().power_override, None);

    // Until the bulbs are seen to be on, the command is repeated.
    let (_, mut round) = register.begin_round(&timers);
    let lights = candidates(&state, &[1, 2]);
    let command = register.run_timer(&mut round, &mut state, &timers[0], Power::On, &lights);
    assert!(!command.changed);
    assert_eq!(shape(&command.batches), vec![(Power::On, vec![1, 2])]);

    for id in [1, 2] {
        state.record_observation(id, seen(Color::white(2_700, 1), Power::On), at(0));
    }
    state.set_power_override(2, Some(Power::Off));
    let (_, mut round) = register.begin_round(&timers);
    let lights = candidates(&state, &[1, 2]);
    let command = register.run_timer(&mut round, &mut state, &timers[0], Power::On, &lights);
    assert_eq!(shape(&command.batches), vec![(Power::Off, vec![2])]);
    assert_eq!(state.light(2).unwrap().power_override, Some(Power::Off));

    // The next boundary ends the manual choice.
    let (_, mut round) = register.begin_round(&timers);
    let lights = candidates(&state, &[1, 2]);
    let command = register.run_timer(&mut round, &mut state, &timers[0], Power::Off, &lights);
    assert!(command.changed);
    assert_eq!(shape(&command.batches), vec![(Power::Off, vec![1, 2])]);
    assert_eq!(state.light(2).unwrap().power_override, None);
}

#[test]
fn editing_a_timer_keeps_a_manual_choice() {
    let mut state = house(&[(1, LightMode::Custom)]);
    let mut register = TimerRegister::new();
    let mut timers = vec![timer(1, true)];
    let (_, mut round) = register.begin_round(&timers);
    let lights = candidates(&state, &[1]);
    let command = register.run_timer(&mut round, &mut state, &timers[0], Power::On, &lights);
    assert!(command.changed && command.boundary);
    state.set_power_override(1, Some(Power::Off));

    // The off time is edited; the power asked for stays the same.
    timers[0].off_time = TimeOfDay::parse("23:15").unwrap();
    let (_, mut round) = register.begin_round(&timers);
    let lights = candidates(&state, &[1]);
    let command = register.run_timer(&mut round, &mut state, &timers[0], Power::On, &lights);
    assert!(command.changed && !command.boundary);
    assert_eq!(shape(&command.batches), vec![(Power::Off, vec![1])]);
    assert_eq!(state.light(1).unwrap().power_override, Some(Power::Off));
    assert_eq!(state.light(1).unwrap().desired_power, Some(Power::Off));

    let (_, mut round) = register.begin_round(&timers);
    let lights = candidates(&state, &[1]);
    let command = register.run_timer(&mut round, &mut state, &timers[0], Power::On, &lights);
    assert!(!command.changed && !command.boundary);
    assert_eq!(state.light(1).unwrap().power_override, Some(Power::Off));

    // The boundary ends it.
    let (_, mut round) = register.begin_round(&timers);
    let lights = candidates(&state, &[1]);
    let command = register.run_timer(&mut round, &mut state, &timers[0], Power::Off, &lights);
    assert!(command.changed && command.boundary);
    assert_eq!(state.light(1).unwrap().power_override, None);
    assert_eq!(state.light(1).unwrap().desired_power, Some(Power::Off));
}

#[test]
fn candidates_follow_the_target() {
    let state = house(&[(1, LightMode::Custom), (2, LightMode::Custom)]);
    let found = timer_candidates(&state, TimerTarget::Light(1), &vec![2, 1]);
    assert_eq!(found.len(), 1);
    assert!(found[0].light.device.id == 1 && found[0].timer_mode);
    let found = timer_candidates(&state, TimerTarget::Light(2), &vec![1]);
    assert!(found[0].light.device.id == 2 && !found[0].timer_mode);
    assert!(timer_candidates(&state, TimerTarget::Group(3), &vec![1]).is_empty());
}

#[test]
fn the_lowest_timer_wins_a_light() {
    let mut state = house(&[(1, LightMode::Custom), (2, LightMode::Custom)]);
    let mut register = TimerRegister::new();
    let (timers, mut round) = register.begin_round(&vec![timer(7, true), timer(3, true)]);
    let lights = candidates(&state, &[1]);
    let first = register.run_timer(&mut round, &mut state, &timers[0], Power::On, &lights);
    assert_eq!(shape(&first.batches), vec![(Power::On, vec![1])]);
    let lights = candidates(&state, &[1, 2, 2]);
    let second = register.run_timer(&mut round, &mut state, &timers[1], Power::Off, &lights);
    assert_eq!(shape(&second.batches), vec![(Power::Off, vec![2])]);
    assert_eq!(state.light(1).unwrap().desired_power, Some(Power::On));
}

#[test]
fn timers_pass_over_lights_that_are_not_theirs() {
    let mut state = house(&[(1, LightMode::Custom), (2, LightMode::Custom)]);
    let mut register = TimerRegister::new();
    let (timers, mut round) = register.begin_round(&vec![timer(7, true)]);
    let mut lights = candidates(&state, &[1, 2]);
    lights[0].timer_mode = false;
    lights[1].light.control_enabled = false;
    let command = register.run_timer(&mut round, &mut state, &timers[0], Power::On, &lights);
    assert!(command.batches.is_empty());
    assert_eq!(state.light(1).unwrap().desired_power, None);
}

#[test]
fn a_disabled_timer_is_forgotten() {
    let mut state = house(&[(1, LightMode::Custom)]);
    let mut register = TimerRegister::new();
    let (timers, mut round) = register.begin_round(&vec![timer(7, true)]);
    let lights = candidates(&state, &[1]);
    assert!(register.run_timer(&mut round, &mut state, &timers[0], Power::On, &lights).changed);
    register.begin_round(&vec![timer(7, false)]);
    let (timers, mut round) = register.begin_round(&vec![timer(7, true)]);
    assert!(register.run_timer(&mut round, &mut state, &timers[0], Power::On, &lights).changed);
}

#[test]
fn a_target_leads_to_known_lights() {
    let mut state = house(&[(1, LightMode::Custom), (2, LightMode::Custom)]);
    let group = StoredGroup { id: 4, name: "g".to_string(), member_ids: vec![2, 77, 1] };
    state.create_group(Ok(group)).unwrap();
    let ids = |target: TimerTarget| {
        timer_target_lights(&state, target)
            .into_iter()
            .map(|light| light.device.id)
            .collect::<Vec<_>>()
    };
    assert_eq!(ids(TimerTarget::Light(1)), vec![1]);
    assert_eq!(ids(TimerTarget::Light(77)), Vec::<u64>::new());
    assert_eq!(ids(TimerTarget::Group(4)), vec![2, 1]);
    assert_eq!(ids(TimerTarget::Group(5)), Vec::<u64>::new());
}

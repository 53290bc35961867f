use shocs_lc::clock::{Duration, Instant};
use shocs_lc::controller::ControllerState;
use shocs_lc::device::{Color, LifxDevice, LightState, Power};
use shocs_lc::discovery::{refresh_device, RefreshStep};
use shocs_lc::registry::{Interpolation, LightGroup, LightMode, ManagedLight};
use shocs_lc::store::{StoredGroup, StoredLight};
use shocs_lc::views::{
    display_name, is_online, list_groups, list_lights, list_managed_lights, online_window,
    sort_name, to_group_view, to_light_view, view_lights, view_managed_lights,
    BrightnessTransitionView,
};

fn at(ms: u64) -> Instant {
    Instant::at(Duration::from_millis(ms))
}

fn linear(point: Interpolation) -> u16 {
    let progress = point.elapsed_nanos as f64 / point.duration_nanos as f64;
    let from = f64::from(point.from);
    (from + (f64::from(point.to) - from) * progress).round() as u16
}

fn lamp(id: u64, name: Option<&str>) -> ManagedLight {
    ManagedLight {
        device: LifxDevice { id, addr: format!("10.0.0.{id}:56700") },
        label: None,
        friendly_name: name.map(str::to_string),
        control_enabled: true,
        mode: LightMode::Test,
        observed: None,
        desired_power: None,
        desired_color: None,
        desired_brightness: None,
        brightness_transition: None,
        power_override: None,
        last_discovered: at(0),
        last_observed: None,
    }
}

fn stored(id: u64, name: Option<&str>) -> StoredLight {
    StoredLight {
        id,
        device_label: None,
        friendly_name: name.map(str::to_string),
        control_enabled: true,
        mode: LightMode::Custom,
    }
}

fn state() -> ControllerState {
    let mut state = ControllerState::new(
        &vec![],
        vec![stored(1, Some("beta")), stored(2, Some("Alpha")), stored(3, None)],
        vec![
            StoredGroup { id: 8, name: "zoo".to_string(), member_ids: vec![1, 2, 3] },
            StoredGroup { id: 9, name: "Attic".to_string(), member_ids: vec![3] },
        ],
    );
    for (id, name) in [(1, "beta"), (2, "Alpha")] {
        let device = LifxDevice { id, addr: format!("10.0.0.{id}:56700") };
        let RefreshStep::WriteLabel(step) = refresh_device(&mut state, device, None, at(0)) else {
            panic!("the name is to be written");
        };
        assert_eq!(step.name, name);
        step.written(&mut state, Err("no answer".to_string()), at(0));
    }
    state
}

#[test]
fn a_light_is_online_for_three_polls() {
    let window = online_window(Duration::from_secs(10));
    assert_eq!(window.as_secs(), 30);
    assert!(!is_online(None, window, at(0)));
    assert!(is_online(Some(at(0)), window, at(30_000)));
    assert!(!is_online(Some(at(0)), window, at(30_001)));
    assert!(is_online(Some(at(9)), window, at(0)));
}

#[test]
fn lights_are_named_by_name_then_label_then_identifier() {
    let some = |text: &str| Some(text.to_string());
    assert_eq!(display_name(&some("Desk"), &some("bulb"), 1), "Desk");
    assert_eq!(display_name(&None, &some("bulb"), 1), "bulb");
    assert_eq!(display_name(&None, &None, 0xd0), "LIFX 0x00000000000000d0");
    let key = |light: &ManagedLight| sort_name(light).into_iter().collect::<String>();
    assert_eq!(key(&lamp(1, Some("DESK"))), "desk");
    assert_eq!(key(&lamp(1, None)), "");
}

#[test]
fn a_light_shows_what_was_commanded() {
    let mut light = lamp(1, None);
    let window = Duration::from_secs(30);
    let view = to_light_view(&light, window, at(0), &linear);
    assert_eq!(view.id, "0x0000000000000001");
    assert_eq!(view.label, "LIFX 0x0000000000000001");
    assert_eq!(view.address, "10.0.0.1:56700");
    assert_eq!(view.mode, "test");
    assert!(!view.online);
    assert_eq!(view.power_on, None);
    assert_eq!(view.brightness_percent, None);
    assert_eq!(view.hue_degrees, None);

    light.observed = Some(LightState {
        hue: 32_768,
        saturation: 65_535,
        brightness: 6_554,
        kelvin: 2_700,
        power: Power::On,
    });
    light.last_observed = Some(at(0));
    let view = to_light_view(&light, window, at(10), &linear);
    assert!(view.online);
    assert_eq!(view.power_on, Some(true));
    assert_eq!(view.brightness_percent, Some(10));
    assert_eq!(view.hue_degrees, Some(180));
    assert_eq!(view.saturation_percent, Some(100));
    assert_eq!(view.kelvin, Some(2_700));

    light.desired_power = Some(Power::Off);
    light.desired_color = Some(Color::new(0, 0, 1, 6_500).into());
    light.desired_brightness = Some(65_535);
    light.brightness_transition = Some(shocs_lc::registry::BrightnessTransition {
        from: 0,
        to: 65_535,
        started: at(0),
        duration: Duration::from_millis(100),
    });
    let view = to_light_view(&light, window, at(60), &linear);
    assert_eq!(view.power_on, Some(false));
    assert_eq!(view.brightness_percent, Some(60));
    assert_eq!(
        view.brightness_transition,
        Some(BrightnessTransitionView { to_percent: 100, remaining_ms: 40 })
    );
    assert_eq!((view.hue_degrees, view.saturation_percent, view.kelvin), (Some(0), Some(0), Some(6_500)));
    let view = to_light_view(&light, window, at(100), &linear);
    assert_eq!(view.brightness_transition, None);
    assert_eq!(view.brightness_percent, Some(100));
}

#[test]
fn lights_are_shown_in_the_order_of_their_names() {
    let lights = vec![
        lamp(1, Some("beta")),
        lamp(2, Some("Alpha")),
        lamp(3, None),
        lamp(4, Some("ALPHA")),
    ];
    let shown: Vec<String> = view_lights(&lights, Duration::from_secs(1), at(0), &linear)
        .into_iter()
        .map(|view| view.label)
        .collect();
    assert_eq!(shown, vec!["LIFX 0x0000000000000003", "Alpha", "ALPHA", "beta"]);

    let state = state();
    let shown: Vec<String> = list_lights(&state, Duration::from_secs(1), at(0), &linear)
        .into_iter()
        .map(|view| view.label)
        .collect();
    assert_eq!(shown, vec!["Alpha", "beta"]);
}

#[test]
fn stored_lights_are_shown_whether_met_or_not() {
    let state = state();
    let views = list_managed_lights(&state, Duration::from_secs(10), at(0));
    let shown: Vec<(&str, Option<&str>)> = views
        .iter()
        .map(|view| (view.display_name.as_str(), view.address.as_deref()))
        .collect();
    assert_eq!(
        shown,
        vec![
            ("Alpha", Some("10.0.0.2:56700")),
            ("beta", Some("10.0.0.1:56700")),
            ("LIFX 0x0000000000000003", None),
        ]
    );
    assert_eq!(views[0].mode, "custom");
    assert!(!views[0].online);
    assert_eq!(views[0].friendly_name.as_deref(), Some("Alpha"));
    assert_eq!(views[0].device_label, None);
    let few = vec![stored(3, None)];
    assert_eq!(view_managed_lights(&few, &state, Duration::from_secs(1), at(0)).len(), 1);
}

#[test]
fn a_group_sums_up_its_members() {
    let group = LightGroup { id: 8, name: "zoo".to_string(), member_ids: vec![1, 2, 3, 77] };
    let observed = |brightness: u16, power: Power| {
        Some(LightState { hue: 0, saturation: 0, brightness, kelvin: 2_700, power })
    };
    let mut one = lamp(1, None);
    one.observed = observed(65_535, Power::On);
    one.last_observed = Some(at(0));
    one.desired_color = Some(Color::new(32_768, 65_535, 0, 3_000).into());
    let mut two = lamp(2, None);
    two.observed = observed(0, Power::On);
    let mut three = lamp(3, None);
    three.control_enabled = false;
    three.observed = observed(0, Power::Off);
    three.last_observed = Some(at(0));
    let window = Duration::from_secs(1);
    let view = to_group_view(&group, &vec![one.clone(), two.clone(), three.clone()], window, at(0), &linear);
    assert_eq!(view.id, 8);
    assert_eq!(view.name, "zoo");
    assert_eq!(view.member_ids[3], "0x000000000000004d");
    assert_eq!(
        (view.member_count, view.control_enabled_count, view.online_count),
        (4, 2, 2)
    );
    assert_eq!(view.power_state, Some("on"));
    assert_eq!(view.brightness_percent, Some(50));
    assert_eq!(view.hue_degrees, Some(180));
    assert_eq!(view.saturation_percent, Some(100));
    assert_eq!(view.kelvin, Some(3_000));

    two.desired_power = Some(Power::Off);
    let view = to_group_view(&group, &vec![one.clone(), two.clone()], window, at(0), &linear);
    assert_eq!(view.power_state, Some("mixed"));
    one.desired_power = Some(Power::Off);
    let view = to_group_view(&group, &vec![one, two], window, at(0), &linear);
    assert_eq!(view.power_state, Some("off"));
    let view = to_group_view(&group, &vec![three], window, at(0), &linear);
    assert_eq!(view.power_state, None);
    assert_eq!(view.brightness_percent, None);
    assert_eq!(view.hue_degrees, None);
}

#[test]
fn the_group_page_shows_groups_and_choices() {
    let page = list_groups(&state(), Duration::from_secs(10), at(0), &linear);
    let groups: Vec<(&str, usize)> =
        page.groups.iter().map(|view| (view.name.as_str(), view.control_enabled_count)).collect();
    assert_eq!(groups, vec![("Attic", 0), ("zoo", 2)]);
    let lights: Vec<&str> = page.lights.iter().map(|option| option.display_name.as_str()).collect();
    assert_eq!(lights, vec!["Alpha", "beta", "LIFX 0x0000000000000003"]);
    assert!(page.lights[0].control_enabled);
    assert!(!page.lights[0].online);
    assert_eq!(page.lights[0].id, "0x0000000000000002");
}

use shocs_lc::clock::{Duration, Instant};
use shocs_lc::device::{Color, LifxDevice, LightState, Power};
use shocs_lc::registry::{
    BrightnessTransition, ColorTarget, Interpolation, LightMode, ManagedLight,
};

fn at(ms: u64) -> Instant {
    Instant::at(Duration::from_millis(ms))
}

fn linear(point: Interpolation) -> u16 {
    let fraction = point.elapsed_nanos as f64 / point.duration_nanos as f64;
    let from = f64::from(point.from);
    let to = f64::from(point.to);
    (from + (to - from) * fraction).round() as u16
}

fn lamp() -> ManagedLight {
    ManagedLight {
        device: LifxDevice { id: 7, addr: "10.0.0.7:56700".to_string() },
        label: None,
        friendly_name: None,
        control_enabled: true,
        mode: LightMode::Custom,
        observed: None,
        desired_power: None,
        desired_color: None,
        desired_brightness: None,
        brightness_transition: None,
        power_override: None,
        last_discovered: at(0),
        last_observed: None,
    }
}

#[test]
fn durations_add_up_to_nanoseconds() {
    let span = Duration::new(2, 500_000_000);
    assert_eq!(span.as_secs(), 2);
    assert_eq!(span.subsec_nanos(), 500_000_000);
    assert_eq!(span.as_millis(), 2_500);
    assert_eq!(span.as_nanos(), 2_500_000_000);
    assert!(!span.is_zero());
    assert!(Duration::from_secs(0).is_zero());
    assert!(Duration::from_millis(2_499).is_less_than(span));
}

#[test]
fn duration_arithmetic_saturates() {
    let most = Duration::new(u64::MAX, 999_999_999);
    assert_eq!(most.saturating_add(Duration::from_secs(1)).as_nanos(), most.as_nanos());
    assert_eq!(most.saturating_mul(3).as_nanos(), most.as_nanos());
    assert_eq!(Duration::from_secs(10).saturating_mul(3).as_secs(), 30);
    assert!(Duration::from_secs(1).saturating_sub(Duration::from_secs(2)).is_zero());
    assert!(at(5).saturating_duration_since(at(9)).is_zero());
    assert_eq!(at(9).saturating_duration_since(at(5)).as_millis(), 4);
}

#[test]
fn modes_have_names_that_read_back() {
    for mode in [LightMode::Test, LightMode::Custom] {
        assert_eq!(LightMode::from_str(mode.as_str()), Some(mode));
    }
    assert_eq!(LightMode::Test.as_str(), "test");
    assert_eq!(LightMode::Custom.as_str(), "custom");
    assert_eq!(LightMode::from_str("Test"), None);
    assert_eq!(LightMode::from_str("timer"), None);
}

#[test]
fn a_transition_is_projected_until_it_is_over() {
    let transition = BrightnessTransition {
        from: 1_000,
        to: 3_000,
        started: at(100),
        duration: Duration::from_millis(1_000),
    };
    assert_eq!(transition.projected_value(at(0), &linear), 1_000);
    assert_eq!(transition.projected_value(at(600), &linear), 2_000);
    assert_eq!(transition.projected_value(at(1_100), &linear), 3_000);
    assert_eq!(transition.projected_value(at(9_000), &linear), 3_000);
    assert_eq!(transition.remaining(at(600)).as_millis(), 500);
    assert!(transition.remaining(at(1_100)).is_zero());
    assert!(transition.is_active(at(1_099)));
    assert!(!transition.is_active(at(1_100)));
}

#[test]
fn a_transition_moves_one_way_between_its_levels() {
    for (from, to) in [(1_000, 3_000), (3_000, 1_000), (5, 5), (0, u16::MAX)] {
        let transition = BrightnessTransition {
            from,
            to,
            started: at(100),
            duration: Duration::from_millis(250),
        };
        let mut last = transition.projected_value(at(100), &linear);
        assert_eq!(last, from);
        for ms in 100..400 {
            let level = transition.projected_value(at(ms), &linear);
            assert!((from.min(to)..=from.max(to)).contains(&level));
            assert!(if from <= to { last <= level } else { last >= level });
            if ms < 350 {
                let way = f64::from(to) - f64::from(from);
                let due = f64::from(from) + way * (ms - 100) as f64 / 250.0;
                assert!((f64::from(level) - due).abs() <= 0.500_000_5);
            }
            last = level;
        }
        assert_eq!(last, to);
    }
}

#[test]
fn a_transition_without_duration_is_at_its_target() {
    let transition = BrightnessTransition {
        from: 1,
        to: 2,
        started: at(100),
        duration: Duration::from_secs(0),
    };
    assert_eq!(transition.projected_value(at(100), &linear), 2);
    assert!(!transition.is_active(at(100)));
}

#[test]
fn the_shown_brightness_prefers_what_was_commanded() {
    let mut light = lamp();
    assert_eq!(light.projected_brightness(at(0), &linear), None);
    light.observed = Some(LightState {
        hue: 0,
        saturation: 0,
        brightness: 500,
        kelvin: 2_700,
        power: Power::On,
    });
    assert_eq!(light.projected_brightness(at(0), &linear), Some(500));
    light.desired_brightness = Some(900);
    assert_eq!(light.projected_brightness(at(0), &linear), Some(900));
    light.brightness_transition = Some(BrightnessTransition {
        from: 500,
        to: 900,
        started: at(0),
        duration: Duration::from_millis(100),
    });
    assert_eq!(light.projected_brightness(at(25), &linear), Some(600));
    assert_eq!(light.transition_start_brightness(at(25), &linear), Some(600));
    assert_eq!(light.transition_start_brightness(at(100), &linear), Some(500));
    assert_eq!(light.projected_brightness(at(100), &linear), Some(900));
}

#[test]
fn a_colour_target_leaves_the_brightness_out() {
    let target = ColorTarget::from(Color::new(1, 2, 3, 4));
    assert_eq!(target, ColorTarget { hue: 1, saturation: 2, kelvin: 4 });
    assert_eq!(Color::white(2_700, 9), Color::new(0, 0, 9, 2_700));
}

use shocs_lc::device::{Color, Power};
use shocs_lc::test_mode::TestModeState;

#[test]
fn the_walk_goes_through_nine_colours_and_starts_over() {
    let mut mode = TestModeState::new(Power::On);
    let mut names = Vec::new();
    for _ in 0..9 {
        names.push(mode.current_color().0);
        mode.advance_color();
    }
    assert_eq!(
        names,
        vec!["Warm White", "Amber", "Gold", "Green", "Teal", "Cyan", "Azure", "Blue", "Violet"]
    );
    assert_eq!(mode.current_color(), ("Warm White", Color::white(2_700, 55_000)));
    assert_eq!(mode.power(), Power::On);
}

#[test]
fn power_and_colour_of_test_mode_are_independent() {
    let mut mode = TestModeState::new(Power::Off);
    assert_eq!(mode.power(), Power::Off);
    mode.advance_color();
    mode.set_power(Power::On);
    assert_eq!(mode.power(), Power::On);
    assert_eq!(mode.current_color(), ("Amber", Color::new(7_500, 50_000, 55_000, 3_500)));
}

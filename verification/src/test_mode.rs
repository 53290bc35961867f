//! Test Mode: a scheduled power state and a slow walk through a fixed list of colours.
use vstd::prelude::*;

use crate::device::{Color, Power};

verus! {

/// How many colours Test Mode walks through.
pub const COLOR_COUNT: usize = 9;

/// The colours of Test Mode, in the order of the walk.
pub open spec fn colors() -> Seq<(Seq<char>, Color)> {
    seq![
        ("Warm White"@, Color { hue: 0, saturation: 0, brightness: 55_000, kelvin: 2_700 }),
        ("Amber"@, Color { hue: 7_500, saturation: 50_000, brightness: 55_000, kelvin: 3_500 }),
        ("Gold"@, Color { hue: 10_500, saturation: 48_000, brightness: 55_000, kelvin: 3_500 }),
        ("Green"@, Color { hue: 21_845, saturation: 52_000, brightness: 55_000, kelvin: 3_500 }),
        ("Teal"@, Color { hue: 27_500, saturation: 50_000, brightness: 55_000, kelvin: 3_500 }),
        ("Cyan"@, Color { hue: 32_768, saturation: 50_000, brightness: 55_000, kelvin: 3_500 }),
        ("Azure"@, Color { hue: 38_229, saturation: 52_000, brightness: 55_000, kelvin: 3_500 }),
        ("Blue"@, Color { hue: 43_690, saturation: 52_000, brightness: 55_000, kelvin: 3_500 }),
        ("Violet"@, Color { hue: 49_151, saturation: 48_000, brightness: 55_000, kelvin: 3_500 }),
    ]
}

/// What Test Mode currently owns: a power state and a place in the walk. There is one such state,
/// which its users share; it cannot be copied.
pub struct TestModeState {
    desired_on: bool,
    color_index: usize,
}

impl TestModeState {
    #[verifier::type_invariant]
    spec fn in_walk(self) -> bool {
        self.color_index < COLOR_COUNT
    }

    /// The scheduled power.
    pub closed spec fn scheduled(self) -> Power {
        if self.desired_on {
            Power::On
        } else {
            Power::Off
        }
    }

    /// The place in the walk.
    pub closed spec fn place(self) -> nat {
        self.color_index as nat
    }

    pub fn new(initial_power: Power) -> (r: TestModeState)
        ensures
            r.scheduled() == initial_power,
            r.place() == 0,
    {
        TestModeState { desired_on: matches!(initial_power, Power::On), color_index: 0 }
    }

    pub fn power(&self) -> (r: Power)
        ensures
            r == self.scheduled(),
    {
        if self.desired_on {
            Power::On
        } else {
            Power::Off
        }
    }

    pub fn set_power(&mut self, power: Power)
        ensures
            final(self).scheduled() == power,
            final(self).place() == old(self).place(),
    {
        proof {
            use_type_invariant(&*self);
        }
        self.desired_on = matches!(power, Power::On);
    }

    /// The colour that Test Mode currently owns, with its name.
    pub fn current_color(&self) -> (r: (&'static str, Color))
        ensures
            self.place() < colors().len(),
            (r.0@, r.1) == colors()[self.place() as int],
    {
        proof {
            use_type_invariant(self);
        }
        match self.color_index {
            0 => ("Warm White", Color::white(2_700, 55_000)),
            1 => ("Amber", Color::new(7_500, 50_000, 55_000, 3_500)),
            2 => ("Gold", Color::new(10_500, 48_000, 55_000, 3_500)),
            3 => ("Green", Color::new(21_845, 52_000, 55_000, 3_500)),
            4 => ("Teal", Color::new(27_500, 50_000, 55_000, 3_500)),
            5 => ("Cyan", Color::new(32_768, 50_000, 55_000, 3_500)),
            6 => ("Azure", Color::new(38_229, 52_000, 55_000, 3_500)),
            7 => ("Blue", Color::new(43_690, 52_000, 55_000, 3_500)),
            _ => ("Violet", Color::new(49_151, 48_000, 55_000, 3_500)),
        }
    }

    /// Moves on to the next colour of the walk; the last is followed by the first.
    pub fn advance_color(&mut self)
        ensures
            final(self).place() == next_place(old(self).place()),
            final(self).scheduled() == old(self).scheduled(),
    {
        proof {
            use_type_invariant(&*self);
        }
        self.color_index = (self.color_index + 1) % COLOR_COUNT;
    }
}

/// What a light in Test Mode should show.
#[derive(Clone, Copy, Debug, PartialEq, Eq, Structural)]
pub struct SyncTarget {
    pub color: Color,
    pub power: Power,
}

impl TestModeState {
    /// What a light that joins Test Mode is sent: the mode's current colour and power.
    pub open spec fn joining(self) -> SyncTarget {
        SyncTarget { color: colors()[self.place() as int].1, power: self.scheduled() }
    }
}

pub fn enrolment_target(test_mode: &TestModeState) -> (r: SyncTarget)
    ensures
        r == test_mode.joining(),
{
    let (_, color): (&'static str, Color) = test_mode.current_color();
    SyncTarget { color, power: test_mode.power() }
}

/// The place in the walk that follows `place`.
pub open spec fn next_place(place: nat) -> nat {
    (place + 1) % colors().len()
}

/// The place after `steps` moves from `place`.
pub open spec fn place_after(place: nat, steps: nat) -> nat
    decreases steps,
{
    if steps == 0 {
        place
    } else {
        next_place(place_after(place, (steps - 1) as nat))
    }
}

/// The walk repeats: each move goes one place further round the list, and after as many moves as
/// there are colours Test Mode is back where it was.
pub proof fn walk_repeats(place: nat, steps: nat)
    requires
        place < colors().len(),
    ensures
        place_after(place, steps) == (place + steps) % colors().len(),
        place_after(place, colors().len()) == place,
{
    assert(colors().len() == 9);
    walk_position(place, steps);
    walk_position(place, 9);
}

proof fn walk_position(place: nat, steps: nat)
    requires
        place < colors().len(),
    ensures
        place_after(place, steps) == (place + steps) % colors().len(),
    decreases steps,
{
    assert(colors().len() == 9);
    if steps > 0 {
        walk_position(place, (steps - 1) as nat);
    }
}

} // verus!

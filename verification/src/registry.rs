//! The in-memory light registry: what each light was last seen doing, what it was told to do, and
//! the configuration it follows.
use vstd::prelude::*;

use crate::clock::{Duration, Instant};
use crate::device::{Color, LifxDevice, LifxId, LightState, Power};
use crate::store::StoredGroup;
use crate::text::{clone_optional, same_text};
#[allow(unused_imports)]
use crate::clock::{span_since, MAX_NANOS};
#[allow(unused_imports)]
use crate::store::GroupModel;

verus! {

/// What a light follows: Test Mode's schedule and colours, or manual commands alone.
#[derive(Clone, Copy, Debug, PartialEq, Eq, Structural)]
pub enum LightMode {
    Test,
    Custom,
}

/// The name under which a mode is stored.
pub open spec fn mode_name(mode: LightMode) -> Seq<char> {
    match mode {
        LightMode::Test => "test"@,
        LightMode::Custom => "custom"@,
    }
}

/// The mode stored under a name.
pub open spec fn mode_named(name: Seq<char>) -> Option<LightMode> {
    if name == "test"@ {
        Some(LightMode::Test)
    } else if name == "custom"@ {
        Some(LightMode::Custom)
    } else {
        None
    }
}

impl LightMode {
    pub fn as_str(self) -> (r: &'static str)
        ensures
            r@ == mode_name(self),
    {
        match self {
            LightMode::Test => "test",
            LightMode::Custom => "custom",
        }
    }

    pub fn from_str(value: &str) -> (r: Option<LightMode>)
        ensures
            r == mode_named(value@),
    {
        if same_text(value, "test") {
            Some(LightMode::Test)
        } else if same_text(value, "custom") {
            Some(LightMode::Custom)
        } else {
            None
        }
    }
}

/// A mode's name names that mode.
pub proof fn mode_name_reads_back(mode: LightMode)
    ensures
        mode_named(mode_name(mode)) == Some(mode),
{
    reveal_strlit("test");
    reveal_strlit("custom");
    assert("test"@.len() != "custom"@.len());
}

/// A point inside a brightness transition: the two levels and how much of the way has passed.
#[derive(Clone, Copy, Debug, PartialEq, Eq, Structural)]
pub struct Interpolation {
    pub from: u16,
    pub to: u16,
    pub elapsed_nanos: u128,
    pub duration_nanos: u128,
}

impl Interpolation {
    /// The point lies before the end of a span.
    pub open spec fn on_the_way(self) -> bool {
        self.elapsed_nanos < self.duration_nanos <= MAX_NANOS
    }

    /// `later` is a point of the same transition, and not an earlier one.
    pub open spec fn leads_to(self, later: Interpolation) -> bool {
        &&& self.from == later.from
        &&& self.to == later.to
        &&& self.duration_nanos == later.duration_nanos
        &&& self.elapsed_nanos <= later.elapsed_nanos
    }
}

/// `level` lies between two others.
pub open spec fn between(from: u16, to: u16, level: u16) -> bool {
    from <= level <= to || to <= level <= from
}

/// On the way from `from` to `to`, the level `b` is no step back from `a`.
pub open spec fn no_step_back(from: u16, to: u16, a: u16, b: u16) -> bool {
    &&& from <= to ==> a <= b
    &&& from >= to ==> a >= b
}

/// The distance of two numbers.
pub open spec fn apart(a: int, b: int) -> int {
    if a <= b {
        b - a
    } else {
        a - b
    }
}

/// `level` is the level of the straight line at the point, rounded to the nearest: off by half a
/// level at most, and half a millionth more for what rounding on the way can add.
pub open spec fn near_line(p: Interpolation, level: u16) -> bool {
    let covered = 2 * p.duration_nanos * (level - p.from);
    let due = 2 * (p.to - p.from) * p.elapsed_nanos;
    1_000_000 * apart(covered, due) <= 1_000_001 * p.duration_nanos
}

/// `f` accepts every point and always gives the same level for the same point. On the way it
/// starts at the first level, keeps to the straight line, stays between the two levels and never
/// moves back.
pub open spec fn is_interpolator<F: Fn(Interpolation) -> u16>(f: F) -> bool {
    &&& forall|p: Interpolation| #[trigger] f.requires((p,))
    &&& forall|p: Interpolation, a: u16, b: u16|
        f.ensures((p,), a) && f.ensures((p,), b) ==> a == b
    &&& forall|p: Interpolation, a: u16| #[trigger]
        f.ensures((p,), a) && p.on_the_way() ==> {
            &&& between(p.from, p.to, a)
            &&& near_line(p, a)
            &&& p.elapsed_nanos == 0 ==> a == p.from
        }
    &&& forall|p: Interpolation, q: Interpolation, a: u16, b: u16|
        #![trigger f.ensures((p,), a), f.ensures((q,), b)]
        f.ensures((p,), a) && f.ensures((q,), b) && q.on_the_way() && p.leads_to(q)
            ==> no_step_back(p.from, p.to, a, b)
}

/// The level that `f` gives for a point. A point that it has no answer for counts as the start.
pub open spec fn level_at<F: Fn(Interpolation) -> u16>(f: F, p: Interpolation) -> u16 {
    if exists|level: u16| f.ensures((p,), level) {
        choose|level: u16| f.ensures((p,), level)
    } else {
        p.from
    }
}

/// A brightness change in progress. The level on the way is computed by an interpolator that the
/// caller supplies.
#[derive(Clone, Copy, Debug)]
pub struct BrightnessTransition {
    pub from: u16,
    pub to: u16,
    pub started: Instant,
    pub duration: Duration,
}

impl BrightnessTransition {
    pub open spec fn elapsed(self, now: Instant) -> nat {
        span_since(now@, self.started@)
    }

    pub open spec fn active(self, now: Instant) -> bool {
        self.elapsed(now) < self.duration@
    }

    pub open spec fn point(self, now: Instant) -> Interpolation {
        Interpolation {
            from: self.from,
            to: self.to,
            elapsed_nanos: self.elapsed(now) as u128,
            duration_nanos: self.duration@ as u128,
        }
    }

    /// The target once the transition is over, and the interpolated level before.
    pub open spec fn value<F: Fn(Interpolation) -> u16>(self, now: Instant, f: F) -> u16 {
        if self.active(now) {
            level_at(f, self.point(now))
        } else {
            self.to
        }
    }

    /// `level` is the target once the transition is over, and what `f` answers before.
    pub open spec fn gives<F: Fn(Interpolation) -> u16>(
        self,
        now: Instant,
        f: F,
        level: u16,
    ) -> bool {
        if self.active(now) {
            f.ensures((self.point(now),), level)
        } else {
            level == self.to
        }
    }

    pub fn projected_value<F: Fn(Interpolation) -> u16>(&self, now: Instant, interpolate: &F) -> (r:
        u16)
        requires
            is_interpolator(*interpolate),
        ensures
            r == self.value(now, *interpolate),
            self.gives(now, *interpolate, r),
            between(self.from, self.to, r),
            self.active(now) ==> near_line(self.point(now), r),
            self.active(now) && self.elapsed(now) == 0 ==> r == self.from,
    {
        if self.duration.is_zero() {
            return self.to;
        }
        let elapsed = now.saturating_duration_since(self.started);
        if !elapsed.is_less_than(self.duration) {
            return self.to;
        }
        let elapsed_nanos: u128 = elapsed.as_nanos();
        let duration_nanos: u128 = self.duration.as_nanos();
        interpolate(Interpolation { from: self.from, to: self.to, elapsed_nanos, duration_nanos })
    }

    /// How long the transition still runs; zero once it is over.
    pub fn remaining(&self, now: Instant) -> (r: Duration)
        ensures
            r@ == span_since(self.duration@, self.elapsed(now)),
    {
        self.duration.saturating_sub(now.saturating_duration_since(self.started))
    }

    pub fn is_active(&self, now: Instant) -> (r: bool)
        ensures
            r == self.active(now),
    {
        now.saturating_duration_since(self.started).is_less_than(self.duration)
    }
}

/// A transition is active exactly as long as time remains, and elapsed and remaining time make up
/// the whole.
pub proof fn remaining_and_elapsed(t: BrightnessTransition, now: Instant)
    ensures
        t.active(now) <==> span_since(t.duration@, t.elapsed(now)) > 0,
        t.active(now) ==> t.elapsed(now) + span_since(t.duration@, t.elapsed(now)) == t.duration@,
{
}

/// A transition stays between its two levels, and starts at the first.
pub proof fn transition_stays_between<F: Fn(Interpolation) -> u16>(
    t: BrightnessTransition,
    now: Instant,
    f: F,
)
    requires
        is_interpolator(f),
        t.duration@ <= MAX_NANOS,
    ensures
        between(t.from, t.to, t.value(now, f)),
        t.active(now) && t.elapsed(now) == 0 ==> t.value(now, f) == t.from,
{
    if t.active(now) && exists|level: u16| f.ensures((t.point(now),), level) {
        assert(f.ensures((t.point(now),), level_at(f, t.point(now))));
    }
}

/// A transition keeps to the straight line between its two levels: a level that it gives on the way
/// is the line's, but for rounding.
pub proof fn transition_keeps_to_line<F: Fn(Interpolation) -> u16>(
    t: BrightnessTransition,
    now: Instant,
    f: F,
    level: u16,
)
    requires
        is_interpolator(f),
        t.duration@ <= MAX_NANOS,
        t.active(now),
        t.gives(now, f, level),
    ensures
        near_line(t.point(now), level),
{
}

/// A transition never moves back: of two levels that it gives, the later one is no further from
/// the target.
pub proof fn transition_never_moves_back<F: Fn(Interpolation) -> u16>(
    t: BrightnessTransition,
    now: Instant,
    later: Instant,
    f: F,
    a: u16,
    b: u16,
)
    requires
        is_interpolator(f),
        t.duration@ <= MAX_NANOS,
        now@ <= later@,
        t.gives(now, f, a),
        t.gives(later, f, b),
    ensures
        no_step_back(t.from, t.to, a, b),
        between(a, t.to, b),
{
    if t.active(now) {
        assert(t.point(now).on_the_way());
        assert(between(t.from, t.to, a));
        if t.active(later) {
            assert(t.point(later).on_the_way());
            assert(t.point(now).leads_to(t.point(later)));
            assert(between(t.from, t.to, b));
        }
    }
}

/// Once over, a transition stays over, and it stays at its target.
pub proof fn transition_settles<F: Fn(Interpolation) -> u16>(
    t: BrightnessTransition,
    now: Instant,
    later: Instant,
    f: F,
)
    requires
        now@ <= later@,
        !t.active(now),
    ensures
        !t.active(later),
        t.value(later, f) == t.to,
{
}

/// Colour intent without brightness, which is an independent live control.
#[derive(Clone, Copy, Debug, PartialEq, Eq, Structural)]
pub struct ColorTarget {
    pub hue: u16,
    pub saturation: u16,
    pub kelvin: u16,
}

/// A colour without its brightness.
pub open spec fn color_target(color: Color) -> ColorTarget {
    ColorTarget { hue: color.hue, saturation: color.saturation, kelvin: color.kelvin }
}

impl From<Color> for ColorTarget {
    fn from(color: Color) -> (r: ColorTarget) {
        ColorTarget { hue: color.hue, saturation: color.saturation, kelvin: color.kelvin }
    }
}

impl vstd::std_specs::convert::FromSpecImpl<Color> for ColorTarget {
    open spec fn obeys_from_spec() -> bool {
        true
    }

    open spec fn from_spec(color: Color) -> ColorTarget {
        color_target(color)
    }
}

/// A light that the controller has met on the network.
#[derive(Debug)]
pub struct ManagedLight {
    pub device: LifxDevice,
    pub label: Option<String>,
    pub friendly_name: Option<String>,
    pub control_enabled: bool,
    pub mode: LightMode,
    pub observed: Option<LightState>,
    /// Latest commanded power. It is shown while an observation catches up, which prevents toggle
    /// bounce.
    pub desired_power: Option<Power>,
    /// Latest commanded colour, kept apart from the observed one so that a picker does not bounce
    /// while the bulb catches up.
    pub desired_color: Option<ColorTarget>,
    /// Latest commanded brightness.
    pub desired_brightness: Option<u16>,
    /// A known brightness change in progress.
    pub brightness_transition: Option<BrightnessTransition>,
    /// Explicit manual power choice layered over an automation mode. It survives heartbeats and
    /// reconciliation until the next boundary of the mode's schedule.
    pub power_override: Option<Power>,
    pub last_discovered: Instant,
    pub last_observed: Option<Instant>,
}

impl Clone for ManagedLight {
    fn clone(&self) -> (r: ManagedLight)
        ensures
            r == *self,
    {
        ManagedLight {
            device: self.device.clone(),
            label: clone_optional(&self.label),
            friendly_name: clone_optional(&self.friendly_name),
            control_enabled: self.control_enabled,
            mode: self.mode,
            observed: self.observed,
            desired_power: self.desired_power,
            desired_color: self.desired_color,
            desired_brightness: self.desired_brightness,
            brightness_transition: self.brightness_transition,
            power_override: self.power_override,
            last_discovered: self.last_discovered,
            last_observed: self.last_observed,
        }
    }
}

impl ManagedLight {
    /// A transition in progress leads from another level to the commanded brightness, and takes
    /// time.
    pub open spec fn transition_ok(self) -> bool {
        self.brightness_transition matches Some(t) ==> {
            &&& self.desired_brightness == Some(t.to)
            &&& t.from != t.to
            &&& t.duration@ > 0
        }
    }

    /// Whether a mode's automation may act on this light.
    pub open spec fn governed_by(self, mode: LightMode) -> bool {
        self.mode == mode && self.control_enabled
    }

    pub open spec fn observed_brightness(self) -> Option<u16> {
        match self.observed {
            Some(state) => Some(state.brightness),
            None => None,
        }
    }

    /// The level to show: the point of an active transition, else the commanded level, else the
    /// observed one.
    pub open spec fn shown_brightness<F: Fn(Interpolation) -> u16>(
        self,
        now: Instant,
        f: F,
    ) -> Option<u16> {
        match self.brightness_transition {
            Some(t) if t.active(now) => Some(t.value(now, f)),
            _ => match self.desired_brightness {
                Some(level) => Some(level),
                None => self.observed_brightness(),
            },
        }
    }

    /// The level a new transition starts from: the point of an active transition, else the
    /// observed level, else the commanded one.
    pub open spec fn start_brightness<F: Fn(Interpolation) -> u16>(
        self,
        now: Instant,
        f: F,
    ) -> Option<u16> {
        match self.brightness_transition {
            Some(t) if t.active(now) => Some(t.value(now, f)),
            _ => match self.observed_brightness() {
                Some(level) => Some(level),
                None => self.desired_brightness,
            },
        }
    }

    /// The power to show: the commanded one, else the observed one.
    pub open spec fn shown_power(self) -> Option<Power> {
        match (self.desired_power, self.observed) {
            (Some(power), _) => Some(power),
            (None, Some(state)) => Some(state.power),
            (None, None) => None,
        }
    }

    /// The power that holds in a mode: the manual choice, else the mode's.
    pub open spec fn effective_power(self, mode_power: Power) -> Power {
        match self.power_override {
            Some(power) => power,
            None => mode_power,
        }
    }

    /// The light with a transition to `target` begun at `started`; none where it would lead
    /// nowhere or take no time.
    pub open spec fn heading_for<F: Fn(Interpolation) -> u16>(
        self,
        target: u16,
        duration: Duration,
        started: Instant,
        f: F,
    ) -> ManagedLight {
        let from = match self.start_brightness(started, f) {
            Some(level) => level,
            None => target,
        };
        ManagedLight {
            desired_brightness: Some(target),
            brightness_transition: if duration@ == 0 || from == target {
                None
            } else {
                Some(BrightnessTransition { from, to: target, started, duration })
            },
            ..self
        }
    }

    /// The light after an observation: the observation is kept, and a transition that is over is
    /// dropped.
    pub open spec fn seen(self, observed: LightState, now: Instant) -> ManagedLight {
        ManagedLight {
            observed: Some(observed),
            last_observed: Some(now),
            brightness_transition: match self.brightness_transition {
                Some(t) if !t.active(now) => None,
                other => other,
            },
            ..self
        }
    }

    pub fn projected_brightness<F: Fn(Interpolation) -> u16>(
        &self,
        now: Instant,
        interpolate: &F,
    ) -> (r: Option<u16>)
        requires
            is_interpolator(*interpolate),
        ensures
            r == self.shown_brightness(now, *interpolate),
            self.brightness_transition matches Some(t) ==> (t.active(now) ==> r is Some && t.gives(
                now,
                *interpolate,
                r->0,
            )),
    {
        if let Some(transition) = &self.brightness_transition {
            if transition.is_active(now) {
                return Some(transition.projected_value(now, interpolate));
            }
        }
        match self.desired_brightness {
            Some(level) => Some(level),
            None => match self.observed {
                Some(state) => Some(state.brightness),
                None => None,
            },
        }
    }

    /// When starting a new physical transition, the latest observation is the best estimate of
    /// where the bulb starts from.
    pub fn transition_start_brightness<F: Fn(Interpolation) -> u16>(
        &self,
        now: Instant,
        interpolate: &F,
    ) -> (r: Option<u16>)
        requires
            is_interpolator(*interpolate),
        ensures
            r == self.start_brightness(now, *interpolate),
            self.brightness_transition matches Some(t) ==> (t.active(now) ==> {
                &&& r == self.shown_brightness(now, *interpolate)
                &&& r == Some(t.value(now, *interpolate))
                &&& t.gives(now, *interpolate, r->0)
            }),
            !(self.brightness_transition matches Some(t) && t.active(now)) ==> {
                &&& r == match self.observed {
                    Some(state) => Some(state.brightness),
                    None => self.desired_brightness,
                }
                &&& self.shown_brightness(now, *interpolate) == match self.desired_brightness {
                    Some(level) => Some(level),
                    None => self.observed_brightness(),
                }
                &&& r is None <==> self.observed is None && self.desired_brightness is None
                &&& r is None <==> self.shown_brightness(now, *interpolate) is None
            },
    {
        if let Some(transition) = &self.brightness_transition {
            if transition.is_active(now) {
                return Some(transition.projected_value(now, interpolate));
            }
        }
        match self.observed {
            Some(state) => Some(state.brightness),
            None => self.desired_brightness,
        }
    }

    pub(crate) fn begin_transition<F: Fn(Interpolation) -> u16>(
        self,
        target: u16,
        duration: Duration,
        started: Instant,
        interpolate: &F,
    ) -> (r: ManagedLight)
        requires
            is_interpolator(*interpolate),
        ensures
            r == self.heading_for(target, duration, started, *interpolate),
    {
        let from: u16 = match self.transition_start_brightness(started, interpolate) {
            Some(level) => level,
            None => target,
        };
        let transition = if duration.is_zero() || from == target {
            None
        } else {
            Some(BrightnessTransition { from, to: target, started, duration })
        };
        let mut light = self;
        light.desired_brightness = Some(target);
        light.brightness_transition = transition;
        light
    }
}

/// A transition ends where it was sent: once it is over, the level shown is its target, whatever
/// the light was doing before and however levels are interpolated.
pub proof fn transition_arrives<F: Fn(Interpolation) -> u16>(
    light: ManagedLight,
    target: u16,
    duration: Duration,
    started: Instant,
    now: Instant,
    f: F,
)
    requires
        span_since(now@, started@) >= duration@,
    ensures
        light.heading_for(target, duration, started, f).shown_brightness(now, f) == Some(target),
{
}

/// What a light shows and what a new transition starts from agree while a transition runs. Else the
/// light shows what was commanded before what was observed, and a transition starts from what was
/// observed before what was commanded. Neither has a level just where nothing was either.
pub proof fn start_and_shown_brightness<F: Fn(Interpolation) -> u16>(
    light: ManagedLight,
    now: Instant,
    f: F,
)
    ensures
        light.brightness_transition matches Some(t) && t.active(now) ==> {
            &&& light.start_brightness(now, f) == light.shown_brightness(now, f)
            &&& light.shown_brightness(now, f) == Some(light.brightness_transition->0.value(now, f))
        },
        !(light.brightness_transition matches Some(t) && t.active(now)) ==> {
            &&& light.start_brightness(now, f) == match light.observed {
                Some(state) => Some(state.brightness),
                None => light.desired_brightness,
            }
            &&& light.shown_brightness(now, f) == match light.desired_brightness {
                Some(level) => Some(level),
                None => light.observed_brightness(),
            }
            &&& light.start_brightness(now, f) is None <==> light.observed is None
                && light.desired_brightness is None
            &&& light.shown_brightness(now, f) is None <==> light.observed is None
                && light.desired_brightness is None
        },
{
}

/// A new transition picks up where the running one is: the level shown does not jump, whatever the
/// new target is; it ends at that target; and of the light nothing else changes.
pub proof fn new_transition_does_not_jump<F: Fn(Interpolation) -> u16>(
    light: ManagedLight,
    target: u16,
    duration: Duration,
    started: Instant,
    later: Instant,
    f: F,
)
    requires
        is_interpolator(f),
        light.brightness_transition matches Some(t) && t.active(started),
        0 < duration@ <= MAX_NANOS,
        span_since(later@, started@) >= duration@,
    ensures
        ({
            let after = light.heading_for(target, duration, started, f);
            &&& after.shown_brightness(started, f) == light.shown_brightness(started, f)
            &&& after.shown_brightness(later, f) == Some(target)
            &&& after == ManagedLight {
                desired_brightness: Some(target),
                brightness_transition: after.brightness_transition,
                ..light
            }
        }),
{
    let after = light.heading_for(target, duration, started, f);
    if after.brightness_transition is Some {
        transition_stays_between(after.brightness_transition->0, started, f);
    }
}

/// A group of lights.
#[derive(Debug)]
pub struct LightGroup {
    pub id: i64,
    pub name: String,
    pub member_ids: Vec<LifxId>,
}

impl View for LightGroup {
    type V = GroupModel;

    open spec fn view(&self) -> GroupModel {
        GroupModel { id: self.id, name: self.name@, member_ids: self.member_ids@ }
    }
}

impl Clone for LightGroup {
    fn clone(&self) -> (r: LightGroup)
        ensures
            r@ == self@,
    {
        let member_ids = self.member_ids.clone();
        assert(member_ids@ =~= self.member_ids@);
        LightGroup { id: self.id, name: self.name.clone(), member_ids }
    }
}

impl From<StoredGroup> for LightGroup {
    fn from(group: StoredGroup) -> (r: LightGroup) {
        LightGroup { id: group.id, name: group.name, member_ids: group.member_ids }
    }
}

impl vstd::std_specs::convert::FromSpecImpl<StoredGroup> for LightGroup {
    open spec fn obeys_from_spec() -> bool {
        true
    }

    open spec fn from_spec(group: StoredGroup) -> LightGroup {
        LightGroup { id: group.id, name: group.name, member_ids: group.member_ids }
    }
}

} // verus!

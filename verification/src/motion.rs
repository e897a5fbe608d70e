use vstd::prelude::*;
use vstd::arithmetic::div_mod::{lemma_div_is_ordered, lemma_div_multiples_vanish};

verus! {

/// A timed cursor movement in a straight line from a start point to a
/// target, taking `duration_nanos` nanoseconds.
#[derive(Debug, Clone, Copy, PartialEq, Eq, Structural)]
pub struct MouseMotion {
    pub start_x: i32,
    pub start_y: i32,
    pub target_x: i32,
    pub target_y: i32,
    pub duration_nanos: u64,
}

/// What a timed movement does when polled at some elapsed time.
#[derive(Debug, Clone, Copy, PartialEq, Eq, Structural)]
pub enum MotionStep {
    /// Put the cursor at this point and keep going.
    MoveTo(i32, i32),
    /// Put the cursor at this point (the target) and finish.
    Arrive(i32, i32),
}

/// Division rounding toward zero, for a positive divisor.
pub open spec fn trunc_div(a: int, d: int) -> int {
    if a >= 0 {
        a / d
    } else {
        -((-a) / d)
    }
}

/// The coordinate reached after `elapsed` of `duration` on the way from
/// `start` to `target`: `start + elapsed / duration * (target - start)`,
/// rounded toward zero.
pub open spec fn interpolate(start: int, target: int, elapsed: int, duration: int) -> int {
    trunc_div(start * duration + elapsed * (target - start), duration)
}

/// `v` lies between `a` and `b`, both included.
pub open spec fn between(a: int, b: int, v: int) -> bool {
    (a <= v <= b) || (b <= v <= a)
}

/// `v` fits in a 32-bit signed integer.
pub open spec fn fits_i32(v: int) -> bool {
    i32::MIN <= v <= i32::MAX
}

impl MouseMotion {
    /// The movement has a positive duration, and the distance to the target
    /// on each axis fits in a 32-bit signed integer.
    pub open spec fn well_formed(self) -> bool {
        &&& self.duration_nanos > 0
        &&& fits_i32(self.target_x - self.start_x)
        &&& fits_i32(self.target_y - self.start_y)
    }

    /// What the movement does when polled `elapsed` nanoseconds after it
    /// began: from its duration on it arrives at the target; before that it
    /// puts the cursor on the line, in proportion to the time passed.
    pub open spec fn step_at(self, elapsed: int) -> MotionStep {
        if elapsed >= self.duration_nanos {
            MotionStep::Arrive(self.target_x, self.target_y)
        } else {
            MotionStep::MoveTo(
                interpolate(self.start_x as int, self.target_x as int, elapsed, self.duration_nanos as int) as i32,
                interpolate(self.start_y as int, self.target_y as int, elapsed, self.duration_nanos as int) as i32,
            )
        }
    }

    /// A movement from `start` to `target` over `duration_nanos`
    /// nanoseconds.
    pub fn new(start: (i32, i32), target: (i32, i32), duration_nanos: u64) -> (m: MouseMotion)
        requires
            duration_nanos > 0,
            fits_i32(target.0 - start.0),
            fits_i32(target.1 - start.1),
        ensures
            m == (MouseMotion {
                start_x: start.0,
                start_y: start.1,
                target_x: target.0,
                target_y: target.1,
                duration_nanos,
            }),
            m.well_formed(),
    {
        MouseMotion {
            start_x: start.0,
            start_y: start.1,
            target_x: target.0,
            target_y: target.1,
            duration_nanos,
        }
    }

    /// What the movement does when polled `elapsed_nanos` nanoseconds after
    /// it began.
    pub fn step(&self, elapsed_nanos: u64) -> (s: MotionStep)
        requires
            self.well_formed(),
        ensures
            s == self.step_at(elapsed_nanos as int),
    {
        let duration = self.duration_nanos;
        if elapsed_nanos >= duration {
            MotionStep::Arrive(self.target_x, self.target_y)
        } else {
            let x = interpolate_coordinate(self.start_x, self.target_x, elapsed_nanos, duration);
            let y = interpolate_coordinate(self.start_y, self.target_y, elapsed_nanos, duration);
            MotionStep::MoveTo(x, y)
        }
    }
}

/// Bounds on a numerator carry over to its quotient rounded toward zero:
/// if `lo * d <= a <= hi * d` then `lo <= trunc_div(a, d) <= hi`.
proof fn lemma_trunc_div_bounds(a: int, d: int, lo: int, hi: int)
    requires
        d > 0,
        lo * d <= a <= hi * d,
    ensures
        lo <= trunc_div(a, d) <= hi,
{
    if a >= 0 {
        lemma_div_is_ordered(lo * d, a, d);
        lemma_div_is_ordered(a, hi * d, d);
        lemma_div_multiples_vanish(lo, d);
        lemma_div_multiples_vanish(hi, d);
        assert(d * lo == lo * d && d * hi == hi * d) by (nonlinear_arith);
    } else {
        assert((-hi) * d <= -a <= (-lo) * d) by (nonlinear_arith)
            requires
                lo * d <= a <= hi * d,
        ;
        lemma_div_is_ordered((-hi) * d, -a, d);
        lemma_div_is_ordered(-a, (-lo) * d, d);
        lemma_div_multiples_vanish(-hi, d);
        lemma_div_multiples_vanish(-lo, d);
        assert(d * (-lo) == (-lo) * d && d * (-hi) == (-hi) * d) by (nonlinear_arith);
    }
}

/// Rounding toward zero keeps the order of numerators.
proof fn lemma_trunc_div_monotone(a1: int, a2: int, d: int)
    requires
        d > 0,
        a1 <= a2,
    ensures
        trunc_div(a1, d) <= trunc_div(a2, d),
{
    if a1 >= 0 {
        lemma_div_is_ordered(a1, a2, d);
    } else if a2 < 0 {
        lemma_div_is_ordered(-a2, -a1, d);
    } else {
        lemma_div_is_ordered(0, -a1, d);
        lemma_div_is_ordered(0, a2, d);
    }
}

/// The numerator of `interpolate` lies between `start * duration` and
/// `target * duration`.
proof fn lemma_numerator_between(start: int, target: int, elapsed: int, duration: int)
    requires
        0 <= elapsed <= duration,
    ensures
        start <= target ==> start * duration <= start * duration + elapsed * (target - start)
            <= target * duration,
        target < start ==> target * duration <= start * duration + elapsed * (target - start)
            <= start * duration,
{
    if start <= target {
        assert(start * duration <= start * duration + elapsed * (target - start) <= target * duration)
            by (nonlinear_arith)
            requires
                0 <= elapsed <= duration,
                start <= target,
        ;
    } else {
        assert(target * duration <= start * duration + elapsed * (target - start) <= start * duration)
            by (nonlinear_arith)
            requires
                0 <= elapsed <= duration,
                target < start,
        ;
    }
}

/// An interpolated coordinate lies between the start and the target.
pub proof fn lemma_interpolate_between(start: int, target: int, elapsed: int, duration: int)
    requires
        duration > 0,
        0 <= elapsed <= duration,
    ensures
        between(start, target, interpolate(start, target, elapsed, duration)),
{
    lemma_numerator_between(start, target, elapsed, duration);
    let a = start * duration + elapsed * (target - start);
    if start <= target {
        lemma_trunc_div_bounds(a, duration, start, target);
    } else {
        lemma_trunc_div_bounds(a, duration, target, start);
    }
}

/// One coordinate of a movement `elapsed` nanoseconds into `duration`,
/// computed exactly in 128-bit arithmetic.
fn interpolate_coordinate(start: i32, target: i32, elapsed: u64, duration: u64) -> (r: i32)
    requires
        duration > 0,
        elapsed < duration,
        fits_i32(target - start),
    ensures
        r as int == interpolate(start as int, target as int, elapsed as int, duration as int),
{
    let distance: i128 = target as i128 - start as i128;
    assert(-0x8000_0000_0000_0000_0000_0000 <= start as int * duration as int <= 0x8000_0000_0000_0000_0000_0000)
        by (nonlinear_arith)
        requires
            -0x8000_0000 <= start <= 0x7fff_ffff,
            0 <= duration <= 0xffff_ffff_ffff_ffff,
    ;
    assert(-0x8000_0000_0000_0000_0000_0000 <= elapsed as int * distance <= 0x8000_0000_0000_0000_0000_0000)
        by (nonlinear_arith)
        requires
            -0x8000_0000 <= distance <= 0x7fff_ffff,
            0 <= elapsed <= 0xffff_ffff_ffff_ffff,
    ;
    let numerator: i128 = start as i128 * duration as i128 + elapsed as i128 * distance;
    let quotient: i128 = if numerator >= 0 {
        (numerator as u128 / duration as u128) as i128
    } else {
        -(((-numerator) as u128 / duration as u128) as i128)
    };
    proof {
        lemma_interpolate_between(start as int, target as int, elapsed as int, duration as int);
    }
    assert(quotient == interpolate(start as int, target as int, elapsed as int, duration as int));
    quotient as i32
}

/// A movement polled at its very beginning puts the cursor at its start.
pub proof fn lemma_motion_begins_at_start(m: MouseMotion)
    requires
        m.well_formed(),
    ensures
        m.step_at(0) == MotionStep::MoveTo(m.start_x, m.start_y),
{
    let d = m.duration_nanos as int;
    assert(m.start_x * d + 0 * (m.target_x - m.start_x) == m.start_x * d) by (nonlinear_arith);
    assert(m.start_y * d + 0 * (m.target_y - m.start_y) == m.start_y * d) by (nonlinear_arith);
    lemma_trunc_div_bounds(m.start_x * d, d, m.start_x as int, m.start_x as int);
    lemma_trunc_div_bounds(m.start_y * d, d, m.start_y as int, m.start_y as int);
}

/// Every point a movement puts the cursor at lies on the way from its start
/// to its target: between the two on each axis.
pub proof fn lemma_motion_stays_between(m: MouseMotion, elapsed: int)
    requires
        m.well_formed(),
        elapsed >= 0,
    ensures
        m.step_at(elapsed) matches MotionStep::MoveTo(x, y) ==> between(m.start_x as int, m.target_x as int, x as int)
            && between(m.start_y as int, m.target_y as int, y as int),
{
    if elapsed < m.duration_nanos {
        lemma_interpolate_between(m.start_x as int, m.target_x as int, elapsed, m.duration_nanos as int);
        lemma_interpolate_between(m.start_y as int, m.target_y as int, elapsed, m.duration_nanos as int);
    }
}

/// Polled at any time from its duration on, a movement arrives at its
/// target: a movement always ends where it was headed.
pub proof fn lemma_motion_arrives(m: MouseMotion, elapsed: int)
    requires
        m.well_formed(),
        elapsed >= m.duration_nanos,
    ensures
        m.step_at(elapsed) == MotionStep::Arrive(m.target_x, m.target_y),
{
}

/// A movement never moves back: of two polls before its duration, the later
/// one puts the cursor between the earlier point and the target on each axis.
pub proof fn lemma_motion_never_backtracks(m: MouseMotion, e1: int, e2: int)
    requires
        m.well_formed(),
        0 <= e1 <= e2 < m.duration_nanos,
    ensures
        m.step_at(e1) matches MotionStep::MoveTo(x1, y1) && m.step_at(e2) matches MotionStep::MoveTo(
            x2,
            y2,
        ) && between(x1 as int, m.target_x as int, x2 as int) && between(
            y1 as int,
            m.target_y as int,
            y2 as int,
        ),
{
    let d = m.duration_nanos as int;
    lemma_interpolate_progress(m.start_x as int, m.target_x as int, e1, e2, d);
    lemma_interpolate_progress(m.start_y as int, m.target_y as int, e1, e2, d);
    lemma_interpolate_between(m.start_x as int, m.target_x as int, e1, d);
    lemma_interpolate_between(m.start_y as int, m.target_y as int, e1, d);
    lemma_interpolate_between(m.start_x as int, m.target_x as int, e2, d);
    lemma_interpolate_between(m.start_y as int, m.target_y as int, e2, d);
    let x1 = interpolate(m.start_x as int, m.target_x as int, e1, d);
    let y1 = interpolate(m.start_y as int, m.target_y as int, e1, d);
    let x2 = interpolate(m.start_x as int, m.target_x as int, e2, d);
    let y2 = interpolate(m.start_y as int, m.target_y as int, e2, d);
    assert(m.step_at(e1) == MotionStep::MoveTo(x1 as i32, y1 as i32));
    assert(m.step_at(e2) == MotionStep::MoveTo(x2 as i32, y2 as i32));
    assert((x1 as i32) as int == x1 && (y1 as i32) as int == y1);
    assert((x2 as i32) as int == x2 && (y2 as i32) as int == y2);
}

/// Along one axis, a later interpolated coordinate lies between an earlier
/// one and the target.
proof fn lemma_interpolate_progress(start: int, target: int, e1: int, e2: int, d: int)
    requires
        d > 0,
        0 <= e1 <= e2 <= d,
    ensures
        between(interpolate(start, target, e1, d), target, interpolate(start, target, e2, d)),
{
    let a1 = start * d + e1 * (target - start);
    let a2 = start * d + e2 * (target - start);
    lemma_interpolate_between(start, target, e2, d);
    if start <= target {
        assert(a1 <= a2) by (nonlinear_arith)
            requires
                e1 <= e2,
                start <= target,
                a1 == start * d + e1 * (target - start),
                a2 == start * d + e2 * (target - start),
        ;
        lemma_trunc_div_monotone(a1, a2, d);
    } else {
        assert(a2 <= a1) by (nonlinear_arith)
            requires
                e1 <= e2,
                target < start,
                a1 == start * d + e1 * (target - start),
                a2 == start * d + e2 * (target - start),
        ;
        lemma_trunc_div_monotone(a2, a1, d);
    }
}

} // verus!

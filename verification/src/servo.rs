//! Servo pulse-width calibration (timer ticks at 16 MHz, prescale 8).

use vstd::prelude::*;

verus! {

/// Shortest accepted pulse, roughly 0.8 ms.
pub const SERVO_MIN: u16 = 1600;

/// Longest accepted pulse, roughly 2.2 ms.
pub const SERVO_MAX: u16 = 4400;

/// Map an angle in degrees to the matching pulse width in timer ticks,
/// scaling linearly between the two calibration points.
pub fn angle_to_ticks(angle: u8) -> (t: u16)
    ensures
        t == SERVO_MIN + (SERVO_MAX - SERVO_MIN) * angle / 180,
{
    let span = SERVO_MAX - SERVO_MIN;
    proof {
        assert(span == 2800);
        assert((span as int) * (angle as int) <= 714000) by (nonlinear_arith)
            requires
                span == 2800,
                0 <= angle <= 255,
        ;
    }
    SERVO_MIN + ((span as u32 * angle as u32) / 180) as u16
}

} // verus!

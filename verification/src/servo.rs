//! Angle-to-duty mapping for an SG90-class servo and the actuator facade
//! that owns the PWM channel's shadow state.
//!
//! The servo expects a 50 Hz PWM signal whose pulse width encodes the
//! position: 0.5 ms at 0 degrees, 2.5 ms at 180 degrees, linear in between.

use vstd::prelude::*;

verus! {

/// PWM frequency in hertz.
pub const SERVO_FREQ_HZ: u32 = 50;

/// Pulse width at 0 degrees, in microseconds.
pub const MIN_PULSE_US: u32 = 500;

/// Pulse width at 180 degrees, in microseconds.
pub const MAX_PULSE_US: u32 = 2500;

/// PWM period in microseconds.
pub const PERIOD_US: u32 = 1_000_000 / SERVO_FREQ_HZ;

/// Full-scale duty count of a 14-bit timer.
pub const DUTY_RESOLUTION: u32 = 16384;

/// Full-scale duty count of the percentage domain.
pub const PERCENT_RESOLUTION: u32 = 100;

/// Largest angle the servo accepts, in degrees.
pub const MAX_ANGLE: u8 = 180;

/// An angle brought into the servo's range: anything above 180 counts as 180.
pub open spec fn clamp_angle(angle: int) -> int {
    if angle > 180 {
        180
    } else {
        angle
    }
}

/// Pulse width in microseconds for an angle in degrees.
pub open spec fn pulse_width_us(angle: int) -> int {
    500 + (2000 * angle) / 180
}

/// Duty count for an angle on a peripheral whose full scale is `resolution`.
pub open spec fn duty_count(angle: int, resolution: int) -> int {
    (pulse_width_us(angle) * resolution) / 20000
}

/// The pulse width grows with the angle.
pub proof fn lemma_pulse_width_monotonic(a: int, b: int)
    requires
        0 <= a <= b,
    ensures
        500 <= pulse_width_us(a) <= pulse_width_us(b),
{
    assert(0 <= (2000 * a) / 180 <= (2000 * b) / 180) by (nonlinear_arith)
        requires
            0 <= a <= b,
    ;
}

/// For every resolution the duty count never decreases as the angle grows.
pub proof fn lemma_duty_monotonic(a: int, b: int, resolution: int)
    requires
        0 <= a <= b <= 180,
        0 <= resolution,
    ensures
        duty_count(a, resolution) <= duty_count(b, resolution),
{
    lemma_pulse_width_monotonic(a, b);
    let pa = pulse_width_us(a);
    let pb = pulse_width_us(b);
    assert((pa * resolution) / 20000 <= (pb * resolution) / 20000) by (nonlinear_arith)
        requires
            0 <= pa <= pb,
            0 <= resolution,
    ;
}

/// The ends of the range: 0.5 ms at 0 degrees and 2.5 ms at 180 degrees,
/// which a 14-bit timer shows as 409 and 2048 and the percentage domain as
/// 2 and 12.
pub proof fn lemma_duty_endpoints()
    ensures
        pulse_width_us(0) == 500,
        pulse_width_us(180) == 2500,
        duty_count(0, 16384) == 409,
        duty_count(180, 16384) == 2048,
        duty_count(0, 100) == 2,
        duty_count(180, 100) == 12,
{
}

/// Every duty count of an in-range angle lies between the counts of the two
/// ends of the range.
pub proof fn lemma_duty_bounds(angle: int, resolution: int)
    requires
        0 <= angle <= 180,
        0 <= resolution,
    ensures
        duty_count(0, resolution) <= duty_count(angle, resolution) <= duty_count(180, resolution),
        duty_count(180, resolution) == resolution / 8,
{
    lemma_duty_monotonic(0, angle, resolution);
    lemma_duty_monotonic(angle, 180, resolution);
    assert((2500 * resolution) / 20000 == resolution / 8) by (nonlinear_arith);
}

/// Pulse width in microseconds for `angle`, clamped to 180 degrees.
pub fn pulse_us(angle: u8) -> (pulse: u32)
    ensures
        pulse == pulse_width_us(clamp_angle(angle as int)),
        500 <= pulse <= 2500,
{
    let clamped: u32 = if angle > MAX_ANGLE {
        180
    } else {
        angle as u32
    };
    proof {
        lemma_pulse_width_monotonic(0, clamped as int);
        lemma_pulse_width_monotonic(clamped as int, 180);
    }
    MIN_PULSE_US + ((MAX_PULSE_US - MIN_PULSE_US) * clamped) / 180
}

/// Duty count for `angle`, clamped to 180 degrees, on a peripheral whose
/// full scale is `resolution`.
pub fn duty_for_resolution(angle: u8, resolution: u32) -> (duty: u32)
    ensures
        duty == duty_count(clamp_angle(angle as int), resolution as int),
        duty <= resolution / 8,
{
    let pulse: u64 = pulse_us(angle) as u64;
    proof {
        lemma_duty_bounds(clamp_angle(angle as int), resolution as int);
        assert(pulse * resolution <= 2500 * 0xffff_ffff) by (nonlinear_arith)
            requires
                0 <= pulse <= 2500,
                0 <= resolution <= 0xffff_ffff,
        ;
    }
    let scaled: u64 = (pulse * (resolution as u64)) / (PERIOD_US as u64);
    scaled as u32
}

/// The two duty representations a PWM peripheral may take.
///
/// `Raw14Bit` is the duty register of a 14-bit timer: 16384 counts per
/// period, so one count is about 1.2 microseconds and neighbouring angles
/// get different counts. `Percent` is the whole-percent duty of coarser
/// drivers: the servo's range spans only 2 to 12 percent, so it can reach
/// eleven positions and no more. Choose `Percent` only where the peripheral
/// offers nothing finer.
#[derive(Clone, Copy, Debug, PartialEq, Eq, Structural)]
pub enum DutyDomain {
    Raw14Bit,
    Percent,
}

impl DutyDomain {
    /// The duty count that stands for a full period.
    pub open spec fn full_scale(self) -> int {
        match self {
            DutyDomain::Raw14Bit => 16384,
            DutyDomain::Percent => 100,
        }
    }

    /// The duty count that stands for a full period.
    pub fn resolution(&self) -> (r: u32)
        ensures
            r == self.full_scale(),
    {
        match self {
            DutyDomain::Raw14Bit => DUTY_RESOLUTION,
            DutyDomain::Percent => PERCENT_RESOLUTION,
        }
    }
}

/// Settings of the PWM timer that clocks the servo channel.
#[derive(Clone, Copy, Debug, PartialEq, Eq, Structural)]
pub struct ServoTimerConfig {
    /// PWM frequency in hertz.
    pub frequency_hz: u32,
    /// Width of the duty register in bits.
    pub duty_bits: u8,
}

/// The timer settings a servo needs: 50 Hz with a 14-bit duty register.
pub fn init_servo_timer() -> (config: ServoTimerConfig)
    ensures
        config == (ServoTimerConfig { frequency_hz: 50, duty_bits: 14 }),
{
    ServoTimerConfig { frequency_hz: SERVO_FREQ_HZ, duty_bits: 14 }
}

/// The actuator facade: it remembers the duty domain of its PWM channel and
/// the duty that the channel was last told to produce.
#[derive(Clone, Copy, Debug, PartialEq, Eq)]
pub struct ServoController {
    domain: DutyDomain,
    duty: u32,
}

impl ServoController {
    /// The duty domain of the channel.
    pub closed spec fn domain_value(&self) -> DutyDomain {
        self.domain
    }

    /// The duty the channel was last told to produce.
    pub closed spec fn duty_value(&self) -> int {
        self.duty as int
    }

    /// Two controllers with the same domain and the same duty are the same.
    pub proof fn lemma_extensional(a: ServoController, b: ServoController)
        requires
            a.domain_value() == b.domain_value(),
            a.duty_value() == b.duty_value(),
        ensures
            a == b,
    {
    }

    /// A controller for a channel that was configured with a duty of zero.
    pub fn new(domain: DutyDomain) -> (servo: Self)
        ensures
            servo.domain_value() == domain,
            servo.duty_value() == 0,
    {
        ServoController { domain, duty: 0 }
    }

    /// The duty domain of the channel.
    pub fn domain(&self) -> (domain: DutyDomain)
        ensures
            domain == self.domain_value(),
    {
        self.domain
    }

    /// The duty the channel was last told to produce.
    pub fn duty(&self) -> (duty: u32)
        ensures
            duty == self.duty_value(),
    {
        self.duty
    }

    /// Moves the servo to `angle` degrees; anything above 180 counts as 180.
    /// Returns the duty to write to the channel, every time, also where it
    /// equals the duty written before.
    pub fn set_angle(&mut self, angle: u8) -> (duty: u32)
        ensures
            duty == duty_count(clamp_angle(angle as int), old(self).domain_value().full_scale()),
            final(self).duty_value() == duty,
            final(self).domain_value() == old(self).domain_value(),
    {
        let duty = duty_for_resolution(angle, self.domain.resolution());
        self.duty = duty;
        duty
    }
}

} // verus!

use esp32_http_servo::servo::{
    duty_for_resolution, init_servo_timer, pulse_us, DutyDomain, ServoController,
    DUTY_RESOLUTION, MAX_ANGLE, MAX_PULSE_US, MIN_PULSE_US, PERCENT_RESOLUTION, PERIOD_US,
    SERVO_FREQ_HZ,
};

#[test]
fn constants_describe_a_50_hz_servo() {
    assert_eq!(SERVO_FREQ_HZ, 50);
    assert_eq!(PERIOD_US, 20_000);
    assert_eq!(MIN_PULSE_US, 500);
    assert_eq!(MAX_PULSE_US, 2500);
    assert_eq!(DUTY_RESOLUTION, 16384);
    assert_eq!(PERCENT_RESOLUTION, 100);
    assert_eq!(MAX_ANGLE, 180);
}

#[test]
fn pulse_width_is_linear_in_the_angle() {
    assert_eq!(pulse_us(0), 500);
    assert_eq!(pulse_us(1), 511);
    assert_eq!(pulse_us(45), 1000);
    assert_eq!(pulse_us(90), 1500);
    assert_eq!(pulse_us(135), 2000);
    assert_eq!(pulse_us(179), 2488);
    assert_eq!(pulse_us(180), 2500);
}

#[test]
fn pulse_width_follows_the_formula_for_every_angle() {
    for angle in 0u8..=180 {
        assert_eq!(pulse_us(angle), 500 + 2000 * u32::from(angle) / 180);
    }
}

#[test]
fn pulse_width_clamps_above_180() {
    for angle in 181u8..=255 {
        assert_eq!(pulse_us(angle), 2500);
    }
}

#[test]
fn raw_duty_endpoints() {
    assert_eq!(duty_for_resolution(0, 16384), 409);
    assert_eq!(duty_for_resolution(90, 16384), 1228);
    assert_eq!(duty_for_resolution(180, 16384), 2048);
}

#[test]
fn percent_duty_endpoints() {
    assert_eq!(duty_for_resolution(0, 100), 2);
    assert_eq!(duty_for_resolution(90, 100), 7);
    assert_eq!(duty_for_resolution(180, 100), 12);
}

#[test]
fn duty_follows_the_formula_for_every_angle() {
    for angle in 0u8..=180 {
        let pulse = 500 + 2000 * u64::from(angle) / 180;
        assert_eq!(u64::from(duty_for_resolution(angle, 16384)), pulse * 16384 / 20_000);
        assert_eq!(u64::from(duty_for_resolution(angle, 100)), pulse * 100 / 20_000);
    }
}

#[test]
fn duty_is_monotonic_in_both_domains() {
    for resolution in [16384u32, 100, 1, 0, 1 << 20, u32::MAX] {
        let mut last = duty_for_resolution(0, resolution);
        for angle in 1u8..=180 {
            let duty = duty_for_resolution(angle, resolution);
            assert!(duty >= last, "angle {angle} resolution {resolution}");
            last = duty;
        }
    }
}

#[test]
fn duty_never_overflows_at_the_largest_resolution() {
    assert_eq!(duty_for_resolution(180, u32::MAX), u32::MAX / 8);
    assert_eq!(duty_for_resolution(255, u32::MAX), u32::MAX / 8);
    assert_eq!(duty_for_resolution(0, u32::MAX), 107_374_182);
}

#[test]
fn percent_domain_has_eleven_steps() {
    let mut seen: Vec<u32> = Vec::new();
    for angle in 0u8..=180 {
        let duty = duty_for_resolution(angle, 100);
        if !seen.contains(&duty) {
            seen.push(duty);
        }
    }
    assert_eq!(seen, vec![2, 3, 4, 5, 6, 7, 8, 9, 10, 11, 12]);
}

#[test]
fn domains_report_their_full_scale() {
    assert_eq!(DutyDomain::Raw14Bit.resolution(), 16384);
    assert_eq!(DutyDomain::Percent.resolution(), 100);
}

#[test]
fn timer_is_50_hz_with_14_bits() {
    let config = init_servo_timer();
    assert_eq!(config.frequency_hz, 50);
    assert_eq!(config.duty_bits, 14);
    assert_eq!(1u32 << config.duty_bits, DUTY_RESOLUTION);
}

#[test]
fn new_controller_starts_at_zero_duty() {
    let servo = ServoController::new(DutyDomain::Raw14Bit);
    assert_eq!(servo.duty(), 0);
    assert_eq!(servo.domain(), DutyDomain::Raw14Bit);
}

#[test]
fn set_angle_returns_and_remembers_the_duty() {
    let mut servo = ServoController::new(DutyDomain::Raw14Bit);
    assert_eq!(servo.set_angle(90), 1228);
    assert_eq!(servo.duty(), 1228);
    assert_eq!(servo.set_angle(0), 409);
    assert_eq!(servo.duty(), 409);
    assert_eq!(servo.domain(), DutyDomain::Raw14Bit);
}

#[test]
fn set_angle_clamps_to_180() {
    let mut servo = ServoController::new(DutyDomain::Raw14Bit);
    assert_eq!(servo.set_angle(200), 2048);
    assert_eq!(servo.set_angle(255), 2048);
    assert_eq!(servo.set_angle(180), 2048);
}

#[test]
fn set_angle_in_percent_domain() {
    let mut servo = ServoController::new(DutyDomain::Percent);
    assert_eq!(servo.set_angle(0), 2);
    assert_eq!(servo.set_angle(180), 12);
    assert_eq!(servo.duty(), 12);
}

#[test]
fn same_angle_twice_gives_the_same_duty_twice() {
    let mut servo = ServoController::new(DutyDomain::Raw14Bit);
    let first = servo.set_angle(45);
    let second = servo.set_angle(45);
    assert_eq!(first, 819);
    assert_eq!(second, first);
}

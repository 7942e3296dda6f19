use esp32_http_servo::command::{AngleCommand, Channel, CommandBus, PendingCommandSlot};
use esp32_http_servo::servo::{DutyDomain, ServoController};

fn angle(degrees: u8) -> AngleCommand {
    AngleCommand::new(degrees).unwrap()
}

#[test]
fn angle_command_accepts_0_to_180() {
    for degrees in 0u8..=180 {
        assert_eq!(AngleCommand::new(degrees).map(|c| c.degrees()), Some(degrees));
    }
}

#[test]
fn angle_command_rejects_above_180() {
    for degrees in 181u8..=255 {
        assert_eq!(AngleCommand::new(degrees), None);
    }
}

#[test]
fn new_slot_is_empty() {
    let mut slot = PendingCommandSlot::new();
    assert!(!slot.is_pending());
    assert_eq!(slot.take(), None);
}

#[test]
fn slot_hands_out_what_was_published_once() {
    let mut slot = PendingCommandSlot::new();
    slot.publish(angle(90));
    assert!(slot.is_pending());
    assert_eq!(slot.take(), Some(angle(90)));
    assert!(!slot.is_pending());
    assert_eq!(slot.take(), None);
}

#[test]
fn slot_keeps_only_the_latest_command() {
    let mut slot = PendingCommandSlot::new();
    slot.publish(angle(10));
    slot.publish(angle(20));
    slot.publish(angle(30));
    assert_eq!(slot.take(), Some(angle(30)));
    assert_eq!(slot.take(), None);
}

#[test]
fn new_bus_has_nothing_pending() {
    let mut bus = CommandBus::new();
    assert!(!bus.is_pending(Channel::Http));
    assert!(!bus.is_pending(Channel::Serial));
    assert_eq!(bus.take(Channel::Http), None);
    assert_eq!(bus.take(Channel::Serial), None);
}

#[test]
fn channels_do_not_disturb_each_other() {
    let mut bus = CommandBus::new();
    bus.publish(Channel::Http, angle(10));
    assert!(bus.is_pending(Channel::Http));
    assert!(!bus.is_pending(Channel::Serial));
    bus.publish(Channel::Serial, angle(20));
    assert_eq!(bus.take(Channel::Http), Some(angle(10)));
    assert!(bus.is_pending(Channel::Serial));
    assert_eq!(bus.take(Channel::Serial), Some(angle(20)));
}

#[test]
fn service_writes_the_duty_of_the_pending_command() {
    let mut bus = CommandBus::new();
    let mut servo = ServoController::new(DutyDomain::Raw14Bit);
    bus.publish(Channel::Http, angle(90));
    assert_eq!(bus.service(Channel::Http, &mut servo), Some(1228));
    assert_eq!(servo.duty(), 1228);
    assert!(!bus.is_pending(Channel::Http));
}

#[test]
fn service_without_a_command_writes_nothing() {
    let mut bus = CommandBus::new();
    let mut servo = ServoController::new(DutyDomain::Raw14Bit);
    servo.set_angle(45);
    assert_eq!(bus.service(Channel::Http, &mut servo), None);
    assert_eq!(bus.service(Channel::Serial, &mut servo), None);
    assert_eq!(servo.duty(), 819);
}

#[test]
fn both_channels_are_served_in_wake_order_http_first() {
    let mut bus = CommandBus::new();
    let mut servo = ServoController::new(DutyDomain::Raw14Bit);
    bus.publish(Channel::Http, angle(0));
    bus.publish(Channel::Serial, angle(180));
    assert_eq!(bus.service(Channel::Http, &mut servo), Some(409));
    assert_eq!(bus.service(Channel::Serial, &mut servo), Some(2048));
    assert_eq!(servo.duty(), 2048);
    assert!(!bus.is_pending(Channel::Http));
    assert!(!bus.is_pending(Channel::Serial));
}

#[test]
fn both_channels_are_served_in_wake_order_serial_first() {
    let mut bus = CommandBus::new();
    let mut servo = ServoController::new(DutyDomain::Raw14Bit);
    bus.publish(Channel::Http, angle(0));
    bus.publish(Channel::Serial, angle(180));
    assert_eq!(bus.service(Channel::Serial, &mut servo), Some(2048));
    assert_eq!(bus.service(Channel::Http, &mut servo), Some(409));
    assert_eq!(servo.duty(), 409);
    assert!(!bus.is_pending(Channel::Http));
    assert!(!bus.is_pending(Channel::Serial));
}

#[test]
fn repeated_command_is_written_twice() {
    let mut bus = CommandBus::new();
    let mut servo = ServoController::new(DutyDomain::Raw14Bit);
    bus.publish(Channel::Serial, angle(45));
    let first = bus.service(Channel::Serial, &mut servo);
    bus.publish(Channel::Serial, angle(45));
    let second = bus.service(Channel::Serial, &mut servo);
    assert_eq!(first, Some(819));
    assert_eq!(second, Some(819));
}

#[test]
fn unread_command_is_replaced_by_a_newer_one() {
    let mut bus = CommandBus::new();
    let mut servo = ServoController::new(DutyDomain::Percent);
    bus.publish(Channel::Http, angle(0));
    bus.publish(Channel::Http, angle(180));
    assert_eq!(bus.service(Channel::Http, &mut servo), Some(12));
    assert_eq!(bus.service(Channel::Http, &mut servo), None);
}

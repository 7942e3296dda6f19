//! The command bus: validated angle commands, the single-entry slot that
//! each ingestion channel publishes to, and the control step that turns a
//! pending command into one actuator write.

use crate::servo::{duty_count, ServoController};
use vstd::prelude::*;

verus! {

/// A commanded servo position in degrees, always within 0 to 180.
#[derive(Clone, Copy, Debug, PartialEq, Eq, Structural)]
pub struct AngleCommand {
    degrees: u8,
}

impl View for AngleCommand {
    type V = int;

    closed spec fn view(&self) -> int {
        self.degrees as int
    }
}

impl AngleCommand {
    #[verifier::type_invariant]
    spec fn in_range(self) -> bool {
        self.degrees <= 180
    }

    /// Two commands for the same angle are the same command.
    pub proof fn lemma_extensional(a: AngleCommand, b: AngleCommand)
        requires
            a@ == b@,
        ensures
            a == b,
    {
    }

    /// The command for `degrees`, or nothing where `degrees` is above 180.
    pub fn new(degrees: u8) -> (r: Option<AngleCommand>)
        ensures
            degrees <= 180 ==> (r matches Some(c) && c@ == degrees),
            degrees > 180 ==> r is None,
    {
        if degrees <= 180 {
            Some(AngleCommand { degrees })
        } else {
            None
        }
    }

    /// The commanded angle in degrees.
    pub fn degrees(&self) -> (d: u8)
        ensures
            d == self@,
            d <= 180,
    {
        proof {
            use_type_invariant(self);
        }
        self.degrees
    }
}

/// The angle of an optional command.
pub open spec fn angle_of(command: Option<AngleCommand>) -> Option<int> {
    match command {
        Some(c) => Some(c@),
        None => None,
    }
}

/// The two ingestion channels.
#[derive(Clone, Copy, Debug, PartialEq, Eq, Structural)]
pub enum Channel {
    Http,
    Serial,
}

impl Channel {
    /// The channel that `self` is not.
    pub open spec fn other(self) -> Channel {
        match self {
            Channel::Http => Channel::Serial,
            Channel::Serial => Channel::Http,
        }
    }
}

/// A single-entry mailbox: a newer command overwrites an unread older one.
#[derive(Clone, Copy, Debug, PartialEq, Eq)]
pub struct PendingCommandSlot {
    pending: Option<AngleCommand>,
}

impl View for PendingCommandSlot {
    type V = Option<AngleCommand>;

    closed spec fn view(&self) -> Option<AngleCommand> {
        self.pending
    }
}

impl PendingCommandSlot {
    /// An empty slot.
    pub fn new() -> (slot: Self)
        ensures
            slot@ is None,
    {
        PendingCommandSlot { pending: None }
    }

    /// Puts `command` into the slot, in place of what was there.
    pub fn publish(&mut self, command: AngleCommand)
        ensures
            final(self)@ == Some(command),
    {
        self.pending = Some(command);
    }

    /// Empties the slot and returns what it held.
    pub fn take(&mut self) -> (command: Option<AngleCommand>)
        ensures
            command == old(self)@,
            final(self)@ is None,
    {
        let command = self.pending;
        self.pending = None;
        command
    }

    /// Whether a command waits in the slot.
    pub fn is_pending(&self) -> (b: bool)
        ensures
            b == self@ is Some,
    {
        self.pending.is_some()
    }
}

/// What the two slots of a bus hold.
pub struct BusState {
    pub http: Option<AngleCommand>,
    pub serial: Option<AngleCommand>,
}

impl BusState {
    /// A bus with nothing pending.
    pub open spec fn empty() -> BusState {
        BusState { http: None, serial: None }
    }

    /// What waits on `channel`.
    pub open spec fn pending(self, channel: Channel) -> Option<AngleCommand> {
        match channel {
            Channel::Http => self.http,
            Channel::Serial => self.serial,
        }
    }

    /// The bus once `command` was published on `channel`.
    pub open spec fn publish(self, channel: Channel, command: AngleCommand) -> BusState {
        match channel {
            Channel::Http => BusState { http: Some(command), ..self },
            Channel::Serial => BusState { serial: Some(command), ..self },
        }
    }

    /// The bus once `channel` was drained.
    pub open spec fn drain(self, channel: Channel) -> BusState {
        match channel {
            Channel::Http => BusState { http: None, ..self },
            Channel::Serial => BusState { serial: None, ..self },
        }
    }
}

/// The duty that a command asks for on a channel with the given full scale.
pub open spec fn command_duty(command: AngleCommand, full_scale: int) -> int {
    duty_count(command@, full_scale)
}

impl BusState {
    /// The control step for a wake-up on `channel`: the bus afterwards, and
    /// the duty written to the actuator, if any.
    pub open spec fn serve(self, channel: Channel, full_scale: int) -> (BusState, Option<int>) {
        match self.pending(channel) {
            Some(command) => (self.drain(channel), Some(command_duty(command, full_scale))),
            None => (self, None),
        }
    }
}

/// One slot per ingestion channel, and the control step that serves them.
#[derive(Clone, Copy, Debug, PartialEq, Eq)]
pub struct CommandBus {
    http: PendingCommandSlot,
    serial: PendingCommandSlot,
}

impl View for CommandBus {
    type V = BusState;

    closed spec fn view(&self) -> BusState {
        BusState { http: self.http@, serial: self.serial@ }
    }
}

impl CommandBus {
    /// A bus with nothing pending.
    pub fn new() -> (bus: Self)
        ensures
            bus@ == BusState::empty(),
    {
        CommandBus { http: PendingCommandSlot::new(), serial: PendingCommandSlot::new() }
    }

    /// Publishes `command` on `channel`; the other channel is untouched.
    pub fn publish(&mut self, channel: Channel, command: AngleCommand)
        ensures
            final(self)@ == old(self)@.publish(channel, command),
    {
        match channel {
            Channel::Http => self.http.publish(command),
            Channel::Serial => self.serial.publish(command),
        }
    }

    /// Whether a command waits on `channel`.
    pub fn is_pending(&self, channel: Channel) -> (b: bool)
        ensures
            b == self@.pending(channel) is Some,
    {
        match channel {
            Channel::Http => self.http.is_pending(),
            Channel::Serial => self.serial.is_pending(),
        }
    }

    /// Drains `channel` and returns what waited there.
    pub fn take(&mut self, channel: Channel) -> (command: Option<AngleCommand>)
        ensures
            command == old(self)@.pending(channel),
            final(self)@ == old(self)@.drain(channel),
    {
        match channel {
            Channel::Http => self.http.take(),
            Channel::Serial => self.serial.take(),
        }
    }

    /// The control step for a wake-up on `channel`: drains the channel and,
    /// where a command waited, moves the servo to it. Returns the duty to
    /// write to the PWM channel: one write for every command served, none
    /// where nothing waited.
    pub fn service(&mut self, channel: Channel, servo: &mut ServoController) -> (write: Option<u32>)
        ensures
            final(self)@ == old(self)@.serve(channel, old(servo).domain_value().full_scale()).0,
            write_of(write) == old(self)@.serve(channel, old(servo).domain_value().full_scale()).1,
            final(servo).domain_value() == old(servo).domain_value(),
            final(servo).duty_value() == match write {
                Some(duty) => duty as int,
                None => old(servo).duty_value(),
            },
    {
        match self.take(channel) {
            Some(command) => {
                let duty = servo.set_angle(command.degrees());
                Some(duty)
            },
            None => {
                assert(self@ =~= old(self)@);
                None
            },
        }
    }
}

/// The duty of an optional actuator write.
pub open spec fn write_of(write: Option<u32>) -> Option<int> {
    match write {
        Some(duty) => Some(duty as int),
        None => None,
    }
}

/// Commands published on both channels before either is served are both
/// served, in the order in which the control step is woken, whichever
/// channel that is: each wake-up writes the duty of its own channel's
/// command, and after the two nothing is left.
pub proof fn lemma_both_channels_served(
    bus: BusState,
    first: Channel,
    x: AngleCommand,
    y: AngleCommand,
    woken: Channel,
    full_scale: int,
)
    ensures
        ({
            let loaded = bus.publish(first, x).publish(first.other(), y);
            let wanted = if woken == first {
                x
            } else {
                y
            };
            let left = if woken == first {
                y
            } else {
                x
            };
            let one = loaded.serve(woken, full_scale);
            let two = one.0.serve(woken.other(), full_scale);
            &&& one.1 == Some(command_duty(wanted, full_scale))
            &&& two.1 == Some(command_duty(left, full_scale))
            &&& two.0 == BusState::empty()
        }),
{
}

/// Within one channel a newer command replaces an unread older one: the
/// next wake-up writes the duty of the newer command, the one after it
/// writes nothing, and the other channel is untouched.
pub proof fn lemma_latest_command_wins(
    bus: BusState,
    channel: Channel,
    older: AngleCommand,
    newer: AngleCommand,
    full_scale: int,
)
    ensures
        ({
            let loaded = bus.publish(channel, older).publish(channel, newer);
            let one = loaded.serve(channel, full_scale);
            let two = one.0.serve(channel, full_scale);
            &&& one.1 == Some(command_duty(newer, full_scale))
            &&& two.1 is None
            &&& two.0.pending(channel.other()) == bus.pending(channel.other())
        }),
{
}

/// The same command sent twice in a row is served twice and writes the same
/// duty both times: nothing holds a repeated command back.
pub proof fn lemma_repeated_command_served_twice(
    bus: BusState,
    channel: Channel,
    command: AngleCommand,
    full_scale: int,
)
    ensures
        ({
            let one = bus.publish(channel, command).serve(channel, full_scale);
            let two = one.0.publish(channel, command).serve(channel, full_scale);
            &&& one.1 == Some(command_duty(command, full_scale))
            &&& two.1 == one.1
            &&& two.0 == one.0
        }),
{
}

} // verus!

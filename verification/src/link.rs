//! The wireless link state machine and the boot sequencer.
//!
//! Both are written as transition functions from a state and an event to
//! the next state and the action to perform. The code that owns the radio
//! performs the action, waits for its outcome and hands the outcome back
//! as the next event.

use vstd::prelude::*;

verus! {

/// Delay before a lost or failed association is tried again, in
/// milliseconds.
pub const LINK_COOLDOWN_MS: u64 = 5000;

/// Interval between two polls of the boot sequencer, in milliseconds.
pub const BRING_UP_POLL_MS: u64 = 500;

/// Where the device stands on its way to a usable network link.
#[derive(Clone, Copy, Debug, PartialEq, Eq, Structural)]
pub enum LinkState {
    Disconnected,
    Starting,
    Connecting,
    Connected,
    AwaitingAddress,
    Ready,
}

/// What the radio reports about itself when asked.
#[derive(Clone, Copy, Debug, PartialEq, Eq, Structural)]
pub struct RadioStatus {
    /// The radio has been started.
    pub started: bool,
    /// The station is associated with the access point.
    pub associated: bool,
}

/// What the link machine is told.
#[derive(Clone, Copy, Debug, PartialEq, Eq, Structural)]
pub enum LinkEvent {
    /// The device has booted.
    Boot(RadioStatus),
    /// The radio has finished starting, with the credentials applied.
    RadioStarted,
    /// The association attempt succeeded.
    Associated,
    /// The association attempt failed.
    AssociationFailed,
    /// The access point dropped the station.
    Disassociated,
    /// The cooldown has run out; `started` says whether the radio is
    /// started.
    CooldownElapsed { started: bool },
}

/// What the link machine asks for.
#[derive(Clone, Copy, Debug, PartialEq, Eq, Structural)]
pub enum LinkAction {
    /// Apply the credentials and start the radio.
    StartRadio,
    /// Try to associate with the access point.
    Associate,
    /// Wait until the access point drops the station.
    AwaitDisassociation,
    /// Wait for the given number of milliseconds.
    Cooldown { millis: u64 },
}

impl LinkState {
    /// Whether the station is associated in this state.
    pub open spec fn associated(self) -> bool {
        self == LinkState::Connected || self == LinkState::AwaitingAddress || self
            == LinkState::Ready
    }

    /// The action whose outcome the machine waits for in this state.
    pub open spec fn awaited(self) -> LinkAction {
        match self {
            LinkState::Disconnected => LinkAction::Cooldown { millis: 5000 },
            LinkState::Starting => LinkAction::StartRadio,
            LinkState::Connecting => LinkAction::Associate,
            _ => LinkAction::AwaitDisassociation,
        }
    }
}

/// The way from `Disconnected` to the next association attempt: through
/// `Starting` where the radio is not started, else straight to
/// `Connecting`.
pub open spec fn reattempt(started: bool) -> (LinkState, LinkAction) {
    if !started {
        (LinkState::Starting, LinkAction::StartRadio)
    } else {
        (LinkState::Connecting, LinkAction::Associate)
    }
}

/// Where to go at boot: wait for the next drop where the station is
/// associated already, else towards the first association attempt.
pub open spec fn resume(status: RadioStatus) -> (LinkState, LinkAction) {
    if status.associated {
        (LinkState::Connected, LinkAction::AwaitDisassociation)
    } else {
        reattempt(status.started)
    }
}

/// The transition function of the link machine. A failed association and
/// a dropped station both lead to `Disconnected` and a cooldown of five
/// seconds, without bound on the number of attempts. When the cooldown has
/// run out the machine heads for the next attempt, whatever else the radio
/// reports: only whether it is started matters. An event that the state
/// does not expect changes nothing and asks again for the action that the
/// state waits for.
pub open spec fn link_transition(state: LinkState, event: LinkEvent) -> (LinkState, LinkAction) {
    match (state, event) {
        (LinkState::Disconnected, LinkEvent::Boot(status)) => resume(status),
        (LinkState::Disconnected, LinkEvent::CooldownElapsed { started }) => reattempt(started),
        (LinkState::Starting, LinkEvent::RadioStarted) => (
            LinkState::Connecting,
            LinkAction::Associate,
        ),
        (LinkState::Connecting, LinkEvent::Associated) => (
            LinkState::Connected,
            LinkAction::AwaitDisassociation,
        ),
        (LinkState::Connecting, LinkEvent::AssociationFailed) => (
            LinkState::Disconnected,
            LinkAction::Cooldown { millis: 5000 },
        ),
        (LinkState::Connected, LinkEvent::Disassociated) => (
            LinkState::Disconnected,
            LinkAction::Cooldown { millis: 5000 },
        ),
        (LinkState::AwaitingAddress, LinkEvent::Disassociated) => (
            LinkState::Disconnected,
            LinkAction::Cooldown { millis: 5000 },
        ),
        (LinkState::Ready, LinkEvent::Disassociated) => (
            LinkState::Disconnected,
            LinkAction::Cooldown { millis: 5000 },
        ),
        _ => (state, state.awaited()),
    }
}

/// The link state machine.
#[derive(Clone, Copy, Debug, PartialEq, Eq)]
pub struct LinkMachine {
    state: LinkState,
}

impl View for LinkMachine {
    type V = LinkState;

    closed spec fn view(&self) -> LinkState {
        self.state
    }
}

impl LinkMachine {
    /// The machine at boot: `Disconnected`.
    pub fn new() -> (machine: Self)
        ensures
            machine@ == LinkState::Disconnected,
    {
        LinkMachine { state: LinkState::Disconnected }
    }

    /// The current state.
    pub fn state(&self) -> (state: LinkState)
        ensures
            state == self@,
    {
        self.state
    }

    /// Takes `event` and returns the action to perform next.
    pub fn step(&mut self, event: LinkEvent) -> (action: LinkAction)
        ensures
            (final(self)@, action) == link_transition(old(self)@, event),
    {
        let (next, action) = match (self.state, event) {
            (LinkState::Disconnected, LinkEvent::Boot(status)) => resume_from(status),
            (LinkState::Disconnected, LinkEvent::CooldownElapsed { started }) => reattempt_from(
                started,
            ),
            (LinkState::Starting, LinkEvent::RadioStarted) => (
                LinkState::Connecting,
                LinkAction::Associate,
            ),
            (LinkState::Connecting, LinkEvent::Associated) => (
                LinkState::Connected,
                LinkAction::AwaitDisassociation,
            ),
            (LinkState::Connecting, LinkEvent::AssociationFailed) => (
                LinkState::Disconnected,
                LinkAction::Cooldown { millis: LINK_COOLDOWN_MS },
            ),
            (LinkState::Connected, LinkEvent::Disassociated)
            | (LinkState::AwaitingAddress, LinkEvent::Disassociated)
            | (LinkState::Ready, LinkEvent::Disassociated) => (
                LinkState::Disconnected,
                LinkAction::Cooldown { millis: LINK_COOLDOWN_MS },
            ),
            (state, _) => (state, awaited_action(state)),
        };
        self.state = next;
        action
    }
}

/// The way from `Disconnected` to the next association attempt.
pub fn reattempt_from(started: bool) -> (r: (LinkState, LinkAction))
    ensures
        r == reattempt(started),
{
    if !started {
        (LinkState::Starting, LinkAction::StartRadio)
    } else {
        (LinkState::Connecting, LinkAction::Associate)
    }
}

/// Where to go at boot, given what the radio reports.
pub fn resume_from(status: RadioStatus) -> (r: (LinkState, LinkAction))
    ensures
        r == resume(status),
{
    if status.associated {
        (LinkState::Connected, LinkAction::AwaitDisassociation)
    } else {
        reattempt_from(status.started)
    }
}

/// The action whose outcome the machine waits for in `state`.
pub fn awaited_action(state: LinkState) -> (action: LinkAction)
    ensures
        action == state.awaited(),
{
    match state {
        LinkState::Disconnected => LinkAction::Cooldown { millis: LINK_COOLDOWN_MS },
        LinkState::Starting => LinkAction::StartRadio,
        LinkState::Connecting => LinkAction::Associate,
        _ => LinkAction::AwaitDisassociation,
    }
}

/// What the machine asks for, one request after the other, from the end
/// of a cooldown up to the next association attempt: the start of the
/// radio first where it is not started, then the attempt. Every state on
/// the way is given with the action that the machine asks for in it.
pub open spec fn after_cooldown(started: bool) -> Seq<(LinkState, LinkAction)> {
    let woken = link_transition(LinkState::Disconnected, LinkEvent::CooldownElapsed { started });
    if woken.1 == LinkAction::StartRadio {
        seq![woken, link_transition(woken.0, LinkEvent::RadioStarted)]
    } else {
        seq![woken]
    }
}

/// A drop of the station while it is associated leads to `Disconnected`
/// and to a cooldown of five seconds, and to nothing else before the
/// cooldown has run out. Then the radio is started, but only where it is
/// not started, and after that the machine is `Connecting` and asks for
/// an association attempt. This holds whatever the radio reports when the
/// cooldown ends.
pub proof fn lemma_reconnect_after_drop(state: LinkState, started: bool)
    requires
        state.associated(),
    ensures
        link_transition(state, LinkEvent::Disassociated) == (
            LinkState::Disconnected,
            LinkAction::Cooldown { millis: 5000 },
        ),
        after_cooldown(started) == if started {
            seq![(LinkState::Connecting, LinkAction::Associate)]
        } else {
            seq![
                (LinkState::Starting, LinkAction::StartRadio),
                (LinkState::Connecting, LinkAction::Associate),
            ]
        },
{
}

/// No failure ends the machine, and the cooldown is fixed: a failed
/// association attempt leads to `Disconnected` and to one cooldown of
/// five seconds, however many attempts have failed before, and when that
/// cooldown has run out the machine asks for no further cooldown but
/// heads for the next attempt, which is the last thing it asks for on the
/// way.
pub proof fn lemma_retry_is_unbounded(started: bool)
    ensures
        link_transition(LinkState::Connecting, LinkEvent::AssociationFailed) == (
            LinkState::Disconnected,
            LinkAction::Cooldown { millis: 5000 },
        ),
        after_cooldown(started).last() == (LinkState::Connecting, LinkAction::Associate),
        forall|i: int|
            0 <= i < after_cooldown(started).len() ==> !(#[trigger] after_cooldown(started)[i].1
                is Cooldown),
{
}

/// Every cooldown that the machine asks for is five seconds long, whatever
/// the state and the event.
pub proof fn lemma_cooldown_is_fixed(state: LinkState, event: LinkEvent)
    ensures
        link_transition(state, event).1 matches LinkAction::Cooldown { millis } ==> millis
            == 5000,
{
}

/// The link machine itself never enters `AwaitingAddress` or `Ready`, and
/// it asks for a cooldown exactly when it enters or stays in
/// `Disconnected`.
pub proof fn lemma_link_transition_shape(state: LinkState, event: LinkEvent)
    ensures
        ({
            let next = link_transition(state, event);
            &&& (next.0 == LinkState::AwaitingAddress || next.0 == LinkState::Ready) ==> next.0
                == state
            &&& next.1 == (LinkAction::Cooldown { millis: 5000 }) <==> next.0
                == LinkState::Disconnected
            &&& next.1 == next.0.awaited()
        }),
{
}

/// What the boot sequencer asks for.
#[derive(Clone, Copy, Debug, PartialEq, Eq, Structural)]
pub enum BringUpAction {
    /// Poll again after the given number of milliseconds.
    Wait { millis: u64 },
    /// Start the command services: the link is up and an address is held.
    StartServices,
    /// Nothing: the services were started before.
    Idle,
}

/// The transition function of the boot sequencer, over its own snapshot of
/// the link state. Until the link is seen up it polls the link; from then
/// on it polls for an address and looks at the link no more; once the
/// address is there it starts the services, once.
pub open spec fn bring_up_transition(state: LinkState, link_up: bool, has_address: bool) -> (
    LinkState,
    BringUpAction,
) {
    match state {
        LinkState::Ready => (LinkState::Ready, BringUpAction::Idle),
        LinkState::AwaitingAddress => if has_address {
            (LinkState::Ready, BringUpAction::StartServices)
        } else {
            (LinkState::AwaitingAddress, BringUpAction::Wait { millis: 500 })
        },
        _ => if !link_up {
            (state, BringUpAction::Wait { millis: 500 })
        } else if has_address {
            (LinkState::Ready, BringUpAction::StartServices)
        } else {
            (LinkState::AwaitingAddress, BringUpAction::Wait { millis: 500 })
        },
    }
}

/// The boot sequencer: link first, then address, then services.
#[derive(Clone, Copy, Debug, PartialEq, Eq)]
pub struct BringUpSequencer {
    seen: LinkState,
}

impl View for BringUpSequencer {
    type V = LinkState;

    closed spec fn view(&self) -> LinkState {
        self.seen
    }
}

impl BringUpSequencer {
    /// The sequencer at boot: nothing seen yet.
    pub fn new() -> (sequencer: Self)
        ensures
            sequencer@ == LinkState::Disconnected,
    {
        BringUpSequencer { seen: LinkState::Disconnected }
    }

    /// The link state as the sequencer has seen it.
    pub fn state(&self) -> (state: LinkState)
        ensures
            state == self@,
    {
        self.seen
    }

    /// Takes one poll of the network stack and returns what to do next.
    pub fn poll(&mut self, link_up: bool, has_address: bool) -> (action: BringUpAction)
        ensures
            (final(self)@, action) == bring_up_transition(old(self)@, link_up, has_address),
    {
        let (next, action) = match self.seen {
            LinkState::Ready => (LinkState::Ready, BringUpAction::Idle),
            LinkState::AwaitingAddress => if has_address {
                (LinkState::Ready, BringUpAction::StartServices)
            } else {
                (LinkState::AwaitingAddress, BringUpAction::Wait { millis: BRING_UP_POLL_MS })
            },
            state => if !link_up {
                (state, BringUpAction::Wait { millis: BRING_UP_POLL_MS })
            } else if has_address {
                (LinkState::Ready, BringUpAction::StartServices)
            } else {
                (LinkState::AwaitingAddress, BringUpAction::Wait { millis: BRING_UP_POLL_MS })
            },
        };
        self.seen = next;
        action
    }
}

/// The services start only on a poll that finds an address, only after
/// the link was seen up, and the sequencer is `Ready` exactly from then on;
/// every poll before that asks to wait half a second, and every poll after
/// it asks for nothing.
pub proof fn lemma_bring_up_order(state: LinkState, link_up: bool, has_address: bool)
    ensures
        ({
            let next = bring_up_transition(state, link_up, has_address);
            &&& next.1 == BringUpAction::StartServices <==> state != LinkState::Ready && next.0
                == LinkState::Ready
            &&& next.1 == BringUpAction::StartServices ==> has_address && (link_up || state
                == LinkState::AwaitingAddress)
            &&& next.1 == BringUpAction::Idle <==> state == LinkState::Ready
            &&& next.1 != BringUpAction::StartServices && next.1 != BringUpAction::Idle ==> next.1
                == (BringUpAction::Wait { millis: 500 })
            &&& state == LinkState::Ready ==> next.0 == LinkState::Ready
            &&& state == LinkState::AwaitingAddress ==> next.0 != LinkState::Disconnected
        }),
{
}

} // verus!

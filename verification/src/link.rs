//! The life of a connection to the panel. Whoever owns the device runs a
//! loop: it does what the phase calls for (open the device, read from it,
//! or leave), reports what came of it as a signal, publishes the events
//! of the reaction and waits for the time the reaction names.

use vstd::prelude::*;
use vstd::string::StringExecFns;
use crate::bridge::{published, BridgeEvent, BridgeEventView};
use crate::clock::Stamp;
use crate::ledger::{after_request, suppressed, DebounceLedger};
use crate::tracker::{CallTracker, CallTrackerView};

verus! {

/// Wait after a failed attempt to open the device.
pub const OPEN_RETRY_MS: u64 = 1000;

/// Wait after the device was lost, before it is opened again.
pub const REOPEN_DELAY_MS: u64 = 800;

/// Longest wait for bytes in one read, so that a request to stop is seen
/// soon.
pub const READ_TIMEOUT_MS: u64 = 200;

/// Time within which a second report of a failure to open the same device
/// is held back.
pub const OPEN_ERROR_WINDOW_MS: u128 = 3000;

/// Where a connection stands.
#[derive(Clone, Copy, Debug, PartialEq, Eq, Structural)]
pub enum LinkPhase {
    /// The device is closed and is to be opened.
    Disconnected,
    /// An attempt to open the device is under way.
    Opening,
    /// The device is open and is read from.
    Connected,
    /// The connection was told to stop. Nothing follows.
    Stopped,
}

/// What happened to the connection.
#[derive(Clone, Debug, PartialEq, Eq)]
pub enum LinkSignal {
    /// An attempt to open the device begins.
    OpenAttempt,
    /// The device was opened.
    OpenSucceeded,
    /// The device could not be opened, for the reason given.
    OpenFailed { message: String },
    /// A read ended without bytes because its time ran out.
    ReadTimedOut,
    /// A read failed for another reason.
    ReadFailed,
    /// The owner asked the connection to stop.
    StopRequested,
}

/// The mathematical content of a `LinkSignal`.
pub enum LinkSignalView {
    OpenAttempt,
    OpenSucceeded,
    OpenFailed { message: Seq<char> },
    ReadTimedOut,
    ReadFailed,
    StopRequested,
}

impl View for LinkSignal {
    type V = LinkSignalView;

    open spec fn view(&self) -> LinkSignalView {
        match self {
            LinkSignal::OpenAttempt => LinkSignalView::OpenAttempt,
            LinkSignal::OpenSucceeded => LinkSignalView::OpenSucceeded,
            LinkSignal::OpenFailed { message } => LinkSignalView::OpenFailed { message: message@ },
            LinkSignal::ReadTimedOut => LinkSignalView::ReadTimedOut,
            LinkSignal::ReadFailed => LinkSignalView::ReadFailed,
            LinkSignal::StopRequested => LinkSignalView::StopRequested,
        }
    }
}

/// The state of one connection: its phase and the call tracker that
/// lives as long as the device stays open.
#[derive(Clone, Debug, PartialEq, Eq)]
pub struct SerialState {
    pub phase: LinkPhase,
    pub tracker: CallTracker,
}

/// The mathematical content of a `SerialState`.
pub struct SerialStateView {
    pub phase: LinkPhase,
    pub tracker: CallTrackerView,
}

impl View for SerialState {
    type V = SerialStateView;

    open spec fn view(&self) -> SerialStateView {
        SerialStateView { phase: self.phase, tracker: self.tracker@ }
    }
}

/// What the owner of the device does next.
#[derive(Clone, Copy, Debug, PartialEq, Eq, Structural)]
pub enum LinkAction {
    /// Open the device.
    Open,
    /// Report how the attempt to open the device ended.
    AwaitOpen,
    /// Read from the device.
    Read,
    /// Release the device and leave.
    Leave,
}

/// What a signal calls for: events to publish and a time to wait.
#[derive(Clone, Debug, PartialEq, Eq)]
pub struct LinkReaction {
    pub events: Vec<BridgeEvent>,
    pub backoff_ms: u64,
}

/// The phase after a signal. A stopped connection stays stopped, a
/// request to stop ends any other phase, and a signal that does not
/// belong to the phase changes nothing.
pub open spec fn next_phase(phase: LinkPhase, signal: LinkSignalView) -> LinkPhase {
    match (phase, signal) {
        (LinkPhase::Stopped, _) => LinkPhase::Stopped,
        (_, LinkSignalView::StopRequested) => LinkPhase::Stopped,
        (LinkPhase::Disconnected, LinkSignalView::OpenAttempt) => LinkPhase::Opening,
        (LinkPhase::Opening, LinkSignalView::OpenSucceeded) => LinkPhase::Connected,
        (LinkPhase::Opening, LinkSignalView::OpenFailed { .. }) => LinkPhase::Disconnected,
        (LinkPhase::Connected, LinkSignalView::ReadTimedOut) => LinkPhase::Connected,
        (LinkPhase::Connected, LinkSignalView::ReadFailed) => LinkPhase::Disconnected,
        _ => phase,
    }
}

/// The tracker after a signal: it starts afresh when the device is
/// opened and is left alone otherwise.
pub open spec fn next_tracker(state: SerialStateView, signal: LinkSignalView) -> CallTrackerView {
    match (state.phase, signal) {
        (LinkPhase::Opening, LinkSignalView::OpenSucceeded) => CallTrackerView::initial(),
        _ => state.tracker,
    }
}

/// The time to wait after a signal: a second after a failure to open,
/// eight tenths of a second after the device was lost, else none.
pub open spec fn backoff_after(phase: LinkPhase, signal: LinkSignalView) -> int {
    match (phase, signal) {
        (LinkPhase::Opening, LinkSignalView::OpenFailed { .. }) => OPEN_RETRY_MS as int,
        (LinkPhase::Connected, LinkSignalView::ReadFailed) => REOPEN_DELAY_MS as int,
        _ => 0,
    }
}

/// The debounce key of a failure to open `device`.
pub open spec fn open_error_key(device: Seq<char>) -> Seq<char> {
    "open_err:"@ + device
}

/// The report of a failure to open the device.
pub open spec fn open_error_report(message: Seq<char>) -> Seq<char> {
    message + " (retrying)"@
}

/// Whether the signal is a failure to open during an attempt to open,
/// the one case in which the ledger is asked.
pub open spec fn asks_ledger(phase: LinkPhase, signal: LinkSignalView) -> bool {
    phase == LinkPhase::Opening && signal is OpenFailed
}

/// The ledger after a signal at time `now`.
pub open spec fn ledger_after_signal(
    ledger: Map<Seq<char>, nat>,
    phase: LinkPhase,
    signal: LinkSignalView,
    device: Seq<char>,
    now: nat,
) -> Map<Seq<char>, nat> {
    if asks_ledger(phase, signal) {
        after_request(ledger, open_error_key(device), OPEN_ERROR_WINDOW_MS as nat, now)
    } else {
        ledger
    }
}

/// The events a signal sends at time `now`: the device's name when it is
/// opened, its loss when a read fails or the connection is stopped while
/// open, and a failure to open unless the same was reported within the
/// window.
pub open spec fn events_after(
    ledger: Map<Seq<char>, nat>,
    phase: LinkPhase,
    signal: LinkSignalView,
    device: Seq<char>,
    now: nat,
) -> Seq<BridgeEventView> {
    match (phase, signal) {
        (LinkPhase::Opening, LinkSignalView::OpenSucceeded) => seq![
            BridgeEventView::DeviceConnected { device: device },
        ],
        (LinkPhase::Opening, LinkSignalView::OpenFailed { message }) => if suppressed(
            ledger,
            open_error_key(device),
            OPEN_ERROR_WINDOW_MS as nat,
            now,
        ) {
            Seq::empty()
        } else {
            seq![BridgeEventView::DeviceError { message: open_error_report(message) }]
        },
        (LinkPhase::Connected, LinkSignalView::ReadFailed) => seq![
            BridgeEventView::DeviceDisconnected,
        ],
        (LinkPhase::Connected, LinkSignalView::StopRequested) => seq![
            BridgeEventView::DeviceDisconnected,
        ],
        _ => Seq::empty(),
    }
}

/// What a phase calls for.
pub open spec fn action_in(phase: LinkPhase) -> LinkAction {
    match phase {
        LinkPhase::Disconnected => LinkAction::Open,
        LinkPhase::Opening => LinkAction::AwaitOpen,
        LinkPhase::Connected => LinkAction::Read,
        LinkPhase::Stopped => LinkAction::Leave,
    }
}

impl SerialState {
    /// The state of a connection that has not tried anything yet.
    pub fn new() -> (state: SerialState)
        ensures
            state@.phase == LinkPhase::Disconnected,
            state@.tracker == CallTrackerView::initial(),
    {
        SerialState { phase: LinkPhase::Disconnected, tracker: CallTracker::new() }
    }

    /// What the owner of the device does next.
    pub fn next_action(&self) -> (action: LinkAction)
        ensures
            action == action_in(self@.phase),
    {
        match self.phase {
            LinkPhase::Disconnected => LinkAction::Open,
            LinkPhase::Opening => LinkAction::AwaitOpen,
            LinkPhase::Connected => LinkAction::Read,
            LinkPhase::Stopped => LinkAction::Leave,
        }
    }

    /// Takes a signal about `device` at time `now`, in milliseconds since
    /// the epoch, and says what it calls for.
    pub fn advance_at(
        &mut self,
        signal: &LinkSignal,
        device: &str,
        ledger: &mut DebounceLedger,
        now: u128,
    ) -> (reaction: LinkReaction)
        ensures
            final(self)@.phase == next_phase(old(self)@.phase, signal@),
            final(self)@.tracker == next_tracker(old(self)@, signal@),
            final(ledger)@ == ledger_after_signal(
                old(ledger)@,
                old(self)@.phase,
                signal@,
                device@,
                now as nat,
            ),
            published(reaction.events@) == events_after(
                old(ledger)@,
                old(self)@.phase,
                signal@,
                device@,
                now as nat,
            ),
            reaction.backoff_ms == backoff_after(old(self)@.phase, signal@),
    {
        let mut events: Vec<BridgeEvent> = Vec::new();
        let mut backoff_ms: u64 = 0;
        assert(published(events@) =~= Seq::empty());
        match self.phase {
            LinkPhase::Stopped => {},
            LinkPhase::Disconnected => {
                match signal {
                    LinkSignal::StopRequested => {
                        self.phase = LinkPhase::Stopped;
                    },
                    LinkSignal::OpenAttempt => {
                        self.phase = LinkPhase::Opening;
                    },
                    _ => {},
                }
            },
            LinkPhase::Opening => {
                match signal {
                    LinkSignal::StopRequested => {
                        self.phase = LinkPhase::Stopped;
                    },
                    LinkSignal::OpenSucceeded => {
                        self.phase = LinkPhase::Connected;
                        self.tracker = CallTracker::new();
                        let event = BridgeEvent::DeviceConnected { device: device.to_owned() };
                        events.push(event);
                        assert(published(events@) =~= seq![event@]);
                    },
                    LinkSignal::OpenFailed { message } => {
                        self.phase = LinkPhase::Disconnected;
                        backoff_ms = OPEN_RETRY_MS;
                        let key = "open_err:".to_owned().concat(device);
                        if ledger.accept(key.as_str(), OPEN_ERROR_WINDOW_MS, now) {
                            let event = BridgeEvent::DeviceError {
                                message: message.clone().concat(" (retrying)"),
                            };
                            events.push(event);
                            assert(published(events@) =~= seq![event@]);
                        }
                    },
                    _ => {},
                }
            },
            LinkPhase::Connected => {
                match signal {
                    LinkSignal::StopRequested => {
                        self.phase = LinkPhase::Stopped;
                        events.push(BridgeEvent::DeviceDisconnected);
                        assert(published(events@) =~= seq![BridgeEventView::DeviceDisconnected]);
                    },
                    LinkSignal::ReadFailed => {
                        self.phase = LinkPhase::Disconnected;
                        backoff_ms = REOPEN_DELAY_MS;
                        events.push(BridgeEvent::DeviceDisconnected);
                        assert(published(events@) =~= seq![BridgeEventView::DeviceDisconnected]);
                    },
                    _ => {},
                }
            },
        }
        LinkReaction { events, backoff_ms }
    }

    /// `advance_at` at the time the system clock shows. Only the report
    /// of a failure to open depends on the time.
    pub fn advance(&mut self, signal: &LinkSignal, device: &str, ledger: &mut DebounceLedger) -> (reaction:
        LinkReaction)
        ensures
            final(self)@.phase == next_phase(old(self)@.phase, signal@),
            final(self)@.tracker == next_tracker(old(self)@, signal@),
            reaction.backoff_ms == backoff_after(old(self)@.phase, signal@),
            exists|now: nat|
                {
                    &&& final(ledger)@ == #[trigger] ledger_after_signal(
                        old(ledger)@,
                        old(self)@.phase,
                        signal@,
                        device@,
                        now,
                    )
                    &&& published(reaction.events@) == events_after(
                        old(ledger)@,
                        old(self)@.phase,
                        signal@,
                        device@,
                        now,
                    )
                },
    {
        let now = Stamp::now().unsigned_millis();
        let reaction = self.advance_at(signal, device, ledger, now);
        assert(final(ledger)@ == ledger_after_signal(
            old(ledger)@,
            old(self)@.phase,
            signal@,
            device@,
            now as nat,
        ));
        reaction
    }
}

/// A stopped connection never leaves that phase, whatever it is told.
pub proof fn lemma_stopped_is_final(signal: LinkSignalView)
    ensures
        next_phase(LinkPhase::Stopped, signal) == LinkPhase::Stopped,
{
}

/// A request to stop ends every phase.
pub proof fn lemma_stop_always_stops(phase: LinkPhase)
    ensures
        next_phase(phase, LinkSignalView::StopRequested) == LinkPhase::Stopped,
{
}

} // verus!

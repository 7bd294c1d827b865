//! Per-connection call state: which station called last, whether its
//! call still waits to be cleared, and how many heartbeats have passed
//! since. Five heartbeats without an acknowledgment clear the call.

use vstd::prelude::*;
use crate::text::optional_text;

verus! {

/// Heartbeats after which an unacknowledged call counts as cleared.
pub const PULSES_TO_CLEAR: u32 = 5;

/// The tracker of one connection. It starts afresh whenever the device
/// is opened.
#[derive(Clone, Debug, PartialEq, Eq)]
pub struct CallTracker {
    pub last_active_code: Option<String>,
    pub awaiting_reset: bool,
    pub standby_count: u32,
}

/// The mathematical content of a `CallTracker`.
pub struct CallTrackerView {
    pub last_active_code: Option<Seq<char>>,
    pub awaiting_reset: bool,
    pub standby_count: nat,
}

impl View for CallTracker {
    type V = CallTrackerView;

    open spec fn view(&self) -> CallTrackerView {
        CallTrackerView {
            last_active_code: optional_text(self.last_active_code),
            awaiting_reset: self.awaiting_reset,
            standby_count: self.standby_count as nat,
        }
    }
}

impl CallTrackerView {
    /// The tracker of a connection that has seen nothing yet.
    pub open spec fn initial() -> CallTrackerView {
        CallTrackerView { last_active_code: None, awaiting_reset: false, standby_count: 0 }
    }

    /// A call of station `code` has just been recorded.
    pub open spec fn call_created(self, code: Seq<char>) -> CallTrackerView {
        CallTrackerView { last_active_code: Some(code), awaiting_reset: true, standby_count: 0 }
    }

    /// A call has been acknowledged.
    pub open spec fn acknowledged(self) -> CallTrackerView {
        CallTrackerView { awaiting_reset: false, ..self }
    }

    /// The heartbeat count after one more heartbeat, which stops at the
    /// largest `u32`.
    pub open spec fn next_count(self) -> nat {
        if self.standby_count < u32::MAX {
            self.standby_count + 1
        } else {
            self.standby_count
        }
    }

    /// Whether one more heartbeat clears the tracked call.
    pub open spec fn pulse_clears(self) -> bool {
        self.awaiting_reset && self.next_count() >= PULSES_TO_CLEAR
    }

    /// The station whose call one more heartbeat completes, if any.
    pub open spec fn pulse_target(self) -> Option<Seq<char>> {
        if self.pulse_clears() {
            self.last_active_code
        } else {
            None
        }
    }

    /// The tracker after one heartbeat. Heartbeats count only while a
    /// call waits to be cleared.
    pub open spec fn pulsed(self) -> CallTrackerView {
        if self.awaiting_reset {
            CallTrackerView {
                awaiting_reset: !self.pulse_clears(),
                standby_count: self.next_count(),
                ..self
            }
        } else {
            self
        }
    }

    /// The tracker after `n` heartbeats in a row.
    pub open spec fn pulsed_times(self, n: nat) -> CallTrackerView
        decreases n,
    {
        if n == 0 {
            self
        } else {
            self.pulsed_times((n - 1) as nat).pulsed()
        }
    }
}

impl CallTracker {
    /// The tracker of a fresh connection.
    pub fn new() -> (t: CallTracker)
        ensures
            t@ == CallTrackerView::initial(),
    {
        CallTracker { last_active_code: None, awaiting_reset: false, standby_count: 0 }
    }

    /// Notes that a call of station `code` has just been recorded.
    pub fn on_call_created(&mut self, code: &str)
        ensures
            final(self)@ == old(self)@.call_created(code@),
    {
        self.last_active_code = Some(code.to_owned());
        self.awaiting_reset = true;
        self.standby_count = 0;
    }

    /// Notes an acknowledgment.
    pub fn on_acknowledged(&mut self)
        ensures
            final(self)@ == old(self)@.acknowledged(),
    {
        self.awaiting_reset = false;
    }

    /// Counts a heartbeat and names the station whose call it clears.
    pub fn on_pulse(&mut self) -> (target: Option<String>)
        ensures
            final(self)@ == old(self)@.pulsed(),
            optional_text(target) == old(self)@.pulse_target(),
    {
        if !self.awaiting_reset {
            return None;
        }
        if self.standby_count < u32::MAX {
            self.standby_count = self.standby_count + 1;
        }
        if self.standby_count >= PULSES_TO_CLEAR {
            self.awaiting_reset = false;
            match &self.last_active_code {
                Some(code) => Some(code.clone()),
                None => None,
            }
        } else {
            None
        }
    }
}

/// After a call is recorded, four heartbeats in a row leave it waiting
/// and clear nothing; the fifth names its station for completion and ends
/// the wait.
pub proof fn lemma_fifth_pulse_clears(before: CallTrackerView, code: Seq<char>)
    ensures
        forall|n: nat|
            n <= 4 ==> (#[trigger] before.call_created(code).pulsed_times(n)).awaiting_reset,
        forall|n: nat|
            n < 4 ==> (#[trigger] before.call_created(code).pulsed_times(n)).pulse_target()
                is None,
        before.call_created(code).pulsed_times(4).pulse_target() == Some(code),
        !before.call_created(code).pulsed_times(5).awaiting_reset,
{
    let armed = before.call_created(code);
    reveal_with_fuel(CallTrackerView::pulsed_times, 6);
    assert(armed.pulsed_times(0).standby_count == 0);
    assert(armed.pulsed_times(1).standby_count == 1);
    assert(armed.pulsed_times(2).standby_count == 2);
    assert(armed.pulsed_times(3).standby_count == 3);
    assert(armed.pulsed_times(4).standby_count == 4);
    assert forall|n: nat| n <= 4 implies (#[trigger] armed.pulsed_times(n)).awaiting_reset by {
        assert(n == 0 || n == 1 || n == 2 || n == 3 || n == 4);
    }
    assert forall|n: nat| n < 4 implies (#[trigger] armed.pulsed_times(n)).pulse_target()
        is None by {
        assert(n == 0 || n == 1 || n == 2 || n == 3);
    }
}

} // verus!

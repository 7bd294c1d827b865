//! What the bridge does with what the panel says: decoded events drive
//! the call tracker and the call history, and what happens there goes out
//! as events, debounced where the same thing may be said twice.
//!
//! The state a step works on is a tracker, a debounce ledger and a call
//! history. Each step is specified as a function from that state to the
//! state after it and the events sent.

use vstd::prelude::*;
use vstd::string::StringExecFns;
use crate::clock::{Stamp, StampView};
use crate::decoder::{decode, decode_chunk, decode_text, event_views, utf8_lossy, DecodedEvent, DecodedEventView};
use crate::history::{
    append_active, append_outcome, complete_all, complete_latest, latest_site, pending_sites,
    site_views, AppendOutcome, AppendOutcomeView, CallHistory, CallNotice, CallNoticeView,
    CallRecordView, CallSite, CallSiteView, EncloseError,
};
use crate::ledger::{after_request, suppressed, DebounceLedger};
use crate::master::{display_for, display_text, MasterDirectory, MasterDirectoryView};
use crate::tracker::{CallTracker, CallTrackerView};

verus! {

/// Time within which a second notice of the same call, or of the same
/// call's resolution, is held back.
pub const CALL_WINDOW_MS: u128 = 1500;

/// A call that was resolved, as it is announced.
#[derive(Clone, Debug, PartialEq, Eq)]
pub struct Resolution {
    pub code: String,
    pub room: String,
    pub bed: String,
    pub display: String,
}

/// The mathematical content of a `Resolution`.
pub struct ResolutionView {
    pub code: Seq<char>,
    pub room: Seq<char>,
    pub bed: Seq<char>,
    pub display: Seq<char>,
}

impl View for Resolution {
    type V = ResolutionView;

    open spec fn view(&self) -> ResolutionView {
        ResolutionView { code: self.code@, room: self.room@, bed: self.bed@, display: self.display@ }
    }
}

/// What the bridge publishes.
#[derive(Clone, Debug, PartialEq, Eq)]
pub enum BridgeEvent {
    DeviceConnected { device: String },
    DeviceDisconnected,
    RawData { text: String },
    DeviceError { message: String },
    StandbyOk,
    CallTriggered(CallNotice),
    CallResolved(Resolution),
}

/// The mathematical content of a `BridgeEvent`.
pub enum BridgeEventView {
    DeviceConnected { device: Seq<char> },
    DeviceDisconnected,
    RawData { text: Seq<char> },
    DeviceError { message: Seq<char> },
    StandbyOk,
    CallTriggered(CallNoticeView),
    CallResolved(ResolutionView),
}

impl View for BridgeEvent {
    type V = BridgeEventView;

    open spec fn view(&self) -> BridgeEventView {
        match self {
            BridgeEvent::DeviceConnected { device } => BridgeEventView::DeviceConnected {
                device: device@,
            },
            BridgeEvent::DeviceDisconnected => BridgeEventView::DeviceDisconnected,
            BridgeEvent::RawData { text } => BridgeEventView::RawData { text: text@ },
            BridgeEvent::DeviceError { message } => BridgeEventView::DeviceError {
                message: message@,
            },
            BridgeEvent::StandbyOk => BridgeEventView::StandbyOk,
            BridgeEvent::CallTriggered(notice) => BridgeEventView::CallTriggered(notice@),
            BridgeEvent::CallResolved(resolution) => BridgeEventView::CallResolved(resolution@),
        }
    }
}

/// The views of a run of published events, in order.
pub open spec fn published(events: Seq<BridgeEvent>) -> Seq<BridgeEventView> {
    events.map_values(|e: BridgeEvent| e@)
}

/// The state that decoded events act on.
pub struct BridgeView {
    pub tracker: CallTrackerView,
    pub ledger: Map<Seq<char>, nat>,
    pub history: Seq<CallRecordView>,
}

/// A state and the events sent on the way to it.
pub struct Outcome {
    pub state: BridgeView,
    pub events: Seq<BridgeEventView>,
}

/// The three parts of the state as one value.
pub open spec fn bridge_view(
    tracker: CallTrackerView,
    ledger: Map<Seq<char>, nat>,
    history: Seq<CallRecordView>,
) -> BridgeView {
    BridgeView { tracker, ledger, history }
}

/// A code of the reset family: three characters, the first two `90`.
pub open spec fn is_reset_family(code: Seq<char>) -> bool {
    code.len() == 3 && code[0] == '9' && code[1] == '0'
}

/// The station that a reset digit stands for: `10` and the digit.
pub open spec fn reset_target(last_digit: char) -> Seq<char> {
    "10"@.push(last_digit)
}

/// The debounce key of a call of station `code`.
pub open spec fn trigger_key(code: Seq<char>) -> Seq<char> {
    "trigger:"@ + code
}

/// The debounce key of the resolution of a call of station `target`.
pub open spec fn enclose_key(target: Seq<char>) -> Seq<char> {
    "enclose:"@ + target
}

/// How a resolved call is announced.
pub open spec fn resolution_of(site: CallSiteView) -> ResolutionView {
    ResolutionView {
        code: site.code,
        room: site.room,
        bed: site.bed,
        display: display_for(site.room, site.bed, site.code),
    }
}

/// One event, unless the ledger holds its key back at `stamp`.
pub open spec fn unless_suppressed(
    ledger: Map<Seq<char>, nat>,
    key: Seq<char>,
    stamp: StampView,
    event: BridgeEventView,
) -> Seq<BridgeEventView> {
    if suppressed(ledger, key, CALL_WINDOW_MS as nat, Stamp::epoch_millis(stamp.millis)) {
        Seq::empty()
    } else {
        seq![event]
    }
}

/// The ledger after an event under `key` asked to pass at `stamp`.
pub open spec fn ledger_after(ledger: Map<Seq<char>, nat>, key: Seq<char>, stamp: StampView)
    -> Map<Seq<char>, nat> {
    after_request(ledger, key, CALL_WINDOW_MS as nat, Stamp::epoch_millis(stamp.millis))
}

/// A trigger of station `code` with measurement `adc`.
///
/// A code of the reset family acts as an acknowledgment of the station it
/// stands for, except that nothing is announced. Any other code tries to
/// record a call; only when a record is made does the tracker turn to the
/// station and the call go out, debounced under the station's key.
pub open spec fn after_trigger(
    state: BridgeView,
    directory: MasterDirectoryView,
    code: Seq<char>,
    adc: int,
    stamp: StampView,
) -> Outcome {
    if is_reset_family(code) {
        Outcome {
            state: BridgeView {
                tracker: state.tracker.acknowledged(),
                ledger: state.ledger,
                history: complete_latest(state.history, Some(reset_target(code[2])), stamp),
            },
            events: Seq::empty(),
        }
    } else {
        match append_outcome(state.history, directory, code, adc) {
            AppendOutcomeView::Created(notice) => Outcome {
                state: BridgeView {
                    tracker: state.tracker.call_created(code),
                    ledger: ledger_after(state.ledger, trigger_key(code), stamp),
                    history: append_active(state.history, directory, code, adc, stamp),
                },
                events: unless_suppressed(
                    state.ledger,
                    trigger_key(code),
                    stamp,
                    BridgeEventView::CallTriggered(notice),
                ),
            },
            _ => Outcome { state: state, events: Seq::empty() },
        }
    }
}

/// An acknowledgment for the station with the given last digit.
///
/// The tracker stops waiting in any case. If the station has an
/// outstanding call, the most recent one is completed and its resolution
/// goes out, debounced under the station's key; if not, nothing else
/// happens.
pub open spec fn after_acknowledgment(state: BridgeView, last_digit: char, stamp: StampView)
    -> Outcome {
    let target = reset_target(last_digit);
    match latest_site(state.history, Some(target)) {
        Some(site) => Outcome {
            state: BridgeView {
                tracker: state.tracker.acknowledged(),
                ledger: ledger_after(state.ledger, enclose_key(target), stamp),
                history: complete_latest(state.history, Some(target), stamp),
            },
            events: unless_suppressed(
                state.ledger,
                enclose_key(target),
                stamp,
                BridgeEventView::CallResolved(resolution_of(site)),
            ),
        },
        None => Outcome {
            state: BridgeView { tracker: state.tracker.acknowledged(), ..state },
            events: Seq::empty(),
        },
    }
}

/// A heartbeat: it is passed on as a sign of life, the tracker counts
/// it, and the call it clears, if any, is completed without notice.
pub open spec fn after_pulse(state: BridgeView, stamp: StampView) -> Outcome {
    Outcome {
        state: BridgeView {
            tracker: state.tracker.pulsed(),
            ledger: state.ledger,
            history: match state.tracker.pulse_target() {
                Some(code) => complete_latest(state.history, Some(code), stamp),
                None => state.history,
            },
        },
        events: seq![BridgeEventView::StandbyOk],
    }
}

/// One decoded event.
pub open spec fn after_event(
    state: BridgeView,
    directory: MasterDirectoryView,
    event: DecodedEventView,
    stamp: StampView,
) -> Outcome {
    match event {
        DecodedEventView::StandbyPulse => after_pulse(state, stamp),
        DecodedEventView::Acknowledgment { target_last_digit } => after_acknowledgment(
            state,
            target_last_digit,
            stamp,
        ),
        DecodedEventView::Trigger { code, adc_value } => after_trigger(
            state,
            directory,
            code,
            adc_value,
            stamp,
        ),
    }
}

/// A run of decoded events, one after the other.
pub open spec fn after_events(
    state: BridgeView,
    directory: MasterDirectoryView,
    events: Seq<DecodedEventView>,
    stamp: StampView,
) -> Outcome
    decreases events.len(),
{
    if events.len() == 0 {
        Outcome { state: state, events: Seq::empty() }
    } else {
        let first = after_event(state, directory, events[0], stamp);
        let rest = after_events(first.state, directory, events.drop_first(), stamp);
        Outcome { state: rest.state, events: first.events + rest.events }
    }
}

/// A chunk of received text: the text itself goes out first, then
/// whatever its events bring about.
pub open spec fn after_text(
    state: BridgeView,
    directory: MasterDirectoryView,
    text: Seq<char>,
    stamp: StampView,
) -> Outcome {
    let run = after_events(state, directory, decode(text), stamp);
    Outcome { state: run.state, events: seq![BridgeEventView::RawData { text: text }] + run.events }
}

/// The station code that a reset digit stands for.
pub fn reset_target_code(last_digit: char) -> (target: String)
    ensures
        target@ == reset_target(last_digit),
{
    let mut target = "10".to_owned();
    target.push(last_digit);
    target
}

/// Announces a resolved call.
pub fn resolution(site: &CallSite) -> (r: Resolution)
    ensures
        r@ == resolution_of(site@),
{
    let display = display_text(site.room.as_str(), site.bed.as_str(), site.code.as_str());
    Resolution {
        code: site.code.clone(),
        room: site.room.clone(),
        bed: site.bed.clone(),
        display,
    }
}

/// Handles a trigger of station `code` with measurement `adc` at `stamp`.
pub fn handle_trigger_at(
    code: &str,
    adc: i32,
    tracker: &mut CallTracker,
    ledger: &mut DebounceLedger,
    directory: &MasterDirectory,
    history: &mut CallHistory,
    stamp: &Stamp,
) -> (events: Vec<BridgeEvent>)
    ensures
        bridge_view(final(tracker)@, final(ledger)@, final(history)@) == after_trigger(
            bridge_view(old(tracker)@, old(ledger)@, old(history)@),
            directory@,
            code@,
            adc as int,
            stamp@,
        ).state,
        published(events@) == after_trigger(
            bridge_view(old(tracker)@, old(ledger)@, old(history)@),
            directory@,
            code@,
            adc as int,
            stamp@,
        ).events,
{
    let mut events: Vec<BridgeEvent> = Vec::new();
    assert(published(events@) =~= Seq::empty());
    if code.unicode_len() == 3 && code.get_char(0) == '9' && code.get_char(1) == '0' {
        let target = reset_target_code(code.get_char(2));
        let _ = history.complete_latest_for_code_at(target.as_str(), stamp);
        tracker.on_acknowledged();
        return events;
    }
    match history.append_active_at(directory, code, adc, stamp) {
        AppendOutcome::Created(notice) => {
            tracker.on_call_created(code);
            let key = "trigger:".to_owned().concat(code);
            if ledger.accept(key.as_str(), CALL_WINDOW_MS, stamp.unsigned_millis()) {
                let event = BridgeEvent::CallTriggered(notice);
                events.push(event);
                assert(published(events@) =~= seq![event@]);
            }
        },
        _ => {},
    }
    events
}

/// Handles an acknowledgment for the station with the given last digit
/// at `stamp`.
pub fn handle_enclose_at(
    target_last_digit: char,
    tracker: &mut CallTracker,
    ledger: &mut DebounceLedger,
    history: &mut CallHistory,
    stamp: &Stamp,
) -> (events: Vec<BridgeEvent>)
    ensures
        bridge_view(final(tracker)@, final(ledger)@, final(history)@) == after_acknowledgment(
            bridge_view(old(tracker)@, old(ledger)@, old(history)@),
            target_last_digit,
            stamp@,
        ).state,
        published(events@) == after_acknowledgment(
            bridge_view(old(tracker)@, old(ledger)@, old(history)@),
            target_last_digit,
            stamp@,
        ).events,
{
    let mut events: Vec<BridgeEvent> = Vec::new();
    assert(published(events@) =~= Seq::empty());
    let target = reset_target_code(target_last_digit);
    tracker.on_acknowledged();
    match history.complete_latest_for_code_at(target.as_str(), stamp) {
        Some(site) => {
            let key = "enclose:".to_owned().concat(target.as_str());
            if ledger.accept(key.as_str(), CALL_WINDOW_MS, stamp.unsigned_millis()) {
                let event = BridgeEvent::CallResolved(resolution(&site));
                events.push(event);
                assert(published(events@) =~= seq![event@]);
            }
        },
        None => {},
    }
    events
}

/// Handles a heartbeat at `stamp`.
pub fn handle_pulse_at(tracker: &mut CallTracker, history: &mut CallHistory, stamp: &Stamp) -> (events:
    Vec<BridgeEvent>)
    ensures
        final(tracker)@ == old(tracker)@.pulsed(),
        final(history)@ == match old(tracker)@.pulse_target() {
            Some(code) => complete_latest(old(history)@, Some(code), stamp@),
            None => old(history)@,
        },
        published(events@) == seq![BridgeEventView::StandbyOk],
{
    let mut events: Vec<BridgeEvent> = Vec::new();
    events.push(BridgeEvent::StandbyOk);
    assert(published(events@) =~= seq![BridgeEventView::StandbyOk]);
    match tracker.on_pulse() {
        Some(code) => {
            let _ = history.complete_latest_for_code_at(code.as_str(), stamp);
        },
        None => {},
    }
    events
}

/// Handles one decoded event at `stamp`.
pub fn handle_event_at(
    event: &DecodedEvent,
    tracker: &mut CallTracker,
    ledger: &mut DebounceLedger,
    directory: &MasterDirectory,
    history: &mut CallHistory,
    stamp: &Stamp,
) -> (events: Vec<BridgeEvent>)
    ensures
        bridge_view(final(tracker)@, final(ledger)@, final(history)@) == after_event(
            bridge_view(old(tracker)@, old(ledger)@, old(history)@),
            directory@,
            event@,
            stamp@,
        ).state,
        published(events@) == after_event(
            bridge_view(old(tracker)@, old(ledger)@, old(history)@),
            directory@,
            event@,
            stamp@,
        ).events,
{
    match event {
        DecodedEvent::StandbyPulse => handle_pulse_at(tracker, history, stamp),
        DecodedEvent::Acknowledgment { target_last_digit } => handle_enclose_at(
            *target_last_digit,
            tracker,
            ledger,
            history,
            stamp,
        ),
        DecodedEvent::Trigger { code, adc_value } => handle_trigger_at(
            code.as_str(),
            *adc_value,
            tracker,
            ledger,
            directory,
            history,
            stamp,
        ),
    }
}

/// Handles a run of decoded events at `stamp`, in order.
pub fn handle_events_at(
    decoded: &Vec<DecodedEvent>,
    tracker: &mut CallTracker,
    ledger: &mut DebounceLedger,
    directory: &MasterDirectory,
    history: &mut CallHistory,
    stamp: &Stamp,
) -> (events: Vec<BridgeEvent>)
    ensures
        bridge_view(final(tracker)@, final(ledger)@, final(history)@) == after_events(
            bridge_view(old(tracker)@, old(ledger)@, old(history)@),
            directory@,
            event_views(decoded@),
            stamp@,
        ).state,
        published(events@) == after_events(
            bridge_view(old(tracker)@, old(ledger)@, old(history)@),
            directory@,
            event_views(decoded@),
            stamp@,
        ).events,
{
    let ghost all = event_views(decoded@);
    let ghost start = bridge_view(old(tracker)@, old(ledger)@, old(history)@);
    let ghost goal = after_events(start, directory@, all, stamp@);
    let n = decoded.len();
    let mut events: Vec<BridgeEvent> = Vec::new();
    let mut i: usize = 0;
    assert(all.skip(0) =~= all);
    assert(published(events@) =~= Seq::empty());
    assert(Seq::<BridgeEventView>::empty() + goal.events =~= goal.events);
    while i < n
        invariant
            n == decoded@.len(),
            i <= n,
            all == event_views(decoded@),
            goal.state == after_events(
                bridge_view(tracker@, ledger@, history@),
                directory@,
                all.skip(i as int),
                stamp@,
            ).state,
            goal.events == published(events@) + after_events(
                bridge_view(tracker@, ledger@, history@),
                directory@,
                all.skip(i as int),
                stamp@,
            ).events,
        decreases n - i,
    {
        let ghost here = bridge_view(tracker@, ledger@, history@);
        let ghost sent = published(events@);
        let ghost tail = all.skip(i as int);
        assert(tail[0] == decoded@[i as int]@);
        assert(tail.drop_first() =~= all.skip(i + 1));
        let mut step = handle_event_at(&decoded[i], tracker, ledger, directory, history, stamp);
        let ghost first = after_event(here, directory@, tail[0], stamp@);
        let ghost rest = after_events(first.state, directory@, all.skip(i + 1), stamp@);
        assert(published(step@) == first.events);
        events.append(&mut step);
        assert(published(events@) =~= sent + first.events);
        assert(sent + (first.events + rest.events) =~= (sent + first.events) + rest.events);
        i = i + 1;
    }
    assert(all.skip(n as int) =~= Seq::empty());
    assert(published(events@) + Seq::<BridgeEventView>::empty() =~= published(events@));
    events
}

/// Handles a chunk of received text at `stamp`.
pub fn process_text_at(
    text: &str,
    tracker: &mut CallTracker,
    ledger: &mut DebounceLedger,
    directory: &MasterDirectory,
    history: &mut CallHistory,
    stamp: &Stamp,
) -> (events: Vec<BridgeEvent>)
    ensures
        bridge_view(final(tracker)@, final(ledger)@, final(history)@) == after_text(
            bridge_view(old(tracker)@, old(ledger)@, old(history)@),
            directory@,
            text@,
            stamp@,
        ).state,
        published(events@) == after_text(
            bridge_view(old(tracker)@, old(ledger)@, old(history)@),
            directory@,
            text@,
            stamp@,
        ).events,
{
    let decoded = decode_text(text);
    let mut events: Vec<BridgeEvent> = Vec::new();
    events.push(BridgeEvent::RawData { text: text.to_owned() });
    let mut run = handle_events_at(&decoded, tracker, ledger, directory, history, stamp);
    let ghost brought = published(run@);
    events.append(&mut run);
    assert(published(events@) =~= seq![BridgeEventView::RawData { text: text@ }] + brought);
    events
}

/// Handles a chunk of received bytes at the time the system clock shows:
/// the bytes are read as text, lossily, and the text is handled by
/// `process_text_at` with one reading of the clock for the whole chunk.
pub fn process_chunk(
    bytes: &[u8],
    tracker: &mut CallTracker,
    ledger: &mut DebounceLedger,
    directory: &MasterDirectory,
    history: &mut CallHistory,
) -> (events: Vec<BridgeEvent>)
    ensures
        exists|stamp: StampView|
            {
                &&& stamp.iso.len() > 0
                &&& bridge_view(final(tracker)@, final(ledger)@, final(history)@)
                    == (#[trigger] after_text(
                    bridge_view(old(tracker)@, old(ledger)@, old(history)@),
                    directory@,
                    utf8_lossy(bytes@),
                    stamp,
                )).state
                &&& published(events@) == after_text(
                    bridge_view(old(tracker)@, old(ledger)@, old(history)@),
                    directory@,
                    utf8_lossy(bytes@),
                    stamp,
                ).events
            },
{
    let chunk = decode_chunk(bytes);
    let stamp = Stamp::now();
    let mut events: Vec<BridgeEvent> = Vec::new();
    events.push(BridgeEvent::RawData { text: chunk.text });
    let mut run = handle_events_at(&chunk.events, tracker, ledger, directory, history, &stamp);
    let ghost brought = published(run@);
    events.append(&mut run);
    assert(published(events@) =~= seq![BridgeEventView::RawData { text: utf8_lossy(bytes@) }]
        + brought);
    assert(published(events@) == after_text(
        bridge_view(old(tracker)@, old(ledger)@, old(history)@),
        directory@,
        utf8_lossy(bytes@),
        stamp@,
    ).events);
    events
}

/// One decoded event while the call history cannot be had: the tracker
/// goes on as always, nothing is recorded or completed, and nothing but
/// the heartbeat is passed on.
pub open spec fn after_event_unrecorded(tracker: CallTrackerView, event: DecodedEventView) -> (
    CallTrackerView,
    Seq<BridgeEventView>,
) {
    match event {
        DecodedEventView::StandbyPulse => (tracker.pulsed(), seq![BridgeEventView::StandbyOk]),
        DecodedEventView::Acknowledgment { target_last_digit } => (
            tracker.acknowledged(),
            Seq::empty(),
        ),
        DecodedEventView::Trigger { code, adc_value } => if is_reset_family(code) {
            (tracker.acknowledged(), Seq::empty())
        } else {
            (tracker, Seq::empty())
        },
    }
}

/// A run of decoded events while the call history cannot be had.
pub open spec fn after_events_unrecorded(tracker: CallTrackerView, events: Seq<DecodedEventView>)
    -> (CallTrackerView, Seq<BridgeEventView>)
    decreases events.len(),
{
    if events.len() == 0 {
        (tracker, Seq::empty())
    } else {
        let first = after_event_unrecorded(tracker, events[0]);
        let rest = after_events_unrecorded(first.0, events.drop_first());
        (rest.0, first.1 + rest.1)
    }
}

/// Handles a chunk of received bytes while the call history cannot be
/// had: the text goes out, heartbeats are passed on and counted,
/// acknowledgments end the tracker's wait, and calls are dropped.
pub fn process_chunk_unrecorded(bytes: &[u8], tracker: &mut CallTracker) -> (events: Vec<
    BridgeEvent,
>)
    ensures
        final(tracker)@ == after_events_unrecorded(
            old(tracker)@,
            decode(utf8_lossy(bytes@)),
        ).0,
        published(events@) == seq![BridgeEventView::RawData { text: utf8_lossy(bytes@) }]
            + after_events_unrecorded(old(tracker)@, decode(utf8_lossy(bytes@))).1,
{
    let chunk = decode_chunk(bytes);
    let ghost all = event_views(chunk.events@);
    let ghost goal = after_events_unrecorded(old(tracker)@, all);
    let ghost head = seq![BridgeEventView::RawData { text: utf8_lossy(bytes@) }];
    let n = chunk.events.len();
    let mut events: Vec<BridgeEvent> = Vec::new();
    events.push(BridgeEvent::RawData { text: chunk.text });
    let mut i: usize = 0;
    assert(all.skip(0) =~= all);
    assert(published(events@) =~= head);
    while i < n
        invariant
            n == chunk.events@.len(),
            i <= n,
            all == event_views(chunk.events@),
            goal.0 == after_events_unrecorded(tracker@, all.skip(i as int)).0,
            head + goal.1 == published(events@) + after_events_unrecorded(
                tracker@,
                all.skip(i as int),
            ).1,
        decreases n - i,
    {
        let ghost sent = published(events@);
        let ghost tail = all.skip(i as int);
        let ghost first = after_event_unrecorded(tracker@, tail[0]);
        let ghost rest = after_events_unrecorded(first.0, all.skip(i + 1));
        assert(tail[0] == chunk.events@[i as int]@);
        assert(tail.drop_first() =~= all.skip(i + 1));
        match &chunk.events[i] {
            DecodedEvent::StandbyPulse => {
                let _ = tracker.on_pulse();
                events.push(BridgeEvent::StandbyOk);
                assert(published(events@) =~= sent + first.1);
            },
            DecodedEvent::Acknowledgment { target_last_digit } => {
                tracker.on_acknowledged();
                assert(published(events@) =~= sent + first.1);
            },
            DecodedEvent::Trigger { code, adc_value } => {
                if code.as_str().unicode_len() == 3 && code.as_str().get_char(0) == '9'
                    && code.as_str().get_char(1) == '0' {
                    tracker.on_acknowledged();
                }
                assert(published(events@) =~= sent + first.1);
            },
        }
        assert(sent + (first.1 + rest.1) =~= (sent + first.1) + rest.1);
        i = i + 1;
    }
    assert(all.skip(n as int) =~= Seq::empty());
    assert(published(events@) + Seq::<BridgeEventView>::empty() =~= published(events@));
    events
}

/// The events that announce the resolution of the given calls.
pub open spec fn resolutions_of(sites: Seq<CallSiteView>) -> Seq<BridgeEventView> {
    sites.map_values(|s: CallSiteView| BridgeEventView::CallResolved(resolution_of(s)))
}

/// Completes the most recent outstanding call of any station at `stamp`
/// and announces it. Fails, and changes nothing, when no call is
/// outstanding.
pub fn serial_enclose_latest_at(history: &mut CallHistory, stamp: &Stamp) -> (event: Result<
    BridgeEvent,
    EncloseError,
>)
    ensures
        final(history)@ == complete_latest(old(history)@, None, stamp@),
        match event {
            Ok(e) => {
                &&& latest_site(old(history)@, None) matches Some(site)
                &&& e@ == BridgeEventView::CallResolved(resolution_of(site))
            },
            Err(e) => {
                &&& latest_site(old(history)@, None) is None
                &&& e == EncloseError::NoPendingCalls
                &&& final(history)@ == old(history)@
            },
        },
{
    match history.complete_latest_any_at(stamp) {
        Ok(site) => Ok(BridgeEvent::CallResolved(resolution(&site))),
        Err(e) => Err(e),
    }
}

/// `serial_enclose_latest_at` at the time the system clock shows.
pub fn serial_enclose_latest(history: &mut CallHistory) -> (event: Result<BridgeEvent, EncloseError>)
    ensures
        match event {
            Ok(e) => {
                &&& latest_site(old(history)@, None) matches Some(site)
                &&& e@ == BridgeEventView::CallResolved(resolution_of(site))
            },
            Err(e) => {
                &&& latest_site(old(history)@, None) is None
                &&& e == EncloseError::NoPendingCalls
                &&& final(history)@ == old(history)@
            },
        },
        exists|stamp: StampView|
            stamp.iso.len() > 0 && final(history)@ == #[trigger] complete_latest(
                old(history)@,
                None,
                stamp,
            ),
{
    let stamp = Stamp::now();
    let event = serial_enclose_latest_at(history, &stamp);
    assert(final(history)@ == complete_latest(old(history)@, None, stamp@));
    event
}

/// What completing every outstanding call brought about.
#[derive(Clone, Debug, PartialEq, Eq)]
pub struct Enclosed {
    /// How many records were completed.
    pub updated: usize,
    /// The announcement of each, oldest call first.
    pub events: Vec<BridgeEvent>,
}

/// Completes every outstanding call at `stamp` and announces each.
pub fn serial_enclose_all_at(history: &mut CallHistory, stamp: &Stamp) -> (enclosed: Enclosed)
    ensures
        final(history)@ == complete_all(old(history)@, stamp@),
        enclosed.updated == pending_sites(old(history)@).len(),
        published(enclosed.events@) == resolutions_of(pending_sites(old(history)@)),
{
    let sites = history.complete_all_pending_at(stamp);
    let n = sites.len();
    let ghost all = site_views(sites@);
    let mut events: Vec<BridgeEvent> = Vec::new();
    let mut i: usize = 0;
    assert(published(events@) =~= resolutions_of(all.take(0)));
    while i < n
        invariant
            n == sites@.len(),
            i <= n,
            all == site_views(sites@),
            published(events@) == resolutions_of(all.take(i as int)),
        decreases n - i,
    {
        let ghost sent = published(events@);
        let event = BridgeEvent::CallResolved(resolution(&sites[i]));
        events.push(event);
        assert(published(events@) =~= sent.push(event@));
        assert(resolutions_of(all.take(i + 1)) =~= resolutions_of(all.take(i as int)).push(
            event@,
        ));
        i = i + 1;
    }
    assert(all.take(n as int) =~= all);
    Enclosed { updated: n, events }
}

/// `serial_enclose_all_at` at the time the system clock shows.
pub fn serial_enclose_all(history: &mut CallHistory) -> (enclosed: Enclosed)
    ensures
        enclosed.updated == pending_sites(old(history)@).len(),
        published(enclosed.events@) == resolutions_of(pending_sites(old(history)@)),
        exists|stamp: StampView|
            stamp.iso.len() > 0 && final(history)@ == #[trigger] complete_all(old(history)@, stamp),
{
    let stamp = Stamp::now();
    let enclosed = serial_enclose_all_at(history, &stamp);
    assert(final(history)@ == complete_all(old(history)@, stamp@));
    enclosed
}

} // verus!

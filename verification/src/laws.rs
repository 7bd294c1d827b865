//! What holds of the bridge as a whole, stated over the specifications
//! that the contracts of its functions use.

use vstd::prelude::*;
use crate::bridge::{
    after_acknowledgment, after_pulse, after_trigger, is_reset_family, reset_target,
    BridgeEventView, BridgeView,
};
use crate::clock::StampView;
use crate::history::{
    append_active, append_outcome, complete_all, complete_latest, completed_at, has_pending,
    is_pending, is_wanted, latest_wanted, lemma_latest_wanted, lemma_latest_wanted_found,
    new_record, one_call_per_station, pending_records, pending_sites, CallRecordView, Status,
};
use crate::master::{display_for, locate, threshold_for, MasterDirectoryView};

verus! {

/// A call whose measurement reaches the threshold, for a station without
/// an outstanding call, adds exactly one record to the history and
/// touches no other. The record is active, and it is shown by room and
/// bed, or by the bare code when the directory knows no room for it.
pub proof fn lemma_call_adds_one_active_record(
    h: Seq<CallRecordView>,
    directory: MasterDirectoryView,
    code: Seq<char>,
    adc: int,
    stamp: StampView,
)
    requires
        adc >= threshold_for(directory.master_type),
        !has_pending(h, code),
    ensures
        append_outcome(h, directory, code, adc) is Created,
        append_active(h, directory, code, adc, stamp).len() == h.len() + 1,
        append_active(h, directory, code, adc, stamp).drop_last() == h,
        append_active(h, directory, code, adc, stamp).last().status == Status::Active,
        append_active(h, directory, code, adc, stamp).last().code == code,
        append_active(h, directory, code, adc, stamp).last().display == display_for(
            locate(directory, code).room,
            locate(directory, code).bed,
            code,
        ),
        locate(directory, code).room.len() == 0 ==> append_active(
            h,
            directory,
            code,
            adc,
            stamp,
        ).last().display == code,
        has_pending(append_active(h, directory, code, adc, stamp), code),
{
    let after = append_active(h, directory, code, adc, stamp);
    assert(after.drop_last() =~= h);
    lemma_latest_wanted(after, Some(code), after.len() - 1);
}

/// A call that is below the threshold, or that comes for a station with
/// an outstanding call, leaves the history as it is.
pub proof fn lemma_discarded_call_changes_nothing(
    h: Seq<CallRecordView>,
    directory: MasterDirectoryView,
    code: Seq<char>,
    adc: int,
    stamp: StampView,
)
    requires
        adc < threshold_for(directory.master_type) || has_pending(h, code),
    ensures
        !(append_outcome(h, directory, code, adc) is Created),
        append_active(h, directory, code, adc, stamp) == h,
{
}

/// While a station's call is outstanding, a further trigger of that
/// station, whatever its measurement and whenever it comes, records
/// nothing, announces nothing, and leaves tracker and ledger as they are.
pub proof fn lemma_retrigger_is_silent(
    state: BridgeView,
    directory: MasterDirectoryView,
    code: Seq<char>,
    adc: int,
    stamp: StampView,
)
    requires
        !is_reset_family(code),
        has_pending(state.history, code),
    ensures
        after_trigger(state, directory, code, adc, stamp).state == state,
        after_trigger(state, directory, code, adc, stamp).events == Seq::<BridgeEventView>::empty(),
{
}

/// A trigger that records a call makes every further trigger of the same
/// station silent until the call is completed.
pub proof fn lemma_second_trigger_is_silent(
    state: BridgeView,
    directory: MasterDirectoryView,
    code: Seq<char>,
    adc: int,
    stamp: StampView,
    again: int,
    later: StampView,
)
    requires
        !is_reset_family(code),
        append_outcome(state.history, directory, code, adc) is Created,
    ensures
        after_trigger(
            after_trigger(state, directory, code, adc, stamp).state,
            directory,
            code,
            again,
            later,
        ).state == after_trigger(state, directory, code, adc, stamp).state,
        after_trigger(
            after_trigger(state, directory, code, adc, stamp).state,
            directory,
            code,
            again,
            later,
        ).events == Seq::<BridgeEventView>::empty(),
{
    let first = after_trigger(state, directory, code, adc, stamp);
    lemma_latest_wanted(first.state.history, Some(code), first.state.history.len() - 1);
    lemma_retrigger_is_silent(first.state, directory, code, again, later);
}

/// An acknowledgment for a station without an outstanding call changes
/// neither history nor ledger and announces nothing.
pub proof fn lemma_acknowledgment_without_call(state: BridgeView, last_digit: char, stamp: StampView)
    requires
        !has_pending(state.history, reset_target(last_digit)),
    ensures
        after_acknowledgment(state, last_digit, stamp).state.history == state.history,
        after_acknowledgment(state, last_digit, stamp).state.ledger == state.ledger,
        after_acknowledgment(state, last_digit, stamp).events == Seq::<BridgeEventView>::empty(),
{
}

/// A trigger of the reset family for a station without an outstanding
/// call changes neither history nor ledger and announces nothing.
pub proof fn lemma_reset_trigger_without_call(
    state: BridgeView,
    directory: MasterDirectoryView,
    code: Seq<char>,
    adc: int,
    stamp: StampView,
)
    requires
        is_reset_family(code),
        !has_pending(state.history, reset_target(code[2])),
    ensures
        after_trigger(state, directory, code, adc, stamp).state.history == state.history,
        after_trigger(state, directory, code, adc, stamp).state.ledger == state.ledger,
        after_trigger(state, directory, code, adc, stamp).events == Seq::<BridgeEventView>::empty(),
{
}

/// The state after `n` heartbeats in a row, all stamped alike.
pub open spec fn after_pulses(state: BridgeView, n: nat, stamp: StampView) -> BridgeView
    decreases n,
{
    if n == 0 {
        state
    } else {
        after_pulse(after_pulses(state, (n - 1) as nat, stamp), stamp).state
    }
}

/// After a trigger has recorded a call, up to four heartbeats in a row
/// leave the history alone and the tracker waiting. The fifth completes
/// the record of that call and ends the wait.
pub proof fn lemma_fifth_pulse_completes_the_call(
    state: BridgeView,
    directory: MasterDirectoryView,
    code: Seq<char>,
    adc: int,
    stamp: StampView,
    later: StampView,
)
    requires
        !is_reset_family(code),
        append_outcome(state.history, directory, code, adc) is Created,
    ensures
        forall|n: nat|
            n <= 4 ==> (#[trigger] after_pulses(
                after_trigger(state, directory, code, adc, stamp).state,
                n,
                later,
            )).history == after_trigger(state, directory, code, adc, stamp).state.history,
        forall|n: nat|
            n <= 4 ==> (#[trigger] after_pulses(
                after_trigger(state, directory, code, adc, stamp).state,
                n,
                later,
            )).tracker.awaiting_reset,
        !after_pulses(
            after_trigger(state, directory, code, adc, stamp).state,
            5,
            later,
        ).tracker.awaiting_reset,
        after_pulses(after_trigger(state, directory, code, adc, stamp).state, 5, later).history
            == after_trigger(state, directory, code, adc, stamp).state.history.drop_last().push(
            completed_at(new_record(code, locate(directory, code), stamp), later),
        ),
{
    let armed = after_trigger(state, directory, code, adc, stamp).state;
    let h = armed.history;
    assert(h.last() == new_record(code, locate(directory, code), stamp));
    lemma_latest_wanted(h, Some(code), h.len() - 1);
    reveal_with_fuel(after_pulses, 6);
    let s0 = after_pulses(armed, 0, later);
    let s1 = after_pulses(armed, 1, later);
    let s2 = after_pulses(armed, 2, later);
    let s3 = after_pulses(armed, 3, later);
    let s4 = after_pulses(armed, 4, later);
    let s5 = after_pulses(armed, 5, later);
    assert(s0.tracker.standby_count == 0 && s0.tracker.awaiting_reset && s0.history == h);
    assert(s1.tracker.standby_count == 1 && s1.tracker.awaiting_reset && s1.history == h);
    assert(s2.tracker.standby_count == 2 && s2.tracker.awaiting_reset && s2.history == h);
    assert(s3.tracker.standby_count == 3 && s3.tracker.awaiting_reset && s3.history == h);
    assert(s4.tracker.standby_count == 4 && s4.tracker.awaiting_reset && s4.history == h);
    assert(s4.tracker.last_active_code == Some(code));
    assert(s5.history == complete_latest(h, Some(code), later));
    assert(s5.history =~= h.drop_last().push(
        completed_at(new_record(code, locate(directory, code), stamp), later),
    ));
    assert forall|n: nat| n <= 4 implies (#[trigger] after_pulses(armed, n, later)).history
        == h by {
        assert(n == 0 || n == 1 || n == 2 || n == 3 || n == 4);
    }
    assert forall|n: nat| n <= 4 implies (#[trigger] after_pulses(
        armed,
        n,
        later,
    )).tracker.awaiting_reset by {
        assert(n == 0 || n == 1 || n == 2 || n == 3 || n == 4);
    }
}

/// How many of the records are completed.
pub open spec fn completed_count(h: Seq<CallRecordView>) -> nat {
    h.filter(|r: CallRecordView| !is_pending(r)).len()
}

/// Every record is either outstanding or completed.
pub proof fn lemma_pending_and_completed_add_up(h: Seq<CallRecordView>)
    ensures
        pending_records(h).len() + completed_count(h) == h.len(),
        pending_sites(h).len() == pending_records(h).len(),
    decreases h.len(),
{
    reveal(Seq::filter);
    if h.len() > 0 {
        lemma_pending_and_completed_add_up(h.drop_last());
    }
}

/// Completing all outstanding calls keeps the number and order of the
/// records, changes exactly the outstanding ones, and leaves none
/// outstanding. Each changed record is completed and carries the stamp's
/// ISO time as its reset time, which is not empty if the stamp's is not.
/// The number of records changed is the number that were outstanding.
pub proof fn lemma_complete_all(h: Seq<CallRecordView>, stamp: StampView)
    ensures
        complete_all(h, stamp).len() == h.len(),
        forall|i: int|
            0 <= i < h.len() ==> (#[trigger] complete_all(h, stamp)[i]).status
                == Status::Completed,
        forall|i: int|
            0 <= i < h.len() && is_pending(h[i]) ==> #[trigger] complete_all(h, stamp)[i]
                == completed_at(h[i], stamp) && complete_all(h, stamp)[i] != h[i]
                && complete_all(h, stamp)[i].reset_time == Some(stamp.iso),
        forall|i: int|
            0 <= i < h.len() && !is_pending(h[i]) ==> #[trigger] complete_all(h, stamp)[i] == h[i],
        stamp.iso.len() > 0 ==> forall|i: int|
            0 <= i < h.len() && is_pending(h[i]) ==> (#[trigger] complete_all(
                h,
                stamp,
            )[i]).reset_time.unwrap().len() > 0,
        pending_records(complete_all(h, stamp)).len() == 0,
        completed_count(complete_all(h, stamp)) == pending_records(h).len() + completed_count(h),
{
    let after = complete_all(h, stamp);
    lemma_none_pending(after);
    lemma_pending_and_completed_add_up(h);
    lemma_pending_and_completed_add_up(after);
}

/// A history whose records are all completed has no outstanding record.
pub proof fn lemma_none_pending(h: Seq<CallRecordView>)
    requires
        forall|i: int| 0 <= i < h.len() ==> !is_pending(#[trigger] h[i]),
    ensures
        pending_records(h).len() == 0,
    decreases h.len(),
{
    reveal(Seq::filter);
    if h.len() > 0 {
        let front = h.drop_last();
        assert forall|i: int| 0 <= i < front.len() implies !is_pending(#[trigger] front[i]) by {
            assert(front[i] == h[i]);
        }
        lemma_none_pending(front);
        assert(!is_pending(h[h.len() - 1]));
    }
}

/// Completion leaves everything that was recorded when the call was made
/// as it is: identifier, code, room, bed, display, both creation times
/// and the date added.
pub proof fn lemma_completion_keeps_what_was_recorded(r: CallRecordView, stamp: StampView)
    ensures
        completed_at(r, stamp).id == r.id,
        completed_at(r, stamp).code == r.code,
        completed_at(r, stamp).room == r.room,
        completed_at(r, stamp).bed == r.bed,
        completed_at(r, stamp).display == r.display,
        completed_at(r, stamp).time == r.time,
        completed_at(r, stamp).timestamp == r.timestamp,
        completed_at(r, stamp).date_added == r.date_added,
{
}

/// Completing the most recent wanted record changes that record alone,
/// and in it only status, reset times and modification date.
pub proof fn lemma_completion_touches_one_record(
    h: Seq<CallRecordView>,
    code: Option<Seq<char>>,
    stamp: StampView,
)
    ensures
        complete_latest(h, code, stamp).len() == h.len(),
        latest_wanted(h, code) is None ==> complete_latest(h, code, stamp) == h,
        latest_wanted(h, code) matches Some(at) ==> {
            &&& 0 <= at < h.len()
            &&& is_wanted(h[at], code)
            &&& forall|j: int| at < j < h.len() ==> !is_wanted(#[trigger] h[j], code)
            &&& complete_latest(h, code, stamp)[at] == completed_at(h[at], stamp)
            &&& complete_latest(h, code, stamp)[at].status == Status::Completed
            &&& forall|j: int|
                0 <= j < h.len() && j != at ==> #[trigger] complete_latest(h, code, stamp)[j]
                    == h[j]
        },
{
    lemma_latest_wanted_found(h, code);
    match latest_wanted(h, code) {
        Some(at) => {
            assert forall|j: int| at < j < h.len() implies !is_wanted(#[trigger] h[j], code) by {
                if is_wanted(h[j], code) {
                    assert(j <= at);
                }
            }
        },
        None => {},
    }
}

/// If no station has two outstanding calls, none has after a call is
/// recorded or discarded.
pub proof fn lemma_call_keeps_one_per_station(
    h: Seq<CallRecordView>,
    directory: MasterDirectoryView,
    code: Seq<char>,
    adc: int,
    stamp: StampView,
)
    requires
        one_call_per_station(h),
    ensures
        one_call_per_station(append_active(h, directory, code, adc, stamp)),
{
    let after = append_active(h, directory, code, adc, stamp);
    if append_outcome(h, directory, code, adc) is Created {
        lemma_latest_wanted_found(h, Some(code));
        assert forall|i: int, j: int|
            0 <= i < j < after.len() && is_pending(#[trigger] after[i]) && is_pending(
                #[trigger] after[j],
            ) implies after[i].code != after[j].code by {
            assert(after[i] == h[i]);
            if j < h.len() {
                assert(after[j] == h[j]);
            } else {
                if h[i].code == code {
                    assert(is_wanted(h[i], Some(code)));
                }
            }
        }
    }
}

/// If no station has two outstanding calls, none has after calls are
/// completed, be it one or all.
pub proof fn lemma_completion_keeps_one_per_station(
    h: Seq<CallRecordView>,
    code: Option<Seq<char>>,
    stamp: StampView,
)
    requires
        one_call_per_station(h),
    ensures
        one_call_per_station(complete_latest(h, code, stamp)),
        one_call_per_station(complete_all(h, stamp)),
{
    lemma_completion_touches_one_record(h, code, stamp);
    let one = complete_latest(h, code, stamp);
    assert forall|i: int, j: int|
        0 <= i < j < one.len() && is_pending(#[trigger] one[i]) && is_pending(
            #[trigger] one[j],
        ) implies one[i].code != one[j].code by {
        assert(is_pending(h[i]) && is_pending(h[j]));
        assert(one[i].code == h[i].code && one[j].code == h[j].code);
    }
}

} // verus!

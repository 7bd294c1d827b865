//! The call history: an ordered list of call records that only grows.
//! A call is appended as active and later completed; nothing is ever
//! removed. Of two operations on one history the caller runs one at a
//! time.

use vstd::prelude::*;
use crate::clock::{Stamp, StampView};
use crate::master::{display_for, display_text, locate, threshold_for, LocationView, MasterDirectory, MasterDirectoryView};
use crate::text::{optional_text, texts};

verus! {

/// Whether a call is still outstanding.
#[derive(Clone, Copy, Debug, PartialEq, Eq, Structural)]
pub enum Status {
    Active,
    Completed,
}

/// One call, outstanding or resolved.
#[derive(Clone, Debug, PartialEq, Eq)]
pub struct CallRecord {
    /// Creation time in milliseconds since the epoch.
    pub id: i64,
    pub code: String,
    pub room: String,
    pub bed: String,
    pub display: String,
    pub status: Status,
    /// Creation time, local and compact.
    pub time: String,
    /// Creation time, ISO-8601.
    pub timestamp: String,
    /// Completion time, ISO-8601; set on completion only.
    pub reset_time: Option<String>,
    /// Completion time, local and compact; set on completion only.
    pub reset_time_str: Option<String>,
    pub date_added: String,
    pub date_modified: String,
}

/// The mathematical content of a `CallRecord`.
pub struct CallRecordView {
    pub id: int,
    pub code: Seq<char>,
    pub room: Seq<char>,
    pub bed: Seq<char>,
    pub display: Seq<char>,
    pub status: Status,
    pub time: Seq<char>,
    pub timestamp: Seq<char>,
    pub reset_time: Option<Seq<char>>,
    pub reset_time_str: Option<Seq<char>>,
    pub date_added: Seq<char>,
    pub date_modified: Seq<char>,
}

impl View for CallRecord {
    type V = CallRecordView;

    open spec fn view(&self) -> CallRecordView {
        CallRecordView {
            id: self.id as int,
            code: self.code@,
            room: self.room@,
            bed: self.bed@,
            display: self.display@,
            status: self.status,
            time: self.time@,
            timestamp: self.timestamp@,
            reset_time: optional_text(self.reset_time),
            reset_time_str: optional_text(self.reset_time_str),
            date_added: self.date_added@,
            date_modified: self.date_modified@,
        }
    }
}

/// The views of a run of records, in order.
pub open spec fn record_views(records: Seq<CallRecord>) -> Seq<CallRecordView> {
    records.map_values(|r: CallRecord| r@)
}

/// The history of calls, oldest first.
#[derive(Clone, Debug, PartialEq, Eq)]
pub struct CallHistory {
    pub records: Vec<CallRecord>,
}

impl View for CallHistory {
    type V = Seq<CallRecordView>;

    open spec fn view(&self) -> Seq<CallRecordView> {
        record_views(self.records@)
    }
}

/// Which call: its device code and where the device is.
#[derive(Clone, Debug, PartialEq, Eq)]
pub struct CallSite {
    pub code: String,
    pub room: String,
    pub bed: String,
}

/// The mathematical content of a `CallSite`.
pub struct CallSiteView {
    pub code: Seq<char>,
    pub room: Seq<char>,
    pub bed: Seq<char>,
}

impl View for CallSite {
    type V = CallSiteView;

    open spec fn view(&self) -> CallSiteView {
        CallSiteView { code: self.code@, room: self.room@, bed: self.bed@ }
    }
}

/// The views of a run of call sites, in order.
pub open spec fn site_views(sites: Seq<CallSite>) -> Seq<CallSiteView> {
    sites.map_values(|s: CallSite| s@)
}

/// What a new call announces to whoever shows or sounds it.
#[derive(Clone, Debug, PartialEq, Eq)]
pub struct CallNotice {
    pub code: String,
    pub room: String,
    pub bed: String,
    pub display: String,
    pub files: Vec<String>,
}

/// The mathematical content of a `CallNotice`.
pub struct CallNoticeView {
    pub code: Seq<char>,
    pub room: Seq<char>,
    pub bed: Seq<char>,
    pub display: Seq<char>,
    pub files: Seq<Seq<char>>,
}

impl View for CallNotice {
    type V = CallNoticeView;

    open spec fn view(&self) -> CallNoticeView {
        CallNoticeView {
            code: self.code@,
            room: self.room@,
            bed: self.bed@,
            display: self.display@,
            files: texts(self.files@),
        }
    }
}

/// How an attempt to record a call ended.
#[derive(Clone, Debug, PartialEq, Eq)]
pub enum AppendOutcome {
    /// The measurement was under the panel's threshold.
    BelowThreshold,
    /// The station already has an outstanding call.
    AlreadyActive,
    /// A record was appended.
    Created(CallNotice),
}

/// The mathematical content of an `AppendOutcome`.
pub enum AppendOutcomeView {
    BelowThreshold,
    AlreadyActive,
    Created(CallNoticeView),
}

impl View for AppendOutcome {
    type V = AppendOutcomeView;

    open spec fn view(&self) -> AppendOutcomeView {
        match self {
            AppendOutcome::BelowThreshold => AppendOutcomeView::BelowThreshold,
            AppendOutcome::AlreadyActive => AppendOutcomeView::AlreadyActive,
            AppendOutcome::Created(notice) => AppendOutcomeView::Created(notice@),
        }
    }
}

/// There was no outstanding call to complete.
#[derive(Clone, Copy, Debug, PartialEq, Eq, Structural)]
pub enum EncloseError {
    NoPendingCalls,
}

impl EncloseError {
    /// The error in words.
    pub fn message(&self) -> (text: String)
        ensures
            text@ == "no pending calls"@,
    {
        "no pending calls".to_owned()
    }
}

/// A record counts as outstanding until it is completed.
pub open spec fn is_pending(r: CallRecordView) -> bool {
    r.status != Status::Completed
}

/// An outstanding record of station `code`, or of any station when no
/// code is given.
pub open spec fn is_wanted(r: CallRecordView, code: Option<Seq<char>>) -> bool {
    is_pending(r) && (code matches Some(c) ==> r.code == c)
}

/// Position of the most recent wanted record.
pub open spec fn latest_wanted(h: Seq<CallRecordView>, code: Option<Seq<char>>) -> Option<int>
    decreases h.len(),
{
    if h.len() == 0 {
        None
    } else if is_wanted(h.last(), code) {
        Some(h.len() - 1)
    } else {
        latest_wanted(h.drop_last(), code)
    }
}

/// Station `code` has an outstanding call.
pub open spec fn has_pending(h: Seq<CallRecordView>, code: Seq<char>) -> bool {
    latest_wanted(h, Some(code)).is_some()
}

/// No station has two outstanding calls.
pub open spec fn one_call_per_station(h: Seq<CallRecordView>) -> bool {
    forall|i: int, j: int|
        0 <= i < j < h.len() && is_pending(#[trigger] h[i]) && is_pending(#[trigger] h[j])
            ==> h[i].code != h[j].code
}

/// The record as it is once completed at `stamp`: status, both reset
/// times and the modification date change, nothing else does.
pub open spec fn completed_at(r: CallRecordView, stamp: StampView) -> CallRecordView {
    CallRecordView {
        status: Status::Completed,
        reset_time: Some(stamp.iso),
        reset_time_str: Some(stamp.local),
        date_modified: stamp.iso,
        ..r
    }
}

/// The history after the most recent wanted record, if any, is completed.
pub open spec fn complete_latest(
    h: Seq<CallRecordView>,
    code: Option<Seq<char>>,
    stamp: StampView,
) -> Seq<CallRecordView> {
    match latest_wanted(h, code) {
        Some(i) => h.update(i, completed_at(h[i], stamp)),
        None => h,
    }
}

/// The call site of the most recent wanted record.
pub open spec fn latest_site(h: Seq<CallRecordView>, code: Option<Seq<char>>) -> Option<
    CallSiteView,
> {
    match latest_wanted(h, code) {
        Some(i) => Some(site_of(h[i])),
        None => None,
    }
}

/// The call site of a record.
pub open spec fn site_of(r: CallRecordView) -> CallSiteView {
    CallSiteView { code: r.code, room: r.room, bed: r.bed }
}

/// The history after every outstanding record is completed.
pub open spec fn complete_all(h: Seq<CallRecordView>, stamp: StampView) -> Seq<CallRecordView> {
    h.map_values(
        |r: CallRecordView|
            if is_pending(r) {
                completed_at(r, stamp)
            } else {
                r
            },
    )
}

/// The outstanding records, in their order.
pub open spec fn pending_records(h: Seq<CallRecordView>) -> Seq<CallRecordView> {
    h.filter(|r: CallRecordView| is_pending(r))
}

/// The call sites of the outstanding records, in their order.
pub open spec fn pending_sites(h: Seq<CallRecordView>) -> Seq<CallSiteView> {
    pending_records(h).map_values(|r: CallRecordView| site_of(r))
}

/// The record of a call of station `code` made at `stamp`.
pub open spec fn new_record(code: Seq<char>, location: LocationView, stamp: StampView)
    -> CallRecordView {
    CallRecordView {
        id: stamp.millis,
        code: code,
        room: location.room,
        bed: location.bed,
        display: display_for(location.room, location.bed, code),
        status: Status::Active,
        time: stamp.local,
        timestamp: stamp.iso,
        reset_time: None,
        reset_time_str: None,
        date_added: stamp.iso,
        date_modified: stamp.iso,
    }
}

/// What a call of station `code` announces.
pub open spec fn notice_for(code: Seq<char>, location: LocationView) -> CallNoticeView {
    CallNoticeView {
        code: code,
        room: location.room,
        bed: location.bed,
        display: display_for(location.room, location.bed, code),
        files: location.files,
    }
}

/// How recording a call of station `code` with measurement `adc` ends:
/// discarded under the threshold, a no-op while the station has an
/// outstanding call, and a new record otherwise.
pub open spec fn append_outcome(
    h: Seq<CallRecordView>,
    directory: MasterDirectoryView,
    code: Seq<char>,
    adc: int,
) -> AppendOutcomeView {
    if adc < threshold_for(directory.master_type) {
        AppendOutcomeView::BelowThreshold
    } else if has_pending(h, code) {
        AppendOutcomeView::AlreadyActive
    } else {
        AppendOutcomeView::Created(notice_for(code, locate(directory, code)))
    }
}

/// The history after the attempt of `append_outcome`.
pub open spec fn append_active(
    h: Seq<CallRecordView>,
    directory: MasterDirectoryView,
    code: Seq<char>,
    adc: int,
    stamp: StampView,
) -> Seq<CallRecordView> {
    if append_outcome(h, directory, code, adc) is Created {
        h.push(new_record(code, locate(directory, code), stamp))
    } else {
        h
    }
}

/// `latest_wanted` is the one position that holds a wanted record with
/// none after it.
pub proof fn lemma_latest_wanted(h: Seq<CallRecordView>, code: Option<Seq<char>>, k: int)
    requires
        -1 <= k < h.len(),
        k >= 0 ==> is_wanted(h[k], code),
        forall|j: int| k < j < h.len() ==> !is_wanted(#[trigger] h[j], code),
    ensures
        latest_wanted(h, code) == if k >= 0 {
            Some(k)
        } else {
            None
        },
    decreases h.len(),
{
    if h.len() == 0 {
    } else if is_wanted(h.last(), code) {
        if k < h.len() - 1 {
            assert(!is_wanted(h[h.len() - 1], code));
        }
    } else {
        let front = h.drop_last();
        assert forall|j: int| k < j < front.len() implies !is_wanted(#[trigger] front[j], code) by {
            assert(front[j] == h[j]);
        }
        if k >= 0 {
            assert(front[k] == h[k]);
        }
        lemma_latest_wanted(front, code, k);
    }
}

/// What `latest_wanted` finds is in range and wanted, and nothing after
/// it is; when it finds nothing, nothing is wanted.
pub proof fn lemma_latest_wanted_found(h: Seq<CallRecordView>, code: Option<Seq<char>>)
    ensures
        latest_wanted(h, code) matches Some(i) ==> 0 <= i < h.len() && is_wanted(h[i], code),
        forall|j: int|
            0 <= j < h.len() && is_wanted(#[trigger] h[j], code) ==> {
                &&& latest_wanted(h, code) matches Some(i)
                &&& j <= i
            },
    decreases h.len(),
{
    if h.len() == 0 {
    } else if is_wanted(h.last(), code) {
    } else {
        let front = h.drop_last();
        lemma_latest_wanted_found(front, code);
        assert forall|j: int| 0 <= j < h.len() && is_wanted(#[trigger] h[j], code) implies {
            &&& latest_wanted(h, code) matches Some(i)
            &&& j <= i
        } by {
            assert(j < h.len() - 1);
            assert(front[j] == h[j]);
        }
    }
}

impl CallHistory {
    /// A history without a record.
    pub fn new() -> (history: CallHistory)
        ensures
            history@ == Seq::<CallRecordView>::empty(),
    {
        let history = CallHistory { records: Vec::new() };
        assert(history@ =~= Seq::<CallRecordView>::empty());
        history
    }

    /// Position of the most recent outstanding record of station `code`,
    /// or of any station when no code is given.
    pub fn find_latest(&self, code: Option<&String>) -> (at: Option<usize>)
        ensures
            match at {
                Some(i) => latest_wanted(self@, optional_ref_text(code)) == Some(i as int) && i
                    < self.records@.len(),
                None => latest_wanted(self@, optional_ref_text(code)) is None,
            },
    {
        let ghost wanted = optional_ref_text(code);
        let mut i: usize = self.records.len();
        while i > 0
            invariant
                i <= self.records@.len(),
                wanted == optional_ref_text(code),
                forall|j: int| i <= j < self@.len() ==> !is_wanted(#[trigger] self@[j], wanted),
            decreases i,
        {
            i = i - 1;
            let record = &self.records[i];
            let pending = match record.status {
                Status::Completed => false,
                Status::Active => true,
            };
            let matches = match code {
                Some(c) => record.code == *c,
                None => true,
            };
            assert(self@[i as int] == record@);
            if pending && matches {
                proof {
                    lemma_latest_wanted(self@, wanted, i as int);
                }
                return Some(i);
            }
        }
        proof {
            lemma_latest_wanted(self@, wanted, -1);
        }
        None
    }

    /// Whether station `code` has an outstanding call.
    pub fn has_active(&self, code: &str) -> (active: bool)
        ensures
            active == has_pending(self@, code@),
    {
        let wanted = code.to_owned();
        self.find_latest(Some(&wanted)).is_some()
    }

    /// Completes the record at `at`.
    fn complete_record(&mut self, at: usize, stamp: &Stamp) -> (site: CallSite)
        requires
            at < old(self).records@.len(),
        ensures
            final(self)@ == old(self)@.update(at as int, completed_at(old(self)@[at as int], stamp@)),
            site@ == site_of(old(self)@[at as int]),
    {
        let record = &mut self.records[at];
        record.status = Status::Completed;
        record.reset_time = Some(stamp.iso.clone());
        record.reset_time_str = Some(stamp.local.clone());
        record.date_modified = stamp.iso.clone();
        let site = CallSite {
            code: record.code.clone(),
            room: record.room.clone(),
            bed: record.bed.clone(),
        };
        assert(final(self)@ =~= old(self)@.update(
            at as int,
            completed_at(old(self)@[at as int], stamp@),
        ));
        site
    }

    /// Completes the most recent outstanding record of station `code` and
    /// tells where that station is. Without such a record nothing changes
    /// and nothing is returned.
    pub fn complete_latest_for_code_at(&mut self, code: &str, stamp: &Stamp) -> (site: Option<
        CallSite,
    >)
        ensures
            final(self)@ == complete_latest(old(self)@, Some(code@), stamp@),
            optional_site(site) == latest_site(old(self)@, Some(code@)),
    {
        let wanted = code.to_owned();
        match self.find_latest(Some(&wanted)) {
            Some(at) => Some(self.complete_record(at, stamp)),
            None => None,
        }
    }

    /// `complete_latest_for_code_at` at the time the system clock shows.
    pub fn complete_latest_for_code(&mut self, code: &str) -> (site: Option<CallSite>)
        ensures
            optional_site(site) == latest_site(old(self)@, Some(code@)),
            exists|stamp: StampView|
                stamp.iso.len() > 0 && final(self)@ == #[trigger] complete_latest(
                    old(self)@,
                    Some(code@),
                    stamp,
                ),
    {
        let stamp = Stamp::now();
        let site = self.complete_latest_for_code_at(code, &stamp);
        assert(final(self)@ == complete_latest(old(self)@, Some(code@), stamp@));
        site
    }

    /// Completes the most recent outstanding record of any station and
    /// tells which call that was. Fails when no call is outstanding.
    pub fn complete_latest_any_at(&mut self, stamp: &Stamp) -> (site: Result<
        CallSite,
        EncloseError,
    >)
        ensures
            final(self)@ == complete_latest(old(self)@, None, stamp@),
            match site {
                Ok(s) => latest_site(old(self)@, None) == Some(s@),
                Err(e) => latest_site(old(self)@, None) is None && e == EncloseError::NoPendingCalls,
            },
    {
        match self.find_latest(None) {
            Some(at) => Ok(self.complete_record(at, stamp)),
            None => Err(EncloseError::NoPendingCalls),
        }
    }

    /// `complete_latest_any_at` at the time the system clock shows.
    pub fn complete_latest_any(&mut self) -> (site: Result<CallSite, EncloseError>)
        ensures
            match site {
                Ok(s) => latest_site(old(self)@, None) == Some(s@),
                Err(e) => latest_site(old(self)@, None) is None && e == EncloseError::NoPendingCalls,
            },
            exists|stamp: StampView|
                stamp.iso.len() > 0 && final(self)@ == #[trigger] complete_latest(
                    old(self)@,
                    None,
                    stamp,
                ),
    {
        let stamp = Stamp::now();
        let site = self.complete_latest_any_at(&stamp);
        assert(final(self)@ == complete_latest(old(self)@, None, stamp@));
        site
    }

    /// Completes every outstanding record and tells which calls those
    /// were, oldest first.
    pub fn complete_all_pending_at(&mut self, stamp: &Stamp) -> (sites: Vec<CallSite>)
        ensures
            final(self)@ == complete_all(old(self)@, stamp@),
            site_views(sites@) == pending_sites(old(self)@),
    {
        let n = self.records.len();
        let mut sites: Vec<CallSite> = Vec::new();
        let mut i: usize = 0;
        proof {
            reveal(Seq::filter);
            assert(old(self)@.take(0) =~= Seq::<CallRecordView>::empty());
            assert(site_views(sites@) =~= pending_sites(old(self)@.take(0)));
        }
        while i < n
            invariant
                n == old(self)@.len(),
                self@.len() == n,
                i <= n,
                forall|j: int| 0 <= j < i ==> self@[j] == #[trigger] complete_all(old(self)@, stamp@)[j],
                forall|j: int| i <= j < n ==> #[trigger] self@[j] == old(self)@[j],
                site_views(sites@) == pending_sites(old(self)@.take(i as int)),
            decreases n - i,
        {
            let pending = match self.records[i].status {
                Status::Completed => false,
                Status::Active => true,
            };
            let ghost before = self@;
            let ghost earlier = site_views(sites@);
            assert(before[i as int] == old(self)@[i as int]);
            proof {
                reveal(Seq::filter);
                let longer = old(self)@.take(i + 1);
                assert(longer.drop_last() =~= old(self)@.take(i as int));
                assert(longer.last() == old(self)@[i as int]);
                if pending {
                    assert(pending_sites(longer) =~= pending_sites(old(self)@.take(i as int)).push(
                        site_of(old(self)@[i as int]),
                    ));
                } else {
                    assert(pending_sites(longer) =~= pending_sites(old(self)@.take(i as int)));
                }
            }
            if pending {
                let site = self.complete_record(i, stamp);
                sites.push(site);
                assert(site_views(sites@) =~= earlier.push(site@));
            }
            i = i + 1;
        }
        assert(old(self)@.take(n as int) =~= old(self)@);
        assert(self@ =~= complete_all(old(self)@, stamp@));
        sites
    }

    /// `complete_all_pending_at` at the time the system clock shows.
    pub fn complete_all_pending(&mut self) -> (sites: Vec<CallSite>)
        ensures
            site_views(sites@) == pending_sites(old(self)@),
            exists|stamp: StampView|
                stamp.iso.len() > 0 && final(self)@ == #[trigger] complete_all(old(self)@, stamp),
    {
        let stamp = Stamp::now();
        let sites = self.complete_all_pending_at(&stamp);
        assert(final(self)@ == complete_all(old(self)@, stamp@));
        sites
    }

    /// Records a call of station `code` with measurement `adc`, made at
    /// `stamp`, unless the measurement is under the panel's threshold or
    /// the station has an outstanding call already.
    pub fn append_active_at(
        &mut self,
        directory: &MasterDirectory,
        code: &str,
        adc: i32,
        stamp: &Stamp,
    ) -> (outcome: AppendOutcome)
        ensures
            outcome@ == append_outcome(old(self)@, directory@, code@, adc as int),
            final(self)@ == append_active(old(self)@, directory@, code@, adc as int, stamp@),
    {
        if adc < directory.threshold() {
            return AppendOutcome::BelowThreshold;
        }
        if self.has_active(code) {
            return AppendOutcome::AlreadyActive;
        }
        let location = directory.resolve(code);
        let display = display_text(location.room.as_str(), location.bed.as_str(), code);
        let record = CallRecord {
            id: stamp.millis,
            code: code.to_owned(),
            room: location.room.clone(),
            bed: location.bed.clone(),
            display: display.clone(),
            status: Status::Active,
            time: stamp.local.clone(),
            timestamp: stamp.iso.clone(),
            reset_time: None,
            reset_time_str: None,
            date_added: stamp.iso.clone(),
            date_modified: stamp.iso.clone(),
        };
        assert(record@ == new_record(code@, locate(directory@, code@), stamp@));
        self.records.push(record);
        assert(self@ =~= old(self)@.push(new_record(code@, locate(directory@, code@), stamp@)));
        AppendOutcome::Created(
            CallNotice {
                code: code.to_owned(),
                room: location.room,
                bed: location.bed,
                display,
                files: location.files,
            },
        )
    }

    /// `append_active_at` at the time the system clock shows.
    pub fn append_active(&mut self, directory: &MasterDirectory, code: &str, adc: i32) -> (outcome:
        AppendOutcome)
        ensures
            outcome@ == append_outcome(old(self)@, directory@, code@, adc as int),
            exists|stamp: StampView|
                stamp.iso.len() > 0 && final(self)@ == #[trigger] append_active(
                    old(self)@,
                    directory@,
                    code@,
                    adc as int,
                    stamp,
                ),
    {
        let stamp = Stamp::now();
        let outcome = self.append_active_at(directory, code, adc, &stamp);
        assert(final(self)@ == append_active(old(self)@, directory@, code@, adc as int, stamp@));
        outcome
    }
}

/// The text behind an optional reference to a string.
pub open spec fn optional_ref_text(s: Option<&String>) -> Option<Seq<char>> {
    match s {
        Some(t) => Some(t@),
        None => None,
    }
}

/// The view of an optional call site.
pub open spec fn optional_site(s: Option<CallSite>) -> Option<CallSiteView> {
    match s {
        Some(t) => Some(t@),
        None => None,
    }
}

} // verus!

//! The moment at which something happens, as the call history records it.
//! Every operation that stamps a record comes in two forms: one that takes
//! the stamp as an argument and is specified exactly, and one that reads
//! the system clock itself.

use vstd::prelude::*;

verus! {

/// One reading of the clock, in the three renderings the history keeps.
#[derive(Clone, Debug, PartialEq, Eq)]
pub struct Stamp {
    /// Milliseconds since the Unix epoch.
    pub millis: i64,
    /// ISO-8601 in UTC, to the second.
    pub iso: String,
    /// Local time in the compact form `hour:minute:second.month-day-year`.
    pub local: String,
}

/// The mathematical content of a `Stamp`.
pub struct StampView {
    pub millis: int,
    pub iso: Seq<char>,
    pub local: Seq<char>,
}

impl View for Stamp {
    type V = StampView;

    open spec fn view(&self) -> StampView {
        StampView { millis: self.millis as int, iso: self.iso@, local: self.local@ }
    }
}

/// `chrono`'s conversion of `SystemTime::now()` to UTC, read off with
/// `DateTime::timestamp_millis`: milliseconds since the Unix epoch by the
/// system clock. Nothing is claimed of the value. The conversion covers
/// every time within some 262,000 years of the epoch, before it or after.
#[verifier::external_body]
pub(crate) fn now_millis() -> i64 {
    chrono::DateTime::<chrono::Utc>::from(std::time::SystemTime::now()).timestamp_millis()
}

/// `chrono`'s `DateTime::to_rfc3339_opts`, to the second and with `Z` for
/// the offset, of the current UTC time. The rendering begins with the
/// year, so it is never empty; nothing else is claimed of it.
#[verifier::external_body]
pub(crate) fn now_iso() -> (s: String)
    ensures
        s@.len() > 0,
{
    chrono::DateTime::<chrono::Utc>::from(std::time::SystemTime::now()).to_rfc3339_opts(
        chrono::SecondsFormat::Secs,
        true,
    )
}

/// `chrono`'s `DateTime::format` of the current time in the machine's
/// time zone. Nothing is claimed of the text.
#[verifier::external_body]
pub(crate) fn now_local_compact() -> String {
    chrono::DateTime::<chrono::Local>::from(std::time::SystemTime::now()).format(
        "%H:%M:%S.%-m-%-d-%Y",
    ).to_string()
}

impl Stamp {
    /// Reads the clock. Whatever the time, the ISO rendering is not empty.
    pub fn now() -> (stamp: Stamp)
        ensures
            stamp@.iso.len() > 0,
    {
        let iso = now_iso();
        Stamp { millis: now_millis(), iso, local: now_local_compact() }
    }

    /// The reading as a count of milliseconds for debouncing, with times
    /// before the epoch counted as the epoch itself.
    pub open spec fn epoch_millis(millis: int) -> nat {
        if millis < 0 {
            0
        } else {
            millis as nat
        }
    }

    /// Milliseconds since the epoch as an unsigned number.
    pub fn unsigned_millis(&self) -> (ms: u128)
        ensures
            ms == Self::epoch_millis(self@.millis),
    {
        if self.millis < 0 {
            0
        } else {
            self.millis as u128
        }
    }
}

} // verus!

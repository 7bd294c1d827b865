//! Bridge between a nurse-call panel on a serial line and the application
//! that tracks outstanding calls: protocol decoding, per-connection call
//! tracking, the call-history ledger and the debounce of outward events.

pub mod bridge;
pub mod clock;
pub mod decoder;
pub mod history;
pub mod host;
pub mod laws;
pub mod ledger;
pub mod link;
pub mod master;
pub mod text;
pub mod tracker;

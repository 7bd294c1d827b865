//! Debouncing of outward events: an event under some key is let through
//! only if none under the same key was let through within the window.

use vstd::prelude::*;
use crate::clock::Stamp;

verus! {

/// When each key was last let through, in milliseconds since the epoch.
/// One ledger serves a whole bridge; whoever shares it between threads
/// guards it with a lock.
#[derive(Debug)]
pub struct DebounceLedger {
    entries: Vec<(String, u128)>,
}

/// The map that a list of entries stands for; of two entries under one
/// key the later counts.
pub closed spec fn entries_map(entries: Seq<(String, u128)>) -> Map<Seq<char>, nat>
    decreases entries.len(),
{
    if entries.len() == 0 {
        Map::empty()
    } else {
        entries_map(entries.drop_last()).insert(entries.last().0@, entries.last().1 as nat)
    }
}

impl View for DebounceLedger {
    type V = Map<Seq<char>, nat>;

    closed spec fn view(&self) -> Map<Seq<char>, nat> {
        entries_map(self.entries@)
    }
}

/// Milliseconds from `last` to `now`, zero if the clock went backwards.
pub open spec fn elapsed(last: nat, now: nat) -> nat {
    if now >= last {
        (now - last) as nat
    } else {
        0
    }
}

/// Whether an event under `key` at time `now` is held back: the key was
/// let through less than `window_ms` milliseconds ago.
pub open spec fn suppressed(
    ledger: Map<Seq<char>, nat>,
    key: Seq<char>,
    window_ms: nat,
    now: nat,
) -> bool {
    ledger.contains_key(key) && elapsed(ledger[key], now) < window_ms
}

/// The ledger after an event under `key` asked to pass at time `now`.
pub open spec fn after_request(
    ledger: Map<Seq<char>, nat>,
    key: Seq<char>,
    window_ms: nat,
    now: nat,
) -> Map<Seq<char>, nat> {
    if suppressed(ledger, key, window_ms, now) {
        ledger
    } else {
        ledger.insert(key, now)
    }
}

proof fn lemma_entries_without(entries: Seq<(String, u128)>, key: Seq<char>)
    requires
        forall|j: int| 0 <= j < entries.len() ==> (#[trigger] entries[j]).0@ != key,
    ensures
        !entries_map(entries).contains_key(key),
    decreases entries.len(),
{
    if entries.len() > 0 {
        let front = entries.drop_last();
        assert forall|j: int| 0 <= j < front.len() implies (#[trigger] front[j]).0@ != key by {
            assert(front[j] == entries[j]);
        }
        lemma_entries_without(front, key);
        assert(entries.last() == entries[entries.len() - 1]);
    }
}

proof fn lemma_entries_latest(entries: Seq<(String, u128)>, key: Seq<char>, i: int)
    requires
        0 <= i < entries.len(),
        entries[i].0@ == key,
        forall|j: int| i < j < entries.len() ==> (#[trigger] entries[j]).0@ != key,
    ensures
        entries_map(entries).contains_key(key),
        entries_map(entries)[key] == entries[i].1,
    decreases entries.len(),
{
    let front = entries.drop_last();
    if i < entries.len() - 1 {
        assert forall|j: int| i < j < front.len() implies (#[trigger] front[j]).0@ != key by {
            assert(front[j] == entries[j]);
        }
        assert(front[i] == entries[i]);
        lemma_entries_latest(front, key, i);
        assert(entries.last() == entries[entries.len() - 1]);
    }
}

proof fn lemma_entries_replaced(
    entries: Seq<(String, u128)>,
    key: Seq<char>,
    i: int,
    entry: (String, u128),
)
    requires
        0 <= i < entries.len(),
        entries[i].0@ == key,
        entry.0@ == key,
        forall|j: int| i < j < entries.len() ==> (#[trigger] entries[j]).0@ != key,
    ensures
        entries_map(entries.update(i, entry)) == entries_map(entries).insert(key, entry.1 as nat),
    decreases entries.len(),
{
    let front = entries.drop_last();
    let changed = entries.update(i, entry);
    if i < entries.len() - 1 {
        assert forall|j: int| i < j < front.len() implies (#[trigger] front[j]).0@ != key by {
            assert(front[j] == entries[j]);
        }
        assert(front[i] == entries[i]);
        lemma_entries_replaced(front, key, i, entry);
        assert(changed.drop_last() =~= front.update(i, entry));
        assert(changed.last() == entries.last());
        assert(entries.last() == entries[entries.len() - 1]);
        assert(entries_map(changed) =~= entries_map(entries).insert(key, entry.1 as nat));
    } else {
        assert(changed.drop_last() =~= front);
        assert(entries_map(changed) =~= entries_map(entries).insert(key, entry.1 as nat));
    }
}

impl DebounceLedger {
    /// A ledger that has let nothing through yet.
    pub fn new() -> (ledger: DebounceLedger)
        ensures
            ledger@ == Map::<Seq<char>, nat>::empty(),
    {
        DebounceLedger { entries: Vec::new() }
    }

    /// When `key` was last let through, if ever.
    pub fn last_accepted(&self, key: &str) -> (last: Option<u128>)
        ensures
            last.is_some() == self@.contains_key(key@),
            last matches Some(t) ==> self@[key@] == t,
    {
        match self.position(key) {
            Some(i) => Some(self.entries[i].1),
            None => None,
        }
    }

    fn position(&self, key: &str) -> (at: Option<usize>)
        ensures
            at.is_some() == self@.contains_key(key@),
            at matches Some(i) ==> {
                &&& i < self.entries@.len()
                &&& self.entries@[i as int].0@ == key@
                &&& self@[key@] == self.entries@[i as int].1
                &&& forall|j: int|
                    i < j < self.entries@.len() ==> (#[trigger] self.entries@[j]).0@ != key@
            },
    {
        let wanted = key.to_owned();
        let mut i: usize = self.entries.len();
        while i > 0
            invariant
                i <= self.entries@.len(),
                wanted@ == key@,
                forall|j: int|
                    i <= j < self.entries@.len() ==> (#[trigger] self.entries@[j]).0@ != key@,
            decreases i,
        {
            i = i - 1;
            if self.entries[i].0 == wanted {
                proof {
                    lemma_entries_latest(self.entries@, key@, i as int);
                }
                return Some(i);
            }
        }
        proof {
            lemma_entries_without(self.entries@, key@);
        }
        None
    }

    /// Asks to let an event under `key` through at time `now`. The answer
    /// is no if the key was let through less than `window_ms` ago;
    /// otherwise it is yes, and `now` becomes the key's time.
    pub fn accept(&mut self, key: &str, window_ms: u128, now: u128) -> (accepted: bool)
        ensures
            accepted == !suppressed(old(self)@, key@, window_ms as nat, now as nat),
            final(self)@ == after_request(old(self)@, key@, window_ms as nat, now as nat),
    {
        match self.position(key) {
            Some(i) => {
                let last = self.entries[i].1;
                let since = if now >= last {
                    now - last
                } else {
                    0
                };
                if since < window_ms {
                    false
                } else {
                    let entry = (key.to_owned(), now);
                    proof {
                        lemma_entries_replaced(self.entries@, key@, i as int, entry);
                    }
                    self.entries.set(i, entry);
                    true
                }
            },
            None => {
                let entry = (key.to_owned(), now);
                self.entries.push(entry);
                assert(self.entries@.drop_last() =~= old(self).entries@);
                true
            },
        }
    }
}

/// Asks to let an event under `key` through now, by the system clock.
/// Whatever the clock reads, the answer and the ledger are those of
/// `DebounceLedger::accept` at that reading.
pub fn should_emit(ledger: &mut DebounceLedger, key: &str, window_ms: u128) -> (emit: bool)
    ensures
        exists|now: nat|
            {
                &&& emit == !suppressed(old(ledger)@, key@, window_ms as nat, now)
                &&& final(ledger)@ == #[trigger] after_request(
                    old(ledger)@,
                    key@,
                    window_ms as nat,
                    now,
                )
            },
{
    let now = Stamp::now().unsigned_millis();
    let emit = ledger.accept(key, window_ms, now);
    assert(final(ledger)@ == after_request(old(ledger)@, key@, window_ms as nat, now as nat));
    emit
}

} // verus!

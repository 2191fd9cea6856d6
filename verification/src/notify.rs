//! Single-slot change notification.
//!
//! Writes signal changes by bumping one version counter — a single dirty
//! slot, not a queue — so any number of writes between two reads coalesce
//! into one pending wakeup. A subscriber holds a cursor; an observation
//! compares it against the counter, reports whether anything changed, and
//! synchronises the cursor. Each subscriber then re-reads the full state,
//! which makes a missed intermediate notification harmless: what it observes
//! is always the state after every signalled write.

use vstd::prelude::*;

verus! {

/// The successor of a version, wrapping at the counter's end.
pub open spec fn next_version(v: u64) -> u64 {
    if v == u64::MAX {
        0
    } else {
        (v + 1) as u64
    }
}

/// The version reached after `n` further notifications.
pub open spec fn version_after(v: u64, n: nat) -> u64
    decreases n,
{
    if n == 0 {
        v
    } else {
        next_version(version_after(v, (n - 1) as nat))
    }
}

/// After up to `u64::MAX` steps the counter has wrapped at most once.
proof fn lemma_version_after_value(v: u64, n: nat)
    requires
        n <= u64::MAX,
    ensures
        version_after(v, n) == v + n || version_after(v, n) + 0x1_0000_0000_0000_0000 == v + n,
    decreases n,
{
    if n > 0 {
        lemma_version_after_value(v, (n - 1) as nat);
    }
}

/// Coalescing wakeup: however many notifications arrive between two
/// observations — at least one, at most the counter's range — the version
/// differs from the cursor of a subscriber that was in sync, so the next
/// observation reports a change exactly once; a subscriber whose cursor is
/// already in sync is not woken again.
pub proof fn lemma_notification_coalescing(v: u64, n: nat)
    requires
        1 <= n <= u64::MAX,
    ensures
        version_after(v, n) != v,
{
    lemma_version_after_value(v, n);
}

/// The writer side: a version counter bumped on every mutating command.
#[derive(Debug)]
pub struct ChangeSignal {
    version: u64,
}

impl ChangeSignal {
    /// The current version.
    pub closed spec fn version_spec(&self) -> u64 {
        self.version
    }

    /// A fresh signal.
    pub fn new() -> (r: ChangeSignal)
        ensures
            r.version_spec() == 0,
    {
        ChangeSignal { version: 0 }
    }

    /// Signal one change: bump the version. Consecutive writes overwrite the
    /// same slot rather than queueing.
    pub fn notify(&mut self)
        ensures
            final(self).version_spec() == next_version(old(self).version_spec()),
    {
        self.version = if self.version == u64::MAX {
            0
        } else {
            self.version + 1
        };
    }

    /// The current version, for a subscriber to compare against.
    pub fn current(&self) -> (r: u64)
        ensures
            r == self.version_spec(),
    {
        self.version
    }
}

/// One subscriber's cursor into a change signal.
#[derive(Debug)]
pub struct ChangeSubscriber {
    last_seen: u64,
}

impl ChangeSubscriber {
    /// The version last observed.
    pub closed spec fn cursor_spec(&self) -> u64 {
        self.last_seen
    }

    /// A subscriber in sync with the signal: nothing pending.
    pub fn new(signal: &ChangeSignal) -> (r: ChangeSubscriber)
        ensures
            r.cursor_spec() == signal.version_spec(),
    {
        ChangeSubscriber { last_seen: signal.current() }
    }

    /// Observe the signal: report whether anything changed since the last
    /// observation, and synchronise the cursor. The caller then reads the
    /// full current state, so every skipped intermediate version is covered
    /// by what it reads now.
    pub fn observe(&mut self, signal: &ChangeSignal) -> (changed: bool)
        ensures
            changed == (old(self).cursor_spec() != signal.version_spec()),
            final(self).cursor_spec() == signal.version_spec(),
    {
        let current = signal.current();
        let changed = self.last_seen != current;
        self.last_seen = current;
        changed
    }
}

} // verus!

//! The balance monitor: a two-state machine (`Idle` / `Pending`, encoded
//! as the `changed` flag) fed by periodic balance observations.
//!
//! The embedding application owns the poll loop and the notification
//! channel; the decisions — when to record a new balance, when to raise
//! the sticky flag, and what a consumer query returns — live here.

use vstd::prelude::*;

verus! {

/// The monitor's whole state: the last recorded balance and the sticky
/// "changed since last consumer query" flag.
#[derive(Clone, Copy, Debug, PartialEq, Eq, Structural)]
pub struct BalanceMonitor {
    pub balance: u64,
    pub changed: bool,
}

/// What one poll tick does: on a differing balance, record it, raise the
/// flag and ask for a notification; otherwise change nothing.
pub open spec fn observe_spec(m: BalanceMonitor, new_balance: u64) -> (BalanceMonitor, bool) {
    if new_balance != m.balance {
        (BalanceMonitor { balance: new_balance, changed: true }, true)
    } else {
        (m, false)
    }
}

/// What a consumer query does: report the flag and the recorded balance,
/// and clear the flag either way.
pub open spec fn check_spec(m: BalanceMonitor) -> (BalanceMonitor, bool, u64) {
    (BalanceMonitor { balance: m.balance, changed: false }, m.changed, m.balance)
}

impl BalanceMonitor {
    /// A monitor starts with balance zero and no pending change.
    pub fn start() -> (m: BalanceMonitor)
        ensures
            m == (BalanceMonitor { balance: 0u64, changed: false }),
    {
        BalanceMonitor { balance: 0, changed: false }
    }

    /// One poll tick with a freshly computed balance. Returns whether a
    /// change notification should be emitted to the listener.
    pub fn observe(&mut self, new_balance: u64) -> (notify: bool)
        ensures
            *final(self) == observe_spec(*old(self), new_balance).0,
            notify == observe_spec(*old(self), new_balance).1,
    {
        if new_balance != self.balance {
            self.balance = new_balance;
            self.changed = true;
            true
        } else {
            false
        }
    }

    /// The consumer query: atomically read and clear the pending flag,
    /// returning it together with the recorded balance.
    pub fn check_changed(&mut self) -> (r: (bool, u64))
        ensures
            *final(self) == check_spec(*old(self)).0,
            r.0 == check_spec(*old(self)).1,
            r.1 == check_spec(*old(self)).2,
    {
        let was = self.changed;
        self.changed = false;
        (was, self.balance)
    }
}

/// Law: consuming the change flag is idempotent. With a change pending,
/// two consumer queries in a row without an intervening balance change
/// return `(true, balance)` and then `(false, balance)`, and the second
/// query leaves the state exactly as the first did.
pub proof fn lemma_check_changed_idempotent(m: BalanceMonitor)
    requires
        m.changed,
    ensures
        ({
            let (m1, c1, b1) = check_spec(m);
            let (m2, c2, b2) = check_spec(m1);
            c1 == true && b1 == m.balance && c2 == false && b2 == m.balance && m2 == m1
        }),
{
}

/// Law: one balance change raises exactly one notification. When the
/// observed balance differs from the recorded one, the first poll tick
/// notifies and records it; a second tick of the same balance neither
/// notifies nor changes the state, and the consumer query then reports
/// `(true, new_balance)`.
pub proof fn lemma_one_notification_per_change(m: BalanceMonitor, b: u64)
    requires
        b != m.balance,
    ensures
        ({
            let (m1, n1) = observe_spec(m, b);
            let (m2, n2) = observe_spec(m1, b);
            n1 == true && m1.balance == b && m1.changed
                && n2 == false && m2 == m1
                && check_spec(m1).1 == true && check_spec(m1).2 == b
        }),
{
}

} // verus!

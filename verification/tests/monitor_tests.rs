use satoshi_wallet::monitor::BalanceMonitor;

#[test]
fn starts_idle_at_zero() {
    let mut m = BalanceMonitor::start();
    let (changed, balance) = m.check_changed();
    assert!(!changed);
    assert_eq!(balance, 0);
}

#[test]
fn one_change_one_notification() {
    // The balance goes from 0 to 50000 between polls: exactly one
    // notification, and the consumer query then reports (true, 50000).
    let mut m = BalanceMonitor::start();
    let notify1 = m.observe(50_000);
    let notify2 = m.observe(50_000);
    assert!(notify1);
    assert!(!notify2);
    let (changed, balance) = m.check_changed();
    assert!(changed);
    assert_eq!(balance, 50_000);
}

#[test]
fn check_changed_consumes_the_flag() {
    // Two consumer queries in a row without an intervening change return
    // (true, balance) then (false, balance).
    let mut m = BalanceMonitor::start();
    m.observe(70_000);
    let (c1, b1) = m.check_changed();
    let (c2, b2) = m.check_changed();
    assert!(c1);
    assert_eq!(b1, 70_000);
    assert!(!c2);
    assert_eq!(b2, 70_000);
}

#[test]
fn equal_balance_does_not_notify() {
    let mut m = BalanceMonitor::start();
    assert!(!m.observe(0));
    let (changed, balance) = m.check_changed();
    assert!(!changed);
    assert_eq!(balance, 0);
}

#[test]
fn flag_stays_pending_until_consumed() {
    let mut m = BalanceMonitor::start();
    m.observe(10);
    m.observe(20);
    let (changed, balance) = m.check_changed();
    assert!(changed);
    assert_eq!(balance, 20);
    let (changed2, _) = m.check_changed();
    assert!(!changed2);
}

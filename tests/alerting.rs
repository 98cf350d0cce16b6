use cpu_watcher::engine::{Delivery, ProcessSample, Settings, Verdict, Watcher};
use cpu_watcher::percent::Percent;
use cpu_watcher::table::AlertTable;

/// The exact parts of a non-negative, finite float.
fn pct(x: f32) -> Percent {
    let bits = x.to_bits();
    let exp = (bits >> 23) & 0xff;
    let frac = bits & 0x7f_ffff;
    let (m, e) = if exp == 0 { (frac, -149) } else { (frac | 0x80_0000, exp as i32 - 150) };
    Percent::from_parts(m, e).unwrap()
}

const T0: u64 = 1_700_000_000;

fn settings() -> Settings {
    Settings { threshold: pct(50.0), cooldown_secs: 600 }
}

fn sample(pid: u64, cpu: f32) -> ProcessSample {
    ProcessSample { pid, name: format!("proc{}", pid), cpu: pct(cpu), start_secs: 0 }
}

#[test]
fn scenario_cooldown_then_realert() {
    let mut w = Watcher::new(settings());
    let tick1 = vec![sample(100, 75.0)];
    assert_eq!(w.next_due(&tick1, 0, T0), Some(0));
    w.report(100, T0, Delivery::Delivered);
    assert_eq!(w.next_due(&tick1, 1, T0), None);
    w.end_tick(T0);
    assert_eq!(w.table.len(), 1);
    assert_eq!(w.table.last_alert(100), Some(T0));

    let tick2 = vec![sample(100, 80.0)];
    assert_eq!(w.next_due(&tick2, 0, T0 + 5), None);
    w.end_tick(T0 + 5);
    assert_eq!(w.table.last_alert(100), Some(T0));

    let tick_n = vec![sample(100, 60.0)];
    assert_eq!(w.next_due(&tick_n, 0, T0 + 601), Some(0));
    w.report(100, T0 + 601, Delivery::Delivered);
    w.end_tick(T0 + 601);
    assert_eq!(w.table.len(), 1);
    assert_eq!(w.table.last_alert(100), Some(T0 + 601));
}

#[test]
fn scenario_failed_send_retries_next_tick() {
    let mut w = Watcher::new(settings());
    let tick1 = vec![sample(200, 90.0)];
    assert_eq!(w.next_due(&tick1, 0, T0), Some(0));
    w.report(200, T0, Delivery::Failed);
    w.end_tick(T0);
    assert_eq!(w.table.len(), 0);
    assert_eq!(w.next_due(&tick1, 0, T0 + 1), Some(0));
    w.report(200, T0 + 1, Delivery::Rejected);
    assert_eq!(w.table.len(), 0);
    assert_eq!(w.next_due(&tick1, 0, T0 + 2), Some(0));
}

#[test]
fn scenario_sweep_removes_idle_record() {
    let mut w = Watcher::new(settings());
    w.report(300, T0, Delivery::Delivered);
    w.end_tick(T0 + 2999);
    assert_eq!(w.table.last_alert(300), Some(T0));
    w.end_tick(T0 + 3001);
    assert_eq!(w.table.last_alert(300), None);
    assert_eq!(w.table.len(), 0);
}

#[test]
fn sweep_at_exactly_five_cooldowns() {
    let mut w = Watcher::new(settings());
    w.report(1, T0, Delivery::Delivered);
    w.report(2, T0 + 10, Delivery::Delivered);
    w.end_tick(T0 + 3000);
    assert_eq!(w.table.last_alert(1), None);
    assert_eq!(w.table.last_alert(2), Some(T0 + 10));
    assert_eq!(w.table.len(), 1);
}

#[test]
fn below_threshold_is_quiet() {
    let w = Watcher::new(settings());
    assert_eq!(w.verdict(5, pct(49.99), T0), Verdict::Below);
    assert_eq!(w.verdict(5, pct(0.0), T0), Verdict::Below);
    let tick = vec![sample(5, 49.99), sample(6, 0.1)];
    assert_eq!(w.next_due(&tick, 0, T0), None);
    assert_eq!(w.table.len(), 0);
}

#[test]
fn threshold_is_inclusive() {
    let w = Watcher::new(settings());
    assert_eq!(w.verdict(5, pct(50.0), T0), Verdict::Due);
}

#[test]
fn cooldown_boundary() {
    let mut w = Watcher::new(settings());
    w.report(7, T0, Delivery::Delivered);
    assert_eq!(w.verdict(7, pct(90.0), T0 + 599), Verdict::Cooling);
    assert_eq!(w.verdict(7, pct(90.0), T0 + 600), Verdict::Due);
    assert_eq!(w.verdict(7, pct(1.0), T0 + 599), Verdict::Below);
}

#[test]
fn suppression_counts_from_first_alert() {
    let mut w = Watcher::new(settings());
    w.report(8, T0, Delivery::Delivered);
    for t in [T0 + 100, T0 + 300, T0 + 599] {
        assert_eq!(w.verdict(8, pct(90.0), t), Verdict::Cooling);
    }
    assert_eq!(w.table.last_alert(8), Some(T0));
    assert_eq!(w.verdict(8, pct(90.0), T0 + 600), Verdict::Due);
}

#[test]
fn clock_going_back_keeps_suppression() {
    let mut w = Watcher::new(settings());
    w.report(9, T0, Delivery::Delivered);
    assert_eq!(w.verdict(9, pct(90.0), T0 - 1000), Verdict::Cooling);
    w.end_tick(T0 - 1000);
    assert_eq!(w.table.last_alert(9), Some(T0));
}

#[test]
fn realert_overwrites_without_duplicate() {
    let mut w = Watcher::new(settings());
    w.report(10, T0, Delivery::Delivered);
    w.report(11, T0, Delivery::Delivered);
    w.report(10, T0 + 700, Delivery::Delivered);
    assert_eq!(w.table.len(), 2);
    assert_eq!(w.table.last_alert(10), Some(T0 + 700));
    assert_eq!(w.table.last_alert(11), Some(T0));
}

#[test]
fn failed_attempt_keeps_existing_record() {
    let mut w = Watcher::new(settings());
    w.report(12, T0, Delivery::Delivered);
    w.report(12, T0 + 650, Delivery::Failed);
    assert_eq!(w.table.last_alert(12), Some(T0));
    assert_eq!(w.verdict(12, pct(90.0), T0 + 651), Verdict::Due);
}

#[test]
fn next_due_skips_and_resumes() {
    let mut w = Watcher::new(settings());
    w.report(21, T0, Delivery::Delivered);
    let tick = vec![sample(20, 1.0), sample(21, 90.0), sample(22, 50.0), sample(23, 70.0)];
    assert_eq!(w.next_due(&tick, 0, T0 + 1), Some(2));
    assert_eq!(w.next_due(&tick, 3, T0 + 1), Some(3));
    assert_eq!(w.next_due(&tick, 4, T0 + 1), None);
    assert_eq!(w.next_due(&Vec::new(), 0, T0 + 1), None);
}

#[test]
fn repeated_pid_in_one_snapshot_alerts_once() {
    let mut w = Watcher::new(settings());
    let tick = vec![sample(30, 90.0), sample(30, 91.0)];
    assert_eq!(w.next_due(&tick, 0, T0), Some(0));
    w.report(30, T0, Delivery::Delivered);
    assert_eq!(w.next_due(&tick, 1, T0), None);
}

#[test]
fn zero_cooldown_always_due() {
    let mut w = Watcher::new(Settings { threshold: pct(50.0), cooldown_secs: 0 });
    w.report(40, T0, Delivery::Delivered);
    assert_eq!(w.verdict(40, pct(60.0), T0), Verdict::Due);
    w.end_tick(T0);
    assert_eq!(w.table.len(), 0);
}

#[test]
fn table_basics() {
    let mut t = AlertTable::new();
    assert_eq!(t.len(), 0);
    assert_eq!(t.last_alert(1), None);
    t.record(1, 5);
    t.record(2, 6);
    t.record(1, 9);
    assert_eq!(t.len(), 2);
    assert_eq!(t.last_alert(1), Some(9));
    t.sweep(1, 11);
    assert_eq!(t.len(), 1);
    assert_eq!(t.last_alert(2), None);
    assert_eq!(t.last_alert(1), Some(9));
    t.record(u64::MAX, u64::MAX);
    t.sweep(u64::MAX, u64::MAX);
    assert_eq!(t.last_alert(u64::MAX), Some(u64::MAX));
}

#[test]
fn comparison_is_exact() {
    let w = Watcher::new(settings());
    assert_eq!(w.verdict(1, pct(49.996), T0), Verdict::Below);
    assert_eq!(w.verdict(1, pct(49.999996), T0), Verdict::Below);
    assert_eq!(w.verdict(1, pct(50.000004), T0), Verdict::Due);
    assert_eq!(w.verdict(1, pct(1.0e-45), T0), Verdict::Below);
    assert_eq!(w.verdict(1, pct(3.0e38), T0), Verdict::Due);
    let tiny = Watcher::new(Settings { threshold: pct(1.0e-45), cooldown_secs: 600 });
    assert_eq!(tiny.verdict(1, pct(0.0), T0), Verdict::Below);
    assert_eq!(tiny.verdict(1, pct(1.0e-45), T0), Verdict::Due);
}

#[test]
fn percent_parts_checked() {
    assert!(Percent::from_parts(0xff_ffff, 104).is_some());
    assert!(Percent::from_parts(0x100_0000, 0).is_none());
    assert!(Percent::from_parts(1, -150).is_none());
    assert!(Percent::from_parts(1, 105).is_none());
    assert!(pct(2.0).at_least(Percent::from_parts(1, 1).unwrap()));
    assert!(Percent::from_parts(1, 1).unwrap().at_least(pct(2.0)));
    assert!(!pct(1.5).at_least(pct(2.0)));
}

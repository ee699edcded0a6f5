use minibrowser::memory::{
    Action, Controller, Entry, MemoryManager, Phase, ReportOutcome, Snapshot, SuspendOutcome,
    DEFAULT_BUDGET_MB, IDLE_MS, SETTLE_MS,
};

const NOW: u64 = 1_000_000;

fn entry(label: &str, now: u64, seconds: u64, phase: Phase) -> Entry<()> {
    Entry {
        label: label.to_string(),
        last_active: now - seconds * 1000,
        last_check: now - SETTLE_MS,
        phase,
        snapshot: None,
    }
}

fn controller(active: &str) -> Controller<()> {
    Controller { active: active.to_string(), entries: Vec::new(), token: 0, last_discard: None }
}

#[test]
fn protects_active_and_recent_workspaces_and_chooses_oldest() {
    let now = NOW;
    let mut c = controller("active");
    c.entries.push(entry("active", now, 300, Phase::Awake));
    c.entries.push(entry("recent", now, 5, Phase::Awake));
    c.entries.push(entry("old", now, 100, Phase::Awake));
    c.entries.push(entry("older", now, 200, Phase::Awake));
    assert_eq!(
        c.candidate(now, true),
        Some(("older".to_string(), Action::Suspend))
    );
    c.entries.retain(|e| e.label != "old" && e.label != "older");
    assert_eq!(c.candidate(now, true), None);
}

#[test]
fn discards_only_under_pressure_after_suspension_settles() {
    let now = NOW;
    let mut c = controller("");
    c.entries.push(entry("ws", now, 100, Phase::Suspended { since: now }));
    assert_eq!(c.candidate(now, true), None);
    assert_eq!(c.candidate(now + SETTLE_MS, false), None);
    assert_eq!(
        c.candidate(now + SETTLE_MS, true),
        Some(("ws".to_string(), Action::Discard))
    );
    c.entries[0].phase = Phase::Discarded;
    assert_eq!(c.candidate(now + SETTLE_MS, true), None);
}

fn snapshot(url: &str, protected: bool) -> Snapshot<()> {
    Snapshot { url: url.to_string(), protected, page: () }
}

fn index(m: &MemoryManager<()>, label: &str) -> usize {
    m.controller.entries.iter().position(|e| e.label == label).unwrap()
}

fn manager() -> MemoryManager<()> {
    MemoryManager::default()
}

#[test]
fn default_manager_has_the_documented_budget() {
    let m = manager();
    assert_eq!(m.budget_mb, DEFAULT_BUDGET_MB);
    assert_eq!(m.budget_mb, 1024);
    let s = m.memory_status(true);
    assert!(s.supported);
    assert_eq!(s.used_mb, None);
    assert_eq!(s.budget_mb, 1024);
    assert_eq!(s.suspended, 0);
    assert_eq!(s.discarded, 0);
    assert!(!s.over_budget);
}

#[test]
fn full_cycle_check_report_suspend_discard_restore() {
    let mut m = manager();
    let t0 = NOW;
    let a = m.activate("ws0", t0);
    assert_eq!(a.previous, "");
    assert_eq!(a.restore_url, None);
    m.activate("ws1", t0);
    m.activate("ws0", t0);
    // ws1 idle and unchecked long enough.
    let t1 = t0 + IDLE_MS;
    assert_eq!(m.tick(false, t1), Some(("ws1".to_string(), 1)));
    assert!(matches!(m.controller.entries[1].phase, Phase::Checking { token: 1, action: Action::Suspend, .. }));
    // A stale token is ignored.
    let out = m.memory_report("ws1", 7, snapshot("https://a.example/", false), 0, true, Some("https://a.example/"), t1);
    assert_eq!(out, ReportOutcome::Ignored);
    let out = m.memory_report("ws1", 1, snapshot("https://a.example/", false), 0, true, Some("https://a.example/"), t1);
    assert_eq!(out, ReportOutcome::Suspend(Action::Suspend));
    assert!(m.is_pending("ws1", 1));
    assert!(!m.is_pending("ws1", 2));
    assert_eq!(m.suspended("ws1", 1, Action::Suspend, true, t1), SuspendOutcome::Suspended);
    assert_eq!(m.memory_status(true).suspended, 1);
    // Under pressure, after settling, the suspended workspace is discarded.
    m.record_usage(Some(1000 * 1024 * 1024));
    let t2 = t1 + 2 * SETTLE_MS;
    assert_eq!(m.tick(false, t2), Some(("ws1".to_string(), 2)));
    let out = m.memory_report("ws1", 2, snapshot("https://a.example/", false), 0, true, Some("https://a.example/"), t2);
    assert_eq!(out, ReportOutcome::Suspend(Action::Discard));
    assert_eq!(m.suspended("ws1", 2, Action::Discard, true, t2), SuspendOutcome::Discard);
    assert_eq!(m.controller.last_discard, Some(t2));
    assert_eq!(m.memory_status(true).discarded, 1);
    // The sleeping page's own load changes nothing.
    assert!(m.page_load("ws1", true, "http://tauri.localhost/sleeping.html", t2).is_none());
    assert!(matches!(m.controller.entries[1].phase, Phase::Discarded));
    // Coming back restores the saved address.
    let a = m.activate("ws1", t2 + 1);
    assert_eq!(a.previous, "ws0");
    assert_eq!(a.restore_url, Some("https://a.example/".to_string()));
    assert!(matches!(m.controller.entries[1].phase, Phase::Restoring));
    assert!(m.memory_restore("ws1", Some("https://a.example/")).is_some());
    assert!(m.memory_restore("ws1", Some("https://b.example/")).is_none());
    assert!(m.memory_restore("ws1", None).is_none());
    assert!(m.page_load("ws1", false, "https://a.example/", t2 + 2).is_none());
    let restored = m.page_load("ws1", true, "https://a.example/", t2 + 3);
    assert_eq!(restored.map(|s| s.url), Some("https://a.example/".to_string()));
    assert!(matches!(m.controller.entries[1].phase, Phase::Awake));
    assert!(m.controller.entries[1].snapshot.is_none());
}

#[test]
fn protected_pages_stay_awake() {
    let mut m = manager();
    m.activate("ws0", NOW);
    m.activate("ws1", NOW);
    m.activate("ws0", NOW);
    let t = NOW + IDLE_MS;
    assert_eq!(m.tick(false, t), Some(("ws1".to_string(), 1)));
    let out = m.memory_report("ws1", 1, snapshot("https://v.example/", true), 0, true, Some("https://v.example/"), t);
    assert_eq!(out, ReportOutcome::Resume);
    assert!(matches!(m.controller.entries[1].phase, Phase::Awake));
    assert!(m.controller.entries[1].snapshot.is_none());
}

#[test]
fn report_for_another_address_or_the_active_workspace_is_ignored() {
    let mut m = manager();
    m.activate("ws1", NOW);
    m.activate("ws0", NOW);
    let t = NOW + IDLE_MS;
    assert_eq!(m.tick(false, t), Some(("ws1".to_string(), 1)));
    let out = m.memory_report("ws1", 1, snapshot("https://a.example/", false), 0, true, Some("https://b.example/"), t);
    assert_eq!(out, ReportOutcome::Ignored);
    m.activate("ws1", t);
    let out = m.memory_report("ws1", 1, snapshot("https://a.example/", false), 0, true, Some("https://a.example/"), t);
    assert_eq!(out, ReportOutcome::Ignored);
}

#[test]
fn tick_waits_while_a_workspace_is_being_created() {
    let mut m = manager();
    m.activate("ws1", NOW);
    m.activate("ws0", NOW);
    assert_eq!(m.tick(true, NOW + IDLE_MS), None);
    assert_eq!(m.controller.token, 0);
}

#[test]
fn stale_checks_expire_and_unknown_usage_never_discards() {
    let mut m = manager();
    m.activate("ws1", NOW);
    m.activate("ws0", NOW);
    let t = NOW + IDLE_MS;
    assert_eq!(m.tick(false, t), Some(("ws1".to_string(), 1)));
    // No answer: after SETTLE_MS the check is given up, then retried.
    let later = t + SETTLE_MS + 1;
    assert_eq!(m.tick(false, later), Some(("ws1".to_string(), 2)));
    // Unknown usage counts as no pressure.
    m.budget_mb = 1;
    m.record_usage(None);
    assert_eq!(m.used_bytes, 0);
    let out = m.memory_report("ws1", 2, snapshot("https://a.example/", false), 0, true, Some("https://a.example/"), later);
    assert_eq!(out, ReportOutcome::Suspend(Action::Suspend));
    assert_eq!(m.suspended("ws1", 2, Action::Discard, true, later), SuspendOutcome::Suspended);
}

#[test]
fn failed_suspension_resumes_and_failed_reload_rolls_back() {
    let mut m = manager();
    m.activate("ws0", NOW);
    m.activate("ws1", NOW);
    m.activate("ws0", NOW);
    assert_eq!(index(&m, "ws1"), 1);
    let t = NOW + IDLE_MS;
    m.tick(false, t);
    m.memory_report("ws1", 1, snapshot("https://a.example/", false), 0, true, Some("https://a.example/"), t);
    assert_eq!(m.suspended("ws1", 1, Action::Suspend, false, t), SuspendOutcome::Resume);
    assert!(matches!(m.controller.entries[1].phase, Phase::Awake));
    assert_eq!(m.suspended("nope", 1, Action::Suspend, true, t), SuspendOutcome::Ignore);
    m.controller.entries[1].phase = Phase::Discarded;
    m.controller.entries[1].snapshot = Some(snapshot("https://a.example/", false));
    let a = m.activate("ws1", t);
    m.activation_failed("ws1", a.previous);
    assert_eq!(m.controller.active, "ws0");
    assert!(matches!(m.controller.entries[1].phase, Phase::Discarded));
    m.discard_failed("ws1");
    assert!(matches!(m.controller.entries[1].phase, Phase::Awake));
}

#[test]
fn status_reports_usage_in_mib_and_over_budget() {
    let mut m = manager();
    m.record_usage(Some(1536 * 1024 * 1024));
    let s = m.memory_status(false);
    assert!(!s.supported);
    assert_eq!(s.used_mb, Some(1536));
    assert!(s.over_budget);
    assert!(m.over_threshold());
    m.record_usage(Some(900 * 1024 * 1024));
    assert!(!m.memory_status(true).over_budget);
    assert!(!m.over_threshold());
    m.record_usage(Some(922 * 1024 * 1024));
    assert!(m.over_threshold());
}

#[test]
fn settling_discard_blocks_pressure() {
    let mut m = manager();
    m.record_usage(Some(2000 * 1024 * 1024));
    m.activate("ws0", NOW);
    m.activate("ws1", NOW);
    m.activate("ws0", NOW);
    m.controller.entries[1].phase = Phase::Suspended { since: NOW };
    m.controller.last_discard = Some(NOW + IDLE_MS - 1);
    assert_eq!(m.tick(false, NOW + IDLE_MS), None);
    assert_eq!(m.tick(false, NOW + IDLE_MS + SETTLE_MS), Some(("ws1".to_string(), 1)));
    assert!(matches!(m.controller.entries[1].phase, Phase::Checking { action: Action::Discard, .. }));
}

#[test]
fn invalid_reports_change_nothing() {
    let mut m = manager();
    m.activate("ws0", NOW);
    m.activate("ws1", NOW);
    m.activate("ws0", NOW);
    let t = NOW + IDLE_MS;
    assert_eq!(m.tick(false, t), Some(("ws1".to_string(), 1)));
    let url = "https://a.example/";
    let out = m.memory_report("ws1", 1, snapshot(url, false), 0, false, Some(url), t);
    assert_eq!(out, ReportOutcome::Ignored);
    let out = m.memory_report("ws1", 1, snapshot(url, false), 17, true, Some(url), t);
    assert_eq!(out, ReportOutcome::Ignored);
    let js = "javascript:alert(1)";
    let out = m.memory_report("ws1", 1, snapshot(js, false), 0, true, Some(js), t);
    assert_eq!(out, ReportOutcome::Ignored);
    assert!(matches!(m.controller.entries[1].phase, Phase::Checking { token: 1, .. }));
    let out = m.memory_report("ws1", 1, snapshot(url, false), 16, true, Some(url), t);
    assert_eq!(out, ReportOutcome::Suspend(Action::Suspend));
}

#[test]
fn huge_budgets_are_still_reported() {
    let mut m = manager();
    m.budget_mb = 17_592_186_044_415;
    m.record_usage(Some(u64::MAX));
    let s = m.memory_status(true);
    assert_eq!(s.budget_mb, 17_592_186_044_415);
    assert!(s.over_budget);
}

#[test]
fn limits_only_matter_where_they_are_used() {
    let mut m = manager();
    m.budget_mb = u64::MAX;
    m.controller.token = u64::MAX;
    m.activate("ws1", NOW);
    m.activate("ws0", NOW);
    // Creating, or nothing to check: no token is handed out.
    m.controller.last_discard = Some(NOW + IDLE_MS);
    assert!(!m.has_candidate(true, NOW + IDLE_MS));
    assert_eq!(m.tick(true, NOW + IDLE_MS), None);
    assert!(m.settling_at(NOW + IDLE_MS));
    assert!(!m.has_candidate(false, NOW));
    assert_eq!(m.tick(false, NOW), None);
    assert!(m.has_candidate(false, NOW + IDLE_MS));
    // A failed or stale answer needs no budget.
    assert_eq!(m.suspended("ws1", 3, Action::Discard, false, NOW), SuspendOutcome::Ignore);
}

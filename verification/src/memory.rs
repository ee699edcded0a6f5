//! Decisions of the memory manager: which idle workspace to check, suspend
//! or discard, and how each answer of the page or of the platform moves the
//! workspace between phases. Times are milliseconds of a monotonic clock.
use vstd::prelude::*;
use crate::restore::{snapshot_accepted, snapshot_valid};
use crate::text::str_eq;

verus! {

/// The memory target when nothing else is configured, in MiB.
pub const DEFAULT_BUDGET_MB: u64 = 1024;

/// How long a workspace must have been inactive before it is suspended.
pub const IDLE_MS: u64 = 30000;

/// How long a decision is left to take effect before the next one.
pub const SETTLE_MS: u64 = 15000;

/// How often the memory of the process tree is sampled.
pub const SAMPLE_INTERVAL_MS: u64 = 5000;

/// What a check of an idle workspace leads to.
#[derive(Clone, Copy, Debug, PartialEq, Eq, Structural)]
pub enum Action {
    Suspend,
    Discard,
}

/// Where a workspace stands in the suspend/discard cycle.
#[derive(Clone, Copy, Debug, PartialEq, Eq, Structural)]
pub enum Phase {
    Awake,
    Checking { token: u64, action: Action, since: u64 },
    Suspending { token: u64, since: u64 },
    Suspended { since: u64 },
    Discarded,
    Restoring,
}

/// What a page reported about itself before suspension: its address, whether
/// it must be kept alive (playback, edited forms, unknown frames), and the
/// page state (`page`) that a reload restores.
pub struct Snapshot<S> {
    pub url: String,
    pub protected: bool,
    pub page: S,
}

/// The memory state of one workspace, by its webview label.
pub struct Entry<S> {
    pub label: String,
    pub last_active: u64,
    pub last_check: u64,
    pub phase: Phase,
    pub snapshot: Option<Snapshot<S>>,
}

/// All workspaces, the active one, the last check token handed out and the
/// time of the last discard.
pub struct Controller<S> {
    pub active: String,
    pub entries: Vec<Entry<S>>,
    pub token: u64,
    pub last_discard: Option<u64>,
}

/// `Instant::duration_since`, which saturates at zero.
pub open spec fn elapsed(now: u64, then: u64) -> int {
    if now >= then {
        now - then
    } else {
        0
    }
}

pub fn elapsed_ms(now: u64, then: u64) -> (r: u64)
    ensures
        r == elapsed(now, then),
{
    if now >= then {
        now - then
    } else {
        0
    }
}

/// The first index at or after `i` whose entry has `label`.
pub open spec fn position_from<S>(entries: Seq<Entry<S>>, label: Seq<char>, i: int) -> Option<int>
    decreases entries.len() - i,
{
    if i < 0 || i >= entries.len() {
        None
    } else if entries[i].label@ == label {
        Some(i)
    } else {
        position_from(entries, label, i + 1)
    }
}

/// The index of the entry for `label`, if there is one.
pub open spec fn position<S>(entries: Seq<Entry<S>>, label: Seq<char>) -> Option<int> {
    position_from(entries, label, 0)
}

/// No two entries share a label.
pub open spec fn labels_unique<S>(entries: Seq<Entry<S>>) -> bool {
    forall|i: int, j: int|
        0 <= i < entries.len() && 0 <= j < entries.len() && i != j ==> entries[i].label@
            != entries[j].label@
}

pub proof fn lemma_position_from<S>(entries: Seq<Entry<S>>, label: Seq<char>, i: int)
    requires
        0 <= i,
    ensures
        position_from(entries, label, i) matches Some(k) ==> i <= k < entries.len()
            && entries[k].label@ == label && forall|j: int|
            i <= j < k ==> entries[j].label@ != label,
        position_from(entries, label, i) is None ==> forall|j: int|
            i <= j < entries.len() ==> entries[j].label@ != label,
    decreases entries.len() - i,
{
    if i < entries.len() && entries[i].label@ != label {
        lemma_position_from(entries, label, i + 1);
    }
}

/// `position` finds the first entry with the label, and only misses when
/// there is none.
pub proof fn lemma_position<S>(entries: Seq<Entry<S>>, label: Seq<char>)
    ensures
        position(entries, label) matches Some(k) ==> 0 <= k < entries.len()
            && entries[k].label@ == label && forall|j: int|
            0 <= j < k ==> entries[j].label@ != label,
        position(entries, label) is None ==> forall|j: int|
            0 <= j < entries.len() ==> entries[j].label@ != label,
{
    lemma_position_from(entries, label, 0);
}

/// The index of the entry for `label`.
pub fn position_of<S>(entries: &Vec<Entry<S>>, label: &str) -> (r: Option<usize>)
    ensures
        r matches Some(k) ==> position(entries@, label@) == Some(k as int),
        r is None ==> position(entries@, label@) is None,
{
    let mut i: usize = 0;
    while i < entries.len()
        invariant
            i <= entries.len(),
            position(entries@, label@) == position_from(entries@, label@, i as int),
        decreases entries.len() - i,
    {
        if str_eq(entries[i].label.as_str(), label) {
            return Some(i);
        }
        i = i + 1;
    }
    None
}

/// What a check of entry `e` would lead to now, if it is a candidate at all:
/// not the active workspace, idle for `IDLE_MS`, not checked for
/// `SETTLE_MS`, and either awake, or suspended for `SETTLE_MS` under memory
/// pressure.
pub open spec fn eligible_action<S>(e: Entry<S>, active: Seq<char>, now: u64, pressure: bool) -> Option<
    Action,
> {
    if e.label@ != active && elapsed(now, e.last_active) >= IDLE_MS && elapsed(now, e.last_check)
        >= SETTLE_MS {
        match e.phase {
            Phase::Awake => Some(Action::Suspend),
            Phase::Suspended { since } => if pressure && elapsed(now, since) >= SETTLE_MS {
                Some(Action::Discard)
            } else {
                None
            },
            _ => None,
        }
    } else {
        None
    }
}

/// Entry `i` is the one to check, with action `a`: it is a candidate, none
/// has been inactive for longer, and it is the first of those inactive as long.
pub open spec fn is_choice<S>(
    entries: Seq<Entry<S>>,
    active: Seq<char>,
    now: u64,
    pressure: bool,
    i: int,
    a: Action,
) -> bool {
    &&& 0 <= i < entries.len()
    &&& eligible_action(entries[i], active, now, pressure) == Some(a)
    &&& forall|j: int|
        0 <= j < entries.len() && eligible_action(entries[j], active, now, pressure) is Some
            ==> entries[i].last_active <= entries[j].last_active
    &&& forall|j: int|
        0 <= j < i && eligible_action(entries[j], active, now, pressure) is Some
            ==> entries[i].last_active < entries[j].last_active
}

/// No entry is a candidate.
pub open spec fn none_eligible<S>(
    entries: Seq<Entry<S>>,
    active: Seq<char>,
    now: u64,
    pressure: bool,
) -> bool {
    forall|j: int| 0 <= j < entries.len() ==> eligible_action(entries[j], active, now, pressure) is None
}

fn eligible_action_of<S>(e: &Entry<S>, active: &String, now: u64, pressure: bool) -> (r: Option<
    Action,
>)
    ensures
        r == eligible_action(*e, active@, now, pressure),
{
    if e.label == *active || elapsed_ms(now, e.last_active) < IDLE_MS || elapsed_ms(
        now,
        e.last_check,
    ) < SETTLE_MS {
        return None;
    }
    match e.phase {
        Phase::Awake => Some(Action::Suspend),
        Phase::Suspended { since } => {
            if pressure && elapsed_ms(now, since) >= SETTLE_MS {
                Some(Action::Discard)
            } else {
                None
            }
        },
        _ => None,
    }
}

impl<S> Controller<S> {
    /// The entry to check next and what the check leads to, by index.
    pub fn candidate_index(&self, now: u64, pressure: bool) -> (r: Option<(usize, Action)>)
        ensures
            r matches Some((i, a)) ==> is_choice(
                self.entries@,
                self.active@,
                now,
                pressure,
                i as int,
                a,
            ),
            r is None ==> none_eligible(self.entries@, self.active@, now, pressure),
    {
        let mut best: Option<(usize, Action)> = None;
        let mut i: usize = 0;
        while i < self.entries.len()
            invariant
                i <= self.entries.len(),
                best matches Some((b, a)) ==> {
                    &&& b < i
                    &&& eligible_action(self.entries@[b as int], self.active@, now, pressure)
                        == Some(a)
                    &&& forall|j: int|
                        0 <= j < i && eligible_action(
                            self.entries@[j],
                            self.active@,
                            now,
                            pressure,
                        ) is Some ==> self.entries@[b as int].last_active
                            <= self.entries@[j].last_active
                    &&& forall|j: int|
                        0 <= j < b && eligible_action(
                            self.entries@[j],
                            self.active@,
                            now,
                            pressure,
                        ) is Some ==> self.entries@[b as int].last_active
                            < self.entries@[j].last_active
                },
                best is None ==> forall|j: int|
                    0 <= j < i ==> eligible_action(self.entries@[j], self.active@, now, pressure)
                        is None,
            decreases self.entries.len() - i,
        {
            let act = eligible_action_of(&self.entries[i], &self.active, now, pressure);
            match act {
                Some(a) => {
                    match best {
                        None => {
                            best = Some((i, a));
                        },
                        Some((b, _)) => {
                            if self.entries[i].last_active < self.entries[b].last_active {
                                best = Some((i, a));
                            }
                        },
                    }
                },
                None => {},
            }
            i = i + 1;
        }
        best
    }

    /// The label of the workspace to check next and what the check leads to:
    /// of the candidates, the one inactive for longest.
    pub fn candidate(&self, now: u64, pressure: bool) -> (r: Option<(String, Action)>)
        ensures
            r matches Some((l, a)) ==> exists|i: int|
                is_choice(self.entries@, self.active@, now, pressure, i, a) && l@
                    == self.entries@[i].label@,
            r is None ==> none_eligible(self.entries@, self.active@, now, pressure),
    {
        match self.candidate_index(now, pressure) {
            Some((i, a)) => {
                let l = self.entries[i].label.clone();
                Some((l, a))
            },
            None => None,
        }
    }
}


/// A phase that waited for an answer for longer than `SETTLE_MS`: a page may
/// navigate or stop responding before its reply arrives.
pub open spec fn is_stale(phase: Phase, now: u64) -> bool {
    match phase {
        Phase::Checking { since, .. } => elapsed(now, since) > SETTLE_MS,
        Phase::Suspending { since, .. } => elapsed(now, since) > SETTLE_MS,
        _ => false,
    }
}

/// The entry after a stale wait is given up.
pub open spec fn after_expiry<S>(e: Entry<S>, now: u64) -> Entry<S> {
    if is_stale(e.phase, now) {
        Entry { phase: Phase::Awake, ..e }
    } else {
        e
    }
}

/// All entries after stale waits are given up.
pub open spec fn expired<S>(entries: Seq<Entry<S>>, now: u64) -> Seq<Entry<S>> {
    entries.map_values(|e: Entry<S>| after_expiry(e, now))
}

/// The entry once a check with `token` and `action` has been sent to it.
pub open spec fn checking<S>(e: Entry<S>, token: u64, action: Action, now: u64) -> Entry<S> {
    Entry { phase: Phase::Checking { token, action, since: now }, last_check: now, ..e }
}

/// A budget in MiB whose byte count, and nine times it, fit in a `u64`.
pub open spec fn budget_in_range(budget_mb: u64) -> bool {
    budget_mb * 1048576 * 9 <= u64::MAX
}

/// A budget in MiB whose byte count fits in a `u64`.
pub open spec fn budget_bytes_fit(budget_mb: u64) -> bool {
    budget_mb * 1048576 <= u64::MAX
}

/// Whether a budget's byte count fits in a `u64`.
pub fn budget_bytes_ok(budget_mb: u64) -> (r: bool)
    ensures
        r == budget_bytes_fit(budget_mb),
{
    let limit: u64 = 17592186044415;
    proof {
        assert(budget_mb <= limit ==> budget_mb * 1048576 <= u64::MAX) by (nonlinear_arith)
            requires
                limit == 17592186044415u64,
        ;
        assert(budget_mb > limit ==> budget_mb * 1048576 > u64::MAX) by (nonlinear_arith)
            requires
                limit == 17592186044415u64,
        ;
    }
    budget_mb <= limit
}

/// Whether a budget's byte count, and nine times it, fit in a `u64`.
pub fn budget_ok(budget_mb: u64) -> (r: bool)
    ensures
        r == budget_in_range(budget_mb),
{
    let limit: u64 = 1954687338268;
    proof {
        assert(budget_mb <= limit ==> budget_mb * 1048576 * 9 <= u64::MAX) by (nonlinear_arith)
            requires
                limit == 1954687338268u64,
        ;
        assert(budget_mb > limit ==> budget_mb * 1048576 * 9 > u64::MAX) by (nonlinear_arith)
            requires
                limit == 1954687338268u64,
        ;
    }
    budget_mb <= limit
}

/// Memory use above 90% of the budget.
pub open spec fn over_threshold(used_bytes: u64, budget_mb: u64) -> bool {
    used_bytes > budget_mb * 1048576 * 9 / 10
}

/// Less than `SETTLE_MS` since the last discard, whose effect is still being
/// measured.
pub open spec fn settling(last_discard: Option<u64>, now: u64) -> bool {
    match last_discard {
        Some(t) => elapsed(now, t) < SETTLE_MS,
        None => false,
    }
}

/// Number of entries in phase `Suspended`.
pub open spec fn count_suspended<S>(entries: Seq<Entry<S>>) -> nat
    decreases entries.len(),
{
    if entries.len() == 0 {
        0
    } else {
        count_suspended(entries.drop_last()) + if entries.last().phase is Suspended {
            1nat
        } else {
            0nat
        }
    }
}

/// Number of entries in phase `Discarded`.
pub open spec fn count_discarded<S>(entries: Seq<Entry<S>>) -> nat
    decreases entries.len(),
{
    if entries.len() == 0 {
        0
    } else {
        count_discarded(entries.drop_last()) + if entries.last().phase is Discarded {
            1nat
        } else {
            0nat
        }
    }
}

/// What the memory manager reports to the settings page.
pub struct Status {
    pub supported: bool,
    pub used_mb: Option<u64>,
    pub budget_mb: u64,
    pub suspended: usize,
    pub discarded: usize,
    pub over_budget: bool,
}

/// What a page's report on a check leads to.
#[derive(Clone, Copy, Debug, PartialEq, Eq, Structural)]
pub enum ReportOutcome {
    /// The report is stale or not for a pending check: nothing to do.
    Ignored,
    /// The page must stay alive: show it again.
    Resume,
    /// Suspend the page natively, then finish with this action.
    Suspend(Action),
}

/// What the platform's answer to a suspension leads to.
#[derive(Clone, Copy, Debug, PartialEq, Eq, Structural)]
pub enum SuspendOutcome {
    /// The answer is stale: nothing to do.
    Ignore,
    /// Resume the page and show it.
    Resume,
    /// Unload the page to the sleeping page, resuming it hidden first.
    Discard,
    /// The page stays suspended.
    Suspended,
}

/// The result of activating a workspace: the previously active label, and
/// the address to reload when the workspace had been discarded.
pub struct Activation {
    pub previous: String,
    pub restore_url: Option<String>,
}

/// The entry of a workspace just activated: inactive since now, and restoring
/// if it had been discarded, awake unless it was already restoring.
pub open spec fn activated<S>(e: Entry<S>, now: u64) -> Entry<S> {
    Entry {
        last_active: now,
        phase: if e.phase is Discarded {
            Phase::Restoring
        } else if e.phase is Restoring {
            Phase::Restoring
        } else {
            Phase::Awake
        },
        ..e
    }
}

/// The entries once `active` has been left: its inactivity starts now.
pub open spec fn left_entries<S>(
    entries: Seq<Entry<S>>,
    active: Seq<char>,
    label: Seq<char>,
    now: u64,
) -> Seq<Entry<S>> {
    if active != label && position(entries, active) is Some {
        let k = position(entries, active)->0;
        entries.update(k, Entry { last_active: now, ..entries[k] })
    } else {
        entries
    }
}

/// A fresh entry for a workspace seen for the first time.
pub open spec fn fresh_entry<S>(label: Seq<char>, now: u64, e: Entry<S>) -> bool {
    e.label@ == label && e.last_active == now && e.last_check == now && e.phase == Phase::Awake
        && e.snapshot is None
}


/// The index and action of the check with `token` pending for `label`: the
/// workspace is not the active one and is being checked with that token.
pub open spec fn pending_check<S>(c: Controller<S>, label: Seq<char>, token: u64) -> Option<
    (int, Action),
> {
    if c.active@ != label {
        match position(c.entries@, label) {
            Some(i) => match c.entries@[i].phase {
                Phase::Checking { token: t, action, .. } => if t == token {
                    Some((i, action))
                } else {
                    None
                },
                _ => None,
            },
            None => None,
        }
    } else {
        None
    }
}

/// Whether `label` is being suspended under `token`.
pub open spec fn suspending_with<S>(entries: Seq<Entry<S>>, label: Seq<char>, token: u64) -> bool {
    match position(entries, label) {
        Some(i) => match entries[i].phase {
            Phase::Suspending { token: t, .. } => t == token,
            _ => false,
        },
        None => false,
    }
}

/// The address to reload for a workspace being activated, if it was discarded.
pub open spec fn restore_url_of<S>(e: Entry<S>) -> Option<Seq<char>> {
    if e.phase is Discarded {
        match e.snapshot {
            Some(s) => Some(s.url@),
            None => None,
        }
    } else {
        None
    }
}

pub open spec fn opt_view(o: Option<String>) -> Option<Seq<char>> {
    match o {
        Some(s) => Some(s@),
        None => None,
    }
}

/// `url` is the address the page now shows.
pub open spec fn shows(current_url: Option<&str>, url: Seq<char>) -> bool {
    match current_url {
        Some(u) => u@ == url,
        None => false,
    }
}


pub open spec fn opt_str_view(o: Option<&str>) -> Option<Seq<char>> {
    match o {
        Some(s) => Some(s@),
        None => None,
    }
}

/// A report that may be acted on and is about the page as it is shown.
pub open spec fn report_accepted(
    url: Seq<char>,
    media_count: nat,
    page_ok: bool,
    current_url: Option<&str>,
) -> bool {
    snapshot_accepted(url, media_count, page_ok) && shows(current_url, url)
}

/// The snapshot that a page of `label` showing `current_url` may restore: the
/// workspace is restoring, and the page shows the address that was saved.
pub open spec fn restorable<S>(
    entries: Seq<Entry<S>>,
    label: Seq<char>,
    current_url: Option<Seq<char>>,
) -> Option<Snapshot<S>> {
    match position(entries, label) {
        Some(i) => {
            let e = entries[i];
            if e.phase is Restoring && e.snapshot is Some && current_url == Some(
                e.snapshot->0.url@,
            ) {
                e.snapshot
            } else {
                None
            }
        },
        None => None,
    }
}

/// The memory manager: the configured budget, the last measured use of the
/// process tree (0 when unknown) and the workspaces' states.
pub struct MemoryManager<S> {
    pub budget_mb: u64,
    pub used_bytes: u64,
    pub controller: Controller<S>,
}

impl<S> Default for MemoryManager<S> {
    fn default() -> (r: Self)
        ensures
            r.budget_mb == DEFAULT_BUDGET_MB,
            r.used_bytes == 0,
            r.controller.active@ == Seq::<char>::empty(),
            r.controller.entries@.len() == 0,
            r.controller.token == 0,
            r.controller.last_discard is None,
    {
        MemoryManager {
            budget_mb: DEFAULT_BUDGET_MB,
            used_bytes: 0,
            controller: Controller {
                active: String::new(),
                entries: Vec::new(),
                token: 0,
                last_discard: None,
            },
        }
    }
}

impl<S> Controller<S> {
    /// Gives up every wait for an answer that has lasted longer than `SETTLE_MS`.
    pub fn expire_stale(&mut self, now: u64)
        ensures
            final(self).entries@ == expired(old(self).entries@, now),
            final(self).active == old(self).active,
            final(self).token == old(self).token,
            final(self).last_discard == old(self).last_discard,
    {
        let ghost start = self.entries@;
        let mut i: usize = 0;
        while i < self.entries.len()
            invariant
                i <= self.entries.len(),
                self.entries@.len() == start.len(),
                forall|j: int| 0 <= j < i ==> self.entries@[j] == after_expiry(start[j], now),
                forall|j: int| i <= j < start.len() ==> self.entries@[j] == start[j],
                self.active == old(self).active,
                self.token == old(self).token,
                self.last_discard == old(self).last_discard,
            decreases self.entries.len() - i,
        {
            let stale = match self.entries[i].phase {
                Phase::Checking { since, .. } => elapsed_ms(now, since) > SETTLE_MS,
                Phase::Suspending { since, .. } => elapsed_ms(now, since) > SETTLE_MS,
                _ => false,
            };
            if stale {
                self.entries[i].phase = Phase::Awake;
            }
            i = i + 1;
        }
        proof {
            assert(self.entries@ =~= expired(start, now));
        }
    }
}

impl<S> MemoryManager<S> {
    /// Memory pressure as a tick sees it: over the threshold, and no discard
    /// still settling.
    pub open spec fn pressure_at(&self, now: u64) -> bool {
        !settling(self.controller.last_discard, now) && over_threshold(
            self.used_bytes,
            self.budget_mb,
        )
    }

    /// Whether memory use is above 90% of the budget.
    pub fn over_threshold(&self) -> (r: bool)
        requires
            budget_in_range(self.budget_mb),
        ensures
            r == over_threshold(self.used_bytes, self.budget_mb),
    {
        self.used_bytes > self.budget_mb * 1024 * 1024 * 9 / 10
    }

    /// Records a new sample of the process tree's memory; an unknown use is
    /// recorded as 0, which never counts as pressure.
    pub fn record_usage(&mut self, sample: Option<u64>)
        ensures
            final(self).used_bytes == match sample {
                Some(b) => b,
                None => 0,
            },
            final(self).budget_mb == old(self).budget_mb,
            final(self).controller == old(self).controller,
    {
        self.used_bytes = match sample {
            Some(b) => b,
            None => 0,
        };
    }

    /// One periodic step: give up stale waits, then, unless a workspace is
    /// being created, pick the workspace to check and mark it as being checked
    /// with a new token. Returns its label and the token.
    #[verifier::spinoff_prover]
    pub fn tick(&mut self, creating: bool, now: u64) -> (r: Option<(String, u64)>)
        requires
            !creating && !settling(old(self).controller.last_discard, now) ==> budget_in_range(
                old(self).budget_mb,
            ),
            !creating && !none_eligible(
                expired(old(self).controller.entries@, now),
                old(self).controller.active@,
                now,
                old(self).pressure_at(now),
            ) ==> old(self).controller.token < u64::MAX,
        ensures
            final(self).budget_mb == old(self).budget_mb,
            final(self).used_bytes == old(self).used_bytes,
            final(self).controller.active == old(self).controller.active,
            final(self).controller.last_discard == old(self).controller.last_discard,
            creating ==> r is None && final(self).controller == old(self).controller,
            !creating && r is None ==> none_eligible(
                expired(old(self).controller.entries@, now),
                old(self).controller.active@,
                now,
                old(self).pressure_at(now),
            ) && final(self).controller.entries@ == expired(old(self).controller.entries@, now)
                && final(self).controller.token == old(self).controller.token,
            !creating && r is Some ==> ({
                let (l, t) = r->0;
                let mid = expired(old(self).controller.entries@, now);
                &&& t == old(self).controller.token + 1
                &&& final(self).controller.token == t
                &&& exists|i: int, a: Action|
                    #[trigger] is_choice(
                        mid,
                        old(self).controller.active@,
                        now,
                        old(self).pressure_at(now),
                        i,
                        a,
                    ) && l@ == mid[i].label@ && final(self).controller.entries@ == mid.update(
                        i,
                        checking(mid[i], t, a, now),
                    )
            }),
            r matches Some((l, t)) ==> exists|i: int|
                0 <= i < final(self).controller.entries@.len()
                    && #[trigger] final(self).controller.entries@[i].label@ == l@
                    && final(self).controller.entries@[i].last_check == now
                    && (final(self).controller.entries@[i].phase matches Phase::Checking {
                    token,
                    since,
                    ..
                } && token == t && since == now),
            labels_unique(old(self).controller.entries@) ==> labels_unique(
                final(self).controller.entries@,
            ),
    {
        if creating {
            return None;
        }
        self.controller.expire_stale(now);
        let settling_now = self.settling_at(now);
        let pressure = !settling_now && self.over_threshold();
        assert(pressure == (!settling(old(self).controller.last_discard, now) && over_threshold(
            old(self).used_bytes,
            old(self).budget_mb,
        )));
        assert(self.controller.active@ == old(self).controller.active@);
        match self.controller.candidate_index(now, pressure) {
            None => {
                proof {
                    assert(self.controller.entries@ =~= expired(old(self).controller.entries@, now));
                }
                None
            },
            Some((i, action)) => {
                let ghost mid = self.controller.entries@;
                assert(eligible_action(mid[i as int], self.controller.active@, now, pressure) is Some);
                self.controller.token = self.controller.token + 1;
                let token = self.controller.token;
                self.controller.entries[i].phase = Phase::Checking { token, action, since: now };
                self.controller.entries[i].last_check = now;
                let label = self.controller.entries[i].label.clone();
                proof {
                    assert(self.controller.entries@ =~= mid.update(
                        i as int,
                        checking(mid[i as int], token, action, now),
                    ));
                    assert(self.controller.entries@[i as int].label@ == label@);
                    assert(self.controller.entries@[i as int].last_check == now);
                }
                Some((label, token))
            },
        }
    }
}

/// What a check of entry `e` would lead to once its stale wait, if any, is
/// given up.
fn expired_eligible_action<S>(e: &Entry<S>, active: &String, now: u64, pressure: bool) -> (r: Option<
    Action,
>)
    ensures
        r == eligible_action(after_expiry(*e, now), active@, now, pressure),
{
    let stale = match e.phase {
        Phase::Checking { since, .. } => elapsed_ms(now, since) > SETTLE_MS,
        Phase::Suspending { since, .. } => elapsed_ms(now, since) > SETTLE_MS,
        _ => false,
    };
    if !stale {
        return eligible_action_of(e, active, now, pressure);
    }
    if e.label == *active || elapsed_ms(now, e.last_active) < IDLE_MS || elapsed_ms(
        now,
        e.last_check,
    ) < SETTLE_MS {
        None
    } else {
        Some(Action::Suspend)
    }
}

impl<S> MemoryManager<S> {
    /// Whether the last discard is still settling at `now`.
    pub fn settling_at(&self, now: u64) -> (r: bool)
        ensures
            r == settling(self.controller.last_discard, now),
    {
        match self.controller.last_discard {
            Some(t) => elapsed_ms(now, t) < SETTLE_MS,
            None => false,
        }
    }

    /// Whether a tick at `now` would start a check: no workspace is being
    /// created and, once stale waits are given up, some workspace is a
    /// candidate. Only then does a tick hand out a new token.
    pub fn has_candidate(&self, creating: bool, now: u64) -> (r: bool)
        requires
            !creating && !settling(self.controller.last_discard, now) ==> budget_in_range(
                self.budget_mb,
            ),
        ensures
            r == (!creating && !none_eligible(
                expired(self.controller.entries@, now),
                self.controller.active@,
                now,
                self.pressure_at(now),
            )),
    {
        if creating {
            return false;
        }
        let settling_now = self.settling_at(now);
        let pressure = !settling_now && self.over_threshold();
        assert(pressure == self.pressure_at(now));
        let ghost mid = expired(self.controller.entries@, now);
        let mut i: usize = 0;
        while i < self.controller.entries.len()
            invariant
                i <= self.controller.entries.len(),
                !creating,
                mid == expired(self.controller.entries@, now),
                pressure == self.pressure_at(now),
                forall|j: int|
                    0 <= j < i ==> eligible_action(mid[j], self.controller.active@, now, pressure)
                        is None,
            decreases self.controller.entries.len() - i,
        {
            let a = expired_eligible_action(
                &self.controller.entries[i],
                &self.controller.active,
                now,
                pressure,
            );
            if a.is_some() {
                assert(eligible_action(mid[i as int], self.controller.active@, now, pressure) is Some);
                return true;
            }
            i = i + 1;
        }
        false
    }
}

impl<S> MemoryManager<S> {
    /// A page's report on a check: what it shows and whether it must stay
    /// alive. A report that is invalid (see `snapshot_accepted`), that is not
    /// for the pending check of that workspace, or whose address is not the
    /// one the page shows, changes nothing.
    pub fn memory_report(
        &mut self,
        label: &str,
        token: u64,
        snapshot: Snapshot<S>,
        media_count: usize,
        page_ok: bool,
        current_url: Option<&str>,
        now: u64,
    ) -> (r: ReportOutcome)
        ensures
            final(self).budget_mb == old(self).budget_mb,
            final(self).used_bytes == old(self).used_bytes,
            final(self).controller.active == old(self).controller.active,
            final(self).controller.token == old(self).controller.token,
            final(self).controller.last_discard == old(self).controller.last_discard,
            !report_accepted(snapshot.url@, media_count as nat, page_ok, current_url) || pending_check(old(self).controller, label@, token)
                is None ==> r == ReportOutcome::Ignored && final(self).controller.entries@ == old(self).controller.entries@,
            report_accepted(snapshot.url@, media_count as nat, page_ok, current_url) && snapshot.protected && pending_check(
                old(self).controller,
                label@,
                token,
            ) is Some ==> ({
                let i = (pending_check(old(self).controller, label@, token)->0).0;
                let e = old(self).controller.entries@[i];
                r == ReportOutcome::Resume && final(self).controller.entries@ == old(self).controller.entries@.update(i, Entry { phase: Phase::Awake, ..e })
            }),
            report_accepted(snapshot.url@, media_count as nat, page_ok, current_url) && !snapshot.protected && pending_check(
                old(self).controller,
                label@,
                token,
            ) is Some ==> ({
                let (i, action) = pending_check(old(self).controller, label@, token)->0;
                let e = old(self).controller.entries@[i];
                r == ReportOutcome::Suspend(action) && final(self).controller.entries@ == old(self).controller.entries@.update(
                    i,
                    Entry {
                        phase: Phase::Suspending { token, since: now },
                        snapshot: Some(snapshot),
                        ..e
                    },
                )
            }),
            r != ReportOutcome::Ignored ==> old(self).controller.active@ != label@,
            r != ReportOutcome::Ignored ==> (position(
                old(self).controller.entries@,
                label@,
            ) matches Some(i) && (old(self).controller.entries@[i].phase matches Phase::Checking {
                token: t,
                ..
            } && t == token)),
            r == ReportOutcome::Resume ==> snapshot.protected,
            r matches ReportOutcome::Suspend(_) ==> !snapshot.protected,
            labels_unique(old(self).controller.entries@) ==> labels_unique(
                final(self).controller.entries@,
            ),
    {
        if !snapshot_valid(snapshot.url.as_str(), media_count, page_ok) {
            return ReportOutcome::Ignored;
        }
        let shown = match current_url {
            Some(u) => str_eq(u, snapshot.url.as_str()),
            None => false,
        };
        if !shown {
            return ReportOutcome::Ignored;
        }
        if str_eq(self.controller.active.as_str(), label) {
            return ReportOutcome::Ignored;
        }
        proof {
            lemma_position(self.controller.entries@, label@);
        }
        let i = match position_of(&self.controller.entries, label) {
            Some(i) => i,
            None => {
                return ReportOutcome::Ignored;
            },
        };
        let (expected, action) = match self.controller.entries[i].phase {
            Phase::Checking { token: t, action, .. } => (t, action),
            _ => {
                return ReportOutcome::Ignored;
            },
        };
        if token != expected {
            return ReportOutcome::Ignored;
        }
        if snapshot.protected {
            self.controller.entries[i].phase = Phase::Awake;
            return ReportOutcome::Resume;
        }
        self.controller.entries[i].snapshot = Some(snapshot);
        self.controller.entries[i].phase = Phase::Suspending { token, since: now };
        ReportOutcome::Suspend(action)
    }

    /// Whether a suspension with `token` is still wanted for `label`: it is not
    /// the active workspace and is being suspended under that token.
    pub fn is_pending(&self, label: &str, token: u64) -> (r: bool)
        ensures
            r == (self.controller.active@ != label@ && suspending_with(
                self.controller.entries@,
                label@,
                token,
            )),
    {
        if str_eq(self.controller.active.as_str(), label) {
            return false;
        }
        proof {
            lemma_position(self.controller.entries@, label@);
        }
        match position_of(&self.controller.entries, label) {
            Some(i) => match self.controller.entries[i].phase {
                Phase::Suspending { token: t, .. } => t == token,
                _ => false,
            },
            None => false,
        }
    }

    /// The platform's answer to a suspension of `label` with `token`: a
    /// failure wakes the page up; a success discards it when that was the
    /// action and memory is over the threshold, else it stays suspended.
    /// An answer for the active workspace or for a suspension no longer
    /// pending changes nothing.
    pub fn suspended(
        &mut self,
        label: &str,
        token: u64,
        action: Action,
        success: bool,
        now: u64,
    ) -> (r: SuspendOutcome)
        requires
            success && old(self).controller.active@ != label@ && suspending_with(
                old(self).controller.entries@,
                label@,
                token,
            ) ==> budget_in_range(old(self).budget_mb),
        ensures
            final(self).budget_mb == old(self).budget_mb,
            final(self).used_bytes == old(self).used_bytes,
            final(self).controller.active == old(self).controller.active,
            final(self).controller.token == old(self).controller.token,
            position(old(self).controller.entries@, label@) is None ==> r == SuspendOutcome::Ignore
                && final(self).controller == old(self).controller,
            position(old(self).controller.entries@, label@) is Some && (old(self).controller.active@
                == label@ || !suspending_with(old(self).controller.entries@, label@, token)) ==> r
                == (if old(self).controller.active@ == label@ {
                SuspendOutcome::Resume
            } else {
                SuspendOutcome::Ignore
            }) && final(self).controller == old(self).controller,
            old(self).controller.active@ != label@ && suspending_with(
                old(self).controller.entries@,
                label@,
                token,
            ) ==> ({
                let i = position(old(self).controller.entries@, label@)->0;
                let e = old(self).controller.entries@[i];
                let discard = success && action == Action::Discard && over_threshold(
                    old(self).used_bytes,
                    old(self).budget_mb,
                );
                &&& !success ==> r == SuspendOutcome::Resume && final(self).controller.entries@
                    == old(self).controller.entries@.update(i, Entry { phase: Phase::Awake, ..e })
                    && final(self).controller.last_discard == old(self).controller.last_discard
                &&& discard ==> r == SuspendOutcome::Discard && final(self).controller.entries@
                    == old(self).controller.entries@.update(
                    i,
                    Entry { phase: Phase::Discarded, ..e },
                ) && final(self).controller.last_discard == Some(now)
                &&& success && !discard ==> r == SuspendOutcome::Suspended
                    && final(self).controller.entries@ == old(self).controller.entries@.update(
                    i,
                    Entry { phase: Phase::Suspended { since: now }, ..e },
                ) && final(self).controller.last_discard == old(self).controller.last_discard
            }),
            r == SuspendOutcome::Discard ==> action == Action::Discard && success
                && old(self).used_bytes * 10 > old(self).budget_mb * 9437184,
            r == SuspendOutcome::Suspended || r == SuspendOutcome::Discard ==> success,
            labels_unique(old(self).controller.entries@) ==> labels_unique(
                final(self).controller.entries@,
            ),
    {
        let is_active = str_eq(self.controller.active.as_str(), label);
        proof {
            lemma_position(self.controller.entries@, label@);
        }
        let i = match position_of(&self.controller.entries, label) {
            Some(i) => i,
            None => {
                return SuspendOutcome::Ignore;
            },
        };
        let pending = match self.controller.entries[i].phase {
            Phase::Suspending { token: t, .. } => t == token,
            _ => false,
        };
        if is_active || !pending {
            if is_active {
                return SuspendOutcome::Resume;
            }
            return SuspendOutcome::Ignore;
        }
        if !success {
            self.controller.entries[i].phase = Phase::Awake;
            return SuspendOutcome::Resume;
        }
        let discard = match action {
            Action::Discard => self.over_threshold(),
            Action::Suspend => false,
        };
        proof {
            lemma_pressure_is_ninety_percent(self.used_bytes, self.budget_mb);
        }
        if discard {
            self.controller.entries[i].phase = Phase::Discarded;
            self.controller.last_discard = Some(now);
            SuspendOutcome::Discard
        } else {
            self.controller.entries[i].phase = Phase::Suspended { since: now };
            SuspendOutcome::Suspended
        }
    }

    /// Unloading a discarded page failed: the workspace is awake again.
    pub fn discard_failed(&mut self, label: &str)
        ensures
            final(self).budget_mb == old(self).budget_mb,
            final(self).used_bytes == old(self).used_bytes,
            final(self).controller.active == old(self).controller.active,
            final(self).controller.token == old(self).controller.token,
            final(self).controller.last_discard == old(self).controller.last_discard,
            position(old(self).controller.entries@, label@) matches Some(i) ==> final(self).controller.entries@ == old(self).controller.entries@.update(
                i,
                Entry { phase: Phase::Awake, ..old(self).controller.entries@[i] },
            ),
            position(old(self).controller.entries@, label@) is None ==> final(self).controller
                == old(self).controller,
            labels_unique(old(self).controller.entries@) ==> labels_unique(
                final(self).controller.entries@,
            ),
    {
        proof {
            lemma_position(self.controller.entries@, label@);
        }
        match position_of(&self.controller.entries, label) {
            Some(i) => {
                self.controller.entries[i].phase = Phase::Awake;
            },
            None => {},
        }
    }
}

impl<S> MemoryManager<S> {
    /// Makes `label` the active workspace. The workspace left behind starts
    /// its inactivity now; the activated one is created if it is new, counts
    /// as active now, and is restored if it had been discarded (the address to
    /// reload is returned). Suspended or checked workspaces wake up.
    pub fn activate(&mut self, label: &str, now: u64) -> (r: Activation)
        ensures
            final(self).budget_mb == old(self).budget_mb,
            final(self).used_bytes == old(self).used_bytes,
            final(self).controller.token == old(self).controller.token,
            final(self).controller.last_discard == old(self).controller.last_discard,
            r.previous@ == old(self).controller.active@,
            final(self).controller.active@ == label@,
            ({
                let left = left_entries(
                    old(self).controller.entries@,
                    old(self).controller.active@,
                    label@,
                    now,
                );
                match position(left, label@) {
                    Some(i) => final(self).controller.entries@ == left.update(
                        i,
                        activated(left[i], now),
                    ) && opt_view(r.restore_url) == restore_url_of(left[i]),
                    None => final(self).controller.entries@.len() == left.len() + 1
                        && final(self).controller.entries@.subrange(0, left.len() as int) == left
                        && fresh_entry(label@, now, final(self).controller.entries@[left.len() as int])
                        && r.restore_url is None,
                }
            }),
            r.restore_url matches Some(u) ==> (position(old(self).controller.entries@, label@) matches Some(i)
                && (old(self).controller.entries@[i].phase == Phase::Discarded
                && (old(self).controller.entries@[i].snapshot matches Some(s) && u@ == s.url@))),
            position(old(self).controller.entries@, label@) matches Some(i) && old(
                self,
            ).controller.entries@[i].phase == Phase::Discarded && old(self).controller.entries@[i].snapshot
                is Some ==> r.restore_url is Some,
            labels_unique(old(self).controller.entries@) ==> labels_unique(
                final(self).controller.entries@,
            ),
    {
        proof {
            lemma_left_keeps_entry(
                old(self).controller.entries@,
                old(self).controller.active@,
                label@,
                now,
            );
            lemma_only_discarded_reloads(old(self).controller.entries@, label@);
        }
        let previous = self.controller.active.clone();
        let ghost left = left_entries(
            old(self).controller.entries@,
            old(self).controller.active@,
            label@,
            now,
        );
        proof {
            lemma_position(self.controller.entries@, previous@);
        }
        if !str_eq(previous.as_str(), label) {
            match position_of(&self.controller.entries, previous.as_str()) {
                Some(k) => {
                    self.controller.entries[k].last_active = now;
                },
                None => {},
            }
        }
        proof {
            assert(self.controller.entries@ =~= left);
            lemma_position(left, label@);
        }
        self.controller.active = String::from_str(label);
        let i = match position_of(&self.controller.entries, label) {
            Some(i) => i,
            None => {
                let fresh = Entry {
                    label: String::from_str(label),
                    last_active: now,
                    last_check: now,
                    phase: Phase::Awake,
                    snapshot: None,
                };
                self.controller.entries.push(fresh);
                proof {
                    assert(self.controller.entries@.subrange(0, left.len() as int) =~= left);
                    assert forall|a: int, b: int|
                        0 <= a < self.controller.entries@.len() && 0 <= b
                            < self.controller.entries@.len() && a != b && labels_unique(
                            old(self).controller.entries@,
                        ) implies self.controller.entries@[a].label@
                        != self.controller.entries@[b].label@ by {
                        assert(left.len() == old(self).controller.entries@.len());
                        if a < left.len() && b < left.len() {
                            assert(left[a].label@ == old(self).controller.entries@[a].label@);
                            assert(left[b].label@ == old(self).controller.entries@[b].label@);
                        }
                    }
                }
                return Activation { previous, restore_url: None };
            },
        };
        self.controller.entries[i].last_active = now;
        let restore_url = match self.controller.entries[i].phase {
            Phase::Discarded => {
                self.controller.entries[i].phase = Phase::Restoring;
                match &self.controller.entries[i].snapshot {
                    Some(s) => Some(s.url.clone()),
                    None => None,
                }
            },
            Phase::Restoring => None,
            _ => {
                self.controller.entries[i].phase = Phase::Awake;
                None
            },
        };
        proof {
            assert(self.controller.entries@ =~= left.update(i as int, activated(left[i as int], now)));
            assert forall|a: int, b: int|
                0 <= a < self.controller.entries@.len() && 0 <= b < self.controller.entries@.len()
                    && a != b && labels_unique(old(self).controller.entries@) implies self.controller.entries@[a].label@
                != self.controller.entries@[b].label@ by {
                assert(left[a].label@ == old(self).controller.entries@[a].label@);
                assert(left[b].label@ == old(self).controller.entries@[b].label@);
            }
        }
        Activation { previous, restore_url }
    }

    /// Reloading a restored workspace failed: the previously active workspace
    /// is active again and the workspace stays discarded.
    pub fn activation_failed(&mut self, label: &str, previous: String)
        ensures
            final(self).budget_mb == old(self).budget_mb,
            final(self).used_bytes == old(self).used_bytes,
            final(self).controller.token == old(self).controller.token,
            final(self).controller.last_discard == old(self).controller.last_discard,
            final(self).controller.active == previous,
            position(old(self).controller.entries@, label@) matches Some(i) ==> final(self).controller.entries@
                == old(self).controller.entries@.update(
                i,
                Entry { phase: Phase::Discarded, ..old(self).controller.entries@[i] },
            ),
            position(old(self).controller.entries@, label@) is None ==> final(self).controller.entries@
                == old(self).controller.entries@,
            labels_unique(old(self).controller.entries@) ==> labels_unique(
                final(self).controller.entries@,
            ),
    {
        self.controller.active = previous;
        proof {
            lemma_position(self.controller.entries@, label@);
        }
        match position_of(&self.controller.entries, label) {
            Some(i) => {
                self.controller.entries[i].phase = Phase::Discarded;
            },
            None => {},
        }
    }

    /// A page of `label` started (`finished == false`) or finished loading
    /// `url`. The reload of a restored page, once finished, hands back the
    /// snapshot to apply to it; any other navigation wakes the workspace up,
    /// forgets its snapshot and counts as a check. A discarded workspace's
    /// own navigation to the sleeping page changes nothing.
    pub fn page_load(&mut self, label: &str, finished: bool, url: &str, now: u64) -> (r: Option<
        Snapshot<S>,
    >)
        ensures
            final(self).budget_mb == old(self).budget_mb,
            final(self).used_bytes == old(self).used_bytes,
            final(self).controller.active == old(self).controller.active,
            final(self).controller.token == old(self).controller.token,
            final(self).controller.last_discard == old(self).controller.last_discard,
            match position(old(self).controller.entries@, label@) {
                None => r is None && final(self).controller.entries@
                    == old(self).controller.entries@,
                Some(i) => {
                    let e = old(self).controller.entries@[i];
                    if e.phase is Discarded {
                        r is None && final(self).controller.entries@
                            == old(self).controller.entries@
                    } else if e.phase is Restoring && e.snapshot is Some && e.snapshot->0.url@
                        == url@ {
                        if finished {
                            r == e.snapshot && final(self).controller.entries@
                                == old(self).controller.entries@.update(
                                i,
                                Entry { phase: Phase::Awake, snapshot: None, ..e },
                            )
                        } else {
                            r is None && final(self).controller.entries@
                                == old(self).controller.entries@
                        }
                    } else {
                        r is None && final(self).controller.entries@
                            == old(self).controller.entries@.update(
                            i,
                            Entry { phase: Phase::Awake, snapshot: None, last_check: now, ..e },
                        )
                    }
                },
            },
            labels_unique(old(self).controller.entries@) ==> labels_unique(
                final(self).controller.entries@,
            ),
    {
        proof {
            lemma_position(self.controller.entries@, label@);
        }
        let i = match position_of(&self.controller.entries, label) {
            Some(i) => i,
            None => {
                return None;
            },
        };
        match self.controller.entries[i].phase {
            Phase::Discarded => {
                return None;
            },
            Phase::Restoring => {
                let same = match &self.controller.entries[i].snapshot {
                    Some(s) => str_eq(s.url.as_str(), url),
                    None => false,
                };
                if same {
                    if finished {
                        self.controller.entries[i].phase = Phase::Awake;
                        let taken = self.controller.entries[i].snapshot.take();
                        return taken;
                    }
                    return None;
                }
            },
            _ => {},
        }
        self.controller.entries[i].phase = Phase::Awake;
        self.controller.entries[i].snapshot = None;
        self.controller.entries[i].last_check = now;
        None
    }

    /// The snapshot to apply to a restored page that shows `current_url`:
    /// only while the workspace is restoring and the page shows the address
    /// that was saved.
    pub fn memory_restore(&self, label: &str, current_url: Option<&str>) -> (r: Option<&Snapshot<S>>)
        ensures
            match r {
                Some(s) => restorable(self.controller.entries@, label@, opt_str_view(current_url))
                    == Some(*s),
                None => restorable(self.controller.entries@, label@, opt_str_view(current_url))
                    is None,
            },
    {
        proof {
            lemma_position(self.controller.entries@, label@);
        }
        let i = match position_of(&self.controller.entries, label) {
            Some(i) => i,
            None => {
                return None;
            },
        };
        let e = &self.controller.entries[i];
        match &e.snapshot {
            Some(s) => {
                let restoring = match e.phase {
                    Phase::Restoring => true,
                    _ => false,
                };
                let shown = match current_url {
                    Some(u) => str_eq(u, s.url.as_str()),
                    None => false,
                };
                if restoring && shown {
                    Some(s)
                } else {
                    None
                }
            },
            None => None,
        }
    }

    /// What the settings page shows: whether management is supported here,
    /// the measured use in MiB (none while unknown), the budget, how many
    /// workspaces are suspended and discarded, and whether use is over budget.
    pub fn memory_status(&self, supported: bool) -> (r: Status)
        requires
            budget_bytes_fit(self.budget_mb),
        ensures
            r.supported == supported,
            r.used_mb == (if self.used_bytes > 0 {
                Some((self.used_bytes / 1048576) as u64)
            } else {
                None
            }),
            r.budget_mb == self.budget_mb,
            r.suspended == count_suspended(self.controller.entries@),
            r.discarded == count_discarded(self.controller.entries@),
            r.suspended + r.discarded <= self.controller.entries@.len(),
            r.over_budget == (self.used_bytes > self.budget_mb * 1048576),
    {
        let mut suspended: usize = 0;
        let mut discarded: usize = 0;
        let mut i: usize = 0;
        while i < self.controller.entries.len()
            invariant
                i <= self.controller.entries.len(),
                suspended == count_suspended(self.controller.entries@.subrange(0, i as int)),
                discarded == count_discarded(self.controller.entries@.subrange(0, i as int)),
                suspended <= i,
                discarded <= i,
            decreases self.controller.entries.len() - i,
        {
            proof {
                let sub = self.controller.entries@.subrange(0, i + 1);
                assert(sub.drop_last() =~= self.controller.entries@.subrange(0, i as int));
                assert(sub.last() == self.controller.entries@[i as int]);
            }
            match self.controller.entries[i].phase {
                Phase::Suspended { .. } => {
                    suspended = suspended + 1;
                },
                Phase::Discarded => {
                    discarded = discarded + 1;
                },
                _ => {},
            }
            i = i + 1;
        }
        proof {
            assert(self.controller.entries@.subrange(0, i as int) =~= self.controller.entries@);
        }
        proof {
            lemma_counts_disjoint(self.controller.entries@);
        }
        let used_mb = if self.used_bytes > 0 {
            Some(self.used_bytes / 1024 / 1024)
        } else {
            None
        };
        Status {
            supported,
            used_mb,
            budget_mb: self.budget_mb,
            suspended,
            discarded,
            over_budget: self.used_bytes > self.budget_mb * 1024 * 1024,
        }
    }
}

/// The workspace chosen for a check is never the active one, nor one used in
/// the last `IDLE_MS`, nor one checked in the last `SETTLE_MS`.
pub proof fn lemma_choice_spares_active_and_recent<S>(
    entries: Seq<Entry<S>>,
    active: Seq<char>,
    now: u64,
    pressure: bool,
    i: int,
    a: Action,
)
    requires
        is_choice(entries, active, now, pressure, i, a),
    ensures
        entries[i].label@ != active,
        elapsed(now, entries[i].last_active) >= IDLE_MS,
        elapsed(now, entries[i].last_check) >= SETTLE_MS,
        now >= entries[i].last_active + 30000,
        now >= entries[i].last_check + 15000,
        entries[i].phase is Awake || entries[i].phase is Suspended,
        forall|j: int|
            0 <= j < entries.len() && #[trigger] eligible_action(entries[j], active, now, pressure)
                is Some ==> entries[i].last_active <= entries[j].last_active,
{
}

/// Only awake workspaces are chosen to be suspended, and a discard is chosen
/// only under memory pressure, for a workspace suspended for `SETTLE_MS`.
pub proof fn lemma_discard_only_under_pressure<S>(
    entries: Seq<Entry<S>>,
    active: Seq<char>,
    now: u64,
    pressure: bool,
    i: int,
    a: Action,
)
    requires
        is_choice(entries, active, now, pressure, i, a),
    ensures
        a == Action::Suspend ==> entries[i].phase is Awake,
        a == Action::Discard ==> pressure && (entries[i].phase matches Phase::Suspended { since }
            && elapsed(now, since) >= SETTLE_MS),
        !pressure ==> a == Action::Suspend,
{
}

/// The choice is determined: the least recently active candidate, the first
/// of them on a tie.
pub proof fn lemma_choice_unique<S>(
    entries: Seq<Entry<S>>,
    active: Seq<char>,
    now: u64,
    pressure: bool,
    i: int,
    a: Action,
    j: int,
    b: Action,
)
    requires
        is_choice(entries, active, now, pressure, i, a),
        is_choice(entries, active, now, pressure, j, b),
    ensures
        i == j,
        a == b,
{
    if i < j {
        assert(eligible_action(entries[i], active, now, pressure) is Some);
    } else if j < i {
        assert(eligible_action(entries[j], active, now, pressure) is Some);
    }
}

/// No pressure is seen while a discard settles, nor while memory use is
/// unknown (recorded as 0): unknown use never leads to a discard.
pub proof fn lemma_no_pressure_when_settling_or_unknown<S>(m: MemoryManager<S>, now: u64)
    ensures
        settling(m.controller.last_discard, now) ==> !m.pressure_at(now),
        m.used_bytes == 0 ==> !m.pressure_at(now),
        m.used_bytes == 0 ==> !over_threshold(m.used_bytes, m.budget_mb),
{
}

/// Two entry lists with the same labels at the same places find labels at
/// the same places.
pub proof fn lemma_position_same_labels<S>(a: Seq<Entry<S>>, b: Seq<Entry<S>>, label: Seq<char>)
    requires
        a.len() == b.len(),
        forall|k: int| 0 <= k < a.len() ==> #[trigger] a[k].label@ == b[k].label@,
    ensures
        position(a, label) == position(b, label),
{
    lemma_position(a, label);
    lemma_position(b, label);
    if let Some(i) = position(a, label) {
        if let Some(j) = position(b, label) {
            if i < j {
                assert(b[i].label@ == label);
            } else if j < i {
                assert(a[j].label@ == label);
            }
        } else {
            assert(b[i].label@ == label);
        }
    } else {
        if let Some(j) = position(b, label) {
            assert(a[j].label@ == label);
        }
    }
}

/// A discarded workspace comes back: activating it gives the saved address
/// to reload, and the reloaded page, once it shows that address, gets the
/// saved snapshot.
pub proof fn lemma_discarded_workspace_restores<S>(
    entries: Seq<Entry<S>>,
    active: Seq<char>,
    label: Seq<char>,
    now: u64,
)
    requires
        position(entries, label) is Some,
        entries[position(entries, label)->0].phase is Discarded,
        entries[position(entries, label)->0].snapshot is Some,
    ensures
        ({
            let old_e = entries[position(entries, label)->0];
            let url = old_e.snapshot->0.url@;
            let left = left_entries(entries, active, label, now);
            &&& position(left, label) == position(entries, label)
            &&& restore_url_of(left[position(entries, label)->0]) == Some(url)
            &&& restorable(
                left.update(
                    position(entries, label)->0,
                    activated(left[position(entries, label)->0], now),
                ),
                label,
                Some(url),
            ) == old_e.snapshot
        }),
{
    let i = position(entries, label)->0;
    lemma_position(entries, label);
    let left = left_entries(entries, active, label, now);
    if active != label && position(entries, active) is Some {
        lemma_position(entries, active);
        let k = position(entries, active)->0;
        assert(k != i);
    }
    assert(left.len() == entries.len());
    assert forall|k: int| 0 <= k < left.len() implies #[trigger] left[k].label@ == entries[k].label@ by {
    }
    lemma_position_same_labels(left, entries, label);
    assert(left[i] == entries[i]);
    let after = left.update(i, activated(left[i], now));
    assert forall|k: int| 0 <= k < after.len() implies #[trigger] after[k].label@ == entries[k].label@ by {
    }
    lemma_position_same_labels(after, entries, label);
}

/// Leaving the active workspace only touches the active workspace's entry:
/// the entry of the workspace being activated stays where and as it was.
pub proof fn lemma_left_keeps_entry<S>(
    entries: Seq<Entry<S>>,
    active: Seq<char>,
    label: Seq<char>,
    now: u64,
)
    ensures
        ({
            let left = left_entries(entries, active, label, now);
            &&& left.len() == entries.len()
            &&& position(left, label) == position(entries, label)
            &&& position(entries, label) matches Some(i) ==> left[i] == entries[i]
        }),
{
    let left = left_entries(entries, active, label, now);
    lemma_position(entries, label);
    if active != label && position(entries, active) is Some {
        lemma_position(entries, active);
    }
    assert forall|k: int| 0 <= k < left.len() implies #[trigger] left[k].label@ == entries[k].label@ by {
    }
    lemma_position_same_labels(left, entries, label);
}

/// Only a discarded workspace is reloaded on activation, at the address saved
/// in its snapshot; a workspace in any other phase (awake, checked,
/// suspending, suspended, restoring) gets no address to reload.
pub proof fn lemma_only_discarded_reloads<S>(entries: Seq<Entry<S>>, label: Seq<char>)
    ensures
        forall|i: int|
            0 <= i < entries.len() ==> (#[trigger] restore_url_of(entries[i]) is Some <==> (
            entries[i].phase == Phase::Discarded && entries[i].snapshot is Some)),
        forall|i: int|
            0 <= i < entries.len() && entries[i].phase != Phase::Discarded ==> #[trigger] restore_url_of(
                entries[i],
            ) is None,
        forall|i: int|
            0 <= i < entries.len() && #[trigger] restore_url_of(entries[i]) is Some ==> restore_url_of(
                entries[i],
            ) == Some(entries[i].snapshot->0.url@),
{
}

/// Each workspace is counted at most once: no entry is counted both as
/// suspended and as discarded, so the two counts never exceed the entries.
pub proof fn lemma_counts_disjoint<S>(entries: Seq<Entry<S>>)
    ensures
        count_suspended(entries) + count_discarded(entries) <= entries.len(),
        (forall|i: int| 0 <= i < entries.len() ==> !(entries[i].phase is Suspended))
            ==> count_suspended(entries) == 0,
        (forall|i: int| 0 <= i < entries.len() ==> !(entries[i].phase is Discarded))
            ==> count_discarded(entries) == 0,
    decreases entries.len(),
{
    if entries.len() > 0 {
        let init = entries.drop_last();
        lemma_counts_disjoint(init);
        assert forall|i: int| 0 <= i < init.len() implies init[i] == entries[i] by {}
        assert(entries.last() == entries[entries.len() - 1]);
    }
}

/// A workspace checked at `now` is not chosen again before `now + SETTLE_MS`,
/// whatever happened to its phase meanwhile.
pub proof fn lemma_recently_checked_not_chosen<S>(
    entries: Seq<Entry<S>>,
    active: Seq<char>,
    now: u64,
    later: u64,
    pressure: bool,
    i: int,
    a: Action,
)
    requires
        0 <= i < entries.len(),
        entries[i].last_check == now,
        now <= later,
        later < now + SETTLE_MS,
    ensures
        !is_choice(expired(entries, later), active, later, pressure, i, a),
{
    assert(expired(entries, later)[i] == after_expiry(entries[i], later));
}

/// The documented timings and limits: workspaces are checked after 30 s of
/// inactivity, 15 s are left between decisions, memory is sampled every 5 s,
/// and the default budget is 1 GiB.
pub proof fn lemma_documented_timings()
    ensures
        IDLE_MS == 30000,
        SETTLE_MS == 15000,
        SAMPLE_INTERVAL_MS == 5000,
        DEFAULT_BUDGET_MB == 1024,
{
}

/// Memory pressure is use above 90% of the budget: ten times the bytes used
/// exceed nine times the budget in bytes.
pub proof fn lemma_pressure_is_ninety_percent(used_bytes: u64, budget_mb: u64)
    ensures
        over_threshold(used_bytes, budget_mb) <==> used_bytes * 10 > budget_mb * 9437184,
{
    let x = budget_mb * 1048576 * 9;
    assert(x == budget_mb * 9437184);
    vstd::arithmetic::div_mod::lemma_fundamental_div_mod(x, 10);
    vstd::arithmetic::div_mod::lemma_mod_bound(x, 10);
}

/// Activating a workspace wakes it: a discarded or restoring workspace is
/// restoring afterwards, any other is awake; it counts as used now, and its
/// label, last check and snapshot are kept.
pub proof fn lemma_activation_wakes<S>(e: Entry<S>, now: u64)
    ensures
        activated(e, now).phase == (if e.phase == Phase::Discarded || e.phase == Phase::Restoring {
            Phase::Restoring
        } else {
            Phase::Awake
        }),
        activated(e, now).last_active == now,
        activated(e, now).last_check == e.last_check,
        activated(e, now).label == e.label,
        activated(e, now).snapshot == e.snapshot,
{
}

/// A check or suspension left without an answer for more than 15 s is given
/// up and the workspace is awake again; any other entry is left as it is.
pub proof fn lemma_expiry_wakes_stale_waits<S>(e: Entry<S>, now: u64)
    ensures
        (e.phase matches Phase::Checking { since, .. } && now > since + 15000) ==> after_expiry(
            e,
            now,
        ).phase == Phase::Awake,
        (e.phase matches Phase::Suspending { since, .. } && now > since + 15000) ==> after_expiry(
            e,
            now,
        ).phase == Phase::Awake,
        !(e.phase is Checking) && !(e.phase is Suspending) ==> after_expiry(e, now) == e,
        (e.phase matches Phase::Checking { since, .. } && now <= since + 15000) ==> after_expiry(
            e,
            now,
        ) == e,
        after_expiry(e, now).label == e.label && after_expiry(e, now).last_active == e.last_active
            && after_expiry(e, now).last_check == e.last_check && after_expiry(e, now).snapshot
            == e.snapshot,
{
}

} // verus!

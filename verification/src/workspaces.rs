//! The workspaces of the window: webviews labelled `ws0`, `ws1`, ..., one of
//! them active, switched in a ring and created one at a time.
use vstd::prelude::*;
use crate::text::str_eq;

verus! {

/// The most workspaces a window holds.
pub const MAX_WORKSPACES: usize = 12;

/// The character of a decimal digit.
pub open spec fn digit(d: nat) -> char {
    (48 + d) as char
}

/// The decimal notation of `n`.
pub open spec fn decimal(n: nat) -> Seq<char>
    decreases n,
{
    if n < 10 {
        seq![digit(n)]
    } else {
        decimal(n / 10) + seq![digit(n % 10)]
    }
}

/// The label of the workspace at `index`: `ws` and the index.
pub open spec fn ws_label(index: nat) -> Seq<char> {
    seq!['w', 's'] + decimal(index)
}

proof fn lemma_decimal_shape(n: nat)
    ensures
        decimal(n).len() >= 1,
        n < 10 <==> decimal(n).len() == 1,
        decimal(n).last() == digit(n % 10),
        n >= 10 ==> decimal(n).drop_last() == decimal(n / 10),
    decreases n,
{
    if n >= 10 {
        lemma_decimal_shape(n / 10);
        assert((decimal(n / 10) + seq![digit(n % 10)]).drop_last() =~= decimal(n / 10));
    }
}

/// Different numbers are written differently.
pub proof fn lemma_decimal_injective(a: nat, b: nat)
    requires
        decimal(a) == decimal(b),
    ensures
        a == b,
    decreases a,
{
    lemma_decimal_shape(a);
    lemma_decimal_shape(b);
    assert(digit(a % 10) == digit(b % 10));
    assert(a % 10 == b % 10);
    if a >= 10 && b >= 10 {
        lemma_decimal_injective(a / 10, b / 10);
    }
}

/// Different workspaces have different labels.
pub proof fn lemma_ws_label_injective(a: nat, b: nat)
    requires
        ws_label(a) == ws_label(b),
    ensures
        a == b,
{
    assert(decimal(a) =~= ws_label(a).subrange(2, ws_label(a).len() as int));
    assert(decimal(b) =~= ws_label(b).subrange(2, ws_label(b).len() as int));
    lemma_decimal_injective(a, b);
}

fn digit_str(d: usize) -> (r: &'static str)
    requires
        d < 10,
    ensures
        r@ == seq![digit(d as nat)],
{
    proof {
        reveal_strlit("0");
        reveal_strlit("1");
        reveal_strlit("2");
        reveal_strlit("3");
        reveal_strlit("4");
        reveal_strlit("5");
        reveal_strlit("6");
        reveal_strlit("7");
        reveal_strlit("8");
        reveal_strlit("9");
    }
    match d {
        0 => "0",
        1 => "1",
        2 => "2",
        3 => "3",
        4 => "4",
        5 => "5",
        6 => "6",
        7 => "7",
        8 => "8",
        _ => "9",
    }
}

/// The decimal notation of `n`.
pub fn decimal_string(n: usize) -> (r: String)
    ensures
        r@ == decimal(n as nat),
    decreases n,
{
    if n < 10 {
        String::from_str(digit_str(n))
    } else {
        let head = decimal_string(n / 10);
        head.concat(digit_str(n % 10))
    }
}

/// The label of the workspace at `index`.
pub fn workspace_label(index: usize) -> (r: String)
    ensures
        r@ == ws_label(index as nat),
{
    proof {
        reveal_strlit("ws");
    }
    String::from_str("ws").concat(decimal_string(index).as_str())
}

/// The script that shows, in a page, the badge with the workspace number
/// (counted from 1) and the number of workspaces.
pub open spec fn badge_script(index: nat, total: nat) -> Seq<char> {
    "(() => {\n          let badge = document.querySelector('#minibrowser-workspace-badge');\n          if (!badge) {\n            badge = document.createElement('div');\n            badge.id = 'minibrowser-workspace-badge';\n            Object.assign(badge.style, {\n              position: 'fixed', left: '14px', bottom: '14px', zIndex: '2147483647',\n              padding: '6px 9px', borderRadius: '8px', pointerEvents: 'none',\n              background: '#15171dee', color: '#c8ced8', border: '1px solid #3d4552',\n              font: '11px/1.2 system-ui, sans-serif', boxShadow: '0 8px 24px #0008'\n            });\n            document.documentElement.appendChild(badge);\n          }\n          badge.textContent = 'Espacio "@ + decimal(index + 1) + " / "@ + decimal(total) + "';\n        })()"@
}

/// The badge script for workspace `index` of `total`.
pub fn workspace_badge_script(index: usize, total: usize) -> (r: String)
    requires
        index < usize::MAX,
    ensures
        r@ == badge_script(index as nat, total as nat),
{
    let shown = index + 1;
    String::from_str("(() => {\n          let badge = document.querySelector('#minibrowser-workspace-badge');\n          if (!badge) {\n            badge = document.createElement('div');\n            badge.id = 'minibrowser-workspace-badge';\n            Object.assign(badge.style, {\n              position: 'fixed', left: '14px', bottom: '14px', zIndex: '2147483647',\n              padding: '6px 9px', borderRadius: '8px', pointerEvents: 'none',\n              background: '#15171dee', color: '#c8ced8', border: '1px solid #3d4552',\n              font: '11px/1.2 system-ui, sans-serif', boxShadow: '0 8px 24px #0008'\n            });\n            document.documentElement.appendChild(badge);\n          }\n          badge.textContent = 'Espacio ")
        .concat(decimal_string(shown).as_str())
        .concat(" / ")
        .concat(decimal_string(total).as_str())
        .concat("';\n        })()")
}

/// What the workspaces are: how many, which is active, whether one is being
/// created, and whether the one being created has been added already.
pub struct WorkspacesView {
    pub count: nat,
    pub active: nat,
    pub creating: bool,
    pub pending: bool,
}

/// Why a workspace could not be created.
#[derive(Clone, Copy, Debug, PartialEq, Eq, Structural)]
pub enum CreateError {
    /// Another workspace is being created.
    Busy,
    /// The window holds `MAX_WORKSPACES` already.
    Limit,
    /// The window's size could not be read.
    WindowSize,
    /// The webview could not be added to the window.
    AddFailed,
}

/// The message shown for each refusal.
pub open spec fn create_error_message(e: CreateError) -> Seq<char> {
    match e {
        CreateError::Busy => "Ya se está creando un workspace"@,
        CreateError::Limit => "Límite de 12 workspaces alcanzado"@,
        CreateError::WindowSize => "No se pudo obtener el tamaño de la ventana"@,
        CreateError::AddFailed => "No se pudo crear el workspace"@,
    }
}

impl CreateError {
    /// The message shown to the user.
    pub fn message(&self) -> (r: String)
        ensures
            r@ == create_error_message(*self),
    {
        match self {
            CreateError::Busy => String::from_str("Ya se está creando un workspace"),
            CreateError::Limit => String::from_str("Límite de 12 workspaces alcanzado"),
            CreateError::WindowSize => String::from_str("No se pudo obtener el tamaño de la ventana"),
            CreateError::AddFailed => String::from_str("No se pudo crear el workspace"),
        }
    }
}

/// A workspace being created: its label and the label of the workspace that
/// was active when it was asked for.
pub struct NewWorkspace {
    pub label: String,
    pub current: String,
}

/// A switch between workspaces: the label left, the label shown, and the
/// shown workspace's index among `total`.
pub struct Switch {
    pub from: String,
    pub to: String,
    pub index: usize,
    pub total: usize,
}

/// The workspaces of the window.
pub struct Workspaces {
    labels: Vec<String>,
    active: usize,
    creating: bool,
    pending: bool,
}

impl View for Workspaces {
    type V = WorkspacesView;

    closed spec fn view(&self) -> WorkspacesView {
        WorkspacesView {
            count: self.labels@.len(),
            active: self.active as nat,
            creating: self.creating,
            pending: self.pending,
        }
    }
}

/// The index of the workspace labelled `label`, if any of the first `count` is.
pub open spec fn label_index(count: nat, label: Seq<char>) -> Option<nat> {
    if exists|i: nat| i < count && ws_label(i) == label {
        Some(choose|i: nat| i < count && ws_label(i) == label)
    } else {
        None
    }
}

/// The index a switch starts from: the workspace labelled `current`, or the
/// active one when none is.
pub open spec fn start_index(w: WorkspacesView, current: Seq<char>) -> int {
    match label_index(w.count, current) {
        Some(i) => i as int,
        None => w.active as int,
    }
}

/// The ring index `dir` steps from `cur` among `n`.
pub open spec fn ring_step(cur: int, dir: int, n: int) -> int {
    (cur + dir) % n
}

impl Workspaces {
    #[verifier::type_invariant]
    closed spec fn well_formed(&self) -> bool {
        &&& self.active < self.labels@.len()
        &&& self.labels@.len() <= MAX_WORKSPACES
        &&& forall|i: int| 0 <= i < self.labels@.len() ==> #[trigger] self.labels@[i]@ == ws_label(
            i as nat,
        )
    }

    /// One workspace, `ws0`, active; none being created.
    pub fn new() -> (r: Self)
        ensures
            r@ == (WorkspacesView { count: 1, active: 0, creating: false, pending: false }),
    {
        let mut labels: Vec<String> = Vec::new();
        labels.push(workspace_label(0));
        Workspaces { labels, active: 0, creating: false, pending: false }
    }

    /// Whether a workspace is being created.
    pub fn is_creating(&self) -> (r: bool)
        ensures
            r == self@.creating,
    {
        self.creating
    }

    /// The label of the active workspace.
    pub fn active_label(&self) -> (r: String)
        ensures
            r@ == ws_label(self@.active),
    {
        proof {
            use_type_invariant(self);
        }
        self.labels[self.active].clone()
    }

    /// The active workspace counted from 1, and how many there are.
    pub fn payload(&self) -> (r: (usize, usize))
        ensures
            r.0 == self@.active + 1,
            r.1 == self@.count,
            self@.active < self@.count <= MAX_WORKSPACES,
    {
        proof {
            use_type_invariant(self);
        }
        (self.active + 1, self.labels.len())
    }

    /// The index of the workspace labelled `label`.
    pub fn index_of(&self, label: &str) -> (r: Option<usize>)
        ensures
            r matches Some(i) ==> label_index(self@.count, label@) == Some(i as nat),
            r is None ==> label_index(self@.count, label@) is None,
    {
        proof {
            use_type_invariant(self);
        }
        let mut i: usize = 0;
        while i < self.labels.len()
            invariant
                i <= self.labels@.len(),
                forall|j: int| 0 <= j < self.labels@.len() ==> #[trigger] self.labels@[j]@ == ws_label(
                    j as nat,
                ),
                forall|j: nat| j < i ==> ws_label(j) != label@,
            decreases self.labels.len() - i,
        {
            if str_eq(self.labels[i].as_str(), label) {
                proof {
                    assert(self.labels@[i as int]@ == ws_label(i as nat));
                    let k = choose|k: nat| k < self.labels@.len() && ws_label(k) == label@;
                    lemma_ws_label_injective(k, i as nat);
                }
                return Some(i);
            }
            proof {
                assert(self.labels@[i as int]@ == ws_label(i as nat));
            }
            i = i + 1;
        }
        None
    }

    /// The workspace a switch starts from: the one labelled `current`, or the
    /// active one when no workspace has that label.
    pub fn current_index(&self, current: &str) -> (r: usize)
        ensures
            r == start_index(self@, current@),
            r < self@.count,
    {
        proof {
            use_type_invariant(self);
        }
        match self.index_of(current) {
            Some(i) => i,
            None => self.active,
        }
    }

    /// Switches `dir` steps around the ring from the workspace labelled
    /// `current` (or from the active one, when no workspace has that label).
    /// Switching onto the same workspace does nothing.
    pub fn switch(&mut self, current: &str, dir: i32) -> (r: Option<Switch>)
        requires
            i32::MIN <= start_index(old(self)@, current@) + dir <= i32::MAX,
        ensures
            ({
                let n = old(self)@.count;
                let cur = start_index(old(self)@, current@);
                let target = ring_step(cur, dir as int, n as int);
                &&& target == cur ==> r is None && final(self)@ == old(self)@
                &&& target != cur ==> (r matches Some(s) && s.from@ == ws_label(cur as nat) && s.to@
                    == ws_label(target as nat) && s.index == target && s.total == n
                    && final(self)@ == (WorkspacesView { active: target as nat, ..old(self)@ }))
            }),
    {
        proof {
            use_type_invariant(&*self);
        }
        let n = self.labels.len();
        let cur = self.current_index(current);
        let m = n as i64;
        let x = cur as i64 + dir as i64;
        let target: usize;
        if x >= 0 {
            target = ((x as u64) % (m as u64)) as usize;
        } else {
            let k = ((-x) as u64) % (m as u64);
            proof {
                lemma_negative_mod(x as int, m as int, k as int);
            }
            target = if k == 0 {
                0
            } else {
                (m as u64 - k) as usize
            };
        }
        if target == cur {
            return None;
        }
        let from = self.labels[cur].clone();
        let to = self.labels[target].clone();
        self.active = target;
        proof {
            assert(self.labels@[cur as int]@ == ws_label(cur as nat));
            assert(self.labels@[target as int]@ == ws_label(target as nat));
        }
        Some(Switch { from, to, index: target, total: n })
    }

    /// Starts creating a workspace once the window's size is known
    /// (`size_known`): refused while another is being created or when the
    /// window is full; otherwise the new label `ws<count>` is added, and the
    /// label of the active workspace is returned with it.
    pub fn begin_create(&mut self, size_known: bool) -> (r: Result<NewWorkspace, CreateError>)
        ensures
            old(self)@.creating ==> r == Err::<NewWorkspace, CreateError>(CreateError::Busy)
                && final(self)@ == old(self)@,
            !old(self)@.creating && old(self)@.count >= MAX_WORKSPACES ==> r == Err::<
                NewWorkspace,
                CreateError,
            >(CreateError::Limit) && final(self)@ == old(self)@,
            !old(self)@.creating && old(self)@.count < MAX_WORKSPACES && !size_known ==> r
                == Err::<NewWorkspace, CreateError>(CreateError::WindowSize) && final(self)@ == old(
                self)@,
            !old(self)@.creating && old(self)@.count < MAX_WORKSPACES && size_known ==> (r matches Ok(
                w,
            ) && w.label@ == ws_label(old(self)@.count) && w.current@ == ws_label(old(self)@.active)
                && final(self)@ == (WorkspacesView {
                count: old(self)@.count + 1,
                active: old(self)@.active,
                creating: true,
                pending: true,
            })),
    {
        proof {
            use_type_invariant(&*self);
        }
        if self.creating {
            return Err(CreateError::Busy);
        }
        if self.labels.len() >= MAX_WORKSPACES {
            return Err(CreateError::Limit);
        }
        if !size_known {
            return Err(CreateError::WindowSize);
        }
        let count = self.labels.len();
        let label = workspace_label(count);
        let current = self.labels[self.active].clone();
        proof {
            assert(self.labels@[self.active as int]@ == ws_label(self.active as nat));
        }
        let mut labels = copy_prefix(&self.labels, count);
        labels.push(label.clone());
        self.labels = labels;
        self.creating = true;
        self.pending = true;
        Ok(NewWorkspace { label, current })
    }

    /// The webview of the workspace being created could not be added: its
    /// label is taken back and creation ends.
    pub fn abandon_create(&mut self)
        ensures
            old(self)@.pending && old(self)@.count > 1 ==> final(self)@ == (WorkspacesView {
                count: (old(self)@.count - 1) as nat,
                active: if old(self)@.active + 1 < old(self)@.count {
                    old(self)@.active
                } else {
                    (old(self)@.count - 2) as nat
                },
                creating: false,
                pending: false,
            }),
            !(old(self)@.pending && old(self)@.count > 1) ==> final(self)@ == (WorkspacesView {
                creating: false,
                pending: false,
                ..old(self)@
            }),
    {
        proof {
            use_type_invariant(&*self);
        }
        if self.pending && self.labels.len() > 1 {
            let last = self.labels.len() - 1;
            let new_active = if self.active < last {
                self.active
            } else {
                last - 1
            };
            self.active = new_active;
            self.labels = copy_prefix(&self.labels, last);
        }
        self.creating = false;
        self.pending = false;
    }

    /// The first page of the workspace labelled `label` finished loading: it
    /// becomes the active one, and creation ends. Returns its index and the
    /// number of workspaces, for the badge.
    pub fn finish_create(&mut self, label: &str) -> (r: Option<(usize, usize)>)
        ensures
            match label_index(old(self)@.count, label@) {
                Some(i) => r == Some((i as usize, old(self)@.count as usize)) && final(self)@
                    == (WorkspacesView {
                    active: i,
                    creating: false,
                    pending: false,
                    ..old(self)@
                }),
                None => r is None && final(self)@ == (WorkspacesView {
                    creating: false,
                    pending: false,
                    ..old(self)@
                }),
            },
    {
        proof {
            use_type_invariant(&*self);
        }
        let found = self.index_of(label);
        let total = self.labels.len();
        match found {
            Some(i) => {
                self.active = i;
                self.creating = false;
                self.pending = false;
                Some((i, total))
            },
            None => {
                self.creating = false;
                self.pending = false;
                None
            },
        }
    }
}

/// The first `n` labels, copied.
fn copy_prefix(labels: &Vec<String>, n: usize) -> (r: Vec<String>)
    requires
        n <= labels.len(),
    ensures
        r@ == labels@.subrange(0, n as int),
{
    let mut r: Vec<String> = Vec::new();
    let mut i: usize = 0;
    while i < n
        invariant
            i <= n <= labels.len(),
            r@ == labels@.subrange(0, i as int),
        decreases n - i,
    {
        r.push(labels[i].clone());
        proof {
            assert(labels@.subrange(0, i + 1) =~= labels@.subrange(0, i as int).push(labels@[i as int]));
        }
        i = i + 1;
    }
    r
}

/// The ring index of a negative position: `x % m` counts up from the
/// remainder of `-x`.
proof fn lemma_negative_mod(x: int, m: int, k: int)
    requires
        x < 0,
        m > 0,
        k == (-x) % m,
    ensures
        x % m == if k == 0 {
            0
        } else {
            m - k
        },
{
    let y = -x;
    vstd::arithmetic::div_mod::lemma_fundamental_div_mod(y, m);
    let q = y / m;
    assert(y == m * q + k);
    vstd::arithmetic::div_mod::lemma_mod_bound(y, m);
    if k == 0 {
        assert(x == (-q) * m + 0) by (nonlinear_arith)
            requires
                y == m * q + k,
                k == 0,
                x == -y,
        ;
        vstd::arithmetic::div_mod::lemma_fundamental_div_mod_converse(x, m, -q, 0);
    } else {
        assert(x == (-q - 1) * m + (m - k)) by (nonlinear_arith)
            requires
                y == m * q + k,
                x == -y,
        ;
        vstd::arithmetic::div_mod::lemma_fundamental_div_mod_converse(x, m, -q - 1, m - k);
    }
}

/// Switching lands on a workspace of the ring, and switching back the same
/// number of steps returns to where one started.
pub proof fn lemma_switch_back(cur: int, dir: int, n: int)
    requires
        0 <= cur < n,
    ensures
        0 <= ring_step(cur, dir, n) < n,
        ring_step(ring_step(cur, dir, n), -dir, n) == cur,
{
    let x = cur + dir;
    vstd::arithmetic::div_mod::lemma_mod_bound(x, n);
    vstd::arithmetic::div_mod::lemma_add_mod_noop(x, -dir, n);
    vstd::arithmetic::div_mod::lemma_add_mod_noop_right(x % n, -dir, n);
    vstd::arithmetic::div_mod::lemma_small_mod(cur as nat, n as nat);
    assert(x + (-dir) == cur);
}

/// The ring index after `k` steps of `dir` from `cur` among `n`.
pub open spec fn ring_steps(cur: int, dir: int, n: int, k: nat) -> int
    decreases k,
{
    if k == 0 {
        cur
    } else {
        ring_step(ring_steps(cur, dir, n, (k - 1) as nat), dir, n)
    }
}

/// `k` steps of `dir` land where one jump of `k * dir` lands.
pub proof fn lemma_ring_steps(cur: int, dir: int, n: int, k: nat)
    requires
        0 <= cur < n,
    ensures
        ring_steps(cur, dir, n, k) == (cur + k * dir) % n,
    decreases k,
{
    if k == 0 {
        vstd::arithmetic::div_mod::lemma_small_mod(cur as nat, n as nat);
    } else {
        lemma_ring_steps(cur, dir, n, (k - 1) as nat);
        let x = cur + (k - 1) * dir;
        vstd::arithmetic::div_mod::lemma_add_mod_noop(x, dir, n);
        vstd::arithmetic::div_mod::lemma_add_mod_noop_right(x % n, dir, n);
        assert(x + dir == cur + k * dir) by (nonlinear_arith)
            requires
                x == cur + (k - 1) * dir,
                k >= 1,
        ;
    }
}

/// Going around: `n` single steps in either direction through a ring of `n`
/// workspaces come back to the start.
pub proof fn lemma_full_turn(cur: int, n: int)
    requires
        0 <= cur < n,
    ensures
        ring_steps(cur, 1, n, n as nat) == cur,
        ring_steps(cur, -1, n, n as nat) == cur,
{
    lemma_ring_steps(cur, 1, n, n as nat);
    lemma_ring_steps(cur, -1, n, n as nat);
    vstd::arithmetic::div_mod::lemma_mod_multiples_vanish(1, cur, n);
    vstd::arithmetic::div_mod::lemma_mod_multiples_vanish(-1, cur, n);
    vstd::arithmetic::div_mod::lemma_small_mod(cur as nat, n as nat);
    assert(cur + n * 1 == n * 1 + cur);
    assert(cur + n * -1 == n * -1 + cur);
}

/// A switch from the active workspace's own label starts at the active
/// workspace, so successive switches follow `ring_steps`.
pub proof fn lemma_start_at_active(w: WorkspacesView)
    requires
        w.active < w.count,
    ensures
        start_index(w, ws_label(w.active)) == w.active,
{
    assert(w.active < w.count && ws_label(w.active) == ws_label(w.active));
    let i = choose|i: nat| i < w.count && #[trigger] ws_label(i) == ws_label(w.active);
    lemma_ws_label_injective(i, w.active);
}
/// One step forward goes to the next workspace, wrapping from the last to the
/// first; one step back goes to the previous, wrapping from the first to the
/// last.
pub proof fn lemma_single_steps(cur: int, n: int)
    requires
        0 <= cur < n,
    ensures
        ring_step(cur, 1, n) == if cur + 1 == n {
            0
        } else {
            cur + 1
        },
        ring_step(cur, -1, n) == if cur == 0 {
            n - 1
        } else {
            cur - 1
        },
{
    if cur + 1 == n {
        vstd::arithmetic::div_mod::lemma_mod_self_0(n);
    } else {
        vstd::arithmetic::div_mod::lemma_small_mod((cur + 1) as nat, n as nat);
    }
    if cur == 0 {
        vstd::arithmetic::div_mod::lemma_fundamental_div_mod_converse(-1, n, -1, n - 1);
    } else {
        vstd::arithmetic::div_mod::lemma_small_mod((cur - 1) as nat, n as nat);
    }
}

} // verus!

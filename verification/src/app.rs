//! The picker's state machine: keys and task results in, next state and the
//! outside work to start out.
use vstd::prelude::*;

use crate::domain::{
    blocker_message, recovery_mode, recovery_mode_spec, BlockerView,
    branch_views, identity_of, opt_base, opt_conflict, BaseRef, BaseView, Branch, BranchIdentity,
    BranchKind, BranchView, ConflictView, CreateRequest, CreateResult, CreateSource, HeadState,
    HeadView, IdentityView, Intent, MemoryView, Mode, ModeView, NameTarget, Picker, PickerMemory,
    PickerRow, RemoteConflict, RequestView, ResultView,
};
use crate::git::{
    derive_local_name, derived_local_name, find_local, local_index, plan_open, plan_open_spec,
    validate_new_branch_name, validate_new_branch_name_spec,
};
use crate::text::{
    chars_of, contains, lowercase, opt_view, pop_char, push_char, same_text, seq_contains,
    str_lowercase,
};

verus! {

// ---------------------------------------------------------------------------
// Keys and effects.
// ---------------------------------------------------------------------------

/// The key pressed.
#[derive(Clone, Copy, Debug, PartialEq, Eq, Structural)]
pub enum KeyCode {
    Esc,
    Enter,
    Up,
    Down,
    Backspace,
    Char(char),
    Other,
}

/// The modifier keys held: Shift, Control, and any other (Alt, Super, Hyper
/// or Meta).
#[derive(Clone, Copy, Debug, PartialEq, Eq, Structural)]
pub struct KeyModifiers {
    pub shift: bool,
    pub control: bool,
    pub other: bool,
}

/// A key press.
#[derive(Clone, Copy, Debug, PartialEq, Eq, Structural)]
pub struct Key {
    pub code: KeyCode,
    pub modifiers: KeyModifiers,
}

impl Key {
    /// The key pressed with no modifier.
    pub fn plain(code: KeyCode) -> (k: Key)
        ensures
            k.code == code,
            k.modifiers == (KeyModifiers { shift: false, control: false, other: false }),
    {
        Key { code, modifiers: KeyModifiers { shift: false, control: false, other: false } }
    }

    /// The key pressed with Control.
    pub fn ctrl(code: KeyCode) -> (k: Key)
        ensures
            k.code == code,
            k.modifiers == (KeyModifiers { shift: false, control: true, other: false }),
    {
        Key { code, modifiers: KeyModifiers { shift: false, control: true, other: false } }
    }
}

/// Whether the modifiers leave a character as typed text: none, or Shift
/// alone.
pub open spec fn types_text(m: KeyModifiers) -> bool {
    !m.control && !m.other
}

/// Outside work the picker asks for.
#[derive(Clone, Debug, PartialEq, Eq)]
pub enum Effect {
    /// Nothing to do.
    Nothing,
    /// Run `git fetch --all --prune`, reload the branches, and report the
    /// result to `poll_tasks`.
    StartFetch,
    /// Check the name with Git (and resolve `HEAD` when asked), and report to
    /// `submit_name`.
    ValidateName { name: String, resolve_head: bool },
    /// Ask Herdr to create the worktree, verify the upstream when one is
    /// required, and report the outcome to `poll_tasks`.
    StartCreate { request: CreateRequest },
    /// Show the best-effort success notification.
    NotifyCreated { branch: String },
    /// Show the best-effort notification that the worktree exists but its
    /// upstream could not be set.
    NotifyTrackingWarning { branch: String, error: String },
}

/// An effect as plain values.
pub enum EffectView {
    Nothing,
    StartFetch,
    ValidateName { name: Seq<char>, resolve_head: bool },
    StartCreate { request: RequestView },
    NotifyCreated { branch: Seq<char> },
    NotifyTrackingWarning { branch: Seq<char>, error: Seq<char> },
}

impl View for Effect {
    type V = EffectView;

    open spec fn view(&self) -> EffectView {
        match self {
            Effect::Nothing => EffectView::Nothing,
            Effect::StartFetch => EffectView::StartFetch,
            Effect::ValidateName { name, resolve_head } => EffectView::ValidateName {
                name: name@,
                resolve_head: *resolve_head,
            },
            Effect::StartCreate { request } => EffectView::StartCreate { request: request@ },
            Effect::NotifyCreated { branch } => EffectView::NotifyCreated { branch: branch@ },
            Effect::NotifyTrackingWarning { branch, error } => EffectView::NotifyTrackingWarning {
                branch: branch@,
                error: error@,
            },
        }
    }
}

// ---------------------------------------------------------------------------
// State.
// ---------------------------------------------------------------------------

/// A creation request in flight, with the screen it came from.
#[derive(Clone, Debug, PartialEq, Eq)]
pub struct CreateTask {
    pub request: CreateRequest,
    pub source: CreateSource,
}

/// A creation in flight as plain values.
pub struct TaskView {
    pub request: RequestView,
    pub source: CreateSource,
}

/// The picker's state.
#[derive(Clone, Debug, PartialEq, Eq)]
pub struct App {
    pub head: HeadState,
    pub branches: Vec<Branch>,
    pub intent: Intent,
    pub mode: Mode,
    pub existing: PickerMemory,
    pub base_picker: PickerMemory,
    pub selected_base: Option<BaseRef>,
    pub head_name: String,
    pub base_name: String,
    pub conflict: Option<RemoteConflict>,
    pub status: Option<String>,
    pub error: Option<String>,
    pub fetching: bool,
    pub create: Option<CreateTask>,
    pub creating_branch: Option<String>,
    pub done: bool,
}

/// The picker's state as plain values.
pub struct AppView {
    pub head: HeadView,
    pub branches: Seq<BranchView>,
    pub intent: Intent,
    pub mode: ModeView,
    pub existing: MemoryView,
    pub base_picker: MemoryView,
    pub selected_base: Option<BaseView>,
    pub head_name: Seq<char>,
    pub base_name: Seq<char>,
    pub conflict: Option<ConflictView>,
    pub status: Option<Seq<char>>,
    pub error: Option<Seq<char>>,
    pub fetching: bool,
    pub create: Option<TaskView>,
    pub creating_branch: Option<Seq<char>>,
    pub done: bool,
}

impl View for App {
    type V = AppView;

    open spec fn view(&self) -> AppView {
        AppView {
            head: self.head@,
            branches: branch_views(self.branches@),
            intent: self.intent,
            mode: self.mode@,
            existing: self.existing@,
            base_picker: self.base_picker@,
            selected_base: opt_base(self.selected_base),
            head_name: self.head_name@,
            base_name: self.base_name@,
            conflict: opt_conflict(self.conflict),
            status: opt_view(self.status),
            error: opt_view(self.error),
            fetching: self.fetching,
            create: match self.create {
                Some(task) => Some(TaskView { request: task.request@, source: task.source }),
                None => None,
            },
            creating_branch: opt_view(self.creating_branch),
            done: self.done,
        }
    }
}

// ---------------------------------------------------------------------------
// Picker rows and selection.
// ---------------------------------------------------------------------------

/// Whether a branch name matches the search: case-insensitive substring
/// matching, where the empty search matches everything.
pub open spec fn query_matches(name: Seq<char>, query: Seq<char>) -> bool {
    let q = str_lowercase(query);
    q.len() == 0 || seq_contains(str_lowercase(name), q)
}

/// Whether a picker lists the branch at all: the base picker leaves out the
/// current local branch.
pub open spec fn listed(picker: Picker, b: BranchView) -> bool {
    match picker {
        Picker::Existing => true,
        Picker::Base => !(b.kind == BranchKind::Local && b.is_current),
    }
}

/// Whether Enter opens the branch from the existing-branch picker: a local
/// branch that is neither current nor checked out elsewhere, or a remote
/// whose derived local branch, if it tracks exactly that remote, is not
/// checked out.
pub open spec fn existing_actionable(all: Seq<BranchView>, b: BranchView) -> bool {
    match b.kind {
        BranchKind::Local => !b.is_current && b.checked_out_at is None,
        BranchKind::Remote => match local_index(all, derived_local_name(b.name)) {
            None => true,
            Some(j) => if all[j].upstream == Some(b.name) {
                all[j].checked_out_at is None
            } else {
                true
            },
        },
    }
}

/// Whether Enter acts on the branch in the picker (every listed base is
/// selectable).
pub open spec fn actionable_in(all: Seq<BranchView>, picker: Picker, b: BranchView) -> bool {
    match picker {
        Picker::Existing => existing_actionable(all, b),
        Picker::Base => true,
    }
}

/// The rows for the first `n` branches.
pub open spec fn rows_upto(all: Seq<BranchView>, picker: Picker, query: Seq<char>, n: int) -> Seq<
    PickerRow,
>
    decreases n,
{
    if n <= 0 || n > all.len() {
        Seq::empty()
    } else {
        let rest = rows_upto(all, picker, query, n - 1);
        let b = all[n - 1];
        if query_matches(b.name, query) && listed(picker, b) {
            rest.push(PickerRow { branch: (n - 1) as usize, actionable: actionable_in(all, picker, b) })
        } else {
            rest
        }
    }
}

/// The rows a picker shows: every listed branch matching the search, in
/// branch-list order, each flagged with whether Enter acts on it.
pub open spec fn picker_rows_spec(all: Seq<BranchView>, picker: Picker, query: Seq<char>) -> Seq<
    PickerRow,
> {
    rows_upto(all, picker, query, all.len() as int)
}

pub proof fn lemma_rows_upto(all: Seq<BranchView>, picker: Picker, query: Seq<char>, n: int)
    requires
        0 <= n <= all.len(),
        all.len() <= usize::MAX,
    ensures
        ({
            let rows = rows_upto(all, picker, query, n);
            &&& rows.len() <= n
            &&& forall|k: int|
                0 <= k < rows.len() ==> (#[trigger] rows[k]).branch < n && rows[k].actionable
                    == actionable_in(all, picker, all[rows[k].branch as int]) && query_matches(
                    all[rows[k].branch as int].name,
                    query,
                ) && listed(picker, all[rows[k].branch as int])
            &&& forall|k: int, l: int|
                0 <= k < l < rows.len() ==> (#[trigger] rows[k]).branch < (#[trigger] rows[l]).branch
        }),
    decreases n,
{
    if n > 0 {
        lemma_rows_upto(all, picker, query, n - 1);
        let rest = rows_upto(all, picker, query, n - 1);
        let rows = rows_upto(all, picker, query, n);
        let b = all[n - 1];
        if query_matches(b.name, query) && listed(picker, b) {
            let row = PickerRow { branch: (n - 1) as usize, actionable: actionable_in(all, picker, b) };
            assert(rows == rest.push(row));
            assert forall|k: int| 0 <= k < rows.len() implies (#[trigger] rows[k]).branch < n
                && rows[k].actionable == actionable_in(all, picker, all[rows[k].branch as int])
                && query_matches(all[rows[k].branch as int].name, query) && listed(
                picker,
                all[rows[k].branch as int],
            ) by {
                if k < rest.len() {
                    assert(rows[k] == rest[k]);
                } else {
                    assert(rows[k] == row);
                }
            }
            assert forall|k: int, l: int| 0 <= k < l < rows.len() implies (#[trigger] rows[k]).branch
                < (#[trigger] rows[l]).branch by {
                assert(rows[k] == rest[k]);
                if l < rest.len() {
                    assert(rows[l] == rest[l]);
                } else {
                    assert(rows[l] == row);
                }
            }
        } else {
            assert(rows == rest);
        }
    }
}

/// The first actionable row at or after `k`.
pub open spec fn first_actionable_from(rows: Seq<PickerRow>, k: int) -> Option<int>
    decreases rows.len() - k,
{
    if k < 0 || k >= rows.len() {
        None
    } else if rows[k].actionable {
        Some(k)
    } else {
        first_actionable_from(rows, k + 1)
    }
}

/// The first actionable row at or after `k` that shows the branch `id`
/// names.
pub open spec fn identity_from(
    all: Seq<BranchView>,
    rows: Seq<PickerRow>,
    id: IdentityView,
    k: int,
) -> Option<int>
    decreases rows.len() - k,
{
    if k < 0 || k >= rows.len() {
        None
    } else if rows[k].actionable && identity_of(all[rows[k].branch as int]) == id {
        Some(k)
    } else {
        identity_from(all, rows, id, k + 1)
    }
}

pub proof fn lemma_first_actionable_from(rows: Seq<PickerRow>, k: int)
    requires
        0 <= k,
    ensures
        first_actionable_from(rows, k) matches Some(p) ==> k <= p < rows.len() && rows[p].actionable
            && forall|j: int| k <= j < p ==> !(#[trigger] rows[j]).actionable,
        first_actionable_from(rows, k) is None ==> forall|j: int|
            k <= j < rows.len() ==> !(#[trigger] rows[j]).actionable,
    decreases rows.len() - k,
{
    if k < rows.len() {
        lemma_first_actionable_from(rows, k + 1);
    }
}

pub proof fn lemma_identity_from(all: Seq<BranchView>, rows: Seq<PickerRow>, id: IdentityView, k: int)
    requires
        0 <= k,
    ensures
        identity_from(all, rows, id, k) matches Some(p) ==> k <= p < rows.len() && rows[p].actionable
            && identity_of(all[rows[p].branch as int]) == id,
    decreases rows.len() - k,
{
    if k < rows.len() {
        lemma_identity_from(all, rows, id, k + 1);
    }
}

/// The first actionable row.
pub open spec fn first_actionable(rows: Seq<PickerRow>) -> Option<int> {
    first_actionable_from(rows, 0)
}

/// The first actionable row showing the branch the identity names.
pub open spec fn identity_position(all: Seq<BranchView>, rows: Seq<PickerRow>, id: IdentityView) -> Option<
    int,
> {
    identity_from(all, rows, id, 0)
}

/// The selected row: the actionable row of the remembered identity, or else
/// the first actionable row.
pub open spec fn selected_position_spec(
    all: Seq<BranchView>,
    rows: Seq<PickerRow>,
    selected: Option<IdentityView>,
) -> Option<int> {
    match selected {
        Some(id) => match identity_position(all, rows, id) {
            Some(p) => Some(p),
            None => first_actionable(rows),
        },
        None => first_actionable(rows),
    }
}

/// The positions of the actionable rows among the first `n`, in order.
pub open spec fn actionable_upto(rows: Seq<PickerRow>, n: int) -> Seq<usize>
    decreases n,
{
    if n <= 0 || n > rows.len() {
        Seq::empty()
    } else {
        let rest = actionable_upto(rows, n - 1);
        if rows[n - 1].actionable {
            rest.push((n - 1) as usize)
        } else {
            rest
        }
    }
}

/// The positions of the actionable rows, in order.
pub open spec fn actionable_positions(rows: Seq<PickerRow>) -> Seq<usize> {
    actionable_upto(rows, rows.len() as int)
}

/// The first index at or after `k` where `ps` holds `p` (0 when there is
/// none).
pub open spec fn index_from(ps: Seq<usize>, p: int, k: int) -> int
    decreases ps.len() - k,
{
    if k < 0 || k >= ps.len() {
        0
    } else if ps[k] == p {
        k
    } else {
        index_from(ps, p, k + 1)
    }
}

impl AppView {
    /// What a picker remembers.
    pub open spec fn memory(self, picker: Picker) -> MemoryView {
        match picker {
            Picker::Existing => self.existing,
            Picker::Base => self.base_picker,
        }
    }

    /// The state with a picker's memory replaced.
    pub open spec fn with_memory(self, picker: Picker, m: MemoryView) -> AppView {
        match picker {
            Picker::Existing => AppView { existing: m, ..self },
            Picker::Base => AppView { base_picker: m, ..self },
        }
    }

    /// The rows a picker shows.
    pub open spec fn rows(self, picker: Picker) -> Seq<PickerRow> {
        picker_rows_spec(self.branches, picker, self.memory(picker).query)
    }

    /// The selected row of a picker.
    pub open spec fn selected_position(self, picker: Picker) -> Option<int> {
        selected_position_spec(self.branches, self.rows(picker), self.memory(picker).selected)
    }

    /// The identity of the branch shown in row `k` of a picker.
    pub open spec fn row_identity(self, picker: Picker, k: int) -> IdentityView {
        identity_of(self.branches[self.rows(picker)[k].branch as int])
    }

    /// The state with a picker's selection set to row `k`.
    pub open spec fn select_row(self, picker: Picker, k: int) -> AppView {
        self.with_memory(
            picker,
            MemoryView { selected: Some(self.row_identity(picker, k)), ..self.memory(picker) },
        )
    }

    /// The state after selecting the first actionable row (unchanged when
    /// there is none).
    pub open spec fn first_selected(self, picker: Picker) -> AppView {
        match first_actionable(self.rows(picker)) {
            Some(k) => self.select_row(picker, k),
            None => self,
        }
    }

    /// The state after keeping the selection by identity when it is still an
    /// actionable row, and otherwise selecting the first actionable row (or
    /// nothing).
    pub open spec fn normalized(self, picker: Picker) -> AppView {
        let rows = self.rows(picker);
        let found = match self.memory(picker).selected {
            Some(id) => identity_position(self.branches, rows, id),
            None => None,
        };
        match found {
            Some(k) => self.select_row(picker, k),
            None => match first_actionable(rows) {
                Some(k) => self.select_row(picker, k),
                None => self.with_memory(
                    picker,
                    MemoryView { selected: None, ..self.memory(picker) },
                ),
            },
        }
    }

    /// The state after moving the selection `delta` places among the
    /// actionable rows (Up is `-1`, Down is `1`), staying at either end;
    /// unchanged when no row is actionable.
    pub open spec fn moved(self, picker: Picker, delta: int) -> AppView {
        let ps = actionable_positions(self.rows(picker));
        if ps.len() == 0 {
            self
        } else {
            let current = match self.selected_position(picker) {
                Some(p) => index_from(ps, p, 0),
                None => 0,
            };
            self.select_row(picker, ps[clamp(current + delta, 0, ps.len() - 1)] as int)
        }
    }
}

impl App {
    /// What a picker remembers.
    pub fn memory(&self, picker: Picker) -> (m: &PickerMemory)
        ensures
            m@ == self@.memory(picker),
    {
        match picker {
            Picker::Existing => &self.existing,
            Picker::Base => &self.base_picker,
        }
    }

    fn is_existing_actionable(&self, branch: &Branch) -> (r: bool)
        ensures
            r == existing_actionable(self@.branches, branch@),
    {
        match branch.kind {
            BranchKind::Local => {
                let free = match &branch.checked_out_at {
                    Some(_) => false,
                    None => true,
                };
                !branch.is_current && free
            },
            BranchKind::Remote => {
                let local_name = derive_local_name(&branch.name);
                match find_local(&self.branches, &local_name) {
                    None => true,
                    Some(j) => {
                        proof {
                            crate::git::lemma_local_index_from(self@.branches, local_name@, 0);
                        }
                        let local = &self.branches[j];
                        let follows = match &local.upstream {
                            Some(u) => same_text(u, &branch.name),
                            None => false,
                        };
                        if follows {
                            match &local.checked_out_at {
                                Some(_) => false,
                                None => true,
                            }
                        } else {
                            true
                        }
                    },
                }
            },
        }
    }

    /// The rows a picker shows: every listed branch matching the picker's
    /// search, in branch-list order, each flagged with whether Enter acts on
    /// it.
    pub fn picker_rows(&self, picker: Picker) -> (rows: Vec<PickerRow>)
        ensures
            rows@ == self@.rows(picker),
    {
        let query = lowercase(self.memory(picker).query.as_str());
        let query_chars = chars_of(query.as_str());
        let mut rows: Vec<PickerRow> = Vec::new();
        let mut i: usize = 0;
        let ghost all = self@.branches;
        let ghost q = self@.memory(picker).query;
        while i < self.branches.len()
            invariant
                i <= self.branches@.len(),
                all == self@.branches,
                q == self@.memory(picker).query,
                query_chars@ == str_lowercase(q),
                rows@ == rows_upto(all, picker, q, i as int),
            decreases self.branches@.len() - i,
        {
            let branch = &self.branches[i];
            assert(all[i as int] == branch@);
            let shown = if query_chars.len() == 0 {
                true
            } else {
                let name = lowercase(branch.name.as_str());
                let name_chars = chars_of(name.as_str());
                contains(&name_chars, &query_chars)
            };
            let listed_here = match picker {
                Picker::Existing => true,
                Picker::Base => !(branch.kind == BranchKind::Local && branch.is_current),
            };
            if shown && listed_here {
                let actionable = match picker {
                    Picker::Existing => self.is_existing_actionable(branch),
                    Picker::Base => true,
                };
                rows.push(PickerRow { branch: i, actionable });
            }
            i += 1;
        }
        rows
    }

    /// The selected row of a picker: the actionable row of the remembered
    /// branch, or else the first actionable row; none when no row is
    /// actionable.
    pub fn selected_position(&self, picker: Picker) -> (r: Option<usize>)
        ensures
            r matches Some(p) ==> self@.selected_position(picker) == Some(p as int),
            r is None ==> self@.selected_position(picker) is None,
    {
        let rows = self.picker_rows(picker);
        let ghost all = self@.branches;
        let count = self.branches.len();
        proof {
            lemma_rows_upto(all, picker, self@.memory(picker).query, all.len() as int);
        }
        match &self.memory(picker).selected {
            Some(id) => {
                let ghost idv = id@;
                let mut k: usize = 0;
                while k < rows.len()
                    invariant
                        idv == id@,
                        self@.memory(picker).selected == Some(idv),
                        k <= rows@.len(),
                        rows@ == self@.rows(picker),
                        all == self@.branches,
                        all.len() == self.branches@.len(),
                        forall|j: int| 0 <= j < rows@.len() ==> (#[trigger] rows@[j]).branch < all.len(),
                        identity_from(all, rows@, idv, 0) == identity_from(all, rows@, idv, k as int),
                    decreases rows@.len() - k,
                {
                    let row = rows[k];
                    assert(all[row.branch as int] == self.branches@[row.branch as int]@);
                    if row.actionable && id.matches(&self.branches[row.branch]) {
                        assert(identity_of(all[row.branch as int]) == idv);
                        return Some(k);
                    }
                    k += 1;
                }
                assert(identity_position(all, rows@, idv) is None);
            },
            None => {},
        }
        assert(self@.selected_position(picker) == first_actionable_from(rows@, 0));
        let mut k: usize = 0;
        while k < rows.len()
            invariant
                k <= rows@.len(),
                self@.selected_position(picker) == first_actionable_from(rows@, 0),
                first_actionable_from(rows@, 0) == first_actionable_from(rows@, k as int),
            decreases rows@.len() - k,
        {
            if rows[k].actionable {
                return Some(k);
            }
            k += 1;
        }
        None
    }
}


// ---------------------------------------------------------------------------
// Transitions.
// ---------------------------------------------------------------------------

/// The screen an intent leads to.
pub open spec fn intent_mode(intent: Intent) -> ModeView {
    match intent {
        Intent::NewFromHead => ModeView::Naming { target: NameTarget::CurrentHead },
        Intent::OpenExisting => ModeView::ExistingPicker,
        Intent::NewFromBase => ModeView::BasePicker,
    }
}

/// The screen Esc returns to from a name field.
pub open spec fn naming_back_mode(target: NameTarget) -> ModeView {
    match target {
        NameTarget::CurrentHead => ModeView::Intent,
        NameTarget::SelectedBase => ModeView::BasePicker,
        NameTarget::RemoteConflict => ModeView::RemoteConflict,
    }
}

/// The screen a name field submits from.
pub open spec fn source_for(target: NameTarget) -> CreateSource {
    match target {
        NameTarget::CurrentHead => CreateSource::CurrentHeadName,
        NameTarget::SelectedBase => CreateSource::SelectedBaseName,
        NameTarget::RemoteConflict => CreateSource::RemoteConflictName,
    }
}

/// The message when a name field has no base to start from.
pub open spec fn missing_base_message(target: NameTarget) -> Seq<char> {
    match target {
        NameTarget::RemoteConflict => "No remote is selected"@,
        _ => "No base is selected"@,
    }
}

/// A name without its last character (unchanged when empty).
pub open spec fn popped(d: Seq<char>) -> Seq<char> {
    if d.len() > 0 {
        d.drop_last()
    } else {
        d
    }
}

/// The position of `intent` in a list of at most three intents (0 when
/// absent).
pub open spec fn intent_index(list: Seq<Intent>, intent: Intent) -> int {
    if list.len() > 0 && list[0] == intent {
        0
    } else if list.len() > 1 && list[1] == intent {
        1
    } else if list.len() > 2 && list[2] == intent {
        2
    } else {
        0
    }
}

/// `x` brought into `[lo, hi]`.
pub open spec fn clamp(x: int, lo: int, hi: int) -> int {
    if x < lo {
        lo
    } else if x > hi {
        hi
    } else {
        x
    }
}

/// Status shown while a fetch runs.
pub open spec fn fetching_status() -> Seq<char> {
    "Fetching all remotes…"@
}

/// Status shown after a successful fetch.
pub open spec fn refreshed_status() -> Seq<char> {
    "Remote branches refreshed"@
}

impl AppView {
    /// The state's invariant: a custom-name field, or a creation submitted
    /// from it, has its remote conflict, whose selected action is one of the
    /// two offered.
    pub open spec fn wf(self) -> bool {
        &&& (self.mode == ModeView::Naming { target: NameTarget::RemoteConflict }) ==> self.conflict is Some
        &&& (self.create matches Some(task) && task.source == CreateSource::RemoteConflictName) ==> self.conflict is Some
        &&& (self.conflict matches Some(c) ==> c.selected_action <= 1)
    }

    /// The outcomes available for `HEAD`, in menu order.
    pub open spec fn enabled_intents(self) -> Seq<Intent> {
        match self.head {
            HeadView::Branch { .. } => seq![Intent::NewFromHead, Intent::OpenExisting, Intent::NewFromBase],
            HeadView::Detached { .. } => seq![Intent::OpenExisting, Intent::NewFromBase],
            HeadView::Unborn => seq![Intent::OpenExisting],
        }
    }

    /// Whether an outcome is available: a new branch from `HEAD` needs a named
    /// branch, a new branch from a base needs a commit.
    pub open spec fn intent_enabled(self, intent: Intent) -> bool {
        match intent {
            Intent::NewFromHead => self.head is Branch,
            Intent::OpenExisting => true,
            Intent::NewFromBase => !(self.head is Unborn),
        }
    }

    /// The outcome Up (`delta < 0`) or Down (`delta > 0`) moves to: clamped
    /// among the available outcomes.
    pub open spec fn moved_intent(self, delta: int) -> Intent {
        let list = self.enabled_intents();
        list[clamp(intent_index(list, self.intent) + delta, 0, list.len() - 1)]
    }

    /// The text of a name field.
    pub open spec fn draft(self, target: NameTarget) -> Seq<char> {
        match target {
            NameTarget::CurrentHead => self.head_name,
            NameTarget::SelectedBase => self.base_name,
            NameTarget::RemoteConflict => match self.conflict {
                Some(c) => c.custom_name,
                None => Seq::empty(),
            },
        }
    }

    /// The state with a name field's text replaced.
    pub open spec fn with_draft(self, target: NameTarget, d: Seq<char>) -> AppView {
        match target {
            NameTarget::CurrentHead => AppView { head_name: d, ..self },
            NameTarget::SelectedBase => AppView { base_name: d, ..self },
            NameTarget::RemoteConflict => match self.conflict {
                Some(c) => AppView { conflict: Some(ConflictView { custom_name: d, ..c }), ..self },
                None => self,
            },
        }
    }

    /// The base a name field creates from.
    pub open spec fn base_for(self, target: NameTarget) -> Option<BaseView> {
        match target {
            NameTarget::CurrentHead => Some(BaseView::Head),
            NameTarget::SelectedBase => self.selected_base,
            NameTarget::RemoteConflict => match self.conflict {
                Some(c) => Some(BaseView::Remote(c.remote)),
                None => None,
            },
        }
    }

    /// The state after a typed character in a picker's search: the first
    /// actionable match is selected.
    pub open spec fn typed(self, picker: Picker, c: char) -> AppView {
        let m = self.memory(picker);
        AppView { error: None, ..self }.with_memory(
            picker,
            MemoryView { query: m.query.push(c), ..m },
        ).first_selected(picker)
    }

    /// The state after Backspace in a picker's search: the selection is kept
    /// by identity when possible.
    pub open spec fn backspaced(self, picker: Picker) -> AppView {
        let m = self.memory(picker);
        AppView { error: None, ..self }.with_memory(
            picker,
            MemoryView { query: popped(m.query), ..m },
        ).normalized(picker)
    }

    /// The state after Ctrl-U in a picker's search.
    pub open spec fn query_cleared(self, picker: Picker) -> AppView {
        let m = self.memory(picker);
        AppView { error: None, ..self }.with_memory(
            picker,
            MemoryView { query: Seq::empty(), ..m },
        ).first_selected(picker)
    }

    /// Ctrl-R: one fetch at a time.
    pub open spec fn fetch_started(self) -> (AppView, EffectView) {
        if self.fetching {
            (self, EffectView::Nothing)
        } else {
            (
                AppView { fetching: true, status: Some(fetching_status()), ..self },
                EffectView::StartFetch,
            )
        }
    }

    /// Creation of `request` begins: the Creating screen is shown.
    pub open spec fn create_started(self, request: RequestView, source: CreateSource) -> (
        AppView,
        EffectView,
    ) {
        (
            AppView {
                creating_branch: Some(request.branch),
                create: Some(TaskView { request, source }),
                mode: ModeView::Creating,
                status: None,
                error: None,
                ..self
            },
            EffectView::StartCreate { request },
        )
    }

    /// The conflict screen for `remote` and its proposed local name; a
    /// conflict for the same pair keeps its draft.
    pub open spec fn conflict_entered(self, remote: Seq<char>, local: Seq<char>) -> AppView {
        let retained = match self.conflict {
            Some(c) => c.remote == remote && c.proposed_local == local,
            None => false,
        };
        AppView {
            conflict: if retained {
                self.conflict
            } else {
                Some(
                    ConflictView {
                        remote,
                        proposed_local: local,
                        custom_name: Seq::empty(),
                        selected_action: 0,
                    },
                )
            },
            status: None,
            error: None,
            mode: ModeView::RemoteConflict,
            ..self
        }
    }

    /// Enter on branch `b` in the existing-branch picker.
    pub open spec fn opened(self, b: BranchView) -> (AppView, EffectView) {
        match plan_open_spec(b, self.branches) {
            Ok(request) => self.create_started(request, CreateSource::ExistingPicker),
            Err(BlockerView::RemoteNameConflict { local, remote }) => (
                self.conflict_entered(remote, local),
                EffectView::Nothing,
            ),
            Err(blocker) => (
                AppView { status: None, error: Some(blocker_message(blocker)), ..self },
                EffectView::Nothing,
            ),
        }
    }

    /// Enter on branch `b` in the base picker: the base is kept by name and
    /// its branch-name field opens.
    pub open spec fn base_chosen(self, b: BranchView) -> AppView {
        AppView {
            selected_base: Some(
                match b.kind {
                    BranchKind::Local => BaseView::Local(b.name),
                    BranchKind::Remote => BaseView::Remote(b.name),
                },
            ),
            status: None,
            error: None,
            mode: ModeView::Naming { target: NameTarget::SelectedBase },
            ..self
        }
    }

    /// Enter in a picker: acts on the selected actionable row, if any.
    pub open spec fn activated(self, picker: Picker) -> (AppView, EffectView) {
        match self.selected_position(picker) {
            None => (self, EffectView::Nothing),
            Some(k) => {
                let row = self.rows(picker)[k];
                if !row.actionable {
                    (self, EffectView::Nothing)
                } else {
                    let b = self.branches[row.branch as int];
                    match picker {
                        Picker::Existing => self.opened(b),
                        Picker::Base => (self.base_chosen(b), EffectView::Nothing),
                    }
                }
            },
        }
    }

    /// A key on the intent screen.
    pub open spec fn intent_key(self, key: Key) -> (AppView, EffectView) {
        match key.code {
            KeyCode::Esc => (AppView { done: true, ..self }, EffectView::Nothing),
            KeyCode::Up => (AppView { intent: self.moved_intent(-1), ..self }, EffectView::Nothing),
            KeyCode::Down => (AppView { intent: self.moved_intent(1), ..self }, EffectView::Nothing),
            KeyCode::Enter => if self.intent_enabled(self.intent) {
                (AppView { mode: intent_mode(self.intent), ..self }, EffectView::Nothing)
            } else {
                (self, EffectView::Nothing)
            },
            _ => (self, EffectView::Nothing),
        }
    }

    /// A key in a picker. The status is cleared unless a fetch runs.
    pub open spec fn picker_key(self, picker: Picker, key: Key) -> (AppView, EffectView) {
        let s = if self.fetching {
            self
        } else {
            AppView { status: None, ..self }
        };
        match key.code {
            KeyCode::Esc => (AppView { mode: ModeView::Intent, ..s }, EffectView::Nothing),
            KeyCode::Up => (AppView { error: None, ..s }.moved(picker, -1), EffectView::Nothing),
            KeyCode::Down => (AppView { error: None, ..s }.moved(picker, 1), EffectView::Nothing),
            KeyCode::Enter => s.activated(picker),
            KeyCode::Backspace => (s.backspaced(picker), EffectView::Nothing),
            KeyCode::Char(c) => if key.modifiers.control && c == 'u' {
                (s.query_cleared(picker), EffectView::Nothing)
            } else if key.modifiers.control && c == 'r' {
                s.fetch_started()
            } else if types_text(key.modifiers) {
                (s.typed(picker, c), EffectView::Nothing)
            } else {
                (s, EffectView::Nothing)
            },
            _ => (s, EffectView::Nothing),
        }
    }

    /// A key in a name field.
    pub open spec fn naming_key(self, target: NameTarget, key: Key) -> (AppView, EffectView) {
        let cleared = AppView { error: None, ..self };
        match key.code {
            KeyCode::Esc => (
                AppView { error: None, mode: naming_back_mode(target), ..self },
                EffectView::Nothing,
            ),
            KeyCode::Backspace => (
                cleared.with_draft(target, popped(self.draft(target))),
                EffectView::Nothing,
            ),
            KeyCode::Enter => (
                self,
                EffectView::ValidateName {
                    name: self.draft(target),
                    resolve_head: self.base_for(target) == Some(BaseView::Head),
                },
            ),
            KeyCode::Char(c) => if key.modifiers.control && c == 'u' {
                (cleared.with_draft(target, Seq::empty()), EffectView::Nothing)
            } else if types_text(key.modifiers) {
                (cleared.with_draft(target, self.draft(target).push(c)), EffectView::Nothing)
            } else {
                (self, EffectView::Nothing)
            },
            _ => (self, EffectView::Nothing),
        }
    }

    /// The conflict screen's selection moved by `delta`, clamped to its two
    /// actions.
    pub open spec fn conflict_moved(self, delta: int) -> AppView {
        match self.conflict {
            Some(c) => AppView {
                conflict: Some(
                    ConflictView {
                        selected_action: clamp(c.selected_action + delta, 0, 1) as usize,
                        ..c
                    },
                ),
                ..self
            },
            None => self,
        }
    }

    /// A key on the conflict screen.
    pub open spec fn conflict_key(self, key: Key) -> (AppView, EffectView) {
        match key.code {
            KeyCode::Esc => (AppView { mode: ModeView::ExistingPicker, ..self }, EffectView::Nothing),
            KeyCode::Up => (self.conflict_moved(-1), EffectView::Nothing),
            KeyCode::Down => (self.conflict_moved(1), EffectView::Nothing),
            KeyCode::Enter => if (self.conflict matches Some(c) && c.selected_action == 0) {
                (
                    AppView {
                        error: None,
                        mode: ModeView::Naming { target: NameTarget::RemoteConflict },
                        ..self
                    },
                    EffectView::Nothing,
                )
            } else {
                (AppView { mode: ModeView::ExistingPicker, ..self }, EffectView::Nothing)
            },
            _ => (self, EffectView::Nothing),
        }
    }

    /// What a key press does. While a creation runs every key is ignored; on
    /// the fatal-error screen Esc and Enter close.
    pub open spec fn after_key(self, key: Key) -> (AppView, EffectView) {
        if self.create is Some {
            (self, EffectView::Nothing)
        } else {
            match self.mode {
                ModeView::FatalError => if key.code == KeyCode::Esc || key.code == KeyCode::Enter {
                    (AppView { done: true, ..self }, EffectView::Nothing)
                } else {
                    (self, EffectView::Nothing)
                },
                ModeView::Intent => self.intent_key(key),
                ModeView::ExistingPicker => self.picker_key(Picker::Existing, key),
                ModeView::BasePicker => self.picker_key(Picker::Base, key),
                ModeView::Naming { target } => self.naming_key(target, key),
                ModeView::RemoteConflict => self.conflict_key(key),
                _ => (self, EffectView::Nothing),
            }
        }
    }
}


// ---------------------------------------------------------------------------
// Picker operations.
// ---------------------------------------------------------------------------

fn find_first_actionable(rows: &Vec<PickerRow>, from: usize) -> (r: Option<usize>)
    ensures
        r matches Some(k) ==> first_actionable_from(rows@, from as int) == Some(k as int),
        r is None ==> first_actionable_from(rows@, from as int) is None,
{
    let mut k = from;
    if k >= rows.len() {
        return None;
    }
    while k < rows.len()
        invariant
            from <= k <= rows@.len(),
            first_actionable_from(rows@, from as int) == first_actionable_from(rows@, k as int),
        decreases rows@.len() - k,
    {
        if rows[k].actionable {
            return Some(k);
        }
        k += 1;
    }
    None
}

fn actionable_rows(rows: &Vec<PickerRow>) -> (ps: Vec<usize>)
    ensures
        ps@ == actionable_positions(rows@),
        forall|i: int| 0 <= i < ps@.len() ==> (#[trigger] ps@[i]) < rows@.len(),
{
    let mut ps: Vec<usize> = Vec::new();
    let mut k: usize = 0;
    while k < rows.len()
        invariant
            k <= rows@.len(),
            ps@ == actionable_upto(rows@, k as int),
            forall|i: int| 0 <= i < ps@.len() ==> (#[trigger] ps@[i]) < k,
        decreases rows@.len() - k,
    {
        if rows[k].actionable {
            ps.push(k);
        }
        k += 1;
    }
    ps
}

fn index_of(ps: &Vec<usize>, p: usize) -> (r: usize)
    ensures
        r as int == index_from(ps@, p as int, 0),
        ps@.len() > 0 ==> r < ps@.len(),
{
    let mut k: usize = 0;
    while k < ps.len()
        invariant
            k <= ps@.len(),
            index_from(ps@, p as int, 0) == index_from(ps@, p as int, k as int),
        decreases ps@.len() - k,
    {
        if ps[k] == p {
            return k;
        }
        k += 1;
    }
    0
}

fn find_identity(branches: &Vec<Branch>, rows: &Vec<PickerRow>, id: &BranchIdentity) -> (r: Option<
    usize,
>)
    requires
        forall|j: int| 0 <= j < rows@.len() ==> (#[trigger] rows@[j]).branch < branches@.len(),
    ensures
        r matches Some(k) ==> identity_from(branch_views(branches@), rows@, id@, 0) == Some(k as int),
        r is None ==> identity_from(branch_views(branches@), rows@, id@, 0) is None,
{
    let ghost all = branch_views(branches@);
    let mut k: usize = 0;
    while k < rows.len()
        invariant
            k <= rows@.len(),
            all == branch_views(branches@),
            forall|j: int| 0 <= j < rows@.len() ==> (#[trigger] rows@[j]).branch < branches@.len(),
            identity_from(all, rows@, id@, 0) == identity_from(all, rows@, id@, k as int),
        decreases rows@.len() - k,
    {
        let row = rows[k];
        assert(all[row.branch as int] == branches@[row.branch as int]@);
        if row.actionable && id.matches(&branches[row.branch]) {
            return Some(k);
        }
        k += 1;
    }
    None
}

impl App {
    /// The state's invariant (see `AppView::wf`).
    pub open spec fn wf(&self) -> bool {
        self@.wf()
    }

    proof fn lemma_rows(&self, picker: Picker)
        requires
            self.branches@.len() <= usize::MAX,
        ensures
            forall|j: int|
                0 <= j < self@.rows(picker).len() ==> (#[trigger] self@.rows(picker)[j]).branch
                    < self.branches@.len(),
    {
        lemma_rows_upto(
            self@.branches,
            picker,
            self@.memory(picker).query,
            self@.branches.len() as int,
        );
    }

    fn set_selected(&mut self, picker: Picker, selected: Option<BranchIdentity>)
        ensures
            final(self)@ == old(self)@.with_memory(
                picker,
                MemoryView { selected: crate::domain::opt_identity(selected), ..old(self)@.memory(picker) },
            ),
    {
        match picker {
            Picker::Existing => self.existing.selected = selected,
            Picker::Base => self.base_picker.selected = selected,
        }
    }

    fn select_row(&mut self, picker: Picker, rows: &Vec<PickerRow>, k: usize)
        requires
            rows@ == old(self)@.rows(picker),
            k < rows@.len(),
        ensures
            final(self)@ == old(self)@.select_row(picker, k as int),
    {
        let count = self.branches.len();
        proof {
            self.lemma_rows(picker);
        }
        let b = rows[k].branch;
        let id = BranchIdentity::of(&self.branches[b]);
        assert(id@ == identity_of(self@.branches[b as int]));
        self.set_selected(picker, Some(id));
    }

    /// Selects the first actionable row, when there is one.
    fn select_first_actionable(&mut self, picker: Picker)
        ensures
            final(self)@ == old(self)@.first_selected(picker),
    {
        let rows = self.picker_rows(picker);
        match find_first_actionable(&rows, 0) {
            Some(k) => {
                proof {
                    lemma_first_actionable_from(rows@, 0);
                }
                self.select_row(picker, &rows, k);
            },
            None => {},
        }
    }

    /// Keeps the selection by identity when that branch is still an
    /// actionable row, and otherwise selects the first actionable row.
    fn normalize_selection(&mut self, picker: Picker)
        ensures
            final(self)@ == old(self)@.normalized(picker),
    {
        let rows = self.picker_rows(picker);
        let count = self.branches.len();
        proof {
            self.lemma_rows(picker);
        }
        let found = match &self.memory(picker).selected {
            Some(id) => find_identity(&self.branches, &rows, id),
            None => None,
        };
        match found {
            Some(k) => {
                proof {
                    lemma_identity_from(self@.branches, rows@, self@.memory(picker).selected->0, 0);
                }
                self.select_row(picker, &rows, k);
            },
            None => match find_first_actionable(&rows, 0) {
                Some(k) => {
                    proof {
                        lemma_first_actionable_from(rows@, 0);
                    }
                    self.select_row(picker, &rows, k);
                },
                None => self.set_selected(picker, None),
            },
        }
    }

    /// Moves the selection to the nearest actionable row up (`delta == -1`)
    /// or down (`delta == 1`), staying put at either end.
    fn move_selection(&mut self, picker: Picker, delta: i64)
        ensures
            final(self)@ == old(self)@.moved(picker, delta as int),
    {
        let rows = self.picker_rows(picker);
        let positions = actionable_rows(&rows);
        if positions.len() == 0 {
            return;
        }
        let current: usize = match self.selected_position(picker) {
            Some(p) => index_of(&positions, p),
            None => 0,
        };
        let last: usize = positions.len() - 1;
        let next: usize = if delta >= 0 {
            if delta as u64 >= (last - current) as u64 {
                last
            } else {
                current + delta as usize
            }
        } else {
            let back: u64 = (-(delta + 1)) as u64 + 1;
            if back >= current as u64 {
                0
            } else {
                current - back as usize
            }
        };
        assert(next == clamp(current + delta, 0, last as int));
        self.select_row(picker, &rows, positions[next]);
    }

    fn set_query(&mut self, picker: Picker, query: String)
        ensures
            final(self)@ == old(self)@.with_memory(
                picker,
                MemoryView { query: query@, ..old(self)@.memory(picker) },
            ),
    {
        match picker {
            Picker::Existing => self.existing.query = query,
            Picker::Base => self.base_picker.query = query,
        }
    }

    fn picker_type_char(&mut self, picker: Picker, character: char)
        ensures
            final(self)@ == old(self)@.typed(picker, character),
    {
        self.error = None;
        let mut query = self.memory(picker).query.clone();
        push_char(&mut query, character);
        self.set_query(picker, query);
        self.select_first_actionable(picker);
    }

    fn picker_backspace(&mut self, picker: Picker)
        ensures
            final(self)@ == old(self)@.backspaced(picker),
    {
        self.error = None;
        let mut query = self.memory(picker).query.clone();
        let _ = pop_char(&mut query);
        self.set_query(picker, query);
        self.normalize_selection(picker);
    }

    fn picker_clear(&mut self, picker: Picker)
        ensures
            final(self)@ == old(self)@.query_cleared(picker),
    {
        self.error = None;
        self.set_query(picker, String::new());
        self.select_first_actionable(picker);
    }

    fn start_fetch(&mut self) -> (e: Effect)
        ensures
            (final(self)@, e@) == old(self)@.fetch_started(),
    {
        if self.fetching {
            return Effect::Nothing;
        }
        self.fetching = true;
        self.status = Some(String::from_str("Fetching all remotes…"));
        Effect::StartFetch
    }

    fn start_create(&mut self, request: CreateRequest, source: CreateSource) -> (e: Effect)
        ensures
            (final(self)@, e@) == old(self)@.create_started(request@, source),
    {
        self.creating_branch = Some(request.branch.clone());
        let effect = Effect::StartCreate { request: request.duplicate() };
        self.create = Some(CreateTask { request, source });
        self.mode = Mode::Creating;
        self.status = None;
        self.error = None;
        effect
    }

    fn enter_conflict(&mut self, remote: String, local: String)
        ensures
            final(self)@ == old(self)@.conflict_entered(remote@, local@),
    {
        let retained = match &self.conflict {
            Some(conflict) => same_text(&conflict.remote, &remote) && same_text(
                &conflict.proposed_local,
                &local,
            ),
            None => false,
        };
        if !retained {
            self.conflict = Some(
                RemoteConflict {
                    remote,
                    proposed_local: local,
                    custom_name: String::new(),
                    selected_action: 0,
                },
            );
        }
        self.status = None;
        self.error = None;
        self.mode = Mode::RemoteConflict;
    }

    fn open_existing(&mut self, branch: Branch) -> (e: Effect)
        ensures
            (final(self)@, e@) == old(self)@.opened(branch@),
    {
        match plan_open(&branch, self.branches.as_slice()) {
            Ok(request) => self.start_create(request, CreateSource::ExistingPicker),
            Err(crate::domain::OpenBlocker::RemoteNameConflict { local, remote }) => {
                self.enter_conflict(remote, local);
                Effect::Nothing
            },
            Err(blocker) => {
                self.status = None;
                self.error = Some(blocker.message());
                Effect::Nothing
            },
        }
    }

    fn select_base(&mut self, branch: Branch)
        ensures
            final(self)@ == old(self)@.base_chosen(branch@),
    {
        self.selected_base = Some(
            match branch.kind {
                BranchKind::Local => BaseRef::Local(branch.name),
                BranchKind::Remote => BaseRef::Remote(branch.name),
            },
        );
        self.status = None;
        self.error = None;
        self.mode = Mode::Naming { target: NameTarget::SelectedBase };
    }

    fn activate_selection(&mut self, picker: Picker) -> (e: Effect)
        ensures
            (final(self)@, e@) == old(self)@.activated(picker),
    {
        let position = match self.selected_position(picker) {
            Some(p) => p,
            None => return Effect::Nothing,
        };
        let rows = self.picker_rows(picker);
        proof {
            let sel = self@.memory(picker).selected;
            if sel is Some {
                lemma_identity_from(self@.branches, rows@, sel->0, 0);
            }
            lemma_first_actionable_from(rows@, 0);
        }
        let row = rows[position];
        if !row.actionable {
            return Effect::Nothing;
        }
        let count = self.branches.len();
        proof {
            self.lemma_rows(picker);
        }
        let branch = self.branches[row.branch].duplicate();
        match picker {
            Picker::Existing => self.open_existing(branch),
            Picker::Base => {
                self.select_base(branch);
                Effect::Nothing
            },
        }
    }
}


// ---------------------------------------------------------------------------
// Results of outside work.
// ---------------------------------------------------------------------------

/// A fetch result as plain values.
pub open spec fn fetch_view(fetch: Option<Result<Vec<Branch>, String>>) -> Option<
    Result<Seq<BranchView>, Seq<char>>,
> {
    match fetch {
        Some(Ok(branches)) => Some(Ok(branch_views(branches@))),
        Some(Err(e)) => Some(Err(e@)),
        None => None,
    }
}

/// A creation result as plain values.
pub open spec fn outcome_view(create: Option<CreateResult>) -> Option<ResultView> {
    match create {
        Some(r) => Some(r@),
        None => None,
    }
}

impl AppView {
    /// Submitting a name field, given Git's verdict on the name
    /// (`ref_format`), whether a local branch of that name exists, and, when
    /// the base is `HEAD`, what resolving `HEAD` gave. An invalid name, a
    /// missing base or a failed resolution stays on the field as an inline
    /// error; otherwise creation starts from the base, and a remote base is
    /// also the required upstream.
    pub open spec fn after_submit(
        self,
        ref_format: Result<(), String>,
        exists_locally: bool,
        resolved_head: Option<Result<String, String>>,
    ) -> (AppView, EffectView) {
        match self.mode {
            ModeView::Naming { target } => {
                let name = self.draft(target);
                match validate_new_branch_name_spec(name, ref_format, exists_locally) {
                    Err(e) => (AppView { error: Some(e), ..self }, EffectView::Nothing),
                    Ok(()) => match self.base_for(target) {
                        None => (
                            AppView { error: Some(missing_base_message(target)), ..self },
                            EffectView::Nothing,
                        ),
                        Some(base) => {
                            let value: Result<Seq<char>, Seq<char>> = match base {
                                BaseView::Head => match resolved_head {
                                    Some(Ok(commit)) => Ok(commit@),
                                    Some(Err(e)) => Err(e@),
                                    None => Err(Seq::empty()),
                                },
                                BaseView::Local(n) => Ok(n),
                                BaseView::Remote(n) => Ok(n),
                            };
                            match value {
                                Err(e) => (AppView { error: Some(e), ..self }, EffectView::Nothing),
                                Ok(v) => self.create_started(
                                    RequestView {
                                        branch: name,
                                        base: Some(v),
                                        upstream: match base {
                                            BaseView::Remote(r) => Some(r),
                                            _ => None,
                                        },
                                    },
                                    source_for(target),
                                ),
                            }
                        },
                    },
                }
            },
            _ => (self, EffectView::Nothing),
        }
    }

    /// A finished fetch: on success both pickers use the new branches and
    /// keep their selections by identity; on failure the old branches stay
    /// and the error is shown.
    pub open spec fn fetch_done(self, result: Result<Seq<BranchView>, Seq<char>>) -> AppView {
        match result {
            Ok(branches) => {
                let t = AppView { branches, fetching: false, ..self }.normalized(
                    Picker::Existing,
                ).normalized(Picker::Base);
                AppView {
                    status: if self.create is None {
                        Some(refreshed_status())
                    } else {
                        t.status
                    },
                    error: None,
                    ..t
                }
            },
            Err(e) => AppView {
                fetching: false,
                status: if self.create is None {
                    None
                } else {
                    self.status
                },
                error: Some(e),
                ..self
            },
        }
    }

    /// A finished creation: success, including success with a tracking
    /// warning, closes the picker and notifies; failure returns to the
    /// screen the request came from with the error shown.
    pub open spec fn create_done(self, task: TaskView, result: ResultView) -> (AppView, EffectView) {
        let s = AppView { create: None, status: None, ..self };
        let branch = match self.creating_branch {
            Some(b) => b,
            None => task.request.branch,
        };
        match result {
            ResultView::Succeeded => (
                AppView { creating_branch: None, done: true, ..s },
                EffectView::NotifyCreated { branch },
            ),
            ResultView::SucceededWithTrackingWarning(e) => (
                AppView { creating_branch: None, done: true, ..s },
                EffectView::NotifyTrackingWarning { branch, error: e },
            ),
            ResultView::Failed(e) => (
                AppView {
                    creating_branch: None,
                    mode: recovery_mode_spec(task.source)@,
                    error: Some(e),
                    ..s
                },
                EffectView::Nothing,
            ),
        }
    }

    /// The results of outside work that have arrived: a fetch result is taken
    /// only while a fetch runs, a creation outcome only while a creation runs.
    pub open spec fn after_poll(
        self,
        fetch: Option<Result<Seq<BranchView>, Seq<char>>>,
        create: Option<ResultView>,
    ) -> (AppView, EffectView) {
        let s = match fetch {
            Some(result) => if self.fetching {
                self.fetch_done(result)
            } else {
                self
            },
            None => self,
        };
        match create {
            Some(result) => match s.create {
                Some(task) => s.create_done(task, result),
                None => (s, EffectView::Nothing),
            },
            None => (s, EffectView::Nothing),
        }
    }
}

/// The first screen of a session: the intent menu, with "Open an existing
/// branch" selected and every path's memory empty.
pub open spec fn initial_view(head: HeadView, branches: Seq<BranchView>) -> AppView {
    AppView {
        head,
        branches,
        intent: Intent::OpenExisting,
        mode: ModeView::Intent,
        existing: MemoryView { query: Seq::empty(), selected: None },
        base_picker: MemoryView { query: Seq::empty(), selected: None },
        selected_base: None,
        head_name: Seq::empty(),
        base_name: Seq::empty(),
        conflict: None,
        status: None,
        error: None,
        fetching: false,
        create: None,
        creating_branch: None,
        done: false,
    }
}

/// The label for `HEAD` on the intent screen.
pub open spec fn head_label_spec(head: HeadView) -> Seq<char> {
    match head {
        HeadView::Branch { name } => "Current branch: "@ + name,
        HeadView::Detached { commit } => "Detached HEAD at "@ + crate::domain::short_commit_spec(commit),
        HeadView::Unborn => "No commits yet — create an initial commit before creating a worktree"@,
    }
}

/// The base shown above a name field.
pub open spec fn naming_base_label_spec(v: AppView, target: NameTarget) -> Seq<char> {
    match target {
        NameTarget::CurrentHead => match v.head {
            HeadView::Branch { name } => name + " (current HEAD)"@,
            _ => "HEAD"@,
        },
        NameTarget::SelectedBase => match v.selected_base {
            Some(BaseView::Head) => "HEAD"@,
            Some(BaseView::Local(n)) => n,
            Some(BaseView::Remote(n)) => n,
            None => Seq::empty(),
        },
        NameTarget::RemoteConflict => match v.conflict {
            Some(c) => c.remote,
            None => Seq::empty(),
        },
    }
}

impl App {
    /// The first screen of a session for the given `HEAD` and branches.
    pub fn new(head: HeadState, branches: Vec<Branch>) -> (app: App)
        ensures
            app@ == initial_view(head@, branch_views(branches@)),
            app.wf(),
    {
        App {
            head,
            branches,
            intent: Intent::OpenExisting,
            mode: Mode::Intent,
            existing: PickerMemory::new(),
            base_picker: PickerMemory::new(),
            selected_base: None,
            head_name: String::new(),
            base_name: String::new(),
            conflict: None,
            status: None,
            error: None,
            fetching: false,
            create: None,
            creating_branch: None,
            done: false,
        }
    }

    /// The error screen shown when the picker cannot start.
    pub fn fatal(message: String) -> (app: App)
        ensures
            app@ == (AppView {
                mode: ModeView::FatalError,
                error: Some(message@),
                ..initial_view(HeadView::Unborn, Seq::empty())
            }),
            app.wf(),
    {
        let branches: Vec<Branch> = Vec::new();
        proof {
            assert(branch_views(branches@) =~= Seq::<BranchView>::empty());
        }
        let mut app = App::new(HeadState::Unborn, branches);
        app.mode = Mode::FatalError;
        app.error = Some(message);
        app
    }

    /// Whether a fetch runs.
    pub fn is_fetching(&self) -> (r: bool)
        ensures
            r == self.fetching,
    {
        self.fetching
    }

    /// The request behind the Creating screen.
    pub fn creating_request(&self) -> (r: Option<&CreateRequest>)
        ensures
            self.create matches Some(task) ==> r == Some(&task.request),
            self.create is None ==> r is None,
    {
        match &self.create {
            Some(task) => Some(&task.request),
            None => None,
        }
    }

    fn enabled_intents(&self) -> (v: Vec<Intent>)
        ensures
            v@ == self@.enabled_intents(),
    {
        match &self.head {
            HeadState::Branch { .. } => vec![Intent::NewFromHead, Intent::OpenExisting, Intent::NewFromBase],
            HeadState::Detached { .. } => vec![Intent::OpenExisting, Intent::NewFromBase],
            HeadState::Unborn => vec![Intent::OpenExisting],
        }
    }

    /// Whether an outcome is available for the current `HEAD`.
    pub fn intent_enabled(&self, intent: Intent) -> (r: bool)
        ensures
            r == self@.intent_enabled(intent),
    {
        match intent {
            Intent::NewFromHead => matches!(self.head, HeadState::Branch { .. }),
            Intent::OpenExisting => true,
            Intent::NewFromBase => !matches!(self.head, HeadState::Unborn),
        }
    }

    /// Moves the chosen outcome by `delta` places among the available ones,
    /// staying at either end.
    fn move_intent(&mut self, delta: i64)
        ensures
            final(self)@ == (AppView { intent: old(self)@.moved_intent(delta as int), ..old(self)@ }),
    {
        let enabled = self.enabled_intents();
        let len = enabled.len();
        let current: i64 = if len > 0 && enabled[0] == self.intent {
            0
        } else if len > 1 && enabled[1] == self.intent {
            1
        } else if len > 2 && enabled[2] == self.intent {
            2
        } else {
            0
        };
        let last: i64 = len as i64 - 1;
        let next: i64 = if delta < -current {
            0
        } else if delta > last - current {
            last
        } else {
            current + delta
        };
        self.intent = enabled[next as usize];
    }

    /// The label for `HEAD` on the intent screen.
    pub fn head_label(&self) -> (r: String)
        ensures
            r@ == head_label_spec(self@.head),
    {
        match &self.head {
            HeadState::Branch { name } => crate::text::join2("Current branch: ", name.as_str()),
            HeadState::Detached { commit } => {
                let short = crate::domain::short_commit(commit.as_str());
                crate::text::join2("Detached HEAD at ", short.as_str())
            },
            HeadState::Unborn => String::from_str(
                "No commits yet — create an initial commit before creating a worktree",
            ),
        }
    }

    /// The base shown above a name field.
    pub fn naming_base_label(&self, target: &NameTarget) -> (r: String)
        ensures
            r@ == naming_base_label_spec(self@, *target),
    {
        match target {
            NameTarget::CurrentHead => match &self.head {
                HeadState::Branch { name } => crate::text::join2(name.as_str(), " (current HEAD)"),
                _ => String::from_str("HEAD"),
            },
            NameTarget::SelectedBase => match &self.selected_base {
                Some(base) => String::from_str(base.label()),
                None => String::new(),
            },
            NameTarget::RemoteConflict => match &self.conflict {
                Some(conflict) => conflict.remote.clone(),
                None => String::new(),
            },
        }
    }

    /// The text of a name field.
    pub fn name_draft(&self, target: &NameTarget) -> (r: &str)
        ensures
            r@ == self@.draft(*target),
    {
        match target {
            NameTarget::CurrentHead => self.head_name.as_str(),
            NameTarget::SelectedBase => self.base_name.as_str(),
            NameTarget::RemoteConflict => match &self.conflict {
                Some(conflict) => conflict.custom_name.as_str(),
                None => {
                    proof {
                        reveal_strlit("");
                    }
                    ""
                },
            },
        }
    }

    fn set_draft(&mut self, target: NameTarget, d: String)
        ensures
            final(self)@ == old(self)@.with_draft(target, d@),
    {
        match target {
            NameTarget::CurrentHead => self.head_name = d,
            NameTarget::SelectedBase => self.base_name = d,
            NameTarget::RemoteConflict => {
                let taken = self.conflict.take();
                match taken {
                    Some(conflict) => {
                        self.conflict = Some(RemoteConflict { custom_name: d, ..conflict });
                    },
                    None => {},
                }
            },
        }
    }

    fn base_is_head(&self, target: NameTarget) -> (r: bool)
        ensures
            r == (self@.base_for(target) == Some(BaseView::Head)),
    {
        match target {
            NameTarget::CurrentHead => true,
            NameTarget::SelectedBase => matches!(self.selected_base, Some(BaseRef::Head)),
            NameTarget::RemoteConflict => false,
        }
    }

    fn handle_intent_key(&mut self, key: Key) -> (e: Effect)
        ensures
            (final(self)@, e@) == old(self)@.intent_key(key),
    {
        match key.code {
            KeyCode::Esc => self.done = true,
            KeyCode::Up => self.move_intent(-1),
            KeyCode::Down => self.move_intent(1),
            KeyCode::Enter => {
                if self.intent_enabled(self.intent) {
                    self.mode = match self.intent {
                        Intent::NewFromHead => Mode::Naming { target: NameTarget::CurrentHead },
                        Intent::OpenExisting => Mode::ExistingPicker,
                        Intent::NewFromBase => Mode::BasePicker,
                    };
                }
            },
            _ => {},
        }
        Effect::Nothing
    }

    fn handle_picker_key(&mut self, key: Key, picker: Picker) -> (e: Effect)
        ensures
            (final(self)@, e@) == old(self)@.picker_key(picker, key),
    {
        if !self.fetching {
            self.status = None;
        }
        match key.code {
            KeyCode::Esc => {
                self.mode = Mode::Intent;
                Effect::Nothing
            },
            KeyCode::Up => {
                self.error = None;
                self.move_selection(picker, -1);
                Effect::Nothing
            },
            KeyCode::Down => {
                self.error = None;
                self.move_selection(picker, 1);
                Effect::Nothing
            },
            KeyCode::Enter => self.activate_selection(picker),
            KeyCode::Backspace => {
                self.picker_backspace(picker);
                Effect::Nothing
            },
            KeyCode::Char(character) => {
                if key.modifiers.control && character == 'u' {
                    self.picker_clear(picker);
                    Effect::Nothing
                } else if key.modifiers.control && character == 'r' {
                    self.start_fetch()
                } else if !key.modifiers.control && !key.modifiers.other {
                    self.picker_type_char(picker, character);
                    Effect::Nothing
                } else {
                    Effect::Nothing
                }
            },
            _ => Effect::Nothing,
        }
    }

    fn handle_naming_key(&mut self, key: Key, target: NameTarget) -> (e: Effect)
        ensures
            (final(self)@, e@) == old(self)@.naming_key(target, key),
    {
        match key.code {
            KeyCode::Esc => {
                self.error = None;
                self.mode = match target {
                    NameTarget::CurrentHead => Mode::Intent,
                    NameTarget::SelectedBase => Mode::BasePicker,
                    NameTarget::RemoteConflict => Mode::RemoteConflict,
                };
                Effect::Nothing
            },
            KeyCode::Backspace => {
                self.error = None;
                let mut d = String::from_str(self.name_draft(&target));
                let _ = pop_char(&mut d);
                self.set_draft(target, d);
                Effect::Nothing
            },
            KeyCode::Enter => Effect::ValidateName {
                name: String::from_str(self.name_draft(&target)),
                resolve_head: self.base_is_head(target),
            },
            KeyCode::Char(character) => {
                if key.modifiers.control && character == 'u' {
                    self.error = None;
                    self.set_draft(target, String::new());
                    Effect::Nothing
                } else if !key.modifiers.control && !key.modifiers.other {
                    self.error = None;
                    let mut d = String::from_str(self.name_draft(&target));
                    push_char(&mut d, character);
                    self.set_draft(target, d);
                    Effect::Nothing
                } else {
                    Effect::Nothing
                }
            },
            _ => Effect::Nothing,
        }
    }

    fn move_conflict(&mut self, delta: i64)
        requires
            delta == 1 || delta == -1,
            old(self)@.wf(),
        ensures
            final(self)@ == old(self)@.conflict_moved(delta as int),
    {
        let taken = self.conflict.take();
        match taken {
            Some(conflict) => {
                let next: usize = if delta < 0 {
                    0
                } else {
                    1
                };
                assert(next as int == clamp(conflict.selected_action + delta, 0, 1));
                self.conflict = Some(RemoteConflict { selected_action: next, ..conflict });
            },
            None => {},
        }
    }

    fn handle_conflict_key(&mut self, key: Key) -> (e: Effect)
        requires
            old(self)@.wf(),
        ensures
            (final(self)@, e@) == old(self)@.conflict_key(key),
    {
        match key.code {
            KeyCode::Esc => self.mode = Mode::ExistingPicker,
            KeyCode::Up => self.move_conflict(-1),
            KeyCode::Down => self.move_conflict(1),
            KeyCode::Enter => {
                let rename = match &self.conflict {
                    Some(conflict) => conflict.selected_action == 0,
                    None => false,
                };
                if rename {
                    self.error = None;
                    self.mode = Mode::Naming { target: NameTarget::RemoteConflict };
                } else {
                    self.mode = Mode::ExistingPicker;
                }
            },
            _ => {},
        }
        Effect::Nothing
    }

    /// What a key press does (see `AppView::after_key`).
    pub fn handle_key(&mut self, key: Key) -> (e: Effect)
        requires
            old(self).wf(),
        ensures
            (final(self)@, e@) == old(self)@.after_key(key),
            final(self).wf(),
    {
        proof {
            crate::laws::law_keys_keep_invariant(self@, key);
        }
        if self.create.is_some() {
            return Effect::Nothing;
        }
        match self.mode {
            Mode::FatalError => {
                if key.code == KeyCode::Esc || key.code == KeyCode::Enter {
                    self.done = true;
                }
                Effect::Nothing
            },
            Mode::Intent => self.handle_intent_key(key),
            Mode::ExistingPicker => self.handle_picker_key(key, Picker::Existing),
            Mode::BasePicker => self.handle_picker_key(key, Picker::Base),
            Mode::Naming { target } => self.handle_naming_key(key, target),
            Mode::RemoteConflict => self.handle_conflict_key(key),
            _ => Effect::Nothing,
        }
    }

    /// Submits the name field shown (see `AppView::after_submit`), given
    /// what Git answered for the name and, when the base is `HEAD`, what
    /// resolving `HEAD` gave.
    pub fn submit_name(
        &mut self,
        ref_format: Result<(), String>,
        exists_locally: bool,
        resolved_head: Option<Result<String, String>>,
    ) -> (e: Effect)
        ensures
            (final(self)@, e@) == old(self)@.after_submit(ref_format, exists_locally, resolved_head),
            old(self).wf() ==> final(self).wf(),
    {
        proof {
            if self.wf() {
                crate::laws::law_submit_keeps_invariant(
                    self@,
                    ref_format,
                    exists_locally,
                    resolved_head,
                );
            }
        }
        let target = match self.mode {
            Mode::Naming { target } => target,
            _ => return Effect::Nothing,
        };
        let name = String::from_str(self.name_draft(&target));
        match validate_new_branch_name(name.as_str(), ref_format, exists_locally) {
            Err(error) => {
                self.error = Some(error);
                return Effect::Nothing;
            },
            Ok(()) => {},
        }
        let base = match target {
            NameTarget::CurrentHead => BaseRef::Head,
            NameTarget::SelectedBase => match &self.selected_base {
                Some(base) => base.duplicate(),
                None => {
                    self.error = Some(String::from_str("No base is selected"));
                    return Effect::Nothing;
                },
            },
            NameTarget::RemoteConflict => match &self.conflict {
                Some(conflict) => BaseRef::Remote(conflict.remote.clone()),
                None => {
                    self.error = Some(String::from_str("No remote is selected"));
                    return Effect::Nothing;
                },
            },
        };
        let head = match resolved_head {
            Some(head) => head,
            None => Err(String::new()),
        };
        let value = match base.value(head) {
            Ok(value) => value,
            Err(error) => {
                self.error = Some(error);
                return Effect::Nothing;
            },
        };
        let upstream = match &base {
            BaseRef::Remote(remote) => Some(remote.clone()),
            _ => None,
        };
        let source = match target {
            NameTarget::CurrentHead => CreateSource::CurrentHeadName,
            NameTarget::SelectedBase => CreateSource::SelectedBaseName,
            NameTarget::RemoteConflict => CreateSource::RemoteConflictName,
        };
        self.start_create(CreateRequest { branch: name, base: Some(value), upstream }, source)
    }

    /// Takes the results of outside work that have arrived (see
    /// `AppView::after_poll`).
    pub fn poll_tasks(&mut self, fetch: Option<Result<Vec<Branch>, String>>, create: Option<CreateResult>) -> (e:
        Effect)
        ensures
            (final(self)@, e@) == old(self)@.after_poll(fetch_view(fetch), outcome_view(create)),
            old(self).wf() ==> final(self).wf(),
    {
        proof {
            if self.wf() {
                crate::laws::law_poll_keeps_invariant(self@, fetch_view(fetch), outcome_view(create));
            }
        }
        match fetch {
            Some(result) => {
                if self.fetching {
                    self.fetching = false;
                    match result {
                        Ok(branches) => {
                            self.branches = branches;
                            self.normalize_selection(Picker::Existing);
                            self.normalize_selection(Picker::Base);
                            if self.create.is_none() {
                                self.status = Some(String::from_str("Remote branches refreshed"));
                            }
                            self.error = None;
                        },
                        Err(error) => {
                            if self.create.is_none() {
                                self.status = None;
                            }
                            self.error = Some(error);
                        },
                    }
                }
            },
            None => {},
        }
        let result = match create {
            Some(result) => result,
            None => return Effect::Nothing,
        };
        let task = match self.create.take() {
            Some(task) => task,
            None => return Effect::Nothing,
        };
        self.status = None;
        match result {
            CreateResult::Succeeded => {
                let branch = match self.creating_branch.take() {
                    Some(branch) => branch,
                    None => task.request.branch,
                };
                self.done = true;
                Effect::NotifyCreated { branch }
            },
            CreateResult::SucceededWithTrackingWarning(error) => {
                let branch = match self.creating_branch.take() {
                    Some(branch) => branch,
                    None => task.request.branch,
                };
                self.done = true;
                Effect::NotifyTrackingWarning { branch, error }
            },
            CreateResult::Failed(error) => {
                self.creating_branch = None;
                self.mode = recovery_mode(task.source);
                self.error = Some(error);
                Effect::Nothing
            },
        }
    }
}

} // verus!

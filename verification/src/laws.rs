//! Properties of the picker that hold across its operations.
use vstd::prelude::*;

use crate::app::{
    actionable_in, actionable_positions, clamp, fetching_status, TaskView, existing_actionable, first_actionable,
    identity_position, index_from, intent_index, intent_mode, lemma_first_actionable_from,
    lemma_identity_from, lemma_rows_upto, listed, naming_back_mode, picker_rows_spec, popped,
    query_matches, rows_upto, types_text, AppView, EffectView, Key, KeyCode, KeyModifiers,
};
use crate::domain::{
    identity_of, recovery_mode_spec, BaseView, BlockerView, Branch, BranchKind, BranchView, ConflictView,
    CreateSource, IdentityView, Intent, MemoryView, ModeView, NameTarget, Picker, PickerRow, ResultView,
};
use crate::git::{derived_local_name, local_index, name_le, plan_open_spec};
use crate::github::matches_query_spec;
use crate::launch::{open_args_spec, LaunchRoute};
use crate::text::{decimal, str_lowercase};

verus! {

/// Every key press keeps the state's invariant.
pub proof fn law_keys_keep_invariant(s: AppView, key: Key)
    requires
        s.wf(),
    ensures
        s.after_key(key).0.wf(),
{
}

/// Submitting a name keeps the state's invariant, whatever Git answered.
pub proof fn law_submit_keeps_invariant(
    s: AppView,
    ref_format: Result<(), String>,
    exists_locally: bool,
    resolved_head: Option<Result<String, String>>,
)
    requires
        s.wf(),
    ensures
        s.after_submit(ref_format, exists_locally, resolved_head).0.wf(),
{
}

/// Taking the results of outside work keeps the state's invariant.
pub proof fn law_poll_keeps_invariant(
    s: AppView,
    fetch: Option<Result<Seq<BranchView>, Seq<char>>>,
    create: Option<ResultView>,
)
    requires
        s.wf(),
    ensures
        s.after_poll(fetch, create).0.wf(),
{
}

/// While a creation runs, every key is ignored: Esc cannot cancel it.
pub proof fn law_creating_ignores_keys(s: AppView, key: Key)
    requires
        s.create is Some,
    ensures
        s.after_key(key) == (s, EffectView::Nothing),
{
}

/// The outcome that Up or Down moves to on the intent screen is always an
/// available one.
pub proof fn law_moved_intent_is_enabled(s: AppView, delta: int)
    ensures
        s.intent_enabled(s.moved_intent(delta)),
        s.enabled_intents().contains(s.moved_intent(delta)),
{
    let list = s.enabled_intents();
    let k = clamp(intent_index(list, s.intent) + delta, 0, list.len() - 1);
    assert(0 <= k < list.len());
    assert(list[k] == s.moved_intent(delta));
}

/// Leaving a picker with Esc and coming back with Enter restores it: the
/// search, the selection and everything else the session remembers are kept
/// (only the status line may be cleared).
pub proof fn law_picker_round_trip(s: AppView, picker: Picker)
    requires
        s.create is None,
        s.mode == (match picker {
            Picker::Existing => ModeView::ExistingPicker,
            Picker::Base => ModeView::BasePicker,
        }),
        s.intent == (match picker {
            Picker::Existing => Intent::OpenExisting,
            Picker::Base => Intent::NewFromBase,
        }),
        s.intent_enabled(s.intent),
    ensures
        ({
            let t = s.after_key(Key { code: KeyCode::Esc, modifiers: no_modifiers() }).0;
            let u = t.after_key(Key { code: KeyCode::Enter, modifiers: no_modifiers() }).0;
            &&& t.mode == ModeView::Intent
            &&& u == (AppView { status: u.status, ..s })
        }),
{
}

/// Leaving a name field with Esc and coming back keeps its text: for a new
/// branch from `HEAD` through the intent screen, for a custom local name
/// through the conflict screen.
pub proof fn law_name_round_trip(s: AppView, target: NameTarget)
    requires
        s.create is None,
        s.mode == (ModeView::Naming { target }),
        target != NameTarget::SelectedBase,
        target == NameTarget::CurrentHead ==> s.intent == Intent::NewFromHead && s.head is Branch,
        target == NameTarget::RemoteConflict ==> (s.conflict matches Some(c) && c.selected_action
            == 0),
    ensures
        ({
            let t = s.after_key(Key { code: KeyCode::Esc, modifiers: no_modifiers() }).0;
            let u = t.after_key(Key { code: KeyCode::Enter, modifiers: no_modifiers() }).0;
            &&& u == (AppView { error: None, ..s })
            &&& u.draft(target) == s.draft(target)
        }),
{
}

/// Typing a character in a name field and then pressing Backspace gives the
/// field its text back.
pub proof fn law_name_type_then_backspace(s: AppView, target: NameTarget, c: char)
    requires
        s.create is None,
        s.mode == (ModeView::Naming { target }),
        target == NameTarget::RemoteConflict ==> s.conflict is Some,
    ensures
        ({
            let t = s.after_key(Key { code: KeyCode::Char(c), modifiers: no_modifiers() }).0;
            let u = t.after_key(Key { code: KeyCode::Backspace, modifiers: no_modifiers() }).0;
            &&& t.draft(target) == s.draft(target).push(c)
            &&& u.draft(target) == s.draft(target)
        }),
{
    let t = s.after_key(Key { code: KeyCode::Char(c), modifiers: no_modifiers() }).0;
    assert(t.draft(target) == s.draft(target).push(c));
    assert(s.draft(target).push(c).drop_last() =~= s.draft(target));
}

/// Typing a character in a picker's search and then pressing Backspace gives
/// the search its text back.
pub proof fn law_search_type_then_backspace(s: AppView, picker: Picker, c: char)
    requires
        s.create is None,
        s.mode == (match picker {
            Picker::Existing => ModeView::ExistingPicker,
            Picker::Base => ModeView::BasePicker,
        }),
    ensures
        ({
            let t = s.after_key(Key { code: KeyCode::Char(c), modifiers: no_modifiers() }).0;
            let u = t.after_key(Key { code: KeyCode::Backspace, modifiers: no_modifiers() }).0;
            &&& t.memory(picker).query == s.memory(picker).query.push(c)
            &&& u.memory(picker).query == s.memory(picker).query
        }),
{
    assert(s.memory(picker).query.push(c).drop_last() =~= s.memory(picker).query);
}

/// A second fetch request while one runs is ignored.
pub proof fn law_duplicate_fetch_ignored(s: AppView, picker: Picker)
    requires
        s.create is None,
        s.fetching,
        s.mode == (match picker {
            Picker::Existing => ModeView::ExistingPicker,
            Picker::Base => ModeView::BasePicker,
        }),
    ensures
        s.after_key(
            Key {
                code: KeyCode::Char('r'),
                modifiers: KeyModifiers { shift: false, control: true, other: false },
            },
        ) == (s, EffectView::Nothing),
{
}

/// A failed fetch keeps the branches and both pickers' memory, and shows the
/// error.
pub proof fn law_fetch_failure_keeps_branches(s: AppView, e: Seq<char>)
    requires
        s.fetching,
    ensures
        ({
            let t = s.after_poll(Some(Err(e)), None).0;
            &&& t.branches == s.branches
            &&& t.existing == s.existing
            &&& t.base_picker == s.base_picker
            &&& t.error == Some(e)
            &&& !t.fetching
        }),
{
}

/// A failed creation returns to the screen the request came from, with the
/// error shown and the picker still open; the searches, selections, base and
/// names are kept.
pub proof fn law_failure_returns_to_origin(s: AppView, e: Seq<char>)
    requires
        s.create is Some,
    ensures
        ({
            let t = s.after_poll(None, Some(ResultView::Failed(e))).0;
            &&& t.mode == recovery_mode_spec(s.create->0.source)@
            &&& t.error == Some(e)
            &&& t.create is None
            &&& t.done == s.done
            &&& t.branches == s.branches
            &&& t.existing == s.existing
            &&& t.base_picker == s.base_picker
            &&& t.selected_base == s.selected_base
            &&& t.head_name == s.head_name
            &&& t.base_name == s.base_name
            &&& t.conflict == s.conflict
        }),
{
}

/// A creation that succeeded, also one whose upstream could not be set,
/// closes the picker; no retry is offered.
pub proof fn law_success_closes(s: AppView, result: ResultView)
    requires
        s.create is Some,
        !(result is Failed),
    ensures
        ({
            let t = s.after_poll(None, Some(result)).0;
            &&& t.done
            &&& t.create is None
            &&& t.creating_branch is None
        }),
{
}

/// A name submitted on a remote base creates a branch from that exact remote
/// and requires it as the upstream; on any other base no upstream is
/// required.
pub proof fn law_remote_base_is_upstream(
    s: AppView,
    ref_format: Result<(), String>,
    exists_locally: bool,
    resolved_head: Option<Result<String, String>>,
)
    requires
        s.mode is Naming,
    ensures
        ({
            let (t, e) = s.after_submit(ref_format, exists_locally, resolved_head);
            e matches EffectView::StartCreate { request } ==> match s.base_for(s.mode->target) {
                Some(BaseView::Remote(r)) => request.base == Some(r) && request.upstream == Some(r),
                _ => request.upstream is None,
            }
        }),
{
}

/// Opening a remote branch never opens an unrelated local branch: a new
/// local branch is created from the remote and tracks it, or the local
/// branch of the derived name is opened only when it tracks exactly that
/// remote and is not checked out elsewhere.
pub proof fn law_open_remote_never_uses_unrelated_local(b: BranchView, all: Seq<BranchView>)
    requires
        b.kind == BranchKind::Remote,
    ensures
        plan_open_spec(b, all) matches Ok(request) ==> {
            ||| (request.base == Some(b.name) && request.upstream == Some(b.name) && request.branch
                == derived_local_name(b.name) && local_index(all, request.branch) is None)
            ||| (request.base is None && request.upstream is None && (local_index(
                all,
                request.branch,
            ) matches Some(j) && all[j].upstream == Some(b.name) && all[j].checked_out_at is None))
        },
{
    if let Some(j) = local_index(all, derived_local_name(b.name)) {
        crate::git::lemma_local_index_from(all, derived_local_name(b.name), 0);
    }
}

/// The selected row of a picker, when there is one, is a row Enter acts on:
/// disabled rows are never selected.
pub proof fn law_selection_is_actionable(s: AppView, picker: Picker)
    ensures
        s.selected_position(picker) matches Some(k) ==> 0 <= k < s.rows(picker).len()
            && s.rows(picker)[k].actionable,
{
    let rows = s.rows(picker);
    lemma_first_actionable_from(rows, 0);
    if let Some(id) = s.memory(picker).selected {
        lemma_identity_from(s.branches, rows, id, 0);
    }
}

proof fn lemma_rows_complete(all: Seq<BranchView>, picker: Picker, query: Seq<char>, n: int, i: int) -> (k: int)
    requires
        0 <= i < n <= all.len(),
        all.len() <= usize::MAX,
        query_matches(all[i].name, query),
        listed(picker, all[i]),
    ensures
        0 <= k < rows_upto(all, picker, query, n).len(),
        rows_upto(all, picker, query, n)[k].branch == i,
        rows_upto(all, picker, query, n)[k].actionable == actionable_in(all, picker, all[i]),
    decreases n,
{
    let rest = rows_upto(all, picker, query, n - 1);
    let rows = rows_upto(all, picker, query, n);
    let b = all[n - 1];
    if i == n - 1 {
        let row = PickerRow { branch: (n - 1) as usize, actionable: actionable_in(all, picker, all[i]) };
        assert(rows == rest.push(row));
        assert(rows[rest.len() as int] == row);
        rest.len() as int
    } else {
        let k = lemma_rows_complete(all, picker, query, n - 1, i);
        if query_matches(b.name, query) && listed(picker, b) {
            let row = PickerRow { branch: (n - 1) as usize, actionable: actionable_in(all, picker, b) };
            assert(rows == rest.push(row));
            assert(rows[k] == rest[k]);
        } else {
            assert(rows == rest);
        }
        k
    }
}

/// A picker shows every listed branch that matches its search, disabled
/// ones included: in the existing-branch picker a local branch that is
/// current or checked out in another worktree has a row, but Enter does not
/// act on it.
pub proof fn law_matches_stay_visible(all: Seq<BranchView>, picker: Picker, query: Seq<char>, i: int)
    requires
        0 <= i < all.len(),
        all.len() <= usize::MAX,
        query_matches(all[i].name, query),
        listed(picker, all[i]),
    ensures
        exists|k: int|
            0 <= k < picker_rows_spec(all, picker, query).len() && (#[trigger] picker_rows_spec(
                all,
                picker,
                query,
            )[k]).branch == i && picker_rows_spec(all, picker, query)[k].actionable
                == actionable_in(all, picker, all[i]),
        picker == Picker::Existing && all[i].kind == BranchKind::Local && (all[i].is_current
            || all[i].checked_out_at is Some) ==> !actionable_in(all, picker, all[i]),
{
    let k = lemma_rows_complete(all, picker, query, all.len() as int, i);
    assert(picker_rows_spec(all, picker, query)[k].branch == i);
}

/// Enter on an outcome that is not available for `HEAD` changes nothing.
pub proof fn law_disabled_intent_does_nothing(s: AppView)
    requires
        s.create is None,
        s.mode == ModeView::Intent,
        !s.intent_enabled(s.intent),
    ensures
        s.after_key(Key { code: KeyCode::Enter, modifiers: no_modifiers() }) == (
            s,
            EffectView::Nothing,
        ),
{
}

/// The base picker never offers the current local branch.
pub proof fn law_base_picker_excludes_current(all: Seq<BranchView>, query: Seq<char>, k: int)
    requires
        0 <= k < picker_rows_spec(all, Picker::Base, query).len(),
        all.len() <= usize::MAX,
    ensures
        ({
            let b = all[picker_rows_spec(all, Picker::Base, query)[k].branch as int];
            !(b.kind == BranchKind::Local && b.is_current)
        }),
{
    lemma_rows_upto(all, Picker::Base, query, all.len() as int);
}

/// Keeping a selection by identity: when the remembered branch is still an
/// actionable row, it stays selected.
proof fn lemma_normalized_keeps(s: AppView, picker: Picker)
    requires
        s.memory(picker).selected matches Some(id) && identity_position(
            s.branches,
            s.rows(picker),
            id,
        ) is Some,
    ensures
        s.normalized(picker).memory(picker) == s.memory(picker),
{
    let id = s.memory(picker).selected->0;
    lemma_identity_from(s.branches, s.rows(picker), id, 0);
}

/// Backspace in a picker's search keeps the selected branch when it is still
/// an actionable match of the shorter search.
pub proof fn law_backspace_keeps_selection(s: AppView, picker: Picker)
    requires
        ({
            let m = s.memory(picker);
            let shorter = AppView { error: None, ..s }.with_memory(
                picker,
                MemoryView { query: popped(m.query), ..m },
            );
            m.selected matches Some(id) && identity_position(
                shorter.branches,
                shorter.rows(picker),
                id,
            ) is Some
        }),
    ensures
        s.backspaced(picker).memory(picker).selected == s.memory(picker).selected,
        s.backspaced(picker).memory(picker).query == popped(s.memory(picker).query),
{
    let m = s.memory(picker);
    let shorter = AppView { error: None, ..s }.with_memory(
        picker,
        MemoryView { query: popped(m.query), ..m },
    );
    lemma_normalized_keeps(shorter, picker);
}

/// A successful fetch keeps each picker's selection when the selected branch
/// is still an actionable row among the new branches.
pub proof fn law_fetch_keeps_selection(s: AppView, branches: Seq<BranchView>)
    requires
        s.fetching,
        ({
            let t = AppView { branches, fetching: false, ..s };
            &&& s.existing.selected matches Some(id) && identity_position(
                branches,
                t.rows(Picker::Existing),
                id,
            ) is Some
            &&& s.base_picker.selected matches Some(id) && identity_position(
                branches,
                t.rows(Picker::Base),
                id,
            ) is Some
        }),
    ensures
        ({
            let u = s.after_poll(Some(Ok(branches)), None).0;
            &&& u.branches == branches
            &&& u.existing == s.existing
            &&& u.base_picker == s.base_picker
            &&& u.error is None
        }),
{
    let t = AppView { branches, fetching: false, ..s };
    lemma_normalized_keeps(t, Picker::Existing);
    let t2 = t.normalized(Picker::Existing);
    assert(t2.base_picker == t.base_picker);
    assert(t2.rows(Picker::Base) == t.rows(Picker::Base));
    lemma_normalized_keeps(t2, Picker::Base);
}

/// The screen a picker is shown on.
pub open spec fn picker_mode(picker: Picker) -> ModeView {
    match picker {
        Picker::Existing => ModeView::ExistingPicker,
        Picker::Base => ModeView::BasePicker,
    }
}

/// The picker that is not `picker`.
pub open spec fn other_picker(picker: Picker) -> Picker {
    match picker {
        Picker::Existing => Picker::Base,
        Picker::Base => Picker::Existing,
    }
}

/// The identity of the branch in the first actionable row of `rows`, if any.
pub open spec fn first_actionable_identity(all: Seq<BranchView>, rows: Seq<PickerRow>) -> Option<
    IdentityView,
> {
    match first_actionable(rows) {
        Some(k) => Some(identity_of(all[rows[k].branch as int])),
        None => None,
    }
}

/// On the intent screen: Esc closes the picker, Enter opens the screen of
/// the highlighted outcome when it is available (and does nothing
/// otherwise), Up and Down change only the highlighted outcome, and every
/// other key changes nothing. No key there asks for outside work.
pub proof fn law_intent_keys(s: AppView, key: Key)
    requires
        s.create is None,
        s.mode == ModeView::Intent,
    ensures
        ({
            let (t, e) = s.after_key(key);
            &&& e == EffectView::Nothing
            &&& key.code == KeyCode::Esc ==> t == AppView { done: true, ..s }
            &&& key.code == KeyCode::Enter ==> t == if s.intent_enabled(s.intent) {
                AppView { mode: intent_mode(s.intent), ..s }
            } else {
                s
            }
            &&& key.code == KeyCode::Up ==> t == AppView { intent: s.moved_intent(-1), ..s }
            &&& key.code == KeyCode::Down ==> t == AppView { intent: s.moved_intent(1), ..s }
            &&& !(key.code == KeyCode::Esc || key.code == KeyCode::Enter || key.code == KeyCode::Up
                || key.code == KeyCode::Down) ==> t == s
        }),
{
}

/// The intent menu lists exactly the available outcomes, each once, in the
/// order new-from-`HEAD`, open-existing, new-from-base; opening an existing
/// branch is always available.
pub proof fn law_enabled_intents(s: AppView)
    ensures
        forall|i: Intent| #[trigger] s.enabled_intents().contains(i) <==> s.intent_enabled(i),
        forall|a: int, b: int|
            0 <= a < b < s.enabled_intents().len() ==> (#[trigger] s.enabled_intents()[a])
                != (#[trigger] s.enabled_intents()[b]),
        s.intent_enabled(Intent::OpenExisting),
        s.enabled_intents().len() >= 1,
{
    let list = s.enabled_intents();
    assert forall|i: Intent| #[trigger] list.contains(i) <==> s.intent_enabled(i) by {
        if s.intent_enabled(i) {
            match s.head {
                crate::domain::HeadView::Branch { .. } => {
                    match i {
                        Intent::NewFromHead => assert(list[0] == i),
                        Intent::OpenExisting => assert(list[1] == i),
                        Intent::NewFromBase => assert(list[2] == i),
                    }
                },
                crate::domain::HeadView::Detached { .. } => {
                    match i {
                        Intent::NewFromHead => {},
                        Intent::OpenExisting => assert(list[0] == i),
                        Intent::NewFromBase => assert(list[1] == i),
                    }
                },
                crate::domain::HeadView::Unborn => {
                    assert(list[0] == i);
                },
            }
        }
    }
}

/// Enter acts on a branch in the existing-branch picker exactly when it is
/// a local branch that is neither current nor checked out elsewhere, or a
/// remote branch whose opening is not refused because the local branch
/// tracking it is checked out.
pub proof fn law_existing_actionable(all: Seq<BranchView>, b: BranchView)
    ensures
        b.kind == BranchKind::Local ==> (existing_actionable(all, b) <==> !b.is_current
            && b.checked_out_at is None),
        b.kind == BranchKind::Remote ==> (existing_actionable(all, b) <==> !(plan_open_spec(
            b,
            all,
        ) matches Err(BlockerView::AlreadyCheckedOut { .. }))),
{
}

/// In a picker, no key changes the other picker's search or selection, or
/// the branch list.
pub proof fn law_picker_keys_keep_other_picker(s: AppView, picker: Picker, key: Key)
    requires
        s.create is None,
        s.mode == picker_mode(picker),
    ensures
        s.after_key(key).0.memory(other_picker(picker)) == s.memory(other_picker(picker)),
        s.after_key(key).0.branches == s.branches,
{
}

/// Esc in a picker returns to the intent screen, with both pickers'
/// searches and selections kept.
pub proof fn law_picker_escape(s: AppView, picker: Picker, modifiers: KeyModifiers)
    requires
        s.create is None,
        s.mode == picker_mode(picker),
    ensures
        ({
            let (t, e) = s.after_key(Key { code: KeyCode::Esc, modifiers });
            &&& t.mode == ModeView::Intent
            &&& t.existing == s.existing
            &&& t.base_picker == s.base_picker
            &&& e == EffectView::Nothing
        }),
{
}

/// Typing a character (with no modifier, or Shift alone) in a picker
/// appends it to the search, clears the error, and selects the first
/// actionable row of the new search (the selection stays when no row is
/// actionable).
pub proof fn law_picker_typing(s: AppView, picker: Picker, c: char, modifiers: KeyModifiers)
    requires
        s.create is None,
        s.mode == picker_mode(picker),
        types_text(modifiers),
    ensures
        ({
            let (t, e) = s.after_key(Key { code: KeyCode::Char(c), modifiers });
            let query = s.memory(picker).query.push(c);
            let rows = picker_rows_spec(s.branches, picker, query);
            &&& t.memory(picker).query == query
            &&& t.memory(picker).selected == match first_actionable_identity(s.branches, rows) {
                Some(id) => Some(id),
                None => s.memory(picker).selected,
            }
            &&& t.error is None
            &&& t.mode == s.mode
            &&& e == EffectView::Nothing
        }),
{
}

/// Ctrl-U in a picker empties the search, clears the error, and selects the
/// first actionable row (the selection stays when no row is actionable).
pub proof fn law_picker_clear(s: AppView, picker: Picker, modifiers: KeyModifiers)
    requires
        s.create is None,
        s.mode == picker_mode(picker),
        modifiers.control,
    ensures
        ({
            let (t, e) = s.after_key(Key { code: KeyCode::Char('u'), modifiers });
            let rows = picker_rows_spec(s.branches, picker, Seq::empty());
            &&& t.memory(picker).query == Seq::<char>::empty()
            &&& t.memory(picker).selected == match first_actionable_identity(s.branches, rows) {
                Some(id) => Some(id),
                None => s.memory(picker).selected,
            }
            &&& t.error is None
            &&& t.mode == s.mode
            &&& e == EffectView::Nothing
        }),
{
}

/// Up (`delta` is -1) or Down (`delta` is 1) in a picker moves the selection
/// among the actionable rows, from the selected one, staying at either end;
/// it clears the error and keeps the search. With no actionable row the
/// selection is unchanged.
pub proof fn law_picker_move(s: AppView, picker: Picker, delta: int, modifiers: KeyModifiers)
    requires
        s.create is None,
        s.mode == picker_mode(picker),
        delta == -1 || delta == 1,
    ensures
        ({
            let code = if delta == -1 {
                KeyCode::Up
            } else {
                KeyCode::Down
            };
            let (t, e) = s.after_key(Key { code, modifiers });
            let rows = s.rows(picker);
            let ps = actionable_positions(rows);
            let from = match s.selected_position(picker) {
                Some(p) => index_from(ps, p, 0),
                None => 0,
            };
            &&& t.memory(picker).query == s.memory(picker).query
            &&& t.memory(picker).selected == if ps.len() == 0 {
                s.memory(picker).selected
            } else {
                Some(
                    identity_of(
                        s.branches[rows[ps[clamp(from + delta, 0, ps.len() - 1)] as int].branch as int],
                    ),
                )
            }
            &&& t.error is None
            &&& t.mode == s.mode
            &&& e == EffectView::Nothing
        }),
{
}

/// Backspace in a picker drops the search's last character and clears the
/// error; the selected branch stays selected when it is still an actionable
/// row, and otherwise the first actionable row is selected (nothing when
/// there is none).
pub proof fn law_picker_backspace(s: AppView, picker: Picker, modifiers: KeyModifiers)
    requires
        s.create is None,
        s.mode == picker_mode(picker),
    ensures
        ({
            let (t, e) = s.after_key(Key { code: KeyCode::Backspace, modifiers });
            let query = popped(s.memory(picker).query);
            let rows = picker_rows_spec(s.branches, picker, query);
            let kept = match s.memory(picker).selected {
                Some(id) => identity_position(s.branches, rows, id) is Some,
                None => false,
            };
            &&& t.memory(picker).query == query
            &&& t.memory(picker).selected == if kept {
                s.memory(picker).selected
            } else {
                first_actionable_identity(s.branches, rows)
            }
            &&& t.error is None
            &&& t.mode == s.mode
            &&& e == EffectView::Nothing
        }),
{
    if let Some(id) = s.memory(picker).selected {
        let query = popped(s.memory(picker).query);
        let rows = picker_rows_spec(s.branches, picker, query);
        lemma_identity_from(s.branches, rows, id, 0);
    }
}

/// In a name field: Esc goes back to the screen it came from with its text
/// kept; Backspace, Ctrl-U and typed characters edit only its text and clear
/// the error; Enter asks Git to check the text as a branch name (resolving
/// `HEAD` when the base is `HEAD`) and changes nothing.
pub proof fn law_naming_keys(s: AppView, target: NameTarget, key: Key)
    requires
        s.wf(),
        s.create is None,
        s.mode == (ModeView::Naming { target }),
    ensures
        ({
            let (t, e) = s.after_key(key);
            &&& key.code == KeyCode::Esc ==> t.mode == naming_back_mode(target) && t.draft(target)
                == s.draft(target) && t.error is None && e == EffectView::Nothing
            &&& key.code == KeyCode::Backspace ==> t.draft(target) == popped(s.draft(target))
                && t.mode == s.mode && t.error is None && e == EffectView::Nothing
            &&& (key.code == KeyCode::Char('u') && key.modifiers.control) ==> t.draft(target)
                == Seq::<char>::empty() && t.mode == s.mode && t.error is None && e
                == EffectView::Nothing
            &&& key.code matches KeyCode::Char(c) ==> (types_text(key.modifiers) ==> t.draft(target)
                == s.draft(target).push(c) && t.mode == s.mode && t.error is None && e
                == EffectView::Nothing)
            &&& key.code == KeyCode::Enter ==> t == s && e == (EffectView::ValidateName {
                name: s.draft(target),
                resolve_head: s.base_for(target) == Some(BaseView::Head),
            })
        }),
{
}

/// On the remote-conflict screen: Esc returns to the existing-branch picker;
/// Up and Down move between its two actions; Enter on the first action opens
/// the custom-name field and on the second returns to the picker. No key
/// there asks for outside work.
pub proof fn law_conflict_keys(s: AppView, key: Key)
    requires
        s.wf(),
        s.create is None,
        s.mode == ModeView::RemoteConflict,
        s.conflict is Some,
    ensures
        ({
            let (t, e) = s.after_key(key);
            let c = s.conflict->0;
            &&& e == EffectView::Nothing
            &&& key.code == KeyCode::Esc ==> t == AppView { mode: ModeView::ExistingPicker, ..s }
            &&& key.code == KeyCode::Up ==> t.conflict == Some(
                crate::domain::ConflictView { selected_action: 0, ..c },
            ) && t.mode == s.mode
            &&& key.code == KeyCode::Down ==> t.conflict == Some(
                crate::domain::ConflictView { selected_action: 1, ..c },
            ) && t.mode == s.mode
            &&& key.code == KeyCode::Enter ==> t.mode == if c.selected_action == 0 {
                ModeView::Naming { target: NameTarget::RemoteConflict }
            } else {
                ModeView::ExistingPicker
            } && t.conflict == s.conflict
        }),
{
}

/// Ctrl-R in a picker starts a fetch of all remotes when none runs: the
/// status says so, and the screen, searches and selections stay.
pub proof fn law_fetch_request(s: AppView, picker: Picker, modifiers: KeyModifiers)
    requires
        s.create is None,
        s.mode == picker_mode(picker),
        modifiers.control,
        !s.fetching,
    ensures
        ({
            let (t, e) = s.after_key(Key { code: KeyCode::Char('r'), modifiers });
            &&& e == EffectView::StartFetch
            &&& t.fetching
            &&& t.status == Some(fetching_status())
            &&& t.mode == s.mode
            &&& t.existing == s.existing
            &&& t.base_picker == s.base_picker
        }),
{
}

/// Enter in the existing-branch picker acts on the selected row: it starts
/// creating the worktree that opening the branch plans, or, for a remote
/// whose local name belongs to an unrelated local branch, opens the conflict
/// screen (keeping the custom name typed earlier for the same pair). It
/// never reports a branch as checked out elsewhere, since such rows are not
/// selectable. With no actionable row it does nothing.
pub proof fn law_existing_enter(s: AppView, modifiers: KeyModifiers)
    requires
        s.create is None,
        s.mode == ModeView::ExistingPicker,
        s.branches.len() <= usize::MAX,
    ensures
        ({
            let (t, e) = s.after_key(Key { code: KeyCode::Enter, modifiers });
            match s.selected_position(Picker::Existing) {
                None => e == EffectView::Nothing && t.mode == s.mode && t.existing == s.existing,
                Some(k) => {
                    let b = s.branches[s.rows(Picker::Existing)[k].branch as int];
                    match plan_open_spec(b, s.branches) {
                        Ok(request) => {
                            &&& e == (EffectView::StartCreate { request })
                            &&& t.mode == ModeView::Creating
                            &&& t.create == Some(
                                TaskView { request, source: CreateSource::ExistingPicker },
                            )
                            &&& t.creating_branch == Some(request.branch)
                        },
                        Err(BlockerView::RemoteNameConflict { local, remote }) => {
                            &&& e == EffectView::Nothing
                            &&& t.mode == ModeView::RemoteConflict
                            &&& t.conflict == if (s.conflict matches Some(c) && c.remote == remote
                                && c.proposed_local == local) {
                                s.conflict
                            } else {
                                Some(
                                    ConflictView {
                                        remote,
                                        proposed_local: local,
                                        custom_name: Seq::empty(),
                                        selected_action: 0,
                                    },
                                )
                            }
                        },
                        Err(BlockerView::AlreadyCheckedOut { .. }) => false,
                    }
                },
            }
        }),
{
    law_selection_is_actionable(s, Picker::Existing);
    if let Some(k) = s.selected_position(Picker::Existing) {
        let rows = s.rows(Picker::Existing);
        lemma_rows_upto(s.branches, Picker::Existing, s.existing.query, s.branches.len() as int);
        assert(rows[k].actionable == actionable_in(
            s.branches,
            Picker::Existing,
            s.branches[rows[k].branch as int],
        ));
    }
}

/// Enter in the base picker keeps the selected branch as the base, by kind
/// and name, and opens the new branch's name field with the text typed
/// there before. With no row it does nothing.
pub proof fn law_base_enter(s: AppView, modifiers: KeyModifiers)
    requires
        s.create is None,
        s.mode == ModeView::BasePicker,
    ensures
        ({
            let (t, e) = s.after_key(Key { code: KeyCode::Enter, modifiers });
            &&& e == EffectView::Nothing
            &&& match s.selected_position(Picker::Base) {
                None => t.mode == s.mode && t.selected_base == s.selected_base,
                Some(k) => {
                    let b = s.branches[s.rows(Picker::Base)[k].branch as int];
                    &&& t.selected_base == Some(
                        match b.kind {
                            BranchKind::Local => BaseView::Local(b.name),
                            BranchKind::Remote => BaseView::Remote(b.name),
                        },
                    )
                    &&& t.mode == (ModeView::Naming { target: NameTarget::SelectedBase })
                    &&& t.base_name == s.base_name
                    &&& t.base_picker == s.base_picker
                },
            }
        }),
{
    law_selection_is_actionable(s, Picker::Base);
}

// ---------------------------------------------------------------------------
// Searching, ordering, launching and annotating, stated from first
// principles.
// ---------------------------------------------------------------------------

/// Whether `needle` occurs as a contiguous run of `hay`, ignoring case: the
/// lowercased needle is empty or occurs at some position of the lowercased
/// hay.
pub open spec fn occurs_ignoring_case(hay: Seq<char>, needle: Seq<char>) -> bool {
    let h = str_lowercase(hay);
    let n = str_lowercase(needle);
    n.len() == 0 || exists|i: int|
        0 <= i && i + n.len() <= h.len() && #[trigger] h.subrange(i, i + n.len()) == n
}

/// A picker's search is a case-insensitive substring test: a branch matches
/// exactly when the lowercased search is empty or occurs in the lowercased
/// branch name.
pub proof fn law_search_ignores_case(name: Seq<char>, query: Seq<char>)
    ensures
        query_matches(name, query) <==> occurs_ignoring_case(name, query),
{
}

/// Two spellings of a branch name that differ only in case are found by the
/// same searches, and two searches that differ only in case find the same
/// branches.
pub proof fn law_search_same_for_any_case(
    name: Seq<char>,
    other_name: Seq<char>,
    query: Seq<char>,
    other_query: Seq<char>,
)
    requires
        str_lowercase(name) == str_lowercase(other_name),
        str_lowercase(query) == str_lowercase(other_query),
    ensures
        query_matches(name, query) == query_matches(other_name, other_query),
{
}

/// A picker shows branch `i` exactly when the picker lists it and its name
/// contains the search, ignoring case.
pub proof fn law_rows_are_case_insensitive_matches(
    all: Seq<BranchView>,
    picker: Picker,
    query: Seq<char>,
    i: int,
)
    requires
        0 <= i < all.len(),
        all.len() <= usize::MAX,
    ensures
        (exists|k: int|
            0 <= k < picker_rows_spec(all, picker, query).len() && (#[trigger] picker_rows_spec(
                all,
                picker,
                query,
            )[k]).branch == i) <==> (listed(picker, all[i]) && occurs_ignoring_case(
            all[i].name,
            query,
        )),
{
    let rows = picker_rows_spec(all, picker, query);
    lemma_rows_upto(all, picker, query, all.len() as int);
    if listed(picker, all[i]) && occurs_ignoring_case(all[i].name, query) {
        let k = lemma_rows_complete(all, picker, query, all.len() as int, i);
        assert(rows[k].branch == i);
    }
    if exists|k: int| 0 <= k < rows.len() && (#[trigger] rows[k]).branch == i {
        let k = choose|k: int| 0 <= k < rows.len() && (#[trigger] rows[k]).branch == i;
        assert(query_matches(all[rows[k].branch as int].name, query));
    }
}

/// `a` is a prefix of `b`.
pub open spec fn is_prefix_of(a: Seq<char>, b: Seq<char>) -> bool {
    a.len() <= b.len() && b.take(a.len() as int) == a
}

/// `a` and `b` agree before position `i`, and there `a` has the smaller
/// character.
pub open spec fn first_difference_smaller(a: Seq<char>, b: Seq<char>, i: int) -> bool {
    0 <= i < a.len() && i < b.len() && a.take(i) == b.take(i) && a[i] < b[i]
}

/// Branch names are ordered as strings are: `a` comes no later than `b`
/// exactly when `a` is a prefix of `b`, or at the first position where they
/// differ `a` has the smaller character; lengths matter only through the
/// prefix case.
pub proof fn law_name_order_is_lexicographic(a: Seq<char>, b: Seq<char>)
    ensures
        name_le(a, b) <==> (is_prefix_of(a, b) || exists|i: int|
            #[trigger] first_difference_smaller(a, b, i)),
    decreases a.len(),
{
    if a.len() == 0 {
        assert(b.take(0) =~= a);
    } else if b.len() == 0 {
        assert(!is_prefix_of(a, b));
    } else if a[0] != b[0] {
        if is_prefix_of(a, b) {
            assert(b.take(a.len() as int)[0] == b[0]);
        }
        if a[0] < b[0] {
            assert(a.take(0) =~= b.take(0));
            assert(first_difference_smaller(a, b, 0));
        }
        if exists|i: int| #[trigger] first_difference_smaller(a, b, i) {
            let i = choose|i: int| #[trigger] first_difference_smaller(a, b, i);
            if i > 0 {
                assert(a.take(i)[0] == b.take(i)[0]);
            }
        }
    } else {
        let a1 = a.drop_first();
        let b1 = b.drop_first();
        law_name_order_is_lexicographic(a1, b1);
        if is_prefix_of(a, b) {
            assert(b1.take(a1.len() as int) =~= b.take(a.len() as int).drop_first());
            assert(a1 =~= a.drop_first());
        }
        if is_prefix_of(a1, b1) {
            assert(b.take(a.len() as int) =~= seq![b[0]] + b1.take(a1.len() as int));
            assert(a =~= seq![a[0]] + a1);
        }
        if exists|i: int| #[trigger] first_difference_smaller(a, b, i) {
            let i = choose|i: int| #[trigger] first_difference_smaller(a, b, i);
            assert(i != 0);
            assert(a1.take(i - 1) =~= a.take(i).drop_first());
            assert(b1.take(i - 1) =~= b.take(i).drop_first());
            assert(first_difference_smaller(a1, b1, i - 1));
        }
        if exists|j: int| #[trigger] first_difference_smaller(a1, b1, j) {
            let j = choose|j: int| #[trigger] first_difference_smaller(a1, b1, j);
            assert(a.take(j + 1) =~= seq![a[0]] + a1.take(j));
            assert(b.take(j + 1) =~= seq![b[0]] + b1.take(j));
            assert(first_difference_smaller(a, b, j + 1));
        }
    }
}

/// A pull request matches a search exactly when the search, ignoring case,
/// occurs in its number, title, author or head label (the empty search
/// matches every pull request).
pub proof fn law_pull_request_search_ignores_case(
    number: u64,
    title: Seq<char>,
    author: Seq<char>,
    head_label: Seq<char>,
    query: Seq<char>,
)
    ensures
        matches_query_spec(number, title, author, head_label, query) <==> (occurs_ignoring_case(
            decimal(number as nat),
            query,
        ) || occurs_ignoring_case(title, query) || occurs_ignoring_case(author, query)
            || occurs_ignoring_case(head_label, query)),
{
}

/// Changing the case of a pull request's title, author or head label, or of
/// the search, does not change whether it matches.
pub proof fn law_pull_request_search_same_for_any_case(
    number: u64,
    title: Seq<char>,
    author: Seq<char>,
    head_label: Seq<char>,
    query: Seq<char>,
    other_title: Seq<char>,
    other_author: Seq<char>,
    other_head_label: Seq<char>,
    other_query: Seq<char>,
)
    requires
        str_lowercase(title) == str_lowercase(other_title),
        str_lowercase(author) == str_lowercase(other_author),
        str_lowercase(head_label) == str_lowercase(other_head_label),
        str_lowercase(query) == str_lowercase(other_query),
    ensures
        matches_query_spec(number, title, author, head_label, query) == matches_query_spec(
            number,
            other_title,
            other_author,
            other_head_label,
            other_query,
        ),
{
}

/// The popup is opened with `plugin pane open --plugin <id> --entrypoint
/// picker`; when the pane it was opened from is known, that pane is passed
/// on as `HERDR_SOURCE_PANE_ID` whatever the route; the pull-request route
/// only adds `HERDR_WORKTREE_PICKER_ROUTE=pull-request` at the end.
pub proof fn law_popup_passes_source_pane(
    plugin: Seq<char>,
    pane: Option<Seq<char>>,
    route: LaunchRoute,
)
    ensures
        ({
            let args = open_args_spec(plugin, pane, route);
            let fixed = seq![
                "plugin"@,
                "pane"@,
                "open"@,
                "--plugin"@,
                plugin,
                "--entrypoint"@,
                "picker"@,
            ];
            &&& args.take(7) == fixed
            &&& pane matches Some(p) ==> args.len() >= 9 && args[7] == "--env"@ && args[8]
                == "HERDR_SOURCE_PANE_ID="@ + p
            &&& pane is None ==> args.len() >= 7
            &&& open_args_spec(plugin, pane, LaunchRoute::PullRequest) == open_args_spec(
                plugin,
                pane,
                LaunchRoute::Create,
            ) + seq!["--env"@, "HERDR_WORKTREE_PICKER_ROUTE=pull-request"@]
            &&& open_args_spec(plugin, pane, LaunchRoute::Create) == fixed + match pane {
                Some(p) => seq!["--env"@, "HERDR_SOURCE_PANE_ID="@ + p],
                None => Seq::<Seq<char>>::empty(),
            }
        }),
{
    let args = open_args_spec(plugin, pane, route);
    let fixed = seq!["plugin"@, "pane"@, "open"@, "--plugin"@, plugin, "--entrypoint"@, "picker"@];
    assert(args.take(7) =~= fixed);
    assert(open_args_spec(plugin, pane, LaunchRoute::PullRequest) =~= open_args_spec(
        plugin,
        pane,
        LaunchRoute::Create,
    ) + seq!["--env"@, "HERDR_WORKTREE_PICKER_ROUTE=pull-request"@]);
    assert(open_args_spec(plugin, pane, LaunchRoute::Create) =~= fixed + match pane {
        Some(p) => seq!["--env"@, "HERDR_SOURCE_PANE_ID="@ + p],
        None => Seq::<Seq<char>>::empty(),
    });
}

/// The note beside a branch: `current` for the current branch; for any
/// other branch checked out in a worktree, `at ` and that worktree's path,
/// whatever the age of its last commit.
pub proof fn law_annotation_names_worktree(b: Branch, now: int, other_time: i64, other_now: int)
    ensures
        b.is_current ==> b.annotation_spec(now) == "current"@,
        !b.is_current && b.checked_out_at is Some ==> b.annotation_spec(now) == "at "@
            + b.checked_out_at->0@,
        !b.is_current && b.checked_out_at is Some ==> b.annotation_spec(now) == (Branch {
            committer_time: other_time,
            ..b
        }).annotation_spec(other_now),
{
}

/// A key with no modifier held.
pub open spec fn no_modifiers() -> KeyModifiers {
    KeyModifiers { shift: false, control: false, other: false }
}

} // verus!

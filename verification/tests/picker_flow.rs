use herdr_worktree_picker::app::{App, CreateTask, Effect, Key, KeyCode};
use herdr_worktree_picker::domain::{
    BaseRef, Branch, BranchIdentity, BranchKind, CreateRequest, CreateResult, CreateSource,
    HeadState, Intent, Mode, NameTarget, Picker, RemoteConflict,
};

fn key(code: KeyCode) -> Key {
    Key::plain(code)
}

fn ctrl(code: KeyCode) -> Key {
    Key::ctrl(code)
}

fn char_key(character: char) -> Key {
    key(KeyCode::Char(character))
}

fn branch(kind: BranchKind, name: &str) -> Branch {
    Branch {
        kind,
        name: name.into(),
        upstream: None,
        checked_out_at: None,
        is_current: false,
        committer_time: 0,
    }
}

fn current(name: &str) -> Branch {
    let mut branch = branch(BranchKind::Local, name);
    branch.is_current = true;
    branch
}

fn checked_out(name: &str, path: &str) -> Branch {
    let mut branch = branch(BranchKind::Local, name);
    branch.checked_out_at = Some(path.into());
    branch
}

fn named_head(name: &str) -> HeadState {
    HeadState::Branch { name: name.into() }
}

fn app(head: HeadState, branches: Vec<Branch>) -> App {
    App::new(head, branches)
}

fn default_branches() -> Vec<Branch> {
    vec![
        current("main"),
        branch(BranchKind::Local, "feature/auth"),
        Branch::remote("origin/feature/auth"),
    ]
}

fn open_existing(app: &mut App) {
    app.handle_key(key(KeyCode::Enter));
    assert_eq!(app.mode, Mode::ExistingPicker);
}

fn request(branch: &str, base: Option<&str>, upstream: Option<&str>) -> CreateRequest {
    CreateRequest {
        branch: branch.into(),
        base: base.map(str::to_owned),
        upstream: upstream.map(str::to_owned),
    }
}

fn conflicting_branches() -> Vec<Branch> {
    let mut local = branch(BranchKind::Local, "feature/auth");
    local.upstream = Some("origin/other".into());
    vec![current("main"), local, Branch::remote("origin/feature/auth")]
}

#[test]
fn starts_on_intent_with_open_existing() {
    let app = app(named_head("main"), default_branches());
    assert_eq!(app.mode, Mode::Intent);
    assert_eq!(app.intent, Intent::OpenExisting);
}

#[test]
fn intent_enter_opens_existing_picker() {
    let mut app = app(named_head("main"), default_branches());
    open_existing(&mut app);
    app.handle_key(key(KeyCode::Esc));
    assert_eq!(app.mode, Mode::Intent);
    app.handle_key(key(KeyCode::Enter));
    assert_eq!(app.mode, Mode::ExistingPicker);
}

#[test]
fn intent_enter_starts_head_naming() {
    let mut app = app(named_head("main"), default_branches());
    app.handle_key(key(KeyCode::Down));
    app.handle_key(key(KeyCode::Down));
    assert_eq!(app.intent, Intent::NewFromBase);
    app.handle_key(key(KeyCode::Up));
    assert_eq!(app.intent, Intent::OpenExisting);
    app.handle_key(key(KeyCode::Up));
    assert_eq!(app.intent, Intent::NewFromHead);
    app.handle_key(key(KeyCode::Enter));
    assert_eq!(
        app.mode,
        Mode::Naming {
            target: NameTarget::CurrentHead
        }
    );
}

#[test]
fn intent_enter_starts_base_picker() {
    let mut app = app(named_head("main"), default_branches());
    app.handle_key(key(KeyCode::Down));
    app.handle_key(key(KeyCode::Down));
    app.handle_key(key(KeyCode::Enter));
    assert_eq!(app.mode, Mode::BasePicker);
}

#[test]
fn escape_closes_intent() {
    let mut app = app(named_head("main"), default_branches());
    app.handle_key(key(KeyCode::Esc));
    assert!(app.done);
}

#[test]
fn detached_disables_new_from_head() {
    let mut app = app(
        HeadState::Detached {
            commit: "0123456789abcdef".into(),
        },
        default_branches(),
    );
    assert!(!app.intent_enabled(Intent::NewFromHead));
    assert!(app.intent_enabled(Intent::OpenExisting));
    assert!(app.intent_enabled(Intent::NewFromBase));
    assert_eq!(app.intent, Intent::OpenExisting);
    app.handle_key(key(KeyCode::Up));
    assert_eq!(app.intent, Intent::OpenExisting);
    app.handle_key(key(KeyCode::Down));
    assert_eq!(app.intent, Intent::NewFromBase);

    app.intent = Intent::NewFromHead;
    app.handle_key(key(KeyCode::Enter));
    assert_eq!(app.mode, Mode::Intent);
    assert!(app.head_label().starts_with("Detached HEAD at 0123456"));
}

#[test]
fn unborn_disables_all_creation_outcomes() {
    let mut app = app(HeadState::Unborn, default_branches());
    assert!(!app.intent_enabled(Intent::NewFromHead));
    assert!(!app.intent_enabled(Intent::NewFromBase));
    assert!(app.intent_enabled(Intent::OpenExisting));
    app.intent = Intent::NewFromHead;
    app.handle_key(key(KeyCode::Enter));
    assert_eq!(app.mode, Mode::Intent);
    app.intent = Intent::NewFromBase;
    app.handle_key(key(KeyCode::Enter));
    assert_eq!(app.mode, Mode::Intent);
    app.intent = Intent::OpenExisting;
    app.handle_key(key(KeyCode::Enter));
    assert_eq!(app.mode, Mode::ExistingPicker);
    assert!(app.head_label().contains("No commits yet"));
}

#[test]
fn head_label_names_current_branch() {
    let app = app(named_head("main"), default_branches());
    assert_eq!(app.head_label(), "Current branch: main");
}

#[test]
fn existing_picker_skips_disabled_rows_and_clamps() {
    let mut app = app(named_head("main"), default_branches());
    open_existing(&mut app);
    assert_eq!(app.selected_position(Picker::Existing), Some(1));
    app.handle_key(key(KeyCode::Up));
    assert_eq!(app.selected_position(Picker::Existing), Some(1));
    app.handle_key(key(KeyCode::Down));
    assert_eq!(app.selected_position(Picker::Existing), Some(2));
    app.handle_key(key(KeyCode::Down));
    assert_eq!(app.selected_position(Picker::Existing), Some(2));
}

#[test]
fn checked_out_local_is_visible_but_disabled() {
    let branches = vec![
        current("main"),
        checked_out("feature/payments", "/code/payments"),
        Branch::remote("origin/feature/auth"),
    ];
    let mut app = app(named_head("main"), branches);
    open_existing(&mut app);
    let rows = app.picker_rows(Picker::Existing);
    assert_eq!(rows.len(), 3);
    assert!(!rows[1].actionable);
    assert_eq!(app.selected_position(Picker::Existing), Some(2));
    app.handle_key(key(KeyCode::Up));
    assert_eq!(app.selected_position(Picker::Existing), Some(2));
}

#[test]
fn remote_blocked_by_checked_out_derived_local_is_disabled() {
    let mut local = checked_out("feature/auth", "/code/auth");
    local.upstream = Some("origin/feature/auth".into());
    let branches = vec![current("main"), local, Branch::remote("origin/feature/auth")];
    let mut app = app(named_head("main"), branches);
    open_existing(&mut app);
    let rows = app.picker_rows(Picker::Existing);
    assert!(rows.iter().all(|row| !row.actionable));
    assert_eq!(app.selected_position(Picker::Existing), None);
    app.handle_key(key(KeyCode::Enter));
    assert_eq!(app.mode, Mode::ExistingPicker);
    assert!(app.create.is_none());
}

#[test]
fn base_picker_excludes_current_branch_and_keeps_checked_out_actionable() {
    let branches = vec![
        current("main"),
        checked_out("feature/payments", "/code/payments"),
        Branch::remote("origin/release/2.4"),
    ];
    let mut app = app(named_head("main"), branches);
    app.handle_key(key(KeyCode::Down));
    app.handle_key(key(KeyCode::Down));
    app.handle_key(key(KeyCode::Enter));
    assert_eq!(app.mode, Mode::BasePicker);
    let rows = app.picker_rows(Picker::Base);
    assert_eq!(rows.len(), 2);
    assert!(rows.iter().all(|row| row.actionable));
    assert_eq!(rows[0].branch, 1);
    app.handle_key(key(KeyCode::Enter));
    assert_eq!(
        app.mode,
        Mode::Naming {
            target: NameTarget::SelectedBase
        }
    );
    assert_eq!(
        app.selected_base,
        Some(BaseRef::Local("feature/payments".into()))
    );
}

#[test]
fn base_picker_selects_remote_base() {
    let mut app = app(named_head("main"), default_branches());
    app.handle_key(key(KeyCode::Down));
    app.handle_key(key(KeyCode::Down));
    app.handle_key(key(KeyCode::Enter));
    app.handle_key(key(KeyCode::Down));
    app.handle_key(key(KeyCode::Enter));
    assert_eq!(
        app.selected_base,
        Some(BaseRef::Remote("origin/feature/auth".into()))
    );
}

#[test]
fn picker_search_is_case_insensitive_substring() {
    let mut app = app(named_head("main"), default_branches());
    open_existing(&mut app);
    app.handle_key(char_key('A'));
    app.handle_key(char_key('U'));
    let rows = app.picker_rows(Picker::Existing);
    assert_eq!(rows.len(), 2);
    assert_eq!(rows[0].branch, 1);
    assert_eq!(app.selected_position(Picker::Existing), Some(0));
}

#[test]
fn picker_backspace_preserves_selection_identity() {
    let branches = vec![
        current("main"),
        branch(BranchKind::Local, "feature/auth"),
        branch(BranchKind::Local, "feature/payments"),
    ];
    let mut app = app(named_head("main"), branches);
    open_existing(&mut app);
    for character in "feature".chars() {
        app.handle_key(char_key(character));
    }
    app.handle_key(key(KeyCode::Down));
    let selected = app.memory(Picker::Existing).selected.clone();
    assert_eq!(selected.as_ref().unwrap().name, "feature/payments");
    app.handle_key(key(KeyCode::Backspace));
    assert_eq!(app.memory(Picker::Existing).query, "featur");
    assert_eq!(
        app.memory(Picker::Existing).selected,
        Some(BranchIdentity {
            kind: BranchKind::Local,
            name: "feature/payments".into()
        })
    );
}

#[test]
fn picker_backspace_falls_back_to_first_actionable() {
    let mut app = app(named_head("main"), default_branches());
    open_existing(&mut app);
    for character in "auth".chars() {
        app.handle_key(char_key(character));
    }
    app.handle_key(key(KeyCode::Backspace));
    app.handle_key(key(KeyCode::Backspace));
    assert_eq!(app.memory(Picker::Existing).query, "au");
    assert_eq!(
        app.memory(Picker::Existing).selected.as_ref().unwrap().name,
        "feature/auth"
    );
}

#[test]
fn picker_clear_resets_query_and_selection() {
    let mut app = app(named_head("main"), default_branches());
    open_existing(&mut app);
    app.handle_key(char_key('a'));
    app.handle_key(ctrl(KeyCode::Char('u')));
    assert!(app.memory(Picker::Existing).query.is_empty());
    assert_eq!(
        app.memory(Picker::Existing).selected.as_ref().unwrap().name,
        "feature/auth"
    );
}

#[test]
fn no_match_enter_does_nothing() {
    let mut app = app(named_head("main"), default_branches());
    open_existing(&mut app);
    for character in "zzz".chars() {
        app.handle_key(char_key(character));
    }
    let rows = app.picker_rows(Picker::Existing);
    assert!(rows.is_empty());
    app.handle_key(key(KeyCode::Enter));
    assert_eq!(app.mode, Mode::ExistingPicker);
    assert!(app.create.is_none());
    assert!(!app.done);
}

#[test]
fn picker_escape_returns_to_intent_with_memory() {
    let mut app = app(named_head("main"), default_branches());
    open_existing(&mut app);
    app.handle_key(char_key('a'));
    app.handle_key(key(KeyCode::Down));
    let selected = app.memory(Picker::Existing).selected.clone();
    app.handle_key(key(KeyCode::Esc));
    assert_eq!(app.mode, Mode::Intent);
    app.handle_key(key(KeyCode::Enter));
    assert_eq!(app.memory(Picker::Existing).query, "a");
    assert_eq!(app.memory(Picker::Existing).selected, selected);
}

#[test]
fn name_drafts_are_restored_per_path() {
    let mut app = app(named_head("main"), default_branches());
    app.handle_key(key(KeyCode::Down));
    app.handle_key(key(KeyCode::Up));
    app.handle_key(key(KeyCode::Up));
    app.handle_key(key(KeyCode::Enter));
    assert_eq!(
        app.mode,
        Mode::Naming {
            target: NameTarget::CurrentHead
        }
    );
    for character in "feat/a".chars() {
        app.handle_key(char_key(character));
    }
    app.handle_key(key(KeyCode::Esc));
    assert_eq!(app.mode, Mode::Intent);
    app.handle_key(key(KeyCode::Up));
    app.handle_key(key(KeyCode::Enter));
    assert_eq!(app.head_name, "feat/a");
}

#[test]
fn naming_escape_returns_one_step() {
    let mut app = app(named_head("main"), default_branches());
    app.handle_key(key(KeyCode::Down));
    app.handle_key(key(KeyCode::Down));
    app.handle_key(key(KeyCode::Enter));
    app.handle_key(key(KeyCode::Enter));
    assert_eq!(
        app.mode,
        Mode::Naming {
            target: NameTarget::SelectedBase
        }
    );
    app.handle_key(key(KeyCode::Esc));
    assert_eq!(app.mode, Mode::BasePicker);
    app.handle_key(key(KeyCode::Esc));
    assert_eq!(app.mode, Mode::Intent);
}

#[test]
fn naming_base_selection_survives_escape_round_trip() {
    let mut app = app(named_head("main"), default_branches());
    app.handle_key(key(KeyCode::Down));
    app.handle_key(key(KeyCode::Down));
    app.handle_key(key(KeyCode::Enter));
    app.handle_key(key(KeyCode::Enter));
    app.handle_key(key(KeyCode::Esc));
    app.handle_key(key(KeyCode::Enter));
    assert_eq!(
        app.selected_base,
        Some(BaseRef::Local("feature/auth".into()))
    );
    assert_eq!(app.name_draft(&NameTarget::SelectedBase), "");
}

#[test]
fn name_editing_uses_append_backspace_and_ctrl_u() {
    let mut app = app(named_head("main"), default_branches());
    app.handle_key(key(KeyCode::Up));
    app.handle_key(key(KeyCode::Enter));
    for character in "hotfix".chars() {
        app.handle_key(char_key(character));
    }
    app.handle_key(key(KeyCode::Backspace));
    assert_eq!(app.head_name, "hotfi");
    app.handle_key(ctrl(KeyCode::Char('u')));
    assert!(app.head_name.is_empty());
}

#[test]
fn invalid_name_stays_inline_until_edited() {
    let mut app = app(named_head("main"), default_branches());
    app.handle_key(key(KeyCode::Up));
    app.handle_key(key(KeyCode::Enter));
    app.head_name = "bad name".into();
    let effect = app.handle_key(key(KeyCode::Enter));
    assert_eq!(
        effect,
        Effect::ValidateName {
            name: "bad name".into(),
            resolve_head: true
        }
    );
    app.submit_name(
        Err("fatal: 'bad name' is not a valid branch name".into()),
        false,
        None,
    );
    assert!(app.error.is_some());
    assert_eq!(
        app.mode,
        Mode::Naming {
            target: NameTarget::CurrentHead
        }
    );
    app.handle_key(char_key('x'));
    assert!(app.error.is_none());
    assert_eq!(app.head_name, "bad namex");
}

#[test]
fn head_naming_submit_resolves_head_and_starts_create() {
    let mut app = app(named_head("main"), default_branches());
    app.handle_key(key(KeyCode::Up));
    app.handle_key(key(KeyCode::Enter));
    app.head_name = "zzz-valid-name-123".into();
    let effect = app.handle_key(key(KeyCode::Enter));
    assert_eq!(
        effect,
        Effect::ValidateName {
            name: "zzz-valid-name-123".into(),
            resolve_head: true
        }
    );
    let effect = app.submit_name(Ok(()), false, Some(Ok("4f2c9e1".into())));
    assert_eq!(app.mode, Mode::Creating);
    assert!(app.create.is_some());
    assert_eq!(app.creating_branch.as_deref(), Some("zzz-valid-name-123"));
    let task = app.create.as_ref().expect("create started");
    assert_eq!(task.request.branch, "zzz-valid-name-123");
    assert!(task.request.base.is_some());
    assert_eq!(task.request.upstream, None);
    assert_eq!(
        effect,
        Effect::StartCreate {
            request: request("zzz-valid-name-123", Some("4f2c9e1"), None)
        }
    );
}

#[test]
fn existing_picker_enter_starts_creation_for_local_branch() {
    let mut app = app(named_head("main"), default_branches());
    open_existing(&mut app);
    let effect = app.handle_key(key(KeyCode::Enter));
    let task = app.create.as_ref().expect("create started");
    assert_eq!(task.request, request("feature/auth", None, None));
    assert_eq!(app.mode, Mode::Creating);
    assert_eq!(
        effect,
        Effect::StartCreate {
            request: request("feature/auth", None, None)
        }
    );
}

#[test]
fn remote_enter_requests_base_and_upstream() {
    let branches = vec![current("main"), Branch::remote("origin/feature/auth")];
    let mut app = app(named_head("main"), branches);
    open_existing(&mut app);
    app.handle_key(key(KeyCode::Down));
    app.handle_key(key(KeyCode::Enter));
    let task = app.create.as_ref().expect("create started");
    assert_eq!(
        task.request,
        request("feature/auth", Some("origin/feature/auth"), Some("origin/feature/auth"))
    );
}

#[test]
fn remote_with_matching_upstream_local_opens_local() {
    let mut local = branch(BranchKind::Local, "feature/auth");
    local.upstream = Some("origin/feature/auth".into());
    let branches = vec![current("main"), local, Branch::remote("origin/feature/auth")];
    let mut app = app(named_head("main"), branches);
    open_existing(&mut app);
    app.handle_key(key(KeyCode::Down));
    app.handle_key(key(KeyCode::Enter));
    let task = app.create.as_ref().expect("create started");
    assert_eq!(task.request, request("feature/auth", None, None));
}

#[test]
fn remote_with_unrelated_local_opens_conflict_screen() {
    let mut app = app(named_head("main"), conflicting_branches());
    open_existing(&mut app);
    app.handle_key(key(KeyCode::Down));
    app.handle_key(key(KeyCode::Enter));
    assert_eq!(app.mode, Mode::RemoteConflict);
    let conflict = app.conflict.as_ref().expect("conflict present");
    assert_eq!(conflict.remote, "origin/feature/auth");
    assert_eq!(conflict.proposed_local, "feature/auth");
    assert!(conflict.custom_name.is_empty());
    assert!(app.create.is_none());
}

#[test]
fn conflict_rename_opens_blank_custom_name_and_escape_returns() {
    let mut app = app(named_head("main"), conflicting_branches());
    open_existing(&mut app);
    app.handle_key(key(KeyCode::Down));
    app.handle_key(key(KeyCode::Enter));
    app.handle_key(key(KeyCode::Enter));
    assert_eq!(
        app.mode,
        Mode::Naming {
            target: NameTarget::RemoteConflict
        }
    );
    assert!(app.name_draft(&NameTarget::RemoteConflict).is_empty());
    for character in "custom/auth".chars() {
        app.handle_key(char_key(character));
    }
    assert_eq!(app.name_draft(&NameTarget::RemoteConflict), "custom/auth");
    app.handle_key(key(KeyCode::Esc));
    assert_eq!(app.mode, Mode::RemoteConflict);
    assert_eq!(app.name_draft(&NameTarget::RemoteConflict), "custom/auth");
}

#[test]
fn conflict_back_returns_to_picker_with_state() {
    let mut app = app(named_head("main"), conflicting_branches());
    open_existing(&mut app);
    app.handle_key(key(KeyCode::Down));
    app.handle_key(key(KeyCode::Enter));
    app.handle_key(key(KeyCode::Down));
    app.handle_key(key(KeyCode::Enter));
    assert_eq!(app.mode, Mode::ExistingPicker);
    assert_eq!(
        app.memory(Picker::Existing).selected.as_ref().unwrap().name,
        "origin/feature/auth"
    );
}

#[test]
fn conflict_escape_returns_to_picker() {
    let mut app = app(named_head("main"), conflicting_branches());
    open_existing(&mut app);
    app.handle_key(key(KeyCode::Down));
    app.handle_key(key(KeyCode::Enter));
    app.handle_key(key(KeyCode::Esc));
    assert_eq!(app.mode, Mode::ExistingPicker);
}

#[test]
fn conflict_arrows_clamp_between_two_actions() {
    let mut app = app(named_head("main"), conflicting_branches());
    open_existing(&mut app);
    app.handle_key(key(KeyCode::Down));
    app.handle_key(key(KeyCode::Enter));
    app.handle_key(key(KeyCode::Up));
    assert_eq!(app.conflict.as_ref().unwrap().selected_action, 0);
    app.handle_key(key(KeyCode::Down));
    app.handle_key(key(KeyCode::Down));
    assert_eq!(app.conflict.as_ref().unwrap().selected_action, 1);
}

#[test]
fn conflict_draft_survives_reentry() {
    let mut app = app(named_head("main"), conflicting_branches());
    open_existing(&mut app);
    app.handle_key(key(KeyCode::Down));
    app.handle_key(key(KeyCode::Enter));
    app.handle_key(key(KeyCode::Enter));
    app.conflict.as_mut().unwrap().custom_name = "custom/auth".into();
    app.handle_key(key(KeyCode::Esc));
    app.handle_key(key(KeyCode::Esc));
    app.handle_key(key(KeyCode::Enter));
    app.handle_key(key(KeyCode::Enter));
    assert_eq!(app.conflict.as_ref().unwrap().custom_name, "custom/auth");
}

#[test]
fn conflict_custom_name_keeps_remote_base_and_upstream() {
    let mut app = app(named_head("main"), conflicting_branches());
    open_existing(&mut app);
    app.handle_key(key(KeyCode::Down));
    app.handle_key(key(KeyCode::Enter));
    app.handle_key(key(KeyCode::Enter));
    app.conflict.as_mut().unwrap().custom_name = "custom/auth".into();
    let effect = app.handle_key(key(KeyCode::Enter));
    assert_eq!(
        effect,
        Effect::ValidateName {
            name: "custom/auth".into(),
            resolve_head: false
        }
    );
    app.submit_name(Ok(()), false, None);
    let task = app.create.as_ref().expect("create started");
    assert_eq!(
        task.request,
        request(
            "custom/auth",
            Some("origin/feature/auth"),
            Some("origin/feature/auth")
        )
    );
}

#[test]
fn creating_ignores_all_keys_including_escape() {
    let mut app = app(named_head("main"), default_branches());
    app.create = Some(CreateTask {
        request: request("feature/auth", None, None),
        source: CreateSource::ExistingPicker,
    });
    app.mode = Mode::Creating;
    app.handle_key(key(KeyCode::Esc));
    app.handle_key(char_key('x'));
    app.handle_key(key(KeyCode::Enter));
    assert!(!app.done);
    assert_eq!(app.mode, Mode::Creating);
    assert!(app.create.is_some());
}

#[test]
fn create_failure_recovers_to_originating_screen() {
    let cases = [
        (CreateSource::ExistingPicker, Mode::ExistingPicker, false),
        (
            CreateSource::CurrentHeadName,
            Mode::Naming {
                target: NameTarget::CurrentHead,
            },
            false,
        ),
        (
            CreateSource::SelectedBaseName,
            Mode::Naming {
                target: NameTarget::SelectedBase,
            },
            false,
        ),
        (
            CreateSource::RemoteConflictName,
            Mode::Naming {
                target: NameTarget::RemoteConflict,
            },
            true,
        ),
    ];
    for (source, expected_mode, needs_conflict) in cases {
        let mut app = app(named_head("main"), default_branches());
        if needs_conflict {
            app.conflict = Some(RemoteConflict {
                remote: "origin/feature/auth".into(),
                proposed_local: "feature/auth".into(),
                custom_name: "custom/auth".into(),
                selected_action: 0,
            });
        }
        app.create = Some(CreateTask {
            request: request("feature/auth", None, None),
            source,
        });
        app.poll_tasks(None, Some(CreateResult::Failed("boom".into())));
        assert_eq!(app.mode, expected_mode);
        assert_eq!(app.error.as_deref(), Some("boom"));
        assert!(app.create.is_none());
        assert!(!app.done);
    }
}

#[test]
fn create_success_closes_and_clears_state() {
    let mut app = app(named_head("main"), default_branches());
    app.creating_branch = Some("feature/auth".into());
    app.create = Some(CreateTask {
        request: request("feature/auth", None, None),
        source: CreateSource::ExistingPicker,
    });
    let effect = app.poll_tasks(None, Some(CreateResult::Succeeded));
    assert!(app.done);
    assert!(app.create.is_none());
    assert!(app.creating_branch.is_none());
    assert_eq!(
        effect,
        Effect::NotifyCreated {
            branch: "feature/auth".into()
        }
    );
}

#[test]
fn tracking_warning_is_partial_success_and_closes() {
    let mut app = app(named_head("main"), default_branches());
    app.creating_branch = Some("feature/auth".into());
    app.create = Some(CreateTask {
        request: request(
            "feature/auth",
            Some("origin/feature/auth"),
            Some("origin/feature/auth"),
        ),
        source: CreateSource::ExistingPicker,
    });
    let effect = app.poll_tasks(
        None,
        Some(CreateResult::SucceededWithTrackingWarning("git exploded".into())),
    );
    assert!(app.done);
    assert!(app.create.is_none());
    assert_eq!(
        effect,
        Effect::NotifyTrackingWarning {
            branch: "feature/auth".into(),
            error: "git exploded".into()
        }
    );
}

#[test]
fn fetch_success_preserves_selection_identity() {
    let mut app = app(named_head("main"), default_branches());
    open_existing(&mut app);
    app.handle_key(key(KeyCode::Down));
    let selected = app.memory(Picker::Existing).selected.clone();
    let mut refreshed = default_branches();
    refreshed.push(Branch::remote("origin/feature/new"));
    app.fetching = true;
    app.poll_tasks(Some(Ok(refreshed)), None);
    assert!(!app.fetching);
    assert_eq!(app.memory(Picker::Existing).selected, selected);
    assert_eq!(app.status.as_deref(), Some("Remote branches refreshed"));
}

#[test]
fn fetch_success_falls_back_to_first_actionable() {
    let mut app = app(named_head("main"), default_branches());
    open_existing(&mut app);
    app.handle_key(key(KeyCode::Down));
    app.fetching = true;
    app.poll_tasks(
        Some(Ok(vec![
            current("main"),
            branch(BranchKind::Local, "feature/auth"),
        ])),
        None,
    );
    assert_eq!(
        app.memory(Picker::Existing).selected.as_ref().unwrap().name,
        "feature/auth"
    );
}

#[test]
fn fetch_failure_keeps_refs_usable_and_selection() {
    let mut app = app(named_head("main"), default_branches());
    open_existing(&mut app);
    app.handle_key(key(KeyCode::Down));
    let selected = app.memory(Picker::Existing).selected.clone();
    let branches = app.branches.clone();
    app.fetching = true;
    app.poll_tasks(Some(Err("Could not resolve host".into())), None);
    assert_eq!(app.branches, branches);
    assert_eq!(app.memory(Picker::Existing).selected, selected);
    assert_eq!(app.error.as_deref(), Some("Could not resolve host"));
}

#[test]
fn duplicate_fetch_requests_are_ignored() {
    let mut app = app(named_head("main"), default_branches());
    open_existing(&mut app);
    app.fetching = true;
    let effect = app.handle_key(ctrl(KeyCode::Char('r')));
    assert!(app.fetching);
    assert_eq!(app.status.as_deref(), None);
    assert_eq!(effect, Effect::Nothing);
}

#[test]
fn picker_arrow_clears_recoverable_error() {
    let mut app = app(named_head("main"), default_branches());
    open_existing(&mut app);
    app.error = Some("create failed".into());
    app.handle_key(key(KeyCode::Down));
    assert!(app.error.is_none());
}

#[test]
fn naming_backspace_clears_error() {
    let mut app = app(named_head("main"), default_branches());
    app.handle_key(key(KeyCode::Up));
    app.handle_key(key(KeyCode::Enter));
    app.error = Some("invalid".into());
    app.handle_key(key(KeyCode::Backspace));
    assert!(app.error.is_none());
}

#[test]
fn fatal_error_closes_on_escape_or_enter() {
    let mut app = App::fatal("No Git repository".into());
    assert_eq!(app.mode, Mode::FatalError);
    app.handle_key(key(KeyCode::Enter));
    assert!(app.done);
    let mut app = App::fatal("No Git repository".into());
    app.handle_key(key(KeyCode::Esc));
    assert!(app.done);
}

#[test]
fn typing_in_one_picker_leaves_the_other_alone() {
    let mut app = app(named_head("main"), default_branches());
    open_existing(&mut app);
    app.handle_key(char_key('a'));
    app.handle_key(key(KeyCode::Esc));
    app.handle_key(key(KeyCode::Down));
    app.handle_key(key(KeyCode::Enter));
    assert_eq!(app.mode, Mode::BasePicker);
    assert!(app.memory(Picker::Base).query.is_empty());
    app.handle_key(char_key('o'));
    assert_eq!(app.memory(Picker::Base).query, "o");
    assert_eq!(app.memory(Picker::Existing).query, "a");
}

#[test]
fn picker_typing_selects_first_actionable_match() {
    let mut app = app(named_head("main"), default_branches());
    open_existing(&mut app);
    app.handle_key(char_key('o'));
    assert_eq!(
        app.memory(Picker::Existing).selected,
        Some(BranchIdentity {
            kind: BranchKind::Remote,
            name: "origin/feature/auth".into()
        })
    );
    assert!(app.error.is_none());
}

#[test]
fn intent_ignores_other_keys() {
    let mut app = app(named_head("main"), default_branches());
    app.handle_key(key(KeyCode::Backspace));
    app.handle_key(char_key('x'));
    assert_eq!(app.mode, Mode::Intent);
    assert_eq!(app.intent, Intent::OpenExisting);
    assert!(!app.done);
}

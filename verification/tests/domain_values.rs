use herdr_worktree_picker::app::{App, CreateTask, Effect, Key, KeyCode};
use herdr_worktree_picker::domain::{
    format_date, recovery_mode, short_commit, BaseRef, Branch, BranchIdentity, BranchKind,
    CreateRequest, CreateResult, CreateSource, HeadState, Intent, Mode, NameTarget, Picker,
};
use herdr_worktree_picker::json::Json;

fn local(name: &str) -> Branch {
    Branch {
        kind: BranchKind::Local,
        name: name.into(),
        upstream: None,
        checked_out_at: None,
        is_current: false,
        committer_time: 0,
    }
}

fn picker_app() -> App {
    let mut current = local("main");
    current.is_current = true;
    App::new(
        HeadState::Branch {
            name: "main".into(),
        },
        vec![current, local("feature/a"), local("feature/b"), Branch::remote("origin/x")],
    )
}

#[test]
fn dates_are_civil_dates_in_utc() {
    assert_eq!(format_date(0), "1970-01-01");
    assert_eq!(format_date(86_399), "1970-01-01");
    assert_eq!(format_date(951_782_400), "2000-02-29");
    assert_eq!(format_date(1_700_000_000), "2023-11-14");
    assert_eq!(format_date(-1), "1969-12-31");
    assert_eq!(format_date(-62_135_596_800), "0001-01-01");
}

#[test]
fn annotations_describe_branch_state_and_age() {
    let day = 86_400;
    let now = 1_700_000_000;
    let mut branch = local("a");
    branch.committer_time = now - 10;
    assert_eq!(branch.annotation(now), "today");
    branch.committer_time = now - day;
    assert_eq!(branch.annotation(now), "1 day ago");
    branch.committer_time = now - 30 * day;
    assert_eq!(branch.annotation(now), "30 days ago");
    branch.committer_time = now - 31 * day;
    assert_eq!(branch.annotation(now), format_date(now - 31 * day));
    branch.committer_time = now + 1_000;
    assert_eq!(branch.annotation(now), "today");
    branch.committer_time = 0;
    assert_eq!(branch.annotation(now), "");
    branch.checked_out_at = Some("/code/a".into());
    assert_eq!(branch.annotation(now), "at /code/a");
    branch.is_current = true;
    assert_eq!(branch.annotation(now), "current");
}

#[test]
fn short_commit_keeps_seven_characters() {
    assert_eq!(short_commit("0123456789abcdef"), "0123456");
    assert_eq!(short_commit("abc"), "abc");
}

#[test]
fn recovery_returns_to_origin_screen() {
    assert_eq!(recovery_mode(CreateSource::ExistingPicker), Mode::ExistingPicker);
    assert_eq!(
        recovery_mode(CreateSource::RemoteConflictName),
        Mode::Naming {
            target: NameTarget::RemoteConflict
        }
    );
}

#[test]
fn base_labels_and_values() {
    assert_eq!(BaseRef::Head.label(), "HEAD");
    assert_eq!(BaseRef::Remote("origin/x".into()).label(), "origin/x");
    assert_eq!(
        BaseRef::Head.value(Ok("abc123".into())),
        Ok("abc123".to_string())
    );
    assert_eq!(
        BaseRef::Head.value(Err("no HEAD".into())),
        Err("no HEAD".to_string())
    );
    assert_eq!(
        BaseRef::Local("dev".into()).value(Err("unused".into())),
        Ok("dev".to_string())
    );
}

#[test]
fn identity_matches_kind_and_name() {
    let branch = local("feature/a");
    let identity = BranchIdentity::of(&branch);
    assert!(identity.matches(&branch));
    assert!(!identity.matches(&Branch::remote("feature/a")));
    assert!(!identity.matches(&local("feature/b")));
}

#[test]
fn picker_round_trip_keeps_search_and_selection() {
    let mut app = picker_app();
    app.handle_key(Key::plain(KeyCode::Enter));
    app.handle_key(Key::plain(KeyCode::Char('f')));
    app.handle_key(Key::plain(KeyCode::Down));
    let before = app.clone();
    app.handle_key(Key::plain(KeyCode::Esc));
    app.handle_key(Key::plain(KeyCode::Enter));
    assert_eq!(app.existing, before.existing);
    assert_eq!(app.mode, before.mode);
    assert_eq!(app.base_picker, before.base_picker);
}

#[test]
fn name_round_trip_keeps_draft() {
    let mut app = picker_app();
    app.handle_key(Key::plain(KeyCode::Up));
    app.handle_key(Key::plain(KeyCode::Enter));
    assert_eq!(app.intent, Intent::NewFromHead);
    for character in "wip".chars() {
        app.handle_key(Key::plain(KeyCode::Char(character)));
    }
    app.handle_key(Key::plain(KeyCode::Esc));
    app.handle_key(Key::plain(KeyCode::Enter));
    assert_eq!(app.name_draft(&NameTarget::CurrentHead), "wip");
    app.handle_key(Key::plain(KeyCode::Char('!')));
    app.handle_key(Key::plain(KeyCode::Backspace));
    assert_eq!(app.head_name, "wip");
}

#[test]
fn search_type_then_backspace_restores_query() {
    let mut app = picker_app();
    app.handle_key(Key::plain(KeyCode::Enter));
    app.handle_key(Key::plain(KeyCode::Char('f')));
    app.handle_key(Key::plain(KeyCode::Char('Q')));
    assert!(app.picker_rows(Picker::Existing).is_empty());
    app.handle_key(Key::plain(KeyCode::Backspace));
    assert_eq!(app.memory(Picker::Existing).query, "f");
    assert_eq!(app.picker_rows(Picker::Existing).len(), 2);
}

#[test]
fn selection_never_rests_on_a_disabled_row() {
    let mut app = picker_app();
    app.handle_key(Key::plain(KeyCode::Enter));
    for _ in 0..5 {
        app.handle_key(Key::plain(KeyCode::Up));
        let position = app.selected_position(Picker::Existing).unwrap();
        assert!(app.picker_rows(Picker::Existing)[position].actionable);
    }
    assert_eq!(app.selected_position(Picker::Existing), Some(1));
}

#[test]
fn keys_with_alt_are_not_typed() {
    let mut app = picker_app();
    app.handle_key(Key::plain(KeyCode::Enter));
    let mut key = Key::plain(KeyCode::Char('x'));
    key.modifiers.other = true;
    app.handle_key(key);
    assert_eq!(app.memory(Picker::Existing).query, "");
    let mut shifted = Key::plain(KeyCode::Char('X'));
    shifted.modifiers.shift = true;
    app.handle_key(shifted);
    assert_eq!(app.memory(Picker::Existing).query, "X");
}

#[test]
fn fetch_result_without_running_fetch_is_ignored() {
    let mut app = picker_app();
    let before = app.branches.clone();
    app.poll_tasks(Some(Ok(vec![])), None);
    assert_eq!(app.branches, before);
    assert_eq!(app.status, None);
}

#[test]
fn creation_result_without_task_is_ignored() {
    let mut app = picker_app();
    let effect = app.poll_tasks(None, Some(CreateResult::Succeeded));
    assert_eq!(effect, Effect::Nothing);
    assert!(!app.done);
}

#[test]
fn missing_base_is_reported_on_submit() {
    let mut app = picker_app();
    app.mode = Mode::Naming {
        target: NameTarget::SelectedBase,
    };
    app.base_name = "new".into();
    let effect = app.submit_name(Ok(()), false, None);
    assert_eq!(effect, Effect::Nothing);
    assert_eq!(app.error.as_deref(), Some("No base is selected"));
}

#[test]
fn local_base_creates_without_upstream() {
    let mut app = picker_app();
    app.mode = Mode::Naming {
        target: NameTarget::SelectedBase,
    };
    app.selected_base = Some(BaseRef::Local("feature/a".into()));
    app.base_name = "new".into();
    app.submit_name(Ok(()), false, None);
    let task: &CreateTask = app.create.as_ref().unwrap();
    assert_eq!(
        task.request,
        CreateRequest {
            branch: "new".into(),
            base: Some("feature/a".into()),
            upstream: None,
        }
    );
    assert_eq!(task.source, CreateSource::SelectedBaseName);
}

#[test]
fn existing_name_is_refused_on_submit() {
    let mut app = picker_app();
    app.mode = Mode::Naming {
        target: NameTarget::CurrentHead,
    };
    app.head_name = "main".into();
    app.submit_name(Ok(()), true, Some(Ok("abc".into())));
    assert_eq!(app.error.as_deref(), Some("Branch “main” already exists locally"));
    assert!(app.create.is_none());
}

#[test]
fn failed_head_resolution_is_reported_on_submit() {
    let mut app = picker_app();
    app.mode = Mode::Naming {
        target: NameTarget::CurrentHead,
    };
    app.head_name = "new".into();
    app.submit_name(Ok(()), false, Some(Err("fatal: bad HEAD".into())));
    assert_eq!(app.error.as_deref(), Some("fatal: bad HEAD"));
    assert!(app.create.is_none());
}

#[test]
fn json_lookups_follow_object_members() {
    let value = Json::object(vec![
        ("a".to_string(), Json::object(vec![("b".to_string(), Json::string("deep"))])),
        ("n".to_string(), Json::Number { unsigned: Some(3) }),
        ("t".to_string(), Json::Bool(true)),
    ]);
    assert_eq!(value.path(&["a", "b"]).and_then(Json::as_str), Some("deep"));
    assert_eq!(value.path(&["a", "c"]), None);
    assert_eq!(value.path(&["n", "x"]), None);
    assert_eq!(value.get("n").and_then(Json::as_u64), Some(3));
    assert_eq!(value.get("t").and_then(Json::as_bool), Some(true));
    assert!(value.get("a").unwrap().as_array().is_none());
    assert!(Json::Array(vec![Json::Null]).as_array().is_some());
}

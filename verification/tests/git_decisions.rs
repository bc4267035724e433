use herdr_worktree_picker::domain::{
    Branch, BranchKind, CreateRequest, CreateResult, HeadState, OpenBlocker,
};
use herdr_worktree_picker::git::{
    create_outcome, derive_local_name, fetch_all, find_worktree, head_check, load_branches,
    load_head, load_worktrees, plan_open, sort_branches, tracking_to_verify, upstream_of,
    validate_branch_name, validate_new_branch_name, verify_or_set_upstream, HeadCheck,
};

fn local(name: &str, upstream: Option<&str>, checked_out_at: Option<&str>) -> Branch {
    Branch {
        kind: BranchKind::Local,
        name: name.into(),
        upstream: upstream.map(str::to_owned),
        checked_out_at: checked_out_at.map(str::to_owned),
        is_current: false,
        committer_time: 0,
    }
}

#[test]
fn plans_local_open_without_base_or_upstream() {
    let local = Branch {
        kind: BranchKind::Local,
        name: "feature/auth".into(),
        upstream: None,
        checked_out_at: None,
        is_current: false,
        committer_time: 0,
    };
    assert_eq!(
        plan_open(&local, std::slice::from_ref(&local)),
        Ok(CreateRequest {
            branch: "feature/auth".into(),
            base: None,
            upstream: None,
        })
    );
}

#[test]
fn plans_checked_out_local_blocker() {
    let local = Branch {
        kind: BranchKind::Local,
        name: "feature/auth".into(),
        upstream: None,
        checked_out_at: Some("/code/auth".into()),
        is_current: false,
        committer_time: 0,
    };
    assert_eq!(
        plan_open(&local, std::slice::from_ref(&local)),
        Err(OpenBlocker::AlreadyCheckedOut {
            branch: "feature/auth".into(),
            path: "/code/auth".into(),
        })
    );
}

#[test]
fn plans_remote_without_silently_using_conflicting_local() {
    let remote = Branch::remote("upstream/feature/auth");
    let conflicting = Branch {
        kind: BranchKind::Local,
        name: "feature/auth".into(),
        upstream: Some("origin/feature/auth".into()),
        checked_out_at: None,
        is_current: false,
        committer_time: 0,
    };
    assert_eq!(
        plan_open(&remote, &[remote.clone(), conflicting]),
        Err(OpenBlocker::RemoteNameConflict {
            local: "feature/auth".into(),
            remote: "upstream/feature/auth".into(),
        })
    );
}

#[test]
fn plans_new_local_for_remote_without_local_match() {
    let remote = Branch::remote("origin/feature/auth");
    assert_eq!(
        plan_open(&remote, std::slice::from_ref(&remote)),
        Ok(CreateRequest {
            branch: "feature/auth".into(),
            base: Some("origin/feature/auth".into()),
            upstream: Some("origin/feature/auth".into()),
        })
    );
}

#[test]
fn plans_matching_upstream_local_for_remote() {
    let remote = Branch::remote("origin/feature/auth");
    let local = Branch {
        kind: BranchKind::Local,
        name: "feature/auth".into(),
        upstream: Some("origin/feature/auth".into()),
        checked_out_at: None,
        is_current: false,
        committer_time: 0,
    };
    assert_eq!(
        plan_open(&remote, &[remote.clone(), local]),
        Ok(CreateRequest {
            branch: "feature/auth".into(),
            base: None,
            upstream: None,
        })
    );
}

#[test]
fn plans_remote_derived_local_checked_out_blocker() {
    let remote = Branch::remote("origin/feature/auth");
    let local = Branch {
        kind: BranchKind::Local,
        name: "feature/auth".into(),
        upstream: Some("origin/feature/auth".into()),
        checked_out_at: Some("/code/auth".into()),
        is_current: false,
        committer_time: 0,
    };
    assert_eq!(
        plan_open(&remote, &[remote.clone(), local]),
        Err(OpenBlocker::AlreadyCheckedOut {
            branch: "feature/auth".into(),
            path: "/code/auth".into(),
        })
    );
}

#[test]
fn remote_name_without_slash_derives_itself() {
    assert_eq!(derive_local_name(&"standalone".into()), "standalone");
    assert_eq!(derive_local_name(&"origin/a/b".into()), "a/b");
    let remote = Branch::remote("standalone");
    assert_eq!(
        plan_open(&remote, std::slice::from_ref(&remote)),
        Ok(CreateRequest {
            branch: "standalone".into(),
            base: Some("standalone".into()),
            upstream: Some("standalone".into()),
        })
    );
}

#[test]
fn checked_out_local_without_matching_upstream_is_a_conflict() {
    let remote = Branch::remote("origin/feature/auth");
    let other = local("feature/auth", None, Some("/code/auth"));
    assert_eq!(
        plan_open(&remote, &[remote.clone(), other]),
        Err(OpenBlocker::RemoteNameConflict {
            local: "feature/auth".into(),
            remote: "origin/feature/auth".into(),
        })
    );
}

#[test]
fn blocker_messages_name_branch_and_path() {
    let checked_out = OpenBlocker::AlreadyCheckedOut {
        branch: "feature/auth".into(),
        path: "/code/auth".into(),
    };
    assert_eq!(
        checked_out.message(),
        "feature/auth is already checked out at /code/auth."
    );
    let conflict = OpenBlocker::RemoteNameConflict {
        local: "feature/auth".into(),
        remote: "upstream/feature/auth".into(),
    };
    assert_eq!(
        conflict.message(),
        "feature/auth exists locally but does not track upstream/feature/auth."
    );
}

#[test]
fn load_head_distinguishes_named_detached_and_unborn() {
    assert_eq!(
        load_head(HeadCheck::Resolves, Some("main".into()), Ok("ignored".into())),
        Ok(HeadState::Branch {
            name: "main".into()
        })
    );
    assert_eq!(
        load_head(HeadCheck::Resolves, None, Ok("4f2c9e1d".into())),
        Ok(HeadState::Detached {
            commit: "4f2c9e1d".into()
        })
    );
    assert_eq!(
        load_head(HeadCheck::Unborn, None, Err("no HEAD".into())),
        Ok(HeadState::Unborn)
    );
    assert_eq!(
        load_head(HeadCheck::Resolves, None, Err("broken".into())),
        Err("broken".into())
    );
}

#[test]
fn head_errors_other_than_unborn_stay_visible() {
    let not_a_repository = "fatal: not a git repository (or any of the parent directories): .git";
    let check = head_check(false, Some(128), not_a_repository, not_a_repository.into());
    assert_eq!(check, HeadCheck::Failed(not_a_repository.into()));
    assert_eq!(
        load_head(check, None, Ok(String::new())),
        Err(not_a_repository.to_string())
    );
    assert_eq!(
        head_check(false, Some(1), "", "Command failed with exit status: 1".into()),
        HeadCheck::Unborn
    );
    assert_eq!(
        head_check(false, Some(1), "fatal: bad object", "fatal: bad object".into()),
        HeadCheck::Failed("fatal: bad object".into())
    );
    assert_eq!(
        head_check(false, None, "", "killed".into()),
        HeadCheck::Failed("killed".into())
    );
    assert_eq!(head_check(true, Some(0), "", String::new()), HeadCheck::Resolves);
}

#[test]
fn loads_current_remote_and_checked_out_branches() {
    let worktrees = "worktree /repo\nHEAD 1111\nbranch refs/heads/main\n\nworktree /repo/other-worktree\nHEAD 1111\nbranch refs/heads/feature/other\n";
    let locals = "feature/other\t\t1700000000\nmain\t\t1700000000";
    let remotes = "origin/feature/auth\t\t1700000000";
    let branches = load_branches(Some("main".into()), worktrees, locals, remotes);
    assert_eq!(branches.len(), 3);
    assert_eq!(branches[0].name, "main");
    assert!(branches[0].is_current);
    assert_eq!(
        branches
            .iter()
            .find(|branch| branch.name == "feature/other")
            .unwrap()
            .checked_out_at
            .as_deref(),
        Some("/repo/other-worktree")
    );
    assert!(branches
        .iter()
        .any(|branch| branch.name == "origin/feature/auth"));
}

#[test]
fn excludes_symbolic_remote_refs() {
    let remotes = "origin/HEAD\trefs/remotes/origin/feature/auth\t1700000000\norigin/feature/auth\t\t1700000000";
    let branches = load_branches(Some("main".into()), "", "main\t\t1700000000", remotes);
    assert!(!branches.iter().any(|branch| branch.name == "origin/HEAD"));
    assert!(branches
        .iter()
        .any(|branch| branch.name == "origin/feature/auth"));
}

#[test]
fn branch_order_is_current_then_newest_then_name() {
    let locals = "b\torigin/b\t100\na\t\t100\nmain\t\t50\nnew\t\t300\nodd\t\tnot-a-number";
    let remotes = "origin/z\t\t10\norigin/y\t\t20\norigin/x\t\t20";
    let branches = load_branches(Some("main".into()), "", locals, remotes);
    let names: Vec<&str> = branches.iter().map(|b| b.name.as_str()).collect();
    assert_eq!(
        names,
        vec!["main", "new", "a", "b", "odd", "origin/x", "origin/y", "origin/z"]
    );
    assert_eq!(branches[3].upstream.as_deref(), Some("origin/b"));
    assert_eq!(branches[2].upstream, None);
    assert_eq!(branches[4].committer_time, 0);
    assert_eq!(branches[5].kind, BranchKind::Remote);
    assert_eq!(branches[1].committer_time, 300);
}

#[test]
fn sort_orders_by_current_time_and_name() {
    let mut current = local("main", None, None);
    current.is_current = true;
    let mut newer = local("zeta", None, None);
    newer.committer_time = 10;
    let older = local("alpha", None, None);
    let sorted = sort_branches(&vec![older, newer, current]);
    let names: Vec<&str> = sorted.iter().map(|b| b.name.as_str()).collect();
    assert_eq!(names, vec!["main", "zeta", "alpha"]);
}

#[test]
fn worktree_list_records_branch_paths() {
    let output = "worktree /repo\nHEAD 1\nbranch refs/heads/main\n\nworktree /detached\nHEAD 2\ndetached\n\nworktree /repo/wt\nHEAD 3\nbranch refs/heads/feature/x";
    let entries = load_worktrees(output);
    assert_eq!(
        entries,
        vec![
            ("main".to_string(), "/repo".to_string()),
            ("feature/x".to_string(), "/repo/wt".to_string()),
        ]
    );
    assert_eq!(
        find_worktree(&entries, &"feature/x".into()).as_deref(),
        Some("/repo/wt")
    );
    assert_eq!(find_worktree(&entries, &"other".into()), None);
}

#[test]
fn worktree_path_is_dropped_at_blank_line() {
    let output = "worktree /a\n\nbranch refs/heads/orphan";
    assert!(load_worktrees(output).is_empty());
}

#[test]
fn fetch_failure_wins_over_reload() {
    assert_eq!(
        fetch_all(Err("offline".into()), Ok(vec![])),
        Err("offline".to_string())
    );
    assert_eq!(
        fetch_all(Ok(()), Err("reload failed".into())),
        Err("reload failed".to_string())
    );
    let reloaded = vec![Branch::remote("origin/x")];
    assert_eq!(fetch_all(Ok(()), Ok(reloaded.clone())), Ok(reloaded));
}

#[test]
fn validates_new_branch_names_and_existing_names() {
    assert!(validate_new_branch_name("feature/new", Ok(()), false).is_ok());
    assert!(validate_new_branch_name(
        "bad name",
        Err("fatal: 'bad name' is not a valid branch name".into()),
        false
    )
    .is_err());
    assert_eq!(
        validate_new_branch_name("main", Ok(()), true),
        Err("Branch “main” already exists locally".to_string())
    );
}

#[test]
fn empty_branch_name_is_required() {
    assert_eq!(
        validate_branch_name("", Ok(())),
        Err("Branch name is required".to_string())
    );
    assert_eq!(
        validate_new_branch_name("", Err("git said no".into()), true),
        Err("Branch name is required".to_string())
    );
    assert_eq!(
        validate_branch_name("x", Err("git said no".into())),
        Err("git said no".to_string())
    );
}

#[test]
fn upstream_output_is_none_when_empty() {
    assert_eq!(upstream_of(String::new()), None);
    assert_eq!(
        upstream_of("origin/main".into()),
        Some("origin/main".to_string())
    );
}

#[test]
fn verifies_matching_upstream_without_changes() {
    let local = "main".to_string();
    let remote = "origin/feature/auth".to_string();
    assert!(verify_or_set_upstream(
        &local,
        &remote,
        Ok(Some("origin/feature/auth".into())),
        None
    )
    .is_ok());
}

#[test]
fn repairs_missing_upstream_and_verifies() {
    let local = "feature/new".to_string();
    let remote = "origin/feature/new".to_string();
    assert!(verify_or_set_upstream(
        &local,
        &remote,
        Ok(None),
        Some(Ok(Some("origin/feature/new".into())))
    )
    .is_ok());
}

#[test]
fn repairs_different_upstream_to_exact_remote() {
    let local = "feature/new".to_string();
    let remote = "origin/feature/new".to_string();
    assert!(verify_or_set_upstream(
        &local,
        &remote,
        Ok(Some("origin/other".into())),
        Some(Ok(Some("origin/feature/new".into())))
    )
    .is_ok());
}

#[test]
fn repair_that_does_not_stick_is_reported() {
    let local = "feature/new".to_string();
    let remote = "origin/feature/new".to_string();
    assert_eq!(
        verify_or_set_upstream(&local, &remote, Ok(None), Some(Ok(None))),
        Err("Could not set upstream of feature/new to origin/feature/new after repair".to_string())
    );
    assert_eq!(
        verify_or_set_upstream(&local, &remote, Ok(None), Some(Err("no such remote".into()))),
        Err("no such remote".to_string())
    );
    assert_eq!(
        verify_or_set_upstream(&local, &remote, Err("git failed".into()), None),
        Err("git failed".to_string())
    );
}

#[test]
fn creation_outcome_separates_failure_from_tracking_warning() {
    assert_eq!(
        create_outcome(Err("herdr failed".into()), None),
        CreateResult::Failed("herdr failed".into())
    );
    assert_eq!(create_outcome(Ok(()), None), CreateResult::Succeeded);
    assert_eq!(create_outcome(Ok(()), Some(Ok(()))), CreateResult::Succeeded);
    assert_eq!(
        create_outcome(Ok(()), Some(Err("upstream".into()))),
        CreateResult::SucceededWithTrackingWarning("upstream".into())
    );
}

#[test]
fn tracking_is_checked_only_after_a_creation_with_an_upstream() {
    let with_upstream = CreateRequest {
        branch: "feature/auth".into(),
        base: Some("origin/feature/auth".into()),
        upstream: Some("origin/feature/auth".into()),
    };
    let without_upstream = CreateRequest {
        branch: "feature/auth".into(),
        base: None,
        upstream: None,
    };
    assert_eq!(
        tracking_to_verify(&Ok(()), &with_upstream),
        Some("origin/feature/auth".to_string())
    );
    assert_eq!(tracking_to_verify(&Ok(()), &without_upstream), None);
    assert_eq!(
        tracking_to_verify(&Err("worktree exists".into()), &with_upstream),
        None
    );
}

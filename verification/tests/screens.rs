use herdr_worktree_picker::app::{App, CreateTask, Key, KeyCode};
use herdr_worktree_picker::domain::{
    Branch, BranchKind, CreateRequest, CreateSource, HeadState, Mode, NameTarget, Picker,
    RemoteConflict,
};
use herdr_worktree_picker::launch::{open_picker_args, picker_route, run, Command, LaunchRoute};
use herdr_worktree_picker::github::{GitHubRepository, PullRequest};
use herdr_worktree_picker::screen::{
    badge, conflict_lines, creating_lines, empty_state_message, fatal_message, footer,
    header_height, header_title, intent_lines, preparing_lines, pull_request_empty_message,
    pull_request_footer, pull_request_item, pull_request_rows, row_padding, annotation_padding,
    Tone,
};

fn main_app() -> App {
    App::new(
        HeadState::Branch {
            name: "main".into(),
        },
        vec![
            Branch {
                kind: BranchKind::Local,
                name: "main".into(),
                upstream: None,
                checked_out_at: None,
                is_current: true,
                committer_time: 0,
            },
            Branch::remote("origin/feature/auth"),
        ],
    )
}

fn texts(lines: &[herdr_worktree_picker::screen::Line]) -> Vec<String> {
    lines.iter().map(|line| line.text.clone()).collect()
}

#[test]
fn naming_header_fits_base_and_name_lines() {
    assert_eq!(
        header_height(&Mode::Naming {
            target: NameTarget::CurrentHead
        }),
        4
    );
    assert_eq!(
        header_height(&Mode::Naming {
            target: NameTarget::SelectedBase
        }),
        4
    );
    assert_eq!(
        header_height(&Mode::Naming {
            target: NameTarget::RemoteConflict
        }),
        4
    );
    for mode in [
        Mode::Intent,
        Mode::ExistingPicker,
        Mode::BasePicker,
        Mode::PullRequestPicker,
        Mode::PreparingPullRequest {
            number: 1,
            title: "test".into(),
        },
        Mode::RemoteConflict,
        Mode::Creating,
        Mode::FatalError,
    ] {
        assert_eq!(header_height(&mode), 3);
    }
}

#[test]
fn empty_state_explains_no_rows_and_no_match() {
    assert_eq!(
        empty_state_message(Picker::Existing, ""),
        (
            "No branches to open".into(),
            "Create an initial commit or refresh remotes".into()
        )
    );
    assert_eq!(
        empty_state_message(Picker::Base, ""),
        (
            "No bases to choose".into(),
            "Create a branch or refresh remotes".into()
        )
    );
    assert_eq!(
        empty_state_message(Picker::Existing, "zzz"),
        (
            "No branches match “zzz”".into(),
            "Change the search or refresh remotes".into()
        )
    );
}

#[test]
fn base_picker_without_match_names_bases() {
    assert_eq!(
        empty_state_message(Picker::Base, "q"),
        (
            "No bases match “q”".to_string(),
            "Change the search or refresh remotes".to_string()
        )
    );
}

#[test]
fn titles_name_each_screen() {
    assert_eq!(header_title(&Mode::Intent), " Create worktree ");
    assert_eq!(header_title(&Mode::ExistingPicker), " Choose branch ");
    assert_eq!(header_title(&Mode::BasePicker), " Choose base ");
    assert_eq!(
        header_title(&Mode::Naming {
            target: NameTarget::SelectedBase
        }),
        " Branch name "
    );
    assert_eq!(header_title(&Mode::RemoteConflict), " Resolve local name conflict ");
    assert_eq!(header_title(&Mode::Creating), " Creating worktree ");
    assert_eq!(header_title(&Mode::FatalError), " Worktree creation error ");
}

#[test]
fn intent_screen_marks_choice_and_dims_disabled() {
    let app = App::new(
        HeadState::Detached {
            commit: "0123456789".into(),
        },
        vec![],
    );
    let lines = intent_lines(&app);
    assert_eq!(
        texts(&lines),
        vec![
            "  New branch from current HEAD",
            "› Open an existing branch",
            "  New branch from another base",
            "",
            "Detached HEAD at 0123456",
        ]
    );
    assert_eq!(lines[0].tone, Tone::Dim);
    assert_eq!(lines[1].tone, Tone::Selected);
    assert_eq!(lines[2].tone, Tone::Plain);
}

#[test]
fn picker_footer_reflects_error_status_and_rows() {
    let mut app = main_app();
    app.handle_key(Key::plain(KeyCode::Enter));
    let line = footer(&app);
    assert_eq!(line.text, "Enter open • Ctrl-R refresh • Esc back");
    assert_eq!(line.tone, Tone::Dim);
    app.handle_key(Key::ctrl(KeyCode::Char('r')));
    let line = footer(&app);
    assert_eq!(line.text, "Fetching all remotes…");
    assert_eq!(line.tone, Tone::Warning);
    app.fetching = false;
    app.status = None;
    for character in "zzz".chars() {
        app.handle_key(Key::plain(KeyCode::Char(character)));
    }
    assert_eq!(footer(&app).text, "Backspace edit • Ctrl-R refresh • Esc back");
    app.error = Some("boom".into());
    let line = footer(&app);
    assert_eq!(line.text, "boom");
    assert_eq!(line.tone, Tone::Error);
}

#[test]
fn base_picker_footer_selects_base() {
    let mut app = main_app();
    app.mode = Mode::BasePicker;
    assert_eq!(footer(&app).text, "Enter select base • Ctrl-R refresh • Esc back");
}

#[test]
fn fixed_footers() {
    let mut app = main_app();
    assert_eq!(footer(&app).text, "Up/Down choose • Enter continue • Esc close");
    app.mode = Mode::Naming {
        target: NameTarget::CurrentHead,
    };
    assert_eq!(footer(&app).text, "Enter create • Ctrl-U clear • Esc back");
    app.mode = Mode::RemoteConflict;
    assert_eq!(footer(&app).text, "Enter continue • Esc back");
    app.mode = Mode::Creating;
    assert_eq!(
        footer(&app).text,
        "Creating worktree… please wait — Esc cannot cancel"
    );
    let fatal = App::fatal("No Git repository".into());
    assert_eq!(footer(&fatal).text, "Esc or Enter close");
    assert_eq!(fatal_message(&fatal), "No Git repository");
}

#[test]
fn conflict_screen_lists_two_actions() {
    let mut app = main_app();
    app.conflict = Some(RemoteConflict {
        remote: "origin/feature/auth".into(),
        proposed_local: "feature/auth".into(),
        custom_name: String::new(),
        selected_action: 1,
    });
    let lines = conflict_lines(&app);
    assert_eq!(
        texts(&lines),
        vec![
            "feature/auth exists locally but does not track origin/feature/auth.",
            "",
            "  Choose a different local name",
            "› Back to branch selection",
        ]
    );
    assert_eq!(lines[3].tone, Tone::Selected);
}

#[test]
fn creating_screen_shows_branch_and_base() {
    let mut app = main_app();
    app.create = Some(CreateTask {
        request: CreateRequest {
            branch: "feature/auth".into(),
            base: Some("origin/feature/auth".into()),
            upstream: None,
        },
        source: CreateSource::ExistingPicker,
    });
    assert_eq!(
        texts(&creating_lines(&app)),
        vec![
            "Branch: feature/auth",
            "Base: origin/feature/auth",
            "",
            "Creating and focusing worktree…",
            "Please wait; popup closes when complete",
        ]
    );
    assert!(creating_lines(&main_app()).is_empty());
}

#[test]
fn preparing_screen_names_pull_request() {
    assert_eq!(
        texts(&preparing_lines(42, "Add widgets")),
        vec![
            "PR #42: Add widgets",
            "",
            "Fetching and verifying latest head…",
            "Please wait; popup closes after worktree creation",
        ]
    );
}

#[test]
fn rows_pad_annotation_to_the_edge() {
    assert_eq!(badge(BranchKind::Local), " LOCAL  ");
    assert_eq!(badge(BranchKind::Remote), " REMOTE ");
    assert_eq!(row_padding(40, 30, 5), 10);
    assert_eq!(row_padding(40, 45, 5), 1);
    assert_eq!(row_padding(40, 30, 0), 0);
}

#[test]
fn entry_points_and_routes() {
    assert_eq!(run("open"), Ok(Command::Open));
    assert_eq!(run("open-pr"), Ok(Command::OpenPullRequest));
    assert_eq!(run("picker"), Ok(Command::Picker));
    assert_eq!(
        run("other"),
        Err("Usage: herdr-worktree-picker {open|open-pr|picker}".to_string())
    );
    assert_eq!(picker_route(None), Ok(LaunchRoute::Create));
    assert_eq!(picker_route(Some(String::new())), Ok(LaunchRoute::Create));
    assert_eq!(picker_route(Some("create".into())), Ok(LaunchRoute::Create));
    assert_eq!(
        picker_route(Some("pull-request".into())),
        Ok(LaunchRoute::PullRequest)
    );
    assert_eq!(
        picker_route(Some("nope".into())),
        Err("Invalid picker route: nope".to_string())
    );
}

#[test]
fn popup_command_passes_pane_and_route() {
    assert_eq!(
        open_picker_args(
            "herdr-worktree-picker",
            Some("p7".into()),
            LaunchRoute::PullRequest
        ),
        vec![
            "plugin",
            "pane",
            "open",
            "--plugin",
            "herdr-worktree-picker",
            "--entrypoint",
            "picker",
            "--env",
            "HERDR_SOURCE_PANE_ID=p7",
            "--env",
            "HERDR_WORKTREE_PICKER_ROUTE=pull-request"
        ]
    );
    assert_eq!(
        open_picker_args("x", None, LaunchRoute::Create),
        vec!["plugin", "pane", "open", "--plugin", "x", "--entrypoint", "picker"]
    );
}

fn pr(number: u64, title: &str, is_draft: bool) -> PullRequest {
    PullRequest {
        number,
        title: title.into(),
        author: "octocat".into(),
        head_label: "acme/feature".into(),
        is_draft,
        updated_at: "2024-05-01T12:00:00Z".into(),
    }
}

#[test]
fn pull_request_items_show_number_title_and_date() {
    assert_eq!(
        pull_request_item(&pr(7, "Fix login", true)),
        (
            "DRAFT  #7 Fix login".to_string(),
            "octocat  acme/feature  2024-05-01".to_string()
        )
    );
    assert_eq!(pull_request_item(&pr(8, "Docs", false)).0, "#8 Docs");
}

#[test]
fn pull_request_rows_follow_search() {
    let items = vec![pr(1, "Fix login", false), pr(2, "Docs", false), pr(3, "Login page", false)];
    assert_eq!(pull_request_rows(&items, "login"), vec![0, 2]);
    assert_eq!(pull_request_rows(&items, ""), vec![0, 1, 2]);
}

#[test]
fn pull_request_list_explains_emptiness() {
    let repository = Some(GitHubRepository {
        host: "github.com".into(),
        name_with_owner: "acme/widgets".into(),
        fetch_remote: "origin".into(),
    });
    assert_eq!(
        pull_request_empty_message(true, "", &repository, 0, 0).as_deref(),
        Some("Resolving GitHub repository and loading open pull requests…")
    );
    assert_eq!(
        pull_request_empty_message(false, "", &repository, 0, 0).as_deref(),
        Some("No open pull requests for acme/widgets")
    );
    assert_eq!(
        pull_request_empty_message(false, "", &None, 0, 0).as_deref(),
        Some("No open pull requests")
    );
    assert_eq!(
        pull_request_empty_message(false, "q", &repository, 3, 0).as_deref(),
        Some("No pull requests match “q”")
    );
    assert_eq!(pull_request_empty_message(false, "q", &repository, 3, 1), None);
}

#[test]
fn pull_request_footer_notes_truncation() {
    let line = pull_request_footer(&None, &None, false, 2, true);
    assert_eq!(
        line.text,
        "Showing 1,000 most recently updated open PRs • Enter open • Ctrl-R refresh • Esc back"
    );
    assert_eq!(pull_request_footer(&None, &None, false, 0, false).text, "Ctrl-R refresh • Esc back");
    let loading = pull_request_footer(&None, &None, true, 0, false);
    assert_eq!(loading.text, "Loading open pull requests…");
    assert_eq!(loading.tone, Tone::Warning);
    let error = pull_request_footer(&Some("boom".into()), &None, true, 0, false);
    assert_eq!(error.text, "boom");
    assert_eq!(error.tone, Tone::Error);
}

#[test]
fn annotation_padding_counts_characters_of_each_part() {
    // 8 + 4 + 8 characters used of 40.
    assert_eq!(annotation_padding(40, " LOCAL  ", "main", " current"), 20);
    // Non-ASCII names count characters, not bytes.
    assert_eq!(annotation_padding(20, " LOCAL  ", "修正", " x"), 8);
    assert_eq!(annotation_padding(10, " LOCAL  ", "feature/auth", " x"), 1);
    assert_eq!(annotation_padding(40, " LOCAL  ", "main", ""), 0);
}

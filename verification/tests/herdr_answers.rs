use herdr_worktree_picker::domain::CreateRequest;
use herdr_worktree_picker::herdr::{
    created_notification_args, focused_pane_cwd, json_error_message, output_message,
    pane_cwd, pane_workspace, parent_workspace, repository_origin, repository_root,
    source_workspace_id, tracking_warning_args, workspace_origin, worktree_create_args, Origin,
};
use herdr_worktree_picker::json::Json;

fn member(key: &str, value: Json) -> (String, Json) {
    (key.to_string(), value)
}

fn object(members: Vec<(String, Json)>) -> Json {
    Json::object(members)
}

fn text(s: &str) -> Json {
    Json::string(s)
}

fn cli_error(message: &str) -> Json {
    object(vec![member(
        "error",
        object(vec![
            member("code", text("linked_worktree_source")),
            member("message", text(message)),
        ]),
    )])
}

fn pane(fields: Vec<(String, Json)>) -> Json {
    object(fields)
}

#[test]
fn finds_parent_workspace_in_worktree_list_response() {
    let value = object(vec![member(
        "result",
        object(vec![member(
            "source",
            object(vec![member("source_workspace_id", text("w1"))]),
        )]),
    )]);
    assert_eq!(source_workspace_id(&value).as_deref(), Some("w1"));
    assert_eq!(parent_workspace(&value), Ok("w1".to_string()));
}

/// A JSON document as the library's JSON values.
fn convert(value: &serde_json::Value) -> Json {
    match value {
        serde_json::Value::Null => Json::Null,
        serde_json::Value::Bool(b) => Json::Bool(*b),
        serde_json::Value::Number(n) => Json::Number {
            unsigned: n.as_u64(),
        },
        serde_json::Value::String(s) => Json::Str(s.clone()),
        serde_json::Value::Array(items) => Json::Array(items.iter().map(convert).collect()),
        serde_json::Value::Object(members) => Json::Object(
            members
                .iter()
                .map(|(key, value)| (key.clone(), convert(value)))
                .collect(),
        ),
    }
}

/// The text as Herdr's JSON answers are read: parsed with serde_json and
/// turned into the library's JSON values (`None` when it is not JSON).
fn parsed(text: &str) -> Option<Json> {
    serde_json::from_str::<serde_json::Value>(text)
        .ok()
        .map(|value| convert(&value))
}

#[test]
fn extracts_message_from_cli_error_json() {
    let error = r#"{"error":{"code":"linked_worktree_source","message":"Start from the repo parent workspace."}}"#;
    assert_eq!(
        json_error_message(parsed(error).as_ref()).as_deref(),
        Some("Start from the repo parent workspace.")
    );
    assert_eq!(
        json_error_message(Some(&cli_error("Start from the repo parent workspace."))).as_deref(),
        Some("Start from the repo parent workspace.")
    );
}

#[test]
fn leaves_plain_text_errors_unchanged() {
    assert_eq!(json_error_message(parsed("Git failed").as_ref()), None);
    assert_eq!(
        output_message("Git failed", parsed("Git failed").as_ref(), "", None, "exit status: 1"),
        "Git failed"
    );
}

#[test]
fn missing_parent_workspace_is_an_error() {
    let value = object(vec![member("result", object(vec![]))]);
    assert_eq!(source_workspace_id(&value), None);
    assert_eq!(
        parent_workspace(&value),
        Err("Could not find an open parent workspace for this repository.".to_string())
    );
}

#[test]
fn output_message_prefers_stderr_then_stdout_then_status() {
    let error = cli_error("Start from the repo parent workspace.");
    assert_eq!(
        output_message("{...}", Some(&error), "ignored", None, "exit status: 1"),
        "Start from the repo parent workspace."
    );
    assert_eq!(
        output_message("", None, "{...}", Some(&error), "exit status: 1"),
        "Start from the repo parent workspace."
    );
    assert_eq!(
        output_message("", None, "plain output", None, "exit status: 1"),
        "plain output"
    );
    assert_eq!(
        output_message("", None, "", None, "exit status: 2"),
        "Command failed with exit status: 2"
    );
    let not_an_error = object(vec![member("result", Json::Null)]);
    assert_eq!(
        output_message("{\"result\":null}", Some(&not_an_error), "", None, "exit status: 1"),
        "{\"result\":null}"
    );
}

#[test]
fn workspace_comes_from_environment_or_pane() {
    assert_eq!(
        workspace_origin(Some("w9".into()), Some("p1".into()), None),
        Ok(Origin::Workspace("w9".into()))
    );
    assert_eq!(
        workspace_origin(None, Some("p1".into()), Some("p2".into())),
        Ok(Origin::Pane("p1".into()))
    );
    assert_eq!(
        workspace_origin(None, None, Some("p2".into())),
        Ok(Origin::Pane("p2".into()))
    );
    assert_eq!(
        workspace_origin(None, None, None),
        Err("Herdr did not provide a workspace context".to_string())
    );
    let answer = object(vec![member(
        "result",
        object(vec![member("pane", object(vec![member("workspace_id", text("w3"))]))]),
    )]);
    assert_eq!(pane_workspace(&answer), Ok("w3".to_string()));
    assert_eq!(
        pane_workspace(&Json::Null),
        Err("Could not determine the current Herdr workspace".to_string())
    );
}

#[test]
fn repository_comes_from_pane_before_workspace() {
    assert_eq!(
        repository_origin(Some("p1".into()), Some("p2".into()), Some("w".into())),
        Ok(Origin::Pane("p1".into()))
    );
    assert_eq!(
        repository_origin(None, Some("p2".into()), Some("w".into())),
        Ok(Origin::Pane("p2".into()))
    );
    assert_eq!(
        repository_origin(None, None, Some("w".into())),
        Ok(Origin::Workspace("w".into()))
    );
    assert_eq!(
        repository_origin(None, None, None),
        Err("Could not determine the current Herdr workspace".to_string())
    );
}

#[test]
fn pane_directory_prefers_foreground_process() {
    let answer = object(vec![member(
        "result",
        object(vec![member(
            "pane",
            pane(vec![
                member("cwd", text("/home")),
                member("foreground_cwd", text("/home/repo")),
            ]),
        )]),
    )]);
    assert_eq!(pane_cwd(&answer).as_deref(), Some("/home/repo"));
    let plain = object(vec![member(
        "result",
        object(vec![member("pane", pane(vec![member("cwd", text("/home"))]))]),
    )]);
    assert_eq!(pane_cwd(&plain).as_deref(), Some("/home"));
    let null_foreground = object(vec![member(
        "result",
        object(vec![member(
            "pane",
            pane(vec![
                member("foreground_cwd", Json::Null),
                member("cwd", text("/home")),
            ]),
        )]),
    )]);
    assert_eq!(pane_cwd(&null_foreground), None);
}

#[test]
fn focused_pane_is_chosen_from_list() {
    let panes = |list: Vec<Json>| {
        object(vec![member("result", object(vec![member("panes", Json::Array(list))]))])
    };
    let listing = panes(vec![
        pane(vec![member("focused", Json::Bool(false)), member("cwd", text("/first"))]),
        pane(vec![member("focused", Json::Bool(true)), member("cwd", text("/second"))]),
    ]);
    assert_eq!(focused_pane_cwd(&listing).as_deref(), Some("/second"));
    let unfocused = panes(vec![
        pane(vec![member("cwd", text("/first"))]),
        pane(vec![member("cwd", text("/second"))]),
    ]);
    assert_eq!(focused_pane_cwd(&unfocused).as_deref(), Some("/first"));
    assert_eq!(focused_pane_cwd(&panes(vec![])), None);
    assert_eq!(focused_pane_cwd(&Json::Null), None);
}

#[test]
fn repository_root_names_directory_without_repository() {
    assert_eq!(
        repository_root(Some("/tmp/x".into()), Ok("/tmp/x".into())),
        Ok("/tmp/x".to_string())
    );
    assert_eq!(
        repository_root(Some("/tmp/y".into()), Err("fatal".into())),
        Err("No Git repository found for /tmp/y.".to_string())
    );
    assert_eq!(
        repository_root(None, Ok("/tmp/x".into())),
        Err("Could not determine the current workspace directory".to_string())
    );
}

#[test]
fn create_command_carries_branch_base_and_focus() {
    let request = CreateRequest {
        branch: "feature/auth".into(),
        base: Some("origin/feature/auth".into()),
        upstream: Some("origin/feature/auth".into()),
    };
    assert_eq!(
        worktree_create_args("w1", &request),
        vec![
            "worktree",
            "create",
            "--workspace",
            "w1",
            "--branch",
            "feature/auth",
            "--base",
            "origin/feature/auth",
            "--focus"
        ]
    );
    let plain = CreateRequest {
        branch: "feature/auth".into(),
        base: None,
        upstream: None,
    };
    assert_eq!(
        worktree_create_args("w1", &plain),
        vec!["worktree", "create", "--workspace", "w1", "--branch", "feature/auth", "--focus"]
    );
}

#[test]
fn notifications_name_the_branch() {
    assert_eq!(
        created_notification_args("feature/auth"),
        vec![
            "notification",
            "show",
            "Worktree created",
            "--body",
            "feature/auth",
            "--sound",
            "done"
        ]
    );
    assert_eq!(
        tracking_warning_args("feature/auth", "no such remote"),
        vec![
            "notification",
            "show",
            "Worktree created, but upstream configuration failed",
            "--body",
            "feature/auth: no such remote"
        ]
    );
}

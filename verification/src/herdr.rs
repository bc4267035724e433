//! What the picker reads from Herdr's answers and what it asks Herdr to do:
//! the workspace and repository to work in, error messages of failed
//! commands, and the arguments of the creation and notification commands.
use vstd::prelude::*;

use crate::domain::CreateRequest;
use crate::json::{found, path_spec, path_str, str_spec, Json};

verus! {

/// The `message` of a Herdr or GitHub CLI error document
/// (`{"error": {"message": ...}}`).
pub open spec fn error_message_spec(parsed: Option<Json>) -> Option<Seq<char>> {
    match parsed {
        Some(j) => str_spec(path_spec(j, seq!["error"@, "message"@])),
        None => None,
    }
}

/// The error message carried by a command's output, when the output parsed
/// as JSON (`parsed`) and holds one at `/error/message`.
pub fn json_error_message(parsed: Option<&Json>) -> (r: Option<String>)
    ensures
        match r {
            Some(m) => error_message_spec(found(parsed)) == Some(m@),
            None => error_message_spec(found(parsed)) is None,
        },
{
    match parsed {
        Some(j) => {
            let path = ["error", "message"];
            proof {
                reveal_strlit("error");
                reveal_strlit("message");
                assert(path@.map_values(|s: &str| s@) =~= seq!["error"@, "message"@]);
            }
            path_str(j, &path)
        },
        None => None,
    }
}

/// The message describing a failed command: its trimmed standard error, or
/// when that is empty its trimmed standard output, each replaced by the
/// JSON error message it carries, if any; with both empty, the exit status.
pub open spec fn output_message_spec(
    stderr: Seq<char>,
    stderr_json: Option<Json>,
    stdout: Seq<char>,
    stdout_json: Option<Json>,
    status: Seq<char>,
) -> Seq<char> {
    if stderr.len() > 0 {
        match error_message_spec(stderr_json) {
            Some(m) => m,
            None => stderr,
        }
    } else if stdout.len() == 0 {
        "Command failed with "@ + status
    } else {
        match error_message_spec(stdout_json) {
            Some(m) => m,
            None => stdout,
        }
    }
}

/// The message describing a failed command, from its trimmed standard error
/// and output, what each parsed to as JSON (when it did), and its exit
/// status as text.
pub fn output_message(
    stderr: &str,
    stderr_json: Option<&Json>,
    stdout: &str,
    stdout_json: Option<&Json>,
    status: &str,
) -> (r: String)
    ensures
        r@ == output_message_spec(
            stderr@,
            found(stderr_json),
            stdout@,
            found(stdout_json),
            status@,
        ),
{
    if !stderr.is_empty() {
        match json_error_message(stderr_json) {
            Some(m) => m,
            None => stderr.to_owned(),
        }
    } else if stdout.is_empty() {
        crate::text::join2("Command failed with ", status)
    } else {
        match json_error_message(stdout_json) {
            Some(m) => m,
            None => stdout.to_owned(),
        }
    }
}

/// The parent workspace named in a `worktree list` answer, at
/// `/result/source/source_workspace_id`.
pub fn source_workspace_id(value: &Json) -> (r: Option<String>)
    ensures
        match r {
            Some(id) => str_spec(
                path_spec(*value, seq!["result"@, "source"@, "source_workspace_id"@]),
            ) == Some(id@),
            None => str_spec(
                path_spec(*value, seq!["result"@, "source"@, "source_workspace_id"@]),
            ) is None,
        },
{
    let path = ["result", "source", "source_workspace_id"];
    proof {
        reveal_strlit("result");
        reveal_strlit("source");
        reveal_strlit("source_workspace_id");
        assert(path@.map_values(|s: &str| s@) =~= seq![
            "result"@,
            "source"@,
            "source_workspace_id"@,
        ]);
    }
    path_str(value, &path)
}

/// The parent workspace for this repository, from a `worktree list` answer.
pub fn parent_workspace(value: &Json) -> (r: Result<String, String>)
    ensures
        match r {
            Ok(id) => str_spec(
                path_spec(*value, seq!["result"@, "source"@, "source_workspace_id"@]),
            ) == Some(id@),
            Err(e) => str_spec(
                path_spec(*value, seq!["result"@, "source"@, "source_workspace_id"@]),
            ) is None && e@ == "Could not find an open parent workspace for this repository."@,
        },
{
    match source_workspace_id(value) {
        Some(id) => Ok(id),
        None => Err(String::from_str("Could not find an open parent workspace for this repository.")),
    }
}

/// The workspace of a pane, from a `pane get` answer, at
/// `/result/pane/workspace_id`.
pub fn pane_workspace(value: &Json) -> (r: Result<String, String>)
    ensures
        match r {
            Ok(id) => str_spec(path_spec(*value, seq!["result"@, "pane"@, "workspace_id"@]))
                == Some(id@),
            Err(e) => str_spec(path_spec(*value, seq!["result"@, "pane"@, "workspace_id"@]))
                is None && e@ == "Could not determine the current Herdr workspace"@,
        },
{
    let path = ["result", "pane", "workspace_id"];
    proof {
        reveal_strlit("result");
        reveal_strlit("pane");
        reveal_strlit("workspace_id");
        assert(path@.map_values(|s: &str| s@) =~= seq!["result"@, "pane"@, "workspace_id"@]);
    }
    match path_str(value, &path) {
        Some(id) => Ok(id),
        None => Err(String::from_str("Could not determine the current Herdr workspace")),
    }
}

/// Where the picker learns which workspace or pane it was opened from.
#[derive(Clone, Debug, PartialEq, Eq)]
pub enum Origin {
    /// A workspace named by Herdr.
    Workspace(String),
    /// A pane to ask Herdr about.
    Pane(String),
}

/// How the workspace is found: the workspace Herdr names
/// (`HERDR_WORKSPACE_ID`) is used as it is; otherwise the pane the picker was
/// opened from (`HERDR_SOURCE_PANE_ID`, else `HERDR_PANE_ID`) is looked up.
pub fn workspace_origin(
    workspace_env: Option<String>,
    source_pane_env: Option<String>,
    pane_env: Option<String>,
) -> (r: Result<Origin, String>)
    ensures
        workspace_env matches Some(w) ==> r == Ok::<Origin, String>(Origin::Workspace(w)),
        workspace_env is None ==> (source_pane_env matches Some(p) ==> r == Ok::<Origin, String>(
            Origin::Pane(p),
        )),
        workspace_env is None && source_pane_env is None ==> (pane_env matches Some(p) ==> r
            == Ok::<Origin, String>(Origin::Pane(p))),
        workspace_env is None && source_pane_env is None && pane_env is None ==> (r matches Err(e)
            && e@ == "Herdr did not provide a workspace context"@),
{
    match workspace_env {
        Some(w) => Ok(Origin::Workspace(w)),
        None => match source_pane_env {
            Some(p) => Ok(Origin::Pane(p)),
            None => match pane_env {
                Some(p) => Ok(Origin::Pane(p)),
                None => Err(String::from_str("Herdr did not provide a workspace context")),
            },
        },
    }
}

/// How the repository directory is found: from the pane the picker was
/// opened from (`HERDR_SOURCE_PANE_ID`, else `HERDR_PANE_ID`), and otherwise
/// from the focused pane of the workspace Herdr names.
pub fn repository_origin(
    source_pane_env: Option<String>,
    pane_env: Option<String>,
    workspace_env: Option<String>,
) -> (r: Result<Origin, String>)
    ensures
        source_pane_env matches Some(p) ==> r == Ok::<Origin, String>(Origin::Pane(p)),
        source_pane_env is None ==> (pane_env matches Some(p) ==> r == Ok::<Origin, String>(
            Origin::Pane(p),
        )),
        source_pane_env is None && pane_env is None ==> (workspace_env matches Some(w) ==> r
            == Ok::<Origin, String>(Origin::Workspace(w))),
        source_pane_env is None && pane_env is None && workspace_env is None ==> (r matches Err(
            e,
        ) && e@ == "Could not determine the current Herdr workspace"@),
{
    match source_pane_env {
        Some(p) => Ok(Origin::Pane(p)),
        None => match pane_env {
            Some(p) => Ok(Origin::Pane(p)),
            None => match workspace_env {
                Some(w) => Ok(Origin::Workspace(w)),
                None => Err(String::from_str("Could not determine the current Herdr workspace")),
            },
        },
    }
}

/// A pane's working directory: its foreground process's directory when the
/// pane reports one, and otherwise its own.
pub open spec fn pane_dir_spec(pane: Json) -> Option<Seq<char>> {
    match crate::json::get_spec(pane, "foreground_cwd"@) {
        Some(v) => str_spec(Some(v)),
        None => str_spec(crate::json::get_spec(pane, "cwd"@)),
    }
}

/// A pane's working directory.
pub fn pane_dir(pane: &Json) -> (r: Option<String>)
    ensures
        opt_text(r) == pane_dir_spec(*pane),
{
    proof {
        reveal_strlit("foreground_cwd");
        reveal_strlit("cwd");
    }
    let value = match pane.get("foreground_cwd") {
        Some(v) => Some(v),
        None => pane.get("cwd"),
    };
    match value {
        Some(v) => match v.as_str() {
            Some(s) => Some(s.to_owned()),
            None => None,
        },
        None => None,
    }
}

/// The working directory of the pane in a `pane get` answer.
pub fn pane_cwd(value: &Json) -> (r: Option<String>)
    ensures
        opt_text(r) == match path_spec(*value, seq!["result"@, "pane"@]) {
            Some(pane) => pane_dir_spec(pane),
            None => None,
        },
{
    let path = ["result", "pane"];
    proof {
        reveal_strlit("result");
        reveal_strlit("pane");
        assert(path@.map_values(|s: &str| s@) =~= seq!["result"@, "pane"@]);
    }
    match value.path(&path) {
        Some(pane) => pane_dir(pane),
        None => None,
    }
}

/// The first pane at or after `k` that reports itself focused.
pub open spec fn focused_from(panes: Seq<Json>, k: int) -> Option<Json>
    decreases panes.len() - k,
{
    if k < 0 || k >= panes.len() {
        None
    } else if crate::json::bool_spec(crate::json::get_spec(panes[k], "focused"@)) == Some(true) {
        Some(panes[k])
    } else {
        focused_from(panes, k + 1)
    }
}

/// The pane to take the directory from in a `pane list` answer: the focused
/// pane, else the first.
pub open spec fn chosen_pane(value: Json) -> Option<Json> {
    match path_spec(value, seq!["result"@, "panes"@]) {
        Some(Json::Array(panes)) => match focused_from(panes@, 0) {
            Some(p) => Some(p),
            None => if panes@.len() > 0 {
                Some(panes@[0])
            } else {
                None
            },
        },
        _ => None,
    }
}

/// The working directory of the focused pane (or else the first pane) in a
/// `pane list` answer.
pub fn focused_pane_cwd(value: &Json) -> (r: Option<String>)
    ensures
        opt_text(r) == match chosen_pane(*value) {
            Some(pane) => pane_dir_spec(pane),
            None => None,
        },
{
    let path = ["result", "panes"];
    proof {
        reveal_strlit("result");
        reveal_strlit("panes");
        reveal_strlit("focused");
        assert(path@.map_values(|s: &str| s@) =~= seq!["result"@, "panes"@]);
    }
    let panes = match value.path(&path) {
        Some(list) => match list.as_array() {
            Some(panes) => panes,
            None => return None,
        },
        None => return None,
    };
    let mut k: usize = 0;
    while k < panes.len()
        invariant
            k <= panes@.len(),
            path_spec(*value, seq!["result"@, "panes"@]) == Some(Json::Array(*panes)),
            focused_from(panes@, 0) == focused_from(panes@, k as int),
        decreases panes@.len() - k,
    {
        let focused = match panes[k].get("focused") {
            Some(flag) => flag.as_bool(),
            None => None,
        };
        if focused == Some(true) {
            return pane_dir(&panes[k]);
        }
        k += 1;
    }
    if panes.len() > 0 {
        pane_dir(&panes[0])
    } else {
        None
    }
}

/// An optional string as text.
pub open spec fn opt_text(o: Option<String>) -> Option<Seq<char>> {
    match o {
        Some(s) => Some(s@),
        None => None,
    }
}

/// The repository to work in: the top level Git reports for the pane's
/// directory, or an error naming the directory when it is not inside a
/// repository.
pub fn repository_root(cwd: Option<String>, toplevel: Result<String, String>) -> (r: Result<
    String,
    String,
>)
    ensures
        cwd is None ==> (r matches Err(e) && e@ == "Could not determine the current workspace directory"@),
        cwd matches Some(dir) ==> match toplevel {
            Ok(top) => r == Ok::<String, String>(top),
            Err(_) => r matches Err(e) && e@ == "No Git repository found for "@ + dir@ + "."@,
        },
{
    match cwd {
        None => Err(String::from_str("Could not determine the current workspace directory")),
        Some(dir) => match toplevel {
            Ok(top) => Ok(top),
            Err(_) => Err(crate::text::join3("No Git repository found for ", dir.as_str(), ".")),
        },
    }
}

/// The texts of a list of arguments.
pub open spec fn arg_views(args: Seq<String>) -> Seq<Seq<char>> {
    args.map_values(|a: String| a@)
}

/// The arguments of the Herdr command that creates and focuses the worktree:
/// `worktree create --workspace <id> --branch <branch> [--base <ref>] --focus`.
pub open spec fn create_args_spec(workspace_id: Seq<char>, branch: Seq<char>, base: Option<Seq<char>>) -> Seq<Seq<char>> {
    seq!["worktree"@, "create"@, "--workspace"@, workspace_id, "--branch"@, branch] + match base {
        Some(b) => seq!["--base"@, b],
        None => Seq::empty(),
    } + seq!["--focus"@]
}

/// The arguments of the Herdr command that creates `request` in the
/// workspace.
pub fn worktree_create_args(workspace_id: &str, request: &CreateRequest) -> (r: Vec<String>)
    ensures
        arg_views(r@) == create_args_spec(workspace_id@, request.branch@, opt_text(request.base)),
{
    let mut args: Vec<String> = Vec::new();
    args.push(String::from_str("worktree"));
    args.push(String::from_str("create"));
    args.push(String::from_str("--workspace"));
    args.push(workspace_id.to_owned());
    args.push(String::from_str("--branch"));
    args.push(request.branch.clone());
    match &request.base {
        Some(base) => {
            args.push(String::from_str("--base"));
            args.push(base.clone());
        },
        None => {},
    }
    args.push(String::from_str("--focus"));
    proof {
        assert(arg_views(args@) =~= create_args_spec(
            workspace_id@,
            request.branch@,
            opt_text(request.base),
        ));
    }
    args
}

/// The arguments of the best-effort success notification:
/// `notification show "Worktree created" --body <branch> --sound done`.
pub fn created_notification_args(branch: &str) -> (r: Vec<String>)
    ensures
        arg_views(r@) == seq![
            "notification"@,
            "show"@,
            "Worktree created"@,
            "--body"@,
            branch@,
            "--sound"@,
            "done"@,
        ],
{
    let mut args: Vec<String> = Vec::new();
    args.push(String::from_str("notification"));
    args.push(String::from_str("show"));
    args.push(String::from_str("Worktree created"));
    args.push(String::from_str("--body"));
    args.push(branch.to_owned());
    args.push(String::from_str("--sound"));
    args.push(String::from_str("done"));
    proof {
        assert(arg_views(args@) =~= seq![
            "notification"@,
            "show"@,
            "Worktree created"@,
            "--body"@,
            branch@,
            "--sound"@,
            "done"@,
        ]);
    }
    args
}

/// The arguments of the best-effort warning that the worktree was created
/// but its upstream could not be configured: the title says so, and the body
/// names the branch and gives Git's error.
pub fn tracking_warning_args(branch: &str, error: &str) -> (r: Vec<String>)
    ensures
        arg_views(r@) == seq![
            "notification"@,
            "show"@,
            "Worktree created, but upstream configuration failed"@,
            "--body"@,
            branch@ + ": "@ + error@,
        ],
{
    let mut args: Vec<String> = Vec::new();
    args.push(String::from_str("notification"));
    args.push(String::from_str("show"));
    args.push(String::from_str("Worktree created, but upstream configuration failed"));
    args.push(String::from_str("--body"));
    args.push(crate::text::join3(branch, ": ", error));
    proof {
        assert(arg_views(args@) =~= seq![
            "notification"@,
            "show"@,
            "Worktree created, but upstream configuration failed"@,
            "--body"@,
            branch@ + ": "@ + error@,
        ]);
    }
    args
}

} // verus!

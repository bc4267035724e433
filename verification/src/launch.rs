//! How the plugin is started: the entry point Herdr names, the route the
//! popup opens on, and the Herdr command that opens the popup.
use vstd::prelude::*;

use crate::herdr::arg_views;
use crate::text::{join2, same_str};

verus! {

/// The entry points of the plugin.
#[derive(Clone, Copy, Debug, PartialEq, Eq, Structural)]
pub enum Command {
    /// `open`: open the popup on the create route.
    Open,
    /// `open-pr`: open the popup on the pull-request route.
    OpenPullRequest,
    /// `picker`: run the picker inside the popup.
    Picker,
}

/// The routes the popup can open on.
#[derive(Clone, Copy, Debug, PartialEq, Eq, Structural)]
pub enum LaunchRoute {
    Create,
    PullRequest,
}

/// The entry point named by the first argument, or the usage message.
pub fn run(command: &str) -> (r: Result<Command, String>)
    ensures
        command@ == "open"@ ==> r == Ok::<Command, String>(Command::Open),
        command@ == "open-pr"@ ==> r == Ok::<Command, String>(Command::OpenPullRequest),
        command@ == "picker"@ ==> r == Ok::<Command, String>(Command::Picker),
        command@ != "open"@ && command@ != "open-pr"@ && command@ != "picker"@ ==> (r matches Err(
            e,
        ) && e@ == "Usage: herdr-worktree-picker {open|open-pr|picker}"@),
{
    proof {
        reveal_strlit("open");
        reveal_strlit("open-pr");
        reveal_strlit("picker");
        assert("open"@.len() != "open-pr"@.len());
        assert("open"@.len() != "picker"@.len());
    }
    if same_str(command, "open") {
        Ok(Command::Open)
    } else if same_str(command, "open-pr") {
        Ok(Command::OpenPullRequest)
    } else if same_str(command, "picker") {
        Ok(Command::Picker)
    } else {
        Err(String::from_str("Usage: herdr-worktree-picker {open|open-pr|picker}"))
    }
}

/// The route the popup opens on, from `HERDR_WORKTREE_PICKER_ROUTE`: unset,
/// empty or `create` is the create route, `pull-request` the pull-request
/// route; anything else is an error naming the value.
pub fn picker_route(value: Option<String>) -> (r: Result<LaunchRoute, String>)
    ensures
        match value {
            None => r == Ok::<LaunchRoute, String>(LaunchRoute::Create),
            Some(v) => if v@.len() == 0 || v@ == "create"@ {
                r == Ok::<LaunchRoute, String>(LaunchRoute::Create)
            } else if v@ == "pull-request"@ {
                r == Ok::<LaunchRoute, String>(LaunchRoute::PullRequest)
            } else {
                r matches Err(e) && e@ == "Invalid picker route: "@ + v@
            },
        },
{
    proof {
        reveal_strlit("create");
        reveal_strlit("pull-request");
        assert("create"@.len() != "pull-request"@.len());
    }
    match value {
        None => Ok(LaunchRoute::Create),
        Some(v) => {
            if v.as_str().is_empty() || same_str(v.as_str(), "create") {
                Ok(LaunchRoute::Create)
            } else if same_str(v.as_str(), "pull-request") {
                Ok(LaunchRoute::PullRequest)
            } else {
                Err(join2("Invalid picker route: ", v.as_str()))
            }
        },
    }
}

/// The arguments of the Herdr command that opens the popup:
/// `plugin pane open --plugin <id> --entrypoint picker`, passing on the pane
/// it was opened from and, for pull requests, the route.
pub open spec fn open_args_spec(plugin: Seq<char>, pane: Option<Seq<char>>, route: LaunchRoute) -> Seq<
    Seq<char>,
> {
    seq!["plugin"@, "pane"@, "open"@, "--plugin"@, plugin, "--entrypoint"@, "picker"@] + match pane {
        Some(p) => seq!["--env"@, "HERDR_SOURCE_PANE_ID="@ + p],
        None => Seq::empty(),
    } + match route {
        LaunchRoute::PullRequest => seq!["--env"@, "HERDR_WORKTREE_PICKER_ROUTE=pull-request"@],
        LaunchRoute::Create => Seq::empty(),
    }
}

/// The arguments of the Herdr command that opens the popup.
pub fn open_picker_args(plugin: &str, pane: Option<String>, route: LaunchRoute) -> (r: Vec<String>)
    ensures
        arg_views(r@) == open_args_spec(plugin@, crate::text::opt_view(pane), route),
{
    let mut args: Vec<String> = Vec::new();
    args.push(String::from_str("plugin"));
    args.push(String::from_str("pane"));
    args.push(String::from_str("open"));
    args.push(String::from_str("--plugin"));
    args.push(plugin.to_owned());
    args.push(String::from_str("--entrypoint"));
    args.push(String::from_str("picker"));
    match pane {
        Some(p) => {
            args.push(String::from_str("--env"));
            args.push(join2("HERDR_SOURCE_PANE_ID=", p.as_str()));
        },
        None => {},
    }
    match route {
        LaunchRoute::PullRequest => {
            args.push(String::from_str("--env"));
            args.push(String::from_str("HERDR_WORKTREE_PICKER_ROUTE=pull-request"));
        },
        LaunchRoute::Create => {},
    }
    assert(arg_views(args@) =~= open_args_spec(plugin@, crate::text::opt_view(pane), route));
    args
}

} // verus!

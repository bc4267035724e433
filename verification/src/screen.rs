//! What each screen of the picker says: titles, body lines, footers and the
//! empty-list explanations, as text with a tone for the terminal to render.
use vstd::prelude::*;

use crate::app::{head_label_spec, App, AppView};
use crate::domain::{BranchKind, Intent, Mode, ModeView, Picker};
use crate::github::{
    display_date, display_date_spec, matches_query, matches_query_spec, GitHubRepository, PullRequest, PullRequestView,
};
use crate::text::{decimal, join2, join3, opt_view};

verus! {

/// How a line is shown.
#[derive(Clone, Copy, Debug, PartialEq, Eq, Structural)]
pub enum Tone {
    /// Ordinary text.
    Plain,
    /// Secondary text.
    Dim,
    /// The highlighted choice.
    Selected,
    /// Work in progress.
    Warning,
    /// An error.
    Error,
}

/// A line of text and its tone.
pub struct Line {
    pub text: String,
    pub tone: Tone,
}

/// A line as plain values.
pub open spec fn line_view(l: Line) -> (Seq<char>, Tone) {
    (l.text@, l.tone)
}

/// Lines as plain values.
pub open spec fn lines_view(v: Seq<Line>) -> Seq<(Seq<char>, Tone)> {
    v.map_values(|l: Line| line_view(l))
}

fn line(text: &str, tone: Tone) -> (r: Line)
    ensures
        r.text@ == text@,
        r.tone == tone,
{
    Line { text: text.to_owned(), tone }
}

/// The header's height in rows: every screen has one content row below its
/// title, except a name field, which shows the base and the name.
pub fn header_height(mode: &Mode) -> (r: u16)
    ensures
        r == (if mode@ is Naming {
            4u16
        } else {
            3u16
        }),
{
    match mode {
        Mode::Naming { .. } => 4,
        _ => 3,
    }
}

/// The title of each screen.
pub open spec fn title_spec(mode: ModeView) -> Seq<char> {
    match mode {
        ModeView::Intent => " Create worktree "@,
        ModeView::ExistingPicker => " Choose branch "@,
        ModeView::BasePicker => " Choose base "@,
        ModeView::PullRequestPicker => " Open GitHub PR "@,
        ModeView::PreparingPullRequest { .. } => " Preparing GitHub PR "@,
        ModeView::Naming { .. } => " Branch name "@,
        ModeView::RemoteConflict => " Resolve local name conflict "@,
        ModeView::Creating => " Creating worktree "@,
        ModeView::FatalError => " Worktree creation error "@,
    }
}

/// The title of the screen shown.
pub fn header_title(mode: &Mode) -> (r: String)
    ensures
        r@ == title_spec(mode@),
{
    let title = match mode {
        Mode::Intent => " Create worktree ",
        Mode::ExistingPicker => " Choose branch ",
        Mode::BasePicker => " Choose base ",
        Mode::PullRequestPicker => " Open GitHub PR ",
        Mode::PreparingPullRequest { .. } => " Preparing GitHub PR ",
        Mode::Naming { .. } => " Branch name ",
        Mode::RemoteConflict => " Resolve local name conflict ",
        Mode::Creating => " Creating worktree ",
        Mode::FatalError => " Worktree creation error ",
    };
    title.to_owned()
}

/// What an empty picker says: with no search, that there is nothing to
/// list; with a search, that nothing matches it. The first text is the
/// message, the second a hint.
pub open spec fn empty_state_spec(picker: Picker, query: Seq<char>) -> (Seq<char>, Seq<char>) {
    if query.len() == 0 {
        match picker {
            Picker::Existing => (
                "No branches to open"@,
                "Create an initial commit or refresh remotes"@,
            ),
            Picker::Base => ("No bases to choose"@, "Create a branch or refresh remotes"@),
        }
    } else {
        let what = match picker {
            Picker::Existing => "branches"@,
            Picker::Base => "bases"@,
        };
        ("No "@ + what + " match “"@ + query + "”"@, "Change the search or refresh remotes"@)
    }
}

/// What an empty picker says.
pub fn empty_state_message(picker: Picker, query: &str) -> (r: (String, String))
    ensures
        (r.0@, r.1@) == empty_state_spec(picker, query@),
{
    if query.is_empty() {
        match picker {
            Picker::Existing => (
                String::from_str("No branches to open"),
                String::from_str("Create an initial commit or refresh remotes"),
            ),
            Picker::Base => (
                String::from_str("No bases to choose"),
                String::from_str("Create a branch or refresh remotes"),
            ),
        }
    } else {
        let what = match picker {
            Picker::Existing => "branches",
            Picker::Base => "bases",
        };
        let mut message = join3("No ", what, " match “");
        message.append(query);
        message.append("”");
        (message, String::from_str("Change the search or refresh remotes"))
    }
}

/// The footer of a picker: the error when there is one; the status while a
/// fetch runs or a status is shown; otherwise the keys that apply.
pub open spec fn picker_footer_spec(v: AppView, picker: Picker) -> (Seq<char>, Tone) {
    match v.error {
        Some(e) => (e, Tone::Error),
        None => if v.fetching || v.status is Some {
            (
                match v.status {
                    Some(s) => s,
                    None => "Fetching all remotes…"@,
                },
                Tone::Warning,
            )
        } else if v.rows(picker).len() == 0 {
            if v.memory(picker).query.len() == 0 {
                ("Ctrl-R refresh • Esc back"@, Tone::Dim)
            } else {
                ("Backspace edit • Ctrl-R refresh • Esc back"@, Tone::Dim)
            }
        } else {
            (
                "Enter "@ + match picker {
                    Picker::Existing => "open"@,
                    Picker::Base => "select base"@,
                } + " • Ctrl-R refresh • Esc back"@,
                Tone::Dim,
            )
        },
    }
}

/// The footer of each screen: fixed help on the intent, conflict and error
/// screens; a warning that Esc cannot cancel while work runs; a picker's
/// footer; on a name field its error, or else its keys. The pull-request
/// picker offers refreshing and going back.
pub open spec fn footer_spec(v: AppView) -> (Seq<char>, Tone) {
    match v.mode {
        ModeView::FatalError => ("Esc or Enter close"@, Tone::Dim),
        ModeView::PreparingPullRequest { .. } => (
            "Preparing GitHub PR… please wait — Esc cannot cancel"@,
            Tone::Warning,
        ),
        ModeView::Creating => ("Creating worktree… please wait — Esc cannot cancel"@, Tone::Warning),
        ModeView::Intent => ("Up/Down choose • Enter continue • Esc close"@, Tone::Dim),
        ModeView::ExistingPicker => picker_footer_spec(v, Picker::Existing),
        ModeView::BasePicker => picker_footer_spec(v, Picker::Base),
        ModeView::PullRequestPicker => ("Ctrl-R refresh • Esc back"@, Tone::Dim),
        ModeView::Naming { .. } => match v.error {
            Some(e) => (e, Tone::Error),
            None => ("Enter create • Ctrl-U clear • Esc back"@, Tone::Dim),
        },
        ModeView::RemoteConflict => ("Enter continue • Esc back"@, Tone::Dim),
    }
}

fn picker_footer(app: &App, picker: Picker) -> (r: Line)
    ensures
        line_view(r) == picker_footer_spec(app@, picker),
{
    match &app.error {
        Some(e) => return Line { text: e.clone(), tone: Tone::Error },
        None => {},
    }
    if app.is_fetching() || app.status.is_some() {
        let text = match &app.status {
            Some(s) => s.clone(),
            None => String::from_str("Fetching all remotes…"),
        };
        return Line { text, tone: Tone::Warning };
    }
    let rows = app.picker_rows(picker);
    if rows.len() == 0 {
        if app.memory(picker).query.as_str().is_empty() {
            line("Ctrl-R refresh • Esc back", Tone::Dim)
        } else {
            line("Backspace edit • Ctrl-R refresh • Esc back", Tone::Dim)
        }
    } else {
        let action = match picker {
            Picker::Existing => "open",
            Picker::Base => "select base",
        };
        Line { text: join3("Enter ", action, " • Ctrl-R refresh • Esc back"), tone: Tone::Dim }
    }
}

/// The footer of the screen shown.
pub fn footer(app: &App) -> (r: Line)
    ensures
        line_view(r) == footer_spec(app@),
{
    match &app.mode {
        Mode::FatalError => line("Esc or Enter close", Tone::Dim),
        Mode::PreparingPullRequest { .. } => line(
            "Preparing GitHub PR… please wait — Esc cannot cancel",
            Tone::Warning,
        ),
        Mode::Creating => line("Creating worktree… please wait — Esc cannot cancel", Tone::Warning),
        Mode::Intent => line("Up/Down choose • Enter continue • Esc close", Tone::Dim),
        Mode::ExistingPicker => picker_footer(app, Picker::Existing),
        Mode::BasePicker => picker_footer(app, Picker::Base),
        Mode::PullRequestPicker => line("Ctrl-R refresh • Esc back", Tone::Dim),
        Mode::Naming { .. } => match &app.error {
            Some(e) => Line { text: e.clone(), tone: Tone::Error },
            None => line("Enter create • Ctrl-U clear • Esc back", Tone::Dim),
        },
        Mode::RemoteConflict => line("Enter continue • Esc back", Tone::Dim),
    }
}

/// The label of an outcome on the intent screen.
pub open spec fn intent_label(intent: Intent) -> Seq<char> {
    match intent {
        Intent::NewFromHead => "New branch from current HEAD"@,
        Intent::OpenExisting => "Open an existing branch"@,
        Intent::NewFromBase => "New branch from another base"@,
    }
}

/// The line of an outcome: marked and highlighted when chosen, dimmed when
/// not available.
pub open spec fn intent_line_spec(v: AppView, intent: Intent) -> (Seq<char>, Tone) {
    if intent == v.intent {
        ("› "@ + intent_label(intent), Tone::Selected)
    } else if v.intent_enabled(intent) {
        ("  "@ + intent_label(intent), Tone::Plain)
    } else {
        ("  "@ + intent_label(intent), Tone::Dim)
    }
}

/// The intent screen: the three outcomes in menu order, a blank line, and
/// what `HEAD` is.
pub open spec fn intent_lines_spec(v: AppView) -> Seq<(Seq<char>, Tone)> {
    seq![
        intent_line_spec(v, Intent::NewFromHead),
        intent_line_spec(v, Intent::OpenExisting),
        intent_line_spec(v, Intent::NewFromBase),
        (Seq::empty(), Tone::Plain),
        (head_label_spec(v.head), Tone::Dim),
    ]
}

fn intent_line(app: &App, intent: Intent, label: &str) -> (r: Line)
    requires
        label@ == intent_label(intent),
    ensures
        line_view(r) == intent_line_spec(app@, intent),
{
    if intent == app.intent {
        Line { text: join2("› ", label), tone: Tone::Selected }
    } else if app.intent_enabled(intent) {
        Line { text: join2("  ", label), tone: Tone::Plain }
    } else {
        Line { text: join2("  ", label), tone: Tone::Dim }
    }
}

/// The lines of the intent screen.
pub fn intent_lines(app: &App) -> (r: Vec<Line>)
    ensures
        lines_view(r@) == intent_lines_spec(app@),
{
    proof {
        reveal_strlit("New branch from current HEAD");
        reveal_strlit("Open an existing branch");
        reveal_strlit("New branch from another base");
    }
    let mut lines: Vec<Line> = Vec::new();
    lines.push(intent_line(app, Intent::NewFromHead, "New branch from current HEAD"));
    lines.push(intent_line(app, Intent::OpenExisting, "Open an existing branch"));
    lines.push(intent_line(app, Intent::NewFromBase, "New branch from another base"));
    lines.push(Line { text: String::new(), tone: Tone::Plain });
    lines.push(Line { text: app.head_label(), tone: Tone::Dim });
    assert(lines_view(lines@) =~= intent_lines_spec(app@));
    lines
}

/// The conflict screen: what conflicts, a blank line, and the two actions,
/// the selected one marked.
pub open spec fn conflict_lines_spec(v: AppView) -> Seq<(Seq<char>, Tone)> {
    match v.conflict {
        None => Seq::empty(),
        Some(c) => seq![
            (c.proposed_local + " exists locally but does not track "@ + c.remote + "."@, Tone::Plain),
            (Seq::empty(), Tone::Plain),
            if c.selected_action == 0 {
                ("› Choose a different local name"@, Tone::Selected)
            } else {
                ("  Choose a different local name"@, Tone::Plain)
            },
            if c.selected_action == 1 {
                ("› Back to branch selection"@, Tone::Selected)
            } else {
                ("  Back to branch selection"@, Tone::Plain)
            },
        ],
    }
}

/// The lines of the conflict screen.
pub fn conflict_lines(app: &App) -> (r: Vec<Line>)
    ensures
        lines_view(r@) == conflict_lines_spec(app@),
{
    let mut lines: Vec<Line> = Vec::new();
    match &app.conflict {
        None => {
            assert(lines_view(lines@) =~= conflict_lines_spec(app@));
        },
        Some(c) => {
            let mut first = join3(
                c.proposed_local.as_str(),
                " exists locally but does not track ",
                c.remote.as_str(),
            );
            first.append(".");
            lines.push(Line { text: first, tone: Tone::Plain });
            lines.push(Line { text: String::new(), tone: Tone::Plain });
            if c.selected_action == 0 {
                lines.push(line("› Choose a different local name", Tone::Selected));
            } else {
                lines.push(line("  Choose a different local name", Tone::Plain));
            }
            if c.selected_action == 1 {
                lines.push(line("› Back to branch selection", Tone::Selected));
            } else {
                lines.push(line("  Back to branch selection", Tone::Plain));
            }
            assert(lines_view(lines@) =~= conflict_lines_spec(app@));
        },
    }
    lines
}

/// The Creating screen: the branch, the base when there is one, and that
/// the popup closes when the work is done.
pub open spec fn creating_lines_spec(v: AppView) -> Seq<(Seq<char>, Tone)> {
    match v.create {
        None => Seq::empty(),
        Some(task) => seq![("Branch: "@ + task.request.branch, Tone::Plain)] + match task.request.base {
            Some(b) => seq![("Base: "@ + b, Tone::Plain)],
            None => Seq::empty(),
        } + seq![
            (Seq::empty(), Tone::Plain),
            ("Creating and focusing worktree…"@, Tone::Plain),
            ("Please wait; popup closes when complete"@, Tone::Plain),
        ],
    }
}

/// The lines of the Creating screen.
pub fn creating_lines(app: &App) -> (r: Vec<Line>)
    ensures
        lines_view(r@) == creating_lines_spec(app@),
{
    let mut lines: Vec<Line> = Vec::new();
    match app.creating_request() {
        None => {
            assert(lines_view(lines@) =~= creating_lines_spec(app@));
        },
        Some(request) => {
            lines.push(Line { text: join2("Branch: ", request.branch.as_str()), tone: Tone::Plain });
            let ghost first = lines_view(lines@);
            match &request.base {
                Some(base) => {
                    lines.push(Line { text: join2("Base: ", base.as_str()), tone: Tone::Plain });
                },
                None => {},
            }
            lines.push(Line { text: String::new(), tone: Tone::Plain });
            lines.push(line("Creating and focusing worktree…", Tone::Plain));
            lines.push(line("Please wait; popup closes when complete", Tone::Plain));
            assert(lines_view(lines@) =~= creating_lines_spec(app@));
        },
    }
    lines
}

/// The fatal-error screen's message.
pub fn fatal_message(app: &App) -> (r: String)
    ensures
        r@ == match app@.error {
            Some(e) => e,
            None => "Could not start the picker"@,
        },
{
    match &app.error {
        Some(e) => e.clone(),
        None => String::from_str("Could not start the picker"),
    }
}

/// The badge in front of a branch in a picker.
pub fn badge(kind: BranchKind) -> (r: String)
    ensures
        r@ == match kind {
            BranchKind::Local => " LOCAL  "@,
            BranchKind::Remote => " REMOTE "@,
        },
{
    match kind {
        BranchKind::Local => String::from_str(" LOCAL  "),
        BranchKind::Remote => String::from_str(" REMOTE "),
    }
}

/// The spaces between a branch's name and its annotation: none without an
/// annotation; otherwise enough to push the annotation to the right edge of
/// `available` columns, and at least one.
pub open spec fn padding_spec(available: int, used: int, annotation_len: int) -> int {
    if annotation_len == 0 {
        0
    } else if available - used >= 1 {
        available - used
    } else {
        1
    }
}

/// The spaces between a branch's name and its annotation, `used` being the
/// characters of badge, name and annotation together.
pub fn row_padding(available: usize, used: usize, annotation_len: usize) -> (r: usize)
    ensures
        r == padding_spec(available as int, used as int, annotation_len as int),
{
    if annotation_len == 0 {
        0
    } else if available > used && available - used >= 1 {
        available - used
    } else {
        1
    }
}

/// The screen shown while a pull request is checked: which pull request, and
/// that the popup closes after the worktree is created.
pub fn preparing_lines(number: u64, title: &str) -> (r: Vec<Line>)
    ensures
        lines_view(r@) == seq![
            ("PR #"@ + decimal(number as nat) + ": "@ + title@, Tone::Plain),
            (Seq::<char>::empty(), Tone::Plain),
            ("Fetching and verifying latest head…"@, Tone::Plain),
            ("Please wait; popup closes after worktree creation"@, Tone::Plain),
        ],
{
    let digits = crate::text::decimal_string(number);
    let mut first = join3("PR #", digits.as_str(), ": ");
    first.append(title);
    let mut lines: Vec<Line> = Vec::new();
    lines.push(Line { text: first, tone: Tone::Plain });
    lines.push(Line { text: String::new(), tone: Tone::Plain });
    lines.push(line("Fetching and verifying latest head…", Tone::Plain));
    lines.push(line("Please wait; popup closes after worktree creation", Tone::Plain));
    assert(lines_view(lines@) =~= seq![
        ("PR #"@ + decimal(number as nat) + ": "@ + title@, Tone::Plain),
        (Seq::<char>::empty(), Tone::Plain),
        ("Fetching and verifying latest head…"@, Tone::Plain),
        ("Please wait; popup closes after worktree creation"@, Tone::Plain),
    ]);
    lines
}

/// The two lines of a pull request in the list: `DRAFT` (for drafts), the
/// number and the title; then the author, the head label and the date it
/// was last updated.
pub open spec fn pull_request_item_spec(pr: PullRequestView, date: Seq<char>) -> (Seq<char>, Seq<char>) {
    (
        (if pr.is_draft {
            "DRAFT  "@
        } else {
            Seq::empty()
        }) + "#"@ + decimal(pr.number as nat) + " "@ + pr.title,
        pr.author + "  "@ + pr.head_label + "  "@ + date,
    )
}

/// The two lines of a pull request in the list.
pub fn pull_request_item(pr: &PullRequest) -> (r: (String, String))
    ensures
        (r.0@, r.1@) == pull_request_item_spec(pr@, display_date_spec(pr.updated_at@)),
{
    let digits = crate::text::decimal_string(pr.number);
    let mut first = if pr.is_draft {
        String::from_str("DRAFT  ")
    } else {
        String::new()
    };
    first.append("#");
    first.append(digits.as_str());
    first.append(" ");
    first.append(pr.title.as_str());
    let date = display_date(pr.updated_at.as_str());
    let mut second = join3(pr.author.as_str(), "  ", pr.head_label.as_str());
    second.append("  ");
    second.append(date);
    proof {
        reveal_strlit("");
    }
    (first, second)
}

/// The positions of the pull requests that match the search, in list order.
pub open spec fn pull_request_rows_spec(items: Seq<PullRequest>, query: Seq<char>, n: int) -> Seq<usize>
    decreases n,
{
    if n <= 0 {
        Seq::empty()
    } else {
        let rest = pull_request_rows_spec(items, query, n - 1);
        let pr = items[n - 1];
        if matches_query_spec(pr.number, pr.title@, pr.author@, pr.head_label@, query) {
            rest.push((n - 1) as usize)
        } else {
            rest
        }
    }
}

/// The positions of the pull requests that match the search.
pub fn pull_request_rows(items: &Vec<PullRequest>, query: &str) -> (r: Vec<usize>)
    ensures
        r@ == pull_request_rows_spec(items@, query@, items@.len() as int),
{
    let mut rows: Vec<usize> = Vec::new();
    let mut k: usize = 0;
    while k < items.len()
        invariant
            k <= items@.len(),
            rows@ == pull_request_rows_spec(items@, query@, k as int),
        decreases items@.len() - k,
    {
        if matches_query(&items[k], query) {
            rows.push(k);
        }
        k += 1;
    }
    rows
}

/// What the pull-request list says when it shows no rows: that it is
/// loading, that the repository has no open pull requests, or that none
/// matches the search. `None` when there are rows to show.
pub open spec fn pull_request_empty_spec(
    loading: bool,
    query: Seq<char>,
    name_with_owner: Option<Seq<char>>,
    item_count: int,
    row_count: int,
) -> Option<Seq<char>> {
    if item_count == 0 {
        Some(
            if loading {
                "Resolving GitHub repository and loading open pull requests…"@
            } else if query.len() == 0 {
                match name_with_owner {
                    Some(name) => "No open pull requests for "@ + name,
                    None => "No open pull requests"@,
                }
            } else {
                "No pull requests match “"@ + query + "”"@
            },
        )
    } else if row_count == 0 {
        Some("No pull requests match “"@ + query + "”"@)
    } else {
        None
    }
}

fn no_match(query: &str) -> (r: String)
    ensures
        r@ == "No pull requests match “"@ + query@ + "”"@,
{
    join3("No pull requests match “", query, "”")
}

/// What the pull-request list says when it shows no rows.
pub fn pull_request_empty_message(
    loading: bool,
    query: &str,
    repository: &Option<GitHubRepository>,
    item_count: usize,
    row_count: usize,
) -> (r: Option<String>)
    ensures
        opt_view(r) == pull_request_empty_spec(
            loading,
            query@,
            match repository {
                Some(repo) => Some(repo.name_with_owner@),
                None => None,
            },
            item_count as int,
            row_count as int,
        ),
{
    if item_count == 0 {
        if loading {
            Some(String::from_str("Resolving GitHub repository and loading open pull requests…"))
        } else if query.is_empty() {
            match repository {
                Some(repo) => Some(join2("No open pull requests for ", repo.name_with_owner.as_str())),
                None => Some(String::from_str("No open pull requests")),
            }
        } else {
            Some(no_match(query))
        }
    } else if row_count == 0 {
        Some(no_match(query))
    } else {
        None
    }
}

/// The footer of the pull-request list: its error; its status while
/// loading; otherwise its keys, with a note when the list was cut to the
/// 1,000 most recently updated pull requests.
pub open spec fn pull_request_footer_spec(
    error: Option<Seq<char>>,
    status: Option<Seq<char>>,
    loading: bool,
    row_count: int,
    truncated: bool,
) -> (Seq<char>, Tone) {
    match error {
        Some(e) => (e, Tone::Error),
        None => if loading || status is Some {
            (
                match status {
                    Some(s) => s,
                    None => "Loading open pull requests…"@,
                },
                Tone::Warning,
            )
        } else {
            let help = if row_count == 0 {
                "Ctrl-R refresh • Esc back"@
            } else {
                "Enter open • Ctrl-R refresh • Esc back"@
            };
            (
                if truncated {
                    "Showing 1,000 most recently updated open PRs • "@ + help
                } else {
                    help
                },
                Tone::Dim,
            )
        },
    }
}

/// The footer of the pull-request list.
pub fn pull_request_footer(
    error: &Option<String>,
    status: &Option<String>,
    loading: bool,
    row_count: usize,
    truncated: bool,
) -> (r: Line)
    ensures
        line_view(r) == pull_request_footer_spec(
            opt_view(*error),
            opt_view(*status),
            loading,
            row_count as int,
            truncated,
        ),
{
    match error {
        Some(e) => return Line { text: e.clone(), tone: Tone::Error },
        None => {},
    }
    if loading || status.is_some() {
        let text = match status {
            Some(s) => s.clone(),
            None => String::from_str("Loading open pull requests…"),
        };
        return Line { text, tone: Tone::Warning };
    }
    let help = if row_count == 0 {
        "Ctrl-R refresh • Esc back"
    } else {
        "Enter open • Ctrl-R refresh • Esc back"
    };
    if truncated {
        Line { text: join2("Showing 1,000 most recently updated open PRs • ", help), tone: Tone::Dim }
    } else {
        line(help, Tone::Dim)
    }
}

/// The spaces between a branch's name and its annotation in a row of
/// `available` columns that shows `badge`, `name` and `annotation`.
pub fn annotation_padding(available: usize, badge: &str, name: &str, annotation: &str) -> (r: usize)
    ensures
        r == padding_spec(
            available as int,
            (badge@.len() + name@.len() + annotation@.len()) as int,
            annotation@.len() as int,
        ),
{
    let b = crate::text::chars_of(badge).len();
    let n = crate::text::chars_of(name).len();
    let a = crate::text::chars_of(annotation).len();
    let used: usize = if b > usize::MAX - n || b + n > usize::MAX - a {
        usize::MAX
    } else {
        b + n + a
    };
    row_padding(available, used, a)
}

} // verus!

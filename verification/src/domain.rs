//! The picker's domain: branches, repository head, requests and screens.
use vstd::prelude::*;

use crate::text::{
    chars_of, copy_opt, decimal, decimal_string, join2, opt_view, push_zero_padded, same_text, string_of,
    string_of_range, zero_padded,
};

verus! {

/// Whether a branch is a local head or a remote-tracking ref.
#[derive(Clone, Copy, Debug, PartialEq, Eq, Structural)]
pub enum BranchKind {
    Local,
    Remote,
}

/// What `HEAD` of the source checkout points at.
#[derive(Clone, Debug, PartialEq, Eq)]
pub enum HeadState {
    Branch { name: String },
    Detached { commit: String },
    Unborn,
}

/// The outcome chosen on the first screen.
#[derive(Clone, Copy, Debug, PartialEq, Eq, Structural)]
pub enum Intent {
    NewFromHead,
    OpenExisting,
    NewFromBase,
}

/// A branch's full identity: its kind and its full ref name.
#[derive(Clone, Debug, PartialEq, Eq)]
pub struct BranchIdentity {
    pub kind: BranchKind,
    pub name: String,
}

/// Search text and selected branch that one picker remembers.
#[derive(Clone, Debug, PartialEq, Eq)]
pub struct PickerMemory {
    pub query: String,
    pub selected: Option<BranchIdentity>,
}

/// The two branch lists: branches to open, and bases to start from.
#[derive(Clone, Copy, Debug, PartialEq, Eq, Structural)]
pub enum Picker {
    Existing,
    Base,
}

/// A remote whose derived local name is taken by a branch that does not
/// track it, with the custom name drafted for it.
#[derive(Clone, Debug, PartialEq, Eq)]
pub struct RemoteConflict {
    pub remote: String,
    pub proposed_local: String,
    pub custom_name: String,
    pub selected_action: usize,
}

/// A local or remote branch as the repository reports it.
#[derive(Clone, Debug, PartialEq, Eq)]
pub struct Branch {
    pub kind: BranchKind,
    pub name: String,
    pub upstream: Option<String>,
    pub checked_out_at: Option<String>,
    pub is_current: bool,
    pub committer_time: i64,
}

/// A branch as plain values: its texts as character sequences.
pub struct BranchView {
    pub kind: BranchKind,
    pub name: Seq<char>,
    pub upstream: Option<Seq<char>>,
    pub checked_out_at: Option<Seq<char>>,
    pub is_current: bool,
    pub committer_time: i64,
}

impl View for Branch {
    type V = BranchView;

    open spec fn view(&self) -> BranchView {
        BranchView {
            kind: self.kind,
            name: self.name@,
            upstream: opt_view(self.upstream),
            checked_out_at: opt_view(self.checked_out_at),
            is_current: self.is_current,
            committer_time: self.committer_time,
        }
    }
}

/// The plain values of a list of branches.
pub open spec fn branch_views(s: Seq<Branch>) -> Seq<BranchView> {
    s.map_values(|b: Branch| b@)
}

/// The base a new branch starts from.
#[derive(Clone, Debug, PartialEq, Eq)]
pub enum BaseRef {
    Head,
    Local(String),
    Remote(String),
}

/// The name field being edited.
#[derive(Clone, Copy, Debug, PartialEq, Eq, Structural)]
pub enum NameTarget {
    CurrentHead,
    SelectedBase,
    RemoteConflict,
}

/// The screen shown.
#[derive(Clone, Debug, PartialEq, Eq)]
pub enum Mode {
    Intent,
    ExistingPicker,
    BasePicker,
    PullRequestPicker,
    PreparingPullRequest { number: u64, title: String },
    Naming { target: NameTarget },
    RemoteConflict,
    Creating,
    FatalError,
}

/// The screen a creation request was submitted from.
#[derive(Clone, Copy, Debug, PartialEq, Eq, Structural)]
pub enum CreateSource {
    ExistingPicker,
    CurrentHeadName,
    SelectedBaseName,
    RemoteConflictName,
}

/// What Herdr is asked to create: the local branch, the base it starts from
/// when it is new, and the remote it must track.
#[derive(Clone, Debug, PartialEq, Eq)]
pub struct CreateRequest {
    pub branch: String,
    pub base: Option<String>,
    pub upstream: Option<String>,
}

/// How a creation request ended.
#[derive(Clone, Debug, PartialEq, Eq)]
pub enum CreateResult {
    Succeeded,
    SucceededWithTrackingWarning(String),
    Failed(String),
}

/// Why a branch cannot be opened directly.
#[derive(Clone, Debug, PartialEq, Eq)]
pub enum OpenBlocker {
    AlreadyCheckedOut { branch: String, path: String },
    RemoteNameConflict { local: String, remote: String },
}

/// One visible picker row: the index of its branch, and whether Enter acts
/// on it.
#[derive(Clone, Copy, Debug, PartialEq, Eq, Structural)]
pub struct PickerRow {
    pub branch: usize,
    pub actionable: bool,
}

// ---------------------------------------------------------------------------
// The values above as plain values: texts become character sequences.
// ---------------------------------------------------------------------------

/// A branch identity as plain values.
pub struct IdentityView {
    pub kind: BranchKind,
    pub name: Seq<char>,
}

impl View for BranchIdentity {
    type V = IdentityView;

    open spec fn view(&self) -> IdentityView {
        IdentityView { kind: self.kind, name: self.name@ }
    }
}

/// The identity of a branch.
pub open spec fn identity_of(b: BranchView) -> IdentityView {
    IdentityView { kind: b.kind, name: b.name }
}

/// An optional identity as plain values.
pub open spec fn opt_identity(o: Option<BranchIdentity>) -> Option<IdentityView> {
    match o {
        Some(id) => Some(id@),
        None => None,
    }
}

/// Picker memory as plain values.
pub struct MemoryView {
    pub query: Seq<char>,
    pub selected: Option<IdentityView>,
}

impl View for PickerMemory {
    type V = MemoryView;

    open spec fn view(&self) -> MemoryView {
        MemoryView { query: self.query@, selected: opt_identity(self.selected) }
    }
}

/// A remote-name conflict as plain values.
pub struct ConflictView {
    pub remote: Seq<char>,
    pub proposed_local: Seq<char>,
    pub custom_name: Seq<char>,
    pub selected_action: usize,
}

impl View for RemoteConflict {
    type V = ConflictView;

    open spec fn view(&self) -> ConflictView {
        ConflictView {
            remote: self.remote@,
            proposed_local: self.proposed_local@,
            custom_name: self.custom_name@,
            selected_action: self.selected_action,
        }
    }
}

/// An optional conflict as plain values.
pub open spec fn opt_conflict(o: Option<RemoteConflict>) -> Option<ConflictView> {
    match o {
        Some(c) => Some(c@),
        None => None,
    }
}

/// The state of `HEAD` as plain values.
pub enum HeadView {
    Branch { name: Seq<char> },
    Detached { commit: Seq<char> },
    Unborn,
}

impl View for HeadState {
    type V = HeadView;

    open spec fn view(&self) -> HeadView {
        match self {
            HeadState::Branch { name } => HeadView::Branch { name: name@ },
            HeadState::Detached { commit } => HeadView::Detached { commit: commit@ },
            HeadState::Unborn => HeadView::Unborn,
        }
    }
}

/// A base as plain values.
pub enum BaseView {
    Head,
    Local(Seq<char>),
    Remote(Seq<char>),
}

impl View for BaseRef {
    type V = BaseView;

    open spec fn view(&self) -> BaseView {
        match self {
            BaseRef::Head => BaseView::Head,
            BaseRef::Local(name) => BaseView::Local(name@),
            BaseRef::Remote(name) => BaseView::Remote(name@),
        }
    }
}

/// An optional base as plain values.
pub open spec fn opt_base(o: Option<BaseRef>) -> Option<BaseView> {
    match o {
        Some(b) => Some(b@),
        None => None,
    }
}

/// A screen as plain values.
pub enum ModeView {
    Intent,
    ExistingPicker,
    BasePicker,
    PullRequestPicker,
    PreparingPullRequest { number: u64, title: Seq<char> },
    Naming { target: NameTarget },
    RemoteConflict,
    Creating,
    FatalError,
}

impl View for Mode {
    type V = ModeView;

    open spec fn view(&self) -> ModeView {
        match self {
            Mode::Intent => ModeView::Intent,
            Mode::ExistingPicker => ModeView::ExistingPicker,
            Mode::BasePicker => ModeView::BasePicker,
            Mode::PullRequestPicker => ModeView::PullRequestPicker,
            Mode::PreparingPullRequest { number, title } => ModeView::PreparingPullRequest {
                number: *number,
                title: title@,
            },
            Mode::Naming { target } => ModeView::Naming { target: *target },
            Mode::RemoteConflict => ModeView::RemoteConflict,
            Mode::Creating => ModeView::Creating,
            Mode::FatalError => ModeView::FatalError,
        }
    }
}

/// A creation request as plain values.
pub struct RequestView {
    pub branch: Seq<char>,
    pub base: Option<Seq<char>>,
    pub upstream: Option<Seq<char>>,
}

impl View for CreateRequest {
    type V = RequestView;

    open spec fn view(&self) -> RequestView {
        RequestView {
            branch: self.branch@,
            base: opt_view(self.base),
            upstream: opt_view(self.upstream),
        }
    }
}

/// A creation outcome as plain values.
pub enum ResultView {
    Succeeded,
    SucceededWithTrackingWarning(Seq<char>),
    Failed(Seq<char>),
}

impl View for CreateResult {
    type V = ResultView;

    open spec fn view(&self) -> ResultView {
        match self {
            CreateResult::Succeeded => ResultView::Succeeded,
            CreateResult::SucceededWithTrackingWarning(e) => ResultView::SucceededWithTrackingWarning(
                e@,
            ),
            CreateResult::Failed(e) => ResultView::Failed(e@),
        }
    }
}

/// A blocker as plain values.
pub enum BlockerView {
    AlreadyCheckedOut { branch: Seq<char>, path: Seq<char> },
    RemoteNameConflict { local: Seq<char>, remote: Seq<char> },
}

impl View for OpenBlocker {
    type V = BlockerView;

    open spec fn view(&self) -> BlockerView {
        match self {
            OpenBlocker::AlreadyCheckedOut { branch, path } => BlockerView::AlreadyCheckedOut {
                branch: branch@,
                path: path@,
            },
            OpenBlocker::RemoteNameConflict { local, remote } => BlockerView::RemoteNameConflict {
                local: local@,
                remote: remote@,
            },
        }
    }
}

impl BranchIdentity {
    /// Whether this identity names `b`.
    pub open spec fn names(self, b: Branch) -> bool {
        self.kind == b.kind && self.name@ == b.name@
    }

    /// The identity of `branch`.
    pub fn of(branch: &Branch) -> (r: Self)
        ensures
            r.kind == branch.kind,
            r.name == branch.name,
            r.names(*branch),
    {
        Self { kind: branch.kind, name: branch.name.clone() }
    }

    /// Whether this identity names `branch`.
    pub fn matches(&self, branch: &Branch) -> (r: bool)
        ensures
            r == self.names(*branch),
    {
        self.kind == branch.kind && same_text(&self.name, &branch.name)
    }

    /// A copy of this identity.
    pub fn duplicate(&self) -> (r: Self)
        ensures
            r == *self,
    {
        Self { kind: self.kind, name: self.name.clone() }
    }
}

impl PickerMemory {
    /// An empty search with nothing selected.
    pub fn new() -> (r: Self)
        ensures
            r.query@ == Seq::<char>::empty(),
            r.selected is None,
    {
        PickerMemory { query: String::new(), selected: None }
    }
}

impl Branch {
    /// A remote branch with no other metadata.
    pub fn remote(name: &str) -> (r: Self)
        ensures
            r.kind == BranchKind::Remote,
            r.name@ == name@,
            r.upstream is None,
            r.checked_out_at is None,
            !r.is_current,
            r.committer_time == 0,
    {
        Branch {
            kind: BranchKind::Remote,
            name: String::from_str(name),
            upstream: None,
            checked_out_at: None,
            is_current: false,
            committer_time: 0,
        }
    }

    /// A copy of this branch.
    pub fn duplicate(&self) -> (r: Self)
        ensures
            r == *self,
    {
        Branch {
            kind: self.kind,
            name: self.name.clone(),
            upstream: copy_opt(&self.upstream),
            checked_out_at: copy_opt(&self.checked_out_at),
            is_current: self.is_current,
            committer_time: self.committer_time,
        }
    }

    /// The short note shown beside the branch in a picker, `now` being the
    /// current Unix time in seconds.
    pub open spec fn annotation_spec(self, now: int) -> Seq<char> {
        if self.is_current {
            "current"@
        } else if self.checked_out_at is Some {
            "at "@ + self.checked_out_at->0@
        } else if self.committer_time <= 0 {
            Seq::empty()
        } else {
            let days = age_days(now, self.committer_time as int);
            if days == 0 {
                "today"@
            } else if days == 1 {
                "1 day ago"@
            } else if days <= 30 {
                decimal(days as nat) + " days ago"@
            } else {
                format_date_spec(self.committer_time as int)
            }
        }
    }

    /// The short note shown beside the branch in a picker: `current`, the
    /// worktree path, or the age of its last commit.
    pub fn annotation(&self, now: i64) -> (r: String)
        requires
            self.committer_time > 0 ==> i64::MIN <= now - self.committer_time <= i64::MAX,
        ensures
            r@ == self.annotation_spec(now as int),
    {
        if self.is_current {
            return String::from_str("current");
        }
        if let Some(path) = &self.checked_out_at {
            return join2("at ", path.as_str());
        }
        if self.committer_time <= 0 {
            return String::new();
        }
        let elapsed: i64 = now - self.committer_time;
        let days: i64 = if elapsed > 0 {
            elapsed / 86_400
        } else {
            0
        };
        assert(days == age_days(now as int, self.committer_time as int));
        if days == 0 {
            String::from_str("today")
        } else if days == 1 {
            String::from_str("1 day ago")
        } else if days <= 30 {
            let n = decimal_string(days as u64);
            join2(n.as_str(), " days ago")
        } else {
            format_date(self.committer_time)
        }
    }
}

/// Whole days between `then` and `now`, never negative.
pub open spec fn age_days(now: int, then: int) -> int {
    if now - then > 0 {
        (now - then) / 86_400
    } else {
        0
    }
}

impl BaseRef {
    /// The text shown for this base.
    pub open spec fn label_spec(self) -> Seq<char> {
        match self {
            BaseRef::Head => "HEAD"@,
            BaseRef::Local(name) => name@,
            BaseRef::Remote(name) => name@,
        }
    }

    /// The text shown for this base.
    pub fn label(&self) -> (r: &str)
        ensures
            r@ == self.label_spec(),
    {
        match self {
            BaseRef::Head => "HEAD",
            BaseRef::Local(name) => name.as_str(),
            BaseRef::Remote(name) => name.as_str(),
        }
    }

    /// The ref handed to Herdr for this base: the named branch as it stands,
    /// or, for `HEAD`, what resolving `HEAD` gave.
    pub fn value(&self, resolved_head: Result<String, String>) -> (r: Result<String, String>)
        ensures
            self is Head ==> r == resolved_head,
            self matches BaseRef::Local(name) ==> r == Ok::<String, String>(*name),
            self matches BaseRef::Remote(name) ==> r == Ok::<String, String>(*name),
    {
        match self {
            BaseRef::Head => resolved_head,
            BaseRef::Local(name) => Ok(name.clone()),
            BaseRef::Remote(name) => Ok(name.clone()),
        }
    }

    /// A copy of this base.
    pub fn duplicate(&self) -> (r: Self)
        ensures
            r == *self,
    {
        match self {
            BaseRef::Head => BaseRef::Head,
            BaseRef::Local(name) => BaseRef::Local(name.clone()),
            BaseRef::Remote(name) => BaseRef::Remote(name.clone()),
        }
    }
}

/// The message that explains a blocker.
pub open spec fn blocker_message(b: BlockerView) -> Seq<char> {
    match b {
        BlockerView::AlreadyCheckedOut { branch, path } => branch + " is already checked out at "@
            + path + "."@,
        BlockerView::RemoteNameConflict { local, remote } => local
            + " exists locally but does not track "@ + remote + "."@,
    }
}

impl OpenBlocker {
    /// The message that explains the blocker.
    pub fn message(self) -> (r: String)
        ensures
            r@ == blocker_message(self@),
    {
        match self {
            OpenBlocker::AlreadyCheckedOut { branch, path } => {
                let mut r = String::from_str(branch.as_str());
                r.append(" is already checked out at ");
                r.append(path.as_str());
                r.append(".");
                r
            },
            OpenBlocker::RemoteNameConflict { local, remote } => {
                let mut r = String::from_str(local.as_str());
                r.append(" exists locally but does not track ");
                r.append(remote.as_str());
                r.append(".");
                r
            },
        }
    }
}

impl CreateRequest {
    /// A copy of this request.
    pub fn duplicate(&self) -> (r: Self)
        ensures
            r == *self,
    {
        CreateRequest {
            branch: self.branch.clone(),
            base: copy_opt(&self.base),
            upstream: copy_opt(&self.upstream),
        }
    }
}

/// The screen a failed creation returns to.
pub open spec fn recovery_mode_spec(source: CreateSource) -> Mode {
    match source {
        CreateSource::ExistingPicker => Mode::ExistingPicker,
        CreateSource::CurrentHeadName => Mode::Naming { target: NameTarget::CurrentHead },
        CreateSource::SelectedBaseName => Mode::Naming { target: NameTarget::SelectedBase },
        CreateSource::RemoteConflictName => Mode::Naming { target: NameTarget::RemoteConflict },
    }
}

/// The screen a failed creation returns to: the picker or name field it was
/// submitted from.
pub fn recovery_mode(source: CreateSource) -> (m: Mode)
    ensures
        m == recovery_mode_spec(source),
{
    match source {
        CreateSource::ExistingPicker => Mode::ExistingPicker,
        CreateSource::CurrentHeadName => Mode::Naming { target: NameTarget::CurrentHead },
        CreateSource::SelectedBaseName => Mode::Naming { target: NameTarget::SelectedBase },
        CreateSource::RemoteConflictName => Mode::Naming { target: NameTarget::RemoteConflict },
    }
}

/// The first seven characters of a commit id (all of it when shorter).
pub open spec fn short_commit_spec(commit: Seq<char>) -> Seq<char> {
    if commit.len() <= 7 {
        commit
    } else {
        commit.take(7)
    }
}

/// The first seven characters of a commit id (all of it when shorter).
pub fn short_commit(commit: &str) -> (r: String)
    ensures
        r@ == short_commit_spec(commit@),
{
    let v = chars_of(commit);
    let n: usize = if v.len() <= 7 {
        v.len()
    } else {
        7
    };
    let r = string_of_range(&v, 0, n);
    assert(v@.subrange(0, n as int) =~= short_commit_spec(commit@));
    r
}

/// Integer division that rounds toward zero, as Rust's `/` does.
pub open spec fn tdiv(a: int, b: int) -> int {
    if a >= 0 {
        a / b
    } else {
        -((-a) / b)
    }
}

/// The (year, month, day) of a day count from 1970-01-01, as `format_date`
/// computes it; `law_civil_dates_are_gregorian` shows it is the date of the
/// proleptic Gregorian calendar.
pub open spec fn civil_from_days(days: int) -> (int, int, int) {
    let z = days + 719_468;
    let era = tdiv(
        if z >= 0 {
            z
        } else {
            z - 146_096
        },
        146_097,
    );
    let doe = z - era * 146_097;
    let yoe = tdiv(doe - tdiv(doe, 1_460) + tdiv(doe, 36_524) - tdiv(doe, 146_096), 365);
    let doy = doe - (365 * yoe + tdiv(yoe, 4) - tdiv(yoe, 100));
    let mp = tdiv(5 * doy + 2, 153);
    let d = doy - tdiv(153 * mp + 2, 5) + 1;
    let m = mp + if mp < 10 {
        3int
    } else {
        -9int
    };
    let y = yoe + era * 400 + if m <= 2 {
        1int
    } else {
        0int
    };
    (y, m, d)
}

/// `YYYY-MM-DD` for the UTC day that holds the Unix time `timestamp`.
pub open spec fn format_date_spec(timestamp: int) -> Seq<char> {
    let (y, m, d) = civil_from_days(timestamp / 86_400);
    zero_padded(y, 4) + "-"@ + zero_padded(m, 2) + "-"@ + zero_padded(d, 2)
}

fn floor_days(timestamp: i64) -> (days: i64)
    ensures
        days as int == timestamp as int / 86_400,
        -106_751_991_167_301 <= days <= 106_751_991_167_300,
{
    if timestamp >= 0 {
        let days = timestamp / 86_400;
        assert(days as int == timestamp as int / 86_400);
        days
    } else {
        let t: i64 = -(timestamp + 1);
        let q: i64 = t / 86_400;
        assert(-q - 1 == timestamp as int / 86_400) by (nonlinear_arith)
            requires
                t == -(timestamp + 1),
                t >= 0,
                q == t / 86_400,
        ;
        -q - 1
    }
}

fn era_start(z: i64) -> (r: (i64, i64))
    requires
        -200_000_000_000_000 <= z <= 200_000_000_000_000,
    ensures
        r.0 as int == tdiv(
            if z >= 0 {
                z as int
            } else {
                z - 146_096
            },
            146_097,
        ),
        r.1 == z - r.0 * 146_097,
        0 <= r.1 < 146_097,
        -2_000_000_000 <= r.0 <= 2_000_000_000,
{
    if z >= 0 {
        let era: i64 = z / 146_097;
        assert(0 <= z - era * 146_097 < 146_097 && era <= 2_000_000_000) by (nonlinear_arith)
            requires
                era == z / 146_097,
                0 <= z <= 200_000_000_000_000,
        ;
        (era, z - era * 146_097)
    } else {
        let n: i64 = 146_096 - z;
        let q: i64 = n / 146_097;
        let era: i64 = -q;
        assert(0 <= z - era * 146_097 < 146_097 && era >= -2_000_000_000) by (nonlinear_arith)
            requires
                n == 146_096 - z,
                z < 0,
                z >= -200_000_000_000_000,
                q == n / 146_097,
                era == -q,
        ;
        (era, z - era * 146_097)
    }
}

/// `YYYY-MM-DD` for the UTC day that holds the Unix time `timestamp`.
pub fn format_date(timestamp: i64) -> (r: String)
    ensures
        r@ == format_date_spec(timestamp as int),
{
    let days = floor_days(timestamp);
    let z: i64 = days + 719_468;
    let (era, doe) = era_start(z);
    let a: i64 = doe - doe / 1_460 + doe / 36_524 - doe / 146_096;
    assert(0 <= a <= 146_097) by (nonlinear_arith)
        requires
            0 <= doe < 146_097,
            a == doe - doe / 1_460 + doe / 36_524 - doe / 146_096,
    ;
    let yoe: i64 = a / 365;
    assert(0 <= yoe <= 401) by (nonlinear_arith)
        requires
            0 <= a <= 146_097,
            yoe == a / 365,
    ;
    let doy: i64 = doe - (365 * yoe + yoe / 4 - yoe / 100);
    let mp: i64 = (5 * doy + 2) / 153;
    assert(-10_000 <= mp <= 10_000) by (nonlinear_arith)
        requires
            -200_000 <= doy <= 200_000,
            mp as int == tdiv(5 * doy + 2, 153),
    ;
    let d: i64 = doy - (153 * mp + 2) / 5 + 1;
    let m: i64 = mp + if mp < 10 {
        3
    } else {
        -9
    };
    let y: i64 = yoe + era * 400 + if m <= 2 {
        1
    } else {
        0
    };
    assert((y as int, m as int, d as int) == civil_from_days(timestamp as int / 86_400));
    let mut out: Vec<char> = Vec::new();
    push_zero_padded(&mut out, y, 4);
    out.push('-');
    push_zero_padded(&mut out, m, 2);
    out.push('-');
    push_zero_padded(&mut out, d, 2);
    proof {
        reveal_strlit("-");
    }
    assert(out@ =~= format_date_spec(timestamp as int));
    string_of(&out)
}

// ---------------------------------------------------------------------------
// The proleptic Gregorian calendar.
// ---------------------------------------------------------------------------

/// Whether `y` is a leap year of the Gregorian calendar.
pub open spec fn is_leap_year(y: int) -> bool {
    y % 4 == 0 && (y % 100 != 0 || y % 400 == 0)
}

/// The number of days of month `m` (1 to 12) of year `y`.
pub open spec fn days_in_month(y: int, m: int) -> int {
    if m == 2 {
        if is_leap_year(y) {
            29
        } else {
            28
        }
    } else if m == 4 || m == 6 || m == 9 || m == 11 {
        30
    } else {
        31
    }
}

/// Whether (year, month, day) is a date of the Gregorian calendar.
pub open spec fn valid_date(date: (int, int, int)) -> bool {
    1 <= date.1 <= 12 && 1 <= date.2 <= days_in_month(date.0, date.1)
}

/// The date after (year, month, day).
pub open spec fn next_day(date: (int, int, int)) -> (int, int, int) {
    let (y, m, d) = date;
    if d < days_in_month(y, m) {
        (y, m, d + 1)
    } else if m < 12 {
        (y, m + 1, 1)
    } else {
        (y + 1, 1, 1)
    }
}

/// The first day of the March-based year `yoe` of a 400-year era, counted
/// from the era's first day (March 1 of a year divisible by 400).
pub open spec fn year_start(yoe: int) -> int {
    365 * yoe + yoe / 4 - yoe / 100
}

/// The length of the March-based year `yoe` of an era.
pub open spec fn year_length(yoe: int) -> int {
    year_start(yoe + 1) - year_start(yoe) + if yoe == 399 {
        1int
    } else {
        0int
    }
}

/// The date of day `doy` of the March-based year `yoe` of era `era`.
pub open spec fn date_of(era: int, yoe: int, doy: int) -> (int, int, int) {
    let mp = (5 * doy + 2) / 153;
    let d = doy - (153 * mp + 2) / 5 + 1;
    let m = if mp < 10 {
        mp + 3
    } else {
        mp - 9
    };
    let y = yoe + era * 400 + if m <= 2 {
        1int
    } else {
        0int
    };
    (y, m, d)
}

#[verifier::spinoff_prover]
proof fn lemma_year_of_era(doe: int)
    requires
        0 <= doe <= 146_096,
    ensures
        ({
            let yoe = (doe - doe / 1_460 + doe / 36_524 - doe / 146_096) / 365;
            &&& 0 <= yoe <= 399
            &&& year_start(yoe) <= doe
            &&& doe < year_start(yoe) + year_length(yoe)
        }),
{
}

proof fn lemma_year_start_increasing(a: int, b: int)
    requires
        0 <= a < b,
    ensures
        year_start(a) < year_start(b),
{
}

/// A year's length within an era: one day more when the year it ends in
/// has a February 29.
#[verifier::spinoff_prover]
proof fn lemma_year_length_in_era(yoe: int)
    requires
        0 <= yoe <= 399,
    ensures
        year_length(yoe) == if (yoe + 1) % 4 == 0 && ((yoe + 1) % 100 != 0 || yoe == 399) {
            366int
        } else {
            365int
        },
{
}

/// Leap years repeat every 400 years.
proof fn lemma_leap_period(x: int, era: int)
    ensures
        is_leap_year(x + era * 400) == is_leap_year(x),
{
    assert((x + era * 400) % 4 == x % 4) by (nonlinear_arith);
    assert((x + era * 400) % 100 == x % 100) by (nonlinear_arith);
    assert((x + era * 400) % 400 == x % 400) by (nonlinear_arith);
}

#[verifier::spinoff_prover]
proof fn lemma_year_length(era: int, yoe: int)
    requires
        0 <= yoe <= 399,
    ensures
        year_length(yoe) == if is_leap_year(yoe + 1 + era * 400) {
            366int
        } else {
            365int
        },
{
    lemma_year_length_in_era(yoe);
    lemma_leap_period(yoe + 1, era);
}

#[verifier::spinoff_prover]
proof fn lemma_date_valid(era: int, yoe: int, doy: int)
    requires
        0 <= yoe <= 399,
        0 <= doy < year_length(yoe),
    ensures
        valid_date(date_of(era, yoe, doy)),
{
    lemma_year_length(era, yoe);
}

#[verifier::spinoff_prover]
proof fn lemma_date_step_in_year(era: int, yoe: int, doy: int)
    requires
        0 <= yoe <= 399,
        0 <= doy,
        doy + 1 < year_length(yoe),
    ensures
        date_of(era, yoe, doy + 1) == next_day(date_of(era, yoe, doy)),
{
    lemma_year_length(era, yoe);
}

#[verifier::spinoff_prover]
proof fn lemma_date_step_year_end(era: int, yoe: int)
    requires
        0 <= yoe < 399,
    ensures
        date_of(era, yoe + 1, 0) == next_day(date_of(era, yoe, year_length(yoe) - 1)),
{
    lemma_year_length(era, yoe);
}

#[verifier::spinoff_prover]
proof fn lemma_date_step_era_end(era: int)
    ensures
        date_of(era + 1, 0, 0) == next_day(date_of(era, 399, year_length(399) - 1)),
{
    lemma_year_length(era, 399);
}

/// The March-based year of the era that holds day `doe` of the era.
pub open spec fn year_of_era(doe: int) -> int {
    (doe - doe / 1_460 + doe / 36_524 - doe / 146_096) / 365
}

/// The date of day `doe` of era `era`.
#[verifier::opaque]
pub open spec fn date_in_era(era: int, doe: int) -> (int, int, int) {
    date_of(era, year_of_era(doe), doe - year_start(year_of_era(doe)))
}

/// `civil_from_days` splits the day count into 400-year eras and the day of
/// the era.
#[verifier::spinoff_prover]
proof fn lemma_civil_parts(days: int)
    ensures
        0 <= (days + 719_468) % 146_097 <= 146_096,
        civil_from_days(days) == date_in_era(
            (days + 719_468) / 146_097,
            (days + 719_468) % 146_097,
        ),
{
    reveal(date_in_era);
    let z = days + 719_468;
    let era = z / 146_097;
    let doe = z % 146_097;
    assert(tdiv(
        if z >= 0 {
            z
        } else {
            z - 146_096
        },
        146_097,
    ) == era);
    lemma_year_of_era(doe);
}

#[verifier::spinoff_prover]
proof fn lemma_in_era_valid(era: int, doe: int)
    requires
        0 <= doe <= 146_096,
    ensures
        valid_date(date_in_era(era, doe)),
{
    reveal(date_in_era);
    lemma_year_of_era(doe);
    lemma_date_valid(era, year_of_era(doe), doe - year_start(year_of_era(doe)));
}

#[verifier::spinoff_prover]
proof fn lemma_in_era_next(era: int, doe: int)
    requires
        0 <= doe < 146_096,
    ensures
        date_in_era(era, doe + 1) == next_day(date_in_era(era, doe)),
{
    reveal(date_in_era);
    let yoe = year_of_era(doe);
    let yoe2 = year_of_era(doe + 1);
    let doy = doe - year_start(yoe);
    lemma_year_of_era(doe);
    lemma_year_of_era(doe + 1);
    if doy + 1 < year_length(yoe) {
        if yoe2 < yoe {
            lemma_year_start_increasing(yoe2 + 1, yoe);
        } else if yoe2 > yoe {
            lemma_year_start_increasing(yoe + 1, yoe2);
        }
        assert(yoe2 == yoe);
        lemma_date_step_in_year(era, yoe, doy);
    } else {
        if yoe2 < yoe + 1 {
            if yoe2 < yoe {
                lemma_year_start_increasing(yoe2 + 1, yoe);
            }
        } else if yoe2 > yoe + 1 {
            lemma_year_start_increasing(yoe + 1, yoe2);
        }
        assert(yoe2 == yoe + 1);
        lemma_date_step_year_end(era, yoe);
    }
}

#[verifier::spinoff_prover]
proof fn lemma_in_era_wrap(era: int)
    ensures
        date_in_era(era + 1, 0) == next_day(date_in_era(era, 146_096)),
{
    reveal(date_in_era);
    assert(year_of_era(146_096) == 399);
    assert(year_of_era(0) == 0);
    lemma_date_step_era_end(era);
}

/// The dates `civil_from_days` gives are those of the proleptic Gregorian
/// calendar counted from 1970-01-01: day 0 is 1970-01-01, every day count
/// gives a valid date, and each next day count gives the next date. These
/// three facts determine the date of every day count, before and after
/// 1970; `format_date` writes the date of the day that holds the Unix time.
#[verifier::spinoff_prover]
pub proof fn law_civil_dates_are_gregorian(days: int)
    ensures
        civil_from_days(0) == (1970int, 1int, 1int),
        valid_date(civil_from_days(days)),
        civil_from_days(days + 1) == next_day(civil_from_days(days)),
{
    lemma_civil_parts(0);
    assert(date_in_era(4, 135_080) == (1970int, 1int, 1int)) by {
        reveal(date_in_era);
    }
    lemma_civil_parts(days);
    lemma_civil_parts(days + 1);
    let z = days + 719_468;
    let era = z / 146_097;
    let doe = z % 146_097;
    lemma_in_era_valid(era, doe);
    if doe < 146_096 {
        assert((z + 1) / 146_097 == era && (z + 1) % 146_097 == doe + 1);
        lemma_in_era_next(era, doe);
    } else {
        assert((z + 1) / 146_097 == era + 1 && (z + 1) % 146_097 == 0);
        lemma_in_era_wrap(era);
    }
}

} // verus!

//! What the picker decides from Git's answers: branch lists, `HEAD`,
//! name validation, how a branch is opened, and upstream tracking.
use vstd::prelude::*;

use crate::domain::{
    branch_views, BlockerView, Branch, BranchKind, BranchView, CreateRequest, CreateResult,
    HeadState, OpenBlocker, RequestView,
};
use crate::text::{
    char_pos, chars_of, field0, field1, field2, find_char, lemma_char_pos_from_bounds, lines_spec,
    opt_view, parse_i64, parse_i64_spec, same_text, split_fields3, split_lines, string_of_range,
    strip_prefix, strip_prefix_spec, vec_views,
};

verus! {

// ---------------------------------------------------------------------------
// Opening an existing branch.
// ---------------------------------------------------------------------------

/// The local name derived from a remote branch name: everything after its
/// first `/` (the whole name when it holds none).
pub open spec fn derived_local_name(name: Seq<char>) -> Seq<char> {
    match char_pos(name, '/') {
        None => name,
        Some(i) => name.skip(i + 1),
    }
}

/// The local name derived from a remote branch name.
pub fn derive_local_name(name: &String) -> (r: String)
    ensures
        r@ == derived_local_name(name@),
{
    let v = chars_of(name.as_str());
    let n = v.len();
    match find_char(&v, '/', 0) {
        None => name.clone(),
        Some(i) => {
            proof {
                lemma_char_pos_from_bounds(v@, '/', 0);
            }
            let r = string_of_range(&v, i + 1, v.len());
            assert(v@.subrange(i + 1, v@.len() as int) =~= v@.skip(i + 1));
            r
        },
    }
}

/// The first position at or after `k` of a local branch named `name`.
pub open spec fn local_index_from(all: Seq<BranchView>, name: Seq<char>, k: int) -> Option<int>
    decreases all.len() - k,
{
    if k < 0 || k >= all.len() {
        None
    } else if all[k].kind == BranchKind::Local && all[k].name == name {
        Some(k)
    } else {
        local_index_from(all, name, k + 1)
    }
}

/// The position of the first local branch named `name`.
pub open spec fn local_index(all: Seq<BranchView>, name: Seq<char>) -> Option<int> {
    local_index_from(all, name, 0)
}

pub proof fn lemma_local_index_from(all: Seq<BranchView>, name: Seq<char>, k: int)
    requires
        0 <= k,
    ensures
        local_index_from(all, name, k) matches Some(j) ==> k <= j < all.len() && all[j].kind
            == BranchKind::Local && all[j].name == name,
        local_index_from(all, name, k) is None ==> forall|j: int|
            k <= j < all.len() ==> !(all[j].kind == BranchKind::Local && all[j].name == name),
    decreases all.len() - k,
{
    if k < all.len() {
        lemma_local_index_from(all, name, k + 1);
        if local_index_from(all, name, k) is None {
            assert forall|j: int| k <= j < all.len() implies !(all[j].kind == BranchKind::Local
                && all[j].name == name) by {
                if j > k {
                }
            }
        }
    }
}

/// The position of the first local branch named `name`.
pub fn find_local(all: &Vec<Branch>, name: &String) -> (r: Option<usize>)
    ensures
        r matches Some(j) ==> local_index(branch_views(all@), name@) == Some(j as int),
        r is None ==> local_index(branch_views(all@), name@) is None,
{
    let ghost views = branch_views(all@);
    let mut k: usize = 0;
    while k < all.len()
        invariant
            k <= all@.len(),
            views == branch_views(all@),
            local_index(views, name@) == local_index_from(views, name@, k as int),
        decreases all@.len() - k,
    {
        if all[k].kind == BranchKind::Local && same_text(&all[k].name, name) {
            return Some(k);
        }
        k += 1;
    }
    None
}

fn tracks_exec(upstream: &Option<String>, remote: &String) -> (r: bool)
    ensures
        r == (opt_view(*upstream) == Some(remote@)),
{
    match upstream {
        Some(u) => same_text(u, remote),
        None => false,
    }
}

/// What opening `branch` from the list `all` gives. A local branch opens as
/// it is unless it is checked out. A remote with no local branch of its
/// derived name creates that local branch from, and tracking, the exact
/// remote; the local branch of that name is opened only when it tracks
/// exactly that remote; any other local branch of that name is a conflict.
pub open spec fn plan_open_spec(branch: BranchView, all: Seq<BranchView>) -> Result<
    RequestView,
    BlockerView,
> {
    match branch.kind {
        BranchKind::Local => match branch.checked_out_at {
            Some(path) => Err(BlockerView::AlreadyCheckedOut { branch: branch.name, path }),
            None => Ok(RequestView { branch: branch.name, base: None, upstream: None }),
        },
        BranchKind::Remote => {
            let local_name = derived_local_name(branch.name);
            match local_index(all, local_name) {
                None => Ok(
                    RequestView {
                        branch: local_name,
                        base: Some(branch.name),
                        upstream: Some(branch.name),
                    },
                ),
                Some(j) => if all[j].upstream == Some(branch.name) {
                    match all[j].checked_out_at {
                        Some(path) => Err(
                            BlockerView::AlreadyCheckedOut { branch: all[j].name, path },
                        ),
                        None => Ok(RequestView { branch: all[j].name, base: None, upstream: None }),
                    }
                } else {
                    Err(BlockerView::RemoteNameConflict { local: local_name, remote: branch.name })
                },
            }
        },
    }
}

/// A planning result as plain values.
pub open spec fn plan_view(r: Result<CreateRequest, OpenBlocker>) -> Result<RequestView, BlockerView> {
    match r {
        Ok(request) => Ok(request@),
        Err(blocker) => Err(blocker@),
    }
}

/// Resolves how `branch` is opened, given all branches of the repository.
pub fn plan_open(branch: &Branch, all: &[Branch]) -> (r: Result<CreateRequest, OpenBlocker>)
    ensures
        plan_view(r) == plan_open_spec(branch@, branch_views(all@)),
{
    let ghost views = branch_views(all@);
    match branch.kind {
        BranchKind::Local => {
            if let Some(path) = &branch.checked_out_at {
                return Err(
                    OpenBlocker::AlreadyCheckedOut { branch: branch.name.clone(), path: path.clone() },
                );
            }
            Ok(CreateRequest { branch: branch.name.clone(), base: None, upstream: None })
        },
        BranchKind::Remote => {
            let local_name = derive_local_name(&branch.name);
            let mut k: usize = 0;
            while k < all.len()
                invariant
                    branch.kind == BranchKind::Remote,
                    local_name@ == derived_local_name(branch.name@),
                    k <= all@.len(),
                    views == branch_views(all@),
                    local_index(views, local_name@) == local_index_from(
                        views,
                        local_name@,
                        k as int,
                    ),
                decreases all@.len() - k,
            {
                let candidate = &all[k];
                if candidate.kind == BranchKind::Local && same_text(&candidate.name, &local_name) {
                    if tracks_exec(&candidate.upstream, &branch.name) {
                        if let Some(path) = &candidate.checked_out_at {
                            return Err(
                                OpenBlocker::AlreadyCheckedOut {
                                    branch: candidate.name.clone(),
                                    path: path.clone(),
                                },
                            );
                        }
                        return Ok(
                            CreateRequest {
                                branch: candidate.name.clone(),
                                base: None,
                                upstream: None,
                            },
                        );
                    }
                    return Err(
                        OpenBlocker::RemoteNameConflict {
                            local: local_name,
                            remote: branch.name.clone(),
                        },
                    );
                }
                k += 1;
            }
            Ok(
                CreateRequest {
                    branch: local_name,
                    base: Some(branch.name.clone()),
                    upstream: Some(branch.name.clone()),
                },
            )
        },
    }
}

// ---------------------------------------------------------------------------
// HEAD, names, fetching and upstream tracking.
// ---------------------------------------------------------------------------

/// What `git rev-parse --verify --quiet HEAD` reported about `HEAD`.
#[derive(Clone, Debug, PartialEq, Eq)]
pub enum HeadCheck {
    /// `HEAD` resolves to a commit.
    Resolves,
    /// The repository has no commit yet: `HEAD` is not a valid object name.
    Unborn,
    /// Git failed for another reason (no repository, a broken one, ...),
    /// with its message.
    Failed(String),
}

/// How `git rev-parse --verify --quiet HEAD` ended: success means `HEAD`
/// resolves; with `--quiet`, an invalid `HEAD` makes Git exit with status 1
/// and print nothing, which is an unborn repository; anything else is a Git
/// error, reported with `message`.
pub fn head_check(success: bool, exit_code: Option<i32>, stderr: &str, message: String) -> (r:
    HeadCheck)
    ensures
        success ==> r == HeadCheck::Resolves,
        !success && exit_code == Some(1i32) && stderr@.len() == 0 ==> r == HeadCheck::Unborn,
        !success && !(exit_code == Some(1i32) && stderr@.len() == 0) ==> r == HeadCheck::Failed(
            message,
        ),
{
    if success {
        HeadCheck::Resolves
    } else if exit_code == Some(1i32) && stderr.is_empty() {
        HeadCheck::Unborn
    } else {
        HeadCheck::Failed(message)
    }
}

/// The state of `HEAD`, given what checking `HEAD` reported, the branch
/// `HEAD` names (if it is symbolic), and what resolving `HEAD` to a commit
/// gave: unborn only when the repository has no commit, the Git error when
/// the check failed for any other reason, the named branch when `HEAD` is
/// symbolic, and otherwise the detached commit (or the error resolving it).
pub fn load_head(check: HeadCheck, symbolic: Option<String>, commit: Result<String, String>) -> (r:
    Result<HeadState, String>)
    ensures
        check == HeadCheck::Unborn ==> r == Ok::<HeadState, String>(HeadState::Unborn),
        check matches HeadCheck::Failed(e) ==> r == Err::<HeadState, String>(e),
        check == HeadCheck::Resolves ==> (symbolic matches Some(name) ==> r == Ok::<
            HeadState,
            String,
        >(HeadState::Branch { name })),
        check == HeadCheck::Resolves && symbolic is None ==> match commit {
            Ok(c) => r == Ok::<HeadState, String>(HeadState::Detached { commit: c }),
            Err(e) => r == Err::<HeadState, String>(e),
        },
{
    match check {
        HeadCheck::Unborn => Ok(HeadState::Unborn),
        HeadCheck::Failed(error) => Err(error),
        HeadCheck::Resolves => match symbolic {
            Some(name) => Ok(HeadState::Branch { name }),
            None => match commit {
                Ok(commit) => Ok(HeadState::Detached { commit }),
                Err(error) => Err(error),
            },
        },
    }
}

/// The branches after `git fetch --all --prune`: the fetch's error when it
/// failed, and otherwise the reloaded branch list (or the error reloading it).
pub fn fetch_all(fetched: Result<(), String>, reloaded: Result<Vec<Branch>, String>) -> (r: Result<
    Vec<Branch>,
    String,
>)
    ensures
        fetched is Err ==> r == Err::<Vec<Branch>, String>(fetched->Err_0),
        fetched is Ok ==> r == reloaded,
{
    match fetched {
        Err(error) => Err(error),
        Ok(()) => reloaded,
    }
}

/// The answer to "is this a valid branch name?": an empty name is refused
/// with its own message; otherwise Git's `check-ref-format --branch` decides.
pub open spec fn validate_branch_name_spec(name: Seq<char>, ref_format: Result<(), String>) -> Result<
    (),
    Seq<char>,
> {
    if name.len() == 0 {
        Err("Branch name is required"@)
    } else {
        match ref_format {
            Ok(()) => Ok(()),
            Err(e) => Err(e@),
        }
    }
}

/// The view of a validation result.
pub open spec fn result_view(r: Result<(), String>) -> Result<(), Seq<char>> {
    match r {
        Ok(()) => Ok(()),
        Err(e) => Err(e@),
    }
}

/// Whether `name` is a valid branch name, `ref_format` being what Git's
/// `check-ref-format --branch` answered for it.
pub fn validate_branch_name(name: &str, ref_format: Result<(), String>) -> (r: Result<(), String>)
    ensures
        result_view(r) == validate_branch_name_spec(name@, ref_format),
{
    if name.is_empty() {
        return Err(String::from_str("Branch name is required"));
    }
    ref_format
}

/// The answer to "may a new branch of this name be created?": the name must
/// be valid and no local branch may have it.
pub open spec fn validate_new_branch_name_spec(
    name: Seq<char>,
    ref_format: Result<(), String>,
    exists_locally: bool,
) -> Result<(), Seq<char>> {
    match validate_branch_name_spec(name, ref_format) {
        Err(e) => Err(e),
        Ok(()) => if exists_locally {
            Err("Branch “"@ + name + "” already exists locally"@)
        } else {
            Ok(())
        },
    }
}

/// Whether a new branch named `name` may be created, `ref_format` being
/// Git's verdict on the name and `exists_locally` whether a local branch
/// of that name exists.
pub fn validate_new_branch_name(name: &str, ref_format: Result<(), String>, exists_locally: bool) -> (r:
    Result<(), String>)
    ensures
        result_view(r) == validate_new_branch_name_spec(name@, ref_format, exists_locally),
{
    let valid = validate_branch_name(name, ref_format);
    match valid {
        Err(e) => Err(e),
        Ok(()) => {
            if exists_locally {
                let mut message = String::from_str("Branch “");
                message.append(name);
                message.append("” already exists locally");
                Err(message)
            } else {
                Ok(())
            }
        },
    }
}

/// The upstream read from `for-each-ref --format=%(upstream:short)`: none
/// when the output is empty.
pub fn upstream_of(output: String) -> (r: Option<String>)
    ensures
        output@.len() == 0 ==> r is None,
        output@.len() > 0 ==> r == Some(output),
{
    if output.as_str().is_empty() {
        None
    } else {
        Some(output)
    }
}

/// Whether the upstream read before any change must be repaired: it was read
/// and is not exactly `remote`.
pub open spec fn upstream_needs_repair_spec(before: Result<Option<String>, String>, remote: Seq<char>) -> bool {
    match before {
        Ok(upstream) => opt_view(upstream) != Some(remote),
        Err(_) => false,
    }
}

/// Whether the upstream read before any change must be repaired.
pub fn upstream_needs_repair(before: &Result<Option<String>, String>, remote: &String) -> (r: bool)
    ensures
        r == upstream_needs_repair_spec(*before, remote@),
{
    match before {
        Ok(upstream) => !tracks_exec(upstream, remote),
        Err(_) => false,
    }
}

/// The message when the upstream still differs after the repair.
pub open spec fn repair_failed_message(local: Seq<char>, remote: Seq<char>) -> Seq<char> {
    "Could not set upstream of "@ + local + " to "@ + remote + " after repair"@
}

/// The outcome of making `local` track exactly `remote`. `before` is the
/// upstream read first; when it must be repaired, `after` is what reading the
/// upstream gave after `git branch --set-upstream-to` (or that command's
/// error). A read error is returned as it is; the repair succeeds only when
/// the upstream read afterwards is exactly `remote`.
pub fn verify_or_set_upstream(
    local: &String,
    remote: &String,
    before: Result<Option<String>, String>,
    after: Option<Result<Option<String>, String>>,
) -> (r: Result<(), String>)
    requires
        after is Some <==> upstream_needs_repair_spec(before, remote@),
    ensures
        before is Err ==> r == Err::<(), String>(before->Err_0),
        before matches Ok(u) && opt_view(u) == Some(remote@) ==> r is Ok,
        after matches Some(Err(e)) ==> r == Err::<(), String>(e),
        after matches Some(Ok(u)) && opt_view(u) == Some(remote@) ==> r is Ok,
        after matches Some(Ok(u)) && opt_view(u) != Some(remote@) ==> (r matches Err(e) && e@
            == repair_failed_message(local@, remote@)),
{
    match before {
        Err(e) => Err(e),
        Ok(upstream) => {
            if tracks_exec(&upstream, remote) {
                return Ok(());
            }
            match after {
                None => Ok(()),
                Some(Err(e)) => Err(e),
                Some(Ok(upstream)) => {
                    if tracks_exec(&upstream, remote) {
                        Ok(())
                    } else {
                        let mut message = String::from_str("Could not set upstream of ");
                        message.append(local.as_str());
                        message.append(" to ");
                        message.append(remote.as_str());
                        message.append(" after repair");
                        Err(message)
                    }
                },
            }
        },
    }
}

/// The remote whose tracking must be checked after a creation: the
/// request's required upstream, once Herdr has created the worktree; none
/// when the creation failed or no upstream is required.
pub fn tracking_to_verify(created: &Result<(), String>, request: &CreateRequest) -> (r: Option<
    String,
>)
    ensures
        created is Ok ==> r == request.upstream,
        created is Err ==> r is None,
{
    match created {
        Ok(()) => crate::text::copy_opt(&request.upstream),
        Err(_) => None,
    }
}

/// How a creation ended: Herdr's error is an ordinary failure; once Herdr
/// has created the worktree, a failed upstream check is a partial success
/// with a tracking warning.
pub fn create_outcome(created: Result<(), String>, tracking: Option<Result<(), String>>) -> (r:
    CreateResult)
    ensures
        created is Err ==> r == CreateResult::Failed(created->Err_0),
        created is Ok && (tracking is None || tracking == Some(Ok::<(), String>(()))) ==> r
            == CreateResult::Succeeded,
        created is Ok ==> (tracking matches Some(Err(e)) ==> r
            == CreateResult::SucceededWithTrackingWarning(e)),
{
    match created {
        Err(error) => CreateResult::Failed(error),
        Ok(()) => match tracking {
            None => CreateResult::Succeeded,
            Some(Ok(())) => CreateResult::Succeeded,
            Some(Err(error)) => CreateResult::SucceededWithTrackingWarning(error),
        },
    }
}


// ---------------------------------------------------------------------------
// Worktrees.
// ---------------------------------------------------------------------------

/// The (branch, path) pairs of worktrees as text.
pub open spec fn pair_views(v: Seq<(String, String)>) -> Seq<(Seq<char>, Seq<char>)> {
    v.map_values(|p: (String, String)| (p.0@, p.1@))
}

/// One line of `git worktree list --porcelain` read into the scan state:
/// the path of the worktree being read, and the (branch, path) pairs so far.
/// A `worktree <path>` line starts a worktree; a `branch refs/heads/<name>`
/// line records the branch for the pending path and ends it; a blank line
/// ends it.
pub open spec fn worktree_step(
    state: (Option<Seq<char>>, Seq<(Seq<char>, Seq<char>)>),
    line: Seq<char>,
) -> (Option<Seq<char>>, Seq<(Seq<char>, Seq<char>)>) {
    match strip_prefix_spec(line, "worktree "@) {
        Some(path) => (Some(path), state.1),
        None => match strip_prefix_spec(line, "branch refs/heads/"@) {
            Some(branch) => match state.0 {
                Some(path) => (None, state.1.push((branch, path))),
                None => (None, state.1),
            },
            None => if line.len() == 0 {
                (None, state.1)
            } else {
                state
            },
        },
    }
}

/// The scan state after the given lines.
pub open spec fn worktree_scan(lines: Seq<Seq<char>>) -> (
    Option<Seq<char>>,
    Seq<(Seq<char>, Seq<char>)>,
)
    decreases lines.len(),
{
    if lines.len() == 0 {
        (None, Seq::empty())
    } else {
        worktree_step(worktree_scan(lines.drop_last()), lines.last())
    }
}

/// The (branch, path) pairs that `git worktree list --porcelain` output
/// records, in order.
pub open spec fn worktrees_spec(output: Seq<char>) -> Seq<(Seq<char>, Seq<char>)> {
    worktree_scan(lines_spec(output)).1
}

/// The path of the worktree that has `branch` checked out: the last pair
/// recorded for it.
pub open spec fn worktree_path(entries: Seq<(Seq<char>, Seq<char>)>, branch: Seq<char>) -> Option<
    Seq<char>,
>
    decreases entries.len(),
{
    if entries.len() == 0 {
        None
    } else if entries.last().0 == branch {
        Some(entries.last().1)
    } else {
        worktree_path(entries.drop_last(), branch)
    }
}

/// The branches checked out in worktrees, read from
/// `git worktree list --porcelain` output, as (branch, path) pairs.
pub fn load_worktrees(output: &str) -> (r: Vec<(String, String)>)
    ensures
        pair_views(r@) == worktrees_spec(output@),
{
    let chars = chars_of(output);
    let lines = split_lines(&chars);
    let ghost all = vec_views(lines@);
    let mut entries: Vec<(String, String)> = Vec::new();
    let mut path: Option<String> = None;
    let mut i: usize = 0;
    while i < lines.len()
        invariant
            i <= lines@.len(),
            all == vec_views(lines@),
            all == lines_spec(output@),
            (opt_view(path), pair_views(entries@)) == worktree_scan(all.take(i as int)),
        decreases lines@.len() - i,
    {
        let line = &lines[i];
        assert(all.take(i + 1).drop_last() =~= all.take(i as int));
        assert(all.take(i + 1).last() == line@);
        let ghost before = entries@;
        match strip_prefix(line, "worktree ") {
            Some(value) => {
                path = Some(value);
            },
            None => match strip_prefix(line, "branch refs/heads/") {
                Some(value) => {
                    match path {
                        Some(p) => {
                            entries.push((value, p));
                            assert(pair_views(entries@) =~= pair_views(before).push(
                                (value@, p@),
                            ));
                        },
                        None => {},
                    }
                    path = None;
                },
                None => {
                    if line.len() == 0 {
                        path = None;
                    }
                },
            },
        }
        i += 1;
    }
    assert(all.take(lines@.len() as int) =~= all);
    entries
}

/// The path of the worktree that has `branch` checked out.
pub fn find_worktree(entries: &Vec<(String, String)>, branch: &String) -> (r: Option<String>)
    ensures
        opt_view(r) == worktree_path(pair_views(entries@), branch@),
{
    let mut k = entries.len();
    assert(entries@.take(k as int) =~= entries@);
    while k > 0
        invariant
            k <= entries@.len(),
            worktree_path(pair_views(entries@), branch@) == worktree_path(
                pair_views(entries@.take(k as int)),
                branch@,
            ),
        decreases k,
    {
        let ghost taken = pair_views(entries@.take(k as int));
        assert(taken.last() == (entries@[k - 1].0@, entries@[k - 1].1@));
        assert(taken.drop_last() =~= pair_views(entries@.take(k - 1)));
        if same_text(&entries[k - 1].0, branch) {
            return Some(entries[k - 1].1.clone());
        }
        k -= 1;
    }
    None
}

// ---------------------------------------------------------------------------
// Branch lists.
// ---------------------------------------------------------------------------

/// The commit time read from a field: its integer value, or 0 when it is not
/// a valid `i64`.
pub open spec fn time_of(field: Seq<char>) -> i64 {
    match parse_i64_spec(field) {
        Some(t) => t,
        None => 0,
    }
}

/// The local branch read from one `%(refname:short)\t%(upstream:short)\t
/// %(committerdate:unix)` line.
pub open spec fn local_view(
    line: Seq<char>,
    current: Option<Seq<char>>,
    worktrees: Seq<(Seq<char>, Seq<char>)>,
) -> BranchView {
    BranchView {
        kind: BranchKind::Local,
        name: field0(line),
        upstream: if field1(line).len() == 0 {
            None
        } else {
            Some(field1(line))
        },
        checked_out_at: worktree_path(worktrees, field0(line)),
        is_current: current == Some(field0(line)),
        committer_time: time_of(field2(line)),
    }
}

/// The local branches read from the non-empty lines, in order.
pub open spec fn local_views(
    lines: Seq<Seq<char>>,
    current: Option<Seq<char>>,
    worktrees: Seq<(Seq<char>, Seq<char>)>,
) -> Seq<BranchView>
    decreases lines.len(),
{
    if lines.len() == 0 {
        Seq::empty()
    } else {
        let rest = local_views(lines.drop_last(), current, worktrees);
        if lines.last().len() == 0 {
            rest
        } else {
            rest.push(local_view(lines.last(), current, worktrees))
        }
    }
}

/// The remote branch read from one `%(refname:short)\t%(symref)\t
/// %(committerdate:unix)` line; a symbolic ref (such as `origin/HEAD`) gives
/// none.
pub open spec fn remote_view(line: Seq<char>) -> Option<BranchView> {
    if field1(line).len() == 0 {
        Some(
            BranchView {
                kind: BranchKind::Remote,
                name: field0(line),
                upstream: None,
                checked_out_at: None,
                is_current: false,
                committer_time: time_of(field2(line)),
            },
        )
    } else {
        None
    }
}

/// The remote branches read from the lines, in order.
pub open spec fn remote_views(lines: Seq<Seq<char>>) -> Seq<BranchView>
    decreases lines.len(),
{
    if lines.len() == 0 {
        Seq::empty()
    } else {
        let rest = remote_views(lines.drop_last());
        match remote_view(lines.last()) {
            Some(b) => rest.push(b),
            None => rest,
        }
    }
}

/// Whether `a` sorts before or with `b` by character codes, as `String`
/// ordering compares them.
pub open spec fn name_le(a: Seq<char>, b: Seq<char>) -> bool
    decreases a.len(),
{
    if a.len() == 0 {
        true
    } else if b.len() == 0 {
        false
    } else if a[0] != b[0] {
        a[0] < b[0]
    } else {
        name_le(a.drop_first(), b.drop_first())
    }
}

pub proof fn lemma_name_le_total(a: Seq<char>, b: Seq<char>)
    ensures
        name_le(a, b) || name_le(b, a),
    decreases a.len(),
{
    if a.len() > 0 && b.len() > 0 {
        if a[0] == b[0] {
            lemma_name_le_total(a.drop_first(), b.drop_first());
        }
    }
}

pub proof fn lemma_name_le_transitive(a: Seq<char>, b: Seq<char>, c: Seq<char>)
    requires
        name_le(a, b),
        name_le(b, c),
    ensures
        name_le(a, c),
    decreases a.len(),
{
    if a.len() > 0 && b.len() > 0 && c.len() > 0 && a[0] == b[0] && b[0] == c[0] {
        lemma_name_le_transitive(a.drop_first(), b.drop_first(), c.drop_first());
    }
}

/// Whether `a` sorts before or with `b` in a branch list: the current branch
/// first, then newer commits first, then names in ascending order.
pub open spec fn branch_le(a: BranchView, b: BranchView) -> bool {
    if a.is_current != b.is_current {
        a.is_current
    } else if a.committer_time != b.committer_time {
        a.committer_time > b.committer_time
    } else {
        name_le(a.name, b.name)
    }
}

pub proof fn lemma_branch_le_total(a: BranchView, b: BranchView)
    ensures
        branch_le(a, b) || branch_le(b, a),
{
    lemma_name_le_total(a.name, b.name);
}

pub proof fn lemma_branch_le_transitive(a: BranchView, b: BranchView, c: BranchView)
    requires
        branch_le(a, b),
        branch_le(b, c),
    ensures
        branch_le(a, c),
{
    if a.is_current == b.is_current && b.is_current == c.is_current && a.committer_time
        == b.committer_time && b.committer_time == c.committer_time {
        lemma_name_le_transitive(a.name, b.name, c.name);
    }
}

/// Whether the list is in branch order.
pub open spec fn sorted_branches(s: Seq<BranchView>) -> bool {
    forall|i: int, j: int| 0 <= i < j < s.len() ==> branch_le(#[trigger] s[i], #[trigger] s[j])
}

fn name_le_exec(a: &String, b: &String) -> (r: bool)
    ensures
        r == name_le(a@, b@),
{
    let x = chars_of(a.as_str());
    let y = chars_of(b.as_str());
    let mut i: usize = 0;
    assert(x@.skip(0) =~= x@);
    assert(y@.skip(0) =~= y@);
    while i < x.len() && i < y.len()
        invariant
            x@ == a@,
            y@ == b@,
            i <= x@.len(),
            i <= y@.len(),
            x@.take(i as int) == y@.take(i as int),
            name_le(x@, y@) == name_le(x@.skip(i as int), y@.skip(i as int)),
        decreases x@.len() - i,
    {
        assert(x@.skip(i as int)[0] == x@[i as int]);
        assert(y@.skip(i as int)[0] == y@[i as int]);
        if x[i] != y[i] {
            assert(x@.skip(i as int).len() > 0 && y@.skip(i as int).len() > 0);
            assert(name_le(x@.skip(i as int), y@.skip(i as int)) == (x@[i as int] < y@[i as int]));
            let res = x[i] < y[i];
            assert(res == (x@[i as int] < y@[i as int]));
            return res;
        }
        assert(x@.skip(i as int).drop_first() =~= x@.skip(i + 1));
        assert(y@.skip(i as int).drop_first() =~= y@.skip(i + 1));
        assert(x@.take(i + 1) =~= x@.take(i as int).push(x@[i as int]));
        assert(y@.take(i + 1) =~= y@.take(i as int).push(y@[i as int]));
        i += 1;
    }
    i == x.len()
}

fn branch_le_exec(a: &Branch, b: &Branch) -> (r: bool)
    ensures
        r == branch_le(a@, b@),
{
    if a.is_current != b.is_current {
        a.is_current
    } else if a.committer_time != b.committer_time {
        a.committer_time > b.committer_time
    } else {
        name_le_exec(&a.name, &b.name)
    }
}

proof fn lemma_views_insert(s: Seq<Branch>, k: int, b: Branch)
    requires
        0 <= k <= s.len(),
    ensures
        branch_views(s.insert(k, b)) == branch_views(s).insert(k, b@),
{
    assert(branch_views(s.insert(k, b)) =~= branch_views(s).insert(k, b@));
}

/// Inserts `b` after every element that sorts with or before it, keeping
/// the list in branch order.
fn insert_sorted(sorted: &mut Vec<Branch>, b: Branch)
    requires
        sorted_branches(branch_views(old(sorted)@)),
    ensures
        sorted_branches(branch_views(final(sorted)@)),
        branch_views(final(sorted)@).to_multiset() == branch_views(old(sorted)@).to_multiset().insert(
            b@,
        ),
        final(sorted)@.len() == old(sorted)@.len() + 1,
{
    let ghost old_views = branch_views(sorted@);
    let mut k: usize = 0;
    while k < sorted.len() && branch_le_exec(&sorted[k], &b)
        invariant
            k <= sorted@.len(),
            sorted@ == old(sorted)@,
            old_views == branch_views(sorted@),
            forall|i: int| 0 <= i < k ==> branch_le(#[trigger] old_views[i], b@),
        decreases sorted@.len() - k,
    {
        k += 1;
    }
    let ghost bv = b@;
    proof {
        if k < old_views.len() {
            assert(!branch_le(old_views[k as int], bv));
            lemma_branch_le_total(old_views[k as int], bv);
            assert forall|j: int| k <= j < old_views.len() implies branch_le(bv, #[trigger] old_views[j]) by {
                if j > k {
                    lemma_branch_le_total(old_views[j], bv);
                    if branch_le(old_views[j], bv) {
                        lemma_branch_le_transitive(old_views[k as int], old_views[j], bv);
                    }
                }
            }
        }
    }
    sorted.insert(k, b);
    proof {
        lemma_views_insert(old(sorted)@, k as int, b);
        let nv = branch_views(sorted@);
        assert(nv == old_views.insert(k as int, bv));
        assert forall|i: int, j: int| 0 <= i < j < nv.len() implies branch_le(#[trigger] nv[i], #[trigger] nv[j]) by {
            if j < k {
                assert(nv[i] == old_views[i] && nv[j] == old_views[j]);
            } else if j == k {
                assert(nv[j] == bv && nv[i] == old_views[i]);
            } else if i == k {
                assert(nv[i] == bv && nv[j] == old_views[j - 1]);
            } else if i < k {
                assert(nv[i] == old_views[i] && nv[j] == old_views[j - 1]);
            } else {
                assert(nv[i] == old_views[i - 1] && nv[j] == old_views[j - 1]);
            }
        }
        vstd::seq_lib::to_multiset_insert(old_views, k as int, bv);
    }
}

/// The branches of `v` in branch order.
pub fn sort_branches(v: &Vec<Branch>) -> (r: Vec<Branch>)
    ensures
        sorted_branches(branch_views(r@)),
        branch_views(r@).to_multiset() == branch_views(v@).to_multiset(),
        r@.len() == v@.len(),
{
    let mut out: Vec<Branch> = Vec::new();
    let mut i: usize = 0;
    assert(branch_views(out@) =~= branch_views(v@.take(0)));
    while i < v.len()
        invariant
            i <= v@.len(),
            out@.len() == i,
            sorted_branches(branch_views(out@)),
            branch_views(out@).to_multiset() == branch_views(v@.take(i as int)).to_multiset(),
        decreases v@.len() - i,
    {
        let b = v[i].duplicate();
        insert_sorted(&mut out, b);
        proof {
            assert(branch_views(v@.take(i + 1)) =~= branch_views(v@.take(i as int)).push(v@[i as int]@));
            vstd::seq_lib::to_multiset_build(branch_views(v@.take(i as int)), v@[i as int]@);
        }
        i += 1;
    }
    assert(v@.take(v@.len() as int) =~= v@);
    out
}


/// Whether `out` holds the branches of `input` in branch order.
pub open spec fn is_sorting_of(out: Seq<BranchView>, input: Seq<BranchView>) -> bool {
    &&& out.len() == input.len()
    &&& sorted_branches(out)
    &&& out.to_multiset() == input.to_multiset()
}

fn time_field(field: &String) -> (t: i64)
    ensures
        t == time_of(field@),
{
    let v = chars_of(field.as_str());
    match parse_i64(&v) {
        Some(t) => t,
        None => 0,
    }
}

fn read_locals(
    lines: &Vec<Vec<char>>,
    current: &Option<String>,
    worktrees: &Vec<(String, String)>,
) -> (r: Vec<Branch>)
    ensures
        branch_views(r@) == local_views(vec_views(lines@), opt_view(*current), pair_views(worktrees@)),
{
    let ghost all = vec_views(lines@);
    let ghost wts = pair_views(worktrees@);
    let mut out: Vec<Branch> = Vec::new();
    let mut i: usize = 0;
    assert(all.take(0) =~= Seq::<Seq<char>>::empty());
    assert(branch_views(out@) =~= Seq::<BranchView>::empty());
    while i < lines.len()
        invariant
            i <= lines@.len(),
            all == vec_views(lines@),
            wts == pair_views(worktrees@),
            branch_views(out@) == local_views(all.take(i as int), opt_view(*current), wts),
        decreases lines@.len() - i,
    {
        let line = &lines[i];
        assert(all.take(i + 1).drop_last() =~= all.take(i as int));
        assert(all.take(i + 1).last() == line@);
        if line.len() > 0 {
            let (name, upstream_field, time_text) = split_fields3(line);
            let upstream = if upstream_field.as_str().is_empty() {
                None
            } else {
                Some(upstream_field)
            };
            let committer_time = time_field(&time_text);
            let checked_out_at = find_worktree(worktrees, &name);
            let is_current = match current {
                Some(c) => same_text(c, &name),
                None => false,
            };
            let branch = Branch {
                kind: BranchKind::Local,
                name,
                upstream,
                checked_out_at,
                is_current,
                committer_time,
            };
            let ghost before = out@;
            out.push(branch);
            assert(branch_views(out@) =~= branch_views(before).push(branch@));
            assert(branch@ == local_view(line@, opt_view(*current), wts));
        }
        i += 1;
    }
    assert(all.take(lines@.len() as int) =~= all);
    out
}

fn read_remotes(lines: &Vec<Vec<char>>) -> (r: Vec<Branch>)
    ensures
        branch_views(r@) == remote_views(vec_views(lines@)),
{
    let ghost all = vec_views(lines@);
    let mut out: Vec<Branch> = Vec::new();
    let mut i: usize = 0;
    assert(all.take(0) =~= Seq::<Seq<char>>::empty());
    assert(branch_views(out@) =~= Seq::<BranchView>::empty());
    while i < lines.len()
        invariant
            i <= lines@.len(),
            all == vec_views(lines@),
            branch_views(out@) == remote_views(all.take(i as int)),
        decreases lines@.len() - i,
    {
        let line = &lines[i];
        assert(all.take(i + 1).drop_last() =~= all.take(i as int));
        assert(all.take(i + 1).last() == line@);
        let (name, symbolic, time_text) = split_fields3(line);
        if symbolic.as_str().is_empty() {
            let committer_time = time_field(&time_text);
            let branch = Branch {
                kind: BranchKind::Remote,
                name,
                upstream: None,
                checked_out_at: None,
                is_current: false,
                committer_time,
            };
            let ghost before = out@;
            out.push(branch);
            assert(branch_views(out@) =~= branch_views(before).push(branch@));
        }
        i += 1;
    }
    assert(all.take(lines@.len() as int) =~= all);
    out
}

/// Two neighbours of one group that is not the current branch: the newer
/// commit first, then names in ascending order.
pub open spec fn group_order(a: BranchView, b: BranchView) -> bool {
    a.committer_time > b.committer_time || (a.committer_time == b.committer_time && name_le(
        a.name,
        b.name,
    ))
}

/// Locals first, then remotes, none of which is current.
pub open spec fn kinds_in_order(out: Seq<BranchView>, locals: int) -> bool {
    &&& forall|i: int| 0 <= i < locals ==> (#[trigger] out[i]).kind == BranchKind::Local
    &&& forall|i: int|
        locals <= i < out.len() ==> (#[trigger] out[i]).kind == BranchKind::Remote
            && !out[i].is_current
}

/// The current branch, if listed, stands first.
pub open spec fn current_first(out: Seq<BranchView>) -> bool {
    (exists|i: int| 0 <= i < out.len() && (#[trigger] out[i]).is_current) ==> out[0].is_current
}

/// Every neighbouring pair of one kind after the current branch is in group
/// order.
pub open spec fn neighbours_in_order(out: Seq<BranchView>) -> bool {
    forall|i: int|
        0 <= i < out.len() - 1 && !(#[trigger] out[i]).is_current && out[i].kind == out[i
            + 1].kind ==> !out[i + 1].is_current && group_order(out[i], out[i + 1])
}

/// The shape of a branch list whose first `locals` entries are the local
/// branches: locals, then remotes; the current branch, if listed, first;
/// and every other neighbouring pair of one kind in group order.
pub open spec fn list_shape(out: Seq<BranchView>, locals: int) -> bool {
    &&& kinds_in_order(out, locals)
    &&& current_first(out)
    &&& neighbours_in_order(out)
}

proof fn lemma_local_views_kind(
    lines: Seq<Seq<char>>,
    current: Option<Seq<char>>,
    worktrees: Seq<(Seq<char>, Seq<char>)>,
)
    ensures
        forall|i: int|
            0 <= i < local_views(lines, current, worktrees).len() ==> (#[trigger] local_views(
                lines,
                current,
                worktrees,
            )[i]).kind == BranchKind::Local,
    decreases lines.len(),
{
    if lines.len() > 0 {
        lemma_local_views_kind(lines.drop_last(), current, worktrees);
    }
}

proof fn lemma_remote_views_kind(lines: Seq<Seq<char>>)
    ensures
        forall|i: int|
            0 <= i < remote_views(lines).len() ==> (#[trigger] remote_views(lines)[i]).kind
                == BranchKind::Remote && !remote_views(lines)[i].is_current,
    decreases lines.len(),
{
    if lines.len() > 0 {
        lemma_remote_views_kind(lines.drop_last());
    }
}

/// An entry of a sorting of `input` is an entry of `input`.
proof fn lemma_sorting_member(out: Seq<BranchView>, input: Seq<BranchView>, i: int) -> (j: int)
    requires
        is_sorting_of(out, input),
        0 <= i < out.len(),
    ensures
        0 <= j < input.len(),
        input[j] == out[i],
{
    vstd::seq_lib::to_multiset_contains(out, out[i]);
    vstd::seq_lib::to_multiset_contains(input, out[i]);
    assert(out.contains(out[i]));
    choose|j: int| 0 <= j < input.len() && input[j] == out[i]
}

spec fn shape_premises(out: Seq<BranchView>, locals: Seq<BranchView>, remotes: Seq<BranchView>) -> bool {
    &&& out.len() == locals.len() + remotes.len()
    &&& is_sorting_of(out.take(locals.len() as int), locals)
    &&& is_sorting_of(out.skip(locals.len() as int), remotes)
    &&& forall|i: int| 0 <= i < locals.len() ==> (#[trigger] locals[i]).kind == BranchKind::Local
    &&& forall|i: int|
        0 <= i < remotes.len() ==> (#[trigger] remotes[i]).kind == BranchKind::Remote
            && !remotes[i].is_current
}

#[verifier::spinoff_prover]
proof fn lemma_shape_kinds(out: Seq<BranchView>, locals: Seq<BranchView>, remotes: Seq<BranchView>)
    requires
        shape_premises(out, locals, remotes),
    ensures
        kinds_in_order(out, locals.len() as int),
{
    let n = locals.len() as int;
    let front = out.take(n);
    let back = out.skip(n);
    assert forall|i: int| 0 <= i < n implies (#[trigger] out[i]).kind == BranchKind::Local by {
        assert(front[i] == out[i]);
        let j = lemma_sorting_member(front, locals, i);
    }
    assert forall|i: int| n <= i < out.len() implies (#[trigger] out[i]).kind == BranchKind::Remote
        && !out[i].is_current by {
        assert(back[i - n] == out[i]);
        let j = lemma_sorting_member(back, remotes, i - n);
    }
}

#[verifier::spinoff_prover]
proof fn lemma_shape_current(out: Seq<BranchView>, locals: Seq<BranchView>, remotes: Seq<BranchView>)
    requires
        shape_premises(out, locals, remotes),
        kinds_in_order(out, locals.len() as int),
    ensures
        current_first(out),
{
    let n = locals.len() as int;
    let front = out.take(n);
    if exists|i: int| 0 <= i < out.len() && (#[trigger] out[i]).is_current {
        let i = choose|i: int| 0 <= i < out.len() && (#[trigger] out[i]).is_current;
        if i > 0 {
            assert(i < n);
            assert(front[0] == out[0] && front[i] == out[i]);
            assert(branch_le(front[0], front[i]));
        }
    }
}

#[verifier::spinoff_prover]
proof fn lemma_shape_neighbours(out: Seq<BranchView>, locals: Seq<BranchView>, remotes: Seq<BranchView>)
    requires
        shape_premises(out, locals, remotes),
        kinds_in_order(out, locals.len() as int),
    ensures
        neighbours_in_order(out),
{
    let n = locals.len() as int;
    let front = out.take(n);
    let back = out.skip(n);
    assert forall|i: int|
        0 <= i < out.len() - 1 && !(#[trigger] out[i]).is_current && out[i].kind == out[i
            + 1].kind implies !out[i + 1].is_current && group_order(out[i], out[i + 1]) by {
        if i + 1 < n {
            assert(front[i] == out[i] && front[i + 1] == out[i + 1]);
            assert(branch_le(front[i], front[i + 1]));
        } else if i >= n {
            assert(back[i - n] == out[i] && back[i + 1 - n] == out[i + 1]);
            assert(branch_le(back[i - n], back[i + 1 - n]));
        } else {
            assert(out[i].kind == BranchKind::Local);
            assert(out[i + 1].kind == BranchKind::Remote);
        }
    }
}

proof fn lemma_list_shape(out: Seq<BranchView>, locals: Seq<BranchView>, remotes: Seq<BranchView>)
    requires
        shape_premises(out, locals, remotes),
    ensures
        list_shape(out, locals.len() as int),
{
    lemma_shape_kinds(out, locals, remotes);
    lemma_shape_current(out, locals, remotes);
    lemma_shape_neighbours(out, locals, remotes);
}

/// The branch list shown by the pickers, read from Git's answers: the branch
/// `HEAD` names (if any), the `git worktree list --porcelain` output, and the
/// `for-each-ref` lines of local heads (`name\tupstream\ttime`) and of
/// remote refs (`name\tsymref\ttime`). Local branches come first, then
/// remote branches other than symbolic refs; each group is in branch order
/// (current first, newest commit first, then by name).
pub fn load_branches(current: Option<String>, worktree_list: &str, locals: &str, remotes: &str) -> (r:
    Vec<Branch>)
    ensures
        ({
            let local_list = local_views(
                lines_spec(locals@),
                opt_view(current),
                worktrees_spec(worktree_list@),
            );
            let remote_list = remote_views(lines_spec(remotes@));
            let out = branch_views(r@);
            &&& out.len() == local_list.len() + remote_list.len()
            &&& is_sorting_of(out.take(local_list.len() as int), local_list)
            &&& is_sorting_of(out.skip(local_list.len() as int), remote_list)
            &&& list_shape(out, local_list.len() as int)
        }),
{
    let worktrees = load_worktrees(worktree_list);
    let local_chars = chars_of(locals);
    let local_lines = split_lines(&local_chars);
    let local_list = read_locals(&local_lines, &current, &worktrees);
    let mut sorted_locals = sort_branches(&local_list);
    let remote_chars = chars_of(remotes);
    let remote_lines = split_lines(&remote_chars);
    let remote_list = read_remotes(&remote_lines);
    let mut sorted_remotes = sort_branches(&remote_list);
    let ghost a = sorted_locals@;
    let ghost b = sorted_remotes@;
    sorted_locals.append(&mut sorted_remotes);
    proof {
        let local_views_all = local_views(
            lines_spec(locals@),
            opt_view(current),
            worktrees_spec(worktree_list@),
        );
        lemma_local_views_kind(lines_spec(locals@), opt_view(current), worktrees_spec(worktree_list@));
        lemma_remote_views_kind(lines_spec(remotes@));
        assert(sorted_locals@ == a + b);
        assert(branch_views(a + b) =~= branch_views(a) + branch_views(b));
        assert(branch_views(a + b).take(a.len() as int) =~= branch_views(a));
        assert(branch_views(a + b).skip(a.len() as int) =~= branch_views(b));
        lemma_list_shape(
            branch_views(a + b),
            local_views_all,
            remote_views(lines_spec(remotes@)),
        );
    }
    sorted_locals
}

} // verus!

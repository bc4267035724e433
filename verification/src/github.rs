//! Open GitHub pull requests as worktrees: what the picker reads from the
//! GitHub CLI's answers, the local branch name it gives a pull request, and
//! how it checks a pull request before creating its worktree.
use vstd::prelude::*;

use crate::domain::CreateRequest;
use vstd::string::StringSliceAdditionalSpecFns;
use crate::json::{get_spec, path_spec, str_spec, u64_spec, bool_spec, Json};
use crate::text::{
    char_alphanumeric, char_pos, chars_of, count_string, decimal, decimal_string, is_alphanumeric,
    join2, join3,
    lowercase, opt_view, seq_contains, str_lowercase,
};

verus! {

/// The message shown when the GitHub CLI is missing.
pub open spec fn gh_required() -> Seq<char> {
    "GitHub CLI (gh) is required. Install it and run gh auth login."@
}

/// How many pull requests the picker shows at most.
pub const DISPLAY_LIMIT: usize = 1000;

/// The GitHub repository of the checkout.
#[derive(Clone, Debug, PartialEq, Eq)]
pub struct GitHubRepository {
    pub host: String,
    pub name_with_owner: String,
    pub fetch_remote: String,
}

/// An open pull request as listed.
#[derive(Clone, Debug, PartialEq, Eq)]
pub struct PullRequest {
    pub number: u64,
    pub title: String,
    pub author: String,
    pub head_label: String,
    pub is_draft: bool,
    pub updated_at: String,
}

/// The open pull requests of a repository, most recently updated first.
#[derive(Clone, Debug, PartialEq, Eq)]
pub struct PullRequestList {
    pub repository: GitHubRepository,
    pub items: Vec<PullRequest>,
    /// Whether more pull requests are open than are shown.
    pub truncated: bool,
}

/// A pull request checked and ready to be created as a worktree.
#[derive(Clone, Debug, PartialEq, Eq)]
pub struct PreparedPullRequest {
    pub number: u64,
    pub title: String,
    pub request: CreateRequest,
}

// ---------------------------------------------------------------------------
// Messages and fields.
// ---------------------------------------------------------------------------

/// An error from the GitHub CLI in the context of an operation: the message
/// about a missing CLI stands alone, every other error follows the
/// operation's name.
pub open spec fn contextualize_spec(operation: Seq<char>, error: Seq<char>) -> Seq<char> {
    if error == gh_required() {
        error
    } else {
        operation + ": "@ + error
    }
}

/// An error from the GitHub CLI in the context of an operation.
pub fn contextualize(operation: &str, error: String) -> (r: String)
    ensures
        r@ == contextualize_spec(operation@, error@),
{
    let required = String::from_str("GitHub CLI (gh) is required. Install it and run gh auth login.");
    if crate::text::same_text(&error, &required) {
        error
    } else {
        join3(operation, ": ", error.as_str())
    }
}

/// A non-empty string member of a GitHub CLI answer, or the error naming the
/// missing field.
pub open spec fn required_spec(value: Json, field: Seq<char>) -> Result<Seq<char>, Seq<char>> {
    match str_spec(get_spec(value, field)) {
        Some(s) => if s.len() > 0 {
            Ok(s)
        } else {
            Err("gh response is missing "@ + field)
        },
        None => Err("gh response is missing "@ + field),
    }
}

/// The view of a text result.
pub open spec fn text_result(r: Result<String, String>) -> Result<Seq<char>, Seq<char>> {
    match r {
        Ok(s) => Ok(s@),
        Err(e) => Err(e@),
    }
}

/// A non-empty string member of a GitHub CLI answer.
pub fn required_string(value: &Json, field: &str) -> (r: Result<String, String>)
    ensures
        text_result(r) == required_spec(*value, field@),
{
    match value.get(field) {
        Some(v) => match v.as_str() {
            Some(s) => {
                if !s.is_empty() {
                    return Ok(s.to_owned());
                }
            },
            None => {},
        },
        None => {},
    }
    Err(join2("gh response is missing ", field))
}

/// The text at `path` when it is a string, else `fallback`.
pub open spec fn text_or(value: Json, path: Seq<Seq<char>>, fallback: Seq<char>) -> Seq<char> {
    match str_spec(path_spec(value, path)) {
        Some(s) => s,
        None => fallback,
    }
}

fn text_at_or(value: &Json, path: &[&str], fallback: &str) -> (r: String)
    ensures
        r@ == text_or(*value, path@.map_values(|s: &str| s@), fallback@),
{
    match crate::json::path_str(value, path) {
        Some(s) => s,
        None => fallback.to_owned(),
    }
}

/// A pull request as plain values.
pub struct PullRequestView {
    pub number: u64,
    pub title: Seq<char>,
    pub author: Seq<char>,
    pub head_label: Seq<char>,
    pub is_draft: bool,
    pub updated_at: Seq<char>,
}

impl View for PullRequest {
    type V = PullRequestView;

    open spec fn view(&self) -> PullRequestView {
        PullRequestView {
            number: self.number,
            title: self.title@,
            author: self.author@,
            head_label: self.head_label@,
            is_draft: self.is_draft,
            updated_at: self.updated_at@,
        }
    }
}

/// A pull request read from one element of `gh pr list --json`: the number
/// and a non-empty title are required; a missing author, head branch or head
/// owner reads as `unknown`, a missing draft flag as not a draft, a missing
/// update time as empty. The head label is `<owner>/<branch>`.
pub open spec fn pr_spec(value: Json) -> Result<PullRequestView, Seq<char>> {
    match u64_spec(get_spec(value, "number"@)) {
        None => Err("gh PR is missing number"@),
        Some(number) => match required_spec(value, "title"@) {
            Err(e) => Err(e),
            Ok(title) => Ok(
                PullRequestView {
                    number,
                    title,
                    author: text_or(value, seq!["author"@, "login"@], "unknown"@),
                    head_label: text_or(value, seq!["headRepositoryOwner"@, "login"@], "unknown"@)
                        + "/"@ + text_or(value, seq!["headRefName"@], "unknown"@),
                    is_draft: match bool_spec(get_spec(value, "isDraft"@)) {
                        Some(b) => b,
                        None => false,
                    },
                    updated_at: text_or(value, seq!["updatedAt"@], Seq::empty()),
                },
            ),
        },
    }
}

/// A parsing result as plain values.
pub open spec fn pr_result(r: Result<PullRequest, String>) -> Result<PullRequestView, Seq<char>> {
    match r {
        Ok(pr) => Ok(pr@),
        Err(e) => Err(e@),
    }
}

/// A pull request read from one element of `gh pr list --json`.
pub fn parse_pull_request(value: &Json) -> (r: Result<PullRequest, String>)
    ensures
        pr_result(r) == pr_spec(*value),
{
    proof {
        reveal_strlit("number");
        reveal_strlit("title");
        reveal_strlit("author");
        reveal_strlit("login");
        reveal_strlit("headRefName");
        reveal_strlit("headRepositoryOwner");
        reveal_strlit("isDraft");
        reveal_strlit("updatedAt");
        reveal_strlit("unknown");
        reveal_strlit("");
    }
    let number = match value.get("number") {
        Some(v) => v.as_u64(),
        None => None,
    };
    let number = match number {
        Some(n) => n,
        None => return Err(String::from_str("gh PR is missing number")),
    };
    let title = match required_string(value, "title") {
        Ok(t) => t,
        Err(e) => return Err(e),
    };
    let author_path = ["author", "login"];
    let name_path = ["headRefName"];
    let owner_path = ["headRepositoryOwner", "login"];
    let updated_path = ["updatedAt"];
    proof {
        assert(author_path@.map_values(|s: &str| s@) =~= seq!["author"@, "login"@]);
        assert(name_path@.map_values(|s: &str| s@) =~= seq!["headRefName"@]);
        assert(owner_path@.map_values(|s: &str| s@) =~= seq!["headRepositoryOwner"@, "login"@]);
        assert(updated_path@.map_values(|s: &str| s@) =~= seq!["updatedAt"@]);
        assert(path_spec(*value, seq!["headRefName"@]) == get_spec(*value, "headRefName"@)) by {
            reveal_with_fuel(path_spec, 2);
            assert(seq!["headRefName"@].drop_last() =~= Seq::<Seq<char>>::empty());
        }
        assert(path_spec(*value, seq!["updatedAt"@]) == get_spec(*value, "updatedAt"@)) by {
            reveal_with_fuel(path_spec, 2);
            assert(seq!["updatedAt"@].drop_last() =~= Seq::<Seq<char>>::empty());
        }
    }
    let author = text_at_or(value, &author_path, "unknown");
    let head_name = text_at_or(value, &name_path, "unknown");
    let owner = text_at_or(value, &owner_path, "unknown");
    let is_draft = match value.get("isDraft") {
        Some(v) => match v.as_bool() {
            Some(b) => b,
            None => false,
        },
        None => false,
    };
    let updated_at = text_at_or(value, &updated_path, "");
    let pr = PullRequest {
        number,
        title,
        author,
        head_label: join3(owner.as_str(), "/", head_name.as_str()),
        is_draft,
        updated_at,
    };
    assert(pr_spec(*value) matches Ok(v) && v.number == pr@.number && v.title == pr@.title
        && v.author == pr@.author && v.head_label == pr@.head_label && v.is_draft == pr@.is_draft
        && v.updated_at == pr@.updated_at);
    Ok(pr)
}

// ---------------------------------------------------------------------------
// The repository.
// ---------------------------------------------------------------------------

/// The first position at or after `i` where `needle` occurs in `hay`.
pub open spec fn occurrence_from(hay: Seq<char>, needle: Seq<char>, i: int) -> Option<int>
    decreases hay.len() + 1 - i,
{
    if i < 0 || i + needle.len() > hay.len() {
        None
    } else if hay.subrange(i, i + needle.len()) == needle {
        Some(i)
    } else {
        occurrence_from(hay, needle, i + 1)
    }
}

/// The first position where `needle` occurs in `hay`.
fn find_occurrence(hay: &Vec<char>, needle: &Vec<char>) -> (r: Option<usize>)
    ensures
        match r {
            Some(i) => occurrence_from(hay@, needle@, 0) == Some(i as int) && i + needle@.len()
                <= hay@.len(),
            None => occurrence_from(hay@, needle@, 0) is None,
        },
{
    let n = hay.len();
    let m = needle.len();
    if m > n {
        return None;
    }
    if m == 0 {
        assert(hay@.subrange(0, 0) =~= needle@);
        return Some(0);
    }
    let mut i: usize = 0;
    while i <= n - m
        invariant
            n == hay@.len(),
            m == needle@.len(),
            0 < m <= n,
            i <= n - m + 1,
            occurrence_from(hay@, needle@, 0) == occurrence_from(hay@, needle@, i as int),
        decreases n - m + 1 - i,
    {
        if crate::text::occurs_at_exec(hay, needle, i) {
            return Some(i);
        }
        i += 1;
    }
    None
}

/// The host named by a repository URL: what precedes the first `/` after
/// the scheme (`https://`, or any `<scheme>://`), or the error naming the URL
/// when that is empty.
pub open spec fn repository_host_spec(url: Seq<char>) -> Result<Seq<char>, Seq<char>> {
    let rest = match occurrence_from(url, "://"@, 0) {
        Some(i) => url.skip(i + 3),
        None => url,
    };
    let host = match char_pos(rest, '/') {
        Some(j) => rest.take(j),
        None => rest,
    };
    if host.len() > 0 {
        Ok(host)
    } else {
        Err("Could not determine GitHub host from "@ + url)
    }
}

/// The host named by a repository URL.
pub fn repository_host(url: &str) -> (r: Result<String, String>)
    ensures
        text_result(r) == repository_host_spec(url@),
{
    proof {
        reveal_strlit("://");
    }
    let chars = chars_of(url);
    let scheme = chars_of("://");
    assert(scheme@.len() == 3);
    let count = chars.len();
    let start: usize = match find_occurrence(&chars, &scheme) {
        Some(i) => i + 3,
        None => 0,
    };
    let ghost rest = match occurrence_from(url@, "://"@, 0) {
        Some(i) => url@.skip(i + 3),
        None => url@,
    };
    let mut end: usize = chars.len();
    match crate::text::find_char(&chars, '/', start) {
        Some(j) => {
            end = j;
        },
        None => {},
    }
    proof {
        crate::text::lemma_char_pos_from_bounds(chars@, '/', start as int);
        lemma_char_pos_shift(chars@, '/', start as int);
        assert(rest =~= chars@.skip(start as int));
    }
    if end == start {
        return Err(join2("Could not determine GitHub host from ", url));
    }
    let host = crate::text::string_of_range(&chars, start, end);
    assert(host@ =~= match char_pos(rest, '/') {
        Some(j) => rest.take(j),
        None => rest,
    });
    Ok(host)
}

/// The first `c` at or after `start` is the first `c` of the rest of the
/// text, moved by `start`.
proof fn lemma_char_pos_shift(s: Seq<char>, c: char, start: int)
    requires
        0 <= start <= s.len(),
    ensures
        match crate::text::char_pos_from(s, c, start) {
            Some(p) => char_pos(s.skip(start), c) == Some(p - start),
            None => char_pos(s.skip(start), c) is None,
        },
{
    let t = s.skip(start);
    crate::text::lemma_char_pos_from_bounds(s, c, start);
    crate::text::lemma_char_pos_from_bounds(t, c, 0);
    match crate::text::char_pos_from(s, c, start) {
        Some(p) => {
            assert(t[p - start] == s[p]);
            match char_pos(t, c) {
                Some(q) => {
                    assert(t[q] == s[q + start]);
                    if q < p - start {
                        assert(s[q + start] != c);
                    }
                    assert(q == p - start);
                },
                None => {},
            }
        },
        None => {
            match char_pos(t, c) {
                Some(q) => {
                    assert(t[q] == s[q + start]);
                    assert(s[q + start] != c);
                },
                None => {},
            }
        },
    }
}

/// A character's code with ASCII capitals folded to small letters.
pub open spec fn ascii_fold(c: char) -> int {
    let x = c as int;
    if 65 <= x && x <= 90 {
        x + 32
    } else {
        x
    }
}

/// Whether two texts are equal when ASCII letters are compared without
/// regard to case (what `str::eq_ignore_ascii_case` answers).
pub open spec fn eq_ignore_ascii_case_spec(a: Seq<char>, b: Seq<char>) -> bool {
    a.len() == b.len() && forall|i: int| 0 <= i < a.len() ==> ascii_fold(#[trigger] a[i]) == ascii_fold(b[i])
}

fn fold_code(c: char) -> (r: u32)
    ensures
        r as int == ascii_fold(c),
{
    let x = c as u32;
    if 65 <= x && x <= 90 {
        x + 32
    } else {
        x
    }
}

/// Whether two texts are equal when ASCII letters are compared without
/// regard to case.
pub fn eq_ignore_ascii_case(a: &str, b: &str) -> (r: bool)
    ensures
        r == eq_ignore_ascii_case_spec(a@, b@),
{
    let x = chars_of(a);
    let y = chars_of(b);
    if x.len() != y.len() {
        return false;
    }
    let mut k: usize = 0;
    while k < x.len()
        invariant
            x@ == a@,
            y@ == b@,
            x@.len() == y@.len(),
            k <= x@.len(),
            forall|i: int| 0 <= i < k ==> ascii_fold(#[trigger] x@[i]) == ascii_fold(y@[i]),
        decreases x@.len() - k,
    {
        if fold_code(x[k]) != fold_code(y[k]) {
            return false;
        }
        k += 1;
    }
    true
}

/// The repository argument for `gh --repo`: the owner and name on
/// github.com, the host first on any other host.
pub open spec fn gh_repo_name_spec(host: Seq<char>, name_with_owner: Seq<char>) -> Seq<char> {
    if eq_ignore_ascii_case_spec(host, "github.com"@) {
        name_with_owner
    } else {
        host + "/"@ + name_with_owner
    }
}

/// The repository argument for `gh --repo`.
pub fn gh_repo_name(repository: &GitHubRepository) -> (r: String)
    ensures
        r@ == gh_repo_name_spec(repository.host@, repository.name_with_owner@),
{
    if eq_ignore_ascii_case(repository.host.as_str(), "github.com") {
        repository.name_with_owner.clone()
    } else {
        join3(repository.host.as_str(), "/", repository.name_with_owner.as_str())
    }
}

/// The repository's host and `owner/name`, from the answer of
/// `gh repo view --json nameWithOwner,url` (or the error running it).
pub open spec fn repository_of_spec(view: Result<Json, Seq<char>>) -> Result<
    (Seq<char>, Seq<char>),
    Seq<char>,
> {
    match view {
        Err(e) => Err(contextualize_spec("Could not resolve GitHub repository"@, e)),
        Ok(value) => match required_spec(value, "nameWithOwner"@) {
            Err(e) => Err(e),
            Ok(name) => match required_spec(value, "url"@) {
                Err(e) => Err(e),
                Ok(url) => match repository_host_spec(url) {
                    Err(e) => Err(e),
                    Ok(host) => Ok((host, name)),
                },
            },
        },
    }
}

/// A JSON answer as plain values.
pub open spec fn answer_view(r: Result<Json, String>) -> Result<Json, Seq<char>> {
    match r {
        Ok(j) => Ok(j),
        Err(e) => Err(e@),
    }
}

/// The repository's host and `owner/name`, from the answer of
/// `gh repo view --json nameWithOwner,url` (or the error running it).
pub fn repository_of(view: Result<Json, String>) -> (r: Result<(String, String), String>)
    ensures
        match r {
            Ok(p) => repository_of_spec(answer_view(view)) == Ok::<(Seq<char>, Seq<char>), Seq<char>>(
                (p.0@, p.1@),
            ),
            Err(e) => repository_of_spec(answer_view(view)) == Err::<(Seq<char>, Seq<char>), Seq<char>>(
                e@,
            ),
        },
{
    proof {
        reveal_strlit("nameWithOwner");
        reveal_strlit("url");
    }
    let value = match view {
        Err(e) => return Err(contextualize("Could not resolve GitHub repository", e)),
        Ok(value) => value,
    };
    let name = match required_string(&value, "nameWithOwner") {
        Ok(n) => n,
        Err(e) => return Err(e),
    };
    let url = match required_string(&value, "url") {
        Ok(u) => u,
        Err(e) => return Err(e),
    };
    match repository_host(url.as_str()) {
        Ok(host) => Ok((host, name)),
        Err(e) => Err(e),
    }
}

// ---------------------------------------------------------------------------
// Branch names for pull requests.
// ---------------------------------------------------------------------------

/// One character of the lowercased title read into the slug state: the slug
/// so far, and whether a separator is pending. An alphanumeric character is
/// kept, preceded by one `-` when a separator is pending and the slug is not
/// empty; any other character makes a separator pending.
pub open spec fn slug_step(state: (Seq<char>, bool), c: char) -> (Seq<char>, bool) {
    if char_alphanumeric(c) {
        let kept = if state.1 && state.0.len() > 0 {
            state.0.push('-')
        } else {
            state.0
        };
        (kept.push(c), false)
    } else {
        (state.0, true)
    }
}

/// The slug state after the given characters.
pub open spec fn slug_scan(cs: Seq<char>) -> (Seq<char>, bool)
    decreases cs.len(),
{
    if cs.len() == 0 {
        (Seq::empty(), false)
    } else {
        slug_step(slug_scan(cs.drop_last()), cs.last())
    }
}

/// `s` without its trailing `-` characters.
pub open spec fn trim_dashes(s: Seq<char>) -> Seq<char>
    decreases s.len(),
{
    if s.len() > 0 && s.last() == '-' {
        trim_dashes(s.drop_last())
    } else {
        s
    }
}

/// At most the first `n` characters of `s`.
pub open spec fn first_chars(s: Seq<char>, n: int) -> Seq<char> {
    if s.len() > n {
        s.take(n)
    } else {
        s
    }
}

/// The title's part of a pull request's branch name: the slug of the
/// lowercased title, cut to 48 characters, without trailing `-`.
pub open spec fn slug_segment(title: Seq<char>) -> Seq<char> {
    trim_dashes(first_chars(slug_scan(str_lowercase(title)).0, 48))
}

/// The branch name a pull request starts from: `pr/<number>-<slug>`, or
/// `pr/<number>` when the title gives no slug.
pub open spec fn branch_base_spec(number: u64, title: Seq<char>) -> Seq<char> {
    let segment = slug_segment(title);
    if segment.len() == 0 {
        "pr/"@ + decimal(number as nat)
    } else {
        "pr/"@ + decimal(number as nat) + "-"@ + segment
    }
}

/// The branch name a pull request starts from.
pub fn branch_base(number: u64, title: &str) -> (r: String)
    ensures
        r@ == branch_base_spec(number, title@),
        !stray_dash(slug_segment(title@)),
{
    let lower = lowercase(title);
    let cs = chars_of(lower.as_str());
    let mut slug: Vec<char> = Vec::new();
    let mut separator = false;
    let mut i: usize = 0;
    assert(cs@.take(0) =~= Seq::<char>::empty());
    while i < cs.len()
        invariant
            i <= cs@.len(),
            cs@ == str_lowercase(title@),
            slug_scan(cs@.take(i as int)) == (slug@, separator),
            forall|j: int| 0 <= j < i ==> #[trigger] cs@[j] == '-' ==> !char_alphanumeric(cs@[j]),
        decreases cs@.len() - i,
    {
        let c = cs[i];
        assert(cs@.take(i + 1).drop_last() =~= cs@.take(i as int));
        assert(cs@.take(i + 1).last() == c);
        let alphanumeric = is_alphanumeric(c);
        if alphanumeric {
            if separator && slug.len() > 0 {
                slug.push('-');
            }
            separator = false;
            slug.push(c);
        } else {
            separator = true;
        }
        i += 1;
    }
    assert(cs@.take(cs@.len() as int) =~= cs@);
    proof {
        law_branch_base_segment(title@);
    }
    let keep: usize = if slug.len() > 48 {
        48
    } else {
        slug.len()
    };
    assert(slug@.take(keep as int) =~= first_chars(slug@, 48));
    let mut end: usize = keep;
    while end > 0 && slug[end - 1] == '-'
        invariant
            end <= keep <= slug@.len(),
            trim_dashes(slug@.take(keep as int)) == trim_dashes(slug@.take(end as int)),
        decreases end,
    {
        assert(slug@.take(end as int).drop_last() =~= slug@.take(end - 1));
        end -= 1;
    }
    assert(trim_dashes(slug@.take(end as int)) == slug@.take(end as int));
    let number_text = decimal_string(number);
    if end == 0 {
        join2("pr/", number_text.as_str())
    } else {
        let segment = crate::text::string_of_range(&slug, 0, end);
        assert(segment@ =~= slug@.take(end as int));
        let mut r = join3("pr/", number_text.as_str(), "-");
        r.append(segment.as_str());
        r
    }
}

proof fn lemma_trim_dashes(s: Seq<char>)
    ensures
        trim_dashes(s).len() <= s.len(),
        trim_dashes(s) == s.take(trim_dashes(s).len() as int),
        trim_dashes(s).len() > 0 ==> trim_dashes(s).last() != '-',
    decreases s.len(),
{
    if s.len() > 0 && s.last() == '-' {
        lemma_trim_dashes(s.drop_last());
        assert(s.drop_last().take(trim_dashes(s).len() as int) =~= s.take(
            trim_dashes(s).len() as int,
        ));
    } else {
        assert(s.take(s.len() as int) =~= s);
    }
}

/// A pull request's branch name is `pr/<number>`, followed, when the title
/// gives a slug, by `-` and a slug of at most 48 characters that does not
/// end in `-`.
pub proof fn law_branch_base_shape(number: u64, title: Seq<char>)
    ensures
        ({
            let segment = slug_segment(title);
            &&& segment.len() <= 48
            &&& segment.len() == 0 ==> branch_base_spec(number, title) == "pr/"@ + decimal(
                number as nat,
            )
            &&& segment.len() > 0 ==> branch_base_spec(number, title) == "pr/"@ + decimal(
                number as nat,
            ) + "-"@ + segment && segment.last() != '-'
        }),
{
    let slug = slug_scan(str_lowercase(title)).0;
    lemma_trim_dashes(first_chars(slug, 48));
}

/// The maximal runs of alphanumeric characters in `cs`, in order.
pub open spec fn alnum_runs(cs: Seq<char>) -> Seq<Seq<char>>
    decreases cs.len(),
{
    if cs.len() == 0 {
        Seq::empty()
    } else {
        let before = alnum_runs(cs.drop_last());
        let c = cs.last();
        if !char_alphanumeric(c) {
            before
        } else if cs.len() >= 2 && char_alphanumeric(cs[cs.len() - 2]) {
            before.update(before.len() - 1, before.last().push(c))
        } else {
            before.push(seq![c])
        }
    }
}

/// The words joined with `-` between them.
pub open spec fn join_with_dash(words: Seq<Seq<char>>) -> Seq<char>
    decreases words.len(),
{
    if words.len() == 0 {
        Seq::empty()
    } else if words.len() == 1 {
        words[0]
    } else {
        join_with_dash(words.drop_last()) + "-"@ + words.last()
    }
}

/// Whether `s` starts with `-` or holds `--`.
pub open spec fn stray_dash(s: Seq<char>) -> bool {
    ||| (s.len() > 0 && s[0] == '-')
    ||| exists|i: int| 0 <= i < s.len() - 1 && #[trigger] s[i] == '-' && s[i + 1] == '-'
}

/// The runs of a text: each is non-empty and alphanumeric, and a run is
/// extended exactly when the text ends in two alphanumeric characters.
proof fn lemma_alnum_runs(cs: Seq<char>)
    ensures
        forall|k: int| 0 <= k < alnum_runs(cs).len() ==> #[trigger] alnum_runs(cs)[k].len() > 0,
        forall|k: int, j: int|
            0 <= k < alnum_runs(cs).len() && 0 <= j < alnum_runs(cs)[k].len()
                ==> char_alphanumeric(#[trigger] alnum_runs(cs)[k][j]),
        cs.len() > 0 && char_alphanumeric(cs.last()) ==> alnum_runs(cs).len() > 0,
        slug_scan(cs).1 == (cs.len() > 0 && !char_alphanumeric(cs.last())),
        slug_scan(cs).0 == join_with_dash(alnum_runs(cs)),
    decreases cs.len(),
{
    reveal_strlit("-");
    if cs.len() > 0 {
        let prefix = cs.drop_last();
        lemma_alnum_runs(prefix);
        lemma_join_empty(alnum_runs(prefix));
        let before = alnum_runs(prefix);
        let c = cs.last();
        let runs = alnum_runs(cs);
        if char_alphanumeric(c) {
            if cs.len() >= 2 && char_alphanumeric(cs[cs.len() - 2]) {
                assert(prefix.last() == cs[cs.len() - 2]);
                assert(before.len() > 0);
                lemma_join_extend(before, c);
                assert forall|k: int, j: int|
                    0 <= k < runs.len() && 0 <= j < runs[k].len() implies char_alphanumeric(
                    #[trigger] runs[k][j],
                ) by {
                    if k == before.len() - 1 && j == before.last().len() {
                    } else if k == before.len() - 1 {
                        assert(runs[k][j] == before[k][j]);
                    } else {
                        assert(runs[k] == before[k]);
                    }
                }
                assert forall|k: int| 0 <= k < runs.len() implies #[trigger] runs[k].len() > 0 by {
                    if k < before.len() - 1 {
                        assert(runs[k] == before[k]);
                    }
                }
            } else {
                if prefix.len() > 0 {
                    assert(prefix.last() == cs[cs.len() - 2]);
                }
                assert(join_with_dash(before.push(seq![c])) =~= slug_scan(cs).0) by {
                    if before.len() == 0 {
                        assert(join_with_dash(before.push(seq![c])) == seq![c]);
                    } else {
                        assert(before.push(seq![c]).drop_last() =~= before);
                    }
                }
                assert forall|k: int, j: int|
                    0 <= k < runs.len() && 0 <= j < runs[k].len() implies char_alphanumeric(
                    #[trigger] runs[k][j],
                ) by {
                    if k < before.len() {
                        assert(runs[k] == before[k]);
                    }
                }
                assert forall|k: int| 0 <= k < runs.len() implies #[trigger] runs[k].len() > 0 by {
                    if k < before.len() {
                        assert(runs[k] == before[k]);
                    }
                }
            }
        }
    }
}

proof fn lemma_join_empty(words: Seq<Seq<char>>)
    requires
        forall|k: int| 0 <= k < words.len() ==> #[trigger] words[k].len() > 0,
    ensures
        (join_with_dash(words).len() == 0) == (words.len() == 0),
    decreases words.len(),
{
    if words.len() > 1 {
        lemma_join_empty(words.drop_last());
    }
}

proof fn lemma_join_extend(words: Seq<Seq<char>>, c: char)
    requires
        words.len() > 0,
    ensures
        join_with_dash(words.update(words.len() - 1, words.last().push(c))) =~= join_with_dash(
            words,
        ).push(c),
{
    let updated = words.update(words.len() - 1, words.last().push(c));
    if words.len() > 1 {
        assert(updated.drop_last() =~= words.drop_last());
    }
}

/// A text made of non-empty runs of characters other than `-`, joined with
/// `-`, neither starts with `-` nor holds `--`.
proof fn lemma_join_no_stray_dash(words: Seq<Seq<char>>)
    requires
        forall|k: int| 0 <= k < words.len() ==> #[trigger] words[k].len() > 0,
        forall|k: int, j: int|
            0 <= k < words.len() && 0 <= j < words[k].len() ==> #[trigger] words[k][j] != '-',
    ensures
        !stray_dash(join_with_dash(words)),
    decreases words.len(),
{
    reveal_strlit("-");
    if words.len() > 1 {
        let rest = words.drop_last();
        lemma_join_no_stray_dash(rest);
        lemma_join_empty(rest);
        let a = join_with_dash(rest);
        let w = words.last();
        let s = join_with_dash(words);
        assert(s =~= a + seq!['-'] + w);
        assert(a[0] != '-');
        assert(w[0] == words[words.len() - 1][0]);
        assert forall|i: int| 0 <= i < s.len() - 1 && #[trigger] s[i] == '-' implies s[i + 1] != '-' by {
            if i < a.len() - 1 {
                assert(s[i] == a[i] && s[i + 1] == a[i + 1]);
            } else if i == a.len() - 1 {
                assert(s[i] == a[i]);
                assert(a[a.len() - 1] == rest[rest.len() - 1][rest[rest.len() - 1].len() - 1]) by {
                    lemma_join_last(rest);
                }
            } else if i == a.len() {
                assert(s[i + 1] == w[0]);
            } else {
                let j = i - a.len() - 1;
                assert(s[i] == w[j]);
            }
        }
    } else if words.len() == 1 {
        assert(join_with_dash(words) == words[0]);
        assert forall|i: int| 0 <= i < words[0].len() - 1 && #[trigger] words[0][i] == '-' implies words[0][i + 1] != '-' by {
        }
    }
}

proof fn lemma_join_last(words: Seq<Seq<char>>)
    requires
        words.len() > 0,
        words.last().len() > 0,
    ensures
        join_with_dash(words).len() > 0,
        join_with_dash(words).last() == words.last().last(),
{
}

/// A prefix of a text with no stray `-` has none, and trimming trailing `-`
/// keeps a prefix.
proof fn lemma_prefix_no_stray_dash(s: Seq<char>, n: int)
    requires
        0 <= n <= s.len(),
        !stray_dash(s),
    ensures
        !stray_dash(s.take(n)),
{
    let t = s.take(n);
    assert forall|i: int| 0 <= i < t.len() - 1 && #[trigger] t[i] == '-' implies t[i + 1] != '-' by {
        assert(t[i] == s[i] && t[i + 1] == s[i + 1]);
    }
    if t.len() > 0 {
        assert(t[0] == s[0]);
    }
}

/// Whether no `-` of the text counts as alphanumeric.
pub open spec fn no_alphanumeric_dash(cs: Seq<char>) -> bool {
    forall|i: int| 0 <= i < cs.len() ==> #[trigger] cs[i] == '-' ==> !char_alphanumeric(cs[i])
}

/// The runs of a text in which no `-` counts as alphanumeric hold no `-`.
proof fn lemma_runs_without_dash(cs: Seq<char>)
    requires
        no_alphanumeric_dash(cs),
    ensures
        forall|k: int, j: int|
            0 <= k < alnum_runs(cs).len() && 0 <= j < alnum_runs(cs)[k].len()
                ==> #[trigger] alnum_runs(cs)[k][j] != '-',
    decreases cs.len(),
{
    if cs.len() > 0 {
        let prefix = cs.drop_last();
        assert forall|i: int| 0 <= i < prefix.len() && #[trigger] prefix[i] == '-' implies !char_alphanumeric(
            prefix[i],
        ) by {
            assert(prefix[i] == cs[i]);
        }
        lemma_runs_without_dash(prefix);
        lemma_alnum_runs(prefix);
        let before = alnum_runs(prefix);
        let runs = alnum_runs(cs);
        let c = cs.last();
        assert(c == cs[cs.len() - 1]);
        if char_alphanumeric(c) {
            assert(c != '-');
            if cs.len() >= 2 && char_alphanumeric(cs[cs.len() - 2]) {
                assert(prefix.last() == cs[cs.len() - 2]);
                assert(before.len() > 0);
                assert forall|k: int, j: int|
                    0 <= k < runs.len() && 0 <= j < runs[k].len() implies #[trigger] runs[k][j] != '-' by {
                    if k == before.len() - 1 && j == before.last().len() {
                    } else if k == before.len() - 1 {
                        assert(runs[k][j] == before[k][j]);
                    } else {
                        assert(runs[k] == before[k]);
                    }
                }
            } else {
                assert forall|k: int, j: int|
                    0 <= k < runs.len() && 0 <= j < runs[k].len() implies #[trigger] runs[k][j] != '-' by {
                    if k < before.len() {
                        assert(runs[k] == before[k]);
                    }
                }
            }
        }
    }
}

/// The title's part of a pull request's branch name is made of the maximal
/// runs of alphanumeric characters of the lowercased title joined with `-`,
/// cut to 48 characters, with trailing `-` removed; so it has at most 48
/// characters and does not end with `-`. When no `-` of the lowercased title
/// counts as alphanumeric (std's `is_alphanumeric` says so of `-`, and
/// `branch_base` states the conclusion outright), the part neither starts
/// with `-` nor holds `--`.
pub proof fn law_branch_base_segment(title: Seq<char>)
    ensures
        slug_segment(title) == trim_dashes(
            first_chars(join_with_dash(alnum_runs(str_lowercase(title))), 48),
        ),
        slug_segment(title).len() <= 48,
        slug_segment(title).len() > 0 ==> slug_segment(title).last() != '-',
        no_alphanumeric_dash(str_lowercase(title)) ==> !stray_dash(slug_segment(title)),
{
    let cs = str_lowercase(title);
    lemma_alnum_runs(cs);
    lemma_trim_dashes(first_chars(slug_scan(cs).0, 48));
    if no_alphanumeric_dash(cs) {
        let runs = alnum_runs(cs);
        lemma_runs_without_dash(cs);
        lemma_join_no_stray_dash(runs);
        let joined = join_with_dash(runs);
        let cut = first_chars(joined, 48);
        if joined.len() > 48 {
            lemma_prefix_no_stray_dash(joined, 48);
        } else {
            assert(cut == joined);
        }
        lemma_trim_dashes(cut);
        lemma_prefix_no_stray_dash(cut, slug_segment(title).len() as int);
    }
}

/// The `k`-th name tried for a pull request's branch: the base name first,
/// then `<base>-2`, `<base>-3`, and so on.
pub open spec fn candidate(base: Seq<char>, k: nat) -> Seq<char> {
    if k < 2 {
        base
    } else {
        base + "-"@ + decimal(k)
    }
}

/// The texts of a list of branch names.
pub open spec fn names_of(names: Seq<String>) -> Seq<Seq<char>> {
    names.map_values(|s: String| s@)
}

proof fn lemma_candidates_differ(base: Seq<char>, a: nat, b: nat)
    requires
        1 <= a,
        1 <= b,
        a != b,
    ensures
        candidate(base, a) != candidate(base, b),
{
    reveal_strlit("-");
    crate::text::lemma_decimal_len(a);
    crate::text::lemma_decimal_len(b);
    if a >= 2 && b >= 2 {
        if candidate(base, a) == candidate(base, b) {
            let n = base.len() + 1int;
            assert(candidate(base, a).skip(n) =~= decimal(a));
            assert(candidate(base, b).skip(n) =~= decimal(b));
            crate::text::lemma_decimal_injective(a, b);
        }
    } else {
        assert(candidate(base, a).len() != candidate(base, b).len());
    }
}

/// Whether a local branch has the name.
fn has_name(names: &Vec<String>, name: &String) -> (r: bool)
    ensures
        r == names_of(names@).contains(name@),
{
    let mut k: usize = 0;
    while k < names.len()
        invariant
            k <= names@.len(),
            forall|j: int| 0 <= j < k ==> names@[j]@ != name@,
        decreases names@.len() - k,
    {
        if crate::text::same_text(&names[k], name) {
            assert(names_of(names@)[k as int] == name@);
            return true;
        }
        k += 1;
    }
    assert forall|j: int| 0 <= j < names_of(names@).len() implies names_of(names@)[j] != name@ by {
        assert(names_of(names@)[j] == names@[j]@);
    }
    false
}

/// The local branch name for a pull request, given the local branches that
/// exist: the first of `pr/<number>-<slug>`, `pr/<number>-<slug>-2`, … that
/// no local branch has.
pub fn allocate_branch(number: u64, title: &str, existing: &Vec<String>) -> (r: String)
    ensures
        !names_of(existing@).contains(r@),
        exists|k: nat|
            1 <= k && r@ == #[trigger] candidate(branch_base_spec(number, title@), k) && forall|
                j: nat,
            |
                1 <= j < k ==> names_of(existing@).contains(
                    #[trigger] candidate(branch_base_spec(number, title@), j),
                ),
{
    let ghost names = names_of(existing@);
    let ghost base_text = branch_base_spec(number, title@);
    let count = existing.len();
    let base = branch_base(number, title);
    if !has_name(existing, &base) {
        assert(base@ == candidate(base_text, 1));
        return base;
    }
    assert(names.contains(candidate(base_text, 1)));
    proof {
        names.lemma_cardinality_of_set();
        assert(names.to_set().contains(base@));
        assert(names.to_set().len() >= 1) by {
            vstd::set_lib::lemma_len_subset(set![base@], names.to_set());
        }
    }
    let mut k: u128 = 2;
    loop
        invariant
            2 <= k <= names.len() + 1,
            names.len() == count,
            names == names_of(existing@),
            base_text == branch_base_spec(number, title@),
            base@ == base_text,
            forall|j: nat| 1 <= j < k ==> names.contains(#[trigger] candidate(base_text, j)),
        decreases names.len() + 1 - k,
    {
        let suffix = count_string(k);
        let candidate_name = join3(base.as_str(), "-", suffix.as_str());
        assert(candidate_name@ == candidate(base_text, k as nat));
        if !has_name(existing, &candidate_name) {
            return candidate_name;
        }
        proof {
            let tried = Seq::new(k as nat, |i: int| candidate(base_text, (i + 1) as nat));
            assert forall|a: int, b: int|
                0 <= a < tried.len() && 0 <= b < tried.len() && a != b implies tried[a]
                != tried[b] by {
                lemma_candidates_differ(base_text, (a + 1) as nat, (b + 1) as nat);
            }
            assert(tried.no_duplicates());
            tried.unique_seq_to_set();
            assert forall|x: Seq<char>| tried.to_set().contains(x) implies names.to_set().contains(
                x,
            ) by {
                let i = choose|i: int| 0 <= i < tried.len() && tried[i] == x;
                assert(names.contains(candidate(base_text, (i + 1) as nat)));
            }
            vstd::set_lib::lemma_len_subset(tried.to_set(), names.to_set());
            names.lemma_cardinality_of_set();
        }
        k = k + 1;
    }
}

// ---------------------------------------------------------------------------
// Searching and showing pull requests.
// ---------------------------------------------------------------------------

/// Whether a pull request matches the search: case-insensitively, the
/// search occurs in its number, title, author or head label; the empty
/// search matches every pull request.
pub open spec fn matches_query_spec(
    number: u64,
    title: Seq<char>,
    author: Seq<char>,
    head_label: Seq<char>,
    query: Seq<char>,
) -> bool {
    let q = str_lowercase(query);
    ||| q.len() == 0
    ||| seq_contains(str_lowercase(decimal(number as nat)), q)
    ||| seq_contains(str_lowercase(title), q)
    ||| seq_contains(str_lowercase(author), q)
    ||| seq_contains(str_lowercase(head_label), q)
}

fn field_matches(field: &str, query: &Vec<char>) -> (r: bool)
    ensures
        r == seq_contains(str_lowercase(field@), query@),
{
    let lower = lowercase(field);
    let hay = chars_of(lower.as_str());
    crate::text::contains(&hay, query)
}

/// Whether a pull request matches the search.
pub fn matches_query(pr: &PullRequest, query: &str) -> (r: bool)
    ensures
        r == matches_query_spec(pr.number, pr.title@, pr.author@, pr.head_label@, query@),
{
    let lower = lowercase(query);
    let q = chars_of(lower.as_str());
    if q.len() == 0 {
        return true;
    }
    let number = decimal_string(pr.number);
    field_matches(number.as_str(), &q) || field_matches(pr.title.as_str(), &q) || field_matches(
        pr.author.as_str(),
        &q,
    ) || field_matches(pr.head_label.as_str(), &q)
}

/// The date part of an update time: its first ten bytes when they end on a
/// character boundary (as `YYYY-MM-DD` does), and otherwise the whole text.
pub open spec fn display_date_spec(updated_at: Seq<char>) -> Seq<char> {
    let bytes = vstd::utf8::encode_utf8(updated_at);
    if vstd::utf8::is_char_boundary(bytes, 10) {
        vstd::utf8::decode_utf8(bytes.subrange(0, 10))
    } else {
        updated_at
    }
}

/// The date part of an update time.
pub fn display_date(updated_at: &str) -> (r: &str)
    ensures
        r@ == display_date_spec(updated_at@),
        vstd::utf8::is_char_boundary(updated_at.spec_bytes(), 10) ==> r.spec_bytes()
            == updated_at.spec_bytes().subrange(0, 10),
{
    if updated_at.is_char_boundary(10) {
        let (date, _) = updated_at.split_at(10);
        proof {
            vstd::utf8::encode_utf8_decode_utf8(date@);
        }
        date
    } else {
        updated_at
    }
}

// ---------------------------------------------------------------------------
// Listing and preparing pull requests.
// ---------------------------------------------------------------------------

/// The first `n` pull requests parsed: the first error stops the parse.
pub open spec fn parse_all(items: Seq<Json>, n: int) -> Result<Seq<PullRequestView>, Seq<char>>
    decreases n,
{
    if n <= 0 {
        Ok(Seq::empty())
    } else {
        match parse_all(items, n - 1) {
            Err(e) => Err(e),
            Ok(v) => match pr_spec(items[n - 1]) {
                Ok(pr) => Ok(v.push(pr)),
                Err(e) => Err(e),
            },
        }
    }
}

/// The pull requests read from the answer of `gh pr list` (or the error
/// running it): at most the first 1000 of the listed array, parsed in
/// order, and whether the list held more.
pub open spec fn list_spec(repo_name: Seq<char>, listed: Result<Json, Seq<char>>) -> Result<
    (Seq<PullRequestView>, bool),
    Seq<char>,
> {
    match listed {
        Err(e) => Err(
            contextualize_spec("Could not list open pull requests for "@ + repo_name, e),
        ),
        Ok(Json::Array(items)) => {
            let n = if items@.len() > 1000 {
                1000
            } else {
                items@.len() as int
            };
            match parse_all(items@, n) {
                Ok(v) => Ok((v, items@.len() > 1000)),
                Err(e) => Err(e),
            }
        },
        Ok(_) => Err("gh pr list returned invalid JSON"@),
    }
}

/// The views of a list of pull requests.
pub open spec fn pr_views(items: Seq<PullRequest>) -> Seq<PullRequestView> {
    items.map_values(|pr: PullRequest| pr@)
}

/// The open pull requests of `repository`, from the answer of
/// `gh pr list --state open --limit 1001 --search sort:updated-desc` (or the
/// error running it).
pub fn load_open_pull_requests(repository: GitHubRepository, listed: Result<Json, String>) -> (r:
    Result<PullRequestList, String>)
    ensures
        match r {
            Ok(list) => list.repository == repository && list_spec(
                gh_repo_name_spec(repository.host@, repository.name_with_owner@),
                answer_view(listed),
            ) == Ok::<(Seq<PullRequestView>, bool), Seq<char>>(
                (pr_views(list.items@), list.truncated),
            ),
            Err(e) => list_spec(
                gh_repo_name_spec(repository.host@, repository.name_with_owner@),
                answer_view(listed),
            ) == Err::<(Seq<PullRequestView>, bool), Seq<char>>(e@),
        },
{
    let repo_name = gh_repo_name(&repository);
    let value = match listed {
        Err(e) => {
            let operation = join2("Could not list open pull requests for ", repo_name.as_str());
            return Err(contextualize(operation.as_str(), e));
        },
        Ok(value) => value,
    };
    let items = match value.as_array() {
        Some(items) => items,
        None => return Err(String::from_str("gh pr list returned invalid JSON")),
    };
    let truncated = items.len() > DISPLAY_LIMIT;
    let n: usize = if truncated {
        DISPLAY_LIMIT
    } else {
        items.len()
    };
    let mut parsed: Vec<PullRequest> = Vec::new();
    let mut k: usize = 0;
    assert(pr_views(parsed@) =~= Seq::<PullRequestView>::empty());
    while k < n
        invariant
            listed == Ok::<Json, String>(value),
            value == Json::Array(*items),
            n == (if items@.len() > 1000 {
                1000
            } else {
                items@.len() as int
            }),
            truncated == (items@.len() > 1000),
            n <= items@.len(),
            k <= n,
            parse_all(items@, k as int) == Ok::<Seq<PullRequestView>, Seq<char>>(
                pr_views(parsed@),
            ),
        decreases n - k,
    {
        match parse_pull_request(&items[k]) {
            Ok(pr) => {
                let ghost before = parsed@;
                parsed.push(pr);
                assert(pr_views(parsed@) =~= pr_views(before).push(pr@));
            },
            Err(e) => {
                proof {
                    lemma_parse_all_stops(items@, k as int + 1, n as int);
                }
                return Err(e);
            },
        }
        k += 1;
    }
    Ok(PullRequestList { repository, items: parsed, truncated })
}

/// Once an element fails to parse, the parse of any longer prefix fails with
/// the same error.
proof fn lemma_parse_all_stops(items: Seq<Json>, k: int, n: int)
    requires
        0 < k <= n,
        parse_all(items, k) is Err,
    ensures
        parse_all(items, n) == parse_all(items, k),
    decreases n - k,
{
    if k < n {
        lemma_parse_all_stops(items, k + 1, n);
    }
}

/// What checking a pull request before creating its worktree ends in.
#[derive(Clone, Debug, PartialEq, Eq)]
pub enum Preparation {
    /// The head moved between the fetch and the check: fetch and check
    /// again.
    Retry,
    /// The pull request cannot be opened now.
    Failed(String),
    /// The pull request is open and its fetched head is current.
    Ready(PreparedPullRequest),
}

/// A check's outcome as plain values: for a ready pull request, its title
/// and the commit to start from.
pub enum PreparationView {
    Retry,
    Failed(Seq<char>),
    Ready { title: Seq<char>, head: Seq<char> },
}

/// One attempt at checking pull request `number` of `repo_name`, from what
/// fetching its head gave (the fetched commit, or the error) and the answer
/// of `gh pr view --json number,title,state,headRefOid` (or the error running
/// it). The pull request must be open and its head must be the fetched
/// commit; on the first attempt a moved head asks for another attempt.
pub open spec fn prepare_spec(
    repo_name: Seq<char>,
    number: u64,
    attempt: u8,
    fetched: Result<Seq<char>, Seq<char>>,
    view: Result<Json, Seq<char>>,
) -> PreparationView {
    let pr = "PR #"@ + decimal(number as nat);
    match fetched {
        Err(e) => PreparationView::Failed(
            "Could not fetch "@ + pr + " from "@ + repo_name + ": "@ + e,
        ),
        Ok(commit) => match view {
            Err(e) => PreparationView::Failed(
                contextualize_spec("Could not revalidate "@ + pr + " for "@ + repo_name, e),
            ),
            Ok(value) => match required_spec(value, "state"@) {
                Err(e) => PreparationView::Failed(e),
                Ok(state) => if state != "OPEN"@ {
                    PreparationView::Failed(
                        pr + " is no longer open. Press Ctrl-R to refresh."@,
                    )
                } else {
                    match required_spec(value, "headRefOid"@) {
                        Err(e) => PreparationView::Failed(e),
                        Ok(head) => if head != commit {
                            if attempt == 0 {
                                PreparationView::Retry
                            } else {
                                PreparationView::Failed(
                                    pr + " changed while opening. Try again."@,
                                )
                            }
                        } else {
                            match required_spec(value, "title"@) {
                                Err(e) => PreparationView::Failed(e),
                                Ok(title) => PreparationView::Ready { title, head: commit },
                            }
                        },
                    }
                },
            },
        },
    }
}

/// The outcome of opening a pull request with at most two attempts: the
/// second attempt counts only when the first asked for another.
pub open spec fn two_attempts(first: PreparationView, second: PreparationView) -> PreparationView {
    if first is Retry {
        second
    } else {
        first
    }
}

/// Opening a pull request takes at most two attempts: the second attempt
/// never asks for a third, so two attempts always end; when the head moved
/// on the first attempt and is still not the fetched commit on the second,
/// opening fails with "changed while opening"; and a pull request is only
/// ever ready when it is open and the commit to start from is the fetched
/// commit, which is the head GitHub reports.
pub proof fn law_preparation_attempts(
    repo_name: Seq<char>,
    number: u64,
    fetched: Result<Seq<char>, Seq<char>>,
    view: Result<Json, Seq<char>>,
    second_fetched: Result<Seq<char>, Seq<char>>,
    second_view: Result<Json, Seq<char>>,
)
    ensures
        !(prepare_spec(repo_name, number, 1, fetched, view) is Retry),
        !(two_attempts(
            prepare_spec(repo_name, number, 0, fetched, view),
            prepare_spec(repo_name, number, 1, second_fetched, second_view),
        ) is Retry),
        prepare_spec(repo_name, number, 0, fetched, view) is Retry ==> prepare_spec(
            repo_name,
            number,
            1,
            fetched,
            view,
        ) == PreparationView::Failed(
            "PR #"@ + decimal(number as nat) + " changed while opening. Try again."@,
        ),
        forall|attempt: u8|
            #[trigger] prepare_spec(repo_name, number, attempt, fetched, view) matches PreparationView::Ready {
                title,
                head,
            } ==> fetched == Ok::<Seq<char>, Seq<char>>(head) && (view matches Ok(value)
                && required_spec(value, "state"@) == Ok::<Seq<char>, Seq<char>>("OPEN"@)
                && required_spec(value, "headRefOid"@) == Ok::<Seq<char>, Seq<char>>(head)
                && required_spec(value, "title"@) == Ok::<Seq<char>, Seq<char>>(title)),
{
}

/// A fetch result as plain values.
pub open spec fn fetched_view(r: Result<String, String>) -> Result<Seq<char>, Seq<char>> {
    match r {
        Ok(s) => Ok(s@),
        Err(e) => Err(e@),
    }
}

/// The outcome of checking a pull request, before a branch is named for it.
enum Checked {
    Retry,
    Failed(String),
    Ready { title: String, head: String },
}

spec fn checked_view(c: Checked) -> PreparationView {
    match c {
        Checked::Retry => PreparationView::Retry,
        Checked::Failed(e) => PreparationView::Failed(e@),
        Checked::Ready { title, head } => PreparationView::Ready { title: title@, head: head@ },
    }
}

fn check_pull_request(
    repo_name: &str,
    number: u64,
    attempt: u8,
    fetched: Result<String, String>,
    view: Result<Json, String>,
) -> (r: Checked)
    ensures
        checked_view(r) == prepare_spec(
            repo_name@,
            number,
            attempt,
            fetched_view(fetched),
            answer_view(view),
        ),
{
    proof {
        reveal_strlit("state");
        reveal_strlit("OPEN");
        reveal_strlit("headRefOid");
        reveal_strlit("title");
    }
    let number_text = decimal_string(number);
    let pr = join2("PR #", number_text.as_str());
    let commit = match fetched {
        Err(e) => {
            let mut message = join3("Could not fetch ", pr.as_str(), " from ");
            message.append(repo_name);
            message.append(": ");
            message.append(e.as_str());
            return Checked::Failed(message);
        },
        Ok(commit) => commit,
    };
    let value = match view {
        Err(e) => {
            let mut operation = join3("Could not revalidate ", pr.as_str(), " for ");
            operation.append(repo_name);
            return Checked::Failed(contextualize(operation.as_str(), e));
        },
        Ok(value) => value,
    };
    let state = match required_string(&value, "state") {
        Err(e) => return Checked::Failed(e),
        Ok(state) => state,
    };
    let open = String::from_str("OPEN");
    if !crate::text::same_text(&state, &open) {
        return Checked::Failed(join2(pr.as_str(), " is no longer open. Press Ctrl-R to refresh."));
    }
    let head = match required_string(&value, "headRefOid") {
        Err(e) => return Checked::Failed(e),
        Ok(head) => head,
    };
    if !crate::text::same_text(&head, &commit) {
        if attempt == 0 {
            return Checked::Retry;
        }
        return Checked::Failed(join2(pr.as_str(), " changed while opening. Try again."));
    }
    match required_string(&value, "title") {
        Err(e) => Checked::Failed(e),
        Ok(title) => Checked::Ready { title, head: commit },
    }
}

/// One attempt at checking a pull request before its worktree is created
/// (attempt 0, then attempt 1 after a `Retry`; only attempt 0 may ask for
/// another). A ready pull request gets a
/// new local branch, the first free name after `existing`, starting at the
/// fetched commit and tracking nothing.
pub fn prepare_pull_request(
    repository: &GitHubRepository,
    number: u64,
    attempt: u8,
    fetched: Result<String, String>,
    view: Result<Json, String>,
    existing: &Vec<String>,
) -> (r: Preparation)
    ensures
        ({
            let outcome = prepare_spec(
                gh_repo_name_spec(repository.host@, repository.name_with_owner@),
                number,
                attempt,
                fetched_view(fetched),
                answer_view(view),
            );
            match r {
                Preparation::Retry => outcome is Retry,
                Preparation::Failed(e) => outcome matches PreparationView::Failed(m) && m =~= e@,
                Preparation::Ready(p) => outcome == (PreparationView::Ready {
                    title: p.title@,
                    head: fetched->Ok_0@,
                }) && p.number == number && opt_view(p.request.base) == Some(fetched->Ok_0@)
                    && p.request.upstream is None && !names_of(existing@).contains(
                    p.request.branch@,
                ) && exists|k: nat|
                    1 <= k && p.request.branch@ == #[trigger] candidate(
                        branch_base_spec(number, p.title@),
                        k,
                    ) && forall|j: nat|
                        1 <= j < k ==> names_of(existing@).contains(
                            #[trigger] candidate(branch_base_spec(number, p.title@), j),
                        ),
            }
        }),
{
    let repo_name = gh_repo_name(repository);
    let ghost fetched_before = fetched;
    match check_pull_request(repo_name.as_str(), number, attempt, fetched, view) {
        Checked::Retry => Preparation::Retry,
        Checked::Failed(e) => Preparation::Failed(e),
        Checked::Ready { title, head } => {
            proof {
                assert(fetched_before is Ok && head@ == fetched_before->Ok_0@);
            }
            let branch = allocate_branch(number, title.as_str(), existing);
            Preparation::Ready(
                PreparedPullRequest {
                    number,
                    title,
                    request: CreateRequest { branch, base: Some(head), upstream: None },
                },
            )
        },
    }
}

} // verus!

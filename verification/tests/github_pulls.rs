use herdr_worktree_picker::github::{
    allocate_branch, branch_base, contextualize, display_date, eq_ignore_ascii_case,
    gh_repo_name, load_open_pull_requests, matches_query, parse_pull_request,
    prepare_pull_request, repository_host, repository_of, required_string, GitHubRepository,
    Preparation, PullRequest,
};
use herdr_worktree_picker::json::Json;

fn member(key: &str, value: Json) -> (String, Json) {
    (key.to_string(), value)
}

fn number(n: u64) -> Json {
    Json::Number { unsigned: Some(n) }
}

fn text(s: &str) -> Json {
    Json::string(s)
}

fn repository(host: &str) -> GitHubRepository {
    GitHubRepository {
        host: host.into(),
        name_with_owner: "acme/widgets".into(),
        fetch_remote: "origin".into(),
    }
}

fn pull_request(number: u64, title: &str, author: &str, head_label: &str) -> PullRequest {
    PullRequest {
        number,
        title: title.into(),
        author: author.into(),
        head_label: head_label.into(),
        is_draft: false,
        updated_at: "2024-05-01T12:00:00Z".into(),
    }
}

fn pr_json(n: u64, title: &str) -> Json {
    Json::object(vec![member("number", number(n)), member("title", text(title))])
}

fn view_json(state: &str, head: &str, title: &str) -> Json {
    Json::object(vec![
        member("number", number(42)),
        member("title", text(title)),
        member("state", text(state)),
        member("headRefOid", text(head)),
    ])
}

#[test]
fn slugging_follows_unicode_and_limit_rules() {
    assert_eq!(branch_base(123, "Fix login redirect"), "pr/123-fix-login-redirect");
    assert_eq!(branch_base(88, "修正: 認証"), "pr/88-修正-認証");
    assert_eq!(branch_base(9, "!!!"), "pr/9");
    assert_eq!(branch_base(1, &"a".repeat(60)), format!("pr/1-{}", "a".repeat(48)));
}

#[test]
fn slug_cut_at_limit_drops_trailing_separator() {
    let title = format!("{} tail", "b".repeat(47));
    assert_eq!(branch_base(5, &title), format!("pr/5-{}", "b".repeat(47)));
    assert_eq!(branch_base(0, "  Leading   and trailing  "), "pr/0-leading-and-trailing");
}

#[test]
fn slug_joins_alphanumeric_runs_with_single_dashes() {
    assert_eq!(branch_base(4, "--a--b--"), "pr/4-a-b");
    assert_eq!(branch_base(4, "Été 2024: déploiement"), "pr/4-été-2024-déploiement");
}

#[test]
fn parses_unknown_optional_identities() {
    let pr = parse_pull_request(&pr_json(7, "Test")).unwrap();
    assert_eq!(pr.author, "unknown");
    assert_eq!(pr.head_label, "unknown/unknown");
}

#[test]
fn parses_full_pull_request() {
    let value = Json::object(vec![
        member("number", number(12)),
        member("title", text("Add widgets")),
        member("author", Json::object(vec![member("login", text("octocat"))])),
        member("headRefName", text("feature/widgets")),
        member(
            "headRepositoryOwner",
            Json::object(vec![member("login", text("forker"))]),
        ),
        member("isDraft", Json::Bool(true)),
        member("updatedAt", text("2024-05-01T12:00:00Z")),
    ]);
    let pr = parse_pull_request(&value).unwrap();
    assert_eq!(pr.number, 12);
    assert_eq!(pr.title, "Add widgets");
    assert_eq!(pr.author, "octocat");
    assert_eq!(pr.head_label, "forker/feature/widgets");
    assert!(pr.is_draft);
    assert_eq!(pr.updated_at, "2024-05-01T12:00:00Z");
}

#[test]
fn pull_request_needs_number_and_title() {
    let no_number = Json::object(vec![member("title", text("x"))]);
    assert_eq!(
        parse_pull_request(&no_number),
        Err("gh PR is missing number".to_string())
    );
    let negative = Json::object(vec![
        member("number", Json::Number { unsigned: None }),
        member("title", text("x")),
    ]);
    assert_eq!(
        parse_pull_request(&negative),
        Err("gh PR is missing number".to_string())
    );
    assert_eq!(
        parse_pull_request(&pr_json(3, "")),
        Err("gh response is missing title".to_string())
    );
}

#[test]
fn required_string_rejects_missing_and_empty() {
    let value = Json::object(vec![member("a", text("x")), member("b", text(""))]);
    assert_eq!(required_string(&value, "a"), Ok("x".to_string()));
    assert_eq!(
        required_string(&value, "b"),
        Err("gh response is missing b".to_string())
    );
    assert_eq!(
        required_string(&value, "c"),
        Err("gh response is missing c".to_string())
    );
}

#[test]
fn missing_cli_message_is_not_wrapped() {
    let required = "GitHub CLI (gh) is required. Install it and run gh auth login.";
    assert_eq!(contextualize("Could not list", required.into()), required);
    assert_eq!(
        contextualize("Could not list", "HTTP 502".into()),
        "Could not list: HTTP 502"
    );
}

#[test]
fn host_comes_from_url() {
    assert_eq!(
        repository_host("https://github.com/acme/widgets"),
        Ok("github.com".to_string())
    );
    assert_eq!(
        repository_host("ghe.example.com/acme/widgets"),
        Ok("ghe.example.com".to_string())
    );
    assert_eq!(
        repository_host("https:///acme"),
        Err("Could not determine GitHub host from https:///acme".to_string())
    );
}

#[test]
fn repo_name_includes_host_off_github() {
    assert_eq!(gh_repo_name(&repository("GitHub.com")), "acme/widgets");
    assert_eq!(
        gh_repo_name(&repository("ghe.example.com")),
        "ghe.example.com/acme/widgets"
    );
    assert!(eq_ignore_ascii_case("GITHUB.COM", "github.com"));
    assert!(!eq_ignore_ascii_case("github.co", "github.com"));
}

#[test]
fn repository_is_read_from_repo_view() {
    let view = Json::object(vec![
        member("nameWithOwner", text("acme/widgets")),
        member("url", text("https://github.com/acme/widgets")),
    ]);
    assert_eq!(
        repository_of(Ok(view)),
        Ok(("github.com".to_string(), "acme/widgets".to_string()))
    );
    assert_eq!(
        repository_of(Err("no git remotes".into())),
        Err("Could not resolve GitHub repository: no git remotes".to_string())
    );
}

#[test]
fn allocation_skips_taken_names() {
    let existing = vec![
        "pr/7-fix".to_string(),
        "pr/7-fix-2".to_string(),
        "main".to_string(),
    ];
    assert_eq!(allocate_branch(7, "Fix", &existing), "pr/7-fix-3");
    assert_eq!(allocate_branch(8, "Fix", &existing), "pr/8-fix");
    assert_eq!(allocate_branch(9, "", &vec!["pr/9".to_string()]), "pr/9-2");
}

#[test]
fn search_matches_number_title_author_and_head() {
    let pr = pull_request(1234, "Fix Login", "Octocat", "forker/feature");
    assert!(matches_query(&pr, ""));
    assert!(matches_query(&pr, "123"));
    assert!(matches_query(&pr, "login"));
    assert!(matches_query(&pr, "OCTO"));
    assert!(matches_query(&pr, "forker/"));
    assert!(!matches_query(&pr, "zzz"));
}

#[test]
fn dates_are_cut_to_the_day() {
    assert_eq!(display_date("2024-05-01T12:00:00Z"), "2024-05-01");
    assert_eq!(display_date("2024-05"), "2024-05");
    assert_eq!(display_date("2024-05-01"), "2024-05-01");
    assert_eq!(display_date("2024-05-0é1"), "2024-05-0é1");
}

#[test]
fn list_is_parsed_and_truncated() {
    let items: Vec<Json> = (1..=1001).map(|n| pr_json(n, "t")).collect();
    let list = load_open_pull_requests(repository("github.com"), Ok(Json::Array(items))).unwrap();
    assert_eq!(list.items.len(), 1000);
    assert!(list.truncated);
    assert_eq!(list.items[999].number, 1000);

    let short = load_open_pull_requests(
        repository("github.com"),
        Ok(Json::Array(vec![pr_json(5, "five")])),
    )
    .unwrap();
    assert!(!short.truncated);
    assert_eq!(short.items[0].title, "five");
}

#[test]
fn list_errors_are_reported() {
    assert_eq!(
        load_open_pull_requests(repository("github.com"), Err("HTTP 401".into())),
        Err("Could not list open pull requests for acme/widgets: HTTP 401".to_string())
    );
    assert_eq!(
        load_open_pull_requests(repository("github.com"), Ok(Json::Null)),
        Err("gh pr list returned invalid JSON".to_string())
    );
    let bad = Json::Array(vec![pr_json(1, "ok"), Json::object(vec![])]);
    assert_eq!(
        load_open_pull_requests(repository("github.com"), Ok(bad)),
        Err("gh PR is missing number".to_string())
    );
}

#[test]
fn preparation_creates_branch_at_fetched_head() {
    let existing = vec!["pr/42-add-widgets".to_string()];
    let result = prepare_pull_request(
        &repository("github.com"),
        42,
        0,
        Ok("abc123".into()),
        Ok(view_json("OPEN", "abc123", "Add widgets")),
        &existing,
    );
    match result {
        Preparation::Ready(prepared) => {
            assert_eq!(prepared.number, 42);
            assert_eq!(prepared.title, "Add widgets");
            assert_eq!(prepared.request.branch, "pr/42-add-widgets-2");
            assert_eq!(prepared.request.base.as_deref(), Some("abc123"));
            assert_eq!(prepared.request.upstream, None);
        }
        other => panic!("unexpected {other:?}"),
    }
}

#[test]
fn preparation_retries_once_when_head_moves() {
    let repo = repository("github.com");
    let existing: Vec<String> = Vec::new();
    let first = prepare_pull_request(
        &repo,
        42,
        0,
        Ok("abc123".into()),
        Ok(view_json("OPEN", "def456", "t")),
        &existing,
    );
    assert_eq!(first, Preparation::Retry);
    let second = prepare_pull_request(
        &repo,
        42,
        1,
        Ok("abc123".into()),
        Ok(view_json("OPEN", "def456", "t")),
        &existing,
    );
    assert_eq!(
        second,
        Preparation::Failed("PR #42 changed while opening. Try again.".into())
    );
}

#[test]
fn preparation_refuses_closed_and_failed_fetch() {
    let repo = repository("ghe.example.com");
    let existing: Vec<String> = Vec::new();
    assert_eq!(
        prepare_pull_request(
            &repo,
            42,
            0,
            Ok("abc".into()),
            Ok(view_json("MERGED", "abc", "t")),
            &existing
        ),
        Preparation::Failed("PR #42 is no longer open. Press Ctrl-R to refresh.".into())
    );
    assert_eq!(
        prepare_pull_request(
            &repo,
            42,
            0,
            Err("refused".into()),
            Err(String::new()),
            &existing
        ),
        Preparation::Failed(
            "Could not fetch PR #42 from ghe.example.com/acme/widgets: refused".into()
        )
    );
    assert_eq!(
        prepare_pull_request(
            &repo,
            42,
            0,
            Ok("abc".into()),
            Err("timeout".into()),
            &existing
        ),
        Preparation::Failed(
            "Could not revalidate PR #42 for ghe.example.com/acme/widgets: timeout".into()
        )
    );
}

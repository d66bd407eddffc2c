use eslauncher2::github::{
    check_ratelimit, download_total, get_cd_workflow, get_git_ref, get_latest_workflow_run, get_pr,
    get_release_assets, get_release_by_tag, get_workflow_run_artifacts, latest_release_url,
    next_page, next_page_of, ratelimit_notice, release_tag, unblock_artifact_download, workflow_runs_url, workflows_url,
    GithubError, NextPage, RateLimitNotice, Repo, ResetNotice, Workflow, WorkflowRun,
    WorkflowRuns,
};

fn workflow(name: &str, id: u32) -> Workflow {
    Workflow { name: name.to_string(), id }
}

fn run(id: u64, run_number: u32, repo: Option<u32>) -> WorkflowRun {
    WorkflowRun { id, run_number, head_repository: repo.map(|id| Repo { id }) }
}

#[test]
fn api_addresses() {
    assert_eq!(get_pr(4242), "https://api.github.com/repos/endless-sky/endless-sky/pulls/4242");
    assert_eq!(
        unblock_artifact_download(17),
        "https://artifact-unblocker.mcofficer.workers.dev/artifact/17"
    );
    assert_eq!(workflows_url(), "https://api.github.com/repos/endless-sky/endless-sky/actions/workflows");
    assert_eq!(
        workflow_runs_url(99, "feature/x"),
        "https://api.github.com/repos/endless-sky/endless-sky/actions/workflows/99/runs?branch=feature/x"
    );
    assert_eq!(
        get_workflow_run_artifacts(123456789012),
        "https://api.github.com/repos/endless-sky/endless-sky/actions/runs/123456789012/artifacts"
    );
    assert_eq!(
        get_git_ref("tags/continuous"),
        "https://api.github.com/repos/endless-sky/endless-sky/git/ref/tags/continuous"
    );
    assert_eq!(
        get_release_by_tag("v0.9.16"),
        "https://api.github.com/repos/endless-sky/endless-sky/releases/tags/v0.9.16"
    );
    assert_eq!(
        get_release_assets(-5),
        "https://api.github.com/repos/endless-sky/endless-sky/releases/-5/assets"
    );
    assert_eq!(
        latest_release_url("EndlessSkyCommunity/ESLauncher2"),
        "https://github.com/EndlessSkyCommunity/ESLauncher2/releases/latest"
    );
}

#[test]
fn the_first_cd_workflow_is_chosen() {
    let ws = vec![workflow("Lint", 1), workflow("CD", 2), workflow("CD", 3)];
    let w = get_cd_workflow(ws).unwrap();
    assert_eq!(w.id, 2);
    assert_eq!(get_cd_workflow(vec![workflow("cd", 1)]).err(), Some(GithubError::NoCdWorkflow));
    assert_eq!(get_cd_workflow(Vec::new()).err(), Some(GithubError::NoCdWorkflow));
}

#[test]
fn the_newest_run_of_the_head_repository_is_chosen() {
    let pages = vec![
        WorkflowRuns { workflow_runs: vec![run(1, 10, Some(7)), run(2, 30, Some(8))] },
        WorkflowRuns { workflow_runs: vec![run(3, 20, Some(7)), run(4, 5, None)] },
    ];
    assert_eq!(get_latest_workflow_run(pages, 7).unwrap().id, 3);
}

#[test]
fn among_equal_run_numbers_the_last_run_wins() {
    let pages = vec![
        WorkflowRuns { workflow_runs: vec![run(1, 20, Some(7))] },
        WorkflowRuns { workflow_runs: vec![run(2, 20, Some(7)), run(3, 19, Some(7))] },
    ];
    assert_eq!(get_latest_workflow_run(pages, 7).unwrap().id, 2);
}

#[test]
fn no_run_for_the_head_repository_is_an_error() {
    let pages = vec![WorkflowRuns { workflow_runs: vec![run(1, 20, Some(8)), run(2, 1, None)] }];
    assert_eq!(get_latest_workflow_run(pages, 7).err(), Some(GithubError::NoSuitableRun));
    assert_eq!(get_latest_workflow_run(Vec::new(), 7).err(), Some(GithubError::NoSuitableRun));
}

#[test]
fn the_release_tag_follows_the_last_slash() {
    assert_eq!(
        release_tag("https://github.com/EndlessSkyCommunity/ESLauncher2/releases/tag/v0.8.3"),
        Some("v0.8.3".to_string())
    );
    assert_eq!(release_tag("https://github.com/x/releases/"), Some(String::new()));
    assert_eq!(release_tag("no-slash-here"), None);
}

#[test]
fn pagination_follows_the_next_link() {
    let header = "<https://api.github.com/x?page=2>; rel=\"next\", <https://api.github.com/x?page=5>; rel=\"last\"";
    match next_page(Some(header)) {
        NextPage::Follow(u) => assert_eq!(u, "https://api.github.com/x?page=2"),
        other => panic!("expected a next page, got {:?}", other),
    }
    let last = "<https://api.github.com/x?page=1>; rel=\"first\", <https://api.github.com/x?page=4>; rel=\"prev\"";
    assert!(matches!(next_page(Some(last)), NextPage::Last));
    assert!(matches!(next_page(None), NextPage::Last));
    assert!(matches!(next_page(Some("<https://x/?a>; rel=\"next\"")), NextPage::BadHeader));
}

#[test]
fn rate_limit_notices() {
    assert_eq!(check_ratelimit(None, None, 0), RateLimitNotice::Quiet);
    assert_eq!(check_ratelimit(Some("5000"), None, 0), RateLimitNotice::Quiet);
    assert_eq!(check_ratelimit(Some("10"), None, 0), RateLimitNotice::Quiet);
    assert_eq!(check_ratelimit(Some("9"), None, 0), RateLimitNotice::Low(9));
    assert_eq!(check_ratelimit(Some("-1"), None, 0), RateLimitNotice::BadRemaining);
    assert_eq!(check_ratelimit(Some("lots"), Some("5"), 0), RateLimitNotice::BadRemaining);
    assert_eq!(
        check_ratelimit(Some("0"), None, 0),
        RateLimitNotice::Exceeded(ResetNotice::Unknown)
    );
    assert_eq!(
        check_ratelimit(Some("0"), Some("soon"), 0),
        RateLimitNotice::Exceeded(ResetNotice::BadReset)
    );
    assert_eq!(
        check_ratelimit(Some("0"), Some("1700000600"), 1700000000),
        RateLimitNotice::Exceeded(ResetNotice::InMinutes(10))
    );
    assert_eq!(
        check_ratelimit(Some("0"), Some("1700000119"), 1700000000),
        RateLimitNotice::Exceeded(ResetNotice::InMinutes(1))
    );
    // a reset in the past rounds toward zero, as integer division in Rust does
    assert_eq!(
        check_ratelimit(Some("0"), Some("1699999910"), 1700000000),
        RateLimitNotice::Exceeded(ResetNotice::InMinutes(-1))
    );
    assert_eq!(
        check_ratelimit(Some("0"), Some("-9223372036854775808"), 9223372036854775807),
        RateLimitNotice::Exceeded(ResetNotice::InMinutes((-18446744073709551615i128) / 60))
    );
}

#[test]
fn download_sizes() {
    assert_eq!(download_total(Some("1024"), Some(5)), Some(1024));
    assert_eq!(download_total(Some("huge"), Some(5)), Some(5));
    assert_eq!(download_total(Some("99999999999"), None), None);
    assert_eq!(download_total(None, Some(7)), Some(7));
    assert_eq!(download_total(None, None), None);
}

#[test]
fn next_links() {
    assert!(matches!(next_page_of(None), NextPage::BadHeader));
    assert!(matches!(next_page_of(Some(None)), NextPage::Last));
    assert!(matches!(next_page_of(Some(Some("https://a/?page=3".to_string()))), NextPage::Follow(u) if u == "https://a/?page=3"));
}

#[test]
fn rate_limit_notices_now() {
    assert_eq!(ratelimit_notice(Some("3"), None), RateLimitNotice::Low(3));
    assert_eq!(ratelimit_notice(Some("0"), None), RateLimitNotice::Exceeded(ResetNotice::Unknown));
    assert_eq!(ratelimit_notice(None, Some("1")), RateLimitNotice::Quiet);
    match ratelimit_notice(Some("0"), Some("0")) {
        RateLimitNotice::Exceeded(ResetNotice::InMinutes(m)) => assert!(m < 0),
        other => panic!("expected an exceeded limit, got {:?}", other),
    }
}

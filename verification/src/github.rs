//! The GitHub API as the launcher uses it: the endpoints it asks, and what it makes
//! of the answers (the CD workflow, the newest suitable workflow run, pagination,
//! the rate limit, the newest release).
//!
//! Sending the requests and decoding their JSON answers into these types is up to
//! the caller.

use vstd::prelude::*;
use crate::text::{
    join_str, chars_of, string_of, decimal, signed_decimal, u64_to_decimal, i64_to_decimal,
    parse_u32, parse_i64, parse_unsigned, parse_i64_spec,
};

verus! {

#[derive(Debug, Clone, Copy, PartialEq, Eq, Structural)]
pub struct Repo {
    pub id: u32,
}

/// Something a release or a build offers for download.
pub trait Artifact {
    spec fn spec_name(&self) -> Seq<char>;

    spec fn spec_expired(&self) -> bool;

    fn name(&self) -> (r: &str)
        ensures
            r@ == self.spec_name(),
    ;

    fn expired(&self) -> (r: bool)
        ensures
            r == self.spec_expired(),
    ;
}

pub struct PR {
    pub head: PRHead,
}

pub struct PRHead {
    pub branch: String,
    pub repo: Repo,
    pub sha: String,
}

pub struct Workflow {
    pub name: String,
    pub id: u32,
}

pub struct WorkflowRuns {
    pub workflow_runs: Vec<WorkflowRun>,
}

#[derive(Debug, Clone, Copy, PartialEq, Eq, Structural)]
pub struct WorkflowRun {
    pub id: u64,
    pub run_number: u32,
    pub head_repository: Option<Repo>,
}

pub struct WorkflowRunArtifact {
    pub id: u32,
    pub size_in_bytes: u32,
    pub name: String,
    pub expired: bool,
}

impl Artifact for WorkflowRunArtifact {
    open spec fn spec_name(&self) -> Seq<char> {
        self.name@
    }

    open spec fn spec_expired(&self) -> bool {
        self.expired
    }

    fn name(&self) -> (r: &str) {
        self.name.as_str()
    }

    fn expired(&self) -> (r: bool) {
        self.expired
    }
}

pub struct GitRef {
    pub object: GitObject,
}

pub struct GitObject {
    pub sha: String,
}

pub struct Release {
    pub id: i64,
    pub tag_name: String,
}

pub struct ReleaseAsset {
    pub id: i64,
    pub name: String,
    pub browser_download_url: String,
}

impl Artifact for ReleaseAsset {
    open spec fn spec_name(&self) -> Seq<char> {
        self.name@
    }

    /// Release assets never expire.
    open spec fn spec_expired(&self) -> bool {
        false
    }

    fn name(&self) -> (r: &str) {
        self.name.as_str()
    }

    fn expired(&self) -> (r: bool) {
        false
    }
}

/// Why an answer of the API was of no use.
#[derive(Debug, PartialEq, Eq, Structural)]
pub enum GithubError {
    /// No workflow is called `CD`.
    NoCdWorkflow,
    /// No run of the workflow was made for the pull request's head repository.
    NoSuitableRun,
}

/// The endpoint that describes pull request `id` of endless-sky.
pub fn get_pr(id: u16) -> (r: String)
    ensures
        r@ == "https://api.github.com/repos/endless-sky/endless-sky/pulls/"@ + decimal(id as nat),
{
    let n = u64_to_decimal(id as u64);
    join_str("https://api.github.com/repos/endless-sky/endless-sky/pulls/", n.as_str())
}

/// The address at which the artifact `artifact_id` can be downloaded without a
/// GitHub login.
pub fn unblock_artifact_download(artifact_id: u32) -> (r: String)
    ensures
        r@ == "https://artifact-unblocker.mcofficer.workers.dev/artifact/"@ + decimal(
            artifact_id as nat,
        ),
{
    let n = u64_to_decimal(artifact_id as u64);
    join_str("https://artifact-unblocker.mcofficer.workers.dev/artifact/", n.as_str())
}

/// The endpoint that lists the workflows of endless-sky.
pub fn workflows_url() -> (r: String)
    ensures
        r@ == "https://api.github.com/repos/endless-sky/endless-sky/actions/workflows"@,
{
    String::from_str("https://api.github.com/repos/endless-sky/endless-sky/actions/workflows")
}

/// `ws[k]` is the first workflow called `CD`.
pub open spec fn is_first_cd(ws: Seq<Workflow>, k: int) -> bool {
    &&& 0 <= k < ws.len()
    &&& ws[k].name@ == "CD"@
    &&& forall|j: int| 0 <= j < k ==> (#[trigger] ws[j]).name@ != "CD"@
}

/// The workflow called `CD` among `workflows` (the first one, if several are).
pub fn get_cd_workflow(workflows: Vec<Workflow>) -> (r: Result<Workflow, GithubError>)
    ensures
        match r {
            Ok(w) => exists|k: int| is_first_cd(workflows@, k) && #[trigger] workflows@[k] == w,
            Err(e) => e == GithubError::NoCdWorkflow && forall|j: int|
                0 <= j < workflows@.len() ==> (#[trigger] workflows@[j]).name@ != "CD"@,
        },
{
    let ghost all = workflows@;
    let mut list = workflows;
    let cd = String::from_str("CD");
    let mut k: usize = 0;
    while k < list.len()
        invariant
            list@ == all,
            all == workflows@,
            cd@ == "CD"@,
            k <= list.len(),
            forall|j: int| 0 <= j < k ==> (#[trigger] list@[j]).name@ != "CD"@,
        decreases list.len() - k,
    {
        if list[k].name == cd {
            let w = list.remove(k);
            assert(is_first_cd(all, k as int));
            return Ok(w);
        }
        k = k + 1;
    }
    Err(GithubError::NoCdWorkflow)
}

/// The endpoint that lists the runs of workflow `workflow_id` on `branch`.
pub fn workflow_runs_url(workflow_id: u32, branch: &str) -> (r: String)
    ensures
        r@ == "https://api.github.com/repos/endless-sky/endless-sky/actions/workflows/"@ + decimal(
            workflow_id as nat,
        ) + "/runs?branch="@ + branch@,
{
    let n = u64_to_decimal(workflow_id as u64);
    let a = join_str("https://api.github.com/repos/endless-sky/endless-sky/actions/workflows/", n.as_str());
    let b = join_str(a.as_str(), "/runs?branch=");
    join_str(b.as_str(), branch)
}

/// All runs of all pages, page after page.
pub open spec fn all_runs(pages: Seq<WorkflowRuns>) -> Seq<WorkflowRun>
    decreases pages.len(),
{
    if pages.len() == 0 {
        Seq::empty()
    } else {
        all_runs(pages.drop_last()) + pages.last().workflow_runs@
    }
}

/// The run was made for the head repository `repo_id`.
pub open spec fn suitable(run: WorkflowRun, repo_id: u32) -> bool {
    run.head_repository matches Some(r) && r.id == repo_id
}

/// `runs[k]` is the run that `Iterator::max_by_key` on the run number picks among
/// the suitable runs: a suitable run with the largest run number, the last one where
/// several share it.
pub open spec fn is_latest_suitable(runs: Seq<WorkflowRun>, repo_id: u32, k: int) -> bool {
    &&& 0 <= k < runs.len()
    &&& suitable(runs[k], repo_id)
    &&& forall|j: int|
        0 <= j < runs.len() && suitable(#[trigger] runs[j], repo_id) ==> runs[j].run_number
            <= runs[k].run_number
    &&& forall|j: int|
        k < j < runs.len() && suitable(#[trigger] runs[j], repo_id) ==> runs[j].run_number
            < runs[k].run_number
}

/// The newest run (by run number) among the runs of all pages that was made for the
/// head repository `head_repo_id`.
#[verifier::rlimit(30)]
pub fn get_latest_workflow_run(pages: Vec<WorkflowRuns>, head_repo_id: u32) -> (r: Result<
    WorkflowRun,
    GithubError,
>)
    ensures
        match r {
            Ok(run) => exists|k: int|
                is_latest_suitable(all_runs(pages@), head_repo_id, k) && all_runs(pages@)[k] == run,
            Err(e) => e == GithubError::NoSuitableRun && forall|j: int|
                0 <= j < all_runs(pages@).len() ==> !suitable(
                    #[trigger] all_runs(pages@)[j],
                    head_repo_id,
                ),
        },
{
    let mut runs: Vec<WorkflowRun> = Vec::new();
    let mut p: usize = 0;
    while p < pages.len()
        invariant
            p <= pages.len(),
            runs@ == all_runs(pages@.subrange(0, p as int)),
        decreases pages.len() - p,
    {
        assert(pages@.subrange(0, p + 1).drop_last() =~= pages@.subrange(0, p as int));
        let page = &pages[p].workflow_runs;
        let ghost before = runs@;
        let mut q: usize = 0;
        while q < page.len()
            invariant
                q <= page.len(),
                runs@ == before + page@.subrange(0, q as int),
            decreases page.len() - q,
        {
            runs.push(page[q]);
            q = q + 1;
            assert(before + page@.subrange(0, q as int) =~= (before + page@.subrange(0, q - 1)).push(
                page@[q - 1],
            ));
        }
        assert(page@.subrange(0, q as int) =~= page@);
        p = p + 1;
    }
    assert(pages@.subrange(0, p as int) =~= pages@);
    let ghost all = runs@;
    let mut best: Option<usize> = None;
    let mut i: usize = 0;
    while i < runs.len()
        invariant
            i <= runs.len(),
            runs@ == all,
            match best {
                Some(k) => is_latest_suitable(all.subrange(0, i as int), head_repo_id, k as int),
                None => forall|j: int| 0 <= j < i ==> !suitable(#[trigger] all[j], head_repo_id),
            },
        decreases runs.len() - i,
    {
        let run = runs[i];
        let fits = match run.head_repository {
            Some(repo) => repo.id == head_repo_id,
            None => false,
        };
        let ghost pre = all.subrange(0, i as int);
        let ghost post = all.subrange(0, i + 1);
        assert forall|j: int| 0 <= j < i implies post[j] == pre[j] by {}
        if fits {
            match best {
                Some(k) => {
                    if runs[k].run_number <= run.run_number {
                        best = Some(i);
                    }
                },
                None => {
                    best = Some(i);
                },
            }
        }
        i = i + 1;
    }
    assert(all.subrange(0, i as int) =~= all);
    match best {
        Some(k) => Ok(runs[k]),
        None => Err(GithubError::NoSuitableRun),
    }
}

/// The endpoint that lists the artifacts of workflow run `run_id`.
pub fn get_workflow_run_artifacts(run_id: u64) -> (r: String)
    ensures
        r@ == "https://api.github.com/repos/endless-sky/endless-sky/actions/runs/"@ + decimal(
            run_id as nat,
        ) + "/artifacts"@,
{
    let n = u64_to_decimal(run_id);
    let a = join_str("https://api.github.com/repos/endless-sky/endless-sky/actions/runs/", n.as_str());
    join_str(a.as_str(), "/artifacts")
}

/// The endpoint that describes the git reference `name` (such as `tags/continuous`).
pub fn get_git_ref(name: &str) -> (r: String)
    ensures
        r@ == "https://api.github.com/repos/endless-sky/endless-sky/git/ref/"@ + name@,
{
    join_str("https://api.github.com/repos/endless-sky/endless-sky/git/ref/", name)
}

/// The endpoint that describes the release tagged `tag`.
pub fn get_release_by_tag(tag: &str) -> (r: String)
    ensures
        r@ == "https://api.github.com/repos/endless-sky/endless-sky/releases/tags/"@ + tag@,
{
    join_str("https://api.github.com/repos/endless-sky/endless-sky/releases/tags/", tag)
}

/// The endpoint that lists the assets of release `release_id`.
pub fn get_release_assets(release_id: i64) -> (r: String)
    ensures
        r@ == "https://api.github.com/repos/endless-sky/endless-sky/releases/"@ + signed_decimal(
            release_id as int,
        ) + "/assets"@,
{
    let n = i64_to_decimal(release_id);
    let a = join_str("https://api.github.com/repos/endless-sky/endless-sky/releases/", n.as_str());
    join_str(a.as_str(), "/assets")
}

/// The page that GitHub redirects to the newest release of `repo_slug`.
pub fn latest_release_url(repo_slug: &str) -> (r: String)
    ensures
        r@ == "https://github.com/"@ + repo_slug@ + "/releases/latest"@,
{
    let a = join_str("https://github.com/", repo_slug);
    join_str(a.as_str(), "/releases/latest")
}

/// The position of the last `/` in `s`.
pub open spec fn last_slash(s: Seq<char>) -> Option<int>
    decreases s.len(),
{
    if s.len() == 0 {
        None
    } else if s.last() == '/' {
        Some(s.len() - 1)
    } else {
        last_slash(s.drop_last())
    }
}

/// The tag of the newest release, read from the address that the latest-release
/// page redirected to: what follows its last `/`, or `None` when it has none.
pub open spec fn release_tag_spec(url: Seq<char>) -> Option<Seq<char>> {
    match last_slash(url) {
        Some(k) => Some(url.subrange(k + 1, url.len() as int)),
        None => None,
    }
}

proof fn lemma_last_slash(s: Seq<char>)
    ensures
        match last_slash(s) {
            Some(k) => 0 <= k < s.len() && s[k] == '/' && forall|j: int|
                k < j < s.len() ==> s[j] != '/',
            None => forall|j: int| 0 <= j < s.len() ==> s[j] != '/',
        },
    decreases s.len(),
{
    if s.len() > 0 && s.last() != '/' {
        lemma_last_slash(s.drop_last());
        assert forall|j: int| 0 <= j < s.len() - 1 implies s[j] == s.drop_last()[j] by {}
    }
}

/// Reads the newest release's tag from the address that the latest-release page
/// redirected to (see [`release_tag_spec`]).
pub fn release_tag(url: &str) -> (r: Option<String>)
    ensures
        match r {
            Some(t) => release_tag_spec(url@) == Some(t@),
            None => release_tag_spec(url@) is None,
        },
{
    let c = chars_of(url);
    let mut k: usize = c.len();
    assert(c@.subrange(0, k as int) =~= c@);
    while k > 0
        invariant
            k <= c.len(),
            c@ == url@,
            last_slash(c@) == last_slash(c@.subrange(0, k as int)),
        decreases k,
    {
        assert(c@.subrange(0, k as int).drop_last() =~= c@.subrange(0, k - 1));
        if c[k - 1] == '/' {
            let mut tag: Vec<char> = Vec::new();
            let mut j: usize = k;
            while j < c.len()
                invariant
                    k <= j <= c.len(),
                    tag@ =~= c@.subrange(k as int, j as int),
                decreases c.len() - j,
            {
                tag.push(c[j]);
                j = j + 1;
            }
            return Some(string_of(&tag));
        }
        k = k - 1;
    }
    None
}

/// A tag is what follows the last `/`: it holds no `/` itself.
pub proof fn lemma_release_tag_has_no_slash(url: Seq<char>)
    ensures
        release_tag_spec(url) matches Some(t) ==> (forall|j: int| 0 <= j < t.len() ==> t[j] != '/'),
        release_tag_spec(url) matches Some(t) ==> url =~= url.subrange(0, url.len() - t.len() - 1)
            + seq!['/'] + t,
{
    lemma_last_slash(url);
    if let Some(k) = last_slash(url) {
        let t = url.subrange(k + 1, url.len() as int);
        assert forall|j: int| 0 <= j < t.len() implies t[j] != '/' by {
            assert(t[j] == url[k + 1 + j]);
        }
    }
}

/// The target of the link of relation `rel` in the HTTP `Link` header `header`:
/// `None` when `parse_link_header::parse` rejects the header, `Some(None)` when the
/// header has no link of that relation.
pub uninterp spec fn link_target(header: Seq<char>, rel: Seq<char>) -> Option<Option<Seq<char>>>;

pub open spec fn link_view(r: Option<Option<String>>) -> Option<Option<Seq<char>>> {
    match r {
        Some(Some(s)) => Some(Some(s@)),
        Some(None) => Some(None),
        None => None,
    }
}

/// Parses `header` with `parse_link_header::parse` and renders the URI of the link
/// whose `rel` is `rel`. Claimed: the result is [`link_target`] of the two arguments.
#[verifier::external_body]
fn parse_link(header: &str, rel: &str) -> (r: Option<Option<String>>)
    ensures
        link_view(r) == link_target(header@, rel@),
{
    match parse_link_header::parse(header) {
        Ok(links) => Some(links.get(&Some(rel.to_string())).map(|l| l.uri.to_string())),
        Err(_) => None,
    }
}

/// What a paginated request does after a page.
#[derive(Debug)]
pub enum NextPage {
    /// Request this address next.
    Follow(String),
    /// This was the last page.
    Last,
    /// The `Link` header could not be parsed; the request stops here.
    BadHeader,
}

/// After a page whose `Link` header is `link_header` (`None` when the answer had
/// none): follow the `next` link when there is one.
pub fn next_page(link_header: Option<&str>) -> (r: NextPage)
    ensures
        match link_header {
            None => r is Last,
            Some(h) => match link_target(h@, "next"@) {
                None => r is BadHeader,
                Some(None) => r is Last,
                Some(Some(u)) => r matches NextPage::Follow(s) && s@ == u,
            },
        },
{
    match link_header {
        None => NextPage::Last,
        Some(h) => next_page_of(parse_link(h, "next")),
    }
}

/// What to do given the `next` link read from a `Link` header: `None` when the
/// header could not be parsed, `Some(None)` when it has no `next` link.
pub fn next_page_of(next_link: Option<Option<String>>) -> (r: NextPage)
    ensures
        match next_link {
            None => r is BadHeader,
            Some(None) => r is Last,
            Some(Some(u)) => r matches NextPage::Follow(s) && s == u,
        },
{
    match next_link {
        None => NextPage::BadHeader,
        Some(None) => NextPage::Last,
        Some(Some(u)) => NextPage::Follow(u),
    }
}

/// What the rate-limit headers of an answer call for.
#[derive(Debug, PartialEq, Eq, Structural)]
pub enum RateLimitNotice {
    /// Nothing to report.
    Quiet,
    /// The remaining-requests header is not a `u32`.
    BadRemaining,
    /// Fewer than ten requests remain.
    Low(u32),
    /// No request remains.
    Exceeded(ResetNotice),
}

/// When an exhausted rate limit resets.
#[derive(Debug, PartialEq, Eq, Structural)]
pub enum ResetNotice {
    /// The answer did not say.
    Unknown,
    /// The reset header is not an `i64`.
    BadReset,
    /// The limit resets in this many whole minutes (rounded toward zero).
    InMinutes(i128),
}

/// Integer division rounded toward zero, as Rust divides.
pub open spec fn div_toward_zero(a: int, b: int) -> int {
    if a >= 0 {
        a / b
    } else {
        -((-a) / b)
    }
}

/// The notice for the headers `X-RateLimit-Remaining` (`remaining`) and
/// `X-RateLimit-Reset` (`reset`, a Unix time), read at Unix time `now`.
pub open spec fn ratelimit_spec(remaining: Option<Seq<char>>, reset: Option<Seq<char>>, now: int) -> RateLimitNotice {
    match remaining {
        None => RateLimitNotice::Quiet,
        Some(rem) => match parse_unsigned(rem, u32::MAX as nat) {
            None => RateLimitNotice::BadRemaining,
            Some(n) => if n == 0 {
                RateLimitNotice::Exceeded(
                    match reset {
                        None => ResetNotice::Unknown,
                        Some(rs) => match parse_i64_spec(rs) {
                            None => ResetNotice::BadReset,
                            Some(at) => ResetNotice::InMinutes(div_toward_zero(at - now, 60) as i128),
                        },
                    },
                )
            } else if n < 10 {
                RateLimitNotice::Low(n as u32)
            } else {
                RateLimitNotice::Quiet
            },
        },
    }
}

pub open spec fn opt_view(s: Option<&str>) -> Option<Seq<char>> {
    match s {
        Some(x) => Some(x@),
        None => None,
    }
}

/// Reads the rate-limit headers of an answer (see [`ratelimit_spec`]).
pub fn check_ratelimit(remaining: Option<&str>, reset: Option<&str>, now: i64) -> (r: RateLimitNotice)
    ensures
        r == ratelimit_spec(opt_view(remaining), opt_view(reset), now as int),
{
    match remaining {
        None => RateLimitNotice::Quiet,
        Some(rem) => match parse_u32(rem) {
            None => RateLimitNotice::BadRemaining,
            Some(n) => {
                if n == 0 {
                    let notice = match reset {
                        None => ResetNotice::Unknown,
                        Some(rs) => match parse_i64(rs) {
                            None => ResetNotice::BadReset,
                            Some(at) => {
                                let diff: i128 = (at as i128) - (now as i128);
                                let minutes: i128 = if diff >= 0 {
                                    diff / 60
                                } else {
                                    -((-diff) / 60)
                                };
                                ResetNotice::InMinutes(minutes)
                            },
                        },
                    };
                    RateLimitNotice::Exceeded(notice)
                } else if n < 10 {
                    RateLimitNotice::Low(n)
                } else {
                    RateLimitNotice::Quiet
                }
            },
        },
    }
}

/// The current Unix time in seconds, from `time::OffsetDateTime::now_utc` and
/// `OffsetDateTime::unix_timestamp`. Nothing is claimed of the value: it is the
/// clock's.
#[verifier::external_body]
fn unix_now() -> (r: i64) {
    time::OffsetDateTime::now_utc().unix_timestamp()
}

/// Reads the rate-limit headers of an answer received now (see [`check_ratelimit`]):
/// the notice is the one for some reading of the clock.
pub fn ratelimit_notice(remaining: Option<&str>, reset: Option<&str>) -> (r: RateLimitNotice)
    ensures
        exists|now: i64| r == #[trigger] ratelimit_spec(opt_view(remaining), opt_view(reset), now as int),
{
    let now = unix_now();
    let r = check_ratelimit(remaining, reset, now);
    assert(r == ratelimit_spec(opt_view(remaining), opt_view(reset), now as int));
    r
}

/// The size of a download: the `Content-Length` header where it is a `u32`, else the
/// size the caller expected.
pub fn download_total(content_length: Option<&str>, size_hint: Option<u32>) -> (r: Option<u32>)
    ensures
        r == (match content_length {
            Some(h) => match parse_unsigned(h@, u32::MAX as nat) {
                Some(n) => Some(n as u32),
                None => size_hint,
            },
            None => size_hint,
        }),
{
    match content_length {
        Some(h) => match parse_u32(h) {
            Some(n) => Some(n),
            None => size_hint,
        },
        None => size_hint,
    }
}

} // verus!

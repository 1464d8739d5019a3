//! The client of the git hosting, as far as it computes: its settings, the
//! addresses it asks, and the authorization it sends.

use crate::integrations::jira::{basic_auth_header, basic_authorization, text_or_empty};
use crate::integrations::traits::{
    ChecksStatus, IntegrationError, PrFilter, PrState, PullRequest, Reviewer, User,
};
use crate::services::pr_aggregator::{is_stale_at, stale_at};
use crate::text::{
    copied, decimal, decimal_digits, owned, signed_decimal, signed_digits, trim_end_matches,
    without_trailing,
};
use vstd::prelude::*;
use vstd::string::*;

verus! {

/// A text with every byte but letters, digits, `-`, `_`, `.` and `~` written as
/// a percent sign and two hexadecimal digits.
pub uninterp spec fn percent_encoded(text: Seq<char>) -> Seq<char>;

/// Encodes a text with `urlencoding::encode`. Trusted: the result is named
/// `percent_encoded`; it depends on the text alone.
#[verifier::external_body]
pub(crate) fn percent_encode(text: &str) -> (r: String)
    ensures
        r@ == percent_encoded(text@),
{
    urlencoding::encode(text).into_owned()
}

/// The kind of git hosting.
#[derive(Debug, Clone, Copy, PartialEq, Eq, Structural)]
pub enum GitProviderType {
    Bitbucket,
    GitHub,
    GitLab,
}

/// The settings of the client.
#[derive(Debug, Clone)]
pub struct GitConfig {
    pub provider: GitProviderType,
    /// The address of a hosting of one's own; none for the public service.
    pub base_url: Option<String>,
    pub workspace: Option<String>,
    pub username: String,
    pub token: Option<String>,
    pub repositories: Vec<String>,
}

/// The address of the public service of a provider.
pub open spec fn public_api(provider: GitProviderType) -> Seq<char> {
    match provider {
        GitProviderType::Bitbucket => "https://api.bitbucket.org/2.0"@,
        GitProviderType::GitHub => "https://api.github.com"@,
        GitProviderType::GitLab => "https://gitlab.com/api/v4"@,
    }
}

impl GitConfig {
    /// The address that requests go to: the one that is set, without slashes at
    /// its end, or else that of the public service.
    pub open spec fn api_base(&self) -> Seq<char> {
        match self.base_url {
            Some(url) => without_trailing(url@, '/'),
            None => public_api(self.provider),
        }
    }

    /// The name and the value of the header that authorizes a request.
    pub open spec fn authorization(&self) -> (Seq<char>, Seq<char>) {
        let token = text_or_empty(self.token);
        match self.provider {
            GitProviderType::Bitbucket => ("Authorization"@, basic_authorization(
                self.username@,
                token,
            )),
            GitProviderType::GitHub => ("Authorization"@, "Bearer "@ + token),
            GitProviderType::GitLab => ("PRIVATE-TOKEN"@, token),
        }
    }

    /// The address at which one pull request is asked for; none for Bitbucket
    /// without a workspace.
    pub open spec fn pr_address(&self, repo: Seq<char>, id: Seq<char>) -> Option<Seq<char>> {
        match self.provider {
            GitProviderType::Bitbucket => match self.workspace {
                Some(workspace) => Some(
                    self.api_base() + "/repositories/"@ + workspace@ + "/"@ + repo
                        + "/pullrequests/"@ + id,
                ),
                None => None,
            },
            GitProviderType::GitHub => Some(self.api_base() + "/repos/"@ + repo + "/pulls/"@ + id),
            GitProviderType::GitLab => Some(
                self.api_base() + "/projects/"@ + percent_encoded(repo) + "/merge_requests/"@ + id,
            ),
        }
    }

    /// The address at which the open pull requests of a repository are listed;
    /// none for Bitbucket without a workspace and for GitLab, whose lists are not
    /// read.
    pub open spec fn list_address(&self, repo: Seq<char>) -> Option<Seq<char>> {
        match self.provider {
            GitProviderType::Bitbucket => match self.workspace {
                Some(workspace) => Some(
                    self.api_base() + "/repositories/"@ + workspace@ + "/"@ + repo
                        + "/pullrequests?state=OPEN"@,
                ),
                None => None,
            },
            GitProviderType::GitHub => Some(
                self.api_base() + "/repos/"@ + repo + "/pulls?state=open"@,
            ),
            GitProviderType::GitLab => None,
        }
    }

    /// Settings for Bitbucket.
    pub fn bitbucket(workspace: &str, username: &str) -> (r: Self)
        ensures
            r.provider == GitProviderType::Bitbucket,
            r.base_url is None,
            r.workspace matches Some(w) && w@ == workspace@,
            r.username@ == username@,
            r.token is None,
            r.repositories@.len() == 0,
    {
        GitConfig {
            provider: GitProviderType::Bitbucket,
            base_url: None,
            workspace: Some(owned(workspace)),
            username: owned(username),
            token: None,
            repositories: Vec::new(),
        }
    }

    /// Settings for GitHub.
    pub fn github(username: &str) -> (r: Self)
        ensures
            r.provider == GitProviderType::GitHub,
            r.base_url is None,
            r.workspace is None,
            r.username@ == username@,
            r.token is None,
            r.repositories@.len() == 0,
    {
        GitConfig {
            provider: GitProviderType::GitHub,
            base_url: None,
            workspace: None,
            username: owned(username),
            token: None,
            repositories: Vec::new(),
        }
    }

    pub fn with_token(self, token: &str) -> (r: Self)
        ensures
            r.token matches Some(t) && t@ == token@,
            r.provider == self.provider,
            r.base_url == self.base_url,
            r.workspace == self.workspace,
            r.username == self.username,
            r.repositories == self.repositories,
    {
        let mut config = self;
        config.token = Some(owned(token));
        config
    }

    pub fn with_repositories(self, repos: Vec<String>) -> (r: Self)
        ensures
            r.repositories == repos,
            r.provider == self.provider,
            r.base_url == self.base_url,
            r.workspace == self.workspace,
            r.username == self.username,
            r.token == self.token,
    {
        let mut config = self;
        config.repositories = repos;
        config
    }

    /// The address that requests go to.
    pub fn api_base_url(&self) -> (r: String)
        ensures
            r@ == self.api_base(),
    {
        match &self.base_url {
            Some(url) => trim_end_matches(url.as_str(), '/'),
            None => match self.provider {
                GitProviderType::Bitbucket => owned("https://api.bitbucket.org/2.0"),
                GitProviderType::GitHub => owned("https://api.github.com"),
                GitProviderType::GitLab => owned("https://gitlab.com/api/v4"),
            },
        }
    }

    /// Refuses settings without a token.
    pub fn require_token(&self) -> (r: Result<(), IntegrationError>)
        ensures
            self.token is Some ==> r is Ok,
            self.token is None ==> (r matches Err(IntegrationError::ConfigError(m)) && m@
                == "Git token is required"@),
    {
        match &self.token {
            Some(_) => Ok(()),
            None => Err(IntegrationError::ConfigError(owned("Git token is required"))),
        }
    }

    /// The name and the value of the header that authorizes a request.
    pub fn auth_header(&self) -> (r: (&'static str, String))
        ensures
            r.0@ == self.authorization().0,
            r.1@ == self.authorization().1,
    {
        let empty = String::new();
        let token: &str = match &self.token {
            Some(t) => t.as_str(),
            None => empty.as_str(),
        };
        match self.provider {
            GitProviderType::Bitbucket => ("Authorization", basic_auth_header(
                self.username.as_str(),
                token,
            )),
            GitProviderType::GitHub => ("Authorization", owned("Bearer ").concat(token)),
            GitProviderType::GitLab => ("PRIVATE-TOKEN", owned(token)),
        }
    }

    /// The address at which one pull request is asked for. Bitbucket needs a
    /// workspace.
    pub fn pr_url(&self, repo: &str, id: &str) -> (r: Result<String, IntegrationError>)
        ensures
            match self.pr_address(repo@, id@) {
                Some(address) => r matches Ok(url) && url@ == address,
                None => r matches Err(IntegrationError::ConfigError(m)) && m@
                    == "Workspace required"@,
            },
    {
        let base = self.api_base_url();
        match self.provider {
            GitProviderType::Bitbucket => match &self.workspace {
                Some(workspace) => Ok(
                    base.concat("/repositories/").concat(workspace.as_str()).concat("/").concat(
                        repo,
                    ).concat("/pullrequests/").concat(id),
                ),
                None => Err(IntegrationError::ConfigError(owned("Workspace required"))),
            },
            GitProviderType::GitHub => Ok(
                base.concat("/repos/").concat(repo).concat("/pulls/").concat(id),
            ),
            GitProviderType::GitLab => Ok(
                base.concat("/projects/").concat(percent_encode(repo).as_str()).concat(
                    "/merge_requests/",
                ).concat(id),
            ),
        }
    }

    /// The address at which the open pull requests of a repository are listed.
    pub fn list_url(&self, repo: &str) -> (r: Result<String, IntegrationError>)
        ensures
            match self.list_address(repo@) {
                Some(address) => r matches Ok(url) && url@ == address,
                None => match self.provider {
                    GitProviderType::GitLab => r matches Err(IntegrationError::ApiError(m)) && m@
                        == "GitLab not fully implemented"@,
                    _ => r matches Err(IntegrationError::ConfigError(m)) && m@
                        == "Workspace required for Bitbucket"@,
                },
            },
    {
        match self.provider {
            GitProviderType::Bitbucket => match &self.workspace {
                Some(workspace) => Ok(
                    self.api_base_url().concat("/repositories/").concat(workspace.as_str()).concat(
                        "/",
                    ).concat(repo).concat("/pullrequests?state=OPEN"),
                ),
                None => Err(
                    IntegrationError::ConfigError(owned("Workspace required for Bitbucket")),
                ),
            },
            GitProviderType::GitHub => Ok(
                self.api_base_url().concat("/repos/").concat(repo).concat("/pulls?state=open"),
            ),
            GitProviderType::GitLab => Err(
                IntegrationError::ApiError(owned("GitLab not fully implemented")),
            ),
        }
    }

    /// The repositories to ask: those of the filter, or, where it names none,
    /// those of the settings.
    pub fn repositories_for<'a>(&'a self, filter: &'a PrFilter) -> (r: &'a Vec<String>)
        ensures
            *r == if filter.repositories@.len() == 0 {
                self.repositories
            } else {
                filter.repositories
            },
    {
        if filter.repositories.len() == 0 {
            &self.repositories
        } else {
            &filter.repositories
        }
    }
}

/// What the status of an answer to a request for one pull request means: `Ok`
/// for 200, else the error to report.
pub fn check_pr_status(status: u16, id: &str) -> (r: Result<(), IntegrationError>)
    ensures
        status == 200 ==> r is Ok,
        status == 401 ==> (r matches Err(IntegrationError::Auth(m)) && m@ == "Invalid credentials"@),
        status == 404 ==> (r matches Err(IntegrationError::NotFound(m)) && m@ == "PR "@ + id@
            + " not found"@),
        status == 429 ==> r matches Err(IntegrationError::RateLimit),
        status != 200 && status != 401 && status != 404 && status != 429 ==> (r matches Err(
            IntegrationError::ApiError(m),
        ) && m@ == "Status: "@ + decimal_digits(status as nat)),
{
    if status == 200 {
        Ok(())
    } else if status == 401 {
        Err(IntegrationError::Auth(owned("Invalid credentials")))
    } else if status == 404 {
        Err(IntegrationError::NotFound(owned("PR ").concat(id).concat(" not found")))
    } else if status == 429 {
        Err(IntegrationError::RateLimit)
    } else {
        Err(IntegrationError::ApiError(owned("Status: ").concat(decimal(status as usize).as_str())))
    }
}

/// A user as GitHub reports one.
#[derive(Debug, Clone)]
pub struct GitHubUser {
    pub id: i64,
    pub login: String,
    pub avatar_url: String,
}

/// A pull request as GitHub reports one; instants in milliseconds since the
/// Unix epoch.
#[derive(Debug, Clone)]
pub struct GitHubPr {
    pub number: i64,
    pub title: String,
    pub body: Option<String>,
    pub user: GitHubUser,
    pub requested_reviewers: Vec<GitHubUser>,
    pub head_ref: String,
    pub base_ref: String,
    pub draft: bool,
    pub created_at: i64,
    pub updated_at: i64,
    pub html_url: String,
}

/// A user as Bitbucket reports one.
#[derive(Debug, Clone)]
pub struct BitbucketUser {
    pub uuid: String,
    pub display_name: String,
    pub avatar: Option<String>,
}

/// A pull request as Bitbucket reports one; instants in milliseconds since the
/// Unix epoch.
#[derive(Debug, Clone)]
pub struct BitbucketPr {
    pub id: i64,
    pub title: String,
    pub description: Option<String>,
    pub author: BitbucketUser,
    pub reviewers: Vec<BitbucketUser>,
    pub source_branch: String,
    pub destination_branch: String,
    pub created_on: i64,
    pub updated_on: i64,
    pub html_url: String,
}

/// Whether `user` says what GitHub reports of a user.
pub open spec fn is_github_user(user: User, reported: GitHubUser) -> bool {
    &&& user.id@ == signed_digits(reported.id as int)
    &&& user.name == reported.login
    &&& user.email is None
    &&& user.avatar_url == Some(reported.avatar_url)
}

/// Whether `user` says what Bitbucket reports of a user; `with_avatar` says
/// whether the picture is kept, as it is for an author.
pub open spec fn is_bitbucket_user(user: User, reported: BitbucketUser, with_avatar: bool) -> bool {
    &&& user.id == reported.uuid
    &&& user.name == reported.display_name
    &&& user.email is None
    &&& user.avatar_url == if with_avatar {
        reported.avatar
    } else {
        None
    }
}

/// Whether `pr` says what GitHub reports of a pull request of `repo`: a draft
/// is a draft and anything else is open, no check is known, nobody has approved,
/// and staleness is judged at `now` against the threshold.
pub open spec fn is_github_pr(
    pr: PullRequest,
    reported: GitHubPr,
    repo: Seq<char>,
    threshold_hours: i64,
    now: i64,
) -> bool {
    &&& pr.id@ == signed_digits(reported.number as int)
    &&& pr.repository@ == repo
    &&& pr.title == reported.title
    &&& pr.description == reported.body
    &&& pr.state == if reported.draft {
        PrState::Draft
    } else {
        PrState::Open
    }
    &&& is_github_user(pr.author, reported.user)
    &&& pr.reviewers@.len() == reported.requested_reviewers@.len()
    &&& forall|i: int|
        0 <= i < pr.reviewers@.len() ==> is_github_user(
            (#[trigger] pr.reviewers@[i]).user,
            reported.requested_reviewers@[i],
        ) && !pr.reviewers@[i].approved
    &&& pr.source_branch == reported.head_ref
    &&& pr.target_branch == reported.base_ref
    &&& pr.checks_status == ChecksStatus::NotRun
    &&& pr.is_stale == stale_at(reported.updated_at, threshold_hours, now)
    &&& pr.updated_at == reported.updated_at
    &&& pr.created_at == reported.created_at
    &&& pr.url == reported.html_url
}

/// Whether `pr` says what Bitbucket reports of a pull request of `repo`: it is
/// open, no check is known, nobody has approved, and staleness is judged at
/// `now` against the threshold.
pub open spec fn is_bitbucket_pr(
    pr: PullRequest,
    reported: BitbucketPr,
    repo: Seq<char>,
    threshold_hours: i64,
    now: i64,
) -> bool {
    &&& pr.id@ == signed_digits(reported.id as int)
    &&& pr.repository@ == repo
    &&& pr.title == reported.title
    &&& pr.description == reported.description
    &&& pr.state == PrState::Open
    &&& is_bitbucket_user(pr.author, reported.author, true)
    &&& pr.reviewers@.len() == reported.reviewers@.len()
    &&& forall|i: int|
        0 <= i < pr.reviewers@.len() ==> is_bitbucket_user(
            (#[trigger] pr.reviewers@[i]).user,
            reported.reviewers@[i],
            false,
        ) && !pr.reviewers@[i].approved
    &&& pr.source_branch == reported.source_branch
    &&& pr.target_branch == reported.destination_branch
    &&& pr.checks_status == ChecksStatus::NotRun
    &&& pr.is_stale == stale_at(reported.updated_on, threshold_hours, now)
    &&& pr.updated_at == reported.updated_on
    &&& pr.created_at == reported.created_on
    &&& pr.url == reported.html_url
}

fn github_user(reported: &GitHubUser) -> (user: User)
    ensures
        is_github_user(user, *reported),
{
    User {
        id: signed_decimal(reported.id),
        name: reported.login.clone(),
        email: None,
        avatar_url: Some(reported.avatar_url.clone()),
    }
}

/// The pull request that stands for what GitHub reports.
pub fn map_github_pr(reported: &GitHubPr, repo: &str, threshold_hours: i64, now: i64) -> (pr:
    PullRequest)
    ensures
        is_github_pr(pr, *reported, repo@, threshold_hours, now),
{
    let mut reviewers: Vec<Reviewer> = Vec::new();
    let mut i: usize = 0;
    while i < reported.requested_reviewers.len()
        invariant
            i <= reported.requested_reviewers.len(),
            reviewers@.len() == i,
            forall|k: int|
                0 <= k < i ==> is_github_user(
                    (#[trigger] reviewers@[k]).user,
                    reported.requested_reviewers@[k],
                ) && !reviewers@[k].approved,
        decreases reported.requested_reviewers.len() - i,
    {
        reviewers.push(
            Reviewer { user: github_user(&reported.requested_reviewers[i]), approved: false },
        );
        i = i + 1;
    }
    PullRequest {
        id: signed_decimal(reported.number),
        repository: owned(repo),
        title: reported.title.clone(),
        description: copied(&reported.body),
        state: if reported.draft {
            PrState::Draft
        } else {
            PrState::Open
        },
        author: github_user(&reported.user),
        reviewers,
        source_branch: reported.head_ref.clone(),
        target_branch: reported.base_ref.clone(),
        checks_status: ChecksStatus::NotRun,
        is_stale: is_stale_at(reported.updated_at, threshold_hours, now),
        updated_at: reported.updated_at,
        created_at: reported.created_at,
        url: reported.html_url.clone(),
    }
}

/// The pull request that stands for what Bitbucket reports.
pub fn map_bitbucket_pr(reported: &BitbucketPr, repo: &str, threshold_hours: i64, now: i64) -> (pr:
    PullRequest)
    ensures
        is_bitbucket_pr(pr, *reported, repo@, threshold_hours, now),
{
    let mut reviewers: Vec<Reviewer> = Vec::new();
    let mut i: usize = 0;
    while i < reported.reviewers.len()
        invariant
            i <= reported.reviewers.len(),
            reviewers@.len() == i,
            forall|k: int|
                0 <= k < i ==> is_bitbucket_user(
                    (#[trigger] reviewers@[k]).user,
                    reported.reviewers@[k],
                    false,
                ) && !reviewers@[k].approved,
        decreases reported.reviewers.len() - i,
    {
        let from = &reported.reviewers[i];
        reviewers.push(
            Reviewer {
                user: User {
                    id: from.uuid.clone(),
                    name: from.display_name.clone(),
                    email: None,
                    avatar_url: None,
                },
                approved: false,
            },
        );
        i = i + 1;
    }
    PullRequest {
        id: signed_decimal(reported.id),
        repository: owned(repo),
        title: reported.title.clone(),
        description: copied(&reported.description),
        state: PrState::Open,
        author: User {
            id: reported.author.uuid.clone(),
            name: reported.author.display_name.clone(),
            email: None,
            avatar_url: copied(&reported.author.avatar),
        },
        reviewers,
        source_branch: reported.source_branch.clone(),
        target_branch: reported.destination_branch.clone(),
        checks_status: ChecksStatus::NotRun,
        is_stale: is_stale_at(reported.updated_on, threshold_hours, now),
        updated_at: reported.updated_on,
        created_at: reported.created_on,
        url: reported.html_url.clone(),
    }
}

/// The pull requests that pass the filter among those fetched, in their order,
/// cut to the limit of the filter.
pub open spec fn kept(prs: Seq<PullRequest>, stale_only: bool, limit: nat) -> Seq<PullRequest> {
    let passing = passing(prs, stale_only);
    if passing.len() <= limit {
        passing
    } else {
        passing.subrange(0, limit as int)
    }
}

/// The pull requests that pass the filter, in their order.
pub open spec fn passing(prs: Seq<PullRequest>, stale_only: bool) -> Seq<PullRequest>
    decreases prs.len(),
{
    if prs.len() == 0 {
        Seq::empty()
    } else if !stale_only || prs.last().is_stale {
        passing(prs.drop_last(), stale_only).push(prs.last())
    } else {
        passing(prs.drop_last(), stale_only)
    }
}

/// Applies a filter to the pull requests fetched for it: only stale ones where
/// it asks for those, and no more than its limit.
pub fn apply_filter(prs: Vec<PullRequest>, filter: &PrFilter) -> (r: Vec<PullRequest>)
    ensures
        r@ == kept(prs@, filter.stale_only, filter.limit as nat),
{
    let mut out: Vec<PullRequest> = Vec::new();
    let ghost all = prs@;
    assert(all.subrange(0, 0) =~= Seq::<PullRequest>::empty());
    for pr in it: prs
        invariant
            it.seq() == all,
            out@ == passing(all.subrange(0, it.index() as int), filter.stale_only),
    {
        assert(all.subrange(0, it.index() + 1).drop_last() =~= all.subrange(0, it.index() as int));
        assert(all.subrange(0, it.index() + 1).last() == pr);
        if passes_filter(filter, pr.is_stale) {
            out.push(pr);
        }
    }
    assert(all.subrange(0, all.len() as int) =~= all);
    if out.len() > filter.limit {
        out.truncate(filter.limit);
    }
    out
}

/// Whether a pull request passes a filter, given whether it is stale.
pub fn passes_filter(filter: &PrFilter, stale: bool) -> (r: bool)
    ensures
        r == (!filter.stale_only || stale),
{
    !filter.stale_only || stale
}

} // verus!

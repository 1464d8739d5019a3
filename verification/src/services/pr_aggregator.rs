//! Aggregation of pull requests: the summary with its counts, the staleness
//! rule, and grouping by repository, author or age. Instants are milliseconds
//! since the Unix epoch; the present instant is an argument.

use crate::integrations::traits::{PrFilter, PullRequest};
use crate::ranking::{lemma_sorted_views, rank_of, sort_descending, sorted_by_rank, Ranked};
use crate::system::tray::TrayState;
use crate::tally::{count_label, label_count, lemma_tally, table_view, tally, tally_count};
use crate::text::{copies, owned, texts};
use vstd::prelude::*;
use vstd::string::*;

verus! {

/// The key under which the summary is cached.
pub fn summary_cache_key() -> (r: &'static str)
    ensures
        r@ == "pr_summary"@,
{
    "pr_summary"
}

/// Whether an item last updated at `updated_at` is stale at `now`: more than
/// `threshold_hours` hours have passed since.
pub open spec fn stale_at(updated_at: i64, threshold_hours: i64, now: i64) -> bool {
    now - updated_at > threshold_hours * 3_600_000
}

/// The whole hours in a span of milliseconds, rounded towards zero.
pub open spec fn whole_hours(millis: int) -> int {
    if millis >= 0 {
        millis / 3_600_000
    } else {
        -((-millis) / 3_600_000)
    }
}

/// Whether the pull request is assigned to the user for review, by identifier
/// or by name.
pub open spec fn reviewed_by(pr: PullRequest, user: Seq<char>) -> bool {
    exists|i: int|
        0 <= i < pr.reviewers@.len() && ((#[trigger] pr.reviewers@[i]).user.id@ == user
            || pr.reviewers@[i].user.name@ == user)
}

/// The number of stale pull requests.
pub open spec fn stale_count(prs: Seq<PullRequest>, threshold_hours: i64, now: i64) -> nat
    decreases prs.len(),
{
    if prs.len() == 0 {
        0
    } else {
        stale_count(prs.drop_last(), threshold_hours, now) + if stale_at(
            prs.last().updated_at,
            threshold_hours,
            now,
        ) {
            1nat
        } else {
            0nat
        }
    }
}

/// The number of pull requests that wait for the user's review; none where no
/// user is set.
pub open spec fn pending_count(prs: Seq<PullRequest>, user: Option<Seq<char>>) -> nat
    decreases prs.len(),
{
    if prs.len() == 0 || user is None {
        0
    } else {
        pending_count(prs.drop_last(), user) + if reviewed_by(prs.last(), user->0) {
            1nat
        } else {
            0nat
        }
    }
}

/// The age in whole hours of the oldest stale pull request.
pub open spec fn oldest_stale_hours(prs: Seq<PullRequest>, threshold_hours: i64, now: i64) -> Option<
    int,
>
    decreases prs.len(),
{
    if prs.len() == 0 {
        None
    } else {
        let before = oldest_stale_hours(prs.drop_last(), threshold_hours, now);
        if stale_at(prs.last().updated_at, threshold_hours, now) {
            let hours = whole_hours(now - prs.last().updated_at);
            match before {
                Some(oldest) => Some(
                    if oldest >= hours {
                        oldest
                    } else {
                        hours
                    },
                ),
                None => Some(hours),
            }
        } else {
            before
        }
    }
}

/// The stale pull requests, in their order.
pub open spec fn stale_only(prs: Seq<PullRequest>, threshold_hours: i64, now: i64) -> Seq<
    PullRequest,
>
    decreases prs.len(),
{
    if prs.len() == 0 {
        Seq::empty()
    } else if stale_at(prs.last().updated_at, threshold_hours, now) {
        stale_only(prs.drop_last(), threshold_hours, now).push(prs.last())
    } else {
        stale_only(prs.drop_last(), threshold_hours, now)
    }
}

/// The repositories of the pull requests, in their order.
pub open spec fn repositories(prs: Seq<PullRequest>) -> Seq<Seq<char>> {
    Seq::new(prs.len(), |i: int| prs[i].repository@)
}

/// The counts of a summary agree with one another: no count exceeds the number
/// of pull requests, the stale pull requests are as many as the count says, and
/// an oldest age is given exactly where something is stale.
pub proof fn lemma_summary_counts(
    prs: Seq<PullRequest>,
    user: Option<Seq<char>>,
    threshold_hours: i64,
    now: i64,
)
    ensures
        stale_count(prs, threshold_hours, now) <= prs.len(),
        pending_count(prs, user) <= prs.len(),
        stale_only(prs, threshold_hours, now).len() == stale_count(prs, threshold_hours, now),
        oldest_stale_hours(prs, threshold_hours, now) is Some <==> stale_count(
            prs,
            threshold_hours,
            now,
        ) > 0,
        forall|i: int|
            0 <= i < stale_only(prs, threshold_hours, now).len() ==> stale_at(
                (#[trigger] stale_only(prs, threshold_hours, now)[i]).updated_at,
                threshold_hours,
                now,
            ),
    decreases prs.len(),
{
    if prs.len() > 0 {
        lemma_summary_counts(prs.drop_last(), user, threshold_hours, now);
        let before = stale_only(prs.drop_last(), threshold_hours, now);
        let after = stale_only(prs, threshold_hours, now);
        assert forall|i: int| 0 <= i < after.len() implies stale_at(
            (#[trigger] after[i]).updated_at,
            threshold_hours,
            now,
        ) by {
            if i < before.len() {
                assert(after[i] == before[i]);
            }
        }
    }
}

/// The counts of the open pull requests.
#[derive(Debug, Clone)]
pub struct PrSummary {
    pub total_open: usize,
    /// Pull requests that wait for the user's review.
    pub pending_review: usize,
    pub stale_count: usize,
    /// The number of pull requests of each repository, the repositories in the
    /// order in which they first occur.
    pub by_repository: Vec<(String, usize)>,
    /// The age in whole hours of the oldest stale pull request.
    pub oldest_stale_hours: Option<i64>,
    pub tray_state: TrayState,
}

impl Default for PrSummary {
    fn default() -> (r: Self)
        ensures
            r.total_open == 0,
            r.pending_review == 0,
            r.stale_count == 0,
            r.by_repository@.len() == 0,
            r.oldest_stale_hours is None,
            r.tray_state == TrayState::Neutral,
    {
        PrSummary {
            total_open: 0,
            pending_review: 0,
            stale_count: 0,
            by_repository: Vec::new(),
            oldest_stale_hours: None,
            tray_state: TrayState::Neutral,
        }
    }
}

impl PrSummary {
    pub fn new() -> (r: Self)
        ensures
            r.total_open == 0,
            r.pending_review == 0,
            r.stale_count == 0,
            r.by_repository@.len() == 0,
            r.oldest_stale_hours is None,
            r.tray_state == TrayState::Neutral,
    {
        PrSummary {
            total_open: 0,
            pending_review: 0,
            stale_count: 0,
            by_repository: Vec::new(),
            oldest_stale_hours: None,
            tray_state: TrayState::Neutral,
        }
    }

    /// The alert level for the two counts: a stale pull request gives `Amber`,
    /// otherwise none pending gives `Green`, otherwise `Neutral`.
    pub fn calculate_tray_state(stale_count: usize, pending_review: usize) -> (r: TrayState)
        ensures
            r == TrayState::level_for(0, stale_count as nat, pending_review as nat),
    {
        if stale_count > 0 {
            TrayState::Amber
        } else if pending_review == 0 {
            TrayState::Green
        } else {
            TrayState::Neutral
        }
    }

    /// The number of pull requests of a repository, if it has any.
    pub fn repository_count(&self, repository: &str) -> (r: Option<usize>)
        ensures
            match r {
                Some(n) => tally_count(table_view(self.by_repository@), repository@) == Some(
                    n as nat,
                ),
                None => tally_count(table_view(self.by_repository@), repository@) is None,
            },
    {
        label_count(&self.by_repository, repository)
    }
}

/// By what pull requests are grouped.
#[derive(Debug, Clone, Copy, PartialEq, Eq, Structural)]
pub enum PrGrouping {
    ByRepository,
    ByAuthor,
    ByAge,
}

/// A group of pull requests under a label.
#[derive(Debug, Clone)]
pub struct GroupedPrs {
    pub label: String,
    pub prs: Vec<PullRequest>,
    pub stale_count: usize,
}

/// What a group stands for.
pub struct GroupView {
    pub label: Seq<char>,
    pub prs: Seq<PullRequest>,
    pub stale_count: nat,
}

impl View for GroupedPrs {
    type V = GroupView;

    open spec fn view(&self) -> GroupView {
        GroupView { label: self.label@, prs: self.prs@, stale_count: self.stale_count as nat }
    }
}

impl Ranked for GroupedPrs {
    open spec fn rank(&self) -> nat {
        self.stale_count as nat
    }

    fn rank_value(&self) -> (r: u64) {
        self.stale_count as u64
    }
}

/// The view of a group, as a function.
pub open spec fn group_view() -> spec_fn(GroupedPrs) -> GroupView {
    |group: GroupedPrs| group@
}

/// The number of stale pull requests of a group, as a function.
pub open spec fn group_rank() -> spec_fn(GroupView) -> nat {
    |group: GroupView| group.stale_count
}

/// The label of the age bucket for a pull request last updated at `updated_at`.
pub open spec fn age_bucket_label(updated_at: i64, now: i64) -> Seq<char> {
    let age = now - updated_at;
    if age < 24 * 3_600_000 {
        "< 24 hours"@
    } else if age < 48 * 3_600_000 {
        "24-48 hours"@
    } else if age < 7 * 86_400_000 {
        "2-7 days"@
    } else {
        "> 7 days"@
    }
}

/// The label under which a pull request is grouped.
pub open spec fn group_label(pr: PullRequest, grouping: PrGrouping, now: i64) -> Seq<char> {
    match grouping {
        PrGrouping::ByRepository => pr.repository@,
        PrGrouping::ByAuthor => pr.author.name@,
        PrGrouping::ByAge => age_bucket_label(pr.updated_at, now),
    }
}

/// The position of the group with this label, or -1.
pub open spec fn group_index(groups: Seq<GroupView>, label: Seq<char>) -> int
    decreases groups.len(),
{
    if groups.len() == 0 {
        -1
    } else if group_index(groups.drop_last(), label) >= 0 {
        group_index(groups.drop_last(), label)
    } else if groups.last().label == label {
        groups.len() - 1
    } else {
        -1
    }
}

/// The groups after one more pull request: it joins the group of its label, or
/// opens a new group behind the others.
pub open spec fn group_add(groups: Seq<GroupView>, label: Seq<char>, pr: PullRequest, stale: bool) -> Seq<
    GroupView,
> {
    let at = group_index(groups, label);
    let more: nat = if stale {
        1
    } else {
        0
    };
    if at < 0 {
        groups.push(GroupView { label, prs: seq![pr], stale_count: more })
    } else {
        groups.update(
            at,
            GroupView {
                label,
                prs: groups[at].prs.push(pr),
                stale_count: groups[at].stale_count + more,
            },
        )
    }
}

/// The pull requests in groups, the groups in the order in which their labels
/// first occur, each with its pull requests in their order and the number of
/// stale ones among them.
pub open spec fn grouped(
    prs: Seq<PullRequest>,
    grouping: PrGrouping,
    threshold_hours: i64,
    now: i64,
) -> Seq<GroupView>
    decreases prs.len(),
{
    if prs.len() == 0 {
        Seq::empty()
    } else {
        group_add(
            grouped(prs.drop_last(), grouping, threshold_hours, now),
            group_label(prs.last(), grouping, now),
            prs.last(),
            stale_at(prs.last().updated_at, threshold_hours, now),
        )
    }
}

proof fn lemma_group_index(groups: Seq<GroupView>, label: Seq<char>)
    ensures
        -1 <= group_index(groups, label) < groups.len(),
        group_index(groups, label) >= 0 ==> groups[group_index(groups, label)].label == label,
        forall|i: int|
            0 <= i < groups.len() && (group_index(groups, label) < 0 || i < group_index(
                groups,
                label,
            )) ==> (#[trigger] groups[i]).label != label,
    decreases groups.len(),
{
    if groups.len() > 0 {
        let front = groups.drop_last();
        lemma_group_index(front, label);
        let at = group_index(groups, label);
        assert forall|i: int| 0 <= i < groups.len() && (at < 0 || i < at) implies (
        #[trigger] groups[i]).label != label by {
            if i < front.len() {
                assert(front[i] == groups[i]);
            }
        }
        if at >= 0 && at < front.len() {
            assert(front[at] == groups[at]);
        }
    }
}

/// Every group has a label of its own, holds at least one pull request, counts
/// its stale pull requests, and the groups together hold every pull request once.
pub proof fn lemma_grouped(prs: Seq<PullRequest>, grouping: PrGrouping, threshold_hours: i64, now: i64)
    ensures
        forall|i: int, j: int|
            0 <= i < j < grouped(prs, grouping, threshold_hours, now).len() ==> (#[trigger] grouped(
                prs,
                grouping,
                threshold_hours,
                now,
            )[i]).label != (#[trigger] grouped(prs, grouping, threshold_hours, now)[j]).label,
        forall|i: int|
            0 <= i < grouped(prs, grouping, threshold_hours, now).len() ==> {
                let group = #[trigger] grouped(prs, grouping, threshold_hours, now)[i];
                &&& group.prs.len() >= 1
                &&& group.stale_count == stale_count(group.prs, threshold_hours, now)
                &&& forall|k: int|
                    0 <= k < group.prs.len() ==> group_label(
                        #[trigger] group.prs[k],
                        grouping,
                        now,
                    ) == group.label
            },
        total_size(grouped(prs, grouping, threshold_hours, now)) == prs.len(),
    decreases prs.len(),
{
    if prs.len() > 0 {
        let front = prs.drop_last();
        let pr = prs.last();
        lemma_grouped(front, grouping, threshold_hours, now);
        let before = grouped(front, grouping, threshold_hours, now);
        let after = grouped(prs, grouping, threshold_hours, now);
        let label = group_label(pr, grouping, now);
        lemma_group_index(before, label);
        let at = group_index(before, label);
        assert forall|i: int, j: int| 0 <= i < j < after.len() implies (#[trigger] after[i]).label
            != (#[trigger] after[j]).label by {
            if at < 0 {
                assert(after[i] == before[i]);
                if j < before.len() {
                    assert(after[j] == before[j]);
                }
            } else {
                assert(after[i].label == before[i].label && after[j].label == before[j].label);
            }
        }
        assert forall|i: int| 0 <= i < after.len() implies {
            let group = #[trigger] after[i];
            &&& group.prs.len() >= 1
            &&& group.stale_count == stale_count(group.prs, threshold_hours, now)
            &&& forall|k: int|
                0 <= k < group.prs.len() ==> group_label(#[trigger] group.prs[k], grouping, now)
                    == group.label
        } by {
            let group = after[i];
            if at < 0 && i == before.len() {
                assert(group.prs.drop_last() =~= Seq::<PullRequest>::empty());
                assert(stale_count(group.prs.drop_last(), threshold_hours, now) == 0);
            } else if at >= 0 && i == at {
                assert(group.prs.drop_last() =~= before[at].prs);
                assert forall|k: int| 0 <= k < group.prs.len() implies group_label(
                    #[trigger] group.prs[k],
                    grouping,
                    now,
                ) == group.label by {
                    if k < before[at].prs.len() {
                        assert(group.prs[k] == before[at].prs[k]);
                    }
                }
            } else {
                assert(after[i] == before[i]);
            }
        }
        if at < 0 {
            assert(after.drop_last() =~= before);
        } else {
            lemma_total_size_update(before, at, after[at]);
        }
    }
}

/// The number of pull requests in all groups together.
pub open spec fn total_size(groups: Seq<GroupView>) -> nat
    decreases groups.len(),
{
    if groups.len() == 0 {
        0
    } else {
        total_size(groups.drop_last()) + groups.last().prs.len()
    }
}

proof fn lemma_total_size_update(groups: Seq<GroupView>, at: int, group: GroupView)
    requires
        0 <= at < groups.len(),
    ensures
        total_size(groups.update(at, group)) == total_size(groups) - groups[at].prs.len()
            + group.prs.len(),
    decreases groups.len(),
{
    let changed = groups.update(at, group);
    if at == groups.len() - 1 {
        assert(changed.drop_last() =~= groups.drop_last());
    } else {
        lemma_total_size_update(groups.drop_last(), at, group);
        assert(changed.drop_last() =~= groups.drop_last().update(at, group));
    }
}

/// The settings of the aggregator.
#[derive(Debug, Clone)]
pub struct PrAggregatorConfig {
    /// After how many hours without an update a pull request is stale.
    pub stale_threshold_hours: i64,
    /// For how long a summary stays fresh, in milliseconds.
    pub refresh_interval: i64,
    /// The repositories to watch; none means all.
    pub repositories: Vec<String>,
}

impl Default for PrAggregatorConfig {
    /// A threshold of 48 hours, summaries fresh for two minutes, all repositories.
    fn default() -> (r: Self)
        ensures
            r.stale_threshold_hours == 48,
            r.refresh_interval == 120_000,
            r.repositories@.len() == 0,
    {
        PrAggregatorConfig {
            stale_threshold_hours: 48,
            refresh_interval: 120_000,
            repositories: Vec::new(),
        }
    }
}

impl PrAggregatorConfig {
    pub fn new() -> (r: Self)
        ensures
            r.stale_threshold_hours == 48,
            r.refresh_interval == 120_000,
            r.repositories@.len() == 0,
    {
        PrAggregatorConfig {
            stale_threshold_hours: 48,
            refresh_interval: 120_000,
            repositories: Vec::new(),
        }
    }

    pub fn with_stale_threshold(self, hours: i64) -> (r: Self)
        ensures
            r.stale_threshold_hours == hours,
            r.refresh_interval == self.refresh_interval,
            r.repositories == self.repositories,
    {
        let mut config = self;
        config.stale_threshold_hours = hours;
        config
    }

    pub fn with_repositories(self, repos: Vec<String>) -> (r: Self)
        ensures
            r.repositories == repos,
            r.stale_threshold_hours == self.stale_threshold_hours,
            r.refresh_interval == self.refresh_interval,
    {
        let mut config = self;
        config.repositories = repos;
        config
    }
}

/// Whether an item last updated at `updated_at` is stale at `now`.
pub fn is_stale_at(updated_at: i64, threshold_hours: i64, now: i64) -> (r: bool)
    ensures
        r == stale_at(updated_at, threshold_hours, now),
{
    let age: i128 = now as i128 - updated_at as i128;
    let limit: i128 = threshold_hours as i128 * 3_600_000i128;
    age > limit
}

/// The whole hours between `updated_at` and `now`, rounded towards zero.
pub fn age_in_hours(updated_at: i64, now: i64) -> (r: i64)
    ensures
        r == whole_hours(now - updated_at),
{
    let age: i128 = now as i128 - updated_at as i128;
    if age >= 0 {
        (age / 3_600_000i128) as i64
    } else {
        let back: i128 = (0 - age) / 3_600_000i128;
        (0 - back) as i64
    }
}

/// Whether the pull request is assigned to the user for review, by identifier
/// or by name.
pub fn is_reviewed_by(pr: &PullRequest, user: &String) -> (r: bool)
    ensures
        r == reviewed_by(*pr, user@),
{
    let mut i: usize = 0;
    while i < pr.reviewers.len()
        invariant
            i <= pr.reviewers.len(),
            forall|k: int|
                0 <= k < i ==> !((#[trigger] pr.reviewers@[k]).user.id@ == user@
                    || pr.reviewers@[k].user.name@ == user@),
        decreases pr.reviewers.len() - i,
    {
        if pr.reviewers[i].user.id == *user || pr.reviewers[i].user.name == *user {
            return true;
        }
        i = i + 1;
    }
    false
}

/// The pull requests that are assigned to the user for review, in their order.
pub open spec fn assigned_to(prs: Seq<PullRequest>, user: Seq<char>) -> Seq<PullRequest>
    decreases prs.len(),
{
    if prs.len() == 0 {
        Seq::empty()
    } else if reviewed_by(prs.last(), user) {
        assigned_to(prs.drop_last(), user).push(prs.last())
    } else {
        assigned_to(prs.drop_last(), user)
    }
}

/// The pull requests that are assigned to the user for review, in their order.
pub fn find_by_reviewer(prs: Vec<PullRequest>, user: &String) -> (r: Vec<PullRequest>)
    ensures
        r@ == assigned_to(prs@, user@),
{
    let mut out: Vec<PullRequest> = Vec::new();
    let ghost all = prs@;
    assert(all.subrange(0, 0) =~= Seq::<PullRequest>::empty());
    for pr in it: prs
        invariant
            it.seq() == all,
            out@ == assigned_to(all.subrange(0, it.index() as int), user@),
    {
        assert(all.subrange(0, it.index() + 1).drop_last() =~= all.subrange(0, it.index() as int));
        assert(all.subrange(0, it.index() + 1).last() == pr);
        if is_reviewed_by(&pr, user) {
            out.push(pr);
        }
    }
    assert(all.subrange(0, all.len() as int) =~= all);
    out
}

/// The aggregator: its settings and the user whose reviews count as pending.
pub struct PrAggregator {
    config: PrAggregatorConfig,
    user_id: Option<String>,
}

impl PrAggregator {
    /// The staleness threshold in hours.
    pub closed spec fn threshold_hours(&self) -> i64 {
        self.config.stale_threshold_hours
    }

    /// For how long a summary stays fresh, in milliseconds.
    pub closed spec fn refresh_millis(&self) -> i64 {
        self.config.refresh_interval
    }

    /// The repositories to watch.
    pub closed spec fn watched(&self) -> Seq<Seq<char>> {
        texts(self.config.repositories@)
    }

    /// The user whose reviews count as pending.
    pub closed spec fn user(&self) -> Option<Seq<char>> {
        match self.user_id {
            Some(id) => Some(id@),
            None => None,
        }
    }

    pub fn new(config: PrAggregatorConfig) -> (r: Self)
        ensures
            r.threshold_hours() == config.stale_threshold_hours,
            r.refresh_millis() == config.refresh_interval,
            r.watched() == texts(config.repositories@),
            r.user() is None,
    {
        PrAggregator { config, user_id: None }
    }

    pub fn with_user_id(self, user_id: &str) -> (r: Self)
        ensures
            r.user() == Some(user_id@),
            r.threshold_hours() == self.threshold_hours(),
            r.refresh_millis() == self.refresh_millis(),
            r.watched() == self.watched(),
    {
        let mut aggregator = self;
        aggregator.user_id = Some(owned(user_id));
        aggregator
    }

    /// For how long a summary stays fresh, in milliseconds.
    pub fn refresh_interval(&self) -> (r: i64)
        ensures
            r == self.refresh_millis(),
    {
        self.config.refresh_interval
    }

    /// The filter with which all open pull requests are asked for: the watched
    /// repositories, at most twenty items.
    pub fn open_pr_filter(&self) -> (r: PrFilter)
        ensures
            texts(r.repositories@) == self.watched(),
            r.state is None,
            !r.stale_only,
            r.stale_threshold_hours == 48,
            r.limit == 20,
    {
        PrFilter::new().with_repositories(copies(&self.config.repositories))
    }

    /// Whether the pull request is stale at `now`.
    pub fn is_stale(&self, pr: &PullRequest, now: i64) -> (r: bool)
        ensures
            r == stale_at(pr.updated_at, self.threshold_hours(), now),
    {
        is_stale_at(pr.updated_at, self.config.stale_threshold_hours, now)
    }

    /// The pull requests that wait for the review of the user that is set; none
    /// where no user is set.
    pub fn get_pending_review(&self, prs: Vec<PullRequest>) -> (r: Vec<PullRequest>)
        ensures
            r@ == match self.user() {
                Some(user) => assigned_to(prs@, user),
                None => Seq::empty(),
            },
    {
        match &self.user_id {
            Some(user) => find_by_reviewer(prs, user),
            None => Vec::new(),
        }
    }

    /// Whether the pull request waits for the review of the user that is set. A
    /// user counts as asked where the identifier or the displayed name agrees; two
    /// users of one name are not told apart.
    pub fn is_pending(&self, pr: &PullRequest) -> (r: bool)
        ensures
            r == (self.user() matches Some(user) && reviewed_by(*pr, user)),
    {
        match &self.user_id {
            Some(user) => is_reviewed_by(pr, user),
            None => false,
        }
    }

    /// The summary of the pull requests at `now`, computed from the whole list.
    pub fn compute_summary(&self, prs: &Vec<PullRequest>, now: i64) -> (r: PrSummary)
        ensures
            r.total_open == prs@.len(),
            r.stale_count == stale_count(prs@, self.threshold_hours(), now),
            r.pending_review == pending_count(prs@, self.user()),
            table_view(r.by_repository@) == tally(repositories(prs@)),
            match oldest_stale_hours(prs@, self.threshold_hours(), now) {
                Some(hours) => r.oldest_stale_hours == Some(hours as i64) && hours == hours as i64,
                None => r.oldest_stale_hours is None,
            },
            r.tray_state == TrayState::level_for(0, r.stale_count as nat, r.pending_review as nat),
    {
        let mut stale: usize = 0;
        let mut pending: usize = 0;
        let mut by_repository: Vec<(String, usize)> = Vec::new();
        let mut oldest: Option<i64> = None;
        let mut i: usize = 0;
        assert(prs@.subrange(0, 0) =~= Seq::<PullRequest>::empty());
        assert(repositories(prs@).subrange(0, 0) =~= Seq::<Seq<char>>::empty());
        assert(table_view(by_repository@) =~= Seq::<(Seq<char>, nat)>::empty());
        while i < prs.len()
            invariant
                i <= prs.len(),
                stale <= i,
                pending <= i,
                stale == stale_count(prs@.subrange(0, i as int), self.threshold_hours(), now),
                pending == pending_count(prs@.subrange(0, i as int), self.user()),
                table_view(by_repository@) == tally(repositories(prs@).subrange(0, i as int)),
                match oldest_stale_hours(prs@.subrange(0, i as int), self.threshold_hours(), now) {
                    Some(hours) => oldest == Some(hours as i64) && hours == hours as i64,
                    None => oldest is None,
                },
            decreases prs.len() - i,
        {
            let ghost done = prs@.subrange(0, i as int);
            let ghost next = prs@.subrange(0, i + 1);
            let ghost names = repositories(prs@).subrange(0, i as int);
            let ghost more_names = repositories(prs@).subrange(0, i + 1);
            proof {
                assert(next.drop_last() =~= done);
                assert(next.last() == prs@[i as int]);
                assert(more_names.drop_last() =~= names);
                assert(more_names.last() == prs@[i as int].repository@);
                lemma_tally(names, prs@[i as int].repository@);
                assert forall|k: int| 0 <= k < by_repository@.len() implies (
                #[trigger] by_repository@[k]).1 < usize::MAX by {
                    assert(table_view(by_repository@)[k].1 <= names.len());
                }
            }
            let pr = &prs[i];
            if self.is_stale(pr, now) {
                stale = stale + 1;
                let hours = age_in_hours(pr.updated_at, now);
                oldest = match oldest {
                    Some(so_far) => Some(
                        if so_far >= hours {
                            so_far
                        } else {
                            hours
                        },
                    ),
                    None => Some(hours),
                };
            }
            if self.is_pending(pr) {
                pending = pending + 1;
            }
            count_label(&mut by_repository, pr.repository.as_str());
            i = i + 1;
        }
        assert(prs@.subrange(0, prs@.len() as int) =~= prs@);
        assert(repositories(prs@).subrange(0, prs@.len() as int) =~= repositories(prs@));
        PrSummary {
            total_open: prs.len(),
            pending_review: pending,
            stale_count: stale,
            by_repository,
            oldest_stale_hours: oldest,
            tray_state: PrSummary::calculate_tray_state(stale, pending),
        }
    }

    /// The stale ones among the pull requests, in their order.
    pub fn get_stale_prs(&self, prs: Vec<PullRequest>, now: i64) -> (r: Vec<PullRequest>)
        ensures
            r@ == stale_only(prs@, self.threshold_hours(), now),
    {
        let mut out: Vec<PullRequest> = Vec::new();
        let ghost all = prs@;
        assert(all.subrange(0, 0) =~= Seq::<PullRequest>::empty());
        for pr in it: prs
            invariant
                it.seq() == all,
                out@ == stale_only(
                    all.subrange(0, it.index() as int),
                    self.threshold_hours(),
                    now,
                ),
        {
            assert(all.subrange(0, it.index() + 1).drop_last() =~= all.subrange(
                0,
                it.index() as int,
            ));
            assert(all.subrange(0, it.index() + 1).last() == pr);
            if self.is_stale(&pr, now) {
                out.push(pr);
            }
        }
        assert(all.subrange(0, all.len() as int) =~= all);
        out
    }

    /// The label of the age bucket of a pull request at `now`.
    pub fn age_bucket(&self, pr: &PullRequest, now: i64) -> (r: String)
        ensures
            r@ == age_bucket_label(pr.updated_at, now),
    {
        let age: i128 = now as i128 - pr.updated_at as i128;
        if age < 24i128 * 3_600_000i128 {
            owned("< 24 hours")
        } else if age < 48i128 * 3_600_000i128 {
            owned("24-48 hours")
        } else if age < 7i128 * 86_400_000i128 {
            owned("2-7 days")
        } else {
            owned("> 7 days")
        }
    }

    fn label_for(&self, pr: &PullRequest, grouping: PrGrouping, now: i64) -> (r: String)
        ensures
            r@ == group_label(*pr, grouping, now),
    {
        match grouping {
            PrGrouping::ByRepository => pr.repository.clone(),
            PrGrouping::ByAuthor => pr.author.name.clone(),
            PrGrouping::ByAge => self.age_bucket(pr, now),
        }
    }

    /// Groups the pull requests and orders the groups by the number of their
    /// stale pull requests, the highest first. Groups with the same number stay
    /// in the order in which their labels first occur.
    pub fn group_prs(&self, prs: Vec<PullRequest>, grouping: PrGrouping, now: i64) -> (r: Vec<
        GroupedPrs,
    >)
        ensures
            r@.map_values(group_view()) == sorted_by_rank(
                grouped(prs@, grouping, self.threshold_hours(), now),
                group_rank(),
            ),
    {
        let mut groups: Vec<GroupedPrs> = Vec::new();
        let ghost all = prs@;
        let ghost threshold = self.threshold_hours();
        assert(all.subrange(0, 0) =~= Seq::<PullRequest>::empty());
        assert(groups@.map_values(group_view()) =~= Seq::<GroupView>::empty());
        for pr in it: prs
            invariant
                it.seq() == all,
                threshold == self.threshold_hours(),
                groups@.map_values(group_view()) == grouped(
                    all.subrange(0, it.index() as int),
                    grouping,
                    threshold,
                    now,
                ),
                forall|k: int|
                    0 <= k < groups@.len() ==> (#[trigger] groups@[k]).stale_count
                        <= groups@[k].prs@.len(),
        {
            let ghost before = groups@.map_values(group_view());
            assert(all.subrange(0, it.index() + 1).drop_last() =~= all.subrange(
                0,
                it.index() as int,
            ));
            assert(all.subrange(0, it.index() + 1).last() == pr);
            let label = self.label_for(&pr, grouping, now);
            let stale = self.is_stale(&pr, now);
            match Self::find_group(&groups, &label) {
                Some(at) => {
                    let ghost rows = groups@;
                    let mut group = groups.remove(at);
                    assert(group == rows[at as int]);
                    group.prs.push(pr);
                    let members = group.prs.len();
                    assert(group.stale_count < members);
                    if stale {
                        group.stale_count = group.stale_count + 1;
                    }
                    groups.insert(at, group);
                    proof {
                        lemma_group_index(before, label@);
                        let after = group_add(before, label@, pr, stale);
                        assert(before[at as int] == rows[at as int]@);
                        assert forall|k: int| 0 <= k < groups@.len() implies #[trigger] groups@.map_values(
                            group_view(),
                        )[k] == after[k] by {
                            if k != at {
                                assert(groups@[k] == rows[k]);
                                assert(before[k] == rows[k]@);
                            }
                        }
                        assert(groups@.map_values(group_view()) =~= after);
                        assert forall|k: int| 0 <= k < groups@.len() implies (
                        #[trigger] groups@[k]).stale_count <= groups@[k].prs@.len() by {
                            if k != at {
                                assert(groups@[k] == rows[k]);
                            }
                        }
                    }
                },
                None => {
                    let ghost rows = groups@;
                    let mut members: Vec<PullRequest> = Vec::new();
                    members.push(pr);
                    assert(members@ =~= seq![pr]);
                    groups.push(
                        GroupedPrs {
                            label,
                            prs: members,
                            stale_count: if stale {
                                1
                            } else {
                                0
                            },
                        },
                    );
                    proof {
                        let after = group_add(before, label@, pr, stale);
                        assert(groups@.map_values(group_view()) =~= after);
                        assert forall|k: int| 0 <= k < groups@.len() implies (
                        #[trigger] groups@[k]).stale_count <= groups@[k].prs@.len() by {
                            if k < rows.len() {
                                assert(groups@[k] == rows[k]);
                            }
                        }
                    }
                },
            }
        }
        assert(all.subrange(0, all.len() as int) =~= all);
        let ghost unsorted = groups@;
        let sorted = sort_descending(groups);
        proof {
            assert forall|group: GroupedPrs| #[trigger] rank_of::<GroupedPrs>()(group) == group_rank()(
                group_view()(group),
            ) by {}
            lemma_sorted_views(unsorted, group_view(), rank_of::<GroupedPrs>(), group_rank());
        }
        sorted
    }

    fn find_group(groups: &Vec<GroupedPrs>, label: &String) -> (r: Option<usize>)
        ensures
            match r {
                Some(at) => at == group_index(groups@.map_values(group_view()), label@) && at
                    < groups@.len(),
                None => group_index(groups@.map_values(group_view()), label@) < 0,
            },
    {
        let ghost views = groups@.map_values(group_view());
        proof {
            lemma_group_index(views, label@);
        }
        let mut i: usize = 0;
        while i < groups.len()
            invariant
                i <= groups.len(),
                views == groups@.map_values(group_view()),
                forall|k: int| 0 <= k < i ==> (#[trigger] views[k]).label != label@,
                -1 <= group_index(views, label@) < views.len(),
                group_index(views, label@) >= 0 ==> views[group_index(views, label@)].label
                    == label@,
                forall|k: int|
                    0 <= k < views.len() && (group_index(views, label@) < 0 || k < group_index(
                        views,
                        label@,
                    )) ==> (#[trigger] views[k]).label != label@,
            decreases groups.len() - i,
        {
            if groups[i].label == *label {
                assert(views[i as int].label == label@);
                return Some(i);
            }
            assert(views[i as int].label != label@);
            i = i + 1;
        }
        None
    }
}

} // verus!

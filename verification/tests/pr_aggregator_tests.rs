use em_cockpit::integrations::traits::{ChecksStatus, PrState, PullRequest, Reviewer, User};
use em_cockpit::services::pr_aggregator::{
    age_in_hours, is_stale_at, summary_cache_key, PrAggregator, PrAggregatorConfig, PrGrouping,
    PrSummary,
};
use em_cockpit::system::tray::TrayState;

const HOUR: i64 = 3_600_000;
const NOW: i64 = 1_700_000_000_000;

fn create_test_pr(id: &str, repo: &str, age_hours: i64) -> PullRequest {
    PullRequest {
        id: id.to_string(),
        repository: repo.to_string(),
        title: format!("PR {}", id),
        description: None,
        state: PrState::Open,
        author: User {
            id: "author1".to_string(),
            name: "Author".to_string(),
            email: None,
            avatar_url: None,
        },
        reviewers: vec![],
        source_branch: "feature".to_string(),
        target_branch: "main".to_string(),
        checks_status: ChecksStatus::Pass,
        is_stale: age_hours >= 48,
        updated_at: NOW - age_hours * HOUR,
        created_at: NOW - (age_hours + 10) * HOUR,
        url: format!("https://example.com/pr/{}", id),
    }
}

fn create_pr_with_reviewer(id: &str, reviewer_id: &str) -> PullRequest {
    let mut pr = create_test_pr(id, "repo1", 12);
    pr.reviewers = vec![Reviewer {
        user: User {
            id: reviewer_id.to_string(),
            name: reviewer_id.to_string(),
            email: None,
            avatar_url: None,
        },
        approved: false,
    }];
    pr
}

#[test]
fn test_pr_summary_calculate_tray_state() {
    assert_eq!(PrSummary::calculate_tray_state(1, 0), TrayState::Amber);
    assert_eq!(PrSummary::calculate_tray_state(0, 0), TrayState::Green);
    assert_eq!(PrSummary::calculate_tray_state(0, 5), TrayState::Neutral);
}

#[test]
fn test_pr_aggregator_config_builder() {
    let config =
        PrAggregatorConfig::new().with_stale_threshold(24).with_repositories(vec!["repo1".to_string()]);

    assert_eq!(config.stale_threshold_hours, 24);
    assert_eq!(config.repositories.len(), 1);
}

#[test]
fn test_get_stale_prs() {
    let prs = vec![
        create_test_pr("1", "repo1", 10),
        create_test_pr("2", "repo1", 50),
        create_test_pr("3", "repo1", 100),
    ];
    let config = PrAggregatorConfig::new().with_stale_threshold(48);
    let aggregator = PrAggregator::new(config);

    let stale = aggregator.get_stale_prs(prs, NOW);
    assert_eq!(stale.len(), 2);
    assert_eq!(stale[0].id, "2");
    assert_eq!(stale[1].id, "3");
}

#[test]
fn test_get_pending_review() {
    let prs = vec![
        create_pr_with_reviewer("1", "user1"),
        create_pr_with_reviewer("2", "user2"),
        create_test_pr("3", "repo1", 10),
    ];
    let aggregator = PrAggregator::new(PrAggregatorConfig::new()).with_user_id("user1");

    let pending: Vec<&PullRequest> = prs.iter().filter(|pr| aggregator.is_pending(pr)).collect();
    assert_eq!(pending.len(), 1);
    assert_eq!(pending[0].id, "1");
}

#[test]
fn pr_aggregator_test_get_summary() {
    let prs = vec![
        create_test_pr("1", "repo1", 10),
        create_test_pr("2", "repo1", 50),
        create_test_pr("3", "repo2", 100),
    ];
    let aggregator = PrAggregator::new(PrAggregatorConfig::new());

    let summary = aggregator.compute_summary(&prs, NOW);

    assert_eq!(summary.total_open, 3);
    assert_eq!(summary.stale_count, 2);
    assert_eq!(summary.repository_count("repo1"), Some(2));
    assert_eq!(summary.repository_count("repo2"), Some(1));
    assert_eq!(summary.tray_state, TrayState::Amber);
}

#[test]
fn test_group_prs_by_repository() {
    let prs = vec![
        create_test_pr("1", "repo1", 10),
        create_test_pr("2", "repo1", 20),
        create_test_pr("3", "repo2", 30),
    ];
    let aggregator = PrAggregator::new(PrAggregatorConfig::new());

    let groups = aggregator.group_prs(prs, PrGrouping::ByRepository, NOW);

    assert_eq!(groups.len(), 2);
    let repo1_group = groups.iter().find(|g| g.label == "repo1");
    assert!(repo1_group.is_some());
    assert_eq!(repo1_group.unwrap().prs.len(), 2);
}

#[test]
fn test_group_prs_by_age() {
    let prs = vec![
        create_test_pr("1", "repo1", 10),
        create_test_pr("2", "repo1", 30),
        create_test_pr("3", "repo1", 100),
    ];
    let aggregator = PrAggregator::new(PrAggregatorConfig::new());

    let groups = aggregator.group_prs(prs, PrGrouping::ByAge, NOW);

    assert!(groups.len() >= 2);
}

#[test]
fn test_groups_sorted_by_stale_count() {
    let prs = vec![
        create_test_pr("1", "repo1", 10),
        create_test_pr("2", "repo2", 100),
        create_test_pr("3", "repo2", 100),
    ];
    let aggregator = PrAggregator::new(PrAggregatorConfig::new());

    let groups = aggregator.group_prs(prs, PrGrouping::ByRepository, NOW);

    assert_eq!(groups[0].label, "repo2");
    assert_eq!(groups[0].stale_count, 2);
}

#[test]
fn test_stale_threshold() {
    let old_date = NOW - 25 * HOUR;
    assert!(is_stale_at(old_date, 24, NOW));

    let recent_date = NOW - 12 * HOUR;
    assert!(!is_stale_at(recent_date, 24, NOW));
}

#[test]
fn staleness_is_strictly_beyond_the_threshold() {
    assert!(is_stale_at(NOW - 49 * HOUR, 48, NOW));
    assert!(!is_stale_at(NOW - 47 * HOUR, 48, NOW));
    assert!(!is_stale_at(NOW - 48 * HOUR, 48, NOW));
    assert!(is_stale_at(NOW - 48 * HOUR - 1, 48, NOW));
    assert!(!is_stale_at(i64::MIN, i64::MAX, i64::MAX));
    assert!(is_stale_at(i64::MIN, 48, i64::MAX));
    assert_eq!(age_in_hours(NOW - 49 * HOUR - 5, NOW), 49);
    assert_eq!(age_in_hours(NOW + 90 * 60_000, NOW), -1);
    assert_eq!(age_in_hours(NOW + 30 * 60_000, NOW), 0);
}

#[test]
fn summary_counts_are_exact() {
    let mut mine = create_pr_with_reviewer("4", "someone");
    mine.reviewers[0].user.name = "me".to_string();
    mine.updated_at = NOW - 200 * HOUR - 1;
    mine.repository = "repo3".to_string();
    let prs = vec![
        create_test_pr("1", "repo2", 10),
        create_test_pr("2", "repo1", 50),
        create_pr_with_reviewer("3", "me"),
        mine,
        create_test_pr("5", "repo2", 100),
    ];
    let aggregator = PrAggregator::new(PrAggregatorConfig::new()).with_user_id("me");
    let summary = aggregator.compute_summary(&prs, NOW);
    assert_eq!(summary.total_open, 5);
    assert_eq!(summary.stale_count, 3);
    assert_eq!(summary.pending_review, 2);
    assert_eq!(summary.oldest_stale_hours, Some(200));
    assert_eq!(
        summary.by_repository,
        vec![("repo2".to_string(), 2), ("repo1".to_string(), 2), ("repo3".to_string(), 1)]
    );
    assert_eq!(summary.repository_count("nowhere"), None);
    assert_eq!(summary.tray_state, TrayState::Amber);

    let nobody = PrAggregator::new(PrAggregatorConfig::new().with_stale_threshold(1000));
    let calm = nobody.compute_summary(&prs, NOW);
    assert_eq!(calm.stale_count, 0);
    assert_eq!(calm.pending_review, 0);
    assert_eq!(calm.oldest_stale_hours, None);
    assert_eq!(calm.tray_state, TrayState::Green);
    let empty = nobody.compute_summary(&vec![], NOW);
    assert_eq!(empty.total_open, 0);
    assert!(empty.by_repository.is_empty());
    let fresh = PrSummary::new();
    assert_eq!(fresh.tray_state, TrayState::Neutral);
    assert_eq!(summary_cache_key(), "pr_summary");
}

#[test]
fn groups_keep_first_seen_order_among_equal_counts() {
    let prs = vec![
        create_test_pr("1", "c", 10),
        create_test_pr("2", "a", 100),
        create_test_pr("3", "b", 10),
        create_test_pr("4", "d", 60),
        create_test_pr("5", "a", 10),
        create_test_pr("6", "e", 70),
        create_test_pr("7", "e", 80),
    ];
    let aggregator = PrAggregator::new(PrAggregatorConfig::new());
    let groups = aggregator.group_prs(prs, PrGrouping::ByRepository, NOW);
    let shape: Vec<(String, usize, Vec<String>)> = groups
        .iter()
        .map(|g| (g.label.clone(), g.stale_count, g.prs.iter().map(|p| p.id.clone()).collect()))
        .collect();
    assert_eq!(
        shape,
        vec![
            ("e".to_string(), 2, vec!["6".to_string(), "7".to_string()]),
            ("a".to_string(), 1, vec!["2".to_string(), "5".to_string()]),
            ("d".to_string(), 1, vec!["4".to_string()]),
            ("c".to_string(), 0, vec!["1".to_string()]),
            ("b".to_string(), 0, vec!["3".to_string()]),
        ]
    );
}

#[test]
fn age_buckets_and_authors() {
    let aggregator = PrAggregator::new(PrAggregatorConfig::new());
    assert_eq!(aggregator.age_bucket(&create_test_pr("1", "r", 23), NOW), "< 24 hours");
    assert_eq!(aggregator.age_bucket(&create_test_pr("1", "r", 24), NOW), "24-48 hours");
    assert_eq!(aggregator.age_bucket(&create_test_pr("1", "r", 47), NOW), "24-48 hours");
    assert_eq!(aggregator.age_bucket(&create_test_pr("1", "r", 48), NOW), "2-7 days");
    assert_eq!(aggregator.age_bucket(&create_test_pr("1", "r", 167), NOW), "2-7 days");
    assert_eq!(aggregator.age_bucket(&create_test_pr("1", "r", 168), NOW), "> 7 days");
    assert_eq!(aggregator.age_bucket(&create_test_pr("1", "r", -5), NOW), "< 24 hours");
    let mut other = create_test_pr("2", "r", 1);
    other.author.name = "Other".to_string();
    let groups =
        aggregator.group_prs(vec![create_test_pr("1", "r", 1), other], PrGrouping::ByAuthor, NOW);
    assert_eq!(groups.len(), 2);
    assert_eq!(groups[0].label, "Author");
    assert_eq!(groups[1].label, "Other");
    let watching = PrAggregator::new(
        PrAggregatorConfig::new().with_repositories(vec!["x".to_string(), "y".to_string()]),
    );
    let filter = watching.open_pr_filter();
    assert_eq!(filter.repositories, vec!["x".to_string(), "y".to_string()]);
    assert_eq!(filter.limit, 20);
    assert_eq!(watching.refresh_interval(), 120_000);
}

#[test]
fn pending_reviews_are_found_by_identifier_or_name() {
    let mut by_name = create_pr_with_reviewer("2", "someone");
    by_name.reviewers[0].user.name = "user1".to_string();
    let prs = vec![
        create_pr_with_reviewer("1", "user1"),
        by_name,
        create_pr_with_reviewer("3", "user2"),
        create_test_pr("4", "repo1", 10),
    ];
    let aggregator = PrAggregator::new(PrAggregatorConfig::new()).with_user_id("user1");
    let pending = aggregator.get_pending_review(prs.clone());
    let ids: Vec<&str> = pending.iter().map(|pr| pr.id.as_str()).collect();
    assert_eq!(ids, vec!["1", "2"]);
    let nobody = PrAggregator::new(PrAggregatorConfig::new());
    assert!(nobody.get_pending_review(prs).is_empty());
}

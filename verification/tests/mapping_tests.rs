use em_cockpit::integrations::git::{
    apply_filter, map_bitbucket_pr, map_github_pr, BitbucketPr, BitbucketUser, GitHubPr, GitHubUser,
};
use em_cockpit::integrations::jira::{map_issue, JiraIssue, JiraUser};
use em_cockpit::integrations::monitoring::{incidents_from, map_alert, GrafanaAlert};
use em_cockpit::integrations::traits::{
    ChecksStatus, IncidentStatus, PrFilter, PrState, Priority, Severity, StatusCategory,
};
use em_cockpit::text::{decimal_u64, signed_decimal};

const HOUR: i64 = 3_600_000;
const NOW: i64 = 1_700_000_000_000;

fn github_user(id: i64, login: &str) -> GitHubUser {
    GitHubUser { id, login: login.to_string(), avatar_url: format!("https://a/{}", login) }
}

fn github_pr(number: i64, draft: bool, age_hours: i64) -> GitHubPr {
    GitHubPr {
        number,
        title: "Title".to_string(),
        body: Some("Body".to_string()),
        user: github_user(7, "ann"),
        requested_reviewers: vec![github_user(8, "bob"), github_user(-9, "cy")],
        head_ref: "feature".to_string(),
        base_ref: "main".to_string(),
        draft,
        created_at: NOW - 100 * HOUR,
        updated_at: NOW - age_hours * HOUR,
        html_url: "https://x/1".to_string(),
    }
}

#[test]
fn github_pull_requests_are_mapped() {
    let pr = map_github_pr(&github_pr(42, true, 49), "org/repo", 48, NOW);
    assert_eq!(pr.id, "42");
    assert_eq!(pr.repository, "org/repo");
    assert_eq!(pr.title, "Title");
    assert_eq!(pr.description, Some("Body".to_string()));
    assert_eq!(pr.state, PrState::Draft);
    assert_eq!(pr.author.id, "7");
    assert_eq!(pr.author.name, "ann");
    assert_eq!(pr.author.avatar_url, Some("https://a/ann".to_string()));
    assert!(pr.author.email.is_none());
    assert_eq!(pr.reviewers.len(), 2);
    assert_eq!(pr.reviewers[0].user.name, "bob");
    assert_eq!(pr.reviewers[1].user.id, "-9");
    assert!(!pr.reviewers[0].approved);
    assert_eq!(pr.source_branch, "feature");
    assert_eq!(pr.target_branch, "main");
    assert_eq!(pr.checks_status, ChecksStatus::NotRun);
    assert!(pr.is_stale);
    assert_eq!(pr.updated_at, NOW - 49 * HOUR);
    assert_eq!(pr.created_at, NOW - 100 * HOUR);
    assert_eq!(pr.url, "https://x/1");
    let open = map_github_pr(&github_pr(1, false, 47), "r", 48, NOW);
    assert_eq!(open.state, PrState::Open);
    assert!(!open.is_stale);
}

#[test]
fn bitbucket_pull_requests_are_mapped() {
    let user = |uuid: &str, avatar: Option<&str>| BitbucketUser {
        uuid: uuid.to_string(),
        display_name: format!("User {}", uuid),
        avatar: avatar.map(|a| a.to_string()),
    };
    let reported = BitbucketPr {
        id: 5,
        title: "T".to_string(),
        description: None,
        author: user("{a}", Some("https://pic")),
        reviewers: vec![user("{b}", Some("https://other"))],
        source_branch: "dev".to_string(),
        destination_branch: "main".to_string(),
        created_on: 1,
        updated_on: NOW - 24 * HOUR - 1,
        html_url: "https://bb/5".to_string(),
    };
    let pr = map_bitbucket_pr(&reported, "repo", 24, NOW);
    assert_eq!(pr.id, "5");
    assert_eq!(pr.state, PrState::Open);
    assert_eq!(pr.author.id, "{a}");
    assert_eq!(pr.author.name, "User {a}");
    assert_eq!(pr.author.avatar_url, Some("https://pic".to_string()));
    assert_eq!(pr.reviewers[0].user.id, "{b}");
    assert_eq!(pr.reviewers[0].user.avatar_url, None);
    assert!(pr.description.is_none());
    assert!(pr.is_stale);
    assert_eq!(pr.source_branch, "dev");
    assert_eq!(pr.target_branch, "main");
    assert_eq!(pr.url, "https://bb/5");
    assert_eq!(pr.created_at, 1);
}

#[test]
fn fetched_pull_requests_are_filtered_and_cut() {
    let prs: Vec<_> = [10, 50, 60, 20, 70]
        .iter()
        .enumerate()
        .map(|(i, age)| map_github_pr(&github_pr(i as i64, false, *age), "r", 48, NOW))
        .collect();
    let ids = |filter: &PrFilter| -> Vec<String> {
        apply_filter(prs.clone(), filter).into_iter().map(|pr| pr.id).collect()
    };
    assert_eq!(ids(&PrFilter::new()), vec!["0", "1", "2", "3", "4"]);
    assert_eq!(ids(&PrFilter::new().stale_only()), vec!["1", "2", "4"]);
    let mut two = PrFilter::new().stale_only();
    two.limit = 2;
    assert_eq!(ids(&two), vec!["1", "2"]);
    two.limit = 0;
    assert!(ids(&two).is_empty());
}

#[test]
fn tickets_are_mapped() {
    let reported = JiraIssue {
        id: "10001".to_string(),
        key: "PROJ-1".to_string(),
        summary: "Summary".to_string(),
        description: Some("Text".to_string()),
        status_name: "In Review".to_string(),
        status_category_key: "indeterminate".to_string(),
        assignee: Some(JiraUser {
            account_id: "acc".to_string(),
            display_name: "Ann".to_string(),
            email_address: Some("ann@example.com".to_string()),
            avatar: Some("https://pic".to_string()),
        }),
        reporter: None,
        priority_name: Some("Blocker".to_string()),
        sprint_name: Some("Sprint 3".to_string()),
        labels: Some(vec!["a".to_string(), "b".to_string()]),
        updated: Some(5),
        created: None,
    };
    let ticket = map_issue(&reported, NOW);
    assert_eq!(ticket.id, "10001");
    assert_eq!(ticket.key, "PROJ-1");
    assert_eq!(ticket.summary, "Summary");
    assert_eq!(ticket.description, Some("Text".to_string()));
    assert_eq!(ticket.status.name, "In Review");
    assert_eq!(ticket.status.category, StatusCategory::InProgress);
    let assignee = ticket.assignee.unwrap();
    assert_eq!(assignee.id, "acc");
    assert_eq!(assignee.name, "Ann");
    assert_eq!(assignee.email, Some("ann@example.com".to_string()));
    assert_eq!(assignee.avatar_url, Some("https://pic".to_string()));
    assert!(ticket.reporter.is_none());
    assert_eq!(ticket.priority, Some(Priority::Highest));
    assert_eq!(ticket.sprint, Some("Sprint 3".to_string()));
    assert_eq!(ticket.labels, vec!["a".to_string(), "b".to_string()]);
    assert_eq!(ticket.updated_at, 5);
    assert_eq!(ticket.created_at, NOW);
    let bare = JiraIssue { labels: None, priority_name: None, updated: None, ..reported };
    let ticket = map_issue(&bare, NOW);
    assert!(ticket.labels.is_empty());
    assert!(ticket.priority.is_none());
    assert_eq!(ticket.updated_at, NOW);
}

#[test]
fn alerts_become_incidents() {
    let alert = |fingerprint: &str, state: &str| GrafanaAlert {
        fingerprint: fingerprint.to_string(),
        service: Some("api".to_string()),
        severity: Some("HIGH".to_string()),
        description: Some("High error rate".to_string()),
        runbook_url: Some("https://runbook".to_string()),
        starts_at: 77,
        state: state.to_string(),
    };
    let incident = map_alert(&alert("f1", "active"));
    assert_eq!(incident.id, "f1");
    assert_eq!(incident.service, "api");
    assert_eq!(incident.severity, Severity::High);
    assert_eq!(incident.status, IncidentStatus::Firing);
    assert_eq!(incident.started_at, 77);
    assert!(incident.resolved_at.is_none());
    assert_eq!(incident.description, "High error rate");
    assert_eq!(incident.runbook_url, Some("https://runbook".to_string()));
    let bare = GrafanaAlert {
        fingerprint: "f2".to_string(),
        service: None,
        severity: None,
        description: None,
        runbook_url: None,
        starts_at: 1,
        state: "active".to_string(),
    };
    let incident = map_alert(&bare);
    assert_eq!(incident.service, "unknown");
    assert_eq!(incident.severity, Severity::Medium);
    assert_eq!(incident.description, "f2");
    assert!(incident.runbook_url.is_none());
    let incidents = incidents_from(&vec![
        alert("a", "active"),
        alert("b", "suppressed"),
        bare,
        alert("c", "Active"),
        alert("d", "active"),
    ]);
    let ids: Vec<&str> = incidents.iter().map(|i| i.id.as_str()).collect();
    assert_eq!(ids, vec!["a", "f2", "d"]);
}

#[test]
fn numbers_with_sign() {
    assert_eq!(signed_decimal(0), "0");
    assert_eq!(signed_decimal(-1), "-1");
    assert_eq!(signed_decimal(i64::MAX), i64::MAX.to_string());
    assert_eq!(signed_decimal(i64::MIN), i64::MIN.to_string());
    assert_eq!(decimal_u64(u64::MAX), u64::MAX.to_string());
}

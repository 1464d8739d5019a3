//! Pull requests as sent to the user interface.

use vstd::prelude::*;

verus! {

/// The number of pull requests asked for where the request names none.
pub fn default_pr_limit() -> (r: usize)
    ensures
        r == 20,
{
    20
}

/// A request for a list of pull requests.
#[derive(Debug, Clone)]
pub struct PrListParams {
    pub repositories: Vec<String>,
    pub stale_only: bool,
    pub pending_review_only: bool,
    pub limit: usize,
}

#[derive(Debug, Clone)]
pub struct PrSummaryResponse {
    pub total_open: usize,
    pub pending_review: usize,
    pub stale_count: usize,
    pub by_repository: Vec<(String, usize)>,
    pub tray_state: String,
}

#[derive(Debug, Clone)]
pub struct UserDto {
    pub id: String,
    pub name: String,
    pub avatar: Option<String>,
}

#[derive(Debug, Clone)]
pub struct ReviewerDto {
    pub user: UserDto,
    pub approved: bool,
}

#[derive(Debug, Clone)]
pub struct PrItemDto {
    pub id: String,
    pub repository: String,
    pub title: String,
    pub description: Option<String>,
    pub state: String,
    pub author: UserDto,
    pub reviewers: Vec<ReviewerDto>,
    pub source_branch: String,
    pub target_branch: String,
    pub checks_status: String,
    pub is_stale: bool,
    pub updated_at: String,
    pub url: String,
    pub age_hours: i64,
}

#[derive(Debug, Clone)]
pub struct PrGroupDto {
    pub label: String,
    pub prs: Vec<PrItemDto>,
    pub stale_count: usize,
}

#[derive(Debug, Clone)]
pub struct GroupedPrsResponse {
    pub groups: Vec<PrGroupDto>,
    pub total_count: usize,
}

} // verus!

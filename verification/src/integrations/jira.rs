//! The client of the ticket tracker, as far as it computes: its settings, the
//! query language, and the mapping of what the tracker reports.

use crate::integrations::traits::{
    IntegrationError, Priority, StatusCategory, Ticket, TicketSearchQuery, TicketStatus, User,
};
use crate::text::{
    copied, copies, decimal, decimal_digits, join, joined, lowercase, lowercase_of, owned, same,
    texts, trim_end_matches, without_trailing,
};
use vstd::prelude::*;
use vstd::string::*;

verus! {

/// The standard Base64 notation, with padding, of the UTF-8 bytes of a text.
pub uninterp spec fn base64_of(text: Seq<char>) -> Seq<char>;

/// Encodes the bytes of a text with `Engine::encode` of the engine
/// `base64::engine::general_purpose::STANDARD`. Trusted: the result is named
/// `base64_of`; it depends on the text alone. The call fails only for inputs
/// longer than any string can be.
#[verifier::external_body]
pub(crate) fn base64_encode(text: &str) -> (r: String)
    ensures
        r@ == base64_of(text@),
{
    base64::Engine::encode(&base64::engine::general_purpose::STANDARD, text)
}

/// The value of a basic authorization header for a user and a secret.
pub open spec fn basic_authorization(user: Seq<char>, secret: Seq<char>) -> Seq<char> {
    "Basic "@ + base64_of(user + ":"@ + secret)
}

/// The value of a basic authorization header for a user and a secret.
pub fn basic_auth_header(user: &str, secret: &str) -> (r: String)
    ensures
        r@ == basic_authorization(user@, secret@),
{
    let credentials = owned(user).concat(":").concat(secret);
    owned("Basic ").concat(base64_encode(credentials.as_str()).as_str())
}

/// The settings of the client.
#[derive(Debug, Clone)]
pub struct JiraConfig {
    /// The address of the tracker, without a slash at its end.
    pub base_url: String,
    pub username: String,
    pub token: Option<String>,
    pub default_project: Option<String>,
}

/// The text of an optional string; empty where there is none.
pub open spec fn text_or_empty(text: Option<String>) -> Seq<char> {
    match text {
        Some(t) => t@,
        None => Seq::empty(),
    }
}

/// The priority that a name in lower case stands for; `Medium` for a name that
/// is not known.
pub open spec fn priority_named(lower: Seq<char>) -> Priority {
    if lower == "highest"@ || lower == "blocker"@ {
        Priority::Highest
    } else if lower == "high"@ || lower == "critical"@ {
        Priority::High
    } else if lower == "medium"@ || lower == "major"@ {
        Priority::Medium
    } else if lower == "low"@ || lower == "minor"@ {
        Priority::Low
    } else if lower == "lowest"@ || lower == "trivial"@ {
        Priority::Lowest
    } else {
        Priority::Medium
    }
}

/// The category that a key of the tracker stands for; `Todo` for a key that is
/// not known.
pub open spec fn category_keyed(key: Seq<char>) -> StatusCategory {
    if key == "indeterminate"@ {
        StatusCategory::InProgress
    } else if key == "done"@ {
        StatusCategory::Done
    } else {
        StatusCategory::Todo
    }
}

/// The conditions of a query, in the order project, text, assignee, status. The
/// project of the query goes before the default project.
pub open spec fn jql_conditions(default_project: Option<String>, query: &TicketSearchQuery) -> Seq<
    Seq<char>,
> {
    let project: Seq<Seq<char>> = match query.project {
        Some(p) => seq!["project = "@ + p@],
        None => match default_project {
            Some(p) => seq!["project = "@ + p@],
            None => seq![],
        },
    };
    let text: Seq<Seq<char>> = match query.text {
        Some(t) => seq!["text ~ \""@ + t@ + "\""@],
        None => seq![],
    };
    let assignee: Seq<Seq<char>> = match query.assignee {
        Some(a) => seq!["assignee = \""@ + a@ + "\""@],
        None => seq![],
    };
    let status: Seq<Seq<char>> = match query.status {
        Some(s) => seq!["status = \""@ + s@ + "\""@],
        None => seq![],
    };
    project + text + assignee + status
}

/// The query in the language of the tracker: the conditions joined with `AND`,
/// the newest update first.
pub open spec fn jql_text(default_project: Option<String>, query: &TicketSearchQuery) -> Seq<char> {
    let conditions = jql_conditions(default_project, query);
    if conditions.len() == 0 {
        "ORDER BY updated DESC"@
    } else {
        joined(conditions, " AND "@) + " ORDER BY updated DESC"@
    }
}

/// The message for an answer with an unexpected status.
pub open spec fn status_message(status: u16, body: Seq<char>) -> Seq<char> {
    "Status "@ + decimal_digits(status as nat) + ": "@ + body
}

/// The priority that a name stands for, whatever its case.
pub fn map_priority(name: &str) -> (r: Priority)
    ensures
        r == priority_named(lowercase_of(name@)),
{
    let lower = lowercase(name);
    priority_for(lower.as_str())
}

/// The priority that a name in lower case stands for.
pub fn priority_for(lower: &str) -> (r: Priority)
    ensures
        r == priority_named(lower@),
{
    if same(lower, "highest") || same(lower, "blocker") {
        Priority::Highest
    } else if same(lower, "high") || same(lower, "critical") {
        Priority::High
    } else if same(lower, "medium") || same(lower, "major") {
        Priority::Medium
    } else if same(lower, "low") || same(lower, "minor") {
        Priority::Low
    } else if same(lower, "lowest") || same(lower, "trivial") {
        Priority::Lowest
    } else {
        Priority::Medium
    }
}

/// The category that a key of the tracker stands for.
pub fn map_status_category(key: &str) -> (r: StatusCategory)
    ensures
        r == category_keyed(key@),
{
    if same(key, "indeterminate") {
        StatusCategory::InProgress
    } else if same(key, "done") {
        StatusCategory::Done
    } else {
        StatusCategory::Todo
    }
}

/// What the status of an answer to a request for one ticket means: `Ok` for 200,
/// else the error to report.
pub fn check_find_status(status: u16, id: &str, body: &str) -> (r: Result<(), IntegrationError>)
    ensures
        status == 200 ==> r is Ok,
        status == 401 ==> (r matches Err(IntegrationError::Auth(m)) && m@ == "Invalid credentials"@),
        status == 404 ==> (r matches Err(IntegrationError::NotFound(m)) && m@ == "Issue "@ + id@
            + " not found"@),
        status == 429 ==> r matches Err(IntegrationError::RateLimit),
        status != 200 && status != 401 && status != 404 && status != 429 ==> (r matches Err(
            IntegrationError::ApiError(m),
        ) && m@ == status_message(status, body@)),
{
    if status == 200 {
        Ok(())
    } else if status == 401 {
        Err(IntegrationError::Auth(owned("Invalid credentials")))
    } else if status == 404 {
        Err(IntegrationError::NotFound(owned("Issue ").concat(id).concat(" not found")))
    } else if status == 429 {
        Err(IntegrationError::RateLimit)
    } else {
        Err(
            IntegrationError::ApiError(
                owned("Status ").concat(decimal(status as usize).as_str()).concat(": ").concat(
                    body,
                ),
            ),
        )
    }
}

/// A user as the tracker reports one.
#[derive(Debug, Clone)]
pub struct JiraUser {
    pub account_id: String,
    pub display_name: String,
    pub email_address: Option<String>,
    /// The address of the picture of 48 by 48 points.
    pub avatar: Option<String>,
}

/// A ticket as the tracker reports one; instants in milliseconds since the
/// Unix epoch.
#[derive(Debug, Clone)]
pub struct JiraIssue {
    pub id: String,
    pub key: String,
    pub summary: String,
    pub description: Option<String>,
    pub status_name: String,
    pub status_category_key: String,
    pub assignee: Option<JiraUser>,
    pub reporter: Option<JiraUser>,
    pub priority_name: Option<String>,
    pub sprint_name: Option<String>,
    pub labels: Option<Vec<String>>,
    pub updated: Option<i64>,
    pub created: Option<i64>,
}

/// Whether `user` says what the tracker reports of a user.
pub open spec fn is_jira_user(user: Option<User>, reported: Option<JiraUser>) -> bool {
    match reported {
        Some(from) => user matches Some(u) && u.id == from.account_id && u.name
            == from.display_name && u.email == from.email_address && u.avatar_url == from.avatar,
        None => user is None,
    }
}

/// Whether `ticket` says what the tracker reports of a ticket. The category of
/// the status and the priority are mapped, a ticket without labels has none, and
/// an instant that the tracker does not report is taken to be `now`.
pub open spec fn is_jira_ticket(ticket: Ticket, reported: JiraIssue, now: i64) -> bool {
    &&& ticket.id == reported.id
    &&& ticket.key == reported.key
    &&& ticket.summary == reported.summary
    &&& ticket.description == reported.description
    &&& ticket.status.name == reported.status_name
    &&& ticket.status.category == category_keyed(reported.status_category_key@)
    &&& is_jira_user(ticket.assignee, reported.assignee)
    &&& is_jira_user(ticket.reporter, reported.reporter)
    &&& ticket.priority == match reported.priority_name {
        Some(name) => Some(priority_named(lowercase_of(name@))),
        None => None,
    }
    &&& ticket.sprint == reported.sprint_name
    &&& texts(ticket.labels@) == match reported.labels {
        Some(labels) => texts(labels@),
        None => Seq::empty(),
    }
    &&& ticket.updated_at == match reported.updated {
        Some(at) => at,
        None => now,
    }
    &&& ticket.created_at == match reported.created {
        Some(at) => at,
        None => now,
    }
}

fn jira_user(reported: &Option<JiraUser>) -> (user: Option<User>)
    ensures
        is_jira_user(user, *reported),
{
    match reported {
        Some(from) => Some(
            User {
                id: from.account_id.clone(),
                name: from.display_name.clone(),
                email: copied(&from.email_address),
                avatar_url: copied(&from.avatar),
            },
        ),
        None => None,
    }
}

/// The ticket that stands for what the tracker reports.
pub fn map_issue(reported: &JiraIssue, now: i64) -> (ticket: Ticket)
    ensures
        is_jira_ticket(ticket, *reported, now),
{
    let labels = match &reported.labels {
        Some(labels) => copies(labels),
        None => Vec::new(),
    };
    assert(reported.labels is None ==> texts(labels@) =~= Seq::<Seq<char>>::empty());
    Ticket {
        id: reported.id.clone(),
        key: reported.key.clone(),
        summary: reported.summary.clone(),
        description: copied(&reported.description),
        status: TicketStatus {
            name: reported.status_name.clone(),
            category: map_status_category(reported.status_category_key.as_str()),
        },
        assignee: jira_user(&reported.assignee),
        reporter: jira_user(&reported.reporter),
        priority: match &reported.priority_name {
            Some(name) => Some(map_priority(name.as_str())),
            None => None,
        },
        sprint: copied(&reported.sprint_name),
        labels,
        updated_at: match reported.updated {
            Some(at) => at,
            None => now,
        },
        created_at: match reported.created {
            Some(at) => at,
            None => now,
        },
    }
}

/// What the status of an answer to a request that has no "not found" means:
/// `Ok` for 200, else the error to report, with `auth_message` for a refused
/// credential.
pub fn check_status(status: u16, auth_message: &str, body: &str) -> (r: Result<
    (),
    IntegrationError,
>)
    ensures
        status == 200 ==> r is Ok,
        status == 401 ==> (r matches Err(IntegrationError::Auth(m)) && m@ == auth_message@),
        status == 429 ==> r matches Err(IntegrationError::RateLimit),
        status != 200 && status != 401 && status != 429 ==> (r matches Err(
            IntegrationError::ApiError(m),
        ) && m@ == status_message(status, body@)),
{
    if status == 200 {
        Ok(())
    } else if status == 401 {
        Err(IntegrationError::Auth(owned(auth_message)))
    } else if status == 429 {
        Err(IntegrationError::RateLimit)
    } else {
        Err(
            IntegrationError::ApiError(
                owned("Status ").concat(decimal(status as usize).as_str()).concat(": ").concat(
                    body,
                ),
            ),
        )
    }
}

impl JiraConfig {
    /// The settings for a tracker and a user; slashes at the end of the address
    /// are dropped.
    pub fn new(base_url: &str, username: &str) -> (r: Self)
        ensures
            r.base_url@ == without_trailing(base_url@, '/'),
            r.username@ == username@,
            r.token is None,
            r.default_project is None,
    {
        JiraConfig {
            base_url: trim_end_matches(base_url, '/'),
            username: owned(username),
            token: None,
            default_project: None,
        }
    }

    pub fn with_token(self, token: &str) -> (r: Self)
        ensures
            r.token matches Some(t) && t@ == token@,
            r.base_url == self.base_url,
            r.username == self.username,
            r.default_project == self.default_project,
    {
        let mut config = self;
        config.token = Some(owned(token));
        config
    }

    pub fn with_default_project(self, project: &str) -> (r: Self)
        ensures
            r.default_project matches Some(p) && p@ == project@,
            r.base_url == self.base_url,
            r.username == self.username,
            r.token == self.token,
    {
        let mut config = self;
        config.default_project = Some(owned(project));
        config
    }

    /// Refuses settings without a token.
    pub fn require_token(&self) -> (r: Result<(), IntegrationError>)
        ensures
            self.token is Some ==> r is Ok,
            self.token is None ==> (r matches Err(IntegrationError::ConfigError(m)) && m@
                == "Jira token is required"@),
    {
        match &self.token {
            Some(_) => Ok(()),
            None => Err(IntegrationError::ConfigError(owned("Jira token is required"))),
        }
    }

    /// The value of the authorization header: user and token in Base64; an
    /// empty token where none is set.
    pub fn auth_header(&self) -> (r: String)
        ensures
            r@ == basic_authorization(self.username@, text_or_empty(self.token)),
    {
        match &self.token {
            Some(token) => basic_auth_header(self.username.as_str(), token.as_str()),
            None => {
                let empty = String::new();
                basic_auth_header(self.username.as_str(), empty.as_str())
            },
        }
    }

    /// The address at which one ticket is asked for.
    pub fn issue_url(&self, id: &str) -> (r: String)
        ensures
            r@ == self.base_url@ + "/rest/api/3/issue/"@ + id@,
    {
        self.base_url.clone().concat("/rest/api/3/issue/").concat(id)
    }

    /// The address at which tickets are searched.
    pub fn search_url(&self) -> (r: String)
        ensures
            r@ == self.base_url@ + "/rest/api/3/search"@,
    {
        self.base_url.clone().concat("/rest/api/3/search")
    }

    /// The query in the language of the tracker.
    pub fn build_jql(&self, query: &TicketSearchQuery) -> (r: String)
        ensures
            r@ == jql_text(self.default_project, query),
    {
        let mut conditions: Vec<String> = Vec::new();
        match &query.project {
            Some(project) => {
                conditions.push(owned("project = ").concat(project.as_str()));
            },
            None => match &self.default_project {
                Some(project) => {
                    conditions.push(owned("project = ").concat(project.as_str()));
                },
                None => {},
            },
        }
        match &query.text {
            Some(text) => {
                conditions.push(owned("text ~ \"").concat(text.as_str()).concat("\""));
            },
            None => {},
        }
        match &query.assignee {
            Some(assignee) => {
                conditions.push(owned("assignee = \"").concat(assignee.as_str()).concat("\""));
            },
            None => {},
        }
        match &query.status {
            Some(status) => {
                conditions.push(owned("status = \"").concat(status.as_str()).concat("\""));
            },
            None => {},
        }
        assert(texts(conditions@) =~= jql_conditions(self.default_project, query));
        if conditions.len() == 0 {
            owned("ORDER BY updated DESC")
        } else {
            join(&conditions, " AND ").concat(" ORDER BY updated DESC")
        }
    }
}

} // verus!

//! Unified search: the shape of a query, the results, and their ranking. Scores
//! are in thousandths, so that 1000 stands for 1.0; instants are milliseconds
//! since the Unix epoch.

use crate::clock::{now_millis, MAX_CLOCK_MILLIS};
use crate::integrations::traits::{IntegrationError, PullRequest, Ticket, TicketSearchQuery};
use crate::ranking::{
    lemma_highest_rank_comes_first, rank_of, sort_descending, sorted_descending, Ranked,
};
use crate::text::{
    chars_of, contains, is_substring, lowercase, lowercase_of, owned, uppercase, uppercase_of,
};
use vstd::prelude::*;
use vstd::string::*;

verus! {

/// The score of a result found by full-text search.
pub const TEXT_MATCH_SCORE: u64 = 1000;

/// The score of a result found directly by its identifier.
pub const DIRECT_HIT_SCORE: u64 = 2000;

#[derive(Debug, Clone, Copy, PartialEq, Eq, Structural)]
pub enum SearchResultType {
    Ticket,
    PullRequest,
    Incident,
    Document,
}

impl SearchResultType {
    pub open spec fn name(self) -> Seq<char> {
        match self {
            SearchResultType::Ticket => "Ticket"@,
            SearchResultType::PullRequest => "PR"@,
            SearchResultType::Incident => "Incident"@,
            SearchResultType::Document => "Document"@,
        }
    }

    pub open spec fn symbol(self) -> Seq<char> {
        match self {
            SearchResultType::Ticket => "\u{1F3AB}"@,
            SearchResultType::PullRequest => "\u{1F500}"@,
            SearchResultType::Incident => "\u{1F6A8}"@,
            SearchResultType::Document => "\u{1F4C4}"@,
        }
    }

    pub fn as_str(&self) -> (r: &'static str)
        ensures
            r@ == self.name(),
    {
        match self {
            SearchResultType::Ticket => "Ticket",
            SearchResultType::PullRequest => "PR",
            SearchResultType::Incident => "Incident",
            SearchResultType::Document => "Document",
        }
    }

    /// The pictogram shown beside a result of this type.
    pub fn icon(&self) -> (r: &'static str)
        ensures
            r@ == self.symbol(),
    {
        match self {
            SearchResultType::Ticket => "\u{1F3AB}",
            SearchResultType::PullRequest => "\u{1F500}",
            SearchResultType::Incident => "\u{1F6A8}",
            SearchResultType::Document => "\u{1F4C4}",
        }
    }
}

#[derive(Debug, Clone)]
pub struct SearchResultMetadata {
    pub status: Option<String>,
    pub assignee: Option<String>,
    pub priority: Option<String>,
    pub is_stale: Option<bool>,
}

impl Default for SearchResultMetadata {
    fn default() -> (r: Self)
        ensures
            r.status is None,
            r.assignee is None,
            r.priority is None,
            r.is_stale is None,
    {
        SearchResultMetadata { status: None, assignee: None, priority: None, is_stale: None }
    }
}

/// One result of a search.
#[derive(Debug, Clone)]
pub struct SearchResult {
    pub id: String,
    pub result_type: SearchResultType,
    pub title: String,
    pub subtitle: Option<String>,
    pub url: Option<String>,
    /// The relevance in thousandths.
    pub relevance_score: u64,
    pub updated_at: i64,
    pub metadata: SearchResultMetadata,
}

impl Ranked for SearchResult {
    open spec fn rank(&self) -> nat {
        self.relevance_score as nat
    }

    fn rank_value(&self) -> (r: u64) {
        self.relevance_score
    }
}

/// A score multiplied by `numerator / denominator`, rounded down, and capped at
/// the greatest score there is.
pub open spec fn scaled(score: u64, numerator: u64, denominator: u64) -> u64 {
    if score * numerator / (denominator as int) > u64::MAX {
        u64::MAX
    } else {
        (score * numerator / (denominator as int)) as u64
    }
}

/// The score after the boost for recency: times 1.5 for an update within the
/// last hour, times 1.2 within the last day, unchanged within the last week,
/// times 0.8 for anything older.
pub open spec fn recency_boosted(score: u64, updated_at: i64, now: i64) -> u64 {
    let age = now - updated_at;
    if age < 3_600_000 {
        scaled(score, 3, 2)
    } else if age < 86_400_000 {
        scaled(score, 6, 5)
    } else if age < 604_800_000 {
        score
    } else {
        scaled(score, 4, 5)
    }
}

/// The score after the boost for the identifier: doubled where identifier and
/// query are the same text in lower case, times 1.5 where the query occurs in the
/// identifier, else unchanged.
pub open spec fn id_boosted(score: u64, id_lower: Seq<char>, query_lower: Seq<char>) -> u64 {
    if id_lower == query_lower {
        scaled(score, 2, 1)
    } else if is_substring(id_lower, query_lower) {
        scaled(score, 3, 2)
    } else {
        score
    }
}

/// The score of a result after both boosts.
pub open spec fn final_score(
    score: u64,
    updated_at: i64,
    now: i64,
    id_lower: Seq<char>,
    query_lower: Seq<char>,
) -> u64 {
    id_boosted(recency_boosted(score, updated_at, now), id_lower, query_lower)
}

/// A result with its score after both boosts.
pub open spec fn boosted(result: SearchResult, query: Seq<char>, now: i64) -> SearchResult {
    SearchResult {
        relevance_score: final_score(
            result.relevance_score,
            result.updated_at,
            now,
            lowercase_of(result.id@),
            lowercase_of(query),
        ),
        ..result
    }
}

/// The results with their scores after both boosts.
pub open spec fn all_boosted(results: Seq<SearchResult>, query: Seq<char>, now: i64) -> Seq<
    SearchResult,
> {
    Seq::new(results.len(), |i: int| boosted(results[i], query, now))
}

/// The first `limit` of the items, or all of them where there are fewer.
pub open spec fn first_up_to<T>(items: Seq<T>, limit: nat) -> Seq<T> {
    if items.len() <= limit {
        items
    } else {
        items.subrange(0, limit as int)
    }
}

/// The results ranked: boosted, ordered by falling score with ties in their
/// order, and cut to the limit.
pub open spec fn ranked(results: Seq<SearchResult>, query: Seq<char>, limit: nat, now: i64) -> Seq<
    SearchResult,
> {
    first_up_to(sorted_descending(all_boosted(results, query, now)), limit)
}

fn scale(score: u64, numerator: u64, denominator: u64) -> (r: u64)
    requires
        denominator > 0,
        numerator <= 16,
    ensures
        r == scaled(score, numerator, denominator),
{
    assert(score * numerator <= 16 * 0xFFFF_FFFF_FFFF_FFFF) by (nonlinear_arith)
        requires
            score <= 0xFFFF_FFFF_FFFF_FFFF,
            numerator <= 16,
    ;
    let product: u128 = score as u128 * numerator as u128;
    let quotient: u128 = product / denominator as u128;
    if quotient > u64::MAX as u128 {
        u64::MAX
    } else {
        quotient as u64
    }
}

impl SearchResult {
    /// The subtitle of a ticket: its key and the name of its status.
    pub open spec fn ticket_subtitle(ticket: &Ticket) -> Seq<char> {
        ticket.key@ + " \u{2022} "@ + ticket.status.name@
    }

    /// The subtitle of a pull request: its branches and its state.
    pub open spec fn pr_subtitle(pr: &PullRequest) -> Seq<char> {
        pr.source_branch@ + " \u{2192} "@ + pr.target_branch@ + " \u{2022} "@ + pr.state.name()
    }

    /// Whether the result says of a ticket what a result says: identifier, title,
    /// subtitle, instant of the last update, and status, assignee and priority;
    /// with the given score.
    pub open spec fn stands_for_ticket(&self, ticket: &Ticket, score: u64) -> bool {
        &&& self.id == ticket.key
        &&& self.result_type == SearchResultType::Ticket
        &&& self.title == ticket.summary
        &&& self.subtitle matches Some(s) && s@ == Self::ticket_subtitle(ticket)
        &&& self.url is None
        &&& self.relevance_score == score
        &&& self.updated_at == ticket.updated_at
        &&& self.metadata.status == Some(ticket.status.name)
        &&& match ticket.assignee {
            Some(user) => self.metadata.assignee == Some(user.name),
            None => self.metadata.assignee is None,
        }
        &&& match ticket.priority {
            Some(p) => self.metadata.priority matches Some(name) && name@ == p.name(),
            None => self.metadata.priority is None,
        }
        &&& self.metadata.is_stale is None
    }

    /// The result that stands for a ticket found by full-text search.
    pub fn from_ticket(ticket: &Ticket) -> (r: Self)
        ensures
            r.stands_for_ticket(ticket, TEXT_MATCH_SCORE),
    {
        let subtitle = ticket.key.clone().concat(" \u{2022} ").concat(ticket.status.name.as_str());
        SearchResult {
            id: ticket.key.clone(),
            result_type: SearchResultType::Ticket,
            title: ticket.summary.clone(),
            subtitle: Some(subtitle),
            url: None,
            relevance_score: TEXT_MATCH_SCORE,
            updated_at: ticket.updated_at,
            metadata: SearchResultMetadata {
                status: Some(ticket.status.name.clone()),
                assignee: match &ticket.assignee {
                    Some(user) => Some(user.name.clone()),
                    None => None,
                },
                priority: match &ticket.priority {
                    Some(p) => Some(owned(p.as_str())),
                    None => None,
                },
                is_stale: None,
            },
        }
    }

    /// The result that stands for a pull request.
    pub fn from_pr(pr: &PullRequest) -> (r: Self)
        ensures
            r.id == pr.id,
            r.result_type == SearchResultType::PullRequest,
            r.title == pr.title,
            r.subtitle matches Some(s) && s@ == Self::pr_subtitle(pr),
            r.url == Some(pr.url),
            r.relevance_score == TEXT_MATCH_SCORE,
            r.updated_at == pr.updated_at,
            r.metadata.status matches Some(name) && name@ == pr.state.name(),
            r.metadata.assignee is None,
            r.metadata.priority is None,
            r.metadata.is_stale == Some(pr.is_stale),
    {
        let subtitle = pr.source_branch.clone().concat(" \u{2192} ").concat(
            pr.target_branch.as_str(),
        ).concat(" \u{2022} ").concat(pr.state.as_str());
        SearchResult {
            id: pr.id.clone(),
            result_type: SearchResultType::PullRequest,
            title: pr.title.clone(),
            subtitle: Some(subtitle),
            url: Some(pr.url.clone()),
            relevance_score: TEXT_MATCH_SCORE,
            updated_at: pr.updated_at,
            metadata: SearchResultMetadata {
                status: Some(owned(pr.state.as_str())),
                assignee: None,
                priority: None,
                is_stale: Some(pr.is_stale),
            },
        }
    }

    /// Boosts the score by the age of the last update at `now`.
    pub fn boost_for_recency_at(&mut self, now: i64)
        ensures
            *final(self) == (SearchResult {
                relevance_score: recency_boosted(old(self).relevance_score, old(self).updated_at, now),
                ..*old(self)
            }),
    {
        let age: i128 = now as i128 - self.updated_at as i128;
        if age < 3_600_000i128 {
            self.relevance_score = scale(self.relevance_score, 3, 2);
        } else if age < 86_400_000i128 {
            self.relevance_score = scale(self.relevance_score, 6, 5);
        } else if age < 604_800_000i128 {
        } else {
            self.relevance_score = scale(self.relevance_score, 4, 5);
        }
    }

    /// Boosts the score by the age of the last update at the present instant,
    /// whatever the clock says.
    pub fn boost_for_recency(&mut self)
        ensures
            exists|now: i64|
                0 <= now <= MAX_CLOCK_MILLIS && *final(self) == (SearchResult {
                    relevance_score: #[trigger] recency_boosted(
                        old(self).relevance_score,
                        old(self).updated_at,
                        now,
                    ),
                    ..*old(self)
                }),
    {
        let now = now_millis();
        self.boost_for_recency_at(now);
        assert(*final(self) == (SearchResult {
            relevance_score: recency_boosted(old(self).relevance_score, old(self).updated_at, now),
            ..*old(self)
        }));
    }

    /// Boosts the score where the query names the identifier, given both in
    /// lower case.
    pub fn boost_for_lowercase_id_match(&mut self, id_lower: &str, query_lower: &str)
        ensures
            *final(self) == (SearchResult {
                relevance_score: id_boosted(old(self).relevance_score, id_lower@, query_lower@),
                ..*old(self)
            }),
    {
        if crate::text::same(id_lower, query_lower) {
            self.relevance_score = scale(self.relevance_score, 2, 1);
        } else if contains(id_lower, query_lower) {
            self.relevance_score = scale(self.relevance_score, 3, 2);
        }
    }

    /// Boosts the score where the query names the identifier, whatever the case.
    pub fn boost_for_id_match(&mut self, query: &str)
        ensures
            *final(self) == (SearchResult {
                relevance_score: id_boosted(
                    old(self).relevance_score,
                    lowercase_of(old(self).id@),
                    lowercase_of(query@),
                ),
                ..*old(self)
            }),
    {
        let id_lower = lowercase(self.id.as_str());
        let query_lower = lowercase(query);
        self.boost_for_lowercase_id_match(id_lower.as_str(), query_lower.as_str());
    }
}

/// Whether a character is an ASCII capital letter.
pub open spec fn is_capital(c: char) -> bool {
    'A' <= c && c <= 'Z'
}

/// Whether a character is an ASCII digit.
pub open spec fn is_digit(c: char) -> bool {
    '0' <= c && c <= '9'
}

/// Whether a text has the shape of a ticket identifier: capital letters, a
/// hyphen, digits, with at least one letter and one digit.
pub open spec fn ticket_shape(s: Seq<char>) -> bool {
    exists|dash: int|
        0 < dash < s.len() - 1 && #[trigger] s[dash] == '-' && (forall|i: int|
            0 <= i < dash ==> is_capital(#[trigger] s[i])) && (forall|i: int|
            dash < i < s.len() ==> is_digit(#[trigger] s[i]))
}

/// The number that a text of digits denotes.
pub open spec fn digits_value(s: Seq<char>) -> nat
    decreases s.len(),
{
    if s.len() == 0 {
        0
    } else {
        digits_value(s.drop_last()) * 10 + (s.last() as nat - '0' as nat) as nat
    }
}

/// Whether a text consists of digits, at least one, that denote a number of 32
/// bits without sign.
pub open spec fn digits_in_range(digits: Seq<char>) -> bool {
    &&& digits.len() > 0
    &&& forall|i: int| 0 <= i < digits.len() ==> is_digit(#[trigger] digits[i])
    &&& digits_value(digits) <= u32::MAX
}

/// Whether a text is read as a number of 32 bits without sign: an optional plus
/// sign, then digits, at least one, that denote a number within the range.
pub open spec fn reads_as_u32(s: Seq<char>) -> bool {
    if s.len() > 0 && s[0] == '+' {
        digits_in_range(s.drop_first())
    } else {
        digits_in_range(s)
    }
}

/// Whether a text is a number sign followed by a number of 32 bits.
pub open spec fn pr_number_shape(s: Seq<char>) -> bool {
    s.len() > 0 && s[0] == '#' && reads_as_u32(s.drop_first())
}

proof fn lemma_digits_value_grows(s: Seq<char>, k: int)
    requires
        0 <= k <= s.len(),
        forall|i: int| 0 <= i < s.len() ==> is_digit(#[trigger] s[i]),
    ensures
        digits_value(s.subrange(0, k)) <= digits_value(s),
    decreases s.len() - k,
{
    if k == s.len() {
        assert(s.subrange(0, k) =~= s);
    } else {
        lemma_digits_value_grows(s, k + 1);
        assert(s.subrange(0, k + 1).drop_last() =~= s.subrange(0, k));
        assert(is_digit(s.subrange(0, k + 1).last())) by {
            assert(s.subrange(0, k + 1).last() == s[k]);
        }
    }
}

/// Whether a text has the shape of a ticket identifier.
pub fn has_ticket_shape(s: &str) -> (r: bool)
    ensures
        r == ticket_shape(s@),
{
    let v = chars_of(s);
    let mut dash: usize = 0;
    while dash < v.len() && 'A' <= v[dash] && v[dash] <= 'Z'
        invariant
            dash <= v.len(),
            forall|i: int| 0 <= i < dash ==> is_capital(#[trigger] v@[i]),
        decreases v.len() - dash,
    {
        dash = dash + 1;
    }
    if dash == 0 || dash >= v.len() || v[dash] != '-' {
        proof {
            assert forall|d: int| 0 < d < v@.len() - 1 && #[trigger] v@[d] == '-' && (forall|i: int|
                0 <= i < d ==> is_capital(#[trigger] v@[i])) implies false by {
                if d < dash {
                    assert(is_capital(v@[d]));
                } else if d > dash {
                    assert(is_capital(v@[dash as int]));
                }
            }
        }
        return false;
    }
    let mut i: usize = dash + 1;
    while i < v.len()
        invariant
            v@ == s@,
            dash < i <= v.len(),
            dash < v.len(),
            0 < dash,
            v@[dash as int] == '-',
            forall|k: int| 0 <= k < dash ==> is_capital(#[trigger] v@[k]),
            forall|k: int| dash < k < i ==> is_digit(#[trigger] v@[k]),
        decreases v.len() - i,
    {
        if !('0' <= v[i] && v[i] <= '9') {
            proof {
                assert forall|d: int|
                    0 < d < v@.len() - 1 && #[trigger] v@[d] == '-' && (forall|k: int|
                        0 <= k < d ==> is_capital(#[trigger] v@[k])) && (forall|k: int|
                        d < k < v@.len() ==> is_digit(#[trigger] v@[k])) implies false by {
                    if d < dash {
                        assert(is_capital(v@[d]));
                    } else if d > dash {
                        assert(is_capital(v@[dash as int]));
                    } else {
                        assert(is_digit(v@[i as int]));
                    }
                }
            }
            return false;
        }
        i = i + 1;
    }
    if dash + 1 >= v.len() {
        return false;
    }
    assert(v@[dash as int] == '-');
    true
}

/// Whether a text is a number sign followed by a number of 32 bits.
pub fn has_pr_number_shape(s: &str) -> (r: bool)
    ensures
        r == pr_number_shape(s@),
{
    let v = chars_of(s);
    if v.len() == 0 || v[0] != '#' {
        return false;
    }
    let start: usize = if v.len() > 1 && v[1] == '+' {
        2
    } else {
        1
    };
    let ghost rest = v@.drop_first();
    let ghost digits = if rest.len() > 0 && rest[0] == '+' {
        rest.drop_first()
    } else {
        rest
    };
    assert(digits =~= v@.subrange(start as int, v@.len() as int));
    if start >= v.len() {
        return false;
    }
    let mut value: u64 = 0;
    let mut i: usize = start;
    assert(digits.subrange(0, 0) =~= Seq::<char>::empty());
    assert(pr_number_shape(s@) == digits_in_range(digits));
    while i < v.len()
        invariant
            pr_number_shape(s@) == digits_in_range(digits),
            start <= i <= v.len(),
            digits == v@.subrange(start as int, v@.len() as int),
            forall|k: int| 0 <= k < i - start ==> is_digit(#[trigger] digits[k]),
            value == digits_value(digits.subrange(0, i - start)),
            value <= u32::MAX,
        decreases v.len() - i,
    {
        let c = v[i];
        assert(digits[i - start] == c);
        if !('0' <= c && c <= '9') {
            return false;
        }
        assert(digits.subrange(0, i - start + 1).drop_last() =~= digits.subrange(0, i - start));
        assert(digits.subrange(0, i - start + 1).last() == c);
        let d: u64 = (c as u64) - ('0' as u64);
        let next: u64 = value * 10 + d;
        if next > u32::MAX as u64 {
            proof {
                if forall|k: int| 0 <= k < digits.len() ==> is_digit(#[trigger] digits[k]) {
                    lemma_digits_value_grows(digits, i - start + 1);
                }
            }
            return false;
        }
        value = next;
        i = i + 1;
    }
    assert(digits.subrange(0, digits.len() as int) =~= digits);
    true
}

/// What is searched for.
#[derive(Debug, Clone)]
pub struct SearchQuery {
    pub text: String,
    pub types: Vec<SearchResultType>,
    pub limit: usize,
    pub include_closed: bool,
}

impl Default for SearchQuery {
    fn default() -> (r: Self)
        ensures
            r.text@.len() == 0,
            r.types@.len() == 0,
            r.limit == 0,
            !r.include_closed,
    {
        SearchQuery { text: String::new(), types: Vec::new(), limit: 0, include_closed: false }
    }
}

impl SearchQuery {
    /// A query for tickets and pull requests, at most ten, open ones only.
    pub fn new(text: &str) -> (r: Self)
        ensures
            r.text@ == text@,
            r.types@ == seq![SearchResultType::Ticket, SearchResultType::PullRequest],
            r.limit == 10,
            !r.include_closed,
    {
        let mut types: Vec<SearchResultType> = Vec::new();
        types.push(SearchResultType::Ticket);
        types.push(SearchResultType::PullRequest);
        assert(types@ =~= seq![SearchResultType::Ticket, SearchResultType::PullRequest]);
        SearchQuery { text: owned(text), types, limit: 10, include_closed: false }
    }

    pub fn with_types(self, types: Vec<SearchResultType>) -> (r: Self)
        ensures
            r.types == types,
            r.text == self.text,
            r.limit == self.limit,
            r.include_closed == self.include_closed,
    {
        let mut query = self;
        query.types = types;
        query
    }

    pub fn with_limit(self, limit: usize) -> (r: Self)
        ensures
            r.limit == limit,
            r.text == self.text,
            r.types == self.types,
            r.include_closed == self.include_closed,
    {
        let mut query = self;
        query.limit = limit;
        query
    }

    pub fn include_closed(self) -> (r: Self)
        ensures
            r.include_closed,
            r.text == self.text,
            r.types == self.types,
            r.limit == self.limit,
    {
        let mut query = self;
        query.include_closed = true;
        query
    }

    /// Whether the text, in upper case, has the shape of a ticket identifier
    /// such as `PROJ-123`.
    pub fn is_ticket_id(&self) -> (r: bool)
        ensures
            r == ticket_shape(uppercase_of(self.text@)),
    {
        let upper = uppercase(self.text.as_str());
        has_ticket_shape(upper.as_str())
    }

    /// Whether the text has the shape of a pull request number such as `#123`.
    pub fn is_pr_number(&self) -> (r: bool)
        ensures
            r == pr_number_shape(self.text@),
    {
        has_pr_number_shape(self.text.as_str())
    }

    /// Whether results of the type are asked for.
    pub fn wants(&self, wanted: SearchResultType) -> (r: bool)
        ensures
            r == self.types@.contains(wanted),
    {
        let mut i: usize = 0;
        while i < self.types.len()
            invariant
                i <= self.types.len(),
                forall|k: int| 0 <= k < i ==> self.types@[k] != wanted,
            decreases self.types.len() - i,
        {
            if self.types[i] == wanted {
                return true;
            }
            i = i + 1;
        }
        false
    }
}

/// How the search for tickets begins.
#[derive(Debug)]
pub enum SearchPlan {
    /// Tickets are not asked for.
    Skip,
    /// The tracker is asked for the ticket with this identifier.
    Lookup(String),
    /// The tracker is asked to search with this query.
    TextSearch(TicketSearchQuery),
}

/// How the search goes on after the tracker has answered a direct lookup.
#[derive(Debug)]
pub enum LookupOutcome {
    /// The ticket was found; it is the only result.
    Found(Vec<SearchResult>),
    /// There is no such ticket; the tracker is asked to search with this query.
    FallBack(TicketSearchQuery),
    /// The lookup failed, and so does the search.
    Failed(IntegrationError),
}

/// Whether `found` is the query sent to the tracker for a full-text search.
pub open spec fn is_text_query(found: TicketSearchQuery, query: &SearchQuery) -> bool {
    &&& found.text matches Some(t) && t@ == query.text@
    &&& found.project is None
    &&& found.assignee is None
    &&& found.status is None
    &&& found.limit == query.limit
}

/// Whether `found` is the single result of a direct lookup.
pub open spec fn is_direct_hit(found: Seq<SearchResult>, ticket: &Ticket) -> bool {
    found.len() == 1 && found[0].stands_for_ticket(ticket, DIRECT_HIT_SCORE)
}

/// The search service: for how long results stay fresh.
pub struct SearchService {
    cache_ttl: i64,
}

impl SearchService {
    /// For how long results stay fresh, in milliseconds.
    pub closed spec fn ttl(&self) -> i64 {
        self.cache_ttl
    }

    /// A service whose results stay fresh for five minutes.
    pub fn new() -> (r: Self)
        ensures
            r.ttl() == 300_000,
    {
        SearchService { cache_ttl: 300_000 }
    }

    /// For how long results stay fresh, in milliseconds.
    pub fn cache_ttl(&self) -> (r: i64)
        ensures
            r == self.ttl(),
    {
        self.cache_ttl
    }

    /// The key under which the results of a query are cached: the literal text of
    /// the query behind a fixed prefix.
    pub fn cache_key(&self, query: &SearchQuery) -> (r: String)
        ensures
            r@ == "search:"@ + query.text@,
    {
        owned("search:").concat(query.text.as_str())
    }

    /// The query sent to the tracker for a full-text search.
    pub fn text_query(&self, query: &SearchQuery) -> (r: TicketSearchQuery)
        ensures
            is_text_query(r, query),
    {
        TicketSearchQuery::new().with_text(query.text.as_str()).with_limit(query.limit)
    }

    /// How the search for tickets begins: not at all where tickets are not asked
    /// for, with a direct lookup where the text has the shape of an identifier,
    /// else with a full-text search.
    pub fn plan(&self, query: &SearchQuery) -> (r: SearchPlan)
        ensures
            match r {
                SearchPlan::Skip => !query.types@.contains(SearchResultType::Ticket),
                SearchPlan::Lookup(id) => query.types@.contains(SearchResultType::Ticket)
                    && ticket_shape(uppercase_of(query.text@)) && id@ == uppercase_of(query.text@),
                SearchPlan::TextSearch(found) => query.types@.contains(SearchResultType::Ticket)
                    && !ticket_shape(uppercase_of(query.text@)) && is_text_query(found, query),
            },
    {
        if !query.wants(SearchResultType::Ticket) {
            SearchPlan::Skip
        } else if query.is_ticket_id() {
            SearchPlan::Lookup(uppercase(query.text.as_str()))
        } else {
            SearchPlan::TextSearch(self.text_query(query))
        }
    }

    /// How the search goes on after a direct lookup: a ticket that was found is
    /// the only result, with the score of a direct hit; a ticket that is not
    /// there leads to a full-text search; any other failure ends the search.
    pub fn after_lookup(&self, answer: Result<Ticket, IntegrationError>, query: &SearchQuery) -> (r:
        LookupOutcome)
        ensures
            match answer {
                Ok(ticket) => r matches LookupOutcome::Found(found) && is_direct_hit(
                    found@,
                    &ticket,
                ),
                Err(IntegrationError::NotFound(_)) => r matches LookupOutcome::FallBack(found)
                    && is_text_query(found, query),
                Err(e) => r matches LookupOutcome::Failed(f) && f == e,
            },
    {
        match answer {
            Ok(ticket) => {
                let mut result = SearchResult::from_ticket(&ticket);
                result.relevance_score = DIRECT_HIT_SCORE;
                let mut found: Vec<SearchResult> = Vec::new();
                found.push(result);
                LookupOutcome::Found(found)
            },
            Err(IntegrationError::NotFound(_)) => LookupOutcome::FallBack(self.text_query(query)),
            Err(e) => LookupOutcome::Failed(e),
        }
    }

    /// The results that stand for the tickets of a full-text search, in their order.
    pub fn from_tickets(&self, tickets: &Vec<Ticket>) -> (r: Vec<SearchResult>)
        ensures
            r@.len() == tickets@.len(),
            forall|i: int|
                0 <= i < r@.len() ==> (#[trigger] r@[i]).stands_for_ticket(
                    &tickets@[i],
                    TEXT_MATCH_SCORE,
                ),
    {
        let mut out: Vec<SearchResult> = Vec::new();
        let mut i: usize = 0;
        while i < tickets.len()
            invariant
                i <= tickets.len(),
                out@.len() == i,
                forall|k: int|
                    0 <= k < i ==> (#[trigger] out@[k]).stands_for_ticket(
                        &tickets@[k],
                        TEXT_MATCH_SCORE,
                    ),
            decreases tickets.len() - i,
        {
            out.push(SearchResult::from_ticket(&tickets[i]));
            i = i + 1;
        }
        out
    }

    /// Ranks the results of a query at `now`: every score is boosted for recency
    /// and for the identifier, the results are ordered by falling score, results
    /// of equal score staying in their order, and the list is cut to the limit
    /// of the query.
    pub fn rank_at(&self, results: Vec<SearchResult>, query: &SearchQuery, now: i64) -> (r: Vec<
        SearchResult,
    >)
        ensures
            r@ == ranked(results@, query.text@, query.limit as nat, now),
    {
        let ghost all = results@;
        let query_lower = lowercase(query.text.as_str());
        let mut boosted_results: Vec<SearchResult> = Vec::new();
        for result in it: results
            invariant
                it.seq() == all,
                query_lower@ == lowercase_of(query.text@),
                boosted_results@ == all_boosted(all, query.text@, now).subrange(
                    0,
                    it.index() as int,
                ),
        {
            let mut item = result;
            item.boost_for_recency_at(now);
            let id_lower = lowercase(item.id.as_str());
            item.boost_for_lowercase_id_match(id_lower.as_str(), query_lower.as_str());
            boosted_results.push(item);
            assert(boosted_results@ =~= all_boosted(all, query.text@, now).subrange(
                0,
                it.index() + 1,
            ));
        }
        assert(boosted_results@ =~= all_boosted(all, query.text@, now));
        let mut sorted = sort_descending(boosted_results);
        if sorted.len() > query.limit {
            sorted.truncate(query.limit);
        }
        sorted
    }

    /// Ranks the results of a query at the present instant, whatever the clock says.
    pub fn rank(&self, results: Vec<SearchResult>, query: &SearchQuery) -> (r: Vec<SearchResult>)
        ensures
            exists|now: i64|
                0 <= now <= MAX_CLOCK_MILLIS && r@ == #[trigger] ranked(
                    results@,
                    query.text@,
                    query.limit as nat,
                    now,
                ),
    {
        let now = now_millis();
        let r = self.rank_at(results, query, now);
        assert(r@ == ranked(results@, query.text@, query.limit as nat, now));
        r
    }

    /// Suggestions for a prefix. There are none: searches are not recorded.
    pub fn get_suggestions(&self, _prefix: &str) -> (r: Vec<String>)
        ensures
            r@.len() == 0,
    {
        Vec::new()
    }
}

/// A direct hit whose identifier is the query outranks a text match of the same
/// recency, whatever the identifier of the text match.
pub proof fn lemma_direct_hit_outranks_text_match(
    updated_at: i64,
    now: i64,
    query_lower: Seq<char>,
    other_id_lower: Seq<char>,
)
    ensures
        final_score(DIRECT_HIT_SCORE, updated_at, now, query_lower, query_lower) > final_score(
            TEXT_MATCH_SCORE,
            updated_at,
            now,
            other_id_lower,
            query_lower,
        ),
{
}

/// Where one result outranks all others after boosting, it comes first in the
/// ranked list, as long as the limit admits any result.
pub proof fn lemma_best_result_first(
    results: Seq<SearchResult>,
    query: Seq<char>,
    limit: nat,
    now: i64,
    best: int,
)
    requires
        0 <= best < results.len(),
        limit > 0,
        forall|k: int|
            0 <= k < results.len() && k != best ==> (#[trigger] boosted(
                results[k],
                query,
                now,
            )).relevance_score < boosted(results[best], query, now).relevance_score,
    ensures
        ranked(results, query, limit, now).len() > 0,
        ranked(results, query, limit, now)[0] == boosted(results[best], query, now),
{
    let all = all_boosted(results, query, now);
    assert forall|k: int| 0 <= k < all.len() && k != best implies rank_of::<SearchResult>()(
        #[trigger] all[k],
    ) < rank_of::<SearchResult>()(all[best]) by {
        assert(all[k] == boosted(results[k], query, now));
    }
    lemma_highest_rank_comes_first(all, rank_of::<SearchResult>(), best);
}

} // verus!

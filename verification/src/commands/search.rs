//! Search requests from the user interface.

use crate::services::search_service::SearchResultType;
use crate::text::{lowercase, lowercase_of, owned, same, trim, trimmed};
use vstd::prelude::*;
use vstd::string::*;

verus! {

/// An error reported to the user interface, with a code that it understands.
#[derive(Debug)]
pub struct CommandError {
    pub code: String,
    pub message: String,
}

impl CommandError {
    pub fn new(code: &str, message: &str) -> (r: Self)
        ensures
            r.code@ == code@,
            r.message@ == message@,
    {
        CommandError { code: owned(code), message: owned(message) }
    }

    pub fn internal(message: &str) -> (r: Self)
        ensures
            r.code@ == "INTERNAL_ERROR"@,
            r.message@ == message@,
    {
        Self::new("INTERNAL_ERROR", message)
    }

    pub fn not_found(message: &str) -> (r: Self)
        ensures
            r.code@ == "NOT_FOUND"@,
            r.message@ == message@,
    {
        Self::new("NOT_FOUND", message)
    }

    pub fn validation(message: &str) -> (r: Self)
        ensures
            r.code@ == "VALIDATION_ERROR"@,
            r.message@ == message@,
    {
        Self::new("VALIDATION_ERROR", message)
    }

    pub fn auth(message: &str) -> (r: Self)
        ensures
            r.code@ == "AUTH_ERROR"@,
            r.message@ == message@,
    {
        Self::new("AUTH_ERROR", message)
    }
}

/// Whether the error is a refusal of the input with this message.
pub open spec fn is_refusal(r: Result<(), CommandError>, message: Seq<char>) -> bool {
    r matches Err(e) && e.code@ == "VALIDATION_ERROR"@ && e.message@ == message
}

/// The number of results asked for where the request names none.
pub fn default_limit() -> (r: usize)
    ensures
        r == 10,
{
    10
}

/// A search request.
#[derive(Debug, Clone)]
pub struct SearchQueryParams {
    pub query: String,
    pub types: Vec<String>,
    pub limit: usize,
    pub include_closed: bool,
}

/// The metadata of a result, as sent to the user interface.
#[derive(Debug, Clone)]
pub struct SearchMetadataDto {
    pub status: Option<String>,
    pub assignee: Option<String>,
    pub priority: Option<String>,
    pub is_stale: Option<bool>,
}

/// The type of result that a name in lower case stands for.
pub open spec fn result_type_named(lower: Seq<char>) -> Option<SearchResultType> {
    if lower == "ticket"@ || lower == "jira"@ {
        Some(SearchResultType::Ticket)
    } else if lower == "pr"@ || lower == "pullrequest"@ || lower == "pull_request"@ {
        Some(SearchResultType::PullRequest)
    } else if lower == "incident"@ {
        Some(SearchResultType::Incident)
    } else if lower == "document"@ || lower == "doc"@ {
        Some(SearchResultType::Document)
    } else {
        None
    }
}

/// The types that the names stand for, in their order; names that stand for no
/// type are passed over.
pub open spec fn named_types(names: Seq<Seq<char>>) -> Seq<SearchResultType>
    decreases names.len(),
{
    if names.len() == 0 {
        Seq::empty()
    } else {
        match result_type_named(lowercase_of(names.last())) {
            Some(t) => named_types(names.drop_last()).push(t),
            None => named_types(names.drop_last()),
        }
    }
}

/// The type of result that a name in lower case stands for.
pub fn result_type_for(lower: &str) -> (r: Option<SearchResultType>)
    ensures
        r == result_type_named(lower@),
{
    if same(lower, "ticket") || same(lower, "jira") {
        Some(SearchResultType::Ticket)
    } else if same(lower, "pr") || same(lower, "pullrequest") || same(lower, "pull_request") {
        Some(SearchResultType::PullRequest)
    } else if same(lower, "incident") {
        Some(SearchResultType::Incident)
    } else if same(lower, "document") || same(lower, "doc") {
        Some(SearchResultType::Document)
    } else {
        None
    }
}

impl SearchQueryParams {
    /// The types of result asked for: tickets and pull requests where the
    /// request names none, else what its names stand for, whatever their case.
    pub fn parse_types(&self) -> (r: Vec<SearchResultType>)
        ensures
            r@ == if self.types@.len() == 0 {
                seq![SearchResultType::Ticket, SearchResultType::PullRequest]
            } else {
                named_types(crate::text::texts(self.types@))
            },
    {
        let mut out: Vec<SearchResultType> = Vec::new();
        if self.types.len() == 0 {
            out.push(SearchResultType::Ticket);
            out.push(SearchResultType::PullRequest);
            assert(out@ =~= seq![SearchResultType::Ticket, SearchResultType::PullRequest]);
            return out;
        }
        let ghost names = crate::text::texts(self.types@);
        let mut i: usize = 0;
        assert(names.subrange(0, 0) =~= Seq::<Seq<char>>::empty());
        while i < self.types.len()
            invariant
                i <= self.types.len(),
                names == crate::text::texts(self.types@),
                out@ == named_types(names.subrange(0, i as int)),
            decreases self.types.len() - i,
        {
            assert(names.subrange(0, i + 1).drop_last() =~= names.subrange(0, i as int));
            assert(names.subrange(0, i + 1).last() == self.types@[i as int]@);
            let lower = lowercase(self.types[i].as_str());
            match result_type_for(lower.as_str()) {
                Some(t) => {
                    out.push(t);
                },
                None => {},
            }
            i = i + 1;
        }
        assert(names.subrange(0, names.len() as int) =~= names);
        out
    }

    /// Refuses a request whose text is empty or white space only.
    pub fn validate(&self) -> (r: Result<(), CommandError>)
        ensures
            trimmed(self.query@).len() > 0 ==> r is Ok,
            trimmed(self.query@).len() == 0 ==> is_refusal(r, "Search query cannot be empty"@),
    {
        let text = trim(self.query.as_str());
        if text.as_str().unicode_len() == 0 {
            Err(CommandError::validation("Search query cannot be empty"))
        } else {
            Ok(())
        }
    }
}

} // verus!

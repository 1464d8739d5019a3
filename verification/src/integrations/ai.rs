//! The client of the analysis service, as far as it computes: its settings, the
//! removal of addresses from what is sent, and the framing of what comes back.

use crate::integrations::traits::IntegrationError;
use crate::text::{chars_of, find, first_occurrence, owned, slice_of, trim, trimmed};
use vstd::prelude::*;
use vstd::string::*;

verus! {

/// What `Regex::replace_all` makes of a text for a pattern and a replacement;
/// `None` where `Regex::new` refuses the pattern.
pub uninterp spec fn regex_replaced(pattern: Seq<char>, text: Seq<char>, replacement: Seq<char>) -> Option<
    Seq<char>,
>;

/// Compiles a pattern with `regex::Regex::new` and replaces every match in a text
/// with `Regex::replace_all`. Trusted: the result is named `regex_replaced`; it
/// depends on the three texts alone.
#[verifier::external_body]
pub(crate) fn regex_replace_all(pattern: &str, text: &str, replacement: &str) -> (r: Option<String>)
    ensures
        match regex_replaced(pattern@, text@, replacement@) {
            Some(replaced) => r matches Some(s) && s@ == replaced,
            None => r is None,
        },
{
    match regex::Regex::new(pattern) {
        Ok(compiled) => Some(compiled.replace_all(text, replacement).into_owned()),
        Err(_) => None,
    }
}

/// The pattern of an e-mail address.
pub open spec fn email_pattern() -> Seq<char> {
    "\\b[A-Za-z0-9._%+-]+@[A-Za-z0-9.-]+\\.[A-Z|a-z]{2,}\\b"@
}

/// The pattern of an address of the internet protocol, version 4.
pub open spec fn ip_pattern() -> Seq<char> {
    "\\b\\d{1,3}\\.\\d{1,3}\\.\\d{1,3}\\.\\d{1,3}\\b"@
}

/// A text with the matches of a pattern replaced; the text itself where the
/// pattern is refused.
pub open spec fn masked(pattern: Seq<char>, text: Seq<char>, replacement: Seq<char>) -> Seq<char> {
    match regex_replaced(pattern, text, replacement) {
        Some(replaced) => replaced,
        None => text,
    }
}

/// A text with e-mail addresses replaced first and addresses of the internet
/// protocol second.
pub open spec fn anonymized(content: Seq<char>) -> Seq<char> {
    masked(ip_pattern(), masked(email_pattern(), content, "[EMAIL]"@), "[IP_ADDRESS]"@)
}

fn mask(pattern: &str, text: String, replacement: &str) -> (r: String)
    ensures
        r@ == masked(pattern@, text@, replacement@),
{
    match regex_replace_all(pattern, text.as_str(), replacement) {
        Some(replaced) => replaced,
        None => text,
    }
}

/// Replaces the e-mail addresses and the addresses of the internet protocol in
/// a text by placeholders.
pub fn anonymize_content(content: &str) -> (r: String)
    ensures
        r@ == anonymized(content@),
{
    let without_email = mask(
        "\\b[A-Za-z0-9._%+-]+@[A-Za-z0-9.-]+\\.[A-Z|a-z]{2,}\\b",
        owned(content),
        "[EMAIL]",
    );
    mask("\\b\\d{1,3}\\.\\d{1,3}\\.\\d{1,3}\\.\\d{1,3}\\b", without_email, "[IP_ADDRESS]")
}

/// The settings of the client.
#[derive(Debug, Clone)]
pub struct GeminiConfig {
    pub model: String,
    pub api_key: Option<String>,
    pub daily_token_limit: Option<u32>,
}

impl Default for GeminiConfig {
    fn default() -> (r: Self)
        ensures
            r.model@ == "gemini-pro"@,
            r.api_key is None,
            r.daily_token_limit is None,
    {
        GeminiConfig { model: owned("gemini-pro"), api_key: None, daily_token_limit: None }
    }
}

impl GeminiConfig {
    pub fn new(model: &str) -> (r: Self)
        ensures
            r.model@ == model@,
            r.api_key is None,
            r.daily_token_limit is None,
    {
        GeminiConfig { model: owned(model), api_key: None, daily_token_limit: None }
    }

    pub fn with_api_key(self, key: &str) -> (r: Self)
        ensures
            r.api_key matches Some(k) && k@ == key@,
            r.model == self.model,
            r.daily_token_limit == self.daily_token_limit,
    {
        let mut config = self;
        config.api_key = Some(owned(key));
        config
    }

    /// Refuses settings without a key.
    pub fn require_api_key(&self) -> (r: Result<(), IntegrationError>)
        ensures
            self.api_key is Some ==> r is Ok,
            self.api_key is None ==> (r matches Err(IntegrationError::ConfigError(m)) && m@
                == "Gemini API key is required"@),
    {
        match &self.api_key {
            Some(_) => Ok(()),
            None => Err(IntegrationError::ConfigError(owned("Gemini API key is required"))),
        }
    }

    /// The address at which content is generated.
    pub fn generate_url(&self) -> (r: String)
        ensures
            r@ == "https://generativelanguage.googleapis.com/v1beta/models/"@ + self.model@
                + ":generateContent"@,
    {
        owned("https://generativelanguage.googleapis.com/v1beta/models/").concat(
            self.model.as_str(),
        ).concat(":generateContent")
    }
}

/// The words before the content in the request for an analysis.
pub open spec fn prompt_head() -> Seq<char> {
    "You are a technical requirements analyst. Analyze the following PRD/spec for clarity and completeness.\n\nSPEC CONTENT:\n"@
}

/// The words behind the content in the request for an analysis.
pub open spec fn prompt_tail() -> Seq<char> {
    "\n\nAnalyze and respond with a JSON object containing:\n1. \"clarity_score\": number 0-100 (how clear and unambiguous the spec is)\n2. \"justification\": string (brief explanation of the score)\n3. \"ambiguous_phrases\": array of objects with \"text\", \"explanation\", \"suggested_replacement\"\n4. \"missing_scenarios\": array of objects with \"scenario\", \"impact\"\n5. \"risks\": array of objects with \"risk\", \"mitigation\"\n\nFocus on:\n- Ambiguous terms like \"fast\", \"user-friendly\", \"robust\", \"simple\", \"easy\"\n- Missing edge cases and error scenarios\n- Non-testable requirements\n- Security and performance considerations\n\nRespond ONLY with valid JSON, no markdown formatting."@
}

/// The request for an analysis of a content: the content between fixed words.
pub fn build_analysis_prompt(content: &str) -> (r: String)
    ensures
        r@ == prompt_head() + content@ + prompt_tail(),
{
    owned(
        "You are a technical requirements analyst. Analyze the following PRD/spec for clarity and completeness.\n\nSPEC CONTENT:\n",
    ).concat(content).concat(
        "\n\nAnalyze and respond with a JSON object containing:\n1. \"clarity_score\": number 0-100 (how clear and unambiguous the spec is)\n2. \"justification\": string (brief explanation of the score)\n3. \"ambiguous_phrases\": array of objects with \"text\", \"explanation\", \"suggested_replacement\"\n4. \"missing_scenarios\": array of objects with \"scenario\", \"impact\"\n5. \"risks\": array of objects with \"risk\", \"mitigation\"\n\nFocus on:\n- Ambiguous terms like \"fast\", \"user-friendly\", \"robust\", \"simple\", \"easy\"\n- Missing edge cases and error scenarios\n- Non-testable requirements\n- Security and performance considerations\n\nRespond ONLY with valid JSON, no markdown formatting.",
    )
}

/// A phrase of a specification that can be read in more than one way.
#[derive(Debug, Clone)]
pub struct AmbiguousPhrase {
    pub text: String,
    pub explanation: String,
    pub suggested_replacement: String,
}

/// A case that a specification does not cover.
#[derive(Debug, Clone)]
pub struct MissingScenario {
    pub scenario: String,
    pub impact: String,
}

#[derive(Debug, Clone)]
pub struct Risk {
    pub risk: String,
    pub mitigation: String,
}

/// The analysis of a specification.
#[derive(Debug, Clone)]
pub struct SpecAnalysis {
    /// From 0 to 100.
    pub clarity_score: u8,
    pub justification: String,
    pub ambiguous_phrases: Vec<AmbiguousPhrase>,
    pub missing_scenarios: Vec<MissingScenario>,
    pub risks: Vec<Risk>,
}

/// The part of `text` behind the first `open`, up to the next `fence` or to the
/// end; none where `open` does not occur.
pub open spec fn fenced(text: Seq<char>, open: Seq<char>, fence: Seq<char>) -> Option<Seq<char>> {
    let at = first_occurrence(text, open);
    if at < 0 {
        None
    } else {
        let rest = text.subrange(at + open.len(), text.len() as int);
        let end = first_occurrence(rest, fence);
        Some(
            if end < 0 {
                rest
            } else {
                rest.subrange(0, end)
            },
        )
    }
}

/// The JSON text in an answer: what stands in the first fence that is marked as
/// JSON, or else in the first fence, or else the whole answer; without white
/// space around it.
pub open spec fn json_part(response: Seq<char>) -> Seq<char> {
    let body = match fenced(response, "```json"@, "```"@) {
        Some(inner) => inner,
        None => match fenced(response, "```"@, "```"@) {
            Some(inner) => inner,
            None => response,
        },
    };
    trimmed(body)
}

fn fenced_part(text: &Vec<char>, open: &str, fence: &str) -> (r: Option<String>)
    ensures
        match fenced(text@, open@, fence@) {
            Some(inner) => r matches Some(s) && s@ == inner,
            None => r is None,
        },
{
    let opening = chars_of(open);
    let closing = chars_of(fence);
    match find(text, &opening) {
        None => None,
        Some(at) => {
            let total = text.len();
            let skip = opening.len();
            assert(at + skip <= total);
            let rest_text = slice_of(text, at + skip, total);
            let rest = chars_of(rest_text.as_str());
            match find(&rest, &closing) {
                Some(end) => Some(slice_of(&rest, 0, end)),
                None => Some(rest_text),
            }
        },
    }
}

/// The JSON text in an answer of the service.
pub fn extract_json(response: &str) -> (r: String)
    ensures
        r@ == json_part(response@),
{
    let text = chars_of(response);
    let body = match fenced_part(&text, "```json", "```") {
        Some(inner) => inner,
        None => match fenced_part(&text, "```", "```") {
            Some(inner) => inner,
            None => owned(response),
        },
    };
    trim(body.as_str())
}

} // verus!

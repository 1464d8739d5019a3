//! The credentials of the trackers, kept in memory, one secret per kind of
//! credential. The keychain of the operating system is storage outside this
//! library; what it answers is classified here.

use crate::text::owned;
use vstd::prelude::*;
use vstd::string::*;

verus! {

/// The name under which the credentials are filed in a keychain.
pub fn service_name() -> (r: &'static str)
    ensures
        r@ == "com.em-cockpit.credentials"@,
{
    "com.em-cockpit.credentials"
}

/// The kinds of credential.
#[derive(Debug, Clone, Copy, PartialEq, Eq, Hash, Structural)]
pub enum CredentialKey {
    JiraToken,
    GitToken,
    GeminiApiKey,
    GrafanaApiKey,
    ConfluenceToken,
}

impl CredentialKey {
    /// The name of the kind.
    pub open spec fn name(self) -> Seq<char> {
        match self {
            CredentialKey::JiraToken => "jira_token"@,
            CredentialKey::GitToken => "git_token"@,
            CredentialKey::GeminiApiKey => "gemini_api_key"@,
            CredentialKey::GrafanaApiKey => "grafana_api_key"@,
            CredentialKey::ConfluenceToken => "confluence_token"@,
        }
    }

    pub fn as_str(&self) -> (r: &'static str)
        ensures
            r@ == self.name(),
    {
        match self {
            CredentialKey::JiraToken => "jira_token",
            CredentialKey::GitToken => "git_token",
            CredentialKey::GeminiApiKey => "gemini_api_key",
            CredentialKey::GrafanaApiKey => "grafana_api_key",
            CredentialKey::ConfluenceToken => "confluence_token",
        }
    }

    /// Every kind, once.
    pub fn all() -> (r: Vec<CredentialKey>)
        ensures
            r@ == seq![
                CredentialKey::JiraToken,
                CredentialKey::GitToken,
                CredentialKey::GeminiApiKey,
                CredentialKey::GrafanaApiKey,
                CredentialKey::ConfluenceToken,
            ],
    {
        let mut keys: Vec<CredentialKey> = Vec::new();
        keys.push(CredentialKey::JiraToken);
        keys.push(CredentialKey::GitToken);
        keys.push(CredentialKey::GeminiApiKey);
        keys.push(CredentialKey::GrafanaApiKey);
        keys.push(CredentialKey::ConfluenceToken);
        assert(keys@ =~= seq![
            CredentialKey::JiraToken,
            CredentialKey::GitToken,
            CredentialKey::GeminiApiKey,
            CredentialKey::GrafanaApiKey,
            CredentialKey::ConfluenceToken,
        ]);
        keys
    }
}

/// Why an operation on a credential failed.
#[derive(Debug)]
pub enum CredentialError {
    NotFound(String),
    StoreFailed(String),
    DeleteFailed(String),
    AccessDenied(String),
    InvalidData(String),
}

impl CredentialError {
    /// The message of the error.
    pub open spec fn message(&self) -> Seq<char> {
        match *self {
            CredentialError::NotFound(m) => "Credential not found: "@ + m@,
            CredentialError::StoreFailed(m) => "Failed to store credential: "@ + m@,
            CredentialError::DeleteFailed(m) => "Failed to delete credential: "@ + m@,
            CredentialError::AccessDenied(m) => "Keychain access denied: "@ + m@,
            CredentialError::InvalidData(m) => "Invalid credential data: "@ + m@,
        }
    }

    /// The message of the error.
    pub fn to_string(&self) -> (r: String)
        ensures
            r@ == self.message(),
    {
        match self {
            CredentialError::NotFound(m) => owned("Credential not found: ").concat(m.as_str()),
            CredentialError::StoreFailed(m) => owned("Failed to store credential: ").concat(
                m.as_str(),
            ),
            CredentialError::DeleteFailed(m) => owned("Failed to delete credential: ").concat(
                m.as_str(),
            ),
            CredentialError::AccessDenied(m) => owned("Keychain access denied: ").concat(
                m.as_str(),
            ),
            CredentialError::InvalidData(m) => owned("Invalid credential data: ").concat(
                m.as_str(),
            ),
        }
    }

    /// The error for a kind of credential that is not stored.
    pub fn missing(key: CredentialKey) -> (r: Self)
        ensures
            r matches CredentialError::NotFound(m) && m@ == missing_message(key),
    {
        CredentialError::NotFound(owned("Credential '").concat(key.as_str()).concat("' not found"))
    }
}

/// The message for a kind of credential that is not stored.
pub open spec fn missing_message(key: CredentialKey) -> Seq<char> {
    "Credential '"@ + key.name() + "' not found"@
}

/// What a keychain answered to a request.
#[derive(Debug)]
pub enum KeychainReply {
    /// The request was carried out; a request for a secret brought this one.
    Done(Option<String>),
    /// The keychain has no entry for the kind of credential.
    NoEntry,
    /// The keychain failed, with this message.
    Failed(String),
}

/// The secrets, one place for each kind of credential.
pub struct CredentialManager {
    jira_token: Option<String>,
    git_token: Option<String>,
    gemini_api_key: Option<String>,
    grafana_api_key: Option<String>,
    confluence_token: Option<String>,
}

impl CredentialManager {
    /// The secret stored for a kind of credential.
    pub closed spec fn secret(&self, key: CredentialKey) -> Option<Seq<char>> {
        let place = match key {
            CredentialKey::JiraToken => self.jira_token,
            CredentialKey::GitToken => self.git_token,
            CredentialKey::GeminiApiKey => self.gemini_api_key,
            CredentialKey::GrafanaApiKey => self.grafana_api_key,
            CredentialKey::ConfluenceToken => self.confluence_token,
        };
        match place {
            Some(s) => Some(s@),
            None => None,
        }
    }

    /// The number of kinds of credential for which a secret is stored.
    pub open spec fn stored_count(&self) -> nat {
        let one = |key: CredentialKey| -> nat
            {
                if self.secret(key) is Some {
                    1
                } else {
                    0
                }
            };
        one(CredentialKey::JiraToken) + one(CredentialKey::GitToken) + one(
            CredentialKey::GeminiApiKey,
        ) + one(CredentialKey::GrafanaApiKey) + one(CredentialKey::ConfluenceToken)
    }

    /// A manager that keeps the secrets in memory and holds none yet.
    pub fn new_in_memory() -> (r: Self)
        ensures
            forall|key: CredentialKey| r.secret(key) is None,
    {
        CredentialManager {
            jira_token: None,
            git_token: None,
            gemini_api_key: None,
            grafana_api_key: None,
            confluence_token: None,
        }
    }

    /// Refuses an empty secret.
    pub fn check_value(value: &str) -> (r: Result<(), CredentialError>)
        ensures
            value@.len() > 0 ==> r is Ok,
            value@.len() == 0 ==> (r matches Err(CredentialError::InvalidData(m)) && m@
                == "Credential value cannot be empty"@),
    {
        if value.unicode_len() == 0 {
            Err(CredentialError::InvalidData(owned("Credential value cannot be empty")))
        } else {
            Ok(())
        }
    }

    /// Stores a secret, in place of the one stored before. An empty secret is
    /// refused and nothing changes.
    pub fn store(&mut self, key: CredentialKey, value: &str) -> (r: Result<(), CredentialError>)
        ensures
            value@.len() > 0 ==> r is Ok && final(self).secret(key) == Some(value@),
            value@.len() == 0 ==> (r matches Err(CredentialError::InvalidData(m)) && m@
                == "Credential value cannot be empty"@) && final(self).secret(key) == old(
                self,
            ).secret(key),
            forall|other: CredentialKey|
                other != key ==> final(self).secret(other) == old(self).secret(other),
    {
        match Self::check_value(value) {
            Err(e) => {
                return Err(e);
            },
            Ok(()) => {},
        }
        let secret = Some(owned(value));
        match key {
            CredentialKey::JiraToken => {
                self.jira_token = secret;
            },
            CredentialKey::GitToken => {
                self.git_token = secret;
            },
            CredentialKey::GeminiApiKey => {
                self.gemini_api_key = secret;
            },
            CredentialKey::GrafanaApiKey => {
                self.grafana_api_key = secret;
            },
            CredentialKey::ConfluenceToken => {
                self.confluence_token = secret;
            },
        }
        Ok(())
    }

    fn place(&self, key: CredentialKey) -> (r: &Option<String>)
        ensures
            match *r {
                Some(s) => self.secret(key) == Some(s@),
                None => self.secret(key) is None,
            },
    {
        match key {
            CredentialKey::JiraToken => &self.jira_token,
            CredentialKey::GitToken => &self.git_token,
            CredentialKey::GeminiApiKey => &self.gemini_api_key,
            CredentialKey::GrafanaApiKey => &self.grafana_api_key,
            CredentialKey::ConfluenceToken => &self.confluence_token,
        }
    }

    /// The secret stored for a kind of credential.
    pub fn retrieve(&self, key: CredentialKey) -> (r: Result<String, CredentialError>)
        ensures
            match self.secret(key) {
                Some(secret) => r matches Ok(s) && s@ == secret,
                None => r matches Err(CredentialError::NotFound(m)) && m@ == missing_message(key),
            },
    {
        match self.place(key) {
            Some(secret) => Ok(secret.clone()),
            None => Err(CredentialError::missing(key)),
        }
    }

    /// Removes the secret stored for a kind of credential. Where none is stored,
    /// the call fails with `NotFound`.
    pub fn delete(&mut self, key: CredentialKey) -> (r: Result<(), CredentialError>)
        ensures
            final(self).secret(key) is None,
            forall|other: CredentialKey|
                other != key ==> final(self).secret(other) == old(self).secret(other),
            match old(self).secret(key) {
                Some(_) => r is Ok,
                None => r matches Err(CredentialError::NotFound(m)) && m@ == missing_message(key),
            },
    {
        let present = self.place(key).is_some();
        match key {
            CredentialKey::JiraToken => {
                self.jira_token = None;
            },
            CredentialKey::GitToken => {
                self.git_token = None;
            },
            CredentialKey::GeminiApiKey => {
                self.gemini_api_key = None;
            },
            CredentialKey::GrafanaApiKey => {
                self.grafana_api_key = None;
            },
            CredentialKey::ConfluenceToken => {
                self.confluence_token = None;
            },
        }
        if present {
            Ok(())
        } else {
            Err(CredentialError::missing(key))
        }
    }

    /// Whether a secret is stored for a kind of credential.
    pub fn contains(&self, key: CredentialKey) -> (r: bool)
        ensures
            r == self.secret(key) is Some,
    {
        self.retrieve(key).is_ok()
    }

    /// Removes every secret and says how many there were. Always succeeds.
    pub fn panic_wipe(&mut self) -> (r: Result<usize, CredentialError>)
        ensures
            r matches Ok(count) && count == old(self).stored_count(),
            forall|key: CredentialKey| final(self).secret(key) is None,
    {
        let keys = CredentialKey::all();
        let mut deleted: usize = 0;
        let mut i: usize = 0;
        while i < keys.len()
            invariant
                i <= 5,
                keys@ == seq![
                    CredentialKey::JiraToken,
                    CredentialKey::GitToken,
                    CredentialKey::GeminiApiKey,
                    CredentialKey::GrafanaApiKey,
                    CredentialKey::ConfluenceToken,
                ],
                deleted <= i,
                forall|k: int| 0 <= k < i ==> self.secret(#[trigger] keys@[k]) is None,
                forall|k: int|
                    i <= k < 5 ==> self.secret(#[trigger] keys@[k]) == old(self).secret(keys@[k]),
                deleted == Self::stored_among(*old(self), keys@, i as int),
            decreases keys.len() - i,
        {
            let key = keys[i];
            assert(key == keys@[i as int]);
            match self.delete(key) {
                Ok(()) => {
                    deleted = deleted + 1;
                },
                Err(_) => {},
            }
            assert forall|k: int| i < k < 5 implies self.secret(#[trigger] keys@[k]) == old(
                self,
            ).secret(keys@[k]) by {
                assert(keys@[k] != key);
            }
            i = i + 1;
        }
        proof {
            assert forall|key: CredentialKey| self.secret(key) is None by {
                match key {
                    CredentialKey::JiraToken => assert(keys@[0] == key),
                    CredentialKey::GitToken => assert(keys@[1] == key),
                    CredentialKey::GeminiApiKey => assert(keys@[2] == key),
                    CredentialKey::GrafanaApiKey => assert(keys@[3] == key),
                    CredentialKey::ConfluenceToken => assert(keys@[4] == key),
                }
            }
            reveal_with_fuel(CredentialManager::stored_among, 6);
        }
        Ok(deleted)
    }

    /// The number of secrets stored for the first `upto` of the kinds.
    pub open spec fn stored_among(manager: CredentialManager, keys: Seq<CredentialKey>, upto: int) -> nat
        decreases upto,
    {
        if upto <= 0 {
            0
        } else {
            Self::stored_among(manager, keys, upto - 1) + if manager.secret(keys[upto - 1])
                is Some {
                1nat
            } else {
                0nat
            }
        }
    }

    /// What a keychain's answer to a request for a secret means.
    pub fn retrieve_reply(key: CredentialKey, reply: KeychainReply) -> (r: Result<
        String,
        CredentialError,
    >)
        ensures
            match reply {
                KeychainReply::Done(Some(secret)) => r == Ok::<String, CredentialError>(secret),
                KeychainReply::Done(None) => r matches Err(CredentialError::NotFound(m)) && m@
                    == missing_message(key),
                KeychainReply::NoEntry => r matches Err(CredentialError::NotFound(m)) && m@
                    == missing_message(key),
                KeychainReply::Failed(message) => r == Err::<String, CredentialError>(
                    CredentialError::AccessDenied(message),
                ),
            },
    {
        match reply {
            KeychainReply::Done(Some(secret)) => Ok(secret),
            KeychainReply::Done(None) => Err(CredentialError::missing(key)),
            KeychainReply::NoEntry => Err(CredentialError::missing(key)),
            KeychainReply::Failed(message) => Err(CredentialError::AccessDenied(message)),
        }
    }

    /// What a keychain's answer to a request to store a secret means.
    pub fn store_reply(reply: KeychainReply) -> (r: Result<(), CredentialError>)
        ensures
            match reply {
                KeychainReply::Done(_) => r is Ok,
                KeychainReply::NoEntry => r matches Err(CredentialError::StoreFailed(m)) && m@
                    == "no entry"@,
                KeychainReply::Failed(message) => r == Err::<(), CredentialError>(
                    CredentialError::StoreFailed(message),
                ),
            },
    {
        match reply {
            KeychainReply::Done(_) => Ok(()),
            KeychainReply::NoEntry => Err(CredentialError::StoreFailed(owned("no entry"))),
            KeychainReply::Failed(message) => Err(CredentialError::StoreFailed(message)),
        }
    }

    /// What a keychain's answer to a request to delete a secret means.
    pub fn delete_reply(key: CredentialKey, reply: KeychainReply) -> (r: Result<
        (),
        CredentialError,
    >)
        ensures
            match reply {
                KeychainReply::Done(_) => r is Ok,
                KeychainReply::NoEntry => r matches Err(CredentialError::NotFound(m)) && m@
                    == missing_message(key),
                KeychainReply::Failed(message) => r == Err::<(), CredentialError>(
                    CredentialError::DeleteFailed(message),
                ),
            },
    {
        match reply {
            KeychainReply::Done(_) => Ok(()),
            KeychainReply::NoEntry => Err(CredentialError::missing(key)),
            KeychainReply::Failed(message) => Err(CredentialError::DeleteFailed(message)),
        }
    }

    /// How many of the deletions of a wipe removed a secret: those that
    /// succeeded. A secret that was not there, and a failure, do not count and
    /// do not stop the wipe.
    pub fn count_wiped(outcomes: &Vec<Result<(), CredentialError>>) -> (r: usize)
        ensures
            r == successes(outcomes@),
    {
        let mut count: usize = 0;
        let mut i: usize = 0;
        assert(outcomes@.subrange(0, 0) =~= Seq::<Result<(), CredentialError>>::empty());
        while i < outcomes.len()
            invariant
                i <= outcomes.len(),
                count <= i,
                count == successes(outcomes@.subrange(0, i as int)),
            decreases outcomes.len() - i,
        {
            assert(outcomes@.subrange(0, i + 1).drop_last() =~= outcomes@.subrange(0, i as int));
            assert(outcomes@.subrange(0, i + 1).last() == outcomes@[i as int]);
            if outcomes[i].is_ok() {
                count = count + 1;
            }
            i = i + 1;
        }
        assert(outcomes@.subrange(0, outcomes@.len() as int) =~= outcomes@);
        count
    }
}

/// The number of outcomes that are successes.
pub open spec fn successes(outcomes: Seq<Result<(), CredentialError>>) -> nat
    decreases outcomes.len(),
{
    if outcomes.len() == 0 {
        0
    } else {
        successes(outcomes.drop_last()) + if outcomes.last() is Ok {
            1nat
        } else {
            0nat
        }
    }
}

} // verus!

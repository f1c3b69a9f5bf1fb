//! Tokens in the keychain of the operating system: how their entries are
//! named, and what the keychain's answers mean.
//!
//! The keychain itself is asked by the caller, under the service name of
//! [`KeychainAuth`] and the account that [`KeychainAuth::account_for_token`]
//! gives, and its answer is handed over as a [`TokenLookup`] or a
//! [`KeychainChange`].

use vstd::prelude::*;
use vstd::string::StringExecFns;

verus! {

/// The kinds of token that are stored.
#[derive(Debug, Clone, Copy, PartialEq, Eq, Hash, Structural)]
pub enum TokenType {
    RefreshToken,
    AccessToken,
    ApiKey,
}

/// What the keychain answered when it was asked for a token.
#[derive(Debug)]
pub enum TokenLookup {
    Found(String),
    NoEntry,
    /// The entry could not be made; the text says why.
    EntryFailed(String),
    /// The entry could not be read; the text says why.
    Failed(String),
}

/// What the keychain answered when it was asked to store or delete a token.
#[derive(Debug)]
pub enum KeychainChange {
    Done,
    NoEntry,
    /// The entry could not be made; the text says why.
    EntryFailed(String),
    /// The entry could not be changed; the text says why.
    Failed(String),
}

/// The keychain's answers for the three kinds of token of one profile.
#[derive(Debug)]
pub struct ProfileLookups {
    pub refresh_token: TokenLookup,
    pub access_token: TokenLookup,
    pub api_key: TokenLookup,
}

/// The keychain's answers to deleting the three kinds of token of one
/// profile.
#[derive(Debug)]
pub struct ProfileChanges {
    pub refresh_token: KeychainChange,
    pub access_token: KeychainChange,
    pub api_key: KeychainChange,
}

/// The names under which tokens are stored.
pub struct KeychainAuth {
    service_name: String,
}

impl TokenType {
    /// The name of the kind.
    pub open spec fn text(&self) -> Seq<char> {
        match self {
            TokenType::RefreshToken => "refresh_token"@,
            TokenType::AccessToken => "access_token"@,
            TokenType::ApiKey => "api_key"@,
        }
    }

    /// The name of the kind.
    pub fn as_str(&self) -> (name: &'static str)
        ensures
            name@ == self.text(),
    {
        match self {
            TokenType::RefreshToken => "refresh_token",
            TokenType::AccessToken => "access_token",
            TokenType::ApiKey => "api_key",
        }
    }

    /// The name of the kind.
    pub fn to_string(&self) -> (name: String)
        ensures
            name@ == self.text(),
    {
        String::from_str(self.as_str())
    }
}

/// Whether `r` is what reading the name `s` gives: the kind that has this
/// name, or, where none has it, `Unknown token type: ` and the name.
pub open spec fn is_parsed(s: Seq<char>, r: Result<TokenType, String>) -> bool {
    if s == "refresh_token"@ {
        r == Ok::<TokenType, String>(TokenType::RefreshToken)
    } else if s == "access_token"@ {
        r == Ok::<TokenType, String>(TokenType::AccessToken)
    } else if s == "api_key"@ {
        r == Ok::<TokenType, String>(TokenType::ApiKey)
    } else {
        r is Err && r->Err_0@ == "Unknown token type: "@ + s
    }
}

/// Reads the name of a kind of token.
pub fn parse_token_type(s: &str) -> (r: Result<TokenType, String>)
    ensures
        is_parsed(s@, r),
{
    if s.eq("refresh_token") {
        Ok(TokenType::RefreshToken)
    } else if s.eq("access_token") {
        Ok(TokenType::AccessToken)
    } else if s.eq("api_key") {
        Ok(TokenType::ApiKey)
    } else {
        let mut message = String::from_str("Unknown token type: ");
        message.append(s);
        Err(message)
    }
}

impl std::str::FromStr for TokenType {
    type Err = String;

    fn from_str(s: &str) -> (r: Result<Self, String>)
        ensures
            is_parsed(s@, r),
    {
        parse_token_type(s)
    }
}

/// What a lookup comes to: the token, or why there is none.
pub open spec fn lookup_result(
    lookup: TokenLookup,
    profile_id: Seq<char>,
    token_type: TokenType,
    r: Result<String, String>,
) -> bool {
    match lookup {
        TokenLookup::Found(token) => r is Ok && r->Ok_0@ == token@,
        TokenLookup::NoEntry => r is Err && r->Err_0@ == "No "@ + token_type.text()
            + " found for profile "@ + profile_id,
        TokenLookup::EntryFailed(why) => r is Err && r->Err_0@ == "Failed to create keychain entry: "@
            + why@,
        TokenLookup::Failed(why) => r is Err && r->Err_0@
            == "Failed to retrieve token from keychain: "@ + why@,
    }
}

/// The complaint about a deletion, where there is one: none where the
/// token is gone or never was, else why it could not be deleted.
pub open spec fn deletion_complaint(change: KeychainChange) -> Option<Seq<char>> {
    match change {
        KeychainChange::Done => None,
        KeychainChange::NoEntry => None,
        KeychainChange::EntryFailed(why) => Some("Failed to create keychain entry: "@ + why@),
        KeychainChange::Failed(why) => Some("Failed to delete token from keychain: "@ + why@),
    }
}

/// Whether `r` fails with `complaint`, or succeeds where there is none.
pub open spec fn complains(r: Result<(), String>, complaint: Option<Seq<char>>) -> bool {
    match complaint {
        None => r is Ok,
        Some(text) => r is Err && r->Err_0@ == text,
    }
}

/// The first complaint about the deletions of a profile, in the order
/// refresh token, access token, key.
pub open spec fn first_complaint(changes: ProfileChanges) -> Option<Seq<char>> {
    if deletion_complaint(changes.refresh_token) is Some {
        deletion_complaint(changes.refresh_token)
    } else if deletion_complaint(changes.access_token) is Some {
        deletion_complaint(changes.access_token)
    } else {
        deletion_complaint(changes.api_key)
    }
}

/// What storing comes to: nothing to complain of where the token is stored,
/// else why it could not be stored. That there is no entry counts as a
/// failure to store.
pub open spec fn storing_result(change: KeychainChange, r: Result<(), String>) -> bool {
    match change {
        KeychainChange::Done => r is Ok,
        KeychainChange::NoEntry => r is Err && r->Err_0@
            == "Failed to store token in keychain: no entry"@,
        KeychainChange::EntryFailed(why) => r is Err && r->Err_0@
            == "Failed to create keychain entry: "@ + why@,
        KeychainChange::Failed(why) => r is Err && r->Err_0@
            == "Failed to store token in keychain: "@ + why@,
    }
}

/// The kinds of token that were found, in the order refresh token, access
/// token, key.
pub open spec fn found_kinds(lookups: ProfileLookups) -> Seq<TokenType> {
    let first = if lookups.refresh_token is Found {
        seq![TokenType::RefreshToken]
    } else {
        Seq::empty()
    };
    let second = if lookups.access_token is Found {
        first.push(TokenType::AccessToken)
    } else {
        first
    };
    if lookups.api_key is Found {
        second.push(TokenType::ApiKey)
    } else {
        second
    }
}

fn labelled(label: &str, detail: &str) -> (text: String)
    ensures
        text@ == label@ + detail@,
{
    let mut text = String::from_str(label);
    text.append(detail);
    text
}

impl KeychainAuth {
    /// The service under which all entries are stored.
    pub closed spec fn service(&self) -> Seq<char> {
        self.service_name@
    }

    pub fn new() -> (auth: Self)
        ensures
            auth.service() == "amp-orchestra"@,
    {
        KeychainAuth { service_name: String::from_str("amp-orchestra") }
    }

    /// The service under which all entries are stored.
    pub fn service_name(&self) -> (name: &str)
        ensures
            name@ == self.service(),
    {
        self.service_name.as_str()
    }

    /// The account of a token's entry: the profile, `-` and the kind.
    pub fn account_for_token(&self, profile_id: &str, token_type: &TokenType) -> (account: String)
        ensures
            account@ == profile_id@ + "-"@ + token_type.text(),
    {
        let mut account = String::from_str(profile_id);
        account.append("-");
        account.append(token_type.as_str());
        account
    }

    /// What the keychain's answer to storing a token means.
    pub fn store_token(&self, change: KeychainChange) -> (r: Result<(), String>)
        ensures
            storing_result(change, r),
    {
        match change {
            KeychainChange::Done => Ok(()),
            KeychainChange::NoEntry => Err(
                String::from_str("Failed to store token in keychain: no entry"),
            ),
            KeychainChange::EntryFailed(why) => Err(
                labelled("Failed to create keychain entry: ", why.as_str()),
            ),
            KeychainChange::Failed(why) => Err(
                labelled("Failed to store token in keychain: ", why.as_str()),
            ),
        }
    }

    /// What the keychain's answer to a lookup means.
    pub fn get_token(&self, profile_id: &str, token_type: &TokenType, lookup: TokenLookup) -> (r:
        Result<String, String>)
        ensures
            lookup_result(lookup, profile_id@, *token_type, r),
    {
        match lookup {
            TokenLookup::Found(token) => Ok(token),
            TokenLookup::NoEntry => {
                let mut message = labelled("No ", token_type.as_str());
                message.append(" found for profile ");
                message.append(profile_id);
                Err(message)
            },
            TokenLookup::EntryFailed(why) => Err(
                labelled("Failed to create keychain entry: ", why.as_str()),
            ),
            TokenLookup::Failed(why) => Err(
                labelled("Failed to retrieve token from keychain: ", why.as_str()),
            ),
        }
    }

    /// What the keychain's answer to a deletion means.
    pub fn delete_token(&self, change: KeychainChange) -> (r: Result<(), String>)
        ensures
            complains(r, deletion_complaint(change)),
    {
        match change {
            KeychainChange::Done => Ok(()),
            KeychainChange::NoEntry => Ok(()),
            KeychainChange::EntryFailed(why) => Err(
                labelled("Failed to create keychain entry: ", why.as_str()),
            ),
            KeychainChange::Failed(why) => Err(
                labelled("Failed to delete token from keychain: ", why.as_str()),
            ),
        }
    }

    /// The kinds of token that a profile has, in the order refresh token,
    /// access token, key. A lookup that failed counts as a token that is not
    /// there.
    pub fn list_profile_tokens(&self, lookups: &ProfileLookups) -> (r: Result<
        Vec<TokenType>,
        String,
    >)
        ensures
            r is Ok,
            r->Ok_0@ == found_kinds(*lookups),
    {
        let mut kinds: Vec<TokenType> = Vec::new();
        match lookups.refresh_token {
            TokenLookup::Found(_) => {
                kinds.push(TokenType::RefreshToken);
            },
            _ => {},
        }
        match lookups.access_token {
            TokenLookup::Found(_) => {
                kinds.push(TokenType::AccessToken);
            },
            _ => {},
        }
        match lookups.api_key {
            TokenLookup::Found(_) => {
                kinds.push(TokenType::ApiKey);
            },
            _ => {},
        }
        assert(kinds@ =~= found_kinds(*lookups));
        Ok(kinds)
    }

    /// Whether a profile has a token of any kind.
    pub fn has_profile_tokens(&self, lookups: &ProfileLookups) -> (any: bool)
        ensures
            any == (lookups.refresh_token is Found || lookups.access_token is Found
                || lookups.api_key is Found),
    {
        match self.list_profile_tokens(lookups) {
            Ok(kinds) => kinds.len() > 0,
            Err(_) => false,
        }
    }

    /// What deleting all tokens of a profile comes to: nothing to complain
    /// of where every deletion went well, else the complaint of the first
    /// that did not, in the order refresh token, access token, key.
    pub fn clear_profile_tokens(&self, changes: ProfileChanges) -> (r: Result<(), String>)
        ensures
            complains(r, first_complaint(changes)),
    {
        let first = self.delete_token(changes.refresh_token);
        let second = self.delete_token(changes.access_token);
        let third = self.delete_token(changes.api_key);
        if first.is_err() {
            first
        } else if second.is_err() {
            second
        } else {
            third
        }
    }

    /// The tokens that a profile has, each with its kind, in the order
    /// refresh token, access token, key.
    pub fn get_all_tokens(&self, lookups: ProfileLookups) -> (r: Result<
        Vec<(TokenType, String)>,
        String,
    >)
        ensures
            r is Ok,
            r->Ok_0@.len() == found_kinds(lookups).len(),
            forall|i: int|
                0 <= i < r->Ok_0@.len() ==> (#[trigger] r->Ok_0@[i]).0 == found_kinds(lookups)[i]
                    && token_of(lookups, r->Ok_0@[i].0) == Some(r->Ok_0@[i].1@),
    {
        let mut tokens: Vec<(TokenType, String)> = Vec::new();
        match lookups.refresh_token {
            TokenLookup::Found(token) => {
                tokens.push((TokenType::RefreshToken, token));
            },
            _ => {},
        }
        match lookups.access_token {
            TokenLookup::Found(token) => {
                tokens.push((TokenType::AccessToken, token));
            },
            _ => {},
        }
        match lookups.api_key {
            TokenLookup::Found(token) => {
                tokens.push((TokenType::ApiKey, token));
            },
            _ => {},
        }
        Ok(tokens)
    }
}

/// The token of the kind `kind` among `lookups`, where it was found.
pub open spec fn token_of(lookups: ProfileLookups, kind: TokenType) -> Option<Seq<char>> {
    let lookup = match kind {
        TokenType::RefreshToken => lookups.refresh_token,
        TokenType::AccessToken => lookups.access_token,
        TokenType::ApiKey => lookups.api_key,
    };
    match lookup {
        TokenLookup::Found(token) => Some(token@),
        _ => None,
    }
}

impl Default for KeychainAuth {
    fn default() -> (auth: Self)
        ensures
            auth.service() == "amp-orchestra"@,
    {
        KeychainAuth::new()
    }
}

} // verus!

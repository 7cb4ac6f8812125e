//! The rule a new bot account must meet before it is stored.

use vstd::prelude::*;

use crate::text::{blank, is_blank};

verus! {

/// The first credential field of a new account found empty.
#[derive(Debug, Clone, Copy, PartialEq, Eq, Structural)]
pub enum AccountError {
    EmptyAccountName,
    EmptyApiKey,
    EmptyApiKeySecret,
    EmptyAccessToken,
    EmptyAccessTokenSecret,
}

impl AccountError {
    /// A text for the user.
    pub fn message(&self) -> (r: String)
        ensures
            r@ == match self {
                AccountError::EmptyAccountName => "アカウント名が空です"@,
                AccountError::EmptyApiKey => "API Keyが空です"@,
                AccountError::EmptyApiKeySecret => "API Key Secretが空です"@,
                AccountError::EmptyAccessToken => "Access Tokenが空です"@,
                AccountError::EmptyAccessTokenSecret => "Access Token Secretが空です"@,
            },
    {
        match self {
            AccountError::EmptyAccountName => "アカウント名が空です".to_owned(),
            AccountError::EmptyApiKey => "API Keyが空です".to_owned(),
            AccountError::EmptyApiKeySecret => "API Key Secretが空です".to_owned(),
            AccountError::EmptyAccessToken => "Access Tokenが空です".to_owned(),
            AccountError::EmptyAccessTokenSecret => "Access Token Secretが空です".to_owned(),
        }
    }
}

/// The verdict on a new account: the first of its five fields, in this order,
/// that is empty once trimmed; none, when all hold text.
pub open spec fn account_check(
    account_name: Seq<char>,
    api_key: Seq<char>,
    api_key_secret: Seq<char>,
    access_token: Seq<char>,
    access_token_secret: Seq<char>,
) -> Result<(), AccountError> {
    if blank(account_name) {
        Err(AccountError::EmptyAccountName)
    } else if blank(api_key) {
        Err(AccountError::EmptyApiKey)
    } else if blank(api_key_secret) {
        Err(AccountError::EmptyApiKeySecret)
    } else if blank(access_token) {
        Err(AccountError::EmptyAccessToken)
    } else if blank(access_token_secret) {
        Err(AccountError::EmptyAccessTokenSecret)
    } else {
        Ok(())
    }
}

/// Checks the fields of a new account.
pub fn validate_new_account(
    account_name: &str,
    api_key: &str,
    api_key_secret: &str,
    access_token: &str,
    access_token_secret: &str,
) -> (r: Result<(), AccountError>)
    ensures
        r == account_check(
            account_name@,
            api_key@,
            api_key_secret@,
            access_token@,
            access_token_secret@,
        ),
{
    if is_blank(account_name) {
        Err(AccountError::EmptyAccountName)
    } else if is_blank(api_key) {
        Err(AccountError::EmptyApiKey)
    } else if is_blank(api_key_secret) {
        Err(AccountError::EmptyApiKeySecret)
    } else if is_blank(access_token) {
        Err(AccountError::EmptyAccessToken)
    } else if is_blank(access_token_secret) {
        Err(AccountError::EmptyAccessTokenSecret)
    } else {
        Ok(())
    }
}

} // verus!

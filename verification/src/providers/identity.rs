//! The simplest providers: each checks its input and names the subject it
//! was given; none of them derives authority.
use vstd::prelude::*;
use crate::text::{owned, cat3, blank_seq, is_blank};

verus! {

#[derive(Debug, Clone, PartialEq, Eq)]
pub struct ProviderIdentity {
    pub provider: String,
    pub subject: String,
}

#[derive(Debug, Clone, PartialEq, Eq)]
pub struct ProviderError {
    pub message: String,
}

/// A provider's answer: the identity it recognised, or why it refused.
pub open spec fn identity_is(r: Result<ProviderIdentity, ProviderError>, provider: Seq<char>, subject: Seq<char>) -> bool {
    r matches Ok(id) && id.provider@ == provider && id.subject@ == subject
}

pub open spec fn error_is(r: Result<ProviderIdentity, ProviderError>, message: Seq<char>) -> bool {
    r matches Err(e) && e.message@ == message
}

pub struct JwtProvider;

impl JwtProvider {
    /// A non-blank token is taken as the subject; a blank one is refused.
    pub fn authenticate(jwt: &str) -> (r: Result<ProviderIdentity, ProviderError>)
        ensures
            blank_seq(jwt@) ==> error_is(r, "jwt cannot be empty"@),
            !blank_seq(jwt@) ==> identity_is(r, "jwt"@, jwt@),
    {
        if is_blank(jwt) {
            return Err(ProviderError { message: owned("jwt cannot be empty") });
        }
        Ok(ProviderIdentity { provider: owned("jwt"), subject: owned(jwt) })
    }
}

pub struct LocalCredentials {
    pub username: String,
    pub password: String,
}

pub struct LocalProvider;

impl LocalProvider {
    /// A non-blank username with a non-empty password names the user.
    pub fn authenticate(creds: LocalCredentials) -> (r: Result<ProviderIdentity, ProviderError>)
        ensures
            (blank_seq(creds.username@) || creds.password@.len() == 0) ==> error_is(
                r,
                "invalid local credentials"@,
            ),
            !(blank_seq(creds.username@) || creds.password@.len() == 0) ==> identity_is(
                r,
                "local"@,
                creds.username@,
            ),
    {
        if is_blank(creds.username.as_str()) || creds.password.as_str().unicode_len() == 0 {
            return Err(ProviderError { message: owned("invalid local credentials") });
        }
        Ok(ProviderIdentity { provider: owned("local"), subject: creds.username })
    }
}

pub struct MagicLinkProvider;

impl MagicLinkProvider {
    pub fn authenticate(token: &str) -> (r: Result<ProviderIdentity, ProviderError>)
        ensures
            blank_seq(token@) ==> error_is(r, "magic link token cannot be empty"@),
            !blank_seq(token@) ==> identity_is(r, "magic_link"@, token@),
    {
        if is_blank(token) {
            return Err(ProviderError { message: owned("magic link token cannot be empty") });
        }
        Ok(ProviderIdentity { provider: owned("magic_link"), subject: owned(token) })
    }
}

pub struct OauthProvider;

impl OauthProvider {
    /// No OAuth provider is implemented: every attempt is refused, naming
    /// the provider.
    pub fn authenticate(token: &str, provider: &str) -> (r: Result<ProviderIdentity, ProviderError>)
        ensures
            error_is(r, "provider `"@ + provider@ + "` is not supported"@),
    {
        Err(ProviderError { message: cat3("provider `", provider, "` is not supported") })
    }
}

} // verus!

//! Account records of the cloud service.

use vstd::prelude::*;

verus! {

/// Errors of the cloud account service.
pub enum ApiError {
    RequestError(String),
    ApiError(String),
    Unauthorized,
}

pub struct UserInfo {
    pub id: String,
    pub email: String,
    pub name: Option<String>,
    pub avatar_url: Option<String>,
}

pub struct AuthToken {
    pub access_token: String,
    pub refresh_token: String,
    pub expires_in: u64,
    pub user: UserInfo,
}

} // verus!

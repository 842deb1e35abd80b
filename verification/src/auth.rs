//! Carriers for account registration, login and password recovery; token issuance itself is an external collaborator.

use vstd::prelude::*;

verus! {

/// A new account with its profile basics.
pub struct RegisterRequest {
    pub email: String,
    pub password: String,
    pub username: String,
    pub full_name: Option<String>,
    pub bio: Option<String>,
    pub avatar_url: Option<String>,
    pub school: Option<String>,
    pub year_of_study: Option<i32>,
    pub age: Option<i32>,
    pub gender: Option<String>,
}

/// Credentials for a login.
pub struct LoginRequest {
    pub email: String,
    pub password: String,
}

/// The account as handed back after auth.
pub struct UserResponse {
    pub id: String,
    pub email: String,
    pub role: String,
    pub username: Option<String>,
    pub is_verified: bool,
    pub is_premium: bool,
    pub premium_expires_at: Option<String>,
}

/// A bearer token with its account.
pub struct AuthResponse {
    pub token: String,
    pub user: UserResponse,
}

/// A reset-code request.
pub struct ForgotPasswordRequest {
    pub email: String,
}

/// A password reset with its code.
pub struct ResetPasswordRequest {
    pub email: String,
    pub code: String,
    pub new_password: String,
}

/// What a bearer token asserts: subject, expiry and role.
pub struct Claims {
    pub sub: String,
    pub exp: usize,
    pub role: String,
}

} // verus!

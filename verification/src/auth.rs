//! Sign-in state: the stored token, the subscription, and what a signed-in
//! user may do.

use vstd::prelude::*;

verus! {

/// A session token; `expiry` is in seconds since the Unix epoch, `None` for
/// a token that does not expire.
pub struct AuthToken {
    pub token: String,
    pub expiry: Option<i64>,
}

impl AuthToken {
    /// A copy of this token.
    pub fn duplicate(&self) -> (copy: AuthToken)
        ensures
            copy.token@ == self.token@,
            copy.expiry == self.expiry,
    {
        AuthToken { token: self.token.clone(), expiry: self.expiry }
    }
}

/// A subscription plan.
pub struct Plan {
    pub id: Option<String>,
    pub name: Option<String>,
    pub description: Option<String>,
}

/// The subscription of the signed-in user; `current_period_end` is in
/// seconds since the Unix epoch.
pub struct SubscriptionDetails {
    pub subscription_status: String,
    pub current_period_end: Option<i64>,
    pub plan: Option<Plan>,
    pub cancel_at_period_end: bool,
}

/// Who is signed in, with what token and subscription.
pub struct AuthState {
    pub token: Option<AuthToken>,
    pub is_authenticated: bool,
    pub subscription: Option<SubscriptionDetails>,
}

impl AuthState {
    /// Nobody signed in.
    pub fn signed_out() -> (s: AuthState)
        ensures
            s.token is None,
            !s.is_authenticated,
            s.subscription is None,
    {
        AuthState { token: None, is_authenticated: false, subscription: None }
    }

    /// Signed in with `token`, and the subscription if it is known.
    pub fn signed_in(token: AuthToken, subscription: Option<SubscriptionDetails>) -> (s: AuthState)
        ensures
            s.token == Some(token),
            s.is_authenticated,
            s.subscription == subscription,
    {
        AuthState { token: Some(token), is_authenticated: true, subscription }
    }

    /// Whether the user may create projects: exactly when signed in.
    pub fn can_create_projects(&self) -> (allowed: bool)
        ensures
            allowed == self.is_authenticated,
    {
        if !self.is_authenticated {
            return false;
        }
        true
    }
}

/// Whether a token is still good at `now` (seconds since the Unix epoch):
/// it has no expiry, or expires strictly later. Whole seconds suffice: the
/// stored expiry is whole seconds, so it lies after the current instant
/// exactly when it lies after the current whole second.
pub open spec fn is_unexpired(expiry: Option<i64>, now: i64) -> bool {
    match expiry {
        None => true,
        Some(e) => e > now,
    }
}

/// The token if it is still good at `now`, otherwise `None`.
pub fn token_if_unexpired(token: AuthToken, now: i64) -> (r: Option<AuthToken>)
    ensures
        is_unexpired(token.expiry, now) ==> r == Some(token),
        !is_unexpired(token.expiry, now) ==> r is None,
{
    match token.expiry {
        Some(expiry) => {
            if expiry > now {
                Some(token)
            } else {
                None
            }
        },
        None => Some(token),
    }
}

/// Whether an HTTP status code reports success (200 to 299), as
/// `StatusCode::is_success` decides before an answer is read.
pub fn is_success_status(code: u16) -> (ok: bool)
    ensures
        ok == (200 <= code && code < 300),
{
    200 <= code && code < 300
}

/// Calls `chrono::Utc::now().timestamp()`: the current time in whole seconds
/// since the Unix epoch. It depends on the clock, so the contract claims
/// nothing of the value.
#[verifier::external_body]
fn unix_now() -> (now: i64) {
    chrono::Utc::now().timestamp()
}

/// The stored token if it has not expired by the current time. A token
/// without expiry always comes back; an expiring one comes back or not
/// depending on the clock.
pub fn stored_token_if_valid(token: AuthToken) -> (r: Option<AuthToken>)
    ensures
        r is None || r == Some(token),
        token.expiry is None ==> r == Some(token),
{
    let now = unix_now();
    token_if_unexpired(token, now)
}

} // verus!

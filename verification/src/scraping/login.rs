use vstd::prelude::*;
use crate::text::{contains_seq, str_contains};

verus! {

/// How the account is signed in: by a person at the browser, or
/// automatically with the configured credentials.
pub enum LoginMethod {
    Manual,
    Automated { email: String, password: String },
}

/// Whether a browser address shows a signed-in session on the history
/// page: it names the watch history and is neither the sign-in page nor
/// an authentication step.
pub fn url_shows_logged_in(url: &str) -> (r: bool)
    ensures
        r == (contains_seq(url@, "watch-history"@) && !contains_seq(url@, "signin"@)
            && !contains_seq(url@, "auth"@)),
{
    str_contains(url, "watch-history") && !str_contains(url, "signin") && !str_contains(
        url,
        "auth",
    )
}

} // verus!

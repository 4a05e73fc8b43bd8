use vstd::prelude::*;

verus! {

/// Credentials for the Simkl API.
pub struct SimklConfig {
    pub client_id: String,
    pub client_secret: String,
}

/// Credentials for the TMDB API.
pub struct TmdbConfig {
    pub api_key: String,
}

/// Credentials for the TVDB API.
pub struct TvdbConfig {
    pub api_key: String,
}

/// Credentials for the MyAnimeList API.
pub struct MalConfig {
    pub client_id: String,
    pub client_secret: String,
}

/// Credentials for the IMDB API.
pub struct ImdbConfig {
    pub api_key: String,
}

/// The account the watch history is scraped from.
pub struct AmazonConfig {
    pub email: String,
    pub password: String,
}

/// Where the produced sheet is written.
pub struct OutputConfig {
    pub path: String,
}

/// The whole run configuration: one credential struct per provider, the
/// scraped account, and the output location.
pub struct AppConfig {
    pub simkl: SimklConfig,
    pub tmdb: TmdbConfig,
    pub tvdb: TvdbConfig,
    pub imdb: ImdbConfig,
    pub mal: MalConfig,
    pub amazon: AmazonConfig,
    pub output: OutputConfig,
}

/// The shape this library accepts for a configured e-mail address: an
/// `@` with at least one character before it and at least one after it.
/// This is a deliberately simple acceptance rule, weaker than full
/// e-mail validation (it does not reject, say, a second `@`); the
/// configuration loader outside the library may apply a stricter check
/// of its own before values reach this one.
pub open spec fn email_ok(s: Seq<char>) -> bool {
    exists|i: int| 0 < i < s.len() - 1 && s[i] == '@'
}

/// Every credential the run needs is present: no key, id, secret or
/// password is empty, and the account e-mail has the accepted shape.
pub open spec fn config_ok(c: AppConfig) -> bool {
    &&& c.simkl.client_id@.len() > 0
    &&& c.simkl.client_secret@.len() > 0
    &&& c.tmdb.api_key@.len() > 0
    &&& c.tvdb.api_key@.len() > 0
    &&& c.imdb.api_key@.len() > 0
    &&& c.mal.client_id@.len() > 0
    &&& c.mal.client_secret@.len() > 0
    &&& c.amazon.password@.len() > 0
    &&& email_ok(c.amazon.email@)
}

/// Whether the string holds an `@` that is neither its first nor its
/// last character.
fn email_shape_ok(s: &String) -> (r: bool)
    ensures
        r == email_ok(s@),
{
    let n = s.as_str().unicode_len();
    if n < 3 {
        return false;
    }
    let mut i: usize = 1;
    while i < n - 1
        invariant
            1 <= i <= n - 1,
            3 <= n == s@.len(),
            forall|j: int| 0 < j < i ==> s@[j] != '@',
        decreases n - i,
    {
        if s.as_str().get_char(i) == '@' {
            return true;
        }
        i = i + 1;
    }
    false
}

impl AppConfig {
    /// Check the configured credentials.  `Ok` exactly when every field
    /// `config_ok` demands is present; the error message names the
    /// first field found missing or malformed, in the order the checks
    /// are written, not every violated one at once.  The e-mail check
    /// is the simple shape `email_ok` states, nothing stricter.
    /// Credential values never appear in the message.
    pub fn validate(&self) -> (r: Result<(), String>)
        ensures
            r is Ok <==> config_ok(*self),
    {
        if self.simkl.client_id.as_str().is_empty() {
            return Err(String::from_str("simkl.client_id cannot be empty"));
        }
        if self.simkl.client_secret.as_str().is_empty() {
            return Err(String::from_str("simkl.client_secret cannot be empty"));
        }
        if self.tmdb.api_key.as_str().is_empty() {
            return Err(String::from_str("tmdb.api_key cannot be empty"));
        }
        if self.tvdb.api_key.as_str().is_empty() {
            return Err(String::from_str("tvdb.api_key cannot be empty"));
        }
        if self.imdb.api_key.as_str().is_empty() {
            return Err(String::from_str("imdb.api_key cannot be empty"));
        }
        if self.mal.client_id.as_str().is_empty() {
            return Err(String::from_str("mal.client_id cannot be empty"));
        }
        if self.mal.client_secret.as_str().is_empty() {
            return Err(String::from_str("mal.client_secret cannot be empty"));
        }
        if self.amazon.password.as_str().is_empty() {
            return Err(String::from_str("amazon.password cannot be empty"));
        }
        if !email_shape_ok(&self.amazon.email) {
            return Err(String::from_str("amazon.email is not a valid e-mail address"));
        }
        Ok(())
    }
}

} // verus!

use vstd::prelude::*;

verus! {

/// The fixed set of external metadata services.
#[derive(Clone, Copy, Debug, PartialEq, Eq, Structural)]
pub enum ServiceType {
    Simkl,
    Tmdb,
    Tvdb,
    Imdb,
    Mal,
}

/// The kind of a resolved media item.
#[derive(Clone, Copy, Debug, PartialEq, Eq, Structural)]
pub enum MediaType {
    Movie,
    Tv,
}

/// Cross-service identifiers for one media item.  Every field starts
/// absent; the single provider that answers a lookup fills only the
/// fields it owns.
pub struct MediaIds {
    pub simkl: Option<String>,
    pub tvdb: Option<String>,
    pub tmdb: Option<String>,
    pub imdb: Option<String>,
    pub mal: Option<String>,
}

/// The resolved record for one metadata query.
pub struct MetadataResult {
    pub ids: MediaIds,
    pub title: String,
    pub year: Option<String>,
    pub media_type: MediaType,
}

/// A per-provider call budget: `calls` calls per `per_seconds` seconds.
#[derive(Clone, Copy, Debug, PartialEq, Eq, Structural)]
pub struct RateLimit {
    pub calls: u32,
    pub per_seconds: u64,
}

/// One rate limit per external service.
#[derive(Clone, Copy, Debug, PartialEq, Eq, Structural)]
pub struct RateLimitConfig {
    pub simkl: RateLimit,
    pub tmdb: RateLimit,
    pub tvdb: RateLimit,
    pub imdb: RateLimit,
    pub mal: RateLimit,
}

impl RateLimitConfig {
    /// The budget configured for one service.
    pub fn limit_for(&self, service: ServiceType) -> (r: RateLimit)
        ensures
            r == spec_limit_for(*self, service),
    {
        match service {
            ServiceType::Simkl => self.simkl,
            ServiceType::Tmdb => self.tmdb,
            ServiceType::Tvdb => self.tvdb,
            ServiceType::Imdb => self.imdb,
            ServiceType::Mal => self.mal,
        }
    }
}

pub open spec fn spec_limit_for(c: RateLimitConfig, service: ServiceType) -> RateLimit {
    match service {
        ServiceType::Simkl => c.simkl,
        ServiceType::Tmdb => c.tmdb,
        ServiceType::Tvdb => c.tvdb,
        ServiceType::Imdb => c.imdb,
        ServiceType::Mal => c.mal,
    }
}

} // verus!

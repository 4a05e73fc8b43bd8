use vstd::prelude::*;
use crate::metadata::models::{MediaIds, MediaType, MetadataResult};
use crate::text::{
    after_first, dec_digits, dec_signed, i32_string, opt_str_is, prefix_before, str_after_first,
    str_prefix_before, u64_string,
};

verus! {

/// The year a provider's date field yields: the text before the first
/// dash of the date, when a date is present at all.
pub open spec fn year_of(date: Option<String>) -> Option<Seq<char>> {
    match date {
        Some(d) => Some(prefix_before(d@, '-')),
        None => None,
    }
}

/// The first of two optional values that is present.
pub open spec fn opt_or(a: Option<String>, b: Option<String>) -> Option<String> {
    if a is Some {
        a
    } else {
        b
    }
}

/// The year cell for a provider date.
fn year_cell(date: &Option<String>) -> (r: Option<String>)
    ensures
        opt_str_is(r, year_of(*date)),
{
    match date {
        Some(d) => Some(str_prefix_before(d.as_str(), '-')),
        None => None,
    }
}

/// The identifier fields of a Simkl response.
pub struct SimklIds {
    pub simkl: String,
    pub imdb: Option<String>,
    pub tmdb: Option<String>,
    pub tvdb: Option<String>,
}

/// One hit of a Simkl search, with the fields the logic reads.
pub struct SimklSearchItem {
    pub title: String,
    pub year: Option<String>,
    pub ids: SimklIds,
}

/// A Simkl details response, with the fields the logic reads.
pub struct SimklDetailsResponse {
    pub title: String,
    pub year: Option<String>,
    pub ids: SimklIds,
}

/// One hit of a TVDB series search.
pub struct TvdbSearchItem {
    pub id: i32,
    pub series_name: String,
    pub first_aired: Option<String>,
}

/// A TVDB series details record.
pub struct TvdbDetailsItem {
    pub id: i32,
    pub series_name: String,
    pub first_aired: Option<String>,
    pub imdb_id: Option<String>,
}

/// One hit of a TMDB search.
pub struct TmdbItem {
    pub id: i32,
    pub title: String,
    pub name: String,
    pub release_date: Option<String>,
    pub first_air_date: Option<String>,
    pub media_type: Option<String>,
}

/// The cross-service identifiers of a TMDB details response.
pub struct TmdbExternalIds {
    pub imdb_id: Option<String>,
    pub tvdb_id: Option<i32>,
}

/// A TMDB details response.
pub struct TmdbDetailsResponse {
    pub id: i32,
    pub title: Option<String>,
    pub name: Option<String>,
    pub release_date: Option<String>,
    pub first_air_date: Option<String>,
    pub external_ids: TmdbExternalIds,
}

/// One MyAnimeList record, as both its search hits and its details
/// responses carry it.
pub struct MalItemDetails {
    pub id: u32,
    pub title: String,
    pub start_date: Option<String>,
}

/// One hit of an IMDB search.
pub struct ImdbItem {
    pub id: String,
    pub title: String,
    pub description: Option<String>,
}

/// An IMDB title details response.
pub struct ImdbDetailsResponse {
    pub id: String,
    pub title: Option<String>,
    pub year: Option<i32>,
}

/// The kind a TMDB hit reports: Tv exactly when its media type field
/// reads `tv`; anything else, or no field at all, counts as a movie.
pub open spec fn tmdb_kind(media_type: Option<String>) -> MediaType {
    match media_type {
        Some(s) => if s@ == "tv"@ {
            MediaType::Tv
        } else {
            MediaType::Movie
        },
        None => MediaType::Movie,
    }
}

/// Whether MyAnimeList can answer a query of this kind at all: the
/// service carries only anime, so only Tv queries go out to it.  A
/// search of any other kind answers with an empty result list, and a
/// details request of any other kind is refused, without a call.
pub fn mal_supports_kind(media_type: MediaType) -> (r: bool)
    ensures
        r == (media_type is Tv),
{
    match media_type {
        MediaType::Tv => true,
        MediaType::Movie => false,
    }
}

/// The year an IMDB description yields: the text after the first `(`,
/// cut at the next `(` or `)`; none when the description holds no `(`.
pub open spec fn imdb_desc_year(s: Seq<char>) -> Option<Seq<char>> {
    match after_first(s, '(') {
        None => None,
        Some(rest) => Some(prefix_before(prefix_before(rest, '('), ')')),
    }
}

impl MetadataResult {
    /// The record a Simkl search hit maps to: Simkl's own identifier
    /// and the cross-service ones it reports, title and year as given.
    /// Simkl does not say the kind; the caller's query decides it.
    pub fn from_simkl_search(item: SimklSearchItem) -> (r: MetadataResult)
        ensures
            r.ids.simkl == Some(item.ids.simkl),
            r.ids.imdb == item.ids.imdb,
            r.ids.tmdb == item.ids.tmdb,
            r.ids.tvdb == item.ids.tvdb,
            r.ids.mal is None,
            r.title == item.title,
            r.year == item.year,
            r.media_type == MediaType::Movie,
    {
        MetadataResult {
            ids: MediaIds {
                simkl: Some(item.ids.simkl),
                imdb: item.ids.imdb,
                tmdb: item.ids.tmdb,
                tvdb: item.ids.tvdb,
                mal: None,
            },
            title: item.title,
            year: item.year,
            media_type: MediaType::Movie,
        }
    }

    /// The record a Simkl details response maps to; the same reading as
    /// a search hit.
    pub fn from_simkl_details(item: SimklDetailsResponse) -> (r: MetadataResult)
        ensures
            r.ids.simkl == Some(item.ids.simkl),
            r.ids.imdb == item.ids.imdb,
            r.ids.tmdb == item.ids.tmdb,
            r.ids.tvdb == item.ids.tvdb,
            r.ids.mal is None,
            r.title == item.title,
            r.year == item.year,
            r.media_type == MediaType::Movie,
    {
        MetadataResult {
            ids: MediaIds {
                simkl: Some(item.ids.simkl),
                imdb: item.ids.imdb,
                tmdb: item.ids.tmdb,
                tvdb: item.ids.tvdb,
                mal: None,
            },
            title: item.title,
            year: item.year,
            media_type: MediaType::Movie,
        }
    }

    /// The record a TVDB search hit maps to: TVDB's numeric identifier
    /// in decimal, the series name, and the year of first airing.
    pub fn from_tvdb_search(item: TvdbSearchItem) -> (r: MetadataResult)
        ensures
            r.ids.tvdb matches Some(s) && s@ == dec_signed(item.id as int),
            r.ids.simkl is None,
            r.ids.imdb is None,
            r.ids.tmdb is None,
            r.ids.mal is None,
            r.title == item.series_name,
            opt_str_is(r.year, year_of(item.first_aired)),
            r.media_type == MediaType::Tv,
    {
        let year = year_cell(&item.first_aired);
        MetadataResult {
            ids: MediaIds {
                simkl: None,
                imdb: None,
                tmdb: None,
                tvdb: Some(i32_string(item.id)),
                mal: None,
            },
            title: item.series_name,
            year,
            media_type: MediaType::Tv,
        }
    }

    /// The record a TVDB details response maps to: as a search hit,
    /// plus the IMDB identifier TVDB reports.
    pub fn from_tvdb_details(item: TvdbDetailsItem) -> (r: MetadataResult)
        ensures
            r.ids.tvdb matches Some(s) && s@ == dec_signed(item.id as int),
            r.ids.imdb == item.imdb_id,
            r.ids.simkl is None,
            r.ids.tmdb is None,
            r.ids.mal is None,
            r.title == item.series_name,
            opt_str_is(r.year, year_of(item.first_aired)),
            r.media_type == MediaType::Tv,
    {
        let year = year_cell(&item.first_aired);
        MetadataResult {
            ids: MediaIds {
                simkl: None,
                imdb: item.imdb_id,
                tmdb: None,
                tvdb: Some(i32_string(item.id)),
                mal: None,
            },
            title: item.series_name,
            year,
            media_type: MediaType::Tv,
        }
    }

    /// The record a TMDB search hit maps to: TMDB's numeric identifier,
    /// the title field unless it is empty (then the name field), the
    /// year of the release or first-air date, and the kind the hit
    /// reports.
    pub fn from_tmdb_search(item: TmdbItem) -> (r: MetadataResult)
        ensures
            r.ids.tmdb matches Some(s) && s@ == dec_signed(item.id as int),
            r.ids.simkl is None,
            r.ids.imdb is None,
            r.ids.tvdb is None,
            r.ids.mal is None,
            item.title@.len() > 0 ==> r.title == item.title,
            item.title@.len() == 0 ==> r.title == item.name,
            opt_str_is(r.year, year_of(opt_or(item.release_date, item.first_air_date))),
            r.media_type == tmdb_kind(item.media_type),
    {
        let title = if item.title.as_str().is_empty() {
            item.name
        } else {
            item.title
        };
        let date = if item.release_date.is_some() {
            item.release_date
        } else {
            item.first_air_date
        };
        let year = year_cell(&date);
        let media_type = match &item.media_type {
            Some(s) => {
                if *s == String::from_str("tv") {
                    MediaType::Tv
                } else {
                    MediaType::Movie
                }
            },
            None => MediaType::Movie,
        };
        MetadataResult {
            ids: MediaIds {
                simkl: None,
                imdb: None,
                tmdb: Some(i32_string(item.id)),
                tvdb: None,
                mal: None,
            },
            title,
            year,
            media_type,
        }
    }

    /// The record a TMDB details response maps to: TMDB's identifier in
    /// decimal with the cross-service identifiers it reports, the title
    /// field (or the name field, or empty), the year of the release or
    /// first-air date, and a movie exactly when a title field is
    /// present.
    pub fn from_tmdb_details(item: TmdbDetailsResponse) -> (r: MetadataResult)
        ensures
            r.ids.tmdb matches Some(s) && s@ == dec_signed(item.id as int),
            r.ids.imdb == item.external_ids.imdb_id,
            item.external_ids.tvdb_id matches Some(n) ==> (r.ids.tvdb matches Some(s) && s@
                == dec_signed(n as int)),
            item.external_ids.tvdb_id is None ==> r.ids.tvdb is None,
            r.ids.simkl is None,
            r.ids.mal is None,
            item.title matches Some(t) ==> r.title == t,
            item.title is None ==> (item.name matches Some(nm) ==> r.title == nm),
            item.title is None && item.name is None ==> r.title@ == Seq::<char>::empty(),
            opt_str_is(r.year, year_of(opt_or(item.release_date, item.first_air_date))),
            r.media_type == (if item.title is Some {
                MediaType::Movie
            } else {
                MediaType::Tv
            }),
    {
        let media_type = if item.title.is_some() {
            MediaType::Movie
        } else {
            MediaType::Tv
        };
        let title = match item.title {
            Some(t) => t,
            None => match item.name {
                Some(nm) => nm,
                None => String::new(),
            },
        };
        let date = if item.release_date.is_some() {
            item.release_date
        } else {
            item.first_air_date
        };
        let year = year_cell(&date);
        let tvdb = match item.external_ids.tvdb_id {
            Some(n) => Some(i32_string(n)),
            None => None,
        };
        MetadataResult {
            ids: MediaIds {
                simkl: None,
                imdb: item.external_ids.imdb_id,
                tmdb: Some(i32_string(item.id)),
                tvdb,
                mal: None,
            },
            title,
            year,
            media_type,
        }
    }

    /// The record a MyAnimeList item maps to, for search hits and
    /// details responses alike: MAL's numeric identifier in decimal,
    /// the title, the year of the start date, always the Tv kind.
    pub fn from_mal_item(item: MalItemDetails) -> (r: MetadataResult)
        ensures
            r.ids.mal matches Some(s) && s@ == dec_digits(item.id as nat),
            r.ids.simkl is None,
            r.ids.imdb is None,
            r.ids.tmdb is None,
            r.ids.tvdb is None,
            r.title == item.title,
            opt_str_is(r.year, year_of(item.start_date)),
            r.media_type == MediaType::Tv,
    {
        let year = year_cell(&item.start_date);
        MetadataResult {
            ids: MediaIds {
                simkl: None,
                imdb: None,
                tmdb: None,
                tvdb: None,
                mal: Some(u64_string(item.id as u64)),
            },
            title: item.title,
            year,
            media_type: MediaType::Tv,
        }
    }

    /// The record an IMDB search hit maps to: IMDB's identifier, the
    /// title, and the year read out of the description's first
    /// parenthesis.
    pub fn from_imdb_search(item: ImdbItem) -> (r: MetadataResult)
        ensures
            r.ids.imdb == Some(item.id),
            r.ids.simkl is None,
            r.ids.tmdb is None,
            r.ids.tvdb is None,
            r.ids.mal is None,
            r.title == item.title,
            item.description is None ==> r.year is None,
            item.description matches Some(d) ==> opt_str_is(r.year, imdb_desc_year(d@)),
            r.media_type == MediaType::Movie,
    {
        let year = match &item.description {
            Some(d) => match str_after_first(d.as_str(), '(') {
                Some(rest) => {
                    let cut = str_prefix_before(rest.as_str(), '(');
                    Some(str_prefix_before(cut.as_str(), ')'))
                },
                None => None,
            },
            None => None,
        };
        MetadataResult {
            ids: MediaIds {
                simkl: None,
                imdb: Some(item.id),
                tmdb: None,
                tvdb: None,
                mal: None,
            },
            title: item.title,
            year,
            media_type: MediaType::Movie,
        }
    }

    /// The record an IMDB details response maps to: the identifier, the
    /// title (or `IMDB-` and the identifier when none came back), and
    /// the year in decimal.
    pub fn from_imdb_details(item: ImdbDetailsResponse) -> (r: MetadataResult)
        ensures
            r.ids.imdb == Some(item.id),
            r.ids.simkl is None,
            r.ids.tmdb is None,
            r.ids.tvdb is None,
            r.ids.mal is None,
            item.title matches Some(t) ==> r.title == t,
            item.title is None ==> r.title@ == "IMDB-"@ + item.id@,
            item.year matches Some(y) ==> (r.year matches Some(s) && s@ == dec_signed(y as int)),
            item.year is None ==> r.year is None,
            r.media_type == MediaType::Movie,
    {
        let title = match item.title {
            Some(t) => t,
            None => {
                let mut t = String::from_str("IMDB-");
                t.append(item.id.as_str());
                t
            },
        };
        let year = match item.year {
            Some(y) => Some(i32_string(y)),
            None => None,
        };
        MetadataResult {
            ids: MediaIds {
                simkl: None,
                imdb: Some(item.id),
                tmdb: None,
                tvdb: None,
                mal: None,
            },
            title,
            year,
            media_type: MediaType::Movie,
        }
    }
}

} // verus!

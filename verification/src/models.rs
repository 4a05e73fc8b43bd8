use vstd::prelude::*;
use crate::scraping::models::{date_valid, format_ymd, spec_format_ymd, HistoryItem};
use crate::scraping::models::MediaType as ScrapedMediaType;
use crate::text::dec_pad2;

verus! {

/// The kind of a watched item, as recorded in the watch history.
#[derive(Clone, Copy, Debug, PartialEq, Eq, Structural)]
pub enum MediaType {
    Movie,
    Tv,
}

/// The watch status carried into the output record set.
#[derive(Clone, Copy, Debug, PartialEq, Eq, Structural)]
pub enum WatchStatus {
    Completed,
    Watching,
    Planned,
    Dropped,
}

/// One watched-media event, as handed over by the scraping collaborator.
/// The `date` is a calendar day formatted `YYYY-MM-DD`, so that the
/// lexicographic order on the string is the chronological order.
pub struct WatchHistoryItem {
    pub simkl_id: Option<String>,
    pub tvdb_id: Option<String>,
    pub tmdb_id: Option<String>,
    pub imdb_id: Option<String>,
    pub mal_id: Option<String>,
    pub media_type: MediaType,
    pub title: String,
    pub year: Option<String>,
    pub episode: Option<String>,
    pub watch_status: WatchStatus,
    pub date: String,
    pub rating: Option<u8>,
    pub memo: Option<String>,
}

/// The episode label a scraped show entry carries into the history:
/// `S` and the two-digit season when one is known, `E` and the
/// two-digit episode when one is known, and the episode title after a
/// dash when one is listed (alone, when nothing else is).
pub open spec fn episode_label(
    season: Option<u32>,
    episode: Option<u32>,
    episode_title: Option<String>,
) -> Seq<char> {
    let se = match season {
        Some(s) => seq!['S'] + dec_pad2(s as nat),
        None => Seq::<char>::empty(),
    };
    let ep = match episode {
        Some(e) => se + seq!['E'] + dec_pad2(e as nat),
        None => se,
    };
    match episode_title {
        Some(t) => if ep.len() > 0 {
            ep + seq![' ', '-', ' '] + t@
        } else {
            t@
        },
        None => ep,
    }
}

impl WatchHistoryItem {
    /// Turn one scraped entry into a watch-history event: the title as
    /// scraped, the watched date written `YYYY-MM-DD`, a movie or a
    /// show by the scraped kind, and for a show the episode label.  The
    /// identifiers start absent (lookup fills them in the processed
    /// record), the status is completed, year, rating and memo are not
    /// scraped.
    pub fn from_history_item(item: HistoryItem) -> (r: WatchHistoryItem)
        requires
            date_valid(item.watched_at),
        ensures
            r.simkl_id is None,
            r.tvdb_id is None,
            r.tmdb_id is None,
            r.imdb_id is None,
            r.mal_id is None,
            r.media_type == (match item.media_type {
                ScrapedMediaType::Movie => MediaType::Movie,
                ScrapedMediaType::TvShow { .. } => MediaType::Tv,
            }),
            r.title == item.title,
            r.year is None,
            item.media_type is Movie ==> r.episode is None,
            (item.media_type matches ScrapedMediaType::TvShow { season, episode, episode_title }
                ==> (r.episode matches Some(l) && l@ == episode_label(
                season,
                episode,
                episode_title,
            ))),
            r.watch_status == WatchStatus::Completed,
            r.date@ == spec_format_ymd(item.watched_at),
            r.rating is None,
            r.memo is None,
    {
        let date = format_ymd(&item.watched_at);
        let (media_type, episode) = match item.media_type {
            ScrapedMediaType::Movie => (MediaType::Movie, None),
            ScrapedMediaType::TvShow { season, episode, episode_title } => {
                let ghost gtitle = episode_title;
                let mut label = String::new();
                if let Some(s) = season {
                    label.push('S');
                    let p = crate::text::u32_pad2(s);
                    label.append(p.as_str());
                }
                if let Some(e) = episode {
                    label.push('E');
                    let p = crate::text::u32_pad2(e);
                    label.append(p.as_str());
                }
                match episode_title {
                    Some(t) => {
                        if label.as_str().is_empty() {
                            label = t;
                        } else {
                            label.append(" - ");
                            label.append(t.as_str());
                        }
                    },
                    None => {},
                }
                proof {
                    reveal_strlit(" - ");
                    assert(label@ =~= episode_label(season, episode, gtitle));
                }
                (MediaType::Tv, Some(label))
            },
        };
        WatchHistoryItem {
            simkl_id: None,
            tvdb_id: None,
            tmdb_id: None,
            imdb_id: None,
            mal_id: None,
            media_type,
            title: item.title,
            year: None,
            episode,
            watch_status: WatchStatus::Completed,
            date,
            rating: None,
            memo: None,
        }
    }
}

} // verus!

use vstd::prelude::*;
use crate::config::OutputConfig;
use crate::metadata::models::MediaType;
use crate::processor::history_processor::ProcessedItem;

verus! {

/// The view of an optional cell: its text, or empty when absent.
pub open spec fn or_empty(o: Option<String>) -> Seq<char> {
    match o {
        Some(s) => s@,
        None => Seq::empty(),
    }
}

/// The views of one row's cells.
pub open spec fn cell_views(row: Seq<String>) -> Seq<Seq<char>> {
    row.map_values(|s: String| s@)
}

/// The header row of the produced sheet.
pub open spec fn header_cells() -> Seq<Seq<char>> {
    seq![
        "simkl_id"@,
        "TVDB_ID"@,
        "TMDB"@,
        "IMDB_ID"@,
        "MAL_ID"@,
        "Type"@,
        "Title"@,
        "Year"@,
        "LastEpWatched"@,
        "Watchlist"@,
        "WatchedDate"@,
        "Rating"@,
        "Memo"@,
    ]
}

/// The watch-status cell: a movie is completed; a Tv record is watching
/// while an episode label is present and nonempty, completed otherwise.
pub open spec fn status_cell(item: ProcessedItem) -> Seq<char> {
    match item.media_type {
        MediaType::Movie => "completed"@,
        MediaType::Tv => if or_empty(item.episode).len() == 0 {
            "completed"@
        } else {
            "watching"@
        },
    }
}

/// The thirteen cells one processed record becomes: its five service
/// identifiers (absent ones empty), its kind, title, year, last episode
/// watched, watch status, watched date, and empty rating and memo.
pub open spec fn row_cells(item: ProcessedItem) -> Seq<Seq<char>> {
    seq![
        or_empty(item.metadata.ids.simkl),
        or_empty(item.metadata.ids.tvdb),
        or_empty(item.metadata.ids.tmdb),
        or_empty(item.metadata.ids.imdb),
        or_empty(item.metadata.ids.mal),
        match item.media_type {
            MediaType::Movie => "movie"@,
            MediaType::Tv => "tv"@,
        },
        item.title@,
        or_empty(item.metadata.year),
        or_empty(item.episode),
        status_cell(item),
        item.date@,
        Seq::empty(),
        Seq::empty(),
    ]
}

/// Turns processed records into the rows of the output sheet; writing
/// them out is its caller's business.
pub struct CsvGenerator {
    pub output_path: String,
}

/// A cell's text, or the empty cell when it is absent.
fn cell_of(o: Option<String>) -> (r: String)
    ensures
        r@ == or_empty(o),
{
    match o {
        Some(s) => s,
        None => String::new(),
    }
}

impl CsvGenerator {
    /// A generator aimed at the configured output path.
    pub fn new(config: OutputConfig) -> (r: CsvGenerator)
        ensures
            r.output_path == config.path,
    {
        CsvGenerator { output_path: config.path }
    }

    /// The header row.
    pub fn header_record() -> (r: Vec<String>)
        ensures
            cell_views(r@) == header_cells(),
    {
        let mut row: Vec<String> = Vec::new();
        row.push(String::from_str("simkl_id"));
        row.push(String::from_str("TVDB_ID"));
        row.push(String::from_str("TMDB"));
        row.push(String::from_str("IMDB_ID"));
        row.push(String::from_str("MAL_ID"));
        row.push(String::from_str("Type"));
        row.push(String::from_str("Title"));
        row.push(String::from_str("Year"));
        row.push(String::from_str("LastEpWatched"));
        row.push(String::from_str("Watchlist"));
        row.push(String::from_str("WatchedDate"));
        row.push(String::from_str("Rating"));
        row.push(String::from_str("Memo"));
        proof {
            assert(cell_views(row@) =~= header_cells());
        }
        row
    }

    /// The row one processed record becomes.
    pub fn record_row(item: ProcessedItem) -> (r: Vec<String>)
        ensures
            cell_views(r@) == row_cells(item),
    {
        let type_cell = match item.media_type {
            MediaType::Movie => String::from_str("movie"),
            MediaType::Tv => String::from_str("tv"),
        };
        let episode_cell = cell_of(item.episode);
        let status = match item.media_type {
            MediaType::Movie => String::from_str("completed"),
            MediaType::Tv => {
                if episode_cell.as_str().is_empty() {
                    String::from_str("completed")
                } else {
                    String::from_str("watching")
                }
            },
        };
        let mut row: Vec<String> = Vec::new();
        row.push(cell_of(item.metadata.ids.simkl));
        row.push(cell_of(item.metadata.ids.tvdb));
        row.push(cell_of(item.metadata.ids.tmdb));
        row.push(cell_of(item.metadata.ids.imdb));
        row.push(cell_of(item.metadata.ids.mal));
        row.push(type_cell);
        row.push(item.title);
        row.push(cell_of(item.metadata.year));
        row.push(episode_cell);
        row.push(status);
        row.push(item.date);
        row.push(String::new());
        row.push(String::new());
        proof {
            assert(cell_views(row@) =~= row_cells(item));
        }
        row
    }

    /// Every row of the sheet: the header first, then one row per
    /// record, in the records' order.
    #[verifier::loop_isolation(false)]
    pub fn rows(&self, items: Vec<ProcessedItem>) -> (r: Vec<Vec<String>>)
        ensures
            r@.len() == items@.len() + 1,
            cell_views(r@[0]@) == header_cells(),
            forall|i: int|
                0 <= i < items@.len() ==> cell_views(#[trigger] r@[i + 1]@) == row_cells(
                    items@[i],
                ),
    {
        let ghost all = items@;
        let mut rest = items;
        let total: usize = rest.len();
        let mut out: Vec<Vec<String>> = Vec::new();
        out.push(Self::header_record());
        let mut i: usize = 0;
        proof {
            assert(rest@ =~= all.skip(0));
        }
        loop
            invariant
                i <= total,
                total == all.len(),
                rest@ =~= all.skip(i as int),
                out@.len() == i + 1,
                cell_views(out@[0]@) == header_cells(),
                forall|j: int|
                    0 <= j < i ==> cell_views(#[trigger] out@[j + 1]@) == row_cells(all[j]),
            decreases all.len() - i,
        {
            if rest.len() == 0 {
                return out;
            }
            let item = rest.remove(0);
            proof {
                assert(item == all[i as int]);
                assert(rest@ =~= all.skip(i + 1));
            }
            out.push(Self::record_row(item));
            i = i + 1;
        }
    }
}

} // verus!

use vstd::prelude::*;
use crate::error::AppError;
use crate::metadata::models::{MediaType, MetadataResult};
use crate::models::MediaType as EventMediaType;
use crate::models::WatchHistoryItem;
use crate::text::{lemma_lex_irrefl, lemma_lex_total, lemma_lex_trans, lex_lt, string_lt};

verus! {

broadcast use vstd::seq_lib::group_seq_lib_default;

/// An event takes part in title-keyed deduplication exactly when its
/// media kind is Tv; movie-kind events are processed one by one,
/// whatever else they carry.
pub open spec fn is_tv_event(it: WatchHistoryItem) -> bool {
    it.media_type is Tv
}

/// The media-kind test, as executable code.
fn event_is_tv(it: &WatchHistoryItem) -> (r: bool)
    ensures
        r == is_tv_event(*it),
{
    match it.media_type {
        EventMediaType::Tv => true,
        EventMediaType::Movie => false,
    }
}

/// The movie test, as a reusable predicate.
pub open spec fn movie_pred() -> spec_fn(WatchHistoryItem) -> bool {
    |it: WatchHistoryItem| !is_tv_event(it)
}

/// The test for a Tv event with one given title, as a reusable
/// predicate.
pub open spec fn tv_with_title(t: Seq<char>) -> spec_fn(WatchHistoryItem) -> bool {
    |it: WatchHistoryItem| is_tv_event(it) && it.title@ == t
}

/// The movie-kind events, in input order.
pub open spec fn movies_of(s: Seq<WatchHistoryItem>) -> Seq<WatchHistoryItem> {
    s.filter(movie_pred())
}

/// The distinct titles of the Tv-kind events, in first-occurrence order.
pub open spec fn tv_titles(s: Seq<WatchHistoryItem>) -> Seq<Seq<char>>
    decreases s.len(),
{
    if s.len() == 0 {
        Seq::empty()
    } else {
        let pre = tv_titles(s.drop_last());
        if is_tv_event(s.last()) && !pre.contains(s.last().title@) {
            pre.push(s.last().title@)
        } else {
            pre
        }
    }
}

/// The Tv-kind events with the given title, in input order.
pub open spec fn tv_group(s: Seq<WatchHistoryItem>, t: Seq<char>) -> Seq<WatchHistoryItem> {
    s.filter(tv_with_title(t))
}

/// The survivor of a nonempty event group: the event with the greatest
/// watched date; when several share it, the last of them.
pub open spec fn latest_of(g: Seq<WatchHistoryItem>) -> WatchHistoryItem
    recommends
        g.len() > 0,
    decreases g.len(),
{
    if g.len() <= 1 {
        g[0]
    } else {
        let prev = latest_of(g.drop_last());
        if lex_lt(g.last().date@, prev.date@) {
            prev
        } else {
            g.last()
        }
    }
}

/// One surviving record per distinct Tv title, in first-occurrence order
/// of the titles.
pub open spec fn tv_part(s: Seq<WatchHistoryItem>) -> Seq<WatchHistoryItem> {
    tv_titles(s).map_values(|t: Seq<char>| latest_of(tv_group(s, t)))
}

/// What deduplication leaves: every movie event unchanged and in order,
/// followed by one record per distinct Tv title.
pub open spec fn dedup_spec(s: Seq<WatchHistoryItem>) -> Seq<WatchHistoryItem> {
    movies_of(s) + tv_part(s)
}

/// The views of a vector of titles.
pub open spec fn seq_views(ts: Seq<String>) -> Seq<Seq<char>> {
    ts.map_values(|s: String| s@)
}

/// A pushed sequence contains exactly the pushed element and what the
/// sequence already contained.
proof fn lemma_contains_push<A>(s: Seq<A>, x: A, y: A)
    ensures
        s.push(x).contains(y) <==> (x == y || s.contains(y)),
{
    assert(s.push(x)[s.len() as int] == x);
    if s.contains(y) {
        let i = choose|i: int| 0 <= i < s.len() && s[i] == y;
        assert(s.push(x)[i] == y);
    }
    if s.push(x).contains(y) {
        let i = choose|i: int| 0 <= i < s.push(x).len() && s.push(x)[i] == y;
        if i < s.len() {
            assert(s[i] == y);
        }
    }
}

/// One step of the movie filter along a prefix of the input.
proof fn lemma_movies_take_step(s: Seq<WatchHistoryItem>, i: int)
    requires
        0 <= i < s.len(),
    ensures
        movies_of(s.take(i + 1)) == if !is_tv_event(s[i]) {
            movies_of(s.take(i)).push(s[i])
        } else {
            movies_of(s.take(i))
        },
{
    reveal(Seq::filter);
    assert(s.take(i + 1).drop_last() =~= s.take(i));
    assert(s.take(i + 1).last() == s[i]);
}

/// One step of a title group along a prefix of the input.
proof fn lemma_tv_group_take_step(s: Seq<WatchHistoryItem>, t: Seq<char>, i: int)
    requires
        0 <= i < s.len(),
    ensures
        tv_group(s.take(i + 1), t) == if is_tv_event(s[i]) && s[i].title@ == t {
            tv_group(s.take(i), t).push(s[i])
        } else {
            tv_group(s.take(i), t)
        },
{
    reveal(Seq::filter);
    assert(s.take(i + 1).drop_last() =~= s.take(i));
    assert(s.take(i + 1).last() == s[i]);
}

/// One step of the distinct-title list along a prefix of the input.
proof fn lemma_tv_titles_take_step(s: Seq<WatchHistoryItem>, i: int)
    requires
        0 <= i < s.len(),
    ensures
        tv_titles(s.take(i + 1)) == if is_tv_event(s[i]) && !tv_titles(s.take(i)).contains(
            s[i].title@,
        ) {
            tv_titles(s.take(i)).push(s[i].title@)
        } else {
            tv_titles(s.take(i))
        },
{
    assert(s.take(i + 1).drop_last() =~= s.take(i));
    assert(s.take(i + 1).last() == s[i]);
}

/// Appending one event extends a nonempty group's survivor exactly when
/// the new event's date is not below the survivor's.
proof fn lemma_latest_push(g: Seq<WatchHistoryItem>, it: WatchHistoryItem)
    requires
        g.len() > 0,
    ensures
        latest_of(g.push(it)) == if lex_lt(it.date@, latest_of(g).date@) {
            latest_of(g)
        } else {
            it
        },
{
    assert(g.push(it).drop_last() =~= g);
    assert(g.push(it).last() == it);
}

/// A title stands among the Tv titles exactly when its group is
/// nonempty.
proof fn lemma_title_group(s: Seq<WatchHistoryItem>, t: Seq<char>)
    ensures
        tv_titles(s).contains(t) <==> tv_group(s, t).len() > 0,
    decreases s.len(),
{
    reveal(Seq::filter);
    if s.len() == 0 {
        assert(!tv_titles(s).contains(t));
        assert(tv_group(s, t).len() == 0);
    } else {
        let pre = s.drop_last();
        let it = s.last();
        lemma_title_group(pre, t);
        assert(tv_group(s, t) == if is_tv_event(it) && it.title@ == t {
            tv_group(pre, t).push(it)
        } else {
            tv_group(pre, t)
        });
        if is_tv_event(it) && !tv_titles(pre).contains(it.title@) {
            lemma_contains_push(tv_titles(pre), it.title@, t);
        }
    }
}

/// Copy an optional string, field for field.
fn clone_opt_string(o: &Option<String>) -> (r: Option<String>)
    ensures
        r == *o,
{
    match o {
        Some(s) => Some(s.clone()),
        None => None,
    }
}

/// Copy one event, field for field.
fn clone_item(it: &WatchHistoryItem) -> (r: WatchHistoryItem)
    ensures
        r == *it,
{
    WatchHistoryItem {
        simkl_id: clone_opt_string(&it.simkl_id),
        tvdb_id: clone_opt_string(&it.tvdb_id),
        tmdb_id: clone_opt_string(&it.tmdb_id),
        imdb_id: clone_opt_string(&it.imdb_id),
        mal_id: clone_opt_string(&it.mal_id),
        media_type: it.media_type,
        title: it.title.clone(),
        year: clone_opt_string(&it.year),
        episode: clone_opt_string(&it.episode),
        watch_status: it.watch_status,
        date: it.date.clone(),
        rating: it.rating,
        memo: clone_opt_string(&it.memo),
    }
}

/// Whether one of the collected titles reads the same as `t`.
fn titles_contain(titles: &Vec<String>, t: &String) -> (r: bool)
    ensures
        r == seq_views(titles@).contains(t@),
{
    let n = titles.len();
    for i in 0..n
        invariant
            n == titles@.len(),
            forall|j: int| 0 <= j < i ==> titles@[j]@ != t@,
    {
        if titles[i] == *t {
            assert(seq_views(titles@)[i as int] == t@);
            return true;
        }
    }
    proof {
        if seq_views(titles@).contains(t@) {
            let j = choose|j: int|
                0 <= j < seq_views(titles@).len() && seq_views(titles@)[j] == t@;
            assert(titles@[j]@ == t@);
        }
    }
    false
}

/// Collapse the watch history before lookup: movie events pass through
/// untouched and in order; the Tv events of each title collapse to the
/// single latest-watched one (on equal dates, the last seen wins).
#[verifier::loop_isolation(false)]
pub fn deduplicate(items: Vec<WatchHistoryItem>) -> (r: Vec<WatchHistoryItem>)
    ensures
        r@ == dedup_spec(items@),
{
    let n = items.len();
    proof {
        assert(items@.take(n as int) =~= items@);
        assert(items@.take(0) =~= Seq::<WatchHistoryItem>::empty());
        reveal(Seq::filter);
    }
    // movie events, in order
    let mut movies: Vec<WatchHistoryItem> = Vec::new();
    for i in 0..n
        invariant
            movies@ == movies_of(items@.take(i as int)),
    {
        proof {
            lemma_movies_take_step(items@, i as int);
        }
        if !event_is_tv(&items[i]) {
            let m = clone_item(&items[i]);
            movies.push(m);
        }
    }
    // distinct Tv titles, in first-occurrence order
    let mut titles: Vec<String> = Vec::new();
    proof {
        assert(seq_views(titles@) =~= tv_titles(items@.take(0)));
    }
    for i in 0..n
        invariant
            seq_views(titles@) == tv_titles(items@.take(i as int)),
    {
        proof {
            lemma_tv_titles_take_step(items@, i as int);
        }
        if event_is_tv(&items[i]) {
            let present = titles_contain(&titles, &items[i].title);
            if !present {
                let t = items[i].title.clone();
                titles.push(t);
                proof {
                    assert(seq_views(titles@) =~= tv_titles(items@.take(i + 1)));
                }
            }
        }
    }
    // one survivor per title
    let mut reps: Vec<WatchHistoryItem> = Vec::new();
    let tn = titles.len();
    for k in 0..tn
        invariant
            tn == titles@.len(),
            reps@.len() == k,
            forall|j: int| 0 <= j < k ==> reps@[j] == latest_of(tv_group(items@, titles@[j]@)),
    {
        let t = &titles[k];
        proof {
            assert(seq_views(titles@)[k as int] == t@);
            assert(tv_titles(items@).contains(t@));
            lemma_title_group(items@, t@);
        }
        let mut cur: Option<WatchHistoryItem> = None;
        for i in 0..n
            invariant
                t@ == titles@[k as int]@,
                tv_group(items@.take(i as int), t@).len() == 0 <==> cur is None,
                cur matches Some(c) ==> c == latest_of(tv_group(items@.take(i as int), t@)),
        {
            proof {
                lemma_tv_group_take_step(items@, t@, i as int);
            }
            let it = &items[i];
            if event_is_tv(it) && it.title == *t {
                let replace = match &cur {
                    None => true,
                    Some(c) => !string_lt(&it.date, &c.date),
                };
                proof {
                    let g = tv_group(items@.take(i as int), t@);
                    if g.len() > 0 {
                        lemma_latest_push(g, items@[i as int]);
                    } else {
                        assert(tv_group(items@.take(i + 1), t@) =~= seq![items@[i as int]]);
                    }
                }
                if replace {
                    cur = Some(clone_item(it));
                }
            }
        }
        proof {
            assert(items@.take(n as int) =~= items@);
        }
        match cur {
            Some(c) => {
                reps.push(c);
            },
            None => {
                proof {
                    assert(false);
                }
            },
        }
    }
    // movies first, then the Tv survivors
    proof {
        assert(reps@ =~= tv_part(items@)) by {
            assert(forall|j: int|
                0 <= j < tn ==> seq_views(titles@)[j] == #[trigger] titles@[j]@);
        }
    }
    let mut out = movies;
    out.append(&mut reps);
    proof {
        assert(out@ == dedup_spec(items@));
    }
    out
}

/// A filter keeps everything when every element passes.
proof fn lemma_filter_all<A>(s: Seq<A>, pred: spec_fn(A) -> bool)
    requires
        forall|i: int| 0 <= i < s.len() ==> pred(s[i]),
    ensures
        s.filter(pred) == s,
    decreases s.len(),
{
    reveal(Seq::filter);
    if s.len() > 0 {
        lemma_filter_all(s.drop_last(), pred);
        assert(s.drop_last().push(s.last()) =~= s);
    }
}

/// A filter keeps nothing when no element passes.
proof fn lemma_filter_none<A>(s: Seq<A>, pred: spec_fn(A) -> bool)
    requires
        forall|i: int| 0 <= i < s.len() ==> !pred(s[i]),
    ensures
        s.filter(pred) == Seq::<A>::empty(),
    decreases s.len(),
{
    reveal(Seq::filter);
    if s.len() > 0 {
        lemma_filter_none(s.drop_last(), pred);
    } else {
        assert(s =~= Seq::<A>::empty());
    }
}

/// A filter that passes at exactly one position keeps exactly that
/// element.
proof fn lemma_filter_single<A>(s: Seq<A>, pred: spec_fn(A) -> bool, j: int)
    requires
        0 <= j < s.len(),
        pred(s[j]),
        forall|i: int| 0 <= i < s.len() && i != j ==> !pred(s[i]),
    ensures
        s.filter(pred) == seq![s[j]],
    decreases s.len(),
{
    reveal(Seq::filter);
    let pre = s.drop_last();
    if j == s.len() - 1 {
        lemma_filter_none(pre, pred);
        assert(s.filter(pred) =~= seq![s[j]]);
    } else {
        lemma_filter_single(pre, pred, j);
        assert(pre[j] == s[j]);
    }
}

/// The distinct-title list holds no title twice.
proof fn lemma_titles_distinct(s: Seq<WatchHistoryItem>)
    ensures
        forall|i: int, j: int|
            0 <= i < j < tv_titles(s).len() ==> tv_titles(s)[i] != tv_titles(s)[j],
    decreases s.len(),
{
    if s.len() > 0 {
        lemma_titles_distinct(s.drop_last());
        let pre = tv_titles(s.drop_last());
        let ts = tv_titles(s);
        if is_tv_event(s.last()) && !pre.contains(s.last().title@) {
            assert forall|i: int, j: int| 0 <= i < j < ts.len() implies ts[i] != ts[j] by {
                if j == pre.len() {
                    if pre[i] == s.last().title@ {
                        assert(pre.contains(s.last().title@));
                    }
                }
            }
        }
    }
}

/// Every member of a title's group is a Tv event carrying that title.
proof fn lemma_group_members(s: Seq<WatchHistoryItem>, t: Seq<char>)
    ensures
        forall|i: int|
            0 <= i < tv_group(s, t).len() ==> is_tv_event(#[trigger] tv_group(s, t)[i])
                && tv_group(s, t)[i].title@ == t,
{
    assert forall|i: int|
        0 <= i < tv_group(s, t).len() implies is_tv_event(#[trigger] tv_group(s, t)[i])
        && tv_group(s, t)[i].title@ == t by {
        assert(tv_with_title(t)(tv_group(s, t)[i]));
    }
}

/// The survivor of a nonempty group is one of its members.
proof fn lemma_latest_in(g: Seq<WatchHistoryItem>)
    requires
        g.len() > 0,
    ensures
        g.contains(latest_of(g)),
    decreases g.len(),
{
    if g.len() == 1 {
        assert(g[0] == latest_of(g));
    } else {
        lemma_latest_in(g.drop_last());
        let prev = latest_of(g.drop_last());
        if lex_lt(g.last().date@, prev.date@) {
            let i = choose|i: int| 0 <= i < g.drop_last().len() && g.drop_last()[i] == prev;
            assert(g[i] == prev);
        } else {
            assert(g[g.len() - 1] == latest_of(g));
        }
    }
}

/// The survivor's date is not below any member's date.
proof fn lemma_latest_max(g: Seq<WatchHistoryItem>)
    requires
        g.len() > 0,
    ensures
        forall|i: int| 0 <= i < g.len() ==> !lex_lt(latest_of(g).date@, (#[trigger] g[i]).date@),
    decreases g.len(),
{
    if g.len() == 1 {
        lemma_lex_irrefl(g[0].date@);
    } else {
        lemma_latest_max(g.drop_last());
        let prev = latest_of(g.drop_last());
        let last = g.last();
        assert forall|i: int|
            0 <= i < g.len() implies !lex_lt(latest_of(g).date@, (#[trigger] g[i]).date@) by {
            if lex_lt(last.date@, prev.date@) {
                if i == g.len() - 1 {
                    if lex_lt(prev.date@, last.date@) {
                        lemma_lex_trans(last.date@, prev.date@, last.date@);
                        lemma_lex_irrefl(last.date@);
                    }
                } else {
                    assert(g.drop_last()[i] == g[i]);
                }
            } else {
                if i < g.len() - 1 {
                    assert(g.drop_last()[i] == g[i]);
                    assert(!lex_lt(prev.date@, g[i].date@));
                    if lex_lt(last.date@, g[i].date@) {
                        lemma_lex_total(g[i].date@, prev.date@);
                        if lex_lt(g[i].date@, prev.date@) {
                            lemma_lex_trans(last.date@, g[i].date@, prev.date@);
                        }
                    }
                } else {
                    lemma_lex_irrefl(last.date@);
                }
            }
        }
    }
}

/// Law: among the Tv-kind events that share one title, exactly one
/// record survives deduplication; it is one of those events, and its
/// watched date is not below any of their dates (so it carries the
/// greatest date; on equal greatest dates the last-seen event is the
/// one kept, by `latest_of`).
pub proof fn lemma_dedup_tv_latest(items: Seq<WatchHistoryItem>, t: Seq<char>)
    requires
        tv_group(items, t).len() > 0,
    ensures
        ({
            let survivors = dedup_spec(items).filter(tv_with_title(t));
            &&& survivors.len() == 1
            &&& tv_group(items, t).contains(survivors[0])
            &&& forall|i: int|
                0 <= i < tv_group(items, t).len() ==> !lex_lt(
                    survivors[0].date@,
                    (#[trigger] tv_group(items, t)[i]).date@,
                )
        }),
{
    let pred = tv_with_title(t);
    let ms = movies_of(items);
    let tp = tv_part(items);
    let titles = tv_titles(items);
    assert(dedup_spec(items).filter(pred) == ms.filter(pred) + tp.filter(pred));
    // no movie record passes the Tv test
    assert forall|i: int| 0 <= i < ms.len() implies !pred(#[trigger] ms[i]) by {
        assert(movie_pred()(ms[i]));
    }
    lemma_filter_none(ms, pred);
    // the survivors pass it exactly at this title's position
    lemma_title_group(items, t);
    let j0 = choose|j: int| 0 <= j < titles.len() && titles[j] == t;
    lemma_titles_distinct(items);
    assert forall|j: int| 0 <= j < tp.len() implies pred(#[trigger] tp[j]) == (j == j0) by {
        assert(titles.contains(titles[j]));
        lemma_title_group(items, titles[j]);
        let g = tv_group(items, titles[j]);
        lemma_latest_in(g);
        lemma_group_members(items, titles[j]);
        let i = choose|i: int| 0 <= i < g.len() && g[i] == latest_of(g);
        assert(tp[j] == latest_of(g));
        assert(tp[j].title@ == titles[j]);
        assert(is_tv_event(tp[j]));
    }
    lemma_filter_single(tp, pred, j0);
    let g0 = tv_group(items, t);
    assert(dedup_spec(items).filter(pred) =~= seq![latest_of(g0)]);
    lemma_latest_in(g0);
    lemma_latest_max(g0);
}

/// Law: movie-kind events are never merged: the movie-kind records of
/// the deduplicated output are exactly the movie-kind input events, in
/// order, so N movie events always yield N movie records.
pub proof fn lemma_dedup_movies(items: Seq<WatchHistoryItem>)
    ensures
        dedup_spec(items).filter(movie_pred()) == movies_of(items),
{
    let ms = movies_of(items);
    let tp = tv_part(items);
    let titles = tv_titles(items);
    assert(dedup_spec(items).filter(movie_pred()) == ms.filter(movie_pred()) + tp.filter(
        movie_pred(),
    ));
    assert forall|i: int| 0 <= i < ms.len() implies movie_pred()(#[trigger] ms[i]) by {}
    lemma_filter_all(ms, movie_pred());
    assert forall|j: int| 0 <= j < tp.len() implies !movie_pred()(#[trigger] tp[j]) by {
        assert(titles.contains(titles[j]));
        lemma_title_group(items, titles[j]);
        let g = tv_group(items, titles[j]);
        lemma_latest_in(g);
        lemma_group_members(items, titles[j]);
        let i = choose|i: int| 0 <= i < g.len() && g[i] == latest_of(g);
        assert(tp[j] == latest_of(g));
        assert(is_tv_event(tp[j]));
    }
    lemma_filter_none(tp, movie_pred());
    assert(ms + Seq::<WatchHistoryItem>::empty() =~= ms);
}

/// The kind a lookup uses for an event: its own media kind.
pub open spec fn spec_effective_type(it: WatchHistoryItem) -> MediaType {
    match it.media_type {
        EventMediaType::Movie => MediaType::Movie,
        EventMediaType::Tv => MediaType::Tv,
    }
}

/// The final unit handed to the output stage: the originating event's
/// fields together with the resolved metadata.
pub struct ProcessedItem {
    pub title: String,
    pub date: String,
    pub media_type: MediaType,
    pub metadata: MetadataResult,
    pub episode: Option<String>,
}

/// The record an event and its resolved metadata become.
pub open spec fn spec_processed(it: WatchHistoryItem, meta: MetadataResult) -> ProcessedItem {
    ProcessedItem {
        title: it.title,
        date: it.date,
        media_type: spec_effective_type(it),
        metadata: meta,
        episode: it.episode,
    }
}

/// A record carries exactly its originating event's fields.
pub open spec fn record_matches(r: ProcessedItem, it: WatchHistoryItem) -> bool {
    &&& r.title == it.title
    &&& r.date == it.date
    &&& r.episode == it.episode
    &&& r.media_type == spec_effective_type(it)
}

impl ProcessedItem {
    /// Build one output record from an event and its metadata.
    pub fn from_watch_history(item: WatchHistoryItem, metadata: MetadataResult) -> (r:
        ProcessedItem)
        ensures
            r == spec_processed(item, metadata),
    {
        let media_type = match item.media_type {
            EventMediaType::Movie => MediaType::Movie,
            EventMediaType::Tv => MediaType::Tv,
        };
        ProcessedItem {
            title: item.title,
            date: item.date,
            media_type,
            metadata,
            episode: item.episode,
        }
    }
}

/// How many times one item's lookup is attempted before the batch
/// fails.
pub const MAX_ATTEMPTS: u8 = 3;

/// The batch enrichment processor: its one parameter is the cap on
/// concurrently in-flight lookups.
pub struct HistoryProcessor {
    pub max_concurrent: usize,
}

impl Default for HistoryProcessor {
    /// At most five concurrent lookups, the configured default.
    fn default() -> (r: HistoryProcessor)
        ensures
            r.max_concurrent == 5,
    {
        HistoryProcessor { max_concurrent: 5 }
    }
}

impl HistoryProcessor {
    /// A processor with the given concurrency cap.
    pub fn new(max_concurrent: usize) -> (r: HistoryProcessor)
        requires
            1 <= max_concurrent,
        ensures
            r.max_concurrent == max_concurrent,
    {
        HistoryProcessor { max_concurrent }
    }

    /// Deduplicate the input and set up the batch: the worklist is the
    /// deduplicated event list, nothing processed yet, first attempt.
    pub fn begin(&self, items: Vec<WatchHistoryItem>) -> (st: BatchState)
        ensures
            st.wf(),
            st.work@ == dedup_spec(items@),
            st.pos == 0,
            st.attempt == 0,
            st.processed@ == Seq::<ProcessedItem>::empty(),
            st.failure is None,
    {
        BatchState {
            work: deduplicate(items),
            pos: 0,
            attempt: 0,
            processed: Vec::new(),
            failure: None,
        }
    }
}

/// What the batch asks its driver to do next.
pub enum BatchStep {
    /// Resolve this title through the provider chain; `attempt` counts
    /// the failures already seen for the current item.
    Lookup { title: String, media_type: MediaType, attempt: u8 },
    /// Every worklist item has a record.
    Finished,
    /// The batch failed terminally; no record set is produced.
    Failed,
}

/// The progress of one batch through its worklist.  The driver performs
/// the lookups; this state decides what comes next and assembles the
/// records.
pub struct BatchState {
    pub work: Vec<WatchHistoryItem>,
    pub pos: usize,
    pub attempt: u8,
    pub processed: Vec<ProcessedItem>,
    pub failure: Option<AppError>,
}

impl BatchState {
    /// One record per completed worklist item, each carrying its
    /// event's fields; the attempt counter stays below the retry bound;
    /// a failure can only point at an unfinished item.
    pub open spec fn wf(&self) -> bool {
        &&& self.pos <= self.work@.len()
        &&& self.attempt < MAX_ATTEMPTS
        &&& self.processed@.len() == self.pos
        &&& (self.failure is Some ==> self.pos < self.work@.len())
        &&& forall|i: int|
            0 <= i < self.pos ==> record_matches(#[trigger] self.processed@[i], self.work@[i])
    }

    /// What to do next: fail once failed, finish once the worklist is
    /// done, otherwise look up the current item.
    pub fn next_step(&self) -> (s: BatchStep)
        requires
            self.wf(),
        ensures
            self.failure is Some ==> s == BatchStep::Failed,
            self.failure is None && self.pos == self.work@.len() ==> s == BatchStep::Finished,
            self.failure is None && self.pos < self.work@.len() ==> s == (BatchStep::Lookup {
                title: self.work@[self.pos as int].title,
                media_type: spec_effective_type(self.work@[self.pos as int]),
                attempt: self.attempt,
            }),
    {
        if self.failure.is_some() {
            BatchStep::Failed
        } else if self.pos == self.work.len() {
            BatchStep::Finished
        } else {
            let it = &self.work[self.pos];
            let media_type = match it.media_type {
                EventMediaType::Movie => MediaType::Movie,
                EventMediaType::Tv => MediaType::Tv,
            };
            BatchStep::Lookup { title: it.title.clone(), media_type, attempt: self.attempt }
        }
    }

    /// The current item resolved: append its record and move on.
    pub fn lookup_succeeded(&mut self, meta: MetadataResult)
        requires
            old(self).wf(),
            old(self).failure is None,
            old(self).pos < old(self).work@.len(),
        ensures
            final(self).wf(),
            final(self).work == old(self).work,
            final(self).failure is None,
            final(self).pos == old(self).pos + 1,
            final(self).attempt == 0,
            final(self).processed@ == old(self).processed@.push(
                spec_processed(old(self).work@[old(self).pos as int], meta),
            ),
    {
        let wl = self.work.len();
        assert(self.pos < wl);
        let item = clone_item(&self.work[self.pos]);
        let rec = ProcessedItem::from_watch_history(item, meta);
        self.processed.push(rec);
        self.pos = self.pos + 1;
        self.attempt = 0;
    }

    /// The current item's lookup failed.  Before the attempt bound is
    /// reached the answer is the linear backoff to wait, in seconds,
    /// equal to the number of failures so far; the `MAX_ATTEMPTS`-th
    /// failure instead makes the batch fail terminally with
    /// `RetryExhausted`, naming the item's title and carrying the cause.
    pub fn lookup_failed(&mut self, err: AppError) -> (backoff: Option<u64>)
        requires
            old(self).wf(),
            old(self).failure is None,
            old(self).pos < old(self).work@.len(),
        ensures
            final(self).wf(),
            final(self).work == old(self).work,
            final(self).pos == old(self).pos,
            final(self).processed == old(self).processed,
            old(self).attempt + 1 < MAX_ATTEMPTS ==> {
                &&& final(self).failure is None
                &&& final(self).attempt == old(self).attempt + 1
                &&& backoff == Some((old(self).attempt + 1) as u64)
            },
            old(self).attempt + 1 == MAX_ATTEMPTS ==> {
                &&& backoff is None
                &&& final(self).attempt == 0
                &&& (final(self).failure matches Some(e) && (e matches AppError::RetryExhausted {
                    title,
                    cause,
                } && title == old(self).work@[old(self).pos as int].title && *cause == err))
            },
    {
        let next_attempt = self.attempt + 1;
        if next_attempt < MAX_ATTEMPTS {
            self.attempt = next_attempt;
            Some(next_attempt as u64)
        } else {
            let title = self.work[self.pos].title.clone();
            self.failure = Some(AppError::RetryExhausted { title, cause: Box::new(err) });
            self.attempt = 0;
            None
        }
    }

    /// Hand out the batch's outcome: the record set on success, the
    /// terminal error otherwise.  Nothing partial ever leaves a failed
    /// batch.
    ///
    /// See `lemma_batch_tv_latest` for what the record set holds for
    /// each Tv title.
    pub fn into_result(self) -> (r: Result<Vec<ProcessedItem>, AppError>)
        requires
            self.wf(),
            self.failure is Some || self.pos == self.work@.len(),
        ensures
            self.failure is None ==> (r matches Ok(v) && v@ == self.processed@),
            self.failure matches Some(e) ==> (r matches Err(e2) && e2 == e),
    {
        match self.failure {
            Some(e) => Err(e),
            None => Ok(self.processed),
        }
    }
}

/// The test for a Tv-kind record carrying one given title, as a
/// reusable predicate.
pub open spec fn rec_tv_with_title(t: Seq<char>) -> spec_fn(ProcessedItem) -> bool {
    |r: ProcessedItem| r.media_type == MediaType::Tv && r.title@ == t
}

/// Records that carry their events' fields filter alike: position for
/// position, a record is a Tv record of a title exactly when its event
/// is a Tv event of that title, and the filtered rows line up field for
/// field.
proof fn lemma_filter_mirrors(recs: Seq<ProcessedItem>, work: Seq<WatchHistoryItem>, t: Seq<char>)
    requires
        recs.len() == work.len(),
        forall|i: int| 0 <= i < recs.len() ==> record_matches(#[trigger] recs[i], work[i]),
    ensures
        recs.filter(rec_tv_with_title(t)).len() == work.filter(tv_with_title(t)).len(),
        forall|k: int|
            0 <= k < recs.filter(rec_tv_with_title(t)).len() ==> {
                let r = #[trigger] recs.filter(rec_tv_with_title(t))[k];
                let it = work.filter(tv_with_title(t))[k];
                r.date == it.date && r.title == it.title && r.episode == it.episode
            },
    decreases recs.len(),
{
    reveal(Seq::filter);
    if recs.len() > 0 {
        assert(record_matches(recs[recs.len() - 1], work[recs.len() - 1]));
        lemma_filter_mirrors(recs.drop_last(), work.drop_last(), t);
        assert(rec_tv_with_title(t)(recs.last()) == tv_with_title(t)(work.last()));
    }
}

/// Law, end to end: a batch that completed over `items` holds exactly
/// one Tv record for a title among the Tv events; its watched date is
/// one of that title's dates and not below any of them — the greatest.
pub proof fn lemma_batch_tv_latest(st: BatchState, items: Seq<WatchHistoryItem>, t: Seq<char>)
    requires
        st.wf(),
        st.failure is None,
        st.pos == st.work@.len(),
        st.work@ == dedup_spec(items),
        tv_group(items, t).len() > 0,
    ensures
        ({
            let survivors = st.processed@.filter(rec_tv_with_title(t));
            let g = tv_group(items, t);
            &&& survivors.len() == 1
            &&& exists|i: int| 0 <= i < g.len() && survivors[0].date == (#[trigger] g[i]).date
            &&& forall|i: int|
                0 <= i < g.len() ==> !lex_lt(survivors[0].date@, (#[trigger] g[i]).date@)
        }),
{
    lemma_dedup_tv_latest(items, t);
    lemma_filter_mirrors(st.processed@, st.work@, t);
    let kept = st.work@.filter(tv_with_title(t));
    let survivors = st.processed@.filter(rec_tv_with_title(t));
    let g = tv_group(items, t);
    assert(survivors[0].date == kept[0].date);
    assert(g.contains(kept[0]));
    let i = choose|i: int| 0 <= i < g.len() && g[i] == kept[0];
    assert(survivors[0].date == g[i].date);
}

} // verus!

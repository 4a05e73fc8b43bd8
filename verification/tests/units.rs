use watch_enrich::cli::CliArgs;
use watch_enrich::config::{
    AmazonConfig, AppConfig, ImdbConfig, MalConfig, OutputConfig, SimklConfig, TmdbConfig,
    TvdbConfig,
};
use watch_enrich::error::AppError;
use watch_enrich::metadata::models::{
    MediaIds, MediaType, MetadataResult, RateLimit, RateLimitConfig, ServiceType,
};
use watch_enrich::metadata::provider::{Admission, AuthAction, AuthFlow, TokenBucket};
use watch_enrich::metadata::{
    default_priority_order, resolve_with_outcomes, ChainStep, FetchOutcome, MetadataService,
};
use watch_enrich::metadata::clients::{
    mal_supports_kind, ImdbDetailsResponse, ImdbItem, MalItemDetails, SimklIds, SimklSearchItem,
    TmdbExternalIds, TmdbDetailsResponse, TmdbItem, TvdbDetailsItem, TvdbSearchItem,
};
use watch_enrich::models::WatchHistoryItem;
use watch_enrich::processor::csv_generator::CsvGenerator;
use watch_enrich::processor::history_processor::ProcessedItem;
use watch_enrich::scraping::login::url_shows_logged_in;
use watch_enrich::scraping::models::{Date, HistoryItem, MediaType as ScrapedMediaType};
use watch_enrich::text::{i32_string, parse_i32_str, str_lt, u32_pad2, u64_string};

fn limits(calls: u32, per_seconds: u64) -> RateLimitConfig {
    let l = RateLimit { calls, per_seconds };
    RateLimitConfig { simkl: l, tmdb: l, tvdb: l, imdb: l, mal: l }
}

fn plain_result(title: &str) -> MetadataResult {
    MetadataResult {
        ids: MediaIds { simkl: None, tvdb: None, tmdb: None, imdb: None, mal: None },
        title: title.to_string(),
        year: None,
        media_type: MediaType::Movie,
    }
}

#[test]
fn token_bucket_budget_and_wait() {
    // capacity 10, refill 10 per second
    let mut bucket = TokenBucket::new(RateLimit { calls: 10, per_seconds: 1 }, 0);
    for _ in 0..10 {
        assert!(bucket.consume(1, 0));
    }
    // the eleventh immediate call is refused
    assert!(!bucket.consume(1, 0));
    // one token is a tenth of a second away
    assert_eq!(bucket.wait_time_ms(1), 100);
    // after waiting that long the next call goes through
    assert!(bucket.consume(1, 100));
    assert!(!bucket.consume(1, 100));
}

#[test]
fn token_bucket_refill_caps_at_capacity() {
    let mut bucket = TokenBucket::new(RateLimit { calls: 2, per_seconds: 1 }, 0);
    assert!(bucket.consume(1, 0));
    // a long idle time refills to capacity, no further
    bucket.refill(1_000_000);
    assert!(bucket.consume(1, 1_000_000));
    assert!(bucket.consume(1, 1_000_000));
    assert!(!bucket.consume(1, 1_000_000));
}

#[test]
fn rate_limited_admission_waits_then_proceeds() {
    let mut bucket = TokenBucket::new(RateLimit { calls: 1, per_seconds: 1 }, 0);
    assert!(matches!(bucket.acquire_or_wait(0), Admission::Proceed));
    match bucket.acquire_or_wait(0) {
        Admission::Wait { millis } => {
            assert_eq!(millis, 1000);
            assert!(matches!(bucket.acquire_or_wait(millis), Admission::Proceed));
        }
        Admission::Proceed => panic!("an empty bucket admitted a call"),
    }
}

#[test]
fn auth_flow_reauthenticates_exactly_once() {
    let mut flow = AuthFlow::begin(false);
    assert_eq!(flow.next_action(), AuthAction::Authenticate);
    flow.token_acquired();
    assert_eq!(flow.next_action(), AuthAction::Send);
    // first unauthorized answer: retry once
    assert!(flow.on_unauthorized());
    assert_eq!(flow.next_action(), AuthAction::Authenticate);
    flow.token_acquired();
    // second unauthorized answer: give up
    assert!(!flow.on_unauthorized());
}

#[test]
fn chain_first_success_wins() {
    // a failing provider, then one that answers: its result comes back
    // and exactly two providers are consulted, in order
    let order = vec![ServiceType::Simkl, ServiceType::Tmdb, ServiceType::Tvdb];
    let outcomes = vec![
        FetchOutcome::Failed(AppError::Transport("down".to_string())),
        FetchOutcome::Results(vec![plain_result("Foo")]),
        FetchOutcome::Results(vec![plain_result("never consulted")]),
    ];
    let (result, consulted) = resolve_with_outcomes(&order, outcomes);
    assert_eq!(result.unwrap().title, "Foo");
    assert_eq!(consulted, 2);
}

#[test]
fn chain_empty_result_list_advances() {
    let order = vec![ServiceType::Simkl, ServiceType::Tmdb];
    let outcomes = vec![
        FetchOutcome::Results(Vec::new()),
        FetchOutcome::Results(vec![plain_result("Second")]),
    ];
    let (result, consulted) = resolve_with_outcomes(&order, outcomes);
    assert_eq!(result.unwrap().title, "Second");
    assert_eq!(consulted, 2);
}

#[test]
fn chain_all_failed_is_single_terminal_error() {
    let order = default_priority_order();
    let outcomes: Vec<FetchOutcome> = (0..order.len())
        .map(|_| FetchOutcome::Failed(AppError::NoResults))
        .collect();
    let (result, consulted) = resolve_with_outcomes(&order, outcomes);
    assert_eq!(consulted, 5);
    match result {
        Err(AppError::AllProvidersFailed) => {}
        _ => panic!("expected the terminal AllProvidersFailed error"),
    }
}

#[test]
fn chain_machine_queries_in_priority_order() {
    // provider chain [P1 always fails, P2 succeeds with "Foo"]
    let order = vec![ServiceType::Imdb, ServiceType::Tmdb];
    let mut service = MetadataService::new(order, &limits(10, 1), 0);
    let mut st = service.begin_lookup();
    let mut consulted = Vec::new();

    let step1 = service.next_step(&st, 0);
    match step1 {
        ChainStep::Query(s) => consulted.push(s),
        _ => panic!("expected a query step"),
    }
    assert!(service.on_outcome(&mut st, FetchOutcome::Failed(AppError::NoResults)).is_none());

    let step2 = service.next_step(&st, 1);
    match step2 {
        ChainStep::Query(s) => consulted.push(s),
        _ => panic!("expected a query step"),
    }
    let got = service
        .on_outcome(&mut st, FetchOutcome::Results(vec![plain_result("Foo")]))
        .expect("second provider answered");
    assert_eq!(got.title, "Foo");
    assert_eq!(consulted, vec![ServiceType::Imdb, ServiceType::Tmdb]);

    // once past the last provider the chain reports itself exhausted
    let mut st2 = service.begin_lookup();
    service.on_outcome(&mut st2, FetchOutcome::Failed(AppError::NoResults));
    service.on_outcome(&mut st2, FetchOutcome::Failed(AppError::NoResults));
    assert!(matches!(service.next_step(&st2, 2), ChainStep::Exhausted));
}

#[test]
fn chain_rate_limit_delays_but_never_drops() {
    let order = vec![ServiceType::Simkl];
    let mut service = MetadataService::new(order, &limits(1, 1), 0);
    let st = service.begin_lookup();
    assert!(matches!(service.next_step(&st, 0), ChainStep::Query(ServiceType::Simkl)));
    // the budget is spent: the chain says how long to wait, then admits
    let st2 = service.begin_lookup();
    match service.next_step(&st2, 0) {
        ChainStep::Wait { millis } => {
            assert_eq!(millis, 1000);
            assert!(matches!(
                service.next_step(&st2, millis),
                ChainStep::Query(ServiceType::Simkl)
            ));
        }
        _ => panic!("expected a wait step"),
    }
}

#[test]
fn csv_rows_hold_header_and_records() {
    let generator = CsvGenerator::new(OutputConfig { path: "out.csv".to_string() });
    assert_eq!(generator.output_path, "out.csv");
    let movie = ProcessedItem {
        title: "Inception".to_string(),
        date: "2023-01-01".to_string(),
        media_type: MediaType::Movie,
        metadata: MetadataResult {
            ids: MediaIds {
                simkl: Some("123".to_string()),
                tvdb: None,
                tmdb: Some("12345".to_string()),
                imdb: Some("tt1375666".to_string()),
                mal: None,
            },
            title: "Inception".to_string(),
            year: Some("2010".to_string()),
            media_type: MediaType::Movie,
        },
        episode: None,
    };
    let show = ProcessedItem {
        title: "Show A".to_string(),
        date: "2023-01-02".to_string(),
        media_type: MediaType::Tv,
        metadata: plain_result("Show A"),
        episode: Some("S1E2".to_string()),
    };
    let rows = generator.rows(vec![movie, show]);
    assert_eq!(rows.len(), 3);
    assert_eq!(
        rows[0],
        vec![
            "simkl_id", "TVDB_ID", "TMDB", "IMDB_ID", "MAL_ID", "Type", "Title", "Year",
            "LastEpWatched", "Watchlist", "WatchedDate", "Rating", "Memo"
        ]
    );
    assert_eq!(
        rows[1],
        vec![
            "123", "", "12345", "tt1375666", "", "movie", "Inception", "2010", "", "completed",
            "2023-01-01", "", ""
        ]
    );
    assert_eq!(
        rows[2],
        vec![
            "", "", "", "", "", "tv", "Show A", "", "S1E2", "watching", "2023-01-02", "", ""
        ]
    );
}

#[test]
fn csv_tv_without_episode_counts_completed() {
    let generator = CsvGenerator::new(OutputConfig { path: "o".to_string() });
    let show = ProcessedItem {
        title: "Done".to_string(),
        date: "2023-01-02".to_string(),
        media_type: MediaType::Tv,
        metadata: plain_result("Done"),
        episode: Some(String::new()),
    };
    let rows = generator.rows(vec![show]);
    assert_eq!(rows[1][9], "completed");
}

#[test]
fn cli_validate_accepts_defaults_and_names_offenders() {
    let args = CliArgs::default();
    assert!(args.validate().is_ok());

    let mut bad_level = CliArgs::default();
    bad_level.log_level = "loud".to_string();
    let err = bad_level.validate().unwrap_err();
    assert!(err.contains("Invalid log level 'loud'"));

    let mut zero_concurrent = CliArgs::default();
    zero_concurrent.max_concurrent = 0;
    assert_eq!(
        zero_concurrent.validate().unwrap_err(),
        "max-concurrent must be greater than 0"
    );

    let mut zero_timeout = CliArgs::default();
    zero_timeout.browser_timeout = 0;
    assert_eq!(
        zero_timeout.validate().unwrap_err(),
        "browser-timeout must be greater than 0"
    );
}

fn full_config() -> AppConfig {
    AppConfig {
        simkl: SimklConfig { client_id: "id".to_string(), client_secret: "secret".to_string() },
        tmdb: TmdbConfig { api_key: "k".to_string() },
        tvdb: TvdbConfig { api_key: "k".to_string() },
        imdb: ImdbConfig { api_key: "k".to_string() },
        mal: MalConfig { client_id: "id".to_string(), client_secret: "secret".to_string() },
        amazon: AmazonConfig {
            email: "user@example.com".to_string(),
            password: "pw".to_string(),
        },
        output: OutputConfig { path: "out.csv".to_string() },
    }
}

#[test]
fn config_validate_checks_every_credential() {
    assert!(full_config().validate().is_ok());

    let mut missing = full_config();
    missing.tmdb.api_key = String::new();
    assert_eq!(missing.validate().unwrap_err(), "tmdb.api_key cannot be empty");

    let mut bad_mail = full_config();
    bad_mail.amazon.email = "nobody".to_string();
    assert!(bad_mail.validate().is_err());

    let mut edge_mail = full_config();
    edge_mail.amazon.email = "@example.com".to_string();
    assert!(edge_mail.validate().is_err());
}

#[test]
fn test_history_item_parsing() {
    let test_cases = vec![
        ("The Boys (Aug 21, 2023)", ("The Boys", None, ScrapedMediaType::Movie)),
        (
            "Localized (Original) (Sep 1, 2023)",
            ("Original", Some("Localized"), ScrapedMediaType::Movie),
        ),
        (
            "Show S01E02 (Jul 15, 2023)",
            (
                "Show S01E02",
                None,
                ScrapedMediaType::TvShow { season: Some(1), episode: Some(2), episode_title: None },
            ),
        ),
    ];
    for (input, (exp_title, exp_orig, exp_type)) in test_cases {
        let item = HistoryItem::parse(input).unwrap();
        assert_eq!(item.title, exp_title);
        assert_eq!(item.original_title, exp_orig.map(|s: &str| s.to_string()));
        match (&item.media_type, &exp_type) {
            (ScrapedMediaType::Movie, ScrapedMediaType::Movie) => {}
            (
                ScrapedMediaType::TvShow { season: s1, episode: e1, .. },
                ScrapedMediaType::TvShow { season: s2, episode: e2, .. },
            ) => {
                assert_eq!(s1, s2);
                assert_eq!(e1, e2);
            }
            _ => panic!("wrong media type for {}", input),
        }
    }
}

#[test]
fn parse_reads_each_date_format() {
    let a = HistoryItem::parse("X (Aug 21, 2023)").unwrap();
    assert_eq!(a.watched_at, Date { year: 2023, month: 8, day: 21 });
    let b = HistoryItem::parse("X 08/21/2023").unwrap();
    assert_eq!(b.watched_at, Date { year: 2023, month: 8, day: 21 });
    let c = HistoryItem::parse("X 2023-08-21").unwrap();
    assert_eq!(c.watched_at, Date { year: 2023, month: 8, day: 21 });
    // single-digit day in the written form
    let d = HistoryItem::parse("Show (Sep 1, 2023)").unwrap();
    assert_eq!(d.watched_at, Date { year: 2023, month: 9, day: 1 });
    // an impossible calendar day is no date
    assert!(HistoryItem::parse("X (Feb 30, 2023)").is_none());
    // no date at all
    assert!(HistoryItem::parse("Just a title").is_none());
}

#[test]
fn watch_item_from_scraped_show_builds_episode_label() {
    let item = HistoryItem::parse("Show S01E02 (Jul 15, 2023)").unwrap();
    let watch = WatchHistoryItem::from_history_item(item);
    assert_eq!(watch.title, "Show S01E02");
    assert_eq!(watch.date, "2023-07-15");
    assert_eq!(watch.episode.as_deref(), Some("S01E02"));
    assert!(matches!(watch.media_type, watch_enrich::models::MediaType::Tv));
    assert!(matches!(watch.watch_status, watch_enrich::models::WatchStatus::Completed));

    let movie = HistoryItem::parse("The Boys (Aug 21, 2023)").unwrap();
    let watch2 = WatchHistoryItem::from_history_item(movie);
    assert_eq!(watch2.episode, None);
    assert_eq!(watch2.date, "2023-08-21");
    assert!(matches!(watch2.media_type, watch_enrich::models::MediaType::Movie));
}

#[test]
fn simkl_search_maps_every_field() {
    let r = MetadataResult::from_simkl_search(SimklSearchItem {
        title: "Inception".to_string(),
        year: Some("2010".to_string()),
        ids: SimklIds {
            simkl: "123".to_string(),
            imdb: Some("tt1375666".to_string()),
            tmdb: Some("12345".to_string()),
            tvdb: None,
        },
    });
    assert_eq!(r.title, "Inception");
    assert_eq!(r.year.as_deref(), Some("2010"));
    assert_eq!(r.ids.simkl.as_deref(), Some("123"));
    assert_eq!(r.ids.imdb.as_deref(), Some("tt1375666"));
    assert_eq!(r.ids.tmdb.as_deref(), Some("12345"));
    assert_eq!(r.ids.tvdb, None);
    assert_eq!(r.ids.mal, None);
}

#[test]
fn tvdb_maps_id_and_year() {
    let r = MetadataResult::from_tvdb_search(TvdbSearchItem {
        id: 123,
        series_name: "Breaking Bad".to_string(),
        first_aired: Some("2008-01-20".to_string()),
    });
    assert_eq!(r.title, "Breaking Bad");
    assert_eq!(r.ids.tvdb.as_deref(), Some("123"));
    assert_eq!(r.year.as_deref(), Some("2008"));
    assert!(matches!(r.media_type, MediaType::Tv));

    let d = MetadataResult::from_tvdb_details(TvdbDetailsItem {
        id: 123,
        series_name: "Breaking Bad".to_string(),
        first_aired: Some("2008-01-20".to_string()),
        imdb_id: Some("tt0903747".to_string()),
    });
    assert_eq!(d.ids.imdb.as_deref(), Some("tt0903747"));
    assert_eq!(d.ids.tvdb.as_deref(), Some("123"));
}

#[test]
fn tmdb_maps_title_choice_kind_and_external_ids() {
    let r = MetadataResult::from_tmdb_search(TmdbItem {
        id: 123,
        title: String::new(),
        name: "Series Name".to_string(),
        release_date: None,
        first_air_date: Some("2010-07-16".to_string()),
        media_type: Some("tv".to_string()),
    });
    assert_eq!(r.title, "Series Name");
    assert_eq!(r.year.as_deref(), Some("2010"));
    assert_eq!(r.ids.tmdb.as_deref(), Some("123"));
    assert!(matches!(r.media_type, MediaType::Tv));

    let d = MetadataResult::from_tmdb_details(TmdbDetailsResponse {
        id: 123,
        title: Some("Inception".to_string()),
        name: None,
        release_date: Some("2010-07-16".to_string()),
        first_air_date: None,
        external_ids: TmdbExternalIds {
            imdb_id: Some("tt1375666".to_string()),
            tvdb_id: Some(12345),
        },
    });
    assert_eq!(d.title, "Inception");
    assert_eq!(d.ids.imdb.as_deref(), Some("tt1375666"));
    assert_eq!(d.ids.tvdb.as_deref(), Some("12345"));
    assert!(matches!(d.media_type, MediaType::Movie));
}

#[test]
fn mal_and_imdb_mappings() {
    let m = MetadataResult::from_mal_item(MalItemDetails {
        id: 5114,
        title: "Brotherhood".to_string(),
        start_date: Some("2009-04-05".to_string()),
    });
    assert_eq!(m.ids.mal.as_deref(), Some("5114"));
    assert_eq!(m.year.as_deref(), Some("2009"));
    assert!(matches!(m.media_type, MediaType::Tv));

    let s = MetadataResult::from_imdb_search(ImdbItem {
        id: "tt1375666".to_string(),
        title: "Inception".to_string(),
        description: Some("Inception (2010) Movie".to_string()),
    });
    assert_eq!(s.year.as_deref(), Some("2010"));
    assert_eq!(s.ids.imdb.as_deref(), Some("tt1375666"));

    let no_paren = MetadataResult::from_imdb_search(ImdbItem {
        id: "tt1".to_string(),
        title: "T".to_string(),
        description: Some("no year here".to_string()),
    });
    assert_eq!(no_paren.year, None);

    let d = MetadataResult::from_imdb_details(ImdbDetailsResponse {
        id: "tt42".to_string(),
        title: None,
        year: Some(1999),
    });
    assert_eq!(d.title, "IMDB-tt42");
    assert_eq!(d.year.as_deref(), Some("1999"));
}

#[test]
fn mal_answers_tv_queries_only() {
    assert!(mal_supports_kind(MediaType::Tv));
    assert!(!mal_supports_kind(MediaType::Movie));
}

#[test]
fn signed_decimal_parsing() {
    assert_eq!(parse_i32_str("2010"), Some(2010));
    assert_eq!(parse_i32_str("+7"), Some(7));
    assert_eq!(parse_i32_str("-42"), Some(-42));
    assert_eq!(parse_i32_str("0012"), Some(12));
    assert_eq!(parse_i32_str(""), None);
    assert_eq!(parse_i32_str("-"), None);
    assert_eq!(parse_i32_str("12a"), None);
    assert_eq!(parse_i32_str(" 7"), None);
    assert_eq!(parse_i32_str("2147483647"), Some(i32::MAX));
    assert_eq!(parse_i32_str("2147483648"), None);
    assert_eq!(parse_i32_str("-2147483648"), Some(i32::MIN));
    assert_eq!(parse_i32_str("-2147483649"), None);
    assert_eq!(parse_i32_str("99999999999999999999"), None);
}

#[test]
fn decimal_strings() {
    assert_eq!(u64_string(0), "0");
    assert_eq!(u64_string(12345), "12345");
    assert_eq!(u32_pad2(7), "07");
    assert_eq!(u32_pad2(42), "42");
    assert_eq!(i32_string(-7), "-7");
    assert_eq!(i32_string(2023), "2023");
}

#[test]
fn date_string_order_is_lexicographic() {
    assert!(str_lt("2023-01-01", "2023-01-02"));
    assert!(!str_lt("2023-01-02", "2023-01-02"));
    assert!(str_lt("2022-12-31", "2023-01-01"));
}

#[test]
fn small_year_is_zero_padded_in_the_date() {
    let item = HistoryItem::parse("X (Jan 1, 0023)").unwrap();
    assert_eq!(item.watched_at, Date { year: 23, month: 1, day: 1 });
    let watch = WatchHistoryItem::from_history_item(item);
    assert_eq!(watch.date, "0023-01-01");
}

#[test]
fn login_url_predicate() {
    assert!(url_shows_logged_in("https://www.primevideo.com/settings/watch-history"));
    assert!(!url_shows_logged_in("https://www.primevideo.com/signin"));
    assert!(!url_shows_logged_in("https://www.primevideo.com/ap/auth/watch-history"));
    assert!(!url_shows_logged_in("https://www.primevideo.com/"));
}

#[test]
fn error_messages_name_their_cause() {
    assert_eq!(
        AppError::Transport("boom".to_string()).message(),
        "HTTP request error: boom"
    );
    assert_eq!(
        AppError::Auth("denied".to_string()).message(),
        "Authentication failed: denied"
    );
    assert_eq!(AppError::NoResults.message(), "Metadata lookup failed: no results");
    assert_eq!(
        AppError::AllProvidersFailed.message(),
        "Metadata lookup failed: all providers failed"
    );
    assert_eq!(AppError::Parse("bad line".to_string()).message(), "Parsing error: bad line");
    let chained = AppError::RetryExhausted {
        title: "Foo".to_string(),
        cause: Box::new(AppError::AllProvidersFailed),
    };
    assert_eq!(
        chained.message(),
        "Retries exhausted for Foo: Metadata lookup failed: all providers failed"
    );
}

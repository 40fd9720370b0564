use twitch_filter::api::{categories_url, streams_query, users_url};
use twitch_filter::catalog::{
    normalize_channels, resolve_category_id, resolve_explicit_channels, split_existing,
    status_outcome, Category, PageRequest, ResolutionError, Stream, StreamPage, StreamPager,
};

fn strings(v: &[&str]) -> Vec<String> {
    v.iter().map(|s| s.to_string()).collect()
}

fn category(id: &str, name: &str) -> Category {
    Category { id: id.to_string(), name: name.to_string() }
}

fn page(logins: &[&str], cursor: Option<&str>) -> StreamPage {
    StreamPage {
        streams: logins.iter().map(|l| Stream { user_login: l.to_string() }).collect(),
        cursor: cursor.map(|c| c.to_string()),
    }
}

/// Runs a pager against pages served in order, returning the names and the
/// number of requests made.
fn run_pager(pages: Vec<StreamPage>) -> (Vec<String>, Vec<Option<String>>) {
    let mut pager = StreamPager::new();
    let mut served = pages.into_iter();
    let mut requests = Vec::new();
    while let Some(request) = pager.next_request() {
        requests.push(match request {
            PageRequest::First => None,
            PageRequest::After(c) => Some(c),
        });
        pager.record_page(served.next().expect("no page left to serve"));
    }
    (pager.into_logins(), requests)
}

fn search_results() -> Vec<Category> {
    vec![
        category("1469308723", "Software and Game Development"),
        category("263490", "Rust"),
        category("999", "rust"),
        category("4242", "Rust Bowl"),
    ]
}

#[test]
fn test_get_users() {
    let backend = strings(&["loltyler1"]);
    let streams = strings(&["loltyler1", "fsdqfqsdfsdfsqdfsqdf"]);
    let (good, bad) = resolve_explicit_channels(&streams, &backend);
    assert_eq!(good.len(), 1);
    assert_eq!(bad.len(), 1);

    let upper: Vec<String> = streams.iter().map(|s| s.to_uppercase()).collect();
    let (good, bad) = resolve_explicit_channels(&upper, &backend);
    assert_eq!(good.len(), 1);
    assert_eq!(bad.len(), 1);
}

#[test]
fn test_get_category_id() {
    let data = search_results();
    assert_eq!(resolve_category_id(&data, "RUsT"), Some("263490".to_string()));
    assert_eq!(resolve_category_id(&data, "sqdfsdfqqsdf"), None);
}

#[test]
fn test_get_streams() {
    let (body, _) = run_pager(vec![page(&["a", "b"], Some("x")), page(&["c"], None)]);
    assert!(body.len() > 0);
    let (body, _) = run_pager(vec![page(&[], None)]);
    assert_eq!(body.len(), 0);
}

#[test]
fn category_lookup_ignores_case_and_is_exact() {
    let data = search_results();
    for keyword in ["Rust", "RUsT", "rust"] {
        assert_eq!(resolve_category_id(&data, keyword), Some("263490".to_string()));
    }
    assert_eq!(resolve_category_id(&data, "Rus"), None);
    assert_eq!(resolve_category_id(&data, "Rust Bowl"), Some("4242".to_string()));
    assert_eq!(resolve_category_id(&Vec::new(), "Rust"), None);
}

#[test]
fn pagination_follows_cursor_to_the_end() {
    let (logins, requests) =
        run_pager(vec![page(&["a", "b"], Some("x")), page(&["c"], None), page(&["z"], None)]);
    assert_eq!(logins, strings(&["a", "b", "c"]));
    assert_eq!(requests, vec![None, Some("x".to_string())]);
}

#[test]
fn pager_starts_without_cursor_and_finishes() {
    let mut pager = StreamPager::new();
    assert!(matches!(pager.next_request(), Some(PageRequest::First)));
    assert!(!pager.is_finished());
    pager.record_page(page(&["a"], Some("c1")));
    assert!(matches!(pager.next_request(), Some(PageRequest::After(ref c)) if c == "c1"));
    pager.record_page(page(&["b"], None));
    assert!(pager.is_finished());
    assert!(pager.next_request().is_none());
    assert_eq!(pager.into_logins(), strings(&["a", "b"]));
}

#[test]
fn explicit_channels_partition_the_input() {
    let backend = strings(&["LolTyler1"]);
    let (found, not_found) =
        resolve_explicit_channels(&strings(&["LolTyler1", "doesnotexist123"]), &backend);
    assert_eq!(found, strings(&["loltyler1"]));
    assert_eq!(not_found, strings(&["doesnotexist123"]));
}

#[test]
fn explicit_channels_are_deduplicated_after_normalizing() {
    let backend = strings(&["alpha"]);
    let input = strings(&["Alpha", "beta", "ALPHA", "Beta", "gamma"]);
    let (found, not_found) = resolve_explicit_channels(&input, &backend);
    assert_eq!(found, strings(&["alpha"]));
    assert_eq!(not_found, strings(&["beta", "gamma"]));
}

#[test]
fn split_existing_keeps_request_order() {
    let (found, missing) =
        split_existing(&strings(&["c", "a", "b", "a"]), &strings(&["a", "c"]));
    assert_eq!(found, strings(&["c", "a"]));
    assert_eq!(missing, strings(&["b"]));
    let (found, missing) = split_existing(&Vec::new(), &strings(&["a"]));
    assert!(found.is_empty() && missing.is_empty());
}

#[test]
fn normalizing_lowers_every_name() {
    assert_eq!(
        normalize_channels(&strings(&["LolTyler1", "ÉCOLE", "x"])),
        strings(&["loltyler1", "école", "x"])
    );
}

#[test]
fn status_codes_map_to_outcomes() {
    assert_eq!(status_outcome(200), Ok(()));
    assert_eq!(status_outcome(204), Ok(()));
    assert_eq!(status_outcome(400), Err(ResolutionError::BadRequest));
    assert_eq!(status_outcome(401), Err(ResolutionError::Unauthorized));
    assert_eq!(status_outcome(404), Err(ResolutionError::Unexpected));
    assert_eq!(status_outcome(500), Err(ResolutionError::Unexpected));
    assert_eq!(status_outcome(302), Err(ResolutionError::Unexpected));
}

#[test]
fn request_addresses() {
    assert_eq!(
        categories_url("RUsT"),
        "https://api.twitch.tv/helix/search/categories?query=RUsT"
    );
    assert_eq!(
        users_url(&strings(&["loltyler1", "abc"])),
        "https://api.twitch.tv/helix/users?login=loltyler1&login=abc"
    );
    assert_eq!(users_url(&strings(&["one"])), "https://api.twitch.tv/helix/users?login=one");
}

#[test]
fn stream_queries() {
    let first = streams_query("263490", &PageRequest::First);
    assert_eq!(
        first,
        vec![
            ("type".to_string(), "live".to_string()),
            ("first".to_string(), "100".to_string()),
            ("game_id".to_string(), "263490".to_string()),
        ]
    );
    let next = streams_query("263490", &PageRequest::After("abc".to_string()));
    assert_eq!(next.len(), 4);
    assert_eq!(next[3], ("after".to_string(), "abc".to_string()));
}

#[test]
fn repeated_listing_entry_is_watched_once() {
    let (logins, _) = run_pager(vec![page(&["a", "a"], None)]);
    assert_eq!(logins, strings(&["a", "a"]));
    let batches = twitch_filter::run::plan_run(&logins, 1).unwrap();
    assert_eq!(batches, vec![strings(&["a"])]);
}

use importedby::coordinator::Coordinator;
use importedby::extract::extract_first_texts;
use importedby::extract::selector_compiles;
use importedby::resolve::breadcrumb_selector;
use importedby::resolve::extract_listing;
use importedby::resolve::listing_selector;
use importedby::resolve::listing_url;
use importedby::resolve::lookup_url;
use importedby::resolve::resolve_page;
use importedby::resolve::status_is_success;
use importedby::resolve::FatalError;
use importedby::resolve::ResolveFailure;
use importedby::results::github_filter;
use importedby::results::github_prefix;
use importedby::results::ResultSet;
use importedby::text::starts_with_str;
use importedby::text::trim_str;

use std::cell::Cell;
use std::rc::Rc;
use std::time::Duration;

use futures::stream::FuturesUnordered;
use futures::StreamExt;

const LISTING_TWO: &str = "<html><body>\
    <div class=\"ImportedBy-detailsIndent\">pkg/a</div>\
    <div class=\"ImportedBy-detailsIndent\">pkg/b</div>\
    </body></html>";

fn breadcrumb_page(root: &str) -> String {
    format!(
        "<html><body><div class=\"go-Main-headerBreadcrumb\"><ul>\
        <li><a>Discover Packages</a></li>\
        <li><a> {} </a></li>\
        </ul></div></body></html>",
        root
    )
}

#[test]
fn listing_yields_one_path_per_detail_element_in_order() {
    let html = "<html><body>\
        <div class=\"ImportedBy-detailsIndent\">pkg/a</div>\
        <div class=\"ImportedBy-detailsIndent\">pkg/b</div>\
        <div class=\"ImportedBy-detailsIndent\">pkg/c</div>\
        </body></html>";
    let listing = extract_listing(200, html, listing_selector()).unwrap();
    assert_eq!(
        listing.texts,
        vec!["pkg/a".to_string(), "pkg/b".to_string(), "pkg/c".to_string()]
    );
    assert!(listing.anomalies.is_empty());
}

#[test]
fn empty_listing_yields_no_paths() {
    let listing = extract_listing(200, "<html><body></body></html>", listing_selector()).unwrap();
    assert!(listing.texts.is_empty());
    assert!(listing.anomalies.is_empty());
}

#[test]
fn multi_text_element_is_an_anomaly_and_first_text_is_used() {
    let html = "<html><body>\
        <div class=\"ImportedBy-detailsIndent\">pkg/a<span>extra</span>more</div>\
        </body></html>";
    let listing = extract_listing(200, html, listing_selector()).unwrap();
    assert_eq!(listing.texts, vec!["pkg/a".to_string()]);
    assert_eq!(listing.anomalies, vec![3]);
}

#[test]
fn element_without_text_yields_no_path() {
    let html = "<html><body>\
        <div class=\"ImportedBy-detailsIndent\"></div>\
        <div class=\"ImportedBy-detailsIndent\">pkg/b</div>\
        </body></html>";
    let listing = extract_listing(200, html, listing_selector()).unwrap();
    assert_eq!(listing.texts, vec!["pkg/b".to_string()]);
}

#[test]
fn listing_fetch_failure_is_fatal() {
    assert_eq!(
        extract_listing(500, LISTING_TWO, listing_selector()),
        Err(FatalError::HttpStatus(500))
    );
    assert_eq!(
        extract_listing(404, LISTING_TWO, listing_selector()),
        Err(FatalError::HttpStatus(404))
    );
}

#[test]
fn malformed_selector_is_fatal() {
    assert!(!selector_compiles("li:nth-child("));
    assert_eq!(
        extract_listing(200, LISTING_TWO, "li:nth-child("),
        Err(FatalError::InvalidSelector)
    );
    assert!(extract_first_texts(LISTING_TWO, "li:nth-child(").is_none());
}

#[test]
fn fixed_selectors_compile() {
    assert!(selector_compiles(listing_selector()));
    assert!(selector_compiles(breadcrumb_selector()));
}

#[test]
fn resolve_takes_second_breadcrumb_anchor_text_trimmed() {
    let body = breadcrumb_page("example.com/a");
    let id = resolve_page(200, &body, breadcrumb_selector()).unwrap();
    assert_eq!(id, "example.com/a");
}

#[test]
fn resolve_without_breadcrumb_fails_with_no_element() {
    let body = "<html><body><p>nothing here</p></body></html>";
    assert_eq!(
        resolve_page(200, body, breadcrumb_selector()),
        Err(ResolveFailure::NoElement)
    );
}

#[test]
fn resolve_with_empty_breadcrumb_fails_with_no_text() {
    let body = "<html><body><div class=\"go-Main-headerBreadcrumb\"><ul>\
        <li><a>Discover Packages</a></li>\
        <li><a></a></li>\
        </ul></div></body></html>";
    assert_eq!(
        resolve_page(200, body, breadcrumb_selector()),
        Err(ResolveFailure::NoText)
    );
}

#[test]
fn resolve_with_bad_status_fails_without_parsing() {
    let body = breadcrumb_page("example.com/a");
    assert_eq!(
        resolve_page(404, &body, breadcrumb_selector()),
        Err(ResolveFailure::HttpStatus(404))
    );
}

#[test]
fn status_success_is_exactly_the_2xx_range() {
    assert!(status_is_success(200));
    assert!(status_is_success(204));
    assert!(status_is_success(299));
    assert!(!status_is_success(199));
    assert!(!status_is_success(300));
    assert!(!status_is_success(404));
    assert!(!status_is_success(500));
}

#[test]
fn urls_are_built_from_the_module_and_path() {
    assert_eq!(listing_url("foo"), "https://pkg.go.dev/foo?tab=importedby");
    assert_eq!(lookup_url("pkg/a"), "https://pkg.go.dev/pkg/a");
}

#[test]
fn result_set_deduplicates_identifiers() {
    let mut set = ResultSet::new();
    set.insert("github.com/foo/bar".to_string());
    set.insert("gitlab.com/x/y".to_string());
    set.insert("github.com/foo/bar".to_string());
    assert_eq!(set.len(), 2);
    assert!(set.contains(&"github.com/foo/bar".to_string()));
    assert!(set.contains(&"gitlab.com/x/y".to_string()));
    assert!(!set.contains(&"example.com/a".to_string()));
}

#[test]
fn github_filter_keeps_and_strips_only_the_github_prefix() {
    let mut set = ResultSet::new();
    set.insert("github.com/foo/bar".to_string());
    set.insert("gitlab.com/x/y".to_string());
    assert_eq!(github_filter(&set), vec!["foo/bar".to_string()]);
}

#[test]
fn github_filter_of_no_github_entries_is_empty() {
    let mut set = ResultSet::new();
    set.insert("gitlab.com/x/y".to_string());
    set.insert("example.com/a".to_string());
    assert!(github_filter(&set).is_empty());
}

#[test]
fn coordinator_never_exceeds_its_bound() {
    let paths: Vec<String> = vec!["a", "b", "c", "d", "e"]
        .into_iter()
        .map(|p| p.to_string())
        .collect();
    let mut coordinator = Coordinator::new(paths, 2);
    assert!(coordinator.can_start());
    let first = coordinator.start();
    assert_eq!(first, "a");
    assert!(coordinator.can_start());
    let second = coordinator.start();
    assert_eq!(second, "b");
    assert_eq!(coordinator.in_flight_count(), 2);
    assert!(!coordinator.can_start());
    coordinator.settle_success("example.com/a".to_string());
    assert_eq!(coordinator.in_flight_count(), 1);
    assert!(coordinator.can_start());
    let third = coordinator.start();
    assert_eq!(third, "c");
    assert!(!coordinator.can_start());
}

#[test]
fn coordinator_failure_leaves_no_trace_in_the_results() {
    let paths: Vec<String> = vec!["pkg/a".to_string(), "pkg/b".to_string()];
    let mut coordinator = Coordinator::new(paths, 2);
    let _ = coordinator.start();
    let _ = coordinator.start();
    coordinator.settle_success("example.com/a".to_string());
    coordinator.settle_failure();
    assert!(coordinator.is_done());
    assert_eq!(coordinator.failure_count(), 1);
    let results = coordinator.into_results();
    assert_eq!(results.len(), 1);
    assert!(results.contains(&"example.com/a".to_string()));
}

#[test]
fn two_paths_resolving_to_one_root_collapse_to_one_entry() {
    let paths: Vec<String> = vec!["pkg/a".to_string(), "pkg/a/sub".to_string()];
    let mut coordinator = Coordinator::new(paths, 2);
    let _ = coordinator.start();
    let _ = coordinator.start();
    coordinator.settle_success("example.com/a".to_string());
    coordinator.settle_success("example.com/a".to_string());
    let results = coordinator.into_results();
    assert_eq!(results.len(), 1);
}

#[test]
fn listing_to_results_end_to_end() {
    let listing = extract_listing(200, LISTING_TWO, listing_selector()).unwrap();
    assert_eq!(listing.texts, vec!["pkg/a".to_string(), "pkg/b".to_string()]);

    let page_a = breadcrumb_page("example.com/a");
    let mut coordinator = Coordinator::new(listing.texts, 6);
    while coordinator.can_start() {
        let path = coordinator.start();
        let outcome = if path == "pkg/a" {
            resolve_page(200, &page_a, breadcrumb_selector())
        } else {
            resolve_page(404, "", breadcrumb_selector())
        };
        match outcome {
            Ok(id) => coordinator.settle_success(id),
            Err(_) => coordinator.settle_failure(),
        }
    }
    assert!(coordinator.is_done());
    assert_eq!(coordinator.failure_count(), 1);
    let results = coordinator.into_results();
    assert_eq!(results.len(), 1);
    assert!(results.contains(&"example.com/a".to_string()));
    assert_eq!(results.into_items(), vec!["example.com/a".to_string()]);
}

#[test]
fn delayed_stubbed_resolutions_never_exceed_the_bound() {
    let bound: usize = 3;
    let paths: Vec<String> = (0..20).map(|k| format!("pkg/{}", k)).collect();
    let runtime = tokio::runtime::Builder::new_current_thread()
        .enable_time()
        .build()
        .unwrap();
    let pending = Rc::new(Cell::new(0usize));
    let peak = Rc::new(Cell::new(0usize));
    let results = runtime.block_on(async {
        let mut coordinator = Coordinator::new(paths, bound);
        let mut in_flight = FuturesUnordered::new();
        loop {
            while coordinator.can_start() {
                let path = coordinator.start();
                let pending = Rc::clone(&pending);
                let peak = Rc::clone(&peak);
                in_flight.push(async move {
                    pending.set(pending.get() + 1);
                    if pending.get() > peak.get() {
                        peak.set(pending.get());
                    }
                    tokio::time::sleep(Duration::from_millis(2)).await;
                    pending.set(pending.get() - 1);
                    format!("example.com/{}", path)
                });
            }
            match in_flight.next().await {
                Some(id) => coordinator.settle_success(id),
                None => break,
            }
        }
        assert!(coordinator.is_done());
        coordinator.into_results()
    });
    assert_eq!(results.len(), 20);
    assert!(peak.get() >= 1);
    assert!(peak.get() <= bound);
}

#[test]
fn trim_removes_leading_and_trailing_whitespace() {
    assert_eq!(trim_str("  \t hello \n"), "hello");
    assert_eq!(trim_str("   "), "");
    assert_eq!(trim_str(""), "");
    assert_eq!(trim_str("x"), "x");
    assert_eq!(trim_str("a b"), "a b");
    assert_eq!(trim_str("\u{00A0}a\u{00A0}"), "a");
}

#[test]
fn prefix_test_matches_string_starts() {
    assert!(starts_with_str("github.com/foo/bar", github_prefix()));
    assert!(!starts_with_str("gitlab.com/x/y", github_prefix()));
    assert!(!starts_with_str("github.com", github_prefix()));
    assert!(starts_with_str("anything", ""));
}

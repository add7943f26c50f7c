use crawler_core::{Action, CrawlError, Crawler, Event, LinkResult};

/// Looks a URL up in a small table.
fn lookup<T: Clone>(table: &[(&str, T)], key: &str) -> Option<T> {
    for (k, v) in table {
        if *k == key {
            return Some(v.clone());
        }
    }
    None
}

/// Drives a whole crawl against tables describing the "network": page
/// bodies (absent or `None` meaning the fetch fails), HEAD statuses and
/// GET statuses (absent or `None` meaning transport failure).
fn run_crawl(
    seed: &str,
    max_depth: usize,
    pages: &[(&str, Option<&str>)],
    heads: &[(&str, Option<u16>)],
    gets: &[(&str, Option<u16>)],
) -> Result<Vec<LinkResult>, CrawlError> {
    let mut crawler = Crawler::new(seed, max_depth)?;
    let mut steps = 0;
    loop {
        steps += 1;
        assert!(steps < 10_000, "crawl did not terminate");
        match crawler.next_action() {
            Action::Finished => break,
            Action::FetchPage { url, .. } => {
                let body = lookup(pages, &url).flatten().map(|s| s.to_string());
                crawler.step(Event::PageFetched { body });
            }
            Action::HeadLink { url } => {
                let status = lookup(heads, &url).flatten();
                crawler.step(Event::HeadChecked { status });
            }
            Action::GetLink { url } => {
                let status = lookup(gets, &url).flatten();
                crawler.step(Event::GetChecked { status });
            }
        }
    }
    Ok(crawler.results)
}

#[test]
fn invalid_seed_is_the_only_error() {
    let r = Crawler::new("not a url", 1);
    assert!(matches!(r, Err(CrawlError::InvalidSeed)));
}

#[test]
fn seed_is_normalized() {
    let crawler = Crawler::new("https://example.com", 1).unwrap();
    assert_eq!(crawler.seed.url, "https://example.com/");
    assert_eq!(crawler.seed.host, Some("example.com".to_string()));
}

#[test]
fn status_ok_boundary() {
    assert!(crawler_core::crawler::status_ok(Some(200)));
    assert!(crawler_core::crawler::status_ok(Some(399)));
    assert!(!crawler_core::crawler::status_ok(Some(400)));
    assert!(!crawler_core::crawler::status_ok(Some(500)));
    assert!(!crawler_core::crawler::status_ok(None));
}

#[test]
fn resolve_relative_href() {
    let r = crawler_core::urls::resolve_href("https://example.com/dir/page.html", "c.png").unwrap();
    assert_eq!(r.url, "https://example.com/dir/c.png");
    assert_eq!(r.host, Some("example.com".to_string()));
}

#[test]
fn absolute_href_resolves_the_same_from_any_page() {
    let a = crawler_core::urls::resolve_href("https://one.com/x", "https://t.com/p").unwrap();
    let b = crawler_core::urls::resolve_href("https://two.com/y/z", "https://t.com/p").unwrap();
    assert_eq!(a.url, b.url);
    assert_eq!(a.url, "https://t.com/p");
}

#[test]
fn anchors_come_out_in_order() {
    let hrefs = crawler_core::html::extract_anchor_hrefs(
        "<html><body><a href=\"/a\">x</a><p><a href=\"#top\">y</a></p><a>no href</a>\
         <a href=\"\">empty</a></body></html>",
    );
    assert_eq!(hrefs, vec!["/a".to_string(), "#top".to_string(), "".to_string()]);
}

#[test]
fn seed_page_scenario() {
    // Seed page holds a same-host link, a foreign link, a fragment and an
    // empty href: exactly one result, for the same-host link.
    let results = run_crawl(
        "https://example.com/",
        1,
        &[
            (
                "https://example.com/",
                Some(
                    "<a href=\"/a\">a</a><a href=\"https://other.com/x\">x</a>\
                     <a href=\"#top\">t</a><a href=\"\">e</a>",
                ),
            ),
            ("https://example.com/a", Some("<p>leaf</p>")),
        ],
        &[
            ("https://example.com/", Some(200)),
            ("https://example.com/a", Some(200)),
        ],
        &[],
    )
    .unwrap();
    assert_eq!(results.len(), 1);
    assert_eq!(results[0].url, "https://example.com/a");
    assert_eq!(results[0].status, Some(200));
    assert!(results[0].ok);
}

#[test]
fn head_times_out_get_succeeds() {
    // The link's HEAD fails at the transport level but GET returns 200.
    let results = run_crawl(
        "https://example.com/",
        0,
        &[("https://example.com/", Some("<a href=\"/a\">a</a>"))],
        &[("https://example.com/", Some(200))],
        &[("https://example.com/a", Some(200))],
    )
    .unwrap();
    assert_eq!(results.len(), 1);
    assert_eq!(results[0].url, "https://example.com/a");
    assert_eq!(results[0].status, Some(200));
    assert!(results[0].ok);
}

#[test]
fn head_and_get_both_fail() {
    let results = run_crawl(
        "https://example.com/",
        0,
        &[("https://example.com/", Some("<a href=\"/a\">a</a>"))],
        &[("https://example.com/", Some(200))],
        &[],
    )
    .unwrap();
    assert_eq!(results.len(), 1);
    assert_eq!(results[0].url, "https://example.com/a");
    assert_eq!(results[0].status, None);
    assert!(!results[0].ok);
}

#[test]
fn error_status_is_recorded_not_absent() {
    let results = run_crawl(
        "https://example.com/",
        0,
        &[("https://example.com/", Some("<a href=\"/missing\">m</a>"))],
        &[
            ("https://example.com/", Some(200)),
            ("https://example.com/missing", Some(404)),
        ],
        &[],
    )
    .unwrap();
    assert_eq!(results.len(), 1);
    assert_eq!(results[0].status, Some(404));
    assert!(!results[0].ok);
}

#[test]
fn depth_zero_checks_seed_links_only() {
    // With a budget of zero, the seed page's links are checked but their
    // pages are never fetched, so the chained link never appears.
    let results = run_crawl(
        "https://example.com/",
        0,
        &[
            ("https://example.com/", Some("<a href=\"/a\">a</a>")),
            ("https://example.com/a", Some("<a href=\"/b\">b</a>")),
        ],
        &[
            ("https://example.com/", Some(200)),
            ("https://example.com/a", Some(200)),
            ("https://example.com/b", Some(200)),
        ],
        &[],
    )
    .unwrap();
    assert_eq!(results.len(), 1);
    assert_eq!(results[0].url, "https://example.com/a");
}

#[test]
fn chain_appears_when_every_page_fetches() {
    let results = run_crawl(
        "https://example.com/",
        2,
        &[
            ("https://example.com/", Some("<a href=\"/a\">a</a>")),
            ("https://example.com/a", Some("<a href=\"/b\">b</a>")),
            ("https://example.com/b", Some("<p>leaf</p>")),
        ],
        &[
            ("https://example.com/", Some(200)),
            ("https://example.com/a", Some(200)),
            ("https://example.com/b", Some(200)),
        ],
        &[],
    )
    .unwrap();
    let urls: Vec<&str> = results.iter().map(|r| r.url.as_str()).collect();
    assert_eq!(urls, vec!["https://example.com/a", "https://example.com/b"]);
}

#[test]
fn chain_breaks_when_middle_page_fails() {
    // The page of the first link fails to fetch, so the link it alone
    // carries is never discovered.
    let results = run_crawl(
        "https://example.com/",
        2,
        &[
            ("https://example.com/", Some("<a href=\"/a\">a</a>")),
            ("https://example.com/a", None),
            ("https://example.com/b", Some("<p>leaf</p>")),
        ],
        &[
            ("https://example.com/", Some(200)),
            ("https://example.com/a", Some(200)),
            ("https://example.com/b", Some(200)),
        ],
        &[],
    )
    .unwrap();
    let urls: Vec<&str> = results.iter().map(|r| r.url.as_str()).collect();
    assert_eq!(urls, vec!["https://example.com/a"]);
}

#[test]
fn duplicate_links_produce_one_result() {
    // Two pages link to the same target, and one page repeats a link:
    // the target is reported once.
    let results = run_crawl(
        "https://example.com/",
        2,
        &[
            (
                "https://example.com/",
                Some("<a href=\"/a\">a</a><a href=\"/b\">b</a><a href=\"/b\">b again</a>"),
            ),
            ("https://example.com/a", Some("<a href=\"/b\">b</a><a href=\"/c\">c</a>")),
            ("https://example.com/b", Some("<p>leaf</p>")),
            ("https://example.com/c", Some("<p>leaf</p>")),
        ],
        &[
            ("https://example.com/", Some(200)),
            ("https://example.com/a", Some(200)),
            ("https://example.com/b", Some(200)),
            ("https://example.com/c", Some(200)),
        ],
        &[],
    )
    .unwrap();
    let urls: Vec<&str> = results.iter().map(|r| r.url.as_str()).collect();
    assert_eq!(
        urls,
        vec!["https://example.com/a", "https://example.com/b", "https://example.com/c"]
    );
}

#[test]
fn subdomain_is_a_different_host() {
    let results = run_crawl(
        "https://example.com/",
        1,
        &[(
            "https://example.com/",
            Some("<a href=\"https://www.example.com/x\">w</a><a href=\"/y\">y</a>"),
        )],
        &[
            ("https://example.com/", Some(200)),
            ("https://example.com/y", Some(200)),
        ],
        &[],
    )
    .unwrap();
    assert_eq!(results.len(), 1);
    assert_eq!(results[0].url, "https://example.com/y");
}

#[test]
fn seed_check_failure_does_not_stop_the_crawl() {
    // Both probes of the seed itself fail; the seed is still fetched as a
    // page and its links are reported, and the seed never appears in the
    // results.
    let results = run_crawl(
        "https://example.com/",
        1,
        &[
            ("https://example.com/", Some("<a href=\"/a\">a</a>")),
            ("https://example.com/a", Some("<a href=\"/\">home</a>")),
        ],
        &[("https://example.com/a", Some(200))],
        &[],
    )
    .unwrap();
    assert_eq!(results.len(), 1);
    assert_eq!(results[0].url, "https://example.com/a");
    assert!(results.iter().all(|r| r.url != "https://example.com/"));
}

#[test]
fn empty_body_abandons_the_page() {
    let results = run_crawl(
        "https://example.com/",
        1,
        &[
            ("https://example.com/", Some("<a href=\"/a\">a</a>")),
            ("https://example.com/a", Some("")),
        ],
        &[
            ("https://example.com/", Some(200)),
            ("https://example.com/a", Some(200)),
        ],
        &[],
    )
    .unwrap();
    assert_eq!(results.len(), 1);
    assert_eq!(results[0].url, "https://example.com/a");
}

#[test]
fn scheme_is_not_part_of_the_host_filter() {
    // The filter compares the domain alone, so a plain-http link on an
    // https site is still in scope.
    let results = run_crawl(
        "https://example.com/",
        0,
        &[("https://example.com/", Some("<a href=\"http://example.com/z\">z</a>"))],
        &[
            ("https://example.com/", Some(200)),
            ("http://example.com/z", Some(200)),
        ],
        &[],
    )
    .unwrap();
    assert_eq!(results.len(), 1);
    assert_eq!(results[0].url, "http://example.com/z");
}

#[test]
fn ip_hosts_have_no_domain_and_compare_equal() {
    // An IP-address URL has no domain name, and two absent domains count
    // as equal under the literal comparison, so a link to another address
    // passes the filter.
    let results = run_crawl(
        "http://127.0.0.1/",
        0,
        &[("http://127.0.0.1/", Some("<a href=\"http://192.168.0.1/x\">x</a>"))],
        &[
            ("http://127.0.0.1/", Some(200)),
            ("http://192.168.0.1/x", Some(200)),
        ],
        &[],
    )
    .unwrap();
    assert_eq!(results.len(), 1);
    assert_eq!(results[0].url, "http://192.168.0.1/x");
}

#[test]
fn mismatched_event_is_ignored() {
    let mut crawler = Crawler::new("https://example.com/", 1).unwrap();
    // The crawl is waiting for the seed's HEAD outcome; a GET outcome is
    // not an answer to that and changes nothing.
    crawler.step(Event::GetChecked { status: Some(200) });
    match crawler.next_action() {
        Action::HeadLink { url } => assert_eq!(url, "https://example.com/"),
        _ => panic!("expected the seed HEAD to still be pending"),
    }
}

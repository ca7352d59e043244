use tarantula::body_parser::parse_body;
use tarantula::responses::headers::Headers;
use tarantula::responses::link::Link;
use tarantula::site_crawler::crawl::CrawlAction;
use tarantula::site_crawler::crawl::CrawlError;
use tarantula::site_crawler::crawl::CrawlEvent;
use tarantula::site_crawler::crawl::FetchedResponse;
use tarantula::site_crawler::crawl::SiteCrawl;
use tarantula::site_crawler::fetch::fetch_head_step;
use tarantula::site_crawler::fetch::head_request_target;
use tarantula::site_crawler::fetch::head_verdict;
use tarantula::site_crawler::fetch::page_verdict;
use tarantula::site_crawler::fetch::HeadNext;
use tarantula::site_crawler::fetch::page_fetch_verdict;
use tarantula::site_crawler::fetch::text_fetch_verdict;
use tarantula::site_crawler::fetch::HeadVerdict;
use tarantula::site_crawler::fetch::PageFetchVerdict;
use tarantula::site_crawler::fetch::TextFetchVerdict;
use tarantula::site_crawler::filter_links_to_visit;
use tarantula::site_crawler::get_same_domain_links;
use tarantula::site_crawler::page::parse_usize;
use tarantula::site_crawler::page::Page;
use tarantula::site_crawler::page::PageTimings;
use tarantula::site_crawler::RunConfig;

fn html_headers() -> Headers {
    let mut h = Headers::new();
    h.insert("content-type".into(), "text/html; charset=UTF-8".into());
    h
}

fn response(status: u16, headers: Headers, body: &str) -> FetchedResponse {
    FetchedResponse { status, version: "HTTP/1.1".into(), headers, body: body.into() }
}

fn fetched(head: FetchedResponse, get: Option<FetchedResponse>) -> CrawlEvent {
    CrawlEvent::PageFetched { timings: PageTimings::new(), head, get }
}

#[test]
fn filter_links_to_visit_filters_correctly() {
    let known_links = vec![String::from("https://example.com/foo"), String::from("https://example.com/bar")];

    let result = filter_links_to_visit(
        vec![
            Link::from_str("https://example.com/foo"),
            Link::from_str("https://example.com/bar"),
            Link::from_str("https://example.com/foobar"),
        ],
        &known_links,
    );
    assert_eq!(result, vec![Link::from_str("https://example.com/foobar")]);
}

#[test]
fn same_domain_links_are_sorted_unique_and_on_the_site() {
    let links: Vec<Link> = vec![
        "https://faq.example.com/",
        "/agb/",
        "https://twitter.com/example-com",
        "/",
        "mailto:support@example.com",
        "/agb/",
        "https://example.com/events/",
    ]
    .into_iter()
    .map(Link::from_str)
    .collect();
    let result: Vec<String> = get_same_domain_links("example.com", &links).into_iter().map(|l| l.uri).collect();
    assert_eq!(result, vec!["/", "/agb/", "https://example.com/events/", "https://faq.example.com/"]);
}

#[test]
fn site_run_config_defaults() {
    let config = RunConfig::new("https://example.com".into());
    assert_eq!(config.url, "https://example.com");
    assert!(!config.ignore_redirects);
    assert_eq!(config.maximum_redirects, 10);
    assert_eq!(config.maximum_depth, 16);
    assert!(!config.ignore_robots_txt);
    assert!(!config.keep_html_in_memory);
    assert_eq!(config.user_agent, "tarantula");
}

#[test]
fn content_length_is_parsed_as_usize() {
    assert_eq!(parse_usize("0"), Some(0));
    assert_eq!(parse_usize("1234"), Some(1234));
    assert_eq!(parse_usize("+7"), Some(7));
    assert_eq!(parse_usize(""), None);
    assert_eq!(parse_usize("+"), None);
    assert_eq!(parse_usize("-1"), None);
    assert_eq!(parse_usize("12a"), None);
    assert_eq!(parse_usize(" 1"), None);
    assert_eq!(parse_usize("18446744073709551615"), Some(usize::MAX));
    assert_eq!(parse_usize("18446744073709551616"), None);
    for s in ["0", "42", "+42", "-42", "4 2", "99999999999999999999"] {
        assert_eq!(parse_usize(s), s.parse::<usize>().ok(), "{}", s);
    }
}

#[test]
fn page_reads_its_response() {
    let mut page = Page::new_with_parent(Link::from_str("/a"), "https://example.com/".into());
    assert_eq!(page.get_status_code(), None);
    assert_eq!(page.get_content_type(), None);
    assert!(page.get_links().is_empty());
    let mut headers = html_headers();
    headers.insert("content-length".into(), "12".into());
    page.set_response(200, "HTTP/1.1".into(), headers, "<html></html>".into());
    assert_eq!(page.get_status_code(), Some(200));
    assert_eq!(page.get_content_type(), Some("text/html; charset=UTF-8".to_string()));
    assert_eq!(page.get_content_length(), 12);
    assert_eq!(page.try_content_length(), Some(12));
    assert_eq!(page.get_body(), &Some("<html></html>".to_string()));
    page.reset_body();
    assert_eq!(page.get_body(), &None);
    assert_eq!(page.parent_uri, Some("https://example.com/".to_string()));
    let root = Page::new(Link::from_str("https://example.com/start"));
    assert_eq!(root.get_protocol(), "https");
    assert_eq!(root.get_uri(), "https://example.com/start");
    assert_eq!(page.try_get_protocol(), None);
}

#[test]
fn head_requests_follow_redirects_up_to_the_maximum() {
    match fetch_head_step("https://example.com/a", false, 1, 3, 301, &Some("/b".into()), &None) {
        Some(HeadNext::Follow { uri }) => assert_eq!(uri, "https://example.com/b"),
        _ => panic!("should follow"),
    }
    assert!(matches!(fetch_head_step("https://example.com/a", false, 3, 3, 301, &Some("/b".into()), &None), Some(HeadNext::Done)));
    assert!(matches!(fetch_head_step("https://example.com/a", true, 1, 3, 301, &Some("/b".into()), &None), Some(HeadNext::Done)));
    assert!(matches!(fetch_head_step("https://example.com/a", false, 1, 3, 200, &Some("/b".into()), &None), Some(HeadNext::Done)));
    assert!(matches!(fetch_head_step("https://example.com/a", false, 1, 3, 302, &None, &None), Some(HeadNext::Done)));
    assert!(fetch_head_step("/relative", false, 1, 3, 302, &Some("/b".into()), &None).is_none());
}

#[test]
fn head_and_page_verdicts() {
    assert_eq!(head_verdict(404, &Some("text/html".into())), HeadVerdict::Failed);
    assert_eq!(head_verdict(200, &Some("application/json".into())), HeadVerdict::NotHtml);
    assert_eq!(head_verdict(200, &Some("text/html; charset=UTF-8".into())), HeadVerdict::Download);
    assert_eq!(head_verdict(204, &None), HeadVerdict::Download);
    assert!(page_verdict(&Some("application/xhtml, text/html".into())));
    assert!(!page_verdict(&Some("text/plain".into())));
    assert!(!page_verdict(&None));
    assert_eq!(head_request_target("https", "https://example.com/a/b?c=d", "example.com", &None), Some("https://example.com/a/b".to_string()));
}

#[test]
fn site_crawl_builds_the_tree_of_pages() {
    let (mut crawl, action) = SiteCrawl::start(RunConfig::new("https://example.com".into())).unwrap();
    match action {
        CrawlAction::CheckRobots { user_agent, url } => {
            assert_eq!(user_agent, "tarantula");
            assert_eq!(url, "https://example.com/");
        }
        _ => panic!("robots.txt first"),
    }
    let action = crawl.handle_event(CrawlEvent::RobotsChecked { allowed: true }).unwrap();
    match action {
        CrawlAction::FetchPage { url, ignore_redirects, maximum_redirects, parent_uri } => {
            assert_eq!(url, "https://example.com/");
            assert!(!ignore_redirects);
            assert_eq!(maximum_redirects, 10);
            assert_eq!(parent_uri, None);
        }
        _ => panic!("fetch the start page"),
    }
    let body = "<html><a href=\"/b\">b</a><a href=\"/a\">a</a><a href=\"https://other.org/\">o</a><a href=\"/a\">again</a></html>";
    let action = crawl
        .handle_event(fetched(response(200, html_headers(), ""), Some(response(200, html_headers(), body))))
        .unwrap();
    match action {
        CrawlAction::CheckRobots { url, .. } => assert_eq!(url, "https://example.com/a"),
        _ => panic!("robots.txt for /a"),
    }
    assert_eq!(crawl.known, vec!["https://example.com", "/a", "/b"]);
    // robots.txt forbids /a: it is not loaded
    let action = crawl.handle_event(CrawlEvent::RobotsChecked { allowed: false }).unwrap();
    match action {
        CrawlAction::CheckRobots { url, .. } => assert_eq!(url, "https://example.com/b"),
        _ => panic!("robots.txt for /b"),
    }
    let action = crawl.handle_event(CrawlEvent::RobotsChecked { allowed: true }).unwrap();
    match action {
        CrawlAction::FetchPage { url, parent_uri, .. } => {
            assert_eq!(url, "https://example.com/b");
            assert_eq!(parent_uri, Some("https://example.com".to_string()));
        }
        _ => panic!("fetch /b"),
    }
    let action = crawl.handle_event(fetched(response(404, html_headers(), ""), None)).unwrap();
    let page = match action {
        CrawlAction::Finished { page } => page,
        _ => panic!("the crawl is over"),
    };
    assert_eq!(page.link.uri, "https://example.com");
    assert_eq!(page.get_status_code(), Some(200));
    assert_eq!(page.get_body(), &None, "the HTML is dropped");
    assert!(page.response_timings.parse_complete_time.is_some());
    assert!(page.response_timings.children_compete_time.is_some());
    let children = page.descendants.as_ref().unwrap();
    assert_eq!(children.len(), 2);
    assert_eq!(children[0].link.uri, "/a");
    assert_eq!(children[0].page_response.is_none(), true);
    assert_eq!(children[1].link.uri, "/b");
    assert_eq!(children[1].get_status_code(), Some(404));
    assert!(children[1].descendants.is_none());
    let links: Vec<String> = page.get_links().into_iter().map(|l| l.uri).collect();
    assert_eq!(links, vec!["/a", "/b"]);
}

#[test]
fn site_crawl_keeps_pages_beyond_the_maximum_depth_unvisited() {
    let mut config = RunConfig::new("https://example.com".into());
    config.maximum_depth = 1;
    config.ignore_robots_txt = true;
    config.keep_html_in_memory = true;
    let (mut crawl, action) = SiteCrawl::start(config).unwrap();
    assert!(matches!(action, CrawlAction::FetchPage { .. }));
    let body = "<a href=\"/x\">x</a>";
    let action = crawl
        .handle_event(fetched(response(200, Headers::new(), ""), Some(response(200, html_headers(), body))))
        .unwrap();
    let page = match action {
        CrawlAction::Finished { page } => page,
        _ => panic!("nothing more to load"),
    };
    assert_eq!(page.get_body(), &Some(body.to_string()), "the HTML is kept");
    let children = page.descendants.as_ref().unwrap();
    assert_eq!(children.len(), 1);
    assert!(children[0].page_response.is_none());
}

#[test]
fn site_crawl_with_depth_zero_loads_nothing() {
    let mut config = RunConfig::new("https://example.com".into());
    config.maximum_depth = 0;
    let (_, action) = SiteCrawl::start(config).unwrap();
    match action {
        CrawlAction::Finished { page } => {
            assert!(page.page_response.is_none());
            assert!(page.descendants.is_none());
        }
        _ => panic!("nothing to load"),
    }
}

#[test]
fn site_crawl_skips_pages_that_are_not_html() {
    let mut config = RunConfig::new("https://example.com".into());
    config.ignore_robots_txt = true;
    let (mut crawl, _) = SiteCrawl::start(config).unwrap();
    let mut json = Headers::new();
    json.insert("content-type".into(), "application/json".into());
    let action = crawl.handle_event(fetched(response(200, json, ""), None)).unwrap();
    match action {
        CrawlAction::Finished { page } => {
            assert!(page.page_response.is_none(), "a skipped page records no response");
            assert!(page.descendants.is_none());
        }
        _ => panic!("the crawl is over"),
    }
}

#[test]
fn site_crawl_rejects_bad_starts_and_unexpected_events() {
    assert!(matches!(SiteCrawl::start(RunConfig::new("/no/host".into())), Err(CrawlError::InvalidStartUrl)));
    assert!(matches!(SiteCrawl::start(RunConfig::new("ftp://example.com".into())), Err(CrawlError::UnknownProtocol)));
    let (mut crawl, _) = SiteCrawl::start(RunConfig::new("https://example.com".into())).unwrap();
    assert!(matches!(
        crawl.handle_event(fetched(response(200, html_headers(), ""), None)),
        Err(CrawlError::UnexpectedEvent)
    ));
}

#[test]
fn text_and_page_fetch_verdicts() {
    assert_eq!(text_fetch_verdict(500, &Some("text/html".into())), TextFetchVerdict::NoText);
    assert_eq!(text_fetch_verdict(200, &None), TextFetchVerdict::MissingContentType);
    assert_eq!(text_fetch_verdict(200, &Some("image/png".into())), TextFetchVerdict::NoText);
    assert_eq!(text_fetch_verdict(200, &Some("application/xhtml+xml, text/html".into())), TextFetchVerdict::Download);
    assert_eq!(page_fetch_verdict(301, &Some("text/html".into())), PageFetchVerdict::Failed);
    assert_eq!(page_fetch_verdict(200, &Some("application/json".into())), PageFetchVerdict::NotHtml);
    assert_eq!(page_fetch_verdict(200, &Some("text/html".into())), PageFetchVerdict::Download);
    assert_eq!(page_fetch_verdict(200, &None), PageFetchVerdict::Unknown);
}

#[test]
fn body_hrefs_are_read_from_first_attributes_and_sorted() {
    let body = "<html><body><a href=\"/b\">b</a><a href=\"/a\">a</a><img src=\"/i.png\"><a class=\"x\" href=\"/c\">c</a></body></html>";
    let hrefs = parse_body(body);
    assert!(hrefs.contains(&"/a".to_string()));
    assert!(hrefs.contains(&"/b".to_string()));
    assert!(!hrefs.contains(&"/i.png".to_string()));
    let mut sorted = hrefs.clone();
    sorted.sort();
    assert_eq!(hrefs, sorted);
}

#[test]
fn page_url_parts_where_they_exist() {
    let page = Page::new(Link::from_str("https://example.com/x"));
    assert_eq!(page.try_get_protocol(), Some("https".to_string()));
    assert_eq!(page.try_get_uri(), Some("https://example.com/x".to_string()));
    let broken = Page::new(Link::from_str("not a url"));
    assert_eq!(broken.try_get_uri(), None);
    assert_eq!(broken.try_get_protocol(), None);
}

#[test]
fn a_fetched_page_records_the_response_it_was_judged_by() {
    let (crawl, _) = SiteCrawl::start(RunConfig::new("https://example.com".into())).unwrap();
    let protocol = "https".to_string();
    let host = "example.com".to_string();

    let mut failed = Page::new(Link::from_str("/x"));
    let links = crawl.links_of_fetched(&mut failed, &protocol, &host, true, PageTimings::new(), response(500, html_headers(), ""), None);
    assert!(links.is_empty());
    assert_eq!(failed.get_status_code(), Some(500));

    let mut not_html = Page::new(Link::from_str("/y"));
    let mut json = Headers::new();
    json.insert("content-type".into(), "application/json".into());
    let links = crawl.links_of_fetched(&mut not_html, &protocol, &host, true, PageTimings::new(), response(200, json, ""), None);
    assert!(links.is_empty());
    assert!(not_html.page_response.is_none());

    let mut loaded = Page::new(Link::from_str("/z"));
    let body = "<a href=\"/next\">n</a>";
    let links = crawl.links_of_fetched(
        &mut loaded,
        &protocol,
        &host,
        true,
        PageTimings::new(),
        response(200, html_headers(), ""),
        Some(response(201, html_headers(), body)),
    );
    assert_eq!(links.len(), 1);
    assert_eq!(links[0].uri, "/next");
    assert_eq!(loaded.get_status_code(), Some(201));
    assert_eq!(loaded.get_body(), &None, "the HTML is dropped once read");
}

use std::sync::Arc;

use tarantula::dom_parser::DomParserService;
use tarantula::link_type_checker::LinkTypeChecker;
use tarantula::page_loader::page_crawl_command::CrawlStart;
use tarantula::page_loader::page_crawl_command::Crawlability;
use tarantula::page_loader::page_crawl_command::HeadOutcome;
use tarantula::page_loader::page_crawl_command::PageCrawlCommand;
use tarantula::page_loader::page_download_command::DefaultPageDownloadCommand;
use tarantula::page_loader::task_context::DefaultTaskContext;
use tarantula::page_loader::task_context::KnownLinks;
use tarantula::page_loader::task_context::TaskContextInit;
use tarantula::responses::crawl_status::CrawlStatus;
use tarantula::responses::head_response::HeadResponse;
use tarantula::responses::headers::Headers;
use tarantula::responses::page_response::PageResponse;
use tarantula::responses::run_config::RunConfig;
use tarantula::responses::status_code::StatusCode;

fn crawl_context(maximum_depth: u16) -> DefaultTaskContext {
    let mut run_config = RunConfig::new("https://example.com".into(), None);
    run_config.maximum_depth = Some(maximum_depth);
    let mut context = DefaultTaskContext::init(run_config, 1, 0).unwrap();
    context.robots_service.allow_all = true;
    context
}

fn headers_of(pairs: &[(&str, &str)]) -> Headers {
    let mut h = Headers::new();
    for (name, value) in pairs {
        h.insert(name.to_string(), value.to_string());
    }
    h
}

#[test]
fn extract_links_invokes_dom_parser() {
    // given: a test body
    let body = String::from("<a href=\"https://www.example.com\">");
    let dom_parser = Arc::new(DomParserService::new(Arc::new(LinkTypeChecker::new("example.com"))));

    // when: extract_links is invoked
    let result = PageCrawlCommand::extract_links("https".into(), "example.com".into(), Some(&body), &dom_parser);

    // then: result contains 1 link
    assert_eq!(result.is_some(), true, "Should contain a result");
    assert_eq!(result.unwrap().len(), 1, "Should contain exactly one link");
}

#[test]
fn extract_links_without_body_finds_nothing() {
    let dom_parser = DomParserService::new(Arc::new(LinkTypeChecker::new("example.com")));
    assert!(PageCrawlCommand::extract_links("https".into(), "example.com".into(), None, &dom_parser).is_none());
}

#[test]
fn will_not_crawl_if_max_depth_reached() {
    let mut task_context = crawl_context(1);
    let command = PageCrawlCommand::new("https://example.com".into(), "https://example.com".into(), 2);
    match command.crawl_start(&mut task_context, 5) {
        CrawlStart::Report(response) => {
            assert_eq!(response.crawl_status, Some(CrawlStatus::MaximumCrawlDepthReached));
            assert!(response.head.is_none());
            assert!(response.get.is_none());
            assert!(response.response_timings.start_time.is_some());
            assert!(response.response_timings.end_time.is_some());
            assert_eq!(response.uuid, 5);
        }
        _ => panic!("Should have result, if max depth reached"),
    }
}

#[test]
fn will_crawl_if_max_depth_is_zero() {
    let mut task_context = crawl_context(0);
    let command = PageCrawlCommand::new("https://example.com".into(), "https://example.com".into(), 9000);
    assert_eq!(command.verify_crawlability(&mut task_context), Crawlability::Crawlable);
    match command.crawl_start(&mut task_context, 5) {
        CrawlStart::FetchHeader { url, .. } => assert_eq!(url, "https://example.com"),
        _ => panic!("Should crawl, if max depth not reached, yet"),
    }
}

#[test]
fn will_not_crawl_if_url_is_crawled() {
    let mut task_context = crawl_context(16);
    task_context.add_crawled_link("https://example.com".into());
    let command = PageCrawlCommand::new("https://example.com".into(), "https://example.com".into(), 1);
    assert!(matches!(command.crawl_start(&mut task_context, 5), CrawlStart::Skip), "Should have no result, if url is known");
}

#[test]
fn will_not_crawl_if_url_is_tasked() {
    let mut task_context = crawl_context(16);
    task_context.add_tasked_link("https://example.com".into());
    let command = PageCrawlCommand::new("https://example.com".into(), "https://example.com".into(), 1);
    assert_eq!(command.verify_crawlability(&mut task_context), Crawlability::AlreadyTasked);
    assert!(matches!(command.crawl_start(&mut task_context, 5), CrawlStart::Skip), "Should have no result, if url is tasked");
}

#[test]
fn will_crawl_if_url_is_untasked() {
    let mut task_context = crawl_context(16);
    let command = PageCrawlCommand::new("https://example.com".into(), "https://example.com".into(), 1);
    assert!(matches!(command.crawl_start(&mut task_context, 5), CrawlStart::FetchHeader { .. }));
    assert_eq!(task_context.get_all_tasked_links(), vec!["https://example.com".to_string()], "Url should now be tasked");
}

#[test]
fn will_not_crawl_if_url_is_forbidden_by_robots_txt() {
    let mut task_context = crawl_context(16);
    task_context.robots_service.allow_all = false;
    task_context.robots_service.disallow_all = true;
    let command = PageCrawlCommand::new("https://example.com".into(), "https://example.com".into(), 1);
    match command.crawl_start(&mut task_context, 5) {
        CrawlStart::Report(response) => {
            assert_eq!(response.crawl_status, Some(CrawlStatus::RestrictedByRobotsTxt));
        }
        _ => panic!("Should have result for urls forbidden by robots.txt"),
    }
}

#[test]
fn returned_page_response_does_not_include_body_if_head_status_is_not_200() {
    let command = PageCrawlCommand::new("https://example.com".into(), "https://example.com".into(), 1);
    let page_response = PageResponse::new("https://example.com".into(), "https://example.com".into(), 5);
    let mut head = HeadResponse::new("https://example.com".into(), StatusCode { code: 404, label: "Not Found".into() });
    head.headers = headers_of(&[("content-type", "text/html")]);
    match command.consume_fetch_header_response(page_response, Ok(head)) {
        HeadOutcome::Finished(p) => {
            assert!(p.get.is_none(), "Should not have get response, if status is not ok");
            assert!(p.head.is_some(), "Should have head, regardless of status code");
            assert!(p.response_timings.end_time.is_some(), "Should have end_time, regardless of status code");
            assert_eq!(p.final_url_after_redirects, Some("https://example.com".to_string()));
        }
        _ => panic!("Should not download"),
    }
}

#[test]
fn does_not_download_page_if_content_type_is_not_text_html() {
    let command = PageCrawlCommand::new("https://example.com".into(), "https://example.com".into(), 1);
    let page_response = PageResponse::new("https://example.com".into(), "https://example.com".into(), 5);
    let mut head = HeadResponse::new("https://example.com".into(), StatusCode { code: 200, label: "OK".into() });
    head.headers = headers_of(&[("content-type", "application/json; charset=UTF-8")]);
    assert!(matches!(command.consume_fetch_header_response(page_response, Ok(head)), HeadOutcome::Finished(_)));
}

#[test]
fn downloads_page_if_content_type_is_text_html() {
    let command = PageCrawlCommand::new("https://example.com".into(), "https://example.com".into(), 1);
    let page_response = PageResponse::new("https://example.com".into(), "https://example.com".into(), 5);
    let mut head = HeadResponse::new("https://example.com".into(), StatusCode { code: 200, label: "OK".into() });
    head.headers = headers_of(&[("content-type", "text/html; charset=UTF-8")]);
    let (url, page_response) = match command.consume_fetch_header_response(page_response, Ok(head)) {
        HeadOutcome::Download { url, page_response } => (url, page_response),
        _ => panic!("Should download"),
    };
    assert_eq!(url, "https://example.com");
    let download = DefaultPageDownloadCommand::download_response(
        url,
        200,
        headers_of(&[("content-type", "text/html")]),
        "<html><p>Hello World!</p><a href=\"/inner\">in</a></html>".into(),
        0,
    );
    let dom_parser = DomParserService::new(Arc::new(LinkTypeChecker::new("example.com")));
    let result = command.try_consume_page_download_response(&dom_parser, page_response, download).unwrap();
    assert_eq!(result.get.as_ref().unwrap().body.as_ref().unwrap(), "<html><p>Hello World!</p><a href=\"/inner\">in</a></html>", "Should have body, if status content-type is text/html");
    assert!(result.head.is_some(), "Should have head, regardless of status code");
    let links = result.links.unwrap();
    assert_eq!(links.len(), 1);
    assert_eq!(links[0].uri, "/inner");
}

#[test]
fn cloudfront_cache_hit_is_downloaded_despite_status() {
    let command = PageCrawlCommand::new("https://example.com".into(), "https://example.com".into(), 1);
    let page_response = PageResponse::new("https://example.com".into(), "https://example.com".into(), 5);
    let mut head = HeadResponse::new("https://example.com".into(), StatusCode { code: 403, label: "Forbidden".into() });
    head.headers = headers_of(&[("content-type", "text/html"), ("x-cache", "Error from cloudfront")]);
    assert!(matches!(command.consume_fetch_header_response(page_response, Ok(head)), HeadOutcome::Download { .. }));
}

#[test]
fn unreachable_domains_return_error_message_in_proper_response() {
    let command = PageCrawlCommand::new("https://unreachable-domain.no".into(), "https://unreachable-domain.no".into(), 1);
    let page_response = PageResponse::new("https://unreachable-domain.no".into(), "https://unreachable-domain.no".into(), 5);
    match command.consume_fetch_header_response(page_response, Err("Some nasty shit happened.".into())) {
        HeadOutcome::Finished(p) => {
            assert!(p.get.is_none(), "Should not have get response, even if error occurred");
            assert!(p.head.is_none(), "Should not have head, even if error occurred");
            assert!(p.response_timings.start_time.is_some(), "Should have start_time, even if error occurred");
            assert!(p.response_timings.end_time.is_some(), "Should have end_time, even if error occurred");
            assert_eq!(p.crawl_status, Some(CrawlStatus::ConnectionError("Some nasty shit happened.".into())));
        }
        _ => panic!("Should have a crawl result"),
    }
}

#[test]
fn download_response_is_recorded() {
    let response = DefaultPageDownloadCommand::download_response(
        "https://example.com".into(),
        200,
        headers_of(&[("content-type", "text/plain")]),
        "Hello World".into(),
        11,
    );
    assert_eq!(response.requested_url, "https://example.com");
    assert_eq!(response.http_response_code.code, 200);
    assert_eq!(response.http_response_code.label, "OK");
    assert_eq!(response.body, Some("Hello World".to_string()), "Should have body");
    assert_eq!(response.response_timings.start_time, Some(11));
    assert!(response.response_timings.end_time.is_some(), "Should have updated end_time after successful run");
    assert_eq!(response.response_timings.name, "https://example.com");
}

use std::sync::Arc;

use tarantula::link_type_checker::LinkTypeChecker;
use tarantula::page_loader::fetch_header_command::DefaultFetchHeaderCommand;
use tarantula::page_loader::fetch_header_command::HeadObservation;
use tarantula::page_loader::fetch_header_command::HeadStep;
use tarantula::responses::head_response::HeadResponse;
use tarantula::responses::headers::Headers;
use tarantula::responses::redirect::Redirect;
use tarantula::uri_service::UriService;

fn header_map(pairs: &[(&str, &str)]) -> Headers {
    let mut h = Headers::new();
    for (name, value) in pairs {
        h.insert(name.to_string(), value.to_string());
    }
    h
}

/// Drives the HEAD request of `url` through `answers`, one per request, as the
/// caller of `fetch_header_step` does; returns the final response and the
/// urls the requests went to.
fn drive(
    url: &str,
    ignore_redirects: bool,
    maximum_redirects: u8,
    domain: &str,
    answers: Vec<(u16, Headers)>,
) -> (HeadResponse, Vec<String>) {
    let uri_service = UriService::new(Arc::new(LinkTypeChecker::new(domain)));
    let url = url.to_string();
    let mut redirects: Option<Vec<Redirect>> = None;
    let mut requested = vec![];
    for (status, headers) in answers {
        requested.push(match &redirects {
            Some(r) if !r.is_empty() => r.last().unwrap().destination.clone(),
            _ => url.clone(),
        });
        let step = DefaultFetchHeaderCommand::fetch_header_step(
            &url,
            ignore_redirects,
            maximum_redirects,
            &uri_service,
            redirects.take(),
            HeadObservation { status, headers },
            0,
        )
        .expect("a step");
        match step {
            HeadStep::FollowRedirect { redirects: next } => redirects = Some(next),
            HeadStep::Done(head) => return (head, requested),
        }
    }
    panic!("more requests than answers");
}

#[test]
fn returns_simple_result_on_simple_request_without_redirect_following() {
    let (head, requested) = drive("https://example.com", false, 10, "example.com", vec![(200, Headers::new())]);
    assert_eq!(requested, vec!["https://example.com".to_string()]);
    assert_eq!(head.redirects.len(), 0, "Should not have any redirects");
    assert_eq!(head.response_timings.end_time.is_some(), true, "Should have updated end_time after successful run");
    assert_eq!(head.http_response_code.code, 200);
    assert_eq!(head.http_response_code.label, "OK");
    assert_eq!(head.requested_url, "https://example.com");
}

#[test]
fn should_return_redirect_list_up_to_max_redirects() {
    let target_url = String::from("https://example.com");
    let (head, requested) = drive(
        &target_url,
        false,
        2,
        "example.com",
        vec![
            (308, header_map(&[("location", "https://first-redirect.example.com/")])),
            (308, header_map(&[("location", "https://second-redirect.example.com"), ("x-custom", "Hello World")])),
            (200, header_map(&[("x-custom", "Final destination")])),
        ],
    );
    assert_eq!(
        requested,
        vec![
            target_url.clone(),
            "https://first-redirect.example.com/".to_string(),
            "https://second-redirect.example.com/".to_string()
        ]
    );
    assert_eq!(head.redirects.len(), 2, "Should have two redirects");
    assert_eq!(head.headers.get("x-custom").unwrap(), String::from("Final destination"), "Should have headers embedded");
    assert_eq!(head.response_timings.end_time.is_some(), true, "Should have updated end_time after successful run");

    assert_eq!(head.redirects[0].source, target_url, "Source should match");
    assert_eq!(head.redirects[0].destination, String::from("https://first-redirect.example.com/"), "Destination should match");
    assert_eq!(head.redirects[0].headers.get("location").unwrap(), String::from("https://first-redirect.example.com/"), "Should have headers embedded");
    assert_eq!(head.redirects[0].response_timings.end_time.is_some(), true, "Should have updated end_time after successful run - redirect[0]");
    assert_eq!(head.redirects[0].http_response_code.code, 308);
    assert_eq!(head.redirects[0].http_response_code.label, "Permanent Redirect");
    assert_eq!(head.redirects[1].source, String::from("https://first-redirect.example.com/"), "Source should match");
    assert_eq!(head.redirects[1].destination, String::from("https://second-redirect.example.com/"), "Destination should match");
    assert_eq!(head.redirects[1].headers.get("x-custom").unwrap(), String::from("Hello World"), "Should have headers embedded");
    assert_eq!(head.redirects[1].response_timings.end_time.is_some(), true, "Should have updated end_time after successful run - redirect[1]");
    assert_eq!(head.get_final_uri(), "https://second-redirect.example.com/");
}

#[test]
fn redirects_beyond_the_maximum_are_not_followed() {
    let (head, requested) = drive(
        "https://example.com",
        false,
        1,
        "example.com",
        vec![
            (301, header_map(&[("location", "/moved")])),
            (302, header_map(&[("location", "/moved-again")])),
        ],
    );
    assert_eq!(requested.len(), 2);
    assert_eq!(head.redirects.len(), 1);
    assert_eq!(head.redirects[0].destination, "https://example.com/moved");
    assert_eq!(head.http_response_code.code, 302);
    assert_eq!(head.requested_url, "https://example.com/moved");
}

#[test]
fn should_return_no_redirect_if_ignore_redirects_is_true() {
    let (head, _) = drive(
        "https://example.com",
        true,
        0,
        "example.com",
        vec![(308, header_map(&[("location", "https://ignorable-redirect.example.com/")]))],
    );
    assert_eq!(head.redirects.len(), 0, "Should have no redirects");
    assert_eq!(head.response_timings.end_time.is_some(), true, "Should have updated end_time after successful run");
}

#[test]
fn should_return_no_redirect_if_ignore_redirects_is_true_and_maximum_redirect_is_set() {
    let (head, _) = drive(
        "https://example.com",
        true,
        2,
        "example.com",
        vec![(308, header_map(&[("location", "https://ignorable-redirect.example.com/")]))],
    );
    assert_eq!(head.redirects.len(), 0, "Should have no redirects");
    assert_eq!(head.response_timings.end_time.is_some(), true, "Should have updated end_time after successful run");
}

#[test]
fn redirect_without_location_is_the_final_response() {
    let (head, _) = drive("https://example.com", false, 5, "example.com", vec![(301, Headers::new())]);
    assert_eq!(head.redirects.len(), 0);
    assert_eq!(head.http_response_code.code, 301);
}

#[test]
fn unofficial_status_gets_its_cloudflare_label() {
    let (head, _) = drive("https://example.com", false, 5, "example.com", vec![(521, Headers::new())]);
    assert_eq!(head.http_response_code.label, "[CLOUDFLARE] Web Server Is Down");
    let (head, _) = drive("https://example.com", false, 5, "example.com", vec![(599, Headers::new())]);
    assert_eq!(head.http_response_code.label, "Unknown Status Code");
}

use tarantula::responses::get_response::GetResponse;
use tarantula::responses::head_response::HeadResponse;
use tarantula::responses::headers::Headers;
use tarantula::responses::link::Link;
use tarantula::responses::page_response::PageResponse;
use tarantula::responses::redirect::Redirect;
use tarantula::responses::response_timings::ResponseTimings;
use tarantula::responses::run_config::RunConfig;
use tarantula::responses::status_code::StatusCode;
use tarantula::responses::uri_scope::UriScope;

#[test]
fn run_config_defaults() {
    let config = RunConfig::new("https://example.com".into(), Some("https://cb.example.org".into()));
    assert_eq!(config.url, "https://example.com");
    assert_eq!(config.ignore_redirects, Some(false));
    assert_eq!(config.maximum_redirects, Some(10));
    assert_eq!(config.maximum_depth, Some(16));
    assert_eq!(config.ignore_robots_txt, Some(false));
    assert_eq!(config.keep_html_in_memory, Some(false));
    assert_eq!(config.user_agent, Some("tarantula 🕷".to_string()));
    assert_eq!(config.robots_txt_info_url, None);
    assert_eq!(config.callback_url, Some("https://cb.example.org".to_string()));
    assert_eq!(config.callback_url_finished, None);
    assert_eq!(config.crawl_delay_ms, Some(10_000));
}

#[test]
fn links_are_trimmed_like_str_trim() {
    for s in [" /a ", "\t/b\n", "\u{3000}/c\u{2028}", "/d", "   ", "\u{85}x y\u{a0}"] {
        assert_eq!(Link::from_str(s).uri, s.trim(), "{:?}", s);
    }
    let link = Link::from_str_with_scope(" /x ", Some(UriScope::SameDomain));
    assert_eq!(link.uri, "/x");
    assert_eq!(link.scope, Some(UriScope::SameDomain));
    assert_eq!(link.protocol, None);
    assert_eq!(link.source_tag, None);
}

#[test]
fn links_are_equal_when_their_uris_are() {
    assert_eq!(Link::from_str("/a"), Link::from_str_with_scope("/a", Some(UriScope::Root)));
    assert_ne!(Link::from_str("/a"), Link::from_str("/b"));
}

#[test]
fn responses_are_named_after_their_url() {
    let head = HeadResponse::new("https://example.com".into(), StatusCode { code: 200, label: "OK".into() });
    assert_eq!(head.response_timings.name, "HEADResponse.https://example.com");
    assert!(head.response_timings.start_time.is_some());
    assert!(head.response_timings.end_time.is_none());
    assert!(head.redirects.is_empty());
    let get = GetResponse::new("https://example.com".into(), StatusCode { code: 200, label: "OK".into() });
    assert_eq!(get.response_timings.name, "GETResponse.https://example.com");
    assert!(get.body.is_none());
    let page = PageResponse::new("https://example.com".into(), "/".into(), 3);
    assert_eq!(page.response_timings.name, "PageResponse.https://example.com");
    assert_eq!(page.uuid, 3);
    assert!(page.head.is_none() && page.get.is_none() && page.links.is_none() && page.crawl_status.is_none());
    let redirect = Redirect::from("https://a.example.com".into(), "https://b.example.com".into());
    assert_eq!(redirect.response_timings.name, "Redirects.https://a.example.com");
    assert_eq!(redirect.http_response_code.code, 200);
    assert_eq!(redirect.http_response_code.label, "OK");
    let timings = ResponseTimings::from("t".into(), 1, 2);
    assert_eq!((timings.start_time, timings.end_time), (Some(1), Some(2)));
}

#[test]
fn final_uri_is_the_last_redirect_destination() {
    let mut head = HeadResponse::new("https://example.com".into(), StatusCode { code: 200, label: "OK".into() });
    assert_eq!(head.get_final_uri(), "https://example.com");
    head.redirects.push(Redirect::from("https://example.com".into(), "https://example.com/a".into()));
    head.redirects.push(Redirect::from("https://example.com/a".into(), "https://example.com/b".into()));
    assert_eq!(head.get_final_uri(), "https://example.com/b");
}

#[test]
fn headers_keep_the_last_value_of_a_name() {
    let mut headers = Headers::new();
    assert_eq!(headers.get("a"), None);
    headers.insert("a".into(), "1".into());
    headers.insert("b".into(), "2".into());
    headers.insert("a".into(), "3".into());
    assert_eq!(headers.get("a"), Some("3".to_string()));
    assert!(headers.contains_key("b"));
    assert!(!headers.contains_key("c"));
    assert_eq!(headers.duplicate().get("a"), Some("3".to_string()));
}

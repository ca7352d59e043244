use tarantula::page_loader::robots_service::robots_txt_url;
use tarantula::page_loader::robots_service::is_robots_body_parsable;
use tarantula::page_loader::robots_service::RobotsFetchOutcome;
use tarantula::page_loader::robots_service::RobotsService;
use tarantula::page_loader::robots_service::RobotsTxt;

#[test]
fn can_not_access_on_disallow_all() {
    // given: a robots.txt with disallow_all = true
    let mut service = RobotsService::new("tarantula".into());
    service.disallow_all = true;

    // when: can_access is invoked
    let can_access = service.can_access("https://example.com");

    // then: result is false
    assert_eq!(can_access, false, "Should not crawl anything with disallow_all=true")
}

#[test]
fn can_access_on_allow_all() {
    // given: a robots.txt with allow_all = true
    let mut service = RobotsService::new("tarantula".into());
    service.disallow_all = false;
    service.allow_all = true;

    // when: can_access is invoked
    let can_access = service.can_access("https://example.com");

    // then: result is true
    assert_eq!(can_access, true, "Should not crawl anything with disallow_all=true")
}

#[test]
fn disallow_all_precedes_allow_all() {
    // given: a robots.txt with disallow_all = true and allow_all = true
    let mut service = RobotsService::new("tarantula".into());
    service.allow_all = true;
    service.disallow_all = true;

    // when: can_access is invoked
    let can_access = service.can_access("https://example.com");

    // then: result is false
    assert_eq!(can_access, false, "Should not crawl anything with disallow_all=true")
}

#[test]
fn can_access_if_only_robots_txt_permits() {
    // given: a robots.txt which allows us access
    let mut service = RobotsService::new("tarantula".into());
    let robots_body = "user-agent: tarantula\n\
                       disallow: /\n";
    service.parse(robots_body);
    service.allow_all = true;
    service.disallow_all = true;

    // when: can_access is invoked
    let can_access = service.can_access("https://example.com/some-otherwise-forbidden-deeplink");

    // then: result is false
    assert_eq!(can_access, false, "Should not crawl anything with disallow_all=true")
}

#[test]
fn robots_txt_rules_are_applied_to_the_agent() {
    let mut service = RobotsService::new("tarantula".into());
    service.parse("user-agent: tarantula\ndisallow: /private/\n");
    assert_eq!(service.can_access("https://example.com/private/page"), false);
    assert_eq!(service.can_access("https://example.com/public/page"), true);
}

#[test]
fn robots_txt_for_another_agent_does_not_restrict() {
    let mut service = RobotsService::new("tarantula".into());
    service.parse("user-agent: otherbot\ndisallow: /\n");
    assert_eq!(service.can_access("https://example.com/anything"), true);
}

#[test]
fn refused_robots_txt_disallows_everything() {
    let mut service = RobotsService::new("tarantula".into());
    service.init(
        "https://example.com/robots.txt".into(),
        RobotsFetchOutcome::Response { status: 403, body: None },
    );
    assert!(service.is_initialized);
    assert!(service.disallow_all);
    assert!(!service.allow_all);
    assert_eq!(service.can_access("https://example.com/"), false);
}

#[test]
fn missing_robots_txt_allows_everything() {
    let mut service = RobotsService::new("tarantula".into());
    service.init(
        "https://example.com/robots.txt".into(),
        RobotsFetchOutcome::Response { status: 404, body: None },
    );
    assert!(service.is_initialized);
    assert!(service.allow_all);
    assert!(!service.disallow_all);
    assert_eq!(service.can_access("https://example.com/"), true);
}

#[test]
fn robots_txt_body_is_read_on_ok() {
    let mut service = RobotsService::new("tarantula".into());
    service.init(
        "https://example.com/robots.txt".into(),
        RobotsFetchOutcome::Response {
            status: 200,
            body: Some("user-agent: *\ndisallow: /\n".into()),
        },
    );
    assert!(service.is_initialized);
    assert_eq!(service.can_access("https://example.com/page"), false);
}

#[test]
fn failed_robots_txt_connection_leaves_service_uninitialised() {
    let mut service = RobotsService::new("tarantula".into());
    service.init("https://example.com/robots.txt".into(), RobotsFetchOutcome::ConnectionFailed);
    assert!(!service.is_initialized);
    assert_eq!(service.uri, Some("https://example.com/robots.txt".to_string()));
    assert_eq!(service.can_access("https://example.com/page"), true);
}

#[test]
fn robots_txt_url_is_formed_from_scheme_and_host() {
    assert_eq!(robots_txt_url("https", "example.com"), "https://example.com/robots.txt");
}

#[test]
fn a_body_the_parser_cannot_read_is_not_taken_in() {
    let mut long_line = "a".repeat(16663);
    long_line.push('é');
    long_line.push('\n');
    long_line.push('é');
    assert!(!is_robots_body_parsable(&long_line));
    let mut service = RobotsService::new("tarantula".into());
    service.init(
        "https://example.com/robots.txt".into(),
        RobotsFetchOutcome::Response { status: 200, body: Some(long_line) },
    );
    assert!(!service.is_initialized);
    assert!(!service.disallow_all && !service.allow_all);
    assert_eq!(service.uri, Some("https://example.com/robots.txt".to_string()));

    let mut ascii_tail = "a".repeat(16663);
    ascii_tail.push_str("bbb\nuser-agent: *\ndisallow: /é\n");
    assert!(is_robots_body_parsable(&ascii_tail));
    let mut short_lines = "é".repeat(100);
    short_lines.push('\n');
    assert!(is_robots_body_parsable(&short_lines));
    let mut service = RobotsService::new("tarantula".into());
    service.init(
        "https://example.com/robots.txt".into(),
        RobotsFetchOutcome::Response { status: 200, body: Some(ascii_tail) },
    );
    assert!(service.is_initialized);
    assert!(service.can_access("https://example.com/open"));
}

#[test]
fn an_unread_robots_body_is_not_taken_in() {
    let mut service = RobotsService::new("tarantula".into());
    service.init(
        "https://example.com/robots.txt".into(),
        RobotsFetchOutcome::Response { status: 200, body: None },
    );
    assert!(!service.is_initialized);
    assert!(service.can_access("https://example.com/anything"));
}

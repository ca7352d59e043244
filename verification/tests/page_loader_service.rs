use tarantula::page_loader::http_utils::build_status_codes;
use tarantula::page_loader::http_utils::is_blocked;
use tarantula::page_loader::http_utils::map_status_code;
use tarantula::page_loader::http_utils::response_headers_to_map;
use tarantula::page_loader::http_utils::user_agent_string;
use tarantula::page_loader::page_crawl_command::PageCrawlCommand;
use tarantula::page_loader::page_loader_service::add_links_to_known_list;
use tarantula::page_loader::page_loader_service::buffer_size_for_this_machine;
use tarantula::page_loader::page_loader_service::channel_buffer_size;
use tarantula::page_loader::page_loader_service::consume_crawl_result;
use tarantula::page_loader::page_loader_service::dedup_links_by_uri;
use tarantula::page_loader::page_loader_service::CommandFactory;
use tarantula::page_loader::page_loader_service::PageCrawlCommandFactory;
use tarantula::page_loader::page_loader_service::PageLoaderService;
use tarantula::page_loader::page_request::PageRequest;
use tarantula::page_loader::task_context::DefaultTaskContext;
use tarantula::page_loader::task_context::KnownLinks;
use tarantula::page_loader::task_context::TaskContextInit;
use tarantula::responses::link::Link;
use tarantula::responses::page_response::PageResponse;
use tarantula::responses::run_config::RunConfig;
use tarantula::responses::uri_scope::UriScope;

fn loader_context() -> DefaultTaskContext {
    DefaultTaskContext::init(RunConfig::new("https://example.com".into(), None), 1, 0).unwrap()
}

#[test]
fn page_crawl_command_factory_makes_commands() {
    let factory = PageCrawlCommandFactory::new();
    let command = factory.create_page_crawl_command("https://example.com/a".into(), "/a".into(), 3);
    assert_eq!(command.get_url_clone(), "https://example.com/a");
    assert_eq!(command.request_object.raw_url, "/a");
    assert_eq!(command.get_current_depth(), 3);
}

#[test]
fn triggers_additional_load_commands_for_subpages() {
    let mut task_context = loader_context();
    let command = PageCrawlCommand::new("https://example.com".into(), "/".into(), 0);
    let mut crawl_result = PageResponse::new("https://example.com".into(), "/".into(), 1);
    let mut links = vec![];
    for i in 1..=10 {
        links.push(Link::from_str_with_scope(&format!("/inner{}", i), Some(UriScope::SameDomain)));
    }
    links.push(Link::from_str_with_scope("https://other.org/", Some(UriScope::External)));
    links.push(Link::from_str_with_scope("/inner1", Some(UriScope::SameDomain)));
    crawl_result.links = Some(links);

    let requests = consume_crawl_result(&mut task_context, &command, &crawl_result).unwrap();

    let urls: Vec<String> = requests.iter().map(|r| r.url.clone()).collect();
    let mut expected = vec![];
    for i in 1..=10 {
        expected.push(format!("https://example.com/inner{}", i));
    }
    expected.push("https://example.com/inner1".to_string());
    assert_eq!(urls, expected);
    assert!(requests.iter().all(|r| r.current_depth == 1));
    assert_eq!(requests[0].raw_url, "/inner1");
    assert_eq!(task_context.get_all_crawled_links(), vec!["https://example.com".to_string()]);
}

#[test]
fn known_links_are_not_loaded_again() {
    let mut task_context = loader_context();
    task_context.add_tasked_link("https://example.com/inner1".into());
    let command = PageCrawlCommand::new("https://example.com".into(), "/".into(), 0);
    let mut crawl_result = PageResponse::new("https://example.com".into(), "/".into(), 1);
    crawl_result.links = Some(vec![
        Link::from_str_with_scope("/inner1", Some(UriScope::SameDomain)),
        Link::from_str_with_scope("/inner2", Some(UriScope::SameDomain)),
    ]);
    let requests = consume_crawl_result(&mut task_context, &command, &crawl_result).unwrap();
    assert_eq!(requests.len(), 1);
    assert_eq!(requests[0].url, "https://example.com/inner2");
}

#[test]
fn pages_deeper_than_the_maximum_lead_nowhere() {
    let mut run_config = RunConfig::new("https://example.com".into(), None);
    run_config.maximum_depth = Some(2);
    let mut task_context = DefaultTaskContext::init(run_config, 1, 0).unwrap();
    let command = PageCrawlCommand::new("https://example.com/deep".into(), "/deep".into(), 3);
    let mut crawl_result = PageResponse::new("https://example.com/deep".into(), "/deep".into(), 1);
    crawl_result.links = Some(vec![Link::from_str_with_scope("/deeper", Some(UriScope::SameDomain))]);
    let requests = consume_crawl_result(&mut task_context, &command, &crawl_result).unwrap();
    assert!(requests.is_empty());
    assert_eq!(task_context.get_all_crawled_links(), vec!["https://example.com/deep".to_string()]);
}

#[test]
fn crawl_result_urls_become_known_once() {
    let mut known = vec!["https://example.com".to_string()];
    let mut crawl_result = PageResponse::new("https://example.com".into(), "/".into(), 1);
    crawl_result.final_url_after_redirects = Some("https://example.com/home".into());
    add_links_to_known_list(&mut known, &crawl_result);
    add_links_to_known_list(&mut known, &crawl_result);
    assert_eq!(known, vec!["https://example.com".to_string(), "https://example.com/home".to_string()]);
}

#[test]
fn neighbouring_repeats_of_a_link_are_dropped() {
    let links = vec![
        Link::from_str("/a"),
        Link::from_str("/a"),
        Link::from_str("/b"),
        Link::from_str("/a"),
    ];
    let uris: Vec<String> = dedup_links_by_uri(&links).iter().map(|l| l.uri.clone()).collect();
    assert_eq!(uris, vec!["/a", "/b", "/a"]);
}

#[test]
fn creates_task_for_crawl_domain_command() {
    let mut service = PageLoaderService::new();
    let (task_context, request) = service
        .handle_crawl_domain_command(RunConfig::new("https://example.com/inner".into(), None), 9, 100)
        .unwrap();
    assert_eq!(request.url, "https://example.com/inner");
    assert_eq!(request.raw_url, "https://example.com/inner");
    assert_eq!(request.current_depth, 0);
    assert_eq!(task_context.get_uuid_clone(), 9);
    assert_eq!(service.task_manager.get_number_of_tasks(), 1);
    assert_eq!(service.task_manager.gc_timeout_ms, 60_000);
    assert!(service.handle_crawl_domain_command(RunConfig::new("no url".into(), None), 10, 100).is_none());
    assert_eq!(service.task_manager.get_number_of_tasks(), 1);
}

#[test]
fn channel_buffer_grows_with_the_cores() {
    assert_eq!(channel_buffer_size(0), 2);
    assert_eq!(channel_buffer_size(1), 2);
    assert_eq!(channel_buffer_size(2), 10);
    assert_eq!(channel_buffer_size(8), 40);
    assert_eq!(channel_buffer_size(9), 40);
}

#[test]
fn status_codes_get_their_labels() {
    assert_eq!(map_status_code(200).label, "OK");
    assert_eq!(map_status_code(418).label, "I'm a teapot");
    assert_eq!(map_status_code(520).label, "[CLOUDFLARE] Web Server Returned an Unknown Error");
    assert_eq!(map_status_code(527).label, "[CLOUDFLARE] Railgun Error");
    assert_eq!(map_status_code(999).label, "Unknown Status Code");
    assert_eq!(map_status_code(404).code, 404);
    let table = build_status_codes();
    assert_eq!(table.len(), 8);
    assert_eq!(table.get(&525), Some(&"[CLOUDFLARE] SSL Handshake Failed"));
    assert_eq!(table.get(&200), None);
}

#[test]
fn response_headers_are_keyed_by_lower_case_name() {
    let map = response_headers_to_map(&vec![
        ("Content-Type".to_string(), "text/html".to_string()),
        ("X-Custom".to_string(), "first".to_string()),
        ("x-custom".to_string(), "second".to_string()),
    ]);
    assert_eq!(map.get("content-type"), Some("text/html".to_string()));
    assert_eq!(map.get("x-custom"), Some("second".to_string()));
    assert_eq!(map.get("Content-Type"), None);
}

#[test]
fn user_agent_names_the_robots_info_url() {
    assert_eq!(user_agent_string("tarantula", &None), "tarantula");
    assert_eq!(
        user_agent_string("tarantula", &Some("https://example.com/bot".into())),
        "tarantula +https://example.com/bot"
    );
}

#[test]
fn requests_wait_for_the_rate_limit() {
    assert!(is_blocked(0, 10));
    assert!(is_blocked(10, 10));
    assert!(!is_blocked(11, 10));
}

#[test]
fn page_request_splits_its_url() {
    let request = PageRequest::new("https://example.com/a?b=c".into(), "/a?b=c".into(), None);
    assert_eq!(request.get_protocol(), "https");
    assert_eq!(request.get_host(), "example.com");
    assert_eq!(request.get_uri(), "https://example.com/a?b=c");
    let relative = PageRequest::new("/a".into(), "/a".into(), None);
    assert!(relative.try_protocol_and_host().is_none());
}

#[test]
fn buffer_size_on_this_machine_is_a_capacity_for_its_cores() {
    let size = buffer_size_for_this_machine().unwrap();
    assert!(size >= 2);
    assert!(size == 2 || size % 10 == 0);
}

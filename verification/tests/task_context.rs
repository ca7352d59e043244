use tarantula::page_loader::robots_service::RobotsTxt;
use tarantula::page_loader::task_context::DefaultTaskContext;
use tarantula::page_loader::task_context::KnownLinks;
use tarantula::page_loader::task_context::TaskConfig;
use tarantula::page_loader::task_context::TaskContextInit;
use tarantula::page_loader::task_context_manager::DefaultTaskManager;
use tarantula::responses::run_config::RunConfig;

/// One millisecond in nanoseconds, the unit of the clock readings.
const MS: u64 = 1_000_000;

fn context_at(url: &str, uuid: u128, now: u64) -> DefaultTaskContext {
    DefaultTaskContext::init(RunConfig::new(url.into(), None), uuid, now).unwrap()
}

#[test]
fn can_be_garbage_collected_false_by_default() {
    // given: a usual task context
    let gc_timeout_ms = 10;
    let context = context_at("https://example.com", 1, 5_000 * MS);

    // when: can_be_garbage_collected is invoked
    let result = context.can_be_garbage_collected(gc_timeout_ms, 5_000 * MS);

    // then: expect false
    assert_eq!(result, false, "TaskContext should not be garbage collectable at this point");
}

#[test]
fn can_be_garbage_collected_after_the_timeout() {
    let context = context_at("https://example.com", 1, 5_000 * MS);
    assert_eq!(context.can_be_garbage_collected(10, 5_010 * MS), false);
    assert_eq!(context.can_be_garbage_collected(10, 5_010 * MS + 1), true);
    assert_eq!(context.can_be_garbage_collected(10, 5_011 * MS), true);
    // a clock reading before the last command does not count as elapsed time
    assert_eq!(context.can_be_garbage_collected(10, 1_000 * MS), false);
}

#[test]
fn task_context_takes_settings_from_run_config() {
    let mut run_config = RunConfig::new("https://example.com/start".into(), None);
    run_config.maximum_depth = Some(3);
    run_config.user_agent = None;
    run_config.ignore_redirects = None;
    let context = DefaultTaskContext::init(run_config, 42, 7).unwrap();
    assert_eq!(context.get_uuid_clone(), 42);
    assert_eq!(context.get_last_command_received(), 7);
    assert_eq!(context.get_url(), "https://example.com/start");
    assert_eq!(context.task_config.maximum_depth, 3);
    assert_eq!(context.task_config.maximum_redirects, 10);
    assert_eq!(context.task_config.ignore_redirects, false);
    assert_eq!(context.task_config.user_agent, "tarantula");
    assert_eq!(context.task_config.crawl_delay_ms, 10_000);
    assert_eq!(context.robots_service.user_agent, "tarantula");
    assert!(context.get_all_crawled_links().is_empty());
    assert!(context.get_all_tasked_links().is_empty());
}

#[test]
fn task_context_needs_a_url_with_host() {
    assert!(DefaultTaskContext::init(RunConfig::new("/only/a/path".into(), None), 1, 0).is_none());
    assert!(DefaultTaskContext::init(RunConfig::new("not a url".into(), None), 1, 0).is_none());
}

#[test]
fn task_config_defaults() {
    let config = TaskConfig::new("https://example.com".into()).unwrap();
    assert_eq!(config.uri, "https://example.com/");
    assert_eq!(config.maximum_redirects, 10);
    assert_eq!(config.maximum_depth, 16);
    assert_eq!(config.user_agent, "tarantula");
    assert!(!config.ignore_robots_txt);
    assert!(TaskConfig::new("not a url".into()).is_none());
}

#[test]
fn known_links_are_recorded() {
    let mut context = context_at("https://example.com", 1, 0);
    context.add_crawled_link("https://example.com/a".into());
    context.add_tasked_link("https://example.com/b".into());
    assert_eq!(context.get_all_crawled_links(), vec!["https://example.com/a".to_string()]);
    assert_eq!(context.get_all_tasked_links(), vec!["https://example.com/b".to_string()]);
    context.set_last_command_received(99);
    assert_eq!(context.get_last_command_received(), 99);
}

#[test]
fn task_context_asks_its_robots_service() {
    let mut context = context_at("https://example.com", 1, 0);
    context.robots_service.parse("user-agent: *\ndisallow: /secret\n");
    assert_eq!(context.can_access("https://example.com/secret/x"), false);
    assert_eq!(context.can_access("https://example.com/open"), true);
}

#[test]
fn added_task_is_garbage_collected_after_timeout() {
    let mut manager = DefaultTaskManager::init(100);
    let context = context_at("https://example.com", 7, 1_000 * MS);
    manager.add_task(&context);
    assert_eq!(manager.get_number_of_tasks(), 1, "task was not added");
    let removed = manager.do_garbage_collection(1_100 * MS);
    assert!(removed.is_empty());
    assert_eq!(manager.get_number_of_tasks(), 1, "task was removed too early");
    let removed = manager.do_garbage_collection(1_201 * MS);
    assert_eq!(removed, vec![7]);
    assert_eq!(manager.get_number_of_tasks(), 0, "task was not removed");
}

#[test]
fn added_task_is_not_garbage_collected_within_timeout() {
    let mut manager = DefaultTaskManager::init(100);
    manager.add_task(&context_at("https://example.com", 7, 1_000 * MS));
    assert_eq!(manager.get_number_of_tasks(), 1, "task was not added");
    let removed = manager.do_garbage_collection(1_050 * MS);
    assert!(removed.is_empty());
    assert_eq!(manager.get_number_of_tasks(), 1, "task was removed");
}

#[test]
fn registering_a_task_again_replaces_it() {
    let mut manager = DefaultTaskManager::init(100);
    let mut context = context_at("https://example.com", 7, 1_000 * MS);
    manager.add_task(&context);
    context.set_last_command_received(5_000 * MS);
    manager.add_task(&context);
    manager.add_task(&context_at("https://example.org", 8, 1_000 * MS));
    assert_eq!(manager.get_number_of_tasks(), 2);
    let removed = manager.do_garbage_collection(5_050 * MS);
    assert_eq!(removed, vec![8]);
    assert_eq!(manager.get_number_of_tasks(), 1);
    assert_eq!(manager.tasks[0].uuid, 7);
}

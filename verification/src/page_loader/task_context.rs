//! The state of one crawl task: its settings, the links it knows and its services.
use std::sync::Arc;

use vstd::prelude::*;

use crate::dom_parser::DomParserService;
use crate::link_type_checker::LinkTypeChecker;
use crate::page_loader::robots_service::RobotsService;
use crate::page_loader::robots_service::RobotsTxt;
use crate::responses::run_config::RunConfig;
use crate::text::chars_of;
use crate::text::string_of;
use crate::uri_parse::parse_uri;
use crate::uri_parse::parsed_uri;
use crate::uri_service::UriService;

verus! {

/// The settings of a crawl task.
#[derive(Clone, Debug)]
pub struct TaskConfig {
    /// The url the task starts from, as `hyper` normalises it.
    pub uri: String,
    pub ignore_redirects: bool,
    pub maximum_redirects: u8,
    pub maximum_depth: u16,
    pub ignore_robots_txt: bool,
    pub keep_html_in_memory: bool,
    pub user_agent: String,
    pub robots_txt_info_url: Option<String>,
    pub crawl_delay_ms: usize,
}

impl TaskConfig {
    /// The default settings for a task starting at `uri`: up to 10 redirects,
    /// depth 16, robots.txt obeyed, HTML dropped, agent `tarantula`, no delay;
    /// `None` when `hyper` does not accept `uri`.
    pub fn new(uri: String) -> (r: Option<TaskConfig>)
        ensures
            r is Some <==> parsed_uri(uri@) is Some,
            r is Some ==> {
                let c = r->0;
                &&& c.uri@ == parsed_uri(uri@)->0.text
                &&& !c.ignore_redirects
                &&& c.maximum_redirects == 10
                &&& c.maximum_depth == 16
                &&& !c.ignore_robots_txt
                &&& !c.keep_html_in_memory
                &&& c.user_agent@ == "tarantula"@
                &&& c.robots_txt_info_url is None
                &&& c.crawl_delay_ms == 0
            },
    {
        match parse_uri(uri.as_str()) {
            Some(parsed) => Some(
                TaskConfig {
                    uri: parsed.text,
                    ignore_redirects: false,
                    maximum_redirects: 10,
                    maximum_depth: 16,
                    ignore_robots_txt: false,
                    keep_html_in_memory: false,
                    user_agent: string_of(&chars_of("tarantula")),
                    robots_txt_info_url: None,
                    crawl_delay_ms: 0,
                },
            ),
            None => None,
        }
    }
}

/// A setting from the run config, or the default.
pub open spec fn or_default<T>(v: Option<T>, d: T) -> T {
    match v {
        Some(x) => x,
        None => d,
    }
}

/// The strings as character sequences.
pub open spec fn strings_view(v: Seq<String>) -> Seq<Seq<char>> {
    v.map_values(|s: String| s@)
}

/// Everything one crawl task knows: its settings, services and links.
pub struct DefaultTaskContext {
    pub task_config: TaskConfig,
    pub uri_service: Arc<UriService>,
    pub dom_parser: Arc<DomParserService>,
    pub robots_service: RobotsService,
    pub uuid: u128,
    /// When the task last received a command, in nanoseconds on a monotonic clock.
    pub last_command_received: u64,
    /// The urls the task has crawled.
    pub all_crawled_links: Vec<String>,
    /// The urls the task has handed out for loading.
    pub all_tasked_links: Vec<String>,
}

impl DefaultTaskContext {
    /// The host link checkers of the task were made for.
    pub open spec fn domain(&self) -> Seq<char> {
        self.uri_service.domain()
    }

    /// The task's identifier.
    pub fn get_uuid_clone(&self) -> (r: u128)
        ensures
            r == self.uuid,
    {
        self.uuid
    }

    /// The url the task starts from.
    pub fn get_url(&self) -> (r: String)
        ensures
            r@ == self.task_config.uri@,
    {
        self.task_config.uri.clone()
    }

    /// When the task last received a command.
    pub fn get_last_command_received(&self) -> (r: u64)
        ensures
            r == self.last_command_received,
    {
        self.last_command_received
    }

    /// Records that the task received a command at `instant`.
    pub fn set_last_command_received(&mut self, instant: u64)
        ensures
            final(self).last_command_received == instant,
            final(self).task_config == old(self).task_config,
            final(self).all_crawled_links == old(self).all_crawled_links,
            final(self).all_tasked_links == old(self).all_tasked_links,
            final(self).uuid == old(self).uuid,
            final(self).uri_service == old(self).uri_service,
            final(self).dom_parser == old(self).dom_parser,
            final(self).robots_service == old(self).robots_service,
    {
        self.last_command_received = instant;
    }

    /// More than `gc_timeout_ms` milliseconds have passed between the last
    /// command and `now` (both clock readings in nanoseconds).
    pub fn can_be_garbage_collected(&self, gc_timeout_ms: u64, now: u64) -> (r: bool)
        ensures
            r == (now > self.last_command_received && now - self.last_command_received
                > gc_timeout_ms * 1_000_000),
    {
        now > self.last_command_received && ((now - self.last_command_received) as u128) > (gc_timeout_ms as u128)
            * 1_000_000
    }

}

/// Making a task.
pub trait TaskContextInit: Sized {
    fn init(run_config: RunConfig, uuid: u128, now: u64) -> Option<Self>;
}

/// The urls a task knows: those it crawled and those it handed out.
pub trait KnownLinks {
    fn get_all_crawled_links(&self) -> Vec<String>;

    fn get_all_tasked_links(&self) -> Vec<String>;

    fn add_crawled_link(&mut self, link: String);

    fn add_tasked_link(&mut self, link: String);
}

/// Everything a crawl command needs of its task.
pub trait FullTaskContext: KnownLinks + RobotsTxt {

}

impl TaskContextInit for DefaultTaskContext {
    /// A task for `run_config` with the given identifier, started at `now`:
    /// settings from the run config where it has them, else the defaults;
    /// links classified against the url's host. `None` when the url does not
    /// parse or has no host.
    fn init(run_config: RunConfig, uuid: u128, now: u64) -> (r: Option<DefaultTaskContext>)
        ensures
            r is Some <==> (parsed_uri(run_config.url@) is Some && parsed_uri(run_config.url@)->0.host is Some),
            r is Some ==> {
                let c = r->0;
                &&& c.task_config.uri@ == parsed_uri(run_config.url@)->0.text
                &&& c.task_config.ignore_redirects == or_default(run_config.ignore_redirects, false)
                &&& c.task_config.maximum_redirects == or_default(run_config.maximum_redirects, 10u8)
                &&& c.task_config.maximum_depth == or_default(run_config.maximum_depth, 16u16)
                &&& c.task_config.ignore_robots_txt == or_default(run_config.ignore_robots_txt, false)
                &&& c.task_config.keep_html_in_memory == or_default(
                    run_config.keep_html_in_memory,
                    false,
                )
                &&& c.task_config.user_agent@ == match run_config.user_agent {
                    Some(a) => a@,
                    None => "tarantula"@,
                }
                &&& c.task_config.robots_txt_info_url == run_config.robots_txt_info_url
                &&& c.task_config.crawl_delay_ms == or_default(run_config.crawl_delay_ms, 0usize)
                &&& c.domain() == parsed_uri(run_config.url@)->0.host->0
                &&& c.dom_parser.domain() == c.domain()
                &&& c.robots_service.user_agent@ == c.task_config.user_agent@
                &&& c.robots_service.bodies().len() == 0
                &&& !c.robots_service.disallow_all
                &&& !c.robots_service.allow_all
                &&& !c.robots_service.is_initialized
                &&& c.uuid == uuid
                &&& c.last_command_received == now
                &&& c.all_crawled_links@.len() == 0
                &&& c.all_tasked_links@.len() == 0
            },
    {
        let parsed = match parse_uri(run_config.url.as_str()) {
            Some(p) => p,
            None => {
                return None;
            },
        };
        let host = match &parsed.host {
            Some(h) => h.clone(),
            None => {
                return None;
            },
        };
        let user_agent = match &run_config.user_agent {
            Some(a) => a.clone(),
            None => string_of(&chars_of("tarantula")),
        };
        let task_config = TaskConfig {
            uri: parsed.text,
            ignore_redirects: match run_config.ignore_redirects {
                Some(v) => v,
                None => false,
            },
            maximum_redirects: match run_config.maximum_redirects {
                Some(v) => v,
                None => 10,
            },
            maximum_depth: match run_config.maximum_depth {
                Some(v) => v,
                None => 16,
            },
            ignore_robots_txt: match run_config.ignore_robots_txt {
                Some(v) => v,
                None => false,
            },
            keep_html_in_memory: match run_config.keep_html_in_memory {
                Some(v) => v,
                None => false,
            },
            user_agent: user_agent.clone(),
            robots_txt_info_url: run_config.robots_txt_info_url.clone(),
            crawl_delay_ms: match run_config.crawl_delay_ms {
                Some(v) => v,
                None => 0,
            },
        };
        let link_type_checker = Arc::new(LinkTypeChecker::new(host.as_str()));
        let dom_parser = Arc::new(DomParserService::new(link_type_checker.clone()));
        let uri_service = Arc::new(UriService::new(link_type_checker));
        Some(
            DefaultTaskContext {
                task_config,
                uri_service,
                dom_parser,
                robots_service: RobotsService::new(user_agent),
                uuid,
                last_command_received: now,
                all_crawled_links: Vec::new(),
                all_tasked_links: Vec::new(),
            },
        )
    }
}

impl KnownLinks for DefaultTaskContext {
    /// The urls the task has crawled.
    fn get_all_crawled_links(&self) -> (r: Vec<String>)
        ensures
            r@ == self.all_crawled_links@,
    {
        self.all_crawled_links.clone()
    }

    /// The urls the task has handed out for loading.
    fn get_all_tasked_links(&self) -> (r: Vec<String>)
        ensures
            r@ == self.all_tasked_links@,
    {
        self.all_tasked_links.clone()
    }

    /// Records that `link` has been crawled.
    fn add_crawled_link(&mut self, link: String)
        ensures
            final(self).all_crawled_links@ == old(self).all_crawled_links@.push(link),
            final(self).all_tasked_links == old(self).all_tasked_links,
            final(self).task_config == old(self).task_config,
            final(self).uuid == old(self).uuid,
            final(self).last_command_received == old(self).last_command_received,
            final(self).uri_service == old(self).uri_service,
            final(self).dom_parser == old(self).dom_parser,
            final(self).robots_service == old(self).robots_service,
    {
        self.all_crawled_links.push(link);
    }

    /// Records that `link` has been handed out for loading.
    fn add_tasked_link(&mut self, link: String)
        ensures
            final(self).all_tasked_links@ == old(self).all_tasked_links@.push(link),
            final(self).all_crawled_links == old(self).all_crawled_links,
            final(self).task_config == old(self).task_config,
            final(self).uuid == old(self).uuid,
            final(self).last_command_received == old(self).last_command_received,
            final(self).uri_service == old(self).uri_service,
            final(self).dom_parser == old(self).dom_parser,
            final(self).robots_service == old(self).robots_service,
    {
        self.all_tasked_links.push(link);
    }
}

impl RobotsTxt for DefaultTaskContext {
    /// Whether robots.txt lets the task load `item_uri`.
    fn can_access(&mut self, item_uri: &str) -> (r: bool)
        ensures
            r == old(self).robots_service.allows(item_uri@),
            final(self).robots_service.bodies() == old(self).robots_service.bodies(),
            final(self).robots_service.user_agent == old(self).robots_service.user_agent,
            final(self).robots_service.disallow_all == old(self).robots_service.disallow_all,
            final(self).robots_service.allow_all == old(self).robots_service.allow_all,
            final(self).task_config == old(self).task_config,
            final(self).all_crawled_links == old(self).all_crawled_links,
            final(self).all_tasked_links == old(self).all_tasked_links,
            final(self).uuid == old(self).uuid,
            final(self).last_command_received == old(self).last_command_received,
            final(self).uri_service == old(self).uri_service,
            final(self).dom_parser == old(self).dom_parser,
    {
        self.robots_service.can_access(item_uri)
    }
}

impl FullTaskContext for DefaultTaskContext {

}

} // verus!

use vstd::prelude::*;

use crate::text::chars_of;
use crate::text::string_of;

verus! {

/// What a crawl task was asked to do.
#[derive(Clone, Debug)]
pub struct RunConfig {
    pub url: String,
    pub ignore_redirects: Option<bool>,
    pub maximum_redirects: Option<u8>,
    pub maximum_depth: Option<u16>,
    pub ignore_robots_txt: Option<bool>,
    pub keep_html_in_memory: Option<bool>,
    pub user_agent: Option<String>,
    pub robots_txt_info_url: Option<String>,
    pub callback_url: Option<String>,
    pub callback_url_finished: Option<String>,
    pub crawl_delay_ms: Option<usize>,
}

impl RunConfig {
    /// A task for `url` with the default settings: follow up to 10 redirects,
    /// crawl up to depth 16, obey robots.txt, drop the HTML, wait 10 s between
    /// requests, and call `callback_url` with each page.
    pub fn new(url: String, callback_url: Option<String>) -> (r: RunConfig)
        ensures
            r.url@ == url@,
            r.ignore_redirects == Some(false),
            r.maximum_redirects == Some(10u8),
            r.maximum_depth == Some(16u16),
            r.ignore_robots_txt == Some(false),
            r.keep_html_in_memory == Some(false),
            r.user_agent is Some && r.user_agent->0@ == "tarantula 🕷"@,
            r.robots_txt_info_url is None,
            r.callback_url == callback_url,
            r.callback_url_finished is None,
            r.crawl_delay_ms == Some(10_000usize),
    {
        RunConfig {
            url,
            ignore_redirects: Some(false),
            maximum_redirects: Some(10),
            maximum_depth: Some(16),
            ignore_robots_txt: Some(false),
            keep_html_in_memory: Some(false),
            user_agent: Some(string_of(&chars_of("tarantula 🕷"))),
            robots_txt_info_url: None,
            callback_url,
            callback_url_finished: None,
            crawl_delay_ms: Some(10_000),
        }
    }
}

} // verus!

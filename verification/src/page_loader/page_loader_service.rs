//! What happens after a page was crawled: which of its links are loaded next.
use vstd::prelude::*;

use crate::page_loader::page_crawl_command::contains_string;
use crate::page_loader::page_crawl_command::PageCrawlCommand;
use crate::page_loader::page_request::protocol_and_host_of;
use crate::page_loader::task_context::strings_view;
use crate::page_loader::task_context::DefaultTaskContext;
use crate::page_loader::task_context::TaskContextInit;
use crate::page_loader::task_context_manager::has_uuid;
use crate::page_loader::task_context_manager::DefaultTaskManager;
use crate::page_loader::task_context_manager::TrackedTask;
use crate::responses::run_config::RunConfig;
use crate::uri_parse::parsed_uri;
use crate::responses::link::Link;
use crate::responses::link::LinkView;
use crate::responses::page_response::PageResponse;
use crate::responses::uri_scope::UriScope;
use crate::uri_service::full_url_plan;
use crate::uri_service::url_from_plan;
use crate::dom_parser::links_view;

verus! {

/// The number of processor cores: `num_cpus::get()`. It depends on the
/// machine, so nothing is stated of it.
#[verifier::external_body]
fn cpu_count() -> usize {
    num_cpus::get()
}

/// The capacity of the command channel for `cpus` cores: ten per two cores,
/// at least two.
pub open spec fn channel_capacity(cpus: int) -> int {
    if (cpus / 2) * 10 > 2 {
        (cpus / 2) * 10
    } else {
        2
    }
}

/// The capacity of the command channel for `cpus` cores.
pub fn channel_buffer_size(cpus: usize) -> (r: usize)
    requires
        cpus / 2 <= usize::MAX / 10,
    ensures
        r == channel_capacity(cpus as int),
{
    let n = (cpus / 2) * 10;
    if n > 2 {
        n
    } else {
        2
    }
}

/// The command channel's capacity on this machine, or `None` when the core
/// count is too large to compute it.
pub fn buffer_size_for_this_machine() -> (r: Option<usize>)
    ensures
        r is Some ==> exists|cpus: usize| r->0 == channel_capacity(cpus as int),
{
    let cpus = cpu_count();
    if cpus / 2 <= usize::MAX / 10 {
        Some(channel_buffer_size(cpus))
    } else {
        None
    }
}

/// A page to load next in a task.
#[derive(Debug, Clone)]
pub struct LoadPageRequest {
    pub url: String,
    pub raw_url: String,
    pub current_depth: u16,
}

/// The mathematical value of a load request.
pub struct LoadPageRequestView {
    pub url: Seq<char>,
    pub raw_url: Seq<char>,
    pub current_depth: u16,
}

impl View for LoadPageRequest {
    type V = LoadPageRequestView;

    open spec fn view(&self) -> LoadPageRequestView {
        LoadPageRequestView { url: self.url@, raw_url: self.raw_url@, current_depth: self.current_depth }
    }
}

/// The requests as mathematical values.
pub open spec fn requests_view(v: Seq<LoadPageRequest>) -> Seq<LoadPageRequestView> {
    v.map_values(|r: LoadPageRequest| r@)
}

/// What the crawler reports to the task's owner.
#[derive(Debug)]
pub enum CrawlerEvent {
    /// The task is finished.
    CompleteEvent { uuid: u128 },
    /// A page was crawled.
    PageEvent { page_response: PageResponse },
}

/// The known urls after a crawl result: its requested url and its final url
/// (if any) added where they are not yet known.
pub open spec fn with_result_urls(
    known: Seq<Seq<char>>,
    requested: Seq<char>,
    final_url: Option<Seq<char>>,
) -> Seq<Seq<char>> {
    let k1 = if known.contains(requested) {
        known
    } else {
        known.push(requested)
    };
    match final_url {
        Some(f) => if k1.contains(f) {
            k1
        } else {
            k1.push(f)
        },
        None => k1,
    }
}

/// An optional string as an optional character sequence.
pub open spec fn opt_chars(s: Option<String>) -> Option<Seq<char>> {
    match s {
        Some(x) => Some(x@),
        None => None,
    }
}

/// Adds the crawl result's requested url and final url to the known urls
/// where they are not yet there.
pub fn add_links_to_known_list(all_known_links: &mut Vec<String>, crawl_result: &PageResponse)
    ensures
        strings_view(final(all_known_links)@) == with_result_urls(
            strings_view(old(all_known_links)@),
            crawl_result.original_requested_url@,
            opt_chars(crawl_result.final_url_after_redirects),
        ),
{
    if !contains_string(all_known_links, &crawl_result.original_requested_url) {
        let ghost before = all_known_links@;
        all_known_links.push(crawl_result.original_requested_url.clone());
        assert(strings_view(all_known_links@) =~= strings_view(before).push(
            crawl_result.original_requested_url@,
        ));
    }
    match &crawl_result.final_url_after_redirects {
        Some(final_url) => {
            if !contains_string(all_known_links, final_url) {
                let ghost before = all_known_links@;
                all_known_links.push(final_url.clone());
                assert(strings_view(all_known_links@) =~= strings_view(before).push(final_url@));
            }
        },
        None => {},
    }
}

/// The links with each run of neighbours sharing a uri reduced to its first
/// (what `dedup_by` on equal uris leaves).
pub open spec fn dedup_by_uri(s: Seq<LinkView>) -> Seq<LinkView>
    decreases s.len(),
{
    if s.len() <= 1 {
        s
    } else {
        let p = dedup_by_uri(s.drop_last());
        if s.last().uri == s[s.len() - 2].uri {
            p
        } else {
            p.push(s.last())
        }
    }
}

/// Links of these scopes are followed: the root, the same domain, other subdomains.
pub open spec fn is_followed_scope(scope: Option<UriScope>) -> bool {
    scope == Some(UriScope::Root) || scope == Some(UriScope::SameDomain) || scope == Some(
        UriScope::DifferentSubDomain,
    )
}

/// The pages to load for `links` found on the page `parent` at `depth`: each
/// followed link's full url, one level deeper, unless it is `known`. `None`
/// where a followed link's url cannot be formed (the parent has no scheme or
/// host, the link forms no url) or the next depth does not fit in a `u16`.
pub open spec fn load_requests(
    domain: Seq<char>,
    parent: Seq<char>,
    links: Seq<LinkView>,
    known: Seq<Seq<char>>,
    depth: u16,
) -> Option<Seq<LoadPageRequestView>>
    decreases links.len(),
{
    if links.len() == 0 {
        Some(Seq::empty())
    } else {
        match load_requests(domain, parent, links.drop_last(), known, depth) {
            None => None,
            Some(prev) => {
                let l = links.last();
                if !is_followed_scope(l.scope) {
                    Some(prev)
                } else {
                    match protocol_and_host_of(parent) {
                        None => None,
                        Some(ph) => match url_from_plan(
                            full_url_plan(domain, ph.0, l.uri, ph.1, Some(parent)),
                        ) {
                            None => None,
                            Some(u) => if depth >= 65535 {
                                None
                            } else if known.contains(u) {
                                Some(prev)
                            } else {
                                Some(
                                    prev.push(
                                        LoadPageRequestView {
                                            url: u,
                                            raw_url: l.uri,
                                            current_depth: (depth + 1) as u16,
                                        },
                                    ),
                                )
                            },
                        },
                    }
                }
            },
        }
    }
}

/// Once a prefix of the links yields no requests, so do all the links.
pub proof fn lemma_load_requests_none_extends(
    domain: Seq<char>,
    parent: Seq<char>,
    links: Seq<LinkView>,
    known: Seq<Seq<char>>,
    depth: u16,
    i: int,
)
    requires
        0 <= i <= links.len(),
        load_requests(domain, parent, links.take(i), known, depth) is None,
    ensures
        load_requests(domain, parent, links, known, depth) is None,
    decreases links.len() - i,
{
    if i < links.len() {
        assert(links.drop_last().take(i) =~= links.take(i));
        lemma_load_requests_none_extends(domain, parent, links.drop_last(), known, depth, i);
    } else {
        assert(links.take(i) =~= links);
    }
}

/// Every link to the root, the same domain or another subdomain whose full
/// url can be formed on the parent's scheme and host, and is not known, is
/// loaded: its url is requested, from the link as found, one level deeper.
pub proof fn law_every_followed_link_is_loaded(
    domain: Seq<char>,
    parent: Seq<char>,
    links: Seq<LinkView>,
    known: Seq<Seq<char>>,
    depth: u16,
    k: int,
)
    requires
        load_requests(domain, parent, links, known, depth) is Some,
        0 <= k < links.len(),
        links[k].scope == Some(UriScope::Root) || links[k].scope == Some(UriScope::SameDomain)
            || links[k].scope == Some(UriScope::DifferentSubDomain),
        protocol_and_host_of(parent) is Some,
        url_from_plan(
            full_url_plan(
                domain,
                (protocol_and_host_of(parent)->0).0,
                links[k].uri,
                (protocol_and_host_of(parent)->0).1,
                Some(parent),
            ),
        ) is Some,
        !known.contains(
            url_from_plan(
                full_url_plan(
                    domain,
                    (protocol_and_host_of(parent)->0).0,
                    links[k].uri,
                    (protocol_and_host_of(parent)->0).1,
                    Some(parent),
                ),
            )->0,
        ),
    ensures
        load_requests(domain, parent, links, known, depth)->0.contains(
            LoadPageRequestView {
                url: url_from_plan(
                    full_url_plan(
                        domain,
                        (protocol_and_host_of(parent)->0).0,
                        links[k].uri,
                        (protocol_and_host_of(parent)->0).1,
                        Some(parent),
                    ),
                )->0,
                raw_url: links[k].uri,
                current_depth: (depth + 1) as u16,
            },
        ),
    decreases links.len(),
{
    let prev = load_requests(domain, parent, links.drop_last(), known, depth);
    let all = load_requests(domain, parent, links, known, depth)->0;
    if k < links.len() - 1 {
        assert(links.drop_last()[k] == links[k]);
        law_every_followed_link_is_loaded(domain, parent, links.drop_last(), known, depth, k);
        let p = prev->0;
        let req = choose|j: int| 0 <= j < p.len() && p[j] == LoadPageRequestView {
            url: url_from_plan(
                full_url_plan(
                    domain,
                    (protocol_and_host_of(parent)->0).0,
                    links[k].uri,
                    (protocol_and_host_of(parent)->0).1,
                    Some(parent),
                ),
            )->0,
            raw_url: links[k].uri,
            current_depth: (depth + 1) as u16,
        };
        assert(all[req] == p[req]);
    } else {
        assert(links.last() == links[k]);
        let p = prev->0;
        assert(all[p.len() as int] == LoadPageRequestView {
            url: url_from_plan(
                full_url_plan(
                    domain,
                    (protocol_and_host_of(parent)->0).0,
                    links[k].uri,
                    (protocol_and_host_of(parent)->0).1,
                    Some(parent),
                ),
            )->0,
            raw_url: links[k].uri,
            current_depth: (depth + 1) as u16,
        });
    }
}

/// Adding a crawl result's urls to the known list a second time changes
/// nothing, and afterwards both urls are known.
pub proof fn law_known_list_update_is_idempotent(
    known: Seq<Seq<char>>,
    requested: Seq<char>,
    final_url: Option<Seq<char>>,
)
    ensures
        with_result_urls(with_result_urls(known, requested, final_url), requested, final_url)
            == with_result_urls(known, requested, final_url),
        with_result_urls(known, requested, final_url).contains(requested),
        final_url is Some ==> with_result_urls(known, requested, final_url).contains(final_url->0),
{
    let k1 = if known.contains(requested) {
        known
    } else {
        known.push(requested)
    };
    if !known.contains(requested) {
        assert(k1[known.len() as int] == requested);
    }
    assert(k1.contains(requested));
    let k2 = with_result_urls(known, requested, final_url);
    match final_url {
        Some(f) => {
            if !k1.contains(f) {
                assert(k2[k1.len() as int] == f);
                let j = choose|j: int| 0 <= j < k1.len() && k1[j] == requested;
                assert(k2[j] == requested);
            }
            assert(k2.contains(requested));
            assert(k2.contains(f));
        },
        None => {},
    }
}

/// Every page to load that follows from a page at `depth` is one level deeper
/// and not known.
pub proof fn law_follow_up_requests_one_level_deeper(
    domain: Seq<char>,
    parent: Seq<char>,
    links: Seq<LinkView>,
    known: Seq<Seq<char>>,
    depth: u16,
)
    requires
        load_requests(domain, parent, links, known, depth) is Some,
    ensures
        forall|i: int|
            0 <= i < load_requests(domain, parent, links, known, depth)->0.len() ==> {
                let req = #[trigger] load_requests(domain, parent, links, known, depth)->0[i];
                &&& req.current_depth == depth + 1
                &&& !known.contains(req.url)
            },
    decreases links.len(),
{
    if links.len() > 0 {
        law_follow_up_requests_one_level_deeper(domain, parent, links.drop_last(), known, depth);
    }
}

/// The links found on a page with neighbouring repeats of a uri removed.
pub fn dedup_links_by_uri(links: &Vec<Link>) -> (r: Vec<Link>)
    ensures
        links_view(r@) == dedup_by_uri(links_view(links@)),
{
    let mut out: Vec<Link> = Vec::new();
    let ghost lv = links_view(links@);
    let mut i: usize = 0;
    while i < links.len()
        invariant
            i <= links.len(),
            lv == links_view(links@),
            links_view(out@) == dedup_by_uri(lv.take(i as int)),
        decreases links.len() - i,
    {
        let ghost t = lv.take(i + 1);
        assert(t.drop_last() =~= lv.take(i as int));
        assert(t.last() == links@[i as int]@);
        if i == 0 {
            let ghost before = out@;
            out.push(links[i].duplicate());
            assert(t =~= seq![links@[0]@]);
            assert(links_view(out@) =~= seq![links@[0]@]);
        } else {
            assert(t[t.len() - 2] == links@[i - 1]@);
            if !crate::text::str_eq(links[i].uri.as_str(), links[i - 1].uri.as_str()) {
                let ghost before = out@;
                out.push(links[i].duplicate());
                assert(links_view(out@) =~= links_view(before).push(links@[i as int]@));
            }
        }
        i = i + 1;
    }
    assert(lv.take(i as int) =~= lv);
    out
}

/// The pages to load for the links found on the crawled page.
pub fn prepare_load_requests(
    task_context: &DefaultTaskContext,
    page_crawl_command: &PageCrawlCommand,
    links: &Vec<Link>,
    known: &Vec<String>,
) -> (r: Option<Vec<LoadPageRequest>>)
    ensures
        match r {
            Some(v) => load_requests(
                task_context.domain(),
                page_crawl_command.request_object.url@,
                links_view(links@),
                strings_view(known@),
                page_crawl_command.current_depth,
            ) == Some(requests_view(v@)),
            None => load_requests(
                task_context.domain(),
                page_crawl_command.request_object.url@,
                links_view(links@),
                strings_view(known@),
                page_crawl_command.current_depth,
            ) is None,
        },
{
    let ghost domain = task_context.domain();
    let ghost parent = page_crawl_command.request_object.url@;
    let ghost lv = links_view(links@);
    let ghost kv = strings_view(known@);
    let depth = page_crawl_command.current_depth;
    let mut out: Vec<LoadPageRequest> = Vec::new();
    let mut i: usize = 0;
    assert(lv.take(0) =~= Seq::<LinkView>::empty());
    while i < links.len()
        invariant
            i <= links.len(),
            lv == links_view(links@),
            kv == strings_view(known@),
            domain == task_context.domain(),
            parent == page_crawl_command.request_object.url@,
            depth == page_crawl_command.current_depth,
            load_requests(domain, parent, lv.take(i as int), kv, depth) == Some(
                requests_view(out@),
            ),
        decreases links.len() - i,
    {
        let ghost t = lv.take(i + 1);
        assert(t.drop_last() =~= lv.take(i as int));
        assert(t.last() == links@[i as int]@);
        let link = &links[i];
        let followed = match link.scope {
            Some(UriScope::Root) | Some(UriScope::SameDomain) | Some(UriScope::DifferentSubDomain) => true,
            _ => false,
        };
        if followed {
            let (protocol, host) = match page_crawl_command.request_object.try_protocol_and_host() {
                Some(ph) => ph,
                None => {
                    proof {
                        lemma_load_requests_none_extends(domain, parent, lv, kv, depth, i + 1);
                    }
                    return None;
                },
            };
            let parent_url = Some(page_crawl_command.get_url_clone());
            let url = match task_context.uri_service.try_form_full_url(
                protocol.as_str(),
                link.uri.as_str(),
                host.as_str(),
                &parent_url,
            ) {
                Some(u) => u,
                None => {
                    proof {
                        lemma_load_requests_none_extends(domain, parent, lv, kv, depth, i + 1);
                    }
                    return None;
                },
            };
            if depth == 65535 {
                proof {
                    lemma_load_requests_none_extends(domain, parent, lv, kv, depth, i + 1);
                }
                return None;
            }
            if !contains_string(known, &url) {
                let ghost before = out@;
                out.push(
                    LoadPageRequest { url, raw_url: link.uri.clone(), current_depth: depth + 1 },
                );
                assert(requests_view(out@) =~= requests_view(before).push(out@.last()@));
            }
        }
        i = i + 1;
    }
    assert(lv.take(i as int) =~= lv);
    Some(out)
}

/// The urls as character sequences, concatenated.
pub open spec fn known_after(task_context: DefaultTaskContext) -> Seq<Seq<char>> {
    strings_view(task_context.all_crawled_links@) + strings_view(task_context.all_tasked_links@)
}

/// Takes in a crawled page: its urls become known, and when it has links and
/// is not deeper than the task's maximum, the pages to load next are its
/// followed links that are neither crawled nor handed out (`None` where such a
/// link's url cannot be formed).
pub fn consume_crawl_result(
    task_context: &mut DefaultTaskContext,
    page_crawl_command: &PageCrawlCommand,
    crawl_result: &PageResponse,
) -> (r: Option<Vec<LoadPageRequest>>)
    ensures
        strings_view(final(task_context).all_crawled_links@) == with_result_urls(
            strings_view(old(task_context).all_crawled_links@),
            crawl_result.original_requested_url@,
            opt_chars(crawl_result.final_url_after_redirects),
        ),
        final(task_context).all_tasked_links == old(task_context).all_tasked_links,
        final(task_context).task_config == old(task_context).task_config,
        final(task_context).uri_service == old(task_context).uri_service,
        ({
            let follow = crawl_result.links is Some && page_crawl_command.current_depth
                <= old(task_context).task_config.maximum_depth;
            if follow {
                let expected = load_requests(
                    old(task_context).domain(),
                    page_crawl_command.request_object.url@,
                    dedup_by_uri(links_view(crawl_result.links->0@)),
                    known_after(*final(task_context)),
                    page_crawl_command.current_depth,
                );
                match r {
                    Some(v) => expected == Some(requests_view(v@)),
                    None => expected is None,
                }
            } else {
                r is Some && r->0@.len() == 0
            }
        }),
{
    add_links_to_known_list(&mut task_context.all_crawled_links, crawl_result);
    let max_crawl_depth = task_context.task_config.maximum_depth;
    match &crawl_result.links {
        Some(links) => {
            if page_crawl_command.current_depth <= max_crawl_depth {
                let deduped = dedup_links_by_uri(links);
                let mut known: Vec<String> = task_context.all_crawled_links.clone();
                let mut k: usize = 0;
                let ghost crawled = strings_view(task_context.all_crawled_links@);
                let ghost tasked = strings_view(task_context.all_tasked_links@);
                proof {
                    assert(strings_view(known@) =~= crawled);
                }
                while k < task_context.all_tasked_links.len()
                    invariant
                        k <= task_context.all_tasked_links.len(),
                        crawled == strings_view(task_context.all_crawled_links@),
                        tasked == strings_view(task_context.all_tasked_links@),
                        strings_view(known@) == crawled + tasked.take(k as int),
                    decreases task_context.all_tasked_links.len() - k,
                {
                    let ghost before = known@;
                    known.push(task_context.all_tasked_links[k].clone());
                    assert(strings_view(known@) =~= strings_view(before).push(tasked[k as int]));
                    assert(tasked.take(k + 1) =~= tasked.take(k as int).push(tasked[k as int]));
                    k = k + 1;
                }
                assert(tasked.take(k as int) =~= tasked);
                prepare_load_requests(task_context, page_crawl_command, &deduped, &known)
            } else {
                Some(Vec::new())
            }
        },
        None => Some(Vec::new()),
    }
}

/// Makes the crawl commands for pages to load.
pub trait CommandFactory {
    /// A crawl of `url` (reached through the link text `raw_url`) at `current_depth`.
    fn create_page_crawl_command(&self, url: String, raw_url: String, current_depth: u16) -> PageCrawlCommand;
}

/// Makes plain page crawl commands.
pub struct PageCrawlCommandFactory;

impl PageCrawlCommandFactory {
    /// A factory of page crawl commands.
    pub fn new() -> (r: PageCrawlCommandFactory) {
        PageCrawlCommandFactory {  }
    }

    /// A crawl of `url` (reached through the link text `raw_url`) at `current_depth`.
    pub fn create(&self, url: String, raw_url: String, current_depth: u16) -> (r: PageCrawlCommand)
        ensures
            r.request_object.url@ == url@,
            r.request_object.raw_url@ == raw_url@,
            r.current_depth == current_depth,
    {
        PageCrawlCommand::new(url, raw_url, current_depth)
    }
}

impl CommandFactory for PageCrawlCommandFactory {
    fn create_page_crawl_command(&self, url: String, raw_url: String, current_depth: u16) -> (r:
        PageCrawlCommand)
        ensures
            r.request_object.url@ == url@,
            r.request_object.raw_url@ == raw_url@,
            r.current_depth == current_depth,
    {
        self.create(url, raw_url, current_depth)
    }
}

/// The service that runs crawl tasks: it keeps the registry of tasks.
pub struct PageLoaderService {
    pub task_manager: DefaultTaskManager,
}

impl PageLoaderService {
    /// A service whose tasks are removed after a minute without a command.
    pub fn new() -> (r: PageLoaderService)
        ensures
            r.task_manager.well_formed(),
            r.task_manager.tasks@.len() == 0,
            r.task_manager.gc_timeout_ms == 60_000,
    {
        PageLoaderService { task_manager: DefaultTaskManager::init(60_000) }
    }

    /// Starts a task for `run_config` with identifier `task_context_uuid` at
    /// `now`: the task is registered and its first page, the run config's url
    /// at depth 0, is to be loaded. `None` (nothing registered) where the url
    /// does not parse or has no host.
    pub fn handle_crawl_domain_command(&mut self, run_config: RunConfig, task_context_uuid: u128, now: u64) -> (r:
        Option<(DefaultTaskContext, LoadPageRequest)>)
        requires
            old(self).task_manager.well_formed(),
        ensures
            final(self).task_manager.well_formed(),
            final(self).task_manager.gc_timeout_ms == old(self).task_manager.gc_timeout_ms,
            r is Some <==> (parsed_uri(run_config.url@) is Some && parsed_uri(run_config.url@)->0.host is Some),
            r is None ==> final(self).task_manager == old(self).task_manager,
            r is Some ==> {
                let (c, req) = r->0;
                &&& c.uuid == task_context_uuid
                &&& c.last_command_received == now
                &&& c.task_config.uri@ == parsed_uri(run_config.url@)->0.text
                &&& req.url@ == run_config.url@
                &&& req.raw_url@ == run_config.url@
                &&& req.current_depth == 0
                &&& has_uuid(final(self).task_manager.tasks@, task_context_uuid)
                &&& final(self).task_manager.tasks@.len() == old(self).task_manager.tasks@.len() + if has_uuid(
                    old(self).task_manager.tasks@,
                    task_context_uuid,
                ) {
                    0int
                } else {
                    1int
                }
            },
    {
        let url = run_config.url.clone();
        match DefaultTaskContext::init(run_config, task_context_uuid, now) {
            Some(task_context) => {
                let ghost before = self.task_manager.tasks@;
                self.task_manager.add_task(&task_context);
                proof {
                    if has_uuid(before, task_context_uuid) {
                        let i = choose|i: int|
                            0 <= i < before.len() && before[i].uuid == task_context_uuid
                                && self.task_manager.tasks@ == before.update(
                                i,
                                TrackedTask { uuid: task_context_uuid, last_command_received: now },
                            );
                        assert(self.task_manager.tasks@[i].uuid == task_context_uuid);
                    } else {
                        assert(self.task_manager.tasks@[before.len() as int].uuid == task_context_uuid);
                    }
                }
                let request = LoadPageRequest { url: url.clone(), raw_url: url, current_depth: 0 };
                Some((task_context, request))
            },
            None => None,
        }
    }
}

} // verus!

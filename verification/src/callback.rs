//! Delivering a task's events to its caller: where each event is posted and
//! when the delivery ends.
use vstd::prelude::*;

use crate::page_loader::page_loader_service::CrawlerEvent;
use crate::responses::run_config::RunConfig;

verus! {

/// Where an event is posted, and with which user agent.
#[derive(Debug, Clone)]
pub struct CallbackTarget {
    pub url: String,
    pub user_agent: String,
}

/// What to do with one event: post it (or drop it where there is no target),
/// and whether the delivery ends after it.
#[derive(Debug, Clone)]
pub struct CallbackStep {
    pub target: Option<CallbackTarget>,
    pub stop: bool,
}

/// The delivery of one task's events: the url pages are posted to until the
/// task completes, then the url its completion is posted to.
#[derive(Debug, Clone)]
pub struct EventDelivery {
    pub callback_url: Option<String>,
}

impl EventDelivery {
    /// A delivery for a task run with `run_config`: pages go to its callback url.
    pub fn new(run_config: &RunConfig) -> (r: EventDelivery)
        ensures
            r.callback_url == run_config.callback_url,
    {
        EventDelivery { callback_url: run_config.callback_url.clone() }
    }

    /// The step for `event`: a page is posted to the current callback url; the
    /// completion switches to the url for finished tasks, is posted there, and
    /// ends the delivery. `None` where a post is due but the run config has no
    /// user agent to send.
    pub fn on_event(&mut self, run_config: &RunConfig, event: &CrawlerEvent) -> (r: Option<CallbackStep>)
        ensures
            final(self).callback_url == match event {
                CrawlerEvent::CompleteEvent { .. } => run_config.callback_url_finished,
                CrawlerEvent::PageEvent { .. } => old(self).callback_url,
            },
            r is None <==> (final(self).callback_url is Some && run_config.user_agent is None),
            r is Some ==> r->0.stop == (event is CompleteEvent),
            r is Some ==> match final(self).callback_url {
                Some(url) => r->0.target is Some && r->0.target->0.url == url && r->0.target->0.user_agent
                    == run_config.user_agent->0,
                None => r->0.target is None,
            },
    {
        let stop = match event {
            CrawlerEvent::CompleteEvent { .. } => {
                self.callback_url = run_config.callback_url_finished.clone();
                true
            },
            CrawlerEvent::PageEvent { .. } => false,
        };
        match &self.callback_url {
            Some(url) => match &run_config.user_agent {
                Some(agent) => Some(
                    CallbackStep {
                        target: Some(CallbackTarget { url: url.clone(), user_agent: agent.clone() }),
                        stop,
                    },
                ),
                None => None,
            },
            None => Some(CallbackStep { target: None, stop }),
        }
    }
}

/// Where a delivery posts after `events`: the callback url until the task's
/// completion has come, the url for finished tasks from then on.
pub open spec fn delivery_url_after(run_config: RunConfig, events: Seq<CrawlerEvent>) -> Option<String> {
    if exists|i: int| 0 <= i < events.len() && (#[trigger] events[i]) is CompleteEvent {
        run_config.callback_url_finished
    } else {
        run_config.callback_url
    }
}

/// Over a whole run of events delivered from `EventDelivery::new`, each event
/// is posted to the callback url while the task has not completed, and the
/// completion and anything after it to the url for finished tasks: a delivery
/// that posts where `delivery_url_after` says for the events so far posts
/// where it says for them and the next one.
pub proof fn law_delivery_run(run_config: RunConfig, events: Seq<CrawlerEvent>, next: CrawlerEvent, url: Option<String>, url_after: Option<String>)
    requires
        url == delivery_url_after(run_config, events),
        url_after == match next {
            CrawlerEvent::CompleteEvent { .. } => run_config.callback_url_finished,
            CrawlerEvent::PageEvent { .. } => url,
        },
    ensures
        delivery_url_after(run_config, Seq::empty()) == run_config.callback_url,
        url_after == delivery_url_after(run_config, events.push(next)),
{
    let all = events.push(next);
    if exists|i: int| 0 <= i < events.len() && (#[trigger] events[i]) is CompleteEvent {
        let i = choose|i: int| 0 <= i < events.len() && (#[trigger] events[i]) is CompleteEvent;
        assert(all[i] == events[i]);
    }
    if next is CompleteEvent {
        assert(all[events.len() as int] == next);
    } else {
        assert forall|i: int| 0 <= i < all.len() && (#[trigger] all[i]) is CompleteEvent implies 0 <= i
            < events.len() && events[i] is CompleteEvent by {
            if i < events.len() {
                assert(all[i] == events[i]);
            }
        }
    }
}

} // verus!

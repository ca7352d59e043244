use tarantula::callback::EventDelivery;
use tarantula::page_loader::page_loader_service::CrawlerEvent;
use tarantula::responses::page_response::PageResponse;
use tarantula::responses::run_config::RunConfig;

fn page_event() -> CrawlerEvent {
    CrawlerEvent::PageEvent { page_response: PageResponse::new("https://example.com".into(), "/".into(), 1) }
}

#[test]
fn pages_go_to_the_callback_and_completion_to_the_finished_callback() {
    let mut run_config = RunConfig::new("https://example.com".into(), Some("https://cb.example.org/page".into()));
    run_config.callback_url_finished = Some("https://cb.example.org/done".into());
    let mut delivery = EventDelivery::new(&run_config);

    let step = delivery.on_event(&run_config, &page_event()).unwrap();
    assert!(!step.stop);
    let target = step.target.unwrap();
    assert_eq!(target.url, "https://cb.example.org/page");
    assert_eq!(target.user_agent, "tarantula 🕷");

    let step = delivery.on_event(&run_config, &CrawlerEvent::CompleteEvent { uuid: 1 }).unwrap();
    assert!(step.stop);
    assert_eq!(step.target.unwrap().url, "https://cb.example.org/done");
}

#[test]
fn events_without_callback_are_dropped() {
    let run_config = RunConfig::new("https://example.com".into(), None);
    let mut delivery = EventDelivery::new(&run_config);
    let step = delivery.on_event(&run_config, &page_event()).unwrap();
    assert!(step.target.is_none());
    assert!(!step.stop);
    let step = delivery.on_event(&run_config, &CrawlerEvent::CompleteEvent { uuid: 1 }).unwrap();
    assert!(step.target.is_none());
    assert!(step.stop);
}

#[test]
fn posting_needs_a_user_agent() {
    let mut run_config = RunConfig::new("https://example.com".into(), Some("https://cb.example.org/page".into()));
    run_config.user_agent = None;
    let mut delivery = EventDelivery::new(&run_config);
    assert!(delivery.on_event(&run_config, &page_event()).is_none());
}

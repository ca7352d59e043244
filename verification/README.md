# Tarantula

An event-driven web crawler whose decisions are verified with Verus.

A crawl task is started with a run config (`PUT /crawl` on port 8088). Its pages
are loaded to the configured depth, robots.txt is respected, requests are spaced
by the crawl delay, and every page found is posted to the task's callback url; the
task's completion is posted to its finished-callback url.

## Layout

- `src/` — the verified library.
  - `link_type_checker`, `uri_service`, `percent`, `uri_parse`, `text`: classifying
    links and forming full urls from them.
  - `dom_parser`, `body_parser`: the links of an HTML page.
  - `responses`: the values a crawl reports.
  - `page_loader`: the event-driven crawler — task state, robots.txt, the HEAD /
    GET steps of a page, the follow-up pages, the registry of tasks and its
    garbage collection.
  - `site_crawler`: a depth-first crawl of one site as a state machine that builds
    the tree of pages.
  - `callback`: where a task's events are delivered.
- `app/` — the server: HTTP requests, channels, threads and JSON, around the
  library's decisions.
- `tests/` — tests of the library.

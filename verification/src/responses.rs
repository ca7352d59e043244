//! The values a crawl reports: links, status codes, timings and responses.
pub mod complete_response;
pub mod crawl_status;
pub mod get_response;
pub mod head_response;
pub mod headers;
pub mod link;
pub mod page_response;
pub mod redirect;
pub mod response_timings;
pub mod run_config;
pub mod status_code;
pub mod uri_protocol;
pub mod uri_scope;

//! Loading pages: the decisions a crawl makes between its requests.
pub mod http_utils;
pub mod robots_service;
pub mod page_request;
pub mod task_context;
pub mod fetch_header_command;
pub mod page_download_command;
pub mod page_crawl_command;
pub mod page_loader_service;
pub mod task_context_manager;

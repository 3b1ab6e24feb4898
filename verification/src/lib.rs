//! Link-guardian core: a verified breadth-first crawl frontier and a
//! verified bounded-concurrency link-check dispatcher, together with the
//! pure classifier that maps transport outcomes to link statuses.
//!
//! Network transport, rendering and argument parsing live outside this
//! library; it holds the data model and the decision logic, each function
//! with a contract. The `url`, `scraper` and `pulldown-cmark` crates do the
//! URL parsing and document reading, behind small trusted boundaries.

pub mod classify;
pub mod cli;
pub mod crawl;
pub mod dispatch;
pub mod github;
pub mod html;
pub mod markdown;
pub mod resolve;
pub mod status;
pub mod strutil;
pub mod weburl;

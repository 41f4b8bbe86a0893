//! Bot-camp: the decision logic of a self-hosted test server for crawlers
//! and scrapers, with its contracts.

pub mod challenge;
pub mod dashboard;
pub mod error;
pub mod honeypot;
pub mod http;
pub mod rate_limit;
pub mod routes;
pub mod templates;
pub mod text;
mod store;

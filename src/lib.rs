//! Discovery of SQL-injection-prone endpoints: a same-origin crawler that
//! collects parameterized URLs, a scanner that mutates their query strings
//! with payloads, and a fingerprint engine that recognizes database error
//! output in responses.

pub mod crawler;
pub mod fingerprint;
pub mod pattern;
pub mod report;
pub mod scanner;
pub mod search;
pub mod searchlibs;
pub mod server;
pub mod text;
pub mod urls;
pub mod useragents;
pub mod web;

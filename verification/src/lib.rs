//! The router of the CLOMonitor API server.
//!
//! `router::setup` puts the site together: the handlers at their paths, the API
//! under `/api`, the documentation and the static files with their cache
//! durations, the index page for every other path, around it what handlers
//! share, metrics and tracing, and around all of it basic authentication where
//! the settings ask for it. What a router holds is told
//! in plain values (`site`), and the contracts say of each step what it adds.
//! `promises` says what callers can count on, `laws` what holds of the site.
pub mod auth;
pub mod cache;
pub mod laws;
pub mod matching;
pub mod page;
pub mod paths;
pub mod pattern;
pub mod promises;
pub mod router;
pub mod settings;
pub mod site;
pub mod table;
pub mod templates;
pub mod web;

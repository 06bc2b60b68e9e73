//! Verified core of the voting service: event configuration rules, ballot
//! checks, tallies and result reports, the audit log store, and the request
//! rules of the HTTP handlers.
pub mod attendance;
pub mod audit_log;
pub mod auth;
pub mod ballots;
pub mod event_config;
pub mod json;
pub mod motions;
pub mod organizations;
pub mod report;
pub mod results;
pub mod tally;
pub mod text;
pub mod time;
pub mod users;

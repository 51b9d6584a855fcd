//! Core of a load-test orchestrator: input validation, wave scheduling,
//! outcome classification, latency recording and statistical aggregation.
//! Beside it stand the decisions of the chat proxy that the same server
//! offers.

pub mod aggregate;
pub mod chat;
pub mod driver;
pub mod elapsed;
pub mod files;
pub mod outcome;
pub mod recorder;
pub mod report;
pub mod request;
pub mod run;
pub mod schedule;
pub mod stats;

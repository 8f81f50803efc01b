//! A lending library's loan ledger and access-control engine.
//!
//! The engine keeps the catalog's copy counts consistent with the active
//! loans, gates operations behind server-side sessions, and derives the
//! reports that administrators and lenders read.  Every operation carries a
//! machine-checked contract.

pub mod error;
pub mod records;
pub mod seqs;
pub mod text;
pub mod library;
pub mod ledger;
pub mod models;
pub mod catalog;
pub mod calendar;
pub mod sessions;
pub mod reports;
pub mod http;
pub mod routes;
pub mod audit;

//! AuditLens: rule-based auditing of accounting journals.
pub mod money;
pub mod text;
pub mod date;
pub mod group;
pub mod sort;
pub mod models;
pub mod rule_engine;
pub mod data_parser;
pub mod ai;
pub mod ai_analysis;
pub mod auth;
pub mod encryption;
pub mod report;
pub mod database;
pub mod web;
pub mod cli;

use vstd::prelude::*;

verus! {

} // verus!

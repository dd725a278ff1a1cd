//! Personal project and time tracking: a registry of projects, a ledger of
//! events and the time records they produce, and the aggregation and report
//! logic over those records.
use vstd::prelude::*;

pub mod models;
pub mod platform;
pub mod ids;
pub mod seqs;
pub mod text;
pub mod project_manager;
pub mod event_manager;
pub mod time_calculator;
pub mod report_generator;
pub mod storage;
pub mod ui;

verus! {

} // verus!

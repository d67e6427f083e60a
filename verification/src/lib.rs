//! Orchestration core of a once-a-day media mirror: a date-scoped job
//! scheduler, a dedup/upgrade store that prevents re-publishing the same
//! item while allowing higher-quality replacements, and a scrape pipeline
//! that walks a set of linked pages with per-page failure isolation.

pub mod daily;
pub mod downloaded;
pub mod media;
pub mod orchestrator;
pub mod probe;
pub mod publish;
pub mod scrape;
pub mod text;
pub mod textfmt;

use vstd::prelude::*;

verus! {

} // verus!

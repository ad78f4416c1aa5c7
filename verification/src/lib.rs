//! Balanceamento de carga: distributes weighted tasks over identical machines
//! to shrink the makespan (the largest machine load).
//!
//! `blm` holds the solution model (machines, loads) and the monotonic
//! best-improvement local search; `blnm` builds the iterated local search on
//! top of it; `animation` records every decision as a replayable event trace
//! and drives deterministic replay; `utils` carries the run summary record.

pub mod animation;
pub mod blm;
pub mod blnm;
pub mod rng;
pub mod ui;
pub mod utils;

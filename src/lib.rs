//! A closed-loop parameter-refinement engine: a deterministic fixed-point
//! driver, a hook protocol for pluggable modulators, a harness that binds a
//! concrete system to both, and an outer orchestrator that threads a shared
//! signal through a fixed number of passes.
//!
//! Everything here is generic over the caller's parameter, observation and
//! correction types; concrete systems supply four pure functions.
pub mod engine;
pub mod hooks;
pub mod harness;
pub mod orchestrator;
pub mod idle;
pub mod draft;

pub use engine::{Data, Metrics, Params, refine_det};
pub use harness::{Outcome, balance_with_hooks};
pub use hooks::{Adjustment, Hook};
pub use orchestrator::{Step, run_with_one_shot_hooks, run_with_outer_iters};

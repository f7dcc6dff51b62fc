//! Local equality saturation: a runner that searches rewrites only from a selected set
//! of e-classes, with limits, hooks and a back-off scheduler.
pub mod apply;
pub mod apply_laws;
pub mod backoff;
pub mod backoff_laws;
pub mod ban_laws;
pub mod call_laws;
pub mod egraph;
pub mod hook;
pub mod index_map;
pub mod iteration_laws;
pub mod limits;
pub mod limits_laws;
pub mod outcome;
pub mod report;
pub mod rules;
pub mod runner;
pub mod runner_laws;
pub mod scheduler;
pub mod scheduler_laws;
pub mod scope;
pub mod scope_laws;
pub mod setup;
pub mod setup_laws;
pub mod symbol;
pub mod time;
pub mod timed;

pub use backoff::{LocalBackoffScheduler, LocalRuleStats};
pub use egraph::{EGraph, Id, Rewrite, SearchMatches};
pub use hook::{HookScope, LocalHook};
pub use index_map::IndexMap;
pub use limits::{LimitReading, LocalRunnerLimits};
pub use outcome::{Iteration, RunnerResult, StopReason};
pub use report::Report;
pub use rules::check_local_rules;
pub use runner::RunnerLocal;
pub use scheduler::{LocalRewriteScheduler, LocalSimpleScheduler, LocalStopPolicy};
pub use symbol::Symbol;
pub use time::Duration;

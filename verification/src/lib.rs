//! A fan-out/fan-in batch orchestrator: a batch of independent remote
//! operations is dispatched concurrently, each operation yields exactly
//! one labeled outcome, and the outcomes are aggregated back into a
//! single sequence. The dispatch decisions, the aggregation bookkeeping
//! and the sort routine live here, verified; the transport and the task
//! runtime stay outside.

mod collector;
mod invoker;
mod orchestrator;
mod outcome;
mod sort;

pub use collector::Collector;
pub use invoker::FixedInvoker;
pub use invoker::Invoker;
pub use invoker::outcome_view;
pub use orchestrator::expected_result;
pub use orchestrator::labeled_result;
pub use orchestrator::lemma_all_success_yields_batch;
pub use orchestrator::lemma_arrival_order_immaterial;
pub use orchestrator::lemma_failure_is_observed;
pub use orchestrator::lemma_runs_agree;
pub use orchestrator::run;
pub use outcome::OperationResult;
pub use outcome::ResultView;
pub use sort::partition;
pub use sort::quicksort;
pub use sort::quicksort_range;
pub use sort::sorted;
pub use sort::sorted_between;

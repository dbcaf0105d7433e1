//! Classic mutual-exclusion algorithms over a shared counter, modelled as
//! interleaving machines: every `step` is one atomic memory access by one
//! worker, and a schedule of worker ids stands for one interleaving chosen by
//! the scheduler. The laws of each algorithm are proved over every schedule.

mod tally;
pub mod race_condition;
pub mod spin_lock;
pub mod strict_alternation;
pub mod peterson;

pub use tally::sum;

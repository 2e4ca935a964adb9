//! The timing core: running sums, comparison modes, the attempt record and
//! the state machine that drives an attempt.
pub mod limits;
pub mod sums;
pub mod timing;
pub mod comparison;
pub mod run;
pub mod state;
pub mod model;
pub mod invariants;
pub mod laws;

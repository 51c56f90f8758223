//! The SDK's test programs, which run on the simulator and report what `_start` returns.

pub mod hello_scry;
pub mod iter_loop;
pub mod loop_sum;

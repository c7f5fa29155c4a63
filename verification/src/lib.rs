//! A fixed-size worker pool modelled as a verified state machine, together
//! with the smaller routines of the surrounding demos: calculator
//! arithmetic, request routing and response framing, a settings builder,
//! and a few host-testable helpers.

pub mod board;
pub mod calclib;
pub mod config;
pub mod counter;
pub mod device;
pub mod errors;
pub mod generic;
pub mod http;
pub mod math;
pub mod pool;
pub mod servo;
pub mod summary;
pub mod todo;
pub mod utils;

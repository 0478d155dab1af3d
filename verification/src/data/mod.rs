//! The storage layer: error values, the operation log, shared data types,
//! connection-pool accounting and database health assessment.

pub mod errors;
pub mod logging;
pub mod types;
pub mod health;
pub mod pool;

//! Database layer: connection settings, circuit breaker, retry policy,
//! backup listing, export and reset planning.
pub mod backup;
pub mod connect;
pub mod export;
pub mod pool;
pub mod reset;
pub mod retry;

pub use pool::CircuitBreaker;

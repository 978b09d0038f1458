//! Supervision of a single long-lived local worker process: locating its
//! executable and entry artifact among prioritized candidate locations,
//! extracting port overrides from startup arguments, building the spawn
//! specification, formatting the durable log, and driving the spawn/terminate
//! state machine with an idempotent termination path.

pub mod clock;
pub mod errors;
pub mod logfmt;
pub mod paths;
pub mod ports;
pub mod pump;
pub mod strutil;
pub mod supervisor;

//! Supervision of a single long-running backend executable launched by a
//! desktop shell: resolution of candidate locations across packaging
//! layouts, spawning with ordered fallback, and lifecycle-bound teardown
//! that terminates the backend at most once.

pub mod resolver;
pub mod supervisor;

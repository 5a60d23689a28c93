//! Memory-bounded chunk-by-chunk processing of chunked n-dimensional arrays:
//! element types and chunk sizes, the equal filter, batch and concurrency
//! planning, chunk enumeration, and the tally of a retrieval benchmark.

pub mod concurrency;
pub mod element;
pub mod filter;
pub mod grid;
pub mod planner;
pub mod retrieval;

pub mod collect;
pub mod engine;
pub mod grouping;
pub mod heuristics;
pub mod scoring;
pub mod laws;
pub mod session_laws;

pub mod correlation;
pub mod event;
pub mod graph;
pub mod trace;

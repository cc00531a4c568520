pub mod raw_trace_store;
pub mod session_store;

pub mod text;
pub mod order;
pub mod domain;
pub mod correlator;
pub mod utils;
pub mod report;
pub mod app;
pub mod cli;
pub mod collector;
pub mod storage;

pub mod playwright_process;
pub mod protocol;

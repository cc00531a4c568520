pub mod commands;
pub mod open;

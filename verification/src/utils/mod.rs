pub mod similarity;
pub mod time;
pub mod urls;

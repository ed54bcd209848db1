pub mod data;
pub mod engine;
pub mod trading;
pub mod units;

pub mod binance_client;
pub mod data_buffer;
pub mod macro_filter;

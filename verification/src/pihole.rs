pub mod client;
pub mod config_filter;
pub mod filter_laws;

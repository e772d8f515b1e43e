pub mod config_sync;
pub mod context;
pub mod groups;
pub mod lists;
pub mod pass;
pub mod reconcile;
pub mod teleporter;
pub mod triggers;
pub mod util;

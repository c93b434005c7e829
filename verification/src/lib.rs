pub mod text;
pub mod escape;
pub mod models;
pub mod records;
pub mod scripts;
pub mod commands;
pub mod server;
pub mod stats;
pub mod stress;
pub mod readback;

pub mod auth;
pub mod backup;
pub mod data;
pub mod entry;
pub mod outcome;
pub mod request;
pub mod schedule;
pub mod store;
pub mod text;
pub mod wal;
pub mod world;

//! Storage.

pub mod database;
pub mod hash_map_key;
pub mod kad;
pub mod key_map;
pub mod keys;
pub mod mem_db;
pub mod providers;

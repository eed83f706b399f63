//! An encrypted, cached row store in front of a durable ordered key-value
//! collaborator. Rows are addressed by composite `table/id` keys, every stored
//! value passes through a configurable number of layers of authenticated
//! encryption, and a bounded write-through cache keeps recently used rows as
//! plaintext.

pub mod cache;
pub mod cipher;
pub mod codec;
pub mod config;
pub mod db;
pub mod kv;
pub mod models;
pub mod record;
pub mod serial;

pub use crate::config::VibraConfig;
pub use crate::db::VibraDB;
pub use crate::models::Column;
pub use crate::models::Row;
pub use crate::models::VibraError;

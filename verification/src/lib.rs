//! In-memory ownership cache for a chat bot's role-play characters, and the
//! synchronization discipline that keeps it consistent with the durable store.
//!
//! The cache maps an owner (a platform user id) to the ordered collection of
//! characters that owner has durably created. Every mutation of the cache is
//! applied only after the corresponding database write has been confirmed, so
//! the cache can lag behind the store but never lead it.

pub mod cache;
pub mod character;
pub mod colours;
pub mod flows;
pub mod gateway;
pub mod log;
pub mod sql;
pub mod sync;
pub mod text;

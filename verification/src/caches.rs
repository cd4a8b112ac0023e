//! Software caches.
pub mod associativ_cache;

//! Sources of commit prefixes.

pub mod local_sync_provider;

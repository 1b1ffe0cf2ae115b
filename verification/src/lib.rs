//! The cache entry that a configuration client keeps for each piece of
//! configuration it follows.
//!
//! An entry ([`CacheData`]) holds the configuration as it was last received and
//! the listeners that want to hear of changes. A change is announced in three
//! moves: take a snapshot of the entry, run the configured filters over it one
//! after the other, then work out which listeners have not yet seen the current
//! content and hand out one [`Notification`] for each of them.
//!
//! The library decides; it neither awaits nor spawns. Running a filter and
//! delivering a notification are left to the caller, who reports back through
//! [`FilterRun::resume`].
pub mod api;
pub mod cache;
pub mod filter;
pub mod laws;
pub mod listener;

pub use api::{ConfigChangeListener, ConfigResp, ConfigResponse};
pub use cache::{CacheData, NotifyStep};
pub use filter::{FilterRun, FilterStep, RespSnapshot};
pub use listener::{ListenerHandle, ListenerTable, ListenerWrapper, Notification};

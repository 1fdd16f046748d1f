//! A personal Atom feed reader's core: subscriptions with read markers, the
//! cached feed documents, and the rules that reconcile the two when a feed is
//! fetched again.

pub mod config;
pub mod error;
pub mod fetch;
pub mod index;
pub mod model;
pub mod paths;
pub mod reading;
pub mod subscriptions;
pub mod sync;
pub mod text;

pub use config::{ConfigCommand, ConfigKey};
pub use error::Error;
pub use fetch::FetchSource;
pub use index::{build_category_index, CategoryCount, CategoryIndex};
pub use model::{Config, Content, Entry, Feed, FeedConfig, Feeds, Timestamp};
pub use paths::{get_config_path, get_feeds_path};
pub use reading::{render_entry, visible_entries};
pub use subscriptions::{add_feed, check_setup, remove_feed};
pub use sync::{sync, sync_all};


//! An in-memory aggregation and query engine for syndication feeds.
//!
//! Channels and their items are held in append-only collections that
//! support non-destructive sorting and filtering by title, publication
//! date, description length and source.

pub mod channel_collection;
pub mod dates;
pub mod enums;
pub mod item_collection;
pub mod order;
pub mod records;
pub mod safe_item;
pub mod sorting;
pub mod text;

pub use channel_collection::ChannelCollection;
pub use dates::QueryError;
pub use item_collection::ItemCollection;
pub use records::{Channel, Item, Source};
pub use safe_item::SafeItem;

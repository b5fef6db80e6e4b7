//! The closed sets of sorting and filtering criteria.

use vstd::prelude::*;

verus! {

/// Defines how an ItemCollection should be sorted.
#[derive(Clone, Copy)]
pub enum ItemSortType {
    /// Sort by the item's title.
    Title,
    /// Sort by the item's publication date.
    Date,
    /// Sort by the length of the item's description.
    Length,
    /// Sort by the title of the item's source.
    Source,
}

/// Defines how an ItemCollection should be filtered.
pub enum ItemFilterType {
    /// Keep items whose title contains the given string.
    Title(String),
    /// Keep items whose publication date is on or before the given date.
    Date(String),
    /// Keep items whose description is strictly shorter than the given length.
    Length(usize),
    /// Keep items whose source title contains the given string.
    Source(String),
}

/// Defines how a ChannelCollection should be sorted.
#[derive(Clone, Copy)]
pub enum ChannelSortType {
    /// Sort the derived items by an item criterion; the channel order is untouched.
    ItemSortType(ItemSortType),
    /// Reorder the channels themselves by their title.
    Publisher,
}

/// Defines how a ChannelCollection should be filtered.
pub enum ChannelFilterType {
    /// Filter the derived items by an item criterion; channel membership is not pruned.
    ItemFilterType(ItemFilterType),
    /// Keep only the items of channels whose title contains the given string.
    Name(String),
}

/// A coarse pair of criteria kept for callers that only distinguish
/// date and author ordering.
#[derive(Clone, Copy)]
pub enum SortType {
    /// Order by publication date.
    Date,
    /// Order by author.
    Author,
}

} // verus!

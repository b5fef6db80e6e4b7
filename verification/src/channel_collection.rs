//! The channel collection: an append-only list of channels with a
//! derived, flattened view of all their items.
//!
//! Channels are only ever pushed or reordered — there is no removal.
//! Item-level queries are answered on a fresh item view derived from the
//! channels, so they never disturb the stored channels; only
//! `sort(Publisher)` reorders the channel list itself.

use vstd::prelude::*;

use crate::dates::QueryError;
use crate::enums::{ChannelFilterType, ChannelSortType};
use crate::item_collection::{filter_items, filter_ok, sort_ok, ItemCollection};
use crate::records::{Channel, Item};
use crate::sorting::{sort_channels, sort_channels_vec, sort_items};
use crate::text::{contains_seq, str_contains};

verus! {

/// A collection of channels.
pub struct ChannelCollection {
    channels: Vec<Channel>,
}

impl View for ChannelCollection {
    type V = Seq<Channel>;

    closed spec fn view(&self) -> Seq<Channel> {
        self.channels@
    }
}

/// The items of all channels, in channel order and, within a channel, in
/// the channel's own order.
pub open spec fn flatten_channels(s: Seq<Channel>) -> Seq<Item>
    decreases s.len(),
{
    if s.len() == 0 {
        Seq::empty()
    } else {
        flatten_channels(s.drop_last()) + s.last().items@
    }
}

/// The number of items the channels hold together.
pub open spec fn total_items(s: Seq<Channel>) -> nat
    decreases s.len(),
{
    if s.len() == 0 {
        0
    } else {
        total_items(s.drop_last()) + s.last().items@.len()
    }
}

/// Law (flattening invariant): the flattened view holds exactly as many
/// items as the channels hold together — none is duplicated or dropped.
pub proof fn lemma_flatten_len(s: Seq<Channel>)
    ensures
        flatten_channels(s).len() == total_items(s),
    decreases s.len(),
{
    if s.len() > 0 {
        lemma_flatten_len(s.drop_last());
    }
}

/// The predicate picking the channels whose title contains `q`.
pub open spec fn named_pred(q: Seq<char>) -> spec_fn(Channel) -> bool {
    |ch: Channel| contains_seq(ch.title@, q)
}

/// The channels whose title contains `q`, in their original order.
pub open spec fn channels_named(s: Seq<Channel>, q: Seq<char>) -> Seq<Channel> {
    s.filter(named_pred(q))
}

impl ChannelCollection {
    /// Create a new, empty ChannelCollection.
    pub fn new() -> (r: ChannelCollection)
        ensures
            r@ == Seq::<Channel>::empty(),
    {
        ChannelCollection { channels: Vec::new() }
    }

    /// Push a new channel onto the end of the collection.
    pub fn push(&mut self, channel: Channel)
        ensures
            final(self)@ == old(self)@.push(channel),
    {
        self.channels.push(channel);
    }

    /// The channels, in their current order.
    pub fn channels(&self) -> (r: &Vec<Channel>)
        ensures
            r@ == self@,
    {
        &self.channels
    }

    /// Derive the item view: every channel's items, flattened.
    fn item_collection(&self) -> (r: ItemCollection)
        ensures
            r@ == flatten_channels(self@),
    {
        let mut collection = ItemCollection::new();
        let n = self.channels.len();
        proof {
            assert(self@.take(0) =~= Seq::<Channel>::empty());
        }
        let mut ci: usize = 0;
        while ci < n
            invariant
                ci <= n,
                n == self@.len(),
                collection@ == flatten_channels(self@.take(ci as int)),
            decreases n - ci,
        {
            let channel = &self.channels[ci];
            let m = channel.items.len();
            let mut ii: usize = 0;
            proof {
                assert(channel.items@.take(0) =~= Seq::<Item>::empty());
                assert(collection@ + channel.items@.take(0) =~= collection@);
            }
            let ghost before = collection@;
            while ii < m
                invariant
                    ii <= m,
                    ci < n,
                    n == self@.len(),
                    m == self@[ci as int].items@.len(),
                    channel == &self.channels[ci as int],
                    collection@ == before + self@[ci as int].items@.take(ii as int),
                decreases m - ii,
            {
                collection.push(self.channels[ci].items[ii].clone());
                proof {
                    assert(before + channel.items@.take(ii as int + 1) =~= (before
                        + channel.items@.take(ii as int)).push(channel.items@[ii as int]));
                }
                ii = ii + 1;
            }
            proof {
                assert(channel.items@.take(m as int) =~= channel.items@);
                assert(self@.take(ci as int + 1).drop_last() =~= self@.take(ci as int));
                assert(self@.take(ci as int + 1).last() == self@[ci as int]);
            }
            ci = ci + 1;
        }
        proof {
            assert(self@.take(n as int) =~= self@);
        }
        collection
    }

    /// All items across all channels, flattened.
    pub fn items(&self) -> (r: Vec<Item>)
        ensures
            r@ == flatten_channels(self@),
    {
        self.item_collection().items()
    }

    /// Sort the collection.
    ///
    /// An item criterion sorts a fresh item view and returns it; the
    /// stored channel order is untouched. `Publisher` stably reorders
    /// the channel list itself by title and returns the items flattened
    /// in the new channel order.
    pub fn sort(&mut self, sort_type: ChannelSortType) -> (r: Result<ItemCollection, QueryError>)
        ensures
            sort_type matches ChannelSortType::ItemSortType(c) ==> final(self)@ == old(self)@ && (
            (r is Ok) <==> sort_ok(c, flatten_channels(old(self)@))) && (r matches Ok(col)
                ==> col@ == sort_items(flatten_channels(old(self)@), c)),
            sort_type is Publisher ==> r is Ok && final(self)@ == sort_channels(old(self)@) && (
            r matches Ok(col) ==> col@ == flatten_channels(sort_channels(old(self)@))),
            r matches Err(e) ==> e == QueryError::MalformedDate,
    {
        match sort_type {
            ChannelSortType::ItemSortType(c) => {
                let mut collection = self.item_collection();
                match collection.sort(c) {
                    Ok(()) => Ok(collection),
                    Err(e) => Err(e),
                }
            }
            ChannelSortType::Publisher => {
                sort_channels_vec(&mut self.channels);
                Ok(self.item_collection())
            }
        }
    }

    /// Filter the collection, returning the matching items as a new
    /// item view. The stored channels are never changed by a filter.
    ///
    /// An item criterion filters the flattened items; a name criterion
    /// keeps exactly the items of the channels whose title contains the
    /// given string.
    pub fn filter(&mut self, filter_type: ChannelFilterType) -> (r: Result<
        ItemCollection,
        QueryError,
    >)
        ensures
            final(self)@ == old(self)@,
            filter_type matches ChannelFilterType::ItemFilterType(f) ==> ((r is Ok) <==> filter_ok(
                f,
                flatten_channels(old(self)@),
            )) && (r matches Ok(col) ==> col@ == filter_items(flatten_channels(old(self)@), f)),
            filter_type matches ChannelFilterType::Name(q) ==> r matches Ok(col) && col@
                == flatten_channels(channels_named(old(self)@, q@)),
            r matches Err(e) ==> e == QueryError::MalformedDate,
    {
        match filter_type {
            ChannelFilterType::ItemFilterType(f) => {
                let mut collection = self.item_collection();
                match collection.filter(f) {
                    Ok(()) => Ok(collection),
                    Err(e) => Err(e),
                }
            }
            ChannelFilterType::Name(q) => Ok(self.named_items(&q)),
        }
    }

    /// The flattened items of the channels whose title contains `q`.
    fn named_items(&self, q: &String) -> (r: ItemCollection)
        ensures
            r@ == flatten_channels(channels_named(self@, q@)),
    {
        let mut collection = ItemCollection::new();
        let n = self.channels.len();
        proof {
            assert(self@.take(0) =~= Seq::<Channel>::empty());
            reveal(Seq::filter);
        }
        let mut ci: usize = 0;
        while ci < n
            invariant
                ci <= n,
                n == self@.len(),
                collection@ == flatten_channels(channels_named(self@.take(ci as int), q@)),
            decreases n - ci,
        {
            let channel = &self.channels[ci];
            proof {
                assert(self@.take(ci as int + 1) =~= self@.take(ci as int).push(
                    self@[ci as int],
                ));
                self@.take(ci as int).lemma_filter_push(self@[ci as int], named_pred(q@));
            }
            if str_contains(channel.title.as_str(), q.as_str()) {
                let ghost before = collection@;
                let ghost named = channels_named(self@.take(ci as int), q@);
                proof {
                    assert(channels_named(self@.take(ci as int + 1), q@) == named.push(
                        self@[ci as int],
                    ));
                    assert(named.push(self@[ci as int]).drop_last() =~= named);
                    assert(flatten_channels(named.push(self@[ci as int])) == flatten_channels(
                        named,
                    ) + self@[ci as int].items@);
                    assert(channel.items@.take(0) =~= Seq::<Item>::empty());
                    assert(before + channel.items@.take(0) =~= before);
                }
                let m = channel.items.len();
                let mut ii: usize = 0;
                while ii < m
                    invariant
                        ii <= m,
                        ci < n,
                        n == self@.len(),
                        m == self@[ci as int].items@.len(),
                        channel == &self.channels[ci as int],
                        collection@ == before + self@[ci as int].items@.take(ii as int),
                    decreases m - ii,
                {
                    collection.push(self.channels[ci].items[ii].clone());
                    proof {
                        assert(before + channel.items@.take(ii as int + 1) =~= (before
                            + channel.items@.take(ii as int)).push(channel.items@[ii as int]));
                    }
                    ii = ii + 1;
                }
                proof {
                    assert(channel.items@.take(m as int) =~= channel.items@);
                }
            }
            ci = ci + 1;
        }
        proof {
            assert(self@.take(n as int) =~= self@);
        }
        collection
    }
}

impl Default for ChannelCollection {
    /// The default collection is empty.
    fn default() -> (r: ChannelCollection)
        ensures
            r@ == Seq::<Channel>::empty(),
    {
        ChannelCollection::new()
    }
}

} // verus!

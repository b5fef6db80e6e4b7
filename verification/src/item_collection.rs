//! The item view collection: an ordered sequence of items that answers
//! sort and filter queries.
//!
//! `sort` reorders the stored items in place; `filter` removes the items
//! that do not match. Date-based queries are strict: a publication date
//! or date bound that is not a well-formed RFC 2822 date fails the whole
//! operation with [`QueryError::MalformedDate`] and leaves the collection
//! unchanged, rather than being skipped silently.

use vstd::prelude::*;
use vstd::string::StrSliceExecFns;

use crate::dates::{parse_rfc2822, rfc2822_timestamp, QueryError};
use crate::enums::{ItemFilterType, ItemSortType};
use crate::order::{item_timestamp, item_ts};
use crate::records::Item;
use crate::sorting::{sort_items, sort_items_vec};
use crate::text::{contains_seq, str_contains};

verus! {

/// A collection of items.
pub struct ItemCollection {
    items: Vec<Item>,
}

impl View for ItemCollection {
    type V = Seq<Item>;

    closed spec fn view(&self) -> Seq<Item> {
        self.items@
    }
}

/// Whether an item satisfies a filter criterion. Items missing the
/// filtered field are excluded.
pub open spec fn item_matches(f: ItemFilterType, i: Item) -> bool {
    match f {
        ItemFilterType::Title(t) => i.title matches Some(s) && contains_seq(s@, t@),
        ItemFilterType::Date(t) => i.pub_date matches Some(d) && rfc2822_timestamp(d@) matches Some(
            ts,
        ) && rfc2822_timestamp(t@) matches Some(bound) && ts <= bound,
        ItemFilterType::Length(n) => i.description matches Some(d) && d@.len() < n,
        ItemFilterType::Source(q) => i.source matches Some(src) && src.title matches Some(st)
            && contains_seq(st@, q@),
    }
}

/// The predicate picking the items that satisfy `f`.
pub open spec fn matches_pred(f: ItemFilterType) -> spec_fn(Item) -> bool {
    |i: Item| item_matches(f, i)
}

/// The items of `s` that satisfy `f`, in their original order.
pub open spec fn filter_items(s: Seq<Item>, f: ItemFilterType) -> Seq<Item> {
    s.filter(matches_pred(f))
}

/// Every item carries a publication date that parses.
pub open spec fn date_sortable(s: Seq<Item>) -> bool {
    forall|k: int| 0 <= k < s.len() ==> item_timestamp(#[trigger] s[k]) is Some
}

/// Every publication date that is present parses.
pub open spec fn dates_parse(s: Seq<Item>) -> bool {
    forall|k: int|
        0 <= k < s.len() ==> ((#[trigger] s[k]).pub_date is Some ==> item_timestamp(s[k]) is Some)
}

/// Whether sorting `s` by `c` can be answered: the date criterion
/// demands that every item carry a well-formed date.
pub open spec fn sort_ok(c: ItemSortType, s: Seq<Item>) -> bool {
    c is Date ==> date_sortable(s)
}

/// Whether filtering `s` by `f` can be answered: a date filter demands
/// a well-formed bound and that every present date parse.
pub open spec fn filter_ok(f: ItemFilterType, s: Seq<Item>) -> bool {
    f matches ItemFilterType::Date(t) ==> (rfc2822_timestamp(t@) is Some && dates_parse(s))
}

/// Check that every item of `items` carries a date that parses.
fn all_dates_sortable(items: &Vec<Item>) -> (r: bool)
    ensures
        r == date_sortable(items@),
{
    let n = items.len();
    let mut k: usize = 0;
    while k < n
        invariant
            k <= n,
            n == items@.len(),
            forall|m: int| 0 <= m < k ==> item_timestamp(#[trigger] items@[m]) is Some,
        decreases n - k,
    {
        if item_ts(&items[k]).is_none() {
            proof {
                assert(!(item_timestamp(items@[k as int]) is Some));
            }
            return false;
        }
        k = k + 1;
    }
    true
}

/// Check that every present publication date parses.
fn all_present_dates_parse(items: &Vec<Item>) -> (r: bool)
    ensures
        r == dates_parse(items@),
{
    let n = items.len();
    let mut k: usize = 0;
    while k < n
        invariant
            k <= n,
            n == items@.len(),
            forall|m: int|
                0 <= m < k ==> ((#[trigger] items@[m]).pub_date is Some ==> item_timestamp(
                    items@[m],
                ) is Some),
        decreases n - k,
    {
        let present = items[k].pub_date.is_some();
        if present && item_ts(&items[k]).is_none() {
            proof {
                assert(items@[k as int].pub_date is Some);
                assert(!(item_timestamp(items@[k as int]) is Some));
            }
            return false;
        }
        k = k + 1;
    }
    true
}

/// Decide `item_matches` for one item. For a date filter, the caller has
/// already established that the bound and the item's date (when present)
/// parse.
fn item_matches_exec(f: &ItemFilterType, i: &Item) -> (r: bool)
    requires
        *f matches ItemFilterType::Date(t) ==> (rfc2822_timestamp(t@) is Some && (i.pub_date
            is Some ==> item_timestamp(*i) is Some)),
    ensures
        r == item_matches(*f, *i),
{
    match f {
        ItemFilterType::Title(t) => {
            match &i.title {
                Some(s) => str_contains(s.as_str(), t.as_str()),
                None => false,
            }
        }
        ItemFilterType::Date(t) => {
            match &i.pub_date {
                Some(_) => {
                    let its = item_ts(i);
                    let bound = parse_rfc2822(t.as_str());
                    match (its, bound) {
                        (Some(a), Some(b)) => a <= b,
                        _ => false,
                    }
                }
                None => false,
            }
        }
        ItemFilterType::Length(n) => {
            match &i.description {
                Some(d) => d.as_str().unicode_len() < *n,
                None => false,
            }
        }
        ItemFilterType::Source(q) => {
            match &i.source {
                Some(src) => match &src.title {
                    Some(st) => str_contains(st.as_str(), q.as_str()),
                    None => false,
                },
                None => false,
            }
        }
    }
}

impl ItemCollection {
    /// Create a new, empty ItemCollection.
    pub fn new() -> (r: ItemCollection)
        ensures
            r@ == Seq::<Item>::empty(),
    {
        ItemCollection { items: Vec::new() }
    }

    /// Push a new item onto the end of the collection.
    pub fn push(&mut self, item: Item)
        ensures
            final(self)@ == old(self)@.push(item),
    {
        self.items.push(item);
    }

    /// Hand out the items in their current order.
    pub fn items(self) -> (r: Vec<Item>)
        ensures
            r@ == self@,
    {
        self.items
    }

    /// Sort the items in the collection, in place, stably.
    ///
    /// Sorting by date is strict: if any item lacks a publication date
    /// or carries one that is not a well-formed RFC 2822 date, the whole
    /// operation fails with `MalformedDate` and the order is unchanged.
    pub fn sort(&mut self, sort_type: ItemSortType) -> (r: Result<(), QueryError>)
        ensures
            r is Ok <==> sort_ok(sort_type, old(self)@),
            r is Ok ==> final(self)@ == sort_items(old(self)@, sort_type),
            r matches Err(e) ==> final(self)@ == old(self)@ && e == QueryError::MalformedDate,
    {
        let strict = match sort_type {
            ItemSortType::Date => true,
            _ => false,
        };
        if strict && !all_dates_sortable(&self.items) {
            return Err(QueryError::MalformedDate);
        }
        sort_items_vec(&mut self.items, sort_type);
        Ok(())
    }

    /// Filter the items in the collection, in place, keeping exactly the
    /// matching ones in their original order.
    ///
    /// A date filter is strict: if the bound, or any publication date
    /// that an item does carry, is not a well-formed RFC 2822 date, the
    /// whole operation fails with `MalformedDate` and the collection is
    /// unchanged. An item without a publication date is merely excluded.
    pub fn filter(&mut self, filter_type: ItemFilterType) -> (r: Result<(), QueryError>)
        ensures
            r is Ok <==> filter_ok(filter_type, old(self)@),
            r is Ok ==> final(self)@ == filter_items(old(self)@, filter_type),
            r matches Err(e) ==> final(self)@ == old(self)@ && e == QueryError::MalformedDate,
    {
        match &filter_type {
            ItemFilterType::Date(t) => {
                if parse_rfc2822(t.as_str()).is_none() {
                    return Err(QueryError::MalformedDate);
                }
                if !all_present_dates_parse(&self.items) {
                    return Err(QueryError::MalformedDate);
                }
            }
            _ => {}
        }
        let ghost orig = self.items@;
        let n = self.items.len();
        let mut kept: Vec<Item> = Vec::new();
        proof {
            assert(orig.take(0) =~= Seq::<Item>::empty());
            reveal(Seq::filter);
        }
        let mut k: usize = 0;
        while k < n
            invariant
                k <= n,
                self.items@ == orig,
                n == orig.len(),
                kept@ == filter_items(orig.take(k as int), filter_type),
                filter_type matches ItemFilterType::Date(t) ==> (rfc2822_timestamp(t@) is Some
                    && dates_parse(orig)),
            decreases n - k,
        {
            proof {
                assert(orig.take(k as int + 1) =~= orig.take(k as int).push(orig[k as int]));
                orig.take(k as int).lemma_filter_push(orig[k as int], matches_pred(filter_type));
            }
            let it = &self.items[k];
            if item_matches_exec(&filter_type, it) {
                kept.push(it.clone());
            }
            k = k + 1;
        }
        proof {
            assert(orig.take(n as int) =~= orig);
        }
        self.items = kept;
        Ok(())
    }
}

impl Default for ItemCollection {
    /// The default collection is empty.
    fn default() -> (r: ItemCollection)
        ensures
            r@ == Seq::<Item>::empty(),
    {
        ItemCollection::new()
    }
}

} // verus!

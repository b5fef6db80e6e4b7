//! The orders that the sort criteria induce on items and channels.
//!
//! Each criterion yields a total preorder. Missing fields are never an
//! error here: each criterion fixes where an absent field sorts, except
//! that date order is only meaningful once every date parses, which the
//! collections check before sorting.

use vstd::prelude::*;
use vstd::string::StrSliceExecFns;

use crate::dates::{parse_rfc2822, rfc2822_timestamp};
use crate::enums::ItemSortType;
use crate::records::{opt_chars, source_title_chars, Channel, Item};
use crate::text::{lemma_lex_le_total, lemma_lex_le_trans, lex_le, str_lex_le};

verus! {

/// Optional character sequences, with `None` before any `Some`.
pub open spec fn opt_lex_le(a: Option<Seq<char>>, b: Option<Seq<char>>) -> bool {
    match (a, b) {
        (None, _) => true,
        (Some(_), None) => false,
        (Some(x), Some(y)) => lex_le(x, y),
    }
}

/// Optional instants, with `None` before any `Some`.
pub open spec fn opt_int_le(a: Option<int>, b: Option<int>) -> bool {
    match (a, b) {
        (None, _) => true,
        (Some(_), None) => false,
        (Some(x), Some(y)) => x <= y,
    }
}

/// The instant of an item's publication date: `None` when the date is
/// absent or not a well-formed RFC 2822 date.
pub open spec fn item_timestamp(i: Item) -> Option<int> {
    match i.pub_date {
        Some(d) => rfc2822_timestamp(d@),
        None => None,
    }
}

/// Description-length order: an item with a description always comes
/// before one without, and two descriptions compare by character count.
pub open spec fn desc_len_le(a: Option<Seq<char>>, b: Option<Seq<char>>) -> bool {
    match (a, b) {
        (None, None) => true,
        (None, Some(_)) => false,
        (Some(_), None) => true,
        (Some(x), Some(y)) => x.len() <= y.len(),
    }
}

/// Source order mirrors the title policy: an absent source comes before
/// any present one, and an untitled source before any titled one.
pub open spec fn source_le(a: Option<Option<Seq<char>>>, b: Option<Option<Seq<char>>>) -> bool {
    match (a, b) {
        (None, _) => true,
        (Some(_), None) => false,
        (Some(x), Some(y)) => opt_lex_le(x, y),
    }
}

/// The total preorder on items induced by a sort criterion.
pub open spec fn le_item(c: ItemSortType, a: Item, b: Item) -> bool {
    match c {
        ItemSortType::Title => opt_lex_le(opt_chars(a.title), opt_chars(b.title)),
        ItemSortType::Date => opt_int_le(item_timestamp(a), item_timestamp(b)),
        ItemSortType::Length => desc_len_le(opt_chars(a.description), opt_chars(b.description)),
        ItemSortType::Source => source_le(source_title_chars(a), source_title_chars(b)),
    }
}

/// Channels are ordered by their title (their publisher).
pub open spec fn le_channel(a: Channel, b: Channel) -> bool {
    lex_le(a.title@, b.title@)
}

/// `opt_lex_le` is total.
proof fn lemma_opt_lex_le_total(a: Option<Seq<char>>, b: Option<Seq<char>>)
    ensures
        opt_lex_le(a, b) || opt_lex_le(b, a),
{
    if a is Some && b is Some {
        lemma_lex_le_total(a->0, b->0);
    }
}

/// `opt_lex_le` is transitive.
proof fn lemma_opt_lex_le_trans(a: Option<Seq<char>>, b: Option<Seq<char>>, c: Option<Seq<char>>)
    requires
        opt_lex_le(a, b),
        opt_lex_le(b, c),
    ensures
        opt_lex_le(a, c),
{
    if a is Some && b is Some && c is Some {
        lemma_lex_le_trans(a->0, b->0, c->0);
    }
}

/// Any two items are comparable under any criterion.
pub proof fn lemma_le_item_total(c: ItemSortType, a: Item, b: Item)
    ensures
        le_item(c, a, b) || le_item(c, b, a),
{
    match c {
        ItemSortType::Title => {
            lemma_opt_lex_le_total(opt_chars(a.title), opt_chars(b.title));
        }
        ItemSortType::Date => {}
        ItemSortType::Length => {}
        ItemSortType::Source => {
            if source_title_chars(a) is Some && source_title_chars(b) is Some {
                lemma_opt_lex_le_total(source_title_chars(a)->0, source_title_chars(b)->0);
            }
        }
    }
}

/// Each criterion's order is transitive.
pub proof fn lemma_le_item_trans(c: ItemSortType, a: Item, b: Item, d: Item)
    requires
        le_item(c, a, b),
        le_item(c, b, d),
    ensures
        le_item(c, a, d),
{
    match c {
        ItemSortType::Title => {
            lemma_opt_lex_le_trans(opt_chars(a.title), opt_chars(b.title), opt_chars(d.title));
        }
        ItemSortType::Date => {}
        ItemSortType::Length => {}
        ItemSortType::Source => {
            if source_title_chars(a) is Some && source_title_chars(b) is Some
                && source_title_chars(d) is Some {
                lemma_opt_lex_le_trans(
                    source_title_chars(a)->0,
                    source_title_chars(b)->0,
                    source_title_chars(d)->0,
                );
            }
        }
    }
}

/// Any two channels are comparable.
pub proof fn lemma_le_channel_total(a: Channel, b: Channel)
    ensures
        le_channel(a, b) || le_channel(b, a),
{
    lemma_lex_le_total(a.title@, b.title@);
}

/// Channel order is transitive.
pub proof fn lemma_le_channel_trans(a: Channel, b: Channel, c: Channel)
    requires
        le_channel(a, b),
        le_channel(b, c),
    ensures
        le_channel(a, c),
{
    lemma_lex_le_trans(a.title@, b.title@, c.title@);
}

/// Compare two optional strings, `None` first.
fn opt_str_le(a: &Option<String>, b: &Option<String>) -> (r: bool)
    ensures
        r == opt_lex_le(opt_chars(*a), opt_chars(*b)),
{
    match (a, b) {
        (None, _) => true,
        (Some(_), None) => false,
        (Some(x), Some(y)) => str_lex_le(x.as_str(), y.as_str()),
    }
}

/// The parsed instant of an item's publication date.
pub(crate) fn item_ts(i: &Item) -> (r: Option<i64>)
    ensures
        r is Some <==> item_timestamp(*i) is Some,
        r matches Some(t) ==> item_timestamp(*i) == Some(t as int),
{
    match &i.pub_date {
        Some(d) => parse_rfc2822(d.as_str()),
        None => None,
    }
}

/// Decide `le_item` for two items.
pub(crate) fn item_le(c: ItemSortType, a: &Item, b: &Item) -> (r: bool)
    ensures
        r == le_item(c, *a, *b),
{
    match c {
        ItemSortType::Title => opt_str_le(&a.title, &b.title),
        ItemSortType::Date => {
            let ta = item_ts(a);
            let tb = item_ts(b);
            match (ta, tb) {
                (None, _) => true,
                (Some(_), None) => false,
                (Some(x), Some(y)) => x <= y,
            }
        }
        ItemSortType::Length => {
            match (&a.description, &b.description) {
                (None, None) => true,
                (None, Some(_)) => false,
                (Some(_), None) => true,
                (Some(x), Some(y)) => x.as_str().unicode_len() <= y.as_str().unicode_len(),
            }
        }
        ItemSortType::Source => {
            match (&a.source, &b.source) {
                (None, _) => true,
                (Some(_), None) => false,
                (Some(x), Some(y)) => opt_str_le(&x.title, &y.title),
            }
        }
    }
}

/// Decide `le_channel` for two channels.
pub(crate) fn channel_le(a: &Channel, b: &Channel) -> (r: bool)
    ensures
        r == le_channel(*a, *b),
{
    str_lex_le(a.title.as_str(), b.title.as_str())
}

} // verus!

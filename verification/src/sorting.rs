//! Stable insertion sort for items and channels.
//!
//! `sort_items` and `sort_channels` pin the sorted order down exactly:
//! each element is inserted after every earlier element that is less
//! than or tied with it, so ties keep their original order. The laws
//! proved here state stability, idempotence and order/content
//! preservation once, for every criterion and every input.

use vstd::multiset::Multiset;
use vstd::prelude::*;

use crate::enums::ItemSortType;
use crate::order::{
    le_channel, le_item, lemma_le_channel_total, lemma_le_channel_trans, lemma_le_item_total,
    lemma_le_item_trans,
};
use crate::records::{Channel, Item};

verus! {

/// Insert `x` into `s` after every element less than or tied with it.
pub open spec fn insert_item_sorted(s: Seq<Item>, x: Item, c: ItemSortType) -> Seq<Item>
    decreases s.len(),
{
    if s.len() == 0 {
        seq![x]
    } else if le_item(c, s.last(), x) {
        s.push(x)
    } else {
        insert_item_sorted(s.drop_last(), x, c).push(s.last())
    }
}

/// Stable sort of items by criterion `c`.
pub open spec fn sort_items(s: Seq<Item>, c: ItemSortType) -> Seq<Item>
    decreases s.len(),
{
    if s.len() == 0 {
        s
    } else {
        insert_item_sorted(sort_items(s.drop_last(), c), s.last(), c)
    }
}

/// Whether `s` is ordered by criterion `c`.
pub open spec fn items_sorted_by(c: ItemSortType, s: Seq<Item>) -> bool {
    forall|i: int, j: int| 0 <= i < j < s.len() ==> le_item(c, s[i], s[j])
}

/// Whether `b` is an upper bound of every element of `s` under `c`.
pub open spec fn item_upper_bound(c: ItemSortType, s: Seq<Item>, b: Item) -> bool {
    forall|k: int| 0 <= k < s.len() ==> le_item(c, s[k], b)
}

/// Two items the criterion cannot tell apart.
pub open spec fn tied(c: ItemSortType, a: Item, b: Item) -> bool {
    le_item(c, a, b) && le_item(c, b, a)
}

/// The predicate picking the items tied with `m` under `c`.
pub open spec fn tied_with(c: ItemSortType, m: Item) -> spec_fn(Item) -> bool {
    |y: Item| tied(c, y, m)
}

proof fn lemma_insert_item_sorted(c: ItemSortType, s: Seq<Item>, x: Item)
    requires
        items_sorted_by(c, s),
    ensures
        insert_item_sorted(s, x, c).len() == s.len() + 1,
        insert_item_sorted(s, x, c).to_multiset() == s.to_multiset().insert(x),
        items_sorted_by(c, insert_item_sorted(s, x, c)),
        forall|b: Item|
            le_item(c, x, b) && item_upper_bound(c, s, b) ==> item_upper_bound(
                c,
                insert_item_sorted(s, x, c),
                b,
            ),
    decreases s.len(),
{
    let r = insert_item_sorted(s, x, c);
    if s.len() == 0 {
        s.to_multiset_ensures();
        assert(seq![x] =~= s.push(x));
        assert(s.push(x).to_multiset() =~= s.to_multiset().insert(x));
    } else if le_item(c, s.last(), x) {
        s.to_multiset_ensures();
        assert forall|i: int, j: int| 0 <= i < j < r.len() implies le_item(c, r[i], r[j]) by {
            if j == s.len() {
                if i < s.len() - 1 {
                    lemma_le_item_trans(c, s[i], s.last(), x);
                }
            }
        }
        assert forall|b: Item|
            le_item(c, x, b) && item_upper_bound(c, s, b) implies item_upper_bound(
            c,
            r,
            b,
        ) by {
            assert(forall|k: int| 0 <= k < r.len() ==> r[k] == x || r[k] == s[k]);
        }
    } else {
        lemma_le_item_total(c, s.last(), x);
        assert(le_item(c, x, s.last()));
        assert(items_sorted_by(c, s.drop_last()));
        lemma_insert_item_sorted(c, s.drop_last(), x);
        let t = insert_item_sorted(s.drop_last(), x, c);
        // contents: r = t.push(s.last())
        t.to_multiset_ensures();
        s.drop_last().to_multiset_ensures();
        assert(s =~= s.drop_last().push(s.last()));
        assert(s.drop_last().push(s.last()).to_multiset() =~= s.drop_last().to_multiset().insert(
            s.last(),
        ));
        assert(r.to_multiset() =~= s.to_multiset().insert(x)) by {
            assert(r.to_multiset() =~= t.to_multiset().insert(s.last()));
            assert(t.to_multiset() =~= s.drop_last().to_multiset().insert(x));
        }
        // order: every element of t is bounded by s.last()
        assert(item_upper_bound(c, s.drop_last(), s.last()));
        assert(item_upper_bound(c, t, s.last()));
        assert forall|i: int, j: int| 0 <= i < j < r.len() implies le_item(c, r[i], r[j]) by {
            if j == t.len() {
                assert(le_item(c, t[i], s.last()));
            }
        }
        assert forall|b: Item|
            le_item(c, x, b) && item_upper_bound(c, s, b) implies item_upper_bound(
            c,
            r,
            b,
        ) by {
            assert(item_upper_bound(c, s.drop_last(), b));
            assert(item_upper_bound(c, t, b));
            assert(le_item(c, s.last(), b));
            assert(forall|k: int| 0 <= k < r.len() ==> r[k] == s.last() || r[k] == t[k]);
        }
    }
}

/// Law: sorting keeps the items exactly — same length, same contents as
/// a multiset — and yields a sequence ordered by the criterion.
pub proof fn lemma_sort_items_props(c: ItemSortType, s: Seq<Item>)
    ensures
        sort_items(s, c).len() == s.len(),
        sort_items(s, c).to_multiset() == s.to_multiset(),
        items_sorted_by(c, sort_items(s, c)),
    decreases s.len(),
{
    if s.len() > 0 {
        lemma_sort_items_props(c, s.drop_last());
        lemma_insert_item_sorted(c, sort_items(s.drop_last(), c), s.last());
        s.drop_last().to_multiset_ensures();
        assert(s =~= s.drop_last().push(s.last()));
        assert(s.drop_last().push(s.last()).to_multiset() =~= s.drop_last().to_multiset().insert(
            s.last(),
        ));
        assert(sort_items(s, c).to_multiset() =~= s.to_multiset());
    }
}

proof fn lemma_insert_item_sorted_tied(c: ItemSortType, s: Seq<Item>, x: Item, m: Item)
    ensures
        insert_item_sorted(s, x, c).filter(tied_with(c, m)) == if tied(c, x, m) {
            s.filter(tied_with(c, m)).push(x)
        } else {
            s.filter(tied_with(c, m))
        },
    decreases s.len(),
{
    let f = tied_with(c, m);
    if s.len() == 0 {
        reveal(Seq::filter);
        assert(seq![x] =~= Seq::<Item>::empty().push(x));
        Seq::<Item>::empty().lemma_filter_push(x, f);
    } else if le_item(c, s.last(), x) {
        s.lemma_filter_push(x, f);
    } else {
        lemma_le_item_total(c, s.last(), x);
        lemma_insert_item_sorted_tied(c, s.drop_last(), x, m);
        let t = insert_item_sorted(s.drop_last(), x, c);
        t.lemma_filter_push(s.last(), f);
        s.drop_last().lemma_filter_push(s.last(), f);
        assert(s =~= s.drop_last().push(s.last()));
        if tied(c, x, m) {
            // x and s.last() cannot both be tied with m: that would make
            // s.last() comparable below x, which this branch excludes.
            if tied(c, s.last(), m) {
                lemma_le_item_trans(c, s.last(), m, x);
                assert(false);
            }
        }
    }
}

/// Law: sorting is stable. For any reference item `m`, the subsequence
/// of items tied with `m` under the criterion is the same, in the same
/// order, before and after sorting.
pub proof fn lemma_sort_items_stable(c: ItemSortType, s: Seq<Item>, m: Item)
    ensures
        sort_items(s, c).filter(tied_with(c, m)) == s.filter(tied_with(c, m)),
    decreases s.len(),
{
    let f = tied_with(c, m);
    if s.len() > 0 {
        lemma_sort_items_stable(c, s.drop_last(), m);
        lemma_insert_item_sorted_tied(c, sort_items(s.drop_last(), c), s.last(), m);
        s.drop_last().lemma_filter_push(s.last(), f);
        assert(s =~= s.drop_last().push(s.last()));
    }
}

/// Sorting a sequence that is already ordered gives it back unchanged.
pub proof fn lemma_sorted_items_sort_identity(c: ItemSortType, s: Seq<Item>)
    requires
        items_sorted_by(c, s),
    ensures
        sort_items(s, c) == s,
    decreases s.len(),
{
    if s.len() > 0 {
        assert(items_sorted_by(c, s.drop_last()));
        lemma_sorted_items_sort_identity(c, s.drop_last());
        if s.len() == 1 {
            assert(sort_items(s, c) =~= s);
        } else {
            assert(le_item(c, s.drop_last().last(), s.last()));
            assert(sort_items(s, c) =~= s.drop_last().push(s.last()));
            assert(sort_items(s, c) =~= s);
        }
    }
}

/// Law: sorting is idempotent — sorting twice in succession by the same
/// criterion yields the same order as sorting once.
pub proof fn lemma_sort_items_idempotent(c: ItemSortType, s: Seq<Item>)
    ensures
        sort_items(sort_items(s, c), c) == sort_items(s, c),
{
    lemma_sort_items_props(c, s);
    lemma_sorted_items_sort_identity(c, sort_items(s, c));
}

/// Law: under the length criterion an item with a description — even an
/// empty one — never sorts after an item without one: everything that
/// follows a described item in the sorted order is itself described.
pub proof fn lemma_sort_length_described_first(s: Seq<Item>, i: int, j: int)
    requires
        0 <= i < j < sort_items(s, ItemSortType::Length).len(),
        sort_items(s, ItemSortType::Length)[j].description is Some,
    ensures
        sort_items(s, ItemSortType::Length)[i].description is Some,
{
    lemma_sort_items_props(ItemSortType::Length, s);
    let r = sort_items(s, ItemSortType::Length);
    assert(le_item(ItemSortType::Length, r[i], r[j]));
}

/// Sort the vector of items by criterion `c`, in place.
pub(crate) fn sort_items_vec(items: &mut Vec<Item>, c: ItemSortType)
    ensures
        final(items)@ == sort_items(old(items)@, c),
{
    let ghost orig = old(items)@;
    let n = items.len();
    if n == 0 {
        return ;
    }
    proof {
        reveal_with_fuel(sort_items, 2);
        reveal_with_fuel(insert_item_sorted, 2);
        assert(orig.take(1).drop_last() =~= Seq::<Item>::empty());
        assert(orig.take(1) =~= seq![orig[0]]);
        assert(sort_items(orig.take(1).drop_last(), c) == orig.take(1).drop_last());
        assert(orig.take(1).last() == orig[0]);
        assert(sort_items(orig.take(1), c) == insert_item_sorted(
            orig.take(1).drop_last(),
            orig[0],
            c,
        ));
        assert(insert_item_sorted(orig.take(1).drop_last(), orig[0], c) =~= seq![orig[0]]);
        assert(sort_items(orig.take(1), c) =~= items@.take(1));
    }
    let mut i: usize = 1;
    while i < n
        invariant
            1 <= i <= n,
            items.len() == n,
            orig.len() == n,
            items@.take(i as int) == sort_items(orig.take(i as int), c),
            items@.skip(i as int) == orig.skip(i as int),
        decreases n - i,
    {
        let ghost v = items@;
        proof {
            assert(v.skip(i as int)[0] == orig.skip(i as int)[0]);
            assert(v[i as int] == orig[i as int]);
        }
        let x = items.remove(i);
        let ghost s = items@;
        proof {
            assert(s.take(i as int) =~= v.take(i as int));
            assert(s.skip(i as int) =~= v.skip(i as int + 1));
            assert forall|m: int| 0 <= m < v.len() - (i + 1) implies #[trigger] v.skip(
                i as int + 1,
            )[m] == orig.skip(i as int + 1)[m] by {
                assert(v.skip(i as int)[m + 1] == orig.skip(i as int)[m + 1]);
            }
            assert(v.skip(i as int + 1) =~= orig.skip(i as int + 1));
            assert(s.subrange(i as int, i as int) =~= Seq::<Item>::empty());
            assert(insert_item_sorted(s.take(i as int), x, c) =~= insert_item_sorted(
                s.take(i as int),
                x,
                c,
            ) + s.subrange(i as int, i as int));
        }
        let mut j: usize = i;
        while j > 0 && !item_le_at(items, j - 1, &x, c)
            invariant
                j <= i,
                i < n,
                items.len() == n - 1,
                items@ == s,
                i <= s.len(),
                insert_item_sorted(s.take(i as int), x, c) == insert_item_sorted(
                    s.take(j as int),
                    x,
                    c,
                ) + s.subrange(j as int, i as int),
            decreases j,
        {
            proof {
                assert(s.take(j as int).last() == s[j - 1]);
                assert(s.take(j as int).drop_last() =~= s.take(j - 1));
                assert(insert_item_sorted(s.take(j - 1), x, c).push(s[j - 1]) + s.subrange(
                    j as int,
                    i as int,
                ) =~= insert_item_sorted(s.take(j - 1), x, c) + s.subrange(j - 1, i as int));
            }
            j = j - 1;
        }
        proof {
            if j > 0 {
                assert(s.take(j as int).last() == s[j - 1]);
                assert(insert_item_sorted(s.take(j as int), x, c) == s.take(j as int).push(x));
            } else {
                assert(s.take(0).push(x) =~= seq![x]);
                assert(insert_item_sorted(s.take(0), x, c) == s.take(0).push(x));
            }
        }
        items.insert(j, x);
        proof {
            let w = items@;
            assert(w =~= s.take(j as int).push(x) + s.subrange(j as int, s.len() as int));
            assert(w.take(i as int + 1) =~= s.take(j as int).push(x) + s.subrange(
                j as int,
                i as int,
            ));
            assert(orig.take(i as int + 1).drop_last() =~= orig.take(i as int));
            assert(orig.take(i as int + 1).last() == orig[i as int]);
            assert(sort_items(orig.take(i as int + 1), c) == insert_item_sorted(
                sort_items(orig.take(i as int), c),
                orig[i as int],
                c,
            ));
            assert(w.take(i as int + 1) == sort_items(orig.take(i as int + 1), c));
            assert(w.skip(i as int + 1) =~= s.skip(i as int));
            assert(w.skip(i as int + 1) =~= orig.skip(i as int + 1));
        }
        i = i + 1;
    }
    proof {
        assert(items@.take(n as int) =~= items@);
        assert(orig.take(n as int) =~= orig);
    }
}

/// Compare the vector element at `k` with `x` under `c`.
fn item_le_at(items: &Vec<Item>, k: usize, x: &Item, c: ItemSortType) -> (r: bool)
    requires
        k < items@.len(),
    ensures
        r == le_item(c, items@[k as int], *x),
{
    crate::order::item_le(c, &items[k], x)
}

// The channel order: the same construction, for sorting channels by
// their publisher title.

/// Insert `ch` into `s` after every channel titled at or before it.
pub open spec fn insert_channel_sorted(s: Seq<Channel>, ch: Channel) -> Seq<Channel>
    decreases s.len(),
{
    if s.len() == 0 {
        seq![ch]
    } else if le_channel(s.last(), ch) {
        s.push(ch)
    } else {
        insert_channel_sorted(s.drop_last(), ch).push(s.last())
    }
}

/// Stable sort of channels by title.
pub open spec fn sort_channels(s: Seq<Channel>) -> Seq<Channel>
    decreases s.len(),
{
    if s.len() == 0 {
        s
    } else {
        insert_channel_sorted(sort_channels(s.drop_last()), s.last())
    }
}

/// Whether the channels are ordered by title.
pub open spec fn channels_sorted(s: Seq<Channel>) -> bool {
    forall|i: int, j: int| 0 <= i < j < s.len() ==> le_channel(s[i], s[j])
}

/// Whether `b` is an upper bound of every channel of `s`.
pub open spec fn channel_upper_bound(s: Seq<Channel>, b: Channel) -> bool {
    forall|k: int| 0 <= k < s.len() ==> le_channel(s[k], b)
}

proof fn lemma_insert_channel_sorted(s: Seq<Channel>, ch: Channel)
    requires
        channels_sorted(s),
    ensures
        insert_channel_sorted(s, ch).len() == s.len() + 1,
        insert_channel_sorted(s, ch).to_multiset() == s.to_multiset().insert(ch),
        channels_sorted(insert_channel_sorted(s, ch)),
        forall|b: Channel|
            le_channel(ch, b) && channel_upper_bound(s, b) ==> channel_upper_bound(
                insert_channel_sorted(s, ch),
                b,
            ),
    decreases s.len(),
{
    let r = insert_channel_sorted(s, ch);
    if s.len() == 0 {
        s.to_multiset_ensures();
        assert(seq![ch] =~= s.push(ch));
        assert(s.push(ch).to_multiset() =~= s.to_multiset().insert(ch));
    } else if le_channel(s.last(), ch) {
        s.to_multiset_ensures();
        assert forall|i: int, j: int| 0 <= i < j < r.len() implies le_channel(r[i], r[j]) by {
            if j == s.len() {
                if i < s.len() - 1 {
                    lemma_le_channel_trans(s[i], s.last(), ch);
                }
            }
        }
        assert forall|b: Channel|
            le_channel(ch, b) && channel_upper_bound(s, b) implies channel_upper_bound(r, b) by {
            assert(forall|k: int| 0 <= k < r.len() ==> r[k] == ch || r[k] == s[k]);
        }
    } else {
        lemma_le_channel_total(s.last(), ch);
        assert(channels_sorted(s.drop_last()));
        lemma_insert_channel_sorted(s.drop_last(), ch);
        let t = insert_channel_sorted(s.drop_last(), ch);
        t.to_multiset_ensures();
        s.drop_last().to_multiset_ensures();
        assert(s =~= s.drop_last().push(s.last()));
        assert(s.drop_last().push(s.last()).to_multiset() =~= s.drop_last().to_multiset().insert(
            s.last(),
        ));
        assert(r.to_multiset() =~= s.to_multiset().insert(ch)) by {
            assert(r.to_multiset() =~= t.to_multiset().insert(s.last()));
            assert(t.to_multiset() =~= s.drop_last().to_multiset().insert(ch));
        }
        assert(channel_upper_bound(s.drop_last(), s.last()));
        assert(channel_upper_bound(t, s.last()));
        assert forall|i: int, j: int| 0 <= i < j < r.len() implies le_channel(r[i], r[j]) by {
            if j == t.len() {
                assert(le_channel(t[i], s.last()));
            }
        }
        assert forall|b: Channel|
            le_channel(ch, b) && channel_upper_bound(s, b) implies channel_upper_bound(r, b) by {
            assert(channel_upper_bound(s.drop_last(), b));
            assert(channel_upper_bound(t, b));
            assert(le_channel(s.last(), b));
            assert(forall|k: int| 0 <= k < r.len() ==> r[k] == s.last() || r[k] == t[k]);
        }
    }
}

/// Law: sorting channels keeps them exactly — same length, same contents
/// as a multiset — and orders them by title.
pub proof fn lemma_sort_channels_props(s: Seq<Channel>)
    ensures
        sort_channels(s).len() == s.len(),
        sort_channels(s).to_multiset() == s.to_multiset(),
        channels_sorted(sort_channels(s)),
    decreases s.len(),
{
    if s.len() > 0 {
        lemma_sort_channels_props(s.drop_last());
        lemma_insert_channel_sorted(sort_channels(s.drop_last()), s.last());
        s.drop_last().to_multiset_ensures();
        assert(s =~= s.drop_last().push(s.last()));
        assert(s.drop_last().push(s.last()).to_multiset() =~= s.drop_last().to_multiset().insert(
            s.last(),
        ));
        assert(sort_channels(s).to_multiset() =~= s.to_multiset());
    }
}

/// Two channels with titles the order cannot tell apart.
pub open spec fn channels_tied(a: Channel, b: Channel) -> bool {
    le_channel(a, b) && le_channel(b, a)
}

/// The predicate picking the channels tied with `m`.
pub open spec fn channels_tied_with(m: Channel) -> spec_fn(Channel) -> bool {
    |y: Channel| channels_tied(y, m)
}

proof fn lemma_insert_channel_sorted_tied(s: Seq<Channel>, ch: Channel, m: Channel)
    ensures
        insert_channel_sorted(s, ch).filter(channels_tied_with(m)) == if channels_tied(ch, m) {
            s.filter(channels_tied_with(m)).push(ch)
        } else {
            s.filter(channels_tied_with(m))
        },
    decreases s.len(),
{
    let f = channels_tied_with(m);
    if s.len() == 0 {
        reveal(Seq::filter);
        assert(seq![ch] =~= Seq::<Channel>::empty().push(ch));
        Seq::<Channel>::empty().lemma_filter_push(ch, f);
    } else if le_channel(s.last(), ch) {
        s.lemma_filter_push(ch, f);
    } else {
        lemma_le_channel_total(s.last(), ch);
        lemma_insert_channel_sorted_tied(s.drop_last(), ch, m);
        let t = insert_channel_sorted(s.drop_last(), ch);
        t.lemma_filter_push(s.last(), f);
        s.drop_last().lemma_filter_push(s.last(), f);
        assert(s =~= s.drop_last().push(s.last()));
        if channels_tied(ch, m) {
            // ch and s.last() cannot both be tied with m: that would
            // order s.last() at or below ch, which this branch excludes.
            if channels_tied(s.last(), m) {
                lemma_le_channel_trans(s.last(), m, ch);
                assert(false);
            }
        }
    }
}

/// Law: the publisher sort is stable. For any reference channel `m`, the
/// subsequence of channels tied with `m` is the same, in the same order,
/// before and after sorting.
pub proof fn lemma_sort_channels_stable(s: Seq<Channel>, m: Channel)
    ensures
        sort_channels(s).filter(channels_tied_with(m)) == s.filter(channels_tied_with(m)),
    decreases s.len(),
{
    let f = channels_tied_with(m);
    if s.len() > 0 {
        lemma_sort_channels_stable(s.drop_last(), m);
        lemma_insert_channel_sorted_tied(sort_channels(s.drop_last()), s.last(), m);
        s.drop_last().lemma_filter_push(s.last(), f);
        assert(s =~= s.drop_last().push(s.last()));
    }
}

/// Sorting channels that are already ordered gives them back unchanged.
pub proof fn lemma_sorted_channels_sort_identity(s: Seq<Channel>)
    requires
        channels_sorted(s),
    ensures
        sort_channels(s) == s,
    decreases s.len(),
{
    if s.len() > 0 {
        assert(channels_sorted(s.drop_last()));
        lemma_sorted_channels_sort_identity(s.drop_last());
        if s.len() == 1 {
            assert(sort_channels(s) =~= s);
        } else {
            assert(le_channel(s.drop_last().last(), s.last()));
            assert(sort_channels(s) =~= s.drop_last().push(s.last()));
            assert(sort_channels(s) =~= s);
        }
    }
}

/// Law: sorting channels twice yields the same order as sorting once.
pub proof fn lemma_sort_channels_idempotent(s: Seq<Channel>)
    ensures
        sort_channels(sort_channels(s)) == sort_channels(s),
{
    lemma_sort_channels_props(s);
    lemma_sorted_channels_sort_identity(sort_channels(s));
}

/// Sort the vector of channels by title, in place.
pub(crate) fn sort_channels_vec(channels: &mut Vec<Channel>)
    ensures
        final(channels)@ == sort_channels(old(channels)@),
{
    let ghost orig = old(channels)@;
    let n = channels.len();
    if n == 0 {
        return ;
    }
    proof {
        reveal_with_fuel(sort_channels, 2);
        reveal_with_fuel(insert_channel_sorted, 2);
        assert(orig.take(1).drop_last() =~= Seq::<Channel>::empty());
        assert(orig.take(1) =~= seq![orig[0]]);
        assert(sort_channels(orig.take(1).drop_last()) == orig.take(1).drop_last());
        assert(orig.take(1).last() == orig[0]);
        assert(sort_channels(orig.take(1)) == insert_channel_sorted(
            orig.take(1).drop_last(),
            orig[0],
        ));
        assert(insert_channel_sorted(orig.take(1).drop_last(), orig[0]) =~= seq![orig[0]]);
        assert(sort_channels(orig.take(1)) =~= channels@.take(1));
    }
    let mut i: usize = 1;
    while i < n
        invariant
            1 <= i <= n,
            channels.len() == n,
            orig.len() == n,
            channels@.take(i as int) == sort_channels(orig.take(i as int)),
            channels@.skip(i as int) == orig.skip(i as int),
        decreases n - i,
    {
        let ghost v = channels@;
        proof {
            assert(v.skip(i as int)[0] == orig.skip(i as int)[0]);
            assert(v[i as int] == orig[i as int]);
        }
        let x = channels.remove(i);
        let ghost s = channels@;
        proof {
            assert(s.take(i as int) =~= v.take(i as int));
            assert(s.skip(i as int) =~= v.skip(i as int + 1));
            assert forall|m: int| 0 <= m < v.len() - (i + 1) implies #[trigger] v.skip(
                i as int + 1,
            )[m] == orig.skip(i as int + 1)[m] by {
                assert(v.skip(i as int)[m + 1] == orig.skip(i as int)[m + 1]);
            }
            assert(v.skip(i as int + 1) =~= orig.skip(i as int + 1));
            assert(s.subrange(i as int, i as int) =~= Seq::<Channel>::empty());
            assert(insert_channel_sorted(s.take(i as int), x) =~= insert_channel_sorted(
                s.take(i as int),
                x,
            ) + s.subrange(i as int, i as int));
        }
        let mut j: usize = i;
        while j > 0 && !channel_le_at(channels, j - 1, &x)
            invariant
                j <= i,
                i < n,
                channels.len() == n - 1,
                channels@ == s,
                i <= s.len(),
                insert_channel_sorted(s.take(i as int), x) == insert_channel_sorted(
                    s.take(j as int),
                    x,
                ) + s.subrange(j as int, i as int),
            decreases j,
        {
            proof {
                assert(s.take(j as int).last() == s[j - 1]);
                assert(s.take(j as int).drop_last() =~= s.take(j - 1));
                assert(insert_channel_sorted(s.take(j - 1), x).push(s[j - 1]) + s.subrange(
                    j as int,
                    i as int,
                ) =~= insert_channel_sorted(s.take(j - 1), x) + s.subrange(j - 1, i as int));
            }
            j = j - 1;
        }
        proof {
            if j > 0 {
                assert(s.take(j as int).last() == s[j - 1]);
                assert(insert_channel_sorted(s.take(j as int), x) == s.take(j as int).push(x));
            } else {
                assert(s.take(0).push(x) =~= seq![x]);
                assert(insert_channel_sorted(s.take(0), x) == s.take(0).push(x));
            }
        }
        channels.insert(j, x);
        proof {
            let w = channels@;
            assert(w =~= s.take(j as int).push(x) + s.subrange(j as int, s.len() as int));
            assert(w.take(i as int + 1) =~= s.take(j as int).push(x) + s.subrange(
                j as int,
                i as int,
            ));
            assert(orig.take(i as int + 1).drop_last() =~= orig.take(i as int));
            assert(orig.take(i as int + 1).last() == orig[i as int]);
            assert(sort_channels(orig.take(i as int + 1)) == insert_channel_sorted(
                sort_channels(orig.take(i as int)),
                orig[i as int],
            ));
            assert(w.take(i as int + 1) == sort_channels(orig.take(i as int + 1)));
            assert(w.skip(i as int + 1) =~= s.skip(i as int));
            assert(w.skip(i as int + 1) =~= orig.skip(i as int + 1));
        }
        i = i + 1;
    }
    proof {
        assert(channels@.take(n as int) =~= channels@);
        assert(orig.take(n as int) =~= orig);
    }
}

/// Compare the vector element at `k` with `x` by title.
fn channel_le_at(channels: &Vec<Channel>, k: usize, x: &Channel) -> (r: bool)
    requires
        k < channels@.len(),
    ensures
        r == le_channel(channels@[k as int], *x),
{
    crate::order::channel_le(&channels[k], x)
}

} // verus!

use ferss::channel_collection::ChannelCollection;
use ferss::dates::QueryError;
use ferss::enums::{ChannelFilterType, ChannelSortType, ItemFilterType, ItemSortType};
use ferss::item_collection::ItemCollection;
use ferss::records::{Channel, Item, Source};

fn item_with(title: &str, pub_date: &str, description: &str) -> Item {
    let mut item = Item::new();
    item.set_title(String::from(title));
    item.set_pub_date(String::from(pub_date));
    item.set_description(String::from(description));
    item
}

fn channel_with(title: &str, items: Vec<Item>) -> Channel {
    let mut channel = Channel::new();
    channel.set_title(String::from(title));
    channel.set_items(items);
    channel
}

/// The four-channel arrangement shared by the scenarios: description
/// lengths 16, 19, 17 and 18.
fn scenario_collection() -> ChannelCollection {
    let mut collection = ChannelCollection::new();
    collection.push(channel_with(
        "c Channel 1",
        vec![
            item_with("a Item 1", "Sun, 01 Jan 2017 12:00:00 GMT", "0123456789abcdef"),
            item_with("c Item 2", "Mon, 02 Jan 2017 12:00:00 GMT", "0123456789abcdefghi"),
        ],
    ));
    collection.push(channel_with(
        "b Channel 2",
        vec![item_with(
            "b Item 3",
            "Tue, 03 Jan 2017 10:00:00 GMT",
            "0123456789abcdefg",
        )],
    ));
    collection.push(channel_with(
        "a Channel 3",
        vec![item_with(
            "d Item 4",
            "Mon, 02 Jan 2017 14:00:00 GMT",
            "0123456789abcdefgh",
        )],
    ));
    collection
}

// The flattening invariant: the derived item view holds exactly as many
// items as the channels hold together, after every push.
#[test]
fn flattening_counts_match() {
    let mut collection = ChannelCollection::new();
    let mut expected = 0;
    for n in 0..4 {
        let mut items = Vec::new();
        for k in 0..n {
            items.push(item_with(&format!("item {k}"), "", ""));
        }
        expected += n;
        collection.push(channel_with(&format!("channel {n}"), items));
        let mut sum = 0;
        for channel in collection.channels() {
            sum += channel.items().len();
        }
        assert_eq!(collection.items().len(), sum);
        assert_eq!(collection.items().len(), expected);
    }
}

// Filtering never mutates the collection, however often it is applied.
#[test]
fn filter_is_non_destructive() {
    let mut collection = scenario_collection();
    for _ in 0..3 {
        collection
            .filter(ChannelFilterType::ItemFilterType(ItemFilterType::Title(
                String::from("b"),
            )))
            .unwrap();
        collection
            .filter(ChannelFilterType::Name(String::from("b")))
            .unwrap();
        collection
            .filter(ChannelFilterType::ItemFilterType(ItemFilterType::Length(3)))
            .unwrap();
        assert_eq!(collection.channels().len(), 3);
        assert_eq!(collection.items().len(), 4);
    }
}

// Empty collections answer every query without complaint.
#[test]
fn empty_collections_answer_queries() {
    let mut items = ItemCollection::new();
    items.sort(ItemSortType::Date).unwrap();
    items.filter(ItemFilterType::Title(String::from("x"))).unwrap();
    assert_eq!(items.items().len(), 0);

    let mut channels = ChannelCollection::new();
    let sorted = channels.sort(ChannelSortType::Publisher).unwrap();
    assert_eq!(sorted.items().len(), 0);
    let filtered = channels
        .filter(ChannelFilterType::Name(String::from("x")))
        .unwrap();
    assert_eq!(filtered.items().len(), 0);
    assert_eq!(channels.channels().len(), 0);
}

// Sorting by length is stable: two items with equally long descriptions
// keep their original relative order.
#[test]
fn length_sort_is_stable() {
    let mut collection = ItemCollection::new();
    collection.push(item_with("first", "", "aaa"));
    collection.push(item_with("second", "", "bbb"));
    collection.push(item_with("third", "", "c"));
    collection.sort(ItemSortType::Length).unwrap();
    let items = collection.items();
    assert_eq!(items[0].title(), Some("third"));
    assert_eq!(items[1].title(), Some("first"));
    assert_eq!(items[2].title(), Some("second"));
}

// Sorting twice by the same criterion gives the same order as once.
#[test]
fn sorting_twice_changes_nothing() {
    let mut once = ItemCollection::new();
    let mut twice = ItemCollection::new();
    for item in [
        item_with("b", "Tue, 03 Jan 2017 10:00:00 GMT", "aa"),
        item_with("a", "Mon, 02 Jan 2017 14:00:00 GMT", "aaa"),
        item_with("c", "Sun, 01 Jan 2017 12:00:00 GMT", "a"),
    ] {
        let mut copy = Item::new();
        copy.set_title(String::from(item.title().unwrap()));
        copy.set_pub_date(String::from(item.pub_date().unwrap()));
        copy.set_description(String::from(item.description().unwrap()));
        once.push(copy);
        twice.push(item);
    }
    once.sort(ItemSortType::Length).unwrap();
    twice.sort(ItemSortType::Length).unwrap();
    twice.sort(ItemSortType::Length).unwrap();
    let a = once.items();
    let b = twice.items();
    assert_eq!(a.len(), b.len());
    for k in 0..a.len() {
        assert_eq!(a[k].title(), b[k].title());
    }

    // The same holds for the publisher sort on channels.
    let mut collection = scenario_collection();
    collection.sort(ChannelSortType::Publisher).unwrap();
    collection.sort(ChannelSortType::Publisher).unwrap();
    assert_eq!(collection.channels()[0].title(), "a Channel 3");
    assert_eq!(collection.channels()[1].title(), "b Channel 2");
    assert_eq!(collection.channels()[2].title(), "c Channel 1");
}

// An empty description still counts as a description: it sorts before an
// item that has none at all.
#[test]
fn empty_description_sorts_before_missing() {
    let mut collection = ItemCollection::new();
    let mut absent = Item::new();
    absent.set_title(String::from("absent"));
    collection.push(absent);
    let mut empty = Item::new();
    empty.set_title(String::from("empty"));
    empty.set_description(String::from(""));
    collection.push(empty);
    collection.sort(ItemSortType::Length).unwrap();
    let items = collection.items();
    assert_eq!(items[0].title(), Some("empty"));
    assert_eq!(items[1].title(), Some("absent"));
}

// Scenario: the flattened items sorted by description length come out in
// the order of their lengths 16, 17, 18, 19.
#[test]
fn scenario_sort_items_by_length() {
    let mut collection = scenario_collection();
    let sorted = collection
        .sort(ChannelSortType::ItemSortType(ItemSortType::Length))
        .unwrap();
    let items = sorted.items();
    assert_eq!(items[0].title(), Some("a Item 1"));
    assert_eq!(items[1].title(), Some("b Item 3"));
    assert_eq!(items[2].title(), Some("d Item 4"));
    assert_eq!(items[3].title(), Some("c Item 2"));
}

// Scenario: the publisher sort reorders the channels themselves.
#[test]
fn scenario_sort_channels_by_publisher() {
    let mut collection = scenario_collection();
    collection.sort(ChannelSortType::Publisher).unwrap();
    assert_eq!(collection.channels()[0].title(), "a Channel 3");
    assert_eq!(collection.channels()[1].title(), "b Channel 2");
    assert_eq!(collection.channels()[2].title(), "c Channel 1");
}

// Scenario: a title filter keeps exactly the matching items.
#[test]
fn scenario_filter_items_by_title() {
    let mut collection = scenario_collection();
    let filtered = collection
        .filter(ChannelFilterType::ItemFilterType(ItemFilterType::Title(
            String::from("b"),
        )))
        .unwrap();
    let items = filtered.items();
    assert_eq!(items.len(), 1);
    assert_eq!(items[0].title(), Some("b Item 3"));
}

// Scenario: a name filter returns exactly the items of the matching
// channels.
#[test]
fn scenario_filter_channels_by_name() {
    let mut collection = scenario_collection();
    let filtered = collection
        .filter(ChannelFilterType::Name(String::from("b")))
        .unwrap();
    let items = filtered.items();
    assert_eq!(items.len(), 1);
    assert_eq!(items[0].title(), Some("b Item 3"));
}

// Chronological order is decided by the parsed instant, not by the raw
// date string: "Fri, 01 Feb" sorts after "Mon, 07 Jan" of the same year
// even though the string comparison says otherwise, and a +0500 noon
// precedes a GMT morning of the same day.
#[test]
fn date_sort_is_chronological_not_textual() {
    let mut collection = ItemCollection::new();
    collection.push(item_with("february", "Fri, 01 Feb 2019 00:00:00 GMT", "x"));
    collection.push(item_with("january", "Mon, 07 Jan 2019 00:00:00 GMT", "y"));
    collection.sort(ItemSortType::Date).unwrap();
    let items = collection.items();
    assert_eq!(items[0].title(), Some("january"));
    assert_eq!(items[1].title(), Some("february"));

    let mut collection = ItemCollection::new();
    collection.push(item_with("gmt", "Sun, 01 Jan 2017 10:00:00 GMT", "x"));
    collection.push(item_with("offset", "Sun, 01 Jan 2017 12:00:00 +0500", "y"));
    collection.sort(ItemSortType::Date).unwrap();
    let items = collection.items();
    assert_eq!(items[0].title(), Some("offset"));
    assert_eq!(items[1].title(), Some("gmt"));
}

// A date filter bounds by the parsed instant as well.
#[test]
fn date_filter_uses_parsed_instants() {
    let mut collection = ItemCollection::new();
    collection.push(item_with("early", "Sun, 01 Jan 2017 07:00:00 GMT", "x"));
    collection.push(item_with("late", "Sun, 01 Jan 2017 11:00:00 GMT", "y"));
    // The bound, noon at +0500, is 07:00 GMT.
    collection
        .filter(ItemFilterType::Date(String::from(
            "Sun, 01 Jan 2017 12:00:00 +0500",
        )))
        .unwrap();
    let items = collection.items();
    assert_eq!(items.len(), 1);
    assert_eq!(items[0].title(), Some("early"));
}

// A malformed or absent date fails a date sort outright and leaves the
// collection unchanged.
#[test]
fn malformed_date_fails_sort() {
    let mut collection = ItemCollection::new();
    collection.push(item_with("b", "not a date", "x"));
    collection.push(item_with("a", "Sun, 01 Jan 2017 12:00:00 GMT", "y"));
    assert_eq!(
        collection.sort(ItemSortType::Date),
        Err(QueryError::MalformedDate)
    );
    let items = collection.items();
    assert_eq!(items[0].title(), Some("b"));
    assert_eq!(items[1].title(), Some("a"));

    let mut collection = ItemCollection::new();
    collection.push(item_with("a", "Sun, 01 Jan 2017 12:00:00 GMT", "y"));
    let mut undated = Item::new();
    undated.set_title(String::from("undated"));
    collection.push(undated);
    assert_eq!(
        collection.sort(ItemSortType::Date),
        Err(QueryError::MalformedDate)
    );
}

// A malformed bound or item date fails a date filter; a merely absent
// date only excludes that item.
#[test]
fn malformed_date_fails_filter() {
    let mut collection = ItemCollection::new();
    collection.push(item_with("a", "Sun, 01 Jan 2017 12:00:00 GMT", "y"));
    assert_eq!(
        collection.filter(ItemFilterType::Date(String::from("not a date"))),
        Err(QueryError::MalformedDate)
    );

    let mut collection = ItemCollection::new();
    collection.push(item_with("a", "garbage", "y"));
    assert_eq!(
        collection.filter(ItemFilterType::Date(String::from(
            "Sun, 01 Jan 2017 12:00:00 GMT"
        ))),
        Err(QueryError::MalformedDate)
    );

    let mut collection = ItemCollection::new();
    collection.push(item_with("dated", "Sun, 01 Jan 2017 11:00:00 GMT", "y"));
    let mut undated = Item::new();
    undated.set_title(String::from("undated"));
    collection.push(undated);
    collection
        .filter(ItemFilterType::Date(String::from(
            "Sun, 01 Jan 2017 12:00:00 GMT",
        )))
        .unwrap();
    let items = collection.items();
    assert_eq!(items.len(), 1);
    assert_eq!(items[0].title(), Some("dated"));
}

// Missing fields order first under the title and source criteria, and
// are excluded by the corresponding filters.
#[test]
fn missing_fields_order_first_and_filter_out() {
    let mut collection = ItemCollection::new();
    collection.push(item_with("b", "", "x"));
    let mut untitled = Item::new();
    untitled.set_description(String::from("y"));
    collection.push(untitled);
    collection.sort(ItemSortType::Title).unwrap();
    let items = collection.items();
    assert_eq!(items[0].title(), None);
    assert_eq!(items[1].title(), Some("b"));

    let mut collection = ItemCollection::new();
    let mut sourced = item_with("sourced", "", "x");
    let mut source = Source::new();
    source.set_title(String::from("S"));
    sourced.set_source(source);
    let mut untitled_source = item_with("untitled source", "", "y");
    untitled_source.set_source(Source::new());
    let unsourced = item_with("unsourced", "", "z");
    collection.push(sourced);
    collection.push(unsourced);
    collection.push(untitled_source);
    collection.sort(ItemSortType::Source).unwrap();
    let items = collection.items();
    assert_eq!(items[0].title(), Some("unsourced"));
    assert_eq!(items[1].title(), Some("untitled source"));
    assert_eq!(items[2].title(), Some("sourced"));

    let mut collection = ItemCollection::new();
    let mut sourced = item_with("sourced", "", "x");
    let mut source = Source::new();
    source.set_title(String::from("S"));
    sourced.set_source(source);
    let mut untitled_source = item_with("untitled source", "", "y");
    untitled_source.set_source(Source::new());
    let unsourced = item_with("unsourced", "", "z");
    collection.push(sourced);
    collection.push(unsourced);
    collection.push(untitled_source);
    collection
        .filter(ItemFilterType::Source(String::from("S")))
        .unwrap();
    let items = collection.items();
    assert_eq!(items.len(), 1);
    assert_eq!(items[0].title(), Some("sourced"));
}

use ferss::enums::{ItemFilterType, ItemSortType};
use ferss::item_collection::ItemCollection;
use ferss::records::{Item, Source};

#[test]
fn test_item_collection_push() {
    let item_collection = ItemCollection::new();
    assert_eq!(item_collection.items().len(), 0);
    let mut item_collection = ItemCollection::new();
    let item = Item::new();
    item_collection.push(item);
    assert_eq!(item_collection.items().len(), 1);
}

#[test]
fn test_item_collection_sort_title() {
    let mut item_collection = ItemCollection::new();

    // Items
    let mut item = Item::new();
    item.set_pub_date(String::from("Sun, 01 Jan 2017 12:00:00 GMT"));
    item.set_title(String::from("a"));
    item.set_description(String::from("a"));

    let mut item2 = Item::new();
    item2.set_pub_date(String::from("Mon, 02 Jan 2017 12:00:00 GMT"));
    item2.set_title(String::from("b"));
    item2.set_description(String::from("aa"));

    let mut item3 = Item::new();
    item3.set_pub_date(String::from("Tue, 03 Jan 2017 12:00:00 GMT"));
    item3.set_title(String::from("c"));
    item3.set_description(String::from("aaa"));

    item_collection.push(item);
    item_collection.push(item3);
    item_collection.push(item2);

    item_collection.sort(ItemSortType::Title).unwrap();
    let items = item_collection.items();
    assert_eq!(items[0].title(), Some("a"));
    assert_eq!(items[1].title(), Some("b"));
    assert_eq!(items[2].title(), Some("c"));
}

#[test]
fn test_item_collection_sort_length() {
    let mut item_collection = ItemCollection::new();

    // Items
    let mut item = Item::new();
    item.set_pub_date(String::from("Sun, 01 Jan 2017 12:00:00 GMT"));
    item.set_title(String::from("a"));
    item.set_description(String::from("a"));

    let mut item2 = Item::new();
    item2.set_pub_date(String::from("Mon, 02 Jan 2017 12:00:00 GMT"));
    item2.set_title(String::from("b"));
    item2.set_description(String::from("aa"));

    let mut item3 = Item::new();
    item3.set_pub_date(String::from("Tue, 03 Jan 2017 12:00:00 GMT"));
    item3.set_title(String::from("c"));
    item3.set_description(String::from("aaa"));

    item_collection.push(item);
    item_collection.push(item3);
    item_collection.push(item2);

    item_collection.sort(ItemSortType::Length).unwrap();
    let items = item_collection.items();
    assert_eq!(items[0].description(), Some("a"));
    assert_eq!(items[1].description(), Some("aa"));
    assert_eq!(items[2].description(), Some("aaa"));
}

#[test]
fn test_item_collection_sort_date() {
    let mut item_collection = ItemCollection::new();

    // Items
    let mut item = Item::new();
    item.set_pub_date(String::from("Sun, 01 Jan 2017 12:00:00 GMT"));
    item.set_title(String::from("a"));
    item.set_description(String::from("a"));

    let mut item2 = Item::new();
    item2.set_pub_date(String::from("Mon, 02 Jan 2017 12:00:00 GMT"));
    item2.set_title(String::from("b"));
    item2.set_description(String::from("aa"));

    let mut item3 = Item::new();
    item3.set_pub_date(String::from("Tue, 03 Jan 2017 12:00:00 GMT"));
    item3.set_title(String::from("c"));
    item3.set_description(String::from("aaa"));

    item_collection.push(item);
    item_collection.push(item3);
    item_collection.push(item2);

    item_collection.sort(ItemSortType::Date).unwrap();
    let items = item_collection.items();
    assert_eq!(items[0].pub_date(), Some("Sun, 01 Jan 2017 12:00:00 GMT"));
    assert_eq!(items[1].pub_date(), Some("Mon, 02 Jan 2017 12:00:00 GMT"));
    assert_eq!(items[2].pub_date(), Some("Tue, 03 Jan 2017 12:00:00 GMT"));
}

#[test]
fn test_item_collection_filter_title() {
    let mut item_collection = ItemCollection::new();

    // Items
    let mut item = Item::new();
    item.set_pub_date(String::from("Sun, 01 Jan 2017 12:00:00 GMT"));
    item.set_title(String::from("a"));
    item.set_description(String::from("a"));

    let mut item2 = Item::new();
    item2.set_pub_date(String::from("Mon, 02 Jan 2017 12:00:00 GMT"));
    item2.set_title(String::from("ab"));
    item2.set_description(String::from("aa"));

    let mut item3 = Item::new();
    item3.set_pub_date(String::from("Tue, 03 Jan 2017 12:00:00 GMT"));
    item3.set_title(String::from("c"));
    item3.set_description(String::from("aaa"));

    item_collection.push(item);
    item_collection.push(item3);
    item_collection.push(item2);

    item_collection
        .filter(ItemFilterType::Title(String::from("a")))
        .unwrap();
    assert_eq!(item_collection.items().len(), 2);
}

#[test]
fn test_item_collection_filter_length() {
    let mut item_collection = ItemCollection::new();

    // Items
    let mut item = Item::new();
    item.set_pub_date(String::from("Sun, 01 Jan 2017 12:00:00 GMT"));
    item.set_title(String::from("a"));
    item.set_description(String::from("a"));

    let mut item2 = Item::new();
    item2.set_pub_date(String::from("Mon, 02 Jan 2017 12:00:00 GMT"));
    item2.set_title(String::from("ab"));
    item2.set_description(String::from("aa"));

    let mut item3 = Item::new();
    item3.set_pub_date(String::from("Tue, 03 Jan 2017 12:00:00 GMT"));
    item3.set_title(String::from("c"));
    item3.set_description(String::from("aaa"));

    item_collection.push(item);
    item_collection.push(item3);
    item_collection.push(item2);

    // The length filter keeps descriptions strictly shorter than the
    // bound: only the one-character description passes Length(2).
    item_collection.filter(ItemFilterType::Length(2)).unwrap();
    assert_eq!(item_collection.items().len(), 1);
}

#[test]
fn test_item_collection_filter_date() {
    let mut item_collection = ItemCollection::new();

    // Items
    let mut item = Item::new();
    item.set_pub_date(String::from("Sun, 01 Jan 2017 12:00:00 GMT"));
    item.set_title(String::from("a"));
    item.set_description(String::from("a"));

    let mut item2 = Item::new();
    item2.set_pub_date(String::from("Mon, 02 Jan 2017 12:00:00 GMT"));
    item2.set_title(String::from("ab"));
    item2.set_description(String::from("aa"));

    let mut item3 = Item::new();
    item3.set_pub_date(String::from("Tue, 03 Jan 2017 12:00:00 GMT"));
    item3.set_title(String::from("c"));
    item3.set_description(String::from("aaa"));

    item_collection.push(item);
    item_collection.push(item3);
    item_collection.push(item2);

    item_collection
        .filter(ItemFilterType::Date(String::from(
            "Mon, 02 Jan 2017 12:00:00 GMT",
        )))
        .unwrap();
    assert_eq!(item_collection.items().len(), 2);
}

#[test]
fn test_item_collection_filter_source() {
    let mut item_collection = ItemCollection::new();

    // Items
    let mut item = Item::new();
    item.set_pub_date(String::from("Sun, 01 Jan 2017 12:00:00 GMT"));
    item.set_title(String::from("a"));
    item.set_description(String::from("a"));
    let mut source = Source::new();
    source.set_title(String::from("A"));
    item.set_source(source);

    let mut item2 = Item::new();
    item2.set_pub_date(String::from("Mon, 02 Jan 2017 12:00:00 GMT"));
    item2.set_title(String::from("ab"));
    item2.set_description(String::from("aa"));
    let mut source = Source::new();
    source.set_title(String::from("B"));
    item2.set_source(source);

    let mut item3 = Item::new();
    item3.set_pub_date(String::from("Tue, 03 Jan 2017 12:00:00 GMT"));
    item3.set_title(String::from("c"));
    item3.set_description(String::from("aaa"));
    let mut source = Source::new();
    source.set_title(String::from("C"));
    item3.set_source(source);

    item_collection.push(item);
    item_collection.push(item3);
    item_collection.push(item2);

    item_collection
        .filter(ItemFilterType::Date(String::from(
            "Mon, 02 Jan 2017 12:00:00 GMT",
        )))
        .unwrap();
    assert_eq!(item_collection.items().len(), 2);
}

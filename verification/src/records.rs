//! The record types that feeds are normalized into: items, their sources,
//! and the channels that contain them.
//!
//! A record is inert data: the collections only read, reorder and filter
//! records, never rewrite their fields after construction.

use vstd::prelude::*;

verus! {

/// The named origin of an item, for feeds that republish entries.
pub struct Source {
    /// The source's title, when the feed carried one.
    pub title: Option<String>,
}

/// A single feed entry. Every field is optional: absence is normal for
/// feed data and never an error by itself.
pub struct Item {
    /// The entry's headline.
    pub title: Option<String>,
    /// A link to the full entry.
    pub link: Option<String>,
    /// The entry's body or summary.
    pub description: Option<String>,
    /// The publication date, as an RFC 2822 date string.
    pub pub_date: Option<String>,
    /// The entry's author.
    pub author: Option<String>,
    /// The feed the entry was republished from, if any.
    pub source: Option<Source>,
}

/// A named container of items, kept in original feed order.
pub struct Channel {
    /// The channel's title.
    pub title: String,
    /// The channel's items, in the order the feed listed them.
    pub items: Vec<Item>,
}

/// The character sequence of an optional string.
pub open spec fn opt_chars(o: Option<String>) -> Option<Seq<char>> {
    match o {
        Some(s) => Some(s@),
        None => None,
    }
}

/// The title of an item's source: `None` when the item has no source,
/// `Some(None)` when the source itself is untitled.
pub open spec fn source_title_chars(i: Item) -> Option<Option<Seq<char>>> {
    match i.source {
        Some(s) => Some(opt_chars(s.title)),
        None => None,
    }
}

impl Source {
    /// A source with no title yet.
    pub fn new() -> (r: Source)
        ensures
            r.title is None,
    {
        Source { title: None }
    }

    /// Give the source a title.
    pub fn set_title(&mut self, title: String)
        ensures
            final(self).title == Some(title),
    {
        self.title = Some(title);
    }

    /// The source's title, if it has one.
    pub fn title(&self) -> (r: Option<&str>)
        ensures
            r is Some <==> self.title is Some,
            r matches Some(t) ==> t@ == self.title->0@,
    {
        match &self.title {
            Some(t) => Some(t.as_str()),
            None => None,
        }
    }
}

impl Clone for Source {
    /// A field-for-field copy of the source.
    fn clone(&self) -> (res: Source)
        ensures
            res == *self,
    {
        Source { title: clone_opt_string(&self.title) }
    }
}

impl Item {
    /// An item with every field absent.
    pub fn new() -> (r: Item)
        ensures
            r.title is None,
            r.link is None,
            r.description is None,
            r.pub_date is None,
            r.author is None,
            r.source is None,
    {
        Item {
            title: None,
            link: None,
            description: None,
            pub_date: None,
            author: None,
            source: None,
        }
    }

    /// Set the item's title.
    pub fn set_title(&mut self, title: String)
        ensures
            *final(self) == (Item { title: Some(title), ..*old(self) }),
    {
        self.title = Some(title);
    }

    /// Set the item's link.
    pub fn set_link(&mut self, link: String)
        ensures
            *final(self) == (Item { link: Some(link), ..*old(self) }),
    {
        self.link = Some(link);
    }

    /// Set the item's description.
    pub fn set_description(&mut self, description: String)
        ensures
            *final(self) == (Item { description: Some(description), ..*old(self) }),
    {
        self.description = Some(description);
    }

    /// Set the item's publication date string.
    pub fn set_pub_date(&mut self, pub_date: String)
        ensures
            *final(self) == (Item { pub_date: Some(pub_date), ..*old(self) }),
    {
        self.pub_date = Some(pub_date);
    }

    /// Set the item's author.
    pub fn set_author(&mut self, author: String)
        ensures
            *final(self) == (Item { author: Some(author), ..*old(self) }),
    {
        self.author = Some(author);
    }

    /// Set the item's source.
    pub fn set_source(&mut self, source: Source)
        ensures
            *final(self) == (Item { source: Some(source), ..*old(self) }),
    {
        self.source = Some(source);
    }

    /// The item's title, if present.
    pub fn title(&self) -> (r: Option<&str>)
        ensures
            r is Some <==> self.title is Some,
            r matches Some(t) ==> t@ == self.title->0@,
    {
        match &self.title {
            Some(t) => Some(t.as_str()),
            None => None,
        }
    }

    /// The item's link, if present.
    pub fn link(&self) -> (r: Option<&str>)
        ensures
            r is Some <==> self.link is Some,
            r matches Some(t) ==> t@ == self.link->0@,
    {
        match &self.link {
            Some(t) => Some(t.as_str()),
            None => None,
        }
    }

    /// The item's description, if present.
    pub fn description(&self) -> (r: Option<&str>)
        ensures
            r is Some <==> self.description is Some,
            r matches Some(t) ==> t@ == self.description->0@,
    {
        match &self.description {
            Some(t) => Some(t.as_str()),
            None => None,
        }
    }

    /// The item's publication date string, if present.
    pub fn pub_date(&self) -> (r: Option<&str>)
        ensures
            r is Some <==> self.pub_date is Some,
            r matches Some(t) ==> t@ == self.pub_date->0@,
    {
        match &self.pub_date {
            Some(t) => Some(t.as_str()),
            None => None,
        }
    }

    /// The item's author, if present.
    pub fn author(&self) -> (r: Option<&str>)
        ensures
            r is Some <==> self.author is Some,
            r matches Some(t) ==> t@ == self.author->0@,
    {
        match &self.author {
            Some(t) => Some(t.as_str()),
            None => None,
        }
    }

    /// The item's source, if present.
    pub fn source(&self) -> (r: Option<&Source>)
        ensures
            r is Some <==> self.source is Some,
            r matches Some(s) ==> *s == self.source->0,
    {
        match &self.source {
            Some(s) => Some(s),
            None => None,
        }
    }
}

impl Clone for Item {
    /// A field-for-field copy of the item.
    fn clone(&self) -> (res: Item)
        ensures
            res == *self,
    {
        Item {
            title: clone_opt_string(&self.title),
            link: clone_opt_string(&self.link),
            description: clone_opt_string(&self.description),
            pub_date: clone_opt_string(&self.pub_date),
            author: clone_opt_string(&self.author),
            source: match &self.source {
                Some(s) => Some(s.clone()),
                None => None,
            },
        }
    }
}

impl Channel {
    /// An untitled channel with no items.
    pub fn new() -> (r: Channel)
        ensures
            r.title@ == Seq::<char>::empty(),
            r.items@ == Seq::<Item>::empty(),
    {
        Channel { title: String::new(), items: Vec::new() }
    }

    /// Set the channel's title.
    pub fn set_title(&mut self, title: String)
        ensures
            *final(self) == (Channel { title, ..*old(self) }),
    {
        self.title = title;
    }

    /// Replace the channel's items.
    pub fn set_items(&mut self, items: Vec<Item>)
        ensures
            *final(self) == (Channel { items, ..*old(self) }),
    {
        self.items = items;
    }

    /// The channel's title.
    pub fn title(&self) -> (r: &str)
        ensures
            r@ == self.title@,
    {
        self.title.as_str()
    }

    /// The channel's items, in stored order.
    pub fn items(&self) -> (r: &Vec<Item>)
        ensures
            r == self.items,
    {
        &self.items
    }
}

/// A copy of an optional string that preserves the value exactly.
fn clone_opt_string(o: &Option<String>) -> (r: Option<String>)
    ensures
        r == *o,
{
    match o {
        Some(s) => Some(s.clone()),
        None => None,
    }
}

} // verus!

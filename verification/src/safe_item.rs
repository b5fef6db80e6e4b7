//! A totalized view of one item: every optional field replaced by its
//! value or by a fixed placeholder, so that callers that render items
//! never meet an absent field.

use vstd::prelude::*;
use vstd::string::StringExecFns;

use crate::records::Item;

verus! {

/// An item with every field present: absent fields are replaced by
/// placeholder text at construction.
pub struct SafeItem {
    title: String,
    link: String,
    description: String,
    pub_date: String,
    author: String,
}

/// The field contents of a `SafeItem`.
pub struct SafeItemView {
    /// The title text.
    pub title: Seq<char>,
    /// The link text.
    pub link: Seq<char>,
    /// The description text.
    pub description: Seq<char>,
    /// The publication date text.
    pub pub_date: Seq<char>,
    /// The author text.
    pub author: Seq<char>,
}

impl View for SafeItem {
    type V = SafeItemView;

    closed spec fn view(&self) -> SafeItemView {
        SafeItemView {
            title: self.title@,
            link: self.link@,
            description: self.description@,
            pub_date: self.pub_date@,
            author: self.author@,
        }
    }
}

/// The characters of an optional string, or of the placeholder when the
/// string is absent.
pub open spec fn or_placeholder(o: Option<String>, placeholder: Seq<char>) -> Seq<char> {
    match o {
        Some(s) => s@,
        None => placeholder,
    }
}

/// Copy an optional string, or fall back to the given placeholder.
fn field_or(o: &Option<String>, placeholder: &str) -> (r: String)
    ensures
        r@ == or_placeholder(*o, placeholder@),
{
    match o {
        Some(s) => s.clone(),
        None => String::from_str(placeholder),
    }
}

impl SafeItem {
    /// Build a totalized copy of `item`, substituting a placeholder for
    /// each absent field.
    pub fn new(item: &Item) -> (r: SafeItem)
        ensures
            r@.title == or_placeholder(item.title, "No title"@),
            r@.link == or_placeholder(item.link, "No link"@),
            r@.description == or_placeholder(item.description, "No description"@),
            r@.pub_date == or_placeholder(item.pub_date, "No pub_date"@),
            r@.author == or_placeholder(item.author, "No author"@),
    {
        SafeItem {
            title: field_or(&item.title, "No title"),
            link: field_or(&item.link, "No link"),
            description: field_or(&item.description, "No description"),
            pub_date: field_or(&item.pub_date, "No pub_date"),
            author: field_or(&item.author, "No author"),
        }
    }

    /// The title text.
    pub fn title(&self) -> (r: &str)
        ensures
            r@ == self@.title,
    {
        self.title.as_str()
    }

    /// The link text.
    pub fn link(&self) -> (r: &str)
        ensures
            r@ == self@.link,
    {
        self.link.as_str()
    }

    /// The description text.
    pub fn description(&self) -> (r: &str)
        ensures
            r@ == self@.description,
    {
        self.description.as_str()
    }

    /// The publication date text.
    pub fn pub_date(&self) -> (r: &str)
        ensures
            r@ == self@.pub_date,
    {
        self.pub_date.as_str()
    }

    /// The author text.
    pub fn author(&self) -> (r: &str)
        ensures
            r@ == self@.author,
    {
        self.author.as_str()
    }
}

} // verus!

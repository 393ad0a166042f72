//! The bookmarks feed: its address and its entries.

use crate::rss::{parse_date, rfc2822_moment, Error, PubDate, no_date};
use crate::text::same_text;
use vstd::prelude::*;

verus! {

/// One bookmark.
#[derive(Debug)]
pub struct Item {
    pub title: String,
    pub link: String,
    pub category: String,
    pub pub_date: PubDate,
    pub description: String,
    pub guid: String,
}

/// What an `Item` holds, as mathematical values.
pub struct ItemView {
    pub title: Seq<char>,
    pub link: Seq<char>,
    pub category: Seq<char>,
    pub pub_date: PubDate,
    pub description: Seq<char>,
    pub guid: Seq<char>,
}

impl View for Item {
    type V = ItemView;

    open spec fn view(&self) -> ItemView {
        ItemView {
            title: self.title@,
            link: self.link@,
            category: self.category@,
            pub_date: self.pub_date,
            description: self.description@,
            guid: self.guid@,
        }
    }
}

/// The elements of a bookmark that are read.
#[derive(Debug, Clone, Copy, PartialEq, Eq, Structural)]
pub enum Field {
    Title,
    Link,
    Description,
    PubDate,
    Guid,
    /// Any other element; it is passed over.
    Other,
}

/// The field that an element with the given name fills.
pub open spec fn field_named(name: Seq<char>) -> Field {
    if name == "title"@ {
        Field::Title
    } else if name == "link"@ {
        Field::Link
    } else if name == "description"@ {
        Field::Description
    } else if name == "pubDate"@ {
        Field::PubDate
    } else if name == "guid"@ {
        Field::Guid
    } else {
        Field::Other
    }
}

/// The bookmark after the element `field` with the content `text` has been
/// read into `item`, given the moment `date` that the content writes, if it
/// writes one. `None` where the element is the date and `text` is none.
pub open spec fn with_field(
    item: ItemView,
    field: Field,
    text: Seq<char>,
    date: Option<(int, int)>,
) -> Option<ItemView> {
    match field {
        Field::Title => Some(ItemView { title: text, ..item }),
        Field::Link => Some(ItemView { link: text, ..item }),
        Field::Description => Some(ItemView { description: text, ..item }),
        Field::PubDate => match date {
            Some((seconds, nanos)) => Some(
                ItemView {
                    pub_date: PubDate { seconds: seconds as i64, nanos: nanos as u32 },
                    ..item
                },
            ),
            None => None,
        },
        Field::Guid => Some(ItemView { guid: text, ..item }),
        Field::Other => Some(item),
    }
}

/// The address of the bookmarks of the account with the key `apikey`.
pub open spec fn bookmarks_url(apikey: Seq<char>) -> Seq<char> {
    "https://dognzb.cr/rss.cfm?r="@ + apikey + "&t=9000"@
}

/// The address of the bookmarks of the account with the key `apikey`.
/// Fetching it is the caller's work.
pub fn get_bookmarks(apikey: &str) -> (url: String)
    ensures
        url@ == bookmarks_url(apikey@),
{
    let mut url = String::from_str("https://dognzb.cr/rss.cfm?r=");
    url.append(apikey);
    url.append("&t=9000");
    url
}

/// The field that an element with the given name fills.
pub fn field_of(name: &str) -> (field: Field)
    ensures
        field == field_named(name@),
{
    if same_text(name, "title") {
        Field::Title
    } else if same_text(name, "link") {
        Field::Link
    } else if same_text(name, "description") {
        Field::Description
    } else if same_text(name, "pubDate") {
        Field::PubDate
    } else if same_text(name, "guid") {
        Field::Guid
    } else {
        Field::Other
    }
}

impl Default for Item {
    /// A bookmark that holds nothing yet.
    fn default() -> (item: Item)
        ensures
            item@ == (ItemView {
                title: Seq::empty(),
                link: Seq::empty(),
                category: Seq::empty(),
                pub_date: no_date(),
                description: Seq::empty(),
                guid: Seq::empty(),
            }),
    {
        Item {
            title: String::new(),
            link: String::new(),
            category: String::new(),
            pub_date: PubDate { seconds: 946684800, nanos: 0 },
            description: String::new(),
            guid: String::new(),
        }
    }
}

impl Item {
    /// Reads the element `field` with the content `text` into the
    /// bookmark. Fails only on a date that is none, and then leaves the
    /// bookmark as it was.
    pub fn set_field(&mut self, field: Field, text: &str) -> (r: Result<(), Error>)
        ensures
            match r {
                Ok(_) => with_field(old(self)@, field, text@, rfc2822_moment(text@)) == Some(
                    final(self)@,
                ),
                Err(Error::ChronoParseError(_)) => with_field(
                    old(self)@,
                    field,
                    text@,
                    rfc2822_moment(text@),
                ) is None && final(self)@ == old(self)@,
                Err(_) => false,
            },
    {
        match field {
            Field::Title => {
                self.title = String::from_str(text);
            },
            Field::Link => {
                self.link = String::from_str(text);
            },
            Field::Description => {
                self.description = String::from_str(text);
            },
            Field::PubDate => {
                match parse_date(text) {
                    Ok(date) => {
                        self.pub_date = date;
                    },
                    Err(e) => {
                        return Err(e);
                    },
                }
            },
            Field::Guid => {
                self.guid = String::from_str(text);
            },
            Field::Other => {},
        }
        Ok(())
    }
}

} // verus!

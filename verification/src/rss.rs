//! The entries of the release feed.
//!
//! The feed is XML. Pulling it apart is the caller's work; what each
//! element means for an entry is decided here.

use crate::text::{chars_of, has_prefix, same_text, starts_with};
use vstd::prelude::*;

verus! {

/// The error type of the crate `chrono` for a date that it cannot read.
#[verifier::external_type_specification]
#[verifier::external_body]
pub struct ExChronoParseError(chrono::ParseError);

/// The moment that `chrono::DateTime::parse_from_rfc2822` reads from `text`:
/// the seconds since the start of 1970 in UTC (`DateTime::timestamp`) and the
/// nanoseconds on top (`DateTime::timestamp_subsec_nanos`). `None` where it
/// reads no date.
pub uninterp spec fn rfc2822_moment(text: Seq<char>) -> Option<(int, int)>;

/// Why an entry could not be read.
#[derive(Debug)]
pub enum Error {
    /// The feed ended inside an entry.
    Eof,
    /// An element that must hold text holds none.
    MissingExpectedValue,
    /// The date of an entry is no date.
    ChronoParseError(chrono::ParseError),
}

/// A moment in UTC: seconds since the start of 1970, and nanoseconds on
/// top. Moments are ordered by the seconds first.
#[derive(Debug, Clone, Copy, PartialEq, Eq, Structural)]
pub struct PubDate {
    pub seconds: i64,
    pub nanos: u32,
}

impl PubDate {
    /// Whether this moment lies before `other`.
    pub open spec fn before(self, other: PubDate) -> bool {
        self.seconds < other.seconds || (self.seconds == other.seconds && self.nanos
            < other.nanos)
    }

    /// Whether this moment lies before `other`.
    pub fn is_before(&self, other: &PubDate) -> (r: bool)
        ensures
            r == self.before(*other),
    {
        self.seconds < other.seconds || (self.seconds == other.seconds && self.nanos
            < other.nanos)
    }
}

/// The start of the year 2000 in UTC, the date of an entry that names none.
pub open spec fn no_date() -> PubDate {
    PubDate { seconds: 946684800, nanos: 0 }
}

/// One entry of the feed.
#[derive(Debug)]
pub struct Item {
    pub title: String,
    pub link: String,
    pub nzb_link: String,
    pub torrent_link: String,
    pub pub_date: PubDate,
    pub guid: String,
}

/// What an `Item` holds, as mathematical values.
pub struct ItemView {
    pub title: Seq<char>,
    pub link: Seq<char>,
    pub nzb_link: Seq<char>,
    pub torrent_link: Seq<char>,
    pub pub_date: PubDate,
    pub guid: Seq<char>,
}

impl View for Item {
    type V = ItemView;

    open spec fn view(&self) -> ItemView {
        ItemView {
            title: self.title@,
            link: self.link@,
            nzb_link: self.nzb_link@,
            torrent_link: self.torrent_link@,
            pub_date: self.pub_date,
            guid: self.guid@,
        }
    }
}

/// A file that an entry offers: where it lies, its length and its type.
#[derive(Debug)]
pub struct Enclosure {
    pub url: String,
    pub length: String,
    pub mime_type: String,
}

/// What an `Enclosure` holds, as mathematical values.
pub struct EnclosureView {
    pub url: Seq<char>,
    pub length: Seq<char>,
    pub mime_type: Seq<char>,
}

impl View for Enclosure {
    type V = EnclosureView;

    open spec fn view(&self) -> EnclosureView {
        EnclosureView { url: self.url@, length: self.length@, mime_type: self.mime_type@ }
    }
}

/// The elements of an entry that are read.
#[derive(Debug, Clone, Copy, PartialEq, Eq, Structural)]
pub enum Field {
    Enclosure,
    Title,
    Link,
    PubDate,
    Guid,
    /// Any other element; it is passed over.
    Other,
}

/// The field that an element with the given name fills.
pub open spec fn field_named(name: Seq<char>) -> Field {
    if name == "enclosure"@ {
        Field::Enclosure
    } else if name == "title"@ {
        Field::Title
    } else if name == "link"@ {
        Field::Link
    } else if name == "pubDate"@ {
        Field::PubDate
    } else if name == "guid"@ {
        Field::Guid
    } else {
        Field::Other
    }
}

/// The key of an entry, which its `guid` element holds behind the address
/// of the site or of its mirror. `None` where the element starts with
/// neither.
pub open spec fn guid_key(guid: Seq<char>) -> Option<Seq<char>> {
    if starts_with(guid, "https://mirror.animetosho.org/view/"@) {
        Some(guid.skip("https://mirror.animetosho.org/view/"@.len() as int))
    } else if starts_with(guid, "https://animetosho.org/view/"@) {
        Some(guid.skip("https://animetosho.org/view/"@.len() as int))
    } else {
        None
    }
}

/// The entry after the element `field` with the content `text` has been
/// read into `item`, given the moment `date` that the content writes, if
/// it writes one. `None` where the element is the date and `text` is none.
pub open spec fn with_field(
    item: ItemView,
    field: Field,
    text: Seq<char>,
    date: Option<(int, int)>,
) -> Option<ItemView> {
    match field {
        Field::Title => Some(ItemView { title: text, ..item }),
        Field::Link => Some(ItemView { link: text, ..item }),
        Field::PubDate => match date {
            Some((seconds, nanos)) => Some(
                ItemView {
                    pub_date: PubDate { seconds: seconds as i64, nanos: nanos as u32 },
                    ..item
                },
            ),
            None => None,
        },
        Field::Guid => match guid_key(text) {
            Some(key) => Some(ItemView { guid: key, ..item }),
            None => Some(item),
        },
        Field::Enclosure => Some(item),
        Field::Other => Some(item),
    }
}

/// The entry after `enclosure` has been read into `item`: a file of the
/// type of an NZB file gives the entry's NZB link, one of the type of a
/// torrent its torrent link, any other nothing.
pub open spec fn with_enclosure(item: ItemView, enclosure: EnclosureView) -> ItemView {
    if enclosure.mime_type == "application/x-nzb"@ {
        ItemView { nzb_link: enclosure.url, ..item }
    } else if enclosure.mime_type == "application/x-bittorrent"@ {
        ItemView { torrent_link: enclosure.url, ..item }
    } else {
        item
    }
}

/// Whether an enclosure reads the attribute `key`: where it lies, its
/// length and its type are read, and nothing else.
pub open spec fn attribute_read(key: Seq<char>) -> bool {
    key == "url"@ || key == "length"@ || key == "type"@
}

/// The enclosure after the attribute `key` with the value `value` has been
/// read into `enclosure`.
pub open spec fn with_attribute(
    enclosure: EnclosureView,
    key: Seq<char>,
    value: Seq<char>,
) -> EnclosureView {
    if key == "url"@ {
        EnclosureView { url: value, ..enclosure }
    } else if key == "length"@ {
        EnclosureView { length: value, ..enclosure }
    } else if key == "type"@ {
        EnclosureView { mime_type: value, ..enclosure }
    } else {
        enclosure
    }
}

/// Calls `chrono::DateTime::parse_from_rfc2822` and takes the moment out of
/// what it returns, with `timestamp` and `timestamp_subsec_nanos`. The
/// contract names the moment; nothing is proved of it.
#[verifier::external_body]
fn parse_rfc2822(text: &str) -> (r: Result<PubDate, chrono::ParseError>)
    ensures
        match r {
            Ok(d) => rfc2822_moment(text@) == Some((d.seconds as int, d.nanos as int)),
            Err(_) => rfc2822_moment(text@) is None,
        },
{
    match chrono::DateTime::parse_from_rfc2822(text) {
        Ok(d) => Ok(PubDate { seconds: d.timestamp(), nanos: d.timestamp_subsec_nanos() }),
        Err(e) => Err(e),
    }
}

/// Reads a date in the form of RFC 2822, as the feeds write it.
pub fn parse_date(text: &str) -> (r: Result<PubDate, Error>)
    ensures
        match r {
            Ok(d) => rfc2822_moment(text@) == Some((d.seconds as int, d.nanos as int)),
            Err(Error::ChronoParseError(_)) => rfc2822_moment(text@) is None,
            Err(_) => false,
        },
{
    match parse_rfc2822(text) {
        Ok(d) => Ok(d),
        Err(e) => Err(Error::ChronoParseError(e)),
    }
}

/// The field that an element with the given name fills.
pub fn field_of(name: &str) -> (field: Field)
    ensures
        field == field_named(name@),
{
    if same_text(name, "enclosure") {
        Field::Enclosure
    } else if same_text(name, "title") {
        Field::Title
    } else if same_text(name, "link") {
        Field::Link
    } else if same_text(name, "pubDate") {
        Field::PubDate
    } else if same_text(name, "guid") {
        Field::Guid
    } else {
        Field::Other
    }
}

/// The content of an element, given the pieces of text that it holds, in
/// their order: the last piece counts.
pub fn element_content(pieces: Vec<String>) -> (r: Result<String, Error>)
    ensures
        match r {
            Ok(text) => pieces@.len() > 0 && text@ == pieces@.last()@,
            Err(Error::MissingExpectedValue) => pieces@.len() == 0,
            Err(_) => false,
        },
{
    let mut pieces = pieces;
    match pieces.pop() {
        Some(last) => Ok(last),
        None => Err(Error::MissingExpectedValue),
    }
}

impl Default for Item {
    /// An entry that holds nothing yet.
    fn default() -> (item: Item)
        ensures
            item@ == (ItemView {
                title: Seq::empty(),
                link: Seq::empty(),
                nzb_link: Seq::empty(),
                torrent_link: Seq::empty(),
                pub_date: no_date(),
                guid: Seq::empty(),
            }),
    {
        Item {
            title: String::new(),
            link: String::new(),
            nzb_link: String::new(),
            torrent_link: String::new(),
            pub_date: PubDate { seconds: 946684800, nanos: 0 },
            guid: String::new(),
        }
    }
}

impl Default for Enclosure {
    /// An enclosure that holds nothing yet.
    fn default() -> (enclosure: Enclosure)
        ensures
            enclosure@ == (EnclosureView {
                url: Seq::empty(),
                length: Seq::empty(),
                mime_type: Seq::empty(),
            }),
    {
        Enclosure { url: String::new(), length: String::new(), mime_type: String::new() }
    }
}

impl Enclosure {
    /// Whether an enclosure reads the attribute `key`, so that its value is
    /// worth handing to `set_attribute`.
    pub fn reads(key: &str) -> (r: bool)
        ensures
            r == attribute_read(key@),
            !r ==> forall|enclosure: EnclosureView, value: Seq<char>|
                #[trigger] with_attribute(enclosure, key@, value) == enclosure,
    {
        same_text(key, "url") || same_text(key, "length") || same_text(key, "type")
    }

    /// Reads the attribute `key` with the value `value` into the enclosure.
    pub fn set_attribute(&mut self, key: &str, value: String)
        ensures
            final(self)@ == with_attribute(old(self)@, key@, value@),
    {
        if same_text(key, "url") {
            self.url = value;
        } else if same_text(key, "length") {
            self.length = value;
        } else if same_text(key, "type") {
            self.mime_type = value;
        }
    }
}

impl Item {
    /// Reads an enclosure into the entry.
    pub fn set_enclosure(&mut self, enclosure: Enclosure)
        ensures
            final(self)@ == with_enclosure(old(self)@, enclosure@),
    {
        if same_text(enclosure.mime_type.as_str(), "application/x-nzb") {
            self.nzb_link = enclosure.url;
        } else if same_text(enclosure.mime_type.as_str(), "application/x-bittorrent") {
            self.torrent_link = enclosure.url;
        }
    }

    /// Reads the element `field` with the content `text` into the entry.
    /// Fails only on a date that is none, and then leaves the entry as it
    /// was.
    pub fn set_field(&mut self, field: Field, text: &str) -> (r: Result<(), Error>)
        ensures
            match r {
                Ok(_) => with_field(old(self)@, field, text@, rfc2822_moment(text@)) == Some(
                    final(self)@,
                ),
                Err(Error::ChronoParseError(_)) => with_field(
                    old(self)@,
                    field,
                    text@,
                    rfc2822_moment(text@),
                ) is None && final(self)@ == old(self)@,
                Err(_) => false,
            },
    {
        match field {
            Field::Title => {
                self.title = String::from_str(text);
            },
            Field::Link => {
                self.link = String::from_str(text);
            },
            Field::PubDate => {
                match parse_date(text) {
                    Ok(date) => {
                        self.pub_date = date;
                    },
                    Err(e) => {
                        return Err(e);
                    },
                }
            },
            Field::Guid => {
                let chars = chars_of(text);
                let n: usize = chars.len();
                if has_prefix(chars.as_slice(), "https://mirror.animetosho.org/view/") {
                    let m: usize = "https://mirror.animetosho.org/view/".unicode_len();
                    self.guid = String::from_str(text.substring_char(m, n));
                } else if has_prefix(chars.as_slice(), "https://animetosho.org/view/") {
                    let m: usize = "https://animetosho.org/view/".unicode_len();
                    self.guid = String::from_str(text.substring_char(m, n));
                }
            },
            Field::Enclosure => {},
            Field::Other => {},
        }
        Ok(())
    }
}

} // verus!

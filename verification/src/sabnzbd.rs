//! The download queue that accepted links are handed to.

use vstd::prelude::*;

verus! {

/// The address type of the crate `url`.
#[verifier::external_type_specification]
#[verifier::external_body]
pub struct ExUrl(url::Url);

/// The error type of the crate `url`.
#[verifier::external_type_specification]
#[verifier::external_body]
pub struct ExParseError(url::ParseError);

/// The text of an address: what `url::Url::as_str` returns.
pub uninterp spec fn url_text(url: url::Url) -> Seq<char>;

/// The text of the address that `url::Url::parse` reads from `text`, or
/// `None` where it reads none.
pub uninterp spec fn parsed_url(text: Seq<char>) -> Option<Seq<char>>;

/// The text of the address that `url::Url::join` resolves `path` to, against
/// the address with the text `base`; `None` where it fails.
pub uninterp spec fn joined_url(base: Seq<char>, path: Seq<char>) -> Option<Seq<char>>;

/// The text of the address with the text `base` after
/// `form_urlencoded::Serializer::append_pair` has added the pair of `name`
/// and `value` to its query.
pub uninterp spec fn with_pair(base: Seq<char>, name: Seq<char>, value: Seq<char>) -> Seq<char>;

/// Why a link was not queued.
#[derive(Debug)]
pub enum Error {
    /// The client's host is no address, or no address that a path can be
    /// joined to.
    UrlParseError(url::ParseError),
    /// The address of the request would pass the length that an address
    /// can have.
    UrlTooLong,
    /// The queue answered that it did not take the link, with its reason.
    StatusFalse(String),
}

/// Where the queue lives and the key that it asks for.
pub struct SabnzbdClient {
    host: String,
    apikey: String,
}

/// What a `SabnzbdClient` holds, as mathematical values.
pub struct SabnzbdClientView {
    pub host: Seq<char>,
    pub apikey: Seq<char>,
}

impl View for SabnzbdClient {
    type V = SabnzbdClientView;

    closed spec fn view(&self) -> SabnzbdClientView {
        SabnzbdClientView { host: self.host@, apikey: self.apikey@ }
    }
}

/// The queue's answer to a request.
#[derive(Debug)]
pub struct JsonResponse {
    pub status: bool,
    pub error: Option<String>,
    pub nzo_ids: Option<Vec<String>>,
}

/// The reason that an answer gives for a refusal; a fixed text where it
/// gives none.
pub open spec fn refusal_reason(error: Option<String>) -> Seq<char> {
    match error {
        Some(e) => e@,
        None => "Unknown error"@,
    }
}

/// Turns the queue's answer into success or failure: the answer's status
/// decides, and a refusal carries the answer's reason.
pub fn handle_response(json: JsonResponse) -> (r: Result<(), Error>)
    ensures
        json.status ==> r is Ok,
        !json.status ==> match r {
            Err(Error::StatusFalse(reason)) => reason@ == refusal_reason(json.error),
            _ => false,
        },
{
    if !json.status {
        if let Some(error) = json.error {
            Err(Error::StatusFalse(error))
        } else {
            Err(Error::StatusFalse(String::from_str("Unknown error")))
        }
    } else {
        Ok(())
    }
}

/// Calls `url::Url::parse`. The contract names what was read; nothing is
/// proved of it.
#[verifier::external_body]
fn url_parse(text: &str) -> (r: Result<url::Url, url::ParseError>)
    ensures
        match r {
            Ok(u) => parsed_url(text@) == Some(url_text(u)),
            Err(_) => parsed_url(text@) is None,
        },
{
    url::Url::parse(text)
}

/// Calls `url::Url::join`. The contract names the address that comes out,
/// as a function of the base's text and of `path`: an address holds nothing
/// but its text and positions in it.
#[verifier::external_body]
fn url_join(base: &url::Url, path: &str) -> (r: Result<url::Url, url::ParseError>)
    ensures
        match r {
            Ok(u) => joined_url(url_text(*base), path@) == Some(url_text(u)),
            Err(_) => joined_url(url_text(*base), path@) is None,
        },
{
    base.join(path)
}

/// Whether a pair of `name` and `value` can be added to the address with
/// the text `base`. The crate `url` keeps positions in an address in 32
/// bits, so an address must stay under 4 GiB. A character of the address
/// takes 4 bytes at most; one of a name or a value takes 12 at most, once
/// it is written into a query; two more bytes set the pair off.
pub open spec fn pair_fits(base: Seq<char>, name: Seq<char>, value: Seq<char>) -> bool {
    4 * base.len() + 12 * (name.len() + value.len()) + 2 <= u32::MAX
}

/// The text of `address` after the pair of `name` and `value` has been
/// added to its query; `None` where there is no address, or where the pair
/// does not fit.
pub open spec fn then_pair(address: Option<Seq<char>>, name: Seq<char>, value: Seq<char>) -> Option<
    Seq<char>,
> {
    match address {
        Some(base) => if pair_fits(base, name, value) {
            Some(with_pair(base, name, value))
        } else {
            None
        },
        None => None,
    }
}

/// The address that a request is built on: the path `api` joined to the
/// host. `None` where the host is no address, or none that a path can be
/// joined to.
pub open spec fn addurl_base(host: Seq<char>) -> Option<Seq<char>> {
    match parsed_url(host) {
        Some(base) => joined_url(base, "api"@),
        None => None,
    }
}

/// The address `api` with the five pairs of a request added to its query:
/// the key, the form of the answer, what to do, the link and the category.
/// `None` where one of them does not fit.
pub open spec fn addurl_pairs(
    api: Seq<char>,
    apikey: Seq<char>,
    nzb_url: Seq<char>,
    cat: Seq<char>,
) -> Option<Seq<char>> {
    then_pair(
        then_pair(
            then_pair(
                then_pair(then_pair(Some(api), "apikey"@, apikey), "output"@, "json"@),
                "mode"@,
                "addurl"@,
            ),
            "name"@,
            nzb_url,
        ),
        "cat"@,
        cat,
    )
}

/// Calls `url::Url::query_pairs_mut` and, on what it returns,
/// `form_urlencoded::Serializer::append_pair`, once. The contract names the
/// address that is left, as a function of the address's text before and of
/// the pair. The two calls record positions in the address with an
/// `unwrap` that fails past `u32::MAX` bytes; `requires` keeps the address
/// under that length, the pair included.
#[verifier::external_body]
fn url_append_pair(url: &mut url::Url, name: &str, value: &str)
    requires
        pair_fits(url_text(*old(url)), name@, value@),
    ensures
        url_text(*final(url)) == with_pair(url_text(*old(url)), name@, value@),
{
    url.query_pairs_mut().append_pair(name, value);
}

/// Calls `url::Url::as_str`, which hands out the text of the address.
#[verifier::external_body]
fn url_as_str(url: &url::Url) -> (r: &str)
    ensures
        r@ == url_text(*url),
{
    url.as_str()
}

/// Whether a pair with a name of `name` characters and a value of `value`
/// characters can be added to an address of `base` characters.
fn lengths_fit(base: usize, name: usize, value: usize) -> (r: bool)
    ensures
        r == (4 * base + 12 * (name + value) + 2 <= u32::MAX),
{
    if base > 0xFFFF_FFFF || name > 0xFFFF_FFFF || value > 0xFFFF_FFFF {
        return false;
    }
    let total: u64 = 4 * (base as u64) + 12 * (name as u64 + value as u64) + 2;
    total <= 0xFFFF_FFFF
}

/// Adds the pair of `name` and `value` to the query of `url` where it fits,
/// and says whether it did; where it does not fit, `url` stays as it was.
fn append_pair(url: &mut url::Url, name: &str, value: &str) -> (fits: bool)
    ensures
        fits == pair_fits(url_text(*old(url)), name@, value@),
        then_pair(Some(url_text(*old(url))), name@, value@) == (if fits {
            Some(url_text(*final(url)))
        } else {
            None::<Seq<char>>
        }),
        !fits ==> url_text(*final(url)) == url_text(*old(url)),
{
    let base: usize = url_as_str(url).unicode_len();
    if lengths_fit(base, name.unicode_len(), value.unicode_len()) {
        url_append_pair(url, name, value);
        true
    } else {
        false
    }
}

impl SabnzbdClient {
    /// A client for the queue at `host`, which asks for `apikey`.
    pub fn new(host: &str, apikey: &str) -> (client: SabnzbdClient)
        ensures
            client@ == (SabnzbdClientView { host: host@, apikey: apikey@ }),
    {
        SabnzbdClient { host: String::from_str(host), apikey: String::from_str(apikey) }
    }

    /// Where the queue lives.
    pub fn host(&self) -> (host: &str)
        ensures
            host@ == self@.host,
    {
        self.host.as_str()
    }

    /// The key that the queue asks for.
    pub fn apikey(&self) -> (apikey: &str)
        ensures
            apikey@ == self@.apikey,
    {
        self.apikey.as_str()
    }

    /// The address to ask, for the queue to fetch `nzb_url` into the
    /// category `cat`. The request itself is the caller's to make. Fails
    /// where the host is no address that the path `api` can be joined to,
    /// and where the address would grow too long.
    pub fn addurl(&self, nzb_url: &str, cat: &str) -> (r: Result<String, Error>)
        ensures
            match r {
                Ok(address) => match addurl_base(self@.host) {
                    Some(api) => addurl_pairs(api, self@.apikey, nzb_url@, cat@) == Some(
                        address@,
                    ),
                    None => false,
                },
                Err(Error::UrlParseError(_)) => addurl_base(self@.host) is None,
                Err(Error::UrlTooLong) => match addurl_base(self@.host) {
                    Some(api) => addurl_pairs(api, self@.apikey, nzb_url@, cat@) is None,
                    None => false,
                },
                Err(_) => false,
            },
    {
        let base = match url_parse(self.host.as_str()) {
            Ok(base) => base,
            Err(e) => {
                return Err(Error::UrlParseError(e));
            },
        };
        let mut url = match url_join(&base, "api") {
            Ok(url) => url,
            Err(e) => {
                return Err(Error::UrlParseError(e));
            },
        };
        if !append_pair(&mut url, "apikey", self.apikey.as_str()) {
            return Err(Error::UrlTooLong);
        }
        if !append_pair(&mut url, "output", "json") {
            return Err(Error::UrlTooLong);
        }
        if !append_pair(&mut url, "mode", "addurl") {
            return Err(Error::UrlTooLong);
        }
        if !append_pair(&mut url, "name", nzb_url) {
            return Err(Error::UrlTooLong);
        }
        if !append_pair(&mut url, "cat", cat) {
            return Err(Error::UrlTooLong);
        }
        Ok(String::from_str(url_as_str(&url)))
    }
}

} // verus!

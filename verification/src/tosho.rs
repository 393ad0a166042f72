//! The addresses under which the release feed is asked.

use crate::number::{decimal_digits, push_number};
use crate::text::chars_of;
use vstd::prelude::*;

verus! {

/// Where the release feed lives.
pub const ANIMETOSHO_RSS_URL: &'static str = "https://feed.animetosho.org/rss2";

/// `terms` with a `+` in place of each space.
pub open spec fn plus_for_spaces(terms: Seq<char>) -> Seq<char> {
    Seq::new(
        terms.len(),
        |i: int|
            if terms[i] == ' ' {
                '+'
            } else {
                terms[i]
            },
    )
}

/// The address that searches the feed for `terms`, on the given page of the
/// results; the first page where none is given.
pub open spec fn search_url(terms: Seq<char>, page: Option<u8>) -> Seq<char> {
    let number = match page {
        Some(p) => p,
        None => 1u8,
    };
    ANIMETOSHO_RSS_URL@ + "?q="@ + plus_for_spaces(terms) + "&page="@ + decimal_digits(
        number as nat,
    )
}

/// The address of the given page of the feed.
pub open spec fn feed_url(page: u8) -> Seq<char> {
    ANIMETOSHO_RSS_URL@ + "?page="@ + decimal_digits(page as nat)
}

/// Appends `terms` to `out`, with a `+` in place of each space.
fn push_terms(out: &mut String, terms: &str)
    ensures
        final(out)@ == old(out)@ + plus_for_spaces(terms@),
{
    let ghost before = out@;
    let chars = chars_of(terms);
    let n: usize = chars.len();
    let mut i: usize = 0;
    while i < n
        invariant
            i <= n,
            n == chars@.len(),
            chars@ == terms@,
            out@ == before + plus_for_spaces(terms@).take(i as int),
        decreases n - i,
    {
        let ghost so_far = out@;
        if chars[i] == ' ' {
            proof {
                reveal_strlit("+");
            }
            out.append("+");
        } else {
            out.append(terms.substring_char(i, i + 1));
        }
        assert(out@ =~= so_far.push(plus_for_spaces(terms@)[i as int]));
        assert(out@ =~= before + plus_for_spaces(terms@).take(i + 1));
        i = i + 1;
    }
    assert(plus_for_spaces(terms@).take(n as int) =~= plus_for_spaces(terms@));
}

/// The address that searches the feed for `terms`, on the given page of the
/// results; the first page where none is given.
pub fn search(terms: &str, page: Option<u8>) -> (url: String)
    ensures
        url@ == search_url(terms@, page),
{
    let number: u8 = match page {
        Some(p) => p,
        None => 1,
    };
    let mut url = String::from_str(ANIMETOSHO_RSS_URL);
    url.append("?q=");
    push_terms(&mut url, terms);
    url.append("&page=");
    push_number(&mut url, number as u32);
    url
}

/// The address of the given page of the feed.
pub fn feed(page: &u8) -> (url: String)
    ensures
        url@ == feed_url(*page),
{
    let mut url = String::from_str(ANIMETOSHO_RSS_URL);
    url.append("?page=");
    push_number(&mut url, *page as u32);
    url
}

} // verus!

//! What the commands decide: which entries of the feed are releases of a
//! show, where a page of the feed stops being new, and what to search for.
//!
//! Fetching the feed and keeping the shows is the caller's work.

use crate::groups::{group_accepts, group_matches};
use crate::models::{display_of, same_quality, Episode, Quality};
use crate::number::{decimal_digits, push_number};
use crate::rss::{Item, PubDate};
use crate::text::same_text;
use crate::utils::{match_title, parsed_title};
use vstd::prelude::*;

verus! {

/// A release found in the feed, with the link of its NZB file.
#[derive(Debug)]
pub struct Found {
    pub episode: Episode,
    pub nzb_link: String,
}

/// Whether `found` is what reading `item` gives.
pub open spec fn found_in(found: Found, item: Item) -> bool {
    parsed_title(item.title@) == Some(found.episode@) && found.nzb_link@ == item.nzb_link@
}

/// Whether the title of `item` announces a release.
pub open spec fn is_release(item: Item) -> bool {
    parsed_title(item.title@) is Some
}

/// The entries among `items` whose titles announce a release, in their
/// order.
pub open spec fn releases(items: Seq<Item>) -> Seq<Item> {
    items.filter(|item: Item| is_release(item))
}

/// Whether `found` is what reading the releases among `items` gives, one
/// for one and in their order.
pub open spec fn found_all(found: Seq<Found>, items: Seq<Item>) -> bool {
    &&& found.len() == releases(items).len()
    &&& forall|i: int| 0 <= i < found.len() ==> found_in(found[i], #[trigger] releases(items)[i])
}

/// Whether the title of `item` announces an episode of the show `name` by
/// the group `group` in the quality `quality`.
pub open spec fn is_of_show(
    item: Item,
    group: Seq<char>,
    name: Seq<char>,
    quality: Option<Quality>,
) -> bool {
    match parsed_title(item.title@) {
        Some(e) => group_accepts(group, e.group) && e.name == name && e.quality == quality,
        None => false,
    }
}

/// The entries among `items` that announce an episode of the show.
pub open spec fn of_show(
    items: Seq<Item>,
    group: Seq<char>,
    name: Seq<char>,
    quality: Option<Quality>,
) -> Seq<Item> {
    items.filter(|item: Item| is_of_show(item, group, name, quality))
}

/// Whether `entry` is what `item` says of its episode: the episode, the
/// revision, the link of the NZB file, and whether the episode lies before
/// `start` and so counts as fetched.
pub open spec fn entry_of(entry: (i32, i32, String, bool), item: Item, start: int) -> bool {
    match parsed_title(item.title@) {
        Some(e) => {
            &&& entry.0 == e.episode
            &&& entry.1 == e.version
            &&& entry.2@ == item.nzb_link@
            &&& entry.3 == (e.episode < start)
        },
        None => false,
    }
}

/// Whether one of `items` announces the episode `episode`.
pub open spec fn holds_episode(items: Seq<Item>, episode: int) -> bool {
    exists|i: int|
        0 <= i < items.len() && (#[trigger] parsed_title(items[i].title@) matches Some(e)
            && e.episode == episode)
}

/// Whether `item` has a link of an NZB file and announces the episode
/// `episode` of the show.
pub open spec fn is_of_episode(
    item: Item,
    group: Seq<char>,
    name: Seq<char>,
    episode: int,
    quality: Option<Quality>,
) -> bool {
    &&& item.nzb_link@.len() > 0
    &&& is_of_show(item, group, name, quality)
    &&& parsed_title(item.title@) matches Some(e) && e.episode == episode
}

/// The entries among `items` that have a link and announce the episode.
pub open spec fn of_episode(
    items: Seq<Item>,
    group: Seq<char>,
    name: Seq<char>,
    episode: int,
    quality: Option<Quality>,
) -> Seq<Item> {
    items.filter(|item: Item| is_of_episode(item, group, name, episode, quality))
}

/// `k` is how many entries of a page are new: those before the first entry
/// that is older than `last`.
pub open spec fn is_fresh_count(items: Seq<Item>, last: PubDate, k: int) -> bool {
    &&& 0 <= k <= items.len()
    &&& forall|j: int| 0 <= j < k ==> !(#[trigger] items[j]).pub_date.before(last)
    &&& k < items.len() ==> items[k].pub_date.before(last)
}

/// The latest of `newest` and the dates of `items`.
pub open spec fn latest(items: Seq<Item>, newest: PubDate) -> PubDate
    decreases items.len(),
{
    if items.len() == 0 {
        newest
    } else {
        let before = latest(items.drop_last(), newest);
        if before.before(items.last().pub_date) {
            items.last().pub_date
        } else {
            before
        }
    }
}

/// A number written with two digits at least: one digit gets a zero in
/// front of it, and a negative number its sign.
pub open spec fn two_digits(n: int) -> Seq<char> {
    if n < 0 {
        seq!['-'] + decimal_digits((-n) as nat)
    } else if n < 10 {
        seq!['0'] + decimal_digits(n as nat)
    } else {
        decimal_digits(n as nat)
    }
}

/// How a quality is written in search terms: its name, or nothing.
pub open spec fn quality_term(quality: Option<Quality>) -> Seq<char> {
    match quality {
        Some(q) => display_of(q),
        None => Seq::empty(),
    }
}

/// The terms to search with for an episode that has no link yet: group,
/// name, episode and quality, with one space between them.
pub open spec fn search_terms(
    group: Seq<char>,
    name: Seq<char>,
    episode: int,
    quality: Option<Quality>,
) -> Seq<char> {
    group + seq![' '] + name + seq![' '] + two_digits(episode) + seq![' '] + quality_term(quality)
}

/// Whether `episode`, read from a title, is one of the show.
fn fits_show(episode: &Episode, group: &str, name: &str, quality: &Option<Quality>) -> (r: bool)
    ensures
        r == (group_accepts(group@, episode@.group) && episode@.name == name@ && episode@.quality
            == *quality),
{
    group_matches(group, episode.group.as_str()) && same_text(episode.name.as_str(), name)
        && same_quality(&episode.quality, quality)
}

/// Reads one page of the feed for `add`: picks the entries that announce an
/// episode of the show, and says of each what is to be kept. The second
/// part of the result tells whether the page holds the episode `start`,
/// with which the search is done.
pub fn releases_of_show(
    items: &Vec<Item>,
    group: &str,
    name: &str,
    start: i32,
    quality: &Option<Quality>,
) -> (r: (Vec<(i32, i32, String, bool)>, bool))
    ensures
        r.0@.len() == of_show(items@, group@, name@, *quality).len(),
        forall|i: int|
            0 <= i < r.0@.len() ==> entry_of(
                r.0@[i],
                #[trigger] of_show(items@, group@, name@, *quality)[i],
                start as int,
            ),
        r.1 == holds_episode(of_show(items@, group@, name@, *quality), start as int),
{
    let mut entries: Vec<(i32, i32, String, bool)> = Vec::new();
    let mut done = false;
    let ghost keep = |item: Item| is_of_show(item, group@, name@, *quality);
    let mut k: usize = 0;
    assert(items@.take(0) =~= Seq::<Item>::empty());
    while k < items.len()
        invariant
            k <= items.len(),
            keep == |item: Item| is_of_show(item, group@, name@, *quality),
            entries@.len() == items@.take(k as int).filter(keep).len(),
            forall|i: int|
                0 <= i < entries@.len() ==> entry_of(
                    entries@[i],
                    #[trigger] items@.take(k as int).filter(keep)[i],
                    start as int,
                ),
            done == holds_episode(items@.take(k as int).filter(keep), start as int),
        decreases items.len() - k,
    {
        let item = &items[k];
        let ghost before = items@.take(k as int).filter(keep);
        proof {
            assert(items@.take(k + 1).drop_last() =~= items@.take(k as int));
            reveal(Seq::filter);
        }
        let ghost after = items@.take(k + 1).filter(keep);
        match match_title(item.title.as_str()) {
            Some(episode) => {
                if fits_show(&episode, group, name, quality) {
                    assert(after =~= before.push(*item));
                    entries.push(
                        (episode.episode, episode.version, item.nzb_link.clone(), episode.episode
                            < start),
                    );
                    proof {
                        let here = before.len() as int;
                        if episode.episode == start {
                            assert(parsed_title(after[here].title@) matches Some(e) && e.episode
                                == start);
                        }
                        if holds_episode(before, start as int) {
                            let i = choose|i: int|
                                0 <= i < before.len() && (#[trigger] parsed_title(
                                    before[i].title@,
                                ) matches Some(e) && e.episode == start);
                            assert(parsed_title(after[i].title@) matches Some(e) && e.episode
                                == start);
                        }
                        if holds_episode(after, start as int) {
                            let i = choose|i: int|
                                0 <= i < after.len() && (#[trigger] parsed_title(
                                    after[i].title@,
                                ) matches Some(e) && e.episode == start);
                            if i < here {
                                assert(parsed_title(before[i].title@) matches Some(e) && e.episode
                                    == start);
                            }
                        }
                    }
                    done = done || episode.episode == start;
                } else {
                    assert(after =~= before);
                }
            },
            None => {
                assert(after =~= before);
            },
        }
        k = k + 1;
    }
    assert(items@.take(k as int) =~= items@);
    (entries, done)
}

/// Reads the titles of the first `to` of `items` and returns the releases
/// among them.
fn releases_between(items: &Vec<Item>, to: usize) -> (found: Vec<Found>)
    requires
        to <= items.len(),
    ensures
        found_all(found@, items@.take(to as int)),
{
    let mut found: Vec<Found> = Vec::new();
    let ghost keep = |item: Item| is_release(item);
    let mut k: usize = 0;
    assert(items@.take(0) =~= Seq::<Item>::empty());
    while k < to
        invariant
            k <= to <= items.len(),
            keep == |item: Item| is_release(item),
            found@.len() == items@.take(k as int).filter(keep).len(),
            forall|i: int|
                0 <= i < found@.len() ==> found_in(
                    found@[i],
                    #[trigger] items@.take(k as int).filter(keep)[i],
                ),
        decreases to - k,
    {
        let item = &items[k];
        let ghost before = items@.take(k as int).filter(keep);
        proof {
            assert(items@.take(k + 1).drop_last() =~= items@.take(k as int));
            reveal(Seq::filter);
        }
        let ghost after = items@.take(k + 1).filter(keep);
        match match_title(item.title.as_str()) {
            Some(episode) => {
                assert(after =~= before.push(*item));
                found.push(Found { episode, nzb_link: item.nzb_link.clone() });
            },
            None => {
                assert(after =~= before);
            },
        }
        k = k + 1;
    }
    found
}

/// Reads one page of the feed for `recheck`: the releases among its
/// entries.
pub fn releases_on_page(items: &Vec<Item>) -> (found: Vec<Found>)
    ensures
        found_all(found@, items@),
{
    assert(items@.take(items@.len() as int) =~= items@);
    releases_between(items, items.len())
}

/// What `check` takes from one page of the feed.
#[derive(Debug)]
pub struct Fresh {
    /// The releases among the new entries.
    pub found: Vec<Found>,
    /// The latest date seen so far.
    pub newest: PubDate,
    /// Whether an entry was older than the last check, so that no page
    /// behind this one need be read.
    pub stop: bool,
}

/// Reads one page of the feed for `check`. The new entries are those before
/// the first that is older than `last`, the date of the last check; their
/// dates move `newest` forward.
pub fn fresh_releases(items: &Vec<Item>, last: &PubDate, newest: &PubDate) -> (r: Fresh)
    ensures
        exists|k: int|
            {
                &&& #[trigger] is_fresh_count(items@, *last, k)
                &&& found_all(r.found@, items@.take(k))
                &&& r.newest == latest(items@.take(k), *newest)
                &&& r.stop == (k < items@.len())
            },
{
    let mut latest_seen: PubDate = *newest;
    let mut k: usize = 0;
    let mut stop = false;
    assert(items@.take(0) =~= Seq::<Item>::empty());
    while k < items.len() && !stop
        invariant
            k <= items.len(),
            forall|j: int| 0 <= j < k ==> !(#[trigger] items@[j]).pub_date.before(*last),
            stop ==> k < items.len() && items@[k as int].pub_date.before(*last),
            latest_seen == latest(items@.take(k as int), *newest),
        decreases items.len() - k + (if stop { 0int } else { 1int }),
    {
        let item = &items[k];
        if item.pub_date.is_before(last) {
            stop = true;
        } else {
            proof {
                assert(items@.take(k + 1).drop_last() =~= items@.take(k as int));
                assert(items@.take(k + 1).last() == items@[k as int]);
            }
            if latest_seen.is_before(&item.pub_date) {
                latest_seen = item.pub_date;
            }
            k = k + 1;
        }
    }
    let found = releases_between(items, k);
    assert(is_fresh_count(items@, *last, k as int));
    Fresh { found, newest: latest_seen, stop }
}

/// The terms to search with for an episode that has no link yet.
pub fn missing_terms(group: &str, name: &str, episode: i32, quality: &Option<Quality>) -> (terms:
    String)
    ensures
        terms@ == search_terms(group@, name@, episode as int, *quality),
{
    proof {
        reveal_strlit(" ");
        reveal_strlit("-");
        reveal_strlit("0");
    }
    let mut terms = String::from_str(group);
    terms.append(" ");
    terms.append(name);
    terms.append(" ");
    let ghost head = terms@;
    if episode < 0 {
        terms.append("-");
        let size: i64 = 0 - episode as i64;
        push_number(&mut terms, size as u32);
    } else {
        if episode < 10 {
            terms.append("0");
        }
        push_number(&mut terms, episode as u32);
    }
    assert(terms@ =~= head + two_digits(episode as int));
    terms.append(" ");
    match quality {
        Some(q) => {
            let written = q.to_string();
            terms.append(written.as_str());
        },
        None => {},
    }
    assert(terms@ =~= search_terms(group@, name@, episode as int, *quality));
    terms
}

/// Reads the results of a search for an episode that has no link yet:
/// picks the entries that have a link and announce that episode, and
/// returns episode, revision and link of each.
pub fn releases_of_episode(
    items: &Vec<Item>,
    group: &str,
    name: &str,
    episode: i32,
    quality: &Option<Quality>,
) -> (r: Vec<(i32, i32, String)>)
    ensures
        r@.len() == of_episode(items@, group@, name@, episode as int, *quality).len(),
        forall|i: int|
            0 <= i < r@.len() ==> {
                let item = #[trigger] of_episode(
                    items@,
                    group@,
                    name@,
                    episode as int,
                    *quality,
                )[i];
                &&& r@[i].0 == episode
                &&& parsed_title(item.title@) matches Some(e) && r@[i].1 == e.version
                &&& r@[i].2@ == item.nzb_link@
            },
{
    let mut entries: Vec<(i32, i32, String)> = Vec::new();
    let ghost keep = |item: Item| is_of_episode(item, group@, name@, episode as int, *quality);
    let mut k: usize = 0;
    assert(items@.take(0) =~= Seq::<Item>::empty());
    while k < items.len()
        invariant
            k <= items.len(),
            keep == |item: Item| is_of_episode(item, group@, name@, episode as int, *quality),
            entries@.len() == items@.take(k as int).filter(keep).len(),
            forall|i: int|
                0 <= i < entries@.len() ==> {
                    let item = #[trigger] items@.take(k as int).filter(keep)[i];
                    &&& entries@[i].0 == episode
                    &&& parsed_title(item.title@) matches Some(e) && entries@[i].1 == e.version
                    &&& entries@[i].2@ == item.nzb_link@
                },
        decreases items.len() - k,
    {
        let item = &items[k];
        let ghost before = items@.take(k as int).filter(keep);
        proof {
            assert(items@.take(k + 1).drop_last() =~= items@.take(k as int));
            reveal(Seq::filter);
        }
        let ghost after = items@.take(k + 1).filter(keep);
        let mut kept = false;
        if item.nzb_link.as_str().unicode_len() > 0 {
            match match_title(item.title.as_str()) {
                Some(found) => {
                    if fits_show(&found, group, name, quality) && found.episode == episode {
                        kept = true;
                        assert(after =~= before.push(*item));
                        entries.push((found.episode, found.version, item.nzb_link.clone()));
                    }
                },
                None => {},
            }
        }
        assert(!kept ==> after =~= before);
        k = k + 1;
    }
    assert(items@.take(k as int) =~= items@);
    entries
}

/// The page on which a search and a walk through the feed start.
pub const FIRST_PAGE: u8 = 1;

/// The last page of its results that a search for a show reads.
pub const LAST_SEARCH_PAGE: u8 = 9;

/// The page to read after `page` in the search for a show, if any: the
/// search ends with the page that holds the episode it starts from, and
/// with the last page that it reads.
pub open spec fn search_page_after(page: u8, done: bool) -> Option<u8> {
    if done || page >= LAST_SEARCH_PAGE {
        None
    } else {
        Some((page + 1) as u8)
    }
}

/// The page to read after `page` in the walk through the feed, if any: the
/// walk ends with a page without entries, and with a page on which an
/// entry was older than the last check.
pub open spec fn feed_page_after(page: u8, entries: nat, stop: bool) -> Option<u8> {
    if entries == 0 || stop {
        None
    } else {
        Some((page + 1) as u8)
    }
}

/// The page to read after `page` in the search for a show, if any; `done`
/// says whether `page` held the episode that the search starts from.
pub fn next_search_page(page: u8, done: bool) -> (next: Option<u8>)
    ensures
        next == search_page_after(page, done),
{
    if done || page >= LAST_SEARCH_PAGE {
        None
    } else {
        Some(page + 1)
    }
}

/// The page to read after `page` in the walk through the feed, if any;
/// `entries` is the number of entries on `page`, and `stop` says whether
/// one of them was older than the last check. The feed has no page behind
/// the last that a page number can name.
pub fn next_feed_page(page: u8, entries: usize, stop: bool) -> (next: Option<u8>)
    requires
        entries == 0 || stop || page < u8::MAX,
    ensures
        next == feed_page_after(page, entries as nat, stop),
{
    if entries == 0 || stop {
        None
    } else {
        Some(page + 1)
    }
}

} // verus!

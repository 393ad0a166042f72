//! What is decided over the rows of the shows that are kept.
//!
//! Keeping the rows is the caller's work.

use crate::groups::{group_accepts, group_matches};
use crate::models::{same_quality, Quality};
use crate::text::{chars_of, find_first, first_index, lemma_first_of_is_first, trim, trim_range};
use vstd::prelude::*;

verus! {

/// A show as it is kept: its number, its group, which may be a pattern, and
/// its quality.
#[derive(Debug)]
pub struct ShowRow {
    pub show_id: i64,
    pub group: String,
    pub quality: Option<Quality>,
}

/// Whether a release of `group` in `quality` belongs to the show of `row`.
pub open spec fn row_fits(row: ShowRow, group: Seq<char>, quality: Option<Quality>) -> bool {
    group_accepts(row.group@, group) && row.quality == quality
}

/// `i` is the first of `rows` that the release belongs to.
pub open spec fn is_first_fit(
    rows: Seq<ShowRow>,
    group: Seq<char>,
    quality: Option<Quality>,
    i: int,
) -> bool {
    &&& 0 <= i < rows.len()
    &&& row_fits(rows[i], group, quality)
    &&& forall|j: int| 0 <= j < i ==> !row_fits(#[trigger] rows[j], group, quality)
}

/// The number of the show that a release of `group` in `quality` belongs
/// to: that of the first of `rows` that fits. `rows` are the shows with the
/// release's name.
pub fn get_show_id(rows: &Vec<ShowRow>, group: &str, quality: &Option<Quality>) -> (r: Option<
    i64,
>)
    ensures
        match r {
            Some(id) => exists|i: int|
                #[trigger] is_first_fit(rows@, group@, *quality, i) && rows@[i].show_id == id,
            None => forall|i: int|
                0 <= i < rows@.len() ==> !row_fits(#[trigger] rows@[i], group@, *quality),
        },
{
    let mut k: usize = 0;
    while k < rows.len()
        invariant
            k <= rows.len(),
            forall|j: int| 0 <= j < k ==> !row_fits(#[trigger] rows@[j], group@, *quality),
        decreases rows.len() - k,
    {
        let row = &rows[k];
        if group_matches(row.group.as_str(), group) && same_quality(&row.quality, quality) {
            assert(is_first_fit(rows@, group@, *quality, k as int));
            return Some(row.show_id);
        }
        k = k + 1;
    }
    None
}

/// The statements of a script: its pieces between semicolons, each trimmed,
/// without the empty ones.
pub open spec fn statements_of(script: Seq<char>) -> Seq<Seq<char>>
    decreases script.len(),
    via statements_of_decreases
{
    match first_index(script, ';') {
        Some(i) => kept(trim(script.take(i))) + statements_of(script.skip(i + 1)),
        None => kept(trim(script)),
    }
}

#[via_fn]
proof fn statements_of_decreases(script: Seq<char>) {
    lemma_first_of_is_first(script, ';', ';');
}

/// `piece` as a list of one statement, or of none where it is empty.
pub open spec fn kept(piece: Seq<char>) -> Seq<Seq<char>> {
    if piece.len() > 0 {
        seq![piece]
    } else {
        Seq::empty()
    }
}

/// The views of a list of strings.
pub open spec fn texts(list: Seq<String>) -> Seq<Seq<char>> {
    Seq::new(list.len(), |i: int| list[i]@)
}

/// Splits a script into its statements.
pub fn statements(script: &str) -> (list: Vec<String>)
    ensures
        texts(list@) == statements_of(script@),
{
    let chars = chars_of(script);
    let s = chars.as_slice();
    let n: usize = s.len();
    let mut list: Vec<String> = Vec::new();
    let mut from: usize = 0;
    let mut done = false;
    assert(s@.skip(0) =~= script@);
    assert(texts(list@) =~= Seq::<Seq<char>>::empty());
    while !done
        invariant
            from <= n,
            n == s@.len(),
            s@ == script@,
            !done ==> texts(list@) + statements_of(s@.skip(from as int)) == statements_of(
                script@,
            ),
            done ==> texts(list@) == statements_of(script@),
        decreases n - from + (if done { 0int } else { 1int }),
    {
        let ghost rest = s@.skip(from as int);
        let ghost before = texts(list@);
        assert(rest =~= s@.subrange(from as int, n as int));
        let found = find_first(s, ';', from, n);
        let end: usize = match found {
            Some(i) => i,
            None => n,
        };
        let (a, b) = trim_range(s, from, end);
        proof {
            match found {
                Some(i) => {
                    assert(s@.subrange(from as int, end as int) =~= rest.take(i - from));
                    assert(rest.skip(i - from + 1) =~= s@.skip(i + 1));
                },
                None => {
                    assert(s@.subrange(from as int, end as int) =~= rest);
                },
            }
        }
        if b > a {
            list.push(String::from_str(script.substring_char(a, b)));
            assert(texts(list@) =~= before + kept(s@.subrange(a as int, b as int)));
        } else {
            assert(texts(list@) =~= before + kept(s@.subrange(a as int, b as int)));
        }
        match found {
            Some(i) => {
                from = i + 1;
                assert(texts(list@) + statements_of(s@.skip(from as int)) =~= before
                    + statements_of(rest));
            },
            None => {
                done = true;
                assert(texts(list@) =~= before + statements_of(rest));
            },
        }
    }
    list
}

} // verus!

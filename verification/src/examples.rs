//! One title read by hand, step by step: how the lemmas of `text` settle
//! what `parsed_title` gives on given characters.

use crate::models::{lemma_display_round_trip, EpisodeView, Quality};
use crate::number::{decimal_i32, digits_value};
use crate::text::{
    first_index, lemma_first_of_absent, lemma_first_of_found, lemma_last_index_found,
    lemma_last_separator_found, lemma_trim_bounds, trim,
};
use crate::utils::{
    dash_episode, episode_and_version, extension_of, name_episode_version, parsed_title,
    quality_token, tagged_title,
};
use vstd::prelude::*;

verus! {

/// The fragment ` S - 2 ` names the show `S` and its episode 2, in
/// revision 1.
pub proof fn lemma_example_fragment()
    ensures
        name_episode_version(seq![' ', 'S', ' ', '-', ' ', '2', ' ']) == Some(
            (seq!['S'], 2int, 1int),
        ),
{
    let fragment = seq![' ', 'S', ' ', '-', ' ', '2', ' '];
    // the separator stands at 2, and none stands behind it
    lemma_last_separator_found(fragment, 2);
    // behind it stands `2 `, which is `2` when trimmed
    let behind = fragment.skip(5);
    assert(behind =~= seq!['2', ' ']);
    lemma_trim_bounds(behind, 0, 1);
    let numbers = seq!['2'];
    assert(behind.subrange(0, 1) =~= numbers);
    reveal_strlit(" END");
    // before it stands ` S`, which is `S` when trimmed
    let before = fragment.take(2);
    assert(before =~= seq![' ', 'S']);
    lemma_trim_bounds(before, 1, 2);
    assert(before.subrange(1, 2) =~= seq!['S']);
    // `2` holds no `v` and writes the number 2
    lemma_first_of_absent(numbers, 'v', 'v');
    lemma_trim_bounds(numbers, 0, 1);
    assert(numbers.subrange(0, 1) =~= numbers);
    assert(digits_value(numbers) == 2) by {
        reveal_with_fuel(digits_value, 2);
    }
    assert(decimal_i32(numbers) == Some(2int));
    assert(episode_and_version(numbers) == Some((2int, 1int)));
    assert(dash_episode(fragment) == Some((seq!['S'], 2int, 1int)));
}

/// The tags `[720p].mkv` name the middle tier and the extension `mkv`.
pub proof fn lemma_example_tags()
    ensures
        quality_token(seq!['[', '7', '2', '0', 'p', ']', '.', 'm', 'k', 'v'], ']') == Some(
            "720p"@,
        ),
        extension_of(seq!['[', '7', '2', '0', 'p', ']', '.', 'm', 'k', 'v']) == Some(
            seq!['m', 'k', 'v'],
        ),
{
    let tags = seq!['[', '7', '2', '0', 'p', ']', '.', 'm', 'k', 'v'];
    let inner = tags.skip(1);
    assert(inner =~= seq!['7', '2', '0', 'p', ']', '.', 'm', 'k', 'v']);
    lemma_first_of_found(inner, ']', ' ', 4);
    reveal_strlit("720p");
    assert(tags.subrange(1, 5) =~= "720p"@);
    lemma_last_index_found(tags, '.', 6);
    assert(tags.skip(7) =~= seq!['m', 'k', 'v']);
}

/// The title `[G] S - 2 [720p].mkv` announces episode 2 of the show `S` by
/// the group `G`, in revision 1 and in the middle tier, as an `mkv` file.
pub proof fn lemma_example_title()
    ensures
        parsed_title("[G] S - 2 [720p].mkv"@) == Some(
            EpisodeView {
                group: seq!['G'],
                name: seq!['S'],
                quality: Some(Quality::Mid_720p),
                episode: 2,
                version: 1,
                extension: Some(seq!['m', 'k', 'v']),
            },
        ),
{
    reveal(parsed_title);
    reveal(tagged_title);
    reveal_strlit("[G] S - 2 [720p].mkv");
    reveal_strlit("SubsPlease");
    reveal_strlit("PAS");
    reveal_strlit("VRV]");
    reveal_strlit("WEB ");
    let title = "[G] S - 2 [720p].mkv"@;
    // the group's tag closes at 2
    lemma_first_of_found(title, ']', ']', 2);
    let group = title.subrange(1, 2);
    assert(group =~= seq!['G']);
    // the first tag opens behind the fragment
    let body = title.skip(3);
    lemma_first_of_found(body, '[', '[', 7);
    assert(first_index(body, '[') == Some(7int));
    let fragment = body.take(7);
    assert(fragment =~= seq![' ', 'S', ' ', '-', ' ', '2', ' ']);
    let tags = body.skip(7);
    assert(tags =~= seq!['[', '7', '2', '0', 'p', ']', '.', 'm', 'k', 'v']);
    lemma_example_fragment();
    lemma_example_tags();
    // the first tag announces no revision and is no marker
    assert(tags.skip(0) =~= tags);
    assert(tags.subrange(1, 5) =~= seq!['7', '2', '0', 'p']);
    lemma_display_round_trip(Quality::Mid_720p);
}

} // verus!
